//! The entity store.
//!
//! An entity is a slot of an arena, named by a handle that holds the slot's
//! index and generation. A slot holds at most one component of each kind.
//! Systems change the world as they run in three ways: they change components
//! in place, they mark entities for deletion, and they queue components for
//! entities that they have just created. `World::maintain` ends the tick: it
//! removes what was marked and hands out what was queued.
use vstd::prelude::*;
use crate::effect::ScreenFlash;
use crate::enemy::{Enemy, EnemyEmitter};
use crate::entity::Lifetime;
use crate::money::Money;
use crate::movement::Zigzag;
use crate::particle::{Particle, ParticleEmitter};
use crate::physics::{BoundingBox, Drag, Position, Speed, Velocity};
use crate::pickup::{Pickup, PickupEmitter};
use crate::player::Player;
use crate::projectile::{Projectile, ProjectileEmitter, SplitInto};
use crate::sprite::{RotationFollowsVelocity, Sprite};

verus! {

/// The handle of an entity: the index of its slot, and the generation that the
/// slot had when the entity was created.
#[derive(Clone, Copy, Debug, PartialEq, Eq, Structural)]
pub struct Entity {
    pub index: usize,
    pub generation: u64,
}

/// The kinds of component.
#[derive(Clone, Copy, Debug, PartialEq, Eq, Structural)]
pub enum ComponentKind {
    Position,
    Velocity,
    BoundingBox,
    Drag,
    Speed,
    Lifetime,
    Money,
    Zigzag,
    Sprite,
    RotationFollowsVelocity,
    ScreenFlash,
    Player,
    Enemy,
    EnemyEmitter,
    Projectile,
    SplitInto,
    ProjectileEmitter,
    Particle,
    ParticleEmitter,
    Pickup,
    PickupEmitter,
}

/// A component of any kind.
#[derive(Debug)]
pub enum Component {
    Position(Position),
    Velocity(Velocity),
    BoundingBox(BoundingBox),
    Drag(Drag),
    Speed(Speed),
    Lifetime(Lifetime),
    Money(Money),
    Zigzag(Zigzag),
    Sprite(Sprite),
    RotationFollowsVelocity(RotationFollowsVelocity),
    ScreenFlash(ScreenFlash),
    Player(Player),
    Enemy(Enemy),
    EnemyEmitter(EnemyEmitter),
    Projectile(Projectile),
    SplitInto(SplitInto),
    ProjectileEmitter(ProjectileEmitter),
    Particle(Particle),
    ParticleEmitter(ParticleEmitter),
    Pickup(Pickup),
    PickupEmitter(PickupEmitter),
}

/// The components of one entity, at most one of each kind.
#[derive(Debug)]
pub struct Components {
    pub position: Option<Position>,
    pub velocity: Option<Velocity>,
    pub bounding_box: Option<BoundingBox>,
    pub drag: Option<Drag>,
    pub speed: Option<Speed>,
    pub lifetime: Option<Lifetime>,
    pub money: Option<Money>,
    pub zigzag: Option<Zigzag>,
    pub sprite: Option<Sprite>,
    pub rotation_follows_velocity: Option<RotationFollowsVelocity>,
    pub screen_flash: Option<ScreenFlash>,
    pub player: Option<Player>,
    pub enemy: Option<Enemy>,
    pub enemy_emitter: Option<EnemyEmitter>,
    pub projectile: Option<Projectile>,
    pub split_into: Option<SplitInto>,
    pub projectile_emitter: Option<ProjectileEmitter>,
    pub particle: Option<Particle>,
    pub particle_emitter: Option<ParticleEmitter>,
    pub pickup: Option<Pickup>,
    pub pickup_emitter: Option<PickupEmitter>,
}

impl Component {
    /// The kind of this component.
    pub open spec fn kind(self) -> ComponentKind {
        match self {
            Component::Position(_) => ComponentKind::Position,
            Component::Velocity(_) => ComponentKind::Velocity,
            Component::BoundingBox(_) => ComponentKind::BoundingBox,
            Component::Drag(_) => ComponentKind::Drag,
            Component::Speed(_) => ComponentKind::Speed,
            Component::Lifetime(_) => ComponentKind::Lifetime,
            Component::Money(_) => ComponentKind::Money,
            Component::Zigzag(_) => ComponentKind::Zigzag,
            Component::Sprite(_) => ComponentKind::Sprite,
            Component::RotationFollowsVelocity(_) => ComponentKind::RotationFollowsVelocity,
            Component::ScreenFlash(_) => ComponentKind::ScreenFlash,
            Component::Player(_) => ComponentKind::Player,
            Component::Enemy(_) => ComponentKind::Enemy,
            Component::EnemyEmitter(_) => ComponentKind::EnemyEmitter,
            Component::Projectile(_) => ComponentKind::Projectile,
            Component::SplitInto(_) => ComponentKind::SplitInto,
            Component::ProjectileEmitter(_) => ComponentKind::ProjectileEmitter,
            Component::Particle(_) => ComponentKind::Particle,
            Component::ParticleEmitter(_) => ComponentKind::ParticleEmitter,
            Component::Pickup(_) => ComponentKind::Pickup,
            Component::PickupEmitter(_) => ComponentKind::PickupEmitter,
        }
    }
}

impl Components {
    /// No component at all.
    pub open spec fn none() -> Components {
        Components {
            position: None,
            velocity: None,
            bounding_box: None,
            drag: None,
            speed: None,
            lifetime: None,
            money: None,
            zigzag: None,
            sprite: None,
            rotation_follows_velocity: None,
            screen_flash: None,
            player: None,
            enemy: None,
            enemy_emitter: None,
            projectile: None,
            split_into: None,
            projectile_emitter: None,
            particle: None,
            particle_emitter: None,
            pickup: None,
            pickup_emitter: None,
        }
    }

    /// Whether a component of the kind is present.
    pub open spec fn has(self, kind: ComponentKind) -> bool {
        match kind {
            ComponentKind::Position => self.position is Some,
            ComponentKind::Velocity => self.velocity is Some,
            ComponentKind::BoundingBox => self.bounding_box is Some,
            ComponentKind::Drag => self.drag is Some,
            ComponentKind::Speed => self.speed is Some,
            ComponentKind::Lifetime => self.lifetime is Some,
            ComponentKind::Money => self.money is Some,
            ComponentKind::Zigzag => self.zigzag is Some,
            ComponentKind::Sprite => self.sprite is Some,
            ComponentKind::RotationFollowsVelocity => self.rotation_follows_velocity is Some,
            ComponentKind::ScreenFlash => self.screen_flash is Some,
            ComponentKind::Player => self.player is Some,
            ComponentKind::Enemy => self.enemy is Some,
            ComponentKind::EnemyEmitter => self.enemy_emitter is Some,
            ComponentKind::Projectile => self.projectile is Some,
            ComponentKind::SplitInto => self.split_into is Some,
            ComponentKind::ProjectileEmitter => self.projectile_emitter is Some,
            ComponentKind::Particle => self.particle is Some,
            ComponentKind::ParticleEmitter => self.particle_emitter is Some,
            ComponentKind::Pickup => self.pickup is Some,
            ComponentKind::PickupEmitter => self.pickup_emitter is Some,
        }
    }

    /// Whether a component of each of the kinds is present.
    pub open spec fn has_all(self, kinds: Seq<ComponentKind>) -> bool {
        forall|k: int| 0 <= k < kinds.len() ==> self.has(#[trigger] kinds[k])
    }

    /// These components with one more, in place of any other of its kind.
    pub open spec fn with(self, component: Component) -> Components {
        match component {
            Component::Position(c) => Components { position: Some(c), ..self },
            Component::Velocity(c) => Components { velocity: Some(c), ..self },
            Component::BoundingBox(c) => Components { bounding_box: Some(c), ..self },
            Component::Drag(c) => Components { drag: Some(c), ..self },
            Component::Speed(c) => Components { speed: Some(c), ..self },
            Component::Lifetime(c) => Components { lifetime: Some(c), ..self },
            Component::Money(c) => Components { money: Some(c), ..self },
            Component::Zigzag(c) => Components { zigzag: Some(c), ..self },
            Component::Sprite(c) => Components { sprite: Some(c), ..self },
            Component::RotationFollowsVelocity(c) => Components {
                rotation_follows_velocity: Some(c),
                ..self
            },
            Component::ScreenFlash(c) => Components { screen_flash: Some(c), ..self },
            Component::Player(c) => Components { player: Some(c), ..self },
            Component::Enemy(c) => Components { enemy: Some(c), ..self },
            Component::EnemyEmitter(c) => Components { enemy_emitter: Some(c), ..self },
            Component::Projectile(c) => Components { projectile: Some(c), ..self },
            Component::SplitInto(c) => Components { split_into: Some(c), ..self },
            Component::ProjectileEmitter(c) => Components { projectile_emitter: Some(c), ..self },
            Component::Particle(c) => Components { particle: Some(c), ..self },
            Component::ParticleEmitter(c) => Components { particle_emitter: Some(c), ..self },
            Component::Pickup(c) => Components { pickup: Some(c), ..self },
            Component::PickupEmitter(c) => Components { pickup_emitter: Some(c), ..self },
        }
    }

    /// These components but the one of the kind.
    pub open spec fn without(self, kind: ComponentKind) -> Components {
        match kind {
            ComponentKind::Position => Components { position: None, ..self },
            ComponentKind::Velocity => Components { velocity: None, ..self },
            ComponentKind::BoundingBox => Components { bounding_box: None, ..self },
            ComponentKind::Drag => Components { drag: None, ..self },
            ComponentKind::Speed => Components { speed: None, ..self },
            ComponentKind::Lifetime => Components { lifetime: None, ..self },
            ComponentKind::Money => Components { money: None, ..self },
            ComponentKind::Zigzag => Components { zigzag: None, ..self },
            ComponentKind::Sprite => Components { sprite: None, ..self },
            ComponentKind::RotationFollowsVelocity => Components {
                rotation_follows_velocity: None,
                ..self
            },
            ComponentKind::ScreenFlash => Components { screen_flash: None, ..self },
            ComponentKind::Player => Components { player: None, ..self },
            ComponentKind::Enemy => Components { enemy: None, ..self },
            ComponentKind::EnemyEmitter => Components { enemy_emitter: None, ..self },
            ComponentKind::Projectile => Components { projectile: None, ..self },
            ComponentKind::SplitInto => Components { split_into: None, ..self },
            ComponentKind::ProjectileEmitter => Components { projectile_emitter: None, ..self },
            ComponentKind::Particle => Components { particle: None, ..self },
            ComponentKind::ParticleEmitter => Components { particle_emitter: None, ..self },
            ComponentKind::Pickup => Components { pickup: None, ..self },
            ComponentKind::PickupEmitter => Components { pickup_emitter: None, ..self },
        }
    }

    /// These components and those of `other`; where both hold one of a kind,
    /// that of `other`.
    pub open spec fn merged(self, other: Components) -> Components {
        Components {
            position: if other.position is Some {
                other.position
            } else {
                self.position
            },
            velocity: if other.velocity is Some {
                other.velocity
            } else {
                self.velocity
            },
            bounding_box: if other.bounding_box is Some {
                other.bounding_box
            } else {
                self.bounding_box
            },
            drag: if other.drag is Some {
                other.drag
            } else {
                self.drag
            },
            speed: if other.speed is Some {
                other.speed
            } else {
                self.speed
            },
            lifetime: if other.lifetime is Some {
                other.lifetime
            } else {
                self.lifetime
            },
            money: if other.money is Some {
                other.money
            } else {
                self.money
            },
            zigzag: if other.zigzag is Some {
                other.zigzag
            } else {
                self.zigzag
            },
            sprite: if other.sprite is Some {
                other.sprite
            } else {
                self.sprite
            },
            rotation_follows_velocity: if other.rotation_follows_velocity is Some {
                other.rotation_follows_velocity
            } else {
                self.rotation_follows_velocity
            },
            screen_flash: if other.screen_flash is Some {
                other.screen_flash
            } else {
                self.screen_flash
            },
            player: if other.player is Some {
                other.player
            } else {
                self.player
            },
            enemy: if other.enemy is Some {
                other.enemy
            } else {
                self.enemy
            },
            enemy_emitter: if other.enemy_emitter is Some {
                other.enemy_emitter
            } else {
                self.enemy_emitter
            },
            projectile: if other.projectile is Some {
                other.projectile
            } else {
                self.projectile
            },
            split_into: if other.split_into is Some {
                other.split_into
            } else {
                self.split_into
            },
            projectile_emitter: if other.projectile_emitter is Some {
                other.projectile_emitter
            } else {
                self.projectile_emitter
            },
            particle: if other.particle is Some {
                other.particle
            } else {
                self.particle
            },
            particle_emitter: if other.particle_emitter is Some {
                other.particle_emitter
            } else {
                self.particle_emitter
            },
            pickup: if other.pickup is Some {
                other.pickup
            } else {
                self.pickup
            },
            pickup_emitter: if other.pickup_emitter is Some {
                other.pickup_emitter
            } else {
                self.pickup_emitter
            },
        }
    }

    /// No component at all.
    pub fn empty() -> (c: Components)
        ensures
            c == Components::none(),
    {
        Components {
            position: None,
            velocity: None,
            bounding_box: None,
            drag: None,
            speed: None,
            lifetime: None,
            money: None,
            zigzag: None,
            sprite: None,
            rotation_follows_velocity: None,
            screen_flash: None,
            player: None,
            enemy: None,
            enemy_emitter: None,
            projectile: None,
            split_into: None,
            projectile_emitter: None,
            particle: None,
            particle_emitter: None,
            pickup: None,
            pickup_emitter: None,
        }
    }

    /// Whether a component of the kind is present.
    pub fn holds(&self, kind: ComponentKind) -> (b: bool)
        ensures
            b == self.has(kind),
    {
        match kind {
            ComponentKind::Position => self.position.is_some(),
            ComponentKind::Velocity => self.velocity.is_some(),
            ComponentKind::BoundingBox => self.bounding_box.is_some(),
            ComponentKind::Drag => self.drag.is_some(),
            ComponentKind::Speed => self.speed.is_some(),
            ComponentKind::Lifetime => self.lifetime.is_some(),
            ComponentKind::Money => self.money.is_some(),
            ComponentKind::Zigzag => self.zigzag.is_some(),
            ComponentKind::Sprite => self.sprite.is_some(),
            ComponentKind::RotationFollowsVelocity => self.rotation_follows_velocity.is_some(),
            ComponentKind::ScreenFlash => self.screen_flash.is_some(),
            ComponentKind::Player => self.player.is_some(),
            ComponentKind::Enemy => self.enemy.is_some(),
            ComponentKind::EnemyEmitter => self.enemy_emitter.is_some(),
            ComponentKind::Projectile => self.projectile.is_some(),
            ComponentKind::SplitInto => self.split_into.is_some(),
            ComponentKind::ProjectileEmitter => self.projectile_emitter.is_some(),
            ComponentKind::Particle => self.particle.is_some(),
            ComponentKind::ParticleEmitter => self.particle_emitter.is_some(),
            ComponentKind::Pickup => self.pickup.is_some(),
            ComponentKind::PickupEmitter => self.pickup_emitter.is_some(),
        }
    }

    /// Whether a component of each of the kinds is present.
    pub fn holds_all(&self, kinds: &Vec<ComponentKind>) -> (b: bool)
        ensures
            b == self.has_all(kinds@),
    {
        let mut k: usize = 0;
        while k < kinds.len()
            invariant
                k <= kinds.len(),
                forall|j: int| 0 <= j < k ==> self.has(#[trigger] kinds@[j]),
            decreases kinds.len() - k,
        {
            if !self.holds(kinds[k]) {
                return false;
            }
            k = k + 1;
        }
        true
    }

    /// Puts a component in, in place of any other of its kind.
    pub fn insert(&mut self, component: Component)
        ensures
            *final(self) == old(self).with(component),
    {
        match component {
            Component::Position(c) => {
                self.position = Some(c);
            },
            Component::Velocity(c) => {
                self.velocity = Some(c);
            },
            Component::BoundingBox(c) => {
                self.bounding_box = Some(c);
            },
            Component::Drag(c) => {
                self.drag = Some(c);
            },
            Component::Speed(c) => {
                self.speed = Some(c);
            },
            Component::Lifetime(c) => {
                self.lifetime = Some(c);
            },
            Component::Money(c) => {
                self.money = Some(c);
            },
            Component::Zigzag(c) => {
                self.zigzag = Some(c);
            },
            Component::Sprite(c) => {
                self.sprite = Some(c);
            },
            Component::RotationFollowsVelocity(c) => {
                self.rotation_follows_velocity = Some(c);
            },
            Component::ScreenFlash(c) => {
                self.screen_flash = Some(c);
            },
            Component::Player(c) => {
                self.player = Some(c);
            },
            Component::Enemy(c) => {
                self.enemy = Some(c);
            },
            Component::EnemyEmitter(c) => {
                self.enemy_emitter = Some(c);
            },
            Component::Projectile(c) => {
                self.projectile = Some(c);
            },
            Component::SplitInto(c) => {
                self.split_into = Some(c);
            },
            Component::ProjectileEmitter(c) => {
                self.projectile_emitter = Some(c);
            },
            Component::Particle(c) => {
                self.particle = Some(c);
            },
            Component::ParticleEmitter(c) => {
                self.particle_emitter = Some(c);
            },
            Component::Pickup(c) => {
                self.pickup = Some(c);
            },
            Component::PickupEmitter(c) => {
                self.pickup_emitter = Some(c);
            },
        }
    }

    /// Takes the component of a kind out.
    pub fn remove(&mut self, kind: ComponentKind)
        ensures
            *final(self) == old(self).without(kind),
    {
        match kind {
            ComponentKind::Position => {
                self.position = None;
            },
            ComponentKind::Velocity => {
                self.velocity = None;
            },
            ComponentKind::BoundingBox => {
                self.bounding_box = None;
            },
            ComponentKind::Drag => {
                self.drag = None;
            },
            ComponentKind::Speed => {
                self.speed = None;
            },
            ComponentKind::Lifetime => {
                self.lifetime = None;
            },
            ComponentKind::Money => {
                self.money = None;
            },
            ComponentKind::Zigzag => {
                self.zigzag = None;
            },
            ComponentKind::Sprite => {
                self.sprite = None;
            },
            ComponentKind::RotationFollowsVelocity => {
                self.rotation_follows_velocity = None;
            },
            ComponentKind::ScreenFlash => {
                self.screen_flash = None;
            },
            ComponentKind::Player => {
                self.player = None;
            },
            ComponentKind::Enemy => {
                self.enemy = None;
            },
            ComponentKind::EnemyEmitter => {
                self.enemy_emitter = None;
            },
            ComponentKind::Projectile => {
                self.projectile = None;
            },
            ComponentKind::SplitInto => {
                self.split_into = None;
            },
            ComponentKind::ProjectileEmitter => {
                self.projectile_emitter = None;
            },
            ComponentKind::Particle => {
                self.particle = None;
            },
            ComponentKind::ParticleEmitter => {
                self.particle_emitter = None;
            },
            ComponentKind::Pickup => {
                self.pickup = None;
            },
            ComponentKind::PickupEmitter => {
                self.pickup_emitter = None;
            },
        }
    }

    /// These components and those of `other`; where both hold one of a kind,
    /// that of `other`.
    pub fn merge(self, other: Components) -> (c: Components)
        ensures
            c == self.merged(other),
    {
        Components {
            position: either(self.position, other.position),
            velocity: either(self.velocity, other.velocity),
            bounding_box: either(self.bounding_box, other.bounding_box),
            drag: either(self.drag, other.drag),
            speed: either(self.speed, other.speed),
            lifetime: either(self.lifetime, other.lifetime),
            money: either(self.money, other.money),
            zigzag: either(self.zigzag, other.zigzag),
            sprite: either(self.sprite, other.sprite),
            rotation_follows_velocity: either(
                self.rotation_follows_velocity,
                other.rotation_follows_velocity,
            ),
            screen_flash: either(self.screen_flash, other.screen_flash),
            player: either(self.player, other.player),
            enemy: either(self.enemy, other.enemy),
            enemy_emitter: either(self.enemy_emitter, other.enemy_emitter),
            projectile: either(self.projectile, other.projectile),
            split_into: either(self.split_into, other.split_into),
            projectile_emitter: either(self.projectile_emitter, other.projectile_emitter),
            particle: either(self.particle, other.particle),
            particle_emitter: either(self.particle_emitter, other.particle_emitter),
            pickup: either(self.pickup, other.pickup),
            pickup_emitter: either(self.pickup_emitter, other.pickup_emitter),
        }
    }
}

/// The second option where it holds a value, else the first.
fn either<T>(base: Option<T>, over: Option<T>) -> (r: Option<T>)
    ensures
        r == (if over is Some {
            over
        } else {
            base
        }),
{
    if over.is_some() {
        over
    } else {
        base
    }
}

/// One slot of the arena. `generation` counts how often the slot has been
/// given out again; `doomed` marks an entity that the next `maintain` removes.
#[derive(Debug)]
pub struct Slot {
    pub generation: u64,
    pub alive: bool,
    pub doomed: bool,
    pub components: Components,
}

/// The entities and their components, and the components that are queued
/// until the tick ends.
#[derive(Debug)]
pub struct World {
    pub slots: Vec<Slot>,
    pub pending: Vec<(Entity, Components)>,
}

/// Whether the handle names an entity that exists.
pub open spec fn live(slots: Seq<Slot>, e: Entity) -> bool {
    &&& e.index < slots.len()
    &&& slots[e.index as int].alive
    &&& slots[e.index as int].generation == e.generation
}

/// Whether a slot can be given out: it is empty and its generation can still
/// be raised.
pub open spec fn vacant(slot: Slot) -> bool {
    !slot.alive && slot.generation < u64::MAX
}

/// The index of the first vacant slot at or after `from`; the number of slots
/// where there is none.
pub open spec fn first_vacant(slots: Seq<Slot>, from: int) -> int
    decreases slots.len() - from,
{
    if from >= slots.len() {
        slots.len() as int
    } else if vacant(slots[from]) {
        from
    } else {
        first_vacant(slots, from + 1)
    }
}

/// A slot that holds a new entity without components.
pub open spec fn fresh(generation: u64) -> Slot {
    Slot { generation, alive: true, doomed: false, components: Components::none() }
}

/// The handle of the entity that `create` makes.
pub open spec fn next_entity(slots: Seq<Slot>) -> Entity {
    let i = first_vacant(slots, 0);
    if i < slots.len() {
        Entity { index: i as usize, generation: (slots[i].generation + 1) as u64 }
    } else {
        Entity { index: i as usize, generation: 0 }
    }
}

/// The slots after `create`: the new entity takes the first vacant slot, under
/// the next generation, or a new slot at the end.
pub open spec fn created(slots: Seq<Slot>) -> Seq<Slot> {
    let e = next_entity(slots);
    if e.index < slots.len() {
        slots.update(e.index as int, fresh(e.generation))
    } else {
        slots.push(fresh(e.generation))
    }
}

/// The slots after `delete`: the entity is marked, if it exists.
pub open spec fn marked(slots: Seq<Slot>, e: Entity) -> Seq<Slot> {
    if live(slots, e) {
        slots.update(e.index as int, Slot { doomed: true, ..slots[e.index as int] })
    } else {
        slots
    }
}

/// The slots after the entity, if it exists, has been given a bundle of
/// components.
pub open spec fn filled(slots: Seq<Slot>, e: Entity, bundle: Components) -> Seq<Slot> {
    if live(slots, e) {
        slots.update(
            e.index as int,
            Slot {
                components: slots[e.index as int].components.merged(bundle),
                ..slots[e.index as int]
            },
        )
    } else {
        slots
    }
}

/// The slots after the first `n` bundles of the queue have been handed out, in
/// order.
pub open spec fn filled_upto(slots: Seq<Slot>, queue: Seq<(Entity, Components)>, n: int) -> Seq<
    Slot,
>
    decreases n,
{
    if n <= 0 {
        slots
    } else {
        filled(filled_upto(slots, queue, n - 1), queue[n - 1].0, queue[n - 1].1)
    }
}

/// An empty slot of the given generation.
pub open spec fn cleared(generation: u64) -> Slot {
    Slot { generation, alive: false, doomed: false, components: Components::none() }
}

/// A slot after the sweep: a marked entity is gone, with its components.
pub open spec fn swept(slot: Slot) -> Slot {
    if slot.alive && slot.doomed {
        cleared(slot.generation)
    } else {
        slot
    }
}

/// A slot after every entity has been removed.
pub open spec fn wiped(slot: Slot) -> Slot {
    if slot.alive {
        cleared(slot.generation)
    } else {
        slot
    }
}

/// Whether the slot holds an entity with a component of each of the kinds.
pub open spec fn matches_all(slot: Slot, kinds: Seq<ComponentKind>) -> bool {
    slot.alive && slot.components.has_all(kinds)
}

/// The handle of the entity in slot `i`.
pub open spec fn handle(slots: Seq<Slot>, i: int) -> Entity {
    Entity { index: i as usize, generation: slots[i].generation }
}

/// Whether `after` is `before` with `step` applied to every slot, and the
/// same queue.
pub open spec fn mapped(before: World, after: World, step: spec_fn(Slot) -> Slot) -> bool {
    &&& after.slots@ == before.slots@.map_values(step)
    &&& after.pending == before.pending
}

/// Marking an entity a second time changes nothing.
pub proof fn lemma_delete_idempotent(slots: Seq<Slot>, e: Entity)
    ensures
        marked(marked(slots, e), e) == marked(slots, e),
{
}

/// Marking an entity that does not exist changes nothing.
pub proof fn lemma_delete_absent(slots: Seq<Slot>, e: Entity)
    requires
        !live(slots, e),
    ensures
        marked(slots, e) == slots,
{
}

/// After the sweep, two deletions of an entity leave what one leaves.
pub proof fn lemma_delete_twice_swept(slots: Seq<Slot>, e: Entity)
    ensures
        marked(marked(slots, e), e).map_values(|s: Slot| swept(s)) == marked(slots, e).map_values(
            |s: Slot| swept(s),
        ),
{
}

/// The first vacant slot at or after `from` is vacant, if there is one, and
/// no slot between `from` and it is.
pub proof fn lemma_first_vacant(slots: Seq<Slot>, from: int)
    requires
        0 <= from <= slots.len(),
    ensures
        from <= first_vacant(slots, from) <= slots.len(),
        first_vacant(slots, from) < slots.len() ==> vacant(slots[first_vacant(slots, from)]),
        forall|j: int| from <= j < first_vacant(slots, from) ==> !vacant(#[trigger] slots[j]),
    decreases slots.len() - from,
{
    if from < slots.len() && !vacant(slots[from]) {
        lemma_first_vacant(slots, from + 1);
    }
}

/// The items in reverse order.
fn reversed<T>(items: Vec<T>) -> (r: Vec<T>)
    ensures
        r@.len() == items@.len(),
        forall|j: int| 0 <= j < r@.len() ==> r@[j] == items@[items@.len() - 1 - j],
{
    let mut items = items;
    let ghost all = items@;
    let mut r: Vec<T> = Vec::new();
    while items.len() > 0
        invariant
            items@.len() + r@.len() == all.len(),
            forall|j: int| 0 <= j < items@.len() ==> items@[j] == all[j],
            forall|j: int| 0 <= j < r@.len() ==> r@[j] == all[all.len() - 1 - j],
        decreases items@.len(),
    {
        match items.pop() {
            Some(item) => {
                r.push(item);
            },
            None => {},
        }
    }
    r
}

/// The slots after `k` entities have been created, one after the other.
pub open spec fn spawned_slots(slots: Seq<Slot>, k: int) -> Seq<Slot>
    decreases k,
{
    if k <= 0 {
        slots
    } else {
        created(spawned_slots(slots, k - 1))
    }
}

/// The queue after the first `k` of the bundles have each been queued for an
/// entity created for it, one after the other.
pub open spec fn spawned_queue(
    slots: Seq<Slot>,
    queue: Seq<(Entity, Components)>,
    bundles: Seq<Components>,
    k: int,
) -> Seq<(Entity, Components)>
    decreases k,
{
    if k <= 0 {
        queue
    } else {
        spawned_queue(slots, queue, bundles, k - 1).push(
            (next_entity(spawned_slots(slots, k - 1)), bundles[k - 1]),
        )
    }
}

/// The indices of the slots before `n` that satisfy `pred`, in order.
pub open spec fn sources(slots: Seq<Slot>, pred: spec_fn(Slot) -> bool, n: int) -> Seq<int>
    decreases n,
{
    if n <= 0 {
        Seq::empty()
    } else if pred(slots[n - 1]) {
        sources(slots, pred, n - 1).push(n - 1)
    } else {
        sources(slots, pred, n - 1)
    }
}

/// Whether bundle `k` is made from the `k`-th of the slots before `n` that
/// satisfy `pred`, as `made` says.
pub open spec fn made_at(
    slots: Seq<Slot>,
    bundles: Seq<Components>,
    pred: spec_fn(Slot) -> bool,
    made: spec_fn(Components, Slot) -> bool,
    n: int,
    k: int,
) -> bool {
    let from = sources(slots, pred, n);
    &&& 0 <= from[k] < n
    &&& pred(slots[from[k]])
    &&& made(bundles[k], slots[from[k]])
}

/// Whether `bundles` holds one bundle for each of the slots before `n` that
/// satisfy `pred`, in the order of the slots, each made from its slot as
/// `made` says.
pub open spec fn made_from(
    slots: Seq<Slot>,
    bundles: Seq<Components>,
    pred: spec_fn(Slot) -> bool,
    made: spec_fn(Components, Slot) -> bool,
    n: int,
) -> bool {
    &&& bundles.len() == sources(slots, pred, n).len()
    &&& forall|k: int|
        0 <= k < bundles.len() ==> #[trigger] made_at(slots, bundles, pred, made, n, k)
}

/// One more slot that satisfies `pred`, and one more bundle made from it.
pub proof fn lemma_made_push(
    slots: Seq<Slot>,
    bundles: Seq<Components>,
    bundle: Components,
    pred: spec_fn(Slot) -> bool,
    made: spec_fn(Components, Slot) -> bool,
    n: int,
)
    requires
        0 <= n,
        made_from(slots, bundles, pred, made, n),
        pred(slots[n]),
        made(bundle, slots[n]),
    ensures
        made_from(slots, bundles.push(bundle), pred, made, n + 1),
{
    let from = sources(slots, pred, n);
    assert forall|k: int| 0 <= k < bundles.len() + 1 implies #[trigger] made_at(
        slots,
        bundles.push(bundle),
        pred,
        made,
        n + 1,
        k,
    ) by {
        if k < bundles.len() {
            assert(made_at(slots, bundles, pred, made, n, k));
        }
    }
}

/// One more slot that does not satisfy `pred`.
pub proof fn lemma_made_skip(
    slots: Seq<Slot>,
    bundles: Seq<Components>,
    pred: spec_fn(Slot) -> bool,
    made: spec_fn(Components, Slot) -> bool,
    n: int,
)
    requires
        0 <= n,
        made_from(slots, bundles, pred, made, n),
        !pred(slots[n]),
    ensures
        made_from(slots, bundles, pred, made, n + 1),
{
    assert forall|k: int| 0 <= k < bundles.len() implies #[trigger] made_at(
        slots,
        bundles,
        pred,
        made,
        n + 1,
        k,
    ) by {
        assert(made_at(slots, bundles, pred, made, n, k));
    }
}

/// Creating entities leaves every entity that exists as it is.
pub proof fn lemma_spawned_keeps(slots: Seq<Slot>, k: int)
    requires
        spawned_slots(slots, k).len() <= usize::MAX,
    ensures
        spawned_slots(slots, k).len() >= slots.len(),
        forall|i: int|
            0 <= i < slots.len() && (#[trigger] slots[i]).alive ==> spawned_slots(slots, k)[i]
                == slots[i],
    decreases k,
{
    if k > 0 {
        let before = spawned_slots(slots, k - 1);
        lemma_first_vacant(before, 0);
        lemma_spawned_keeps(slots, k - 1);
        let e = next_entity(before);
    }
}

/// Queueing bundles for new entities leaves what was queued before as it is,
/// and adds one entry for each bundle, in order.
pub proof fn lemma_spawned_queue(
    slots: Seq<Slot>,
    queue: Seq<(Entity, Components)>,
    bundles: Seq<Components>,
    k: int,
)
    requires
        0 <= k <= bundles.len(),
    ensures
        spawned_queue(slots, queue, bundles, k).len() == queue.len() + k,
        forall|i: int|
            0 <= i < queue.len() ==> #[trigger] spawned_queue(slots, queue, bundles, k)[i]
                == queue[i],
        forall|j: int|
            0 <= j < k ==> (#[trigger] spawned_queue(slots, queue, bundles, k)[queue.len() + j]).1
                == bundles[j],
    decreases k,
{
    if k > 0 {
        lemma_spawned_queue(slots, queue, bundles, k - 1);
    }
}

impl World {
    /// A world without entities.
    pub fn new() -> (w: World)
        ensures
            w.slots@.len() == 0,
            w.pending@.len() == 0,
    {
        World { slots: Vec::new(), pending: Vec::new() }
    }

    /// Whether the handle names an entity that exists.
    pub fn is_alive(&self, e: Entity) -> (b: bool)
        ensures
            b == live(self.slots@, e),
    {
        e.index < self.slots.len() && self.slots[e.index].alive && self.slots[e.index].generation
            == e.generation
    }

    /// The components of an entity, if it exists.
    pub fn get(&self, e: Entity) -> (c: Option<&Components>)
        ensures
            live(self.slots@, e) ==> c == Some(&self.slots@[e.index as int].components),
            !live(self.slots@, e) ==> c is None,
    {
        if self.is_alive(e) {
            Some(&self.slots[e.index].components)
        } else {
            None
        }
    }

    /// Creates an entity without components. It takes the first vacant slot,
    /// under the next generation, or a new slot at the end.
    pub fn create(&mut self) -> (e: Entity)
        ensures
            e == next_entity(old(self).slots@),
            final(self).slots@ == created(old(self).slots@),
            final(self).pending == old(self).pending,
            live(final(self).slots@, e),
            !live(old(self).slots@, e),
    {
        let n: usize = self.slots.len();
        let mut i: usize = 0;
        while i < n
            invariant
                n == self.slots@.len(),
                *self == *old(self),
                0 <= i <= n,
                first_vacant(self.slots@, 0) == first_vacant(self.slots@, i as int),
            decreases n - i,
        {
            if !self.slots[i].alive && self.slots[i].generation < u64::MAX {
                let generation: u64 = self.slots[i].generation + 1;
                self.slots[i] = Slot {
                    generation,
                    alive: true,
                    doomed: false,
                    components: Components::empty(),
                };
                return Entity { index: i, generation };
            }
            i = i + 1;
        }
        self.slots.push(
            Slot { generation: 0, alive: true, doomed: false, components: Components::empty() },
        );
        Entity { index: n, generation: 0 }
    }

    /// Marks an entity for deletion at the end of the tick. Nothing happens
    /// where the entity does not exist, or is marked already.
    pub fn delete(&mut self, e: Entity)
        ensures
            final(self).slots@ == marked(old(self).slots@, e),
            final(self).pending == old(self).pending,
    {
        if self.is_alive(e) {
            self.slots[e.index].doomed = true;
        }
    }

    /// Gives an entity a component at once, in place of any other of its
    /// kind. Says whether the entity exists.
    pub fn attach(&mut self, e: Entity, component: Component) -> (done: bool)
        ensures
            done == live(old(self).slots@, e),
            final(self).slots@ == filled(
                old(self).slots@,
                e,
                Components::none().with(component),
            ),
            final(self).pending == old(self).pending,
    {
        let mut bundle = Components::empty();
        bundle.insert(component);
        self.insert(e, bundle)
    }

    /// Takes the component of a kind from an entity at once. Says whether the
    /// entity exists.
    pub fn detach(&mut self, e: Entity, kind: ComponentKind) -> (done: bool)
        ensures
            done == live(old(self).slots@, e),
            done ==> final(self).slots@ == old(self).slots@.update(
                e.index as int,
                Slot {
                    components: old(self).slots@[e.index as int].components.without(kind),
                    ..old(self).slots@[e.index as int]
                },
            ),
            !done ==> final(self).slots@ == old(self).slots@,
            final(self).pending == old(self).pending,
    {
        if self.is_alive(e) {
            self.slots[e.index].components.remove(kind);
            true
        } else {
            false
        }
    }

    /// Gives an entity a bundle of components at once. Says whether the
    /// entity exists.
    pub fn insert(&mut self, e: Entity, bundle: Components) -> (done: bool)
        ensures
            done == live(old(self).slots@, e),
            final(self).slots@ == filled(old(self).slots@, e, bundle),
            final(self).pending == old(self).pending,
    {
        if self.is_alive(e) {
            let mut held = Components::empty();
            core::mem::swap(&mut held, &mut self.slots[e.index].components);
            self.slots[e.index].components = held.merge(bundle);
            true
        } else {
            false
        }
    }

    /// Queues a bundle of components for an entity, to be handed out when
    /// the tick ends.
    pub fn lazy_insert(&mut self, e: Entity, bundle: Components)
        ensures
            final(self).slots == old(self).slots,
            final(self).pending@ == old(self).pending@.push((e, bundle)),
    {
        self.pending.push((e, bundle));
    }

    /// Creates an entity with a bundle of components.
    pub fn spawn(&mut self, bundle: Components) -> (e: Entity)
        ensures
            e == next_entity(old(self).slots@),
            final(self).slots@ == filled(created(old(self).slots@), e, bundle),
            final(self).pending == old(self).pending,
            live(final(self).slots@, e),
    {
        let e = self.create();
        self.insert(e, bundle);
        e
    }

    /// Creates an entity and queues a bundle of components for it: until the
    /// tick ends the entity exists without components.
    pub fn lazy_spawn(&mut self, bundle: Components) -> (e: Entity)
        ensures
            e == next_entity(old(self).slots@),
            final(self).slots@ == created(old(self).slots@),
            final(self).pending@ == old(self).pending@.push((e, bundle)),
    {
        let e = self.create();
        self.lazy_insert(e, bundle);
        e
    }

    /// Creates an entity for each bundle, in order, and queues the bundle for
    /// it.
    pub fn lazy_spawn_all(&mut self, bundles: Vec<Components>)
        ensures
            final(self).slots@ == spawned_slots(old(self).slots@, bundles@.len() as int),
            final(self).pending@ == spawned_queue(
                old(self).slots@,
                old(self).pending@,
                bundles@,
                bundles@.len() as int,
            ),
    {
        let ghost all = bundles@;
        let mut stack = reversed(bundles);
        let total: usize = stack.len();
        let mut done: usize = 0;
        while done < total
            invariant
                total == all.len(),
                0 <= done <= total,
                stack@.len() == total - done,
                forall|j: int| 0 <= j < stack@.len() ==> stack@[j] == all[all.len() - 1 - j],
                self.slots@ == spawned_slots(old(self).slots@, done as int),
                self.pending@ == spawned_queue(
                    old(self).slots@,
                    old(self).pending@,
                    all,
                    done as int,
                ),
            decreases total - done,
        {
            match stack.pop() {
                Some(bundle) => {
                    self.lazy_spawn(bundle);
                },
                None => {},
            }
            done = done + 1;
        }
    }

    /// Ends the tick: removes every marked entity with its components, then
    /// hands out the queued bundles in order, each to its entity if that
    /// still exists.
    pub fn maintain(&mut self)
        ensures
            final(self).slots@ == filled_upto(
                old(self).slots@.map_values(|s: Slot| swept(s)),
                old(self).pending@,
                old(self).pending@.len() as int,
            ),
            final(self).pending@.len() == 0,
    {
        let n: usize = self.slots.len();
        let mut i: usize = 0;
        while i < n
            invariant
                n == self.slots@.len(),
                n == old(self).slots@.len(),
                0 <= i <= n,
                self.pending == old(self).pending,
                forall|j: int| 0 <= j < i ==> #[trigger] self.slots@[j] == swept(old(self).slots@[j]),
                forall|j: int| i <= j < n ==> #[trigger] self.slots@[j] == old(self).slots@[j],
            decreases n - i,
        {
            if self.slots[i].alive && self.slots[i].doomed {
                let generation: u64 = self.slots[i].generation;
                self.slots[i] = Slot {
                    generation,
                    alive: false,
                    doomed: false,
                    components: Components::empty(),
                };
            }
            i = i + 1;
        }
        let ghost base = old(self).slots@.map_values(|s: Slot| swept(s));
        let ghost all = old(self).pending@;
        let mut queue: Vec<(Entity, Components)> = Vec::new();
        core::mem::swap(&mut queue, &mut self.pending);
        let mut queue = reversed(queue);
        let total: usize = queue.len();
        let mut done: usize = 0;
        while done < total
            invariant
                total == all.len(),
                0 <= done <= total,
                queue@.len() == total - done,
                forall|j: int| 0 <= j < queue@.len() ==> queue@[j] == all[all.len() - 1 - j],
                self.slots@ == filled_upto(base, all, done as int),
                self.pending@.len() == 0,
            decreases total - done,
        {
            match queue.pop() {
                Some(item) => {
                    let (e, bundle) = item;
                    self.insert(e, bundle);
                },
                None => {},
            }
            done = done + 1;
        }
    }

    /// Removes every entity with its components at once, and empties the
    /// queue.
    pub fn delete_all(&mut self)
        ensures
            final(self).slots@ == old(self).slots@.map_values(|s: Slot| wiped(s)),
            final(self).pending@.len() == 0,
    {
        let n: usize = self.slots.len();
        let mut i: usize = 0;
        while i < n
            invariant
                n == self.slots@.len(),
                n == old(self).slots@.len(),
                0 <= i <= n,
                forall|j: int| 0 <= j < i ==> #[trigger] self.slots@[j] == wiped(old(self).slots@[j]),
                forall|j: int| i <= j < n ==> #[trigger] self.slots@[j] == old(self).slots@[j],
            decreases n - i,
        {
            if self.slots[i].alive {
                let generation: u64 = self.slots[i].generation;
                self.slots[i] = Slot {
                    generation,
                    alive: false,
                    doomed: false,
                    components: Components::empty(),
                };
            }
            i = i + 1;
        }
        self.pending = Vec::new();
    }

    /// The entities that hold a component of each of the kinds, in the order
    /// of their slots.
    pub fn join(&self, kinds: &Vec<ComponentKind>) -> (found: Vec<Entity>)
        ensures
            forall|k: int|
                0 <= k < found@.len() ==> {
                    &&& live(self.slots@, #[trigger] found@[k])
                    &&& matches_all(self.slots@[found@[k].index as int], kinds@)
                },
            forall|i: int|
                0 <= i < self.slots@.len() && matches_all(#[trigger] self.slots@[i], kinds@)
                    ==> found@.contains(handle(self.slots@, i)),
            forall|k: int, l: int|
                0 <= k < l < found@.len() ==> found@[k].index < found@[l].index,
    {
        let mut found: Vec<Entity> = Vec::new();
        let n: usize = self.slots.len();
        let mut i: usize = 0;
        while i < n
            invariant
                n == self.slots@.len(),
                0 <= i <= n,
                forall|k: int|
                    0 <= k < found@.len() ==> {
                        &&& live(self.slots@, #[trigger] found@[k])
                        &&& matches_all(self.slots@[found@[k].index as int], kinds@)
                        &&& found@[k].index < i
                    },
                forall|j: int|
                    0 <= j < i && matches_all(#[trigger] self.slots@[j], kinds@)
                        ==> found@.contains(handle(self.slots@, j)),
                forall|k: int, l: int|
                    0 <= k < l < found@.len() ==> found@[k].index < found@[l].index,
            decreases n - i,
        {
            if self.slots[i].alive && self.slots[i].components.holds_all(kinds) {
                let ghost before = found@;
                let e = Entity { index: i, generation: self.slots[i].generation };
                found.push(e);
                proof {
                    assert(found@[before.len() as int] == e);
                    assert forall|j: int|
                        0 <= j < i + 1 && matches_all(
                            #[trigger] self.slots@[j],
                            kinds@,
                        ) implies found@.contains(handle(self.slots@, j)) by {
                        if j < i {
                            let k = choose|k: int|
                                0 <= k < before.len() && before[k] == handle(self.slots@, j);
                            assert(found@[k] == handle(self.slots@, j));
                        }
                    }
                }
            }
            i = i + 1;
        }
        found
    }

    /// Whether any entity holds a component of the kind.
    pub fn any(&self, kind: ComponentKind) -> (b: bool)
        ensures
            b == exists|i: int|
                0 <= i < self.slots@.len() && (#[trigger] self.slots@[i]).alive
                    && self.slots@[i].components.has(kind),
    {
        let n: usize = self.slots.len();
        let mut i: usize = 0;
        while i < n
            invariant
                n == self.slots@.len(),
                0 <= i <= n,
                forall|j: int|
                    0 <= j < i ==> !((#[trigger] self.slots@[j]).alive
                        && self.slots@[j].components.has(kind)),
            decreases n - i,
        {
            if self.slots[i].alive && self.slots[i].components.holds(kind) {
                return true;
            }
            i = i + 1;
        }
        false
    }
}

} // verus!
