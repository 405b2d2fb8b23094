//! Pickups and their emitters.
use vstd::prelude::*;
use crate::color::GREEN;
use crate::fixed::{clamp, plus, UNIT};
use crate::lives::{flash, flash_of, Lives};
use crate::physics::{Aabr, BoundingBox, Position, Vec2, Velocity};
use crate::projectile::box_of;
use crate::random::range;
use crate::sprite::{Sprite, SpriteRef};
use crate::world::{
    lemma_made_push, lemma_made_skip, made_from, spawned_queue, spawned_slots, Components, Slot,
    World,
};
use crate::{FIELD_HEIGHT, FIELD_WIDTH};

verus! {

/// What a pickup gives.
#[derive(Debug, Copy, Clone, Eq, PartialEq, Structural)]
pub enum Pickup {
    Health,
}

/// Emits a pickup whenever its interval has passed.
#[derive(Clone, Copy, Debug)]
pub struct PickupEmitter {
    pub current_time: i64,
    pub interval: i64,
    pub health_sprite: SpriteRef,
}

impl PickupEmitter {
    /// An emitter with an interval drawn between 15 and 40 seconds.
    pub fn new(health_sprite: SpriteRef) -> (e: PickupEmitter)
        ensures
            e.current_time == 0,
            900 * UNIT <= e.interval <= 2400 * UNIT,
            e.health_sprite == health_sprite,
    {
        PickupEmitter { interval: range(900 * UNIT, 2400 * UNIT), current_time: 0, health_sprite }
    }

    /// The sprite of a kind of pickup.
    pub fn sprite(&self, type_: Pickup) -> (s: SpriteRef)
        ensures
            s == self.health_sprite,
    {
        match type_ {
            Pickup::Health => self.health_sprite,
        }
    }
}

/// How far from the top of the play area a pickup enters at the least.
pub const PICKUP_TOP: i64 = 10_000;

/// How far from the bottom of the play area a pickup enters at the least.
pub const PICKUP_BOTTOM: i64 = 25_000;

/// How fast a pickup drifts to the left.
pub const PICKUP_SPEED: i64 = 500;

/// The width and the height of a pickup.
pub const PICKUP_SIZE: i64 = 10_000;

/// How long the flash lasts when a pickup is collected.
pub const PICKUP_FLASH_TIME: i64 = 3_000;

/// Whether the slot holds an emitter of pickups.
pub open spec fn holds_dispenser(slot: Slot) -> bool {
    slot.alive && slot.components.pickup_emitter is Some
}

/// Whether the emitter of the slot emits a pickup in this tick: with this
/// tick its interval has passed.
pub open spec fn dispenses(slot: Slot) -> bool {
    let emitter = slot.components.pickup_emitter->0;
    holds_dispenser(slot) && clamp(emitter.current_time + UNIT) >= emitter.interval
}

/// A slot after the tick of its emitter of pickups, if it holds one: the time
/// has grown by a tick, or starts again where the emitter emits.
pub open spec fn dispensed_slot(slot: Slot) -> Slot {
    if holds_dispenser(slot) {
        let emitter = slot.components.pickup_emitter->0;
        Slot {
            components: Components {
                pickup_emitter: Some(
                    PickupEmitter {
                        current_time: if dispenses(slot) {
                            0
                        } else {
                            clamp(emitter.current_time + UNIT) as i64
                        },
                        ..emitter
                    },
                ),
                ..slot.components
            },
            ..slot
        }
    } else {
        slot
    }
}

/// The components of a health pickup that enters `y` from the top, at the
/// right edge of the play area.
pub open spec fn pickup_of(emitter: PickupEmitter, y: i64) -> Components {
    Components {
        pickup: Some(Pickup::Health),
        position: Some(Position(Vec2 { x: FIELD_WIDTH, y })),
        velocity: Some(Velocity(Vec2 { x: (-PICKUP_SPEED) as i64, y: 0 })),
        sprite: Some(Sprite { reference: emitter.health_sprite, x: 0, y: 0, rotation: 0 }),
        bounding_box: Some(BoundingBox(Vec2 { x: PICKUP_SIZE, y: PICKUP_SIZE })),
        ..Components::none()
    }
}

/// Whether the components are those of a pickup that the emitter of the slot
/// emits: it enters between the margins at the top and at the bottom.
pub open spec fn pickup_from(bundle: Components, slot: Slot) -> bool {
    exists|y: i64|
        PICKUP_TOP <= y <= FIELD_HEIGHT - PICKUP_BOTTOM && bundle == #[trigger] pickup_of(
            slot.components.pickup_emitter->0,
            y,
        )
}

/// Whether `bundles` are the pickups that the emitters in the slots before
/// `n` emit in a tick: one for each emitter whose interval has passed, in the
/// order of the slots.
pub open spec fn pickups_upto(slots: Seq<Slot>, bundles: Seq<Components>, n: int) -> bool {
    made_from(
        slots,
        bundles,
        |s: Slot| dispenses(s),
        |c: Components, s: Slot| pickup_from(c, s),
        n,
    )
}

/// Whether `bundles` are the pickups that the emitters of the slots emit in a
/// tick.
pub open spec fn pickups_of(slots: Seq<Slot>, bundles: Seq<Components>) -> bool {
    pickups_upto(slots, bundles, slots.len() as int)
}

/// The components of a health pickup that enters `y` from the top.
pub fn pickup(emitter: &PickupEmitter, y: i64) -> (c: Components)
    ensures
        c == pickup_of(*emitter, y),
{
    let type_ = Pickup::Health;
    let mut c = Components::empty();
    c.pickup = Some(type_);
    c.position = Some(Position::new(FIELD_WIDTH, y));
    c.velocity = Some(Velocity::new(-PICKUP_SPEED, 0));
    c.sprite = Some(Sprite::new(emitter.sprite(type_)));
    c.bounding_box = Some(BoundingBox::new(PICKUP_SIZE, PICKUP_SIZE));
    c
}

/// Lets every emitter of pickups tick, and emit when its time has come.
pub struct PickupEmitterSystem;

impl PickupEmitterSystem {
    /// Whether `after` is what this system makes of `before`: every emitter
    /// of pickups has ticked, and one pickup has been created for each whose
    /// interval has passed, in the order of the slots.
    pub open spec fn effect(before: World, after: World) -> bool {
        exists|bundles: Seq<Components>|
            {
                &&& #[trigger] pickups_of(before.slots@, bundles)
                &&& after.slots@ == spawned_slots(
                    before.slots@.map_values(|s: Slot| dispensed_slot(s)),
                    bundles.len() as int,
                )
                &&& after.pending@ == spawned_queue(
                    before.slots@.map_values(|s: Slot| dispensed_slot(s)),
                    before.pending@,
                    bundles,
                    bundles.len() as int,
                )
            }
    }

    /// Ticks every emitter of pickups, and creates one pickup for each whose
    /// interval has passed, in the order of the slots.
    pub fn run(&self, world: &mut World)
        ensures
            PickupEmitterSystem::effect(*old(world), *final(world)),
    {
        let n: usize = world.slots.len();
        let ghost before = old(world).slots@;
        let mut bundles: Vec<Components> = Vec::new();
        let mut i: usize = 0;
        while i < n
            invariant
                n == world.slots@.len(),
                before == old(world).slots@,
                n == before.len(),
                0 <= i <= n,
                world.pending == old(world).pending,
                forall|j: int|
                    0 <= j < i ==> #[trigger] world.slots@[j] == dispensed_slot(before[j]),
                forall|j: int| i <= j < n ==> #[trigger] world.slots@[j] == before[j],
                pickups_upto(before, bundles@, i as int),
            decreases n - i,
        {
            let ghost mut emitted = false;
            if world.slots[i].alive {
                match world.slots[i].components.pickup_emitter {
                    Some(emitter) => {
                        let elapsed: i64 = plus(emitter.current_time, UNIT);
                        if elapsed >= emitter.interval {
                            world.slots[i].components.pickup_emitter = Some(
                                PickupEmitter { current_time: 0, ..emitter },
                            );
                            let y: i64 = range(PICKUP_TOP, FIELD_HEIGHT - PICKUP_BOTTOM);
                            let bundle = pickup(&emitter, y);
                            proof {
                                lemma_made_push(
                                    before,
                                    bundles@,
                                    bundle,
                                    |s: Slot| dispenses(s),
                                    |c: Components, s: Slot| pickup_from(c, s),
                                    i as int,
                                );
                            }
                            bundles.push(bundle);
                            proof {
                                emitted = true;
                            }
                        } else {
                            world.slots[i].components.pickup_emitter = Some(
                                PickupEmitter { current_time: elapsed, ..emitter },
                            );
                        }
                    },
                    None => {},
                }
            }
            proof {
                if !emitted {
                    lemma_made_skip(
                        before,
                        bundles@,
                        |s: Slot| dispenses(s),
                        |c: Components, s: Slot| pickup_from(c, s),
                        i as int,
                    );
                }
            }
            i = i + 1;
        }
        assert(world.slots@ =~= before.map_values(|s: Slot| dispensed_slot(s)));
        assert(pickups_of(before, bundles@));
        world.lazy_spawn_all(bundles);
    }
}

/// Whether the slot holds a pickup that has left the play area at the left.
pub open spec fn is_lost(slot: Slot) -> bool {
    &&& slot.alive
    &&& slot.components.pickup is Some
    &&& slot.components.position matches Some(p) && p.0.x <= 0
}

/// Whether the slot holds a pickup that can be collected.
pub open spec fn is_pickup(slot: Slot) -> bool {
    &&& slot.alive
    &&& slot.components.pickup is Some
    &&& slot.components.position is Some
    &&& slot.components.bounding_box is Some
}

/// Whether the slot holds a projectile that can collect a pickup.
pub open spec fn is_ball(slot: Slot) -> bool {
    &&& slot.alive
    &&& slot.components.projectile is Some
    &&& slot.components.position is Some
    &&& slot.components.bounding_box is Some
}

/// Whether the projectile in slot `q` collects the pickup in slot `p`.
pub open spec fn collects(slots: Seq<Slot>, p: int, q: int) -> bool {
    &&& is_pickup(slots[p])
    &&& is_ball(slots[q])
    &&& box_of(slots[p]).overlaps(box_of(slots[q]))
}

/// Whether a projectile in a slot before `m` collects the pickup in slot `p`.
pub open spec fn collected(slots: Seq<Slot>, p: int, m: int) -> bool
    decreases m,
{
    m > 0 && (collected(slots, p, m - 1) || collects(slots, p, m - 1))
}

/// Whether the projectile in slot `q` collects a pickup in a slot before `n`.
pub open spec fn spent(slots: Seq<Slot>, q: int, n: int) -> bool
    decreases n,
{
    n > 0 && (spent(slots, q, n - 1) || collects(slots, n - 1, q))
}

/// How many projectiles in the slots before `m` collect the pickup in slot
/// `p`.
pub open spec fn row_gains(slots: Seq<Slot>, p: int, m: int) -> int
    decreases m,
{
    if m <= 0 {
        0
    } else if collects(slots, p, m - 1) {
        row_gains(slots, p, m - 1) + 1
    } else {
        row_gains(slots, p, m - 1)
    }
}

/// How often a projectile collects a pickup of the slots before `n`. A
/// pickup counts once for each projectile that collects it.
pub open spec fn gains_through(slots: Seq<Slot>, n: int) -> int
    decreases n,
{
    if n <= 0 {
        0
    } else {
        gains_through(slots, n - 1) + row_gains(slots, n - 1, slots.len() as int)
    }
}

/// What `amount` lives become with `k` more, up to the most that can be
/// counted.
pub open spec fn gained(amount: u8, k: int) -> u8 {
    if amount + k > u8::MAX {
        u8::MAX
    } else {
        (amount + k) as u8
    }
}

/// The slot with its pickup marked for deletion, if that has left the play
/// area.
pub open spec fn cleared_slot(slot: Slot) -> Slot {
    if is_lost(slot) {
        Slot { doomed: true, ..slot }
    } else {
        slot
    }
}

/// Slot `j` while the pickups are being collected: the pickups in the slots
/// before `p` have met every projectile, and the pickup in slot `p` has met
/// the projectiles in the slots before `m`.
pub open spec fn taken_slot(slots: Seq<Slot>, j: int, p: int, m: int) -> Slot {
    Slot {
        doomed: {
            ||| slots[j].doomed
            ||| spent(slots, j, p)
            ||| (j < m && collects(slots, p, j))
            ||| (j < p && collected(slots, j, slots.len() as int))
            ||| (j == p && collected(slots, j, m))
        },
        ..slots[j]
    }
}

/// Slot `j` after the pickups have been collected: a pickup that a projectile
/// collects is marked for deletion, and so is the projectile.
pub open spec fn collected_slot(slots: Seq<Slot>, j: int) -> Slot {
    Slot {
        doomed: {
            ||| slots[j].doomed
            ||| spent(slots, j, slots.len() as int)
            ||| collected(slots, j, slots.len() as int)
        },
        ..slots[j]
    }
}

/// The slots after the pickups have been collected, before the flashes are
/// created.
pub open spec fn collected_slots(slots: Seq<Slot>) -> Seq<Slot> {
    Seq::new(slots.len(), |j: int| collected_slot(slots, j))
}

/// The flashes of `k` collected pickups.
pub open spec fn gain_flashes(k: int) -> Seq<Components> {
    Seq::new(k as nat, |j: int| flash_of(GREEN, PICKUP_FLASH_TIME))
}

/// A slot that holds no pickup is collected by nothing.
proof fn lemma_row_without_pickup(slots: Seq<Slot>, p: int, m: int)
    requires
        !is_pickup(slots[p]),
    ensures
        row_gains(slots, p, m) == 0,
        !collected(slots, p, m),
    decreases m,
{
    if m > 0 {
        lemma_row_without_pickup(slots, p, m - 1);
    }
}

/// A pickup is never collected a negative number of times.
proof fn lemma_row_gains_bounds(slots: Seq<Slot>, p: int, m: int)
    ensures
        0 <= row_gains(slots, p, m),
    decreases m,
{
    if m > 0 {
        lemma_row_gains_bounds(slots, p, m - 1);
    }
}

/// Pickups are never collected a negative number of times.
proof fn lemma_gains_bounds(slots: Seq<Slot>, n: int)
    ensures
        0 <= gains_through(slots, n),
    decreases n,
{
    if n > 0 {
        lemma_gains_bounds(slots, n - 1);
        lemma_row_gains_bounds(slots, n - 1, slots.len() as int);
    }
}

/// The rectangle of the entity in slot `i`, if the slot holds one with a
/// position and a bounding box that is a pickup (or, for `ball`, a
/// projectile).
fn role_box(world: &World, ball: bool, i: usize) -> (b: Option<Aabr>)
    requires
        i < world.slots@.len(),
    ensures
        b is Some == if ball {
            is_ball(world.slots@[i as int])
        } else {
            is_pickup(world.slots@[i as int])
        },
        b is Some ==> b->0 == box_of(world.slots@[i as int]),
{
    if !world.slots[i].alive {
        return None;
    }
    let marked: bool = if ball {
        world.slots[i].components.projectile.is_some()
    } else {
        world.slots[i].components.pickup.is_some()
    };
    if !marked {
        return None;
    }
    match (world.slots[i].components.position, world.slots[i].components.bounding_box) {
        (Some(position), Some(size)) => Some(size.to_aabr(&position)),
        _ => None,
    }
}

/// Removes the pickups that were missed, and collects those that were hit.
pub struct PickupSystem;

impl PickupSystem {
    /// Marks every pickup for deletion that has left the play area at the
    /// left.
    pub fn clear(world: &mut World)
        ensures
            final(world).slots@ == old(world).slots@.map_values(|s: Slot| cleared_slot(s)),
            final(world).pending == old(world).pending,
    {
        let n: usize = world.slots.len();
        let mut i: usize = 0;
        while i < n
            invariant
                n == world.slots@.len(),
                n == old(world).slots@.len(),
                0 <= i <= n,
                world.pending == old(world).pending,
                forall|j: int|
                    0 <= j < i ==> #[trigger] world.slots@[j] == cleared_slot(old(world).slots@[j]),
                forall|j: int| i <= j < n ==> #[trigger] world.slots@[j] == old(world).slots@[j],
            decreases n - i,
        {
            if world.slots[i].alive && world.slots[i].components.pickup.is_some() {
                match world.slots[i].components.position {
                    Some(p) => {
                        if p.0.x <= 0 {
                            world.slots[i].doomed = true;
                        }
                    },
                    None => {},
                }
            }
            i = i + 1;
        }
    }

    /// Lets every pickup meet every projectile. Where the two overlap, both
    /// are marked for deletion, a life is added, and a green flash is
    /// created.
    pub fn collect(world: &mut World, lives: &mut Lives)
        ensures
            final(lives).amount == gained(
                old(lives).amount,
                gains_through(old(world).slots@, old(world).slots@.len() as int),
            ),
            final(world).slots@ == spawned_slots(
                collected_slots(old(world).slots@),
                gains_through(old(world).slots@, old(world).slots@.len() as int),
            ),
            final(world).pending@ == spawned_queue(
                collected_slots(old(world).slots@),
                old(world).pending@,
                gain_flashes(gains_through(old(world).slots@, old(world).slots@.len() as int)),
                gains_through(old(world).slots@, old(world).slots@.len() as int),
            ),
    {
        let n: usize = world.slots.len();
        let ghost before = old(world).slots@;
        let mut flashes: Vec<Components> = Vec::new();
        let mut p: usize = 0;
        while p < n
            invariant
                n == world.slots@.len(),
                before == old(world).slots@,
                n == before.len(),
                0 <= p <= n,
                world.pending == old(world).pending,
                forall|j: int|
                    0 <= j < n ==> #[trigger] world.slots@[j] == taken_slot(before, j, p as int, 0),
                flashes@.len() == gains_through(before, p as int),
                forall|k: int|
                    0 <= k < flashes@.len() ==> #[trigger] flashes@[k] == flash_of(
                        GREEN,
                        PICKUP_FLASH_TIME,
                    ),
                lives.amount == gained(old(lives).amount, gains_through(before, p as int)),
            decreases n - p,
        {
            match role_box(world, false, p) {
                Some(pickup_aabr) => {
                    let mut q: usize = 0;
                    while q < n
                        invariant
                            n == world.slots@.len(),
                            n == before.len(),
                            0 <= p < n,
                            0 <= q <= n,
                            world.pending == old(world).pending,
                            is_pickup(before[p as int]),
                            pickup_aabr == box_of(before[p as int]),
                            forall|j: int|
                                0 <= j < n ==> #[trigger] world.slots@[j] == taken_slot(
                                    before,
                                    j,
                                    p as int,
                                    q as int,
                                ),
                            0 <= gains_through(before, p as int),
                            0 <= row_gains(before, p as int, q as int),
                            flashes@.len() == gains_through(before, p as int) + row_gains(
                                before,
                                p as int,
                                q as int,
                            ),
                            forall|k: int|
                                0 <= k < flashes@.len() ==> #[trigger] flashes@[k] == flash_of(
                                    GREEN,
                                    PICKUP_FLASH_TIME,
                                ),
                            lives.amount == gained(
                                old(lives).amount,
                                gains_through(before, p as int) + row_gains(
                                    before,
                                    p as int,
                                    q as int,
                                ),
                            ),
                        decreases n - q,
                    {
                        match role_box(world, true, q) {
                            Some(ball_aabr) => {
                                if pickup_aabr.collides_with_aabr(ball_aabr) {
                                    lives.increase();
                                    flashes.push(flash(GREEN, PICKUP_FLASH_TIME));
                                    world.slots[q].doomed = true;
                                    world.slots[p].doomed = true;
                                }
                            },
                            None => {},
                        }
                        q = q + 1;
                    }
                },
                None => {
                    proof {
                        lemma_row_without_pickup(before, p as int, n as int);
                    }
                },
            }
            p = p + 1;
        }
        assert(world.slots@ =~= collected_slots(before));
        assert(flashes@ =~= gain_flashes(gains_through(before, n as int)));
        world.lazy_spawn_all(flashes);
    }

    /// Whether `after` and `lives_after` are what this system makes of
    /// `before` and `lives_before`: the pickups that were missed have been
    /// cleared and then, if lives are being counted, those that were hit have
    /// been collected.
    pub open spec fn effect(
        before: World,
        after: World,
        lives_before: Option<Lives>,
        lives_after: Option<Lives>,
    ) -> bool {
        let mid = before.slots@.map_values(|s: Slot| cleared_slot(s));
        let k = gains_through(mid, mid.len() as int);
        match lives_before {
            None => {
                &&& lives_after is None
                &&& after.slots@ == mid
                &&& after.pending == before.pending
            },
            Some(l) => {
                &&& lives_after == Some(Lives { amount: gained(l.amount, k) })
                &&& after.slots@ == spawned_slots(collected_slots(mid), k)
                &&& after.pending@ == spawned_queue(
                    collected_slots(mid),
                    before.pending@,
                    gain_flashes(k),
                    k,
                )
            },
        }
    }

    /// Clears the pickups that were missed and then, if lives are being
    /// counted, collects those that were hit.
    pub fn run(&self, world: &mut World, lives: &mut Option<Lives>)
        ensures
            PickupSystem::effect(*old(world), *final(world), *old(lives), *final(lives)),
    {
        PickupSystem::clear(world);
        match lives {
            Some(counted) => {
                PickupSystem::collect(world, counted);
            },
            None => {},
        }
    }
}

} // verus!
