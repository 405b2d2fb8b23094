//! The lives of the player.
use vstd::prelude::*;
use crate::color::RED;
use crate::effect::ScreenFlash;
use crate::entity::Lifetime;
use crate::world::{spawned_queue, spawned_slots, ComponentKind, Components, Slot, World};

verus! {

/// How many breaches the player can still take.
#[derive(Clone, Copy, Debug)]
pub struct Lives {
    pub amount: u8,
}

impl Lives {
    /// What is left of `amount` lives after one breach: never less than none.
    pub open spec fn reduced(amount: u8) -> u8 {
        if amount > 0 {
            (amount - 1) as u8
        } else {
            0
        }
    }

    /// What `amount` lives become with one more, up to the most that can be
    /// counted.
    pub open spec fn increased(amount: u8) -> u8 {
        if amount < u8::MAX {
            (amount + 1) as u8
        } else {
            u8::MAX
        }
    }

    pub fn new(amount: u8) -> (l: Lives)
        ensures
            l.amount == amount,
    {
        Lives { amount }
    }

    /// How many lives are left.
    pub fn amount(&self) -> (a: u8)
        ensures
            a == self.amount,
    {
        self.amount
    }

    /// Adds a life.
    pub fn increase(&mut self)
        ensures
            final(self).amount == Lives::increased(old(self).amount),
    {
        if self.amount < u8::MAX {
            self.amount = self.amount + 1;
        }
    }

    /// Takes a life, if one is left.
    pub fn reduce(&mut self)
        ensures
            final(self).amount == Lives::reduced(old(self).amount),
    {
        if self.amount > 0 {
            self.amount = self.amount - 1;
        }
    }

    /// Whether no life is left.
    pub fn is_dead(&self) -> (dead: bool)
        ensures
            dead == (self.amount == 0),
    {
        self.amount == 0
    }
}

/// How long the flash after a breach lasts.
pub const BREACH_FLASH_TIME: i64 = 5_000;

/// Whether the slot holds an entity of the kind that has reached the left
/// edge of the play area.
pub open spec fn breaching(slot: Slot, kind: ComponentKind) -> bool {
    &&& slot.alive
    &&& slot.components.has(kind)
    &&& slot.components.position matches Some(p) && p.0.x <= 0
}

/// How many of the first `n` slots hold a breaching entity of the kind.
pub open spec fn breaches(slots: Seq<Slot>, kind: ComponentKind, n: int) -> int
    decreases n,
{
    if n <= 0 {
        0
    } else {
        breaches(slots, kind, n - 1) + if breaching(slots[n - 1], kind) {
            1int
        } else {
            0int
        }
    }
}

/// The slot with its entity marked for deletion, if that breaches.
pub open spec fn condemned(slot: Slot, kind: ComponentKind) -> Slot {
    if breaching(slot, kind) {
        Slot { doomed: true, ..slot }
    } else {
        slot
    }
}

/// What is left of `amount` lives after `k` breaches.
pub open spec fn after_breaches(amount: u8, k: int) -> u8 {
    if k >= amount {
        0
    } else {
        (amount - k) as u8
    }
}

/// The components of a flash: the colour, and the time that it lasts.
pub open spec fn flash_of(color: u32, time: i64) -> Components {
    Components {
        screen_flash: Some(ScreenFlash(color)),
        lifetime: Some(Lifetime(time)),
        ..Components::none()
    }
}

/// The components of a flash: the colour, and the time that it lasts.
pub fn flash(color: u32, time: i64) -> (c: Components)
    ensures
        c == flash_of(color, time),
{
    let mut c = Components::empty();
    c.screen_flash = Some(ScreenFlash::new(color));
    c.lifetime = Some(Lifetime::new(time));
    c
}

/// The slots after the breaches of the entities of one kind have been
/// resolved: each breaching entity is marked for deletion, and then one
/// entity is created for each of them, for its flash.
pub open spec fn breached_slots(slots: Seq<Slot>, kind: ComponentKind) -> Seq<Slot> {
    spawned_slots(
        slots.map_values(|s: Slot| condemned(s, kind)),
        breaches(slots, kind, slots.len() as int),
    )
}

/// The queue after the breaches of the entities of one kind have been
/// resolved: it has one red flash more for each breach.
pub open spec fn breached_queue(
    slots: Seq<Slot>,
    queue: Seq<(crate::world::Entity, Components)>,
    kind: ComponentKind,
) -> Seq<(crate::world::Entity, Components)> {
    spawned_queue(
        slots.map_values(|s: Slot| condemned(s, kind)),
        queue,
        Seq::new(
            breaches(slots, kind, slots.len() as int) as nat,
            |j: int| flash_of(RED, BREACH_FLASH_TIME),
        ),
        breaches(slots, kind, slots.len() as int),
    )
}

/// Resolves the breaches of the entities of one kind: each such entity that
/// has reached the left edge costs a life, is marked for deletion, and has a
/// red flash created for it.
pub fn resolve_breaches(world: &mut World, lives: &mut Lives, kind: ComponentKind)
    ensures
        final(lives).amount == after_breaches(
            old(lives).amount,
            breaches(old(world).slots@, kind, old(world).slots@.len() as int),
        ),
        final(world).slots@ == breached_slots(old(world).slots@, kind),
        final(world).pending@ == breached_queue(old(world).slots@, old(world).pending@, kind),
{
    let n: usize = world.slots.len();
    let mut flashes: Vec<Components> = Vec::new();
    let mut i: usize = 0;
    while i < n
        invariant
            n == world.slots@.len(),
            n == old(world).slots@.len(),
            0 <= i <= n,
            world.pending == old(world).pending,
            forall|j: int|
                0 <= j < i ==> #[trigger] world.slots@[j] == condemned(old(world).slots@[j], kind),
            forall|j: int| i <= j < n ==> #[trigger] world.slots@[j] == old(world).slots@[j],
            flashes@.len() == breaches(old(world).slots@, kind, i as int),
            flashes@.len() <= i,
            forall|j: int|
                0 <= j < flashes@.len() ==> #[trigger] flashes@[j] == flash_of(
                    RED,
                    BREACH_FLASH_TIME,
                ),
            lives.amount == after_breaches(old(lives).amount, flashes@.len() as int),
        decreases n - i,
    {
        if world.slots[i].alive && world.slots[i].components.holds(kind) {
            match world.slots[i].components.position {
                Some(p) => {
                    if p.0.x <= 0 {
                        lives.reduce();
                        flashes.push(flash(RED, BREACH_FLASH_TIME));
                        world.slots[i].doomed = true;
                    }
                },
                None => {},
            }
        }
        i = i + 1;
    }
    assert(world.slots@ =~= old(world).slots@.map_values(|s: Slot| condemned(s, kind)));
    assert(flashes@ =~= Seq::new(
        breaches(old(world).slots@, kind, old(world).slots@.len() as int) as nat,
        |j: int| flash_of(RED, BREACH_FLASH_TIME),
    ));
    world.lazy_spawn_all(flashes);
}

} // verus!
