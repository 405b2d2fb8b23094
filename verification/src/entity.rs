//! Entities that live for a set time.
use vstd::prelude::*;
use crate::fixed::{clamp, minus, UNIT};
use crate::world::{Components, Slot, World};

verus! {

/// The ticks that an entity has left to live.
#[derive(Clone, Copy, Debug)]
pub struct Lifetime(pub i64);

impl Lifetime {
    pub fn new(time: i64) -> (l: Lifetime)
        ensures
            l.0 == time,
    {
        Lifetime(time)
    }
}

/// Counts the lifetimes down.
pub struct LifetimeSystem;

impl LifetimeSystem {
    /// An entity with a lifetime has a tick less to live, and is marked for
    /// deletion once none is left; every other slot stays as it is.
    pub open spec fn step(slot: Slot) -> Slot {
        if slot.alive && slot.components.lifetime is Some {
            let lifetime = slot.components.lifetime->0;
            let left = clamp(lifetime.0 - UNIT) as i64;
            Slot {
                doomed: slot.doomed || left <= 0,
                components: Components { lifetime: Some(Lifetime(left)), ..slot.components },
                ..slot
            }
        } else {
            slot
        }
    }

    /// Whether `after` is what this system makes of `before`.
    pub open spec fn effect(before: World, after: World) -> bool {
        crate::world::mapped(before, after, |s: Slot| LifetimeSystem::step(s))
    }

    pub fn run(&self, world: &mut World)
        ensures
            LifetimeSystem::effect(*old(world), *final(world)),
    {
        let n: usize = world.slots.len();
        let mut i: usize = 0;
        while i < n
            invariant
                n == world.slots@.len(),
                n == old(world).slots@.len(),
                0 <= i <= n,
                world.pending == old(world).pending,
                forall|j: int|
                    0 <= j < i ==> #[trigger] world.slots@[j] == LifetimeSystem::step(
                        old(world).slots@[j],
                    ),
                forall|j: int| i <= j < n ==> #[trigger] world.slots@[j] == old(world).slots@[j],
            decreases n - i,
        {
            if world.slots[i].alive {
                match world.slots[i].components.lifetime {
                    Some(lifetime) => {
                        let left: i64 = minus(lifetime.0, UNIT);
                        world.slots[i].components.lifetime = Some(Lifetime(left));
                        if left <= 0 {
                            world.slots[i].doomed = true;
                        }
                    },
                    None => {},
                }
            }
            i = i + 1;
        }
        assert(world.slots@ =~= old(world).slots@.map_values(|s: Slot| LifetimeSystem::step(s)));
    }
}

impl Default for Lifetime {
    /// No time left.
    fn default() -> (l: Lifetime)
        ensures
            l.0 == 0,
    {
        Lifetime(0)
    }
}

} // verus!
