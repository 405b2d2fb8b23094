//! Movement patterns.
use vstd::prelude::*;
use crate::fixed::{clamp, plus, product, sin, sine, times, UNIT};
use crate::physics::{Vec2, Velocity};
use crate::world::{Components, Slot, World};

verus! {

/// Makes an entity weave up and down: each tick its vertical velocity is set
/// to `amount` times the sine of `time` times `time_div`.
#[derive(Clone, Copy, Debug)]
pub struct Zigzag {
    pub time: i64,
    pub amount: i64,
    pub time_div: i64,
}

impl Zigzag {
    pub fn new(amount: i64, time_div: i64) -> (z: Zigzag)
        ensures
            z.time == 0,
            z.amount == amount,
            z.time_div == time_div,
    {
        Zigzag { time: 0, amount, time_div }
    }
}

/// Makes the entities weave that have a zigzag.
pub struct MovementSystem;

impl MovementSystem {
    /// The vertical velocity that a zigzag gives at its time: its amount
    /// times the sine of its time times its divisor.
    pub open spec fn swing(zigzag: Zigzag) -> i64 {
        product(
            sine(product(zigzag.time as int, zigzag.time_div as int)),
            zigzag.amount as int,
        ) as i64
    }

    /// An entity with a velocity and a zigzag has the time of the zigzag
    /// advanced by a tick and its vertical velocity set to the swing at that
    /// time; every other slot stays as it is.
    pub open spec fn step(slot: Slot) -> Slot {
        if slot.alive && slot.components.velocity is Some && slot.components.zigzag is Some {
            let velocity = slot.components.velocity->0;
            let zigzag = slot.components.zigzag->0;
            let swung = Zigzag { time: clamp(zigzag.time + UNIT) as i64, ..zigzag };
            Slot {
                components: Components {
                    velocity: Some(
                        Velocity(Vec2 { x: velocity.0.x, y: MovementSystem::swing(swung) }),
                    ),
                    zigzag: Some(swung),
                    ..slot.components
                },
                ..slot
            }
        } else {
            slot
        }
    }

    /// Whether `after` is what this system makes of `before`.
    pub open spec fn effect(before: World, after: World) -> bool {
        crate::world::mapped(before, after, |s: Slot| MovementSystem::step(s))
    }

    pub fn run(&self, world: &mut World)
        ensures
            MovementSystem::effect(*old(world), *final(world)),
    {
        let n: usize = world.slots.len();
        let mut i: usize = 0;
        while i < n
            invariant
                n == world.slots@.len(),
                n == old(world).slots@.len(),
                0 <= i <= n,
                world.pending == old(world).pending,
                forall|j: int|
                    0 <= j < i ==> #[trigger] world.slots@[j] == MovementSystem::step(
                        old(world).slots@[j],
                    ),
                forall|j: int| i <= j < n ==> #[trigger] world.slots@[j] == old(world).slots@[j],
            decreases n - i,
        {
            if world.slots[i].alive {
                match (world.slots[i].components.velocity, world.slots[i].components.zigzag) {
                    (Some(velocity), Some(zigzag)) => {
                        let time: i64 = plus(zigzag.time, UNIT);
                        let y: i64 = times(sin(times(time, zigzag.time_div)), zigzag.amount);
                        world.slots[i].components.zigzag = Some(Zigzag { time, ..zigzag });
                        world.slots[i].components.velocity = Some(Velocity::new(velocity.0.x, y));
                    },
                    _ => {},
                }
            }
            i = i + 1;
        }
        assert(world.slots@ =~= old(world).slots@.map_values(|s: Slot| MovementSystem::step(s)));
    }
}

} // verus!
