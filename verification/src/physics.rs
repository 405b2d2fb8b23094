//! Positions, velocities, bounding boxes and the systems that move them.
use vstd::prelude::*;
use crate::fixed::{
    absolute, clamp, isqrt, lemma_product_bound, magnitude, minus, negated, plus, product, quot,
    root, saturate, times,
};
use crate::random::{range_from, range_of};
use crate::world::{Components, Slot, World};
use crate::fixed::UNIT;
use crate::FIELD_HEIGHT;

verus! {

/// A pair of fixed-point coordinates.
#[derive(Clone, Copy, Debug, PartialEq, Eq, Structural)]
pub struct Vec2 {
    pub x: i64,
    pub y: i64,
}

impl Vec2 {
    /// The component-wise saturating sum.
    pub open spec fn sum(self, other: Vec2) -> Vec2 {
        Vec2 { x: clamp(self.x + other.x) as i64, y: clamp(self.y + other.y) as i64 }
    }

    /// The component-wise saturating difference.
    pub open spec fn difference(self, other: Vec2) -> Vec2 {
        Vec2 { x: clamp(self.x - other.x) as i64, y: clamp(self.y - other.y) as i64 }
    }

    /// Both components multiplied by a fixed-point factor.
    pub open spec fn scaled(self, factor: i64) -> Vec2 {
        Vec2 {
            x: product(self.x as int, factor as int) as i64,
            y: product(self.y as int, factor as int) as i64,
        }
    }

    /// The length of the vector, rounded down, and at most the largest `i64`.
    pub open spec fn length(self) -> int {
        clamp(root(self.x * self.x + self.y * self.y))
    }

    /// The point halfway to `other`.
    pub open spec fn midpoint(self, other: Vec2) -> Vec2 {
        Vec2 { x: quot(self.x + other.x, 2) as i64, y: quot(self.y + other.y, 2) as i64 }
    }

    pub fn new(x: i64, y: i64) -> (v: Vec2)
        ensures
            v == (Vec2 { x, y }),
    {
        Vec2 { x, y }
    }

    pub fn plus(self, other: Vec2) -> (v: Vec2)
        ensures
            v == self.sum(other),
    {
        Vec2 { x: plus(self.x, other.x), y: plus(self.y, other.y) }
    }

    pub fn minus(self, other: Vec2) -> (v: Vec2)
        ensures
            v == self.difference(other),
    {
        Vec2 { x: minus(self.x, other.x), y: minus(self.y, other.y) }
    }

    pub fn times(self, factor: i64) -> (v: Vec2)
        ensures
            v == self.scaled(factor),
    {
        Vec2 { x: times(self.x, factor), y: times(self.y, factor) }
    }

    /// The length of the vector, rounded down, and at most the largest `i64`.
    pub fn magnitude(self) -> (l: i64)
        ensures
            l == self.length(),
            l >= 0,
    {
        proof {
            lemma_product_bound(
                self.x as int,
                self.x as int,
                0x8000_0000_0000_0000,
                0x8000_0000_0000_0000,
            );
            lemma_product_bound(
                self.y as int,
                self.y as int,
                0x8000_0000_0000_0000,
                0x8000_0000_0000_0000,
            );
            assert(self.x * self.x >= 0) by (nonlinear_arith);
            assert(self.y * self.y >= 0) by (nonlinear_arith);
        }
        let xx: i128 = (self.x as i128) * (self.x as i128);
        let yy: i128 = (self.y as i128) * (self.y as i128);
        let r: u64 = isqrt(xx as u128 + yy as u128);
        if r > i64::MAX as u64 {
            i64::MAX
        } else {
            r as i64
        }
    }

    pub fn halfway(self, other: Vec2) -> (v: Vec2)
        ensures
            v == self.midpoint(other),
    {
        let x: i128 = (self.x as i128 + other.x as i128) / 2;
        let y: i128 = (self.y as i128 + other.y as i128) / 2;
        Vec2 { x: x as i64, y: y as i64 }
    }
}

/// Where an entity is: its top-left corner, with the origin at the top left
/// of the play area.
#[derive(Clone, Copy, Debug, PartialEq, Eq, Structural)]
pub struct Position(pub Vec2);

impl Position {
    pub fn new(x: i64, y: i64) -> (p: Position)
        ensures
            p.0 == (Vec2 { x, y }),
    {
        Position(Vec2 { x, y })
    }

    pub fn from_vec2(v: Vec2) -> (p: Position)
        ensures
            p.0 == v,
    {
        Position(v)
    }

    /// This position moved by `offset`.
    pub fn add_offset(&self, offset: Vec2) -> (p: Position)
        ensures
            p.0 == self.0.sum(offset),
    {
        Position(self.0.plus(offset))
    }
}

/// How far an entity moves in one tick.
#[derive(Clone, Copy, Debug, PartialEq, Eq, Structural)]
pub struct Velocity(pub Vec2);

impl Velocity {
    /// The velocity that two draws select from the square of half-width `range`.
    pub open spec fn of_draws(range: i64, rx: u32, ry: u32) -> Velocity {
        Velocity(
            Vec2 {
                x: range_of(rx, clamp(-range), range as int) as i64,
                y: range_of(ry, clamp(-range), range as int) as i64,
            },
        )
    }

    /// Whether both components lie within `range` of zero.
    pub open spec fn within(self, range: i64) -> bool {
        let low = clamp(-range);
        &&& low <= range ==> low <= self.0.x <= range && low <= self.0.y <= range
        &&& range <= low ==> range <= self.0.x <= low && range <= self.0.y <= low
    }

    pub fn new(x: i64, y: i64) -> (v: Velocity)
        ensures
            v.0 == (Vec2 { x, y }),
    {
        Velocity(Vec2 { x, y })
    }

    /// The velocity that two draws select from the square of half-width `range`.
    pub fn from_draws(range: i64, rx: u32, ry: u32) -> (v: Velocity)
        ensures
            v == Velocity::of_draws(range, rx, ry),
            v.within(range),
    {
        let low: i64 = saturate(-(range as i128));
        Velocity(Vec2 { x: range_from(rx, low, range), y: range_from(ry, low, range) })
    }

    /// A velocity whose components are drawn at random within `range` of zero.
    pub fn from_random_range(range: i64) -> (v: Velocity)
        ensures
            v.within(range),
            exists|rx: u32, ry: u32| v == #[trigger] Velocity::of_draws(range, rx, ry),
    {
        let low: i64 = saturate(-(range as i128));
        let x: i64 = crate::random::range(low, range);
        let y: i64 = crate::random::range(low, range);
        proof {
            let rx = choose|r: u32| x == range_of(r, low as int, range as int);
            let ry = choose|r: u32| y == range_of(r, low as int, range as int);
            assert(Velocity(Vec2 { x, y }) == Velocity::of_draws(range, rx, ry));
        }
        Velocity(Vec2 { x, y })
    }
}

/// The factor by which a velocity is multiplied each tick.
#[derive(Clone, Copy, Debug, PartialEq, Eq, Structural)]
pub struct Drag(pub i64);

impl Drag {
    /// A drag is more than nothing and at most one.
    pub open spec fn wf(self) -> bool {
        0 < self.0 <= UNIT
    }
}

/// A drag never speeds anything up, and never turns it round: what it makes
/// of a speed lies between nothing and that speed.
pub proof fn lemma_drag_decays(speed: i64, drag: Drag)
    requires
        drag.wf(),
    ensures
        speed >= 0 ==> 0 <= product(speed as int, drag.0 as int) <= speed,
        speed <= 0 ==> speed <= product(speed as int, drag.0 as int) <= 0,
{
    let d = drag.0 as int;
    let s = speed as int;
    if s >= 0 {
        assert(0 <= s * d <= s * 1000) by (nonlinear_arith)
            requires
                0 <= s,
                0 < d <= 1000,
        ;
    } else {
        assert(0 <= (-s) * d <= (-s) * 1000 && s * d == -((-s) * d)) by (nonlinear_arith)
            requires
                s < 0,
                0 < d <= 1000,
        ;
    }
}

/// How fast an entity can be steered.
#[derive(Clone, Copy, Debug, PartialEq, Eq, Structural)]
pub struct Speed(pub i64);

/// An axis-aligned rectangle between two corners.
#[derive(Clone, Copy, Debug, PartialEq, Eq, Structural)]
pub struct Aabr {
    pub min: Vec2,
    pub max: Vec2,
}

impl Aabr {
    /// Whether the two rectangles overlap on both axes.
    pub open spec fn overlaps(self, other: Aabr) -> bool {
        &&& self.min.x < other.max.x
        &&& self.max.x > other.min.x
        &&& self.min.y < other.max.y
        &&& self.max.y > other.min.y
    }

    /// Whether the two rectangles overlap on both axes.
    pub fn collides_with_aabr(self, other: Aabr) -> (hit: bool)
        ensures
            hit == self.overlaps(other),
    {
        self.min.x < other.max.x && self.max.x > other.min.x && self.min.y < other.max.y
            && self.max.y > other.min.y
    }

    /// The middle of the rectangle.
    pub open spec fn middle(self) -> Vec2 {
        self.min.midpoint(self.max)
    }

    /// The middle of the rectangle.
    pub fn center(self) -> (c: Vec2)
        ensures
            c == self.middle(),
    {
        self.min.halfway(self.max)
    }
}

/// The overlap test does not depend on the order of the two rectangles.
pub proof fn lemma_overlap_symmetric(a: Aabr, b: Aabr)
    ensures
        a.overlaps(b) == b.overlaps(a),
{
}

/// The extent of an entity, from its position down and to the right.
#[derive(Clone, Copy, Debug, PartialEq, Eq, Structural)]
pub struct BoundingBox(pub Vec2);

impl BoundingBox {
    /// A box has a positive width and a positive height.
    pub open spec fn wf(self) -> bool {
        self.0.x > 0 && self.0.y > 0
    }

    /// The way from the corner of the box to its middle.
    pub open spec fn middle(self) -> Vec2 {
        Vec2 { x: quot(self.0.x as int, 2) as i64, y: quot(self.0.y as int, 2) as i64 }
    }

    /// The rectangle that the box covers at `pos`.
    pub open spec fn aabr_at(self, pos: Position) -> Aabr {
        Aabr { min: pos.0, max: pos.0.sum(self.0) }
    }

    pub fn new(width: i64, height: i64) -> (b: BoundingBox)
        ensures
            b.0 == (Vec2 { x: width, y: height }),
    {
        BoundingBox(Vec2 { x: width, y: height })
    }

    /// The rectangle that the box covers at `pos`.
    pub fn to_aabr(&self, pos: &Position) -> (r: Aabr)
        ensures
            r == self.aabr_at(*pos),
    {
        Aabr { min: pos.0, max: pos.0.plus(self.0) }
    }

    /// The way from the corner of the box to its middle.
    pub fn center_offset(&self) -> (c: Vec2)
        ensures
            c == self.middle(),
    {
        self.to_aabr(&Position::new(0, 0)).center()
    }
}

/// Multiplies each velocity by its drag.
pub struct DragSystem;

impl DragSystem {
    /// An entity with a drag and a velocity has its velocity multiplied by the
    /// drag; every other slot stays as it is.
    pub open spec fn step(slot: Slot) -> Slot {
        if slot.alive && slot.components.drag is Some && slot.components.velocity is Some {
            let drag = slot.components.drag->0;
            let velocity = slot.components.velocity->0;
            Slot {
                components: Components {
                    velocity: Some(Velocity(velocity.0.scaled(drag.0))),
                    ..slot.components
                },
                ..slot
            }
        } else {
            slot
        }
    }

    /// Whether `after` is what this system makes of `before`.
    pub open spec fn effect(before: World, after: World) -> bool {
        crate::world::mapped(before, after, |s: Slot| DragSystem::step(s))
    }

    pub fn run(&self, world: &mut World)
        ensures
            DragSystem::effect(*old(world), *final(world)),
    {
        let n: usize = world.slots.len();
        let mut i: usize = 0;
        while i < n
            invariant
                n == world.slots@.len(),
                n == old(world).slots@.len(),
                0 <= i <= n,
                world.pending == old(world).pending,
                forall|j: int|
                    0 <= j < i ==> #[trigger] world.slots@[j] == DragSystem::step(
                        old(world).slots@[j],
                    ),
                forall|j: int| i <= j < n ==> #[trigger] world.slots@[j] == old(world).slots@[j],
            decreases n - i,
        {
            if world.slots[i].alive {
                match (world.slots[i].components.drag, world.slots[i].components.velocity) {
                    (Some(drag), Some(velocity)) => {
                        world.slots[i].components.velocity = Some(
                            Velocity(velocity.0.times(drag.0)),
                        );
                    },
                    _ => {},
                }
            }
            i = i + 1;
        }
        assert(world.slots@ =~= old(world).slots@.map_values(|s: Slot| DragSystem::step(s)));
    }
}

/// Moves each entity by its velocity.
pub struct VelocitySystem;

impl VelocitySystem {
    /// An entity with a position and a velocity moves by its velocity; every
    /// other slot stays as it is.
    pub open spec fn step(slot: Slot) -> Slot {
        if slot.alive && slot.components.position is Some && slot.components.velocity is Some {
            let position = slot.components.position->0;
            let velocity = slot.components.velocity->0;
            Slot {
                components: Components {
                    position: Some(Position(position.0.sum(velocity.0))),
                    ..slot.components
                },
                ..slot
            }
        } else {
            slot
        }
    }

    /// Whether `after` is what this system makes of `before`.
    pub open spec fn effect(before: World, after: World) -> bool {
        crate::world::mapped(before, after, |s: Slot| VelocitySystem::step(s))
    }

    pub fn run(&self, world: &mut World)
        ensures
            VelocitySystem::effect(*old(world), *final(world)),
    {
        let n: usize = world.slots.len();
        let mut i: usize = 0;
        while i < n
            invariant
                n == world.slots@.len(),
                n == old(world).slots@.len(),
                0 <= i <= n,
                world.pending == old(world).pending,
                forall|j: int|
                    0 <= j < i ==> #[trigger] world.slots@[j] == VelocitySystem::step(
                        old(world).slots@[j],
                    ),
                forall|j: int| i <= j < n ==> #[trigger] world.slots@[j] == old(world).slots@[j],
            decreases n - i,
        {
            if world.slots[i].alive {
                match (world.slots[i].components.position, world.slots[i].components.velocity) {
                    (Some(position), Some(velocity)) => {
                        world.slots[i].components.position = Some(
                            position.add_offset(velocity.0),
                        );
                    },
                    _ => {},
                }
            }
            i = i + 1;
        }
        assert(world.slots@ =~= old(world).slots@.map_values(|s: Slot| VelocitySystem::step(s)));
    }
}

/// Keeps each entity with a bounding box between the top and the bottom of
/// the play area.
pub struct BoundingBoxSystem;

impl BoundingBoxSystem {
    /// The velocity after a bounce off the top: it points down.
    pub open spec fn bounced_down(velocity: Option<Velocity>) -> Option<Velocity> {
        match velocity {
            Some(v) => Some(Velocity(Vec2 { x: v.0.x, y: clamp(absolute(v.0.y as int)) as i64 })),
            None => None,
        }
    }

    /// The velocity after a bounce off the bottom: it points up.
    pub open spec fn bounced_up(velocity: Option<Velocity>) -> Option<Velocity> {
        match velocity {
            Some(v) => Some(
                Velocity(Vec2 { x: v.0.x, y: (-clamp(absolute(v.0.y as int))) as i64 }),
            ),
            None => None,
        }
    }

    /// An entity with a position and a bounding box that has left the play
    /// area at the top is put back at the top, and one that reaches below the
    /// bottom is put back to stand on the bottom; its velocity, if it has one,
    /// then points back inside. Nothing is done sideways, and every other slot
    /// stays as it is.
    pub open spec fn step(slot: Slot) -> Slot {
        if slot.alive && slot.components.position is Some && slot.components.bounding_box is Some {
            let position = slot.components.position->0;
            let size = slot.components.bounding_box->0;
            if position.0.y < 0 {
                Slot {
                    components: Components {
                        position: Some(Position(Vec2 { x: position.0.x, y: 0 })),
                        velocity: BoundingBoxSystem::bounced_down(slot.components.velocity),
                        ..slot.components
                    },
                    ..slot
                }
            } else if position.0.y + size.0.y > FIELD_HEIGHT {
                Slot {
                    components: Components {
                        position: Some(
                            Position(
                                Vec2 { x: position.0.x, y: clamp(FIELD_HEIGHT - size.0.y) as i64 },
                            ),
                        ),
                        velocity: BoundingBoxSystem::bounced_up(slot.components.velocity),
                        ..slot.components
                    },
                    ..slot
                }
            } else {
                slot
            }
        } else {
            slot
        }
    }

    /// Whether `after` is what this system makes of `before`.
    pub open spec fn effect(before: World, after: World) -> bool {
        crate::world::mapped(before, after, |s: Slot| BoundingBoxSystem::step(s))
    }

    pub fn run(&self, world: &mut World)
        ensures
            BoundingBoxSystem::effect(*old(world), *final(world)),
    {
        let n: usize = world.slots.len();
        let mut i: usize = 0;
        while i < n
            invariant
                n == world.slots@.len(),
                n == old(world).slots@.len(),
                0 <= i <= n,
                world.pending == old(world).pending,
                forall|j: int|
                    0 <= j < i ==> #[trigger] world.slots@[j] == BoundingBoxSystem::step(
                        old(world).slots@[j],
                    ),
                forall|j: int| i <= j < n ==> #[trigger] world.slots@[j] == old(world).slots@[j],
            decreases n - i,
        {
            if world.slots[i].alive {
                match (world.slots[i].components.position, world.slots[i].components.bounding_box) {
                    (Some(position), Some(size)) => {
                        if position.0.y < 0 {
                            world.slots[i].components.position = Some(
                                Position::new(position.0.x, 0),
                            );
                            match world.slots[i].components.velocity {
                                Some(v) => {
                                    world.slots[i].components.velocity = Some(
                                        Velocity::new(v.0.x, magnitude(v.0.y)),
                                    );
                                },
                                None => {},
                            }
                        } else if position.0.y as i128 + size.0.y as i128 > FIELD_HEIGHT as i128 {
                            world.slots[i].components.position = Some(
                                Position::new(position.0.x, minus(FIELD_HEIGHT, size.0.y)),
                            );
                            match world.slots[i].components.velocity {
                                Some(v) => {
                                    world.slots[i].components.velocity = Some(
                                        Velocity::new(v.0.x, negated(magnitude(v.0.y))),
                                    );
                                },
                                None => {},
                            }
                        }
                    },
                    _ => {},
                }
            }
            i = i + 1;
        }
        assert(world.slots@ =~= old(world).slots@.map_values(
            |s: Slot| BoundingBoxSystem::step(s),
        ));
    }
}

/// Where nothing saturates, an entity moves by exactly its velocity, and its
/// velocity stays as it is.
pub proof fn lemma_velocity_integrates(slot: Slot, position: Position, velocity: Velocity)
    requires
        slot.alive,
        slot.components.position == Some(position),
        slot.components.velocity == Some(velocity),
        i64::MIN <= position.0.x + velocity.0.x <= i64::MAX,
        i64::MIN <= position.0.y + velocity.0.y <= i64::MAX,
    ensures
        VelocitySystem::step(slot).components.position == Some(
            Position(
                Vec2 {
                    x: (position.0.x + velocity.0.x) as i64,
                    y: (position.0.y + velocity.0.y) as i64,
                },
            ),
        ),
        VelocitySystem::step(slot).components.velocity == Some(velocity),
{
}

/// An entity with a drag has its velocity multiplied by the drag, and its
/// position stays as it is.
pub proof fn lemma_drag_scales(slot: Slot, drag: Drag, velocity: Velocity)
    requires
        slot.alive,
        slot.components.drag == Some(drag),
        slot.components.velocity == Some(velocity),
    ensures
        DragSystem::step(slot).components.velocity == Some(
            Velocity(
                Vec2 {
                    x: product(velocity.0.x as int, drag.0 as int) as i64,
                    y: product(velocity.0.y as int, drag.0 as int) as i64,
                },
            ),
        ),
        DragSystem::step(slot).components.position == slot.components.position,
{
}

impl Default for Position {
    /// The origin.
    fn default() -> (p: Position)
        ensures
            p.0 == (Vec2 { x: 0, y: 0 }),
    {
        Position(Vec2 { x: 0, y: 0 })
    }
}

impl Default for Velocity {
    /// No movement.
    fn default() -> (v: Velocity)
        ensures
            v.0 == (Vec2 { x: 0, y: 0 }),
    {
        Velocity(Vec2 { x: 0, y: 0 })
    }
}

impl Default for Drag {
    /// The factor zero.
    fn default() -> (d: Drag)
        ensures
            d.0 == 0,
    {
        Drag(0)
    }
}

impl Default for Speed {
    /// No speed.
    fn default() -> (s: Speed)
        ensures
            s.0 == 0,
    {
        Speed(0)
    }
}

impl Default for BoundingBox {
    /// A box without extent.
    fn default() -> (b: BoundingBox)
        ensures
            b.0 == (Vec2 { x: 0, y: 0 }),
    {
        BoundingBox(Vec2 { x: 0, y: 0 })
    }
}

} // verus!
