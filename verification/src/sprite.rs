//! Sprite handles and the sprite component.
//!
//! The library never looks at pixels: a sprite is a handle that the sprite
//! provider issued, and the library stores it and hands it on.
use vstd::prelude::*;
use crate::fixed::{quot, UNIT};
use crate::world::{Components, Slot, World};

verus! {

/// The handle of a loaded sprite.
#[derive(Clone, Copy, Debug, PartialEq, Eq, Structural)]
pub struct SpriteRef(pub usize);

/// What is drawn for an entity, where, and turned by how many degrees.
#[derive(Clone, Copy, Debug)]
pub struct Sprite {
    pub reference: SpriteRef,
    pub x: i32,
    pub y: i32,
    pub rotation: i16,
}

/// The whole pixel in which a fixed-point coordinate lies, within the `i32`
/// range.
pub open spec fn pixel_of(coordinate: i64) -> int {
    let whole = quot(coordinate as int, UNIT as int);
    if whole < i32::MIN {
        i32::MIN as int
    } else if whole > i32::MAX {
        i32::MAX as int
    } else {
        whole
    }
}

/// The whole pixel in which a fixed-point coordinate lies.
pub fn pixel(coordinate: i64) -> (p: i32)
    ensures
        p == pixel_of(coordinate),
{
    let whole: i64 = coordinate / UNIT;
    if whole < i32::MIN as i64 {
        i32::MIN
    } else if whole > i32::MAX as i64 {
        i32::MAX
    } else {
        whole as i32
    }
}

/// The angle between 0 and 360 degrees that differs from `rotation` by whole
/// turns; a full turn stays 360.
pub open spec fn normalized(rotation: int) -> int {
    if rotation < 0 {
        rotation % 360
    } else if rotation > 360 {
        if rotation % 360 == 0 {
            360
        } else {
            rotation % 360
        }
    } else {
        rotation
    }
}

impl Sprite {
    /// A sprite at the origin, not turned.
    pub fn new(reference: SpriteRef) -> (s: Sprite)
        ensures
            s.reference == reference,
            s.x == 0,
            s.y == 0,
            s.rotation == 0,
    {
        Sprite { reference, x: 0, y: 0, rotation: 0 }
    }

    /// Moves the sprite to a pixel.
    pub fn set_pos(&mut self, x: i32, y: i32)
        ensures
            final(self).x == x,
            final(self).y == y,
            final(self).reference == old(self).reference,
            final(self).rotation == old(self).rotation,
    {
        self.x = x;
        self.y = y;
    }

    /// The pixel at which the sprite is drawn.
    pub fn pos(&self) -> (p: (i32, i32))
        ensures
            p.0 == self.x,
            p.1 == self.y,
    {
        (self.x, self.y)
    }

    /// Turns the sprite to an angle in degrees, brought between 0 and 360.
    pub fn set_rot(&mut self, rotation: i16)
        ensures
            final(self).rotation == normalized(rotation as int),
            0 <= final(self).rotation <= 360,
            final(self).reference == old(self).reference,
            final(self).x == old(self).x,
            final(self).y == old(self).y,
    {
        let turned: i16 = if rotation < 0 {
            let m: i16 = rotation % 360;
            if m < 0 {
                m + 360
            } else {
                m
            }
        } else if rotation > 360 {
            let m: i16 = rotation % 360;
            if m == 0 {
                360
            } else {
                m
            }
        } else {
            rotation
        };
        self.rotation = turned;
    }

    /// The angle in degrees by which the sprite is turned.
    pub fn rot(&self) -> (r: i16)
        ensures
            r == self.rotation,
    {
        self.rotation
    }
}

/// Marks an entity whose sprite turns with its velocity.
#[derive(Clone, Copy, Debug)]
pub struct RotationFollowsVelocity;

/// The sprites that every level uses, with the sizes of the two projectiles.
#[derive(Clone, Copy, Debug)]
pub struct Sprites {
    pub red_particle: SpriteRef,
    pub white_particle: SpriteRef,
    pub big_projectile: SpriteRef,
    pub big_projectile_width: i64,
    pub big_projectile_height: i64,
    pub small_projectile: SpriteRef,
    pub small_projectile_width: i64,
    pub small_projectile_height: i64,
    pub planet: SpriteRef,
}

impl Sprites {
    /// The big projectile's sprite, width and height.
    pub fn big_projectile(&self) -> (r: (SpriteRef, i64, i64))
        ensures
            r == (self.big_projectile, self.big_projectile_width, self.big_projectile_height),
    {
        (self.big_projectile, self.big_projectile_width, self.big_projectile_height)
    }

    /// The small projectile's sprite, width and height.
    pub fn small_projectile(&self) -> (r: (SpriteRef, i64, i64))
        ensures
            r == (
                self.small_projectile,
                self.small_projectile_width,
                self.small_projectile_height,
            ),
    {
        (self.small_projectile, self.small_projectile_width, self.small_projectile_height)
    }
}

/// Puts each sprite where its entity is.
pub struct SpritePositionSystem;

impl SpritePositionSystem {
    /// An entity with a position and a sprite has its sprite moved to the
    /// pixel in which the position lies; every other slot stays as it is.
    pub open spec fn step(slot: Slot) -> Slot {
        if slot.alive && slot.components.position is Some && slot.components.sprite is Some {
            let position = slot.components.position->0;
            let sprite = slot.components.sprite->0;
            Slot {
                components: Components {
                    sprite: Some(
                        Sprite {
                            x: pixel_of(position.0.x) as i32,
                            y: pixel_of(position.0.y) as i32,
                            ..sprite
                        },
                    ),
                    ..slot.components
                },
                ..slot
            }
        } else {
            slot
        }
    }

    /// Whether `after` is what this system makes of `before`.
    pub open spec fn effect(before: World, after: World) -> bool {
        crate::world::mapped(before, after, |s: Slot| SpritePositionSystem::step(s))
    }

    pub fn run(&self, world: &mut World)
        ensures
            SpritePositionSystem::effect(*old(world), *final(world)),
    {
        let n: usize = world.slots.len();
        let mut i: usize = 0;
        while i < n
            invariant
                n == world.slots@.len(),
                n == old(world).slots@.len(),
                0 <= i <= n,
                world.pending == old(world).pending,
                forall|j: int|
                    0 <= j < i ==> #[trigger] world.slots@[j] == SpritePositionSystem::step(
                        old(world).slots@[j],
                    ),
                forall|j: int| i <= j < n ==> #[trigger] world.slots@[j] == old(world).slots@[j],
            decreases n - i,
        {
            if world.slots[i].alive {
                match (world.slots[i].components.position, world.slots[i].components.sprite) {
                    (Some(position), Some(sprite)) => {
                        let mut moved: Sprite = sprite;
                        moved.set_pos(pixel(position.0.x), pixel(position.0.y));
                        world.slots[i].components.sprite = Some(moved);
                    },
                    _ => {},
                }
            }
            i = i + 1;
        }
        assert(world.slots@ =~= old(world).slots@.map_values(
            |s: Slot| SpritePositionSystem::step(s),
        ));
    }
}

impl Default for RotationFollowsVelocity {
    /// The mark of a sprite that turns with its entity.
    fn default() -> (m: RotationFollowsVelocity)
        ensures
            m == RotationFollowsVelocity,
    {
        RotationFollowsVelocity
    }
}

} // verus!
