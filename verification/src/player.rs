//! The player's ship.
use vstd::prelude::*;
use crate::fixed::{clamp, minus, UNIT};
use crate::input::Input;
use crate::physics::{BoundingBox, Drag, Position, Speed, Vec2, Velocity};
use crate::sprite::{Sprite, SpriteRef};
use crate::world::{Components, Entity, Slot, World};

verus! {

/// Marks the entity that the player steers.
#[derive(Clone, Copy, Debug)]
pub struct Player;

/// Puts the player where the mouse is.
pub struct PlayerSystem;

impl PlayerSystem {
    /// The player, if it has a position and a bounding box, is moved up or
    /// down until its middle is level with the mouse; every other slot stays
    /// as it is.
    pub open spec fn step(slot: Slot, mouse_y: i32) -> Slot {
        if slot.alive && slot.components.player is Some && slot.components.position is Some
            && slot.components.bounding_box is Some {
            let position = slot.components.position->0;
            let size = slot.components.bounding_box->0;
            Slot {
                components: Components {
                    position: Some(
                        Position(
                            Vec2 {
                                x: position.0.x,
                                y: clamp(mouse_y * UNIT - size.middle().y) as i64,
                            },
                        ),
                    ),
                    ..slot.components
                },
                ..slot
            }
        } else {
            slot
        }
    }

    /// Whether `after` is what this system makes of `before`.
    pub open spec fn effect(before: World, after: World, input: Input) -> bool {
        crate::world::mapped(before, after, |s: Slot| PlayerSystem::step(s, input.mouse_y))
    }

    pub fn run(&self, world: &mut World, input: &Input)
        ensures
            PlayerSystem::effect(*old(world), *final(world), *input),
    {
        let mouse_y: i32 = input.mouse_y();
        let n: usize = world.slots.len();
        let mut i: usize = 0;
        while i < n
            invariant
                n == world.slots@.len(),
                n == old(world).slots@.len(),
                0 <= i <= n,
                world.pending == old(world).pending,
                forall|j: int|
                    0 <= j < i ==> #[trigger] world.slots@[j] == PlayerSystem::step(
                        old(world).slots@[j],
                        mouse_y,
                    ),
                forall|j: int| i <= j < n ==> #[trigger] world.slots@[j] == old(world).slots@[j],
            decreases n - i,
        {
            if world.slots[i].alive && world.slots[i].components.player.is_some() {
                match (world.slots[i].components.position, world.slots[i].components.bounding_box) {
                    (Some(position), Some(size)) => {
                        let offset: Vec2 = size.center_offset();
                        world.slots[i].components.position = Some(
                            Position::new(position.0.x, minus(mouse_y as i64 * UNIT, offset.y)),
                        );
                    },
                    _ => {},
                }
            }
            i = i + 1;
        }
        assert(world.slots@ =~= old(world).slots@.map_values(
            |s: Slot| PlayerSystem::step(s, input.mouse_y),
        ));
    }
}

/// How far from the left the player starts.
pub const PLAYER_START_X: i64 = 10_000;

/// How far from the top the player starts.
pub const PLAYER_START_Y: i64 = 200_000;

/// How fast the player can be steered.
pub const PLAYER_SPEED: i64 = 500;

/// The drag on the player.
pub const PLAYER_DRAG: i64 = 850;

/// The width of the player.
pub const PLAYER_WIDTH: i64 = 11_000;

/// The height of the player.
pub const PLAYER_HEIGHT: i64 = 44_000;

/// The components of a new player.
pub open spec fn player_of(sprite: SpriteRef) -> Components {
    Components {
        sprite: Some(Sprite { reference: sprite, x: 0, y: 0, rotation: 0 }),
        player: Some(Player),
        position: Some(Position(Vec2 { x: PLAYER_START_X, y: PLAYER_START_Y })),
        velocity: Some(Velocity(Vec2 { x: 0, y: 0 })),
        drag: Some(Drag(PLAYER_DRAG)),
        speed: Some(Speed(PLAYER_SPEED)),
        bounding_box: Some(BoundingBox(Vec2 { x: PLAYER_WIDTH, y: PLAYER_HEIGHT })),
        ..Components::none()
    }
}

/// The components of a new player.
pub fn player(sprite: SpriteRef) -> (c: Components)
    ensures
        c == player_of(sprite),
{
    let mut c = Components::empty();
    c.sprite = Some(Sprite::new(sprite));
    c.player = Some(Player);
    c.position = Some(Position::new(PLAYER_START_X, PLAYER_START_Y));
    c.velocity = Some(Velocity::new(0, 0));
    c.drag = Some(Drag(PLAYER_DRAG));
    c.speed = Some(Speed(PLAYER_SPEED));
    c.bounding_box = Some(BoundingBox::new(PLAYER_WIDTH, PLAYER_HEIGHT));
    c
}

/// Creates the player, with the given sprite, at its start.
pub fn spawn_player(world: &mut World, sprite: SpriteRef) -> (e: Entity)
    ensures
        e == crate::world::next_entity(old(world).slots@),
        final(world).slots@ == crate::world::filled(
            crate::world::created(old(world).slots@),
            e,
            player_of(sprite),
        ),
        final(world).pending == old(world).pending,
        crate::world::live(final(world).slots@, e),
{
    world.spawn(player(sprite))
}

impl Default for Player {
    /// The mark of the player.
    fn default() -> (p: Player)
        ensures
            p == Player,
    {
        Player
    }
}

} // verus!
