//! The game: the world, the state of the run, and the phases.
use vstd::prelude::*;
use crate::color::FOREGROUND;
use crate::enemy::{
    EnemiesLeft, EnemyCollisionSystem, EnemyEmitter, EnemyEmitterSystem, EnemySystem,
};
use crate::entity::LifetimeSystem;
use crate::input::Input;
use crate::lives::{flash, flash_of, Lives};
use crate::money::Wallet;
use crate::movement::MovementSystem;
use crate::particle::ParticleEmitterSystem;
use crate::phase::{NextPhase, Phase};
use crate::physics::{BoundingBoxSystem, DragSystem, Position, Vec2, VelocitySystem};
use crate::pickup::{PickupEmitterSystem, PickupSystem};
use crate::player::{player, player_of, PlayerSystem};
use crate::projectile::{ProjectileEmitterSystem, ProjectileSystem};
use crate::ship::Ships;
use crate::sprite::{Sprite, SpritePositionSystem, SpriteRef, Sprites};
use crate::upgrade::Upgrades;
use crate::world::{
    created, filled, filled_upto, lemma_first_vacant, next_entity, swept, wiped, Components, Slot,
    World,
};

verus! {

/// With how many lives a level starts.
pub const START_LIVES: u8 = 3;

/// How long the flash lasts with which a level starts.
pub const START_FLASH_TIME: i64 = 5_000;

/// The world and the state of the run.
#[derive(Debug)]
pub struct Game {
    pub world: World,
    pub level: usize,
    pub phase: Phase,
    /// The change of phase that was asked for and has not been made yet.
    pub request: Option<NextPhase>,
    /// The lives of the player; none before the first level.
    pub lives: Option<Lives>,
    pub wallet: Wallet,
    pub upgrades: Upgrades,
    pub enemies_left: EnemiesLeft,
    pub input: Input,
    pub sprites: Sprites,
    pub player_sprite: SpriteRef,
    /// The roster of enemy ships; none before the first run.
    pub ships: Option<Ships>,
}

/// The components of the planet in the background.
pub open spec fn planet_of(sprites: Sprites) -> Components {
    Components {
        sprite: Some(Sprite { reference: sprites.planet, x: 0, y: 0, rotation: 0 }),
        position: Some(Position(Vec2 { x: 0, y: 0 })),
        ..Components::none()
    }
}

/// The components of the entity that emits the wave of a level.
pub open spec fn wave_of(emitter: EnemyEmitter) -> Components {
    Components { enemy_emitter: Some(emitter), ..Components::none() }
}

/// The slots after an entity has been created with a bundle of components.
pub open spec fn spawned_now(slots: Seq<Slot>, bundle: Components) -> Seq<Slot> {
    filled(created(slots), next_entity(slots), bundle)
}

/// The slots when a level starts in an empty world: a flash, the planet, the
/// emitter of the wave and the player have been created, in this order.
pub open spec fn entered(
    slots: Seq<Slot>,
    emitter: EnemyEmitter,
    sprites: Sprites,
    player_sprite: SpriteRef,
) -> Seq<Slot> {
    spawned_now(
        spawned_now(
            spawned_now(
                spawned_now(slots, flash_of(FOREGROUND, START_FLASH_TIME)),
                planet_of(sprites),
            ),
            wave_of(emitter),
        ),
        player_of(player_sprite),
    )
}

/// The phase in which a switch ends: initializing a run leads on into play.
pub open spec fn landing(phase: Phase) -> Phase {
    if phase == Phase::Initialize {
        Phase::Play
    } else {
        phase
    }
}

/// The level after a switch from one phase to another: a run starts at level
/// one, and the level goes up by one when play follows the setup.
pub open spec fn level_after(level: usize, from: Phase, to: Phase) -> usize {
    if to == Phase::Initialize {
        1
    } else if to == Phase::Play && from == Phase::Setup && level < usize::MAX {
        (level + 1) as usize
    } else {
        level
    }
}

/// The switch that ends a tick, if there is one: the game is over once a wave
/// is under way and no life is left; else the switch that was asked for is
/// made.
pub open spec fn due_switch(
    phase: Phase,
    request: Option<NextPhase>,
    lives: Option<Lives>,
) -> Option<Phase> {
    if phase.in_play() && lives == Some(Lives { amount: 0 }) {
        Some(Phase::GameOver)
    } else {
        match request {
            Some(next) => Some(next.target()),
            None => None,
        }
    }
}

/// Creating an entity with a bundle of components makes one slot, which held
/// no entity before, hold an entity with exactly those components, and
/// leaves every other slot as it is.
pub proof fn lemma_spawned_now(slots: Seq<Slot>, bundle: Components)
    requires
        slots.len() < usize::MAX,
    ensures
        ({
            let e = next_entity(slots);
            let after = spawned_now(slots, bundle);
            &&& e.index <= slots.len()
            &&& e.index < slots.len() ==> !slots[e.index as int].alive
            &&& after.len() == if e.index < slots.len() {
                slots.len()
            } else {
                slots.len() + 1
            }
            &&& after[e.index as int].alive
            &&& after[e.index as int].components == bundle
            &&& forall|j: int| 0 <= j < slots.len() && j != e.index ==> after[j] == slots[j]
        }),
{
    lemma_first_vacant(slots, 0);
    let e = next_entity(slots);
    let made = created(slots);
}

/// Whether the slot holds a player.
pub open spec fn holds_player(slot: Slot) -> bool {
    slot.alive && slot.components.player is Some
}

/// Whether the slot holds an emitter of enemies.
pub open spec fn holds_wave(slot: Slot) -> bool {
    slot.alive && slot.components.enemy_emitter is Some
}

/// A level starts with exactly one player and exactly one emitter of enemies:
/// when a world without entities is entered, one slot holds a player and no
/// other does, and one slot holds an emitter of enemies and no other does.
pub proof fn lemma_one_player_one_wave(
    slots: Seq<Slot>,
    emitter: EnemyEmitter,
    sprites: Sprites,
    player_sprite: SpriteRef,
)
    requires
        forall|j: int| 0 <= j < slots.len() ==> !(#[trigger] slots[j]).alive,
        slots.len() + 4 <= usize::MAX,
    ensures
        ({
            let after = entered(slots, emitter, sprites, player_sprite);
            &&& exists|p: int|
                0 <= p < after.len() && holds_player(#[trigger] after[p]) && forall|j: int|
                    0 <= j < after.len() && holds_player(#[trigger] after[j]) ==> j == p
            &&& exists|w: int|
                0 <= w < after.len() && holds_wave(#[trigger] after[w]) && forall|j: int|
                    0 <= j < after.len() && holds_wave(#[trigger] after[j]) ==> j == w
        }),
{
    let flash = flash_of(FOREGROUND, START_FLASH_TIME);
    let s1 = spawned_now(slots, flash);
    let s2 = spawned_now(s1, planet_of(sprites));
    let s3 = spawned_now(s2, wave_of(emitter));
    let s4 = spawned_now(s3, player_of(player_sprite));
    lemma_spawned_now(s2, wave_of(emitter));
    lemma_spawned_now(s3, player_of(player_sprite));
    assert(s4 == entered(slots, emitter, sprites, player_sprite));
}

impl Game {
    /// Whether `after` is what a switch to `phase` makes of `before`.
    ///
    /// Every entity is removed. A run that is initialized starts at level one
    /// with an empty wallet and no upgrades, and goes on into play. Play
    /// starts with three lives, a flash, the planet, the emitter of the wave
    /// of the level and the player.
    pub open spec fn switched(before: Game, phase: Phase, after: Game) -> bool {
        let emptied = before.world.slots@.map_values(|s: Slot| wiped(s));
        &&& after.phase == landing(phase)
        &&& after.request is None
        &&& after.level == level_after(before.level, before.phase, phase)
        &&& after.wallet.amount == if phase == Phase::Initialize {
            0
        } else {
            before.wallet.amount
        }
        &&& after.upgrades.hold == (phase != Phase::Initialize && before.upgrades.hold)
        &&& after.upgrades.split == (phase != Phase::Initialize && before.upgrades.split)
        &&& after.lives == if landing(phase) == Phase::Play {
            Some(Lives { amount: START_LIVES })
        } else {
            before.lives
        }
        &&& after.enemies_left == before.enemies_left
        &&& after.input == before.input
        &&& after.sprites == before.sprites
        &&& after.player_sprite == before.player_sprite
        &&& after.ships == before.ships
        &&& after.world.pending@.len() == 0
        &&& if landing(phase) == Phase::Play {
            exists|emitter: EnemyEmitter|
                emitter.made_for(Some(after.level)) && after.world.slots@ == #[trigger] entered(
                    emptied,
                    emitter,
                    before.sprites,
                    before.player_sprite,
                )
        } else {
            after.world.slots@ == emptied
        }
    }

    /// A game in the menu, with an empty world.
    pub fn new(sprites: Sprites, player_sprite: SpriteRef) -> (g: Game)
        ensures
            g.phase == Phase::Menu,
            g.request is None,
            g.level == 0,
            g.lives is None,
            g.wallet.amount == 0,
            !g.upgrades.hold,
            !g.upgrades.split,
            g.enemies_left.0 == 0,
            g.input == (Input { mouse_x: 0, mouse_y: 0, mouse_down: false }),
            g.ships is None,
            g.sprites == sprites,
            g.player_sprite == player_sprite,
            g.world.slots@.len() == 0,
            g.world.pending@.len() == 0,
    {
        Game {
            world: World::new(),
            level: 0,
            phase: Phase::Menu,
            request: None,
            lives: None,
            wallet: Wallet::new(),
            upgrades: Upgrades::new(),
            enemies_left: EnemiesLeft(0),
            input: Input::new(),
            sprites,
            player_sprite,
            ships: None,
        }
    }

    /// Switches to a phase.
    pub fn switch_phase(&mut self, phase: Phase)
        ensures
            Game::switched(*old(self), phase, *final(self)),
    {
        let from: Phase = self.phase;
        self.request = None;
        self.world.delete_all();
        let ghost emptied = self.world.slots@;
        let mut target: Phase = phase;
        match phase {
            Phase::Initialize => {
                self.level = 1;
                self.wallet.reset();
                self.upgrades.reset();
                target = Phase::Play;
            },
            Phase::Play => {
                match from {
                    Phase::Setup => {
                        if self.level < usize::MAX {
                            self.level = self.level + 1;
                        }
                    },
                    _ => {},
                }
            },
            _ => {},
        }
        self.phase = target;
        match target {
            Phase::Play => {
                self.world.spawn(flash(FOREGROUND, START_FLASH_TIME));
                let mut planet = Components::empty();
                planet.sprite = Some(Sprite::new(self.sprites.planet));
                planet.position = Some(Position::new(0, 0));
                self.world.spawn(planet);
                self.lives = Some(Lives::new(START_LIVES));
                let emitter = EnemyEmitter::new(Some(self.level));
                let mut wave = Components::empty();
                wave.enemy_emitter = Some(emitter);
                self.world.spawn(wave);
                crate::player::spawn_player(&mut self.world, self.player_sprite);
                assert(self.world.slots@ == entered(
                    emptied,
                    emitter,
                    self.sprites,
                    self.player_sprite,
                ));
            },
            _ => {},
        }
    }

    /// Whether `after` is `before` at the end of a tick, before any switch:
    /// the world has taken in what was deleted and what was queued, and
    /// nothing else has changed.
    pub open spec fn maintained(before: Game, after: Game) -> bool {
        &&& after.world.slots@ == filled_upto(
            before.world.slots@.map_values(|s: Slot| swept(s)),
            before.world.pending@,
            before.world.pending@.len() as int,
        )
        &&& after.world.pending@.len() == 0
        &&& after.level == before.level
        &&& after.phase == before.phase
        &&& after.request == before.request
        &&& after.lives == before.lives
        &&& after.wallet == before.wallet
        &&& after.upgrades == before.upgrades
        &&& after.enemies_left == before.enemies_left
        &&& after.input == before.input
        &&& after.sprites == before.sprites
        &&& after.player_sprite == before.player_sprite
        &&& after.ships == before.ships
    }

    /// Whether `b` is `a` wherever a mark is set, and in every part that no
    /// system changes.
    pub open spec fn kept(
        a: Game,
        b: Game,
        lives: bool,
        wallet: bool,
        phase: bool,
        request: bool,
        left: bool,
    ) -> bool {
        &&& b.level == a.level
        &&& b.upgrades == a.upgrades
        &&& b.input == a.input
        &&& b.sprites == a.sprites
        &&& b.player_sprite == a.player_sprite
        &&& b.ships == a.ships
        &&& lives ==> b.lives == a.lives
        &&& wallet ==> b.wallet == a.wallet
        &&& phase ==> b.phase == a.phase
        &&& request ==> b.request == a.request
        &&& left ==> b.enemies_left == a.enemies_left
    }

    /// Whether `b` is what the system with the number `k` makes of `a`. The
    /// systems are numbered in the order in which they run.
    pub open spec fn stage(k: int, a: Game, b: Game) -> bool {
        if k == 0 {
            &&& ProjectileEmitterSystem::effect(a.world, b.world, a.sprites)
            &&& Game::kept(a, b, true, true, true, true, true)
        } else if k == 1 {
            &&& ParticleEmitterSystem::effect(a.world, b.world)
            &&& Game::kept(a, b, true, true, true, true, true)
        } else if k == 2 {
            &&& LifetimeSystem::effect(a.world, b.world)
            &&& Game::kept(a, b, true, true, true, true, true)
        } else if k == 3 {
            &&& PlayerSystem::effect(a.world, b.world, a.input)
            &&& Game::kept(a, b, true, true, true, true, true)
        } else if k == 4 {
            &&& ProjectileSystem::effect(a.world, b.world, a.lives, b.lives, a.sprites, a.upgrades)
            &&& Game::kept(a, b, false, true, true, true, true)
        } else if k == 5 {
            &&& PickupEmitterSystem::effect(a.world, b.world)
            &&& Game::kept(a, b, true, true, true, true, true)
        } else if k == 6 {
            &&& PickupSystem::effect(a.world, b.world, a.lives, b.lives)
            &&& Game::kept(a, b, false, true, true, true, true)
        } else if k == 7 {
            &&& EnemySystem::effect(
                a.world,
                b.world,
                a.phase,
                a.request,
                b.request,
                a.lives,
                b.lives,
            )
            &&& Game::kept(a, b, false, true, true, false, true)
        } else if k == 8 {
            &&& EnemyEmitterSystem::effect(
                a.world,
                b.world,
                a.sprites,
                a.ships,
                a.phase,
                b.phase,
                a.enemies_left,
                b.enemies_left,
            )
            &&& Game::kept(a, b, true, true, false, true, false)
        } else if k == 9 {
            &&& MovementSystem::effect(a.world, b.world)
            &&& Game::kept(a, b, true, true, true, true, true)
        } else if k == 10 {
            &&& VelocitySystem::effect(a.world, b.world)
            &&& Game::kept(a, b, true, true, true, true, true)
        } else if k == 11 {
            &&& DragSystem::effect(a.world, b.world)
            &&& Game::kept(a, b, true, true, true, true, true)
        } else if k == 12 {
            &&& BoundingBoxSystem::effect(a.world, b.world)
            &&& Game::kept(a, b, true, true, true, true, true)
        } else if k == 13 {
            &&& EnemyCollisionSystem::effect(a.world, b.world, a.wallet, b.wallet, a.sprites)
            &&& Game::kept(a, b, true, false, true, true, true)
        } else {
            &&& SpritePositionSystem::effect(a.world, b.world)
            &&& Game::kept(a, b, true, true, true, true, true)
        }
    }

    /// Whether `trace` holds the game before the systems run, after each of
    /// the fifteen systems, in order, and so at its end after all of them.
    pub open spec fn traced(before: Game, after: Game, trace: Seq<Game>) -> bool {
        &&& trace.len() == 16
        &&& trace[0] == before
        &&& trace[15] == after
        &&& forall|k: int| 0 <= k < 15 ==> #[trigger] Game::stage(k, trace[k], trace[k + 1])
    }

    /// Whether `after` is what the systems, each run once and in order, make
    /// of `before`.
    pub open spec fn ran(before: Game, after: Game) -> bool {
        exists|trace: Seq<Game>| #[trigger] Game::traced(before, after, trace)
    }

    /// Whether `after` is what the end of a tick makes of `before`: the world
    /// has taken in what was deleted and what was queued, and then the switch
    /// has been made that was due, if one was.
    pub open spec fn ended(before: Game, after: Game) -> bool {
        match due_switch(before.phase, before.request, before.lives) {
            None => Game::maintained(before, after),
            Some(phase) => exists|mid: Game| #[trigger]
                Game::maintained(before, mid) && Game::switched(mid, phase, after),
        }
    }

    /// Hands the game the roster of enemy ships for the next run.
    pub fn set_ships(&mut self, ships: Ships)
        ensures
            *final(self) == (Game { ships: Some(ships), ..*old(self) }),
    {
        self.ships = Some(ships);
    }

    /// Runs every system once, in their fixed order: the emitters of
    /// projectiles and particles, the lifetimes, the player, the projectiles,
    /// the pickups, the enemies and their emitters, the movement, the
    /// velocities, the drag, the walls of the play area, the collisions of the
    /// enemies, and the sprites.
    ///
    /// What each system does to the world is said by the system. Of the state
    /// of the run, the systems change the lives, the wallet and the count of
    /// the enemies that are left; they ask for the setup only while the game
    /// waits for the last enemy, and they change the phase in one way only:
    /// from play to waiting for the last enemy, once the roster of ships is
    /// there and no emitter has an enemy left.
    pub fn run_systems(&mut self)
        ensures
            Game::ran(*old(self), *final(self)),
            final(self).level == old(self).level,
            final(self).upgrades == old(self).upgrades,
            final(self).input == old(self).input,
            final(self).sprites == old(self).sprites,
            final(self).player_sprite == old(self).player_sprite,
            final(self).ships == old(self).ships,
            final(self).lives is Some == old(self).lives is Some,
            final(self).phase == if old(self).phase == Phase::Play && old(self).ships is Some
                && final(self).enemies_left.0 == 0 {
                Phase::WaitingForLastEnemy
            } else {
                old(self).phase
            },
            final(self).request == old(self).request || (final(self).request == Some(
                NextPhase::Setup,
            ) && old(self).phase == Phase::WaitingForLastEnemy),
            old(self).ships is None ==> final(self).enemies_left == old(self).enemies_left,
    {
        let ghost g0 = *self;
        ProjectileEmitterSystem.run(&mut self.world, &self.sprites);
        let ghost g1 = *self;
        ParticleEmitterSystem.run(&mut self.world);
        let ghost g2 = *self;
        LifetimeSystem.run(&mut self.world);
        let ghost g3 = *self;
        PlayerSystem.run(&mut self.world, &self.input);
        let ghost g4 = *self;
        ProjectileSystem.run(&mut self.world, &mut self.lives, &self.sprites, &self.upgrades);
        let ghost g5 = *self;
        PickupEmitterSystem.run(&mut self.world);
        let ghost g6 = *self;
        PickupSystem.run(&mut self.world, &mut self.lives);
        let ghost g7 = *self;
        EnemySystem.run(&mut self.world, self.phase, &mut self.request, &mut self.lives);
        let ghost g8 = *self;
        EnemyEmitterSystem.run(
            &mut self.world,
            &self.sprites,
            &self.ships,
            &mut self.phase,
            &mut self.enemies_left,
        );
        let ghost g9 = *self;
        MovementSystem.run(&mut self.world);
        let ghost g10 = *self;
        VelocitySystem.run(&mut self.world);
        let ghost g11 = *self;
        DragSystem.run(&mut self.world);
        let ghost g12 = *self;
        BoundingBoxSystem.run(&mut self.world);
        let ghost g13 = *self;
        EnemyCollisionSystem.run(&mut self.world, &mut self.wallet, &self.sprites);
        let ghost g14 = *self;
        SpritePositionSystem.run(&mut self.world);
        proof {
            let trace = seq![
                g0, g1, g2, g3, g4, g5, g6, g7, g8, g9, g10, g11, g12, g13, g14, *self,
            ];
            assert(Game::traced(*old(self), *self, trace));
        }
    }

    /// Ends a tick: the world takes in what was deleted and what was queued,
    /// and then the switch is made that is due, if one is.
    pub fn end_tick(&mut self)
        ensures
            Game::ended(*old(self), *final(self)),
    {
        self.world.maintain();
        let ghost mid = *self;
        let dead: bool = match self.lives {
            Some(lives) => lives.is_dead(),
            None => false,
        };
        if self.phase.is_in_play() && dead {
            self.switch_phase(Phase::GameOver);
        } else {
            match self.request {
                Some(next) => {
                    self.switch_phase(next.phase());
                    assert(Game::maintained(*old(self), mid));
                },
                None => {},
            }
        }
    }

    /// One tick: every system runs once, and the tick ends.
    ///
    /// The phase becomes `WaitingForLastEnemy` from `Play` only, and only in
    /// a tick after which no emitter has an enemy left. The phase becomes
    /// `GameOver` only while a wave is under way, and only when no life is
    /// left.
    pub fn update(&mut self)
        ensures
            exists|mid: Game| #[trigger]
                Game::ran(*old(self), mid) && Game::ended(mid, *final(self)),
            final(self).request is None,
            final(self).phase == Phase::WaitingForLastEnemy ==> old(self).phase
                == Phase::WaitingForLastEnemy || (old(self).phase == Phase::Play
                && final(self).enemies_left.0 == 0),
            final(self).phase == Phase::GameOver ==> old(self).phase == Phase::GameOver || (old(
                self,
            ).phase.in_play() && final(self).lives == Some(Lives { amount: 0 })),
            final(self).phase == Phase::Setup ==> old(self).phase == Phase::Setup || old(
                self,
            ).request == Some(NextPhase::Setup) || old(self).phase == Phase::WaitingForLastEnemy,
            final(self).phase == Phase::Menu ==> old(self).phase == Phase::Menu,
            final(self).phase != Phase::Initialize || old(self).phase == Phase::Initialize,
            final(self).ships == old(self).ships,
            final(self).sprites == old(self).sprites,
            final(self).input == old(self).input,
    {
        self.run_systems();
        self.end_tick();
    }

    /// A mouse button went down: in the menu and when the game is over, a new
    /// run starts.
    pub fn mouse_button_down_event(&mut self)
        ensures
            final(self).input == (Input { mouse_down: true, ..old(self).input }),
            old(self).phase == Phase::Menu || old(self).phase == Phase::GameOver ==> Game::switched(
                *old(self),
                Phase::Initialize,
                Game { input: old(self).input, ..*final(self) },
            ),
            !(old(self).phase == Phase::Menu || old(self).phase == Phase::GameOver) ==> *final(self)
                == (Game { input: final(self).input, ..*old(self) }),
    {
        let starts: bool = match self.phase {
            Phase::Menu => true,
            Phase::GameOver => true,
            _ => false,
        };
        if starts {
            self.switch_phase(Phase::Initialize);
        }
        self.input.handle_mouse_button(true);
    }

    /// A mouse button went up.
    pub fn mouse_button_up_event(&mut self)
        ensures
            *final(self) == (Game {
                input: Input { mouse_down: false, ..old(self).input },
                ..*old(self)
            }),
    {
        self.input.handle_mouse_button(false);
    }

    /// The mouse moved to a place of the play area.
    pub fn mouse_motion_event(&mut self, x: i32, y: i32)
        ensures
            *final(self) == (Game {
                input: Input { mouse_x: x, mouse_y: y, ..old(self).input },
                ..*old(self)
            }),
    {
        self.input.handle_mouse_move(x, y);
    }
}

} // verus!
