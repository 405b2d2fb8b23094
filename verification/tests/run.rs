use fermi_paradox::background::{pack, Background, SIZE};
use fermi_paradox::color::{FOREGROUND, STAR_BRIGHT, STAR_DIM};
use fermi_paradox::effect::{ScreenFlash, ScreenFlashSystem};
use fermi_paradox::enemy::{Enemy, EnemyEmitter, EnemyType};
use fermi_paradox::game::Game;
use fermi_paradox::input::Input;
use fermi_paradox::lives::Lives;
use fermi_paradox::money::{Money, Wallet};
use fermi_paradox::particle::{particle, ParticleEmitter, ParticleEmitterSystem};
use fermi_paradox::phase::{NextPhase, Phase};
use fermi_paradox::physics::{BoundingBox, Position, Vec2, Velocity};
use fermi_paradox::pickup::{pickup, Pickup, PickupEmitter, PickupEmitterSystem};
use fermi_paradox::player::spawn_player;
use fermi_paradox::projectile::{fire, ProjectileEmitter, ProjectileEmitterSystem};
use fermi_paradox::ship::Ships;
use fermi_paradox::sprite::{SpriteRef, Sprites};
use fermi_paradox::upgrade::{Upgrades, HOLD_PRICE, SPLIT_PRICE};
use fermi_paradox::world::{ComponentKind, Components, World};
use fermi_paradox::{FIELD_HEIGHT, FIELD_WIDTH, HEIGHT, WIDTH};

fn sprites() -> Sprites {
    Sprites {
        red_particle: SpriteRef(0),
        white_particle: SpriteRef(1),
        big_projectile: SpriteRef(2),
        big_projectile_width: 8_000,
        big_projectile_height: 8_000,
        small_projectile: SpriteRef(3),
        small_projectile_width: 6_000,
        small_projectile_height: 6_000,
        planet: SpriteRef(4),
    }
}

fn ships() -> Ships {
    Ships::new(vec![SpriteRef(10)], vec![SpriteRef(20)], vec![SpriteRef(30)]).unwrap()
}

fn game() -> Game {
    let mut g = Game::new(sprites(), SpriteRef(5));
    g.set_ships(ships());
    g
}

fn count(g: &Game, kind: ComponentKind) -> usize {
    g.world.join(&vec![kind]).len()
}

#[test]
fn the_play_area_is_four_hundred_by_three_hundred() {
    assert_eq!((WIDTH, HEIGHT), (400, 300));
    assert_eq!((FIELD_WIDTH, FIELD_HEIGHT), (400_000, 300_000));
    assert_eq!(SIZE, WIDTH * HEIGHT);
}

#[test]
fn a_wallet_adds_and_subtracts() {
    let mut w = Wallet::new();
    w.add(&Money::new(70));
    w.add(&Money::new(5));
    assert_eq!(w.money(), 75);
    w.subtract(75);
    assert_eq!(w.money(), 0);
    w.add(&Money::new(usize::MAX));
    w.add(&Money::new(1));
    assert_eq!(w.money(), usize::MAX);
    w.reset();
    assert_eq!(w.money(), 0);
    assert_eq!(Money::new(9).amount(), 9);
}

#[test]
fn lives_go_up_and_down() {
    let mut l = Lives::new(1);
    assert!(!l.is_dead());
    l.increase();
    assert_eq!(l.amount(), 2);
    l.reduce();
    l.reduce();
    assert!(l.is_dead());
    l.reduce();
    assert_eq!(l.amount(), 0);
    let mut full = Lives::new(255);
    full.increase();
    assert_eq!(full.amount(), 255);
}

#[test]
fn the_input_remembers_the_mouse() {
    let mut i = Input::new();
    assert_eq!((i.mouse_x(), i.mouse_y(), i.mouse_down()), (0, 0, false));
    i.handle_mouse_move(30, -4);
    i.handle_mouse_button(true);
    assert_eq!((i.mouse_x(), i.mouse_y(), i.mouse_down()), (30, -4, true));
    i.handle_mouse_button(false);
    assert_eq!((i.mouse_x(), i.mouse_y(), i.mouse_down()), (30, -4, false));
}

#[test]
fn the_game_starts_in_the_menu() {
    assert_eq!(Phase::default(), Phase::Menu);
    assert!(Phase::Play.is_in_play() && Phase::WaitingForLastEnemy.is_in_play());
    assert!(!Phase::Menu.is_in_play() && !Phase::Setup.is_in_play());
    assert!(!Phase::GameOver.is_in_play() && !Phase::Initialize.is_in_play());
    let g = Game::new(sprites(), SpriteRef(5));
    assert_eq!(g.phase, Phase::Menu);
    assert_eq!(g.level, 0);
    assert!(g.lives.is_none() && g.ships.is_none() && g.request.is_none());
    assert_eq!(g.wallet.money(), 0);
    assert_eq!(g.world.slots.len(), 0);
}

#[test]
fn a_click_in_the_menu_starts_a_run() {
    let mut g = game();
    g.wallet.add(&Money::new(12));
    g.upgrades.split = true;
    g.mouse_button_down_event();
    assert_eq!(g.phase, Phase::Play);
    assert_eq!(g.level, 1);
    assert_eq!(g.lives.unwrap().amount(), 3);
    assert_eq!(g.wallet.money(), 0);
    assert!(!g.upgrades.split && !g.upgrades.hold);
    assert!(g.input.mouse_down());
    assert_eq!(g.world.join(&vec![]).len(), 4);
    assert_eq!(count(&g, ComponentKind::Player), 1);
    assert_eq!(count(&g, ComponentKind::EnemyEmitter), 1);
    assert_eq!(count(&g, ComponentKind::ScreenFlash), 1);
    let flash = g.world.join(&vec![ComponentKind::ScreenFlash])[0];
    let c = g.world.get(flash).unwrap();
    assert_eq!(c.screen_flash.unwrap().0, FOREGROUND);
    assert_eq!(c.lifetime.unwrap().0, 5_000);
    let planet = g.world.join(&vec![ComponentKind::Sprite, ComponentKind::Position])[0];
    let c = g.world.get(planet).unwrap();
    assert_eq!(c.sprite.unwrap().reference, SpriteRef(4));
    assert_eq!(c.position.unwrap(), Position::new(0, 0));
    let wave = g.world.join(&vec![ComponentKind::EnemyEmitter])[0];
    let e = g.world.get(wave).unwrap().enemy_emitter.as_ref().unwrap();
    assert_eq!(e.spawner, vec![(30_000, EnemyType::Small)]);
    g.mouse_button_up_event();
    assert!(!g.input.mouse_down());
    g.mouse_motion_event(17, 91);
    assert_eq!((g.input.mouse_x(), g.input.mouse_y()), (17, 91));
}

#[test]
fn the_player_starts_at_the_left() {
    let mut world = World::new();
    let e = spawn_player(&mut world, SpriteRef(5));
    let c = world.get(e).unwrap();
    assert!(c.player.is_some());
    assert_eq!(c.position.unwrap(), Position::new(10_000, 200_000));
    assert_eq!(c.velocity.unwrap(), Velocity::new(0, 0));
    assert_eq!(c.drag.unwrap().0, 850);
    assert_eq!(c.speed.unwrap().0, 500);
    assert_eq!(c.bounding_box.unwrap(), BoundingBox::new(11_000, 44_000));
    assert_eq!(c.sprite.unwrap().reference, SpriteRef(5));
}

#[test]
fn a_click_during_a_level_only_presses_the_button() {
    let mut g = game();
    g.mouse_button_down_event();
    g.mouse_button_up_event();
    g.wallet.add(&Money::new(12));
    let before = format!("{:?}", g.world);
    g.mouse_button_down_event();
    assert_eq!(g.phase, Phase::Play);
    assert_eq!(g.wallet.money(), 12);
    assert_eq!(format!("{:?}", g.world), before);
    assert!(g.input.mouse_down());
}

#[test]
fn a_switch_removes_every_entity() {
    let mut g = game();
    g.mouse_button_down_event();
    for phase in [Phase::Menu, Phase::Setup, Phase::GameOver, Phase::WaitingForLastEnemy] {
        g.world.spawn(Components::empty());
        g.world.lazy_spawn(Components::empty());
        g.request = Some(NextPhase::Setup);
        g.switch_phase(phase);
        assert_eq!(g.phase, phase);
        assert!(g.request.is_none());
        assert!(g.world.join(&vec![]).is_empty());
        assert!(g.world.pending.is_empty());
        assert_eq!(g.level, 1);
        assert_eq!(g.lives.unwrap().amount(), 3);
    }
}

#[test]
fn the_level_goes_up_when_play_follows_the_setup() {
    let mut g = game();
    g.switch_phase(Phase::Initialize);
    assert_eq!((g.phase, g.level), (Phase::Play, 1));
    g.switch_phase(Phase::Play);
    assert_eq!((g.phase, g.level), (Phase::Play, 1));
    g.lives = Some(Lives::new(1));
    g.switch_phase(Phase::Setup);
    assert_eq!((g.phase, g.level), (Phase::Setup, 1));
    assert_eq!(g.lives.unwrap().amount(), 1);
    g.switch_phase(Phase::Play);
    assert_eq!((g.phase, g.level), (Phase::Play, 2));
    assert_eq!(g.lives.unwrap().amount(), 3);
    let wave = g.world.join(&vec![ComponentKind::EnemyEmitter])[0];
    assert_eq!(g.world.get(wave).unwrap().enemy_emitter.as_ref().unwrap().spawner.len(), 2);
    g.level = usize::MAX;
    g.switch_phase(Phase::Setup);
    g.level = usize::MAX;
    g.phase = Phase::Menu;
    g.switch_phase(Phase::Menu);
    assert_eq!(g.level, usize::MAX);
}

#[test]
fn the_first_enemy_enters_after_half_a_second() {
    quad_rand::srand(10);
    let mut g = game();
    g.mouse_button_down_event();
    for tick in 1..=30 {
        g.update();
        assert_eq!(g.phase, Phase::Play, "tick {}", tick);
        assert_eq!(count(&g, ComponentKind::Enemy), 0);
        assert_eq!(g.enemies_left.0, 1);
    }
    g.update();
    assert_eq!(count(&g, ComponentKind::Enemy), 1);
    assert_eq!(g.enemies_left.0, 0);
    assert_eq!(g.phase, Phase::WaitingForLastEnemy);
    // The flash of the start has gone out after five ticks.
    assert_eq!(count(&g, ComponentKind::ScreenFlash), 0);
}

#[test]
fn the_game_is_over_when_no_life_is_left() {
    let mut g = game();
    g.mouse_button_down_event();
    let mut breaching = Components::empty();
    breaching.enemy = Some(Enemy);
    breaching.position = Some(Position::new(-1, 50_000));
    for left in [2, 1] {
        g.world.spawn(Components { enemy_emitter: None, ..breaching_copy(&breaching) });
        g.update();
        assert_eq!(g.lives.unwrap().amount(), left);
        assert_eq!(g.phase, Phase::Play);
    }
    g.world.spawn(breaching);
    g.update();
    assert_eq!(g.lives.unwrap().amount(), 0);
    assert_eq!(g.phase, Phase::GameOver);
    assert!(g.world.join(&vec![]).is_empty());
    g.update();
    assert_eq!(g.phase, Phase::GameOver);
    g.mouse_button_down_event();
    assert_eq!(g.phase, Phase::Play);
    assert_eq!(g.lives.unwrap().amount(), 3);
    assert_eq!(g.level, 1);
}

fn breaching_copy(c: &Components) -> Components {
    let mut copy = Components::empty();
    copy.enemy = c.enemy;
    copy.position = c.position;
    copy
}

#[test]
fn a_request_is_made_when_the_tick_ends() {
    let mut g = game();
    g.mouse_button_down_event();
    g.switch_phase(Phase::Setup);
    let mut input = Input::new();
    input.handle_mouse_move(30, 225);
    input.handle_mouse_button(true);
    g.upgrades.purchase(&mut g.wallet, &mut g.request, &input);
    assert_eq!(g.request, Some(NextPhase::Play));
    assert_eq!(g.phase, Phase::Setup);
    g.update();
    assert_eq!(g.phase, Phase::Play);
    assert_eq!(g.level, 2);
    assert!(g.request.is_none());
}

#[test]
fn a_level_ends_in_the_setup_or_with_the_game_over() {
    for seed in 0..6 {
        quad_rand::srand(seed);
        let mut g = game();
        g.mouse_button_down_event();
        g.mouse_motion_event(10, 150);
        let mut phases = vec![g.phase];
        let mut ticks = 0;
        while g.phase.is_in_play() && ticks < 5_000 {
            let before = g.phase;
            let lives_before = g.lives.unwrap().amount();
            g.update();
            ticks += 1;
            match g.phase {
                Phase::Play => assert_eq!(before, Phase::Play),
                Phase::WaitingForLastEnemy => {
                    assert!(before == Phase::WaitingForLastEnemy || g.enemies_left.0 == 0)
                }
                Phase::GameOver => assert_eq!(g.lives.unwrap().amount(), 0),
                Phase::Setup => {
                    assert_eq!(before, Phase::WaitingForLastEnemy);
                    assert!(g.lives.unwrap().amount() > 0);
                }
                other => panic!("a level cannot end in {:?}", other),
            }
            assert!(g.lives.unwrap().amount() <= lives_before);
            if *phases.last().unwrap() != g.phase {
                phases.push(g.phase);
            }
        }
        assert!(ticks < 5_000, "seed {}", seed);
        assert_eq!(phases[0], Phase::Play);
        assert_eq!(phases[1], Phase::WaitingForLastEnemy);
        assert!(phases[2] == Phase::Setup || phases[2] == Phase::GameOver);
        assert_eq!(phases.len(), 3);
        assert!(g.world.join(&vec![]).is_empty());
    }
}

#[test]
fn upgrades_are_bought_with_a_click_on_their_button() {
    assert_eq!((HOLD_PRICE, SPLIT_PRICE), (2_000, 1_000));
    assert_eq!(
        Upgrades::buttons(),
        vec![((25, 100), (350, 30)), ((25, 140), (350, 30)), ((25, 220), (350, 20))]
    );
    let mut on_hold = Input::new();
    on_hold.handle_mouse_move(25, 100);
    on_hold.handle_mouse_button(true);
    assert!(Upgrades::pressed(&on_hold, 0));
    assert!(!Upgrades::pressed(&on_hold, 1) && !Upgrades::pressed(&on_hold, 2));
    let mut upgrades = Upgrades::new();
    let mut wallet = Wallet { amount: 1_999 };
    let mut request = None;
    upgrades.purchase(&mut wallet, &mut request, &on_hold);
    assert!(!upgrades.hold);
    assert_eq!(wallet.money(), 1_999);
    wallet.add(&Money::new(1));
    upgrades.purchase(&mut wallet, &mut request, &on_hold);
    assert!(upgrades.hold && !upgrades.split);
    assert_eq!(wallet.money(), 0);
    wallet.add(&Money::new(5_000));
    upgrades.purchase(&mut wallet, &mut request, &on_hold);
    assert_eq!(wallet.money(), 5_000);
    let mut on_split = Input::new();
    on_split.handle_mouse_move(374, 169);
    on_split.handle_mouse_button(true);
    upgrades.purchase(&mut wallet, &mut request, &on_split);
    assert!(upgrades.split);
    assert_eq!(wallet.money(), 4_000);
    assert_eq!(request, None);
    upgrades.reset();
    assert!(!upgrades.hold && !upgrades.split);
}

#[test]
fn a_button_is_pressed_only_within_its_bounds() {
    let mut input = Input::new();
    input.handle_mouse_button(true);
    for (x, y, pressed) in [(24, 100, false), (25, 99, false), (25, 100, true), (374, 129, true), (375, 129, false), (374, 130, false)] {
        input.handle_mouse_move(x, y);
        assert_eq!(Upgrades::pressed(&input, 0), pressed, "at {} {}", x, y);
    }
    input.handle_mouse_move(100, 110);
    input.handle_mouse_button(false);
    assert!(!Upgrades::pressed(&input, 0));
}

#[test]
fn the_screen_shows_the_last_flash() {
    let mut world = World::new();
    assert_eq!(ScreenFlashSystem.run(&world), None);
    let mut c = Components::empty();
    c.screen_flash = Some(ScreenFlash::new(1));
    let first = world.spawn(c);
    assert_eq!(ScreenFlashSystem.run(&world), Some(1));
    let mut c = Components::empty();
    c.screen_flash = Some(ScreenFlash::new(2));
    world.spawn(c);
    world.spawn(Components::empty());
    assert_eq!(ScreenFlashSystem.run(&world), Some(2));
    world.delete(first);
    world.maintain();
    assert_eq!(ScreenFlashSystem.run(&world), Some(2));
}

#[test]
fn an_emitter_of_particles_emits_one_each_tick() {
    quad_rand::srand(12);
    let mut world = World::new();
    let mut c = Components::empty();
    c.position = Some(Position::new(10_000, 20_000));
    c.particle_emitter = Some(
        ParticleEmitter::new(7_000, SpriteRef(1))
            .with_dispersion(2_000)
            .with_offset(Vec2::new(500, -500))
            .with_amount(3),
    );
    world.spawn(c);
    let mut nowhere = Components::empty();
    nowhere.particle_emitter = Some(ParticleEmitter::new(7_000, SpriteRef(1)));
    world.spawn(nowhere);
    for tick in 1..=3 {
        ParticleEmitterSystem.run(&mut world);
        world.maintain();
        assert_eq!(world.join(&vec![ComponentKind::Particle]).len(), tick);
    }
    for e in world.join(&vec![ComponentKind::Particle]) {
        let c = world.get(e).unwrap();
        assert_eq!(c.position.unwrap(), Position::new(10_500, 19_500));
        assert_eq!(c.lifetime.unwrap().0, 7_000);
        assert_eq!(c.sprite.unwrap().reference, SpriteRef(1));
        let v = c.velocity.unwrap().0;
        assert!(v.x.abs() <= 2_000 && v.y.abs() <= 2_000);
    }
    let e = ParticleEmitter::new(1, SpriteRef(9));
    assert_eq!((e.amount, e.dispersion, e.offset), (1_000, 500, Vec2::new(0, 0)));
    let p = particle(&e, &Position::new(1, 1), Velocity::new(2, 3));
    assert_eq!(p.velocity.unwrap(), Velocity::new(2, 3));
}

#[test]
fn an_emitter_of_projectiles_fires_when_its_interval_has_passed() {
    quad_rand::srand(13);
    let gun = ProjectileEmitter {
        interval: 2_500,
        current_interval: 0,
        speed: 3_000,
        spread: 400,
        sprite: SpriteRef(2),
        split_into: Some(SpriteRef(3)),
        offset: Vec2::new(5_000, 8_000),
        size: BoundingBox::new(8_000, 8_000),
    };
    let mut world = World::new();
    let mut c = Components::empty();
    c.position = Some(Position::new(300_000, 100_000));
    c.projectile_emitter = Some(gun);
    let near = world.spawn(c);
    let mut c = Components::empty();
    c.position = Some(Position::new(200_000, 100_000));
    c.projectile_emitter = Some(gun);
    let far = world.spawn(c);
    let mut fired = Vec::new();
    for _ in 0..6 {
        ProjectileEmitterSystem.run(&mut world, &sprites());
        world.maintain();
        fired.push((
            world.join(&vec![ComponentKind::Projectile]).len(),
            world.get(near).unwrap().projectile_emitter.unwrap().current_interval,
            world.get(far).unwrap().projectile_emitter.unwrap().current_interval,
        ));
    }
    assert_eq!(
        fired,
        vec![(0, 1_000, 1_000), (0, 2_000, 2_000), (1, 0, 3_000), (1, 1_000, 4_000), (1, 2_000, 5_000), (2, 0, 6_000)]
    );
    for e in world.join(&vec![ComponentKind::Projectile]) {
        let c = world.get(e).unwrap();
        assert_eq!(c.position.unwrap(), Position::new(305_000, 108_000));
        assert_eq!(c.bounding_box.unwrap(), BoundingBox::new(8_000, 8_000));
        assert_eq!(c.sprite.unwrap().reference, SpriteRef(2));
        assert_eq!(c.split_into.unwrap().0, SpriteRef(3));
        let v = c.velocity.unwrap().0;
        assert_eq!(v.x, -3_000);
        assert!(v.y.abs() <= 400);
        let trail = c.particle_emitter.unwrap();
        assert_eq!((trail.lifetime, trail.dispersion), (3_000, 1_000));
        assert_eq!(trail.offset, Vec2::new(4_000, 4_000));
    }
    let shot = fire(&gun, &Position::new(0, 0), -77, &sprites());
    assert_eq!(shot.velocity.unwrap().0, Vec2::new(-3_000, -77));
}

#[test]
fn emitters_of_projectiles_are_built_step_by_step() {
    quad_rand::srand(14);
    for _ in 0..100 {
        let e = ProjectileEmitter::new(SpriteRef(2), BoundingBox::new(1, 2));
        assert!(200_000 <= e.interval && e.interval <= 400_000);
        assert!(0 <= e.current_interval && e.current_interval <= e.interval);
        assert_eq!((e.speed, e.spread, e.split_into), (1_000, 1_000, None));
        assert_eq!(e.offset, Vec2::new(0, 0));
        let e = e
            .with_interval(90_000)
            .with_speed(7)
            .with_spread(8)
            .with_offset(Vec2::new(1, 1))
            .split_into(Some(SpriteRef(3)));
        assert_eq!(e.interval, 90_000);
        assert!(0 <= e.current_interval && e.current_interval <= 90_000);
        assert_eq!((e.speed, e.spread, e.split_into), (7, 8, Some(SpriteRef(3))));
        assert_eq!((e.offset, e.size, e.sprite), (Vec2::new(1, 1), BoundingBox::new(1, 2), SpriteRef(2)));
    }
}

#[test]
fn an_emitter_of_pickups_emits_when_its_interval_has_passed() {
    quad_rand::srand(15);
    let fresh = PickupEmitter::new(SpriteRef(6));
    assert!(900_000 <= fresh.interval && fresh.interval <= 2_400_000);
    assert_eq!(fresh.current_time, 0);
    assert_eq!(fresh.sprite(Pickup::Health), SpriteRef(6));
    let mut world = World::new();
    let mut c = Components::empty();
    c.pickup_emitter = Some(PickupEmitter { current_time: 0, interval: 3_000, health_sprite: SpriteRef(6) });
    let emitter = world.spawn(c);
    let mut emitted = Vec::new();
    for _ in 0..6 {
        PickupEmitterSystem.run(&mut world);
        world.maintain();
        emitted.push((
            world.join(&vec![ComponentKind::Pickup]).len(),
            world.get(emitter).unwrap().pickup_emitter.unwrap().current_time,
        ));
    }
    assert_eq!(emitted, vec![(0, 1_000), (0, 2_000), (1, 0), (1, 1_000), (1, 2_000), (2, 0)]);
    for e in world.join(&vec![ComponentKind::Pickup]) {
        let c = world.get(e).unwrap();
        let p = c.position.unwrap().0;
        assert_eq!(p.x, 400_000);
        assert!(10_000 <= p.y && p.y <= 275_000);
        assert_eq!(c.velocity.unwrap().0, Vec2::new(-500, 0));
        assert_eq!(c.bounding_box.unwrap(), BoundingBox::new(10_000, 10_000));
        assert_eq!(c.sprite.unwrap().reference, SpriteRef(6));
    }
    let made = pickup(&fresh, 33_000);
    assert_eq!(made.position.unwrap(), Position::new(400_000, 33_000));
    assert_eq!(made.pickup.unwrap(), Pickup::Health);
}

#[test]
fn the_background_is_a_field_of_colours_under_stars() {
    quad_rand::srand(16);
    assert_eq!(pack([0x12, 0x34, 0x56]), 0xFF56_3412);
    assert_eq!(pack([0, 0, 0]), 0xFF00_0000);
    assert_eq!(pack([0xFF, 0xFF, 0xFF]), 0xFFFF_FFFF);
    let mut field = Background::field();
    assert_eq!(field.len(), SIZE);
    assert!(field.iter().all(|c| *c == [5, 5, 5]));
    Background::scatter(&mut field);
    assert_eq!(field.len(), SIZE);
    assert!(field.iter().all(|c| c.iter().all(|part| *part == 5 || *part == 0xFF)));
    let red = field.iter().filter(|c| c[0] == 0xFF).count();
    let green = field.iter().filter(|c| c[1] == 0xFF).count();
    let blue = field.iter().filter(|c| c[2] == 0xFF).count();
    assert!(480 <= red && red <= 500);
    assert!(95 <= green && green <= 100);
    assert!(190 <= blue && blue <= 200);
    let background = Background::new(&field);
    let mut frame = vec![7u32; SIZE + 3];
    background.copy(&mut frame);
    assert_eq!(&frame[SIZE..], &[7, 7, 7]);
    let mut bright = 0;
    let mut dim = 0;
    for i in 0..SIZE {
        if frame[i] == STAR_BRIGHT {
            bright += 1;
        } else if frame[i] == STAR_DIM {
            dim += 1;
        } else {
            assert_eq!(frame[i], pack(field[i]));
        }
    }
    assert!(190 <= bright && bright <= 200);
    assert!(190 <= dim && dim <= 200);
}

#[test]
fn an_emitter_can_be_put_into_the_world_by_hand() {
    let mut g = game();
    g.switch_phase(Phase::Play);
    assert_eq!(g.level, 0);
    let wave = g.world.join(&vec![ComponentKind::EnemyEmitter])[0];
    let e = g.world.get(wave).unwrap().enemy_emitter.as_ref().unwrap();
    assert!(e.spawner.is_empty());
    assert_eq!(e.total_time, -300_000);
    let escort = EnemyEmitter::new(None);
    assert_eq!(escort.enemies_left(), 4);
    g.update();
    assert_eq!(g.phase, Phase::WaitingForLastEnemy);
    assert_eq!(g.world.join(&vec![ComponentKind::EnemyEmitter]).len(), 0);
    g.update();
    assert_eq!(g.phase, Phase::Setup);
}

#[test]
fn a_point_is_lit_in_one_part_of_its_colour() {
    let mut field = Background::field();
    Background::light_at(&mut field, 0, 3);
    Background::light_at(&mut field, 2, 3);
    Background::light_at(&mut field, 1, SIZE - 1);
    Background::light_at(&mut field, 1, SIZE - 1);
    assert_eq!(field[3], [0xFF, 5, 0xFF]);
    assert_eq!(field[SIZE - 1], [5, 0xFF, 5]);
    assert_eq!(field.len(), SIZE);
    let lit = field.iter().filter(|c| **c != [5, 5, 5]).count();
    assert_eq!(lit, 2);
}

#[test]
fn as_many_points_are_lit_as_were_asked_for() {
    quad_rand::srand(18);
    let mut field = Background::field();
    Background::light(&mut field, 1, 0);
    assert!(field.iter().all(|c| *c == [5, 5, 5]));
    Background::light(&mut field, 1, 1);
    assert_eq!(field.iter().filter(|c| **c == [5, 0xFF, 5]).count(), 1);
    assert_eq!(field.iter().filter(|c| **c == [5, 5, 5]).count(), SIZE - 1);
    quad_rand::srand(18);
    let mut again = Background::field();
    Background::light(&mut again, 1, 1);
    assert_eq!(field, again);
    Background::light(&mut field, 2, 40);
    let blue = field.iter().filter(|c| c[2] == 0xFF).count();
    assert!(1 <= blue && blue <= 40);
    assert_eq!(field.iter().filter(|c| c[0] != 5).count(), 0);
}

#[test]
fn defaults_are_empty() {
    assert_eq!(Wallet::default().money(), 0);
    assert_eq!(Money::default().amount(), 0);
    let i = Input::default();
    assert_eq!((i.mouse_x(), i.mouse_y(), i.mouse_down()), (0, 0, false));
    let u = Upgrades::default();
    assert!(!u.hold && !u.split);
    assert_eq!(fermi_paradox::enemy::EnemiesLeft::default().0, 0);
    let e = EnemyEmitter::default();
    assert!(e.spawner.is_empty());
    assert_eq!((e.next, e.current_time, e.total_time), (0, 0, 0));
    assert_eq!(Position::default(), Position::new(0, 0));
    assert_eq!(Velocity::default(), Velocity::new(0, 0));
    assert_eq!(BoundingBox::default(), BoundingBox::new(0, 0));
    assert_eq!(fermi_paradox::physics::Drag::default().0, 0);
    assert_eq!(fermi_paradox::physics::Speed::default().0, 0);
    assert_eq!(fermi_paradox::entity::Lifetime::default().0, 0);
    assert_eq!(ScreenFlash::default().0, 0);
}
