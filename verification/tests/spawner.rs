use fermi_paradox::budget::Budget;
use fermi_paradox::enemy::{
    EnemiesLeft, EnemyEmitter, EnemyEmitterSystem, EnemyRoll, EnemyType, Pick, FIRST_TRIGGER,
    TIME_RANDOM_FACTOR,
};
use fermi_paradox::phase::Phase;
use fermi_paradox::physics::{BoundingBox, Position, Vec2};
use fermi_paradox::ship::Ships;
use fermi_paradox::sprite::{SpriteRef, Sprites};
use fermi_paradox::world::{ComponentKind, Components, World};

fn sprites() -> Sprites {
    Sprites {
        red_particle: SpriteRef(0),
        white_particle: SpriteRef(1),
        big_projectile: SpriteRef(2),
        big_projectile_width: 8_000,
        big_projectile_height: 8_000,
        small_projectile: SpriteRef(3),
        small_projectile_width: 6_000,
        small_projectile_height: 6_000,
        planet: SpriteRef(4),
    }
}

fn ships() -> Ships {
    Ships::new(
        vec![SpriteRef(10), SpriteRef(11), SpriteRef(12)],
        vec![SpriteRef(20), SpriteRef(21), SpriteRef(22)],
        vec![SpriteRef(30), SpriteRef(31), SpriteRef(32)],
    )
    .unwrap()
}

fn emitter(schedule: Vec<(i64, EnemyType)>, total_time: i64) -> EnemyEmitter {
    EnemyEmitter { spawner: schedule, next: 0, current_time: 0, total_time }
}

fn wave(e: EnemyEmitter) -> Components {
    let mut c = Components::empty();
    c.enemy_emitter = Some(e);
    c
}

fn smalls(n: usize) -> Vec<Pick> {
    (0..n).map(|_| Pick { kind: EnemyType::Small, jitter: 0 }).collect()
}

#[test]
fn archetypes_follow_two_rolls() {
    assert_eq!(EnemyType::from_rolls(0, 999), EnemyType::Big);
    assert_eq!(EnemyType::from_rolls(99, 0), EnemyType::Big);
    assert_eq!(EnemyType::from_rolls(100, 0), EnemyType::Medium);
    assert_eq!(EnemyType::from_rolls(100, 199), EnemyType::Medium);
    assert_eq!(EnemyType::from_rolls(100, 200), EnemyType::Small);
    assert_eq!(EnemyType::from_rolls(1_000, 1_000), EnemyType::Small);
}

#[test]
fn random_archetypes_are_mostly_small() {
    quad_rand::srand(5);
    let mut small = 0;
    let mut medium = 0;
    let mut big = 0;
    for _ in 0..5_000 {
        match EnemyType::random() {
            EnemyType::Small => small += 1,
            EnemyType::Medium => medium += 1,
            EnemyType::Big => big += 1,
        }
    }
    assert!(small > 3_200 && small < 4_000, "small {}", small);
    assert!(medium > 650 && medium < 1_150, "medium {}", medium);
    assert!(big > 350 && big < 650, "big {}", big);
}

#[test]
fn each_archetype_has_its_own_numbers() {
    assert_eq!(EnemyType::Small.bb(), BoundingBox::new(10_000, 16_000));
    assert_eq!(EnemyType::Medium.bb(), BoundingBox::new(13_000, 20_000));
    assert_eq!(EnemyType::Big.bb(), BoundingBox::new(22_000, 24_000));
    assert_eq!(EnemyType::Small.particle_amount(), 1);
    assert_eq!(EnemyType::Medium.particle_amount(), 4);
    assert_eq!(EnemyType::Big.particle_amount(), 12);
    assert_eq!(EnemyType::Small.spawn_rest_before(), 0);
    assert_eq!(EnemyType::Medium.spawn_rest_before(), 30_000);
    assert_eq!(EnemyType::Big.spawn_rest_before(), 60_000);
    assert_eq!(EnemyType::Small.spawn_rest_after(), 0);
    assert_eq!(EnemyType::Medium.spawn_rest_after(), 180_000);
    assert_eq!(EnemyType::Big.spawn_rest_after(), 240_000);
}

#[test]
fn each_archetype_draws_within_its_spans() {
    quad_rand::srand(17);
    let spans = [
        (EnemyType::Small, (1_000, 1_500), (-800, 800), (120_000, 240_000), (0, 200), (20, 30)),
        (EnemyType::Medium, (300, 500), (-300, 300), (48_000, 60_000), (600, 800), (50, 80)),
        (EnemyType::Big, (300, 400), (-400, 400), (180_000, 240_000), (1_000, 2_000), (100, 150)),
    ];
    for (kind, x, y, interval, spread, money) in spans {
        for _ in 0..300 {
            let v = kind.speed_x();
            assert!(x.0 <= v && v <= x.1);
            let v = kind.speed_y();
            assert!(y.0 <= v && v <= y.1);
            let v = kind.shoot_interval();
            assert!(interval.0 <= v && v <= interval.1);
            assert_eq!(v % 60, 0);
            let v = kind.shoot_spread();
            assert!(spread.0 <= v && v <= spread.1);
            let v = kind.money();
            assert!(money.0 <= v && v <= money.1);
        }
    }
}

#[test]
fn each_archetype_has_its_sprites() {
    quad_rand::srand(2);
    let sprites = sprites();
    let ships = ships();
    assert_eq!(EnemyType::Small.projectile_sprite(&sprites), (SpriteRef(3), 6_000, 6_000));
    assert_eq!(EnemyType::Medium.projectile_sprite(&sprites), (SpriteRef(2), 8_000, 8_000));
    assert_eq!(EnemyType::Big.projectile_sprite(&sprites), (SpriteRef(2), 8_000, 8_000));
    assert_eq!(EnemyType::Small.shoot_split_into(&sprites), None);
    assert_eq!(EnemyType::Medium.shoot_split_into(&sprites), Some(SpriteRef(3)));
    assert_eq!(EnemyType::Big.shoot_split_into(&sprites), Some(SpriteRef(3)));
    for _ in 0..50 {
        assert!((10..13).contains(&EnemyType::Small.sprite(&ships).0));
        assert!((20..23).contains(&EnemyType::Medium.sprite(&ships).0));
        assert!((30..33).contains(&ships.enemy(EnemyType::Big).0));
    }
}

#[test]
fn a_roster_needs_a_sprite_of_each_archetype() {
    assert!(Ships::new(vec![], vec![SpriteRef(1)], vec![SpriteRef(2)]).is_none());
    assert!(Ships::new(vec![SpriteRef(0)], vec![], vec![SpriteRef(2)]).is_none());
    assert!(Ships::new(vec![SpriteRef(0)], vec![SpriteRef(1)], vec![]).is_none());
    let one = Ships::new(vec![SpriteRef(0)], vec![SpriteRef(1)], vec![SpriteRef(2)]).unwrap();
    assert_eq!(one.enemy(EnemyType::Small), SpriteRef(0));
    assert_eq!(one.enemy(EnemyType::Medium), SpriteRef(1));
    assert_eq!(one.enemy(EnemyType::Big), SpriteRef(2));
}

#[test]
fn the_escorts_of_a_big_enemy_are_laid_down_by_hand() {
    let e = EnemyEmitter::new(None);
    assert_eq!(
        e.spawner,
        vec![
            (120_000, EnemyType::Small),
            (210_000, EnemyType::Small),
            (300_000, EnemyType::Small),
            (420_000, EnemyType::Small)
        ]
    );
    assert_eq!((e.next, e.current_time, e.total_time), (0, 0, 600_000));
    assert_eq!(e.enemies_left(), 4);
}

#[test]
fn the_first_four_levels_are_laid_down_by_hand() {
    let one = EnemyEmitter::new(Some(1));
    assert_eq!(one.spawner, vec![(30_000, EnemyType::Small)]);
    let two = EnemyEmitter::new(Some(2));
    assert_eq!(two.spawner, vec![(30_000, EnemyType::Small), (120_000, EnemyType::Small)]);
    let three = EnemyEmitter::new(Some(3));
    assert_eq!(three.spawner, vec![(30_000, EnemyType::Medium)]);
    let four = EnemyEmitter::new(Some(4));
    assert_eq!(four.spawner, vec![(30_000, EnemyType::Big)]);
    for e in [one, two, three, four] {
        assert_eq!((e.next, e.current_time, e.total_time), (0, 0, 300_000));
    }
}

#[test]
fn a_generated_level_has_half_the_square_of_its_number_of_enemies() {
    assert_eq!(EnemyEmitter::amount(0), 0);
    assert_eq!(EnemyEmitter::amount(1), 0);
    assert_eq!(EnemyEmitter::amount(5), 12);
    assert_eq!(EnemyEmitter::amount(6), 18);
    assert_eq!(EnemyEmitter::amount(10), 50);
    assert_eq!(EnemyEmitter::amount(usize::MAX), usize::MAX);
    assert_eq!(EnemyEmitter::duration(5), 2_700_000);
    assert_eq!(EnemyEmitter::duration(10), 5_700_000);
    assert_eq!(EnemyEmitter::duration(0), -300_000);
    assert_eq!(EnemyEmitter::duration(usize::MAX), i64::MAX);
}

#[test]
fn a_generated_level_is_spread_over_its_time() {
    let e = EnemyEmitter::generated(5, &smalls(12));
    assert_eq!(e.total_time, 2_700_000);
    assert_eq!(e.spawner.len(), 12);
    assert_eq!(e.spawner[0], (FIRST_TRIGGER, EnemyType::Small));
    for i in 1..12 {
        assert_eq!(e.spawner[i], (i as i64 * 225_000, EnemyType::Small));
    }
}

#[test]
fn variation_and_pauses_move_the_enemies_of_a_generated_level() {
    let mut picks = smalls(12);
    picks[1] = Pick { kind: EnemyType::Medium, jitter: 0 };
    picks[2] = Pick { kind: EnemyType::Small, jitter: -10_000 };
    picks[3] = Pick { kind: EnemyType::Big, jitter: 10_000 };
    let e = EnemyEmitter::generated(5, &picks);
    assert_eq!(e.spawner[0], (30_000, EnemyType::Small));
    // One spacing and the pause before a medium enemy.
    assert_eq!(e.spawner[1], (255_000, EnemyType::Medium));
    // Two spacings of 215 ticks and the pauses around the medium enemy.
    assert_eq!(e.spawner[2], (640_000, EnemyType::Small));
    // Three spacings of 235 ticks, the pauses so far and the one before.
    assert_eq!(e.spawner[3], (975_000, EnemyType::Big));
    // Four plain spacings behind all the pauses.
    assert_eq!(e.spawner[4], (1_410_000, EnemyType::Small));
}

#[test]
fn no_enemy_enters_before_the_one_ahead_of_it() {
    // From level 100 on the enemies are closer together than they vary.
    let amount = EnemyEmitter::amount(130);
    assert_eq!(amount, 8_450);
    let picks: Vec<Pick> = (0..amount)
        .map(|i| Pick {
            kind: EnemyType::Small,
            jitter: if i % 2 == 0 { TIME_RANDOM_FACTOR } else { -TIME_RANDOM_FACTOR },
        })
        .collect();
    let e = EnemyEmitter::generated(130, &picks);
    assert_eq!(e.spawner.len(), amount);
    assert_eq!(e.spawner[0].0, FIRST_TRIGGER);
    // Every second enemy would enter before time began.
    assert_eq!(e.spawner[1].0, FIRST_TRIGGER);
    for i in 1..amount {
        assert!(e.spawner[i - 1].0 <= e.spawner[i].0);
    }
    assert!(e.spawner[amount - 2].0 > FIRST_TRIGGER);
}

#[test]
fn generated_levels_are_in_order_whatever_is_drawn() {
    for seed in 0..20 {
        quad_rand::srand(seed);
        for level in [0, 5, 6, 9, 14] {
            let e = EnemyEmitter::new(Some(level));
            assert_eq!(e.spawner.len(), level * level / 2);
            assert_eq!(e.total_time, (level as i64 * 10 - 5) * 60_000);
            assert_eq!((e.next, e.current_time), (0, 0));
            if level > 0 {
                assert_eq!(e.spawner[0].0, FIRST_TRIGGER);
            }
            for i in 1..e.spawner.len() {
                assert!(e.spawner[i - 1].0 <= e.spawner[i].0);
            }
        }
    }
}

#[test]
fn the_same_seed_gives_the_same_schedule() {
    quad_rand::srand(4321);
    let first = EnemyEmitter::new(Some(9));
    quad_rand::srand(4321);
    let second = EnemyEmitter::new(Some(9));
    assert_eq!(first.spawner, second.spawner);
    assert_eq!(first.total_time, second.total_time);
    quad_rand::srand(1234);
    let other = EnemyEmitter::new(Some(9));
    assert_ne!(first.spawner, other.spawner);
}

#[test]
fn the_same_picks_give_the_same_schedule() {
    let picks: Vec<Pick> = (0..18)
        .map(|i| Pick {
            kind: if i % 5 == 0 { EnemyType::Big } else { EnemyType::Small },
            jitter: (i as i64 * 3_331) % 10_000 - 5_000,
        })
        .collect();
    let first = EnemyEmitter::generated(6, &picks);
    let second = EnemyEmitter::generated(6, &picks);
    assert_eq!(first.spawner, second.spawner);
    assert_eq!(first.total_time, second.total_time);
}

#[test]
fn a_wave_can_be_scheduled_over_any_time() {
    let e = EnemyEmitter::scheduled(&smalls(4), 1_000_000);
    assert_eq!(e.total_time, 1_000_000);
    let times: Vec<i64> = e.spawner.iter().map(|entry| entry.0).collect();
    assert_eq!(times, vec![30_000, 250_000, 500_000, 750_000]);
    let none = EnemyEmitter::scheduled(&vec![], 300_000);
    assert!(none.spawner.is_empty());
    assert_eq!(none.enemies_left(), 0);
    let backwards = EnemyEmitter::scheduled(&smalls(3), -900_000);
    let times: Vec<i64> = backwards.spawner.iter().map(|entry| entry.0).collect();
    assert_eq!(times, vec![30_000, 30_000, 30_000]);
}

fn budget(total: i64) -> Budget {
    Budget {
        total,
        min_share: 100,
        max_share: 500,
        floor: 10,
        retries: 8,
        medium_from: 50,
        big_from: 120,
    }
}

#[test]
fn the_costs_of_a_wave_reach_its_budget_and_stop() {
    for seed in 0..50 {
        quad_rand::srand(seed);
        for total in [0, 1, 9, 10, 11, 100, 1_000, 77_777] {
            let b = budget(total);
            let costs = b.costs();
            let largest = (total / 2).max(b.floor);
            let sum: i64 = costs.iter().sum();
            assert!(sum >= total);
            assert!(sum - total < largest);
            assert_eq!(costs.is_empty(), total == 0);
            for c in costs.iter() {
                assert!(b.floor <= *c && *c <= largest);
            }
            if let Some(last) = costs.last() {
                assert!(sum - last < total);
            }
        }
    }
}

#[test]
fn a_cost_is_a_share_of_what_is_left() {
    assert_eq!(Budget::share(1_000, 100), 100);
    assert_eq!(Budget::share(1_000, 500), 500);
    assert_eq!(Budget::share(999, 500), 499);
    assert_eq!(Budget::share(0, 500), 0);
    assert_eq!(Budget::share(i64::MAX, 1_000), i64::MAX);
    quad_rand::srand(8);
    let b = budget(1_000);
    for _ in 0..200 {
        let c = b.draw_cost(1_000);
        assert!(100 <= c && c <= 500);
        let c = b.draw_cost(15);
        assert_eq!(c, 10);
    }
    let never_again = Budget { retries: 0, ..b };
    let c = never_again.draw_cost(1_000);
    assert!(100 <= c && c <= 500);
    assert_eq!(never_again.draw_cost(15), 10);
}

#[test]
fn the_cost_of_an_enemy_decides_its_archetype() {
    let b = budget(1_000);
    assert_eq!(b.kind(10), EnemyType::Small);
    assert_eq!(b.kind(49), EnemyType::Small);
    assert_eq!(b.kind(50), EnemyType::Medium);
    assert_eq!(b.kind(119), EnemyType::Medium);
    assert_eq!(b.kind(120), EnemyType::Big);
}

#[test]
fn a_wave_is_bought_from_a_budget() {
    quad_rand::srand(21);
    let e = EnemyEmitter::from_budget(&budget(2_000), 1_800_000);
    assert_eq!(e.total_time, 1_800_000);
    assert!(!e.spawner.is_empty());
    assert_eq!(e.spawner[0].0, FIRST_TRIGGER);
    for i in 1..e.spawner.len() {
        assert!(e.spawner[i - 1].0 <= e.spawner[i].0);
    }
    assert!(e.spawner.iter().any(|entry| entry.1 == EnemyType::Big));
    quad_rand::srand(21);
    let again = EnemyEmitter::from_budget(&budget(2_000), 1_800_000);
    assert_eq!(e.spawner, again.spawner);
    let nothing = EnemyEmitter::from_budget(&budget(0), 1_800_000);
    assert!(nothing.spawner.is_empty());
}

#[test]
fn an_emitter_spawns_each_entry_when_its_time_has_passed() {
    let mut e = emitter(vec![(2_000, EnemyType::Medium), (3_500, EnemyType::Big)], 10_000);
    assert_eq!(e.tick(), vec![]);
    assert_eq!(e.tick(), vec![]);
    assert_eq!((e.current_time, e.next), (2_000, 0));
    assert_eq!(e.tick(), vec![EnemyType::Medium]);
    assert_eq!((e.current_time, e.next, e.remaining()), (3_000, 1, 1));
    assert_eq!(e.tick(), vec![EnemyType::Big]);
    assert_eq!((e.current_time, e.next, e.remaining()), (4_000, 2, 0));
    assert_eq!(e.tick(), vec![]);
    assert!(!e.is_expired());
    for _ in 0..5 {
        assert_eq!(e.tick(), vec![]);
    }
    assert_eq!(e.current_time, 10_000);
    assert!(e.is_expired());
    assert_eq!(e.tick(), vec![]);
    assert_eq!(e.current_time, 10_000);
}

#[test]
fn every_entry_that_is_due_leaves_in_the_same_tick() {
    let mut e = emitter(
        vec![
            (30_000, EnemyType::Small),
            (30_000, EnemyType::Medium),
            (30_500, EnemyType::Big),
            (31_000, EnemyType::Small),
            (31_001, EnemyType::Medium),
        ],
        300_000,
    );
    for _ in 0..30 {
        assert_eq!(e.tick(), vec![]);
    }
    assert_eq!(e.current_time, 30_000);
    assert_eq!(e.tick(), vec![EnemyType::Small, EnemyType::Medium, EnemyType::Big]);
    assert_eq!((e.current_time, e.next, e.remaining()), (31_000, 3, 2));
    // An entry at the new time itself waits for the next tick.
    assert_eq!(e.tick(), vec![EnemyType::Small, EnemyType::Medium]);
    assert_eq!((e.current_time, e.next, e.remaining()), (32_000, 5, 0));
    assert_eq!(e.tick(), vec![]);
}

#[test]
fn an_entry_past_the_end_is_still_spawned() {
    let mut e = emitter(vec![(4_500, EnemyType::Small)], 2_000);
    assert_eq!(e.tick(), vec![]);
    assert_eq!(e.tick(), vec![]);
    assert!(!e.is_expired());
    assert_eq!(e.tick(), vec![]);
    assert_eq!(e.tick(), vec![]);
    assert_eq!(e.tick(), vec![EnemyType::Small]);
    assert!(e.is_expired());
}

#[test]
fn an_emitter_spawns_an_enemy_for_each_entry_that_is_due() {
    quad_rand::srand(31);
    let mut world = World::new();
    let mut carrier = wave(emitter(
        vec![(0, EnemyType::Small), (0, EnemyType::Medium), (900, EnemyType::Small)],
        9_000,
    ));
    carrier.position = Some(Position::new(250_000, 50_000));
    world.spawn(carrier);
    world.spawn(wave(emitter(vec![(999, EnemyType::Big), (1_000, EnemyType::Big)], 9_000)));
    let mut phase = Phase::Play;
    let mut left = EnemiesLeft(0);
    EnemyEmitterSystem.run(&mut world, &sprites(), &Some(ships()), &mut phase, &mut left);
    assert_eq!(left.0, 1);
    assert_eq!(phase, Phase::Play);
    world.maintain();
    let enemies = world.join(&vec![ComponentKind::Enemy]);
    assert_eq!(enemies.len(), 4);
    let sizes: Vec<BoundingBox> =
        enemies.iter().map(|e| world.get(*e).unwrap().bounding_box.unwrap()).collect();
    assert_eq!(
        sizes,
        vec![
            EnemyType::Small.bb(),
            EnemyType::Medium.bb(),
            EnemyType::Small.bb(),
            EnemyType::Big.bb()
        ]
    );
    for e in enemies.iter().take(3) {
        assert_eq!(world.get(*e).unwrap().position.unwrap(), Position::new(250_000, 50_000));
    }
    assert_eq!(world.get(enemies[3]).unwrap().position.unwrap().0.x, 390_000);
    // The big enemy has brought the emitter of its four escorts.
    EnemyEmitterSystem.run(&mut world, &sprites(), &Some(ships()), &mut phase, &mut left);
    assert_eq!(left.0, 4);
    assert_eq!(phase, Phase::Play);
    world.maintain();
    assert_eq!(world.join(&vec![ComponentKind::Enemy]).len(), 5);
}

#[test]
fn an_empty_emitter_expires_when_its_time_is_over() {
    let mut world = World::new();
    let free = world.spawn(wave(emitter(vec![], 300_000)));
    let mut carried = wave(emitter(vec![], 300_000));
    carried.position = Some(Position::new(0, 0));
    let carried = world.spawn(carried);
    let sprites = sprites();
    let roster = Some(ships());
    let mut phase = Phase::Menu;
    let mut left = EnemiesLeft(7);
    for tick in 1..=300 {
        EnemyEmitterSystem.run(&mut world, &sprites, &roster, &mut phase, &mut left);
        world.maintain();
        assert!(world.is_alive(free), "tick {}", tick);
        let e = world.get(free).unwrap().enemy_emitter.as_ref().unwrap();
        assert_eq!(e.current_time, tick * 1_000);
        assert_eq!(left.0, 0);
    }
    EnemyEmitterSystem.run(&mut world, &sprites, &roster, &mut phase, &mut left);
    assert!(world.is_alive(free));
    world.maintain();
    assert!(!world.is_alive(free));
    assert!(world.is_alive(carried));
    let e = world.get(carried).unwrap().enemy_emitter.as_ref().unwrap();
    assert_eq!(e.current_time, 300_000);
    assert_eq!(phase, Phase::Menu);
    assert_eq!(world.join(&vec![ComponentKind::Enemy]).len(), 0);
}

#[test]
fn emitters_do_nothing_without_a_roster() {
    let mut world = World::new();
    let e = world.spawn(wave(emitter(vec![(0, EnemyType::Small)], 300_000)));
    let mut phase = Phase::Play;
    let mut left = EnemiesLeft(7);
    EnemyEmitterSystem.run(&mut world, &sprites(), &None, &mut phase, &mut left);
    world.maintain();
    assert_eq!(phase, Phase::Play);
    assert_eq!(left.0, 7);
    assert_eq!(world.get(e).unwrap().enemy_emitter.as_ref().unwrap().current_time, 0);
    assert_eq!(world.slots.len(), 1);
}

#[test]
fn the_wave_is_over_when_no_emitter_has_an_enemy_left() {
    quad_rand::srand(1);
    let mut world = World::new();
    world.spawn(wave(emitter(vec![(500, EnemyType::Small), (1_500, EnemyType::Medium)], 9_000)));
    world.spawn(wave(emitter(vec![(2_500, EnemyType::Small)], 9_000)));
    let sprites = sprites();
    let roster = Some(ships());
    let mut phase = Phase::Play;
    let mut left = EnemiesLeft(0);
    let mut enemies = Vec::new();
    for _ in 0..3 {
        EnemyEmitterSystem.run(&mut world, &sprites, &roster, &mut phase, &mut left);
        world.maintain();
        enemies.push((world.join(&vec![ComponentKind::Enemy]).len(), left.0, phase));
    }
    assert_eq!(
        enemies,
        vec![(1, 2, Phase::Play), (2, 1, Phase::Play), (3, 0, Phase::WaitingForLastEnemy)]
    );
}

#[test]
fn only_play_turns_into_waiting() {
    for start in [Phase::Menu, Phase::Initialize, Phase::Setup, Phase::WaitingForLastEnemy, Phase::GameOver] {
        let mut world = World::new();
        let mut phase = start;
        let mut left = EnemiesLeft(3);
        EnemyEmitterSystem.run(&mut world, &sprites(), &Some(ships()), &mut phase, &mut left);
        assert_eq!(phase, start);
        assert_eq!(left.0, 0);
    }
    let mut world = World::new();
    let mut phase = Phase::Play;
    let mut left = EnemiesLeft(3);
    EnemyEmitterSystem.run(&mut world, &sprites(), &Some(ships()), &mut phase, &mut left);
    assert_eq!(phase, Phase::WaitingForLastEnemy);
}

#[test]
fn a_new_enemy_is_what_its_roll_says() {
    let sprites = sprites();
    let roll = EnemyRoll {
        y: 123_000,
        sprite: SpriteRef(11),
        speed_x: 1_200,
        speed_y: -600,
        straight: true,
        weave: 0,
        spread: 150,
        interval: 180_000,
        elapsed: 60_000,
        money: 25,
    };
    let c = EnemyEmitter::enemy(EnemyType::Small, None, roll, None, &sprites);
    assert!(c.enemy.is_some() && c.rotation_follows_velocity.is_some());
    assert!(c.enemy_emitter.is_none() && c.zigzag.is_none());
    assert_eq!(c.position.unwrap(), Position::new(390_000, 123_000));
    assert_eq!(c.velocity.unwrap().0, Vec2::new(-1_200, -600));
    assert_eq!(c.bounding_box.unwrap(), BoundingBox::new(10_000, 16_000));
    assert_eq!(c.money.unwrap().amount(), 25);
    assert_eq!(c.sprite.unwrap().reference, SpriteRef(11));
    let engine = c.particle_emitter.unwrap();
    assert_eq!((engine.amount, engine.lifetime, engine.dispersion), (1_000, 10_000, 240));
    assert_eq!(engine.sprite, SpriteRef(1));
    assert_eq!(engine.offset, Vec2::new(5_000, 8_000));
    let gun = c.projectile_emitter.unwrap();
    assert_eq!((gun.interval, gun.current_interval), (180_000, 60_000));
    assert_eq!((gun.speed, gun.spread), (3_200, 150));
    assert_eq!((gun.sprite, gun.split_into), (SpriteRef(3), None));
    assert_eq!(gun.offset, Vec2::new(5_000, 8_000));
    assert_eq!(gun.size, BoundingBox::new(6_000, 6_000));
}

#[test]
fn a_slow_weaving_enemy_has_a_zigzag_and_no_engine() {
    let sprites = sprites();
    let roll = EnemyRoll {
        y: 5_000,
        sprite: SpriteRef(31),
        speed_x: 350,
        speed_y: 400,
        straight: false,
        weave: 77,
        spread: 1_500,
        interval: 200_040,
        elapsed: 0,
        money: 140,
    };
    let place = Some(Position::new(200_000, 100_000));
    let carried = Some(EnemyEmitter::new(None));
    let c = EnemyEmitter::enemy(EnemyType::Big, place, roll, carried, &sprites);
    assert_eq!(c.position.unwrap(), Position::new(200_000, 100_000));
    assert_eq!(c.velocity.unwrap().0, Vec2::new(-350, 0));
    let z = c.zigzag.unwrap();
    assert_eq!((z.time, z.amount, z.time_div), (0, 400, 77));
    assert!(c.particle_emitter.is_none());
    assert_eq!(c.enemy_emitter.as_ref().unwrap().spawner.len(), 4);
    let gun = c.projectile_emitter.unwrap();
    assert_eq!((gun.sprite, gun.split_into), (SpriteRef(2), Some(SpriteRef(3))));
    assert_eq!(gun.size, BoundingBox::new(8_000, 8_000));
    assert_eq!(gun.speed, 2_350);
    assert_eq!(c.bounding_box.unwrap(), BoundingBox::new(22_000, 24_000));
}

#[test]
fn random_enemies_are_within_the_spans_of_their_archetype() {
    quad_rand::srand(77);
    let sprites = sprites();
    let ships = ships();
    for _ in 0..200 {
        let c = EnemyEmitter::spawn_enemy_with_resource_usage(&sprites, &ships, EnemyType::Medium, None);
        let p = c.position.unwrap().0;
        assert_eq!(p.x, 390_000);
        assert!(0 <= p.y && p.y <= 280_000);
        let v = c.velocity.unwrap().0;
        assert!(-500 <= v.x && v.x <= -300);
        match c.zigzag {
            Some(z) => {
                assert_eq!(v.y, 0);
                assert!(z.amount.abs() <= 300);
                assert!(1 <= z.time_div && z.time_div <= 200);
            }
            None => assert!(v.y.abs() <= 300),
        }
        assert!(c.particle_emitter.is_none());
        assert!(c.enemy_emitter.is_none());
        let gun = c.projectile_emitter.unwrap();
        assert!(48_000 <= gun.interval && gun.interval <= 60_000);
        assert!(0 <= gun.current_interval && gun.current_interval <= gun.interval);
        assert!(600 <= gun.spread && gun.spread <= 800);
        assert_eq!(gun.speed, -v.x + 2_000);
        let m = c.money.unwrap().amount();
        assert!(50 <= m && m <= 80);
        assert!((20..23).contains(&c.sprite.unwrap().reference.0));
    }
    let big = EnemyEmitter::spawn_enemy_with_resource_usage(
        &sprites,
        &ships,
        EnemyType::Big,
        Some(Position::new(1, 2)),
    );
    assert_eq!(big.position.unwrap(), Position::new(1, 2));
    assert_eq!(big.enemy_emitter.as_ref().unwrap().total_time, 600_000);
}

#[test]
fn an_escort_enters_where_its_carrier_is() {
    quad_rand::srand(6);
    let mut world = World::new();
    let mut carrier = wave(emitter(vec![(0, EnemyType::Small)], 600_000));
    carrier.position = Some(Position::new(222_000, 111_000));
    world.spawn(carrier);
    let mut phase = Phase::WaitingForLastEnemy;
    let mut left = EnemiesLeft(0);
    EnemyEmitterSystem.run(&mut world, &sprites(), &Some(ships()), &mut phase, &mut left);
    assert!(world.join(&vec![ComponentKind::Enemy]).is_empty());
    world.maintain();
    let enemies = world.join(&vec![ComponentKind::Enemy]);
    assert_eq!(enemies.len(), 1);
    assert_eq!(world.get(enemies[0]).unwrap().position.unwrap(), Position::new(222_000, 111_000));
}

#[test]
fn a_wave_that_takes_the_whole_budget_at_once_has_one_enemy() {
    let all = Budget { min_share: 1_000, max_share: 1_000, floor: 1, ..budget(5_000) };
    assert_eq!(all.costs(), vec![5_000]);
    let halves = Budget { min_share: 500, max_share: 500, floor: 1, retries: 0, ..budget(8) };
    // Half of what is left, and the floor once half of it is nothing.
    assert_eq!(halves.costs(), vec![4, 2, 1, 1]);
    let floored = Budget { min_share: 0, max_share: 0, floor: 3, ..budget(7) };
    assert_eq!(floored.costs(), vec![3, 3, 3]);
}

#[test]
fn a_generated_level_may_run_past_its_time() {
    let mut picks = smalls(12);
    for pick in picks.iter_mut() {
        pick.kind = EnemyType::Big;
        pick.jitter = TIME_RANDOM_FACTOR;
    }
    let mut e = EnemyEmitter::generated(5, &picks);
    let last = e.spawner[11].0;
    // Eleven spacings of 235 ticks, eleven big enemies before and the pause
    // before the twelfth.
    assert_eq!(last, 11 * 235_000 + 11 * 300_000 + 60_000);
    assert!(last > e.total_time);
    let mut spawned = 0;
    let mut ticks = 0;
    while !e.is_expired() {
        spawned += e.tick().len();
        ticks += 1;
    }
    assert_eq!(spawned, 12);
    assert_eq!(ticks, last / 1_000 + 1);
}

#[test]
fn a_cost_is_decided_draw_by_draw() {
    let b = budget(1_000);
    assert_eq!(b.decide(10, 0), Some(10));
    assert_eq!(b.decide(499, 8), Some(499));
    assert_eq!(b.decide(9, 0), None);
    assert_eq!(b.decide(9, 7), None);
    assert_eq!(b.decide(9, 8), Some(10));
    assert_eq!(b.decide(-5, 9), Some(10));
    // With 1000 left a draw selects a cost between 100 and 500.
    assert_eq!(b.settle(1_000, &vec![0]), 100);
    assert_eq!(b.settle(1_000, &vec![u32::MAX, 0]), 500);
    assert_eq!(b.settle(1_000, &vec![u32::MAX / 2]), 299);
    assert_eq!(b.settle(1_000, &vec![]), 10);
    // With 50 left the costs lie between 5 and 25.
    assert_eq!(b.settle(50, &vec![0, 0, u32::MAX, 0]), 25);
    assert_eq!(b.settle(50, &vec![0, 0]), 10);
    assert_eq!(b.settle(50, &vec![0; 9]), 10);
    let mut late = vec![0; 9];
    late.push(u32::MAX);
    assert_eq!(b.settle(50, &late), 10);
    let mut last = vec![0; 8];
    last.push(u32::MAX);
    assert_eq!(b.settle(50, &last), 25);
}

#[test]
fn a_drawn_cost_is_a_share_or_the_floor() {
    quad_rand::srand(23);
    let halves = Budget { min_share: 500, max_share: 500, floor: 1, ..budget(1_000) };
    for remaining in [2, 3, 100, 999, 1_000] {
        assert_eq!(halves.draw_cost(remaining), remaining / 2);
    }
    assert_eq!(halves.draw_cost(1), 1);
    let b = budget(1_000);
    for _ in 0..300 {
        let c = b.draw_cost(60);
        assert!(c == 10 || (6 <= c && c <= 30));
        assert!(c >= 10);
    }
}
