use fermi_paradox::entity::{Lifetime, LifetimeSystem};
use fermi_paradox::input::Input;
use fermi_paradox::movement::{MovementSystem, Zigzag};
use fermi_paradox::physics::{
    Aabr, BoundingBox, BoundingBoxSystem, Drag, DragSystem, Position, Vec2, Velocity,
    VelocitySystem,
};
use fermi_paradox::player::{Player, PlayerSystem};
use fermi_paradox::sprite::{pixel, Sprite, SpritePositionSystem, SpriteRef};
use fermi_paradox::world::{Components, Entity, World};

fn body(x: i64, y: i64, vx: i64, vy: i64) -> Components {
    let mut c = Components::empty();
    c.position = Some(Position::new(x, y));
    c.velocity = Some(Velocity::new(vx, vy));
    c
}

fn position_of(world: &World, e: Entity) -> Vec2 {
    world.get(e).unwrap().position.unwrap().0
}

fn velocity_of(world: &World, e: Entity) -> Vec2 {
    world.get(e).unwrap().velocity.unwrap().0
}

#[test]
fn vectors_add_subtract_and_scale() {
    let a = Vec2::new(1_000, -2_000);
    let b = Vec2::new(500, 500);
    assert_eq!(a.plus(b), Vec2::new(1_500, -1_500));
    assert_eq!(a.minus(b), Vec2::new(500, -2_500));
    assert_eq!(a.times(850), Vec2::new(850, -1_700));
    assert_eq!(a.halfway(b), Vec2::new(750, -750));
    assert_eq!(Vec2::new(3_000, 4_000).magnitude(), 5_000);
    assert_eq!(Vec2::new(-3_000, -4_000).magnitude(), 5_000);
    assert_eq!(Vec2::new(0, 0).magnitude(), 0);
    assert_eq!(Vec2::new(i64::MIN, i64::MIN).magnitude(), i64::MAX);
    assert_eq!(Vec2::new(i64::MAX, 1).plus(Vec2::new(1, 1)), Vec2::new(i64::MAX, 2));
}

#[test]
fn positions_and_boxes_are_built_from_their_parts() {
    let p = Position::new(10_000, 20_000);
    assert_eq!(p.0, Vec2::new(10_000, 20_000));
    assert_eq!(Position::from_vec2(Vec2::new(1, 2)).0, Vec2::new(1, 2));
    assert_eq!(p.add_offset(Vec2::new(-1_000, 500)).0, Vec2::new(9_000, 20_500));
    let b = BoundingBox::new(11_000, 44_000);
    assert_eq!(b.0, Vec2::new(11_000, 44_000));
    let r = b.to_aabr(&p);
    assert_eq!(r.min, Vec2::new(10_000, 20_000));
    assert_eq!(r.max, Vec2::new(21_000, 64_000));
    assert_eq!(r.center(), Vec2::new(15_500, 42_000));
    assert_eq!(b.center_offset(), Vec2::new(5_500, 22_000));
    assert_eq!(BoundingBox::new(13_000, 20_001).center_offset(), Vec2::new(6_500, 10_000));
}

#[test]
fn velocities_are_drawn_within_their_range() {
    assert_eq!(Velocity::new(1, 2).0, Vec2::new(1, 2));
    assert_eq!(Velocity::from_draws(500, 0, u32::MAX).0, Vec2::new(-500, 500));
    assert_eq!(Velocity::from_draws(500, u32::MAX, 0).0, Vec2::new(500, -500));
    assert_eq!(Velocity::from_draws(0, 17, 4_000_000).0, Vec2::new(0, 0));
    quad_rand::srand(11);
    for _ in 0..500 {
        let v = Velocity::from_random_range(3_000).0;
        assert!(v.x.abs() <= 3_000 && v.y.abs() <= 3_000);
    }
}

#[test]
fn rectangles_overlap_only_where_both_axes_do() {
    let a = Aabr { min: Vec2::new(0, 0), max: Vec2::new(10, 10) };
    let inside = Aabr { min: Vec2::new(5, 5), max: Vec2::new(6, 6) };
    let touching = Aabr { min: Vec2::new(10, 0), max: Vec2::new(20, 10) };
    let beside = Aabr { min: Vec2::new(11, 0), max: Vec2::new(20, 10) };
    let above = Aabr { min: Vec2::new(0, -20), max: Vec2::new(10, -1) };
    let across = Aabr { min: Vec2::new(9, 9), max: Vec2::new(30, 30) };
    assert!(a.collides_with_aabr(a));
    assert!(a.collides_with_aabr(inside));
    assert!(!a.collides_with_aabr(touching));
    assert!(!a.collides_with_aabr(beside));
    assert!(!a.collides_with_aabr(above));
    assert!(a.collides_with_aabr(across));
}

#[test]
fn the_overlap_test_is_symmetric() {
    let corners = [-3i64, 0, 2, 5];
    let mut boxes: Vec<Aabr> = Vec::new();
    for x0 in corners {
        for y0 in corners {
            for w in [1i64, 3, 6] {
                for h in [1i64, 4] {
                    boxes.push(Aabr { min: Vec2::new(x0, y0), max: Vec2::new(x0 + w, y0 + h) });
                }
            }
        }
    }
    for a in boxes.iter() {
        for b in boxes.iter() {
            assert_eq!(a.collides_with_aabr(*b), b.collides_with_aabr(*a));
        }
    }
}

#[test]
fn an_entity_moves_by_its_velocity() {
    let mut world = World::new();
    let moving = world.spawn(body(10_000, 20_000, -1_250, 300));
    let mut still = Components::empty();
    still.position = Some(Position::new(7, 7));
    let still = world.spawn(still);
    VelocitySystem.run(&mut world);
    assert_eq!(position_of(&world, moving), Vec2::new(8_750, 20_300));
    assert_eq!(velocity_of(&world, moving), Vec2::new(-1_250, 300));
    assert_eq!(position_of(&world, still), Vec2::new(7, 7));
    VelocitySystem.run(&mut world);
    assert_eq!(position_of(&world, moving), Vec2::new(7_500, 20_600));
}

#[test]
fn a_position_at_the_end_of_the_range_stays_there() {
    let mut world = World::new();
    let e = world.spawn(body(i64::MAX - 1, i64::MIN + 1, 5, -5));
    VelocitySystem.run(&mut world);
    assert_eq!(position_of(&world, e), Vec2::new(i64::MAX, i64::MIN));
}

#[test]
fn drag_multiplies_the_velocity_once_a_tick() {
    let mut world = World::new();
    let mut c = body(0, 0, 2_000, -1_000);
    c.drag = Some(Drag(850));
    let dragged = world.spawn(c);
    let free = world.spawn(body(0, 0, 2_000, -1_000));
    DragSystem.run(&mut world);
    assert_eq!(velocity_of(&world, dragged), Vec2::new(1_700, -850));
    assert_eq!(velocity_of(&world, free), Vec2::new(2_000, -1_000));
    assert_eq!(position_of(&world, dragged), Vec2::new(0, 0));
    DragSystem.run(&mut world);
    assert_eq!(velocity_of(&world, dragged), Vec2::new(1_445, -722));
}

#[test]
fn drag_of_one_changes_nothing_and_small_velocities_die_out() {
    let mut world = World::new();
    let mut c = body(0, 0, 1_234, -1);
    c.drag = Some(Drag(1_000));
    let whole = world.spawn(c);
    let mut c = body(0, 0, 1, -1);
    c.drag = Some(Drag(850));
    let small = world.spawn(c);
    DragSystem.run(&mut world);
    assert_eq!(velocity_of(&world, whole), Vec2::new(1_234, -1));
    assert_eq!(velocity_of(&world, small), Vec2::new(0, 0));
}

#[test]
fn the_top_of_the_play_area_sends_an_entity_back_down() {
    let mut world = World::new();
    let mut c = body(10_000, -1, 700, -2_000);
    c.bounding_box = Some(BoundingBox::new(11_000, 44_000));
    let e = world.spawn(c);
    BoundingBoxSystem.run(&mut world);
    assert_eq!(position_of(&world, e), Vec2::new(10_000, 0));
    assert_eq!(velocity_of(&world, e), Vec2::new(700, 2_000));
}

#[test]
fn the_bottom_of_the_play_area_sends_an_entity_back_up() {
    let mut world = World::new();
    let mut c = body(10_000, 256_001, 700, 2_000);
    c.bounding_box = Some(BoundingBox::new(11_000, 44_000));
    let e = world.spawn(c);
    BoundingBoxSystem.run(&mut world);
    assert_eq!(position_of(&world, e), Vec2::new(10_000, 256_000));
    assert_eq!(velocity_of(&world, e), Vec2::new(700, -2_000));
}

#[test]
fn an_entity_within_the_play_area_is_left_alone() {
    let mut world = World::new();
    let mut c = body(-50_000, 256_000, 700, 2_000);
    c.bounding_box = Some(BoundingBox::new(11_000, 44_000));
    let resting = world.spawn(c);
    let mut c = body(900_000, 0, -3, -4);
    c.bounding_box = Some(BoundingBox::new(11_000, 44_000));
    let at_top = world.spawn(c);
    let no_box = world.spawn(body(0, -5_000, 0, -1));
    BoundingBoxSystem.run(&mut world);
    assert_eq!(position_of(&world, resting), Vec2::new(-50_000, 256_000));
    assert_eq!(velocity_of(&world, resting), Vec2::new(700, 2_000));
    assert_eq!(position_of(&world, at_top), Vec2::new(900_000, 0));
    assert_eq!(velocity_of(&world, at_top), Vec2::new(-3, -4));
    assert_eq!(position_of(&world, no_box), Vec2::new(0, -5_000));
}

#[test]
fn a_box_without_velocity_is_put_back_too() {
    let mut world = World::new();
    let mut c = Components::empty();
    c.position = Some(Position::new(1, -9));
    c.bounding_box = Some(BoundingBox::new(10_000, 10_000));
    let e = world.spawn(c);
    BoundingBoxSystem.run(&mut world);
    assert_eq!(position_of(&world, e), Vec2::new(1, 0));
    assert!(world.get(e).unwrap().velocity.is_none());
}

#[test]
fn a_zigzag_sets_the_vertical_velocity_to_a_sine() {
    let mut world = World::new();
    let mut c = body(0, 0, -1_000, 0);
    // A quarter turn in ten ticks.
    c.zigzag = Some(Zigzag::new(800, 157));
    let e = world.spawn(c);
    let mut highest = 0;
    for tick in 1..=40 {
        MovementSystem.run(&mut world);
        let v = velocity_of(&world, e);
        assert_eq!(v.x, -1_000);
        assert!(v.y.abs() <= 800);
        let true_sine = (tick as f64 * 0.157).sin() * 800.0;
        assert!((v.y as f64 - true_sine).abs() < 4.0, "tick {}", tick);
        highest = highest.max(v.y);
    }
    assert_eq!(highest, 799);
    assert_eq!(world.get(e).unwrap().zigzag.unwrap().time, 40_000);
}

#[test]
fn a_zigzag_after_one_tick() {
    let mut world = World::new();
    let mut c = body(0, 0, -500, 123);
    c.zigzag = Some(Zigzag::new(1_000, 524));
    let e = world.spawn(c);
    MovementSystem.run(&mut world);
    assert_eq!(velocity_of(&world, e), Vec2::new(-500, 500));
    let z = world.get(e).unwrap().zigzag.unwrap();
    assert_eq!((z.time, z.amount, z.time_div), (1_000, 1_000, 524));
}

#[test]
fn a_lifetime_runs_out() {
    let mut world = World::new();
    let mut c = Components::empty();
    c.lifetime = Some(Lifetime::new(3_000));
    let e = world.spawn(c);
    LifetimeSystem.run(&mut world);
    world.maintain();
    assert!(world.is_alive(e));
    assert_eq!(world.get(e).unwrap().lifetime.unwrap().0, 2_000);
    LifetimeSystem.run(&mut world);
    world.maintain();
    assert!(world.is_alive(e));
    LifetimeSystem.run(&mut world);
    assert!(world.is_alive(e));
    world.maintain();
    assert!(!world.is_alive(e));
}

#[test]
fn the_player_follows_the_mouse() {
    let mut world = World::new();
    let mut c = body(10_000, 200_000, 0, 0);
    c.bounding_box = Some(BoundingBox::new(11_000, 44_000));
    c.player = Some(Player);
    let e = world.spawn(c);
    let mut other = body(10_000, 200_000, 0, 0);
    other.bounding_box = Some(BoundingBox::new(11_000, 44_000));
    let other = world.spawn(other);
    let mut input = Input::new();
    input.handle_mouse_move(33, 150);
    PlayerSystem.run(&mut world, &input);
    assert_eq!(position_of(&world, e), Vec2::new(10_000, 128_000));
    assert_eq!(position_of(&world, other), Vec2::new(10_000, 200_000));
}

#[test]
fn a_sprite_is_drawn_at_the_pixel_of_its_entity() {
    assert_eq!(pixel(12_999), 12);
    assert_eq!(pixel(-12_999), -12);
    assert_eq!(pixel(999), 0);
    assert_eq!(pixel(i64::MAX), i32::MAX);
    assert_eq!(pixel(i64::MIN), i32::MIN);
    let mut world = World::new();
    let mut c = body(12_999, -3_500, 0, 0);
    c.sprite = Some(Sprite::new(SpriteRef(4)));
    let e = world.spawn(c);
    SpritePositionSystem.run(&mut world);
    let s = world.get(e).unwrap().sprite.unwrap();
    assert_eq!(s.pos(), (12, -3));
    assert_eq!(s.reference, SpriteRef(4));
    assert_eq!(s.rot(), 0);
}

#[test]
fn a_sprite_is_turned_to_an_angle_within_a_turn() {
    let mut s = Sprite::new(SpriteRef(1));
    s.set_pos(7, 8);
    for (given, kept) in [(0i16, 0i16), (90, 90), (360, 360), (361, 1), (720, 360), (725, 5), (-1, 359), (-360, 0), (-725, 355), (i16::MAX, 7), (i16::MIN, 352)] {
        s.set_rot(given);
        assert_eq!(s.rot(), kept, "given {}", given);
    }
    assert_eq!(s.pos(), (7, 8));
}
