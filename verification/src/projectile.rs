//! Projectiles and their emitters.
use vstd::prelude::*;
use crate::fixed::{
    absolute, ceil_root, clamp, isqrt, lemma_ceil_root, lemma_product_bound, lemma_quot_square,
    lemma_quot_within, lemma_root_at_most, lemma_root_covers, lemma_root_exists,
    lemma_root_of_square, minus, negated, plus, product, quot, times, FINE, UNIT,
};
use crate::lives::{
    after_breaches, breached_queue, breached_slots, breaches, resolve_breaches, Lives,
};
use crate::particle::ParticleEmitter;
use crate::physics::{Aabr, BoundingBox, Position, Vec2, Velocity};
use crate::random::{between, range};
use crate::sprite::{Sprite, SpriteRef, Sprites};
use crate::upgrade::Upgrades;
use crate::world::{
    lemma_made_push, lemma_made_skip, made_from, spawned_queue, spawned_slots, ComponentKind,
    Components, Entity, Slot, World,
};

verus! {

/// Marks an entity as a projectile.
#[derive(Clone, Copy, Debug)]
pub struct Projectile;

/// The sprite of the pieces into which a projectile splits.
#[derive(Clone, Copy, Debug)]
pub struct SplitInto(pub SpriteRef);

/// Emits a projectile whenever its interval has passed.
#[derive(Clone, Copy, Debug)]
pub struct ProjectileEmitter {
    pub interval: i64,
    pub current_interval: i64,
    pub speed: i64,
    pub spread: i64,
    /// The sprite of the projectiles.
    pub sprite: SpriteRef,
    pub split_into: Option<SpriteRef>,
    /// Where the projectiles start, from the emitter's position.
    pub offset: Vec2,
    pub size: BoundingBox,
}

impl ProjectileEmitter {
    /// An emitter with a speed and a spread of one, and an interval drawn
    /// between 200 and 400 ticks of which a random part has already passed.
    pub fn new(sprite: SpriteRef, size: BoundingBox) -> (e: ProjectileEmitter)
        ensures
            200 * UNIT <= e.interval <= 400 * UNIT,
            0 <= e.current_interval <= e.interval,
            e == (ProjectileEmitter {
                interval: e.interval,
                current_interval: e.current_interval,
                speed: UNIT,
                spread: UNIT,
                sprite,
                split_into: None,
                offset: Vec2 { x: 0, y: 0 },
                size,
            }),
    {
        let interval: i64 = range(200 * UNIT, 400 * UNIT);
        ProjectileEmitter {
            speed: UNIT,
            spread: UNIT,
            sprite,
            interval,
            split_into: None,
            current_interval: range(0, interval),
            offset: Vec2::new(0, 0),
            size,
        }
    }

    /// Sets the interval; a random part of it has already passed.
    pub fn with_interval(self, interval: i64) -> (e: ProjectileEmitter)
        ensures
            e == (ProjectileEmitter { interval, current_interval: e.current_interval, ..self }),
            0 <= interval ==> 0 <= e.current_interval <= interval,
            interval <= 0 ==> interval <= e.current_interval <= 0,
    {
        ProjectileEmitter { interval, current_interval: range(0, interval), ..self }
    }

    pub fn with_speed(self, speed: i64) -> (e: ProjectileEmitter)
        ensures
            e == (ProjectileEmitter { speed, ..self }),
    {
        ProjectileEmitter { speed, ..self }
    }

    pub fn with_spread(self, spread: i64) -> (e: ProjectileEmitter)
        ensures
            e == (ProjectileEmitter { spread, ..self }),
    {
        ProjectileEmitter { spread, ..self }
    }

    pub fn split_into(self, split: Option<SpriteRef>) -> (e: ProjectileEmitter)
        ensures
            e == (ProjectileEmitter { split_into: split, ..self }),
    {
        ProjectileEmitter { split_into: split, ..self }
    }

    pub fn with_offset(self, offset: Vec2) -> (e: ProjectileEmitter)
        ensures
            e == (ProjectileEmitter { offset, ..self }),
    {
        ProjectileEmitter { offset, ..self }
    }
}

/// The cosine of the angle between two neighbouring pieces of a split
/// projectile, a tenth of a radian.
pub const FAN_COSINE: i64 = 995;

/// The sine of the angle between two neighbouring pieces of a split
/// projectile.
pub const FAN_SINE: i64 = 100;

/// How long a particle of a projectile's trail lives.
pub const TRAIL_LIFETIME: i64 = 3_000;

/// The way from the middle of the player to the projectile.
pub open spec fn aim(position: Position, center: Vec2) -> Vec2 {
    position.0.difference(center)
}

/// The larger of the sizes of the two parts of a vector.
pub open spec fn reach(way: Vec2) -> int {
    if absolute(way.x as int) >= absolute(way.y as int) {
        absolute(way.x as int)
    } else {
        absolute(way.y as int)
    }
}

/// The factor by which a vector is enlarged before its length is taken: the
/// largest that keeps its larger part within `FINE`.
pub open spec fn enlargement(way: Vec2) -> int {
    if reach(way) == 0 || reach(way) > FINE {
        1
    } else {
        (FINE as int) / reach(way)
    }
}

/// The velocity of the given speed that points the way of `way`: each part of
/// `way` times the speed, divided by the length of `way`. The length is taken
/// of the enlarged vector and rounded up, so that the velocity is never
/// faster than the speed, and each part is rounded toward zero.
pub open spec fn toward(way: Vec2, speed: int) -> Vec2 {
    let k = enlargement(way);
    let a = way.x * k;
    let b = way.y * k;
    let c = ceil_root(a * a + b * b);
    Vec2 { x: quot(a * speed, c) as i64, y: quot(b * speed, c) as i64 }
}

/// The velocity of the given speed along the axis on which `way` reaches
/// farther, to the side of `way`.
pub open spec fn along_axis(way: Vec2, speed: int) -> Vec2 {
    if absolute(way.x as int) >= absolute(way.y as int) {
        Vec2 {
            x: if way.x >= 0 {
                speed as i64
            } else {
                (-speed) as i64
            },
            y: 0,
        }
    } else {
        Vec2 {
            x: 0,
            y: if way.y >= 0 {
                speed as i64
            } else {
                (-speed) as i64
            },
        }
    }
}

/// Whether a velocity is as fast as `speed`, but for what rounding may have
/// cost: no faster, and slower by two thousandths at the most.
pub open spec fn keeps_speed(v: Vec2, speed: int) -> bool {
    speed - 2 <= v.length() <= speed
}

/// The velocity of a projectile that the player has deflected: as fast as
/// before, but for two thousandths that rounding may cost, and pointing away
/// from the middle of the player. A projectile that sits on the middle of the
/// player goes straight to the right. Where rounding would cost more of the
/// speed (which takes a speed beyond any that the play area can hold), the
/// projectile leaves along the axis on which it lies farther from the middle.
pub open spec fn redirected(velocity: Velocity, position: Position, center: Vec2) -> Velocity {
    let speed = velocity.0.length();
    let way = aim(position, center);
    if way.x == 0 && way.y == 0 {
        Velocity(Vec2 { x: speed as i64, y: 0 })
    } else if keeps_speed(toward(way, speed), speed) {
        Velocity(toward(way, speed))
    } else {
        Velocity(along_axis(way, speed))
    }
}

/// A deflected projectile is as fast as it was, but for two thousandths that
/// rounding may cost, and it flies away from the middle of the player: each
/// part of its new velocity points the way that the projectile lies from the
/// middle.
pub proof fn lemma_deflection_away(velocity: Velocity, position: Position, center: Vec2)
    ensures
        ({
            let way = aim(position, center);
            let speed = velocity.0.length();
            let after = redirected(velocity, position, center);
            &&& keeps_speed(after.0, speed)
            &&& way.x > 0 ==> 0 <= after.0.x <= speed
            &&& way.x < 0 ==> -speed <= after.0.x <= 0
            &&& way.y > 0 ==> 0 <= after.0.y <= speed
            &&& way.y < 0 ==> -speed <= after.0.y <= 0
        }),
{
    let way = aim(position, center);
    let speed = velocity.0.length();
    lemma_length_range(velocity.0);
    lemma_axis_length(speed);
    if way.x != 0 || way.y != 0 {
        lemma_toward_within(way, speed);
    }
}

/// The velocity toward `way` is never faster than the speed.
pub proof fn lemma_toward_no_faster(way: Vec2, speed: int)
    requires
        way.x != 0 || way.y != 0,
        0 <= speed <= i64::MAX,
    ensures
        toward(way, speed).length() <= speed,
{
    lemma_toward_within(way, speed);
    let k = enlargement(way);
    let a = way.x * k;
    let b = way.y * k;
    let n = a * a + b * b;
    let c = ceil_root(n);
    assert(0 <= a * a && 0 <= b * b) by (nonlinear_arith);
    lemma_ceil_root(n);
    let x = quot(a * speed, c);
    let y = quot(b * speed, c);
    lemma_quot_square(a, speed, c);
    lemma_quot_square(b, speed, c);
    let cc = c * c;
    let ss = speed * speed;
    let xx = x * x;
    let yy = y * y;
    assert(0 <= xx && 0 <= yy && 0 <= ss && 1 <= cc) by (nonlinear_arith)
        requires
            xx == x * x,
            yy == y * y,
            ss == speed * speed,
            cc == c * c,
            c >= 1,
    ;
    assert((xx + yy) * cc <= cc * ss) by (nonlinear_arith)
        requires
            xx * cc <= (a * a) * ss,
            yy * cc <= (b * b) * ss,
            n == a * a + b * b,
            n <= cc,
            0 <= ss,
    ;
    assert(xx + yy <= ss) by (nonlinear_arith)
        requires
            (xx + yy) * cc <= cc * ss,
            1 <= cc,
    ;
    lemma_root_at_most(xx + yy, speed);
    lemma_root_exists(n);
    lemma_root_covers(a, b);
    lemma_quot_within(a, speed, c);
    lemma_quot_within(b, speed, c);
    assert(toward(way, speed).x == x && toward(way, speed).y == y);
}

/// The length of a vector is not negative.
pub proof fn lemma_length_range(v: Vec2)
    ensures
        0 <= v.length() <= i64::MAX,
{
    assert(0 <= v.x * v.x && 0 <= v.y * v.y) by (nonlinear_arith);
    lemma_root_exists(v.x * v.x + v.y * v.y);
}

/// A vector along an axis is as long as its one part is large.
pub proof fn lemma_axis_length(speed: int)
    requires
        0 <= speed <= i64::MAX,
    ensures
        (Vec2 { x: speed as i64, y: 0 }).length() == speed,
        (Vec2 { x: (-speed) as i64, y: 0 }).length() == speed,
        (Vec2 { x: 0, y: speed as i64 }).length() == speed,
        (Vec2 { x: 0, y: (-speed) as i64 }).length() == speed,
{
    lemma_root_of_square(speed);
    assert((-speed) * (-speed) == speed * speed) by (nonlinear_arith);
    assert(speed * speed + 0 * 0 == speed * speed);
    assert(0 * 0 + speed * speed == speed * speed);
}

/// Each part of the velocity toward `way` points the way of that part of
/// `way`, and is no larger than the speed.
pub proof fn lemma_toward_within(way: Vec2, speed: int)
    requires
        way.x != 0 || way.y != 0,
        0 <= speed <= i64::MAX,
    ensures
        enlargement(way) >= 1,
        reach(way) * enlargement(way) <= 2 * FINE,
        ceil_root(
            (way.x * enlargement(way)) * (way.x * enlargement(way)) + (way.y * enlargement(way))
                * (way.y * enlargement(way)),
        ) >= 1,
        way.x >= 0 ==> 0 <= toward(way, speed).x <= speed,
        way.x <= 0 ==> -speed <= toward(way, speed).x <= 0,
        way.y >= 0 ==> 0 <= toward(way, speed).y <= speed,
        way.y <= 0 ==> -speed <= toward(way, speed).y <= 0,
{
    let m = reach(way);
    let k = enlargement(way);
    if m <= FINE {
        assert(k >= 1 && m * k <= FINE) by (nonlinear_arith)
            requires
                1 <= m <= FINE,
                k == (FINE as int) / m,
        ;
    }
    let a = way.x * k;
    let b = way.y * k;
    assert(absolute(a) == absolute(way.x as int) * k && absolute(b) == absolute(way.y as int) * k)
        by (nonlinear_arith)
        requires
            a == way.x * k,
            b == way.y * k,
            k >= 1,
    ;
    let n = a * a + b * b;
    assert(0 <= a * a && 0 <= b * b) by (nonlinear_arith);
    assert(a != 0 || b != 0) by (nonlinear_arith)
        requires
            a == way.x * k,
            b == way.y * k,
            k >= 1,
            way.x != 0 || way.y != 0,
    ;
    assert(n >= 1) by (nonlinear_arith)
        requires
            n == a * a + b * b,
            a != 0 || b != 0,
    ;
    lemma_root_exists(n);
    lemma_root_covers(a, b);
    let c = ceil_root(n);
    assert(c >= 1);
    lemma_quot_within(a, speed, c);
    lemma_quot_within(b, speed, c);
    assert(way.x >= 0 ==> a >= 0) by (nonlinear_arith)
        requires
            a == way.x * k,
            k >= 1,
    ;
    assert(way.x <= 0 ==> a <= 0) by (nonlinear_arith)
        requires
            a == way.x * k,
            k >= 1,
    ;
    assert(way.y >= 0 ==> b >= 0) by (nonlinear_arith)
        requires
            b == way.y * k,
            k >= 1,
    ;
    assert(way.y <= 0 ==> b <= 0) by (nonlinear_arith)
        requires
            b == way.y * k,
            k >= 1,
    ;
}

/// The vector turned by the angle with the given sine and the cosine
/// `FAN_COSINE`.
pub open spec fn turned(v: Vec2, sine: i64) -> Vec2 {
    Vec2 {
        x: clamp(product(v.x as int, FAN_COSINE as int) - product(v.y as int, sine as int)) as i64,
        y: clamp(product(v.x as int, sine as int) + product(v.y as int, FAN_COSINE as int)) as i64,
    }
}

/// The emitter of the trail of a projectile of the given size.
pub open spec fn trail_of(sprites: Sprites, size: BoundingBox) -> ParticleEmitter {
    ParticleEmitter {
        amount: UNIT,
        lifetime: TRAIL_LIFETIME,
        dispersion: UNIT,
        sprite: sprites.white_particle,
        offset: size.middle(),
    }
}

/// The components of one piece of a split projectile.
pub open spec fn piece_of(
    sprite: SpriteRef,
    position: Position,
    size: BoundingBox,
    velocity: Vec2,
    sprites: Sprites,
) -> Components {
    Components {
        projectile: Some(Projectile),
        sprite: Some(Sprite { reference: sprite, x: 0, y: 0, rotation: 0 }),
        position: Some(position),
        bounding_box: Some(size),
        velocity: Some(Velocity(velocity)),
        particle_emitter: Some(trail_of(sprites, size)),
        ..Components::none()
    }
}

/// The three pieces into which a projectile splits: one goes on as the
/// projectile would, one is turned to each side of it.
pub open spec fn pieces_of(
    sprite: SpriteRef,
    position: Position,
    size: BoundingBox,
    velocity: Vec2,
    sprites: Sprites,
) -> Seq<Components> {
    seq![
        piece_of(sprite, position, size, turned(velocity, (-FAN_SINE) as i64), sprites),
        piece_of(sprite, position, size, velocity, sprites),
        piece_of(sprite, position, size, turned(velocity, FAN_SINE), sprites),
    ]
}

/// Whether the slot holds a player that can be collided with.
pub open spec fn is_player(slot: Slot) -> bool {
    &&& slot.alive
    &&& slot.components.player is Some
    &&& slot.components.position is Some
    &&& slot.components.bounding_box is Some
}

/// Whether the slot holds a projectile that can collide and be deflected.
pub open spec fn is_shot(slot: Slot) -> bool {
    &&& slot.alive
    &&& slot.components.projectile is Some
    &&& slot.components.position is Some
    &&& slot.components.bounding_box is Some
    &&& slot.components.velocity is Some
}

/// The rectangle that the entity of a slot covers.
pub open spec fn box_of(slot: Slot) -> Aabr {
    slot.components.bounding_box->0.aabr_at(slot.components.position->0)
}

/// How far to the right the entity of a slot moves in a tick.
pub open spec fn heading(slot: Slot) -> i64 {
    let velocity = slot.components.velocity->0;
    velocity.0.x
}

/// The sprite of the pieces into which the projectile of a slot splits.
pub open spec fn split_sprite(slot: Slot) -> SpriteRef {
    let parts = slot.components.split_into->0;
    parts.0
}

/// The velocity of the projectile in slot `j` after it has met the players in
/// the slots before `n`, one after the other. A player deflects it where it
/// overlaps the player and does not move to the right.
pub open spec fn deflected(slots: Seq<Slot>, j: int, n: int) -> Velocity
    decreases n,
{
    if n <= 0 {
        slots[j].components.velocity->0
    } else {
        let v = deflected(slots, j, n - 1);
        if is_player(slots[n - 1]) && v.0.x <= 0 && box_of(slots[j]).overlaps(
            box_of(slots[n - 1]),
        ) {
            redirected(v, slots[j].components.position->0, box_of(slots[n - 1]).middle())
        } else {
            v
        }
    }
}

/// Whether the player in slot `i` deflects the projectile in slot `j`.
pub open spec fn meets(slots: Seq<Slot>, j: int, i: int) -> bool {
    &&& is_shot(slots[j])
    &&& is_player(slots[i])
    &&& deflected(slots, j, i).0.x <= 0
    &&& box_of(slots[j]).overlaps(box_of(slots[i]))
}

/// Whether the projectile in slot `j` splits on the player in slot `i`.
pub open spec fn splits(slots: Seq<Slot>, split: bool, j: int, i: int) -> bool {
    split && slots[j].components.split_into is Some && meets(slots, j, i)
}

/// Whether the projectile in slot `j` splits on a player in a slot before `n`.
pub open spec fn split_before(slots: Seq<Slot>, split: bool, j: int, n: int) -> bool
    decreases n,
{
    n > 0 && (split_before(slots, split, j, n - 1) || splits(slots, split, j, n - 1))
}

/// Slot `j` after its projectile, if it holds one, has met the players in the
/// slots before `n`: the projectile has the velocity that they gave it, and is
/// marked for deletion if it has split.
pub open spec fn deflected_slot(slots: Seq<Slot>, split: bool, j: int, n: int) -> Slot {
    if is_shot(slots[j]) {
        Slot {
            doomed: slots[j].doomed || split_before(slots, split, j, n),
            components: Components {
                velocity: Some(deflected(slots, j, n)),
                ..slots[j].components
            },
            ..slots[j]
        }
    } else {
        slots[j]
    }
}

/// The pieces of the projectiles in the slots before `m` that split on the
/// player in slot `i`.
pub open spec fn row_pieces(slots: Seq<Slot>, split: bool, sprites: Sprites, i: int, m: int) -> Seq<
    Components,
>
    decreases m,
{
    if m <= 0 {
        Seq::empty()
    } else if splits(slots, split, m - 1, i) {
        row_pieces(slots, split, sprites, i, m - 1) + pieces_of(
            split_sprite(slots[m - 1]),
            slots[m - 1].components.position->0,
            slots[m - 1].components.bounding_box->0,
            deflected(slots, m - 1, i + 1).0,
            sprites,
        )
    } else {
        row_pieces(slots, split, sprites, i, m - 1)
    }
}

/// The pieces of all projectiles that split on the players in the slots
/// before `n`, player by player.
pub open spec fn pieces_through(slots: Seq<Slot>, split: bool, sprites: Sprites, n: int) -> Seq<
    Components,
>
    decreases n,
{
    if n <= 0 {
        Seq::empty()
    } else {
        pieces_through(slots, split, sprites, n - 1) + row_pieces(
            slots,
            split,
            sprites,
            n - 1,
            slots.len() as int,
        )
    }
}

/// The slots after every projectile has met every player.
pub open spec fn deflected_slots(slots: Seq<Slot>, split: bool) -> Seq<Slot> {
    Seq::new(slots.len(), |j: int| deflected_slot(slots, split, j, slots.len() as int))
}

/// Nothing splits on a slot that holds no player.
proof fn lemma_row_without_player(
    slots: Seq<Slot>,
    split: bool,
    sprites: Sprites,
    i: int,
    m: int,
)
    requires
        !is_player(slots[i]),
    ensures
        row_pieces(slots, split, sprites, i, m) == Seq::<Components>::empty(),
    decreases m,
{
    if m > 0 {
        lemma_row_without_player(slots, split, sprites, i, m - 1);
    }
}

/// The velocity of the given speed that points the way of `way`.
pub fn head(way: Vec2, speed: i64) -> (v: Vec2)
    requires
        way.x != 0 || way.y != 0,
        0 <= speed,
    ensures
        v == toward(way, speed as int),
{
    proof {
        lemma_toward_within(way, speed as int);
    }
    let ax: u64 = if way.x < 0 {
        (-(way.x as i128)) as u64
    } else {
        way.x as u64
    };
    let ay: u64 = if way.y < 0 {
        (-(way.y as i128)) as u64
    } else {
        way.y as u64
    };
    let m: u64 = if ax >= ay {
        ax
    } else {
        ay
    };
    let k: u64 = if m > FINE as u64 {
        1
    } else {
        FINE as u64 / m
    };
    assert(k == enlargement(way));
    proof {
        assert(ax * k <= m * k && ay * k <= m * k) by (nonlinear_arith)
            requires
                ax <= m,
                ay <= m,
                0 <= k,
        ;
        assert(way.x * k == -(ax * k) || way.x * k == ax * k) by (nonlinear_arith)
            requires
                way.x == ax || way.x == -ax,
        ;
        assert(way.y * k == -(ay * k) || way.y * k == ay * k) by (nonlinear_arith)
            requires
                way.y == ay || way.y == -ay,
        ;
    }
    let a: i128 = (way.x as i128) * (k as i128);
    let b: i128 = (way.y as i128) * (k as i128);
    proof {
        lemma_product_bound(a as int, a as int, 0x8000_0000_0000_0000, 0x8000_0000_0000_0000);
        lemma_product_bound(b as int, b as int, 0x8000_0000_0000_0000, 0x8000_0000_0000_0000);
        assert(0 <= a * a && 0 <= b * b) by (nonlinear_arith);
        lemma_product_bound(a as int, speed as int, 0x8000_0000_0000_0000, 0x8000_0000_0000_0000);
        lemma_product_bound(b as int, speed as int, 0x8000_0000_0000_0000, 0x8000_0000_0000_0000);
    }
    let n: u128 = (a * a) as u128 + (b * b) as u128;
    let d: u64 = isqrt(n);
    assert((d as u128) * (d as u128) <= 0xffff_ffff_ffff_ffff * 0xffff_ffff_ffff_ffff)
        by (nonlinear_arith)
        requires
            0 <= d <= 0xffff_ffff_ffff_ffff,
    ;
    let c: i128 = if (d as u128) * (d as u128) == n {
        d as i128
    } else {
        d as i128 + 1
    };
    assert(c == ceil_root(n as int));
    let x: i128 = a * (speed as i128) / c;
    let y: i128 = b * (speed as i128) / c;
    Vec2 { x: x as i64, y: y as i64 }
}

/// The velocity of the given speed along the axis on which `way` reaches
/// farther, to the side of `way`.
pub fn head_along_axis(way: Vec2, speed: i64) -> (v: Vec2)
    requires
        0 <= speed,
    ensures
        v == along_axis(way, speed as int),
{
    let ax: i128 = if way.x < 0 {
        -(way.x as i128)
    } else {
        way.x as i128
    };
    let ay: i128 = if way.y < 0 {
        -(way.y as i128)
    } else {
        way.y as i128
    };
    if ax >= ay {
        Vec2 {
            x: if way.x >= 0 {
                speed
            } else {
                -speed
            },
            y: 0,
        }
    } else {
        Vec2 {
            x: 0,
            y: if way.y >= 0 {
                speed
            } else {
                -speed
            },
        }
    }
}

/// The velocity of a projectile that the player has deflected: as fast as
/// before, but for two thousandths that rounding may cost, and pointing away
/// from the middle of the player.
pub fn redirect(velocity: Velocity, position: Position, center: Vec2) -> (v: Velocity)
    ensures
        v == redirected(velocity, position, center),
        keeps_speed(v.0, velocity.0.length()),
{
    let speed: i64 = velocity.0.magnitude();
    let way: Vec2 = position.0.minus(center);
    proof {
        lemma_axis_length(speed as int);
    }
    if way.x == 0 && way.y == 0 {
        return Velocity::new(speed, 0);
    }
    let ahead: Vec2 = head(way, speed);
    let length: i64 = ahead.magnitude();
    if speed - 2 <= length && length <= speed {
        Velocity(ahead)
    } else {
        Velocity(head_along_axis(way, speed))
    }
}

/// The vector turned by the angle with the given sine and the cosine
/// `FAN_COSINE`.
pub fn turn(v: Vec2, sine: i64) -> (t: Vec2)
    ensures
        t == turned(v, sine),
{
    Vec2::new(
        minus(times(v.x, FAN_COSINE), times(v.y, sine)),
        plus(times(v.x, sine), times(v.y, FAN_COSINE)),
    )
}

/// The components of one piece of a split projectile.
pub fn piece(
    sprite: SpriteRef,
    position: Position,
    size: BoundingBox,
    velocity: Vec2,
    sprites: &Sprites,
) -> (c: Components)
    ensures
        c == piece_of(sprite, position, size, velocity, *sprites),
{
    let mut c = Components::empty();
    c.projectile = Some(Projectile);
    c.sprite = Some(Sprite::new(sprite));
    c.position = Some(position);
    c.bounding_box = Some(size);
    c.velocity = Some(Velocity(velocity));
    c.particle_emitter = Some(
        ParticleEmitter::new(TRAIL_LIFETIME, sprites.white_particle).with_dispersion(
            UNIT,
        ).with_offset(size.center_offset()),
    );
    c
}

/// The rectangle of the player in slot `i`, if the slot holds one.
fn player_box(world: &World, i: usize) -> (b: Option<Aabr>)
    requires
        i < world.slots@.len(),
    ensures
        b is Some == is_player(world.slots@[i as int]),
        b is Some ==> b->0 == box_of(world.slots@[i as int]),
{
    if world.slots[i].alive && world.slots[i].components.player.is_some() {
        match (world.slots[i].components.position, world.slots[i].components.bounding_box) {
            (Some(position), Some(size)) => Some(size.to_aabr(&position)),
            _ => None,
        }
    } else {
        None
    }
}

/// The position, size and velocity of the projectile in slot `j`, if the slot
/// holds one.
fn shot(world: &World, j: usize) -> (s: Option<(Position, BoundingBox, Velocity)>)
    requires
        j < world.slots@.len(),
    ensures
        s is Some == is_shot(world.slots@[j as int]),
        s is Some ==> s->0 == (
            world.slots@[j as int].components.position->0,
            world.slots@[j as int].components.bounding_box->0,
            world.slots@[j as int].components.velocity->0,
        ),
{
    if world.slots[j].alive && world.slots[j].components.projectile.is_some() {
        match (
            world.slots[j].components.position,
            world.slots[j].components.bounding_box,
            world.slots[j].components.velocity,
        ) {
            (Some(position), Some(size), Some(velocity)) => Some((position, size, velocity)),
            _ => None,
        }
    } else {
        None
    }
}

/// How far to the right an emitter must be to fire.
pub const FIRING_LINE: i64 = 200_000;

/// Whether the slot holds an emitter of projectiles that is somewhere.
pub open spec fn holds_gun(slot: Slot) -> bool {
    &&& slot.alive
    &&& slot.components.projectile_emitter is Some
    &&& slot.components.position is Some
}

/// Whether the emitter of the slot fires in this tick: with this tick its
/// interval has passed, and it is to the right of the firing line.
pub open spec fn fires(slot: Slot) -> bool {
    let gun = slot.components.projectile_emitter->0;
    let position = slot.components.position->0;
    &&& holds_gun(slot)
    &&& clamp(gun.current_interval + UNIT) > gun.interval
    &&& position.0.x > FIRING_LINE
}

/// A slot after the tick of its emitter of projectiles, if it holds one: the
/// time since the last shot has grown by a tick, or starts again where the
/// emitter fires.
pub open spec fn fired_slot(slot: Slot) -> Slot {
    if holds_gun(slot) {
        let gun = slot.components.projectile_emitter->0;
        Slot {
            components: Components {
                projectile_emitter: Some(
                    ProjectileEmitter {
                        current_interval: if fires(slot) {
                            0
                        } else {
                            clamp(gun.current_interval + UNIT) as i64
                        },
                        ..gun
                    },
                ),
                ..slot.components
            },
            ..slot
        }
    } else {
        slot
    }
}

/// The components of a projectile that an emitter at `position` fires: it
/// flies to the left at the emitter's speed and drifts up or down.
pub open spec fn shot_of(
    gun: ProjectileEmitter,
    position: Position,
    drift: i64,
    sprites: Sprites,
) -> Components {
    Components {
        projectile: Some(Projectile),
        position: Some(Position(position.0.sum(gun.offset))),
        velocity: Some(Velocity(Vec2 { x: clamp(-gun.speed) as i64, y: drift })),
        bounding_box: Some(gun.size),
        sprite: Some(Sprite { reference: gun.sprite, x: 0, y: 0, rotation: 0 }),
        split_into: match gun.split_into {
            Some(parts) => Some(SplitInto(parts)),
            None => None,
        },
        particle_emitter: Some(trail_of(sprites, gun.size)),
        ..Components::none()
    }
}

/// Whether the components are those of a projectile that the emitter of the
/// slot fires: its drift lies within the emitter's spread.
pub open spec fn shot_from(bundle: Components, slot: Slot, sprites: Sprites) -> bool {
    let gun = slot.components.projectile_emitter->0;
    exists|drift: i64|
        between(drift as int, clamp(-gun.spread), gun.spread as int) && bundle
            == #[trigger] shot_of(gun, slot.components.position->0, drift, sprites)
}

/// Whether `bundles` are the projectiles that the emitters in the slots
/// before `n` fire in a tick: one for each emitter that fires, in the order of
/// the slots.
pub open spec fn shots_upto(
    slots: Seq<Slot>,
    bundles: Seq<Components>,
    sprites: Sprites,
    n: int,
) -> bool {
    made_from(
        slots,
        bundles,
        |s: Slot| fires(s),
        |c: Components, s: Slot| shot_from(c, s, sprites),
        n,
    )
}

/// Whether `bundles` are the projectiles that the emitters of the slots fire
/// in a tick.
pub open spec fn shots_of(slots: Seq<Slot>, bundles: Seq<Components>, sprites: Sprites) -> bool {
    shots_upto(slots, bundles, sprites, slots.len() as int)
}

/// The components of a projectile that an emitter at `position` fires.
pub fn fire(gun: &ProjectileEmitter, position: &Position, drift: i64, sprites: &Sprites) -> (c:
    Components)
    ensures
        c == shot_of(*gun, *position, drift, *sprites),
{
    let mut c = Components::empty();
    c.projectile = Some(Projectile);
    c.position = Some(position.add_offset(gun.offset));
    c.velocity = Some(Velocity::new(negated(gun.speed), drift));
    c.bounding_box = Some(gun.size);
    c.sprite = Some(Sprite::new(gun.sprite));
    c.split_into = match gun.split_into {
        Some(parts) => Some(SplitInto(parts)),
        None => None,
    };
    c.particle_emitter = Some(
        ParticleEmitter::new(TRAIL_LIFETIME, sprites.white_particle).with_dispersion(
            UNIT,
        ).with_offset(gun.size.center_offset()),
    );
    c
}

/// Lets every emitter of projectiles tick, and fire when its time has come.
pub struct ProjectileEmitterSystem;

impl ProjectileEmitterSystem {
    /// Whether `after` is what this system makes of `before`: every emitter
    /// of projectiles that is somewhere has ticked, and one projectile has
    /// been created for each that fires, in the order of the slots.
    pub open spec fn effect(before: World, after: World, sprites: Sprites) -> bool {
        exists|bundles: Seq<Components>|
            {
                &&& #[trigger] shots_of(before.slots@, bundles, sprites)
                &&& after.slots@ == spawned_slots(
                    before.slots@.map_values(|s: Slot| fired_slot(s)),
                    bundles.len() as int,
                )
                &&& after.pending@ == spawned_queue(
                    before.slots@.map_values(|s: Slot| fired_slot(s)),
                    before.pending@,
                    bundles,
                    bundles.len() as int,
                )
            }
    }

    /// Ticks every emitter of projectiles that is somewhere, and creates one
    /// projectile for each that fires, in the order of the slots.
    pub fn run(&self, world: &mut World, sprites: &Sprites)
        ensures
            ProjectileEmitterSystem::effect(*old(world), *final(world), *sprites),
    {
        let n: usize = world.slots.len();
        let ghost before = old(world).slots@;
        let mut bundles: Vec<Components> = Vec::new();
        let mut i: usize = 0;
        while i < n
            invariant
                n == world.slots@.len(),
                before == old(world).slots@,
                n == before.len(),
                0 <= i <= n,
                world.pending == old(world).pending,
                forall|j: int| 0 <= j < i ==> #[trigger] world.slots@[j] == fired_slot(before[j]),
                forall|j: int| i <= j < n ==> #[trigger] world.slots@[j] == before[j],
                shots_upto(before, bundles@, *sprites, i as int),
            decreases n - i,
        {
            let ghost mut fired = false;
            if world.slots[i].alive {
                match (
                    world.slots[i].components.projectile_emitter,
                    world.slots[i].components.position,
                ) {
                    (Some(gun), Some(position)) => {
                        let elapsed: i64 = plus(gun.current_interval, UNIT);
                        if elapsed > gun.interval && position.0.x > FIRING_LINE {
                            world.slots[i].components.projectile_emitter = Some(
                                ProjectileEmitter { current_interval: 0, ..gun },
                            );
                            let drift: i64 = range(negated(gun.spread), gun.spread);
                            let bundle = fire(&gun, &position, drift, sprites);
                            proof {
                                lemma_made_push(
                                    before,
                                    bundles@,
                                    bundle,
                                    |s: Slot| fires(s),
                                    |c: Components, s: Slot| shot_from(c, s, *sprites),
                                    i as int,
                                );
                            }
                            bundles.push(bundle);
                            proof {
                                fired = true;
                            }
                        } else {
                            world.slots[i].components.projectile_emitter = Some(
                                ProjectileEmitter { current_interval: elapsed, ..gun },
                            );
                        }
                    },
                    _ => {},
                }
            }
            proof {
                if !fired {
                    lemma_made_skip(
                        before,
                        bundles@,
                        |s: Slot| fires(s),
                        |c: Components, s: Slot| shot_from(c, s, *sprites),
                        i as int,
                    );
                }
            }
            i = i + 1;
        }
        assert(world.slots@ =~= before.map_values(|s: Slot| fired_slot(s)));
        assert(shots_of(before, bundles@, *sprites));
        world.lazy_spawn_all(bundles);
    }
}

/// Moves the projectiles, deflects them off the player and counts their
/// breaches.
pub struct ProjectileSystem;

impl ProjectileSystem {
    /// Lets every projectile meet every player. A player deflects a
    /// projectile that overlaps it and does not move to the right: the
    /// projectile keeps its speed and flies away from the middle of the
    /// player. With the split upgrade, a deflected projectile that carries the
    /// sprite of its pieces is marked for deletion, and three pieces are
    /// created in its place.
    pub fn deflect(world: &mut World, sprites: &Sprites, split: bool)
        ensures
            final(world).slots@ == spawned_slots(
                deflected_slots(old(world).slots@, split),
                pieces_through(
                    old(world).slots@,
                    split,
                    *sprites,
                    old(world).slots@.len() as int,
                ).len() as int,
            ),
            final(world).pending@ == spawned_queue(
                deflected_slots(old(world).slots@, split),
                old(world).pending@,
                pieces_through(old(world).slots@, split, *sprites, old(world).slots@.len() as int),
                pieces_through(
                    old(world).slots@,
                    split,
                    *sprites,
                    old(world).slots@.len() as int,
                ).len() as int,
            ),
    {
        let n: usize = world.slots.len();
        let ghost before = old(world).slots@;
        let mut pieces: Vec<Components> = Vec::new();
        let mut i: usize = 0;
        while i < n
            invariant
                n == world.slots@.len(),
                before == old(world).slots@,
                n == before.len(),
                0 <= i <= n,
                world.pending == old(world).pending,
                forall|j: int|
                    0 <= j < n ==> #[trigger] world.slots@[j] == deflected_slot(
                        before,
                        split,
                        j,
                        i as int,
                    ),
                pieces@ == pieces_through(before, split, *sprites, i as int),
            decreases n - i,
        {
            let found = player_box(world, i);
            match found {
                Some(player_aabr) => {
                    let center: Vec2 = player_aabr.center();
                    let mut j: usize = 0;
                    while j < n
                        invariant
                            n == world.slots@.len(),
                            n == before.len(),
                            0 <= i < n,
                            0 <= j <= n,
                            world.pending == old(world).pending,
                            is_player(before[i as int]),
                            player_aabr == box_of(before[i as int]),
                            center == player_aabr.middle(),
                            forall|k: int|
                                0 <= k < j ==> #[trigger] world.slots@[k] == deflected_slot(
                                    before,
                                    split,
                                    k,
                                    i + 1,
                                ),
                            forall|k: int|
                                j <= k < n ==> #[trigger] world.slots@[k] == deflected_slot(
                                    before,
                                    split,
                                    k,
                                    i as int,
                                ),
                            pieces@ == pieces_through(before, split, *sprites, i as int)
                                + row_pieces(before, split, *sprites, i as int, j as int),
                        decreases n - j,
                    {
                        match shot(world, j) {
                            Some((position, size, velocity)) => {
                                if velocity.0.x <= 0 && size.to_aabr(&position).collides_with_aabr(
                                    player_aabr,
                                ) {
                                    let v: Velocity = redirect(velocity, position, center);
                                    world.slots[j].components.velocity = Some(v);
                                    let parts = world.slots[j].components.split_into;
                                    if split && parts.is_some() {
                                        let sprite: SpriteRef = parts.unwrap().0;
                                        world.slots[j].doomed = true;
                                        pieces.push(
                                            piece(
                                                sprite,
                                                position,
                                                size,
                                                turn(v.0, -FAN_SINE),
                                                sprites,
                                            ),
                                        );
                                        pieces.push(piece(sprite, position, size, v.0, sprites));
                                        pieces.push(
                                            piece(
                                                sprite,
                                                position,
                                                size,
                                                turn(v.0, FAN_SINE),
                                                sprites,
                                            ),
                                        );
                                        proof {
                                            let added = pieces_of(
                                                sprite,
                                                position,
                                                size,
                                                v.0,
                                                *sprites,
                                            );
                                            assert(pieces@ =~= pieces_through(
                                                before,
                                                split,
                                                *sprites,
                                                i as int,
                                            ) + row_pieces(
                                                before,
                                                split,
                                                *sprites,
                                                i as int,
                                                j as int,
                                            ) + added);
                                        }
                                    }
                                }
                            },
                            None => {},
                        }
                        j = j + 1;
                    }
                },
                None => {
                    proof {
                        lemma_row_without_player(before, split, *sprites, i as int, n as int);
                    }
                },
            }
            i = i + 1;
        }
        assert(world.slots@ =~= deflected_slots(before, split));
        world.lazy_spawn_all(pieces);
    }

    /// The slots after the breaches of the projectiles have been resolved,
    /// where lives are being counted.
    pub open spec fn mid_slots(slots: Seq<Slot>, counted: bool) -> Seq<Slot> {
        if counted {
            breached_slots(slots, ComponentKind::Projectile)
        } else {
            slots
        }
    }

    /// The queue after the breaches of the projectiles have been resolved,
    /// where lives are being counted.
    pub open spec fn mid_queue(
        slots: Seq<Slot>,
        queue: Seq<(Entity, Components)>,
        counted: bool,
    ) -> Seq<(Entity, Components)> {
        if counted {
            breached_queue(slots, queue, ComponentKind::Projectile)
        } else {
            queue
        }
    }

    /// Whether `after` and `lives_after` are what this system makes of
    /// `before` and `lives_before`: the breaches of the projectiles have been
    /// resolved, if lives are being counted, and then every projectile has
    /// met every player.
    pub open spec fn effect(
        before: World,
        after: World,
        lives_before: Option<Lives>,
        lives_after: Option<Lives>,
        sprites: Sprites,
        upgrades: Upgrades,
    ) -> bool {
        let mid = ProjectileSystem::mid_slots(before.slots@, lives_before is Some);
        let queue = ProjectileSystem::mid_queue(
            before.slots@,
            before.pending@,
            lives_before is Some,
        );
        let pieces = pieces_through(mid, upgrades.split, sprites, mid.len() as int);
        &&& lives_after == match lives_before {
            Some(l) => Some(
                Lives {
                    amount: after_breaches(
                        l.amount,
                        breaches(
                            before.slots@,
                            ComponentKind::Projectile,
                            before.slots@.len() as int,
                        ),
                    ),
                },
            ),
            None => None,
        }
        &&& after.slots@ == spawned_slots(deflected_slots(mid, upgrades.split), pieces.len() as int)
        &&& after.pending@ == spawned_queue(
            deflected_slots(mid, upgrades.split),
            queue,
            pieces,
            pieces.len() as int,
        )
    }

    /// Resolves the breaches of the projectiles, if lives are being counted,
    /// and then lets every projectile meet every player.
    pub fn run(
        &self,
        world: &mut World,
        lives: &mut Option<Lives>,
        sprites: &Sprites,
        upgrades: &Upgrades,
    )
        ensures
            ProjectileSystem::effect(
                *old(world),
                *final(world),
                *old(lives),
                *final(lives),
                *sprites,
                *upgrades,
            ),
    {
        match lives {
            Some(counted) => {
                resolve_breaches(world, counted, ComponentKind::Projectile);
            },
            None => {},
        }
        ProjectileSystem::deflect(world, sprites, upgrades.split);
    }
}

impl Default for Projectile {
    /// The mark of a projectile.
    fn default() -> (p: Projectile)
        ensures
            p == Projectile,
    {
        Projectile
    }
}

} // verus!
