//! Enemies: their archetypes, the emitter that schedules a wave, and the
//! systems that spawn them, resolve their collisions and count their breaches.
use vstd::prelude::*;
use crate::entity::Lifetime;
use crate::fixed::{
    clamp, lemma_product_bound, negated, plus, product, quot, saturate, times, UNIT,
};
use crate::lives::{
    after_breaches, breached_queue, breached_slots, breaches, resolve_breaches, Lives,
};
use crate::money::{Money, Wallet};
use crate::movement::Zigzag;
use crate::particle::ParticleEmitter;
use crate::phase::{NextPhase, Phase};
use crate::physics::{Aabr, BoundingBox, Position, Vec2, Velocity};
use crate::projectile::{box_of, is_player, is_shot, ProjectileEmitter};
use crate::random::{range, range_of};
use crate::ship::Ships;
use crate::sprite::{RotationFollowsVelocity, Sprite, SpriteRef, Sprites};
use crate::{FIELD_HEIGHT, FIELD_WIDTH};
use crate::world::{
    spawned_queue, spawned_slots, ComponentKind, Components, Entity, Slot, World,
};

verus! {

/// The three kinds of enemy.
#[derive(Debug, Copy, Clone, Eq, PartialEq, Structural)]
pub enum EnemyType {
    Small,
    Medium,
    Big,
}

impl EnemyType {
    /// The archetype that two rolls between zero and one select: a first roll
    /// under a tenth gives a big enemy, else a second roll under a fifth gives a
    /// medium one.
    pub open spec fn of_rolls(first: i64, second: i64) -> EnemyType {
        if first < 100 {
            EnemyType::Big
        } else if second < 200 {
            EnemyType::Medium
        } else {
            EnemyType::Small
        }
    }

    /// The archetype that two draws select: each draw gives a roll between zero
    /// and one.
    pub open spec fn of_draws(first: u32, second: u32) -> EnemyType {
        EnemyType::of_rolls(
            range_of(first, 0, UNIT as int) as i64,
            range_of(second, 0, UNIT as int) as i64,
        )
    }

    /// The size of the archetype's bounding box.
    pub open spec fn extent(self) -> BoundingBox {
        match self {
            EnemyType::Small => BoundingBox(crate::physics::Vec2 { x: 10_000, y: 16_000 }),
            EnemyType::Medium => BoundingBox(crate::physics::Vec2 { x: 13_000, y: 20_000 }),
            EnemyType::Big => BoundingBox(crate::physics::Vec2 { x: 22_000, y: 24_000 }),
        }
    }

    /// The span from which the horizontal speed is drawn.
    pub open spec fn speed_x_span(self) -> (int, int) {
        match self {
            EnemyType::Small => (1_000, 1_500),
            EnemyType::Medium => (300, 500),
            EnemyType::Big => (300, 400),
        }
    }

    /// The span from which the vertical speed is drawn.
    pub open spec fn speed_y_span(self) -> (int, int) {
        match self {
            EnemyType::Small => (-800, 800),
            EnemyType::Medium => (-300, 300),
            EnemyType::Big => (-400, 400),
        }
    }

    /// The span, in seconds, from which the time between two shots is drawn.
    pub open spec fn shoot_interval_span(self) -> (int, int) {
        match self {
            EnemyType::Small => (2_000, 4_000),
            EnemyType::Medium => (800, 1_000),
            EnemyType::Big => (3_000, 4_000),
        }
    }

    /// The span from which the spread of the shots is drawn.
    pub open spec fn shoot_spread_span(self) -> (int, int) {
        match self {
            EnemyType::Small => (0, 200),
            EnemyType::Medium => (600, 800),
            EnemyType::Big => (1_000, 2_000),
        }
    }

    /// The span from which the reward is drawn.
    pub open spec fn money_span(self) -> (int, int) {
        match self {
            EnemyType::Small => (20_000, 30_000),
            EnemyType::Medium => (50_000, 80_000),
            EnemyType::Big => (100_000, 150_000),
        }
    }

    /// How many particles the engine emits.
    pub open spec fn particles(self) -> u8 {
        match self {
            EnemyType::Small => 1,
            EnemyType::Medium => 4,
            EnemyType::Big => 12,
        }
    }

    /// The pause before the archetype enters.
    pub open spec fn rest_before(self) -> i64 {
        match self {
            EnemyType::Small => 0,
            EnemyType::Medium => 30_000,
            EnemyType::Big => 60_000,
        }
    }

    /// The pause after the archetype has entered.
    pub open spec fn rest_after(self) -> i64 {
        match self {
            EnemyType::Small => 0,
            EnemyType::Medium => 180_000,
            EnemyType::Big => 240_000,
        }
    }

    /// The archetype that two rolls between zero and one select.
    pub fn from_rolls(first: i64, second: i64) -> (t: EnemyType)
        ensures
            t == EnemyType::of_rolls(first, second),
    {
        if first < 100 {
            EnemyType::Big
        } else if second < 200 {
            EnemyType::Medium
        } else {
            EnemyType::Small
        }
    }

    /// An archetype drawn at random: one in ten is big, one in five of the rest
    /// is medium, the others are small. The archetype is what the rolls of two
    /// draws select; where the first roll alone decides, no second draw is
    /// made.
    pub fn random() -> (t: EnemyType)
        ensures
            exists|first: u32, second: u32| t == #[trigger] EnemyType::of_draws(first, second),
    {
        let first: i64 = range(0, UNIT);
        let ghost r1 = choose|r: u32| first == range_of(r, 0, UNIT as int);
        if first < 100 {
            let t = EnemyType::from_rolls(first, 0);
            assert(t == EnemyType::of_draws(r1, 0));
            t
        } else {
            let second: i64 = range(0, UNIT);
            let ghost r2 = choose|r: u32| second == range_of(r, 0, UNIT as int);
            let t = EnemyType::from_rolls(first, second);
            assert(t == EnemyType::of_draws(r1, r2));
            t
        }
    }

    /// The archetype's bounding box.
    pub fn bb(self) -> (b: BoundingBox)
        ensures
            b == self.extent(),
            b.wf(),
    {
        match self {
            EnemyType::Small => BoundingBox::new(10_000, 16_000),
            EnemyType::Medium => BoundingBox::new(13_000, 20_000),
            EnemyType::Big => BoundingBox::new(22_000, 24_000),
        }
    }

    /// A sprite for the archetype, drawn at random from the roster.
    pub fn sprite(self, ships: &Ships) -> (s: SpriteRef)
        ensures
            ships.roster(self).contains(s),
    {
        ships.enemy(self)
    }

    /// The sprite, width and height of the archetype's projectile: the small
    /// one for small enemies, the big one for the others.
    pub fn projectile_sprite(self, sprites: &Sprites) -> (r: (SpriteRef, i64, i64))
        ensures
            self == EnemyType::Small ==> r == (
                sprites.small_projectile,
                sprites.small_projectile_width,
                sprites.small_projectile_height,
            ),
            self != EnemyType::Small ==> r == (
                sprites.big_projectile,
                sprites.big_projectile_width,
                sprites.big_projectile_height,
            ),
    {
        match self {
            EnemyType::Small => sprites.small_projectile(),
            _ => sprites.big_projectile(),
        }
    }

    /// A horizontal speed drawn from the archetype's span.
    pub fn speed_x(self) -> (v: i64)
        ensures
            exists|r: u32| v == range_of(r, self.speed_x_span().0, self.speed_x_span().1),
            self.speed_x_span().0 <= v <= self.speed_x_span().1,
    {
        match self {
            EnemyType::Small => {
                let v: i64 = range(1_000, 1_500);
                proof {
                    let r = choose|r: u32| v == range_of(r, 1_000, 1_500);
                    assert(v == range_of(r, self.speed_x_span().0, self.speed_x_span().1));
                }
                v
            },
            EnemyType::Medium => {
                let v: i64 = range(300, 500);
                proof {
                    let r = choose|r: u32| v == range_of(r, 300, 500);
                    assert(v == range_of(r, self.speed_x_span().0, self.speed_x_span().1));
                }
                v
            },
            EnemyType::Big => {
                let v: i64 = range(300, 400);
                proof {
                    let r = choose|r: u32| v == range_of(r, 300, 400);
                    assert(v == range_of(r, self.speed_x_span().0, self.speed_x_span().1));
                }
                v
            },
        }
    }

    /// A vertical speed drawn from the archetype's span.
    pub fn speed_y(self) -> (v: i64)
        ensures
            exists|r: u32| v == range_of(r, self.speed_y_span().0, self.speed_y_span().1),
            self.speed_y_span().0 <= v <= self.speed_y_span().1,
    {
        match self {
            EnemyType::Small => {
                let v: i64 = range(-800, 800);
                proof {
                    let low: int = -800;
                    let r = choose|r: u32| v == range_of(r, low, 800);
                    assert(v == range_of(r, self.speed_y_span().0, self.speed_y_span().1));
                }
                v
            },
            EnemyType::Medium => {
                let v: i64 = range(-300, 300);
                proof {
                    let low: int = -300;
                    let r = choose|r: u32| v == range_of(r, low, 300);
                    assert(v == range_of(r, self.speed_y_span().0, self.speed_y_span().1));
                }
                v
            },
            EnemyType::Big => {
                let v: i64 = range(-400, 400);
                proof {
                    let low: int = -400;
                    let r = choose|r: u32| v == range_of(r, low, 400);
                    assert(v == range_of(r, self.speed_y_span().0, self.speed_y_span().1));
                }
                v
            },
        }
    }

    /// The ticks between two shots: sixty times a number of seconds drawn from
    /// the archetype's span.
    pub fn shoot_interval(self) -> (v: i64)
        ensures
            exists|r: u32|
                v == 60 * range_of(
                    r,
                    self.shoot_interval_span().0,
                    self.shoot_interval_span().1,
                ),
            v % 60 == 0,
            self.shoot_interval_span().0 <= v / 60 <= self.shoot_interval_span().1,
    {
        let seconds: i64 = match self {
            EnemyType::Small => {
                let v: i64 = range(2_000, 4_000);
                proof {
                    let r = choose|r: u32| v == range_of(r, 2_000, 4_000);
                    assert(v == range_of(r, self.shoot_interval_span().0, self.shoot_interval_span().1));
                }
                v
            },
            EnemyType::Medium => {
                let v: i64 = range(800, 1_000);
                proof {
                    let r = choose|r: u32| v == range_of(r, 800, 1_000);
                    assert(v == range_of(r, self.shoot_interval_span().0, self.shoot_interval_span().1));
                }
                v
            },
            EnemyType::Big => {
                let v: i64 = range(3_000, 4_000);
                proof {
                    let r = choose|r: u32| v == range_of(r, 3_000, 4_000);
                    assert(v == range_of(r, self.shoot_interval_span().0, self.shoot_interval_span().1));
                }
                v
            },
        };
        60 * seconds
    }

    /// A spread drawn from the archetype's span.
    pub fn shoot_spread(self) -> (v: i64)
        ensures
            exists|r: u32|
                v == range_of(r, self.shoot_spread_span().0, self.shoot_spread_span().1),
            self.shoot_spread_span().0 <= v <= self.shoot_spread_span().1,
    {
        match self {
            EnemyType::Small => {
                let v: i64 = range(0, 200);
                proof {
                    let r = choose|r: u32| v == range_of(r, 0, 200);
                    assert(v == range_of(r, self.shoot_spread_span().0, self.shoot_spread_span().1));
                }
                v
            },
            EnemyType::Medium => {
                let v: i64 = range(600, 800);
                proof {
                    let r = choose|r: u32| v == range_of(r, 600, 800);
                    assert(v == range_of(r, self.shoot_spread_span().0, self.shoot_spread_span().1));
                }
                v
            },
            EnemyType::Big => {
                let v: i64 = range(1_000, 2_000);
                proof {
                    let r = choose|r: u32| v == range_of(r, 1_000, 2_000);
                    assert(v == range_of(r, self.shoot_spread_span().0, self.shoot_spread_span().1));
                }
                v
            },
        }
    }

    /// The sprite of the pieces into which the archetype's projectile splits:
    /// none for small enemies, the small projectile for the others.
    pub fn shoot_split_into(self, sprites: &Sprites) -> (s: Option<SpriteRef>)
        ensures
            s == if self == EnemyType::Small {
                None
            } else {
                Some(sprites.small_projectile)
            },
    {
        match self {
            EnemyType::Small => None,
            _ => Some(sprites.small_projectile().0),
        }
    }

    /// A reward in whole units, drawn from the archetype's span.
    pub fn money(self) -> (m: usize)
        ensures
            exists|r: u32|
                m == quot(range_of(r, self.money_span().0, self.money_span().1), UNIT as int),
            self.money_span().0 <= m * UNIT <= self.money_span().1,
    {
        let drawn: i64 = match self {
            EnemyType::Small => {
                let v: i64 = range(20_000, 30_000);
                proof {
                    let r = choose|r: u32| v == range_of(r, 20_000, 30_000);
                    assert(v == range_of(r, self.money_span().0, self.money_span().1));
                }
                v
            },
            EnemyType::Medium => {
                let v: i64 = range(50_000, 80_000);
                proof {
                    let r = choose|r: u32| v == range_of(r, 50_000, 80_000);
                    assert(v == range_of(r, self.money_span().0, self.money_span().1));
                }
                v
            },
            EnemyType::Big => {
                let v: i64 = range(100_000, 150_000);
                proof {
                    let r = choose|r: u32| v == range_of(r, 100_000, 150_000);
                    assert(v == range_of(r, self.money_span().0, self.money_span().1));
                }
                v
            },
        };
        (drawn / UNIT) as usize
    }

    /// How many particles the engine emits.
    pub fn particle_amount(self) -> (n: u8)
        ensures
            n == self.particles(),
    {
        match self {
            EnemyType::Small => 1,
            EnemyType::Medium => 4,
            EnemyType::Big => 12,
        }
    }

    /// The pause before the archetype enters.
    pub fn spawn_rest_before(self) -> (t: i64)
        ensures
            t == self.rest_before(),
    {
        match self {
            EnemyType::Small => 0,
            EnemyType::Medium => 30_000,
            EnemyType::Big => 60_000,
        }
    }

    /// The pause after the archetype has entered.
    pub fn spawn_rest_after(self) -> (t: i64)
        ensures
            t == self.rest_after(),
    {
        match self {
            EnemyType::Small => 0,
            EnemyType::Medium => 180_000,
            EnemyType::Big => 240_000,
        }
    }
}

/// Marks an entity as an enemy.
#[derive(Clone, Copy, Debug)]
pub struct Enemy;

/// How many enemies the emitters of the world still hold.
#[derive(Clone, Copy, Debug)]
pub struct EnemiesLeft(pub usize);

/// The time at which the first enemy of a generated level enters.
pub const FIRST_TRIGGER: i64 = 30_000;

/// By how much the spacing of a generated level may vary, each way.
pub const TIME_RANDOM_FACTOR: i64 = 10_000;

/// What was drawn for one enemy of a generated level: its archetype, and by
/// how much the spacing before it is stretched.
#[derive(Debug, Copy, Clone)]
pub struct Pick {
    pub kind: EnemyType,
    pub jitter: i64,
}

/// How many enemies a generated level has: half the square of the level.
pub open spec fn amount_for(level: int) -> int {
    let n = level * level / 2;
    if n > usize::MAX {
        usize::MAX as int
    } else {
        n
    }
}

/// How long a generated level lasts: ten seconds for each level, less five.
pub open spec fn total_time_for(level: int) -> int {
    clamp((level * 10 - 5) * 60_000)
}

/// The time between two enemies of a wave of `amount` enemies that lasts
/// `total`, before any variation.
pub open spec fn spacing_of(total: int, amount: int) -> int {
    if amount == 0 {
        0
    } else {
        quot(total, amount)
    }
}

/// The time between two enemies of a generated level, before any variation.
pub open spec fn spacing_for(level: int) -> int {
    spacing_of(total_time_for(level), amount_for(level))
}

/// Whether the variation of each pick is within bounds.
pub open spec fn bounded_picks(picks: Seq<Pick>) -> bool {
    forall|i: int|
        0 <= i < picks.len() ==> -TIME_RANDOM_FACTOR <= (#[trigger] picks[i]).jitter
            <= TIME_RANDOM_FACTOR
}

/// Whether `picks` can have been drawn for `level`: one for each enemy, each
/// variation within bounds.
pub open spec fn valid_picks(level: int, picks: Seq<Pick>) -> bool {
    picks.len() == amount_for(level) && bounded_picks(picks)
}

/// The pauses that the first `n` picks add up to.
pub open spec fn rest_through(picks: Seq<Pick>, n: int) -> int
    decreases n,
{
    if n <= 0 {
        0
    } else {
        rest_through(picks, n - 1) + picks[n - 1].kind.rest_before() + picks[n
            - 1].kind.rest_after()
    }
}

/// When enemy `i` would enter by spacing, variation and pauses alone.
pub open spec fn raw_trigger(picks: Seq<Pick>, spacing: int, i: int) -> int {
    clamp(
        i * (spacing + picks[i].jitter) + rest_through(picks, i) + picks[i].kind.rest_before(),
    )
}

/// When enemy `i` enters: the first at `FIRST_TRIGGER`, and none before the
/// one ahead of it.
pub open spec fn trigger(picks: Seq<Pick>, spacing: int, i: int) -> int
    decreases i,
{
    if i <= 0 {
        FIRST_TRIGGER as int
    } else {
        let before = trigger(picks, spacing, i - 1);
        let raw = raw_trigger(picks, spacing, i);
        if raw > before {
            raw
        } else {
            before
        }
    }
}

/// The schedule that `picks` give at a spacing.
pub open spec fn planned(picks: Seq<Pick>, spacing: int) -> Seq<(i64, EnemyType)> {
    Seq::new(picks.len(), |i: int| (trigger(picks, spacing, i) as i64, picks[i].kind))
}

/// Whether the trigger times never go down along the schedule.
pub open spec fn ascending(schedule: Seq<(i64, EnemyType)>) -> bool {
    forall|i: int, j: int| 0 <= i <= j < schedule.len() ==> schedule[i].0 <= schedule[j].0
}

/// The schedule and the duration that are laid down by hand: for the escorts
/// of a big enemy (no level), and for the levels one to four.
pub open spec fn fixed_schedule(level: Option<usize>) -> Option<(Seq<(i64, EnemyType)>, i64)> {
    match level {
        None => Some(
            (
                seq![
                    (120_000i64, EnemyType::Small),
                    (210_000i64, EnemyType::Small),
                    (300_000i64, EnemyType::Small),
                    (420_000i64, EnemyType::Small),
                ],
                600_000i64,
            ),
        ),
        Some(n) => if n == 1 {
            Some((seq![(30_000i64, EnemyType::Small)], 300_000i64))
        } else if n == 2 {
            Some(
                (seq![(30_000i64, EnemyType::Small), (120_000i64, EnemyType::Small)], 300_000i64),
            )
        } else if n == 3 {
            Some((seq![(30_000i64, EnemyType::Medium)], 300_000i64))
        } else if n == 4 {
            Some((seq![(30_000i64, EnemyType::Big)], 300_000i64))
        } else {
            None
        },
    }
}

/// The index of the first entry at or after `from` whose time does not lie
/// before `clock`; the number of entries where there is none (and `from`
/// itself where it lies behind the schedule).
pub open spec fn first_pending(schedule: Seq<(i64, EnemyType)>, from: int, clock: i64) -> int
    decreases schedule.len() - from,
{
    if from >= schedule.len() {
        from
    } else if schedule[from].0 >= clock {
        from
    } else {
        first_pending(schedule, from + 1, clock)
    }
}

/// Every entry between `from` and the first pending one lies before `clock`,
/// and the first pending one, if there is one, does not.
pub proof fn lemma_first_pending(schedule: Seq<(i64, EnemyType)>, from: int, clock: i64)
    requires
        0 <= from,
    ensures
        from <= first_pending(schedule, from, clock),
        from <= schedule.len() ==> first_pending(schedule, from, clock) <= schedule.len(),
        from > schedule.len() ==> first_pending(schedule, from, clock) == from,
        forall|k: int|
            from <= k < first_pending(schedule, from, clock) ==> (#[trigger] schedule[k]).0
                < clock,
        first_pending(schedule, from, clock) < schedule.len() ==> schedule[first_pending(
            schedule,
            from,
            clock,
        )].0 >= clock,
    decreases schedule.len() - from,
{
    if from < schedule.len() && schedule[from].0 < clock {
        lemma_first_pending(schedule, from + 1, clock);
    }
}

/// Emits the enemies of one wave, each when its time has come.
///
/// `spawner` is the whole schedule and `next` the index of the first entry
/// that has not been spawned yet: entries leave in order, from the front.
#[derive(Debug)]
pub struct EnemyEmitter {
    pub spawner: Vec<(i64, EnemyType)>,
    pub next: usize,
    pub current_time: i64,
    pub total_time: i64,
}

/// The pauses are never negative, and each enemy adds at most 300 ticks.
proof fn lemma_rest_bounds(picks: Seq<Pick>, n: int)
    requires
        0 <= n <= picks.len(),
    ensures
        0 <= rest_through(picks, n) <= n * 300_000,
    decreases n,
{
    if n > 0 {
        lemma_rest_bounds(picks, n - 1);
    }
}

/// The spacing of a wave fits an `i64`, and so does any multiple of it up to
/// the number of enemies.
proof fn lemma_spacing_product(total: int, amount: int, i: int)
    requires
        i64::MIN <= total <= i64::MAX,
        0 <= i < amount,
    ensures
        i64::MIN <= spacing_of(total, amount) <= i64::MAX,
        i64::MIN <= i * spacing_of(total, amount) <= i64::MAX,
{
    let t = if total >= 0 {
        total
    } else {
        -total
    };
    let s = t / amount;
    assert(0 <= s && s * amount <= t) by (nonlinear_arith)
        requires
            amount > 0,
            t >= 0,
            s == t / amount,
    ;
    assert(0 <= i * s <= s * amount) by (nonlinear_arith)
        requires
            0 <= i < amount,
            0 <= s,
    ;
    if !(total >= 0) {
        assert(i * (-s) == -(i * s)) by (nonlinear_arith);
    }
}

impl EnemyEmitter {
    /// The schedule is in ascending order of time, and `next` lies within it.
    pub open spec fn wf(&self) -> bool {
        &&& ascending(self.spawner@)
        &&& self.next <= self.spawner@.len()
    }

    /// The entries that have not been spawned yet.
    pub open spec fn pending(&self) -> Seq<(i64, EnemyType)> {
        self.spawner@.skip(self.next as int)
    }

    /// Whether this is the emitter that `picks` give for a wave that lasts
    /// `total_time`, before its first tick.
    pub open spec fn scheduled_from(&self, picks: Seq<Pick>, total_time: i64) -> bool {
        &&& self.spawner@ == planned(picks, spacing_of(total_time as int, picks.len() as int))
        &&& self.next == 0
        &&& self.current_time == 0
        &&& self.total_time == total_time
    }

    /// Whether this is the emitter that `picks` give for a generated level,
    /// before its first tick.
    pub open spec fn generated_from(&self, level: usize, picks: Seq<Pick>) -> bool {
        &&& self.spawner@ == planned(picks, spacing_for(level as int))
        &&& self.next == 0
        &&& self.current_time == 0
        &&& self.total_time == total_time_for(level as int)
    }

    /// Whether this is an emitter as `new` makes it for the level: with the
    /// schedule that is laid down by hand, where there is one, and else with
    /// one that is generated from some valid picks.
    pub open spec fn made_for(&self, level: Option<usize>) -> bool {
        &&& self.wf()
        &&& self.next == 0
        &&& self.current_time == 0
        &&& fixed_schedule(level) matches Some(plan) ==> self.spawner@ == plan.0
            && self.total_time == plan.1
        &&& fixed_schedule(level) is None ==> exists|picks: Seq<Pick>|
            valid_picks(level->0 as int, picks) && #[trigger] self.generated_from(level->0, picks)
    }

    /// How many enemies a generated level has.
    pub fn amount(level: usize) -> (n: usize)
        ensures
            n == amount_for(level as int),
    {
        proof {
            lemma_product_bound(
                level as int,
                level as int,
                0xffff_ffff_ffff_ffff,
                0xffff_ffff_ffff_ffff,
            );
        }
        let n: u128 = (level as u128) * (level as u128) / 2;
        if n > usize::MAX as u128 {
            usize::MAX
        } else {
            n as usize
        }
    }

    /// How long a generated level lasts.
    pub fn duration(level: usize) -> (t: i64)
        ensures
            t == total_time_for(level as int),
    {
        saturate((level as i128 * 10 - 5) * 60_000)
    }

    /// The emitter that `picks` give for a wave that lasts `total_time`: the
    /// enemies are spread evenly over that time, each moved by its variation
    /// and by the pauses of the enemies before it; the first enters at
    /// `FIRST_TRIGGER`, and none enters before the one ahead of it.
    pub fn scheduled(picks: &Vec<Pick>, total_time: i64) -> (e: EnemyEmitter)
        requires
            bounded_picks(picks@),
        ensures
            e.scheduled_from(picks@, total_time),
            e.wf(),
    {
        let amount: usize = picks.len();
        let spacing: i64 = if amount == 0 {
            0
        } else {
            (total_time as i128 / amount as i128) as i64
        };
        let mut spawner: Vec<(i64, EnemyType)> = Vec::new();
        let mut rest: i128 = 0;
        let mut previous: i64 = FIRST_TRIGGER;
        for i in 0..amount
            invariant
                amount == picks@.len(),
                bounded_picks(picks@),
                spacing == spacing_of(total_time as int, amount as int),
                spawner@.len() == i,
                forall|j: int|
                    0 <= j < i ==> #[trigger] spawner@[j] == (
                        trigger(picks@, spacing as int, j) as i64,
                        picks@[j].kind,
                    ),
                forall|j: int| 0 <= j < i ==> (#[trigger] spawner@[j]).0 <= previous,
                ascending(spawner@),
                rest == rest_through(picks@, i as int),
                i > 0 ==> previous == trigger(picks@, spacing as int, i - 1),
        {
            let pick: Pick = picks[i];
            proof {
                lemma_rest_bounds(picks@, i as int);
                lemma_spacing_product(total_time as int, amount as int, i as int);
                lemma_product_bound(
                    i as int,
                    pick.jitter as int,
                    0xffff_ffff_ffff_ffff,
                    TIME_RANDOM_FACTOR as int,
                );
                assert(i * (spacing + pick.jitter) == i * spacing + i * pick.jitter)
                    by (nonlinear_arith);
                assert(0 <= i * 300_000 <= 0xffff_ffff_ffff_ffff * 300_000) by (nonlinear_arith)
                    requires
                        0 <= i <= 0xffff_ffff_ffff_ffff,
                ;
            }
            rest = rest + pick.kind.spawn_rest_before() as i128;
            let stretched: i128 = (i as i128) * (spacing as i128)
                + (i as i128) * (pick.jitter as i128);
            let raw: i64 = saturate(stretched + rest);
            let time: i64 = if i == 0 {
                FIRST_TRIGGER
            } else if raw > previous {
                raw
            } else {
                previous
            };
            spawner.push((time, pick.kind));
            previous = time;
            rest = rest + pick.kind.spawn_rest_after() as i128;
        }
        assert(spawner@ =~= planned(picks@, spacing as int));
        EnemyEmitter { spawner, next: 0, current_time: 0, total_time }
    }

    /// The emitter that `picks` give for a generated level.
    pub fn generated(level: usize, picks: &Vec<Pick>) -> (e: EnemyEmitter)
        requires
            valid_picks(level as int, picks@),
        ensures
            e.generated_from(level, picks@),
            e.wf(),
    {
        EnemyEmitter::scheduled(picks, EnemyEmitter::duration(level))
    }

    /// The emitter of a level, or the one that a big enemy carries (no level).
    ///
    /// The escorts of a big enemy and the levels one to four are laid down by
    /// hand. Every other level is generated from picks that are drawn here.
    pub fn new(level: Option<usize>) -> (e: EnemyEmitter)
        ensures
            e.made_for(level),
    {
        let level: usize = match level {
            None => {
                let mut spawner: Vec<(i64, EnemyType)> = Vec::new();
                spawner.push((120_000, EnemyType::Small));
                spawner.push((210_000, EnemyType::Small));
                spawner.push((300_000, EnemyType::Small));
                spawner.push((420_000, EnemyType::Small));
                let ghost plan = fixed_schedule(level)->0;
                assert(spawner@ =~= plan.0);
                return EnemyEmitter { spawner, next: 0, current_time: 0, total_time: 600_000 };
            },
            Some(n) => n,
        };
        if 1 <= level && level <= 4 {
            let mut spawner: Vec<(i64, EnemyType)> = Vec::new();
            if level == 1 {
                spawner.push((30_000, EnemyType::Small));
            } else if level == 2 {
                spawner.push((30_000, EnemyType::Small));
                spawner.push((120_000, EnemyType::Small));
            } else if level == 3 {
                spawner.push((30_000, EnemyType::Medium));
            } else {
                spawner.push((30_000, EnemyType::Big));
            }
            let ghost plan = fixed_schedule(Some(level))->0;
            assert(spawner@ =~= plan.0);
            return EnemyEmitter { spawner, next: 0, current_time: 0, total_time: 300_000 };
        }
        let amount: usize = EnemyEmitter::amount(level);
        let mut picks: Vec<Pick> = Vec::new();
        for i in 0..amount
            invariant
                picks@.len() == i,
                forall|j: int|
                    0 <= j < i ==> -TIME_RANDOM_FACTOR <= (#[trigger] picks@[j]).jitter
                        <= TIME_RANDOM_FACTOR,
        {
            let kind: EnemyType = EnemyType::random();
            let jitter: i64 = range(-TIME_RANDOM_FACTOR, TIME_RANDOM_FACTOR);
            picks.push(Pick { kind, jitter });
        }
        EnemyEmitter::generated(level, &picks)
    }

    /// Draws what is random of one enemy of the archetype. Nothing is drawn
    /// for the place of an enemy that is placed.
    pub fn roll(type_: EnemyType, placed: bool, sprites: &Sprites, ships: &Ships) -> (r: EnemyRoll)
        ensures
            r.valid(type_, *ships),
    {
        let size: BoundingBox = type_.bb();
        let y: i64 = if placed {
            0
        } else {
            range(0, FIELD_HEIGHT - size.0.y)
        };
        let sprite: SpriteRef = type_.sprite(ships);
        let speed_x: i64 = type_.speed_x();
        let speed_y: i64 = type_.speed_y();
        let straight: bool = crate::random::bool();
        let weave: i64 = if straight {
            0
        } else {
            range(1, 200)
        };
        let shot: (SpriteRef, i64, i64) = type_.projectile_sprite(sprites);
        let size: BoundingBox = BoundingBox::new(shot.1, shot.2);
        let gun: ProjectileEmitter = ProjectileEmitter::new(shot.0, size);
        let spread: i64 = type_.shoot_spread();
        let interval: i64 = type_.shoot_interval();
        let gun: ProjectileEmitter = gun.with_interval(interval);
        let money: usize = type_.money();
        EnemyRoll {
            y,
            sprite,
            speed_x,
            speed_y,
            straight,
            weave,
            spread,
            interval,
            elapsed: gun.current_interval,
            money,
        }
    }

    /// The components of a new enemy of the archetype, as a roll makes it.
    pub fn enemy(
        type_: EnemyType,
        place: Option<Position>,
        roll: EnemyRoll,
        carried: Option<EnemyEmitter>,
        sprites: &Sprites,
    ) -> (c: Components)
        ensures
            c == enemy_of(type_, place, roll, carried, *sprites),
    {
        let size: BoundingBox = type_.bb();
        let shot: (SpriteRef, i64, i64) = type_.projectile_sprite(sprites);
        let mut c = Components::empty();
        c.enemy = Some(Enemy);
        c.enemy_emitter = carried;
        c.position = Some(
            match place {
                Some(p) => p,
                None => Position::new(FIELD_WIDTH - ENTRY_MARGIN, roll.y),
            },
        );
        c.sprite = Some(Sprite::new(roll.sprite));
        c.rotation_follows_velocity = Some(RotationFollowsVelocity);
        if roll.straight {
            c.velocity = Some(Velocity::new(negated(roll.speed_x), roll.speed_y));
        } else {
            c.velocity = Some(Velocity::new(negated(roll.speed_x), 0));
            c.zigzag = Some(Zigzag::new(roll.speed_y, roll.weave));
        }
        if roll.speed_x > ENGINE_SPEED {
            c.particle_emitter = Some(
                ParticleEmitter::new(
                    ENEMY_ENGINE_PARTICLE_LIFETIME,
                    sprites.white_particle,
                ).with_amount(type_.particle_amount()).with_dispersion(
                    times(roll.speed_x, 200),
                ).with_offset(size.center_offset()),
            );
        }
        c.projectile_emitter = Some(
            ProjectileEmitter {
                interval: roll.interval,
                current_interval: roll.elapsed,
                speed: plus(roll.speed_x, SHOT_SPEED_GAIN),
                spread: roll.spread,
                sprite: shot.0,
                split_into: type_.shoot_split_into(sprites),
                offset: size.center_offset(),
                size: BoundingBox::new(shot.1, shot.2),
            },
        );
        c.bounding_box = Some(size);
        c.money = Some(Money::new(roll.money));
        c
    }

    /// The components of a new enemy of the archetype, with everything drawn
    /// that is random of it. A big enemy brings the emitter of its escorts.
    pub fn spawn_enemy_with_resource_usage(
        sprites: &Sprites,
        ships: &Ships,
        type_: EnemyType,
        pos: Option<Position>,
    ) -> (c: Components)
        ensures
            spawnable(c, type_, pos, *sprites, *ships),
    {
        let carried: Option<EnemyEmitter> = match type_ {
            EnemyType::Big => Some(EnemyEmitter::new(None)),
            _ => None,
        };
        let roll: EnemyRoll = EnemyEmitter::roll(type_, pos.is_some(), sprites, ships);
        let c = EnemyEmitter::enemy(type_, pos, roll, carried, sprites);
        c
    }

    /// Whether no entry is left to spawn.
    pub open spec fn exhausted(&self) -> bool {
        self.next >= self.spawner@.len()
    }

    /// Whether the emitter has run out: its time is over and no entry is left.
    pub open spec fn expired(&self) -> bool {
        self.current_time >= self.total_time && self.exhausted()
    }

    /// The time after one more tick.
    pub open spec fn ticked_time(&self) -> i64 {
        clamp(self.current_time + UNIT) as i64
    }

    /// The index of the first entry that stays in the schedule in this tick:
    /// every entry from `next` on leaves whose time lies before the time after
    /// the tick, up to the first whose time does not. An emitter that has run
    /// out lets nothing leave.
    pub open spec fn next_after(&self) -> int {
        if self.expired() {
            self.next as int
        } else {
            first_pending(self.spawner@, self.next as int, self.ticked_time())
        }
    }

    /// The archetypes of the entries that leave the schedule in this tick, in
    /// the order of the schedule.
    pub open spec fn popped(&self) -> Seq<EnemyType> {
        Seq::new(
            (self.next_after() - self.next) as nat,
            |k: int| self.spawner@[self.next + k].1,
        )
    }

    /// The emitter after one tick. One that has run out stays as it is. Any
    /// other has its time advanced by a tick and every entry behind it whose
    /// time lies before the new time.
    pub open spec fn ticked(self) -> EnemyEmitter {
        if self.expired() {
            self
        } else {
            EnemyEmitter {
                current_time: self.ticked_time(),
                next: self.next_after() as usize,
                ..self
            }
        }
    }

    /// How many entries are left to spawn.
    pub open spec fn left(&self) -> int {
        if self.exhausted() {
            0
        } else {
            self.spawner@.len() - self.next
        }
    }

    /// Whether the emitter has run out: its time is over and no entry is left.
    pub fn is_expired(&self) -> (b: bool)
        ensures
            b == self.expired(),
    {
        self.current_time >= self.total_time && self.next >= self.spawner.len()
    }

    /// Lets one tick pass, and gives the archetypes of the enemies to spawn in
    /// it: one for each entry whose time lies before the new time, in the
    /// order of the schedule.
    pub fn tick(&mut self) -> (spawn: Vec<EnemyType>)
        ensures
            *final(self) == old(self).ticked(),
            spawn@ == old(self).popped(),
            old(self).wf() ==> final(self).wf(),
    {
        let mut spawn: Vec<EnemyType> = Vec::new();
        if self.is_expired() {
            assert(spawn@ =~= old(self).popped());
            return spawn;
        }
        self.current_time = plus(self.current_time, UNIT);
        proof {
            lemma_first_pending(old(self).spawner@, old(self).next as int, self.current_time);
        }
        while self.next < self.spawner.len() && self.spawner[self.next].0 < self.current_time
            invariant
                self.spawner == old(self).spawner,
                self.total_time == old(self).total_time,
                self.current_time == old(self).ticked_time(),
                old(self).next <= self.next,
                !old(self).expired(),
                first_pending(self.spawner@, self.next as int, self.current_time)
                    == old(self).next_after(),
                spawn@.len() == self.next - old(self).next,
                forall|k: int|
                    0 <= k < spawn@.len() ==> #[trigger] spawn@[k] == self.spawner@[old(self).next
                        + k].1,
            decreases self.spawner@.len() - self.next,
        {
            spawn.push(self.spawner[self.next].1);
            self.next = self.next + 1;
        }
        assert(spawn@ =~= old(self).popped());
        spawn
    }

    /// How many entries are left to spawn.
    pub fn remaining(&self) -> (n: usize)
        ensures
            n == self.left(),
    {
        if self.next >= self.spawner.len() {
            0
        } else {
            self.spawner.len() - self.next
        }
    }

    /// How many enemies are still to come.
    pub fn enemies_left(&self) -> (n: usize)
        ensures
            n == self.left(),
            self.wf() ==> n == self.pending().len(),
    {
        self.remaining()
    }
}

/// A tick keeps the schedule of an emitter in order and its place within it,
/// and lets every entry leave that is due: the entries leave from the front,
/// each entry that leaves lies before the new time, and no entry that stays
/// does.
pub proof fn lemma_tick_in_order(e: EnemyEmitter)
    requires
        e.wf(),
        !e.expired(),
    ensures
        e.ticked().wf(),
        e.ticked().spawner == e.spawner,
        e.ticked().current_time == e.ticked_time(),
        e.next <= e.ticked().next <= e.spawner@.len(),
        e.popped().len() == e.ticked().next - e.next,
        forall|k: int|
            e.next <= k < e.ticked().next ==> (#[trigger] e.spawner@[k]).0 < e.ticked_time(),
        forall|k: int|
            e.ticked().next <= k < e.spawner@.len() ==> (#[trigger] e.spawner@[k]).0
                >= e.ticked_time(),
{
    assert(e.spawner@.len() == e.spawner.len());
    lemma_first_pending(e.spawner@, e.next as int, e.ticked_time());
}

/// Generation is a function of the level and the picks: two emitters made from
/// the same picks for the same level hold the same schedule, entry for entry,
/// and last equally long.
pub proof fn lemma_generation_deterministic(
    level: usize,
    picks: Seq<Pick>,
    a: EnemyEmitter,
    b: EnemyEmitter,
)
    requires
        a.generated_from(level, picks),
        b.generated_from(level, picks),
    ensures
        a.spawner@ == b.spawner@,
        a.pending() == b.pending(),
        a.total_time == b.total_time,
        a.current_time == b.current_time,
{
}

/// How long a particle of the engine of an enemy lives.
pub const ENEMY_ENGINE_PARTICLE_LIFETIME: i64 = 10_000;

/// How far from the right edge of the play area an enemy enters.
pub const ENTRY_MARGIN: i64 = 10_000;

/// The speed above which an enemy is fast enough for its engine to show.
pub const ENGINE_SPEED: i64 = 700;

/// By how much a projectile is faster than the enemy that shoots it.
pub const SHOT_SPEED_GAIN: i64 = 2_000;

/// What is drawn at random for one enemy.
#[derive(Debug, Copy, Clone)]
pub struct EnemyRoll {
    /// How far down the enemy enters, where it is not placed.
    pub y: i64,
    pub sprite: SpriteRef,
    pub speed_x: i64,
    pub speed_y: i64,
    /// Whether the enemy flies straight; otherwise it weaves.
    pub straight: bool,
    /// How fast the weave swings.
    pub weave: i64,
    pub spread: i64,
    pub interval: i64,
    /// How much of the first interval has passed already.
    pub elapsed: i64,
    pub money: usize,
}

impl EnemyRoll {
    /// Whether the roll can have been drawn for an enemy of the archetype.
    pub open spec fn valid(self, type_: EnemyType, ships: Ships) -> bool {
        &&& 0 <= self.y <= FIELD_HEIGHT - type_.extent().0.y
        &&& ships.roster(type_).contains(self.sprite)
        &&& type_.speed_x_span().0 <= self.speed_x <= type_.speed_x_span().1
        &&& type_.speed_y_span().0 <= self.speed_y <= type_.speed_y_span().1
        &&& 0 <= self.weave <= 200
        &&& type_.shoot_spread_span().0 <= self.spread <= type_.shoot_spread_span().1
        &&& self.interval % 60 == 0
        &&& type_.shoot_interval_span().0 <= self.interval / 60 <= type_.shoot_interval_span().1
        &&& 0 <= self.elapsed <= self.interval
        &&& type_.money_span().0 <= self.money * UNIT <= type_.money_span().1
    }
}

/// The emitter of the engine of an enemy, if the enemy is fast enough for one.
pub open spec fn engine_of(type_: EnemyType, speed_x: i64, sprites: Sprites) -> Option<
    ParticleEmitter,
> {
    if speed_x > ENGINE_SPEED {
        Some(
            ParticleEmitter {
                amount: (type_.particles() as i64 * UNIT) as i64,
                lifetime: ENEMY_ENGINE_PARTICLE_LIFETIME,
                dispersion: product(speed_x as int, 200) as i64,
                sprite: sprites.white_particle,
                offset: type_.extent().middle(),
            },
        )
    } else {
        None
    }
}

/// The emitter of the shots of an enemy.
pub open spec fn gun_of(type_: EnemyType, roll: EnemyRoll, sprites: Sprites) -> ProjectileEmitter {
    ProjectileEmitter {
        interval: roll.interval,
        current_interval: roll.elapsed,
        speed: clamp(roll.speed_x + SHOT_SPEED_GAIN) as i64,
        spread: roll.spread,
        sprite: if type_ == EnemyType::Small {
            sprites.small_projectile
        } else {
            sprites.big_projectile
        },
        split_into: if type_ == EnemyType::Small {
            None
        } else {
            Some(sprites.small_projectile)
        },
        offset: type_.extent().middle(),
        size: if type_ == EnemyType::Small {
            BoundingBox(
                Vec2 { x: sprites.small_projectile_width, y: sprites.small_projectile_height },
            )
        } else {
            BoundingBox(Vec2 { x: sprites.big_projectile_width, y: sprites.big_projectile_height })
        },
    }
}

/// The components of a new enemy of the archetype, as a roll makes it.
///
/// A placed enemy starts at its place, any other at the right of the play
/// area, as far down as was drawn. It moves to the left, straight or weaving.
/// `carried` is the emitter of the escorts that a big enemy brings.
pub open spec fn enemy_of(
    type_: EnemyType,
    place: Option<Position>,
    roll: EnemyRoll,
    carried: Option<EnemyEmitter>,
    sprites: Sprites,
) -> Components {
    Components {
        enemy: Some(Enemy),
        enemy_emitter: carried,
        position: Some(
            match place {
                Some(p) => p,
                None => Position(Vec2 { x: (FIELD_WIDTH - ENTRY_MARGIN) as i64, y: roll.y }),
            },
        ),
        sprite: Some(Sprite { reference: roll.sprite, x: 0, y: 0, rotation: 0 }),
        rotation_follows_velocity: Some(RotationFollowsVelocity),
        velocity: Some(
            Velocity(
                Vec2 {
                    x: clamp(-roll.speed_x) as i64,
                    y: if roll.straight {
                        roll.speed_y
                    } else {
                        0
                    },
                },
            ),
        ),
        zigzag: if roll.straight {
            None
        } else {
            Some(Zigzag { time: 0, amount: roll.speed_y, time_div: roll.weave })
        },
        particle_emitter: engine_of(type_, roll.speed_x, sprites),
        projectile_emitter: Some(gun_of(type_, roll, sprites)),
        bounding_box: Some(type_.extent()),
        money: Some(Money { amount: roll.money }),
        ..Components::none()
    }
}

/// Whether `carried` is what an enemy of the archetype brings: a big enemy the
/// emitter of its escorts, before its first tick, any other nothing.
pub open spec fn carries(type_: EnemyType, carried: Option<EnemyEmitter>) -> bool {
    if type_ == EnemyType::Big {
        &&& carried matches Some(e)
        &&& fixed_schedule(None) matches Some(plan)
        &&& e.spawner@ == plan.0
        &&& e.total_time == plan.1
        &&& e.next == 0
        &&& e.current_time == 0
    } else {
        carried is None
    }
}

/// Whether the components are those of a new enemy of the archetype, for
/// some roll.
pub open spec fn spawnable(
    bundle: Components,
    type_: EnemyType,
    place: Option<Position>,
    sprites: Sprites,
    ships: Ships,
) -> bool {
    exists|roll: EnemyRoll, carried: Option<EnemyEmitter>|
        roll.valid(type_, ships) && carries(type_, carried) && bundle == #[trigger] enemy_of(
            type_,
            place,
            roll,
            carried,
            sprites,
        )
}

/// How long a particle of the debris of an enemy lives.
pub const ENEMY_DEAD_PARTICLE_LIFETIME: i64 = 10_000;

/// How long the debris of an enemy goes on emitting.
pub const ENEMY_DEAD_EMITTER_LIFETIME: i64 = 5_000;

/// How fast the debris of an enemy disperses.
pub const ENEMY_DEAD_DISPERSION: i64 = 3_000;

/// Counts the breaches of the enemies, and sees the last enemy go.
pub struct EnemySystem;

impl EnemySystem {
    /// Whether any entity is an enemy.
    pub open spec fn any_enemy(slots: Seq<Slot>) -> bool {
        exists|i: int|
            0 <= i < slots.len() && (#[trigger] slots[i]).alive && slots[i].components.has(
                ComponentKind::Enemy,
            )
    }

    /// The slots after the breaches of the enemies have been resolved, where
    /// lives are being counted.
    pub open spec fn slots_after(slots: Seq<Slot>, counted: bool) -> Seq<Slot> {
        if counted {
            breached_slots(slots, ComponentKind::Enemy)
        } else {
            slots
        }
    }

    /// The queue after the breaches of the enemies have been resolved, where
    /// lives are being counted.
    pub open spec fn queue_after(
        slots: Seq<Slot>,
        queue: Seq<(Entity, Components)>,
        counted: bool,
    ) -> Seq<(Entity, Components)> {
        if counted {
            breached_queue(slots, queue, ComponentKind::Enemy)
        } else {
            queue
        }
    }

    /// Whether `after`, `request_after` and `lives_after` are what this
    /// system makes of `before`, `request_before` and `lives_before` in the
    /// phase: the breaches of the enemies have been resolved, if lives are
    /// being counted, and the setup has been asked for if the game waits for
    /// the last enemy and none is left.
    pub open spec fn effect(
        before: World,
        after: World,
        phase: Phase,
        request_before: Option<NextPhase>,
        request_after: Option<NextPhase>,
        lives_before: Option<Lives>,
        lives_after: Option<Lives>,
    ) -> bool {
        &&& lives_after == match lives_before {
            Some(l) => Some(
                Lives {
                    amount: after_breaches(
                        l.amount,
                        breaches(before.slots@, ComponentKind::Enemy, before.slots@.len() as int),
                    ),
                },
            ),
            None => None,
        }
        &&& after.slots@ == EnemySystem::slots_after(before.slots@, lives_before is Some)
        &&& after.pending@ == EnemySystem::queue_after(
            before.slots@,
            before.pending@,
            lives_before is Some,
        )
        &&& request_after == if phase == Phase::WaitingForLastEnemy && !EnemySystem::any_enemy(
            after.slots@,
        ) {
            Some(NextPhase::Setup)
        } else {
            request_before
        }
    }

    /// Resolves the breaches of the enemies, if lives are being counted: each
    /// enemy that has reached the left edge costs a life, is marked for
    /// deletion and sets off a red flash. Then, while the game waits for the
    /// last enemy and none is left, asks for the setup phase.
    pub fn run(
        &self,
        world: &mut World,
        phase: Phase,
        request: &mut Option<NextPhase>,
        lives: &mut Option<Lives>,
    )
        ensures
            EnemySystem::effect(
                *old(world),
                *final(world),
                phase,
                *old(request),
                *final(request),
                *old(lives),
                *final(lives),
            ),
    {
        match lives {
            Some(counted) => {
                resolve_breaches(world, counted, ComponentKind::Enemy);
            },
            None => {},
        }
        let waiting: bool = match phase {
            Phase::WaitingForLastEnemy => true,
            _ => false,
        };
        if waiting && !world.any(ComponentKind::Enemy) {
            *request = Some(NextPhase::Setup);
        }
    }
}

/// Whether the slot holds an enemy that can be collided with.
pub open spec fn is_enemy(slot: Slot) -> bool {
    &&& slot.alive
    &&& slot.components.enemy is Some
    &&& slot.components.position is Some
    &&& slot.components.bounding_box is Some
}

/// Whether the slot holds what destroys enemies in a pass: the player in the
/// pass of the player, a projectile that moves to the right in the pass of
/// the projectiles.
pub open spec fn is_attacker(slot: Slot, by_player: bool) -> bool {
    if by_player {
        is_player(slot)
    } else {
        is_shot(slot) && crate::projectile::heading(slot) > 0
    }
}

/// Whether the attacker in slot `a` destroys the enemy in slot `e`.
pub open spec fn hits(slots: Seq<Slot>, by_player: bool, a: int, e: int) -> bool {
    &&& is_attacker(slots[a], by_player)
    &&& is_enemy(slots[e])
    &&& box_of(slots[e]).overlaps(box_of(slots[a]))
}

/// Whether an attacker in a slot before `n` destroys the enemy in slot `e`.
pub open spec fn struck(slots: Seq<Slot>, by_player: bool, e: int, n: int) -> bool
    decreases n,
{
    n > 0 && (struck(slots, by_player, e, n - 1) || hits(slots, by_player, n - 1, e))
}

/// Whether the attacker in slot `a` destroys an enemy in a slot before `m`.
pub open spec fn strikes(slots: Seq<Slot>, by_player: bool, a: int, m: int) -> bool
    decreases m,
{
    m > 0 && (strikes(slots, by_player, a, m - 1) || hits(slots, by_player, a, m - 1))
}

/// The reward that the entity of a slot carries.
pub open spec fn bounty(slot: Slot) -> int {
    match slot.components.money {
        Some(m) => m.amount as int,
        None => 0,
    }
}

/// What a wallet holds after rewards that add up to `rewards`: the sum, up to
/// the largest amount that can be counted.
pub open spec fn paid(amount: usize, rewards: int) -> usize {
    if amount + rewards > usize::MAX {
        usize::MAX
    } else {
        (amount + rewards) as usize
    }
}

/// The components of the debris of an enemy: an emitter of particles at the
/// middle of the enemy, for a short time.
pub open spec fn debris_of(sprites: Sprites, center: Vec2, amount: u8) -> Components {
    Components {
        particle_emitter: Some(
            ParticleEmitter {
                amount: (amount as i64 * UNIT) as i64,
                lifetime: ENEMY_DEAD_PARTICLE_LIFETIME,
                dispersion: ENEMY_DEAD_DISPERSION,
                sprite: sprites.white_particle,
                offset: Vec2 { x: 0, y: 0 },
            },
        ),
        position: Some(Position(center)),
        lifetime: Some(Lifetime(ENEMY_DEAD_EMITTER_LIFETIME)),
        ..Components::none()
    }
}

/// How many particles a second the debris of an enemy emits: eight where the
/// player rammed it, four where a projectile destroyed it.
pub open spec fn debris_amount(by_player: bool) -> u8 {
    if by_player {
        8
    } else {
        4
    }
}

/// The rewards of the enemies in the slots before `m` that the attacker in
/// slot `a` destroys.
pub open spec fn row_rewards(slots: Seq<Slot>, by_player: bool, a: int, m: int) -> int
    decreases m,
{
    if m <= 0 {
        0
    } else if hits(slots, by_player, a, m - 1) {
        row_rewards(slots, by_player, a, m - 1) + bounty(slots[m - 1])
    } else {
        row_rewards(slots, by_player, a, m - 1)
    }
}

/// The rewards of all enemies that the attackers in the slots before `n`
/// destroy. An enemy counts once for each attacker that destroys it.
pub open spec fn rewards_through(slots: Seq<Slot>, by_player: bool, n: int) -> int
    decreases n,
{
    if n <= 0 {
        0
    } else {
        rewards_through(slots, by_player, n - 1) + row_rewards(
            slots,
            by_player,
            n - 1,
            slots.len() as int,
        )
    }
}

/// The debris of the enemies in the slots before `m` that the attacker in
/// slot `a` destroys.
pub open spec fn row_debris(
    slots: Seq<Slot>,
    sprites: Sprites,
    by_player: bool,
    a: int,
    m: int,
) -> Seq<Components>
    decreases m,
{
    if m <= 0 {
        Seq::empty()
    } else if hits(slots, by_player, a, m - 1) {
        row_debris(slots, sprites, by_player, a, m - 1).push(
            debris_of(sprites, box_of(slots[m - 1]).middle(), debris_amount(by_player)),
        )
    } else {
        row_debris(slots, sprites, by_player, a, m - 1)
    }
}

/// The debris of all enemies that the attackers in the slots before `n`
/// destroy, attacker by attacker.
pub open spec fn debris_through(slots: Seq<Slot>, sprites: Sprites, by_player: bool, n: int) -> Seq<
    Components,
>
    decreases n,
{
    if n <= 0 {
        Seq::empty()
    } else {
        debris_through(slots, sprites, by_player, n - 1) + row_debris(
            slots,
            sprites,
            by_player,
            n - 1,
            slots.len() as int,
        )
    }
}

/// Slot `j` while a pass is under way: the attackers in the slots before `a`
/// have met every enemy, and the attacker in slot `a` has met the enemies in
/// the slots before `m`.
pub open spec fn marked_slot(slots: Seq<Slot>, by_player: bool, j: int, a: int, m: int) -> Slot {
    Slot {
        doomed: {
            ||| slots[j].doomed
            ||| struck(slots, by_player, j, a)
            ||| (j < m && hits(slots, by_player, a, j))
            ||| (!by_player && j < a && strikes(slots, by_player, j, slots.len() as int))
            ||| (!by_player && j == a && strikes(slots, by_player, j, m))
        },
        ..slots[j]
    }
}

/// Slot `j` after a pass: an enemy that an attacker destroys is marked for
/// deletion, and so is a projectile that destroys an enemy.
pub open spec fn collided_slot(slots: Seq<Slot>, by_player: bool, j: int) -> Slot {
    Slot {
        doomed: {
            ||| slots[j].doomed
            ||| struck(slots, by_player, j, slots.len() as int)
            ||| (!by_player && strikes(slots, by_player, j, slots.len() as int))
        },
        ..slots[j]
    }
}

/// The slots after a pass, before the debris is created.
pub open spec fn collided_slots(slots: Seq<Slot>, by_player: bool) -> Seq<Slot> {
    Seq::new(slots.len(), |j: int| collided_slot(slots, by_player, j))
}

/// The rewards that one attacker earns are never negative.
proof fn lemma_row_rewards_not_negative(slots: Seq<Slot>, by_player: bool, a: int, m: int)
    ensures
        row_rewards(slots, by_player, a, m) >= 0,
    decreases m,
{
    if m > 0 {
        lemma_row_rewards_not_negative(slots, by_player, a, m - 1);
    }
}

/// The rewards of a pass are never negative.
proof fn lemma_rewards_not_negative(slots: Seq<Slot>, by_player: bool, n: int)
    ensures
        rewards_through(slots, by_player, n) >= 0,
    decreases n,
{
    if n > 0 {
        lemma_row_rewards_not_negative(slots, by_player, n - 1, slots.len() as int);
        lemma_rewards_not_negative(slots, by_player, n - 1);
    }
}

/// A slot that holds no attacker destroys nothing and earns nothing.
proof fn lemma_row_without_attacker(
    slots: Seq<Slot>,
    sprites: Sprites,
    by_player: bool,
    a: int,
    m: int,
)
    requires
        !is_attacker(slots[a], by_player),
    ensures
        row_debris(slots, sprites, by_player, a, m) == Seq::<Components>::empty(),
        row_rewards(slots, by_player, a, m) == 0,
        !strikes(slots, by_player, a, m),
    decreases m,
{
    if m > 0 {
        lemma_row_without_attacker(slots, sprites, by_player, a, m - 1);
    }
}

/// The components of the debris of an enemy.
pub fn debris(sprites: &Sprites, center: Vec2, amount: u8) -> (c: Components)
    ensures
        c == debris_of(*sprites, center, amount),
{
    let mut c = Components::empty();
    c.particle_emitter = Some(
        ParticleEmitter::new(ENEMY_DEAD_PARTICLE_LIFETIME, sprites.white_particle).with_dispersion(
            ENEMY_DEAD_DISPERSION,
        ).with_amount(amount),
    );
    c.position = Some(Position::from_vec2(center));
    c.lifetime = Some(Lifetime::new(ENEMY_DEAD_EMITTER_LIFETIME));
    c
}

/// The rectangle of the attacker in slot `a`, if the slot holds one.
fn attacker_box(world: &World, by_player: bool, a: usize) -> (b: Option<Aabr>)
    requires
        a < world.slots@.len(),
    ensures
        b is Some == is_attacker(world.slots@[a as int], by_player),
        b is Some ==> b->0 == box_of(world.slots@[a as int]),
{
    if !world.slots[a].alive {
        return None;
    }
    match (world.slots[a].components.position, world.slots[a].components.bounding_box) {
        (Some(position), Some(size)) => {
            if by_player {
                if world.slots[a].components.player.is_some() {
                    Some(size.to_aabr(&position))
                } else {
                    None
                }
            } else {
                match (world.slots[a].components.projectile, world.slots[a].components.velocity) {
                    (Some(_), Some(velocity)) => {
                        if velocity.0.x > 0 {
                            Some(size.to_aabr(&position))
                        } else {
                            None
                        }
                    },
                    _ => None,
                }
            }
        },
        _ => None,
    }
}

/// The rectangle of the enemy in slot `e`, if the slot holds one.
fn enemy_box(world: &World, e: usize) -> (b: Option<Aabr>)
    requires
        e < world.slots@.len(),
    ensures
        b is Some == is_enemy(world.slots@[e as int]),
        b is Some ==> b->0 == box_of(world.slots@[e as int]),
{
    if world.slots[e].alive && world.slots[e].components.enemy.is_some() {
        match (world.slots[e].components.position, world.slots[e].components.bounding_box) {
            (Some(position), Some(size)) => Some(size.to_aabr(&position)),
            _ => None,
        }
    } else {
        None
    }
}

/// The debris of all enemies that are destroyed in a pass.
pub open spec fn pass_debris(slots: Seq<Slot>, sprites: Sprites, by_player: bool) -> Seq<
    Components,
> {
    debris_through(slots, sprites, by_player, slots.len() as int)
}

/// The slots after a pass: the marks are set, and one entity has been created
/// for each piece of debris.
pub open spec fn pass_slots(slots: Seq<Slot>, sprites: Sprites, by_player: bool) -> Seq<Slot> {
    spawned_slots(
        collided_slots(slots, by_player),
        pass_debris(slots, sprites, by_player).len() as int,
    )
}

/// The queue after a pass: it holds the debris as well.
pub open spec fn pass_queue(
    slots: Seq<Slot>,
    queue: Seq<(Entity, Components)>,
    sprites: Sprites,
    by_player: bool,
) -> Seq<(Entity, Components)> {
    spawned_queue(
        collided_slots(slots, by_player),
        queue,
        pass_debris(slots, sprites, by_player),
        pass_debris(slots, sprites, by_player).len() as int,
    )
}

/// The rewards of all enemies that are destroyed in a pass.
pub open spec fn pass_rewards(slots: Seq<Slot>, by_player: bool) -> int {
    rewards_through(slots, by_player, slots.len() as int)
}

/// Destroys the enemies that the player rams and that projectiles hit.
pub struct EnemyCollisionSystem;

impl EnemyCollisionSystem {
    /// One pass: the pass of the player, or that of the projectiles.
    ///
    /// Every attacker meets every enemy. Where the two overlap, the enemy is
    /// marked for deletion, its reward, if it carries one, is credited to the
    /// wallet, and debris is created at its middle; in the pass of the
    /// projectiles the projectile is marked for deletion too. Only
    /// projectiles that move to the right attack.
    pub fn collide(world: &mut World, wallet: &mut Wallet, sprites: &Sprites, by_player: bool)
        ensures
            final(wallet).amount == paid(
                old(wallet).amount,
                pass_rewards(old(world).slots@, by_player),
            ),
            final(world).slots@ == pass_slots(old(world).slots@, *sprites, by_player),
            final(world).pending@ == pass_queue(
                old(world).slots@,
                old(world).pending@,
                *sprites,
                by_player,
            ),
    {
        let n: usize = world.slots.len();
        let ghost before = old(world).slots@;
        let mut bursts: Vec<Components> = Vec::new();
        let mut a: usize = 0;
        while a < n
            invariant
                n == world.slots@.len(),
                before == old(world).slots@,
                n == before.len(),
                0 <= a <= n,
                world.pending == old(world).pending,
                forall|j: int|
                    0 <= j < n ==> #[trigger] world.slots@[j] == marked_slot(
                        before,
                        by_player,
                        j,
                        a as int,
                        0,
                    ),
                bursts@ == debris_through(before, *sprites, by_player, a as int),
                wallet.amount == paid(
                    old(wallet).amount,
                    rewards_through(before, by_player, a as int),
                ),
            decreases n - a,
        {
            match attacker_box(world, by_player, a) {
                Some(attacker_aabr) => {
                    let mut e: usize = 0;
                    while e < n
                        invariant
                            n == world.slots@.len(),
                            n == before.len(),
                            0 <= a < n,
                            0 <= e <= n,
                            world.pending == old(world).pending,
                            is_attacker(before[a as int], by_player),
                            attacker_aabr == box_of(before[a as int]),
                            forall|j: int|
                                0 <= j < n ==> #[trigger] world.slots@[j] == marked_slot(
                                    before,
                                    by_player,
                                    j,
                                    a as int,
                                    e as int,
                                ),
                            bursts@ == debris_through(before, *sprites, by_player, a as int)
                                + row_debris(before, *sprites, by_player, a as int, e as int),
                            wallet.amount == paid(
                                old(wallet).amount,
                                rewards_through(before, by_player, a as int) + row_rewards(
                                    before,
                                    by_player,
                                    a as int,
                                    e as int,
                                ),
                            ),
                        decreases n - e,
                    {
                        proof {
                            lemma_row_rewards_not_negative(before, by_player, a as int, e as int);
                            lemma_rewards_not_negative(before, by_player, a as int);
                        }
                        match enemy_box(world, e) {
                            Some(enemy_aabr) => {
                                if enemy_aabr.collides_with_aabr(attacker_aabr) {
                                    match world.slots[e].components.money {
                                        Some(money) => {
                                            wallet.add(&money);
                                        },
                                        None => {},
                                    }
                                    bursts.push(
                                        debris(
                                            sprites,
                                            enemy_aabr.center(),
                                            if by_player {
                                                8
                                            } else {
                                                4
                                            },
                                        ),
                                    );
                                    world.slots[e].doomed = true;
                                    if !by_player {
                                        world.slots[a].doomed = true;
                                    }
                                }
                            },
                            None => {},
                        }
                        e = e + 1;
                    }
                },
                None => {
                    proof {
                        lemma_row_without_attacker(before, *sprites, by_player, a as int, n as int);
                    }
                },
            }
            a = a + 1;
        }
        assert(world.slots@ =~= collided_slots(before, by_player));
        world.lazy_spawn_all(bursts);
    }

    /// Whether `after` and `wallet_after` are what this system makes of
    /// `before` and `wallet_before`: the pass of the player, and then the
    /// pass of the projectiles on what the first pass has left.
    pub open spec fn effect(
        before: World,
        after: World,
        wallet_before: Wallet,
        wallet_after: Wallet,
        sprites: Sprites,
    ) -> bool {
        let mid = pass_slots(before.slots@, sprites, true);
        let queue = pass_queue(before.slots@, before.pending@, sprites, true);
        &&& after.slots@ == pass_slots(mid, sprites, false)
        &&& after.pending@ == pass_queue(mid, queue, sprites, false)
        &&& wallet_after.amount == paid(
            paid(wallet_before.amount, pass_rewards(before.slots@, true)),
            pass_rewards(mid, false),
        )
    }

    /// The pass of the player, and then the pass of the projectiles on what
    /// the first pass has left.
    pub fn run(&self, world: &mut World, wallet: &mut Wallet, sprites: &Sprites)
        ensures
            EnemyCollisionSystem::effect(
                *old(world),
                *final(world),
                *old(wallet),
                *final(wallet),
                *sprites,
            ),
    {
        EnemyCollisionSystem::collide(world, wallet, sprites, true);
        EnemyCollisionSystem::collide(world, wallet, sprites, false);
    }
}

/// Whether the slot holds an emitter of enemies.
pub open spec fn holds_emitter(slot: Slot) -> bool {
    slot.alive && slot.components.enemy_emitter is Some
}

/// The emitter of enemies that the slot holds.
pub open spec fn emitter_of(slot: Slot) -> EnemyEmitter {
    slot.components.enemy_emitter->0
}

/// The archetypes of the enemies that the emitter of the slot spawns in this
/// tick, in the order of its schedule; none where the slot holds no emitter.
pub open spec fn popped_of(slot: Slot) -> Seq<EnemyType> {
    if holds_emitter(slot) {
        emitter_of(slot).popped()
    } else {
        Seq::empty()
    }
}

/// A slot after the tick of its emitter, if it holds one. An emitter that has
/// run out is marked for deletion unless it is carried (its entity has a
/// position); any other is ticked.
pub open spec fn emitted_slot(slot: Slot) -> Slot {
    if holds_emitter(slot) {
        if emitter_of(slot).expired() {
            if slot.components.position is None {
                Slot { doomed: true, ..slot }
            } else {
                slot
            }
        } else {
            Slot {
                components: Components {
                    enemy_emitter: Some(emitter_of(slot).ticked()),
                    ..slot.components
                },
                ..slot
            }
        }
    } else {
        slot
    }
}

/// The enemies that the emitter of slot `i` spawns in this tick: the index of
/// the slot with the archetype of each entry that leaves, in the order of the
/// schedule.
pub open spec fn row_entries(slots: Seq<Slot>, i: int) -> Seq<(int, EnemyType)> {
    Seq::new(popped_of(slots[i]).len(), |k: int| (i, popped_of(slots[i])[k]))
}

/// The enemies that the emitters in the slots before `n` spawn in this tick,
/// slot by slot, each as the index of its slot with its archetype.
pub open spec fn due_entries(slots: Seq<Slot>, n: int) -> Seq<(int, EnemyType)>
    decreases n,
{
    if n <= 0 {
        Seq::empty()
    } else {
        due_entries(slots, n - 1) + row_entries(slots, n - 1)
    }
}

/// How many entries the emitters in the slots before `n` have left after
/// this tick.
pub open spec fn left_through(slots: Seq<Slot>, n: int) -> int
    decreases n,
{
    if n <= 0 {
        0
    } else if holds_emitter(slots[n - 1]) {
        left_through(slots, n - 1) + emitter_of(slots[n - 1]).ticked().left()
    } else {
        left_through(slots, n - 1)
    }
}

/// Whether bundle `k` is an enemy for entry `k`: of the archetype of the
/// entry, and placed where the emitter of the entry's slot is, if it is
/// anywhere.
pub open spec fn sourced(
    slots: Seq<Slot>,
    bundles: Seq<Components>,
    entries: Seq<(int, EnemyType)>,
    k: int,
    sprites: Sprites,
    ships: Ships,
) -> bool {
    &&& 0 <= entries[k].0 < slots.len()
    &&& spawnable(
        bundles[k],
        entries[k].1,
        slots[entries[k].0].components.position,
        sprites,
        ships,
    )
}

/// Whether `bundles` are the enemies that the emitters spawn in this tick:
/// one for each entry that leaves a schedule, emitter by emitter in the order
/// of the slots, and for each emitter in the order of its schedule.
pub open spec fn emits(
    slots: Seq<Slot>,
    bundles: Seq<Components>,
    sprites: Sprites,
    ships: Ships,
) -> bool {
    let entries = due_entries(slots, slots.len() as int);
    &&& bundles.len() == entries.len()
    &&& forall|k: int|
        0 <= k < bundles.len() ==> #[trigger] sourced(slots, bundles, entries, k, sprites, ships)
}

/// The number of entries that are left is never negative.
proof fn lemma_left_not_negative(slots: Seq<Slot>, n: int)
    ensures
        left_through(slots, n) >= 0,
    decreases n,
{
    if n > 0 {
        lemma_left_not_negative(slots, n - 1);
    }
}

/// Ticks the emitters of enemies.
pub struct EnemyEmitterSystem;

impl EnemyEmitterSystem {
    /// Whether `after`, `phase_after` and `left_after` are what this system
    /// makes of `before`, `phase_before` and `left_before`.
    pub open spec fn effect(
        before: World,
        after: World,
        sprites: Sprites,
        ships: Option<Ships>,
        phase_before: Phase,
        phase_after: Phase,
        left_before: EnemiesLeft,
        left_after: EnemiesLeft,
    ) -> bool {
        match ships {
            None => {
                &&& after == before
                &&& phase_after == phase_before
                &&& left_after == left_before
            },
            Some(roster) => {
                &&& left_after.0 == paid(0, left_through(before.slots@, before.slots@.len() as int))
                &&& phase_after == if phase_before == Phase::Play && left_after.0 == 0 {
                    Phase::WaitingForLastEnemy
                } else {
                    phase_before
                }
                &&& exists|bundles: Seq<Components>|
                    {
                        &&& #[trigger] emits(before.slots@, bundles, sprites, roster)
                        &&& after.slots@ == spawned_slots(
                            before.slots@.map_values(|s: Slot| emitted_slot(s)),
                            bundles.len() as int,
                        )
                        &&& after.pending@ == spawned_queue(
                            before.slots@.map_values(|s: Slot| emitted_slot(s)),
                            before.pending@,
                            bundles,
                            bundles.len() as int,
                        )
                    }
            },
        }
    }

    /// Adds one new enemy to the bundles for each of the archetypes, in order,
    /// each placed at `place` if that is anywhere.
    pub fn enlist(
        bundles: &mut Vec<Components>,
        spawn: &Vec<EnemyType>,
        place: Option<Position>,
        sprites: &Sprites,
        ships: &Ships,
    )
        ensures
            final(bundles)@.len() == old(bundles)@.len() + spawn@.len(),
            forall|k: int|
                0 <= k < old(bundles)@.len() ==> #[trigger] final(bundles)@[k] == old(bundles)@[k],
            forall|j: int|
                0 <= j < spawn@.len() ==> spawnable(
                    final(bundles)@[old(bundles)@.len() + j],
                    #[trigger] spawn@[j],
                    place,
                    *sprites,
                    *ships,
                ),
    {
        let mut j: usize = 0;
        while j < spawn.len()
            invariant
                0 <= j <= spawn@.len(),
                bundles@.len() == old(bundles)@.len() + j,
                forall|k: int|
                    0 <= k < old(bundles)@.len() ==> #[trigger] bundles@[k] == old(bundles)@[k],
                forall|m: int|
                    0 <= m < j ==> spawnable(
                        bundles@[old(bundles)@.len() + m],
                        #[trigger] spawn@[m],
                        place,
                        *sprites,
                        *ships,
                    ),
            decreases spawn@.len() - j,
        {
            let bundle = EnemyEmitter::spawn_enemy_with_resource_usage(
                sprites,
                ships,
                spawn[j],
                place,
            );
            bundles.push(bundle);
            j = j + 1;
        }
    }

    /// Ticks every emitter of enemies, once the roster of ships is there;
    /// without a roster nothing happens.
    ///
    /// An emitter that has run out is marked for deletion unless it is
    /// carried. Any other is ticked, and for each entry that is due, an enemy
    /// of that archetype is created, at the emitter's place if it has one.
    /// `enemies_left` becomes the number of entries that all emitters have
    /// left. While the phase is `Play` and no entry is left, the phase becomes
    /// `WaitingForLastEnemy`; in no other way does this system change it.
    pub fn run(
        &self,
        world: &mut World,
        sprites: &Sprites,
        ships: &Option<Ships>,
        phase: &mut Phase,
        enemies_left: &mut EnemiesLeft,
    )
        ensures
            EnemyEmitterSystem::effect(
                *old(world),
                *final(world),
                *sprites,
                *ships,
                *old(phase),
                *final(phase),
                *old(enemies_left),
                *final(enemies_left),
            ),
            *final(phase) == Phase::WaitingForLastEnemy ==> *old(phase)
                == Phase::WaitingForLastEnemy || (*old(phase) == Phase::Play && left_through(
                old(world).slots@,
                old(world).slots@.len() as int,
            ) == 0),
            *final(phase) != Phase::WaitingForLastEnemy ==> *final(phase) == *old(phase),
    {
        let roster: &Ships = match ships {
            Some(roster) => roster,
            None => {
                return ;
            },
        };
        let n: usize = world.slots.len();
        let ghost before = old(world).slots@;
        let mut bundles: Vec<Components> = Vec::new();
        let mut left: usize = 0;
        let mut i: usize = 0;
        while i < n
            invariant
                n == world.slots@.len(),
                before == old(world).slots@,
                n == before.len(),
                0 <= i <= n,
                world.pending == old(world).pending,
                forall|j: int| 0 <= j < i ==> #[trigger] world.slots@[j] == emitted_slot(before[j]),
                forall|j: int| i <= j < n ==> #[trigger] world.slots@[j] == before[j],
                bundles@.len() == due_entries(before, i as int).len(),
                forall|k: int|
                    0 <= k < bundles@.len() ==> #[trigger] sourced(
                        before,
                        bundles@,
                        due_entries(before, i as int),
                        k,
                        *sprites,
                        *roster,
                    ),
                left == paid(0, left_through(before, i as int)),
            decreases n - i,
        {
            proof {
                lemma_left_not_negative(before, i as int);
            }
            let ghost entries = due_entries(before, i as int);
            let ghost previous = bundles@;
            if world.slots[i].alive && world.slots[i].components.enemy_emitter.is_some() {
                let place: Option<Position> = world.slots[i].components.position;
                let mut expired: bool = false;
                let mut spawn: Vec<EnemyType> = Vec::new();
                let mut rest: usize = 0;
                match &mut world.slots[i].components.enemy_emitter {
                    Some(emitter) => {
                        expired = emitter.is_expired();
                        spawn = emitter.tick();
                        rest = emitter.remaining();
                    },
                    None => {},
                }
                if expired && place.is_none() {
                    world.slots[i].doomed = true;
                }
                assert(world.slots@[i as int] == emitted_slot(before[i as int]));
                assert(spawn@ == popped_of(before[i as int]));
                left = if rest > usize::MAX - left {
                    usize::MAX
                } else {
                    left + rest
                };
                EnemyEmitterSystem::enlist(&mut bundles, &spawn, place, sprites, roster);
            }
            proof {
                let row = row_entries(before, i as int);
                let longer = due_entries(before, i + 1);
                assert(longer == entries + row);
                assert(bundles@.len() == longer.len());
                assert forall|k: int| 0 <= k < bundles@.len() implies #[trigger] sourced(
                    before,
                    bundles@,
                    longer,
                    k,
                    *sprites,
                    *roster,
                ) by {
                    if k < entries.len() {
                        assert(sourced(before, previous, entries, k, *sprites, *roster));
                        assert(bundles@[k] == previous[k]);
                        assert(longer[k] == entries[k]);
                    } else {
                        let j = k - entries.len();
                        assert(longer[k] == row[j]);
                        assert(row[j] == (i as int, popped_of(before[i as int])[j]));
                    }
                }
            }
            i = i + 1;
        }
        assert(world.slots@ =~= before.map_values(|s: Slot| emitted_slot(s)));
        let ghost spawned = bundles@;
        assert(emits(before, spawned, *sprites, *roster));
        world.lazy_spawn_all(bundles);
        enemies_left.0 = left;
        let playing: bool = match *phase {
            Phase::Play => true,
            _ => false,
        };
        if playing && left == 0 {
            *phase = Phase::WaitingForLastEnemy;
        }
        proof {
            lemma_left_not_negative(before, n as int);
        }
    }
}

impl Default for Enemy {
    /// The mark of an enemy.
    fn default() -> (e: Enemy)
        ensures
            e == Enemy,
    {
        Enemy
    }
}

impl Default for EnemiesLeft {
    /// No enemy left.
    fn default() -> (n: EnemiesLeft)
        ensures
            n.0 == 0,
    {
        EnemiesLeft(0)
    }
}

impl Default for EnemyEmitter {
    /// An emitter without entries and without time.
    fn default() -> (e: EnemyEmitter)
        ensures
            e.spawner@.len() == 0,
            e.next == 0,
            e.current_time == 0,
            e.total_time == 0,
            e.wf(),
    {
        EnemyEmitter { spawner: Vec::new(), next: 0, current_time: 0, total_time: 0 }
    }
}

} // verus!
