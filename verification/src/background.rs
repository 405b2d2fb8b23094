//! The starry background of the play area.
//!
//! The background starts as a dark field of colours. Colours are scattered
//! over it and blurred, twice, and then the field is packed into pixels and
//! the stars are set. The blur is not done here: the field is handed out for
//! it and taken back.
use vstd::prelude::*;
use crate::color::{STAR_BRIGHT, STAR_DIM};

verus! {

/// How many stars are bright.
pub const STARS_BRIGHT: usize = 200;

/// How many stars are dim.
pub const STARS_DIM: usize = 200;

/// How many points are made red at each scattering.
pub const RED_COLORS: usize = 500;

/// How many points are made green at each scattering.
pub const GREEN_COLORS: usize = 100;

/// How many points are made blue at each scattering.
pub const BLUE_COLORS: usize = 200;

/// How many points the play area has.
pub const SIZE: usize = 120_000;

/// How bright each colour of the dark field is.
pub const DARK: u8 = 0x05;

/// The background, one pixel for each point of the play area.
pub struct Background {
    buffer: Vec<u32>,
}

/// The opaque pixel of a colour given as red, green and blue.
pub open spec fn packed(rgb: [u8; 3]) -> u32 {
    (rgb[0] as u32) | ((rgb[1] as u32) << 8) | ((rgb[2] as u32) << 16) | 0xFF00_0000
}

/// Whether a colour of the field after a scattering is what it was, or has
/// one or more of its parts at the full.
pub open spec fn lit(before: [u8; 3], after: [u8; 3]) -> bool {
    &&& after[0] == before[0] || after[0] == 0xFF
    &&& after[1] == before[1] || after[1] == 0xFF
    &&& after[2] == before[2] || after[2] == 0xFF
}

/// Whether a colour of the field is what it was but for one part (0 red, 1
/// green, 2 blue), which is what it was or at the full.
pub open spec fn lit_in(before: [u8; 3], after: [u8; 3], part: int) -> bool {
    &&& lit(before, after)
    &&& part != 0 ==> after[0] == before[0]
    &&& part != 1 ==> after[1] == before[1]
    &&& part != 2 ==> after[2] == before[2]
}

/// The colour with one of its parts (0 red, 1 green, 2 blue) at the full.
pub open spec fn lit_colour(was: [u8; 3], part: int) -> [u8; 3] {
    if part == 0 {
        [0xFFu8, was[1], was[2]]
    } else if part == 1 {
        [was[0], 0xFFu8, was[2]]
    } else {
        [was[0], was[1], 0xFFu8]
    }
}

/// The field with one part of the colour at the full at one point.
pub open spec fn lit_at(field: Seq<[u8; 3]>, part: int, at: int) -> Seq<[u8; 3]> {
    field.update(at, lit_colour(field[at], part))
}

/// The field with one part of the colour at the full at each of the points,
/// taken one after the other.
pub open spec fn lit_all(field: Seq<[u8; 3]>, part: int, points: Seq<int>) -> Seq<[u8; 3]>
    decreases points.len(),
{
    if points.len() == 0 {
        field
    } else {
        lit_at(lit_all(field, part, points.drop_last()), part, points.last())
    }
}

/// Whether `points` are `amount` points of the play area.
pub open spec fn drawn_points(points: Seq<int>, amount: int) -> bool {
    &&& points.len() == amount
    &&& forall|k: int| 0 <= k < points.len() ==> 0 <= #[trigger] points[k] < SIZE
}

/// Whether `after` is `before` with one part of the colour at the full at
/// each of the `amount` points.
pub open spec fn lights(
    before: Seq<[u8; 3]>,
    after: Seq<[u8; 3]>,
    part: int,
    amount: int,
    points: Seq<int>,
) -> bool {
    drawn_points(points, amount) && after == lit_all(before, part, points)
}

/// Whether `after` is `before` with red at the full at each of the points of
/// `reds`, then green at each of those of `greens`, then blue at each of
/// those of `blues`, as many of each as a scattering makes.
pub open spec fn scattered(
    before: Seq<[u8; 3]>,
    after: Seq<[u8; 3]>,
    reds: Seq<int>,
    greens: Seq<int>,
    blues: Seq<int>,
) -> bool {
    &&& drawn_points(reds, RED_COLORS as int)
    &&& drawn_points(greens, GREEN_COLORS as int)
    &&& drawn_points(blues, BLUE_COLORS as int)
    &&& after == lit_all(lit_all(lit_all(before, 0, reds), 1, greens), 2, blues)
}

/// The opaque pixel of a colour given as red, green and blue.
pub fn pack(rgb: [u8; 3]) -> (pixel: u32)
    ensures
        pixel == packed(rgb),
{
    (rgb[0] as u32) | ((rgb[1] as u32) << 8) | ((rgb[2] as u32) << 16) | 0xFF00_0000
}

impl Background {
    #[verifier::type_invariant]
    spec fn inv(self) -> bool {
        self.buffer@.len() == SIZE
    }

    /// The pixels of the background.
    pub closed spec fn pixels(self) -> Seq<u32> {
        self.buffer@
    }

    /// The dark field with which a background starts.
    pub fn field() -> (field: Vec<[u8; 3]>)
        ensures
            field@.len() == SIZE,
            forall|i: int| 0 <= i < SIZE ==> #[trigger] field@[i] == [DARK, DARK, DARK],
    {
        let mut field: Vec<[u8; 3]> = Vec::new();
        let mut i: usize = 0;
        while i < SIZE
            invariant
                0 <= i <= SIZE,
                field@.len() == i,
                forall|j: int| 0 <= j < i ==> #[trigger] field@[j] == [DARK, DARK, DARK],
            decreases SIZE - i,
        {
            field.push([DARK, DARK, DARK]);
            i = i + 1;
        }
        field
    }

    /// Sets one part of the colour (0 red, 1 green, 2 blue) to the full at
    /// one point of the field. Nothing else changes.
    pub fn light_at(field: &mut Vec<[u8; 3]>, part: usize, at: usize)
        requires
            part < 3,
            at < old(field)@.len(),
        ensures
            final(field)@ == lit_at(old(field)@, part as int, at as int),
    {
        let was: [u8; 3] = field[at];
        let now: [u8; 3] = if part == 0 {
            [0xFF, was[1], was[2]]
        } else if part == 1 {
            [was[0], 0xFF, was[2]]
        } else {
            [was[0], was[1], 0xFF]
        };
        field[at] = now;
    }

    /// Sets one part of the colour (0 red, 1 green, 2 blue) to the full at
    /// `amount` points of the field, each drawn at random, one after the
    /// other. A point may be drawn more than once.
    pub fn light(field: &mut Vec<[u8; 3]>, part: usize, amount: usize)
        requires
            old(field)@.len() == SIZE,
            part < 3,
        ensures
            exists|points: Seq<int>| #[trigger]
                lights(old(field)@, final(field)@, part as int, amount as int, points),
            final(field)@.len() == SIZE,
            forall|i: int|
                0 <= i < SIZE ==> lit_in(old(field)@[i], #[trigger] final(field)@[i], part as int),
    {
        let ghost mut points: Seq<int> = Seq::empty();
        let mut k: usize = 0;
        while k < amount
            invariant
                field@.len() == SIZE,
                old(field)@.len() == SIZE,
                part < 3,
                0 <= k <= amount,
                drawn_points(points, k as int),
                field@ == lit_all(old(field)@, part as int, points),
                forall|i: int|
                    0 <= i < SIZE ==> lit_in(old(field)@[i], #[trigger] field@[i], part as int),
            decreases amount - k,
        {
            let at: usize = crate::random::usize(SIZE);
            let ghost before = field@;
            Background::light_at(field, part, at);
            proof {
                let longer = points.push(at as int);
                assert(longer.drop_last() == points);
                assert(field@ == lit_all(old(field)@, part as int, longer));
                assert forall|i: int| 0 <= i < SIZE implies lit_in(
                    old(field)@[i],
                    #[trigger] field@[i],
                    part as int,
                ) by {
                    assert(lit_in(old(field)@[i], before[i], part as int));
                }
                points = longer;
            }
            k = k + 1;
        }
        assert(lights(old(field)@, field@, part as int, amount as int, points));
    }

    /// Scatters colours over the field: red is set to the full at
    /// `RED_COLORS` points drawn at random, then green at `GREEN_COLORS`
    /// points, then blue at `BLUE_COLORS` points.
    pub fn scatter(field: &mut Vec<[u8; 3]>)
        requires
            old(field)@.len() == SIZE,
        ensures
            exists|reds: Seq<int>, greens: Seq<int>, blues: Seq<int>| #[trigger]
                scattered(old(field)@, final(field)@, reds, greens, blues),
            final(field)@.len() == SIZE,
            forall|i: int| 0 <= i < SIZE ==> lit(old(field)@[i], #[trigger] final(field)@[i]),
    {
        Background::light(field, 0, RED_COLORS);
        let ghost red = field@;
        Background::light(field, 1, GREEN_COLORS);
        let ghost green = field@;
        Background::light(field, 2, BLUE_COLORS);
        proof {
            let reds = choose|p: Seq<int>| lights(old(field)@, red, 0, RED_COLORS as int, p);
            let greens = choose|p: Seq<int>| lights(red, green, 1, GREEN_COLORS as int, p);
            let blues = choose|p: Seq<int>| lights(green, field@, 2, BLUE_COLORS as int, p);
            assert(scattered(old(field)@, field@, reds, greens, blues));
            assert forall|i: int| 0 <= i < SIZE implies lit(old(field)@[i], #[trigger] field@[i]) by {
                assert(lit_in(old(field)@[i], red[i], 0));
                assert(lit_in(red[i], green[i], 1));
                assert(lit_in(green[i], field@[i], 2));
            }
        }
    }

    /// The background of a field: each colour is packed into a pixel, and
    /// then bright and dim stars are set at points drawn at random.
    pub fn new(field: &Vec<[u8; 3]>) -> (b: Background)
        requires
            field@.len() == SIZE,
        ensures
            b.pixels().len() == SIZE,
            forall|i: int|
                0 <= i < SIZE ==> {
                    ||| #[trigger] b.pixels()[i] == packed(field@[i])
                    ||| b.pixels()[i] == STAR_BRIGHT
                    ||| b.pixels()[i] == STAR_DIM
                },
    {
        let mut buffer: Vec<u32> = Vec::new();
        let mut i: usize = 0;
        while i < SIZE
            invariant
                0 <= i <= SIZE,
                field@.len() == SIZE,
                buffer@.len() == i,
                forall|j: int| 0 <= j < i ==> #[trigger] buffer@[j] == packed(field@[j]),
            decreases SIZE - i,
        {
            buffer.push(pack(field[i]));
            i = i + 1;
        }
        let mut k: usize = 0;
        while k < STARS_BRIGHT + STARS_DIM
            invariant
                field@.len() == SIZE,
                buffer@.len() == SIZE,
                forall|j: int|
                    0 <= j < SIZE ==> {
                        ||| #[trigger] buffer@[j] == packed(field@[j])
                        ||| buffer@[j] == STAR_BRIGHT
                        ||| buffer@[j] == STAR_DIM
                    },
            decreases STARS_BRIGHT + STARS_DIM - k,
        {
            let at: usize = crate::random::usize(SIZE);
            buffer[at] = if k < STARS_BRIGHT {
                STAR_BRIGHT
            } else {
                STAR_DIM
            };
            k = k + 1;
        }
        Background { buffer }
    }

    /// Copies the background over the first pixels of a frame that is large
    /// enough for it; the pixels behind them stay as they are.
    pub fn copy(&self, buffer: &mut Vec<u32>)
        requires
            old(buffer)@.len() >= SIZE,
        ensures
            final(buffer)@.len() == old(buffer)@.len(),
            forall|i: int| 0 <= i < SIZE ==> #[trigger] final(buffer)@[i] == self.pixels()[i],
            forall|i: int|
                SIZE <= i < final(buffer)@.len() ==> #[trigger] final(buffer)@[i] == old(
                    buffer,
                )@[i],
    {
        proof {
            use_type_invariant(self);
        }
        let mut i: usize = 0;
        while i < SIZE
            invariant
                0 <= i <= SIZE,
                self.buffer@.len() == SIZE,
                buffer@.len() == old(buffer)@.len(),
                buffer@.len() >= SIZE,
                forall|j: int| 0 <= j < i ==> #[trigger] buffer@[j] == self.buffer@[j],
                forall|j: int| i <= j < buffer@.len() ==> #[trigger] buffer@[j] == old(buffer)@[j],
            decreases SIZE - i,
        {
            buffer[i] = self.buffer[i];
            i = i + 1;
        }
    }
}

} // verus!
