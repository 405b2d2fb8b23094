//! Random draws.
//!
//! Each draw comes from the process-wide generator of `quad_rand`. What is made
//! of a draw is a function of the draw alone, so every `*_from` function here
//! can be checked on chosen values.
use vstd::prelude::*;
use crate::fixed::quot;

verus! {

/// The next number of the process-wide generator, by `quad_rand::rand`.
///
/// Nothing is claimed of the number: it may be any `u32`.
#[verifier::external_body]
fn draw() -> (r: u32) {
    quad_rand::rand()
}

/// The point of the span from `min` to `max` that the draw `r` selects: `min`
/// for the least draw, `max` for the greatest.
pub open spec fn range_of(r: u32, min: int, max: int) -> int {
    min + quot((max - min) * r, u32::MAX as int)
}

/// Whether `v` lies between the two ends, whichever of them is the lower one.
pub open spec fn between(v: int, a: int, b: int) -> bool {
    &&& a <= b ==> a <= v <= b
    &&& b <= a ==> b <= v <= a
}

/// The number below `max` that the draw `r` selects.
pub open spec fn usize_of(r: u32, max: int) -> int {
    let step = (u32::MAX as int) / max;
    if (r as int) / step < max - 1 {
        (r as int) / step
    } else {
        max - 1
    }
}

/// Whether the draw `r` lies in the upper half.
pub open spec fn bool_of(r: u32) -> bool {
    r > u32::MAX / 2
}

/// The point that a draw selects lies between the ends of the span.
proof fn lemma_range_between(r: u32, min: int, max: int)
    by (nonlinear_arith)
    requires
        i64::MIN <= min <= i64::MAX,
        i64::MIN <= max <= i64::MAX,
    ensures
        min <= max ==> min <= range_of(r, min, max) <= max,
        max <= min ==> max <= range_of(r, min, max) <= min,
        -0x1_0000_0000_0000_0000_0000_0000 <= (max - min) * r <= 0x1_0000_0000_0000_0000_0000_0000,
{
}

/// The point of the span from `min` to `max` that the draw `r` selects.
pub fn range_from(r: u32, min: i64, max: i64) -> (v: i64)
    ensures
        v == range_of(r, min as int, max as int),
        min <= max ==> min <= v <= max,
        max <= min ==> max <= v <= min,
{
    proof {
        lemma_range_between(r, min as int, max as int);
    }
    let span: i128 = max as i128 - min as i128;
    let wide: i128 = span * (r as i128);
    let v: i128 = min as i128 + wide / (u32::MAX as i128);
    v as i64
}

/// A random point of the span from `min` to `max`, both ends included.
pub fn range(min: i64, max: i64) -> (v: i64)
    ensures
        exists|r: u32| v == range_of(r, min as int, max as int),
        between(v as int, min as int, max as int),
        min <= max ==> min <= v <= max,
        max <= min ==> max <= v <= min,
{
    let r: u32 = draw();
    range_from(r, min, max)
}

/// The number below `max` that the draw `r` selects.
pub fn usize_from(r: u32, max: usize) -> (v: usize)
    requires
        0 < max <= u32::MAX,
    ensures
        v == usize_of(r, max as int),
        v < max,
{
    let step: usize = (u32::MAX as usize) / max;
    assert(step >= 1) by (nonlinear_arith)
        requires
            0 < max <= 0xffff_ffff,
            step == 0xffff_ffffint / (max as int),
    ;
    let v: usize = (r as usize) / step;
    if v < max - 1 {
        v
    } else {
        max - 1
    }
}

/// A random number below `max`.
pub fn usize(max: usize) -> (v: usize)
    requires
        0 < max <= u32::MAX,
    ensures
        exists|r: u32| v == usize_of(r, max as int),
        v < max,
{
    let r: u32 = draw();
    usize_from(r, max)
}

/// Whether the draw `r` lies in the upper half.
pub fn bool_from(r: u32) -> (b: bool)
    ensures
        b == bool_of(r),
{
    r > u32::MAX / 2
}

/// A random truth value: what a draw selects.
pub fn bool() -> (b: bool)
    ensures
        exists|r: u32| b == bool_of(r),
{
    let r: u32 = draw();
    bool_from(r)
}

/// A random element of a vector that is not empty.
pub fn index<T>(v: &Vec<T>) -> (e: &T)
    requires
        0 < v.len() <= u32::MAX,
    ensures
        exists|r: u32| *e == #[trigger] v@[usize_of(r, v.len() as int)],
        v@.contains(*e),
{
    let r: u32 = draw();
    let i: usize = usize_from(r, v.len());
    &v[i]
}

} // verus!
