//! The sample programs of the language, as ordinary functions. Each one is the
//! meaning that the lowered form of the sample of the same name has to keep.

use vstd::prelude::*;

verus! {

/// A callee with two arguments and no effect.
pub fn foo(a: i32, b: i32) {
}

/// The first odd multiple of seven above `n`.
pub open spec fn tick_stop(n: int) -> int {
    n + 1 + (6 - n) % 14
}

/// Counts up from `n`, skipping the even numbers, and stops at the first
/// multiple of seven that is left. The count must not pass the greatest
/// integer of 32 bits on its way.
pub fn tick(mut n: i32)
    requires
        tick_stop(n as int) <= i32::MAX,
{
    let ghost stop = tick_stop(n as int);
    loop
        invariant_except_break
            n < stop,
        invariant
            n <= stop <= i32::MAX,
            stop % 14 == 7,
        decreases stop - n,
    {
        n += 1;
        if n % 2 == 0 {
            continue;
        }
        if n % 7 == 0 {
            break;
        }
    }
}

/// The variant with a payload: its value is the payload.
pub fn some(val: i32) -> (r: i32)
    ensures
        r == val,
{
    val
}

/// The variant without a payload: its value is zero.
pub fn none() -> (r: i32)
    ensures
        r == 0,
{
    0
}

/// Shifts one left by three and right by one: four.
pub fn __surface() -> (r: i32)
    ensures
        r == 4,
{
    let mut x: i32 = 1;
    x <<= 3;
    assert(x == 8) by (bit_vector)
        requires
            x == 1i32 << 3,
    ;
    x >>= 1;
    assert(x == 4) by (bit_vector)
        requires
            x == 8i32 >> 1,
    ;
    x
}

} // verus!
