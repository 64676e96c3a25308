//! Single atomic operations, modelled by their effect on the cell.
//!
//! A relaxed atomic operation on a shared integer is, at the moment it
//! takes effect, a function from the cell's previous value to its new
//! value and the value handed back.  Each function here states that
//! function exactly; the cell is the `i32` behind the reference.

use vstd::prelude::*;

verus! {

/// Adds ten to the cell, wrapping on overflow, as a fetch-add does.
pub fn fetch_add(x: &mut i32)
    ensures
        *final(x) == vstd::wrapping::i32_specs::wrapping_add(*old(x), 10),
{
    *x = x.wrapping_add(10);
}

/// Sets every bit of ten in the cell and returns the previous value.
pub fn fetch_or(x: &mut i32) -> (prev: i32)
    ensures
        prev == *old(x),
        *final(x) == (*old(x) | 10),
{
    let cur = *x;
    *x = cur | 10;
    cur
}

/// The fetch-or above, written as a compare-exchange retry loop.
/// With the cell's value in hand the exchange cannot lose, so one
/// round settles it; the effect is the same as `fetch_or`.
pub fn fetc_or_manual(x: &mut i32) -> (prev: i32)
    ensures
        prev == *old(x),
        *final(x) == (*old(x) | 10),
{
    let current = *x;
    let new = current | 10;
    *x = new;
    current
}

/// Adds ten with ordinary arithmetic, which must not overflow.
pub fn add_ten(num: &mut i32)
    requires
        *old(num) + 10 <= i32::MAX,
    ensures
        *final(num) == *old(num) + 10,
{
    *num += 10;
}

/// Adds ten atomically, wrapping on overflow, and returns the
/// previous value.
pub fn atomic_add_ten(num: &mut i32) -> (prev: i32)
    ensures
        prev == *old(num),
        *final(num) == vstd::wrapping::i32_specs::wrapping_add(*old(num), 10),
{
    let cur = *num;
    *num = cur.wrapping_add(10);
    cur
}

/// Overwrites the cell with zero.
pub fn store(num: &mut i32)
    ensures
        *final(num) == 0,
{
    *num = 0;
}

/// Overwrites the cell with zero; an atomic store has the same effect.
pub fn atomic_store(num: &mut i32)
    ensures
        *final(num) == 0,
{
    *num = 0;
}

/// Returns the cell's value and leaves it unchanged.
pub fn load(num: &mut i32) -> (value: i32)
    ensures
        value == *old(num),
        *final(num) == *old(num),
{
    *num
}

/// Returns the cell's value.
pub fn atomic_load(num: &i32) -> (value: i32)
    ensures
        value == *num,
{
    *num
}

} // verus!
