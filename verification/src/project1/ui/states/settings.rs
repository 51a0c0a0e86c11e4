use vstd::prelude::*;

verus! {

/// The smallest of three numbers.
pub open spec fn low3(a: int, b: int, c: int) -> int {
    if a <= b && a <= c {
        a
    } else if b <= c {
        b
    } else {
        c
    }
}

/// The largest of three numbers.
pub open spec fn high3(a: int, b: int, c: int) -> int {
    if a >= b && a >= c {
        a
    } else if b >= c {
        b
    } else {
        c
    }
}

/// The middle one of three numbers.
pub open spec fn mid3(a: int, b: int, c: int) -> int {
    a + b + c - low3(a, b, c) - high3(a, b, c)
}

/// The four shares, in percent, that three cut points of `0..=100` make of the segment: up to
/// the lowest cut, between the lowest and the middle one, between the middle and the highest, and
/// from the highest to 100. They are the movement probabilities (up, down, left, right) that
/// random cuts give.
pub fn probability_shares(a: u32, b: u32, c: u32) -> (r: (u32, u32, u32, u32))
    requires
        a <= 100,
        b <= 100,
        c <= 100,
    ensures
        r.0 == low3(a as int, b as int, c as int),
        r.1 == mid3(a as int, b as int, c as int) - low3(a as int, b as int, c as int),
        r.2 == high3(a as int, b as int, c as int) - mid3(a as int, b as int, c as int),
        r.3 == 100 - high3(a as int, b as int, c as int),
        r.0 + r.1 + r.2 + r.3 == 100,
{
    let low = if a <= b && a <= c {
        a
    } else if b <= c {
        b
    } else {
        c
    };
    let high = if a >= b && a >= c {
        a
    } else if b >= c {
        b
    } else {
        c
    };
    let mid = a + b + c - low - high;
    (low, mid - low, high - mid, 100 - high)
}

} // verus!
