//! Real numbers as ranks.
//!
//! The tracer decides by comparing reals and never by their digits, so a real
//! is held here as its rank: a signed integer that orders as the real does.
//! The rank of a binary64 number is its magnitude bits, read as an integer and
//! negated where the sign bit is set. Both zeros have rank 0, the rank of `-x`
//! is the negated rank of `x`, and of two numbers the smaller has the smaller
//! rank. A NaN ranks outside the two infinities; callers that may meet one
//! decide beforehand what stands in for it.

use vstd::prelude::*;

verus! {

/// The rank of 0.
pub const ZERO: i64 = 0;

/// The rank of 1: sign 0, exponent 1023, mantissa 0.
pub const ONE: i64 = 0x3FF0_0000_0000_0000;

/// The rank of -1.
pub const NEG_ONE: i64 = -0x3FF0_0000_0000_0000;

/// The rank of the machine epsilon, 2 to the power -52.
pub const EPSILON: i64 = 0x3CB0_0000_0000_0000;

/// The rank of positive infinity.
pub const INFINITY: i64 = 0x7FF0_0000_0000_0000;

/// The rank of negative infinity.
pub const NEG_INFINITY: i64 = -0x7FF0_0000_0000_0000;

/// The sign bit of a binary64 bit pattern.
pub const SIGN_BIT: u64 = 0x8000_0000_0000_0000;

/// Whether a rank stands for a number, one of the infinities included. The
/// ranks beyond the infinities are those of the bit patterns that stand for
/// no number.
pub open spec fn is_number(rank: int) -> bool {
    NEG_INFINITY <= rank <= INFINITY
}

/// The rank that a binary64 bit pattern stands for.
pub open spec fn rank(bits: u64) -> int {
    if bits >= SIGN_BIT {
        -(bits - SIGN_BIT)
    } else {
        bits as int
    }
}

/// The bit pattern of the number with the given rank; of the two zeros, the
/// positive one.
pub open spec fn pattern(rank: int) -> int {
    if rank < 0 {
        SIGN_BIT - rank
    } else {
        rank
    }
}

/// Reads a bit pattern as a rank.
pub fn rank_of_bits(bits: u64) -> (r: i64)
    ensures
        r == rank(bits),
        -0x7FFF_FFFF_FFFF_FFFF <= r <= 0x7FFF_FFFF_FFFF_FFFF,
{
    if bits >= SIGN_BIT {
        let magnitude: u64 = bits - SIGN_BIT;
        -(magnitude as i64)
    } else {
        bits as i64
    }
}

/// Writes a rank as a bit pattern. The one integer that is no rank, the
/// least `i64`, is written as negative zero.
pub fn bits_of_rank(rank: i64) -> (bits: u64)
    ensures
        rank > i64::MIN ==> bits == pattern(rank as int),
        rank == i64::MIN ==> bits == SIGN_BIT,
{
    if rank == i64::MIN {
        SIGN_BIT
    } else if rank < 0 {
        let magnitude: i64 = -rank;
        SIGN_BIT + (magnitude as u64)
    } else {
        rank as u64
    }
}

/// Reads a bit pattern as a rank, and a pattern that stands for no number as
/// the greatest rank there is: so read, what is no number is never small
/// enough.
pub fn rank_above(bits: u64) -> (r: i64)
    ensures
        is_number(rank(bits)) ==> r == rank(bits),
        !is_number(rank(bits)) ==> r == i64::MAX,
{
    let r: i64 = rank_of_bits(bits);
    if r > INFINITY || r < NEG_INFINITY {
        i64::MAX
    } else {
        r
    }
}

/// Reads a bit pattern as a rank, and a pattern that stands for no number as
/// the least rank there is: so read, what is no number is never large
/// enough.
pub fn rank_below(bits: u64) -> (r: i64)
    ensures
        is_number(rank(bits)) ==> r == rank(bits),
        !is_number(rank(bits)) ==> r == -i64::MAX,
{
    let r: i64 = rank_of_bits(bits);
    if r > INFINITY || r < NEG_INFINITY {
        -i64::MAX
    } else {
        r
    }
}

/// The magnitude of a rank: the rank of the absolute value.
pub open spec fn magnitude(rank: int) -> int {
    if rank < 0 {
        -rank
    } else {
        rank
    }
}

/// The rank of the absolute value, as an unsigned number so that every
/// `i64` has one.
pub fn abs(rank: i64) -> (m: u64)
    ensures
        m == magnitude(rank as int),
{
    if rank == i64::MIN {
        SIGN_BIT
    } else if rank < 0 {
        let negated: i64 = -rank;
        negated as u64
    } else {
        rank as u64
    }
}

/// The smaller of two ranks.
pub open spec fn min_rank(a: int, b: int) -> int {
    if a <= b {
        a
    } else {
        b
    }
}

/// The larger of two ranks.
pub open spec fn max_rank(a: int, b: int) -> int {
    if a >= b {
        a
    } else {
        b
    }
}

pub fn min(a: i64, b: i64) -> (r: i64)
    ensures
        r == min_rank(a as int, b as int),
{
    if a <= b {
        a
    } else {
        b
    }
}

pub fn max(a: i64, b: i64) -> (r: i64)
    ensures
        r == max_rank(a as int, b as int),
{
    if a >= b {
        a
    } else {
        b
    }
}

/// A pattern read as a rank and written back is the same pattern, but for
/// negative zero, which comes back as positive zero.
pub proof fn lemma_pattern_of_rank(bits: u64)
    ensures
        bits != SIGN_BIT ==> pattern(rank(bits)) == bits,
        bits == SIGN_BIT ==> pattern(rank(bits)) == 0,
{
}

/// A rank written as a pattern and read back is the same rank.
pub proof fn lemma_rank_of_pattern(r: i64)
    requires
        r > i64::MIN,
    ensures
        0 <= pattern(r as int) <= u64::MAX,
        rank(pattern(r as int) as u64) == r,
{
}

/// Flipping the sign bit negates the rank.
pub proof fn lemma_rank_negates(bits: u64)
    ensures
        bits < SIGN_BIT ==> rank((bits + SIGN_BIT) as u64) == -rank(bits),
        bits >= SIGN_BIT ==> rank((bits - SIGN_BIT) as u64) == -rank(bits),
{
}

} // verus!
