//! How many sparks a contact strikes, and how long each one lives.

use vstd::prelude::*;

verus! {

/// A spark lives at least this many steps.
pub const MIN_SPARK_LIFE: u32 = 10;

/// A spark lives at most this many steps.
pub const MAX_SPARK_LIFE: u32 = 100;

/// Sparks struck per step: five for every thirty units of sliding speed,
/// rounded down, and none without contact.
pub open spec fn spark_count_spec(has_contact: bool, speed: nat) -> nat {
    if has_contact {
        (5 * speed) / 30
    } else {
        0
    }
}

/// The number of sparks struck in one step. `speed` is the sliding speed
/// rounded down to a whole number; since thirty is a multiple of five the
/// count is the same as for the exact speed.
pub fn spark_count(has_contact: bool, speed: u32) -> (r: u32)
    ensures
        r == spark_count_spec(has_contact, speed as nat),
        !has_contact ==> r == 0,
        speed == 0 ==> r == 0,
        has_contact && speed == 30 ==> r == 5,
{
    if has_contact {
        let r = speed / 6;
        assert((5 * speed as nat) / 30 == speed as nat / 6) by (nonlinear_arith);
        r
    } else {
        0
    }
}

/// The life of a spark, in steps: `raw` clamped to
/// `[MIN_SPARK_LIFE, MAX_SPARK_LIFE]`. The caller passes the spark's energy
/// measure `0.0005 * |v|^2` rounded down; as both bounds are whole numbers,
/// the clamp of the rounded value is the rounded clamp.
pub fn spark_life(raw: u64) -> (r: u32)
    ensures
        r == if raw < MIN_SPARK_LIFE {
            MIN_SPARK_LIFE as int
        } else if raw > MAX_SPARK_LIFE {
            MAX_SPARK_LIFE as int
        } else {
            raw as int
        },
{
    if raw < MIN_SPARK_LIFE as u64 {
        MIN_SPARK_LIFE
    } else if raw > MAX_SPARK_LIFE as u64 {
        MAX_SPARK_LIFE
    } else {
        raw as u32
    }
}

} // verus!
