//! Numbers in two's complement.

use vstd::prelude::*;

verus! {

/// The two's complement of a signed number, as an unsigned one.
pub open spec fn unsigned_of(n: i32) -> u32 {
    if n < 0 {
        (n + 0x1_0000_0000) as u32
    } else {
        n as u32
    }
}

/// The signed number that an unsigned one is the two's complement of.
pub open spec fn signed_of(n: u32) -> i32 {
    if n >= 0x8000_0000 {
        (n - 0x1_0000_0000) as i32
    } else {
        n as i32
    }
}

/// The signed number that an unsigned one is the two's complement of.
pub fn to_signed(value: u32) -> (signed: i32)
    ensures
        signed == signed_of(value),
{
    if value >= 0x8000_0000 {
        (value as i64 - 0x1_0000_0000) as i32
    } else {
        value as i32
    }
}

/// A number and its two's complement tell each other, differ by a multiple of the range at most,
/// and agree where both are the same number.
pub proof fn law_signs_read_back(signed: i32, unsigned: u32)
    ensures
        signed_of(unsigned_of(signed)) == signed,
        unsigned_of(signed_of(unsigned)) == unsigned,
        (unsigned_of(signed) - signed) % 0x1_0000_0000 == 0,
        signed >= 0 ==> unsigned_of(signed) == signed,
        unsigned < 0x8000_0000 ==> signed_of(unsigned) == unsigned,
{
}

} // verus!
