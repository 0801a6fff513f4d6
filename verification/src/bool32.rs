//! A boolean carried as a 32-bit word, the way shader interfaces pass
//! flags: `1` for true, `0` for false.

use vstd::prelude::*;

verus! {

/// A word-sized boolean flag.
#[derive(Clone, Copy, PartialEq, Eq, Structural, Debug)]
pub struct Bool32(pub u32);

/// The word is a well-formed flag: exactly `0` or `1`.
pub open spec fn is_flag(b: Bool32) -> bool {
    b.0 == 0 || b.0 == 1
}

impl Bool32 {
    /// The flag for a native boolean.
    pub fn new(b: bool) -> (r: Bool32)
        ensures
            r.0 == if b {
                1u32
            } else {
                0u32
            },
            is_flag(r),
    {
        if b {
            Bool32(1)
        } else {
            Bool32(0)
        }
    }

    /// Bitwise disjunction; on well-formed flags, logical "or".
    pub fn or(self, rhs: Bool32) -> (r: Bool32)
        ensures
            r.0 == (self.0 | rhs.0),
            is_flag(self) && is_flag(rhs) ==> r.0 == if self.0 == 1 || rhs.0 == 1 {
                1u32
            } else {
                0u32
            },
    {
        proof {
            let a = self.0;
            let b = rhs.0;
            assert(((a == 0 || a == 1) && (b == 0 || b == 1)) ==> ((a | b) == if a == 1 || b == 1 {
                1u32
            } else {
                0u32
            })) by (bit_vector);
        }
        Bool32(self.0 | rhs.0)
    }

    /// Bitwise conjunction; on well-formed flags, logical "and".
    pub fn and(self, rhs: Bool32) -> (r: Bool32)
        ensures
            r.0 == (self.0 & rhs.0),
            is_flag(self) && is_flag(rhs) ==> r.0 == if self.0 == 1 && rhs.0 == 1 {
                1u32
            } else {
                0u32
            },
    {
        proof {
            let a = self.0;
            let b = rhs.0;
            assert(((a == 0 || a == 1) && (b == 0 || b == 1)) ==> ((a & b) == if a == 1 && b == 1 {
                1u32
            } else {
                0u32
            })) by (bit_vector);
        }
        Bool32(self.0 & rhs.0)
    }

    /// Flips a well-formed flag.
    pub fn not(self) -> (r: Bool32)
        ensures
            r.0 == (1u32 ^ self.0),
            is_flag(self) ==> r.0 == if self.0 == 1 {
                0u32
            } else {
                1u32
            },
    {
        proof {
            let a = self.0;
            assert((a == 0 || a == 1) ==> ((1u32 ^ a) == if a == 1 {
                0u32
            } else {
                1u32
            })) by (bit_vector);
        }
        Bool32(1 ^ self.0)
    }

    /// The native boolean the flag stands for.
    pub fn as_bool(self) -> (r: bool)
        ensures
            r == (self.0 == 1),
    {
        self.0 == 1
    }
}

} // verus!
