//! Plain values that cross the boundary of the library: account addresses
//! and 256-bit amounts.

use vstd::prelude::*;

verus! {

/// An unsigned 256-bit integer, held as 32 bytes in big-endian order.
#[derive(Debug, PartialEq, Eq, Clone, Copy)]
pub struct U256 {
    /// The bytes, most significant first.
    pub bytes: [u8; 32],
}

/// An account identifier of 20 bytes.
#[derive(Debug, PartialEq, Eq, Clone, Copy)]
pub struct Address {
    /// The bytes of the identifier.
    pub bytes: [u8; 20],
}

/// Whether every byte of a sequence is zero.
pub open spec fn all_zero(bytes: Seq<u8>) -> bool {
    forall|i: int| 0 <= i < bytes.len() ==> bytes[i] == 0
}

impl U256 {
    /// Whether the integer is zero.
    pub open spec fn is_zero_spec(&self) -> bool {
        all_zero(self.bytes@)
    }

    /// The integer zero.
    pub fn zero() -> (value: U256)
        ensures
            value.is_zero_spec(),
            value.bytes@ == Seq::new(32, |i: int| 0u8),
    {
        let value = U256 { bytes: [0u8; 32] };
        assert(value.bytes@ =~= Seq::new(32, |i: int| 0u8));
        value
    }

    /// Tests whether the integer is zero.
    #[verifier::when_used_as_spec(is_zero_spec)]
    pub fn is_zero(&self) -> (zero: bool)
        ensures
            zero == self.is_zero_spec(),
    {
        let mut i: usize = 0;
        while i < 32
            invariant
                i <= 32,
                forall|j: int| 0 <= j < i ==> self.bytes@[j] == 0,
            decreases 32 - i,
        {
            if self.bytes[i] != 0 {
                return false;
            }
            i = i + 1;
        }
        true
    }
}

} // verus!
