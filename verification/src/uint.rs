//! 256-bit unsigned integers.

use vstd::prelude::*;
use crate::rlp::rlp_encode_bytes;
#[allow(unused_imports)]
use crate::bytes::{be_value, law_minimal_be_canonical, lemma_leading_zeros};
#[allow(unused_imports)]
use crate::rlp::{encode, uint};

verus! {

/// A 256-bit unsigned integer, as four 64-bit limbs with the least significant
/// one first.
#[derive(Clone, Copy, Debug, PartialEq, Eq)]
pub struct U256 {
    pub limbs: [u64; 4],
}

impl View for U256 {
    type V = nat;

    /// The number that the limbs stand for.
    open spec fn view(&self) -> nat {
        (self.limbs@[0] + 0x1_0000_0000_0000_0000 * (self.limbs@[1] + 0x1_0000_0000_0000_0000 * (
        self.limbs@[2] + 0x1_0000_0000_0000_0000 * self.limbs@[3]))) as nat
    }
}

impl U256 {
    /// The same number, 256 bits wide.
    pub fn from_u64(v: u64) -> (r: U256)
        ensures
            r@ == v as nat,
            r.limbs@ == seq![v, 0, 0, 0],
    {
        U256 { limbs: [v, 0, 0, 0] }
    }

    /// Whether the number is zero.
    pub fn is_zero(&self) -> (r: bool)
        ensures
            r == (self@ == 0),
            r == (forall|i: int| 0 <= i < 4 ==> self.limbs@[i] == 0),
    {
        self.limbs[0] == 0 && self.limbs[1] == 0 && self.limbs[2] == 0 && self.limbs[3] == 0
    }

    /// `U256::to_be_bytes` of `alloy_primitives`: all 32 bytes of the number,
    /// most significant byte first.
    #[verifier::external_body]
    pub(crate) fn to_be_bytes(&self) -> (r: [u8; 32])
        ensures
            be_value(r@) == self@,
    {
        alloy_primitives::U256::from_limbs(self.limbs).to_be_bytes()
    }
}

/// Encodes a 256-bit number; zero is the empty byte string.
pub fn rlp_encode_u256(v: &U256) -> (r: Vec<u8>)
    ensures
        r@ == encode(uint(v@)),
{
    let bytes = v.to_be_bytes();
    let mut start: usize = 0;
    while start < 32 && bytes[start] == 0
        invariant
            start <= 32,
            forall|i: int| 0 <= i < start ==> bytes@[i] == 0,
        decreases 32 - start,
    {
        start += 1;
    }
    let trimmed: &[u8] = &bytes[start..32];
    proof {
        assert(trimmed@ == bytes@.skip(start as int));
        lemma_leading_zeros(bytes@, start as int);
        law_minimal_be_canonical(trimmed@);
    }
    rlp_encode_bytes(trimmed)
}

/// The limbs are the digits of the number in base 2^64, the lowest one first.
pub proof fn law_u256_digits(v: U256)
    ensures
        v@ == v.limbs@[0] + 0x1_0000_0000_0000_0000 * v.limbs@[1]
            + 0x1_0000_0000_0000_0000_0000_0000_0000_0000 * v.limbs@[2]
            + 0x1_0000_0000_0000_0000_0000_0000_0000_0000_0000_0000_0000_0000 * v.limbs@[3],
{
}

} // verus!
