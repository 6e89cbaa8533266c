//! What is checked and shown about a replayed block.

use vstd::prelude::*;
use crate::bytes::same_bytes;
use crate::header::BlockHeader;

verus! {

/// The state root that a replay arrived at is not the one in the header.
#[derive(Clone, Debug, PartialEq, Eq)]
pub struct StateRootMismatch {
    pub computed: [u8; 32],
    pub header: [u8; 32],
}

/// Compares the state root that a replay arrived at with the one in the header.
pub fn verify_state_root(computed: &[u8; 32], header: &BlockHeader) -> (r: Result<
    (),
    StateRootMismatch,
>)
    ensures
        r is Ok <==> computed@ == header@.state_root,
        r is Ok <==> computed@ == header.state_root@,
        r matches Err(mismatch) ==> mismatch.computed == *computed && mismatch.header
            == header.state_root,
{
    if same_bytes(computed, &header.state_root) {
        Ok(())
    } else {
        Err(StateRootMismatch { computed: *computed, header: header.state_root })
    }
}

/// The lower-case hexadecimal digit for a number below sixteen.
pub open spec fn hex_digit(n: u8) -> char
    recommends
        n < 16,
{
    if n < 10 {
        (0x30 + n) as char
    } else {
        (0x57 + n) as char
    }
}

/// Two lower-case hexadecimal digits for each byte, the high half first.
pub open spec fn hex_digits(bytes: Seq<u8>) -> Seq<char> {
    Seq::new(
        2 * bytes.len(),
        |i: int|
            if i % 2 == 0 {
                hex_digit(bytes[i / 2] / 16)
            } else {
                hex_digit(bytes[i / 2] % 16)
            },
    )
}

/// `hex::encode`: the lower-case hexadecimal digits of the bytes.
#[verifier::external_body]
fn hex_encode(bytes: &[u8]) -> (r: String)
    ensures
        r@ == hex_digits(bytes@),
{
    hex::encode(bytes)
}

/// The hexadecimal digits of a state root.
pub fn root_hex(root: &[u8; 32]) -> (r: String)
    ensures
        r@ == hex_digits(root@),
{
    hex_encode(root)
}

/// Each byte becomes two digits out of `0` to `9` and `a` to `f`, which give the
/// byte back: sixteen times the first digit plus the second.
pub proof fn law_hex_digits(bytes: Seq<u8>, i: int)
    requires
        0 <= i < bytes.len(),
    ensures
        hex_digits(bytes).len() == 2 * bytes.len(),
        ({
            let high = hex_digits(bytes)[2 * i];
            let low = hex_digits(bytes)[2 * i + 1];
            let high_value = if high <= '9' {
                high as int - '0' as int
            } else {
                high as int - 'a' as int + 10
            };
            let low_value = if low <= '9' {
                low as int - '0' as int
            } else {
                low as int - 'a' as int + 10
            };
            &&& '0' <= high <= '9' || 'a' <= high <= 'f'
            &&& '0' <= low <= '9' || 'a' <= low <= 'f'
            &&& bytes[i] == 16 * high_value + low_value
        }),
{
    assert((2 * i) / 2 == i && (2 * i) % 2 == 0);
    assert((2 * i + 1) / 2 == i && (2 * i + 1) % 2 == 1);
}

} // verus!
