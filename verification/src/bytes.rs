//! Big-endian byte strings and the natural numbers they stand for.

use vstd::prelude::*;

verus! {

/// The natural number that `s` spells in base 256, most significant byte first.
pub open spec fn be_value(s: Seq<u8>) -> nat
    decreases s.len(),
{
    if s.len() == 0 {
        0
    } else {
        be_value(s.drop_last()) * 256 + s.last() as nat
    }
}

/// The shortest big-endian spelling of `n`; zero is spelled by no bytes at all.
pub open spec fn minimal_be(n: nat) -> Seq<u8>
    decreases n,
{
    if n == 0 {
        Seq::empty()
    } else {
        minimal_be(n / 256).push((n % 256) as u8)
    }
}

/// Spelling a number and reading it back gives the number, and the spelling
/// never starts with a zero byte.
pub proof fn law_minimal_be_roundtrip(n: nat)
    ensures
        be_value(minimal_be(n)) == n,
        minimal_be(n).len() == 0 <==> n == 0,
        n > 0 ==> minimal_be(n)[0] != 0,
    decreases n,
{
    if n > 0 {
        law_minimal_be_roundtrip(n / 256);
        assert(minimal_be(n).drop_last() == minimal_be(n / 256));
        if n / 256 == 0 {
            assert(minimal_be(n / 256).len() == 0);
        }
    }
}

/// A byte string without a leading zero is the minimal spelling of its value.
pub proof fn law_minimal_be_canonical(s: Seq<u8>)
    requires
        s.len() > 0 ==> s[0] != 0,
    ensures
        minimal_be(be_value(s)) == s,
    decreases s.len(),
{
    if s.len() > 0 {
        let init = s.drop_last();
        law_minimal_be_canonical(init);
        if init.len() > 0 {
            lemma_be_value_positive(init);
        }
        let n = be_value(s);
        assert(n / 256 == be_value(init));
        assert((n % 256) as u8 == s.last());
        assert(n > 0);
        assert(init.push(s.last()) == s);
    }
}

/// No byte string with the same value is shorter than the minimal spelling.
pub proof fn law_minimal_be_shortest(s: Seq<u8>)
    ensures
        minimal_be(be_value(s)).len() <= s.len(),
    decreases s.len(),
{
    if s.len() > 0 {
        let init = s.drop_last();
        law_minimal_be_shortest(init);
        let n = be_value(s);
        assert(n / 256 == be_value(init));
    }
}

/// A byte string that starts with a nonzero byte has a positive value.
proof fn lemma_be_value_positive(s: Seq<u8>)
    requires
        s.len() > 0,
        s[0] != 0,
    ensures
        be_value(s) > 0,
    decreases s.len(),
{
    if s.len() > 1 {
        lemma_be_value_positive(s.drop_last());
    }
}

/// Leading zero bytes do not change the value.
pub proof fn lemma_leading_zeros(s: Seq<u8>, start: int)
    requires
        0 <= start <= s.len(),
        forall|i: int| 0 <= i < start ==> s[i] == 0,
    ensures
        be_value(s.skip(start)) == be_value(s),
    decreases s.len(),
{
    if start == s.len() {
        assert(s.skip(start).len() == 0);
        if s.len() > 0 {
            let init = s.drop_last();
            lemma_leading_zeros(init, init.len() as int);
            assert(init.skip(init.len() as int).len() == 0);
        }
    } else {
        let init = s.drop_last();
        lemma_leading_zeros(init, start);
        assert(s.skip(start).drop_last() == init.skip(start));
    }
}

/// A number below 2^64 is spelled in at most eight bytes.
pub proof fn lemma_minimal_be_u64_len(n: nat)
    requires
        n <= u64::MAX,
    ensures
        minimal_be(n).len() <= 8,
{
    reveal_with_fuel(minimal_be, 9);
}

/// The big-endian bytes of `v` without leading zeros, but never empty: zero is
/// the single byte zero.
pub fn minimal_be_bytes(v: u64) -> (r: Vec<u8>)
    ensures
        v > 0 ==> r@ == minimal_be(v as nat),
        v == 0 ==> r@ == seq![0u8],
        be_value(r@) == v,
        v > 0 ==> r@[0] != 0,
        1 <= r@.len() <= 8,
    decreases v,
{
    proof {
        lemma_minimal_be_u64_len(v as nat);
        law_minimal_be_roundtrip(v as nat);
    }
    let low: u8 = (v % 256) as u8;
    let mut out: Vec<u8> = if v < 256 {
        Vec::new()
    } else {
        minimal_be_bytes(v / 256)
    };
    out.push(low);
    proof {
        assert(v == 0 ==> be_value(seq![0u8]) == 0) by {
            assert(seq![0u8].drop_last() == Seq::<u8>::empty());
            assert(be_value(Seq::<u8>::empty()) == 0);
        }
        assert(v < 256 ==> minimal_be(v as nat / 256) == Seq::<u8>::empty());
    }
    out
}

/// Appends a copy of `tail` to `out`.
pub fn append_bytes(out: &mut Vec<u8>, tail: &[u8])
    ensures
        final(out)@ == old(out)@ + tail@,
{
    out.extend_from_slice(tail);
}

/// A copy of `bytes` that owns its storage.
pub fn copy_bytes(bytes: &[u8]) -> (r: Vec<u8>)
    ensures
        r@ == bytes@,
{
    let mut out: Vec<u8> = Vec::new();
    append_bytes(&mut out, bytes);
    out
}

/// Whether two byte strings are the same.
pub fn same_bytes(a: &[u8], b: &[u8]) -> (r: bool)
    ensures
        r == (a@ == b@),
{
    if a.len() != b.len() {
        return false;
    }
    let mut i: usize = 0;
    while i < a.len()
        invariant
            a@.len() == b@.len(),
            i <= a@.len(),
            forall|j: int| 0 <= j < i ==> a@[j] == b@[j],
        decreases a@.len() - i,
    {
        if a[i] != b[i] {
            return false;
        }
        i += 1;
    }
    assert(a@ =~= b@);
    true
}

/// A byte behind the others is the lowest digit in base 256, and no bytes are
/// zero.
pub proof fn law_be_value_digits(s: Seq<u8>, low: u8)
    ensures
        be_value(Seq::empty()) == 0,
        be_value(s.push(low)) == 256 * be_value(s) + low,
{
    assert(s.push(low).drop_last() == s);
}

} // verus!
