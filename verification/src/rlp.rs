//! Recursive length prefix encoding.

use vstd::prelude::*;
use crate::bytes::{append_bytes, minimal_be_bytes};
#[allow(unused_imports)]
use crate::bytes::{be_value, law_minimal_be_roundtrip, lemma_minimal_be_u64_len, minimal_be};

verus! {

/// What an encoding carries: a byte string, or a list of further items.
pub enum Item {
    Str(Seq<u8>),
    List(Seq<Item>),
}

/// The length prefix of a payload of `len` bytes. `offset` is 0x80 for byte
/// strings and 0xc0 for lists.
pub open spec fn prefix(offset: int, len: nat) -> Seq<u8> {
    if len <= 55 {
        seq![(offset + len) as u8]
    } else {
        seq![(offset + 55 + minimal_be(len).len()) as u8] + minimal_be(len)
    }
}

/// The encoding of a byte string: a single byte below 0x80 stands for itself,
/// anything else follows its length prefix.
pub open spec fn encode_str(s: Seq<u8>) -> Seq<u8> {
    if s.len() == 1 && s[0] < 0x80 {
        s
    } else {
        prefix(0x80, s.len()) + s
    }
}

/// The encoding of a list whose items, encoded one after another, are `payload`.
pub open spec fn encode_payload(payload: Seq<u8>) -> Seq<u8> {
    prefix(0xc0, payload.len()) + payload
}

/// The encoding of an item.
pub open spec fn encode(item: Item) -> Seq<u8>
    decreases item,
{
    match item {
        Item::Str(s) => encode_str(s),
        Item::List(items) => encode_payload(encode_all(items)),
    }
}

/// The encodings of `items`, one after another.
pub open spec fn encode_all(items: Seq<Item>) -> Seq<u8>
    decreases items,
{
    if items.len() == 0 {
        Seq::empty()
    } else {
        encode(items[0]) + encode_all(items.drop_first())
    }
}

/// An unsigned number as an item: its shortest big-endian byte string.
pub open spec fn uint(n: nat) -> Item {
    Item::Str(minimal_be(n))
}

/// The byte strings of `parts`, one after another.
pub open spec fn concat(parts: Seq<Vec<u8>>) -> Seq<u8>
    decreases parts.len(),
{
    if parts.len() == 0 {
        Seq::empty()
    } else {
        concat(parts.drop_last()) + parts.last()@
    }
}

/// Whether each part is the encoding of the item at the same place.
pub open spec fn encodes(parts: Seq<Vec<u8>>, items: Seq<Item>) -> bool {
    &&& parts.len() == items.len()
    &&& forall|i: int| 0 <= i < parts.len() ==> (#[trigger] parts[i])@ == encode(items[i])
}

/// An item appended to a list is encoded behind the others.
proof fn lemma_encode_all_push(items: Seq<Item>, last: Item)
    ensures
        encode_all(items.push(last)) == encode_all(items) + encode(last),
    decreases items.len(),
{
    let all = items.push(last);
    if items.len() == 0 {
        assert(all.drop_first() == Seq::<Item>::empty());
        assert(encode_all(all.drop_first()) == Seq::<u8>::empty());
        assert(encode_all(all) == encode(last) + Seq::<u8>::empty());
        assert(encode_all(all) == encode(last));
    } else {
        lemma_encode_all_push(items.drop_first(), last);
        assert(all.drop_first() == items.drop_first().push(last));
        assert(all[0] == items[0]);
        assert(encode_all(all) == encode(items[0]) + (encode_all(items.drop_first()) + encode(last)));
    }
}

/// Parts that encode the items make up the payload of the list of the items.
pub proof fn lemma_concat_encodes(parts: Seq<Vec<u8>>, items: Seq<Item>)
    requires
        encodes(parts, items),
    ensures
        concat(parts) == encode_all(items),
        encode_payload(concat(parts)) == encode(Item::List(items)),
    decreases parts.len(),
{
    if parts.len() > 0 {
        assert forall|i: int| 0 <= i < parts.drop_last().len() implies (
        #[trigger] parts.drop_last()[i])@ == encode(items.drop_last()[i]) by {
            assert(parts[i]@ == encode(items[i]));
        }
        lemma_concat_encodes(parts.drop_last(), items.drop_last());
        lemma_encode_all_push(items.drop_last(), items.last());
        assert(items.drop_last().push(items.last()) == items);
    }
}

/// The first byte of an encoding tells what follows: a byte that stands for
/// itself, a short or long byte string, a short or long list.
pub proof fn lemma_first_byte(item: Item)
    requires
        encode(item).len() <= u64::MAX,
    ensures
        encode(item).len() > 0,
        match item {
            Item::Str(s) => {
                if s.len() == 1 && s[0] < 0x80 {
                    encode(item)[0] == s[0]
                } else if s.len() <= 55 {
                    encode(item)[0] == 0x80 + s.len()
                } else {
                    &&& encode(item)[0] == 0xb7 + minimal_be(s.len()).len()
                    &&& 1 <= minimal_be(s.len()).len() <= 8
                }
            },
            Item::List(items) => {
                let n = encode_all(items).len();
                if n <= 55 {
                    encode(item)[0] == 0xc0 + n
                } else {
                    &&& encode(item)[0] == 0xf7 + minimal_be(n).len()
                    &&& 1 <= minimal_be(n).len() <= 8
                }
            },
        },
{
    match item {
        Item::Str(s) => {
            law_minimal_be_roundtrip(s.len());
            if s.len() > 55 {
                lemma_minimal_be_u64_len(s.len());
            }
        },
        Item::List(items) => {
            let n = encode_all(items).len();
            law_minimal_be_roundtrip(n);
            if n > 55 {
                lemma_minimal_be_u64_len(n);
            }
        },
    }
}

/// Two payloads behind equal length prefixes are equal, and so is what follows.
proof fn lemma_same_payload(offset: int, p: Seq<u8>, q: Seq<u8>, x: Seq<u8>, y: Seq<u8>)
    requires
        0 <= offset <= 0xc0,
        p.len() <= u64::MAX,
        q.len() <= u64::MAX,
        prefix(offset, p.len()) + p + x == prefix(offset, q.len()) + q + y,
    ensures
        p == q,
        x == y,
{
    let m = p.len();
    let n = q.len();
    let all = prefix(offset, m) + p + x;
    law_minimal_be_roundtrip(m);
    law_minimal_be_roundtrip(n);
    lemma_minimal_be_u64_len(m);
    lemma_minimal_be_u64_len(n);
    assert(all[0] == prefix(offset, m)[0]);
    assert(all[0] == prefix(offset, n)[0]);
    if m > 55 && n > 55 {
        let width = minimal_be(m).len() as int;
        assert(width == minimal_be(n).len());
        assert(all.subrange(1, 1 + width) == minimal_be(m));
        assert(all.subrange(1, 1 + width) == minimal_be(n));
    }
    assert(m == n);
    let k = prefix(offset, m).len() as int;
    assert(all.subrange(k, k + m) == p);
    assert(all.subrange(k, k + m) == q);
    assert(all.skip(k + m) == x);
    assert(all.skip(k + m) == y);
}

/// No encoding is the start of another: where two items are encoded with
/// anything behind them and the bytes agree, the items agree and so does what
/// is behind. A reader therefore needs no lengths from elsewhere.
pub proof fn law_prefix_free(a: Item, b: Item, x: Seq<u8>, y: Seq<u8>)
    requires
        encode(a).len() <= u64::MAX,
        encode(b).len() <= u64::MAX,
        encode(a) + x == encode(b) + y,
    ensures
        a == b,
        x == y,
    decreases a,
{
    lemma_first_byte(a);
    lemma_first_byte(b);
    let all = encode(a) + x;
    assert(all[0] == encode(a)[0]);
    assert(all[0] == encode(b)[0]);
    match (a, b) {
        (Item::Str(s), Item::Str(t)) => {
            if s.len() == 1 && s[0] < 0x80 {
                assert(t.len() == 1 && t[0] < 0x80);
                assert(s == t);
                assert(all.skip(1) == x);
                assert(all.skip(1) == y);
            } else {
                assert(!(t.len() == 1 && t[0] < 0x80));
                lemma_same_payload(0x80, s, t, x, y);
            }
        },
        (Item::List(items), Item::List(others)) => {
            lemma_same_payload(0xc0, encode_all(items), encode_all(others), x, y);
            law_list_injective(items, others);
        },
        (Item::Str(s), Item::List(others)) => {
            assert(false);
        },
        (Item::List(items), Item::Str(t)) => {
            assert(false);
        },
    }
}

/// Different lists of items have different payloads.
pub proof fn law_list_injective(items: Seq<Item>, others: Seq<Item>)
    requires
        encode_all(items).len() <= u64::MAX,
        encode_all(items) == encode_all(others),
    ensures
        items == others,
    decreases items,
{
    if items.len() == 0 {
        if others.len() > 0 {
            lemma_first_byte(others[0]);
        }
        assert(items =~= others);
    } else if others.len() == 0 {
        lemma_first_byte(items[0]);
    } else {
        law_prefix_free(
            items[0],
            others[0],
            encode_all(items.drop_first()),
            encode_all(others.drop_first()),
        );
        law_list_injective(items.drop_first(), others.drop_first());
        assert(items =~= seq![items[0]] + items.drop_first());
        assert(others =~= seq![others[0]] + others.drop_first());
    }
}

/// Different items have different encodings.
pub proof fn law_encode_injective(a: Item, b: Item)
    requires
        encode(a).len() <= u64::MAX,
        encode(a) == encode(b),
    ensures
        a == b,
{
    law_prefix_free(a, b, Seq::empty(), Seq::empty());
}

/// Different numbers are different items.
pub proof fn law_uint_injective(m: nat, n: nat)
    requires
        uint(m) == uint(n),
    ensures
        m == n,
{
    law_minimal_be_roundtrip(m);
    law_minimal_be_roundtrip(n);
}

/// Sequences whose elements one map sends to the same values are the same, where
/// the map sends different elements to different values.
pub proof fn lemma_map_injective<A, B>(s: Seq<A>, t: Seq<A>, f: spec_fn(A) -> B)
    requires
        s.map_values(f) == t.map_values(f),
        forall|x: A, y: A| #[trigger] f(x) == #[trigger] f(y) ==> x == y,
    ensures
        s == t,
{
    assert(s.len() == s.map_values(f).len());
    assert(t.len() == t.map_values(f).len());
    assert forall|i: int| 0 <= i < s.len() implies s[i] == t[i] by {
        assert(s.map_values(f)[i] == f(s[i]));
        assert(t.map_values(f)[i] == f(t[i]));
    }
    assert(s =~= t);
}

/// An encoded list is at least as long as each of its encoded items.
pub proof fn lemma_item_len(items: Seq<Item>, i: int)
    requires
        0 <= i < items.len(),
    ensures
        encode(items[i]).len() <= encode_all(items).len(),
        encode(items[i]).len() <= encode(Item::List(items)).len(),
    decreases items.len(),
{
    if i > 0 {
        lemma_item_len(items.drop_first(), i - 1);
        assert(items.drop_first()[i - 1] == items[i]);
    }
}

/// Encodes a byte string.
pub fn rlp_encode_bytes(bytes: &[u8]) -> (r: Vec<u8>)
    ensures
        r@ == encode(Item::Str(bytes@)),
{
    let mut out: Vec<u8> = Vec::new();
    let len: usize = bytes.len();
    if len == 1 && bytes[0] < 0x80 {
        out.push(bytes[0]);
        assert(out@ == bytes@);
        return out;
    }
    if len <= 55 {
        out.push(0x80 + len as u8);
        append_bytes(&mut out, bytes);
        return out;
    }
    let len_bytes = minimal_be_bytes(len as u64);
    out.push(0xb7 + len_bytes.len() as u8);
    append_bytes(&mut out, len_bytes.as_slice());
    append_bytes(&mut out, bytes);
    assert(out@ == prefix(0x80, bytes@.len()) + bytes@);
    out
}

/// Encodes a list whose items are encoded already.
pub fn rlp_encode_list(items: &[Vec<u8>]) -> (r: Vec<u8>)
    ensures
        r@ == encode_payload(concat(items@)),
{
    let mut payload: Vec<u8> = Vec::new();
    let mut i: usize = 0;
    while i < items.len()
        invariant
            i <= items@.len(),
            payload@ == concat(items@.take(i as int)),
        decreases items@.len() - i,
    {
        append_bytes(&mut payload, items[i].as_slice());
        assert(items@.take(i + 1).drop_last() == items@.take(i as int));
        i += 1;
    }
    assert(items@.take(i as int) == items@);
    let total: usize = payload.len();
    let mut out: Vec<u8> = Vec::new();
    if total <= 55 {
        out.push(0xc0 + total as u8);
    } else {
        let len_bytes = minimal_be_bytes(total as u64);
        out.push(0xf7 + len_bytes.len() as u8);
        append_bytes(&mut out, len_bytes.as_slice());
    }
    assert(out@ == prefix(0xc0, payload@.len()));
    append_bytes(&mut out, payload.as_slice());
    out
}

/// Encodes an unsigned number; zero is the empty byte string.
pub fn rlp_encode_u64(v: u64) -> (r: Vec<u8>)
    ensures
        r@ == encode(uint(v as nat)),
{
    if v == 0 {
        assert(minimal_be(0) == Seq::<u8>::empty());
        let none: Vec<u8> = Vec::new();
        return rlp_encode_bytes(none.as_slice());
    }
    rlp_encode_bytes(minimal_be_bytes(v).as_slice())
}

/// Whether an item is a byte string that spells `n`, most significant byte first
/// and without a leading zero.
pub open spec fn spells(item: Item, n: nat) -> bool {
    match item {
        Item::Str(s) => be_value(s) == n && (s.len() > 0 ==> s[0] != 0),
        Item::List(_) => false,
    }
}

/// What it means to spell a number: the bytes, read in base 256, are the number,
/// and the first of them is not zero. A list spells nothing.
pub proof fn law_spells(s: Seq<u8>, items: Seq<Item>, n: nat)
    ensures
        spells(Item::Str(s), n) <==> be_value(s) == n && (s.len() == 0 || s[0] > 0),
        !spells(Item::List(items), n),
{
}

/// The item of a number spells that number.
pub proof fn law_uint_spells(n: nat)
    ensures
        spells(uint(n), n),
{
    law_minimal_be_roundtrip(n);
}

/// A byte below 0x80 is its own encoding. Any other byte string of up to 55 bytes
/// follows one byte, 0x80 plus its length. A longer one follows its length in
/// base 256, without a leading zero, and that follows 0xb7 plus the number of
/// bytes that the length takes.
pub proof fn law_encode_string(s: Seq<u8>)
    requires
        s.len() <= u64::MAX,
    ensures
        s.len() == 1 && s[0] < 0x80 ==> encode(Item::Str(s)) == s,
        s.len() == 1 && s[0] >= 0x80 ==> encode(Item::Str(s)) == seq![0x81u8, s[0]],
        s.len() <= 55 && s.len() != 1 ==> encode(Item::Str(s)) == seq![(0x80 + s.len()) as u8] + s,
        s.len() > 55 ==> {
            let bytes = encode(Item::Str(s));
            let width = bytes[0] - 0xb7;
            &&& 1 <= width <= 8
            &&& bytes.len() == 1 + width + s.len()
            &&& bytes[1] != 0
            &&& be_value(bytes.subrange(1, 1 + width)) == s.len()
            &&& bytes.skip(1 + width) == s
        },
{
    if s.len() == 1 && s[0] >= 0x80 {
        assert(encode(Item::Str(s)) =~= seq![0x81u8, s[0]]);
    }
    if s.len() > 55 {
        lemma_long_prefix(0x80, s);
    }
}

/// A list whose items take up to 55 bytes together follows one byte, 0xc0 plus
/// that length. A longer one follows the length in base 256, without a leading
/// zero, and that follows 0xf7 plus the number of bytes that the length takes.
pub proof fn law_encode_payload(payload: Seq<u8>)
    requires
        payload.len() <= u64::MAX,
    ensures
        payload.len() <= 55 ==> encode_payload(payload) == seq![(0xc0 + payload.len()) as u8]
            + payload,
        payload.len() > 55 ==> {
            let bytes = encode_payload(payload);
            let width = bytes[0] - 0xf7;
            &&& 1 <= width <= 8
            &&& bytes.len() == 1 + width + payload.len()
            &&& bytes[1] != 0
            &&& be_value(bytes.subrange(1, 1 + width)) == payload.len()
            &&& bytes.skip(1 + width) == payload
        },
{
    if payload.len() > 55 {
        lemma_long_prefix(0xc0, payload);
    }
}

/// A long prefix carries the length of what follows.
proof fn lemma_long_prefix(offset: int, s: Seq<u8>)
    requires
        offset == 0x80 || offset == 0xc0,
        55 < s.len() <= u64::MAX,
    ensures
        ({
            let bytes = prefix(offset, s.len()) + s;
            let width = bytes[0] - offset - 55;
            &&& 1 <= width <= 8
            &&& bytes.len() == 1 + width + s.len()
            &&& bytes[1] != 0
            &&& be_value(bytes.subrange(1, 1 + width)) == s.len()
            &&& bytes.skip(1 + width) == s
        }),
{
    let digits = minimal_be(s.len());
    law_minimal_be_roundtrip(s.len());
    lemma_minimal_be_u64_len(s.len());
    let bytes = prefix(offset, s.len()) + s;
    let width = digits.len() as int;
    assert(bytes[0] == offset + 55 + width);
    assert(bytes.subrange(1, 1 + width) == digits);
    assert(bytes[1] == digits[0]);
    assert(bytes.skip(1 + width) == s);
}

/// The encoding of a list is that of a payload in which the encoded items stand
/// one after another, the first one first.
pub proof fn law_encode_list(items: Seq<Item>, last: Item)
    ensures
        encode(Item::List(items)) == encode_payload(encode_all(items)),
        encode_all(Seq::empty()) == Seq::<u8>::empty(),
        encode_all(items.push(last)) == encode_all(items) + encode(last),
{
    lemma_encode_all_push(items, last);
}

/// Parts are put together in their order.
pub proof fn law_concat(parts: Seq<Vec<u8>>, last: Vec<u8>)
    ensures
        concat(Seq::empty()) == Seq::<u8>::empty(),
        concat(parts.push(last)) == concat(parts) + last@,
{
    assert(parts.push(last).drop_last() == parts);
}

} // verus!
