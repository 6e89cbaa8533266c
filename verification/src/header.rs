//! Block headers.

use vstd::prelude::*;
use alloy_consensus::Header;
use alloy_primitives::{B256, Uint};
use crate::uint::U256;
#[allow(unused_imports)]
use crate::rlp::{encode, law_encode_injective, law_uint_injective, uint, Item};

verus! {

/// A block header.
#[derive(Clone, Debug, PartialEq, Eq)]
pub struct BlockHeader {
    pub parent_hash: [u8; 32],
    pub ommers_hash: [u8; 32],
    pub beneficiary: [u8; 20],
    pub state_root: [u8; 32],
    pub transactions_root: [u8; 32],
    pub receipts_root: [u8; 32],
    pub logs_bloom: [u8; 256],
    pub difficulty: U256,
    pub number: u64,
    pub gas_limit: u64,
    pub gas_used: u64,
    pub timestamp: u64,
    pub extra_data: Vec<u8>,
    pub mix_hash: [u8; 32],
    pub nonce: [u8; 8],
    pub base_fee_per_gas: Option<u64>,
    pub withdrawals_root: Option<[u8; 32]>,
    pub blob_gas_used: Option<u64>,
    pub excess_blob_gas: Option<u64>,
    pub parent_beacon_block_root: Option<[u8; 32]>,
    pub requests_hash: Option<[u8; 32]>,
}

/// What a block header says.
pub struct HeaderModel {
    pub parent_hash: Seq<u8>,
    pub ommers_hash: Seq<u8>,
    pub beneficiary: Seq<u8>,
    pub state_root: Seq<u8>,
    pub transactions_root: Seq<u8>,
    pub receipts_root: Seq<u8>,
    pub logs_bloom: Seq<u8>,
    pub difficulty: nat,
    pub number: u64,
    pub gas_limit: u64,
    pub gas_used: u64,
    pub timestamp: u64,
    pub extra_data: Seq<u8>,
    pub mix_hash: Seq<u8>,
    pub nonce: Seq<u8>,
    pub base_fee_per_gas: Option<u64>,
    pub withdrawals_root: Option<Seq<u8>>,
    pub blob_gas_used: Option<u64>,
    pub excess_blob_gas: Option<u64>,
    pub parent_beacon_block_root: Option<Seq<u8>>,
    pub requests_hash: Option<Seq<u8>>,
}

/// The bytes of an optional hash.
pub open spec fn optional_bytes(hash: Option<[u8; 32]>) -> Option<Seq<u8>> {
    match hash {
        Some(bytes) => Some(bytes@),
        None => None,
    }
}

impl View for BlockHeader {
    type V = HeaderModel;

    open spec fn view(&self) -> HeaderModel {
        HeaderModel {
            parent_hash: self.parent_hash@,
            ommers_hash: self.ommers_hash@,
            beneficiary: self.beneficiary@,
            state_root: self.state_root@,
            transactions_root: self.transactions_root@,
            receipts_root: self.receipts_root@,
            logs_bloom: self.logs_bloom@,
            difficulty: self.difficulty@,
            number: self.number,
            gas_limit: self.gas_limit,
            gas_used: self.gas_used,
            timestamp: self.timestamp,
            extra_data: self.extra_data@,
            mix_hash: self.mix_hash@,
            nonce: self.nonce@,
            base_fee_per_gas: self.base_fee_per_gas,
            withdrawals_root: optional_bytes(self.withdrawals_root),
            blob_gas_used: self.blob_gas_used,
            excess_blob_gas: self.excess_blob_gas,
            parent_beacon_block_root: optional_bytes(self.parent_beacon_block_root),
            requests_hash: optional_bytes(self.requests_hash),
        }
    }
}

/// A number as an item, where there is one.
pub open spec fn number_where_present(n: Option<u64>) -> Seq<Item> {
    match n {
        Some(n) => seq![uint(n as nat)],
        None => Seq::empty(),
    }
}

/// A hash as an item, where there is one.
pub open spec fn hash_where_present(hash: Option<Seq<u8>>) -> Seq<Item> {
    match hash {
        Some(hash) => seq![Item::Str(hash)],
        None => Seq::empty(),
    }
}

/// The fields that every header has, in the order in which it is encoded.
pub open spec fn basic_items(header: HeaderModel) -> Seq<Item> {
    seq![
        Item::Str(header.parent_hash),
        Item::Str(header.ommers_hash),
        Item::Str(header.beneficiary),
        Item::Str(header.state_root),
        Item::Str(header.transactions_root),
        Item::Str(header.receipts_root),
        Item::Str(header.logs_bloom),
        uint(header.difficulty),
        uint(header.number as nat),
        uint(header.gas_limit as nat),
        uint(header.gas_used as nat),
        uint(header.timestamp as nat),
        Item::Str(header.extra_data),
        Item::Str(header.mix_hash),
        Item::Str(header.nonce),
    ]
}

/// The fields that forks have added, as far as they are present, in the order
/// in which the forks added them.
pub open spec fn fork_items(header: HeaderModel) -> Seq<Item> {
    number_where_present(header.base_fee_per_gas) + hash_where_present(header.withdrawals_root)
        + number_where_present(header.blob_gas_used) + number_where_present(header.excess_blob_gas)
        + hash_where_present(header.parent_beacon_block_root) + hash_where_present(
        header.requests_hash,
    )
}

/// The fields of a header, in the order in which it is encoded.
pub open spec fn header_items(header: HeaderModel) -> Seq<Item> {
    basic_items(header) + fork_items(header)
}

/// The canonical RLP encoding of a header: the list of its fields.
pub open spec fn header_rlp(header: HeaderModel) -> Seq<u8> {
    encode(Item::List(header_items(header)))
}

/// `Encodable::encode` for `Header`, of `alloy_consensus`: the canonical RLP
/// encoding of the header, a list of the basic fields followed by those fields
/// of later forks that are present.
#[verifier::external_body]
pub(crate) fn encode_header(header: &BlockHeader) -> (r: Vec<u8>)
    ensures
        r@ == encode(Item::List(header_items(header@))),
{
    let BlockHeader { parent_hash, ommers_hash, beneficiary, state_root, transactions_root,
        receipts_root, logs_bloom, difficulty, number, gas_limit, gas_used, timestamp, extra_data,
        mix_hash, nonce, base_fee_per_gas, withdrawals_root, blob_gas_used, excess_blob_gas,
        parent_beacon_block_root, requests_hash } = header.clone();
    alloy_rlp::encode(Header { number, gas_limit, gas_used, timestamp, base_fee_per_gas,
        blob_gas_used, excess_blob_gas, parent_hash: parent_hash.into(),
        ommers_hash: ommers_hash.into(), beneficiary: beneficiary.into(),
        state_root: state_root.into(), transactions_root: transactions_root.into(),
        receipts_root: receipts_root.into(), logs_bloom: logs_bloom.into(),
        difficulty: Uint::from_limbs(difficulty.limbs), extra_data: extra_data.into(),
        mix_hash: mix_hash.into(), nonce: nonce.into(),
        withdrawals_root: withdrawals_root.map(B256::from),
        parent_beacon_block_root: parent_beacon_block_root.map(B256::from),
        requests_hash: requests_hash.map(B256::from) })
}

/// What `keccak256` of `alloy_primitives` returns for a byte string.
pub uninterp spec fn keccak256(bytes: Seq<u8>) -> Seq<u8>;

/// The block hash: the Keccak-256 hash of the header's encoding.
pub open spec fn header_hash(header: HeaderModel) -> Seq<u8> {
    keccak256(header_rlp(header))
}

/// `Header::hash_slow` of `alloy_consensus`: the Keccak-256 hash of the header's
/// canonical encoding. Of the hash function itself nothing is said but that the
/// bytes determine it.
#[verifier::external_body]
pub(crate) fn hash_header(header: &BlockHeader) -> (r: [u8; 32])
    ensures
        r@ == keccak256(header_rlp(header@)),
{
    let BlockHeader { parent_hash, ommers_hash, beneficiary, state_root, transactions_root,
        receipts_root, logs_bloom, difficulty, number, gas_limit, gas_used, timestamp, extra_data,
        mix_hash, nonce, base_fee_per_gas, withdrawals_root, blob_gas_used, excess_blob_gas,
        parent_beacon_block_root, requests_hash } = header.clone();
    Header { number, gas_limit, gas_used, timestamp, base_fee_per_gas,
        blob_gas_used, excess_blob_gas, parent_hash: parent_hash.into(),
        ommers_hash: ommers_hash.into(), beneficiary: beneficiary.into(),
        state_root: state_root.into(), transactions_root: transactions_root.into(),
        receipts_root: receipts_root.into(), logs_bloom: logs_bloom.into(),
        difficulty: Uint::from_limbs(difficulty.limbs), extra_data: extra_data.into(),
        mix_hash: mix_hash.into(), nonce: nonce.into(),
        withdrawals_root: withdrawals_root.map(B256::from),
        parent_beacon_block_root: parent_beacon_block_root.map(B256::from),
        requests_hash: requests_hash.map(B256::from) }.hash_slow().0
}

impl HeaderModel {
    /// Whether a field that a fork added is present only together with all
    /// fields that earlier forks added, as in every header of the chain.
    pub open spec fn forks_in_order(self) -> bool {
        &&& self.withdrawals_root is Some ==> self.base_fee_per_gas is Some
        &&& self.blob_gas_used is Some ==> self.withdrawals_root is Some
        &&& self.excess_blob_gas is Some ==> self.blob_gas_used is Some
        &&& self.parent_beacon_block_root is Some ==> self.excess_blob_gas is Some
        &&& self.requests_hash is Some ==> self.parent_beacon_block_root is Some
    }
}

/// Fork fields in order stand at fixed places, so their number tells which of
/// them are present.
proof fn lemma_fork_items(header: HeaderModel)
    requires
        header.forks_in_order(),
    ensures
        ({
            let items = fork_items(header);
            &&& items.len() > 0 <==> header.base_fee_per_gas is Some
            &&& items.len() > 1 <==> header.withdrawals_root is Some
            &&& items.len() > 2 <==> header.blob_gas_used is Some
            &&& items.len() > 3 <==> header.excess_blob_gas is Some
            &&& items.len() > 4 <==> header.parent_beacon_block_root is Some
            &&& items.len() > 5 <==> header.requests_hash is Some
            &&& items.len() > 0 ==> items[0] == uint(header.base_fee_per_gas->0 as nat)
            &&& items.len() > 1 ==> items[1] == Item::Str(header.withdrawals_root->0)
            &&& items.len() > 2 ==> items[2] == uint(header.blob_gas_used->0 as nat)
            &&& items.len() > 3 ==> items[3] == uint(header.excess_blob_gas->0 as nat)
            &&& items.len() > 4 ==> items[4] == Item::Str(header.parent_beacon_block_root->0)
            &&& items.len() > 5 ==> items[5] == Item::Str(header.requests_hash->0)
        }),
{
}

/// Two optional numbers that are present together and equal as items are equal.
proof fn lemma_same_number(m: Option<u64>, n: Option<u64>)
    requires
        m is Some <==> n is Some,
        m is Some ==> uint(m->0 as nat) == uint(n->0 as nat),
    ensures
        m == n,
{
    if m is Some {
        law_uint_injective(m->0 as nat, n->0 as nat);
    }
}

/// An encoded header gives back every field, where its fork fields are in order.
pub proof fn law_header_rlp_injective(a: HeaderModel, b: HeaderModel)
    requires
        a.forks_in_order(),
        b.forks_in_order(),
        header_rlp(a).len() <= u64::MAX,
        header_rlp(a) == header_rlp(b),
    ensures
        a == b,
{
    let xs = header_items(a);
    let ys = header_items(b);
    law_encode_injective(Item::List(xs), Item::List(ys));
    assert(xs.take(15) == basic_items(a) && ys.take(15) == basic_items(b));
    assert(xs.skip(15) == fork_items(a) && ys.skip(15) == fork_items(b));
    let p = basic_items(a);
    let q = basic_items(b);
    assert(p[0] == q[0] && p[1] == q[1] && p[2] == q[2] && p[3] == q[3] && p[4] == q[4]);
    assert(p[5] == q[5] && p[6] == q[6] && p[7] == q[7] && p[8] == q[8] && p[9] == q[9]);
    assert(p[10] == q[10] && p[11] == q[11] && p[12] == q[12] && p[13] == q[13] && p[14] == q[14]);
    law_uint_injective(a.difficulty, b.difficulty);
    law_uint_injective(a.number as nat, b.number as nat);
    law_uint_injective(a.gas_limit as nat, b.gas_limit as nat);
    law_uint_injective(a.gas_used as nat, b.gas_used as nat);
    law_uint_injective(a.timestamp as nat, b.timestamp as nat);
    lemma_fork_items(a);
    lemma_fork_items(b);
    lemma_same_number(a.base_fee_per_gas, b.base_fee_per_gas);
    lemma_same_number(a.blob_gas_used, b.blob_gas_used);
    lemma_same_number(a.excess_blob_gas, b.excess_blob_gas);
}

/// The items of a header are its own fields: first those that every header has,
/// then those that forks added, bytes as they stand, numbers as numbers, and what
/// is absent left out. The encoding is that list, and the block hash is
/// the hash of the encoding.
pub proof fn law_header_fields(header: BlockHeader)
    ensures
        header_items(header@) == seq![
            Item::Str(header.parent_hash@),
            Item::Str(header.ommers_hash@),
            Item::Str(header.beneficiary@),
            Item::Str(header.state_root@),
            Item::Str(header.transactions_root@),
            Item::Str(header.receipts_root@),
            Item::Str(header.logs_bloom@),
            uint(header.difficulty@),
            uint(header.number as nat),
            uint(header.gas_limit as nat),
            uint(header.gas_used as nat),
            uint(header.timestamp as nat),
            Item::Str(header.extra_data@),
            Item::Str(header.mix_hash@),
            Item::Str(header.nonce@),
        ] + (match header.base_fee_per_gas {
            Some(fee) => seq![uint(fee as nat)],
            None => Seq::empty(),
        } + match header.withdrawals_root {
            Some(root) => seq![Item::Str(root@)],
            None => Seq::empty(),
        } + match header.blob_gas_used {
            Some(gas) => seq![uint(gas as nat)],
            None => Seq::empty(),
        } + match header.excess_blob_gas {
            Some(gas) => seq![uint(gas as nat)],
            None => Seq::empty(),
        } + match header.parent_beacon_block_root {
            Some(root) => seq![Item::Str(root@)],
            None => Seq::empty(),
        } + match header.requests_hash {
            Some(hash) => seq![Item::Str(hash@)],
            None => Seq::empty(),
        }),
        header_rlp(header@) == encode(Item::List(header_items(header@))),
        header_hash(header@) == keccak256(header_rlp(header@)),
{
}

} // verus!
