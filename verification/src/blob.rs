//! The blob that the benchmark guest reads.

use vstd::prelude::*;
use crate::block::{Block, Withdrawal};
use crate::fork::{fork_for_block, CANCUN_TIMESTAMP};
use crate::header::{encode_header, hash_header, BlockHeader};
use crate::rlp::{rlp_encode_bytes, rlp_encode_list, rlp_encode_u64};
use crate::state::{build_pre_state, AccountInfo};
use crate::trie::{build_witness_list, WitnessNode};
use crate::uint::{rlp_encode_u256, U256};
#[allow(unused_imports)]
use crate::block::{withdrawals_model, BlockModel, WithdrawalModel};
#[allow(unused_imports)]
use crate::fork::fork_at;
#[allow(unused_imports)]
use crate::header::{header_hash, header_rlp, law_header_rlp_injective, HeaderModel};
#[allow(unused_imports)]
use crate::rlp::{encode, lemma_concat_encodes, uint, Item};
#[allow(unused_imports)]
use crate::rlp::{law_encode_injective, law_uint_injective, lemma_item_len, lemma_map_injective};
#[allow(unused_imports)]
use crate::rlp::{law_uint_spells, spells};
#[allow(unused_imports)]
use crate::state::{accounts_model, pre_state_item, storage_model, AccountModel};
#[allow(unused_imports)]
use crate::state::{law_pre_state_injective, pre_accounts};
#[allow(unused_imports)]
use crate::transaction::{envelope, law_envelope_injective, law_well_typed, TxModel};
#[allow(unused_imports)]
use crate::trie::{law_witness_item_injective, witness_entries, witness_item};

verus! {

/// The chain id of mainnet.
pub const MAINNET_CHAIN_ID: u64 = 1;

/// Everything that a blob carries.
pub struct BlobModel {
    pub header: HeaderModel,
    pub parent: HeaderModel,
    pub parent_hash: Seq<u8>,
    pub raw_txs: Seq<Seq<u8>>,
    pub withdrawals: Seq<WithdrawalModel>,
    pub header_rlp: Seq<u8>,
    pub accounts: Seq<(Seq<u8>, AccountModel)>,
    pub storage: Seq<(Seq<u8>, Seq<(nat, nat)>)>,
    pub witness: Seq<(Seq<u8>, Seq<u8>)>,
    pub storage_witness: Seq<(Seq<u8>, Seq<u8>)>,
}

/// Thirty-two zero bytes.
pub open spec fn zero_hash() -> Seq<u8> {
    Seq::new(32, |i: int| 0u8)
}

/// The number, or zero where there is none.
pub open spec fn or_zero(n: Option<u64>) -> nat {
    match n {
        Some(n) => n as nat,
        None => 0,
    }
}

/// The hash, or zero bytes where there is none.
pub open spec fn or_zero_hash(hash: Option<Seq<u8>>) -> Seq<u8> {
    match hash {
        Some(hash) => hash,
        None => zero_hash(),
    }
}

/// What the guest needs to set up the block environment, as an item.
pub open spec fn block_input_item(header: HeaderModel, parent_hash: Seq<u8>) -> Item {
    Item::List(
        seq![
            uint(header.number as nat),
            uint(header.timestamp as nat),
            Item::Str(header.beneficiary),
            uint(header.gas_limit as nat),
            uint(or_zero(header.base_fee_per_gas)),
            Item::Str(header.mix_hash),
            uint(MAINNET_CHAIN_ID as nat),
            uint(or_zero(header.excess_blob_gas)),
            Item::Str(or_zero_hash(header.parent_beacon_block_root)),
            Item::Str(parent_hash),
            uint(fork_at(header.timestamp) as nat),
        ],
    )
}

/// The transactions as an item: each envelope as a byte string.
pub open spec fn raw_txs_item(raw_txs: Seq<Seq<u8>>) -> Item {
    Item::List(raw_txs.map_values(|raw: Seq<u8>| Item::Str(raw)))
}

/// A withdrawal as an item: `[index, validator_index, address, amount]`.
pub open spec fn withdrawal_item(withdrawal: WithdrawalModel) -> Item {
    Item::List(
        seq![
            uint(withdrawal.index as nat),
            uint(withdrawal.validator_index as nat),
            Item::Str(withdrawal.address),
            uint(withdrawal.amount as nat),
        ],
    )
}

/// The withdrawals as an item: the list of them.
pub open spec fn withdrawals_item(withdrawals: Seq<WithdrawalModel>) -> Item {
    Item::List(withdrawals.map_values(|withdrawal: WithdrawalModel| withdrawal_item(withdrawal)))
}

/// What the guest needs of the parent to check the base fee and the blob base
/// fee, as an item.
pub open spec fn parent_summary_item(parent: HeaderModel) -> Item {
    Item::List(
        seq![
            uint(parent.gas_limit as nat),
            uint(or_zero(parent.base_fee_per_gas)),
            uint(parent.timestamp as nat),
            uint(parent.gas_used as nat),
            uint(or_zero(parent.blob_gas_used)),
            uint(or_zero(parent.excess_blob_gas)),
        ],
    )
}

/// The parts of the blob, in order. The state root after the block is all
/// zeros, which tells the guest not to compare it.
pub open spec fn blob_items(blob: BlobModel) -> Seq<Item> {
    seq![
        block_input_item(blob.header, blob.parent_hash),
        pre_state_item(blob.accounts, blob.storage),
        raw_txs_item(blob.raw_txs),
        withdrawals_item(blob.withdrawals),
        Item::Str(blob.parent.state_root),
        Item::Str(zero_hash()),
        witness_item(blob.witness),
        witness_item(blob.storage_witness),
        Item::Str(blob.header_rlp),
        parent_summary_item(blob.parent),
    ]
}

/// The blob as an item.
pub open spec fn blob_item(blob: BlobModel) -> Item {
    Item::List(blob_items(blob))
}

/// What the blob carries for a block and its parent.
pub open spec fn blob_model(
    current: BlockModel,
    previous: BlockModel,
    accounts: Seq<(Seq<u8>, AccountModel)>,
    storage: Seq<(Seq<u8>, Seq<(nat, nat)>)>,
    witness: Seq<(Seq<u8>, Seq<u8>)>,
    storage_witness: Seq<(Seq<u8>, Seq<u8>)>,
) -> BlobModel {
    BlobModel {
        header: current.header,
        parent: previous.header,
        parent_hash: header_hash(previous.header),
        raw_txs: current.transactions.map_values(|tx: TxModel| envelope(tx)),
        withdrawals: current.withdrawals,
        header_rlp: header_rlp(current.header),
        accounts,
        storage,
        witness,
        storage_witness,
    }
}

/// The number, or zero where there is none.
fn number_or_zero(n: Option<u64>) -> (r: u64)
    ensures
        r == or_zero(n),
{
    match n {
        Some(n) => n,
        None => 0,
    }
}

/// Encodes what the guest needs to set up the block environment.
pub fn build_block_input(header: &BlockHeader, parent_hash: &[u8; 32]) -> (r: Vec<u8>)
    requires
        header.timestamp >= CANCUN_TIMESTAMP,
    ensures
        r@ == encode(block_input_item(header@, parent_hash@)),
{
    let chain_id = U256::from_u64(MAINNET_CHAIN_ID);
    let base_fee = U256::from_u64(number_or_zero(header.base_fee_per_gas));
    let beacon_root: [u8; 32] = match header.parent_beacon_block_root {
        Some(root) => root,
        None => [0u8; 32],
    };
    assert(beacon_root@ == or_zero_hash(header@.parent_beacon_block_root));
    let fork: u8 = fork_for_block(header.timestamp, header.number);
    let fields: [Vec<u8>; 11] = [
        rlp_encode_u64(header.number),
        rlp_encode_u64(header.timestamp),
        rlp_encode_bytes(&header.beneficiary),
        rlp_encode_u64(header.gas_limit),
        rlp_encode_u256(&base_fee),
        rlp_encode_bytes(&header.mix_hash),
        rlp_encode_u256(&chain_id),
        rlp_encode_u64(number_or_zero(header.excess_blob_gas)),
        rlp_encode_bytes(&beacon_root),
        rlp_encode_bytes(parent_hash),
        rlp_encode_u64(fork as u64),
    ];
    proof {
        lemma_concat_encodes(fields@, block_input_item(header@, parent_hash@)->List_0);
    }
    rlp_encode_list(&fields)
}

/// The byte strings that the vectors hold.
pub open spec fn byte_strings(list: Seq<Vec<u8>>) -> Seq<Seq<u8>> {
    list.map_values(|bytes: Vec<u8>| bytes@)
}

/// Encodes transaction envelopes as a list of byte strings.
pub fn build_raw_txs(raw_txs: &Vec<Vec<u8>>) -> (r: Vec<u8>)
    ensures
        r@ == encode(raw_txs_item(byte_strings(raw_txs@))),
{
    let mut items: Vec<Vec<u8>> = Vec::new();
    let mut i: usize = 0;
    while i < raw_txs.len()
        invariant
            i <= raw_txs@.len(),
            items@.len() == i,
            forall|j: int|
                0 <= j < i ==> (#[trigger] items@[j])@ == encode(Item::Str(raw_txs@[j]@)),
        decreases raw_txs@.len() - i,
    {
        items.push(rlp_encode_bytes(raw_txs[i].as_slice()));
        i += 1;
    }
    proof {
        lemma_concat_encodes(items@, raw_txs_item(byte_strings(raw_txs@))->List_0);
    }
    rlp_encode_list(items.as_slice())
}

/// Encodes withdrawals as a list of `[index, validator_index, address, amount]`.
pub fn build_withdrawals(withdrawals: &Option<Vec<Withdrawal>>) -> (r: Vec<u8>)
    ensures
        r@ == encode(withdrawals_item(withdrawals_model(*withdrawals))),
{
    let ghost model = withdrawals_model(*withdrawals);
    let mut items: Vec<Vec<u8>> = Vec::new();
    if let Some(list) = withdrawals {
        let mut i: usize = 0;
        while i < list.len()
            invariant
                i <= list@.len(),
                items@.len() == i,
                model == list@.map_values(|withdrawal: Withdrawal| withdrawal@),
                forall|j: int|
                    0 <= j < i ==> (#[trigger] items@[j])@ == encode(withdrawal_item(model[j])),
            decreases list@.len() - i,
        {
            let withdrawal = &list[i];
            let fields: [Vec<u8>; 4] = [
                rlp_encode_u64(withdrawal.index),
                rlp_encode_u64(withdrawal.validator_index),
                rlp_encode_bytes(&withdrawal.address),
                rlp_encode_u64(withdrawal.amount),
            ];
            proof {
                lemma_concat_encodes(fields@, withdrawal_item(withdrawal@)->List_0);
            }
            items.push(rlp_encode_list(&fields));
            i += 1;
        }
    }
    proof {
        lemma_concat_encodes(items@, withdrawals_item(model)->List_0);
    }
    rlp_encode_list(items.as_slice())
}

/// Encodes what the guest needs of the parent header.
pub fn build_parent_summary(parent: &BlockHeader) -> (r: Vec<u8>)
    ensures
        r@ == encode(parent_summary_item(parent@)),
{
    let base_fee = U256::from_u64(number_or_zero(parent.base_fee_per_gas));
    let fields: [Vec<u8>; 6] = [
        rlp_encode_u64(parent.gas_limit),
        rlp_encode_u256(&base_fee),
        rlp_encode_u64(parent.timestamp),
        rlp_encode_u64(parent.gas_used),
        rlp_encode_u64(number_or_zero(parent.blob_gas_used)),
        rlp_encode_u64(number_or_zero(parent.excess_blob_gas)),
    ];
    proof {
        lemma_concat_encodes(fields@, parent_summary_item(parent@)->List_0);
    }
    rlp_encode_list(&fields)
}

/// Puts a blob together from the headers, the pre-state and witnesses, and from
/// what has been computed already: the parent's hash, the envelopes of the
/// transactions and the encoding of the header.
pub fn assemble_zig_blob(
    header: &BlockHeader,
    parent: &BlockHeader,
    parent_hash: &[u8; 32],
    raw_txs: &Vec<Vec<u8>>,
    withdrawals: &Option<Vec<Withdrawal>>,
    encoded_header: &Vec<u8>,
    accounts: &Vec<([u8; 20], AccountInfo)>,
    storage: &Vec<([u8; 20], Vec<(U256, U256)>)>,
    witness_nodes: &Vec<WitnessNode>,
    storage_witness_nodes: &Vec<WitnessNode>,
) -> (r: Vec<u8>)
    requires
        header.timestamp >= CANCUN_TIMESTAMP,
    ensures
        r@ == encode(
            blob_item(
                (BlobModel {
                    header: header@,
                    parent: parent@,
                    parent_hash: parent_hash@,
                    raw_txs: byte_strings(raw_txs@),
                    withdrawals: withdrawals_model(*withdrawals),
                    header_rlp: encoded_header@,
                    accounts: accounts_model(accounts@),
                    storage: storage_model(storage@),
                    witness: witness_entries(witness_nodes@),
                    storage_witness: witness_entries(storage_witness_nodes@),
                }),
            ),
        ),
{
    let post_root: [u8; 32] = [0u8; 32];
    assert(post_root@ == zero_hash());
    let parts: [Vec<u8>; 10] = [
        build_block_input(header, parent_hash),
        build_pre_state(accounts, storage),
        build_raw_txs(raw_txs),
        build_withdrawals(withdrawals),
        rlp_encode_bytes(&parent.state_root),
        rlp_encode_bytes(&post_root),
        build_witness_list(witness_nodes.as_slice()),
        build_witness_list(storage_witness_nodes.as_slice()),
        rlp_encode_bytes(encoded_header.as_slice()),
        build_parent_summary(parent),
    ];
    proof {
        let blob = BlobModel {
            header: header@,
            parent: parent@,
            parent_hash: parent_hash@,
            raw_txs: byte_strings(raw_txs@),
            withdrawals: withdrawals_model(*withdrawals),
            header_rlp: encoded_header@,
            accounts: accounts_model(accounts@),
            storage: storage_model(storage@),
            witness: witness_entries(witness_nodes@),
            storage_witness: witness_entries(storage_witness_nodes@),
        };
        lemma_concat_encodes(parts@, blob_items(blob));
    }
    rlp_encode_list(&parts)
}

/// Builds the blob for a block on top of its parent: the block input, the
/// pre-state, the transactions, the withdrawals, the state roots, the two trie
/// witnesses, the header and the parent's summary.
///
/// Blocks from before Cancun have no fork number, so there is no blob for them.
pub fn build_zig_blob(
    current_block: &Block,
    previous_block: &Block,
    accounts: Vec<([u8; 20], AccountInfo)>,
    storage: Vec<([u8; 20], Vec<(U256, U256)>)>,
    witness_nodes: Vec<WitnessNode>,
    storage_witness_nodes: Vec<WitnessNode>,
) -> (r: Vec<u8>)
    requires
        current_block.header.timestamp >= CANCUN_TIMESTAMP,
    ensures
        r@ == encode(
            blob_item(
                blob_model(
                    current_block@,
                    previous_block@,
                    accounts_model(accounts@),
                    storage_model(storage@),
                    witness_entries(witness_nodes@),
                    witness_entries(storage_witness_nodes@),
                ),
            ),
        ),
{
    let parent_hash = hash_header(&previous_block.header);
    let mut raw_txs: Vec<Vec<u8>> = Vec::new();
    let mut i: usize = 0;
    while i < current_block.transactions.len()
        invariant
            i <= current_block.transactions@.len(),
            raw_txs@.len() == i,
            forall|j: int|
                0 <= j < i ==> (#[trigger] raw_txs@[j])@ == envelope(
                    current_block.transactions@[j]@,
                ),
        decreases current_block.transactions@.len() - i,
    {
        raw_txs.push(current_block.transactions[i].encoded_2718());
        i += 1;
    }
    let encoded_header = encode_header(&current_block.header);
    assert(byte_strings(raw_txs@) == current_block@.transactions.map_values(
        |tx: TxModel| envelope(tx),
    ));
    assemble_zig_blob(
        &current_block.header,
        &previous_block.header,
        &parent_hash,
        &raw_txs,
        &current_block.withdrawals,
        &encoded_header,
        &accounts,
        &storage,
        &witness_nodes,
        &storage_witness_nodes,
    )
}

/// Different lists of envelopes are different items.
pub proof fn law_raw_txs_injective(a: Seq<Seq<u8>>, b: Seq<Seq<u8>>)
    requires
        raw_txs_item(a) == raw_txs_item(b),
    ensures
        a == b,
{
    lemma_map_injective(a, b, |raw: Seq<u8>| Item::Str(raw));
}

/// Different lists of withdrawals are different items.
pub proof fn law_withdrawals_injective(a: Seq<WithdrawalModel>, b: Seq<WithdrawalModel>)
    requires
        withdrawals_item(a) == withdrawals_item(b),
    ensures
        a == b,
{
    let f = |withdrawal: WithdrawalModel| withdrawal_item(withdrawal);
    assert forall|x: WithdrawalModel, y: WithdrawalModel| #[trigger] f(x) == #[trigger] f(
        y,
    ) implies x == y by {
        let xs = withdrawal_item(x)->List_0;
        let ys = withdrawal_item(y)->List_0;
        assert(xs[0] == ys[0] && xs[1] == ys[1] && xs[2] == ys[2] && xs[3] == ys[3]);
        law_uint_injective(x.index as nat, y.index as nat);
        law_uint_injective(x.validator_index as nat, y.validator_index as nat);
        law_uint_injective(x.amount as nat, y.amount as nat);
    }
    lemma_map_injective(a, b, f);
}

/// Whether two headers agree in what the block input shows of them.
pub open spec fn same_block_input(a: HeaderModel, b: HeaderModel) -> bool {
    &&& a.number == b.number
    &&& a.timestamp == b.timestamp
    &&& a.beneficiary == b.beneficiary
    &&& a.gas_limit == b.gas_limit
    &&& or_zero(a.base_fee_per_gas) == or_zero(b.base_fee_per_gas)
    &&& a.mix_hash == b.mix_hash
    &&& or_zero(a.excess_blob_gas) == or_zero(b.excess_blob_gas)
    &&& or_zero_hash(a.parent_beacon_block_root) == or_zero_hash(b.parent_beacon_block_root)
}

/// The block input gives back the header fields in it and the parent's hash.
pub proof fn law_block_input_injective(
    a: HeaderModel,
    hash_a: Seq<u8>,
    b: HeaderModel,
    hash_b: Seq<u8>,
)
    requires
        block_input_item(a, hash_a) == block_input_item(b, hash_b),
    ensures
        same_block_input(a, b),
        hash_a == hash_b,
{
    let xs = block_input_item(a, hash_a)->List_0;
    let ys = block_input_item(b, hash_b)->List_0;
    assert(xs[0] == ys[0] && xs[1] == ys[1] && xs[2] == ys[2] && xs[3] == ys[3] && xs[4] == ys[4]);
    assert(xs[5] == ys[5] && xs[7] == ys[7] && xs[8] == ys[8] && xs[9] == ys[9]);
    law_uint_injective(a.number as nat, b.number as nat);
    law_uint_injective(a.timestamp as nat, b.timestamp as nat);
    law_uint_injective(a.gas_limit as nat, b.gas_limit as nat);
    law_uint_injective(or_zero(a.base_fee_per_gas), or_zero(b.base_fee_per_gas));
    law_uint_injective(or_zero(a.excess_blob_gas), or_zero(b.excess_blob_gas));
}

/// Whether two headers agree in what the parent summary shows of them.
pub open spec fn same_parent_summary(a: HeaderModel, b: HeaderModel) -> bool {
    &&& a.gas_limit == b.gas_limit
    &&& or_zero(a.base_fee_per_gas) == or_zero(b.base_fee_per_gas)
    &&& a.timestamp == b.timestamp
    &&& a.gas_used == b.gas_used
    &&& or_zero(a.blob_gas_used) == or_zero(b.blob_gas_used)
    &&& or_zero(a.excess_blob_gas) == or_zero(b.excess_blob_gas)
}

/// The parent summary gives back the header fields in it.
pub proof fn law_parent_summary_injective(a: HeaderModel, b: HeaderModel)
    requires
        parent_summary_item(a) == parent_summary_item(b),
    ensures
        same_parent_summary(a, b),
{
    let xs = parent_summary_item(a)->List_0;
    let ys = parent_summary_item(b)->List_0;
    assert(xs[0] == ys[0] && xs[1] == ys[1] && xs[2] == ys[2]);
    assert(xs[3] == ys[3] && xs[4] == ys[4] && xs[5] == ys[5]);
    law_uint_injective(a.gas_limit as nat, b.gas_limit as nat);
    law_uint_injective(or_zero(a.base_fee_per_gas), or_zero(b.base_fee_per_gas));
    law_uint_injective(a.timestamp as nat, b.timestamp as nat);
    law_uint_injective(a.gas_used as nat, b.gas_used as nat);
    law_uint_injective(or_zero(a.blob_gas_used), or_zero(b.blob_gas_used));
    law_uint_injective(or_zero(a.excess_blob_gas), or_zero(b.excess_blob_gas));
}

/// A blob gives back everything that was put into it: where two blobs are the
/// same bytes, they carry the same block input, pre-state, transactions,
/// withdrawals, roots, witnesses, header and parent summary.
pub proof fn law_blob_injective(a: BlobModel, b: BlobModel)
    requires
        encode(blob_item(a)).len() <= u64::MAX,
        encode(blob_item(a)) == encode(blob_item(b)),
    ensures
        same_block_input(a.header, b.header),
        a.parent_hash == b.parent_hash,
        pre_accounts(a.accounts, a.storage) == pre_accounts(b.accounts, b.storage),
        a.raw_txs == b.raw_txs,
        a.withdrawals == b.withdrawals,
        a.parent.state_root == b.parent.state_root,
        a.witness == b.witness,
        a.storage_witness == b.storage_witness,
        a.header_rlp == b.header_rlp,
        same_parent_summary(a.parent, b.parent),
{
    law_encode_injective(blob_item(a), blob_item(b));
    let xs = blob_items(a);
    let ys = blob_items(b);
    assert(xs[0] == ys[0] && xs[1] == ys[1] && xs[2] == ys[2] && xs[3] == ys[3] && xs[4] == ys[4]);
    assert(xs[6] == ys[6] && xs[7] == ys[7] && xs[8] == ys[8] && xs[9] == ys[9]);
    law_block_input_injective(a.header, a.parent_hash, b.header, b.parent_hash);
    law_pre_state_injective(a.accounts, a.storage, b.accounts, b.storage);
    law_raw_txs_injective(a.raw_txs, b.raw_txs);
    law_withdrawals_injective(a.withdrawals, b.withdrawals);
    law_witness_item_injective(a.witness, b.witness);
    law_witness_item_injective(a.storage_witness, b.storage_witness);
    law_parent_summary_injective(a.parent, b.parent);
}

/// A blob gives back the block that it was built for: every field of the header,
/// every transaction with its signature, and the withdrawals.
pub proof fn law_blob_gives_back_block(
    block_a: Block,
    parent_a: Block,
    accounts_a: Seq<(Seq<u8>, AccountModel)>,
    storage_a: Seq<(Seq<u8>, Seq<(nat, nat)>)>,
    witness_a: Seq<(Seq<u8>, Seq<u8>)>,
    storage_witness_a: Seq<(Seq<u8>, Seq<u8>)>,
    block_b: Block,
    parent_b: Block,
    accounts_b: Seq<(Seq<u8>, AccountModel)>,
    storage_b: Seq<(Seq<u8>, Seq<(nat, nat)>)>,
    witness_b: Seq<(Seq<u8>, Seq<u8>)>,
    storage_witness_b: Seq<(Seq<u8>, Seq<u8>)>,
)
    requires
        block_a@.header.forks_in_order(),
        block_b@.header.forks_in_order(),
        ({
            let a = blob_model(
                block_a@,
                parent_a@,
                accounts_a,
                storage_a,
                witness_a,
                storage_witness_a,
            );
            let b = blob_model(
                block_b@,
                parent_b@,
                accounts_b,
                storage_b,
                witness_b,
                storage_witness_b,
            );
            &&& encode(blob_item(a)).len() <= u64::MAX
            &&& encode(blob_item(a)) == encode(blob_item(b))
        }),
    ensures
        block_a@ == block_b@,
{
    let a = blob_model(
        block_a@,
        parent_a@,
        accounts_a,
        storage_a,
        witness_a,
        storage_witness_a,
    );
    let b = blob_model(
        block_b@,
        parent_b@,
        accounts_b,
        storage_b,
        witness_b,
        storage_witness_b,
    );
    law_blob_injective(a, b);
    let parts = blob_items(a);
    lemma_item_len(parts, 8);
    assert(parts[8] == Item::Str(a.header_rlp));
    law_header_rlp_injective(a.header, b.header);
    lemma_item_len(parts, 2);
    assert(parts[2] == raw_txs_item(a.raw_txs));
    let raw_items = raw_txs_item(a.raw_txs)->List_0;
    let txs_a = block_a@.transactions;
    let txs_b = block_b@.transactions;
    assert(a.raw_txs.len() == txs_a.len() && b.raw_txs.len() == txs_b.len());
    assert forall|i: int| 0 <= i < txs_a.len() implies txs_a[i] == txs_b[i] by {
        lemma_item_len(raw_items, i);
        assert(raw_items[i] == Item::Str(a.raw_txs[i]));
        assert(a.raw_txs[i] == envelope(txs_a[i]));
        assert(b.raw_txs[i] == envelope(txs_b[i]));
        law_well_typed(block_a.transactions@[i]);
        law_well_typed(block_b.transactions@[i]);
        law_envelope_injective(txs_a[i], txs_b[i]);
    }
    assert(txs_a =~= txs_b);
}

/// A blob has ten parts. Its block input has eleven fields and its parent
/// summary six, and the state root after the block is always all zeros.
pub proof fn law_blob_layout(blob: BlobModel)
    ensures
        blob_items(blob).len() == 10,
        blob_items(blob)[0]->List_0.len() == 11,
        blob_items(blob)[5] == Item::Str(zero_hash()),
        blob_items(blob)[9]->List_0.len() == 6,
{
}

/// The block input has eleven fields: number, timestamp, beneficiary, gas limit,
/// base fee, mix hash, the chain id 1, excess blob gas, the parent's beacon root,
/// the parent's hash and the fork. Numbers are spelled, bytes stand as they are,
/// and what the header lacks is zero. The fork is 2 from 1764798551 on, 1 from
/// 1746612311 until then, and 0 before.
pub proof fn law_block_input_fields(header: BlockHeader, parent_hash: [u8; 32])
    ensures
        ({
            let item = block_input_item(header@, parent_hash@);
            let fields = item->List_0;
            &&& item is List && fields.len() == 11
            &&& spells(fields[0], header.number as nat)
            &&& spells(fields[1], header.timestamp as nat)
            &&& fields[2] == Item::Str(header.beneficiary@)
            &&& spells(fields[3], header.gas_limit as nat)
            &&& header.base_fee_per_gas is None ==> spells(fields[4], 0)
            &&& header.base_fee_per_gas matches Some(fee) ==> spells(fields[4], fee as nat)
            &&& fields[5] == Item::Str(header.mix_hash@)
            &&& spells(fields[6], 1)
            &&& header.excess_blob_gas is None ==> spells(fields[7], 0)
            &&& header.excess_blob_gas matches Some(gas) ==> spells(fields[7], gas as nat)
            &&& header.parent_beacon_block_root is None ==> (fields[8] matches Item::Str(root)
                && root.len() == 32 && forall|i: int| 0 <= i < 32 ==> root[i] == 0)
            &&& header.parent_beacon_block_root matches Some(root) ==> fields[8] == Item::Str(root@)
            &&& fields[9] == Item::Str(parent_hash@)
            &&& header.timestamp >= 1_764_798_551 <==> spells(fields[10], 2)
            &&& 1_746_612_311 <= header.timestamp < 1_764_798_551 <==> spells(fields[10], 1)
            &&& header.timestamp < 1_746_612_311 <==> spells(fields[10], 0)
        }),
{
    law_uint_spells(header.number as nat);
    law_uint_spells(header.timestamp as nat);
    law_uint_spells(header.gas_limit as nat);
    law_uint_spells(or_zero(header.base_fee_per_gas));
    law_uint_spells(MAINNET_CHAIN_ID as nat);
    law_uint_spells(or_zero(header.excess_blob_gas));
    law_uint_spells(fork_at(header.timestamp) as nat);
}

/// The parent summary has six fields, each the number in the parent's header and
/// zero where the header lacks it: gas limit, base fee, timestamp, gas used, blob
/// gas used and excess blob gas.
pub proof fn law_parent_summary_fields(parent: BlockHeader)
    ensures
        ({
            let item = parent_summary_item(parent@);
            let fields = item->List_0;
            &&& item is List && fields.len() == 6
            &&& spells(fields[0], parent.gas_limit as nat)
            &&& parent.base_fee_per_gas is None ==> spells(fields[1], 0)
            &&& parent.base_fee_per_gas matches Some(fee) ==> spells(fields[1], fee as nat)
            &&& spells(fields[2], parent.timestamp as nat)
            &&& spells(fields[3], parent.gas_used as nat)
            &&& parent.blob_gas_used is None ==> spells(fields[4], 0)
            &&& parent.blob_gas_used matches Some(gas) ==> spells(fields[4], gas as nat)
            &&& parent.excess_blob_gas is None ==> spells(fields[5], 0)
            &&& parent.excess_blob_gas matches Some(gas) ==> spells(fields[5], gas as nat)
        }),
{
    law_uint_spells(parent.gas_limit as nat);
    law_uint_spells(or_zero(parent.base_fee_per_gas));
    law_uint_spells(parent.timestamp as nat);
    law_uint_spells(parent.gas_used as nat);
    law_uint_spells(or_zero(parent.blob_gas_used));
    law_uint_spells(or_zero(parent.excess_blob_gas));
}

/// Withdrawals are listed in their order, each as index, validator index, address
/// and amount: numbers spelled, the address byte for byte. A block without a list
/// of withdrawals lists none.
pub proof fn law_withdrawal_entries(withdrawals: Option<Vec<Withdrawal>>)
    ensures
        ({
            let item = withdrawals_item(withdrawals_model(withdrawals));
            let entries = item->List_0;
            &&& item is List
            &&& withdrawals is None ==> entries.len() == 0
            &&& withdrawals matches Some(list) ==> entries.len() == list@.len() && forall|i: int|
                0 <= i < list@.len() ==> {
                    let fields = (#[trigger] entries[i])->List_0;
                    &&& entries[i] is List && fields.len() == 4
                    &&& spells(fields[0], list@[i].index as nat)
                    &&& spells(fields[1], list@[i].validator_index as nat)
                    &&& fields[2] == Item::Str(list@[i].address@)
                    &&& spells(fields[3], list@[i].amount as nat)
                }
        }),
{
    let entries = withdrawals_item(withdrawals_model(withdrawals))->List_0;
    if let Some(list) = withdrawals {
        assert forall|i: int| 0 <= i < list@.len() implies {
            let fields = (#[trigger] entries[i])->List_0;
            &&& entries[i] is List && fields.len() == 4
            &&& spells(fields[0], list@[i].index as nat)
            &&& spells(fields[1], list@[i].validator_index as nat)
            &&& fields[2] == Item::Str(list@[i].address@)
            &&& spells(fields[3], list@[i].amount as nat)
        } by {
            assert(entries[i] == withdrawal_item(list@[i]@));
            law_uint_spells(list@[i].index as nat);
            law_uint_spells(list@[i].validator_index as nat);
            law_uint_spells(list@[i].amount as nat);
        }
    }
}

/// Envelopes are listed in their order, each as one byte string, byte for byte.
pub proof fn law_raw_tx_entries(raw_txs: Seq<Vec<u8>>)
    ensures
        raw_txs_item(byte_strings(raw_txs)) matches Item::List(items) && items.len()
            == raw_txs.len() && forall|i: int|
            0 <= i < raw_txs.len() ==> #[trigger] items[i] == Item::Str(raw_txs[i]@),
        byte_strings(raw_txs).len() == raw_txs.len(),
        forall|i: int|
            0 <= i < raw_txs.len() ==> #[trigger] byte_strings(raw_txs)[i] == raw_txs[i]@,
{
}

/// The ten parts of a blob in terms of what it carries. The sixth is 32 zero
/// bytes.
pub proof fn law_blob_parts(blob: BlobModel)
    ensures
        ({
            let item = blob_item(blob);
            let parts = item->List_0;
            &&& item is List && parts.len() == 10
            &&& parts[0] == block_input_item(blob.header, blob.parent_hash)
            &&& parts[1] == pre_state_item(blob.accounts, blob.storage)
            &&& parts[2] == raw_txs_item(blob.raw_txs)
            &&& parts[3] == withdrawals_item(blob.withdrawals)
            &&& parts[4] == Item::Str(blob.parent.state_root)
            &&& parts[5] matches Item::Str(root) && root.len() == 32 && forall|i: int|
                0 <= i < 32 ==> root[i] == 0
            &&& parts[6] == witness_item(blob.witness)
            &&& parts[7] == witness_item(blob.storage_witness)
            &&& parts[8] == Item::Str(blob.header_rlp)
            &&& parts[9] == parent_summary_item(blob.parent)
        }),
{
}

/// The ten parts of the blob for a block on top of its parent, in terms of the
/// two blocks: the block's own input with the parent's hash, the pre-state, each
/// transaction's envelope in the block's order, the block's withdrawals, the
/// parent's state root byte for byte, 32 zero bytes, the two witnesses, the
/// block's encoded header and the summary of the parent's header.
pub proof fn law_blob_of_block(
    current: Block,
    previous: Block,
    accounts: Seq<(Seq<u8>, AccountModel)>,
    storage: Seq<(Seq<u8>, Seq<(nat, nat)>)>,
    witness: Seq<(Seq<u8>, Seq<u8>)>,
    storage_witness: Seq<(Seq<u8>, Seq<u8>)>,
)
    ensures
        ({
            let item = blob_item(
                blob_model(current@, previous@, accounts, storage, witness, storage_witness),
            );
            let parts = item->List_0;
            let txs = parts[2]->List_0;
            &&& item is List && parts.len() == 10
            &&& parts[0] == block_input_item(current.header@, header_hash(previous.header@))
            &&& parts[1] == pre_state_item(accounts, storage)
            &&& parts[2] is List && txs.len() == current.transactions@.len()
            &&& forall|i: int|
                0 <= i < txs.len() ==> #[trigger] txs[i] == Item::Str(
                    envelope(current.transactions@[i]@),
                )
            &&& parts[3] == withdrawals_item(withdrawals_model(current.withdrawals))
            &&& parts[4] == Item::Str(previous.header.state_root@)
            &&& parts[5] matches Item::Str(root) && root.len() == 32 && forall|i: int|
                0 <= i < 32 ==> root[i] == 0
            &&& parts[6] == witness_item(witness)
            &&& parts[7] == witness_item(storage_witness)
            &&& parts[8] == Item::Str(header_rlp(current.header@))
            &&& parts[9] == parent_summary_item(previous.header@)
        }),
{
}

/// The last part of every blob holds the six numbers of the parent's own header,
/// zero where it lacks one.
pub proof fn law_blob_ends_with_parent(
    current: Block,
    previous: Block,
    accounts: Seq<(Seq<u8>, AccountModel)>,
    storage: Seq<(Seq<u8>, Seq<(nat, nat)>)>,
    witness: Seq<(Seq<u8>, Seq<u8>)>,
    storage_witness: Seq<(Seq<u8>, Seq<u8>)>,
)
    ensures
        ({
            let item = blob_item(
                blob_model(current@, previous@, accounts, storage, witness, storage_witness),
            );
            let parent = previous.header;
            let fields = item->List_0[9]->List_0;
            &&& item->List_0.len() == 10 && item->List_0[9] is List && fields.len() == 6
            &&& spells(fields[0], parent.gas_limit as nat)
            &&& parent.base_fee_per_gas is None ==> spells(fields[1], 0)
            &&& parent.base_fee_per_gas matches Some(fee) ==> spells(fields[1], fee as nat)
            &&& spells(fields[2], parent.timestamp as nat)
            &&& spells(fields[3], parent.gas_used as nat)
            &&& parent.blob_gas_used is None ==> spells(fields[4], 0)
            &&& parent.blob_gas_used matches Some(gas) ==> spells(fields[4], gas as nat)
            &&& parent.excess_blob_gas is None ==> spells(fields[5], 0)
            &&& parent.excess_blob_gas matches Some(gas) ==> spells(fields[5], gas as nat)
        }),
{
    law_parent_summary_fields(previous.header);
}

/// A blob gives back what it says of the parent: two blobs that are the same
/// bytes were built on parents with the same state root, gas limit, base fee,
/// timestamp, gas used, blob gas used and excess blob gas, where an absent number
/// counts as zero, and with the same block hash.
pub proof fn law_blob_gives_back_parent(
    block_a: Block,
    parent_a: Block,
    accounts_a: Seq<(Seq<u8>, AccountModel)>,
    storage_a: Seq<(Seq<u8>, Seq<(nat, nat)>)>,
    witness_a: Seq<(Seq<u8>, Seq<u8>)>,
    storage_witness_a: Seq<(Seq<u8>, Seq<u8>)>,
    block_b: Block,
    parent_b: Block,
    accounts_b: Seq<(Seq<u8>, AccountModel)>,
    storage_b: Seq<(Seq<u8>, Seq<(nat, nat)>)>,
    witness_b: Seq<(Seq<u8>, Seq<u8>)>,
    storage_witness_b: Seq<(Seq<u8>, Seq<u8>)>,
)
    requires
        ({
            let a = blob_model(
                block_a@,
                parent_a@,
                accounts_a,
                storage_a,
                witness_a,
                storage_witness_a,
            );
            let b = blob_model(
                block_b@,
                parent_b@,
                accounts_b,
                storage_b,
                witness_b,
                storage_witness_b,
            );
            &&& encode(blob_item(a)).len() <= u64::MAX
            &&& encode(blob_item(a)) == encode(blob_item(b))
        }),
    ensures
        ({
            let a = parent_a.header;
            let b = parent_b.header;
            let number = |n: Option<u64>|
                match n {
                    Some(n) => n as nat,
                    None => 0,
                };
            &&& a.state_root@ == b.state_root@
            &&& a.gas_limit == b.gas_limit
            &&& number(a.base_fee_per_gas) == number(b.base_fee_per_gas)
            &&& a.timestamp == b.timestamp
            &&& a.gas_used == b.gas_used
            &&& number(a.blob_gas_used) == number(b.blob_gas_used)
            &&& number(a.excess_blob_gas) == number(b.excess_blob_gas)
            &&& header_hash(a@) == header_hash(b@)
        }),
{
    let a = blob_model(
        block_a@,
        parent_a@,
        accounts_a,
        storage_a,
        witness_a,
        storage_witness_a,
    );
    let b = blob_model(
        block_b@,
        parent_b@,
        accounts_b,
        storage_b,
        witness_b,
        storage_witness_b,
    );
    law_blob_injective(a, b);
}

} // verus!
