//! Everything that is written out for a replayed block.

use vstd::prelude::*;
use crate::blob::build_zig_blob;
use crate::block::Block;
use crate::fork::CANCUN_TIMESTAMP;
use crate::state::{build_state_diff, AccountInfo, StateDiff, TouchedAccount};
use crate::trie::{collect_storage_witness, collect_witness_nodes, TrieNode, WitnessNode};
use crate::uint::U256;
#[allow(unused_imports)]
use crate::blob::{blob_item, blob_model};
#[allow(unused_imports)]
use crate::rlp::encode;
#[allow(unused_imports)]
use crate::state::{accounts_model, state_diff_item, storage_model, surviving_accounts};
#[allow(unused_imports)]
use crate::state::touched_model;
#[allow(unused_imports)]
use crate::trie::{tries_witness, witness_entries};

verus! {

/// The blob for the guest and the sidecar that its results are compared with,
/// and how many witness nodes went into the blob.
#[derive(Debug, PartialEq, Eq)]
pub struct BenchFiles {
    pub zig_blob: Vec<u8>,
    pub state_diff: StateDiff,
    pub witness_nodes: usize,
    pub storage_witness_nodes: usize,
}

/// Builds what is written out for a replayed block: collects the witness of the
/// state trie and, in one flat list, that of the storage tries, and encodes the
/// blob around them and the state that the block left behind.
pub fn build_bench_files(
    current_block: &Block,
    previous_block: &Block,
    accounts: Vec<([u8; 20], AccountInfo)>,
    storage: Vec<([u8; 20], Vec<(U256, U256)>)>,
    state_trie: &TrieNode,
    storage_tries: &Vec<TrieNode>,
    touched: &Vec<TouchedAccount>,
) -> (r: BenchFiles)
    requires
        current_block.header.timestamp >= CANCUN_TIMESTAMP,
    ensures
        r.zig_blob@ == encode(
            blob_item(
                blob_model(
                    current_block@,
                    previous_block@,
                    accounts_model(accounts@),
                    storage_model(storage@),
                    state_trie.witness(),
                    tries_witness(storage_tries@),
                ),
            ),
        ),
        r.state_diff.rlp@ == encode(state_diff_item(touched_model(touched@))),
        r.state_diff.accounts == surviving_accounts(touched_model(touched@)).len(),
        r.witness_nodes == state_trie.witness().len(),
        r.storage_witness_nodes == tries_witness(storage_tries@).len(),
{
    let mut witness: Vec<WitnessNode> = Vec::new();
    collect_witness_nodes(state_trie, &mut witness);
    assert(witness_entries(witness@) == state_trie.witness());
    let storage_witness = collect_storage_witness(storage_tries);
    let witness_nodes: usize = witness.len();
    let storage_witness_nodes: usize = storage_witness.len();
    assert(witness_nodes == witness_entries(witness@).len());
    assert(storage_witness_nodes == witness_entries(storage_witness@).len());
    let zig_blob = build_zig_blob(
        current_block,
        previous_block,
        accounts,
        storage,
        witness,
        storage_witness,
    );
    let state_diff = build_state_diff(touched);
    BenchFiles { zig_blob, state_diff, witness_nodes, storage_witness_nodes }
}

} // verus!
