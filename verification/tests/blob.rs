use bench_from_rpc::bench::build_bench_files;
use bench_from_rpc::blob::{
    assemble_zig_blob, build_block_input, build_parent_summary, build_raw_txs, build_withdrawals,
    build_zig_blob, MAINNET_CHAIN_ID,
};
use bench_from_rpc::block::{Block, Withdrawal};
use bench_from_rpc::header::BlockHeader;
use bench_from_rpc::rlp::{rlp_encode_bytes, rlp_encode_list, rlp_encode_u64};
use bench_from_rpc::state::{build_pre_state, build_state_diff, AccountInfo, TouchedAccount};
use bench_from_rpc::transaction::{
    AccessListEntry, AuthorizationEntry, Eip1559Tx, Eip2930Tx, Eip4844Tx, Eip7702Tx, LegacyTx,
    Transaction, TxSignature,
};
use bench_from_rpc::trie::{build_witness_list, TrieNode, TrieNodeData};
use bench_from_rpc::uint::{rlp_encode_u256, U256};

fn word(v: u64) -> U256 {
    U256 { limbs: [v, 0, 0, 0] }
}

fn wide(hex_digits: &str) -> U256 {
    let bytes = hex::decode(hex_digits).unwrap();
    let mut limbs = [0u64; 4];
    for (i, byte) in bytes.iter().rev().enumerate() {
        limbs[i / 8] |= (*byte as u64) << (8 * (i % 8));
    }
    U256 { limbs }
}

fn hash(hex_digits: &str) -> [u8; 32] {
    hex::decode(hex_digits).unwrap().try_into().unwrap()
}

fn genesis() -> BlockHeader {
    let empty_trie = hash("56e81f171bcc55a6ff8345e692c0f86e5b48e01b996cadc001622fb5e363b421");
    BlockHeader {
        parent_hash: [0; 32],
        ommers_hash: hash("1dcc4de8dec75d7aab85b567b6ccd41ad312451b948a7413f0a142fd40d49347"),
        beneficiary: [0; 20],
        state_root: hash("d7f8974fb5ac78d9ac099b9ad5018bedc2ce0a72dad1827a1709da30580f0544"),
        transactions_root: empty_trie,
        receipts_root: empty_trie,
        logs_bloom: [0; 256],
        difficulty: word(0x4_0000_0000),
        number: 0,
        gas_limit: 5000,
        gas_used: 0,
        timestamp: 0,
        extra_data: hex::decode("11bbe8db4e347b4e8c937c1c8370e4b5ed33adb3db69cbdb7a38e1e50b1b82fa")
            .unwrap(),
        mix_hash: [0; 32],
        nonce: [0, 0, 0, 0, 0, 0, 0, 0x42],
        base_fee_per_gas: None,
        withdrawals_root: None,
        blob_gas_used: None,
        excess_blob_gas: None,
        parent_beacon_block_root: None,
        requests_hash: None,
    }
}

const GENESIS_HASH: &str = "d4e56740f876aef8c010b86a40d5f56745a118d0906a34e69aec8c0db1cb8fa3";

fn header() -> BlockHeader {
    BlockHeader {
        parent_hash: [0x11; 32],
        ommers_hash: [0x12; 32],
        beneficiary: [0x13; 20],
        state_root: [0x14; 32],
        transactions_root: [0x15; 32],
        receipts_root: [0x16; 32],
        logs_bloom: [0x17; 256],
        difficulty: word(0),
        number: 22_500_000,
        gas_limit: 36_000_000,
        gas_used: 12_345_678,
        timestamp: 1_747_000_000,
        extra_data: b"bench".to_vec(),
        mix_hash: [0x18; 32],
        nonce: [0; 8],
        base_fee_per_gas: Some(1_000_000_007),
        withdrawals_root: Some([0x19; 32]),
        blob_gas_used: Some(393_216),
        excess_blob_gas: Some(0),
        parent_beacon_block_root: Some([0x1a; 32]),
        requests_hash: Some([0x1b; 32]),
    }
}

fn optional_number(items: &mut Vec<Vec<u8>>, v: Option<u64>) {
    if let Some(v) = v {
        items.push(rlp_encode_u64(v));
    }
}

fn optional_hash(items: &mut Vec<Vec<u8>>, v: Option<[u8; 32]>) {
    if let Some(v) = v {
        items.push(rlp_encode_bytes(&v));
    }
}

fn expected_header_rlp(h: &BlockHeader) -> Vec<u8> {
    let mut items = vec![
        rlp_encode_bytes(&h.parent_hash),
        rlp_encode_bytes(&h.ommers_hash),
        rlp_encode_bytes(&h.beneficiary),
        rlp_encode_bytes(&h.state_root),
        rlp_encode_bytes(&h.transactions_root),
        rlp_encode_bytes(&h.receipts_root),
        rlp_encode_bytes(&h.logs_bloom),
        rlp_encode_u256(&h.difficulty),
        rlp_encode_u64(h.number),
        rlp_encode_u64(h.gas_limit),
        rlp_encode_u64(h.gas_used),
        rlp_encode_u64(h.timestamp),
        rlp_encode_bytes(&h.extra_data),
        rlp_encode_bytes(&h.mix_hash),
        rlp_encode_bytes(&h.nonce),
    ];
    optional_number(&mut items, h.base_fee_per_gas);
    optional_hash(&mut items, h.withdrawals_root);
    optional_number(&mut items, h.blob_gas_used);
    optional_number(&mut items, h.excess_blob_gas);
    optional_hash(&mut items, h.parent_beacon_block_root);
    optional_hash(&mut items, h.requests_hash);
    rlp_encode_list(&items)
}

fn legacy() -> Transaction {
    Transaction::Legacy(
        LegacyTx {
            chain_id: Some(1),
            nonce: 9,
            gas_price: 20_000_000_000,
            gas_limit: 21_000,
            to: Some([0x35; 20]),
            value: word(1_000_000_000_000_000_000),
            input: vec![],
        },
        TxSignature {
            r: wide("28ef61340bd939bc2195fe537567866003e1a15d3c71ff63e1590620aa636276"),
            s: wide("67cbe9d8997f761aecb703304b3800ccf555c9f3dc64214b297fb1966a3b6d83"),
            y_parity: false,
        },
    )
}

const LEGACY_ENVELOPE: &str = "f86c098504a817c800825208943535353535353535353535353535353535353535\
    880de0b6b3a76400008025a028ef61340bd939bc2195fe537567866003e1a15d3c71ff63e1590620aa636276a067c\
    be9d8997f761aecb703304b3800ccf555c9f3dc64214b297fb1966a3b6d83";

fn signature() -> TxSignature {
    TxSignature { r: word(0x1234), s: U256 { limbs: [1, 0, 0, 2] }, y_parity: true }
}

fn access_list() -> Vec<AccessListEntry> {
    vec![
        AccessListEntry { address: [0x21; 20], storage_keys: vec![[1; 32], [2; 32]] },
        AccessListEntry { address: [0x22; 20], storage_keys: vec![] },
    ]
}

fn access_list_rlp() -> Vec<u8> {
    rlp_encode_list(&[
        rlp_encode_list(&[
            rlp_encode_bytes(&[0x21; 20]),
            rlp_encode_list(&[rlp_encode_bytes(&[1; 32]), rlp_encode_bytes(&[2; 32])]),
        ]),
        rlp_encode_list(&[rlp_encode_bytes(&[0x22; 20]), rlp_encode_list(&[])]),
    ])
}

fn typed(ty: u8, mut fields: Vec<Vec<u8>>) -> Vec<u8> {
    fields.push(rlp_encode_u64(1));
    fields.push(rlp_encode_u256(&signature().r));
    fields.push(rlp_encode_u256(&signature().s));
    let mut out = vec![ty];
    out.extend(rlp_encode_list(&fields));
    out
}

#[test]
fn legacy_envelope() {
    assert_eq!(hex::encode(legacy().encoded_2718()), LEGACY_ENVELOPE);
}

#[test]
fn legacy_envelope_without_chain_id() {
    let tx = LegacyTx {
        chain_id: None,
        nonce: 0,
        gas_price: 1,
        gas_limit: 2,
        to: None,
        value: word(3),
        input: vec![4, 5],
    };
    let expected = rlp_encode_list(&[
        rlp_encode_u64(0),
        rlp_encode_u64(1),
        rlp_encode_u64(2),
        rlp_encode_bytes(&[]),
        rlp_encode_u64(3),
        rlp_encode_bytes(&[4, 5]),
        rlp_encode_u64(28),
        rlp_encode_u256(&signature().r),
        rlp_encode_u256(&signature().s),
    ]);
    assert_eq!(Transaction::Legacy(tx, signature()).encoded_2718(), expected);
}

#[test]
fn access_list_envelope() {
    let tx = Eip2930Tx {
        chain_id: 1,
        nonce: 2,
        gas_price: 3,
        gas_limit: 4,
        to: Some([5; 20]),
        value: word(6),
        access_list: access_list(),
        input: vec![7; 60],
    };
    let expected = typed(
        1,
        vec![
            rlp_encode_u64(1),
            rlp_encode_u64(2),
            rlp_encode_u64(3),
            rlp_encode_u64(4),
            rlp_encode_bytes(&[5; 20]),
            rlp_encode_u64(6),
            rlp_encode_bytes(&[7; 60]),
            access_list_rlp(),
        ],
    );
    assert_eq!(Transaction::Eip2930(tx, signature()).encoded_2718(), expected);
}

#[test]
fn fee_market_envelope() {
    let tx = Eip1559Tx {
        chain_id: 1,
        nonce: 2,
        gas_limit: 5,
        max_fee_per_gas: 4,
        max_priority_fee_per_gas: 3,
        to: None,
        value: word(6),
        access_list: access_list(),
        input: vec![8],
    };
    let expected = typed(
        2,
        vec![
            rlp_encode_u64(1),
            rlp_encode_u64(2),
            rlp_encode_u64(3),
            rlp_encode_u64(4),
            rlp_encode_u64(5),
            rlp_encode_bytes(&[]),
            rlp_encode_u64(6),
            rlp_encode_bytes(&[8]),
            access_list_rlp(),
        ],
    );
    assert_eq!(Transaction::Eip1559(tx, signature()).encoded_2718(), expected);
}

#[test]
fn blob_envelope() {
    let tx = Eip4844Tx {
        chain_id: 1,
        nonce: 2,
        gas_limit: 5,
        max_fee_per_gas: 4,
        max_priority_fee_per_gas: 3,
        to: [9; 20],
        value: word(0),
        access_list: access_list(),
        blob_versioned_hashes: vec![[0xb1; 32], [0xb2; 32]],
        max_fee_per_blob_gas: 10,
        input: vec![],
    };
    let expected = typed(
        3,
        vec![
            rlp_encode_u64(1),
            rlp_encode_u64(2),
            rlp_encode_u64(3),
            rlp_encode_u64(4),
            rlp_encode_u64(5),
            rlp_encode_bytes(&[9; 20]),
            rlp_encode_u64(0),
            rlp_encode_bytes(&[]),
            access_list_rlp(),
            rlp_encode_u64(10),
            rlp_encode_list(&[rlp_encode_bytes(&[0xb1; 32]), rlp_encode_bytes(&[0xb2; 32])]),
        ],
    );
    assert_eq!(Transaction::Eip4844(tx, signature()).encoded_2718(), expected);
}

#[test]
fn set_code_envelope() {
    let tx = Eip7702Tx {
        chain_id: 1,
        nonce: 2,
        gas_limit: 5,
        max_fee_per_gas: 4,
        max_priority_fee_per_gas: 3,
        to: [9; 20],
        value: word(7),
        access_list: vec![],
        authorization_list: vec![AuthorizationEntry {
            chain_id: word(1),
            address: [0x77; 20],
            nonce: 300,
            y_parity: 27,
            r: word(11),
            s: word(12),
        }],
        input: vec![1, 2],
    };
    let expected = typed(
        4,
        vec![
            rlp_encode_u64(1),
            rlp_encode_u64(2),
            rlp_encode_u64(3),
            rlp_encode_u64(4),
            rlp_encode_u64(5),
            rlp_encode_bytes(&[9; 20]),
            rlp_encode_u64(7),
            rlp_encode_bytes(&[1, 2]),
            rlp_encode_list(&[]),
            rlp_encode_list(&[rlp_encode_list(&[
                rlp_encode_u64(1),
                rlp_encode_bytes(&[0x77; 20]),
                rlp_encode_u64(300),
                rlp_encode_u64(27),
                rlp_encode_u64(11),
                rlp_encode_u64(12),
            ])]),
        ],
    );
    assert_eq!(Transaction::Eip7702(tx, signature()).encoded_2718(), expected);
}

fn withdrawals() -> Vec<Withdrawal> {
    vec![
        Withdrawal { index: 100, validator_index: 7, address: [0x31; 20], amount: 18_000_000 },
        Withdrawal { index: 101, validator_index: 0, address: [0x32; 20], amount: 0 },
    ]
}

fn withdrawals_rlp() -> Vec<u8> {
    rlp_encode_list(&[
        rlp_encode_list(&[
            rlp_encode_u64(100),
            rlp_encode_u64(7),
            rlp_encode_bytes(&[0x31; 20]),
            rlp_encode_u64(18_000_000),
        ]),
        rlp_encode_list(&[
            rlp_encode_u64(101),
            rlp_encode_u64(0),
            rlp_encode_bytes(&[0x32; 20]),
            rlp_encode_u64(0),
        ]),
    ])
}

#[test]
fn withdrawals_are_listed() {
    assert_eq!(build_withdrawals(&Some(withdrawals())), withdrawals_rlp());
    assert_eq!(build_withdrawals(&Some(vec![])), vec![0xc0]);
    assert_eq!(build_withdrawals(&None), vec![0xc0]);
}

#[test]
fn raw_transactions_are_byte_strings() {
    assert_eq!(build_raw_txs(&vec![]), vec![0xc0]);
    let raw = vec![vec![0x02, 0xc0], vec![0x05]];
    assert_eq!(build_raw_txs(&raw), vec![0xc4, 0x82, 0x02, 0xc0, 0x05]);
}

fn block_input_rlp(parent_hash: [u8; 32]) -> Vec<u8> {
    rlp_encode_list(&[
        rlp_encode_u64(22_500_000),
        rlp_encode_u64(1_747_000_000),
        rlp_encode_bytes(&[0x13; 20]),
        rlp_encode_u64(36_000_000),
        rlp_encode_u64(1_000_000_007),
        rlp_encode_bytes(&[0x18; 32]),
        rlp_encode_u64(1),
        rlp_encode_u64(0),
        rlp_encode_bytes(&[0x1a; 32]),
        rlp_encode_bytes(&parent_hash),
        rlp_encode_u64(1),
    ])
}

#[test]
fn block_input_fields() {
    assert_eq!(MAINNET_CHAIN_ID, 1);
    assert_eq!(build_block_input(&header(), &[0x99; 32]), block_input_rlp([0x99; 32]));
}

#[test]
fn block_input_defaults() {
    let bare = BlockHeader {
        base_fee_per_gas: None,
        excess_blob_gas: None,
        parent_beacon_block_root: None,
        ..header()
    };
    let expected = rlp_encode_list(&[
        rlp_encode_u64(22_500_000),
        rlp_encode_u64(1_747_000_000),
        rlp_encode_bytes(&[0x13; 20]),
        rlp_encode_u64(36_000_000),
        rlp_encode_u64(0),
        rlp_encode_bytes(&[0x18; 32]),
        rlp_encode_u64(1),
        rlp_encode_u64(0),
        rlp_encode_bytes(&[0; 32]),
        rlp_encode_bytes(&[0x99; 32]),
        rlp_encode_u64(1),
    ]);
    assert_eq!(build_block_input(&bare, &[0x99; 32]), expected);
}

#[test]
fn parent_summary_fields() {
    let expected = rlp_encode_list(&[
        rlp_encode_u64(36_000_000),
        rlp_encode_u64(1_000_000_007),
        rlp_encode_u64(1_747_000_000),
        rlp_encode_u64(12_345_678),
        rlp_encode_u64(393_216),
        rlp_encode_u64(0),
    ]);
    assert_eq!(build_parent_summary(&header()), expected);
    let expected = rlp_encode_list(&[
        rlp_encode_u64(5000),
        rlp_encode_u64(0),
        rlp_encode_u64(0),
        rlp_encode_u64(0),
        rlp_encode_u64(0),
        rlp_encode_u64(0),
    ]);
    assert_eq!(build_parent_summary(&genesis()), expected);
}

fn block() -> Block {
    Block {
        header: header(),
        transactions: vec![legacy(), legacy()],
        withdrawals: Some(withdrawals()),
    }
}

fn parent() -> Block {
    Block { header: genesis(), transactions: vec![], withdrawals: None }
}

fn accounts() -> Vec<([u8; 20], AccountInfo)> {
    let info = AccountInfo { balance: word(1), nonce: 2, code_hash: [3; 32], code: None };
    vec![([4; 20], info)]
}

fn storage() -> Vec<([u8; 20], Vec<(U256, U256)>)> {
    vec![([4; 20], vec![(word(5), word(6))])]
}

fn expected_blob(witness: &[([u8; 32], Vec<u8>)], storage_witness: &[([u8; 32], Vec<u8>)]) -> Vec<u8> {
    let envelope = hex::decode(LEGACY_ENVELOPE).unwrap();
    rlp_encode_list(&[
        block_input_rlp(hash(GENESIS_HASH)),
        build_pre_state(&accounts(), &storage()),
        rlp_encode_list(&[rlp_encode_bytes(&envelope), rlp_encode_bytes(&envelope)]),
        withdrawals_rlp(),
        rlp_encode_bytes(&genesis().state_root),
        rlp_encode_bytes(&[0; 32]),
        build_witness_list(witness),
        build_witness_list(storage_witness),
        rlp_encode_bytes(&expected_header_rlp(&header())),
        build_parent_summary(&genesis()),
    ])
}

#[test]
fn blob_has_ten_parts() {
    let witness = vec![([8; 32], vec![9; 40])];
    let storage_witness = vec![([6; 32], vec![7; 33]), ([5; 32], vec![4; 70])];
    let expected = expected_blob(&witness, &storage_witness);
    let blob = build_zig_blob(
        &block(),
        &parent(),
        accounts(),
        storage(),
        witness,
        storage_witness,
    );
    assert_eq!(blob, expected);
}

#[test]
fn blob_is_assembled_from_hash_envelopes_and_header() {
    let built = build_zig_blob(&block(), &parent(), accounts(), storage(), vec![], vec![]);
    let envelope = hex::decode(LEGACY_ENVELOPE).unwrap();
    let assembled = assemble_zig_blob(
        &header(),
        &genesis(),
        &hash(GENESIS_HASH),
        &vec![envelope.clone(), envelope],
        &Some(withdrawals()),
        &expected_header_rlp(&header()),
        &accounts(),
        &storage(),
        &vec![],
        &vec![],
    );
    assert_eq!(built, assembled);
}

#[test]
fn headers_of_earlier_forks_are_shorter() {
    let early = BlockHeader { requests_hash: None, ..header() };
    let current = Block { header: early.clone(), transactions: vec![], withdrawals: None };
    let built = build_zig_blob(&current, &parent(), vec![], vec![], vec![], vec![]);
    let assembled = assemble_zig_blob(
        &early,
        &genesis(),
        &hash(GENESIS_HASH),
        &vec![],
        &None,
        &expected_header_rlp(&early),
        &vec![],
        &vec![],
        &vec![],
        &vec![],
    );
    assert_eq!(built, assembled);
}

#[test]
fn different_inputs_make_different_blobs() {
    let base = build_zig_blob(&block(), &parent(), accounts(), storage(), vec![], vec![]);
    let moved = build_zig_blob(
        &block(),
        &parent(),
        accounts(),
        storage(),
        vec![([1; 32], vec![1; 32])],
        vec![],
    );
    let swapped = build_zig_blob(
        &block(),
        &parent(),
        accounts(),
        storage(),
        vec![],
        vec![([1; 32], vec![1; 32])],
    );
    assert_ne!(base, moved);
    assert_ne!(base, swapped);
    assert_ne!(moved, swapped);
}

fn blob_of(current: &Block) -> Vec<u8> {
    build_zig_blob(current, &parent(), accounts(), storage(), vec![], vec![])
}

fn with_header(header: BlockHeader) -> Block {
    Block { header, ..block() }
}

#[test]
fn different_headers_make_different_blobs() {
    let base = blob_of(&block());
    let others = [
        BlockHeader { parent_hash: [0xee; 32], ..header() },
        BlockHeader { ommers_hash: [0xee; 32], ..header() },
        BlockHeader { beneficiary: [0xee; 20], ..header() },
        BlockHeader { state_root: [0xee; 32], ..header() },
        BlockHeader { transactions_root: [0xee; 32], ..header() },
        BlockHeader { receipts_root: [0xee; 32], ..header() },
        BlockHeader { logs_bloom: [0xee; 256], ..header() },
        BlockHeader { difficulty: word(1), ..header() },
        BlockHeader { number: 1, ..header() },
        BlockHeader { gas_limit: 1, ..header() },
        BlockHeader { gas_used: 1, ..header() },
        BlockHeader { timestamp: 1_747_000_001, ..header() },
        BlockHeader { extra_data: vec![], ..header() },
        BlockHeader { mix_hash: [0xee; 32], ..header() },
        BlockHeader { nonce: [0xee; 8], ..header() },
        BlockHeader { base_fee_per_gas: Some(1), ..header() },
        BlockHeader { withdrawals_root: Some([0xee; 32]), ..header() },
        BlockHeader { blob_gas_used: Some(1), ..header() },
        BlockHeader { excess_blob_gas: Some(1), ..header() },
        BlockHeader { parent_beacon_block_root: Some([0xee; 32]), ..header() },
        BlockHeader { requests_hash: Some([0xee; 32]), ..header() },
        BlockHeader { requests_hash: None, ..header() },
    ];
    for other in others {
        assert_ne!(blob_of(&with_header(other)), base);
    }
}

fn fee_market(tx: Eip1559Tx) -> Block {
    Block { transactions: vec![Transaction::Eip1559(tx, signature())], ..block() }
}

#[test]
fn different_transactions_make_different_blobs() {
    let tx = Eip1559Tx {
        chain_id: 1,
        nonce: 2,
        gas_limit: 5,
        max_fee_per_gas: 4,
        max_priority_fee_per_gas: 3,
        to: Some([9; 20]),
        value: word(6),
        access_list: access_list(),
        input: vec![8],
    };
    let base = blob_of(&fee_market(tx.clone()));
    let others = [
        Eip1559Tx { chain_id: 2, ..tx.clone() },
        Eip1559Tx { nonce: 3, ..tx.clone() },
        Eip1559Tx { gas_limit: 6, ..tx.clone() },
        Eip1559Tx { max_fee_per_gas: 3, max_priority_fee_per_gas: 4, ..tx.clone() },
        Eip1559Tx { to: None, ..tx.clone() },
        Eip1559Tx { value: word(7), ..tx.clone() },
        Eip1559Tx { access_list: vec![], ..tx.clone() },
        Eip1559Tx { input: vec![], ..tx.clone() },
    ];
    for other in others {
        assert_ne!(blob_of(&fee_market(other)), base);
    }
    let flipped = TxSignature { y_parity: false, ..signature() };
    let resigned = Block { transactions: vec![Transaction::Eip1559(tx, flipped)], ..block() };
    assert_ne!(blob_of(&resigned), base);
}

#[test]
fn bench_files_hold_the_collected_witnesses() {
    let leaf = |id: u8, len: usize| TrieNode {
        data: TrieNodeData::Leaf,
        encoded: vec![id; len],
        hash: [id; 32],
    };
    let state_trie = TrieNode {
        data: TrieNodeData::Branch(vec![Some(Box::new(leaf(2, 40))), None]),
        encoded: vec![1; 50],
        hash: [1; 32],
    };
    let storage_tries = vec![leaf(3, 10), leaf(4, 45)];
    let touched = vec![TouchedAccount {
        address: [4; 20],
        info: Some(accounts()[0].1.clone()),
        storage: vec![(word(5), word(0))],
    }];
    let files = build_bench_files(
        &block(),
        &parent(),
        accounts(),
        storage(),
        &state_trie,
        &storage_tries,
        &touched,
    );
    let witness = [([1; 32], vec![1; 50]), ([2; 32], vec![2; 40])];
    let storage_witness = [([4; 32], vec![4; 45])];
    assert_eq!(files.zig_blob, expected_blob(&witness, &storage_witness));
    assert_eq!(files.state_diff, build_state_diff(&touched));
    assert_eq!((files.witness_nodes, files.storage_witness_nodes), (2, 1));
}
