use bench_from_rpc::header::BlockHeader;
use bench_from_rpc::report::{root_hex, verify_state_root, StateRootMismatch};
use bench_from_rpc::rlp::{rlp_encode_bytes, rlp_encode_list, rlp_encode_u64};
use bench_from_rpc::state::{
    build_pre_state, build_state_diff, count_empty_accounts, count_storage_entries,
    is_empty_account, AccountInfo, TouchedAccount,
};
use bench_from_rpc::uint::U256;
use revm_state::Bytecode;

fn word(v: u64) -> U256 {
    U256 { limbs: [v, 0, 0, 0] }
}

fn account(balance: u64, nonce: u64, code: Option<Vec<u8>>) -> AccountInfo {
    AccountInfo { balance: word(balance), nonce, code_hash: [0xcc; 32], code }
}

fn slot(k: u64, v: u64) -> Vec<u8> {
    rlp_encode_list(&[rlp_encode_u64(k), rlp_encode_u64(v)])
}

#[test]
fn empty_accounts() {
    assert!(is_empty_account(&account(0, 0, None)));
    assert!(is_empty_account(&account(0, 0, Some(vec![]))));
    assert!(!is_empty_account(&account(1, 0, None)));
    assert!(!is_empty_account(&account(0, 1, None)));
    assert!(!is_empty_account(&account(0, 0, Some(vec![0]))));
    let high = AccountInfo { balance: U256 { limbs: [0, 0, 0, 1] }, ..account(0, 0, None) };
    assert!(!is_empty_account(&high));
}

#[test]
fn bytecode_loses_its_padding() {
    let padded = Bytecode::new_legacy(vec![0x60].into());
    assert!(padded.bytes_slice().len() > 1);
    let info = AccountInfo::with_bytecode(word(1), 2, [3; 32], &Some(padded));
    let expected =
        AccountInfo { balance: word(1), nonce: 2, code_hash: [3; 32], code: Some(vec![0x60]) };
    assert_eq!(info, expected);
}

#[test]
fn delegated_bytecode_is_kept_whole() {
    let delegated = Bytecode::new_eip7702([0x77; 20].into());
    let info = AccountInfo::with_bytecode(word(0), 0, [3; 32], &Some(delegated));
    let mut expected = vec![0xef, 0x01, 0x00];
    expected.extend([0x77; 20]);
    assert_eq!(info.code, Some(expected));
}

#[test]
fn accounts_without_code_are_told_apart_from_contracts() {
    let unloaded = AccountInfo::with_bytecode(word(0), 0, [3; 32], &None);
    assert_eq!(unloaded, account_with_hash(None));
    let default = AccountInfo::with_bytecode(word(0), 0, [3; 32], &Some(Bytecode::default()));
    assert_eq!(default, account_with_hash(Some(vec![])));
    assert!(is_empty_account(&unloaded));
    assert!(is_empty_account(&default));
}

fn account_with_hash(code: Option<Vec<u8>>) -> AccountInfo {
    AccountInfo { balance: word(0), nonce: 0, code_hash: [3; 32], code }
}

#[test]
fn only_the_first_storage_entry_of_an_address_counts() {
    let accounts = vec![([1; 20], account(5, 0, None))];
    let once = vec![([1; 20], vec![(word(1), word(1))])];
    let twice = vec![
        ([1; 20], vec![(word(1), word(1))]),
        ([1; 20], vec![(word(2), word(2))]),
    ];
    let elsewhere = vec![([2; 20], vec![(word(1), word(1))])];
    assert_eq!(build_pre_state(&accounts, &twice), build_pre_state(&accounts, &once));
    assert_eq!(build_pre_state(&accounts, &elsewhere), build_pre_state(&accounts, &vec![]));
    assert_ne!(build_pre_state(&accounts, &once), build_pre_state(&accounts, &vec![]));
}

#[test]
fn pre_state_of_nothing() {
    assert_eq!(build_pre_state(&vec![], &vec![]), vec![0xc0]);
}

#[test]
fn pre_state_lists_accounts_with_their_slots() {
    let accounts = vec![
        ([1; 20], account(5, 0, None)),
        ([2; 20], account(0, 0, Some(vec![]))),
        ([3; 20], account(0, 7, Some(vec![0x60, 0x00]))),
    ];
    let storage = vec![
        ([3; 20], vec![(word(1), word(10)), (word(2), word(0)), (word(3), word(300))]),
        ([2; 20], vec![(word(1), word(1))]),
        ([3; 20], vec![(word(9), word(9))]),
    ];
    let expected = rlp_encode_list(&[
        rlp_encode_list(&[
            rlp_encode_bytes(&[1; 20]),
            rlp_encode_u64(5),
            rlp_encode_u64(0),
            rlp_encode_bytes(&[]),
            rlp_encode_list(&[]),
        ]),
        rlp_encode_list(&[
            rlp_encode_bytes(&[3; 20]),
            rlp_encode_u64(0),
            rlp_encode_u64(7),
            rlp_encode_bytes(&[0x60, 0x00]),
            rlp_encode_list(&[slot(1, 10), slot(3, 300)]),
        ]),
    ]);
    assert_eq!(build_pre_state(&accounts, &storage), expected);
    assert_eq!(count_empty_accounts(&accounts), 1);
    assert_eq!(count_storage_entries(&storage), 5);
}

#[test]
fn empty_accounts_leave_the_pre_state_as_it_is() {
    let without = vec![([1; 20], account(5, 0, None)), ([3; 20], account(0, 7, None))];
    let with = vec![
        ([1; 20], account(5, 0, None)),
        ([2; 20], account(0, 0, None)),
        ([3; 20], account(0, 7, None)),
    ];
    let storage = vec![([2; 20], vec![(word(1), word(1))])];
    assert_eq!(build_pre_state(&with, &storage), build_pre_state(&without, &storage));
    assert_eq!(count_empty_accounts(&with), 1);
    assert_eq!(count_empty_accounts(&without), 0);
}

#[test]
fn zero_slots_leave_the_pre_state_as_it_is() {
    let accounts = vec![([1; 20], account(5, 0, None))];
    let with = vec![([1; 20], vec![(word(1), word(1)), (word(2), word(0)), (word(3), word(3))])];
    let without = vec![([1; 20], vec![(word(1), word(1)), (word(3), word(3))])];
    assert_eq!(build_pre_state(&accounts, &with), build_pre_state(&accounts, &without));
}

#[test]
fn storage_entries_are_counted_over_all_addresses() {
    assert_eq!(count_storage_entries(&vec![]), 0);
    let storage = vec![([1; 20], vec![(word(1), word(0))]), ([2; 20], vec![])];
    assert_eq!(count_storage_entries(&storage), 1);
}

#[test]
fn state_diff_leaves_out_destroyed_accounts() {
    let touched = vec![
        TouchedAccount { address: [1; 20], info: None, storage: vec![(word(1), word(1))] },
        TouchedAccount {
            address: [2; 20],
            info: Some(account(1000, 3, Some(vec![1, 2, 3]))),
            storage: vec![(word(4), word(0)), (word(5), word(6))],
        },
        TouchedAccount { address: [3; 20], info: Some(account(0, 0, None)), storage: vec![] },
    ];
    let expected = rlp_encode_list(&[
        rlp_encode_list(&[
            rlp_encode_bytes(&[2; 20]),
            rlp_encode_u64(1000),
            rlp_encode_u64(3),
            rlp_encode_bytes(&[0xcc; 32]),
            rlp_encode_list(&[slot(4, 0), slot(5, 6)]),
        ]),
        rlp_encode_list(&[
            rlp_encode_bytes(&[3; 20]),
            rlp_encode_u64(0),
            rlp_encode_u64(0),
            rlp_encode_bytes(&[0xcc; 32]),
            rlp_encode_list(&[]),
        ]),
    ]);
    let diff = build_state_diff(&touched);
    assert_eq!(diff.rlp, expected);
    assert_eq!(diff.accounts, 2);
}

#[test]
fn state_diff_of_nothing() {
    let diff = build_state_diff(&vec![]);
    assert_eq!((diff.rlp, diff.accounts), (vec![0xc0], 0));
}

fn header_with_root(state_root: [u8; 32]) -> BlockHeader {
    BlockHeader {
        parent_hash: [0; 32],
        ommers_hash: [0; 32],
        beneficiary: [0; 20],
        state_root,
        transactions_root: [0; 32],
        receipts_root: [0; 32],
        logs_bloom: [0; 256],
        difficulty: word(0),
        number: 1,
        gas_limit: 0,
        gas_used: 0,
        timestamp: 0,
        extra_data: vec![],
        mix_hash: [0; 32],
        nonce: [0; 8],
        base_fee_per_gas: None,
        withdrawals_root: None,
        blob_gas_used: None,
        excess_blob_gas: None,
        parent_beacon_block_root: None,
        requests_hash: None,
    }
}

#[test]
fn state_root_is_compared_with_the_header() {
    let header = header_with_root([7; 32]);
    assert_eq!(verify_state_root(&[7; 32], &header), Ok(()));
    let mut other = [7; 32];
    other[31] = 8;
    assert_eq!(
        verify_state_root(&other, &header),
        Err(StateRootMismatch { computed: other, header: [7; 32] })
    );
}

#[test]
fn roots_are_shown_in_lower_case_hex() {
    let mut root = [0u8; 32];
    root[0] = 0xd4;
    root[1] = 0xe5;
    root[31] = 0x0f;
    assert_eq!(root_hex(&root), format!("d4e5{}0f", "00".repeat(29)));
    assert_eq!(root_hex(&[0xab; 32]), "ab".repeat(32));
}
