//! Account state before and after a block.

use vstd::prelude::*;
use revm_state::Bytecode;
use crate::bytes::same_bytes;
use crate::rlp::{rlp_encode_bytes, rlp_encode_list, rlp_encode_u64};
use crate::uint::{rlp_encode_u256, U256};
#[allow(unused_imports)]
use crate::rlp::{encode, encodes, lemma_concat_encodes, uint, Item};
#[allow(unused_imports)]
use crate::rlp::{law_uint_injective, law_uint_spells, lemma_map_injective, spells};

verus! {

/// What an account is, its storage aside.
#[derive(Clone, Debug, PartialEq, Eq)]
pub struct AccountInfo {
    pub balance: U256,
    pub nonce: u64,
    pub code_hash: [u8; 32],
    /// The deployed bytecode as it stands on chain, where it was loaded.
    pub code: Option<Vec<u8>>,
}

/// An account that a block touched, with the storage slots that it touched and
/// their values after the block. `info` is absent where the account destroyed
/// itself in the block.
#[derive(Clone, Debug, PartialEq, Eq)]
pub struct TouchedAccount {
    pub address: [u8; 20],
    pub info: Option<AccountInfo>,
    pub storage: Vec<(U256, U256)>,
}

/// What an account holds, its storage aside.
pub struct AccountModel {
    pub balance: nat,
    pub nonce: u64,
    pub code_hash: Seq<u8>,
    pub code: Seq<u8>,
}

impl View for AccountInfo {
    type V = AccountModel;

    open spec fn view(&self) -> AccountModel {
        AccountModel {
            balance: self.balance@,
            nonce: self.nonce,
            code_hash: self.code_hash@,
            code: match self.code {
                Some(code) => code@,
                None => Seq::empty(),
            },
        }
    }
}

impl AccountModel {
    /// Whether nothing distinguishes the account from one that does not exist.
    pub open spec fn is_empty(self) -> bool {
        self.balance == 0 && self.nonce == 0 && self.code.len() == 0
    }
}

/// The bytecode type of `revm_state`.
#[verifier::external_type_specification]
#[verifier::external_body]
pub struct ExBytecode(Bytecode);

/// The code that a `Bytecode` of `revm_state` holds, as it stands on chain.
pub uninterp spec fn original_code(code: Bytecode) -> Seq<u8>;

/// `Bytecode::original_bytes` of `revm_state`: the code without the padding that
/// analysis put behind it.
#[verifier::external_body]
fn original_bytes(code: &Bytecode) -> (r: Vec<u8>)
    ensures
        r@ == original_code(*code),
{
    code.original_bytes().to_vec()
}

impl AccountInfo {
    /// An account with bytecode as the virtual machine keeps it: the account
    /// gets the code as it stands on chain, where it was loaded.
    pub fn with_bytecode(
        balance: U256,
        nonce: u64,
        code_hash: [u8; 32],
        code: &Option<Bytecode>,
    ) -> (r: AccountInfo)
        ensures
            r.balance == balance,
            r.nonce == nonce,
            r.code_hash == code_hash,
            r.code is Some <==> code is Some,
            r.code matches Some(bytes) ==> bytes@ == original_code(code->0),
            r@.code == match *code {
                Some(code) => original_code(code),
                None => Seq::empty(),
            },
    {
        let code: Option<Vec<u8>> = match code {
            Some(code) => Some(original_bytes(code)),
            None => None,
        };
        AccountInfo { balance, nonce, code_hash, code }
    }
}

/// Storage slots with their values.
pub open spec fn slots_model(slots: Seq<(U256, U256)>) -> Seq<(nat, nat)> {
    slots.map_values(|slot: (U256, U256)| (slot.0@, slot.1@))
}

/// Accounts by address.
pub open spec fn accounts_model(accounts: Seq<([u8; 20], AccountInfo)>) -> Seq<
    (Seq<u8>, AccountModel),
> {
    accounts.map_values(|account: ([u8; 20], AccountInfo)| (account.0@, account.1@))
}

/// Storage by address.
pub open spec fn storage_model(storage: Seq<([u8; 20], Vec<(U256, U256)>)>) -> Seq<
    (Seq<u8>, Seq<(nat, nat)>),
> {
    storage.map_values(|entry: ([u8; 20], Vec<(U256, U256)>)| (entry.0@, slots_model(entry.1@)))
}

/// The slots of the first storage entry for `address`; none where there is no
/// such entry.
pub open spec fn slots_of(storage: Seq<(Seq<u8>, Seq<(nat, nat)>)>, address: Seq<u8>) -> Seq<
    (nat, nat),
>
    decreases storage.len(),
{
    if storage.len() == 0 {
        Seq::empty()
    } else if storage[0].0 == address {
        storage[0].1
    } else {
        slots_of(storage.drop_first(), address)
    }
}

/// A storage slot as an item: `[slot, value]`.
pub open spec fn slot_item(slot: (nat, nat)) -> Item {
    Item::List(seq![uint(slot.0), uint(slot.1)])
}

/// Storage slots as an item: the list of them.
pub open spec fn slots_item(slots: Seq<(nat, nat)>) -> Item {
    Item::List(slots.map_values(|slot: (nat, nat)| slot_item(slot)))
}

/// The slots that hold something; the trie has no leaf for a slot that is zero.
pub open spec fn nonzero_slots(slots: Seq<(nat, nat)>) -> Seq<(nat, nat)> {
    slots.filter(|slot: (nat, nat)| slot.1 != 0)
}

/// The accounts that exist on chain; the trie has no leaf for an empty one.
pub open spec fn existing_accounts(accounts: Seq<(Seq<u8>, AccountModel)>) -> Seq<
    (Seq<u8>, AccountModel),
> {
    accounts.filter(|account: (Seq<u8>, AccountModel)| !account.1.is_empty())
}

/// An account before the block as an item:
/// `[address, balance, nonce, code, [[slot, value], ..]]`.
pub open spec fn pre_account_item(
    account: (Seq<u8>, AccountModel),
    storage: Seq<(Seq<u8>, Seq<(nat, nat)>)>,
) -> Item {
    Item::List(
        seq![
            Item::Str(account.0),
            uint(account.1.balance),
            uint(account.1.nonce as nat),
            Item::Str(account.1.code),
            slots_item(nonzero_slots(slots_of(storage, account.0))),
        ],
    )
}

/// The state before the block as an item: the accounts that exist, each with
/// its slots that are not zero.
pub open spec fn pre_state_item(
    accounts: Seq<(Seq<u8>, AccountModel)>,
    storage: Seq<(Seq<u8>, Seq<(nat, nat)>)>,
) -> Item {
    Item::List(
        existing_accounts(accounts).map_values(
            |account: (Seq<u8>, AccountModel)| pre_account_item(account, storage),
        ),
    )
}

/// Filtering one more element keeps it or drops it.
proof fn lemma_filter_take<A>(s: Seq<A>, p: spec_fn(A) -> bool, i: int)
    requires
        0 <= i < s.len(),
    ensures
        s.take(i + 1).filter(p) == if p(s[i]) {
            s.take(i).filter(p).push(s[i])
        } else {
            s.take(i).filter(p)
        },
{
    reveal(Seq::filter);
    assert(s.take(i + 1).drop_last() == s.take(i));
}

/// Encodes a storage slot as `[slot, value]`.
fn encode_slot(slot: &U256, value: &U256) -> (r: Vec<u8>)
    ensures
        r@ == encode(slot_item((slot@, value@))),
{
    let pair: [Vec<u8>; 2] = [rlp_encode_u256(slot), rlp_encode_u256(value)];
    proof {
        lemma_concat_encodes(pair@, seq![uint(slot@), uint(value@)]);
    }
    rlp_encode_list(&pair)
}

/// Encodes storage slots as a list of `[slot, value]`, leaving out those that
/// are zero.
fn encode_nonzero_slots(slots: &Vec<(U256, U256)>) -> (r: Vec<u8>)
    ensures
        r@ == encode(slots_item(nonzero_slots(slots_model(slots@)))),
{
    let ghost model = slots_model(slots@);
    let ghost kept = |slot: (nat, nat)| slot.1 != 0;
    let ghost to_item = |slot: (nat, nat)| slot_item(slot);
    let mut items: Vec<Vec<u8>> = Vec::new();
    let mut i: usize = 0;
    assert(model.take(0).filter(kept) == Seq::<(nat, nat)>::empty()) by {
        reveal(Seq::filter);
    }
    while i < slots.len()
        invariant
            i <= slots@.len(),
            model == slots_model(slots@),
            kept == (|slot: (nat, nat)| slot.1 != 0),
            to_item == (|slot: (nat, nat)| slot_item(slot)),
            encodes(items@, model.take(i as int).filter(kept).map_values(to_item)),
        decreases slots@.len() - i,
    {
        let (slot, value) = &slots[i];
        proof {
            lemma_filter_take(model, kept, i as int);
        }
        if !value.is_zero() {
            items.push(encode_slot(slot, value));
        }
        i += 1;
    }
    assert(model.take(i as int) == model);
    proof {
        lemma_concat_encodes(items@, nonzero_slots(model).map_values(to_item));
    }
    rlp_encode_list(items.as_slice())
}

/// Encodes storage slots as a list of `[slot, value]`, zero values included.
fn encode_slots(slots: &Vec<(U256, U256)>) -> (r: Vec<u8>)
    ensures
        r@ == encode(slots_item(slots_model(slots@))),
{
    let ghost model = slots_model(slots@);
    let mut items: Vec<Vec<u8>> = Vec::new();
    let mut i: usize = 0;
    while i < slots.len()
        invariant
            i <= slots@.len(),
            items@.len() == i,
            model == slots_model(slots@),
            forall|j: int| 0 <= j < i ==> (#[trigger] items@[j])@ == encode(slot_item(model[j])),
        decreases slots@.len() - i,
    {
        let (slot, value) = &slots[i];
        items.push(encode_slot(slot, value));
        i += 1;
    }
    proof {
        lemma_concat_encodes(items@, model.map_values(|slot: (nat, nat)| slot_item(slot)));
    }
    rlp_encode_list(items.as_slice())
}

/// Encodes the slots that `storage` holds for `address`, leaving out those that
/// are zero.
fn encode_slots_of(storage: &Vec<([u8; 20], Vec<(U256, U256)>)>, address: &[u8; 20]) -> (r: Vec<
    u8,
>)
    ensures
        r@ == encode(slots_item(nonzero_slots(slots_of(storage_model(storage@), address@)))),
{
    let ghost model = storage_model(storage@);
    let mut i: usize = 0;
    assert(model.skip(0) == model);
    while i < storage.len()
        invariant
            i <= storage@.len(),
            model == storage_model(storage@),
            slots_of(model, address@) == slots_of(model.skip(i as int), address@),
        decreases storage@.len() - i,
    {
        let entry = &storage[i];
        assert(model.skip(i as int)[0] == (entry.0@, slots_model(entry.1@)));
        if same_bytes(&entry.0, address) {
            return encode_nonzero_slots(&entry.1);
        }
        assert(model.skip(i as int).drop_first() == model.skip(i + 1));
        i += 1;
    }
    let none: Vec<(U256, U256)> = Vec::new();
    assert(slots_model(none@) == Seq::<(nat, nat)>::empty());
    encode_nonzero_slots(&none)
}

/// Whether nothing distinguishes the account from one that does not exist:
/// no balance, no nonce and no code.
pub fn is_empty_account(info: &AccountInfo) -> (r: bool)
    ensures
        r == info@.is_empty(),
        r <==> info.balance@ == 0 && info.nonce == 0 && (info.code matches Some(code)
            ==> code@.len() == 0),
{
    let code_len: usize = match &info.code {
        Some(code) => code.len(),
        None => 0,
    };
    info.balance.is_zero() && info.nonce == 0 && code_len == 0
}

/// Encodes an account before the block.
fn encode_pre_account(
    address: &[u8; 20],
    info: &AccountInfo,
    storage: &Vec<([u8; 20], Vec<(U256, U256)>)>,
) -> (r: Vec<u8>)
    ensures
        r@ == encode(pre_account_item((address@, info@), storage_model(storage@))),
{
    let none: Vec<u8> = Vec::new();
    let code: &[u8] = match &info.code {
        Some(code) => code.as_slice(),
        None => none.as_slice(),
    };
    assert(code@ == info@.code);
    let fields: [Vec<u8>; 5] = [
        rlp_encode_bytes(address),
        rlp_encode_u256(&info.balance),
        rlp_encode_u64(info.nonce),
        rlp_encode_bytes(code),
        encode_slots_of(storage, address),
    ];
    proof {
        let items = pre_account_item((address@, info@), storage_model(storage@))->List_0;
        lemma_concat_encodes(fields@, items);
    }
    rlp_encode_list(&fields)
}

/// Encodes the state before the block. Accounts that do not exist on chain are
/// left out, since the trie has no leaf for them, and so are slots that are
/// zero.
pub fn build_pre_state(
    accounts: &Vec<([u8; 20], AccountInfo)>,
    storage: &Vec<([u8; 20], Vec<(U256, U256)>)>,
) -> (r: Vec<u8>)
    ensures
        r@ == encode(pre_state_item(accounts_model(accounts@), storage_model(storage@))),
{
    let ghost model = accounts_model(accounts@);
    let ghost slots = storage_model(storage@);
    let ghost kept = |account: (Seq<u8>, AccountModel)| !account.1.is_empty();
    let ghost to_item = |account: (Seq<u8>, AccountModel)| pre_account_item(account, slots);
    let mut items: Vec<Vec<u8>> = Vec::new();
    let mut i: usize = 0;
    assert(model.take(0).filter(kept) == Seq::<(Seq<u8>, AccountModel)>::empty()) by {
        reveal(Seq::filter);
    }
    while i < accounts.len()
        invariant
            i <= accounts@.len(),
            model == accounts_model(accounts@),
            slots == storage_model(storage@),
            kept == (|account: (Seq<u8>, AccountModel)| !account.1.is_empty()),
            to_item == (|account: (Seq<u8>, AccountModel)| pre_account_item(account, slots)),
            encodes(items@, model.take(i as int).filter(kept).map_values(to_item)),
        decreases accounts@.len() - i,
    {
        let (address, info) = &accounts[i];
        proof {
            lemma_filter_take(model, kept, i as int);
        }
        if !is_empty_account(info) {
            items.push(encode_pre_account(address, info, storage));
        }
        i += 1;
    }
    assert(model.take(i as int) == model);
    proof {
        lemma_concat_encodes(items@, existing_accounts(model).map_values(to_item));
    }
    rlp_encode_list(items.as_slice())
}

/// The number of accounts that the state before the block leaves out.
pub fn count_empty_accounts(accounts: &Vec<([u8; 20], AccountInfo)>) -> (r: usize)
    ensures
        r == accounts@.len() - existing_accounts(accounts_model(accounts@)).len(),
{
    let ghost model = accounts_model(accounts@);
    let ghost kept = |account: (Seq<u8>, AccountModel)| !account.1.is_empty();
    let mut empty: usize = 0;
    let mut i: usize = 0;
    assert(model.take(0).filter(kept).len() == 0) by {
        reveal(Seq::filter);
    }
    while i < accounts.len()
        invariant
            i <= accounts@.len(),
            empty <= i,
            model == accounts_model(accounts@),
            kept == (|account: (Seq<u8>, AccountModel)| !account.1.is_empty()),
            empty == i - model.take(i as int).filter(kept).len(),
        decreases accounts@.len() - i,
    {
        proof {
            lemma_filter_take(model, kept, i as int);
        }
        if is_empty_account(&accounts[i].1) {
            empty += 1;
        }
        i += 1;
    }
    assert(model.take(i as int) == model);
    empty
}

/// The number of storage slots over all addresses.
pub open spec fn slot_count(storage: Seq<(Seq<u8>, Seq<(nat, nat)>)>) -> nat
    decreases storage.len(),
{
    if storage.len() == 0 {
        0
    } else {
        slot_count(storage.drop_last()) + storage.last().1.len()
    }
}

/// Counts the storage slots over all addresses.
pub fn count_storage_entries(storage: &Vec<([u8; 20], Vec<(U256, U256)>)>) -> (r: u128)
    ensures
        r == slot_count(storage_model(storage@)),
{
    let ghost model = storage_model(storage@);
    let mut total: u128 = 0;
    let mut i: usize = 0;
    while i < storage.len()
        invariant
            i <= storage@.len(),
            model == storage_model(storage@),
            total == slot_count(model.take(i as int)),
            total <= i * u64::MAX,
        decreases storage@.len() - i,
    {
        assert(model.take(i + 1).drop_last() == model.take(i as int));
        assert(i * u64::MAX + u64::MAX <= u128::MAX) by (nonlinear_arith)
            requires
                i <= u64::MAX - 1,
        ;
        total = total + storage[i].1.len() as u128;
        assert((i + 1) * u64::MAX == i * u64::MAX + u64::MAX) by (nonlinear_arith);
        i += 1;
    }
    assert(model.take(i as int) == model);
    total
}

/// An account after the block.
pub struct TouchedModel {
    pub address: Seq<u8>,
    pub info: Option<AccountModel>,
    pub storage: Seq<(nat, nat)>,
}

impl View for TouchedAccount {
    type V = TouchedModel;

    open spec fn view(&self) -> TouchedModel {
        TouchedModel {
            address: self.address@,
            info: match self.info {
                Some(info) => Some(info@),
                None => None,
            },
            storage: slots_model(self.storage@),
        }
    }
}

/// The touched accounts.
pub open spec fn touched_model(accounts: Seq<TouchedAccount>) -> Seq<TouchedModel> {
    accounts.map_values(|account: TouchedAccount| account@)
}

/// The touched accounts that are still there after the block.
pub open spec fn surviving_accounts(accounts: Seq<TouchedModel>) -> Seq<TouchedModel> {
    accounts.filter(|account: TouchedModel| account.info is Some)
}

/// An account after the block as an item:
/// `[address, balance, nonce, code_hash, [[slot, value], ..]]`.
pub open spec fn post_account_item(account: TouchedModel) -> Item {
    Item::List(
        seq![
            Item::Str(account.address),
            uint(account.info->0.balance),
            uint(account.info->0.nonce as nat),
            Item::Str(account.info->0.code_hash),
            slots_item(account.storage),
        ],
    )
}

/// The state after the block as an item: the touched accounts that are still
/// there, each with the slots that were touched.
pub open spec fn state_diff_item(accounts: Seq<TouchedModel>) -> Item {
    Item::List(
        surviving_accounts(accounts).map_values(
            |account: TouchedModel| post_account_item(account),
        ),
    )
}

/// The encoded state after a block, and the number of accounts in it.
#[derive(Debug, PartialEq, Eq)]
pub struct StateDiff {
    pub rlp: Vec<u8>,
    pub accounts: usize,
}

/// Encodes an account after the block.
fn encode_post_account(account: &TouchedAccount, info: &AccountInfo) -> (r: Vec<u8>)
    requires
        account.info == Some(*info),
    ensures
        r@ == encode(post_account_item(account@)),
{
    let fields: [Vec<u8>; 5] = [
        rlp_encode_bytes(&account.address),
        rlp_encode_u256(&info.balance),
        rlp_encode_u64(info.nonce),
        rlp_encode_bytes(&info.code_hash),
        encode_slots(&account.storage),
    ];
    proof {
        lemma_concat_encodes(fields@, post_account_item(account@)->List_0);
    }
    rlp_encode_list(&fields)
}

/// Encodes the state that a block leaves the touched accounts in. Accounts that
/// destroyed themselves are left out.
pub fn build_state_diff(accounts: &Vec<TouchedAccount>) -> (r: StateDiff)
    ensures
        r.rlp@ == encode(state_diff_item(touched_model(accounts@))),
        r.accounts == surviving_accounts(touched_model(accounts@)).len(),
{
    let ghost model = touched_model(accounts@);
    let ghost kept = |account: TouchedModel| account.info is Some;
    let ghost to_item = |account: TouchedModel| post_account_item(account);
    let mut items: Vec<Vec<u8>> = Vec::new();
    let mut i: usize = 0;
    assert(model.take(0).filter(kept) == Seq::<TouchedModel>::empty()) by {
        reveal(Seq::filter);
    }
    while i < accounts.len()
        invariant
            i <= accounts@.len(),
            model == touched_model(accounts@),
            kept == (|account: TouchedModel| account.info is Some),
            to_item == (|account: TouchedModel| post_account_item(account)),
            encodes(items@, model.take(i as int).filter(kept).map_values(to_item)),
        decreases accounts@.len() - i,
    {
        let account = &accounts[i];
        proof {
            lemma_filter_take(model, kept, i as int);
        }
        if let Some(info) = &account.info {
            items.push(encode_post_account(account, info));
        }
        i += 1;
    }
    assert(model.take(i as int) == model);
    proof {
        lemma_concat_encodes(items@, surviving_accounts(model).map_values(to_item));
    }
    StateDiff { rlp: rlp_encode_list(items.as_slice()), accounts: items.len() }
}

/// The accounts of the pre-state are those that are not empty, and no others.
pub proof fn law_existing_accounts(
    accounts: Seq<(Seq<u8>, AccountModel)>,
    account: (Seq<u8>, AccountModel),
)
    ensures
        existing_accounts(accounts).contains(account) <==> accounts.contains(account)
            && !account.1.is_empty(),
{
    lemma_filter_exact(accounts, |a: (Seq<u8>, AccountModel)| !a.1.is_empty(), account);
}

/// The slots of the pre-state are those that are not zero, and no others.
pub proof fn law_nonzero_slots(slots: Seq<(nat, nat)>, slot: (nat, nat))
    ensures
        nonzero_slots(slots).contains(slot) <==> slots.contains(slot) && slot.1 != 0,
{
    lemma_filter_exact(slots, |s: (nat, nat)| s.1 != 0, slot);
}

/// The accounts of the state after the block are the touched ones that are
/// still there, and no others.
pub proof fn law_surviving_accounts(accounts: Seq<TouchedModel>, account: TouchedModel)
    ensures
        surviving_accounts(accounts).contains(account) <==> accounts.contains(account)
            && account.info is Some,
{
    lemma_filter_exact(accounts, |a: TouchedModel| a.info is Some, account);
}

/// An empty account among the others leaves the pre-state as it is.
pub proof fn law_empty_account_invisible(
    before: Seq<(Seq<u8>, AccountModel)>,
    account: (Seq<u8>, AccountModel),
    after: Seq<(Seq<u8>, AccountModel)>,
    storage: Seq<(Seq<u8>, Seq<(nat, nat)>)>,
)
    requires
        account.1.is_empty(),
    ensures
        pre_state_item(before.push(account) + after, storage) == pre_state_item(
            before + after,
            storage,
        ),
{
    let kept = |a: (Seq<u8>, AccountModel)| !a.1.is_empty();
    Seq::filter_distributes_over_add(before.push(account), after, kept);
    Seq::filter_distributes_over_add(before, after, kept);
    assert(before.push(account).filter(kept) == before.filter(kept)) by {
        reveal(Seq::filter);
        assert(before.push(account).drop_last() == before);
    }
}

/// An account's slots are those of the first storage entry for its address;
/// further entries for the address change nothing.
pub proof fn law_slots_of_first(
    storage: Seq<(Seq<u8>, Seq<(nat, nat)>)>,
    address: Seq<u8>,
    first: int,
)
    requires
        0 <= first < storage.len(),
        storage[first].0 == address,
        forall|i: int| 0 <= i < first ==> (#[trigger] storage[i]).0 != address,
    ensures
        slots_of(storage, address) == storage[first].1,
    decreases storage.len(),
{
    if first > 0 {
        assert(storage[0].0 != address);
        let rest = storage.drop_first();
        assert forall|i: int| 0 <= i < first - 1 implies (#[trigger] rest[i]).0 != address by {
            assert(storage[i + 1].0 != address);
        }
        law_slots_of_first(rest, address, first - 1);
    }
}

/// An account without a storage entry has no slots.
pub proof fn law_slots_of_absent(storage: Seq<(Seq<u8>, Seq<(nat, nat)>)>, address: Seq<u8>)
    requires
        forall|i: int| 0 <= i < storage.len() ==> (#[trigger] storage[i]).0 != address,
    ensures
        slots_of(storage, address) == Seq::<(nat, nat)>::empty(),
    decreases storage.len(),
{
    if storage.len() > 0 {
        assert(storage[0].0 != address);
        let rest = storage.drop_first();
        assert forall|i: int| 0 <= i < rest.len() implies (#[trigger] rest[i]).0 != address by {
            assert(storage[i + 1].0 != address);
        }
        law_slots_of_absent(rest, address);
    }
}

/// Whether an account that exists has this address.
pub open spec fn is_listed(accounts: Seq<(Seq<u8>, AccountModel)>, address: Seq<u8>) -> bool {
    exists|i: int|
        0 <= i < existing_accounts(accounts).len() && (#[trigger] existing_accounts(accounts)[i]).0
            == address
}

/// The storage entries of the accounts that exist.
pub open spec fn listed_storage(
    accounts: Seq<(Seq<u8>, AccountModel)>,
    storage: Seq<(Seq<u8>, Seq<(nat, nat)>)>,
) -> Seq<(Seq<u8>, Seq<(nat, nat)>)> {
    storage.filter(|entry: (Seq<u8>, Seq<(nat, nat)>)| is_listed(accounts, entry.0))
}

/// Filtering keeps an address's slots where it keeps all entries for the address.
proof fn lemma_slots_of_filter(
    storage: Seq<(Seq<u8>, Seq<(nat, nat)>)>,
    kept: spec_fn((Seq<u8>, Seq<(nat, nat)>)) -> bool,
    address: Seq<u8>,
)
    requires
        forall|entry: (Seq<u8>, Seq<(nat, nat)>)| entry.0 == address ==> #[trigger] kept(entry),
    ensures
        slots_of(storage.filter(kept), address) == slots_of(storage, address),
    decreases storage.len(),
{
    reveal(Seq::filter);
    if storage.len() > 0 {
        let head = seq![storage[0]];
        let rest = storage.drop_first();
        lemma_slots_of_filter(rest, kept, address);
        assert(head + rest == storage);
        Seq::filter_distributes_over_add(head, rest, kept);
        assert(head.drop_last().filter(kept) == Seq::<(Seq<u8>, Seq<(nat, nat)>)>::empty());
        assert(head.last() == storage[0]);
        if kept(storage[0]) {
            assert(head.filter(kept) == head);
            assert(storage.filter(kept) == head + rest.filter(kept));
            assert(storage.filter(kept).drop_first() == rest.filter(kept));
        } else {
            assert(storage.filter(kept) == rest.filter(kept));
        }
    }
}

/// Storage entries of addresses that the pre-state does not list leave it as it
/// is.
pub proof fn law_unlisted_storage_invisible(
    accounts: Seq<(Seq<u8>, AccountModel)>,
    storage: Seq<(Seq<u8>, Seq<(nat, nat)>)>,
)
    ensures
        pre_state_item(accounts, storage) == pre_state_item(
            accounts,
            listed_storage(accounts, storage),
        ),
{
    let existing = existing_accounts(accounts);
    let listed = listed_storage(accounts, storage);
    let kept = |entry: (Seq<u8>, Seq<(nat, nat)>)| is_listed(accounts, entry.0);
    let xs = pre_state_item(accounts, storage)->List_0;
    let ys = pre_state_item(accounts, listed)->List_0;
    assert forall|i: int| 0 <= i < existing.len() implies xs[i] == ys[i] by {
        let account = existing[i];
        assert(is_listed(accounts, account.0));
        lemma_slots_of_filter(storage, kept, account.0);
        assert(xs[i] == pre_account_item(account, storage));
        assert(ys[i] == pre_account_item(account, listed));
    }
    assert(xs =~= ys);
}

/// What the pre-state says of an account.
pub struct PreAccount {
    pub address: Seq<u8>,
    pub balance: nat,
    pub nonce: u64,
    pub code: Seq<u8>,
    pub slots: Seq<(nat, nat)>,
}

/// What the pre-state says of an account, given all storage.
pub open spec fn pre_account(
    account: (Seq<u8>, AccountModel),
    storage: Seq<(Seq<u8>, Seq<(nat, nat)>)>,
) -> PreAccount {
    PreAccount {
        address: account.0,
        balance: account.1.balance,
        nonce: account.1.nonce,
        code: account.1.code,
        slots: nonzero_slots(slots_of(storage, account.0)),
    }
}

/// What the pre-state says of each account that exists.
pub open spec fn pre_accounts(
    accounts: Seq<(Seq<u8>, AccountModel)>,
    storage: Seq<(Seq<u8>, Seq<(nat, nat)>)>,
) -> Seq<PreAccount> {
    existing_accounts(accounts).map_values(
        |account: (Seq<u8>, AccountModel)| pre_account(account, storage),
    )
}

/// Different lists of slots are different items.
pub proof fn law_slots_item_injective(a: Seq<(nat, nat)>, b: Seq<(nat, nat)>)
    requires
        slots_item(a) == slots_item(b),
    ensures
        a == b,
{
    let f = |slot: (nat, nat)| slot_item(slot);
    assert forall|x: (nat, nat), y: (nat, nat)| #[trigger] f(x) == #[trigger] f(y) implies x
        == y by {
        let xs = seq![uint(x.0), uint(x.1)];
        let ys = seq![uint(y.0), uint(y.1)];
        assert(f(x) == Item::List(xs) && f(y) == Item::List(ys));
        assert(xs[0] == ys[0] && xs[1] == ys[1]);
        law_uint_injective(x.0, y.0);
        law_uint_injective(x.1, y.1);
    }
    lemma_map_injective(a, b, f);
}

/// The pre-state item gives back every existing account with its balance, nonce,
/// code and nonzero slots.
pub proof fn law_pre_state_injective(
    accounts_a: Seq<(Seq<u8>, AccountModel)>,
    storage_a: Seq<(Seq<u8>, Seq<(nat, nat)>)>,
    accounts_b: Seq<(Seq<u8>, AccountModel)>,
    storage_b: Seq<(Seq<u8>, Seq<(nat, nat)>)>,
)
    requires
        pre_state_item(accounts_a, storage_a) == pre_state_item(accounts_b, storage_b),
    ensures
        pre_accounts(accounts_a, storage_a) == pre_accounts(accounts_b, storage_b),
{
    let a = existing_accounts(accounts_a);
    let b = existing_accounts(accounts_b);
    let xs = pre_state_item(accounts_a, storage_a)->List_0;
    let ys = pre_state_item(accounts_b, storage_b)->List_0;
    assert(xs.len() == a.len() && ys.len() == b.len());
    assert forall|i: int| 0 <= i < a.len() implies pre_account(a[i], storage_a) == pre_account(
        b[i],
        storage_b,
    ) by {
        assert(xs[i] == pre_account_item(a[i], storage_a));
        assert(ys[i] == pre_account_item(b[i], storage_b));
        let p = pre_account_item(a[i], storage_a)->List_0;
        let q = pre_account_item(b[i], storage_b)->List_0;
        assert(p[0] == q[0] && p[1] == q[1] && p[2] == q[2] && p[3] == q[3] && p[4] == q[4]);
        law_uint_injective(a[i].1.balance, b[i].1.balance);
        law_uint_injective(a[i].1.nonce as nat, b[i].1.nonce as nat);
        law_slots_item_injective(
            nonzero_slots(slots_of(storage_a, a[i].0)),
            nonzero_slots(slots_of(storage_b, b[i].0)),
        );
    }
    assert(pre_accounts(accounts_a, storage_a) =~= pre_accounts(accounts_b, storage_b));
}

/// A zero slot among the others leaves what the pre-state lists as it is.
pub proof fn law_zero_slot_invisible(
    before: Seq<(nat, nat)>,
    slot: (nat, nat),
    after: Seq<(nat, nat)>,
)
    requires
        slot.1 == 0,
    ensures
        nonzero_slots(before.push(slot) + after) == nonzero_slots(before + after),
{
    let kept = |s: (nat, nat)| s.1 != 0;
    Seq::filter_distributes_over_add(before.push(slot), after, kept);
    Seq::filter_distributes_over_add(before, after, kept);
    assert(before.push(slot).filter(kept) == before.filter(kept)) by {
        reveal(Seq::filter);
        assert(before.push(slot).drop_last() == before);
    }
}

/// The state item after a block gives back every account in it: its address,
/// balance, nonce, code hash and touched slots.
pub proof fn law_state_diff_injective(a: Seq<TouchedModel>, b: Seq<TouchedModel>)
    requires
        state_diff_item(a) == state_diff_item(b),
    ensures
        surviving_accounts(a).len() == surviving_accounts(b).len(),
        forall|i: int|
            0 <= i < surviving_accounts(a).len() ==> {
                let x = #[trigger] surviving_accounts(a)[i];
                let y = surviving_accounts(b)[i];
                &&& x.address == y.address
                &&& x.info->0.balance == y.info->0.balance
                &&& x.info->0.nonce == y.info->0.nonce
                &&& x.info->0.code_hash == y.info->0.code_hash
                &&& x.storage == y.storage
            },
{
    let s = surviving_accounts(a);
    let t = surviving_accounts(b);
    let xs = state_diff_item(a)->List_0;
    let ys = state_diff_item(b)->List_0;
    assert(xs.len() == s.len() && ys.len() == t.len());
    assert forall|i: int| 0 <= i < s.len() implies {
        let x = #[trigger] surviving_accounts(a)[i];
        let y = surviving_accounts(b)[i];
        &&& x.address == y.address
        &&& x.info->0.balance == y.info->0.balance
        &&& x.info->0.nonce == y.info->0.nonce
        &&& x.info->0.code_hash == y.info->0.code_hash
        &&& x.storage == y.storage
    } by {
        assert(xs[i] == post_account_item(s[i]));
        assert(ys[i] == post_account_item(t[i]));
        let p = post_account_item(s[i])->List_0;
        let q = post_account_item(t[i])->List_0;
        assert(p[0] == q[0] && p[1] == q[1] && p[2] == q[2] && p[3] == q[3] && p[4] == q[4]);
        law_uint_injective(s[i].info->0.balance, t[i].info->0.balance);
        law_uint_injective(s[i].info->0.nonce as nat, t[i].info->0.nonce as nat);
        law_slots_item_injective(s[i].storage, t[i].storage);
    }
}

/// Filtering keeps exactly the elements that pass.
proof fn lemma_filter_exact<A>(s: Seq<A>, p: spec_fn(A) -> bool, a: A)
    ensures
        s.filter(p).contains(a) <==> s.contains(a) && p(a),
    decreases s.len(),
{
    reveal(Seq::filter);
    if s.len() > 0 {
        let init = s.drop_last();
        lemma_filter_exact(init, p, a);
        assert(s.contains(a) <==> init.contains(a) || s.last() == a) by {
            if s.contains(a) {
                let i = choose|i: int| 0 <= i < s.len() && s[i] == a;
                if i < init.len() {
                    assert(init[i] == a);
                }
            }
            if init.contains(a) {
                let i = choose|i: int| 0 <= i < init.len() && init[i] == a;
                assert(s[i] == a);
            }
            assert(s[s.len() - 1] == s.last());
        }
        let kept = init.filter(p);
        assert(kept.push(s.last()).contains(a) <==> kept.contains(a) || s.last() == a) by {
            if kept.push(s.last()).contains(a) {
                let i = choose|i: int|
                    0 <= i < kept.push(s.last()).len() && kept.push(s.last())[i] == a;
                if i < kept.len() {
                    assert(kept[i] == a);
                }
            }
            if kept.contains(a) {
                let i = choose|i: int| 0 <= i < kept.len() && kept[i] == a;
                assert(kept.push(s.last())[i] == a);
            }
            assert(kept.push(s.last())[kept.len() as int] == s.last());
        }
    }
}

/// Filtering keeps one more element behind the others, or drops it.
proof fn lemma_filter_push<A>(s: Seq<A>, a: A, p: spec_fn(A) -> bool)
    ensures
        s.push(a).filter(p) == if p(a) {
            s.filter(p).push(a)
        } else {
            s.filter(p)
        },
        Seq::<A>::empty().filter(p).len() == 0,
{
    reveal(Seq::filter);
    assert(s.push(a).drop_last() == s);
}

/// The pre-state lists accounts in their order. One more account, where it has
/// no balance, no nonce and no code, changes nothing. Any other adds one entry
/// behind the rest: the address byte for byte, the balance and the nonce spelled
/// as numbers, the code byte for byte, and the nonzero slots of the address.
pub proof fn law_pre_state_entries(
    accounts: Seq<([u8; 20], AccountInfo)>,
    address: [u8; 20],
    info: AccountInfo,
    storage: Seq<([u8; 20], Vec<(U256, U256)>)>,
)
    ensures
        ({
            let before = pre_state_item(accounts_model(accounts), storage_model(storage));
            let after = pre_state_item(
                accounts_model(accounts.push((address, info))),
                storage_model(storage),
            );
            let code = match info.code {
                Some(code) => code@,
                None => Seq::empty(),
            };
            let entry = after->List_0.last();
            let fields = entry->List_0;
            &&& before is List && after is List
            &&& accounts.len() == 0 ==> before->List_0.len() == 0
            &&& info.balance@ == 0 && info.nonce == 0 && code.len() == 0 ==> after == before
            &&& info.balance@ > 0 || info.nonce > 0 || code.len() > 0 ==> {
                &&& after->List_0 == before->List_0.push(entry)
                &&& entry is List && fields.len() == 5
                &&& fields[0] == Item::Str(address@)
                &&& spells(fields[1], info.balance@)
                &&& spells(fields[2], info.nonce as nat)
                &&& fields[3] == Item::Str(code)
                &&& fields[4] == slots_item(
                    nonzero_slots(slots_of(storage_model(storage), address@)),
                )
            }
        }),
{
    let account = (address@, info@);
    let slots = storage_model(storage);
    let model = accounts_model(accounts);
    let kept = |a: (Seq<u8>, AccountModel)| !a.1.is_empty();
    let to_item = |a: (Seq<u8>, AccountModel)| pre_account_item(a, slots);
    assert(accounts_model(accounts.push((address, info))) == model.push(account));
    lemma_filter_push(model, account, kept);
    if accounts.len() == 0 {
        assert(model == Seq::<(Seq<u8>, AccountModel)>::empty());
    }
    if !info@.is_empty() {
        assert(model.filter(kept).push(account).map_values(to_item) == model.filter(
            kept,
        ).map_values(to_item).push(pre_account_item(account, slots)));
    }
    law_uint_spells(info.balance@);
    law_uint_spells(info.nonce as nat);
}

/// The number of accounts that the pre-state counts is the number of its entries.
pub proof fn law_existing_accounts_count(
    accounts: Seq<([u8; 20], AccountInfo)>,
    storage: Seq<([u8; 20], Vec<(U256, U256)>)>,
)
    ensures
        existing_accounts(accounts_model(accounts)).len() == pre_state_item(
            accounts_model(accounts),
            storage_model(storage),
        )->List_0.len(),
{
}

/// An address has the slots of the first storage entry that bears it, each slot
/// and value as it stands, and none where no entry bears it.
pub proof fn law_storage_lookup(
    storage: Seq<([u8; 20], Vec<(U256, U256)>)>,
    address: [u8; 20],
    first: int,
)
    ensures
        0 <= first < storage.len() && storage[first].0@ == address@ && (forall|i: int|
            0 <= i < first ==> (#[trigger] storage[i]).0@ != address@) ==> slots_of(
            storage_model(storage),
            address@,
        ) == slots_model(storage[first].1@),
        (forall|i: int| 0 <= i < storage.len() ==> (#[trigger] storage[i]).0@ != address@)
            ==> slots_of(storage_model(storage), address@).len() == 0,
{
    let model = storage_model(storage);
    assert(model.len() == storage.len());
    assert forall|i: int| 0 <= i < storage.len() implies #[trigger] model[i] == (
        storage[i].0@,
        slots_model(storage[i].1@),
    ) by {}
    if 0 <= first < storage.len() && storage[first].0@ == address@ && (forall|i: int|
        0 <= i < first ==> (#[trigger] storage[i]).0@ != address@) {
        assert forall|i: int| 0 <= i < first implies (#[trigger] model[i]).0 != address@ by {
            assert(storage[i].0@ != address@);
        }
        law_slots_of_first(model, address@, first);
    }
    if forall|i: int| 0 <= i < storage.len() ==> (#[trigger] storage[i]).0@ != address@ {
        assert forall|i: int| 0 <= i < model.len() implies (#[trigger] model[i]).0 != address@ by {
            assert(storage[i].0@ != address@);
        }
        law_slots_of_absent(model, address@);
    }
}

/// Slots are given by their keys and values, in their order.
pub proof fn law_slots_model(slots: Seq<(U256, U256)>)
    ensures
        slots_model(slots).len() == slots.len(),
        forall|i: int|
            0 <= i < slots.len() ==> #[trigger] slots_model(slots)[i] == (
                slots[i].0@,
                slots[i].1@,
            ),
{
}

/// Slots are listed in their order: one more slot adds one entry behind the rest,
/// the key and the value spelled as numbers. A slot whose value is zero adds
/// nothing where only nonzero slots are listed.
pub proof fn law_slot_entries(slots: Seq<(U256, U256)>, key: U256, value: U256)
    ensures
        ({
            let before = slots_item(slots_model(slots));
            let after = slots_item(slots_model(slots.push((key, value))));
            let nonzero_before = slots_item(nonzero_slots(slots_model(slots)));
            let nonzero_after = slots_item(nonzero_slots(slots_model(slots.push((key, value)))));
            let entry = after->List_0.last();
            let fields = entry->List_0;
            &&& before is List && after is List && nonzero_before is List && nonzero_after is List
            &&& slots.len() == 0 ==> before->List_0.len() == 0 && nonzero_before->List_0.len() == 0
            &&& after->List_0 == before->List_0.push(entry)
            &&& entry is List && fields.len() == 2
            &&& spells(fields[0], key@)
            &&& spells(fields[1], value@)
            &&& value@ == 0 ==> nonzero_after == nonzero_before
            &&& value@ > 0 ==> nonzero_after->List_0 == nonzero_before->List_0.push(entry)
        }),
{
    let slot = (key@, value@);
    let model = slots_model(slots);
    let kept = |s: (nat, nat)| s.1 != 0;
    let to_item = |s: (nat, nat)| slot_item(s);
    assert(slots_model(slots.push((key, value))) == model.push(slot));
    lemma_filter_push(model, slot, kept);
    if slots.len() == 0 {
        assert(model == Seq::<(nat, nat)>::empty());
    }
    assert(model.push(slot).map_values(to_item) == model.map_values(to_item).push(slot_item(slot)));
    assert(model.filter(kept).push(slot).map_values(to_item) == model.filter(kept).map_values(
        to_item,
    ).push(slot_item(slot)));
    law_uint_spells(key@);
    law_uint_spells(value@);
}

/// The slots over all addresses are counted entry by entry.
pub proof fn law_slot_count(
    storage: Seq<([u8; 20], Vec<(U256, U256)>)>,
    address: [u8; 20],
    slots: Vec<(U256, U256)>,
)
    ensures
        slot_count(storage_model(Seq::empty())) == 0,
        slot_count(storage_model(storage.push((address, slots)))) == slot_count(
            storage_model(storage),
        ) + slots@.len(),
{
    let model = storage_model(storage);
    let all = storage_model(storage.push((address, slots)));
    assert(all == model.push((address@, slots_model(slots@))));
    assert(all.drop_last() == model);
}

/// The state after a block lists touched accounts in their order. An account
/// that destroyed itself changes nothing. Any other adds one entry behind the
/// rest: the address byte for byte, the balance and the nonce spelled as numbers,
/// the code hash byte for byte, and all slots that were touched.
pub proof fn law_state_diff_entries(accounts: Seq<TouchedAccount>, account: TouchedAccount)
    ensures
        ({
            let before = state_diff_item(touched_model(accounts));
            let after = state_diff_item(touched_model(accounts.push(account)));
            let entry = after->List_0.last();
            let fields = entry->List_0;
            &&& before is List && after is List
            &&& accounts.len() == 0 ==> before->List_0.len() == 0
            &&& surviving_accounts(touched_model(accounts)).len() == before->List_0.len()
            &&& account.info is None ==> after == before
            &&& account.info matches Some(info) ==> {
                &&& after->List_0 == before->List_0.push(entry)
                &&& entry is List && fields.len() == 5
                &&& fields[0] == Item::Str(account.address@)
                &&& spells(fields[1], info.balance@)
                &&& spells(fields[2], info.nonce as nat)
                &&& fields[3] == Item::Str(info.code_hash@)
                &&& fields[4] == slots_item(slots_model(account.storage@))
            }
        }),
{
    let model = touched_model(accounts);
    let kept = |a: TouchedModel| a.info is Some;
    let to_item = |a: TouchedModel| post_account_item(a);
    assert(touched_model(accounts.push(account)) == model.push(account@));
    lemma_filter_push(model, account@, kept);
    if accounts.len() == 0 {
        assert(model == Seq::<TouchedModel>::empty());
    }
    if let Some(info) = account.info {
        assert(model.filter(kept).push(account@).map_values(to_item) == model.filter(
            kept,
        ).map_values(to_item).push(post_account_item(account@)));
        law_uint_spells(info.balance@);
        law_uint_spells(info.nonce as nat);
    }
}

} // verus!
