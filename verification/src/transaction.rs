//! Signed transactions and their EIP-2718 envelopes.

use vstd::prelude::*;
use alloy_consensus::{SignableTransaction, TxEip1559, TxEip2930, TxEip4844, TxEip7702, TxLegacy};
use alloy_eips::eip2718::Encodable2718;
use alloy_eips::eip2930::{AccessList, AccessListItem};
use alloy_eips::eip7702::{Authorization, SignedAuthorization};
use alloy_primitives::{Address, Signature, Uint, B256};
use crate::uint::U256;
#[allow(unused_imports)]
use crate::rlp::{encode, law_encode_injective, law_uint_injective, lemma_first_byte};
#[allow(unused_imports)]
use crate::rlp::{lemma_map_injective, uint, Item};

verus! {

/// A secp256k1 signature: `r` and `s` with the parity of the recovery point.
#[derive(Clone, Debug, PartialEq, Eq)]
pub struct TxSignature {
    pub r: U256,
    pub s: U256,
    pub y_parity: bool,
}

/// An address and the storage keys of it that a transaction plans to access.
#[derive(Clone, Debug, PartialEq, Eq)]
pub struct AccessListEntry {
    pub address: [u8; 20],
    pub storage_keys: Vec<[u8; 32]>,
}

/// A signed permission to run the code of `address`.
#[derive(Clone, Debug, PartialEq, Eq)]
pub struct AuthorizationEntry {
    pub chain_id: U256,
    pub address: [u8; 20],
    pub nonce: u64,
    pub y_parity: u8,
    pub r: U256,
    pub s: U256,
}

/// A transaction from before typed envelopes.
#[derive(Clone, Debug, PartialEq, Eq)]
pub struct LegacyTx {
    pub chain_id: Option<u64>,
    pub nonce: u64,
    pub gas_price: u128,
    pub gas_limit: u64,
    /// The callee; `None` creates a contract.
    pub to: Option<[u8; 20]>,
    pub value: U256,
    pub input: Vec<u8>,
}

/// A transaction with an access list.
#[derive(Clone, Debug, PartialEq, Eq)]
pub struct Eip2930Tx {
    pub chain_id: u64,
    pub nonce: u64,
    pub gas_price: u128,
    pub gas_limit: u64,
    /// The callee; `None` creates a contract.
    pub to: Option<[u8; 20]>,
    pub value: U256,
    pub access_list: Vec<AccessListEntry>,
    pub input: Vec<u8>,
}

/// A transaction that bids for priority on top of the base fee.
#[derive(Clone, Debug, PartialEq, Eq)]
pub struct Eip1559Tx {
    pub chain_id: u64,
    pub nonce: u64,
    pub gas_limit: u64,
    pub max_fee_per_gas: u128,
    pub max_priority_fee_per_gas: u128,
    /// The callee; `None` creates a contract.
    pub to: Option<[u8; 20]>,
    pub value: U256,
    pub access_list: Vec<AccessListEntry>,
    pub input: Vec<u8>,
}

/// A transaction that refers to blobs by their hashes.
#[derive(Clone, Debug, PartialEq, Eq)]
pub struct Eip4844Tx {
    pub chain_id: u64,
    pub nonce: u64,
    pub gas_limit: u64,
    pub max_fee_per_gas: u128,
    pub max_priority_fee_per_gas: u128,
    pub to: [u8; 20],
    pub value: U256,
    pub access_list: Vec<AccessListEntry>,
    pub blob_versioned_hashes: Vec<[u8; 32]>,
    pub max_fee_per_blob_gas: u128,
    pub input: Vec<u8>,
}

/// A transaction that sets code for externally owned accounts.
#[derive(Clone, Debug, PartialEq, Eq)]
pub struct Eip7702Tx {
    pub chain_id: u64,
    pub nonce: u64,
    pub gas_limit: u64,
    pub max_fee_per_gas: u128,
    pub max_priority_fee_per_gas: u128,
    pub to: [u8; 20],
    pub value: U256,
    pub access_list: Vec<AccessListEntry>,
    pub authorization_list: Vec<AuthorizationEntry>,
    pub input: Vec<u8>,
}

/// A signed transaction of any type that a block can hold.
#[derive(Clone, Debug, PartialEq, Eq)]
pub enum Transaction {
    Legacy(LegacyTx, TxSignature),
    Eip2930(Eip2930Tx, TxSignature),
    Eip1559(Eip1559Tx, TxSignature),
    Eip4844(Eip4844Tx, TxSignature),
    Eip7702(Eip7702Tx, TxSignature),
}

/// What a signature says.
pub struct SignatureModel {
    pub r: nat,
    pub s: nat,
    pub y_parity: bool,
}

/// What an authorization says.
pub struct AuthorizationModel {
    pub chain_id: nat,
    pub address: Seq<u8>,
    pub nonce: u64,
    pub y_parity: u8,
    pub r: nat,
    pub s: nat,
}

/// What a signed transaction says. Fields that its type does not have are
/// zero, empty or absent.
pub struct TxModel {
    /// The type flag of EIP-2718; zero for transactions from before it.
    pub ty: u8,
    pub chain_id: Option<u64>,
    pub nonce: u64,
    pub gas_price: u128,
    pub gas_limit: u64,
    pub max_fee_per_gas: u128,
    pub max_priority_fee_per_gas: u128,
    pub to: Option<Seq<u8>>,
    pub value: nat,
    pub access_list: Seq<(Seq<u8>, Seq<Seq<u8>>)>,
    pub blob_versioned_hashes: Seq<Seq<u8>>,
    pub max_fee_per_blob_gas: u128,
    pub authorization_list: Seq<AuthorizationModel>,
    pub input: Seq<u8>,
    pub signature: SignatureModel,
}

impl View for TxSignature {
    type V = SignatureModel;

    open spec fn view(&self) -> SignatureModel {
        SignatureModel { r: self.r@, s: self.s@, y_parity: self.y_parity }
    }
}

impl View for AuthorizationEntry {
    type V = AuthorizationModel;

    open spec fn view(&self) -> AuthorizationModel {
        AuthorizationModel {
            chain_id: self.chain_id@,
            address: self.address@,
            nonce: self.nonce,
            y_parity: self.y_parity,
            r: self.r@,
            s: self.s@,
        }
    }
}

/// The callee's address, where there is a callee.
pub open spec fn callee(to: Option<[u8; 20]>) -> Option<Seq<u8>> {
    match to {
        Some(address) => Some(address@),
        None => None,
    }
}

/// The bytes of each hash.
pub open spec fn hashes(list: Seq<[u8; 32]>) -> Seq<Seq<u8>> {
    list.map_values(|hash: [u8; 32]| hash@)
}

/// The addresses of an access list with their storage keys.
pub open spec fn accesses(list: Seq<AccessListEntry>) -> Seq<(Seq<u8>, Seq<Seq<u8>>)> {
    list.map_values(|entry: AccessListEntry| (entry.address@, hashes(entry.storage_keys@)))
}

/// What each authorization of a list says.
pub open spec fn authorizations(list: Seq<AuthorizationEntry>) -> Seq<AuthorizationModel> {
    list.map_values(|entry: AuthorizationEntry| entry@)
}

impl LegacyTx {
    /// What the transaction says under `signature`.
    pub open spec fn signed(self, signature: TxSignature) -> TxModel {
        TxModel {
            ty: 0,
            chain_id: self.chain_id,
            nonce: self.nonce,
            gas_price: self.gas_price,
            gas_limit: self.gas_limit,
            max_fee_per_gas: 0,
            max_priority_fee_per_gas: 0,
            to: callee(self.to),
            value: self.value@,
            access_list: Seq::empty(),
            blob_versioned_hashes: Seq::empty(),
            max_fee_per_blob_gas: 0,
            authorization_list: Seq::empty(),
            input: self.input@,
            signature: signature@,
        }
    }
}

impl Eip2930Tx {
    /// What the transaction says under `signature`.
    pub open spec fn signed(self, signature: TxSignature) -> TxModel {
        TxModel {
            ty: 1,
            chain_id: Some(self.chain_id),
            nonce: self.nonce,
            gas_price: self.gas_price,
            gas_limit: self.gas_limit,
            max_fee_per_gas: 0,
            max_priority_fee_per_gas: 0,
            to: callee(self.to),
            value: self.value@,
            access_list: accesses(self.access_list@),
            blob_versioned_hashes: Seq::empty(),
            max_fee_per_blob_gas: 0,
            authorization_list: Seq::empty(),
            input: self.input@,
            signature: signature@,
        }
    }
}

impl Eip1559Tx {
    /// What the transaction says under `signature`.
    pub open spec fn signed(self, signature: TxSignature) -> TxModel {
        TxModel {
            ty: 2,
            chain_id: Some(self.chain_id),
            nonce: self.nonce,
            gas_price: 0,
            gas_limit: self.gas_limit,
            max_fee_per_gas: self.max_fee_per_gas,
            max_priority_fee_per_gas: self.max_priority_fee_per_gas,
            to: callee(self.to),
            value: self.value@,
            access_list: accesses(self.access_list@),
            blob_versioned_hashes: Seq::empty(),
            max_fee_per_blob_gas: 0,
            authorization_list: Seq::empty(),
            input: self.input@,
            signature: signature@,
        }
    }
}

impl Eip4844Tx {
    /// What the transaction says under `signature`.
    pub open spec fn signed(self, signature: TxSignature) -> TxModel {
        TxModel {
            ty: 3,
            chain_id: Some(self.chain_id),
            nonce: self.nonce,
            gas_price: 0,
            gas_limit: self.gas_limit,
            max_fee_per_gas: self.max_fee_per_gas,
            max_priority_fee_per_gas: self.max_priority_fee_per_gas,
            to: Some(self.to@),
            value: self.value@,
            access_list: accesses(self.access_list@),
            blob_versioned_hashes: hashes(self.blob_versioned_hashes@),
            max_fee_per_blob_gas: self.max_fee_per_blob_gas,
            authorization_list: Seq::empty(),
            input: self.input@,
            signature: signature@,
        }
    }
}

impl Eip7702Tx {
    /// What the transaction says under `signature`.
    pub open spec fn signed(self, signature: TxSignature) -> TxModel {
        TxModel {
            ty: 4,
            chain_id: Some(self.chain_id),
            nonce: self.nonce,
            gas_price: 0,
            gas_limit: self.gas_limit,
            max_fee_per_gas: self.max_fee_per_gas,
            max_priority_fee_per_gas: self.max_priority_fee_per_gas,
            to: Some(self.to@),
            value: self.value@,
            access_list: accesses(self.access_list@),
            blob_versioned_hashes: Seq::empty(),
            max_fee_per_blob_gas: 0,
            authorization_list: authorizations(self.authorization_list@),
            input: self.input@,
            signature: signature@,
        }
    }
}

impl View for Transaction {
    type V = TxModel;

    open spec fn view(&self) -> TxModel {
        match *self {
            Transaction::Legacy(tx, signature) => tx.signed(signature),
            Transaction::Eip2930(tx, signature) => tx.signed(signature),
            Transaction::Eip1559(tx, signature) => tx.signed(signature),
            Transaction::Eip4844(tx, signature) => tx.signed(signature),
            Transaction::Eip7702(tx, signature) => tx.signed(signature),
        }
    }
}

/// The access list entry type of `alloy_eips`.
#[verifier::external_type_specification]
#[verifier::external_body]
pub struct ExAccessListItem(AccessListItem);

/// The access list type of `alloy_eips`.
#[verifier::external_type_specification]
#[verifier::external_body]
pub struct ExAccessList(AccessList);

/// What an `AccessList` of `alloy_eips` holds: addresses with their storage keys.
pub uninterp spec fn access_list_entries(list: AccessList) -> Seq<(Seq<u8>, Seq<Seq<u8>>)>;

/// The constructor of `AccessList`, of `alloy_eips`: the list holds the given
/// addresses and storage keys, in the given order.
#[verifier::external_body]
fn access_list(entries: &Vec<AccessListEntry>) -> (r: AccessList)
    ensures
        access_list_entries(r) == accesses(entries@),
{
    AccessList(entries.iter().map(|entry| AccessListItem {
        address: entry.address.into(),
        storage_keys: entry.storage_keys.iter().map(B256::from).collect(),
    }).collect())
}

/// A callee as an item: its address, or nothing where a contract is created.
pub open spec fn callee_item(to: Option<Seq<u8>>) -> Item {
    match to {
        Some(address) => Item::Str(address),
        None => Item::Str(Seq::empty()),
    }
}

/// Hashes as an item: the list of them.
pub open spec fn hashes_item(list: Seq<Seq<u8>>) -> Item {
    Item::List(list.map_values(|hash: Seq<u8>| Item::Str(hash)))
}

/// An entry of an access list as an item: `[address, [key, ..]]`.
pub open spec fn access_item(entry: (Seq<u8>, Seq<Seq<u8>>)) -> Item {
    Item::List(seq![Item::Str(entry.0), hashes_item(entry.1)])
}

/// An access list as an item: the list of its entries.
pub open spec fn accesses_item(list: Seq<(Seq<u8>, Seq<Seq<u8>>)>) -> Item {
    Item::List(list.map_values(|entry: (Seq<u8>, Seq<Seq<u8>>)| access_item(entry)))
}

/// An authorization as an item: `[chain_id, address, nonce, y_parity, r, s]`.
pub open spec fn authorization_item(entry: AuthorizationModel) -> Item {
    Item::List(
        seq![
            uint(entry.chain_id),
            Item::Str(entry.address),
            uint(entry.nonce as nat),
            uint(entry.y_parity as nat),
            uint(entry.r),
            uint(entry.s),
        ],
    )
}

/// Authorizations as an item: the list of them.
pub open spec fn authorizations_item(list: Seq<AuthorizationModel>) -> Item {
    Item::List(list.map_values(|entry: AuthorizationModel| authorization_item(entry)))
}

impl TxModel {
    /// The parity of the signature as a number.
    pub open spec fn parity(self) -> nat {
        if self.signature.y_parity {
            1
        } else {
            0
        }
    }

    /// The `v` of the signature. Transactions without a type flag show the chain
    /// in it, as EIP-155 has it; the others show the parity alone.
    pub open spec fn v(self) -> nat {
        if self.ty > 0 {
            self.parity()
        } else {
            match self.chain_id {
                Some(id) => 35 + 2 * id as nat + self.parity(),
                None => 27 + self.parity(),
            }
        }
    }

    /// The fields that are signed with a price per gas.
    pub open spec fn priced_items(self) -> Seq<Item> {
        seq![
            uint(self.nonce as nat),
            uint(self.gas_price as nat),
            uint(self.gas_limit as nat),
            callee_item(self.to),
            uint(self.value),
            Item::Str(self.input),
        ]
    }

    /// The fields that are signed with a fee cap and a priority fee.
    pub open spec fn fee_market_items(self) -> Seq<Item> {
        seq![
            uint(self.chain_id->0 as nat),
            uint(self.nonce as nat),
            uint(self.max_priority_fee_per_gas as nat),
            uint(self.max_fee_per_gas as nat),
            uint(self.gas_limit as nat),
            callee_item(self.to),
            uint(self.value),
            Item::Str(self.input),
            accesses_item(self.access_list),
        ]
    }

    /// The fields that the type signs, in the order of its envelope.
    pub open spec fn signed_items(self) -> Seq<Item> {
        if self.ty == 0 {
            self.priced_items()
        } else if self.ty == 1 {
            seq![uint(self.chain_id->0 as nat)] + self.priced_items() + seq![
                accesses_item(self.access_list),
            ]
        } else if self.ty == 2 {
            self.fee_market_items()
        } else if self.ty == 3 {
            self.fee_market_items() + seq![
                uint(self.max_fee_per_blob_gas as nat),
                hashes_item(self.blob_versioned_hashes),
            ]
        } else {
            self.fee_market_items() + seq![authorizations_item(self.authorization_list)]
        }
    }

    /// The signature, as the last fields of the envelope: `v`, `r` and `s`.
    pub open spec fn signature_items(self) -> Seq<Item> {
        seq![uint(self.v()), uint(self.signature.r), uint(self.signature.s)]
    }

    /// Everything in the envelope but the type flag, as an item.
    pub open spec fn body_item(self) -> Item {
        Item::List(self.signed_items() + self.signature_items())
    }
}

/// The EIP-2718 envelope of a signed transaction: the type flag, where the type
/// has one, and the encoded fields and signature.
pub open spec fn envelope(tx: TxModel) -> Seq<u8> {
    if tx.ty == 0 {
        encode(tx.body_item())
    } else {
        seq![tx.ty] + encode(tx.body_item())
    }
}

/// `Encodable2718::encoded_2718` for a signed `TxLegacy`, of `alloy_consensus`:
/// the envelope of the transaction, a bare RLP list of its fields and signature.
#[verifier::external_body]
fn encode_legacy(tx: &LegacyTx, signature: &TxSignature) -> (r: Vec<u8>)
    ensures
        r@ == envelope(tx.signed(*signature)),
{
    TxLegacy {
        chain_id: tx.chain_id,
        nonce: tx.nonce,
        gas_price: tx.gas_price,
        gas_limit: tx.gas_limit,
        to: tx.to.map(Address::from).into(),
        value: Uint::from_limbs(tx.value.limbs),
        input: tx.input.clone().into(),
    }.into_signed(Signature::new(
        Uint::from_limbs(signature.r.limbs),
        Uint::from_limbs(signature.s.limbs),
        signature.y_parity,
    )).encoded_2718()
}

/// `Encodable2718::encoded_2718` for a signed `TxEip2930`, of `alloy_consensus`:
/// the envelope of the transaction, which is the type flag and an RLP list of the
/// fields and signature.
#[verifier::external_body]
fn encode_eip2930(tx: &Eip2930Tx, access_list: AccessList, signature: &TxSignature) -> (r: Vec<u8>)
    requires
        access_list_entries(access_list) == accesses(tx.access_list@),
    ensures
        r@ == envelope(tx.signed(*signature)),
{
    TxEip2930 {
        chain_id: tx.chain_id,
        nonce: tx.nonce,
        gas_price: tx.gas_price,
        gas_limit: tx.gas_limit,
        to: tx.to.map(Address::from).into(),
        value: Uint::from_limbs(tx.value.limbs),
        access_list,
        input: tx.input.clone().into(),
    }.into_signed(Signature::new(
        Uint::from_limbs(signature.r.limbs),
        Uint::from_limbs(signature.s.limbs),
        signature.y_parity,
    )).encoded_2718()
}

/// `Encodable2718::encoded_2718` for a signed `TxEip1559`, of `alloy_consensus`:
/// the envelope of the transaction, which is the type flag and an RLP list of the
/// fields and signature.
#[verifier::external_body]
fn encode_eip1559(tx: &Eip1559Tx, access_list: AccessList, signature: &TxSignature) -> (r: Vec<u8>)
    requires
        access_list_entries(access_list) == accesses(tx.access_list@),
    ensures
        r@ == envelope(tx.signed(*signature)),
{
    TxEip1559 {
        chain_id: tx.chain_id,
        nonce: tx.nonce,
        gas_limit: tx.gas_limit,
        max_fee_per_gas: tx.max_fee_per_gas,
        max_priority_fee_per_gas: tx.max_priority_fee_per_gas,
        to: tx.to.map(Address::from).into(),
        value: Uint::from_limbs(tx.value.limbs),
        access_list,
        input: tx.input.clone().into(),
    }.into_signed(Signature::new(
        Uint::from_limbs(signature.r.limbs),
        Uint::from_limbs(signature.s.limbs),
        signature.y_parity,
    )).encoded_2718()
}

/// `Encodable2718::encoded_2718` for a signed `TxEip4844`, of `alloy_consensus`:
/// the envelope of the transaction, which is the type flag and an RLP list of the
/// fields and signature.
#[verifier::external_body]
fn encode_eip4844(tx: &Eip4844Tx, access_list: AccessList, signature: &TxSignature) -> (r: Vec<u8>)
    requires
        access_list_entries(access_list) == accesses(tx.access_list@),
    ensures
        r@ == envelope(tx.signed(*signature)),
{
    TxEip4844 {
        chain_id: tx.chain_id,
        nonce: tx.nonce,
        gas_limit: tx.gas_limit,
        max_fee_per_gas: tx.max_fee_per_gas,
        max_priority_fee_per_gas: tx.max_priority_fee_per_gas,
        to: tx.to.into(),
        value: Uint::from_limbs(tx.value.limbs),
        access_list,
        blob_versioned_hashes: tx.blob_versioned_hashes.iter().map(B256::from).collect(),
        max_fee_per_blob_gas: tx.max_fee_per_blob_gas,
        input: tx.input.clone().into(),
    }.into_signed(Signature::new(Uint::from_limbs(signature.r.limbs),
        Uint::from_limbs(signature.s.limbs), signature.y_parity)).encoded_2718()
}

/// `Encodable2718::encoded_2718` for a signed `TxEip7702`, of `alloy_consensus`:
/// the envelope of the transaction, which is the type flag and an RLP list of the
/// fields and signature.
#[verifier::external_body]
fn encode_eip7702(tx: &Eip7702Tx, access_list: AccessList, signature: &TxSignature) -> (r: Vec<u8>)
    requires
        access_list_entries(access_list) == accesses(tx.access_list@),
    ensures
        r@ == envelope(tx.signed(*signature)),
{
    TxEip7702 { chain_id: tx.chain_id, nonce: tx.nonce, gas_limit: tx.gas_limit,
        max_fee_per_gas: tx.max_fee_per_gas,
        max_priority_fee_per_gas: tx.max_priority_fee_per_gas,
        to: tx.to.into(),
        value: Uint::from_limbs(tx.value.limbs),
        access_list,
        authorization_list: tx.authorization_list.iter().map(|a| SignedAuthorization::new_unchecked(
            Authorization { chain_id: Uint::from_limbs(a.chain_id.limbs),
                address: a.address.into(), nonce: a.nonce }, a.y_parity,
            Uint::from_limbs(a.r.limbs), Uint::from_limbs(a.s.limbs))).collect(),
        input: tx.input.clone().into(),
    }.into_signed(Signature::new(Uint::from_limbs(signature.r.limbs),
        Uint::from_limbs(signature.s.limbs), signature.y_parity)).encoded_2718()
}

impl Transaction {
    /// The EIP-2718 envelope of the transaction. Its first byte tells the type:
    /// the type flag, or a list prefix where there is no flag.
    pub fn encoded_2718(&self) -> (r: Vec<u8>)
        ensures
            r@ == envelope(self@),
            r@.len() > 0,
            self@.ty > 0 ==> r@[0] == self@.ty,
            self@.ty == 0 ==> r@[0] >= 0xc0,
    {
        let encoded = match self {
            Transaction::Legacy(tx, signature) => encode_legacy(tx, signature),
            Transaction::Eip2930(tx, signature) => {
                encode_eip2930(tx, access_list(&tx.access_list), signature)
            },
            Transaction::Eip1559(tx, signature) => {
                encode_eip1559(tx, access_list(&tx.access_list), signature)
            },
            Transaction::Eip4844(tx, signature) => {
                encode_eip4844(tx, access_list(&tx.access_list), signature)
            },
            Transaction::Eip7702(tx, signature) => {
                encode_eip7702(tx, access_list(&tx.access_list), signature)
            },
        };
        proof {
            assert(encoded@.len() == encoded.len());
            assert(encode(self@.body_item()).len() <= encoded@.len());
            lemma_first_byte(self@.body_item());
        }
        encoded
    }
}

impl TxModel {
    /// Whether the fields are those of some transaction of the type: addresses
    /// have twenty bytes, and what the type does not have is zero, empty or
    /// absent.
    pub open spec fn well_typed(self) -> bool {
        &&& self.ty <= 4
        &&& self.to matches Some(address) ==> address.len() == 20
        &&& self.ty > 0 ==> self.chain_id is Some
        &&& self.ty > 1 ==> self.gas_price == 0
        &&& self.ty <= 1 ==> self.max_fee_per_gas == 0 && self.max_priority_fee_per_gas == 0
        &&& self.ty == 0 ==> self.access_list.len() == 0
        &&& self.ty != 3 ==> self.blob_versioned_hashes.len() == 0 && self.max_fee_per_blob_gas == 0
        &&& self.ty != 4 ==> self.authorization_list.len() == 0
    }
}

/// Callees are told apart by their items.
proof fn lemma_callee_injective(a: Option<Seq<u8>>, b: Option<Seq<u8>>)
    requires
        a matches Some(address) ==> address.len() == 20,
        b matches Some(address) ==> address.len() == 20,
        callee_item(a) == callee_item(b),
    ensures
        a == b,
{
}

/// Lists of hashes are told apart by their items.
proof fn lemma_hashes_injective(a: Seq<Seq<u8>>, b: Seq<Seq<u8>>)
    requires
        hashes_item(a) == hashes_item(b),
    ensures
        a == b,
{
    lemma_map_injective(a, b, |hash: Seq<u8>| Item::Str(hash));
}

/// Access lists are told apart by their items.
proof fn lemma_accesses_injective(
    a: Seq<(Seq<u8>, Seq<Seq<u8>>)>,
    b: Seq<(Seq<u8>, Seq<Seq<u8>>)>,
)
    requires
        accesses_item(a) == accesses_item(b),
    ensures
        a == b,
{
    let f = |entry: (Seq<u8>, Seq<Seq<u8>>)| access_item(entry);
    assert forall|x: (Seq<u8>, Seq<Seq<u8>>), y: (Seq<u8>, Seq<Seq<u8>>)| #[trigger] f(x)
        == #[trigger] f(y) implies x == y by {
        let xs = access_item(x)->List_0;
        let ys = access_item(y)->List_0;
        assert(xs[0] == ys[0] && xs[1] == ys[1]);
        lemma_hashes_injective(x.1, y.1);
    }
    lemma_map_injective(a, b, f);
}

/// Lists of authorizations are told apart by their items.
proof fn lemma_authorizations_injective(a: Seq<AuthorizationModel>, b: Seq<AuthorizationModel>)
    requires
        authorizations_item(a) == authorizations_item(b),
    ensures
        a == b,
{
    let f = |entry: AuthorizationModel| authorization_item(entry);
    assert forall|x: AuthorizationModel, y: AuthorizationModel| #[trigger] f(x) == #[trigger] f(
        y,
    ) implies x == y by {
        let xs = authorization_item(x)->List_0;
        let ys = authorization_item(y)->List_0;
        assert(xs[0] == ys[0] && xs[1] == ys[1] && xs[2] == ys[2]);
        assert(xs[3] == ys[3] && xs[4] == ys[4] && xs[5] == ys[5]);
        law_uint_injective(x.chain_id, y.chain_id);
        law_uint_injective(x.nonce as nat, y.nonce as nat);
        law_uint_injective(x.y_parity as nat, y.y_parity as nat);
        law_uint_injective(x.r, y.r);
        law_uint_injective(x.s, y.s);
    }
    lemma_map_injective(a, b, f);
}

/// Equal priced fields have equal values.
proof fn lemma_priced_injective(a: TxModel, b: TxModel)
    requires
        a.well_typed(),
        b.well_typed(),
        a.priced_items() == b.priced_items(),
    ensures
        a.nonce == b.nonce,
        a.gas_price == b.gas_price,
        a.gas_limit == b.gas_limit,
        a.to == b.to,
        a.value == b.value,
        a.input == b.input,
{
    let xs = a.priced_items();
    let ys = b.priced_items();
    assert(xs[0] == ys[0] && xs[1] == ys[1] && xs[2] == ys[2]);
    assert(xs[3] == ys[3] && xs[4] == ys[4] && xs[5] == ys[5]);
    law_uint_injective(a.nonce as nat, b.nonce as nat);
    law_uint_injective(a.gas_price as nat, b.gas_price as nat);
    law_uint_injective(a.gas_limit as nat, b.gas_limit as nat);
    lemma_callee_injective(a.to, b.to);
    law_uint_injective(a.value, b.value);
}

/// Equal fee market fields have equal values.
proof fn lemma_fee_market_injective(a: TxModel, b: TxModel)
    requires
        a.well_typed(),
        b.well_typed(),
        a.fee_market_items() == b.fee_market_items(),
    ensures
        a.chain_id->0 == b.chain_id->0,
        a.nonce == b.nonce,
        a.max_priority_fee_per_gas == b.max_priority_fee_per_gas,
        a.max_fee_per_gas == b.max_fee_per_gas,
        a.gas_limit == b.gas_limit,
        a.to == b.to,
        a.value == b.value,
        a.input == b.input,
        a.access_list == b.access_list,
{
    let xs = a.fee_market_items();
    let ys = b.fee_market_items();
    assert(xs[0] == ys[0] && xs[1] == ys[1] && xs[2] == ys[2] && xs[3] == ys[3] && xs[4] == ys[4]);
    assert(xs[5] == ys[5] && xs[6] == ys[6] && xs[7] == ys[7] && xs[8] == ys[8]);
    law_uint_injective(a.chain_id->0 as nat, b.chain_id->0 as nat);
    law_uint_injective(a.nonce as nat, b.nonce as nat);
    law_uint_injective(a.max_priority_fee_per_gas as nat, b.max_priority_fee_per_gas as nat);
    law_uint_injective(a.max_fee_per_gas as nat, b.max_fee_per_gas as nat);
    law_uint_injective(a.gas_limit as nat, b.gas_limit as nat);
    lemma_callee_injective(a.to, b.to);
    law_uint_injective(a.value, b.value);
    lemma_accesses_injective(a.access_list, b.access_list);
}

/// Equal signed fields of one type have equal values. What the type does not
/// sign is equal anyway, but for the chain of a transaction without a type flag.
proof fn lemma_signed_injective(a: TxModel, b: TxModel)
    requires
        a.well_typed(),
        b.well_typed(),
        a.ty == b.ty,
        a.signed_items() == b.signed_items(),
    ensures
        a.ty > 0 ==> a.chain_id == b.chain_id,
        a.nonce == b.nonce,
        a.gas_price == b.gas_price,
        a.gas_limit == b.gas_limit,
        a.max_fee_per_gas == b.max_fee_per_gas,
        a.max_priority_fee_per_gas == b.max_priority_fee_per_gas,
        a.to == b.to,
        a.value == b.value,
        a.access_list == b.access_list,
        a.blob_versioned_hashes == b.blob_versioned_hashes,
        a.max_fee_per_blob_gas == b.max_fee_per_blob_gas,
        a.authorization_list == b.authorization_list,
        a.input == b.input,
{
    let xs = a.signed_items();
    let ys = b.signed_items();
    if a.ty == 0 {
        lemma_priced_injective(a, b);
    } else if a.ty == 1 {
        assert(xs.subrange(1, 7) == a.priced_items() && ys.subrange(1, 7) == b.priced_items());
        lemma_priced_injective(a, b);
        assert(xs[0] == ys[0] && xs[7] == ys[7]);
        law_uint_injective(a.chain_id->0 as nat, b.chain_id->0 as nat);
        lemma_accesses_injective(a.access_list, b.access_list);
    } else {
        assert(xs.take(9) == a.fee_market_items() && ys.take(9) == b.fee_market_items());
        lemma_fee_market_injective(a, b);
        if a.ty == 3 {
            assert(xs[9] == ys[9] && xs[10] == ys[10]);
            law_uint_injective(a.max_fee_per_blob_gas as nat, b.max_fee_per_blob_gas as nat);
            lemma_hashes_injective(a.blob_versioned_hashes, b.blob_versioned_hashes);
        } else if a.ty == 4 {
            assert(xs[9] == ys[9]);
            lemma_authorizations_injective(a.authorization_list, b.authorization_list);
        }
    }
    assert(a.access_list =~= b.access_list);
    assert(a.blob_versioned_hashes =~= b.blob_versioned_hashes);
    assert(a.authorization_list =~= b.authorization_list);
}

/// Every transaction has the fields of its type.
pub proof fn law_well_typed(tx: Transaction)
    ensures
        tx@.well_typed(),
{
}

/// An envelope gives back the transaction: its type, every field and the
/// signature.
pub proof fn law_envelope_injective(a: TxModel, b: TxModel)
    requires
        a.well_typed(),
        b.well_typed(),
        envelope(a).len() <= u64::MAX,
        envelope(a) == envelope(b),
    ensures
        a == b,
{
    let x = a.body_item();
    let y = b.body_item();
    lemma_first_byte(x);
    lemma_first_byte(y);
    assert(encode(x)[0] >= 0xc0 && encode(y)[0] >= 0xc0);
    assert(envelope(a)[0] == if a.ty == 0 {
        encode(x)[0]
    } else {
        a.ty
    });
    assert(envelope(b)[0] == if b.ty == 0 {
        encode(y)[0]
    } else {
        b.ty
    });
    assert(a.ty == b.ty);
    if a.ty > 0 {
        assert(envelope(a).skip(1) == encode(x));
        assert(envelope(b).skip(1) == encode(y));
    }
    law_encode_injective(x, y);
    let xs = a.signed_items() + a.signature_items();
    let ys = b.signed_items() + b.signature_items();
    let n = a.signed_items().len() as int;
    assert(n == b.signed_items().len());
    assert(xs.take(n) == a.signed_items() && ys.take(n) == b.signed_items());
    lemma_signed_injective(a, b);
    assert(xs[n] == uint(a.v()) && ys[n] == uint(b.v()));
    assert(xs[n + 1] == uint(a.signature.r) && ys[n + 1] == uint(b.signature.r));
    assert(xs[n + 2] == uint(a.signature.s) && ys[n + 2] == uint(b.signature.s));
    law_uint_injective(a.v(), b.v());
    law_uint_injective(a.signature.r, b.signature.r);
    law_uint_injective(a.signature.s, b.signature.s);
    assert(a.signature.y_parity == b.signature.y_parity);
    assert(a.chain_id == b.chain_id);
}

/// A transaction without a type flag is the bare list of its nonce, gas price,
/// gas limit, callee, value and input, and of `v`, `r` and `s`. There `v` is 27 or
/// 28 without a chain, and otherwise 35 or 36 plus twice the chain id.
pub proof fn law_legacy_envelope(tx: LegacyTx, signature: TxSignature)
    ensures
        envelope(Transaction::Legacy(tx, signature)@) == encode(
            Item::List(
                seq![
                    uint(tx.nonce as nat),
                    uint(tx.gas_price as nat),
                    uint(tx.gas_limit as nat),
                    match tx.to {
                        Some(address) => Item::Str(address@),
                        None => Item::Str(Seq::empty()),
                    },
                    uint(tx.value@),
                    Item::Str(tx.input@),
                    uint(match tx.chain_id {
                        Some(id) => (35 + 2 * id + if signature.y_parity {
                            1int
                        } else {
                            0int
                        }) as nat,
                        None => if signature.y_parity {
                            28
                        } else {
                            27
                        },
                    }),
                    uint(signature.r@),
                    uint(signature.s@),
                ],
            ),
        ),
{
    let model = tx.signed(signature);
    assert(model.body_item()->List_0 =~= seq![
        uint(tx.nonce as nat),
        uint(tx.gas_price as nat),
        uint(tx.gas_limit as nat),
        match tx.to {
            Some(address) => Item::Str(address@),
            None => Item::Str(Seq::empty()),
        },
        uint(tx.value@),
        Item::Str(tx.input@),
        uint(match tx.chain_id {
            Some(id) => (35 + 2 * id + if signature.y_parity {
                1int
            } else {
                0int
            }) as nat,
            None => if signature.y_parity {
                28
            } else {
                27
            },
        }),
        uint(signature.r@),
        uint(signature.s@),
    ]);
}

/// A transaction with an access list is the flag 1 and the list of its fields.
pub proof fn law_eip2930_envelope(tx: Eip2930Tx, signature: TxSignature)
    ensures
        envelope(Transaction::Eip2930(tx, signature)@) == seq![1u8] + encode(
            Item::List(
                seq![
                    uint(tx.chain_id as nat),
                    uint(tx.nonce as nat),
                    uint(tx.gas_price as nat),
                    uint(tx.gas_limit as nat),
                    match tx.to {
                        Some(address) => Item::Str(address@),
                        None => Item::Str(Seq::empty()),
                    },
                    uint(tx.value@),
                    Item::Str(tx.input@),
                    accesses_item(accesses(tx.access_list@)),
                    uint(if signature.y_parity {
                        1
                    } else {
                        0
                    }),
                    uint(signature.r@),
                    uint(signature.s@),
                ],
            ),
        ),
{
    let model = tx.signed(signature);
    assert(model.body_item()->List_0 =~= seq![
        uint(tx.chain_id as nat),
        uint(tx.nonce as nat),
        uint(tx.gas_price as nat),
        uint(tx.gas_limit as nat),
        match tx.to {
            Some(address) => Item::Str(address@),
            None => Item::Str(Seq::empty()),
        },
        uint(tx.value@),
        Item::Str(tx.input@),
        accesses_item(accesses(tx.access_list@)),
        uint(if signature.y_parity {
            1
        } else {
            0
        }),
        uint(signature.r@),
        uint(signature.s@),
    ]);
}

/// A fee market transaction is the flag 2 and the list of its fields.
pub proof fn law_eip1559_envelope(tx: Eip1559Tx, signature: TxSignature)
    ensures
        envelope(Transaction::Eip1559(tx, signature)@) == seq![2u8] + encode(
            Item::List(
                seq![
                    uint(tx.chain_id as nat),
                    uint(tx.nonce as nat),
                    uint(tx.max_priority_fee_per_gas as nat),
                    uint(tx.max_fee_per_gas as nat),
                    uint(tx.gas_limit as nat),
                    match tx.to {
                        Some(address) => Item::Str(address@),
                        None => Item::Str(Seq::empty()),
                    },
                    uint(tx.value@),
                    Item::Str(tx.input@),
                    accesses_item(accesses(tx.access_list@)),
                    uint(if signature.y_parity {
                        1
                    } else {
                        0
                    }),
                    uint(signature.r@),
                    uint(signature.s@),
                ],
            ),
        ),
{
    let model = tx.signed(signature);
    assert(model.body_item()->List_0 =~= seq![
        uint(tx.chain_id as nat),
        uint(tx.nonce as nat),
        uint(tx.max_priority_fee_per_gas as nat),
        uint(tx.max_fee_per_gas as nat),
        uint(tx.gas_limit as nat),
        match tx.to {
            Some(address) => Item::Str(address@),
            None => Item::Str(Seq::empty()),
        },
        uint(tx.value@),
        Item::Str(tx.input@),
        accesses_item(accesses(tx.access_list@)),
        uint(if signature.y_parity {
            1
        } else {
            0
        }),
        uint(signature.r@),
        uint(signature.s@),
    ]);
}

/// A blob transaction is the flag 3 and the list of its fields.
pub proof fn law_eip4844_envelope(tx: Eip4844Tx, signature: TxSignature)
    ensures
        envelope(Transaction::Eip4844(tx, signature)@) == seq![3u8] + encode(
            Item::List(
                seq![
                    uint(tx.chain_id as nat),
                    uint(tx.nonce as nat),
                    uint(tx.max_priority_fee_per_gas as nat),
                    uint(tx.max_fee_per_gas as nat),
                    uint(tx.gas_limit as nat),
                    Item::Str(tx.to@),
                    uint(tx.value@),
                    Item::Str(tx.input@),
                    accesses_item(accesses(tx.access_list@)),
                    uint(tx.max_fee_per_blob_gas as nat),
                    hashes_item(hashes(tx.blob_versioned_hashes@)),
                    uint(if signature.y_parity {
                        1
                    } else {
                        0
                    }),
                    uint(signature.r@),
                    uint(signature.s@),
                ],
            ),
        ),
{
    let model = tx.signed(signature);
    assert(model.body_item()->List_0 =~= seq![
        uint(tx.chain_id as nat),
        uint(tx.nonce as nat),
        uint(tx.max_priority_fee_per_gas as nat),
        uint(tx.max_fee_per_gas as nat),
        uint(tx.gas_limit as nat),
        Item::Str(tx.to@),
        uint(tx.value@),
        Item::Str(tx.input@),
        accesses_item(accesses(tx.access_list@)),
        uint(tx.max_fee_per_blob_gas as nat),
        hashes_item(hashes(tx.blob_versioned_hashes@)),
        uint(if signature.y_parity {
            1
        } else {
            0
        }),
        uint(signature.r@),
        uint(signature.s@),
    ]);
}

/// A set-code transaction is the flag 4 and the list of its fields.
pub proof fn law_eip7702_envelope(tx: Eip7702Tx, signature: TxSignature)
    ensures
        envelope(Transaction::Eip7702(tx, signature)@) == seq![4u8] + encode(
            Item::List(
                seq![
                    uint(tx.chain_id as nat),
                    uint(tx.nonce as nat),
                    uint(tx.max_priority_fee_per_gas as nat),
                    uint(tx.max_fee_per_gas as nat),
                    uint(tx.gas_limit as nat),
                    Item::Str(tx.to@),
                    uint(tx.value@),
                    Item::Str(tx.input@),
                    accesses_item(accesses(tx.access_list@)),
                    authorizations_item(authorizations(tx.authorization_list@)),
                    uint(if signature.y_parity {
                        1
                    } else {
                        0
                    }),
                    uint(signature.r@),
                    uint(signature.s@),
                ],
            ),
        ),
{
    let model = tx.signed(signature);
    assert(model.body_item()->List_0 =~= seq![
        uint(tx.chain_id as nat),
        uint(tx.nonce as nat),
        uint(tx.max_priority_fee_per_gas as nat),
        uint(tx.max_fee_per_gas as nat),
        uint(tx.gas_limit as nat),
        Item::Str(tx.to@),
        uint(tx.value@),
        Item::Str(tx.input@),
        accesses_item(accesses(tx.access_list@)),
        authorizations_item(authorizations(tx.authorization_list@)),
        uint(if signature.y_parity {
            1
        } else {
            0
        }),
        uint(signature.r@),
        uint(signature.s@),
    ]);
}

/// Hashes are listed in their order, byte for byte.
pub proof fn law_hash_entries(list: Seq<[u8; 32]>)
    ensures
        hashes_item(hashes(list)) matches Item::List(items) && items.len() == list.len() && forall|
            i: int,
        |
            0 <= i < list.len() ==> #[trigger] items[i] == Item::Str(list[i]@),
{
}

/// An access list lists its entries in their order, each as the address byte for
/// byte and its storage keys.
pub proof fn law_access_entries(list: Seq<AccessListEntry>)
    ensures
        accesses_item(accesses(list)) matches Item::List(items) && items.len() == list.len()
            && forall|i: int|
            0 <= i < list.len() ==> #[trigger] items[i] == Item::List(
                seq![
                    Item::Str(list[i].address@),
                    hashes_item(hashes(list[i].storage_keys@)),
                ],
            ),
{
}

/// Authorizations are listed in their order, each as chain id, address, nonce,
/// parity, `r` and `s`.
pub proof fn law_authorization_entries(list: Seq<AuthorizationEntry>)
    ensures
        authorizations_item(authorizations(list)) matches Item::List(items) && items.len()
            == list.len() && forall|i: int|
            0 <= i < list.len() ==> #[trigger] items[i] == Item::List(
                seq![
                    uint(list[i].chain_id@),
                    Item::Str(list[i].address@),
                    uint(list[i].nonce as nat),
                    uint(list[i].y_parity as nat),
                    uint(list[i].r@),
                    uint(list[i].s@),
                ],
            ),
{
}

} // verus!
