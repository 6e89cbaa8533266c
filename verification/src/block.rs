//! Blocks.

use vstd::prelude::*;
use crate::header::BlockHeader;
use crate::transaction::Transaction;
#[allow(unused_imports)]
use crate::header::HeaderModel;
#[allow(unused_imports)]
use crate::transaction::TxModel;

verus! {

/// A transfer out of the consensus layer.
#[derive(Clone, Debug, PartialEq, Eq)]
pub struct Withdrawal {
    pub index: u64,
    pub validator_index: u64,
    pub address: [u8; 20],
    pub amount: u64,
}

/// A block: its header, its transactions and, where the fork has them, its
/// withdrawals.
#[derive(Clone, Debug, PartialEq, Eq)]
pub struct Block {
    pub header: BlockHeader,
    pub transactions: Vec<Transaction>,
    pub withdrawals: Option<Vec<Withdrawal>>,
}

/// What a withdrawal says.
pub struct WithdrawalModel {
    pub index: u64,
    pub validator_index: u64,
    pub address: Seq<u8>,
    pub amount: u64,
}

/// What a block says. A block without withdrawals is a block with none.
pub struct BlockModel {
    pub header: HeaderModel,
    pub transactions: Seq<TxModel>,
    pub withdrawals: Seq<WithdrawalModel>,
}

impl View for Withdrawal {
    type V = WithdrawalModel;

    open spec fn view(&self) -> WithdrawalModel {
        WithdrawalModel {
            index: self.index,
            validator_index: self.validator_index,
            address: self.address@,
            amount: self.amount,
        }
    }
}

/// The withdrawals of a block; none where the block has no such list.
pub open spec fn withdrawals_model(withdrawals: Option<Vec<Withdrawal>>) -> Seq<WithdrawalModel> {
    match withdrawals {
        Some(list) => list@.map_values(|withdrawal: Withdrawal| withdrawal@),
        None => Seq::empty(),
    }
}

impl View for Block {
    type V = BlockModel;

    open spec fn view(&self) -> BlockModel {
        BlockModel {
            header: self.header@,
            transactions: self.transactions@.map_values(|tx: Transaction| tx@),
            withdrawals: withdrawals_model(self.withdrawals),
        }
    }
}

} // verus!
