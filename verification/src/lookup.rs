//! The lookups that a resolver asks of the store, and what comes back.

use crate::types::{BlockInfo, Bytes32, OutputKey, OutputRecord, StoredTransaction};
use vstd::prelude::*;

verus! {

/// One point lookup in the store.
#[derive(Clone, Copy, Debug, PartialEq, Eq)]
pub enum Query {
    /// The identifier of the transaction with this hash.
    TxId { hash: Bytes32 },
    /// The height of the block that holds this transaction.
    TxHeight { tx_id: u64 },
    /// The block stored at this height.
    BlockInfo { height: u64 },
    /// The transaction stored under this identifier, decoded.
    Transaction { tx_id: u64 },
    /// The hash of the bytes stored under this identifier.
    TxHash { tx_id: u64 },
    /// The output stored under this key.
    Output { key: OutputKey },
    /// The hashes of the transactions that the block at this height lists,
    /// the coinbase transaction not among them.
    BlockTxHashes { height: u64 },
}

/// What the store holds for a [`Query`]; `None` where it holds nothing.
#[derive(Clone, Debug, PartialEq, Eq)]
pub enum Answer {
    TxId(Option<u64>),
    TxHeight(Option<u64>),
    BlockInfo(Option<BlockInfo>),
    Transaction(Option<StoredTransaction>),
    TxHash(Option<Bytes32>),
    Output(Option<OutputRecord>),
    BlockTxHashes(Option<Vec<Bytes32>>),
}

impl Answer {
    /// Whether `self` is an answer to a lookup of the sort of `query`.
    pub open spec fn fits(self, query: Query) -> bool {
        match (query, self) {
            (Query::TxId { .. }, Answer::TxId(_)) => true,
            (Query::TxHeight { .. }, Answer::TxHeight(_)) => true,
            (Query::BlockInfo { .. }, Answer::BlockInfo(_)) => true,
            (Query::Transaction { .. }, Answer::Transaction(_)) => true,
            (Query::TxHash { .. }, Answer::TxHash(_)) => true,
            (Query::Output { .. }, Answer::Output(_)) => true,
            (Query::BlockTxHashes { .. }, Answer::BlockTxHashes(_)) => true,
            _ => false,
        }
    }
}

} // verus!
