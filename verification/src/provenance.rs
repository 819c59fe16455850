//! From an output's place in a block to the hash of the transaction that
//! created it.

use crate::error::ResolveError;
use crate::ledger::Ledger;
use crate::lookup::{Answer, Query};
use crate::types::Bytes32;
use vstd::prelude::*;

verus! {

/// Finds the hash of the transaction in one slot of one block, a lookup at a
/// time.
///
/// It first asks for the block. Where the slot is that of the block's coinbase
/// transaction it asks for the hash of that transaction's bytes, else for the
/// hashes that the block lists, and picks among them.
#[derive(Clone, Copy, Debug, PartialEq, Eq)]
pub enum ProvenanceMapper {
    /// Waiting for the block at `height`.
    AwaitBlock { height: u32, tx_idx: u32 },
    /// The slot is the coinbase transaction's: waiting for its hash.
    AwaitCoinbase { height: u32, tx_idx: u32 },
    /// The slot is a listed transaction's: waiting for the block's list.
    AwaitListed { height: u32, tx_idx: u32, mining_tx_index: u64 },
}

/// How a [`ProvenanceMapper`] goes on after an answer.
#[derive(Clone, Copy, Debug, PartialEq, Eq)]
pub enum ProvenanceStep {
    /// Another lookup is needed: that of the mapper's `query`.
    Ask(ProvenanceMapper),
    /// The hash of the transaction.
    Done(Bytes32),
    /// The slot leads nowhere.
    Fail(ResolveError),
}

impl ProvenanceMapper {
    /// Height of the block that the mapper looks in.
    pub open spec fn height(self) -> u32 {
        match self {
            ProvenanceMapper::AwaitBlock { height, .. } => height,
            ProvenanceMapper::AwaitCoinbase { height, .. } => height,
            ProvenanceMapper::AwaitListed { height, .. } => height,
        }
    }

    /// The slot that the mapper looks for.
    pub open spec fn tx_idx(self) -> u32 {
        match self {
            ProvenanceMapper::AwaitBlock { tx_idx, .. } => tx_idx,
            ProvenanceMapper::AwaitCoinbase { tx_idx, .. } => tx_idx,
            ProvenanceMapper::AwaitListed { tx_idx, .. } => tx_idx,
        }
    }

    /// The lookup that the mapper waits for.
    pub open spec fn spec_query(self) -> Query {
        match self {
            ProvenanceMapper::AwaitBlock { height, .. } => Query::BlockInfo {
                height: height as u64,
            },
            ProvenanceMapper::AwaitCoinbase { tx_idx, .. } => Query::TxHash {
                tx_id: tx_idx as u64,
            },
            ProvenanceMapper::AwaitListed { height, .. } => Query::BlockTxHashes {
                height: height as u64,
            },
        }
    }

    /// Whether what the mapper has learnt so far is what `ledger` holds.
    pub open spec fn tracks(self, ledger: Ledger) -> bool {
        match self {
            ProvenanceMapper::AwaitBlock { .. } => true,
            ProvenanceMapper::AwaitCoinbase { height, tx_idx } => {
                &&& ledger.block_infos.get(height as u64) matches Some(info)
                &&& info.mining_tx_index == tx_idx
            },
            ProvenanceMapper::AwaitListed { height, tx_idx, mining_tx_index } => {
                &&& ledger.block_infos.get(height as u64) matches Some(info)
                &&& info.mining_tx_index == mining_tx_index
                &&& mining_tx_index != tx_idx
            },
        }
    }

    /// An upper bound on the lookups still to come.
    pub open spec fn rank(self) -> nat {
        match self {
            ProvenanceMapper::AwaitBlock { .. } => 2,
            _ => 1,
        }
    }

    /// A mapper for slot `tx_idx` of the block at `height`.
    pub fn start(height: u32, tx_idx: u32) -> (mapper: ProvenanceMapper)
        ensures
            mapper == (ProvenanceMapper::AwaitBlock { height, tx_idx }),
    {
        ProvenanceMapper::AwaitBlock { height, tx_idx }
    }

    /// The lookup to make next.
    #[verifier::when_used_as_spec(spec_query)]
    pub fn query(self) -> (q: Query)
        ensures
            q == self.spec_query(),
    {
        match self {
            ProvenanceMapper::AwaitBlock { height, .. } => Query::BlockInfo {
                height: height as u64,
            },
            ProvenanceMapper::AwaitCoinbase { tx_idx, .. } => Query::TxHash {
                tx_id: tx_idx as u64,
            },
            ProvenanceMapper::AwaitListed { height, .. } => Query::BlockTxHashes {
                height: height as u64,
            },
        }
    }

    /// Takes the answer to `self.query()` and decides how to go on.
    ///
    /// For every ledger that agrees with the answers so far, the mapper ends
    /// with what the ledger defines for the slot: the hash, or the failure.
    pub fn step(self, answer: Answer) -> (r: ProvenanceStep)
        ensures
            !answer.fits(self.query()) ==> r == ProvenanceStep::Fail(
                ResolveError::UnexpectedAnswer,
            ),
            r matches ProvenanceStep::Ask(next) ==> {
                &&& next.rank() < self.rank()
                &&& next.height() == self.height()
                &&& next.tx_idx() == self.tx_idx()
            },
            forall|ledger: Ledger| #[trigger]
                self.tracks(ledger) && ledger.answers(self.query(), answer) ==> match r {
                    ProvenanceStep::Ask(next) => next.tracks(ledger),
                    ProvenanceStep::Done(hash) => ledger.provenance(self.height(), self.tx_idx())
                        == Ok::<Bytes32, ResolveError>(hash),
                    ProvenanceStep::Fail(e) => ledger.provenance(self.height(), self.tx_idx())
                        == Err::<Bytes32, ResolveError>(e),
                },
    {
        match self {
            ProvenanceMapper::AwaitBlock { height, tx_idx } => match answer {
                Answer::BlockInfo(Some(info)) => {
                    if tx_idx as u64 == info.mining_tx_index {
                        ProvenanceStep::Ask(ProvenanceMapper::AwaitCoinbase { height, tx_idx })
                    } else {
                        ProvenanceStep::Ask(
                            ProvenanceMapper::AwaitListed {
                                height,
                                tx_idx,
                                mining_tx_index: info.mining_tx_index,
                            },
                        )
                    }
                },
                Answer::BlockInfo(None) => ProvenanceStep::Fail(ResolveError::BlockNotFound),
                _ => ProvenanceStep::Fail(ResolveError::UnexpectedAnswer),
            },
            ProvenanceMapper::AwaitCoinbase { .. } => match answer {
                Answer::TxHash(Some(hash)) => ProvenanceStep::Done(hash),
                Answer::TxHash(None) => ProvenanceStep::Fail(ResolveError::DanglingReference),
                _ => ProvenanceStep::Fail(ResolveError::UnexpectedAnswer),
            },
            ProvenanceMapper::AwaitListed { tx_idx, mining_tx_index, .. } => match answer {
                Answer::BlockTxHashes(Some(hashes)) => {
                    let slot_plus_one = tx_idx as u64;
                    if slot_plus_one > mining_tx_index && slot_plus_one - mining_tx_index - 1 < (
                    hashes.len() as u64) {
                        let slot = (slot_plus_one - mining_tx_index - 1) as usize;
                        ProvenanceStep::Done(hashes[slot])
                    } else {
                        ProvenanceStep::Fail(ResolveError::IndexOutOfRange)
                    }
                },
                Answer::BlockTxHashes(None) => ProvenanceStep::Fail(
                    ResolveError::DanglingReference,
                ),
                _ => ProvenanceStep::Fail(ResolveError::UnexpectedAnswer),
            },
        }
    }
}

} // verus!
