//! A block, from the text of its height to its view.

use crate::encoding::hex_encode;
use crate::error::ResolveError;
use crate::height::{decimal_value, height_digits, is_height_token, parse_height};
use crate::ledger::{gather, lemma_gather_failure_stays, lemma_gather_push, Ledger};
use crate::lookup::{Answer, Query};
use crate::types::{models, BlockInfo, Bytes32, StoredTransaction};
use crate::views::{
    block_view_of, summary_of, BlockView, BlockViewModel, SummaryModel, TransactionSummary,
};
use vstd::prelude::*;

verus! {

/// Resolves a block, a lookup at a time: the block at the height, the hashes
/// it lists, then for each hash in turn the transaction's identifier and the
/// transaction.
#[derive(Clone, Debug, PartialEq, Eq)]
pub enum BlockResolver {
    /// Waiting for the block at `height`.
    AwaitBlock { height: u64 },
    /// Waiting for the hashes that the block lists.
    AwaitHashes { height: u64, info: BlockInfo },
    /// Waiting for the identifier of the next listed transaction, `current`.
    AwaitTxId {
        height: u64,
        info: BlockInfo,
        hashes: Vec<Bytes32>,
        summaries: Vec<TransactionSummary>,
        current: Bytes32,
    },
    /// Waiting for the next listed transaction.
    AwaitTransaction {
        height: u64,
        info: BlockInfo,
        hashes: Vec<Bytes32>,
        summaries: Vec<TransactionSummary>,
        tx_id: u64,
    },
}

/// How a [`BlockResolver`] goes on after an answer.
#[derive(Clone, Debug, PartialEq, Eq)]
pub enum BlockStep {
    /// Another lookup is needed: that of the resolver's `query`.
    Ask(BlockResolver),
    /// The view of the block.
    Done(BlockView),
    /// There is no view to give.
    Fail(ResolveError),
}

/// Sums up a stored transaction for a block's list.
pub fn summarize(tx: &StoredTransaction) -> (summary: TransactionSummary)
    ensures
        summary@ == summary_of(tx@),
        summary.is_coinbase <==> tx.inputs@.len() == 0,
{
    TransactionSummary {
        hash: hex_encode(tx.hash.as_slice()),
        version: tx.version,
        is_coinbase: tx.inputs.len() == 0,
        weight: tx.weight,
        extra: hex_encode(tx.extra.as_slice()),
    }
}

impl BlockResolver {
    /// Height of the block that is being resolved.
    pub open spec fn height(self) -> u64 {
        match self {
            BlockResolver::AwaitBlock { height } => height,
            BlockResolver::AwaitHashes { height, .. } => height,
            BlockResolver::AwaitTxId { height, .. } => height,
            BlockResolver::AwaitTransaction { height, .. } => height,
        }
    }

    /// The lookup that the resolver waits for.
    pub open spec fn spec_query(&self) -> Query {
        match *self {
            BlockResolver::AwaitBlock { height } => Query::BlockInfo { height },
            BlockResolver::AwaitHashes { height, .. } => Query::BlockTxHashes { height },
            BlockResolver::AwaitTxId { current, .. } => Query::TxId { hash: current },
            BlockResolver::AwaitTransaction { tx_id, .. } => Query::Transaction { tx_id },
        }
    }

    /// Whether what the resolver has learnt so far is what `ledger` holds.
    pub open spec fn tracks(self, ledger: Ledger) -> bool {
        match self {
            BlockResolver::AwaitBlock { .. } => true,
            BlockResolver::AwaitHashes { height, info } => ledger.block_infos.get(height) == Some(
                info,
            ),
            BlockResolver::AwaitTxId { height, info, hashes, summaries, current } => {
                &&& ledger.block_infos.get(height) == Some(info)
                &&& ledger.block_tx_hashes.get(height) == Some(hashes@)
                &&& summaries.len() < hashes.len()
                &&& current == hashes[summaries.len() as int]
                &&& gather(ledger.summaries(hashes@).take(summaries.len() as int)) == Ok::<
                    Seq<SummaryModel>,
                    ResolveError,
                >(models(summaries@))
            },
            BlockResolver::AwaitTransaction { height, info, hashes, summaries, tx_id } => {
                &&& ledger.block_infos.get(height) == Some(info)
                &&& ledger.block_tx_hashes.get(height) == Some(hashes@)
                &&& summaries.len() < hashes.len()
                &&& ledger.tx_ids.get(hashes[summaries.len() as int]@) == Some(tx_id)
                &&& gather(ledger.summaries(hashes@).take(summaries.len() as int)) == Ok::<
                    Seq<SummaryModel>,
                    ResolveError,
                >(models(summaries@))
            },
        }
    }

    /// How far the resolver is from the listed transactions: two lookups
    /// before the list is known, one once the block is, none after.
    pub open spec fn phase(self) -> nat {
        match self {
            BlockResolver::AwaitBlock { .. } => 2,
            BlockResolver::AwaitHashes { .. } => 1,
            _ => 0,
        }
    }

    /// An upper bound on the lookups still to come once the list is known.
    pub open spec fn pending(self) -> nat {
        match self {
            BlockResolver::AwaitTxId { hashes, summaries, .. } => if summaries.len()
                < hashes.len() {
                (2 * (hashes.len() - summaries.len())) as nat
            } else {
                1
            },
            BlockResolver::AwaitTransaction { hashes, summaries, .. } => if summaries.len()
                < hashes.len() {
                (2 * (hashes.len() - summaries.len()) - 1) as nat
            } else {
                0
            },
            _ => 0,
        }
    }

    /// Whether `next` is nearer to the end than `self`.
    pub open spec fn nearer(self, next: BlockResolver) -> bool {
        next.phase() < self.phase() || (next.phase() == self.phase() && next.pending()
            < self.pending())
    }

    /// Starts on the block named by `token`.
    ///
    /// A token that writes no height fails here, before any lookup is asked
    /// for.
    pub fn start(token: &str) -> (r: BlockStep)
        ensures
            match r {
                BlockStep::Ask(resolver) => {
                    &&& is_height_token(token@)
                    &&& resolver matches BlockResolver::AwaitBlock { height }
                    &&& height == decimal_value(height_digits(token@))
                },
                BlockStep::Done(_) => false,
                BlockStep::Fail(e) => !is_height_token(token@) && e == ResolveError::InvalidHeight,
            },
    {
        match parse_height(token) {
            Ok(height) => BlockStep::Ask(BlockResolver::AwaitBlock { height }),
            Err(e) => BlockStep::Fail(e),
        }
    }

    /// The lookup to make next.
    #[verifier::when_used_as_spec(spec_query)]
    pub fn query(&self) -> (q: Query)
        ensures
            q == self.spec_query(),
    {
        match self {
            BlockResolver::AwaitBlock { height } => Query::BlockInfo { height: *height },
            BlockResolver::AwaitHashes { height, .. } => Query::BlockTxHashes { height: *height },
            BlockResolver::AwaitTxId { current, .. } => Query::TxId { hash: *current },
            BlockResolver::AwaitTransaction { tx_id, .. } => Query::Transaction { tx_id: *tx_id },
        }
    }

    /// Goes on to the next listed transaction, or ends with the view where
    /// each has its summary.
    fn advance(
        height: u64,
        info: BlockInfo,
        hashes: Vec<Bytes32>,
        summaries: Vec<TransactionSummary>,
    ) -> (r: BlockStep)
        ensures
            match r {
                BlockStep::Ask(next) => summaries.len() < hashes.len() && next == (
                BlockResolver::AwaitTxId {
                    height,
                    info,
                    hashes,
                    summaries,
                    current: hashes[summaries.len() as int],
                }),
                BlockStep::Done(view) => summaries.len() >= hashes.len() && view@ == block_view_of(
                    info,
                    models(summaries@),
                ),
                BlockStep::Fail(_) => false,
            },
    {
        if summaries.len() < hashes.len() {
            let current = hashes[summaries.len()];
            BlockStep::Ask(BlockResolver::AwaitTxId { height, info, hashes, summaries, current })
        } else {
            BlockStep::Done(
                BlockView {
                    hash: hex_encode(info.block_hash.as_slice()),
                    timestamp: info.timestamp,
                    weight: info.weight,
                    cumulative_generated_coins: info.cumulative_generated_coins,
                    cumulative_difficulty_low: info.cumulative_difficulty_low,
                    cumulative_difficulty_high: info.cumulative_difficulty_high,
                    cumulative_rct_outs: info.cumulative_rct_outs,
                    long_term_weight: info.long_term_weight,
                    transactions: summaries,
                },
            )
        }
    }

    /// Takes the answer to `self.query()` and decides how to go on.
    ///
    /// For every ledger that agrees with the answers so far, the resolver ends
    /// with what the ledger defines for the height: the view, or the failure.
    pub fn step(self, answer: Answer) -> (r: BlockStep)
        ensures
            !answer.fits(self.query()) ==> r == BlockStep::Fail(ResolveError::UnexpectedAnswer),
            r matches BlockStep::Ask(next) ==> self.nearer(next) && next.height() == self.height(),
            forall|ledger: Ledger| #[trigger]
                self.tracks(ledger) && ledger.answers(self.query(), answer) ==> match r {
                    BlockStep::Ask(next) => next.tracks(ledger),
                    BlockStep::Done(view) => ledger.block(self.height()) == Ok::<
                        BlockViewModel,
                        ResolveError,
                    >(view@),
                    BlockStep::Fail(e) => ledger.block(self.height()) == Err::<
                        BlockViewModel,
                        ResolveError,
                    >(e),
                },
    {
        match self {
            BlockResolver::AwaitBlock { height } => match answer {
                Answer::BlockInfo(Some(info)) => BlockStep::Ask(
                    BlockResolver::AwaitHashes { height, info },
                ),
                Answer::BlockInfo(None) => BlockStep::Fail(ResolveError::BlockNotFound),
                _ => BlockStep::Fail(ResolveError::UnexpectedAnswer),
            },
            BlockResolver::AwaitHashes { height, info } => match answer {
                Answer::BlockTxHashes(Some(hashes)) => {
                    let summaries: Vec<TransactionSummary> = Vec::new();
                    proof {
                        assert forall|ledger: Ledger|
                            ledger.block_tx_hashes.get(height) == Some(
                                hashes@,
                            ) implies #[trigger] gather(ledger.summaries(hashes@).take(0)) == Ok::<
                            Seq<SummaryModel>,
                            ResolveError,
                        >(models(summaries@)) by {
                            assert(ledger.summaries(hashes@).take(0) =~= Seq::empty());
                            assert(models(summaries@) =~= Seq::empty());
                            assert(ledger.summaries(hashes@).take(hashes@.len() as int)
                                =~= ledger.summaries(hashes@));
                        }
                        assert forall|ledger: Ledger| hashes@.len() == 0 implies #[trigger] gather(
                            ledger.summaries(hashes@),
                        ) == Ok::<Seq<SummaryModel>, ResolveError>(Seq::empty()) by {}
                        assert(models(summaries@) =~= Seq::empty());
                    }
                    Self::advance(height, info, hashes, summaries)
                },
                Answer::BlockTxHashes(None) => BlockStep::Fail(ResolveError::DanglingReference),
                _ => BlockStep::Fail(ResolveError::UnexpectedAnswer),
            },
            BlockResolver::AwaitTxId { height, info, hashes, summaries, .. } => match answer {
                Answer::TxId(Some(tx_id)) => BlockStep::Ask(
                    BlockResolver::AwaitTransaction { height, info, hashes, summaries, tx_id },
                ),
                Answer::TxId(None) => {
                    proof {
                        let k = summaries.len() as int;
                        assert forall|ledger: Ledger| #[trigger]
                            self.tracks(ledger) && ledger.answers(
                                self.query(),
                                answer,
                            ) implies ledger.block(height) == Err::<BlockViewModel, ResolveError>(
                            ResolveError::DanglingReference,
                        ) by {
                            let all = ledger.summaries(hashes@);
                            assert(all.take(k + 1) =~= all.take(k).push(all[k]));
                            lemma_gather_push(all.take(k), all[k]);
                            lemma_gather_failure_stays(all, k + 1);
                        }
                    }
                    BlockStep::Fail(ResolveError::DanglingReference)
                },
                _ => BlockStep::Fail(ResolveError::UnexpectedAnswer),
            },
            BlockResolver::AwaitTransaction { height, info, hashes, summaries, .. } => match answer {
                Answer::Transaction(Some(tx)) => {
                    let ghost before = summaries@;
                    let mut summaries = summaries;
                    summaries.push(summarize(&tx));
                    proof {
                        let k = before.len() as int;
                        assert(models(summaries@) =~= models(before).push(summary_of(tx@)));
                        assert forall|ledger: Ledger| #[trigger]
                            self.tracks(ledger) && ledger.answers(
                                self.query(),
                                answer,
                            ) implies gather(ledger.summaries(hashes@).take(k + 1)) == Ok::<
                            Seq<SummaryModel>,
                            ResolveError,
                        >(models(summaries@)) by {
                            let all = ledger.summaries(hashes@);
                            assert(all.take(k + 1) =~= all.take(k).push(all[k]));
                            lemma_gather_push(all.take(k), all[k]);
                            assert(all.take(hashes@.len() as int) =~= all);
                        }
                    }
                    Self::advance(height, info, hashes, summaries)
                },
                Answer::Transaction(None) => {
                    proof {
                        let k = summaries.len() as int;
                        assert forall|ledger: Ledger| #[trigger]
                            self.tracks(ledger) && ledger.answers(
                                self.query(),
                                answer,
                            ) implies ledger.block(height) == Err::<BlockViewModel, ResolveError>(
                            ResolveError::DanglingReference,
                        ) by {
                            let all = ledger.summaries(hashes@);
                            assert(all.take(k + 1) =~= all.take(k).push(all[k]));
                            lemma_gather_push(all.take(k), all[k]);
                            lemma_gather_failure_stays(all, k + 1);
                        }
                    }
                    BlockStep::Fail(ResolveError::DanglingReference)
                },
                _ => BlockStep::Fail(ResolveError::UnexpectedAnswer),
            },
        }
    }
}

} // verus!
