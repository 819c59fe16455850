//! The ledger as mathematics: what a snapshot of the store holds, and what a
//! query over it has to answer.
//!
//! Nothing here runs. The resolvers are proved against these definitions for
//! every ledger, so whatever store answers their lookups, they assemble what
//! this module says.

use crate::encoding::hex_bytes;
use crate::encoding::is_hash_token;
use crate::error::ResolveError;
use crate::height::{decimal_value, height_digits, is_height_token};
use crate::lookup::{Answer, Query};
use crate::offsets::{indices_fit, prefix_sum};
use crate::types::{
    format_of_version, AddressSpace, BlockInfo, Bytes32, OutputKey, OutputRecord,
    TransactionModel, TxInputModel,
};
use crate::views::{
    block_view_of, mixin_of, summary_of, transaction_view_of, BlockViewModel, MixinModel,
    SummaryModel, TransactionViewModel,
};
use vstd::prelude::*;

verus! {

/// One snapshot of the store: its tables as maps.
pub struct Ledger {
    /// Transaction identifiers by hash.
    pub tx_ids: Map<Seq<u8>, u64>,
    /// For each transaction the height of its block.
    pub tx_heights: Map<u64, u64>,
    /// Blocks by height.
    pub block_infos: Map<u64, BlockInfo>,
    /// Transactions by identifier.
    pub transactions: Map<u64, TransactionModel>,
    /// Outputs by amount and index among the outputs of that amount.
    pub pre_rct_outputs: Map<(u64, u64), OutputRecord>,
    /// Confidential outputs by index.
    pub rct_outputs: Map<u64, OutputRecord>,
    /// For each height the hashes that the block lists, without its coinbase.
    pub block_tx_hashes: Map<u64, Seq<Bytes32>>,
}

/// The items of `row` if each of them is there, else the first failure.
pub open spec fn gather<T>(row: Seq<Result<T, ResolveError>>) -> Result<Seq<T>, ResolveError>
    decreases row.len(),
{
    if row.len() == 0 {
        Ok(Seq::empty())
    } else {
        match gather(row.drop_last()) {
            Err(e) => Err(e),
            Ok(items) => match row.last() {
                Err(e) => Err(e),
                Ok(item) => Ok(items.push(item)),
            },
        }
    }
}

/// Appending to a row: its items with the new one, where both are there.
pub proof fn lemma_gather_push<T>(row: Seq<Result<T, ResolveError>>, last: Result<T, ResolveError>)
    ensures
        gather(row.push(last)) == match gather(row) {
            Err(e) => Err::<Seq<T>, ResolveError>(e),
            Ok(items) => match last {
                Err(e) => Err(e),
                Ok(item) => Ok(items.push(item)),
            },
        },
{
    assert(row.push(last).drop_last() =~= row);
}

/// A failure among the first `n` entries of a row is the failure of the row.
pub proof fn lemma_gather_failure_stays<T>(row: Seq<Result<T, ResolveError>>, n: int)
    requires
        0 <= n <= row.len(),
        gather(row.take(n)) is Err,
    ensures
        gather(row) == gather(row.take(n)),
    decreases row.len() - n,
{
    if n < row.len() {
        assert(row.take(n + 1).drop_last() =~= row.take(n));
        lemma_gather_failure_stays(row, n + 1);
    } else {
        assert(row.take(n) =~= row);
    }
}

/// The first failure in a row is the failure of the row.
pub proof fn lemma_gather_first_failure<T>(row: Seq<Result<T, ResolveError>>, k: int)
    requires
        0 <= k < row.len(),
        row[k] is Err,
        forall|m: int| 0 <= m < k ==> (#[trigger] row[m]) is Ok,
    ensures
        gather(row) == Err::<Seq<T>, ResolveError>(row[k]->Err_0),
{
    lemma_gather_all_ok(row.take(k));
    assert(row.take(k + 1) =~= row.take(k).push(row[k]));
    lemma_gather_push(row.take(k), row[k]);
    lemma_gather_failure_stays(row, k + 1);
}

/// A row without a failure gathers to something.
pub proof fn lemma_gather_all_ok<T>(row: Seq<Result<T, ResolveError>>)
    requires
        forall|m: int| 0 <= m < row.len() ==> (#[trigger] row[m]) is Ok,
    ensures
        gather(row) is Ok,
    decreases row.len(),
{
    if row.len() > 0 {
        lemma_gather_all_ok(row.drop_last());
    }
}

/// A row that gathers to `items` holds exactly these, in order.
pub proof fn lemma_gather_items<T>(row: Seq<Result<T, ResolveError>>, items: Seq<T>)
    requires
        gather(row) == Ok::<Seq<T>, ResolveError>(items),
    ensures
        items.len() == row.len(),
        forall|k: int| 0 <= k < row.len() ==> #[trigger] row[k] == Ok::<T, ResolveError>(items[k]),
    decreases row.len(),
{
    if row.len() > 0 {
        let front = gather(row.drop_last())->Ok_0;
        lemma_gather_items(row.drop_last(), front);
        assert forall|k: int| 0 <= k < row.len() implies #[trigger] row[k] == Ok::<
            T,
            ResolveError,
        >(items[k]) by {
            if k < row.len() - 1 {
                assert(row.drop_last()[k] == row[k]);
            }
        }
    }
}

/// The keys of the ring members of `input`, in the order of its offsets.
pub open spec fn ring_keys(space: AddressSpace, input: TxInputModel) -> Seq<OutputKey> {
    Seq::new(
        input.key_offsets.len(),
        |j: int| space.key(input.amount, prefix_sum(input.key_offsets, j + 1) as u64),
    )
}

/// The lookups that the rings of `tx` take: for each input the keys of its
/// members. There are none where the version names no format or an input's
/// offsets leave the 64-bit range.
pub open spec fn plan_of(tx: TransactionModel) -> Result<Seq<Seq<OutputKey>>, ResolveError> {
    match format_of_version(tx.version) {
        None => Err(ResolveError::UnknownFormat),
        Some(format) => if forall|i: int|
            0 <= i < tx.inputs.len() ==> indices_fit(#[trigger] tx.inputs[i].key_offsets) {
            Ok(
                Seq::new(
                    tx.inputs.len(),
                    |i: int| ring_keys(format.address_space(), tx.inputs[i]),
                ),
            )
        } else {
            Err(ResolveError::ArithmeticOverflow)
        },
    }
}

impl Ledger {
    /// The output stored under `key`, in the table that the key belongs to.
    pub open spec fn output(self, key: OutputKey) -> Option<OutputRecord> {
        match key {
            OutputKey::PreRct { amount, amount_index } => self.pre_rct_outputs.get(
                (amount, amount_index),
            ),
            OutputKey::Rct { index } => self.rct_outputs.get(index),
        }
    }

    /// The hash of the transaction in slot `tx_idx` of the block at `height`.
    ///
    /// The slot of the block's coinbase transaction is its `mining_tx_index`;
    /// that transaction is not listed, so its hash is that of its stored
    /// bytes. Slot `mining_tx_index + 1 + k` is the `k`-th listed hash.
    pub open spec fn provenance(self, height: u32, tx_idx: u32) -> Result<Bytes32, ResolveError> {
        match self.block_infos.get(height as u64) {
            None => Err(ResolveError::BlockNotFound),
            Some(info) => if tx_idx == info.mining_tx_index {
                match self.transactions.get(tx_idx as u64) {
                    None => Err(ResolveError::DanglingReference),
                    Some(tx) => Ok(tx.hash),
                }
            } else {
                match self.block_tx_hashes.get(height as u64) {
                    None => Err(ResolveError::DanglingReference),
                    Some(hashes) => {
                        let slot = tx_idx - info.mining_tx_index - 1;
                        if 0 <= slot < hashes.len() {
                            Ok(hashes[slot])
                        } else {
                            Err(ResolveError::IndexOutOfRange)
                        }
                    },
                }
            },
        }
    }

    /// The ring member that `key` stands for.
    pub open spec fn mixin(self, key: OutputKey) -> Result<MixinModel, ResolveError> {
        match self.output(key) {
            None => Err(ResolveError::OutputNotFound),
            Some(record) => match self.provenance(record.height, record.tx_idx) {
                Err(e) => Err(e),
                Ok(hash) => Ok(mixin_of(key, record, hash)),
            },
        }
    }

    /// Each member of one ring, resolved or failed, in the order of the keys.
    pub open spec fn ring(self, keys: Seq<OutputKey>) -> Seq<Result<MixinModel, ResolveError>> {
        Seq::new(keys.len(), |j: int| self.mixin(keys[j]))
    }

    /// Each ring member of a plan, resolved or failed, in the plan's shape.
    pub open spec fn rings(self, plan: Seq<Seq<OutputKey>>) -> Seq<
        Seq<Result<MixinModel, ResolveError>>,
    > {
        Seq::new(plan.len(), |i: int| self.ring(plan[i]))
    }

    /// The view of the transaction with hash `hash`.
    pub open spec fn transaction(self, hash: Seq<u8>) -> Result<
        TransactionViewModel,
        ResolveError,
    > {
        match self.tx_ids.get(hash) {
            None => Err(ResolveError::TransactionNotFound),
            Some(tx_id) => match self.tx_heights.get(tx_id) {
                None => Err(ResolveError::DanglingReference),
                Some(height) => match self.block_infos.get(height) {
                    None => Err(ResolveError::DanglingReference),
                    Some(info) => match self.transactions.get(tx_id) {
                        None => Err(ResolveError::DanglingReference),
                        Some(tx) => match plan_of(tx) {
                            Err(e) => Err(e),
                            Ok(plan) => match gather_rings(self.rings(plan)) {
                                Err(e) => Err(e),
                                Ok(rings) => Ok(
                                    transaction_view_of(hash, height, info.timestamp, tx, rings),
                                ),
                            },
                        },
                    },
                },
            },
        }
    }

    /// The view that a request for the transaction named `token` is owed.
    pub open spec fn transaction_by_token(self, token: Seq<char>) -> Result<
        TransactionViewModel,
        ResolveError,
    > {
        if is_hash_token(token) {
            self.transaction(hex_bytes(token))
        } else {
            Err(ResolveError::InvalidTxHash)
        }
    }

    /// The summary of the transaction that a block lists as `hash`.
    pub open spec fn summary(self, hash: Bytes32) -> Result<SummaryModel, ResolveError> {
        match self.tx_ids.get(hash@) {
            None => Err(ResolveError::DanglingReference),
            Some(tx_id) => match self.transactions.get(tx_id) {
                None => Err(ResolveError::DanglingReference),
                Some(tx) => Ok(summary_of(tx)),
            },
        }
    }

    /// The summary of each listed transaction, or why there is none.
    pub open spec fn summaries(self, hashes: Seq<Bytes32>) -> Seq<
        Result<SummaryModel, ResolveError>,
    > {
        Seq::new(hashes.len(), |i: int| self.summary(hashes[i]))
    }

    /// The view of the block at `height`.
    pub open spec fn block(self, height: u64) -> Result<BlockViewModel, ResolveError> {
        match self.block_infos.get(height) {
            None => Err(ResolveError::BlockNotFound),
            Some(info) => match self.block_tx_hashes.get(height) {
                None => Err(ResolveError::DanglingReference),
                Some(hashes) => match gather(self.summaries(hashes)) {
                    Err(e) => Err(e),
                    Ok(summaries) => Ok(block_view_of(info, summaries)),
                },
            },
        }
    }

    /// The view that a request for the block named `token` is owed.
    pub open spec fn block_by_token(self, token: Seq<char>) -> Result<
        BlockViewModel,
        ResolveError,
    > {
        if is_height_token(token) {
            self.block(decimal_value(height_digits(token)) as u64)
        } else {
            Err(ResolveError::InvalidHeight)
        }
    }

    /// Whether `answer` is what this ledger holds for `query`.
    pub open spec fn answers(self, query: Query, answer: Answer) -> bool {
        match (query, answer) {
            (Query::TxId { hash }, Answer::TxId(found)) => found == self.tx_ids.get(hash@),
            (Query::TxHeight { tx_id }, Answer::TxHeight(found)) => found == self.tx_heights.get(
                tx_id,
            ),
            (Query::BlockInfo { height }, Answer::BlockInfo(found)) => found
                == self.block_infos.get(height),
            (Query::Transaction { tx_id }, Answer::Transaction(found)) => match found {
                Some(tx) => self.transactions.get(tx_id) == Some(tx@),
                None => self.transactions.get(tx_id) is None,
            },
            (Query::TxHash { tx_id }, Answer::TxHash(found)) => match found {
                Some(hash) => self.transactions.contains_key(tx_id)
                    && self.transactions[tx_id].hash == hash,
                None => !self.transactions.contains_key(tx_id),
            },
            (Query::Output { key }, Answer::Output(found)) => found == self.output(key),
            (Query::BlockTxHashes { height }, Answer::BlockTxHashes(found)) => match found {
                Some(hashes) => self.block_tx_hashes.get(height) == Some(hashes@),
                None => self.block_tx_hashes.get(height) is None,
            },
            _ => false,
        }
    }
}

/// The rings of a transaction if each member of each ring resolved, else the
/// first failure, rings taken in order and members within a ring in order.
pub open spec fn gather_rings(rings: Seq<Seq<Result<MixinModel, ResolveError>>>) -> Result<
    Seq<Seq<MixinModel>>,
    ResolveError,
> {
    gather(gathered(rings))
}

/// Each ring gathered by itself.
pub open spec fn gathered(rings: Seq<Seq<Result<MixinModel, ResolveError>>>) -> Seq<
    Result<Seq<MixinModel>, ResolveError>,
> {
    Seq::new(rings.len(), |i: int| gather(rings[i]))
}

} // verus!
