//! What holds of every ledger and every query: the laws that callers may
//! rely on, each proved from the definitions that the resolvers are proved
//! against.

use crate::encoding::{hex_bytes, hex_lower, is_hash_token, lemma_hex_round_trip};
use crate::error::{ErrorKind, ResolveError};
use crate::ledger::{
    gather, gather_rings, gathered, lemma_gather_items, plan_of, ring_keys, Ledger,
};
use crate::offsets::{indices_fit, lemma_prefix_sum_grows, prefix_sum};
use crate::transaction::{aligned, rows, PendingTransaction};
use crate::types::{format_of_version, AddressSpace, TxInputModel};
use crate::views::{BlockViewModel, MixinModel, TransactionViewModel};
use vstd::prelude::*;

verus! {

/// An offset of zero names the output that the ring member before it names.
pub proof fn law_zero_offset_repeats(space: AddressSpace, input: TxInputModel, j: int)
    requires
        0 <= j,
        j + 1 < input.key_offsets.len(),
        input.key_offsets[j + 1] == 0,
    ensures
        ring_keys(space, input)[j + 1] == ring_keys(space, input)[j],
{
    assert(prefix_sum(input.key_offsets, j + 2) == prefix_sum(input.key_offsets, j + 1)
        + input.key_offsets[j + 1]);
}

/// An output in the slot of its block's coinbase transaction was created by
/// that transaction: its provenance is the hash of the bytes stored for it.
pub proof fn law_coinbase_provenance(ledger: Ledger, height: u32, tx_idx: u32)
    requires
        ledger.block_infos.contains_key(height as u64),
        ledger.block_infos[height as u64].mining_tx_index == tx_idx,
        ledger.transactions.contains_key(tx_idx as u64),
    ensures
        ledger.provenance(height, tx_idx) == Ok::<[u8; 32], ResolveError>(
            ledger.transactions[tx_idx as u64].hash,
        ),
{
}

/// An output in any other slot of a block was created by the transaction
/// that the block lists at `tx_idx - mining_tx_index - 1`.
pub proof fn law_listed_provenance(ledger: Ledger, height: u32, tx_idx: u32)
    requires
        ledger.block_infos.contains_key(height as u64),
        ledger.block_tx_hashes.contains_key(height as u64),
        ledger.block_infos[height as u64].mining_tx_index < tx_idx,
        tx_idx <= ledger.block_infos[height as u64].mining_tx_index
            + ledger.block_tx_hashes[height as u64].len(),
    ensures
        ledger.provenance(height, tx_idx) == Ok::<[u8; 32], ResolveError>(
            ledger.block_tx_hashes[height as u64][tx_idx
                - ledger.block_infos[height as u64].mining_tx_index - 1],
        ),
{
}

/// A slot past the end of the block's list, or before the coinbase
/// transaction, is an inconsistency of the store, not an absence.
pub proof fn law_slot_out_of_range(ledger: Ledger, height: u32, tx_idx: u32)
    requires
        ledger.block_infos.contains_key(height as u64),
        ledger.block_tx_hashes.contains_key(height as u64),
        tx_idx < ledger.block_infos[height as u64].mining_tx_index || tx_idx
            > ledger.block_infos[height as u64].mining_tx_index
            + ledger.block_tx_hashes[height as u64].len(),
    ensures
        ledger.provenance(height, tx_idx) == Err::<[u8; 32], ResolveError>(
            ResolveError::IndexOutOfRange,
        ),
        ResolveError::IndexOutOfRange.kind() == ErrorKind::StoreInconsistency,
{
}

/// The rings of an assembled transaction keep the order of the plan: the
/// member at place `j` of input `i` is the result that was handed in for the
/// key at that place, and was resolved from the index that the key names.
pub proof fn law_assembly_keeps_order(
    pending: PendingTransaction,
    results: Seq<Seq<Result<MixinModel, ResolveError>>>,
    view: TransactionViewModel,
    i: int,
    j: int,
)
    requires
        pending.outcome(results) == Ok::<TransactionViewModel, ResolveError>(view),
        0 <= i < view.inputs.len(),
        0 <= j < pending.plan@[i].len(),
    ensures
        view.inputs.len() == pending.plan@.len(),
        view.inputs[i].mixins.len() == pending.plan@[i].len(),
        results[i][j] == Ok::<MixinModel, ResolveError>(view.inputs[i].mixins[j]),
        view.inputs[i].mixins[j].output_index == pending.plan@[i][j].absolute_index(),
{
    let plan = rows(pending.plan@);
    let all = aligned(plan, results);
    let rings = gather_rings(all)->Ok_0;
    lemma_gather_items(gathered(all), rings);
    assert(gathered(all)[i] == Ok::<Seq<MixinModel>, ResolveError>(rings[i]));
    lemma_gather_items(all[i], rings[i]);
    assert(all[i][j] == Ok::<MixinModel, ResolveError>(rings[i][j]));
    assert(plan[i].len() == results[i].len());
}

/// The rings of a resolved transaction keep the order of its offsets: the
/// member at place `j` of input `i` is the output whose absolute index is
/// the sum of the input's offsets up to place `j`.
pub proof fn law_rings_keep_offset_order(
    ledger: Ledger,
    hash: Seq<u8>,
    view: TransactionViewModel,
    i: int,
    j: int,
)
    requires
        ledger.transaction(hash) == Ok::<TransactionViewModel, ResolveError>(view),
        0 <= i < view.inputs.len(),
        0 <= j < ledger.transactions[ledger.tx_ids[hash]].inputs[i].key_offsets.len(),
    ensures
        ({
            let tx = ledger.transactions[ledger.tx_ids[hash]];
            let input = tx.inputs[i];
            let space = format_of_version(tx.version)->Some_0.address_space();
            let index = prefix_sum(input.key_offsets, j + 1);
            &&& view.inputs.len() == tx.inputs.len()
            &&& view.inputs[i].mixins.len() == input.key_offsets.len()
            &&& 0 <= index <= u64::MAX
            &&& view.inputs[i].mixins[j].output_index == index
            &&& ledger.mixin(space.key(input.amount, index as u64)) == Ok::<
                MixinModel,
                ResolveError,
            >(view.inputs[i].mixins[j])
        }),
{
    let tx = ledger.transactions[ledger.tx_ids[hash]];
    let plan = plan_of(tx)->Ok_0;
    let all = ledger.rings(plan);
    let rings = gather_rings(all)->Ok_0;
    lemma_gather_items(gathered(all), rings);
    assert(gathered(all)[i] == Ok::<Seq<MixinModel>, ResolveError>(rings[i]));
    lemma_gather_items(all[i], rings[i]);
    assert(all[i][j] == Ok::<MixinModel, ResolveError>(rings[i][j]));
    assert(indices_fit(tx.inputs[i].key_offsets));
    lemma_prefix_sum_grows(tx.inputs[i].key_offsets, j + 1, tx.inputs[i].key_offsets.len() as int);
}

/// A transaction is a coinbase transaction exactly if it has no input.
pub proof fn law_coinbase_has_no_input(ledger: Ledger, hash: Seq<u8>, view: TransactionViewModel)
    requires
        ledger.transaction(hash) == Ok::<TransactionViewModel, ResolveError>(view),
    ensures
        view.is_coinbase <==> view.inputs.len() == 0,
{
}

/// A block's list marks a transaction as coinbase exactly if the stored
/// transaction has no input.
pub proof fn law_listed_coinbase_has_no_input(
    ledger: Ledger,
    height: u64,
    block: BlockViewModel,
    k: int,
)
    requires
        ledger.block(height) == Ok::<BlockViewModel, ResolveError>(block),
        0 <= k < block.transactions.len(),
    ensures
        block.transactions.len() == ledger.block_tx_hashes[height].len(),
        ({
            let listed = ledger.block_tx_hashes[height][k];
            let tx = ledger.transactions[ledger.tx_ids[listed@]];
            block.transactions[k].is_coinbase <==> tx.inputs.len() == 0
        }),
{
    let hashes = ledger.block_tx_hashes[height];
    lemma_gather_items(ledger.summaries(hashes), block.transactions);
    assert(ledger.summaries(hashes)[k] == ledger.summary(hashes[k]));
}

/// Asking for a transaction by the hash that a block's view shows for it
/// gives a view with that very hash.
pub proof fn law_listed_hash_round_trip(
    ledger: Ledger,
    height: u64,
    block: BlockViewModel,
    k: int,
    view: TransactionViewModel,
)
    requires
        ledger.block(height) == Ok::<BlockViewModel, ResolveError>(block),
        0 <= k < block.transactions.len(),
        ledger.transaction_by_token(block.transactions[k].hash) == Ok::<
            TransactionViewModel,
            ResolveError,
        >(view),
    ensures
        is_hash_token(block.transactions[k].hash),
        view.hash == block.transactions[k].hash,
{
    let hashes = ledger.block_tx_hashes[height];
    lemma_gather_items(ledger.summaries(hashes), block.transactions);
    assert(ledger.summaries(hashes)[k] == ledger.summary(hashes[k]));
    let tx = ledger.transactions[ledger.tx_ids[hashes[k]@]];
    assert(block.transactions[k].hash == hex_lower(tx.hash@));
    lemma_hex_round_trip(tx.hash@);
}

/// The text of a hash, read back and written again, is the same text.
pub proof fn law_hash_text_round_trip(hash: Seq<u8>)
    requires
        hash.len() == 32,
    ensures
        is_hash_token(hex_lower(hash)),
        hex_lower(hex_bytes(hex_lower(hash))) == hex_lower(hash),
{
    lemma_hex_round_trip(hash);
}

/// A height at which the store holds no block has no view: the request
/// fails as not found, whatever else the store holds.
pub proof fn law_missing_block_is_not_found(ledger: Ledger, height: u64)
    ensures
        !ledger.block_infos.contains_key(height) <==> ledger.block(height) == Err::<
            BlockViewModel,
            ResolveError,
        >(ResolveError::BlockNotFound),
        ResolveError::BlockNotFound.kind() == ErrorKind::NotFound,
{
    if ledger.block_infos.contains_key(height) && ledger.block_tx_hashes.contains_key(height) {
        let all = ledger.summaries(ledger.block_tx_hashes[height]);
        if gather(all) is Err {
            lemma_gather_failure_is_an_entry(all);
        }
    }
}

/// A token that is no hash is refused whatever the store holds; a hash that
/// the store does not hold is not found.
pub proof fn law_hash_lookup(ledger: Ledger, token: Seq<char>)
    ensures
        !is_hash_token(token) <==> ledger.transaction_by_token(token) == Err::<
            TransactionViewModel,
            ResolveError,
        >(ResolveError::InvalidTxHash),
        is_hash_token(token) && !ledger.tx_ids.contains_key(hex_bytes(token)) <==> ledger.transaction_by_token(
            token,
        ) == Err::<TransactionViewModel, ResolveError>(ResolveError::TransactionNotFound),
        ResolveError::InvalidTxHash.kind() == ErrorKind::MalformedInput,
        ResolveError::TransactionNotFound.kind() == ErrorKind::NotFound,
{
    if is_hash_token(token) {
        let hash = hex_bytes(token);
        if ledger.tx_ids.contains_key(hash) {
            let tx_id = ledger.tx_ids[hash];
            if ledger.tx_heights.contains_key(tx_id) {
                let height = ledger.tx_heights[tx_id];
                if ledger.block_infos.contains_key(height) && ledger.transactions.contains_key(
                    tx_id,
                ) {
                    lemma_transaction_failures(ledger, hash);
                }
            }
        }
    }
}

/// Once a transaction is found with its block, what can still fail is its
/// format, the arithmetic of its offsets, or one of its ring members.
pub proof fn lemma_transaction_failures(ledger: Ledger, hash: Seq<u8>)
    requires
        ledger.tx_ids.contains_key(hash),
        ledger.tx_heights.contains_key(ledger.tx_ids[hash]),
        ledger.block_infos.contains_key(ledger.tx_heights[ledger.tx_ids[hash]]),
        ledger.transactions.contains_key(ledger.tx_ids[hash]),
    ensures
        ledger.transaction(hash) matches Err(e) ==> e != ResolveError::InvalidTxHash && e
            != ResolveError::TransactionNotFound,
{
    let tx = ledger.transactions[ledger.tx_ids[hash]];
    if plan_of(tx) is Ok {
        let plan = plan_of(tx)->Ok_0;
        let all = ledger.rings(plan);
        if gather_rings(all) is Err {
            lemma_gather_failure_is_an_entry(gathered(all));
            let i = choose|i: int| 0 <= i < gathered(all).len() && gathered(all)[i] == Err::<
                Seq<MixinModel>,
                ResolveError,
            >(gather_rings(all)->Err_0);
            lemma_gather_failure_is_an_entry(all[i]);
        }
    }
}

/// The failure of a row is the failure of one of its entries.
pub proof fn lemma_gather_failure_is_an_entry<T>(row: Seq<Result<T, ResolveError>>)
    requires
        gather(row) is Err,
    ensures
        exists|i: int| 0 <= i < row.len() && #[trigger] row[i] == Err::<T, ResolveError>(
            gather(row)->Err_0,
        ),
    decreases row.len(),
{
    if row.len() > 0 {
        if gather(row.drop_last()) is Err {
            lemma_gather_failure_is_an_entry(row.drop_last());
            let i = choose|i: int| 0 <= i < row.drop_last().len() && #[trigger] row.drop_last()[i]
                == Err::<T, ResolveError>(gather(row.drop_last())->Err_0);
            assert(row[i] == row.drop_last()[i]);
        } else {
            assert(row[row.len() - 1] == Err::<T, ResolveError>(gather(row)->Err_0));
        }
    }
}

} // verus!
