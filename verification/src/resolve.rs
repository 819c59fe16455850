//! The resolvers run to their end against a store that is handed in as a
//! function from lookups to answers.

use crate::block::{BlockResolver, BlockStep};
use crate::encoding::{hex_bytes, is_hash_token};
use crate::error::ResolveError;
use crate::height::{decimal_value, height_digits, is_height_token};
use crate::ledger::{gather, gathered, lemma_gather_all_ok, lemma_gather_first_failure, Ledger};
use crate::lookup::{Answer, Query};
use crate::mixin::{MixinResolver, MixinStep};
use crate::transaction::{result_row, ring_results, rows, PendingTransaction, TxResolver, TxStep};
use crate::types::{result_model, OutputKey};
use crate::views::{BlockView, Mixin, MixinModel, TransactionView, TransactionViewModel};
use vstd::prelude::*;

verus! {

/// Whether every answer that `store` gives is what `ledger` holds.
pub open spec fn answers_by<E, F: Fn(Query) -> Result<Answer, E>>(store: F, ledger: Ledger) -> bool {
    forall|query: Query, answer: Answer| #[trigger]
        call_ensures(store, (query,), Ok::<Answer, E>(answer)) ==> ledger.answers(query, answer)
}

/// Whether `store` met the failure `e` on some lookup.
pub open spec fn failed_with<E, F: Fn(Query) -> Result<Answer, E>>(store: F, e: E) -> bool {
    exists|query: Query| #[trigger] call_ensures(store, (query,), Err::<Answer, E>(e))
}

/// Resolves the ring member with key `key`, asking `store` for each lookup.
///
/// The outer failure is the store's own, handed through from the lookup that
/// met it. Otherwise, for every ledger that the store answers by, the result
/// is what the ledger defines for the key.
pub fn resolve_mixin<E, F: Fn(Query) -> Result<Answer, E>>(key: OutputKey, store: &F) -> (r: Result<
    Result<Mixin, ResolveError>,
    E,
>)
    requires
        forall|query: Query| call_requires(*store, (query,)),
    ensures
        r matches Ok(outcome) ==> forall|ledger: Ledger| #[trigger]
            answers_by(*store, ledger) ==> result_model(outcome) == ledger.mixin(key),
        r matches Err(e) ==> failed_with(*store, e),
{
    let mut resolver = MixinResolver::start(key);
    loop
        invariant
            forall|query: Query| call_requires(*store, (query,)),
            resolver.key() == key,
            forall|ledger: Ledger| #[trigger] answers_by(*store, ledger) ==> resolver.tracks(ledger),
        decreases resolver.rank(),
    {
        let query = resolver.query();
        let answer = match store(query) {
            Ok(answer) => answer,
            Err(e) => {
                assert(call_ensures(*store, (query,), Err::<Answer, E>(e)));
                return Err(e);
            },
        };
        match resolver.step(answer) {
            MixinStep::Ask(next) => {
                resolver = next;
            },
            MixinStep::Done(mixin) => {
                return Ok(Ok(mixin));
            },
            MixinStep::Fail(e) => {
                return Ok(Err(e));
            },
        }
    }
}

/// Resolves the block named by `token`, asking `store` for each lookup.
///
/// The outer failure is the store's own. Otherwise, for every ledger that
/// the store answers by, the result is what the ledger defines for the token.
pub fn resolve_block<E, F: Fn(Query) -> Result<Answer, E>>(token: &str, store: &F) -> (r: Result<
    Result<BlockView, ResolveError>,
    E,
>)
    requires
        forall|query: Query| call_requires(*store, (query,)),
    ensures
        r matches Ok(outcome) ==> forall|ledger: Ledger| #[trigger]
            answers_by(*store, ledger) ==> result_model(outcome) == ledger.block_by_token(token@),
        !is_height_token(token@) ==> r == Ok::<Result<BlockView, ResolveError>, E>(
            Err(ResolveError::InvalidHeight),
        ),
        r matches Err(e) ==> failed_with(*store, e),
{
    let mut resolver = match BlockResolver::start(token) {
        BlockStep::Ask(resolver) => resolver,
        BlockStep::Done(view) => {
            return Ok(Ok(view));
        },
        BlockStep::Fail(e) => {
            return Ok(Err(e));
        },
    };
    let ghost height = resolver.height();
    loop
        invariant
            forall|query: Query| call_requires(*store, (query,)),
            is_height_token(token@),
            height == decimal_value(height_digits(token@)),
            resolver.height() == height,
            forall|ledger: Ledger| #[trigger] answers_by(*store, ledger) ==> resolver.tracks(ledger),
        decreases resolver.phase(), resolver.pending(),
    {
        let query = resolver.query();
        let answer = match store(query) {
            Ok(answer) => answer,
            Err(e) => {
                assert(call_ensures(*store, (query,), Err::<Answer, E>(e)));
                return Err(e);
            },
        };
        match resolver.step(answer) {
            BlockStep::Ask(next) => {
                resolver = next;
            },
            BlockStep::Done(view) => {
                return Ok(Ok(view));
            },
            BlockStep::Fail(e) => {
                return Ok(Err(e));
            },
        }
    }
}

/// Resolves the members of one ring in the order of their keys, and stops at
/// the first that fails.
///
/// For every ledger that the store answers by: a ring that comes back whole
/// is the ring that the ledger defines for the keys, and a failure is the
/// first failure among the members that the ledger defines.
pub fn resolve_ring<E, F: Fn(Query) -> Result<Answer, E>>(keys: &Vec<OutputKey>, store: &F) -> (r:
    Result<Result<Vec<Result<Mixin, ResolveError>>, ResolveError>, E>)
    requires
        forall|query: Query| call_requires(*store, (query,)),
    ensures
        r matches Ok(Ok(ring)) ==> {
            &&& ring.len() == keys.len()
            &&& forall|j: int| 0 <= j < ring.len() ==> (#[trigger] ring[j]) is Ok
            &&& forall|ledger: Ledger| #[trigger]
                answers_by(*store, ledger) ==> result_row(ring@) == ledger.ring(keys@)
        },
        r matches Ok(Err(e)) ==> forall|ledger: Ledger| #[trigger]
            answers_by(*store, ledger) ==> gather(ledger.ring(keys@)) == Err::<
                Seq<MixinModel>,
                ResolveError,
            >(e),
        r matches Err(e) ==> failed_with(*store, e),
{
    let mut ring: Vec<Result<Mixin, ResolveError>> = Vec::new();
    let mut j: usize = 0;
    while j < keys.len()
        invariant
            forall|query: Query| call_requires(*store, (query,)),
            j <= keys.len(),
            ring.len() == j,
            forall|k: int| 0 <= k < j ==> (#[trigger] ring[k]) is Ok,
            forall|ledger: Ledger| #[trigger]
                answers_by(*store, ledger) ==> forall|k: int|
                    0 <= k < j ==> result_model(#[trigger] ring[k]) == ledger.mixin(keys[k]),
        decreases keys.len() - j,
    {
        match resolve_mixin(keys[j], store) {
            Ok(Ok(mixin)) => {
                ring.push(Ok(mixin));
            },
            Ok(Err(e)) => {
                proof {
                    assert forall|ledger: Ledger| #[trigger]
                        answers_by(*store, ledger) implies gather(ledger.ring(keys@)) == Err::<
                        Seq<MixinModel>,
                        ResolveError,
                    >(e) by {
                        let row = ledger.ring(keys@);
                        assert forall|m: int| 0 <= m < j implies (#[trigger] row[m]) is Ok by {
                            assert(result_model(ring[m]) == ledger.mixin(keys[m]));
                        }
                        lemma_gather_first_failure(row, j as int);
                    }
                }
                return Ok(Err(e));
            },
            Err(e) => {
                return Err(e);
            },
        }
        j += 1;
    }
    proof {
        assert forall|ledger: Ledger| #[trigger] answers_by(*store, ledger) implies result_row(
            ring@,
        ) == ledger.ring(keys@) by {
            assert forall|k: int| 0 <= k < ring.len() implies result_row(ring@)[k] == ledger.ring(
                keys@,
            )[k] by {
                assert(result_model(ring[k]) == ledger.mixin(keys[k]));
            }
            assert(result_row(ring@) =~= ledger.ring(keys@));
        }
    }
    Ok(Ok(ring))
}

/// Finds the transaction named by `token`, asking `store` for each lookup.
///
/// A token that names no hash fails before anything is asked of the store.
/// For every ledger that the store answers by: the transaction that comes
/// back is the one that the ledger holds, and a failure is the failure that
/// the ledger defines for the token.
pub fn find_transaction<E, F: Fn(Query) -> Result<Answer, E>>(token: &str, store: &F) -> (r: Result<
    Result<PendingTransaction, ResolveError>,
    E,
>)
    requires
        forall|query: Query| call_requires(*store, (query,)),
    ensures
        !is_hash_token(token@) ==> r == Ok::<Result<PendingTransaction, ResolveError>, E>(
            Err(ResolveError::InvalidTxHash),
        ),
        r matches Ok(Ok(pending)) ==> {
            &&& is_hash_token(token@)
            &&& pending.hash@ == hex_bytes(token@)
            &&& forall|ledger: Ledger| #[trigger]
                answers_by(*store, ledger) ==> pending.tracks(ledger)
        },
        r matches Ok(Err(e)) ==> forall|ledger: Ledger| #[trigger]
            answers_by(*store, ledger) ==> ledger.transaction_by_token(token@) == Err::<
                TransactionViewModel,
                ResolveError,
            >(e),
        r matches Err(e) ==> failed_with(*store, e),
{
    let mut resolver = match TxResolver::start(token) {
        TxStep::Ask(resolver) => resolver,
        TxStep::Ready(pending) => {
            return Ok(Ok(pending));
        },
        TxStep::Fail(e) => {
            return Ok(Err(e));
        },
    };
    loop
        invariant
            forall|query: Query| call_requires(*store, (query,)),
            is_hash_token(token@),
            resolver.hash()@ == hex_bytes(token@),
            forall|ledger: Ledger| #[trigger] answers_by(*store, ledger) ==> resolver.tracks(ledger),
        decreases resolver.rank(),
    {
        let query = resolver.query();
        let answer = match store(query) {
            Ok(answer) => answer,
            Err(e) => {
                assert(call_ensures(*store, (query,), Err::<Answer, E>(e)));
                return Err(e);
            },
        };
        match resolver.step(answer) {
            TxStep::Ask(next) => {
                resolver = next;
            },
            TxStep::Ready(pending) => {
                return Ok(Ok(pending));
            },
            TxStep::Fail(e) => {
                return Ok(Err(e));
            },
        }
    }
}

/// Resolves the transaction named by `token`, asking `store` for each
/// lookup: the transaction first, then its ring members one after another.
///
/// The outer failure is the store's own. Otherwise, for every ledger that
/// the store answers by, the result is what the ledger defines for the token.
pub fn resolve_transaction<E, F: Fn(Query) -> Result<Answer, E>>(token: &str, store: &F) -> (r:
    Result<Result<TransactionView, ResolveError>, E>)
    requires
        forall|query: Query| call_requires(*store, (query,)),
    ensures
        !is_hash_token(token@) ==> r == Ok::<Result<TransactionView, ResolveError>, E>(
            Err(ResolveError::InvalidTxHash),
        ),
        r matches Ok(outcome) ==> forall|ledger: Ledger| #[trigger]
            answers_by(*store, ledger) ==> result_model(outcome) == ledger.transaction_by_token(
                token@,
            ),
        r matches Err(e) ==> failed_with(*store, e),
{
    let pending = match find_transaction(token, store) {
        Ok(Ok(pending)) => pending,
        Ok(Err(e)) => {
            return Ok(Err(e));
        },
        Err(e) => {
            return Err(e);
        },
    };
    let ghost plan = rows(pending.plan@);
    let mut results: Vec<Vec<Result<Mixin, ResolveError>>> = Vec::new();
    let mut i: usize = 0;
    while i < pending.plan.len()
        invariant
            forall|query: Query| call_requires(*store, (query,)),
            is_hash_token(token@),
            pending.hash@ == hex_bytes(token@),
            plan == rows(pending.plan@),
            forall|ledger: Ledger| #[trigger] answers_by(*store, ledger) ==> pending.tracks(ledger),
            i <= pending.plan.len(),
            results.len() == i,
            forall|a: int, b: int|
                0 <= a < i && 0 <= b < results[a].len() ==> (#[trigger] results[a][b]) is Ok,
            forall|ledger: Ledger| #[trigger]
                answers_by(*store, ledger) ==> forall|a: int|
                    0 <= a < i ==> result_row((#[trigger] results[a])@) == ledger.ring(plan[a]),
        decreases pending.plan.len() - i,
    {
        match resolve_ring(&pending.plan[i], store) {
            Ok(Ok(ring)) => {
                results.push(ring);
            },
            Ok(Err(e)) => {
                proof {
                    assert forall|ledger: Ledger| #[trigger]
                        answers_by(*store, ledger) implies ledger.transaction_by_token(token@)
                        == Err::<TransactionViewModel, ResolveError>(e) by {
                        let all = gathered(ledger.rings(plan));
                        assert forall|a: int| 0 <= a < i implies (#[trigger] all[a]) is Ok by {
                            assert(result_row(results[a]@) == ledger.ring(plan[a]));
                            assert forall|b: int| 0 <= b < ledger.ring(plan[a]).len() implies (
                            #[trigger] ledger.ring(plan[a])[b]) is Ok by {
                                assert(results[a][b] is Ok);
                                assert(result_row(results[a]@)[b] == result_model(results[a][b]));
                            }
                            lemma_gather_all_ok(ledger.ring(plan[a]));
                        }
                        assert(all[i as int] == gather(ledger.ring(plan[i as int])));
                        lemma_gather_first_failure(all, i as int);
                    }
                }
                return Ok(Err(e));
            },
            Err(e) => {
                return Err(e);
            },
        }
        i += 1;
    }
    proof {
        assert forall|ledger: Ledger| #[trigger] answers_by(*store, ledger) implies ring_results(
            results@,
        ) == ledger.rings(plan) by {
            assert forall|a: int| 0 <= a < results.len() implies ring_results(results@)[a]
                == ledger.rings(plan)[a] by {
                assert(result_row(results[a]@) == ledger.ring(plan[a]));
            }
            assert(ring_results(results@) =~= ledger.rings(plan));
        }
    }
    Ok(pending.assemble(results))
}

} // verus!
