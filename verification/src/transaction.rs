//! A transaction, from the text of its hash to its view.
//!
//! [`TxResolver`] finds the stored transaction and where it was confirmed.
//! [`PendingTransaction`] then names the ring members to resolve, each by a
//! [`MixinResolver`](crate::mixin::MixinResolver) of its own, and puts what
//! they found into the view.

use crate::encoding::{hex_bytes, hex_encode, is_hash_token, parse_tx_hash};
use crate::error::ResolveError;
use crate::ledger::{
    gather, gather_rings, gathered, lemma_gather_failure_stays, lemma_gather_push, plan_of,
    ring_keys, Ledger,
};
use crate::lookup::{Answer, Query};
use crate::offsets::{decode_offsets, indices_fit, prefix_sum};
use crate::types::{
    models, result_model, AddressSpace, Bytes32, OutputKey, StoredTransaction, TxFormat, TxInput, TxOutput,
};
use crate::views::{
    output_of, transaction_view_of, InputModel, InputView, Mixin, MixinModel, OutputView,
    TransactionView, TransactionViewModel,
};
use vstd::prelude::*;

verus! {

/// The rows of a vector of vectors, as sequences.
pub open spec fn rows<T>(v: Seq<Vec<T>>) -> Seq<Seq<T>> {
    Seq::new(v.len(), |i: int| v[i]@)
}

/// The keys of the ring members of one input, in the order of its offsets.
pub fn input_keys(space: AddressSpace, input: &TxInput) -> (r: Result<Vec<OutputKey>, ResolveError>)
    ensures
        r is Ok <==> indices_fit(input.key_offsets@),
        r matches Ok(keys) ==> keys@ == ring_keys(space, input@),
        r matches Err(e) ==> e == ResolveError::ArithmeticOverflow,
{
    let indices = match decode_offsets(input.key_offsets.as_slice()) {
        Ok(indices) => indices,
        Err(e) => {
            return Err(e);
        },
    };
    let mut keys: Vec<OutputKey> = Vec::new();
    let mut j: usize = 0;
    while j < indices.len()
        invariant
            j <= indices.len(),
            indices.len() == input.key_offsets.len(),
            forall|k: int|
                0 <= k < indices@.len() ==> #[trigger] indices@[k] == prefix_sum(
                    input.key_offsets@,
                    k + 1,
                ),
            keys.len() == j,
            forall|k: int| 0 <= k < j ==> keys[k] == ring_keys(space, input@)[k],
        decreases indices.len() - j,
    {
        keys.push(space.key(input.amount, indices[j]));
        j += 1;
    }
    assert(keys@ =~= ring_keys(space, input@));
    Ok(keys)
}

/// The lookups that the rings of `tx` take: for each input, in order, the
/// keys of its ring members.
pub fn plan_rings(tx: &StoredTransaction) -> (r: Result<Vec<Vec<OutputKey>>, ResolveError>)
    ensures
        match r {
            Ok(plan) => plan_of(tx@) == Ok::<Seq<Seq<OutputKey>>, ResolveError>(rows(plan@)),
            Err(e) => plan_of(tx@) == Err::<Seq<Seq<OutputKey>>, ResolveError>(e),
        },
{
    let format = match TxFormat::from_version(tx.version) {
        Ok(format) => format,
        Err(e) => {
            return Err(e);
        },
    };
    let space = format.address_space();
    let mut plan: Vec<Vec<OutputKey>> = Vec::new();
    let mut i: usize = 0;
    while i < tx.inputs.len()
        invariant
            i <= tx.inputs.len(),
            plan.len() == i,
            space == format.address_space(),
            crate::types::format_of_version(tx.version) == Some(format),
            forall|k: int|
                0 <= k < i ==> indices_fit(#[trigger] tx@.inputs[k].key_offsets),
            forall|k: int| 0 <= k < i ==> (#[trigger] plan[k])@ == ring_keys(space, tx@.inputs[k]),
        decreases tx.inputs.len() - i,
    {
        match input_keys(space, &tx.inputs[i]) {
            Ok(keys) => {
                plan.push(keys);
            },
            Err(e) => {
                assert(!indices_fit(tx@.inputs[i as int].key_offsets));
                return Err(e);
            },
        }
        i += 1;
    }
    assert(rows(plan@) =~= Seq::new(
        tx@.inputs.len(),
        |i: int| ring_keys(format.address_space(), tx@.inputs[i]),
    ));
    Ok(plan)
}

/// Finds a transaction and the block that confirmed it, a lookup at a time:
/// its identifier by hash, then its height, the block at that height, and
/// the transaction itself.
#[derive(Clone, Copy, Debug, PartialEq, Eq)]
pub enum TxResolver {
    /// Waiting for the identifier stored under `hash`.
    AwaitTxId { hash: Bytes32 },
    /// Waiting for the height of the transaction's block.
    AwaitHeight { hash: Bytes32, tx_id: u64 },
    /// Waiting for the block at `height`.
    AwaitBlock { hash: Bytes32, tx_id: u64, height: u64 },
    /// Waiting for the transaction.
    AwaitTransaction { hash: Bytes32, tx_id: u64, height: u64, timestamp: u64 },
}

/// A transaction that was found, with its rings still to resolve.
#[derive(Clone, Debug, PartialEq, Eq)]
pub struct PendingTransaction {
    /// The hash that was asked for.
    pub hash: Bytes32,
    /// Height of the block that holds the transaction.
    pub confirmation_height: u64,
    /// Timestamp of that block.
    pub timestamp: u64,
    /// The transaction as stored.
    pub transaction: StoredTransaction,
    /// For each input, in order, the keys of its ring members, in order.
    pub plan: Vec<Vec<OutputKey>>,
}

/// How a [`TxResolver`] goes on after an answer.
#[derive(Clone, Debug, PartialEq, Eq)]
pub enum TxStep {
    /// Another lookup is needed: that of the resolver's `query`.
    Ask(TxResolver),
    /// The transaction is found.
    Ready(PendingTransaction),
    /// There is no view to give.
    Fail(ResolveError),
}

impl TxResolver {
    /// The hash that was asked for.
    pub open spec fn hash(self) -> Bytes32 {
        match self {
            TxResolver::AwaitTxId { hash } => hash,
            TxResolver::AwaitHeight { hash, .. } => hash,
            TxResolver::AwaitBlock { hash, .. } => hash,
            TxResolver::AwaitTransaction { hash, .. } => hash,
        }
    }

    /// The lookup that the resolver waits for.
    pub open spec fn spec_query(self) -> Query {
        match self {
            TxResolver::AwaitTxId { hash } => Query::TxId { hash },
            TxResolver::AwaitHeight { tx_id, .. } => Query::TxHeight { tx_id },
            TxResolver::AwaitBlock { height, .. } => Query::BlockInfo { height },
            TxResolver::AwaitTransaction { tx_id, .. } => Query::Transaction { tx_id },
        }
    }

    /// Whether what the resolver has learnt so far is what `ledger` holds.
    pub open spec fn tracks(self, ledger: Ledger) -> bool {
        match self {
            TxResolver::AwaitTxId { .. } => true,
            TxResolver::AwaitHeight { hash, tx_id } => ledger.tx_ids.get(hash@) == Some(tx_id),
            TxResolver::AwaitBlock { hash, tx_id, height } => {
                &&& ledger.tx_ids.get(hash@) == Some(tx_id)
                &&& ledger.tx_heights.get(tx_id) == Some(height)
            },
            TxResolver::AwaitTransaction { hash, tx_id, height, timestamp } => {
                &&& ledger.tx_ids.get(hash@) == Some(tx_id)
                &&& ledger.tx_heights.get(tx_id) == Some(height)
                &&& ledger.block_infos.get(height) matches Some(info)
                &&& info.timestamp == timestamp
            },
        }
    }

    /// The lookups still to come.
    pub open spec fn rank(self) -> nat {
        match self {
            TxResolver::AwaitTxId { .. } => 4,
            TxResolver::AwaitHeight { .. } => 3,
            TxResolver::AwaitBlock { .. } => 2,
            TxResolver::AwaitTransaction { .. } => 1,
        }
    }

    /// Starts on the transaction named by `token`.
    ///
    /// A token that is not 64 hexadecimal characters fails here, before any
    /// lookup is asked for.
    pub fn start(token: &str) -> (r: TxStep)
        ensures
            match r {
                TxStep::Ask(resolver) => {
                    &&& is_hash_token(token@)
                    &&& resolver matches TxResolver::AwaitTxId { hash }
                    &&& hash@ == hex_bytes(token@)
                },
                TxStep::Ready(_) => false,
                TxStep::Fail(e) => !is_hash_token(token@) && e == ResolveError::InvalidTxHash,
            },
    {
        match parse_tx_hash(token) {
            Ok(hash) => TxStep::Ask(TxResolver::AwaitTxId { hash }),
            Err(e) => TxStep::Fail(e),
        }
    }

    /// The lookup to make next.
    #[verifier::when_used_as_spec(spec_query)]
    pub fn query(self) -> (q: Query)
        ensures
            q == self.spec_query(),
    {
        match self {
            TxResolver::AwaitTxId { hash } => Query::TxId { hash },
            TxResolver::AwaitHeight { tx_id, .. } => Query::TxHeight { tx_id },
            TxResolver::AwaitBlock { height, .. } => Query::BlockInfo { height },
            TxResolver::AwaitTransaction { tx_id, .. } => Query::Transaction { tx_id },
        }
    }

    /// Takes the answer to `self.query()` and decides how to go on.
    ///
    /// For every ledger that agrees with the answers so far: a failure is the
    /// failure that the ledger defines for the hash, and a transaction that is
    /// handed on is the one that the ledger holds.
    pub fn step(self, answer: Answer) -> (r: TxStep)
        ensures
            !answer.fits(self.query()) ==> r == TxStep::Fail(ResolveError::UnexpectedAnswer),
            r matches TxStep::Ask(next) ==> next.rank() < self.rank() && next.hash() == self.hash(),
            r matches TxStep::Ready(pending) ==> pending.hash == self.hash(),
            forall|ledger: Ledger| #[trigger]
                self.tracks(ledger) && ledger.answers(self.query(), answer) ==> match r {
                    TxStep::Ask(next) => next.tracks(ledger),
                    TxStep::Ready(pending) => pending.tracks(ledger),
                    TxStep::Fail(e) => ledger.transaction(self.hash()@) == Err::<
                        TransactionViewModel,
                        ResolveError,
                    >(e),
                },
    {
        match self {
            TxResolver::AwaitTxId { hash } => match answer {
                Answer::TxId(Some(tx_id)) => TxStep::Ask(TxResolver::AwaitHeight { hash, tx_id }),
                Answer::TxId(None) => TxStep::Fail(ResolveError::TransactionNotFound),
                _ => TxStep::Fail(ResolveError::UnexpectedAnswer),
            },
            TxResolver::AwaitHeight { hash, tx_id } => match answer {
                Answer::TxHeight(Some(height)) => TxStep::Ask(
                    TxResolver::AwaitBlock { hash, tx_id, height },
                ),
                Answer::TxHeight(None) => TxStep::Fail(ResolveError::DanglingReference),
                _ => TxStep::Fail(ResolveError::UnexpectedAnswer),
            },
            TxResolver::AwaitBlock { hash, tx_id, height } => match answer {
                Answer::BlockInfo(Some(info)) => TxStep::Ask(
                    TxResolver::AwaitTransaction { hash, tx_id, height, timestamp: info.timestamp },
                ),
                Answer::BlockInfo(None) => TxStep::Fail(ResolveError::DanglingReference),
                _ => TxStep::Fail(ResolveError::UnexpectedAnswer),
            },
            TxResolver::AwaitTransaction { hash, height, timestamp, .. } => match answer {
                Answer::Transaction(Some(transaction)) => match plan_rings(&transaction) {
                    Ok(plan) => TxStep::Ready(
                        PendingTransaction {
                            hash,
                            confirmation_height: height,
                            timestamp,
                            transaction,
                            plan,
                        },
                    ),
                    Err(e) => TxStep::Fail(e),
                },
                Answer::Transaction(None) => TxStep::Fail(ResolveError::DanglingReference),
                _ => TxStep::Fail(ResolveError::UnexpectedAnswer),
            },
        }
    }
}

impl PendingTransaction {
    /// Whether the transaction and where it was confirmed are what `ledger`
    /// holds under the hash, and the plan is the transaction's.
    pub open spec fn tracks(self, ledger: Ledger) -> bool {
        &&& ledger.tx_ids.get(self.hash@) matches Some(tx_id)
        &&& ledger.tx_heights.get(tx_id) == Some(self.confirmation_height)
        &&& ledger.block_infos.get(self.confirmation_height) matches Some(info)
        &&& info.timestamp == self.timestamp
        &&& ledger.transactions.get(tx_id) == Some(self.transaction@)
        &&& plan_of(self.transaction@) == Ok::<Seq<Seq<OutputKey>>, ResolveError>(
            rows(self.plan@),
        )
    }
}

/// What came of resolving the members of one ring, as mathematics.
pub open spec fn result_row(results: Seq<Result<Mixin, ResolveError>>) -> Seq<
    Result<MixinModel, ResolveError>,
> {
    Seq::new(results.len(), |j: int| result_model(results[j]))
}

/// What came of resolving each ring member, as mathematics.
pub open spec fn ring_results(results: Seq<Vec<Result<Mixin, ResolveError>>>) -> Seq<
    Seq<Result<MixinModel, ResolveError>>,
> {
    Seq::new(results.len(), |i: int| result_row(results[i]@))
}

/// A result held against the key it was asked for: a ring member that was
/// resolved from another index does not count.
pub open spec fn align(key: OutputKey, result: Result<MixinModel, ResolveError>) -> Result<
    MixinModel,
    ResolveError,
> {
    match result {
        Ok(mixin) => if mixin.output_index == key.absolute_index() {
            Ok(mixin)
        } else {
            Err(ResolveError::UnexpectedAnswer)
        },
        Err(e) => Err(e),
    }
}

/// The results of one ring, each held against its key.
pub open spec fn aligned_ring(
    keys: Seq<OutputKey>,
    results: Seq<Result<MixinModel, ResolveError>>,
) -> Seq<Result<MixinModel, ResolveError>> {
    Seq::new(results.len(), |j: int| align(keys[j], results[j]))
}

/// All results, each held against its key.
pub open spec fn aligned(
    plan: Seq<Seq<OutputKey>>,
    results: Seq<Seq<Result<MixinModel, ResolveError>>>,
) -> Seq<Seq<Result<MixinModel, ResolveError>>> {
    Seq::new(results.len(), |i: int| aligned_ring(plan[i], results[i]))
}

/// Whether there is one result for each key of the plan.
pub open spec fn same_shape(
    plan: Seq<Seq<OutputKey>>,
    results: Seq<Seq<Result<MixinModel, ResolveError>>>,
) -> bool {
    &&& plan.len() == results.len()
    &&& forall|i: int| 0 <= i < plan.len() ==> (#[trigger] plan[i]).len() == results[i].len()
}

fn copy_mixin(mixin: &Mixin) -> (copy: Mixin)
    ensures
        copy@ == mixin@,
{
    Mixin {
        output_index: mixin.output_index,
        height: mixin.height,
        public_key: mixin.public_key.clone(),
        tx_hash: mixin.tx_hash.clone(),
    }
}

/// The members of one ring, in order, unless one of them failed.
fn gather_ring(keys: &Vec<OutputKey>, results: &Vec<Result<Mixin, ResolveError>>) -> (r: Result<
    Vec<Mixin>,
    ResolveError,
>)
    requires
        keys.len() == results.len(),
    ensures
        match r {
            Ok(ring) => gather(aligned_ring(keys@, result_row(results@))) == Ok::<
                Seq<MixinModel>,
                ResolveError,
            >(models(ring@)),
            Err(e) => gather(aligned_ring(keys@, result_row(results@))) == Err::<
                Seq<MixinModel>,
                ResolveError,
            >(e),
        },
{
    let ghost row = aligned_ring(keys@, result_row(results@));
    let mut ring: Vec<Mixin> = Vec::new();
    let mut j: usize = 0;
    assert(row.take(0) =~= Seq::empty());
    assert(models(ring@) =~= Seq::empty());
    while j < results.len()
        invariant
            j <= results.len(),
            keys.len() == results.len(),
            row == aligned_ring(keys@, result_row(results@)),
            gather(row.take(j as int)) == Ok::<Seq<MixinModel>, ResolveError>(models(ring@)),
        decreases results.len() - j,
    {
        let ghost before = models(ring@);
        proof {
            assert(row.take(j + 1) =~= row.take(j as int).push(row[j as int]));
            lemma_gather_push(row.take(j as int), row[j as int]);
        }
        match &results[j] {
            Ok(mixin) => {
                if mixin.output_index != keys[j].absolute_index() {
                    proof {
                        lemma_gather_failure_stays(row, j + 1);
                    }
                    return Err(ResolveError::UnexpectedAnswer);
                }
                ring.push(copy_mixin(mixin));
                assert(models(ring@) =~= before.push(mixin@));
            },
            Err(e) => {
                proof {
                    lemma_gather_failure_stays(row, j + 1);
                }
                return Err(*e);
            },
        }
        j += 1;
    }
    assert(row.take(j as int) =~= row);
    Ok(ring)
}

/// The views of the outputs of a transaction, in order.
fn render_outputs(outputs: &Vec<TxOutput>) -> (views: Vec<OutputView>)
    ensures
        models(views@) == Seq::new(outputs@.len(), |i: int| output_of(outputs@[i])),
{
    let mut views: Vec<OutputView> = Vec::new();
    let mut i: usize = 0;
    while i < outputs.len()
        invariant
            i <= outputs.len(),
            views.len() == i,
            forall|k: int| 0 <= k < i ==> (#[trigger] views[k])@ == output_of(outputs@[k]),
        decreases outputs.len() - i,
    {
        let output = outputs[i];
        views.push(
            OutputView {
                amount: output.amount,
                public_key: hex_encode(output.target.public_key().as_slice()),
            },
        );
        i += 1;
    }
    assert(models(views@) =~= Seq::new(outputs@.len(), |i: int| output_of(outputs@[i])));
    views
}

/// With the results that a ledger defines for the plan of a transaction it
/// holds, the outcome is the view that the ledger defines for the hash.
pub proof fn lemma_outcome_of_ledger(pending: PendingTransaction, ledger: Ledger)
    requires
        pending.tracks(ledger),
    ensures
        pending.outcome(ledger.rings(rows(pending.plan@))) == ledger.transaction(pending.hash@),
{
    let plan = rows(pending.plan@);
    let results = ledger.rings(plan);
    assert forall|i: int| 0 <= i < plan.len() implies aligned_ring(plan[i], results[i])
        =~= results[i] by {
        assert forall|j: int| 0 <= j < results[i].len() implies align(plan[i][j], results[i][j])
            == results[i][j] by {}
    }
    assert(aligned(plan, results) =~= results);
}

impl PendingTransaction {
    /// What the results of resolving the ring members make of the
    /// transaction.
    ///
    /// There has to be one result for each key of the plan, else the results
    /// are not the answers that were asked for. A ring member counts only if
    /// it was resolved from the index that its key names. The first failure,
    /// inputs in order and members in order, is the failure of the whole:
    /// there is no view with a ring missing.
    pub open spec fn outcome(self, results: Seq<Seq<Result<MixinModel, ResolveError>>>) -> Result<
        TransactionViewModel,
        ResolveError,
    > {
        let plan = rows(self.plan@);
        if plan.len() != self.transaction@.inputs.len() || !same_shape(plan, results) {
            Err(ResolveError::UnexpectedAnswer)
        } else {
            match gather_rings(aligned(plan, results)) {
                Err(e) => Err(e),
                Ok(rings) => Ok(
                    transaction_view_of(
                        self.hash@,
                        self.confirmation_height,
                        self.timestamp,
                        self.transaction@,
                        rings,
                    ),
                ),
            }
        }
    }

    /// Puts the resolved ring members into the view of the transaction.
    ///
    /// `results[i][j]` is what came of resolving `self.plan[i][j]`. With the
    /// results that a ledger defines for the plan, the view or the failure is
    /// the one that the ledger defines for the hash.
    pub fn assemble(self, results: Vec<Vec<Result<Mixin, ResolveError>>>) -> (r: Result<
        TransactionView,
        ResolveError,
    >)
        ensures
            match r {
                Ok(view) => self.outcome(ring_results(results@)) == Ok::<
                    TransactionViewModel,
                    ResolveError,
                >(view@),
                Err(e) => self.outcome(ring_results(results@)) == Err::<
                    TransactionViewModel,
                    ResolveError,
                >(e),
            },
            forall|ledger: Ledger| #[trigger]
                self.tracks(ledger) && ring_results(results@) == ledger.rings(rows(self.plan@))
                    ==> match r {
                    Ok(view) => ledger.transaction(self.hash@) == Ok::<
                        TransactionViewModel,
                        ResolveError,
                    >(view@),
                    Err(e) => ledger.transaction(self.hash@) == Err::<
                        TransactionViewModel,
                        ResolveError,
                    >(e),
                },
    {
        proof {
            assert forall|ledger: Ledger| #[trigger] self.tracks(ledger) implies self.outcome(
                ledger.rings(rows(self.plan@)),
            ) == ledger.transaction(self.hash@) by {
                lemma_outcome_of_ledger(self, ledger);
            }
        }
        self.build(results)
    }

    fn build(self, results: Vec<Vec<Result<Mixin, ResolveError>>>) -> (r: Result<
        TransactionView,
        ResolveError,
    >)
        ensures
            match r {
                Ok(view) => self.outcome(ring_results(results@)) == Ok::<
                    TransactionViewModel,
                    ResolveError,
                >(view@),
                Err(e) => self.outcome(ring_results(results@)) == Err::<
                    TransactionViewModel,
                    ResolveError,
                >(e),
            },
    {
        let ghost plan = rows(self.plan@);
        let ghost given = ring_results(results@);
        let n = self.transaction.inputs.len();
        if self.plan.len() != n || results.len() != n {
            return Err(ResolveError::UnexpectedAnswer);
        }
        let mut i: usize = 0;
        while i < n
            invariant
                i <= n,
                n == self.plan.len(),
                n == results.len(),
                plan == rows(self.plan@),
                given == ring_results(results@),
                forall|k: int| 0 <= k < i ==> (#[trigger] plan[k]).len() == given[k].len(),
            decreases n - i,
        {
            if results[i].len() != self.plan[i].len() {
                assert(plan[i as int].len() != given[i as int].len());
                return Err(ResolveError::UnexpectedAnswer);
            }
            i += 1;
        }
        assert(same_shape(plan, given));
        let ghost all = aligned(plan, given);
        let ghost mut rings: Seq<Seq<MixinModel>> = Seq::empty();
        let mut inputs: Vec<InputView> = Vec::new();
        assert(gathered(all).take(0) =~= Seq::empty());
        i = 0;
        while i < n
            invariant
                i <= n,
                n == self.transaction.inputs.len(),
                n == self.plan.len(),
                n == results.len(),
                plan == rows(self.plan@),
                given == ring_results(results@),
                same_shape(plan, given),
                all == aligned(plan, given),
                gather(gathered(all).take(i as int)) == Ok::<Seq<Seq<MixinModel>>, ResolveError>(
                    rings,
                ),
                rings.len() == i,
                inputs.len() == i,
                forall|k: int|
                    0 <= k < i ==> (#[trigger] inputs[k])@ == (InputModel {
                        amount: self.transaction@.inputs[k].amount,
                        key_image: crate::encoding::hex_lower(
                            self.transaction@.inputs[k].key_image@,
                        ),
                        mixins: rings[k],
                    }),
            decreases n - i,
        {
            proof {
                assert(gathered(all).take(i + 1) =~= gathered(all).take(i as int).push(
                    gathered(all)[i as int],
                ));
                lemma_gather_push(gathered(all).take(i as int), gathered(all)[i as int]);
                assert(plan[i as int].len() == given[i as int].len());
            }
            match gather_ring(&self.plan[i], &results[i]) {
                Ok(ring) => {
                    proof {
                        rings = rings.push(models(ring@));
                    }
                    let input = &self.transaction.inputs[i];
                    inputs.push(
                        InputView {
                            amount: input.amount,
                            key_image: hex_encode(input.key_image.as_slice()),
                            mixins: ring,
                        },
                    );
                },
                Err(e) => {
                    proof {
                        lemma_gather_failure_stays(gathered(all), i + 1);
                    }
                    return Err(e);
                },
            }
            i += 1;
        }
        assert(gathered(all).take(n as int) =~= gathered(all));
        let outputs = render_outputs(&self.transaction.outputs);
        let view = TransactionView {
            hash: hex_encode(self.hash.as_slice()),
            version: self.transaction.version,
            unlock_time: self.transaction.unlock_time,
            is_coinbase: n == 0,
            confirmation_height: self.confirmation_height,
            timestamp: self.timestamp,
            weight: self.transaction.weight,
            inputs,
            outputs,
            extra: hex_encode(self.transaction.extra.as_slice()),
        };
        assert(view@.inputs =~= transaction_view_of(
            self.hash@,
            self.confirmation_height,
            self.timestamp,
            self.transaction@,
            rings,
        ).inputs);
        Ok(view)
    }
}

} // verus!
