//! One ring member: from the key that an offset decodes to, to the output
//! and the transaction that created it.

use crate::encoding::hex_encode;
use crate::error::ResolveError;
use crate::ledger::Ledger;
use crate::lookup::{Answer, Query};
use crate::provenance::{ProvenanceMapper, ProvenanceStep};
use crate::types::{Bytes32, OutputKey, OutputRecord};
use crate::views::{mixin_of, Mixin, MixinModel};
use vstd::prelude::*;

verus! {

/// Resolves one ring member, a lookup at a time: first the output under the
/// key, then the hash of the transaction that created it.
///
/// Each member stands alone, so a caller may run as many resolvers side by
/// side as it likes.
#[derive(Clone, Copy, Debug, PartialEq, Eq)]
pub enum MixinResolver {
    /// Waiting for the output stored under `key`.
    AwaitOutput { key: OutputKey },
    /// The output is `record`: finding the transaction that created it.
    Mapping { key: OutputKey, record: OutputRecord, mapper: ProvenanceMapper },
}

/// How a [`MixinResolver`] goes on after an answer.
#[derive(Clone, Debug, PartialEq, Eq)]
pub enum MixinStep {
    /// Another lookup is needed: that of the resolver's `query`.
    Ask(MixinResolver),
    /// The ring member.
    Done(Mixin),
    /// The member cannot be resolved.
    Fail(ResolveError),
}

/// Writes up a ring member.
pub fn make_mixin(key: OutputKey, record: &OutputRecord, tx_hash: &Bytes32) -> (mixin: Mixin)
    ensures
        mixin@ == mixin_of(key, *record, *tx_hash),
{
    Mixin {
        output_index: key.absolute_index(),
        height: record.height,
        public_key: hex_encode(record.key.as_slice()),
        tx_hash: hex_encode(tx_hash.as_slice()),
    }
}

impl MixinResolver {
    /// The key of the member that is being resolved.
    pub open spec fn key(self) -> OutputKey {
        match self {
            MixinResolver::AwaitOutput { key } => key,
            MixinResolver::Mapping { key, .. } => key,
        }
    }

    /// The lookup that the resolver waits for.
    pub open spec fn spec_query(self) -> Query {
        match self {
            MixinResolver::AwaitOutput { key } => Query::Output { key },
            MixinResolver::Mapping { mapper, .. } => mapper.query(),
        }
    }

    /// Whether what the resolver has learnt so far is what `ledger` holds.
    pub open spec fn tracks(self, ledger: Ledger) -> bool {
        match self {
            MixinResolver::AwaitOutput { .. } => true,
            MixinResolver::Mapping { key, record, mapper } => {
                &&& ledger.output(key) == Some(record)
                &&& mapper.height() == record.height
                &&& mapper.tx_idx() == record.tx_idx
                &&& mapper.tracks(ledger)
            },
        }
    }

    /// An upper bound on the lookups still to come.
    pub open spec fn rank(self) -> nat {
        match self {
            MixinResolver::AwaitOutput { .. } => 3,
            MixinResolver::Mapping { mapper, .. } => mapper.rank(),
        }
    }

    /// A resolver for the member with key `key`.
    pub fn start(key: OutputKey) -> (resolver: MixinResolver)
        ensures
            resolver == (MixinResolver::AwaitOutput { key }),
    {
        MixinResolver::AwaitOutput { key }
    }

    /// The lookup to make next.
    #[verifier::when_used_as_spec(spec_query)]
    pub fn query(self) -> (q: Query)
        ensures
            q == self.spec_query(),
    {
        match self {
            MixinResolver::AwaitOutput { key } => Query::Output { key },
            MixinResolver::Mapping { mapper, .. } => mapper.query(),
        }
    }

    /// Takes the answer to `self.query()` and decides how to go on.
    ///
    /// For every ledger that agrees with the answers so far, the resolver ends
    /// with what the ledger defines for the key: the member, or the failure.
    pub fn step(self, answer: Answer) -> (r: MixinStep)
        ensures
            !answer.fits(self.query()) ==> r == MixinStep::Fail(ResolveError::UnexpectedAnswer),
            r matches MixinStep::Ask(next) ==> next.rank() < self.rank() && next.key() == self.key(),
            r matches MixinStep::Done(mixin) ==> mixin.output_index == self.key().absolute_index(),
            forall|ledger: Ledger| #[trigger]
                self.tracks(ledger) && ledger.answers(self.query(), answer) ==> match r {
                    MixinStep::Ask(next) => next.tracks(ledger),
                    MixinStep::Done(mixin) => ledger.mixin(self.key()) == Ok::<
                        MixinModel,
                        ResolveError,
                    >(mixin@),
                    MixinStep::Fail(e) => ledger.mixin(self.key()) == Err::<
                        MixinModel,
                        ResolveError,
                    >(e),
                },
    {
        match self {
            MixinResolver::AwaitOutput { key } => match answer {
                Answer::Output(Some(record)) => MixinStep::Ask(
                    MixinResolver::Mapping {
                        key,
                        record,
                        mapper: ProvenanceMapper::start(record.height, record.tx_idx),
                    },
                ),
                Answer::Output(None) => MixinStep::Fail(ResolveError::OutputNotFound),
                _ => MixinStep::Fail(ResolveError::UnexpectedAnswer),
            },
            MixinResolver::Mapping { key, record, mapper } => match mapper.step(answer) {
                ProvenanceStep::Ask(next) => MixinStep::Ask(
                    MixinResolver::Mapping { key, record, mapper: next },
                ),
                ProvenanceStep::Done(hash) => MixinStep::Done(make_mixin(key, &record, &hash)),
                ProvenanceStep::Fail(e) => MixinStep::Fail(e),
            },
        }
    }
}

} // verus!
