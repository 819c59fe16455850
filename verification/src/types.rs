//! Records of the ledger as the resolvers read them.

use crate::error::ResolveError;
use vstd::prelude::*;

verus! {

/// A 32-byte identifier: the hash of a transaction or a block, or a key.
pub type Bytes32 = [u8; 32];

/// The views of the items of `items`, in order.
pub open spec fn models<T: View>(items: Seq<T>) -> Seq<T::V> {
    Seq::new(items.len(), |i: int| items[i]@)
}

/// A result with its value as mathematics.
pub open spec fn result_model<T: View>(r: Result<T, ResolveError>) -> Result<T::V, ResolveError> {
    match r {
        Ok(value) => Ok(value@),
        Err(e) => Err(e),
    }
}

/// Where an output was created, and its public key.
#[derive(Clone, Copy, Debug, PartialEq, Eq)]
pub struct OutputRecord {
    /// Height of the block that holds the output.
    pub height: u32,
    /// Index of the transaction that created it, on the scale on which its
    /// block's `mining_tx_index` counts.
    pub tx_idx: u32,
    /// The output's public key.
    pub key: Bytes32,
}

/// What the store keeps about a block.
#[derive(Clone, Copy, Debug, PartialEq, Eq)]
pub struct BlockInfo {
    pub block_hash: Bytes32,
    pub timestamp: u64,
    pub weight: u64,
    pub cumulative_generated_coins: u64,
    pub cumulative_difficulty_low: u64,
    pub cumulative_difficulty_high: u64,
    pub cumulative_rct_outs: u64,
    pub long_term_weight: u64,
    /// Index of the block's coinbase transaction among all transactions.
    pub mining_tx_index: u64,
}

/// The two ways in which outputs are numbered.
#[derive(Clone, Copy, Debug, PartialEq, Eq, Structural)]
pub enum AddressSpace {
    /// Outputs of one amount, numbered among themselves.
    LegacyOutputSpace,
    /// All confidential outputs, numbered together.
    GlobalOutputSpace,
}

/// The key under which an output is looked up.
#[derive(Clone, Copy, Debug, PartialEq, Eq, Structural)]
pub enum OutputKey {
    /// The `amount_index`-th output of exactly `amount`.
    PreRct { amount: u64, amount_index: u64 },
    /// The `index`-th confidential output.
    Rct { index: u64 },
}

impl OutputKey {
    /// The absolute index that the key was built from.
    pub open spec fn spec_absolute_index(self) -> u64 {
        match self {
            OutputKey::PreRct { amount_index, .. } => amount_index,
            OutputKey::Rct { index } => index,
        }
    }

    /// The absolute index that the key was built from.
    #[verifier::when_used_as_spec(spec_absolute_index)]
    pub fn absolute_index(self) -> (i: u64)
        ensures
            i == self.spec_absolute_index(),
    {
        match self {
            OutputKey::PreRct { amount_index, .. } => amount_index,
            OutputKey::Rct { index } => index,
        }
    }
}

impl AddressSpace {
    /// The key of the output with absolute index `index`, for an input that
    /// declares `amount`.
    pub open spec fn spec_key(self, amount: u64, index: u64) -> OutputKey {
        match self {
            AddressSpace::LegacyOutputSpace => OutputKey::PreRct { amount, amount_index: index },
            AddressSpace::GlobalOutputSpace => OutputKey::Rct { index },
        }
    }

    /// Builds the lookup key for one ring member. The amount only counts in
    /// the legacy space.
    #[verifier::when_used_as_spec(spec_key)]
    pub fn key(self, amount: u64, index: u64) -> (k: OutputKey)
        ensures
            k == self.spec_key(amount, index),
    {
        match self {
            AddressSpace::LegacyOutputSpace => OutputKey::PreRct { amount, amount_index: index },
            AddressSpace::GlobalOutputSpace => OutputKey::Rct { index },
        }
    }
}

/// The two formats a transaction can have.
#[derive(Clone, Copy, Debug, PartialEq, Eq, Structural)]
pub enum TxFormat {
    /// Before confidential amounts.
    LegacyPrefix,
    /// With confidential amounts.
    RingCtPrefix,
}

/// The format that a version number names, if it names one.
pub open spec fn format_of_version(version: u8) -> Option<TxFormat> {
    if version == 1 {
        Some(TxFormat::LegacyPrefix)
    } else if version == 2 {
        Some(TxFormat::RingCtPrefix)
    } else {
        None
    }
}

impl TxFormat {
    /// Reads the format off a stored version number. Any number but 1 and 2
    /// is an error, not a third format.
    pub fn from_version(version: u8) -> (r: Result<TxFormat, ResolveError>)
        ensures
            r == match format_of_version(version) {
                Some(format) => Ok::<TxFormat, ResolveError>(format),
                None => Err(ResolveError::UnknownFormat),
            },
    {
        if version == 1 {
            Ok(TxFormat::LegacyPrefix)
        } else if version == 2 {
            Ok(TxFormat::RingCtPrefix)
        } else {
            Err(ResolveError::UnknownFormat)
        }
    }

    /// The space in which the inputs of such a transaction number outputs.
    pub open spec fn spec_address_space(self) -> AddressSpace {
        match self {
            TxFormat::LegacyPrefix => AddressSpace::LegacyOutputSpace,
            TxFormat::RingCtPrefix => AddressSpace::GlobalOutputSpace,
        }
    }

    /// The space in which the inputs of such a transaction number outputs.
    #[verifier::when_used_as_spec(spec_address_space)]
    pub fn address_space(self) -> (space: AddressSpace)
        ensures
            space == self.spec_address_space(),
    {
        match self {
            TxFormat::LegacyPrefix => AddressSpace::LegacyOutputSpace,
            TxFormat::RingCtPrefix => AddressSpace::GlobalOutputSpace,
        }
    }
}

/// How an output commits to its key.
#[derive(Clone, Copy, Debug, PartialEq, Eq)]
pub enum OutputTarget {
    /// The key alone.
    Key { key: Bytes32 },
    /// The key with a view tag beside it.
    TaggedKey { key: Bytes32, view_tag: u8 },
}

impl OutputTarget {
    /// The key, whichever way it was committed to.
    pub open spec fn spec_public_key(self) -> Bytes32 {
        match self {
            OutputTarget::Key { key } => key,
            OutputTarget::TaggedKey { key, .. } => key,
        }
    }

    /// The output's key. A view tag says nothing of where an output comes
    /// from and is left behind.
    #[verifier::when_used_as_spec(spec_public_key)]
    pub fn public_key(self) -> (key: Bytes32)
        ensures
            key == self.spec_public_key(),
    {
        match self {
            OutputTarget::Key { key } => key,
            OutputTarget::TaggedKey { key, .. } => key,
        }
    }
}

/// One output of a stored transaction.
#[derive(Clone, Copy, Debug, PartialEq, Eq)]
pub struct TxOutput {
    pub amount: u64,
    pub target: OutputTarget,
}

/// One ring input of a stored transaction.
#[derive(Clone, Debug, PartialEq, Eq)]
pub struct TxInput {
    pub amount: u64,
    pub key_image: Bytes32,
    /// The ring members, as offsets.
    pub key_offsets: Vec<u64>,
}

/// What [`TxInput`] holds, as mathematics.
pub struct TxInputModel {
    pub amount: u64,
    pub key_image: Bytes32,
    pub key_offsets: Seq<u64>,
}

impl View for TxInput {
    type V = TxInputModel;

    open spec fn view(&self) -> TxInputModel {
        TxInputModel {
            amount: self.amount,
            key_image: self.key_image,
            key_offsets: self.key_offsets@,
        }
    }
}

/// A transaction as the store holds it, decoded.
#[derive(Clone, Debug, PartialEq, Eq)]
pub struct StoredTransaction {
    /// The hash of the transaction's serialized bytes.
    pub hash: Bytes32,
    pub version: u8,
    pub unlock_time: u64,
    pub inputs: Vec<TxInput>,
    pub outputs: Vec<TxOutput>,
    pub extra: Vec<u8>,
    pub weight: u64,
}

/// What [`StoredTransaction`] holds, as mathematics.
pub struct TransactionModel {
    pub hash: Bytes32,
    pub version: u8,
    pub unlock_time: u64,
    pub inputs: Seq<TxInputModel>,
    pub outputs: Seq<TxOutput>,
    pub extra: Seq<u8>,
    pub weight: u64,
}

impl View for StoredTransaction {
    type V = TransactionModel;

    open spec fn view(&self) -> TransactionModel {
        TransactionModel {
            hash: self.hash,
            version: self.version,
            unlock_time: self.unlock_time,
            inputs: models(self.inputs@),
            outputs: self.outputs@,
            extra: self.extra@,
            weight: self.weight,
        }
    }
}

} // verus!
