//! What a query answers with: a transaction or a block, with every hash and
//! key as lower-case hexadecimal text.

use crate::encoding::hex_lower;
use crate::types::{
    models, BlockInfo, Bytes32, OutputKey, OutputRecord, TransactionModel, TxOutput,
};
use vstd::prelude::*;

verus! {

/// One ring member of an input: an earlier output that the input may spend.
#[derive(Clone, Debug, PartialEq, Eq)]
pub struct Mixin {
    /// The absolute index that the member's offset decodes to.
    pub output_index: u64,
    /// Height of the block that holds the output.
    pub height: u32,
    /// The output's public key.
    pub public_key: String,
    /// Hash of the transaction that created the output.
    pub tx_hash: String,
}

/// What [`Mixin`] holds, as mathematics.
pub struct MixinModel {
    pub output_index: u64,
    pub height: u32,
    pub public_key: Seq<char>,
    pub tx_hash: Seq<char>,
}

impl View for Mixin {
    type V = MixinModel;

    open spec fn view(&self) -> MixinModel {
        MixinModel {
            output_index: self.output_index,
            height: self.height,
            public_key: self.public_key@,
            tx_hash: self.tx_hash@,
        }
    }
}

/// The ring member found under `key`, as `record`, created by the
/// transaction with hash `tx_hash`.
pub open spec fn mixin_of(key: OutputKey, record: OutputRecord, tx_hash: Bytes32) -> MixinModel {
    MixinModel {
        output_index: key.absolute_index(),
        height: record.height,
        public_key: hex_lower(record.key@),
        tx_hash: hex_lower(tx_hash@),
    }
}

/// One input of a transaction, with its ring.
#[derive(Clone, Debug, PartialEq, Eq)]
pub struct InputView {
    pub amount: u64,
    pub key_image: String,
    /// The ring members, in the order of the input's offsets.
    pub mixins: Vec<Mixin>,
}

/// What [`InputView`] holds, as mathematics.
pub struct InputModel {
    pub amount: u64,
    pub key_image: Seq<char>,
    pub mixins: Seq<MixinModel>,
}

impl View for InputView {
    type V = InputModel;

    open spec fn view(&self) -> InputModel {
        InputModel {
            amount: self.amount,
            key_image: self.key_image@,
            mixins: models(self.mixins@),
        }
    }
}

/// One output of a transaction.
#[derive(Clone, Debug, PartialEq, Eq)]
pub struct OutputView {
    pub amount: u64,
    pub public_key: String,
}

/// What [`OutputView`] holds, as mathematics.
pub struct OutputModel {
    pub amount: u64,
    pub public_key: Seq<char>,
}

impl View for OutputView {
    type V = OutputModel;

    open spec fn view(&self) -> OutputModel {
        OutputModel { amount: self.amount, public_key: self.public_key@ }
    }
}

/// The view of a stored output.
pub open spec fn output_of(output: TxOutput) -> OutputModel {
    OutputModel { amount: output.amount, public_key: hex_lower(output.target.public_key()@) }
}

/// A transaction, resolved.
#[derive(Clone, Debug, PartialEq, Eq)]
pub struct TransactionView {
    pub hash: String,
    pub version: u8,
    pub unlock_time: u64,
    /// Whether the transaction has no input at all.
    pub is_coinbase: bool,
    pub confirmation_height: u64,
    pub timestamp: u64,
    pub weight: u64,
    pub inputs: Vec<InputView>,
    pub outputs: Vec<OutputView>,
    pub extra: String,
}

/// What [`TransactionView`] holds, as mathematics.
pub struct TransactionViewModel {
    pub hash: Seq<char>,
    pub version: u8,
    pub unlock_time: u64,
    pub is_coinbase: bool,
    pub confirmation_height: u64,
    pub timestamp: u64,
    pub weight: u64,
    pub inputs: Seq<InputModel>,
    pub outputs: Seq<OutputModel>,
    pub extra: Seq<char>,
}

impl View for TransactionView {
    type V = TransactionViewModel;

    open spec fn view(&self) -> TransactionViewModel {
        TransactionViewModel {
            hash: self.hash@,
            version: self.version,
            unlock_time: self.unlock_time,
            is_coinbase: self.is_coinbase,
            confirmation_height: self.confirmation_height,
            timestamp: self.timestamp,
            weight: self.weight,
            inputs: models(self.inputs@),
            outputs: models(self.outputs@),
            extra: self.extra@,
        }
    }
}

/// The view of the transaction `tx`, asked for by `hash`, confirmed at
/// `height` in a block stamped `timestamp`, whose inputs have the rings
/// `rings`, one for each input.
pub open spec fn transaction_view_of(
    hash: Seq<u8>,
    height: u64,
    timestamp: u64,
    tx: TransactionModel,
    rings: Seq<Seq<MixinModel>>,
) -> TransactionViewModel {
    TransactionViewModel {
        hash: hex_lower(hash),
        version: tx.version,
        unlock_time: tx.unlock_time,
        is_coinbase: tx.inputs.len() == 0,
        confirmation_height: height,
        timestamp,
        weight: tx.weight,
        inputs: Seq::new(
            tx.inputs.len(),
            |i: int|
                InputModel {
                    amount: tx.inputs[i].amount,
                    key_image: hex_lower(tx.inputs[i].key_image@),
                    mixins: rings[i],
                },
        ),
        outputs: Seq::new(tx.outputs.len(), |i: int| output_of(tx.outputs[i])),
        extra: hex_lower(tx.extra),
    }
}

/// A transaction as a block lists it.
#[derive(Clone, Debug, PartialEq, Eq)]
pub struct TransactionSummary {
    pub hash: String,
    pub version: u8,
    pub is_coinbase: bool,
    pub weight: u64,
    pub extra: String,
}

/// What [`TransactionSummary`] holds, as mathematics.
pub struct SummaryModel {
    pub hash: Seq<char>,
    pub version: u8,
    pub is_coinbase: bool,
    pub weight: u64,
    pub extra: Seq<char>,
}

impl View for TransactionSummary {
    type V = SummaryModel;

    open spec fn view(&self) -> SummaryModel {
        SummaryModel {
            hash: self.hash@,
            version: self.version,
            is_coinbase: self.is_coinbase,
            weight: self.weight,
            extra: self.extra@,
        }
    }
}

/// The summary of the transaction `tx`.
pub open spec fn summary_of(tx: TransactionModel) -> SummaryModel {
    SummaryModel {
        hash: hex_lower(tx.hash@),
        version: tx.version,
        is_coinbase: tx.inputs.len() == 0,
        weight: tx.weight,
        extra: hex_lower(tx.extra),
    }
}

/// A block, resolved.
#[derive(Clone, Debug, PartialEq, Eq)]
pub struct BlockView {
    pub hash: String,
    pub timestamp: u64,
    pub weight: u64,
    pub cumulative_generated_coins: u64,
    pub cumulative_difficulty_low: u64,
    pub cumulative_difficulty_high: u64,
    pub cumulative_rct_outs: u64,
    pub long_term_weight: u64,
    /// One summary for each hash that the block lists, in the block's order.
    pub transactions: Vec<TransactionSummary>,
}

/// What [`BlockView`] holds, as mathematics.
pub struct BlockViewModel {
    pub hash: Seq<char>,
    pub timestamp: u64,
    pub weight: u64,
    pub cumulative_generated_coins: u64,
    pub cumulative_difficulty_low: u64,
    pub cumulative_difficulty_high: u64,
    pub cumulative_rct_outs: u64,
    pub long_term_weight: u64,
    pub transactions: Seq<SummaryModel>,
}

impl View for BlockView {
    type V = BlockViewModel;

    open spec fn view(&self) -> BlockViewModel {
        BlockViewModel {
            hash: self.hash@,
            timestamp: self.timestamp,
            weight: self.weight,
            cumulative_generated_coins: self.cumulative_generated_coins,
            cumulative_difficulty_low: self.cumulative_difficulty_low,
            cumulative_difficulty_high: self.cumulative_difficulty_high,
            cumulative_rct_outs: self.cumulative_rct_outs,
            long_term_weight: self.long_term_weight,
            transactions: models(self.transactions@),
        }
    }
}

/// The view of the block described by `info` that lists `transactions`.
pub open spec fn block_view_of(info: BlockInfo, transactions: Seq<SummaryModel>) -> BlockViewModel {
    BlockViewModel {
        hash: hex_lower(info.block_hash@),
        timestamp: info.timestamp,
        weight: info.weight,
        cumulative_generated_coins: info.cumulative_generated_coins,
        cumulative_difficulty_low: info.cumulative_difficulty_low,
        cumulative_difficulty_high: info.cumulative_difficulty_high,
        cumulative_rct_outs: info.cumulative_rct_outs,
        long_term_weight: info.long_term_weight,
        transactions,
    }
}

} // verus!
