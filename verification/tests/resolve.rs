use std::cell::Cell;
use std::collections::HashMap;

use ledger_explorer::block::{BlockResolver, BlockStep};
use ledger_explorer::error::{ErrorKind, ResolveError};
use ledger_explorer::lookup::{Answer, Query};
use ledger_explorer::mixin::{make_mixin, MixinResolver, MixinStep};
use ledger_explorer::provenance::{ProvenanceMapper, ProvenanceStep};
use ledger_explorer::resolve::{
    find_transaction as find_with, resolve_block, resolve_mixin, resolve_ring,
    resolve_transaction,
};
use ledger_explorer::transaction::{input_keys, plan_rings, PendingTransaction, TxResolver, TxStep};
use ledger_explorer::types::{
    AddressSpace, BlockInfo, OutputKey, OutputRecord, OutputTarget, StoredTransaction, TxFormat,
    TxInput, TxOutput,
};
use ledger_explorer::views::{BlockView, Mixin, TransactionView};

// ---- a store in memory ----------------------------------------------------

#[derive(Default)]
struct Store {
    tx_ids: HashMap<[u8; 32], u64>,
    tx_heights: HashMap<u64, u64>,
    block_infos: HashMap<u64, BlockInfo>,
    transactions: HashMap<u64, StoredTransaction>,
    pre_rct_outputs: HashMap<(u64, u64), OutputRecord>,
    rct_outputs: HashMap<u64, OutputRecord>,
    block_tx_hashes: HashMap<u64, Vec<[u8; 32]>>,
    lookups: Cell<usize>,
}

impl Store {
    fn lookup(&self, query: Query) -> Answer {
        self.lookups.set(self.lookups.get() + 1);
        match query {
            Query::TxId { hash } => Answer::TxId(self.tx_ids.get(&hash).copied()),
            Query::TxHeight { tx_id } => Answer::TxHeight(self.tx_heights.get(&tx_id).copied()),
            Query::BlockInfo { height } => {
                Answer::BlockInfo(self.block_infos.get(&height).copied())
            }
            Query::Transaction { tx_id } => {
                Answer::Transaction(self.transactions.get(&tx_id).cloned())
            }
            Query::TxHash { tx_id } => Answer::TxHash(self.transactions.get(&tx_id).map(|t| t.hash)),
            Query::Output { key } => Answer::Output(match key {
                OutputKey::PreRct { amount, amount_index } => {
                    self.pre_rct_outputs.get(&(amount, amount_index)).copied()
                }
                OutputKey::Rct { index } => self.rct_outputs.get(&index).copied(),
            }),
            Query::BlockTxHashes { height } => {
                Answer::BlockTxHashes(self.block_tx_hashes.get(&height).cloned())
            }
        }
    }

    fn add_block(&mut self, height: u64, mining_tx_index: u64, listed: Vec<[u8; 32]>) {
        self.block_infos.insert(height, block_info(height, mining_tx_index));
        self.block_tx_hashes.insert(height, listed);
    }

    fn add_transaction(&mut self, tx_id: u64, height: u64, tx: StoredTransaction) {
        self.tx_ids.insert(tx.hash, tx_id);
        self.tx_heights.insert(tx_id, height);
        self.transactions.insert(tx_id, tx);
    }
}

fn run_provenance(store: &Store, height: u32, tx_idx: u32) -> Result<[u8; 32], ResolveError> {
    let mut mapper = ProvenanceMapper::start(height, tx_idx);
    loop {
        match mapper.step(store.lookup(mapper.query())) {
            ProvenanceStep::Ask(next) => mapper = next,
            ProvenanceStep::Done(hash) => return Ok(hash),
            ProvenanceStep::Fail(e) => return Err(e),
        }
    }
}

fn run_mixin(store: &Store, key: OutputKey) -> Result<Mixin, ResolveError> {
    let mut resolver = MixinResolver::start(key);
    loop {
        match resolver.step(store.lookup(resolver.query())) {
            MixinStep::Ask(next) => resolver = next,
            MixinStep::Done(mixin) => return Ok(mixin),
            MixinStep::Fail(e) => return Err(e),
        }
    }
}

fn find_transaction(store: &Store, token: &str) -> Result<PendingTransaction, ResolveError> {
    let mut step = TxResolver::start(token);
    loop {
        match step {
            TxStep::Ask(resolver) => step = resolver.step(store.lookup(resolver.query())),
            TxStep::Ready(pending) => return Ok(pending),
            TxStep::Fail(e) => return Err(e),
        }
    }
}

fn run_transaction(store: &Store, token: &str) -> Result<TransactionView, ResolveError> {
    let pending = find_transaction(store, token)?;
    let results: Vec<Vec<Result<Mixin, ResolveError>>> = pending
        .plan
        .iter()
        .map(|ring| ring.iter().map(|key| run_mixin(store, *key)).collect())
        .collect();
    pending.assemble(results)
}

fn run_block(store: &Store, token: &str) -> Result<BlockView, ResolveError> {
    let mut step = BlockResolver::start(token);
    loop {
        match step {
            BlockStep::Ask(resolver) => {
                let answer = store.lookup(resolver.query());
                step = resolver.step(answer);
            }
            BlockStep::Done(view) => return Ok(view),
            BlockStep::Fail(e) => return Err(e),
        }
    }
}

// ---- values ---------------------------------------------------------------

fn bytes(n: u8) -> [u8; 32] {
    [n; 32]
}

fn counted(first: u8) -> [u8; 32] {
    let mut out = [0u8; 32];
    for (i, b) in out.iter_mut().enumerate() {
        *b = first.wrapping_add(i as u8);
    }
    out
}

fn hex_of(data: &[u8]) -> String {
    data.iter().map(|b| format!("{:02x}", b)).collect()
}

fn block_info(height: u64, mining_tx_index: u64) -> BlockInfo {
    BlockInfo {
        block_hash: counted(height as u8),
        timestamp: 1_400_000_000 + height * 120,
        weight: 1000 + height,
        cumulative_generated_coins: 17_000_000 * (height + 1),
        cumulative_difficulty_low: 5 * height + 1,
        cumulative_difficulty_high: height / 2,
        cumulative_rct_outs: 3 * height,
        long_term_weight: 900 + height,
        mining_tx_index,
    }
}

fn coinbase(hash: [u8; 32], version: u8) -> StoredTransaction {
    StoredTransaction {
        hash,
        version,
        unlock_time: 60,
        inputs: vec![],
        outputs: vec![TxOutput { amount: 17_000_000, target: OutputTarget::Key { key: bytes(0xa0) } }],
        extra: vec![1, 2, 3],
        weight: 95,
    }
}

fn spend(hash: [u8; 32], version: u8, inputs: Vec<TxInput>) -> StoredTransaction {
    StoredTransaction {
        hash,
        version,
        unlock_time: 0,
        inputs,
        outputs: vec![
            TxOutput { amount: 0, target: OutputTarget::Key { key: counted(0x10) } },
            TxOutput {
                amount: 0,
                target: OutputTarget::TaggedKey { key: counted(0x20), view_tag: 0x5a },
            },
        ],
        extra: vec![0x01, 0xab, 0xff],
        weight: 1500,
    }
}

fn input(amount: u64, image: u8, offsets: &[u64]) -> TxInput {
    TxInput { amount, key_image: bytes(image), key_offsets: offsets.to_vec() }
}

/// Blocks 10 and 11. Block 10: coinbase is transaction 100, then 101 and 102.
/// Block 11: coinbase is transaction 103, then 104.
fn chain() -> Store {
    let mut store = Store::default();
    store.add_block(10, 100, vec![bytes(0x11), bytes(0x12)]);
    store.add_block(11, 103, vec![bytes(0x14)]);
    store.add_transaction(100, 10, coinbase(bytes(0xc0), 2));
    store.add_transaction(101, 10, spend(bytes(0x11), 2, vec![]));
    store.add_transaction(102, 10, spend(bytes(0x12), 1, vec![]));
    store.add_transaction(103, 11, coinbase(bytes(0xc1), 2));
    // confidential outputs 5 and 8; output 5 by the coinbase of block 10,
    // output 8 by the second listed transaction of block 10
    store.rct_outputs.insert(5, OutputRecord { height: 10, tx_idx: 100, key: counted(0x50) });
    store.rct_outputs.insert(8, OutputRecord { height: 10, tx_idx: 102, key: counted(0x80) });
    store.rct_outputs.insert(9, OutputRecord { height: 11, tx_idx: 104, key: counted(0x90) });
    // outputs of amount 700, numbered among themselves
    store.pre_rct_outputs.insert((700, 5), OutputRecord { height: 10, tx_idx: 101, key: counted(0x70) });
    store.pre_rct_outputs.insert((700, 6), OutputRecord { height: 11, tx_idx: 103, key: counted(0x71) });
    // the transaction under test, in block 11
    store.add_transaction(
        104,
        11,
        spend(
            bytes(0x14),
            2,
            vec![input(0, 0xe1, &[5, 0, 3]), input(0, 0xe2, &[]), input(0, 0xe3, &[8, 1])],
        ),
    );
    store
}

// ---- provenance -----------------------------------------------------------

#[test]
fn provenance_of_the_coinbase_slot_is_the_coinbase_hash() {
    let store = chain();
    assert_eq!(run_provenance(&store, 10, 100), Ok(bytes(0xc0)));
    assert_eq!(run_provenance(&store, 11, 103), Ok(bytes(0xc1)));
}

#[test]
fn provenance_of_another_slot_is_the_listed_hash() {
    let store = chain();
    assert_eq!(run_provenance(&store, 10, 101), Ok(bytes(0x11)));
    assert_eq!(run_provenance(&store, 10, 102), Ok(bytes(0x12)));
    assert_eq!(run_provenance(&store, 11, 104), Ok(bytes(0x14)));
}

#[test]
fn provenance_asks_for_the_block_first() {
    let mapper = ProvenanceMapper::start(10, 101);
    assert_eq!(mapper.query(), Query::BlockInfo { height: 10 });
    let store = chain();
    match mapper.step(store.lookup(mapper.query())) {
        ProvenanceStep::Ask(next) => assert_eq!(next.query(), Query::BlockTxHashes { height: 10 }),
        other => panic!("{:?}", other),
    }
    let mapper = ProvenanceMapper::start(10, 100);
    match mapper.step(store.lookup(mapper.query())) {
        ProvenanceStep::Ask(next) => assert_eq!(next.query(), Query::TxHash { tx_id: 100 }),
        other => panic!("{:?}", other),
    }
}

#[test]
fn provenance_without_the_block_is_block_not_found() {
    let store = chain();
    assert_eq!(run_provenance(&store, 12, 100), Err(ResolveError::BlockNotFound));
}

#[test]
fn provenance_slot_past_the_list_is_out_of_range() {
    let store = chain();
    assert_eq!(run_provenance(&store, 10, 103), Err(ResolveError::IndexOutOfRange));
    assert_eq!(run_provenance(&store, 11, 105), Err(ResolveError::IndexOutOfRange));
    assert_eq!(run_provenance(&store, 10, u32::MAX), Err(ResolveError::IndexOutOfRange));
}

#[test]
fn provenance_slot_before_the_coinbase_is_out_of_range() {
    let store = chain();
    assert_eq!(run_provenance(&store, 10, 99), Err(ResolveError::IndexOutOfRange));
    assert_eq!(run_provenance(&store, 11, 0), Err(ResolveError::IndexOutOfRange));
}

#[test]
fn provenance_with_a_record_missing_is_a_dangling_reference() {
    let mut store = chain();
    store.transactions.remove(&100);
    assert_eq!(run_provenance(&store, 10, 100), Err(ResolveError::DanglingReference));
    store.block_tx_hashes.remove(&10);
    assert_eq!(run_provenance(&store, 10, 101), Err(ResolveError::DanglingReference));
}

#[test]
fn provenance_with_a_large_mining_index() {
    let mut store = Store::default();
    store.add_block(3, u64::MAX, vec![bytes(1)]);
    assert_eq!(run_provenance(&store, 3, 7), Err(ResolveError::IndexOutOfRange));
    store.add_block(4, u32::MAX as u64 - 1, vec![bytes(1), bytes(2)]);
    assert_eq!(run_provenance(&store, 4, u32::MAX), Ok(bytes(1)));
}

// ---- ring members ---------------------------------------------------------

#[test]
fn mixin_from_the_coinbase_transaction() {
    let store = chain();
    let mixin = run_mixin(&store, OutputKey::Rct { index: 5 }).unwrap();
    assert_eq!(
        mixin,
        Mixin {
            output_index: 5,
            height: 10,
            public_key: hex_of(&counted(0x50)),
            tx_hash: "c0".repeat(32),
        }
    );
}

#[test]
fn mixin_from_a_listed_transaction() {
    let store = chain();
    let mixin = run_mixin(&store, OutputKey::Rct { index: 8 }).unwrap();
    assert_eq!(mixin.output_index, 8);
    assert_eq!(mixin.height, 10);
    assert_eq!(mixin.public_key, hex_of(&counted(0x80)));
    assert_eq!(mixin.tx_hash, "12".repeat(32));
}

#[test]
fn mixin_in_the_legacy_space_goes_by_amount() {
    let store = chain();
    let mixin = run_mixin(&store, OutputKey::PreRct { amount: 700, amount_index: 5 }).unwrap();
    assert_eq!(mixin.output_index, 5);
    assert_eq!(mixin.public_key, hex_of(&counted(0x70)));
    assert_eq!(mixin.tx_hash, "11".repeat(32));
    assert_eq!(
        run_mixin(&store, OutputKey::PreRct { amount: 701, amount_index: 5 }),
        Err(ResolveError::OutputNotFound)
    );
}

#[test]
fn mixin_without_the_output_is_output_not_found() {
    let store = chain();
    assert_eq!(run_mixin(&store, OutputKey::Rct { index: 6 }), Err(ResolveError::OutputNotFound));
    assert_eq!(store.lookups.get(), 1);
    assert_eq!(ResolveError::OutputNotFound.kind(), ErrorKind::NotFound);
}

#[test]
fn mixin_failures_of_the_mapper_come_through() {
    let mut store = chain();
    store.rct_outputs.insert(20, OutputRecord { height: 40, tx_idx: 1, key: bytes(1) });
    store.rct_outputs.insert(21, OutputRecord { height: 10, tx_idx: 107, key: bytes(1) });
    assert_eq!(run_mixin(&store, OutputKey::Rct { index: 20 }), Err(ResolveError::BlockNotFound));
    assert_eq!(run_mixin(&store, OutputKey::Rct { index: 21 }), Err(ResolveError::IndexOutOfRange));
}

#[test]
fn mixin_takes_three_lookups() {
    let store = chain();
    run_mixin(&store, OutputKey::Rct { index: 8 }).unwrap();
    assert_eq!(store.lookups.get(), 3);
}

#[test]
fn an_answer_to_another_lookup_is_refused() {
    let resolver = MixinResolver::start(OutputKey::Rct { index: 5 });
    assert_eq!(resolver.query(), Query::Output { key: OutputKey::Rct { index: 5 } });
    assert_eq!(
        resolver.step(Answer::BlockInfo(None)),
        MixinStep::Fail(ResolveError::UnexpectedAnswer)
    );
    let mapper = ProvenanceMapper::start(1, 1);
    assert_eq!(
        mapper.step(Answer::TxHash(Some(bytes(3)))),
        ProvenanceStep::Fail(ResolveError::UnexpectedAnswer)
    );
    match TxResolver::start(&"ab".repeat(32)) {
        TxStep::Ask(resolver) => assert_eq!(
            resolver.step(Answer::Output(None)),
            TxStep::Fail(ResolveError::UnexpectedAnswer)
        ),
        other => panic!("{:?}", other),
    }
    match BlockResolver::start("5") {
        BlockStep::Ask(resolver) => assert_eq!(
            resolver.step(Answer::TxId(Some(1))),
            BlockStep::Fail(ResolveError::UnexpectedAnswer)
        ),
        other => panic!("{:?}", other),
    }
}

#[test]
fn make_mixin_writes_lower_case_hex() {
    let record = OutputRecord { height: 77, tx_idx: 3, key: counted(0xf0) };
    let mixin = make_mixin(OutputKey::PreRct { amount: 9, amount_index: 44 }, &record, &bytes(0xAB));
    assert_eq!(mixin.output_index, 44);
    assert_eq!(mixin.height, 77);
    assert_eq!(mixin.public_key, "f0f1f2f3f4f5f6f7f8f9fafbfcfdfeff000102030405060708090a0b0c0d0e0f");
    assert_eq!(mixin.tx_hash, "ab".repeat(32));
    assert_eq!(mixin.tx_hash.len(), 64);
}

// ---- formats and keys -----------------------------------------------------

#[test]
fn format_of_a_version() {
    assert_eq!(TxFormat::from_version(1), Ok(TxFormat::LegacyPrefix));
    assert_eq!(TxFormat::from_version(2), Ok(TxFormat::RingCtPrefix));
    assert_eq!(TxFormat::from_version(0), Err(ResolveError::UnknownFormat));
    assert_eq!(TxFormat::from_version(3), Err(ResolveError::UnknownFormat));
    assert_eq!(TxFormat::from_version(255), Err(ResolveError::UnknownFormat));
}

#[test]
fn address_space_of_a_format() {
    assert_eq!(TxFormat::LegacyPrefix.address_space(), AddressSpace::LegacyOutputSpace);
    assert_eq!(TxFormat::RingCtPrefix.address_space(), AddressSpace::GlobalOutputSpace);
    assert_eq!(
        AddressSpace::LegacyOutputSpace.key(700, 5),
        OutputKey::PreRct { amount: 700, amount_index: 5 }
    );
    assert_eq!(AddressSpace::GlobalOutputSpace.key(700, 5), OutputKey::Rct { index: 5 });
    assert_eq!(OutputKey::PreRct { amount: 700, amount_index: 5 }.absolute_index(), 5);
    assert_eq!(OutputKey::Rct { index: 9 }.absolute_index(), 9);
}

#[test]
fn output_target_gives_the_key_without_the_tag() {
    assert_eq!(OutputTarget::Key { key: bytes(4) }.public_key(), bytes(4));
    assert_eq!(OutputTarget::TaggedKey { key: bytes(4), view_tag: 9 }.public_key(), bytes(4));
}

#[test]
fn input_keys_follow_the_offsets() {
    let ring = input(700, 1, &[5, 0, 3]);
    assert_eq!(
        input_keys(AddressSpace::GlobalOutputSpace, &ring),
        Ok(vec![
            OutputKey::Rct { index: 5 },
            OutputKey::Rct { index: 5 },
            OutputKey::Rct { index: 8 },
        ])
    );
    assert_eq!(
        input_keys(AddressSpace::LegacyOutputSpace, &ring),
        Ok(vec![
            OutputKey::PreRct { amount: 700, amount_index: 5 },
            OutputKey::PreRct { amount: 700, amount_index: 5 },
            OutputKey::PreRct { amount: 700, amount_index: 8 },
        ])
    );
    assert_eq!(
        input_keys(AddressSpace::GlobalOutputSpace, &input(0, 1, &[u64::MAX, 1])),
        Err(ResolveError::ArithmeticOverflow)
    );
}

#[test]
fn plan_rings_has_a_row_for_each_input() {
    let tx = spend(bytes(1), 1, vec![input(700, 1, &[5, 1]), input(3, 2, &[]), input(9, 3, &[2])]);
    assert_eq!(
        plan_rings(&tx),
        Ok(vec![
            vec![
                OutputKey::PreRct { amount: 700, amount_index: 5 },
                OutputKey::PreRct { amount: 700, amount_index: 6 },
            ],
            vec![],
            vec![OutputKey::PreRct { amount: 9, amount_index: 2 }],
        ])
    );
    assert_eq!(plan_rings(&coinbase(bytes(1), 2)), Ok(vec![]));
}

#[test]
fn plan_rings_failures() {
    let tx = spend(bytes(1), 7, vec![input(700, 1, &[u64::MAX, 1])]);
    assert_eq!(plan_rings(&tx), Err(ResolveError::UnknownFormat));
    let tx = spend(bytes(1), 2, vec![input(0, 1, &[1]), input(0, 2, &[u64::MAX, 1])]);
    assert_eq!(plan_rings(&tx), Err(ResolveError::ArithmeticOverflow));
}

// ---- transactions ---------------------------------------------------------

#[test]
fn transaction_view_in_full() {
    let store = chain();
    let view = run_transaction(&store, &"14".repeat(32)).unwrap();
    assert_eq!(view.hash, "14".repeat(32));
    assert_eq!(view.version, 2);
    assert_eq!(view.unlock_time, 0);
    assert!(!view.is_coinbase);
    assert_eq!(view.confirmation_height, 11);
    assert_eq!(view.timestamp, 1_400_000_000 + 11 * 120);
    assert_eq!(view.weight, 1500);
    assert_eq!(view.extra, "01abff");
    assert_eq!(view.outputs.len(), 2);
    assert_eq!(view.outputs[0].amount, 0);
    assert_eq!(view.outputs[0].public_key, hex_of(&counted(0x10)));
    assert_eq!(view.outputs[1].public_key, hex_of(&counted(0x20)));
    assert_eq!(view.inputs.len(), 3);
    assert_eq!(view.inputs[0].amount, 0);
    assert_eq!(view.inputs[0].key_image, "e1".repeat(32));
    assert_eq!(view.inputs[1].key_image, "e2".repeat(32));
    assert_eq!(view.inputs[2].key_image, "e3".repeat(32));
    assert_eq!(view.inputs[0].mixins.len(), 3);
    assert_eq!(view.inputs[1].mixins.len(), 0);
    assert_eq!(view.inputs[2].mixins.len(), 2);
}

#[test]
fn transaction_rings_keep_the_order_of_the_offsets() {
    let store = chain();
    let view = run_transaction(&store, &"14".repeat(32)).unwrap();
    let indices: Vec<Vec<u64>> = view
        .inputs
        .iter()
        .map(|i| i.mixins.iter().map(|m| m.output_index).collect())
        .collect();
    assert_eq!(indices, vec![vec![5, 5, 8], vec![], vec![8, 9]]);
    let third = &view.inputs[2].mixins;
    assert_eq!(third[0].tx_hash, "12".repeat(32));
    assert_eq!(third[1].tx_hash, "14".repeat(32));
    assert_eq!(third[1].height, 11);
}

#[test]
fn transaction_zero_offset_names_the_same_output_twice() {
    let store = chain();
    let view = run_transaction(&store, &"14".repeat(32)).unwrap();
    let ring = &view.inputs[0].mixins;
    assert_eq!(ring[0], ring[1]);
    assert_eq!(ring[0].public_key, hex_of(&counted(0x50)));
    assert_eq!(ring[0].tx_hash, "c0".repeat(32));
    assert_eq!(ring[2].public_key, hex_of(&counted(0x80)));
}

#[test]
fn transaction_in_the_legacy_format_looks_up_by_amount() {
    let mut store = chain();
    store.add_transaction(105, 11, spend(bytes(0x15), 1, vec![input(700, 0xe4, &[5, 1])]));
    let view = run_transaction(&store, &"15".repeat(32)).unwrap();
    assert_eq!(view.version, 1);
    assert_eq!(view.inputs[0].amount, 700);
    let ring = &view.inputs[0].mixins;
    assert_eq!(ring.len(), 2);
    assert_eq!(ring[0].public_key, hex_of(&counted(0x70)));
    assert_eq!(ring[0].tx_hash, "11".repeat(32));
    assert_eq!(ring[1].public_key, hex_of(&counted(0x71)));
    assert_eq!(ring[1].tx_hash, "c1".repeat(32));
    assert_eq!(ring[1].height, 11);
}

#[test]
fn transaction_without_inputs_is_coinbase() {
    let store = chain();
    let view = run_transaction(&store, &"c0".repeat(32)).unwrap();
    assert!(view.is_coinbase);
    assert!(view.inputs.is_empty());
    assert_eq!(view.confirmation_height, 10);
    assert_eq!(view.unlock_time, 60);
    assert_eq!(view.outputs[0].amount, 17_000_000);
    assert_eq!(view.outputs[0].public_key, "a0".repeat(32));
}

#[test]
fn transaction_with_an_input_is_not_coinbase() {
    let mut store = chain();
    store.add_transaction(106, 11, spend(bytes(0x16), 2, vec![input(0, 1, &[])]));
    let view = run_transaction(&store, &"16".repeat(32)).unwrap();
    assert!(!view.is_coinbase);
    assert_eq!(view.inputs.len(), 1);
}

#[test]
fn transaction_token_in_upper_case_gives_lower_case_back() {
    let store = chain();
    let view = run_transaction(&store, &"C0".repeat(32)).unwrap();
    assert_eq!(view.hash, "c0".repeat(32));
}

#[test]
fn transaction_malformed_hash_never_reaches_the_store() {
    let store = chain();
    for token in ["", "14", &"14".repeat(31), &"14".repeat(33), &"1g".repeat(32), &"14 ".repeat(21)] {
        assert_eq!(run_transaction(&store, token), Err(ResolveError::InvalidTxHash));
    }
    assert_eq!(store.lookups.get(), 0);
    assert_eq!(ResolveError::InvalidTxHash.kind(), ErrorKind::MalformedInput);
}

#[test]
fn transaction_absent_hash_is_not_found() {
    let store = chain();
    assert_eq!(run_transaction(&store, &"77".repeat(32)), Err(ResolveError::TransactionNotFound));
    assert_eq!(store.lookups.get(), 1);
    assert_eq!(ResolveError::TransactionNotFound.kind(), ErrorKind::NotFound);
}

#[test]
fn transaction_with_a_record_missing_is_a_dangling_reference() {
    let mut store = chain();
    store.tx_heights.remove(&104);
    assert_eq!(run_transaction(&store, &"14".repeat(32)), Err(ResolveError::DanglingReference));
    let mut store = chain();
    store.block_infos.remove(&11);
    assert_eq!(run_transaction(&store, &"14".repeat(32)), Err(ResolveError::DanglingReference));
    let mut store = chain();
    store.transactions.remove(&104);
    assert_eq!(run_transaction(&store, &"14".repeat(32)), Err(ResolveError::DanglingReference));
}

#[test]
fn transaction_of_an_unknown_format_fails() {
    let mut store = chain();
    store.add_transaction(107, 11, spend(bytes(0x17), 3, vec![input(0, 1, &[5])]));
    assert_eq!(run_transaction(&store, &"17".repeat(32)), Err(ResolveError::UnknownFormat));
}

#[test]
fn transaction_offsets_that_overflow_fail() {
    let mut store = chain();
    store.add_transaction(108, 11, spend(bytes(0x18), 2, vec![input(0, 1, &[5, u64::MAX])]));
    assert_eq!(run_transaction(&store, &"18".repeat(32)), Err(ResolveError::ArithmeticOverflow));
    assert_eq!(ResolveError::ArithmeticOverflow.kind(), ErrorKind::Overflow);
}

#[test]
fn transaction_one_failed_member_fails_the_whole() {
    let mut store = chain();
    store.add_transaction(109, 11, spend(bytes(0x19), 2, vec![input(0, 1, &[5, 1, 2])]));
    assert_eq!(run_transaction(&store, &"19".repeat(32)), Err(ResolveError::OutputNotFound));
}

#[test]
fn assemble_reports_the_first_failure_in_order() {
    let store = chain();
    let pending = find_transaction(&store, &"14".repeat(32)).unwrap();
    let good = |index| run_mixin(&store, OutputKey::Rct { index });
    let results = vec![
        vec![good(5), Err(ResolveError::BlockNotFound), good(8)],
        vec![],
        vec![Err(ResolveError::OutputNotFound), good(9)],
    ];
    assert_eq!(pending.assemble(results), Err(ResolveError::BlockNotFound));
    let pending = find_transaction(&store, &"14".repeat(32)).unwrap();
    let results = vec![
        vec![good(5), good(5), good(8)],
        vec![],
        vec![good(8), Err(ResolveError::IndexOutOfRange)],
    ];
    assert_eq!(pending.assemble(results), Err(ResolveError::IndexOutOfRange));
}

#[test]
fn assemble_refuses_results_of_another_shape() {
    let store = chain();
    let good = |index| run_mixin(&store, OutputKey::Rct { index });
    let pending = find_transaction(&store, &"14".repeat(32)).unwrap();
    assert_eq!(pending.assemble(vec![]), Err(ResolveError::UnexpectedAnswer));
    let pending = find_transaction(&store, &"14".repeat(32)).unwrap();
    let short = vec![vec![good(5), good(5)], vec![], vec![good(8), good(9)]];
    assert_eq!(pending.assemble(short), Err(ResolveError::UnexpectedAnswer));
    let pending = find_transaction(&store, &"14".repeat(32)).unwrap();
    let long = vec![vec![good(5), good(5), good(8)], vec![good(5)], vec![good(8), good(9)]];
    assert_eq!(pending.assemble(long), Err(ResolveError::UnexpectedAnswer));
    // a shape that is wrong counts before any failed member
    let pending = find_transaction(&store, &"14".repeat(32)).unwrap();
    let both = vec![vec![Err(ResolveError::OutputNotFound), good(5), good(8)], vec![], vec![good(8)]];
    assert_eq!(pending.assemble(both), Err(ResolveError::UnexpectedAnswer));
}

#[test]
fn assemble_refuses_members_out_of_order() {
    let store = chain();
    let good = |index| run_mixin(&store, OutputKey::Rct { index });
    let pending = find_transaction(&store, &"14".repeat(32)).unwrap();
    let swapped = vec![vec![good(5), good(8), good(5)], vec![], vec![good(8), good(9)]];
    assert_eq!(pending.assemble(swapped), Err(ResolveError::UnexpectedAnswer));
    let pending = find_transaction(&store, &"14".repeat(32)).unwrap();
    let rows_swapped = vec![vec![good(5), good(5), good(8)], vec![], vec![good(9), good(8)]];
    assert_eq!(pending.assemble(rows_swapped), Err(ResolveError::UnexpectedAnswer));
}

#[test]
fn pending_transaction_names_what_to_resolve() {
    let store = chain();
    let pending = find_transaction(&store, &"14".repeat(32)).unwrap();
    assert_eq!(store.lookups.get(), 4);
    assert_eq!(pending.hash, bytes(0x14));
    assert_eq!(pending.confirmation_height, 11);
    assert_eq!(pending.timestamp, 1_400_000_000 + 11 * 120);
    assert_eq!(
        pending.plan,
        vec![
            vec![
                OutputKey::Rct { index: 5 },
                OutputKey::Rct { index: 5 },
                OutputKey::Rct { index: 8 },
            ],
            vec![],
            vec![OutputKey::Rct { index: 8 }, OutputKey::Rct { index: 9 }],
        ]
    );
}

#[test]
fn transaction_resolver_asks_in_order() {
    let store = chain();
    let mut asked = Vec::new();
    let mut step = TxResolver::start(&"14".repeat(32));
    while let TxStep::Ask(resolver) = step {
        asked.push(resolver.query());
        step = resolver.step(store.lookup(resolver.query()));
    }
    assert_eq!(
        asked,
        vec![
            Query::TxId { hash: bytes(0x14) },
            Query::TxHeight { tx_id: 104 },
            Query::BlockInfo { height: 11 },
            Query::Transaction { tx_id: 104 },
        ]
    );
}

// ---- blocks ---------------------------------------------------------------

#[test]
fn block_view_in_full() {
    let store = chain();
    let view = run_block(&store, "10").unwrap();
    let info = block_info(10, 100);
    assert_eq!(view.hash, hex_of(&info.block_hash));
    assert_eq!(view.timestamp, info.timestamp);
    assert_eq!(view.weight, info.weight);
    assert_eq!(view.cumulative_generated_coins, info.cumulative_generated_coins);
    assert_eq!(view.cumulative_difficulty_low, info.cumulative_difficulty_low);
    assert_eq!(view.cumulative_difficulty_high, info.cumulative_difficulty_high);
    assert_eq!(view.cumulative_rct_outs, info.cumulative_rct_outs);
    assert_eq!(view.long_term_weight, info.long_term_weight);
    assert_eq!(view.transactions.len(), 2);
    assert_eq!(view.transactions[0].hash, "11".repeat(32));
    assert_eq!(view.transactions[0].version, 2);
    assert_eq!(view.transactions[0].weight, 1500);
    assert_eq!(view.transactions[0].extra, "01abff");
    assert_eq!(view.transactions[1].hash, "12".repeat(32));
    assert_eq!(view.transactions[1].version, 1);
}

#[test]
fn block_lists_in_the_order_of_the_chain() {
    let mut store = chain();
    store.add_block(12, 110, vec![bytes(0x14), bytes(0x11), bytes(0xc0), bytes(0x11)]);
    let view = run_block(&store, "12").unwrap();
    let hashes: Vec<&str> = view.transactions.iter().map(|t| t.hash.as_str()).collect();
    assert_eq!(hashes, vec!["14".repeat(32), "11".repeat(32), "c0".repeat(32), "11".repeat(32)]);
    let flags: Vec<bool> = view.transactions.iter().map(|t| t.is_coinbase).collect();
    assert_eq!(flags, vec![false, true, true, true]);
}

#[test]
fn block_genesis_with_a_single_coinbase_transaction() {
    let mut store = Store::default();
    store.add_block(0, 0, vec![bytes(0xc9)]);
    store.add_transaction(0, 0, coinbase(bytes(0xc9), 1));
    let view = run_block(&store, "0").unwrap();
    assert_eq!(view.transactions.len(), 1);
    assert!(view.transactions[0].is_coinbase);
    assert_eq!(view.transactions[0].hash, "c9".repeat(32));
    let tx = run_transaction(&store, &view.transactions[0].hash).unwrap();
    assert!(tx.is_coinbase);
    assert_eq!(tx.inputs.len(), 0);
    assert_eq!(tx.confirmation_height, 0);
}

#[test]
fn block_that_lists_nothing() {
    let mut store = Store::default();
    store.add_block(0, 0, vec![]);
    let view = run_block(&store, "0").unwrap();
    assert!(view.transactions.is_empty());
    assert_eq!(store.lookups.get(), 2);
}

#[test]
fn block_beyond_the_tip_is_not_found() {
    let store = chain();
    assert_eq!(run_block(&store, "12"), Err(ResolveError::BlockNotFound));
    assert_eq!(run_block(&store, "18446744073709551615"), Err(ResolveError::BlockNotFound));
    assert_eq!(run_block(&store, "0"), Err(ResolveError::BlockNotFound));
    assert_eq!(ResolveError::BlockNotFound.kind(), ErrorKind::NotFound);
}

#[test]
fn block_malformed_height_never_reaches_the_store() {
    let store = chain();
    for token in ["", "ten", "-1", "1e3", "10 ", "18446744073709551616"] {
        assert_eq!(run_block(&store, token), Err(ResolveError::InvalidHeight));
    }
    assert_eq!(store.lookups.get(), 0);
    assert_eq!(ResolveError::InvalidHeight.kind(), ErrorKind::MalformedInput);
}

#[test]
fn block_with_a_record_missing_is_a_dangling_reference() {
    let mut store = chain();
    store.block_tx_hashes.remove(&10);
    assert_eq!(run_block(&store, "10"), Err(ResolveError::DanglingReference));
    let mut store = chain();
    store.tx_ids.remove(&bytes(0x12));
    assert_eq!(run_block(&store, "10"), Err(ResolveError::DanglingReference));
    let mut store = chain();
    store.transactions.remove(&101);
    assert_eq!(run_block(&store, "10"), Err(ResolveError::DanglingReference));
}

#[test]
fn block_resolver_asks_in_order() {
    let store = chain();
    let mut asked = Vec::new();
    let mut step = BlockResolver::start("+010");
    while let BlockStep::Ask(resolver) = step {
        let query = resolver.query();
        asked.push(query);
        step = resolver.step(store.lookup(query));
    }
    assert_eq!(
        asked,
        vec![
            Query::BlockInfo { height: 10 },
            Query::BlockTxHashes { height: 10 },
            Query::TxId { hash: bytes(0x11) },
            Query::Transaction { tx_id: 101 },
            Query::TxId { hash: bytes(0x12) },
            Query::Transaction { tx_id: 102 },
        ]
    );
}

#[test]
fn block_then_each_listed_transaction_gives_the_listed_hash() {
    let store = chain();
    for height in ["10", "11"] {
        let block = run_block(&store, height).unwrap();
        assert!(!block.transactions.is_empty());
        for listed in &block.transactions {
            let view = run_transaction(&store, &listed.hash).unwrap();
            assert_eq!(view.hash, listed.hash);
            assert_eq!(view.version, listed.version);
            assert_eq!(view.is_coinbase, listed.is_coinbase);
            assert_eq!(view.weight, listed.weight);
            assert_eq!(view.extra, listed.extra);
        }
    }
}

// ---- the resolvers run by the library -------------------------------------

/// A store that fails with the number of the lookup on which it gives up.
fn failing_after<'a>(
    store: &'a Store,
    limit: usize,
) -> impl Fn(Query) -> Result<Answer, usize> + 'a {
    move |query| {
        if store.lookups.get() >= limit {
            Err(store.lookups.get())
        } else {
            Ok(store.lookup(query))
        }
    }
}

fn reliable<'a>(store: &'a Store) -> impl Fn(Query) -> Result<Answer, usize> + 'a {
    failing_after(store, usize::MAX)
}

#[test]
fn resolve_mixin_agrees_with_the_steps() {
    let store = chain();
    for key in [
        OutputKey::Rct { index: 5 },
        OutputKey::Rct { index: 8 },
        OutputKey::Rct { index: 9 },
        OutputKey::Rct { index: 6 },
        OutputKey::PreRct { amount: 700, amount_index: 5 },
        OutputKey::PreRct { amount: 700, amount_index: 6 },
        OutputKey::PreRct { amount: 1, amount_index: 5 },
    ] {
        assert_eq!(resolve_mixin(key, &reliable(&store)), Ok(run_mixin(&store, key)));
    }
}

#[test]
fn resolve_mixin_hands_a_failure_of_the_store_through() {
    let store = chain();
    assert_eq!(resolve_mixin(OutputKey::Rct { index: 8 }, &failing_after(&store, 2)), Err(2));
    let store = chain();
    assert_eq!(resolve_mixin(OutputKey::Rct { index: 8 }, &failing_after(&store, 0)), Err(0));
    let store = chain();
    assert!(resolve_mixin(OutputKey::Rct { index: 8 }, &failing_after(&store, 3)).is_ok());
}

#[test]
fn resolve_ring_gives_the_members_in_order() {
    let store = chain();
    let keys = vec![OutputKey::Rct { index: 8 }, OutputKey::Rct { index: 5 }, OutputKey::Rct { index: 8 }];
    let ring = resolve_ring(&keys, &reliable(&store)).unwrap().unwrap();
    let indices: Vec<u64> = ring.iter().map(|m| m.as_ref().unwrap().output_index).collect();
    assert_eq!(indices, vec![8, 5, 8]);
    assert_eq!(ring[1], run_mixin(&store, OutputKey::Rct { index: 5 }));
    assert_eq!(resolve_ring(&vec![], &reliable(&store)), Ok(Ok(vec![])));
}

#[test]
fn resolve_ring_stops_at_the_first_failure() {
    let store = chain();
    let keys = vec![
        OutputKey::Rct { index: 5 },
        OutputKey::Rct { index: 6 },
        OutputKey::Rct { index: 8 },
    ];
    assert_eq!(resolve_ring(&keys, &reliable(&store)), Ok(Err(ResolveError::OutputNotFound)));
    // three lookups for the first member, one for the second, none after
    assert_eq!(store.lookups.get(), 4);
}

#[test]
fn resolve_transaction_agrees_with_the_steps() {
    let mut store = chain();
    store.add_transaction(105, 11, spend(bytes(0x15), 1, vec![input(700, 0xe4, &[5, 1])]));
    store.add_transaction(109, 11, spend(bytes(0x19), 2, vec![input(0, 1, &[5, 1, 2])]));
    store.add_transaction(107, 11, spend(bytes(0x17), 3, vec![input(0, 1, &[5])]));
    for token in [
        "14".repeat(32),
        "15".repeat(32),
        "19".repeat(32),
        "17".repeat(32),
        "c0".repeat(32),
        "C1".repeat(32),
        "77".repeat(32),
        "7".repeat(63),
        String::new(),
    ] {
        assert_eq!(
            resolve_transaction(&token, &reliable(&store)),
            Ok(run_transaction(&store, &token)),
            "{:?}",
            token
        );
    }
}

#[test]
fn resolve_transaction_in_full() {
    let store = chain();
    let view = resolve_transaction(&"14".repeat(32), &reliable(&store)).unwrap().unwrap();
    assert_eq!(view.hash, "14".repeat(32));
    assert_eq!(view.confirmation_height, 11);
    assert_eq!(view.inputs.len(), 3);
    let indices: Vec<Vec<u64>> = view
        .inputs
        .iter()
        .map(|i| i.mixins.iter().map(|m| m.output_index).collect())
        .collect();
    assert_eq!(indices, vec![vec![5, 5, 8], vec![], vec![8, 9]]);
    // four lookups to find it, three for each of five ring members
    assert_eq!(store.lookups.get(), 4 + 3 * 5);
}

#[test]
fn resolve_transaction_malformed_hash_never_reaches_the_store() {
    let store = chain();
    let never = failing_after(&store, 0);
    assert_eq!(resolve_transaction("not a hash", &never), Ok(Err(ResolveError::InvalidTxHash)));
    assert_eq!(
        resolve_transaction(&"14".repeat(33), &never),
        Ok(Err(ResolveError::InvalidTxHash))
    );
    assert_eq!(find_with("", &never).map(|r| r.map(|_| ())), Ok(Err(ResolveError::InvalidTxHash)));
    assert_eq!(resolve_transaction(&"14".repeat(32), &never), Err(0));
    assert_eq!(store.lookups.get(), 0);
}

#[test]
fn resolve_transaction_hands_a_failure_of_the_store_through() {
    for limit in 0..19 {
        let store = chain();
        assert_eq!(
            resolve_transaction(&"14".repeat(32), &failing_after(&store, limit)),
            Err(limit)
        );
    }
    let store = chain();
    assert!(resolve_transaction(&"14".repeat(32), &failing_after(&store, 19)).is_ok());
}

#[test]
fn find_transaction_gives_the_plan() {
    let store = chain();
    let pending = find_with(&"14".repeat(32), &reliable(&store)).unwrap().unwrap();
    assert_eq!(pending, find_transaction(&store, &"14".repeat(32)).unwrap());
    assert_eq!(pending.plan.len(), 3);
    assert_eq!(
        find_with(&"77".repeat(32), &reliable(&store)).map(|r| r.map(|_| ())),
        Ok(Err(ResolveError::TransactionNotFound))
    );
}

#[test]
fn resolve_block_agrees_with_the_steps() {
    let mut store = chain();
    store.add_block(12, 110, vec![bytes(0x14), bytes(0x11), bytes(0xc0)]);
    store.add_block(13, 120, vec![bytes(0x99)]);
    for token in ["10", "11", "12", "13", "14", "+10", "0010", "", "x", "-10", "18446744073709551616"] {
        assert_eq!(
            resolve_block(token, &reliable(&store)),
            Ok(run_block(&store, token)),
            "{:?}",
            token
        );
    }
}

#[test]
fn resolve_block_genesis_with_a_single_coinbase_transaction() {
    let mut store = Store::default();
    store.add_block(0, 0, vec![bytes(0xc9)]);
    store.add_transaction(0, 0, coinbase(bytes(0xc9), 1));
    let view = resolve_block("0", &reliable(&store)).unwrap().unwrap();
    assert_eq!(view.transactions.len(), 1);
    assert!(view.transactions[0].is_coinbase);
    let tx = resolve_transaction(&view.transactions[0].hash, &reliable(&store)).unwrap().unwrap();
    assert!(tx.is_coinbase);
    assert!(tx.inputs.is_empty());
}

#[test]
fn resolve_block_beyond_the_tip_is_not_found() {
    let store = chain();
    assert_eq!(resolve_block("12", &reliable(&store)), Ok(Err(ResolveError::BlockNotFound)));
    assert_eq!(store.lookups.get(), 1);
}

#[test]
fn resolve_block_malformed_height_never_reaches_the_store() {
    let store = chain();
    let never = failing_after(&store, 0);
    for token in ["", "ten", "-1", "1.5", "99999999999999999999"] {
        assert_eq!(resolve_block(token, &never), Ok(Err(ResolveError::InvalidHeight)));
    }
    assert_eq!(resolve_block("10", &never), Err(0));
}

#[test]
fn resolve_block_hands_a_failure_of_the_store_through() {
    for limit in 0..6 {
        let store = chain();
        assert_eq!(resolve_block("10", &failing_after(&store, limit)), Err(limit));
    }
    let store = chain();
    assert!(resolve_block("10", &failing_after(&store, 6)).is_ok());
}

#[test]
fn resolve_block_then_each_listed_transaction_gives_the_listed_hash() {
    let store = chain();
    for height in ["10", "11"] {
        let block = resolve_block(height, &reliable(&store)).unwrap().unwrap();
        for listed in &block.transactions {
            let view = resolve_transaction(&listed.hash, &reliable(&store)).unwrap().unwrap();
            assert_eq!(view.hash, listed.hash);
        }
    }
}
