use blockchain_provider::in_memory::NewCanonicalChain;
use blockchain_provider::provider::BlockchainProvider2;
use blockchain_provider::store::{
    DurableStore, PersistedBlock, PruneCheckpointEntry, StageCheckpointEntry,
};
use blockchain_provider::types::{
    AccountBeforeTx, BlockHashOrNumber, BlockId, BlockNumberOrTag, ChainSpec, ExecutedBlock,
    Header, ParisInfo, ProviderError, PruneCheckpoint, Receipt, RpcBlockHash, SealedBlock,
    SealedHeader, StageCheckpoint, StateView, StoredBlockBodyIndices, Transaction,
    TransactionNoHash, TransactionVariant, Withdrawal,
};

const TXS_PER_BLOCK: u64 = 3;

fn block_hash(number: u64) -> u64 {
    1000 + number
}

fn tx_hash(global: u64) -> u64 {
    10_000 + global
}

fn make_block(number: u64) -> ExecutedBlock {
    let parent_hash = if number == 0 { 0 } else { block_hash(number - 1) };
    let header = Header { number, parent_hash, timestamp: number * 12, difficulty: 0 };
    let sealed = SealedHeader { header, hash: block_hash(number) };
    let mut body: Vec<Transaction> = Vec::new();
    let mut senders: Vec<u64> = Vec::new();
    let mut receipts: Vec<Receipt> = Vec::new();
    for i in 0u64..TXS_PER_BLOCK {
        let g = number * TXS_PER_BLOCK + i;
        body.push(Transaction { hash: tx_hash(g), signer: 500 + g, payload: g });
        senders.push(500 + g);
        receipts.push(Receipt { success: true, cumulative_gas_used: (i + 1) * 21_000 });
    }
    ExecutedBlock {
        block: SealedBlock {
            header: sealed,
            body,
            ommers: Vec::new(),
            withdrawals: Some(vec![Withdrawal { index: number, address: 7, amount: 100 + number }]),
            requests: Some(vec![number]),
        },
        senders,
        receipts,
        changed_accounts: vec![AccountBeforeTx { address: number, info: None }],
    }
}

fn store_of(n_blocks: u64, spec: ChainSpec) -> DurableStore {
    let mut blocks: Vec<PersistedBlock> = Vec::new();
    for n in 0u64..n_blocks {
        blocks.push(PersistedBlock { block: make_block(n), td: 10 * (n + 1) });
    }
    DurableStore {
        blocks,
        chain_spec: spec,
        finalized_block_number: None,
        stage_checkpoints: Vec::new(),
        prune_checkpoints: Vec::new(),
    }
}

fn full_spec() -> ChainSpec {
    ChainSpec {
        shanghai_time: Some(24),
        prague_time: Some(60),
        paris: Some(ParisInfo { block: 3, final_total_difficulty: 40 }),
    }
}

fn setup_with_spec(n_db: u64, n_total: u64, spec: ChainSpec) -> BlockchainProvider2 {
    let store = store_of(n_db, spec);
    let mut provider = BlockchainProvider2::new(store).unwrap();
    let mut mem: Vec<ExecutedBlock> = Vec::new();
    for n in n_db..n_total {
        mem.push(make_block(n));
    }
    if !mem.is_empty() {
        provider.canonical_in_memory_state.update_chain(NewCanonicalChain::Commit { new: mem });
    }
    provider
}

fn setup(n_db: u64, n_total: u64) -> BlockchainProvider2 {
    setup_with_spec(n_db, n_total, ChainSpec { shanghai_time: Some(0), prague_time: None, paris: None })
}

#[test]
fn transaction_numbering_is_contiguous_across_sources() {
    // 5 persisted and 5 in-memory blocks, 3 transactions each: the
    // transaction at local index i of block n has global number 3n + i.
    let provider = setup(5, 10);
    for n in 0u64..10 {
        let indices = provider.block_body_indices(n).unwrap().unwrap();
        assert_eq!(
            indices,
            StoredBlockBodyIndices { first_tx_num: n * TXS_PER_BLOCK, tx_count: TXS_PER_BLOCK }
        );
        for i in 0u64..TXS_PER_BLOCK {
            let g = indices.first_tx_num + i;
            let tx = provider.transaction_by_id(g).unwrap().unwrap();
            assert_eq!(tx, make_block(n).block.body[i as usize]);
            assert_eq!(provider.transaction_block(g).unwrap(), Some(n));
            assert_eq!(provider.transaction_sender(g).unwrap(), Some(500 + g));
            assert_eq!(
                provider.transaction_by_id_no_hash(g).unwrap(),
                Some(TransactionNoHash { signer: 500 + g, payload: g })
            );
        }
    }
    assert_eq!(provider.block_body_indices(10).unwrap(), None);
    assert_eq!(provider.transaction_by_id(30).unwrap(), None);
}

#[test]
fn transaction_lookup_by_hash() {
    let provider = setup(5, 10);
    // One persisted transaction and one in-memory transaction.
    for g in [4u64, 23u64] {
        let tx = provider.transaction_by_hash(tx_hash(g)).unwrap().unwrap();
        assert_eq!(tx.payload, g);
        assert_eq!(provider.transaction_id(tx_hash(g)).unwrap(), Some(g));
        let (tx2, meta) = provider.transaction_by_hash_with_meta(tx_hash(g)).unwrap().unwrap();
        assert_eq!(tx2, tx);
        assert_eq!(meta.tx_hash, tx_hash(g));
        assert_eq!(meta.block_number, g / TXS_PER_BLOCK);
        assert_eq!(meta.index, g % TXS_PER_BLOCK);
        assert_eq!(meta.block_hash, block_hash(g / TXS_PER_BLOCK));
    }
    assert_eq!(provider.transaction_by_hash(777).unwrap(), None);
    assert_eq!(provider.transaction_id(777).unwrap(), None);
}

#[test]
fn receipts_by_number_and_hash() {
    let provider = setup(5, 10);
    for g in [2u64, 17u64] {
        let receipt = provider.receipt(g).unwrap().unwrap();
        let expected = make_block(g / TXS_PER_BLOCK).receipts[(g % TXS_PER_BLOCK) as usize];
        assert_eq!(receipt, expected);
        assert_eq!(provider.receipt_by_hash(tx_hash(g)).unwrap(), Some(expected));
    }
    assert_eq!(provider.receipt(30).unwrap(), None);
    assert_eq!(provider.receipt_by_hash(777).unwrap(), None);
    assert_eq!(
        provider.receipts_by_block(BlockHashOrNumber::Number(7)).unwrap(),
        Some(make_block(7).receipts)
    );
}

#[test]
fn receipts_by_block_id_honors_require_canonical() {
    let provider = setup(5, 10);
    let known = RpcBlockHash { block_hash: block_hash(6), require_canonical: None };
    assert_eq!(
        provider.receipts_by_block_id(BlockId::Hash(known)).unwrap(),
        Some(make_block(6).receipts)
    );
    let unknown_canonical = RpcBlockHash { block_hash: 777, require_canonical: Some(true) };
    assert_eq!(provider.receipts_by_block_id(BlockId::Hash(unknown_canonical)).unwrap(), None);
    let unknown = RpcBlockHash { block_hash: 777, require_canonical: None };
    assert_eq!(
        provider.receipts_by_block_id(BlockId::Hash(unknown)),
        Err(ProviderError::StateForHashNotFound(777))
    );
    assert_eq!(
        provider.receipts_by_block_id(BlockId::Number(BlockNumberOrTag::Number(3))).unwrap(),
        Some(make_block(3).receipts)
    );
    assert_eq!(
        provider.receipts_by_block_id(BlockId::Number(BlockNumberOrTag::Pending)).unwrap(),
        None
    );
}

#[test]
fn tx_range_queries_answer_from_durable_store() {
    let provider = setup(5, 10);
    // Global numbers 0..=14 are persisted (5 blocks of 3); the span is
    // clipped there even though in-memory blocks continue the numbering.
    let txs = provider.transactions_by_tx_range(4, 100).unwrap();
    assert_eq!(txs.len(), 11);
    assert_eq!(txs[0], TransactionNoHash { signer: 504, payload: 4 });
    let senders = provider.senders_by_tx_range(4, 6).unwrap();
    assert_eq!(senders, vec![504, 505, 506]);
    let receipts = provider.receipts_by_tx_range(0, 2).unwrap();
    assert_eq!(receipts, make_block(0).receipts);
    assert_eq!(provider.transactions_by_tx_range(40, 50).unwrap(), Vec::<TransactionNoHash>::new());
}

#[test]
fn transactions_by_block_range_is_clipped_per_source() {
    let provider = setup(5, 10);
    // Starting below the boundary: the durable store alone answers.
    let persisted = provider.transactions_by_block_range(3, 8).unwrap();
    assert_eq!(persisted.len(), 2);
    assert_eq!(persisted[0], make_block(3).block.body);
    assert_eq!(persisted[1], make_block(4).block.body);
    // Starting in the overlay: clipped to the tip.
    let in_memory = provider.transactions_by_block_range(8, 12).unwrap();
    assert_eq!(in_memory.len(), 2);
    assert_eq!(in_memory[0], make_block(8).block.body);
    assert_eq!(in_memory[1], make_block(9).block.body);
}

#[test]
fn header_td_of_in_memory_block_is_last_persisted_td() {
    let provider = setup(5, 10);
    // Persisted blocks carry tds 10..=50; every in-memory block reports
    // the last persisted total difficulty.
    assert_eq!(provider.header_td_by_number(2).unwrap(), Some(30));
    for n in 5u64..10 {
        assert_eq!(provider.header_td_by_number(n).unwrap(), Some(50));
    }
    assert_eq!(provider.header_td_by_number(10).unwrap(), None);
    assert_eq!(provider.header_td(&block_hash(7)).unwrap(), Some(50));
    assert_eq!(provider.header_td(&777).unwrap(), None);
}

#[test]
fn withdrawals_and_requests_are_fork_gated() {
    let provider = setup_with_spec(5, 10, full_spec());
    // Shanghai activates at timestamp 24 (block 2 onward, 12s slots).
    assert_eq!(
        provider.withdrawals_by_block(BlockHashOrNumber::Number(6), 72).unwrap(),
        make_block(6).block.withdrawals
    );
    assert_eq!(provider.withdrawals_by_block(BlockHashOrNumber::Number(6), 12).unwrap(), None);
    // Prague activates at timestamp 60.
    assert_eq!(
        provider.requests_by_block(BlockHashOrNumber::Number(7), 84).unwrap(),
        Some(vec![7])
    );
    assert_eq!(provider.requests_by_block(BlockHashOrNumber::Number(7), 48).unwrap(), None);
    assert_eq!(provider.withdrawals_by_block(BlockHashOrNumber::Number(42), 72).unwrap(), None);
}

#[test]
fn latest_withdrawal_prefers_in_memory_best_block() {
    let mut provider = setup(5, 10);
    provider.canonical_in_memory_state.set_canonical_head(make_block(9).block.header);
    assert_eq!(
        provider.latest_withdrawal().unwrap(),
        Some(Withdrawal { index: 9, address: 7, amount: 109 })
    );
    let durable_only = setup(5, 5);
    assert_eq!(
        durable_only.latest_withdrawal().unwrap(),
        Some(Withdrawal { index: 4, address: 7, amount: 104 })
    );
}

#[test]
fn ommers_are_empty_past_the_merge() {
    let provider = setup_with_spec(5, 10, full_spec());
    // Block 8 is past the merge block 3: the empty list, by rule.
    assert_eq!(provider.ommers(BlockHashOrNumber::Number(8)).unwrap(), Some(Vec::new()));
    // An unknown hash resolves to nothing.
    assert_eq!(provider.ommers(BlockHashOrNumber::Hash(777)).unwrap(), None);
    // Before the merge the block's own (empty here) ommer list is reported.
    let pre_merge = setup(5, 10);
    assert_eq!(provider.ommers(BlockHashOrNumber::Number(1)).unwrap(), Some(Vec::new()));
    assert_eq!(pre_merge.ommers(BlockHashOrNumber::Number(1)).unwrap(), Some(Vec::new()));
}

#[test]
fn blocks_with_senders_from_both_sources() {
    let provider = setup(5, 10);
    for n in [2u64, 8u64] {
        let expected = make_block(n);
        let b = provider
            .block_with_senders(BlockHashOrNumber::Number(n), TransactionVariant::WithHash)
            .unwrap()
            .unwrap();
        assert_eq!(b.senders, expected.senders);
        assert_eq!(b.block.body, expected.block.body);
        let sealed = provider
            .sealed_block_with_senders(
                BlockHashOrNumber::Hash(block_hash(n)),
                TransactionVariant::WithHash,
            )
            .unwrap()
            .unwrap();
        assert_eq!(sealed.block.header, expected.block.header);
        assert_eq!(sealed.senders, expected.senders);
    }
    let range = provider.block_with_senders_range(3, 7).unwrap();
    assert_eq!(range.len(), 5);
    assert_eq!(range[4].block.header, make_block(7).block.header.header);
    let sealed_range = provider.sealed_block_with_senders_range(3, 7).unwrap();
    assert_eq!(sealed_range[0].block.header, make_block(3).block.header);
}

#[test]
fn state_views_choose_the_right_snapshot() {
    let mut provider = setup(5, 10);
    provider.canonical_in_memory_state.set_canonical_head(make_block(9).block.header);
    // Latest: the overlay holds the head, anchored on the last persisted
    // block.
    assert_eq!(
        provider.latest().unwrap(),
        StateView::InMemory { hash: block_hash(9), anchor_hash: block_hash(4) }
    );
    // Historical by hash: durable for persisted, overlay-anchored for
    // in-memory, error for unknown.
    assert_eq!(
        provider.history_by_block_hash(block_hash(2)).unwrap(),
        StateView::Historical { number: 2 }
    );
    assert_eq!(
        provider.history_by_block_hash(block_hash(7)).unwrap(),
        StateView::InMemory { hash: block_hash(7), anchor_hash: block_hash(4) }
    );
    assert_eq!(
        provider.history_by_block_hash(777),
        Err(ProviderError::StateForHashNotFound(777))
    );
    assert_eq!(
        provider.history_by_block_number(3).unwrap(),
        StateView::Historical { number: 3 }
    );
    assert_eq!(
        provider.history_by_block_number(11),
        Err(ProviderError::HeaderNotFound(BlockHashOrNumber::Number(11)))
    );
    // A provider with an empty overlay resolves latest durably.
    let durable_only = setup(5, 5);
    assert_eq!(durable_only.latest().unwrap(), StateView::LatestDurable);
}

#[test]
fn pending_state_resolution() {
    let mut provider = setup(5, 10);
    provider.canonical_in_memory_state.set_canonical_head(make_block(9).block.header);
    // No pending block: `pending` falls back to latest.
    assert_eq!(
        provider.pending().unwrap(),
        StateView::InMemory { hash: block_hash(9), anchor_hash: block_hash(4) }
    );
    assert_eq!(provider.pending_state_by_hash(block_hash(10)).unwrap(), None);
    // With a pending block tracked.
    provider.canonical_in_memory_state.set_pending_block(Some(make_block(10)));
    assert_eq!(provider.pending().unwrap(), StateView::Pending { hash: block_hash(10) });
    assert_eq!(
        provider.pending_state_by_hash(block_hash(10)).unwrap(),
        Some(StateView::Pending { hash: block_hash(10) })
    );
    assert_eq!(
        provider.state_by_block_hash(block_hash(10)).unwrap(),
        StateView::Pending { hash: block_hash(10) }
    );
    assert_eq!(provider.pending_block().unwrap(), Some(make_block(10).block));
    assert_eq!(
        provider.pending_block_and_receipts().unwrap(),
        Some((make_block(10).block, make_block(10).receipts))
    );
}

#[test]
fn state_by_number_or_tag_dispatches_pointers() {
    let mut provider = setup(5, 10);
    provider.canonical_in_memory_state.set_canonical_head(make_block(9).block.header);
    assert_eq!(
        provider.state_by_block_number_or_tag(BlockNumberOrTag::Finalized),
        Err(ProviderError::FinalizedBlockNotFound)
    );
    assert_eq!(
        provider.state_by_block_number_or_tag(BlockNumberOrTag::Safe),
        Err(ProviderError::SafeBlockNotFound)
    );
    provider.set_finalized(make_block(3).block.header);
    provider.set_safe(make_block(4).block.header);
    assert_eq!(
        provider.state_by_block_number_or_tag(BlockNumberOrTag::Finalized).unwrap(),
        StateView::Historical { number: 3 }
    );
    assert_eq!(
        provider.state_by_block_number_or_tag(BlockNumberOrTag::Safe).unwrap(),
        StateView::Historical { number: 4 }
    );
    assert_eq!(
        provider.state_by_block_number_or_tag(BlockNumberOrTag::Earliest).unwrap(),
        StateView::Historical { number: 0 }
    );
    assert_eq!(
        provider.state_by_block_number_or_tag(BlockNumberOrTag::Number(7)).unwrap(),
        StateView::InMemory { hash: block_hash(7), anchor_hash: block_hash(4) }
    );
    assert_eq!(
        provider.state_by_block_number_or_tag(BlockNumberOrTag::Number(42)),
        Err(ProviderError::HeaderNotFound(BlockHashOrNumber::Number(42)))
    );
}

#[test]
fn header_lookups_by_tag_and_id() {
    let mut provider = setup(5, 10);
    provider.canonical_in_memory_state.set_canonical_head(make_block(9).block.header);
    provider.set_safe(make_block(4).block.header);
    assert_eq!(
        provider.header_by_number_or_tag(BlockNumberOrTag::Latest).unwrap(),
        Some(make_block(9).block.header.header)
    );
    assert_eq!(
        provider.header_by_number_or_tag(BlockNumberOrTag::Safe).unwrap(),
        Some(make_block(4).block.header.header)
    );
    assert_eq!(provider.header_by_number_or_tag(BlockNumberOrTag::Finalized).unwrap(), None);
    assert_eq!(
        provider.sealed_header_by_number_or_tag(BlockNumberOrTag::Earliest).unwrap(),
        Some(make_block(0).block.header)
    );
    assert_eq!(
        provider.sealed_header_by_id(BlockId::Hash(RpcBlockHash {
            block_hash: block_hash(6),
            require_canonical: None,
        }))
        .unwrap(),
        Some(make_block(6).block.header)
    );
    assert_eq!(
        provider.header_by_id(BlockId::Number(BlockNumberOrTag::Number(2))).unwrap(),
        Some(make_block(2).block.header.header)
    );
    let by_id = provider
        .block_by_id(BlockId::Hash(RpcBlockHash {
            block_hash: block_hash(8),
            require_canonical: Some(true),
        }))
        .unwrap()
        .unwrap();
    assert_eq!(by_id.header, make_block(8).block.header.header);
    assert_eq!(
        provider.ommers_by_id(BlockId::Number(BlockNumberOrTag::Number(1))).unwrap(),
        Some(Vec::new())
    );
}

#[test]
fn account_changesets_come_from_the_owning_source() {
    let provider = setup(5, 10);
    assert_eq!(
        provider.account_block_changeset(2).unwrap(),
        vec![AccountBeforeTx { address: 2, info: None }]
    );
    assert_eq!(
        provider.account_block_changeset(8).unwrap(),
        vec![AccountBeforeTx { address: 8, info: None }]
    );
    assert_eq!(provider.account_block_changeset(42).unwrap(), Vec::new());
}

#[test]
fn checkpoints_pass_through() {
    let mut store = store_of(3, ChainSpec { shanghai_time: None, prague_time: None, paris: None });
    store.stage_checkpoints.push(StageCheckpointEntry {
        stage_id: 1,
        checkpoint: StageCheckpoint { block_number: 2 },
        progress: vec![9, 9],
    });
    store.prune_checkpoints.push(PruneCheckpointEntry {
        segment: 4,
        checkpoint: PruneCheckpoint { block_number: Some(1), tx_number: None },
    });
    let provider = BlockchainProvider2::new(store).unwrap();
    assert_eq!(
        provider.get_stage_checkpoint(1).unwrap(),
        Some(StageCheckpoint { block_number: 2 })
    );
    assert_eq!(provider.get_stage_checkpoint(2).unwrap(), None);
    assert_eq!(provider.get_stage_checkpoint_progress(1).unwrap(), Some(vec![9, 9]));
    assert_eq!(
        provider.get_all_checkpoints().unwrap(),
        vec![(1, StageCheckpoint { block_number: 2 })]
    );
    assert_eq!(
        provider.get_prune_checkpoint(4).unwrap(),
        Some(PruneCheckpoint { block_number: Some(1), tx_number: None })
    );
    assert_eq!(provider.get_prune_checkpoint(5).unwrap(), None);
    assert_eq!(provider.get_prune_checkpoints().unwrap().len(), 1);
}

#[test]
fn provider_construction_and_forkchoice_tracking() {
    // An empty store cannot seed the provider.
    let empty = DurableStore {
        blocks: Vec::new(),
        chain_spec: ChainSpec { shanghai_time: None, prague_time: None, paris: None },
        finalized_block_number: None,
        stage_checkpoints: Vec::new(),
        prune_checkpoints: Vec::new(),
    };
    assert_eq!(
        BlockchainProvider2::new(empty).err(),
        Some(ProviderError::HeaderNotFound(BlockHashOrNumber::Number(0)))
    );
    // A recorded finalized number seeds the finalized pointer.
    let mut store = store_of(5, ChainSpec { shanghai_time: None, prague_time: None, paris: None });
    store.finalized_block_number = Some(2);
    let mut provider = BlockchainProvider2::new(store).unwrap();
    assert_eq!(
        provider.finalized_block_num_hash().unwrap().map(|p| p.number),
        Some(2)
    );
    assert_eq!(provider.safe_block_num_hash().unwrap(), None);
    // Fork-choice signal timestamps are tracked.
    assert_eq!(provider.last_received_update_timestamp(), None);
    provider.on_forkchoice_update_received(
        &blockchain_provider::types::ForkchoiceState {
            head_block_hash: block_hash(4),
            safe_block_hash: block_hash(3),
            finalized_block_hash: block_hash(2),
        },
        777,
    );
    assert_eq!(provider.last_received_update_timestamp(), Some(777));
    assert_eq!(provider.last_exchanged_transition_configuration_timestamp(), None);
    provider.on_transition_configuration_exchanged(888);
    assert_eq!(provider.last_exchanged_transition_configuration_timestamp(), Some(888));
    provider.set_canonical_head(make_block(4).block.header);
    assert_eq!(provider.best_block_number().unwrap(), 4);
}

#[test]
fn evm_env_source_resolution() {
    let provider = setup(5, 10);
    let (header, td) = provider.evm_env_source_at(BlockHashOrNumber::Number(7)).unwrap();
    assert_eq!(header, make_block(7).block.header.header);
    assert_eq!(td, 50);
    let (header2, td2) = provider.evm_env_source_at(BlockHashOrNumber::Hash(block_hash(2))).unwrap();
    assert_eq!(header2, make_block(2).block.header.header);
    assert_eq!(td2, 30);
    assert_eq!(
        provider.evm_env_source_at(BlockHashOrNumber::Number(42)),
        Err(ProviderError::HeaderNotFound(BlockHashOrNumber::Number(42)))
    );
}
