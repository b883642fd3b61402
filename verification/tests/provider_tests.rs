use blockchain_provider::in_memory::CanonStateNotification;
use blockchain_provider::in_memory::NewCanonicalChain;
use blockchain_provider::provider::BlockchainProvider2;
use blockchain_provider::store::{DurableStore, PersistedBlock};
use blockchain_provider::types::{
    AccountBeforeTx, BlockHashOrNumber, BlockNumHash, ChainSpec, ExecutedBlock, Header, Receipt,
    SealedBlock, SealedHeader, Transaction, Withdrawal,
};

const TXS_PER_BLOCK: u64 = 3;

fn block_hash(number: u64) -> u64 {
    1000 + number
}

fn default_spec() -> ChainSpec {
    ChainSpec { shanghai_time: Some(0), prague_time: None, paris: None }
}

fn make_block(number: u64) -> ExecutedBlock {
    let parent_hash = if number == 0 { 0 } else { block_hash(number - 1) };
    let header = Header { number, parent_hash, timestamp: number * 12, difficulty: 0 };
    let sealed = SealedHeader { header, hash: block_hash(number) };
    let mut body: Vec<Transaction> = Vec::new();
    let mut senders: Vec<u64> = Vec::new();
    let mut receipts: Vec<Receipt> = Vec::new();
    for i in 0u64..TXS_PER_BLOCK {
        let g = number * TXS_PER_BLOCK + i;
        body.push(Transaction { hash: 10_000 + g, signer: 500 + g, payload: g });
        senders.push(500 + g);
        receipts.push(Receipt { success: true, cumulative_gas_used: (i + 1) * 21_000 });
    }
    ExecutedBlock {
        block: SealedBlock {
            header: sealed,
            body,
            ommers: Vec::new(),
            withdrawals: Some(vec![Withdrawal { index: number, address: 7, amount: 100 + number }]),
            requests: None,
        },
        senders,
        receipts,
        changed_accounts: vec![AccountBeforeTx { address: number, info: None }],
    }
}

fn store_of(n_blocks: u64, spec: ChainSpec) -> DurableStore {
    let mut blocks: Vec<PersistedBlock> = Vec::new();
    for n in 0u64..n_blocks {
        blocks.push(PersistedBlock { block: make_block(n), td: 0 });
    }
    DurableStore {
        blocks,
        chain_spec: spec,
        finalized_block_number: None,
        stage_checkpoints: Vec::new(),
        prune_checkpoints: Vec::new(),
    }
}

/// A provider with blocks `0..n_db` persisted and `n_db..n_total` held in
/// the in-memory overlay.
fn setup(n_db: u64, n_total: u64) -> BlockchainProvider2 {
    let store = store_of(n_db, default_spec());
    let mut provider = BlockchainProvider2::new(store).unwrap();
    let mut mem: Vec<ExecutedBlock> = Vec::new();
    for n in n_db..n_total {
        mem.push(make_block(n));
    }
    if !mem.is_empty() {
        provider.canonical_in_memory_state.update_chain(NewCanonicalChain::Commit { new: mem });
    }
    provider
}

#[test]
fn test_block_hash_reader() {
    // Blocks 0..=10: the first 5 persisted, the rest committed in memory.
    let provider = setup(5, 11);

    let database_block = make_block(0);
    let in_memory_block = make_block(10);

    assert_eq!(
        provider.block_hash(database_block.block.header.header.number).unwrap(),
        Some(database_block.block.header.hash)
    );
    assert_eq!(
        provider.block_hash(in_memory_block.block.header.header.number).unwrap(),
        Some(in_memory_block.block.header.hash)
    );

    let expected: Vec<u64> = (0u64..11).map(block_hash).collect();
    assert_eq!(provider.canonical_hashes_range(0, 10).unwrap(), expected);
}

#[test]
fn test_header_provider() {
    let provider = setup(5, 11);

    let database_block = make_block(0);
    let in_memory_block = make_block(10);

    assert_eq!(
        provider.header(&database_block.block.header.hash).unwrap(),
        Some(database_block.block.header.header)
    );
    assert_eq!(
        provider.header(&in_memory_block.block.header.hash).unwrap(),
        Some(in_memory_block.block.header.header)
    );

    assert_eq!(
        provider.header_by_number(database_block.block.header.header.number).unwrap(),
        Some(database_block.block.header.header)
    );
    assert_eq!(
        provider.header_by_number(in_memory_block.block.header.header.number).unwrap(),
        Some(in_memory_block.block.header.header)
    );

    assert_eq!(
        provider.header_td_by_number(database_block.block.header.header.number).unwrap(),
        Some(database_block.block.header.header.difficulty)
    );
    assert_eq!(
        provider.header_td_by_number(in_memory_block.block.header.header.number).unwrap(),
        Some(in_memory_block.block.header.header.difficulty)
    );

    let expected_headers: Vec<Header> =
        (0u64..11).map(|n| make_block(n).block.header.header).collect();
    assert_eq!(provider.headers_range(0, 10).unwrap(), expected_headers);

    assert_eq!(
        provider.sealed_header(database_block.block.header.header.number).unwrap(),
        Some(database_block.block.header)
    );
    assert_eq!(
        provider.sealed_header(in_memory_block.block.header.header.number).unwrap(),
        Some(in_memory_block.block.header)
    );

    let expected_sealed: Vec<SealedHeader> =
        (0u64..11).map(|n| make_block(n).block.header).collect();
    assert_eq!(provider.sealed_headers_range(0, 10).unwrap(), expected_sealed);

    let expected_while: Vec<SealedHeader> = expected_sealed
        .iter()
        .cloned()
        .take_while(|header| header.header.number <= 8)
        .collect();
    assert_eq!(
        provider.sealed_headers_while(0, 10, |header: &SealedHeader| header.header.number <= 8)
            .unwrap(),
        expected_while
    );
}

#[test]
fn test_block_num_reader() {
    let provider = {
        let mut p = setup(5, 11);
        p.canonical_in_memory_state.set_canonical_head(make_block(10).block.header);
        p
    };

    let database_block = make_block(0);
    let in_memory_block = make_block(10);

    assert_eq!(provider.best_block_number().unwrap(), 10);
    assert_eq!(provider.last_block_number().unwrap(), 4);

    assert_eq!(
        provider.block_number(database_block.block.header.hash).unwrap(),
        Some(database_block.block.header.header.number)
    );
    assert_eq!(
        provider.block_number(in_memory_block.block.header.hash).unwrap(),
        Some(in_memory_block.block.header.header.number)
    );
}

#[test]
fn headers_range_spanning_boundary_equals_full_chain() {
    // Persist blocks 0..=4, hold 5..=9 in memory, query 0..=10: the tip is
    // 9, so headers 0..=9 come back in order with no gaps.
    let provider = setup(5, 10);
    let headers = provider.headers_range(0, 10).unwrap();
    assert_eq!(headers.len(), 10);
    for (i, h) in headers.iter().enumerate() {
        assert_eq!(h.number, i as u64);
        assert_eq!(*h, make_block(i as u64).block.header.header);
    }
}

#[test]
fn block_range_spanning_boundary_equals_full_chain() {
    let provider = setup(5, 10);
    let blocks = provider.block_range(0, 10).unwrap();
    assert_eq!(blocks.len(), 10);
    for (i, b) in blocks.iter().enumerate() {
        let expected = make_block(i as u64);
        assert_eq!(b.header, expected.block.header.header);
        assert_eq!(b.body, expected.block.body);
        assert_eq!(b.withdrawals, expected.block.withdrawals);
    }
}

#[test]
fn canonical_hashes_range_spanning_boundary_equals_full_chain() {
    let provider = setup(5, 10);
    let hashes = provider.canonical_hashes_range(0, 10).unwrap();
    let expected: Vec<u64> = (0u64..10).map(block_hash).collect();
    assert_eq!(hashes, expected);
}

#[test]
fn ranges_clip_and_empty_cases() {
    let provider = setup(5, 10);
    // Inverted range.
    assert_eq!(provider.headers_range(7, 3).unwrap(), Vec::<Header>::new());
    // Entirely past the tip.
    assert_eq!(provider.headers_range(10, 20).unwrap(), Vec::<Header>::new());
    // Starting inside the overlay.
    let tail = provider.headers_range(7, 20).unwrap();
    assert_eq!(tail.len(), 3);
    assert_eq!(tail[0].number, 7);
    assert_eq!(tail[2].number, 9);
}

#[test]
fn sealed_headers_while_stops_at_rejection_and_looks_no_further() {
    let provider = setup(5, 11);
    let highest_evaluated = std::cell::Cell::new(0u64);
    let headers = provider
        .sealed_headers_while(0, 10, |header: &SealedHeader| {
            if header.header.number > highest_evaluated.get() {
                highest_evaluated.set(header.header.number);
            }
            header.header.number <= 8
        })
        .unwrap();
    assert_eq!(headers.len(), 9);
    assert_eq!(headers.last().unwrap().header.number, 8);
    // The first rejected header is 9; nothing past it was ever evaluated.
    assert_eq!(highest_evaluated.get(), 9);
}

#[test]
fn best_block_number_runs_ahead_of_last_after_commit() {
    // Commit 5 in-memory blocks atop 5 persisted blocks.
    let mut provider = setup(5, 10);
    provider.canonical_in_memory_state.set_canonical_head(make_block(9).block.header);
    assert_eq!(provider.best_block_number().unwrap(), 9);
    assert_eq!(provider.last_block_number().unwrap(), 4);
    let info = provider.chain_info().unwrap();
    assert_eq!(info.best_number, 9);
    assert_eq!(info.best_hash, block_hash(9));
}

#[test]
fn hash_and_number_keyed_lookups_agree() {
    let provider = setup(5, 10);
    for n in 0u64..10 {
        let h = block_hash(n);
        assert_eq!(
            provider.header(&h).unwrap(),
            provider.header_by_number(n).unwrap()
        );
        assert_eq!(
            provider.block(BlockHashOrNumber::Hash(h)).unwrap(),
            provider.block(BlockHashOrNumber::Number(n)).unwrap()
        );
        assert_eq!(
            provider.transactions_by_block(BlockHashOrNumber::Hash(h)).unwrap(),
            provider.transactions_by_block(BlockHashOrNumber::Number(n)).unwrap()
        );
        assert_eq!(
            provider.receipts_by_block(BlockHashOrNumber::Hash(h)).unwrap(),
            provider.receipts_by_block(BlockHashOrNumber::Number(n)).unwrap()
        );
        assert_eq!(provider.block_number(h).unwrap(), Some(n));
        assert_eq!(provider.block_hash(n).unwrap(), Some(h));
    }
}

#[test]
fn canonical_state_changes_are_published() {
    let mut provider = setup(5, 8);
    let mut replacement = make_block(7);
    replacement.block.header.hash = 4242;
    provider.canonical_in_memory_state.update_chain(NewCanonicalChain::Reorg {
        new: vec![replacement],
    });
    assert_eq!(
        provider.subscribe_to_canonical_state(),
        vec![
            CanonStateNotification::Commit { tip: BlockNumHash { number: 7, hash: block_hash(7) } },
            CanonStateNotification::Reorg { tip: BlockNumHash { number: 7, hash: 4242 } },
        ]
    );
}

#[test]
fn reorg_replaces_overlay_tail() {
    let mut provider = setup(5, 10);
    // Replace blocks 8..=9 with a different block 8.
    let mut replacement = make_block(8);
    replacement.block.header.hash = 4242;
    provider.canonical_in_memory_state.update_chain(NewCanonicalChain::Reorg {
        new: vec![replacement.clone()],
    });
    assert_eq!(provider.block_hash(8).unwrap(), Some(4242));
    assert_eq!(provider.block_hash(9).unwrap(), None);
    assert_eq!(provider.block_number(4242).unwrap(), Some(8));
    assert_eq!(provider.block_number(block_hash(9)).unwrap(), None);
}
