use blockchain_provider::in_memory::NewCanonicalChain;
use blockchain_provider::provider::BlockchainProvider2;
use blockchain_provider::store::{DurableStore, PersistedBlock};
use blockchain_provider::types::{
    AccountBeforeTx, BlockHashOrNumber, BlockNumberOrTag, BlockSource, ChainSpec, ExecutedBlock,
    Header, Receipt, SealedBlock, SealedHeader, Transaction,
};

const TXS_PER_BLOCK: u64 = 2;

fn block_hash(number: u64) -> u64 {
    3000 + number
}

fn make_block(number: u64) -> ExecutedBlock {
    let parent_hash = if number == 0 { 0 } else { block_hash(number - 1) };
    let header = Header { number, parent_hash, timestamp: number * 12, difficulty: 0 };
    let sealed = SealedHeader { header, hash: block_hash(number) };
    let mut body: Vec<Transaction> = Vec::new();
    let mut senders: Vec<u64> = Vec::new();
    let mut receipts: Vec<Receipt> = Vec::new();
    for i in 0u64..TXS_PER_BLOCK {
        let g = number * TXS_PER_BLOCK + i;
        body.push(Transaction { hash: 20_000 + g, signer: 600 + g, payload: g });
        senders.push(600 + g);
        receipts.push(Receipt { success: i % 2 == 0, cumulative_gas_used: (i + 1) * 10_000 });
    }
    ExecutedBlock {
        block: SealedBlock {
            header: sealed,
            body,
            ommers: Vec::new(),
            withdrawals: None,
            requests: None,
        },
        senders,
        receipts,
        changed_accounts: vec![AccountBeforeTx { address: number, info: None }],
    }
}

fn setup(n_db: u64, n_total: u64) -> BlockchainProvider2 {
    let mut blocks: Vec<PersistedBlock> = Vec::new();
    for n in 0u64..n_db {
        blocks.push(PersistedBlock { block: make_block(n), td: n });
    }
    let store = DurableStore {
        blocks,
        chain_spec: ChainSpec { shanghai_time: None, prague_time: None, paris: None },
        finalized_block_number: None,
        stage_checkpoints: Vec::new(),
        prune_checkpoints: Vec::new(),
    };
    let mut provider = BlockchainProvider2::new(store).unwrap();
    let mut mem: Vec<ExecutedBlock> = Vec::new();
    for n in n_db..n_total {
        mem.push(make_block(n));
    }
    if !mem.is_empty() {
        provider.canonical_in_memory_state.update_chain(NewCanonicalChain::Commit { new: mem });
    }
    provider
}

#[test]
fn find_block_by_hash_sources() {
    let mut provider = setup(3, 6);
    // Canonical and unrestricted lookups find blocks in either source.
    let durable = provider.find_block_by_hash(block_hash(1), BlockSource::Canonical).unwrap();
    assert_eq!(durable.unwrap().header, make_block(1).block.header.header);
    let in_memory = provider.find_block_by_hash(block_hash(4), BlockSource::Any).unwrap();
    assert_eq!(in_memory.unwrap().header, make_block(4).block.header.header);
    assert_eq!(provider.find_block_by_hash(777, BlockSource::Any).unwrap(), None);
    // A pending-only lookup reports the tracked pending block.
    assert_eq!(provider.find_block_by_hash(777, BlockSource::Pending).unwrap(), None);
    provider.canonical_in_memory_state.set_pending_block(Some(make_block(6)));
    let pending = provider.find_block_by_hash(777, BlockSource::Pending).unwrap().unwrap();
    assert_eq!(pending.header, make_block(6).block.header.header);
    assert_eq!(
        provider.pending_block_with_senders().unwrap().unwrap().senders,
        make_block(6).senders
    );
}

#[test]
fn block_lookup_misses_are_empty_results() {
    let provider = setup(3, 6);
    assert_eq!(provider.block(BlockHashOrNumber::Hash(777)).unwrap(), None);
    assert_eq!(provider.block(BlockHashOrNumber::Number(42)).unwrap(), None);
    assert_eq!(provider.header(&777).unwrap(), None);
    assert_eq!(provider.header_by_number(42).unwrap(), None);
    assert_eq!(provider.sealed_header(42).unwrap(), None);
    assert_eq!(provider.block_hash(42).unwrap(), None);
    assert_eq!(provider.block_number(777).unwrap(), None);
    assert_eq!(provider.transactions_by_block(BlockHashOrNumber::Number(42)).unwrap(), None);
}

#[test]
fn convert_hash_or_number_passes_numbers_through() {
    let provider = setup(3, 6);
    assert_eq!(
        provider.convert_hash_or_number(BlockHashOrNumber::Number(42)).unwrap(),
        Some(42)
    );
    assert_eq!(
        provider.convert_hash_or_number(BlockHashOrNumber::Hash(block_hash(4))).unwrap(),
        Some(4)
    );
    assert_eq!(provider.convert_hash_or_number(BlockHashOrNumber::Hash(777)).unwrap(), None);
}

#[test]
fn block_state_by_tx_id_resolves_across_the_threshold() {
    // 3 persisted blocks of 2 transactions: global numbers 0..=5 are
    // durable, 6..=11 in memory.
    let provider = setup(3, 6);
    assert_eq!(provider.block_state_by_tx_id(5), Some((2, 1)));
    assert_eq!(provider.block_state_by_tx_id(6), Some((3, 0)));
    assert_eq!(provider.block_state_by_tx_id(11), Some((5, 1)));
    assert_eq!(provider.block_state_by_tx_id(12), None);
}

#[test]
fn tag_lookups_with_pending_block() {
    let mut provider = setup(3, 6);
    assert_eq!(provider.header_by_number_or_tag(BlockNumberOrTag::Pending).unwrap(), None);
    provider.canonical_in_memory_state.set_pending_block(Some(make_block(6)));
    assert_eq!(
        provider.header_by_number_or_tag(BlockNumberOrTag::Pending).unwrap(),
        Some(make_block(6).block.header.header)
    );
    assert_eq!(
        provider.sealed_header_by_number_or_tag(BlockNumberOrTag::Pending).unwrap(),
        Some(make_block(6).block.header)
    );
    assert_eq!(
        provider.block_by_number_or_tag(BlockNumberOrTag::Number(2)).unwrap().unwrap().header,
        make_block(2).block.header.header
    );
    assert_eq!(provider.block_by_number_or_tag(BlockNumberOrTag::Finalized).unwrap(), None);
}

#[test]
fn overlay_state_is_observable_through_the_getter() {
    let provider = setup(3, 6);
    let overlay = provider.canonical_in_memory_state();
    assert_eq!(overlay.chain.len(), 3);
    assert_eq!(overlay.chain[0].block.header.header.number, 3);
    assert_eq!(overlay.head, make_block(2).block.header);
    assert!(overlay.pending.is_none());
}

#[test]
fn sealed_headers_while_can_reject_immediately() {
    let provider = setup(3, 6);
    let none = provider
        .sealed_headers_while(0, 5, |_header: &SealedHeader| false)
        .unwrap();
    assert_eq!(none, Vec::new());
    let all = provider
        .sealed_headers_while(0, 5, |_header: &SealedHeader| true)
        .unwrap();
    assert_eq!(all.len(), 6);
}

#[test]
fn ranges_on_a_purely_durable_chain() {
    let provider = setup(4, 4);
    let headers = provider.headers_range(1, 9).unwrap();
    assert_eq!(headers.len(), 3);
    assert_eq!(headers[0].number, 1);
    assert_eq!(headers[2].number, 3);
    assert_eq!(provider.best_block_number().unwrap(), 3);
    assert_eq!(provider.last_block_number().unwrap(), 3);
}
