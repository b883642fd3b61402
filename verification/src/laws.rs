//! Cross-cutting laws of the query surface, stated and proved over the
//! same model the contracts use.

use vstd::prelude::*;

use crate::provider::BlockchainProvider2;
use crate::types::BlockHashOrNumber;

verus! {

/// For every canonical block and every local index into its body, the
/// transaction at that index carries the global number `first transaction
/// of the block + index`, regardless of which source holds the block:
/// resolving that global number finds exactly that block, that index and
/// that transaction.
pub proof fn lemma_transaction_numbering(p: BlockchainProvider2, n: int, i: int)
    requires
        p.wf(),
        0 <= n < p.chain_count(),
        0 <= i < p.body_at(n).len(),
    ensures
        p.first_tx_of(n) + i < p.total_txs(),
        p.tx_block_of(p.first_tx_of(n) + i) == n,
        p.tx_index_of(p.first_tx_of(n) + i) == i,
        p.tx_at(p.first_tx_of(n) + i) == p.body_at(n)[i],
{
    p.lemma_pos_to_id(n, i);
}

/// Hash-keyed and number-keyed lookups of the same canonical block agree:
/// the block's hash resolves to the block's number, so every query family
/// whose contract goes through that resolution reports identical content
/// for both keys.
pub proof fn lemma_hash_and_number_lookups_agree(p: BlockchainProvider2, n: int)
    requires
        p.wf(),
        0 <= n < p.chain_count(),
    ensures
        p.spec_block_number_by_hash(p.hash_at(n)) == Some(n as u64),
        p.spec_header_by_hash(p.hash_at(n)) == p.spec_header_by_number(n as u64),
        p.spec_resolve_id(BlockHashOrNumber::Hash(p.hash_at(n))) == p.spec_resolve_id(
            BlockHashOrNumber::Number(n as u64),
        ),
        p.spec_resolve_id(BlockHashOrNumber::Number(n as u64)) == Some(n),
{
    p.lemma_hash_unique(n, p.hash_at(n));
}

/// Once in-memory blocks are committed atop the persisted boundary and the
/// head tracks the overlay tip, the best block number runs ahead of the
/// persisted boundary by exactly the overlay's length, while
/// `last_block_number` still reports the boundary alone.
pub proof fn lemma_best_runs_ahead_of_last(p: BlockchainProvider2)
    requires
        p.wf(),
        p.mem_count() > 0,
        p.canonical_in_memory_state.head == p.block_rec(p.chain_count() - 1).block.header,
    ensures
        p.spec_best_block_number() == p.spec_last_block_number() + p.mem_count(),
        p.spec_last_block_number() == p.store_count() - 1,
{
    assert(p.block_rec(p.chain_count() - 1).number() == p.chain_count() - 1);
}

} // verus!
