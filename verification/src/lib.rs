//! Read-path data access for a blockchain execution client: one query
//! surface over an append-only durable store of persisted blocks and an
//! in-memory, reorg-able overlay holding the blocks above the persisted
//! boundary. Query resolution is proved identical regardless of which source
//! holds the data, including ranges that straddle the boundary, and callers
//! observe one globally contiguous, strictly increasing transaction
//! numbering reconstructed on the fly for in-memory blocks.
//!
//! Every operation takes the provider by reference, so each one observes a
//! single consistent state: the overlay is replaced atomically, by value. A
//! deployment that shares the overlay between threads reintroduces the
//! window in which a multi-step scan can see an update mid-way; the
//! contracts here describe what every scan returns for the state it
//! observes.

pub mod blocks;
pub mod ext;
pub mod in_memory;
pub mod laws;
pub mod provider;
pub mod queries;
pub mod receipts;
pub mod ranges;
pub mod state;
pub mod store;
pub mod txs;
pub mod types;
