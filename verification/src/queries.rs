//! Point lookups and chain info: headers, hashes, numbers and total
//! difficulty, each probing the overlay before the durable store.

use vstd::prelude::*;

use crate::in_memory::CanonicalInMemoryState;
use crate::provider::BlockchainProvider2;
use crate::types::{
    BlockHashOrNumber, BlockNumHash, ChainInfo, Header, ProviderError, SealedHeader,
};

verus! {

impl BlockchainProvider2 {
    /// The in-memory canonical state the provider tracks.
    pub fn canonical_in_memory_state(&self) -> (r: &CanonicalInMemoryState)
        ensures
            *r == self.canonical_in_memory_state,
    {
        &self.canonical_in_memory_state
    }

    /// The chain configuration the durable store carries.
    pub fn chain_spec(&self) -> (r: crate::types::ChainSpec)
        ensures
            r == self.database.chain_spec,
    {
        self.database.chain_spec
    }

    /// The best block number callers observe: the tracked canonical head.
    pub open spec fn spec_best_block_number(self) -> u64 {
        self.canonical_in_memory_state.head.header.number
    }

    /// The boundary: the highest persisted block number.
    pub open spec fn spec_last_block_number(self) -> u64 {
        self.database.spec_last_block_number()
    }

    /// The number of the canonical block with hash `h`, if any holds it.
    pub open spec fn spec_block_number_by_hash(self, h: u64) -> Option<u64> {
        if self.has_block_hash(h) {
            Some(self.number_of_hash(h) as u64)
        } else {
            None
        }
    }

    /// The hash of canonical block `n`, if the chain reaches it.
    pub open spec fn spec_block_hash(self, n: u64) -> Option<u64> {
        if n < self.chain_count() {
            Some(self.hash_at(n as int))
        } else {
            None
        }
    }

    pub open spec fn spec_header_by_number(self, n: u64) -> Option<Header> {
        if n < self.chain_count() {
            Some(self.header_at(n as int))
        } else {
            None
        }
    }

    pub open spec fn spec_sealed_header_by_number(self, n: u64) -> Option<SealedHeader> {
        if n < self.chain_count() {
            Some(self.sealed_header_at(n as int))
        } else {
            None
        }
    }

    pub open spec fn spec_header_by_hash(self, h: u64) -> Option<Header> {
        if self.has_block_hash(h) {
            Some(self.header_at(self.number_of_hash(h)))
        } else {
            None
        }
    }

    /// The total difficulty reported for block `n`: the recorded value for
    /// persisted blocks; for in-memory blocks, the last persisted total
    /// difficulty, since every post-merge block has difficulty zero.
    pub open spec fn spec_header_td_by_number(self, n: u64) -> Option<u64> {
        if n < self.store_count() {
            Some(self.database.td_at(n as int))
        } else if n < self.chain_count() {
            Some(self.database.td_at(self.store_count() - 1))
        } else {
            None
        }
    }

    /// An identifier resolved against the canonical chain: the number of
    /// the block it denotes, if the chain holds that block.
    pub open spec fn spec_resolve_id(self, id: BlockHashOrNumber) -> Option<int> {
        match id {
            BlockHashOrNumber::Hash(h) => if self.has_block_hash(h) {
                Some(self.number_of_hash(h))
            } else {
                None
            },
            BlockHashOrNumber::Number(n) => if n < self.chain_count() {
                Some(n as int)
            } else {
                None
            },
        }
    }

    /// A hash-or-number converted to a number without an existence check on
    /// the number side, as hash-keyed queries fall back to it.
    pub open spec fn spec_convert_hash_or_number(self, id: BlockHashOrNumber) -> Option<u64> {
        match id {
            BlockHashOrNumber::Hash(h) => self.spec_block_number_by_hash(h),
            BlockHashOrNumber::Number(n) => Some(n),
        }
    }

    /// Current best number and hash, from the chain-info tracking.
    pub fn chain_info(&self) -> (r: Result<ChainInfo, ProviderError>)
        ensures
            r == Ok::<ChainInfo, ProviderError>(
                ChainInfo {
                    best_hash: self.canonical_in_memory_state.head.hash,
                    best_number: self.canonical_in_memory_state.head.header.number,
                },
            ),
    {
        Ok(self.canonical_in_memory_state.chain_info())
    }

    /// The tracked canonical head's number: in-memory blocks count, so this
    /// runs ahead of `last_block_number` whenever the overlay is non-empty.
    pub fn best_block_number(&self) -> (r: Result<u64, ProviderError>)
        ensures
            r == Ok::<u64, ProviderError>(self.spec_best_block_number()),
    {
        Ok(self.canonical_in_memory_state.get_canonical_block_number())
    }

    /// The highest persisted block number, untouched by overlay commits.
    pub fn last_block_number(&self) -> (r: Result<u64, ProviderError>)
        requires
            self.wf(),
        ensures
            r == Ok::<u64, ProviderError>(self.spec_last_block_number()),
    {
        Ok(self.database.last_block_number())
    }

    /// The number of the block with the given hash, overlay first.
    pub fn block_number(&self, hash: u64) -> (r: Result<Option<u64>, ProviderError>)
        requires
            self.wf(),
        ensures
            r == Ok::<Option<u64>, ProviderError>(self.spec_block_number_by_hash(hash)),
    {
        if let Some(block_state) = self.canonical_in_memory_state.state_by_hash(hash) {
            let num = block_state.block.header.header.number;
            proof {
                let k = choose|k: int|
                    0 <= k < self.mem_count() && (#[trigger] self.canonical_in_memory_state.block_at(
                        k,
                    )).hash() == hash && *block_state == self.canonical_in_memory_state.block_at(k);
                self.lemma_mem_hit_hash(k, hash);
                self.lemma_mem_hit_number(k, num);
            }
            return Ok(Some(num));
        }
        match self.database.index_by_hash(hash) {
            Some(i) => {
                proof {
                    self.lemma_store_hit_hash(i as int, hash);
                }
                Ok(Some(self.database.blocks[i].block.block.header.header.number))
            },
            None => {
                proof {
                    self.lemma_miss_hash(hash);
                }
                Ok(None)
            },
        }
    }

    /// The hash of canonical block `number`, overlay first.
    pub fn block_hash(&self, number: u64) -> (r: Result<Option<u64>, ProviderError>)
        requires
            self.wf(),
        ensures
            r == Ok::<Option<u64>, ProviderError>(self.spec_block_hash(number)),
    {
        if let Some(block_state) = self.canonical_in_memory_state.state_by_number(number) {
            let h = block_state.block.header.hash;
            proof {
                let k = choose|k: int|
                    0 <= k < self.mem_count() && (#[trigger] self.canonical_in_memory_state.block_at(
                        k,
                    )).number() == number && *block_state
                        == self.canonical_in_memory_state.block_at(k);
                self.lemma_mem_hit_number(k, number);
            }
            return Ok(Some(h));
        }
        proof {
            self.lemma_mem_miss_number(number);
        }
        if number < self.database.blocks.len() as u64 {
            let idx = number as usize;
            Ok(Some(self.database.blocks[idx].block.block.header.hash))
        } else {
            Ok(None)
        }
    }

    /// The header of the block with the given hash, overlay first.
    pub fn header(&self, block_hash: &u64) -> (r: Result<Option<Header>, ProviderError>)
        requires
            self.wf(),
        ensures
            r == Ok::<Option<Header>, ProviderError>(self.spec_header_by_hash(*block_hash)),
    {
        let hash = *block_hash;
        if let Some(block_state) = self.canonical_in_memory_state.state_by_hash(hash) {
            let h = block_state.block.header.header;
            proof {
                let k = choose|k: int|
                    0 <= k < self.mem_count() && (#[trigger] self.canonical_in_memory_state.block_at(
                        k,
                    )).hash() == hash && *block_state == self.canonical_in_memory_state.block_at(k);
                self.lemma_mem_hit_hash(k, hash);
            }
            return Ok(Some(h));
        }
        match self.database.index_by_hash(hash) {
            Some(i) => {
                proof {
                    self.lemma_store_hit_hash(i as int, hash);
                }
                Ok(Some(self.database.blocks[i].block.block.header.header))
            },
            None => {
                proof {
                    self.lemma_miss_hash(hash);
                }
                Ok(None)
            },
        }
    }

    /// The header of canonical block `num`, overlay first.
    pub fn header_by_number(&self, num: u64) -> (r: Result<Option<Header>, ProviderError>)
        requires
            self.wf(),
        ensures
            r == Ok::<Option<Header>, ProviderError>(self.spec_header_by_number(num)),
    {
        if let Some(block_state) = self.canonical_in_memory_state.state_by_number(num) {
            let h = block_state.block.header.header;
            proof {
                let k = choose|k: int|
                    0 <= k < self.mem_count() && (#[trigger] self.canonical_in_memory_state.block_at(
                        k,
                    )).number() == num && *block_state == self.canonical_in_memory_state.block_at(
                        k,
                    );
                self.lemma_mem_hit_number(k, num);
            }
            return Ok(Some(h));
        }
        proof {
            self.lemma_mem_miss_number(num);
        }
        if num < self.database.blocks.len() as u64 {
            let idx = num as usize;
            Ok(Some(self.database.blocks[idx].block.block.header.header))
        } else {
            Ok(None)
        }
    }

    /// The sealed header of canonical block `number`, overlay first.
    pub fn sealed_header(&self, number: u64) -> (r: Result<Option<SealedHeader>, ProviderError>)
        requires
            self.wf(),
        ensures
            r == Ok::<Option<SealedHeader>, ProviderError>(
                self.spec_sealed_header_by_number(number),
            ),
    {
        if let Some(block_state) = self.canonical_in_memory_state.state_by_number(number) {
            let h = block_state.block.header;
            proof {
                let k = choose|k: int|
                    0 <= k < self.mem_count() && (#[trigger] self.canonical_in_memory_state.block_at(
                        k,
                    )).number() == number && *block_state
                        == self.canonical_in_memory_state.block_at(k);
                self.lemma_mem_hit_number(k, number);
            }
            return Ok(Some(h));
        }
        proof {
            self.lemma_mem_miss_number(number);
        }
        if number < self.database.blocks.len() as u64 {
            let idx = number as usize;
            Ok(Some(self.database.blocks[idx].block.block.header))
        } else {
            Ok(None)
        }
    }

    /// Total difficulty of the block with the given hash.
    pub fn header_td(&self, hash: &u64) -> (r: Result<Option<u64>, ProviderError>)
        requires
            self.wf(),
        ensures
            r == Ok::<Option<u64>, ProviderError>(
                match self.spec_block_number_by_hash(*hash) {
                    Some(num) => self.spec_header_td_by_number(num),
                    None => None,
                },
            ),
    {
        if let Some(num) = self.block_number(*hash)? {
            self.header_td_by_number(num)
        } else {
            Ok(None)
        }
    }

    /// Total difficulty of canonical block `number`. The durable record
    /// wins where it exists; an in-memory block reuses the last persisted
    /// total difficulty, since the overlay holds only post-merge blocks,
    /// whose difficulty is zero.
    pub fn header_td_by_number(&self, number: u64) -> (r: Result<Option<u64>, ProviderError>)
        requires
            self.wf(),
        ensures
            r == Ok::<Option<u64>, ProviderError>(self.spec_header_td_by_number(number)),
    {
        if number < self.database.blocks.len() as u64 {
            let idx = number as usize;
            return Ok(Some(self.database.blocks[idx].td));
        }
        let in_memory = match self.canonical_in_memory_state.hash_by_number(number) {
            Some(_) => true,
            None => false,
        };
        proof {
            if in_memory {
                let k = choose|k: int|
                    0 <= k < self.mem_count() && (#[trigger] self.canonical_in_memory_state.block_at(
                        k,
                    )).number() == number;
                self.lemma_mem_hit_number(k, number);
            } else {
                self.lemma_mem_miss_number(number);
            }
        }
        if in_memory {
            let last_persisted = self.database.last_block_number();
            let idx = last_persisted as usize;
            Ok(Some(self.database.blocks[idx].td))
        } else {
            Ok(None)
        }
    }

    /// Ensures that the given block number is canonical (already synced):
    /// numbers above the tracked best are rejected as not found, guarding
    /// historical state lookups against out-of-range numbers.
    pub fn ensure_canonical_block(&self, block_number: u64) -> (r: Result<(), ProviderError>)
        ensures
            r == if block_number > self.spec_best_block_number() {
                Err::<(), ProviderError>(
                    ProviderError::HeaderNotFound(BlockHashOrNumber::Number(block_number)),
                )
            } else {
                Ok::<(), ProviderError>(())
            },
    {
        let latest = self.best_block_number()?;
        if block_number > latest {
            Err(ProviderError::HeaderNotFound(BlockHashOrNumber::Number(block_number)))
        } else {
            Ok(())
        }
    }

    /// Pending block number and hash, if a pending block is tracked.
    pub fn pending_block_num_hash(&self) -> (r: Result<Option<BlockNumHash>, ProviderError>)
        ensures
            match self.canonical_in_memory_state.pending {
                Some(b) => r == Ok::<Option<BlockNumHash>, ProviderError>(
                    Some(BlockNumHash { number: b.number(), hash: b.hash() }),
                ),
                None => r == Ok::<Option<BlockNumHash>, ProviderError>(None),
            },
    {
        Ok(self.canonical_in_memory_state.pending_block_num_hash())
    }

    /// Safe block number and hash, if fork choice ever set the pointer.
    pub fn safe_block_num_hash(&self) -> (r: Result<Option<BlockNumHash>, ProviderError>)
        ensures
            match self.canonical_in_memory_state.safe {
                Some(h) => r == Ok::<Option<BlockNumHash>, ProviderError>(
                    Some(BlockNumHash { number: h.header.number, hash: h.hash }),
                ),
                None => r == Ok::<Option<BlockNumHash>, ProviderError>(None),
            },
    {
        Ok(self.canonical_in_memory_state.get_safe_num_hash())
    }

    /// Finalized block number and hash, if fork choice ever set the pointer.
    pub fn finalized_block_num_hash(&self) -> (r: Result<Option<BlockNumHash>, ProviderError>)
        ensures
            match self.canonical_in_memory_state.finalized {
                Some(h) => r == Ok::<Option<BlockNumHash>, ProviderError>(
                    Some(BlockNumHash { number: h.header.number, hash: h.hash }),
                ),
                None => r == Ok::<Option<BlockNumHash>, ProviderError>(None),
            },
    {
        Ok(self.canonical_in_memory_state.get_finalized_num_hash())
    }

    /// A hash-or-number identifier converted to a block number; numbers
    /// pass through unchecked, hashes are looked up.
    pub fn convert_hash_or_number(&self, id: BlockHashOrNumber) -> (r: Result<
        Option<u64>,
        ProviderError,
    >)
        requires
            self.wf(),
        ensures
            r == Ok::<Option<u64>, ProviderError>(self.spec_convert_hash_or_number(id)),
    {
        match id {
            BlockHashOrNumber::Hash(h) => self.block_number(h),
            BlockHashOrNumber::Number(n) => Ok(Some(n)),
        }
    }
}

} // verus!
