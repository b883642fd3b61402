//! The range-merge algorithm: one contiguous, gap-free, ordered sequence
//! per query, spanning both sources for an inclusive number range.

use vstd::prelude::*;

use crate::provider::BlockchainProvider2;
use crate::types::{
    copy_vec, Block, BlockWithSenders, Header, ProviderError, SealedBlockWithSenders, SealedHeader,
    Transaction,
};

verus! {

impl BlockchainProvider2 {
    /// How many blocks an inclusive number range can return: the range is
    /// clipped to the canonical tip, and an inverted range is empty.
    pub open spec fn range_len(self, start: u64, end: u64) -> int {
        if start > end || start >= self.chain_count() {
            0
        } else if end >= self.chain_count() {
            self.chain_count() - start
        } else {
            end - start + 1
        }
    }

    /// Headers for the inclusive range `start..=end`, merged across the
    /// boundary: the durable store contributes the persisted prefix, the
    /// overlay the rest, and the scan stops without error at the first
    /// number neither source holds. The result equals what a fully
    /// materialized chain would return for the clipped range: contiguous,
    /// gap-free, duplicate-free, ascending.
    pub fn headers_range(&self, start: u64, end: u64) -> (r: Result<Vec<Header>, ProviderError>)
        requires
            self.wf(),
        ensures
            match r {
                Ok(v) => {
                    &&& v@.len() == self.range_len(start, end)
                    &&& forall|i: int|
                        0 <= i < v@.len() ==> v@[i] == self.header_at(start + i)
                },
                Err(_) => false,
            },
    {
        let mut headers: Vec<Header> = Vec::new();
        let store_len = self.database.blocks.len() as u64;
        let mut num: u64 = start;

        // First, collect the prefix the durable store has persisted.
        while num <= end && num < store_len
            invariant
                self.wf(),
                store_len == self.store_count(),
                start <= num,
                num as int <= end as int + 1 || num == start,
                headers@.len() > 0 ==> start as int + headers@.len() <= self.chain_count(),
                headers@.len() == num - start,
                forall|i: int| 0 <= i < headers@.len() ==> headers@[i] == self.header_at(start + i),
            decreases end + 1 - num,
        {
            let db_len = self.database.blocks.len();
            let idx = num as usize;
            proof {
                assert(num < db_len as u64);
                assert(idx as int == num as int);
            }
            headers.push(self.database.blocks[idx].block.block.header.header);
            num = num + 1;
        }

        // Then probe the overlay for each remaining number, in ascending
        // order, stopping at the first miss: the range ran past the tip.
        while num <= end
            invariant_except_break
                self.wf(),
                store_len == self.store_count(),
                start <= num,
                num as int <= end as int + 1 || num == start,
                num as int >= store_len as int || num as int > end as int,
                headers@.len() > 0 ==> start as int + headers@.len() <= self.chain_count(),
                headers@.len() == num - start,
                forall|i: int| 0 <= i < headers@.len() ==> headers@[i] == self.header_at(start + i),
            ensures
                headers@.len() == self.range_len(start, end),
                forall|i: int| 0 <= i < headers@.len() ==> headers@[i] == self.header_at(start + i),
            decreases end + 1 - num,
        {
            match self.canonical_in_memory_state.state_by_number(num) {
                Some(block_state) => {
                    let h = block_state.block.header.header;
                    proof {
                        let k = choose|k: int|
                            0 <= k < self.mem_count()
                                && (#[trigger] self.canonical_in_memory_state.block_at(
                                k,
                            )).number() == num && *block_state
                                == self.canonical_in_memory_state.block_at(k);
                        self.lemma_mem_hit_number(k, num);
                    }
                    headers.push(h);
                    num = num + 1;
                },
                None => {
                    proof {
                        self.lemma_mem_miss_number(num);
                    }
                    break ;
                },
            }
        }
        Ok(headers)
    }

    /// Sealed headers for the inclusive range `start..=end`, merged across
    /// the boundary exactly as `headers_range`.
    pub fn sealed_headers_range(&self, start: u64, end: u64) -> (r: Result<
        Vec<SealedHeader>,
        ProviderError,
    >)
        requires
            self.wf(),
        ensures
            match r {
                Ok(v) => {
                    &&& v@.len() == self.range_len(start, end)
                    &&& forall|i: int|
                        0 <= i < v@.len() ==> v@[i] == self.sealed_header_at(start + i)
                },
                Err(_) => false,
            },
    {
        let mut headers: Vec<SealedHeader> = Vec::new();
        let store_len = self.database.blocks.len() as u64;
        let mut num: u64 = start;

        while num <= end && num < store_len
            invariant
                self.wf(),
                store_len == self.store_count(),
                start <= num,
                num as int <= end as int + 1 || num == start,
                headers@.len() > 0 ==> start as int + headers@.len() <= self.chain_count(),
                headers@.len() == num - start,
                forall|i: int|
                    0 <= i < headers@.len() ==> headers@[i] == self.sealed_header_at(start + i),
            decreases end + 1 - num,
        {
            let db_len = self.database.blocks.len();
            let idx = num as usize;
            proof {
                assert(num < db_len as u64);
                assert(idx as int == num as int);
            }
            headers.push(self.database.blocks[idx].block.block.header);
            num = num + 1;
        }

        while num <= end
            invariant_except_break
                self.wf(),
                store_len == self.store_count(),
                start <= num,
                num as int <= end as int + 1 || num == start,
                num as int >= store_len as int || num as int > end as int,
                headers@.len() > 0 ==> start as int + headers@.len() <= self.chain_count(),
                headers@.len() == num - start,
                forall|i: int|
                    0 <= i < headers@.len() ==> headers@[i] == self.sealed_header_at(start + i),
            ensures
                headers@.len() == self.range_len(start, end),
                forall|i: int|
                    0 <= i < headers@.len() ==> headers@[i] == self.sealed_header_at(start + i),
            decreases end + 1 - num,
        {
            match self.canonical_in_memory_state.state_by_number(num) {
                Some(block_state) => {
                    let h = block_state.block.header;
                    proof {
                        let k = choose|k: int|
                            0 <= k < self.mem_count()
                                && (#[trigger] self.canonical_in_memory_state.block_at(
                                k,
                            )).number() == num && *block_state
                                == self.canonical_in_memory_state.block_at(k);
                        self.lemma_mem_hit_number(k, num);
                    }
                    headers.push(h);
                    num = num + 1;
                },
                None => {
                    proof {
                        self.lemma_mem_miss_number(num);
                    }
                    break ;
                },
            }
        }
        Ok(headers)
    }

    /// Sealed headers from `start..=end`, in order, as long as `predicate`
    /// accepts them: the scan stops at the first rejected header, which is
    /// not returned and past which nothing is evaluated, or at the first
    /// number neither source holds.
    pub fn sealed_headers_while<F: Fn(&SealedHeader) -> bool>(
        &self,
        start: u64,
        end: u64,
        predicate: F,
    ) -> (r: Result<Vec<SealedHeader>, ProviderError>)
        requires
            self.wf(),
            forall|h: SealedHeader| #[trigger] call_requires(predicate, (&h,)),
        ensures
            match r {
                Ok(v) => {
                    &&& v@.len() <= self.range_len(start, end)
                    &&& forall|i: int|
                        0 <= i < v@.len() ==> (#[trigger] v@[i]) == self.sealed_header_at(start + i)
                            && call_ensures(predicate, (&v@[i],), true)
                    &&& v@.len() < self.range_len(start, end) ==> call_ensures(
                        predicate,
                        (&self.sealed_header_at(start + v@.len()),),
                        false,
                    )
                },
                Err(_) => false,
            },
    {
        let mut headers: Vec<SealedHeader> = Vec::new();
        let store_len = self.database.blocks.len() as u64;
        let mut num: u64 = start;

        while num <= end && num < store_len
            invariant
                self.wf(),
                forall|h: SealedHeader| #[trigger] call_requires(predicate, (&h,)),
                store_len == self.store_count(),
                start <= num,
                num as int <= end as int + 1 || num == start,
                headers@.len() > 0 ==> start as int + headers@.len() <= self.chain_count(),
                headers@.len() == num - start,
                forall|i: int|
                    0 <= i < headers@.len() ==> (#[trigger] headers@[i]) == self.sealed_header_at(
                        start + i,
                    ) && call_ensures(predicate, (&headers@[i],), true),
            decreases end + 1 - num,
        {
            let db_len = self.database.blocks.len();
            let idx = num as usize;
            proof {
                assert(num < db_len as u64);
                assert(idx as int == num as int);
            }
            let header = self.database.blocks[idx].block.block.header;
            if !predicate(&header) {
                return Ok(headers);
            }
            headers.push(header);
            num = num + 1;
        }

        while num <= end
            invariant_except_break
                self.wf(),
                forall|h: SealedHeader| #[trigger] call_requires(predicate, (&h,)),
                store_len == self.store_count(),
                start <= num,
                num as int <= end as int + 1 || num == start,
                num as int >= store_len as int || num as int > end as int,
                headers@.len() > 0 ==> start as int + headers@.len() <= self.chain_count(),
                headers@.len() == num - start,
                forall|i: int|
                    0 <= i < headers@.len() ==> (#[trigger] headers@[i]) == self.sealed_header_at(
                        start + i,
                    ) && call_ensures(predicate, (&headers@[i],), true),
            ensures
                headers@.len() == self.range_len(start, end) || (headers@.len() < self.range_len(
                    start,
                    end,
                ) && call_ensures(
                    predicate,
                    (&self.sealed_header_at(start + headers@.len()),),
                    false,
                )),
                forall|i: int|
                    0 <= i < headers@.len() ==> (#[trigger] headers@[i]) == self.sealed_header_at(
                        start + i,
                    ) && call_ensures(predicate, (&headers@[i],), true),
            decreases end + 1 - num,
        {
            match self.canonical_in_memory_state.state_by_number(num) {
                Some(block_state) => {
                    let header = block_state.block.header;
                    proof {
                        let k = choose|k: int|
                            0 <= k < self.mem_count()
                                && (#[trigger] self.canonical_in_memory_state.block_at(
                                k,
                            )).number() == num && *block_state
                                == self.canonical_in_memory_state.block_at(k);
                        self.lemma_mem_hit_number(k, num);
                    }
                    if !predicate(&header) {
                        break ;
                    }
                    headers.push(header);
                    num = num + 1;
                },
                None => {
                    proof {
                        self.lemma_mem_miss_number(num);
                    }
                    break ;
                },
            }
        }
        Ok(headers)
    }

    /// Canonical block hashes for the inclusive range `start..=end`, merged
    /// across the boundary exactly as `headers_range`.
    pub fn canonical_hashes_range(&self, start: u64, end: u64) -> (r: Result<
        Vec<u64>,
        ProviderError,
    >)
        requires
            self.wf(),
        ensures
            match r {
                Ok(v) => {
                    &&& v@.len() == self.range_len(start, end)
                    &&& forall|i: int| 0 <= i < v@.len() ==> v@[i] == self.hash_at(start + i)
                },
                Err(_) => false,
            },
    {
        let mut hashes: Vec<u64> = Vec::new();
        let store_len = self.database.blocks.len() as u64;
        let mut num: u64 = start;

        while num <= end && num < store_len
            invariant
                self.wf(),
                store_len == self.store_count(),
                start <= num,
                num as int <= end as int + 1 || num == start,
                hashes@.len() > 0 ==> start as int + hashes@.len() <= self.chain_count(),
                hashes@.len() == num - start,
                forall|i: int| 0 <= i < hashes@.len() ==> hashes@[i] == self.hash_at(start + i),
            decreases end + 1 - num,
        {
            let db_len = self.database.blocks.len();
            let idx = num as usize;
            proof {
                assert(num < db_len as u64);
                assert(idx as int == num as int);
            }
            hashes.push(self.database.blocks[idx].block.block.header.hash);
            num = num + 1;
        }

        while num <= end
            invariant_except_break
                self.wf(),
                store_len == self.store_count(),
                start <= num,
                num as int <= end as int + 1 || num == start,
                num as int >= store_len as int || num as int > end as int,
                hashes@.len() > 0 ==> start as int + hashes@.len() <= self.chain_count(),
                hashes@.len() == num - start,
                forall|i: int| 0 <= i < hashes@.len() ==> hashes@[i] == self.hash_at(start + i),
            ensures
                hashes@.len() == self.range_len(start, end),
                forall|i: int| 0 <= i < hashes@.len() ==> hashes@[i] == self.hash_at(start + i),
            decreases end + 1 - num,
        {
            match self.canonical_in_memory_state.state_by_number(num) {
                Some(block_state) => {
                    let h = block_state.block.header.hash;
                    proof {
                        let k = choose|k: int|
                            0 <= k < self.mem_count()
                                && (#[trigger] self.canonical_in_memory_state.block_at(
                                k,
                            )).number() == num && *block_state
                                == self.canonical_in_memory_state.block_at(k);
                        self.lemma_mem_hit_number(k, num);
                    }
                    hashes.push(h);
                    num = num + 1;
                },
                None => {
                    proof {
                        self.lemma_mem_miss_number(num);
                    }
                    break ;
                },
            }
        }
        Ok(hashes)
    }

    /// Blocks for the inclusive range `start..=end`, merged across the
    /// boundary exactly as `headers_range`.
    pub fn block_range(&self, start: u64, end: u64) -> (r: Result<Vec<Block>, ProviderError>)
        requires
            self.wf(),
        ensures
            match r {
                Ok(v) => {
                    &&& v@.len() == self.range_len(start, end)
                    &&& forall|i: int|
                        0 <= i < v@.len() ==> self.block_rec(start + i).block.unsealed_matches(
                            #[trigger] v@[i],
                        )
                },
                Err(_) => false,
            },
    {
        let mut blocks: Vec<Block> = Vec::new();
        let store_len = self.database.blocks.len() as u64;
        let mut num: u64 = start;

        while num <= end && num < store_len
            invariant
                self.wf(),
                store_len == self.store_count(),
                start <= num,
                num as int <= end as int + 1 || num == start,
                blocks@.len() > 0 ==> start as int + blocks@.len() <= self.chain_count(),
                blocks@.len() == num - start,
                forall|i: int|
                    0 <= i < blocks@.len() ==> self.block_rec(start + i).block.unsealed_matches(
                        #[trigger] blocks@[i],
                    ),
            decreases end + 1 - num,
        {
            let db_len = self.database.blocks.len();
            let idx = num as usize;
            proof {
                assert(num < db_len as u64);
                assert(idx as int == num as int);
            }
            blocks.push(self.database.blocks[idx].block.block.unseal());
            num = num + 1;
        }

        while num <= end
            invariant_except_break
                self.wf(),
                store_len == self.store_count(),
                start <= num,
                num as int <= end as int + 1 || num == start,
                num as int >= store_len as int || num as int > end as int,
                blocks@.len() > 0 ==> start as int + blocks@.len() <= self.chain_count(),
                blocks@.len() == num - start,
                forall|i: int|
                    0 <= i < blocks@.len() ==> self.block_rec(start + i).block.unsealed_matches(
                        #[trigger] blocks@[i],
                    ),
            ensures
                blocks@.len() == self.range_len(start, end),
                forall|i: int|
                    0 <= i < blocks@.len() ==> self.block_rec(start + i).block.unsealed_matches(
                        #[trigger] blocks@[i],
                    ),
            decreases end + 1 - num,
        {
            match self.canonical_in_memory_state.state_by_number(num) {
                Some(block_state) => {
                    proof {
                        let k = choose|k: int|
                            0 <= k < self.mem_count()
                                && (#[trigger] self.canonical_in_memory_state.block_at(
                                k,
                            )).number() == num && *block_state
                                == self.canonical_in_memory_state.block_at(k);
                        self.lemma_mem_hit_number(k, num);
                    }
                    blocks.push(block_state.block.unseal());
                    num = num + 1;
                },
                None => {
                    proof {
                        self.lemma_mem_miss_number(num);
                    }
                    break ;
                },
            }
        }
        Ok(blocks)
    }

    /// Blocks with senders for the inclusive range `start..=end`, merged
    /// across the boundary exactly as `headers_range`.
    pub fn block_with_senders_range(&self, start: u64, end: u64) -> (r: Result<
        Vec<BlockWithSenders>,
        ProviderError,
    >)
        requires
            self.wf(),
        ensures
            match r {
                Ok(v) => {
                    &&& v@.len() == self.range_len(start, end)
                    &&& forall|i: int|
                        0 <= i < v@.len() ==> self.block_rec(start + i).block.unsealed_matches(
                            (#[trigger] v@[i]).block,
                        ) && v@[i].senders@ == self.block_rec(start + i).senders@
                },
                Err(_) => false,
            },
    {
        let mut blocks: Vec<BlockWithSenders> = Vec::new();
        let store_len = self.database.blocks.len() as u64;
        let mut num: u64 = start;

        while num <= end && num < store_len
            invariant
                self.wf(),
                store_len == self.store_count(),
                start <= num,
                num as int <= end as int + 1 || num == start,
                blocks@.len() > 0 ==> start as int + blocks@.len() <= self.chain_count(),
                blocks@.len() == num - start,
                forall|i: int|
                    0 <= i < blocks@.len() ==> self.block_rec(start + i).block.unsealed_matches(
                        (#[trigger] blocks@[i]).block,
                    ) && blocks@[i].senders@ == self.block_rec(start + i).senders@,
            decreases end + 1 - num,
        {
            let db_len = self.database.blocks.len();
            let idx = num as usize;
            proof {
                assert(num < db_len as u64);
                assert(idx as int == num as int);
            }
            let b = &self.database.blocks[idx].block;
            blocks.push(BlockWithSenders { block: b.block.unseal(), senders: copy_vec(&b.senders) });
            num = num + 1;
        }

        while num <= end
            invariant_except_break
                self.wf(),
                store_len == self.store_count(),
                start <= num,
                num as int <= end as int + 1 || num == start,
                num as int >= store_len as int || num as int > end as int,
                blocks@.len() > 0 ==> start as int + blocks@.len() <= self.chain_count(),
                blocks@.len() == num - start,
                forall|i: int|
                    0 <= i < blocks@.len() ==> self.block_rec(start + i).block.unsealed_matches(
                        (#[trigger] blocks@[i]).block,
                    ) && blocks@[i].senders@ == self.block_rec(start + i).senders@,
            ensures
                blocks@.len() == self.range_len(start, end),
                forall|i: int|
                    0 <= i < blocks@.len() ==> self.block_rec(start + i).block.unsealed_matches(
                        (#[trigger] blocks@[i]).block,
                    ) && blocks@[i].senders@ == self.block_rec(start + i).senders@,
            decreases end + 1 - num,
        {
            match self.canonical_in_memory_state.state_by_number(num) {
                Some(block_state) => {
                    proof {
                        let k = choose|k: int|
                            0 <= k < self.mem_count()
                                && (#[trigger] self.canonical_in_memory_state.block_at(
                                k,
                            )).number() == num && *block_state
                                == self.canonical_in_memory_state.block_at(k);
                        self.lemma_mem_hit_number(k, num);
                    }
                    blocks.push(
                        BlockWithSenders {
                            block: block_state.block.unseal(),
                            senders: copy_vec(&block_state.senders),
                        },
                    );
                    num = num + 1;
                },
                None => {
                    proof {
                        self.lemma_mem_miss_number(num);
                    }
                    break ;
                },
            }
        }
        Ok(blocks)
    }

    /// Sealed blocks with senders for the inclusive range `start..=end`,
    /// merged across the boundary exactly as `headers_range`.
    pub fn sealed_block_with_senders_range(&self, start: u64, end: u64) -> (r: Result<
        Vec<SealedBlockWithSenders>,
        ProviderError,
    >)
        requires
            self.wf(),
        ensures
            match r {
                Ok(v) => {
                    &&& v@.len() == self.range_len(start, end)
                    &&& forall|i: int|
                        0 <= i < v@.len() ==> self.block_rec(start + i).block.matches(
                            (#[trigger] v@[i]).block,
                        ) && v@[i].senders@ == self.block_rec(start + i).senders@
                },
                Err(_) => false,
            },
    {
        let mut blocks: Vec<SealedBlockWithSenders> = Vec::new();
        let store_len = self.database.blocks.len() as u64;
        let mut num: u64 = start;

        while num <= end && num < store_len
            invariant
                self.wf(),
                store_len == self.store_count(),
                start <= num,
                num as int <= end as int + 1 || num == start,
                blocks@.len() > 0 ==> start as int + blocks@.len() <= self.chain_count(),
                blocks@.len() == num - start,
                forall|i: int|
                    0 <= i < blocks@.len() ==> self.block_rec(start + i).block.matches(
                        (#[trigger] blocks@[i]).block,
                    ) && blocks@[i].senders@ == self.block_rec(start + i).senders@,
            decreases end + 1 - num,
        {
            let db_len = self.database.blocks.len();
            let idx = num as usize;
            proof {
                assert(num < db_len as u64);
                assert(idx as int == num as int);
            }
            let b = &self.database.blocks[idx].block;
            blocks.push(
                SealedBlockWithSenders { block: b.block.duplicate(), senders: copy_vec(&b.senders) },
            );
            num = num + 1;
        }

        while num <= end
            invariant_except_break
                self.wf(),
                store_len == self.store_count(),
                start <= num,
                num as int <= end as int + 1 || num == start,
                num as int >= store_len as int || num as int > end as int,
                blocks@.len() > 0 ==> start as int + blocks@.len() <= self.chain_count(),
                blocks@.len() == num - start,
                forall|i: int|
                    0 <= i < blocks@.len() ==> self.block_rec(start + i).block.matches(
                        (#[trigger] blocks@[i]).block,
                    ) && blocks@[i].senders@ == self.block_rec(start + i).senders@,
            ensures
                blocks@.len() == self.range_len(start, end),
                forall|i: int|
                    0 <= i < blocks@.len() ==> self.block_rec(start + i).block.matches(
                        (#[trigger] blocks@[i]).block,
                    ) && blocks@[i].senders@ == self.block_rec(start + i).senders@,
            decreases end + 1 - num,
        {
            match self.canonical_in_memory_state.state_by_number(num) {
                Some(block_state) => {
                    proof {
                        let k = choose|k: int|
                            0 <= k < self.mem_count()
                                && (#[trigger] self.canonical_in_memory_state.block_at(
                                k,
                            )).number() == num && *block_state
                                == self.canonical_in_memory_state.block_at(k);
                        self.lemma_mem_hit_number(k, num);
                    }
                    blocks.push(
                        SealedBlockWithSenders {
                            block: block_state.block.duplicate(),
                            senders: copy_vec(&block_state.senders),
                        },
                    );
                    num = num + 1;
                },
                None => {
                    proof {
                        self.lemma_mem_miss_number(num);
                    }
                    break ;
                },
            }
        }
        Ok(blocks)
    }

    /// How many per-block transaction lists a block-range query returns: a
    /// range that starts in the overlay is clipped to the tip; one that
    /// starts in the durable store is answered by the durable store alone,
    /// clipped to the boundary.
    pub open spec fn tx_range_len(self, start: u64, end: u64) -> int {
        if start > end {
            0
        } else if self.is_mem(start as int) {
            if end >= self.chain_count() {
                self.chain_count() - start
            } else {
                end - start + 1
            }
        } else if start < self.store_count() {
            if end >= self.store_count() {
                self.store_count() - start
            } else {
                end - start + 1
            }
        } else {
            0
        }
    }

    /// The transaction lists of the blocks in `start..=end`. The overlay is
    /// probed first; where the range starts below the boundary the durable
    /// store alone answers, clipped to what it has persisted.
    pub fn transactions_by_block_range(&self, start: u64, end: u64) -> (r: Result<
        Vec<Vec<Transaction>>,
        ProviderError,
    >)
        requires
            self.wf(),
        ensures
            match r {
                Ok(v) => {
                    &&& v@.len() == self.tx_range_len(start, end)
                    &&& forall|i: int|
                        0 <= i < v@.len() ==> (#[trigger] v@[i])@ == self.body_at(start + i)
                },
                Err(_) => false,
            },
    {
        let mut transactions: Vec<Vec<Transaction>> = Vec::new();
        let store_len = self.database.blocks.len() as u64;
        let mut num: u64 = start;

        // Probe the overlay first: it may hold blocks more recent than
        // anything yet durable.
        while num <= end
            invariant_except_break
                self.wf(),
                store_len == self.store_count(),
                start <= num,
                num as int <= end as int + 1 || num == start,
                transactions@.len() > 0 ==> self.is_mem(start as int) && start as int
                    + transactions@.len() <= self.chain_count(),
                transactions@.len() == num - start,
                forall|i: int|
                    0 <= i < transactions@.len() ==> (#[trigger] transactions@[i])@ == self.body_at(
                        start + i,
                    ),
            ensures
                transactions@.len() == num - start,
                start <= num,
                num as int <= end as int + 1 || num == start,
                transactions@.len() > 0 ==> self.is_mem(start as int) && start as int
                    + transactions@.len() <= self.chain_count(),
                forall|i: int|
                    0 <= i < transactions@.len() ==> (#[trigger] transactions@[i])@ == self.body_at(
                        start + i,
                    ),
                num as int > end as int || num < self.store_count() || num as int
                    >= self.chain_count(),
            decreases end + 1 - num,
        {
            match self.canonical_in_memory_state.state_by_number(num) {
                Some(block_state) => {
                    proof {
                        let k = choose|k: int|
                            0 <= k < self.mem_count()
                                && (#[trigger] self.canonical_in_memory_state.block_at(
                                k,
                            )).number() == num && *block_state
                                == self.canonical_in_memory_state.block_at(k);
                        self.lemma_mem_hit_number(k, num);
                    }
                    transactions.push(copy_vec(&block_state.block.body));
                    num = num + 1;
                },
                None => {
                    proof {
                        self.lemma_mem_miss_number(num);
                    }
                    break ;
                },
            }
        }

        // The rest, if the overlay held nothing here, comes from the
        // durable store, bounded by what it has persisted.
        while num <= end && num < store_len
            invariant
                self.wf(),
                store_len == self.store_count(),
                start <= num,
                num as int <= end as int + 1 || num == start,
                transactions@.len() == num - start,
                transactions@.len() > 0 ==> start as int + transactions@.len()
                    <= self.chain_count(),
                transactions@.len() == 0 && start <= end ==> num == start && (start
                    < self.store_count() || start as int >= self.chain_count()),
                transactions@.len() > 0 && !self.is_mem(start as int) ==> num as int
                    <= self.store_count(),
                transactions@.len() > 0 && self.is_mem(start as int) ==> num as int
                    >= self.chain_count() || num as int > end as int,
                forall|i: int|
                    0 <= i < transactions@.len() ==> (#[trigger] transactions@[i])@ == self.body_at(
                        start + i,
                    ),
            decreases end + 1 - num,
        {
            let db_len = self.database.blocks.len();
            let idx = num as usize;
            proof {
                assert(num < db_len as u64);
                assert(idx as int == num as int);
            }
            transactions.push(copy_vec(&self.database.blocks[idx].block.block.body));
            num = num + 1;
        }
        proof {
            assert(transactions@.len() == self.tx_range_len(start, end));
        }
        Ok(transactions)
    }
}

} // verus!
