//! The blockchain provider: the merged canonical chain model, its
//! invariant, and the resolution lemmas every query family builds on.

use vstd::prelude::*;

use crate::in_memory::CanonicalInMemoryState;
use crate::store::DurableStore;
use crate::types::{
    BlockHashOrNumber, ExecutedBlock, Header, ProviderError, SealedHeader, Transaction,
};

verus! {

/// The global transaction number span of a detached block segment: the sum
/// of the body lengths of its first `j` blocks.
pub open spec fn seq_tx_sum(blocks: Seq<ExecutedBlock>, j: int) -> int
    decreases j,
{
    if j <= 0 {
        0
    } else {
        seq_tx_sum(blocks, j - 1) + blocks[j - 1].block.body@.len()
    }
}

/// The main type for interacting with the blockchain: one query surface
/// merging the durable store below the persisted boundary with the
/// in-memory canonical overlay above it. It holds only these two handles
/// and owns no further state.
#[derive(Clone)]
pub struct BlockchainProvider2 {
    /// The durable store of persisted blocks.
    pub database: DurableStore,
    /// Tracks the chain info wrt fork-choice updates and the in-memory
    /// canonical state.
    pub canonical_in_memory_state: CanonicalInMemoryState,
}

impl BlockchainProvider2 {
    /// How many blocks the durable store persists.
    pub open spec fn store_count(self) -> int {
        self.database.count()
    }

    /// How many blocks the overlay holds above the boundary.
    pub open spec fn mem_count(self) -> int {
        self.canonical_in_memory_state.count()
    }

    /// How many blocks the merged canonical chain holds; block numbers run
    /// from zero to one below this.
    pub open spec fn chain_count(self) -> int {
        self.store_count() + self.mem_count()
    }

    /// The executed block with number `n`, from whichever source holds it.
    pub open spec fn block_rec(self, n: int) -> ExecutedBlock {
        if n < self.store_count() {
            self.database.block_at(n)
        } else {
            self.canonical_in_memory_state.block_at(n - self.store_count())
        }
    }

    /// Whether block `n` lives in the overlay rather than the durable store.
    pub open spec fn is_mem(self, n: int) -> bool {
        self.store_count() <= n < self.chain_count()
    }

    pub open spec fn header_at(self, n: int) -> Header {
        self.block_rec(n).block.header.header
    }

    pub open spec fn sealed_header_at(self, n: int) -> SealedHeader {
        self.block_rec(n).block.header
    }

    pub open spec fn hash_at(self, n: int) -> u64 {
        self.block_rec(n).hash()
    }

    pub open spec fn body_at(self, n: int) -> Seq<Transaction> {
        self.block_rec(n).block.body@
    }

    /// The global number of the first transaction of block `n`: the sum of
    /// the body lengths of the blocks below `n`.
    pub open spec fn first_tx_of(self, n: int) -> int
        decreases n,
    {
        if n <= 0 {
            0
        } else {
            self.first_tx_of(n - 1) + self.body_at(n - 1).len()
        }
    }

    /// How many transactions the whole canonical chain holds.
    pub open spec fn total_txs(self) -> int {
        self.first_tx_of(self.chain_count())
    }

    /// Whether some canonical block carries this hash.
    pub open spec fn has_block_hash(self, h: u64) -> bool {
        exists|n: int| 0 <= n < self.chain_count() && #[trigger] self.hash_at(n) == h
    }

    /// The number of the canonical block carrying this hash.
    pub open spec fn number_of_hash(self, h: u64) -> int {
        choose|n: int| 0 <= n < self.chain_count() && #[trigger] self.hash_at(n) == h
    }

    /// The provider invariant. The durable store is well formed and holds at
    /// least the genesis block; the overlay chain continues it contiguously,
    /// each block linking to its parent by hash; every executed block is
    /// internally consistent; block hashes and transaction hashes are unique
    /// across the whole chain; and the global numbering fits the machine.
    pub open spec fn wf(self) -> bool {
        &&& self.database.wf()
        &&& self.store_count() >= 1
        &&& self.chain_count() <= u64::MAX
        &&& self.total_txs() <= u64::MAX
        &&& forall|n: int|
            0 <= n < self.chain_count() ==> (#[trigger] self.block_rec(n)).number() == n
        &&& forall|n: int|
            #![trigger self.block_rec(n), self.block_rec(n - 1)]
            1 <= n < self.chain_count() ==> self.block_rec(n).parent_hash() == self.hash_at(n - 1)
        &&& forall|n: int| 0 <= n < self.chain_count() ==> (#[trigger] self.block_rec(n)).consistent()
        &&& forall|n1: int, n2: int|
            0 <= n1 < n2 < self.chain_count() ==> #[trigger] self.hash_at(n1)
                != #[trigger] self.hash_at(n2)
        &&& forall|n1: int, i1: int, n2: int, i2: int|
            #![trigger self.body_at(n1)[i1], self.body_at(n2)[i2]]
            0 <= n1 < self.chain_count() && 0 <= i1 < self.body_at(n1).len() && 0 <= n2
                < self.chain_count() && 0 <= i2 < self.body_at(n2).len() && (n1 != n2 || i1 != i2)
                ==> self.body_at(n1)[i1].hash != self.body_at(n2)[i2].hash
        &&& match self.canonical_in_memory_state.pending {
            Some(p) => p.consistent(),
            None => true,
        }
    }

    /// A block number `n` carrying hash `h` is the one `number_of_hash`
    /// denotes: block hashes are unique under the invariant.
    pub proof fn lemma_hash_unique(self, n: int, h: u64)
        requires
            self.wf(),
            0 <= n < self.chain_count(),
            self.hash_at(n) == h,
        ensures
            self.has_block_hash(h),
            self.number_of_hash(h) == n,
    {
        assert(self.has_block_hash(h));
        let m = self.number_of_hash(h);
        if m != n {
            if m < n {
                assert(self.hash_at(m) != self.hash_at(n));
            } else {
                assert(self.hash_at(n) != self.hash_at(m));
            }
        }
    }

    /// An overlay block at position `k` with number `n` stands at canonical
    /// position `store_count + k`, so `n` is that position.
    pub proof fn lemma_mem_hit_number(self, k: int, n: u64)
        requires
            self.wf(),
            0 <= k < self.mem_count(),
            self.canonical_in_memory_state.block_at(k).number() == n,
        ensures
            n == self.store_count() + k,
            n < self.chain_count(),
            self.block_rec(n as int) == self.canonical_in_memory_state.block_at(k),
    {
        assert(self.block_rec(self.store_count() + k).number() == self.store_count() + k);
    }

    /// When no overlay block carries number `n`, block `n` is durable or
    /// beyond the tip.
    pub proof fn lemma_mem_miss_number(self, n: u64)
        requires
            self.wf(),
            forall|k: int|
                0 <= k < self.mem_count()
                    ==> (#[trigger] self.canonical_in_memory_state.block_at(k)).number() != n,
        ensures
            n < self.store_count() || n >= self.chain_count(),
    {
        if self.store_count() <= n < self.chain_count() {
            let k = n - self.store_count();
            assert(self.block_rec(n as int).number() == n);
            assert(self.canonical_in_memory_state.block_at(k).number() == n);
        }
    }

    /// An overlay block at position `k` carrying hash `h` is the unique
    /// canonical block with that hash.
    pub proof fn lemma_mem_hit_hash(self, k: int, h: u64)
        requires
            self.wf(),
            0 <= k < self.mem_count(),
            self.canonical_in_memory_state.block_at(k).hash() == h,
        ensures
            self.has_block_hash(h),
            self.number_of_hash(h) == self.store_count() + k,
            self.block_rec(self.number_of_hash(h)) == self.canonical_in_memory_state.block_at(k),
    {
        self.lemma_hash_unique(self.store_count() + k, h);
    }

    /// A durable block at position `i` carrying hash `h` is the unique
    /// canonical block with that hash.
    pub proof fn lemma_store_hit_hash(self, i: int, h: u64)
        requires
            self.wf(),
            0 <= i < self.store_count(),
            self.database.block_at(i).hash() == h,
        ensures
            self.has_block_hash(h),
            self.number_of_hash(h) == i,
            self.block_rec(self.number_of_hash(h)) == self.database.block_at(i),
    {
        self.lemma_hash_unique(i, h);
    }

    /// When neither source holds a block with hash `h`, no canonical block
    /// carries it.
    pub proof fn lemma_miss_hash(self, h: u64)
        requires
            self.wf(),
            forall|k: int|
                0 <= k < self.mem_count()
                    ==> (#[trigger] self.canonical_in_memory_state.block_at(k)).hash() != h,
            forall|i: int|
                0 <= i < self.store_count() ==> (#[trigger] self.database.block_at(i)).hash() != h,
        ensures
            !self.has_block_hash(h),
    {
        if self.has_block_hash(h) {
            let n = self.number_of_hash(h);
            if n < self.store_count() {
                assert(self.database.block_at(n).hash() != h);
            } else {
                assert(self.canonical_in_memory_state.block_at(n - self.store_count()).hash()
                    != h);
            }
        }
    }

    /// Prefix sums never decrease as the block number grows.
    pub proof fn lemma_first_tx_monotonic(self, m: int, n: int)
        requires
            m <= n,
        ensures
            self.first_tx_of(m) <= self.first_tx_of(n),
        decreases n - m,
    {
        if m < n {
            self.lemma_first_tx_monotonic(m, n - 1);
        }
    }

    /// Below the boundary, the provider's transaction numbering is the
    /// durable store's own.
    pub proof fn lemma_first_tx_store(self, n: int)
        requires
            n <= self.store_count(),
        ensures
            self.first_tx_of(n) == self.database.tx_prefix(n),
        decreases n,
    {
        if n > 0 {
            self.lemma_first_tx_store(n - 1);
        }
    }

    /// What a committed segment must satisfy for the provider invariant to
    /// survive publishing it: the new blocks continue the tip contiguously,
    /// linked by parent hash, internally consistent, with block and
    /// transaction hashes fresh against the whole chain and each other, and
    /// the extended chain and numbering still fit the machine.
    pub open spec fn commit_ok(self, new: Seq<ExecutedBlock>) -> bool {
        &&& self.chain_count() + new.len() <= u64::MAX
        &&& self.total_txs() + seq_tx_sum(new, new.len() as int) <= u64::MAX
        &&& forall|j: int|
            0 <= j < new.len() ==> (#[trigger] new[j]).number() == self.chain_count() + j
        &&& forall|j: int| 0 <= j < new.len() ==> (#[trigger] new[j]).consistent()
        &&& (new.len() > 0 ==> new[0].parent_hash() == self.hash_at(self.chain_count() - 1))
        &&& forall|j: int|
            #![trigger new[j], new[j - 1]]
            1 <= j < new.len() ==> new[j].parent_hash() == new[j - 1].hash()
        &&& forall|j: int, n: int|
            0 <= j < new.len() && 0 <= n < self.chain_count() ==> (#[trigger] new[j]).hash()
                != #[trigger] self.hash_at(n)
        &&& forall|j1: int, j2: int|
            0 <= j1 < j2 < new.len() ==> (#[trigger] new[j1]).hash() != (#[trigger] new[j2]).hash()
        &&& forall|j: int, i: int, n: int, t: int|
            #![trigger new[j].block.body@[i], self.body_at(n)[t]]
            0 <= j < new.len() && 0 <= i < new[j].block.body@.len() && 0 <= n < self.chain_count()
                && 0 <= t < self.body_at(n).len() ==> new[j].block.body@[i].hash != self.body_at(
                n,
            )[t].hash
        &&& forall|j1: int, i1: int, j2: int, i2: int|
            #![trigger new[j1].block.body@[i1], new[j2].block.body@[i2]]
            0 <= j1 < new.len() && 0 <= i1 < new[j1].block.body@.len() && 0 <= j2 < new.len() && 0
                <= i2 < new[j2].block.body@.len() && (j1 != j2 || i1 != i2)
                ==> new[j1].block.body@[i1].hash != new[j2].block.body@[i2].hash
    }

    /// Below the old tip, the extended provider's blocks are the old ones.
    proof fn lemma_commit_prefix(pre: Self, post: Self, new: Seq<ExecutedBlock>)
        requires
            post.database == pre.database,
            post.canonical_in_memory_state.chain@ == pre.canonical_in_memory_state.chain@ + new,
        ensures
            forall|n: int|
                0 <= n < pre.chain_count() ==> #[trigger] post.block_rec(n) == pre.block_rec(n),
            forall|j: int|
                0 <= j < new.len() ==> #[trigger] post.block_rec(pre.chain_count() + j) == new[j],
            post.chain_count() == pre.chain_count() + new.len(),
    {
        assert forall|n: int| 0 <= n < pre.chain_count() implies #[trigger] post.block_rec(n)
            == pre.block_rec(n) by {
            if n >= pre.store_count() {
                assert(post.canonical_in_memory_state.chain@[n - pre.store_count()]
                    == pre.canonical_in_memory_state.chain@[n - pre.store_count()]);
            }
        }
        assert forall|j: int| 0 <= j < new.len() implies #[trigger] post.block_rec(
            pre.chain_count() + j,
        ) == new[j] by {
            assert(post.canonical_in_memory_state.chain@[pre.chain_count() + j
                - pre.store_count()] == new[j]);
        }
    }

    /// Below the old tip, the extended provider's numbering is the old one.
    proof fn lemma_commit_prefix_tx(pre: Self, post: Self, new: Seq<ExecutedBlock>, m: int)
        requires
            post.database == pre.database,
            post.canonical_in_memory_state.chain@ == pre.canonical_in_memory_state.chain@ + new,
            0 <= m <= pre.chain_count(),
        ensures
            post.first_tx_of(m) == pre.first_tx_of(m),
        decreases m,
    {
        if m > 0 {
            Self::lemma_commit_prefix_tx(pre, post, new, m - 1);
            Self::lemma_commit_prefix(pre, post, new);
        }
    }

    /// Past the old tip, the extended numbering adds the segment's span.
    proof fn lemma_commit_ext_tx(pre: Self, post: Self, new: Seq<ExecutedBlock>, j: int)
        requires
            post.database == pre.database,
            post.canonical_in_memory_state.chain@ == pre.canonical_in_memory_state.chain@ + new,
            0 <= j <= new.len(),
        ensures
            post.first_tx_of(pre.chain_count() + j) == pre.total_txs() + seq_tx_sum(new, j),
        decreases j,
    {
        if j == 0 {
            Self::lemma_commit_prefix_tx(pre, post, new, pre.chain_count());
        } else {
            Self::lemma_commit_ext_tx(pre, post, new, j - 1);
            Self::lemma_commit_prefix(pre, post, new);
        }
    }

    /// Publishing a segment that satisfies `commit_ok` preserves the
    /// provider invariant: the one mutating transition keeps every read
    /// contract's ground. Validating the segment is the committer's duty;
    /// this is what that duty buys.
    pub proof fn lemma_commit_preserves_wf(pre: Self, post: Self, new: Seq<ExecutedBlock>)
        requires
            pre.wf(),
            pre.commit_ok(new),
            post.database == pre.database,
            post.canonical_in_memory_state.chain@ == pre.canonical_in_memory_state.chain@ + new,
            post.canonical_in_memory_state.pending == pre.canonical_in_memory_state.pending,
        ensures
            post.wf(),
    {
        Self::lemma_commit_prefix(pre, post, new);
        Self::lemma_commit_ext_tx(pre, post, new, new.len() as int);
        assert(post.total_txs() <= u64::MAX);
        assert forall|n: int| 0 <= n < post.chain_count() implies (#[trigger] post.block_rec(
            n,
        )).number() == n && post.block_rec(n).consistent() by {
            if n < pre.chain_count() {
                assert(pre.block_rec(n).number() == n);
            } else {
                assert(new[n - pre.chain_count()].number() == n);
            }
        }
        assert forall|n: int|
            #![trigger post.block_rec(n), post.block_rec(n - 1)]
            1 <= n < post.chain_count() implies post.block_rec(n).parent_hash() == post.hash_at(
            n - 1,
        ) by {
            if n < pre.chain_count() {
                assert(pre.block_rec(n).parent_hash() == pre.hash_at(n - 1));
            } else if n == pre.chain_count() {
                assert(new[0].parent_hash() == pre.hash_at(pre.chain_count() - 1));
            } else {
                assert(new[n - pre.chain_count()].parent_hash() == new[n - pre.chain_count()
                    - 1].hash());
            }
        }
        assert forall|n1: int, n2: int| 0 <= n1 < n2 < post.chain_count() implies
            #[trigger] post.hash_at(n1) != #[trigger] post.hash_at(n2) by {
            if n2 < pre.chain_count() {
                assert(pre.hash_at(n1) != pre.hash_at(n2));
            } else if n1 < pre.chain_count() {
                assert(new[n2 - pre.chain_count()].hash() != pre.hash_at(n1));
            } else {
                assert(new[n1 - pre.chain_count()].hash() != new[n2 - pre.chain_count()].hash());
            }
        }
        assert forall|n1: int, i1: int, n2: int, i2: int|
            #![trigger post.body_at(n1)[i1], post.body_at(n2)[i2]]
            0 <= n1 < post.chain_count() && 0 <= i1 < post.body_at(n1).len() && 0 <= n2
                < post.chain_count() && 0 <= i2 < post.body_at(n2).len() && (n1 != n2 || i1
                != i2) implies post.body_at(n1)[i1].hash != post.body_at(n2)[i2].hash by {
            if n1 < pre.chain_count() && n2 < pre.chain_count() {
                assert(pre.body_at(n1)[i1].hash != pre.body_at(n2)[i2].hash);
            } else if n1 < pre.chain_count() {
                assert(new[n2 - pre.chain_count()].block.body@[i2].hash != pre.body_at(
                    n1,
                )[i1].hash);
            } else if n2 < pre.chain_count() {
                assert(new[n1 - pre.chain_count()].block.body@[i1].hash != pre.body_at(
                    n2,
                )[i2].hash);
            } else {
                assert(new[n1 - pre.chain_count()].block.body@[i1].hash != new[n2
                    - pre.chain_count()].block.body@[i2].hash);
            }
        }
        assert(post.wf());
    }

    /// Create a new provider using only the durable store, fetching the
    /// latest persisted header to initialize the chain-info tracking.
    pub fn new(database: DurableStore) -> (r: Result<Self, ProviderError>)
        requires
            database.wf(),
        ensures
            match r {
                Ok(p) => {
                    &&& database.count() >= 1
                    &&& p.wf()
                    &&& p.database == database
                    &&& p.mem_count() == 0
                    &&& p.canonical_in_memory_state.head == database.block_at(
                        database.count() - 1,
                    ).block.header
                    &&& p.canonical_in_memory_state.safe is None
                    &&& p.canonical_in_memory_state.pending is None
                    &&& match database.finalized_block_number {
                        Some(num) => if num < database.count() {
                            p.canonical_in_memory_state.finalized == Some(
                                database.block_at(num as int).block.header,
                            )
                        } else {
                            p.canonical_in_memory_state.finalized is None
                        },
                        None => p.canonical_in_memory_state.finalized is None,
                    }
                },
                Err(e) => database.count() == 0 && e == ProviderError::HeaderNotFound(
                    BlockHashOrNumber::Number(0),
                ),
            },
    {
        let best = database.last_block_number();
        if database.blocks.len() == 0 {
            return Err(ProviderError::HeaderNotFound(BlockHashOrNumber::Number(best)));
        }
        let latest = database.blocks[database.blocks.len() - 1].block.block.header;
        Self::with_latest(database, latest)
    }

    /// Create a provider that wraps the durable store and the overlay, using
    /// the provided latest header to initialize chain-info tracking; the
    /// finalized pointer is looked up in the durable store.
    pub fn with_latest(database: DurableStore, latest: SealedHeader) -> (r: Result<
        Self,
        ProviderError,
    >)
        requires
            database.wf(),
            database.count() >= 1,
        ensures
            match r {
                Ok(p) => {
                    &&& p.wf()
                    &&& p.database == database
                    &&& p.mem_count() == 0
                    &&& p.canonical_in_memory_state.head == latest
                    &&& p.canonical_in_memory_state.safe is None
                    &&& p.canonical_in_memory_state.pending is None
                    &&& match database.finalized_block_number {
                        Some(num) => if num < database.count() {
                            p.canonical_in_memory_state.finalized == Some(
                                database.block_at(num as int).block.header,
                            )
                        } else {
                            p.canonical_in_memory_state.finalized is None
                        },
                        None => p.canonical_in_memory_state.finalized is None,
                    }
                },
                Err(_) => false,
            },
    {
        let len = database.blocks.len();
        let finalized_header: Option<SealedHeader> = match database.finalized_block_number {
            Some(num) => {
                if num < len as u64 {
                    let idx = num as usize;
                    Some(database.blocks[idx].block.block.header)
                } else {
                    None
                }
            },
            None => None,
        };
        let p = BlockchainProvider2 {
            database,
            canonical_in_memory_state: CanonicalInMemoryState::with_head(latest, finalized_header),
        };
        proof {
            Self::lemma_wf_initial(p);
        }
        Ok(p)
    }

    /// A provider over a well-formed durable store with an empty overlay
    /// satisfies the provider invariant.
    proof fn lemma_wf_initial(p: Self)
        requires
            p.database.wf(),
            p.store_count() >= 1,
            p.mem_count() == 0,
            p.canonical_in_memory_state.pending is None,
        ensures
            p.wf(),
    {
        p.lemma_first_tx_store(p.store_count());
        assert(p.total_txs() <= u64::MAX);
        assert forall|n1: int, i1: int, n2: int, i2: int|
            #![trigger p.body_at(n1)[i1], p.body_at(n2)[i2]]
            0 <= n1 < p.chain_count() && 0 <= i1 < p.body_at(n1).len() && 0 <= n2
                < p.chain_count() && 0 <= i2 < p.body_at(n2).len() && (n1 != n2 || i1
                != i2) implies p.body_at(n1)[i1].hash != p.body_at(n2)[i2].hash by {
            assert(p.database.block_at(n1).block.body@[i1].hash != p.database.block_at(
                n2,
            ).block.body@[i2].hash);
        }
        assert(p.wf());
    }
}

} // verus!
