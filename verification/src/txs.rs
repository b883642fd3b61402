//! Transaction-number resolution: the threshold-and-walk primitive that
//! maps global transaction numbers to blocks and in-block indices with no
//! persisted index for in-memory blocks, and the queries built on it.

use vstd::prelude::*;

use crate::provider::BlockchainProvider2;
use crate::types::{
    copy_vec, BlockHashOrNumber, ProviderError, StoredBlockBodyIndices, Transaction,
    TransactionMeta, TransactionNoHash,
};

verus! {

impl BlockchainProvider2 {
    /// Block `n` owns global transaction number `id`: the id falls in the
    /// block's contiguous span of the global numbering.
    pub open spec fn owns_tx(self, n: int, id: int) -> bool {
        &&& 0 <= n < self.chain_count()
        &&& self.first_tx_of(n) <= id < self.first_tx_of(n) + self.body_at(n).len()
    }

    /// The number of the block owning global transaction number `id`.
    pub open spec fn tx_block_of(self, id: int) -> int {
        choose|n: int| self.owns_tx(n, id)
    }

    /// The in-block index of global transaction number `id`.
    pub open spec fn tx_index_of(self, id: int) -> int {
        id - self.first_tx_of(self.tx_block_of(id))
    }

    /// The transaction with global number `id`.
    pub open spec fn tx_at(self, id: int) -> crate::types::Transaction {
        self.body_at(self.tx_block_of(id))[self.tx_index_of(id)]
    }

    /// At most one block owns a given global transaction number: the spans
    /// are disjoint because the numbering is a monotone prefix sum.
    pub proof fn lemma_owner_unique(self, n1: int, n2: int, id: int)
        requires
            self.owns_tx(n1, id),
            self.owns_tx(n2, id),
        ensures
            n1 == n2,
    {
        if n1 < n2 {
            self.lemma_first_tx_monotonic(n1 + 1, n2);
        } else if n2 < n1 {
            self.lemma_first_tx_monotonic(n2 + 1, n1);
        }
    }

    /// Every global number below the prefix sum at `n` is owned by a block
    /// below `n`.
    pub proof fn lemma_owner_exists_below(self, n: int, id: int)
        requires
            0 <= n <= self.chain_count(),
            0 <= id < self.first_tx_of(n),
        ensures
            exists|k: int| 0 <= k < n && #[trigger] self.owns_tx(k, id),
        decreases n,
    {
        if n > 0 {
            if id >= self.first_tx_of(n - 1) {
                assert(self.owns_tx(n - 1, id));
            } else {
                self.lemma_owner_exists_below(n - 1, id);
            }
        }
    }

    /// A global number below the total is owned by exactly the block
    /// `tx_block_of` denotes, at index `tx_index_of`.
    pub proof fn lemma_tx_lookup(self, id: int)
        requires
            0 <= id < self.total_txs(),
        ensures
            self.owns_tx(self.tx_block_of(id), id),
            0 <= self.tx_index_of(id) < self.body_at(self.tx_block_of(id)).len(),
            forall|n: int| #[trigger] self.owns_tx(n, id) ==> n == self.tx_block_of(id),
    {
        self.lemma_owner_exists_below(self.chain_count(), id);
        let k = choose|k: int| 0 <= k < self.chain_count() && #[trigger] self.owns_tx(k, id);
        assert(self.owns_tx(self.tx_block_of(id), id));
        assert forall|n: int| #[trigger] self.owns_tx(n, id) implies n == self.tx_block_of(
            id,
        ) by {
            self.lemma_owner_unique(n, self.tx_block_of(id), id);
        }
    }

    /// The block and in-block index owning global transaction number `id`,
    /// resolved without a persisted index for in-memory blocks: the durable
    /// blocks are counted first; past the durable threshold the overlay
    /// chain is walked from the anchor toward the tip, accumulating a
    /// running count per block, until the owning block is found. `None`
    /// means the number is past every known transaction.
    pub fn block_state_by_tx_id(&self, id: u64) -> (r: Option<(u64, usize)>)
        requires
            self.wf(),
        ensures
            match r {
                Some(p) => {
                    &&& id < self.total_txs()
                    &&& p.0 == self.tx_block_of(id as int)
                    &&& p.1 == self.tx_index_of(id as int)
                },
                None => id >= self.total_txs(),
            },
    {
        let mut acc: u64 = 0;
        let mut i: usize = 0;
        let store_len = self.database.blocks.len();

        while i < store_len
            invariant
                self.wf(),
                store_len == self.store_count(),
                i <= store_len,
                acc == self.first_tx_of(i as int),
                id >= acc,
            decreases store_len - i,
        {
            let body_len = self.database.blocks[i].block.block.body.len();
            proof {
                self.lemma_first_tx_monotonic(i as int + 1, self.chain_count());
                assert(self.body_at(i as int).len() == body_len);
            }
            if id < acc + body_len as u64 {
                let idx = (id - acc) as usize;
                proof {
                    assert(self.owns_tx(i as int, id as int));
                    self.lemma_tx_lookup(id as int);
                    self.lemma_first_tx_monotonic(i as int + 1, self.chain_count());
                }
                return Some((i as u64, idx));
            }
            acc = acc + body_len as u64;
            i = i + 1;
        }

        let mut k: usize = 0;
        let mem_len = self.canonical_in_memory_state.chain.len();
        while k < mem_len
            invariant
                self.wf(),
                store_len == self.store_count(),
                mem_len == self.mem_count(),
                k <= mem_len,
                acc == self.first_tx_of(self.store_count() + k),
                id >= acc,
            decreases mem_len - k,
        {
            let body_len = self.canonical_in_memory_state.chain[k].block.body.len();
            let ghost n = self.store_count() + k;
            proof {
                self.lemma_first_tx_monotonic(n + 1, self.chain_count());
                assert(self.body_at(n).len() == body_len);
            }
            if id < acc + body_len as u64 {
                let idx = (id - acc) as usize;
                proof {
                    assert(self.owns_tx(n, id as int));
                    self.lemma_tx_lookup(id as int);
                    self.lemma_first_tx_monotonic(n + 1, self.chain_count());
                }
                let store_len_u64 = store_len as u64;
                return Some((store_len_u64 + k as u64, idx));
            }
            acc = acc + body_len as u64;
            k = k + 1;
        }
        None
    }

    /// The stored body indices of block `number`. Durable blocks are read
    /// off the persisted layout; for an in-memory block the indices are
    /// reconstructed by taking the durable count at the overlay anchor and
    /// walking the chain toward the block, accumulating transaction counts
    /// into `first_tx_num`.
    pub fn block_body_indices(&self, number: u64) -> (r: Result<
        Option<StoredBlockBodyIndices>,
        ProviderError,
    >)
        requires
            self.wf(),
        ensures
            match r {
                Ok(opt) => if number < self.chain_count() {
                    opt == Some(
                        StoredBlockBodyIndices {
                            first_tx_num: self.first_tx_of(number as int) as u64,
                            tx_count: self.body_at(number as int).len() as u64,
                        },
                    )
                } else {
                    opt is None
                },
                Err(_) => false,
            },
    {
        let store_len = self.database.blocks.len();
        let mut acc: u64 = 0;
        let mut i: usize = 0;
        let bound = if number < store_len as u64 {
            number as usize
        } else {
            store_len
        };

        while i < bound
            invariant
                self.wf(),
                store_len == self.store_count(),
                bound <= store_len,
                bound as int <= number as int,
                i <= bound,
                acc == self.first_tx_of(i as int),
            decreases bound - i,
        {
            let body_len = self.database.blocks[i].block.block.body.len();
            proof {
                self.lemma_first_tx_monotonic(i as int + 1, self.chain_count());
                assert(self.body_at(i as int).len() == body_len);
                assert(self.first_tx_of(i as int + 1) <= self.total_txs());
            }
            acc = acc + body_len as u64;
            i = i + 1;
        }

        if number < store_len as u64 {
            let idx = number as usize;
            let tx_count = self.database.blocks[idx].block.block.body.len() as u64;
            return Ok(Some(StoredBlockBodyIndices { first_tx_num: acc, tx_count }));
        }

        // The durable part is exhausted: `acc` is the anchor's next
        // transaction number. Walk the overlay chain toward the block.
        let mem_len = self.canonical_in_memory_state.chain.len();
        let mut k: usize = 0;
        while k < mem_len
            invariant
                self.wf(),
                store_len == self.store_count(),
                mem_len == self.mem_count(),
                k <= mem_len,
                number >= self.store_count(),
                acc == self.first_tx_of(self.store_count() + k),
                self.store_count() + k <= number,
            decreases mem_len - k,
        {
            let ghost n = self.store_count() + k;
            let body_len = self.canonical_in_memory_state.chain[k].block.body.len();
            proof {
                self.lemma_first_tx_monotonic(n + 1, self.chain_count());
                assert(self.body_at(n).len() == body_len);
            }
            if store_len as u64 + k as u64 == number {
                return Ok(
                    Some(StoredBlockBodyIndices { first_tx_num: acc, tx_count: body_len as u64 }),
                );
            }
            acc = acc + body_len as u64;
            k = k + 1;
        }
        Ok(None)
    }

    /// Some canonical block's body holds a transaction with this hash.
    pub open spec fn has_tx_hash(self, h: u64) -> bool {
        exists|n: int, i: int|
            #![trigger self.body_at(n)[i]]
            0 <= n < self.chain_count() && 0 <= i < self.body_at(n).len() && self.body_at(n)[i].hash
                == h
    }

    /// The (block number, in-block index) of the transaction carrying this
    /// hash.
    pub open spec fn tx_hash_pos(self, h: u64) -> (int, int) {
        choose|n: int, i: int|
            #![trigger self.body_at(n)[i]]
            0 <= n < self.chain_count() && 0 <= i < self.body_at(n).len() && self.body_at(n)[i].hash
                == h
    }

    /// A position holding a transaction with hash `h` is the unique one:
    /// transaction hashes are unique under the invariant.
    pub proof fn lemma_tx_hash_unique(self, n: int, i: int, h: u64)
        requires
            self.wf(),
            0 <= n < self.chain_count(),
            0 <= i < self.body_at(n).len(),
            self.body_at(n)[i].hash == h,
        ensures
            self.has_tx_hash(h),
            self.tx_hash_pos(h) == (n, i),
    {
        assert(self.has_tx_hash(h));
        let (n2, i2) = self.tx_hash_pos(h);
        if n2 != n || i2 != i {
            assert(self.body_at(n)[i].hash != self.body_at(n2)[i2].hash);
        }
        assert((n2, i2) == (n, i));
    }

    /// The global number of a transaction position, and that it is in
    /// range.
    pub proof fn lemma_pos_to_id(self, n: int, i: int)
        requires
            0 <= n < self.chain_count(),
            0 <= i < self.body_at(n).len(),
        ensures
            self.owns_tx(n, self.first_tx_of(n) + i),
            self.first_tx_of(n) + i < self.total_txs(),
            self.tx_block_of(self.first_tx_of(n) + i) == n,
            self.tx_index_of(self.first_tx_of(n) + i) == i,
            self.tx_at(self.first_tx_of(n) + i) == self.body_at(n)[i],
    {
        let id = self.first_tx_of(n) + i;
        assert(self.owns_tx(n, id));
        self.lemma_first_tx_monotonic(n + 1, self.chain_count());
        self.lemma_first_tx_monotonic(0, n);
        self.lemma_tx_lookup(id);
    }

    /// The position in the durable store holding a transaction with this
    /// hash, with the global number of the block's first transaction.
    pub(crate) fn store_tx_scan(&self, h: u64) -> (r: Option<(usize, usize, u64)>)
        requires
            self.wf(),
        ensures
            match r {
                Some(p) => {
                    &&& 0 <= (p.0 as int) < self.store_count()
                    &&& 0 <= (p.1 as int) < self.body_at(p.0 as int).len()
                    &&& self.body_at(p.0 as int)[p.1 as int].hash == h
                    &&& p.2 == self.first_tx_of(p.0 as int)
                },
                None => forall|n: int, i: int|
                    #![trigger self.body_at(n)[i]]
                    0 <= n < self.store_count() && 0 <= i < self.body_at(n).len()
                        ==> self.body_at(n)[i].hash != h,
            },
    {
        let store_len = self.database.blocks.len();
        let mut acc: u64 = 0;
        let mut n: usize = 0;
        while n < store_len
            invariant
                self.wf(),
                store_len == self.store_count(),
                n <= store_len,
                acc == self.first_tx_of(n as int),
                forall|m: int, i: int|
                    #![trigger self.body_at(m)[i]]
                    0 <= m < n && 0 <= i < self.body_at(m).len() ==> self.body_at(m)[i].hash != h,
            decreases store_len - n,
        {
            let body = &self.database.blocks[n].block.block.body;
            proof {
                self.lemma_first_tx_monotonic(n as int + 1, self.chain_count());
                assert(self.body_at(n as int) == body@);
            }
            let mut i: usize = 0;
            while i < body.len()
                invariant
                    self.wf(),
                    n < self.store_count(),
                    i <= body@.len(),
                    body@ == self.body_at(n as int),
                    acc == self.first_tx_of(n as int),
                    forall|j: int| 0 <= j < i ==> self.body_at(n as int)[j].hash != h,
                decreases body@.len() - i,
            {
                if body[i].hash == h {
                    return Some((n, i, acc));
                }
                i = i + 1;
            }
            acc = acc + body.len() as u64;
            n = n + 1;
        }
        None
    }

    /// The transaction with global number `id`, from whichever source owns
    /// the block.
    pub fn transaction_by_id(&self, id: u64) -> (r: Result<Option<Transaction>, ProviderError>)
        requires
            self.wf(),
        ensures
            match r {
                Ok(opt) => if id < self.total_txs() {
                    opt == Some(self.tx_at(id as int))
                } else {
                    opt is None
                },
                Err(_) => false,
            },
    {
        match self.block_state_by_tx_id(id) {
            Some((block_number, tx_index)) => {
                proof {
                    self.lemma_tx_lookup(id as int);
                }
                let b = self.executed_by_number(block_number).unwrap();
                Ok(Some(b.block.body[tx_index]))
            },
            None => Ok(None),
        }
    }

    /// The transaction with global number `id`, without its hash, as the
    /// durable transaction table stores it.
    pub fn transaction_by_id_no_hash(&self, id: u64) -> (r: Result<
        Option<TransactionNoHash>,
        ProviderError,
    >)
        requires
            self.wf(),
        ensures
            match r {
                Ok(opt) => if id < self.total_txs() {
                    opt == Some(TransactionNoHash::spec_of(self.tx_at(id as int)))
                } else {
                    opt is None
                },
                Err(_) => false,
            },
    {
        match self.block_state_by_tx_id(id) {
            Some((block_number, tx_index)) => {
                proof {
                    self.lemma_tx_lookup(id as int);
                }
                let b = self.executed_by_number(block_number).unwrap();
                Ok(Some(TransactionNoHash::of(b.block.body[tx_index])))
            },
            None => Ok(None),
        }
    }

    /// The recovered sender of the transaction with global number `id`.
    pub fn transaction_sender(&self, id: u64) -> (r: Result<Option<u64>, ProviderError>)
        requires
            self.wf(),
        ensures
            match r {
                Ok(opt) => if id < self.total_txs() {
                    opt == Some(self.tx_at(id as int).signer)
                } else {
                    opt is None
                },
                Err(_) => false,
            },
    {
        match self.block_state_by_tx_id(id) {
            Some((block_number, tx_index)) => {
                proof {
                    self.lemma_tx_lookup(id as int);
                }
                let b = self.executed_by_number(block_number).unwrap();
                Ok(Some(b.block.body[tx_index].signer))
            },
            None => Ok(None),
        }
    }

    /// The number of the block owning the transaction with global number
    /// `id`, resolved by the same threshold-and-walk primitive as the
    /// other number-keyed transaction queries.
    pub fn transaction_block(&self, id: u64) -> (r: Result<Option<u64>, ProviderError>)
        requires
            self.wf(),
        ensures
            match r {
                Ok(opt) => if id < self.total_txs() {
                    opt == Some(self.tx_block_of(id as int) as u64)
                } else {
                    opt is None
                },
                Err(_) => false,
            },
    {
        match self.block_state_by_tx_id(id) {
            Some((block_number, _)) => {
                proof {
                    self.lemma_tx_lookup(id as int);
                }
                Ok(Some(block_number))
            },
            None => Ok(None),
        }
    }

    /// The transaction carrying this hash. The overlay is walked block by
    /// block in body order first, since it carries no hash index; the
    /// durable hash index answers for persisted transactions.
    pub fn transaction_by_hash(&self, hash: u64) -> (r: Result<Option<Transaction>, ProviderError>)
        requires
            self.wf(),
        ensures
            match r {
                Ok(opt) => if self.has_tx_hash(hash) {
                    opt == Some(self.body_at(self.tx_hash_pos(hash).0)[self.tx_hash_pos(hash).1])
                } else {
                    opt is None
                },
                Err(_) => false,
            },
    {
        if let Some(tx) = self.canonical_in_memory_state.transaction_by_hash(hash) {
            proof {
                let (k, i) = choose|k: int, i: int|
                    #![trigger self.canonical_in_memory_state.block_at(k).block.body@[i]]
                    0 <= k < self.mem_count() && 0 <= i
                        < self.canonical_in_memory_state.block_at(k).block.body@.len()
                        && self.canonical_in_memory_state.block_at(k).block.body@[i] == tx;
                self.lemma_tx_hash_unique(self.store_count() + k, i, hash);
            }
            return Ok(Some(tx));
        }
        match self.store_tx_scan(hash) {
            Some((n, i, _)) => {
                proof {
                    self.lemma_tx_hash_unique(n as int, i as int, hash);
                }
                Ok(Some(self.database.blocks[n].block.block.body[i]))
            },
            None => {
                proof {
                    if self.has_tx_hash(hash) {
                        let (n, i) = self.tx_hash_pos(hash);
                        if n >= self.store_count() {
                            let k = n - self.store_count();
                            assert(self.canonical_in_memory_state.block_at(k).block.body@[i].hash
                                == hash);
                        }
                    }
                }
                Ok(None)
            },
        }
    }

    /// The transaction carrying this hash, with its block position.
    pub fn transaction_by_hash_with_meta(&self, tx_hash: u64) -> (r: Result<
        Option<(Transaction, TransactionMeta)>,
        ProviderError,
    >)
        requires
            self.wf(),
        ensures
            match r {
                Ok(opt) => if self.has_tx_hash(tx_hash) {
                    opt == Some(
                        (
                            self.body_at(self.tx_hash_pos(tx_hash).0)[self.tx_hash_pos(tx_hash).1],
                            TransactionMeta {
                                tx_hash,
                                index: self.tx_hash_pos(tx_hash).1 as u64,
                                block_hash: self.hash_at(self.tx_hash_pos(tx_hash).0),
                                block_number: self.tx_hash_pos(tx_hash).0 as u64,
                            },
                        ),
                    )
                } else {
                    opt is None
                },
                Err(_) => false,
            },
    {
        if let Some((tx, meta)) = self.canonical_in_memory_state.transaction_by_hash_with_meta(
            tx_hash,
        ) {
            proof {
                let (k, i) = choose|k: int, i: int|
                    #![trigger self.canonical_in_memory_state.block_at(k).block.body@[i]]
                    0 <= k < self.mem_count() && 0 <= i
                        < self.canonical_in_memory_state.block_at(k).block.body@.len()
                        && self.canonical_in_memory_state.block_at(k).block.body@[i] == tx && meta
                        == (TransactionMeta {
                        tx_hash,
                        index: i as u64,
                        block_hash: self.canonical_in_memory_state.block_at(k).hash(),
                        block_number: self.canonical_in_memory_state.block_at(k).number(),
                    });
                self.lemma_tx_hash_unique(self.store_count() + k, i, tx_hash);
            }
            return Ok(Some((tx, meta)));
        }
        match self.store_tx_scan(tx_hash) {
            Some((n, i, _)) => {
                proof {
                    self.lemma_tx_hash_unique(n as int, i as int, tx_hash);
                }
                let b = &self.database.blocks[n].block;
                let meta = TransactionMeta {
                    tx_hash,
                    index: i as u64,
                    block_hash: b.block.header.hash,
                    block_number: b.block.header.header.number,
                };
                Ok(Some((b.block.body[i], meta)))
            },
            None => {
                proof {
                    if self.has_tx_hash(tx_hash) {
                        let (n, i) = self.tx_hash_pos(tx_hash);
                        if n >= self.store_count() {
                            let k = n - self.store_count();
                            assert(self.canonical_in_memory_state.block_at(k).block.body@[i].hash
                                == tx_hash);
                        }
                    }
                }
                Ok(None)
            },
        }
    }

    /// The global number of the transaction carrying this hash. The durable
    /// hash index is consulted first; in-memory transactions get their
    /// number reconstructed by the overlay walk.
    pub fn transaction_id(&self, tx_hash: u64) -> (r: Result<Option<u64>, ProviderError>)
        requires
            self.wf(),
        ensures
            match r {
                Ok(opt) => if self.has_tx_hash(tx_hash) {
                    opt == Some(
                        (self.first_tx_of(self.tx_hash_pos(tx_hash).0) + self.tx_hash_pos(
                            tx_hash,
                        ).1) as u64,
                    )
                } else {
                    opt is None
                },
                Err(_) => false,
            },
    {
        // First, check the durable store.
        if let Some((n, i, first)) = self.store_tx_scan(tx_hash) {
            proof {
                self.lemma_tx_hash_unique(n as int, i as int, tx_hash);
                self.lemma_pos_to_id(n as int, i as int);
            }
            return Ok(Some(first + i as u64));
        }
        // Not persisted: walk the overlay accumulating global numbers.
        let mut acc: u64 = 0;
        let mut j: usize = 0;
        let store_len = self.database.blocks.len();
        while j < store_len
            invariant
                self.wf(),
                store_len == self.store_count(),
                j <= store_len,
                acc == self.first_tx_of(j as int),
            decreases store_len - j,
        {
            let body_len = self.database.blocks[j].block.block.body.len();
            proof {
                self.lemma_first_tx_monotonic(j as int + 1, self.chain_count());
                assert(self.body_at(j as int).len() == body_len);
            }
            acc = acc + body_len as u64;
            j = j + 1;
        }
        let mem_len = self.canonical_in_memory_state.chain.len();
        let mut k: usize = 0;
        while k < mem_len
            invariant
                self.wf(),
                store_len == self.store_count(),
                mem_len == self.mem_count(),
                k <= mem_len,
                acc == self.first_tx_of(self.store_count() + k),
                forall|m: int, i: int|
                    #![trigger self.body_at(m)[i]]
                    self.store_count() <= m < self.store_count() + k && 0 <= i < self.body_at(
                        m,
                    ).len() ==> self.body_at(m)[i].hash != tx_hash,
                forall|m: int, i: int|
                    #![trigger self.body_at(m)[i]]
                    0 <= m < self.store_count() && 0 <= i < self.body_at(m).len()
                        ==> self.body_at(m)[i].hash != tx_hash,
            decreases mem_len - k,
        {
            let ghost n = self.store_count() + k;
            let body = &self.canonical_in_memory_state.chain[k].block.body;
            proof {
                self.lemma_first_tx_monotonic(n + 1, self.chain_count());
                assert(self.body_at(n) == body@);
            }
            let mut i: usize = 0;
            while i < body.len()
                invariant
                    self.wf(),
                    0 <= n < self.chain_count(),
                    i <= body@.len(),
                    body@ == self.body_at(n),
                    acc == self.first_tx_of(n),
                    acc + body@.len() <= u64::MAX,
                    forall|j2: int| 0 <= j2 < i ==> self.body_at(n)[j2].hash != tx_hash,
                decreases body@.len() - i,
            {
                if body[i].hash == tx_hash {
                    proof {
                        self.lemma_tx_hash_unique(n, i as int, tx_hash);
                    }
                    return Ok(Some(acc + i as u64));
                }
                i = i + 1;
            }
            acc = acc + body.len() as u64;
            k = k + 1;
        }
        proof {
            if self.has_tx_hash(tx_hash) {
                let (n, i) = self.tx_hash_pos(tx_hash);
                assert(self.body_at(n)[i].hash == tx_hash);
            }
        }
        Ok(None)
    }

    /// The transaction list of the identified block.
    pub fn transactions_by_block(&self, id: BlockHashOrNumber) -> (r: Result<
        Option<Vec<Transaction>>,
        ProviderError,
    >)
        requires
            self.wf(),
        ensures
            match r {
                Ok(opt) => match self.spec_resolve_id(id) {
                    Some(n) => opt matches Some(v) && v@ == self.body_at(n),
                    None => opt is None,
                },
                Err(_) => false,
            },
    {
        let found = match id {
            BlockHashOrNumber::Hash(hash) => self.executed_by_hash(hash),
            BlockHashOrNumber::Number(num) => self.executed_by_number(num),
        };
        match found {
            Some(b) => Ok(Some(copy_vec(&b.block.body))),
            None => Ok(None),
        }
    }
}

} // verus!
