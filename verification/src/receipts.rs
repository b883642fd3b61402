//! Receipt resolution and the durable-store transaction-range queries,
//! mirroring the number-keyed transaction lookups.

use vstd::prelude::*;

use crate::provider::BlockchainProvider2;
use crate::types::{
    copy_vec, AccountBeforeTx, BlockHashOrNumber, ProviderError, Receipt, Transaction,
    TransactionNoHash,
};

verus! {

impl BlockchainProvider2 {
    /// The receipt of the transaction with global number `id`.
    pub open spec fn receipt_at(self, id: int) -> Receipt {
        self.block_rec(self.tx_block_of(id)).receipts@[self.tx_index_of(id)]
    }

    /// How many transactions the durable store persists.
    pub open spec fn store_tx_total(self) -> int {
        self.first_tx_of(self.store_count())
    }

    /// The receipt of the transaction with global number `id`, resolved by
    /// the same threshold-and-walk primitive as number-keyed transaction
    /// lookups.
    pub fn receipt(&self, id: u64) -> (r: Result<Option<Receipt>, ProviderError>)
        requires
            self.wf(),
        ensures
            match r {
                Ok(opt) => if id < self.total_txs() {
                    opt == Some(self.receipt_at(id as int))
                } else {
                    opt is None
                },
                Err(_) => false,
            },
    {
        match self.block_state_by_tx_id(id) {
            Some((block_number, tx_index)) => {
                proof {
                    self.lemma_tx_lookup(id as int);
                }
                let b = self.executed_by_number(block_number).unwrap();
                Ok(Some(b.receipts[tx_index]))
            },
            None => Ok(None),
        }
    }

    /// The receipt of the transaction carrying this hash. The canonical
    /// overlay chain is walked first; each walked block's body length must
    /// equal its receipt count — a mismatch would mean corrupted executed
    /// blocks, which the invariant rules out.
    pub fn receipt_by_hash(&self, hash: u64) -> (r: Result<Option<Receipt>, ProviderError>)
        requires
            self.wf(),
        ensures
            match r {
                Ok(opt) => if self.has_tx_hash(hash) {
                    opt == Some(
                        self.block_rec(self.tx_hash_pos(hash).0).receipts@[self.tx_hash_pos(
                            hash,
                        ).1],
                    )
                } else {
                    opt is None
                },
                Err(_) => false,
            },
    {
        let mem_len = self.canonical_in_memory_state.chain.len();
        let mut k: usize = 0;
        while k < mem_len
            invariant
                self.wf(),
                mem_len == self.mem_count(),
                k <= mem_len,
                forall|m: int, i: int|
                    #![trigger self.body_at(m)[i]]
                    self.store_count() <= m < self.store_count() + k && 0 <= i < self.body_at(
                        m,
                    ).len() ==> self.body_at(m)[i].hash != hash,
            decreases mem_len - k,
        {
            let ghost n = self.store_count() + k;
            let block_state = &self.canonical_in_memory_state.chain[k];
            let body = &block_state.block.body;
            let receipts = &block_state.receipts;
            assert(body.len() == receipts.len());
            let mut i: usize = 0;
            while i < body.len()
                invariant
                    self.wf(),
                    self.store_count() <= n < self.chain_count(),
                    i <= body@.len(),
                    body@ == self.body_at(n),
                    receipts@ == self.block_rec(n).receipts@,
                    receipts@.len() == body@.len(),
                    forall|j: int| 0 <= j < i ==> self.body_at(n)[j].hash != hash,
                decreases body@.len() - i,
            {
                if body[i].hash == hash {
                    proof {
                        self.lemma_tx_hash_unique(n, i as int, hash);
                    }
                    return Ok(Some(receipts[i]));
                }
                i = i + 1;
            }
            k = k + 1;
        }
        match self.store_tx_scan(hash) {
            Some((n, i, _)) => {
                proof {
                    self.lemma_tx_hash_unique(n as int, i as int, hash);
                }
                let b = &self.database.blocks[n].block;
                assert(b.block.body.len() == b.receipts.len());
                Ok(Some(b.receipts[i]))
            },
            None => {
                proof {
                    if self.has_tx_hash(hash) {
                        let (n, i) = self.tx_hash_pos(hash);
                        assert(self.body_at(n)[i].hash == hash);
                    }
                }
                Ok(None)
            },
        }
    }

    /// The receipts of the identified block.
    pub fn receipts_by_block(&self, block: BlockHashOrNumber) -> (r: Result<
        Option<Vec<Receipt>>,
        ProviderError,
    >)
        requires
            self.wf(),
        ensures
            match r {
                Ok(opt) => match self.spec_resolve_id(block) {
                    Some(n) => opt matches Some(v) && v@ == self.block_rec(n).receipts@,
                    None => opt is None,
                },
                Err(_) => false,
            },
    {
        let found = match block {
            BlockHashOrNumber::Hash(hash) => self.executed_by_hash(hash),
            BlockHashOrNumber::Number(number) => self.executed_by_number(number),
        };
        match found {
            Some(b) => Ok(Some(copy_vec(&b.receipts))),
            None => Ok(None),
        }
    }

    /// The pre-state change set of block `block_number`: what the overlay
    /// recorded for an in-memory block, the durable change-set table for a
    /// persisted one, and nothing for a block the chain does not reach.
    pub fn account_block_changeset(&self, block_number: u64) -> (r: Result<
        Vec<AccountBeforeTx>,
        ProviderError,
    >)
        requires
            self.wf(),
        ensures
            match r {
                Ok(v) => if block_number < self.chain_count() {
                    v@ == self.block_rec(block_number as int).changed_accounts@
                } else {
                    v@.len() == 0
                },
                Err(_) => false,
            },
    {
        match self.executed_by_number(block_number) {
            Some(b) => Ok(copy_vec(&b.changed_accounts)),
            None => Ok(Vec::new()),
        }
    }

    /// How many global transaction numbers of `start..=end` the durable
    /// store can answer for: the span is clipped to the persisted total.
    pub open spec fn tx_num_range_len(self, start: u64, end: u64) -> int {
        if start > end || start >= self.store_tx_total() {
            0
        } else if end >= self.store_tx_total() {
            self.store_tx_total() - start
        } else {
            end - start + 1
        }
    }

    /// The persisted transactions with global numbers in `start..=end`.
    fn store_txs_in_range(&self, start: u64, end: u64) -> (r: Vec<Transaction>)
        requires
            self.wf(),
        ensures
            r@.len() == self.tx_num_range_len(start, end),
            forall|t: int| 0 <= t < r@.len() ==> #[trigger] r@[t] == self.tx_at(start + t),
    {
        let mut out: Vec<Transaction> = Vec::new();
        let store_len = self.database.blocks.len();
        let mut g: u64 = 0;
        let mut n: usize = 0;
        while n < store_len
            invariant
                self.wf(),
                store_len == self.store_count(),
                n <= store_len,
                g == self.first_tx_of(n as int),
                out@.len() == if g <= start || start > end {
                    0int
                } else {
                    (if g as int <= end as int + 1 {
                        g as int
                    } else {
                        end as int + 1
                    }) - start
                },
                forall|t: int| 0 <= t < out@.len() ==> #[trigger] out@[t] == self.tx_at(start + t),
            decreases store_len - n,
        {
            let body = &self.database.blocks[n].block.block.body;
            proof {
                self.lemma_first_tx_monotonic(n as int + 1, self.chain_count());
                assert(self.body_at(n as int) == body@);
            }
            let mut i: usize = 0;
            while i < body.len()
                invariant
                    self.wf(),
                    n < self.store_count(),
                    i <= body@.len(),
                    body@ == self.body_at(n as int),
                    g == self.first_tx_of(n as int) + i,
                    g as int <= self.total_txs(),
                    out@.len() == if g <= start || start > end {
                        0int
                    } else {
                        (if g as int <= end as int + 1 {
                            g as int
                        } else {
                            end as int + 1
                        }) - start
                    },
                    forall|t: int|
                        0 <= t < out@.len() ==> #[trigger] out@[t] == self.tx_at(start + t),
                decreases body@.len() - i,
            {
                if start <= g && g <= end {
                    proof {
                        self.lemma_pos_to_id(n as int, i as int);
                    }
                    out.push(body[i]);
                }
                proof {
                    self.lemma_pos_to_id(n as int, i as int);
                }
                g = g + 1;
                i = i + 1;
            }
            n = n + 1;
        }
        proof {
            assert(g == self.store_tx_total());
        }
        out
    }

    /// The persisted receipts with global numbers in `start..=end`.
    fn store_receipts_in_range(&self, start: u64, end: u64) -> (r: Vec<Receipt>)
        requires
            self.wf(),
        ensures
            r@.len() == self.tx_num_range_len(start, end),
            forall|t: int| 0 <= t < r@.len() ==> #[trigger] r@[t] == self.receipt_at(start + t),
    {
        let mut out: Vec<Receipt> = Vec::new();
        let store_len = self.database.blocks.len();
        let mut g: u64 = 0;
        let mut n: usize = 0;
        while n < store_len
            invariant
                self.wf(),
                store_len == self.store_count(),
                n <= store_len,
                g == self.first_tx_of(n as int),
                out@.len() == if g <= start || start > end {
                    0int
                } else {
                    (if g as int <= end as int + 1 {
                        g as int
                    } else {
                        end as int + 1
                    }) - start
                },
                forall|t: int|
                    0 <= t < out@.len() ==> #[trigger] out@[t] == self.receipt_at(start + t),
            decreases store_len - n,
        {
            let block = &self.database.blocks[n].block;
            let body = &block.block.body;
            let receipts = &block.receipts;
            proof {
                self.lemma_first_tx_monotonic(n as int + 1, self.chain_count());
                assert(self.body_at(n as int) == body@);
                assert(self.block_rec(n as int).receipts@ == receipts@);
            }
            assert(receipts.len() == body.len());
            let mut i: usize = 0;
            while i < body.len()
                invariant
                    self.wf(),
                    n < self.store_count(),
                    i <= body@.len(),
                    body@ == self.body_at(n as int),
                    receipts@ == self.block_rec(n as int).receipts@,
                    receipts@.len() == body@.len(),
                    g == self.first_tx_of(n as int) + i,
                    g as int <= self.total_txs(),
                    out@.len() == if g <= start || start > end {
                        0int
                    } else {
                        (if g as int <= end as int + 1 {
                            g as int
                        } else {
                            end as int + 1
                        }) - start
                    },
                    forall|t: int|
                        0 <= t < out@.len() ==> #[trigger] out@[t] == self.receipt_at(start + t),
                decreases body@.len() - i,
            {
                if start <= g && g <= end {
                    proof {
                        self.lemma_pos_to_id(n as int, i as int);
                    }
                    out.push(receipts[i]);
                }
                proof {
                    self.lemma_pos_to_id(n as int, i as int);
                }
                g = g + 1;
                i = i + 1;
            }
            n = n + 1;
        }
        proof {
            assert(g == self.store_tx_total());
        }
        out
    }

    /// The transactions with global numbers in `start..=end`, without
    /// hashes, answered by the durable store alone.
    pub fn transactions_by_tx_range(&self, start: u64, end: u64) -> (r: Result<
        Vec<TransactionNoHash>,
        ProviderError,
    >)
        requires
            self.wf(),
        ensures
            match r {
                Ok(v) => {
                    &&& v@.len() == self.tx_num_range_len(start, end)
                    &&& forall|t: int|
                        0 <= t < v@.len() ==> #[trigger] v@[t] == TransactionNoHash::spec_of(
                            self.tx_at(start + t),
                        )
                },
                Err(_) => false,
            },
    {
        let txs = self.store_txs_in_range(start, end);
        let mut out: Vec<TransactionNoHash> = Vec::new();
        let mut i: usize = 0;
        while i < txs.len()
            invariant
                i <= txs@.len(),
                out@.len() == i,
                forall|t: int|
                    0 <= t < i ==> #[trigger] out@[t] == TransactionNoHash::spec_of(txs@[t]),
            decreases txs@.len() - i,
        {
            out.push(TransactionNoHash::of(txs[i]));
            i = i + 1;
        }
        Ok(out)
    }

    /// The recovered senders of the transactions with global numbers in
    /// `start..=end`, answered by the durable store alone.
    pub fn senders_by_tx_range(&self, start: u64, end: u64) -> (r: Result<Vec<u64>, ProviderError>)
        requires
            self.wf(),
        ensures
            match r {
                Ok(v) => {
                    &&& v@.len() == self.tx_num_range_len(start, end)
                    &&& forall|t: int|
                        0 <= t < v@.len() ==> #[trigger] v@[t] == self.tx_at(start + t).signer
                },
                Err(_) => false,
            },
    {
        let txs = self.store_txs_in_range(start, end);
        let mut out: Vec<u64> = Vec::new();
        let mut i: usize = 0;
        while i < txs.len()
            invariant
                i <= txs@.len(),
                out@.len() == i,
                forall|t: int| 0 <= t < i ==> #[trigger] out@[t] == txs@[t].signer,
            decreases txs@.len() - i,
        {
            out.push(txs[i].signer);
            i = i + 1;
        }
        Ok(out)
    }

    /// The receipts of the transactions with global numbers in
    /// `start..=end`, answered by the durable store alone.
    pub fn receipts_by_tx_range(&self, start: u64, end: u64) -> (r: Result<
        Vec<Receipt>,
        ProviderError,
    >)
        requires
            self.wf(),
        ensures
            match r {
                Ok(v) => {
                    &&& v@.len() == self.tx_num_range_len(start, end)
                    &&& forall|t: int|
                        0 <= t < v@.len() ==> #[trigger] v@[t] == self.receipt_at(start + t)
                },
                Err(_) => false,
            },
    {
        Ok(self.store_receipts_in_range(start, end))
    }
}

} // verus!
