//! Block-content queries: whole blocks, senders, ommers, withdrawals and
//! requests, by hash or number.

use vstd::prelude::*;

use crate::provider::BlockchainProvider2;
use crate::types::{
    copy_opt_vec, copy_vec, opt_seq, Block, BlockHashOrNumber, BlockSource, BlockWithSenders,
    ExecutedBlock, Header, ProviderError, Receipt, SealedBlock, SealedBlockWithSenders,
    TransactionVariant, Withdrawal,
};

verus! {

impl BlockchainProvider2 {
    /// The executed block with number `n`: the overlay is probed first,
    /// since it may hold data more recent than anything yet durable.
    pub(crate) fn executed_by_number(&self, n: u64) -> (r: Option<&ExecutedBlock>)
        requires
            self.wf(),
        ensures
            match r {
                Some(b) => n < self.chain_count() && *b == self.block_rec(n as int),
                None => n >= self.chain_count(),
            },
    {
        if let Some(block_state) = self.canonical_in_memory_state.state_by_number(n) {
            proof {
                let k = choose|k: int|
                    0 <= k < self.mem_count() && (#[trigger] self.canonical_in_memory_state.block_at(
                        k,
                    )).number() == n && *block_state == self.canonical_in_memory_state.block_at(k);
                self.lemma_mem_hit_number(k, n);
            }
            return Some(block_state);
        }
        proof {
            self.lemma_mem_miss_number(n);
        }
        if n < self.database.blocks.len() as u64 {
            let idx = n as usize;
            Some(&self.database.blocks[idx].block)
        } else {
            None
        }
    }

    /// The executed block carrying hash `h`, overlay first.
    pub(crate) fn executed_by_hash(&self, h: u64) -> (r: Option<&ExecutedBlock>)
        requires
            self.wf(),
        ensures
            match r {
                Some(b) => self.has_block_hash(h) && *b == self.block_rec(self.number_of_hash(h)),
                None => !self.has_block_hash(h),
            },
    {
        if let Some(block_state) = self.canonical_in_memory_state.state_by_hash(h) {
            proof {
                let k = choose|k: int|
                    0 <= k < self.mem_count() && (#[trigger] self.canonical_in_memory_state.block_at(
                        k,
                    )).hash() == h && *block_state == self.canonical_in_memory_state.block_at(k);
                self.lemma_mem_hit_hash(k, h);
            }
            return Some(block_state);
        }
        match self.database.index_by_hash(h) {
            Some(i) => {
                proof {
                    self.lemma_store_hit_hash(i as int, h);
                }
                Some(&self.database.blocks[i].block)
            },
            None => {
                proof {
                    self.lemma_miss_hash(h);
                }
                None
            },
        }
    }

    /// A hash-keyed block lookup honoring the requested source. Canonical
    /// and unrestricted lookups probe the overlay, then the durable store;
    /// a pending-only lookup reports the tracked pending block.
    pub fn find_block_by_hash(&self, hash: u64, source: BlockSource) -> (r: Result<
        Option<Block>,
        ProviderError,
    >)
        requires
            self.wf(),
        ensures
            match r {
                Ok(opt) => match source {
                    BlockSource::Any | BlockSource::Canonical => match self.spec_resolve_id(
                        BlockHashOrNumber::Hash(hash),
                    ) {
                        Some(n) => opt matches Some(b) && self.block_rec(
                            n,
                        ).block.unsealed_matches(b),
                        None => opt is None,
                    },
                    BlockSource::Pending => match self.canonical_in_memory_state.pending {
                        Some(p) => opt matches Some(b) && p.block.unsealed_matches(b),
                        None => opt is None,
                    },
                },
                Err(_) => false,
            },
    {
        match source {
            BlockSource::Any | BlockSource::Canonical => match self.executed_by_hash(hash) {
                Some(b) => Ok(Some(b.block.unseal())),
                None => Ok(None),
            },
            BlockSource::Pending => match self.canonical_in_memory_state.pending_block() {
                Some(b) => Ok(Some(b.unseal())),
                None => Ok(None),
            },
        }
    }

    /// The block the identifier denotes, from whichever source holds it.
    pub fn block(&self, id: BlockHashOrNumber) -> (r: Result<Option<Block>, ProviderError>)
        requires
            self.wf(),
        ensures
            match r {
                Ok(opt) => match self.spec_resolve_id(id) {
                    Some(n) => opt matches Some(b) && self.block_rec(n).block.unsealed_matches(b),
                    None => opt is None,
                },
                Err(_) => false,
            },
    {
        match id {
            BlockHashOrNumber::Hash(hash) => self.find_block_by_hash(hash, BlockSource::Any),
            BlockHashOrNumber::Number(num) => match self.executed_by_number(num) {
                Some(b) => Ok(Some(b.block.unseal())),
                None => Ok(None),
            },
        }
    }

    /// The tracked pending block, sealed.
    pub fn pending_block(&self) -> (r: Result<Option<SealedBlock>, ProviderError>)
        ensures
            match r {
                Ok(opt) => match self.canonical_in_memory_state.pending {
                    Some(p) => opt matches Some(b) && p.block.matches(b),
                    None => opt is None,
                },
                Err(_) => false,
            },
    {
        Ok(self.canonical_in_memory_state.pending_block())
    }

    /// The tracked pending block with its recovered senders.
    pub fn pending_block_with_senders(&self) -> (r: Result<
        Option<SealedBlockWithSenders>,
        ProviderError,
    >)
        ensures
            match r {
                Ok(opt) => match self.canonical_in_memory_state.pending {
                    Some(p) => opt matches Some(b) && p.block.matches(b.block) && b.senders@
                        == p.senders@,
                    None => opt is None,
                },
                Err(_) => false,
            },
    {
        Ok(self.canonical_in_memory_state.pending_block_with_senders())
    }

    /// The tracked pending block and the receipts its execution produced.
    pub fn pending_block_and_receipts(&self) -> (r: Result<
        Option<(SealedBlock, Vec<Receipt>)>,
        ProviderError,
    >)
        ensures
            match r {
                Ok(opt) => match self.canonical_in_memory_state.pending {
                    Some(p) => opt matches Some(pair) && p.block.matches(pair.0) && pair.1@
                        == p.receipts@,
                    None => opt is None,
                },
                Err(_) => false,
            },
    {
        Ok(self.canonical_in_memory_state.pending_block_and_receipts())
    }

    /// What an uncle-header query reports for the identified block:
    /// post-merge blocks have none by rule, so past the merge activation
    /// the empty list is reported without consulting either source.
    pub open spec fn spec_ommers(self, id: BlockHashOrNumber) -> Option<Seq<Header>> {
        match self.spec_convert_hash_or_number(id) {
            Some(number) => {
                if self.database.chain_spec.spec_final_paris_total_difficulty(number) is Some {
                    Some(Seq::empty())
                } else if number < self.chain_count() {
                    Some(self.block_rec(number as int).block.ommers@)
                } else {
                    None
                }
            },
            None => None,
        }
    }

    /// Uncle headers of the identified block.
    pub fn ommers(&self, id: BlockHashOrNumber) -> (r: Result<Option<Vec<Header>>, ProviderError>)
        requires
            self.wf(),
        ensures
            match r {
                Ok(opt) => match self.spec_ommers(id) {
                    Some(s) => opt matches Some(v) && v@ == s,
                    None => opt is None,
                },
                Err(_) => false,
            },
    {
        match self.convert_hash_or_number(id)? {
            Some(number) => {
                if self.database.chain_spec.final_paris_total_difficulty(number).is_some() {
                    return Ok(Some(Vec::new()));
                }
                match self.executed_by_number(number) {
                    Some(b) => Ok(Some(copy_vec(&b.block.ommers))),
                    None => Ok(None),
                }
            },
            None => Ok(None),
        }
    }

    /// The identified block together with its recovered senders.
    pub fn block_with_senders(&self, id: BlockHashOrNumber, _transaction_kind: TransactionVariant)
        -> (r: Result<Option<BlockWithSenders>, ProviderError>)
        requires
            self.wf(),
        ensures
            match r {
                Ok(opt) => match self.spec_resolve_id(id) {
                    Some(n) => opt matches Some(b) && self.block_rec(n).block.unsealed_matches(
                        b.block,
                    ) && b.senders@ == self.block_rec(n).senders@,
                    None => opt is None,
                },
                Err(_) => false,
            },
    {
        let found = match id {
            BlockHashOrNumber::Hash(hash) => self.executed_by_hash(hash),
            BlockHashOrNumber::Number(num) => self.executed_by_number(num),
        };
        match found {
            Some(b) => Ok(
                Some(
                    BlockWithSenders { block: b.block.unseal(), senders: copy_vec(&b.senders) },
                ),
            ),
            None => Ok(None),
        }
    }

    /// The identified block, still sealed, with its recovered senders.
    pub fn sealed_block_with_senders(
        &self,
        id: BlockHashOrNumber,
        _transaction_kind: TransactionVariant,
    ) -> (r: Result<Option<SealedBlockWithSenders>, ProviderError>)
        requires
            self.wf(),
        ensures
            match r {
                Ok(opt) => match self.spec_resolve_id(id) {
                    Some(n) => opt matches Some(b) && self.block_rec(n).block.matches(b.block)
                        && b.senders@ == self.block_rec(n).senders@,
                    None => opt is None,
                },
                Err(_) => false,
            },
    {
        let found = match id {
            BlockHashOrNumber::Hash(hash) => self.executed_by_hash(hash),
            BlockHashOrNumber::Number(num) => self.executed_by_number(num),
        };
        match found {
            Some(b) => Ok(
                Some(
                    SealedBlockWithSenders {
                        block: b.block.duplicate(),
                        senders: copy_vec(&b.senders),
                    },
                ),
            ),
            None => Ok(None),
        }
    }

    /// Withdrawals of the identified block, absent entirely before the
    /// withdrawal fork activates at the given timestamp.
    pub fn withdrawals_by_block(&self, id: BlockHashOrNumber, timestamp: u64) -> (r: Result<
        Option<Vec<Withdrawal>>,
        ProviderError,
    >)
        requires
            self.wf(),
        ensures
            match r {
                Ok(opt) => if !self.database.chain_spec.spec_is_shanghai_active_at_timestamp(
                    timestamp,
                ) {
                    opt is None
                } else {
                    match self.spec_convert_hash_or_number(id) {
                        Some(number) => if number < self.chain_count() {
                            opt_seq(opt) == opt_seq(
                                self.block_rec(number as int).block.withdrawals,
                            )
                        } else {
                            opt is None
                        },
                        None => opt is None,
                    }
                },
                Err(_) => false,
            },
    {
        if !self.database.chain_spec.is_shanghai_active_at_timestamp(timestamp) {
            return Ok(None);
        }
        let number = match self.convert_hash_or_number(id)? {
            Some(number) => number,
            None => {
                return Ok(None);
            },
        };
        match self.executed_by_number(number) {
            Some(b) => Ok(copy_opt_vec(&b.block.withdrawals)),
            None => Ok(None),
        }
    }

    /// The latest withdrawal of the best block, where the best block is in
    /// memory; of the latest persisted block otherwise.
    pub fn latest_withdrawal(&self) -> (r: Result<Option<Withdrawal>, ProviderError>)
        requires
            self.wf(),
        ensures
            match r {
                Ok(opt) => {
                    let best = self.spec_best_block_number();
                    let source = if self.is_mem(best as int) {
                        self.block_rec(best as int)
                    } else {
                        self.database.block_at(self.store_count() - 1)
                    };
                    opt == match source.block.withdrawals {
                        Some(w) => if w@.len() > 0 {
                            Some(w@.last())
                        } else {
                            None::<Withdrawal>
                        },
                        None => None::<Withdrawal>,
                    }
                },
                Err(_) => false,
            },
    {
        let best_block_num = self.best_block_number()?;
        let from_mem = self.canonical_in_memory_state.state_by_number(best_block_num);
        proof {
            match from_mem {
                Some(b) => {
                    let k = choose|k: int|
                        0 <= k < self.mem_count()
                            && (#[trigger] self.canonical_in_memory_state.block_at(k)).number()
                            == best_block_num && *b == self.canonical_in_memory_state.block_at(k);
                    self.lemma_mem_hit_number(k, best_block_num);
                },
                None => {
                    self.lemma_mem_miss_number(best_block_num);
                },
            }
        }
        let source = match from_mem {
            Some(b) => b,
            None => &self.database.blocks[self.database.blocks.len() - 1].block,
        };
        match &source.block.withdrawals {
            Some(w) => {
                if w.len() > 0 {
                    Ok(Some(w[w.len() - 1]))
                } else {
                    Ok(None)
                }
            },
            None => Ok(None),
        }
    }

    /// Execution-layer requests of the identified block, absent entirely
    /// before the request fork activates at the given timestamp.
    pub fn requests_by_block(&self, id: BlockHashOrNumber, timestamp: u64) -> (r: Result<
        Option<Vec<u64>>,
        ProviderError,
    >)
        requires
            self.wf(),
        ensures
            match r {
                Ok(opt) => if !self.database.chain_spec.spec_is_prague_active_at_timestamp(
                    timestamp,
                ) {
                    opt is None
                } else {
                    match self.spec_convert_hash_or_number(id) {
                        Some(number) => if number < self.chain_count() {
                            opt_seq(opt) == opt_seq(self.block_rec(number as int).block.requests)
                        } else {
                            opt is None
                        },
                        None => opt is None,
                    }
                },
                Err(_) => false,
            },
    {
        if !self.database.chain_spec.is_prague_active_at_timestamp(timestamp) {
            return Ok(None);
        }
        let number = match self.convert_hash_or_number(id)? {
            Some(number) => number,
            None => {
                return Ok(None);
            },
        };
        match self.executed_by_number(number) {
            Some(b) => Ok(copy_opt_vec(&b.block.requests)),
            None => Ok(None),
        }
    }
}

} // verus!
