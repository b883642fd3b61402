//! The state-provider resolver: which point-in-time snapshot each state
//! query reads from, and the fork-choice tracking callbacks.

use vstd::prelude::*;

use crate::in_memory::CanonicalInMemoryState;
use crate::provider::BlockchainProvider2;
use crate::types::{
    BlockHashOrNumber, BlockNumberOrTag, ForkchoiceState, ProviderError, SealedHeader, StateView,
};

verus! {

impl BlockchainProvider2 {
    /// The hash of the overlay anchor: the last persisted block, on which
    /// every overlay snapshot is layered.
    pub open spec fn spec_anchor_hash(self) -> u64 {
        self.database.block_at(self.store_count() - 1).hash()
    }

    /// Some overlay block carries this hash.
    pub open spec fn mem_has_hash(self, h: u64) -> bool {
        exists|k: int|
            0 <= k < self.mem_count() && (#[trigger] self.canonical_in_memory_state.block_at(
                k,
            )).hash() == h
    }

    /// What `latest` resolves to: the overlay snapshot at the tracked head
    /// when the overlay holds it, else the durable store's latest state.
    pub open spec fn spec_latest(self) -> StateView {
        if self.mem_has_hash(self.canonical_in_memory_state.head.hash) {
            StateView::InMemory {
                hash: self.canonical_in_memory_state.head.hash,
                anchor_hash: self.spec_anchor_hash(),
            }
        } else {
            StateView::LatestDurable
        }
    }

    /// What a hash-keyed historical query resolves to: a durable snapshot
    /// for a persisted block, an overlay-anchored snapshot for an in-memory
    /// block, and an error for a hash the chain does not know.
    pub open spec fn spec_history_by_hash(self, h: u64) -> Result<StateView, ProviderError> {
        if self.has_block_hash(h) && self.number_of_hash(h) < self.store_count() {
            Ok(StateView::Historical { number: self.number_of_hash(h) as u64 })
        } else if self.mem_has_hash(h) {
            Ok(StateView::InMemory { hash: h, anchor_hash: self.spec_anchor_hash() })
        } else {
            Err(ProviderError::StateForHashNotFound(h))
        }
    }

    /// What a hash-keyed state query resolves to: a historical view, else
    /// the pending state when the hash is the pending block's, else an
    /// error.
    pub open spec fn spec_state_by_hash(self, h: u64) -> Result<StateView, ProviderError> {
        match self.spec_history_by_hash(h) {
            Ok(v) => Ok(v),
            Err(_) => {
                match self.canonical_in_memory_state.pending {
                    Some(p) => if p.hash() == h {
                        Ok(StateView::Pending { hash: h })
                    } else {
                        Err(ProviderError::StateForHashNotFound(h))
                    },
                    None => Err(ProviderError::StateForHashNotFound(h)),
                }
            },
        }
    }

    /// What a number-keyed historical query resolves to: numbers above the
    /// tracked best are rejected before any lookup.
    pub open spec fn spec_history_by_number(self, n: u64) -> Result<StateView, ProviderError> {
        if n > self.spec_best_block_number() {
            Err(ProviderError::HeaderNotFound(BlockHashOrNumber::Number(n)))
        } else {
            match self.spec_block_hash(n) {
                Some(h) => self.spec_history_by_hash(h),
                None => Err(ProviderError::HeaderNotFound(BlockHashOrNumber::Number(n))),
            }
        }
    }

    /// What `pending` resolves to: the pending block's state when one is
    /// tracked, else whatever `latest` resolves to.
    pub open spec fn spec_pending(self) -> StateView {
        match self.canonical_in_memory_state.pending {
            Some(p) => StateView::Pending { hash: p.hash() },
            None => self.spec_latest(),
        }
    }

    /// An overlay-anchored state view at the given in-memory block hash,
    /// layered on the durable base at the overlay anchor.
    fn block_state_provider(&self, hash: u64) -> (r: StateView)
        requires
            self.wf(),
        ensures
            r == (StateView::InMemory { hash, anchor_hash: self.spec_anchor_hash() }),
    {
        let anchor_hash = self.database.blocks[self.database.blocks.len() - 1].block.block.header.hash;
        StateView::InMemory { hash, anchor_hash }
    }

    /// State at the latest block: the overlay head's snapshot if the
    /// overlay holds the head, else the durable latest.
    pub fn latest(&self) -> (r: Result<StateView, ProviderError>)
        requires
            self.wf(),
        ensures
            r == Ok::<StateView, ProviderError>(self.spec_latest()),
    {
        let head_hash = self.canonical_in_memory_state.head.hash;
        match self.canonical_in_memory_state.state_by_hash(head_hash) {
            Some(_) => Ok(self.block_state_provider(head_hash)),
            None => Ok(StateView::LatestDurable),
        }
    }

    /// Historical state by block hash: a durable snapshot if the block is
    /// persisted, an overlay-anchored snapshot if it is in memory, and
    /// `StateForHashNotFound` otherwise.
    pub fn history_by_block_hash(&self, block_hash: u64) -> (r: Result<StateView, ProviderError>)
        requires
            self.wf(),
        ensures
            r == self.spec_history_by_hash(block_hash),
    {
        match self.database.index_by_hash(block_hash) {
            Some(i) => {
                proof {
                    self.lemma_store_hit_hash(i as int, block_hash);
                }
                Ok(StateView::Historical { number: i as u64 })
            },
            None => {
                match self.canonical_in_memory_state.state_by_hash(block_hash) {
                    Some(block_state) => {
                        proof {
                            let k = choose|k: int|
                                0 <= k < self.mem_count()
                                    && (#[trigger] self.canonical_in_memory_state.block_at(
                                    k,
                                )).hash() == block_hash && *block_state
                                    == self.canonical_in_memory_state.block_at(k);
                            self.lemma_mem_hit_hash(k, block_hash);
                        }
                        Ok(self.block_state_provider(block_hash))
                    },
                    None => {
                        proof {
                            self.lemma_miss_hash(block_hash);
                        }
                        Err(ProviderError::StateForHashNotFound(block_hash))
                    },
                }
            },
        }
    }

    /// State by block hash: a historical view, else the pending state for
    /// the pending block's hash, else `StateForHashNotFound`.
    pub fn state_by_block_hash(&self, hash: u64) -> (r: Result<StateView, ProviderError>)
        requires
            self.wf(),
        ensures
            r == self.spec_state_by_hash(hash),
    {
        match self.history_by_block_hash(hash) {
            Ok(v) => Ok(v),
            Err(_) => {
                match self.pending_state_by_hash(hash)? {
                    Some(pending) => Ok(pending),
                    None => Err(ProviderError::StateForHashNotFound(hash)),
                }
            },
        }
    }

    /// Historical state by block number, rejected above the tracked best
    /// block with a not-found condition, else resolved by hash.
    pub fn history_by_block_number(&self, block_number: u64) -> (r: Result<
        StateView,
        ProviderError,
    >)
        requires
            self.wf(),
        ensures
            r == self.spec_history_by_number(block_number),
    {
        self.ensure_canonical_block(block_number)?;
        let hash = match self.block_hash(block_number)? {
            Some(h) => h,
            None => {
                return Err(ProviderError::HeaderNotFound(BlockHashOrNumber::Number(block_number)));
            },
        };
        self.history_by_block_hash(hash)
    }

    /// The pending block's state if one is tracked, else `latest`.
    pub fn pending(&self) -> (r: Result<StateView, ProviderError>)
        requires
            self.wf(),
        ensures
            r == Ok::<StateView, ProviderError>(self.spec_pending()),
    {
        if let Some(block) = self.canonical_in_memory_state.pending_block_num_hash() {
            return Ok(StateView::Pending { hash: block.hash });
        }
        self.latest()
    }

    /// The pending state keyed by hash: present exactly when the tracked
    /// pending block carries this hash.
    pub fn pending_state_by_hash(&self, block_hash: u64) -> (r: Result<
        Option<StateView>,
        ProviderError,
    >)
        ensures
            match r {
                Ok(opt) => match self.canonical_in_memory_state.pending {
                    Some(p) => if p.hash() == block_hash {
                        opt == Some(StateView::Pending { hash: block_hash })
                    } else {
                        opt is None
                    },
                    None => opt is None,
                },
                Err(_) => false,
            },
    {
        if let Some(block) = self.canonical_in_memory_state.pending_block_num_hash() {
            if block.hash == block_hash {
                return Ok(Some(StateView::Pending { hash: block_hash }));
            }
        }
        Ok(None)
    }

    /// State by number-or-tag, dispatching through the overlay's tracked
    /// pointers: `Finalized` and `Safe` fail distinctly when fork choice
    /// never set them.
    pub fn state_by_block_number_or_tag(&self, number_or_tag: BlockNumberOrTag) -> (r: Result<
        StateView,
        ProviderError,
    >)
        requires
            self.wf(),
        ensures
            match number_or_tag {
                BlockNumberOrTag::Latest => r == Ok::<StateView, ProviderError>(
                    self.spec_latest(),
                ),
                BlockNumberOrTag::Finalized => match self.canonical_in_memory_state.finalized {
                    Some(h) => r == self.spec_state_by_hash(h.hash),
                    None => r == Err::<StateView, ProviderError>(
                        ProviderError::FinalizedBlockNotFound,
                    ),
                },
                BlockNumberOrTag::Safe => match self.canonical_in_memory_state.safe {
                    Some(h) => r == self.spec_state_by_hash(h.hash),
                    None => r == Err::<StateView, ProviderError>(ProviderError::SafeBlockNotFound),
                },
                BlockNumberOrTag::Earliest => r == self.spec_history_by_number(0),
                BlockNumberOrTag::Pending => r == Ok::<StateView, ProviderError>(
                    self.spec_pending(),
                ),
                BlockNumberOrTag::Number(num) => match self.spec_block_hash(num) {
                    Some(h) => r == self.spec_state_by_hash(h),
                    None => r == Err::<StateView, ProviderError>(
                        ProviderError::HeaderNotFound(BlockHashOrNumber::Number(num)),
                    ),
                },
            },
    {
        match number_or_tag {
            BlockNumberOrTag::Latest => self.latest(),
            BlockNumberOrTag::Finalized => {
                let hash = match self.finalized_block_num_hash()? {
                    Some(p) => p.hash,
                    None => {
                        return Err(ProviderError::FinalizedBlockNotFound);
                    },
                };
                self.state_by_block_hash(hash)
            },
            BlockNumberOrTag::Safe => {
                let hash = match self.safe_block_num_hash()? {
                    Some(p) => p.hash,
                    None => {
                        return Err(ProviderError::SafeBlockNotFound);
                    },
                };
                self.state_by_block_hash(hash)
            },
            BlockNumberOrTag::Earliest => self.history_by_block_number(0),
            BlockNumberOrTag::Pending => self.pending(),
            BlockNumberOrTag::Number(num) => {
                let hash = match self.block_hash(num)? {
                    Some(h) => h,
                    None => {
                        return Err(ProviderError::HeaderNotFound(BlockHashOrNumber::Number(num)));
                    },
                };
                self.state_by_block_hash(hash)
            },
        }
    }

    /// Records the arrival time of a fork-choice update. The update's
    /// content and the clock reading both come from the caller: consensus
    /// signaling and time live outside this layer.
    pub fn on_forkchoice_update_received(&mut self, _update: &ForkchoiceState, now: u64)
        ensures
            final(self).canonical_in_memory_state == (CanonicalInMemoryState {
                last_forkchoice_update: Some(now),
                ..old(self).canonical_in_memory_state
            }),
            final(self).database == old(self).database,
    {
        self.canonical_in_memory_state.on_forkchoice_update_received(now);
    }

    /// When the last fork-choice update arrived, if any has.
    pub fn last_received_update_timestamp(&self) -> (r: Option<u64>)
        ensures
            r == self.canonical_in_memory_state.last_forkchoice_update,
    {
        self.canonical_in_memory_state.last_received_update_timestamp()
    }

    /// Records the time of a transition-configuration exchange.
    pub fn on_transition_configuration_exchanged(&mut self, now: u64)
        ensures
            final(self).canonical_in_memory_state == (CanonicalInMemoryState {
                last_transition_configuration: Some(now),
                ..old(self).canonical_in_memory_state
            }),
            final(self).database == old(self).database,
    {
        self.canonical_in_memory_state.on_transition_configuration_exchanged(now);
    }

    /// When the last transition configuration was exchanged, if ever.
    pub fn last_exchanged_transition_configuration_timestamp(&self) -> (r: Option<u64>)
        ensures
            r == self.canonical_in_memory_state.last_transition_configuration,
    {
        self.canonical_in_memory_state.last_exchanged_transition_configuration_timestamp()
    }

    /// The canonical-state change events published so far: each commit and
    /// each reorg of the overlay, oldest first, with the tip it installed.
    pub fn subscribe_to_canonical_state(&self) -> (r: Vec<
        crate::in_memory::CanonStateNotification,
    >)
        ensures
            r@ == self.canonical_in_memory_state.notifications@,
    {
        self.canonical_in_memory_state.subscribe_canon_state()
    }

    /// Fork-choice callback: sets the canonical head pointer.
    pub fn set_canonical_head(&mut self, header: SealedHeader)
        ensures
            final(self).canonical_in_memory_state == (CanonicalInMemoryState {
                head: header,
                ..old(self).canonical_in_memory_state
            }),
            final(self).database == old(self).database,
    {
        self.canonical_in_memory_state.set_canonical_head(header);
    }

    /// Fork-choice callback: sets the safe pointer.
    pub fn set_safe(&mut self, header: SealedHeader)
        ensures
            final(self).canonical_in_memory_state == (CanonicalInMemoryState {
                safe: Some(header),
                ..old(self).canonical_in_memory_state
            }),
            final(self).database == old(self).database,
    {
        self.canonical_in_memory_state.set_safe(header);
    }

    /// Fork-choice callback: sets the finalized pointer.
    pub fn set_finalized(&mut self, header: SealedHeader)
        ensures
            final(self).canonical_in_memory_state == (CanonicalInMemoryState {
                finalized: Some(header),
                ..old(self).canonical_in_memory_state
            }),
            final(self).database == old(self).database,
    {
        self.canonical_in_memory_state.set_finalized(header);
    }
}

} // verus!
