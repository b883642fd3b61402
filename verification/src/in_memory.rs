//! The in-memory canonical overlay: the chain above the persisted
//! boundary, the fork-choice pointers, the pending block, and the
//! canonical-state change log.

use vstd::prelude::*;

use crate::types::{
    copy_vec, BlockNumHash, ChainInfo, ExecutedBlock, Header, Receipt, SealedBlock,
    SealedBlockWithSenders, SealedHeader, Transaction, TransactionMeta,
};

verus! {

/// One canonical-state change event, as downstream subscribers observe
/// it: each commit or reorg publishes the new tip it installed.
#[derive(Clone, Copy, PartialEq, Eq, Debug)]
pub enum CanonStateNotification {
    Commit { tip: BlockNumHash },
    Reorg { tip: BlockNumHash },
}

/// An atomic replacement of the overlay chain: either new blocks committed
/// on top of the current tip, or a reorg that substitutes a tail of the
/// chain.
pub enum NewCanonicalChain {
    Commit { new: Vec<ExecutedBlock> },
    Reorg { new: Vec<ExecutedBlock> },
}

/// The in-memory canonical overlay: the ordered chain of executed blocks
/// above the persisted boundary, the independently settable head, safe and
/// finalized pointers, the pending-block slot, and the fork-choice signal
/// timestamps. `chain` is an arena keyed by position: walking it in order is
/// walking the parent references from the anchor to the tip.
#[derive(Clone)]
pub struct CanonicalInMemoryState {
    pub chain: Vec<ExecutedBlock>,
    pub head: SealedHeader,
    pub safe: Option<SealedHeader>,
    pub finalized: Option<SealedHeader>,
    pub pending: Option<ExecutedBlock>,
    pub last_forkchoice_update: Option<u64>,
    pub last_transition_configuration: Option<u64>,
    pub notifications: Vec<CanonStateNotification>,
}

impl CanonicalInMemoryState {
    /// How many blocks the overlay holds.
    pub open spec fn count(self) -> int {
        self.chain@.len() as int
    }

    /// The overlay block at position `k` (the anchor's `k + 1`-th child).
    pub open spec fn block_at(self, k: int) -> ExecutedBlock {
        self.chain@[k]
    }

    /// An overlay with no blocks, tracking the given head and, if known, the
    /// finalized pointer.
    pub fn with_head(head: SealedHeader, finalized: Option<SealedHeader>) -> (r: Self)
        ensures
            r.chain@.len() == 0,
            r.head == head,
            r.safe is None,
            r.finalized == finalized,
            r.pending is None,
            r.last_forkchoice_update is None,
            r.last_transition_configuration is None,
            r.notifications@.len() == 0,
    {
        CanonicalInMemoryState {
            chain: Vec::new(),
            head,
            safe: None,
            finalized,
            pending: None,
            last_forkchoice_update: None,
            last_transition_configuration: None,
            notifications: Vec::new(),
        }
    }

    /// What `update_chain` leaves as the overlay chain: a commit appends to
    /// the chain; a reorg keeps the prefix below the new segment's first
    /// number and substitutes the rest.
    pub open spec fn chain_after(self, update: NewCanonicalChain) -> Seq<ExecutedBlock> {
        match update {
            NewCanonicalChain::Commit { new } => self.chain@ + new@,
            NewCanonicalChain::Reorg { new } => {
                let keep = new@[0].number() - self.chain@[0].number();
                self.chain@.subrange(0, keep as int) + new@
            },
        }
    }

    /// The event an update publishes to subscribers: the tip the update
    /// installs. A commit of nothing publishes nothing.
    pub open spec fn notice_of(self, update: NewCanonicalChain) -> Option<CanonStateNotification> {
        match update {
            NewCanonicalChain::Commit { new } => if new@.len() > 0 {
                Some(
                    CanonStateNotification::Commit {
                        tip: BlockNumHash {
                            number: new@.last().number(),
                            hash: new@.last().hash(),
                        },
                    },
                )
            } else {
                None
            },
            NewCanonicalChain::Reorg { new } => Some(
                CanonStateNotification::Reorg {
                    tip: BlockNumHash { number: new@.last().number(), hash: new@.last().hash() },
                },
            ),
        }
    }

    /// Which updates the overlay accepts: committed blocks must extend the
    /// tip contiguously; a reorg segment must land inside or just above the
    /// chain.
    pub open spec fn accepts(self, update: NewCanonicalChain) -> bool {
        match update {
            NewCanonicalChain::Commit { new } => true,
            NewCanonicalChain::Reorg { new } => {
                &&& new@.len() > 0
                &&& self.chain@.len() > 0
                &&& self.chain@[0].number() <= new@[0].number()
                &&& new@[0].number() - self.chain@[0].number() <= self.chain@.len()
            },
        }
    }

    /// The one mutating transition: atomically replace the visible chain.
    /// Validating the new segment (linkage, numbering) is the committer's
    /// duty; this layer only publishes it.
    pub fn update_chain(&mut self, update: NewCanonicalChain)
        requires
            old(self).accepts(update),
        ensures
            final(self).chain@ == old(self).chain_after(update),
            final(self).notifications@ == match old(self).notice_of(update) {
                Some(event) => old(self).notifications@.push(event),
                None => old(self).notifications@,
            },
            final(self).head == old(self).head,
            final(self).safe == old(self).safe,
            final(self).finalized == old(self).finalized,
            final(self).pending == old(self).pending,
            final(self).last_forkchoice_update == old(self).last_forkchoice_update,
            final(self).last_transition_configuration == old(
                self,
            ).last_transition_configuration,
    {
        match update {
            NewCanonicalChain::Commit { new } => {
                let mut new = new;
                if new.len() > 0 {
                    let tip_block = &new[new.len() - 1];
                    self.notifications.push(
                        CanonStateNotification::Commit {
                            tip: BlockNumHash {
                                number: tip_block.block.header.header.number,
                                hash: tip_block.block.header.hash,
                            },
                        },
                    );
                }
                self.chain.append(&mut new);
            },
            NewCanonicalChain::Reorg { new } => {
                let mut new = new;
                let tip_block = &new[new.len() - 1];
                self.notifications.push(
                    CanonStateNotification::Reorg {
                        tip: BlockNumHash {
                            number: tip_block.block.header.header.number,
                            hash: tip_block.block.header.hash,
                        },
                    },
                );
                let keep_u64 = new[0].block.header.header.number
                    - self.chain[0].block.header.header.number;
                let keep = keep_u64 as usize;
                self.chain.truncate(keep);
                self.chain.append(&mut new);
            },
        }
    }

    /// The canonical-state change events published so far, oldest first: a
    /// subscriber reads the commits and reorgs it has not yet consumed.
    pub fn subscribe_canon_state(&self) -> (r: Vec<CanonStateNotification>)
        ensures
            r@ == self.notifications@,
    {
        crate::types::copy_vec(&self.notifications)
    }

    /// The overlay block with number `number`, if the chain holds it.
    pub fn state_by_number(&self, number: u64) -> (r: Option<&ExecutedBlock>)
        ensures
            match r {
                Some(b) => exists|k: int|
                    0 <= k < self.count() && (#[trigger] self.block_at(k)).number() == number
                        && *b == self.block_at(k),
                None => forall|k: int|
                    0 <= k < self.count() ==> (#[trigger] self.block_at(k)).number() != number,
            },
    {
        let mut k: usize = 0;
        while k < self.chain.len()
            invariant
                k <= self.count(),
                forall|j: int|
                    0 <= j < k ==> (#[trigger] self.block_at(j)).number() != number,
            decreases self.count() - k,
        {
            if self.chain[k].block.header.header.number == number {
                let b = &self.chain[k];
                proof {
                    assert(self.block_at(k as int).number() == number && *b == self.block_at(
                        k as int,
                    ));
                }
                return Some(b);
            }
            k = k + 1;
        }
        None
    }

    /// The overlay block with the given hash, if the chain holds it.
    pub fn state_by_hash(&self, hash: u64) -> (r: Option<&ExecutedBlock>)
        ensures
            match r {
                Some(b) => exists|k: int|
                    0 <= k < self.count() && (#[trigger] self.block_at(k)).hash() == hash && *b
                        == self.block_at(k),
                None => forall|k: int|
                    0 <= k < self.count() ==> (#[trigger] self.block_at(k)).hash() != hash,
            },
    {
        let mut k: usize = 0;
        while k < self.chain.len()
            invariant
                k <= self.count(),
                forall|j: int| 0 <= j < k ==> (#[trigger] self.block_at(j)).hash() != hash,
            decreases self.count() - k,
        {
            if self.chain[k].block.header.hash == hash {
                let b = &self.chain[k];
                proof {
                    assert(self.block_at(k as int).hash() == hash && *b == self.block_at(
                        k as int,
                    ));
                }
                return Some(b);
            }
            k = k + 1;
        }
        None
    }

    /// The hash of the overlay block with number `number`, if held.
    pub fn hash_by_number(&self, number: u64) -> (r: Option<u64>)
        ensures
            match r {
                Some(h) => exists|k: int|
                    0 <= k < self.count() && (#[trigger] self.block_at(k)).number() == number
                        && self.block_at(k).hash() == h,
                None => forall|k: int|
                    0 <= k < self.count() ==> (#[trigger] self.block_at(k)).number() != number,
            },
    {
        match self.state_by_number(number) {
            Some(b) => Some(b.block.header.hash),
            None => None,
        }
    }

    /// The number the chain-info tracker reports as best.
    pub fn get_canonical_block_number(&self) -> (r: u64)
        ensures
            r == self.head.header.number,
    {
        self.head.header.number
    }

    /// The tracked canonical head.
    pub fn get_canonical_head(&self) -> (r: SealedHeader)
        ensures
            r == self.head,
    {
        self.head
    }

    /// Best block number and hash, from the tracked head.
    pub fn chain_info(&self) -> (r: ChainInfo)
        ensures
            r == (ChainInfo { best_hash: self.head.hash, best_number: self.head.header.number }),
    {
        ChainInfo { best_hash: self.head.hash, best_number: self.head.header.number }
    }

    pub fn get_safe_header(&self) -> (r: Option<SealedHeader>)
        ensures
            r == self.safe,
    {
        self.safe
    }

    pub fn get_finalized_header(&self) -> (r: Option<SealedHeader>)
        ensures
            r == self.finalized,
    {
        self.finalized
    }

    pub fn get_safe_num_hash(&self) -> (r: Option<BlockNumHash>)
        ensures
            match self.safe {
                Some(h) => r == Some(BlockNumHash { number: h.header.number, hash: h.hash }),
                None => r is None,
            },
    {
        match self.safe {
            Some(h) => Some(BlockNumHash { number: h.header.number, hash: h.hash }),
            None => None,
        }
    }

    pub fn get_finalized_num_hash(&self) -> (r: Option<BlockNumHash>)
        ensures
            match self.finalized {
                Some(h) => r == Some(BlockNumHash { number: h.header.number, hash: h.hash }),
                None => r is None,
            },
    {
        match self.finalized {
            Some(h) => Some(BlockNumHash { number: h.header.number, hash: h.hash }),
            None => None,
        }
    }

    /// Sets the canonical head pointer on fork-choice signaling.
    pub fn set_canonical_head(&mut self, header: SealedHeader)
        ensures
            *final(self) == (CanonicalInMemoryState { head: header, ..*old(self) }),
    {
        self.head = header;
    }

    /// Sets the safe pointer on fork-choice signaling.
    pub fn set_safe(&mut self, header: SealedHeader)
        ensures
            *final(self) == (CanonicalInMemoryState { safe: Some(header), ..*old(self) }),
    {
        self.safe = Some(header);
    }

    /// Sets the finalized pointer on fork-choice signaling.
    pub fn set_finalized(&mut self, header: SealedHeader)
        ensures
            *final(self) == (CanonicalInMemoryState { finalized: Some(header), ..*old(self) }),
    {
        self.finalized = Some(header);
    }

    /// Tracks or clears the pending block.
    pub fn set_pending_block(&mut self, pending: Option<ExecutedBlock>)
        ensures
            match pending {
                Some(b) => final(self).pending matches Some(p) && p.block.matches(b.block)
                    && p.senders@ == b.senders@ && p.receipts@ == b.receipts@
                    && p.changed_accounts@ == b.changed_accounts@,
                None => final(self).pending is None,
            },
            final(self).chain@ == old(self).chain@,
            final(self).head == old(self).head,
            final(self).safe == old(self).safe,
            final(self).finalized == old(self).finalized,
            final(self).last_forkchoice_update == old(self).last_forkchoice_update,
            final(self).last_transition_configuration == old(
                self,
            ).last_transition_configuration,
            final(self).notifications@ == old(self).notifications@,
    {
        self.pending = pending;
    }

    pub fn pending_block_num_hash(&self) -> (r: Option<BlockNumHash>)
        ensures
            match self.pending {
                Some(b) => r == Some(BlockNumHash { number: b.number(), hash: b.hash() }),
                None => r is None,
            },
    {
        match &self.pending {
            Some(b) => Some(
                BlockNumHash { number: b.block.header.header.number, hash: b.block.header.hash },
            ),
            None => None,
        }
    }

    pub fn pending_header(&self) -> (r: Option<Header>)
        ensures
            match self.pending {
                Some(b) => r == Some(b.block.header.header),
                None => r is None,
            },
    {
        match &self.pending {
            Some(b) => Some(b.block.header.header),
            None => None,
        }
    }

    pub fn pending_sealed_header(&self) -> (r: Option<SealedHeader>)
        ensures
            match self.pending {
                Some(b) => r == Some(b.block.header),
                None => r is None,
            },
    {
        match &self.pending {
            Some(b) => Some(b.block.header),
            None => None,
        }
    }

    /// The pending block, sealed, if one is tracked.
    pub fn pending_block(&self) -> (r: Option<SealedBlock>)
        ensures
            match self.pending {
                Some(b) => r matches Some(s) && b.block.matches(s),
                None => r is None,
            },
    {
        match &self.pending {
            Some(b) => Some(b.block.duplicate()),
            None => None,
        }
    }

    /// The pending block with its recovered senders, if one is tracked.
    pub fn pending_block_with_senders(&self) -> (r: Option<SealedBlockWithSenders>)
        ensures
            match self.pending {
                Some(b) => r matches Some(s) && b.block.matches(s.block) && s.senders@
                    == b.senders@,
                None => r is None,
            },
    {
        match &self.pending {
            Some(b) => Some(
                SealedBlockWithSenders { block: b.block.duplicate(), senders: copy_vec(&b.senders) },
            ),
            None => None,
        }
    }

    /// The pending block and its receipts, if one is tracked.
    pub fn pending_block_and_receipts(&self) -> (r: Option<(SealedBlock, Vec<Receipt>)>)
        ensures
            match self.pending {
                Some(b) => r matches Some(s) && b.block.matches(s.0) && s.1@ == b.receipts@,
                None => r is None,
            },
    {
        match &self.pending {
            Some(b) => Some((b.block.duplicate(), copy_vec(&b.receipts))),
            None => None,
        }
    }

    /// Records when a fork-choice update was received. The caller hands the
    /// clock reading in: time is outside this layer.
    pub fn on_forkchoice_update_received(&mut self, now: u64)
        ensures
            *final(self) == (CanonicalInMemoryState {
                last_forkchoice_update: Some(now),
                ..*old(self)
            }),
    {
        self.last_forkchoice_update = Some(now);
    }

    pub fn last_received_update_timestamp(&self) -> (r: Option<u64>)
        ensures
            r == self.last_forkchoice_update,
    {
        self.last_forkchoice_update
    }

    /// Records when a transition-configuration exchange happened.
    pub fn on_transition_configuration_exchanged(&mut self, now: u64)
        ensures
            *final(self) == (CanonicalInMemoryState {
                last_transition_configuration: Some(now),
                ..*old(self)
            }),
    {
        self.last_transition_configuration = Some(now);
    }

    pub fn last_exchanged_transition_configuration_timestamp(&self) -> (r: Option<u64>)
        ensures
            r == self.last_transition_configuration,
    {
        self.last_transition_configuration
    }

    /// The transaction with the given hash among the overlay blocks, walked
    /// block by block in body order.
    pub fn transaction_by_hash(&self, hash: u64) -> (r: Option<Transaction>)
        ensures
            match r {
                Some(t) => t.hash == hash && exists|k: int, i: int|
                    #![trigger self.block_at(k).block.body@[i]]
                    0 <= k < self.count() && 0 <= i < self.block_at(k).block.body@.len()
                        && self.block_at(k).block.body@[i] == t,
                None => forall|k: int, i: int|
                    #![trigger self.block_at(k).block.body@[i]]
                    0 <= k < self.count() && 0 <= i < self.block_at(k).block.body@.len()
                        ==> self.block_at(k).block.body@[i].hash != hash,
            },
    {
        let mut k: usize = 0;
        while k < self.chain.len()
            invariant
                k <= self.count(),
                forall|j: int, i: int|
                    #![trigger self.block_at(j).block.body@[i]]
                    0 <= j < k && 0 <= i < self.block_at(j).block.body@.len()
                        ==> self.block_at(j).block.body@[i].hash != hash,
            decreases self.count() - k,
        {
            let body = &self.chain[k].block.body;
            let mut i: usize = 0;
            while i < body.len()
                invariant
                    k < self.count(),
                    i <= body@.len(),
                    body == &self.block_at(k as int).block.body,
                    forall|j: int| 0 <= j < i ==> body@[j].hash != hash,
                decreases body@.len() - i,
            {
                if body[i].hash == hash {
                    return Some(body[i]);
                }
                i = i + 1;
            }
            k = k + 1;
        }
        None
    }

    /// The transaction with the given hash, together with its in-block
    /// position and the block that holds it.
    pub fn transaction_by_hash_with_meta(&self, hash: u64) -> (r: Option<
        (Transaction, TransactionMeta),
    >)
        ensures
            match r {
                Some(p) => p.0.hash == hash && exists|k: int, i: int|
                    #![trigger self.block_at(k).block.body@[i]]
                    0 <= k < self.count() && 0 <= i < self.block_at(k).block.body@.len()
                        && self.block_at(k).block.body@[i] == p.0 && p.1 == (
                    TransactionMeta {
                        tx_hash: hash,
                        index: i as u64,
                        block_hash: self.block_at(k).hash(),
                        block_number: self.block_at(k).number(),
                    }),
                None => forall|k: int, i: int|
                    #![trigger self.block_at(k).block.body@[i]]
                    0 <= k < self.count() && 0 <= i < self.block_at(k).block.body@.len()
                        ==> self.block_at(k).block.body@[i].hash != hash,
            },
    {
        let mut k: usize = 0;
        while k < self.chain.len()
            invariant
                k <= self.count(),
                forall|j: int, i: int|
                    #![trigger self.block_at(j).block.body@[i]]
                    0 <= j < k && 0 <= i < self.block_at(j).block.body@.len()
                        ==> self.block_at(j).block.body@[i].hash != hash,
            decreases self.count() - k,
        {
            let body = &self.chain[k].block.body;
            let mut i: usize = 0;
            while i < body.len()
                invariant
                    k < self.count(),
                    i <= body@.len(),
                    body == &self.block_at(k as int).block.body,
                    forall|j: int| 0 <= j < i ==> body@[j].hash != hash,
                decreases body@.len() - i,
            {
                if body[i].hash == hash {
                    let meta = TransactionMeta {
                        tx_hash: hash,
                        index: i as u64,
                        block_hash: self.chain[k].block.header.hash,
                        block_number: self.chain[k].block.header.header.number,
                    };
                    return Some((body[i], meta));
                }
                i = i + 1;
            }
            k = k + 1;
        }
        None
    }
}

} // verus!
