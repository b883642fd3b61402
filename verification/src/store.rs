//! The durable store at its interface boundary: the persisted, append-only
//! chain below the boundary and the checkpoint tables, as the read path
//! consumes them.

use vstd::prelude::*;

use crate::types::{
    ChainSpec, ExecutedBlock, PruneCheckpoint, StageCheckpoint,
};

verus! {

/// One persisted block: the executed block plus the total difficulty
/// accumulated up to and including it, as the durable store records it.
#[derive(Clone, PartialEq, Eq, Debug)]
pub struct PersistedBlock {
    pub block: ExecutedBlock,
    pub td: u64,
}

/// A stage sync checkpoint entry, keyed by stage identifier.
#[derive(Clone, PartialEq, Eq, Debug)]
pub struct StageCheckpointEntry {
    pub stage_id: u64,
    pub checkpoint: StageCheckpoint,
    pub progress: Vec<u8>,
}

/// A prune checkpoint entry, keyed by prune segment.
#[derive(Clone, Copy, PartialEq, Eq, Debug)]
pub struct PruneCheckpointEntry {
    pub segment: u64,
    pub checkpoint: PruneCheckpoint,
}

/// The durable store at its interface boundary: an append-only, contiguous
/// chain of persisted blocks from genesis to the boundary, with the chain
/// configuration and the checkpoint tables the read path passes through.
/// Its real implementation (disk, indexes, read transactions) is outside
/// this layer; queries here are verified against this model of its layout.
#[derive(Clone, PartialEq, Eq, Debug)]
pub struct DurableStore {
    pub blocks: Vec<PersistedBlock>,
    pub chain_spec: ChainSpec,
    pub finalized_block_number: Option<u64>,
    pub stage_checkpoints: Vec<StageCheckpointEntry>,
    pub prune_checkpoints: Vec<PruneCheckpointEntry>,
}

impl DurableStore {
    /// How many blocks are persisted.
    pub open spec fn count(self) -> int {
        self.blocks@.len() as int
    }

    /// The persisted block with number `n`.
    pub open spec fn block_at(self, n: int) -> ExecutedBlock {
        self.blocks@[n].block
    }

    /// The total difficulty recorded for block `n`.
    pub open spec fn td_at(self, n: int) -> u64 {
        self.blocks@[n].td
    }

    /// The global transaction number of the first transaction of persisted
    /// block `n`: the sum of the body lengths of the blocks below it.
    pub open spec fn tx_prefix(self, n: int) -> int
        decreases n,
    {
        if n <= 0 {
            0
        } else {
            self.tx_prefix(n - 1) + self.block_at(n - 1).block.body@.len()
        }
    }

    /// The persisted layout invariant: block numbers are exactly the Vec
    /// indices (contiguous from genesis), each block links to its parent by
    /// hash, every block's senders and receipts line up with its body, and
    /// the checkpoint tables are keyed uniquely.
    pub open spec fn wf(self) -> bool {
        &&& self.count() <= u64::MAX
        &&& self.tx_prefix(self.count()) <= u64::MAX
        &&& forall|i: int| 0 <= i < self.count() ==> (#[trigger] self.block_at(i)).number() == i
        &&& forall|i: int|
            #![trigger self.block_at(i), self.block_at(i - 1)]
            1 <= i < self.count() ==> self.block_at(i).parent_hash() == self.block_at(
                i - 1,
            ).hash()
        &&& forall|i: int| 0 <= i < self.count() ==> (#[trigger] self.block_at(i)).consistent()
        &&& forall|i: int, j: int|
            0 <= i < j < self.count() ==> (#[trigger] self.block_at(i)).hash()
                != (#[trigger] self.block_at(j)).hash()
        &&& forall|n1: int, i1: int, n2: int, i2: int|
            #![trigger self.block_at(n1).block.body@[i1], self.block_at(n2).block.body@[i2]]
            0 <= n1 < self.count() && 0 <= i1 < self.block_at(n1).block.body@.len() && 0 <= n2
                < self.count() && 0 <= i2 < self.block_at(n2).block.body@.len() && (n1 != n2 || i1
                != i2) ==> self.block_at(n1).block.body@[i1].hash
                != self.block_at(n2).block.body@[i2].hash
        &&& forall|i: int, j: int|
            0 <= i < j < self.stage_checkpoints@.len()
                ==> (#[trigger] self.stage_checkpoints@[i]).stage_id
                != (#[trigger] self.stage_checkpoints@[j]).stage_id
        &&& forall|i: int, j: int|
            0 <= i < j < self.prune_checkpoints@.len()
                ==> (#[trigger] self.prune_checkpoints@[i]).segment
                != (#[trigger] self.prune_checkpoints@[j]).segment
    }

    /// The highest persisted block number; zero when nothing is persisted.
    pub open spec fn spec_last_block_number(self) -> u64 {
        if self.count() == 0 {
            0
        } else {
            (self.count() - 1) as u64
        }
    }

    /// The boundary: the highest block number the durable store holds.
    pub fn last_block_number(&self) -> (r: u64)
        requires
            self.wf(),
        ensures
            r == self.spec_last_block_number(),
    {
        if self.blocks.len() == 0 {
            0
        } else {
            (self.blocks.len() - 1) as u64
        }
    }

    /// The position of the persisted block carrying the given hash, by a
    /// scan of the hash index.
    pub fn index_by_hash(&self, hash: u64) -> (r: Option<usize>)
        requires
            self.wf(),
        ensures
            match r {
                Some(i) => 0 <= i < self.count() && self.block_at(i as int).hash() == hash,
                None => forall|i: int|
                    0 <= i < self.count() ==> (#[trigger] self.block_at(i)).hash() != hash,
            },
    {
        let mut i: usize = 0;
        while i < self.blocks.len()
            invariant
                i <= self.count(),
                forall|j: int| 0 <= j < i ==> (#[trigger] self.block_at(j)).hash() != hash,
            decreases self.count() - i,
        {
            if self.blocks[i].block.block.header.hash == hash {
                return Some(i);
            }
            i = i + 1;
        }
        None
    }

    /// The recorded stage checkpoint for `stage_id`, if one was written.
    pub fn get_stage_checkpoint(&self, stage_id: u64) -> (r: Option<StageCheckpoint>)
        requires
            self.wf(),
        ensures
            match r {
                Some(c) => exists|i: int|
                    0 <= i < self.stage_checkpoints@.len()
                        && (#[trigger] self.stage_checkpoints@[i]).stage_id == stage_id
                        && self.stage_checkpoints@[i].checkpoint == c,
                None => forall|i: int|
                    0 <= i < self.stage_checkpoints@.len()
                        ==> (#[trigger] self.stage_checkpoints@[i]).stage_id != stage_id,
            },
    {
        let mut i: usize = 0;
        while i < self.stage_checkpoints.len()
            invariant
                i <= self.stage_checkpoints@.len(),
                forall|j: int|
                    0 <= j < i ==> (#[trigger] self.stage_checkpoints@[j]).stage_id != stage_id,
            decreases self.stage_checkpoints@.len() - i,
        {
            if self.stage_checkpoints[i].stage_id == stage_id {
                return Some(self.stage_checkpoints[i].checkpoint);
            }
            i = i + 1;
        }
        None
    }

    /// The raw progress blob recorded beside the stage checkpoint.
    pub fn get_stage_checkpoint_progress(&self, stage_id: u64) -> (r: Option<Vec<u8>>)
        requires
            self.wf(),
        ensures
            match r {
                Some(p) => exists|i: int|
                    0 <= i < self.stage_checkpoints@.len()
                        && (#[trigger] self.stage_checkpoints@[i]).stage_id == stage_id
                        && self.stage_checkpoints@[i].progress@ == p@,
                None => forall|i: int|
                    0 <= i < self.stage_checkpoints@.len()
                        ==> (#[trigger] self.stage_checkpoints@[i]).stage_id != stage_id,
            },
    {
        let mut i: usize = 0;
        while i < self.stage_checkpoints.len()
            invariant
                i <= self.stage_checkpoints@.len(),
                forall|j: int|
                    0 <= j < i ==> (#[trigger] self.stage_checkpoints@[j]).stage_id != stage_id,
            decreases self.stage_checkpoints@.len() - i,
        {
            if self.stage_checkpoints[i].stage_id == stage_id {
                return Some(crate::types::copy_vec(&self.stage_checkpoints[i].progress));
            }
            i = i + 1;
        }
        None
    }

    /// Every stage checkpoint, in table order.
    pub fn get_all_checkpoints(&self) -> (r: Vec<(u64, StageCheckpoint)>)
        requires
            self.wf(),
        ensures
            r@.len() == self.stage_checkpoints@.len(),
            forall|i: int|
                0 <= i < r@.len() ==> #[trigger] r@[i] == (
                    self.stage_checkpoints@[i].stage_id,
                    self.stage_checkpoints@[i].checkpoint,
                ),
    {
        let mut r: Vec<(u64, StageCheckpoint)> = Vec::new();
        let mut i: usize = 0;
        while i < self.stage_checkpoints.len()
            invariant
                i <= self.stage_checkpoints@.len(),
                r@.len() == i,
                forall|j: int|
                    0 <= j < i ==> #[trigger] r@[j] == (
                        self.stage_checkpoints@[j].stage_id,
                        self.stage_checkpoints@[j].checkpoint,
                    ),
            decreases self.stage_checkpoints@.len() - i,
        {
            r.push((self.stage_checkpoints[i].stage_id, self.stage_checkpoints[i].checkpoint));
            i = i + 1;
        }
        r
    }

    /// The prune checkpoint for `segment`, if one was written.
    pub fn get_prune_checkpoint(&self, segment: u64) -> (r: Option<PruneCheckpoint>)
        requires
            self.wf(),
        ensures
            match r {
                Some(c) => exists|i: int|
                    0 <= i < self.prune_checkpoints@.len()
                        && (#[trigger] self.prune_checkpoints@[i]).segment == segment
                        && self.prune_checkpoints@[i].checkpoint == c,
                None => forall|i: int|
                    0 <= i < self.prune_checkpoints@.len()
                        ==> (#[trigger] self.prune_checkpoints@[i]).segment != segment,
            },
    {
        let mut i: usize = 0;
        while i < self.prune_checkpoints.len()
            invariant
                i <= self.prune_checkpoints@.len(),
                forall|j: int|
                    0 <= j < i ==> (#[trigger] self.prune_checkpoints@[j]).segment != segment,
            decreases self.prune_checkpoints@.len() - i,
        {
            if self.prune_checkpoints[i].segment == segment {
                return Some(self.prune_checkpoints[i].checkpoint);
            }
            i = i + 1;
        }
        None
    }

    /// Every prune checkpoint, in table order.
    pub fn get_prune_checkpoints(&self) -> (r: Vec<(u64, PruneCheckpoint)>)
        requires
            self.wf(),
        ensures
            r@.len() == self.prune_checkpoints@.len(),
            forall|i: int|
                0 <= i < r@.len() ==> #[trigger] r@[i] == (
                    self.prune_checkpoints@[i].segment,
                    self.prune_checkpoints@[i].checkpoint,
                ),
    {
        let mut r: Vec<(u64, PruneCheckpoint)> = Vec::new();
        let mut i: usize = 0;
        while i < self.prune_checkpoints.len()
            invariant
                i <= self.prune_checkpoints@.len(),
                r@.len() == i,
                forall|j: int|
                    0 <= j < i ==> #[trigger] r@[j] == (
                        self.prune_checkpoints@[j].segment,
                        self.prune_checkpoints@[j].checkpoint,
                    ),
            decreases self.prune_checkpoints@.len() - i,
        {
            r.push((self.prune_checkpoints[i].segment, self.prune_checkpoints[i].checkpoint));
            i = i + 1;
        }
        r
    }
}

} // verus!
