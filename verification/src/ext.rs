//! Identifier dispatch: queries keyed by number-or-tag and by rich block
//! identifiers, plus the checkpoint passthroughs and the inputs the
//! external execution-environment policy consumes.

use vstd::prelude::*;

use crate::provider::BlockchainProvider2;
use crate::types::{
    Block, BlockHashOrNumber, BlockId, BlockNumberOrTag, BlockSource, Header, ProviderError,
    PruneCheckpoint, Receipt, SealedHeader, StageCheckpoint,
};

verus! {

impl BlockchainProvider2 {
    /// A number-or-tag resolved to a block number, using the tracked
    /// fork-choice pointers for the tagged forms. No existence check is
    /// made on the number itself.
    pub open spec fn spec_convert_block_number(self, tag: BlockNumberOrTag) -> Option<u64> {
        match tag {
            BlockNumberOrTag::Latest => Some(self.canonical_in_memory_state.head.header.number),
            BlockNumberOrTag::Earliest => Some(0u64),
            BlockNumberOrTag::Pending => match self.canonical_in_memory_state.pending {
                Some(b) => Some(b.number()),
                None => None,
            },
            BlockNumberOrTag::Number(n) => Some(n),
            BlockNumberOrTag::Safe => match self.canonical_in_memory_state.safe {
                Some(h) => Some(h.header.number),
                None => None,
            },
            BlockNumberOrTag::Finalized => match self.canonical_in_memory_state.finalized {
                Some(h) => Some(h.header.number),
                None => None,
            },
        }
    }

    pub fn convert_block_number(&self, tag: BlockNumberOrTag) -> (r: Result<
        Option<u64>,
        ProviderError,
    >)
        ensures
            r == Ok::<Option<u64>, ProviderError>(self.spec_convert_block_number(tag)),
    {
        match tag {
            BlockNumberOrTag::Latest => Ok(
                Some(self.canonical_in_memory_state.get_canonical_block_number()),
            ),
            BlockNumberOrTag::Earliest => Ok(Some(0)),
            BlockNumberOrTag::Pending => match self.canonical_in_memory_state.pending_block_num_hash() {
                Some(p) => Ok(Some(p.number)),
                None => Ok(None),
            },
            BlockNumberOrTag::Number(n) => Ok(Some(n)),
            BlockNumberOrTag::Safe => match self.canonical_in_memory_state.get_safe_num_hash() {
                Some(p) => Ok(Some(p.number)),
                None => Ok(None),
            },
            BlockNumberOrTag::Finalized => match self.canonical_in_memory_state.get_finalized_num_hash() {
                Some(p) => Ok(Some(p.number)),
                None => Ok(None),
            },
        }
    }

    /// The block a number-or-tag denotes.
    pub fn block_by_number_or_tag(&self, tag: BlockNumberOrTag) -> (r: Result<
        Option<Block>,
        ProviderError,
    >)
        requires
            self.wf(),
        ensures
            match r {
                Ok(opt) => match self.spec_convert_block_number(tag) {
                    Some(num) => match self.spec_resolve_id(BlockHashOrNumber::Number(num)) {
                        Some(n) => opt matches Some(b) && self.block_rec(
                            n,
                        ).block.unsealed_matches(b),
                        None => opt is None,
                    },
                    None => opt is None,
                },
                Err(_) => false,
            },
    {
        match self.convert_block_number(tag)? {
            Some(num) => self.block(BlockHashOrNumber::Number(num)),
            None => Ok(None),
        }
    }

    /// The block a hash-or-tag identifier denotes. A hash lookup flagged
    /// as requiring canonicality is restricted to the canonical chain.
    pub fn block_by_id(&self, id: BlockId) -> (r: Result<Option<Block>, ProviderError>)
        requires
            self.wf(),
        ensures
            match r {
                Ok(opt) => match id {
                    BlockId::Hash(h) => match self.spec_resolve_id(
                        BlockHashOrNumber::Hash(h.block_hash),
                    ) {
                        Some(n) => opt matches Some(b) && self.block_rec(
                            n,
                        ).block.unsealed_matches(b),
                        None => opt is None,
                    },
                    BlockId::Number(tag) => match self.spec_convert_block_number(tag) {
                        Some(num) => match self.spec_resolve_id(BlockHashOrNumber::Number(num)) {
                            Some(n) => opt matches Some(b) && self.block_rec(
                                n,
                            ).block.unsealed_matches(b),
                            None => opt is None,
                        },
                        None => opt is None,
                    },
                },
                Err(_) => false,
            },
    {
        match id {
            BlockId::Number(tag) => self.block_by_number_or_tag(tag),
            BlockId::Hash(h) => {
                let require_canonical = match h.require_canonical {
                    Some(flag) => flag,
                    None => false,
                };
                if require_canonical {
                    self.find_block_by_hash(h.block_hash, BlockSource::Canonical)
                } else {
                    self.find_block_by_hash(h.block_hash, BlockSource::Any)
                }
            },
        }
    }

    /// The header a number-or-tag denotes: tagged forms read the tracked
    /// pointers directly, numbered forms the merged chain.
    pub fn header_by_number_or_tag(&self, tag: BlockNumberOrTag) -> (r: Result<
        Option<Header>,
        ProviderError,
    >)
        requires
            self.wf(),
        ensures
            match r {
                Ok(opt) => match tag {
                    BlockNumberOrTag::Latest => opt == Some(
                        self.canonical_in_memory_state.head.header,
                    ),
                    BlockNumberOrTag::Finalized => opt
                        == match self.canonical_in_memory_state.finalized {
                        Some(h) => Some(h.header),
                        None => None::<Header>,
                    },
                    BlockNumberOrTag::Safe => opt == match self.canonical_in_memory_state.safe {
                        Some(h) => Some(h.header),
                        None => None::<Header>,
                    },
                    BlockNumberOrTag::Earliest => opt == self.spec_header_by_number(0),
                    BlockNumberOrTag::Pending => opt
                        == match self.canonical_in_memory_state.pending {
                        Some(b) => Some(b.block.header.header),
                        None => None::<Header>,
                    },
                    BlockNumberOrTag::Number(num) => opt == self.spec_header_by_number(num),
                },
                Err(_) => false,
            },
    {
        match tag {
            BlockNumberOrTag::Latest => Ok(
                Some(self.canonical_in_memory_state.get_canonical_head().header),
            ),
            BlockNumberOrTag::Finalized => match self.canonical_in_memory_state.get_finalized_header() {
                Some(h) => Ok(Some(h.header)),
                None => Ok(None),
            },
            BlockNumberOrTag::Safe => match self.canonical_in_memory_state.get_safe_header() {
                Some(h) => Ok(Some(h.header)),
                None => Ok(None),
            },
            BlockNumberOrTag::Earliest => self.header_by_number(0),
            BlockNumberOrTag::Pending => Ok(self.canonical_in_memory_state.pending_header()),
            BlockNumberOrTag::Number(num) => self.header_by_number(num),
        }
    }

    /// The sealed header a number-or-tag denotes.
    pub fn sealed_header_by_number_or_tag(&self, tag: BlockNumberOrTag) -> (r: Result<
        Option<SealedHeader>,
        ProviderError,
    >)
        requires
            self.wf(),
        ensures
            match r {
                Ok(opt) => match tag {
                    BlockNumberOrTag::Latest => opt == Some(self.canonical_in_memory_state.head),
                    BlockNumberOrTag::Finalized => opt == self.canonical_in_memory_state.finalized,
                    BlockNumberOrTag::Safe => opt == self.canonical_in_memory_state.safe,
                    BlockNumberOrTag::Earliest => opt == self.spec_sealed_header_by_number(0),
                    BlockNumberOrTag::Pending => opt
                        == match self.canonical_in_memory_state.pending {
                        Some(b) => Some(b.block.header),
                        None => None::<SealedHeader>,
                    },
                    BlockNumberOrTag::Number(num) => opt == self.spec_sealed_header_by_number(num),
                },
                Err(_) => false,
            },
    {
        match tag {
            BlockNumberOrTag::Latest => Ok(Some(self.canonical_in_memory_state.get_canonical_head())),
            BlockNumberOrTag::Finalized => Ok(self.canonical_in_memory_state.get_finalized_header()),
            BlockNumberOrTag::Safe => Ok(self.canonical_in_memory_state.get_safe_header()),
            BlockNumberOrTag::Earliest => self.sealed_header(0),
            BlockNumberOrTag::Pending => Ok(self.canonical_in_memory_state.pending_sealed_header()),
            BlockNumberOrTag::Number(num) => self.sealed_header(num),
        }
    }

    /// The sealed header a hash-or-tag identifier denotes.
    pub fn sealed_header_by_id(&self, id: BlockId) -> (r: Result<
        Option<SealedHeader>,
        ProviderError,
    >)
        requires
            self.wf(),
        ensures
            match r {
                Ok(opt) => match id {
                    BlockId::Hash(h) => if self.has_block_hash(h.block_hash) {
                        opt == Some(self.sealed_header_at(self.number_of_hash(h.block_hash)))
                    } else {
                        opt is None
                    },
                    BlockId::Number(tag) => match tag {
                        BlockNumberOrTag::Latest => opt == Some(
                            self.canonical_in_memory_state.head,
                        ),
                        BlockNumberOrTag::Finalized => opt
                            == self.canonical_in_memory_state.finalized,
                        BlockNumberOrTag::Safe => opt == self.canonical_in_memory_state.safe,
                        BlockNumberOrTag::Earliest => opt == self.spec_sealed_header_by_number(0),
                        BlockNumberOrTag::Pending => opt
                            == match self.canonical_in_memory_state.pending {
                            Some(b) => Some(b.block.header),
                            None => None::<SealedHeader>,
                        },
                        BlockNumberOrTag::Number(num) => opt == self.spec_sealed_header_by_number(
                            num,
                        ),
                    },
                },
                Err(_) => false,
            },
    {
        match id {
            BlockId::Number(tag) => self.sealed_header_by_number_or_tag(tag),
            BlockId::Hash(h) => {
                match self.executed_by_hash(h.block_hash) {
                    Some(b) => Ok(Some(b.block.header)),
                    None => Ok(None),
                }
            },
        }
    }

    /// The header a hash-or-tag identifier denotes.
    pub fn header_by_id(&self, id: BlockId) -> (r: Result<Option<Header>, ProviderError>)
        requires
            self.wf(),
        ensures
            match r {
                Ok(opt) => match id {
                    BlockId::Hash(h) => opt == self.spec_header_by_hash(h.block_hash),
                    BlockId::Number(tag) => match tag {
                        BlockNumberOrTag::Latest => opt == Some(
                            self.canonical_in_memory_state.head.header,
                        ),
                        BlockNumberOrTag::Finalized => opt
                            == match self.canonical_in_memory_state.finalized {
                            Some(h) => Some(h.header),
                            None => None::<Header>,
                        },
                        BlockNumberOrTag::Safe => opt
                            == match self.canonical_in_memory_state.safe {
                            Some(h) => Some(h.header),
                            None => None::<Header>,
                        },
                        BlockNumberOrTag::Earliest => opt == self.spec_header_by_number(0),
                        BlockNumberOrTag::Pending => opt
                            == match self.canonical_in_memory_state.pending {
                            Some(b) => Some(b.block.header.header),
                            None => None::<Header>,
                        },
                        BlockNumberOrTag::Number(num) => opt == self.spec_header_by_number(num),
                    },
                },
                Err(_) => false,
            },
    {
        match id {
            BlockId::Number(tag) => self.header_by_number_or_tag(tag),
            BlockId::Hash(h) => self.header(&h.block_hash),
        }
    }

    /// Uncle headers of the block a hash-or-tag identifier denotes.
    pub fn ommers_by_id(&self, id: BlockId) -> (r: Result<Option<Vec<Header>>, ProviderError>)
        requires
            self.wf(),
        ensures
            match r {
                Ok(opt) => {
                    let resolved = match id {
                        BlockId::Hash(h) => self.spec_ommers(BlockHashOrNumber::Hash(h.block_hash)),
                        BlockId::Number(tag) => match self.spec_convert_block_number(tag) {
                            Some(num) => self.spec_ommers(BlockHashOrNumber::Number(num)),
                            None => None,
                        },
                    };
                    match resolved {
                        Some(s) => opt matches Some(v) && v@ == s,
                        None => opt is None,
                    }
                },
                Err(_) => false,
            },
    {
        match id {
            BlockId::Number(tag) => match self.convert_block_number(tag)? {
                Some(num) => self.ommers(BlockHashOrNumber::Number(num)),
                None => Ok(None),
            },
            BlockId::Hash(h) => self.ommers(BlockHashOrNumber::Hash(h.block_hash)),
        }
    }

    /// Receipts of the block a hash-or-tag identifier denotes, honoring the
    /// require-canonical flag on ambiguous hash lookups: an unknown hash is
    /// an error unless the caller insisted on canonical-only resolution.
    pub fn receipts_by_block_id(&self, block: BlockId) -> (r: Result<
        Option<Vec<Receipt>>,
        ProviderError,
    >)
        requires
            self.wf(),
        ensures
            match block {
                BlockId::Hash(h) => if self.has_block_hash(h.block_hash) {
                    r matches Ok(opt) && opt matches Some(v) && v@ == self.block_rec(
                        self.number_of_hash(h.block_hash),
                    ).receipts@
                } else if h.require_canonical == Some(true) {
                    r matches Ok(opt) && opt is None
                } else {
                    r == Err::<Option<Vec<Receipt>>, ProviderError>(
                        ProviderError::StateForHashNotFound(h.block_hash),
                    )
                },
                BlockId::Number(tag) => match tag {
                    BlockNumberOrTag::Pending => match self.canonical_in_memory_state.pending {
                        Some(p) => r matches Ok(opt) && opt matches Some(v) && v@ == p.receipts@,
                        None => r matches Ok(opt) && opt is None,
                    },
                    _ => match self.spec_convert_block_number(tag) {
                        Some(num) => if num < self.chain_count() {
                            r matches Ok(opt) && opt matches Some(v) && v@ == self.block_rec(
                                num as int,
                            ).receipts@
                        } else {
                            r matches Ok(opt) && opt is None
                        },
                        None => r matches Ok(opt) && opt is None,
                    },
                },
            },
    {
        match block {
            BlockId::Hash(rpc_block_hash) => {
                let receipts = self.receipts_by_block(
                    BlockHashOrNumber::Hash(rpc_block_hash.block_hash),
                )?;
                let require_canonical = match rpc_block_hash.require_canonical {
                    Some(flag) => flag,
                    None => false,
                };
                if receipts.is_none() && !require_canonical {
                    return Err(ProviderError::StateForHashNotFound(rpc_block_hash.block_hash));
                }
                Ok(receipts)
            },
            BlockId::Number(num_tag) => match num_tag {
                BlockNumberOrTag::Pending => match &self.canonical_in_memory_state.pending {
                    Some(p) => Ok(Some(crate::types::copy_vec(&p.receipts))),
                    None => Ok(None),
                },
                _ => match self.convert_block_number(num_tag)? {
                    Some(num) => self.receipts_by_block(BlockHashOrNumber::Number(num)),
                    None => Ok(None),
                },
            },
        }
    }

    /// The recorded stage checkpoint for `stage_id`, passed through from
    /// the durable store.
    pub fn get_stage_checkpoint(&self, stage_id: u64) -> (r: Result<
        Option<StageCheckpoint>,
        ProviderError,
    >)
        requires
            self.wf(),
        ensures
            match r {
                Ok(opt) => match opt {
                    Some(c) => exists|i: int|
                        0 <= i < self.database.stage_checkpoints@.len()
                            && (#[trigger] self.database.stage_checkpoints@[i]).stage_id == stage_id
                            && self.database.stage_checkpoints@[i].checkpoint == c,
                    None => forall|i: int|
                        0 <= i < self.database.stage_checkpoints@.len()
                            ==> (#[trigger] self.database.stage_checkpoints@[i]).stage_id
                            != stage_id,
                },
                Err(_) => false,
            },
    {
        Ok(self.database.get_stage_checkpoint(stage_id))
    }

    /// The raw progress blob of the stage checkpoint, passed through.
    pub fn get_stage_checkpoint_progress(&self, stage_id: u64) -> (r: Result<
        Option<Vec<u8>>,
        ProviderError,
    >)
        requires
            self.wf(),
        ensures
            match r {
                Ok(opt) => match opt {
                    Some(p) => exists|i: int|
                        0 <= i < self.database.stage_checkpoints@.len()
                            && (#[trigger] self.database.stage_checkpoints@[i]).stage_id == stage_id
                            && self.database.stage_checkpoints@[i].progress@ == p@,
                    None => forall|i: int|
                        0 <= i < self.database.stage_checkpoints@.len()
                            ==> (#[trigger] self.database.stage_checkpoints@[i]).stage_id
                            != stage_id,
                },
                Err(_) => false,
            },
    {
        Ok(self.database.get_stage_checkpoint_progress(stage_id))
    }

    /// Every stage checkpoint, passed through.
    pub fn get_all_checkpoints(&self) -> (r: Result<Vec<(u64, StageCheckpoint)>, ProviderError>)
        requires
            self.wf(),
        ensures
            match r {
                Ok(v) => {
                    &&& v@.len() == self.database.stage_checkpoints@.len()
                    &&& forall|i: int|
                        0 <= i < v@.len() ==> #[trigger] v@[i] == (
                            self.database.stage_checkpoints@[i].stage_id,
                            self.database.stage_checkpoints@[i].checkpoint,
                        )
                },
                Err(_) => false,
            },
    {
        Ok(self.database.get_all_checkpoints())
    }

    /// The prune checkpoint for `segment`, passed through.
    pub fn get_prune_checkpoint(&self, segment: u64) -> (r: Result<
        Option<PruneCheckpoint>,
        ProviderError,
    >)
        requires
            self.wf(),
        ensures
            match r {
                Ok(opt) => match opt {
                    Some(c) => exists|i: int|
                        0 <= i < self.database.prune_checkpoints@.len()
                            && (#[trigger] self.database.prune_checkpoints@[i]).segment == segment
                            && self.database.prune_checkpoints@[i].checkpoint == c,
                    None => forall|i: int|
                        0 <= i < self.database.prune_checkpoints@.len()
                            ==> (#[trigger] self.database.prune_checkpoints@[i]).segment
                            != segment,
                },
                Err(_) => false,
            },
    {
        Ok(self.database.get_prune_checkpoint(segment))
    }

    /// Every prune checkpoint, passed through.
    pub fn get_prune_checkpoints(&self) -> (r: Result<Vec<(u64, PruneCheckpoint)>, ProviderError>)
        requires
            self.wf(),
        ensures
            match r {
                Ok(v) => {
                    &&& v@.len() == self.database.prune_checkpoints@.len()
                    &&& forall|i: int|
                        0 <= i < v@.len() ==> #[trigger] v@[i] == (
                            self.database.prune_checkpoints@[i].segment,
                            self.database.prune_checkpoints@[i].checkpoint,
                        )
                },
                Err(_) => false,
            },
    {
        Ok(self.database.get_prune_checkpoints())
    }

    /// The header and total difficulty the external execution-environment
    /// policy needs to fill its configuration for the identified block. A
    /// header that cannot be resolved is an error: environment construction
    /// is a should-exist path.
    pub fn evm_env_source_at(&self, at: BlockHashOrNumber) -> (r: Result<
        (Header, u64),
        ProviderError,
    >)
        requires
            self.wf(),
        ensures
            match self.spec_resolve_id(at) {
                Some(n) => r matches Ok(p) && p.0 == self.header_at(n)
                    && Some(p.1) == self.spec_header_td_by_number(n as u64),
                None => r == Err::<(Header, u64), ProviderError>(
                    ProviderError::HeaderNotFound(at),
                ),
            },
    {
        let header = match at {
            BlockHashOrNumber::Hash(hash) => self.header(&hash)?,
            BlockHashOrNumber::Number(num) => self.header_by_number(num)?,
        };
        let header = match header {
            Some(h) => h,
            None => {
                return Err(ProviderError::HeaderNotFound(at));
            },
        };
        proof {
            match at {
                BlockHashOrNumber::Hash(h) => {
                    assert(self.has_block_hash(h));
                },
                BlockHashOrNumber::Number(_) => {},
            }
        }
        match self.evm_env_source_with_header(&header) {
            Ok(p) => Ok(p),
            Err(_) => Err(ProviderError::HeaderNotFound(at)),
        }
    }

    /// The total difficulty paired with the given header, for the external
    /// execution-environment policy. The header's number must be known to
    /// the chain, else the should-exist lookup fails.
    pub fn evm_env_source_with_header(&self, header: &Header) -> (r: Result<
        (Header, u64),
        ProviderError,
    >)
        requires
            self.wf(),
        ensures
            match self.spec_header_td_by_number(header.number) {
                Some(td) => r == Ok::<(Header, u64), ProviderError>((*header, td)),
                None => r == Err::<(Header, u64), ProviderError>(
                    ProviderError::HeaderNotFound(BlockHashOrNumber::Number(header.number)),
                ),
            },
    {
        match self.header_td_by_number(header.number)? {
            Some(td) => Ok((*header, td)),
            None => Err(ProviderError::HeaderNotFound(BlockHashOrNumber::Number(header.number))),
        }
    }
}

} // verus!
