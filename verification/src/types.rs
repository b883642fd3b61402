//! The data model: plain-value forms of headers, blocks, transactions,
//! receipts and the identifier and error types of the query surface.

use vstd::prelude::*;

verus! {

// The chain model works over plain identifiers: a `u64` stands in for a
// 32-byte block or transaction hash and for a 20-byte address. Queries only
// ever compare these for equality, so nothing is lost by the narrowing.

/// A block header. `difficulty` is the block's own difficulty, not the
/// accumulated total difficulty (the durable store tracks that separately).
#[derive(Clone, Copy, PartialEq, Eq, Debug)]
pub struct Header {
    pub number: u64,
    pub parent_hash: u64,
    pub timestamp: u64,
    pub difficulty: u64,
}

/// A header together with its block hash.
#[derive(Clone, Copy, PartialEq, Eq, Debug)]
pub struct SealedHeader {
    pub header: Header,
    pub hash: u64,
}

/// A signed transaction with its hash and recovered signer.
#[derive(Clone, Copy, PartialEq, Eq, Debug)]
pub struct Transaction {
    pub hash: u64,
    pub signer: u64,
    pub payload: u64,
}

/// A transaction stripped of its hash, as the durable store's transaction
/// table keeps it.
#[derive(Clone, Copy, PartialEq, Eq, Debug)]
pub struct TransactionNoHash {
    pub signer: u64,
    pub payload: u64,
}

impl TransactionNoHash {
    /// What dropping the hash from a transaction leaves.
    pub open spec fn spec_of(t: Transaction) -> TransactionNoHash {
        TransactionNoHash { signer: t.signer, payload: t.payload }
    }

    pub fn of(t: Transaction) -> (r: TransactionNoHash)
        ensures
            r == TransactionNoHash::spec_of(t),
    {
        TransactionNoHash { signer: t.signer, payload: t.payload }
    }
}

/// An execution receipt.
#[derive(Clone, Copy, PartialEq, Eq, Debug)]
pub struct Receipt {
    pub success: bool,
    pub cumulative_gas_used: u64,
}

/// A validator withdrawal.
#[derive(Clone, Copy, PartialEq, Eq, Debug)]
pub struct Withdrawal {
    pub index: u64,
    pub address: u64,
    pub amount: u64,
}

/// Basic account state.
#[derive(Clone, Copy, PartialEq, Eq, Debug)]
pub struct Account {
    pub nonce: u64,
    pub balance: u64,
}

/// One entry of a per-block change set: the state of `address` before the
/// block executed (`None` when the account did not exist yet).
#[derive(Clone, Copy, PartialEq, Eq, Debug)]
pub struct AccountBeforeTx {
    pub address: u64,
    pub info: Option<Account>,
}

/// The durable layout contract for a block's transaction span: the global
/// number of its first transaction and how many transactions it holds.
#[derive(Clone, Copy, PartialEq, Eq, Debug)]
pub struct StoredBlockBodyIndices {
    pub first_tx_num: u64,
    pub tx_count: u64,
}

/// Everything a hash-keyed transaction query reports alongside the
/// transaction itself.
#[derive(Clone, Copy, PartialEq, Eq, Debug)]
pub struct TransactionMeta {
    pub tx_hash: u64,
    pub index: u64,
    pub block_hash: u64,
    pub block_number: u64,
}

/// A block number together with the block's hash.
#[derive(Clone, Copy, PartialEq, Eq, Debug)]
pub struct BlockNumHash {
    pub number: u64,
    pub hash: u64,
}

/// The current chain head as callers see it.
#[derive(Clone, Copy, PartialEq, Eq, Debug)]
pub struct ChainInfo {
    pub best_hash: u64,
    pub best_number: u64,
}

/// The merge transition: the number of the last proof-of-work block and the
/// total difficulty accumulated up to it. Every later block has difficulty
/// zero.
#[derive(Clone, Copy, PartialEq, Eq, Debug)]
pub struct ParisInfo {
    pub block: u64,
    pub final_total_difficulty: u64,
}

/// The slice of chain configuration the read path consults: fork activation
/// points for withdrawal and request gating and the merge transition data.
#[derive(Clone, Copy, PartialEq, Eq, Debug)]
pub struct ChainSpec {
    pub shanghai_time: Option<u64>,
    pub prague_time: Option<u64>,
    pub paris: Option<ParisInfo>,
}

impl ChainSpec {
    pub open spec fn spec_is_shanghai_active_at_timestamp(self, timestamp: u64) -> bool {
        match self.shanghai_time {
            Some(t) => timestamp >= t,
            None => false,
        }
    }

    pub fn is_shanghai_active_at_timestamp(&self, timestamp: u64) -> (r: bool)
        ensures
            r == self.spec_is_shanghai_active_at_timestamp(timestamp),
    {
        match self.shanghai_time {
            Some(t) => timestamp >= t,
            None => false,
        }
    }

    pub open spec fn spec_is_prague_active_at_timestamp(self, timestamp: u64) -> bool {
        match self.prague_time {
            Some(t) => timestamp >= t,
            None => false,
        }
    }

    pub fn is_prague_active_at_timestamp(&self, timestamp: u64) -> (r: bool)
        ensures
            r == self.spec_is_prague_active_at_timestamp(timestamp),
    {
        match self.prague_time {
            Some(t) => timestamp >= t,
            None => false,
        }
    }

    /// The total difficulty frozen at the merge, if `number` is at or past
    /// the merge block.
    pub open spec fn spec_final_paris_total_difficulty(self, number: u64) -> Option<u64> {
        match self.paris {
            Some(p) => if number >= p.block {
                Some(p.final_total_difficulty)
            } else {
                None
            },
            None => None,
        }
    }

    pub fn final_paris_total_difficulty(&self, number: u64) -> (r: Option<u64>)
        ensures
            r == self.spec_final_paris_total_difficulty(number),
    {
        match self.paris {
            Some(p) => if number >= p.block {
                Some(p.final_total_difficulty)
            } else {
                None
            },
            None => None,
        }
    }
}

/// A block identifier: by hash or by number.
#[derive(Clone, Copy, PartialEq, Eq, Debug)]
pub enum BlockHashOrNumber {
    Hash(u64),
    Number(u64),
}

/// A block number or one of the consensus-designated tags.
#[derive(Clone, Copy, PartialEq, Eq, Debug)]
pub enum BlockNumberOrTag {
    Latest,
    Finalized,
    Safe,
    Earliest,
    Pending,
    Number(u64),
}

/// A hash-keyed block identifier as queries carry it, with the flag that
/// restricts the lookup to the canonical chain.
#[derive(Clone, Copy, PartialEq, Eq, Debug)]
pub struct RpcBlockHash {
    pub block_hash: u64,
    pub require_canonical: Option<bool>,
}

/// Either a hash-keyed identifier or a number-or-tag.
#[derive(Clone, Copy, PartialEq, Eq, Debug)]
pub enum BlockId {
    Hash(RpcBlockHash),
    Number(BlockNumberOrTag),
}

/// Whether a block query wants transactions with their hashes or without.
#[derive(Clone, Copy, PartialEq, Eq, Debug)]
pub enum TransactionVariant {
    NoHash,
    WithHash,
}

/// Which source a hash-keyed block lookup may consult.
#[derive(Clone, Copy, PartialEq, Eq, Debug)]
pub enum BlockSource {
    Any,
    Canonical,
    Pending,
}

/// A fork-choice update as the consensus layer sends it.
#[derive(Clone, Copy, PartialEq, Eq, Debug)]
pub struct ForkchoiceState {
    pub head_block_hash: u64,
    pub safe_block_hash: u64,
    pub finalized_block_hash: u64,
}

/// A stage sync checkpoint.
#[derive(Clone, Copy, PartialEq, Eq, Debug)]
pub struct StageCheckpoint {
    pub block_number: u64,
}

/// A prune checkpoint for one prune segment.
#[derive(Clone, Copy, PartialEq, Eq, Debug)]
pub struct PruneCheckpoint {
    pub block_number: Option<u64>,
    pub tx_number: Option<u64>,
}

/// A resolved point-in-time state view: which snapshot a state query is to
/// read from. Reading the snapshot itself (accounts, storage) is the state
/// provider's own work below this layer; resolution — choosing a durable
/// historical snapshot or an overlay-anchored snapshot layered on a durable
/// base — is what this layer decides and proves.
#[derive(Clone, Copy, PartialEq, Eq, Debug)]
pub enum StateView {
    /// The durable store's latest state.
    LatestDurable,
    /// A durable historical snapshot at the given persisted block number.
    Historical { number: u64 },
    /// An overlay snapshot at the in-memory block with the given hash,
    /// layered on the durable base taken at the overlay anchor.
    InMemory { hash: u64, anchor_hash: u64 },
    /// The tracked pending block's state.
    Pending { hash: u64 },
}

/// The error taxonomy. Legitimate absence is an empty result, never an
/// error; these variants are reserved for should-exist assertions.
#[derive(Clone, Copy, PartialEq, Eq, Debug)]
pub enum ProviderError {
    HeaderNotFound(BlockHashOrNumber),
    BlockBodyIndicesNotFound(u64),
    StateForHashNotFound(u64),
    StateForNumberNotFound(u64),
    FinalizedBlockNotFound,
    SafeBlockNotFound,
}

/// An unsealed block.
#[derive(Clone, PartialEq, Eq, Debug)]
pub struct Block {
    pub header: Header,
    pub body: Vec<Transaction>,
    pub ommers: Vec<Header>,
    pub withdrawals: Option<Vec<Withdrawal>>,
    pub requests: Option<Vec<u64>>,
}

/// A sealed block: its header carries the block hash.
#[derive(Clone, PartialEq, Eq, Debug)]
pub struct SealedBlock {
    pub header: SealedHeader,
    pub body: Vec<Transaction>,
    pub ommers: Vec<Header>,
    pub withdrawals: Option<Vec<Withdrawal>>,
    pub requests: Option<Vec<u64>>,
}

/// An unsealed block with its recovered senders.
#[derive(Clone, PartialEq, Eq, Debug)]
pub struct BlockWithSenders {
    pub block: Block,
    pub senders: Vec<u64>,
}

/// A sealed block with its recovered senders.
#[derive(Clone, PartialEq, Eq, Debug)]
pub struct SealedBlockWithSenders {
    pub block: SealedBlock,
    pub senders: Vec<u64>,
}

/// One executed block: the sealed block, its recovered senders, the receipts
/// derived by execution, and the pre-state change set its execution recorded.
#[derive(Clone, PartialEq, Eq, Debug)]
pub struct ExecutedBlock {
    pub block: SealedBlock,
    pub senders: Vec<u64>,
    pub receipts: Vec<Receipt>,
    pub changed_accounts: Vec<AccountBeforeTx>,
}

impl ExecutedBlock {
    pub open spec fn number(self) -> u64 {
        self.block.header.header.number
    }

    pub open spec fn hash(self) -> u64 {
        self.block.header.hash
    }

    pub open spec fn parent_hash(self) -> u64 {
        self.block.header.header.parent_hash
    }

    /// Recovered senders line up with the body, and execution produced one
    /// receipt per transaction.
    pub open spec fn consistent(self) -> bool {
        &&& self.senders@.len() == self.block.body@.len()
        &&& self.receipts@.len() == self.block.body@.len()
        &&& forall|i: int|
            0 <= i < self.block.body@.len() ==> self.senders@[i] == self.block.body@[i].signer
    }
}

/// What an `Option`-wrapped list holds, as a mathematical value.
pub open spec fn opt_seq<T>(v: Option<Vec<T>>) -> Option<Seq<T>> {
    match v {
        Some(items) => Some(items@),
        None => None,
    }
}

/// Copies a list of plain values.
pub fn copy_vec<T: Copy>(v: &Vec<T>) -> (r: Vec<T>)
    ensures
        r@ == v@,
{
    let mut r: Vec<T> = Vec::new();
    let mut i: usize = 0;
    while i < v.len()
        invariant
            i <= v.len(),
            r@ == v@.subrange(0, i as int),
        decreases v.len() - i,
    {
        r.push(v[i]);
        i = i + 1;
    }
    proof {
        assert(r@ =~= v@);
    }
    r
}

/// Copies an `Option`-wrapped list of plain values.
pub fn copy_opt_vec<T: Copy>(v: &Option<Vec<T>>) -> (r: Option<Vec<T>>)
    ensures
        opt_seq(r) == opt_seq(*v),
{
    match v {
        Some(items) => Some(copy_vec(items)),
        None => None,
    }
}

impl SealedBlock {
    /// The two block forms describe the same content.
    pub open spec fn unsealed_matches(self, b: Block) -> bool {
        &&& b.header == self.header.header
        &&& b.body@ == self.body@
        &&& b.ommers@ == self.ommers@
        &&& opt_seq(b.withdrawals) == opt_seq(self.withdrawals)
        &&& opt_seq(b.requests) == opt_seq(self.requests)
    }

    /// Drops the seal, keeping every field of content.
    pub fn unseal(&self) -> (r: Block)
        ensures
            self.unsealed_matches(r),
    {
        Block {
            header: self.header.header,
            body: copy_vec(&self.body),
            ommers: copy_vec(&self.ommers),
            withdrawals: copy_opt_vec(&self.withdrawals),
            requests: copy_opt_vec(&self.requests),
        }
    }

    /// Two sealed blocks hold the same content.
    pub open spec fn matches(self, b: SealedBlock) -> bool {
        &&& b.header == self.header
        &&& b.body@ == self.body@
        &&& b.ommers@ == self.ommers@
        &&& opt_seq(b.withdrawals) == opt_seq(self.withdrawals)
        &&& opt_seq(b.requests) == opt_seq(self.requests)
    }

    /// Copies the sealed block, field for field.
    pub fn duplicate(&self) -> (r: SealedBlock)
        ensures
            self.matches(r),
    {
        SealedBlock {
            header: self.header,
            body: copy_vec(&self.body),
            ommers: copy_vec(&self.ommers),
            withdrawals: copy_opt_vec(&self.withdrawals),
            requests: copy_opt_vec(&self.requests),
        }
    }
}

impl ExecutedBlock {
    /// Copies the executed block, field for field.
    pub fn duplicate(&self) -> (r: ExecutedBlock)
        ensures
            self.block.matches(r.block),
            r.senders@ == self.senders@,
            r.receipts@ == self.receipts@,
            r.changed_accounts@ == self.changed_accounts@,
    {
        ExecutedBlock {
            block: self.block.duplicate(),
            senders: copy_vec(&self.senders),
            receipts: copy_vec(&self.receipts),
            changed_accounts: copy_vec(&self.changed_accounts),
        }
    }
}

} // verus!
