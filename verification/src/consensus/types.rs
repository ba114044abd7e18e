//! What the consensus cache knows of blocks and of the artifacts about them.
use vstd::prelude::*;

verus! {

/// The hash of a block.
#[derive(Clone, Copy, Debug, PartialEq, Eq)]
pub struct BlockHash(pub [u8; 32]);

/// Whether two hashes are the same.
pub fn same_hash(a: &BlockHash, b: &BlockHash) -> (r: bool)
    ensures
        r == (a == b),
{
    let mut i: usize = 0;
    while i < 32
        invariant
            i <= 32,
            forall|j: int| 0 <= j < i ==> a.0@[j] == b.0@[j],
        decreases 32 - i,
    {
        if a.0[i] != b.0[i] {
            return false;
        }
        i = i + 1;
    }
    assert(a.0@ =~= b.0@);
    assert(a.0 =~= b.0);
    true
}

/// The context that a block was validated in.
#[derive(Clone, Copy, Debug, PartialEq, Eq)]
pub struct ValidationContext {
    /// The time, in nanoseconds since the Unix epoch.
    pub time: u64,
    /// The height of the state that was certified.
    pub certified_height: u64,
}

/// The payload of a block. `E` is the ECDSA part, which the cache only hands on.
#[derive(Clone, Copy, Debug, PartialEq, Eq)]
pub struct BlockPayload<E> {
    /// The height at which the DKG interval of the block starts.
    pub dkg_interval_start_height: u64,
    /// Whether this is the payload of a DKG summary block.
    pub is_summary: bool,
    /// The ECDSA part, if there is one.
    pub ecdsa: Option<E>,
}

/// A block.
#[derive(Clone, Copy, Debug, PartialEq, Eq)]
pub struct Block<E> {
    pub height: u64,
    pub context: ValidationContext,
    pub payload: BlockPayload<E>,
}

/// A block with its hash.
#[derive(Clone, Copy, Debug, PartialEq, Eq)]
pub struct BlockProposal<E> {
    pub hash: BlockHash,
    pub block: Block<E>,
}

/// The agreement that a block is final.
#[derive(Clone, Copy, Debug, PartialEq, Eq)]
pub struct Finalization {
    pub height: u64,
    /// The hash of the block.
    pub block: BlockHash,
}

/// A package to resume from, with the block to resume at.
#[derive(Clone, Copy, Debug, PartialEq, Eq)]
pub struct CatchUpPackage<E> {
    pub height: u64,
    pub block: Block<E>,
}

/// The artifacts that a change of the pool is about.
#[derive(Clone, Copy, Debug, PartialEq, Eq)]
pub enum ConsensusMessage<E> {
    Finalization(Finalization),
    CatchUpPackage(CatchUpPackage<E>),
    /// Any other artifact.
    Other,
}

/// A change of the pool.
#[derive(Clone, Copy, Debug, PartialEq, Eq)]
pub enum ChangeAction<E> {
    AddToValidated(ConsensusMessage<E>),
    MoveToValidated(ConsensusMessage<E>),
    /// Any other change.
    Other,
}

} // verus!
