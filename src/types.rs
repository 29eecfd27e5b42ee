use vstd::prelude::*;

verus! {

/// A quantity of credits, counted in the smallest indivisible unit.
pub type Amount = u128;

/// A point in time, in microseconds.
pub type Timestamp = u64;

/// A 256-bit digest, held as two 128-bit halves.
#[derive(Clone, Copy, Debug, PartialEq, Eq, Structural, Hash)]
pub struct CryptoHash {
    pub high: u128,
    pub low: u128,
}

/// The identity of an account holder.
#[derive(Clone, Copy, Debug, PartialEq, Eq, Structural, Hash)]
pub struct Owner {
    pub hash: CryptoHash,
}

/// The identity of a chain.
#[derive(Clone, Copy, Debug, PartialEq, Eq, Structural, Hash)]
pub struct ChainId {
    pub hash: CryptoHash,
}

/// A message, located by its chain, block height and index in the block.
#[derive(Clone, Copy, Debug, PartialEq, Eq, Structural, Hash)]
pub struct MessageId {
    pub chain_id: ChainId,
    pub height: u64,
    pub index: u32,
}

/// The identity of an application: where its bytecode was published and
/// where it was created.
#[derive(Clone, Copy, Debug, PartialEq, Eq, Structural, Hash)]
pub struct ApplicationId {
    pub bytecode_id: MessageId,
    pub creation: MessageId,
}

/// The timestamp `now + lifetime`, clamped to the largest timestamp.
pub open spec fn expiry_after(now: Timestamp, lifetime: u64) -> Timestamp {
    now.saturating_add(lifetime)
}

} // verus!
