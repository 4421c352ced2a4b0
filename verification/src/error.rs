use vstd::prelude::*;

verus! {

/// Failure taxonomy of the core. Configuration failures come before any work
/// begins; proof-shape violations mean an input can never yield a valid
/// result; request-validation failures reject a task before the core runs.
/// All failures are terminal for the current build attempt.
#[derive(Clone, Copy, Debug, PartialEq, Eq, Structural)]
pub enum TwapError {
    /// The arithmetic backend's field cannot hold a 248-bit packed value.
    FieldCapacityTooSmall,
    /// The observation request carried no block numbers.
    NoBlockNumbers,
    /// A storage-proof response did not hold exactly one slot/value pair.
    SlotCountMismatch,
    /// The returned storage slot is not the oracle's observation slot.
    SlotIndexMismatch,
    /// The storage word's top byte is not the initialized flag `0x01`.
    ValueNotInitialized,
    /// Two responses of one request report different contract addresses.
    PoolAddressMismatch,
    /// The chain id maps to no supported network.
    UnsupportedChainId,
    /// The task's network differs from the data source's network.
    NetworkMismatch,
    /// The start block number exceeds the end block number.
    InvalidBlockRange,
}

} // verus!
