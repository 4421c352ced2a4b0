//! Verified core of a TWAP oracle evidence builder.
//!
//! The crate links on-chain historical data (price-oracle storage values and
//! block hashes) to compact commitments:
//!
//! - [`decoder`] validates a raw 256-bit oracle storage word and packs it into
//!   a 248-bit field element;
//! - [`observation`] assembles and cross-checks a set of oracle observations
//!   from externally authenticated storage-proof responses;
//! - [`instance`] combines two observations into the canonical seven-element
//!   public instance vector;
//! - [`merkle`] builds a fixed-depth binary Merkle tree over batches of 1024
//!   consecutive block hashes and extracts inclusion witnesses.

pub mod decoder;
pub mod error;
pub mod field_element;
pub mod instance;
pub mod merkle;
pub mod observation;
pub mod task;
