//! Parsing and validation of DisplayID 2.0 structures.
//!
//! A DisplayID structure is a byte buffer made of variable-length sections.
//! [`displayid::DisplayId::new`] partitions a buffer into its sections and
//! checks each of them; every result is stated against the mathematical
//! model in [`layout`].
use vstd::prelude::*;

pub mod displayid;
pub mod laws;
pub mod layout;

verus! {

/// Why a buffer is not a DisplayID 2.0 structure.
#[derive(Debug, Clone, Copy, PartialEq, Eq)]
pub enum Error {
    /// The buffer, or one of its sections, is shorter than the five
    /// mandatory bytes; carries the length that was found.
    MandatoryFieldMissing(usize),
    /// A section's structure version is not 2.0; carries the byte found.
    UnknownVersion(u8),
    /// A section's primary use case is above 15; carries the byte found.
    UnknownPrimaryUseCase(u8),
    /// A section's checksum byte differs from the sum of the bytes before
    /// it; carries the computed sum, then the byte found in the section.
    InvalidChecksum(u8, u8),
    /// The buffer is longer than 256 * 256 bytes; carries its length.
    TooLarge(usize),
    /// A declared section reaches past the end of the buffer.
    Malformed,
}

} // verus!
