//! The ways in which reading or writing a Bitwave file fails.

use vstd::prelude::*;

verus! {

/// How a byte stream failed.
#[derive(Clone, Copy, Debug, PartialEq, Eq)]
pub enum IoFailure {
    /// The stream ended before the bytes that were asked for.
    UnexpectedEof,
    /// The stream took fewer bytes than it was given.
    WriteZero,
    /// Any other failure, reported by a stream that lives outside this
    /// crate.
    Other,
}

/// Why a Bitwave operation failed. Every failure ends the operation on that
/// file; none is retried or repaired.
#[derive(Clone, Copy, Debug, PartialEq, Eq)]
pub enum BitwaveError {
    /// The first four bytes are not the format's tag.
    InvalidMagicBytes,
    /// The tag is right, but the version that follows it is not one that
    /// this codec understands. Holds the version as read.
    UnsupportedVersion(u32),
    /// The underlying stream failed.
    Io(IoFailure),
    /// A field breaks a rule of the format: a sample rate or channel count
    /// of zero, a presence flag that is neither 0 nor 1, positions that do
    /// not match the channel count, or a spatial block cut short.
    InvalidMetadata,
}

} // verus!
