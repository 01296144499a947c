//! The values that a Bitwave file carries.
//!
//! The format stores floating-point fields as their IEEE-754 bit patterns
//! and never computes with them, so the codec holds each of them as the
//! unsigned integer of the same width. A pattern survives a write and a read
//! bit for bit.

use vstd::prelude::*;

verus! {

/// What a file says about its audio.
#[derive(Clone, Copy, Debug, PartialEq, Eq)]
pub struct Metadata {
    /// Samples per second. Positive in every file that can be read back.
    pub sample_rate: u32,
    /// The number of audio channels. Positive in every file that can be
    /// read back.
    pub channels: u16,
    /// The duration in seconds, as the bits of an IEEE-754 binary64 number.
    pub duration_bits: u64,
    /// The tempo in beats per minute, as the bits of an IEEE-754 binary32
    /// number; `None` where a tempo does not apply.
    pub bpm_bits: Option<u32>,
}

impl Metadata {
    /// Whether a reader accepts the metadata: the sample rate and the
    /// channel count are both positive.
    pub open spec fn is_valid(&self) -> bool {
        self.sample_rate > 0 && self.channels > 0
    }
}

/// Where one channel's virtual sound source stands: three coordinates, each
/// as the bits of an IEEE-754 binary32 number.
#[derive(Clone, Copy, Debug, PartialEq, Eq)]
pub struct SpatialData {
    pub x_bits: u32,
    pub y_bits: u32,
    pub z_bits: u32,
}

/// The positions that an optional vector holds.
pub open spec fn owned_positions_model(spatial_data: Option<Vec<SpatialData>>) -> Option<
    Seq<SpatialData>,
> {
    match spatial_data {
        Some(positions) => Some(positions@),
        None => None,
    }
}

/// The positions that an optional borrowed vector holds.
pub open spec fn positions_model(spatial_data: Option<&Vec<SpatialData>>) -> Option<
    Seq<SpatialData>,
> {
    match spatial_data {
        Some(positions) => Some(positions@),
        None => None,
    }
}

/// Whether positions, where there are any, come one per channel.
pub open spec fn one_per_channel(spatial_data: Option<Seq<SpatialData>>, channels: u16) -> bool {
    spatial_data matches Some(positions) ==> positions.len() == channels
}

/// A Bitwave file as a mathematical value.
pub struct FileModel {
    pub metadata: Metadata,
    /// One position per channel, channel 0 first, where the audio is
    /// positioned at all.
    pub spatial_data: Option<Seq<SpatialData>>,
    /// The audio payload. The format does not look inside it.
    pub audio_data: Seq<u8>,
}

impl FileModel {
    /// Whether positions, where present, come one per channel.
    pub open spec fn is_consistent(&self) -> bool {
        one_per_channel(self.spatial_data, self.metadata.channels)
    }

    /// Whether the file can be written and read back: its metadata is valid
    /// and its positions match its channels.
    pub open spec fn is_valid(&self) -> bool {
        self.metadata.is_valid() && self.is_consistent()
    }
}

} // verus!
