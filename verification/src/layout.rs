//! The byte layout of a Bitwave file, as functions on byte sequences.
//!
//! A file is four sections with no padding between them: header, metadata,
//! spatial block, audio payload. Every integer is little-endian.
//!
//! | section  | field           | bytes                      |
//! |----------|-----------------|----------------------------|
//! | header   | magic           | 4: `42 57 58 00`           |
//! | header   | version         | 4                          |
//! | metadata | sample rate     | 4                          |
//! | metadata | channels        | 2                          |
//! | metadata | duration        | 8                          |
//! | metadata | tempo present   | 1: 0 or 1                  |
//! | metadata | tempo           | 4, only where present      |
//! | spatial  | block present   | 1                          |
//! | spatial  | positions       | 12 per channel, if present |
//! | audio    | payload         | all that is left           |
//!
//! The first half of this module says which bytes a value is written as.
//! The second half says what a reader makes of any bytes at all: the value
//! or the error, and how many bytes it has read when it stops.

use crate::endian::{le_bytes, le_value};
use crate::error::{BitwaveError, IoFailure};
use crate::model::{FileModel, Metadata, SpatialData};
use vstd::prelude::*;

verus! {

/// The one version of the format that this codec reads and writes.
pub const VERSION: u32 = 1;

/// The length of the header: the magic tag and the version.
pub const HEADER_LEN: usize = 8;

/// The length of the metadata up to and including the tempo's presence
/// flag.
pub const METADATA_FIXED_LEN: usize = 15;

/// The length of the metadata where a tempo is present.
pub const METADATA_FULL_LEN: usize = 19;

/// The length of one channel's position.
pub const POSITION_LEN: usize = 12;

/// The tag that every Bitwave file starts with: `BWX` and a zero byte.
pub open spec fn magic() -> Seq<u8> {
    seq![0x42u8, 0x57u8, 0x58u8, 0x00u8]
}

/// The header of every file that this codec writes.
pub open spec fn header_bytes() -> Seq<u8> {
    magic() + le_bytes(VERSION as nat, 4)
}

/// The tempo field: its presence flag, then the tempo where there is one.
pub open spec fn bpm_bytes(bpm_bits: Option<u32>) -> Seq<u8> {
    match bpm_bits {
        None => seq![0u8],
        Some(bits) => seq![1u8] + le_bytes(bits as nat, 4),
    }
}

/// The metadata section of a file with this metadata.
pub open spec fn metadata_bytes(metadata: Metadata) -> Seq<u8> {
    le_bytes(metadata.sample_rate as nat, 4) + le_bytes(metadata.channels as nat, 2) + le_bytes(
        metadata.duration_bits as nat,
        8,
    ) + bpm_bytes(metadata.bpm_bits)
}

/// One position: x, y, z.
pub open spec fn position_bytes(position: SpatialData) -> Seq<u8> {
    le_bytes(position.x_bits as nat, 4) + le_bytes(position.y_bits as nat, 4) + le_bytes(
        position.z_bits as nat,
        4,
    )
}

/// The positions one after another, channel 0 first.
pub open spec fn positions_bytes(positions: Seq<SpatialData>) -> Seq<u8>
    decreases positions.len(),
{
    if positions.len() == 0 {
        Seq::empty()
    } else {
        positions_bytes(positions.drop_last()) + position_bytes(positions.last())
    }
}

/// The spatial block: its presence flag, then the positions where there are
/// any.
pub open spec fn spatial_bytes(spatial_data: Option<Seq<SpatialData>>) -> Seq<u8> {
    match spatial_data {
        None => seq![0u8],
        Some(positions) => seq![1u8] + positions_bytes(positions),
    }
}

/// All that precedes the audio payload in the file.
pub open spec fn preamble_bytes(file: FileModel) -> Seq<u8> {
    header_bytes() + metadata_bytes(file.metadata) + spatial_bytes(file.spatial_data)
}

/// The whole file.
pub open spec fn file_bytes(file: FileModel) -> Seq<u8> {
    preamble_bytes(file) + file.audio_data
}

/// The 16-bit integer whose bytes start at `at`.
pub open spec fn u16_at(bytes: Seq<u8>, at: int) -> u16 {
    le_value(bytes.subrange(at, at + 2)) as u16
}

/// The 32-bit integer whose bytes start at `at`.
pub open spec fn u32_at(bytes: Seq<u8>, at: int) -> u32 {
    le_value(bytes.subrange(at, at + 4)) as u32
}

/// The 64-bit integer whose bytes start at `at`.
pub open spec fn u64_at(bytes: Seq<u8>, at: int) -> u64 {
    le_value(bytes.subrange(at, at + 8)) as u64
}

/// The position whose bytes start at `at`.
pub open spec fn position_at(bytes: Seq<u8>, at: int) -> SpatialData {
    SpatialData {
        x_bits: u32_at(bytes, at),
        y_bits: u32_at(bytes, at + 4),
        z_bits: u32_at(bytes, at + 8),
    }
}

/// The position with the given index among those that stand one after
/// another from `start`.
pub open spec fn nth_position(bytes: Seq<u8>, start: int, index: int) -> SpatialData {
    position_at(bytes, start + POSITION_LEN * index)
}

/// What reading one section comes to: the value or the error, and the
/// number of bytes that the reader has taken from the stream when it stops.
pub struct Parse<T> {
    pub outcome: Result<T, BitwaveError>,
    pub taken: nat,
}

/// A read that ran into the end of the stream: it has taken all there was.
pub open spec fn cut_short<T>(bytes: Seq<u8>) -> Parse<T> {
    Parse { outcome: Err(BitwaveError::Io(IoFailure::UnexpectedEof)), taken: bytes.len() }
}

/// Reading the header. A wrong tag is refused after its four bytes, before
/// the version is looked at; a version other than `VERSION` is refused with
/// the version as read.
pub open spec fn parse_header(bytes: Seq<u8>) -> Parse<u32> {
    if bytes.len() < 4 {
        cut_short(bytes)
    } else if bytes.take(4) != magic() {
        Parse { outcome: Err(BitwaveError::InvalidMagicBytes), taken: 4 }
    } else if bytes.len() < HEADER_LEN {
        cut_short(bytes)
    } else if u32_at(bytes, 4) != VERSION {
        Parse { outcome: Err(BitwaveError::UnsupportedVersion(u32_at(bytes, 4))), taken: 8 }
    } else {
        Parse { outcome: Ok(u32_at(bytes, 4)), taken: 8 }
    }
}

/// Reading the metadata. The fields are taken in first; a presence flag
/// other than 0 and 1 is refused where it stands, and a sample rate or a
/// channel count of zero once the whole section is in.
pub open spec fn parse_metadata(bytes: Seq<u8>) -> Parse<Metadata> {
    if bytes.len() < METADATA_FIXED_LEN {
        cut_short(bytes)
    } else if bytes[14] > 1 {
        Parse { outcome: Err(BitwaveError::InvalidMetadata), taken: 15 }
    } else if bytes[14] == 1 && bytes.len() < METADATA_FULL_LEN {
        cut_short(bytes)
    } else {
        let metadata = Metadata {
            sample_rate: u32_at(bytes, 0),
            channels: u16_at(bytes, 4),
            duration_bits: u64_at(bytes, 6),
            bpm_bits: if bytes[14] == 1 {
                Some(u32_at(bytes, 15))
            } else {
                None
            },
        };
        Parse {
            outcome: if metadata.is_valid() {
                Ok(metadata)
            } else {
                Err(BitwaveError::InvalidMetadata)
            },
            taken: if bytes[14] == 1 {
                19
            } else {
                15
            },
        }
    }
}

/// Reading the spatial block of a file with `channels` channels. A flag of
/// zero means that there are no positions; any other flag is followed by
/// one position per channel, and a stream that ends before the last of them
/// is refused as invalid.
pub open spec fn parse_spatial(bytes: Seq<u8>, channels: u16) -> Parse<Option<Seq<SpatialData>>> {
    if bytes.len() < 1 {
        cut_short(bytes)
    } else if bytes[0] == 0 {
        Parse { outcome: Ok(None), taken: 1 }
    } else if bytes.len() < 1 + POSITION_LEN * channels {
        Parse { outcome: Err(BitwaveError::InvalidMetadata), taken: bytes.len() }
    } else {
        Parse {
            outcome: Ok(
                Some(Seq::new(channels as nat, |i: int| nth_position(bytes, 1, i))),
            ),
            taken: (1 + POSITION_LEN * channels) as nat,
        }
    }
}

/// Reading a whole file: header, metadata, spatial block, then all that is
/// left as the audio payload. The first section that fails ends the read
/// with its error.
pub open spec fn parse_file(bytes: Seq<u8>) -> Parse<FileModel> {
    let header = parse_header(bytes);
    let after_header = bytes.skip(header.taken as int);
    let metadata = parse_metadata(after_header);
    let after_metadata = after_header.skip(metadata.taken as int);
    if header.outcome is Err {
        Parse { outcome: Err(header.outcome->Err_0), taken: header.taken }
    } else if metadata.outcome is Err {
        Parse { outcome: Err(metadata.outcome->Err_0), taken: header.taken + metadata.taken }
    } else {
        let spatial = parse_spatial(after_metadata, metadata.outcome->Ok_0.channels);
        if spatial.outcome is Err {
            Parse {
                outcome: Err(spatial.outcome->Err_0),
                taken: header.taken + metadata.taken + spatial.taken,
            }
        } else {
            Parse {
                outcome: Ok(
                    FileModel {
                        metadata: metadata.outcome->Ok_0,
                        spatial_data: spatial.outcome->Ok_0,
                        audio_data: after_metadata.skip(spatial.taken as int),
                    },
                ),
                taken: bytes.len(),
            }
        }
    }
}

} // verus!
