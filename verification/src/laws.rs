//! What holds of the format as a whole: what is written is read back, and
//! foreign, newer and truncated files are refused.
//!
//! The laws are stated over `layout`, the model that the contracts of the
//! readers and writers are stated over: what holds of `file_bytes` holds of
//! the bytes that `BitwaveFile::write_to` appends to a sink with room, and
//! what holds of `parse_file` holds of `BitwaveFile::read_from`.

use crate::endian::{
    le_bytes,
    le_value,
    lemma_le_bytes_len,
    lemma_le_ranges,
    lemma_le_value_of_bytes,
};
use crate::error::{BitwaveError, IoFailure};
use crate::layout::{
    bpm_bytes,
    file_bytes,
    header_bytes,
    magic,
    metadata_bytes,
    nth_position,
    parse_file,
    parse_header,
    parse_metadata,
    parse_spatial,
    position_at,
    position_bytes,
    positions_bytes,
    preamble_bytes,
    spatial_bytes,
    u32_at,
    Parse,
    POSITION_LEN,
    VERSION,
};
use crate::model::{one_per_channel, FileModel, Metadata, SpatialData};
use vstd::prelude::*;

verus! {

/// The lengths of the sections: 8 bytes of header, 15 or 19 of metadata,
/// and 1 byte of spatial block with 12 more for each position.
pub proof fn section_lengths(file: FileModel)
    ensures
        header_bytes().len() == 8,
        metadata_bytes(file.metadata).len() == if file.metadata.bpm_bits is Some {
            19nat
        } else {
            15nat
        },
        spatial_bytes(file.spatial_data).len() == match file.spatial_data {
            Some(positions) => 1 + POSITION_LEN * positions.len(),
            None => 1,
        },
        preamble_bytes(file).len() == header_bytes().len() + metadata_bytes(file.metadata).len()
            + spatial_bytes(file.spatial_data).len(),
        file_bytes(file).len() == preamble_bytes(file).len() + file.audio_data.len(),
{
    lemma_le_bytes_len(VERSION as nat, 4);
    lemma_metadata_len(file.metadata);
    if let Some(positions) = file.spatial_data {
        lemma_positions_len(positions);
    }
}

proof fn lemma_metadata_len(metadata: Metadata)
    ensures
        metadata_bytes(metadata).len() == if metadata.bpm_bits is Some {
            19nat
        } else {
            15nat
        },
{
    lemma_le_bytes_len(metadata.sample_rate as nat, 4);
    lemma_le_bytes_len(metadata.channels as nat, 2);
    lemma_le_bytes_len(metadata.duration_bits as nat, 8);
    if let Some(bits) = metadata.bpm_bits {
        lemma_le_bytes_len(bits as nat, 4);
    }
}

proof fn lemma_position_len(position: SpatialData)
    ensures
        position_bytes(position).len() == 12,
{
    lemma_le_bytes_len(position.x_bits as nat, 4);
    lemma_le_bytes_len(position.y_bits as nat, 4);
    lemma_le_bytes_len(position.z_bits as nat, 4);
}

proof fn lemma_positions_len(positions: Seq<SpatialData>)
    ensures
        positions_bytes(positions).len() == 12 * positions.len(),
    decreases positions.len(),
{
    if positions.len() > 0 {
        lemma_positions_len(positions.drop_last());
        lemma_position_len(positions.last());
    }
}

/// An integer that was written into `bytes` at `at` is read back from
/// there.
proof fn lemma_read_back(bytes: Seq<u8>, at: int, value: nat, width: nat)
    requires
        0 <= at,
        at + width <= bytes.len(),
        bytes.subrange(at, at + width) == le_bytes(value, width),
        width == 2 && value <= u16::MAX || width == 4 && value <= u32::MAX || width == 8 && value
            <= u64::MAX,
    ensures
        le_value(bytes.subrange(at, at + width)) == value,
{
    lemma_le_ranges();
    lemma_le_value_of_bytes(value, width);
}

/// A position that was written into `bytes` at `at` is read back from
/// there.
proof fn lemma_position_read_back(bytes: Seq<u8>, at: int, position: SpatialData)
    requires
        0 <= at,
        at + 12 <= bytes.len(),
        bytes.subrange(at, at + 12) == position_bytes(position),
    ensures
        position_at(bytes, at) == position,
{
    lemma_le_bytes_len(position.x_bits as nat, 4);
    lemma_le_bytes_len(position.y_bits as nat, 4);
    lemma_le_bytes_len(position.z_bits as nat, 4);
    let block = bytes.subrange(at, at + 12);
    assert(bytes.subrange(at, at + 4) =~= block.subrange(0, 4));
    assert(bytes.subrange(at + 4, at + 8) =~= block.subrange(4, 8));
    assert(bytes.subrange(at + 8, at + 12) =~= block.subrange(8, 12));
    assert(block.subrange(0, 4) =~= le_bytes(position.x_bits as nat, 4));
    assert(block.subrange(4, 8) =~= le_bytes(position.y_bits as nat, 4));
    assert(block.subrange(8, 12) =~= le_bytes(position.z_bits as nat, 4));
    lemma_read_back(bytes, at, position.x_bits as nat, 4);
    lemma_read_back(bytes, at + 4, position.y_bits as nat, 4);
    lemma_read_back(bytes, at + 8, position.z_bits as nat, 4);
}

/// The bytes of the position with index `index` stand at 12 times `index`.
proof fn lemma_position_in_positions(positions: Seq<SpatialData>, index: int)
    requires
        0 <= index < positions.len(),
    ensures
        positions_bytes(positions).len() == 12 * positions.len(),
        positions_bytes(positions).subrange(12 * index, 12 * index + 12) == position_bytes(
            positions[index],
        ),
    decreases positions.len(),
{
    let front = positions.drop_last();
    lemma_positions_len(positions);
    lemma_positions_len(front);
    lemma_position_len(positions.last());
    if index == positions.len() - 1 {
        assert(positions_bytes(positions).subrange(12 * index, 12 * index + 12) =~= position_bytes(
            positions[index],
        ));
    } else {
        lemma_position_in_positions(front, index);
        assert(positions_bytes(positions).subrange(12 * index, 12 * index + 12)
            =~= positions_bytes(front).subrange(12 * index, 12 * index + 12));
    }
}

/// The header that is written is read back as the current version, whatever
/// follows it.
pub proof fn header_round_trip(rest: Seq<u8>)
    ensures
        parse_header(header_bytes() + rest) == (Parse { outcome: Ok(VERSION), taken: 8 }),
{
    let bytes = header_bytes() + rest;
    lemma_le_bytes_len(VERSION as nat, 4);
    assert(bytes.take(4) =~= magic());
    assert(bytes.subrange(4, 8) =~= le_bytes(VERSION as nat, 4));
    lemma_read_back(bytes, 4, VERSION as nat, 4);
}

/// Valid metadata that is written is read back as it was, bit for bit,
/// with a tempo or without one, whatever follows it.
pub proof fn metadata_round_trip(metadata: Metadata, rest: Seq<u8>)
    requires
        metadata.is_valid(),
    ensures
        parse_metadata(metadata_bytes(metadata) + rest) == (Parse {
            outcome: Ok(metadata),
            taken: metadata_bytes(metadata).len(),
        }),
{
    let bytes = metadata_bytes(metadata) + rest;
    lemma_metadata_len(metadata);
    lemma_le_bytes_len(metadata.sample_rate as nat, 4);
    lemma_le_bytes_len(metadata.channels as nat, 2);
    lemma_le_bytes_len(metadata.duration_bits as nat, 8);
    assert(bytes.subrange(0, 4) =~= le_bytes(metadata.sample_rate as nat, 4));
    assert(bytes.subrange(4, 6) =~= le_bytes(metadata.channels as nat, 2));
    assert(bytes.subrange(6, 14) =~= le_bytes(metadata.duration_bits as nat, 8));
    lemma_read_back(bytes, 0, metadata.sample_rate as nat, 4);
    lemma_read_back(bytes, 4, metadata.channels as nat, 2);
    lemma_read_back(bytes, 6, metadata.duration_bits as nat, 8);
    match metadata.bpm_bits {
        None => {
            assert(bytes[14] == bpm_bytes(metadata.bpm_bits)[0]);
        },
        Some(bits) => {
            lemma_le_bytes_len(bits as nat, 4);
            assert(bytes[14] == bpm_bytes(metadata.bpm_bits)[0]);
            assert(bytes.subrange(15, 19) =~= le_bytes(bits as nat, 4));
            lemma_read_back(bytes, 15, bits as nat, 4);
        },
    }
}

/// A spatial block that is written with one position per channel is read
/// back as it was, bit for bit, with positions or without any, whatever
/// follows it.
pub proof fn spatial_round_trip(
    spatial_data: Option<Seq<SpatialData>>,
    channels: u16,
    rest: Seq<u8>,
)
    requires
        one_per_channel(spatial_data, channels),
    ensures
        parse_spatial(spatial_bytes(spatial_data) + rest, channels) == (Parse {
            outcome: Ok(spatial_data),
            taken: spatial_bytes(spatial_data).len(),
        }),
{
    let bytes = spatial_bytes(spatial_data) + rest;
    match spatial_data {
        None => {
            assert(bytes[0] == 0);
        },
        Some(positions) => {
            lemma_positions_len(positions);
            assert(bytes[0] == 1);
            let read = Seq::new(channels as nat, |i: int| nth_position(bytes, 1, i));
            assert forall|i: int| 0 <= i < channels implies read[i] == positions[i] by {
                lemma_position_in_positions(positions, i);
                assert(bytes.subrange(1 + 12 * i, 1 + 12 * i + 12) =~= positions_bytes(
                    positions,
                ).subrange(12 * i, 12 * i + 12));
                lemma_position_read_back(bytes, 1 + 12 * i, positions[i]);
            }
            assert(read =~= positions);
        },
    }
}

/// A valid file that is written is read back as it was, field for field and
/// bit for bit, and the read takes every byte.
pub proof fn round_trip(file: FileModel)
    requires
        file.is_valid(),
    ensures
        parse_file(file_bytes(file)) == (Parse {
            outcome: Ok(file),
            taken: file_bytes(file).len(),
        }),
{
    let bytes = file_bytes(file);
    let metadata = metadata_bytes(file.metadata);
    let spatial = spatial_bytes(file.spatial_data);
    section_lengths(file);
    assert(bytes =~= header_bytes() + (metadata + spatial + file.audio_data));
    header_round_trip(metadata + spatial + file.audio_data);
    let after_header = bytes.skip(8);
    assert(after_header =~= metadata + (spatial + file.audio_data));
    metadata_round_trip(file.metadata, spatial + file.audio_data);
    let after_metadata = after_header.skip(metadata.len() as int);
    assert(after_metadata =~= spatial + file.audio_data);
    spatial_round_trip(file.spatial_data, file.metadata.channels, file.audio_data);
    assert(after_metadata.skip(spatial.len() as int) =~= file.audio_data);
}

/// Bytes that start with any four bytes other than
/// the tag are refused with `InvalidMagicBytes`, and the read stops after
/// those four.
pub proof fn foreign_magic_is_refused(bytes: Seq<u8>)
    requires
        bytes.len() >= 4,
        bytes.take(4) != magic(),
    ensures
        parse_file(bytes) == (Parse::<FileModel> {
            outcome: Err(BitwaveError::InvalidMagicBytes),
            taken: 4,
        }),
{
}

/// A header with the tag and a version other than the
/// current one is refused with `UnsupportedVersion`, which holds the
/// version as it stands in the header.
pub proof fn other_version_is_refused(bytes: Seq<u8>)
    requires
        bytes.len() >= 8,
        bytes.take(4) == magic(),
        u32_at(bytes, 4) != VERSION,
    ensures
        parse_file(bytes) == (Parse::<FileModel> {
            outcome: Err(BitwaveError::UnsupportedVersion(u32_at(bytes, 4))),
            taken: 8,
        }),
{
}

/// A valid file that is cut anywhere before its audio payload
/// is refused. The error is `InvalidMetadata` where the cut falls among the
/// positions, and `UnexpectedEof` everywhere else; the read takes all the
/// bytes that are left of the file.
pub proof fn truncated_file_is_refused(file: FileModel, cut: nat)
    requires
        file.is_valid(),
        cut < preamble_bytes(file).len(),
    ensures
        parse_file(file_bytes(file).take(cut as int)) == (Parse::<FileModel> {
            outcome: Err(
                if cut <= header_bytes().len() + metadata_bytes(file.metadata).len() {
                    BitwaveError::Io(IoFailure::UnexpectedEof)
                } else {
                    BitwaveError::InvalidMetadata
                },
            ),
            taken: cut,
        }),
{
    let whole = file_bytes(file);
    let bytes = whole.take(cut as int);
    let metadata = metadata_bytes(file.metadata);
    let spatial = spatial_bytes(file.spatial_data);
    section_lengths(file);
    round_trip(file);
    assert(whole =~= header_bytes() + (metadata + spatial + file.audio_data));
    header_round_trip(metadata + spatial + file.audio_data);
    if cut < 8 {
        if cut >= 4 {
            assert(bytes.take(4) =~= whole.take(4));
        }
    } else {
        assert(bytes.take(4) =~= whole.take(4));
        assert(bytes.subrange(4, 8) =~= whole.subrange(4, 8));
        let after_header = bytes.skip(8);
        let whole_after_header = whole.skip(8);
        assert(whole_after_header =~= metadata + (spatial + file.audio_data));
        assert(after_header =~= whole_after_header.take(cut - 8));
        metadata_round_trip(file.metadata, spatial + file.audio_data);
        lemma_truncated_metadata(whole_after_header, (cut - 8) as nat);
        if cut >= 8 + metadata.len() {
            let after_metadata = after_header.skip(metadata.len() as int);
            let whole_after_metadata = whole_after_header.skip(metadata.len() as int);
            assert(whole_after_metadata =~= spatial + file.audio_data);
            assert(after_metadata =~= whole_after_metadata.take(cut - 8 - metadata.len()));
            if cut > 8 + metadata.len() {
                assert(after_metadata[0] == spatial[0]);
            }
        }
    }
}

/// The metadata section read from a prefix of `whole`: the same as from
/// `whole` where the prefix holds the section, and cut short where it does
/// not.
proof fn lemma_truncated_metadata(whole: Seq<u8>, cut: nat)
    requires
        cut <= whole.len(),
        parse_metadata(whole).outcome is Ok,
    ensures
        cut >= parse_metadata(whole).taken ==> parse_metadata(whole.take(cut as int))
            == parse_metadata(whole),
        cut < parse_metadata(whole).taken ==> parse_metadata(whole.take(cut as int)) == (Parse::<
            Metadata,
        > { outcome: Err(BitwaveError::Io(IoFailure::UnexpectedEof)), taken: cut }),
{
    let bytes = whole.take(cut as int);
    if cut >= 15 {
        assert(bytes.subrange(0, 4) =~= whole.subrange(0, 4));
        assert(bytes.subrange(4, 6) =~= whole.subrange(4, 6));
        assert(bytes.subrange(6, 14) =~= whole.subrange(6, 14));
        assert(bytes[14] == whole[14]);
        if cut >= 19 && whole[14] == 1 {
            assert(bytes.subrange(15, 19) =~= whole.subrange(15, 19));
        }
    }
}

} // verus!
