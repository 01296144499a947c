//! The metadata section: sample rate, channel count, duration and an
//! optional tempo.

use crate::endian::{read_u16_le, read_u32_le, read_u64_le, u16_to_le, u32_to_le, u64_to_le};
use crate::error::BitwaveError;
use crate::layout::{metadata_bytes, parse_metadata, METADATA_FIXED_LEN};
use crate::model::Metadata;
use crate::stream::{lemma_advance_chain, ByteSink, ByteSource};
use vstd::prelude::*;
use vstd::slice::slice_subrange;

verus! {

/// Writes the metadata as it is, valid or not: a reader is the one to
/// refuse a sample rate or a channel count of zero.
pub fn write_metadata(sink: &mut ByteSink, metadata: &Metadata) -> (r: Result<(), BitwaveError>)
    ensures
        final(sink).follows(old(sink), metadata_bytes(*metadata), r),
{
    let mut buf: Vec<u8> = Vec::new();
    let sample_rate = u32_to_le(metadata.sample_rate);
    buf.extend_from_slice(sample_rate.as_slice());
    let channels = u16_to_le(metadata.channels);
    buf.extend_from_slice(channels.as_slice());
    let duration = u64_to_le(metadata.duration_bits);
    buf.extend_from_slice(duration.as_slice());
    match metadata.bpm_bits {
        None => {
            buf.push(0);
        },
        Some(bits) => {
            buf.push(1);
            let bpm = u32_to_le(bits);
            buf.extend_from_slice(bpm.as_slice());
        },
    }
    assert(buf@ =~= metadata_bytes(*metadata));
    sink.write_all(buf.as_slice())
}

/// Reads the metadata.
///
/// Fails with `InvalidMetadata` where the tempo's presence flag is neither
/// 0 nor 1, or where the sample rate or the channel count is zero; with
/// `UnexpectedEof` where the stream ends inside the section.
pub fn read_metadata(source: &mut ByteSource) -> (r: Result<Metadata, BitwaveError>)
    ensures
        r == parse_metadata(old(source).remaining()).outcome,
        final(source).advanced_by(old(source), parse_metadata(old(source).remaining()).taken),
{
    let ghost bytes = source.remaining();
    let fixed = match source.read_exact(METADATA_FIXED_LEN) {
        Ok(fixed) => fixed,
        Err(e) => {
            return Err(e);
        },
    };
    let ghost mid = *source;
    let sample_rate = read_u32_le(slice_subrange(fixed.as_slice(), 0, 4));
    let channels = read_u16_le(slice_subrange(fixed.as_slice(), 4, 6));
    let duration_bits = read_u64_le(slice_subrange(fixed.as_slice(), 6, 14));
    let flag = fixed[14];
    proof {
        assert(fixed@.subrange(0, 4) =~= bytes.subrange(0, 4));
        assert(fixed@.subrange(4, 6) =~= bytes.subrange(4, 6));
        assert(fixed@.subrange(6, 14) =~= bytes.subrange(6, 14));
    }
    let bpm_bits = if flag == 0 {
        None
    } else if flag == 1 {
        let got = source.read_exact(4);
        proof {
            lemma_advance_chain(
                *old(source),
                mid,
                *source,
                15,
                if bytes.len() < 19 {
                    (bytes.len() - 15) as nat
                } else {
                    4
                },
            );
        }
        match got {
            Ok(raw) => {
                assert(raw@ =~= bytes.subrange(15, 19));
                Some(read_u32_le(raw.as_slice()))
            },
            Err(e) => {
                return Err(e);
            },
        }
    } else {
        return Err(BitwaveError::InvalidMetadata);
    };
    if sample_rate == 0 || channels == 0 {
        return Err(BitwaveError::InvalidMetadata);
    }
    Ok(Metadata { sample_rate, channels, duration_bits, bpm_bits })
}

} // verus!
