//! The spatial block: an optional position for each channel.
//!
//! The block does not say how long it is. A reader knows from the channel
//! count of the metadata, so the metadata is read first.

use crate::endian::{read_u32_le, u32_to_le};
use crate::error::BitwaveError;
use crate::layout::{
    nth_position,
    parse_spatial,
    position_bytes,
    positions_bytes,
    spatial_bytes,
    POSITION_LEN,
};
use crate::model::{one_per_channel, owned_positions_model, positions_model, SpatialData};
use crate::stream::{lemma_advance_chain, ByteSink, ByteSource};
use vstd::prelude::*;
use vstd::slice::slice_subrange;

verus! {

/// What a read of the spatial block came to, with the positions as a
/// sequence.
pub open spec fn spatial_outcome(r: Result<Option<Vec<SpatialData>>, BitwaveError>) -> Result<
    Option<Seq<SpatialData>>,
    BitwaveError,
> {
    match r {
        Ok(spatial_data) => Ok(owned_positions_model(spatial_data)),
        Err(e) => Err(e),
    }
}

/// Writes the spatial block without asking whether the positions match any
/// channel count.
pub(crate) fn write_spatial_unchecked(
    sink: &mut ByteSink,
    spatial_data: Option<&Vec<SpatialData>>,
) -> (r: Result<(), BitwaveError>)
    ensures
        final(sink).follows(old(sink), spatial_bytes(positions_model(spatial_data)), r),
{
    let mut buf: Vec<u8> = Vec::new();
    match spatial_data {
        None => {
            buf.push(0);
        },
        Some(positions) => {
            buf.push(1);
            let mut i: usize = 0;
            while i < positions.len()
                invariant
                    i <= positions@.len(),
                    buf@ == seq![1u8] + positions_bytes(positions@.take(i as int)),
                decreases positions@.len() - i,
            {
                let position = positions[i];
                let x = u32_to_le(position.x_bits);
                buf.extend_from_slice(x.as_slice());
                let y = u32_to_le(position.y_bits);
                buf.extend_from_slice(y.as_slice());
                let z = u32_to_le(position.z_bits);
                buf.extend_from_slice(z.as_slice());
                proof {
                    let done = positions@.take(i as int);
                    let next = positions@.take(i + 1);
                    assert(next.drop_last() =~= done);
                    assert(next.last() == position);
                    assert(buf@ =~= seq![1u8] + (positions_bytes(done) + position_bytes(position)));
                }
                i += 1;
            }
            assert(positions@.take(i as int) =~= positions@);
        },
    }
    sink.write_all(buf.as_slice())
}

/// Writes the spatial block of a file with `channel_count` channels.
///
/// Positions that do not come one per channel are refused with
/// `InvalidMetadata` before anything is written.
pub fn write_spatial(
    sink: &mut ByteSink,
    spatial_data: Option<&Vec<SpatialData>>,
    channel_count: u16,
) -> (r: Result<(), BitwaveError>)
    ensures
        one_per_channel(positions_model(spatial_data), channel_count) ==> final(sink).follows(
            old(sink),
            spatial_bytes(positions_model(spatial_data)),
            r,
        ),
        !one_per_channel(positions_model(spatial_data), channel_count) ==> {
            &&& r == Err::<(), BitwaveError>(BitwaveError::InvalidMetadata)
            &&& *final(sink) == *old(sink)
        },
{
    if let Some(positions) = spatial_data {
        if positions.len() != channel_count as usize {
            return Err(BitwaveError::InvalidMetadata);
        }
    }
    write_spatial_unchecked(sink, spatial_data)
}

/// Reads the spatial block of a file with `channel_count` channels.
///
/// A presence flag of zero gives `None`. Any other flag is followed by one
/// position per channel; where the stream ends before the last of them the
/// read fails with `InvalidMetadata`. Where the stream ends before the
/// flag it fails with `UnexpectedEof`.
pub fn read_spatial(source: &mut ByteSource, channel_count: u16) -> (r: Result<
    Option<Vec<SpatialData>>,
    BitwaveError,
>)
    ensures
        spatial_outcome(r) == parse_spatial(old(source).remaining(), channel_count).outcome,
        final(source).advanced_by(
            old(source),
            parse_spatial(old(source).remaining(), channel_count).taken,
        ),
{
    let ghost bytes = source.remaining();
    let flag = match source.read_exact(1) {
        Ok(flag) => flag,
        Err(e) => {
            return Err(e);
        },
    };
    let ghost mid = *source;
    if flag[0] == 0 {
        return Ok(None);
    }
    let count = channel_count as usize;
    let block_len = POSITION_LEN * count;
    let got = source.read_exact(block_len);
    proof {
        lemma_advance_chain(
            *old(source),
            mid,
            *source,
            1,
            if bytes.len() < 1 + block_len {
                (bytes.len() - 1) as nat
            } else {
                block_len as nat
            },
        );
    }
    let block = match got {
        Ok(block) => block,
        Err(_) => {
            return Err(BitwaveError::InvalidMetadata);
        },
    };
    assert(block@ =~= bytes.subrange(1, 1 + block_len));
    let mut positions: Vec<SpatialData> = Vec::new();
    let mut i: usize = 0;
    while i < count
        invariant
            i <= count == channel_count,
            block@.len() == POSITION_LEN * count,
            positions@ =~= Seq::new(i as nat, |k: int| nth_position(block@, 0, k)),
        decreases count - i,
    {
        let at = POSITION_LEN * i;
        let x_bits = read_u32_le(slice_subrange(block.as_slice(), at, at + 4));
        let y_bits = read_u32_le(slice_subrange(block.as_slice(), at + 4, at + 8));
        let z_bits = read_u32_le(slice_subrange(block.as_slice(), at + 8, at + 12));
        positions.push(SpatialData { x_bits, y_bits, z_bits });
        i += 1;
    }
    proof {
        assert forall|k: int| 0 <= k < count implies #[trigger] nth_position(block@, 0, k)
            == nth_position(bytes, 1, k) by {
            assert(block@.subrange(12 * k, 12 * k + 4) =~= bytes.subrange(1 + 12 * k, 1 + 12 * k + 4));
            assert(block@.subrange(12 * k + 4, 12 * k + 8) =~= bytes.subrange(
                1 + 12 * k + 4,
                1 + 12 * k + 8,
            ));
            assert(block@.subrange(12 * k + 8, 12 * k + 12) =~= bytes.subrange(
                1 + 12 * k + 8,
                1 + 12 * k + 12,
            ));
        }
        assert(positions@ =~= Seq::new(channel_count as nat, |k: int| nth_position(bytes, 1, k)));
    }
    Ok(Some(positions))
}

} // verus!
