//! The audio payload: all that follows the spatial block, to the end of the
//! stream. The format stores no length for it and does not look inside it.

use crate::error::BitwaveError;
use crate::stream::{ByteSink, ByteSource};
use vstd::prelude::*;

verus! {

/// Writes the payload as it is. It has to be the last write to the stream:
/// a reader takes every byte that follows as audio.
pub fn write_audio(sink: &mut ByteSink, audio_data: &[u8]) -> (r: Result<(), BitwaveError>)
    ensures
        final(sink).follows(old(sink), audio_data@, r),
{
    sink.write_all(audio_data)
}

/// Reads the payload: every byte that is left, which may be none.
pub fn read_audio(source: &mut ByteSource) -> (audio_data: Vec<u8>)
    ensures
        audio_data@ == old(source).remaining(),
        final(source).advanced_by(old(source), old(source).remaining().len()),
{
    source.read_to_end()
}

} // verus!
