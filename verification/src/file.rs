//! A whole Bitwave file: the value in memory, and the read and the write
//! that run the four sections in order.

use crate::audio::{read_audio, write_audio};
use crate::error::BitwaveError;
use crate::header::{read_header, write_header};
use crate::layout::{
    file_bytes,
    header_bytes,
    metadata_bytes,
    parse_file,
    parse_header,
    parse_metadata,
    parse_spatial,
    spatial_bytes,
};
use crate::metadata::{read_metadata, write_metadata};
use crate::model::{owned_positions_model, positions_model, FileModel, Metadata, SpatialData};
use crate::spatial::{read_spatial, write_spatial_unchecked};
use crate::stream::{lemma_advance_chain, lemma_append_chain, ByteSink, ByteSource};
use vstd::prelude::*;

verus! {

/// A Bitwave file in memory. It does not change once it is made.
///
/// A file may be made with positions that do not match its channel count;
/// `write_to` refuses to write such a file.
pub struct BitwaveFile {
    metadata: Metadata,
    spatial_data: Option<Vec<SpatialData>>,
    audio_data: Vec<u8>,
}

impl View for BitwaveFile {
    type V = FileModel;

    closed spec fn view(&self) -> FileModel {
        FileModel {
            metadata: self.metadata,
            spatial_data: owned_positions_model(self.spatial_data),
            audio_data: self.audio_data@,
        }
    }
}

/// What a read of a file came to, with the file as a mathematical value.
pub open spec fn file_outcome(r: Result<BitwaveFile, BitwaveError>) -> Result<
    FileModel,
    BitwaveError,
> {
    match r {
        Ok(file) => Ok(file@),
        Err(e) => Err(e),
    }
}

impl BitwaveFile {
    /// A file of these three parts, whatever they are.
    pub fn new(
        metadata: Metadata,
        spatial_data: Option<Vec<SpatialData>>,
        audio_data: Vec<u8>,
    ) -> (file: Self)
        ensures
            file@ == (FileModel {
                metadata,
                spatial_data: owned_positions_model(spatial_data),
                audio_data: audio_data@,
            }),
    {
        BitwaveFile { metadata, spatial_data, audio_data }
    }

    /// Reads a file from `source`, to its end.
    ///
    /// The sections are read in order: header, metadata, spatial block,
    /// audio payload. The first that fails ends the read with its error,
    /// and the source is left where that section's read left it.
    pub fn read_from(source: &mut ByteSource) -> (r: Result<Self, BitwaveError>)
        ensures
            file_outcome(r) == parse_file(old(source).remaining()).outcome,
            final(source).advanced_by(old(source), parse_file(old(source).remaining()).taken),
    {
        let ghost bytes = source.remaining();
        let header = read_header(source);
        let ghost after_header = *source;
        if let Err(e) = header {
            return Err(e);
        }
        let got = read_metadata(source);
        let ghost after_metadata = *source;
        let ghost header_taken = parse_header(bytes).taken;
        let ghost metadata_taken = parse_metadata(after_header.remaining()).taken;
        proof {
            lemma_advance_chain(
                *old(source),
                after_header,
                after_metadata,
                header_taken,
                metadata_taken,
            );
        }
        let metadata = match got {
            Ok(metadata) => metadata,
            Err(e) => {
                return Err(e);
            },
        };
        let got = read_spatial(source, metadata.channels);
        let ghost after_spatial = *source;
        let ghost spatial_taken = parse_spatial(
            after_metadata.remaining(),
            metadata.channels,
        ).taken;
        proof {
            lemma_advance_chain(
                *old(source),
                after_metadata,
                after_spatial,
                header_taken + metadata_taken,
                spatial_taken,
            );
        }
        let spatial_data = match got {
            Ok(spatial_data) => spatial_data,
            Err(e) => {
                return Err(e);
            },
        };
        let audio_data = read_audio(source);
        proof {
            lemma_advance_chain(
                *old(source),
                after_spatial,
                *source,
                header_taken + metadata_taken + spatial_taken,
                after_spatial.remaining().len(),
            );
        }
        Ok(BitwaveFile { metadata, spatial_data, audio_data })
    }

    /// Writes the file to `sink`: header, metadata, spatial block, audio
    /// payload.
    ///
    /// A file whose positions do not come one per channel is refused with
    /// `InvalidMetadata` before anything is written. Otherwise the write
    /// fails only where the sink does, and the sink then holds as much of
    /// the file as it took.
    pub fn write_to(&self, sink: &mut ByteSink) -> (r: Result<(), BitwaveError>)
        ensures
            self@.is_consistent() ==> final(sink).follows(old(sink), file_bytes(self@), r),
            !self@.is_consistent() ==> {
                &&& r == Err::<(), BitwaveError>(BitwaveError::InvalidMetadata)
                &&& *final(sink) == *old(sink)
            },
    {
        if let Some(positions) = &self.spatial_data {
            if positions.len() != self.metadata.channels as usize {
                return Err(BitwaveError::InvalidMetadata);
            }
        }
        let ghost start = *sink;
        let ghost header = header_bytes();
        let ghost metadata = metadata_bytes(self@.metadata);
        let ghost spatial = spatial_bytes(self@.spatial_data);
        let ghost audio = self@.audio_data;
        assert(file_bytes(self@) =~= header + (metadata + spatial + audio));
        assert(file_bytes(self@) =~= (header + metadata) + (spatial + audio));

        let r1 = write_header(sink);
        let ghost after_header = *sink;
        if r1.is_err() {
            proof {
                lemma_append_chain(
                    start,
                    after_header,
                    after_header,
                    header,
                    metadata + spatial + audio,
                    r1,
                    r1,
                );
            }
            return r1;
        }
        let r2 = write_metadata(sink, &self.metadata);
        let ghost after_metadata = *sink;
        proof {
            lemma_append_chain(start, after_header, after_metadata, header, metadata, r1, r2);
        }
        if r2.is_err() {
            proof {
                lemma_append_chain(
                    start,
                    after_metadata,
                    after_metadata,
                    header + metadata,
                    spatial + audio,
                    r2,
                    r2,
                );
            }
            return r2;
        }
        let r3 = write_spatial_unchecked(sink, self.spatial_data.as_ref());
        let ghost after_spatial = *sink;
        proof {
            lemma_append_chain(
                start,
                after_metadata,
                after_spatial,
                header + metadata,
                spatial,
                r2,
                r3,
            );
        }
        if r3.is_err() {
            proof {
                lemma_append_chain(
                    start,
                    after_spatial,
                    after_spatial,
                    header + metadata + spatial,
                    audio,
                    r3,
                    r3,
                );
            }
            return r3;
        }
        let r4 = write_audio(sink, self.audio_data.as_slice());
        proof {
            lemma_append_chain(
                start,
                after_spatial,
                *sink,
                header + metadata + spatial,
                audio,
                r3,
                r4,
            );
        }
        r4
    }

    /// The metadata.
    pub fn metadata(&self) -> (metadata: &Metadata)
        ensures
            *metadata == self@.metadata,
    {
        &self.metadata
    }

    /// The positions, one per channel, where the file has any.
    pub fn spatial_data(&self) -> (spatial_data: Option<&Vec<SpatialData>>)
        ensures
            positions_model(spatial_data) == self@.spatial_data,
    {
        self.spatial_data.as_ref()
    }

    /// The audio payload.
    pub fn audio_data(&self) -> (audio_data: &Vec<u8>)
        ensures
            audio_data@ == self@.audio_data,
    {
        &self.audio_data
    }
}

} // verus!
