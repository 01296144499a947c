//! The header: the magic tag and the format version.

use crate::endian::{read_u32_le, u32_to_le};
use crate::error::BitwaveError;
use crate::layout::{header_bytes, magic, parse_header, VERSION};
use crate::stream::{lemma_advance_chain, ByteSink, ByteSource};
use vstd::prelude::*;

verus! {

/// Writes the magic tag and the current version.
pub fn write_header(sink: &mut ByteSink) -> (r: Result<(), BitwaveError>)
    ensures
        final(sink).follows(old(sink), header_bytes(), r),
{
    let mut buf: Vec<u8> = Vec::new();
    buf.push(0x42);
    buf.push(0x57);
    buf.push(0x58);
    buf.push(0x00);
    let version = u32_to_le(VERSION);
    buf.extend_from_slice(version.as_slice());
    assert(buf@ =~= header_bytes());
    sink.write_all(buf.as_slice())
}

/// Reads the header and returns its version.
///
/// Fails with `InvalidMagicBytes` where the first four bytes are not the
/// tag, having read those four bytes and no more; with
/// `UnsupportedVersion` where the version is not `VERSION`; with
/// `UnexpectedEof` where the stream ends inside the header.
pub fn read_header(source: &mut ByteSource) -> (r: Result<u32, BitwaveError>)
    ensures
        r == parse_header(old(source).remaining()).outcome,
        final(source).advanced_by(old(source), parse_header(old(source).remaining()).taken),
{
    let ghost bytes = source.remaining();
    let tag = match source.read_exact(4) {
        Ok(tag) => tag,
        Err(e) => {
            return Err(e);
        },
    };
    let ghost mid = *source;
    if tag[0] != 0x42 || tag[1] != 0x57 || tag[2] != 0x58 || tag[3] != 0x00 {
        return Err(BitwaveError::InvalidMagicBytes);
    }
    assert(bytes.take(4) =~= magic());
    let got = source.read_exact(4);
    proof {
        lemma_advance_chain(
            *old(source),
            mid,
            *source,
            4,
            if bytes.len() < 8 {
                (bytes.len() - 4) as nat
            } else {
                4
            },
        );
    }
    let raw = match got {
        Ok(raw) => raw,
        Err(e) => {
            return Err(e);
        },
    };
    assert(raw@ =~= bytes.subrange(4, 8));
    let version = read_u32_le(raw.as_slice());
    if version != VERSION {
        return Err(BitwaveError::UnsupportedVersion(version));
    }
    Ok(version)
}

} // verus!
