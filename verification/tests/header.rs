use bitwave::header::{read_header, write_header};
use bitwave::{BitwaveError, ByteSink, ByteSource, IoFailure};

#[test]
fn header_is_tag_then_version() {
    let mut sink = ByteSink::new();
    assert_eq!(write_header(&mut sink), Ok(()));
    assert_eq!(sink.as_slice(), &[0x42, 0x57, 0x58, 0x00, 0x01, 0x00, 0x00, 0x00]);
    assert_eq!(sink.as_slice()[..4], *b"BWX\0");
}

#[test]
fn header_reads_back_as_version_one() {
    let mut sink = ByteSink::new();
    write_header(&mut sink).unwrap();
    let mut source = ByteSource::new(sink.into_bytes());
    assert_eq!(read_header(&mut source), Ok(1));
    assert_eq!(source.position(), 8);
}

#[test]
fn header_read_stops_after_eight_bytes() {
    let mut source = ByteSource::new(vec![0x42, 0x57, 0x58, 0x00, 1, 0, 0, 0, 9, 9, 9]);
    assert_eq!(read_header(&mut source), Ok(1));
    assert_eq!(source.position(), 8);
    assert_eq!(source.remaining_len(), 3);
}

#[test]
fn wrong_tag_is_refused_after_four_bytes() {
    let mut source = ByteSource::new(vec![0x42, 0x57, 0x58, 0x01, 1, 0, 0, 0]);
    assert_eq!(read_header(&mut source), Err(BitwaveError::InvalidMagicBytes));
    assert_eq!(source.position(), 4);
    assert_eq!(source.remaining_len(), 4);
}

#[test]
fn each_byte_of_the_tag_counts() {
    let good = [0x42u8, 0x57, 0x58, 0x00, 1, 0, 0, 0];
    for i in 0..4 {
        let mut bytes = good.to_vec();
        bytes[i] ^= 0x20;
        let mut source = ByteSource::new(bytes);
        assert_eq!(read_header(&mut source), Err(BitwaveError::InvalidMagicBytes));
        assert_eq!(source.position(), 4);
    }
}

#[test]
fn wrong_tag_alone_is_refused() {
    let mut source = ByteSource::new(b"OggS".to_vec());
    assert_eq!(read_header(&mut source), Err(BitwaveError::InvalidMagicBytes));
    assert_eq!(source.position(), 4);
}

#[test]
fn other_versions_are_refused_with_their_number() {
    let mut source = ByteSource::new(vec![0x42, 0x57, 0x58, 0x00, 0x04, 0x03, 0x02, 0x01, 0xff]);
    assert_eq!(read_header(&mut source), Err(BitwaveError::UnsupportedVersion(0x0102_0304)));
    assert_eq!(source.position(), 8);

    let mut zero = ByteSource::new(vec![0x42, 0x57, 0x58, 0x00, 0, 0, 0, 0]);
    assert_eq!(read_header(&mut zero), Err(BitwaveError::UnsupportedVersion(0)));

    let mut two = ByteSource::new(vec![0x42, 0x57, 0x58, 0x00, 2, 0, 0, 0]);
    assert_eq!(read_header(&mut two), Err(BitwaveError::UnsupportedVersion(2)));

    let mut big_endian_one = ByteSource::new(vec![0x42, 0x57, 0x58, 0x00, 0, 0, 0, 1]);
    assert_eq!(
        read_header(&mut big_endian_one),
        Err(BitwaveError::UnsupportedVersion(0x0100_0000))
    );
}

#[test]
fn short_header_is_unexpected_eof() {
    let good = [0x42u8, 0x57, 0x58, 0x00, 1, 0, 0, 0];
    for cut in 0..8 {
        let mut source = ByteSource::new(good[..cut].to_vec());
        assert_eq!(read_header(&mut source), Err(BitwaveError::Io(IoFailure::UnexpectedEof)));
        assert_eq!(source.position(), cut);
    }
}

#[test]
fn short_foreign_header_is_unexpected_eof_until_the_tag_is_in() {
    let mut three = ByteSource::new(b"Ogg".to_vec());
    assert_eq!(read_header(&mut three), Err(BitwaveError::Io(IoFailure::UnexpectedEof)));
    let mut five = ByteSource::new(b"OggS\x00".to_vec());
    assert_eq!(read_header(&mut five), Err(BitwaveError::InvalidMagicBytes));
}

#[test]
fn header_into_a_small_sink_is_cut_off() {
    let mut sink = ByteSink::with_limit(6);
    assert_eq!(write_header(&mut sink), Err(BitwaveError::Io(IoFailure::WriteZero)));
    assert_eq!(sink.as_slice(), &[0x42, 0x57, 0x58, 0x00, 0x01, 0x00]);
}
