use bitwave::spatial::{read_spatial, write_spatial};
use bitwave::{BitwaveError, ByteSink, ByteSource, IoFailure, SpatialData};

fn point(x: f32, y: f32, z: f32) -> SpatialData {
    SpatialData { x_bits: x.to_bits(), y_bits: y.to_bits(), z_bits: z.to_bits() }
}

#[test]
fn absent_positions_are_one_zero_byte() {
    let mut sink = ByteSink::new();
    assert_eq!(write_spatial(&mut sink, None, 2), Ok(()));
    assert_eq!(sink.as_slice(), &[0]);
}

#[test]
fn absent_positions_fit_any_channel_count() {
    for channels in [0u16, 1, 7, u16::MAX] {
        let mut sink = ByteSink::new();
        assert_eq!(write_spatial(&mut sink, None, channels), Ok(()));
        assert_eq!(sink.as_slice(), &[0]);
    }
}

#[test]
fn positions_are_written_in_channel_order() {
    let positions = vec![
        SpatialData { x_bits: 0x0102_0304, y_bits: 0x0506_0708, z_bits: 0x090a_0b0c },
        point(1.0, -1.0, 0.5),
    ];
    let mut sink = ByteSink::new();
    assert_eq!(write_spatial(&mut sink, Some(&positions), 2), Ok(()));
    assert_eq!(
        sink.as_slice(),
        &[
            0x01, // present
            0x04, 0x03, 0x02, 0x01, 0x08, 0x07, 0x06, 0x05, 0x0c, 0x0b, 0x0a, 0x09, // channel 0
            0x00, 0x00, 0x80, 0x3f, 0x00, 0x00, 0x80, 0xbf, 0x00, 0x00, 0x00, 0x3f, // channel 1
        ]
    );
}

#[test]
fn wrong_number_of_positions_is_refused_before_any_byte() {
    let positions = vec![point(0.0, 0.0, 0.0), point(1.0, 1.0, 1.0)];
    for channels in [0u16, 1, 3, 200] {
        let mut sink = ByteSink::with_limit(64);
        sink.write_all(&[5]).unwrap();
        assert_eq!(
            write_spatial(&mut sink, Some(&positions), channels),
            Err(BitwaveError::InvalidMetadata)
        );
        assert_eq!(sink.as_slice(), &[5]);
    }
}

#[test]
fn no_positions_for_no_channels_is_just_the_flag() {
    let positions: Vec<SpatialData> = Vec::new();
    let mut sink = ByteSink::new();
    assert_eq!(write_spatial(&mut sink, Some(&positions), 0), Ok(()));
    assert_eq!(sink.as_slice(), &[1]);
    let mut source = ByteSource::new(sink.into_bytes());
    assert_eq!(read_spatial(&mut source, 0), Ok(Some(Vec::new())));
}

#[test]
fn flag_zero_reads_as_no_positions() {
    let mut source = ByteSource::new(vec![0, 1, 2, 3]);
    assert_eq!(read_spatial(&mut source, 2), Ok(None));
    assert_eq!(source.position(), 1);
    assert_eq!(source.remaining_len(), 3);
}

#[test]
fn positions_are_read_one_per_channel() {
    let mut bytes = vec![1u8];
    for value in [1.0f32, 2.0, 3.0, -4.0, -5.0, -6.0] {
        bytes.extend_from_slice(&value.to_le_bytes());
    }
    bytes.extend_from_slice(&[0xaa, 0xbb]);
    let mut source = ByteSource::new(bytes);
    let positions = read_spatial(&mut source, 2).unwrap().unwrap();
    assert_eq!(positions, vec![point(1.0, 2.0, 3.0), point(-4.0, -5.0, -6.0)]);
    assert_eq!(f32::from_bits(positions[1].x_bits), -4.0);
    assert_eq!(source.position(), 25);
    assert_eq!(source.remaining_len(), 2);
}

#[test]
fn position_fields_are_read_least_significant_byte_first() {
    let bytes = vec![
        0x01, 0x04, 0x03, 0x02, 0x01, 0x08, 0x07, 0x06, 0x05, 0x0c, 0x0b, 0x0a, 0x09,
    ];
    let mut source = ByteSource::new(bytes);
    let positions = read_spatial(&mut source, 1).unwrap().unwrap();
    assert_eq!(
        positions,
        vec![SpatialData { x_bits: 0x0102_0304, y_bits: 0x0506_0708, z_bits: 0x090a_0b0c }]
    );
}

#[test]
fn fewer_channels_leave_the_rest_unread() {
    let positions = vec![point(1.0, 2.0, 3.0), point(4.0, 5.0, 6.0)];
    let mut sink = ByteSink::new();
    write_spatial(&mut sink, Some(&positions), 2).unwrap();
    let mut source = ByteSource::new(sink.into_bytes());
    assert_eq!(read_spatial(&mut source, 1), Ok(Some(vec![point(1.0, 2.0, 3.0)])));
    assert_eq!(source.position(), 13);
    assert_eq!(source.remaining_len(), 12);
}

#[test]
fn any_flag_but_zero_means_positions_follow() {
    for flag in [1u8, 2, 0x7f, 0xff] {
        let mut bytes = vec![flag];
        bytes.extend_from_slice(&[0u8; 12]);
        let mut source = ByteSource::new(bytes);
        assert_eq!(read_spatial(&mut source, 1), Ok(Some(vec![point(0.0, 0.0, 0.0)])));
    }
}

#[test]
fn positions_cut_short_are_invalid_metadata() {
    let positions = vec![point(1.0, 2.0, 3.0), point(4.0, 5.0, 6.0)];
    let mut sink = ByteSink::new();
    write_spatial(&mut sink, Some(&positions), 2).unwrap();
    let whole = sink.into_bytes();
    assert_eq!(whole.len(), 25);
    for cut in 1..25 {
        let mut source = ByteSource::new(whole[..cut].to_vec());
        assert_eq!(read_spatial(&mut source, 2), Err(BitwaveError::InvalidMetadata));
        assert_eq!(source.position(), cut);
    }
}

#[test]
fn more_channels_than_positions_is_invalid_metadata() {
    let positions = vec![point(1.0, 2.0, 3.0)];
    let mut sink = ByteSink::new();
    write_spatial(&mut sink, Some(&positions), 1).unwrap();
    let mut source = ByteSource::new(sink.into_bytes());
    assert_eq!(read_spatial(&mut source, 2), Err(BitwaveError::InvalidMetadata));
}

#[test]
fn missing_flag_is_unexpected_eof() {
    let mut source = ByteSource::new(Vec::new());
    assert_eq!(read_spatial(&mut source, 2), Err(BitwaveError::Io(IoFailure::UnexpectedEof)));
    assert_eq!(source.position(), 0);
}

#[test]
fn positions_into_a_small_sink_are_cut_off() {
    let positions = vec![point(1.0, 2.0, 3.0)];
    let mut sink = ByteSink::with_limit(3);
    assert_eq!(
        write_spatial(&mut sink, Some(&positions), 1),
        Err(BitwaveError::Io(IoFailure::WriteZero))
    );
    assert_eq!(sink.as_slice(), &[0x01, 0x00, 0x00]);
}

#[test]
fn the_largest_channel_count_round_trips() {
    let positions: Vec<SpatialData> = (0..u16::MAX as u32)
        .map(|i| SpatialData { x_bits: i, y_bits: i.wrapping_mul(3), z_bits: !i })
        .collect();
    let mut sink = ByteSink::new();
    assert_eq!(write_spatial(&mut sink, Some(&positions), u16::MAX), Ok(()));
    assert_eq!(sink.len(), 1 + 12 * 65535);
    let mut source = ByteSource::new(sink.into_bytes());
    assert_eq!(read_spatial(&mut source, u16::MAX), Ok(Some(positions)));
    assert_eq!(source.remaining_len(), 0);
}
