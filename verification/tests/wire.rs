use place_backend::frames::{
    decode_delta_frame, decode_frame, decode_grid_frame, decode_pixel_frame, encode_delta_frame,
    encode_frame, encode_grid_frame, encode_pixel_frame,
};
use place_backend::records::{
    BebopData, Color, DecodeError, DeltaGrid, Grid, Pixel, Row, DELTA_GRID_OPCODE,
    GRID_OPCODE, PIXEL_OPCODE, PROTOCOL_VERSION,
};

fn white() -> Color {
    Color::new(255, 255, 255)
}

fn sample_grid() -> Grid {
    Grid {
        rows: vec![
            Row { pixels: vec![Color::new(1, 2, 3), Color::new(4, 5, 6)] },
            Row { pixels: vec![] },
            Row { pixels: vec![white()] },
        ],
    }
}

fn sample_grid_bytes() -> Vec<u8> {
    vec![
        3, 0, 0, 0, // three rows
        2, 0, 0, 0, 1, 2, 3, 4, 5, 6, // two cells
        0, 0, 0, 0, // no cell
        1, 0, 0, 0, 255, 255, 255, // one cell
    ]
}

#[test]
fn opcodes_and_version_have_their_wire_values() {
    assert_eq!(PROTOCOL_VERSION, 1);
    assert_eq!(GRID_OPCODE, 1);
    assert_eq!(PIXEL_OPCODE, 2);
    assert_eq!(DELTA_GRID_OPCODE, 3);
}

#[test]
fn color_new_sets_the_channels_and_default_is_white() {
    let c = Color::new(10, 20, 30);
    assert_eq!((c.red, c.green, c.blue), (10, 20, 30));
    assert_eq!(Color::default(), Color { red: 255, green: 255, blue: 255 });
}

#[test]
fn color_is_three_bytes_in_channel_order() {
    let mut buf = vec![9];
    let c = Color::new(10, 20, 30);
    assert_eq!(c.serialized_size(), 3);
    assert_eq!(c._serialize_chained(&mut buf), Ok(3));
    assert_eq!(buf, vec![9, 10, 20, 30]);
    assert_eq!(Color::_deserialize_chained(&buf[1..]), Ok((3, c)));
}

#[test]
fn color_reports_the_missing_bytes() {
    assert_eq!(Color::_deserialize_chained(&[]), Err(DecodeError::MoreDataExpected(3)));
    assert_eq!(Color::_deserialize_chained(&[1, 2]), Err(DecodeError::MoreDataExpected(1)));
}

#[test]
fn pixel_is_two_little_endian_words_and_a_color() {
    let p = Pixel { x: 0x0102_0304, y: 0xfffe_fdfc, color: Color::new(7, 8, 9) };
    let mut buf = Vec::new();
    assert_eq!(p.serialized_size(), 11);
    assert_eq!(p.serialize(&mut buf), Ok(11));
    assert_eq!(buf, vec![4, 3, 2, 1, 0xfc, 0xfd, 0xfe, 0xff, 7, 8, 9]);
    assert_eq!(Pixel::deserialize(&buf), Ok(p));
    assert_eq!(Pixel::_deserialize_chained(&buf), Ok((11, p)));
}

#[test]
fn pixel_ignores_what_follows_it() {
    let buf = [1, 0, 0, 0, 2, 0, 0, 0, 10, 20, 30, 99, 98];
    assert_eq!(
        Pixel::_deserialize_chained(&buf),
        Ok((11, Pixel { x: 1, y: 2, color: Color::new(10, 20, 30) }))
    );
}

#[test]
fn pixel_reports_the_missing_bytes() {
    assert_eq!(Pixel::deserialize(&[0; 10]), Err(DecodeError::MoreDataExpected(1)));
    assert_eq!(Pixel::deserialize(&[]), Err(DecodeError::MoreDataExpected(11)));
}

#[test]
fn words_are_written_as_the_codec_writes_them() {
    let p = Pixel { x: 305_419_896, y: 4_000_000_000, color: Color::new(0, 0, 0) };
    let mut ours = Vec::new();
    p.serialize(&mut ours).unwrap();
    let mut theirs = Vec::new();
    bebop::SubRecord::_serialize_chained(&p.x, &mut theirs).unwrap();
    bebop::SubRecord::_serialize_chained(&p.y, &mut theirs).unwrap();
    theirs.extend_from_slice(&[0, 0, 0]);
    assert_eq!(ours, theirs);
}

#[test]
fn row_is_a_count_and_its_colors() {
    let row = Row { pixels: vec![Color::new(1, 2, 3), Color::new(4, 5, 6)] };
    let mut buf = Vec::new();
    assert_eq!(row.serialized_size(), 10);
    assert_eq!(row._serialize_chained(&mut buf), Ok(10));
    assert_eq!(buf, vec![2, 0, 0, 0, 1, 2, 3, 4, 5, 6]);
    assert_eq!(Row::_deserialize_chained(&buf), Ok((10, row)));
}

#[test]
fn row_reports_the_missing_bytes() {
    assert_eq!(Row::_deserialize_chained(&[2, 0]), Err(DecodeError::MoreDataExpected(2)));
    assert_eq!(
        Row::_deserialize_chained(&[2, 0, 0, 0, 1, 2, 3, 4]),
        Err(DecodeError::MoreDataExpected(2))
    );
    assert_eq!(
        Row::_deserialize_chained(&[255, 255, 255, 255]),
        Err(DecodeError::MoreDataExpected(3 * 4_294_967_295))
    );
}

#[test]
fn grid_is_a_count_and_its_rows() {
    let grid = sample_grid();
    let mut buf = Vec::new();
    assert_eq!(grid.serialized_size(), 25);
    assert_eq!(grid.serialize(&mut buf), Ok(25));
    assert_eq!(buf, sample_grid_bytes());
}

#[test]
fn grid_round_trip_is_cell_for_cell() {
    let grid = sample_grid();
    let mut buf = Vec::new();
    grid.serialize(&mut buf).unwrap();
    assert_eq!(Grid::deserialize(&buf), Ok(grid.clone()));
    buf.push(77);
    assert_eq!(Grid::_deserialize_chained(&buf), Ok((25, grid)));
}

#[test]
fn empty_grid_round_trip() {
    let grid = Grid { rows: vec![] };
    let mut buf = Vec::new();
    assert_eq!(grid.serialize(&mut buf), Ok(4));
    assert_eq!(buf, vec![0, 0, 0, 0]);
    assert_eq!(Grid::deserialize(&buf), Ok(grid));
}

#[test]
fn grid_reports_the_error_of_the_first_broken_row() {
    assert_eq!(Grid::deserialize(&[1, 0]), Err(DecodeError::MoreDataExpected(2)));
    // Two rows announced, the second one is cut after its count.
    let cut = [2, 0, 0, 0, 1, 0, 0, 0, 5, 6, 7, 2, 0, 0, 0, 1, 1, 1];
    assert_eq!(Grid::deserialize(&cut), Err(DecodeError::MoreDataExpected(3)));
    // Two rows announced, one present.
    let short = [2, 0, 0, 0, 0, 0, 0, 0];
    assert_eq!(Grid::deserialize(&short), Err(DecodeError::MoreDataExpected(4)));
}

#[test]
fn delta_is_a_count_and_its_edits_in_order() {
    let log = DeltaGrid {
        delta: vec![
            Pixel { x: 1, y: 2, color: Color::new(3, 4, 5) },
            Pixel { x: 256, y: 0, color: Color::new(6, 7, 8) },
        ],
    };
    let mut buf = Vec::new();
    assert_eq!(log.serialized_size(), 26);
    assert_eq!(log.serialize(&mut buf), Ok(26));
    assert_eq!(
        buf,
        vec![2, 0, 0, 0, 1, 0, 0, 0, 2, 0, 0, 0, 3, 4, 5, 0, 1, 0, 0, 0, 0, 0, 0, 6, 7, 8]
    );
    assert_eq!(DeltaGrid::deserialize(&buf), Ok(log.clone()));
    assert_eq!(DeltaGrid::_deserialize_chained(&buf), Ok((26, log)));
}

#[test]
fn delta_round_trip_keeps_order_and_duplicates() {
    let a = Pixel { x: 0, y: 0, color: Color::new(1, 1, 1) };
    let b = Pixel { x: 0, y: 0, color: Color::new(2, 2, 2) };
    let c = Pixel { x: 5, y: 6, color: Color::new(3, 3, 3) };
    let log = DeltaGrid { delta: vec![a, b, a, c, a, a] };
    let mut buf = Vec::new();
    assert_eq!(log.serialize(&mut buf), Ok(4 + 6 * 11));
    let back = DeltaGrid::deserialize(&buf).unwrap();
    assert_eq!(back.delta, vec![a, b, a, c, a, a]);
}

#[test]
fn delta_reports_the_missing_bytes() {
    assert_eq!(DeltaGrid::deserialize(&[]), Err(DecodeError::MoreDataExpected(4)));
    assert_eq!(
        DeltaGrid::deserialize(&[1, 0, 0, 0, 9, 9]),
        Err(DecodeError::MoreDataExpected(9))
    );
}

#[test]
fn envelope_is_version_opcode_and_a_counted_payload() {
    let frame = BebopData { protocol_version: 1, opcode: 2, encoded_data: vec![7, 8, 9] };
    let mut buf = Vec::new();
    assert_eq!(frame.serialized_size(), 15);
    assert_eq!(frame.serialize(&mut buf), Ok(15));
    assert_eq!(buf, vec![1, 0, 0, 0, 2, 0, 0, 0, 3, 0, 0, 0, 7, 8, 9]);
    assert_eq!(BebopData::deserialize(&buf), Ok(frame.clone()));
    buf.extend_from_slice(&[1, 2, 3]);
    assert_eq!(BebopData::_deserialize_chained(&buf), Ok((15, frame)));
}

#[test]
fn envelope_is_written_as_the_codec_writes_its_fields() {
    let frame = BebopData { protocol_version: 1, opcode: 3, encoded_data: vec![5; 300] };
    let mut ours = Vec::new();
    frame.serialize(&mut ours).unwrap();
    let mut theirs = Vec::new();
    bebop::SubRecord::_serialize_chained(&frame.protocol_version, &mut theirs).unwrap();
    bebop::SubRecord::_serialize_chained(&frame.opcode, &mut theirs).unwrap();
    bebop::SubRecord::_serialize_chained(&frame.encoded_data, &mut theirs).unwrap();
    assert_eq!(ours, theirs);
    let (read, payload) = <Vec<u8> as bebop::SubRecord>::_deserialize_chained(&ours[8..]).unwrap();
    assert_eq!(read, 304);
    assert_eq!(payload, frame.encoded_data);
}

#[test]
fn envelope_reports_the_missing_bytes() {
    assert_eq!(BebopData::deserialize(&[0; 11]), Err(DecodeError::MoreDataExpected(1)));
    assert_eq!(
        BebopData::deserialize(&[1, 0, 0, 0, 2, 0, 0, 0, 5, 0, 0, 0, 1, 2]),
        Err(DecodeError::MoreDataExpected(3))
    );
}

#[test]
fn frame_of_a_pixel() {
    let edit = Pixel { x: 1, y: 0, color: Color::new(10, 20, 30) };
    let frame = encode_pixel_frame(&edit);
    assert_eq!(
        frame,
        vec![1, 0, 0, 0, 2, 0, 0, 0, 11, 0, 0, 0, 1, 0, 0, 0, 0, 0, 0, 0, 10, 20, 30]
    );
    assert_eq!(decode_pixel_frame(&frame), Ok(edit));
}

#[test]
fn frame_of_a_grid_round_trip() {
    let grid = sample_grid();
    let frame = encode_grid_frame(&grid).unwrap();
    let mut expected = vec![1, 0, 0, 0, 1, 0, 0, 0, 25, 0, 0, 0];
    expected.extend_from_slice(&sample_grid_bytes());
    assert_eq!(frame, expected);
    assert_eq!(decode_grid_frame(&frame), Ok(grid));
}

#[test]
fn frame_of_a_delta_round_trip() {
    let log = DeltaGrid { delta: vec![Pixel { x: 2, y: 1, color: Color::new(0, 0, 0) }; 3] };
    let frame = encode_delta_frame(&log).unwrap();
    assert_eq!(frame.len(), 12 + 4 + 33);
    assert_eq!(&frame[..12], &[1, 0, 0, 0, 3, 0, 0, 0, 37, 0, 0, 0]);
    assert_eq!(decode_delta_frame(&frame), Ok(log));
}

#[test]
fn frame_of_the_empty_delta() {
    let frame = encode_delta_frame(&DeltaGrid { delta: vec![] }).unwrap();
    assert_eq!(frame, vec![1, 0, 0, 0, 3, 0, 0, 0, 4, 0, 0, 0, 0, 0, 0, 0]);
    assert_eq!(decode_delta_frame(&frame), Ok(DeltaGrid { delta: vec![] }));
}

#[test]
fn frame_with_another_version_is_a_mismatch() {
    let frame = [7, 0, 0, 0, 2, 0, 0, 0, 11, 0, 0, 0, 1, 0, 0, 0, 0, 0, 0, 0, 10, 20, 30];
    assert_eq!(decode_pixel_frame(&frame), Err(DecodeError::VersionMismatch(7)));
    assert_eq!(decode_frame(&frame, PIXEL_OPCODE), Err(DecodeError::VersionMismatch(7)));
}

#[test]
fn frame_with_another_opcode_is_unexpected() {
    let edit = Pixel { x: 1, y: 0, color: Color::new(10, 20, 30) };
    let frame = encode_pixel_frame(&edit);
    assert_eq!(decode_grid_frame(&frame), Err(DecodeError::UnexpectedOpcode(2)));
    assert_eq!(decode_delta_frame(&frame), Err(DecodeError::UnexpectedOpcode(2)));
    let unknown = [1, 0, 0, 0, 9, 0, 0, 0, 0, 0, 0, 0];
    assert_eq!(decode_pixel_frame(&unknown), Err(DecodeError::UnexpectedOpcode(9)));
}

#[test]
fn short_frame_comes_before_version_and_opcode() {
    let frame = [7, 0, 0, 0, 9, 0, 0, 0, 4, 0, 0, 0, 1];
    assert_eq!(decode_pixel_frame(&frame), Err(DecodeError::MoreDataExpected(3)));
}

#[test]
fn pixel_frame_with_a_short_payload() {
    let frame = [1, 0, 0, 0, 2, 0, 0, 0, 3, 0, 0, 0, 1, 2, 3];
    assert_eq!(decode_pixel_frame(&frame), Err(DecodeError::MoreDataExpected(8)));
}

#[test]
fn decode_frame_hands_out_the_payload() {
    let frame = encode_frame(GRID_OPCODE, vec![4, 5, 6]).unwrap();
    assert_eq!(frame, vec![1, 0, 0, 0, 1, 0, 0, 0, 3, 0, 0, 0, 4, 5, 6]);
    assert_eq!(decode_frame(&frame, GRID_OPCODE), Ok(vec![4, 5, 6]));
}

#[test]
fn announced_counts_are_not_trusted() {
    // Four bytes that announce u32::MAX items and bring none.
    let raw = [255, 255, 255, 255];
    assert_eq!(Grid::deserialize(&raw), Err(DecodeError::MoreDataExpected(4)));
    assert_eq!(
        DeltaGrid::deserialize(&raw),
        Err(DecodeError::MoreDataExpected(11 * 4_294_967_295))
    );
    let frame = [1, 0, 0, 0, 2, 0, 0, 0, 255, 255, 255, 255];
    assert_eq!(BebopData::deserialize(&frame), Err(DecodeError::MoreDataExpected(4_294_967_295)));
}
