use ui_host_runtime::framing::{decode_frame_header, encode_frame_header};
use ui_host_runtime::{read_frame, write_frame, ByteCursor, ErrorKind, FrameError, UI_TO_ELIXIR_CAP};

#[test]
fn write_then_read_round_trip() {
    let payload = br#"{"t":"ready","sid":"S1"}"#;
    let mut out = Vec::new();

    write_frame(&mut out, payload, UI_TO_ELIXIR_CAP).expect("frame write");

    let mut cursor = ByteCursor::new(out);
    let decoded = read_frame(&mut cursor, UI_TO_ELIXIR_CAP).expect("frame read");
    assert_eq!(decoded, payload);
}

#[test]
fn truncated_frame_is_rejected() {
    let data = vec![0, 0, 0, 5, b'a', b'b'];
    let mut cursor = ByteCursor::new(data);
    let err = read_frame(&mut cursor, UI_TO_ELIXIR_CAP).expect_err("expected eof");
    assert_eq!(err.kind(), ErrorKind::UnexpectedEof);
}

#[test]
fn oversized_frame_is_rejected() {
    let len = (UI_TO_ELIXIR_CAP as u32) + 1;
    let data = len.to_be_bytes().to_vec();
    let mut cursor = ByteCursor::new(data);
    let err = read_frame(&mut cursor, UI_TO_ELIXIR_CAP).expect_err("expected too large");
    assert_eq!(err.kind(), ErrorKind::InvalidData);
}

#[test]
fn endian_is_big_endian() {
    let payload = b"abc";
    let mut out = Vec::new();
    write_frame(&mut out, payload, UI_TO_ELIXIR_CAP).expect("frame write");
    assert_eq!(&out[0..4], &[0, 0, 0, 3]);
}

#[test]
fn abc_frame_is_header_then_payload() {
    let mut out = Vec::new();
    write_frame(&mut out, b"abc", UI_TO_ELIXIR_CAP).expect("frame write");
    assert_eq!(out, vec![0x00, 0x00, 0x00, 0x03, 0x61, 0x62, 0x63]);
}

#[test]
fn header_of_large_length_is_big_endian() {
    assert_eq!(encode_frame_header(0x0102_0304), vec![1, 2, 3, 4]);
    assert_eq!(decode_frame_header(&[1, 2, 3, 4], usize::MAX), Ok(0x0102_0304));
    assert_eq!(
        decode_frame_header(&[0, 0x10, 0, 1], 1_048_576),
        Err(FrameError::TooLarge { len: 1_048_577, max: 1_048_576 })
    );
}

#[test]
fn frames_read_back_in_order_leaving_the_rest() {
    let mut out = Vec::new();
    write_frame(&mut out, b"first", 16).unwrap();
    write_frame(&mut out, b"", 16).unwrap();
    write_frame(&mut out, b"third!", 16).unwrap();
    let mut cursor = ByteCursor::new(out);
    assert_eq!(read_frame(&mut cursor, 16).unwrap(), b"first".to_vec());
    assert_eq!(read_frame(&mut cursor, 16).unwrap(), Vec::<u8>::new());
    assert_eq!(read_frame(&mut cursor, 16).unwrap(), b"third!".to_vec());
    assert_eq!(cursor.remaining(), 0);
    assert_eq!(read_frame(&mut cursor, 16), Err(FrameError::UnexpectedEof));
}

#[test]
fn payload_at_the_ceiling_is_accepted() {
    let payload = vec![7u8; 10];
    let mut out = Vec::new();
    write_frame(&mut out, &payload, 10).unwrap();
    assert_eq!(out.len(), 14);
    let mut cursor = ByteCursor::new(out);
    assert_eq!(read_frame(&mut cursor, 10).unwrap(), payload);
}

#[test]
fn oversized_write_is_refused_and_writes_nothing() {
    let mut out = vec![9u8];
    let err = write_frame(&mut out, b"abcdef", 5).unwrap_err();
    assert_eq!(err, FrameError::TooLarge { len: 6, max: 5 });
    assert_eq!(err.kind(), ErrorKind::InvalidData);
    assert_eq!(out, vec![9u8]);
}

#[test]
fn truncated_header_and_empty_stream_are_eof() {
    let mut cursor = ByteCursor::new(vec![0, 0]);
    assert_eq!(read_frame(&mut cursor, 16), Err(FrameError::UnexpectedEof));
    let mut empty = ByteCursor::new(Vec::new());
    assert_eq!(read_frame(&mut empty, 16), Err(FrameError::UnexpectedEof));
}

#[test]
fn oversized_length_names_length_and_ceiling() {
    let mut cursor = ByteCursor::new(vec![0, 0, 0, 9, 1, 2]);
    assert_eq!(read_frame(&mut cursor, 8), Err(FrameError::TooLarge { len: 9, max: 8 }));
}
