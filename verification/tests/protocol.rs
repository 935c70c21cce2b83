use screenshare::protocol::{parse_frame_header, read_frame, write_frame, FrameError, MAX_FRAME_SIZE};

#[test]
fn test_frame_roundtrip() {
    let data = vec![1, 2, 3, 4, 5, 255, 0, 128];
    let send_data = data.clone();
    let mut wire = Vec::new();
    write_frame(&mut wire, &send_data);
    let (received, used) = read_frame(&wire).unwrap();
    assert_eq!(received, data);
    assert_eq!(used, 12);
}

#[test]
fn frame_bytes_are_big_endian_length_then_body() {
    let mut wire = Vec::new();
    write_frame(&mut wire, &[0xaa, 0xbb, 0xcc]);
    assert_eq!(wire, vec![0, 0, 0, 3, 0xaa, 0xbb, 0xcc]);
    let mut wire = vec![9];
    write_frame(&mut wire, &[]);
    assert_eq!(wire, vec![9, 0, 0, 0, 0]);
}

#[test]
fn frame_read_ignores_following_bytes() {
    let mut wire = Vec::new();
    write_frame(&mut wire, b"hello");
    write_frame(&mut wire, b"world!");
    let (first, used) = read_frame(&wire).unwrap();
    assert_eq!(first, b"hello".to_vec());
    assert_eq!(used, 9);
    let (second, used2) = read_frame(&wire[used..]).unwrap();
    assert_eq!(second, b"world!".to_vec());
    assert_eq!(used2, 10);
}

#[test]
fn frame_errors() {
    assert_eq!(read_frame(&[0, 0, 1]), Err(FrameError::TruncatedHeader));
    assert_eq!(read_frame(&[0, 0, 0, 3, 1, 2]), Err(FrameError::TruncatedBody));
    assert_eq!(read_frame(&[0x01, 0x02, 0x03, 0x04]), Err(FrameError::TooLarge(0x0102_0304)));
    assert_eq!(read_frame(&[0, 0, 0, 0]), Ok((vec![], 4)));
}

#[test]
fn frame_header_limit() {
    assert_eq!(parse_frame_header([0x00, 0x98, 0x96, 0x80]), Ok(MAX_FRAME_SIZE));
    assert_eq!(parse_frame_header([0x00, 0x98, 0x96, 0x81]), Err(FrameError::TooLarge(MAX_FRAME_SIZE + 1)));
    assert_eq!(parse_frame_header([0xff, 0xff, 0xff, 0xff]), Err(FrameError::TooLarge(u32::MAX)));
    assert_eq!(parse_frame_header([0, 0, 1, 0]), Ok(256));
}

#[test]
fn oversized_frame_is_refused() {
    let data = vec![7u8; MAX_FRAME_SIZE as usize + 1];
    let mut wire = Vec::new();
    write_frame(&mut wire, &data);
    assert_eq!(&wire[..4], &[0x00, 0x98, 0x96, 0x81]);
    assert_eq!(read_frame(&wire), Err(FrameError::TooLarge(MAX_FRAME_SIZE + 1)));
}

#[test]
fn largest_frame_roundtrips() {
    let data = vec![5u8; MAX_FRAME_SIZE as usize];
    let mut wire = Vec::new();
    write_frame(&mut wire, &data);
    let (body, used) = read_frame(&wire).unwrap();
    assert_eq!(body.len(), MAX_FRAME_SIZE as usize);
    assert_eq!(used, MAX_FRAME_SIZE as usize + 4);
}
