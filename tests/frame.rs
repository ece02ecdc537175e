use remote_fs::frame::{decode_header, encode_frame, FrameReader};

#[test]
fn encode_frame_prepends_little_endian_length() {
    let f = encode_frame(&[1u8, 2, 3]).unwrap();
    assert_eq!(f, vec![3u8, 0, 0, 0, 1, 2, 3]);
}

#[test]
fn encode_frame_of_long_payload() {
    let payload = vec![7u8; 300];
    let f = encode_frame(&payload).unwrap();
    assert_eq!(&f[0..4], &[44u8, 1, 0, 0]);
    assert_eq!(f.len(), 304);
    assert_eq!(&f[4..], &payload[..]);
}

#[test]
fn encode_empty_frame() {
    assert_eq!(encode_frame(&[]).unwrap(), vec![0u8, 0, 0, 0]);
}

#[test]
fn decode_header_reads_little_endian() {
    assert_eq!(decode_header(&[0x2a, 0x01, 0, 0]), 298);
    assert_eq!(decode_header(&[0xff, 0xff, 0xff, 0xff]), u32::MAX);
    assert_eq!(decode_header(&[0, 0, 0, 1]), 16777216);
}

#[test]
fn reader_waits_for_a_whole_frame() {
    let mut r = FrameReader::new();
    assert!(r.next_frame().is_none());
    r.push(&[5, 0, 0]);
    assert!(r.next_frame().is_none());
    r.push(&[0, b'h', b'e']);
    assert!(r.next_frame().is_none());
    r.push(&[b'l', b'l', b'o', 2, 0]);
    assert_eq!(r.next_frame().unwrap(), b"hello".to_vec());
    assert!(r.next_frame().is_none());
    r.push(&[0, 0, b'o', b'k']);
    assert_eq!(r.next_frame().unwrap(), b"ok".to_vec());
    assert!(r.next_frame().is_none());
}

#[test]
fn reader_splits_frames_whatever_their_content() {
    let mut bytes = encode_frame(br#"{"id":1,"success":true}"#).unwrap();
    bytes.extend(encode_frame(b"\x00{not json").unwrap());
    bytes.extend(encode_frame(br#"{"id":2,"success":true}"#).unwrap());
    let mut r = FrameReader::new();
    r.push(&bytes);
    assert_eq!(r.next_frame().unwrap(), br#"{"id":1,"success":true}"#.to_vec());
    assert_eq!(r.next_frame().unwrap(), b"\x00{not json".to_vec());
    assert_eq!(r.next_frame().unwrap(), br#"{"id":2,"success":true}"#.to_vec());
    assert!(r.next_frame().is_none());
}

#[test]
fn frame_round_trip_through_reader() {
    let payload: Vec<u8> = (0..=255u8).collect();
    let mut r = FrameReader::new();
    r.push(&encode_frame(&payload).unwrap());
    assert_eq!(r.next_frame().unwrap(), payload);
}
