use dcm::logs::{is_output_stream, parse_log_frame, LogFrame};

fn frame(stream: u8, payload: &[u8]) -> Vec<u8> {
    let mut v = vec![stream, 0, 0, 0];
    v.extend_from_slice(&(payload.len() as u32).to_be_bytes());
    v.extend_from_slice(payload);
    v
}

#[test]
fn frame_is_read_back() {
    let mut data = frame(1, b"hello\n");
    data.extend_from_slice(b"trailing");
    let f = parse_log_frame(&data).unwrap();
    assert_eq!(f, LogFrame { stream: 1, payload: b"hello\n".to_vec() });
}

#[test]
fn stderr_frame_and_empty_payload() {
    let f = parse_log_frame(&frame(2, b"")).unwrap();
    assert_eq!(f.stream, 2);
    assert!(f.payload.is_empty());
}

#[test]
fn big_endian_length() {
    let payload = vec![b'x'; 300];
    let data = frame(1, &payload);
    assert_eq!(&data[4..8], &[0, 0, 1, 44]);
    assert_eq!(parse_log_frame(&data).unwrap().payload, payload);
}

#[test]
fn short_header_gives_nothing() {
    assert_eq!(parse_log_frame(&[1, 0, 0, 0, 0, 0, 0]), None);
    assert_eq!(parse_log_frame(&[]), None);
}

#[test]
fn incomplete_payload_gives_nothing() {
    let data = frame(1, b"hello");
    assert_eq!(parse_log_frame(&data[..data.len() - 1]), None);
    assert_eq!(parse_log_frame(&[1, 0, 0, 0, 255, 255, 255, 255, 1, 2]), None);
}

#[test]
fn only_stdout_and_stderr_are_shown() {
    assert!(is_output_stream(1));
    assert!(is_output_stream(2));
    assert!(!is_output_stream(0));
    assert!(!is_output_stream(3));
}
