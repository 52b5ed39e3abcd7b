use std::io::Read;

use reqcore::header::{Header, Request};
use reqcore::payload::{frame_payload, pipe, Payload, CHUNK_SIZE};

fn plain_request() -> Request {
    Request { headers: Vec::new(), timeout: 0, timeout_read: 0, timeout_write: 0 }
}

fn request_with(name: &str, value: &str) -> Request {
    Request {
        headers: vec![Header::new(name, value)],
        timeout: 0,
        timeout_read: 0,
        timeout_write: 0,
    }
}

#[test]
fn known_size_within_threshold_sends_fixed() {
    let req = plain_request();
    let data = b"0123456789".to_vec();
    let sent = frame_payload(&req, &Payload::Sized(data.clone()));
    assert_eq!(sent, data);
}

#[test]
fn unknown_size_sends_chunked_with_hex_prefix_and_terminator() {
    let req = plain_request();
    let sent = frame_payload(&req, &Payload::Unsized(b"abc".to_vec()));
    assert_eq!(sent, b"3\r\nabc\r\n0\r\n\r\n".to_vec());
}

#[test]
fn chunk_length_prefix_is_hexadecimal() {
    let req = plain_request();
    let data = vec![7u8; 16];
    let sent = frame_payload(&req, &Payload::Unsized(data.clone()));
    let mut expected = b"10\r\n".to_vec();
    expected.extend_from_slice(&data);
    expected.extend_from_slice(b"\r\n0\r\n\r\n");
    assert_eq!(sent, expected);
}

#[test]
fn empty_payload_sends_zero_bytes() {
    let req = plain_request();
    let sent = frame_payload(&req, &Payload::Empty);
    assert_eq!(sent, Vec::<u8>::new());
}

#[test]
fn empty_payload_under_chunked_header_sends_bare_terminator() {
    let req = request_with("Transfer-Encoding", "chunked");
    let sent = frame_payload(&req, &Payload::Empty);
    assert_eq!(sent, b"0\r\n\r\n".to_vec());
}

#[test]
fn explicit_transfer_encoding_is_honored_literally() {
    let chunked = request_with("Transfer-Encoding", "Chunked");
    let sent = frame_payload(&chunked, &Payload::Sized(b"ab".to_vec()));
    assert_eq!(sent, b"2\r\nab\r\n0\r\n\r\n".to_vec());

    let identity = request_with("Transfer-Encoding", "identity");
    let sent2 = frame_payload(&identity, &Payload::Unsized(b"ab".to_vec()));
    assert_eq!(sent2, b"ab".to_vec());
}

#[test]
fn content_length_header_decides_for_unknown_size() {
    let small = request_with("Content-Length", "10");
    let sent = frame_payload(&small, &Payload::Unsized(b"ab".to_vec()));
    assert_eq!(sent, b"ab".to_vec());

    let large = request_with("Content-Length", "2000000");
    let sent2 = frame_payload(&large, &Payload::Unsized(b"ab".to_vec()));
    assert_eq!(sent2, b"2\r\nab\r\n0\r\n\r\n".to_vec());

    // an unparseable length counts as zero, which selects fixed framing
    let bad = request_with("Content-Length", "abc");
    let sent3 = frame_payload(&bad, &Payload::Unsized(b"ab".to_vec()));
    assert_eq!(sent3, b"ab".to_vec());
}

#[test]
fn known_size_above_threshold_sends_chunked() {
    let req = plain_request();
    let data = vec![1u8; CHUNK_SIZE + 1];
    let sent = frame_payload(&req, &Payload::Sized(data.clone()));
    // first block: the whole threshold-sized chunk, length 100000 in hex
    assert!(sent.starts_with(b"100000\r\n"));
    assert!(sent.ends_with(b"0\r\n\r\n"));
}

#[test]
fn chunked_frame_round_trips_through_decoder() {
    let req = plain_request();
    let data: Vec<u8> = (0..=255u8).cycle().take(5000).collect();
    let sent = frame_payload(&req, &Payload::Unsized(data.clone()));
    let mut decoded = Vec::new();
    chunked_transfer::Decoder::new(&sent[..]).read_to_end(&mut decoded).unwrap();
    assert_eq!(decoded, data);
}

#[test]
fn pipe_appends_every_byte() {
    let src = vec![1u8, 2, 3];
    let mut dst = vec![9u8];
    pipe(&src, &mut dst);
    assert_eq!(dst, vec![9u8, 1, 2, 3]);
}
