use std::io::Read;

use http_compress::{Compress, CompressType};

fn gzip_decode(data: &[u8]) -> Vec<u8> {
    let mut decoder = flate2::read::GzDecoder::new(data);
    let mut out = Vec::new();
    decoder.read_to_end(&mut out).unwrap();
    out
}

fn deflate_decode(data: &[u8]) -> Vec<u8> {
    let mut decoder = libflate::deflate::Decoder::new(data);
    let mut out = Vec::new();
    decoder.read_to_end(&mut out).unwrap();
    out
}

fn brotli_decode(data: &[u8]) -> Vec<u8> {
    let mut decoder = brotli2::read::BrotliDecoder::new(data);
    let mut out = Vec::new();
    decoder.read_to_end(&mut out).unwrap();
    out
}

#[test]
fn defaults() {
    let c = Compress::new();
    assert_eq!(c.threshold, 1024);
    assert_eq!(c.compression, CompressType::Gzip(6));
    let d = Compress::default();
    assert_eq!(d.threshold, 1024);
    assert_eq!(d.compression, CompressType::Gzip(6));
}

#[test]
fn builders() {
    let c = Compress::new()
        .threshold(10)
        .compression(CompressType::Brotli(5));
    assert_eq!(c.threshold, 10);
    assert_eq!(c.compression, CompressType::Brotli(5));
}

#[test]
fn tokens() {
    assert_eq!(CompressType::Gzip(6).token(), "gzip");
    assert_eq!(CompressType::Deflate.token(), "deflate");
    assert_eq!(CompressType::Brotli(5).token(), "br");
    assert_eq!(CompressType::Gzip(6).token_bytes(), b"gzip".to_vec());
    assert_eq!(CompressType::Deflate.token_bytes(), b"deflate".to_vec());
    assert_eq!(CompressType::Brotli(5).token_bytes(), b"br".to_vec());
}

#[test]
fn body_at_threshold_unchanged() {
    // A body of exactly threshold bytes is passed through.
    let c = Compress::new().threshold(8);
    let body = vec![b'a'; 8];
    assert_eq!(c.post(&body, Some(b"gzip".as_slice())), None);
    // One byte more is compressed.
    let body = vec![b'a'; 9];
    assert!(c.post(&body, Some(b"gzip".as_slice())).is_some());
}

#[test]
fn empty_body_unchanged() {
    let c = Compress::new().threshold(0);
    assert_eq!(c.post(&[], Some(b"gzip".as_slice())), None);
}

#[test]
fn missing_header_unchanged() {
    let c = Compress::new().threshold(0);
    let body = vec![b'x'; 5000];
    assert_eq!(c.post(&body, None), None);
}

#[test]
fn unmatched_header_unchanged() {
    let c = Compress::new().threshold(0);
    let body = vec![b'x'; 5000];
    assert_eq!(c.post(&body, Some(b"br, deflate".as_slice())), None);
    assert_eq!(c.post(&body, Some(b"".as_slice())), None);
    // Substring of an element is not a match.
    assert_eq!(c.post(&body, Some(b"gzipped".as_slice())), None);
    assert_eq!(c.post(&body, Some(b"x-gzip".as_slice())), None);
    // Tokens are case-sensitive.
    assert_eq!(c.post(&body, Some(b"GZIP".as_slice())), None);
}

#[test]
fn header_elements_are_trimmed() {
    let c = Compress::new().threshold(0);
    let body = vec![b'x'; 2000];
    let out = c.post(&body, Some(b"deflate ,  gzip \t".as_slice())).unwrap();
    assert_eq!(gzip_decode(&out), body);
}

#[test]
fn empty_header_elements_are_ignored() {
    let c = Compress::new().threshold(0);
    let body = vec![b'x'; 2000];
    let out = c.post(&body, Some(b",,gzip,".as_slice())).unwrap();
    assert_eq!(gzip_decode(&out), body);
    assert_eq!(c.post(&body, Some(b",, ,".as_slice())), None);
}

#[test]
fn gzip_scenario() {
    // threshold=0, Gzip(6), "gzip, deflate", 2000 repeated ASCII bytes.
    let c = Compress::new().threshold(0).compression(CompressType::Gzip(6));
    let body = vec![b'A'; 2000];
    let out = c.post(&body, Some(b"gzip, deflate".as_slice())).unwrap();
    assert_eq!(c.compression.token(), "gzip");
    assert!(out.len() < body.len());
    assert_eq!(gzip_decode(&out), body);
}

#[test]
fn small_body_any_header_unchanged() {
    // threshold=1024, Gzip(6), body of 500 bytes: unchanged for any header.
    let c = Compress::new();
    let body = vec![b'B'; 500];
    assert_eq!(c.post(&body, Some(b"gzip, deflate, br".as_slice())), None);
    assert_eq!(c.post(&body, Some(b"gzip".as_slice())), None);
    assert_eq!(c.post(&body, None), None);
}

#[test]
fn brotli_scenario() {
    // threshold=0, Brotli(5), "br", nonempty body.
    let c = Compress::new().threshold(0).compression(CompressType::Brotli(5));
    let body = b"hello brotli hello brotli hello brotli".to_vec();
    let out = c.post(&body, Some(b"br".as_slice())).unwrap();
    assert_eq!(c.compression.token(), "br");
    assert_eq!(brotli_decode(&out), body);
}

#[test]
fn deflate_mismatch_scenario() {
    // threshold=0, Deflate, "gzip": mismatched, unchanged.
    let c = Compress::new().threshold(0).compression(CompressType::Deflate);
    let body = vec![b'C'; 100];
    assert_eq!(c.post(&body, Some(b"gzip".as_slice())), None);
}

#[test]
fn deflate_round_trip() {
    let c = Compress::new().threshold(0).compression(CompressType::Deflate);
    let body = b"some deflate payload, repeated: some deflate payload".to_vec();
    let out = c.post(&body, Some(b" deflate".as_slice())).unwrap();
    assert_eq!(deflate_decode(&out), body);
}

#[test]
fn gzip_level_zero_round_trip() {
    let c = Compress::new().threshold(0).compression(CompressType::Gzip(0));
    let body = vec![b'D'; 1500];
    let out = c.post(&body, Some(b"gzip".as_slice())).unwrap();
    assert_eq!(gzip_decode(&out), body);
}

#[test]
fn incompressible_body_round_trip() {
    // A pseudo-random body still round-trips exactly.
    let mut body = Vec::with_capacity(4096);
    let mut x: u32 = 12345;
    for _ in 0..4096 {
        x = x.wrapping_mul(1103515245).wrapping_add(12345);
        body.push((x >> 16) as u8);
    }
    let c = Compress::new().threshold(0);
    let out = c.post(&body, Some(b"gzip".as_slice())).unwrap();
    assert_eq!(gzip_decode(&out), body);
}
