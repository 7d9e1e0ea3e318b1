//! Trusted boundary around the compression libraries.
//!
//! Each supported algorithm is a pure function of the input bytes (and, for
//! gzip and brotli, the quality level), so its output is given a name that
//! the rest of the crate can reason with, and a thin wrapper performs the
//! actual call.

use vstd::prelude::*;
use std::io::Read;
use std::io::Write;
use crate::CompressType;

verus! {

/// The gzip-framed compression of `data` at quality `level`, as produced by
/// flate2.
pub uninterp spec fn gzip_of(level: u32, data: Seq<u8>) -> Seq<u8>;

/// The raw-deflate compression of `data`, as produced by libflate.
pub uninterp spec fn deflate_of(data: Seq<u8>) -> Seq<u8>;

/// The brotli compression of `data` at quality `level`, as produced by
/// brotli2.
pub uninterp spec fn brotli_of(level: u32, data: Seq<u8>) -> Seq<u8>;

/// The bytes that `method` produces from `data`.
pub open spec fn encoded_spec(method: CompressType, data: Seq<u8>) -> Seq<u8> {
    match method {
        CompressType::Gzip(level) => gzip_of(level, data),
        CompressType::Deflate => deflate_of(data),
        CompressType::Brotli(level) => brotli_of(level, data),
    }
}

/// Relies on flate2::write::GzEncoder and flate2::Compression::new: the whole
/// input is compressed at the given level into a gzip-framed stream. flate2
/// writes a fixed header (mtime 0, operating-system byte 255) so the output
/// depends only on the level and the input bytes. Writing into an in-memory
/// buffer does not fail.
#[verifier::external_body]
fn gzip_encode(data: &[u8], level: u32) -> (r: Vec<u8>)
    requires
        level <= 9,
    ensures
        r@ == gzip_of(level, data@),
{
    let mut encoder = flate2::write::GzEncoder::new(Vec::new(), flate2::Compression::new(level));
    encoder.write_all(data).unwrap();
    encoder.finish().unwrap()
}

/// Relies on libflate::deflate::Encoder: the whole input is compressed into a
/// raw deflate stream whose bytes depend only on the input. Writing into an
/// in-memory buffer does not fail.
#[verifier::external_body]
fn deflate_encode(data: &[u8]) -> (r: Vec<u8>)
    ensures
        r@ == deflate_of(data@),
{
    let mut encoder = libflate::deflate::Encoder::new(Vec::new());
    encoder.write_all(data).unwrap();
    encoder.finish().into_result().unwrap()
}

/// Relies on brotli2::read::BrotliEncoder: reading the encoder to its end
/// yields the brotli encoding of the input at the given quality, which
/// depends only on the level and the input bytes. Reading from an in-memory
/// buffer does not fail.
#[verifier::external_body]
fn brotli_encode(data: &[u8], level: u32) -> (r: Vec<u8>)
    requires
        level <= 9,
    ensures
        r@ == brotli_of(level, data@),
{
    let mut encoder = brotli2::read::BrotliEncoder::new(data, level);
    let mut out = Vec::new();
    encoder.read_to_end(&mut out).unwrap();
    out
}

/// Compress `data` with `method`.
pub fn encode(method: CompressType, data: &[u8]) -> (r: Vec<u8>)
    requires
        method.wf(),
    ensures
        r@ == encoded_spec(method, data@),
{
    match method {
        CompressType::Gzip(level) => gzip_encode(data, level),
        CompressType::Deflate => deflate_encode(data),
        CompressType::Brotli(level) => brotli_encode(data, level),
    }
}

} // verus!
