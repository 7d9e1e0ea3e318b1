//! Conditional compression of outgoing HTTP response bodies.
//!
//! A [`Compress`] value holds a compression method and a size threshold.
//! Its [`Compress::post`] operation decides, from a response body and the
//! request's `Accept-Encoding` header, whether the body should be replaced
//! by its compressed form, and produces those bytes when it should.

use vstd::prelude::*;

pub mod accept;
pub mod encode;

verus! {

/// Compression methods.
#[derive(Debug, Clone, Copy, PartialEq, Eq, Structural)]
pub enum CompressType {
    /// Gzip compression.
    ///
    /// The number is the quality (0-9).
    Gzip(u32),
    /// Deflate compression.
    Deflate,
    /// Brotli compression.
    ///
    /// The number is the quality (0-9).
    Brotli(u32),
}

impl CompressType {
    /// Whether the quality level is in the supported 0-9 range.
    pub open spec fn wf(self) -> bool {
        match self {
            CompressType::Gzip(level) => level <= 9,
            CompressType::Deflate => true,
            CompressType::Brotli(level) => level <= 9,
        }
    }

    /// The canonical wire token of this method, as a character sequence.
    pub open spec fn token_str(self) -> Seq<char> {
        match self {
            CompressType::Gzip(_) => "gzip"@,
            CompressType::Deflate => "deflate"@,
            CompressType::Brotli(_) => "br"@,
        }
    }

    /// The canonical wire token of this method, as a byte sequence
    /// (ASCII `gzip`, `deflate` or `br`).
    pub open spec fn token_spec(self) -> Seq<u8> {
        match self {
            CompressType::Gzip(_) => seq![103u8, 122u8, 105u8, 112u8],
            CompressType::Deflate => seq![100u8, 101u8, 102u8, 108u8, 97u8, 116u8, 101u8],
            CompressType::Brotli(_) => seq![98u8, 114u8],
        }
    }

    /// The canonical wire token of this method: `gzip`, `deflate` or `br`.
    ///
    /// This token is matched against the elements of the request's
    /// `Accept-Encoding` header and sent back in the `Content-Encoding`
    /// header of a compressed response.
    pub fn token(&self) -> (r: &'static str)
        ensures
            r@ == self.token_str(),
    {
        match self {
            CompressType::Gzip(_) => "gzip",
            CompressType::Deflate => "deflate",
            CompressType::Brotli(_) => "br",
        }
    }

    /// The canonical wire token of this method, as bytes.
    pub fn token_bytes(&self) -> (r: Vec<u8>)
        ensures
            r@ == self.token_spec(),
    {
        let mut v: Vec<u8> = Vec::new();
        match self {
            CompressType::Gzip(_) => {
                // ASCII "gzip"
                v.push(103);
                v.push(122);
                v.push(105);
                v.push(112);
            }
            CompressType::Deflate => {
                // ASCII "deflate"
                v.push(100);
                v.push(101);
                v.push(102);
                v.push(108);
                v.push(97);
                v.push(116);
                v.push(101);
            }
            CompressType::Brotli(_) => {
                // ASCII "br"
                v.push(98);
                v.push(114);
            }
        }
        proof {
            assert(v@ =~= self.token_spec());
        }
        v
    }
}

/// Compression middleware configuration: a method and a minimum body size.
#[derive(Debug, Clone, Copy)]
pub struct Compress {
    /// The configured compression method.
    pub compression: CompressType,
    /// Bodies of at most this many bytes are never compressed.
    pub threshold: usize,
}

/// The view of an optional header value handed in by reference.
pub open spec fn header_view(accept_encoding: Option<&[u8]>) -> Option<Seq<u8>> {
    match accept_encoding {
        Some(h) => Some(h@),
        None => None,
    }
}

impl Compress {
    /// Whether the configured quality level is in the supported 0-9 range.
    pub open spec fn wf(self) -> bool {
        self.compression.wf()
    }

    /// Whether a response with body `body`, produced for a request whose
    /// `Accept-Encoding` header is `accept_encoding` (`None` when absent),
    /// is to be compressed: the body must exceed the threshold and the
    /// header must advertise the configured method's token.
    pub open spec fn should_compress(
        self,
        body: Seq<u8>,
        accept_encoding: Option<Seq<u8>>,
    ) -> bool {
        &&& body.len() > self.threshold
        &&& match accept_encoding {
            Some(h) => accept::accepts(h, self.compression.token_spec()),
            None => false,
        }
    }

    /// Make a new compressor with the default method (`Gzip(6)`) and the
    /// default threshold (1024 bytes).
    pub fn new() -> (r: Self)
        ensures
            r.compression == CompressType::Gzip(6),
            r.threshold == 1024,
    {
        Compress { compression: CompressType::Gzip(6), threshold: 1024 }
    }

    /// Set the body size threshold.
    /// This stops from compressing tiny amounts of data.
    ///
    /// Default is 1024.
    pub fn threshold(self, threshold: usize) -> (r: Self)
        ensures
            r.threshold == threshold,
            r.compression == self.compression,
    {
        Compress { threshold, ..self }
    }

    /// Set compression method.
    ///
    /// Default is Gzip(6).
    pub fn compression(self, compression: CompressType) -> (r: Self)
        ensures
            r.compression == compression,
            r.threshold == self.threshold,
    {
        Compress { compression, ..self }
    }

    /// Decide what to do with an outgoing response whose body is `body`,
    /// produced for a request whose `Accept-Encoding` header is
    /// `accept_encoding` (`None` when the request has no such header).
    ///
    /// Returns `None` when the response is to be passed through unchanged,
    /// and `Some` of the compressed bytes when the body is to be replaced
    /// by them (with `Content-Encoding` set to the method's token).
    pub fn post(&self, body: &[u8], accept_encoding: Option<&[u8]>) -> (r: Option<Vec<u8>>)
        requires
            self.wf(),
        ensures
            match r {
                Some(out) => self.should_compress(body@, header_view(accept_encoding))
                    && out@ == encode::encoded_spec(self.compression, body@),
                None => !self.should_compress(body@, header_view(accept_encoding)),
            },
    {
        // Don't compress if body is under threshold
        if body.len() <= self.threshold {
            return None;
        }
        // Check if client doesn't support compression
        let header = match accept_encoding {
            Some(h) => h,
            None => {
                return None;
            },
        };
        let token = self.compression.token_bytes();
        if !accept::accepts_token(header, token.as_slice()) {
            return None;
        }
        // Compress with specified method
        Some(encode::encode(self.compression, body))
    }
}

impl Default for Compress {
    /// Same configuration as [`Compress::new`].
    fn default() -> (r: Self)
        ensures
            r.compression == CompressType::Gzip(6),
            r.threshold == 1024,
    {
        Compress::new()
    }
}

/// A body of at most `threshold` bytes is never compressed: the response is
/// passed through unchanged, whatever the request's headers.
pub proof fn lemma_small_body_passes_through(
    c: Compress,
    body: Seq<u8>,
    accept_encoding: Option<Seq<u8>>,
)
    requires
        body.len() <= c.threshold,
    ensures
        !c.should_compress(body, accept_encoding),
{
}

/// A request without an `Accept-Encoding` header never has its response
/// compressed, whatever the body size.
pub proof fn lemma_missing_header_passes_through(c: Compress, body: Seq<u8>)
    ensures
        !c.should_compress(body, None),
{
}

/// A request that advertises the configured method's token, for a body that
/// exceeds the threshold, always has its response compressed; by
/// [`Compress::post`]'s contract the replacement body is then exactly the
/// configured method's encoding of the original body.
pub proof fn lemma_matched_header_compresses(c: Compress, body: Seq<u8>, header: Seq<u8>)
    requires
        body.len() > c.threshold,
        accept::accepts(header, c.compression.token_spec()),
    ensures
        c.should_compress(body, Some(header)),
{
}

/// A request whose `Accept-Encoding` header does not contain the configured
/// method's token (as a trimmed comma-separated element) never has its
/// response compressed.
pub proof fn lemma_unmatched_header_passes_through(c: Compress, body: Seq<u8>, header: Seq<u8>)
    requires
        !accept::accepts(header, c.compression.token_spec()),
    ensures
        !c.should_compress(body, Some(header)),
{
}

} // verus!
