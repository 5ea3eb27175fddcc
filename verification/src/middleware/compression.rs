//! Which responses are compressed, and how encodings are named.
use crate::text::{chars_of, contains_seq, seq_contains, seq_eq, seq_starts_with, starts_with};
use vstd::prelude::*;

verus! {

#[derive(Debug, Clone, Copy, PartialEq, Eq, Structural)]
pub enum CompressionAlgo {
    Gzip,
    Brotli,
    Zstd,
    Identity,
}

/// How strongly an encoding compresses: brotli 3, zstd 2, gzip and deflate
/// 1, anything else 0 (not supported).
pub open spec fn encoding_priority(enc: Seq<char>) -> u8 {
    if enc == "br"@ {
        3
    } else if enc == "zstd"@ {
        2
    } else if enc == "gzip"@ || enc == "deflate"@ {
        1
    } else {
        0
    }
}

/// The `Content-Encoding` name of an algorithm.
pub open spec fn encoding_name(a: CompressionAlgo) -> Option<Seq<char>> {
    match a {
        CompressionAlgo::Gzip => Some("gzip"@),
        CompressionAlgo::Brotli => Some("br"@),
        CompressionAlgo::Zstd => Some("zstd"@),
        CompressionAlgo::Identity => None,
    }
}

/// The algorithm an accepted encoding name selects.
pub open spec fn algo_for_encoding(enc: Seq<char>) -> CompressionAlgo {
    if enc == "br"@ {
        CompressionAlgo::Brotli
    } else if enc == "zstd"@ {
        CompressionAlgo::Zstd
    } else if enc == "gzip"@ || enc == "deflate"@ {
        CompressionAlgo::Gzip
    } else {
        CompressionAlgo::Identity
    }
}

impl CompressionAlgo {
    /// The priority of an encoding name; see `encoding_priority`.
    pub fn priority(enc: &str) -> (r: u8)
        ensures
            r == encoding_priority(enc@),
    {
        let e = chars_of(enc);
        if seq_eq(&e, &chars_of("br")) {
            3
        } else if seq_eq(&e, &chars_of("zstd")) {
            2
        } else if seq_eq(&e, &chars_of("gzip")) || seq_eq(&e, &chars_of("deflate")) {
            1
        } else {
            0
        }
    }

    /// The algorithm an encoding name selects (`deflate` is served as gzip).
    pub fn for_encoding(enc: &str) -> (r: CompressionAlgo)
        ensures
            r == algo_for_encoding(enc@),
    {
        let e = chars_of(enc);
        if seq_eq(&e, &chars_of("br")) {
            CompressionAlgo::Brotli
        } else if seq_eq(&e, &chars_of("zstd")) {
            CompressionAlgo::Zstd
        } else if seq_eq(&e, &chars_of("gzip")) || seq_eq(&e, &chars_of("deflate")) {
            CompressionAlgo::Gzip
        } else {
            CompressionAlgo::Identity
        }
    }

    pub fn content_encoding(&self) -> (r: Option<&'static str>)
        ensures
            match r {
                Some(s) => encoding_name(*self) == Some(s@),
                None => encoding_name(*self) is None,
            },
    {
        match self {
            CompressionAlgo::Gzip => Some("gzip"),
            CompressionAlgo::Brotli => Some("br"),
            CompressionAlgo::Zstd => Some("zstd"),
            CompressionAlgo::Identity => None,
        }
    }
}

/// Content types worth compressing: text, and anything naming json, xml,
/// javascript, css or html.
pub open spec fn compressible(ct: Seq<char>) -> bool {
    ||| starts_with(ct, "text/"@)
    ||| contains_seq(ct, "json"@)
    ||| contains_seq(ct, "xml"@)
    ||| contains_seq(ct, "javascript"@)
    ||| contains_seq(ct, "css"@)
    ||| contains_seq(ct, "html"@)
}

pub struct CompressionMiddleware {
    min_size: usize,
    level: u32,
}

impl CompressionMiddleware {
    pub closed spec fn min_size(&self) -> usize {
        self.min_size
    }

    pub closed spec fn level(&self) -> u32 {
        self.level
    }

    pub fn new(min_size: usize, level: u32) -> (m: Self)
        ensures
            m.min_size() == min_size,
            m.level() == level,
    {
        CompressionMiddleware { min_size, level }
    }

    /// A body is sent as it is when it is smaller than the minimum size or
    /// no algorithm was negotiated.
    pub fn passes_through(&self, len: usize, algo: CompressionAlgo) -> (r: bool)
        ensures
            r == (len < self.min_size() || algo == CompressionAlgo::Identity),
    {
        len < self.min_size || algo == CompressionAlgo::Identity
    }

    /// Whether a response of this content type should be compressed; see
    /// `compressible`. Without a content type, no.
    pub fn should_compress(content_type: Option<&str>) -> (r: bool)
        ensures
            content_type is None ==> !r,
            content_type matches Some(ct) ==> r == compressible(ct@),
    {
        match content_type {
            Some(ct) => {
                let c = chars_of(ct);
                seq_starts_with(&c, &chars_of("text/")) || seq_contains(&c, &chars_of("json"))
                    || seq_contains(&c, &chars_of("xml")) || seq_contains(&c, &chars_of("javascript"))
                    || seq_contains(&c, &chars_of("css")) || seq_contains(&c, &chars_of("html"))
            },
            None => false,
        }
    }
}

impl Default for CompressionMiddleware {
    /// Bodies below 1024 bytes are not compressed; level 4.
    fn default() -> (m: Self)
        ensures
            m.min_size() == 1024,
            m.level() == 4,
    {
        Self::new(1024, 4)
    }
}

impl Clone for CompressionMiddleware {
    fn clone(&self) -> (r: Self)
        ensures
            r.min_size() == self.min_size(),
            r.level() == self.level(),
    {
        CompressionMiddleware { min_size: self.min_size, level: self.level }
    }
}

} // verus!
