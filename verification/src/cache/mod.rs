//! Response caching rules: which responses may be cached, under which key,
//! and what a `Cache-Control` header says.
use crate::balancer::algorithms::ip_hash::{xxh3_64, xxh3_64_of};
use crate::text::{
    chars_of, eq_ignore_case, parse_u64, parse_u64_chars, push_str, seq_eq, seq_eq_ignore_case,
    seq_starts_with, skip_chars, split, split_chars, starts_with, trim, trim_chars,
};
use vstd::prelude::*;
use vstd::utf8::encode_utf8;

verus! {

/// What a `Cache-Control` header says.
#[derive(Debug, Clone, Copy, PartialEq, Eq, Structural)]
pub struct CacheControl {
    pub no_cache: bool,
    pub no_store: bool,
    pub private: bool,
    pub public: bool,
    pub max_age: Option<u64>,
    pub s_maxage: Option<u64>,
}

impl Default for CacheControl {
    /// Nothing said.
    fn default() -> (c: Self)
        ensures
            c == empty_cache_control(),
    {
        CacheControl {
            no_cache: false,
            no_store: false,
            private: false,
            public: false,
            max_age: None,
            s_maxage: None,
        }
    }
}

pub open spec fn empty_cache_control() -> CacheControl {
    CacheControl {
        no_cache: false,
        no_store: false,
        private: false,
        public: false,
        max_age: None,
        s_maxage: None,
    }
}

/// One (trimmed) directive applied: the flags are matched without ASCII
/// case, `max-age=` and `s-maxage=` as written, their value replaced by the
/// parsed number (`None` when it is not one).
pub open spec fn apply_directive(cc: CacheControl, d: Seq<char>) -> CacheControl {
    if eq_ignore_case(d, "no-cache"@) {
        CacheControl { no_cache: true, ..cc }
    } else if eq_ignore_case(d, "no-store"@) {
        CacheControl { no_store: true, ..cc }
    } else if eq_ignore_case(d, "private"@) {
        CacheControl { private: true, ..cc }
    } else if eq_ignore_case(d, "public"@) {
        CacheControl { public: true, ..cc }
    } else if starts_with(d, "max-age="@) {
        CacheControl { max_age: parse_u64(d.skip(8)), ..cc }
    } else if starts_with(d, "s-maxage="@) {
        CacheControl { s_maxage: parse_u64(d.skip(9)), ..cc }
    } else {
        cc
    }
}

/// The directives (comma-separated, trimmed) applied left to right.
pub open spec fn cache_control_of(directives: Seq<Seq<char>>) -> CacheControl
    decreases directives.len(),
{
    if directives.len() == 0 {
        empty_cache_control()
    } else {
        apply_directive(cache_control_of(directives.drop_last()), trim(directives.last()))
    }
}

/// Methods whose responses may be cached.
pub open spec fn cacheable_method(m: Seq<char>) -> bool {
    m == "GET"@ || m == "HEAD"@
}

/// Statuses whose responses may be cached.
pub open spec fn cacheable_status(s: u16) -> bool {
    s == 200 || s == 203 || s == 204 || s == 206 || s == 300 || s == 301 || s == 308 || s == 404
        || s == 410
}

/// The text a cache key hashes: `method:uri`, then the vary headers.
pub open spec fn cache_key_text(method: Seq<char>, uri: Seq<char>, vary: Option<Seq<char>>) -> Seq<
    char,
> {
    method + ":"@ + uri + match vary {
        Some(v) => v,
        None => Seq::<char>::empty(),
    }
}

pub struct ResponseCacheRules;

impl ResponseCacheRules {
    /// The cache key of a request: the XXH3 hash of the UTF-8 bytes of
    /// `cache_key_text`.
    pub fn cache_key(method: &str, uri: &str, vary_headers: Option<&str>) -> (k: u64)
        ensures
            k == xxh3_64_of(
                encode_utf8(
                    cache_key_text(
                        method@,
                        uri@,
                        match vary_headers {
                            Some(v) => Some(v@),
                            None => None,
                        },
                    ),
                ),
            ),
    {
        let mut key = String::new();
        push_str(&mut key, method);
        push_str(&mut key, ":");
        push_str(&mut key, uri);
        if let Some(vary) = vary_headers {
            push_str(&mut key, vary);
        }
        let ghost text = cache_key_text(
            method@,
            uri@,
            match vary_headers {
                Some(v) => Some(v@),
                None => None,
            },
        );
        assert(key@ =~= text);
        let s = key.as_str();
        xxh3_64(s.as_bytes())
    }

    /// The key an entry named by text has: the XXH3 hash of its UTF-8 bytes.
    pub fn text_key(key_str: &str) -> (k: u64)
        ensures
            k == xxh3_64_of(encode_utf8(key_str@)),
    {
        xxh3_64(key_str.as_bytes())
    }

    /// Only GET and HEAD responses with a cacheable status are cached.
    pub fn should_cache(status: u16, method: &str) -> (r: bool)
        ensures
            r == (cacheable_method(method@) && cacheable_status(status)),
    {
        let m = chars_of(method);
        (seq_eq(&m, &chars_of("GET")) || seq_eq(&m, &chars_of("HEAD"))) && (status == 200 || status
            == 203 || status == 204 || status == 206 || status == 300 || status == 301 || status
            == 308 || status == 404 || status == 410)
    }

    /// Reads a `Cache-Control` header; see `cache_control_of`.
    pub fn parse_cache_control(header: &str) -> (cc: CacheControl)
        ensures
            cc == cache_control_of(split(header@, ',')),
    {
        let h = chars_of(header);
        let pieces = split_chars(&h, ',');
        let ghost ps = split(header@, ',');
        let no_cache = chars_of("no-cache");
        let no_store = chars_of("no-store");
        let private = chars_of("private");
        let public = chars_of("public");
        let max_age = chars_of("max-age=");
        let s_maxage = chars_of("s-maxage=");
        proof {
            reveal_strlit("max-age=");
            reveal_strlit("s-maxage=");
        }
        let mut cc = CacheControl::default();
        let mut i: usize = 0;
        while i < pieces.len()
            invariant
                i <= pieces@.len(),
                ps == split(header@, ','),
                pieces@.len() == ps.len(),
                forall|j: int| 0 <= j < pieces@.len() ==> #[trigger] pieces@[j]@ == ps[j],
                no_cache@ == "no-cache"@,
                no_store@ == "no-store"@,
                private@ == "private"@,
                public@ == "public"@,
                max_age@ == "max-age="@,
                s_maxage@ == "s-maxage="@,
                max_age@.len() == 8,
                s_maxage@.len() == 9,
                cc == cache_control_of(ps.take(i as int)),
            decreases pieces.len() - i,
        {
            assert(ps.take(i + 1).drop_last() =~= ps.take(i as int));
            let d = trim_chars(&pieces[i]);
            if seq_eq_ignore_case(&d, &no_cache) {
                cc.no_cache = true;
            } else if seq_eq_ignore_case(&d, &no_store) {
                cc.no_store = true;
            } else if seq_eq_ignore_case(&d, &private) {
                cc.private = true;
            } else if seq_eq_ignore_case(&d, &public) {
                cc.public = true;
            } else if seq_starts_with(&d, &max_age) {
                let v = skip_chars(&d, 8);
                cc.max_age = parse_u64_chars(&v);
            } else if seq_starts_with(&d, &s_maxage) {
                let v = skip_chars(&d, 9);
                cc.s_maxage = parse_u64_chars(&v);
            }
            i = i + 1;
        }
        assert(ps.take(ps.len() as int) =~= ps);
        cc
    }
}

} // verus!
