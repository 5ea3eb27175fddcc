//! TLS settings: where the certificate and key are, and which application
//! protocols are offered.
use vstd::prelude::*;
use vstd::string::StrSliceExecFns;
use vstd::utf8::encode_utf8;

verus! {

/// Certificate and key file paths, and the ALPN protocol names offered, as bytes.
pub struct TlsConfig {
    pub cert_path: String,
    pub key_path: String,
    pub alpn_protocols: Vec<Vec<u8>>,
}

/// The protocols offered unless said otherwise: HTTP/2 first, then HTTP/1.1.
pub open spec fn default_alpn() -> Seq<Seq<u8>> {
    seq![encode_utf8("h2"@), encode_utf8("http/1.1"@)]
}

/// The bytes of each protocol name, in order.
pub open spec fn alpn_bytes(protocols: Seq<&str>) -> Seq<Seq<u8>> {
    protocols.map_values(|p: &str| encode_utf8(p@))
}

impl TlsConfig {
    /// The ALPN names, each as its bytes.
    pub closed spec fn alpn(&self) -> Seq<Seq<u8>> {
        self.alpn_protocols@.map_values(|v: Vec<u8>| v@)
    }

    pub fn new(cert_path: String, key_path: String) -> (c: Self)
        ensures
            c.cert_path@ == cert_path@,
            c.key_path@ == key_path@,
            c.alpn() == default_alpn(),
    {
        let h2 = "h2".as_bytes_vec();
        let http1 = "http/1.1".as_bytes_vec();
        let mut alpn: Vec<Vec<u8>> = Vec::new();
        alpn.push(h2);
        alpn.push(http1);
        let c = TlsConfig { cert_path, key_path, alpn_protocols: alpn };
        assert(c.alpn() =~= default_alpn());
        c
    }

    /// Offers `protocols`, in that order, in place of the current ones.
    pub fn with_alpn(self, protocols: Vec<&str>) -> (c: Self)
        ensures
            c.cert_path@ == self.cert_path@,
            c.key_path@ == self.key_path@,
            c.alpn() == alpn_bytes(protocols@),
    {
        let mut alpn: Vec<Vec<u8>> = Vec::new();
        let mut i: usize = 0;
        while i < protocols.len()
            invariant
                i <= protocols@.len(),
                alpn@.len() == i,
                alpn@.map_values(|v: Vec<u8>| v@) == alpn_bytes(protocols@.take(i as int)),
            decreases protocols.len() - i,
        {
            let b = protocols[i].as_bytes_vec();
            let ghost prev = alpn@;
            alpn.push(b);
            proof {
                let lhs = alpn@.map_values(|v: Vec<u8>| v@);
                let rhs = alpn_bytes(protocols@.take(i + 1));
                assert forall|k: int| 0 <= k < lhs.len() implies #[trigger] lhs[k] == rhs[k] by {
                    if k < i {
                        assert(alpn@[k] == prev[k]);
                        assert(prev.map_values(|v: Vec<u8>| v@)[k] == alpn_bytes(protocols@.take(i as int))[k]);
                    }
                }
                assert(lhs =~= rhs);
            }
            i = i + 1;
        }
        assert(protocols@.take(protocols@.len() as int) =~= protocols@);
        TlsConfig { cert_path: self.cert_path, key_path: self.key_path, alpn_protocols: alpn }
    }
}

fn copy_bytes(v: &Vec<u8>) -> (r: Vec<u8>)
    ensures
        r@ == v@,
{
    let mut r: Vec<u8> = Vec::new();
    let mut i: usize = 0;
    while i < v.len()
        invariant
            i <= v@.len(),
            r@ == v@.take(i as int),
        decreases v.len() - i,
    {
        r.push(v[i]);
        assert(r@ =~= v@.take(i + 1));
        i = i + 1;
    }
    assert(v@.take(v@.len() as int) =~= v@);
    r
}

impl Clone for TlsConfig {
    fn clone(&self) -> (r: Self)
        ensures
            r.cert_path@ == self.cert_path@,
            r.key_path@ == self.key_path@,
            r.alpn() == self.alpn(),
    {
        let mut alpn: Vec<Vec<u8>> = Vec::new();
        let mut i: usize = 0;
        while i < self.alpn_protocols.len()
            invariant
                i <= self.alpn_protocols@.len(),
                alpn@.len() == i,
                alpn@.map_values(|v: Vec<u8>| v@) == self.alpn_protocols@.take(i as int).map_values(|v: Vec<u8>| v@),
            decreases self.alpn_protocols.len() - i,
        {
            let b = copy_bytes(&self.alpn_protocols[i]);
            let ghost prev = alpn@;
            alpn.push(b);
            proof {
                let lhs = alpn@.map_values(|v: Vec<u8>| v@);
                let rhs = self.alpn_protocols@.take(i + 1).map_values(|v: Vec<u8>| v@);
                assert forall|k: int| 0 <= k < lhs.len() implies #[trigger] lhs[k] == rhs[k] by {
                    if k < i {
                        assert(alpn@[k] == prev[k]);
                        assert(prev.map_values(|v: Vec<u8>| v@)[k] == self.alpn_protocols@.take(i as int).map_values(|v: Vec<u8>| v@)[k]);
                    }
                }
                assert(lhs =~= rhs);
            }
            i = i + 1;
        }
        assert(self.alpn_protocols@.take(self.alpn_protocols@.len() as int) =~= self.alpn_protocols@);
        TlsConfig { cert_path: self.cert_path.clone(), key_path: self.key_path.clone(), alpn_protocols: alpn }
    }
}

} // verus!
