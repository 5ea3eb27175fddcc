//! IP hash: the same client address always lands on the same server while
//! the list is unchanged.
use crate::backend::server::Server;
use crate::error::LoadBalancerError;
use vstd::prelude::*;
use vstd::string::StringSliceAdditionalSpecFns;

verus! {

/// The XXH3 64-bit hash (seed 0, default secret) of a byte string.
pub uninterp spec fn xxh3_64_of(bytes: Seq<u8>) -> u64;

/// `xxhash_rust::xxh3::xxh3_64`: a function of the input bytes alone.
#[verifier::external_body]
pub(crate) fn xxh3_64(bytes: &[u8]) -> (h: u64)
    ensures
        h == xxh3_64_of(bytes@),
{
    xxhash_rust::xxh3::xxh3_64(bytes)
}

pub struct IpHashSelector;

/// The index a hash value selects among `n` servers.
pub open spec fn hash_slot(hash: u64, n: nat) -> int {
    (hash as usize) as int % n as int
}

/// What selecting by a hash value returns.
pub open spec fn hash_selected(servers: Seq<Server>, hash: u64, r: Result<Server, LoadBalancerError>) -> bool {
    &&& servers.len() == 0 <==> r is Err
    &&& r is Err ==> r->Err_0 is NoHealthyBackends
    &&& r is Ok ==> r->Ok_0@ == servers[hash_slot(hash, servers.len())]@
}

impl IpHashSelector {
    pub fn new() -> Self {
        IpHashSelector
    }

    /// The server that a hash value selects.
    pub fn select_by_hash(&self, servers: &[Server], hash: u64) -> (r: Result<Server, LoadBalancerError>)
        ensures
            hash_selected(servers@, hash, r),
    {
        if servers.len() == 0 {
            return Err(LoadBalancerError::NoHealthyBackends);
        }
        let index = (hash as usize) % servers.len();
        Ok(servers[index].clone())
    }

    /// The server that the XXH3 hash of the client address selects.
    pub fn select(&self, servers: &[Server], client_ip: &str) -> (r: Result<Server, LoadBalancerError>)
        ensures
            hash_selected(servers@, xxh3_64_of(client_ip.spec_bytes()), r),
    {
        if servers.len() == 0 {
            return Err(LoadBalancerError::NoHealthyBackends);
        }
        let hash = xxh3_64(client_ip.as_bytes());
        self.select_by_hash(servers, hash)
    }
}

impl Clone for IpHashSelector {
    fn clone(&self) -> Self {
        IpHashSelector
    }
}

/// Stickiness of IP hashing: the same address and the same server list give
/// the same server.
pub proof fn lemma_ip_hash_is_stable(ip1: Seq<u8>, ip2: Seq<u8>, n: nat)
    requires
        ip1 == ip2,
        n > 0,
    ensures
        hash_slot(xxh3_64_of(ip1), n) == hash_slot(xxh3_64_of(ip2), n),
        0 <= hash_slot(xxh3_64_of(ip1), n) < n,
{
}

impl Default for IpHashSelector {
    fn default() -> Self {
        Self::new()
    }
}

} // verus!
