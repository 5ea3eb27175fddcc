//! Request rate limiting: one global token bucket, and optionally one bucket
//! per client address. The buckets themselves are `governor`'s; this module
//! keeps the per-address table and decides which bucket a request is charged to.
use crate::clock::now_millis;
use dashmap::DashMap;
use std::sync::Arc;
use vstd::prelude::*;

verus! {

/// A `governor` token bucket: unkeyed, in memory, on the default clock,
/// shared by reference count. Verus refuses a declaration of `governor`'s
/// `RateLimiter` (its bounds name `governor`'s traits, which Verus does not
/// know), so the limiter sits in this struct, whose field Verus does not read.
#[verifier::external_body]
pub struct Limiter {
    pub inner: Arc<governor::DefaultDirectRateLimiter>,
}

/// A token bucket with the quota it was built with: `per_second` cells per
/// second, at most `burst` at once.
pub struct Bucket {
    pub per_second: u32,
    pub burst: u32,
    pub limiter: Limiter,
}

/// Builds `governor`'s `direct(Quota::per_second(per_second).allow_burst(burst))`,
/// whose quota depends on these two numbers alone (`quota.rs`), and keeps the
/// two numbers beside it. `NonZeroU32::new(..).unwrap()` panics on 0, hence
/// the `requires`. Of the limiter's state nothing is promised: it starts from
/// the clock's current instant.
#[verifier::external_body]
fn direct_bucket(per_second: u32, burst: u32) -> (r: Bucket)
    requires
        per_second > 0,
        burst > 0,
    ensures
        r.per_second == per_second,
        r.burst == burst,
{
    let quota = governor::Quota::per_second(std::num::NonZeroU32::new(per_second).unwrap())
        .allow_burst(std::num::NonZeroU32::new(burst).unwrap());
    Bucket { per_second, burst, limiter: Limiter { inner: Arc::new(governor::RateLimiter::direct(quota)) } }
}

/// `check(..).is_ok()` on the bucket's limiter: whether one more cell passes
/// now. The answer depends on the clock and on earlier checks, so nothing is
/// promised of it.
#[verifier::external_body]
fn bucket_admits(b: &Bucket) -> bool {
    b.limiter.inner.check().is_ok()
}

/// The per-address bucket of one client.
pub struct IpLimiterEntry {
    pub limiter: Bucket,
    /// Clock reading, in seconds, of the last request from the address.
    pub last_access: u64,
}

/// What a per-address table holds: address to the clock reading (seconds)
/// of its last request, with the requests per second and burst of its bucket.
pub uninterp spec fn ip_table(m: DashMap<String, IpLimiterEntry>) -> Map<Seq<char>, (u64, u32, u32)>;

pub open spec fn no_ips() -> Map<Seq<char>, (u64, u32, u32)> {
    Map::empty()
}

/// What the table records of an entry.
pub open spec fn entry_view(e: IpLimiterEntry) -> (u64, u32, u32) {
    (e.last_access, e.limiter.per_second, e.limiter.burst)
}

/// `DashMap::new`: an empty table.
#[verifier::external_body]
fn ip_table_new() -> (r: DashMap<String, IpLimiterEntry>)
    ensures
        ip_table(r) == no_ips(),
{
    DashMap::new()
}

/// `DashMap::get`, the address's bucket shared out (`Arc::clone` of the
/// limiter, its quota copied): `None` exactly when the address has no entry.
#[verifier::external_body]
fn ip_table_bucket(m: &DashMap<String, IpLimiterEntry>, ip: &str) -> (r: Option<Bucket>)
    ensures
        r is Some <==> ip_table(*m).contains_key(ip@),
        r matches Some(b) ==> b.per_second == ip_table(*m)[ip@].1 && b.burst == ip_table(*m)[ip@].2,
{
    match m.get(ip) {
        Some(x) => Some(Bucket {
            per_second: x.limiter.per_second,
            burst: x.limiter.burst,
            limiter: Limiter { inner: Arc::clone(&x.limiter.limiter.inner) },
        }),
        None => None,
    }
}

/// `DashMap::insert`: the address now holds the entry.
#[verifier::external_body]
fn ip_table_insert(m: &mut DashMap<String, IpLimiterEntry>, ip: String, e: IpLimiterEntry)
    ensures
        ip_table(*final(m)) == ip_table(*old(m)).insert(ip@, entry_view(e)),
{
    m.insert(ip, e);
}

/// Whether an entry was used recently enough to keep: `still_active` computed.
fn limiter_active(e: &IpLimiterEntry, now: u64, max_idle_secs: u64) -> (r: bool)
    ensures
        r == still_active(e.last_access, now, max_idle_secs),
{
    now.saturating_sub(e.last_access) < max_idle_secs
}

/// `DashMap::retain` with `limiter_active`: the entries used recently enough
/// stay, the others go.
#[verifier::external_body]
fn ip_table_retain_active(m: &mut DashMap<String, IpLimiterEntry>, now: u64, max_idle_secs: u64)
    ensures
        ip_table(*final(m)) == active_only(ip_table(*old(m)), now, max_idle_secs),
{
    m.retain(|_, e| limiter_active(e, now, max_idle_secs));
}

/// `DashMap::len`: the number of addresses.
#[verifier::external_body]
fn ip_table_len(m: &DashMap<String, IpLimiterEntry>) -> (r: usize)
    ensures
        r == ip_table(*m).len(),
{
    m.len()
}

/// The table after a request from `ip` at `now`: the address's time is
/// `now`; an address seen before keeps its bucket, a new one gets a bucket
/// with `quota` (requests per second, burst).
pub open spec fn touched(t: Map<Seq<char>, (u64, u32, u32)>, ip: Seq<char>, now: u64, quota: (u32, u32)) -> Map<
    Seq<char>,
    (u64, u32, u32),
> {
    if t.contains_key(ip) {
        t.insert(ip, (now, t[ip].1, t[ip].2))
    } else {
        t.insert(ip, (now, quota.0, quota.1))
    }
}

/// Idle for less than `max_idle` seconds at `now` (a clock reading earlier
/// than the entry counts as no idle time).
pub open spec fn still_active(last: u64, now: u64, max_idle: u64) -> bool {
    (if now >= last { now - last } else { 0 }) < max_idle
}

/// The entries kept by a cleanup at `now`.
pub open spec fn active_only(t: Map<Seq<char>, (u64, u32, u32)>, now: u64, max_idle: u64) -> Map<
    Seq<char>,
    (u64, u32, u32),
> {
    Map::new(|k: Seq<char>| t.contains_key(k) && still_active(t[k].0, now, max_idle), |k: Seq<char>| t[k])
}

/// The decision on a request from the answers of the global bucket (`g`) and
/// of the address's bucket (`i`, none without per-address limiting): it
/// passes when the global bucket admits it and the address's bucket, if
/// asked, does not refuse it.
pub open spec fn rate_decision_spec(g: bool, i: Option<bool>) -> bool {
    g && i != Some(false)
}

/// `r` is the decision on the answers `g` and `i`.
pub open spec fn rate_decided(r: bool, g: bool, i: Option<bool>) -> bool {
    r == rate_decision_spec(g, i)
}

/// What checking a request from `ip` at `now` did, given the buckets'
/// answers `g` and `i`: a global refusal records nothing and asks no other
/// bucket; otherwise, with per-address limiting on, the request is recorded
/// and the address's bucket is asked, and without it no other bucket is asked.
pub open spec fn checked_ip(before: RateLimiter, after: RateLimiter, ip: Seq<char>, now: u64, g: bool, i: Option<bool>) -> bool {
    &&& !g ==> after.per_ip_view() == before.per_ip_view() && i is None
    &&& g ==> (i is Some <==> before.per_ip_view() is Some)
    &&& g ==> match before.per_ip_view() {
        Some(t) => after.per_ip_view() == Some(touched(t, ip, now, before.per_ip_quota_view()->0)),
        None => after.per_ip_view() is None,
    }
}

/// The decision on a request from the buckets' answers; see
/// `rate_decision_spec`.
pub fn rate_decision(g: bool, i: Option<bool>) -> (r: bool)
    ensures
        r == rate_decision_spec(g, i),
{
    match i {
        Some(false) => false,
        _ => g,
    }
}

/// The per-address buckets and the quota each new one gets.
struct PerIpTable {
    entries: DashMap<String, IpLimiterEntry>,
    per_second: u32,
    burst: u32,
}

pub struct RateLimiter {
    global: Bucket,
    per_ip: Option<PerIpTable>,
}

impl RateLimiter {
    /// The per-address table, if per-address limiting is on.
    pub closed spec fn per_ip_view(&self) -> Option<Map<Seq<char>, (u64, u32, u32)>> {
        match self.per_ip {
            Some(t) => Some(ip_table(t.entries)),
            None => None,
        }
    }

    /// The global bucket.
    pub closed spec fn global(&self) -> Bucket {
        self.global
    }

    /// Requests per second and burst of the global bucket.
    pub closed spec fn global_quota(&self) -> (u32, u32) {
        (self.global.per_second, self.global.burst)
    }

    /// Requests per second and burst of each per-address bucket.
    pub closed spec fn per_ip_quota_view(&self) -> Option<(u32, u32)> {
        match self.per_ip {
            Some(t) => Some((t.per_second, t.burst)),
            None => None,
        }
    }

    #[verifier::type_invariant]
    closed spec fn wf(&self) -> bool {
        self.per_ip matches Some(t) ==> t.per_second > 0 && t.burst > 0
    }

    /// A global limit of `requests_per_second`, which is also the burst; no
    /// per-address limit. `Quota::per_second` refuses 0 (by panicking).
    pub fn new(requests_per_second: u32) -> (r: Self)
        requires
            requests_per_second > 0,
        ensures
            r.global_quota() == (requests_per_second, requests_per_second),
            r.per_ip_view() is None,
            r.per_ip_quota_view() is None,
    {
        RateLimiter { global: direct_bucket(requests_per_second, requests_per_second), per_ip: None }
    }

    /// A global limit of `requests_per_second` with bursts of `burst_size`.
    pub fn with_burst(requests_per_second: u32, burst_size: u32) -> (r: Self)
        requires
            requests_per_second > 0,
            burst_size > 0,
        ensures
            r.global_quota() == (requests_per_second, burst_size),
            r.per_ip_view() is None,
            r.per_ip_quota_view() is None,
    {
        RateLimiter { global: direct_bucket(requests_per_second, burst_size), per_ip: None }
    }

    /// Turns on per-address limiting, with an empty table.
    pub fn with_per_ip_limit(self, requests_per_second: u32, burst: u32) -> (r: Self)
        requires
            requests_per_second > 0,
            burst > 0,
        ensures
            r.global_quota() == self.global_quota(),
            r.per_ip_view() == Some(no_ips()),
            r.per_ip_quota_view() == Some((requests_per_second, burst)),
    {
        let table = PerIpTable { entries: ip_table_new(), per_second: requests_per_second, burst };
        RateLimiter { global: self.global, per_ip: Some(table) }
    }

    /// The global bucket, for callers that wait on it.
    pub fn global_bucket(&self) -> (r: &Bucket)
        ensures
            *r == self.global(),
    {
        &self.global
    }

    /// The bucket of `ip`, if per-address limiting is on and `ip` has one.
    pub fn ip_bucket(&self, ip: &str) -> (r: Option<Bucket>)
        ensures
            r is Some <==> (self.per_ip_view() matches Some(t) && t.contains_key(ip@)),
    {
        match &self.per_ip {
            Some(t) => ip_table_bucket(&t.entries, ip),
            None => None,
        }
    }

    /// Whether the global bucket lets one more request through now.
    pub fn check(&self) -> bool {
        bucket_admits(&self.global)
    }

    /// Records a request from `ip` at clock reading `now` (seconds) in the
    /// per-address table, creating the address's bucket if it has none.
    /// Without per-address limiting nothing changes.
    pub fn touch_ip_at(&mut self, ip: &str, now: u64)
        ensures
            final(self).per_ip_quota_view() == old(self).per_ip_quota_view(),
            final(self).global_quota() == old(self).global_quota(),
            old(self).per_ip_view() is None ==> final(self).per_ip_view() is None,
            old(self).per_ip_view() matches Some(t) ==> final(self).per_ip_view() == Some(
                touched(t, ip@, now, old(self).per_ip_quota_view()->0),
            ),
    {
        proof {
            use_type_invariant(&*self);
        }
        let mut taken: Option<PerIpTable> = None;
        std::mem::swap(&mut taken, &mut self.per_ip);
        let mut table = match taken {
            Some(t) => t,
            None => {
                return;
            },
        };
        let limiter = match ip_table_bucket(&table.entries, ip) {
            Some(b) => b,
            None => direct_bucket(table.per_second, table.burst),
        };
        ip_table_insert(&mut table.entries, ip.to_string(), IpLimiterEntry { limiter, last_access: now });
        self.per_ip = Some(table);
    }

    /// Whether a request from `ip` at clock reading `now` (seconds) may pass:
    /// the global bucket is asked first, and a refusal there ends the check
    /// with nothing recorded; then, with per-address limiting on, the request
    /// is recorded in the table and the address's own bucket (the one stored
    /// under `ip`) is asked; see `rate_decision`. What the buckets answer
    /// depends on the clock and on earlier requests, so their answers are
    /// `g` and `i` below.
    pub fn check_ip_at(&mut self, ip: &str, now: u64) -> (r: bool)
        ensures
            final(self).per_ip_quota_view() == old(self).per_ip_quota_view(),
            final(self).global_quota() == old(self).global_quota(),
            old(self).per_ip_view() is None ==> final(self).per_ip_view() is None,
            exists|g: bool, i: Option<bool>| rate_decided(r, g, i) && #[trigger] checked_ip(*old(self), *final(self), ip@, now, g, i),
    {
        proof {
            use_type_invariant(&*self);
        }
        let g = self.check();
        if !g {
            let r = rate_decision(false, None);
            assert(rate_decided(r, false, None) && checked_ip(*old(self), *self, ip@, now, false, None));
            return r;
        }
        self.touch_ip_at(ip, now);
        let i = match self.ip_bucket(ip) {
            Some(b) => Some(bucket_admits(&b)),
            None => None,
        };
        let r = rate_decision(g, i);
        assert(rate_decided(r, g, i) && checked_ip(*old(self), *self, ip@, now, g, i));
        r
    }

    /// `check_ip_at` at the current clock reading.
    pub fn check_ip(&mut self, ip: &str) -> (r: bool)
        ensures
            final(self).per_ip_quota_view() == old(self).per_ip_quota_view(),
            final(self).global_quota() == old(self).global_quota(),
            old(self).per_ip_view() is None ==> final(self).per_ip_view() is None,
            exists|g: bool, i: Option<bool>, now: u64| rate_decided(r, g, i) && #[trigger] checked_ip(*old(self), *final(self), ip@, now, g, i),
    {
        let now = now_millis() / 1000;
        self.check_ip_at(ip, now)
    }

    /// Drops the per-address buckets idle for `max_idle_secs` or longer at
    /// clock reading `now` (seconds).
    pub fn cleanup_stale_limiters_at(&mut self, max_idle_secs: u64, now: u64)
        ensures
            final(self).per_ip_quota_view() == old(self).per_ip_quota_view(),
            final(self).global_quota() == old(self).global_quota(),
            old(self).per_ip_view() is None ==> final(self).per_ip_view() is None,
            old(self).per_ip_view() matches Some(t) ==> final(self).per_ip_view() == Some(active_only(t, now, max_idle_secs)),
    {
        proof {
            use_type_invariant(&*self);
        }
        let mut taken: Option<PerIpTable> = None;
        std::mem::swap(&mut taken, &mut self.per_ip);
        let mut table = match taken {
            Some(t) => t,
            None => {
                return;
            },
        };
        ip_table_retain_active(&mut table.entries, now, max_idle_secs);
        self.per_ip = Some(table);
    }

    /// `cleanup_stale_limiters_at` at the current clock reading.
    pub fn cleanup_stale_limiters(&mut self, max_idle_secs: u64)
        ensures
            final(self).per_ip_quota_view() == old(self).per_ip_quota_view(),
            final(self).global_quota() == old(self).global_quota(),
            old(self).per_ip_view() is None ==> final(self).per_ip_view() is None,
            old(self).per_ip_view() matches Some(t) ==> exists|now: u64|
                final(self).per_ip_view() == Some(#[trigger] active_only(t, now, max_idle_secs)),
    {
        let now = now_millis() / 1000;
        self.cleanup_stale_limiters_at(max_idle_secs, now);
    }

    /// Number of addresses in the per-address table (0 without one).
    pub fn per_ip_count(&self) -> (r: usize)
        ensures
            r == match self.per_ip_view() {
                Some(t) => t.len(),
                None => 0,
            },
    {
        match &self.per_ip {
            Some(t) => ip_table_len(&t.entries),
            None => 0,
        }
    }
}

impl Default for RateLimiter {
    /// 10 000 requests per second, no per-address limit.
    fn default() -> (r: Self)
        ensures
            r.global_quota() == (10000u32, 10000u32),
            r.per_ip_view() is None,
            r.per_ip_quota_view() is None,
    {
        Self::new(10000)
    }
}

/// After a request from `ip` is recorded, the table has an entry for `ip`
/// stamped with the time of that request, whose bucket is the one it had or,
/// for a new address, one with the table's quota; every other address is as
/// it was, and the table grew by one exactly when `ip` was new.
pub proof fn lemma_touched_has_ip(t: Map<Seq<char>, (u64, u32, u32)>, ip: Seq<char>, now: u64, quota: (u32, u32))
    requires
        t.dom().finite(),
    ensures
        touched(t, ip, now, quota).contains_key(ip),
        touched(t, ip, now, quota)[ip].0 == now,
        !t.contains_key(ip) ==> (touched(t, ip, now, quota)[ip].1, touched(t, ip, now, quota)[ip].2) == quota,
        t.contains_key(ip) ==> touched(t, ip, now, quota)[ip].1 == t[ip].1 && touched(t, ip, now, quota)[ip].2 == t[ip].2,
        forall|k: Seq<char>| k != ip ==> (#[trigger] touched(t, ip, now, quota).contains_key(k) <==> t.contains_key(k)),
        forall|k: Seq<char>| k != ip && #[trigger] t.contains_key(k) ==> touched(t, ip, now, quota)[k] == t[k],
        touched(t, ip, now, quota).len() == t.len() + (if t.contains_key(ip) { 0int } else { 1int }),
{
    let n = touched(t, ip, now, quota);
    if t.contains_key(ip) {
        assert(n.dom() =~= t.dom());
    } else {
        assert(n.dom() =~= t.dom().insert(ip));
    }
}

} // verus!
