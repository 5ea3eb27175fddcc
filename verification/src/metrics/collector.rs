//! Request counters and response-time windows, globally and per backend,
//! with the order statistics a snapshot reports.
use crate::keyed::{key_index, keys_distinct, lemma_distinct_after_put, lemma_key_index, lemma_last_key};
use crate::text::str_eq;
use vstd::prelude::*;
use vstd::relations::{sorted_by, total_ordering};

verus! {

/// The longest `std::time::Duration`, in nanoseconds.
pub const MAX_DURATION_NANOS: u128 = 18446744073709551615999999999;

/// How many response times the global window holds before it is cut.
pub const GLOBAL_WINDOW: usize = 10000;

/// How many of the oldest response times a cut of the global window drops.
pub const GLOBAL_CUT: usize = 5000;

/// How many response times a backend's window holds before it is cut.
pub const BACKEND_WINDOW: usize = 1000;

/// How many of the oldest response times a cut of a backend's window drops.
pub const BACKEND_CUT: usize = 500;

/// A window after `x` is added at its end: once it holds more than `cap`
/// values, its `cut` oldest are dropped.
pub open spec fn windowed(s: Seq<u128>, x: u128, cap: nat, cut: nat) -> Seq<u128> {
    let t = s.push(x);
    if t.len() > cap {
        t.skip(cut as int)
    } else {
        t
    }
}

/// Every value is the length of some `Duration`.
pub open spec fn durations(s: Seq<u128>) -> bool {
    forall|i: int| 0 <= i < s.len() ==> s[i] <= MAX_DURATION_NANOS
}

/// The order of response times.
pub open spec fn nanos_le() -> spec_fn(u128, u128) -> bool {
    |a: u128, b: u128| a <= b
}

/// The sum of a sequence of response times.
pub open spec fn seq_sum(s: Seq<u128>) -> int
    decreases s.len(),
{
    if s.len() == 0 {
        0
    } else {
        seq_sum(s.drop_last()) + s.last()
    }
}

/// The position of the `pct`-th percentile in a sorted window of `len` values.
pub open spec fn percentile_index(len: nat, pct: nat) -> int {
    (len * pct / 100) as int
}

/// Counters and window of one backend.
pub struct BackendView {
    pub total: u64,
    pub successful: u64,
    pub failed: u64,
    pub times: Seq<u128>,
    pub active: u32,
    pub status: Seq<char>,
}

/// A backend seen for the first time.
pub open spec fn fresh_backend() -> BackendView {
    BackendView { total: 0, successful: 0, failed: 0, times: Seq::empty(), active: 0, status: "up"@ }
}

/// A backend after one request (counters wrap around at their maximum, as
/// atomic increments do) that took `nanos` and ended well or not.
pub open spec fn recorded(b: BackendView, success: bool, nanos: u128) -> BackendView {
    BackendView {
        total: b.total.wrapping_add(1),
        successful: if success { b.successful.wrapping_add(1) } else { b.successful },
        failed: if success { b.failed } else { b.failed.wrapping_add(1) },
        times: windowed(b.times, nanos, BACKEND_WINDOW as nat, BACKEND_CUT as nat),
        ..b
    }
}

/// The table with a pair for `name`, appended fresh if there was none.
pub open spec fn ensure_backend(bs: Seq<(Seq<char>, BackendView)>, name: Seq<char>) -> Seq<(Seq<char>, BackendView)> {
    if key_index(bs, name) >= 0 {
        bs
    } else {
        bs.push((name, fresh_backend()))
    }
}

/// The table with the pair for `name` (which it has) given value `b`.
pub open spec fn put_backend(bs: Seq<(Seq<char>, BackendView)>, name: Seq<char>, b: BackendView) -> Seq<(Seq<char>, BackendView)> {
    bs.update(key_index(bs, name), (name, b))
}

/// The value of the pair for `name` (which the table has).
pub open spec fn backend_of(bs: Seq<(Seq<char>, BackendView)>, name: Seq<char>) -> BackendView {
    bs[key_index(bs, name)].1
}

/// The table after `ensure_backend` for each name in turn.
pub open spec fn ensure_all(bs: Seq<(Seq<char>, BackendView)>, names: Seq<Seq<char>>) -> Seq<(Seq<char>, BackendView)>
    decreases names.len(),
{
    if names.len() == 0 {
        bs
    } else {
        ensure_backend(ensure_all(bs, names.drop_last()), names.last())
    }
}

/// A well-kept backend table: distinct names, bounded windows of durations.
pub open spec fn backends_wf(bs: Seq<(Seq<char>, BackendView)>) -> bool {
    &&& keys_distinct(bs)
    &&& forall|i: int| 0 <= i < bs.len() ==> (#[trigger] bs[i]).1.times.len() <= BACKEND_WINDOW && durations(bs[i].1.times)
}

pub struct BackendMetricsData {
    total_requests: u64,
    successful_requests: u64,
    failed_requests: u64,
    response_times: Vec<u128>,
    active_connections: u32,
    status: String,
}

impl View for BackendMetricsData {
    type V = BackendView;

    closed spec fn view(&self) -> BackendView {
        BackendView {
            total: self.total_requests,
            successful: self.successful_requests,
            failed: self.failed_requests,
            times: self.response_times@,
            active: self.active_connections,
            status: self.status@,
        }
    }
}

impl BackendMetricsData {
    fn new() -> (r: Self)
        ensures
            r@ == fresh_backend(),
    {
        let r = BackendMetricsData {
            total_requests: 0,
            successful_requests: 0,
            failed_requests: 0,
            response_times: Vec::new(),
            active_connections: 0,
            status: String::from_str("up"),
        };
        r
    }
}

/// Appends `x` to a window, dropping its `cut` oldest values once it holds
/// more than `cap`.
fn push_windowed(v: &mut Vec<u128>, x: u128, cap: usize, cut: usize)
    requires
        cut <= cap + 1,
    ensures
        final(v)@ == windowed(old(v)@, x, cap as nat, cut as nat),
{
    v.push(x);
    if v.len() > cap {
        let mut kept: Vec<u128> = Vec::new();
        let mut i: usize = cut;
        while i < v.len()
            invariant
                cut <= i <= v.len(),
                kept@ == v@.subrange(cut as int, i as int),
            decreases v.len() - i,
        {
            kept.push(v[i]);
            assert(kept@ =~= v@.subrange(cut as int, i + 1));
            i = i + 1;
        }
        assert(kept@ =~= v@.skip(cut as int));
        *v = kept;
    }
}

/// Position of `name` in the table, searching from the end.
fn find_backend(bs: &Vec<(String, BackendMetricsData)>, name: &str) -> (r: Option<usize>)
    ensures
        r is None ==> key_index(table_of(bs@), name@) == -1,
        r matches Some(i) ==> i == key_index(table_of(bs@), name@) && i < bs@.len(),
{
    let ghost t = table_of(bs@);
    proof {
        lemma_key_index(t, name@);
    }
    let mut i = bs.len();
    while i > 0
        invariant
            i <= bs@.len(),
            t == table_of(bs@),
            forall|k: int| i <= k < t.len() ==> (#[trigger] t[k]).0 != name@,
            -1 <= key_index(t, name@) < t.len(),
            key_index(t, name@) >= 0 ==> t[key_index(t, name@)].0 == name@,
        decreases i,
    {
        if str_eq(bs[i - 1].0.as_str(), name) {
            proof {
                lemma_last_key(t, name@, i - 1);
            }
            return Some(i - 1);
        }
        i = i - 1;
    }
    None
}

/// The backend table as names and views.
pub open spec fn table_of(bs: Seq<(String, BackendMetricsData)>) -> Seq<(Seq<char>, BackendView)> {
    bs.map_values(|p: (String, BackendMetricsData)| (p.0@, p.1@))
}

/// Order statistics of a window of response times, in nanoseconds.
pub struct ResponseTimeSummary {
    pub count: usize,
    pub sum_nanos: u128,
    pub min_nanos: u128,
    pub max_nanos: u128,
    pub p50_nanos: u128,
    pub p95_nanos: u128,
    pub p99_nanos: u128,
}

/// What a backend reports in a snapshot.
pub struct BackendSummary {
    pub name: String,
    pub total_requests: u64,
    pub successful_requests: u64,
    pub failed_requests: u64,
    /// Number of response times in the backend's window, and their sum.
    pub count: usize,
    pub sum_nanos: u128,
    /// The most recent response time.
    pub last_nanos: Option<u128>,
    pub active_connections: u64,
    pub status: String,
}

/// All counters and windows of the collector.
pub struct MetricsView {
    pub total: u64,
    pub successful: u64,
    pub failed: u64,
    pub times: Seq<u128>,
    pub backends: Seq<(Seq<char>, BackendView)>,
}

pub struct MetricsCollector {
    total_requests: u64,
    successful_requests: u64,
    failed_requests: u64,
    response_times: Vec<u128>,
    backend_metrics: Vec<(String, BackendMetricsData)>,
}

impl View for MetricsCollector {
    type V = MetricsView;

    closed spec fn view(&self) -> MetricsView {
        MetricsView {
            total: self.total_requests,
            successful: self.successful_requests,
            failed: self.failed_requests,
            times: self.response_times@,
            backends: table_of(self.backend_metrics@),
        }
    }
}

proof fn lemma_nanos_le_total()
    ensures
        total_ordering(nanos_le()),
{
    let le = nanos_le();
    assert forall|x: u128| #[trigger] le(x, x) by {}
    assert forall|x: u128, y: u128| #[trigger] le(x, y) && #[trigger] le(y, x) implies x == y by {}
    assert forall|x: u128, y: u128, z: u128| #[trigger] le(x, y) && #[trigger] le(y, z) implies le(x, z) by {}
    assert forall|x: u128, y: u128| #[trigger] le(x, y) || #[trigger] le(y, x) by {}
}

/// A sorted copy of a window of response times.
fn sort_nanos(v: &Vec<u128>) -> (r: Vec<u128>)
    ensures
        r@ == v@.sort_by(nanos_le()),
{
    let ghost le = nanos_le();
    let mut r: Vec<u128> = Vec::new();
    let mut i: usize = 0;
    assert(r@ =~= v@.take(0));
    while i < v.len()
        invariant
            i <= v.len(),
            le == nanos_le(),
            sorted_by(r@, le),
            r@.to_multiset() == v@.take(i as int).to_multiset(),
        decreases v.len() - i,
    {
        let x = v[i];
        let mut pos: usize = 0;
        while pos < r.len() && r[pos] <= x
            invariant
                pos <= r.len(),
                forall|k: int| 0 <= k < pos ==> r@[k] <= x,
            decreases r.len() - pos,
        {
            pos = pos + 1;
        }
        let ghost before = r@;
        r.insert(pos, x);
        proof {
            assert(r@ =~= before.insert(pos as int, x));
            assert forall|a: int, b: int| 0 <= a < b < r@.len() implies #[trigger] le(r@[a], r@[b]) by {
                if b < pos {
                    assert(le(before[a], before[b]));
                } else if b == pos {
                    assert(r@[a] == before[a]);
                } else if a < pos {
                    assert(r@[b] == before[b - 1]);
                    assert(r@[a] == before[a]);
                    assert(le(before[a], before[b - 1]));
                } else if a == pos {
                    assert(r@[b] == before[b - 1]);
                    if pos < before.len() {
                        assert(before[pos as int] > x);
                        if b - 1 > pos {
                            assert(le(before[pos as int], before[b - 1]));
                        }
                    }
                } else {
                    assert(le(before[a - 1], before[b - 1]));
                }
            }
            assert(v@.take(i + 1) =~= v@.take(i as int).push(x));
            vstd::seq_lib::to_multiset_insert(before, pos as int, x);
            vstd::seq_lib::to_multiset_build(v@.take(i as int), x);
        }
        i = i + 1;
    }
    proof {
        assert(v@.take(v@.len() as int) =~= v@);
        lemma_nanos_le_total();
        v@.lemma_sort_by_ensures(le);
        vstd::seq_lib::lemma_sorted_unique(r@, v@.sort_by(le), le);
    }
    r
}

proof fn lemma_sum_bound(s: Seq<u128>)
    requires
        durations(s),
    ensures
        0 <= seq_sum(s) <= s.len() * MAX_DURATION_NANOS,
    decreases s.len(),
{
    if s.len() > 0 {
        assert(durations(s.drop_last())) by {
            assert forall|i: int| 0 <= i < s.drop_last().len() implies #[trigger] s.drop_last()[i] <= MAX_DURATION_NANOS by {
                assert(s.drop_last()[i] == s[i]);
            }
        }
        lemma_sum_bound(s.drop_last());
        assert(s.last() == s[s.len() - 1]);
    }
}

/// The sum of a window of response times.
fn sum_nanos(v: &Vec<u128>) -> (r: u128)
    requires
        v@.len() <= GLOBAL_WINDOW,
        durations(v@),
    ensures
        r == seq_sum(v@),
{
    let mut sum: u128 = 0;
    let mut i: usize = 0;
    while i < v.len()
        invariant
            i <= v.len(),
            v@.len() <= GLOBAL_WINDOW,
            durations(v@),
            sum == seq_sum(v@.take(i as int)),
        decreases v.len() - i,
    {
        proof {
            assert(v@.take(i + 1).drop_last() =~= v@.take(i as int));
            assert(durations(v@.take(i + 1))) by {
                assert forall|k: int| 0 <= k < v@.take(i + 1).len() implies #[trigger] v@.take(i + 1)[k] <= MAX_DURATION_NANOS by {
                    assert(v@.take(i + 1)[k] == v@[k]);
                }
            }
            lemma_sum_bound(v@.take(i + 1));
            assert((i + 1) * MAX_DURATION_NANOS <= GLOBAL_WINDOW * MAX_DURATION_NANOS) by (nonlinear_arith)
                requires
                    i + 1 <= GLOBAL_WINDOW,
            ;
        }
        sum = sum + v[i];
        i = i + 1;
    }
    assert(v@.take(v@.len() as int) =~= v@);
    sum
}

/// Makes sure the table has a pair for `name` and returns its position.
fn ensure_in(v: &mut Vec<(String, BackendMetricsData)>, name: &str) -> (i: usize)
    requires
        backends_wf(table_of(old(v)@)),
    ensures
        table_of(final(v)@) == ensure_backend(table_of(old(v)@), name@),
        backends_wf(table_of(final(v)@)),
        i < final(v)@.len(),
        i == key_index(table_of(final(v)@), name@),
{
    let ghost t0 = table_of(v@);
    proof {
        lemma_key_index(t0, name@);
    }
    match find_backend(v, name) {
        Some(i) => i,
        None => {
            v.push((name.to_string(), BackendMetricsData::new()));
            proof {
                let n = table_of(v@);
                assert(n =~= t0.push((name@, fresh_backend())));
                lemma_distinct_after_put(t0, name@, fresh_backend());
                lemma_last_key(n, name@, n.len() - 1);
                assert forall|k: int| 0 <= k < n.len() implies (#[trigger] n[k]).1.times.len() <= BACKEND_WINDOW
                    && durations(n[k].1.times) by {
                    if k < t0.len() {
                        assert(n[k] == t0[k]);
                    }
                }
            }
            v.len() - 1
        },
    }
}

/// Puts `data` back under `name` at position `i`, from which a pair of table
/// `t` was taken out.
fn put_back(v: &mut Vec<(String, BackendMetricsData)>, i: usize, name: String, data: BackendMetricsData, Ghost(t): Ghost<Seq<(Seq<char>, BackendView)>>)
    requires
        i < t.len(),
        table_of(old(v)@) == t.remove(i as int),
        t[i as int].0 == name@,
        backends_wf(t),
        data@.times.len() <= BACKEND_WINDOW,
        durations(data@.times),
    ensures
        table_of(final(v)@) == t.update(i as int, (name@, data@)),
        backends_wf(table_of(final(v)@)),
{
    let ghost d = data@;
    let ghost nm = name@;
    let ghost r = old(v)@;
    assert(table_of(r).len() == r.len());
    v.insert(i, (name, data));
    proof {
        let n = table_of(v@);
        assert forall|k: int| 0 <= k < n.len() implies #[trigger] n[k] == t.update(i as int, (nm, d))[k] by {
            if k < i {
                assert(v@[k] == r[k]);
                assert(n[k] == table_of(r)[k]);
            } else if k > i {
                assert(v@[k] == r[k - 1]);
                assert(n[k] == table_of(r)[k - 1]);
            } else {
                assert(v@[k].0@ == nm && v@[k].1@ == d);
            }
        }
        assert(n =~= t.update(i as int, (nm, d)));
        assert forall|a: int, c: int| 0 <= a < c < n.len() implies (#[trigger] n[a]).0 != (#[trigger] n[c]).0 by {
            assert(n[a].0 == t[a].0 && n[c].0 == t[c].0);
        }
        assert forall|k: int| 0 <= k < n.len() implies (#[trigger] n[k]).1.times.len() <= BACKEND_WINDOW
            && durations(n[k].1.times) by {
            if k != i {
                assert(n[k] == t[k]);
            }
        }
    }
}

impl MetricsCollector {
    #[verifier::type_invariant]
    closed spec fn wf(&self) -> bool {
        &&& self.response_times@.len() <= GLOBAL_WINDOW
        &&& durations(self.response_times@)
        &&& backends_wf(table_of(self.backend_metrics@))
    }

    pub fn new() -> (r: Self)
        ensures
            r@ == (MetricsView { total: 0, successful: 0, failed: 0, times: Seq::empty(), backends: Seq::empty() }),
    {
        let r = MetricsCollector {
            total_requests: 0,
            successful_requests: 0,
            failed_requests: 0,
            response_times: Vec::new(),
            backend_metrics: Vec::new(),
        };
        assert(table_of(r.backend_metrics@) =~= Seq::<(Seq<char>, BackendView)>::empty());
        r
    }

    fn take_backends(&mut self) -> (v: Vec<(String, BackendMetricsData)>)
        ensures
            table_of(v@) == old(self)@.backends,
            backends_wf(table_of(v@)),
            final(self)@ == (MetricsView { backends: Seq::empty(), ..old(self)@ }),
    {
        proof {
            use_type_invariant(&*self);
        }
        let mut v: Vec<(String, BackendMetricsData)> = Vec::new();
        std::mem::swap(&mut v, &mut self.backend_metrics);
        assert(table_of(self.backend_metrics@) =~= Seq::<(Seq<char>, BackendView)>::empty());
        v
    }

    /// Makes sure each named backend has counters, in order.
    pub fn init_backends(&mut self, backends: &Vec<String>)
        ensures
            final(self)@ == (MetricsView {
                backends: ensure_all(old(self)@.backends, backends@.map_values(|s: String| s@)),
                ..old(self)@
            }),
    {
        let ghost names = backends@.map_values(|s: String| s@);
        let mut v = self.take_backends();
        let mut k: usize = 0;
        while k < backends.len()
            invariant
                k <= backends.len(),
                names == backends@.map_values(|s: String| s@),
                backends_wf(table_of(v@)),
                table_of(v@) == ensure_all(old(self)@.backends, names.take(k as int)),
            decreases backends.len() - k,
        {
            assert(names.take(k + 1).drop_last() =~= names.take(k as int));
            assert(names.take(k + 1).last() == backends@[k as int]@);
            ensure_in(&mut v, backends[k].as_str());
            k = k + 1;
        }
        assert(names.take(backends@.len() as int) =~= names);
        proof {
            use_type_invariant(&*self);
        }
        self.backend_metrics = v;
    }

    /// Requests counted so far.
    pub fn total_requests(&self) -> (r: u64)
        ensures
            r == self@.total,
    {
        self.total_requests
    }

    /// Requests that ended well.
    pub fn successful_requests(&self) -> (r: u64)
        ensures
            r == self@.successful,
    {
        self.successful_requests
    }

    /// Requests that failed.
    pub fn failed_requests(&self) -> (r: u64)
        ensures
            r == self@.failed,
    {
        self.failed_requests
    }

    /// One more request (the counter wraps around at its maximum).
    pub fn increment_total_requests(&mut self)
        ensures
            final(self)@ == (MetricsView { total: old(self)@.total.wrapping_add(1), ..old(self)@ }),
    {
        proof {
            use_type_invariant(&*self);
        }
        self.total_requests = self.total_requests.wrapping_add(1);
    }

    /// One more request that ended well (the counter wraps around).
    pub fn increment_successful_requests(&mut self)
        ensures
            final(self)@ == (MetricsView { successful: old(self)@.successful.wrapping_add(1), ..old(self)@ }),
    {
        proof {
            use_type_invariant(&*self);
        }
        self.successful_requests = self.successful_requests.wrapping_add(1);
    }

    /// One more request that failed (the counter wraps around).
    pub fn increment_failed_requests(&mut self)
        ensures
            final(self)@ == (MetricsView { failed: old(self)@.failed.wrapping_add(1), ..old(self)@ }),
    {
        proof {
            use_type_invariant(&*self);
        }
        self.failed_requests = self.failed_requests.wrapping_add(1);
    }

    /// Adds a response time (a `Duration`, in nanoseconds) to the global window.
    pub fn record_response_time(&mut self, nanos: u128)
        requires
            nanos <= MAX_DURATION_NANOS,
        ensures
            final(self)@ == (MetricsView {
                times: windowed(old(self)@.times, nanos, GLOBAL_WINDOW as nat, GLOBAL_CUT as nat),
                ..old(self)@
            }),
    {
        proof {
            use_type_invariant(&*self);
        }
        let mut times: Vec<u128> = Vec::new();
        std::mem::swap(&mut times, &mut self.response_times);
        let ghost t0 = times@;
        push_windowed(&mut times, nanos, GLOBAL_WINDOW, GLOBAL_CUT);
        proof {
            let w = times@;
            assert forall|i: int| 0 <= i < w.len() implies #[trigger] w[i] <= MAX_DURATION_NANOS by {
                if t0.len() + 1 > GLOBAL_WINDOW {
                    assert(w[i] == t0.push(nanos)[i + GLOBAL_CUT]);
                } else {
                    assert(w[i] == t0.push(nanos)[i]);
                }
            }
        }
        self.response_times = times;
    }

    /// Counts a request to `backend` that took `nanos` and ended well or not,
    /// creating the backend's counters if it has none.
    pub fn record_backend_request(&mut self, backend: &str, success: bool, nanos: u128)
        requires
            nanos <= MAX_DURATION_NANOS,
        ensures
            final(self)@ == (MetricsView {
                backends: put_backend(
                    ensure_backend(old(self)@.backends, backend@),
                    backend@,
                    recorded(backend_of(ensure_backend(old(self)@.backends, backend@), backend@), success, nanos),
                ),
                ..old(self)@
            }),
    {
        let mut v = self.take_backends();
        let i = ensure_in(&mut v, backend);
        let ghost t1 = table_of(v@);
        proof {
            lemma_key_index(t1, backend@);
        }
        let (name, mut d) = v.remove(i);
        assert(table_of(v@) =~= t1.remove(i as int));
        assert(t1[i as int] == (name@, d@));
        let ghost before = d@;
        d.total_requests = d.total_requests.wrapping_add(1);
        if success {
            d.successful_requests = d.successful_requests.wrapping_add(1);
        } else {
            d.failed_requests = d.failed_requests.wrapping_add(1);
        }
        push_windowed(&mut d.response_times, nanos, BACKEND_WINDOW, BACKEND_CUT);
        proof {
            let w = d@.times;
            let t0 = before.times;
            assert(durations(t0) && t0.len() <= BACKEND_WINDOW);
            assert forall|k: int| 0 <= k < w.len() implies #[trigger] w[k] <= MAX_DURATION_NANOS by {
                if t0.len() + 1 > BACKEND_WINDOW {
                    assert(w[k] == t0.push(nanos)[k + BACKEND_CUT]);
                } else {
                    assert(w[k] == t0.push(nanos)[k]);
                }
            }
            assert(d@ == recorded(before, success, nanos));
        }
        put_back(&mut v, i, name, d, Ghost(t1));
        proof {
            use_type_invariant(&*self);
        }
        self.backend_metrics = v;
    }

    /// One more open connection to `backend` (the counter wraps around at its
    /// maximum), creating the backend's counters if it has none.
    pub fn increment_backend_connections(&mut self, backend: &str)
        ensures
            final(self)@ == (MetricsView {
                backends: put_backend(
                    ensure_backend(old(self)@.backends, backend@),
                    backend@,
                    BackendView {
                        active: backend_of(ensure_backend(old(self)@.backends, backend@), backend@).active.wrapping_add(1),
                        ..backend_of(ensure_backend(old(self)@.backends, backend@), backend@)
                    },
                ),
                ..old(self)@
            }),
    {
        let mut v = self.take_backends();
        let i = ensure_in(&mut v, backend);
        let ghost t1 = table_of(v@);
        proof {
            lemma_key_index(t1, backend@);
        }
        let (name, mut d) = v.remove(i);
        assert(table_of(v@) =~= t1.remove(i as int));
        assert(t1[i as int] == (name@, d@));
        d.active_connections = d.active_connections.wrapping_add(1);
        put_back(&mut v, i, name, d, Ghost(t1));
        proof {
            use_type_invariant(&*self);
        }
        self.backend_metrics = v;
    }

    /// One open connection fewer to `backend` (never below zero); a backend
    /// without counters is left alone.
    pub fn decrement_backend_connections(&mut self, backend: &str)
        ensures
            key_index(old(self)@.backends, backend@) < 0 ==> final(self)@ == old(self)@,
            key_index(old(self)@.backends, backend@) >= 0 ==> final(self)@ == (MetricsView {
                backends: put_backend(
                    old(self)@.backends,
                    backend@,
                    BackendView {
                        active: if backend_of(old(self)@.backends, backend@).active > 0 {
                            (backend_of(old(self)@.backends, backend@).active - 1) as u32
                        } else {
                            0
                        },
                        ..backend_of(old(self)@.backends, backend@)
                    },
                ),
                ..old(self)@
            }),
    {
        let mut v = self.take_backends();
        let ghost t1 = table_of(v@);
        proof {
            lemma_key_index(t1, backend@);
        }
        match find_backend(&v, backend) {
            Some(i) => {
                let (name, mut d) = v.remove(i);
                assert(table_of(v@) =~= t1.remove(i as int));
                assert(t1[i as int] == (name@, d@));
                d.active_connections = d.active_connections.saturating_sub(1);
                put_back(&mut v, i, name, d, Ghost(t1));
            },
            None => {},
        }
        proof {
            use_type_invariant(&*self);
        }
        self.backend_metrics = v;
    }

    /// Marks `backend` "up" or "down"; a backend without counters is left alone.
    pub fn update_backend_status(&mut self, backend: &str, healthy: bool)
        ensures
            key_index(old(self)@.backends, backend@) < 0 ==> final(self)@ == old(self)@,
            key_index(old(self)@.backends, backend@) >= 0 ==> final(self)@ == (MetricsView {
                backends: put_backend(
                    old(self)@.backends,
                    backend@,
                    BackendView {
                        status: if healthy { "up"@ } else { "down"@ },
                        ..backend_of(old(self)@.backends, backend@)
                    },
                ),
                ..old(self)@
            }),
    {
        let mut v = self.take_backends();
        let ghost t1 = table_of(v@);
        proof {
            lemma_key_index(t1, backend@);
        }
        match find_backend(&v, backend) {
            Some(i) => {
                let (name, mut d) = v.remove(i);
                assert(table_of(v@) =~= t1.remove(i as int));
                assert(t1[i as int] == (name@, d@));
                d.status = if healthy { String::from_str("up") } else { String::from_str("down") };
                put_back(&mut v, i, name, d, Ghost(t1));
            },
            None => {},
        }
        proof {
            use_type_invariant(&*self);
        }
        self.backend_metrics = v;
    }

    /// Zeroes the global counters and empties the global window; the backends
    /// keep theirs.
    pub fn reset(&mut self)
        ensures
            final(self)@ == (MetricsView { total: 0, successful: 0, failed: 0, times: Seq::empty(), ..old(self)@ }),
    {
        proof {
            use_type_invariant(&*self);
        }
        self.total_requests = 0;
        self.successful_requests = 0;
        self.failed_requests = 0;
        self.response_times = Vec::new();
    }

    /// Order statistics of the global window: with `o` the window sorted,
    /// the least and greatest value and `o[len * p / 100]` for p = 50, 95, 99;
    /// all zero for an empty window.
    pub fn summary(&self) -> (r: ResponseTimeSummary)
        ensures
            r.count == self@.times.len(),
            r.sum_nanos == seq_sum(self@.times),
            self@.times.len() == 0 ==> r.min_nanos == 0 && r.max_nanos == 0 && r.p50_nanos == 0 && r.p95_nanos == 0
                && r.p99_nanos == 0,
            self@.times.len() > 0 ==> {
                let o = self@.times.sort_by(nanos_le());
                let n = self@.times.len();
                &&& r.min_nanos == o[0]
                &&& r.max_nanos == o[n - 1]
                &&& r.p50_nanos == o[percentile_index(n, 50)]
                &&& r.p95_nanos == o[percentile_index(n, 95)]
                &&& r.p99_nanos == o[percentile_index(n, 99)]
            },
    {
        proof {
            use_type_invariant(self);
        }
        let n = self.response_times.len();
        let sum = sum_nanos(&self.response_times);
        if n == 0 {
            return ResponseTimeSummary {
                count: 0,
                sum_nanos: sum,
                min_nanos: 0,
                max_nanos: 0,
                p50_nanos: 0,
                p95_nanos: 0,
                p99_nanos: 0,
            };
        }
        let o = sort_nanos(&self.response_times);
        proof {
            lemma_nanos_le_total();
            self.response_times@.lemma_sort_by_ensures(nanos_le());
            vstd::seq_lib::to_multiset_len(self.response_times@);
            vstd::seq_lib::to_multiset_len(o@);
            assert(n * 50 / 100 < n) by (nonlinear_arith)
                requires
                    n > 0,
            ;
            assert(n * 95 / 100 < n) by (nonlinear_arith)
                requires
                    n > 0,
            ;
            assert(n * 99 / 100 < n) by (nonlinear_arith)
                requires
                    n > 0,
            ;
        }
        ResponseTimeSummary {
            count: n,
            sum_nanos: sum,
            min_nanos: o[0],
            max_nanos: o[n - 1],
            p50_nanos: o[n * 50 / 100],
            p95_nanos: o[n * 95 / 100],
            p99_nanos: o[n * 99 / 100],
        }
    }

    /// What each backend reports, in table order.
    pub fn backend_summaries(&self) -> (r: Vec<BackendSummary>)
        ensures
            r@.len() == self@.backends.len(),
            forall|k: int| 0 <= k < r@.len() ==> {
                let b = #[trigger] self@.backends[k];
                let s = r@[k];
                &&& s.name@ == b.0
                &&& s.total_requests == b.1.total
                &&& s.successful_requests == b.1.successful
                &&& s.failed_requests == b.1.failed
                &&& s.count == b.1.times.len()
                &&& s.sum_nanos == seq_sum(b.1.times)
                &&& s.last_nanos == (if b.1.times.len() > 0 { Some(b.1.times.last()) } else { None })
                &&& s.active_connections == b.1.active as u64
                &&& s.status@ == b.1.status
            },
    {
        proof {
            use_type_invariant(self);
        }
        let ghost t = self@.backends;
        let mut r: Vec<BackendSummary> = Vec::new();
        let mut k: usize = 0;
        while k < self.backend_metrics.len()
            invariant
                k <= self.backend_metrics@.len(),
                t == table_of(self.backend_metrics@),
                backends_wf(t),
                r@.len() == k,
                forall|j: int| 0 <= j < k ==> {
                    let b = #[trigger] t[j];
                    let s = r@[j];
                    &&& s.name@ == b.0
                    &&& s.total_requests == b.1.total
                    &&& s.successful_requests == b.1.successful
                    &&& s.failed_requests == b.1.failed
                    &&& s.count == b.1.times.len()
                    &&& s.sum_nanos == seq_sum(b.1.times)
                    &&& s.last_nanos == (if b.1.times.len() > 0 { Some(b.1.times.last()) } else { None })
                    &&& s.active_connections == b.1.active as u64
                    &&& s.status@ == b.1.status
                },
            decreases self.backend_metrics.len() - k,
        {
            let (name, d) = &self.backend_metrics[k];
            assert(t[k as int] == (name@, d@));
            let n = d.response_times.len();
            let last = if n > 0 { Some(d.response_times[n - 1]) } else { None };
            let s = BackendSummary {
                name: name.clone(),
                total_requests: d.total_requests,
                successful_requests: d.successful_requests,
                failed_requests: d.failed_requests,
                count: n,
                sum_nanos: sum_nanos(&d.response_times),
                last_nanos: last,
                active_connections: d.active_connections as u64,
                status: d.status.clone(),
            };
            r.push(s);
            k = k + 1;
        }
        r
    }
}

/// A window that held at most `cap` values holds at most `cap` after one more
/// is added (when a cut drops at least one value), and its newest value is
/// the one just added.
pub proof fn lemma_window_bounded(s: Seq<u128>, x: u128, cap: nat, cut: nat)
    requires
        s.len() <= cap,
        1 <= cut <= cap,
    ensures
        windowed(s, x, cap, cut).len() <= cap,
        windowed(s, x, cap, cut).len() > 0,
        windowed(s, x, cap, cut).last() == x,
{
    let t = s.push(x);
    if t.len() > cap {
        assert(t.skip(cut as int).last() == t.last());
    }
}

/// The reported order statistics of a window are in order: least, median,
/// 95th and 99th percentile, greatest.
pub proof fn lemma_percentiles_ordered(times: Seq<u128>)
    requires
        times.len() > 0,
    ensures
        ({
            let o = times.sort_by(nanos_le());
            let n = times.len();
            &&& o[0] <= o[percentile_index(n, 50)]
            &&& o[percentile_index(n, 50)] <= o[percentile_index(n, 95)]
            &&& o[percentile_index(n, 95)] <= o[percentile_index(n, 99)]
            &&& o[percentile_index(n, 99)] <= o[n - 1]
        }),
{
    let o = times.sort_by(nanos_le());
    let n = times.len();
    lemma_nanos_le_total();
    times.lemma_sort_by_ensures(nanos_le());
    vstd::seq_lib::to_multiset_len(times);
    vstd::seq_lib::to_multiset_len(o);
    assert(n * 50 / 100 <= n * 95 / 100 <= n * 99 / 100 < n) by (nonlinear_arith)
        requires
            n > 0,
    ;
    let a = percentile_index(n, 50);
    let b = percentile_index(n, 95);
    let c = percentile_index(n, 99);
    assert(nanos_le()(o[0], o[a]) || a == 0);
    assert(nanos_le()(o[a], o[b]) || a == b);
    assert(nanos_le()(o[b], o[c]) || b == c);
    assert(nanos_le()(o[c], o[n - 1]) || c == n - 1);
}

/// Values all between `lo` and `hi` sum to between `len * lo` and `len * hi`.
proof fn lemma_sum_between(s: Seq<u128>, lo: int, hi: int)
    requires
        forall|i: int| 0 <= i < s.len() ==> lo <= #[trigger] s[i] <= hi,
    ensures
        s.len() * lo <= seq_sum(s) <= s.len() * hi,
    decreases s.len(),
{
    if s.len() > 0 {
        let d = s.drop_last();
        assert forall|i: int| 0 <= i < d.len() implies lo <= #[trigger] d[i] <= hi by {
            assert(d[i] == s[i]);
        }
        lemma_sum_between(d, lo, hi);
        assert(s.last() == s[s.len() - 1]);
        assert(s.len() * lo == d.len() * lo + lo) by (nonlinear_arith)
            requires
                s.len() == d.len() + 1,
        ;
        assert(s.len() * hi == d.len() * hi + hi) by (nonlinear_arith)
            requires
                s.len() == d.len() + 1,
        ;
    }
}

/// The average of a window lies between its least and greatest values: the
/// window's sum is at least `count` times the least and at most `count` times
/// the greatest.
pub proof fn lemma_average_between_min_and_max(times: Seq<u128>)
    requires
        times.len() > 0,
    ensures
        ({
            let o = times.sort_by(nanos_le());
            let n = times.len();
            &&& n * o[0] <= seq_sum(times)
            &&& seq_sum(times) <= n * o[n - 1]
        }),
{
    let o = times.sort_by(nanos_le());
    let n = times.len();
    lemma_nanos_le_total();
    times.lemma_sort_by_ensures(nanos_le());
    vstd::seq_lib::to_multiset_len(times);
    vstd::seq_lib::to_multiset_len(o);
    assert forall|i: int| 0 <= i < n implies o[0] <= #[trigger] times[i] <= o[n - 1] by {
        times.to_multiset_ensures();
        o.to_multiset_ensures();
        assert(times.contains(times[i]));
        assert(times.to_multiset().count(times[i]) > 0);
        assert(o.to_multiset().count(times[i]) > 0);
        assert(o.contains(times[i]));
        let j = choose|j: int| 0 <= j < o.len() && o[j] == times[i];
        assert(nanos_le()(o[0], o[j]) || j == 0);
        assert(nanos_le()(o[j], o[n - 1]) || j == n - 1);
    }
    lemma_sum_between(times, o[0] as int, o[n - 1] as int);
}

} // verus!
