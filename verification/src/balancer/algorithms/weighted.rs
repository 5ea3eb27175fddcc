//! Weighted round robin (the interleaved variant): servers are visited in
//! turn, and a server is taken only when its weight reaches the current
//! weight level, which drops by the weights' greatest common divisor after
//! each full round and restarts at the largest weight.
use super::spec::views;
use crate::backend::server::{Server, ServerView};
use crate::error::LoadBalancerError;
use vstd::prelude::*;

verus! {

/// Sum of the weights.
pub open spec fn weight_sum(s: Seq<ServerView>) -> int
    decreases s.len(),
{
    if s.len() == 0 {
        0
    } else {
        weight_sum(s.drop_last()) + s.last().weight
    }
}

/// Largest weight (0 for no servers).
pub open spec fn weight_max(s: Seq<ServerView>) -> int
    decreases s.len(),
{
    if s.len() == 0 {
        0
    } else {
        let m = weight_max(s.drop_last());
        if s.last().weight > m {
            s.last().weight as int
        } else {
            m
        }
    }
}

/// Greatest common divisor by Euclid's algorithm, `gcd(a, 0) == a`.
pub open spec fn gcd(a: nat, b: nat) -> nat
    decreases b,
{
    if b == 0 {
        a
    } else {
        gcd(b, a % b)
    }
}

/// `gcd` folded over the positive weights, starting from 0.
pub open spec fn weight_gcd_fold(s: Seq<ServerView>) -> nat
    decreases s.len(),
{
    if s.len() == 0 {
        0
    } else {
        let g = weight_gcd_fold(s.drop_last());
        if s.last().weight > 0 {
            gcd(g, s.last().weight as nat)
        } else {
            g
        }
    }
}

/// The step between weight levels: the gcd of the positive weights, at least 1.
pub open spec fn weight_step(s: Seq<ServerView>) -> int {
    if weight_gcd_fold(s) >= 1 {
        weight_gcd_fold(s) as int
    } else {
        1
    }
}

/// One move of the scan: to the next server, lowering the weight level by
/// `g` when the round restarts at server 0 (back to `maxw` once it would
/// reach 0 or below).
pub open spec fn wrr_step(n: int, idx: int, cw: int, g: int, maxw: int) -> (int, int) {
    let next = (idx + 1) % n;
    let level = if next == 0 {
        if cw - g <= 0 {
            maxw
        } else {
            cw - g
        }
    } else {
        cw
    };
    (next, level)
}

/// The scan for a server whose weight reaches the level, at most `fuel`
/// moves: whether one was found, and the index and level reached.
pub open spec fn wrr_scan(s: Seq<ServerView>, idx: int, cw: int, g: int, maxw: int, fuel: nat) -> (
    bool,
    int,
    int,
)
    decreases fuel,
{
    if fuel == 0 {
        (false, idx, cw)
    } else {
        let (next, level) = wrr_step(s.len() as int, idx, cw, g, maxw);
        if s[next].weight >= level {
            (true, next, level)
        } else {
            wrr_scan(s, next, level, g, maxw, (fuel - 1) as nat)
        }
    }
}

/// How many moves a scan may take: `len * max_weight / step`.
pub open spec fn wrr_fuel(s: Seq<ServerView>) -> nat {
    (s.len() * weight_max(s) / weight_step(s)) as nat
}

/// `i` is the first server with a positive weight.
pub open spec fn is_first_weighted(s: Seq<ServerView>, i: int) -> bool {
    &&& 0 <= i < s.len()
    &&& s[i].weight > 0
    &&& forall|j: int| 0 <= j < i ==> (#[trigger] s[j]).weight == 0
}

/// The selector's inputs stay within the ranges that its 32-bit arithmetic
/// handles: weights sum to at most `i32::MAX`, and `len * max_weight` fits
/// in `usize`.
pub open spec fn weights_in_range(s: Seq<ServerView>) -> bool {
    &&& weight_sum(s) <= i32::MAX
    &&& s.len() * weight_max(s) <= usize::MAX
}

/// A prefix of the servers weighs no more than all of them.
proof fn lemma_weight_sum_prefix(s: Seq<ServerView>, k: int)
    requires
        0 <= k <= s.len(),
    ensures
        weight_sum(s.take(k)) <= weight_sum(s),
    decreases s.len() - k,
{
    if k < s.len() {
        assert(s.drop_last().take(k) =~= s.take(k));
        lemma_weight_sum_prefix(s.drop_last(), k);
    } else {
        assert(s.take(k) =~= s);
    }
}

/// Whether the servers' weights are within the ranges the weighted selector
/// handles; see `weights_in_range`.
pub fn weights_fit(servers: &[Server]) -> (r: bool)
    ensures
        r == weights_in_range(views(servers@)),
{
    let ghost v = views(servers@);
    let mut sum: u64 = 0;
    let mut max: u32 = 0;
    let mut i: usize = 0;
    while i < servers.len()
        invariant
            v == views(servers@),
            i <= servers@.len(),
            sum == weight_sum(v.take(i as int)),
            max == weight_max(v.take(i as int)),
            sum <= i32::MAX,
        decreases servers.len() - i,
    {
        assert(v.take(i + 1).drop_last() =~= v.take(i as int));
        assert(v[i as int] == servers@[i as int]@);
        let w = servers[i].weight();
        let ns = sum + w as u64;
        if ns > 0x7fff_ffff {
            proof {
                lemma_weight_sum_prefix(v, i + 1);
            }
            return false;
        }
        sum = ns;
        if w > max {
            max = w;
        }
        i = i + 1;
    }
    assert(v.take(servers@.len() as int) =~= v);
    match servers.len().checked_mul(max as usize) {
        Some(_) => true,
        None => false,
    }
}

/// What one weighted round robin selection does, from position and level
/// (`pos`, `lvl`) to (`pos2`, `lvl2`).
pub open spec fn weighted_selected(
    servers: Seq<Server>,
    pos: usize,
    lvl: int,
    pos2: usize,
    lvl2: int,
    r: Result<Server, LoadBalancerError>,
) -> bool {
    &&& servers.len() == 0 <==> r is Err
    &&& r is Err ==> r->Err_0 is NoHealthyBackends && pos2 == pos && lvl2 == lvl
    &&& r is Ok && weight_sum(views(servers)) == 0 ==> {
        &&& r->Ok_0@ == servers[pos as int % servers.len() as int]@
        &&& pos2 == pos.wrapping_add(1)
        &&& lvl2 == lvl
    }
    &&& r is Ok && weight_sum(views(servers)) > 0 ==> {
        let s = views(servers);
        let scan = wrr_scan(s, pos as int, lvl, weight_step(s), weight_max(s), wrr_fuel(s));
        &&& pos2 == scan.1
        &&& lvl2 == scan.2
        &&& scan.0 ==> r->Ok_0@ == servers[scan.1]@
        &&& !scan.0 ==> exists|i: int| is_first_weighted(s, i) && r->Ok_0@ == #[trigger] servers[i]@
    }
}

pub struct WeightedRoundRobinSelector {
    current_index: usize,
    current_weight: i32,
}

proof fn lemma_weight_bounds(s: Seq<ServerView>)
    ensures
        weight_sum(s) >= 0,
        0 <= weight_max(s) <= weight_sum(s),
        forall|i: int| 0 <= i < s.len() ==> (#[trigger] s[i]).weight <= weight_max(s),
        weight_sum(s) == 0 ==> forall|i: int| 0 <= i < s.len() ==> (#[trigger] s[i]).weight == 0,
        s.len() > 0 && weight_sum(s) > 0 ==> weight_max(s) >= 1,
    decreases s.len(),
{
    if s.len() > 0 {
        lemma_weight_bounds(s.drop_last());
        assert forall|i: int| 0 <= i < s.len() implies (#[trigger] s[i]).weight <= weight_max(s) by {
            if i < s.len() - 1 {
                assert(s[i] == s.drop_last()[i]);
            }
        }
        if weight_sum(s) == 0 {
            assert forall|i: int| 0 <= i < s.len() implies (#[trigger] s[i]).weight == 0 by {
                if i < s.len() - 1 {
                    assert(s[i] == s.drop_last()[i]);
                }
            }
        }
    }
}

fn gcd_i32(a0: i32, b0: i32) -> (r: i32)
    requires
        a0 >= 0,
        b0 >= 0,
    ensures
        r as int == gcd(a0 as nat, b0 as nat),
{
    let mut a = a0;
    let mut b = b0;
    while b != 0
        invariant
            a >= 0,
            b >= 0,
            gcd(a as nat, b as nat) == gcd(a0 as nat, b0 as nat),
        decreases b,
    {
        let t = b;
        b = a % b;
        a = t;
    }
    a
}

proof fn lemma_gcd_bounds(a: nat, b: nat)
    ensures
        gcd(a, b) <= if a > b { a } else { b },
        a <= i32::MAX && b <= i32::MAX ==> gcd(a, b) <= i32::MAX,
    decreases b,
{
    if b > 0 {
        lemma_gcd_bounds(b, a % b);
    }
}

proof fn lemma_gcd_fold_bounded(s: Seq<ServerView>)
    requires
        forall|i: int| 0 <= i < s.len() ==> (#[trigger] s[i]).weight <= i32::MAX,
    ensures
        weight_gcd_fold(s) <= i32::MAX,
    decreases s.len(),
{
    if s.len() > 0 {
        assert forall|i: int| 0 <= i < s.drop_last().len() implies (#[trigger] s.drop_last()[i]).weight
            <= i32::MAX by {
            assert(s.drop_last()[i] == s[i]);
        }
        lemma_gcd_fold_bounded(s.drop_last());
        lemma_gcd_bounds(weight_gcd_fold(s.drop_last()), s.last().weight as nat);
    }
}

impl WeightedRoundRobinSelector {
    #[verifier::type_invariant]
    spec fn level_not_negative(&self) -> bool {
        self.current_weight >= 0
    }

    /// The position of the last selection.
    pub closed spec fn position(&self) -> usize {
        self.current_index
    }

    /// The current weight level.
    pub closed spec fn level(&self) -> int {
        self.current_weight as int
    }

    pub fn new() -> (s: Self)
        ensures
            s.position() == 0,
            s.level() == 0,
    {
        WeightedRoundRobinSelector { current_index: 0, current_weight: 0 }
    }

    /// The gcd of the positive weights, at least 1.
    fn gcd_weights(&self, servers: &[Server]) -> (g: i32)
        requires
            forall|i: int| 0 <= i < servers@.len() ==> (#[trigger] servers@[i])@.weight <= i32::MAX,
        ensures
            g as int == weight_step(views(servers@)),
    {
        let ghost s = views(servers@);
        let mut g: i32 = 0;
        let mut i: usize = 0;
        while i < servers.len()
            invariant
                s == views(servers@),
                i <= servers@.len(),
                forall|k: int| 0 <= k < servers@.len() ==> (#[trigger] servers@[k])@.weight <= i32::MAX,
                g >= 0,
                g as int == weight_gcd_fold(s.take(i as int)),
            decreases servers.len() - i,
        {
            let w = servers[i].weight();
            assert(s.take(i + 1).drop_last() =~= s.take(i as int));
            assert(s[i as int] == servers@[i as int]@);
            if w > 0 {
                proof {
                    assert forall|k: int| 0 <= k < s.take(i + 1).len() implies (#[trigger] s.take(
                        i + 1,
                    )[k]).weight <= i32::MAX by {
                        assert(s.take(i + 1)[k] == servers@[k]@);
                    }
                    lemma_gcd_fold_bounded(s.take(i + 1));
                }
                g = gcd_i32(g, w as i32);
            }
            i = i + 1;
        }
        assert(s.take(servers@.len() as int) =~= s);
        if g >= 1 {
            g
        } else {
            1
        }
    }

    /// Weighted round robin selection.
    ///
    /// An empty list is refused. When all weights are 0 the servers are taken
    /// in plain turn. Otherwise the scan `wrr_scan` runs from the last
    /// position and level for at most `wrr_fuel` moves; the server it finds is
    /// returned, and if it finds none, the first server with a positive
    /// weight. The position and level the scan reached are kept.
    pub fn select(&mut self, servers: &[Server]) -> (r: Result<Server, LoadBalancerError>)
        requires
            weights_in_range(views(servers@)),
        ensures
            weighted_selected(servers@, old(self).position(), old(self).level(), final(self).position(), final(self).level(), r),
    {
        proof {
            use_type_invariant(&*self);
        }
        let ghost s = views(servers@);
        let n = servers.len();
        if n == 0 {
            return Err(LoadBalancerError::NoHealthyBackends);
        }
        proof {
            lemma_weight_bounds(s);
        }
        // Sum of weights, and whether all are zero.
        let mut total: i32 = 0;
        let mut maxw: i32 = 0;
        let mut i: usize = 0;
        while i < n
            invariant
                s == views(servers@),
                n == servers@.len(),
                i <= n,
                weights_in_range(s),
                weight_sum(s) >= 0,
                0 <= weight_max(s) <= weight_sum(s),
                total as int == weight_sum(s.take(i as int)),
                maxw as int == weight_max(s.take(i as int)),
            decreases n - i,
        {
            proof {
                let t = s.take(i + 1);
                assert(t.drop_last() =~= s.take(i as int));
                lemma_weight_bounds(s.take(i as int));
                lemma_weight_prefix(s, i + 1);
            }
            let w = servers[i].weight();
            assert(s[i as int] == servers@[i as int]@);
            total = total + w as i32;
            if w as i32 > maxw {
                maxw = w as i32;
            }
            i = i + 1;
        }
        assert(s.take(n as int) =~= s);
        if total == 0 {
            let idx = self.current_index % n;
            self.current_index = self.current_index.wrapping_add(1);
            return Ok(servers[idx].clone());
        }
        proof {
            assert forall|k: int| 0 <= k < servers@.len() implies (#[trigger] servers@[k])@.weight
                <= i32::MAX by {
                assert(s[k] == servers@[k]@);
            }
        }
        let g = self.gcd_weights(servers);
        let ghost fuel0 = wrr_fuel(s);
        let max_iterations = n * (maxw as usize) / (g as usize);
        assert(max_iterations == fuel0);
        let ghost idx0 = self.current_index as int;
        let ghost cw0 = self.current_weight as int;
        let mut it: usize = 0;
        while it < max_iterations
            invariant
                s == views(servers@),
                n == servers@.len(),
                n > 0,
                1 <= maxw <= i32::MAX,
                maxw == weight_max(s),
                1 <= g,
                g as int == weight_step(s),
                forall|k: int| 0 <= k < n ==> (#[trigger] s[k]).weight <= maxw,
                it <= max_iterations,
                max_iterations == fuel0,
                fuel0 == wrr_fuel(s),
                weight_sum(s) > 0,
                idx0 == old(self).position() as int,
                cw0 == old(self).level(),
                self.current_index < n || it == 0,
                wrr_scan(s, idx0, cw0, g as int, maxw as int, fuel0) == wrr_scan(
                    s,
                    self.current_index as int,
                    self.current_weight as int,
                    g as int,
                    maxw as int,
                    (fuel0 - it) as nat,
                ),
            decreases max_iterations - it,
        {
            proof {
                use_type_invariant(&*self);
            }
            let next = (self.current_index % n + 1) % n;
            assert(next == (self.current_index as int + 1) % (n as int)) by (nonlinear_arith)
                requires
                    n > 0,
                    next == (self.current_index as int % n as int + 1) % n as int,
            ;
            let mut level = self.current_weight;
            if next == 0 {
                let lowered = self.current_weight - g;
                if lowered <= 0 {
                    level = maxw;
                } else {
                    level = lowered;
                }
            }
            self.current_index = next;
            self.current_weight = level;
            let w = servers[next].weight();
            assert(s[next as int] == servers@[next as int]@);
            if w as i32 >= level {
                assert(wrr_scan(s, idx0, cw0, g as int, maxw as int, fuel0) == (true, next as int, level as int));
                return Ok(servers[next].clone());
            }
            it = it + 1;
        }
        assert(wrr_scan(s, idx0, cw0, g as int, maxw as int, fuel0) == (
            false,
            self.current_index as int,
            self.current_weight as int,
        ));
        let ghost scan = wrr_scan(
            s,
            old(self).position() as int,
            old(self).level(),
            weight_step(s),
            weight_max(s),
            wrr_fuel(s),
        );
        assert(scan == (false, self.current_index as int, self.current_weight as int));
        let mut f: usize = 0;
        while f < n
            invariant
                scan == wrr_scan(
                    s,
                    old(self).position() as int,
                    old(self).level(),
                    weight_step(s),
                    weight_max(s),
                    wrr_fuel(s),
                ),
                scan == (false, self.current_index as int, self.current_weight as int),
                s == views(servers@),
                n == servers@.len(),
                f <= n,
                weight_sum(s) > 0,
                forall|k: int| 0 <= k < f ==> (#[trigger] s[k]).weight == 0,
            decreases n - f,
        {
            assert(s[f as int] == servers@[f as int]@);
            if servers[f].weight() > 0 {
                assert(is_first_weighted(s, f as int));
                return Ok(servers[f].clone());
            }
            f = f + 1;
        }
        proof {
            lemma_all_zero_sum(s);
        }
        Ok(servers[0].clone())
    }
}

proof fn lemma_weight_prefix(s: Seq<ServerView>, k: int)
    requires
        0 <= k <= s.len(),
    ensures
        weight_sum(s.take(k)) <= weight_sum(s),
        weight_max(s.take(k)) <= weight_max(s),
    decreases s.len() - k,
{
    if k < s.len() {
        assert(s.drop_last().take(k) =~= s.take(k));
        lemma_weight_prefix(s.drop_last(), k);
        lemma_weight_bounds(s.drop_last());
    } else {
        assert(s.take(k) =~= s);
    }
}

proof fn lemma_all_zero_sum(s: Seq<ServerView>)
    requires
        forall|k: int| 0 <= k < s.len() ==> (#[trigger] s[k]).weight == 0,
    ensures
        weight_sum(s) == 0,
    decreases s.len(),
{
    if s.len() > 0 {
        assert forall|k: int| 0 <= k < s.drop_last().len() implies (#[trigger] s.drop_last()[k]).weight
            == 0 by {
            assert(s.drop_last()[k] == s[k]);
        }
        lemma_all_zero_sum(s.drop_last());
    }
}

/// Once the weight level is positive it stays positive, and the scan only
/// ever settles on a server whose weight is at least 1: servers of weight 0
/// are never chosen (the fallback, too, takes a server of positive weight).
pub proof fn lemma_scan_skips_zero_weights(
    s: Seq<ServerView>,
    idx: int,
    cw: int,
    g: int,
    maxw: int,
    fuel: nat,
)
    requires
        s.len() > 0,
        cw >= 1,
        g >= 1,
        maxw >= 1,
    ensures
        wrr_scan(s, idx, cw, g, maxw, fuel).2 >= 1,
        wrr_scan(s, idx, cw, g, maxw, fuel).0 ==> 0 <= wrr_scan(s, idx, cw, g, maxw, fuel).1 < s.len()
            && s[wrr_scan(s, idx, cw, g, maxw, fuel).1].weight >= 1,
    decreases fuel,
{
    if fuel > 0 {
        let (next, level) = wrr_step(s.len() as int, idx, cw, g, maxw);
        assert(0 <= next < s.len());
        if s[next].weight < level {
            lemma_scan_skips_zero_weights(s, next, level, g, maxw, (fuel - 1) as nat);
        }
    }
}

impl Default for WeightedRoundRobinSelector {
    fn default() -> (r: Self)
        ensures
            r.position() == 0,
            r.level() == 0,
    {
        Self::new()
    }
}

} // verus!
