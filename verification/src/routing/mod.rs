//! Routing: the first route (by priority) whose conditions a request meets
//! names the backend group, and may rewrite the path.
use crate::text::{
    chars_of, ends_with, eq_ignore_case, seq_ends_with, seq_eq, seq_eq_ignore_case, seq_starts_with,
    starts_with, str_eq, string_of,
};
use vstd::prelude::*;

verus! {

pub open spec fn opt_text(o: Option<String>) -> Option<Seq<char>> {
    match o {
        Some(s) => Some(s@),
        None => None,
    }
}

/// The value of the first header named `k` (names compared exactly).
pub open spec fn header_lookup(h: Seq<(String, String)>, k: Seq<char>) -> Option<Seq<char>>
    decreases h.len(),
{
    if h.len() == 0 {
        None
    } else if h[0].0@ == k {
        Some(h[0].1@)
    } else {
        header_lookup(h.drop_first(), k)
    }
}

/// Header lookup is by name over the whole list: the value found under `k` is
/// that of the first header named `k`, wherever it stands, and nothing is
/// found when no header has that name.
pub proof fn lemma_header_lookup_first(h: Seq<(String, String)>, k: Seq<char>)
    ensures
        forall|j: int|
            0 <= j < h.len() && (#[trigger] h[j]).0@ == k && (forall|m: int| 0 <= m < j ==> (#[trigger] h[m]).0@ != k)
                ==> header_lookup(h, k) == Some(h[j].1@),
        (forall|m: int| 0 <= m < h.len() ==> (#[trigger] h[m]).0@ != k) ==> header_lookup(h, k) is None,
    decreases h.len(),
{
    if h.len() > 0 {
        let t = h.drop_first();
        lemma_header_lookup_first(t, k);
        assert forall|j: int|
            0 <= j < h.len() && (#[trigger] h[j]).0@ == k && (forall|m: int| 0 <= m < j ==> (#[trigger] h[m]).0@ != k)
                implies header_lookup(h, k) == Some(h[j].1@) by {
            if j > 0 {
                assert(h[0].0@ != k);
                assert(t[j - 1] == h[j]);
                assert forall|m: int| 0 <= m < j - 1 implies (#[trigger] t[m]).0@ != k by {
                    assert(t[m] == h[m + 1]);
                }
            }
        }
        if forall|m: int| 0 <= m < h.len() ==> (#[trigger] h[m]).0@ != k {
            assert(h[0].0@ != k);
            assert forall|m: int| 0 <= m < t.len() implies (#[trigger] t[m]).0@ != k by {
                assert(t[m] == h[m + 1]);
            }
        }
    }
}

/// The request's method is one of the allowed ones, ASCII case ignored.
pub open spec fn method_allowed(methods: Seq<String>, method: Seq<char>) -> bool {
    exists|i: int| 0 <= i < methods.len() && eq_ignore_case(#[trigger] methods[i]@, method)
}

/// The host is the required one or one of its subdomains.
pub open spec fn host_allowed(required: Seq<char>, host: Seq<char>) -> bool {
    host == required || ends_with(host, "."@ + required)
}

/// Every required header is present with the required value.
pub open spec fn headers_present(required: Seq<(String, String)>, headers: Seq<(String, String)>) -> bool {
    forall|i: int|
        0 <= i < required.len() ==> header_lookup(headers, (#[trigger] required[i]).0@) == Some(
            required[i].1@,
        )
}

/// Whether a route applies to a request.
pub open spec fn route_matches(
    r: Route,
    method: Seq<char>,
    path: Seq<char>,
    host: Option<Seq<char>>,
    headers: Seq<(String, String)>,
) -> bool {
    &&& r.methods matches Some(ms) ==> method_allowed(ms@, method)
    &&& r.host matches Some(req) ==> (host matches Some(h) && host_allowed(req@, h))
    &&& r.path_exact matches Some(exact) ==> path == exact@
    &&& r.path_prefix matches Some(prefix) ==> starts_with(path, prefix@)
    &&& r.headers matches Some(req) ==> headers_present(req@, headers)
}

/// The path a route forwards: with both a prefix and a rewrite, a path under
/// the prefix has the prefix replaced by the rewrite.
pub open spec fn rewritten(r: Route, path: Seq<char>) -> Seq<char> {
    match (r.path_prefix, r.rewrite_path) {
        (Some(prefix), Some(rewrite)) => if starts_with(path, prefix@) {
            rewrite@ + path.skip(prefix@.len() as int)
        } else {
            path
        },
        _ => path,
    }
}

pub struct Route {
    pub path_prefix: Option<String>,
    pub path_exact: Option<String>,
    pub path_regex: Option<String>,
    pub host: Option<String>,
    pub methods: Option<Vec<String>>,
    /// Headers the request must carry, as (name, value) pairs.
    pub headers: Option<Vec<(String, String)>>,
    pub backend_group: String,
    pub priority: i32,
    pub rewrite_path: Option<String>,
    pub add_headers: Vec<(String, String)>,
    pub remove_headers: Vec<String>,
}

fn clone_opt(o: &Option<String>) -> (r: Option<String>)
    ensures
        r == *o,
{
    match o {
        Some(s) => Some(s.clone()),
        None => None,
    }
}

fn clone_strings(v: &Vec<String>) -> (r: Vec<String>)
    ensures
        r@ == v@,
{
    let mut r: Vec<String> = Vec::new();
    let mut i: usize = 0;
    while i < v.len()
        invariant
            i <= v.len(),
            r@ == v@.take(i as int),
        decreases v.len() - i,
    {
        r.push(v[i].clone());
        assert(r@ =~= v@.take(i + 1));
        i = i + 1;
    }
    assert(v@.take(v.len() as int) =~= v@);
    r
}

fn clone_pairs(v: &Vec<(String, String)>) -> (r: Vec<(String, String)>)
    ensures
        r@ == v@,
{
    let mut r: Vec<(String, String)> = Vec::new();
    let mut i: usize = 0;
    while i < v.len()
        invariant
            i <= v.len(),
            r@ == v@.take(i as int),
        decreases v.len() - i,
    {
        let (a, b) = &v[i];
        r.push((a.clone(), b.clone()));
        assert(r@ =~= v@.take(i + 1));
        i = i + 1;
    }
    assert(v@.take(v.len() as int) =~= v@);
    r
}

/// Two routes with the same conditions, target and rewrite.
pub open spec fn same_route(a: Route, b: Route) -> bool {
    &&& a.path_prefix == b.path_prefix
    &&& a.path_exact == b.path_exact
    &&& a.path_regex == b.path_regex
    &&& a.host == b.host
    &&& (a.methods is Some <==> b.methods is Some)
    &&& a.methods is Some ==> a.methods->0@ == b.methods->0@
    &&& (a.headers is Some <==> b.headers is Some)
    &&& a.headers is Some ==> a.headers->0@ == b.headers->0@
    &&& a.backend_group == b.backend_group
    &&& a.priority == b.priority
    &&& a.rewrite_path == b.rewrite_path
    &&& a.add_headers@ == b.add_headers@
    &&& a.remove_headers@ == b.remove_headers@
}

impl Clone for Route {
    fn clone(&self) -> (r: Self)
        ensures
            same_route(r, *self),
    {
        Route {
            path_prefix: clone_opt(&self.path_prefix),
            path_exact: clone_opt(&self.path_exact),
            path_regex: clone_opt(&self.path_regex),
            host: clone_opt(&self.host),
            methods: match &self.methods {
                Some(m) => Some(clone_strings(m)),
                None => None,
            },
            headers: match &self.headers {
                Some(h) => Some(clone_pairs(h)),
                None => None,
            },
            backend_group: self.backend_group.clone(),
            priority: self.priority,
            rewrite_path: clone_opt(&self.rewrite_path),
            add_headers: clone_pairs(&self.add_headers),
            remove_headers: clone_strings(&self.remove_headers),
        }
    }
}

fn lookup(headers: &Vec<(String, String)>, key: &Vec<char>) -> (r: Option<Vec<char>>)
    ensures
        match r {
            Some(v) => header_lookup(headers@, key@) == Some(v@),
            None => header_lookup(headers@, key@) is None,
        },
{
    let mut i: usize = 0;
    assert(headers@.skip(0) =~= headers@);
    while i < headers.len()
        invariant
            i <= headers.len(),
            header_lookup(headers@, key@) == header_lookup(headers@.skip(i as int), key@),
        decreases headers.len() - i,
    {
        let name = chars_of(headers[i].0.as_str());
        assert(headers@.skip(i as int)[0] == headers@[i as int]);
        assert(headers@.skip(i as int).drop_first() =~= headers@.skip(i + 1));
        if seq_eq(&name, key) {
            return Some(chars_of(headers[i].1.as_str()));
        }
        i = i + 1;
    }
    None
}

impl Route {
    /// A route to `backend_group` with no conditions, priority 0.
    pub fn new(backend_group: String) -> (r: Self)
        ensures
            r.path_prefix is None,
            r.path_exact is None,
            r.path_regex is None,
            r.host is None,
            r.methods is None,
            r.headers is None,
            r.backend_group@ == backend_group@,
            r.priority == 0,
            r.rewrite_path is None,
            r.add_headers@.len() == 0,
            r.remove_headers@.len() == 0,
    {
        Route {
            path_prefix: None,
            path_exact: None,
            path_regex: None,
            host: None,
            methods: None,
            headers: None,
            backend_group,
            priority: 0,
            rewrite_path: None,
            add_headers: Vec::new(),
            remove_headers: Vec::new(),
        }
    }

    pub fn with_path_prefix(self, prefix: &str) -> (r: Self)
        ensures
            r == (Route { path_prefix: r.path_prefix, ..self }),
            opt_text(r.path_prefix) == Some(prefix@),
    {
        Route { path_prefix: Some(prefix.to_string()), ..self }
    }

    pub fn with_path_exact(self, path: &str) -> (r: Self)
        ensures
            r == (Route { path_exact: r.path_exact, ..self }),
            opt_text(r.path_exact) == Some(path@),
    {
        Route { path_exact: Some(path.to_string()), ..self }
    }

    pub fn with_host(self, host: &str) -> (r: Self)
        ensures
            r == (Route { host: r.host, ..self }),
            opt_text(r.host) == Some(host@),
    {
        Route { host: Some(host.to_string()), ..self }
    }

    pub fn with_methods(self, methods: Vec<&str>) -> (r: Self)
        ensures
            r == (Route { methods: r.methods, ..self }),
            r.methods is Some,
            r.methods->0@.len() == methods@.len(),
            forall|i: int| 0 <= i < methods@.len() ==> (#[trigger] r.methods->0@[i])@ == methods@[i]@,
    {
        let mut v: Vec<String> = Vec::new();
        let mut i: usize = 0;
        while i < methods.len()
            invariant
                i <= methods.len(),
                v@.len() == i,
                forall|k: int| 0 <= k < i ==> (#[trigger] v@[k])@ == methods@[k]@,
            decreases methods.len() - i,
        {
            v.push(methods[i].to_string());
            i = i + 1;
        }
        Route { methods: Some(v), ..self }
    }

    pub fn with_priority(self, priority: i32) -> (r: Self)
        ensures
            r == (Route { priority, ..self }),
    {
        Route { priority, ..self }
    }

    pub fn with_rewrite(self, rewrite: &str) -> (r: Self)
        ensures
            r == (Route { rewrite_path: r.rewrite_path, ..self }),
            opt_text(r.rewrite_path) == Some(rewrite@),
    {
        Route { rewrite_path: Some(rewrite.to_string()), ..self }
    }

    /// Whether the route applies: the method is allowed (ASCII case
    /// ignored), the host is the required one or a subdomain of it, the path
    /// equals the exact path and starts with the prefix, and every required
    /// header is present with its value. Absent conditions always hold.
    pub fn matches(&self, method: &str, path: &str, host: Option<&str>, headers: &Vec<(String, String)>) -> (r:
        bool)
        ensures
            r == route_matches(
                *self,
                method@,
                path@,
                match host {
                    Some(h) => Some(h@),
                    None => None,
                },
                headers@,
            ),
    {
        let path_chars = chars_of(path);
        if let Some(allowed) = &self.methods {
            let m = chars_of(method);
            let mut found = false;
            let mut i: usize = 0;
            while i < allowed.len()
                invariant
                    i <= allowed.len(),
                    m@ == method@,
                    found <==> exists|k: int| 0 <= k < i && eq_ignore_case(#[trigger] allowed@[k]@, method@),
                decreases allowed.len() - i,
            {
                let a = chars_of(allowed[i].as_str());
                if seq_eq_ignore_case(&a, &m) {
                    found = true;
                }
                i = i + 1;
            }
            if !found {
                return false;
            }
        }
        if let Some(required) = &self.host {
            match host {
                Some(h) => {
                    let hc = chars_of(h);
                    let rc = chars_of(required.as_str());
                    let mut dotted: Vec<char> = Vec::new();
                    dotted.push('.');
                    let mut i: usize = 0;
                    while i < rc.len()
                        invariant
                            i <= rc.len(),
                            dotted@ == seq!['.'] + rc@.take(i as int),
                        decreases rc.len() - i,
                    {
                        dotted.push(rc[i]);
                        assert(dotted@ =~= seq!['.'] + rc@.take(i + 1));
                        i = i + 1;
                    }
                    proof {
                        assert(rc@.take(rc@.len() as int) =~= rc@);
                        reveal_strlit(".");
                        assert("."@ =~= seq!['.']);
                    }
                    if !(seq_eq(&hc, &rc) || seq_ends_with(&hc, &dotted)) {
                        return false;
                    }
                },
                None => {
                    return false;
                },
            }
        }
        if let Some(exact) = &self.path_exact {
            let e = chars_of(exact.as_str());
            if !seq_eq(&path_chars, &e) {
                return false;
            }
        }
        if let Some(prefix) = &self.path_prefix {
            let p = chars_of(prefix.as_str());
            if !seq_starts_with(&path_chars, &p) {
                return false;
            }
        }
        if let Some(required) = &self.headers {
            let mut i: usize = 0;
            while i < required.len()
                invariant
                    i <= required.len(),
                    self.headers is Some,
                    self.headers->0@ == required@,
                    forall|k: int|
                        0 <= k < i ==> header_lookup(headers@, (#[trigger] required@[k]).0@) == Some(
                            required@[k].1@,
                        ),
                decreases required.len() - i,
            {
                let key = chars_of(required[i].0.as_str());
                let want = chars_of(required[i].1.as_str());
                match lookup(headers, &key) {
                    Some(v) => {
                        if !seq_eq(&v, &want) {
                            assert(!headers_present(required@, headers@)) by {
                                assert(header_lookup(headers@, required@[i as int].0@) != Some(
                                    required@[i as int].1@,
                                ));
                            }
                            return false;
                        }
                    },
                    None => {
                        assert(!headers_present(required@, headers@)) by {
                            assert(header_lookup(headers@, required@[i as int].0@) != Some(
                                required@[i as int].1@,
                            ));
                        }
                        return false;
                    },
                }
                i = i + 1;
            }
        }
        true
    }

    /// The path to forward: see `rewritten`.
    pub fn apply_rewrite(&self, path: &str) -> (r: String)
        ensures
            r@ == rewritten(*self, path@),
    {
        if let (Some(prefix), Some(rewrite)) = (&self.path_prefix, &self.rewrite_path) {
            let pc = chars_of(path);
            let pre = chars_of(prefix.as_str());
            if seq_starts_with(&pc, &pre) {
                let mut out = chars_of(rewrite.as_str());
                let mut i: usize = pre.len();
                while i < pc.len()
                    invariant
                        pre.len() <= i <= pc.len(),
                        out@ == rewrite@ + pc@.subrange(pre@.len() as int, i as int),
                    decreases pc.len() - i,
                {
                    out.push(pc[i]);
                    assert(out@ =~= rewrite@ + pc@.subrange(pre@.len() as int, i + 1));
                    i = i + 1;
                }
                assert(pc@.subrange(pre@.len() as int, pc@.len() as int) =~= pc@.skip(pre@.len() as int));
                return string_of(&out);
            }
        }
        path.to_string()
    }
}

/// Routes are kept highest priority first.
pub open spec fn by_priority(routes: Seq<Route>) -> bool {
    forall|i: int, j: int| 0 <= i < j < routes.len() ==> (#[trigger] routes[i]).priority >= (
    #[trigger] routes[j]).priority
}

/// Where a route of priority `p` goes: after every route of priority `p` or
/// higher (so routes of equal priority keep the order they were added in).
pub open spec fn insertion_point(routes: Seq<Route>, p: i32) -> int
    decreases routes.len(),
{
    if routes.len() == 0 {
        0
    } else if routes.last().priority >= p {
        routes.len() as int
    } else {
        insertion_point(routes.drop_last(), p)
    }
}

/// The first route that matches, or -1.
pub open spec fn first_match(
    routes: Seq<Route>,
    method: Seq<char>,
    path: Seq<char>,
    host: Option<Seq<char>>,
    headers: Seq<(String, String)>,
) -> int
    decreases routes.len(),
{
    if routes.len() == 0 {
        -1
    } else if route_matches(routes[0], method, path, host, headers) {
        0
    } else {
        let r = first_match(routes.drop_first(), method, path, host, headers);
        if r < 0 {
            -1
        } else {
            r + 1
        }
    }
}

/// The routes whose backend group differs from `group`, in order.
pub open spec fn routes_without(routes: Seq<Route>, group: Seq<char>) -> Seq<Route>
    decreases routes.len(),
{
    if routes.len() == 0 {
        Seq::<Route>::empty()
    } else if routes.last().backend_group@ != group {
        routes_without(routes.drop_last(), group).push(routes.last())
    } else {
        routes_without(routes.drop_last(), group)
    }
}

proof fn lemma_insert_keeps_order(rs: Seq<Route>, pos: int, route: Route)
    requires
        0 <= pos <= rs.len(),
        by_priority(rs),
        pos > 0 ==> rs[pos - 1].priority >= route.priority,
        forall|k: int| pos <= k < rs.len() ==> (#[trigger] rs[k]).priority < route.priority,
    ensures
        by_priority(rs.insert(pos, route)),
{
    let n = rs.insert(pos, route);
    assert forall|i: int, j: int| 0 <= i < j < n.len() implies (#[trigger] n[i]).priority >= (
    #[trigger] n[j]).priority by {
        if i < pos && j < pos {
            assert(n[i] == rs[i] && n[j] == rs[j]);
        } else if i < pos && j == pos {
            assert(n[i] == rs[i]);
            assert(rs[i].priority >= rs[pos - 1].priority);
        } else if i < pos {
            assert(n[i] == rs[i] && n[j] == rs[j - 1]);
        } else if i == pos {
            assert(n[j] == rs[j - 1]);
        } else {
            assert(n[i] == rs[i - 1] && n[j] == rs[j - 1]);
        }
    }
}

/// Where a route of priority `p` is inserted into routes kept by priority:
/// after every route of priority `p` or more, before every route of lower
/// priority.
proof fn lemma_insertion_point(rs: Seq<Route>, p: i32)
    requires
        by_priority(rs),
    ensures
        0 <= insertion_point(rs, p) <= rs.len(),
        forall|i: int| 0 <= i < insertion_point(rs, p) ==> (#[trigger] rs[i]).priority >= p,
        forall|i: int| insertion_point(rs, p) <= i < rs.len() ==> (#[trigger] rs[i]).priority < p,
    decreases rs.len(),
{
    if rs.len() > 0 {
        let d = rs.drop_last();
        assert(by_priority(d)) by {
            assert forall|i: int, j: int| 0 <= i < j < d.len() implies (#[trigger] d[i]).priority >= (#[trigger] d[j]).priority by {
                assert(d[i] == rs[i] && d[j] == rs[j]);
            }
        }
        lemma_insertion_point(d, p);
        if rs.last().priority >= p {
            assert forall|i: int| 0 <= i < rs.len() implies (#[trigger] rs[i]).priority >= p by {
                if i < rs.len() - 1 {
                    assert(rs[i].priority >= rs[rs.len() - 1].priority);
                }
            }
        } else {
            assert forall|i: int| 0 <= i < insertion_point(rs, p) implies (#[trigger] rs[i]).priority >= p by {
                assert(rs[i] == d[i]);
            }
            assert forall|i: int| insertion_point(rs, p) <= i < rs.len() implies (#[trigger] rs[i]).priority < p by {
                if i < rs.len() - 1 {
                    assert(rs[i] == d[i]);
                }
            }
        }
    }
}

/// Adding a route to routes kept by priority: the result holds the old
/// routes in their order with the new one at one place, stays ordered by
/// priority, and the new route comes after every old route of the same or
/// higher priority and before every route of lower priority (routes of equal
/// priority keep the order they were added in).
pub proof fn lemma_add_route_order(rs: Seq<Route>, route: Route)
    requires
        by_priority(rs),
    ensures
        ({
            let k = insertion_point(rs, route.priority);
            let n = rs.insert(k, route);
            &&& 0 <= k <= rs.len()
            &&& n.len() == rs.len() + 1
            &&& n[k] == route
            &&& n.remove(k) == rs
            &&& by_priority(n)
            &&& forall|i: int| 0 <= i < k ==> (#[trigger] rs[i]).priority >= route.priority
            &&& forall|i: int| k <= i < rs.len() ==> (#[trigger] rs[i]).priority < route.priority
        }),
{
    lemma_insertion_point(rs, route.priority);
    let k = insertion_point(rs, route.priority);
    if k > 0 {
        assert(rs[k - 1].priority >= route.priority);
    }
    lemma_insert_keeps_order(rs, k, route);
    assert(rs.insert(k, route).remove(k) =~= rs);
}

pub struct Router {
    routes: Vec<Route>,
    default_backend: String,
}

impl Router {
    #[verifier::type_invariant]
    spec fn sorted(&self) -> bool {
        by_priority(self.routes@)
    }

    pub closed spec fn routes(&self) -> Seq<Route> {
        self.routes@
    }

    pub closed spec fn default_backend(&self) -> Seq<char> {
        self.default_backend@
    }

    pub fn new(default_backend: String) -> (r: Self)
        ensures
            r.routes().len() == 0,
            r.default_backend() == default_backend@,
    {
        Router { routes: Vec::new(), default_backend }
    }

    /// Adds a route after all routes of the same or higher priority.
    pub fn add_route(&mut self, route: Route)
        ensures
            final(self).routes() == old(self).routes().insert(
                insertion_point(old(self).routes(), route.priority),
                route,
            ),
            by_priority(final(self).routes()),
            final(self).default_backend() == old(self).default_backend(),
    {
        proof {
            use_type_invariant(&*self);
        }
        let ghost rs = self.routes@;
        let mut pos: usize = self.routes.len();
        assert(rs.take(pos as int) =~= rs);
        while pos > 0 && self.routes[pos - 1].priority < route.priority
            invariant
                pos <= self.routes@.len(),
                rs == self.routes@,
                by_priority(rs),
                forall|k: int| pos <= k < rs.len() ==> (#[trigger] rs[k]).priority < route.priority,
                insertion_point(rs, route.priority) == insertion_point(rs.take(pos as int), route.priority),
            decreases pos,
        {
            assert(rs.take(pos as int).drop_last() =~= rs.take(pos - 1));
            pos = pos - 1;
        }
        proof {
            if pos > 0 {
                assert(rs.take(pos as int).last() == rs[pos - 1]);
            }
            assert(insertion_point(rs.take(pos as int), route.priority) == pos);
            lemma_insert_keeps_order(rs, pos as int, route);
        }
        let mut routes: Vec<Route> = Vec::new();
        std::mem::swap(&mut routes, &mut self.routes);
        routes.insert(pos, route);
        self.routes = routes;
    }

    /// Removes every route to `backend_group`; tells whether any was there.
    pub fn remove_route(&mut self, backend_group: &str) -> (r: bool)
        ensures
            final(self).routes() == routes_without(old(self).routes(), backend_group@),
            r == (final(self).routes().len() < old(self).routes().len()),
            by_priority(final(self).routes()),
            final(self).default_backend() == old(self).default_backend(),
    {
        proof {
            use_type_invariant(&*self);
        }
        let before = self.routes.len();
        let ghost rs = self.routes@;
        let mut rest: Vec<Route> = Vec::new();
        std::mem::swap(&mut rest, &mut self.routes);
        let mut kept: Vec<Route> = Vec::new();
        let ghost mut i: int = 0;
        while rest.len() > 0
            invariant
                0 <= i <= rs.len(),
                by_priority(rs),
                rest@ == rs.skip(i),
                kept@ == routes_without(rs.take(i), backend_group@),
                by_priority(kept@),
                forall|k: int| 0 <= k < kept@.len() ==> exists|m: int| 0 <= m < i && #[trigger] kept@[k] == rs[m],
            decreases rest.len(),
        {
            assert(rs.take(i + 1).drop_last() =~= rs.take(i));
            let r = rest.remove(0);
            assert(r == rs[i]);
            assert(rest@ =~= rs.skip(i + 1));
            if !str_eq(r.backend_group.as_str(), backend_group) {
                proof {
                    assert forall|k: int| 0 <= k < kept@.len() implies (#[trigger] kept@[k]).priority >= r.priority by {
                        let m = choose|m: int| 0 <= m < i && kept@[k] == rs[m];
                        assert(rs[m].priority >= rs[i].priority);
                    }
                }
                kept.push(r);
                proof {
                    assert forall|k: int| 0 <= k < kept@.len() implies exists|m: int| 0 <= m < i + 1 && #[trigger] kept@[k] == rs[m] by {
                        if k == kept@.len() - 1 {
                            assert(kept@[k] == rs[i]);
                        } else {
                            let m = choose|m: int| 0 <= m < i && kept@.drop_last()[k] == rs[m];
                            assert(kept@[k] == kept@.drop_last()[k]);
                        }
                    }
                }
            }
            proof {
                i = i + 1;
            }
        }
        assert(rs.take(i) =~= rs);
        self.routes = kept;
        self.routes.len() < before
    }

    /// The backend group of the first matching route (the highest priority
    /// one) with its rewritten path, or the default backend and the path as
    /// it is when no route matches.
    pub fn match_route(&self, method: &str, path: &str, host: Option<&str>, headers: &Vec<(String, String)>) -> (r:
        (String, String))
        ensures
            ({
                let h = match host {
                    Some(h) => Some(h@),
                    None => None,
                };
                let i = first_match(self.routes(), method@, path@, h, headers@);
                &&& i >= 0 ==> i < self.routes().len() && r.0@ == self.routes()[i].backend_group@ && r.1@ == rewritten(self.routes()[i], path@)
                &&& i < 0 ==> r.0@ == self.default_backend() && r.1@ == path@
            }),
    {
        let ghost h = match host {
            Some(h) => Some(h@),
            None => None,
        };
        let mut i: usize = 0;
        assert(self.routes@.skip(0) =~= self.routes@);
        while i < self.routes.len()
            invariant
                i <= self.routes@.len(),
                h == (match host {
                    Some(x) => Some(x@),
                    None => None,
                }),
                first_match(self.routes@, method@, path@, h, headers@) == if first_match(
                    self.routes@.skip(i as int),
                    method@,
                    path@,
                    h,
                    headers@,
                ) < 0 {
                    -1
                } else {
                    first_match(self.routes@.skip(i as int), method@, path@, h, headers@) + i
                },
            decreases self.routes.len() - i,
        {
            assert(self.routes@.skip(i as int)[0] == self.routes@[i as int]);
            assert(self.routes@.skip(i as int).drop_first() =~= self.routes@.skip(i + 1));
            if self.routes[i].matches(method, path, host, headers) {
                let group = self.routes[i].backend_group.clone();
                let final_path = self.routes[i].apply_rewrite(path);
                return (group, final_path);
            }
            i = i + 1;
        }
        assert(self.routes@.skip(i as int).len() == 0);
        (self.default_backend.clone(), path.to_string())
    }

    pub fn routes_count(&self) -> (r: usize)
        ensures
            r == self.routes().len(),
    {
        self.routes.len()
    }
}

impl Clone for Router {
    fn clone(&self) -> (r: Self)
        ensures
            r.routes().len() == self.routes().len(),
            forall|i: int| 0 <= i < self.routes().len() ==> same_route(#[trigger] r.routes()[i], self.routes()[i]),
            r.default_backend() == self.default_backend(),
    {
        proof {
            use_type_invariant(self);
        }
        let mut routes: Vec<Route> = Vec::new();
        let mut i: usize = 0;
        while i < self.routes.len()
            invariant
                i <= self.routes@.len(),
                by_priority(self.routes@),
                routes@.len() == i,
                forall|k: int| 0 <= k < i ==> same_route(#[trigger] routes@[k], self.routes@[k]),
            decreases self.routes.len() - i,
        {
            routes.push(self.routes[i].clone());
            i = i + 1;
        }
        assert forall|a: int, b: int| 0 <= a < b < routes@.len() implies (#[trigger] routes@[a]).priority >= (
        #[trigger] routes@[b]).priority by {
            assert(same_route(routes@[a], self.routes@[a]));
            assert(same_route(routes@[b], self.routes@[b]));
        }
        Router { routes, default_backend: self.default_backend.clone() }
    }
}

} // verus!
