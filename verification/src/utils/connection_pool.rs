//! Per-backend connection accounting: a client per backend, created on first
//! use, and at most a fixed number of requests in flight to each backend.
use dashmap::DashMap;
use vstd::prelude::*;

verus! {

/// What a table of counts holds: backend name to count.
pub uninterp spec fn count_table(m: DashMap<String, usize>) -> Map<Seq<char>, usize>;

pub open spec fn no_counts() -> Map<Seq<char>, usize> {
    Map::empty()
}

/// `DashMap::new`: an empty table.
#[verifier::external_body]
fn count_table_new() -> (r: DashMap<String, usize>)
    ensures
        count_table(r) == no_counts(),
{
    DashMap::new()
}

/// `DashMap::get`, the count copied out: `None` exactly when the name is not
/// in the table.
#[verifier::external_body]
fn count_table_get(m: &DashMap<String, usize>, k: &str) -> (r: Option<usize>)
    ensures
        match r {
            Some(n) => count_table(*m).contains_key(k@) && count_table(*m)[k@] == n,
            None => !count_table(*m).contains_key(k@),
        },
{
    match m.get(k) {
        Some(x) => Some(*x.value()),
        None => None,
    }
}

/// `DashMap::insert`: the name now holds the count.
#[verifier::external_body]
fn count_table_insert(m: &mut DashMap<String, usize>, k: String, n: usize)
    ensures
        count_table(*final(m)) == count_table(*old(m)).insert(k@, n),
{
    m.insert(k, n);
}

/// `DashMap::remove`: the name is gone; an unknown name changes nothing.
#[verifier::external_body]
fn count_table_remove(m: &mut DashMap<String, usize>, k: &str)
    ensures
        count_table(*final(m)) == count_table(*old(m)).remove(k@),
{
    m.remove(k);
}

/// Permits left for `backend` in `t`: its count, or the maximum for a
/// backend never asked for one.
pub open spec fn permits_left(t: Map<Seq<char>, usize>, backend: Seq<char>, max: usize) -> usize {
    if t.contains_key(backend) {
        t[backend]
    } else {
        max
    }
}

/// Taking a permit for `backend`: whether one was left, and the counts
/// afterwards (a backend seen for the first time starts with the maximum).
pub open spec fn after_acquire(t: Map<Seq<char>, usize>, backend: Seq<char>, max: usize) -> (bool, Map<Seq<char>, usize>) {
    let left = permits_left(t, backend, max);
    if left > 0 {
        (true, t.insert(backend, (left - 1) as usize))
    } else {
        (false, t.insert(backend, left))
    }
}

/// Giving a permit back to `backend`: its count goes up by one, never past the
/// maximum; a backend without a count is left alone.
pub open spec fn after_release(t: Map<Seq<char>, usize>, backend: Seq<char>, max: usize) -> Map<Seq<char>, usize> {
    if t.contains_key(backend) {
        t.insert(backend, if t[backend] < max { (t[backend] + 1) as usize } else { t[backend] })
    } else {
        t
    }
}

/// No backend has more permits than the maximum.
pub open spec fn within_max(t: Map<Seq<char>, usize>, max: usize) -> bool {
    forall|k: Seq<char>| #[trigger] t.contains_key(k) ==> t[k] <= max
}

pub struct ConnectionPool {
    max_per_backend: usize,
    /// Backends that have a client, with the requests each client has sent.
    clients: DashMap<String, usize>,
    /// Backends that have been asked for a permit, with the permits left.
    permits: DashMap<String, usize>,
    total_connections: u64,
}

impl ConnectionPool {
    pub closed spec fn max(&self) -> usize {
        self.max_per_backend
    }

    /// The backends with a client, and the requests each client has sent.
    pub closed spec fn clients(&self) -> Map<Seq<char>, usize> {
        count_table(self.clients)
    }

    /// The backends with a permit count, and the permits each has left.
    pub closed spec fn permits(&self) -> Map<Seq<char>, usize> {
        count_table(self.permits)
    }

    /// How many clients have been created.
    pub closed spec fn created(&self) -> u64 {
        self.total_connections
    }

    /// No backend has more permits left than the maximum.
    pub open spec fn wf(&self) -> bool {
        within_max(self.permits(), self.max())
    }

    pub fn new(max_connections_per_backend: usize) -> (p: Self)
        ensures
            p.wf(),
            p.max() == max_connections_per_backend,
            p.clients() == no_counts(),
            p.permits() == no_counts(),
            p.created() == 0,
    {
        ConnectionPool {
            max_per_backend: max_connections_per_backend,
            clients: count_table_new(),
            permits: count_table_new(),
            total_connections: 0,
        }
    }

    /// Notes that a request goes out through `backend`'s client, creating the
    /// client first (and counting it) when the backend has none. Returns
    /// whether a client was created.
    pub fn use_client(&mut self, backend: &str) -> (created: bool)
        requires
            old(self).wf(),
        ensures
            final(self).wf(),
            final(self).max() == old(self).max(),
            final(self).permits() == old(self).permits(),
            created == !old(self).clients().contains_key(backend@),
            created ==> final(self).clients() == old(self).clients().insert(backend@, 1usize) && final(self).created()
                == old(self).created().wrapping_add(1),
            !created ==> final(self).created() == old(self).created() && final(self).clients() == old(self).clients().insert(
                backend@,
                old(self).clients()[backend@].wrapping_add(1),
            ),
    {
        match count_table_get(&self.clients, backend) {
            Some(n) => {
                count_table_insert(&mut self.clients, backend.to_string(), n.wrapping_add(1));
                false
            },
            None => {
                count_table_insert(&mut self.clients, backend.to_string(), 1);
                self.total_connections = self.total_connections.wrapping_add(1);
                true
            },
        }
    }

    /// Takes a permit to send a request to `backend`, if one is left; see
    /// `after_acquire`.
    pub fn acquire(&mut self, backend: &str) -> (r: bool)
        requires
            old(self).wf(),
        ensures
            final(self).wf(),
            final(self).max() == old(self).max(),
            final(self).clients() == old(self).clients(),
            final(self).created() == old(self).created(),
            (r, final(self).permits()) == after_acquire(old(self).permits(), backend@, old(self).max()),
    {
        let left = match count_table_get(&self.permits, backend) {
            Some(n) => n,
            None => self.max_per_backend,
        };
        if left > 0 {
            count_table_insert(&mut self.permits, backend.to_string(), left - 1);
            true
        } else {
            count_table_insert(&mut self.permits, backend.to_string(), left);
            false
        }
    }

    /// Gives back a permit to `backend` (a finished request); see
    /// `after_release`.
    pub fn release(&mut self, backend: &str)
        requires
            old(self).wf(),
        ensures
            final(self).wf(),
            final(self).max() == old(self).max(),
            final(self).clients() == old(self).clients(),
            final(self).created() == old(self).created(),
            final(self).permits() == after_release(old(self).permits(), backend@, old(self).max()),
    {
        match count_table_get(&self.permits, backend) {
            Some(n) => {
                let m = if n < self.max_per_backend { n + 1 } else { n };
                count_table_insert(&mut self.permits, backend.to_string(), m);
            },
            None => {},
        }
    }

    /// Requests in flight to `backend`: the maximum less the permits left (0
    /// for a backend never asked for one).
    pub fn active_count(&self, backend: &str) -> (r: usize)
        requires
            self.wf(),
        ensures
            r == self.max() - permits_left(self.permits(), backend@, self.max()),
    {
        match count_table_get(&self.permits, backend) {
            Some(n) => self.max_per_backend - n,
            None => 0,
        }
    }

    /// Permits left for `backend` (the maximum for a backend never asked for one).
    pub fn available(&self, backend: &str) -> (r: usize)
        ensures
            r == permits_left(self.permits(), backend@, self.max()),
    {
        match count_table_get(&self.permits, backend) {
            Some(n) => n,
            None => self.max_per_backend,
        }
    }

    /// Requests sent through `backend`'s client (0 without a client).
    pub fn requests_count(&self, backend: &str) -> (r: usize)
        ensures
            !self.clients().contains_key(backend@) ==> r == 0,
            self.clients().contains_key(backend@) ==> r == self.clients()[backend@],
    {
        match count_table_get(&self.clients, backend) {
            Some(n) => n,
            None => 0,
        }
    }

    /// How many clients have been created.
    pub fn total_connections(&self) -> (r: u64)
        ensures
            r == self.created(),
    {
        self.total_connections
    }

    /// Forgets `backend`'s client and permit count.
    pub fn remove_backend(&mut self, backend: &str)
        requires
            old(self).wf(),
        ensures
            final(self).wf(),
            final(self).max() == old(self).max(),
            final(self).created() == old(self).created(),
            final(self).clients() == old(self).clients().remove(backend@),
            final(self).permits() == old(self).permits().remove(backend@),
    {
        count_table_remove(&mut self.clients, backend);
        count_table_remove(&mut self.permits, backend);
    }
}

/// A permit taken and then given back leaves the backend with the permits it
/// had before the taking: for a backend that already had a count, the counts
/// are exactly as they were.
pub proof fn lemma_acquire_release_restores(t: Map<Seq<char>, usize>, backend: Seq<char>, max: usize)
    requires
        within_max(t, max),
        after_acquire(t, backend, max).0,
    ensures
        after_release(after_acquire(t, backend, max).1, backend, max) == t.insert(
            backend,
            permits_left(t, backend, max),
        ),
        t.contains_key(backend) ==> after_release(after_acquire(t, backend, max).1, backend, max) == t,
{
    let a = after_acquire(t, backend, max).1;
    let left = permits_left(t, backend, max);
    assert(a[backend] == left - 1);
    assert(after_release(a, backend, max) =~= t.insert(backend, left));
    if t.contains_key(backend) {
        assert(t.insert(backend, left) =~= t);
    }
}

} // verus!
