//! Sticky sessions: a cookie names a session, and a session stays with the
//! backend it was first sent to until it has been idle for the TTL.
use crate::clock::now_millis;
use crate::utils::request_id::is_lower_hex;
use crate::text::{chars_of, skip_chars, push_decimal, push_str, seq_starts_with, split, split_chars, starts_with, string_of, trim, trim_chars, decimal};
use ahash::AHashMap;
use dashmap::DashMap;
use vstd::prelude::*;

verus! {

/// `uuid::Uuid::new_v4()` in its simple form: 32 lower-case hexadecimal
/// digits, no hyphens (`format_simple` in the crate's source). The value is
/// random: only its shape is promised.
#[verifier::external_body]
fn random_session_id() -> (r: String)
    ensures
        r@.len() == 32,
        forall|i: int| 0 <= i < 32 ==> is_lower_hex(#[trigger] r@[i]),
{
    uuid::Uuid::new_v4().simple().to_string()
}

pub struct SessionEntry {
    pub backend: String,
    /// Clock readings, in milliseconds.
    pub created_at: u64,
    pub last_access: u64,
}

impl Clone for SessionEntry {
    fn clone(&self) -> (r: Self)
        ensures
            r == *self,
    {
        SessionEntry { backend: self.backend.clone(), created_at: self.created_at, last_access: self.last_access }
    }
}

/// A session as the contracts see it: its backend, when it was created and
/// when it was last used.
pub open spec fn entry_view(e: SessionEntry) -> (Seq<char>, u64, u64) {
    (e.backend@, e.created_at, e.last_access)
}

/// The sessions a table holds: session id to session.
pub uninterp spec fn session_table(m: DashMap<String, SessionEntry>) -> Map<Seq<char>, (Seq<char>, u64, u64)>;

/// How many sessions each backend holds, as a map of counts.
pub uninterp spec fn backend_counts(m: AHashMap<String, usize>) -> Map<Seq<char>, usize>;

pub open spec fn no_sessions() -> Map<Seq<char>, (Seq<char>, u64, u64)> {
    Map::empty()
}

pub open spec fn no_counts() -> Map<Seq<char>, usize> {
    Map::empty()
}

/// `s` lists the sessions of `m`, each exactly once.
pub open spec fn lists_sessions(s: Seq<(String, SessionEntry)>, m: Map<Seq<char>, (Seq<char>, u64, u64)>) -> bool {
    &&& forall|i: int| 0 <= i < s.len() ==> m.contains_key((#[trigger] s[i]).0@) && m[s[i].0@] == entry_view(s[i].1)
    &&& forall|i: int, j: int| 0 <= i < j < s.len() ==> (#[trigger] s[i]).0@ != (#[trigger] s[j]).0@
    &&& forall|k: Seq<char>| #[trigger] m.contains_key(k) ==> exists|i: int| 0 <= i < s.len() && (#[trigger] s[i]).0@ == k
}

/// `DashMap::new`: an empty table.
#[verifier::external_body]
fn table_new() -> (r: DashMap<String, SessionEntry>)
    ensures
        session_table(r) == no_sessions(),
        session_table(r).dom().finite(),
{
    DashMap::new()
}

/// `DashMap::get`, the session copied out: `None` exactly when the id is
/// not in the table.
#[verifier::external_body]
fn table_get(m: &DashMap<String, SessionEntry>, id: &str) -> (r: Option<SessionEntry>)
    ensures
        match r {
            Some(e) => session_table(*m).contains_key(id@) && entry_view(e) == session_table(*m)[id@],
            None => !session_table(*m).contains_key(id@),
        },
{
    match m.get(id) {
        Some(x) => Some(SessionEntry { backend: x.backend.clone(), created_at: x.created_at, last_access: x.last_access }),
        None => None,
    }
}

/// `DashMap::insert`: the id now holds the session, whatever it held before.
#[verifier::external_body]
fn table_insert(m: &mut DashMap<String, SessionEntry>, id: String, e: SessionEntry)
    ensures
        session_table(*final(m)) == session_table(*old(m)).insert(id@, entry_view(e)),
        session_table(*final(m)).dom().finite(),
{
    m.insert(id, e);
}

/// `DashMap::remove`: the id is gone; an unknown id changes nothing.
#[verifier::external_body]
fn table_remove(m: &mut DashMap<String, SessionEntry>, id: &str)
    ensures
        session_table(*final(m)) == session_table(*old(m)).remove(id@),
        session_table(*final(m)).dom().finite(),
{
    m.remove(id);
}

/// Whether a session is still alive: `fresh` computed.
fn session_alive(e: &SessionEntry, now: u64, ttl_secs: u64) -> (r: bool)
    ensures
        r == fresh(entry_view(*e), now, ttl_secs),
{
    let elapsed = now.saturating_sub(e.last_access);
    let keep = elapsed / 1000 < ttl_secs;
    assert(keep == (elapsed < ttl_secs * 1000)) by (nonlinear_arith)
        requires
            keep == (elapsed / 1000 < ttl_secs),
    ;
    keep
}

/// `DashMap::retain` with `session_alive`: the sessions still alive at `now`
/// stay, the others go.
#[verifier::external_body]
fn table_retain_alive(m: &mut DashMap<String, SessionEntry>, now: u64, ttl_secs: u64)
    ensures
        session_table(*final(m)) == fresh_only(session_table(*old(m)), now, ttl_secs),
        session_table(*final(m)).dom().finite(),
{
    m.retain(|_, e| session_alive(e, now, ttl_secs));
}

/// `DashMap::len`: the number of sessions.
#[verifier::external_body]
fn table_len(m: &DashMap<String, SessionEntry>) -> (r: usize)
    ensures
        r == session_table(*m).len(),
{
    m.len()
}

/// `DashMap::iter`, each session copied out: every session exactly once, in
/// the table's own order.
#[verifier::external_body]
fn table_entries(m: &DashMap<String, SessionEntry>) -> (r: Vec<(String, SessionEntry)>)
    ensures
        lists_sessions(r@, session_table(*m)),
{
    m.iter().map(|x| (x.key().clone(), SessionEntry { backend: x.backend.clone(), created_at: x.created_at, last_access: x.last_access })).collect()
}

/// `AHashMap::new`: no counts.
#[verifier::external_body]
fn counts_new() -> (r: AHashMap<String, usize>)
    ensures
        backend_counts(r) == no_counts(),
{
    AHashMap::new()
}

/// `AHashMap::get`, the count copied out.
#[verifier::external_body]
fn counts_get(m: &AHashMap<String, usize>, k: &str) -> (r: Option<usize>)
    ensures
        match r {
            Some(n) => backend_counts(*m).contains_key(k@) && backend_counts(*m)[k@] == n,
            None => !backend_counts(*m).contains_key(k@),
        },
{
    m.get(k).copied()
}

/// `AHashMap::insert`: the key now holds the count.
#[verifier::external_body]
fn counts_insert(m: &mut AHashMap<String, usize>, k: String, n: usize)
    ensures
        backend_counts(*final(m)) == backend_counts(*old(m)).insert(k@, n),
{
    m.insert(k, n);
}

/// A session idle for less than `ttl_secs` seconds at clock reading `now` is
/// still alive.
pub open spec fn fresh(e: (Seq<char>, u64, u64), now: u64, ttl_secs: u64) -> bool {
    (if now >= e.2 { now - e.2 } else { 0 }) < ttl_secs * 1000
}

/// The sessions still alive at `now`.
pub open spec fn fresh_only(m: Map<Seq<char>, (Seq<char>, u64, u64)>, now: u64, ttl_secs: u64) -> Map<
    Seq<char>,
    (Seq<char>, u64, u64),
> {
    Map::new(|k: Seq<char>| m.contains_key(k) && fresh(m[k], now, ttl_secs), |k: Seq<char>| m[k])
}

/// The sessions after binding `id` to `backend` at `now`.
pub open spec fn after_bind(m: Map<Seq<char>, (Seq<char>, u64, u64)>, id: Seq<char>, backend: Seq<char>, now: u64) -> Map<
    Seq<char>,
    (Seq<char>, u64, u64),
> {
    m.insert(id, (backend, now, now))
}

/// What looking a session up at `now` gives, and the sessions afterwards:
/// a live session is touched and gives its backend; an expired one is
/// dropped.
pub open spec fn lookup(m: Map<Seq<char>, (Seq<char>, u64, u64)>, id: Seq<char>, now: u64, ttl_secs: u64) -> (
    Option<Seq<char>>,
    Map<Seq<char>, (Seq<char>, u64, u64)>,
) {
    if !m.contains_key(id) {
        (None, m)
    } else if fresh(m[id], now, ttl_secs) {
        (Some(m[id].0), m.insert(id, (m[id].0, m[id].1, now)))
    } else {
        (None, m.remove(id))
    }
}

/// How many sessions are bound to `backend`.
pub open spec fn count_for(m: Map<Seq<char>, (Seq<char>, u64, u64)>, backend: Seq<char>) -> nat {
    bound_to(m, backend).len()
}

/// The ids of the sessions bound to `backend`.
pub open spec fn bound_to(m: Map<Seq<char>, (Seq<char>, u64, u64)>, backend: Seq<char>) -> Set<Seq<char>> {
    m.dom().filter(|k: Seq<char>| m[k].0 == backend)
}

/// The backends that hold at least one session.
pub open spec fn bound_backends(m: Map<Seq<char>, (Seq<char>, u64, u64)>) -> Set<Seq<char>> {
    Set::new(|b: Seq<char>| exists|k: Seq<char>| #[trigger] m.contains_key(k) && m[k].0 == b)
}

/// The session id a `Cookie` header carries under `name`: the first
/// `;`-separated piece that, trimmed, begins with `name=`.
pub open spec fn cookie_value(pieces: Seq<Seq<char>>, name: Seq<char>) -> Option<Seq<char>>
    decreases pieces.len(),
{
    if pieces.len() == 0 {
        None
    } else {
        let p = trim(pieces[0]);
        let key = name + "="@;
        if starts_with(p, key) {
            Some(p.skip(key.len() as int))
        } else {
            cookie_value(pieces.drop_first(), name)
        }
    }
}

/// The `Set-Cookie` value for a session.
pub open spec fn cookie_text(name: Seq<char>, id: Seq<char>, ttl_secs: u64, secure: bool) -> Seq<char> {
    name + "="@ + id + (if secure {
        "; Path=/; HttpOnly; Secure; SameSite=Lax; Max-Age="@
    } else {
        "; Path=/; HttpOnly; SameSite=Lax; Max-Age="@
    }) + decimal(ttl_secs as nat)
}


pub struct StickySessionManager {
    sessions: DashMap<String, SessionEntry>,
    cookie_name: String,
    ttl_secs: u64,
    secure_cookies: bool,
}

impl StickySessionManager {
    pub closed spec fn sessions(&self) -> Map<Seq<char>, (Seq<char>, u64, u64)> {
        session_table(self.sessions)
    }

    pub closed spec fn name(&self) -> Seq<char> {
        self.cookie_name@
    }

    pub closed spec fn ttl(&self) -> u64 {
        self.ttl_secs
    }

    pub closed spec fn secure(&self) -> bool {
        self.secure_cookies
    }

    pub fn new(cookie_name: &str, ttl_secs: u64) -> (m: Self)
        ensures
            m.sessions().dom().finite(),
            m.sessions() == no_sessions(),
            m.name() == cookie_name@,
            m.ttl() == ttl_secs,
            !m.secure(),
    {
        StickySessionManager {
            sessions: table_new(),
            cookie_name: cookie_name.to_string(),
            ttl_secs,
            secure_cookies: false,
        }
    }

    /// Whether cookies carry the `Secure` flag (for TLS deployments).
    pub fn with_secure_cookies(self, secure: bool) -> (m: Self)
        ensures
            m.sessions() == self.sessions(),
            m.name() == self.name(),
            m.ttl() == self.ttl(),
            m.secure() == secure,
    {
        StickySessionManager { secure_cookies: secure, ..self }
    }

    /// The backend of a live session at clock reading `now`; see `lookup`.
    pub fn get_backend_at(&mut self, session_id: &str, now: u64) -> (r: Option<String>)
        ensures
            old(self).sessions().dom().finite() ==> final(self).sessions().dom().finite(),
            ({
                let (b, s) = lookup(old(self).sessions(), session_id@, now, old(self).ttl());
                &&& final(self).sessions() == s
                &&& match r {
                    Some(x) => b == Some(x@),
                    None => b is None,
                }
            }),
            final(self).name() == old(self).name(),
            final(self).ttl() == old(self).ttl(),
            final(self).secure() == old(self).secure(),
    {
        match table_get(&self.sessions, session_id) {
            None => None,
            Some(e) => {
                if session_alive(&e, now, self.ttl_secs) {
                    let b = e.backend.clone();
                    let touched = SessionEntry { backend: e.backend, created_at: e.created_at, last_access: now };
                    table_insert(&mut self.sessions, session_id.to_string(), touched);
                    Some(b)
                } else {
                    table_remove(&mut self.sessions, session_id);
                    None
                }
            },
        }
    }

    /// The backend of a live session, touching it; an expired session is
    /// dropped.
    pub fn get_backend(&mut self, session_id: &str) -> (r: Option<String>)
        ensures
            old(self).sessions().dom().finite() ==> final(self).sessions().dom().finite(),
            exists|now: u64| {
                let (b, s) = #[trigger] lookup(old(self).sessions(), session_id@, now, old(self).ttl());
                &&& final(self).sessions() == s
                &&& match r {
                    Some(x) => b == Some(x@),
                    None => b is None,
                }
            },
            final(self).name() == old(self).name(),
            final(self).ttl() == old(self).ttl(),
            final(self).secure() == old(self).secure(),
    {
        let now = now_millis();
        self.get_backend_at(session_id, now)
    }

    /// Binds a session to a backend at clock reading `now`.
    pub fn set_backend_at(&mut self, session_id: &str, backend: &str, now: u64)
        ensures
            final(self).sessions().dom().finite(),
            final(self).sessions() == after_bind(old(self).sessions(), session_id@, backend@, now),
            final(self).name() == old(self).name(),
            final(self).ttl() == old(self).ttl(),
            final(self).secure() == old(self).secure(),
    {
        let entry = SessionEntry { backend: backend.to_string(), created_at: now, last_access: now };
        table_insert(&mut self.sessions, session_id.to_string(), entry);
    }

    /// Binds a session to a backend now.
    pub fn set_backend(&mut self, session_id: &str, backend: &str)
        ensures
            final(self).sessions().dom().finite(),
            exists|now: u64| final(self).sessions() == #[trigger] after_bind(old(self).sessions(), session_id@, backend@, now),
            final(self).name() == old(self).name(),
            final(self).ttl() == old(self).ttl(),
            final(self).secure() == old(self).secure(),
    {
        let now = now_millis();
        self.set_backend_at(session_id, backend, now);
    }

    /// Forgets a session; an unknown id changes nothing.
    pub fn remove_session(&mut self, session_id: &str)
        ensures
            final(self).sessions().dom().finite(),
            final(self).sessions() == old(self).sessions().remove(session_id@),
            final(self).name() == old(self).name(),
            final(self).ttl() == old(self).ttl(),
            final(self).secure() == old(self).secure(),
    {
        table_remove(&mut self.sessions, session_id);
    }

    /// A fresh random session id: 32 lower-case hexadecimal digits.
    pub fn generate_session_id(&self) -> (r: String)
        ensures
            r@.len() == 32,
            forall|i: int| 0 <= i < 32 ==> is_lower_hex(#[trigger] r@[i]),
    {
        random_session_id()
    }

    /// The session id the `Cookie` header carries; see `cookie_value`.
    pub fn extract_session_from_cookie(&self, cookie_header: &str) -> (r: Option<String>)
        ensures
            match r {
                Some(v) => cookie_value(split(cookie_header@, ';'), self.name()) == Some(v@),
                None => cookie_value(split(cookie_header@, ';'), self.name()) is None,
            },
    {
        let header = chars_of(cookie_header);
        let pieces = split_chars(&header, ';');
        let mut key = chars_of(self.cookie_name.as_str());
        key.push('=');
        proof {
            reveal_strlit("=");
            assert(key@ =~= self.name() + "="@);
        }
        let ghost ps = split(cookie_header@, ';');
        let mut i: usize = 0;
        assert(ps.skip(0) =~= ps);
        while i < pieces.len()
            invariant
                i <= pieces@.len(),
                ps == split(cookie_header@, ';'),
                pieces@.len() == ps.len(),
                forall|j: int| 0 <= j < pieces@.len() ==> #[trigger] pieces@[j]@ == ps[j],
                key@ == self.name() + "="@,
                cookie_value(ps, self.name()) == cookie_value(ps.skip(i as int), self.name()),
            decreases pieces.len() - i,
        {
            assert(ps.skip(i as int)[0] == ps[i as int]);
            assert(ps.skip(i as int).drop_first() =~= ps.skip(i + 1));
            let p = trim_chars(&pieces[i]);
            if seq_starts_with(&p, &key) {
                let rest = skip_chars(&p, key.len());
                assert(p@ == trim(ps[i as int]));
                assert(cookie_value(ps.skip(i as int), self.name()) == Some(p@.skip(key@.len() as int)));
                return Some(string_of(&rest));
            }
            i = i + 1;
        }
        None
    }

    /// The `Set-Cookie` value for a session; see `cookie_text`.
    pub fn create_cookie(&self, session_id: &str) -> (r: String)
        ensures
            r@ == cookie_text(self.name(), session_id@, self.ttl(), self.secure()),
    {
        let mut s = String::new();
        push_str(&mut s, self.cookie_name.as_str());
        push_str(&mut s, "=");
        push_str(&mut s, session_id);
        if self.secure_cookies {
            push_str(&mut s, "; Path=/; HttpOnly; Secure; SameSite=Lax; Max-Age=");
        } else {
            push_str(&mut s, "; Path=/; HttpOnly; SameSite=Lax; Max-Age=");
        }
        push_decimal(&mut s, self.ttl_secs);
        assert(s@ =~= cookie_text(self.name(), session_id@, self.ttl(), self.secure()));
        s
    }

    pub fn is_secure(&self) -> (r: bool)
        ensures
            r == self.secure(),
    {
        self.secure_cookies
    }

    pub fn cookie_name(&self) -> (r: &str)
        ensures
            r@ == self.name(),
    {
        self.cookie_name.as_str()
    }

    /// Drops every session idle for the TTL or longer at clock reading `now`.
    pub fn cleanup_expired_at(&mut self, now: u64)
        ensures
            final(self).sessions().dom().finite(),
            final(self).sessions() == fresh_only(old(self).sessions(), now, old(self).ttl()),
            final(self).name() == old(self).name(),
            final(self).ttl() == old(self).ttl(),
            final(self).secure() == old(self).secure(),
    {
        table_retain_alive(&mut self.sessions, now, self.ttl_secs);
    }

    /// Drops every session idle for the TTL or longer now.
    pub fn cleanup_expired(&mut self)
        ensures
            final(self).sessions().dom().finite(),
            exists|now: u64| final(self).sessions() == #[trigger] fresh_only(old(self).sessions(), now, old(self).ttl()),
            final(self).name() == old(self).name(),
            final(self).ttl() == old(self).ttl(),
            final(self).secure() == old(self).secure(),
    {
        let now = now_millis();
        self.cleanup_expired_at(now);
    }

    pub fn active_sessions(&self) -> (r: usize)
        ensures
            r == self.sessions().len(),
    {
        table_len(&self.sessions)
    }

    /// How many sessions each backend holds: an entry for each backend that
    /// holds any.
    pub fn sessions_per_backend(&self) -> (r: AHashMap<String, usize>)
        ensures
            backend_counts(r).dom() == bound_backends(self.sessions()),
            forall|b: Seq<char>| #[trigger] backend_counts(r).contains_key(b) ==> backend_counts(r)[b] == count_for(self.sessions(), b),
    {
        let ghost m = self.sessions();
        let entries = table_entries(&self.sessions);
        let mut counts = counts_new();
        let mut i: usize = 0;
        while i < entries.len()
            invariant
                lists_sessions(entries@, m),
                i <= entries@.len(),
                backend_counts(counts).dom() =~= Set::new(|b: Seq<char>| exists|j: int| 0 <= j < i && (#[trigger] entries@[j]).1.backend@ == b),
                forall|b: Seq<char>| #[trigger] backend_counts(counts).contains_key(b) ==> backend_counts(counts)[b]
                    == seq_count(entries@.take(i as int), b),
            decreases entries.len() - i,
        {
            let b = &entries[i].1.backend;
            let ghost before = backend_counts(counts);
            proof {
                assert(entries@.take(i + 1).drop_last() =~= entries@.take(i as int));
                lemma_seq_count_bounded(entries@.take(i as int), b@);
            }
            match counts_get(&counts, b.as_str()) {
                Some(n) => {
                    counts_insert(&mut counts, b.clone(), n + 1);
                },
                None => {
                    proof {
                        lemma_seq_count_absent(entries@.take(i as int), b@);
                    }
                    counts_insert(&mut counts, b.clone(), 1);
                },
            }
            proof {
                let after = backend_counts(counts);
                assert forall|c: Seq<char>| #[trigger] after.contains_key(c) implies after[c] == seq_count(entries@.take(i + 1), c) by {
                    if c != b@ {
                        assert(before.contains_key(c));
                    }
                }
                assert(after.dom() =~= Set::new(|c: Seq<char>| exists|j: int| 0 <= j < i + 1 && (#[trigger] entries@[j]).1.backend@ == c)) by {
                    assert forall|c: Seq<char>| after.dom().contains(c) implies exists|j: int| 0 <= j < i + 1 && (#[trigger] entries@[j]).1.backend@ == c by {
                        if c == b@ {
                            assert(entries@[i as int].1.backend@ == c);
                        } else {
                            assert(before.dom().contains(c));
                        }
                    }
                    assert forall|c: Seq<char>| (exists|j: int| 0 <= j < i + 1 && (#[trigger] entries@[j]).1.backend@ == c) implies after.dom().contains(c) by {
                        let j = choose|j: int| 0 <= j < i + 1 && (#[trigger] entries@[j]).1.backend@ == c;
                        if j < i {
                            assert(before.dom().contains(c));
                        }
                    }
                }
            }
            i = i + 1;
        }
        proof {
            assert(entries@.take(entries@.len() as int) =~= entries@);
            let r = backend_counts(counts);
            assert forall|b: Seq<char>| #[trigger] r.contains_key(b) implies r[b] == count_for(m, b) by {
                lemma_seq_count_matches(entries@, m, b);
            }
            assert(r.dom() =~= bound_backends(m)) by {
                assert forall|b: Seq<char>| r.dom().contains(b) implies bound_backends(m).contains(b) by {
                    let j = choose|j: int| 0 <= j < entries@.len() && (#[trigger] entries@[j]).1.backend@ == b;
                    let k = entries@[j].0@;
                    assert(m.contains_key(k) && m[k].0 == b);
                }
                assert forall|b: Seq<char>| bound_backends(m).contains(b) implies r.dom().contains(b) by {
                    let k = choose|k: Seq<char>| #[trigger] m.contains_key(k) && m[k].0 == b;
                    let j = choose|j: int| 0 <= j < entries@.len() && (#[trigger] entries@[j]).0@ == k;
                    assert(entries@[j].1.backend@ == b);
                }
            }
        }
        counts
    }
}

/// How many of the listed sessions are bound to `backend`.
pub open spec fn seq_count(s: Seq<(String, SessionEntry)>, backend: Seq<char>) -> nat
    decreases s.len(),
{
    if s.len() == 0 {
        0
    } else {
        seq_count(s.drop_last(), backend) + if s.last().1.backend@ == backend { 1nat } else { 0nat }
    }
}

proof fn lemma_seq_count_bounded(s: Seq<(String, SessionEntry)>, b: Seq<char>)
    ensures
        seq_count(s, b) <= s.len(),
    decreases s.len(),
{
    if s.len() > 0 {
        lemma_seq_count_bounded(s.drop_last(), b);
    }
}

/// A backend that no listed session names has no session.
proof fn lemma_seq_count_absent(s: Seq<(String, SessionEntry)>, b: Seq<char>)
    requires
        forall|m: int| 0 <= m < s.len() ==> (#[trigger] s[m]).1.backend@ != b,
    ensures
        seq_count(s, b) == 0,
    decreases s.len(),
{
    if s.len() > 0 {
        assert forall|m: int| 0 <= m < s.drop_last().len() implies (#[trigger] s.drop_last()[m]).1.backend@ != b by {
            assert(s.drop_last()[m] == s[m]);
        }
        lemma_seq_count_absent(s.drop_last(), b);
        assert(s[s.len() - 1].1.backend@ != b);
    }
}

/// Counting the listed sessions counts the table's sessions.
proof fn lemma_seq_count_matches(s: Seq<(String, SessionEntry)>, m: Map<Seq<char>, (Seq<char>, u64, u64)>, b: Seq<char>)
    requires
        lists_sessions(s, m),
    ensures
        m.dom().finite(),
        seq_count(s, b) == count_for(m, b),
    decreases s.len(),
{
    if s.len() == 0 {
        assert(m.dom() =~= Set::empty()) by {
            assert forall|k: Seq<char>| !m.dom().contains(k) by {
                if m.contains_key(k) {
                    let i = choose|i: int| 0 <= i < s.len() && (#[trigger] s[i]).0@ == k;
                }
            }
        }
        assert(bound_to(m, b) =~= Set::empty());
    } else {
        let last = s.last();
        let k0 = last.0@;
        let t = s.drop_last();
        let m2 = m.remove(k0);
        assert(lists_sessions(t, m2)) by {
            assert forall|i: int| 0 <= i < t.len() implies m2.contains_key((#[trigger] t[i]).0@) && m2[t[i].0@] == entry_view(t[i].1) by {
                assert(t[i] == s[i]);
                assert(s[i].0@ != s[s.len() - 1].0@);
            }
            assert forall|i: int, j: int| 0 <= i < j < t.len() implies (#[trigger] t[i]).0@ != (#[trigger] t[j]).0@ by {
                assert(t[i] == s[i] && t[j] == s[j]);
            }
            assert forall|k: Seq<char>| #[trigger] m2.contains_key(k) implies exists|i: int| 0 <= i < t.len() && (#[trigger] t[i]).0@ == k by {
                assert(m.contains_key(k));
                let i = choose|i: int| 0 <= i < s.len() && (#[trigger] s[i]).0@ == k;
                assert(i != s.len() - 1);
                assert(t[i] == s[i]);
            }
        }
        lemma_seq_count_matches(t, m2, b);
        let a = bound_to(m, b);
        let a2 = bound_to(m2, b);
        vstd::set_lib::lemma_set_subset_finite(m2.dom(), a2);
        assert(m.contains_key(k0) && m[k0] == entry_view(last.1)) by {
            assert(s[s.len() - 1] == last);
        }
        assert(m.dom() =~= m2.dom().insert(k0));
        if last.1.backend@ == b {
            assert(a =~= a2.insert(k0));
        } else {
            assert(a =~= a2);
        }
    }
}

/// A lookup of a live session keeps the count of sessions; a lookup of an
/// expired one drops that session and the count falls by one; a lookup of
/// an unknown id changes nothing. A removed session is not found again.
pub proof fn lemma_lookup_counts(m: Map<Seq<char>, (Seq<char>, u64, u64)>, id: Seq<char>, now: u64, ttl_secs: u64)
    requires
        m.dom().finite(),
    ensures
        lookup(m, id, now, ttl_secs).1.dom().finite(),
        m.contains_key(id) && fresh(m[id], now, ttl_secs) ==> lookup(m, id, now, ttl_secs).1.len() == m.len(),
        m.contains_key(id) && !fresh(m[id], now, ttl_secs) ==> lookup(m, id, now, ttl_secs).1.len() == m.len() - 1
            && !lookup(m, id, now, ttl_secs).1.contains_key(id),
        !m.contains_key(id) ==> lookup(m, id, now, ttl_secs) == (None::<Seq<char>>, m),
        lookup(m.remove(id), id, now, ttl_secs).0 is None,
{
    if m.contains_key(id) {
        if fresh(m[id], now, ttl_secs) {
            assert(lookup(m, id, now, ttl_secs).1.dom() =~= m.dom());
        } else {
            assert(lookup(m, id, now, ttl_secs).1.dom() =~= m.dom().remove(id));
        }
    }
}

/// Stickiness: a session just bound to a backend is found again with that
/// backend while it is alive.
pub proof fn lemma_bound_session_found(
    m: Map<Seq<char>, (Seq<char>, u64, u64)>,
    id: Seq<char>,
    backend: Seq<char>,
    now: u64,
    later: u64,
    ttl_secs: u64,
)
    requires
        later >= now,
        later - now < ttl_secs * 1000,
    ensures
        lookup(after_bind(m, id, backend, now), id, later, ttl_secs).0 == Some(backend),
{
}

} // verus!
