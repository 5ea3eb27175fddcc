//! The pool of backend servers, looked up by id (`host:port`).
use super::server::{Server, ServerStatus, ServerView};
use crate::error::LoadBalancerError;
use crate::text::str_eq;
use dashmap::DashMap;
use vstd::prelude::*;

verus! {

/// The views of a list of servers.
pub open spec fn server_views(servers: Seq<Server>) -> Seq<ServerView> {
    servers.map_values(|s: Server| s@)
}

/// The healthy servers, in order.
pub open spec fn healthy_only(s: Seq<ServerView>) -> Seq<ServerView>
    decreases s.len(),
{
    if s.len() == 0 {
        Seq::<ServerView>::empty()
    } else if s.last().is_healthy() {
        healthy_only(s.drop_last()).push(s.last())
    } else {
        healthy_only(s.drop_last())
    }
}

/// The servers that may take traffic (up or draining), in order.
pub open spec fn available_only(s: Seq<ServerView>) -> Seq<ServerView>
    decreases s.len(),
{
    if s.len() == 0 {
        Seq::<ServerView>::empty()
    } else if s.last().is_available() {
        available_only(s.drop_last()).push(s.last())
    } else {
        available_only(s.drop_last())
    }
}

/// The servers whose id differs from `id`, in order.
pub open spec fn without_id(s: Seq<ServerView>, id: Seq<char>) -> Seq<ServerView>
    decreases s.len(),
{
    if s.len() == 0 {
        Seq::<ServerView>::empty()
    } else if s.last().id != id {
        without_id(s.drop_last(), id).push(s.last())
    } else {
        without_id(s.drop_last(), id)
    }
}

/// The position of the last server with id `id`, or -1. Lookups by id see
/// this server: the most recently added one under that id.
pub open spec fn last_with_id(s: Seq<ServerView>, id: Seq<char>) -> int
    decreases s.len(),
{
    if s.len() == 0 {
        -1
    } else if s.last().id == id {
        s.len() - 1
    } else {
        last_with_id(s.drop_last(), id)
    }
}

/// Sum of the open connection counts.
pub open spec fn connection_sum(s: Seq<ServerView>) -> int
    decreases s.len(),
{
    if s.len() == 0 {
        0
    } else {
        connection_sum(s.drop_last()) + s.last().active_connections
    }
}

pub proof fn lemma_last_with_id_range(s: Seq<ServerView>, id: Seq<char>)
    ensures
        -1 <= last_with_id(s, id) < s.len(),
        last_with_id(s, id) >= 0 ==> s[last_with_id(s, id)].id == id,
        last_with_id(s, id) == -1 <==> forall|i: int| 0 <= i < s.len() ==> (#[trigger] s[i]).id != id,
        forall|i: int| last_with_id(s, id) < i < s.len() ==> (#[trigger] s[i]).id != id,
    decreases s.len(),
{
    if s.len() > 0 {
        let d = s.drop_last();
        lemma_last_with_id_range(d, id);
        assert forall|i: int| 0 <= i < s.len() - 1 implies #[trigger] s[i] == d[i] by {}
        if s.last().id == id {
            assert(s[s.len() - 1].id == id);
        } else {
            assert forall|i: int| last_with_id(s, id) < i < s.len() implies (#[trigger] s[i]).id != id by {
                if i < s.len() - 1 {
                    assert(s[i] == d[i]);
                }
            }
            if last_with_id(s, id) == -1 {
                assert forall|i: int| 0 <= i < s.len() implies (#[trigger] s[i]).id != id by {
                    if i < s.len() - 1 {
                        assert(s[i] == d[i]);
                    }
                }
            }
        }
    }
}

/// What the pool's id index should hold: each id to the last server with it.
pub open spec fn index_of(s: Seq<ServerView>) -> Map<Seq<char>, ServerView> {
    Map::new(|id: Seq<char>| last_with_id(s, id) >= 0, |id: Seq<char>| s[last_with_id(s, id)])
}

/// What an id index holds: server id to server.
pub uninterp spec fn server_table(m: DashMap<String, Server>) -> Map<Seq<char>, ServerView>;

pub open spec fn no_servers() -> Map<Seq<char>, ServerView> {
    Map::empty()
}

/// `DashMap::new`: an empty index.
#[verifier::external_body]
fn server_table_new() -> (r: DashMap<String, Server>)
    ensures
        server_table(r) == no_servers(),
{
    DashMap::new()
}

/// `DashMap::get`, the server copied out (`Server::clone`, which keeps the
/// view): `None` exactly when the id is not in the index.
#[verifier::external_body]
fn server_table_get(m: &DashMap<String, Server>, id: &str) -> (r: Option<Server>)
    ensures
        match r {
            Some(x) => server_table(*m).contains_key(id@) && x@ == server_table(*m)[id@],
            None => !server_table(*m).contains_key(id@),
        },
{
    match m.get(id) {
        Some(x) => Some(x.value().clone()),
        None => None,
    }
}

/// `DashMap::insert`: the id now holds the server.
#[verifier::external_body]
fn server_table_insert(m: &mut DashMap<String, Server>, id: String, server: Server)
    ensures
        server_table(*final(m)) == server_table(*old(m)).insert(id@, server@),
{
    m.insert(id, server);
}

/// `DashMap::remove`: the id is gone; an unknown id changes nothing.
#[verifier::external_body]
fn server_table_remove(m: &mut DashMap<String, Server>, id: &str)
    ensures
        server_table(*final(m)) == server_table(*old(m)).remove(id@),
{
    m.remove(id);
}

/// Lookups by id depend on the ids alone.
proof fn lemma_same_ids(s: Seq<ServerView>, t: Seq<ServerView>, id: Seq<char>)
    requires
        s.len() == t.len(),
        forall|k: int| 0 <= k < s.len() ==> (#[trigger] s[k]).id == t[k].id,
    ensures
        last_with_id(s, id) == last_with_id(t, id),
    decreases s.len(),
{
    if s.len() > 0 {
        assert forall|k: int| 0 <= k < s.drop_last().len() implies (#[trigger] s.drop_last()[k]).id == t.drop_last()[k].id by {
            assert(s.drop_last()[k] == s[k] && t.drop_last()[k] == t[k]);
        }
        lemma_same_ids(s.drop_last(), t.drop_last(), id);
        assert(s.last().id == t.last().id);
    }
}

/// Adding a server at the end puts it in the index under its id.
proof fn lemma_index_push(s: Seq<ServerView>, v: ServerView)
    ensures
        index_of(s.push(v)) == index_of(s).insert(v.id, v),
{
    let t = s.push(v);
    assert(t.drop_last() =~= s);
    assert forall|id: Seq<char>| id != v.id implies last_with_id(t, id) == last_with_id(s, id) && (last_with_id(s, id) >= 0
        ==> t[last_with_id(t, id)] == s[last_with_id(s, id)]) by {
        lemma_last_with_id_range(s, id);
    }
    assert(last_with_id(t, v.id) == s.len());
    assert(index_of(t) =~= index_of(s).insert(v.id, v));
}

/// Replacing the server the index holds for its id, by one with the same id,
/// replaces it in the index.
proof fn lemma_index_update(s: Seq<ServerView>, v: ServerView)
    requires
        last_with_id(s, v.id) >= 0,
    ensures
        index_of(s.update(last_with_id(s, v.id), v)) == index_of(s).insert(v.id, v),
{
    lemma_last_with_id_range(s, v.id);
    let i = last_with_id(s, v.id);
    let t = s.update(i, v);
    assert forall|id: Seq<char>| last_with_id(t, id) == last_with_id(s, id) by {
        lemma_same_ids(t, s, id);
    }
    assert forall|id: Seq<char>| id != v.id && last_with_id(s, id) >= 0 implies t[last_with_id(t, id)] == s[last_with_id(s, id)] by {
        lemma_last_with_id_range(s, id);
    }
    assert(index_of(t) =~= index_of(s).insert(v.id, v));
}

/// Removing every server with an id removes the id from the index and
/// leaves the other ids as they were.
proof fn lemma_index_without(s: Seq<ServerView>, id0: Seq<char>, id: Seq<char>)
    requires
        id != id0,
    ensures
        (last_with_id(without_id(s, id0), id) >= 0) == (last_with_id(s, id) >= 0),
        last_with_id(s, id) >= 0 ==> without_id(s, id0)[last_with_id(without_id(s, id0), id)] == s[last_with_id(s, id)],
    decreases s.len(),
{
    if s.len() > 0 {
        let d = s.drop_last();
        lemma_index_without(d, id0, id);
        lemma_last_with_id_range(d, id);
        lemma_last_with_id_range(without_id(d, id0), id);
        if s.last().id != id0 {
            let w = without_id(d, id0);
            assert(w.push(s.last()).drop_last() =~= w);
            assert(without_id(s, id0) == w.push(s.last()));
        }
    }
}

proof fn lemma_index_remove(s: Seq<ServerView>, id0: Seq<char>)
    ensures
        index_of(without_id(s, id0)) == index_of(s).remove(id0),
{
    lemma_remove_leaves_no_match(s, id0);
    assert forall|id: Seq<char>| id != id0 implies (last_with_id(without_id(s, id0), id) >= 0) == (last_with_id(s, id) >= 0)
        && (last_with_id(s, id) >= 0 ==> without_id(s, id0)[last_with_id(without_id(s, id0), id)] == s[last_with_id(s, id)]) by {
        lemma_index_without(s, id0, id);
    }
    assert(index_of(without_id(s, id0)) =~= index_of(s).remove(id0));
}

pub struct ServerPool {
    servers: Vec<Server>,
    /// Each id to the last server added under it.
    server_map: DashMap<String, Server>,
}

impl View for ServerPool {
    type V = Seq<ServerView>;

    closed spec fn view(&self) -> Seq<ServerView> {
        server_views(self.servers@)
    }
}

fn clone_matching(servers: &Vec<Server>, healthy: bool) -> (r: Vec<Server>)
    ensures
        healthy ==> server_views(r@) == healthy_only(server_views(servers@)),
        !healthy ==> server_views(r@) == available_only(server_views(servers@)),
{
    let ghost s = server_views(servers@);
    let mut r: Vec<Server> = Vec::new();
    let mut i: usize = 0;
    while i < servers.len()
        invariant
            s == server_views(servers@),
            i <= servers@.len(),
            healthy ==> server_views(r@) == healthy_only(s.take(i as int)),
            !healthy ==> server_views(r@) == available_only(s.take(i as int)),
        decreases servers.len() - i,
    {
        assert(s.take(i + 1).drop_last() =~= s.take(i as int));
        assert(s[i as int] == servers@[i as int]@);
        let keep = if healthy {
            servers[i].is_healthy()
        } else {
            servers[i].is_available()
        };
        if keep {
            let c = servers[i].clone();
            let ghost before = r@;
            r.push(c);
            assert(server_views(r@) =~= server_views(before).push(c@));
        }
        i = i + 1;
    }
    assert(s.take(servers@.len() as int) =~= s);
    r
}

impl ServerPool {
    #[verifier::type_invariant]
    spec fn indexed(&self) -> bool {
        server_table(self.server_map) == index_of(server_views(self.servers@))
    }

    fn empty() -> (p: Self)
        ensures
            p@ == Seq::<ServerView>::empty(),
    {
        let servers: Vec<Server> = Vec::new();
        let server_map = server_table_new();
        proof {
            assert(index_of(server_views(servers@)) =~= no_servers());
        }
        ServerPool { servers, server_map }
    }

    /// Takes the pool's contents out, leaving it empty.
    fn take(&mut self) -> (r: (Vec<Server>, DashMap<String, Server>))
        ensures
            server_views(r.0@) == old(self)@,
            server_table(r.1) == index_of(old(self)@),
    {
        let mut p = ServerPool::empty();
        std::mem::swap(&mut p, self);
        proof {
            use_type_invariant(&p);
        }
        let ServerPool { servers, server_map } = p;
        (servers, server_map)
    }

    pub fn new(servers: Vec<Server>) -> (p: Self)
        ensures
            p@ == server_views(servers@),
    {
        let ghost s = server_views(servers@);
        let mut server_map = server_table_new();
        let mut i: usize = 0;
        assert(index_of(s.take(0)) =~= no_servers());
        while i < servers.len()
            invariant
                s == server_views(servers@),
                i <= servers@.len(),
                server_table(server_map) == index_of(s.take(i as int)),
            decreases servers.len() - i,
        {
            let c = servers[i].clone();
            proof {
                assert(s.take(i + 1) =~= s.take(i as int).push(c@));
                lemma_index_push(s.take(i as int), c@);
            }
            server_table_insert(&mut server_map, servers[i].id().clone(), c);
            i = i + 1;
        }
        assert(s.take(servers@.len() as int) =~= s);
        ServerPool { servers, server_map }
    }

    /// Copies of the servers that are up, in pool order.
    pub fn get_healthy_servers(&self) -> (r: Vec<Server>)
        ensures
            server_views(r@) == healthy_only(self@),
    {
        clone_matching(&self.servers, true)
    }

    /// Copies of the servers that are up or draining, in pool order.
    pub fn get_available_servers(&self) -> (r: Vec<Server>)
        ensures
            server_views(r@) == available_only(self@),
    {
        clone_matching(&self.servers, false)
    }

    /// Copies of all servers, in pool order.
    pub fn get_all_servers(&self) -> (r: Vec<Server>)
        ensures
            server_views(r@) == self@,
    {
        let mut r: Vec<Server> = Vec::new();
        let mut i: usize = 0;
        while i < self.servers.len()
            invariant
                i <= self.servers@.len(),
                server_views(r@) == server_views(self.servers@).take(i as int),
            decreases self.servers.len() - i,
        {
            let c = self.servers[i].clone();
            let ghost before = r@;
            r.push(c);
            assert(server_views(r@) =~= server_views(before).push(c@));
            assert(server_views(r@) =~= server_views(self.servers@).take(i + 1));
            i = i + 1;
        }
        assert(server_views(self.servers@).take(self.servers@.len() as int) =~= server_views(
            self.servers@,
        ));
        r
    }

    /// Position of the last server with the given id.
    fn find(&self, id: &str) -> (r: Option<usize>)
        ensures
            r is None <==> last_with_id(self@, id@) == -1,
            r is Some ==> r->0 as int == last_with_id(self@, id@) && r->0 < self.servers@.len() && self@[r->0 as int].id == id@,
            self@.len() == self.servers@.len(),
    {
        proof {
            lemma_last_with_id_range(self@, id@);
        }
        let mut i: usize = self.servers.len();
        while i > 0
            invariant
                i <= self.servers@.len(),
                forall|k: int| i <= k < self@.len() ==> (#[trigger] self@[k]).id != id@,
                -1 <= last_with_id(self@, id@) < self@.len(),
                forall|k: int| last_with_id(self@, id@) < k < self@.len() ==> (#[trigger] self@[k]).id
                    != id@,
                last_with_id(self@, id@) >= 0 ==> self@[last_with_id(self@, id@)].id == id@,
            decreases i,
        {
            assert(self@[i - 1] == self.servers@[i - 1]@);
            if str_eq(self.servers[i - 1].id().as_str(), id) {
                return Some(i - 1);
            }
            i = i - 1;
        }
        None
    }

    /// The server registered under `id`, if any.
    pub fn get_server(&self, id: &str) -> (r: Option<Server>)
        ensures
            r is None <==> last_with_id(self@, id@) == -1,
            r is Some ==> r->0@ == self@[last_with_id(self@, id@)],
    {
        proof {
            use_type_invariant(self);
            lemma_last_with_id_range(self@, id@);
        }
        server_table_get(&self.server_map, id)
    }

    /// Puts `server` in place `i`, where the index finds its id.
    fn put_at(&mut self, i: usize, server: Server)
        requires
            i == last_with_id(old(self)@, server@.id),
            0 <= i < old(self)@.len(),
        ensures
            final(self)@ == old(self)@.update(i as int, server@),
    {
        let (mut servers, mut server_map) = self.take();
        let ghost s = server_views(servers@);
        let ghost v = server@;
        let id = server.id().clone();
        let c = server.clone();
        servers.set(i, server);
        assert(server_views(servers@) =~= s.update(i as int, v));
        proof {
            lemma_index_update(s, v);
        }
        server_table_insert(&mut server_map, id, c);
        *self = ServerPool { servers, server_map };
    }

    fn set_status_of(&mut self, i: usize, status: ServerStatus)
        requires
            i as int == last_with_id(old(self)@, old(self)@[i as int].id),
            i < old(self)@.len(),
        ensures
            final(self)@.len() == old(self)@.len(),
            forall|k: int| 0 <= k < old(self)@.len() && k != i ==> #[trigger] final(self)@[k] == old(
                self,
            )@[k],
            old(self)@[i as int].status_set(final(self)@[i as int], status),
    {
        assert(self@[i as int] == self.servers@[i as int]@);
        let mut s = self.servers[i].clone();
        s.set_status(status);
        self.put_at(i, s);
        assert(final(self)@ =~= old(self)@.update(i as int, s@));
    }

    /// Sets the status of the server registered under `id`; an unknown id is
    /// refused and changes nothing.
    pub fn update_server_status(&mut self, id: &str, status: ServerStatus) -> (r: Result<(), LoadBalancerError>)
        ensures
            last_with_id(old(self)@, id@) == -1 <==> r is Err,
            r is Err ==> final(self)@ == old(self)@ && (r->Err_0 matches LoadBalancerError::InvalidBackendAddress(a) && a@ == id@),
            r is Ok ==> status_updated(old(self)@, final(self)@, last_with_id(old(self)@, id@), status),
    {
        match self.find(id) {
            Some(i) => {
                self.set_status_of(i, status);
                Ok(())
            },
            None => Err(LoadBalancerError::InvalidBackendAddress(id.to_string())),
        }
    }

    /// Marks the server registered under `id` down; an unknown id changes
    /// nothing.
    pub fn mark_server_down(&mut self, id: &str)
        ensures
            last_with_id(old(self)@, id@) == -1 ==> final(self)@ == old(self)@,
            last_with_id(old(self)@, id@) >= 0 ==> status_updated(
                old(self)@,
                final(self)@,
                last_with_id(old(self)@, id@),
                ServerStatus::Down,
            ),
    {
        if let Some(i) = self.find(id) {
            self.set_status_of(i, ServerStatus::Down);
        }
    }

    /// Marks the server registered under `id` up again (failures cleared,
    /// one more success counted); an unknown id changes nothing.
    pub fn mark_server_up(&mut self, id: &str)
        ensures
            last_with_id(old(self)@, id@) == -1 ==> final(self)@ == old(self)@,
            last_with_id(old(self)@, id@) >= 0 ==> {
                let i = last_with_id(old(self)@, id@);
                &&& final(self)@.len() == old(self)@.len()
                &&& forall|k: int| 0 <= k < old(self)@.len() && k != i ==> #[trigger] final(self)@[k]
                    == old(self)@[k]
                &&& (ServerView {
                    fail_count: 0,
                    success_count: old(self)@[i].success_count.wrapping_add(1),
                    ..old(self)@[i]
                }).status_set(final(self)@[i], ServerStatus::Up)
            },
    {
        if let Some(i) = self.find(id) {
            assert(self@[i as int] == self.servers@[i as int]@);
            let mut s = self.servers[i].clone();
            s.mark_healthy();
            self.put_at(i, s);
            assert(final(self)@ =~= old(self)@.update(i as int, s@));
        }
    }

    /// Puts `server` in the place of the server registered under its id (the
    /// state a caller changed on a copy goes back into the pool); a server
    /// whose id is unknown is refused and changes nothing.
    pub fn replace_server(&mut self, server: Server) -> (r: Result<(), LoadBalancerError>)
        ensures
            last_with_id(old(self)@, server@.id) == -1 <==> r is Err,
            r is Err ==> final(self)@ == old(self)@ && (r->Err_0 matches LoadBalancerError::InvalidBackendAddress(a) && a@ == server@.id),
            r is Ok ==> final(self)@ == old(self)@.update(last_with_id(old(self)@, server@.id), server@),
    {
        let id = server.id().clone();
        match self.find(id.as_str()) {
            Some(i) => {
                self.put_at(i, server);
                Ok(())
            },
            None => Err(LoadBalancerError::InvalidBackendAddress(id)),
        }
    }

    /// Adds a server at the end of the pool; it becomes the one found under
    /// its id.
    pub fn add_server(&mut self, server: Server)
        ensures
            final(self)@ == old(self)@.push(server@),
    {
        let (mut servers, mut server_map) = self.take();
        let ghost s = server_views(servers@);
        let ghost v = server@;
        let id = server.id().clone();
        let c = server.clone();
        servers.push(server);
        assert(server_views(servers@) =~= s.push(v));
        proof {
            lemma_index_push(s, v);
        }
        server_table_insert(&mut server_map, id, c);
        *self = ServerPool { servers, server_map };
    }

    /// Removes every server registered under `id`; an unknown id is refused.
    pub fn remove_server(&mut self, id: &str) -> (r: Result<(), LoadBalancerError>)
        ensures
            last_with_id(old(self)@, id@) == -1 <==> r is Err,
            r is Err ==> final(self)@ == old(self)@ && (r->Err_0 matches LoadBalancerError::InvalidBackendAddress(a) && a@ == id@),
            r is Ok ==> final(self)@ == without_id(old(self)@, id@),
    {
        proof {
            use_type_invariant(&*self);
            lemma_last_with_id_range(self@, id@);
        }
        if server_table_get(&self.server_map, id).is_none() {
            return Err(LoadBalancerError::InvalidBackendAddress(id.to_string()));
        }
        let (servers, mut server_map) = self.take();
        let ghost s = server_views(servers@);
        let mut kept: Vec<Server> = Vec::new();
        let mut i: usize = 0;
        while i < servers.len()
            invariant
                s == server_views(servers@),
                i <= servers@.len(),
                server_views(kept@) == without_id(s.take(i as int), id@),
            decreases servers.len() - i,
        {
            assert(s.take(i + 1).drop_last() =~= s.take(i as int));
            assert(s[i as int] == servers@[i as int]@);
            if !str_eq(servers[i].id().as_str(), id) {
                let c = servers[i].clone();
                let ghost before = kept@;
                kept.push(c);
                assert(server_views(kept@) =~= server_views(before).push(c@));
            }
            i = i + 1;
        }
        assert(s.take(s.len() as int) =~= s);
        proof {
            lemma_index_remove(s, id@);
        }
        server_table_remove(&mut server_map, id);
        *self = ServerPool { servers: kept, server_map };
        Ok(())
    }

    pub fn server_count(&self) -> (r: usize)
        ensures
            r == self@.len(),
    {
        self.servers.len()
    }

    pub fn healthy_count(&self) -> (r: usize)
        ensures
            r == healthy_only(self@).len(),
    {
        let h = self.get_healthy_servers();
        assert(server_views(h@).len() == h@.len());
        h.len()
    }

    /// Sum of the open connections of all servers.
    pub fn total_connections(&self) -> (r: u32)
        requires
            connection_sum(self@) <= u32::MAX,
        ensures
            r == connection_sum(self@),
    {
        let ghost s = self@;
        let mut total: u32 = 0;
        let mut i: usize = 0;
        while i < self.servers.len()
            invariant
                s == server_views(self.servers@),
                i <= self.servers@.len(),
                connection_sum(s) <= u32::MAX,
                total == connection_sum(s.take(i as int)),
            decreases self.servers.len() - i,
        {
            assert(s.take(i + 1).drop_last() =~= s.take(i as int));
            assert(s[i as int] == self.servers@[i as int]@);
            proof {
                lemma_connection_sum_prefix(s, i + 1);
            }
            total = total + self.servers[i].connection_count();
            i = i + 1;
        }
        assert(s.take(s.len() as int) =~= s);
        total
    }
}

/// `after` is `before` with only server `i`'s status set to `status`.
pub open spec fn status_updated(before: Seq<ServerView>, after: Seq<ServerView>, i: int, status: ServerStatus) -> bool {
    &&& 0 <= i < before.len()
    &&& after.len() == before.len()
    &&& forall|k: int| 0 <= k < before.len() && k != i ==> #[trigger] after[k] == before[k]
    &&& before[i].status_set(after[i], status)
}

proof fn lemma_connection_sum_prefix(s: Seq<ServerView>, k: int)
    requires
        0 <= k <= s.len(),
    ensures
        connection_sum(s.take(k)) <= connection_sum(s),
    decreases s.len() - k,
{
    if k < s.len() {
        assert(s.drop_last().take(k) =~= s.take(k));
        lemma_connection_sum_prefix(s.drop_last(), k);
    } else {
        assert(s.take(k) =~= s);
    }
}

/// After a server is removed by id, none of that id is left, and every other
/// server is still there: removal neither loses nor keeps the wrong servers.
pub proof fn lemma_remove_leaves_no_match(s: Seq<ServerView>, id: Seq<char>)
    ensures
        forall|i: int| 0 <= i < without_id(s, id).len() ==> (#[trigger] without_id(s, id)[i]).id != id,
        last_with_id(without_id(s, id), id) == -1,
        without_id(s, id).len() <= s.len(),
    decreases s.len(),
{
    if s.len() > 0 {
        lemma_remove_leaves_no_match(s.drop_last(), id);
    }
    lemma_last_with_id_range(without_id(s, id), id);
}

/// A server just added is the one found under its id.
pub proof fn lemma_added_server_found(s: Seq<ServerView>, v: ServerView)
    ensures
        last_with_id(s.push(v), v.id) == s.len(),
{
    assert(s.push(v).drop_last() =~= s);
}

} // verus!
