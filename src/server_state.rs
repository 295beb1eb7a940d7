//! The routing table: virtual hostname to upstream address and the names
//! of the players currently proxied there.

use vstd::prelude::*;

verus! {

broadcast use {vstd::seq_lib::to_multiset_build, vstd::seq_lib::to_multiset_remove};

/// An IP address, as its octets or its sixteen-bit segments.
#[derive(Debug, Clone, Copy, PartialEq, Eq)]
pub enum IpAddress {
    V4([u8; 4]),
    V6([u16; 8]),
}

/// The socket address of an upstream server.
#[derive(Debug, Clone, Copy, PartialEq, Eq)]
pub struct SocketAddress {
    pub ip: IpAddress,
    pub port: u16,
}

/// One route: where to proxy, and who is proxied there now.
pub struct ServerConfig {
    pub upstream: SocketAddress,
    pub players: Vec<String>,
}

/// Abstract route.
pub struct RouteModel {
    pub upstream: SocketAddress,
    pub players: Seq<Seq<char>>,
}

/// The names held by a list of strings.
pub open spec fn names(v: Seq<String>) -> Seq<Seq<char>> {
    v.map_values(|p: String| p@)
}

impl View for ServerConfig {
    type V = RouteModel;

    open spec fn view(&self) -> RouteModel {
        RouteModel { upstream: self.upstream, players: names(self.players@) }
    }
}

/// The player list after appending `p`.
pub open spec fn players_with(s: Seq<Seq<char>>, p: Seq<char>) -> Seq<Seq<char>> {
    s.push(p)
}

/// The player list after removing the first occurrence of `p`, if any.
pub open spec fn players_without(s: Seq<Seq<char>>, p: Seq<char>) -> Seq<Seq<char>> {
    match s.index_of_first(p) {
        Some(i) => s.remove(i),
        None => s,
    }
}

impl ServerConfig {
    pub fn new(upstream: SocketAddress) -> (r: ServerConfig)
        ensures
            r@.upstream == upstream,
            r@.players == Seq::<Seq<char>>::empty(),
    {
        let r = ServerConfig { upstream, players: Vec::new() };
        assert(r@.players =~= Seq::<Seq<char>>::empty());
        r
    }

    pub fn add_player(&mut self, player: String)
        ensures
            final(self)@.upstream == old(self)@.upstream,
            final(self)@.players == players_with(old(self)@.players, player@),
    {
        self.players.push(player);
        assert(self@.players =~= players_with(old(self)@.players, player@));
    }

    /// Removes one occurrence of `player`, the first, if there is one.
    pub fn remove_player(&mut self, player: &str)
        ensures
            final(self)@.upstream == old(self)@.upstream,
            final(self)@.players == players_without(old(self)@.players, player@),
    {
        let ghost s = self@.players;
        let target = player.to_owned();
        let mut i: usize = 0;
        while i < self.players.len()
            invariant
                s == self@.players,
                s == old(self)@.players,
                self.upstream == old(self).upstream,
                target@ == player@,
                i <= self.players@.len(),
                forall|j: int| 0 <= j < i ==> s[j] != player@,
            decreases self.players@.len() - i,
        {
            assert(s[i as int] == self.players@[i as int]@);
            if self.players[i] == target {
                proof {
                    s.index_of_first_ensures(player@);
                    let k = s.index_of_first(player@)->0;
                    assert(k == i);
                }
                self.players.remove(i);
                assert(self@.players =~= s.remove(i as int));
                return;
            }
            i = i + 1;
        }
        proof {
            s.index_of_first_ensures(player@);
        }
    }

    /// A copy of this route.
    pub fn duplicate(&self) -> (r: ServerConfig)
        ensures
            r@ == self@,
    {
        let mut players: Vec<String> = Vec::new();
        let mut i: usize = 0;
        while i < self.players.len()
            invariant
                i <= self.players@.len(),
                players@.len() == i,
                names(players@) == self@.players.take(i as int),
            decreases self.players@.len() - i,
        {
            let p = self.players[i].clone();
            assert(p@ == self@.players[i as int]);
            let ghost prev = players@;
            let ghost pv = p@;
            players.push(p);
            assert(players@ == prev.push(p));
            proof {
                assert forall|k: int| 0 <= k < prev.len() implies names(players@)[k] == names(
                    prev,
                )[k] by {
                    assert(players@[k] == prev[k]);
                }
                assert(players@[i as int]@ == pv);
                assert(names(players@)[i as int] == pv);
                assert(names(players@) =~= self@.players.take(i + 1));
            }
            i = i + 1;
        }
        assert(self@.players.take(i as int) =~= self@.players);
        ServerConfig { upstream: self.upstream, players }
    }
}

/// For every player list `s` and name `p`: after appending `p`, `p` is in
/// the list; removing it again restores the list's multiset of names, so
/// a name absent before is absent after.
pub proof fn lemma_add_then_remove_player(s: Seq<Seq<char>>, p: Seq<char>)
    ensures
        players_with(s, p).contains(p),
        players_without(players_with(s, p), p).to_multiset() == s.to_multiset(),
        !s.contains(p) ==> !players_without(players_with(s, p), p).contains(p),
{
    broadcast use vstd::multiset::group_multiset_axioms;

    let t = s.push(p);
    assert(t[s.len() as int] == p);
    t.index_of_first_ensures(p);
    let i = t.index_of_first(p)->0;
    assert(t.remove(i).to_multiset() == t.to_multiset().remove(p));
    assert(t.to_multiset().remove(p) =~= s.to_multiset());
    if !s.contains(p) {
        vstd::seq_lib::to_multiset_contains(s, p);
        vstd::seq_lib::to_multiset_contains(t.remove(i), p);
    }
}


/// A routing table entry.
struct Route {
    host: String,
    config: ServerConfig,
}

/// The abstract entries of a list of routes, in order.
closed spec fn route_entries(v: Seq<Route>) -> Seq<(Seq<char>, RouteModel)> {
    v.map_values(|r: Route| (r.host@, r.config@))
}

/// No host appears twice.
pub open spec fn keys_unique(s: Seq<(Seq<char>, RouteModel)>) -> bool {
    forall|i: int, j: int| 0 <= i < j < s.len() ==> s[i].0 != s[j].0
}

/// The map that a list of entries with distinct hosts stands for.
pub open spec fn entries_map(s: Seq<(Seq<char>, RouteModel)>) -> Map<Seq<char>, RouteModel>
    decreases s.len(),
{
    if s.len() == 0 {
        Map::empty()
    } else {
        entries_map(s.drop_last()).insert(s.last().0, s.last().1)
    }
}

proof fn lemma_entries_absent(s: Seq<(Seq<char>, RouteModel)>, h: Seq<char>)
    requires
        forall|i: int| 0 <= i < s.len() ==> s[i].0 != h,
    ensures
        !entries_map(s).contains_key(h),
    decreases s.len(),
{
    if s.len() > 0 {
        lemma_entries_absent(s.drop_last(), h);
    }
}

proof fn lemma_entries_lookup(s: Seq<(Seq<char>, RouteModel)>, i: int)
    requires
        keys_unique(s),
        0 <= i < s.len(),
    ensures
        entries_map(s).contains_key(s[i].0),
        entries_map(s)[s[i].0] == s[i].1,
    decreases s.len(),
{
    if i < s.len() - 1 {
        lemma_entries_lookup(s.drop_last(), i);
    }
}

proof fn lemma_entries_update(s: Seq<(Seq<char>, RouteModel)>, i: int, v: RouteModel)
    requires
        keys_unique(s),
        0 <= i < s.len(),
    ensures
        entries_map(s.update(i, (s[i].0, v))) == entries_map(s).insert(s[i].0, v),
    decreases s.len(),
{
    let u = s.update(i, (s[i].0, v));
    if i == s.len() - 1 {
        assert(u.drop_last() =~= s.drop_last());
        assert(entries_map(u) =~= entries_map(s).insert(s[i].0, v));
    } else {
        assert(u.drop_last() =~= s.drop_last().update(i, (s[i].0, v)));
        lemma_entries_update(s.drop_last(), i, v);
        assert(entries_map(u) =~= entries_map(s).insert(s[i].0, v));
    }
}

proof fn lemma_entries_remove(s: Seq<(Seq<char>, RouteModel)>, i: int)
    requires
        keys_unique(s),
        0 <= i < s.len(),
    ensures
        entries_map(s.remove(i)) == entries_map(s).remove(s[i].0),
    decreases s.len(),
{
    if i == s.len() - 1 {
        assert(s.remove(i) =~= s.drop_last());
        lemma_entries_absent(s.drop_last(), s[i].0);
        assert(entries_map(s.remove(i)) =~= entries_map(s).remove(s[i].0));
    } else {
        assert(s.remove(i).drop_last() =~= s.drop_last().remove(i));
        lemma_entries_remove(s.drop_last(), i);
        assert(entries_map(s.remove(i)) =~= entries_map(s).remove(s[i].0));
    }
}

/// The table after appending `p` to the players of route `h`, if present.
pub open spec fn table_add_player(
    t: Map<Seq<char>, RouteModel>,
    h: Seq<char>,
    p: Seq<char>,
) -> Map<Seq<char>, RouteModel> {
    if t.contains_key(h) {
        t.insert(h, RouteModel { upstream: t[h].upstream, players: players_with(t[h].players, p) })
    } else {
        t
    }
}

/// The table after removing one `p` from the players of route `h`, if
/// present.
pub open spec fn table_remove_player(
    t: Map<Seq<char>, RouteModel>,
    h: Seq<char>,
    p: Seq<char>,
) -> Map<Seq<char>, RouteModel> {
    if t.contains_key(h) {
        t.insert(
            h,
            RouteModel { upstream: t[h].upstream, players: players_without(t[h].players, p) },
        )
    } else {
        t
    }
}

/// The routing table: hostname to route, each hostname at most once.
/// It is held as a list of routes: vstd specifies std's `HashMap` only for
/// keys known to obey its key model, which `String` is not shown to do.
pub struct Configuration {
    routes: Vec<Route>,
}

impl View for Configuration {
    type V = Map<Seq<char>, RouteModel>;

    closed spec fn view(&self) -> Map<Seq<char>, RouteModel> {
        entries_map(route_entries(self.routes@))
    }
}

impl Configuration {
    #[verifier::type_invariant]
    closed spec fn hosts_unique(&self) -> bool {
        keys_unique(route_entries(self.routes@))
    }

    pub fn new() -> (r: Configuration)
        ensures
            r@ == Map::<Seq<char>, RouteModel>::empty(),
    {
        let r = Configuration { routes: Vec::new() };
        assert(route_entries(r.routes@) =~= Seq::<(Seq<char>, RouteModel)>::empty());
        r
    }

    /// The index of the route for `host`, if there is one.
    fn find(routes: &Vec<Route>, host: &String) -> (r: Option<usize>)
        ensures
            match r {
                Some(i) => i < routes@.len() && route_entries(routes@)[i as int].0 == host@,
                None => forall|i: int|
                    0 <= i < routes@.len() ==> route_entries(routes@)[i].0 != host@,
            },
    {
        let mut i: usize = 0;
        while i < routes.len()
            invariant
                i <= routes@.len(),
                forall|j: int| 0 <= j < i ==> route_entries(routes@)[j].0 != host@,
            decreases routes@.len() - i,
        {
            assert(route_entries(routes@)[i as int].0 == routes@[i as int].host@);
            if routes[i].host == *host {
                return Some(i);
            }
            i = i + 1;
        }
        None
    }

    /// The hostnames in the table, each once.
    pub fn get_server_hosts(&self) -> (r: Vec<String>)
        ensures
            forall|i: int| 0 <= i < r@.len() ==> self@.contains_key(#[trigger] r@[i]@),
            forall|h: Seq<char>| self@.contains_key(h) ==> names(r@).contains(h),
            forall|i: int, j: int| 0 <= i < j < r@.len() ==> r@[i]@ != r@[j]@,
    {
        proof {
            use_type_invariant(self);
        }
        let ghost s = route_entries(self.routes@);
        let mut hosts: Vec<String> = Vec::new();
        let mut i: usize = 0;
        while i < self.routes.len()
            invariant
                s == route_entries(self.routes@),
                keys_unique(s),
                i <= self.routes@.len(),
                hosts@.len() == i,
                forall|j: int| 0 <= j < i ==> hosts@[j]@ == s[j].0,
            decreases self.routes@.len() - i,
        {
            hosts.push(self.routes[i].host.clone());
            i = i + 1;
        }
        proof {
            assert forall|j: int| 0 <= j < hosts@.len() implies self@.contains_key(
                #[trigger] hosts@[j]@,
            ) by {
                lemma_entries_lookup(s, j);
            }
            assert forall|h: Seq<char>| self@.contains_key(h) implies names(hosts@).contains(h) by {
                if forall|j: int| 0 <= j < s.len() ==> s[j].0 != h {
                    lemma_entries_absent(s, h);
                }
                let j = choose|j: int| 0 <= j < s.len() && s[j].0 == h;
                assert(names(hosts@)[j] == h);
            }
            assert forall|i: int, j: int| 0 <= i < j < hosts@.len() implies hosts@[i]@
                != hosts@[j]@ by {
                assert(hosts@[i]@ == s[i].0);
                assert(hosts@[j]@ == s[j].0);
            }
        }
        hosts
    }

    /// Adds the route for `host`, replacing any route it had.
    pub fn add_server(&mut self, host: &str, server: ServerConfig)
        ensures
            final(self)@ == old(self)@.insert(host@, server@),
    {
        proof {
            use_type_invariant(&*self);
        }
        let h = host.to_owned();
        let mut routes: Vec<Route> = Vec::new();
        std::mem::swap(&mut self.routes, &mut routes);
        let ghost s = route_entries(routes@);
        match Configuration::find(&routes, &h) {
            Some(i) => {
                routes.remove(i);
                routes.insert(i, Route { host: h, config: server });
                proof {
                    assert(route_entries(routes@) =~= s.update(i as int, (host@, server@)));
                    lemma_entries_update(s, i as int, server@);
                }
            },
            None => {
                routes.push(Route { host: h, config: server });
                proof {
                    assert(route_entries(routes@) =~= s.push((host@, server@)));
                    assert(route_entries(routes@).drop_last() =~= s);
                }
            },
        }
        self.routes = routes;
    }

    /// Removes and returns the route for `host`.
    pub fn remove_server(&mut self, host: &str) -> (r: Option<ServerConfig>)
        ensures
            final(self)@ == old(self)@.remove(host@),
            match r {
                Some(c) => old(self)@.contains_key(host@) && c@ == old(self)@[host@],
                None => !old(self)@.contains_key(host@),
            },
    {
        proof {
            use_type_invariant(&*self);
        }
        let h = host.to_owned();
        let mut routes: Vec<Route> = Vec::new();
        std::mem::swap(&mut self.routes, &mut routes);
        let ghost s = route_entries(routes@);
        let r = match Configuration::find(&routes, &h) {
            Some(i) => {
                proof {
                    lemma_entries_lookup(s, i as int);
                    lemma_entries_remove(s, i as int);
                }
                let route = routes.remove(i);
                assert(route_entries(routes@) =~= s.remove(i as int));
                Some(route.config)
            },
            None => {
                proof {
                    lemma_entries_absent(s, host@);
                    assert(entries_map(s) =~= entries_map(s).remove(host@));
                }
                None
            },
        };
        self.routes = routes;
        r
    }

    /// The route for `host`, if there is one.
    pub fn get_server(&self, host: &str) -> (r: Option<&ServerConfig>)
        ensures
            match r {
                Some(c) => self@.contains_key(host@) && c@ == self@[host@],
                None => !self@.contains_key(host@),
            },
    {
        proof {
            use_type_invariant(self);
        }
        let h = host.to_owned();
        match Configuration::find(&self.routes, &h) {
            Some(i) => {
                proof {
                    lemma_entries_lookup(route_entries(self.routes@), i as int);
                }
                Some(&self.routes[i].config)
            },
            None => {
                proof {
                    lemma_entries_absent(route_entries(self.routes@), host@);
                }
                None
            },
        }
    }

    /// Appends `player` to the players of the route for `host`; whether
    /// there was such a route.
    pub fn add_player(&mut self, host: &str, player: String) -> (r: bool)
        ensures
            r == old(self)@.contains_key(host@),
            final(self)@ == table_add_player(old(self)@, host@, player@),
    {
        proof {
            use_type_invariant(&*self);
        }
        let h = host.to_owned();
        let mut routes: Vec<Route> = Vec::new();
        std::mem::swap(&mut self.routes, &mut routes);
        let ghost s = route_entries(routes@);
        let r = match Configuration::find(&routes, &h) {
            Some(i) => {
                let mut route = routes.remove(i);
                let ghost before = route.config@;
                route.config.add_player(player);
                let ghost after = route.config@;
                routes.insert(i, route);
                proof {
                    lemma_entries_lookup(s, i as int);
                    assert(route_entries(routes@) =~= s.update(i as int, (host@, after)));
                    lemma_entries_update(s, i as int, after);
                    assert(after == (RouteModel {
                        upstream: before.upstream,
                        players: players_with(before.players, player@),
                    }));
                }
                true
            },
            None => {
                proof {
                    lemma_entries_absent(s, host@);
                }
                false
            },
        };
        self.routes = routes;
        r
    }

    /// Removes one `player` from the players of the route for `host`;
    /// whether there was such a route.
    pub fn remove_player(&mut self, host: &str, player: &str) -> (r: bool)
        ensures
            r == old(self)@.contains_key(host@),
            final(self)@ == table_remove_player(old(self)@, host@, player@),
    {
        proof {
            use_type_invariant(&*self);
        }
        let h = host.to_owned();
        let mut routes: Vec<Route> = Vec::new();
        std::mem::swap(&mut self.routes, &mut routes);
        let ghost s = route_entries(routes@);
        let r = match Configuration::find(&routes, &h) {
            Some(i) => {
                let mut route = routes.remove(i);
                let ghost before = route.config@;
                route.config.remove_player(player);
                let ghost after = route.config@;
                routes.insert(i, route);
                proof {
                    lemma_entries_lookup(s, i as int);
                    assert(route_entries(routes@) =~= s.update(i as int, (host@, after)));
                    lemma_entries_update(s, i as int, after);
                    assert(after == (RouteModel {
                        upstream: before.upstream,
                        players: players_without(before.players, player@),
                    }));
                }
                true
            },
            None => {
                proof {
                    lemma_entries_absent(s, host@);
                }
                false
            },
        };
        self.routes = routes;
        r
    }
}

/// For every table `t`, route `h` present in it and player `p`: once `p`
/// is added, a read of `h` lists `p`; removing `p` again restores the
/// multiset of `h`'s players, so a name absent before is absent after.
pub proof fn lemma_player_membership(t: Map<Seq<char>, RouteModel>, h: Seq<char>, p: Seq<char>)
    requires
        t.contains_key(h),
    ensures
        table_add_player(t, h, p).contains_key(h),
        table_add_player(t, h, p)[h].players.contains(p),
        table_remove_player(table_add_player(t, h, p), h, p)[h].players.to_multiset()
            == t[h].players.to_multiset(),
        !t[h].players.contains(p) ==> !table_remove_player(table_add_player(t, h, p), h, p)[h].players.contains(p),
{
    lemma_add_then_remove_player(t[h].players, p);
}


/// For every table `t`, route `h` in it and name `p` listed there: removing
/// `p` takes exactly one occurrence of it from `h`'s players and leaves the
/// other names, the upstream and every other route as they were.
pub proof fn lemma_remove_player_once(t: Map<Seq<char>, RouteModel>, h: Seq<char>, p: Seq<char>)
    requires
        t.contains_key(h),
        t[h].players.contains(p),
    ensures
        table_remove_player(t, h, p).dom() == t.dom(),
        table_remove_player(t, h, p)[h].upstream == t[h].upstream,
        table_remove_player(t, h, p)[h].players.to_multiset() == t[h].players.to_multiset().remove(
            p,
        ),
        forall|g: Seq<char>| #[trigger] t.contains_key(g) && g != h ==> table_remove_player(t, h, p)[g]
            == t[g],
{
    let s = t[h].players;
    s.index_of_first_ensures(p);
    let i = s.index_of_first(p)->0;
    assert(s.remove(i).to_multiset() == s.to_multiset().remove(s[i]));
    assert(table_remove_player(t, h, p).dom() =~= t.dom());
}

} // verus!
