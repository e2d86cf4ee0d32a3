//! The service's settings, read from environment variables.
use vstd::prelude::*;
use crate::env::{
    env_get, env_value, env_view, flag_set, list_items, positive_i64_or, positive_or, read_flag,
    read_list, read_positive_i64, read_text, read_unsigned, text_or, unsigned_or,
};
use crate::keyed::{
    has_key_at, keys_distinct, lemma_push_distinct, lemma_table_of, lemma_table_push,
    lemma_table_update, table_of,
};
use crate::links::string_views;
use crate::net::{parse_ip_address, parse_socket_address, ip_address_of, socket_address_of, IpAddress, SocketAddress};
use crate::text::{chars_eq, chars_of, string_of, sub_chars, trim, trim_chars};

verus! {

/// The text before and after the first `c`, if `s` holds one.
pub open spec fn split_once(s: Seq<char>, c: char) -> Option<(Seq<char>, Seq<char>)>
    decreases s.len(),
{
    if s.len() == 0 {
        None
    } else if s[0] == c {
        Some((seq![], s.drop_first()))
    } else {
        match split_once(s.drop_first(), c) {
            Some(p) => Some((seq![s[0]] + p.0, p.1)),
            None => None,
        }
    }
}

/// An override entry `host=addr|addr|...`: the trimmed host and the address
/// texts.
pub open spec fn override_candidate(entry: Seq<char>) -> Option<(Seq<char>, Seq<Seq<char>>)> {
    match split_once(entry, '=') {
        Some(p) => Some((trim(p.0), list_items(p.1, '|'))),
        None => None,
    }
}

/// The override entries of a `FETCH_HOST_OVERRIDES` value, in order.
pub open spec fn override_candidates_of(entries: Seq<Seq<char>>) -> Seq<(Seq<char>, Seq<Seq<char>>)>
    decreases entries.len(),
{
    if entries.len() == 0 {
        seq![]
    } else {
        let rest = override_candidates_of(entries.drop_last());
        match override_candidate(entries.last()) {
            Some(c) => rest.push(c),
            None => rest,
        }
    }
}

/// The views of override candidates.
pub open spec fn candidate_views(v: Seq<(String, Vec<String>)>) -> Seq<(Seq<char>, Seq<Seq<char>>)> {
    v.map_values(|p: (String, Vec<String>)| (p.0@, string_views(p.1@)))
}

fn split_once_chars(s: &[char], c: char) -> (r: Option<(Vec<char>, Vec<char>)>)
    ensures
        match r {
            Some(p) => split_once(s@, c) == Some((p.0@, p.1@)),
            None => split_once(s@, c) is None,
        },
{
    let mut i: usize = 0;
    while i < s.len()
        invariant
            i <= s@.len(),
            forall|j: int| 0 <= j < i ==> s@[j] != c,
        decreases s@.len() - i,
    {
        if s[i] == c {
            proof {
                lemma_split_once_at(s@, c, i as int);
            }
            return Some((sub_chars(s, 0, i), sub_chars(s, i + 1, s.len())));
        }
        i = i + 1;
    }
    proof {
        lemma_split_once_none(s@, c);
    }
    None
}

proof fn lemma_split_once_at(s: Seq<char>, c: char, i: int)
    requires
        0 <= i < s.len(),
        s[i] == c,
        forall|j: int| 0 <= j < i ==> s[j] != c,
    ensures
        split_once(s, c) == Some((s.subrange(0, i), s.subrange(i + 1, s.len() as int))),
    decreases i,
{
    if i > 0 {
        lemma_split_once_at(s.drop_first(), c, i - 1);
        assert(seq![s[0]] + s.drop_first().subrange(0, i - 1) =~= s.subrange(0, i));
        assert(s.drop_first().subrange(i, s.drop_first().len() as int) =~= s.subrange(
            i + 1,
            s.len() as int,
        ));
    } else {
        assert(s.subrange(0, 0) =~= Seq::<char>::empty());
        assert(s.drop_first() =~= s.subrange(1, s.len() as int));
    }
}

proof fn lemma_split_once_none(s: Seq<char>, c: char)
    requires
        forall|j: int| 0 <= j < s.len() ==> s[j] != c,
    ensures
        split_once(s, c) is None,
    decreases s.len(),
{
    if s.len() > 0 {
        assert forall|j: int| 0 <= j < s.drop_first().len() implies s.drop_first()[j] != c by {
            assert(s.drop_first()[j] == s[j + 1]);
        }
        lemma_split_once_none(s.drop_first(), c);
    }
}

/// The override entries of a `FETCH_HOST_OVERRIDES` value: for each trimmed,
/// non-empty comma-separated entry holding `=`, the trimmed host and the
/// trimmed, non-empty `|`-separated address texts.
pub fn override_candidates(value: &str) -> (r: Vec<(String, Vec<String>)>)
    ensures
        candidate_views(r@) == override_candidates_of(list_items(value@, ',')),
{
    let entries = read_list(value, ',');
    let ghost es = list_items(value@, ',');
    let mut r: Vec<(String, Vec<String>)> = Vec::new();
    let mut i: usize = 0;
    while i < entries.len()
        invariant
            string_views(entries@) == es,
            i <= entries@.len(),
            candidate_views(r@) == override_candidates_of(es.subrange(0, i as int)),
        decreases entries@.len() - i,
    {
        proof {
            assert(es.subrange(0, i + 1).drop_last() =~= es.subrange(0, i as int));
            assert(es.subrange(0, i + 1).last() == entries@[i as int]@);
        }
        let cs = chars_of(entries[i].as_str());
        match split_once_chars(cs.as_slice(), '=') {
            Some(p) => {
                let h = trim_chars(p.0.as_slice());
                let host = string_of(h.as_slice());
                let rest = string_of(p.1.as_slice());
                let addrs = read_list(rest.as_str(), '|');
                let ghost before = r@;
                r.push((host, addrs));
                proof {
                    assert(candidate_views(r@) =~= candidate_views(before).push(
                        (host@, string_views(addrs@)),
                    ));
                }
            },
            None => {},
        }
        i = i + 1;
    }
    assert(es.subrange(0, entries@.len() as int) =~= es);
    r
}

/// The parsed addresses, leaving out those that did not parse.
pub open spec fn parsed_addrs(a: Seq<Option<SocketAddress>>) -> Seq<SocketAddress>
    decreases a.len(),
{
    if a.len() == 0 {
        seq![]
    } else {
        let rest = parsed_addrs(a.drop_last());
        match a.last() {
            Some(x) => rest.push(x),
            None => rest,
        }
    }
}

/// The host overrides that parsed entries give: each host with at least one
/// parsed address maps to those addresses; a later entry for the same host
/// replaces an earlier one.
pub open spec fn overrides_of(entries: Seq<(Seq<char>, Seq<Option<SocketAddress>>)>) -> Map<
    Seq<char>,
    Seq<SocketAddress>,
>
    decreases entries.len(),
{
    if entries.len() == 0 {
        Map::empty()
    } else {
        let m = overrides_of(entries.drop_last());
        let e = entries.last();
        let a = parsed_addrs(e.1);
        if a.len() > 0 {
            m.insert(e.0, a)
        } else {
            m
        }
    }
}

/// The override candidates with each address text parsed as a socket
/// address.
pub open spec fn parsed_candidates(c: Seq<(Seq<char>, Seq<Seq<char>>)>) -> Seq<
    (Seq<char>, Seq<Option<SocketAddress>>),
> {
    c.map_values(
        |p: (Seq<char>, Seq<Seq<char>>)|
            (p.0, p.1.map_values(|t: Seq<char>| socket_address_of(t))),
    )
}

/// The host overrides a `FETCH_HOST_OVERRIDES` value gives.
pub open spec fn override_table(value: Seq<char>) -> Map<Seq<char>, Seq<SocketAddress>> {
    overrides_of(parsed_candidates(override_candidates_of(list_items(value, ','))))
}

/// Addresses to use in place of DNS for given hosts.
pub struct HostOverrides {
    entries: Vec<(Vec<char>, Vec<SocketAddress>)>,
}

/// The views of host/address pairs.
pub open spec fn override_list_view(v: Seq<(String, Vec<SocketAddress>)>) -> Seq<(Seq<char>, Seq<SocketAddress>)> {
    v.map_values(|p: (String, Vec<SocketAddress>)| (p.0@, p.1@))
}

spec fn override_pairs(v: Seq<(Vec<char>, Vec<SocketAddress>)>) -> Seq<(Seq<char>, Seq<SocketAddress>)> {
    v.map_values(|p: (Vec<char>, Vec<SocketAddress>)| (p.0@, p.1@))
}

impl HostOverrides {
    /// The addresses per host.
    pub closed spec fn view(&self) -> Map<Seq<char>, Seq<SocketAddress>> {
        table_of(override_pairs(self.entries@))
    }

    pub closed spec fn wf(&self) -> bool {
        keys_distinct(override_pairs(self.entries@))
    }

    /// No overrides.
    pub fn new() -> (r: Self)
        ensures
            r.wf(),
            r.view() == Map::<Seq<char>, Seq<SocketAddress>>::empty(),
    {
        let r = HostOverrides { entries: Vec::new() };
        assert(override_pairs(r.entries@) =~= Seq::<(Seq<char>, Seq<SocketAddress>)>::empty());
        r
    }

    /// Builds the overrides from entries whose addresses have been parsed
    /// (`None` for an address text that did not parse).
    pub fn from_parsed(parsed: Vec<(String, Vec<Option<SocketAddress>>)>) -> (r: Self)
        ensures
            r.wf(),
            r.view() == overrides_of(
                parsed@.map_values(|p: (String, Vec<Option<SocketAddress>>)| (p.0@, p.1@)),
            ),
    {
        let ghost es = parsed@.map_values(|p: (String, Vec<Option<SocketAddress>>)| (p.0@, p.1@));
        let mut r = HostOverrides::new();
        let mut i: usize = 0;
        while i < parsed.len()
            invariant
                es == parsed@.map_values(|p: (String, Vec<Option<SocketAddress>>)| (p.0@, p.1@)),
                i <= parsed@.len(),
                r.wf(),
                r.view() == overrides_of(es.subrange(0, i as int)),
            decreases parsed@.len() - i,
        {
            proof {
                assert(es.subrange(0, i + 1).drop_last() =~= es.subrange(0, i as int));
                assert(es.subrange(0, i + 1).last() == (parsed@[i as int].0@, parsed@[i as int].1@));
            }
            let addrs = keep_parsed(parsed[i].1.as_slice());
            if addrs.len() > 0 {
                let host = chars_of(parsed[i].0.as_str());
                r.upsert(host, addrs);
            }
            i = i + 1;
        }
        assert(es.subrange(0, parsed@.len() as int) =~= es);
        r
    }

    fn upsert(&mut self, host: Vec<char>, addrs: Vec<SocketAddress>)
        requires
            old(self).wf(),
        ensures
            final(self).wf(),
            final(self).view() == old(self).view().insert(host@, addrs@),
    {
        let ghost pairs = override_pairs(self.entries@);
        let mut i: usize = 0;
        while i < self.entries.len()
            invariant
                pairs == override_pairs(self.entries@),
                pairs == override_pairs(old(self).entries@),
                keys_distinct(pairs),
                i <= self.entries@.len(),
                forall|j: int| 0 <= j < i ==> self.entries@[j].0@ != host@,
            decreases self.entries@.len() - i,
        {
            if chars_eq(self.entries[i].0.as_slice(), host.as_slice()) {
                proof {
                    assert(pairs[i as int] == (self.entries@[i as int].0@, self.entries@[i as int].1@));
                    lemma_table_update(pairs, i as int, addrs@);
                }
                let old_key = chars_of_vec(&self.entries[i].0);
                self.entries.set(i, (old_key, addrs));
                proof {
                    assert(override_pairs(self.entries@) =~= pairs.update(i as int, (pairs[i as int].0, addrs@)));
                    assert(pairs[i as int].0 == host@);
                    assert(self.view() == table_of(pairs).insert(host@, addrs@));
                    assert(self.wf());
                }
                return;
            }
            i = i + 1;
        }
        proof {
            lemma_table_of(pairs);
            if table_of(pairs).contains_key(host@) {
                let j = choose|j: int| has_key_at(pairs, host@, j);
                assert(pairs[j] == (self.entries@[j].0@, self.entries@[j].1@));
            }
            lemma_push_distinct(pairs, (host@, addrs@));
            lemma_table_push(pairs, (host@, addrs@));
        }
        let ghost added = (host, addrs);
        self.entries.push((host, addrs));
        proof {
            assert(override_pairs(self.entries@) =~= pairs.push((added.0@, added.1@)));
        }
    }

    /// The addresses that override `host`, if any.
    pub fn get(&self, host: &str) -> (r: Option<Vec<SocketAddress>>)
        requires
            self.wf(),
        ensures
            match r {
                Some(a) => self.view().contains_key(host@) && self.view()[host@] == a@,
                None => !self.view().contains_key(host@),
            },
    {
        let h = chars_of(host);
        let ghost pairs = override_pairs(self.entries@);
        let mut i: usize = 0;
        while i < self.entries.len()
            invariant
                pairs == override_pairs(self.entries@),
                keys_distinct(pairs),
                h@ == host@,
                i <= self.entries@.len(),
                forall|j: int| 0 <= j < i ==> self.entries@[j].0@ != host@,
            decreases self.entries@.len() - i,
        {
            if chars_eq(self.entries[i].0.as_slice(), h.as_slice()) {
                proof {
                    lemma_table_of(pairs);
                    assert(pairs[i as int] == (self.entries@[i as int].0@, self.entries@[i as int].1@));
                    assert(has_key_at(pairs, host@, i as int));
                }
                return Some(copy_addrs(self.entries[i].1.as_slice()));
            }
            i = i + 1;
        }
        proof {
            lemma_table_of(pairs);
            if table_of(pairs).contains_key(host@) {
                let j = choose|j: int| has_key_at(pairs, host@, j);
                assert(pairs[j] == (self.entries@[j].0@, self.entries@[j].1@));
            }
        }
        None
    }

    /// The hosts and their addresses, in insertion order.
    pub fn to_pairs(&self) -> (r: Vec<(String, Vec<SocketAddress>)>)
        requires
            self.wf(),
        ensures
            keys_distinct(override_list_view(r@)),
            table_of(override_list_view(r@)) == self.view(),
    {
        let mut r: Vec<(String, Vec<SocketAddress>)> = Vec::new();
        let mut i: usize = 0;
        while i < self.entries.len()
            invariant
                i <= self.entries@.len(),
                r@.map_values(|p: (String, Vec<SocketAddress>)| (p.0@, p.1@)) == override_pairs(
                    self.entries@,
                ).subrange(0, i as int),
            decreases self.entries@.len() - i,
        {
            let h = string_of(self.entries[i].0.as_slice());
            let a = copy_addrs(self.entries[i].1.as_slice());
            let ghost before = r@;
            r.push((h, a));
            proof {
                assert(r@ == before.push((h, a)));
                assert(override_pairs(self.entries@)[i as int] == (self.entries@[i as int].0@, self.entries@[i as int].1@));
                assert(r@.map_values(|p: (String, Vec<SocketAddress>)| (p.0@, p.1@)) =~= before.map_values(|p: (String, Vec<SocketAddress>)| (p.0@, p.1@)).push((h@, a@)));
                assert(r@.map_values(|p: (String, Vec<SocketAddress>)| (p.0@, p.1@)) =~= override_pairs(
                    self.entries@,
                ).subrange(0, i + 1));
            }
            i = i + 1;
        }
        assert(override_pairs(self.entries@).subrange(0, self.entries@.len() as int) =~= override_pairs(self.entries@));
        assert(override_list_view(r@) =~= override_pairs(self.entries@));
        r
    }
}

fn chars_of_vec(v: &Vec<char>) -> (r: Vec<char>)
    ensures
        r@ == v@,
{
    let r = sub_chars(v.as_slice(), 0, v.len());
    assert(v@.subrange(0, v@.len() as int) =~= v@);
    r
}

fn copy_addrs(v: &[SocketAddress]) -> (r: Vec<SocketAddress>)
    ensures
        r@ == v@,
{
    let mut r: Vec<SocketAddress> = Vec::new();
    let mut i: usize = 0;
    while i < v.len()
        invariant
            i <= v@.len(),
            r@ == v@.subrange(0, i as int),
        decreases v@.len() - i,
    {
        r.push(v[i]);
        i = i + 1;
        assert(r@ =~= v@.subrange(0, i as int));
    }
    assert(v@.subrange(0, v@.len() as int) =~= v@);
    r
}

fn keep_parsed(a: &[Option<SocketAddress>]) -> (r: Vec<SocketAddress>)
    ensures
        r@ == parsed_addrs(a@),
{
    let mut r: Vec<SocketAddress> = Vec::new();
    let mut i: usize = 0;
    while i < a.len()
        invariant
            i <= a@.len(),
            r@ == parsed_addrs(a@.subrange(0, i as int)),
        decreases a@.len() - i,
    {
        proof {
            assert(a@.subrange(0, i + 1).drop_last() =~= a@.subrange(0, i as int));
        }
        match a[i] {
            Some(x) => r.push(x),
            None => {},
        }
        i = i + 1;
    }
    assert(a@.subrange(0, a@.len() as int) =~= a@);
    r
}

/// Parses `host=addr|addr,...` into host overrides: entries without `=`
/// are skipped, hosts and addresses are trimmed, address texts that do not
/// parse as socket addresses are dropped, and a host left with no address
/// is dropped.
pub fn parse_fetch_host_overrides(value: &str) -> (r: HostOverrides)
    ensures
        r.wf(),
        r.view() == override_table(value@),
{
    let cands = override_candidates(value);
    let ghost cs = override_candidates_of(list_items(value@, ','));
    let mut parsed: Vec<(String, Vec<Option<SocketAddress>>)> = Vec::new();
    let mut i: usize = 0;
    while i < cands.len()
        invariant
            candidate_views(cands@) == cs,
            i <= cands@.len(),
            parsed@.map_values(|p: (String, Vec<Option<SocketAddress>>)| (p.0@, p.1@))
                == parsed_candidates(cs.subrange(0, i as int)),
        decreases cands@.len() - i,
    {
        let texts = &cands[i].1;
        let mut addrs: Vec<Option<SocketAddress>> = Vec::new();
        let mut j: usize = 0;
        while j < texts.len()
            invariant
                j <= texts@.len(),
                addrs@ == string_views(texts@).subrange(0, j as int).map_values(
                    |t: Seq<char>| socket_address_of(t),
                ),
            decreases texts@.len() - j,
        {
            let a = parse_socket_address(texts[j].as_str());
            addrs.push(a);
            proof {
                assert(addrs@ =~= string_views(texts@).subrange(0, j + 1).map_values(
                    |t: Seq<char>| socket_address_of(t),
                ));
            }
            j = j + 1;
        }
        assert(string_views(texts@).subrange(0, texts@.len() as int) =~= string_views(texts@));
        let host = cands[i].0.clone();
        parsed.push((host, addrs));
        proof {
            assert(cs.subrange(0, i + 1) =~= cs.subrange(0, i as int).push(cs[i as int]));
            assert(cs[i as int] == (cands@[i as int].0@, string_views(cands@[i as int].1@)));
            assert(host@ == cs[i as int].0);
            assert(addrs@ == cs[i as int].1.map_values(|t: Seq<char>| socket_address_of(t)));
            assert(parsed_candidates(cs.subrange(0, i + 1)) =~= parsed_candidates(
                cs.subrange(0, i as int),
            ).push((host@, addrs@)));
            assert(parsed@.map_values(|p: (String, Vec<Option<SocketAddress>>)| (p.0@, p.1@))
                =~= parsed_candidates(cs.subrange(0, i + 1)));
        }
        i = i + 1;
    }
    assert(cs.subrange(0, cands@.len() as int) =~= cs);
    HostOverrides::from_parsed(parsed)
}

/// The service's settings.
pub struct ServerConfig {
    pub host: IpAddress,
    pub port: u16,
    pub web_dist_dir: String,
    pub database_url: String,
    pub cookie_secure: bool,
    pub session_ttl_minutes: i64,
    pub session_cleanup_interval_secs: u64,
    pub trust_proxy_headers: bool,
    pub login_max_attempts: usize,
    pub login_window_secs: u64,
    pub login_lockout_secs: u64,
    pub public_max_requests: usize,
    pub public_window_secs: u64,
    pub cache_ttl_secs: u64,
    pub db_max_connections: u32,
    pub fetch_timeout_secs: u64,
    pub dns_cache_ttl_secs: u64,
    pub fetch_host_overrides: HostOverrides,
    pub concurrent_limit: usize,
    pub max_links_per_user: usize,
    pub max_users: usize,
    pub admin_user: String,
    pub admin_password: String,
    pub cors_allow_origin: Vec<String>,
}

/// The value of an environment variable.
pub open spec fn var(vars: Seq<(String, String)>, name: Seq<char>) -> Option<Seq<char>> {
    env_get(env_view(vars), name)
}

impl ServerConfig {
    /// Reads the settings from environment variables, each with its default
    /// where it is unset or does not parse.
    pub fn from_env(vars: &[(String, String)]) -> (r: Self)
        ensures
            r.host == (match var(vars@, "HOST"@) {
                Some(t) => match ip_address_of(t) {
                    Some(ip) => ip,
                    None => IpAddress::V4(0, 0, 0, 0),
                },
                None => IpAddress::V4(0, 0, 0, 0),
            }),
            r.port == unsigned_or(var(vars@, "PORT"@), u16::MAX as nat, 8080),
            r.web_dist_dir@ == text_or(var(vars@, "WEB_DIST_DIR"@), "dist"@),
            r.database_url@ == text_or(
                var(vars@, "DATABASE_URL"@),
                "sqlite://data/substore.db?mode=rwc"@,
            ),
            r.cookie_secure == flag_set(var(vars@, "COOKIE_SECURE"@)),
            r.session_ttl_minutes == positive_i64_or(var(vars@, "SESSION_TTL_MINUTES"@), 10080),
            r.session_cleanup_interval_secs == positive_or(
                var(vars@, "SESSION_CLEANUP_INTERVAL_SECS"@),
                u64::MAX as nat,
                300,
            ),
            r.trust_proxy_headers == flag_set(var(vars@, "TRUST_PROXY_HEADERS"@)),
            r.login_max_attempts == positive_or(
                var(vars@, "LOGIN_MAX_ATTEMPTS"@),
                usize::MAX as nat,
                5,
            ),
            r.login_window_secs == positive_or(var(vars@, "LOGIN_WINDOW_SECS"@), u64::MAX as nat, 300),
            r.login_lockout_secs == positive_or(var(vars@, "LOGIN_LOCKOUT_SECS"@), u64::MAX as nat, 900),
            r.public_max_requests == positive_or(
                var(vars@, "PUBLIC_MAX_REQUESTS"@),
                usize::MAX as nat,
                60,
            ),
            r.public_window_secs == positive_or(var(vars@, "PUBLIC_WINDOW_SECS"@), u64::MAX as nat, 60),
            r.cache_ttl_secs == positive_or(var(vars@, "CACHE_TTL_SECS"@), u64::MAX as nat, 300),
            r.db_max_connections == unsigned_or(var(vars@, "DB_MAX_CONNECTIONS"@), u32::MAX as nat, 5),
            r.fetch_timeout_secs == unsigned_or(var(vars@, "FETCH_TIMEOUT_SECS"@), u64::MAX as nat, 10),
            r.dns_cache_ttl_secs == positive_or(var(vars@, "DNS_CACHE_TTL_SECS"@), u64::MAX as nat, 30),
            r.fetch_host_overrides.wf(),
            r.fetch_host_overrides.view() == (match var(vars@, "FETCH_HOST_OVERRIDES"@) {
                Some(t) => override_table(t),
                None => Map::empty(),
            }),
            r.concurrent_limit == unsigned_or(var(vars@, "CONCURRENT_LIMIT"@), usize::MAX as nat, 10),
            r.max_links_per_user == unsigned_or(
                var(vars@, "MAX_LINKS_PER_USER"@),
                usize::MAX as nat,
                100,
            ),
            r.max_users == unsigned_or(var(vars@, "MAX_USERS"@), usize::MAX as nat, 100),
            r.admin_user@ == text_or(var(vars@, "ADMIN_USER"@), "admin"@),
            r.admin_password@ == text_or(var(vars@, "ADMIN_PASSWORD"@), "admin"@),
            string_views(r.cors_allow_origin@) == list_items(
                text_or(
                    var(vars@, "CORS_ALLOW_ORIGIN"@),
                    "http://127.0.0.1:8081,http://localhost:8081"@,
                ),
                ',',
            ),
    {
        let cors_text = read_text(
            env_value(vars, "CORS_ALLOW_ORIGIN"),
            "http://127.0.0.1:8081,http://localhost:8081",
        );
        let host = match env_value(vars, "HOST") {
            Some(t) => match parse_ip_address(t.as_str()) {
                Some(ip) => ip,
                None => IpAddress::V4(0, 0, 0, 0),
            },
            None => IpAddress::V4(0, 0, 0, 0),
        };
        let fetch_host_overrides = match env_value(vars, "FETCH_HOST_OVERRIDES") {
            Some(t) => parse_fetch_host_overrides(t.as_str()),
            None => HostOverrides::new(),
        };
        ServerConfig {
            host,
            port: read_unsigned(env_value(vars, "PORT"), u16::MAX as u64, 8080, false) as u16,
            web_dist_dir: read_text(env_value(vars, "WEB_DIST_DIR"), "dist"),
            database_url: read_text(
                env_value(vars, "DATABASE_URL"),
                "sqlite://data/substore.db?mode=rwc",
            ),
            cookie_secure: read_flag(env_value(vars, "COOKIE_SECURE")),
            session_ttl_minutes: read_positive_i64(env_value(vars, "SESSION_TTL_MINUTES"), 10080),
            session_cleanup_interval_secs: read_unsigned(
                env_value(vars, "SESSION_CLEANUP_INTERVAL_SECS"),
                u64::MAX,
                300,
                true,
            ),
            trust_proxy_headers: read_flag(env_value(vars, "TRUST_PROXY_HEADERS")),
            login_max_attempts: read_unsigned(
                env_value(vars, "LOGIN_MAX_ATTEMPTS"),
                usize::MAX as u64,
                5,
                true,
            ) as usize,
            login_window_secs: read_unsigned(env_value(vars, "LOGIN_WINDOW_SECS"), u64::MAX, 300, true),
            login_lockout_secs: read_unsigned(
                env_value(vars, "LOGIN_LOCKOUT_SECS"),
                u64::MAX,
                900,
                true,
            ),
            public_max_requests: read_unsigned(
                env_value(vars, "PUBLIC_MAX_REQUESTS"),
                usize::MAX as u64,
                60,
                true,
            ) as usize,
            public_window_secs: read_unsigned(env_value(vars, "PUBLIC_WINDOW_SECS"), u64::MAX, 60, true),
            cache_ttl_secs: read_unsigned(env_value(vars, "CACHE_TTL_SECS"), u64::MAX, 300, true),
            db_max_connections: read_unsigned(
                env_value(vars, "DB_MAX_CONNECTIONS"),
                u32::MAX as u64,
                5,
                false,
            ) as u32,
            fetch_timeout_secs: read_unsigned(env_value(vars, "FETCH_TIMEOUT_SECS"), u64::MAX, 10, false),
            dns_cache_ttl_secs: read_unsigned(env_value(vars, "DNS_CACHE_TTL_SECS"), u64::MAX, 30, true),
            fetch_host_overrides,
            concurrent_limit: read_unsigned(
                env_value(vars, "CONCURRENT_LIMIT"),
                usize::MAX as u64,
                10,
                false,
            ) as usize,
            max_links_per_user: read_unsigned(
                env_value(vars, "MAX_LINKS_PER_USER"),
                usize::MAX as u64,
                100,
                false,
            ) as usize,
            max_users: read_unsigned(env_value(vars, "MAX_USERS"), usize::MAX as u64, 100, false) as usize,
            admin_user: read_text(env_value(vars, "ADMIN_USER"), "admin"),
            admin_password: read_text(env_value(vars, "ADMIN_PASSWORD"), "admin"),
            cors_allow_origin: read_list(cors_text.as_str(), ','),
        }
    }

    /// The address the service listens on.
    pub fn socket_addr(&self) -> (r: SocketAddress)
        ensures
            r == (SocketAddress { ip: self.host, port: self.port, scope_id: 0 }),
    {
        SocketAddress { ip: self.host, port: self.port, scope_id: 0 }
    }
}

} // verus!
