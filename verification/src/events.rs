//! The node's event feed as the desktop shows it: a bounded log of lines,
//! the peer events for the network view, the listen address, and the names
//! of the services that log lines are attributed to.

use std::collections::VecDeque;

use vstd::prelude::*;

use crate::text::{decimal, push_decimal};

verus! {

/// The keys of a list of `(key, name)` pairs.
pub open spec fn pair_keys(s: Seq<(String, String)>) -> Seq<Seq<char>> {
    s.map_values(|e: (String, String)| e.0@)
}

/// The map that a key-unique list of pairs denotes.
pub open spec fn pairs_map(s: Seq<(String, String)>) -> Map<Seq<char>, Seq<char>> {
    Map::new(
        |k: Seq<char>| pair_keys(s).contains(k),
        |k: Seq<char>| s[pair_keys(s).index_of(k)].1@,
    )
}

proof fn lemma_pairs_map_at(s: Seq<(String, String)>, i: int)
    requires
        pair_keys(s).no_duplicates(),
        0 <= i < s.len(),
    ensures
        pairs_map(s).contains_key(s[i].0@),
        pairs_map(s)[s[i].0@] == s[i].1@,
{
    let keys = pair_keys(s);
    assert(keys[i] == s[i].0@);
    let j = keys.index_of(s[i].0@);
    assert(keys[j] == s[i].0@);
    assert(j == i);
}

/// A map from names to names (program id to service name, service id to
/// service name) in which a later insertion replaces an earlier one.
pub struct NameIndex {
    entries: Vec<(String, String)>,
}

impl View for NameIndex {
    type V = Map<Seq<char>, Seq<char>>;

    closed spec fn view(&self) -> Map<Seq<char>, Seq<char>> {
        pairs_map(self.entries@)
    }
}

impl NameIndex {
    #[verifier::type_invariant]
    closed spec fn unique_keys(self) -> bool {
        pair_keys(self.entries@).no_duplicates()
    }

    /// The empty index.
    pub fn new() -> (idx: NameIndex)
        ensures
            idx@ == Map::<Seq<char>, Seq<char>>::empty(),
    {
        let idx = NameIndex { entries: Vec::new() };
        assert(pair_keys(idx.entries@) =~= Seq::<Seq<char>>::empty());
        assert(idx@ =~= Map::<Seq<char>, Seq<char>>::empty());
        idx
    }

    fn position(entries: &Vec<(String, String)>, key: &String) -> (pos: Option<usize>)
        ensures
            match pos {
                Some(i) => i < entries@.len() && entries@[i as int].0@ == key@,
                None => !pair_keys(entries@).contains(key@),
            },
    {
        let mut i: usize = 0;
        while i < entries.len()
            invariant
                i <= entries.len(),
                forall|j: int| 0 <= j < i ==> entries@[j].0@ != key@,
            decreases entries.len() - i,
        {
            if entries[i].0 == *key {
                return Some(i);
            }
            i += 1;
        }
        assert(!pair_keys(entries@).contains(key@)) by {
            if pair_keys(entries@).contains(key@) {
                let j = choose|j: int|
                    0 <= j < pair_keys(entries@).len() && pair_keys(entries@)[j] == key@;
                assert(entries@[j].0@ == key@);
            }
        }
        None
    }

    /// Maps `key` to `name`, replacing what `key` mapped to before.
    pub fn insert(&mut self, key: String, name: String)
        ensures
            final(self)@ == old(self)@.insert(key@, name@),
    {
        proof {
            use_type_invariant(&*self);
        }
        let ghost before = self.entries@;
        let ghost kv = key@;
        let ghost nv = name@;
        let mut entries: Vec<(String, String)> = Vec::new();
        std::mem::swap(&mut entries, &mut self.entries);
        match NameIndex::position(&entries, &key) {
            Some(i) => {
                entries.set(i, (key, name));
                assert(pair_keys(entries@) =~= pair_keys(before));
                assert(pairs_map(entries@) =~= pairs_map(before).insert(kv, nv)) by {
                    assert forall|k: Seq<char>| #[trigger]
                        pairs_map(entries@).contains_key(k) implies pairs_map(entries@)[k]
                        == pairs_map(before).insert(kv, nv)[k] by {
                        let j = pair_keys(entries@).index_of(k);
                        assert(0 <= j < entries@.len() && pair_keys(entries@)[j] == k);
                        lemma_pairs_map_at(entries@, j);
                        if j != i {
                            assert(entries@[j] == before[j]);
                            assert(pair_keys(entries@)[i as int] == kv);
                            assert(k != kv);
                            lemma_pairs_map_at(before, j);
                        } else {
                            assert(k == kv);
                        }
                    }
                    lemma_pairs_map_at(entries@, i as int);
                }
            },
            None => {
                entries.push((key, name));
                assert(pair_keys(entries@) =~= pair_keys(before).push(kv));
                let ghost n = before.len() as int;
                assert(pairs_map(entries@) =~= pairs_map(before).insert(kv, nv)) by {
                    assert forall|k: Seq<char>|
                        pairs_map(entries@).contains_key(k) <==> pairs_map(before).insert(
                            kv,
                            nv,
                        ).contains_key(k) by {
                        if pair_keys(before).contains(k) {
                            let j = choose|j: int|
                                0 <= j < pair_keys(before).len() && pair_keys(before)[j] == k;
                            assert(pair_keys(entries@)[j] == k);
                        }
                        if pair_keys(entries@).contains(k) && k != kv {
                            let j = choose|j: int|
                                0 <= j < pair_keys(entries@).len() && pair_keys(entries@)[j] == k;
                            assert(pair_keys(before)[j] == k);
                        }
                        if k == kv {
                            assert(pair_keys(entries@)[n] == k);
                        }
                    }
                    assert forall|k: Seq<char>| #[trigger]
                        pairs_map(entries@).contains_key(k) implies pairs_map(entries@)[k]
                        == pairs_map(before).insert(kv, nv)[k] by {
                        let j = pair_keys(entries@).index_of(k);
                        lemma_pairs_map_at(entries@, j);
                        if j != n {
                            lemma_pairs_map_at(before, j);
                        }
                    }
                }
            },
        }
        self.entries = entries;
    }

    /// The name that `key` maps to, if any.
    pub fn get(&self, key: &String) -> (name: Option<&String>)
        ensures
            match name {
                Some(n) => self@.contains_key(key@) && self@[key@] == n@,
                None => !self@.contains_key(key@),
            },
    {
        proof {
            use_type_invariant(self);
        }
        match NameIndex::position(&self.entries, key) {
            Some(i) => {
                proof {
                    lemma_pairs_map_at(self.entries@, i as int);
                }
                Some(&self.entries[i].1)
            },
            None => None,
        }
    }

    /// The name that `key` maps to, or `key` itself.
    pub fn name_or_key(&self, key: &String) -> (name: String)
        ensures
            name@ == if self@.contains_key(key@) {
                self@[key@]
            } else {
                key@
            },
    {
        match self.get(key) {
            Some(n) => n.clone(),
            None => key.clone(),
        }
    }
}

/// A service as the registry lists it: its id (as displayed), its name and
/// the hex ids of the programs it serves.
#[derive(Debug, Clone)]
pub struct ServiceListing {
    pub id: String,
    pub name: String,
    pub program_ids: Vec<String>,
}

/// `m` with each program id of `pids` mapped to `name`, in order.
pub open spec fn with_programs(m: Map<Seq<char>, Seq<char>>, name: Seq<char>, pids: Seq<String>) -> Map<Seq<char>, Seq<char>>
    decreases pids.len(),
{
    if pids.len() == 0 {
        m
    } else {
        with_programs(m, name, pids.drop_last()).insert(pids.last()@, name)
    }
}

/// Program id to service name over the listings, a later listing winning.
pub open spec fn programs_of(listings: Seq<ServiceListing>) -> Map<Seq<char>, Seq<char>>
    decreases listings.len(),
{
    if listings.len() == 0 {
        Map::empty()
    } else {
        with_programs(
            programs_of(listings.drop_last()),
            listings.last().name@,
            listings.last().program_ids@,
        )
    }
}

/// Service id to service name over the listings, a later listing winning.
pub open spec fn names_of(listings: Seq<ServiceListing>) -> Map<Seq<char>, Seq<char>>
    decreases listings.len(),
{
    if listings.len() == 0 {
        Map::empty()
    } else {
        names_of(listings.drop_last()).insert(listings.last().id@, listings.last().name@)
    }
}

/// Whether one of `pids` is the hex id `pid`.
pub open spec fn has_pid(pids: Seq<String>, pid: Seq<char>) -> bool {
    exists|j: int| 0 <= j < pids.len() && #[trigger] pids[j]@ == pid
}

/// Whether a listing serves the program with hex id `pid`.
pub open spec fn serves(listing: ServiceListing, pid: Seq<char>) -> bool {
    has_pid(listing.program_ids@, pid)
}

proof fn lemma_with_programs(m: Map<Seq<char>, Seq<char>>, name: Seq<char>, pids: Seq<String>, k: Seq<char>)
    ensures
        with_programs(m, name, pids).contains_key(k) <==> (m.contains_key(k) || has_pid(pids, k)),
        has_pid(pids, k) ==> with_programs(m, name, pids)[k] == name,
        !has_pid(pids, k) && m.contains_key(k) ==> with_programs(m, name, pids)[k] == m[k],
    decreases pids.len(),
{
    if pids.len() > 0 {
        let rest = pids.drop_last();
        lemma_with_programs(m, name, rest, k);
        if has_pid(pids, k) {
            let j = choose|j: int| 0 <= j < pids.len() && #[trigger] pids[j]@ == k;
            if j < rest.len() {
                assert(rest[j]@ == k);
            }
        }
        if has_pid(rest, k) {
            let j = choose|j: int| 0 <= j < rest.len() && #[trigger] rest[j]@ == k;
            assert(pids[j]@ == k);
        }
        if pids.last()@ == k {
            assert(pids[pids.len() - 1]@ == k);
        }
    }
}

/// Some listing serves `pid`.
pub open spec fn some_serves(listings: Seq<ServiceListing>, pid: Seq<char>) -> bool {
    exists|i: int| 0 <= i < listings.len() && serves(#[trigger] listings[i], pid)
}

/// Listing `i` is the last to serve `pid`.
pub open spec fn last_server(listings: Seq<ServiceListing>, pid: Seq<char>, i: int) -> bool {
    &&& 0 <= i < listings.len()
    &&& serves(listings[i], pid)
    &&& forall|l: int| i < l < listings.len() ==> !serves(#[trigger] listings[l], pid)
}

proof fn lemma_programs_of_domain(listings: Seq<ServiceListing>, pid: Seq<char>)
    ensures
        programs_of(listings).contains_key(pid) <==> some_serves(listings, pid),
    decreases listings.len(),
{
    if listings.len() > 0 {
        let rest = listings.drop_last();
        let last = listings.last();
        lemma_programs_of_domain(rest, pid);
        lemma_with_programs(programs_of(rest), last.name@, last.program_ids@, pid);
        if some_serves(listings, pid) {
            let i = choose|i: int| 0 <= i < listings.len() && serves(#[trigger] listings[i], pid);
            if i < rest.len() {
                assert(serves(rest[i], pid));
            }
        }
        if some_serves(rest, pid) {
            let i = choose|i: int| 0 <= i < rest.len() && serves(#[trigger] rest[i], pid);
            assert(serves(listings[i], pid));
        }
    }
}

proof fn lemma_programs_of_value(listings: Seq<ServiceListing>, pid: Seq<char>, i: int)
    requires
        last_server(listings, pid, i),
    ensures
        programs_of(listings).contains_key(pid),
        programs_of(listings)[pid] == listings[i].name@,
    decreases listings.len(),
{
    let rest = listings.drop_last();
    let last = listings.last();
    lemma_with_programs(programs_of(rest), last.name@, last.program_ids@, pid);
    if i < rest.len() {
        assert(!serves(listings[listings.len() - 1], pid));
        assert(last_server(rest, pid, i)) by {
            assert(rest[i] == listings[i]);
            assert forall|l: int| i < l < rest.len() implies !serves(#[trigger] rest[l], pid) by {
                assert(rest[l] == listings[l]);
            }
        }
        lemma_programs_of_value(rest, pid, i);
    }
}

/// Every program of every listed service is indexed, and only those: a
/// program maps to the name of the last listing that serves it.
pub proof fn lemma_programs_of(listings: Seq<ServiceListing>, pid: Seq<char>)
    ensures
        programs_of(listings).contains_key(pid) <==> some_serves(listings, pid),
        forall|i: int| #[trigger] last_server(listings, pid, i) ==> programs_of(listings)[pid]
            == listings[i].name@,
        forall|i: int, j: int|
            0 <= i < listings.len() && 0 <= j < listings[i].program_ids@.len()
                ==> programs_of(listings).contains_key(#[trigger] listings[i].program_ids@[j]@),
{
    lemma_programs_of_domain(listings, pid);
    assert forall|i: int| #[trigger] last_server(listings, pid, i) implies programs_of(listings)[pid]
        == listings[i].name@ by {
        lemma_programs_of_value(listings, pid, i);
    }
    assert forall|i: int, j: int|
        0 <= i < listings.len() && 0 <= j < listings[i].program_ids@.len()
            implies programs_of(listings).contains_key(#[trigger] listings[i].program_ids@[j]@) by {
        let k = listings[i].program_ids@[j]@;
        lemma_programs_of_domain(listings, k);
        assert(serves(listings[i], k));
    }
}

/// Every listed service is named by its id: an id maps to the name of
/// the last listing with that id, and only listed ids are indexed.
pub proof fn lemma_names_of(listings: Seq<ServiceListing>, id: Seq<char>)
    ensures
        names_of(listings).contains_key(id) <==> exists|i: int|
            0 <= i < listings.len() && (#[trigger] listings[i]).id@ == id,
        forall|i: int|
            0 <= i < listings.len() && (#[trigger] listings[i]).id@ == id && (forall|l: int|
                i < l < listings.len() ==> listings[l].id@ != id) ==> names_of(listings)[id]
                == listings[i].name@,
    decreases listings.len(),
{
    if listings.len() > 0 {
        let rest = listings.drop_last();
        lemma_names_of(rest, id);
        assert forall|i: int| 0 <= i < rest.len() implies rest[i] == listings[i] by {}
        if exists|i: int| 0 <= i < rest.len() && (#[trigger] rest[i]).id@ == id {
            let i = choose|i: int| 0 <= i < rest.len() && (#[trigger] rest[i]).id@ == id;
            assert(listings[i].id@ == id);
        }
        if listings.last().id@ == id {
            assert(listings[listings.len() - 1].id@ == id);
        }
        assert forall|i: int|
            0 <= i < listings.len() && (#[trigger] listings[i]).id@ == id && (forall|l: int|
                i < l < listings.len() ==> listings[l].id@ != id) implies names_of(listings)[id]
            == listings[i].name@ by {
            if i < rest.len() {
                assert(listings[listings.len() - 1].id@ != id);
                assert(rest[i].id@ == id);
                assert forall|l: int| i < l < rest.len() implies rest[l].id@ != id by {
                    assert(listings[l].id@ != id);
                }
            }
        }
    }
}

/// Which service a log line belongs to, by program and by service id.
pub struct ServiceDirectory {
    pub programs: NameIndex,
    pub services: NameIndex,
}

impl ServiceDirectory {
    /// Indexes the services that the registry lists.
    pub fn from_listings(listings: &Vec<ServiceListing>) -> (d: ServiceDirectory)
        ensures
            d.programs@ == programs_of(listings@),
            d.services@ == names_of(listings@),
    {
        let mut programs = NameIndex::new();
        let mut services = NameIndex::new();
        let mut i: usize = 0;
        assert(listings@.subrange(0, 0) =~= Seq::<ServiceListing>::empty());
        while i < listings.len()
            invariant
                i <= listings.len(),
                programs@ == programs_of(listings@.subrange(0, i as int)),
                services@ == names_of(listings@.subrange(0, i as int)),
            decreases listings.len() - i,
        {
            let listing = &listings[i];
            let ghost base = programs@;
            services.insert(listing.id.clone(), listing.name.clone());
            let mut j: usize = 0;
            assert(listing.program_ids@.subrange(0, 0) =~= Seq::<String>::empty());
            while j < listing.program_ids.len()
                invariant
                    j <= listing.program_ids.len(),
                    programs@ == with_programs(
                        base,
                        listing.name@,
                        listing.program_ids@.subrange(0, j as int),
                    ),
                decreases listing.program_ids.len() - j,
            {
                programs.insert(listing.program_ids[j].clone(), listing.name.clone());
                assert(listing.program_ids@.subrange(0, j + 1).drop_last()
                    =~= listing.program_ids@.subrange(0, j as int));
                j += 1;
            }
            assert(listing.program_ids@.subrange(0, j as int) =~= listing.program_ids@);
            assert(listings@.subrange(0, i + 1).drop_last() =~= listings@.subrange(0, i as int));
            i += 1;
        }
        assert(listings@.subrange(0, i as int) =~= listings@);
        ServiceDirectory { programs, services }
    }
}

/// A change of the node's peer set, for the network view.
#[derive(Debug, Clone)]
pub enum PeerEvent {
    Connected(String),
    Disconnected(String),
    Discovered(String),
}

/// One line of the log, with its level and the service it belongs to.
pub struct LogEntry<L> {
    pub line: String,
    pub level: L,
    pub service: Option<String>,
}

/// `s` with `x` appended, after dropping the oldest element when `s`
/// already holds `max` or more.
pub open spec fn bounded_push<T>(s: Seq<T>, x: T, max: nat) -> Seq<T> {
    (if s.len() >= max && s.len() > 0 {
        s.drop_first()
    } else {
        s
    }).push(x)
}

/// Appends `x`, first dropping the oldest element when `q` holds `max` or more.
pub fn push_bounded<T>(q: &mut VecDeque<T>, x: T, max: usize)
    ensures
        final(q)@ == bounded_push(old(q)@, x, max as nat),
{
    if q.len() >= max {
        let _ = q.pop_front();
    }
    q.push_back(x);
    assert(q@ =~= bounded_push(old(q)@, x, max as nat));
}

/// A bounded push keeps a log within its bound, ends with the new element,
/// and keeps the most recent of the old ones in order.
pub proof fn lemma_bounded_push_within<T>(s: Seq<T>, x: T, max: nat)
    requires
        max > 0,
        s.len() <= max,
    ensures
        bounded_push(s, x, max).len() <= max,
        bounded_push(s, x, max).last() == x,
        bounded_push(s, x, max) == s.push(x).subrange(
            s.len() + 1 - bounded_push(s, x, max).len(),
            s.len() + 1 as int,
        ),
{
    assert(bounded_push(s, x, max) =~= s.push(x).subrange(
        s.len() + 1 - bounded_push(s, x, max).len(),
        s.len() + 1 as int,
    ));
}

/// The abstract value of an optional string.
pub open spec fn opt_view(o: Option<String>) -> Option<Seq<char>> {
    match o {
        Some(s) => Some(s@),
        None => None,
    }
}

/// The service of a node event about program `program_id`, if indexed.
pub open spec fn service_of_program(programs: Map<Seq<char>, Seq<char>>, program_id: Option<String>) -> Option<Seq<char>> {
    match program_id {
        Some(p) => if programs.contains_key(p@) {
            Some(programs[p@])
        } else {
            None
        },
        None => None,
    }
}

/// An event of the service registry.
#[derive(Debug, Clone)]
pub enum ServiceEvent {
    Started { service_id: String },
    Stopped { service_id: String },
    RequestHandled { service_id: String, path: String, status: String },
}

/// The service an event is about, by name, or by its id where unnamed.
pub open spec fn service_event_name(e: ServiceEvent, names: Map<Seq<char>, Seq<char>>) -> Seq<char> {
    let id = match e {
        ServiceEvent::Started { service_id } => service_id@,
        ServiceEvent::Stopped { service_id } => service_id@,
        ServiceEvent::RequestHandled { service_id, .. } => service_id@,
    };
    if names.contains_key(id) {
        names[id]
    } else {
        id
    }
}

/// The log line of a service event.
pub open spec fn service_event_line(e: ServiceEvent, names: Map<Seq<char>, Seq<char>>) -> Seq<char> {
    let name = service_event_name(e, names);
    match e {
        ServiceEvent::Started { .. } => "[SVC] "@ + name + " started"@,
        ServiceEvent::Stopped { .. } => "[SVC] "@ + name + " stopped"@,
        ServiceEvent::RequestHandled { path, status, .. } => "[SVC] "@ + name + " "@ + path@ + " "@
            + status@,
    }
}

/// The name a registry shows for service `id`: its registered name, or the id.
pub open spec fn shown_name(names: Map<Seq<char>, Seq<char>>, id: Seq<char>) -> Seq<char> {
    if names.contains_key(id) {
        names[id]
    } else {
        id
    }
}

/// Every kind of service event is shown and attributed by the registered
/// name of its service (by its id where the service is not registered):
/// `[SVC] <name> started`, `[SVC] <name> stopped`, `[SVC] <name> <path> <status>`.
pub proof fn lemma_service_events_named(e: ServiceEvent, names: Map<Seq<char>, Seq<char>>)
    ensures
        e matches ServiceEvent::Started { service_id } ==> {
            &&& service_event_name(e, names) == shown_name(names, service_id@)
            &&& service_event_line(e, names) == "[SVC] "@ + shown_name(names, service_id@)
                + " started"@
        },
        e matches ServiceEvent::Stopped { service_id } ==> {
            &&& service_event_name(e, names) == shown_name(names, service_id@)
            &&& service_event_line(e, names) == "[SVC] "@ + shown_name(names, service_id@)
                + " stopped"@
        },
        e matches ServiceEvent::RequestHandled { service_id, path, status } ==> {
            &&& service_event_name(e, names) == shown_name(names, service_id@)
            &&& service_event_line(e, names) == "[SVC] "@ + shown_name(names, service_id@) + " "@
                + path@ + " "@ + status@
        },
        forall|id: Seq<char>| #[trigger] names.contains_key(id) ==> shown_name(names, id) == names[id],
        forall|id: Seq<char>| !#[trigger] names.contains_key(id) ==> shown_name(names, id) == id,
{
}

/// What the log view shows of the node: its log, peer events and listen address.
pub struct LogFeed<L> {
    pub entries: VecDeque<LogEntry<L>>,
    pub peer_events: VecDeque<PeerEvent>,
    pub listen_addr: Option<String>,
}

impl<L> LogFeed<L> {
    /// An empty feed.
    pub fn new() -> (f: LogFeed<L>)
        ensures
            f.entries@ == Seq::<LogEntry<L>>::empty(),
            f.peer_events@ == Seq::<PeerEvent>::empty(),
            f.listen_addr is None,
    {
        LogFeed { entries: VecDeque::new(), peer_events: VecDeque::new(), listen_addr: None }
    }

    /// Records a node event: its line (attributed to the service of
    /// `program_id` where the event concerns a program), the listen address
    /// where the node reports having started, and its peer event, if any.
    /// The log keeps at most `max` lines.
    pub fn record_node_event(
        &mut self,
        line: String,
        level: L,
        program_id: Option<String>,
        directory: &ServiceDirectory,
        started_on: Option<String>,
        peer: Option<PeerEvent>,
        max: usize,
    )
        ensures
            final(self).entries@.len() > 0,
            final(self).entries@ == bounded_push(
                old(self).entries@,
                final(self).entries@.last(),
                max as nat,
            ),
            final(self).entries@.last().line == line,
            final(self).entries@.last().level == level,
            opt_view(final(self).entries@.last().service) == service_of_program(
                directory.programs@,
                program_id,
            ),
            final(self).peer_events@ == match peer {
                Some(p) => old(self).peer_events@.push(p),
                None => old(self).peer_events@,
            },
            final(self).listen_addr == match started_on {
                Some(a) => Some(a),
                None => old(self).listen_addr,
            },
    {
        let service = match &program_id {
            Some(p) => match directory.programs.get(p) {
                Some(name) => Some(name.clone()),
                None => None,
            },
            None => None,
        };
        let entry = LogEntry { line, level, service };
        if let Some(addr) = started_on {
            self.listen_addr = Some(addr);
        }
        if let Some(p) = peer {
            self.peer_events.push_back(p);
        }
        push_bounded(&mut self.entries, entry, max);
    }

    /// Records that the feed skipped `skipped` node events. This line is
    /// appended without dropping older ones.
    pub fn record_lagged(&mut self, skipped: u64, level: L)
        ensures
            final(self).entries@ == old(self).entries@.push(final(self).entries@.last()),
            final(self).entries@.last().line@ == "[WARN] lagged "@ + decimal(skipped as nat)
                + " events"@,
            final(self).entries@.last().level == level,
            final(self).entries@.last().service is None,
            final(self).peer_events == old(self).peer_events,
            final(self).listen_addr == old(self).listen_addr,
    {
        let mut line = String::from_str("[WARN] lagged ");
        push_decimal(&mut line, skipped);
        line.append(" events");
        self.entries.push_back(LogEntry { line, level, service: None });
    }

    /// Records an event of the service registry as a line attributed to
    /// its service. The log keeps at most `max` lines.
    pub fn record_service_event(
        &mut self,
        event: &ServiceEvent,
        directory: &ServiceDirectory,
        level: L,
        max: usize,
    )
        ensures
            final(self).entries@.len() > 0,
            final(self).entries@ == bounded_push(
                old(self).entries@,
                final(self).entries@.last(),
                max as nat,
            ),
            final(self).entries@.last().line@ == service_event_line(*event, directory.services@),
            final(self).entries@.last().level == level,
            opt_view(final(self).entries@.last().service) == Some(
                service_event_name(*event, directory.services@),
            ),
            final(self).peer_events == old(self).peer_events,
            final(self).listen_addr == old(self).listen_addr,
    {
        let mut line = String::from_str("[SVC] ");
        let name = match event {
            ServiceEvent::Started { service_id } => directory.services.name_or_key(service_id),
            ServiceEvent::Stopped { service_id } => directory.services.name_or_key(service_id),
            ServiceEvent::RequestHandled { service_id, .. } => directory.services.name_or_key(
                service_id,
            ),
        };
        line.append(name.as_str());
        match event {
            ServiceEvent::Started { .. } => {
                line.append(" started");
            },
            ServiceEvent::Stopped { .. } => {
                line.append(" stopped");
            },
            ServiceEvent::RequestHandled { path, status, .. } => {
                line.append(" ");
                line.append(path.as_str());
                line.append(" ");
                line.append(status.as_str());
            },
        }
        assert(line@ =~= service_event_line(*event, directory.services@));
        push_bounded(&mut self.entries, LogEntry { line, level, service: Some(name) }, max);
    }
}

} // verus!
