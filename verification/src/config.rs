//! Node configuration: which built-in programs are enabled, the effective
//! topic set, sector limits and filter, service registry and their defaults.

use std::collections::HashMap;

use vstd::prelude::*;

use crate::ids::{copy_bytes, IdSet};

verus! {

/// A JSON document, as the per-service configuration entries hold it.
#[verifier::external_type_specification]
#[verifier::external_body]
pub struct ExJsonValue(serde_json::Value);

/// Toggle default programs (ZID, Interlink) on or off.
///
/// Both are enabled by default. Disabling a program removes it from the
/// effective topic list so the Zode will neither subscribe to nor serve
/// requests for that program.
#[derive(Debug, Clone)]
pub struct DefaultProgramsConfig {
    /// Enable the ZID (Zero Identity) program. Default: `true`.
    pub zid: bool,
    /// Enable the Interlink program. Default: `true`.
    pub interlink: bool,
}

impl Default for DefaultProgramsConfig {
    fn default() -> (c: Self)
        ensures
            c.zid,
            c.interlink,
    {
        DefaultProgramsConfig { zid: true, interlink: true }
    }
}

/// The program ids that the built-in program descriptors derive, each
/// `None` where the descriptor could not produce one.
#[derive(Debug, Clone)]
pub struct KnownPrograms {
    pub zid_v1: Option<Vec<u8>>,
    pub zid_v2: Option<Vec<u8>>,
    pub interlink_v1: Option<Vec<u8>>,
    pub interlink_v2: Option<Vec<u8>>,
}

/// The one-element set of a derived id, or the empty set.
pub open spec fn optional_id(id: Option<Vec<u8>>) -> Set<Seq<u8>> {
    match id {
        Some(v) => set![v@],
        None => Set::empty(),
    }
}

/// The program ids that the default-program toggles enable: both ZID
/// versions when ZID is on, both Interlink versions when Interlink is on.
pub open spec fn enabled_programs(c: DefaultProgramsConfig, known: KnownPrograms) -> Set<Seq<u8>> {
    let zid = if c.zid {
        optional_id(known.zid_v1).union(optional_id(known.zid_v2))
    } else {
        Set::empty()
    };
    let interlink = if c.interlink {
        optional_id(known.interlink_v1).union(optional_id(known.interlink_v2))
    } else {
        Set::empty()
    };
    zid.union(interlink)
}

fn insert_optional(set: &mut IdSet, id: &Option<Vec<u8>>)
    ensures
        final(set)@ == old(set)@.union(optional_id(*id)),
{
    match id {
        Some(v) => {
            set.insert(copy_bytes(v));
            assert(old(set)@.insert(v@) =~= old(set)@.union(set![v@]));
        },
        None => {
            assert(old(set)@.union(Set::empty()) =~= old(set)@);
        },
    }
}

impl DefaultProgramsConfig {
    /// Collect the ProgramIds of all enabled default programs.
    pub fn enabled_program_ids(&self, known: &KnownPrograms) -> (ids: IdSet)
        ensures
            ids@ == enabled_programs(*self, *known),
    {
        let mut set = IdSet::new();
        if self.zid {
            insert_optional(&mut set, &known.zid_v1);
            insert_optional(&mut set, &known.zid_v2);
        }
        if self.interlink {
            insert_optional(&mut set, &known.interlink_v1);
            insert_optional(&mut set, &known.interlink_v2);
        }
        assert(set@ =~= enabled_programs(*self, *known));
        set
    }
}

/// The entry `(name, id)` of a derived id, or no entry.
pub open spec fn named_entry(name: Seq<char>, id: Option<Vec<u8>>) -> Seq<(Seq<char>, Seq<u8>)> {
    match id {
        Some(v) => seq![(name, v@)],
        None => Seq::empty(),
    }
}

/// The known programs with their human-readable names, in the order
/// ZID v1, ZID v2, Interlink v1, Interlink v2, skipping those without an id.
pub open spec fn named_programs(known: KnownPrograms) -> Seq<(Seq<char>, Seq<u8>)> {
    named_entry("ZID v1"@, known.zid_v1) + named_entry("ZID v2"@, known.zid_v2) + named_entry(
        "Interlink v1"@,
        known.interlink_v1,
    ) + named_entry("Interlink v2"@, known.interlink_v2)
}

/// The abstract value of a list of named program ids.
pub open spec fn named_views(v: Seq<(&'static str, Vec<u8>)>) -> Seq<(Seq<char>, Seq<u8>)> {
    v.map_values(|e: (&'static str, Vec<u8>)| (e.0@, e.1@))
}

fn push_named(
    out: &mut Vec<(&'static str, Vec<u8>)>,
    name: &'static str,
    id: &Option<Vec<u8>>,
)
    ensures
        named_views(final(out)@) == named_views(old(out)@) + named_entry(name@, *id),
{
    match id {
        Some(v) => {
            out.push((name, copy_bytes(v)));
            assert(named_views(out@) =~= named_views(old(out)@) + named_entry(name@, *id));
        },
        None => {
            assert(named_views(out@) =~= named_views(old(out)@) + named_entry(name@, *id));
        },
    }
}

/// Returns the ProgramIds of all known programs with human-readable names.
///
/// These are the standard programs a Zode subscribes to out of the box.
/// Each entry is `(human_name, program_id)`.
pub fn default_program_ids(known: &KnownPrograms) -> (out: Vec<(&'static str, Vec<u8>)>)
    ensures
        named_views(out@) == named_programs(*known),
{
    let mut out: Vec<(&'static str, Vec<u8>)> = Vec::new();
    assert(named_views(out@) =~= Seq::empty());
    push_named(&mut out, "ZID v1", &known.zid_v1);
    push_named(&mut out, "ZID v2", &known.zid_v2);
    push_named(&mut out, "Interlink v1", &known.interlink_v1);
    push_named(&mut out, "Interlink v2", &known.interlink_v2);
    assert(named_views(out@) =~= named_programs(*known));
    out
}

/// Per-Zode filter controlling which sectors are served.
///
/// Applied after the program-level topic check. `All` means every sector
/// under a subscribed program is accepted. `AllowList` restricts to an
/// explicit set of sector IDs.
#[derive(Debug, Clone)]
pub enum SectorFilter {
    All,
    AllowList(IdSet),
}

impl Default for SectorFilter {
    fn default() -> (f: Self)
        ensures
            f is All,
    {
        SectorFilter::All
    }
}

/// Toggle default built-in services on or off.
#[derive(Debug, Clone)]
pub struct DefaultServicesConfig {
    /// Enable the Identity service. Default: `false` (not yet implemented).
    pub identity: bool,
    /// Enable the Interlink service. Default: `false` (not yet implemented).
    pub interlink: bool,
}

impl Default for DefaultServicesConfig {
    fn default() -> (c: Self)
        ensures
            !c.identity,
            !c.interlink,
    {
        DefaultServicesConfig { identity: false, interlink: false }
    }
}

/// Configuration for the service registry.
#[derive(Debug, Clone)]
pub struct ServiceRegistryConfig {
    /// Explicitly enabled service IDs.
    pub enabled_services: IdSet,
    /// Toggle built-in default services.
    pub default_services: DefaultServicesConfig,
}

impl Default for ServiceRegistryConfig {
    fn default() -> (c: Self)
        ensures
            c.enabled_services@ == Set::<Seq<u8>>::empty(),
            !c.default_services.identity,
            !c.default_services.interlink,
    {
        ServiceRegistryConfig {
            enabled_services: IdSet::new(),
            default_services: DefaultServicesConfig::default(),
        }
    }
}

/// Default maximum payload size per sector entry: 256 KB.
pub const DEFAULT_MAX_SLOT_SIZE_BYTES: u64 = 262144;

/// Sector protocol storage limits.
#[derive(Debug, Clone)]
pub struct SectorLimitsConfig {
    /// Maximum payload size per sector entry (bytes). Default: 256 KB.
    pub max_slot_size_bytes: u64,
    /// Maximum total storage per program (bytes). `None` = unlimited.
    pub max_per_program_bytes: Option<u64>,
}

impl Default for SectorLimitsConfig {
    fn default() -> (c: Self)
        ensures
            c.max_slot_size_bytes == 256 * 1024,
            c.max_per_program_bytes is None,
    {
        SectorLimitsConfig {
            max_slot_size_bytes: DEFAULT_MAX_SLOT_SIZE_BYTES,
            max_per_program_bytes: None,
        }
    }
}

/// Zode configuration: storage, programs, topics, sector limits and filter,
/// services. The network (libp2p) and JSON-RPC server settings are values
/// of the node's networking and RPC components and are not held here.
#[derive(Debug, Clone)]
pub struct ZodeConfig {
    /// Directory of the node's storage.
    pub storage_dir: String,
    /// Toggle default programs on or off.
    pub default_programs: DefaultProgramsConfig,
    /// Additional (non-default) program topics to subscribe to.
    pub topics: IdSet,
    /// Sector-specific limits.
    pub sector_limits: SectorLimitsConfig,
    /// Per-sector filter (default: accept all).
    pub sector_filter: SectorFilter,
    /// Service registry configuration.
    pub services: ServiceRegistryConfig,
    /// Per-service configuration keyed by service name (e.g. `"ZEPHYR"`).
    pub service_configs: HashMap<String, serde_json::Value>,
}

impl ZodeConfig {
    /// Compute the effective set of subscribed programs:
    /// enabled default programs **union** explicit `topics`.
    pub fn effective_topics(&self, known: &KnownPrograms) -> (ids: IdSet)
        ensures
            ids@ == effective_topics_of(*self, *known),
    {
        let mut set = self.default_programs.enabled_program_ids(known);
        set.extend(&self.topics);
        set
    }
}

/// The programs a node subscribes to: the enabled default programs and
/// the explicit topics.
pub open spec fn effective_topics_of(c: ZodeConfig, known: KnownPrograms) -> Set<Seq<u8>> {
    enabled_programs(c.default_programs, known).union(c.topics@)
}

/// The effective topics are exactly the explicit topics, the ZID programs
/// when ZID is on, and the Interlink programs when Interlink is on: every
/// explicit topic is subscribed whatever the toggles.
pub proof fn lemma_effective_topics_members(c: ZodeConfig, known: KnownPrograms, id: Seq<u8>)
    ensures
        effective_topics_of(c, known).contains(id) <==> {
            ||| c.topics@.contains(id)
            ||| c.default_programs.zid && (known.zid_v1 matches Some(v) && v@ == id)
            ||| c.default_programs.zid && (known.zid_v2 matches Some(v) && v@ == id)
            ||| c.default_programs.interlink && (known.interlink_v1 matches Some(v) && v@ == id)
            ||| c.default_programs.interlink && (known.interlink_v2 matches Some(v) && v@ == id)
        },
        c.topics@.subset_of(effective_topics_of(c, known)),
{
}

/// Disabling ZID removes both ZID programs from the effective topics,
/// unless a program id is also subscribed another way (an explicit topic,
/// or the enabled Interlink program having the same id).
pub proof fn lemma_disabled_zid_unsubscribed(c: ZodeConfig, known: KnownPrograms, id: Seq<u8>)
    requires
        !c.default_programs.zid,
        !c.topics@.contains(id),
        !(c.default_programs.interlink && (optional_id(known.interlink_v1).contains(id)
            || optional_id(known.interlink_v2).contains(id))),
    ensures
        !effective_topics_of(c, known).contains(id),
{
}

/// Disabling Interlink removes both Interlink programs from the effective
/// topics, unless a program id is also subscribed another way.
pub proof fn lemma_disabled_interlink_unsubscribed(c: ZodeConfig, known: KnownPrograms, id: Seq<u8>)
    requires
        !c.default_programs.interlink,
        !c.topics@.contains(id),
        !(c.default_programs.zid && (optional_id(known.zid_v1).contains(id) || optional_id(
            known.zid_v2,
        ).contains(id))),
    ensures
        !effective_topics_of(c, known).contains(id),
{
}

/// The program ids that [`default_program_ids`] lists.
pub open spec fn listed_ids(known: KnownPrograms) -> Set<Seq<u8>> {
    named_programs(known).map_values(entry_id()).to_set()
}

/// The program id of a named entry.
pub open spec fn entry_id() -> spec_fn((Seq<char>, Seq<u8>)) -> Seq<u8> {
    |e: (Seq<char>, Seq<u8>)| e.1
}

proof fn lemma_entry_ids(name: Seq<char>, id: Option<Vec<u8>>)
    ensures
        named_entry(name, id).map_values(entry_id()).to_set() == optional_id(id),
{
    match id {
        Some(v) => {
            assert(named_entry(name, id).map_values(entry_id()) =~= seq![v@]);
            assert(seq![v@].to_set() =~= set![v@]) by {
                assert(seq![v@][0] == v@);
            }
        },
        None => {
            assert(named_entry(name, id).map_values(entry_id()) =~= Seq::<Seq<u8>>::empty());
            assert(Seq::<Seq<u8>>::empty().to_set() =~= Set::<Seq<u8>>::empty());
        },
    }
}

/// The listed ids are the ids of the four known programs that have one.
proof fn lemma_listed_ids(known: KnownPrograms)
    ensures
        listed_ids(known) == optional_id(known.zid_v1).union(optional_id(known.zid_v2)).union(
            optional_id(known.interlink_v1),
        ).union(optional_id(known.interlink_v2)),
{
    let a = named_entry("ZID v1"@, known.zid_v1);
    let b = named_entry("ZID v2"@, known.zid_v2);
    let l = named_entry("Interlink v1"@, known.interlink_v1);
    let d = named_entry("Interlink v2"@, known.interlink_v2);
    let ids = entry_id();
    let all = optional_id(known.zid_v1).union(optional_id(known.zid_v2)).union(
        optional_id(known.interlink_v1),
    ).union(optional_id(known.interlink_v2));
    assert(named_programs(known) == a + b + l + d);
    assert((a + b + l + d).map_values(ids) =~= a.map_values(ids) + b.map_values(ids)
        + l.map_values(ids) + d.map_values(ids));
    lemma_entry_ids("ZID v1"@, known.zid_v1);
    lemma_entry_ids("ZID v2"@, known.zid_v2);
    lemma_entry_ids("Interlink v1"@, known.interlink_v1);
    lemma_entry_ids("Interlink v2"@, known.interlink_v2);
    let sa = a.map_values(ids);
    let sb = b.map_values(ids);
    let sl = l.map_values(ids);
    let sd = d.map_values(ids);
    assert(sa.to_set() == optional_id(known.zid_v1));
    assert(sb.to_set() == optional_id(known.zid_v2));
    assert(sl.to_set() == optional_id(known.interlink_v1));
    assert(sd.to_set() == optional_id(known.interlink_v2));
    let whole = sa + sb + sl + sd;
    assert forall|x: Seq<u8>| whole.contains(x) <==> all.contains(x) by {
        if whole.contains(x) {
            let k = choose|k: int| 0 <= k < whole.len() && whole[k] == x;
            if k < sa.len() {
                assert(sa[k] == x);
            } else if k < sa.len() + sb.len() {
                assert(sb[k - sa.len()] == x);
            } else if k < sa.len() + sb.len() + sl.len() {
                assert(sl[k - sa.len() - sb.len()] == x);
            } else {
                assert(sd[k - sa.len() - sb.len() - sl.len()] == x);
            }
        }
        if all.contains(x) {
            if sa.contains(x) {
                let k = choose|k: int| 0 <= k < sa.len() && sa[k] == x;
                assert(whole[k] == x);
            } else if sb.contains(x) {
                let k = choose|k: int| 0 <= k < sb.len() && sb[k] == x;
                assert(whole[sa.len() + k] == x);
            } else if sl.contains(x) {
                let k = choose|k: int| 0 <= k < sl.len() && sl[k] == x;
                assert(whole[sa.len() + sb.len() + k] == x);
            } else {
                assert(sd.contains(x));
                let k = choose|k: int| 0 <= k < sd.len() && sd[k] == x;
                assert(whole[sa.len() + sb.len() + sl.len() + k] == x);
            }
        }
    }
    assert(listed_ids(known) =~= all);
}

/// Every enabled default program is one of the known programs that
/// [`default_program_ids`] lists.
pub proof fn lemma_enabled_are_listed(c: DefaultProgramsConfig, known: KnownPrograms)
    ensures
        enabled_programs(c, known).subset_of(listed_ids(known)),
{
    lemma_listed_ids(known);
}

/// The programs that [`default_program_ids`] lists are exactly those that
/// the default configuration subscribes to.
pub proof fn lemma_default_subscribes_listed(c: ZodeConfig, known: KnownPrograms)
    requires
        c.default_programs.zid,
        c.default_programs.interlink,
        c.topics@ == Set::<Seq<u8>>::empty(),
    ensures
        effective_topics_of(c, known) == listed_ids(known),
{
    lemma_listed_ids(known);
    assert(effective_topics_of(c, known) =~= listed_ids(known));
}

impl Default for ZodeConfig {
    fn default() -> (c: Self)
        ensures
            c.storage_dir@ == ".zode/data"@,
            c.default_programs.zid,
            c.default_programs.interlink,
            c.topics@ == Set::<Seq<u8>>::empty(),
            c.sector_limits.max_slot_size_bytes == 256 * 1024,
            c.sector_limits.max_per_program_bytes is None,
            c.sector_filter is All,
            c.services.enabled_services@ == Set::<Seq<u8>>::empty(),
            !c.services.default_services.identity,
            !c.services.default_services.interlink,
            c.service_configs@ == Map::<String, serde_json::Value>::empty(),
    {
        ZodeConfig {
            storage_dir: String::from_str(".zode/data"),
            default_programs: DefaultProgramsConfig::default(),
            topics: IdSet::new(),
            sector_limits: SectorLimitsConfig::default(),
            sector_filter: SectorFilter::default(),
            services: ServiceRegistryConfig::default(),
            service_configs: HashMap::new(),
        }
    }
}

} // verus!
