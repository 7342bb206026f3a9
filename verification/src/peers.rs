//! Merging the cached peer addresses into the bootstrap list.
//!
//! Addresses are compared as their byte encodings. Each cache entry arrives
//! already parsed and sanitized, or as `None` where it failed to parse.

use vstd::prelude::*;

use crate::ids::{byte_views, bytes_equal, list_contains};

verus! {

/// The abstract value of a list of parsed cache entries.
pub open spec fn entry_views(v: Seq<Option<Vec<u8>>>) -> Seq<Option<Seq<u8>>> {
    v.map_values(
        |e: Option<Vec<u8>>|
            match e {
                Some(a) => Some(a@),
                None => None,
            },
    )
}

/// The addresses of the picked cache entries, in order.
pub open spec fn picked_addrs(entries: Seq<Option<Seq<u8>>>, picks: Seq<int>) -> Seq<Seq<u8>> {
    picks.map_values(|k: int| entries[k]->0)
}

/// Positions of the cache entries that are appended to the bootstrap list
/// `existing`: each entry that parsed and whose address is neither in the
/// list nor an earlier appended entry, in cache order.
pub open spec fn merge_picks(existing: Seq<Seq<u8>>, entries: Seq<Option<Seq<u8>>>) -> Seq<int>
    decreases entries.len(),
{
    if entries.len() == 0 {
        Seq::empty()
    } else {
        let prior = merge_picks(existing, entries.drop_last());
        let list = existing + picked_addrs(entries, prior);
        match entries.last() {
            Some(a) => if list.contains(a) {
                prior
            } else {
                prior.push(entries.len() - 1)
            },
            None => prior,
        }
    }
}

/// The bootstrap list after the merge.
pub open spec fn merged_peers(existing: Seq<Seq<u8>>, entries: Seq<Option<Seq<u8>>>) -> Seq<Seq<u8>> {
    existing + picked_addrs(entries, merge_picks(existing, entries))
}

/// Number of cache entries that parsed.
pub open spec fn parsed_count(entries: Seq<Option<Seq<u8>>>) -> nat
    decreases entries.len(),
{
    if entries.len() == 0 {
        0
    } else {
        parsed_count(entries.drop_last()) + if entries.last() is Some {
            1nat
        } else {
            0nat
        }
    }
}

/// Positions picked from a list of entries all lie within it, increase,
/// and point at parsed entries.
pub open spec fn picks_valid(entries: Seq<Option<Seq<u8>>>, picks: Seq<int>) -> bool {
    &&& forall|k: int| 0 <= k < picks.len() ==> 0 <= #[trigger] picks[k] < entries.len()
    &&& forall|k: int| 0 <= k < picks.len() ==> entries[#[trigger] picks[k]] is Some
    &&& forall|k: int, l: int| 0 <= k < l < picks.len() ==> picks[k] < picks[l]
}

proof fn lemma_picks_valid(existing: Seq<Seq<u8>>, entries: Seq<Option<Seq<u8>>>)
    ensures
        picks_valid(entries, merge_picks(existing, entries)),
    decreases entries.len(),
{
    if entries.len() > 0 {
        let prior = merge_picks(existing, entries.drop_last());
        lemma_picks_valid(existing, entries.drop_last());
        assert forall|k: int| 0 <= k < prior.len() implies entries[#[trigger] prior[k]] is Some by {
            assert(entries.drop_last()[prior[k]] is Some);
        }
    }
}

/// Picks that lie within a prefix name the same addresses in the whole list.
proof fn lemma_picked_prefix(entries: Seq<Option<Seq<u8>>>, n: int, picks: Seq<int>)
    requires
        0 <= n <= entries.len(),
        forall|k: int| 0 <= k < picks.len() ==> 0 <= #[trigger] picks[k] < n,
    ensures
        picked_addrs(entries.subrange(0, n), picks) == picked_addrs(entries, picks),
{
    assert(picked_addrs(entries.subrange(0, n), picks) =~= picked_addrs(entries, picks));
}

/// One more cache entry appends its address exactly when it parsed and the
/// list merged so far does not hold it.
proof fn lemma_merged_step(existing: Seq<Seq<u8>>, entries: Seq<Option<Seq<u8>>>)
    requires
        entries.len() > 0,
    ensures
        merged_peers(existing, entries) == match entries.last() {
            Some(a) => if merged_peers(existing, entries.drop_last()).contains(a) {
                merged_peers(existing, entries.drop_last())
            } else {
                merged_peers(existing, entries.drop_last()).push(a)
            },
            None => merged_peers(existing, entries.drop_last()),
        },
{
    let prior = merge_picks(existing, entries.drop_last());
    lemma_picks_valid(existing, entries.drop_last());
    lemma_picked_prefix(entries, entries.len() - 1, prior);
    assert(entries.subrange(0, entries.len() - 1) =~= entries.drop_last());
    match entries.last() {
        Some(a) => {
            let before = existing + picked_addrs(entries, prior);
            if !before.contains(a) {
                assert(picked_addrs(entries, prior.push(entries.len() - 1)) =~= picked_addrs(
                    entries,
                    prior,
                ).push(a));
                assert(merged_peers(existing, entries) =~= before.push(a));
            }
        },
        None => {},
    }
}

/// Merging keeps the bootstrap list as it was and only appends to it.
pub proof fn lemma_merge_keeps_existing(existing: Seq<Seq<u8>>, entries: Seq<Option<Seq<u8>>>)
    ensures
        merged_peers(existing, entries).len() >= existing.len(),
        merged_peers(existing, entries).subrange(0, existing.len() as int) == existing,
{
    assert(merged_peers(existing, entries).subrange(0, existing.len() as int) =~= existing);
}

/// Merging introduces no duplicate: a duplicate-free bootstrap list stays so.
pub proof fn lemma_merge_no_duplicates(existing: Seq<Seq<u8>>, entries: Seq<Option<Seq<u8>>>)
    requires
        existing.no_duplicates(),
    ensures
        merged_peers(existing, entries).no_duplicates(),
    decreases entries.len(),
{
    if entries.len() == 0 {
        assert(merged_peers(existing, entries) =~= existing);
    } else {
        lemma_merge_no_duplicates(existing, entries.drop_last());
        lemma_merged_step(existing, entries);
    }
}

/// After the merge the bootstrap list holds the address of every cache
/// entry that parsed.
pub proof fn lemma_merge_covers_parsed(existing: Seq<Seq<u8>>, entries: Seq<Option<Seq<u8>>>, k: int)
    requires
        0 <= k < entries.len(),
        entries[k] is Some,
    ensures
        merged_peers(existing, entries).contains(entries[k]->0),
    decreases entries.len(),
{
    lemma_merged_step(existing, entries);
    let before = merged_peers(existing, entries.drop_last());
    let a = entries[k]->0;
    if k == entries.len() - 1 {
        if !before.contains(a) {
            assert(before.push(a)[before.len() as int] == a);
        }
    } else {
        lemma_merge_covers_parsed(existing, entries.drop_last(), k);
        let j = choose|j: int| 0 <= j < before.len() && before[j] == a;
        assert(merged_peers(existing, entries)[j] == a);
    }
}

/// Every address of the merged list was in the bootstrap list or is the
/// address of a cache entry that parsed.
pub proof fn lemma_merge_only_from_inputs(existing: Seq<Seq<u8>>, entries: Seq<Option<Seq<u8>>>, j: int)
    requires
        0 <= j < merged_peers(existing, entries).len(),
    ensures
        existing.contains(merged_peers(existing, entries)[j]) || exists|k: int|
            0 <= k < entries.len() && entries[k] == Some(merged_peers(existing, entries)[j]),
{
    let m = merged_peers(existing, entries);
    let picks = merge_picks(existing, entries);
    lemma_picks_valid(existing, entries);
    if j < existing.len() {
        assert(existing[j] == m[j]);
    } else {
        let k = picks[j - existing.len()];
        assert(entries[k] == Some(m[j]));
    }
}

/// Entries whose addresses a list already holds add nothing to it.
proof fn lemma_merge_picks_none(existing: Seq<Seq<u8>>, entries: Seq<Option<Seq<u8>>>)
    requires
        forall|k: int| 0 <= k < entries.len() && #[trigger] entries[k] is Some ==> existing.contains(entries[k]->0),
    ensures
        merge_picks(existing, entries) == Seq::<int>::empty(),
    decreases entries.len(),
{
    if entries.len() > 0 {
        assert forall|k: int|
            0 <= k < entries.drop_last().len() && #[trigger] entries.drop_last()[k] is Some implies existing.contains(
            entries.drop_last()[k]->0) by {
            assert(entries.drop_last()[k] == entries[k]);
        }
        lemma_merge_picks_none(existing, entries.drop_last());
        assert(existing + picked_addrs(entries, Seq::<int>::empty()) =~= existing);
        assert(entries.last() == entries[entries.len() - 1]);
    }
}

/// Merging the same cache a second time appends nothing.
pub proof fn lemma_merge_idempotent(existing: Seq<Seq<u8>>, entries: Seq<Option<Seq<u8>>>)
    ensures
        merge_picks(merged_peers(existing, entries), entries) == Seq::<int>::empty(),
        merged_peers(merged_peers(existing, entries), entries) == merged_peers(existing, entries),
{
    let m = merged_peers(existing, entries);
    assert forall|k: int| 0 <= k < entries.len() && #[trigger] entries[k] is Some implies m.contains(
        entries[k]->0) by {
        lemma_merge_covers_parsed(existing, entries, k);
    }
    lemma_merge_picks_none(m, entries);
    assert(merged_peers(m, entries) =~= m);
}

/// The outcome of merging the peer cache.
#[derive(Debug)]
pub struct PeerMerge {
    /// Positions of the cache entries to append, in order.
    pub append: Vec<usize>,
    /// Entries that parsed.
    pub parsed: usize,
    /// Entries that failed to parse.
    pub failed: usize,
}

/// Whether `x` is the address of one of the picked entries.
fn picked_contains(entries: &Vec<Option<Vec<u8>>>, picks: &Vec<usize>, x: &Vec<u8>) -> (found: bool)
    requires
        forall|k: int|
            0 <= k < picks@.len() ==> (#[trigger] picks@[k]) < entries@.len() && entries@[picks@[k] as int] is Some,
    ensures
        found == picked_addrs(entry_views(entries@), picks@.map_values(|k: usize| k as int)).contains(
            x@,
        ),
{
    let ghost ev = entry_views(entries@);
    let ghost pk = picks@.map_values(|k: usize| k as int);
    let mut i: usize = 0;
    while i < picks.len()
        invariant
            i <= picks.len(),
            ev == entry_views(entries@),
            pk == picks@.map_values(|k: usize| k as int),
            forall|k: int|
                0 <= k < picks@.len() ==> (#[trigger] picks@[k]) < entries@.len() && entries@[picks@[k] as int] is Some,
            forall|j: int| 0 <= j < i ==> picked_addrs(ev, pk)[j] != x@,
        decreases picks.len() - i,
    {
        let k = picks[i];
        match &entries[k] {
            Some(a) => {
                if bytes_equal(a, x) {
                    assert(picked_addrs(ev, pk)[i as int] == x@);
                    return true;
                }
                assert(picked_addrs(ev, pk)[i as int] == a@);
            },
            None => {
                assert(false);
            },
        }
        i += 1;
    }
    assert(!picked_addrs(ev, pk).contains(x@)) by {
        if picked_addrs(ev, pk).contains(x@) {
            let j = choose|j: int| 0 <= j < picked_addrs(ev, pk).len() && picked_addrs(ev, pk)[j] == x@;
            assert(picked_addrs(ev, pk)[j] != x@);
        }
    }
    false
}

/// Merge previously cached peers into a bootstrap list: which cache entries
/// to append (see [`merge_picks`]) and how many parsed or failed.
pub fn merge_peer_cache(bootstrap: &Vec<Vec<u8>>, cached: &Vec<Option<Vec<u8>>>) -> (m: PeerMerge)
    ensures
        m.append@.map_values(|k: usize| k as int) == merge_picks(
            byte_views(bootstrap@),
            entry_views(cached@),
        ),
        m.parsed == parsed_count(entry_views(cached@)),
        m.parsed + m.failed == cached@.len(),
{
    let ghost existing = byte_views(bootstrap@);
    let ghost all = entry_views(cached@);
    let mut append: Vec<usize> = Vec::new();
    let mut parsed: usize = 0;
    let mut failed: usize = 0;
    let mut i: usize = 0;
    assert(all.subrange(0, 0) =~= Seq::<Option<Seq<u8>>>::empty());
    assert(append@.map_values(|k: usize| k as int) =~= Seq::<int>::empty());
    while i < cached.len()
        invariant
            i <= cached.len(),
            existing == byte_views(bootstrap@),
            all == entry_views(cached@),
            append@.map_values(|k: usize| k as int) == merge_picks(existing, all.subrange(0, i as int)),
            forall|k: int|
                0 <= k < append@.len() ==> (#[trigger] append@[k]) < i && cached@[append@[k] as int] is Some,
            parsed == parsed_count(all.subrange(0, i as int)),
            parsed + failed == i,
        decreases cached.len() - i,
    {
        let ghost prefix = all.subrange(0, i as int);
        let ghost next = all.subrange(0, i + 1);
        let ghost prior = merge_picks(existing, prefix);
        assert(next.drop_last() =~= prefix);
        assert(next.last() == all[i as int]);
        proof {
            lemma_picks_valid(existing, prefix);
            lemma_picked_prefix(all, i as int, prior);
            lemma_picked_prefix(next, i as int, prior);
            assert(next.subrange(0, i as int) =~= prefix);
        }
        match &cached[i] {
            Some(addr) => {
                parsed = parsed + 1;
                let known = list_contains(bootstrap, addr) || picked_contains(cached, &append, addr);
                assert(known == (existing + picked_addrs(next, prior)).contains(addr@)) by {
                    let list = existing + picked_addrs(next, prior);
                    if existing.contains(addr@) {
                        let j = choose|j: int| 0 <= j < existing.len() && existing[j] == addr@;
                        assert(list[j] == addr@);
                    }
                    if picked_addrs(next, prior).contains(addr@) {
                        let j = choose|j: int|
                            0 <= j < picked_addrs(next, prior).len() && picked_addrs(next, prior)[j] == addr@;
                        assert(list[existing.len() + j] == addr@);
                    }
                    if list.contains(addr@) {
                        let j = choose|j: int| 0 <= j < list.len() && list[j] == addr@;
                        if j < existing.len() {
                            assert(existing[j] == addr@);
                        } else {
                            assert(picked_addrs(next, prior)[j - existing.len()] == addr@);
                        }
                    }
                }
                if !known {
                    append.push(i);
                    assert(append@.map_values(|k: usize| k as int) =~= prior.push(i as int));
                }
            },
            None => {
                failed = failed + 1;
            },
        }
        i += 1;
    }
    assert(all.subrange(0, cached.len() as int) =~= all);
    PeerMerge { append, parsed, failed }
}

} // verus!
