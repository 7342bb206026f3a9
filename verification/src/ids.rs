//! Byte-string identifiers and a duplicate-free set of them.

use vstd::prelude::*;

verus! {

/// Compares two byte strings element by element.
pub fn bytes_equal(a: &Vec<u8>, b: &Vec<u8>) -> (eq: bool)
    ensures
        eq == (a@ == b@),
{
    if a.len() != b.len() {
        return false;
    }
    let mut i: usize = 0;
    while i < a.len()
        invariant
            a.len() == b.len(),
            i <= a.len(),
            forall|j: int| 0 <= j < i ==> a@[j] == b@[j],
        decreases a.len() - i,
    {
        if a[i] != b[i] {
            return false;
        }
        i += 1;
    }
    assert(a@ =~= b@);
    true
}

/// Copies a byte string.
pub fn copy_bytes(a: &Vec<u8>) -> (c: Vec<u8>)
    ensures
        c@ == a@,
{
    let mut c: Vec<u8> = Vec::new();
    let mut i: usize = 0;
    while i < a.len()
        invariant
            i <= a.len(),
            c@ == a@.subrange(0, i as int),
        decreases a.len() - i,
    {
        c.push(a[i]);
        i += 1;
    }
    assert(c@ =~= a@);
    c
}

/// The abstract contents of a list of byte strings.
pub open spec fn byte_views(v: Seq<Vec<u8>>) -> Seq<Seq<u8>> {
    v.map_values(|b: Vec<u8>| b@)
}

/// Whether `x` occurs (by value) in the list `v`.
pub fn list_contains(v: &Vec<Vec<u8>>, x: &Vec<u8>) -> (found: bool)
    ensures
        found == byte_views(v@).contains(x@),
{
    let mut i: usize = 0;
    while i < v.len()
        invariant
            i <= v.len(),
            forall|j: int| 0 <= j < i ==> v@[j]@ != x@,
        decreases v.len() - i,
    {
        if bytes_equal(&v[i], x) {
            assert(byte_views(v@)[i as int] == x@);
            return true;
        }
        i += 1;
    }
    assert(!byte_views(v@).contains(x@)) by {
        if byte_views(v@).contains(x@) {
            let k = choose|k: int| 0 <= k < byte_views(v@).len() && byte_views(v@)[k] == x@;
            assert(v@[k]@ == x@);
        }
    }
    false
}

/// `order` followed by the members of `more` it does not hold yet, each
/// once, in the order of `more`.
pub open spec fn append_new(order: Seq<Seq<u8>>, more: Seq<Seq<u8>>) -> Seq<Seq<u8>>
    decreases more.len(),
{
    if more.len() == 0 {
        order
    } else {
        let before = append_new(order, more.drop_last());
        if before.contains(more.last()) {
            before
        } else {
            before.push(more.last())
        }
    }
}

/// A finite set of byte-string identifiers (program, sector or service ids),
/// kept as a list in which no identifier occurs twice.
#[derive(Debug)]
pub struct IdSet {
    ids: Vec<Vec<u8>>,
}

impl View for IdSet {
    type V = Set<Seq<u8>>;

    closed spec fn view(&self) -> Set<Seq<u8>> {
        byte_views(self.ids@).to_set()
    }
}

impl IdSet {
    #[verifier::type_invariant]
    closed spec fn no_repeats(self) -> bool {
        byte_views(self.ids@).no_duplicates()
    }

    /// The identifiers in the order they were first inserted.
    pub closed spec fn order(self) -> Seq<Seq<u8>> {
        byte_views(self.ids@)
    }

    /// The empty set.
    pub fn new() -> (s: IdSet)
        ensures
            s@ == Set::<Seq<u8>>::empty(),
            s.order() == Seq::<Seq<u8>>::empty(),
    {
        let s = IdSet { ids: Vec::new() };
        assert(byte_views(s.ids@) =~= Seq::<Seq<u8>>::empty());
        assert(s@ =~= Set::<Seq<u8>>::empty());
        s
    }

    /// Whether `id` is a member.
    pub fn contains(&self, id: &Vec<u8>) -> (found: bool)
        ensures
            found == self@.contains(id@),
    {
        list_contains(&self.ids, id)
    }

    /// Number of members.
    pub fn len(&self) -> (n: usize)
        ensures
            n == self@.len(),
    {
        proof {
            use_type_invariant(self);
            self.order().unique_seq_to_set();
        }
        self.ids.len()
    }

    /// Adds `id`; returns whether it was new. An identifier already present
    /// leaves the set unchanged.
    pub fn insert(&mut self, id: Vec<u8>) -> (added: bool)
        ensures
            added == !old(self)@.contains(id@),
            final(self)@ == old(self)@.insert(id@),
            final(self).order() == if added {
                old(self).order().push(id@)
            } else {
                old(self).order()
            },
    {
        proof {
            use_type_invariant(&*self);
        }
        if list_contains(&self.ids, &id) {
            assert(old(self)@.insert(id@) =~= old(self)@);
            false
        } else {
            let ghost before = byte_views(self.ids@);
            let ghost idv = id@;
            let mut ids: Vec<Vec<u8>> = Vec::new();
            std::mem::swap(&mut ids, &mut self.ids);
            ids.push(id);
            assert(byte_views(ids@) =~= before.push(idv));
            self.ids = ids;
            assert(byte_views(self.ids@) =~= before.push(idv));
            assert(byte_views(self.ids@).to_set() =~= before.to_set().insert(idv)) by {
                assert forall|x: Seq<u8>|
                    byte_views(self.ids@).to_set().contains(x) <==> before.to_set().insert(
                        idv,
                    ).contains(x) by {
                    if before.contains(x) {
                        let k = choose|k: int| 0 <= k < before.len() && before[k] == x;
                        assert(byte_views(self.ids@)[k] == x);
                    }
                    if byte_views(self.ids@).contains(x) && x != idv {
                        let k = choose|k: int|
                            0 <= k < byte_views(self.ids@).len() && byte_views(self.ids@)[k]
                                == x;
                        assert(before[k] == x);
                    }
                    if x == idv {
                        assert(byte_views(self.ids@)[before.len() as int] == x);
                    }
                }
            }
            true
        }
    }

    /// Adds every member of `other` (set union); members of `self` keep
    /// their place and new ones follow in `other`'s order.
    pub fn extend(&mut self, other: &IdSet)
        ensures
            final(self)@ == old(self)@.union(other@),
            final(self).order() == append_new(old(self).order(), other.order()),
    {
        let mut i: usize = 0;
        proof {
            use_type_invariant(other);
        }
        while i < other.ids.len()
            invariant
                i <= other.ids.len(),
                self@ == old(self)@.union(byte_views(other.ids@).subrange(0, i as int).to_set()),
                self.order() == append_new(
                    old(self).order(),
                    byte_views(other.ids@).subrange(0, i as int),
                ),
                other@ == byte_views(other.ids@).to_set(),
            decreases other.ids.len() - i,
        {
            let id = copy_bytes(&other.ids[i]);
            let ghost prefix = byte_views(other.ids@).subrange(0, i as int);
            let ghost next = byte_views(other.ids@).subrange(0, i + 1);
            let ghost before = self.order();
            assert(self@.contains(id@) <==> before.contains(id@));
            self.insert(id);
            assert(next =~= prefix.push(other.ids@[i as int]@));
            assert(next.drop_last() =~= prefix);
            assert(self.order() == append_new(old(self).order(), next));
            assert(next.to_set() =~= prefix.to_set().insert(other.ids@[i as int]@)) by {
                assert forall|x: Seq<u8>|
                    next.to_set().contains(x) <==> prefix.to_set().insert(
                        other.ids@[i as int]@,
                    ).contains(x) by {
                    if prefix.contains(x) {
                        let k = choose|k: int| 0 <= k < prefix.len() && prefix[k] == x;
                        assert(next[k] == x);
                    }
                    if next.contains(x) && x != other.ids@[i as int]@ {
                        let k = choose|k: int| 0 <= k < next.len() && next[k] == x;
                        assert(prefix[k] == x);
                    }
                    if x == other.ids@[i as int]@ {
                        assert(next[i as int] == x);
                    }
                }
            }
            assert(self@ =~= old(self)@.union(next.to_set()));
            i += 1;
        }
        assert(byte_views(other.ids@).subrange(0, other.ids.len() as int) =~= byte_views(
            other.ids@,
        ));
        assert(other.order() == byte_views(other.ids@));
    }

    /// The members, in insertion order, each once.
    pub fn as_vec(&self) -> (v: &Vec<Vec<u8>>)
        ensures
            byte_views(v@) == self.order(),
            self.order().no_duplicates(),
            self@ == self.order().to_set(),
    {
        proof {
            use_type_invariant(self);
        }
        &self.ids
    }
}

impl Clone for IdSet {
    /// A copy with the same members in the same order.
    fn clone(&self) -> (c: Self)
        ensures
            c@ == self@,
            c.order() == self.order(),
    {
        proof {
            use_type_invariant(self);
        }
        let mut ids: Vec<Vec<u8>> = Vec::new();
        let mut i: usize = 0;
        while i < self.ids.len()
            invariant
                i <= self.ids.len(),
                ids@.len() == i,
                byte_views(ids@) == byte_views(self.ids@).subrange(0, i as int),
                byte_views(self.ids@).no_duplicates(),
            decreases self.ids.len() - i,
        {
            let ghost before = ids@;
            let c = copy_bytes(&self.ids[i]);
            ids.push(c);
            assert(ids@ == before.push(c));
            assert forall|k: int| 0 <= k < i implies byte_views(ids@)[k] == byte_views(
                self.ids@,
            )[k] by {
                assert(ids@[k] == before[k]);
                assert(byte_views(before)[k] == byte_views(self.ids@).subrange(0, i as int)[k]);
            }
            assert(byte_views(ids@) =~= byte_views(self.ids@).subrange(0, i + 1));
            i += 1;
        }
        assert(byte_views(ids@) =~= byte_views(self.ids@));
        IdSet { ids }
    }
}

} // verus!
