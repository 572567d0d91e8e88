//! The related-state registry: a per-call mapping from dependency identifier
//! to an optional previously fetched state.  The domain capability marks the
//! identifiers it consults during verification; the adapter reads the
//! registry back afterwards to find the dependencies that are still
//! unresolved.

use vstd::prelude::*;

use crate::bytes::bytes_clone;
use crate::bytes::bytes_eq;

verus! {

/// Mathematical model of one registry entry.
pub struct EntryV {
    /// The dependency identifier.
    pub id: Seq<u8>,
    /// The state supplied for the dependency, if any; `None` means the
    /// dependency is known but its state has not been supplied yet.
    pub state: Option<Seq<u8>>,
    /// Whether the capability consulted this identifier during verification.
    pub needed: bool,
}

/// The position of the first entry with this identifier, or `s.len()` if the
/// identifier is absent.
pub open spec fn find(s: Seq<EntryV>, id: Seq<u8>) -> int
    decreases s.len(),
{
    if s.len() == 0 {
        0
    } else if s[0].id == id {
        0
    } else {
        1 + find(s.drop_first(), id)
    }
}

pub proof fn lemma_find_props(s: Seq<EntryV>, id: Seq<u8>)
    ensures
        0 <= find(s, id) <= s.len(),
        find(s, id) < s.len() ==> s[find(s, id)].id == id,
        forall|j: int| 0 <= j < find(s, id) ==> s[j].id != id,
    decreases s.len(),
{
    if s.len() > 0 && s[0].id != id {
        lemma_find_props(s.drop_first(), id);
        assert forall|j: int| 0 <= j < find(s, id) implies s[j].id != id by {
            if j > 0 {
                assert(s.drop_first()[j - 1] == s[j]);
            }
        }
    }
}

/// The registry after the capability consults `id`: the first entry with
/// that identifier is marked needed, and a needed entry with no state is
/// appended when the identifier is absent.
pub open spec fn mark_spec(s: Seq<EntryV>, id: Seq<u8>) -> Seq<EntryV> {
    if find(s, id) < s.len() {
        s.update(
            find(s, id),
            EntryV { id: s[find(s, id)].id, state: s[find(s, id)].state, needed: true },
        )
    } else {
        s.push(EntryV { id: id, state: None, needed: true })
    }
}

/// The registry after the capability consults each identifier of `ids` in
/// order.
pub open spec fn mark_all(s: Seq<EntryV>, ids: Seq<Seq<u8>>) -> Seq<EntryV>
    decreases ids.len(),
{
    if ids.len() == 0 {
        s
    } else {
        mark_all(mark_spec(s, ids[0]), ids.drop_first())
    }
}

pub proof fn lemma_mark_all_singleton(s: Seq<EntryV>, id: Seq<u8>)
    ensures
        mark_all(s, seq![id]) == mark_spec(s, id),
{
    assert(seq![id].drop_first() =~= Seq::<Seq<u8>>::empty());
    assert(mark_all(mark_spec(s, id), Seq::<Seq<u8>>::empty()) == mark_spec(s, id));
    assert(mark_all(s, seq![id]) == mark_all(mark_spec(s, id), seq![id].drop_first()));
}

/// What the registry holds for `id`: `None` if the identifier is absent,
/// otherwise the (optional) state of its entry.
pub open spec fn lookup_state(s: Seq<EntryV>, id: Seq<u8>) -> Option<Option<Seq<u8>>> {
    if find(s, id) < s.len() {
        Some(s[find(s, id)].state)
    } else {
        None
    }
}

/// Whether `id` has no supplied state in `s`: it is absent, or present with
/// no state.
pub open spec fn unresolved_in(s: Seq<EntryV>, id: Seq<u8>) -> bool {
    lookup_state(s, id) is None || lookup_state(s, id) == Some(Option::<Seq<u8>>::None)
}

/// The identifiers of the entries that were consulted but have no supplied
/// state, in registry order.
pub open spec fn missing_spec(s: Seq<EntryV>) -> Seq<Seq<u8>>
    decreases s.len(),
{
    if s.len() == 0 {
        Seq::empty()
    } else if s[0].needed && s[0].state is None {
        seq![s[0].id] + missing_spec(s.drop_first())
    } else {
        missing_spec(s.drop_first())
    }
}

pub proof fn lemma_missing_append(a: Seq<EntryV>, b: Seq<EntryV>)
    ensures
        missing_spec(a + b) == missing_spec(a) + missing_spec(b),
    decreases a.len(),
{
    if a.len() == 0 {
        assert(a + b =~= b);
        assert(missing_spec(a) + missing_spec(b) =~= missing_spec(b));
    } else {
        assert((a + b).drop_first() =~= a.drop_first() + b);
        lemma_missing_append(a.drop_first(), b);
        if a[0].needed && a[0].state is None {
            assert(seq![a[0].id] + (missing_spec(a.drop_first()) + missing_spec(b)) =~= (seq![
                a[0].id,
            ] + missing_spec(a.drop_first())) + missing_spec(b));
        }
    }
}

/// Whether the entry at `i` is a consulted-but-unresolved entry for `id`.
pub open spec fn entry_missing(s: Seq<EntryV>, i: int, id: Seq<u8>) -> bool {
    s[i].needed && s[i].state is None && s[i].id == id
}

/// An identifier is listed among the missing ones exactly when some entry
/// is consulted, unresolved, and carries it.
pub proof fn lemma_missing_membership(s: Seq<EntryV>)
    ensures
        forall|id: Seq<u8>|
            #[trigger] missing_spec(s).contains(id) <==> exists|i: int|
                0 <= i < s.len() && entry_missing(s, i, id),
    decreases s.len(),
{
    if s.len() == 0 {
    } else {
        let t = s.drop_first();
        lemma_missing_membership(t);
        let m = missing_spec(s);
        let mt = missing_spec(t);
        assert forall|id: Seq<u8>| #[trigger] m.contains(id) implies exists|i: int|
            0 <= i < s.len() && entry_missing(s, i, id) by {
            let j = choose|j: int| 0 <= j < m.len() && m[j] == id;
            if s[0].needed && s[0].state is None {
                if j == 0 {
                    assert(entry_missing(s, 0, id));
                } else {
                    assert(mt[j - 1] == id);
                    assert(mt.contains(id));
                    let i = choose|i: int| 0 <= i < t.len() && entry_missing(t, i, id);
                    assert(t[i] == s[i + 1]);
                    assert(entry_missing(s, i + 1, id));
                }
            } else {
                assert(mt[j] == id);
                assert(mt.contains(id));
                let i = choose|i: int| 0 <= i < t.len() && entry_missing(t, i, id);
                assert(t[i] == s[i + 1]);
                assert(entry_missing(s, i + 1, id));
            }
        }
        assert forall|id: Seq<u8>|
            (exists|i: int| 0 <= i < s.len() && entry_missing(s, i, id)) implies #[trigger] m
            .contains(id) by {
            let i = choose|i: int| 0 <= i < s.len() && entry_missing(s, i, id);
            if s[0].needed && s[0].state is None {
                if i == 0 {
                    assert(m[0] == id);
                } else {
                    assert(t[i - 1] == s[i]);
                    assert(entry_missing(t, i - 1, id));
                    assert(mt.contains(id));
                    let j = choose|j: int| 0 <= j < mt.len() && mt[j] == id;
                    assert(m[j + 1] == id);
                }
            } else {
                assert(i != 0);
                assert(t[i - 1] == s[i]);
                assert(entry_missing(t, i - 1, id));
                assert(mt.contains(id));
                let j = choose|j: int| 0 <= j < mt.len() && mt[j] == id;
                assert(m[j] == id);
            }
        }
    }
}

/// A registry in which nothing was consulted lists nothing as missing.
pub proof fn lemma_missing_empty_when_unconsulted(s: Seq<EntryV>)
    requires
        forall|i: int| 0 <= i < s.len() ==> !(#[trigger] s[i]).needed,
    ensures
        missing_spec(s) == Seq::<Seq<u8>>::empty(),
    decreases s.len(),
{
    if s.len() > 0 {
        let t = s.drop_first();
        assert forall|i: int| 0 <= i < t.len() implies !(#[trigger] t[i]).needed by {
            assert(t[i] == s[i + 1]);
        }
        lemma_missing_empty_when_unconsulted(t);
    }
}

/// `find` depends only on the identifiers of the entries.
proof fn lemma_find_ids_only(s1: Seq<EntryV>, s2: Seq<EntryV>, id: Seq<u8>)
    requires
        s1.len() == s2.len(),
        forall|i: int| 0 <= i < s1.len() ==> (#[trigger] s1[i]).id == s2[i].id,
    ensures
        find(s1, id) == find(s2, id),
    decreases s1.len(),
{
    if s1.len() > 0 {
        assert(s1[0].id == s2[0].id);
        if s1[0].id != id {
            let t1 = s1.drop_first();
            let t2 = s2.drop_first();
            assert forall|i: int| 0 <= i < t1.len() implies (#[trigger] t1[i]).id == t2[i].id by {
                assert(t1[i] == s1[i + 1]);
                assert(t2[i] == s2[i + 1]);
            }
            lemma_find_ids_only(t1, t2, id);
        }
    }
}

/// How `find` behaves on a registry with one entry appended.
proof fn lemma_find_push(s: Seq<EntryV>, e: EntryV, id: Seq<u8>)
    ensures
        find(s, id) < s.len() ==> find(s.push(e), id) == find(s, id),
        find(s, id) == s.len() && e.id == id ==> find(s.push(e), id) == s.len(),
        find(s, id) == s.len() && e.id != id ==> find(s.push(e), id) == s.len() + 1,
    decreases s.len(),
{
    lemma_find_props(s, id);
    if s.len() == 0 {
        assert(seq![e].drop_first() =~= Seq::<EntryV>::empty());
        assert(find(Seq::<EntryV>::empty(), id) == 0);
        assert(s.push(e) =~= seq![e]);
    } else {
        assert(s.push(e)[0] == s[0]);
        if s[0].id != id {
            assert(s.push(e).drop_first() =~= s.drop_first().push(e));
            lemma_find_push(s.drop_first(), e, id);
        }
    }
}

/// Consulting an identifier never changes which identifiers are
/// unresolved: a present entry keeps its state, and an absent one becomes
/// present with no state.
pub proof fn lemma_mark_keeps_unresolved(s: Seq<EntryV>, id: Seq<u8>, other: Seq<u8>)
    ensures
        unresolved_in(mark_spec(s, id), other) == unresolved_in(s, other),
{
    lemma_find_props(s, id);
    lemma_find_props(s, other);
    let s2 = mark_spec(s, id);
    if find(s, id) < s.len() {
        assert forall|i: int| 0 <= i < s.len() implies (#[trigger] s[i]).id == s2[i].id by {}
        lemma_find_ids_only(s, s2, other);
        if find(s, other) < s.len() {
            assert(s2[find(s, other)].state == s[find(s, other)].state);
        }
    } else {
        let e = EntryV { id: id, state: None, needed: true };
        lemma_find_push(s, e, other);
        if find(s, other) < s.len() {
            assert(s2[find(s, other)] == s[find(s, other)]);
        }
    }
}

/// Consulting an identifier adds it to the missing list exactly when it is
/// unresolved, and disturbs no other listing.
pub proof fn lemma_mark_missing(s: Seq<EntryV>, id: Seq<u8>)
    ensures
        forall|other: Seq<u8>|
            #[trigger] missing_spec(mark_spec(s, id)).contains(other) <==> missing_spec(
                s,
            ).contains(other) || (other == id && unresolved_in(s, id)),
{
    lemma_find_props(s, id);
    let s2 = mark_spec(s, id);
    lemma_missing_membership(s);
    lemma_missing_membership(s2);
    let f = find(s, id);
    if f < s.len() {
        assert forall|other: Seq<u8>|
            #[trigger] missing_spec(s2).contains(other) implies missing_spec(s).contains(other)
            || (other == id && unresolved_in(s, id)) by {
            let i = choose|i: int| 0 <= i < s2.len() && entry_missing(s2, i, other);
            if i == f {
                assert(s[f].state is None);
            } else {
                assert(s2[i] == s[i]);
                assert(entry_missing(s, i, other));
            }
        }
        assert forall|other: Seq<u8>|
            missing_spec(s).contains(other) || (other == id && unresolved_in(
                s,
                id,
            )) implies #[trigger] missing_spec(s2).contains(other) by {
            if missing_spec(s).contains(other) {
                let i = choose|i: int| 0 <= i < s.len() && entry_missing(s, i, other);
                if i == f {
                    assert(entry_missing(s2, f, other));
                } else {
                    assert(s2[i] == s[i]);
                    assert(entry_missing(s2, i, other));
                }
            } else {
                assert(s[f].state is None);
                assert(entry_missing(s2, f, other));
            }
        }
    } else {
        assert forall|other: Seq<u8>|
            #[trigger] missing_spec(s2).contains(other) implies missing_spec(s).contains(other)
            || (other == id && unresolved_in(s, id)) by {
            let i = choose|i: int| 0 <= i < s2.len() && entry_missing(s2, i, other);
            if i < s.len() {
                assert(s2[i] == s[i]);
                assert(entry_missing(s, i, other));
            }
        }
        assert forall|other: Seq<u8>|
            missing_spec(s).contains(other) || (other == id && unresolved_in(
                s,
                id,
            )) implies #[trigger] missing_spec(s2).contains(other) by {
            if missing_spec(s).contains(other) {
                let i = choose|i: int| 0 <= i < s.len() && entry_missing(s, i, other);
                assert(s2[i] == s[i]);
                assert(entry_missing(s2, i, other));
            } else {
                assert(entry_missing(s2, s.len() as int, other));
            }
        }
    }
}

/// Consulting a list of identifiers lists as missing exactly what was
/// already missing, plus the consulted identifiers that are unresolved.
pub proof fn lemma_mark_all_missing(s: Seq<EntryV>, ids: Seq<Seq<u8>>)
    ensures
        forall|other: Seq<u8>|
            #[trigger] missing_spec(mark_all(s, ids)).contains(other) <==> missing_spec(
                s,
            ).contains(other) || (ids.contains(other) && unresolved_in(s, other)),
    decreases ids.len(),
{
    if ids.len() == 0 {
        assert(forall|other: Seq<u8>| !ids.contains(other));
    } else {
        let h = ids[0];
        let t = ids.drop_first();
        let s2 = mark_spec(s, h);
        lemma_mark_all_missing(s2, t);
        lemma_mark_missing(s, h);
        assert(mark_all(s, ids) == mark_all(s2, t));
        assert forall|other: Seq<u8>|
            #[trigger] missing_spec(mark_all(s, ids)).contains(other) <==> missing_spec(
                s,
            ).contains(other) || (ids.contains(other) && unresolved_in(s, other)) by {
            lemma_mark_keeps_unresolved(s, h, other);
            assert(missing_spec(mark_all(s2, t)).contains(other) <==> missing_spec(s2).contains(
                other,
            ) || (t.contains(other) && unresolved_in(s2, other)));
            assert(missing_spec(s2).contains(other) <==> missing_spec(s).contains(other) || (other
                == h && unresolved_in(s, h)));
            assert(ids.contains(other) <==> other == h || t.contains(other)) by {
                if t.contains(other) {
                    let j = choose|j: int| 0 <= j < t.len() && t[j] == other;
                    assert(ids[j + 1] == other);
                }
                if ids.contains(other) {
                    let j = choose|j: int| 0 <= j < ids.len() && ids[j] == other;
                    if j > 0 {
                        assert(t[j - 1] == other);
                    }
                }
            }
        }
    }
}

/// The registry after the host supplies `state` for `id`: the state of an
/// existing entry is replaced, or a fresh unconsulted entry is appended.
pub open spec fn supply_spec(s: Seq<EntryV>, id: Seq<u8>, state: Option<Seq<u8>>) -> Seq<EntryV> {
    if find(s, id) < s.len() {
        s.update(
            find(s, id),
            EntryV { id: s[find(s, id)].id, state: state, needed: s[find(s, id)].needed },
        )
    } else {
        s.push(EntryV { id: id, state: state, needed: false })
    }
}

/// The optional byte buffer a host hands over, as a mathematical value.
pub open spec fn opt_bytes_view(o: Option<Vec<u8>>) -> Option<Seq<u8>> {
    match o {
        Some(v) => Some(v@),
        None => None,
    }
}

/// One entry of the related-state registry.
pub struct RelatedEntry {
    id: Vec<u8>,
    state: Option<Vec<u8>>,
    needed: bool,
}

impl View for RelatedEntry {
    type V = EntryV;

    closed spec fn view(&self) -> EntryV {
        EntryV { id: self.id@, state: opt_bytes_view(self.state), needed: self.needed }
    }
}

/// The related-state registry handed to `verify` for the duration of one
/// validation call.
pub struct RelatedContracts {
    entries: Vec<RelatedEntry>,
}

impl View for RelatedContracts {
    type V = Seq<EntryV>;

    closed spec fn view(&self) -> Seq<EntryV> {
        self.entries@.map_values(|e: RelatedEntry| e@)
    }
}

impl RelatedContracts {
    /// An empty registry.
    pub fn new() -> (r: Self)
        ensures
            r@ == Seq::<EntryV>::empty(),
    {
        let r = RelatedContracts { entries: Vec::new() };
        proof {
            assert(r@ =~= Seq::<EntryV>::empty());
        }
        r
    }

    /// The position of the first entry with identifier `id`, or the number
    /// of entries if none has it.
    fn find_idx(&self, id: &Vec<u8>) -> (r: usize)
        ensures
            r as int == find(self@, id@),
    {
        let mut i: usize = 0;
        while i < self.entries.len()
            invariant
                i <= self.entries@.len(),
                self@ == self.entries@.map_values(|e: RelatedEntry| e@),
                forall|j: int| 0 <= j < i ==> self@[j].id != id@,
            decreases self.entries@.len() - i,
        {
            if bytes_eq(&self.entries[i].id, id) {
                proof {
                    assert(self@[i as int] == self.entries@[i as int]@);
                    lemma_find_props(self@, id@);
                }
                return i;
            }
            proof {
                assert(self@[i as int] == self.entries@[i as int]@);
            }
            i += 1;
        }
        proof {
            lemma_find_props(self@, id@);
        }
        i
    }

    /// Records that the capability consulted `id`, adding an unresolved
    /// entry when the identifier is absent.
    pub fn mark_needed(&mut self, id: &Vec<u8>)
        ensures
            final(self)@ == mark_spec(old(self)@, id@),
    {
        let i = self.find_idx(id);
        if i < self.entries.len() {
            self.entries[i].needed = true;
            proof {
                assert(final(self)@ =~= mark_spec(old(self)@, id@));
            }
        } else {
            self.entries.push(RelatedEntry { id: bytes_clone(id), state: None, needed: true });
            proof {
                assert(final(self)@ =~= mark_spec(old(self)@, id@));
            }
        }
    }

    /// What the registry holds for `id`: absent, present with no state, or
    /// present with a copy of the supplied state.
    pub fn get_state(&self, id: &Vec<u8>) -> (r: Option<Option<Vec<u8>>>)
        ensures
            match r {
                None => lookup_state(self@, id@) is None,
                Some(None) => lookup_state(self@, id@) == Some(Option::<Seq<u8>>::None),
                Some(Some(v)) => lookup_state(self@, id@) == Some(Some(v@)),
            },
    {
        let i = self.find_idx(id);
        if i < self.entries.len() {
            proof {
                assert(self@[i as int] == self.entries@[i as int]@);
            }
            match &self.entries[i].state {
                Some(v) => Some(Some(bytes_clone(v))),
                None => Some(None),
            }
        } else {
            None
        }
    }

    /// Supplies the (optional) state for `id`, as the host does before a
    /// validation call; replaces the state of an existing entry.
    pub fn insert_supplied(&mut self, id: Vec<u8>, state: Option<Vec<u8>>)
        ensures
            final(self)@ == supply_spec(old(self)@, id@, opt_bytes_view(state)),
    {
        let i = self.find_idx(&id);
        if i < self.entries.len() {
            self.entries[i].state = state;
            proof {
                assert(final(self)@ =~= supply_spec(old(self)@, id@, opt_bytes_view(state)));
            }
        } else {
            self.entries.push(RelatedEntry { id: id, state: state, needed: false });
            proof {
                assert(final(self)@ =~= supply_spec(old(self)@, id@, opt_bytes_view(state)));
            }
        }
    }

    /// The identifiers that were consulted but have no supplied state, in
    /// registry order.
    pub fn missing_ids(&self) -> (r: Vec<Vec<u8>>)
        ensures
            r@.map_values(|v: Vec<u8>| v@) == missing_spec(self@),
    {
        let mut r: Vec<Vec<u8>> = Vec::new();
        let mut i: usize = 0;
        proof {
            assert(self@.take(0) =~= Seq::<EntryV>::empty());
            assert(r@.map_values(|v: Vec<u8>| v@) =~= missing_spec(self@.take(0)));
        }
        while i < self.entries.len()
            invariant
                i <= self.entries@.len(),
                self@ == self.entries@.map_values(|e: RelatedEntry| e@),
                r@.map_values(|v: Vec<u8>| v@) == missing_spec(self@.take(i as int)),
            decreases self.entries@.len() - i,
        {
            proof {
                assert(self@[i as int] == self.entries@[i as int]@);
                assert(self@.take(i + 1 as int) =~= self@.take(i as int) + seq![self@[i as int]]);
                lemma_missing_append(self@.take(i as int), seq![self@[i as int]]);
                assert(seq![self@[i as int]].drop_first() =~= Seq::<EntryV>::empty());
                assert(missing_spec(Seq::<EntryV>::empty()) =~= Seq::<Seq<u8>>::empty());
            }
            let entry = &self.entries[i];
            if entry.needed && entry.state.is_none() {
                r.push(bytes_clone(&entry.id));
                proof {
                    assert(missing_spec(seq![self@[i as int]]) =~= seq![self@[i as int].id]);
                    assert(r@.map_values(|v: Vec<u8>| v@) =~= missing_spec(
                        self@.take(i + 1 as int),
                    ));
                }
            } else {
                proof {
                    assert(missing_spec(seq![self@[i as int]]) =~= Seq::<Seq<u8>>::empty());
                    assert(r@.map_values(|v: Vec<u8>| v@) =~= missing_spec(
                        self@.take(i + 1 as int),
                    ));
                }
            }
            i += 1;
        }
        proof {
            assert(self@.take(self@.len() as int) =~= self@);
        }
        r
    }
}

} // verus!
