use vstd::prelude::*;

verus! {

/// An entry of a participant map, as the specification sees it: a participant id and the
/// package stored for it.
pub type EntryView = (Seq<char>, Seq<char>);

/// True when some entry of `m` is keyed by `k`.
pub open spec fn has_key(m: Seq<EntryView>, k: Seq<char>) -> bool {
    exists|i: int| 0 <= i < m.len() && (#[trigger] m[i]).0 == k
}

/// No two entries share a participant id.
pub open spec fn unique_keys(m: Seq<EntryView>) -> bool {
    forall|i: int, j: int|
        0 <= i < m.len() && 0 <= j < m.len() && i != j ==> (#[trigger] m[i]).0 != (#[trigger] m[j]).0
}

/// The entry `e` with its package replaced by `v` when it is keyed by `k`.
pub open spec fn overwrite(e: EntryView, k: Seq<char>, v: Seq<char>) -> EntryView {
    if e.0 == k {
        (k, v)
    } else {
        e
    }
}

/// Storing `v` under `k`: an entry already keyed by `k` is overwritten where it stands,
/// otherwise a new entry is appended, so entries keep the order in which their ids first came.
pub open spec fn put(m: Seq<EntryView>, k: Seq<char>, v: Seq<char>) -> Seq<EntryView> {
    if has_key(m, k) {
        m.map_values(|e: EntryView| overwrite(e, k, v))
    } else {
        m.push((k, v))
    }
}

/// The package stored under `k`, if any.
pub open spec fn lookup(m: Seq<EntryView>, k: Seq<char>) -> Option<Seq<char>> {
    if has_key(m, k) {
        Some(m[choose|i: int| 0 <= i < m.len() && (#[trigger] m[i]).0 == k].1)
    } else {
        None
    }
}

/// With unique ids, the entry at index `i` is what `lookup` finds for its id.
pub proof fn lemma_lookup_at(m: Seq<EntryView>, i: int)
    requires
        unique_keys(m),
        0 <= i < m.len(),
    ensures
        has_key(m, m[i].0),
        lookup(m, m[i].0) == Some(m[i].1),
{
    let k = m[i].0;
    assert(m[i].0 == k);
    let j = choose|j: int| 0 <= j < m.len() && (#[trigger] m[j]).0 == k;
    assert(j == i);
}

/// `put` keeps ids unique and never shrinks the map; it grows by one exactly for a new id.
pub proof fn lemma_put(m: Seq<EntryView>, k: Seq<char>, v: Seq<char>)
    requires
        unique_keys(m),
    ensures
        unique_keys(put(m, k, v)),
        has_key(put(m, k, v), k),
        lookup(put(m, k, v), k) == Some(v),
        has_key(m, k) ==> put(m, k, v).len() == m.len(),
        !has_key(m, k) ==> put(m, k, v).len() == m.len() + 1,
        forall|i: int| 0 <= i < m.len() && m[i].0 != k ==> #[trigger] put(m, k, v)[i] == m[i],
        forall|j: Seq<char>| j != k ==> #[trigger] lookup(put(m, k, v), j) == lookup(m, j),
{
    let p = put(m, k, v);
    if has_key(m, k) {
        let i0 = choose|i: int| 0 <= i < m.len() && (#[trigger] m[i]).0 == k;
        assert(p[i0].0 == k);
        lemma_lookup_at(p, i0);
    } else {
        assert(p[m.len() as int].0 == k);
        lemma_lookup_at(p, m.len() as int);
    }
    assert forall|j: Seq<char>| j != k implies #[trigger] lookup(p, j) == lookup(m, j) by {
        if has_key(m, j) {
            let i = choose|i: int| 0 <= i < m.len() && (#[trigger] m[i]).0 == j;
            lemma_lookup_at(m, i);
            assert(p[i] == m[i]);
            lemma_lookup_at(p, i);
        } else {
            assert forall|i: int| 0 <= i < p.len() implies (#[trigger] p[i]).0 != j by {
                if i < m.len() {
                    assert(m[i].0 != j);
                }
            }
        }
    }
}

/// The participant ids of `m`, in order.
pub open spec fn ids(m: Seq<EntryView>) -> Seq<Seq<char>> {
    m.map_values(|e: EntryView| e.0)
}

/// Which ids a map holds, and in which order, depends on the ids stored into it and not on the
/// packages: storing the same id into two maps with the same ids gives two maps with the same
/// ids, and so the same size.
pub proof fn lemma_ids_ignore_packages(m1: Seq<EntryView>, m2: Seq<EntryView>, k: Seq<char>, v1: Seq<char>, v2: Seq<char>)
    requires
        ids(m1) == ids(m2),
    ensures
        ids(put(m1, k, v1)) == ids(put(m2, k, v2)),
        put(m1, k, v1).len() == put(m2, k, v2).len(),
{
    assert(m1.len() == ids(m1).len());
    assert(m2.len() == ids(m2).len());
    assert(has_key(m1, k) == has_key(m2, k)) by {
        if has_key(m1, k) {
            let i = choose|i: int| 0 <= i < m1.len() && (#[trigger] m1[i]).0 == k;
            assert(ids(m1)[i] == m2[i].0);
        }
        if has_key(m2, k) {
            let i = choose|i: int| 0 <= i < m2.len() && (#[trigger] m2[i]).0 == k;
            assert(ids(m2)[i] == m1[i].0);
        }
    }
    assert forall|i: int| 0 <= i < m1.len() implies m1[i].0 == m2[i].0 by {
        assert(ids(m1)[i] == ids(m2)[i]);
    }
    assert(ids(put(m1, k, v1)) =~= ids(put(m2, k, v2)));
}

/// A map whose ids all occur in another map holds at most as many entries.
pub proof fn lemma_len_of_subset(a: Seq<EntryView>, b: Seq<EntryView>)
    requires
        unique_keys(a),
        unique_keys(b),
        forall|k: Seq<char>| has_key(a, k) ==> has_key(b, k),
    ensures
        a.len() <= b.len(),
{
    let ia = ids(a);
    let ib = ids(b);
    assert(ia.no_duplicates()) by {
        assert forall|i: int, j: int| 0 <= i < ia.len() && 0 <= j < ia.len() && i != j implies ia[i] != ia[j] by {
            assert(a[i].0 != a[j].0);
        }
    }
    assert(ia.to_set().subset_of(ib.to_set())) by {
        assert forall|x: Seq<char>| ia.to_set().contains(x) implies ib.to_set().contains(x) by {
            let i = choose|i: int| 0 <= i < ia.len() && ia[i] == x;
            assert(a[i].0 == x);
            assert(has_key(a, x));
            let j = choose|j: int| 0 <= j < b.len() && (#[trigger] b[j]).0 == x;
            assert(ib[j] == x);
        }
    }
    ia.unique_seq_to_set();
    vstd::seq_lib::seq_to_set_is_finite(ib);
    vstd::set_lib::lemma_len_subset(ia.to_set(), ib.to_set());
    ib.lemma_cardinality_of_set();
    assert(ia.len() == a.len() && ib.len() == b.len());
}

/// Participant ids mapped to opaque packages, in the order in which each id was first stored.
pub struct ParticipantMap {
    entries: Vec<(String, String)>,
}

impl View for ParticipantMap {
    type V = Seq<EntryView>;

    closed spec fn view(&self) -> Seq<EntryView> {
        self.entries@.map_values(|e: (String, String)| (e.0@, e.1@))
    }
}

impl ParticipantMap {
    /// Each id occurs once.
    #[verifier::type_invariant]
    spec fn ids_unique(&self) -> bool {
        unique_keys(self@)
    }

    /// Each id occurs once.
    pub fn ids_are_unique(&self)
        ensures
            unique_keys(self@),
    {
        proof {
            use_type_invariant(self);
        }
    }

    pub fn new() -> (r: ParticipantMap)
        ensures
            r@ == Seq::<EntryView>::empty(),
    {
        ParticipantMap { entries: Vec::new() }
    }

    pub fn len(&self) -> (r: usize)
        ensures
            r == self@.len(),
    {
        self.entries.len()
    }

    /// The id and package of the entry at position `i`.
    pub fn entry(&self, i: usize) -> (r: (&String, &String))
        requires
            i < self@.len(),
        ensures
            r.0@ == self@[i as int].0,
            r.1@ == self@[i as int].1,
    {
        let e = &self.entries[i];
        (&e.0, &e.1)
    }

    /// Where the entry keyed by `k` stands, if there is one.
    pub fn position(&self, k: &String) -> (r: Option<usize>)
        ensures
            match r {
                Some(i) => i < self@.len() && self@[i as int].0 == k@ && has_key(self@, k@)
                    && lookup(self@, k@) == Some(self@[i as int].1),
                None => !has_key(self@, k@) && lookup(self@, k@) == None::<Seq<char>>,
            },
    {
        proof {
            use_type_invariant(self);
        }
        let mut i: usize = 0;
        while i < self.entries.len()
            invariant
                i <= self.entries@.len(),
                unique_keys(self@),
                forall|j: int| 0 <= j < i ==> (#[trigger] self@[j]).0 != k@,
            decreases self.entries@.len() - i,
        {
            if self.entries[i].0 == *k {
                proof {
                    lemma_lookup_at(self@, i as int);
                }
                return Some(i);
            }
            i = i + 1;
        }
        None
    }

    /// The package stored under `k`.
    pub fn get(&self, k: &String) -> (r: Option<&String>)
        ensures
            match r {
                Some(v) => lookup(self@, k@) == Some(v@),
                None => lookup(self@, k@) == None::<Seq<char>>,
            },
    {
        match self.position(k) {
            Some(i) => Some(&self.entries[i].1),
            None => None,
        }
    }

    /// Stores `v` under `k`, overwriting an earlier package of the same id in place.
    pub fn insert(&mut self, k: String, v: String)
        ensures
            unique_keys(final(self)@),
            final(self)@ == put(old(self)@, k@, v@),
    {
        proof {
            use_type_invariant(&*self);
            lemma_put(self@, k@, v@);
        }
        let found = self.position(&k);
        let ghost m = self@;
        let mut entries: Vec<(String, String)> = Vec::new();
        let mut i: usize = 0;
        while i < self.entries.len()
            invariant
                i <= self.entries@.len(),
                m == self@,
                entries@.len() == i,
                forall|j: int| 0 <= j < i ==> (entries@[j].0@, entries@[j].1@) == overwrite(m[j], k@, v@),
            decreases self.entries@.len() - i,
        {
            let e = &self.entries[i];
            assert(m[i as int] == (e.0@, e.1@));
            if e.0 == k {
                let pair = (k.clone(), v.clone());
                entries.push(pair);
            } else {
                let pair = (e.0.clone(), e.1.clone());
                entries.push(pair);
            }
            i = i + 1;
        }
        if found.is_none() {
            entries.push((k, v));
        }
        proof {
            if found.is_none() {
                assert(m.map_values(|e: EntryView| overwrite(e, k@, v@)) =~= m);
            }
            assert(entries@.map_values(|e: (String, String)| (e.0@, e.1@)) =~= put(m, k@, v@));
        }
        *self = ParticipantMap { entries };
    }
}

} // verus!
