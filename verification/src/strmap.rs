//! An insertion-ordered map from strings to strings.
//!
//! Environment variables, secrets, labels and similar string tables are kept
//! here. Keys are unique; `insert` replaces the value of an existing key in
//! place and appends a new key at the end.
use vstd::prelude::*;
use crate::text::{chars_of, eq_str};

verus! {

/// The map that a sequence of unique-key pairs denotes.
pub open spec fn map_of(ps: Seq<(Seq<char>, Seq<char>)>) -> Map<Seq<char>, Seq<char>>
    decreases ps.len(),
{
    if ps.len() == 0 {
        Map::empty()
    } else {
        map_of(ps.drop_last()).insert(ps.last().0, ps.last().1)
    }
}

pub open spec fn keys_unique(ps: Seq<(Seq<char>, Seq<char>)>) -> bool {
    forall|i: int, j: int| 0 <= i < j < ps.len() ==> ps[i].0 != ps[j].0
}

pub open spec fn key_index(ps: Seq<(Seq<char>, Seq<char>)>, k: Seq<char>) -> int {
    choose|i: int| 0 <= i < ps.len() && ps[i].0 == k
}

/// With unique keys, a key maps to the value paired with it.
pub proof fn lemma_map_of(ps: Seq<(Seq<char>, Seq<char>)>)
    requires
        keys_unique(ps),
    ensures
        forall|k: Seq<char>| #[trigger]
            map_of(ps).contains_key(k) <==> exists|i: int| 0 <= i < ps.len() && ps[i].0 == k,
        forall|i: int| 0 <= i < ps.len() ==> #[trigger] map_of(ps)[ps[i].0] == ps[i].1,
        map_of(ps).dom().finite(),
        map_of(ps).len() == ps.len(),
    decreases ps.len(),
{
    if ps.len() > 0 {
        let q = ps.drop_last();
        assert(keys_unique(q));
        lemma_map_of(q);
        assert(!map_of(q).contains_key(ps.last().0)) by {
            if map_of(q).contains_key(ps.last().0) {
                let i = choose|i: int| 0 <= i < q.len() && q[i].0 == ps.last().0;
                assert(ps[i].0 == ps[ps.len() - 1].0);
            }
        }
        assert forall|k: Seq<char>| #[trigger]
            map_of(ps).contains_key(k) <==> exists|i: int| 0 <= i < ps.len() && ps[i].0 == k by {
            if map_of(ps).contains_key(k) && k != ps.last().0 {
                let i = choose|i: int| 0 <= i < q.len() && q[i].0 == k;
                assert(ps[i].0 == k);
            }
            if exists|i: int| 0 <= i < ps.len() && ps[i].0 == k {
                let i = choose|i: int| 0 <= i < ps.len() && ps[i].0 == k;
                if i < ps.len() - 1 {
                    assert(q[i].0 == k);
                }
            }
        }
        assert forall|i: int| 0 <= i < ps.len() implies #[trigger] map_of(ps)[ps[i].0] == ps[i].1 by {
            if i < ps.len() - 1 {
                assert(q[i] == ps[i]);
            }
        }
    }
}

/// An insertion-ordered string map.
#[derive(Debug)]
pub struct StrMap {
    entries: Vec<(String, String)>,
}

impl View for StrMap {
    type V = Map<Seq<char>, Seq<char>>;

    open spec fn view(&self) -> Map<Seq<char>, Seq<char>> {
        map_of(self.pairs())
    }
}

impl StrMap {
    /// The entries in order, as pairs of character sequences.
    pub closed spec fn pairs(&self) -> Seq<(Seq<char>, Seq<char>)> {
        self.entries@.map_values(|e: (String, String)| (e.0@, e.1@))
    }

    /// No key occurs twice.
    #[verifier::type_invariant]
    spec fn keys_are_unique(&self) -> bool {
        keys_unique(self.pairs())
    }

    /// Brings the invariant, and what it implies of the map, into a proof.
    pub fn lemma_unique(&self)
        ensures
            keys_unique(self.pairs()),
            forall|k: Seq<char>| #[trigger]
                self@.contains_key(k) <==> exists|i: int| 0 <= i < self.pairs().len() && self.pairs()[i].0 == k,
            forall|i: int| 0 <= i < self.pairs().len() ==> #[trigger] self@[self.pairs()[i].0] == self.pairs()[i].1,
            self@.dom().finite(),
            self@.len() == self.pairs().len(),
    {
        proof {
            use_type_invariant(self);
            lemma_map_of(self.pairs());
        }
    }

    /// The keys in order.
    pub open spec fn key_seq(&self) -> Seq<Seq<char>> {
        self.pairs().map_values(|p: (Seq<char>, Seq<char>)| p.0)
    }

    /// The values in key order.
    pub open spec fn value_seq(&self) -> Seq<Seq<char>> {
        self.pairs().map_values(|p: (Seq<char>, Seq<char>)| p.1)
    }

    pub fn new() -> (m: Self)
        ensures
            m.pairs() == Seq::<(Seq<char>, Seq<char>)>::empty(),
            m@ == Map::<Seq<char>, Seq<char>>::empty(),
    {
        let m = StrMap { entries: Vec::new() };
        assert(m.pairs() =~= Seq::<(Seq<char>, Seq<char>)>::empty());
        m
    }

    pub fn len(&self) -> (n: usize)
        ensures
            n == self.pairs().len(),
    {
        self.entries.len()
    }

    pub fn is_empty(&self) -> (b: bool)
        ensures
            b == (self.pairs().len() == 0),
    {
        self.entries.len() == 0
    }

    /// The key and value at position `i`.
    pub fn entry_at(&self, i: usize) -> (r: (&String, &String))
        requires
            i < self.pairs().len(),
        ensures
            (r.0@, r.1@) == self.pairs()[i as int],
    {
        let e = &self.entries[i];
        (&e.0, &e.1)
    }

    /// Position of `key`, if present.
    pub fn index_of(&self, key: &str) -> (r: Option<usize>)
        ensures
            match r {
                Some(i) => i < self.pairs().len() && self.pairs()[i as int].0 == key@,
                None => forall|i: int| 0 <= i < self.pairs().len() ==> self.pairs()[i].0 != key@,
            },
    {
        let kc = chars_of(key);
        let mut i: usize = 0;
        while i < self.entries.len()
            invariant
                i <= self.entries.len(),
                kc@ == key@,
                forall|j: int| 0 <= j < i ==> self.pairs()[j].0 != key@,
            decreases self.entries.len() - i,
        {
            let e = &self.entries[i];
            let ec = chars_of(e.0.as_str());
            if eq_str(kc.as_slice(), e.0.as_str()) {
                assert(self.pairs()[i as int].0 == e.0@);
                return Some(i);
            }
            assert(self.pairs()[i as int].0 == e.0@);
            i = i + 1;
        }
        None
    }

    /// The value of `key`.
    pub fn get(&self, key: &str) -> (r: Option<&String>)
        ensures
            match r {
                Some(v) => self@.contains_key(key@) && self@[key@] == v@,
                None => !self@.contains_key(key@),
            },
    {
        self.lemma_unique();
        match self.index_of(key) {
            Some(i) => {
                let e = &self.entries[i];
                assert(self.pairs()[i as int] == (e.0@, e.1@));
                Some(&e.1)
            },
            None => None,
        }
    }

    pub fn contains_key(&self, key: &str) -> (b: bool)
        ensures
            b == self@.contains_key(key@),
    {
        self.get(key).is_some()
    }

    /// Sets `key` to `value`: an existing key keeps its position, a new key
    /// goes last.
    pub fn insert(&mut self, key: String, value: String)
        ensures
            final(self)@ == old(self)@.insert(key@, value@),
            old(self)@.contains_key(key@) ==> final(self).key_seq() == old(self).key_seq(),
            !old(self)@.contains_key(key@) ==> final(self).key_seq() == old(self).key_seq().push(
                key@,
            ),
            final(self).pairs() == (if old(self)@.contains_key(key@) {
                old(self).pairs().update(
                    key_index(old(self).pairs(), key@),
                    (key@, value@),
                )
            } else {
                old(self).pairs().push((key@, value@))
            }),
    {
        self.lemma_unique();
        let ghost op = old(self).pairs();
        let ghost old_keys = old(self).key_seq();
        let found = self.index_of(key.as_str());
        let mut entries: Vec<(String, String)> = Vec::new();
        std::mem::swap(&mut entries, &mut self.entries);
        assert(entries@.map_values(|e: (String, String)| (e.0@, e.1@)) == op);
        match found {
            Some(i) => {
                let ghost kv = key@;
                let ghost vv = value@;
                entries.set(i, (key, value));
                let ghost np = entries@.map_values(|e: (String, String)| (e.0@, e.1@));
                proof {
                    assert(np =~= op.update(i as int, (kv, vv)));
                    assert(keys_unique(np)) by {
                        assert forall|a: int, b: int| 0 <= a < b < np.len() implies np[a].0
                            != np[b].0 by {
                            if a != i && b != i {
                                assert(np[a] == op[a] && np[b] == op[b]);
                            } else if a == i {
                                assert(np[b] == op[b]);
                            } else {
                                assert(np[a] == op[a]);
                            }
                        }
                    }
                    lemma_map_of(np);
                    assert(key_index(op, kv) == i) by {
                        let c = key_index(op, kv);
                        assert(0 <= c < op.len() && op[c].0 == kv);
                    }
                    assert forall|k: Seq<char>| #[trigger] map_of(np).contains_key(k)
                        <==> map_of(op).insert(kv, vv).contains_key(k) by {
                        if exists|j: int| 0 <= j < np.len() && np[j].0 == k {
                            let j = choose|j: int| 0 <= j < np.len() && np[j].0 == k;
                            if j != i {
                                assert(op[j].0 == k);
                            }
                        }
                        if map_of(op).contains_key(k) {
                            let j = choose|j: int| 0 <= j < op.len() && op[j].0 == k;
                            if j != i {
                                assert(np[j].0 == k);
                            } else {
                                assert(np[i as int].0 == k);
                            }
                        }
                    }
                    assert forall|k: Seq<char>| #[trigger] map_of(np).contains_key(k) implies map_of(
                        np,
                    )[k] == map_of(op).insert(kv, vv)[k] by {
                        let j = choose|j: int| 0 <= j < np.len() && np[j].0 == k;
                        assert(map_of(np)[np[j].0] == np[j].1);
                        if j != i {
                            assert(op[j] == np[j]);
                        }
                    }
                    assert(map_of(np) =~= map_of(op).insert(kv, vv));
                }
                self.entries = entries;
                assert(self.key_seq() =~= old_keys);
            },
            None => {
                let ghost kv = key@;
                let ghost vv = value@;
                entries.push((key, value));
                let ghost np = entries@.map_values(|e: (String, String)| (e.0@, e.1@));
                proof {
                    assert(np =~= op.push((kv, vv)));
                    assert(np.drop_last() =~= op);
                    assert(!map_of(op).contains_key(kv));
                    assert(keys_unique(np)) by {
                        assert forall|a: int, b: int| 0 <= a < b < np.len() implies np[a].0
                            != np[b].0 by {
                            if b == np.len() - 1 {
                                assert(np[a] == op[a]);
                                assert(map_of(op).contains_key(op[a].0));
                            } else {
                                assert(np[a] == op[a] && np[b] == op[b]);
                            }
                        }
                    }
                }
                self.entries = entries;
                assert(self.key_seq() =~= old_keys.push(kv));
            },
        }
    }

    /// The values, in key order.
    pub fn values(&self) -> (r: Vec<&str>)
        ensures
            r@.map_values(|s: &str| s@) == self.value_seq(),
    {
        let mut out: Vec<&str> = Vec::new();
        let mut i: usize = 0;
        while i < self.entries.len()
            invariant
                i <= self.entries.len(),
                out@.map_values(|s: &str| s@) == self.value_seq().take(i as int),
            decreases self.entries.len() - i,
        {
            let ghost old_out = out@;
            out.push(self.entries[i].1.as_str());
            assert(out@.map_values(|s: &str| s@) =~= old_out.map_values(|s: &str| s@).push(self.entries@[i as int].1@));
            assert(self.value_seq().take(i + 1) =~= self.value_seq().take(i as int).push(self.value_seq()[i as int]));
            assert(self.pairs()[i as int] == (self.entries@[i as int].0@, self.entries@[i as int].1@));
            assert(out@.map_values(|s: &str| s@) =~= self.value_seq().take(i + 1));
            i = i + 1;
        }
        assert(self.value_seq().take(i as int) =~= self.value_seq());
        out
    }

    /// The keys, in order.
    pub fn keys(&self) -> (r: Vec<String>)
        ensures
            r@.map_values(|s: String| s@) == self.key_seq(),
    {
        let mut out: Vec<String> = Vec::new();
        let mut i: usize = 0;
        while i < self.entries.len()
            invariant
                i <= self.entries.len(),
                out@.map_values(|s: String| s@) == self.key_seq().take(i as int),
            decreases self.entries.len() - i,
        {
            let ghost old_out = out@;
            out.push(self.entries[i].0.clone());
            assert(out@.map_values(|s: String| s@) =~= old_out.map_values(|s: String| s@).push(self.entries@[i as int].0@));
            assert(self.key_seq().take(i + 1) =~= self.key_seq().take(i as int).push(self.key_seq()[i as int]));
            assert(self.pairs()[i as int] == (self.entries@[i as int].0@, self.entries@[i as int].1@));
            assert(out@.map_values(|s: String| s@) =~= self.key_seq().take(i + 1));
            i = i + 1;
        }
        assert(self.key_seq().take(i as int) =~= self.key_seq());
        out
    }

    /// A copy of the map.
    pub fn duplicate(&self) -> (r: Self)
        ensures
            r.pairs() == self.pairs(),
    {
        let mut out: Vec<(String, String)> = Vec::new();
        let mut i: usize = 0;
        while i < self.entries.len()
            invariant
                i <= self.entries.len(),
                out@.map_values(|e: (String, String)| (e.0@, e.1@)) == self.pairs().take(i as int),
            decreases self.entries.len() - i,
        {
            let e = &self.entries[i];
            let ghost old_out = out@;
            out.push((e.0.clone(), e.1.clone()));
            let ghost f = |e: (String, String)| (e.0@, e.1@);
            assert(out@.map_values(f) =~= old_out.map_values(f).push(
                (self.entries@[i as int].0@, self.entries@[i as int].1@),
            ));
            assert(self.pairs().take(i + 1) =~= self.pairs().take(i as int).push(self.pairs()[i as int]));
            assert(self.pairs()[i as int] == (self.entries@[i as int].0@, self.entries@[i as int].1@));
            assert(out@.map_values(|e: (String, String)| (e.0@, e.1@)) =~= self.pairs().take(i + 1));
            i = i + 1;
        }
        assert(self.pairs().take(i as int) =~= self.pairs());
        proof {
            use_type_invariant(self);
        }
        assert(out@.map_values(|e: (String, String)| (e.0@, e.1@)) == self.pairs());
        StrMap { entries: out }
    }
}

impl Clone for StrMap {
    fn clone(&self) -> (r: Self)
        ensures
            r.pairs() == self.pairs(),
    {
        self.duplicate()
    }
}

} // verus!
