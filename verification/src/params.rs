//! String-to-string bindings with unique keys, used both for the values
//! captured from a path and for the parameters of a query string.

use vstd::prelude::*;
use crate::text::{pairs_view, str_eq};

verus! {

/// The value bound to `key`: that of the last entry carrying the key.
pub open spec fn lookup(e: Seq<(Seq<char>, Seq<char>)>, key: Seq<char>) -> Option<Seq<char>>
    decreases e.len(),
{
    if e.len() == 0 {
        None
    } else if e.last().0 == key {
        Some(e.last().1)
    } else {
        lookup(e.drop_last(), key)
    }
}

/// Binds `key` to `value`: the first entry carrying the key is rewritten in
/// place, and a key that is not there yet is appended.
pub open spec fn upsert(e: Seq<(Seq<char>, Seq<char>)>, key: Seq<char>, value: Seq<char>) -> Seq<
    (Seq<char>, Seq<char>),
>
    decreases e.len(),
{
    if e.len() == 0 {
        seq![(key, value)]
    } else if e[0].0 == key {
        seq![(key, value)] + e.drop_first()
    } else {
        seq![e[0]] + upsert(e.drop_first(), key, value)
    }
}

/// No key occurs twice.
pub open spec fn keys_unique(e: Seq<(Seq<char>, Seq<char>)>) -> bool {
    forall|i: int, j: int| 0 <= i < j < e.len() ==> e[i].0 != e[j].0
}

/// Pairs folded into bindings from left to right, so that a later pair
/// overrides an earlier one with the same key.
pub open spec fn collapse(pairs: Seq<(Seq<char>, Seq<char>)>) -> Seq<(Seq<char>, Seq<char>)>
    decreases pairs.len(),
{
    if pairs.len() == 0 {
        Seq::empty()
    } else {
        upsert(collapse(pairs.drop_last()), pairs.last().0, pairs.last().1)
    }
}

/// A key that no entry carries is appended by `upsert`.
pub proof fn lemma_upsert_absent(e: Seq<(Seq<char>, Seq<char>)>, key: Seq<char>, value: Seq<char>)
    requires
        forall|j: int| 0 <= j < e.len() ==> e[j].0 != key,
    ensures
        upsert(e, key, value) == e.push((key, value)),
    decreases e.len(),
{
    if e.len() == 0 {
        assert(upsert(e, key, value) =~= e.push((key, value)));
    } else {
        assert(e[0].0 != key);
        let t = e.drop_first();
        assert forall|j: int| 0 <= j < t.len() implies t[j].0 != key by {
            assert(t[j] == e[j + 1]);
        }
        lemma_upsert_absent(t, key, value);
        assert(upsert(e, key, value) =~= e.push((key, value)));
    }
}

/// A key first carried by entry `i` has that entry rewritten by `upsert`.
pub proof fn lemma_upsert_present(
    e: Seq<(Seq<char>, Seq<char>)>,
    key: Seq<char>,
    value: Seq<char>,
    i: int,
)
    requires
        0 <= i < e.len(),
        e[i].0 == key,
        forall|j: int| 0 <= j < i ==> e[j].0 != key,
    ensures
        upsert(e, key, value) == e.update(i, (key, value)),
    decreases e.len(),
{
    if i == 0 {
        assert(upsert(e, key, value) =~= e.update(i, (key, value)));
    } else {
        assert(e[0].0 != key);
        let t = e.drop_first();
        assert(t[i - 1] == e[i]);
        assert forall|j: int| 0 <= j < i - 1 implies t[j].0 != key by {
            assert(t[j] == e[j + 1]);
        }
        lemma_upsert_present(t, key, value, i - 1);
        assert(upsert(e, key, value) =~= e.update(i, (key, value)));
    }
}

/// Where keys are unique, the entry carrying a key gives its binding.
pub proof fn lemma_lookup_at(e: Seq<(Seq<char>, Seq<char>)>, key: Seq<char>, i: int)
    requires
        keys_unique(e),
        0 <= i < e.len(),
        e[i].0 == key,
    ensures
        lookup(e, key) == Some(e[i].1),
    decreases e.len(),
{
    if i == e.len() - 1 {
    } else {
        assert(e.last().0 != key);
        let t = e.drop_last();
        assert(t[i] == e[i]);
        assert(keys_unique(t)) by {
            assert forall|a: int, b: int| 0 <= a < b < t.len() implies t[a].0 != t[b].0 by {
                assert(t[a] == e[a] && t[b] == e[b]);
            }
        }
        lemma_lookup_at(t, key, i);
    }
}

/// A key that no entry carries is unbound, and a bound key is carried by
/// some entry together with its value.
pub proof fn lemma_lookup_entry(e: Seq<(Seq<char>, Seq<char>)>, key: Seq<char>)
    ensures
        (forall|j: int| 0 <= j < e.len() ==> e[j].0 != key) <==> lookup(e, key) is None,
        lookup(e, key) matches Some(v) ==> exists|j: int|
            0 <= j < e.len() && e[j].0 == key && e[j].1 == v,
    decreases e.len(),
{
    if e.len() == 0 {
    } else if e.last().0 == key {
        assert(e[e.len() - 1].0 == key && e[e.len() - 1].1 == e.last().1);
    } else {
        let t = e.drop_last();
        lemma_lookup_entry(t, key);
        if lookup(e, key) is None {
            assert forall|j: int| 0 <= j < e.len() implies e[j].0 != key by {
                if j < t.len() {
                    assert(t[j] == e[j]);
                }
            }
        } else {
            let j = choose|j: int| 0 <= j < t.len() && t[j].0 == key && t[j].1 == lookup(t, key)->0;
            assert(e[j] == t[j]);
        }
    }
}

/// After `upsert` the key is bound to the new value, every other key keeps
/// its binding, and keys stay unique.
pub proof fn lemma_upsert_lookup(
    e: Seq<(Seq<char>, Seq<char>)>,
    key: Seq<char>,
    value: Seq<char>,
    other: Seq<char>,
)
    requires
        keys_unique(e),
    ensures
        keys_unique(upsert(e, key, value)),
        lookup(upsert(e, key, value), key) == Some(value),
        other != key ==> lookup(upsert(e, key, value), other) == lookup(e, other),
{
    let u = upsert(e, key, value);
    lemma_lookup_entry(e, key);
    if lookup(e, key) is None {
        lemma_upsert_absent(e, key, value);
        assert(u.drop_last() =~= e);
    } else {
        let i = first_index(e, key);
        lemma_upsert_present(e, key, value, i);
        assert(keys_unique(u)) by {
            assert forall|a: int, b: int| 0 <= a < b < u.len() implies u[a].0 != u[b].0 by {
                assert(u[a].0 == e[a].0 && u[b].0 == e[b].0);
            }
        }
        lemma_lookup_at(u, key, i);
        if other != key {
            lemma_lookup_entry(e, other);
            lemma_lookup_entry(u, other);
            if lookup(e, other) is Some {
                let j = choose|j: int|
                    0 <= j < e.len() && e[j].0 == other && e[j].1 == lookup(e, other)->0;
                assert(u[j] == e[j]);
                lemma_lookup_at(u, other, j);
            } else {
                assert forall|j: int| 0 <= j < u.len() implies u[j].0 != other by {
                    assert(u[j].0 == e[j].0);
                }
            }
        }
    }
}

/// Folding pairs keeps keys unique and binds every key to the value of the
/// last pair that carries it.
pub proof fn lemma_collapse_last_wins(pairs: Seq<(Seq<char>, Seq<char>)>, key: Seq<char>)
    ensures
        keys_unique(collapse(pairs)),
        lookup(collapse(pairs), key) == lookup(pairs, key),
    decreases pairs.len(),
{
    if pairs.len() > 0 {
        lemma_collapse_last_wins(pairs.drop_last(), key);
        lemma_upsert_lookup(collapse(pairs.drop_last()), pairs.last().0, pairs.last().1, key);
    }
}

/// The least index whose entry carries `key`; meaningful where one exists.
pub open spec fn first_index(e: Seq<(Seq<char>, Seq<char>)>, key: Seq<char>) -> int {
    choose|i: int| 0 <= i < e.len() && e[i].0 == key && forall|j: int| 0 <= j < i ==> e[j].0 != key
}

/// Bindings from names to values in which every name occurs once. Entries
/// keep the order in which their names were first bound.
#[derive(Debug, PartialEq, Eq)]
pub struct ParamMap {
    entries: Vec<(String, String)>,
}

/// The values captured from a request path, by parameter name.
pub type PathParams = ParamMap;

/// The parameters of a query string, by key.
pub type QueryParams = ParamMap;

impl View for ParamMap {
    type V = Seq<(Seq<char>, Seq<char>)>;

    closed spec fn view(&self) -> Self::V {
        pairs_view(self.entries@)
    }
}

impl ParamMap {
    #[verifier::type_invariant]
    spec fn inv(self) -> bool {
        keys_unique(pairs_view(self.entries@))
    }

    /// No bindings.
    pub fn new() -> (out: ParamMap)
        ensures
            out@ == Seq::<(Seq<char>, Seq<char>)>::empty(),
    {
        let out = ParamMap { entries: Vec::new() };
        assert(out@ =~= Seq::<(Seq<char>, Seq<char>)>::empty());
        out
    }

    /// The number of bound names.
    pub fn len(&self) -> (n: usize)
        ensures
            n == self@.len(),
            keys_unique(self@),
    {
        proof {
            use_type_invariant(self);
        }
        self.entries.len()
    }

    /// The entries in the order in which their names were first bound.
    pub fn entries(&self) -> (out: &Vec<(String, String)>)
        ensures
            pairs_view(out@) == self@,
            keys_unique(self@),
    {
        proof {
            use_type_invariant(self);
        }
        &self.entries
    }

    fn position(&self, key: &str) -> (out: Option<usize>)
        ensures
            match out {
                Some(i) => i < self@.len() && self@[i as int].0 == key@ && forall|j: int|
                    0 <= j < i ==> self@[j].0 != key@,
                None => forall|j: int| 0 <= j < self@.len() ==> self@[j].0 != key@,
            },
    {
        let mut i: usize = 0;
        while i < self.entries.len()
            invariant
                i <= self.entries.len(),
                forall|j: int| 0 <= j < i ==> self@[j].0 != key@,
            decreases self.entries.len() - i,
        {
            if str_eq(self.entries[i].0.as_str(), key) {
                return Some(i);
            }
            i = i + 1;
        }
        None
    }

    /// The value bound to `key`, if any.
    pub fn get(&self, key: &str) -> (out: Option<&String>)
        ensures
            match out {
                Some(v) => lookup(self@, key@) == Some(v@),
                None => lookup(self@, key@) is None,
            },
    {
        proof {
            use_type_invariant(self);
        }
        match self.position(key) {
            Some(i) => {
                proof {
                    lemma_lookup_at(self@, key@, i as int);
                }
                Some(&self.entries[i].1)
            },
            None => {
                proof {
                    lemma_lookup_entry(self@, key@);
                }
                None
            },
        }
    }

    /// Binds `key` to `value`, replacing the value of a key that is bound
    /// already.
    pub fn insert(&mut self, key: String, value: String)
        ensures
            final(self)@ == upsert(old(self)@, key@, value@),
            keys_unique(final(self)@),
    {
        proof {
            use_type_invariant(&*self);
            lemma_upsert_lookup(self@, key@, value@, key@);
        }
        let ghost before = self@;
        let found = self.position(key.as_str());
        let mut entries: Vec<(String, String)> = Vec::new();
        std::mem::swap(&mut entries, &mut self.entries);
        match found {
            Some(i) => {
                proof {
                    lemma_upsert_present(before, key@, value@, i as int);
                    assert(pairs_view(entries@.update(i as int, (key, value))) =~= before.update(
                        i as int,
                        (key@, value@),
                    ));
                }
                entries.set(i, (key, value));
            },
            None => {
                proof {
                    lemma_upsert_absent(before, key@, value@);
                    assert(pairs_view(entries@.push((key, value))) =~= before.push(
                        (key@, value@),
                    ));
                }
                entries.push((key, value));
            },
        }
        self.entries = entries;
    }

    /// Bindings built from pairs in order: where a key repeats, the last
    /// value wins.
    pub fn from_pairs(pairs: &Vec<(String, String)>) -> (out: ParamMap)
        ensures
            out@ == collapse(pairs_view(pairs@)),
            keys_unique(out@),
    {
        let mut out = ParamMap::new();
        let mut i: usize = 0;
        let ghost all = pairs_view(pairs@);
        assert(all.take(0) =~= Seq::<(Seq<char>, Seq<char>)>::empty());
        while i < pairs.len()
            invariant
                i <= pairs.len(),
                all == pairs_view(pairs@),
                out@ == collapse(all.take(i as int)),
            decreases pairs.len() - i,
        {
            proof {
                assert(all.take(i + 1).drop_last() =~= all.take(i as int));
                assert(all.take(i + 1).last() == all[i as int]);
            }
            out.insert(pairs[i].0.clone(), pairs[i].1.clone());
            i = i + 1;
        }
        proof {
            assert(all.take(pairs.len() as int) =~= all);
            lemma_collapse_last_wins(all, Seq::empty());
        }
        out
    }
}

impl Clone for ParamMap {
    fn clone(&self) -> (out: ParamMap)
        ensures
            out@ == self@,
    {
        proof {
            use_type_invariant(self);
        }
        let mut entries: Vec<(String, String)> = Vec::new();
        let mut i: usize = 0;
        while i < self.entries.len()
            invariant
                i <= self.entries.len(),
                pairs_view(entries@) =~= self@.take(i as int),
            decreases self.entries.len() - i,
        {
            let key = self.entries[i].0.clone();
            let value = self.entries[i].1.clone();
            let ghost before = pairs_view(entries@);
            entries.push((key, value));
            proof {
                assert(self@[i as int] == (key@, value@));
                assert(pairs_view(entries@) =~= before.push((key@, value@)));
                assert(self@.take(i + 1) =~= self@.take(i as int).push(self@[i as int]));
            }
            i = i + 1;
        }
        assert(self@.take(self@.len() as int) =~= self@);
        ParamMap { entries }
    }
}

} // verus!
