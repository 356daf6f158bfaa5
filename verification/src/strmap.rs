//! A map keyed by strings, kept as a list of entries with distinct keys.

use vstd::prelude::*;
use crate::search::{first_where, is_first_where, lemma_first_where_is, lemma_first_where_none};
use crate::text::str_eq;

verus! {

/// Entries keyed by strings; no key occurs twice.
pub struct StringMap<V> {
    pub entries: Vec<(String, V)>,
}

/// Keys and values of a list of entries.
pub open spec fn entry_views<V>(e: Seq<(String, V)>) -> Seq<(Seq<char>, V)> {
    e.map_values(|p: (String, V)| (p.0@, p.1))
}

/// No key occurs twice.
pub open spec fn keys_distinct<V>(e: Seq<(Seq<char>, V)>) -> bool {
    forall|i: int, j: int| 0 <= i < j < e.len() ==> #[trigger] e[i].0 != #[trigger] e[j].0
}

/// The entry test "has key `k`".
pub open spec fn key_is<V>(k: Seq<char>) -> spec_fn((Seq<char>, V)) -> bool {
    |p: (Seq<char>, V)| p.0 == k
}

/// The value stored under key `k`, if any.
pub open spec fn lookup<V>(e: Seq<(Seq<char>, V)>, k: Seq<char>) -> Option<V> {
    match first_where(e, key_is(k)) {
        Some(i) => Some(e[i].1),
        None => None,
    }
}

/// Whether some entry has key `k`.
pub open spec fn has_key<V>(e: Seq<(Seq<char>, V)>, k: Seq<char>) -> bool {
    exists|i: int| 0 <= i < e.len() && #[trigger] e[i].0 == k
}

/// A key occurs exactly when a value is stored under it.
pub proof fn lemma_lookup_has_key<V>(e: Seq<(Seq<char>, V)>, k: Seq<char>)
    ensures
        lookup(e, k) is Some <==> has_key(e, k),
        keys_distinct(e) ==> forall|i: int|
            0 <= i < e.len() && #[trigger] e[i].0 == k ==> lookup(e, k) == Some(e[i].1),
{
    let p = key_is::<V>(k);
    crate::search::lemma_first_where_some(e, p);
    if has_key(e, k) {
        let i = choose|i: int| 0 <= i < e.len() && #[trigger] e[i].0 == k;
        assert(p(e[i]));
    }
    if first_where(e, p) is Some {
        let j = choose|j: int| 0 <= j < e.len() && #[trigger] p(e[j]);
        assert(e[j].0 == k);
    }
    if keys_distinct(e) {
        assert forall|i: int| 0 <= i < e.len() && #[trigger] e[i].0 == k implies lookup(e, k) == Some(
            e[i].1,
        ) by {
            assert(p(e[i]));
            let j = first_where(e, p)->0;
            assert(is_first_where(e, p, j));
            if j != i {
                if j < i {
                    assert(e[j].0 != e[i].0);
                } else {
                    assert(e[i].0 != e[j].0);
                }
            }
        }
    }
}

/// With distinct keys, an entry is the first one with its key.
pub proof fn lemma_key_position<V>(e: Seq<(Seq<char>, V)>, j: int)
    requires
        keys_distinct(e),
        0 <= j < e.len(),
    ensures
        first_where(e, key_is::<V>(e[j].0)) == Some(j),
        lookup(e, e[j].0) == Some(e[j].1),
{
    let p = key_is::<V>(e[j].0);
    assert forall|m: int| 0 <= m < j implies !p(#[trigger] e[m]) by {
        assert(e[m].0 != e[j].0);
    }
    assert(is_first_where(e, p, j));
    lemma_first_where_is(e, p, j);
}

impl<V> StringMap<V> {
    /// Keys and values of the map's entries.
    pub open spec fn view_entries(&self) -> Seq<(Seq<char>, V)> {
        entry_views(self.entries@)
    }

    /// The map has no repeated key.
    pub open spec fn well_formed(&self) -> bool {
        keys_distinct(self.view_entries())
    }

    /// An empty map.
    pub fn new() -> (m: StringMap<V>)
        ensures
            m.view_entries().len() == 0,
            m.well_formed(),
    {
        StringMap { entries: Vec::new() }
    }

    /// Number of entries.
    pub fn len(&self) -> (n: usize)
        ensures
            n == self.view_entries().len(),
    {
        self.entries.len()
    }

    /// Position of the entry with key `key`.
    pub fn position(&self, key: &str) -> (r: Option<usize>)
        ensures
            match r {
                Some(i) => first_where(self.view_entries(), key_is::<V>(key@))
                    == Some(i as int),
                None => first_where(self.view_entries(), key_is::<V>(key@)) is None,
            },
    {
        let ghost views = self.view_entries();
        let ghost p = key_is::<V>(key@);
        let mut i: usize = 0;
        while i < self.entries.len()
            invariant
                i <= self.entries.len(),
                views == self.view_entries(),
                p == key_is::<V>(key@),
                forall|j: int| 0 <= j < i ==> !p(#[trigger] views[j]),
            decreases self.entries.len() - i,
        {
            if str_eq(self.entries[i].0.as_str(), key) {
                proof {
                    assert(is_first_where(views, p, i as int));
                    lemma_first_where_is(views, p, i as int);
                }
                return Some(i);
            }
            i = i + 1;
        }
        proof {
            lemma_first_where_none(views, p);
        }
        None
    }

    /// The value stored under `key`.
    pub fn get(&self, key: &str) -> (r: Option<&V>)
        ensures
            match r {
                Some(v) => lookup(self.view_entries(), key@) == Some(*v),
                None => lookup(self.view_entries(), key@) is None,
            },
    {
        match self.position(key) {
            Some(i) => Some(&self.entries[i].1),
            None => None,
        }
    }

    /// Whether a value is stored under `key`.
    pub fn contains_key(&self, key: &str) -> (b: bool)
        ensures
            b == has_key(self.view_entries(), key@),
    {
        proof {
            lemma_lookup_has_key(self.view_entries(), key@);
        }
        self.position(key).is_some()
    }

    /// Stores `value` under `key`, replacing any value stored there.
    pub fn insert(&mut self, key: String, value: V)
        requires
            old(self).well_formed(),
        ensures
            final(self).well_formed(),
            lookup(final(self).view_entries(), key@) == Some(value),
            forall|k: Seq<char>|
                k != key@ ==> #[trigger] lookup(final(self).view_entries(), k) == lookup(
                    old(self).view_entries(),
                    k,
                ),
            forall|k: Seq<char>|
                #[trigger] has_key(final(self).view_entries(), k) == (k == key@ || has_key(
                    old(self).view_entries(),
                    k,
                )),
            final(self).view_entries().len() == old(self).view_entries().len() + if has_key(
                old(self).view_entries(),
                key@,
            ) {
                0int
            } else {
                1int
            },
    {
        let ghost old_e = self.view_entries();
        let ghost k0 = key@;
        proof {
            lemma_lookup_has_key(old_e, k0);
        }
        match self.position(key.as_str()) {
            Some(i) => {
                self.entries.set(i, (key, value));
                proof {
                    let new_e = self.view_entries();
                    assert(new_e =~= old_e.update(i as int, (k0, value)));
                    assert(keys_distinct(new_e));
                    crate::search::lemma_first_where_some(old_e, key_is::<V>(k0));
                    lemma_lookup_has_key(new_e, k0);
                    assert(new_e[i as int].0 == k0);
                    assert forall|k: Seq<char>| k != k0 implies #[trigger] lookup(new_e, k) == lookup(
                        old_e,
                        k,
                    ) by {
                        lemma_lookup_has_key(new_e, k);
                        lemma_lookup_has_key(old_e, k);
                        if has_key(old_e, k) {
                            let j = choose|j: int| 0 <= j < old_e.len() && #[trigger] old_e[j].0 == k;
                            assert(new_e[j] == old_e[j]);
                        }
                        if has_key(new_e, k) {
                            let j = choose|j: int| 0 <= j < new_e.len() && #[trigger] new_e[j].0 == k;
                            assert(new_e[j] == old_e[j]);
                        }
                    }
                    assert forall|k: Seq<char>| #[trigger] has_key(new_e, k) == (k == k0 || has_key(
                        old_e,
                        k,
                    )) by {
                        if has_key(old_e, k) {
                            let j = choose|j: int| 0 <= j < old_e.len() && #[trigger] old_e[j].0 == k;
                            if j != i {
                                assert(new_e[j] == old_e[j]);
                            }
                        }
                        if has_key(new_e, k) {
                            let j = choose|j: int| 0 <= j < new_e.len() && #[trigger] new_e[j].0 == k;
                            if j != i {
                                assert(new_e[j] == old_e[j]);
                            }
                        }
                    }
                    assert(has_key(old_e, k0));
                }
            },
            None => {
                self.entries.push((key, value));
                proof {
                    let new_e = self.view_entries();
                    assert(new_e =~= old_e.push((k0, value)));
                    assert(!has_key(old_e, k0));
                    assert(keys_distinct(new_e)) by {
                        assert forall|a: int, b: int| 0 <= a < b < new_e.len() implies #[trigger] new_e[a].0
                            != #[trigger] new_e[b].0 by {
                            if b == old_e.len() {
                                assert(new_e[a] == old_e[a]);
                            } else {
                                assert(new_e[a] == old_e[a] && new_e[b] == old_e[b]);
                            }
                        }
                    }
                    lemma_lookup_has_key(new_e, k0);
                    assert(new_e[old_e.len() as int].0 == k0);
                    assert forall|k: Seq<char>| k != k0 implies #[trigger] lookup(new_e, k) == lookup(
                        old_e,
                        k,
                    ) by {
                        lemma_lookup_has_key(new_e, k);
                        lemma_lookup_has_key(old_e, k);
                        if has_key(old_e, k) {
                            let j = choose|j: int| 0 <= j < old_e.len() && #[trigger] old_e[j].0 == k;
                            assert(new_e[j] == old_e[j]);
                        }
                        if has_key(new_e, k) {
                            let j = choose|j: int| 0 <= j < new_e.len() && #[trigger] new_e[j].0 == k;
                            assert(new_e[j] == old_e[j]);
                        }
                    }
                    assert forall|k: Seq<char>| #[trigger] has_key(new_e, k) == (k == k0 || has_key(
                        old_e,
                        k,
                    )) by {
                        if has_key(old_e, k) {
                            let j = choose|j: int| 0 <= j < old_e.len() && #[trigger] old_e[j].0 == k;
                            assert(new_e[j] == old_e[j]);
                        }
                        if has_key(new_e, k) {
                            let j = choose|j: int| 0 <= j < new_e.len() && #[trigger] new_e[j].0 == k;
                            if j < old_e.len() {
                                assert(new_e[j] == old_e[j]);
                            }
                        }
                    }
                }
            },
        }
    }

    /// Removes the entry with key `key`, returning its value.
    pub fn remove(&mut self, key: &str) -> (r: Option<V>)
        requires
            old(self).well_formed(),
        ensures
            final(self).well_formed(),
            r == lookup(old(self).view_entries(), key@),
            lookup(final(self).view_entries(), key@) is None,
            forall|k: Seq<char>|
                k != key@ ==> #[trigger] lookup(final(self).view_entries(), k) == lookup(
                    old(self).view_entries(),
                    k,
                ),
    {
        let ghost old_e = self.view_entries();
        let ghost k0 = key@;
        proof {
            lemma_lookup_has_key(old_e, k0);
        }
        match self.position(key) {
            Some(i) => {
                let (_, v) = self.entries.remove(i);
                proof {
                    let new_e = self.view_entries();
                    assert(new_e =~= old_e.remove(i as int));
                    crate::search::lemma_first_where_some(old_e, key_is::<V>(k0));
                    assert(keys_distinct(new_e)) by {
                        assert forall|a: int, b: int| 0 <= a < b < new_e.len() implies #[trigger] new_e[a].0
                            != #[trigger] new_e[b].0 by {
                            let oa = if a < i { a } else { a + 1 };
                            let ob = if b < i { b } else { b + 1 };
                            assert(new_e[a] == old_e[oa] && new_e[b] == old_e[ob]);
                        }
                    }
                    assert(!has_key(new_e, k0)) by {
                        if has_key(new_e, k0) {
                            let j = choose|j: int| 0 <= j < new_e.len() && #[trigger] new_e[j].0 == k0;
                            let oj = if j < i { j } else { j + 1 };
                            assert(new_e[j] == old_e[oj]);
                            assert(old_e[i as int].0 == k0);
                            if oj < i {
                                assert(old_e[oj].0 != old_e[i as int].0);
                            } else {
                                assert(old_e[i as int].0 != old_e[oj].0);
                            }
                        }
                    }
                    lemma_lookup_has_key(new_e, k0);
                    assert forall|k: Seq<char>| k != k0 implies #[trigger] lookup(new_e, k) == lookup(
                        old_e,
                        k,
                    ) by {
                        lemma_lookup_has_key(new_e, k);
                        lemma_lookup_has_key(old_e, k);
                        if has_key(old_e, k) {
                            let j = choose|j: int| 0 <= j < old_e.len() && #[trigger] old_e[j].0 == k;
                            assert(j != i);
                            let nj = if j < i { j } else { j - 1 };
                            assert(new_e[nj] == old_e[j]);
                        }
                        if has_key(new_e, k) {
                            let j = choose|j: int| 0 <= j < new_e.len() && #[trigger] new_e[j].0 == k;
                            let oj = if j < i { j } else { j + 1 };
                            assert(new_e[j] == old_e[oj]);
                        }
                    }
                    assert(old_e[i as int].1 == v);
                }
                Some(v)
            },
            None => {
                proof {
                    assert(self.view_entries() == old_e);
                }
                None
            },
        }
    }
}

} // verus!
