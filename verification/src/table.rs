use vstd::prelude::*;

verus! {

/// No key occurs twice (what a `HashMap` guarantees of its keys).
pub open spec fn keys_unique<V>(s: Seq<(String, V)>) -> bool {
    forall|i: int, j: int| 0 <= i < s.len() && 0 <= j < s.len() && i != j ==> s[i].0@ != s[j].0@
}

pub open spec fn has_key<V>(s: Seq<(String, V)>, k: Seq<char>) -> bool {
    exists|i: int| 0 <= i < s.len() && (#[trigger] s[i]).0@ == k
}

/// The map that a table of unique keys stands for, values taken by their view.
pub open spec fn table_map<V: View>(s: Seq<(String, V)>) -> Map<Seq<char>, V::V> {
    Map::new(
        |k: Seq<char>| has_key(s, k),
        |k: Seq<char>| s[choose|i: int| 0 <= i < s.len() && (#[trigger] s[i]).0@ == k].1@,
    )
}

pub proof fn lemma_table_map_at<V: View>(s: Seq<(String, V)>, i: int)
    requires
        keys_unique(s),
        0 <= i < s.len(),
    ensures
        table_map(s).dom().contains(s[i].0@),
        table_map(s)[s[i].0@] == s[i].1@,
{
    let k = s[i].0@;
    assert(has_key(s, k));
    let c = choose|c: int| 0 <= c < s.len() && (#[trigger] s[c]).0@ == k;
    assert(0 <= c < s.len() && s[c].0@ == k);
    assert(c == i);
}

/// Finite, and as many entries as keys.
pub proof fn lemma_table_map_len<V: View>(s: Seq<(String, V)>)
    requires
        keys_unique(s),
    ensures
        table_map(s).dom().finite(),
        table_map(s).dom().len() == s.len(),
    decreases s.len(),
{
    if s.len() == 0 {
        assert(table_map(s).dom() =~= Set::<Seq<char>>::empty());
    } else {
        let t = s.drop_last();
        lemma_table_map_len(t);
        let k = s.last().0@;
        assert(!table_map(t).dom().contains(k)) by {
            if has_key(t, k) {
                let c = choose|c: int| 0 <= c < t.len() && (#[trigger] t[c]).0@ == k;
                assert(s[c].0@ == s[s.len() - 1].0@);
            }
        }
        assert(table_map(s).dom() =~= table_map(t).dom().insert(k)) by {
            assert forall|x: Seq<char>| table_map(s).dom().contains(x) implies table_map(t).dom().insert(k).contains(x) by {
                let c = choose|c: int| 0 <= c < s.len() && (#[trigger] s[c]).0@ == x;
                if c < s.len() - 1 {
                    assert(t[c].0@ == x);
                }
            }
            assert forall|x: Seq<char>| table_map(t).dom().insert(k).contains(x) implies table_map(s).dom().contains(x) by {
                if x != k {
                    let c = choose|c: int| 0 <= c < t.len() && (#[trigger] t[c]).0@ == x;
                    assert(s[c].0@ == x);
                } else {
                    assert(s[s.len() - 1].0@ == x);
                }
            }
        }
    }
}

/// Index of the entry with key `k`.
pub fn table_find<V>(t: &Vec<(String, V)>, k: &str) -> (r: Option<usize>)
    ensures
        match r {
            Some(i) => i < t@.len() && t@[i as int].0@ == k@,
            None => !has_key(t@, k@),
        },
{
    let key = k.to_owned();
    let mut i: usize = 0;
    while i < t.len()
        invariant
            i <= t@.len(),
            key@ == k@,
            forall|j: int| 0 <= j < i ==> t@[j].0@ != k@,
        decreases t@.len() - i,
    {
        if t[i].0 == key {
            return Some(i);
        }
        i = i + 1;
    }
    None
}

/// `HashMap::get(k).is_some()`, as a map lookup.
pub fn table_get<'a, V: View>(t: &'a Vec<(String, V)>, k: &str) -> (r: Option<&'a V>)
    requires
        keys_unique(t@),
    ensures
        match r {
            Some(v) => table_map(t@).dom().contains(k@) && table_map(t@)[k@] == v@ && exists|i: int| 0 <= i < t@.len() && t@[i].0@ == k@ && t@[i].1 == *v,
            None => !table_map(t@).dom().contains(k@),
        },
{
    match table_find(t, k) {
        Some(i) => {
            proof {
                lemma_table_map_at(t@, i as int);
            }
            Some(&t[i].1)
        },
        None => None,
    }
}

/// `HashMap::insert(k, v)`: replaces the value of an existing key, adds a new one otherwise.
pub fn table_insert<V: View>(t: &mut Vec<(String, V)>, k: String, v: V)
    requires
        keys_unique(old(t)@),
    ensures
        keys_unique(final(t)@),
        table_map(final(t)@) == table_map(old(t)@).insert(k@, v@),
{
    let ghost key = k@;
    let ghost val = v@;
    match table_find(t, k.as_str()) {
        Some(i) => {
            let ghost before = t@;
            t.set(i, (k, v));
            proof {
                assert(keys_unique(t@));
                assert forall|x: Seq<char>| #![auto] table_map(t@).dom().contains(x) == table_map(before).insert(key, val).dom().contains(x) by {
                    if has_key(t@, x) {
                        let c = choose|c: int| 0 <= c < t@.len() && (#[trigger] t@[c]).0@ == x;
                        if c != i {
                            assert(before[c].0@ == x);
                        }
                    }
                    if has_key(before, x) {
                        let c = choose|c: int| 0 <= c < before.len() && (#[trigger] before[c]).0@ == x;
                        assert(t@[c].0@ == x);
                    }
                }
                assert forall|x: Seq<char>| table_map(t@).dom().contains(x) implies #[trigger] table_map(t@)[x] == table_map(before).insert(key, val)[x] by {
                    let c = choose|c: int| 0 <= c < t@.len() && (#[trigger] t@[c]).0@ == x;
                    lemma_table_map_at(t@, c);
                    if c != i {
                        lemma_table_map_at(before, c);
                    }
                }
                assert(table_map(t@) =~= table_map(before).insert(key, val));
            }
        },
        None => {
            let ghost before = t@;
            t.push((k, v));
            proof {
                assert(keys_unique(t@));
                let n = before.len() as int;
                assert forall|x: Seq<char>| #![auto] table_map(t@).dom().contains(x) == table_map(before).insert(key, val).dom().contains(x) by {
                    if has_key(t@, x) {
                        let c = choose|c: int| 0 <= c < t@.len() && (#[trigger] t@[c]).0@ == x;
                        if c != n {
                            assert(before[c].0@ == x);
                        }
                    }
                    if has_key(before, x) {
                        let c = choose|c: int| 0 <= c < before.len() && (#[trigger] before[c]).0@ == x;
                        assert(t@[c].0@ == x);
                    }
                    if x == key {
                        assert(t@[n].0@ == x);
                    }
                }
                assert forall|x: Seq<char>| table_map(t@).dom().contains(x) implies #[trigger] table_map(t@)[x] == table_map(before).insert(key, val)[x] by {
                    let c = choose|c: int| 0 <= c < t@.len() && (#[trigger] t@[c]).0@ == x;
                    lemma_table_map_at(t@, c);
                    if c != n {
                        lemma_table_map_at(before, c);
                    }
                }
                assert(table_map(t@) =~= table_map(before).insert(key, val));
            }
        },
    }
}

/// `HashMap::remove(k)`.
pub fn table_remove<V: View>(t: &mut Vec<(String, V)>, k: &str) -> (r: Option<V>)
    requires
        keys_unique(old(t)@),
    ensures
        keys_unique(final(t)@),
        table_map(final(t)@) == table_map(old(t)@).remove(k@),
        match r {
            Some(v) => table_map(old(t)@).dom().contains(k@) && table_map(old(t)@)[k@] == v@,
            None => !table_map(old(t)@).dom().contains(k@),
        },
{
    match table_find(t, k) {
        Some(i) => {
            let ghost before = t@;
            proof {
                lemma_table_map_at(before, i as int);
            }
            let (_, v) = t.remove(i);
            proof {
                assert(t@ =~= before.remove(i as int));
                assert(keys_unique(t@));
                assert forall|x: Seq<char>| #![auto] table_map(t@).dom().contains(x) == table_map(before).remove(k@).dom().contains(x) by {
                    if has_key(t@, x) {
                        let c = choose|c: int| 0 <= c < t@.len() && (#[trigger] t@[c]).0@ == x;
                        if c < i {
                            assert(before[c].0@ == x);
                        } else {
                            assert(before[c + 1].0@ == x);
                        }
                    }
                    if has_key(before, x) && x != k@ {
                        let c = choose|c: int| 0 <= c < before.len() && (#[trigger] before[c]).0@ == x;
                        if c < i {
                            assert(t@[c].0@ == x);
                        } else {
                            assert(c != i);
                            assert(t@[c - 1].0@ == x);
                        }
                    }
                }
                assert forall|x: Seq<char>| table_map(t@).dom().contains(x) implies #[trigger] table_map(t@)[x] == table_map(before).remove(k@)[x] by {
                    let c = choose|c: int| 0 <= c < t@.len() && (#[trigger] t@[c]).0@ == x;
                    lemma_table_map_at(t@, c);
                    if c < i {
                        lemma_table_map_at(before, c);
                    } else {
                        lemma_table_map_at(before, c + 1);
                    }
                }
                assert(table_map(t@) =~= table_map(before).remove(k@));
            }
            Some(v)
        },
        None => {
            proof {
                assert(table_map(t@) =~= table_map(t@).remove(k@));
            }
            None
        },
    }
}

/// Removes every entry.
pub fn table_clear<V: View>(t: &mut Vec<(String, V)>)
    ensures
        keys_unique(final(t)@),
        table_map(final(t)@) == Map::<Seq<char>, V::V>::empty(),
{
    t.clear();
    assert(table_map(t@) =~= Map::<Seq<char>, V::V>::empty());
}

} // verus!
