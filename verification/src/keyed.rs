//! Lists of named entries read as maps: the first entry under a name is the
//! one a lookup finds.
use vstd::prelude::*;
use crate::text::same_text;

verus! {

/// The value of the first entry named `key`, if any.
pub open spec fn first_with_key<T>(v: Seq<(String, T)>, key: Seq<char>) -> Option<T>
    decreases v.len(),
{
    if v.len() == 0 {
        None
    } else if v[0].0@ == key {
        Some(v[0].1)
    } else {
        first_with_key(v.drop_first(), key)
    }
}

/// No two entries share a name.
pub open spec fn keys_distinct<T>(v: Seq<(String, T)>) -> bool {
    forall|i: int, j: int| 0 <= i < v.len() && 0 <= j < v.len() && i != j ==> v[i].0@ != v[j].0@
}

/// A list of named texts as the map a lookup sees.
pub open spec fn text_map(v: Seq<(String, String)>) -> Map<Seq<char>, Seq<char>> {
    Map::new(|k: Seq<char>| first_with_key(v, k) is Some, |k: Seq<char>| first_with_key(v, k)->Some_0@)
}

/// The entry at `i` is the first under its name.
pub proof fn lemma_first_at<T>(v: Seq<(String, T)>, key: Seq<char>, i: int)
    requires
        0 <= i < v.len(),
        v[i].0@ == key,
        forall|j: int| 0 <= j < i ==> v[j].0@ != key,
    ensures
        first_with_key(v, key) == Some(v[i].1),
    decreases i,
{
    if i > 0 {
        assert(v[0].0@ != key);
        lemma_first_at(v.drop_first(), key, i - 1);
    }
}

/// No entry carries the name.
pub proof fn lemma_first_absent<T>(v: Seq<(String, T)>, key: Seq<char>)
    requires
        forall|j: int| 0 <= j < v.len() ==> v[j].0@ != key,
    ensures
        first_with_key(v, key) is None,
    decreases v.len(),
{
    if v.len() > 0 {
        assert(v[0].0@ != key);
        lemma_first_absent(v.drop_first(), key);
    }
}

/// What a lookup finds names its key and comes from the list.
pub proof fn lemma_first_found<T>(v: Seq<(String, T)>, key: Seq<char>)
    requires
        first_with_key(v, key) is Some,
    ensures
        exists|i: int| 0 <= i < v.len() && v[i].0@ == key && v[i].1 == first_with_key(v, key)->Some_0,
    decreases v.len(),
{
    if v[0].0@ != key {
        lemma_first_found(v.drop_first(), key);
        let i = choose|i: int|
            0 <= i < v.drop_first().len() && v.drop_first()[i].0@ == key && v.drop_first()[i].1
                == first_with_key(v.drop_first(), key)->Some_0;
        assert(v[i + 1] == v.drop_first()[i]);
    }
}

/// Where the first entry named `key` stands, if any.
pub fn key_position<T>(v: &Vec<(String, T)>, key: &str) -> (r: Option<usize>)
    ensures
        match r {
            Some(i) => i < v@.len() && v@[i as int].0@ == key@ && (forall|j: int|
                0 <= j < i ==> v@[j].0@ != key@) && first_with_key(v@, key@) == Some(v@[i as int].1),
            None => (forall|j: int| 0 <= j < v@.len() ==> v@[j].0@ != key@) && first_with_key(v@, key@)
                is None,
        },
{
    let mut i: usize = 0;
    while i < v.len()
        invariant
            i <= v.len(),
            forall|j: int| 0 <= j < i ==> v@[j].0@ != key@,
        decreases v.len() - i,
    {
        if same_text(v[i].0.as_str(), key) {
            proof {
                lemma_first_at(v@, key@, i as int);
            }
            return Some(i);
        }
        i = i + 1;
    }
    proof {
        lemma_first_absent(v@, key@);
    }
    None
}

/// The value of the first entry named `key`, if any.
pub fn find_by_key<'a, T>(v: &'a Vec<(String, T)>, key: &str) -> (r: Option<&'a T>)
    ensures
        match first_with_key(v@, key@) {
            Some(t) => r is Some && *r->Some_0 == t,
            None => r is None,
        },
{
    match key_position(v, key) {
        Some(i) => Some(&v[i].1),
        None => None,
    }
}

/// Sets the text under `key`: the entry already named `key` gets `value`,
/// or a new entry is added at the end.
pub fn put_text(v: &mut Vec<(String, String)>, key: String, value: String)
    requires
        keys_distinct(old(v)@),
    ensures
        keys_distinct(final(v)@),
        text_map(final(v)@) == text_map(old(v)@).insert(key@, value@),
{
    let ghost before = v@;
    match key_position(v, key.as_str()) {
        Some(i) => {
            let ghost k = key@;
            v.set(i, (key, value));
            assert forall|x: Seq<char>| x != k implies #[trigger] first_with_key(v@, x) == first_with_key(
                before,
                x,
            ) by {
                match first_with_key(before, x) {
                    Some(t) => {
                        lemma_first_found(before, x);
                        let m = choose|m: int|
                            0 <= m < before.len() && before[m].0@ == x && before[m].1 == first_with_key(
                                before,
                                x,
                            )->Some_0;
                        assert(forall|j: int| 0 <= j < m ==> before[j].0@ != x) by {
                            assert forall|j: int| 0 <= j < m implies before[j].0@ != x by {
                                if before[j].0@ == x {
                                    assert(before[j].0@ == before[m].0@);
                                }
                            }
                        }
                        assert(v@[m] == before[m]);
                        lemma_first_at(v@, x, m);
                        lemma_first_at(before, x, m);
                    },
                    None => {
                        assert(forall|j: int| 0 <= j < before.len() ==> before[j].0@ != x) by {
                            assert forall|j: int| 0 <= j < before.len() implies before[j].0@ != x by {
                                if before[j].0@ == x {
                                    assert forall|l: int| 0 <= l < j implies before[l].0@ != x by {
                                        if before[l].0@ == x {
                                            assert(before[l].0@ == before[j].0@);
                                        }
                                    }
                                    lemma_first_at(before, x, j);
                                }
                            }
                        }
                        lemma_first_absent(v@, x);
                    },
                }
            }
            proof {
                lemma_first_at(v@, k, i as int);
            }
            assert(text_map(v@) =~= text_map(before).insert(k, value@));
        },
        None => {
            let ghost k = key@;
            v.push((key, value));
            assert forall|x: Seq<char>| x != k implies #[trigger] first_with_key(v@, x) == first_with_key(
                before,
                x,
            ) by {
                match first_with_key(before, x) {
                    Some(t) => {
                        lemma_first_found(before, x);
                        let m = choose|m: int|
                            0 <= m < before.len() && before[m].0@ == x && before[m].1 == first_with_key(
                                before,
                                x,
                            )->Some_0;
                        assert(forall|j: int| 0 <= j < m ==> before[j].0@ != x) by {
                            assert forall|j: int| 0 <= j < m implies before[j].0@ != x by {
                                if before[j].0@ == x {
                                    assert(before[j].0@ == before[m].0@);
                                }
                            }
                        }
                        assert(v@[m] == before[m]);
                        lemma_first_at(v@, x, m);
                        lemma_first_at(before, x, m);
                    },
                    None => {
                        assert(forall|j: int| 0 <= j < before.len() ==> before[j].0@ != x) by {
                            assert forall|j: int| 0 <= j < before.len() implies before[j].0@ != x by {
                                if before[j].0@ == x {
                                    assert forall|l: int| 0 <= l < j implies before[l].0@ != x by {
                                        if before[l].0@ == x {
                                            assert(before[l].0@ == before[j].0@);
                                        }
                                    }
                                    lemma_first_at(before, x, j);
                                }
                            }
                        }
                        lemma_first_absent(v@, x);
                    },
                }
            }
            proof {
                lemma_first_at(v@, k, before.len() as int);
            }
            assert(text_map(v@) =~= text_map(before).insert(k, value@));
        },
    }
}

} // verus!
