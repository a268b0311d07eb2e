//! A self-contained model of JSON documents.
//!
//! The store's wire format is JSON; this module gives the library its own
//! value type so that the envelope logic can be specified and verified.
//! Objects are ordered association lists; lookup, insertion and removal
//! go by the first entry whose key matches, so the semantics is fully
//! defined even on objects with repeated keys.

use vstd::prelude::*;

verus! {

/// A JSON document. Numbers are carried as 64-bit signed integers, the
/// only numeric shape the store operations of this library exchange.
#[derive(Debug, PartialEq, Eq)]
pub enum JsonValue {
    Null,
    Bool(bool),
    Int(i64),
    Str(String),
    Arr(Vec<JsonValue>),
    Obj(Vec<(String, JsonValue)>),
}

/// The specification view of an object's entry list: keys become
/// character sequences, values stay as they are.
pub open spec fn entry_views<V>(es: Seq<(String, V)>) -> Seq<(Seq<char>, V)> {
    es.map(|i: int, e: (String, V)| (e.0@, e.1))
}

/// Whether some entry of `s` bears the key `k`.
pub open spec fn has_entry<V>(s: Seq<(Seq<char>, V)>, k: Seq<char>) -> bool {
    exists|i: int| 0 <= i < s.len() && s[i].0 == k
}

/// The index of the first entry of `s` whose key is `k` (the length of
/// `s` if there is none).
pub open spec fn entry_index<V>(s: Seq<(Seq<char>, V)>, k: Seq<char>) -> int
    decreases s.len(),
{
    if s.len() == 0 {
        0
    } else if s[0].0 == k {
        0
    } else {
        1 + entry_index(s.subrange(1, s.len() as int), k)
    }
}

/// The value of the first entry of `s` whose key is `k`.
pub open spec fn entry_value<V>(s: Seq<(Seq<char>, V)>, k: Seq<char>) -> V
    recommends
        has_entry(s, k),
{
    s[entry_index(s, k)].1
}

/// `s` with the first `k`-keyed entry replaced by `(k, v)`, or with
/// `(k, v)` appended if no entry bears `k`.
pub open spec fn with_entry<V>(s: Seq<(Seq<char>, V)>, k: Seq<char>, v: V) -> Seq<
    (Seq<char>, V),
> {
    if has_entry(s, k) {
        s.update(entry_index(s, k), (k, v))
    } else {
        s.push((k, v))
    }
}

/// `s` without its first `k`-keyed entry (unchanged if no entry bears `k`).
pub open spec fn without_entry<V>(s: Seq<(Seq<char>, V)>, k: Seq<char>) -> Seq<(Seq<char>, V)> {
    if has_entry(s, k) {
        s.remove(entry_index(s, k))
    } else {
        s
    }
}

/// `entry_index` points at the first entry bearing the key.
pub proof fn lemma_entry_index<V>(s: Seq<(Seq<char>, V)>, k: Seq<char>)
    requires
        has_entry(s, k),
    ensures
        0 <= entry_index(s, k) < s.len(),
        s[entry_index(s, k)].0 == k,
        forall|j: int| 0 <= j < entry_index(s, k) ==> s[j].0 != k,
    decreases s.len(),
{
    if s.len() == 0 {
    } else if s[0].0 == k {
    } else {
        let t = s.subrange(1, s.len() as int);
        let w = choose|i: int| 0 <= i < s.len() && s[i].0 == k;
        assert(t[w - 1] == s[w]);
        lemma_entry_index(t, k);
        assert forall|j: int| 0 <= j < entry_index(s, k) implies s[j].0 != k by {
            if j > 0 {
                assert(t[j - 1] == s[j]);
            }
        }
    }
}

/// Conversely, a first match pins `entry_index` down.
pub proof fn lemma_entry_index_of_first<V>(s: Seq<(Seq<char>, V)>, k: Seq<char>, i: int)
    requires
        0 <= i < s.len(),
        s[i].0 == k,
        forall|j: int| 0 <= j < i ==> s[j].0 != k,
    ensures
        has_entry(s, k),
        entry_index(s, k) == i,
    decreases s.len(),
{
    if i == 0 {
    } else {
        let t = s.subrange(1, s.len() as int);
        assert(t[i - 1] == s[i]);
        assert forall|j: int| 0 <= j < i - 1 implies t[j].0 != k by {
            assert(t[j] == s[j + 1]);
        }
        lemma_entry_index_of_first(t, k, i - 1);
    }
}

impl JsonValue {
    /// The entry list of an object, viewed; the empty sequence on the
    /// other variants.
    pub open spec fn fields(self) -> Seq<(Seq<char>, JsonValue)> {
        match self {
            JsonValue::Obj(es) => entry_views(es@),
            _ => Seq::empty(),
        }
    }

    /// The element list of an array; the empty sequence on the other
    /// variants.
    pub open spec fn elems(self) -> Seq<JsonValue> {
        match self {
            JsonValue::Arr(a) => a@,
            _ => Seq::empty(),
        }
    }
}

/// The index of the first entry of `es` whose key is `k`, if any.
pub fn find_entry(es: &Vec<(String, JsonValue)>, k: &String) -> (r: Option<usize>)
    ensures
        match r {
            Some(i) => {
                &&& i < es@.len()
                &&& es@[i as int].0@ == k@
                &&& forall|j: int| 0 <= j < i ==> es@[j].0@ != k@
            },
            None => forall|j: int| 0 <= j < es@.len() ==> es@[j].0@ != k@,
        },
{
    let mut i: usize = 0;
    while i < es.len()
        invariant
            i <= es@.len(),
            forall|j: int| 0 <= j < i ==> es@[j].0@ != k@,
        decreases es@.len() - i,
    {
        if es[i].0 == *k {
            return Some(i);
        }
        i = i + 1;
    }
    None
}

/// Replaces the first `k`-keyed entry of `es` by `(k, v)`, or appends
/// `(k, v)` if no entry bears `k`.
pub fn set_entry(es: &mut Vec<(String, JsonValue)>, k: String, v: JsonValue)
    ensures
        entry_views(final(es)@) == with_entry(entry_views(old(es)@), k@, v),
{
    let ghost s = entry_views(es@);
    match find_entry(es, &k) {
        Some(i) => {
            proof {
                lemma_entry_index_of_first(s, k@, i as int);
            }
            es.set(i, (k, v));
            proof {
                assert(entry_views(es@) =~= s.update(i as int, (k@, v)));
            }
        },
        None => {
            es.push((k, v));
            proof {
                assert(entry_views(es@) =~= s.push((k@, v)));
            }
        },
    }
}

/// Removes and returns the value of the first `k`-keyed entry of `es`.
pub fn remove_entry(es: &mut Vec<(String, JsonValue)>, k: &String) -> (r: Option<JsonValue>)
    ensures
        match r {
            Some(v) => {
                &&& has_entry(entry_views(old(es)@), k@)
                &&& v == entry_value(entry_views(old(es)@), k@)
                &&& entry_views(final(es)@) == without_entry(entry_views(old(es)@), k@)
            },
            None => {
                &&& !has_entry(entry_views(old(es)@), k@)
                &&& final(es)@ == old(es)@
            },
        },
{
    let ghost s = entry_views(es@);
    match find_entry(es, k) {
        Some(i) => {
            proof {
                lemma_entry_index_of_first(s, k@, i as int);
            }
            let e = es.remove(i);
            proof {
                assert(entry_views(es@) =~= s.remove(i as int));
            }
            Some(e.1)
        },
        None => {
            proof {
                assert forall|j: int| 0 <= j < s.len() implies s[j].0 != k@ by {
                    assert(s[j] == (es@[j].0@, es@[j].1));
                }
            }
            None
        },
    }
}

/// Borrows the value of the first `k`-keyed entry of `es`.
pub fn get_entry<'a>(es: &'a Vec<(String, JsonValue)>, k: &String) -> (r: Option<&'a JsonValue>)
    ensures
        match r {
            Some(v) => {
                &&& has_entry(entry_views(es@), k@)
                &&& *v == entry_value(entry_views(es@), k@)
            },
            None => !has_entry(entry_views(es@), k@),
        },
{
    let ghost s = entry_views(es@);
    match find_entry(es, k) {
        Some(i) => {
            proof {
                lemma_entry_index_of_first(s, k@, i as int);
            }
            Some(&es[i].1)
        },
        None => {
            proof {
                assert forall|j: int| 0 <= j < s.len() implies s[j].0 != k@ by {
                    assert(s[j] == (es@[j].0@, es@[j].1));
                }
            }
            None
        },
    }
}

/// Removing one key leaves what the lookups of every other key see
/// untouched.
pub proof fn lemma_without_entry_other<V>(s: Seq<(Seq<char>, V)>, k1: Seq<char>, k2: Seq<char>)
    requires
        k1 != k2,
    ensures
        has_entry(without_entry(s, k1), k2) == has_entry(s, k2),
        has_entry(s, k2) ==> entry_value(without_entry(s, k1), k2) == entry_value(s, k2),
{
    if has_entry(s, k1) {
        lemma_entry_index(s, k1);
        let i1 = entry_index(s, k1);
        let t = s.remove(i1);
        assert forall|j: int| 0 <= j < t.len() implies t[j] == (if j < i1 {
            s[j]
        } else {
            s[j + 1]
        }) by {}
        if has_entry(s, k2) {
            lemma_entry_index(s, k2);
            let i2 = entry_index(s, k2);
            let i2t = if i2 < i1 {
                i2
            } else {
                i2 - 1
            };
            assert(t[i2t] == s[i2]);
            assert forall|j: int| 0 <= j < i2t implies t[j].0 != k2 by {}
            lemma_entry_index_of_first(t, k2, i2t);
        } else {
            assert forall|j: int| 0 <= j < t.len() implies t[j].0 != k2 by {}
        }
        if has_entry(t, k2) {
            lemma_entry_index(t, k2);
            let j2 = entry_index(t, k2);
            assert(t[j2] == (if j2 < i1 {
                s[j2]
            } else {
                s[j2 + 1]
            }));
        }
    }
}

} // verus!
