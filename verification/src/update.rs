//! The partial-update builder.
//!
//! An `Update` accumulates five disjoint kinds of mutation — set,
//! increment, append, prepend, delete — each keyed by a dotted attribute
//! path, and `build` serializes all five verbatim into the wire document,
//! empty mappings included. Operands are carried as the strings the
//! caller rendered them to, exactly as they will be sent.

use vstd::prelude::*;

use crate::json::{
    entry_value, has_entry, lemma_entry_index_of_first, with_entry, JsonValue,
};

verus! {

/// Only used for update requests: a set of partial-mutation instructions
/// applied by the store to one existing item.
#[derive(Debug, PartialEq, Eq)]
pub struct Update {
    set: Vec<(String, String)>,
    increment: Vec<(String, String)>,
    append: Vec<(String, Vec<String>)>,
    prepend: Vec<(String, Vec<String>)>,
    delete: Vec<String>,
}

/// The views of a sequence of strings.
pub open spec fn str_views(ss: Seq<String>) -> Seq<Seq<char>> {
    ss.map(|i: int, s: String| s@)
}

spec fn kv_views(es: Seq<(String, String)>) -> Seq<(Seq<char>, Seq<char>)> {
    es.map(|i: int, e: (String, String)| (e.0@, e.1@))
}

spec fn list_views(es: Seq<(String, Vec<String>)>) -> Seq<(Seq<char>, Seq<Seq<char>>)> {
    es.map(|i: int, e: (String, Vec<String>)| (e.0@, str_views(e.1@)))
}

/// `v` is a JSON array holding exactly the strings `ss`, in order.
pub open spec fn arr_of_strings(v: JsonValue, ss: Seq<Seq<char>>) -> bool {
    &&& v is Arr
    &&& v.elems().len() == ss.len()
    &&& forall|i: int|
        0 <= i < ss.len() ==> (#[trigger] v.elems()[i]) is Str && v.elems()[i]->Str_0@ == ss[i]
}

/// `v` is a JSON object holding exactly the string-valued entries `m`,
/// in order.
pub open spec fn obj_of_strings(v: JsonValue, m: Seq<(Seq<char>, Seq<char>)>) -> bool {
    &&& v is Obj
    &&& v.fields().len() == m.len()
    &&& forall|i: int|
        0 <= i < m.len() ==> (#[trigger] v.fields()[i]).0 == m[i].0 && v.fields()[i].1 is Str
            && v.fields()[i].1->Str_0@ == m[i].1
}

/// `v` is a JSON object holding exactly the string-list-valued entries
/// `m`, in order.
pub open spec fn obj_of_string_lists(v: JsonValue, m: Seq<(Seq<char>, Seq<Seq<char>>)>) -> bool {
    &&& v is Obj
    &&& v.fields().len() == m.len()
    &&& forall|i: int|
        0 <= i < m.len() ==> (#[trigger] v.fields()[i]).0 == m[i].0 && arr_of_strings(
            v.fields()[i].1,
            m[i].1,
        )
}

/// The index of the first entry of `es` whose key is `k`, if any.
fn find_key<V>(es: &Vec<(String, V)>, k: &String) -> (r: Option<usize>)
    ensures
        match r {
            Some(i) => {
                &&& i < es@.len()
                &&& es@[i as int].0@ == k@
                &&& forall|j: int| 0 <= j < i ==> es@[j].0@ != k@
            },
            None => forall|j: int| 0 <= j < es@.len() ==> es@[j].0@ != k@,
        },
{
    let mut i: usize = 0;
    while i < es.len()
        invariant
            i <= es@.len(),
            forall|j: int| 0 <= j < i ==> es@[j].0@ != k@,
        decreases es@.len() - i,
    {
        if es[i].0 == *k {
            return Some(i);
        }
        i = i + 1;
    }
    None
}

/// Replaces the first `path`-keyed entry of `es` by `(path, value)`, or
/// appends it.
fn put_kv(es: &mut Vec<(String, String)>, path: String, value: String)
    ensures
        kv_views(final(es)@) == with_entry(kv_views(old(es)@), path@, value@),
{
    let ghost s = kv_views(es@);
    match find_key(es, &path) {
        Some(i) => {
            proof {
                assert forall|j: int| 0 <= j < i implies s[j].0 != path@ by {
                    assert(s[j] == (es@[j].0@, es@[j].1@));
                }
                assert(s[i as int] == (es@[i as int].0@, es@[i as int].1@));
                lemma_entry_index_of_first(s, path@, i as int);
            }
            es.set(i, (path, value));
            proof {
                assert(kv_views(es@) =~= s.update(i as int, (path@, value@)));
            }
        },
        None => {
            proof {
                assert forall|j: int| 0 <= j < s.len() implies s[j].0 != path@ by {
                    assert(s[j] == (es@[j].0@, es@[j].1@));
                }
            }
            es.push((path, value));
            proof {
                assert(kv_views(es@) =~= s.push((path@, value@)));
            }
        },
    }
}

/// Pushes `value` onto the list at `path`, creating the list on first
/// use; repeated calls with one path accumulate in call order.
fn push_list(es: &mut Vec<(String, Vec<String>)>, path: String, value: String)
    ensures
        list_views(final(es)@) == with_entry(
            list_views(old(es)@),
            path@,
            if has_entry(list_views(old(es)@), path@) {
                entry_value(list_views(old(es)@), path@).push(value@)
            } else {
                seq![value@]
            },
        ),
{
    let ghost s = list_views(es@);
    match find_key(es, &path) {
        Some(i) => {
            proof {
                assert forall|j: int| 0 <= j < i implies s[j].0 != path@ by {
                    assert(s[j] == (es@[j].0@, str_views(es@[j].1@)));
                }
                assert(s[i as int] == (es@[i as int].0@, str_views(es@[i as int].1@)));
                lemma_entry_index_of_first(s, path@, i as int);
            }
            let e = es.remove(i);
            let (path0, mut lst) = e;
            let ghost lv = str_views(lst@);
            lst.push(value);
            proof {
                assert(str_views(lst@) =~= lv.push(value@));
            }
            es.insert(i, (path0, lst));
            proof {
                assert(list_views(es@) =~= s.update(i as int, (path@, lv.push(value@))));
            }
        },
        None => {
            proof {
                assert forall|j: int| 0 <= j < s.len() implies s[j].0 != path@ by {
                    assert(s[j] == (es@[j].0@, str_views(es@[j].1@)));
                }
            }
            let mut lst: Vec<String> = Vec::new();
            lst.push(value);
            proof {
                assert(str_views(lst@) =~= seq![value@]);
            }
            es.push((path, lst));
            proof {
                assert(list_views(es@) =~= s.push((path@, seq![value@])));
            }
        },
    }
}

/// Converts a list of strings into a JSON array of strings.
fn strings_wire(ss: &Vec<String>) -> (r: Vec<JsonValue>)
    ensures
        r@.len() == ss@.len(),
        forall|i: int|
            0 <= i < ss@.len() ==> (#[trigger] r@[i]) is Str && r@[i]->Str_0@ == ss@[i]@,
{
    let mut r: Vec<JsonValue> = Vec::new();
    let mut i: usize = 0;
    while i < ss.len()
        invariant
            i <= ss@.len(),
            r@.len() == i,
            forall|j: int| 0 <= j < i ==> (#[trigger] r@[j]) is Str && r@[j]->Str_0@ == ss@[j]@,
        decreases ss@.len() - i,
    {
        r.push(JsonValue::Str(ss[i].clone()));
        i = i + 1;
    }
    r
}

/// Converts a string-valued mapping into a JSON object of strings.
fn kv_wire(es: &Vec<(String, String)>) -> (r: Vec<(String, JsonValue)>)
    ensures
        r@.len() == es@.len(),
        forall|i: int|
            0 <= i < es@.len() ==> (#[trigger] r@[i]).0@ == es@[i].0@ && r@[i].1 is Str
                && r@[i].1->Str_0@ == es@[i].1@,
{
    let mut r: Vec<(String, JsonValue)> = Vec::new();
    let mut i: usize = 0;
    while i < es.len()
        invariant
            i <= es@.len(),
            r@.len() == i,
            forall|j: int|
                0 <= j < i ==> (#[trigger] r@[j]).0@ == es@[j].0@ && r@[j].1 is Str
                    && r@[j].1->Str_0@ == es@[j].1@,
        decreases es@.len() - i,
    {
        r.push((es[i].0.clone(), JsonValue::Str(es[i].1.clone())));
        i = i + 1;
    }
    r
}

/// Converts a list-valued mapping into a JSON object of arrays of
/// strings.
fn list_wire(es: &Vec<(String, Vec<String>)>) -> (r: Vec<(String, JsonValue)>)
    ensures
        r@.len() == es@.len(),
        forall|i: int|
            0 <= i < es@.len() ==> (#[trigger] r@[i]).0@ == es@[i].0@ && arr_of_strings(
                r@[i].1,
                str_views(es@[i].1@),
            ),
{
    let mut r: Vec<(String, JsonValue)> = Vec::new();
    let mut i: usize = 0;
    while i < es.len()
        invariant
            i <= es@.len(),
            r@.len() == i,
            forall|j: int|
                0 <= j < i ==> (#[trigger] r@[j]).0@ == es@[j].0@ && arr_of_strings(
                    r@[j].1,
                    str_views(es@[j].1@),
                ),
        decreases es@.len() - i,
    {
        let arr = strings_wire(&es[i].1);
        proof {
            assert forall|j: int| 0 <= j < es@[i as int].1@.len() implies str_views(
                es@[i as int].1@,
            )[j] == es@[i as int].1@[j]@ by {}
        }
        r.push((es[i].0.clone(), JsonValue::Arr(arr)));
        i = i + 1;
    }
    r
}

impl Update {
    /// The set operations, path to rendered operand, in insertion order.
    pub closed spec fn set_view(self) -> Seq<(Seq<char>, Seq<char>)> {
        kv_views(self.set@)
    }

    /// The increment operations, path to rendered delta, in insertion
    /// order.
    pub closed spec fn increment_view(self) -> Seq<(Seq<char>, Seq<char>)> {
        kv_views(self.increment@)
    }

    /// The append operations, path to accumulated values in call order.
    pub closed spec fn append_view(self) -> Seq<(Seq<char>, Seq<Seq<char>>)> {
        list_views(self.append@)
    }

    /// The prepend operations, path to accumulated values in call order.
    pub closed spec fn prepend_view(self) -> Seq<(Seq<char>, Seq<Seq<char>>)> {
        list_views(self.prepend@)
    }

    /// The deletion list, verbatim, duplicates kept.
    pub closed spec fn delete_view(self) -> Seq<Seq<char>> {
        str_views(self.delete@)
    }

    /// Initializes a new, empty `Update`.
    pub fn new() -> (r: Update)
        ensures
            r.set_view() == Seq::<(Seq<char>, Seq<char>)>::empty(),
            r.increment_view() == Seq::<(Seq<char>, Seq<char>)>::empty(),
            r.append_view() == Seq::<(Seq<char>, Seq<Seq<char>>)>::empty(),
            r.prepend_view() == Seq::<(Seq<char>, Seq<Seq<char>>)>::empty(),
            r.delete_view() == Seq::<Seq<char>>::empty(),
    {
        let r = Update {
            set: Vec::new(),
            increment: Vec::new(),
            append: Vec::new(),
            prepend: Vec::new(),
            delete: Vec::new(),
        };
        proof {
            assert(r.set_view() =~= Seq::<(Seq<char>, Seq<char>)>::empty());
            assert(r.increment_view() =~= Seq::<(Seq<char>, Seq<char>)>::empty());
            assert(r.append_view() =~= Seq::<(Seq<char>, Seq<Seq<char>>)>::empty());
            assert(r.prepend_view() =~= Seq::<(Seq<char>, Seq<Seq<char>>)>::empty());
            assert(r.delete_view() =~= Seq::<Seq<char>>::empty());
        }
        r
    }

    /// Sets a new value for the attribute at `path`.
    pub fn set(self, path: String, value: String) -> (r: Update)
        ensures
            r.set_view() == with_entry(self.set_view(), path@, value@),
            r.increment_view() == self.increment_view(),
            r.append_view() == self.append_view(),
            r.prepend_view() == self.prepend_view(),
            r.delete_view() == self.delete_view(),
    {
        let mut u = self;
        put_kv(&mut u.set, path, value);
        u
    }

    /// Increments the attribute at `path` by the rendered delta.
    pub fn increment(self, path: String, value: String) -> (r: Update)
        ensures
            r.increment_view() == with_entry(self.increment_view(), path@, value@),
            r.set_view() == self.set_view(),
            r.append_view() == self.append_view(),
            r.prepend_view() == self.prepend_view(),
            r.delete_view() == self.delete_view(),
    {
        let mut u = self;
        put_kv(&mut u.increment, path, value);
        u
    }

    /// Appends `value` to the list at `path`; repeated calls with one
    /// path accumulate in call order.
    pub fn append(self, path: String, value: String) -> (r: Update)
        ensures
            r.append_view() == with_entry(
                self.append_view(),
                path@,
                if has_entry(self.append_view(), path@) {
                    entry_value(self.append_view(), path@).push(value@)
                } else {
                    seq![value@]
                },
            ),
            r.set_view() == self.set_view(),
            r.increment_view() == self.increment_view(),
            r.prepend_view() == self.prepend_view(),
            r.delete_view() == self.delete_view(),
    {
        let mut u = self;
        push_list(&mut u.append, path, value);
        u
    }

    /// Prepends `value` to the list at `path`; repeated calls with one
    /// path accumulate in call order.
    pub fn prepend(self, path: String, value: String) -> (r: Update)
        ensures
            r.prepend_view() == with_entry(
                self.prepend_view(),
                path@,
                if has_entry(self.prepend_view(), path@) {
                    entry_value(self.prepend_view(), path@).push(value@)
                } else {
                    seq![value@]
                },
            ),
            r.set_view() == self.set_view(),
            r.increment_view() == self.increment_view(),
            r.append_view() == self.append_view(),
            r.delete_view() == self.delete_view(),
    {
        let mut u = self;
        push_list(&mut u.prepend, path, value);
        u
    }

    /// Marks the attribute at `path` for deletion; duplicate paths are
    /// kept verbatim.
    pub fn delete(self, path: String) -> (r: Update)
        ensures
            r.delete_view() == self.delete_view().push(path@),
            r.set_view() == self.set_view(),
            r.increment_view() == self.increment_view(),
            r.append_view() == self.append_view(),
            r.prepend_view() == self.prepend_view(),
    {
        let mut u = self;
        u.delete.push(path);
        proof {
            assert(u.delete_view() =~= self.delete_view().push(path@));
        }
        u
    }

    /// `w` is the wire document of this update: the five operation
    /// mappings serialized verbatim, empty ones included.
    pub open spec fn wire_matches(self, w: JsonValue) -> bool {
        &&& w is Obj
        &&& w.fields().len() == 5
        &&& w.fields()[0].0 == "set"@ && obj_of_strings(w.fields()[0].1, self.set_view())
        &&& w.fields()[1].0 == "increment"@ && obj_of_strings(
            w.fields()[1].1,
            self.increment_view(),
        )
        &&& w.fields()[2].0 == "append"@ && obj_of_string_lists(
            w.fields()[2].1,
            self.append_view(),
        )
        &&& w.fields()[3].0 == "prepend"@ && obj_of_string_lists(
            w.fields()[3].1,
            self.prepend_view(),
        )
        &&& w.fields()[4].0 == "delete"@ && arr_of_strings(w.fields()[4].1, self.delete_view())
    }

    /// Serializes the update into its wire document.
    pub fn build(&self) -> (r: JsonValue)
        ensures
            self.wire_matches(r),
    {
        let mut fields: Vec<(String, JsonValue)> = Vec::new();
        let set_w = kv_wire(&self.set);
        let increment_w = kv_wire(&self.increment);
        let append_w = list_wire(&self.append);
        let prepend_w = list_wire(&self.prepend);
        let delete_w = strings_wire(&self.delete);
        proof {
            assert(obj_of_strings(JsonValue::Obj(set_w), self.set_view())) by {
                lemma_obj_of_strings(set_w, self.set@);
            }
            assert(obj_of_strings(JsonValue::Obj(increment_w), self.increment_view())) by {
                lemma_obj_of_strings(increment_w, self.increment@);
            }
            assert(obj_of_string_lists(JsonValue::Obj(append_w), self.append_view())) by {
                lemma_obj_of_string_lists(append_w, self.append@);
            }
            assert(obj_of_string_lists(JsonValue::Obj(prepend_w), self.prepend_view())) by {
                lemma_obj_of_string_lists(prepend_w, self.prepend@);
            }
            assert(arr_of_strings(JsonValue::Arr(delete_w), self.delete_view())) by {
                assert forall|i: int| 0 <= i < self.delete@.len() implies str_views(self.delete@)[i]
                    == self.delete@[i]@ by {}
            }
        }
        fields.push(("set".to_owned(), JsonValue::Obj(set_w)));
        fields.push(("increment".to_owned(), JsonValue::Obj(increment_w)));
        fields.push(("append".to_owned(), JsonValue::Obj(append_w)));
        fields.push(("prepend".to_owned(), JsonValue::Obj(prepend_w)));
        fields.push(("delete".to_owned(), JsonValue::Arr(delete_w)));
        let r = JsonValue::Obj(fields);
        proof {
            assert(r.fields().len() == 5);
            assert(r.fields()[0] == ("set"@, JsonValue::Obj(set_w)));
            assert(r.fields()[1] == ("increment"@, JsonValue::Obj(increment_w)));
            assert(r.fields()[2] == ("append"@, JsonValue::Obj(append_w)));
            assert(r.fields()[3] == ("prepend"@, JsonValue::Obj(prepend_w)));
            assert(r.fields()[4] == ("delete"@, JsonValue::Arr(delete_w)));
        }
        r
    }
}

proof fn lemma_obj_of_strings(r: Vec<(String, JsonValue)>, es: Seq<(String, String)>)
    requires
        r@.len() == es.len(),
        forall|i: int|
            0 <= i < es.len() ==> (#[trigger] r@[i]).0@ == es[i].0@ && r@[i].1 is Str
                && r@[i].1->Str_0@ == es[i].1@,
    ensures
        obj_of_strings(JsonValue::Obj(r), kv_views(es)),
{
    assert forall|i: int| 0 <= i < es.len() implies (#[trigger] JsonValue::Obj(r).fields()[i]).0
        == kv_views(es)[i].0 && JsonValue::Obj(r).fields()[i].1 is Str && JsonValue::Obj(
        r,
    ).fields()[i].1->Str_0@ == kv_views(es)[i].1 by {
        assert(JsonValue::Obj(r).fields()[i] == (r@[i].0@, r@[i].1));
        assert(kv_views(es)[i] == (es[i].0@, es[i].1@));
    }
}

proof fn lemma_obj_of_string_lists(r: Vec<(String, JsonValue)>, es: Seq<(String, Vec<String>)>)
    requires
        r@.len() == es.len(),
        forall|i: int|
            0 <= i < es.len() ==> (#[trigger] r@[i]).0@ == es[i].0@ && arr_of_strings(
                r@[i].1,
                str_views(es[i].1@),
            ),
    ensures
        obj_of_string_lists(JsonValue::Obj(r), list_views(es)),
{
    assert forall|i: int| 0 <= i < es.len() implies (#[trigger] JsonValue::Obj(r).fields()[i]).0
        == list_views(es)[i].0 && arr_of_strings(
        JsonValue::Obj(r).fields()[i].1,
        list_views(es)[i].1,
    ) by {
        assert(JsonValue::Obj(r).fields()[i] == (r@[i].0@, r@[i].1));
        assert(list_views(es)[i] == (es[i].0@, str_views(es[i].1@)));
    }
}

} // verus!
