//! The unit of storage: a key together with a value.

use vstd::prelude::*;

verus! {

/// An item which is sent to or retrieved from a collection of the store.
///
/// `key` identifies the item within its collection; it is either supplied
/// by the caller or assigned by the store.
#[derive(Debug, PartialEq, Eq)]
pub struct Item<T> {
    pub key: Option<String>,
    pub value: T,
}

/// The specification view of an optional key.
pub open spec fn key_view(k: Option<String>) -> Option<Seq<char>> {
    match k {
        Some(s) => Some(s@),
        None => None,
    }
}

impl<T> Item<T> {
    /// Makes a new item with a value and no key; the store will assign one.
    pub fn new(value: T) -> (r: Self)
        ensures
            r.key is None,
            r.value == value,
    {
        Item { key: None, value }
    }

    /// Makes a new item with a caller-supplied key and a value.
    pub fn new_with_key(key: &str, value: T) -> (r: Self)
        ensures
            key_view(r.key) == Some(key@),
            r.value == value,
    {
        Item { key: Some(key.to_owned()), value }
    }
}

} // verus!
