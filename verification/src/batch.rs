//! The batch reconciler.
//!
//! A multi-item write is validated against the store's hard cap of 25
//! items per request before any transport work, encoded item by item
//! into `{"items": [...]}`, and the store's answer — two optional
//! partitions, `"processed"` and `"failed"` — is merged back into two
//! typed collections. A partition the store omitted (or sent as `null`)
//! counts as empty rather than as an error.

use vstd::prelude::*;

use crate::codec::{
    decode_item, decoded_fields, decoded_key, encode, encoded_fields, item_decodable,
};
use crate::error::Error;
use crate::item::{key_view, Item};
use crate::json::{
    entry_value, entry_views, has_entry, lemma_without_entry_other, remove_entry, JsonValue,
};

verus! {

/// The store's hard cap on items per write request.
pub const BATCH_CAP: usize = 25;

/// `envs` are exactly the envelopes of `items`, in order.
pub open spec fn encoded_all(items: Seq<Item<JsonValue>>, envs: Seq<JsonValue>) -> bool {
    &&& envs.len() == items.len()
    &&& forall|i: int|
        0 <= i < items.len() ==> (#[trigger] envs[i]) is Obj && envs[i].fields() == encoded_fields(
            items[i].key,
            items[i].value,
        )
}

/// Validates the batch against the cap and encodes it into the wire
/// request `{"items": [...]}`; a batch over the cap is rejected before
/// anything else happens.
pub fn prepare(items: Vec<Item<JsonValue>>) -> (r: Result<JsonValue, Error>)
    ensures
        items@.len() > BATCH_CAP ==> r == Err::<JsonValue, Error>(Error::VecTooLong),
        items@.len() <= BATCH_CAP ==> {
            &&& r matches Ok(w)
            &&& w is Obj
            &&& w.fields().len() == 1
            &&& w.fields()[0].0 == "items"@
            &&& w.fields()[0].1 is Arr
            &&& encoded_all(items@, w.fields()[0].1.elems())
        },
{
    if items.len() > BATCH_CAP {
        return Err(Error::VecTooLong);
    }
    let ghost all = items@;
    let mut rest = items;
    let mut envs: Vec<JsonValue> = Vec::new();
    while rest.len() > 0
        invariant
            rest@ == all.subrange(envs@.len() as int, all.len() as int),
            envs@.len() <= all.len(),
            forall|j: int|
                0 <= j < envs@.len() ==> (#[trigger] envs@[j]) is Obj && envs@[j].fields()
                    == encoded_fields(all[j].key, all[j].value),
        decreases rest@.len(),
    {
        let ghost i = envs@.len() as int;
        let it = rest.remove(0);
        proof {
            assert(it == all[i]);
            assert(rest@ =~= all.subrange(i + 1, all.len() as int));
        }
        let env = encode(it);
        envs.push(env);
    }
    let mut fields: Vec<(String, JsonValue)> = Vec::new();
    fields.push(("items".to_owned(), JsonValue::Arr(envs)));
    let w = JsonValue::Obj(fields);
    proof {
        assert(w.fields().len() == 1);
        assert(w.fields()[0] == ("items"@, fields@[0].1));
    }
    Ok(w)
}

/// Every element is an envelope that decodes as an item.
pub open spec fn all_items_decodable(elems: Seq<JsonValue>) -> bool {
    forall|i: int|
        0 <= i < elems.len() ==> (#[trigger] elems[i]) is Obj && item_decodable(elems[i].fields())
}

/// A partition value as found (or not) in the response.
pub open spec fn partition_lookup(
    fs: Seq<(Seq<char>, JsonValue)>,
    name: Seq<char>,
) -> Option<JsonValue> {
    if has_entry(fs, name) {
        Some(entry_value(fs, name))
    } else {
        None
    }
}

/// A found partition is well-shaped if it is `null` or an `{"items":
/// [...]}` object whose elements all decode; a missing one always is.
pub open spec fn opt_partition_ok(p: Option<JsonValue>) -> bool {
    match p {
        None => true,
        Some(v) => v is Null || (v is Obj && has_entry(v.fields(), "items"@) && entry_value(
            v.fields(),
            "items"@,
        ) is Arr && all_items_decodable(entry_value(v.fields(), "items"@).elems())),
    }
}

/// The envelopes a partition holds; empty for a missing or `null`
/// partition.
pub open spec fn opt_partition_elems(p: Option<JsonValue>) -> Seq<JsonValue>
    recommends
        opt_partition_ok(p),
{
    match p {
        None => Seq::empty(),
        Some(v) => if v is Null {
            Seq::empty()
        } else {
            entry_value(v.fields(), "items"@).elems()
        },
    }
}

/// Whether the named partition of the response is well-shaped.
pub open spec fn partition_ok(fs: Seq<(Seq<char>, JsonValue)>, name: Seq<char>) -> bool {
    opt_partition_ok(partition_lookup(fs, name))
}

/// The envelopes the named partition of the response holds.
pub open spec fn partition_elems(fs: Seq<(Seq<char>, JsonValue)>, name: Seq<char>) -> Seq<
    JsonValue,
> {
    opt_partition_elems(partition_lookup(fs, name))
}

/// `out` holds exactly the items decoded from the envelopes `elems`, in
/// order.
pub open spec fn decoded_items_match(elems: Seq<JsonValue>, out: Seq<Item<JsonValue>>) -> bool {
    &&& out.len() == elems.len()
    &&& forall|i: int|
        0 <= i < elems.len() ==> key_view((#[trigger] out[i]).key) == decoded_key(
            elems[i].fields(),
        ) && out[i].value is Obj && out[i].value.fields() == decoded_fields(elems[i].fields())
}

/// How `reconcile` answers on a given response document.
pub open spec fn reconcile_rel(
    response: JsonValue,
    r: Result<(Vec<Item<JsonValue>>, Vec<Item<JsonValue>>), Error>,
) -> bool {
    &&& (response is Obj && partition_ok(response.fields(), "processed"@) && partition_ok(
        response.fields(),
        "failed"@,
    )) ==> {
        &&& r matches Ok(pf)
        &&& decoded_items_match(partition_elems(response.fields(), "processed"@), pf.0@)
        &&& decoded_items_match(partition_elems(response.fields(), "failed"@), pf.1@)
    }
    &&& !(response is Obj && partition_ok(response.fields(), "processed"@) && partition_ok(
        response.fields(),
        "failed"@,
    )) ==> r == Err::<(Vec<Item<JsonValue>>, Vec<Item<JsonValue>>), Error>(
        Error::JSONDeserializingFailed,
    )
}

/// Decodes every envelope of a partition's element list, in order,
/// failing on the first one that does not decode.
fn decode_items(elems: Vec<JsonValue>) -> (r: Result<Vec<Item<JsonValue>>, Error>)
    ensures
        all_items_decodable(elems@) ==> {
            &&& r matches Ok(out)
            &&& decoded_items_match(elems@, out@)
        },
        !all_items_decodable(elems@) ==> r == Err::<Vec<Item<JsonValue>>, Error>(
            Error::JSONDeserializingFailed,
        ),
{
    let ghost all = elems@;
    let mut rest = elems;
    let mut out: Vec<Item<JsonValue>> = Vec::new();
    #[verifier::loop_isolation(false)]
    while rest.len() > 0
        invariant
            rest@ == all.subrange(out@.len() as int, all.len() as int),
            out@.len() <= all.len(),
            forall|j: int|
                0 <= j < out@.len() ==> (#[trigger] all[j]) is Obj && item_decodable(
                    all[j].fields(),
                ),
            forall|j: int|
                0 <= j < out@.len() ==> key_view((#[trigger] out@[j]).key) == decoded_key(
                    all[j].fields(),
                ) && out@[j].value is Obj && out@[j].value.fields() == decoded_fields(
                    all[j].fields(),
                ),
        decreases rest@.len(),
    {
        let ghost i = out@.len() as int;
        let w = rest.remove(0);
        proof {
            assert(w == all[i]);
            assert(rest@ =~= all.subrange(i + 1, all.len() as int));
        }
        match decode_item(w) {
            Ok(it) => {
                out.push(it);
            },
            Err(e) => {
                proof {
                    assert(!(all[i] is Obj && item_decodable(all[i].fields())));
                    assert(!all_items_decodable(all)) by {
                        if all_items_decodable(all) {
                            assert(all[i] is Obj && item_decodable(all[i].fields()));
                        }
                    }
                    assert(e == Error::JSONDeserializingFailed);
                }
                return Err(e);
            },
        }
    }
    proof {
        assert(out@.len() == all.len());
        assert(all_items_decodable(all));
    }
    Ok(out)
}

/// Decodes one optional partition into its typed item list.
fn decode_partition(part: Option<JsonValue>) -> (r: Result<Vec<Item<JsonValue>>, Error>)
    ensures
        opt_partition_ok(part) ==> {
            &&& r matches Ok(out)
            &&& decoded_items_match(opt_partition_elems(part), out@)
        },
        !opt_partition_ok(part) ==> r == Err::<Vec<Item<JsonValue>>, Error>(
            Error::JSONDeserializingFailed,
        ),
{
    match part {
        None => Ok(Vec::new()),
        Some(JsonValue::Null) => Ok(Vec::new()),
        Some(JsonValue::Obj(mut pes)) => {
            match remove_entry(&mut pes, &"items".to_owned()) {
                Some(JsonValue::Arr(elems)) => decode_items(elems),
                Some(_) => Err(Error::JSONDeserializingFailed),
                None => Err(Error::JSONDeserializingFailed),
            }
        },
        Some(_) => Err(Error::JSONDeserializingFailed),
    }
}

/// Merges the store's answer to a batch write back into the typed
/// `(processed, failed)` partition of the submitted items.
pub fn reconcile(response: JsonValue) -> (r: Result<
    (Vec<Item<JsonValue>>, Vec<Item<JsonValue>>),
    Error,
>)
    ensures
        reconcile_rel(response, r),
{
    match response {
        JsonValue::Obj(mut es) => {
            let ghost fs0 = entry_views(es@);
            let p_opt = remove_entry(&mut es, &"processed".to_owned());
            let f_opt = remove_entry(&mut es, &"failed".to_owned());
            proof {
                reveal_strlit("processed");
                reveal_strlit("failed");
                assert("processed"@.len() == 9);
                assert("failed"@.len() == 6);
                lemma_without_entry_other(fs0, "processed"@, "failed"@);
                assert(p_opt == partition_lookup(fs0, "processed"@));
                assert(f_opt == partition_lookup(fs0, "failed"@));
            }
            match decode_partition(p_opt) {
                Ok(pv) => match decode_partition(f_opt) {
                    Ok(fv) => Ok((pv, fv)),
                    Err(e) => Err(e),
                },
                Err(e) => Err(e),
            }
        },
        _ => Err(Error::JSONDeserializingFailed),
    }
}

/// Batch partition completeness law: when the store's response asserts
/// each submitted item in exactly one partition — the two partitions'
/// element counts sum to the batch size — the reconciled collections
/// together hold exactly one item per submitted one.
pub proof fn lemma_partition_completeness(
    response: JsonValue,
    out: (Vec<Item<JsonValue>>, Vec<Item<JsonValue>>),
    n: int,
)
    requires
        decoded_items_match(partition_elems(response.fields(), "processed"@), out.0@),
        decoded_items_match(partition_elems(response.fields(), "failed"@), out.1@),
        partition_elems(response.fields(), "processed"@).len() + partition_elems(
            response.fields(),
            "failed"@,
        ).len() == n,
    ensures
        out.0@.len() + out.1@.len() == n,
{
}

} // verus!
