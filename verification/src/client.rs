//! The operation façade.
//!
//! A client handle carries the validated access token, the routing
//! identifier derived from it, and an optional collection binding; it is
//! immutable once built, and binding a collection yields a new handle.
//! Every store operation is a single request/response exchange: a
//! `*_request` function decides what is sent (or rejects the call
//! locally, before any transport work), and a `*_response` function maps
//! the transport's outcome to a typed result under the fixed error
//! table. The transport itself — HTTP, headers, URL assembly — lives
//! outside this library.

use vstd::prelude::*;
use vstd::string::StrSliceExecFns;

use crate::batch::{encoded_all, prepare, reconcile, reconcile_rel, BATCH_CAP};
use crate::codec::{decode_single, decode_single_rel, encode, encoded_fields};
use crate::error::Error;
use crate::item::{key_view, Item};
use crate::json::{entry_value, get_entry, has_entry, JsonValue};
use crate::update::Update;

verus! {

/// A character the access token may contain: an ASCII alphanumeric or
/// one of `_ . - ~`.
pub open spec fn valid_key_char(c: char) -> bool {
    ||| (97 <= c as u32 && c as u32 <= 122)
    ||| (65 <= c as u32 && c as u32 <= 90)
    ||| (48 <= c as u32 && c as u32 <= 57)
    ||| c == '_'
    ||| c == '.'
    ||| c == '-'
    ||| c == '~'
}

fn is_valid_key_char(c: char) -> (r: bool)
    ensures
        r == valid_key_char(c),
{
    let u = c as u32;
    (97 <= u && u <= 122) || (65 <= u && u <= 90) || (48 <= u && u <= 57) || c == '_' || c == '.'
        || c == '-' || c == '~'
}

/// The length of the token's routing prefix: everything before its
/// first `_`, or all of it if it has none.
pub open spec fn prefix_len(s: Seq<char>) -> int
    decreases s.len(),
{
    if s.len() == 0 {
        0
    } else if s[0] == '_' {
        0
    } else {
        1 + prefix_len(s.subrange(1, s.len() as int))
    }
}

proof fn lemma_prefix_len_of_first(s: Seq<char>, j: int)
    requires
        0 <= j <= s.len(),
        forall|i: int| 0 <= i < j ==> s[i] != '_',
        j < s.len() ==> s[j] == '_',
    ensures
        prefix_len(s) == j,
    decreases s.len(),
{
    if j == 0 {
    } else {
        let t = s.subrange(1, s.len() as int);
        assert forall|i: int| 0 <= i < j - 1 implies t[i] != '_' by {
            assert(t[i] == s[i + 1]);
        }
        assert(j - 1 < t.len() ==> t[j - 1] == s[j]);
        lemma_prefix_len_of_first(t, j - 1);
    }
}

/// The client handle: the validated access token, the routing
/// identifier derived from it, and the optional collection binding.
#[derive(Debug)]
pub struct Deta {
    pub key: String,
    pub project_id: String,
    pub base_name: Option<String>,
}

impl Deta {
    /// Creates a new client handle from an access token.
    ///
    /// The token is rejected before any network use unless it consists
    /// of ASCII alphanumerics and `_ . - ~` alone; the routing
    /// identifier is its prefix up to the first `_`.
    pub fn new_with_key(key: &str) -> (r: Result<Deta, Error>)
        ensures
            match r {
                Ok(d) => {
                    &&& forall|i: int| 0 <= i < key@.len() ==> valid_key_char(#[trigger] key@[i])
                    &&& d.key@ == key@
                    &&& d.project_id@ == key@.take(prefix_len(key@))
                    &&& d.base_name is None
                },
                Err(e) => {
                    &&& e == Error::InvalidKey
                    &&& exists|i: int| 0 <= i < key@.len() && !valid_key_char(#[trigger] key@[i])
                },
            },
    {
        let n = key.unicode_len();
        let mut i: usize = 0;
        while i < n
            invariant
                n == key@.len(),
                i <= n,
                forall|j: int| 0 <= j < i ==> valid_key_char(#[trigger] key@[j]),
            decreases n - i,
        {
            let c = key.get_char(i);
            if !is_valid_key_char(c) {
                return Err(Error::InvalidKey);
            }
            i = i + 1;
        }
        let mut j: usize = 0;
        let mut found = false;
        while !found && j < n
            invariant
                n == key@.len(),
                j <= n,
                forall|t: int| 0 <= t < j ==> key@[t] != '_',
                found ==> j < n && key@[j as int] == '_',
            decreases n - j + (if found { 0int } else { 1int }),
        {
            let c = key.get_char(j);
            if c == '_' {
                found = true;
            } else {
                j = j + 1;
            }
        }
        proof {
            lemma_prefix_len_of_first(key@, j as int);
        }
        let pid = key.substring_char(0, j).to_owned();
        Ok(Deta { key: key.to_owned(), project_id: pid, base_name: None })
    }

    /// Binds the handle to a named collection, yielding a new handle;
    /// the original stays usable under its own binding.
    pub fn base(&self, base_name: &str) -> (r: Deta)
        ensures
            r.key == self.key,
            r.project_id == self.project_id,
            key_view(r.base_name) == Some(base_name@),
    {
        Deta {
            key: self.key.clone(),
            project_id: self.project_id.clone(),
            base_name: Some(base_name.to_owned()),
        }
    }
}

/// The HTTP method of a request.
#[derive(Clone, Copy, Debug, PartialEq, Eq, Structural)]
pub enum Method {
    Get,
    Put,
    Post,
    Patch,
    Delete,
}

/// What an operation asks the transport to send: the method, the item
/// key to address (appended to the collection's item path), and the
/// JSON body, if any.
#[derive(Debug)]
pub struct Request {
    pub method: Method,
    pub item_key: Option<String>,
    pub body: Option<JsonValue>,
}

/// What the transport brought back: the status code and the response
/// body, if one parsed as JSON.
#[derive(Debug)]
pub struct Response {
    pub status: u16,
    pub body: Option<JsonValue>,
}

/// A status the store uses for success.
pub open spec fn success_status(status: u16) -> bool {
    200 <= status < 300
}

fn is_success(status: u16) -> (r: bool)
    ensures
        r == success_status(status),
{
    200 <= status && status < 300
}

impl Deta {
    /// The request fetching the item stored under `key`.
    pub fn get_request(&self, key: &str) -> (r: Result<Request, Error>)
        ensures
            self.base_name is None ==> r == Err::<Request, Error>(Error::BaseNameNotPresent),
            self.base_name is Some ==> {
                &&& r matches Ok(rq)
                &&& rq.method == Method::Get
                &&& key_view(rq.item_key) == Some(key@)
                &&& rq.body is None
            },
    {
        if self.base_name.is_none() {
            return Err(Error::BaseNameNotPresent);
        }
        Ok(Request { method: Method::Get, item_key: Some(key.to_owned()), body: None })
    }

    /// The request deleting the item stored under `key`.
    pub fn delete_request(&self, key: &str) -> (r: Result<Request, Error>)
        ensures
            self.base_name is None ==> r == Err::<Request, Error>(Error::BaseNameNotPresent),
            self.base_name is Some ==> {
                &&& r matches Ok(rq)
                &&& rq.method == Method::Delete
                &&& key_view(rq.item_key) == Some(key@)
                &&& rq.body is None
            },
    {
        if self.base_name.is_none() {
            return Err(Error::BaseNameNotPresent);
        }
        Ok(Request { method: Method::Delete, item_key: Some(key.to_owned()), body: None })
    }

    /// The request storing one item, overwriting any item under the
    /// same key.
    pub fn put_request(&self, item: Item<JsonValue>) -> (r: Result<Request, Error>)
        ensures
            self.base_name is None ==> r == Err::<Request, Error>(Error::BaseNameNotPresent),
            self.base_name is Some ==> {
                &&& r matches Ok(rq)
                &&& rq.method == Method::Put
                &&& rq.item_key is None
                &&& rq.body matches Some(w)
                &&& w is Obj
                &&& w.fields().len() == 1
                &&& w.fields()[0].0 == "items"@
                &&& w.fields()[0].1 is Arr
                &&& encoded_all(seq![item], w.fields()[0].1.elems())
            },
    {
        if self.base_name.is_none() {
            return Err(Error::BaseNameNotPresent);
        }
        let mut items: Vec<Item<JsonValue>> = Vec::new();
        items.push(item);
        proof {
            assert(items@ =~= seq![item]);
        }
        match prepare(items) {
            Ok(w) => Ok(Request { method: Method::Put, item_key: None, body: Some(w) }),
            Err(e) => Err(e),
        }
    }

    /// The request storing a batch of up to 25 items in one exchange;
    /// a longer batch is rejected before any transport work.
    pub fn put_many_request(&self, items: Vec<Item<JsonValue>>) -> (r: Result<Request, Error>)
        ensures
            items@.len() > BATCH_CAP ==> r == Err::<Request, Error>(Error::VecTooLong),
            items@.len() <= BATCH_CAP && self.base_name is None ==> r == Err::<Request, Error>(
                Error::BaseNameNotPresent,
            ),
            items@.len() <= BATCH_CAP && self.base_name is Some ==> {
                &&& r matches Ok(rq)
                &&& rq.method == Method::Put
                &&& rq.item_key is None
                &&& rq.body matches Some(w)
                &&& w is Obj
                &&& w.fields().len() == 1
                &&& w.fields()[0].0 == "items"@
                &&& w.fields()[0].1 is Arr
                &&& encoded_all(items@, w.fields()[0].1.elems())
            },
    {
        if items.len() > BATCH_CAP {
            return Err(Error::VecTooLong);
        }
        if self.base_name.is_none() {
            return Err(Error::BaseNameNotPresent);
        }
        match prepare(items) {
            Ok(w) => Ok(Request { method: Method::Put, item_key: None, body: Some(w) }),
            Err(e) => Err(e),
        }
    }

    /// The request creating one item, failing on a key collision.
    pub fn insert_request(&self, item: Item<JsonValue>) -> (r: Result<Request, Error>)
        ensures
            self.base_name is None ==> r == Err::<Request, Error>(Error::BaseNameNotPresent),
            self.base_name is Some ==> {
                &&& r matches Ok(rq)
                &&& rq.method == Method::Post
                &&& rq.item_key is None
                &&& rq.body matches Some(w)
                &&& w is Obj
                &&& w.fields().len() == 1
                &&& w.fields()[0].0 == "item"@
                &&& w.fields()[0].1 is Obj
                &&& w.fields()[0].1.fields() == encoded_fields(item.key, item.value)
            },
    {
        if self.base_name.is_none() {
            return Err(Error::BaseNameNotPresent);
        }
        let env = encode(item);
        let mut fields: Vec<(String, JsonValue)> = Vec::new();
        fields.push(("item".to_owned(), env));
        let w = JsonValue::Obj(fields);
        proof {
            assert(w.fields().len() == 1);
            assert(w.fields()[0] == ("item"@, fields@[0].1));
        }
        Ok(Request { method: Method::Post, item_key: None, body: Some(w) })
    }

    /// The request applying a partial update to the item stored under
    /// `key`.
    pub fn update_request(&self, key: &str, update: &Update) -> (r: Result<Request, Error>)
        ensures
            self.base_name is None ==> r == Err::<Request, Error>(Error::BaseNameNotPresent),
            self.base_name is Some ==> {
                &&& r matches Ok(rq)
                &&& rq.method == Method::Patch
                &&& key_view(rq.item_key) == Some(key@)
                &&& rq.body matches Some(w)
                &&& update.wire_matches(w)
            },
    {
        if self.base_name.is_none() {
            return Err(Error::BaseNameNotPresent);
        }
        let w = update.build();
        Ok(Request { method: Method::Patch, item_key: Some(key.to_owned()), body: Some(w) })
    }
}

/// Maps a fetch exchange's outcome: transport failure, then a
/// non-success status as a missing item, then the dual-path decoding of
/// the body.
pub fn get_response(reply: Option<Response>) -> (r: Result<JsonValue, Error>)
    ensures
        reply is None ==> r == Err::<JsonValue, Error>(Error::RequestSendError),
        reply matches Some(rsp) && !success_status(rsp.status) ==> r == Err::<JsonValue, Error>(
            Error::ItemNotFound,
        ),
        reply matches Some(rsp) && success_status(rsp.status) && rsp.body is None ==> r == Err::<
            JsonValue,
            Error,
        >(Error::JSONDeserializingFailed),
        match reply {
            Some(rsp) => success_status(rsp.status) ==> match rsp.body {
                Some(w) => decode_single_rel(w, r),
                None => true,
            },
            None => true,
        },
{
    match reply {
        None => Err(Error::RequestSendError),
        Some(rsp) => {
            if !is_success(rsp.status) {
                return Err(Error::ItemNotFound);
            }
            match rsp.body {
                None => Err(Error::JSONDeserializingFailed),
                Some(w) => decode_single(w),
            }
        },
    }
}

/// Maps a delete exchange's outcome; the store's delete is idempotent
/// and this layer surfaces no error beyond the transport's.
pub fn delete_response(reply: Option<Response>) -> (r: Result<(), Error>)
    ensures
        reply is None ==> r == Err::<(), Error>(Error::RequestSendError),
        reply is Some ==> r == Ok::<(), Error>(()),
{
    match reply {
        None => Err(Error::RequestSendError),
        Some(_) => Ok(()),
    }
}

/// The single-put response carries the stored key under
/// `processed.items[0].key`.
pub open spec fn put_key_ok(w: JsonValue) -> bool {
    &&& w is Obj
    &&& has_entry(w.fields(), "processed"@)
    &&& {
        let p = entry_value(w.fields(), "processed"@);
        &&& p is Obj
        &&& has_entry(p.fields(), "items"@)
        &&& {
            let its = entry_value(p.fields(), "items"@);
            &&& its is Arr
            &&& its.elems().len() > 0
            &&& {
                let first = its.elems()[0];
                &&& first is Obj
                &&& has_entry(first.fields(), "key"@)
                &&& entry_value(first.fields(), "key"@) is Str
            }
        }
    }
}

/// The key a well-shaped single-put response carries.
pub open spec fn put_key_of(w: JsonValue) -> Seq<char>
    recommends
        put_key_ok(w),
{
    entry_value(
        entry_value(
            entry_value(w.fields(), "processed"@).fields(),
            "items"@,
        ).elems()[0].fields(),
        "key"@,
    )->Str_0@
}

fn wire_put_key(w: &JsonValue) -> (r: Result<String, Error>)
    ensures
        put_key_ok(*w) ==> {
            &&& r matches Ok(k)
            &&& k@ == put_key_of(*w)
        },
        !put_key_ok(*w) ==> r == Err::<String, Error>(Error::JSONDeserializingFailed),
{
    match w {
        JsonValue::Obj(es) => {
            match get_entry(es, &"processed".to_owned()) {
                Some(JsonValue::Obj(pes)) => {
                    match get_entry(pes, &"items".to_owned()) {
                        Some(JsonValue::Arr(elems)) => {
                            if elems.len() > 0 {
                                match &elems[0] {
                                    JsonValue::Obj(ies) => {
                                        match get_entry(ies, &"key".to_owned()) {
                                            Some(JsonValue::Str(s)) => Ok(s.clone()),
                                            _ => Err(Error::JSONDeserializingFailed),
                                        }
                                    },
                                    _ => Err(Error::JSONDeserializingFailed),
                                }
                            } else {
                                Err(Error::JSONDeserializingFailed)
                            }
                        },
                        _ => Err(Error::JSONDeserializingFailed),
                    }
                },
                _ => Err(Error::JSONDeserializingFailed),
            }
        },
        _ => Err(Error::JSONDeserializingFailed),
    }
}

/// Maps a single-put exchange's outcome to the stored key.
pub fn put_response(reply: Option<Response>) -> (r: Result<String, Error>)
    ensures
        reply is None ==> r == Err::<String, Error>(Error::RequestSendError),
        reply matches Some(rsp) && !success_status(rsp.status) ==> r == Err::<String, Error>(
            Error::BadRequest,
        ),
        reply matches Some(rsp) && success_status(rsp.status) && rsp.body is None ==> r == Err::<
            String,
            Error,
        >(Error::JSONDeserializingFailed),
        match reply {
            Some(rsp) => success_status(rsp.status) ==> match rsp.body {
                Some(w) => {
                    &&& put_key_ok(w) ==> {
                        &&& r matches Ok(k)
                        &&& k@ == put_key_of(w)
                    }
                    &&& !put_key_ok(w) ==> r == Err::<String, Error>(
                        Error::JSONDeserializingFailed,
                    )
                },
                None => true,
            },
            None => true,
        },
{
    match reply {
        None => Err(Error::RequestSendError),
        Some(rsp) => {
            if !is_success(rsp.status) {
                return Err(Error::BadRequest);
            }
            match rsp.body {
                None => Err(Error::JSONDeserializingFailed),
                Some(w) => wire_put_key(&w),
            }
        },
    }
}

/// Maps a batch-put exchange's outcome to the reconciled partitions.
pub fn put_many_response(reply: Option<Response>) -> (r: Result<
    (Vec<Item<JsonValue>>, Vec<Item<JsonValue>>),
    Error,
>)
    ensures
        reply is None ==> r == Err::<(Vec<Item<JsonValue>>, Vec<Item<JsonValue>>), Error>(
            Error::RequestSendError,
        ),
        reply matches Some(rsp) && !success_status(rsp.status) ==> r == Err::<
            (Vec<Item<JsonValue>>, Vec<Item<JsonValue>>),
            Error,
        >(Error::BadRequest),
        reply matches Some(rsp) && success_status(rsp.status) && rsp.body is None ==> r == Err::<
            (Vec<Item<JsonValue>>, Vec<Item<JsonValue>>),
            Error,
        >(Error::JSONDeserializingFailed),
        match reply {
            Some(rsp) => success_status(rsp.status) ==> match rsp.body {
                Some(w) => reconcile_rel(w, r),
                None => true,
            },
            None => true,
        },
{
    match reply {
        None => Err(Error::RequestSendError),
        Some(rsp) => {
            if !is_success(rsp.status) {
                return Err(Error::BadRequest);
            }
            match rsp.body {
                None => Err(Error::JSONDeserializingFailed),
                Some(w) => reconcile(w),
            }
        },
    }
}

/// A well-shaped insert response carries the stored key under `"key"`.
pub open spec fn insert_key_ok(w: JsonValue) -> bool {
    &&& w is Obj
    &&& has_entry(w.fields(), "key"@)
    &&& entry_value(w.fields(), "key"@) is Str
}

/// The key a well-shaped insert response carries.
pub open spec fn insert_key_of(w: JsonValue) -> Seq<char>
    recommends
        insert_key_ok(w),
{
    entry_value(w.fields(), "key"@)->Str_0@
}

/// Maps an insert exchange's outcome: a 409 is a key collision, a 400 a
/// malformed request, any other non-success a server error, and a
/// success body must carry the stored key.
pub fn insert_response(reply: Option<Response>) -> (r: Result<String, Error>)
    ensures
        reply is None ==> r == Err::<String, Error>(Error::RequestSendError),
        reply matches Some(rsp) && !success_status(rsp.status) && rsp.status == 409 ==> r == Err::<
            String,
            Error,
        >(Error::KeyConflict),
        reply matches Some(rsp) && !success_status(rsp.status) && rsp.status != 409 && rsp.status
            == 400 ==> r == Err::<String, Error>(Error::BadRequest),
        reply matches Some(rsp) && !success_status(rsp.status) && rsp.status != 409 && rsp.status
            != 400 ==> r == Err::<String, Error>(Error::ServerError),
        reply matches Some(rsp) && success_status(rsp.status) && rsp.body is None ==> r == Err::<
            String,
            Error,
        >(Error::JSONDeserializingFailed),
        match reply {
            Some(rsp) => success_status(rsp.status) ==> match rsp.body {
                Some(w) => {
                    &&& insert_key_ok(w) ==> {
                        &&& r matches Ok(k)
                        &&& k@ == insert_key_of(w)
                    }
                    &&& !insert_key_ok(w) ==> r == Err::<String, Error>(Error::ServerError)
                },
                None => true,
            },
            None => true,
        },
{
    match reply {
        None => Err(Error::RequestSendError),
        Some(rsp) => {
            if !is_success(rsp.status) {
                if rsp.status == 409 {
                    return Err(Error::KeyConflict);
                }
                if rsp.status == 400 {
                    return Err(Error::BadRequest);
                }
                return Err(Error::ServerError);
            }
            match rsp.body {
                None => Err(Error::JSONDeserializingFailed),
                Some(w) => {
                    match &w {
                        JsonValue::Obj(es) => {
                            match get_entry(es, &"key".to_owned()) {
                                Some(JsonValue::Str(s)) => Ok(s.clone()),
                                _ => Err(Error::ServerError),
                            }
                        },
                        _ => Err(Error::ServerError),
                    }
                },
            }
        },
    }
}

/// Maps an update exchange's outcome: a 404 means the key does not
/// exist, a 400 a malformed request, any other non-success a server
/// error.
pub fn update_response(reply: Option<Response>) -> (r: Result<(), Error>)
    ensures
        reply is None ==> r == Err::<(), Error>(Error::RequestSendError),
        reply matches Some(rsp) && !success_status(rsp.status) && rsp.status == 404 ==> r == Err::<
            (),
            Error,
        >(Error::KeyNonexistent),
        reply matches Some(rsp) && !success_status(rsp.status) && rsp.status != 404 && rsp.status
            == 400 ==> r == Err::<(), Error>(Error::BadRequest),
        reply matches Some(rsp) && !success_status(rsp.status) && rsp.status != 404 && rsp.status
            != 400 ==> r == Err::<(), Error>(Error::ServerError),
        reply matches Some(rsp) && success_status(rsp.status) ==> r == Ok::<(), Error>(()),
{
    match reply {
        None => Err(Error::RequestSendError),
        Some(rsp) => {
            if !is_success(rsp.status) {
                if rsp.status == 404 {
                    return Err(Error::KeyNonexistent);
                }
                if rsp.status == 400 {
                    return Err(Error::BadRequest);
                }
                return Err(Error::ServerError);
            }
            Ok(())
        },
    }
}

} // verus!
