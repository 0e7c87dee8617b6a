//! The on-disk account record: one JSON file per account, with `id`,
//! `email` and a `token` object. Parsing composes a handful of trusted
//! serde_json calls; which fields are required, and what record they yield,
//! is decided by the verified [`token_from_parts`]. The write-back
//! computations rebuild the document with one field group replaced and every
//! other field preserved; the process around this module reads and writes
//! the files themselves.
//!
//! The trusted surface speaks through six named projections of serde_json's
//! results (a parse, an object's map of entries, the string / integer
//! content of a value, and the rendering). JSON values have no plain-value
//! form, so the names carry the declared opaque types `serde_json::Value`
//! and `serde_json::Map`; keys and leaf contents are plain sequences.

use vstd::prelude::*;
use crate::token_manager::ProxyToken;

verus! {

#[verifier::external_type_specification]
#[verifier::external_body]
pub struct ExValue(serde_json::Value);

#[verifier::external_type_specification]
#[verifier::external_body]
#[verifier::reject_recursive_types(K)]
#[verifier::reject_recursive_types(V)]
pub struct ExMap<K, V>(serde_json::Map<K, V>);

/// What serde_json::from_str::<Value> yields on this text, a function of
/// the text alone (`None` stands for a parse error).
pub uninterp spec fn parsed_doc(s: Seq<char>) -> Option<serde_json::Value>;

/// The map behind a `Value` that is an object; `None` for every other
/// variant. This is what `Value::as_object` exposes.
pub uninterp spec fn obj_of(v: serde_json::Value) -> Option<
    serde_json::Map<String, serde_json::Value>,
>;

/// The entries a `serde_json::Map` holds, keyed by the text of its keys.
pub uninterp spec fn obj_entries(m: serde_json::Map<String, serde_json::Value>) -> Map<
    Seq<char>,
    serde_json::Value,
>;

/// The text behind a `Value` that is a string (`Value::as_str`); `None` for
/// every other variant.
pub uninterp spec fn str_content(v: serde_json::Value) -> Option<Seq<char>>;

/// The integer behind a `Value` that is a number representable as i64
/// (`Value::as_i64`); `None` otherwise.
pub uninterp spec fn int_content(v: serde_json::Value) -> Option<i64>;

/// The pretty-printed rendering of a value (`serde_json::to_string_pretty`),
/// a function of the value alone.
pub uninterp spec fn pretty_of(v: serde_json::Value) -> Seq<char>;

/// The entries of an empty object.
pub open spec fn empty_entries() -> Map<Seq<char>, serde_json::Value> {
    Map::empty()
}

/// Relies on serde_json::from_str::<Value>: parses a JSON document, `None`
/// on malformed input; the result depends on the text alone.
#[verifier::external_body]
fn json_parse(content: &str) -> (r: Option<serde_json::Value>)
    ensures
        r == parsed_doc(content@),
{
    serde_json::from_str::<serde_json::Value>(content).ok()
}

/// Relies on serde_json::Value: an object value gives up its map; any other
/// variant gives `None`.
#[verifier::external_body]
fn value_into_object(v: serde_json::Value) -> (r: Option<
    serde_json::Map<String, serde_json::Value>,
>)
    ensures
        match r {
            Some(m) => obj_of(v) == Some(m),
            None => obj_of(v) is None,
        },
{
    match v {
        serde_json::Value::Object(m) => Some(m),
        _ => None,
    }
}

/// Relies on serde_json::Value::as_object: borrows the map of an object
/// value.
#[verifier::external_body]
fn value_as_object<'a>(v: &'a serde_json::Value) -> (r: Option<
    &'a serde_json::Map<String, serde_json::Value>,
>)
    ensures
        match r {
            Some(m) => obj_of(*v) == Some(*m),
            None => obj_of(*v) is None,
        },
{
    v.as_object()
}

/// Relies on serde_json::Value::Object: wraps a map back into a value.
#[verifier::external_body]
fn object_into_value(m: serde_json::Map<String, serde_json::Value>) -> (r: serde_json::Value)
    ensures
        obj_of(r) == Some(m),
{
    serde_json::Value::Object(m)
}

/// Relies on serde_json::Map::new: the empty object.
#[verifier::external_body]
fn new_object() -> (r: serde_json::Map<String, serde_json::Value>)
    ensures
        obj_entries(r) == empty_entries(),
{
    serde_json::Map::new()
}

/// Relies on serde_json::Map::get: looks a key up in an object.
#[verifier::external_body]
fn map_get<'a>(m: &'a serde_json::Map<String, serde_json::Value>, key: &str) -> (r: Option<
    &'a serde_json::Value,
>)
    ensures
        match r {
            Some(v) => obj_entries(*m).dom().contains(key@) && *v == obj_entries(*m)[key@],
            None => !obj_entries(*m).dom().contains(key@),
        },
{
    m.get(key)
}

/// Relies on serde_json::Map::remove: takes a key out of an object.
#[verifier::external_body]
fn map_remove(m: &mut serde_json::Map<String, serde_json::Value>, key: &str) -> (r: Option<
    serde_json::Value,
>)
    ensures
        obj_entries(*final(m)) == obj_entries(*old(m)).remove(key@),
        match r {
            Some(v) => obj_entries(*old(m)).dom().contains(key@) && v == obj_entries(*old(m))[key@],
            None => !obj_entries(*old(m)).dom().contains(key@),
        },
{
    m.remove(key)
}

/// Relies on serde_json::Map::insert: binds a key, returning what it
/// replaced.
#[verifier::external_body]
fn map_insert(
    m: &mut serde_json::Map<String, serde_json::Value>,
    key: &str,
    v: serde_json::Value,
) -> (r: Option<serde_json::Value>)
    ensures
        obj_entries(*final(m)) == obj_entries(*old(m)).insert(key@, v),
        match r {
            Some(prev) => obj_entries(*old(m)).dom().contains(key@) && prev == obj_entries(
                *old(m),
            )[key@],
            None => !obj_entries(*old(m)).dom().contains(key@),
        },
{
    m.insert(key.to_owned(), v)
}

/// Relies on serde_json::Value::as_str: the content of a string value.
#[verifier::external_body]
fn value_as_string(v: &serde_json::Value) -> (r: Option<String>)
    ensures
        match r {
            Some(s) => str_content(*v) == Some(s@),
            None => str_content(*v) is None,
        },
{
    match v.as_str() {
        Some(s) => Some(s.to_owned()),
        None => None,
    }
}

/// Relies on serde_json::Value::as_i64: a number value that fits in i64.
#[verifier::external_body]
fn value_as_i64(v: &serde_json::Value) -> (r: Option<i64>)
    ensures
        match r {
            Some(n) => int_content(*v) == Some(n),
            None => int_content(*v) is None,
        },
{
    v.as_i64()
}

/// Relies on serde_json::Value::String: builds a string value.
#[verifier::external_body]
fn string_value(s: &str) -> (r: serde_json::Value)
    ensures
        str_content(r) == Some(s@),
{
    serde_json::Value::String(s.to_owned())
}

/// Relies on serde_json::Number::from::<i64>: builds a number value that
/// reads back as the same integer.
#[verifier::external_body]
fn i64_value(n: i64) -> (r: serde_json::Value)
    ensures
        int_content(r) == Some(n),
{
    serde_json::Value::Number(serde_json::Number::from(n))
}

/// Relies on serde_json::to_string_pretty: renders a value with readable
/// indentation. On a `Value` (string keys throughout) serialization cannot
/// fail.
#[verifier::external_body]
fn to_pretty_string(v: &serde_json::Value) -> (r: Option<String>)
    ensures
        r is Some,
        r matches Some(out) ==> out@ == pretty_of(*v),
{
    serde_json::to_string_pretty(v).ok()
}

/// The entries of the document, when it parses as a JSON object.
pub open spec fn doc_entries(s: Seq<char>) -> Option<Map<Seq<char>, serde_json::Value>> {
    match parsed_doc(s) {
        Some(v) => match obj_of(v) {
            Some(m) => Some(obj_entries(m)),
            None => None,
        },
        None => None,
    }
}

/// The string under `key`, when present and a string.
pub open spec fn field_str(entries: Map<Seq<char>, serde_json::Value>, key: Seq<char>) -> Option<
    Seq<char>,
> {
    if entries.dom().contains(key) {
        str_content(entries[key])
    } else {
        None
    }
}

/// The integer under `key`, when present and an i64 number.
pub open spec fn field_int(entries: Map<Seq<char>, serde_json::Value>, key: Seq<char>) -> Option<
    i64,
> {
    if entries.dom().contains(key) {
        int_content(entries[key])
    } else {
        None
    }
}

/// The entries of the root's `token` object; empty when `token` is absent
/// or not an object.
pub open spec fn token_entries_of(root: Map<Seq<char>, serde_json::Value>) -> Map<
    Seq<char>,
    serde_json::Value,
> {
    if root.dom().contains("token"@) {
        match obj_of(root["token"@]) {
            Some(m) => obj_entries(m),
            None => Map::empty(),
        }
    } else {
        Map::empty()
    }
}

/// All six required account fields parse out of the document's entries.
pub open spec fn required_fields_present(root: Map<Seq<char>, serde_json::Value>) -> bool {
    let tok = token_entries_of(root);
    &&& field_str(root, "id"@) is Some
    &&& field_str(root, "email"@) is Some
    &&& field_str(tok, "access_token"@) is Some
    &&& field_str(tok, "refresh_token"@) is Some
    &&& field_int(tok, "expires_in"@) is Some
    &&& field_int(tok, "expiry_timestamp"@) is Some
}

/// `new_e` is `old_e` with exactly the `changed` keys rebound (added or
/// overwritten) and every other entry kept verbatim.
pub open spec fn preserves_except(
    old_e: Map<Seq<char>, serde_json::Value>,
    new_e: Map<Seq<char>, serde_json::Value>,
    changed: Set<Seq<char>>,
) -> bool {
    &&& new_e.dom() == old_e.dom().union(changed)
    &&& forall|k: Seq<char>|
        old_e.dom().contains(k) && !changed.contains(k) ==> #[trigger] new_e[k] == old_e[k]
}

pub open spec fn has_string_at(
    entries: Map<Seq<char>, serde_json::Value>,
    key: Seq<char>,
    s: Seq<char>,
) -> bool {
    entries.dom().contains(key) && str_content(entries[key]) == Some(s)
}

pub open spec fn has_int_at(
    entries: Map<Seq<char>, serde_json::Value>,
    key: Seq<char>,
    n: i64,
) -> bool {
    entries.dom().contains(key) && int_content(entries[key]) == Some(n)
}

/// `root1` is `root0` with its `token` object carrying `project_id = pid`
/// and everything else, in the root and in the token object, preserved.
pub open spec fn project_update_ok(
    root0: Map<Seq<char>, serde_json::Value>,
    root1: Map<Seq<char>, serde_json::Value>,
    pid: Seq<char>,
) -> bool {
    let tok0 = token_entries_of(root0);
    &&& preserves_except(root0, root1, set!["token"@])
    &&& root1.dom().contains("token"@)
    &&& match obj_of(root1["token"@]) {
        Some(m) => {
            let tok1 = obj_entries(m);
            &&& preserves_except(tok0, tok1, set!["project_id"@])
            &&& has_string_at(tok1, "project_id"@, pid)
        },
        None => false,
    }
}

/// `root1` is `root0` with the three refreshed token fields rebound and
/// everything else preserved.
pub open spec fn refresh_update_ok(
    root0: Map<Seq<char>, serde_json::Value>,
    root1: Map<Seq<char>, serde_json::Value>,
    access: Seq<char>,
    expires_in: i64,
    expiry_timestamp: i64,
) -> bool {
    let tok0 = token_entries_of(root0);
    &&& preserves_except(root0, root1, set!["token"@])
    &&& root1.dom().contains("token"@)
    &&& match obj_of(root1["token"@]) {
        Some(m) => {
            let tok1 = obj_entries(m);
            &&& preserves_except(
                tok0,
                tok1,
                set!["access_token"@, "expires_in"@, "expiry_timestamp"@],
            )
            &&& has_string_at(tok1, "access_token"@, access)
            &&& has_int_at(tok1, "expires_in"@, expires_in)
            &&& has_int_at(tok1, "expiry_timestamp"@, expiry_timestamp)
        },
        None => false,
    }
}

/// Some value renders to `out` and is an object with exactly these entries.
pub open spec fn renders_entries(entries: Map<Seq<char>, serde_json::Value>, out: Seq<char>) -> bool {
    exists|v: serde_json::Value|
        {
            &&& #[trigger] pretty_of(v) == out
            &&& match obj_of(v) {
                Some(m) => obj_entries(m) == entries,
                None => false,
            }
        }
}

/// Decides what a scanned file yields: a record exactly when every required
/// field was present; `project_id` stays optional; the record copies the
/// fields verbatim and remembers the file it came from.
pub fn token_from_parts(
    id: Option<String>,
    email: Option<String>,
    access_token: Option<String>,
    refresh_token: Option<String>,
    expires_in: Option<i64>,
    expiry_timestamp: Option<i64>,
    project_id: Option<String>,
    account_path: &str,
) -> (r: Option<ProxyToken>)
    ensures
        (r is Some) <==> (id is Some && email is Some && access_token is Some && refresh_token
            is Some && expires_in is Some && expiry_timestamp is Some),
        r matches Some(t) ==> {
            &&& id matches Some(v) && t.account_id == v
            &&& email matches Some(v) && t.email == v
            &&& access_token matches Some(v) && t.access_token == v
            &&& refresh_token matches Some(v) && t.refresh_token == v
            &&& expires_in matches Some(v) && t.expires_in == v
            &&& expiry_timestamp matches Some(v) && t.timestamp == v
            &&& t.project_id == project_id
            &&& t.account_path@ == account_path@
        },
{
    match (id, email, access_token, refresh_token, expires_in, expiry_timestamp) {
        (Some(id), Some(email), Some(access_token), Some(refresh_token), Some(ei), Some(ts)) => {
            Some(
                ProxyToken {
                    account_id: id,
                    access_token: access_token,
                    refresh_token: refresh_token,
                    expires_in: ei,
                    timestamp: ts,
                    email: email,
                    account_path: account_path.to_owned(),
                    project_id: project_id,
                },
            )
        },
        _ => None,
    }
}

/// Parses one account file. `None` stands for a file to skip with a
/// warning: malformed JSON, a non-object document, or a missing required
/// field. The required fields are `id`, `email` and, under `token`,
/// `access_token`, `refresh_token`, `expires_in` and `expiry_timestamp`;
/// `token.project_id` is optional. The record carries exactly the parsed
/// fields.
pub fn load_single_account(content: &str, path: &str) -> (r: Option<ProxyToken>)
    ensures
        (r is Some) <==> (doc_entries(content@) matches Some(root) && required_fields_present(
            root,
        )),
        r matches Some(t) ==> (doc_entries(content@) matches Some(root) && ({
            let tok = token_entries_of(root);
            &&& field_str(root, "id"@) == Some(t.account_id@)
            &&& field_str(root, "email"@) == Some(t.email@)
            &&& field_str(tok, "access_token"@) == Some(t.access_token@)
            &&& field_str(tok, "refresh_token"@) == Some(t.refresh_token@)
            &&& field_int(tok, "expires_in"@) == Some(t.expires_in)
            &&& field_int(tok, "expiry_timestamp"@) == Some(t.timestamp)
            &&& match t.project_id {
                Some(p) => field_str(tok, "project_id"@) == Some(p@),
                None => field_str(tok, "project_id"@) is None,
            }
            &&& t.account_path@ == path@
        })),
{
    let root_v = match json_parse(content) {
        Some(v) => v,
        None => {
            return None;
        },
    };
    let root = match value_into_object(root_v) {
        Some(m) => m,
        None => {
            return None;
        },
    };
    let id = match map_get(&root, "id") {
        Some(v) => value_as_string(v),
        None => None,
    };
    let email = match map_get(&root, "email") {
        Some(v) => value_as_string(v),
        None => None,
    };
    let mut access_token: Option<String> = None;
    let mut refresh_token: Option<String> = None;
    let mut expires_in: Option<i64> = None;
    let mut expiry_timestamp: Option<i64> = None;
    let mut project_id: Option<String> = None;
    match map_get(&root, "token") {
        Some(tok_v) => {
            match value_as_object(tok_v) {
                Some(tok) => {
                    access_token = match map_get(tok, "access_token") {
                        Some(v) => value_as_string(v),
                        None => None,
                    };
                    refresh_token = match map_get(tok, "refresh_token") {
                        Some(v) => value_as_string(v),
                        None => None,
                    };
                    expires_in = match map_get(tok, "expires_in") {
                        Some(v) => value_as_i64(v),
                        None => None,
                    };
                    expiry_timestamp = match map_get(tok, "expiry_timestamp") {
                        Some(v) => value_as_i64(v),
                        None => None,
                    };
                    project_id = match map_get(tok, "project_id") {
                        Some(v) => value_as_string(v),
                        None => None,
                    };
                },
                None => {},
            }
        },
        None => {},
    }
    token_from_parts(
        id,
        email,
        access_token,
        refresh_token,
        expires_in,
        expiry_timestamp,
        project_id,
        path,
    )
}

/// The document with `token.project_id` replaced and everything else kept:
/// what the store writes back after project-id resolution. `None` exactly
/// on a document that does not parse as an object.
pub fn updated_project_json(content: &str, project_id: &str) -> (r: Option<String>)
    ensures
        (r is Some) <==> doc_entries(content@) is Some,
        r matches Some(out) ==> (doc_entries(content@) matches Some(root0) && exists|
            root1: Map<Seq<char>, serde_json::Value>,
        |
            {
                &&& #[trigger] renders_entries(root1, out@)
                &&& project_update_ok(root0, root1, project_id@)
            }),
{
    let root_v = match json_parse(content) {
        Some(v) => v,
        None => {
            return None;
        },
    };
    let mut root = match value_into_object(root_v) {
        Some(m) => m,
        None => {
            return None;
        },
    };
    let ghost root0 = obj_entries(root);
    let mut tok = match map_remove(&mut root, "token") {
        Some(tv) => {
            match value_into_object(tv) {
                Some(m) => m,
                None => new_object(),
            }
        },
        None => new_object(),
    };
    proof {
        assert(obj_entries(tok) =~= token_entries_of(root0));
    }
    map_insert(&mut tok, "project_id", string_value(project_id));
    let ghost tok1 = obj_entries(tok);
    let tok_v = object_into_value(tok);
    map_insert(&mut root, "token", tok_v);
    let ghost root1 = obj_entries(root);
    proof {
        assert(root1.dom() =~= root0.dom().union(set!["token"@]));
        assert(tok1.dom() =~= token_entries_of(root0).dom().union(set!["project_id"@]));
        assert(project_update_ok(root0, root1, project_id@));
    }
    let root_v2 = object_into_value(root);
    let out = match to_pretty_string(&root_v2) {
        Some(s) => s,
        None => {
            return None;
        },
    };
    proof {
        assert(pretty_of(root_v2) == out@);
        assert(renders_entries(root1, out@));
    }
    Some(out)
}

/// The document with `token.access_token`, `token.expires_in` and
/// `token.expiry_timestamp = now + expires_in` replaced and everything else
/// kept: what the store writes back after an OAuth refresh. `None` exactly
/// on a document that does not parse as an object.
pub fn updated_refresh_json(content: &str, access_token: &str, expires_in: i64, now_unix: i64) -> (r:
    Option<String>)
    requires
        0 <= expires_in,
        now_unix + expires_in <= i64::MAX,
    ensures
        (r is Some) <==> doc_entries(content@) is Some,
        r matches Some(out) ==> (doc_entries(content@) matches Some(root0) && exists|
            root1: Map<Seq<char>, serde_json::Value>,
        |
            {
                &&& #[trigger] renders_entries(root1, out@)
                &&& refresh_update_ok(
                    root0,
                    root1,
                    access_token@,
                    expires_in,
                    (now_unix + expires_in) as i64,
                )
            }),
{
    let root_v = match json_parse(content) {
        Some(v) => v,
        None => {
            return None;
        },
    };
    let mut root = match value_into_object(root_v) {
        Some(m) => m,
        None => {
            return None;
        },
    };
    let ghost root0 = obj_entries(root);
    let mut tok = match map_remove(&mut root, "token") {
        Some(tv) => {
            match value_into_object(tv) {
                Some(m) => m,
                None => new_object(),
            }
        },
        None => new_object(),
    };
    proof {
        assert(obj_entries(tok) =~= token_entries_of(root0));
    }
    map_insert(&mut tok, "access_token", string_value(access_token));
    map_insert(&mut tok, "expires_in", i64_value(expires_in));
    map_insert(&mut tok, "expiry_timestamp", i64_value(now_unix + expires_in));
    let ghost tok1 = obj_entries(tok);
    let ghost tokm = tok;
    let tok_v = object_into_value(tok);
    let ghost tv = tok_v;
    map_insert(&mut root, "token", tok_v);
    let ghost root1 = obj_entries(root);
    proof {
        broadcast use vstd::string::group_string_axioms;

        reveal_strlit("access_token");
        reveal_strlit("expires_in");
        reveal_strlit("expiry_timestamp");
        assert("access_token"@.len() == 12);
        assert("expires_in"@.len() == 10);
        assert("expiry_timestamp"@.len() == 16);
        assert("access_token"@ != "expires_in"@);
        assert("access_token"@ != "expiry_timestamp"@);
        assert("expires_in"@ != "expiry_timestamp"@);
        let changed = set!["access_token"@, "expires_in"@, "expiry_timestamp"@];
        let tok0 = token_entries_of(root0);
        assert(root1.dom() =~= root0.dom().union(set!["token"@]));
        assert(tok1.dom() =~= tok0.dom().union(changed));
        assert(preserves_except(root0, root1, set!["token"@]));
        assert(preserves_except(tok0, tok1, changed));
        assert(root1["token"@] == tv);
        assert(obj_of(tv) == Some(tokm) && obj_entries(tokm) == tok1);
        assert(has_string_at(tok1, "access_token"@, access_token@));
        assert(has_int_at(tok1, "expires_in"@, expires_in));
        assert(has_int_at(tok1, "expiry_timestamp"@, (now_unix + expires_in) as i64));
        assert(refresh_update_ok(
            root0,
            root1,
            access_token@,
            expires_in,
            (now_unix + expires_in) as i64,
        ));
    }
    let root_v2 = object_into_value(root);
    let out = match to_pretty_string(&root_v2) {
        Some(s) => s,
        None => {
            return None;
        },
    };
    proof {
        assert(pretty_of(root_v2) == out@);
        assert(renders_entries(root1, out@));
    }
    Some(out)
}

} // verus!
