//! A plain model of JSON values, for the responses and request bodies the
//! library inspects or builds.

use vstd::prelude::*;
use crate::text::str_eq;

verus! {

/// A JSON value. Numbers keep their text; object members keep their order.
pub enum Json {
    Null,
    Bool(bool),
    Number(String),
    Str(String),
    Array(Vec<Json>),
    Object(Vec<(String, Json)>),
}

/// The value of the first member named `key` of an object (`Value::get`);
/// `None` for other values.
pub open spec fn get_spec(v: Json, key: Seq<char>) -> Option<Json> {
    match v {
        Json::Object(entries) => member(entries@, key),
        _ => None,
    }
}

/// The value of the first member named `key`.
pub open spec fn member(entries: Seq<(String, Json)>, key: Seq<char>) -> Option<Json>
    decreases entries.len(),
{
    if entries.len() == 0 {
        None
    } else if entries[0].0@ == key {
        Some(entries[0].1)
    } else {
        member(entries.drop_first(), key)
    }
}

/// `Value::get(key)`.
pub fn get<'a>(v: &'a Json, key: &str) -> (r: Option<&'a Json>)
    ensures
        match r {
            Some(x) => get_spec(*v, key@) == Some(*x),
            None => get_spec(*v, key@) is None,
        },
{
    match v {
        Json::Object(entries) => {
            let n = entries.len();
            let mut i: usize = 0;
            assert(entries@.subrange(0, n as int) == entries@);
            assert(get_spec(*v, key@) == member(entries@, key@));
            while i < n
                invariant
                    i <= n == entries@.len(),
                    get_spec(*v, key@) == member(entries@, key@),
                    member(entries@, key@) == member(entries@.subrange(i as int, n as int), key@),
                decreases n - i,
            {
                assert(entries@.subrange(i as int, n as int)[0] == entries@[i as int]);
                if str_eq(entries[i].0.as_str(), key) {
                    return Some(&entries[i].1);
                }
                assert(entries@.subrange(i as int, n as int).drop_first() == entries@.subrange(
                    i as int + 1,
                    n as int,
                ));
                i = i + 1;
            }
            None
        },
        _ => None,
    }
}

} // verus!
