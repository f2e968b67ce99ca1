//! A plain model of a JSON document, as the management API and the
//! configuration files carry it, with the lookups the library reads it by.
use vstd::prelude::*;
use crate::text::{owned, str_eq};

verus! {

/// A JSON value. `Number` holds `Some(n)` for a non-negative integer that
/// fits in `u64` and `None` for every other number (negative or fractional),
/// which is all that the library ever reads of a number.
/// The entries of an `Object` have distinct keys.
#[derive(Debug)]
pub enum Json {
    Null,
    Bool(bool),
    Number(Option<u64>),
    Str(String),
    Array(Vec<Json>),
    Object(Vec<(String, Json)>),
}

/// The value stored under `key` among object entries (the first such entry).
pub open spec fn entry_lookup(entries: Seq<(String, Json)>, key: Seq<char>) -> Option<Json>
    decreases entries.len(),
{
    if entries.len() == 0 {
        None
    } else if entries[0].0@ == key {
        Some(entries[0].1)
    } else {
        entry_lookup(entries.drop_first(), key)
    }
}

/// `value[key]` for an object, `None` for anything else (serde_json's `Value::get`).
pub open spec fn json_get(v: Json, key: Seq<char>) -> Option<Json> {
    match v {
        Json::Object(entries) => entry_lookup(entries@, key),
        _ => None,
    }
}

/// `json_get` lifted to an optional value.
pub open spec fn opt_get(v: Option<Json>, key: Seq<char>) -> Option<Json> {
    match v {
        Some(j) => json_get(j, key),
        None => None,
    }
}

/// The text of a string value.
pub open spec fn as_str(v: Option<Json>) -> Option<Seq<char>> {
    match v {
        Some(Json::Str(s)) => Some(s@),
        _ => None,
    }
}

/// The truth value of a boolean value.
pub open spec fn as_bool(v: Option<Json>) -> Option<bool> {
    match v {
        Some(Json::Bool(b)) => Some(b),
        _ => None,
    }
}

/// A non-negative integer value that fits in `u64`.
pub open spec fn as_u64(v: Option<Json>) -> Option<u64> {
    match v {
        Some(Json::Number(Some(n))) => Some(n),
        _ => None,
    }
}

/// The texts of the string items of an array, in order, other items skipped.
pub open spec fn str_items(items: Seq<Json>) -> Seq<Seq<char>>
    decreases items.len(),
{
    if items.len() == 0 {
        Seq::empty()
    } else {
        let init = str_items(items.drop_last());
        match items.last() {
            Json::Str(s) => init.push(s@),
            _ => init,
        }
    }
}

/// The string items of an array value; empty for anything but an array.
pub open spec fn string_items(v: Option<Json>) -> Seq<Seq<char>> {
    match v {
        Some(Json::Array(items)) => str_items(items@),
        _ => Seq::empty(),
    }
}

/// The views of a sequence of strings.
pub open spec fn views(v: Seq<String>) -> Seq<Seq<char>> {
    v.map_values(|s: String| s@)
}

/// `value.get(key)`: the value stored under `key` when `value` is an object.
pub fn get<'a>(v: &'a Json, key: &str) -> (r: Option<&'a Json>)
    ensures
        match r {
            Some(x) => json_get(*v, key@) == Some(*x),
            None => json_get(*v, key@) is None,
        },
{
    match v {
        Json::Object(entries) => {
            let mut i: usize = 0;
            proof {
                assert(entries@.skip(0) =~= entries@);
            }
            while i < entries.len()
                invariant
                    i <= entries.len(),
                    json_get(*v, key@) == entry_lookup(entries@, key@),
                    entry_lookup(entries@, key@) == entry_lookup(entries@.skip(i as int), key@),
                decreases entries.len() - i,
            {
                let (k, val) = &entries[i];
                proof {
                    assert(entries@.skip(i as int).drop_first() =~= entries@.skip(i + 1));
                }
                if str_eq(k.as_str(), key) {
                    proof {
                        assert(entries@.skip(i as int)[0] == entries@[i as int]);
                    }
                    return Some(val);
                }
                i += 1;
            }
            proof {
                assert(entries@.skip(i as int) =~= Seq::<(String, Json)>::empty());
            }
            None
        },
        _ => None,
    }
}

/// `get` on an optional value.
pub fn get_opt<'a>(v: Option<&'a Json>, key: &str) -> (r: Option<&'a Json>)
    ensures
        match r {
            Some(x) => opt_get(opt_ref(v), key@) == Some(*x),
            None => opt_get(opt_ref(v), key@) is None,
        },
{
    match v {
        Some(j) => get(j, key),
        None => None,
    }
}

/// An optional reference read as an optional value.
pub open spec fn opt_ref(v: Option<&Json>) -> Option<Json> {
    match v {
        Some(x) => Some(*x),
        None => None,
    }
}

/// `as_str` on an optional value: the string's text.
pub fn str_of<'a>(v: Option<&'a Json>) -> (r: Option<&'a String>)
    ensures
        match r {
            Some(s) => as_str(opt_ref(v)) == Some(s@),
            None => as_str(opt_ref(v)) is None,
        },
{
    match v {
        Some(Json::Str(s)) => Some(s),
        _ => None,
    }
}

/// `as_bool` on an optional value.
pub fn bool_of(v: Option<&Json>) -> (r: Option<bool>)
    ensures
        r == as_bool(opt_ref(v)),
{
    match v {
        Some(Json::Bool(b)) => Some(*b),
        _ => None,
    }
}

/// `as_u64` on an optional value.
pub fn u64_of(v: Option<&Json>) -> (r: Option<u64>)
    ensures
        r == as_u64(opt_ref(v)),
{
    match v {
        Some(Json::Number(Some(n))) => Some(*n),
        _ => None,
    }
}

/// The string items of an optional array value, copied.
pub fn string_items_of(v: Option<&Json>) -> (r: Vec<String>)
    ensures
        views(r@) == string_items(opt_ref(v)),
{
    let mut out: Vec<String> = Vec::new();
    match v {
        Some(Json::Array(items)) => {
            let mut i: usize = 0;
            while i < items.len()
                invariant
                    i <= items.len(),
                    views(out@) == str_items(items@.take(i as int)),
                decreases items.len() - i,
            {
                proof {
                    assert(items@.take(i + 1).drop_last() =~= items@.take(i as int));
                }
                match &items[i] {
                    Json::Str(s) => {
                        out.push(owned(s.as_str()));
                        proof {
                            assert(views(out@) =~= views(out@.drop_last()).push(s@));
                        }
                    },
                    _ => {},
                }
                i += 1;
            }
            proof {
                assert(items@.take(items@.len() as int) =~= items@);
            }
        },
        _ => {
            proof {
                assert(views(out@) =~= Seq::<Seq<char>>::empty());
            }
        },
    }
    out
}


/// A copy of a list of strings.
pub fn copy_strings(v: &Vec<String>) -> (r: Vec<String>)
    ensures
        views(r@) == views(v@),
{
    let mut r: Vec<String> = Vec::new();
    let mut i: usize = 0;
    while i < v.len()
        invariant
            i <= v.len(),
            r@.len() == i,
            forall|k: int| 0 <= k < i ==> #[trigger] r@[k]@ == v@[k]@,
        decreases v.len() - i,
    {
        r.push(owned(v[i].as_str()));
        i += 1;
    }
    proof {
        assert(views(r@) =~= views(v@));
    }
    r
}

} // verus!
