//! JSON values as `serde_json` reads and writes them, and the few questions
//! that the records ask of one.
//!
//! A value is opaque here. What it holds is named by the spec functions
//! below, one for each accessor of `serde_json` that is called.
use crate::model::views;
use vstd::prelude::*;

verus! {

/// `serde_json::Value`, a JSON value. Nothing inside it is seen here.
#[verifier::external_type_specification]
#[verifier::external_body]
pub struct ExJsonValue(serde_json::Value);

/// The value that a text in JSON denotes, where it denotes one.
pub uninterp spec fn json_document(text: Seq<char>) -> Option<serde_json::Value>;

/// The member of an object under a key; `None` for a value that is no
/// object or has no such member.
pub uninterp spec fn json_member(value: serde_json::Value, key: Seq<char>) -> Option<
    serde_json::Value,
>;

/// The text of a value that is a string.
pub uninterp spec fn json_string(value: serde_json::Value) -> Option<Seq<char>>;

/// The number that a value is, where it is a whole number that is not
/// negative and fits in 64 bits.
pub uninterp spec fn json_number(value: serde_json::Value) -> Option<u64>;

/// The items of a value that is an array.
pub uninterp spec fn json_items(value: serde_json::Value) -> Option<Seq<serde_json::Value>>;

/// A value written out as JSON, where it can be written.
pub uninterp spec fn json_text(value: serde_json::Value) -> Option<Seq<char>>;

/// `serde_json::from_str` at the type `Value`: the value that the text
/// denotes, `None` where the text is no JSON. The result depends on the text
/// alone.
#[verifier::external_body]
pub(crate) fn parse_json(text: &str) -> (r: Option<serde_json::Value>)
    ensures
        r == json_document(text@),
{
    serde_json::from_str::<serde_json::Value>(text).ok()
}

/// `Value::get` with a string key: the member of an object under that key.
#[verifier::external_body]
pub(crate) fn member<'a>(value: &'a serde_json::Value, key: &str) -> (r: Option<&'a serde_json::Value>)
    ensures
        match r {
            Some(m) => json_member(*value, key@) == Some(*m),
            None => json_member(*value, key@) is None,
        },
{
    value.get(key)
}

/// `Value::as_str`, copied: the text of a string.
#[verifier::external_body]
pub(crate) fn as_string(value: &serde_json::Value) -> (r: Option<String>)
    ensures
        match r {
            Some(s) => json_string(*value) == Some(s@),
            None => json_string(*value) is None,
        },
{
    value.as_str().map(|s| s.to_owned())
}

/// `Value::as_u64`: the number, where it is whole, not negative and fits.
#[verifier::external_body]
pub(crate) fn as_number(value: &serde_json::Value) -> (r: Option<u64>)
    ensures
        r == json_number(*value),
{
    value.as_u64()
}

/// The values behind a list of references.
pub open spec fn referents(items: Seq<&serde_json::Value>) -> Seq<serde_json::Value> {
    items.map_values(|x: &serde_json::Value| *x)
}

/// `Value::as_array`: the items of an array, in order.
#[verifier::external_body]
pub(crate) fn items<'a>(value: &'a serde_json::Value) -> (r: Option<Vec<&'a serde_json::Value>>)
    ensures
        match r {
            Some(list) => json_items(*value) == Some(referents(list@)),
            None => json_items(*value) is None,
        },
{
    value.as_array().map(|a| a.iter().collect())
}

/// `serde_json::to_string` of a value: the value written out as JSON,
/// `None` where the serializer reports an error.
#[verifier::external_body]
pub(crate) fn write_json(value: &serde_json::Value) -> (r: Option<String>)
    ensures
        match r {
            Some(s) => json_text(*value) == Some(s@),
            None => json_text(*value) is None,
        },
{
    serde_json::to_string(value).ok()
}

/// The text of the member under `key`, where that member is a string.
pub open spec fn string_member(value: serde_json::Value, key: Seq<char>) -> Option<Seq<char>> {
    match json_member(value, key) {
        Some(m) => json_string(m),
        None => None,
    }
}

/// The member under `key` as a 32-bit number, where it is a whole number
/// that is not negative and fits.
pub open spec fn number_member(value: serde_json::Value, key: Seq<char>) -> Option<u32> {
    match json_member(value, key) {
        Some(m) => match json_number(m) {
            Some(n) if n <= u32::MAX => Some(n as u32),
            _ => None,
        },
        None => None,
    }
}

/// The texts of the items, where every item is a string.
pub open spec fn all_strings(items: Seq<serde_json::Value>) -> Option<Seq<Seq<char>>>
    decreases items.len(),
{
    if items.len() == 0 {
        Some(seq![])
    } else {
        match (all_strings(items.drop_last()), json_string(items.last())) {
            (Some(before), Some(s)) => Some(before.push(s)),
            _ => None,
        }
    }
}

/// The texts of the member under `key`, where that member is an array of
/// strings.
pub open spec fn strings_member(value: serde_json::Value, key: Seq<char>) -> Option<Seq<Seq<char>>> {
    match json_member(value, key) {
        Some(m) => match json_items(m) {
            Some(items) => all_strings(items),
            None => None,
        },
        None => None,
    }
}

/// Reads the member under `key` as a string.
pub(crate) fn read_string(value: &serde_json::Value, key: &str) -> (r: Option<String>)
    ensures
        crate::model::opt_view(r) == string_member(*value, key@),
{
    match member(value, key) {
        Some(m) => as_string(m),
        None => None,
    }
}

/// Reads the member under `key` as a 32-bit number.
pub(crate) fn read_number(value: &serde_json::Value, key: &str) -> (r: Option<u32>)
    ensures
        r == number_member(*value, key@),
{
    match member(value, key) {
        Some(m) => match as_number(m) {
            Some(n) => {
                if n <= 0xffff_ffff {
                    Some(n as u32)
                } else {
                    None
                }
            },
            None => None,
        },
        None => None,
    }
}

/// Reads the member under `key` as a list of strings.
pub(crate) fn read_strings(value: &serde_json::Value, key: &str) -> (r: Option<Vec<String>>)
    ensures
        match r {
            Some(list) => strings_member(*value, key@) == Some(views(list@)),
            None => strings_member(*value, key@) is None,
        },
{
    let list = match member(value, key) {
        Some(m) => match items(m) {
            Some(list) => list,
            None => {
                return None;
            },
        },
        None => {
            return None;
        },
    };
    let ghost all = referents(list@);
    let mut out: Vec<String> = Vec::new();
    let mut i: usize = 0;
    assert(views(out@) =~= Seq::<Seq<char>>::empty());
    while i < list.len()
        invariant
            i <= list.len(),
            all == referents(list@),
            strings_member(*value, key@) == all_strings(all),
            all_strings(all.take(i as int)) == Some(views(out@)),
        decreases list.len() - i,
    {
        proof {
            assert(all.take(i + 1).drop_last() =~= all.take(i as int));
            assert(all.take(i + 1).last() == *list@[i as int]);
        }
        match as_string(list[i]) {
            Some(s) => {
                proof {
                    crate::model::lemma_views_push(out@, s);
                }
                out.push(s);
            },
            None => {
                proof {
                    assert(all_strings(all.take(i + 1)) is None);
                    lemma_all_strings_fails(all, i + 1);
                }
                return None;
            },
        }
        i += 1;
    }
    assert(all.take(list.len() as int) == all);
    Some(out)
}

/// Once a prefix holds an item that is no string, the whole list does.
pub proof fn lemma_all_strings_fails(items: Seq<serde_json::Value>, n: int)
    requires
        0 <= n <= items.len(),
        all_strings(items.take(n)) is None,
    ensures
        all_strings(items) is None,
    decreases items.len() - n,
{
    if n < items.len() {
        assert(items.take(n + 1).drop_last() =~= items.take(n));
        lemma_all_strings_fails(items, n + 1);
    } else {
        assert(items.take(n) == items);
    }
}

} // verus!
