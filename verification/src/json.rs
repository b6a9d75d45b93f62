//! A JSON document model and the lookups the readers make in it.
//!
//! Numbers keep the text that `serde_json` prints for them: integers as
//! plain decimal digits (with a leading `-` when negative), every other
//! number with a decimal point or an exponent.

use vstd::prelude::*;
use crate::text::{chars_of, opt_view, windows_equal};

verus! {

/// A JSON value.
#[derive(Debug, PartialEq)]
pub enum Json {
    Null,
    Bool(bool),
    /// A number, by the text `serde_json` prints for it.
    Number(String),
    Str(String),
    Array(Vec<Json>),
    /// The members of an object, in order.
    Object(Vec<(String, Json)>),
}

/// Position of the first member named `key`.
pub open spec fn member_index(members: Seq<(String, Json)>, key: Seq<char>) -> Option<int>
    decreases members.len(),
{
    if members.len() == 0 {
        None
    } else if members[0].0@ == key {
        Some(0)
    } else {
        match member_index(members.drop_first(), key) {
            Some(i) => Some(i + 1),
            None => None,
        }
    }
}

/// The member `key` of an object (`Value::get`); `None` for other values.
pub open spec fn get(v: Json, key: Seq<char>) -> Option<Json> {
    match v {
        Json::Object(members) => match member_index(members@, key) {
            Some(i) => Some(members@[i].1),
            None => None,
        },
        _ => None,
    }
}

/// The text of a string value (`Value::as_str`).
pub open spec fn as_str(v: Json) -> Option<Seq<char>> {
    match v {
        Json::Str(s) => Some(s@),
        _ => None,
    }
}

/// The string member `key` of `v`.
pub open spec fn get_str(v: Json, key: Seq<char>) -> Option<Seq<char>> {
    match get(v, key) {
        Some(x) => as_str(x),
        None => None,
    }
}

/// The first of `keys` that names a string member of `v`, and that string.
pub open spec fn pick_string_spec(v: Json, keys: Seq<Seq<char>>) -> Option<Seq<char>>
    decreases keys.len(),
{
    if keys.len() == 0 {
        None
    } else {
        match get_str(v, keys[0]) {
            Some(s) => Some(s),
            None => pick_string_spec(v, keys.drop_first()),
        }
    }
}

/// The characters of each of a list of keys.
pub open spec fn key_views(keys: Seq<&str>) -> Seq<Seq<char>> {
    keys.map_values(|k: &str| k@)
}

/// Value of a decimal digit character.
pub open spec fn digit_value(c: char) -> int {
    (c as u32) - ('0' as u32)
}

pub open spec fn is_digit(c: char) -> bool {
    '0' <= c <= '9'
}

/// All characters are decimal digits.
pub open spec fn all_digits(s: Seq<char>) -> bool {
    forall|i: int| 0 <= i < s.len() ==> is_digit(#[trigger] s[i])
}

/// The number that a string of decimal digits denotes.
pub open spec fn decimal_value(s: Seq<char>) -> nat
    decreases s.len(),
{
    if s.len() == 0 {
        0
    } else {
        (decimal_value(s.drop_last()) * 10 + digit_value(s.last())) as nat
    }
}

/// A number text that `serde_json` holds as an unsigned integer
/// (`Value::as_u64`): digits only, and in range.
pub open spec fn number_u64(text: Seq<char>) -> Option<u64> {
    if text.len() > 0 && all_digits(text) && decimal_value(text) <= u64::MAX {
        Some(decimal_value(text) as u64)
    } else {
        None
    }
}

/// A number text that `serde_json` holds as a signed integer in range
/// (`Value::as_i64`).
pub open spec fn number_i64(text: Seq<char>) -> Option<i64> {
    if text.len() > 1 && text[0] == '-' && all_digits(text.skip(1)) && decimal_value(text.skip(1))
        <= 0x8000_0000_0000_0000 {
        Some((0 - decimal_value(text.skip(1))) as i64)
    } else if text.len() > 0 && all_digits(text) && decimal_value(text) <= i64::MAX {
        Some(decimal_value(text) as i64)
    } else {
        None
    }
}

/// `Value::as_u64`.
pub open spec fn as_u64(v: Json) -> Option<u64> {
    match v {
        Json::Number(t) => number_u64(t@),
        _ => None,
    }
}

/// `Value::as_i64`.
pub open spec fn as_i64(v: Json) -> Option<i64> {
    match v {
        Json::Number(t) => number_i64(t@),
        _ => None,
    }
}

/// A value that `integer` accepts: an unsigned integer, or a signed one
/// that is not negative.
pub open spec fn as_count(v: Json) -> Option<u64> {
    match as_u64(v) {
        Some(n) => Some(n),
        None => match as_i64(v) {
            Some(i) => if i >= 0 {
                Some(i as u64)
            } else {
                None
            },
            None => None,
        },
    }
}

/// The first of `keys` that names a member `integer` accepts, and its value.
pub open spec fn integer_spec(v: Json, keys: Seq<Seq<char>>) -> Option<u64>
    decreases keys.len(),
{
    if keys.len() == 0 {
        None
    } else {
        match get(v, keys[0]) {
            Some(x) => match as_count(x) {
                Some(n) => Some(n),
                None => integer_spec(v, keys.drop_first()),
            },
            None => integer_spec(v, keys.drop_first()),
        }
    }
}

/// Position of the first member named `key`.
pub fn member_position(members: &Vec<(String, Json)>, key: &str) -> (r: Option<usize>)
    ensures
        match r {
            Some(i) => member_index(members@, key@) == Some(i as int),
            None => member_index(members@, key@) is None,
        },
{
    let k = chars_of(key);
    let mut i: usize = 0;
    assert(members@.skip(0) =~= members@);
    while i < members.len()
        invariant
            i <= members.len(),
            k@ == key@,
            member_index(members@, key@) == match member_index(members@.skip(i as int), key@) {
                Some(j) => Some(j + i),
                None => None,
            },
        decreases members.len() - i,
    {
        let name = chars_of(members[i].0.as_str());
        let ghost rest = members@.skip(i as int);
        assert(rest[0] == members@[i as int]);
        assert(rest.drop_first() =~= members@.skip(i + 1));
        assert(name@.subrange(0, name@.len() as int) =~= name@);
        assert(k@.subrange(0, k@.len() as int) =~= k@);
        assert(name@ == members@[i as int].0@);
        if windows_equal(&name, 0, name.len(), &k, 0, k.len()) {
            assert(rest[0].0@ == key@);
            assert(member_index(rest, key@) == Some(0int));
            return Some(i);
        }
        i = i + 1;
    }
    assert(members@.skip(i as int).len() == 0);
    None
}

/// The member `key` of `v` (`Value::get`).
pub fn get_member<'a>(v: &'a Json, key: &str) -> (r: Option<&'a Json>)
    ensures
        match r {
            Some(x) => get(*v, key@) == Some(*x),
            None => get(*v, key@) is None,
        },
{
    match v {
        Json::Object(members) => match member_position(members, key) {
            Some(i) => {
                proof {
                    lemma_member_index_range(members@, key@);
                }
                Some(&members[i].1)
            },
            None => None,
        },
        _ => None,
    }
}

/// Takes the member `key` out of `value`, consuming it (`Value::get`
/// followed by a clone, without the clone).
pub fn take_member(value: Json, key: &str) -> (r: Option<Json>)
    ensures
        r == get(value, key@),
{
    match value {
        Json::Object(members) => match member_position(&members, key) {
            Some(i) => {
                proof {
                    lemma_member_index_range(members@, key@);
                }
                let mut members = members;
                let (_, member) = members.remove(i);
                Some(member)
            },
            None => None,
        },
        _ => None,
    }
}

/// The string member `key` of `v`.
pub fn get_str_member<'a>(v: &'a Json, key: &str) -> (r: Option<&'a String>)
    ensures
        match r {
            Some(s) => get_str(*v, key@) == Some(s@),
            None => get_str(*v, key@) is None,
        },
{
    match get_member(v, key) {
        Some(Json::Str(s)) => Some(s),
        _ => None,
    }
}

/// The first of `keys` that names a string member of `value`, and that
/// string.
pub fn pick_string<'a>(value: &'a Json, keys: &[&str]) -> (r: Option<&'a String>)
    ensures
        match r {
            Some(s) => pick_string_spec(*value, key_views(keys@)) == Some(s@),
            None => pick_string_spec(*value, key_views(keys@)) is None,
        },
{
    let mut i: usize = 0;
    assert(key_views(keys@).skip(0) =~= key_views(keys@));
    while i < keys.len()
        invariant
            i <= keys.len(),
            pick_string_spec(*value, key_views(keys@)) == pick_string_spec(
                *value,
                key_views(keys@).skip(i as int),
            ),
        decreases keys.len() - i,
    {
        let ghost rest = key_views(keys@).skip(i as int);
        assert(rest[0] == keys@[i as int]@);
        assert(rest.drop_first() =~= key_views(keys@).skip(i + 1));
        match get_str_member(value, keys[i]) {
            Some(s) => {
                return Some(s);
            },
            None => {},
        }
        i = i + 1;
    }
    assert(key_views(keys@).skip(i as int).len() == 0);
    None
}

proof fn lemma_decimal_value_push(s: Seq<char>, c: char)
    requires
        is_digit(c),
    ensures
        decimal_value(s.push(c)) == decimal_value(s) * 10 + digit_value(c),
{
    assert(s.push(c).drop_last() =~= s);
    assert(s.push(c).last() == c);
}

/// Parses a non-empty run of decimal digits `c[lo..hi]` that fits in a `u64`.
pub fn parse_digits(c: &Vec<char>, lo: usize, hi: usize) -> (r: Option<u64>)
    requires
        lo <= hi <= c.len(),
    ensures
        ({
            let t = c@.subrange(lo as int, hi as int);
            r == if t.len() > 0 && all_digits(t) && decimal_value(t) <= u64::MAX {
                Some(decimal_value(t) as u64)
            } else {
                None
            }
        }),
{
    let ghost t = c@.subrange(lo as int, hi as int);
    if lo == hi {
        return None;
    }
    let mut acc: u64 = 0;
    let mut i = lo;
    while i < hi
        invariant
            lo <= i <= hi <= c.len(),
            t == c@.subrange(lo as int, hi as int),
            all_digits(c@.subrange(lo as int, i as int)),
            acc == decimal_value(c@.subrange(lo as int, i as int)),
        decreases hi - i,
    {
        let ch = c[i];
        let ghost pre = c@.subrange(lo as int, i as int);
        assert(c@.subrange(lo as int, i + 1) =~= pre.push(ch));
        if !('0' <= ch && ch <= '9') {
            assert(t[i - lo] == ch);
            return None;
        }
        proof {
            lemma_decimal_value_push(pre, ch);
            assert(t.take(i - lo + 1) =~= pre.push(ch));
            assert(all_digits(pre.push(ch))) by {
                assert forall|j: int| 0 <= j < pre.push(ch).len() implies is_digit(#[trigger] pre.push(ch)[j]) by {
                    if j < pre.len() {
                        assert(pre.push(ch)[j] == pre[j]);
                    }
                }
            }
        }
        let d = (ch as u32 - '0' as u32) as u64;
        match acc.checked_mul(10) {
            Some(m) => match m.checked_add(d) {
                Some(n) => {
                    acc = n;
                },
                None => {
                    proof {
                        lemma_decimal_prefix_bound(t, i - lo + 1);
                    }
                    return None;
                },
            },
            None => {
                proof {
                    lemma_decimal_prefix_bound(t, i - lo + 1);
                }
                return None;
            },
        }
        i = i + 1;
    }
    assert(c@.subrange(lo as int, i as int) =~= t);
    Some(acc)
}

/// A number with a longer run of digits is at least as large as its prefix.
proof fn lemma_decimal_prefix_bound(t: Seq<char>, k: int)
    requires
        0 <= k <= t.len(),
        all_digits(t.take(k)),
    ensures
        all_digits(t) ==> decimal_value(t.take(k)) <= decimal_value(t),
    decreases t.len() - k,
{
    if k < t.len() && all_digits(t) {
        assert(t.take(k + 1).drop_last() =~= t.take(k));
        assert(is_digit(t[k]));
        lemma_decimal_prefix_bound(t, k + 1);
    } else if k == t.len() {
        assert(t.take(k) =~= t);
    }
}

/// `Value::as_u64` of a number text.
pub fn number_text_u64(text: &String) -> (r: Option<u64>)
    ensures
        r == number_u64(text@),
{
    let c = chars_of(text.as_str());
    assert(c@.subrange(0, c@.len() as int) =~= c@);
    parse_digits(&c, 0, c.len())
}

/// `Value::as_i64` of a number text.
pub fn number_text_i64(text: &String) -> (r: Option<i64>)
    ensures
        r == number_i64(text@),
{
    let c = chars_of(text.as_str());
    let n = c.len();
    assert(c@.subrange(0, n as int) =~= c@);
    if n > 1 && c[0] == '-' {
        assert(c@.subrange(1, n as int) =~= c@.skip(1));
        match parse_digits(&c, 1, n) {
            Some(m) => {
                if m <= 0x8000_0000_0000_0000u64 {
                    if m == 0x8000_0000_0000_0000u64 {
                        Some(i64::MIN)
                    } else {
                        Some(0 - (m as i64))
                    }
                } else {
                    None
                }
            },
            None => {
                proof {
                    let t = c@.skip(1);
                    if all_digits(t) && t.len() > 0 {
                        assert(decimal_value(t) > u64::MAX);
                    }
                    assert(!all_digits(c@)) by {
                        assert(!is_digit(c@[0]));
                    }
                }
                None
            },
        }
    } else {
        match parse_digits(&c, 0, n) {
            Some(m) => {
                if m <= i64::MAX as u64 {
                    Some(m as i64)
                } else {
                    None
                }
            },
            None => None,
        }
    }
}

/// `integer`: a non-negative integer member, by `Value::as_u64`, else by
/// `Value::as_i64`.
pub fn json_count(v: &Json) -> (r: Option<u64>)
    ensures
        r == as_count(*v),
{
    match v {
        Json::Number(t) => {
            match number_text_u64(t) {
                Some(n) => Some(n),
                None => match number_text_i64(t) {
                    Some(i) => if i >= 0 {
                        Some(i as u64)
                    } else {
                        None
                    },
                    None => None,
                },
            }
        },
        _ => None,
    }
}

/// The first of `keys` that names a non-negative integer member of `value`,
/// and its value.
pub fn integer(value: &Json, keys: &[&str]) -> (r: Option<u64>)
    ensures
        r == integer_spec(*value, key_views(keys@)),
{
    let mut i: usize = 0;
    assert(key_views(keys@).skip(0) =~= key_views(keys@));
    while i < keys.len()
        invariant
            i <= keys.len(),
            integer_spec(*value, key_views(keys@)) == integer_spec(
                *value,
                key_views(keys@).skip(i as int),
            ),
        decreases keys.len() - i,
    {
        let ghost rest = key_views(keys@).skip(i as int);
        assert(rest[0] == keys@[i as int]@);
        assert(rest.drop_first() =~= key_views(keys@).skip(i + 1));
        match get_member(value, keys[i]) {
            Some(x) => match json_count(x) {
                Some(n) => {
                    return Some(n);
                },
                None => {},
            },
            None => {},
        }
        i = i + 1;
    }
    assert(key_views(keys@).skip(i as int).len() == 0);
    None
}


/// `serde_json::Value`, the value a document parses into; the library
/// reads it only through `json_of_value`.
#[verifier::external_type_specification]
#[verifier::external_body]
pub struct ExValue(serde_json::Value);

/// The document `serde_json` parses the JSON text `text` into, in the
/// library's model; `None` when the text is not a JSON document.
pub uninterp spec fn json_document(text: Seq<char>) -> Option<Json>;

/// The same, for a document given as UTF-8 bytes.
pub uninterp spec fn json_bytes_document(bytes: Seq<u8>) -> Option<Json>;

/// A parsed `serde_json::Value` in the library's model, one variant for
/// another: a number by the text `serde_json` prints for it, object members
/// in the order the value holds them. Nothing is claimed of the result.
#[verifier::external_body]
fn json_of_value(value: serde_json::Value) -> Json {
    match value {
        serde_json::Value::Null => Json::Null,
        serde_json::Value::Bool(b) => Json::Bool(b),
        serde_json::Value::Number(n) => Json::Number(n.to_string()),
        serde_json::Value::String(s) => Json::Str(s),
        serde_json::Value::Array(items) => Json::Array(items.into_iter().map(json_of_value).collect()),
        serde_json::Value::Object(map) => Json::Object(map.into_iter().map(|(k, v)| (k, json_of_value(v))).collect()),
    }
}

/// `serde_json::from_str::<serde_json::Value>`, in the library's model.
/// The contract names the result and claims only that it is a function of
/// the text.
#[verifier::external_body]
pub(crate) fn parse_json(text: &str) -> (r: Option<Json>)
    ensures
        r == json_document(text@),
{
    serde_json::from_str::<serde_json::Value>(text).ok().map(json_of_value)
}

/// `serde_json::from_slice::<serde_json::Value>`, in the library's model.
/// The contract names the result and claims only that it is a function of
/// the bytes.
#[verifier::external_body]
pub(crate) fn parse_json_bytes(bytes: &[u8]) -> (r: Option<Json>)
    ensures
        r == json_bytes_document(bytes@),
{
    serde_json::from_slice::<serde_json::Value>(bytes).ok().map(json_of_value)
}

/// `Value::as_bool`.
pub open spec fn as_bool(v: Json) -> Option<bool> {
    match v {
        Json::Bool(b) => Some(b),
        _ => None,
    }
}


/// A member position lies within the members.
pub proof fn lemma_member_index_range(members: Seq<(String, Json)>, key: Seq<char>)
    ensures
        member_index(members, key) matches Some(i) ==> 0 <= i < members.len() && members[i].0@
            == key,
    decreases members.len(),
{
    if members.len() > 0 && members[0].0@ != key {
        lemma_member_index_range(members.drop_first(), key);
    }
}

} // verus!
