//! Reading quota windows and reset credits from the usage documents the
//! quota services answer with.
//!
//! A window's percentage is kept as the number the document holds, with the
//! field it came from; turning it into the remaining percentage is
//! floating-point arithmetic and is left to the caller.

use vstd::prelude::*;
use crate::json::{
    as_i64, as_str, get, get_member, integer, integer_spec, json_bytes_document, json_document,
    key_views, number_text_i64, parse_json, parse_json_bytes, pick_string, pick_string_spec,
    take_member, Json,
};
use vstd::string::*;
use crate::text::{
    chars_of, contains, contains_ignore_ascii_case, eq_ignore_ascii_case, lower, opt_view, trim,
    unicode_uppercase,
};
use crate::json::member_index;
use crate::urls::string_views;
use crate::order::{sort_unique, sorted_strict};

verus! {

/// The RFC 3339 text of a UTC time given in seconds since the epoch, as
/// `chrono` writes it (`DateTime::from_timestamp(seconds, 0)` then
/// `to_rfc3339`); `None` when `chrono` cannot represent the time.
pub uninterp spec fn utc_rfc3339(seconds: i64) -> Option<Seq<char>>;

/// `chrono::DateTime::from_timestamp(seconds, 0)`, written with
/// `to_rfc3339`. The contract names the result and claims only that it is a
/// function of the seconds.
#[verifier::external_body]
pub(crate) fn timestamp_from_seconds(seconds: i64) -> (r: Option<String>)
    ensures
        opt_view(r) == utc_rfc3339(seconds),
{
    match chrono::DateTime::from_timestamp(seconds, 0) {
        Some(time) => Some(time.to_rfc3339()),
        None => None,
    }
}

/// A time member: a string as it is, or seconds since the epoch written in
/// RFC 3339.
pub open spec fn time_of(v: Json) -> Option<Seq<char>> {
    match as_str(v) {
        Some(s) => Some(s),
        None => match as_i64(v) {
            Some(i) => utc_rfc3339(i),
            None => None,
        },
    }
}

/// The first of `keys` naming a member that reads as a time, and that time.
pub open spec fn timestamp_spec(v: Json, keys: Seq<Seq<char>>) -> Option<Seq<char>>
    decreases keys.len(),
{
    if keys.len() == 0 {
        None
    } else {
        match get(v, keys[0]) {
            Some(x) => match time_of(x) {
                Some(t) => Some(t),
                None => timestamp_spec(v, keys.drop_first()),
            },
            None => timestamp_spec(v, keys.drop_first()),
        }
    }
}

fn time_of_value(v: &Json) -> (r: Option<String>)
    ensures
        opt_view(r) == time_of(*v),
{
    match v {
        Json::Str(s) => Some(s.clone()),
        Json::Number(t) => match number_text_i64(t) {
            Some(i) => timestamp_from_seconds(i),
            None => None,
        },
        _ => None,
    }
}

/// The first of `keys` naming a member that reads as a time, and that time.
pub fn timestamp(value: &Json, keys: &[&str]) -> (r: Option<String>)
    ensures
        opt_view(r) == timestamp_spec(*value, key_views(keys@)),
{
    let mut i: usize = 0;
    assert(key_views(keys@).skip(0) =~= key_views(keys@));
    while i < keys.len()
        invariant
            i <= keys.len(),
            timestamp_spec(*value, key_views(keys@)) == timestamp_spec(
                *value,
                key_views(keys@).skip(i as int),
            ),
        decreases keys.len() - i,
    {
        let ghost rest = key_views(keys@).skip(i as int);
        assert(rest[0] == keys@[i as int]@);
        assert(rest.drop_first() =~= key_views(keys@).skip(i + 1));
        match get_member(value, keys[i]) {
            Some(x) => match time_of_value(x) {
                Some(t) => {
                    return Some(t);
                },
                None => {},
            },
            None => {},
        }
        i = i + 1;
    }
    assert(key_views(keys@).skip(i as int).len() == 0);
    None
}

/// The first of `keys` naming a number member, with that key and the
/// number's text (`number_with_key`).
pub open spec fn number_member(v: Json, keys: Seq<Seq<char>>) -> Option<(Seq<char>, Seq<char>)>
    decreases keys.len(),
{
    if keys.len() == 0 {
        None
    } else {
        match get(v, keys[0]) {
            Some(Json::Number(t)) => Some((keys[0], t@)),
            _ => number_member(v, keys.drop_first()),
        }
    }
}

/// The first of `keys` naming a number member, with that key and the
/// number's text.
pub fn number_with_key(value: &Json, keys: &[&str]) -> (r: Option<(String, String)>)
    ensures
        match r {
            Some((k, t)) => number_member(*value, key_views(keys@)) == Some((k@, t@)),
            None => number_member(*value, key_views(keys@)) is None,
        },
{
    let mut i: usize = 0;
    assert(key_views(keys@).skip(0) =~= key_views(keys@));
    while i < keys.len()
        invariant
            i <= keys.len(),
            number_member(*value, key_views(keys@)) == number_member(
                *value,
                key_views(keys@).skip(i as int),
            ),
        decreases keys.len() - i,
    {
        let ghost rest = key_views(keys@).skip(i as int);
        assert(rest[0] == keys@[i as int]@);
        assert(rest.drop_first() =~= key_views(keys@).skip(i + 1));
        match get_member(value, keys[i]) {
            Some(Json::Number(t)) => {
                return Some((keys[i].to_owned(), t.clone()));
            },
            _ => {},
        }
        i = i + 1;
    }
    assert(key_views(keys@).skip(i as int).len() == 0);
    None
}

/// Where a window's percentage came from. The remaining percentage is the
/// number, scaled by 100 when `scales_ratios` and the field holds a ratio,
/// subtracted from 100 when `measures_used`, and clamped to `[0, 100]`.
#[derive(Clone, Debug, PartialEq)]
pub struct WindowReading {
    /// The member the percentage was read from.
    pub key: String,
    /// The number of that member, as `serde_json` prints it.
    pub number: String,
    /// The number measures what is used, not what remains.
    pub measures_used: bool,
    /// A ratio field, or a non-percent field holding at most 1, is a ratio
    /// to scale by 100.
    pub scales_ratios: bool,
    pub resets_at: Option<String>,
    pub window_seconds: u64,
}

/// A `WindowReading` by the characters of its fields.
pub struct WindowReadingView {
    pub key: Seq<char>,
    pub number: Seq<char>,
    pub measures_used: bool,
    pub scales_ratios: bool,
    pub resets_at: Option<Seq<char>>,
    pub window_seconds: u64,
}

impl View for WindowReading {
    type V = WindowReadingView;

    open spec fn view(&self) -> WindowReadingView {
        WindowReadingView {
            key: self.key@,
            number: self.number@,
            measures_used: self.measures_used,
            scales_ratios: self.scales_ratios,
            resets_at: opt_view(self.resets_at),
            window_seconds: self.window_seconds,
        }
    }
}

/// The view of an optional reading.
pub open spec fn opt_reading(o: Option<WindowReading>) -> Option<WindowReadingView> {
    match o {
        Some(r) => Some(r@),
        None => None,
    }
}

pub open spec fn remaining_keys() -> Seq<Seq<char>> {
    seq![
        "remaining_percent"@,
        "remainingPercent"@,
        "remaining_pct"@,
        "remainingPct"@,
        "remaining_ratio"@,
        "remainingRatio"@,
        "remaining"@,
    ]
}

pub open spec fn used_keys() -> Seq<Seq<char>> {
    seq![
        "used_percent"@,
        "usedPercent"@,
        "used_pct"@,
        "usedPct"@,
        "used_ratio"@,
        "usedRatio"@,
        "utilization"@,
        "used"@,
    ]
}

pub open spec fn reset_keys() -> Seq<Seq<char>> {
    seq!["reset_at"@, "resetAt"@, "resets_at"@, "resetsAt"@, "reset_time"@, "resetTime"@]
}

pub open spec fn window_seconds_keys() -> Seq<Seq<char>> {
    seq![
        "limit_window_seconds"@,
        "limitWindowSeconds"@,
        "window_seconds"@,
        "windowSeconds"@,
        "duration_seconds"@,
        "durationSeconds"@,
        "period_seconds"@,
        "periodSeconds"@,
    ]
}

/// The length in seconds a window document declares (0 when none).
pub open spec fn declared_seconds(v: Json) -> u64 {
    match integer_spec(v, window_seconds_keys()) {
        Some(n) => n,
        None => 0,
    }
}

/// How `parse_window` reads a window document: the first remaining
/// percentage among the remaining fields, else the first used percentage
/// among the used fields; none when the document has neither.
pub open spec fn window_spec(v: Json) -> Option<WindowReadingView> {
    let found = match number_member(v, remaining_keys()) {
        Some((k, t)) => Some((k, t, false)),
        None => match number_member(v, used_keys()) {
            Some((k, t)) => Some((k, t, true)),
            None => None,
        },
    };
    match found {
        None => None,
        Some((k, t, used)) => Some(
            WindowReadingView {
                key: k,
                number: t,
                measures_used: used,
                scales_ratios: true,
                resets_at: timestamp_spec(v, reset_keys()),
                window_seconds: declared_seconds(v),
            },
        ),
    }
}

/// When a window's percentage field holds a ratio, to scale by 100.
#[derive(Clone, Copy, Debug, PartialEq, Eq, Structural)]
pub enum RatioRule {
    /// A ratio field: always.
    Always,
    /// A field whose name holds neither `percent` nor `pct` in lower case
    /// (so also `remainingPercent`, `usedPercent`, `remainingPct`): when the
    /// number is at most 1.
    WhenAtMostOne,
    /// A field whose name holds `percent` or `pct` in lower case: never.
    Never,
}

/// The ratio rule of a percentage field, by its name. The name is matched
/// case-sensitively: `remaining_percent` is a percent field, while
/// `remainingPercent` (capital `P`) is read as a ratio when at most 1.
pub open spec fn ratio_rule_of(key: Seq<char>) -> RatioRule {
    if key == "remaining_ratio"@ || key == "remainingRatio"@ || key == "used_ratio"@ || key
        == "usedRatio"@ || key == "utilization"@ {
        RatioRule::Always
    } else if !contains(key, "percent"@) && !contains(key, "pct"@) {
        RatioRule::WhenAtMostOne
    } else {
        RatioRule::Never
    }
}

/// Whether a percentage read from the field `key` is a ratio to scale by
/// 100: always for the ratio fields, never for fields whose name holds
/// `percent` or `pct` in lower case, and for any other field (camel-case
/// `...Percent` among them) when its number is at most 1.
pub fn ratio_rule(key: &str) -> (r: RatioRule)
    ensures
        r == ratio_rule_of(key@),
{
    if crate::text::str_eq(key, "remaining_ratio") || crate::text::str_eq(key, "remainingRatio")
        || crate::text::str_eq(key, "used_ratio") || crate::text::str_eq(key, "usedRatio")
        || crate::text::str_eq(key, "utilization") {
        return RatioRule::Always;
    }
    let c = chars_of(key);
    assert(c@.subrange(0, c@.len() as int) =~= c@);
    let has_percent = crate::text::find_in(&c, 0, c.len(), &chars_of("percent")).is_some();
    let has_pct = crate::text::find_in(&c, 0, c.len(), &chars_of("pct")).is_some();
    if !has_percent && !has_pct {
        RatioRule::WhenAtMostOne
    } else {
        RatioRule::Never
    }
}

/// Reads a usage window document (`parse_window`).
pub fn parse_window(value: Option<&Json>) -> (r: Option<WindowReading>)
    ensures
        opt_reading(r) == match value {
            Some(v) => window_spec(*v),
            None => None,
        },
{
    let value = match value {
        Some(v) => v,
        None => {
            return None;
        },
    };
    let rkeys = [
        "remaining_percent",
        "remainingPercent",
        "remaining_pct",
        "remainingPct",
        "remaining_ratio",
        "remainingRatio",
        "remaining",
    ];
    assert(key_views(rkeys@) =~= remaining_keys());
    let ukeys = [
        "used_percent",
        "usedPercent",
        "used_pct",
        "usedPct",
        "used_ratio",
        "usedRatio",
        "utilization",
        "used",
    ];
    assert(key_views(ukeys@) =~= used_keys());
    let (key, number, measures_used) = match number_with_key(value, &rkeys) {
        Some((k, t)) => (k, t, false),
        None => match number_with_key(value, &ukeys) {
            Some((k, t)) => (k, t, true),
            None => {
                return None;
            },
        },
    };
    let tkeys = ["reset_at", "resetAt", "resets_at", "resetsAt", "reset_time", "resetTime"];
    assert(key_views(tkeys@) =~= reset_keys());
    let skeys = [
        "limit_window_seconds",
        "limitWindowSeconds",
        "window_seconds",
        "windowSeconds",
        "duration_seconds",
        "durationSeconds",
        "period_seconds",
        "periodSeconds",
    ];
    assert(key_views(skeys@) =~= window_seconds_keys());
    let window_seconds = match integer(value, &skeys) {
        Some(n) => n,
        None => 0,
    };
    Some(
        WindowReading {
            key,
            number,
            measures_used,
            scales_ratios: true,
            resets_at: timestamp(value, &tkeys),
            window_seconds,
        },
    )
}

/// A declared length within a minute of the expected one.
pub open spec fn near_expected(seconds: u64, expected: u64) -> bool {
    expected > 0 && (if seconds >= expected {
        seconds - expected
    } else {
        expected - seconds
    }) <= 60
}

fn is_near_expected(seconds: u64, expected: u64) -> (b: bool)
    ensures
        b == near_expected(seconds, expected),
{
    expected > 0 && (if seconds >= expected {
        seconds - expected
    } else {
        expected - seconds
    }) <= 60
}

/// A named window member fits: it reads as a window, declares no length or
/// a length near the expected one.
pub open spec fn named_fit(v: Json, expected: u64) -> bool {
    window_spec(v) is Some && (declared_seconds(v) == 0 || near_expected(
        declared_seconds(v),
        expected,
    ))
}

/// The first of `names` naming a member that fits.
pub open spec fn named_window(rate: Json, names: Seq<Seq<char>>, expected: u64) -> Option<Json>
    decreases names.len(),
{
    if names.len() == 0 {
        None
    } else {
        match get(rate, names[0]) {
            Some(v) => if named_fit(v, expected) {
                Some(v)
            } else {
                named_window(rate, names.drop_first(), expected)
            },
            None => named_window(rate, names.drop_first(), expected),
        }
    }
}

/// The members naming a window list item.
pub open spec fn label_keys() -> Seq<Seq<char>> {
    seq!["name"@, "type"@, "id"@, "window"@, "label"@]
}

/// A list item is labelled with one of `names`, ignoring ASCII case.
pub open spec fn labelled(item: Json, names: Seq<Seq<char>>) -> bool {
    match pick_string_spec(item, label_keys()) {
        Some(text) => exists|i: int|
            0 <= i < names.len() && (lower(text) == lower(#[trigger] names[i]) || contains(
                lower(text),
                lower(names[i]),
            )),
        None => false,
    }
}

/// A list item fits: it reads as a window and declares a length near the
/// expected one or is labelled with one of the names.
pub open spec fn item_fit(item: Json, names: Seq<Seq<char>>, expected: u64) -> bool {
    window_spec(item) is Some && (near_expected(declared_seconds(item), expected) || labelled(
        item,
        names,
    ))
}

/// The first item that fits.
pub open spec fn item_window(items: Seq<Json>, names: Seq<Seq<char>>, expected: u64) -> Option<Json>
    decreases items.len(),
{
    if items.len() == 0 {
        None
    } else if item_fit(items[0], names, expected) {
        Some(items[0])
    } else {
        item_window(items.drop_first(), names, expected)
    }
}

/// The members that hold window lists, in order.
pub open spec fn list_keys() -> Seq<Seq<char>> {
    seq!["windows"@, "limit_windows"@, "limitWindows"@, "limits"@, "buckets"@]
}

/// The first fitting item of the first of `lists` that has one.
pub open spec fn list_window(rate: Json, lists: Seq<Seq<char>>, names: Seq<Seq<char>>, expected: u64) -> Option<
    Json,
>
    decreases lists.len(),
{
    if lists.len() == 0 {
        None
    } else {
        let here = match get(rate, lists[0]) {
            Some(Json::Array(items)) => item_window(items@, names, expected),
            _ => None,
        };
        match here {
            Some(v) => Some(v),
            None => list_window(rate, lists.drop_first(), names, expected),
        }
    }
}

/// The window a rate limit document holds under one of `names`, or else in
/// one of its window lists (`find_window`).
pub open spec fn find_window_spec(rate: Json, names: Seq<Seq<char>>, expected: u64) -> Option<Json> {
    match named_window(rate, names, expected) {
        Some(v) => Some(v),
        None => list_window(rate, list_keys(), names, expected),
    }
}

proof fn lemma_named_window_fits(rate: Json, names: Seq<Seq<char>>, expected: u64)
    ensures
        named_window(rate, names, expected) matches Some(w) ==> named_fit(w, expected),
    decreases names.len(),
{
    if names.len() > 0 {
        lemma_named_window_fits(rate, names.drop_first(), expected);
    }
}

proof fn lemma_item_window_fits(items: Seq<Json>, names: Seq<Seq<char>>, expected: u64)
    ensures
        item_window(items, names, expected) matches Some(w) ==> item_fit(w, names, expected),
    decreases items.len(),
{
    if items.len() > 0 {
        lemma_item_window_fits(items.drop_first(), names, expected);
    }
}

proof fn lemma_list_window_fits(rate: Json, lists: Seq<Seq<char>>, names: Seq<Seq<char>>, expected: u64)
    ensures
        list_window(rate, lists, names, expected) matches Some(w) ==> item_fit(w, names, expected),
    decreases lists.len(),
{
    if lists.len() > 0 {
        if let Some(Json::Array(items)) = get(rate, lists[0]) {
            lemma_item_window_fits(items@, names, expected);
        }
        lemma_list_window_fits(rate, lists.drop_first(), names, expected);
    }
}

/// A window found for a slot reads as a window, and declares no length, a
/// length within a minute of the slot's, or is a list item labelled with
/// one of the slot's names: a weekly window found under a five-hour name
/// is passed over.
pub proof fn lemma_found_window_fits(rate: Json, names: Seq<Seq<char>>, expected: u64)
    ensures
        find_window_spec(rate, names, expected) matches Some(w) ==> window_spec(w) is Some && (
        declared_seconds(w) == 0 || near_expected(declared_seconds(w), expected) || labelled(
            w,
            names,
        )),
{
    lemma_named_window_fits(rate, names, expected);
    lemma_list_window_fits(rate, list_keys(), names, expected);
}

fn window_seconds_of(v: &Json) -> (r: u64)
    ensures
        r == declared_seconds(*v),
{
    let skeys = [
        "limit_window_seconds",
        "limitWindowSeconds",
        "window_seconds",
        "windowSeconds",
        "duration_seconds",
        "durationSeconds",
        "period_seconds",
        "periodSeconds",
    ];
    assert(key_views(skeys@) =~= window_seconds_keys());
    match integer(v, &skeys) {
        Some(n) => n,
        None => 0,
    }
}

fn is_labelled(item: &Json, names: &[&str]) -> (b: bool)
    ensures
        b == labelled(*item, key_views(names@)),
{
    let lkeys = ["name", "type", "id", "window", "label"];
    assert(key_views(lkeys@) =~= label_keys());
    let text = match pick_string(item, &lkeys) {
        Some(t) => t,
        None => {
            return false;
        },
    };
    let tc = chars_of(text.as_str());
    let mut i: usize = 0;
    while i < names.len()
        invariant
            i <= names.len(),
            tc@ == text@,
            pick_string_spec(*item, label_keys()) == Some(text@),
            forall|j: int|
                0 <= j < i ==> !(lower(text@) == lower(#[trigger] key_views(names@)[j]) || contains(
                    lower(text@),
                    lower(key_views(names@)[j]),
                )),
        decreases names.len() - i,
    {
        let nc = chars_of(names[i]);
        assert(key_views(names@)[i as int] == nc@);
        let hit = contains_ignore_ascii_case(&tc, &nc);
        proof {
            if lower(text@) == lower(nc@) {
                assert(lower(tc@).subrange(0, lower(nc@).len() as int) =~= lower(nc@));
                assert(crate::text::occurs_at(lower(tc@), lower(nc@), 0));
                assert(crate::text::find_from(lower(tc@), lower(nc@), 0) == Some(0int));
            }
        }
        if hit {
            return true;
        }
        i = i + 1;
    }
    false
}

fn fits_named(v: &Json, expected: u64) -> (b: bool)
    ensures
        b == named_fit(*v, expected),
{
    match parse_window(Some(v)) {
        Some(w) => {
            let s = window_seconds_of(v);
            s == 0 || is_near_expected(s, expected)
        },
        None => false,
    }
}

fn fits_item(item: &Json, names: &[&str], expected: u64) -> (b: bool)
    ensures
        b == item_fit(*item, key_views(names@), expected),
{
    match parse_window(Some(item)) {
        Some(w) => is_near_expected(window_seconds_of(item), expected) || is_labelled(item, names),
        None => false,
    }
}

fn first_fitting_item<'a>(items: &'a Vec<Json>, names: &[&str], expected: u64) -> (r: Option<
    &'a Json,
>)
    ensures
        match r {
            Some(x) => item_window(items@, key_views(names@), expected) == Some(*x),
            None => item_window(items@, key_views(names@), expected) is None,
        },
{
    let ghost s = items@;
    let mut i: usize = 0;
    assert(s.skip(0) =~= s);
    while i < items.len()
        invariant
            i <= items.len(),
            s == items@,
            item_window(s, key_views(names@), expected) == item_window(
                s.skip(i as int),
                key_views(names@),
                expected,
            ),
        decreases items.len() - i,
    {
        let ghost rest = s.skip(i as int);
        assert(rest[0] == s[i as int]);
        assert(rest.drop_first() =~= s.skip(i + 1));
        if fits_item(&items[i], names, expected) {
            return Some(&items[i]);
        }
        i = i + 1;
    }
    assert(s.skip(i as int).len() == 0);
    None
}

/// The window a rate limit document holds under one of `names` (declaring
/// no length, or a length within a minute of `expected_seconds`), or else
/// the first item of its window lists that declares such a length or is
/// labelled with one of `names`.
pub fn find_window<'a>(rate_limit: &'a Json, names: &[&str], expected_seconds: u64) -> (r: Option<
    &'a Json,
>)
    ensures
        match r {
            Some(x) => find_window_spec(*rate_limit, key_views(names@), expected_seconds) == Some(
                *x,
            ),
            None => find_window_spec(*rate_limit, key_views(names@), expected_seconds) is None,
        },
{
    let ghost ns = key_views(names@);
    let mut i: usize = 0;
    assert(ns.skip(0) =~= ns);
    while i < names.len()
        invariant
            i <= names.len(),
            ns == key_views(names@),
            named_window(*rate_limit, ns, expected_seconds) == named_window(
                *rate_limit,
                ns.skip(i as int),
                expected_seconds,
            ),
        decreases names.len() - i,
    {
        let ghost rest = ns.skip(i as int);
        assert(rest[0] == names@[i as int]@);
        assert(rest.drop_first() =~= ns.skip(i + 1));
        match get_member(rate_limit, names[i]) {
            Some(v) => {
                if fits_named(v, expected_seconds) {
                    return Some(v);
                }
            },
            None => {},
        }
        i = i + 1;
    }
    assert(ns.skip(i as int).len() == 0);
    let lists = ["windows", "limit_windows", "limitWindows", "limits", "buckets"];
    assert(key_views(lists@) =~= list_keys());
    let mut k: usize = 0;
    assert(list_keys().skip(0) =~= list_keys());
    while k < 5
        invariant
            k <= 5,
            ns == key_views(names@),
            key_views(lists@) == list_keys(),
            named_window(*rate_limit, ns, expected_seconds) is None,
            list_window(*rate_limit, list_keys(), ns, expected_seconds) == list_window(
                *rate_limit,
                list_keys().skip(k as int),
                ns,
                expected_seconds,
            ),
        decreases 5 - k,
    {
        let ghost rest = list_keys().skip(k as int);
        assert(rest[0] == lists@[k as int]@);
        assert(rest.drop_first() =~= list_keys().skip(k + 1));
        match get_member(rate_limit, lists[k]) {
            Some(Json::Array(items)) => {
                match first_fitting_item(items, names, expected_seconds) {
                    Some(x) => {
                        return Some(x);
                    },
                    None => {},
                }
            },
            _ => {},
        }
        k = k + 1;
    }
    assert(list_keys().skip(5) =~= Seq::<Seq<char>>::empty());
    None
}


/// The members a credit document may hold its expiry under, in order.
pub open spec fn expiry_keys() -> Seq<Seq<char>> {
    seq!["expires_at"@, "expiresAt"@, "expiration_time"@, "expirationTime"@, "expires"@]
}

/// The expiries found in a member of an object, read as in `expirations_in`.
pub open spec fn member_expirations(members: Seq<(String, Json)>, key: Seq<char>) -> Seq<Seq<char>>
    decreases members,
{
    match member_index(members, key) {
        Some(i) => if 0 <= i < members.len() {
            expirations_in(members[i].1)
        } else {
            Seq::empty()
        },
        None => Seq::empty(),
    }
}

/// The expiries found in the items of a list, in order.
pub open spec fn list_expirations(items: Seq<Json>) -> Seq<Seq<char>>
    decreases items,
{
    if items.len() == 0 {
        Seq::empty()
    } else {
        list_expirations(items.subrange(0, items.len() - 1)) + expirations_in(items[items.len() - 1])
    }
}

/// The expiries a reset credit document holds, in the order
/// `collect_reset_credit_expirations` visits them: the items of a list in
/// order; for an object its own expiry, then those under `credits`,
/// `reset_credits`, `resetCredits`, `available`, `items` and `grants`.
pub open spec fn expirations_in(v: Json) -> Seq<Seq<char>>
    decreases v,
{
    match v {
        Json::Array(items) => list_expirations(items@),
        Json::Object(members) => {
            let own = match timestamp_spec(v, expiry_keys()) {
                Some(t) => seq![t],
                None => Seq::empty(),
            };
            own + member_expirations(members@, "credits"@) + member_expirations(
                members@,
                "reset_credits"@,
            ) + member_expirations(members@, "resetCredits"@) + member_expirations(
                members@,
                "available"@,
            ) + member_expirations(members@, "items"@) + member_expirations(members@, "grants"@)
        },
        _ => Seq::empty(),
    }
}

fn visit_member(members: &Vec<(String, Json)>, v: &Json, key: &str, out: &mut Vec<String>)
    requires
        *v == Json::Object(*members),
    ensures
        string_views(final(out)@) == string_views(old(out)@) + member_expirations(members@, key@),
    decreases members@, 0nat,
{
    proof {
        crate::json::lemma_member_index_range(members@, key@);
    }
    match get_member(v, key) {
        Some(child) => {
            visit_expirations(child, out);
        },
        None => {
            assert(string_views(out@) =~= string_views(out@) + Seq::<Seq<char>>::empty());
        },
    }
}

fn visit_object(members: &Vec<(String, Json)>, v: &Json, out: &mut Vec<String>)
    requires
        *v == Json::Object(*members),
    ensures
        string_views(final(out)@) == string_views(old(out)@) + expirations_in(*v),
    decreases members@, 1nat,
{
    let ghost start = string_views(out@);
    let ekeys = ["expires_at", "expiresAt", "expiration_time", "expirationTime", "expires"];
    assert(key_views(ekeys@) =~= expiry_keys());
    match timestamp(v, &ekeys) {
        Some(t) => {
            out.push(t);
        },
        None => {},
    }
    let ghost own = string_views(out@);
    visit_member(members, v, "credits", out);
    visit_member(members, v, "reset_credits", out);
    visit_member(members, v, "resetCredits", out);
    visit_member(members, v, "available", out);
    visit_member(members, v, "items", out);
    visit_member(members, v, "grants", out);
    assert(string_views(out@) =~= start + expirations_in(*v));
}

fn visit_expirations(v: &Json, out: &mut Vec<String>)
    ensures
        string_views(final(out)@) == string_views(old(out)@) + expirations_in(*v),
    decreases *v, 2nat,
{
    let ghost start = string_views(out@);
    match v {
        Json::Array(items) => {
            let mut i: usize = 0;
            while i < items.len()
                invariant
                    i <= items.len(),
                    *v == Json::Array(*items),
                    string_views(out@) == start + list_expirations(items@.take(i as int)),
                decreases items.len() - i,
            {
                let ghost pre = string_views(out@);
                proof {
                    assert(decreases_to!(*v => (*v)->Array_0));
                    assert((*v)->Array_0 == *items);
                    assert(decreases_to!(*items => items@));
                    assert(decreases_to!(items@ => items@[i as int]));
                    assert(decreases_to!(*v => items@[i as int]));
                }
                visit_expirations(&items[i], out);
                assert(items@.take(i + 1).subrange(0, i as int) =~= items@.take(i as int));
                assert(items@.take(i + 1)[i as int] == items@[i as int]);
                i = i + 1;
            }
            assert(items@.take(i as int) =~= items@);
        },
        Json::Object(members) => {
            visit_object(members, v, out);
        },
        _ => {},
    }
}


/// Every expiry a reset credit document holds, sorted, each once.
pub fn collect_reset_credit_expirations(value: &Json) -> (r: Vec<String>)
    ensures
        sorted_strict(string_views(r@)),
        forall|t: Seq<char>| #[trigger] string_views(r@).contains(t) <==> expirations_in(
            *value,
        ).contains(t),
{
    let mut found: Vec<String> = Vec::new();
    visit_expirations(value, &mut found);
    assert(string_views(found@) =~= expirations_in(*value));
    sort_unique(found)
}

/// The reset credit summary of an app-server answer.
pub open spec fn credit_summary(value: Json) -> Option<Json> {
    match get(value, "rateLimitResetCredits"@) {
        Some(s) => Some(s),
        None => get(value, "rate_limit_reset_credits"@),
    }
}

/// The expiry of one app-server credit: `expiresAt` (else `expires_at`) in
/// seconds since the epoch.
pub open spec fn credit_expiry(credit: Json) -> Option<Seq<char>> {
    let member = match get(credit, "expiresAt"@) {
        Some(x) => Some(x),
        None => get(credit, "expires_at"@),
    };
    match member {
        Some(x) => match as_i64(x) {
            Some(i) => utc_rfc3339(i),
            None => None,
        },
        None => None,
    }
}

/// The expiries of a list of credits, in order, skipping those without one.
pub open spec fn credit_expiries(credits: Seq<Json>) -> Seq<Seq<char>>
    decreases credits.len(),
{
    if credits.len() == 0 {
        Seq::empty()
    } else {
        credit_expiries(credits.drop_last()) + match credit_expiry(credits.last()) {
            Some(t) => seq![t],
            None => Seq::empty(),
        }
    }
}

/// The credits listed in a summary.
pub open spec fn summary_credits(summary: Json) -> Seq<Json> {
    match get(summary, "credits"@) {
        Some(Json::Array(items)) => items@,
        _ => Seq::empty(),
    }
}

/// The available reset credits of a summary.
pub open spec fn summary_count(summary: Json) -> Option<u64> {
    integer_spec(summary, seq!["availableCount"@, "available_count"@])
}

fn credit_expiry_of(credit: &Json) -> (r: Option<String>)
    ensures
        opt_view(r) == credit_expiry(*credit),
{
    let member = match get_member(credit, "expiresAt") {
        Some(x) => Some(x),
        None => get_member(credit, "expires_at"),
    };
    match member {
        Some(Json::Number(t)) => match number_text_i64(t) {
            Some(i) => timestamp_from_seconds(i),
            None => None,
        },
        _ => None,
    }
}

/// The available reset credits an app-server answer reports, and the
/// expiries of its credits, sorted, each once.
pub fn app_server_reset_credits(value: &Json) -> (r: (Option<u64>, Vec<String>))
    ensures
        sorted_strict(string_views(r.1@)),
        match credit_summary(*value) {
            None => r.0 is None && r.1@.len() == 0,
            Some(summary) => r.0 == summary_count(summary) && forall|t: Seq<char>|
                #[trigger] string_views(r.1@).contains(t) <==> credit_expiries(
                    summary_credits(summary),
                ).contains(t),
        },
{
    let summary = match get_member(value, "rateLimitResetCredits") {
        Some(s) => s,
        None => match get_member(value, "rate_limit_reset_credits") {
            Some(s) => s,
            None => {
                assert(sorted_strict(string_views(Seq::<String>::empty())));
                return (None, Vec::new());
            },
        },
    };
    let ckeys = ["availableCount", "available_count"];
    assert(key_views(ckeys@) =~= seq!["availableCount"@, "available_count"@]);
    let count = integer(summary, &ckeys);
    let mut found: Vec<String> = Vec::new();
    match get_member(summary, "credits") {
        Some(Json::Array(credits)) => {
            let mut i: usize = 0;
            while i < credits.len()
                invariant
                    i <= credits.len(),
                    string_views(found@) == credit_expiries(credits@.take(i as int)),
                decreases credits.len() - i,
            {
                assert(credits@.take(i + 1).drop_last() =~= credits@.take(i as int));
                match credit_expiry_of(&credits[i]) {
                    Some(t) => {
                        found.push(t);
                    },
                    None => {},
                }
                assert(string_views(found@) =~= credit_expiries(credits@.take(i + 1)));
                i = i + 1;
            }
            assert(credits@.take(i as int) =~= credits@);
        },
        _ => {
            assert(string_views(found@) =~= credit_expiries(Seq::empty()));
        },
    }
    (count, sort_unique(found))
}


/// A balance as a document gives it: a text to show as it is, or a number
/// (by its `serde_json` text) to format.
#[derive(Clone, Debug, PartialEq)]
pub enum BalanceValue {
    Text(String),
    Number(String),
}

/// A `BalanceValue` by the characters it holds.
pub enum BalanceValueView {
    Text(Seq<char>),
    Number(Seq<char>),
}

impl View for BalanceValue {
    type V = BalanceValueView;

    open spec fn view(&self) -> BalanceValueView {
        match self {
            BalanceValue::Text(s) => BalanceValueView::Text(s@),
            BalanceValue::Number(t) => BalanceValueView::Number(t@),
        }
    }
}

/// The view of an optional balance.
pub open spec fn opt_balance(o: Option<BalanceValue>) -> Option<BalanceValueView> {
    match o {
        Some(b) => Some(b@),
        None => None,
    }
}

/// The per-limit rate limits of an app-server answer.
pub open spec fn limits_by_id(value: Json) -> Option<Json> {
    match get(value, "rateLimitsByLimitId"@) {
        Some(x) => Some(x),
        None => get(value, "rate_limits_by_limit_id"@),
    }
}

/// A rate limit labelled `codex` (in any ASCII case).
pub open spec fn labelled_codex(item: Json) -> bool {
    match pick_string_spec(item, seq!["limitId"@, "limit_id"@]) {
        Some(t) => eq_ignore_ascii_case(t, "codex"@),
        None => false,
    }
}

/// Position of the first rate limit labelled `codex`.
pub open spec fn first_codex(members: Seq<(String, Json)>) -> Option<int>
    decreases members.len(),
{
    if members.len() == 0 {
        None
    } else if labelled_codex(members[0].1) {
        Some(0)
    } else {
        match first_codex(members.drop_first()) {
            Some(i) => Some(i + 1),
            None => None,
        }
    }
}

/// The rate limit chosen among per-limit rate limits: the one named
/// `codex`, else the first labelled `codex`, else the first.
pub open spec fn chosen_limit(members: Seq<(String, Json)>) -> Option<Json> {
    match member_index(members, "codex"@) {
        Some(i) => Some(members[i].1),
        None => match first_codex(members) {
            Some(i) => Some(members[i].1),
            None => if members.len() > 0 {
                Some(members[0].1)
            } else {
                None
            },
        },
    }
}

/// The Codex rate limit of an app-server answer (`app_server_rate_limit`):
/// the one chosen among its per-limit rate limits, else its `rateLimits`
/// (or `rate_limits`).
pub open spec fn app_server_rate_limit_spec(value: Json) -> Option<Json> {
    let fallback = match get(value, "rateLimits"@) {
        Some(x) => Some(x),
        None => get(value, "rate_limits"@),
    };
    match limits_by_id(value) {
        Some(Json::Object(members)) => match chosen_limit(members@) {
            Some(x) => Some(x),
            None => fallback,
        },
        _ => fallback,
    }
}

/// An answer has a usable per-limit map: its `rateLimitsByLimitId` (else
/// `rate_limits_by_limit_id`) is an object with members.
pub open spec fn has_limit_map(value: Json) -> bool {
    match get(value, "rateLimitsByLimitId"@) {
        Some(Json::Object(members)) => members@.len() > 0,
        Some(_) => false,
        None => match get(value, "rate_limits_by_limit_id"@) {
            Some(Json::Object(members)) => members@.len() > 0,
            _ => false,
        },
    }
}

/// Which rate limit of an app-server answer is the Codex one: with no
/// per-limit map it is the answer's `rateLimits` member (else its
/// `rate_limits`); with a map that has a member named `codex`, it is that
/// member. So an answer whose `rateLimits` holds a readable `primary` window
/// has a quota reading.
pub proof fn lemma_app_server_rate_limit_choice(value: Json)
    ensures
        !has_limit_map(value) ==> app_server_rate_limit_spec(value) == match get(value, "rateLimits"@) {
            Some(x) => Some(x),
            None => get(value, "rate_limits"@),
        },
        !has_limit_map(value) ==> (get(value, "rateLimits"@) matches Some(rl) ==> (get(rl, "primary"@) matches Some(
            w,
        ) ==> (app_window_spec(w) is Some ==> app_snapshot_exists(value)))),
        get(value, "rateLimitsByLimitId"@) matches Some(Json::Object(members)) ==> (member_index(
            members@,
            "codex"@,
        ) matches Some(i) ==> app_server_rate_limit_spec(value) == Some(members@[i].1)),
{
    match limits_by_id(value) {
        Some(Json::Object(members)) => {
            if members@.len() == 0 {
                assert(member_index(members@, "codex"@) is None);
                assert(members@.len() == 0 ==> first_codex(members@) is None);
            }
        },
        _ => {},
    }
}

fn is_labelled_codex(item: &Json) -> (b: bool)
    ensures
        b == labelled_codex(*item),
{
    let keys = ["limitId", "limit_id"];
    assert(key_views(keys@) =~= seq!["limitId"@, "limit_id"@]);
    match pick_string(item, &keys) {
        Some(t) => {
            let c = chars_of(t.as_str());
            let k = chars_of("codex");
            assert(c@.subrange(0, c@.len() as int) =~= c@);
            assert(k@.subrange(0, k@.len() as int) =~= k@);
            crate::text::eq_ignore_ascii_case_in(&c, 0, c.len(), &k, 0, k.len())
        },
        None => false,
    }
}

fn choose_limit<'a>(members: &'a Vec<(String, Json)>, v: &'a Json) -> (r: Option<&'a Json>)
    requires
        *v == Json::Object(*members),
    ensures
        match r {
            Some(x) => chosen_limit(members@) == Some(*x),
            None => chosen_limit(members@) is None,
        },
{
    proof {
        crate::json::lemma_member_index_range(members@, "codex"@);
    }
    match get_member(v, "codex") {
        Some(x) => {
            return Some(x);
        },
        None => {},
    }
    let ghost ms = members@;
    let mut i: usize = 0;
    assert(ms.skip(0) =~= ms);
    while i < members.len()
        invariant
            i <= members.len(),
            ms == members@,
            member_index(ms, "codex"@) is None,
            first_codex(ms) == match first_codex(ms.skip(i as int)) {
                Some(j) => Some(j + i),
                None => None,
            },
        decreases members.len() - i,
    {
        let ghost rest = ms.skip(i as int);
        assert(rest[0] == ms[i as int]);
        assert(rest.drop_first() =~= ms.skip(i + 1));
        if is_labelled_codex(&members[i].1) {
            assert(first_codex(rest) == Some(0int));
            return Some(&members[i].1);
        }
        i = i + 1;
    }
    assert(ms.skip(i as int).len() == 0);
    if members.len() > 0 {
        Some(&members[0].1)
    } else {
        None
    }
}

/// The Codex rate limit of an app-server answer.
pub fn app_server_rate_limit<'a>(value: &'a Json) -> (r: Option<&'a Json>)
    ensures
        match r {
            Some(x) => app_server_rate_limit_spec(*value) == Some(*x),
            None => app_server_rate_limit_spec(*value) is None,
        },
{
    let by_id = match get_member(value, "rateLimitsByLimitId") {
        Some(x) => Some(x),
        None => get_member(value, "rate_limits_by_limit_id"),
    };
    match by_id {
        Some(items) => match items {
            Json::Object(members) => match choose_limit(members, items) {
                Some(x) => {
                    return Some(x);
                },
                None => {},
            },
            _ => {},
        },
        None => {},
    }
    match get_member(value, "rateLimits") {
        Some(x) => Some(x),
        None => get_member(value, "rate_limits"),
    }
}

/// The minutes an app-server window declares (0 when none).
pub open spec fn declared_minutes(v: Json) -> u64 {
    match integer_spec(v, seq!["windowDurationMins"@, "window_duration_mins"@]) {
        Some(n) => n,
        None => 0,
    }
}

/// The reset time of an app-server window: `resetsAt` (else `resets_at`)
/// in seconds since the epoch.
pub open spec fn app_reset_time(v: Json) -> Option<Seq<char>> {
    let member = match get(v, "resetsAt"@) {
        Some(x) => Some(x),
        None => get(v, "resets_at"@),
    };
    match member {
        Some(x) => match as_i64(x) {
            Some(i) => utc_rfc3339(i),
            None => None,
        },
        None => None,
    }
}

/// How `parse_app_server_window` reads a window: the first used percentage
/// among `usedPercent`, `used_percent`, `used` (never scaled), its reset
/// time, and its length, given in minutes, in seconds (wrapping on
/// overflow, as a release build computes it).
pub open spec fn app_window_spec(v: Json) -> Option<WindowReadingView> {
    match number_member(v, seq!["usedPercent"@, "used_percent"@, "used"@]) {
        None => None,
        Some((k, t)) => Some(
            WindowReadingView {
                key: k,
                number: t,
                measures_used: true,
                scales_ratios: false,
                resets_at: app_reset_time(v),
                window_seconds: declared_minutes(v).wrapping_mul(60),
            },
        ),
    }
}

/// Reads an app-server usage window.
pub fn parse_app_server_window(value: Option<&Json>) -> (r: Option<WindowReading>)
    ensures
        opt_reading(r) == match value {
            Some(v) => app_window_spec(*v),
            None => None,
        },
{
    let value = match value {
        Some(v) => v,
        None => {
            return None;
        },
    };
    let ukeys = ["usedPercent", "used_percent", "used"];
    assert(key_views(ukeys@) =~= seq!["usedPercent"@, "used_percent"@, "used"@]);
    let (key, number) = match number_with_key(value, &ukeys) {
        Some(kt) => kt,
        None => {
            return None;
        },
    };
    let member = match get_member(value, "resetsAt") {
        Some(x) => Some(x),
        None => get_member(value, "resets_at"),
    };
    let resets_at = match member {
        Some(Json::Number(t)) => match number_text_i64(t) {
            Some(i) => timestamp_from_seconds(i),
            None => None,
        },
        _ => None,
    };
    let mkeys = ["windowDurationMins", "window_duration_mins"];
    assert(key_views(mkeys@) =~= seq!["windowDurationMins"@, "window_duration_mins"@]);
    let minutes = match integer(value, &mkeys) {
        Some(n) => n,
        None => 0,
    };
    Some(
        WindowReading {
            key,
            number,
            measures_used: true,
            scales_ratios: false,
            resets_at,
            window_seconds: minutes.wrapping_mul(60),
        },
    )
}

/// The balance member of a rate limit's credits.
pub open spec fn balance_member(rate_limit: Json) -> Option<Json> {
    match get(rate_limit, "credits"@) {
        Some(c) => get(c, "balance"@),
        None => None,
    }
}

/// The balance of a rate limit (`app_server_balance`): a non-blank text,
/// trimmed, or a number.
pub open spec fn app_balance_spec(rate_limit: Json) -> Option<BalanceValueView> {
    match balance_member(rate_limit) {
        Some(Json::Str(s)) => if trim(s@).len() > 0 {
            Some(BalanceValueView::Text(trim(s@)))
        } else {
            None
        },
        Some(Json::Number(t)) => Some(BalanceValueView::Number(t@)),
        _ => None,
    }
}

/// The credit balance of a rate limit.
pub fn app_server_balance(rate_limit: &Json) -> (r: Option<BalanceValue>)
    ensures
        opt_balance(r) == app_balance_spec(*rate_limit),
{
    let credits = match get_member(rate_limit, "credits") {
        Some(c) => c,
        None => {
            return None;
        },
    };
    match get_member(credits, "balance") {
        Some(Json::Str(s)) => {
            let t = crate::text::trim_str(s.as_str());
            if t.as_str().is_empty() {
                None
            } else {
                Some(BalanceValue::Text(t))
            }
        },
        Some(Json::Number(t)) => Some(BalanceValue::Number(t.clone())),
        _ => None,
    }
}

/// A reading of the Codex quota.
#[derive(Clone, Debug, PartialEq)]
pub struct QuotaSnapshot {
    pub plan: Option<String>,
    pub short_window: Option<WindowReading>,
    pub weekly_window: Option<WindowReading>,
    pub balance: Option<BalanceValue>,
    pub reset_credits: Option<u64>,
    /// Expiries of the reset credits, sorted, each once.
    pub reset_credit_expires_at: Vec<String>,
    pub updated_at: String,
}

/// The reset credit expiries of an app-server answer.
pub open spec fn app_expiries(value: Json) -> Seq<Seq<char>> {
    match credit_summary(value) {
        Some(summary) => credit_expiries(summary_credits(summary)),
        None => Seq::empty(),
    }
}

/// The available reset credits of an app-server answer.
pub open spec fn app_credit_count(value: Json) -> Option<u64> {
    match credit_summary(value) {
        Some(summary) => summary_count(summary),
        None => None,
    }
}

/// The plan of an app-server answer: the rate limit's plan type in upper
/// case, else `API` when it reports a balance.
pub open spec fn app_plan(rate_limit: Json) -> Option<Seq<char>> {
    match pick_string_spec(rate_limit, seq!["planType"@, "plan_type"@]) {
        Some(p) => Some(unicode_uppercase(p)),
        None => if app_balance_spec(rate_limit) is Some {
            Some("API"@)
        } else {
            None
        },
    }
}

/// `snap` is the app-server reading of `value`, taken at `updated_at`.
pub open spec fn app_snapshot_matches(value: Json, snap: QuotaSnapshot) -> bool {
    match app_server_rate_limit_spec(value) {
        None => false,
        Some(rate_limit) => {
            &&& opt_reading(snap.short_window) == match get(rate_limit, "primary"@) {
                Some(w) => app_window_spec(w),
                None => None,
            }
            &&& opt_reading(snap.weekly_window) == match get(rate_limit, "secondary"@) {
                Some(w) => app_window_spec(w),
                None => None,
            }
            &&& opt_balance(snap.balance) == app_balance_spec(rate_limit)
            &&& (snap.short_window is Some || snap.weekly_window is Some || snap.balance is Some)
            &&& opt_view(snap.plan) == app_plan(rate_limit)
            &&& snap.reset_credits == app_credit_count(value)
            &&& sorted_strict(string_views(snap.reset_credit_expires_at@))
            &&& forall|t: Seq<char>| #[trigger] string_views(snap.reset_credit_expires_at@).contains(
                t,
            ) <==> app_expiries(value).contains(t)
        },
    }
}

/// An app-server answer holds a quota reading: a rate limit with a window
/// or a balance.
pub open spec fn app_snapshot_exists(value: Json) -> bool {
    match app_server_rate_limit_spec(value) {
        None => false,
        Some(rate_limit) => (match get(rate_limit, "primary"@) {
            Some(w) => app_window_spec(w) is Some,
            None => false,
        }) || (match get(rate_limit, "secondary"@) {
            Some(w) => app_window_spec(w) is Some,
            None => false,
        }) || app_balance_spec(rate_limit) is Some,
    }
}

/// The quota reading of an app-server answer, taken at `now`.
pub fn app_server_snapshot_at(value: &Json, now: String) -> (r: Option<QuotaSnapshot>)
    ensures
        match r {
            Some(snap) => app_snapshot_matches(*value, snap) && snap.updated_at == now,
            None => !app_snapshot_exists(*value),
        },
{
    let rate_limit = match app_server_rate_limit(value) {
        Some(x) => x,
        None => {
            return None;
        },
    };
    let short_window = parse_app_server_window(get_member(rate_limit, "primary"));
    let weekly_window = parse_app_server_window(get_member(rate_limit, "secondary"));
    let balance = app_server_balance(rate_limit);
    if short_window.is_none() && weekly_window.is_none() && balance.is_none() {
        return None;
    }
    let (reset_credits, reset_credit_expires_at) = app_server_reset_credits(value);
    let pkeys = ["planType", "plan_type"];
    assert(key_views(pkeys@) =~= seq!["planType"@, "plan_type"@]);
    let plan = match pick_string(rate_limit, &pkeys) {
        Some(p) => Some(crate::text::to_uppercase(p.as_str())),
        None => match balance {
            Some(_) => Some(String::from_str("API")),
            None => None,
        },
    };
    Some(
        QuotaSnapshot {
            plan,
            short_window,
            weekly_window,
            balance,
            reset_credits,
            reset_credit_expires_at,
            updated_at: now,
        },
    )
}

/// The rate limit of a usage document: its `rate_limit` or `rateLimit`
/// member, else the document itself.
pub open spec fn wham_rate_limit(usage: Json) -> Json {
    match get(usage, "rate_limit"@) {
        Some(r) => r,
        None => match get(usage, "rateLimit"@) {
            Some(r) => r,
            None => usage,
        },
    }
}

/// The names the five-hour window goes by.
pub open spec fn short_window_names() -> Seq<Seq<char>> {
    seq![
        "primary_window"@,
        "primaryWindow"@,
        "short_window"@,
        "shortWindow"@,
        "five_hour_window"@,
        "fiveHourWindow"@,
        "5h"@,
        "primary"@,
    ]
}

/// The names the weekly window goes by, the primary window last.
pub open spec fn weekly_window_names() -> Seq<Seq<char>> {
    seq![
        "secondary_window"@,
        "secondaryWindow"@,
        "weekly_window"@,
        "weeklyWindow"@,
        "week_window"@,
        "weekWindow"@,
        "weekly"@,
        "secondary"@,
        "primary_window"@,
        "primaryWindow"@,
        "primary"@,
    ]
}

/// Seconds in five hours and in a week.
pub const SHORT_WINDOW_SECONDS: u64 = 18_000;

pub const WEEKLY_WINDOW_SECONDS: u64 = 604_800;

/// The reading of the window found under `names` near `expected` seconds.
pub open spec fn window_found(rate_limit: Json, names: Seq<Seq<char>>, expected: u64) -> Option<
    WindowReadingView,
> {
    match find_window_spec(rate_limit, names, expected) {
        Some(w) => window_spec(w),
        None => None,
    }
}

pub open spec fn short_window_of(usage: Json) -> Option<WindowReadingView> {
    window_found(wham_rate_limit(usage), short_window_names(), SHORT_WINDOW_SECONDS)
}

pub open spec fn weekly_window_of(usage: Json) -> Option<WindowReadingView> {
    window_found(wham_rate_limit(usage), weekly_window_names(), WEEKLY_WINDOW_SECONDS)
}

/// The reset credit summary a usage document carries.
pub open spec fn usage_credits(usage: Json) -> Option<Json> {
    match get(usage, "rate_limit_reset_credits"@) {
        Some(c) => Some(c),
        None => get(usage, "rateLimitResetCredits"@),
    }
}

/// The keys a reset credit count goes by.
pub open spec fn count_keys() -> Seq<Seq<char>> {
    seq!["available_count"@, "availableCount"@, "remaining"@, "count"@, "quantity"@]
}

/// The reset credits available: those of the credits document when it
/// counts them, else those of the usage document.
pub open spec fn wham_credit_count(usage: Json, credits: Option<Json>) -> Option<u64> {
    let fallback = match usage_credits(usage) {
        Some(c) => integer_spec(c, count_keys()),
        None => None,
    };
    match credits {
        Some(v) => match integer_spec(v, count_keys()) {
            Some(n) => Some(n),
            None => fallback,
        },
        None => fallback,
    }
}

/// The reset credit expiries: those of the credits document when it holds
/// any, else those of the usage document.
pub open spec fn wham_expiries(usage: Json, credits: Option<Json>) -> Seq<Seq<char>> {
    let fallback = match usage_credits(usage) {
        Some(c) => expirations_in(c),
        None => Seq::empty(),
    };
    match credits {
        Some(v) => if expirations_in(v).len() == 0 {
            fallback
        } else {
            expirations_in(v)
        },
        None => fallback,
    }
}

/// The plan a usage document names, in upper case.
pub open spec fn wham_plan(usage: Json) -> Option<Seq<char>> {
    match pick_string_spec(usage, seq!["plan_type"@, "planType"@]) {
        Some(p) => Some(unicode_uppercase(p)),
        None => None,
    }
}

/// `snap` is the reading of a usage document and of the reset credits
/// document fetched beside it (`None` when that fetch failed).
pub open spec fn wham_snapshot_matches(usage: Json, credits: Option<Json>, snap: QuotaSnapshot) -> bool {
    &&& opt_reading(snap.short_window) == short_window_of(usage)
    &&& opt_reading(snap.weekly_window) == weekly_window_of(usage)
    &&& snap.balance is None
    &&& opt_view(snap.plan) == wham_plan(usage)
    &&& snap.reset_credits == wham_credit_count(usage, credits)
    &&& sorted_strict(string_views(snap.reset_credit_expires_at@))
    &&& forall|t: Seq<char>| #[trigger] string_views(snap.reset_credit_expires_at@).contains(t)
        <==> wham_expiries(usage, credits).contains(t)
}

/// The message given when a usage document has neither window.
pub open spec fn no_window_message() -> Seq<char> {
    "Quota response does not contain a recognized usage window."@
}

/// The reading of the usage document and the reset credits document
/// (`None` when that fetch failed), taken at `now`; an error when the
/// usage document holds neither the five-hour nor the weekly window.
pub fn wham_snapshot_at(usage: &Json, credits: &Option<Json>, now: String) -> (r: Result<
    QuotaSnapshot,
    &'static str,
>)
    ensures
        match r {
            Ok(snap) => wham_snapshot_matches(*usage, *credits, snap) && snap.updated_at == now
                && (short_window_of(*usage) is Some || weekly_window_of(*usage) is Some),
            Err(message) => short_window_of(*usage) is None && weekly_window_of(*usage) is None
                && message@ == no_window_message(),
        },
{
    let rate_limit = match get_member(usage, "rate_limit") {
        Some(x) => x,
        None => match get_member(usage, "rateLimit") {
            Some(x) => x,
            None => usage,
        },
    };
    let short_names = [
        "primary_window",
        "primaryWindow",
        "short_window",
        "shortWindow",
        "five_hour_window",
        "fiveHourWindow",
        "5h",
        "primary",
    ];
    assert(key_views(short_names@) =~= short_window_names());
    let weekly_names = [
        "secondary_window",
        "secondaryWindow",
        "weekly_window",
        "weeklyWindow",
        "week_window",
        "weekWindow",
        "weekly",
        "secondary",
        "primary_window",
        "primaryWindow",
        "primary",
    ];
    assert(key_views(weekly_names@) =~= weekly_window_names());
    let short_window = parse_window(find_window(rate_limit, &short_names, SHORT_WINDOW_SECONDS));
    let weekly_window = parse_window(find_window(rate_limit, &weekly_names, WEEKLY_WINDOW_SECONDS));
    if short_window.is_none() && weekly_window.is_none() {
        return Err("Quota response does not contain a recognized usage window.");
    }
    let usage_credits = match get_member(usage, "rate_limit_reset_credits") {
        Some(c) => Some(c),
        None => get_member(usage, "rateLimitResetCredits"),
    };
    let counts = ["available_count", "availableCount", "remaining", "count", "quantity"];
    assert(key_views(counts@) =~= count_keys());
    let usage_reset_credits = match usage_credits {
        Some(c) => integer(c, &counts),
        None => None,
    };
    let usage_expires = match usage_credits {
        Some(c) => collect_reset_credit_expirations(c),
        None => Vec::new(),
    };
    proof {
        assert(usage_credits is None ==> string_views(usage_expires@) =~= Seq::<Seq<char>>::empty());
    }
    let (reset_credits, reset_credit_expires_at) = match credits {
        Some(value) => {
            let count = match integer(value, &counts) {
                Some(n) => Some(n),
                None => usage_reset_credits,
            };
            let found = collect_reset_credit_expirations(value);
            if found.len() == 0 {
                proof {
                    if expirations_in(*value).len() > 0 {
                        assert(expirations_in(*value).contains(expirations_in(*value)[0]));
                        assert(string_views(found@).contains(expirations_in(*value)[0]));
                    }
                }
                (count, usage_expires)
            } else {
                proof {
                    let t = string_views(found@)[0];
                    assert(string_views(found@).contains(t));
                    assert(expirations_in(*value).contains(t));
                }
                (count, found)
            }
        },
        None => (usage_reset_credits, usage_expires),
    };
    let plan_keys = ["plan_type", "planType"];
    assert(key_views(plan_keys@) =~= seq!["plan_type"@, "planType"@]);
    let plan = match pick_string(usage, &plan_keys) {
        Some(p) => Some(crate::text::to_uppercase(p.as_str())),
        None => None,
    };
    Ok(
        QuotaSnapshot {
            plan,
            short_window,
            weekly_window,
            balance: None,
            reset_credits,
            reset_credit_expires_at,
            updated_at: now,
        },
    )
}

/// The status and message shown for a failed quota request, by its HTTP
/// status code.
pub open spec fn http_failure(status: u16) -> (Seq<char>, Seq<char>) {
    if status == 401 || status == 403 {
        ("signed_out"@, "Codex login expired. Please sign in again."@)
    } else if status == 429 {
        ("unavailable"@, "Quota service is rate limited. It will retry automatically."@)
    } else {
        ("unavailable"@, "Quota service is temporarily unavailable."@)
    }
}

/// The status and message shown for a quota request the service refused
/// with HTTP status `status`.
pub fn safe_http_failure(status: u16) -> (r: (&'static str, &'static str))
    ensures
        (r.0@, r.1@) == http_failure(status),
{
    if status == 401 || status == 403 {
        ("signed_out", "Codex login expired. Please sign in again.")
    } else if status == 429 {
        ("unavailable", "Quota service is rate limited. It will retry automatically.")
    } else {
        ("unavailable", "Quota service is temporarily unavailable.")
    }
}

/// `s` is the decimal text of `n` (`u64::to_string`): digits only, of that
/// value, without leading zeros.
pub open spec fn is_decimal_of(s: Seq<char>, n: u64) -> bool {
    &&& s.len() > 0
    &&& crate::json::all_digits(s)
    &&& crate::json::decimal_value(s) == n
    &&& (s.len() == 1 || s[0] != '0')
}

/// The `id` of an app-server message is `id`, as a number or as its
/// decimal text.
pub open spec fn id_matches(v: Json, id: u64) -> bool {
    match get(v, "id"@) {
        Some(x) => crate::json::as_u64(x) == Some(id) || match as_str(x) {
            Some(s) => is_decimal_of(s, id),
            None => false,
        },
        None => false,
    }
}

/// Whether an app-server message answers the request numbered `id`.
pub fn response_id_is(value: &Json, id: u64) -> (b: bool)
    ensures
        b == id_matches(*value, id),
{
    match get_member(value, "id") {
        Some(Json::Number(t)) => match crate::json::number_text_u64(t) {
            Some(n) => n == id,
            None => false,
        },
        Some(Json::Str(s)) => {
            let c = chars_of(s.as_str());
            assert(c@.subrange(0, c@.len() as int) =~= c@);
            match crate::json::parse_digits(&c, 0, c.len()) {
                Some(n) => n == id && (c.len() == 1 || c[0] != '0'),
                None => false,
            }
        },
        _ => false,
    }
}

/// What an app-server message means to a client awaiting the answer to
/// request `id`.
#[derive(Clone, Debug, PartialEq)]
pub enum AppServerReply<'a> {
    /// Another message: keep reading.
    Other,
    /// The request failed: the answer carries an error, or no result.
    Failed,
    /// The request's result.
    Answer(&'a Json),
}

/// The meaning of a message to a client awaiting the answer to request
/// `id`: `None` for another message, `Some(None)` for a failure, else
/// `Some(Some(result))`.
pub open spec fn reply_spec(value: Json, id: u64) -> Option<Option<Json>> {
    if !id_matches(value, id) {
        None
    } else if get(value, "error"@) is Some {
        Some(None)
    } else {
        match get(value, "result"@) {
            Some(r) => Some(Some(r)),
            None => Some(None),
        }
    }
}

/// Reads an app-server message as the answer to request `id`.
pub fn app_server_reply<'a>(value: &'a Json, id: u64) -> (r: AppServerReply<'a>)
    ensures
        reply_spec(*value, id) == match r {
            AppServerReply::Other => None,
            AppServerReply::Failed => Some(None),
            AppServerReply::Answer(x) => Some(Some(*x)),
        },
{
    if !response_id_is(value, id) {
        return AppServerReply::Other;
    }
    if get_member(value, "error").is_some() {
        return AppServerReply::Failed;
    }
    match get_member(value, "result") {
        Some(r) => AppServerReply::Answer(r),
        None => AppServerReply::Failed,
    }
}

/// What one line of the app-server's output means to a client awaiting the
/// answer to request `id`.
#[derive(Debug, PartialEq)]
pub enum AppServerLine {
    /// The line is not a JSON document.
    Unreadable,
    /// Another message: keep reading.
    Other,
    /// The request failed: the answer carries an error, or no result.
    Failed,
    /// The request's result.
    Answer(Json),
}

/// Reads one line of the app-server's output as the answer to request `id`.
pub fn app_server_line(line: &str, id: u64) -> (r: AppServerLine)
    ensures
        match json_document(line@) {
            None => r == AppServerLine::Unreadable,
            Some(value) => match r {
                AppServerLine::Unreadable => false,
                AppServerLine::Other => reply_spec(value, id) is None,
                AppServerLine::Failed => reply_spec(value, id) == Some(None::<Json>),
                AppServerLine::Answer(x) => reply_spec(value, id) == Some(Some(x)),
            },
        },
{
    let value = match parse_json(line) {
        Some(v) => v,
        None => {
            return AppServerLine::Unreadable;
        },
    };
    match app_server_reply(&value, id) {
        AppServerReply::Other => {
            return AppServerLine::Other;
        },
        AppServerReply::Failed => {
            return AppServerLine::Failed;
        },
        AppServerReply::Answer(_) => {},
    }
    match take_member(value, "result") {
        Some(result) => AppServerLine::Answer(result),
        None => AppServerLine::Failed,
    }
}

/// The message given when the usage document is not a JSON document.
pub open spec fn format_changed_message() -> Seq<char> {
    "Quota response format has changed."@
}

/// The reading of the bodies of the usage answer and of the reset credits
/// answer (`None` when that request failed), taken at `now`: an error when
/// the usage body is not a JSON document or holds neither window; a reset
/// credits body that is not a JSON document counts as a failed request.
pub fn wham_snapshot_from_bytes(usage: &[u8], credits: Option<&[u8]>, now: String) -> (r: Result<
    QuotaSnapshot,
    &'static str,
>)
    ensures
        match json_bytes_document(usage@) {
            None => r matches Err(m) && m@ == format_changed_message(),
            Some(u) => {
                let c = match credits {
                    Some(b) => json_bytes_document(b@),
                    None => None,
                };
                match r {
                    Ok(snap) => wham_snapshot_matches(u, c, snap) && snap.updated_at == now && (
                    short_window_of(u) is Some || weekly_window_of(u) is Some),
                    Err(message) => short_window_of(u) is None && weekly_window_of(u) is None
                        && message@ == no_window_message(),
                }
            },
        },
{
    let usage = match parse_json_bytes(usage) {
        Some(v) => v,
        None => {
            return Err("Quota response format has changed.");
        },
    };
    let credits = match credits {
        Some(b) => parse_json_bytes(b),
        None => None,
    };
    wham_snapshot_at(&usage, &credits, now)
}

} // verus!
