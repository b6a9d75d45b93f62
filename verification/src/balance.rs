//! Finding the account balance in the documents that API providers answer
//! their balance endpoints with, and the decisions of the search over those
//! endpoints.

use vstd::prelude::*;
use crate::json::{get, get_member, json_bytes_document, key_views, member_index, parse_json_bytes, Json};
use crate::quota::{BalanceValue, BalanceValueView, opt_balance};
use crate::text::{chars_of, contains, contains_ignore_ascii_case, lower, trim};
use vstd::string::*;
use vstd::std_specs::hash::DefaultHasherAdditionalSpecFns;
use std::collections::hash_map::DefaultHasher;
use std::hash::{Hash, Hasher};

verus! {

/// The keys a balance is read from directly, in order of preference.
pub open spec fn balance_keys() -> Seq<Seq<char>> {
    seq![
        "total_available"@,
        "totalAvailable"@,
        "available_balance"@,
        "availableBalance"@,
        "balance"@,
        "quota_remaining"@,
        "quotaRemaining"@,
        "remaining_quota"@,
        "remainingQuota"@,
        "remaining_balance"@,
        "remainingBalance"@,
        "remaining"@,
        "remain_quota"@,
        "remainQuota"@,
        "quota"@,
        "credits"@,
        "credit"@,
        "amount"@,
    ]
}

/// The balance a member of `v` holds directly.
pub open spec fn member_direct_balance(v: Json, key: Seq<char>) -> Option<BalanceValueView> {
    match get(v, key) {
        Some(x) => direct_balance(x),
        None => None,
    }
}

proof fn lemma_direct_in_at(v: Json, keys: Seq<Seq<char>>, n: int)
    requires
        0 <= n < keys.len(),
        member_direct_balance(v, keys[n]) is Some,
        forall|j: int| 0 <= j < n ==> member_direct_balance(v, #[trigger] keys[j]) is None,
    ensures
        direct_in(v, keys) == member_direct_balance(v, keys[n]),
    decreases n,
{
    if n > 0 {
        assert forall|j: int| 0 <= j < n - 1 implies member_direct_balance(v, #[trigger] keys.drop_first()[j])
            is None by {
            assert(keys.drop_first()[j] == keys[j + 1]);
        }
        assert(member_direct_balance(v, keys[0]) is None);
        lemma_direct_in_at(v, keys.drop_first(), n - 1);
    }
}

/// The balance of an object is read first from these eighteen members, in
/// this order: the first of them whose value is a number or a non-blank
/// string gives the balance (`{"available_balance": 49.58, "cash_balance":
/// 3.0}` gives 49.58).
pub proof fn lemma_balance_key_order(v: Json, keys: Seq<Seq<char>>, n: int)
    requires
        keys == seq![
            "total_available"@, "totalAvailable"@, "available_balance"@, "availableBalance"@,
            "balance"@, "quota_remaining"@, "quotaRemaining"@, "remaining_quota"@,
            "remainingQuota"@, "remaining_balance"@, "remainingBalance"@, "remaining"@,
            "remain_quota"@, "remainQuota"@, "quota"@, "credits"@, "credit"@, "amount"@,
        ],
        v is Object,
        0 <= n < 18,
        member_direct_balance(v, keys[n]) is Some,
        forall|j: int| 0 <= j < n ==> member_direct_balance(v, #[trigger] keys[j]) is None,
    ensures
        balance_in(v) == member_direct_balance(v, keys[n]),
{
    assert(keys =~= balance_keys());
    lemma_direct_in_at(v, keys, n);
}

/// The members a balance is looked for inside before any other member.
pub open spec fn nested_balance_keys() -> Seq<Seq<char>> {
    seq!["data"@, "result"@, "credit_grants"@, "creditGrants"@]
}

/// A value that is itself a balance: a non-blank string, trimmed, or a
/// number.
pub open spec fn direct_balance(v: Json) -> Option<BalanceValueView> {
    match v {
        Json::Str(s) => if trim(s@).len() > 0 {
            Some(BalanceValueView::Text(trim(s@)))
        } else {
            None
        },
        Json::Number(t) => Some(BalanceValueView::Number(t@)),
        _ => None,
    }
}

/// The balance under the first of `keys` whose member is itself a balance.
pub open spec fn direct_in(v: Json, keys: Seq<Seq<char>>) -> Option<BalanceValueView>
    decreases keys.len(),
{
    if keys.len() == 0 {
        None
    } else {
        match get(v, keys[0]) {
            Some(x) => match direct_balance(x) {
                Some(b) => Some(b),
                None => direct_in(v, keys.drop_first()),
            },
            None => direct_in(v, keys.drop_first()),
        }
    }
}

/// The balance found inside the member under the first of `keys` that
/// holds one.
pub open spec fn nested_in(members: Seq<(String, Json)>, keys: Seq<Seq<char>>) -> Option<
    BalanceValueView,
>
    decreases members, keys.len(),
{
    if keys.len() == 0 {
        None
    } else {
        match member_index(members, keys[0]) {
            Some(i) => if 0 <= i < members.len() {
                match balance_in(members[i].1) {
                    Some(b) => Some(b),
                    None => nested_in(members, keys.drop_first()),
                }
            } else {
                None
            },
            None => nested_in(members, keys.drop_first()),
        }
    }
}

/// The words that name a record of consumption rather than of funds: a
/// member whose name holds one of them, in any ASCII case, holds usage or
/// request counts (`daily_usage`, `request_count`, ...).
pub open spec fn usage_words() -> Seq<Seq<char>> {
    seq!["usage"@, "request"@]
}

/// A member name that holds one of the usage words.
pub open spec fn usage_record(key: Seq<char>) -> bool {
    exists|k: int| 0 <= k < usage_words().len() && #[trigger] contains(lower(key), lower(usage_words()[k]))
}

/// The balance found inside the first member, not a usage record, that
/// holds one.
pub open spec fn members_balance(members: Seq<(String, Json)>) -> Option<BalanceValueView>
    decreases members, 0nat,
{
    if members.len() == 0 {
        None
    } else if usage_record(members[0].0@) {
        members_balance(members.drop_first())
    } else {
        match balance_in(members[0].1) {
            Some(b) => Some(b),
            None => members_balance(members.drop_first()),
        }
    }
}

/// The balance found inside the first item that holds one.
pub open spec fn items_balance(items: Seq<Json>) -> Option<BalanceValueView>
    decreases items, 0nat,
{
    if items.len() == 0 {
        None
    } else {
        match balance_in(items[0]) {
            Some(b) => Some(b),
            None => items_balance(items.drop_first()),
        }
    }
}

/// The balance a document gives: for an object, the first of the balance
/// keys whose member is itself a balance, else the balance inside `data`,
/// `result`, `credit_grants` or `creditGrants`, else the balance inside the
/// first member holding one that is not a usage record; for a list, the
/// balance inside the first item holding one.
pub open spec fn balance_in(v: Json) -> Option<BalanceValueView>
    decreases v, 0nat,
{
    match v {
        Json::Object(members) => match direct_in(v, balance_keys()) {
            Some(b) => Some(b),
            None => match nested_in(members@, nested_balance_keys()) {
                Some(b) => Some(b),
                None => members_balance(members@),
            },
        },
        Json::Array(items) => items_balance(items@),
        _ => None,
    }
}

/// A value that is itself a balance: a non-blank string, trimmed, or a
/// number.
pub fn direct_balance_value(value: &Json) -> (r: Option<BalanceValue>)
    ensures
        opt_balance(r) == direct_balance(*value),
{
    match value {
        Json::Str(s) => {
            let t = crate::text::trim_str(s.as_str());
            if t.as_str().is_empty() {
                None
            } else {
                Some(BalanceValue::Text(t))
            }
        },
        Json::Number(t) => Some(BalanceValue::Number(t.clone())),
        _ => None,
    }
}

fn direct_balance_in(value: &Json, keys: &[&str]) -> (r: Option<BalanceValue>)
    ensures
        opt_balance(r) == direct_in(*value, key_views(keys@)),
{
    let mut i: usize = 0;
    assert(key_views(keys@).skip(0) =~= key_views(keys@));
    while i < keys.len()
        invariant
            i <= keys.len(),
            direct_in(*value, key_views(keys@)) == direct_in(*value, key_views(keys@).skip(i as int)),
        decreases keys.len() - i,
    {
        let ghost rest = key_views(keys@).skip(i as int);
        assert(rest[0] == keys@[i as int]@);
        assert(rest.drop_first() =~= key_views(keys@).skip(i + 1));
        match get_member(value, keys[i]) {
            Some(x) => match direct_balance_value(x) {
                Some(b) => {
                    return Some(b);
                },
                None => {},
            },
            None => {},
        }
        i = i + 1;
    }
    None
}

/// Whether a member name is a usage record (`usage_record`).
pub fn is_usage_record(key: &String) -> (b: bool)
    ensures
        b == usage_record(key@),
{
    let k = chars_of(key.as_str());
    let words = ["usage", "request"];
    assert(key_views(words@) =~= usage_words());
    let mut i: usize = 0;
    while i < words.len()
        invariant
            i <= words.len(),
            k@ == key@,
            key_views(words@) == usage_words(),
            forall|j: int| 0 <= j < i ==> !contains(lower(key@), lower(#[trigger] usage_words()[j])),
        decreases words.len() - i,
    {
        let w = chars_of(words[i]);
        assert(usage_words()[i as int] == words@[i as int]@);
        if contains_ignore_ascii_case(&k, &w) {
            assert(contains(lower(key@), lower(usage_words()[i as int])));
            return true;
        }
        i = i + 1;
    }
    false
}

fn find_balance(value: &Json) -> (r: Option<BalanceValue>)
    ensures
        opt_balance(r) == balance_in(*value),
    decreases *value,
{
    match value {
        Json::Object(members) => {
            let keys = [
                "total_available",
                "totalAvailable",
                "available_balance",
                "availableBalance",
                "balance",
                "quota_remaining",
                "quotaRemaining",
                "remaining_quota",
                "remainingQuota",
                "remaining_balance",
                "remainingBalance",
                "remaining",
                "remain_quota",
                "remainQuota",
                "quota",
                "credits",
                "credit",
                "amount",
            ];
            assert(key_views(keys@) =~= balance_keys());
            match direct_balance_in(value, &keys) {
                Some(b) => {
                    return Some(b);
                },
                None => {},
            }
            let nested = ["data", "result", "credit_grants", "creditGrants"];
            assert(key_views(nested@) =~= nested_balance_keys());
            let ghost ns = nested_balance_keys();
            let mut j: usize = 0;
            assert(ns.skip(0) =~= ns);
            while j < nested.len()
                invariant
                    j <= nested.len(),
                    *value == Json::Object(*members),
                    key_views(nested@) == ns,
                    ns == nested_balance_keys(),
                    direct_in(*value, balance_keys()) is None,
                    nested_in(members@, ns) == nested_in(members@, ns.skip(j as int)),
                decreases nested.len() - j,
            {
                let ghost rest = ns.skip(j as int);
                assert(rest[0] == nested@[j as int]@);
                assert(rest.drop_first() =~= ns.skip(j + 1));
                proof {
                    crate::json::lemma_member_index_range(members@, nested@[j as int]@);
                }
                match get_member(value, nested[j]) {
                    Some(x) => {
                        proof {
                            let k = member_index(members@, nested@[j as int]@)->Some_0;
                            assert(decreases_to!(*value => (*value)->Object_0));
                            assert(decreases_to!(*members => members@));
                            assert(decreases_to!(members@ => members@[k]));
                            assert(decreases_to!(members@[k] => members@[k].1));
                            assert(*x == members@[k].1);
                        }
                        match find_balance(x) {
                            Some(b) => {
                                return Some(b);
                            },
                            None => {},
                        }
                    },
                    None => {},
                }
                j = j + 1;
            }
            assert(ns.skip(j as int).len() == 0);
            let mut i: usize = 0;
            assert(members@.skip(0) =~= members@);
            while i < members.len()
                invariant
                    i <= members.len(),
                    *value == Json::Object(*members),
                    direct_in(*value, balance_keys()) is None,
                    nested_in(members@, nested_balance_keys()) is None,
                    members_balance(members@) == members_balance(members@.skip(i as int)),
                decreases members.len() - i,
            {
                assert(members@.skip(i as int).drop_first() =~= members@.skip(i + 1));
                assert(members@.skip(i as int)[0] == members@[i as int]);
                if is_usage_record(&members[i].0) {
                    i = i + 1;
                    continue;
                }
                proof {
                    assert(decreases_to!(*value => (*value)->Object_0));
                    assert(decreases_to!(*members => members@));
                    assert(decreases_to!(members@ => members@[i as int]));
                    assert(decreases_to!(members@[i as int] => members@[i as int].1));
                }
                match find_balance(&members[i].1) {
                    Some(b) => {
                        return Some(b);
                    },
                    None => {},
                }
                i = i + 1;
            }
            None
        },
        Json::Array(items) => {
            let mut i: usize = 0;
            assert(items@.skip(0) =~= items@);
            while i < items.len()
                invariant
                    i <= items.len(),
                    *value == Json::Array(*items),
                    items_balance(items@) == items_balance(items@.skip(i as int)),
                decreases items.len() - i,
            {
                assert(items@.skip(i as int).drop_first() =~= items@.skip(i + 1));
                assert(items@.skip(i as int)[0] == items@[i as int]);
                proof {
                    assert(decreases_to!(*value => (*value)->Array_0));
                    assert(decreases_to!(*items => items@));
                    assert(decreases_to!(items@ => items@[i as int]));
                }
                match find_balance(&items[i]) {
                    Some(b) => {
                        return Some(b);
                    },
                    None => {},
                }
                i = i + 1;
            }
            None
        },
        _ => None,
    }
}

/// The balance a balance endpoint answered with: see `balance_in`. It is
/// always the value of a balance-named member reached without passing
/// through a usage record.
pub fn balance_from_json(value: &Json) -> (r: Option<BalanceValue>)
    ensures
        opt_balance(r) == balance_in(*value),
        r matches Some(b) ==> balance_member_in(*value, b@),
{
    proof {
        lemma_balance_in_member(*value);
    }
    find_balance(value)
}

/// An HTTP status in the success range (`StatusCode::is_success`).
pub fn is_success_status(status: u16) -> (b: bool)
    ensures
        b == (200 <= status < 300),
{
    200 <= status && status < 300
}

/// What one balance endpoint answered.
#[derive(Debug, PartialEq)]
pub enum ProbeReply {
    /// The request failed before any answer.
    Unreachable,
    /// The endpoint answered with this status, outside the success range.
    Refused(u16),
    /// The endpoint answered with success, but not with a JSON document
    /// (or with one too large to read).
    Unreadable,
    /// The endpoint answered with success and this document.
    Document(Json),
}

/// The reply of an endpoint that answered with success and this body: its
/// document, or `Unreadable` when the body is not a JSON document.
pub fn document_reply(body: &[u8]) -> (r: ProbeReply)
    ensures
        r == match json_bytes_document(body@) {
            Some(value) => ProbeReply::Document(value),
            None => ProbeReply::Unreadable,
        },
{
    match parse_json_bytes(body) {
        Some(value) => ProbeReply::Document(value),
        None => ProbeReply::Unreadable,
    }
}

/// What the search does after an endpoint's answer.
#[derive(Clone, Debug, PartialEq)]
pub enum ProbeVerdict {
    /// The provider rejected the API key: the search ends, signed out.
    Rejected,
    /// The answer holds this balance: the search ends with it.
    Found(BalanceValue),
    /// The search goes on with the next endpoint.
    Next,
}

/// The verdict on an endpoint's answer: an authorization refusal (401 or
/// 403) ends the search, a document holding a balance ends it with that
/// balance, anything else moves on.
pub open spec fn verdict_on(reply: ProbeReply) -> Option<Option<BalanceValueView>> {
    match reply {
        ProbeReply::Refused(status) => if status == 401 || status == 403 {
            Some(None)
        } else {
            None
        },
        ProbeReply::Document(doc) => match balance_in(doc) {
            Some(b) => Some(Some(b)),
            None => None,
        },
        _ => None,
    }
}

/// A verdict as a value: `Some(None)` when the key was refused,
/// `Some(Some(b))` when the balance `b` was found, `None` to go on.
pub open spec fn verdict_view(v: ProbeVerdict) -> Option<Option<BalanceValueView>> {
    match v {
        ProbeVerdict::Rejected => Some(None),
        ProbeVerdict::Found(b) => Some(Some(b@)),
        ProbeVerdict::Next => None,
    }
}

/// The endpoint answered with success.
pub open spec fn answered(reply: ProbeReply) -> bool {
    reply is Unreadable || reply is Document
}

/// The state of a search for the balance over a provider's endpoints.
#[derive(Clone, Debug, PartialEq)]
pub struct BalanceSearch {
    /// Some endpoint answered with success.
    pub saw_success: bool,
}

pub const REJECTED_KEY_MESSAGE: &'static str = "API key was rejected by the provider.";

pub const CC_SWITCH_WITHOUT_BALANCE_MESSAGE: &'static str =
    "CC Switch is connected, but no USD balance endpoint was detected. Enable Usage Query in CC Switch or set balance_url in Codex config.";

pub const UNRECOGNIZED_BALANCE_MESSAGE: &'static str =
    "API balance response did not contain a recognized balance field.";

pub const NO_BALANCE_ENDPOINT_MESSAGE: &'static str =
    "API key is connected, but this provider does not expose a supported balance endpoint.";

/// Why a search that found no balance failed: the local CC Switch proxy
/// answered without a balance endpoint, or an endpoint answered without a
/// recognized balance, or none answered.
pub open spec fn search_failure(saw_cc_switch: bool, saw_success: bool) -> Seq<char> {
    if saw_cc_switch {
        CC_SWITCH_WITHOUT_BALANCE_MESSAGE@
    } else if saw_success {
        UNRECOGNIZED_BALANCE_MESSAGE@
    } else {
        NO_BALANCE_ENDPOINT_MESSAGE@
    }
}

impl BalanceSearch {
    /// A search that has seen no answer yet.
    pub fn new() -> (r: BalanceSearch)
        ensures
            !r.saw_success,
    {
        BalanceSearch { saw_success: false }
    }

    /// Takes in one endpoint's answer: remembers whether it was a success,
    /// and says whether the search ends.
    pub fn observe(&mut self, reply: &ProbeReply) -> (r: ProbeVerdict)
        ensures
            verdict_view(r) == verdict_on(*reply),
            final(self).saw_success == (old(self).saw_success || answered(*reply)),
    {
        match reply {
            ProbeReply::Unreachable => ProbeVerdict::Next,
            ProbeReply::Refused(status) => {
                if *status == 401 || *status == 403 {
                    ProbeVerdict::Rejected
                } else {
                    ProbeVerdict::Next
                }
            },
            ProbeReply::Unreadable => {
                self.saw_success = true;
                ProbeVerdict::Next
            },
            ProbeReply::Document(doc) => {
                self.saw_success = true;
                match balance_from_json(doc) {
                    Some(b) => ProbeVerdict::Found(b),
                    None => ProbeVerdict::Next,
                }
            },
        }
    }

    /// The message of a search that ran out of endpoints, given whether the
    /// local CC Switch status page answered with success.
    pub fn failure_message(&self, saw_cc_switch: bool) -> (r: &'static str)
        ensures
            r@ == search_failure(saw_cc_switch, self.saw_success),
    {
        if saw_cc_switch {
            CC_SWITCH_WITHOUT_BALANCE_MESSAGE
        } else if self.saw_success {
            UNRECOGNIZED_BALANCE_MESSAGE
        } else {
            NO_BALANCE_ENDPOINT_MESSAGE
        }
    }
}

/// The plan shown for an API provider.
pub fn api_plan(provider_name: &str) -> (r: String)
    ensures
        r@ == "API \u{b7} "@ + provider_name@,
{
    let mut plan = String::from_str("API \u{b7} ");
    plan.append(provider_name);
    plan
}

/// The writes that hashing a string makes into a hasher (`str`'s `Hash`
/// impl): its UTF-8 bytes, then the byte `0xff`.
pub open spec fn str_hash_writes(s: Seq<char>) -> Seq<Seq<u8>> {
    seq![vstd::utf8::encode_utf8(s), seq![0xffu8]]
}

/// `<str as Hash>::hash` into a `DefaultHasher`, which writes the string's
/// bytes and then the byte `0xff` (`Hasher::write_str`).
#[verifier::external_body]
fn hash_str(part: &str, hasher: &mut DefaultHasher)
    ensures
        final(hasher)@ == old(hasher)@ + str_hash_writes(part@),
{
    part.hash(hasher)
}

/// The writes of hashing `parts` one after the other.
pub open spec fn hashed_parts(parts: Seq<Seq<char>>) -> Seq<Seq<u8>>
    decreases parts.len(),
{
    if parts.len() == 0 {
        Seq::empty()
    } else {
        hashed_parts(parts.drop_last()) + str_hash_writes(parts.last())
    }
}

/// The lower-case hexadecimal digit of `d`.
pub open spec fn hex_digit(d: nat) -> char {
    "0123456789abcdef"@[d as int]
}

/// `n` in `width` lower-case hexadecimal digits, the lowest last.
pub open spec fn hex_width(n: nat, width: nat) -> Seq<char>
    decreases width,
{
    if width == 0 {
        Seq::empty()
    } else {
        hex_width(n / 16, (width - 1) as nat).push(hex_digit(n % 16))
    }
}

fn push_hex(n: u64, width: u64, out: &mut String)
    ensures
        final(out)@ == old(out)@ + hex_width(n as nat, width as nat),
    decreases width,
{
    if width > 0 {
        push_hex(n / 16, width - 1, out);
        let digits = "0123456789abcdef";
        proof {
            reveal_strlit("0123456789abcdef");
        }
        let d = (n % 16) as usize;
        out.append(digits.substring_char(d, d + 1));
        assert(digits@.subrange(d as int, d + 1) =~= seq![hex_digit((n % 16) as nat)]);
    } else {
        assert(old(out)@ + hex_width(n as nat, 0) =~= old(out)@);
    }
}

/// The key a balance is remembered under: the `DefaultHasher` hash of the
/// parts, in sixteen lower-case hexadecimal digits (`{:016x}`).
pub open spec fn source_key(parts: Seq<Seq<char>>) -> Seq<char> {
    hex_width(DefaultHasher::spec_finish(hashed_parts(parts)) as nat, 16)
}

/// A key naming where a balance came from, without holding the API key:
/// the hash of the parts.
pub fn balance_source_key(parts: &[&str]) -> (r: String)
    ensures
        r@ == source_key(key_views(parts@)),
{
    let mut hasher = DefaultHasher::new();
    let mut i: usize = 0;
    while i < parts.len()
        invariant
            i <= parts.len(),
            hasher@ == hashed_parts(key_views(parts@).take(i as int)),
        decreases parts.len() - i,
    {
        assert(key_views(parts@).take(i + 1).drop_last() =~= key_views(parts@).take(i as int));
        hash_str(parts[i], &mut hasher);
        i = i + 1;
    }
    assert(key_views(parts@).take(i as int) =~= key_views(parts@));
    let mut key = String::new();
    push_hex(hasher.finish(), 16, &mut key);
    assert(key@ =~= Seq::<char>::empty() + hex_width(DefaultHasher::spec_finish(hasher@) as nat, 16));
    key
}

/// Every digit of `hex_width` is a lower-case hexadecimal digit, and there
/// are `width` of them.
proof fn lemma_hex_width(n: nat, width: nat)
    ensures
        hex_width(n, width).len() == width,
        forall|i: int| 0 <= i < width ==> "0123456789abcdef"@.contains(#[trigger] hex_width(n, width)[i]),
    decreases width,
{
    reveal_strlit("0123456789abcdef");
    if width > 0 {
        lemma_hex_width(n / 16, (width - 1) as nat);
        let d = (n % 16) as int;
        assert("0123456789abcdef"@[d] == hex_digit(n % 16));
        assert forall|i: int| 0 <= i < width implies "0123456789abcdef"@.contains(
            #[trigger] hex_width(n, width)[i],
        ) by {
            if i < width - 1 {
                assert(hex_width(n, width)[i] == hex_width(n / 16, (width - 1) as nat)[i]);
            }
        }
    }
}

/// A balance source key is sixteen lower-case hexadecimal digits, whatever
/// it was made from.
pub proof fn lemma_source_key_is_hex(parts: Seq<Seq<char>>)
    ensures
        source_key(parts).len() == 16,
        forall|i: int| 0 <= i < 16 ==> "0123456789abcdef"@.contains(#[trigger] source_key(parts)[i]),
{
    lemma_hex_width(DefaultHasher::spec_finish(hashed_parts(parts)) as nat, 16);
}

/// The member `key` of `v` is itself the balance `b`.
pub open spec fn direct_member(v: Json, key: Seq<char>, b: BalanceValueView) -> bool {
    match get(v, key) {
        Some(x) => direct_balance(x) == Some(b),
        None => false,
    }
}

/// One of the balance keys names a member of `v` that is itself `b`.
pub open spec fn has_balance_member(v: Json, b: BalanceValueView) -> bool {
    exists|k: int| 0 <= k < balance_keys().len() && #[trigger] direct_member(v, balance_keys()[k], b)
}

/// An object in the document holds `b` under one of the balance keys, and
/// it is reached from the top only through `data`, `result`,
/// `credit_grants`, `creditGrants`, list items, and members that are not
/// usage records.
pub open spec fn balance_member_in(v: Json, b: BalanceValueView) -> bool
    decreases v, 0nat,
{
    match v {
        Json::Object(members) => has_balance_member(v, b) || nested_hold(
            members@,
            nested_balance_keys(),
            b,
        ) || members_hold(members@, b),
        Json::Array(items) => items_hold(items@, b),
        _ => false,
    }
}

/// The member named by one of `keys` holds `b` (`balance_member_in`).
pub open spec fn nested_hold(members: Seq<(String, Json)>, keys: Seq<Seq<char>>, b: BalanceValueView) -> bool
    decreases members, keys.len(),
{
    keys.len() > 0 && ((match member_index(members, keys[0]) {
        Some(i) => 0 <= i < members.len() && balance_member_in(members[i].1, b),
        None => false,
    }) || nested_hold(members, keys.drop_first(), b))
}

/// Some member that is not a usage record holds `b` (`balance_member_in`).
pub open spec fn members_hold(members: Seq<(String, Json)>, b: BalanceValueView) -> bool
    decreases members, 0nat,
{
    members.len() > 0 && ((!usage_record(members[0].0@) && balance_member_in(members[0].1, b))
        || members_hold(members.drop_first(), b))
}

/// Some item holds the balance `b` (`balance_member_in`).
pub open spec fn items_hold(items: Seq<Json>, b: BalanceValueView) -> bool
    decreases items, 0nat,
{
    items.len() > 0 && (balance_member_in(items[0], b) || items_hold(items.drop_first(), b))
}

proof fn lemma_direct_in_member(v: Json, keys: Seq<Seq<char>>)
    ensures
        direct_in(v, keys) matches Some(b) ==> exists|k: int|
            0 <= k < keys.len() && #[trigger] direct_member(v, keys[k], b),
    decreases keys.len(),
{
    if keys.len() > 0 {
        lemma_direct_in_member(v, keys.drop_first());
        if let Some(b) = direct_in(v, keys) {
            if direct_member(v, keys[0], b) {
            } else {
                let k = choose|k: int|
                    0 <= k < keys.drop_first().len() && #[trigger] direct_member(
                        v,
                        keys.drop_first()[k],
                        b,
                    );
                assert(direct_member(v, keys[k + 1], b));
            }
        }
    }
}

proof fn lemma_nested_in_member(members: Seq<(String, Json)>, keys: Seq<Seq<char>>)
    ensures
        nested_in(members, keys) matches Some(b) ==> nested_hold(members, keys, b),
    decreases members, keys.len(),
{
    if keys.len() > 0 {
        match member_index(members, keys[0]) {
            Some(i) => {
                if 0 <= i < members.len() {
                    lemma_balance_in_member(members[i].1);
                    lemma_nested_in_member(members, keys.drop_first());
                }
            },
            None => {
                lemma_nested_in_member(members, keys.drop_first());
            },
        }
    }
}

proof fn lemma_members_balance_member(members: Seq<(String, Json)>)
    ensures
        members_balance(members) matches Some(b) ==> members_hold(members, b),
    decreases members, 0nat,
{
    if members.len() > 0 {
        lemma_balance_in_member(members[0].1);
        lemma_members_balance_member(members.drop_first());
    }
}

proof fn lemma_items_balance_member(items: Seq<Json>)
    ensures
        items_balance(items) matches Some(b) ==> items_hold(items, b),
    decreases items, 0nat,
{
    if items.len() > 0 {
        lemma_balance_in_member(items[0]);
        lemma_items_balance_member(items.drop_first());
    }
}

/// The balance a document gives is always the value of a member named by
/// one of the balance keys, reached without passing through a usage record:
/// members under other names, and anything inside `daily_usage` or a
/// request count member, are never taken for a balance.
pub proof fn lemma_balance_in_member(v: Json)
    ensures
        balance_in(v) matches Some(b) ==> balance_member_in(v, b),
    decreases v, 0nat,
{
    match v {
        Json::Object(members) => {
            lemma_direct_in_member(v, balance_keys());
            if direct_in(v, balance_keys()) is None {
                assert(decreases_to!(v => members@));
                lemma_nested_in_member(members@, nested_balance_keys());
                if nested_in(members@, nested_balance_keys()) is None {
                    lemma_members_balance_member(members@);
                }
            }
        },
        Json::Array(items) => {
            assert(decreases_to!(v => items@));
            lemma_items_balance_member(items@);
        },
        _ => {},
    }
}

/// A document in which no balance-named member is reached without passing
/// through a usage record gives no balance: `{"daily_usage": [{"amount":
/// 1.5}]}` shows none.
pub proof fn lemma_usage_is_not_balance(v: Json)
    requires
        forall|b: BalanceValueView| !balance_member_in(v, b),
    ensures
        balance_in(v) is None,
{
    lemma_balance_in_member(v);
}

/// A search run over the endpoints' answers in order, from the state
/// `saw_success`: the state it ends in, and the verdict that ended it
/// (`None` when every answer said to go on). Each step is what
/// `BalanceSearch::observe` does.
pub open spec fn run_search(saw_success: bool, replies: Seq<ProbeReply>) -> (bool, Option<Option<BalanceValueView>>)
    decreases replies.len(),
{
    if replies.len() == 0 {
        (saw_success, None)
    } else {
        let saw = saw_success || answered(replies[0]);
        match verdict_on(replies[0]) {
            Some(v) => (saw, Some(v)),
            None => run_search(saw, replies.drop_first()),
        }
    }
}

/// The answer is a document that holds the balance `b`, under a balance
/// key.
pub open spec fn document_holds(reply: ProbeReply, b: BalanceValueView) -> bool {
    match reply {
        ProbeReply::Document(d) => balance_in(d) == Some(b) && balance_member_in(d, b),
        _ => false,
    }
}

/// A search never invents a balance: it ends with a balance only when an
/// endpoint answered with a document that holds it, under a balance key.
/// When no answer ends it, it remembers a success exactly when some
/// endpoint answered with success, so its failure message says whether the
/// provider answered without a recognized balance or not at all.
pub proof fn lemma_search_outcome(replies: Seq<ProbeReply>)
    ensures
        run_search(false, replies).1 matches Some(Some(b)) ==> exists|i: int|
            0 <= i < replies.len() && #[trigger] document_holds(replies[i], b),
        run_search(false, replies).1 is None ==> run_search(false, replies).0 == exists|i: int|
            0 <= i < replies.len() && answered(#[trigger] replies[i]),
{
    lemma_search_from(false, replies);
}

proof fn lemma_search_from(saw: bool, replies: Seq<ProbeReply>)
    ensures
        run_search(saw, replies).1 matches Some(Some(b)) ==> exists|i: int|
            0 <= i < replies.len() && #[trigger] document_holds(replies[i], b),
        run_search(saw, replies).1 is None ==> run_search(saw, replies).0 == (saw || exists|i: int|
            0 <= i < replies.len() && answered(#[trigger] replies[i])),
    decreases replies.len(),
{
    if replies.len() > 0 {
        let r0 = replies[0];
        let rest = replies.drop_first();
        let saw2 = saw || answered(r0);
        lemma_search_from(saw2, rest);
        match verdict_on(r0) {
            Some(v) => {
                if let ProbeReply::Document(d) = r0 {
                    lemma_balance_in_member(d);
                    if let Some(b) = v {
                        assert(document_holds(replies[0], b));
                    }
                }
            },
            None => {
                if let Some(Some(b)) = run_search(saw2, rest).1 {
                    let i = choose|i: int|
                        0 <= i < rest.len() && #[trigger] document_holds(rest[i], b);
                    assert(replies[i + 1] == rest[i]);
                    assert(document_holds(replies[i + 1], b));
                }
                if run_search(saw2, rest).1 is None {
                    if exists|i: int| 0 <= i < rest.len() && answered(#[trigger] rest[i]) {
                        let i = choose|i: int| 0 <= i < rest.len() && answered(#[trigger] rest[i]);
                        assert(replies[i + 1] == rest[i]);
                    }
                    if exists|i: int| 0 <= i < replies.len() && answered(#[trigger] replies[i]) {
                        let i = choose|i: int| 0 <= i < replies.len() && answered(#[trigger] replies[i]);
                        if i > 0 {
                            assert(rest[i - 1] == replies[i]);
                        }
                    }
                }
            },
        }
    }
}

} // verus!
