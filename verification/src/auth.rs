//! The Codex sign-in: its access token and the account it belongs to.

use vstd::prelude::*;
use crate::json::{
    get, get_member, json_bytes_document, json_document, key_views, parse_json, parse_json_bytes,
    pick_string, pick_string_spec, Json,
};
use crate::text::{chars_of, find, find_in, lemma_find_from_occurs, opt_view, string_of};

verus! {

/// A Codex sign-in.
#[derive(Clone, Debug, PartialEq)]
pub struct Auth {
    pub access_token: String,
    pub account_id: Option<String>,
}

/// The bytes that URL-safe base64 without padding decodes `text` to, as the
/// `base64` crate's `URL_SAFE_NO_PAD` engine decodes it; `None` when it
/// rejects the text.
pub uninterp spec fn url_safe_no_pad_decoded(text: Seq<char>) -> Option<Seq<u8>>;

/// `URL_SAFE_NO_PAD.decode` of the `base64` crate. The contract names the
/// result and claims only that it is a function of the text.
#[verifier::external_body]
fn decode_url_safe_no_pad(text: &str) -> (r: Option<Vec<u8>>)
    ensures
        match r {
            Some(b) => url_safe_no_pad_decoded(text@) == Some(b@),
            None => url_safe_no_pad_decoded(text@) is None,
        },
{
    base64::Engine::decode(&base64::engine::general_purpose::URL_SAFE_NO_PAD, text).ok()
}

/// The second `.`-separated part of a token (`split('.').nth(1)`).
pub open spec fn jwt_payload(token: Seq<char>) -> Option<Seq<char>> {
    match find(token, seq!['.']) {
        None => None,
        Some(i) => {
            let rest = token.skip(i + 1);
            match find(rest, seq!['.']) {
                Some(j) => Some(rest.take(j)),
                None => Some(rest),
            }
        },
    }
}

/// The keys a token payload may name the account under, in order.
pub open spec fn jwt_account_keys() -> Seq<Seq<char>> {
    seq!["https://api.openai.com/auth.chatgpt_account_id"@, "chatgpt_account_id"@]
}

/// The account named in a token's payload.
pub open spec fn jwt_account_id(token: Seq<char>) -> Option<Seq<char>> {
    match jwt_payload(token) {
        None => None,
        Some(p) => match url_safe_no_pad_decoded(p) {
            None => None,
            Some(bytes) => match json_bytes_document(bytes) {
                Some(v) => pick_string_spec(v, jwt_account_keys()),
                None => None,
            },
        },
    }
}

/// The account a signed token was issued for, read from its payload.
pub fn account_id_from_jwt(token: &str) -> (r: Option<String>)
    ensures
        opt_view(r) == jwt_account_id(token@),
{
    let c = chars_of(token);
    let n = c.len();
    let dot = vec!['.'];
    assert(dot@ =~= seq!['.']);
    assert(c@.subrange(0, n as int) =~= c@);
    let i = match find_in(&c, 0, n, &dot) {
        Some(i) => i,
        None => {
            return None;
        },
    };
    proof {
        lemma_find_from_occurs(c@, dot@, 0);
    }
    let ghost rest = c@.skip(i + 1);
    assert(c@.subrange(i + 1, n as int) =~= rest);
    let end = match find_in(&c, i + 1, n, &dot) {
        Some(j) => {
            proof {
                lemma_find_from_occurs(rest, dot@, 0);
            }
            assert(rest.take(j as int) =~= c@.subrange(i + 1, i + 1 + j));
            i + 1 + j
        },
        None => n,
    };
    let payload = string_of(token, &c, i + 1, end);
    let bytes = match decode_url_safe_no_pad(payload.as_str()) {
        Some(b) => b,
        None => {
            return None;
        },
    };
    let value = match parse_json_bytes(bytes.as_slice()) {
        Some(v) => v,
        None => {
            return None;
        },
    };
    let keys = ["https://api.openai.com/auth.chatgpt_account_id", "chatgpt_account_id"];
    assert(key_views(keys@) =~= jwt_account_keys());
    match pick_string(&value, &keys) {
        Some(a) => Some(a.clone()),
        None => None,
    }
}

/// The message for a sign-in without an access token.
pub open spec fn expired_message() -> Seq<char> {
    "Codex login expired. Please sign in again."@
}

/// The members of an auth document that hold the tokens: its `tokens`
/// member, else the document itself.
pub open spec fn auth_tokens(value: Json) -> Json {
    match get(value, "tokens"@) {
        Some(t) => t,
        None => value,
    }
}

/// The sign-in an auth document holds: its access token, and the account
/// named beside it or, failing that, in the token.
pub open spec fn auth_spec(value: Json) -> Option<(Seq<char>, Option<Seq<char>>)> {
    let tokens = auth_tokens(value);
    match pick_string_spec(tokens, seq!["access_token"@, "accessToken"@]) {
        None => None,
        Some(token) => Some(
            (
                token,
                match pick_string_spec(tokens, seq!["account_id"@, "accountId"@]) {
                    Some(a) => Some(a),
                    None => jwt_account_id(token),
                },
            ),
        ),
    }
}

/// The sign-in held by a parsed Codex auth document.
pub fn auth_from_document(value: &Json) -> (r: Result<Auth, &'static str>)
    ensures
        match r {
            Ok(auth) => auth_spec(*value) == Some((auth.access_token@, opt_view(auth.account_id))),
            Err(m) => auth_spec(*value) is None && m@ == expired_message(),
        },
{
    let tokens = match get_member(value, "tokens") {
        Some(t) => t,
        None => value,
    };
    let tkeys = ["access_token", "accessToken"];
    assert(key_views(tkeys@) =~= seq!["access_token"@, "accessToken"@]);
    let access_token = match pick_string(tokens, &tkeys) {
        Some(t) => t.clone(),
        None => {
            return Err("Codex login expired. Please sign in again.");
        },
    };
    let akeys = ["account_id", "accountId"];
    assert(key_views(akeys@) =~= seq!["account_id"@, "accountId"@]);
    let account_id = match pick_string(tokens, &akeys) {
        Some(a) => Some(a.clone()),
        None => account_id_from_jwt(access_token.as_str()),
    };
    Ok(Auth { access_token, account_id })
}

/// The message for an auth file that is not a JSON document.
pub open spec fn format_changed_message() -> Seq<char> {
    "Codex login format has changed."@
}

/// The sign-in held by the text of a Codex auth file.
pub fn auth_from_text(raw: &str) -> (r: Result<Auth, &'static str>)
    ensures
        match json_document(raw@) {
            None => r matches Err(m) && m@ == format_changed_message(),
            Some(value) => match r {
                Ok(auth) => auth_spec(value) == Some((auth.access_token@, opt_view(auth.account_id))),
                Err(m) => auth_spec(value) is None && m@ == expired_message(),
            },
        },
{
    match parse_json(raw) {
        Some(value) => auth_from_document(&value),
        None => Err("Codex login format has changed."),
    }
}

} // verus!
