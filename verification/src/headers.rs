//! The request headers sent to the quota service and to API providers.

use vstd::prelude::*;
use vstd::string::*;
use crate::auth::Auth;
use crate::config::ApiConfig;

verus! {

/// One request header. Names are lower case, as HTTP header maps keep them.
#[derive(Clone, Debug, PartialEq)]
pub struct Header {
    pub name: &'static str,
    pub value: String,
    /// The value is a secret, to be kept out of logs.
    pub sensitive: bool,
}

/// A `Header` by the characters it holds.
pub struct HeaderView {
    pub name: Seq<char>,
    pub value: Seq<char>,
    pub sensitive: bool,
}

impl View for Header {
    type V = HeaderView;

    open spec fn view(&self) -> HeaderView {
        HeaderView { name: self.name@, value: self.value@, sensitive: self.sensitive }
    }
}

pub open spec fn header_views(hs: Seq<Header>) -> Seq<HeaderView> {
    hs.map_values(|h: Header| h@)
}

pub open spec fn hv(name: Seq<char>, value: Seq<char>, sensitive: bool) -> HeaderView {
    HeaderView { name, value, sensitive }
}

/// A character whose UTF-8 bytes may stand in a header value: tab, or
/// anything but the ASCII control characters.
pub open spec fn header_char_ok(c: char) -> bool {
    c == '\t' || (c as u32 >= 32 && c as u32 != 127)
}

/// A text that is a valid header value.
pub open spec fn header_text_ok(s: Seq<char>) -> bool {
    forall|i: int| 0 <= i < s.len() ==> header_char_ok(#[trigger] s[i])
}

/// `HeaderValue::from_str(value).is_ok()`: the `http` crate accepts a value
/// whose bytes are each a tab or at least 32 and not 127, which for a UTF-8
/// text is `header_text_ok`.
#[verifier::external_body]
fn header_value_ok(value: &str) -> (b: bool)
    ensures
        b == header_text_ok(value@),
{
    reqwest::header::HeaderValue::from_str(value).is_ok()
}

/// `Bearer ` and the token.
pub open spec fn bearer(token: Seq<char>) -> Seq<char> {
    "Bearer "@ + token
}

fn bearer_value(token: &str) -> (r: String)
    ensures
        r@ == bearer(token@),
{
    let mut value = String::from_str("Bearer ");
    value.append(token);
    value
}

/// The headers of a quota request signed in as `auth`, or why they cannot
/// be sent.
pub open spec fn codex_headers(auth: Auth) -> Result<Seq<HeaderView>, Seq<char>> {
    if !header_text_ok(bearer(auth.access_token@)) {
        Err("Codex login data is invalid."@)
    } else {
        let common = seq![
            hv("authorization"@, bearer(auth.access_token@), true),
            hv("accept"@, "application/json"@, false),
            hv("originator"@, "Codex Desktop"@, false),
            hv("oai-product-sku"@, "CODEX"@, false),
        ];
        match auth.account_id {
            Some(id) => if header_text_ok(id@) {
                Ok(common.push(hv("chatgpt-account-id"@, id@, true)))
            } else {
                Err("Account identifier is invalid."@)
            },
            None => Ok(common),
        }
    }
}

/// The headers of a quota request signed in as `auth`: the access token as
/// a bearer token, and the account, when known.
pub fn headers(auth: &Auth) -> (r: Result<Vec<Header>, &'static str>)
    ensures
        match r {
            Ok(hs) => codex_headers(*auth) == Ok::<Seq<HeaderView>, Seq<char>>(header_views(hs@)),
            Err(message) => codex_headers(*auth) == Err::<Seq<HeaderView>, Seq<char>>(message@),
        },
{
    let token = bearer_value(auth.access_token.as_str());
    if !header_value_ok(token.as_str()) {
        return Err("Codex login data is invalid.");
    }
    let mut result: Vec<Header> = Vec::new();
    result.push(Header { name: "authorization", value: token, sensitive: true });
    result.push(
        Header { name: "accept", value: String::from_str("application/json"), sensitive: false },
    );
    result.push(
        Header { name: "originator", value: String::from_str("Codex Desktop"), sensitive: false },
    );
    result.push(
        Header { name: "oai-product-sku", value: String::from_str("CODEX"), sensitive: false },
    );
    let ghost common = header_views(result@);
    assert(common =~= seq![
        hv("authorization"@, bearer(auth.access_token@), true),
        hv("accept"@, "application/json"@, false),
        hv("originator"@, "Codex Desktop"@, false),
        hv("oai-product-sku"@, "CODEX"@, false),
    ]);
    match &auth.account_id {
        Some(id) => {
            if !header_value_ok(id.as_str()) {
                return Err("Account identifier is invalid.");
            }
            result.push(Header { name: "chatgpt-account-id", value: id.clone(), sensitive: true });
            assert(header_views(result@) =~= common.push(hv("chatgpt-account-id"@, id@, true)));
        },
        None => {},
    }
    assert(header_views(result@) =~= match auth.account_id {
        Some(id) => common.push(hv("chatgpt-account-id"@, id@, true)),
        None => common,
    });
    Ok(result)
}

/// The headers of a balance request with the API key of `config`, or why
/// they cannot be sent.
pub open spec fn api_key_headers_spec(api_key: Seq<char>) -> Result<Seq<HeaderView>, Seq<char>> {
    if !header_text_ok(bearer(api_key)) {
        Err("API key format is invalid."@)
    } else {
        let common = seq![
            hv("authorization"@, bearer(api_key), true),
            hv("accept"@, "application/json"@, false),
            hv("user-agent"@, "CC Switch"@, false),
        ];
        if header_text_ok(api_key) {
            Ok(common.push(hv("x-api-key"@, api_key, true)))
        } else {
            Ok(common)
        }
    }
}

/// The headers of a balance request: the API key as a bearer token and as
/// `x-api-key`, as CC Switch sends them.
pub fn api_key_headers(config: &ApiConfig) -> (r: Result<Vec<Header>, &'static str>)
    ensures
        match r {
            Ok(hs) => api_key_headers_spec(config.api_key@) == Ok::<Seq<HeaderView>, Seq<char>>(
                header_views(hs@),
            ),
            Err(message) => api_key_headers_spec(config.api_key@) == Err::<
                Seq<HeaderView>,
                Seq<char>,
            >(message@),
        },
{
    let token = bearer_value(config.api_key.as_str());
    if !header_value_ok(token.as_str()) {
        return Err("API key format is invalid.");
    }
    let mut result: Vec<Header> = Vec::new();
    result.push(Header { name: "authorization", value: token, sensitive: true });
    result.push(
        Header { name: "accept", value: String::from_str("application/json"), sensitive: false },
    );
    result.push(
        Header { name: "user-agent", value: String::from_str("CC Switch"), sensitive: false },
    );
    let ghost common = header_views(result@);
    assert(common =~= seq![
        hv("authorization"@, bearer(config.api_key@), true),
        hv("accept"@, "application/json"@, false),
        hv("user-agent"@, "CC Switch"@, false),
    ]);
    if header_value_ok(config.api_key.as_str()) {
        result.push(Header { name: "x-api-key", value: config.api_key.clone(), sensitive: true });
        assert(header_views(result@) =~= common.push(hv("x-api-key"@, config.api_key@, true)));
    }
    Ok(result)
}

} // verus!
