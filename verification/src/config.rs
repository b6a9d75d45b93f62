//! Discovery of the API a Codex installation talks to: its base URL, key,
//! display name and balance endpoint, from a Codex `config.toml`, from CC
//! Switch's current provider, or from Codex++ relay settings.

use vstd::prelude::*;
use vstd::string::*;
use crate::json::{
    as_bool, get, get_member, get_str, get_str_member, json_document, parse_json,
    key_views, pick_string, pick_string_spec, Json,
};
use crate::text::{
    chars_of, contains, contains_ignore_ascii_case, eq_ignore_ascii_case, eq_ignore_ascii_case_in,
    find, find_in, lemma_find_from_occurs, lower, opt_view, replace_all, replace_str, string_of,
    lemma_trim_trim, to_uppercase, trim, trim_in, trim_start, trim_start_in, unicode_uppercase,
};
use crate::toml::{lemma_quote_split, provider_toml_string, provider_value, top_level_toml_string, top_level_value};
use crate::text::{is_quote, is_space, lemma_find_char, lemma_trim_start_at, lemma_trim_start_split, quoted_after};
use crate::urls::{
    balance_urls, balance_urls_spec, is_cc_switch_proxy, is_cc_switch_proxy_url,
    is_codex_plus_proxy, is_codex_plus_proxy_url, string_views, trimmed_url, trimmed_url_spec,
};

verus! {

/// Where and how to ask a provider for the account balance.
#[derive(Clone, Debug, PartialEq)]
pub struct ApiConfig {
    pub provider_name: String,
    pub base_url: String,
    pub balance_url: Option<String>,
    pub api_key: String,
}

/// An `ApiConfig` by the characters of its fields.
pub struct ApiConfigView {
    pub provider_name: Seq<char>,
    pub base_url: Seq<char>,
    pub balance_url: Option<Seq<char>>,
    pub api_key: Seq<char>,
}

impl View for ApiConfig {
    type V = ApiConfigView;

    open spec fn view(&self) -> ApiConfigView {
        ApiConfigView {
            provider_name: self.provider_name@,
            base_url: self.base_url@,
            balance_url: opt_view(self.balance_url),
            api_key: self.api_key@,
        }
    }
}

/// The view of an optional configuration.
pub open spec fn opt_config(o: Option<ApiConfig>) -> Option<ApiConfigView> {
    match o {
        Some(c) => Some(c@),
        None => None,
    }
}

/// A key that can be sent: trimmed, not empty, and not the `PROXY_MANAGED`
/// placeholder (in any ASCII case).
pub open spec fn usable_key(value: Seq<char>) -> Option<Seq<char>> {
    let t = trim(value);
    if t.len() == 0 || eq_ignore_ascii_case(t, "PROXY_MANAGED"@) {
        None
    } else {
        Some(t)
    }
}

/// The trimmed key, unless it is empty or the `PROXY_MANAGED` placeholder.
pub fn usable_api_key(value: String) -> (r: Option<String>)
    ensures
        opt_view(r) == usable_key(value@),
        r matches Some(k) ==> k@.len() > 0 && k@ == trim(k@),
{
    let c = chars_of(value.as_str());
    assert(c@.subrange(0, c@.len() as int) =~= c@);
    let (a, b) = trim_in(&c, 0, c.len());
    let p = chars_of("PROXY_MANAGED");
    assert(p@.subrange(0, p@.len() as int) =~= p@);
    if a == b || eq_ignore_ascii_case_in(&c, a, b, &p, 0, p.len()) {
        None
    } else {
        proof {
            lemma_trim_idempotent(c@.subrange(a as int, b as int), c@);
        }
        Some(string_of(value.as_str(), &c, a, b))
    }
}

/// Trimming a trimmed string changes nothing.
pub proof fn lemma_trim_idempotent(t: Seq<char>, s: Seq<char>)
    requires
        t == trim(s),
    ensures
        trim(t) == t,
{
    crate::text::lemma_trim_trim(s);
}

/// `json_string`: the first string member among `keys`, if usable as a key.
pub open spec fn json_key_spec(v: Json, keys: Seq<Seq<char>>) -> Option<Seq<char>> {
    match pick_string_spec(v, keys) {
        Some(s) => usable_key(s),
        None => None,
    }
}

/// The first string member of `value` among `keys`, if it is usable as a
/// key.
pub fn json_string(value: &Json, keys: &[&str]) -> (r: Option<String>)
    ensures
        opt_view(r) == json_key_spec(*value, key_views(keys@)),
{
    match pick_string(value, keys) {
        Some(s) => usable_api_key(s.clone()),
        None => None,
    }
}

/// The keys an auth document may hold an API key under, in order.
pub open spec fn auth_key_names() -> Seq<Seq<char>> {
    seq![
        "OPENAI_API_KEY"@,
        "openai_api_key"@,
        "api_key"@,
        "apiKey"@,
        "experimental_bearer_token"@,
    ]
}

/// The API key of a parsed auth document.
pub fn api_key_from_auth_document(value: &Json) -> (r: Option<String>)
    ensures
        opt_view(r) == json_key_spec(*value, auth_key_names()),
{
    let keys = ["OPENAI_API_KEY", "openai_api_key", "api_key", "apiKey", "experimental_bearer_token"];
    assert(key_views(keys@) =~= auth_key_names());
    json_string(value, &keys)
}

/// The API key of an auth document given as JSON text.
pub open spec fn auth_contents_key(raw: Seq<char>) -> Option<Seq<char>> {
    match json_document(raw) {
        Some(value) => json_key_spec(value, auth_key_names()),
        None => None,
    }
}

/// The API key held by the JSON text of an auth document.
pub fn load_api_key_from_auth_contents(raw: &str) -> (r: Option<String>)
    ensures
        opt_view(r) == auth_contents_key(raw@),
{
    match parse_json(raw) {
        Some(value) => api_key_from_auth_document(&value),
        None => None,
    }
}

/// The quoted string after `property:` in a piece of JavaScript, as
/// `js_string_property` reads it: from the first occurrence of `property`,
/// past white space, a colon, white space and an opening quote, up to the
/// next equal quote.
pub open spec fn js_property_value(code: Seq<char>, property: Seq<char>) -> Option<Seq<char>> {
    match find(code, property) {
        None => None,
        Some(start) => {
            let rest = trim_start(code.skip(start + property.len()));
            if rest.len() == 0 || rest[0] != ':' {
                None
            } else {
                let r2 = trim_start(rest.skip(1));
                if r2.len() == 0 || (r2[0] != '"' && r2[0] != '\'') {
                    None
                } else {
                    match find(r2.skip(1), seq![r2[0]]) {
                        Some(e) => Some(r2.skip(1).take(e)),
                        None => None,
                    }
                }
            }
        },
    }
}

/// The quoted string value of `property` in a piece of JavaScript.
pub fn js_string_property(code: &str, property: &str) -> (r: Option<String>)
    ensures
        opt_view(r) == js_property_value(code@, property@),
{
    let c = chars_of(code);
    let p = chars_of(property);
    let n = c.len();
    assert(c@.subrange(0, n as int) =~= c@);
    let start = match find_in(&c, 0, n, &p) {
        Some(s) => s,
        None => {
            return None;
        },
    };
    proof {
        lemma_find_from_occurs(c@, p@, 0);
    }
    let after = start + p.len();
    assert(c@.skip(after as int) =~= c@.subrange(after as int, n as int));
    let a = trim_start_in(&c, after, n);
    let ghost rest = c@.subrange(a as int, n as int);
    if a >= n || c[a] != ':' {
        assert(rest.len() == 0 || rest[0] == c@[a as int]);
        return None;
    }
    assert(rest.skip(1) =~= c@.subrange(a + 1, n as int));
    let b = trim_start_in(&c, a + 1, n);
    let ghost r2 = c@.subrange(b as int, n as int);
    if b >= n {
        return None;
    }
    let q = c[b];
    assert(r2[0] == q);
    if q != '"' && q != '\'' {
        return None;
    }
    let quote = vec![q];
    assert(quote@ =~= seq![r2[0]]);
    assert(r2.skip(1) =~= c@.subrange(b + 1, n as int));
    match find_in(&c, b + 1, n, &quote) {
        Some(e) => {
            proof {
                lemma_find_from_occurs(r2.skip(1), quote@, 0);
            }
            assert(r2.skip(1).take(e as int) =~= c@.subrange(b + 1, b + 1 + e));
            Some(string_of(code, &c, b + 1, b + 1 + e))
        },
        None => None,
    }
}

/// A value of that shape after the property is read.
proof fn lemma_js_shape_reads(code: Seq<char>, property: Seq<char>, value: Seq<char>)
    requires
        find(code, property) is Some,
        exists|w1: Seq<char>, w2: Seq<char>, q: char, t: Seq<char>|
            #[trigger] quoted_after(
                code.skip(find(code, property)->Some_0 + property.len()),
                ':',
                value,
                w1,
                w2,
                q,
                t,
            ),
    ensures
        js_property_value(code, property) == Some(value),
{
    let s1 = code.skip(find(code, property)->Some_0 + property.len());
    let (w1, w2, q, t) = choose|w1: Seq<char>, w2: Seq<char>, q: char, t: Seq<char>|
        #[trigger] quoted_after(s1, ':', value, w1, w2, q, t);
    let rest1 = w2 + seq![q] + value + seq![q] + t;
    assert(s1 =~= w1 + (seq![':'] + rest1));
    assert forall|i: int| 0 <= i < w1.len() implies is_space(#[trigger] s1[i]) by {
        assert(s1[i] == w1[i]);
    }
    assert(s1[w1.len() as int] == ':');
    lemma_trim_start_at(s1, w1.len() as int);
    let rest = s1.skip(w1.len() as int);
    assert(rest =~= seq![':'] + rest1);
    let s2 = rest.skip(1);
    assert(s2 =~= rest1);
    let u = seq![q] + value + seq![q] + t;
    assert(s2 =~= w2 + u);
    assert forall|i: int| 0 <= i < w2.len() implies is_space(#[trigger] s2[i]) by {
        assert(s2[i] == w2[i]);
    }
    assert(s2[w2.len() as int] == q);
    lemma_trim_start_at(s2, w2.len() as int);
    assert(s2.skip(w2.len() as int) =~= u);
    let n = value.len() as int;
    let x = u.skip(1);
    assert(x[n] == q);
    assert forall|j: int| 0 <= j < n implies #[trigger] x[j] != q by {
        assert(x[j] == value[j]);
        if value[j] == q {
            assert(value.contains(q));
        }
    }
    lemma_find_char(x, q);
    let e = find(x, seq![q])->Some_0;
    if e < n {
        assert(x[e] != q);
    }
    if e > n {
        assert(x[n] != q);
    }
    assert(x.take(n) =~= value);
}

/// A value read after the property has that shape.
proof fn lemma_js_read_shape(code: Seq<char>, property: Seq<char>, value: Seq<char>)
    requires
        js_property_value(code, property) == Some(value),
    ensures
        find(code, property) is Some,
        exists|w1: Seq<char>, w2: Seq<char>, q: char, t: Seq<char>|
            #[trigger] quoted_after(
                code.skip(find(code, property)->Some_0 + property.len()),
                ':',
                value,
                w1,
                w2,
                q,
                t,
            ),
{
    let s1 = code.skip(find(code, property)->Some_0 + property.len());
    let k1 = lemma_trim_start_split(s1);
    let rest = s1.skip(k1);
    assert(rest.len() > 0 && rest[0] == ':');
    let s2 = rest.skip(1);
    let k2 = lemma_trim_start_split(s2);
    let u = s2.skip(k2);
    assert(u.take(u.len() as int) =~= u);
    let t = lemma_quote_split(u, u.len() as int, value);
    let q = u[0];
    let w1 = s1.take(k1);
    let w2 = s2.take(k2);
    assert(s2 =~= w2 + u);
    assert(rest =~= seq![':'] + s2);
    assert(s1 =~= w1 + rest);
    assert(s1 =~= w1 + seq![':'] + w2 + seq![q] + value + seq![q] + t);
    assert(is_quote(q));
    assert(quoted_after(s1, ':', value, w1, w2, q, t));
}

/// A property is read as `value` exactly when, at its first occurrence in
/// the code, it is followed by white space, `:`, white space, a single or
/// double quote, the value (free of that quote, with no escapes), the same
/// quote, and anything after. Later occurrences are not tried:
/// `baseurl: 1, url: 'x'` gives nothing for `url`.
pub proof fn lemma_js_property_shape(code: Seq<char>, property: Seq<char>, value: Seq<char>)
    ensures
        js_property_value(code, property) == Some(value) <==> find(code, property) is Some && exists|
            w1: Seq<char>,
            w2: Seq<char>,
            q: char,
            t: Seq<char>,
        |
            #[trigger] quoted_after(
                code.skip(find(code, property)->Some_0 + property.len()),
                ':',
                value,
                w1,
                w2,
                q,
                t,
            ),
{
    if js_property_value(code, property) == Some(value) {
        lemma_js_read_shape(code, property, value);
    }
    if find(code, property) is Some && exists|w1: Seq<char>, w2: Seq<char>, q: char, t: Seq<char>|
        #[trigger] quoted_after(
            code.skip(find(code, property)->Some_0 + property.len()),
            ':',
            value,
            w1,
            w2,
            q,
            t,
        ) {
        lemma_js_shape_reads(code, property, value);
    }
}

/// The usage script settings of a CC Switch provider.
pub open spec fn usage_script(meta: Json) -> Option<Json> {
    match get(meta, "usage_script"@) {
        Some(s) => Some(s),
        None => get(meta, "usageScript"@),
    }
}

/// The balance URL a CC Switch usage script asks for: the `url` of its
/// request, with `{{baseUrl}}` and `{{apiKey}}` filled in; none when the
/// script is switched off.
pub open spec fn cc_switch_usage_url_spec(meta: Json, base_url: Seq<char>, api_key: Seq<char>) -> Option<
    Seq<char>,
> {
    match usage_script(meta) {
        None => None,
        Some(script) => {
            let disabled = match get(script, "enabled"@) {
                Some(e) => as_bool(e) == Some(false),
                None => false,
            };
            if disabled {
                None
            } else {
                match get_str(script, "code"@) {
                    None => None,
                    Some(code) => match js_property_value(code, "url"@) {
                        None => None,
                        Some(template) => Some(
                            replace_all(
                                replace_all(template, "{{baseUrl}}"@, trimmed_url_spec(base_url)),
                                "{{apiKey}}"@,
                                api_key,
                            ),
                        ),
                    },
                }
            }
        },
    }
}

/// The balance URL of CC Switch's usage query for a provider.
pub fn cc_switch_usage_url(meta: &Json, base_url: &str, api_key: &str) -> (r: Option<String>)
    ensures
        opt_view(r) == cc_switch_usage_url_spec(*meta, base_url@, api_key@),
{
    let script = match get_member(meta, "usage_script") {
        Some(s) => s,
        None => match get_member(meta, "usageScript") {
            Some(s) => s,
            None => {
                return None;
            },
        },
    };
    match get_member(script, "enabled") {
        Some(Json::Bool(false)) => {
            return None;
        },
        _ => {},
    }
    let code = match get_str_member(script, "code") {
        Some(c) => c,
        None => {
            return None;
        },
    };
    let template = match js_string_property(code.as_str(), "url") {
        Some(t) => t,
        None => {
            return None;
        },
    };
    proof {
        reveal_strlit("{{baseUrl}}");
        reveal_strlit("{{apiKey}}");
    }
    let base = trimmed_url(base_url);
    let filled = replace_str(template.as_str(), "{{baseUrl}}", base.as_str());
    Some(replace_str(filled.as_str(), "{{apiKey}}", api_key))
}

/// The keys CC Switch settings may hold the API key under, in order.
pub open spec fn cc_switch_key_names() -> Seq<Seq<char>> {
    seq!["OPENAI_API_KEY"@, "api_key"@, "apiKey"@]
}

/// The API configuration of a CC Switch provider, from its settings and
/// meta documents.
pub open spec fn cc_switch_config_spec(provider_name: Seq<char>, settings: Json, meta: Json) -> Option<
    ApiConfigView,
> {
    match get_str(settings, "config"@) {
        None => None,
        Some(config) => {
            let provider = match top_level_value(config, "model_provider"@) {
                Some(p) => p,
                None => "custom"@,
            };
            let base = match provider_value(config, provider, "base_url"@) {
                Some(b) => Some(b),
                None => top_level_value(config, "base_url"@),
            };
            let from_auth = match get(settings, "auth"@) {
                Some(auth) => json_key_spec(auth, cc_switch_key_names()),
                None => None,
            };
            let key = match from_auth {
                Some(k) => Some(k),
                None => json_key_spec(settings, cc_switch_key_names()),
            };
            match (base, key) {
                (Some(base_url), Some(api_key)) => Some(
                    ApiConfigView {
                        provider_name,
                        base_url,
                        balance_url: cc_switch_usage_url_spec(meta, base_url, api_key),
                        api_key,
                    },
                ),
                _ => None,
            }
        },
    }
}

/// The API configuration of CC Switch's current Codex provider, from its
/// name, settings and meta documents.
pub fn cc_switch_api_config_from_values(provider_name: &str, settings: &Json, meta: &Json) -> (r:
    Option<ApiConfig>)
    ensures
        opt_config(r) == cc_switch_config_spec(provider_name@, *settings, *meta),
{
    let config = match get_str_member(settings, "config") {
        Some(c) => c,
        None => {
            return None;
        },
    };
    let provider = match top_level_toml_string(config.as_str(), "model_provider") {
        Some(p) => p,
        None => String::from_str("custom"),
    };
    let base_url = match provider_toml_string(config.as_str(), provider.as_str(), "base_url") {
        Some(b) => b,
        None => match top_level_toml_string(config.as_str(), "base_url") {
            Some(b) => b,
            None => {
                return None;
            },
        },
    };
    let keys = ["OPENAI_API_KEY", "api_key", "apiKey"];
    assert(key_views(keys@) =~= cc_switch_key_names());
    let from_auth = match get_member(settings, "auth") {
        Some(auth) => json_string(auth, &keys),
        None => None,
    };
    let api_key = match from_auth {
        Some(k) => k,
        None => match json_string(settings, &keys) {
            Some(k) => k,
            None => {
                return None;
            },
        },
    };
    let balance_url = cc_switch_usage_url(meta, base_url.as_str(), api_key.as_str());
    Some(ApiConfig { provider_name: provider_name.to_owned(), base_url, balance_url, api_key })
}

/// The API configuration of CC Switch's current Codex provider, from its
/// name and the JSON text of its settings and meta columns; `None` when
/// either text is not a JSON document.
pub fn cc_switch_api_config_from_texts(provider_name: &str, settings_raw: &str, meta_raw: &str) -> (r:
    Option<ApiConfig>)
    ensures
        opt_config(r) == match (json_document(settings_raw@), json_document(meta_raw@)) {
            (Some(settings), Some(meta)) => cc_switch_config_spec(provider_name@, settings, meta),
            _ => None,
        },
{
    let settings = match parse_json(settings_raw) {
        Some(v) => v,
        None => {
            return None;
        },
    };
    let meta = match parse_json(meta_raw) {
        Some(v) => v,
        None => {
            return None;
        },
    };
    cc_switch_api_config_from_values(provider_name, &settings, &meta)
}

/// The first of `balance_url`, `usage_url`, `usage_endpoint` set in a
/// provider's section.
pub open spec fn section_balance_url(raw: Seq<char>, provider: Seq<char>) -> Option<Seq<char>> {
    match provider_value(raw, provider, "balance_url"@) {
        Some(u) => Some(u),
        None => match provider_value(raw, provider, "usage_url"@) {
            Some(u) => Some(u),
            None => provider_value(raw, provider, "usage_endpoint"@),
        },
    }
}

fn section_balance_url_of(raw: &str, provider: &str) -> (r: Option<String>)
    ensures
        opt_view(r) == section_balance_url(raw@, provider@),
{
    match provider_toml_string(raw, provider, "balance_url") {
        Some(u) => Some(u),
        None => match provider_toml_string(raw, provider, "usage_url") {
            Some(u) => Some(u),
            None => provider_toml_string(raw, provider, "usage_endpoint"),
        },
    }
}

/// The keys of a Codex++ relay's base URL, in order.
pub open spec fn relay_url_names() -> Seq<Seq<char>> {
    seq!["relayBaseUrl"@, "upstreamBaseUrl"@, "base_url"@, "baseUrl"@]
}

/// The keys of a Codex++ relay's API key, in order.
pub open spec fn relay_key_names() -> Seq<Seq<char>> {
    seq!["relayApiKey"@, "apiKey"@, "OPENAI_API_KEY"@]
}

/// The API configuration of one Codex++ relay document (the settings or a
/// relay profile); `hint` is the config text to fall back on when the
/// document carries none.
pub open spec fn codex_plus_config_spec(value: Json, hint: Option<Seq<char>>) -> Option<
    ApiConfigView,
> {
    let contents = match pick_string_spec(value, seq!["configContents"@, "config"@]) {
        Some(c) => Some(c),
        None => hint,
    };
    let provider = match contents {
        Some(raw) => match top_level_value(raw, "model_provider"@) {
            Some(p) => p,
            None => "custom"@,
        },
        None => "custom"@,
    };
    let provider_name = match contents {
        Some(raw) => match provider_value(raw, provider, "name"@) {
            Some(n) => n,
            None => "Codex++"@,
        },
        None => "Codex++"@,
    };
    let base = match json_key_spec(value, relay_url_names()) {
        Some(b) => Some(b),
        None => match contents {
            Some(raw) => provider_value(raw, provider, "base_url"@),
            None => None,
        },
    };
    let key = match json_key_spec(value, relay_key_names()) {
        Some(k) => Some(k),
        None => match pick_string_spec(value, seq!["authContents"@, "auth"@]) {
            Some(auth) => auth_contents_key(auth),
            None => None,
        },
    };
    match (base, key) {
        (Some(base_url), Some(api_key)) => Some(
            ApiConfigView {
                provider_name,
                base_url,
                balance_url: match contents {
                    Some(raw) => section_balance_url(raw, provider),
                    None => None,
                },
                api_key,
            },
        ),
        _ => None,
    }
}

/// The view of an optional string slice.
pub open spec fn opt_str_view(o: Option<&str>) -> Option<Seq<char>> {
    match o {
        Some(s) => Some(s@),
        None => None,
    }
}

/// The API configuration of one Codex++ relay document.
pub fn codex_plus_api_config_from_value(value: &Json, raw_config_hint: Option<&str>) -> (r: Option<
    ApiConfig,
>)
    ensures
        opt_config(r) == codex_plus_config_spec(*value, opt_str_view(raw_config_hint)),
{
    let ckeys = ["configContents", "config"];
    assert(key_views(ckeys@) =~= seq!["configContents"@, "config"@]);
    let contents: Option<&str> = match pick_string(value, &ckeys) {
        Some(c) => Some(c.as_str()),
        None => raw_config_hint,
    };
    let provider = match contents {
        Some(raw) => match top_level_toml_string(raw, "model_provider") {
            Some(p) => p,
            None => String::from_str("custom"),
        },
        None => String::from_str("custom"),
    };
    let provider_name = match contents {
        Some(raw) => match provider_toml_string(raw, provider.as_str(), "name") {
            Some(n) => n,
            None => String::from_str("Codex++"),
        },
        None => String::from_str("Codex++"),
    };
    let ukeys = ["relayBaseUrl", "upstreamBaseUrl", "base_url", "baseUrl"];
    assert(key_views(ukeys@) =~= relay_url_names());
    let base_url = match json_string(value, &ukeys) {
        Some(b) => b,
        None => match contents {
            Some(raw) => match provider_toml_string(raw, provider.as_str(), "base_url") {
                Some(b) => b,
                None => {
                    return None;
                },
            },
            None => {
                return None;
            },
        },
    };
    let kkeys = ["relayApiKey", "apiKey", "OPENAI_API_KEY"];
    assert(key_views(kkeys@) =~= relay_key_names());
    let akeys = ["authContents", "auth"];
    assert(key_views(akeys@) =~= seq!["authContents"@, "auth"@]);
    let api_key = match json_string(value, &kkeys) {
        Some(k) => k,
        None => match pick_string(value, &akeys) {
            Some(auth) => match load_api_key_from_auth_contents(auth.as_str()) {
                Some(k) => k,
                None => {
                    return None;
                },
            },
            None => {
                return None;
            },
        },
    };
    let balance_url = match contents {
        Some(raw) => section_balance_url_of(raw, provider.as_str()),
        None => None,
    };
    Some(ApiConfig { provider_name, base_url, balance_url, api_key })
}

/// The relay profiles of Codex++ settings.
pub open spec fn relay_profiles(settings: Json) -> Seq<Json> {
    match get(settings, "relayProfiles"@) {
        Some(Json::Array(items)) => items@,
        _ => Seq::empty(),
    }
}

/// Position of the first profile whose `id` is `id`.
pub open spec fn profile_index(profiles: Seq<Json>, id: Seq<char>) -> Option<int>
    decreases profiles.len(),
{
    if profiles.len() == 0 {
        None
    } else if get_str(profiles[0], "id"@) == Some(id) {
        Some(0)
    } else {
        match profile_index(profiles.drop_first(), id) {
            Some(i) => Some(i + 1),
            None => None,
        }
    }
}

/// The configuration of the first profile that yields one.
pub open spec fn first_profile_config(profiles: Seq<Json>, hint: Option<Seq<char>>) -> Option<
    ApiConfigView,
>
    decreases profiles.len(),
{
    if profiles.len() == 0 {
        None
    } else {
        match codex_plus_config_spec(profiles[0], hint) {
            Some(c) => Some(c),
            None => first_profile_config(profiles.drop_first(), hint),
        }
    }
}

/// The API configuration of Codex++ settings: the active relay profile's,
/// else the settings' own, else the first profile that yields one.
pub open spec fn codex_plus_settings_spec(settings: Json, hint: Option<Seq<char>>) -> Option<
    ApiConfigView,
> {
    let profiles = relay_profiles(settings);
    let active = match pick_string_spec(settings, seq!["activeRelayId"@, "activeProfileId"@]) {
        Some(id) => match profile_index(profiles, id) {
            Some(i) => codex_plus_config_spec(profiles[i], hint),
            None => None,
        },
        None => None,
    };
    match active {
        Some(c) => Some(c),
        None => match codex_plus_config_spec(settings, hint) {
            Some(c) => Some(c),
            None => first_profile_config(profiles, hint),
        },
    }
}

proof fn lemma_profile_index_at(profiles: Seq<Json>, id: Seq<char>, i: int)
    requires
        0 <= i < profiles.len(),
        get_str(profiles[i], "id"@) == Some(id),
        forall|j: int| 0 <= j < i ==> get_str(#[trigger] profiles[j], "id"@) != Some(id),
    ensures
        profile_index(profiles, id) == Some(i),
    decreases i,
{
    if i > 0 {
        assert forall|j: int| 0 <= j < i - 1 implies get_str(#[trigger] profiles.drop_first()[j], "id"@)
            != Some(id) by {
            assert(profiles.drop_first()[j] == profiles[j + 1]);
        }
        assert(get_str(profiles[0], "id"@) != Some(id));
        lemma_profile_index_at(profiles.drop_first(), id, i - 1);
    }
}

/// Codex++ settings use their active relay profile: when `activeRelayId`
/// (else `activeProfileId`) names a profile in `relayProfiles` (the first
/// with that `id`) and that profile yields a configuration, the settings'
/// configuration is that profile's, whichever profiles come before it.
pub proof fn lemma_active_relay_profile_wins(
    settings: Json,
    hint: Option<Seq<char>>,
    profiles: Vec<Json>,
    id: Seq<char>,
    i: int,
)
    requires
        get(settings, "relayProfiles"@) == Some(Json::Array(profiles)),
        get_str(settings, "activeRelayId"@) == Some(id) || (get_str(settings, "activeRelayId"@) is None
            && get_str(settings, "activeProfileId"@) == Some(id)),
        0 <= i < profiles@.len(),
        get_str(profiles@[i], "id"@) == Some(id),
        forall|j: int| 0 <= j < i ==> get_str(#[trigger] profiles@[j], "id"@) != Some(id),
        codex_plus_config_spec(profiles@[i], hint) is Some,
    ensures
        codex_plus_settings_spec(settings, hint) == codex_plus_config_spec(profiles@[i], hint),
{
    lemma_profile_index_at(profiles@, id, i);
    assert(seq!["activeRelayId"@, "activeProfileId"@].drop_first() =~= seq!["activeProfileId"@]);
    assert(seq!["activeProfileId"@].drop_first() =~= Seq::<Seq<char>>::empty());
    reveal_with_fuel(pick_string_spec, 3);
}

/// Position of the first profile whose `id` is `id`.
fn find_profile(profiles: &Vec<Json>, id: &String) -> (r: Option<usize>)
    ensures
        match r {
            Some(i) => i < profiles.len() && profile_index(profiles@, id@) == Some(i as int),
            None => profile_index(profiles@, id@) is None,
        },
{
    let ghost ps = profiles@;
    let mut i: usize = 0;
    assert(ps.skip(0) =~= ps);
    while i < profiles.len()
        invariant
            i <= profiles.len(),
            ps == profiles@,
            profile_index(ps, id@) == match profile_index(ps.skip(i as int), id@) {
                Some(j) => Some(j + i),
                None => None,
            },
        decreases profiles.len() - i,
    {
        let ghost rest = ps.skip(i as int);
        assert(rest[0] == ps[i as int]);
        assert(rest.drop_first() =~= ps.skip(i + 1));
        match get_str_member(&profiles[i], "id") {
            Some(x) => {
                if *x == *id {
                    assert(profile_index(rest, id@) == Some(0int));
                    return Some(i);
                }
            },
            None => {},
        }
        i = i + 1;
    }
    assert(ps.skip(i as int).len() == 0);
    None
}

/// The API configuration of Codex++ settings.
pub fn codex_plus_api_config_from_settings(settings: &Json, raw_config_hint: Option<&str>) -> (r:
    Option<ApiConfig>)
    ensures
        opt_config(r) == codex_plus_settings_spec(*settings, opt_str_view(raw_config_hint)),
{
    let ghost hint = opt_str_view(raw_config_hint);
    let empty: Vec<Json> = Vec::new();
    let profiles: &Vec<Json> = match get_member(settings, "relayProfiles") {
        Some(Json::Array(items)) => items,
        _ => &empty,
    };
    assert(profiles@ == relay_profiles(*settings));
    let ghost ps = profiles@;
    let idkeys = ["activeRelayId", "activeProfileId"];
    assert(key_views(idkeys@) =~= seq!["activeRelayId"@, "activeProfileId"@]);
    let ghost active_spec = match pick_string_spec(
        *settings,
        seq!["activeRelayId"@, "activeProfileId"@],
    ) {
        Some(id) => match profile_index(ps, id) {
            Some(j) => codex_plus_config_spec(ps[j], hint),
            None => None,
        },
        None => None,
    };
    match pick_string(settings, &idkeys) {
        Some(active_id) => {
            match find_profile(profiles, active_id) {
                Some(i) => {
                    match codex_plus_api_config_from_value(&profiles[i], raw_config_hint) {
                        Some(c) => {
                            return Some(c);
                        },
                        None => {
                            assert(active_spec is None);
                        },
                    }
                },
                None => {
                    assert(active_spec is None);
                },
            }
        },
        None => {
            assert(active_spec is None);
        },
    }
    assert(codex_plus_settings_spec(*settings, hint) == match codex_plus_config_spec(*settings, hint) {
        Some(c) => Some(c),
        None => first_profile_config(ps, hint),
    });
    match codex_plus_api_config_from_value(settings, raw_config_hint) {
        Some(c) => {
            return Some(c);
        },
        None => {},
    }
    let mut k: usize = 0;
    assert(ps.skip(0) =~= ps);
    while k < profiles.len()
        invariant
            k <= profiles.len(),
            ps == profiles@,
            hint == opt_str_view(raw_config_hint),
            codex_plus_settings_spec(*settings, hint) == first_profile_config(ps, hint),
            first_profile_config(ps, hint) == first_profile_config(ps.skip(k as int), hint),
        decreases profiles.len() - k,
    {
        let ghost rest = ps.skip(k as int);
        assert(rest[0] == ps[k as int]);
        assert(rest.drop_first() =~= ps.skip(k + 1));
        match codex_plus_api_config_from_value(&profiles[k], raw_config_hint) {
            Some(c) => {
                return Some(c);
            },
            None => {},
        }
        k = k + 1;
    }
    assert(ps.skip(k as int).len() == 0);
    None
}

/// The API configuration of the JSON text of a Codex++ settings file;
/// `None` when the text is not a JSON document.
pub fn codex_plus_api_config_from_text(raw: &str, raw_config_hint: Option<&str>) -> (r: Option<
    ApiConfig,
>)
    ensures
        opt_config(r) == match json_document(raw@) {
            Some(settings) => codex_plus_settings_spec(settings, opt_str_view(raw_config_hint)),
            None => None,
        },
{
    match parse_json(raw) {
        Some(settings) => codex_plus_api_config_from_settings(&settings, raw_config_hint),
        None => None,
    }
}


/// The provider a Codex config selects (`openai` when it names none).
pub open spec fn config_provider(raw: Seq<char>) -> Seq<char> {
    match top_level_value(raw, "model_provider"@) {
        Some(p) => p,
        None => "openai"@,
    }
}

/// The display name of the provider a Codex config selects.
pub open spec fn config_provider_name(raw: Seq<char>) -> Seq<char> {
    match provider_value(raw, config_provider(raw), "name"@) {
        Some(n) => n,
        None => unicode_uppercase(config_provider(raw)),
    }
}

/// The base URL of the provider a Codex config selects.
pub open spec fn config_base_url(raw: Seq<char>) -> Seq<char> {
    match provider_value(raw, config_provider(raw), "base_url"@) {
        Some(u) => u,
        None => "https://api.openai.com/v1"@,
    }
}

/// Whether a Codex config leaves its key to CC Switch: a
/// `PROXY_MANAGED` bearer token, a provider named like CC Switch, or a base
/// URL on the local CC Switch proxy.
pub open spec fn cc_switch_wanted_spec(raw: Seq<char>) -> bool {
    let proxy_managed = match provider_value(raw, config_provider(raw), "experimental_bearer_token"@) {
        Some(v) => eq_ignore_ascii_case(trim(v), "PROXY_MANAGED"@),
        None => false,
    };
    proxy_managed || contains(lower(config_provider_name(raw)), lower("cc switch"@))
        || is_cc_switch_proxy(config_base_url(raw))
}

/// The environment variable a Codex config names for its key.
pub open spec fn api_key_env_var_spec(raw: Seq<char>) -> Option<Seq<char>> {
    provider_value(raw, config_provider(raw), "api_key_env_var"@)
}

/// What a Codex config reading needs from outside the config text.
pub struct ConfigSources {
    /// CC Switch's current Codex provider, when it could be read.
    pub cc_switch: Option<ApiConfig>,
    /// The value of the variable the config names in `api_key_env_var`.
    pub named_env_key: Option<String>,
    /// The value of `OPENAI_API_KEY`.
    pub openai_env_key: Option<String>,
    /// The key of the auth file next to the config.
    pub auth_file_key: Option<String>,
}

/// The first of `options` that is present.
pub open spec fn first_some(options: Seq<Option<Seq<char>>>) -> Option<Seq<char>>
    decreases options.len(),
{
    if options.len() == 0 {
        None
    } else {
        match options[0] {
            Some(v) => Some(v),
            None => first_some(options.drop_first()),
        }
    }
}

/// `usable_key` of an optional value.
pub open spec fn usable_opt(o: Option<Seq<char>>) -> Option<Seq<char>> {
    match o {
        Some(v) => usable_key(v),
        None => None,
    }
}

/// The API configuration a Codex config describes: CC Switch's when the
/// config defers to it and it could be read; else the selected provider's
/// name, base URL and balance URL with the first usable key among the
/// bearer token, the named environment variable, `OPENAI_API_KEY` and the
/// auth file. A custom provider behind Codex++ is named `Codex++`.
pub open spec fn api_config_from_raw_spec(
    raw: Seq<char>,
    source_hint: Option<Seq<char>>,
    cc_switch: Option<ApiConfigView>,
    named_env_key: Option<Seq<char>>,
    openai_env_key: Option<Seq<char>>,
    auth_file_key: Option<Seq<char>>,
) -> Option<ApiConfigView> {
    let provider = config_provider(raw);
    let name = config_provider_name(raw);
    let base_url = config_base_url(raw);
    if cc_switch_wanted_spec(raw) && cc_switch is Some {
        cc_switch
    } else {
        let key = first_some(
            seq![
                usable_opt(provider_value(raw, provider, "experimental_bearer_token"@)),
                if api_key_env_var_spec(raw) is Some {
                    usable_opt(named_env_key)
                } else {
                    None
                },
                usable_opt(openai_env_key),
                auth_file_key,
            ],
        );
        match key {
            None => None,
            Some(api_key) => if trim(api_key).len() == 0 {
                None
            } else {
                Some(
                    ApiConfigView {
                        provider_name: if (source_hint == Some("Codex++"@) || is_codex_plus_proxy(
                            base_url,
                        )) && eq_ignore_ascii_case(name, "custom"@) {
                            "Codex++"@
                        } else {
                            name
                        },
                        base_url,
                        balance_url: section_balance_url(raw, provider),
                        api_key,
                    },
                )
            },
        }
    }
}

/// A key a configuration can use: trimmed, it is neither empty nor the
/// `PROXY_MANAGED` placeholder.
pub open spec fn usable_text(k: Seq<char>) -> bool {
    trim(k).len() > 0 && !eq_ignore_ascii_case(trim(k), "PROXY_MANAGED"@)
}

/// The first present of four candidates.
proof fn lemma_first_some_four(
    a: Option<Seq<char>>,
    b: Option<Seq<char>>,
    c: Option<Seq<char>>,
    d: Option<Seq<char>>,
)
    ensures
        first_some(seq![a, b, c, d]) == if a is Some {
            a
        } else if b is Some {
            b
        } else if c is Some {
            c
        } else {
            d
        },
{
    let s = seq![a, b, c, d];
    assert(s.drop_first() =~= seq![b, c, d]);
    assert(seq![b, c, d].drop_first() =~= seq![c, d]);
    assert(seq![c, d].drop_first() =~= seq![d]);
    assert(seq![d].drop_first() =~= Seq::<Option<Seq<char>>>::empty());
    reveal_with_fuel(first_some, 5);
}

/// The key candidates of a config reading that does not defer to CC Switch.
proof fn lemma_key_candidates(
    raw: Seq<char>,
    source_hint: Option<Seq<char>>,
    cc_switch: Option<ApiConfigView>,
    named_env_key: Option<Seq<char>>,
    openai_env_key: Option<Seq<char>>,
    auth_file_key: Option<Seq<char>>,
    k: Seq<char>,
)
    requires
        !(cc_switch_wanted_spec(raw) && cc_switch is Some),
        trim(k).len() > 0,
        first_some(
            seq![
                usable_opt(provider_value(raw, config_provider(raw), "experimental_bearer_token"@)),
                if api_key_env_var_spec(raw) is Some {
                    usable_opt(named_env_key)
                } else {
                    None
                },
                usable_opt(openai_env_key),
                auth_file_key,
            ],
        ) == Some(trim(k)),
    ensures
        api_config_from_raw_spec(raw, source_hint, cc_switch, named_env_key, openai_env_key, auth_file_key)
            matches Some(c) && c.api_key == trim(k),
{
    lemma_trim_trim(k);
    assert(trim(trim(k)).len() > 0);
}

/// A Codex config that does not defer to CC Switch and whose selected
/// provider sets a usable `experimental_bearer_token` carries that token,
/// trimmed, as its key, whatever the environment or the auth file hold.
pub proof fn lemma_bearer_token_wins(
    raw: Seq<char>,
    source_hint: Option<Seq<char>>,
    cc_switch: Option<ApiConfigView>,
    named_env_key: Option<Seq<char>>,
    openai_env_key: Option<Seq<char>>,
    auth_file_key: Option<Seq<char>>,
    token: Seq<char>,
)
    requires
        !(cc_switch_wanted_spec(raw) && cc_switch is Some),
        provider_value(raw, config_provider(raw), "experimental_bearer_token"@) == Some(token),
        usable_text(token),
    ensures
        api_config_from_raw_spec(raw, source_hint, cc_switch, named_env_key, openai_env_key, auth_file_key)
            matches Some(c) && c.api_key == trim(token),
{
    lemma_first_some_four(
        usable_opt(provider_value(raw, config_provider(raw), "experimental_bearer_token"@)),
        if api_key_env_var_spec(raw) is Some {
            usable_opt(named_env_key)
        } else {
            None
        },
        usable_opt(openai_env_key),
        auth_file_key,
    );
    lemma_key_candidates(raw, source_hint, cc_switch, named_env_key, openai_env_key, auth_file_key, token);
}

/// Without a usable bearer token, the variable a config names in
/// `api_key_env_var` gives the key, ahead of `OPENAI_API_KEY` and the auth
/// file.
pub proof fn lemma_named_variable_before_openai_key(
    raw: Seq<char>,
    source_hint: Option<Seq<char>>,
    cc_switch: Option<ApiConfigView>,
    named_env_key: Option<Seq<char>>,
    openai_env_key: Option<Seq<char>>,
    auth_file_key: Option<Seq<char>>,
    named: Seq<char>,
)
    requires
        !(cc_switch_wanted_spec(raw) && cc_switch is Some),
        !(provider_value(raw, config_provider(raw), "experimental_bearer_token"@) matches Some(t)
            && usable_text(t)),
        provider_value(raw, config_provider(raw), "api_key_env_var"@) is Some,
        named_env_key == Some(named),
        usable_text(named),
    ensures
        api_config_from_raw_spec(raw, source_hint, cc_switch, named_env_key, openai_env_key, auth_file_key)
            matches Some(c) && c.api_key == trim(named),
{
    lemma_first_some_four(
        usable_opt(provider_value(raw, config_provider(raw), "experimental_bearer_token"@)),
        if api_key_env_var_spec(raw) is Some {
            usable_opt(named_env_key)
        } else {
            None
        },
        usable_opt(openai_env_key),
        auth_file_key,
    );
    lemma_key_candidates(raw, source_hint, cc_switch, named_env_key, openai_env_key, auth_file_key, named);
}

/// Without a usable bearer token or named variable, `OPENAI_API_KEY` gives
/// the key, ahead of the auth file.
pub proof fn lemma_openai_key_before_auth_file(
    raw: Seq<char>,
    source_hint: Option<Seq<char>>,
    cc_switch: Option<ApiConfigView>,
    named_env_key: Option<Seq<char>>,
    openai_env_key: Option<Seq<char>>,
    auth_file_key: Option<Seq<char>>,
    openai: Seq<char>,
)
    requires
        !(cc_switch_wanted_spec(raw) && cc_switch is Some),
        !(provider_value(raw, config_provider(raw), "experimental_bearer_token"@) matches Some(t)
            && usable_text(t)),
        provider_value(raw, config_provider(raw), "api_key_env_var"@) is Some ==> !(named_env_key matches Some(
            n) && usable_text(n)),
        openai_env_key == Some(openai),
        usable_text(openai),
    ensures
        api_config_from_raw_spec(raw, source_hint, cc_switch, named_env_key, openai_env_key, auth_file_key)
            matches Some(c) && c.api_key == trim(openai),
{
    lemma_first_some_four(
        usable_opt(provider_value(raw, config_provider(raw), "experimental_bearer_token"@)),
        if api_key_env_var_spec(raw) is Some {
            usable_opt(named_env_key)
        } else {
            None
        },
        usable_opt(openai_env_key),
        auth_file_key,
    );
    lemma_key_candidates(raw, source_hint, cc_switch, named_env_key, openai_env_key, auth_file_key, openai);
}

fn config_provider_of(raw: &str) -> (r: String)
    ensures
        r@ == config_provider(raw@),
{
    match top_level_toml_string(raw, "model_provider") {
        Some(p) => p,
        None => String::from_str("openai"),
    }
}

fn config_provider_name_of(raw: &str, provider: &String) -> (r: String)
    requires
        provider@ == config_provider(raw@),
    ensures
        r@ == config_provider_name(raw@),
{
    match provider_toml_string(raw, provider.as_str(), "name") {
        Some(n) => n,
        None => to_uppercase(provider.as_str()),
    }
}

fn config_base_url_of(raw: &str, provider: &String) -> (r: String)
    requires
        provider@ == config_provider(raw@),
    ensures
        r@ == config_base_url(raw@),
{
    match provider_toml_string(raw, provider.as_str(), "base_url") {
        Some(u) => u,
        None => String::from_str("https://api.openai.com/v1"),
    }
}

fn is_trimmed_empty(s: &String) -> (b: bool)
    ensures
        b == (trim(s@).len() == 0),
{
    let c = chars_of(s.as_str());
    assert(c@.subrange(0, c@.len() as int) =~= c@);
    let (a, b) = trim_in(&c, 0, c.len());
    a == b
}

fn is_ignore_case(s: &String, lit: &str) -> (b: bool)
    ensures
        b == eq_ignore_ascii_case(s@, lit@),
{
    let c = chars_of(s.as_str());
    let l = chars_of(lit);
    assert(c@.subrange(0, c@.len() as int) =~= c@);
    assert(l@.subrange(0, l@.len() as int) =~= l@);
    eq_ignore_ascii_case_in(&c, 0, c.len(), &l, 0, l.len())
}

fn usable_of(o: Option<String>) -> (r: Option<String>)
    ensures
        opt_view(r) == usable_opt(opt_view(o)),
{
    match o {
        Some(v) => usable_api_key(v),
        None => None,
    }
}

/// Whether a Codex config defers its key to CC Switch.
pub fn cc_switch_wanted(raw_config: &str) -> (b: bool)
    ensures
        b == cc_switch_wanted_spec(raw_config@),
{
    let provider = config_provider_of(raw_config);
    let name = config_provider_name_of(raw_config, &provider);
    let base_url = config_base_url_of(raw_config, &provider);
    let proxy_managed = match provider_toml_string(
        raw_config,
        provider.as_str(),
        "experimental_bearer_token",
    ) {
        Some(v) => {
            let t = crate::text::trim_str(v.as_str());
            is_ignore_case(&t, "PROXY_MANAGED")
        },
        None => false,
    };
    proxy_managed || contains_ignore_ascii_case(&chars_of(name.as_str()), &chars_of("cc switch"))
        || is_cc_switch_proxy_url(base_url.as_str())
}

/// The environment variable a Codex config names for its key.
pub fn api_key_env_var(raw_config: &str) -> (r: Option<String>)
    ensures
        opt_view(r) == api_key_env_var_spec(raw_config@),
{
    let provider = config_provider_of(raw_config);
    provider_toml_string(raw_config, provider.as_str(), "api_key_env_var")
}

/// The API configuration a Codex config describes, given what it needs
/// from outside its text.
pub fn load_api_config_from_raw(
    raw_config: &str,
    source_hint: Option<&str>,
    sources: ConfigSources,
) -> (r: Option<ApiConfig>)
    ensures
        opt_config(r) == api_config_from_raw_spec(
            raw_config@,
            opt_str_view(source_hint),
            opt_config(sources.cc_switch),
            opt_view(sources.named_env_key),
            opt_view(sources.openai_env_key),
            opt_view(sources.auth_file_key),
        ),
{
    let ConfigSources { cc_switch, named_env_key, openai_env_key, auth_file_key } = sources;
    let provider = config_provider_of(raw_config);
    let name = config_provider_name_of(raw_config, &provider);
    let base_url = config_base_url_of(raw_config, &provider);
    if cc_switch_wanted(raw_config) {
        match cc_switch {
            Some(c) => {
                return Some(c);
            },
            None => {},
        }
    }
    let balance_url = section_balance_url_of(raw_config, provider.as_str());
    let bearer = provider_toml_string(raw_config, provider.as_str(), "experimental_bearer_token");
    let named = if api_key_env_var(raw_config).is_some() {
        named_env_key
    } else {
        None
    };
    let ghost options = seq![
        usable_opt(provider_value(raw_config@, provider@, "experimental_bearer_token"@)),
        if api_key_env_var_spec(raw_config@) is Some {
            usable_opt(opt_view(named_env_key))
        } else {
            None
        },
        usable_opt(opt_view(openai_env_key)),
        opt_view(auth_file_key),
    ];
    assert(options.drop_first()[0] == options[1]);
    assert(options.drop_first().drop_first()[0] == options[2]);
    assert(options.drop_first().drop_first().drop_first()[0] == options[3]);
    assert(options.drop_first().drop_first().drop_first().drop_first().len() == 0);
    proof {
        reveal_with_fuel(first_some, 5);
    }
    let api_key = match usable_of(bearer) {
        Some(k) => k,
        None => match usable_of(named) {
            Some(k) => k,
            None => match usable_of(openai_env_key) {
                Some(k) => k,
                None => match auth_file_key {
                    Some(k) => k,
                    None => {
                        return None;
                    },
                },
            },
        },
    };
    if is_trimmed_empty(&api_key) {
        return None;
    }
    let is_codex_plus = match source_hint {
        Some(h) => {
            let hs = String::from_str(h);
            let cp = String::from_str("Codex++");
            hs == cp
        },
        None => false,
    } || is_codex_plus_proxy_url(base_url.as_str());
    let provider_name = if is_codex_plus && is_ignore_case(&name, "custom") {
        String::from_str("Codex++")
    } else {
        name
    };
    Some(ApiConfig { provider_name, base_url, balance_url, api_key })
}

/// The URLs a balance lookup tries for a configuration, in order.
pub fn api_balance_urls(config: &ApiConfig) -> (r: Vec<String>)
    ensures
        string_views(r@) == balance_urls_spec(config.base_url@, opt_view(config.balance_url)),
{
    balance_urls(config.base_url.as_str(), &config.balance_url)
}

} // verus!
