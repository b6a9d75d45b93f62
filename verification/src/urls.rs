//! The URLs a balance lookup tries, and how local proxies are recognized.

use vstd::prelude::*;
use vstd::string::*;
use crate::text::{
    chars_of, contains, contains_ignore_ascii_case, find_in, lower, string_of, trim, trim_in,
};

verus! {

/// `s` with every trailing `/` removed (`str::trim_end_matches('/')`).
pub open spec fn trim_end_slashes(s: Seq<char>) -> Seq<char>
    decreases s.len(),
{
    if s.len() > 0 && s.last() == '/' {
        trim_end_slashes(s.drop_last())
    } else {
        s
    }
}

/// A base URL with surrounding white space and trailing slashes removed.
pub open spec fn trimmed_url_spec(s: Seq<char>) -> Seq<char> {
    trim_end_slashes(trim(s))
}

proof fn lemma_trim_end_slashes_at(s: Seq<char>, k: int)
    requires
        0 <= k <= s.len(),
        forall|i: int| k <= i < s.len() ==> #[trigger] s[i] == '/',
        k == 0 || s[k - 1] != '/',
    ensures
        trim_end_slashes(s) == s.take(k),
    decreases s.len() - k,
{
    if k < s.len() {
        assert forall|i: int| k <= i < s.len() - 1 implies #[trigger] s.drop_last()[i] == '/' by {
            assert(s.drop_last()[i] == s[i]);
        }
        if k > 0 {
            assert(s.drop_last()[k - 1] == s[k - 1]);
        }
        lemma_trim_end_slashes_at(s.drop_last(), k);
        assert(s.drop_last().take(k) =~= s.take(k));
    } else {
        assert(s.take(k) =~= s);
    }
}

/// A base URL without surrounding white space and trailing slashes.
pub fn trimmed_url(value: &str) -> (r: String)
    ensures
        r@ == trimmed_url_spec(value@),
{
    let c = chars_of(value);
    assert(c@.subrange(0, c@.len() as int) =~= c@);
    let (a, b) = trim_in(&c, 0, c.len());
    let mut e = b;
    while e > a && c[e - 1] == '/'
        invariant
            a <= e <= b <= c.len(),
            forall|i: int| e <= i < b ==> #[trigger] c@[i] == '/',
        decreases e - a,
    {
        e = e - 1;
    }
    proof {
        let t = c@.subrange(a as int, b as int);
        assert forall|i: int| e - a <= i < t.len() implies #[trigger] t[i] == '/' by {
            assert(t[i] == c@[a + i]);
        }
        if e > a {
            assert(t[e - a - 1] == c@[e - 1]);
        }
        lemma_trim_end_slashes_at(t, e - a);
        assert(t.take(e - a) =~= c@.subrange(a as int, e as int));
    }
    string_of(value, &c, a, e)
}

/// A URL that points at the local CC Switch proxy.
pub open spec fn is_cc_switch_proxy(url: Seq<char>) -> bool {
    contains(lower(url), lower("127.0.0.1:15721"@)) || contains(lower(url), lower("localhost:15721"@))
}

/// A URL that points at the local Codex++ proxy.
pub open spec fn is_codex_plus_proxy(url: Seq<char>) -> bool {
    contains(lower(url), lower("127.0.0.1:57321"@)) || contains(lower(url), lower("localhost:57321"@))
}

/// Whether a base URL points at the local CC Switch proxy, ignoring ASCII
/// case.
pub fn is_cc_switch_proxy_url(base_url: &str) -> (b: bool)
    ensures
        b == is_cc_switch_proxy(base_url@),
{
    let c = chars_of(base_url);
    contains_ignore_ascii_case(&c, &chars_of("127.0.0.1:15721")) || contains_ignore_ascii_case(
        &c,
        &chars_of("localhost:15721"),
    )
}

/// Whether a base URL points at the local Codex++ proxy, ignoring ASCII
/// case.
pub fn is_codex_plus_proxy_url(base_url: &str) -> (b: bool)
    ensures
        b == is_codex_plus_proxy(base_url@),
{
    let c = chars_of(base_url);
    contains_ignore_ascii_case(&c, &chars_of("127.0.0.1:57321")) || contains_ignore_ascii_case(
        &c,
        &chars_of("localhost:57321"),
    )
}

/// A base URL without a final `/v1` (or `/V1`).
pub open spec fn url_root(base: Seq<char>) -> Seq<char> {
    if "/v1"@.is_suffix_of(base) || "/V1"@.is_suffix_of(base) {
        base.take(base.len() - 3)
    } else {
        base
    }
}

/// The paths a balance endpoint is looked for under, in order.
pub open spec fn balance_paths() -> Seq<Seq<char>> {
    seq![
        "dashboard/billing/credit_grants"@,
        "billing/credit_grants"@,
        "usage"@,
        "api/user/self"@,
        "credit_grants"@,
        "credits"@,
        "user/balance"@,
        "balance"@,
    ]
}

/// The prefixes the paths are tried under, in order: the base URL, the root
/// with `/v1`, the root.
pub open spec fn balance_prefixes(base: Seq<char>) -> Seq<Seq<char>> {
    seq![base, url_root(base) + "/v1"@, url_root(base)]
}

/// Every `<prefix>/<path>`, prefixes outermost.
pub open spec fn balance_candidates(base: Seq<char>) -> Seq<Seq<char>> {
    Seq::new(
        24,
        |i: int| balance_prefixes(base)[i / 8] + "/"@ + balance_paths()[i % 8],
    )
}

/// `acc` followed by each of `items` that is not already listed.
pub open spec fn append_new(acc: Seq<Seq<char>>, items: Seq<Seq<char>>) -> Seq<Seq<char>>
    decreases items.len(),
{
    if items.len() == 0 {
        acc
    } else {
        append_new(
            if acc.contains(items[0]) {
                acc
            } else {
                acc.push(items[0])
            },
            items.drop_first(),
        )
    }
}

/// The URLs a balance lookup tries, in order: the configured balance URL,
/// then every candidate under the trimmed base URL, without repeats; none
/// when the trimmed base URL is empty.
pub open spec fn balance_urls_spec(base_url: Seq<char>, balance_url: Option<Seq<char>>) -> Seq<
    Seq<char>,
> {
    let base = trimmed_url_spec(base_url);
    if base.len() == 0 {
        Seq::empty()
    } else {
        append_new(
            match balance_url {
                Some(u) => seq![u],
                None => Seq::empty(),
            },
            balance_candidates(base),
        )
    }
}

/// No entry of `s` is listed twice.
pub open spec fn distinct(s: Seq<Seq<char>>) -> bool {
    forall|i: int, j: int| 0 <= i < j < s.len() ==> s[i] != s[j]
}

/// `append_new` keeps what was listed, lists no entry twice when `acc`
/// did not, and lists every item.
pub proof fn lemma_append_new(acc: Seq<Seq<char>>, items: Seq<Seq<char>>)
    ensures
        acc.is_prefix_of(append_new(acc, items)),
        distinct(acc) ==> distinct(append_new(acc, items)),
        forall|k: int| 0 <= k < items.len() ==> append_new(acc, items).contains(#[trigger] items[k]),
        forall|x: Seq<char>| #[trigger] append_new(acc, items).contains(x) ==> acc.contains(x) || items.contains(x),
    decreases items.len(),
{
    if items.len() > 0 {
        let next = if acc.contains(items[0]) {
            acc
        } else {
            acc.push(items[0])
        };
        lemma_append_new(next, items.drop_first());
        let r = append_new(next, items.drop_first());
        assert(acc.is_prefix_of(next));
        assert(acc.is_prefix_of(r)) by {
            assert forall|i: int| 0 <= i < acc.len() implies acc[i] == r[i] by {
                assert(next[i] == acc[i]);
            }
        }
        if distinct(acc) && !acc.contains(items[0]) {
            assert forall|i: int, j: int| 0 <= i < j < next.len() implies next[i] != next[j] by {
                if j == acc.len() {
                    assert(next[i] == acc[i]);
                }
            }
        }
        assert(next.contains(items[0])) by {
            if !acc.contains(items[0]) {
                assert(next[acc.len() as int] == items[0]);
            }
        }
        assert(next.is_prefix_of(r));
        assert(r.contains(items[0])) by {
            let w = choose|w: int| 0 <= w < next.len() && next[w] == items[0];
            assert(r[w] == items[0]);
        }
        assert forall|k: int| 0 <= k < items.len() implies r.contains(#[trigger] items[k]) by {
            if k > 0 {
                assert(items.drop_first()[k - 1] == items[k]);
            }
        }
        assert forall|x: Seq<char>| #[trigger] r.contains(x) implies acc.contains(x) || items.contains(x) by {
            if next.contains(x) && !acc.contains(x) {
                assert(x == items[0]);
            }
            if items.drop_first().contains(x) {
                let w = choose|w: int| 0 <= w < items.drop_first().len() && items.drop_first()[w] == x;
                assert(items[w + 1] == x);
            }
        }
    }
}

/// The characters of each string of a list.
pub open spec fn string_views(v: Seq<String>) -> Seq<Seq<char>> {
    v.map_values(|s: String| s@)
}

fn list_contains(urls: &Vec<String>, url: &String) -> (b: bool)
    ensures
        b == string_views(urls@).contains(url@),
{
    let mut i: usize = 0;
    while i < urls.len()
        invariant
            i <= urls.len(),
            forall|k: int| 0 <= k < i ==> urls@[k]@ != url@,
        decreases urls.len() - i,
    {
        if urls[i] == *url {
            assert(string_views(urls@)[i as int] == url@);
            return true;
        }
        i = i + 1;
    }
    assert forall|k: int| 0 <= k < string_views(urls@).len() implies string_views(urls@)[k] != url@ by {
        assert(string_views(urls@)[k] == urls@[k]@);
    }
    false
}

fn joined(prefix: &String, path: &str) -> (r: String)
    ensures
        r@ == prefix@ + "/"@ + path@,
{
    let mut u = String::from_str(prefix.as_str());
    u.append("/");
    u.append(path);
    u
}

/// The URLs a balance lookup tries for a provider, in order: the
/// configured balance URL first, then each known balance path under the
/// base URL, under its root with `/v1`, and under its root; no URL twice.
pub fn balance_urls(base_url: &str, balance_url: &Option<String>) -> (r: Vec<String>)
    ensures
        string_views(r@) == balance_urls_spec(base_url@, opt_view_ref(balance_url)),
{
    let base = trimmed_url(base_url);
    let bc = chars_of(base.as_str());
    if bc.len() == 0 {
        assert(string_views(Seq::<String>::empty()) =~= Seq::<Seq<char>>::empty());
        return Vec::new();
    }
    let n = bc.len();
    let root_end = if n >= 3 && bc[n - 3] == '/' && (bc[n - 2] == 'v' || bc[n - 2] == 'V') && bc[n
        - 1] == '1' {
        n - 3
    } else {
        n
    };
    proof {
        reveal_strlit("/v1");
        reveal_strlit("/V1");
        let b = base@;
        if "/v1"@.is_suffix_of(b) || "/V1"@.is_suffix_of(b) {
            assert(b.subrange(b.len() - 3, b.len() as int) == "/v1"@ || b.subrange(
                b.len() - 3,
                b.len() as int,
            ) == "/V1"@);
            assert(b.subrange(b.len() - 3, b.len() as int)[0] == b[n - 3]);
            assert(b.subrange(b.len() - 3, b.len() as int)[1] == b[n - 2]);
            assert(b.subrange(b.len() - 3, b.len() as int)[2] == b[n - 1]);
        }
        if root_end == n - 3 {
            if bc@[n - 2] == 'v' {
                assert(b.subrange(n - 3, n as int) =~= "/v1"@);
            } else {
                assert(b.subrange(n - 3, n as int) =~= "/V1"@);
            }
        }
    }
    let root = string_of(base.as_str(), &bc, 0, root_end);
    assert(root@ =~= url_root(base@));
    let mut v1 = String::from_str(root.as_str());
    v1.append("/v1");
    let prefixes = [base, v1, root];
    let paths = [
        "dashboard/billing/credit_grants",
        "billing/credit_grants",
        "usage",
        "api/user/self",
        "credit_grants",
        "credits",
        "user/balance",
        "balance",
    ];
    let ghost cands = balance_candidates(base@);
    let mut urls: Vec<String> = Vec::new();
    match balance_url {
        Some(u) => {
            urls.push(u.clone());
        },
        None => {},
    }
    let ghost initial = string_views(urls@);
    assert(initial =~= match opt_view_ref(balance_url) {
        Some(u) => seq![u],
        None => Seq::empty(),
    });
    let mut k: usize = 0;
    assert(cands.skip(0) =~= cands);
    while k < 24
        invariant
            k <= 24,
            cands == balance_candidates(base@),
            prefixes@.map_values(|p: String| p@) == balance_prefixes(base@),
            paths@.map_values(|p: &str| p@) == balance_paths(),
            append_new(initial, cands) == append_new(string_views(urls@), cands.skip(k as int)),
        decreases 24 - k,
    {
        let url = joined(&prefixes[k / 8], paths[k % 8]);
        assert(url@ == cands[k as int]);
        let ghost before = string_views(urls@);
        assert(cands.skip(k as int)[0] == cands[k as int]);
        assert(cands.skip(k as int).drop_first() =~= cands.skip(k + 1));
        if !list_contains(&urls, &url) {
            urls.push(url);
            assert(string_views(urls@) =~= before.push(cands[k as int]));
        }
        k = k + 1;
    }
    assert(cands.skip(24) =~= Seq::<Seq<char>>::empty());
    urls
}

/// The characters of an optional string behind a reference.
pub open spec fn opt_view_ref(o: &Option<String>) -> Option<Seq<char>> {
    match *o {
        Some(s) => Some(s@),
        None => None,
    }
}

/// The status URL of a local CC Switch proxy: for a base URL on this
/// machine, its root followed by `/status`.
pub open spec fn cc_switch_status_spec(base_url: Seq<char>) -> Option<Seq<char>> {
    let base = trimmed_url_spec(base_url);
    if !(contains(base, "127.0.0.1"@) || contains(base, "localhost"@)) {
        None
    } else {
        Some(url_root(base) + "/status"@)
    }
}

/// The CC Switch status URL for a base URL on this machine.
pub fn cc_switch_status_url(base_url: &str) -> (r: Option<String>)
    ensures
        opt_view_ref(&r) == cc_switch_status_spec(base_url@),
{
    let base = trimmed_url(base_url);
    let bc = chars_of(base.as_str());
    let n = bc.len();
    assert(bc@.subrange(0, n as int) =~= bc@);
    let local = find_in(&bc, 0, n, &chars_of("127.0.0.1")).is_some() || find_in(
        &bc,
        0,
        n,
        &chars_of("localhost"),
    ).is_some();
    if !local {
        return None;
    }
    let root_end = if n >= 3 && bc[n - 3] == '/' && (bc[n - 2] == 'v' || bc[n - 2] == 'V') && bc[n
        - 1] == '1' {
        n - 3
    } else {
        n
    };
    proof {
        reveal_strlit("/v1");
        reveal_strlit("/V1");
        let b = base@;
        if "/v1"@.is_suffix_of(b) || "/V1"@.is_suffix_of(b) {
            assert(b.subrange(b.len() - 3, b.len() as int)[0] == b[n - 3]);
            assert(b.subrange(b.len() - 3, b.len() as int)[1] == b[n - 2]);
            assert(b.subrange(b.len() - 3, b.len() as int)[2] == b[n - 1]);
        }
        if root_end == n - 3 {
            if bc@[n - 2] == 'v' {
                assert(b.subrange(n - 3, n as int) =~= "/v1"@);
            } else {
                assert(b.subrange(n - 3, n as int) =~= "/V1"@);
            }
        }
    }
    let mut root = string_of(base.as_str(), &bc, 0, root_end);
    assert(root@ =~= url_root(base@));
    root.append("/status");
    Some(root)
}

/// Every URL a balance lookup tries is the configured balance URL or lies
/// under the provider's base URL, below its root without `/v1`: balance
/// requests go only to the configured provider.
pub proof fn lemma_balance_urls_stay_with_provider(base_url: Seq<char>, balance_url: Option<Seq<char>>)
    ensures
        forall|u: Seq<char>| #[trigger] balance_urls_spec(base_url, balance_url).contains(u)
            ==> balance_url == Some(u) || url_root(trimmed_url_spec(base_url)).is_prefix_of(u),
{
    let base = trimmed_url_spec(base_url);
    if base.len() > 0 {
        let acc = match balance_url {
            Some(u) => seq![u],
            None => Seq::empty(),
        };
        let cands = balance_candidates(base);
        lemma_append_new(acc, cands);
        let root = url_root(base);
        assert(root.is_prefix_of(base)) by {
            reveal_strlit("/v1");
            reveal_strlit("/V1");
            assert(root =~= base.subrange(0, root.len() as int));
        }
        assert forall|u: Seq<char>| #[trigger] balance_urls_spec(base_url, balance_url).contains(u)
            implies balance_url == Some(u) || root.is_prefix_of(u) by {
            if !acc.contains(u) {
                assert(cands.contains(u));
                let i = choose|i: int| 0 <= i < cands.len() && cands[i] == u;
                let prefix = balance_prefixes(base)[i / 8];
                assert(root.is_prefix_of(prefix));
                assert(u == prefix + "/"@ + balance_paths()[i % 8]);
                assert forall|k: int| 0 <= k < root.len() implies u[k] == root[k] by {
                    assert(u[k] == prefix[k]);
                }
            } else {
                assert(acc[0] == u);
            }
        }
    }
}

/// A balance lookup tries no URL twice, and tries the configured balance
/// URL first.
pub proof fn lemma_balance_urls_order(base_url: Seq<char>, balance_url: Option<Seq<char>>)
    ensures
        distinct(balance_urls_spec(base_url, balance_url)),
        trimmed_url_spec(base_url).len() > 0 ==> match balance_url {
            Some(u) => balance_urls_spec(base_url, balance_url).len() > 0 && balance_urls_spec(
                base_url,
                balance_url,
            )[0] == u,
            None => true,
        },
{
    let base = trimmed_url_spec(base_url);
    if base.len() > 0 {
        let acc = match balance_url {
            Some(u) => seq![u],
            None => Seq::empty(),
        };
        lemma_append_new(acc, balance_candidates(base));
        let r = append_new(acc, balance_candidates(base));
        if balance_url is Some {
            assert(acc.is_prefix_of(r));
            assert(r.subrange(0, acc.len() as int)[0] == r[0]);
        }
    }
}

} // verus!
