//! Line-oriented reading of string settings from a Codex `config.toml`.
//!
//! Only `key = "value"` (or single-quoted) lines are understood: the value
//! runs from the opening quote to the next occurrence of the same quote.

use vstd::prelude::*;
use crate::text::{
    is_quote, is_space, lemma_find_char, lemma_trim_end_split, lemma_trim_start_at, lemma_trim_start_split,
    quoted_after, chars_of, find, find_in, lemma_find_from_occurs, opt_view, push_window, starts_with_in, string_of,
    trim, trim_in, trim_start, trim_start_in, windows_equal,
};

verus! {

/// The value of a `key = "value"` line, as `parse_toml_string_line` reads it.
pub open spec fn toml_string_value(line: Seq<char>, key: Seq<char>) -> Option<Seq<char>> {
    let l = trim(line);
    if !key.is_prefix_of(l) {
        None
    } else {
        let after = trim_start(l.skip(key.len() as int));
        if after.len() == 0 || after[0] != '=' {
            None
        } else {
            let v = trim(after.skip(1));
            if v.len() == 0 || (v[0] != '"' && v[0] != '\'') {
                None
            } else {
                match find(v.skip(1), seq![v[0]]) {
                    Some(e) => Some(v.skip(1).take(e)),
                    None => None,
                }
            }
        }
    }
}

/// The lines of `s`: the pieces between line feeds (`str::lines`; the
/// carriage return that `str::lines` also drops is white space, and every
/// reader below trims its lines).
pub open spec fn split_lines(s: Seq<char>) -> Seq<Seq<char>>
    decreases s.len(),
{
    match find(s, seq!['\n']) {
        Some(i) => if 0 <= i < s.len() {
            seq![s.take(i)] + split_lines(s.skip(i + 1))
        } else {
            seq![s]
        },
        None => seq![s],
    }
}

/// A trimmed line opens a section.
pub open spec fn is_section(line: Seq<char>) -> bool {
    line.len() > 0 && line[0] == '['
}

/// The first `key = "value"` among `lines` before the first section header.
pub open spec fn top_level_in(lines: Seq<Seq<char>>, key: Seq<char>) -> Option<Seq<char>>
    decreases lines.len(),
{
    if lines.len() == 0 {
        None
    } else {
        let line = trim(lines[0]);
        if is_section(line) {
            None
        } else {
            match toml_string_value(line, key) {
                Some(v) => Some(v),
                None => top_level_in(lines.drop_first(), key),
            }
        }
    }
}

/// The first `key = "value"` inside a section whose trimmed header line is
/// exactly `header`; `active` tells whether the lines start inside one.
pub open spec fn section_value_in(
    lines: Seq<Seq<char>>,
    header: Seq<char>,
    key: Seq<char>,
    active: bool,
) -> Option<Seq<char>>
    decreases lines.len(),
{
    if lines.len() == 0 {
        None
    } else {
        let line = trim(lines[0]);
        if is_section(line) {
            section_value_in(lines.drop_first(), header, key, line == header)
        } else if active {
            match toml_string_value(line, key) {
                Some(v) => Some(v),
                None => section_value_in(lines.drop_first(), header, key, active),
            }
        } else {
            section_value_in(lines.drop_first(), header, key, active)
        }
    }
}

/// The header line of a provider's section: `[model_providers.<provider>]`.
pub open spec fn provider_header(provider: Seq<char>) -> Seq<char> {
    "[model_providers."@ + provider + seq![']']
}

/// The top-level string setting `key` of a config.
pub open spec fn top_level_value(raw: Seq<char>, key: Seq<char>) -> Option<Seq<char>> {
    top_level_in(split_lines(raw), key)
}

/// The string setting `key` of the section of `provider`.
pub open spec fn provider_value(raw: Seq<char>, provider: Seq<char>, key: Seq<char>) -> Option<
    Seq<char>,
> {
    section_value_in(split_lines(raw), provider_header(provider), key, false)
}

/// Bounds, within `c`, of the value of the `key = "value"` line `c[lo..hi]`.
fn toml_value_in(c: &Vec<char>, lo: usize, hi: usize, key: &Vec<char>) -> (r: Option<(usize, usize)>)
    requires
        lo <= hi <= c.len(),
    ensures
        match r {
            Some((a, b)) => a <= b <= c.len() && toml_string_value(
                c@.subrange(lo as int, hi as int),
                key@,
            ) == Some(c@.subrange(a as int, b as int)),
            None => toml_string_value(c@.subrange(lo as int, hi as int), key@) is None,
        },
{
    let ghost line = c@.subrange(lo as int, hi as int);
    let (a, b) = trim_in(c, lo, hi);
    let ghost l = c@.subrange(a as int, b as int);
    if !starts_with_in(c, a, b, key) {
        return None;
    }
    let p = a + key.len();
    assert(l.skip(key.len() as int) =~= c@.subrange(p as int, b as int));
    let p2 = trim_start_in(c, p, b);
    let ghost after = c@.subrange(p2 as int, b as int);
    if p2 >= b || c[p2] != '=' {
        assert(after.len() == 0 || after[0] == c@[p2 as int]);
        return None;
    }
    assert(after.skip(1) =~= c@.subrange(p2 + 1, b as int));
    let (v0, v1) = trim_in(c, p2 + 1, b);
    let ghost v = c@.subrange(v0 as int, v1 as int);
    if v0 >= v1 {
        return None;
    }
    let q = c[v0];
    assert(v[0] == q);
    if q != '"' && q != '\'' {
        return None;
    }
    let quote = vec![q];
    assert(quote@ =~= seq![v[0]]);
    assert(v.skip(1) =~= c@.subrange(v0 + 1, v1 as int));
    match find_in(c, v0 + 1, v1, &quote) {
        Some(e) => {
            proof {
                lemma_find_from_occurs(v.skip(1), quote@, 0);
            }
            assert(v.skip(1).take(e as int) =~= c@.subrange(v0 + 1, v0 + 1 + e));
            Some((v0 + 1, v0 + 1 + e))
        },
        None => None,
    }
}

/// The value of the setting `key` on one config line: the line, trimmed,
/// must be `key`, then `=`, then a single- or double-quoted string; the value
/// is what lies between the opening quote and the next equal quote.
pub fn parse_toml_string_line(line: &str, key: &str) -> (r: Option<String>)
    ensures
        opt_view(r) == toml_string_value(line@, key@),
{
    let c = chars_of(line);
    let k = chars_of(key);
    assert(c@.subrange(0, c@.len() as int) =~= c@);
    match toml_value_in(&c, 0, c.len(), &k) {
        Some((a, b)) => Some(string_of(line, &c, a, b)),
        None => None,
    }
}

/// The next line of `c` from `pos`: its end, and where the following line
/// starts (`None` for the last line).
fn next_line(c: &Vec<char>, pos: usize) -> (r: (usize, Option<usize>))
    requires
        pos <= c.len(),
    ensures
        pos <= r.0 <= c.len(),
        split_lines(c@.skip(pos as int)) == match r.1 {
            Some(next) => seq![c@.subrange(pos as int, r.0 as int)] + split_lines(
                c@.skip(next as int),
            ),
            None => seq![c@.subrange(pos as int, r.0 as int)],
        },
        match r.1 {
            Some(next) => next == r.0 + 1 && next <= c.len(),
            None => r.0 == c.len(),
        },
{
    let nl = vec!['\n'];
    let ghost s = c@.skip(pos as int);
    assert(c@.subrange(pos as int, c@.len() as int) =~= s);
    assert(nl@ =~= seq!['\n']);
    match find_in(c, pos, c.len(), &nl) {
        Some(e) => {
            proof {
                lemma_find_from_occurs(s, nl@, 0);
                assert(s.take(e as int) =~= c@.subrange(pos as int, pos + e));
                assert(s.skip(e + 1) =~= c@.skip(pos + e + 1));
            }
            (pos + e, Some(pos + e + 1))
        },
        None => {
            assert(s =~= c@.subrange(pos as int, c@.len() as int));
            (c.len(), None)
        },
    }
}

/// The first top-level `key = "value"` of a config: lines are read, trimmed,
/// until the first section header.
pub fn top_level_toml_string(raw: &str, key: &str) -> (r: Option<String>)
    ensures
        opt_view(r) == top_level_value(raw@, key@),
{
    let c = chars_of(raw);
    let k = chars_of(key);
    assert(c@.skip(0) =~= c@);
    let mut pos: usize = 0;
    loop
        invariant
            pos <= c.len(),
            c@ == raw@,
            k@ == key@,
            top_level_value(raw@, key@) == top_level_in(split_lines(c@.skip(pos as int)), k@),
        decreases c.len() - pos,
    {
        let (end, next) = next_line(&c, pos);
        let ghost lines = split_lines(c@.skip(pos as int));
        assert(lines[0] == c@.subrange(pos as int, end as int));
        let (a, b) = trim_in(&c, pos, end);
        if a < b && c[a] == '[' {
            assert(trim(lines[0])[0] == c@[a as int]);
            return None;
        }
        assert(!is_section(trim(lines[0])));
        match toml_value_in(&c, a, b, &k) {
            Some((va, vb)) => {
                return Some(string_of(raw, &c, va, vb));
            },
            None => {},
        }
        match next {
            Some(n) => {
                assert(lines.drop_first() =~= split_lines(c@.skip(n as int)));
                pos = n;
            },
            None => {
                assert(lines.drop_first().len() == 0);
                assert(top_level_in(lines.drop_first(), k@) is None);
                return None;
            },
        }
    }
}

/// The first `key = "value"` of the section `[model_providers.<provider>]`
/// of a config.
pub fn provider_toml_string(raw: &str, provider: &str, key: &str) -> (r: Option<String>)
    ensures
        opt_view(r) == provider_value(raw@, provider@, key@),
{
    let c = chars_of(raw);
    let k = chars_of(key);
    let mut header = chars_of("[model_providers.");
    let p = chars_of(provider);
    push_window(&mut header, &p, 0, p.len());
    header.push(']');
    assert(p@.subrange(0, p@.len() as int) =~= p@);
    assert(header@ =~= provider_header(provider@));
    assert(c@.skip(0) =~= c@);
    let mut active = false;
    let mut pos: usize = 0;
    loop
        invariant
            pos <= c.len(),
            c@ == raw@,
            k@ == key@,
            header@ == provider_header(provider@),
            provider_value(raw@, provider@, key@) == section_value_in(
                split_lines(c@.skip(pos as int)),
                header@,
                k@,
                active,
            ),
        decreases c.len() - pos,
    {
        let (end, next) = next_line(&c, pos);
        let ghost lines = split_lines(c@.skip(pos as int));
        assert(lines[0] == c@.subrange(pos as int, end as int));
        let (a, b) = trim_in(&c, pos, end);
        if a < b && c[a] == '[' {
            assert(trim(lines[0])[0] == c@[a as int]);
            active = windows_equal(&c, a, b, &header, 0, header.len());
            assert(header@.subrange(0, header@.len() as int) =~= header@);
        } else {
            assert(!is_section(trim(lines[0])));
            if active {
                match toml_value_in(&c, a, b, &k) {
                    Some((va, vb)) => {
                        return Some(string_of(raw, &c, va, vb));
                    },
                    None => {},
                }
            }
        }
        match next {
            Some(n) => {
                assert(lines.drop_first() =~= split_lines(c@.skip(n as int)));
                pos = n;
            },
            None => {
                assert(lines.drop_first().len() == 0);
                assert(section_value_in(lines.drop_first(), header@, k@, active) is None);
                return None;
            },
        }
    }
}

/// A line of that shape is read as its value.
proof fn lemma_toml_shape_reads(line: Seq<char>, key: Seq<char>, value: Seq<char>)
    requires
        key.is_prefix_of(trim(line)),
        exists|w1: Seq<char>, w2: Seq<char>, q: char, t: Seq<char>|
            #[trigger] quoted_after(trim(line).skip(key.len() as int), '=', value, w1, w2, q, t),
    ensures
        toml_string_value(line, key) == Some(value),
{
    let l = trim(line);
    let s1 = l.skip(key.len() as int);
    let (w1, w2, q, t) = choose|w1: Seq<char>, w2: Seq<char>, q: char, t: Seq<char>|
        #[trigger] quoted_after(s1, '=', value, w1, w2, q, t);
    let rest1 = w2 + seq![q] + value + seq![q] + t;
    assert(s1 =~= w1 + (seq!['='] + rest1));
    assert forall|i: int| 0 <= i < w1.len() implies is_space(#[trigger] s1[i]) by {
        assert(s1[i] == w1[i]);
    }
    assert(s1[w1.len() as int] == '=');
    lemma_trim_start_at(s1, w1.len() as int);
    let after = s1.skip(w1.len() as int);
    assert(after =~= seq!['='] + rest1);
    let s2 = after.skip(1);
    assert(s2 =~= rest1);
    let u = seq![q] + value + seq![q] + t;
    assert(s2 =~= w2 + u);
    assert forall|i: int| 0 <= i < w2.len() implies is_space(#[trigger] s2[i]) by {
        assert(s2[i] == w2[i]);
    }
    assert(s2[w2.len() as int] == q);
    lemma_trim_start_at(s2, w2.len() as int);
    assert(s2.skip(w2.len() as int) =~= u);
    let k = lemma_trim_end_split(u);
    let n = value.len() as int;
    assert(u[n + 1] == q);
    if k <= n + 1 {
        assert(u.skip(k)[n + 1 - k] == u[n + 1]);
    }
    let v = u.take(k);
    assert(v[0] == q);
    let x = v.skip(1);
    assert(x[n] == q);
    assert forall|j: int| 0 <= j < n implies #[trigger] x[j] != q by {
        assert(x[j] == value[j]);
        if value[j] == q {
            assert(value.contains(q));
        }
    }
    lemma_find_char(x, q);
    let e = find(x, seq![q])->Some_0;
    if e < n {
        assert(x[e] != q);
    }
    if e > n {
        assert(x[n] != q);
    }
    assert(x.take(n) =~= value);
}

/// A value read between quotes from the start of `u` (up to its trailing
/// white space cut at `k`): `u` is the quote, the value free of it, the
/// quote again, and the rest.
pub proof fn lemma_quote_split(u: Seq<char>, k: int, value: Seq<char>) -> (t: Seq<char>)
    requires
        0 <= k <= u.len(),
        u.take(k).len() > 0,
        find(u.take(k).skip(1), seq![u.take(k)[0]]) matches Some(e) && value == u.take(k).skip(1).take(
            e,
        ),
    ensures
        u == seq![u[0]] + value + seq![u[0]] + t,
        !value.contains(u[0]),
{
    let v = u.take(k);
    let q = v[0];
    let x = v.skip(1);
    lemma_find_char(x, q);
    let e = find(x, seq![q])->Some_0;
    let t = u.skip(e + 2);
    assert forall|i: int| 0 <= i < u.len() implies u[i] == (seq![q] + value + seq![q] + t)[i] by {
        if 1 <= i <= e {
            assert(u[i] == x[i - 1]);
        } else if i == e + 1 {
            assert(u[i] == x[e]);
        }
    }
    assert(u =~= seq![q] + value + seq![q] + t);
    assert(!value.contains(q)) by {
        if value.contains(q) {
            let j = choose|j: int| 0 <= j < value.len() && value[j] == q;
            assert(x[j] == value[j]);
        }
    }
    t
}

/// A line read as a value has that shape.
proof fn lemma_toml_read_shape(line: Seq<char>, key: Seq<char>, value: Seq<char>)
    requires
        toml_string_value(line, key) == Some(value),
    ensures
        key.is_prefix_of(trim(line)),
        exists|w1: Seq<char>, w2: Seq<char>, q: char, t: Seq<char>|
            #[trigger] quoted_after(trim(line).skip(key.len() as int), '=', value, w1, w2, q, t),
{
    let l = trim(line);
    let s1 = l.skip(key.len() as int);
    let k1 = lemma_trim_start_split(s1);
    let after = s1.skip(k1);
    assert(after.len() > 0 && after[0] == '=');
    let s2 = after.skip(1);
    let k2 = lemma_trim_start_split(s2);
    let u = s2.skip(k2);
    let k3 = lemma_trim_end_split(u);
    assert(trim(s2) == u.take(k3));
    let t = lemma_quote_split(u, k3, value);
    let q = u[0];
    let w1 = s1.take(k1);
    let w2 = s2.take(k2);
    assert(s2 =~= w2 + u);
    assert(after =~= seq!['='] + s2);
    assert(s1 =~= w1 + after);
    assert(s1 =~= w1 + seq!['='] + w2 + seq![q] + value + seq![q] + t);
    assert(is_quote(q));
    assert(quoted_after(s1, '=', value, w1, w2, q, t));
}

/// A setting line is read as `value` exactly when, trimmed, it is the key,
/// white space, `=`, white space, a single or double quote, the value (free
/// of that quote, with no escapes), the same quote, and anything after:
/// `base_url_x = "a"` is not `base_url`, `port = 8080` and `k = "open` give
/// nothing.
pub proof fn lemma_toml_line_shape(line: Seq<char>, key: Seq<char>, value: Seq<char>)
    ensures
        toml_string_value(line, key) == Some(value) <==> key.is_prefix_of(trim(line)) && exists|
            w1: Seq<char>,
            w2: Seq<char>,
            q: char,
            t: Seq<char>,
        | #[trigger] quoted_after(trim(line).skip(key.len() as int), '=', value, w1, w2, q, t),
{
    if toml_string_value(line, key) == Some(value) {
        lemma_toml_read_shape(line, key, value);
    }
    if key.is_prefix_of(trim(line)) && exists|w1: Seq<char>, w2: Seq<char>, q: char, t: Seq<char>|
        #[trigger] quoted_after(trim(line).skip(key.len() as int), '=', value, w1, w2, q, t) {
        lemma_toml_shape_reads(line, key, value);
    }
}

} // verus!
