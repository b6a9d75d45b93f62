//! Character-level string helpers with their specifications.
//!
//! Strings are handled as sequences of `char`; positions are character
//! positions. Exec helpers work on a window `[lo, hi)` of a `Vec<char>`.

use vstd::prelude::*;
use vstd::string::*;

verus! {

/// The Unicode `White_Space` characters: exactly those for which
/// `char::is_whitespace` holds.
pub open spec fn is_space(c: char) -> bool {
    let u = c as u32;
    ||| 0x9 <= u <= 0xD
    ||| u == 0x20
    ||| u == 0x85
    ||| u == 0xA0
    ||| u == 0x1680
    ||| 0x2000 <= u <= 0x200A
    ||| u == 0x2028
    ||| u == 0x2029
    ||| u == 0x202F
    ||| u == 0x205F
    ||| u == 0x3000
}

pub fn char_is_space(c: char) -> (b: bool)
    ensures
        b == is_space(c),
{
    let u = c as u32;
    (0x9 <= u && u <= 0xD) || u == 0x20 || u == 0x85 || u == 0xA0 || u == 0x1680 || (0x2000 <= u
        && u <= 0x200A) || u == 0x2028 || u == 0x2029 || u == 0x202F || u == 0x205F || u == 0x3000
}

/// `s` with its leading white space removed (`str::trim_start`).
pub open spec fn trim_start(s: Seq<char>) -> Seq<char>
    decreases s.len(),
{
    if s.len() > 0 && is_space(s[0]) {
        trim_start(s.drop_first())
    } else {
        s
    }
}

/// `s` with its trailing white space removed (`str::trim_end`).
pub open spec fn trim_end(s: Seq<char>) -> Seq<char>
    decreases s.len(),
{
    if s.len() > 0 && is_space(s.last()) {
        trim_end(s.drop_last())
    } else {
        s
    }
}

/// `s` with leading and trailing white space removed (`str::trim`).
pub open spec fn trim(s: Seq<char>) -> Seq<char> {
    trim_end(trim_start(s))
}

/// `pat` occurs in `s` at position `i`.
pub open spec fn occurs_at<A>(s: Seq<A>, pat: Seq<A>, i: int) -> bool {
    0 <= i && i + pat.len() <= s.len() && s.subrange(i, i + pat.len()) == pat
}

/// The first position at or after `i` where `pat` occurs in `s`.
pub open spec fn find_from<A>(s: Seq<A>, pat: Seq<A>, i: int) -> Option<int>
    decreases s.len() + 1 - i,
{
    if i < 0 || i + pat.len() > s.len() {
        None
    } else if occurs_at(s, pat, i) {
        Some(i)
    } else {
        find_from(s, pat, i + 1)
    }
}

/// The first position where `pat` occurs in `s` (`str::find`).
pub open spec fn find<A>(s: Seq<A>, pat: Seq<A>) -> Option<int> {
    find_from(s, pat, 0)
}

/// `s` contains `pat` (`str::contains`).
pub open spec fn contains<A>(s: Seq<A>, pat: Seq<A>) -> bool {
    find(s, pat) is Some
}

/// Code of the ASCII lower case of one character (`char::to_ascii_lowercase`).
pub open spec fn ascii_lower(c: char) -> u32 {
    let u = c as u32;
    if 65 <= u <= 90 {
        (u + 32) as u32
    } else {
        u
    }
}

/// Character codes of `str::to_ascii_lowercase`.
pub open spec fn lower(s: Seq<char>) -> Seq<u32> {
    s.map_values(|c: char| ascii_lower(c))
}

/// `str::eq_ignore_ascii_case`.
pub open spec fn eq_ignore_ascii_case(a: Seq<char>, b: Seq<char>) -> bool {
    lower(a) == lower(b)
}

pub proof fn lemma_trim_start_at(s: Seq<char>, k: int)
    requires
        0 <= k <= s.len(),
        forall|i: int| 0 <= i < k ==> is_space(#[trigger] s[i]),
        k == s.len() || !is_space(s[k]),
    ensures
        trim_start(s) == s.skip(k),
    decreases k,
{
    if k > 0 {
        assert forall|i: int| 0 <= i < k - 1 implies is_space(#[trigger] s.drop_first()[i]) by {
            assert(s.drop_first()[i] == s[i + 1]);
        }
        if k < s.len() {
            assert(s.drop_first()[k - 1] == s[k]);
        }
        lemma_trim_start_at(s.drop_first(), k - 1);
        assert(s.drop_first().skip(k - 1) =~= s.skip(k));
    } else {
        assert(s.skip(0) =~= s);
    }
}

pub proof fn lemma_trim_end_at(s: Seq<char>, k: int)
    requires
        0 <= k <= s.len(),
        forall|i: int| k <= i < s.len() ==> is_space(#[trigger] s[i]),
        k == 0 || !is_space(s[k - 1]),
    ensures
        trim_end(s) == s.take(k),
    decreases s.len() - k,
{
    if k < s.len() {
        assert forall|i: int| k <= i < s.len() - 1 implies is_space(#[trigger] s.drop_last()[i]) by {
            assert(s.drop_last()[i] == s[i]);
        }
        if k > 0 {
            assert(s.drop_last()[k - 1] == s[k - 1]);
        }
        lemma_trim_end_at(s.drop_last(), k);
        assert(s.drop_last().take(k) =~= s.take(k));
    } else {
        assert(s.take(k) =~= s);
    }
}

/// The characters of a string slice.
pub fn chars_of(s: &str) -> (r: Vec<char>)
    ensures
        r@ == s@,
{
    let mut r: Vec<char> = Vec::new();
    for c in it: s.chars()
        invariant
            r@ == it.seq().take(it.index() as int),
            it.seq() == s@,
    {
        r.push(c);
    }
    r
}

/// Start of `trim_start` of the window `s[lo..hi]`.
pub fn trim_start_in(s: &Vec<char>, lo: usize, hi: usize) -> (a: usize)
    requires
        lo <= hi <= s.len(),
    ensures
        lo <= a <= hi,
        s@.subrange(a as int, hi as int) == trim_start(s@.subrange(lo as int, hi as int)),
{
    let mut a = lo;
    while a < hi && char_is_space(s[a])
        invariant
            lo <= a <= hi <= s.len(),
            forall|i: int| lo <= i < a ==> is_space(#[trigger] s@[i]),
        decreases hi - a,
    {
        a = a + 1;
    }
    proof {
        let w = s@.subrange(lo as int, hi as int);
        assert forall|i: int| 0 <= i < a - lo implies is_space(#[trigger] w[i]) by {
            assert(w[i] == s@[lo + i]);
        }
        if a < hi {
            assert(w[a - lo] == s@[a as int]);
        }
        lemma_trim_start_at(w, a - lo);
        assert(w.skip(a - lo) =~= s@.subrange(a as int, hi as int));
    }
    a
}

/// End of `trim_end` of the window `s[lo..hi]`.
pub fn trim_end_in(s: &Vec<char>, lo: usize, hi: usize) -> (b: usize)
    requires
        lo <= hi <= s.len(),
    ensures
        lo <= b <= hi,
        s@.subrange(lo as int, b as int) == trim_end(s@.subrange(lo as int, hi as int)),
{
    let mut b = hi;
    while b > lo && char_is_space(s[b - 1])
        invariant
            lo <= b <= hi <= s.len(),
            forall|i: int| b <= i < hi ==> is_space(#[trigger] s@[i]),
        decreases b - lo,
    {
        b = b - 1;
    }
    proof {
        let w = s@.subrange(lo as int, hi as int);
        assert forall|i: int| b - lo <= i < w.len() implies is_space(#[trigger] w[i]) by {
            assert(w[i] == s@[lo + i]);
        }
        if b > lo {
            assert(w[b - lo - 1] == s@[b - 1]);
        }
        lemma_trim_end_at(w, b - lo);
        assert(w.take(b - lo) =~= s@.subrange(lo as int, b as int));
    }
    b
}

/// Bounds of `trim` of the window `s[lo..hi]`.
pub fn trim_in(s: &Vec<char>, lo: usize, hi: usize) -> (r: (usize, usize))
    requires
        lo <= hi <= s.len(),
    ensures
        lo <= r.0 <= r.1 <= hi,
        s@.subrange(r.0 as int, r.1 as int) == trim(s@.subrange(lo as int, hi as int)),
{
    let a = trim_start_in(s, lo, hi);
    let b = trim_end_in(s, a, hi);
    (a, b)
}

/// `pat` occurs in the window `s[lo..hi]` at window position `i`.
pub fn occurs_in(s: &Vec<char>, lo: usize, hi: usize, pat: &Vec<char>, i: usize) -> (b: bool)
    requires
        lo <= hi <= s.len(),
        i <= hi - lo,
    ensures
        b == occurs_at(s@.subrange(lo as int, hi as int), pat@, i as int),
{
    if pat.len() > hi - lo - i {
        return false;
    }
    let mut j: usize = 0;
    while j < pat.len()
        invariant
            lo <= hi <= s.len(),
            i + pat.len() <= hi - lo,
            j <= pat.len(),
            forall|k: int| 0 <= k < j ==> s@[lo + i + k] == pat@[k],
        decreases pat.len() - j,
    {
        if s[lo + i + j] != pat[j] {
            proof {
                let w = s@.subrange(lo as int, hi as int);
                assert(w.subrange(i as int, i + pat.len())[j as int] == s@[lo + i + j]);
            }
            return false;
        }
        j = j + 1;
    }
    let ghost w = s@.subrange(lo as int, hi as int);
    assert(w.subrange(i as int, i + pat.len()) =~= pat@);
    true
}

/// Window position of the first occurrence of `pat` in `s[lo..hi]`.
pub fn find_in(s: &Vec<char>, lo: usize, hi: usize, pat: &Vec<char>) -> (r: Option<usize>)
    requires
        lo <= hi <= s.len(),
    ensures
        match r {
            Some(i) => find(s@.subrange(lo as int, hi as int), pat@) == Some(i as int),
            None => find(s@.subrange(lo as int, hi as int), pat@) is None,
        },
{
    let ghost w = s@.subrange(lo as int, hi as int);
    if pat.len() > hi - lo {
        assert(find(w, pat@) is None);
        return None;
    }
    let last = hi - lo - pat.len();
    let mut i: usize = 0;
    loop
        invariant
            lo <= hi <= s.len(),
            w == s@.subrange(lo as int, hi as int),
            last == hi - lo - pat.len(),
            i <= last,
            find(w, pat@) == find_from(w, pat@, i as int),
        decreases last - i,
    {
        if occurs_in(s, lo, hi, pat, i) {
            return Some(i);
        }
        if i == last {
            assert(find_from(w, pat@, i + 1) is None);
            return None;
        }
        i = i + 1;
    }
}

/// Whether the window `s[lo..hi]` starts with `pat`.
pub fn starts_with_in(s: &Vec<char>, lo: usize, hi: usize, pat: &Vec<char>) -> (b: bool)
    requires
        lo <= hi <= s.len(),
    ensures
        b == pat@.is_prefix_of(s@.subrange(lo as int, hi as int)),
{
    let ghost w = s@.subrange(lo as int, hi as int);
    let r = occurs_in(s, lo, hi, pat, 0);
    proof {
        if r {
            assert(w.subrange(0, pat@.len() as int) == pat@);
            assert forall|k: int| 0 <= k < pat@.len() implies pat@[k] == w[k] by {
                assert(w.subrange(0, pat@.len() as int)[k] == w[k]);
            }
        } else if pat@.is_prefix_of(w) {
            assert(w.subrange(0, pat@.len() as int) =~= pat@);
        }
    }
    r
}

pub fn char_ascii_lower(c: char) -> (r: u32)
    ensures
        r == ascii_lower(c),
{
    let u = c as u32;
    if 65 <= u && u <= 90 {
        u + 32
    } else {
        u
    }
}

/// Lower-case character codes of `s`.
pub fn lower_codes(s: &Vec<char>) -> (r: Vec<u32>)
    ensures
        r@ == lower(s@),
{
    let mut r: Vec<u32> = Vec::new();
    let mut i: usize = 0;
    while i < s.len()
        invariant
            i <= s.len(),
            r@ == lower(s@.take(i as int)),
        decreases s.len() - i,
    {
        r.push(char_ascii_lower(s[i]));
        assert(lower(s@.take(i + 1)) =~= lower(s@.take(i as int)).push(ascii_lower(s@[i as int])));
        i = i + 1;
    }
    assert(s@.take(s.len() as int) =~= s@);
    r
}

fn codes_occur_at(s: &Vec<u32>, pat: &Vec<u32>, i: usize) -> (b: bool)
    requires
        i <= s.len(),
    ensures
        b == occurs_at(s@, pat@, i as int),
{
    if pat.len() > s.len() - i {
        return false;
    }
    let mut j: usize = 0;
    while j < pat.len()
        invariant
            i + pat.len() <= s.len(),
            j <= pat.len(),
            forall|k: int| 0 <= k < j ==> s@[i + k] == pat@[k],
        decreases pat.len() - j,
    {
        if s[i + j] != pat[j] {
            assert(s@.subrange(i as int, i + pat.len())[j as int] == s@[i + j]);
            return false;
        }
        j = j + 1;
    }
    assert(s@.subrange(i as int, i + pat.len()) =~= pat@);
    true
}

/// Whether `pat` occurs in `s`, both compared ignoring ASCII case.
pub fn contains_ignore_ascii_case(s: &Vec<char>, pat: &Vec<char>) -> (b: bool)
    ensures
        b == contains(lower(s@), lower(pat@)),
{
    let ls = lower_codes(s);
    let lp = lower_codes(pat);
    if lp.len() > ls.len() {
        assert(find(ls@, lp@) is None);
        return false;
    }
    let last = ls.len() - lp.len();
    let mut i: usize = 0;
    loop
        invariant
            ls@ == lower(s@),
            lp@ == lower(pat@),
            last == ls.len() - lp.len(),
            i <= last,
            find(ls@, lp@) == find_from(ls@, lp@, i as int),
        decreases last - i,
    {
        if codes_occur_at(&ls, &lp, i) {
            return true;
        }
        if i == last {
            assert(find_from(ls@, lp@, i + 1) is None);
            return false;
        }
        i = i + 1;
    }
}

/// Whether the windows `a[alo..ahi]` and `b[blo..bhi]` are equal ignoring ASCII case.
pub fn eq_ignore_ascii_case_in(
    a: &Vec<char>,
    alo: usize,
    ahi: usize,
    b: &Vec<char>,
    blo: usize,
    bhi: usize,
) -> (r: bool)
    requires
        alo <= ahi <= a.len(),
        blo <= bhi <= b.len(),
    ensures
        r == eq_ignore_ascii_case(
            a@.subrange(alo as int, ahi as int),
            b@.subrange(blo as int, bhi as int),
        ),
{
    let ghost wa = a@.subrange(alo as int, ahi as int);
    let ghost wb = b@.subrange(blo as int, bhi as int);
    if ahi - alo != bhi - blo {
        assert(lower(wa).len() != lower(wb).len());
        return false;
    }
    let n = ahi - alo;
    let mut i: usize = 0;
    while i < n
        invariant
            alo <= ahi <= a.len(),
            blo <= bhi <= b.len(),
            n == ahi - alo,
            n == bhi - blo,
            wa == a@.subrange(alo as int, ahi as int),
            wb == b@.subrange(blo as int, bhi as int),
            i <= n,
            forall|k: int| 0 <= k < i ==> lower(wa)[k] == lower(wb)[k],
        decreases n - i,
    {
        if char_ascii_lower(a[alo + i]) != char_ascii_lower(b[blo + i]) {
            assert(lower(wa)[i as int] == ascii_lower(a@[alo + i]));
            assert(lower(wb)[i as int] == ascii_lower(b@[blo + i]));
            return false;
        }
        assert(lower(wa)[i as int] == ascii_lower(a@[alo + i]));
        assert(lower(wb)[i as int] == ascii_lower(b@[blo + i]));
        i = i + 1;
    }
    assert(lower(wa) =~= lower(wb));
    true
}


/// The character sequence of an optional string.
pub open spec fn opt_view(o: Option<String>) -> Option<Seq<char>> {
    match o {
        Some(s) => Some(s@),
        None => None,
    }
}

/// A position of `pat` in `s`, when `find` reports one, is an occurrence.
pub proof fn lemma_find_from_occurs<A>(s: Seq<A>, pat: Seq<A>, i: int)
    ensures
        find_from(s, pat, i) matches Some(j) ==> occurs_at(s, pat, j) && i <= j,
    decreases s.len() + 1 - i,
{
    if !(i < 0 || i + pat.len() > s.len()) && !occurs_at(s, pat, i) {
        lemma_find_from_occurs(s, pat, i + 1);
    }
}

/// No occurrence of `pat` lies between `i` and what `find_from` reports.
pub proof fn lemma_find_from_first<A>(s: Seq<A>, pat: Seq<A>, i: int, k: int)
    requires
        0 <= i <= k,
        find_from(s, pat, i) matches Some(j) ==> k < j,
    ensures
        !occurs_at(s, pat, k),
    decreases s.len() + 1 - i,
{
    if i + pat.len() > s.len() {
    } else if occurs_at(s, pat, i) {
    } else if i < k {
        lemma_find_from_first(s, pat, i + 1, k);
    }
}

/// The window `s[lo..hi]` of the characters `c` of `text`, as a new string.
pub fn string_of(text: &str, c: &Vec<char>, lo: usize, hi: usize) -> (r: String)
    requires
        c@ == text@,
        lo <= hi <= c.len(),
    ensures
        r@ == c@.subrange(lo as int, hi as int),
{
    text.substring_char(lo, hi).to_owned()
}

/// Appends the window `s[lo..hi]` to `v`.
pub fn push_window(v: &mut Vec<char>, s: &Vec<char>, lo: usize, hi: usize)
    requires
        lo <= hi <= s.len(),
    ensures
        final(v)@ == old(v)@ + s@.subrange(lo as int, hi as int),
{
    let ghost start = v@;
    let mut i = lo;
    while i < hi
        invariant
            lo <= i <= hi <= s.len(),
            v@ == start + s@.subrange(lo as int, i as int),
        decreases hi - i,
    {
        v.push(s[i]);
        assert(s@.subrange(lo as int, i + 1) =~= s@.subrange(lo as int, i as int).push(s@[i as int]));
        i = i + 1;
    }
}

/// Whether the windows `a[alo..ahi]` and `b[blo..bhi]` hold the same characters.
pub fn windows_equal(a: &Vec<char>, alo: usize, ahi: usize, b: &Vec<char>, blo: usize, bhi: usize) -> (r: bool)
    requires
        alo <= ahi <= a.len(),
        blo <= bhi <= b.len(),
    ensures
        r == (a@.subrange(alo as int, ahi as int) == b@.subrange(blo as int, bhi as int)),
{
    let ghost wa = a@.subrange(alo as int, ahi as int);
    let ghost wb = b@.subrange(blo as int, bhi as int);
    if ahi - alo != bhi - blo {
        assert(wa.len() != wb.len());
        return false;
    }
    let n = ahi - alo;
    let mut i: usize = 0;
    while i < n
        invariant
            alo <= ahi <= a.len(),
            blo <= bhi <= b.len(),
            wa == a@.subrange(alo as int, ahi as int),
            wb == b@.subrange(blo as int, bhi as int),
            n == ahi - alo,
            n == bhi - blo,
            i <= n,
            forall|k: int| 0 <= k < i ==> wa[k] == wb[k],
        decreases n - i,
    {
        if a[alo + i] != b[blo + i] {
            assert(wa[i as int] != wb[i as int]);
            return false;
        }
        i = i + 1;
    }
    assert(wa =~= wb);
    true
}


/// The two texts are equal (`==` on `str`).
pub fn str_eq(a: &str, b: &str) -> (r: bool)
    ensures
        r == (a@ == b@),
{
    let ca = chars_of(a);
    let cb = chars_of(b);
    let r = windows_equal(&ca, 0, ca.len(), &cb, 0, cb.len());
    assert(ca@.subrange(0, ca@.len() as int) =~= ca@);
    assert(cb@.subrange(0, cb@.len() as int) =~= cb@);
    r
}

/// `s` trimmed, as a new string (`str::trim`).
pub fn trim_str(s: &str) -> (r: String)
    ensures
        r@ == trim(s@),
{
    let c = chars_of(s);
    assert(c@.subrange(0, c@.len() as int) =~= c@);
    let (a, b) = trim_in(&c, 0, c.len());
    string_of(s, &c, a, b)
}

/// `s` with every non-overlapping occurrence of `from`, searched left to
/// right, replaced by `to` (`str::replace`, for a non-empty pattern).
pub open spec fn replace_all(s: Seq<char>, from: Seq<char>, to: Seq<char>) -> Seq<char>
    decreases s.len(),
{
    match find(s, from) {
        Some(i) => if from.len() > 0 && 0 <= i && i + from.len() <= s.len() {
            s.take(i) + to + replace_all(s.skip(i + from.len()), from, to)
        } else {
            s
        },
        None => s,
    }
}

/// `str::replace` for a non-empty pattern.
pub fn replace_str(s: &str, from: &str, to: &str) -> (r: String)
    requires
        from@.len() > 0,
    ensures
        r@ == replace_all(s@, from@, to@),
{
    let c = chars_of(s);
    let f = chars_of(from);
    let mut out = String::new();
    let mut pos: usize = 0;
    assert(c@.skip(0) =~= c@);
    loop
        invariant
            pos <= c.len(),
            c@ == s@,
            f@ == from@,
            from@.len() > 0,
            replace_all(s@, from@, to@) == out@ + replace_all(c@.skip(pos as int), from@, to@),
        decreases c.len() - pos,
    {
        let ghost rest = c@.skip(pos as int);
        assert(c@.subrange(pos as int, c@.len() as int) =~= rest);
        match find_in(&c, pos, c.len(), &f) {
            Some(i) => {
                proof {
                    lemma_find_from_occurs(rest, f@, 0);
                    assert(rest.take(i as int) =~= c@.subrange(pos as int, pos + i));
                    assert(rest.skip(i + f@.len()) =~= c@.skip(pos + i + f@.len()));
                }
                let piece = s.substring_char(pos, pos + i);
                out.append(piece);
                out.append(to);
                pos = pos + i + f.len();
            },
            None => {
                let piece = s.substring_char(pos, c.len());
                out.append(piece);
                return out;
            },
        }
    }
}


/// The full Unicode upper-case mapping of a string, as `str::to_uppercase`
/// computes it.
pub uninterp spec fn unicode_uppercase(s: Seq<char>) -> Seq<char>;

/// `str::to_uppercase`. The contract names the result and claims only that
/// it is a function of the string.
#[verifier::external_body]
pub(crate) fn to_uppercase(s: &str) -> (r: String)
    ensures
        r@ == unicode_uppercase(s@),
{
    s.to_uppercase()
}


proof fn lemma_trim_start_first(s: Seq<char>)
    ensures
        trim_start(s).len() == 0 || !is_space(trim_start(s)[0]),
    decreases s.len(),
{
    if s.len() > 0 && is_space(s[0]) {
        lemma_trim_start_first(s.drop_first());
    }
}

proof fn lemma_trim_end_prefix(s: Seq<char>)
    ensures
        trim_end(s).len() <= s.len(),
        trim_end(s) == s.take(trim_end(s).len() as int),
        trim_end(s).len() == 0 || !is_space(trim_end(s).last()),
    decreases s.len(),
{
    if s.len() > 0 && is_space(s.last()) {
        lemma_trim_end_prefix(s.drop_last());
        assert(s.drop_last().take(trim_end(s).len() as int) =~= s.take(trim_end(s).len() as int));
    } else {
        assert(s.take(s.len() as int) =~= s);
    }
}

/// Trimming twice is trimming once.
pub proof fn lemma_trim_trim(s: Seq<char>)
    ensures
        trim(trim(s)) == trim(s),
{
    let u = trim_start(s);
    let t = trim(s);
    lemma_trim_start_first(s);
    lemma_trim_end_prefix(u);
    if t.len() > 0 {
        assert(t[0] == u[0]);
    }
    lemma_trim_start_at(t, 0);
    assert(t.skip(0) =~= t);
    lemma_trim_end_at(t, t.len() as int);
    assert(t.take(t.len() as int) =~= t);
}

/// Every character is white space.
pub open spec fn all_space(s: Seq<char>) -> bool {
    forall|i: int| 0 <= i < s.len() ==> is_space(#[trigger] s[i])
}

/// `trim_start` drops a prefix of white space up to the first other
/// character.
pub proof fn lemma_trim_start_split(s: Seq<char>) -> (k: int)
    ensures
        0 <= k <= s.len(),
        all_space(s.take(k)),
        trim_start(s) == s.skip(k),
        k == s.len() || !is_space(s[k]),
    decreases s.len(),
{
    if s.len() > 0 && is_space(s[0]) {
        let j = lemma_trim_start_split(s.drop_first());
        assert(s.drop_first().skip(j) =~= s.skip(j + 1));
        assert forall|i: int| 0 <= i < j + 1 implies is_space(#[trigger] s.take(j + 1)[i]) by {
            if i > 0 {
                assert(s.take(j + 1)[i] == s.drop_first().take(j)[i - 1]);
            }
        }
        if j + 1 < s.len() {
            assert(s[j + 1] == s.drop_first()[j]);
        }
        j + 1
    } else {
        assert(s.skip(0) =~= s);
        0
    }
}

/// `trim_end` drops a suffix of white space back to the last other
/// character.
pub proof fn lemma_trim_end_split(s: Seq<char>) -> (k: int)
    ensures
        0 <= k <= s.len(),
        all_space(s.skip(k)),
        trim_end(s) == s.take(k),
        k == 0 || !is_space(s[k - 1]),
    decreases s.len(),
{
    if s.len() > 0 && is_space(s.last()) {
        let j = lemma_trim_end_split(s.drop_last());
        assert(s.drop_last().take(j) =~= s.take(j));
        assert forall|i: int| 0 <= i < s.len() - j implies is_space(#[trigger] s.skip(j)[i]) by {
            if j + i < s.len() - 1 {
                assert(s.skip(j)[i] == s.drop_last().skip(j)[i]);
            }
        }
        if j > 0 {
            assert(s[j - 1] == s.drop_last()[j - 1]);
        }
        j
    } else {
        assert(s.take(s.len() as int) =~= s);
        s.len() as int
    }
}

/// Where `find` finds one character: its first position.
pub proof fn lemma_find_char(x: Seq<char>, q: char)
    ensures
        find(x, seq![q]) matches Some(e) ==> 0 <= e < x.len() && x[e] == q && forall|j: int|
            0 <= j < e ==> #[trigger] x[j] != q,
        (exists|e: int| 0 <= e < x.len() && #[trigger] x[e] == q) ==> find(x, seq![q]) is Some,
{
    lemma_find_from_occurs(x, seq![q], 0);
    if let Some(e) = find(x, seq![q]) {
        assert(x.subrange(e, e + 1)[0] == x[e]);
        assert forall|j: int| 0 <= j < e implies #[trigger] x[j] != q by {
            lemma_find_from_first(x, seq![q], 0, j);
            if x[j] == q {
                assert(x.subrange(j, j + 1) =~= seq![q]);
            }
        }
    }
    if exists|e: int| 0 <= e < x.len() && #[trigger] x[e] == q {
        let e = choose|e: int| 0 <= e < x.len() && #[trigger] x[e] == q;
        assert(x.subrange(e, e + 1) =~= seq![q]);
        if find(x, seq![q]) is None {
            lemma_find_from_none(x, seq![q], 0, e);
        }
    }
}

/// `find_from` misses no occurrence at or after where it starts.
proof fn lemma_find_from_none<A>(s: Seq<A>, pat: Seq<A>, i: int, k: int)
    requires
        0 <= i <= k,
        occurs_at(s, pat, k),
    ensures
        find_from(s, pat, i) is Some,
    decreases k - i,
{
    if !occurs_at(s, pat, i) {
        lemma_find_from_none(s, pat, i + 1, k);
    }
}

/// The character is a single or double quote.
pub open spec fn is_quote(q: char) -> bool {
    q == '"' || q == '\''
}

/// `s` is white space `w1`, the character `sep`, white space `w2`, a quote
/// `q`, a `value` free of that quote, the quote again, and anything `t`.
pub open spec fn quoted_after(s: Seq<char>, sep: char, value: Seq<char>, w1: Seq<char>, w2: Seq<char>, q: char, t: Seq<char>) -> bool {
    &&& all_space(w1)
    &&& all_space(w2)
    &&& is_quote(q)
    &&& !value.contains(q)
    &&& s == w1 + seq![sep] + w2 + seq![q] + value + seq![q] + t
}

} // verus!
