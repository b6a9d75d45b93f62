//! The order of strings (`String`'s `Ord`: character by character, by code
//! point) and sorted lists without repeats.

use vstd::prelude::*;
use crate::text::chars_of;
use crate::urls::string_views;

verus! {

/// `a` sorts before `b`: at the first difference `a` has the smaller code
/// point, or `a` is a proper prefix of `b`. UTF-8 keeps the order of code
/// points, so this is the byte order `String` compares by.
pub open spec fn lex_lt(a: Seq<char>, b: Seq<char>) -> bool
    decreases a.len(),
{
    if a.len() == 0 {
        b.len() > 0
    } else if b.len() == 0 {
        false
    } else if a[0] != b[0] {
        a[0] < b[0]
    } else {
        lex_lt(a.drop_first(), b.drop_first())
    }
}

pub proof fn lemma_lex_irreflexive(a: Seq<char>)
    ensures
        !lex_lt(a, a),
    decreases a.len(),
{
    if a.len() > 0 {
        lemma_lex_irreflexive(a.drop_first());
    }
}

pub proof fn lemma_lex_asymmetric(a: Seq<char>, b: Seq<char>)
    ensures
        lex_lt(a, b) ==> !lex_lt(b, a),
    decreases a.len(),
{
    if a.len() > 0 && b.len() > 0 && a[0] == b[0] {
        lemma_lex_asymmetric(a.drop_first(), b.drop_first());
    }
}

pub proof fn lemma_lex_transitive(a: Seq<char>, b: Seq<char>, c: Seq<char>)
    requires
        lex_lt(a, b),
        lex_lt(b, c),
    ensures
        lex_lt(a, c),
    decreases a.len(),
{
    if a.len() > 0 && b.len() > 0 && c.len() > 0 && a[0] == b[0] && b[0] == c[0] {
        lemma_lex_transitive(a.drop_first(), b.drop_first(), c.drop_first());
    }
}

pub proof fn lemma_lex_total(a: Seq<char>, b: Seq<char>)
    requires
        a != b,
    ensures
        lex_lt(a, b) || lex_lt(b, a),
    decreases a.len(),
{
    if a.len() > 0 && b.len() > 0 && a[0] == b[0] {
        if a.drop_first() == b.drop_first() {
            assert(a =~= seq![a[0]] + a.drop_first());
            assert(b =~= seq![b[0]] + b.drop_first());
        }
        lemma_lex_total(a.drop_first(), b.drop_first());
    } else if a.len() == 0 && b.len() == 0 {
        assert(a =~= b);
    }
}

/// Whether `a` sorts before `b`.
pub fn string_lt(a: &String, b: &String) -> (r: bool)
    ensures
        r == lex_lt(a@, b@),
{
    let x = chars_of(a.as_str());
    let y = chars_of(b.as_str());
    let mut i: usize = 0;
    assert(x@.skip(0) =~= x@);
    assert(y@.skip(0) =~= y@);
    loop
        invariant
            i <= x.len(),
            i <= y.len(),
            lex_lt(a@, b@) == lex_lt(x@.skip(i as int), y@.skip(i as int)),
        decreases x.len() - i,
    {
        let ghost xs = x@.skip(i as int);
        let ghost ys = y@.skip(i as int);
        if i == x.len() {
            return i < y.len();
        }
        if i == y.len() {
            return false;
        }
        assert(xs[0] == x@[i as int]);
        assert(ys[0] == y@[i as int]);
        if x[i] != y[i] {
            return x[i] < y[i];
        }
        assert(xs.drop_first() =~= x@.skip(i + 1));
        assert(ys.drop_first() =~= y@.skip(i + 1));
        i = i + 1;
    }
}

/// Every entry sorts before every later one: sorted, and nothing twice.
pub open spec fn sorted_strict(s: Seq<Seq<char>>) -> bool {
    forall|i: int, j: int| 0 <= i < j < s.len() ==> lex_lt(#[trigger] s[i], #[trigger] s[j])
}

/// Adds `x` to a sorted list without repeats, keeping it so.
pub fn insert_sorted(v: &mut Vec<String>, x: String)
    requires
        sorted_strict(string_views(old(v)@)),
    ensures
        sorted_strict(string_views(final(v)@)),
        forall|y: Seq<char>| #[trigger] string_views(final(v)@).contains(y) <==> (string_views(
            old(v)@,
        ).contains(y) || y == x@),
{
    let ghost old_views = string_views(v@);
    let mut p: usize = 0;
    while p < v.len() && string_lt(&v[p], &x)
        invariant
            p <= v.len(),
            string_views(v@) == old_views,
            forall|k: int| 0 <= k < p ==> lex_lt(#[trigger] old_views[k], x@),
        decreases v.len() - p,
    {
        p = p + 1;
    }
    if p < v.len() && v[p] == x {
        assert(old_views[p as int] == x@);
        assert forall|y: Seq<char>| #[trigger] string_views(v@).contains(y) <==> (old_views.contains(
            y,
        ) || y == x@) by {
            if y == x@ {
                assert(old_views[p as int] == y);
            }
        }
        return;
    }
    proof {
        if p < v.len() {
            assert(old_views[p as int] == v@[p as int]@);
            lemma_lex_total(old_views[p as int], x@);
        }
    }
    let ghost xv = x@;
    v.insert(p, x);
    let ghost nv = string_views(v@);
    assert(nv =~= old_views.insert(p as int, xv));
    assert forall|k: int| p <= k < old_views.len() implies lex_lt(xv, #[trigger] old_views[k]) by {
        if k > p {
            lemma_lex_transitive(xv, old_views[p as int], old_views[k]);
        }
    }
    assert forall|i: int, j: int| 0 <= i < j < nv.len() implies lex_lt(#[trigger] nv[i], #[trigger] nv[j]) by {
        if j < p {
            assert(nv[i] == old_views[i] && nv[j] == old_views[j]);
        } else if j == p {
            assert(nv[i] == old_views[i]);
        } else if i < p {
            assert(nv[i] == old_views[i] && nv[j] == old_views[j - 1]);
            assert(lex_lt(xv, old_views[j - 1]));
            lemma_lex_transitive(nv[i], xv, nv[j]);
        } else if i == p {
            assert(nv[j] == old_views[j - 1]);
            assert(lex_lt(xv, old_views[j - 1]));
        } else {
            assert(nv[i] == old_views[i - 1] && nv[j] == old_views[j - 1]);
        }
    }
    assert forall|y: Seq<char>| #[trigger] nv.contains(y) <==> (old_views.contains(y) || y == xv) by {
        if nv.contains(y) {
            let k = choose|k: int| 0 <= k < nv.len() && nv[k] == y;
            if k < p {
                assert(old_views[k] == y);
            } else if k > p {
                assert(old_views[k - 1] == y);
            }
        }
        if old_views.contains(y) {
            let k = choose|k: int| 0 <= k < old_views.len() && old_views[k] == y;
            if k < p {
                assert(nv[k] == y);
            } else {
                assert(nv[k + 1] == y);
            }
        }
        if y == xv {
            assert(nv[p as int] == y);
        }
    }
}

/// The strings of `items`, sorted, each once (`sort` then `dedup`).
pub fn sort_unique(items: Vec<String>) -> (r: Vec<String>)
    ensures
        sorted_strict(string_views(r@)),
        forall|y: Seq<char>| #[trigger] string_views(r@).contains(y) <==> string_views(
            items@,
        ).contains(y),
{
    let mut r: Vec<String> = Vec::new();
    let mut i: usize = 0;
    let ghost all = string_views(items@);
    while i < items.len()
        invariant
            i <= items.len(),
            all == string_views(items@),
            sorted_strict(string_views(r@)),
            forall|y: Seq<char>| #[trigger] string_views(r@).contains(y) <==> all.take(
                i as int,
            ).contains(y),
        decreases items.len() - i,
    {
        let ghost before = string_views(r@);
        insert_sorted(&mut r, items[i].clone());
        assert forall|y: Seq<char>| #[trigger] string_views(r@).contains(y) <==> all.take(
            i + 1,
        ).contains(y) by {
            let t0 = all.take(i as int);
            let t1 = all.take(i + 1);
            assert(t1 =~= t0.push(all[i as int]));
            if t1.contains(y) {
                let k = choose|k: int| 0 <= k < t1.len() && t1[k] == y;
                if k < i {
                    assert(t0[k] == y);
                }
            }
            if t0.contains(y) {
                let k = choose|k: int| 0 <= k < t0.len() && t0[k] == y;
                assert(t1[k] == y);
            }
            if y == all[i as int] {
                assert(t1[i as int] == y);
            }
        }
        i = i + 1;
    }
    assert(all.take(i as int) =~= all);
    r
}

} // verus!
