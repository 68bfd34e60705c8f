//! The order of strings: lexicographic by character, which is the order of
//! `String` (its UTF-8 bytes compare as the characters they encode), and
//! sorting a list of strings by it.

use vstd::prelude::*;
use vstd::relations::{sorted_by, total_ordering};

use crate::text::{chars_of, string_views};

verus! {

/// `a` comes before `b` or equals it: at the first differing character the
/// smaller one decides, and a prefix comes first.
pub open spec fn text_leq(a: Seq<char>, b: Seq<char>) -> bool
    decreases a.len(),
{
    if a.len() == 0 {
        true
    } else if b.len() == 0 {
        false
    } else if a[0] != b[0] {
        a[0] < b[0]
    } else {
        text_leq(a.drop_first(), b.drop_first())
    }
}

/// The order of strings, as a relation.
pub open spec fn text_order() -> spec_fn(Seq<char>, Seq<char>) -> bool {
    |a: Seq<char>, b: Seq<char>| text_leq(a, b)
}

proof fn lemma_text_leq_reflexive(a: Seq<char>)
    ensures
        text_leq(a, a),
    decreases a.len(),
{
    if a.len() > 0 {
        lemma_text_leq_reflexive(a.drop_first());
    }
}

proof fn lemma_text_leq_antisymmetric(a: Seq<char>, b: Seq<char>)
    requires
        text_leq(a, b),
        text_leq(b, a),
    ensures
        a == b,
    decreases a.len(),
{
    if a.len() == 0 {
        assert(a =~= b);
    } else {
        lemma_text_leq_antisymmetric(a.drop_first(), b.drop_first());
        assert forall|i: int| 0 <= i < a.len() implies a[i] == b[i] by {
            if i > 0 {
                assert(a[i] == a.drop_first()[i - 1]);
                assert(b[i] == b.drop_first()[i - 1]);
            }
        }
        assert(a =~= b);
    }
}

proof fn lemma_text_leq_transitive(a: Seq<char>, b: Seq<char>, c: Seq<char>)
    requires
        text_leq(a, b),
        text_leq(b, c),
    ensures
        text_leq(a, c),
    decreases a.len(),
{
    if a.len() > 0 && a[0] == b[0] && b[0] == c[0] {
        lemma_text_leq_transitive(a.drop_first(), b.drop_first(), c.drop_first());
    }
}

proof fn lemma_text_leq_total(a: Seq<char>, b: Seq<char>)
    ensures
        text_leq(a, b) || text_leq(b, a),
    decreases a.len(),
{
    if a.len() > 0 && b.len() > 0 && a[0] == b[0] {
        lemma_text_leq_total(a.drop_first(), b.drop_first());
    }
}

/// The order of strings is a total order.
pub proof fn lemma_text_order_total()
    ensures
        total_ordering(text_order()),
{
    let r = text_order();
    assert forall|x: Seq<char>| #[trigger] r(x, x) by {
        lemma_text_leq_reflexive(x);
    }
    assert forall|x: Seq<char>, y: Seq<char>| #[trigger] r(x, y) && #[trigger] r(y, x) implies x
        == y by {
        lemma_text_leq_antisymmetric(x, y);
    }
    assert forall|x: Seq<char>, y: Seq<char>, z: Seq<char>|
        #[trigger] r(x, y) && #[trigger] r(y, z) implies r(x, z) by {
        lemma_text_leq_transitive(x, y, z);
    }
    assert forall|x: Seq<char>, y: Seq<char>| #[trigger] r(x, y) || #[trigger] r(y, x) by {
        lemma_text_leq_total(x, y);
    }
}

/// Whether `a` comes before `b` or equals it.
pub fn text_le(a: &str, b: &str) -> (r: bool)
    ensures
        r == text_leq(a@, b@),
{
    let x = chars_of(a);
    let y = chars_of(b);
    let mut i: usize = 0;
    assert(x@.skip(0) =~= x@);
    assert(y@.skip(0) =~= y@);
    loop
        invariant
            x@ == a@,
            y@ == b@,
            i <= x@.len(),
            i <= y@.len(),
            text_leq(x@, y@) == text_leq(x@.skip(i as int), y@.skip(i as int)),
        decreases x@.len() - i,
    {
        if i == x.len() {
            assert(x@.skip(i as int).len() == 0);
            assert(text_leq(x@.skip(i as int), y@.skip(i as int)));
            return true;
        }
        if i == y.len() {
            assert(y@.skip(i as int).len() == 0);
            assert(!text_leq(x@.skip(i as int), y@.skip(i as int)));
            return false;
        }
        assert(x@.skip(i as int)[0] == x@[i as int]);
        assert(y@.skip(i as int)[0] == y@[i as int]);
        if x[i] != y[i] {
            assert(text_leq(x@.skip(i as int), y@.skip(i as int)) == (x@[i as int] < y@[i as int]));
            return x[i] < y[i];
        }
        assert(x@.skip(i as int).drop_first() =~= x@.skip(i + 1));
        assert(y@.skip(i as int).drop_first() =~= y@.skip(i + 1));
        i = i + 1;
    }
}

/// Inserting `x` before the first element that comes after it keeps a sorted
/// sequence sorted.
proof fn lemma_insert_sorted(s: Seq<Seq<char>>, x: Seq<char>, j: int)
    requires
        sorted_by(s, text_order()),
        0 <= j <= s.len(),
        forall|k: int| 0 <= k < j ==> text_leq(#[trigger] s[k], x),
        j < s.len() ==> !text_leq(s[j], x),
    ensures
        sorted_by(s.insert(j, x), text_order()),
{
    lemma_text_order_total();
    let n = s.insert(j, x);
    let r = text_order();
    assert forall|p: int, q: int| 0 <= p < q < n.len() implies #[trigger] r(n[p], n[q]) by {
        if q < j {
            assert(r(s[p], s[q]));
        } else if q == j {
            assert(text_leq(s[p], x));
        } else if p < j {
            assert(n[q] == s[q - 1]);
            if p < q - 1 {
                assert(r(s[p], s[q - 1]));
            } else {
                assert(r(s[p], s[p]));
            }
        } else if p == j {
            assert(n[q] == s[q - 1]);
            assert(!r(s[j], x));
            assert(r(x, s[j]));
            if j < q - 1 {
                assert(r(s[j], s[q - 1]));
                assert(r(x, s[q - 1]));
            }
        } else {
            assert(n[p] == s[p - 1]);
            assert(n[q] == s[q - 1]);
            assert(r(s[p - 1], s[q - 1]));
        }
    }
}

/// The strings of `v` in order.
pub fn sort_texts(v: Vec<String>) -> (r: Vec<String>)
    ensures
        string_views(r@) == string_views(v@).sort_by(text_order()),
{
    let ghost orig = string_views(v@);
    assert(orig.len() == v.len());
    let mut rest = v;
    let mut out: Vec<String> = Vec::new();
    let mut i: usize = 0;
    assert(orig.skip(0) =~= orig);
    assert(string_views(out@) =~= orig.take(0));
    while rest.len() > 0
        invariant
            i + rest@.len() == orig.len(),
            orig.len() <= usize::MAX,
            string_views(rest@) == orig.skip(i as int),
            sorted_by(string_views(out@), text_order()),
            string_views(out@).to_multiset() == orig.take(i as int).to_multiset(),
        decreases rest@.len(),
    {
        let ghost rest_before = rest@;
        let x = rest.remove(0);
        assert(x@ == orig[i as int]) by {
            assert(string_views(rest_before)[0] == orig.skip(i as int)[0]);
        }
        assert(string_views(rest@) =~= string_views(rest_before).drop_first());
        assert(orig.skip(i as int).drop_first() =~= orig.skip(i + 1));
        let mut j: usize = 0;
        loop
            invariant
                j <= out@.len(),
                forall|k: int| 0 <= k < j ==> text_leq(#[trigger] string_views(out@)[k], x@),
            ensures
                j <= out@.len(),
                forall|k: int| 0 <= k < j ==> text_leq(#[trigger] string_views(out@)[k], x@),
                j < out@.len() ==> !text_leq(string_views(out@)[j as int], x@),
            decreases out@.len() - j,
        {
            if j == out.len() {
                break;
            }
            if !text_le(out[j].as_str(), x.as_str()) {
                break;
            }
            j = j + 1;
        }
        let ghost before = string_views(out@);
        proof {
            lemma_insert_sorted(before, x@, j as int);
            vstd::seq_lib::to_multiset_insert(before, j as int, x@);
        }
        out.insert(j, x);
        assert(string_views(out@) =~= before.insert(j as int, orig[i as int]));
        assert(orig.take(i + 1) =~= orig.take(i as int).push(orig[i as int]));
        proof {
            vstd::seq_lib::to_multiset_insert(
                orig.take(i as int),
                i as int,
                orig[i as int],
            );
            assert(orig.take(i as int).insert(i as int, orig[i as int]) =~= orig.take(i + 1));
        }
        i = i + 1;
    }
    proof {
        assert(orig.take(i as int) =~= orig);
        lemma_text_order_total();
        orig.lemma_sort_by_ensures(text_order());
        vstd::seq_lib::lemma_sorted_unique(string_views(out@), orig.sort_by(text_order()), text_order());
    }
    out
}

} // verus!
