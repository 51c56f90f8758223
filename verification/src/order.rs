//! The order of texts that Rust's `str` comparison gives: lexicographic by character code
//! (the same as comparing the UTF-8 bytes), a shorter text before any longer one it starts.

use vstd::prelude::*;
use vstd::relations::{sorted_by, total_ordering};

use crate::text::strings_view;

verus! {

broadcast use {vstd::seq_lib::group_to_multiset_ensures, vstd::multiset::group_multiset_axioms};

/// Whether `a` comes strictly before `b`.
pub open spec fn text_lt(a: Seq<char>, b: Seq<char>) -> bool
    decreases a.len(),
{
    if b.len() == 0 {
        false
    } else if a.len() == 0 {
        true
    } else if a[0] != b[0] {
        (a[0] as int) < (b[0] as int)
    } else {
        text_lt(a.drop_first(), b.drop_first())
    }
}

/// Law: texts are ordered as a dictionary orders them. Where `a` and `b` agree on their first `k`
/// characters, `a` comes first when it ends there and `b` goes on, and when both go on with
/// different characters, the text with the smaller character code there comes first.
pub proof fn law_text_order_is_lexicographic(a: Seq<char>, b: Seq<char>, k: int)
    requires
        0 <= k <= a.len(),
        k <= b.len(),
        a.take(k) == b.take(k),
    ensures
        k == a.len() && k < b.len() ==> text_lt(a, b),
        k < a.len() && k < b.len() && a[k] != b[k] ==> (text_lt(a, b) <==> (a[k] as int) < (
            b[k] as int)),
    decreases k,
{
    if k > 0 {
        assert(a[0] == a.take(k)[0]);
        assert(b[0] == b.take(k)[0]);
        assert(a.drop_first().take(k - 1) =~= b.drop_first().take(k - 1)) by {
            assert forall|i: int| 0 <= i < k - 1 implies a.drop_first()[i] == b.drop_first()[i] by {
                assert(a.take(k)[i + 1] == b.take(k)[i + 1]);
                assert(a.take(k)[i + 1] == a[i + 1]);
                assert(b.take(k)[i + 1] == b[i + 1]);
                assert(a.drop_first()[i] == a[i + 1]);
                assert(b.drop_first()[i] == b[i + 1]);
            }
        }
        law_text_order_is_lexicographic(a.drop_first(), b.drop_first(), k - 1);
    }
}

/// Whether `a` comes before `b` or is `b`.
pub open spec fn text_le(a: Seq<char>, b: Seq<char>) -> bool {
    !text_lt(b, a)
}

/// The order as a relation.
pub open spec fn text_order() -> spec_fn(Seq<char>, Seq<char>) -> bool {
    |a: Seq<char>, b: Seq<char>| text_le(a, b)
}

proof fn lemma_lt_irreflexive(a: Seq<char>)
    ensures
        !text_lt(a, a),
    decreases a.len(),
{
    if a.len() > 0 {
        lemma_lt_irreflexive(a.drop_first());
    }
}

proof fn lemma_lt_trichotomy(a: Seq<char>, b: Seq<char>)
    ensures
        a == b || text_lt(a, b) || text_lt(b, a),
        !(text_lt(a, b) && text_lt(b, a)),
    decreases a.len(),
{
    if a.len() > 0 && b.len() > 0 {
        if a[0] == b[0] {
            lemma_lt_trichotomy(a.drop_first(), b.drop_first());
            if a.drop_first() == b.drop_first() {
                assert(a =~= seq![a[0]] + a.drop_first());
                assert(b =~= seq![b[0]] + b.drop_first());
            }
        } else {
            assert((a[0] as int) != (b[0] as int));
        }
    } else if a.len() == 0 && b.len() == 0 {
        assert(a =~= b);
    }
}

proof fn lemma_lt_transitive(a: Seq<char>, b: Seq<char>, c: Seq<char>)
    requires
        text_lt(a, b),
        text_lt(b, c),
    ensures
        text_lt(a, c),
    decreases a.len(),
{
    if a.len() > 0 && b.len() > 0 && c.len() > 0 && a[0] == b[0] && b[0] == c[0] {
        lemma_lt_transitive(a.drop_first(), b.drop_first(), c.drop_first());
    }
}

proof fn lemma_le_transitive(a: Seq<char>, b: Seq<char>, c: Seq<char>)
    requires
        text_le(a, b),
        text_le(b, c),
    ensures
        text_le(a, c),
{
    if text_lt(c, a) {
        lemma_lt_trichotomy(a, b);
        lemma_lt_trichotomy(b, c);
        if a == b {
        } else if b == c {
        } else {
            lemma_lt_transitive(a, b, c);
            lemma_lt_trichotomy(a, c);
        }
    }
}

/// The order is a total order.
pub proof fn lemma_text_order_total()
    ensures
        total_ordering(text_order()),
{
    let r = text_order();
    assert forall|x: Seq<char>| #[trigger] r(x, x) by {
        lemma_lt_irreflexive(x);
    }
    assert forall|x: Seq<char>, y: Seq<char>| #[trigger] r(x, y) && #[trigger] r(y, x) implies x
        == y by {
        lemma_lt_trichotomy(x, y);
    }
    assert forall|x: Seq<char>, y: Seq<char>, z: Seq<char>|
        #[trigger] r(x, y) && #[trigger] r(y, z) implies r(x, z) by {
        lemma_le_transitive(x, y, z);
    }
    assert forall|x: Seq<char>, y: Seq<char>| #[trigger] r(x, y) || #[trigger] r(y, x) by {
        lemma_lt_trichotomy(x, y);
    }
}

/// Whether `a` comes strictly before `b`.
pub fn text_less(a: &str, b: &str) -> (r: bool)
    ensures
        r == text_lt(a@, b@),
{
    let n = a.unicode_len();
    let m = b.unicode_len();
    let mut i: usize = 0;
    assert(a@.skip(0) =~= a@);
    assert(b@.skip(0) =~= b@);
    loop
        invariant
            n == a@.len(),
            m == b@.len(),
            i <= n,
            i <= m,
            text_lt(a@, b@) == text_lt(a@.skip(i as int), b@.skip(i as int)),
        decreases n - i,
    {
        assert(a@.skip(i as int).len() == n - i);
        if i == m {
            return false;
        }
        if i == n {
            return true;
        }
        let x = a.get_char(i);
        let y = b.get_char(i);
        assert(a@.skip(i as int)[0] == x);
        assert(b@.skip(i as int)[0] == y);
        if x != y {
            let less = (x as u32) < (y as u32);
            assert(less == ((x as int) < (y as int)));
            return less;
        }
        assert(a@.skip(i as int).drop_first() =~= a@.skip(i + 1));
        assert(b@.skip(i as int).drop_first() =~= b@.skip(i + 1));
        i = i + 1;
    }
}

/// A copy of `s`.
fn copy_text(s: &String) -> (r: String)
    ensures
        r@ == s@,
{
    String::from_str(s.as_str())
}

/// The texts in order.
pub fn sort_texts(items: &Vec<String>) -> (r: Vec<String>)
    ensures
        strings_view(r@) == strings_view(items@).sort_by(text_order()),
{
    let ghost input = strings_view(items@);
    let mut sorted: Vec<String> = Vec::new();
    let mut i: usize = 0;
    proof {
        lemma_text_order_total();
    }
    while i < items.len()
        invariant
            i <= items.len(),
            input == strings_view(items@),
            total_ordering(text_order()),
            sorted_by(strings_view(sorted@), text_order()),
            strings_view(sorted@).to_multiset() == input.take(i as int).to_multiset(),
        decreases items.len() - i,
    {
        let item = &items[i];
        let ghost before = strings_view(sorted@);
        let mut p: usize = 0;
        while p < sorted.len() && !text_less(item.as_str(), sorted[p].as_str())
            invariant
                p <= sorted.len(),
                before == strings_view(sorted@),
                forall|k: int| 0 <= k < p ==> !text_lt(item@, #[trigger] before[k]),
            decreases sorted.len() - p,
        {
            p = p + 1;
        }
        sorted.insert(p, copy_text(item));
        proof {
            let after = strings_view(sorted@);
            let x = item@;
            assert(after =~= before.insert(p as int, x));
            assert(input.take(i + 1) =~= input.take(i as int).push(x));
            assert(after.remove(p as int) =~= before);
            assert(after.to_multiset() =~= before.to_multiset().insert(x)) by {
                vstd::seq_lib::to_multiset_remove(after, p as int);
                assert(after[p as int] == x);
                assert(after.contains(x));
                assert(after.to_multiset().count(x) > 0);
            }
            vstd::seq_lib::to_multiset_build(input.take(i as int), x);
            assert forall|a: int, b: int| 0 <= a < b < after.len() implies #[trigger] text_order()(
                after[a],
                after[b],
            ) by {
                let r = text_order();
                if a < p && b < p + 1 {
                    if b == p {
                        assert(!text_lt(x, before[a]));
                    } else {
                        assert(r(before[a], before[b]));
                    }
                } else if a == p {
                    // x before every element from position p on.
                    if p < before.len() {
                        assert(text_lt(x, before[p as int]));
                        let y = before[b - 1];
                        if b - 1 > p {
                            assert(r(before[p as int], y));
                        }
                        if text_lt(y, x) {
                            lemma_lt_transitive(y, x, before[p as int]);
                            lemma_lt_irreflexive(y);
                        }
                    }
                } else if a < p {
                    assert(r(before[a], before[b - 1]));
                } else {
                    assert(r(before[a - 1], before[b - 1]));
                }
            }
        }
        i = i + 1;
    }
    proof {
        assert(input.take(i as int) =~= input);
        input.lemma_sort_by_ensures(text_order());
        vstd::seq_lib::lemma_sorted_unique(strings_view(sorted@), input.sort_by(text_order()), text_order());
    }
    sorted
}

} // verus!
