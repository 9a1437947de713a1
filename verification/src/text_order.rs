//! The order of text by code point, and sorting a list of strings by it.
//!
//! Comparing UTF-8 bytes orders text exactly as comparing its code points does, so this is the
//! order of `str::cmp`.
use vstd::prelude::*;
use vstd::relations::{sorted_by, total_ordering};
use vstd::seq_lib::{lemma_sorted_unique, to_multiset_build, to_multiset_insert};
use crate::audit_queue::text_views;

verus! {

/// `a` comes before `b` or equals it, comparing code points from the start; a prefix comes first.
pub open spec fn text_leq(a: Seq<char>, b: Seq<char>) -> bool
    decreases a.len(),
{
    if a.len() == 0 {
        true
    } else if b.len() == 0 {
        false
    } else if a[0] != b[0] {
        (a[0] as int) < (b[0] as int)
    } else {
        text_leq(a.drop_first(), b.drop_first())
    }
}

/// The order as a relation.
pub open spec fn text_order() -> spec_fn(Seq<char>, Seq<char>) -> bool {
    |a: Seq<char>, b: Seq<char>| text_leq(a, b)
}

proof fn lemma_text_leq_reflexive(a: Seq<char>)
    ensures
        text_leq(a, a),
    decreases a.len(),
{
    if a.len() > 0 {
        lemma_text_leq_reflexive(a.drop_first());
    }
}

proof fn lemma_text_leq_antisymmetric(a: Seq<char>, b: Seq<char>)
    requires
        text_leq(a, b),
        text_leq(b, a),
    ensures
        a == b,
    decreases a.len(),
{
    if a.len() == 0 {
        assert(b.len() == 0);
        assert(a =~= b);
    } else {
        assert(b.len() > 0);
        assert(a[0] == b[0]);
        lemma_text_leq_antisymmetric(a.drop_first(), b.drop_first());
        assert(a.drop_first() == b.drop_first());
        assert(a.drop_first().len() == b.drop_first().len());
        assert(a.len() == b.len());
        assert(a =~= b) by {
            assert forall|i: int| 0 <= i < a.len() implies a[i] == b[i] by {
                if i > 0 {
                    assert(a[i] == a.drop_first()[i - 1]);
                    assert(b[i] == b.drop_first()[i - 1]);
                }
            }
        }
    }
}

proof fn lemma_text_leq_transitive(a: Seq<char>, b: Seq<char>, c: Seq<char>)
    requires
        text_leq(a, b),
        text_leq(b, c),
    ensures
        text_leq(a, c),
    decreases a.len(),
{
    if a.len() > 0 && b.len() > 0 && c.len() > 0 && a[0] == b[0] && b[0] == c[0] {
        lemma_text_leq_transitive(a.drop_first(), b.drop_first(), c.drop_first());
    }
}

proof fn lemma_text_leq_connected(a: Seq<char>, b: Seq<char>)
    ensures
        text_leq(a, b) || text_leq(b, a),
    decreases a.len(),
{
    if a.len() > 0 && b.len() > 0 && a[0] == b[0] {
        lemma_text_leq_connected(a.drop_first(), b.drop_first());
    }
}

/// The order of text is a total order.
pub proof fn lemma_text_order_is_total()
    ensures
        total_ordering(text_order()),
{
    assert forall|a: Seq<char>| #[trigger] text_order()(a, a) by {
        lemma_text_leq_reflexive(a);
    }
    assert forall|a: Seq<char>, b: Seq<char>|
        #[trigger] text_order()(a, b) && #[trigger] text_order()(b, a) implies a == b by {
        lemma_text_leq_antisymmetric(a, b);
    }
    assert forall|a: Seq<char>, b: Seq<char>, c: Seq<char>|
        #[trigger] text_order()(a, b) && #[trigger] text_order()(b, c) implies text_order()(
        a,
        c,
    ) by {
        lemma_text_leq_transitive(a, b, c);
    }
    assert forall|a: Seq<char>, b: Seq<char>|
        #[trigger] text_order()(a, b) || #[trigger] text_order()(b, a) by {
        lemma_text_leq_connected(a, b);
    }
}

/// Whether `a` comes before `b` or equals it.
pub fn text_at_most(a: &String, b: &String) -> (le: bool)
    ensures
        le == text_leq(a@, b@),
{
    let left = a.as_str();
    let right = b.as_str();
    let left_len = left.unicode_len();
    let right_len = right.unicode_len();
    let mut i: usize = 0;
    assert(a@.skip(0) =~= a@ && b@.skip(0) =~= b@);
    while i < left_len && i < right_len
        invariant
            left@ == a@,
            right@ == b@,
            left_len == a@.len(),
            right_len == b@.len(),
            i <= left_len,
            i <= right_len,
            text_leq(a@, b@) == text_leq(a@.skip(i as int), b@.skip(i as int)),
        decreases left_len - i,
    {
        let x = left.get_char(i);
        let y = right.get_char(i);
        assert(a@.skip(i as int)[0] == x && b@.skip(i as int)[0] == y);
        if x != y {
            return (x as u32) < (y as u32);
        }
        assert(a@.skip(i as int).drop_first() =~= a@.skip(i as int + 1));
        assert(b@.skip(i as int).drop_first() =~= b@.skip(i as int + 1));
        i = i + 1;
    }
    i == left_len
}

/// The strings in the order of their text, each as often as it occurs.
pub fn sorted_texts(texts: &Vec<String>) -> (sorted: Vec<String>)
    ensures
        text_views(sorted@) == text_views(texts@).sort_by(text_order()),
{
    proof {
        lemma_text_order_is_total();
    }
    let mut sorted: Vec<String> = Vec::new();
    let mut i: usize = 0;
    assert(text_views(sorted@) =~= text_views(texts@.take(0)));
    while i < texts.len()
        invariant
            total_ordering(text_order()),
            i <= texts@.len(),
            sorted_by(text_views(sorted@), text_order()),
            text_views(sorted@).to_multiset() == text_views(texts@.take(i as int)).to_multiset(),
        decreases texts@.len() - i,
    {
        let text = &texts[i];
        let mut j: usize = 0;
        while j < sorted.len() && text_at_most(&sorted[j], text)
            invariant
                j <= sorted@.len(),
                forall|k: int| 0 <= k < j ==> text_leq(#[trigger] sorted@[k]@, text@),
            decreases sorted@.len() - j,
        {
            j = j + 1;
        }
        let ghost before = text_views(sorted@);
        sorted.insert(j, text.clone());
        proof {
            let after = text_views(sorted@);
            assert(after =~= before.insert(j as int, text@));
            to_multiset_insert(before, j as int, text@);
            assert(texts@.take(i as int + 1) =~= texts@.take(i as int).push(texts@[i as int]));
            assert(text_views(texts@.take(i as int + 1)) =~= text_views(texts@.take(i as int)).push(
                text@,
            ));
            to_multiset_build(text_views(texts@.take(i as int)), text@);
            if j < before.len() {
                assert(!text_leq(before[j as int], text@));
                lemma_text_leq_connected(before[j as int], text@);
            }
            assert forall|a: int, b: int| 0 <= a < b < after.len() implies #[trigger] text_order()(
                after[a],
                after[b],
            ) by {
                if b < j {
                    assert(after[a] == before[a] && after[b] == before[b]);
                } else if b == j {
                    assert(after[a] == before[a]);
                    assert(text_leq(sorted@[a]@, text@));
                } else if a < j {
                    assert(after[a] == before[a] && after[b] == before[b - 1]);
                    assert(text_leq(before[a], text@));
                    assert(text_order()(before[j as int], before[b - 1]) || j == b - 1);
                    lemma_text_leq_reflexive(before[j as int]);
                    lemma_text_leq_transitive(text@, before[j as int], before[b - 1]);
                    lemma_text_leq_transitive(before[a], text@, before[b - 1]);
                } else if a == j {
                    assert(after[b] == before[b - 1]);
                    lemma_text_leq_reflexive(before[j as int]);
                    assert(text_order()(before[j as int], before[b - 1]) || j == b - 1);
                    lemma_text_leq_transitive(text@, before[j as int], before[b - 1]);
                } else {
                    assert(after[a] == before[a - 1] && after[b] == before[b - 1]);
                }
            }
        }
        i = i + 1;
    }
    proof {
        assert(texts@.take(texts@.len() as int) =~= texts@);
        text_views(texts@).lemma_sort_by_ensures(text_order());
        lemma_sorted_unique(text_views(sorted@), text_views(texts@).sort_by(text_order()), text_order());
    }
    sorted
}

} // verus!
