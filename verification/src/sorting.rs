//! The order of texts, and sorting by it.

use vstd::prelude::*;
use vstd::relations::{sorted_by, total_ordering};
use vstd::seq_lib::lemma_sorted_unique;

verus! {

/// Whether `a` comes before `b`, or is `b`, in the order of texts: the
/// texts are compared character by character, by their code points, and a
/// text comes before every text that it begins.
pub open spec fn text_le(a: Seq<char>, b: Seq<char>) -> bool
    decreases a.len(),
{
    if a.len() == 0 {
        true
    } else if b.len() == 0 {
        false
    } else if a[0] != b[0] {
        (a[0] as int) < (b[0] as int)
    } else {
        text_le(a.drop_first(), b.drop_first())
    }
}

/// The order of texts as a relation.
pub open spec fn text_order() -> spec_fn(Seq<char>, Seq<char>) -> bool {
    |a: Seq<char>, b: Seq<char>| text_le(a, b)
}

proof fn lemma_text_le_reflexive(a: Seq<char>)
    ensures
        text_le(a, a),
    decreases a.len(),
{
    if a.len() > 0 {
        lemma_text_le_reflexive(a.drop_first());
    }
}

proof fn lemma_text_le_connected(a: Seq<char>, b: Seq<char>)
    ensures
        text_le(a, b) || text_le(b, a),
    decreases a.len(),
{
    if a.len() > 0 && b.len() > 0 && a[0] == b[0] {
        lemma_text_le_connected(a.drop_first(), b.drop_first());
    }
}

proof fn lemma_text_le_antisymmetric(a: Seq<char>, b: Seq<char>)
    requires
        text_le(a, b),
        text_le(b, a),
    ensures
        a == b,
    decreases a.len(),
{
    if a.len() == 0 || b.len() == 0 {
        assert(a =~= b);
    } else {
        lemma_text_le_antisymmetric(a.drop_first(), b.drop_first());
        assert(a =~= seq![a[0]] + a.drop_first());
        assert(b =~= seq![b[0]] + b.drop_first());
    }
}

proof fn lemma_text_le_transitive(a: Seq<char>, b: Seq<char>, c: Seq<char>)
    requires
        text_le(a, b),
        text_le(b, c),
    ensures
        text_le(a, c),
    decreases a.len(),
{
    if a.len() > 0 && a[0] == b[0] && b[0] == c[0] {
        lemma_text_le_transitive(a.drop_first(), b.drop_first(), c.drop_first());
    }
}

/// The order of texts is a total order.
pub proof fn lemma_text_order_is_total()
    ensures
        total_ordering(text_order()),
{
    let r = text_order();
    assert forall|x: Seq<char>| #[trigger] r(x, x) by {
        lemma_text_le_reflexive(x);
    }
    assert forall|x: Seq<char>, y: Seq<char>| #[trigger] r(x, y) && #[trigger] r(y, x) implies x
        == y by {
        lemma_text_le_antisymmetric(x, y);
    }
    assert forall|x: Seq<char>, y: Seq<char>, z: Seq<char>| #[trigger]
        r(x, y) && #[trigger] r(y, z) implies r(x, z) by {
        lemma_text_le_transitive(x, y, z);
    }
    assert forall|x: Seq<char>, y: Seq<char>| #[trigger] r(x, y) || #[trigger] r(y, x) by {
        lemma_text_le_connected(x, y);
    }
}

/// Whether `a` comes before `b`, or is `b`, in the order of texts.
pub fn text_precedes(a: &Vec<char>, b: &Vec<char>) -> (le: bool)
    ensures
        le == text_le(a@, b@),
{
    let mut i: usize = 0;
    proof {
        assert(a@.skip(0) =~= a@);
        assert(b@.skip(0) =~= b@);
    }
    loop
        invariant
            i <= a@.len(),
            i <= b@.len(),
            text_le(a@, b@) == text_le(a@.skip(i as int), b@.skip(i as int)),
        decreases a@.len() - i,
    {
        if i >= a.len() {
            return true;
        }
        if i >= b.len() {
            return false;
        }
        let x = a[i];
        let y = b[i];
        proof {
            assert(a@.skip(i as int)[0] == x);
            assert(b@.skip(i as int)[0] == y);
            assert(a@.skip(i as int).drop_first() =~= a@.skip(i + 1));
            assert(b@.skip(i as int).drop_first() =~= b@.skip(i + 1));
        }
        if x != y {
            return x < y;
        }
        i += 1;
    }
}

/// The texts in ascending order.
pub fn sort_texts(texts: Vec<Vec<char>>) -> (sorted: Vec<Vec<char>>)
    ensures
        sorted.deep_view() == texts.deep_view().sort_by(text_order()),
{
    let ghost all = texts.deep_view();
    let ghost items = texts@;
    let ghost order = text_order();
    let mut sorted: Vec<Vec<char>> = Vec::new();
    proof {
        lemma_text_order_is_total();
        assert(sorted.deep_view() =~= Seq::<Seq<char>>::empty());
        assert(all.take(0) =~= Seq::<Seq<char>>::empty());
    }
    for text in it: texts.into_iter()
        invariant
            it.seq() == items,
            all == texts.deep_view(),
            all.len() == items.len(),
            forall|k: int| 0 <= k < items.len() ==> (#[trigger] items[k])@ == all[k],
            order == text_order(),
            total_ordering(order),
            sorted_by(sorted.deep_view(), order),
            sorted.deep_view().to_multiset() == all.take(it.index() as int).to_multiset(),
    {
        let ghost at = it.index() as int;
        let ghost before = sorted.deep_view();
        proof {
            assert(text.deep_view() =~= text@);
            assert(all[at] == text@);
        }
        let mut k: usize = 0;
        let mut searching = true;
        while searching && k < sorted.len()
            invariant
                k <= sorted@.len(),
                before == sorted.deep_view(),
                forall|j: int| 0 <= j < k ==> text_le(#[trigger] before[j], text@),
                !searching ==> k < sorted@.len() && !text_le(before[k as int], text@),
            decreases sorted@.len() - k + if searching { 1int } else { 0int },
        {
            proof {
                assert(before[k as int] == sorted@[k as int].deep_view());
                assert(sorted@[k as int].deep_view() =~= sorted@[k as int]@);
            }
            if text_precedes(&sorted[k], &text) {
                k += 1;
            } else {
                searching = false;
            }
        }
        proof {
            let grown = before.insert(k as int, text@);
            assert forall|i: int, j: int| 0 <= i < j < grown.len() implies #[trigger] order(
                grown[i],
                grown[j],
            ) by {
                if j < k {
                    assert(order(before[i], before[j]));
                } else if j == k {
                    assert(text_le(before[i], text@));
                } else if i < k {
                    assert(order(before[i], before[j - 1]));
                } else if i == k {
                    assert(k < before.len());
                    assert(!text_le(before[k as int], text@));
                    assert(order(before[k as int], text@) || order(text@, before[k as int]));
                    if j - 1 > k {
                        assert(order(before[k as int], before[j - 1]));
                        assert(order(text@, before[k as int]) && order(
                            before[k as int],
                            before[j - 1],
                        ) ==> order(text@, before[j - 1]));
                    }
                } else {
                    assert(order(before[i - 1], before[j - 1]));
                }
            }
            assert(grown.remove(k as int) =~= before);
            vstd::seq_lib::to_multiset_remove(grown, k as int);
            assert(grown.to_multiset().count(text@) > 0) by {
                assert(grown[k as int] == text@);
                grown.to_multiset_ensures();
            }
            assert(grown.to_multiset() =~= before.to_multiset().insert(text@));
            assert(all.take(at + 1) =~= all.take(at).push(text@));
            vstd::seq_lib::to_multiset_build(all.take(at), text@);
        }
        sorted.insert(k, text);
        proof {
            assert(text.deep_view() =~= text@);
            assert(sorted.deep_view() =~= before.insert(k as int, text@));
        }
    }
    proof {
        assert(all.take(all.len() as int) =~= all);
        all.lemma_sort_by_ensures(order);
        lemma_sorted_unique(sorted.deep_view(), all.sort_by(order), order);
    }
    sorted
}

} // verus!
