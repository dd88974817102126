//! Facts about filtered sequences that the rest of the crate leans on.

use vstd::prelude::*;

verus! {

/// Filtering a sequence that ends in `last` filters what comes before it and
/// then decides on `last`.
pub proof fn filter_push<A>(s: Seq<A>, last: A, pred: spec_fn(A) -> bool)
    ensures
        s.push(last).filter(pred) == if pred(last) {
            s.filter(pred).push(last)
        } else {
            s.filter(pred)
        },
{
    reveal(Seq::filter);
    assert(s.push(last).drop_last() =~= s);
}

/// A filtered sequence holds exactly the elements of the sequence that pass.
pub proof fn filter_members<A>(s: Seq<A>, pred: spec_fn(A) -> bool)
    ensures
        forall|x: A| #[trigger] s.filter(pred).contains(x) <==> s.contains(x) && pred(x),
    decreases s.len(),
{
    reveal(Seq::filter);
    if s.len() > 0 {
        let front = s.drop_last();
        let last = s.last();
        filter_members(front, pred);
        assert forall|x: A| #[trigger] s.filter(pred).contains(x) <==> s.contains(x) && pred(
            x,
        ) by {
            let kept = s.filter(pred);
            if kept.contains(x) {
                let i = choose|i: int| 0 <= i < kept.len() && kept[i] == x;
                if pred(last) && i == kept.len() - 1 {
                    assert(s[s.len() - 1] == x);
                } else {
                    assert(front.filter(pred)[i] == x);
                    assert(front.filter(pred).contains(x));
                    let j = choose|j: int| 0 <= j < front.len() && front[j] == x;
                    assert(s[j] == x);
                }
            }
            if s.contains(x) && pred(x) {
                let j = choose|j: int| 0 <= j < s.len() && s[j] == x;
                if j == s.len() - 1 {
                    assert(kept[kept.len() - 1] == x);
                } else {
                    assert(front[j] == x);
                    assert(front.filter(pred).contains(x));
                    let i = choose|i: int|
                        0 <= i < front.filter(pred).len() && front.filter(pred)[i] == x;
                    assert(kept[i] == x);
                }
            }
        }
    }
}

/// Filtering changes nothing where every element passes.
pub proof fn filter_keeps_all<A>(s: Seq<A>, pred: spec_fn(A) -> bool)
    requires
        forall|i: int| 0 <= i < s.len() ==> pred(#[trigger] s[i]),
    ensures
        s.filter(pred) == s,
    decreases s.len(),
{
    reveal(Seq::filter);
    if s.len() > 0 {
        let front = s.drop_last();
        assert forall|i: int| 0 <= i < front.len() implies pred(#[trigger] front[i]) by {
            assert(front[i] == s[i]);
        }
        filter_keeps_all(front, pred);
        assert(front.push(s.last()) =~= s);
    }
}

/// Two predicates that agree on every element of a sequence filter it alike.
pub proof fn filter_agrees<A>(s: Seq<A>, p: spec_fn(A) -> bool, q: spec_fn(A) -> bool)
    requires
        forall|i: int| 0 <= i < s.len() ==> p(#[trigger] s[i]) == q(s[i]),
    ensures
        s.filter(p) == s.filter(q),
    decreases s.len(),
{
    reveal(Seq::filter);
    if s.len() > 0 {
        let front = s.drop_last();
        assert forall|i: int| 0 <= i < front.len() implies p(#[trigger] front[i]) == q(
            front[i],
        ) by {
            assert(front[i] == s[i]);
        }
        filter_agrees(front, p, q);
    }
}

/// Filtering a concatenation filters its two parts.
pub proof fn filter_concat<A>(a: Seq<A>, b: Seq<A>, pred: spec_fn(A) -> bool)
    ensures
        (a + b).filter(pred) == a.filter(pred) + b.filter(pred),
    decreases b.len(),
{
    if b.len() == 0 {
        reveal(Seq::filter);
        assert(a + b =~= a);
        assert(a.filter(pred) + b.filter(pred) =~= a.filter(pred));
    } else {
        let front = b.drop_last();
        filter_concat(a, front, pred);
        filter_push(a + front, b.last(), pred);
        filter_push(front, b.last(), pred);
        assert((a + front).push(b.last()) =~= a + b);
        assert(front.push(b.last()) =~= b);
        if pred(b.last()) {
            assert((a.filter(pred) + front.filter(pred)).push(b.last()) =~= a.filter(pred)
                + front.filter(pred).push(b.last()));
        }
    }
}

/// A filtered sequence as long as the sequence lost nothing: every element passes.
pub proof fn filter_of_full_length<A>(s: Seq<A>, pred: spec_fn(A) -> bool)
    requires
        s.filter(pred).len() == s.len(),
    ensures
        forall|i: int| 0 <= i < s.len() ==> pred(#[trigger] s[i]),
        s.filter(pred) == s,
    decreases s.len(),
{
    reveal(Seq::filter);
    if s.len() > 0 {
        let front = s.drop_last();
        front.lemma_filter_len(pred);
        filter_of_full_length(front, pred);
        assert forall|i: int| 0 <= i < s.len() implies pred(#[trigger] s[i]) by {
            if i < front.len() {
                assert(front[i] == s[i]);
            }
        }
        filter_keeps_all(s, pred);
    }
}

/// Filtering by a test after filtering by a weaker one is filtering by the
/// test alone.
pub proof fn filter_after_weaker<A>(s: Seq<A>, weaker: spec_fn(A) -> bool, pred: spec_fn(A) -> bool)
    requires
        forall|x: A| #[trigger] pred(x) ==> weaker(x),
    ensures
        s.filter(weaker).filter(pred) == s.filter(pred),
    decreases s.len(),
{
    reveal(Seq::filter);
    if s.len() > 0 {
        let front = s.drop_last();
        filter_after_weaker(front, weaker, pred);
        if weaker(s.last()) {
            filter_push(front.filter(weaker), s.last(), pred);
        }
    }
}

/// Taking out an element that does not pass leaves the filtered sequence as it was.
pub proof fn filter_skips<A>(before: Seq<A>, e: A, after: Seq<A>, pred: spec_fn(A) -> bool)
    requires
        !pred(e),
    ensures
        (before + seq![e] + after).filter(pred) == (before + after).filter(pred),
{
    filter_concat(before + seq![e], after, pred);
    filter_concat(before, after, pred);
    filter_push(before, e, pred);
    assert(before.push(e) =~= before + seq![e]);
}

/// An element counts for one in the length of the filtered sequence if it
/// passes, and for nothing if it does not.
pub proof fn filter_counts<A>(before: Seq<A>, e: A, after: Seq<A>, pred: spec_fn(A) -> bool)
    ensures
        (before + seq![e] + after).filter(pred).len() == (before + after).filter(pred).len()
            + (if pred(e) {
            1int
        } else {
            0int
        }),
{
    filter_concat(before + seq![e], after, pred);
    filter_concat(before, after, pred);
    filter_push(before, e, pred);
    assert(before.push(e) =~= before + seq![e]);
}

/// If some element of a sequence passes, the filtered sequence is not empty,
/// and the other way round.
pub proof fn filter_is_empty<A>(s: Seq<A>, pred: spec_fn(A) -> bool)
    ensures
        s.filter(pred).len() > 0 <==> exists|i: int| 0 <= i < s.len() && pred(#[trigger] s[i]),
{
    filter_members(s, pred);
    let kept = s.filter(pred);
    if kept.len() > 0 {
        assert(kept.contains(kept[0]));
        let j = choose|j: int| 0 <= j < s.len() && s[j] == kept[0];
        assert(pred(s[j]));
    }
    if exists|i: int| 0 <= i < s.len() && pred(#[trigger] s[i]) {
        let i = choose|i: int| 0 <= i < s.len() && pred(#[trigger] s[i]);
        assert(s.contains(s[i]));
        assert(kept.contains(s[i]));
    }
}

} // verus!
