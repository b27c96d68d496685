//! Facts about sequences that are walked from the front.

use vstd::prelude::*;

verus! {

/// Whether `x` stands at exactly one place of `s`.
pub open spec fn occurs_once<A>(s: Seq<A>, x: A) -> bool {
    exists|i: int| 0 <= i < s.len() && #[trigger] s[i] == x && !s.take(i).contains(x) && !s.skip(
        i + 1,
    ).contains(x)
}

/// Whether `x` stands at place `i` of `s` and at no other.
pub open spec fn only_at<A>(s: Seq<A>, x: A, i: int) -> bool {
    &&& 0 <= i < s.len()
    &&& s[i] == x
    &&& forall|j: int| 0 <= j < s.len() && #[trigger] s[j] == x ==> j == i
}

/// What stands at one place only occurs once.
pub proof fn lemma_only_at<A>(s: Seq<A>, x: A, i: int)
    requires
        only_at(s, x, i),
    ensures
        occurs_once(s, x),
{
    assert(s[i] == x);
    assert(!s.take(i).contains(x)) by {
        if s.take(i).contains(x) {
            let j = choose|j: int| 0 <= j < i && s.take(i)[j] == x;
            assert(s[j] == x);
        }
    }
    assert(!s.skip(i + 1).contains(x)) by {
        let after = s.skip(i + 1);
        if after.contains(x) {
            let j = choose|j: int| 0 <= j < after.len() && after[j] == x;
            assert(s[j + i + 1] == x);
        }
    }
}

/// Whether, in `s`, everything that is `a` stands before everything that is `b`.
pub open spec fn precedes<A>(s: Seq<A>, a: A, b: A) -> bool {
    forall|i: int, j: int|
        0 <= i < s.len() && 0 <= j < s.len() && #[trigger] s[i] == a && #[trigger] s[j] == b ==> i
            < j
}

/// What the first `i + 1` elements of a sequence hold, given the first `i`.
pub proof fn lemma_take_next<A>(s: Seq<A>, i: int)
    requires
        0 <= i < s.len(),
    ensures
        s.take(i + 1) == s.take(i).push(s[i]),
        forall|x: A| #[trigger] s.take(i + 1).contains(x) <==> s.take(i).contains(x) || x == s[i],
        s.no_duplicates() ==> !s.take(i).contains(s[i]),
{
    let shorter = s.take(i);
    let longer = s.take(i + 1);
    assert(longer =~= shorter.push(s[i]));
    assert forall|x: A| #[trigger] longer.contains(x) <==> shorter.contains(x) || x == s[i] by {
        if shorter.contains(x) {
            let j = choose|j: int| 0 <= j < shorter.len() && shorter[j] == x;
            assert(longer[j] == x);
        }
        if x == s[i] {
            assert(longer[i] == x);
        }
        if longer.contains(x) && x != s[i] {
            let j = choose|j: int| 0 <= j < longer.len() && longer[j] == x;
            assert(shorter[j] == x);
        }
    }
    if s.no_duplicates() && shorter.contains(s[i]) {
        let j = choose|j: int| 0 <= j < shorter.len() && shorter[j] == s[i];
        assert(s[j] == s[i]);
    }
}

/// What filtering the first `i + 1` elements of a sequence gives, given the
/// first `i`.
pub proof fn lemma_filter_next<A>(s: Seq<A>, i: int, keep: spec_fn(A) -> bool)
    requires
        0 <= i < s.len(),
    ensures
        s.take(i + 1).filter(keep) == if keep(s[i]) {
            s.take(i).filter(keep).push(s[i])
        } else {
            s.take(i).filter(keep)
        },
{
    reveal(Seq::filter);
    assert(s.take(i + 1).drop_last() =~= s.take(i));
}

/// A filtered sequence holds the elements that meet the condition, and no others.
pub proof fn lemma_filter_holds<A>(s: Seq<A>, keep: spec_fn(A) -> bool, x: A)
    ensures
        s.filter(keep).contains(x) <==> s.contains(x) && keep(x),
    decreases s.len(),
{
    reveal(Seq::filter);
    if s.len() > 0 {
        let rest = s.drop_last();
        lemma_filter_holds(rest, keep, x);
        assert(s =~= rest.push(s.last()));
        if rest.contains(x) {
            let i = choose|i: int| 0 <= i < rest.len() && rest[i] == x;
            assert(s[i] == x);
        }
        if s.contains(x) && !rest.contains(x) {
            let i = choose|i: int| 0 <= i < s.len() && s[i] == x;
            assert(i == s.len() - 1 || rest[i] == x);
        }
        let kept = rest.filter(keep);
        if keep(s.last()) {
            let all = kept.push(s.last());
            if kept.contains(x) {
                let i = choose|i: int| 0 <= i < kept.len() && kept[i] == x;
                assert(all[i] == x);
            }
            if all.contains(x) {
                let i = choose|i: int| 0 <= i < all.len() && all[i] == x;
                assert(i == kept.len() || kept[i] == x);
            }
            assert(all[kept.len() as int] == s.last());
            assert(s[s.len() - 1] == s.last());
        }
    }
}

/// Filtering a sequence that was filtered by another condition keeps the
/// elements that meet both.
pub proof fn lemma_filter_twice<A>(
    s: Seq<A>,
    first: spec_fn(A) -> bool,
    second: spec_fn(A) -> bool,
)
    ensures
        (forall|x: A| #[trigger] first(x) ==> second(x)) ==> s.filter(first).filter(second) == s.filter(
            first,
        ),
        (forall|x: A| #[trigger] first(x) ==> !second(x)) ==> s.filter(first).filter(second) == Seq::<
            A,
        >::empty(),
    decreases s.len(),
{
    reveal(Seq::filter);
    if s.len() > 0 {
        let rest = s.drop_last();
        lemma_filter_twice(rest, first, second);
        if first(s.last()) {
            let kept = rest.filter(first);
            assert(kept.push(s.last()).drop_last() =~= kept);
        }
    }
}

/// Filtering by a condition gives the same with or without filtering by a weaker one
/// first.
pub proof fn lemma_filter_stronger<A>(
    s: Seq<A>,
    weaker: spec_fn(A) -> bool,
    stronger: spec_fn(A) -> bool,
)
    requires
        forall|x: A| #[trigger] stronger(x) ==> weaker(x),
    ensures
        s.filter(weaker).filter(stronger) == s.filter(stronger),
    decreases s.len(),
{
    reveal(Seq::filter);
    if s.len() > 0 {
        let rest = s.drop_last();
        lemma_filter_stronger(rest, weaker, stronger);
        if weaker(s.last()) {
            let kept = rest.filter(weaker);
            assert(kept.push(s.last()).drop_last() =~= kept);
        }
    }
}

/// Two conditions that agree filter alike.
pub proof fn lemma_filter_alike<A>(s: Seq<A>, one: spec_fn(A) -> bool, other: spec_fn(A) -> bool)
    requires
        forall|x: A| #[trigger] one(x) == other(x),
    ensures
        s.filter(one) == s.filter(other),
    decreases s.len(),
{
    reveal(Seq::filter);
    if s.len() > 0 {
        lemma_filter_alike(s.drop_last(), one, other);
        assert(one(s.last()) == other(s.last()));
    }
}

} // verus!
