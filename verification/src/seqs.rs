//! Facts about keeping the items of a sequence that pass a test.

use vstd::prelude::*;

verus! {

/// One more item of a sequence that is being filtered from the front.
pub proof fn lemma_filter_step<A>(s: Seq<A>, keep: spec_fn(A) -> bool, i: int)
    requires
        0 <= i < s.len(),
    ensures
        s.subrange(0, i + 1).filter(keep) == (if keep(s[i]) {
            s.subrange(0, i).filter(keep).push(s[i])
        } else {
            s.subrange(0, i).filter(keep)
        }),
{
    reveal(Seq::filter);
    assert(s.subrange(0, i + 1).drop_last() =~= s.subrange(0, i));
}

/// The whole sequence as the last step of filtering from the front.
pub proof fn lemma_filter_ends<A>(s: Seq<A>, keep: spec_fn(A) -> bool)
    ensures
        s.subrange(0, 0).filter(keep) == Seq::<A>::empty(),
        s.subrange(0, s.len() as int) == s,
{
    reveal(Seq::filter);
    assert(s.subrange(0, 0) =~= Seq::<A>::empty());
    assert(s.subrange(0, s.len() as int) =~= s);
}

/// What is kept: the items that pass, and no others.
pub proof fn lemma_filter_elements<A>(s: Seq<A>, keep: spec_fn(A) -> bool)
    ensures
        forall|x: A| #[trigger] s.filter(keep).contains(x) <==> s.contains(x) && keep(x),
        s.filter(keep).len() <= s.len(),
        forall|i: int| 0 <= i < s.filter(keep).len() ==> keep(#[trigger] s.filter(keep)[i]),
        forall|i: int| 0 <= i < s.filter(keep).len() ==> s.contains(#[trigger] s.filter(keep)[i]),
    decreases s.len(),
{
    reveal(Seq::filter);
    if s.len() > 0 {
        let rest = s.drop_last();
        lemma_filter_elements(rest, keep);
        assert forall|x: A| #[trigger] s.filter(keep).contains(x) <==> s.contains(x) && keep(
            x,
        ) by {
            if s.filter(keep).contains(x) {
                let i = choose|i: int| 0 <= i < s.filter(keep).len() && s.filter(keep)[i] == x;
                if i < rest.filter(keep).len() {
                    assert(rest.filter(keep)[i] == x);
                    assert(rest.filter(keep).contains(x));
                    let j = choose|j: int| 0 <= j < rest.len() && rest[j] == x;
                    assert(s[j] == x);
                } else {
                    assert(s[s.len() - 1] == x);
                }
            }
            if s.contains(x) && keep(x) {
                let j = choose|j: int| 0 <= j < s.len() && s[j] == x;
                if j < s.len() - 1 {
                    assert(rest[j] == x);
                    assert(rest.filter(keep).contains(x));
                    let i = choose|i: int|
                        0 <= i < rest.filter(keep).len() && rest.filter(keep)[i] == x;
                    assert(s.filter(keep)[i] == x);
                } else {
                    assert(s.filter(keep)[s.filter(keep).len() - 1] == x);
                }
            }
        }
        assert forall|i: int| 0 <= i < s.filter(keep).len() implies keep(
            #[trigger] s.filter(keep)[i],
        ) && s.contains(s.filter(keep)[i]) by {
            assert(s.filter(keep).contains(s.filter(keep)[i]));
        }
    }
}

/// Filtering makes no duplicates.
pub proof fn lemma_filter_no_duplicates<A>(s: Seq<A>, keep: spec_fn(A) -> bool)
    requires
        s.no_duplicates(),
    ensures
        s.filter(keep).no_duplicates(),
    decreases s.len(),
{
    reveal(Seq::filter);
    if s.len() > 0 {
        let rest = s.drop_last();
        assert(rest.no_duplicates());
        lemma_filter_no_duplicates(rest, keep);
        lemma_filter_elements(rest, keep);
        if keep(s.last()) {
            assert forall|i: int| 0 <= i < rest.filter(keep).len() implies rest.filter(keep)[i]
                != s.last() by {
                let x = rest.filter(keep)[i];
                assert(rest.contains(x));
                let j = choose|j: int| 0 <= j < rest.len() && rest[j] == x;
                assert(s[j] == x);
            }
        }
    }
}

/// A filter that keeps every item changes nothing.
pub proof fn lemma_filter_all<A>(s: Seq<A>, keep: spec_fn(A) -> bool)
    requires
        forall|i: int| 0 <= i < s.len() ==> keep(#[trigger] s[i]),
    ensures
        s.filter(keep) == s,
    decreases s.len(),
{
    reveal(Seq::filter);
    if s.len() > 0 {
        lemma_filter_all(s.drop_last(), keep);
        assert(s.drop_last().push(s.last()) =~= s);
    }
}

/// A filter that leaves the number of items as it was has kept them all.
pub proof fn lemma_filter_same_length<A>(s: Seq<A>, keep: spec_fn(A) -> bool)
    requires
        s.filter(keep).len() == s.len(),
    ensures
        forall|i: int| 0 <= i < s.len() ==> keep(#[trigger] s[i]),
        s.filter(keep) == s,
    decreases s.len(),
{
    reveal(Seq::filter);
    if s.len() > 0 {
        let rest = s.drop_last();
        lemma_filter_elements(rest, keep);
        lemma_filter_same_length(rest, keep);
        assert(rest.push(s.last()) =~= s);
        assert forall|i: int| 0 <= i < s.len() implies keep(#[trigger] s[i]) by {
            if i < rest.len() {
                assert(rest[i] == s[i]);
            }
        }
    }
}

/// A test on images filters the images as it filters the items.
pub proof fn lemma_filter_map<A, B>(
    s: Seq<A>,
    f: spec_fn(A) -> B,
    keep: spec_fn(A) -> bool,
    keep_image: spec_fn(B) -> bool,
)
    requires
        forall|i: int| 0 <= i < s.len() ==> keep(#[trigger] s[i]) == keep_image(f(s[i])),
    ensures
        s.filter(keep).map_values(f) == s.map_values(f).filter(keep_image),
    decreases s.len(),
{
    reveal(Seq::filter);
    if s.len() == 0 {
        assert(s.filter(keep).map_values(f) =~= s.map_values(f).filter(keep_image));
    } else {
        let rest = s.drop_last();
        assert forall|i: int| 0 <= i < rest.len() implies keep(#[trigger] rest[i]) == keep_image(
            f(rest[i]),
        ) by {
            assert(rest[i] == s[i]);
        }
        lemma_filter_map(rest, f, keep, keep_image);
        assert(s.map_values(f).drop_last() =~= rest.map_values(f));
        assert(s.map_values(f).last() == f(s.last()));
        assert(keep(s[s.len() - 1]) == keep_image(f(s[s.len() - 1])));
        assert(s.filter(keep).map_values(f) =~= s.map_values(f).filter(keep_image));
    }
}

/// Two tests that agree on the items of a sequence keep the same of them.
pub proof fn lemma_filter_agrees<A>(
    s: Seq<A>,
    keep: spec_fn(A) -> bool,
    other: spec_fn(A) -> bool,
)
    requires
        forall|i: int| 0 <= i < s.len() ==> keep(#[trigger] s[i]) == other(s[i]),
    ensures
        s.filter(keep) == s.filter(other),
    decreases s.len(),
{
    reveal(Seq::filter);
    if s.len() > 0 {
        let rest = s.drop_last();
        assert forall|i: int| 0 <= i < rest.len() implies keep(#[trigger] rest[i]) == other(
            rest[i],
        ) by {
            assert(rest[i] == s[i]);
        }
        lemma_filter_agrees(rest, keep, other);
        assert(keep(s[s.len() - 1]) == other(s[s.len() - 1]));
    }
}

/// The places of a sequence of some length, from the first to the last.
pub open spec fn places(length: nat) -> Seq<int> {
    Seq::new(length, |i: int| i)
}

/// One more place that is tested.
pub proof fn lemma_places_step(length: nat, keep: spec_fn(int) -> bool)
    requires
        length > 0,
    ensures
        places(length).filter(keep) == (if keep(length - 1) {
            places((length - 1) as nat).filter(keep).push(length - 1)
        } else {
            places((length - 1) as nat).filter(keep)
        }),
        places(0).filter(keep) == Seq::<int>::empty(),
{
    reveal(Seq::filter);
    assert(places(length).drop_last() =~= places((length - 1) as nat));
    assert(places(length).last() == length - 1);
}

} // verus!
