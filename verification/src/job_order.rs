//! The order in which jobs are listed: the newest first, and jobs of the same
//! time by identifier.

use crate::jobs::BackgroundJobSnapshot;
use crate::text::chars_of;
use vstd::multiset::Multiset;
use vstd::prelude::*;
use vstd::string::*;

verus! {

/// Whether a text stands before another one or is the same, character by
/// character.
pub open spec fn text_at_most(a: Seq<char>, b: Seq<char>) -> bool
    decreases a.len(),
{
    if a.len() == 0 {
        true
    } else if b.len() == 0 {
        false
    } else if a[0] == b[0] {
        text_at_most(a.drop_first(), b.drop_first())
    } else {
        a[0] < b[0]
    }
}

/// Whether a job may be listed before another one.
pub open spec fn listed_before(a: BackgroundJobSnapshot, b: BackgroundJobSnapshot) -> bool {
    a.created_at > b.created_at || (a.created_at == b.created_at && text_at_most(a.id@, b.id@))
}

/// A list with one more job, behind all jobs that may be listed before it.
pub open spec fn with_job(list: Seq<BackgroundJobSnapshot>, job: BackgroundJobSnapshot) -> Seq<
    BackgroundJobSnapshot,
>
    decreases list.len(),
{
    if list.len() == 0 || listed_before(list.last(), job) {
        list.push(job)
    } else {
        with_job(list.drop_last(), job).push(list.last())
    }
}

/// Jobs in the order in which they are listed.
pub open spec fn in_order(jobs: Seq<BackgroundJobSnapshot>) -> Seq<BackgroundJobSnapshot>
    decreases jobs.len(),
{
    if jobs.len() == 0 {
        Seq::empty()
    } else {
        with_job(in_order(jobs.drop_last()), jobs.last())
    }
}

/// Whether a list is in order.
pub open spec fn is_ordered(list: Seq<BackgroundJobSnapshot>) -> bool {
    forall|i: int, j: int| 0 <= i < j < list.len() ==> listed_before(list[i], list[j])
}

fn at_most(a: &Vec<char>, b: &Vec<char>) -> (r: bool)
    ensures
        r == text_at_most(a@, b@),
{
    let mut i: usize = 0;
    assert(a@.subrange(0, a@.len() as int) =~= a@);
    assert(b@.subrange(0, b@.len() as int) =~= b@);
    while i < a.len() && i < b.len()
        invariant
            i <= a@.len(),
            i <= b@.len(),
            text_at_most(
                a@.subrange(i as int, a@.len() as int),
                b@.subrange(i as int, b@.len() as int),
            ) == text_at_most(a@, b@),
        decreases a@.len() - i,
    {
        let ghost x = a@.subrange(i as int, a@.len() as int);
        let ghost y = b@.subrange(i as int, b@.len() as int);
        assert(x.drop_first() =~= a@.subrange(i + 1, a@.len() as int));
        assert(y.drop_first() =~= b@.subrange(i + 1, b@.len() as int));
        if a[i] != b[i] {
            return a[i] < b[i];
        }
        i = i + 1;
    }
    i == a.len()
}

fn goes_before(a: &BackgroundJobSnapshot, b: &BackgroundJobSnapshot) -> (r: bool)
    ensures
        r == listed_before(*a, *b),
{
    a.created_at > b.created_at || (a.created_at == b.created_at && at_most(
        &chars_of(a.id.as_str()),
        &chars_of(b.id.as_str()),
    ))
}

proof fn lemma_with_job_at(
    list: Seq<BackgroundJobSnapshot>,
    job: BackgroundJobSnapshot,
    at: int,
)
    requires
        0 <= at <= list.len(),
        at > 0 ==> listed_before(list[at - 1], job),
        forall|i: int| at <= i < list.len() ==> !listed_before(#[trigger] list[i], job),
    ensures
        with_job(list, job) == list.insert(at, job),
    decreases list.len(),
{
    if at == list.len() {
        assert(list.insert(at, job) =~= list.push(job));
    } else {
        let rest = list.drop_last();
        assert(!listed_before(list[list.len() - 1], job));
        assert forall|i: int| at <= i < rest.len() implies !listed_before(
            #[trigger] rest[i],
            job,
        ) by {
            assert(rest[i] == list[i]);
        }
        lemma_with_job_at(rest, job, at);
        assert(list.insert(at, job) =~= rest.insert(at, job).push(list.last()));
    }
}

/// Puts jobs in the order in which they are listed.
pub fn sort_jobs(jobs: Vec<BackgroundJobSnapshot>) -> (r: Vec<BackgroundJobSnapshot>)
    ensures
        r@ == in_order(jobs@),
{
    let mut list: Vec<BackgroundJobSnapshot> = Vec::new();
    let mut i: usize = 0;
    assert(jobs@.subrange(0, 0) =~= Seq::<BackgroundJobSnapshot>::empty());
    while i < jobs.len()
        invariant
            i <= jobs@.len(),
            list@ == in_order(jobs@.subrange(0, i as int)),
        decreases jobs@.len() - i,
    {
        assert(jobs@.subrange(0, i + 1).drop_last() =~= jobs@.subrange(0, i as int));
        let mut at: usize = list.len();
        while at > 0 && !goes_before(&list[at - 1], &jobs[i])
            invariant
                at <= list@.len(),
                i < jobs@.len(),
                forall|k: int|
                    at <= k < list@.len() ==> !listed_before(#[trigger] list@[k], jobs@[i as int]),
            decreases at,
        {
            at = at - 1;
        }
        proof {
            lemma_with_job_at(list@, jobs@[i as int], at as int);
        }
        list.insert(at, jobs[i].clone());
        i = i + 1;
    }
    assert(jobs@.subrange(0, jobs@.len() as int) =~= jobs@);
    list
}

// ---------------------------------------------------------------------------
// Laws
// ---------------------------------------------------------------------------

proof fn lemma_text_order(a: Seq<char>, b: Seq<char>, c: Seq<char>)
    ensures
        text_at_most(a, b) || text_at_most(b, a),
        text_at_most(a, b) && text_at_most(b, c) ==> text_at_most(a, c),
        text_at_most(a, b) && text_at_most(b, a) ==> a == b,
    decreases a.len() + b.len() + c.len(),
{
    if a.len() > 0 && b.len() > 0 && a[0] == b[0] {
        lemma_text_order(a.drop_first(), b.drop_first(), c);
        if a.drop_first() == b.drop_first() {
            assert(a =~= seq![a[0]] + a.drop_first());
            assert(b =~= seq![b[0]] + b.drop_first());
        }
        if c.len() > 0 && c[0] == b[0] {
            lemma_text_order(a.drop_first(), b.drop_first(), c.drop_first());
        }
    } else if a.len() == 0 && b.len() == 0 {
        assert(a =~= b);
    }
}

/// Of two jobs one may always be listed before the other, and the order carries
/// over from one pair to the next.
pub proof fn jobs_can_always_be_ordered(
    a: BackgroundJobSnapshot,
    b: BackgroundJobSnapshot,
    c: BackgroundJobSnapshot,
)
    ensures
        listed_before(a, b) || listed_before(b, a),
        listed_before(a, b) && listed_before(b, c) ==> listed_before(a, c),
{
    lemma_text_order(a.id@, b.id@, c.id@);
}

/// The list is in order and holds exactly the jobs that there are.
pub proof fn the_list_is_ordered_and_complete(jobs: Seq<BackgroundJobSnapshot>)
    ensures
        is_ordered(in_order(jobs)),
        in_order(jobs).to_multiset() == jobs.to_multiset(),
    decreases jobs.len(),
{
    if jobs.len() > 0 {
        the_list_is_ordered_and_complete(jobs.drop_last());
        lemma_with_job(in_order(jobs.drop_last()), jobs.last());
        assert(jobs.drop_last().push(jobs.last()) =~= jobs);
        vstd::seq_lib::lemma_multiset_commutative(jobs.drop_last(), seq![jobs.last()]);
        jobs.drop_last().to_multiset_ensures();
        in_order(jobs.drop_last()).to_multiset_ensures();
    } else {
        assert(in_order(jobs) =~= jobs);
    }
}

proof fn lemma_with_job(list: Seq<BackgroundJobSnapshot>, job: BackgroundJobSnapshot)
    requires
        is_ordered(list),
    ensures
        is_ordered(with_job(list, job)),
        with_job(list, job).to_multiset() == list.to_multiset().insert(job),
    decreases list.len(),
{
    list.to_multiset_ensures();
    let after = with_job(list, job);
    if list.len() == 0 || listed_before(list.last(), job) {
        assert forall|i: int, j: int| 0 <= i < j < after.len() implies listed_before(
            after[i],
            after[j],
        ) by {
            if j == list.len() {
                if i < list.len() - 1 {
                    assert(listed_before(list[i], list[list.len() - 1]));
                }
                jobs_can_always_be_ordered(list[i], list.last(), job);
            }
        }
    } else {
        let rest = list.drop_last();
        let last = list.last();
        assert(is_ordered(rest));
        lemma_with_job(rest, job);
        let moved = with_job(rest, job);
        rest.to_multiset_ensures();
        moved.to_multiset_ensures();
        assert(rest.push(last) =~= list);
        assert(after.to_multiset() =~= list.to_multiset().insert(job));
        assert forall|i: int, j: int| 0 <= i < j < after.len() implies listed_before(
            after[i],
            after[j],
        ) by {
            if j == moved.len() {
                assert(after[i] == moved[i]);
                assert(moved.to_multiset().contains(moved[i]));
                if moved[i] == job {
                    jobs_can_always_be_ordered(job, last, last);
                } else {
                    assert(rest.to_multiset().contains(moved[i]));
                    assert(rest.contains(moved[i]));
                    let k = choose|k: int| 0 <= k < rest.len() && rest[k] == moved[i];
                    assert(listed_before(list[k], list[list.len() - 1]));
                }
            }
        }
    }
}

proof fn lemma_first_difference(a: Seq<char>, b: Seq<char>)
    requires
        text_at_most(a, b),
        a != b,
    ensures
        exists|k: int|
            0 <= k <= a.len() && k < b.len() && #[trigger] a.subrange(0, k) == b.subrange(0, k) && (
            k < a.len() ==> a[k] < b[k]),
    decreases a.len(),
{
    if a.len() == 0 || b.len() == 0 || a[0] != b[0] {
        if b.len() == 0 {
            assert(a =~= b);
        }
        assert(a.subrange(0, 0) =~= b.subrange(0, 0));
    } else {
        let x = a.drop_first();
        let y = b.drop_first();
        if x == y {
            assert(a =~= seq![a[0]] + x);
            assert(b =~= seq![b[0]] + y);
        }
        lemma_first_difference(x, y);
        let k = choose|k: int|
            0 <= k <= x.len() && k < y.len() && #[trigger] x.subrange(0, k) == y.subrange(0, k) && (
            k < x.len() ==> x[k] < y[k]);
        assert(a.subrange(0, k + 1) =~= b.subrange(0, k + 1)) by {
            assert forall|m: int| 0 <= m < k + 1 implies a[m] == b[m] by {
                if m > 0 {
                    assert(x.subrange(0, k)[m - 1] == y.subrange(0, k)[m - 1]);
                }
            }
        }
    }
}

/// The list is as long as the jobs are many. A job further up was created no
/// earlier than one further down; where both were created at the same time, the
/// identifier of the first one is the smaller one: it has the smaller character
/// where the two first differ, or the other one goes on where it ends.
pub proof fn newer_jobs_stand_further_up(jobs: Seq<BackgroundJobSnapshot>, i: int, j: int)
    requires
        0 <= i < j < jobs.len(),
    ensures
        in_order(jobs).len() == jobs.len(),
        in_order(jobs)[i].created_at >= in_order(jobs)[j].created_at,
        in_order(jobs)[i].created_at == in_order(jobs)[j].created_at && in_order(jobs)[i].id@
            != in_order(jobs)[j].id@ ==> exists|k: int|
            0 <= k <= in_order(jobs)[i].id@.len() && k < in_order(jobs)[j].id@.len()
                && #[trigger] in_order(jobs)[i].id@.subrange(0, k) == in_order(
                jobs,
            )[j].id@.subrange(0, k) && (k < in_order(jobs)[i].id@.len() ==> in_order(
                jobs,
            )[i].id@[k] < in_order(jobs)[j].id@[k]),
{
    the_list_is_ordered_and_complete(jobs);
    in_order(jobs).to_multiset_ensures();
    jobs.to_multiset_ensures();
    let a = in_order(jobs)[i];
    let b = in_order(jobs)[j];
    assert(listed_before(a, b));
    if a.created_at == b.created_at && a.id@ != b.id@ {
        lemma_first_difference(a.id@, b.id@);
    }
}

/// Every job that was read is on the list, as often as it was read, and no other.
pub proof fn every_job_is_listed(jobs: Seq<BackgroundJobSnapshot>, job: BackgroundJobSnapshot)
    ensures
        in_order(jobs).contains(job) <==> jobs.contains(job),
        in_order(jobs).to_multiset().count(job) == jobs.to_multiset().count(job),
{
    the_list_is_ordered_and_complete(jobs);
    in_order(jobs).to_multiset_ensures();
    jobs.to_multiset_ensures();
    assert(in_order(jobs).contains(job) <==> in_order(jobs).to_multiset().count(job) > 0);
    assert(jobs.contains(job) <==> jobs.to_multiset().count(job) > 0);
}

/// Jobs that are already listed newest first stay where they are, so that no row
/// moves when the same jobs are read again.
pub proof fn a_list_in_order_stays(jobs: Seq<BackgroundJobSnapshot>)
    requires
        forall|i: int, j: int|
            0 <= i < j < jobs.len() ==> jobs[i].created_at > jobs[j].created_at || (
            jobs[i].created_at == jobs[j].created_at && jobs[i].id@ == jobs[j].id@),
    ensures
        in_order(jobs) == jobs,
    decreases jobs.len(),
{
    if jobs.len() > 0 {
        let rest = jobs.drop_last();
        a_list_in_order_stays(rest);
        if rest.len() > 0 {
            assert(rest.last() == jobs[jobs.len() - 2]);
            lemma_text_order(rest.last().id@, rest.last().id@, rest.last().id@);
        }
        assert(rest.push(jobs.last()) =~= jobs);
    } else {
        assert(in_order(jobs) =~= jobs);
    }
}

} // verus!
