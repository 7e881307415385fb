//! What holds of the window of background jobs, whatever is done with it.

use crate::block_detail::{BlockDetailTab, TranslationBlockDetail, TranslationBlockProbe};
use crate::block_pages::{
    a_page_holds_its_items_in_order, page_count, page_of, there_are_as_many_pages_as_needed,
};
use crate::job_order::{in_order, newer_jobs_stand_further_up, the_list_is_ordered_and_complete};
use crate::jobs::{
    a_job_is_found_by_what_it_is, action_name, lower_case, passes_kind, BackgroundJobAction,
    BackgroundJobBook, BackgroundJobSnapshot,
};
use crate::jobs_window::{
    action_notice, job_with_id, passing, retry_notice, wrapped_next, BlockDetailStateView,
    DetailTab, JobsSignalView, JobsView, JOBS_PER_PAGE,
};
use crate::text::{contains_text, decimal, trimmed};
use vstd::prelude::*;

verus! {

impl JobsView {
    /// Whether what is shown of a job is shown of the job that is looked at.
    pub open spec fn details_belong_to_the_job(self) -> bool {
        &&& self.page >= 0
        &&& self.blocks_job is Some ==> self.blocks_job == self.selected
        &&& self.block_detail is Some ==> self.selected == Some(self.block_detail->0.job_id)
            && self.block_detail->0.generation == self.block_views
    }

    /// Whether a page that there is is shown, with a job on it looked at unless
    /// there is none.
    pub open spec fn looks_at_what_it_shows(self) -> bool {
        &&& self.page == self.shown_page()
        &&& match self.selected {
            Some(id) => self.shown_ids().contains(id),
            None => self.filtered().len() == 0,
        }
    }
}

proof fn lemma_same_filter(a: JobsView, b: JobsView)
    requires
        a.books == b.books,
        a.kind == b.kind,
        a.status == b.status,
        a.query == b.query,
        a.jobs == b.jobs,
    ensures
        a.filtered() == b.filtered(),
{
    assert(passing(a) =~= passing(b));
}

proof fn lemma_shown_page(window: JobsView)
    requires
        window.page >= 0,
    ensures
        window.shown_page() >= 0,
        window.filtered().len() > 0 ==> window.shown_ids().len() > 0,
        window.filtered().len() == 0 ==> window.shown_ids().len() == 0,
{
    let n = window.filtered().len() as int;
    let size = JOBS_PER_PAGE as int;
    let last = page_count(n, size) - 1;
    assert(last >= 0 && (n > 0 ==> last * size < n)) by {
        if n > size {
            assert((n + size - 1) / size >= 1) by (nonlinear_arith)
                requires
                    n > size,
                    size > 0,
            ;
            assert(((n + size - 1) / size - 1) * size < n) by (nonlinear_arith)
                requires
                    n > size,
                    size > 0,
            ;
        }
    }
    let page = window.shown_page();
    assert(n > 0 ==> page * size < n) by (nonlinear_arith)
        requires
            0 <= page <= last,
            size > 0,
            n > 0 ==> last * size < n,
    ;
    assert(page * size >= 0) by (nonlinear_arith)
        requires
            page >= 0,
            size > 0,
    ;
}

/// After the filters, the jobs or the page have changed, the window shows a page
/// that there is, and looks at a job on it unless there is none. A job that is
/// still on the page stays looked at.
pub proof fn the_window_looks_at_what_it_shows(window: JobsView)
    requires
        window.page >= 0,
    ensures
        window.reconciled().looks_at_what_it_shows(),
        window.selected is Some && window.shown_ids().contains(window.selected->0)
            ==> window.reconciled().selected == window.selected,
{
    let after = window.reconciled();
    lemma_same_filter(window, after);
    lemma_shown_page(window);
    assert(after.page == window.shown_page());
    assert(after.shown_page() == after.page);
    assert(after.shown_ids() == window.shown_ids());
    assert(after.selected == window.wanted_selection());
    if window.filtered().len() > 0
        && !(window.selected is Some && window.shown_ids().contains(window.selected->0)) {
        assert(window.shown_ids().contains(window.shown_ids()[0]));
    }
    if window.selected is Some && window.shown_ids().contains(window.selected->0) {
        assert(window.shown_ids().len() > 0);
    }
}

proof fn lemma_reading_keeps_details(window: JobsView)
    requires
        window.details_belong_to_the_job(),
    ensures
        window.reading_detail().details_belong_to_the_job(),
        window.reading_detail().selected == window.selected,
        window.reading_detail().page == window.page,
        window.refreshing().details_belong_to_the_job(),
{
}

/// Whatever is read, filtered or asked for, what is shown of a job is shown of the
/// job that is looked at.
pub proof fn details_belong_to_the_job_looked_at(
    window: JobsView,
    jobs: Seq<BackgroundJobSnapshot>,
    books: Seq<BackgroundJobBook>,
    text: Seq<char>,
    id: Option<Seq<char>>,
    tab: DetailTab,
    scope: u64,
    notice: (Seq<char>, bool),
)
    requires
        window.details_belong_to_the_job(),
    ensures
        JobsView::initial(books, text).details_belong_to_the_job(),
        window.selecting(id).reading_detail().details_belong_to_the_job(),
        (JobsView { tab, ..window }).reading_detail().details_belong_to_the_job(),
        window.reconciled().details_belong_to_the_job(),
        window.refiltered().details_belong_to_the_job(),
        window.with_jobs(jobs).details_belong_to_the_job(),
        window.with_refresh_error(text).details_belong_to_the_job(),
        window.rescoped(books, text).details_belong_to_the_job(),
        window.settled(scope, notice).details_belong_to_the_job(),
        window.retried(scope, notice).details_belong_to_the_job(),
{
    lemma_reading_keeps_details(window.selecting(id));
    lemma_reading_keeps_details(JobsView { tab, ..window });
    lemma_shown_page(window);
    let filtered = (JobsView { page: 0, ..window }).telling(JobsSignalView::ScrollListToTop);
    lemma_shown_page(filtered);
    lemma_reading_keeps_details(filtered.reconciled());
    let read = JobsView {
        loading: false,
        refresh_error: None,
        jobs: crate::job_order::in_order(jobs),
        loaded: true,
        ..window
    };
    lemma_shown_page(read);
    lemma_reading_keeps_details(read.reconciled());
}

/// What was asked for before the books changed does not arrive any more: jobs,
/// logs and blocks that come late are for numbers that are no longer awaited.
pub proof fn a_change_of_books_drops_what_was_awaited(
    window: JobsView,
    books: Seq<BackgroundJobBook>,
    label: Seq<char>,
)
    ensures
        window.rescoped(books, label).refresh_generation != window.refresh_generation,
        window.rescoped(books, label).logs_generation != window.logs_generation,
        window.rescoped(books, label).blocks_generation != window.blocks_generation,
        window.rescoped(books, label).jobs.len() == 0,
        window.rescoped(books, label).selected is None,
        window.rescoped(books, label).loading,
{
}

/// Looking at another job drops what was awaited for the one before.
pub proof fn another_job_drops_what_was_awaited(window: JobsView, id: Option<Seq<char>>)
    requires
        window.selected != id,
    ensures
        window.selecting(id).logs_generation != window.logs_generation,
        window.selecting(id).blocks_generation != window.blocks_generation,
        window.selecting(id).logs is None,
        window.selecting(id).blocks is None,
        window.selecting(id).block_detail is None,
{
}

/// The views on blocks keep what is shown of a job with the job that is looked at,
/// and the view that is open has the last number.
pub proof fn views_on_blocks_belong_to_the_job_looked_at(
    window: JobsView,
    ordinal: usize,
    failed: bool,
    generation: u64,
    tab: BlockDetailTab,
    detail: Result<TranslationBlockDetail, String>,
    probe: Result<TranslationBlockProbe, String>,
)
    requires
        window.details_belong_to_the_job(),
    ensures
        window.opened_block(ordinal, failed).details_belong_to_the_job(),
        window.block_read(ordinal, generation, detail).details_belong_to_the_job(),
        window.probing_block().details_belong_to_the_job(),
        window.block_probed(ordinal, generation, probe).details_belong_to_the_job(),
        window.on_block_tab(tab).details_belong_to_the_job(),
        window.closed_block().details_belong_to_the_job(),
{
}

/// The number of the last view on a block moves on whenever one is opened, and is
/// kept by everything else: closing it, looking at another job, reading anew,
/// filtering, another set of books.
pub proof fn the_number_of_views_only_moves_on(
    window: JobsView,
    ordinal: usize,
    failed: bool,
    generation: u64,
    tab: BlockDetailTab,
    detail: Result<TranslationBlockDetail, String>,
    probe: Result<TranslationBlockProbe, String>,
    id: Option<Seq<char>>,
    jobs: Seq<BackgroundJobSnapshot>,
    books: Seq<BackgroundJobBook>,
    text: Seq<char>,
    scope: u64,
    notice: (Seq<char>, bool),
)
    ensures
        window.opened_block(ordinal, failed).block_views == (if window.selected is Some {
            wrapped_next(window.block_views)
        } else {
            window.block_views
        }),
        window.block_read(ordinal, generation, detail).block_views == window.block_views,
        window.probing_block().block_views == window.block_views,
        window.block_probed(ordinal, generation, probe).block_views == window.block_views,
        window.on_block_tab(tab).block_views == window.block_views,
        window.closed_block().block_views == window.block_views,
        window.selecting(id).reading_detail().block_views == window.block_views,
        window.refiltered().block_views == window.block_views,
        window.with_jobs(jobs).block_views == window.block_views,
        window.with_refresh_error(text).block_views == window.block_views,
        window.rescoped(books, text).block_views == window.block_views,
        window.settled(scope, notice).block_views == window.block_views,
        window.retried(scope, notice).block_views == window.block_views,
{
}

/// The number of the last view after some more were opened.
pub open spec fn number_after(number: u64, opened: nat) -> u64
    decreases opened,
{
    if opened == 0 {
        number
    } else {
        wrapped_next(number_after(number, (opened - 1) as nat))
    }
}

proof fn lemma_number_after(number: u64, opened: nat)
    ensures
        number_after(number, opened) == (number + opened) % 0x1_0000_0000_0000_0000,
    decreases opened,
{
    if opened > 0 {
        lemma_number_after(number, (opened - 1) as nat);
    }
}

/// What comes late for the view on a block changes nothing: neither once the view
/// is closed, nor once another one is open, on the same block or another, of the
/// same job or another. `opened` is how many views were opened since.
pub proof fn a_late_answer_for_a_block_changes_nothing(
    number: u64,
    opened: nat,
    later: JobsView,
    ordinal: usize,
    detail: Result<TranslationBlockDetail, String>,
    probe: Result<TranslationBlockProbe, String>,
)
    requires
        later.details_belong_to_the_job(),
        later.block_views == number_after(number, opened),
        opened <= u64::MAX,
        later.block_detail is None || opened > 0,
    ensures
        later.block_read(ordinal, number, detail) == later,
        later.block_probed(ordinal, number, probe) == later,
{
    lemma_number_after(number, opened);
}

/// Blocks that were asked for again leave the job, its log and the open part in
/// view; only the blocks are read anew.
pub proof fn retrying_blocks_keeps_the_log(
    window: JobsView,
    scope: u64,
    notice: (Seq<char>, bool),
)
    ensures
        window.retried(scope, notice).selected == window.selected,
        window.retried(scope, notice).tab == window.tab,
        window.retried(scope, notice).logs == window.logs,
        window.retried(scope, notice).blocks is None,
        window.retried(scope, notice).pending is None,
{
}

// ---------------------------------------------------------------------------
// What is listed
// ---------------------------------------------------------------------------

/// The list holds those of the jobs that pass the filters, all of them and in the
/// order of the jobs: those whose kind passes, whose status is the one that is asked
/// for, and whose identifier or book the query is found in, without the white space
/// around it and in lower case.
pub proof fn the_list_holds_what_passes_the_filters(
    window: JobsView,
    keep: spec_fn(BackgroundJobSnapshot) -> bool,
)
    requires
        forall|job: BackgroundJobSnapshot| #[trigger]
            keep(job) <==> {
                let query = lower_case(trimmed(window.query));
                &&& passes_kind(job.kind@, window.kind)
                &&& window.status is Some ==> job.status == window.status->0
                &&& query.len() == 0 || contains_text(lower_case(job.id@), query) || exists|b: int|
                    0 <= b < window.books.len() && (#[trigger] window.books[b]).id@ == job.book_id@
                        && contains_text(lower_case(window.books[b].title@), query)
            },
    ensures
        window.filtered() == window.jobs.filter(keep),
{
    let query = lower_case(trimmed(window.query));
    assert forall|job: BackgroundJobSnapshot| #[trigger] keep(job) == passing(window)(job) by {
        a_job_is_found_by_what_it_is(job, window.books, window.kind, window.status, query);
        a_job_is_found_by_what_it_is(job, window.books, window.kind, window.status, Seq::empty());
    }
    assert(keep =~= passing(window));
}

/// The page that is shown is the one that was turned to, or the last one where there
/// are not so many; it shows twelve jobs at most, from its own place in the list on
/// and in the order of the list.
pub proof fn a_page_shows_its_part_of_the_list(window: JobsView, k: int)
    requires
        window.page >= 0,
    ensures
        window.shown_page() <= window.page,
        window.page * 12 < window.filtered().len() ==> window.shown_page() == window.page,
        window.shown_page() < window.page ==> (window.shown_page() + 1) * 12
            >= window.filtered().len(),
        window.shown_ids().len() <= 12,
        0 <= k < 12 && window.shown_page() * 12 + k < window.filtered().len() ==> k
            < window.shown_ids().len() && window.shown_ids()[k]
            == window.filtered()[window.shown_page() * 12 + k].id@,
        0 <= k < window.shown_ids().len() ==> window.shown_page() * 12 + k
            < window.filtered().len(),
{
    let n = window.filtered().len() as int;
    let pages = page_count(n, 12);
    there_are_as_many_pages_as_needed(n, 12);
    lemma_shown_page(window);
    let shown = page_of(window.filtered(), window.shown_page(), 12);
    if 0 <= k < shown.len() {
        a_page_holds_its_items_in_order(window.filtered(), 12, window.shown_page(), k);
    }
    if shown.len() > 0 {
        a_page_holds_its_items_in_order(window.filtered(), 12, window.shown_page(), 0);
    }
}

/// Jobs that were read are all listed, the newest first; nothing that was entered,
/// asked for or noted changes, and an earlier error is gone.
pub proof fn jobs_that_were_read_are_listed(
    window: JobsView,
    jobs: Seq<BackgroundJobSnapshot>,
    i: int,
    j: int,
)
    ensures
        ({
            let after = window.with_jobs(jobs);
            &&& after.jobs.len() == jobs.len()
            &&& after.jobs.to_multiset() == jobs.to_multiset()
            &&& 0 <= i < j < jobs.len() ==> after.jobs[i].created_at >= after.jobs[j].created_at
            &&& after.loaded
            &&& !after.loading
            &&& after.refresh_error is None
            &&& after.books == window.books
            &&& after.kind == window.kind
            &&& after.status == window.status
            &&& after.query == window.query
            &&& after.tab == window.tab
            &&& after.pending == window.pending
            &&& after.notice == window.notice
            &&& after.auto_refresh == window.auto_refresh
            &&& after.scope_generation == window.scope_generation
            &&& after.refresh_generation == window.refresh_generation
            &&& after.outbox.last() == JobsSignalView::Notify
        }),
{
    the_list_is_ordered_and_complete(jobs);
    in_order(jobs).to_multiset_ensures();
    jobs.to_multiset_ensures();
    if 0 <= i < j < jobs.len() {
        newer_jobs_stand_further_up(jobs, i, j);
    }
}

/// Where jobs cannot be read, those that are listed stay, with why.
pub proof fn a_failed_refresh_keeps_the_list(window: JobsView, error: Seq<char>)
    ensures
        ({
            let after = window.with_refresh_error(error);
            &&& after.jobs == window.jobs
            &&& after.selected == window.selected
            &&& after.page == window.page
            &&& after.loaded == window.loaded
            &&& !after.loading
            &&& after.refresh_error == Some("无法刷新后台任务："@ + error)
            &&& after.notice == window.notice
            &&& after.logs == window.logs
            &&& after.blocks == window.blocks
            &&& after.outbox == window.outbox.push(JobsSignalView::Notify)
        }),
{
}

/// Jobs are asked for unless that is under way, for all books and under a new
/// number; nothing else changes.
pub proof fn a_refresh_asks_for_all_books(window: JobsView, i: int)
    requires
        0 <= i < window.books.len(),
    ensures
        window.loading ==> window.refreshing() == window,
        !window.loading ==> {
            let after = window.refreshing();
            let n = window.outbox.len() as int;
            &&& after == (JobsView {
                loading: true,
                refresh_generation: after.refresh_generation,
                outbox: after.outbox,
                ..window
            })
            &&& after.refresh_generation != window.refresh_generation
            &&& after.outbox.len() == n + 2
            &&& after.outbox.subrange(0, n) == window.outbox
            &&& after.outbox[n + 1] == JobsSignalView::Notify
            &&& after.outbox[n] matches JobsSignalView::LoadJobs(generation, ids)
            && generation == after.refresh_generation && ids.len() == window.books.len() && ids[i]
                == window.books[i].id@
        },
{
    let n = window.outbox.len() as int;
    assert(window.refreshing().outbox.subrange(0, n) =~= window.outbox || window.loading);
}

/// Another set of books takes the place of the one before with nothing left of the
/// jobs; the filters, the part in view and what is under way stay.
pub proof fn a_change_of_books_starts_anew(
    window: JobsView,
    books: Seq<BackgroundJobBook>,
    label: Seq<char>,
)
    ensures
        ({
            let after = window.rescoped(books, label);
            &&& after.books == books
            &&& after.scope_label == label
            &&& after.scope_generation != window.scope_generation
            &&& after.jobs.len() == 0
            &&& after.page == 0
            &&& !after.loaded
            &&& after.loading
            &&& after.notice is None
            &&& after.refresh_error is None
            &&& after.logs is None
            &&& after.logs_error is None
            &&& after.blocks is None
            &&& after.block_detail is None
            &&& after.kind == window.kind
            &&& after.status == window.status
            &&& after.query == window.query
            &&& after.tab == window.tab
            &&& after.auto_refresh == window.auto_refresh
            &&& after.pending == window.pending
            &&& after.outbox.len() > 1
            &&& after.outbox[after.outbox.len() - 2] == JobsSignalView::LoadJobs(
                after.refresh_generation,
                books.map_values(|b: BackgroundJobBook| b.id@),
            )
        }),
{
}

// ---------------------------------------------------------------------------
// What is read for the job that is looked at
// ---------------------------------------------------------------------------

/// The log is asked for exactly where a part of the window shows it, a job is looked
/// at and the log is not under way; under a new number and for that job.
pub proof fn the_log_is_read_where_it_is_shown(window: JobsView)
    ensures
        ({
            let after = window.reading_logs();
            let wanted = (window.tab == DetailTab::Logs || window.tab == DetailTab::Blocks)
                && !window.logs_loading && window.selected is Some;
            &&& !wanted ==> after == window
            &&& wanted ==> after == (JobsView {
                logs_loading: true,
                logs_generation: after.logs_generation,
                outbox: window.outbox.push(
                    JobsSignalView::LoadLogs(
                        after.logs_generation,
                        window.selected->0,
                        window.books.map_values(|b: BackgroundJobBook| b.id@),
                    ),
                ),
                ..window
            }) && after.logs_generation != window.logs_generation
        }),
{
}

/// Blocks are asked for exactly where they are shown, of a translation that is
/// looked at, once; under a new number.
pub proof fn blocks_are_read_once_where_they_are_shown(window: JobsView, at: int)
    requires
        0 <= at < window.jobs.len(),
        window.selected == Some(window.jobs[at].id@),
        forall|k: int| 0 <= k < at ==> (#[trigger] window.jobs[k]).id@ != window.jobs[at].id@,
    ensures
        ({
            let after = window.reading_blocks();
            let wanted = window.tab == DetailTab::Blocks && !window.blocks_loading
                && window.jobs[at].kind@ == "translation"@ && window.blocks_job != window.selected;
            &&& !wanted ==> after == window
            &&& wanted ==> after == (JobsView {
                blocks_loading: true,
                blocks_job: window.selected,
                blocks_generation: after.blocks_generation,
                outbox: window.outbox.push(
                    JobsSignalView::LoadBlocks(
                        after.blocks_generation,
                        window.selected->0,
                        window.books.map_values(|b: BackgroundJobBook| b.id@),
                    ),
                ),
                ..window
            }) && after.blocks_generation != window.blocks_generation
        }),
{
    lemma_job_with_id(window.jobs, window.jobs[at].id@, at);
}

/// The job that an identifier names is the first one that has it.
pub proof fn lemma_job_with_id(jobs: Seq<BackgroundJobSnapshot>, id: Seq<char>, at: int)
    requires
        0 <= at < jobs.len(),
        jobs[at].id@ == id,
        forall|k: int| 0 <= k < at ==> (#[trigger] jobs[k]).id@ != id,
    ensures
        job_with_id(jobs, id) == Some(jobs[at]),
    decreases jobs.len(),
{
    if at > 0 {
        let rest = jobs.drop_first();
        assert forall|k: int| 0 <= k < at - 1 implies (#[trigger] rest[k]).id@ != id by {
            assert(rest[k] == jobs[k + 1]);
        }
        lemma_job_with_id(rest, id, at - 1);
    }
}

/// Looking at a job changes what is looked at and nothing of the list; looking at the
/// same job again changes nothing.
pub proof fn looking_at_a_job_keeps_the_list(window: JobsView, id: Option<Seq<char>>)
    ensures
        window.selecting(id).selected == id,
        window.selecting(id).jobs == window.jobs,
        window.selecting(id).page == window.page,
        window.selecting(id).tab == window.tab,
        window.selecting(id).kind == window.kind,
        window.selecting(id).status == window.status,
        window.selecting(id).query == window.query,
        window.selecting(id).pending == window.pending,
        window.selecting(id).notice == window.notice,
        window.selected == id ==> window.selecting(id) == window,
{
}

/// The page of blocks that is shown first is the one that the next block of the job
/// stands on, within the pages that there are.
pub proof fn the_first_page_of_blocks_is_where_the_job_is(
    window: JobsView,
    total: usize,
    at: int,
)
    requires
        0 <= at < window.jobs.len(),
        forall|k: int| 0 <= k < at ==> (#[trigger] window.jobs[k]).id@ != window.jobs[at].id@,
    ensures
        ({
            let page = window.running_page(window.jobs[at].id@, total);
            let done = window.jobs[at].progress.completed;
            &&& page >= 0
            &&& done < total ==> page * 50 <= done < page * 50 + 50
            &&& done >= total ==> total <= page * 50 + 50 && (page > 0 ==> page * 50 < total)
        }),
{
    lemma_job_with_id(window.jobs, window.jobs[at].id@, at);
    there_are_as_many_pages_as_needed(total as int, 50);
}

// ---------------------------------------------------------------------------
// What is asked of jobs and blocks
// ---------------------------------------------------------------------------

/// Once an action or a retry has come to an end, another one can be asked for and
/// the jobs are read anew. What came of it is told only where the books are still
/// those that it was asked for.
pub proof fn an_ended_action_is_told_to_its_own_books(
    window: JobsView,
    scope: u64,
    notice: (Seq<char>, bool),
)
    ensures
        ({
            let after = window.settled(scope, notice);
            &&& after.pending is None
            &&& after.notice == (if scope == window.scope_generation {
                Some(notice)
            } else {
                window.notice
            })
            &&& after.loading
            &&& after.refresh_generation != window.refresh_generation
            &&& after.selected == window.selected
            &&& after.jobs == window.jobs
            &&& after.logs is None
            &&& after.blocks is None
            &&& after.block_detail is None
            &&& after.outbox[after.outbox.len() - 2] == JobsSignalView::LoadJobs(
                after.refresh_generation,
                window.books.map_values(|b: BackgroundJobBook| b.id@),
            )
        }),
        ({
            let after = window.retried(scope, notice);
            &&& after.pending is None
            &&& after.notice == (if scope == window.scope_generation {
                Some(notice)
            } else {
                window.notice
            })
            &&& after.loading
            &&& after.refresh_generation != window.refresh_generation
            &&& after.selected == window.selected
            &&& after.jobs == window.jobs
            &&& after.logs == window.logs
            &&& after.blocks is None
            &&& after.outbox[after.outbox.len() - 2] == JobsSignalView::LoadJobs(
                after.refresh_generation,
                window.books.map_values(|b: BackgroundJobBook| b.id@),
            )
        }),
{
}

/// A notice is an error exactly where the action failed, and it then says why.
pub proof fn a_failed_action_says_why(
    action: BackgroundJobAction,
    count: nat,
    result: Result<bool, String>,
)
    ensures
        action_notice(action, result).1 <==> result is Err,
        retry_notice(count, result).1 <==> result is Err,
        result is Err ==> action_notice(action, result).0 == action_name(action) + "任务失败："@
            + result->Err_0@,
        result is Err ==> retry_notice(count, result).0 == "重试文本块失败："@ + result->Err_0@,
        result == Ok::<bool, String>(true) ==> action_notice(action, result).0 == "已请求"@
            + action_name(action) + "任务。"@,
        result == Ok::<bool, String>(false) ==> action_notice(action, result).0
            == "任务状态已发生变化，未重复执行操作。"@,
        result == Ok::<bool, String>(true) ==> retry_notice(count, result).0 == "已请求重试 "@
            + decimal(count) + " 个文本块。"@,
        result == Ok::<bool, String>(false) ==> retry_notice(count, result).0
            == "这些文本块已有译文或任务状态已变化，未重试。"@,
{
}

/// A view on a block is of the block and the job that it was opened for, starts with
/// nothing read, and asks for that block.
pub proof fn an_opened_block_is_asked_for(window: JobsView, ordinal: usize, failed: bool)
    ensures
        window.selected is None ==> window.opened_block(ordinal, failed) == window,
        window.selected is Some ==> {
            let after = window.opened_block(ordinal, failed);
            let view = after.block_detail->0;
            &&& after.block_detail is Some
            &&& view.job_id == window.selected->0
            &&& view.ordinal == ordinal
            &&& view.failed == failed
            &&& view.loading
            &&& view.tab == BlockDetailTab::Overview
            &&& view.detail is None
            &&& view.error is None
            &&& !view.probe_loading
            &&& view.probe_result is None
            &&& view.probe_error is None
            &&& after == (JobsView {
                block_detail: after.block_detail,
                block_views: after.block_views,
                outbox: window.outbox.push(
                    JobsSignalView::LoadBlockDetail(
                        view.generation,
                        window.selected->0,
                        ordinal,
                        window.books.map_values(|b: BackgroundJobBook| b.id@),
                    ),
                ).push(JobsSignalView::Notify),
                ..window
            })
            &&& view.generation == after.block_views && after.block_views != window.block_views
        },
{
}

/// What is read for the view on a block is shown there, or why it could not be read;
/// the same holds of an answer that was asked for once more. A view on another block
/// is left as it is.
pub proof fn what_is_read_of_a_block_is_shown(
    window: JobsView,
    ordinal: usize,
    generation: u64,
    detail: Result<TranslationBlockDetail, String>,
    probe: Result<TranslationBlockProbe, String>,
)
    requires
        window.block_detail is Some,
    ensures
        ({
            let view = window.block_detail->0;
            let read = window.block_read(ordinal, generation, detail);
            let probed = window.block_probed(ordinal, generation, probe);
            if view.ordinal != ordinal || view.generation != generation {
                read == window && probed == window
            } else {
                &&& read.block_detail == Some(
                    BlockDetailStateView {
                        loading: false,
                        detail: if detail is Ok {
                            Some(detail->Ok_0)
                        } else {
                            None
                        },
                        error: if detail is Err {
                            Some("无法读取文本块详情："@ + detail->Err_0@)
                        } else {
                            None
                        },
                        ..view
                    },
                )
                &&& probed.block_detail == Some(
                    BlockDetailStateView {
                        probe_loading: false,
                        probe_result: if probe is Ok {
                            Some(probe->Ok_0)
                        } else {
                            None
                        },
                        probe_error: if probe is Err {
                            Some("无法重新请求模型："@ + probe->Err_0@)
                        } else {
                            None
                        },
                        ..view
                    },
                )
            }
        }),
{
}

/// The model is asked once more for a block unless that is under way; what it
/// answered before is gone, and the view stays on its block.
pub proof fn a_block_is_probed_once_at_a_time(window: JobsView)
    ensures
        window.block_detail is None ==> window.probing_block() == window,
        window.block_detail is Some && window.block_detail->0.probe_loading
            ==> window.probing_block() == window,
        window.block_detail is Some && !window.block_detail->0.probe_loading ==> {
            let view = window.block_detail->0;
            let after = window.probing_block();
            &&& after.block_detail == Some(
                BlockDetailStateView {
                    probe_loading: true,
                    probe_result: None,
                    probe_error: None,
                    ..view
                },
            )
            &&& after.outbox == window.outbox.push(
                JobsSignalView::ProbeBlock(
                    view.generation,
                    view.job_id,
                    view.ordinal,
                    window.books.map_values(|b: BackgroundJobBook| b.id@),
                ),
            ).push(JobsSignalView::Notify)
        },
{
}

} // verus!
