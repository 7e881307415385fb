//! The window of background jobs: which job is looked at, and what has to be read
//! for it.

use crate::block_detail::{
    BlockDetailState, BlockDetailTab, BlockProbeState, TranslationBlockDetail,
    TranslationBlockProbe,
};
use crate::block_inspector::{BlockState, BLOCKS_PER_PAGE};
use crate::block_pages::{page_count, page_of, pages_for, TranslationBlockList};
use crate::job_order::{in_order, sort_jobs};
use crate::jobs::{
    action_name, action_verb, job_matches, lower_case, passes, to_lower_case, BackgroundJobAction,
    BackgroundJobBook, BackgroundJobLogSnapshot, BackgroundJobSnapshot, BackgroundJobStatus,
};
use crate::seqs::{lemma_filter_ends, lemma_filter_step};
use crate::text::{
    decimal, list_has, option_text, push_decimal, same_option_text, same_text, texts, trim,
    trimmed,
};
use vstd::prelude::*;
use vstd::string::*;

verus! {

/// The jobs on one page.
pub const JOBS_PER_PAGE: usize = 12;

/// A part of the details of a job.
#[derive(Clone, Copy, Debug, PartialEq, Eq, Structural)]
pub enum DetailTab {
    Summary,
    Logs,
    /// The blocks of a translation.
    Blocks,
}

/// The identifier of a part.
pub fn tab_id(tab: DetailTab) -> (r: &'static str)
    ensures
        r@ == (match tab {
            DetailTab::Summary => "summary"@,
            DetailTab::Logs => "logs"@,
            DetailTab::Blocks => "blocks"@,
        }),
{
    match tab {
        DetailTab::Summary => "summary",
        DetailTab::Logs => "logs",
        DetailTab::Blocks => "blocks",
    }
}

/// Something that the reader is told.
#[derive(Debug, PartialEq, Eq)]
pub struct JobsNotice {
    pub text: String,
    pub error: bool,
}

/// Something that the host has to read or do.
#[derive(Debug, PartialEq, Eq)]
pub enum JobsTask {
    LoadJobs { generation: u64, book_ids: Vec<String> },
    LoadLogs { generation: u64, job_id: String, book_ids: Vec<String> },
    LoadBlocks { generation: u64, job_id: String, book_ids: Vec<String> },
    LoadBlockDetail { generation: u64, job_id: String, ordinal: usize, book_ids: Vec<String> },
    ProbeBlock { generation: u64, job_id: String, ordinal: usize, book_ids: Vec<String> },
    Control { scope: u64, job_id: String, action: BackgroundJobAction },
    RetryBlocks { scope: u64, job_id: String, ordinals: Vec<usize>, book_ids: Vec<String> },
}

/// Something that the host is told.
#[derive(Debug, PartialEq, Eq)]
pub enum JobsSignal {
    /// The window is to be drawn anew.
    Notify,
    ScrollListToTop,
    ScrollDetailToTop,
    ScrollBlockToTop,
    Run(JobsTask),
}

/// Something that the host is told, as texts.
pub enum JobsSignalView {
    Notify,
    ScrollListToTop,
    ScrollDetailToTop,
    ScrollBlockToTop,
    LoadJobs(u64, Seq<Seq<char>>),
    LoadLogs(u64, Seq<char>, Seq<Seq<char>>),
    LoadBlocks(u64, Seq<char>, Seq<Seq<char>>),
    LoadBlockDetail(u64, Seq<char>, usize, Seq<Seq<char>>),
    ProbeBlock(u64, Seq<char>, usize, Seq<Seq<char>>),
    Control(u64, Seq<char>, BackgroundJobAction),
    RetryBlocks(u64, Seq<char>, Seq<usize>, Seq<Seq<char>>),
}

impl View for JobsSignal {
    type V = JobsSignalView;

    open spec fn view(&self) -> JobsSignalView {
        match *self {
            JobsSignal::Notify => JobsSignalView::Notify,
            JobsSignal::ScrollListToTop => JobsSignalView::ScrollListToTop,
            JobsSignal::ScrollDetailToTop => JobsSignalView::ScrollDetailToTop,
            JobsSignal::ScrollBlockToTop => JobsSignalView::ScrollBlockToTop,
            JobsSignal::Run(task) => match task {
                JobsTask::LoadJobs { generation, book_ids } => JobsSignalView::LoadJobs(
                    generation,
                    texts(book_ids@),
                ),
                JobsTask::LoadLogs { generation, job_id, book_ids } => JobsSignalView::LoadLogs(
                    generation,
                    job_id@,
                    texts(book_ids@),
                ),
                JobsTask::LoadBlocks { generation, job_id, book_ids } => {
                    JobsSignalView::LoadBlocks(generation, job_id@, texts(book_ids@))
                },
                JobsTask::LoadBlockDetail { generation, job_id, ordinal, book_ids } => {
                    JobsSignalView::LoadBlockDetail(
                        generation,
                        job_id@,
                        ordinal,
                        texts(book_ids@),
                    )
                },
                JobsTask::ProbeBlock { generation, job_id, ordinal, book_ids } => {
                    JobsSignalView::ProbeBlock(generation, job_id@, ordinal, texts(book_ids@))
                },
                JobsTask::Control { scope, job_id, action } => JobsSignalView::Control(
                    scope,
                    job_id@,
                    action,
                ),
                JobsTask::RetryBlocks { scope, job_id, ordinals, book_ids } => {
                    JobsSignalView::RetryBlocks(scope, job_id@, ordinals@, texts(book_ids@))
                },
            },
        }
    }
}

/// The signals that a list holds.
pub open spec fn jobs_signal_views(signals: Seq<JobsSignal>) -> Seq<JobsSignalView> {
    signals.map_values(|s: JobsSignal| s@)
}

/// The window of background jobs. What the host has to be told stands in
/// `outbox`, in order, until the host takes it out.
#[derive(Debug)]
pub struct BackgroundJobsWindow {
    pub books: Vec<BackgroundJobBook>,
    pub scope_label: String,
    pub jobs: Vec<BackgroundJobSnapshot>,
    pub refresh_generation: u64,
    pub scope_generation: u64,
    pub loading: bool,
    pub loaded: bool,
    pub auto_refresh: bool,
    pub pending_job_id: Option<String>,
    pub selected_job_id: Option<String>,
    pub kind: String,
    pub status: Option<BackgroundJobStatus>,
    pub query: String,
    pub page: usize,
    pub tab: DetailTab,
    pub logs: Option<BackgroundJobLogSnapshot>,
    pub logs_loading: bool,
    pub logs_generation: u64,
    pub logs_error: Option<String>,
    pub blocks: Option<TranslationBlockList>,
    /// The job that the blocks were read for. They do not change while it runs,
    /// so they are read once.
    pub blocks_job_id: Option<String>,
    pub blocks_loading: bool,
    pub blocks_generation: u64,
    pub blocks_error: Option<String>,
    pub blocks_state: Option<BlockState>,
    pub blocks_page: usize,
    pub block_detail: Option<BlockDetailState>,
    /// The number of the last view on a block that was opened. Every one that is
    /// opened takes the next, and nothing sets it back.
    pub block_views: u64,
    pub notice: Option<JobsNotice>,
    pub refresh_error: Option<String>,
    pub outbox: Vec<JobsSignal>,
}

/// The block whose view is open, as texts.
pub struct BlockDetailStateView {
    pub job_id: Seq<char>,
    pub ordinal: usize,
    pub generation: u64,
    pub tab: BlockDetailTab,
    pub failed: bool,
    pub loading: bool,
    pub detail: Option<TranslationBlockDetail>,
    pub error: Option<Seq<char>>,
    pub probe_loading: bool,
    pub probe_result: Option<TranslationBlockProbe>,
    pub probe_error: Option<Seq<char>>,
}

/// The block whose view is open, as texts.
pub open spec fn block_detail_view(state: BlockDetailState) -> BlockDetailStateView {
    BlockDetailStateView {
        job_id: state.job_id@,
        ordinal: state.ordinal,
        generation: state.generation,
        tab: state.tab,
        failed: state.failed,
        loading: state.loading,
        detail: state.detail,
        error: option_text(state.error),
        probe_loading: state.probe.loading,
        probe_result: state.probe.result,
        probe_error: option_text(state.probe.error),
    }
}

/// The window of background jobs, as texts.
pub struct JobsView {
    pub books: Seq<BackgroundJobBook>,
    pub scope_label: Seq<char>,
    pub jobs: Seq<BackgroundJobSnapshot>,
    pub refresh_generation: u64,
    pub scope_generation: u64,
    pub loading: bool,
    pub loaded: bool,
    pub auto_refresh: bool,
    pub pending: Option<Seq<char>>,
    pub selected: Option<Seq<char>>,
    pub kind: Seq<char>,
    pub status: Option<BackgroundJobStatus>,
    pub query: Seq<char>,
    pub page: int,
    pub tab: DetailTab,
    pub logs: Option<BackgroundJobLogSnapshot>,
    pub logs_loading: bool,
    pub logs_generation: u64,
    pub logs_error: Option<Seq<char>>,
    pub blocks: Option<TranslationBlockList>,
    pub blocks_job: Option<Seq<char>>,
    pub blocks_loading: bool,
    pub blocks_generation: u64,
    pub blocks_error: Option<Seq<char>>,
    pub blocks_state: Option<BlockState>,
    pub blocks_page: int,
    pub block_detail: Option<BlockDetailStateView>,
    pub block_views: u64,
    /// The text, and whether it reports an error.
    pub notice: Option<(Seq<char>, bool)>,
    pub refresh_error: Option<Seq<char>>,
    pub outbox: Seq<JobsSignalView>,
}

impl View for BackgroundJobsWindow {
    type V = JobsView;

    open spec fn view(&self) -> JobsView {
        JobsView {
            books: self.books@,
            scope_label: self.scope_label@,
            jobs: self.jobs@,
            refresh_generation: self.refresh_generation,
            scope_generation: self.scope_generation,
            loading: self.loading,
            loaded: self.loaded,
            auto_refresh: self.auto_refresh,
            pending: option_text(self.pending_job_id),
            selected: option_text(self.selected_job_id),
            kind: self.kind@,
            status: self.status,
            query: self.query@,
            page: self.page as int,
            tab: self.tab,
            logs: self.logs,
            logs_loading: self.logs_loading,
            logs_generation: self.logs_generation,
            logs_error: option_text(self.logs_error),
            blocks: self.blocks,
            blocks_job: option_text(self.blocks_job_id),
            blocks_loading: self.blocks_loading,
            blocks_generation: self.blocks_generation,
            blocks_error: option_text(self.blocks_error),
            blocks_state: self.blocks_state,
            blocks_page: self.blocks_page as int,
            block_detail: match self.block_detail {
                Some(state) => Some(block_detail_view(state)),
                None => None,
            },
            block_views: self.block_views,
            notice: match self.notice {
                Some(notice) => Some((notice.text@, notice.error)),
                None => None,
            },
            refresh_error: option_text(self.refresh_error),
            outbox: jobs_signal_views(self.outbox@),
        }
    }
}

/// The number behind another one, from the largest back to 0.
pub open spec fn wrapped_next(n: u64) -> u64 {
    if n == u64::MAX {
        0
    } else {
        (n + 1) as u64
    }
}

fn next_number(n: u64) -> (r: u64)
    ensures
        r == wrapped_next(n),
{
    if n == u64::MAX {
        0
    } else {
        n + 1
    }
}

/// The identifiers of books.
pub open spec fn book_ids_of(books: Seq<BackgroundJobBook>) -> Seq<Seq<char>> {
    books.map_values(|b: BackgroundJobBook| b.id@)
}

/// The identifiers of jobs.
pub open spec fn job_ids_of(jobs: Seq<BackgroundJobSnapshot>) -> Seq<Seq<char>> {
    jobs.map_values(|j: BackgroundJobSnapshot| j.id@)
}

/// The first job with an identifier.
pub open spec fn job_with_id(jobs: Seq<BackgroundJobSnapshot>, id: Seq<char>) -> Option<
    BackgroundJobSnapshot,
>
    decreases jobs.len(),
{
    if jobs.len() == 0 {
        None
    } else if jobs[0].id@ == id {
        Some(jobs[0])
    } else {
        job_with_id(jobs.drop_first(), id)
    }
}

/// The test for jobs that pass the filters of a window.
pub open spec fn passing(window: JobsView) -> spec_fn(BackgroundJobSnapshot) -> bool {
    |job: BackgroundJobSnapshot|
        passes(job, window.books, window.kind, window.status, lower_case(trimmed(window.query)))
}

impl JobsView {
    /// A window in which nothing was read.
    pub open spec fn initial(books: Seq<BackgroundJobBook>, scope_label: Seq<char>) -> JobsView {
        JobsView {
            books,
            scope_label,
            jobs: Seq::empty(),
            refresh_generation: 0,
            scope_generation: 0,
            loading: false,
            loaded: false,
            auto_refresh: true,
            pending: None,
            selected: None,
            kind: Seq::empty(),
            status: None,
            query: Seq::empty(),
            page: 0,
            tab: DetailTab::Summary,
            logs: None,
            logs_loading: false,
            logs_generation: 0,
            logs_error: None,
            blocks: None,
            blocks_job: None,
            blocks_loading: false,
            blocks_generation: 0,
            blocks_error: None,
            blocks_state: None,
            blocks_page: 0,
            block_detail: None,
            block_views: 0,
            notice: None,
            refresh_error: None,
            outbox: Seq::empty(),
        }
    }

    /// With one more thing to tell.
    pub open spec fn telling(self, signal: JobsSignalView) -> JobsView {
        JobsView { outbox: self.outbox.push(signal), ..self }
    }

    /// The jobs that pass the filters.
    pub open spec fn filtered(self) -> Seq<BackgroundJobSnapshot> {
        self.jobs.filter(passing(self))
    }

    /// The page that is shown, which is one that there is.
    pub open spec fn shown_page(self) -> int {
        let last = page_count(self.filtered().len() as int, JOBS_PER_PAGE as int) - 1;
        if self.page < last {
            self.page
        } else {
            last
        }
    }

    /// The identifiers of the jobs on the page that is shown.
    pub open spec fn shown_ids(self) -> Seq<Seq<char>> {
        job_ids_of(page_of(self.filtered(), self.shown_page(), JOBS_PER_PAGE as int))
    }

    /// The job to look at: the same as before where it is on the page, otherwise
    /// the first one.
    pub open spec fn wanted_selection(self) -> Option<Seq<char>> {
        let ids = self.shown_ids();
        if self.selected is Some && ids.contains(self.selected->0) {
            self.selected
        } else if ids.len() > 0 {
            Some(ids[0])
        } else {
            None
        }
    }

    /// Without anything that was read about the blocks of a job.
    pub open spec fn without_blocks(self) -> JobsView {
        JobsView {
            blocks_generation: wrapped_next(self.blocks_generation),
            blocks_loading: false,
            blocks: None,
            blocks_job: None,
            blocks_error: None,
            blocks_state: None,
            blocks_page: 0,
            block_detail: None,
            ..self
        }
    }

    /// Without anything that was read about a job.
    pub open spec fn without_detail(self) -> JobsView {
        (JobsView {
            logs_generation: wrapped_next(self.logs_generation),
            logs_loading: false,
            logs: None,
            logs_error: None,
            ..self.telling(JobsSignalView::ScrollDetailToTop)
        }).without_blocks()
    }

    /// Looking at another job, or at the same one.
    pub open spec fn selecting(self, selected: Option<Seq<char>>) -> JobsView {
        if self.selected == selected {
            self
        } else {
            (JobsView { selected, ..self }).without_detail()
        }
    }

    /// On a page that there is, looking at a job on it.
    pub open spec fn reconciled(self) -> JobsView {
        (JobsView { page: self.shown_page(), ..self }).selecting(self.wanted_selection())
    }

    /// With the log of the selected job being read, where it is shown.
    pub open spec fn reading_logs(self) -> JobsView {
        if self.tab == DetailTab::Summary || self.logs_loading || self.selected is None {
            self
        } else {
            let generation = wrapped_next(self.logs_generation);
            (JobsView { logs_generation: generation, logs_loading: true, ..self }).telling(
                JobsSignalView::LoadLogs(generation, self.selected->0, book_ids_of(self.books)),
            )
        }
    }

    /// Whether the blocks of the selected job have to be read.
    pub open spec fn needs_blocks(self) -> bool {
        self.tab == DetailTab::Blocks && !self.blocks_loading && self.selected is Some && (
        job_with_id(self.jobs, self.selected->0) matches Some(job) && job.kind@ == "translation"@)
            && self.blocks_job != self.selected
    }

    /// With the blocks of the selected job being read, where they are shown and
    /// were not read yet.
    pub open spec fn reading_blocks(self) -> JobsView {
        if !self.needs_blocks() {
            self
        } else {
            let generation = wrapped_next(self.blocks_generation);
            (JobsView {
                blocks_job: self.selected,
                blocks_generation: generation,
                blocks_loading: true,
                ..self
            }).telling(
                JobsSignalView::LoadBlocks(generation, self.selected->0, book_ids_of(self.books)),
            )
        }
    }

    /// With everything being read that the open part shows.
    pub open spec fn reading_detail(self) -> JobsView {
        self.reading_logs().reading_blocks()
    }

    /// After a filter was changed.
    pub open spec fn refiltered(self) -> JobsView {
        (JobsView { page: 0, ..self }).telling(
            JobsSignalView::ScrollListToTop,
        ).reconciled().reading_detail().telling(JobsSignalView::Notify)
    }

    /// With the jobs being read, unless they are already.
    pub open spec fn refreshing(self) -> JobsView {
        if self.loading {
            self
        } else {
            let generation = wrapped_next(self.refresh_generation);
            (JobsView { refresh_generation: generation, loading: true, ..self }).telling(
                JobsSignalView::LoadJobs(generation, book_ids_of(self.books)),
            ).telling(JobsSignalView::Notify)
        }
    }

    /// After the host has set other books.
    pub open spec fn rescoped(self, books: Seq<BackgroundJobBook>, label: Seq<char>) -> JobsView {
        let cleared = (JobsView {
            scope_generation: wrapped_next(self.scope_generation),
            refresh_generation: wrapped_next(self.refresh_generation),
            books,
            scope_label: label,
            jobs: Seq::empty(),
            selected: None,
            ..self
        }).without_detail();
        (JobsView {
            page: 0,
            loaded: false,
            loading: false,
            notice: None,
            refresh_error: None,
            ..cleared.telling(JobsSignalView::ScrollListToTop)
        }).refreshing()
    }

    /// After the jobs were read.
    pub open spec fn with_jobs(self, jobs: Seq<BackgroundJobSnapshot>) -> JobsView {
        (JobsView {
            loading: false,
            refresh_error: None,
            jobs: in_order(jobs),
            loaded: true,
            ..self
        }).reconciled().reading_detail().telling(JobsSignalView::Notify)
    }

    /// After the jobs could not be read.
    pub open spec fn with_refresh_error(self, error: Seq<char>) -> JobsView {
        (JobsView {
            loading: false,
            refresh_error: Some("无法刷新后台任务："@ + error),
            ..self
        }).telling(JobsSignalView::Notify)
    }

    /// The page with the first block that a job has not finished.
    pub open spec fn running_page(self, job_id: Seq<char>, total: usize) -> int {
        let done = match job_with_id(self.jobs, job_id) {
            Some(job) => job.progress.completed as int,
            None => 0,
        };
        let page = (if done < total {
            done
        } else {
            total as int
        }) / BLOCKS_PER_PAGE as int;
        let last = page_count(total as int, BLOCKS_PER_PAGE as int) - 1;
        if page < last {
            page
        } else {
            last
        }
    }

    /// After an action was carried out, or not: everything is read anew.
    pub open spec fn settled(self, scope: u64, notice: (Seq<char>, bool)) -> JobsView {
        let told = JobsView {
            pending: None,
            notice: if scope == self.scope_generation {
                Some(notice)
            } else {
                self.notice
            },
            ..self
        };
        (JobsView {
            refresh_generation: wrapped_next(self.refresh_generation),
            loading: false,
            ..told
        }).without_detail().refreshing()
    }

    /// After blocks were asked for again, or not: their states are read anew.
    pub open spec fn retried(self, scope: u64, notice: (Seq<char>, bool)) -> JobsView {
        let told = JobsView {
            pending: None,
            notice: if scope == self.scope_generation {
                Some(notice)
            } else {
                self.notice
            },
            ..self
        };
        (JobsView {
            refresh_generation: wrapped_next(self.refresh_generation),
            loading: false,
            ..told.without_blocks()
        }).refreshing()
    }

    /// With the view on a block of the selected job open, and what it shows being
    /// read.
    pub open spec fn opened_block(self, ordinal: usize, failed: bool) -> JobsView {
        match self.selected {
            None => self,
            Some(job_id) => {
                let generation = wrapped_next(self.block_views);
                (JobsView {
                    block_detail: Some(
                        BlockDetailStateView {
                            job_id,
                            ordinal,
                            generation,
                            tab: BlockDetailTab::Overview,
                            failed,
                            loading: true,
                            detail: None,
                            error: None,
                            probe_loading: false,
                            probe_result: None,
                            probe_error: None,
                        },
                    ),
                    block_views: generation,
                    ..self
                }).telling(
                    JobsSignalView::LoadBlockDetail(
                        generation,
                        job_id,
                        ordinal,
                        book_ids_of(self.books),
                    ),
                ).telling(JobsSignalView::Notify)
            },
        }
    }

    /// Whether the view on a block is open that has a number.
    pub open spec fn shows_block(self, ordinal: usize, generation: u64) -> bool {
        match self.block_detail {
            Some(detail) => detail.ordinal == ordinal && detail.generation == generation,
            None => false,
        }
    }

    /// After something was read for the view on a block.
    pub open spec fn block_read(
        self,
        ordinal: usize,
        generation: u64,
        result: Result<TranslationBlockDetail, String>,
    ) -> JobsView {
        if !self.shows_block(ordinal, generation) {
            self
        } else {
            let read = BlockDetailStateView { loading: false, ..self.block_detail->0 };
            (JobsView {
                block_detail: Some(
                    match result {
                        Ok(loaded) => BlockDetailStateView {
                            detail: Some(loaded),
                            error: None,
                            ..read
                        },
                        Err(error) => BlockDetailStateView {
                            detail: None,
                            error: Some("无法读取文本块详情："@ + error@),
                            ..read
                        },
                    },
                ),
                ..self
            }).telling(JobsSignalView::ScrollBlockToTop).telling(JobsSignalView::Notify)
        }
    }

    /// With the model being asked again for the block whose view is open.
    pub open spec fn probing_block(self) -> JobsView {
        match self.block_detail {
            Some(detail) => if detail.probe_loading {
                self
            } else {
                (JobsView {
                    block_detail: Some(
                        BlockDetailStateView {
                            probe_loading: true,
                            probe_result: None,
                            probe_error: None,
                            ..detail
                        },
                    ),
                    ..self
                }).telling(
                    JobsSignalView::ProbeBlock(
                        detail.generation,
                        detail.job_id,
                        detail.ordinal,
                        book_ids_of(self.books),
                    ),
                ).telling(JobsSignalView::Notify)
            },
            None => self,
        }
    }

    /// After the model was asked again for a block.
    pub open spec fn block_probed(
        self,
        ordinal: usize,
        generation: u64,
        result: Result<TranslationBlockProbe, String>,
    ) -> JobsView {
        if !self.shows_block(ordinal, generation) {
            self
        } else {
            let detail = self.block_detail->0;
            (JobsView {
                block_detail: Some(
                    match result {
                        Ok(probe) => BlockDetailStateView {
                            probe_loading: false,
                            probe_result: Some(probe),
                            probe_error: None,
                            ..detail
                        },
                        Err(error) => BlockDetailStateView {
                            probe_loading: false,
                            probe_result: None,
                            probe_error: Some("无法重新请求模型："@ + error@),
                            ..detail
                        },
                    },
                ),
                ..self
            }).telling(JobsSignalView::Notify)
        }
    }

    /// With a part of the view on a block open.
    pub open spec fn on_block_tab(self, tab: BlockDetailTab) -> JobsView {
        match self.block_detail {
            Some(detail) => (JobsView {
                block_detail: Some(BlockDetailStateView { tab, ..detail }),
                ..self
            }).telling(JobsSignalView::ScrollBlockToTop).telling(JobsSignalView::Notify),
            None => self.telling(JobsSignalView::Notify),
        }
    }

    /// With the view on a block closed.
    pub open spec fn closed_block(self) -> JobsView {
        if self.block_detail is Some {
            (JobsView { block_detail: None, ..self }).telling(JobsSignalView::Notify)
        } else {
            self
        }
    }
}

/// What the reader is told of an action that was asked for.
pub open spec fn action_notice(
    action: BackgroundJobAction,
    result: Result<bool, String>,
) -> (Seq<char>, bool) {
    match result {
        Ok(true) => ("已请求"@ + action_name(action) + "任务。"@, false),
        Ok(false) => ("任务状态已发生变化，未重复执行操作。"@, false),
        Err(error) => (action_name(action) + "任务失败："@ + error@, true),
    }
}

/// What the reader is told of blocks that were asked for again.
pub open spec fn retry_notice(count: nat, result: Result<bool, String>) -> (Seq<char>, bool) {
    match result {
        Ok(true) => ("已请求重试 "@ + decimal(count) + " 个文本块。"@, false),
        Ok(false) => ("这些文本块已有译文或任务状态已变化，未重试。"@, false),
        Err(error) => ("重试文本块失败："@ + error@, true),
    }
}

fn ids_of_books(books: &Vec<BackgroundJobBook>) -> (r: Vec<String>)
    ensures
        texts(r@) == book_ids_of(books@),
{
    let ghost expected = book_ids_of(books@);
    let mut out: Vec<String> = Vec::new();
    let mut i: usize = 0;
    while i < books.len()
        invariant
            i <= books@.len(),
            expected == book_ids_of(books@),
            texts(out@) =~= expected.subrange(0, i as int),
        decreases books@.len() - i,
    {
        let id = books[i].id.clone();
        let ghost had = out@;
        out.push(id);
        i = i + 1;
        proof {
            assert(texts(out@) =~= texts(had).push(id@));
            assert(expected.subrange(0, i as int) =~= expected.subrange(0, i - 1).push(id@));
        }
    }
    assert(expected.subrange(0, expected.len() as int) =~= expected);
    out
}

/// The first job with an identifier.
pub fn find_job<'a>(jobs: &'a Vec<BackgroundJobSnapshot>, id: &str) -> (r: Option<
    &'a BackgroundJobSnapshot,
>)
    ensures
        job_with_id(jobs@, id@) == (match r {
            Some(job) => Some(*job),
            None => None,
        }),
{
    let mut i: usize = 0;
    assert(jobs@.subrange(0, jobs@.len() as int) =~= jobs@);
    while i < jobs.len()
        invariant
            i <= jobs@.len(),
            job_with_id(jobs@.subrange(i as int, jobs@.len() as int), id@) == job_with_id(
                jobs@,
                id@,
            ),
        decreases jobs@.len() - i,
    {
        let ghost here = jobs@.subrange(i as int, jobs@.len() as int);
        assert(here.drop_first() =~= jobs@.subrange(i + 1, jobs@.len() as int));
        if same_text(jobs[i].id.as_str(), id) {
            return Some(&jobs[i]);
        }
        i = i + 1;
    }
    None
}

fn notice_of(text: String, error: bool) -> (r: Option<JobsNotice>)
    ensures
        r == Some(JobsNotice { text, error }),
{
    Some(JobsNotice { text, error })
}

impl BackgroundJobsWindow {
    /// A window in which nothing was read.
    pub fn new(books: Vec<BackgroundJobBook>, scope_label: String) -> (r: Self)
        ensures
            r@ == JobsView::initial(books@, scope_label@),
    {
        let r = BackgroundJobsWindow {
            books,
            scope_label,
            jobs: Vec::new(),
            refresh_generation: 0,
            scope_generation: 0,
            loading: false,
            loaded: false,
            auto_refresh: true,
            pending_job_id: None,
            selected_job_id: None,
            kind: String::new(),
            status: None,
            query: String::new(),
            page: 0,
            tab: DetailTab::Summary,
            logs: None,
            logs_loading: false,
            logs_generation: 0,
            logs_error: None,
            blocks: None,
            blocks_job_id: None,
            blocks_loading: false,
            blocks_generation: 0,
            blocks_error: None,
            blocks_state: None,
            blocks_page: 0,
            block_detail: None,
            block_views: 0,
            notice: None,
            refresh_error: None,
            outbox: Vec::new(),
        };
        assert(r@.outbox =~= Seq::<JobsSignalView>::empty());
        assert(r@ == JobsView::initial(books@, scope_label@));
        r
    }

    fn tell(&mut self, signal: JobsSignal)
        ensures
            final(self)@ == old(self)@.telling(signal@),
    {
        let ghost had = self.outbox@;
        self.outbox.push(signal);
        assert(jobs_signal_views(self.outbox@) =~= jobs_signal_views(had).push(signal@));
    }

    /// Hands over what the host has to be told.
    pub fn take_signals(&mut self) -> (r: Vec<JobsSignal>)
        ensures
            jobs_signal_views(r@) == old(self)@.outbox,
            final(self)@ == (JobsView { outbox: Seq::empty(), ..old(self)@ }),
    {
        let mut out: Vec<JobsSignal> = Vec::new();
        core::mem::swap(&mut out, &mut self.outbox);
        assert(jobs_signal_views(self.outbox@) =~= Seq::<JobsSignalView>::empty());
        out
    }

    /// The jobs that pass the filters.
    pub fn filtered_jobs(&self) -> (r: Vec<BackgroundJobSnapshot>)
        ensures
            r@ == self@.filtered(),
    {
        let query = to_lower_case(trim(self.query.as_str()).as_str());
        let ghost keep = passing(self@);
        let mut out: Vec<BackgroundJobSnapshot> = Vec::new();
        proof {
            lemma_filter_ends(self.jobs@, keep);
        }
        let mut i: usize = 0;
        while i < self.jobs.len()
            invariant
                i <= self.jobs@.len(),
                keep == passing(self@),
                query@ == lower_case(trimmed(self.query@)),
                out@ == self.jobs@.subrange(0, i as int).filter(keep),
            decreases self.jobs@.len() - i,
        {
            proof {
                lemma_filter_step(self.jobs@, keep, i as int);
            }
            if job_matches(
                &self.jobs[i],
                &self.books,
                self.kind.as_str(),
                self.status,
                query.as_str(),
            ) {
                out.push(self.jobs[i].clone());
            }
            i = i + 1;
        }
        out
    }

    /// Goes to a page that there is and looks at a job on it.
    pub fn reconcile_selection(&mut self)
        ensures
            final(self)@ == old(self)@.reconciled(),
    {
        let jobs = self.filtered_jobs();
        let pages: usize = pages_for(jobs.len(), JOBS_PER_PAGE);
        let page: usize = if self.page < pages - 1 {
            self.page
        } else {
            pages - 1
        };
        let ids = ids_on_page(&jobs, page);
        let kept: bool = match &self.selected_job_id {
            Some(id) => list_has(&ids, id.as_str()),
            None => false,
        };
        self.page = page;
        if !kept {
            let selected = if ids.len() > 0 {
                Some(ids[0].clone())
            } else {
                None
            };
            proof {
                assert(texts(ids@).len() == ids@.len());
                if ids@.len() > 0 {
                    assert(texts(ids@)[0] == ids@[0]@);
                }
                assert(option_text(selected) == old(self)@.wanted_selection());
            }
            self.select(selected);
        }
    }

    fn select(&mut self, selected: Option<String>)
        ensures
            final(self)@ == old(self)@.selecting(option_text(selected)),
    {
        if !same_option_text(&self.selected_job_id, &selected) {
            self.selected_job_id = selected;
            self.clear_detail_cache();
        }
    }

    /// Forgets everything that was read about a job.
    pub fn clear_detail_cache(&mut self)
        ensures
            final(self)@ == old(self)@.without_detail(),
    {
        self.tell(JobsSignal::ScrollDetailToTop);
        self.logs_generation = next_number(self.logs_generation);
        self.logs_loading = false;
        self.logs = None;
        self.logs_error = None;
        self.clear_blocks();
    }

    /// Forgets everything that was read about the blocks of a job.
    pub fn clear_blocks(&mut self)
        ensures
            final(self)@ == old(self)@.without_blocks(),
    {
        self.blocks_generation = next_number(self.blocks_generation);
        self.blocks_loading = false;
        self.blocks = None;
        self.blocks_job_id = None;
        self.blocks_error = None;
        self.blocks_state = None;
        self.blocks_page = 0;
        self.block_detail = None;
    }

    /// Shows the first page of the jobs that pass the filters.
    pub fn filters_changed(&mut self)
        ensures
            final(self)@ == old(self)@.refiltered(),
    {
        self.page = 0;
        self.tell(JobsSignal::ScrollListToTop);
        self.reconcile_selection();
        self.refresh_detail();
        self.tell(JobsSignal::Notify);
    }

    /// Changes the filter for kinds of jobs.
    pub fn set_kind(&mut self, kind: &str)
        ensures
            final(self)@ == (JobsView { kind: kind@, ..old(self)@ }).refiltered(),
    {
        self.kind = kind.to_owned();
        self.filters_changed();
    }

    /// Changes the filter for the status of jobs.
    pub fn set_status(&mut self, status: Option<BackgroundJobStatus>)
        ensures
            final(self)@ == (JobsView { status, ..old(self)@ }).refiltered(),
    {
        self.status = status;
        self.filters_changed();
    }

    /// Changes what is searched for.
    pub fn set_query(&mut self, query: &str)
        ensures
            final(self)@ == (JobsView { query: query@, ..old(self)@ }).refiltered(),
    {
        self.query = query.to_owned();
        self.filters_changed();
    }

    /// Looks at a job.
    pub fn select_job(&mut self, id: &str)
        ensures
            final(self)@ == old(self)@.selecting(Some(id@)).reading_detail().telling(
                JobsSignalView::Notify,
            ),
    {
        let selected = Some(id.to_owned());
        self.select(selected);
        self.refresh_detail();
        self.tell(JobsSignal::Notify);
    }

    /// Goes one page back.
    pub fn previous_page(&mut self)
        ensures
            final(self)@ == (JobsView {
                page: if old(self)@.page > 0 {
                    old(self)@.page - 1
                } else {
                    0
                },
                ..old(self)@
            }).telling(JobsSignalView::ScrollListToTop).reconciled().reading_detail().telling(
                JobsSignalView::Notify,
            ),
    {
        if self.page > 0 {
            self.page = self.page - 1;
        }
        self.turn_page();
    }

    /// Goes one page on.
    pub fn next_page(&mut self)
        requires
            old(self)@.page < usize::MAX,
        ensures
            final(self)@ == (JobsView { page: old(self)@.page + 1, ..old(self)@ }).telling(
                JobsSignalView::ScrollListToTop,
            ).reconciled().reading_detail().telling(JobsSignalView::Notify),
    {
        self.page = self.page + 1;
        self.turn_page();
    }

    fn turn_page(&mut self)
        ensures
            final(self)@ == old(self)@.telling(
                JobsSignalView::ScrollListToTop,
            ).reconciled().reading_detail().telling(JobsSignalView::Notify),
    {
        self.tell(JobsSignal::ScrollListToTop);
        self.reconcile_selection();
        self.refresh_detail();
        self.tell(JobsSignal::Notify);
    }

    /// Opens a part of the details.
    pub fn set_tab(&mut self, tab: DetailTab)
        ensures
            final(self)@ == (JobsView { tab, ..old(self)@ }).telling(
                JobsSignalView::ScrollDetailToTop,
            ).reading_detail().telling(JobsSignalView::Notify),
    {
        self.tab = tab;
        self.tell(JobsSignal::ScrollDetailToTop);
        self.refresh_detail();
        self.tell(JobsSignal::Notify);
    }

    /// Turns reading the jobs every now and then on or off.
    pub fn toggle_auto_refresh(&mut self)
        ensures
            final(self)@ == ({
                let toggled = JobsView { auto_refresh: !old(self)@.auto_refresh, ..old(self)@ };
                if toggled.auto_refresh {
                    toggled.refreshing().telling(JobsSignalView::Notify)
                } else {
                    toggled.telling(JobsSignalView::Notify)
                }
            }),
    {
        self.auto_refresh = !self.auto_refresh;
        if self.auto_refresh {
            self.refresh();
        }
        self.tell(JobsSignal::Notify);
    }

    /// Reads the jobs by hand.
    pub fn refresh_by_hand(&mut self)
        ensures
            final(self)@ == (JobsView { notice: None, ..old(self)@ }).refreshing(),
    {
        self.notice = None;
        self.refresh();
    }

    /// Reads the jobs because some time has passed.
    pub fn poll(&mut self)
        ensures
            final(self)@ == (if old(self)@.auto_refresh && !old(self)@.loading
                && old(self)@.pending is None {
                old(self)@.refreshing()
            } else {
                old(self)@
            }),
    {
        if self.auto_refresh && !self.loading && self.pending_job_id.is_none() {
            self.refresh();
        }
    }

    /// Shows the jobs of other books.
    pub fn apply_scope(&mut self, books: Vec<BackgroundJobBook>, scope_label: String)
        ensures
            final(self)@ == old(self)@.rescoped(books@, scope_label@),
    {
        self.scope_generation = next_number(self.scope_generation);
        self.refresh_generation = next_number(self.refresh_generation);
        self.books = books;
        self.scope_label = scope_label;
        self.jobs = Vec::new();
        self.selected_job_id = None;
        self.clear_detail_cache();
        self.page = 0;
        self.tell(JobsSignal::ScrollListToTop);
        self.loaded = false;
        self.loading = false;
        self.notice = None;
        self.refresh_error = None;
        self.refresh();
    }

    /// Reads the jobs, unless they are being read.
    pub fn refresh(&mut self)
        ensures
            final(self)@ == old(self)@.refreshing(),
    {
        if self.loading {
            return ;
        }
        self.refresh_generation = next_number(self.refresh_generation);
        self.loading = true;
        let task = JobsTask::LoadJobs {
            generation: self.refresh_generation,
            book_ids: ids_of_books(&self.books),
        };
        self.tell(JobsSignal::Run(task));
        self.tell(JobsSignal::Notify);
    }

    /// Takes over the jobs that were read, unless they were asked for again
    /// since.
    pub fn finish_refresh(
        &mut self,
        generation: u64,
        result: Result<Vec<BackgroundJobSnapshot>, String>,
    )
        ensures
            final(self)@ == (if generation != old(self)@.refresh_generation {
                old(self)@
            } else {
                match result {
                    Ok(jobs) => old(self)@.with_jobs(jobs@),
                    Err(error) => old(self)@.with_refresh_error(error@),
                }
            }),
    {
        if generation != self.refresh_generation {
            return ;
        }
        self.loading = false;
        match result {
            Ok(jobs) => {
                self.refresh_error = None;
                self.jobs = sort_jobs(jobs);
                self.loaded = true;
                self.reconcile_selection();
                self.refresh_detail();
            },
            Err(error) => {
                let mut text = "无法刷新后台任务：".to_owned();
                text.push_str(error.as_str());
                self.refresh_error = Some(text);
            },
        }
        self.tell(JobsSignal::Notify);
    }

    fn refresh_detail(&mut self)
        ensures
            final(self)@ == old(self)@.reading_detail(),
    {
        self.refresh_logs();
        self.refresh_blocks();
    }

    /// Reads the log of the selected job where it is shown. The blocks need it
    /// too: only the log names those that failed.
    pub fn refresh_logs(&mut self)
        ensures
            final(self)@ == old(self)@.reading_logs(),
    {
        if self.tab == DetailTab::Summary || self.logs_loading {
            return ;
        }
        let job_id = match &self.selected_job_id {
            Some(id) => id.clone(),
            None => {
                return ;
            },
        };
        self.logs_generation = next_number(self.logs_generation);
        self.logs_loading = true;
        let task = JobsTask::LoadLogs {
            generation: self.logs_generation,
            job_id,
            book_ids: ids_of_books(&self.books),
        };
        self.tell(JobsSignal::Run(task));
    }

    /// Takes over the log that was read, unless another one was asked for since.
    pub fn finish_logs(
        &mut self,
        generation: u64,
        result: Result<BackgroundJobLogSnapshot, String>,
    )
        ensures
            final(self)@ == (if generation != old(self)@.logs_generation {
                old(self)@
            } else {
                let read = JobsView { logs_loading: false, ..old(self)@ };
                (match result {
                    Ok(logs) => JobsView { logs: Some(logs), logs_error: None, ..read },
                    Err(error) => JobsView {
                        logs_error: Some("无法读取运行日志："@ + error@),
                        ..read
                    },
                }).telling(JobsSignalView::Notify)
            }),
    {
        if generation != self.logs_generation {
            return ;
        }
        self.logs_loading = false;
        match result {
            Ok(logs) => {
                self.logs = Some(logs);
                self.logs_error = None;
            },
            Err(error) => {
                let mut text = "无法读取运行日志：".to_owned();
                text.push_str(error.as_str());
                self.logs_error = Some(text);
            },
        }
        self.tell(JobsSignal::Notify);
    }

    /// Reads the blocks of the selected job where they are shown and were not
    /// read yet.
    pub fn refresh_blocks(&mut self)
        ensures
            final(self)@ == old(self)@.reading_blocks(),
    {
        if self.tab != DetailTab::Blocks || self.blocks_loading {
            return ;
        }
        let job_id = match &self.selected_job_id {
            Some(id) => id.clone(),
            None => {
                return ;
            },
        };
        let translation: bool = match find_job(&self.jobs, job_id.as_str()) {
            Some(job) => same_text(job.kind.as_str(), "translation"),
            None => false,
        };
        if !translation || same_option_text(&self.blocks_job_id, &self.selected_job_id) {
            return ;
        }
        self.blocks_job_id = Some(job_id.clone());
        self.blocks_generation = next_number(self.blocks_generation);
        self.blocks_loading = true;
        let task = JobsTask::LoadBlocks {
            generation: self.blocks_generation,
            job_id,
            book_ids: ids_of_books(&self.books),
        };
        self.tell(JobsSignal::Run(task));
    }

    /// Takes over the blocks that were read, on the page where the job has
    /// arrived, unless others were asked for since.
    pub fn finish_blocks(
        &mut self,
        generation: u64,
        job_id: &str,
        result: Result<TranslationBlockList, String>,
    )
        ensures
            final(self)@ == (if generation != old(self)@.blocks_generation {
                old(self)@
            } else {
                let read = (JobsView { blocks_loading: false, ..old(self)@ }).telling(
                    JobsSignalView::ScrollDetailToTop,
                );
                (match result {
                    Ok(list) => JobsView {
                        blocks_page: read.running_page(job_id@, list.total),
                        blocks: Some(list),
                        blocks_error: None,
                        ..read
                    },
                    Err(error) => JobsView {
                        blocks: None,
                        blocks_error: Some("无法读取文本块明细："@ + error@),
                        ..read
                    },
                }).telling(JobsSignalView::Notify)
            }),
    {
        if generation != self.blocks_generation {
            return ;
        }
        self.blocks_loading = false;
        self.tell(JobsSignal::ScrollDetailToTop);
        match result {
            Ok(list) => {
                let done: usize = match find_job(&self.jobs, job_id) {
                    Some(job) => job.progress.completed,
                    None => 0,
                };
                let reached: usize = if done < list.total {
                    done
                } else {
                    list.total
                };
                let pages: usize = pages_for(list.total, BLOCKS_PER_PAGE);
                let page: usize = reached / BLOCKS_PER_PAGE;
                self.blocks_page = if page < pages - 1 {
                    page
                } else {
                    pages - 1
                };
                self.blocks = Some(list);
                self.blocks_error = None;
            },
            Err(error) => {
                let mut text = "无法读取文本块明细：".to_owned();
                text.push_str(error.as_str());
                self.blocks = None;
                self.blocks_error = Some(text);
            },
        }
        self.tell(JobsSignal::Notify);
    }

    /// Reads the blocks again after an error.
    pub fn reload_blocks(&mut self)
        ensures
            final(self)@ == old(self)@.without_blocks().reading_blocks().telling(
                JobsSignalView::Notify,
            ),
    {
        self.clear_blocks();
        self.refresh_blocks();
        self.tell(JobsSignal::Notify);
    }

    /// Changes the filter for the state of blocks.
    pub fn set_blocks_state(&mut self, state: Option<BlockState>)
        ensures
            final(self)@ == (JobsView {
                blocks_state: state,
                blocks_page: 0,
                ..old(self)@
            }).telling(JobsSignalView::ScrollDetailToTop).telling(JobsSignalView::Notify),
    {
        self.blocks_state = state;
        self.go_to_blocks_page(0);
    }

    /// Goes to a page of the blocks.
    pub fn go_to_blocks_page(&mut self, page: usize)
        ensures
            final(self)@ == (JobsView { blocks_page: page as int, ..old(self)@ }).telling(
                JobsSignalView::ScrollDetailToTop,
            ).telling(JobsSignalView::Notify),
    {
        self.blocks_page = page;
        self.tell(JobsSignal::ScrollDetailToTop);
        self.tell(JobsSignal::Notify);
    }

    /// Goes one page of the blocks back.
    pub fn previous_blocks_page(&mut self)
        ensures
            final(self)@ == (JobsView {
                blocks_page: if old(self)@.blocks_page > 0 {
                    old(self)@.blocks_page - 1
                } else {
                    0
                },
                ..old(self)@
            }).telling(JobsSignalView::ScrollDetailToTop).telling(JobsSignalView::Notify),
    {
        let page: usize = if self.blocks_page > 0 {
            self.blocks_page - 1
        } else {
            0
        };
        self.go_to_blocks_page(page);
    }

    /// Goes one page of the blocks on, at most to the last of `pages`.
    pub fn next_blocks_page(&mut self, pages: usize)
        requires
            pages > 0,
        ensures
            final(self)@ == (JobsView {
                blocks_page: if old(self)@.blocks_page + 1 < pages - 1 {
                    old(self)@.blocks_page + 1
                } else {
                    pages - 1
                },
                ..old(self)@
            }).telling(JobsSignalView::ScrollDetailToTop).telling(JobsSignalView::Notify),
    {
        let page: usize = if self.blocks_page < pages - 1 {
            self.blocks_page + 1
        } else {
            pages - 1
        };
        self.go_to_blocks_page(page);
    }

    /// Opens the view on a block of the selected job, and reads what it shows.
    pub fn open_block_detail(&mut self, ordinal: usize, failed: bool)
        ensures
            final(self)@ == old(self)@.opened_block(ordinal, failed),
    {
        let job_id = match &self.selected_job_id {
            Some(id) => id.clone(),
            None => {
                return ;
            },
        };
        let generation: u64 = next_number(self.block_views);
        self.block_views = generation;
        self.block_detail = Some(
            BlockDetailState {
                job_id: job_id.clone(),
                ordinal,
                generation,
                tab: BlockDetailTab::Overview,
                failed,
                loading: true,
                detail: None,
                error: None,
                probe: BlockProbeState::default(),
            },
        );
        let task = JobsTask::LoadBlockDetail {
            generation,
            job_id,
            ordinal,
            book_ids: ids_of_books(&self.books),
        };
        self.tell(JobsSignal::Run(task));
        self.tell(JobsSignal::Notify);
    }

    /// Whether the view on a block is still the one that something was asked for.
    fn shows_block(&self, ordinal: usize, generation: u64) -> (r: bool)
        ensures
            r == self@.shows_block(ordinal, generation),
    {
        match &self.block_detail {
            Some(detail) => detail.ordinal == ordinal && detail.generation == generation,
            None => false,
        }
    }

    /// Takes over what was read for the view on a block, unless that was closed
    /// since, or another one was opened on whatever block.
    pub fn finish_block_detail(
        &mut self,
        ordinal: usize,
        generation: u64,
        result: Result<TranslationBlockDetail, String>,
    )
        ensures
            final(self)@ == old(self)@.block_read(ordinal, generation, result),
    {
        if !self.shows_block(ordinal, generation) {
            return ;
        }
        if let Some(state) = self.block_detail.take() {
            let changed = match result {
                Ok(loaded) => BlockDetailState {
                    loading: false,
                    detail: Some(loaded),
                    error: None,
                    ..state
                },
                Err(error) => {
                    let mut text = "无法读取文本块详情：".to_owned();
                    text.push_str(error.as_str());
                    BlockDetailState { loading: false, detail: None, error: Some(text), ..state }
                },
            };
            self.block_detail = Some(changed);
            self.tell(JobsSignal::ScrollBlockToTop);
            self.tell(JobsSignal::Notify);
        }
    }

    /// Asks the model again for the block whose view is open, unless it is being
    /// asked.
    pub fn probe_block_response(&mut self)
        ensures
            final(self)@ == old(self)@.probing_block(),
    {
        let loading: bool = match &self.block_detail {
            Some(detail) => detail.probe.loading,
            None => true,
        };
        if loading {
            return ;
        }
        if let Some(state) = self.block_detail.take() {
            let task = JobsTask::ProbeBlock {
                generation: state.generation,
                job_id: state.job_id.clone(),
                ordinal: state.ordinal,
                book_ids: ids_of_books(&self.books),
            };
            let changed = BlockDetailState {
                probe: BlockProbeState { loading: true, result: None, error: None },
                ..state
            };
            self.block_detail = Some(changed);
            self.tell(JobsSignal::Run(task));
            self.tell(JobsSignal::Notify);
        }
    }

    /// Takes over the answer of the model, unless the view was closed since, or
    /// another one was opened on whatever block.
    pub fn finish_probe(
        &mut self,
        ordinal: usize,
        generation: u64,
        result: Result<TranslationBlockProbe, String>,
    )
        ensures
            final(self)@ == old(self)@.block_probed(ordinal, generation, result),
    {
        if !self.shows_block(ordinal, generation) {
            return ;
        }
        if let Some(state) = self.block_detail.take() {
            let probe = match result {
                Ok(probe) => BlockProbeState { loading: false, result: Some(probe), error: None },
                Err(error) => {
                    let mut text = "无法重新请求模型：".to_owned();
                    text.push_str(error.as_str());
                    BlockProbeState { loading: false, result: None, error: Some(text) }
                },
            };
            let changed = BlockDetailState { probe, ..state };
            self.block_detail = Some(changed);
            self.tell(JobsSignal::Notify);
        }
    }

    /// Opens a part of the view on a block.
    pub fn set_block_tab(&mut self, tab: BlockDetailTab)
        ensures
            final(self)@ == old(self)@.on_block_tab(tab),
    {
        if let Some(state) = self.block_detail.take() {
            let changed = BlockDetailState { tab, ..state };
            self.block_detail = Some(changed);
            self.tell(JobsSignal::ScrollBlockToTop);
        }
        self.tell(JobsSignal::Notify);
    }

    /// Closes the view on a block.
    pub fn close_block_detail(&mut self)
        ensures
            final(self)@ == old(self)@.closed_block(),
    {
        if self.block_detail.is_some() {
            self.block_detail = None;
            self.tell(JobsSignal::Notify);
        }
    }

    /// Does something with a job, unless something is being done.
    pub fn apply_action(&mut self, job_id: &str, action: BackgroundJobAction)
        ensures
            final(self)@ == (if old(self)@.pending is Some {
                old(self)@
            } else {
                (JobsView {
                    pending: Some(job_id@),
                    notice: Some(("正在"@ + action_name(action) + "任务…"@, false)),
                    ..old(self)@
                }).telling(
                    JobsSignalView::Control(old(self)@.scope_generation, job_id@, action),
                ).telling(JobsSignalView::Notify)
            }),
    {
        if self.pending_job_id.is_some() {
            return ;
        }
        self.pending_job_id = Some(job_id.to_owned());
        let mut text = "正在".to_owned();
        text.push_str(action_verb(action));
        text.push_str("任务…");
        self.notice = notice_of(text, false);
        let task = JobsTask::Control {
            scope: self.scope_generation,
            job_id: job_id.to_owned(),
            action,
        };
        self.tell(JobsSignal::Run(task));
        self.tell(JobsSignal::Notify);
    }

    /// Takes note of what became of an action. What was read before it counts no
    /// longer.
    pub fn finish_action(
        &mut self,
        scope: u64,
        action: BackgroundJobAction,
        result: Result<bool, String>,
    )
        ensures
            final(self)@ == old(self)@.settled(scope, action_notice(action, result)),
    {
        self.pending_job_id = None;
        if scope == self.scope_generation {
            let verb = action_verb(action);
            match result {
                Ok(true) => {
                    let mut text = "已请求".to_owned();
                    text.push_str(verb);
                    text.push_str("任务。");
                    self.notice = notice_of(text, false);
                },
                Ok(false) => {
                    self.notice = notice_of("任务状态已发生变化，未重复执行操作。".to_owned(), false);
                },
                Err(error) => {
                    let mut text = verb.to_owned();
                    text.push_str("任务失败：");
                    text.push_str(error.as_str());
                    self.notice = notice_of(text, true);
                },
            }
        }
        self.refresh_generation = next_number(self.refresh_generation);
        self.loading = false;
        self.clear_detail_cache();
        self.refresh();
    }

    /// Asks for blocks of the selected job again, unless something is being done.
    pub fn retry_translation_blocks(&mut self, ordinals: Vec<usize>)
        ensures
            final(self)@ == (match old(self)@.selected {
                Some(job_id) => if old(self)@.pending is Some || ordinals@.len() == 0 {
                    old(self)@
                } else {
                    (JobsView {
                        pending: Some(job_id),
                        notice: Some(
                            ("正在重试 "@ + decimal(ordinals@.len()) + " 个文本块…"@, false),
                        ),
                        ..old(self)@
                    }).telling(
                        JobsSignalView::RetryBlocks(
                            old(self)@.scope_generation,
                            job_id,
                            ordinals@,
                            book_ids_of(old(self)@.books),
                        ),
                    ).telling(JobsSignalView::Notify)
                },
                None => old(self)@,
            }),
    {
        if self.pending_job_id.is_some() || ordinals.len() == 0 {
            return ;
        }
        let job_id = match &self.selected_job_id {
            Some(id) => id.clone(),
            None => {
                return ;
            },
        };
        self.pending_job_id = Some(job_id.clone());
        let mut text = "正在重试 ".to_owned();
        push_decimal(&mut text, ordinals.len() as u128);
        text.push_str(" 个文本块…");
        self.notice = notice_of(text, false);
        let task = JobsTask::RetryBlocks {
            scope: self.scope_generation,
            job_id,
            ordinals,
            book_ids: ids_of_books(&self.books),
        };
        self.tell(JobsSignal::Run(task));
        self.tell(JobsSignal::Notify);
    }

    /// Takes note of what became of blocks that were asked for again.
    pub fn finish_retry(&mut self, scope: u64, count: usize, result: Result<bool, String>)
        ensures
            final(self)@ == old(self)@.retried(scope, retry_notice(count as nat, result)),
    {
        self.pending_job_id = None;
        if scope == self.scope_generation {
            match result {
                Ok(true) => {
                    let mut text = "已请求重试 ".to_owned();
                    push_decimal(&mut text, count as u128);
                    text.push_str(" 个文本块。");
                    self.notice = notice_of(text, false);
                },
                Ok(false) => {
                    self.notice = notice_of(
                        "这些文本块已有译文或任务状态已变化，未重试。".to_owned(),
                        false,
                    );
                },
                Err(error) => {
                    let mut text = "重试文本块失败：".to_owned();
                    text.push_str(error.as_str());
                    self.notice = notice_of(text, true);
                },
            }
        }
        self.clear_blocks();
        self.refresh_generation = next_number(self.refresh_generation);
        self.loading = false;
        self.refresh();
    }

    /// Tells the reader that something was copied.
    pub fn note_copied(&mut self, block: bool)
        ensures
            final(self)@ == (JobsView {
                notice: Some(
                    if block {
                        ("已复制文本块调试信息。"@, false)
                    } else {
                        ("已复制所选任务的诊断信息。"@, false)
                    },
                ),
                ..old(self)@
            }).telling(JobsSignalView::Notify),
    {
        let text = if block {
            "已复制文本块调试信息。".to_owned()
        } else {
            "已复制所选任务的诊断信息。".to_owned()
        };
        self.notice = notice_of(text, false);
        self.tell(JobsSignal::Notify);
    }
}

/// The identifiers of the jobs on a page.
fn ids_on_page(jobs: &Vec<BackgroundJobSnapshot>, page: usize) -> (r: Vec<String>)
    requires
        page < page_count(jobs@.len() as int, JOBS_PER_PAGE as int),
    ensures
        texts(r@) == job_ids_of(page_of(jobs@, page as int, JOBS_PER_PAGE as int)),
{
    let ghost shown = page_of(jobs@, page as int, JOBS_PER_PAGE as int);
    let ghost expected = job_ids_of(shown);
    let total: usize = jobs.len();
    assert(page * JOBS_PER_PAGE <= total) by (nonlinear_arith)
        requires
            page < page_count(total as int, JOBS_PER_PAGE as int),
            JOBS_PER_PAGE == 12,
    ;
    let start: usize = page * JOBS_PER_PAGE;
    let end: usize = if total - start > JOBS_PER_PAGE {
        start + JOBS_PER_PAGE
    } else {
        total
    };
    assert(shown =~= jobs@.subrange(start as int, end as int));
    let mut out: Vec<String> = Vec::new();
    let mut i: usize = start;
    while i < end
        invariant
            start <= i <= end <= jobs@.len(),
            shown == jobs@.subrange(start as int, end as int),
            expected == job_ids_of(shown),
            texts(out@) =~= expected.subrange(0, i - start),
        decreases end - i,
    {
        let id = jobs[i].id.clone();
        let ghost had = out@;
        out.push(id);
        i = i + 1;
        proof {
            assert(texts(out@) =~= texts(had).push(id@));
            assert(expected.subrange(0, i - start) =~= expected.subrange(0, i - start - 1).push(
                id@,
            ));
        }
    }
    assert(expected.subrange(0, expected.len() as int) =~= expected);
    out
}

} // verus!
