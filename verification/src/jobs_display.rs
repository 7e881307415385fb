//! What the window of background jobs shows.

use crate::block_detail::{render_block_detail, BlockDetailModal};
use crate::block_inspector::{BlockInspector, BlockState, TranslationProgress, BLOCKS_PER_PAGE};
use crate::block_pages::{
    anchor, anchor_page, banner_lines, block_chapter_label, block_page_indices, blocks_copy_text,
    chapter_text, counts_text, failure_banner, hash_number, matching, page_count, page_of,
    pages_for, translation_blocks_copy, FailureBanner, TranslationBlockInfo, TranslationBlockList,
};
use crate::jobs::{
    actions_for, available_actions, detail_rows, diagnostic_log_copy, diagnostic_summary,
    job_kind_label, kind_matches, kind_name, log_copy_text, passes_kind, presented_status,
    progress_label, progress_text, row_views, rows_of, status_presentation, summary_text,
    BackgroundJobAction, BackgroundJobBook, BackgroundJobLogSnapshot, BackgroundJobSnapshot,
    BackgroundJobStatus, StatusTone,
};
use crate::jobs_window::{
    find_job, job_with_id, BackgroundJobsWindow, DetailTab, JobsView, JOBS_PER_PAGE,
};
use crate::json::{indented_object, or_raw, prettify_cursor};
use crate::text::{copy_option, decimal, option_text, push_decimal, same_text, texts};
use vstd::prelude::*;
use vstd::string::*;

verus! {

// ---------------------------------------------------------------------------
// Header and filters
// ---------------------------------------------------------------------------

/// The line below the title of the window.
pub open spec fn header_text(window: JobsView) -> Seq<char> {
    window.scope_label + " · "@ + decimal(window.books.len()) + " 本图书 · "@ + decimal(
        window.jobs.len(),
    ) + " 个任务"@
}

/// The head of the window.
#[derive(Debug, PartialEq, Eq)]
pub struct JobsHeader {
    pub line: String,
    pub auto_refresh_label: &'static str,
    pub refresh_label: &'static str,
    pub refresh_disabled: bool,
}

/// The kinds of jobs that there is a filter for, each with its label.
pub open spec fn kind_filters() -> Seq<(Seq<char>, Seq<char>)> {
    seq![
        (""@, "全部任务"@),
        ("translation"@, "图书翻译"@),
        ("embedding"@, "向量索引"@),
        ("vision"@, "视觉理解"@),
        ("visual_render"@, "页面渲染"@),
        ("other"@, "其他任务"@),
    ]
}

/// The filter for a kind of jobs.
#[derive(Debug, PartialEq, Eq)]
pub struct KindFilter {
    pub kind: &'static str,
    pub label: &'static str,
    /// How many jobs pass it.
    pub count: usize,
    pub selected: bool,
}

/// How many jobs pass a filter for kinds.
pub open spec fn kind_count(jobs: Seq<BackgroundJobSnapshot>, kind: Seq<char>) -> nat
    decreases jobs.len(),
{
    if jobs.len() == 0 {
        0
    } else {
        kind_count(jobs.drop_last(), kind) + (if passes_kind(jobs.last().kind@, kind) {
            1nat
        } else {
            0nat
        })
    }
}

/// A filter, as texts: kind, label, count, and whether it is selected.
pub open spec fn filter_view(filter: KindFilter) -> (Seq<char>, Seq<char>, nat, bool) {
    (filter.kind@, filter.label@, filter.count as nat, filter.selected)
}

/// The filter with a kind and a label, in a window.
pub open spec fn filter_in(window: JobsView, named: (Seq<char>, Seq<char>)) -> (
    Seq<char>,
    Seq<char>,
    nat,
    bool,
) {
    (named.0, named.1, kind_count(window.jobs, named.0), window.kind == named.0)
}

/// The filters for kinds of jobs that a window shows: the last one only where
/// some job passes it.
pub open spec fn shown_filters(window: JobsView) -> Seq<(Seq<char>, Seq<char>, nat, bool)> {
    let all = kind_filters().map_values(
        |named: (Seq<char>, Seq<char>)| filter_in(window, named),
    );
    if kind_count(window.jobs, "other"@) == 0 {
        all.drop_last()
    } else {
        all
    }
}

fn count_kind(jobs: &Vec<BackgroundJobSnapshot>, kind: &str) -> (r: usize)
    ensures
        r == kind_count(jobs@, kind@),
{
    let mut count: usize = 0;
    let mut i: usize = 0;
    assert(jobs@.subrange(0, 0) =~= Seq::<BackgroundJobSnapshot>::empty());
    while i < jobs.len()
        invariant
            i <= jobs@.len(),
            count <= i,
            count == kind_count(jobs@.subrange(0, i as int), kind@),
        decreases jobs@.len() - i,
    {
        assert(jobs@.subrange(0, i + 1).drop_last() =~= jobs@.subrange(0, i as int));
        if kind_matches(jobs[i].kind.as_str(), kind) {
            count = count + 1;
        }
        i = i + 1;
    }
    assert(jobs@.subrange(0, jobs@.len() as int) =~= jobs@);
    count
}

impl BackgroundJobsWindow {
    /// The head of the window.
    pub fn render_header(&self) -> (r: JobsHeader)
        ensures
            r.line@ == header_text(self@),
            r.auto_refresh_label@ == (if self@.auto_refresh {
                "自动刷新 · 2 秒"@
            } else {
                "自动刷新已暂停"@
            }),
            r.refresh_label@ == (if self@.loading {
                "刷新中…"@
            } else {
                "刷新"@
            }),
            r.refresh_disabled == self@.loading,
    {
        let mut line = self.scope_label.clone();
        line.push_str(" · ");
        push_decimal(&mut line, self.books.len() as u128);
        line.push_str(" 本图书 · ");
        push_decimal(&mut line, self.jobs.len() as u128);
        line.push_str(" 个任务");
        JobsHeader {
            line,
            auto_refresh_label: if self.auto_refresh {
                "自动刷新 · 2 秒"
            } else {
                "自动刷新已暂停"
            },
            refresh_label: if self.loading {
                "刷新中…"
            } else {
                "刷新"
            },
            refresh_disabled: self.loading,
        }
    }

    fn kind_filter(&self, kind: &'static str, label: &'static str) -> (r: KindFilter)
        ensures
            filter_view(r) == filter_in(self@, (kind@, label@)),
    {
        KindFilter {
            kind,
            label,
            count: count_kind(&self.jobs, kind),
            selected: same_text(self.kind.as_str(), kind),
        }
    }

    /// The filters for kinds of jobs.
    pub fn render_kinds_bar(&self) -> (r: Vec<KindFilter>)
        ensures
            r@.map_values(|f: KindFilter| filter_view(f)) == shown_filters(self@),
    {
        let mut out: Vec<KindFilter> = Vec::new();
        out.push(self.kind_filter("", "全部任务"));
        out.push(self.kind_filter("translation", "图书翻译"));
        out.push(self.kind_filter("embedding", "向量索引"));
        out.push(self.kind_filter("vision", "视觉理解"));
        out.push(self.kind_filter("visual_render", "页面渲染"));
        let other = self.kind_filter("other", "其他任务");
        let ghost all = kind_filters().map_values(
            |named: (Seq<char>, Seq<char>)| filter_in(self@, named),
        );
        assert(out@.map_values(|f: KindFilter| filter_view(f)) =~= all.drop_last());
        if other.count > 0 {
            out.push(other);
            assert(out@.map_values(|f: KindFilter| filter_view(f)) =~= all);
        }
        out
    }
}

/// The filters for the status of jobs, each with its label.
pub fn status_filters() -> (r: Vec<(Option<BackgroundJobStatus>, &'static str)>)
    ensures
        r@.map_values(|f: (Option<BackgroundJobStatus>, &'static str)| (f.0, f.1@)) == seq![
            (None, "全部状态"@),
            (Some(BackgroundJobStatus::Running), "运行中"@),
            (Some(BackgroundJobStatus::Queued), "排队中"@),
            (Some(BackgroundJobStatus::Paused), "已暂停"@),
            (Some(BackgroundJobStatus::Failed), "失败"@),
            (Some(BackgroundJobStatus::Succeeded), "已完成"@),
            (Some(BackgroundJobStatus::Cancelled), "已取消"@),
        ],
{
    let mut out: Vec<(Option<BackgroundJobStatus>, &'static str)> = Vec::new();
    out.push((None, "全部状态"));
    out.push((Some(BackgroundJobStatus::Running), "运行中"));
    out.push((Some(BackgroundJobStatus::Queued), "排队中"));
    out.push((Some(BackgroundJobStatus::Paused), "已暂停"));
    out.push((Some(BackgroundJobStatus::Failed), "失败"));
    out.push((Some(BackgroundJobStatus::Succeeded), "已完成"));
    out.push((Some(BackgroundJobStatus::Cancelled), "已取消"));
    assert(out@.map_values(|f: (Option<BackgroundJobStatus>, &'static str)| (f.0, f.1@)) =~= seq![
        (None, "全部状态"@),
        (Some(BackgroundJobStatus::Running), "运行中"@),
        (Some(BackgroundJobStatus::Queued), "排队中"@),
        (Some(BackgroundJobStatus::Paused), "已暂停"@),
        (Some(BackgroundJobStatus::Failed), "失败"@),
        (Some(BackgroundJobStatus::Succeeded), "已完成"@),
        (Some(BackgroundJobStatus::Cancelled), "已取消"@),
    ]);
    out
}

// ---------------------------------------------------------------------------
// The list
// ---------------------------------------------------------------------------

/// The title of the first book with an identifier.
pub open spec fn title_of(books: Seq<BackgroundJobBook>, id: Seq<char>) -> Seq<char>
    decreases books.len(),
{
    if books.len() == 0 {
        "图书已移除"@
    } else if books[0].id@ == id {
        books[0].title@
    } else {
        title_of(books.drop_first(), id)
    }
}

fn book_title(books: &Vec<BackgroundJobBook>, id: &str) -> (r: String)
    ensures
        r@ == title_of(books@, id@),
{
    let mut i: usize = 0;
    assert(books@.subrange(0, books@.len() as int) =~= books@);
    while i < books.len()
        invariant
            i <= books@.len(),
            title_of(books@.subrange(i as int, books@.len() as int), id@) == title_of(books@, id@),
        decreases books@.len() - i,
    {
        let ghost here = books@.subrange(i as int, books@.len() as int);
        assert(here.drop_first() =~= books@.subrange(i + 1, books@.len() as int));
        if same_text(books[i].id.as_str(), id) {
            return books[i].title.clone();
        }
        i = i + 1;
    }
    "图书已移除".to_owned()
}

/// A job on the list.
#[derive(Debug, PartialEq, Eq)]
pub struct JobRow {
    pub id: String,
    pub title: String,
    pub kind_line: String,
    pub status: &'static str,
    pub tone: StatusTone,
    pub progress: String,
    pub selected: bool,
}

impl JobRow {
    /// Whether the row is the one of a job.
    pub open spec fn shows(self, window: JobsView, job: BackgroundJobSnapshot) -> bool {
        &&& self.id@ == job.id@
        &&& self.title@ == title_of(window.books, job.book_id@)
        &&& self.kind_line@ == kind_name(job.kind@) + " · "@ + job.id@
        &&& (self.status@, self.tone) == presented_status(job)
        &&& self.progress@ == progress_text(job)
        &&& self.selected == (window.selected == Some(job.id@))
    }
}

/// The list of jobs.
#[derive(Debug, PartialEq, Eq)]
pub struct JobList {
    /// What stands in the place of the jobs where there are none.
    pub message: Option<&'static str>,
    pub rows: Vec<JobRow>,
    pub footer: String,
    pub previous_disabled: bool,
    pub next_disabled: bool,
}

/// What stands in the place of the jobs where none passes the filters.
pub open spec fn empty_message(window: JobsView) -> Seq<char> {
    if window.loading && !window.loaded {
        "正在读取任务…"@
    } else if !window.loaded && window.refresh_error is Some {
        "读取失败，请刷新重试。"@
    } else if window.books.len() == 0 {
        "当前范围没有图书。"@
    } else if window.jobs.len() == 0 {
        "当前范围还没有后台任务。"@
    } else {
        "没有符合搜索或筛选条件的任务。"@
    }
}

impl JobList {
    /// Whether this is the list that a window shows.
    pub open spec fn shows(self, window: JobsView) -> bool {
        let jobs = window.filtered();
        let shown = page_of(jobs, window.page, JOBS_PER_PAGE as int);
        let pages = page_count(jobs.len() as int, JOBS_PER_PAGE as int);
        &&& self.message is Some <==> jobs.len() == 0
        &&& self.message matches Some(message) ==> message@ == empty_message(window)
        &&& self.rows@.len() == shown.len()
        &&& forall|i: int|
            0 <= i < self.rows@.len() ==> (#[trigger] self.rows@[i]).shows(window, shown[i])
        &&& self.footer@ == "共 "@ + decimal(jobs.len()) + " 个任务 · 第 "@ + decimal(
            (window.page + 1) as nat,
        ) + " / "@ + decimal(pages as nat) + " 页"@
        &&& self.previous_disabled == (window.page == 0)
        &&& self.next_disabled == (window.page + 1 >= pages)
    }
}

impl BackgroundJobsWindow {
    fn job_row(&self, job: &BackgroundJobSnapshot) -> (r: JobRow)
        ensures
            r.shows(self@, *job),
    {
        let (status, tone) = status_presentation(job);
        let mut kind_line = job_kind_label(job.kind.as_str()).to_owned();
        kind_line.push_str(" · ");
        kind_line.push_str(job.id.as_str());
        let selected: bool = match &self.selected_job_id {
            Some(id) => same_text(id.as_str(), job.id.as_str()),
            None => false,
        };
        JobRow {
            id: job.id.clone(),
            title: book_title(&self.books, job.book_id.as_str()),
            kind_line,
            status,
            tone,
            progress: progress_label(job),
            selected,
        }
    }

    /// The list of jobs.
    pub fn render_list(&self) -> (r: JobList)
        ensures
            r.shows(self@),
    {
        let jobs = self.filtered_jobs();
        let count: usize = jobs.len();
        let pages: usize = pages_for(count, JOBS_PER_PAGE);
        let message = if count > 0 {
            None
        } else if self.loading && !self.loaded {
            Some("正在读取任务…")
        } else if !self.loaded && self.refresh_error.is_some() {
            Some("读取失败，请刷新重试。")
        } else if self.books.len() == 0 {
            Some("当前范围没有图书。")
        } else if self.jobs.len() == 0 {
            Some("当前范围还没有后台任务。")
        } else {
            Some("没有符合搜索或筛选条件的任务。")
        };
        let ghost shown = page_of(jobs@, self.page as int, JOBS_PER_PAGE as int);
        let start: usize = if self.page > count / JOBS_PER_PAGE {
            proof {
                let p = self.page as int;
                assert(p * 12 >= count) by (nonlinear_arith)
                    requires
                        p > count as int / 12,
                        count >= 0,
                ;
            }
            count
        } else {
            proof {
                let p = self.page as int;
                assert(p * 12 <= count) by (nonlinear_arith)
                    requires
                        p <= count as int / 12,
                        count >= 0,
                ;
            }
            self.page * JOBS_PER_PAGE
        };
        let end: usize = if count - start > JOBS_PER_PAGE {
            start + JOBS_PER_PAGE
        } else {
            count
        };
        assert(shown =~= jobs@.subrange(start as int, end as int));
        let mut rows: Vec<JobRow> = Vec::new();
        let mut i: usize = start;
        while i < end
            invariant
                start <= i <= end <= jobs@.len(),
                shown == jobs@.subrange(start as int, end as int),
                rows@.len() == i - start,
                forall|k: int| 0 <= k < rows@.len() ==> (#[trigger] rows@[k]).shows(self@, shown[k]),
            decreases end - i,
        {
            let row = self.job_row(&jobs[i]);
            rows.push(row);
            i = i + 1;
        }
        let mut footer = "共 ".to_owned();
        push_decimal(&mut footer, count as u128);
        footer.push_str(" 个任务 · 第 ");
        push_decimal(&mut footer, self.page as u128 + 1);
        footer.push_str(" / ");
        push_decimal(&mut footer, pages as u128);
        footer.push_str(" 页");
        JobList {
            message,
            rows,
            footer,
            previous_disabled: self.page == 0,
            next_disabled: self.page >= pages - 1,
        }
    }
}

// ---------------------------------------------------------------------------
// The blocks
// ---------------------------------------------------------------------------

/// A block on the list.
#[derive(Debug, PartialEq, Eq)]
pub struct BlockRow {
    pub ordinal: usize,
    pub number: String,
    pub state: BlockState,
    pub chapter: String,
    pub preview: String,
    /// Only a failed block can be asked for again.
    pub offers_retry: bool,
    pub retry_disabled: bool,
    pub reason_line: Option<String>,
}

/// The beginning of a block, as it is shown.
pub open spec fn preview_text(block: TranslationBlockInfo) -> Seq<char> {
    if block.source_preview@.len() == 0 {
        "（无文字内容）"@
    } else {
        block.source_preview@
    }
}

/// The line that says why a block failed.
pub open spec fn reason_text(inspector: BlockInspector, index: int) -> Option<Seq<char>> {
    match inspector.failures.reason_text(index) {
        Some(reason) => Some("失败原因："@ + reason),
        None => None,
    }
}

impl BlockRow {
    /// Whether the row is the one of a block.
    pub open spec fn shows(
        self,
        pending: bool,
        inspector: BlockInspector,
        block: TranslationBlockInfo,
        index: int,
    ) -> bool {
        &&& self.ordinal == block.ordinal
        &&& self.number@ == hash_number(block.ordinal)
        &&& self.state == inspector.state_of(index)
        &&& self.chapter@ == chapter_text(block)
        &&& self.preview@ == preview_text(block)
        &&& self.offers_retry == (self.state == BlockState::Failed)
        &&& self.retry_disabled == pending
        &&& option_text(self.reason_line) == reason_text(inspector, index)
    }
}

/// The blocks of the list at some places, as far as there are any.
pub open spec fn present(indices: Seq<usize>, blocks: nat) -> Seq<usize>
    decreases indices.len(),
{
    if indices.len() == 0 {
        Seq::empty()
    } else {
        let before = present(indices.drop_last(), blocks);
        if indices.last() < blocks {
            before.push(indices.last())
        } else {
            before
        }
    }
}

/// Whether rows are those of the blocks at some places.
pub open spec fn are_rows_of(
    rows: Seq<BlockRow>,
    pending: bool,
    inspector: BlockInspector,
    blocks: TranslationBlockList,
    places: Seq<usize>,
) -> bool {
    rows.len() == places.len() && forall|i: int|
        0 <= i < rows.len() ==> (#[trigger] rows[i]).shows(
            pending,
            inspector,
            blocks.blocks@[places[i] as int],
            places[i] as int,
        )
}

/// Filters for the state of blocks, as texts.
pub open spec fn filter_views(filters: Seq<(Option<BlockState>, String, bool)>) -> Seq<
    (Option<BlockState>, Seq<char>, bool),
> {
    filters.map_values(|f: (Option<BlockState>, String, bool)| (f.0, f.1@, f.2))
}

/// The blocks of a job.
#[derive(Debug, PartialEq, Eq)]
pub struct BlockList {
    pub banner: Option<FailureBanner>,
    pub counts_line: String,
    pub language_line: String,
    /// State, label, and whether the filter is selected.
    pub filters: Vec<(Option<BlockState>, String, bool)>,
    /// Whether it is explained how failed blocks are asked for again.
    pub retry_hint: bool,
    pub page_line: String,
    pub empty: bool,
    pub rows: Vec<BlockRow>,
    pub page: usize,
    pub pages: usize,
    pub previous_disabled: bool,
    pub next_disabled: bool,
    /// The page with the block where the job has arrived.
    pub anchor: usize,
    pub jump_disabled: bool,
}

/// What stands where the blocks of a job are shown.
#[derive(Debug, PartialEq, Eq)]
pub enum BlocksPanel {
    Error(String),
    Loading,
    NotLoaded,
    Loaded(BlockList),
}

/// The line with the numbers of blocks.
pub open spec fn counts_line(progress: TranslationProgress) -> Seq<char> {
    "共 "@ + decimal(progress.total as nat) + " 个文本块 · 已处理 "@ + counts_text(progress)
}

/// The filters for the state of blocks: state, label, and whether it is selected.
pub open spec fn state_filters(
    progress: TranslationProgress,
    selected: Option<BlockState>,
) -> Seq<(Option<BlockState>, Seq<char>, bool)> {
    seq![
        (None, "全部 "@ + decimal(progress.total as nat), selected is None),
        (
            Some(BlockState::Done),
            "已处理 "@ + decimal(progress.done as nat),
            selected == Some(BlockState::Done),
        ),
        (
            Some(BlockState::Processing),
            "处理中 "@ + decimal(progress.processing@.len()),
            selected == Some(BlockState::Processing),
        ),
        (
            Some(BlockState::Failed),
            "失败 "@ + decimal(progress.failed as nat),
            selected == Some(BlockState::Failed),
        ),
        (
            Some(BlockState::Pending),
            "待处理 "@ + decimal(progress.pending as nat),
            selected == Some(BlockState::Pending),
        ),
    ]
}

/// The line that says which page is shown.
pub open spec fn page_text(
    indices: Seq<usize>,
    filtered: nat,
    page: int,
    pages: int,
) -> Seq<char> {
    let where_text = decimal((page + 1) as nat) + "/"@ + decimal(pages as nat) + " 页"@;
    if indices.len() > 0 {
        "显示 #"@ + decimal(indices[0] as nat) + "–#"@ + decimal(indices.last() as nat)
            + "（筛选后 "@ + decimal(filtered) + " 块 · 第 "@ + where_text + "）"@
    } else {
        "筛选后 0 块 · 第 "@ + where_text
    }
}

impl BlockList {
    /// Whether these are the blocks of a job as a window shows them.
    pub open spec fn shows(
        self,
        window: JobsView,
        job: BackgroundJobSnapshot,
        blocks: TranslationBlockList,
        inspector: BlockInspector,
    ) -> bool {
        let progress = inspector.progress;
        let filtered = progress.filtered_count(window.blocks_state);
        let pages = page_count(filtered as int, BLOCKS_PER_PAGE as int);
        let page = if window.blocks_page < pages - 1 {
            window.blocks_page
        } else {
            pages - 1
        };
        let indices = page_of(
            matching(inspector, window.blocks_state, blocks.total as int),
            page,
            BLOCKS_PER_PAGE as int,
        );
        let listed = present(indices, blocks.blocks@.len());
        let jump = anchor(inspector, window.blocks_state, blocks.total as int);
        &&& banner_lines(job, inspector) == (match self.banner {
            Some(banner) => Some(texts(banner.lines@)),
            None => None,
        })
        &&& self.banner matches Some(banner) ==> banner.failed_task == (job.status is Failed)
        &&& self.counts_line@ == counts_line(progress)
        &&& self.language_line@ == "目标语言："@ + blocks.language()
        &&& filter_views(self.filters@) == state_filters(progress, window.blocks_state)
        &&& self.retry_hint == (progress.failed > 0)
        &&& self.page == page
        &&& self.pages == pages
        &&& self.page_line@ == page_text(indices, filtered, page, pages)
        &&& self.empty == (indices.len() == 0)
        &&& are_rows_of(self.rows@, window.pending is Some, inspector, blocks, listed)
        &&& self.previous_disabled == (page == 0)
        &&& self.next_disabled == (page + 1 >= pages)
        &&& self.anchor == (if jump < pages - 1 {
            jump
        } else {
            pages - 1
        })
        &&& self.jump_disabled == (progress.total == 0)
    }
}

fn block_row(
    pending: bool,
    inspector: &BlockInspector,
    block: &TranslationBlockInfo,
    index: usize,
) -> (r: BlockRow)
    requires
        inspector.failures.wf(),
    ensures
        r.shows(pending, *inspector, *block, index as int),
{
    let state = inspector.state(index);
    let mut number = "#".to_owned();
    push_decimal(&mut number, block.ordinal as u128);
    let preview = if block.source_preview.as_str().is_empty() {
        "（无文字内容）".to_owned()
    } else {
        block.source_preview.clone()
    };
    let reason_line = match inspector.reason(index) {
        Some(reason) => {
            let mut line = "失败原因：".to_owned();
            line.push_str(reason);
            Some(line)
        },
        None => None,
    };
    BlockRow {
        ordinal: block.ordinal,
        number,
        state,
        chapter: block_chapter_label(block),
        preview,
        offers_retry: state == BlockState::Failed,
        retry_disabled: pending,
        reason_line,
    }
}

fn state_filter(
    state: Option<BlockState>,
    label: &str,
    count: usize,
    selected: Option<BlockState>,
) -> (r: (Option<BlockState>, String, bool))
    ensures
        r.0 == state,
        r.1@ == label@ + decimal(count as nat),
        r.2 == (selected == state),
{
    let mut text = label.to_owned();
    push_decimal(&mut text, count as u128);
    let same: bool = match (selected, state) {
        (Some(a), Some(b)) => a == b,
        (None, None) => true,
        _ => false,
    };
    (state, text, same)
}

fn counts_label(progress: &TranslationProgress) -> (r: String)
    ensures
        r@ == counts_line(*progress),
{
    let mut counts = "共 ".to_owned();
    push_decimal(&mut counts, progress.total as u128);
    counts.push_str(" 个文本块 · 已处理 ");
    push_decimal(&mut counts, progress.done as u128);
    counts.push_str(" · 处理中 ");
    push_decimal(&mut counts, progress.processing.len() as u128);
    counts.push_str(" · 失败 ");
    push_decimal(&mut counts, progress.failed as u128);
    counts.push_str(" · 待处理 ");
    push_decimal(&mut counts, progress.pending as u128);
    assert(counts@ =~= counts_line(*progress));
    counts
}

fn filters_of(progress: &TranslationProgress, selected: Option<BlockState>) -> (r: Vec<
    (Option<BlockState>, String, bool),
>)
    ensures
        filter_views(r@) == state_filters(*progress, selected),
{
    let mut filters: Vec<(Option<BlockState>, String, bool)> = Vec::new();
    filters.push(state_filter(None, "全部 ", progress.total, selected));
    filters.push(state_filter(Some(BlockState::Done), "已处理 ", progress.done, selected));
    filters.push(
        state_filter(
            Some(BlockState::Processing),
            "处理中 ",
            progress.processing.len(),
            selected,
        ),
    );
    filters.push(state_filter(Some(BlockState::Failed), "失败 ", progress.failed, selected));
    filters.push(state_filter(Some(BlockState::Pending), "待处理 ", progress.pending, selected));
    assert(filter_views(filters@) =~= state_filters(*progress, selected));
    filters
}

fn page_label(indices: &Vec<usize>, filtered: usize, page: usize, pages: usize) -> (r: String)
    ensures
        r@ == page_text(indices@, filtered as nat, page as int, pages as int),
{
    let mut position = String::new();
    push_decimal(&mut position, page as u128 + 1);
    position.push_str("/");
    push_decimal(&mut position, pages as u128);
    position.push_str(" 页");
    assert(position@ =~= decimal((page + 1) as nat) + "/"@ + decimal(pages as nat) + " 页"@);
    if indices.len() > 0 {
        let mut line = "显示 #".to_owned();
        push_decimal(&mut line, indices[0] as u128);
        line.push_str("–#");
        push_decimal(&mut line, indices[indices.len() - 1] as u128);
        line.push_str("（筛选后 ");
        push_decimal(&mut line, filtered as u128);
        line.push_str(" 块 · 第 ");
        line.push_str(position.as_str());
        line.push_str("）");
        line
    } else {
        let mut line = "筛选后 0 块 · 第 ".to_owned();
        line.push_str(position.as_str());
        line
    }
}

fn listed_rows(
    pending: bool,
    inspector: &BlockInspector,
    blocks: &TranslationBlockList,
    indices: &Vec<usize>,
) -> (r: Vec<BlockRow>)
    requires
        inspector.failures.wf(),
    ensures
        are_rows_of(
            r@,
            pending,
            *inspector,
            *blocks,
            present(indices@, blocks.blocks@.len()),
        ),
{
    let mut rows: Vec<BlockRow> = Vec::new();
    let mut i: usize = 0;
    assert(indices@.subrange(0, 0) =~= Seq::<usize>::empty());
    while i < indices.len()
        invariant
            i <= indices@.len(),
            inspector.failures.wf(),
            are_rows_of(
                rows@,
                pending,
                *inspector,
                *blocks,
                present(indices@.subrange(0, i as int), blocks.blocks@.len()),
            ),
        decreases indices@.len() - i,
    {
        assert(indices@.subrange(0, i + 1).drop_last() =~= indices@.subrange(0, i as int));
        let index: usize = indices[i];
        if index < blocks.blocks.len() {
            let row = block_row(pending, inspector, &blocks.blocks[index], index);
            rows.push(row);
        }
        i = i + 1;
    }
    assert(indices@.subrange(0, indices@.len() as int) =~= indices@);
    rows
}

impl BackgroundJobsWindow {
    /// The blocks of a job as they are listed.
    fn block_list(
        &self,
        job: &BackgroundJobSnapshot,
        blocks: &TranslationBlockList,
        inspector: &BlockInspector,
    ) -> (r: BlockList)
        requires
            inspector.wf(),
        ensures
            r.shows(self@, *job, *blocks, *inspector),
    {
        let progress = &inspector.progress;
        let mut language_line = "目标语言：".to_owned();
        language_line.push_str(blocks.language_label());
        let selected = self.blocks_state;
        let filtered: usize = progress.filtered(selected);
        let pages: usize = pages_for(filtered, BLOCKS_PER_PAGE);
        let page: usize = if self.blocks_page < pages - 1 {
            self.blocks_page
        } else {
            pages - 1
        };
        let indices = block_page_indices(blocks, inspector, selected, page);
        let jump: usize = anchor_page(blocks, inspector, selected);
        let rows = listed_rows(self.pending_job_id.is_some(), inspector, blocks, &indices);
        let banner = failure_banner(job, inspector);
        BlockList {
            banner,
            counts_line: counts_label(progress),
            language_line,
            filters: filters_of(progress, selected),
            retry_hint: progress.failed > 0,
            page_line: page_label(&indices, filtered, page, pages),
            empty: indices.len() == 0,
            rows,
            page,
            pages,
            previous_disabled: page == 0,
            next_disabled: page >= pages - 1,
            anchor: if jump < pages - 1 {
                jump
            } else {
                pages - 1
            },
            jump_disabled: progress.total == 0,
        }
    }

    /// What stands where the blocks of a job are shown.
    pub fn translation_block_rows(
        &self,
        job: &BackgroundJobSnapshot,
        inspector: Option<&BlockInspector>,
    ) -> (r: BlocksPanel)
        requires
            inspector matches Some(inspector) ==> inspector.wf(),
        ensures
            match (self@.blocks_error, self@.blocks, inspector) {
                (Some(error), _, _) => r matches BlocksPanel::Error(text) && text@ == error,
                (None, Some(blocks), Some(inspector)) => r matches BlocksPanel::Loaded(list)
                    && list.shows(self@, *job, blocks, *inspector),
                _ => if self@.blocks_loading {
                    r is Loading
                } else {
                    r is NotLoaded
                },
            },
    {
        if let Some(error) = &self.blocks_error {
            return BlocksPanel::Error(error.clone());
        }
        match (&self.blocks, inspector) {
            (Some(blocks), Some(inspector)) => BlocksPanel::Loaded(
                self.block_list(job, blocks, inspector),
            ),
            _ => if self.blocks_loading {
                BlocksPanel::Loading
            } else {
                BlocksPanel::NotLoaded
            },
        }
    }
}

// ---------------------------------------------------------------------------
// The details
// ---------------------------------------------------------------------------

/// The body of the details of a job.
#[derive(Debug, PartialEq, Eq)]
pub enum DetailBody {
    Summary { rows: Vec<(&'static str, String)>, error: Option<String>, cursor: Option<String> },
    Logs {
        error: Option<String>,
        /// The newest line first; nothing where no log was read.
        lines: Option<Vec<String>>,
        truncated: bool,
        loading: bool,
    },
    Blocks(BlocksPanel),
}

/// The details of a job.
#[derive(Debug, PartialEq, Eq)]
pub struct DetailPanel {
    /// Part, label, and whether it is open.
    pub tabs: Vec<(DetailTab, &'static str, bool)>,
    /// The failed blocks that can be asked for again as a whole, and the label of
    /// the button.
    pub retry_failed: Option<(Vec<usize>, String)>,
    pub actions: Vec<BackgroundJobAction>,
    pub actions_disabled: bool,
    pub copy_label: &'static str,
    pub copy_text: Option<String>,
    pub copy_disabled: bool,
    pub body: DetailBody,
}

/// The parts of the details of a job: part, label, and whether it is open.
pub open spec fn detail_tab_items(kind: Seq<char>, open: DetailTab) -> Seq<
    (DetailTab, Seq<char>, bool),
> {
    let items = seq![
        (DetailTab::Summary, "任务详情"@, open == DetailTab::Summary),
        (DetailTab::Logs, "运行日志"@, open == DetailTab::Logs),
    ];
    if kind == "translation"@ {
        items.push((DetailTab::Blocks, "文本块明细"@, open == DetailTab::Blocks))
    } else {
        items
    }
}

/// What the copy button copies.
pub open spec fn copied_text(
    window: JobsView,
    job: BackgroundJobSnapshot,
    inspector: Option<BlockInspector>,
) -> Option<Seq<char>> {
    match window.tab {
        DetailTab::Summary => Some(summary_text(job)),
        DetailTab::Logs => match window.logs {
            Some(logs) => Some(log_copy_text(job, logs)),
            None => None,
        },
        DetailTab::Blocks => match (window.blocks, inspector) {
            (Some(blocks), Some(inspector)) => Some(blocks_copy_text(job, blocks, inspector)),
            _ => None,
        },
    }
}

/// The lines of a log, the newest first.
pub open spec fn newest_first(logs: BackgroundJobLogSnapshot) -> Seq<Seq<char>> {
    crate::jobs::log_lines(logs.entries@).reverse()
}

impl DetailBody {
    /// Whether this is the body of the details of a job.
    pub open spec fn shows(
        self,
        window: JobsView,
        job: BackgroundJobSnapshot,
        inspector: Option<BlockInspector>,
    ) -> bool {
        match window.tab {
            DetailTab::Summary => {
                &&& self is Summary
                &&& row_views(self->rows@) == rows_of(job)
                &&& option_text(self->Summary_error) == option_text(job.error)
                &&& option_text(self->cursor) == (match job.cursor_json {
                    Some(cursor) => Some(or_raw(indented_object(cursor@), cursor@)),
                    None => None,
                })
            },
            DetailTab::Logs => {
                &&& self is Logs
                &&& option_text(self->Logs_error) == window.logs_error
                &&& match (self->lines, window.logs) {
                    (Some(lines), Some(logs)) => texts(lines@) == newest_first(logs)
                        && self->truncated == logs.truncated,
                    (None, None) => !self->truncated,
                    _ => false,
                }
                &&& self->loading == (window.logs is None && window.logs_loading)
            },
            DetailTab::Blocks => match (window.blocks_error, window.blocks, inspector) {
                (Some(error), _, _) => self matches DetailBody::Blocks(
                    BlocksPanel::Error(text),
                ) && text@ == error,
                (None, Some(blocks), Some(inspector)) => self matches DetailBody::Blocks(
                    BlocksPanel::Loaded(list),
                ) && list.shows(window, job, blocks, inspector),
                _ => if window.blocks_loading {
                    self matches DetailBody::Blocks(BlocksPanel::Loading)
                } else {
                    self matches DetailBody::Blocks(BlocksPanel::NotLoaded)
                },
            },
        }
    }
}

impl DetailPanel {
    /// Whether these are the details of a job, given its blocks.
    pub open spec fn shows(
        self,
        window: JobsView,
        job: BackgroundJobSnapshot,
        inspector: Option<BlockInspector>,
    ) -> bool {
        let text = copied_text(window, job, inspector);
        &&& self.tabs@.map_values(
            |t: (DetailTab, &'static str, bool)| (t.0, t.1@, t.2),
        ) == detail_tab_items(job.kind@, window.tab)
        &&& match (self.retry_failed, inspector) {
            (Some((ordinals, label)), Some(inspector)) => {
                &&& window.tab == DetailTab::Blocks
                &&& ordinals@ == matching(
                    inspector,
                    Some(BlockState::Failed),
                    inspector.progress.total as int,
                )
                &&& ordinals@.len() > 0
                &&& label@ == "重试失败块（"@ + decimal(ordinals@.len()) + "）"@
            },
            (Some(_), None) => false,
            (None, Some(inspector)) => window.tab != DetailTab::Blocks || matching(
                inspector,
                Some(BlockState::Failed),
                inspector.progress.total as int,
            ).len() == 0,
            (None, None) => true,
        }
        &&& self.actions@ == actions_for(job)
        &&& self.actions_disabled == (window.pending is Some)
        &&& self.copy_label@ == (match window.tab {
            DetailTab::Logs => "复制日志"@,
            DetailTab::Blocks => "复制概览"@,
            DetailTab::Summary => "复制详情"@,
        })
        &&& option_text(self.copy_text) == text
        &&& self.copy_disabled == (text is None || match window.tab {
            DetailTab::Logs => window.logs_error is Some || window.logs_loading,
            DetailTab::Blocks => window.blocks_loading,
            DetailTab::Summary => false,
        })
        &&& self.body.shows(window, job, inspector)
    }
}

/// Whether these are the blocks of a job, as far as they were read.
pub open spec fn is_inspector_of(
    window: JobsView,
    job: BackgroundJobSnapshot,
    inspector: Option<BlockInspector>,
) -> bool {
    match (window.blocks, inspector) {
        (Some(blocks), Some(inspector)) => inspector.is_of(job, blocks.total, window.logs),
        (None, None) => true,
        _ => false,
    }
}

impl DetailPanel {
    /// Whether these are the details of a job.
    pub open spec fn is_detail_of(self, window: JobsView, job: BackgroundJobSnapshot) -> bool {
        exists|inspector: Option<BlockInspector>| #[trigger]
            is_inspector_of(window, job, inspector) && self.shows(window, job, inspector)
    }
}

/// The job that is selected.
pub open spec fn selected_job(window: JobsView) -> Option<BackgroundJobSnapshot> {
    match window.selected {
        Some(id) => job_with_id(window.jobs, id),
        None => None,
    }
}

fn failed_ordinals(inspector: &BlockInspector) -> (r: Vec<usize>)
    ensures
        r@ == matching(
            *inspector,
            Some(BlockState::Failed),
            inspector.progress.total as int,
        ),
{
    let total: usize = inspector.progress.total;
    let mut out: Vec<usize> = Vec::new();
    let mut i: usize = 0;
    while i < total
        invariant
            i <= total,
            out@ == matching(*inspector, Some(BlockState::Failed), i as int),
        decreases total - i,
    {
        if inspector.state(i) == BlockState::Failed {
            out.push(i);
        }
        i = i + 1;
    }
    out
}

fn lines_newest_first(logs: &BackgroundJobLogSnapshot) -> (r: Vec<String>)
    ensures
        texts(r@) == newest_first(*logs),
{
    let ghost expected = newest_first(*logs);
    let mut out: Vec<String> = Vec::new();
    let mut left: usize = logs.entries.len();
    assert(expected.len() == logs.entries@.len());
    while left > 0
        invariant
            left <= logs.entries@.len(),
            expected == newest_first(*logs),
            expected.len() == logs.entries@.len(),
            texts(out@) =~= expected.subrange(0, logs.entries@.len() - left),
        decreases left,
    {
        let line = logs.entries[left - 1].line.clone();
        let ghost had = out@;
        let ghost at = logs.entries@.len() - left;
        out.push(line);
        left = left - 1;
        proof {
            assert(expected[at] == line@);
            assert(texts(out@) =~= texts(had).push(line@));
            assert(expected.subrange(0, at + 1) =~= expected.subrange(0, at).push(line@));
        }
    }
    assert(expected.subrange(0, expected.len() as int) =~= expected);
    out
}

impl BackgroundJobsWindow {
    /// The details of the selected job; nothing where none is selected.
    pub fn render_detail(&self) -> (r: Option<DetailPanel>)
        ensures
            match (r, selected_job(self@)) {
                (Some(panel), Some(job)) => panel.is_detail_of(self@, job),
                (None, None) => true,
                _ => false,
            },
    {
        let job = match &self.selected_job_id {
            Some(id) => match find_job(&self.jobs, id.as_str()) {
                Some(job) => job,
                None => {
                    return None;
                },
            },
            None => {
                return None;
            },
        };
        let inspector: Option<BlockInspector> = match &self.blocks {
            Some(blocks) => {
                let logs = match &self.logs {
                    Some(logs) => Some(logs),
                    None => None,
                };
                Some(BlockInspector::new(job, blocks.total, logs))
            },
            None => None,
        };
        let panel = self.detail_panel(job, &inspector);
        assert(is_inspector_of(self@, *job, inspector));
        assert(panel.is_detail_of(self@, *job));
        Some(panel)
    }

    /// The details of a job, given its blocks.
    pub fn detail_panel(&self, job: &BackgroundJobSnapshot, inspector: &Option<BlockInspector>) -> (r:
        DetailPanel)
        requires
            *inspector matches Some(inspector) ==> inspector.wf(),
        ensures
            r.shows(self@, *job, *inspector),
    {
        let mut tabs: Vec<(DetailTab, &'static str, bool)> = Vec::new();
        tabs.push((DetailTab::Summary, "任务详情", self.tab == DetailTab::Summary));
        tabs.push((DetailTab::Logs, "运行日志", self.tab == DetailTab::Logs));
        if same_text(job.kind.as_str(), "translation") {
            tabs.push((DetailTab::Blocks, "文本块明细", self.tab == DetailTab::Blocks));
        }
        assert(tabs@.map_values(|t: (DetailTab, &'static str, bool)| (t.0, t.1@, t.2))
            =~= detail_tab_items(job.kind@, self@.tab));
        let mut retry_failed: Option<(Vec<usize>, String)> = None;
        if self.tab == DetailTab::Blocks {
            if let Some(inspector) = inspector {
                let ordinals = failed_ordinals(inspector);
                if ordinals.len() > 0 {
                    let mut label = "重试失败块（".to_owned();
                    push_decimal(&mut label, ordinals.len() as u128);
                    label.push_str("）");
                    retry_failed = Some((ordinals, label));
                }
            }
        }
        let copy_text: Option<String> = match self.tab {
            DetailTab::Summary => Some(diagnostic_summary(job)),
            DetailTab::Logs => match &self.logs {
                Some(logs) => Some(diagnostic_log_copy(job, logs)),
                None => None,
            },
            DetailTab::Blocks => match (&self.blocks, inspector) {
                (Some(blocks), Some(inspector)) => Some(
                    translation_blocks_copy(job, blocks, inspector),
                ),
                _ => None,
            },
        };
        let busy: bool = match self.tab {
            DetailTab::Logs => self.logs_error.is_some() || self.logs_loading,
            DetailTab::Blocks => self.blocks_loading,
            DetailTab::Summary => false,
        };
        let copy_disabled: bool = copy_text.is_none() || busy;
        let body = match self.tab {
            DetailTab::Summary => DetailBody::Summary {
                rows: detail_rows(job),
                error: copy_option(&job.error),
                cursor: match &job.cursor_json {
                    Some(cursor) => Some(prettify_cursor(cursor.as_str())),
                    None => None,
                },
            },
            DetailTab::Logs => DetailBody::Logs {
                error: copy_option(&self.logs_error),
                lines: match &self.logs {
                    Some(logs) => Some(lines_newest_first(logs)),
                    None => None,
                },
                truncated: match &self.logs {
                    Some(logs) => logs.truncated,
                    None => false,
                },
                loading: self.logs.is_none() && self.logs_loading,
            },
            DetailTab::Blocks => {
                let blocks_inspector = match inspector {
                    Some(inspector) => Some(inspector),
                    None => None,
                };
                DetailBody::Blocks(self.translation_block_rows(job, blocks_inspector))
            },
        };
        DetailPanel {
            tabs,
            retry_failed,
            actions: available_actions(job),
            actions_disabled: self.pending_job_id.is_some(),
            copy_label: match self.tab {
                DetailTab::Logs => "复制日志",
                DetailTab::Blocks => "复制概览",
                DetailTab::Summary => "复制详情",
            },
            copy_text,
            copy_disabled,
            body,
        }
    }

    /// The view on a block; nothing where none is open.
    pub fn render_block_detail_modal(&self) -> (r: Option<BlockDetailModal>)
        ensures
            match (r, self.block_detail) {
                (Some(modal), Some(state)) => modal.shows(state),
                (None, None) => true,
                _ => false,
            },
    {
        match &self.block_detail {
            Some(state) => Some(render_block_detail(state)),
            None => None,
        }
    }
}

} // verus!
