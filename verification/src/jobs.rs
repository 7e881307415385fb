//! Background jobs: what they are called, which are listed, and what may be done
//! with them.

use crate::calendar::{format_timestamp, not_set, timestamp};
use crate::json::{indented_object, or_raw, prettify_cursor};
use crate::text::{
    contains_text, copy_option, decimal, has_text, join, joined, push_decimal, same_text, texts,
};
use vstd::prelude::*;
use vstd::string::*;

verus! {

/// How far a job has come.
#[derive(Clone, Copy, Debug, PartialEq, Eq, Structural)]
pub enum BackgroundJobStatus {
    Queued,
    Running,
    Paused,
    Succeeded,
    Failed,
    Cancelled,
}

/// What may be done with a job.
#[derive(Clone, Copy, Debug, PartialEq, Eq, Structural)]
pub enum BackgroundJobAction {
    Pause,
    Resume,
    Retry,
    Cancel,
    Retranslate,
}

/// How many items of a job are done, and how many there are, if that is known.
#[derive(Clone, Copy, Debug, PartialEq, Eq, Structural)]
pub struct BackgroundJobProgress {
    pub completed: usize,
    pub total: Option<usize>,
}

/// A job as it is stored.
#[derive(Debug, PartialEq, Eq)]
pub struct BackgroundJobSnapshot {
    pub id: String,
    pub book_id: String,
    pub source_id: Option<String>,
    pub kind: String,
    pub status: BackgroundJobStatus,
    pub pause_requested: bool,
    pub cancel_requested: bool,
    pub attempts: u32,
    pub progress: BackgroundJobProgress,
    pub error: Option<String>,
    pub created_at: u64,
    pub updated_at: u64,
    pub started_at: Option<u64>,
    pub finished_at: Option<u64>,
    pub cursor_json: Option<String>,
}

impl Clone for BackgroundJobSnapshot {
    fn clone(&self) -> (r: Self)
        ensures
            r == *self,
    {
        BackgroundJobSnapshot {
            id: self.id.clone(),
            book_id: self.book_id.clone(),
            source_id: copy_option(&self.source_id),
            kind: self.kind.clone(),
            status: self.status,
            pause_requested: self.pause_requested,
            cancel_requested: self.cancel_requested,
            attempts: self.attempts,
            progress: self.progress,
            error: copy_option(&self.error),
            created_at: self.created_at,
            updated_at: self.updated_at,
            started_at: self.started_at,
            finished_at: self.finished_at,
            cursor_json: copy_option(&self.cursor_json),
        }
    }
}

/// A book that jobs may belong to.
#[derive(Debug, PartialEq, Eq)]
pub struct BackgroundJobBook {
    pub id: String,
    pub title: String,
}

impl Clone for BackgroundJobBook {
    fn clone(&self) -> (r: Self)
        ensures
            r == *self,
    {
        BackgroundJobBook { id: self.id.clone(), title: self.title.clone() }
    }
}

// ---------------------------------------------------------------------------
// Filters
// ---------------------------------------------------------------------------

/// A text in lower case.
pub uninterp spec fn lower_case(text: Seq<char>) -> Seq<char>;

/// `str::to_lowercase`, which depends on the text alone.
#[verifier::external_body]
pub(crate) fn to_lower_case(text: &str) -> (r: String)
    ensures
        r@ == lower_case(text@),
{
    text.to_lowercase()
}

/// Whether a job is of a kind that has a filter of its own.
pub open spec fn is_listed_kind(kind: Seq<char>) -> bool {
    kind == "translation"@ || kind == "embedding"@ || kind == "vision"@ || kind
        == "visual_render"@
}

/// Whether a kind of jobs passes a filter.
pub open spec fn passes_kind(kind: Seq<char>, filter: Seq<char>) -> bool {
    if filter == ""@ {
        true
    } else if filter == "other"@ {
        !is_listed_kind(kind)
    } else {
        kind == filter
    }
}

/// Whether a kind of jobs passes a filter.
pub fn kind_matches(kind: &str, filter: &str) -> (r: bool)
    ensures
        r == passes_kind(kind@, filter@),
{
    if same_text(filter, "") {
        true
    } else if same_text(filter, "other") {
        !(same_text(kind, "translation") || same_text(kind, "embedding") || same_text(
            kind,
            "vision",
        ) || same_text(kind, "visual_render"))
    } else {
        same_text(kind, filter)
    }
}

/// The titles of the books that a job belongs to, in lower case.
pub open spec fn owning_titles(books: Seq<BackgroundJobBook>, book_id: Seq<char>) -> Seq<Seq<char>>
    decreases books.len(),
{
    if books.len() == 0 {
        Seq::empty()
    } else {
        let before = owning_titles(books.drop_last(), book_id);
        if books.last().id@ == book_id {
            before.push(lower_case(books.last().title@))
        } else {
            before
        }
    }
}

/// Whether a query is found in the identifier of a job or in a title, all of them
/// in lower case.
pub open spec fn finds(query: Seq<char>, id: Seq<char>, titles: Seq<Seq<char>>) -> bool {
    query.len() == 0 || contains_text(id, query) || exists|i: int|
        0 <= i < titles.len() && contains_text(#[trigger] titles[i], query)
}

/// Whether a query is found in the identifier of a job or in a title, all of them
/// in lower case.
pub fn query_finds(query: &str, id: &str, titles: &Vec<String>) -> (r: bool)
    ensures
        r == finds(query@, id@, texts(titles@)),
{
    if query.is_empty() || has_text(id, query) {
        return true;
    }
    let mut i: usize = 0;
    while i < titles.len()
        invariant
            i <= titles@.len(),
            forall|k: int| 0 <= k < i ==> !contains_text(#[trigger] texts(titles@)[k], query@),
        decreases titles@.len() - i,
    {
        if has_text(titles[i].as_str(), query) {
            assert(contains_text(texts(titles@)[i as int], query@));
            return true;
        }
        assert(texts(titles@)[i as int] == titles@[i as int]@);
        i = i + 1;
    }
    false
}

fn titles_of_owner(books: &Vec<BackgroundJobBook>, book_id: &str) -> (r: Vec<String>)
    ensures
        texts(r@) == owning_titles(books@, book_id@),
{
    let mut out: Vec<String> = Vec::new();
    let mut i: usize = 0;
    assert(books@.subrange(0, 0) =~= Seq::<BackgroundJobBook>::empty());
    assert(texts(out@) =~= Seq::<Seq<char>>::empty());
    while i < books.len()
        invariant
            i <= books@.len(),
            texts(out@) == owning_titles(books@.subrange(0, i as int), book_id@),
        decreases books@.len() - i,
    {
        assert(books@.subrange(0, i + 1).drop_last() =~= books@.subrange(0, i as int));
        if same_text(books[i].id.as_str(), book_id) {
            let title = to_lower_case(books[i].title.as_str());
            let ghost had = out@;
            out.push(title);
            assert(texts(out@) =~= texts(had).push(title@));
        }
        i = i + 1;
    }
    assert(books@.subrange(0, books@.len() as int) =~= books@);
    out
}

/// Whether a job passes all filters. The query is in lower case.
pub open spec fn passes(
    job: BackgroundJobSnapshot,
    books: Seq<BackgroundJobBook>,
    kind: Seq<char>,
    status: Option<BackgroundJobStatus>,
    query: Seq<char>,
) -> bool {
    passes_kind(job.kind@, kind) && (status is Some ==> job.status == status->0) && finds(
        query,
        lower_case(job.id@),
        owning_titles(books, job.book_id@),
    )
}

/// Whether a job passes all filters. The query is in lower case.
pub fn job_matches(
    job: &BackgroundJobSnapshot,
    books: &Vec<BackgroundJobBook>,
    kind: &str,
    status: Option<BackgroundJobStatus>,
    query: &str,
) -> (r: bool)
    ensures
        r == passes(*job, books@, kind@, status, query@),
{
    let status_matches: bool = match status {
        Some(status) => job.status == status,
        None => true,
    };
    kind_matches(job.kind.as_str(), kind) && status_matches && query_finds(
        query,
        to_lower_case(job.id.as_str()).as_str(),
        &titles_of_owner(books, job.book_id.as_str()),
    )
}

// ---------------------------------------------------------------------------
// Actions
// ---------------------------------------------------------------------------

/// What may be done with a job.
pub open spec fn actions_for(job: BackgroundJobSnapshot) -> Seq<BackgroundJobAction> {
    if job.pause_requested || job.cancel_requested {
        Seq::empty()
    } else {
        let by_status = match job.status {
            BackgroundJobStatus::Queued => seq![
                BackgroundJobAction::Pause,
                BackgroundJobAction::Cancel,
            ],
            BackgroundJobStatus::Running => seq![
                BackgroundJobAction::Pause,
                BackgroundJobAction::Cancel,
            ],
            BackgroundJobStatus::Paused => seq![
                BackgroundJobAction::Resume,
                BackgroundJobAction::Cancel,
            ],
            BackgroundJobStatus::Failed => seq![BackgroundJobAction::Retry],
            BackgroundJobStatus::Cancelled => seq![BackgroundJobAction::Retry],
            BackgroundJobStatus::Succeeded => Seq::empty(),
        };
        if job.kind@ == "translation"@ {
            by_status.push(BackgroundJobAction::Retranslate)
        } else {
            by_status
        }
    }
}

/// What may be done with a job. Only a translation can be run again as a whole.
pub fn available_actions(job: &BackgroundJobSnapshot) -> (r: Vec<BackgroundJobAction>)
    ensures
        r@ == actions_for(*job),
{
    let mut actions: Vec<BackgroundJobAction> = Vec::new();
    if job.pause_requested || job.cancel_requested {
        return actions;
    }
    match job.status {
        BackgroundJobStatus::Queued | BackgroundJobStatus::Running => {
            actions.push(BackgroundJobAction::Pause);
            actions.push(BackgroundJobAction::Cancel);
        },
        BackgroundJobStatus::Paused => {
            actions.push(BackgroundJobAction::Resume);
            actions.push(BackgroundJobAction::Cancel);
        },
        BackgroundJobStatus::Failed | BackgroundJobStatus::Cancelled => {
            actions.push(BackgroundJobAction::Retry);
        },
        BackgroundJobStatus::Succeeded => {},
    }
    if same_text(job.kind.as_str(), "translation") {
        actions.push(BackgroundJobAction::Retranslate);
    }
    assert(actions@ =~= actions_for(*job));
    actions
}

/// What an action is called.
pub open spec fn action_name(action: BackgroundJobAction) -> Seq<char> {
    match action {
        BackgroundJobAction::Pause => "暂停"@,
        BackgroundJobAction::Resume => "恢复"@,
        BackgroundJobAction::Retry => "重试"@,
        BackgroundJobAction::Cancel => "取消"@,
        BackgroundJobAction::Retranslate => "重新翻译"@,
    }
}

/// What the button of an action says.
pub fn action_label(action: BackgroundJobAction) -> (r: &'static str)
    ensures
        r@ == action_name(action),
{
    match action {
        BackgroundJobAction::Pause => "暂停",
        BackgroundJobAction::Resume => "恢复",
        BackgroundJobAction::Retry => "重试",
        BackgroundJobAction::Cancel => "取消",
        BackgroundJobAction::Retranslate => "重新翻译",
    }
}

/// What an action is called in a sentence.
pub fn action_verb(action: BackgroundJobAction) -> (r: &'static str)
    ensures
        r@ == action_name(action),
{
    action_label(action)
}

/// The identifier of an action.
pub fn action_id(action: BackgroundJobAction) -> (r: &'static str)
    ensures
        r@ == (match action {
            BackgroundJobAction::Pause => "pause"@,
            BackgroundJobAction::Resume => "resume"@,
            BackgroundJobAction::Retry => "retry"@,
            BackgroundJobAction::Cancel => "cancel"@,
            BackgroundJobAction::Retranslate => "retranslate"@,
        }),
{
    match action {
        BackgroundJobAction::Pause => "pause",
        BackgroundJobAction::Resume => "resume",
        BackgroundJobAction::Retry => "retry",
        BackgroundJobAction::Cancel => "cancel",
        BackgroundJobAction::Retranslate => "retranslate",
    }
}

// ---------------------------------------------------------------------------
// Labels
// ---------------------------------------------------------------------------

/// What a kind of jobs is called.
pub open spec fn kind_name(kind: Seq<char>) -> Seq<char> {
    if kind == "embedding"@ {
        "向量索引"@
    } else if kind == "vision"@ {
        "视觉理解"@
    } else if kind == "visual_render"@ {
        "逻辑页面渲染"@
    } else if kind == "translation"@ {
        "图书翻译"@
    } else {
        "未知任务"@
    }
}

/// What a kind of jobs is called.
pub fn job_kind_label(kind: &str) -> (r: &'static str)
    ensures
        r@ == kind_name(kind@),
{
    if same_text(kind, "embedding") {
        "向量索引"
    } else if same_text(kind, "vision") {
        "视觉理解"
    } else if same_text(kind, "visual_render") {
        "逻辑页面渲染"
    } else if same_text(kind, "translation") {
        "图书翻译"
    } else {
        "未知任务"
    }
}

/// The colours that a status is shown in.
#[derive(Clone, Copy, Debug, PartialEq, Eq, Structural)]
pub enum StatusTone {
    /// Something is waited for.
    Waiting,
    /// Nothing happens, or no longer.
    Quiet,
    Active,
    Good,
    Bad,
}

/// What the status of a job is called, requests that are under way included, and
/// the colours it is shown in.
pub open spec fn presented_status(job: BackgroundJobSnapshot) -> (Seq<char>, StatusTone) {
    if job.cancel_requested {
        ("正在取消"@, StatusTone::Waiting)
    } else if job.pause_requested {
        ("正在暂停"@, StatusTone::Waiting)
    } else {
        match job.status {
            BackgroundJobStatus::Queued => ("排队中"@, StatusTone::Quiet),
            BackgroundJobStatus::Running => ("运行中"@, StatusTone::Active),
            BackgroundJobStatus::Paused => ("已暂停"@, StatusTone::Waiting),
            BackgroundJobStatus::Succeeded => ("已完成"@, StatusTone::Good),
            BackgroundJobStatus::Failed => ("失败"@, StatusTone::Bad),
            BackgroundJobStatus::Cancelled => ("已取消"@, StatusTone::Quiet),
        }
    }
}

/// What the status of a job is called, and the colours it is shown in.
pub fn status_presentation(job: &BackgroundJobSnapshot) -> (r: (&'static str, StatusTone))
    ensures
        (r.0@, r.1) == presented_status(*job),
{
    if job.cancel_requested {
        return ("正在取消", StatusTone::Waiting);
    }
    if job.pause_requested {
        return ("正在暂停", StatusTone::Waiting);
    }
    match job.status {
        BackgroundJobStatus::Queued => ("排队中", StatusTone::Quiet),
        BackgroundJobStatus::Running => ("运行中", StatusTone::Active),
        BackgroundJobStatus::Paused => ("已暂停", StatusTone::Waiting),
        BackgroundJobStatus::Succeeded => ("已完成", StatusTone::Good),
        BackgroundJobStatus::Failed => ("失败", StatusTone::Bad),
        BackgroundJobStatus::Cancelled => ("已取消", StatusTone::Quiet),
    }
}

/// The name under which a status is stored.
pub open spec fn stored_status(status: BackgroundJobStatus) -> Seq<char> {
    match status {
        BackgroundJobStatus::Queued => "queued"@,
        BackgroundJobStatus::Running => "running"@,
        BackgroundJobStatus::Paused => "paused"@,
        BackgroundJobStatus::Succeeded => "succeeded"@,
        BackgroundJobStatus::Failed => "failed"@,
        BackgroundJobStatus::Cancelled => "cancelled"@,
    }
}

/// The name under which a status is stored.
pub fn status_database_label(status: BackgroundJobStatus) -> (r: &'static str)
    ensures
        r@ == stored_status(status),
{
    match status {
        BackgroundJobStatus::Queued => "queued",
        BackgroundJobStatus::Running => "running",
        BackgroundJobStatus::Paused => "paused",
        BackgroundJobStatus::Succeeded => "succeeded",
        BackgroundJobStatus::Failed => "failed",
        BackgroundJobStatus::Cancelled => "cancelled",
    }
}

/// What the items of a kind of jobs are called.
pub open spec fn item_name(kind: Seq<char>) -> Seq<char> {
    if kind == "embedding"@ {
        "分块"@
    } else if kind == "vision"@ || kind == "visual_render"@ {
        "页面"@
    } else if kind == "translation"@ {
        "文本块"@
    } else {
        "项"@
    }
}

/// How far a job has come, in words.
pub open spec fn progress_text(job: BackgroundJobSnapshot) -> Seq<char> {
    let done = job.progress.completed;
    match job.progress.total {
        Some(total) => "进度 "@ + decimal(
            if done < total {
                done as nat
            } else {
                total as nat
            },
        ) + " / "@ + decimal(total as nat) + " "@ + item_name(job.kind@),
        None => "已处理 "@ + decimal(done as nat) + " "@ + item_name(job.kind@),
    }
}

/// How far a job has come, in words.
pub fn progress_label(job: &BackgroundJobSnapshot) -> (r: String)
    ensures
        r@ == progress_text(*job),
{
    let kind = job.kind.as_str();
    let unit = if same_text(kind, "embedding") {
        "分块"
    } else if same_text(kind, "vision") || same_text(kind, "visual_render") {
        "页面"
    } else if same_text(kind, "translation") {
        "文本块"
    } else {
        "项"
    };
    let done: usize = job.progress.completed;
    match job.progress.total {
        Some(total) => {
            let mut out = "进度 ".to_owned();
            push_decimal(
                &mut out,
                if done < total {
                    done as u128
                } else {
                    total as u128
                },
            );
            out.push_str(" / ");
            push_decimal(&mut out, total as u128);
            out.push_str(" ");
            out.push_str(unit);
            out
        },
        None => {
            let mut out = "已处理 ".to_owned();
            push_decimal(&mut out, done as u128);
            out.push_str(" ");
            out.push_str(unit);
            out
        },
    }
}

// ---------------------------------------------------------------------------
// Details
// ---------------------------------------------------------------------------

/// A point in time, if there is one.
pub open spec fn optional_timestamp(seconds: Option<u64>) -> Seq<char> {
    match seconds {
        Some(seconds) => timestamp(seconds as int),
        None => "—"@,
    }
}

/// What is under way for a job.
pub open spec fn control_text(job: BackgroundJobSnapshot) -> Seq<char> {
    if job.cancel_requested {
        "正在取消"@
    } else if job.pause_requested {
        "正在暂停"@
    } else {
        "无"@
    }
}

/// The details of a job, each under its name.
pub open spec fn rows_of(job: BackgroundJobSnapshot) -> Seq<(Seq<char>, Seq<char>)> {
    seq![
        ("任务 ID"@, job.id@),
        ("图书 ID"@, job.book_id@),
        (
            "来源 ID"@,
            match job.source_id {
                Some(id) => id@,
                None => "—"@,
            },
        ),
        ("任务类型"@, kind_name(job.kind@)),
        (
            "状态 / 尝试"@,
            stored_status(job.status) + " / "@ + decimal(job.attempts as nat) + " 次"@,
        ),
        ("处理进度"@, progress_text(job)),
        ("创建时间 UTC"@, timestamp(job.created_at as int)),
        ("更新时间 UTC"@, timestamp(job.updated_at as int)),
        ("开始时间 UTC"@, optional_timestamp(job.started_at)),
        ("结束时间 UTC"@, optional_timestamp(job.finished_at)),
        ("控制请求"@, control_text(job)),
    ]
}

/// The names and values that rows hold.
pub open spec fn row_views(rows: Seq<(&'static str, String)>) -> Seq<(Seq<char>, Seq<char>)> {
    rows.map_values(|row: (&'static str, String)| (row.0@, row.1@))
}

fn timestamp_or_dash(seconds: Option<u64>) -> (r: String)
    ensures
        r@ == optional_timestamp(seconds),
{
    match seconds {
        Some(seconds) => format_timestamp(seconds),
        None => not_set(),
    }
}

/// The details of a job, each under its name.
pub fn detail_rows(job: &BackgroundJobSnapshot) -> (r: Vec<(&'static str, String)>)
    ensures
        row_views(r@) == rows_of(*job),
{
    let source = match &job.source_id {
        Some(id) => id.clone(),
        None => not_set(),
    };
    let mut status = status_database_label(job.status).to_owned();
    status.push_str(" / ");
    push_decimal(&mut status, job.attempts as u128);
    status.push_str(" 次");
    let control = if job.cancel_requested {
        "正在取消"
    } else if job.pause_requested {
        "正在暂停"
    } else {
        "无"
    };
    let mut rows: Vec<(&'static str, String)> = Vec::new();
    rows.push(("任务 ID", job.id.clone()));
    rows.push(("图书 ID", job.book_id.clone()));
    rows.push(("来源 ID", source));
    rows.push(("任务类型", job_kind_label(job.kind.as_str()).to_owned()));
    rows.push(("状态 / 尝试", status));
    rows.push(("处理进度", progress_label(job)));
    rows.push(("创建时间 UTC", format_timestamp(job.created_at)));
    rows.push(("更新时间 UTC", format_timestamp(job.updated_at)));
    rows.push(("开始时间 UTC", timestamp_or_dash(job.started_at)));
    rows.push(("结束时间 UTC", timestamp_or_dash(job.finished_at)));
    rows.push(("控制请求", control.to_owned()));
    assert(row_views(rows@) =~= rows_of(*job));
    rows
}

/// Rows as lines of text.
pub open spec fn row_lines(rows: Seq<(Seq<char>, Seq<char>)>) -> Seq<Seq<char>> {
    rows.map_values(|row: (Seq<char>, Seq<char>)| row.0 + ": "@ + row.1)
}

fn lines_of_rows(job: &BackgroundJobSnapshot) -> (r: Vec<String>)
    ensures
        texts(r@) == row_lines(rows_of(*job)),
{
    let rows = detail_rows(job);
    let ghost expected = row_lines(rows_of(*job));
    assert(expected.len() == rows@.len());
    let mut out: Vec<String> = Vec::new();
    let mut i: usize = 0;
    while i < rows.len()
        invariant
            i <= rows@.len(),
            row_views(rows@) == rows_of(*job),
            expected == row_lines(rows_of(*job)),
            expected.len() == rows@.len(),
            texts(out@) =~= expected.subrange(0, i as int),
        decreases rows@.len() - i,
    {
        let mut line = rows[i].0.to_owned();
        line.push_str(": ");
        line.push_str(rows[i].1.as_str());
        let ghost had = out@;
        out.push(line);
        proof {
            assert(row_views(rows@)[i as int] == (rows@[i as int].0@, rows@[i as int].1@));
            assert(expected[i as int] == line@);
            assert(texts(out@) =~= texts(had).push(line@));
            assert(expected.subrange(0, i + 1) =~= expected.subrange(0, i as int).push(line@));
        }
        i = i + 1;
    }
    assert(expected.subrange(0, expected.len() as int) =~= expected);
    out
}

/// A job as text: its details, its error and its cursor.
pub open spec fn summary_text(job: BackgroundJobSnapshot) -> Seq<char> {
    let rows = row_lines(rows_of(job));
    let with_error = match job.error {
        Some(error) => rows.push("错误: "@ + error@),
        None => rows,
    };
    let with_cursor = match job.cursor_json {
        Some(cursor) => with_error.push(
            "执行游标:\n"@ + or_raw(indented_object(cursor@), cursor@),
        ),
        None => with_error,
    };
    joined(with_cursor, "\n"@)
}

/// A job as text: its details, its error and its cursor.
pub fn diagnostic_summary(job: &BackgroundJobSnapshot) -> (r: String)
    ensures
        r@ == summary_text(*job),
{
    let mut lines = lines_of_rows(job);
    if let Some(error) = &job.error {
        let mut line = "错误: ".to_owned();
        line.push_str(error.as_str());
        let ghost had = lines@;
        lines.push(line);
        assert(texts(lines@) =~= texts(had).push(line@));
    }
    if let Some(cursor) = &job.cursor_json {
        let mut line = "执行游标:\n".to_owned();
        line.push_str(prettify_cursor(cursor.as_str()).as_str());
        let ghost had = lines@;
        lines.push(line);
        assert(texts(lines@) =~= texts(had).push(line@));
    }
    join(&lines, "\n")
}

// ---------------------------------------------------------------------------
// Logs
// ---------------------------------------------------------------------------

/// What a line of the log is about.
#[derive(Clone, Copy, Debug, PartialEq, Eq, Structural)]
pub enum JobLogEvent {
    RunStarted,
    ProtocolSkipped,
    StepFailed,
    /// Anything else.
    Other,
}

/// Why an item of a job failed.
#[derive(Debug, PartialEq, Eq)]
pub struct JobLogErrorKind {
    /// Whether it was stopped rather than failed.
    pub cancelled: bool,
    pub label: String,
}

impl Clone for JobLogErrorKind {
    fn clone(&self) -> (r: Self)
        ensures
            r == *self,
    {
        JobLogErrorKind { cancelled: self.cancelled, label: self.label.clone() }
    }
}

/// A line of the log.
#[derive(Debug, PartialEq, Eq)]
pub struct JobLogEntry {
    pub event: JobLogEvent,
    /// The item that the line is about.
    pub ordinal: Option<usize>,
    pub error_kind: Option<JobLogErrorKind>,
    /// The line as text.
    pub line: String,
}

/// The log of a job, oldest line first, as far as it was kept.
#[derive(Debug, PartialEq, Eq)]
pub struct BackgroundJobLogSnapshot {
    pub entries: Vec<JobLogEntry>,
    pub truncated: bool,
}

/// The lines of a log.
pub open spec fn log_lines(entries: Seq<JobLogEntry>) -> Seq<Seq<char>> {
    entries.map_values(|entry: JobLogEntry| entry.line@)
}

/// A job and its log as text.
pub open spec fn log_copy_text(job: BackgroundJobSnapshot, logs: BackgroundJobLogSnapshot) -> Seq<
    char,
> {
    joined(row_lines(rows_of(job)), "\n"@) + "\n\n最近保留的日志："@ + decimal(logs.entries@.len())
        + " 条；较早记录"@ + (if logs.truncated {
        "已"@
    } else {
        "可能按全局上限"@
    }) + "清理；时间正序，ordinal 从 0 开始。\n"@ + joined(log_lines(logs.entries@), "\n"@)
}

/// A job and its log as text.
pub fn diagnostic_log_copy(job: &BackgroundJobSnapshot, logs: &BackgroundJobLogSnapshot) -> (r:
    String)
    ensures
        r@ == log_copy_text(*job, *logs),
{
    let mut out = join(&lines_of_rows(job), "\n");
    out.push_str("\n\n最近保留的日志：");
    push_decimal(&mut out, logs.entries.len() as u128);
    out.push_str(" 条；较早记录");
    out.push_str(
        if logs.truncated {
            "已"
        } else {
            "可能按全局上限"
        },
    );
    out.push_str("清理；时间正序，ordinal 从 0 开始。\n");
    let mut lines: Vec<String> = Vec::new();
    let ghost expected = log_lines(logs.entries@);
    let mut i: usize = 0;
    while i < logs.entries.len()
        invariant
            i <= logs.entries@.len(),
            expected == log_lines(logs.entries@),
            texts(lines@) =~= expected.subrange(0, i as int),
        decreases logs.entries@.len() - i,
    {
        let line = logs.entries[i].line.clone();
        let ghost had = lines@;
        lines.push(line);
        i = i + 1;
        proof {
            assert(texts(lines@) =~= texts(had).push(line@));
            assert(expected.subrange(0, i as int) =~= expected.subrange(0, i - 1).push(line@));
        }
    }
    assert(expected.subrange(0, expected.len() as int) =~= expected);
    out.push_str(join(&lines, "\n").as_str());
    out
}

/// Nothing can be done with a job for which a request is under way, and a job can
/// be paused or called off only before it has ended.
pub proof fn actions_fit_the_state_of_a_job(job: BackgroundJobSnapshot)
    ensures
        job.pause_requested || job.cancel_requested ==> actions_for(job).len() == 0,
        actions_for(job).contains(BackgroundJobAction::Pause) ==> job.status is Queued
            || job.status is Running,
        actions_for(job).contains(BackgroundJobAction::Resume) ==> job.status is Paused,
        actions_for(job).contains(BackgroundJobAction::Retry) ==> job.status is Failed
            || job.status is Cancelled,
        actions_for(job).contains(BackgroundJobAction::Cancel) ==> job.status is Queued
            || job.status is Running || job.status is Paused,
        actions_for(job).contains(BackgroundJobAction::Retranslate) ==> job.kind@
            == "translation"@,
{
}

/// What a job offers, action by action, as long as nothing was asked of it that
/// is still under way: it can be paused exactly while it waits or runs, resumed
/// exactly while it is paused, called off exactly until it has ended, tried again
/// exactly after it failed or was called off, and translated anew exactly where
/// it is a translation. No action is offered twice, and translating anew comes
/// last.
pub proof fn a_job_offers_exactly_what_its_state_allows(job: BackgroundJobSnapshot)
    ensures
        ({
            let offered = actions_for(job);
            let idle = !job.pause_requested && !job.cancel_requested;
            &&& offered.contains(BackgroundJobAction::Pause) <==> idle && (job.status
                == BackgroundJobStatus::Queued || job.status == BackgroundJobStatus::Running)
            &&& offered.contains(BackgroundJobAction::Resume) <==> idle && job.status
                == BackgroundJobStatus::Paused
            &&& offered.contains(BackgroundJobAction::Cancel) <==> idle && (job.status
                == BackgroundJobStatus::Queued || job.status == BackgroundJobStatus::Running
                || job.status == BackgroundJobStatus::Paused)
            &&& offered.contains(BackgroundJobAction::Retry) <==> idle && (job.status
                == BackgroundJobStatus::Failed || job.status == BackgroundJobStatus::Cancelled)
            &&& offered.contains(BackgroundJobAction::Retranslate) <==> idle && job.kind@
                == "translation"@
            &&& offered.no_duplicates()
            &&& forall|i: int, j: int|
                0 <= i < j < offered.len() ==> offered[i] != BackgroundJobAction::Retranslate
                    && offered[j] != BackgroundJobAction::Pause && offered[j]
                    != BackgroundJobAction::Resume && offered[j] != BackgroundJobAction::Retry
        }),
{
    let offered = actions_for(job);
    let idle = !job.pause_requested && !job.cancel_requested;
    if idle {
        if job.kind@ == "translation"@ {
            assert(offered.last() == BackgroundJobAction::Retranslate);
        }
        match job.status {
            BackgroundJobStatus::Queued | BackgroundJobStatus::Running => {
                assert(offered[0] == BackgroundJobAction::Pause);
                assert(offered[1] == BackgroundJobAction::Cancel);
            },
            BackgroundJobStatus::Paused => {
                assert(offered[0] == BackgroundJobAction::Resume);
                assert(offered[1] == BackgroundJobAction::Cancel);
            },
            BackgroundJobStatus::Failed | BackgroundJobStatus::Cancelled => {
                assert(offered[0] == BackgroundJobAction::Retry);
            },
            BackgroundJobStatus::Succeeded => {},
        }
    }
}

/// A job passes a filter by kind exactly where the filter is empty, is its own
/// kind, or is the one for all others and its kind has none. So every job passes
/// the empty filter and exactly one of the other five.
pub proof fn every_job_passes_one_filter(kind: Seq<char>)
    ensures
        passes_kind(kind, ""@),
        passes_kind(kind, "translation"@) <==> kind == "translation"@,
        passes_kind(kind, "embedding"@) <==> kind == "embedding"@,
        passes_kind(kind, "vision"@) <==> kind == "vision"@,
        passes_kind(kind, "visual_render"@) <==> kind == "visual_render"@,
        passes_kind(kind, "other"@) <==> !passes_kind(kind, "translation"@) && !passes_kind(
            kind,
            "embedding"@,
        ) && !passes_kind(kind, "vision"@) && !passes_kind(kind, "visual_render"@),
        !(passes_kind(kind, "translation"@) && passes_kind(kind, "embedding"@)),
        !(passes_kind(kind, "translation"@) && passes_kind(kind, "vision"@)),
        !(passes_kind(kind, "translation"@) && passes_kind(kind, "visual_render"@)),
        !(passes_kind(kind, "embedding"@) && passes_kind(kind, "vision"@)),
        !(passes_kind(kind, "embedding"@) && passes_kind(kind, "visual_render"@)),
        !(passes_kind(kind, "vision"@) && passes_kind(kind, "visual_render"@)),
{
    reveal_strlit("");
    reveal_strlit("other");
    reveal_strlit("translation");
    reveal_strlit("embedding");
    reveal_strlit("vision");
    reveal_strlit("visual_render");
    assert(""@.len() == 0);
    assert("translation"@.len() == 11);
    assert("embedding"@.len() == 9);
    assert("vision"@.len() == 6);
    assert("visual_render"@.len() == 13);
    assert("other"@.len() == 5);
}

proof fn lemma_owning_titles(books: Seq<BackgroundJobBook>, book_id: Seq<char>, title: Seq<char>)
    ensures
        owning_titles(books, book_id).contains(title) <==> exists|b: int|
            0 <= b < books.len() && (#[trigger] books[b]).id@ == book_id && title == lower_case(
                books[b].title@,
            ),
    decreases books.len(),
{
    if books.len() > 0 {
        let rest = books.drop_last();
        let before = owning_titles(rest, book_id);
        let all = owning_titles(books, book_id);
        lemma_owning_titles(rest, book_id, title);
        if all.contains(title) {
            let i = choose|i: int| 0 <= i < all.len() && all[i] == title;
            if i < before.len() {
                assert(before[i] == title);
                assert(before.contains(title));
                let b = choose|b: int|
                    0 <= b < rest.len() && (#[trigger] rest[b]).id@ == book_id && title
                        == lower_case(rest[b].title@);
                assert(books[b] == rest[b]);
            } else {
                assert(books[books.len() - 1].id@ == book_id);
            }
        }
        if exists|b: int|
            0 <= b < books.len() && (#[trigger] books[b]).id@ == book_id && title == lower_case(
                books[b].title@,
            ) {
            let b = choose|b: int|
                0 <= b < books.len() && (#[trigger] books[b]).id@ == book_id && title
                    == lower_case(books[b].title@);
            if b < rest.len() {
                assert(rest[b] == books[b]);
                assert(before.contains(title));
                let i = choose|i: int| 0 <= i < before.len() && before[i] == title;
                assert(all[i] == title);
            } else {
                assert(all[all.len() - 1] == title);
            }
        }
    }
}

/// A job is listed exactly where its kind passes, its status is the one that is
/// asked for, if one is, and the query is empty or stands in its identifier or in
/// the title of a book that it belongs to, in lower case.
pub proof fn a_job_is_found_by_what_it_is(
    job: BackgroundJobSnapshot,
    books: Seq<BackgroundJobBook>,
    kind: Seq<char>,
    status: Option<BackgroundJobStatus>,
    query: Seq<char>,
)
    ensures
        passes(job, books, kind, status, query) <==> {
            &&& kind == ""@ || kind == job.kind@ || (kind == "other"@ && job.kind@
                != "translation"@ && job.kind@ != "embedding"@ && job.kind@ != "vision"@
                && job.kind@ != "visual_render"@)
            &&& kind == "other"@ ==> job.kind@ != "translation"@ && job.kind@ != "embedding"@
                && job.kind@ != "vision"@ && job.kind@ != "visual_render"@
            &&& status is Some ==> job.status == status->0
            &&& query.len() == 0 || contains_text(lower_case(job.id@), query) || exists|b: int|
                0 <= b < books.len() && (#[trigger] books[b]).id@ == job.book_id@ && contains_text(
                    lower_case(books[b].title@),
                    query,
                )
        },
{
    reveal_strlit("");
    reveal_strlit("other");
    reveal_strlit("translation");
    reveal_strlit("embedding");
    reveal_strlit("vision");
    reveal_strlit("visual_render");
    assert("other"@.len() == 5);
    let titles = owning_titles(books, job.book_id@);
    if finds(query, lower_case(job.id@), titles) && query.len() > 0 && !contains_text(
        lower_case(job.id@),
        query,
    ) {
        let i = choose|i: int| 0 <= i < titles.len() && contains_text(#[trigger] titles[i], query);
        lemma_owning_titles(books, job.book_id@, titles[i]);
        assert(titles.contains(titles[i]));
    }
    if exists|b: int|
        0 <= b < books.len() && (#[trigger] books[b]).id@ == job.book_id@ && contains_text(
            lower_case(books[b].title@),
            query,
        ) {
        let b = choose|b: int|
            0 <= b < books.len() && (#[trigger] books[b]).id@ == job.book_id@ && contains_text(
                lower_case(books[b].title@),
                query,
            );
        let title = lower_case(books[b].title@);
        lemma_owning_titles(books, job.book_id@, title);
        let i = choose|i: int| 0 <= i < titles.len() && titles[i] == title;
        assert(contains_text(titles[i], query));
    }
}

/// Each name of a status stands for one state of a job: a request that is under
/// way comes before the status, and calling off before pausing.
pub proof fn a_status_is_named_for_what_it_is(job: BackgroundJobSnapshot)
    ensures
        ({
            let name = presented_status(job).0;
            let idle = !job.pause_requested && !job.cancel_requested;
            &&& name == "正在取消"@ <==> job.cancel_requested
            &&& name == "正在暂停"@ <==> job.pause_requested && !job.cancel_requested
            &&& name == "排队中"@ <==> idle && job.status == BackgroundJobStatus::Queued
            &&& name == "运行中"@ <==> idle && job.status == BackgroundJobStatus::Running
            &&& name == "已暂停"@ <==> idle && job.status == BackgroundJobStatus::Paused
            &&& name == "已完成"@ <==> idle && job.status == BackgroundJobStatus::Succeeded
            &&& name == "失败"@ <==> idle && job.status == BackgroundJobStatus::Failed
            &&& name == "已取消"@ <==> idle && job.status == BackgroundJobStatus::Cancelled
            &&& presented_status(job).1 == StatusTone::Bad <==> name == "失败"@
            &&& presented_status(job).1 == StatusTone::Good <==> name == "已完成"@
            &&& presented_status(job).1 == StatusTone::Active <==> name == "运行中"@
        }),
{
    reveal_strlit("正在取消");
    reveal_strlit("正在暂停");
    reveal_strlit("排队中");
    reveal_strlit("运行中");
    reveal_strlit("已暂停");
    reveal_strlit("已完成");
    reveal_strlit("失败");
    reveal_strlit("已取消");
    assert("正在取消"@[2] == '取');
    assert("正在暂停"@[2] == '暂');
    assert("排队中"@[0] == '排');
    assert("运行中"@[0] == '运');
    assert("已暂停"@[1] == '暂' && "已暂停"@[0] == '已');
    assert("已完成"@[1] == '完' && "已完成"@[0] == '已');
    assert("已取消"@[1] == '取' && "已取消"@[0] == '已');
    assert("失败"@.len() == 2);
    assert("正在取消"@.len() == 4 && "正在暂停"@.len() == 4);
}

/// Each name of an action stands for one action.
pub proof fn an_action_is_named_for_what_it_does(action: BackgroundJobAction)
    ensures
        action_name(action) == "暂停"@ <==> action == BackgroundJobAction::Pause,
        action_name(action) == "恢复"@ <==> action == BackgroundJobAction::Resume,
        action_name(action) == "重试"@ <==> action == BackgroundJobAction::Retry,
        action_name(action) == "取消"@ <==> action == BackgroundJobAction::Cancel,
        action_name(action) == "重新翻译"@ <==> action == BackgroundJobAction::Retranslate,
{
    reveal_strlit("暂停");
    reveal_strlit("恢复");
    reveal_strlit("重试");
    reveal_strlit("取消");
    reveal_strlit("重新翻译");
    assert("暂停"@[0] == '暂');
    assert("恢复"@[0] == '恢');
    assert("重试"@[0] == '重');
    assert("取消"@[0] == '取');
    assert("重新翻译"@.len() == 4);
}

/// How far a job has come is told as the number of items that are done, but no more
/// than there are where that is known, then what there are, and what they are.
pub proof fn progress_is_told_within_its_total(job: BackgroundJobSnapshot)
    ensures
        job.progress.total is None ==> progress_text(job) == "已处理 "@ + decimal(
            job.progress.completed as nat,
        ) + " "@ + item_name(job.kind@),
        forall|done: nat, total: nat|
            job.progress.total == Some(total as usize) && total <= usize::MAX && done <= total && (
            done == job.progress.completed || (done == total && total < job.progress.completed))
                ==> progress_text(job) == "进度 "@ + #[trigger] decimal(done) + " / "@
                + #[trigger] decimal(total) + " "@ + item_name(job.kind@),
{
}

/// A row of the details stands for one field of the job, and all of them are there,
/// in their order.
pub proof fn the_details_hold_every_field(job: BackgroundJobSnapshot)
    ensures
        rows_of(job).len() == 11,
        rows_of(job)[0].1 == job.id@,
        rows_of(job)[1].1 == job.book_id@,
        job.source_id is Some ==> rows_of(job)[2].1 == job.source_id->0@,
        job.source_id is None ==> rows_of(job)[2].1 == "—"@,
        rows_of(job)[3].1 == kind_name(job.kind@),
        rows_of(job)[4].1 == stored_status(job.status) + " / "@ + decimal(job.attempts as nat)
            + " 次"@,
        rows_of(job)[5].1 == progress_text(job),
        rows_of(job)[6].1 == timestamp(job.created_at as int),
        rows_of(job)[7].1 == timestamp(job.updated_at as int),
        job.started_at is Some ==> rows_of(job)[8].1 == timestamp(job.started_at->0 as int),
        job.started_at is None ==> rows_of(job)[8].1 == "—"@,
        job.finished_at is Some ==> rows_of(job)[9].1 == timestamp(job.finished_at->0 as int),
        job.finished_at is None ==> rows_of(job)[9].1 == "—"@,
        job.cancel_requested || job.pause_requested ==> rows_of(job)[10].1 == presented_status(
            job,
        ).0,
        !job.cancel_requested && !job.pause_requested ==> rows_of(job)[10].1 == "无"@,
{
}

/// A job as text has a line for each of its details, in their order, then its error and
/// its cursor where it has them: the cursor indented where it is an object, and as it is
/// otherwise.
pub proof fn a_job_as_text_holds_its_error_and_its_cursor(
    job: BackgroundJobSnapshot,
    lines: Seq<Seq<char>>,
)
    requires
        lines.len() == rows_of(job).len(),
        forall|i: int|
            0 <= i < lines.len() ==> #[trigger] lines[i] == rows_of(job)[i].0 + ": "@ + rows_of(
                job,
            )[i].1,
    ensures
        ({
            let details = joined(lines, "\n"@);
            let error = "错误: "@ + job.error->0@;
            let cursor = "执行游标:\n"@ + (if indented_object(job.cursor_json->0@) is Some {
                indented_object(job.cursor_json->0@)->0
            } else {
                job.cursor_json->0@
            });
            &&& job.error is None && job.cursor_json is None ==> summary_text(job) == details
            &&& job.error is Some && job.cursor_json is None ==> summary_text(job) == details
                + "\n"@ + error
            &&& job.error is None && job.cursor_json is Some ==> summary_text(job) == details
                + "\n"@ + cursor
            &&& job.error is Some && job.cursor_json is Some ==> summary_text(job) == details
                + "\n"@ + error + "\n"@ + cursor
        }),
{
    assert(row_lines(rows_of(job)) =~= lines);
    let error = "错误: "@ + job.error->0@;
    let cursor = "执行游标:\n"@ + or_raw(
        indented_object(job.cursor_json->0@),
        job.cursor_json->0@,
    );
    assert(lines.push(error).drop_last() =~= lines);
    assert(lines.push(cursor).drop_last() =~= lines);
    assert(lines.push(error).push(cursor).drop_last() =~= lines.push(error));
    assert(joined(lines.push(error), "\n"@) == joined(lines, "\n"@) + "\n"@ + error);
    assert(joined(lines.push(cursor), "\n"@) == joined(lines, "\n"@) + "\n"@ + cursor);
    assert(joined(lines.push(error).push(cursor), "\n"@) == joined(lines, "\n"@) + "\n"@ + error
        + "\n"@ + cursor);
}

/// A log that is copied comes behind the details of its job, with how many lines it has
/// and whether earlier ones are gone, every line of it in order.
pub proof fn a_copied_log_holds_every_line(
    job: BackgroundJobSnapshot,
    logs: BackgroundJobLogSnapshot,
    details: Seq<Seq<char>>,
    lines: Seq<Seq<char>>,
)
    requires
        details.len() == rows_of(job).len(),
        forall|i: int|
            0 <= i < details.len() ==> #[trigger] details[i] == rows_of(job)[i].0 + ": "@
                + rows_of(job)[i].1,
        lines.len() == logs.entries@.len(),
        forall|i: int| 0 <= i < lines.len() ==> #[trigger] lines[i] == logs.entries@[i].line@,
    ensures
        log_copy_text(job, logs) == joined(details, "\n"@) + "\n\n最近保留的日志："@ + decimal(
            lines.len(),
        ) + " 条；较早记录"@ + (if logs.truncated {
            "已"@
        } else {
            "可能按全局上限"@
        }) + "清理；时间正序，ordinal 从 0 开始。\n"@ + joined(lines, "\n"@),
{
    assert(row_lines(rows_of(job)) =~= details);
    assert(log_lines(logs.entries@) =~= lines);
}

/// Each name of a kind stands for one kind; the items of a kind are called by what it works
/// on.
pub proof fn a_kind_is_named_for_what_it_is(kind: Seq<char>)
    ensures
        kind_name("embedding"@) == "向量索引"@ && item_name("embedding"@) == "分块"@,
        kind_name("vision"@) == "视觉理解"@ && item_name("vision"@) == "页面"@,
        kind_name("visual_render"@) == "逻辑页面渲染"@ && item_name("visual_render"@) == "页面"@,
        kind_name("translation"@) == "图书翻译"@ && item_name("translation"@) == "文本块"@,
        kind != "embedding"@ && kind != "vision"@ && kind != "visual_render"@ && kind
            != "translation"@ ==> kind_name(kind) == "未知任务"@ && item_name(kind) == "项"@,
{
    reveal_strlit("translation");
    reveal_strlit("embedding");
    reveal_strlit("vision");
    reveal_strlit("visual_render");
    assert("translation"@.len() == 11);
    assert("embedding"@.len() == 9);
    assert("vision"@.len() == 6);
    assert("visual_render"@.len() == 13);
}

} // verus!
