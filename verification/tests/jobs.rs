use book_studio_ui::block_detail::{
    block_detail_tabs, block_detail_text, overview_text, probe_decode_label, probe_end_label,
    render_block_detail, render_block_probe, segment_char_label, BlockDetailBody, BlockDetailState, BlockDetailTab,
    BlockProbeState, TranslationBlockDetail, TranslationBlockProbe, TranslationBlockRequest,
};
use book_studio_ui::block_inspector::{window_of, BlockInspector, BlockState, BLOCKS_PER_PAGE};
use book_studio_ui::block_pages::{
    anchor_page, block_chapter_label, block_page_indices, failure_banner,
    translation_blocks_copy, untranslated_summary, TranslationBlockInfo, TranslationBlockList,
};
use book_studio_ui::calendar::{civil_from_days, format_timestamp, format_utc_datetime};
use book_studio_ui::job_order::sort_jobs;
use book_studio_ui::jobs::{
    action_id, action_label, available_actions, detail_rows, diagnostic_log_copy,
    diagnostic_summary, job_kind_label, job_matches, kind_matches, progress_label, query_finds,
    status_database_label, status_presentation, BackgroundJobAction, BackgroundJobBook,
    BackgroundJobLogSnapshot, BackgroundJobProgress, BackgroundJobSnapshot, BackgroundJobStatus,
    JobLogEntry, JobLogErrorKind, JobLogEvent,
};
use book_studio_ui::jobs_display::{BlocksPanel, DetailBody};
use book_studio_ui::jobs_window::{
    BackgroundJobsWindow, DetailTab, JobsSignal, JobsTask, JOBS_PER_PAGE,
};
use book_studio_ui::json::{prettify_cursor, prettify_json, prettify_object, pretty_or_raw};

fn job(status: BackgroundJobStatus) -> BackgroundJobSnapshot {
    BackgroundJobSnapshot {
        id: "job-1".to_string(),
        book_id: "book-1".to_string(),
        source_id: None,
        kind: "embedding".to_string(),
        status,
        pause_requested: false,
        cancel_requested: false,
        attempts: 2,
        progress: BackgroundJobProgress { completed: 3, total: Some(10) },
        error: None,
        created_at: 1_700_000_000,
        updated_at: 1_700_000_500,
        started_at: Some(1_700_000_100),
        finished_at: None,
        cursor_json: None,
    }
}

#[test]
fn actions_follow_the_durable_job_state_machine() {
    assert_eq!(
        available_actions(&job(BackgroundJobStatus::Queued)),
        vec![BackgroundJobAction::Pause, BackgroundJobAction::Cancel]
    );
    assert_eq!(
        available_actions(&job(BackgroundJobStatus::Running)),
        vec![BackgroundJobAction::Pause, BackgroundJobAction::Cancel]
    );
    assert_eq!(
        available_actions(&job(BackgroundJobStatus::Paused)),
        vec![BackgroundJobAction::Resume, BackgroundJobAction::Cancel]
    );
    assert_eq!(
        available_actions(&job(BackgroundJobStatus::Failed)),
        vec![BackgroundJobAction::Retry]
    );
    assert_eq!(
        available_actions(&job(BackgroundJobStatus::Cancelled)),
        vec![BackgroundJobAction::Retry]
    );
    assert!(available_actions(&job(BackgroundJobStatus::Succeeded)).is_empty());
}

#[test]
fn task_filters_combine_kind_status_and_owning_book() {
    let snapshot = job(BackgroundJobStatus::Failed);
    let books = vec![
        BackgroundJobBook { id: "book-1".into(), title: "Rust 开发".into() },
        BackgroundJobBook { id: "book-2".into(), title: "其他图书".into() },
    ];
    assert!(job_matches(
        &snapshot,
        &books,
        "embedding",
        Some(BackgroundJobStatus::Failed),
        "rust"
    ));
    assert!(job_matches(&snapshot, &books, "", None, "job-1"));
    assert!(!job_matches(&snapshot, &books, "translation", None, ""));
    assert!(!job_matches(&snapshot, &books, "", Some(BackgroundJobStatus::Running), ""));
    assert!(!job_matches(&snapshot, &books, "", None, "其他图书"));
    assert!(kind_matches("future-job", "other"));
    assert!(!kind_matches("translation", "other"));
}

fn no_logs() -> BackgroundJobLogSnapshot {
    BackgroundJobLogSnapshot { entries: Vec::new(), truncated: false }
}

#[test]
fn copied_details_preserve_full_identifiers_and_failure_context() {
    let mut snapshot = job(BackgroundJobStatus::Failed);
    snapshot.id = "translation:0123456789abcdef0123456789abcdef:zh-Hans".into();
    snapshot.error = Some("HTTP 请求失败".into());
    snapshot.cursor_json = Some(r#"{"next_ordinal":17}"#.into());
    let copied = diagnostic_summary(&snapshot);
    assert!(copied.contains(&snapshot.id));
    assert!(copied.contains("HTTP 请求失败"));
    assert!(copied.contains("\"next_ordinal\": 17"));
    assert!(copied.contains("UTC"));
    let logs = diagnostic_log_copy(&snapshot, &no_logs());
    assert!(!logs.contains("HTTP 请求失败"));
    assert!(!logs.contains("next_ordinal"));
    assert!(logs.contains(&snapshot.id));
}

#[test]
fn pending_control_hides_duplicate_actions_and_updates_status() {
    let mut pending = job(BackgroundJobStatus::Running);
    pending.pause_requested = true;
    assert!(available_actions(&pending).is_empty());
    assert_eq!(status_presentation(&pending).0, "正在暂停");

    pending.pause_requested = false;
    pending.cancel_requested = true;
    assert!(available_actions(&pending).is_empty());
    assert_eq!(status_presentation(&pending).0, "正在取消");
}

#[test]
fn progress_is_bounded_by_the_latest_total() {
    let mut snapshot = job(BackgroundJobStatus::Running);
    assert_eq!(progress_label(&snapshot), "进度 3 / 10 分块");
    snapshot.progress.completed = 12;
    assert_eq!(progress_label(&snapshot), "进度 10 / 10 分块");
    snapshot.progress.total = None;
    assert_eq!(progress_label(&snapshot), "已处理 12 分块");
}

#[test]
fn status_database_label_matches_durable_state() {
    assert_eq!(status_database_label(BackgroundJobStatus::Queued), "queued");
    assert_eq!(status_database_label(BackgroundJobStatus::Running), "running");
    assert_eq!(status_database_label(BackgroundJobStatus::Paused), "paused");
    assert_eq!(status_database_label(BackgroundJobStatus::Succeeded), "succeeded");
    assert_eq!(status_database_label(BackgroundJobStatus::Failed), "failed");
    assert_eq!(status_database_label(BackgroundJobStatus::Cancelled), "cancelled");
}

#[test]
fn timestamp_round_trips_through_civil_from_days() {
    // 1700000000 == 2023-11-14 22:13:20 UTC; the local-zone display only
    // affects HH:MM:SS so the date must be stable across machines.
    let formatted = format_timestamp(1_700_000_000);
    assert!(formatted.starts_with("2023-11-14 "));
    assert_eq!(formatted.len(), "YYYY-MM-DD HH:MM:SS".len());
}

#[test]
fn days_have_the_dates_of_the_calendar() {
    assert_eq!(civil_from_days(0), Some((1970, 1, 1)));
    assert_eq!(civil_from_days(-1), Some((1969, 12, 31)));
    assert_eq!(civil_from_days(11_016), Some((2000, 2, 29)));
    assert_eq!(civil_from_days(11_017), Some((2000, 3, 1)));
    assert_eq!(civil_from_days(-25_509), Some((1900, 2, 28)));
    assert_eq!(civil_from_days(-25_508), Some((1900, 3, 1)));
    assert_eq!(civil_from_days(-719_468), Some((0, 3, 1)));
    assert_eq!(format_timestamp(1_700_000_000), "2023-11-14 22:13:20");
    assert_eq!(format_utc_datetime(951_782_400), Some("2000-02-29 00:00:00".to_string()));
}

#[test]
fn prettify_cursor_falls_back_for_invalid_json() {
    assert_eq!(prettify_cursor("not json"), "not json");
    let pretty = prettify_cursor(r#"{"next_ordinal":42,"model":"qwen"}"#);
    assert!(pretty.contains("\"next_ordinal\""));
    assert!(pretty.contains("\"model\""));
}

#[test]
fn json_is_indented_and_anything_else_is_left_alone() {
    assert_eq!(prettify_json(r#"{"a":1}"#), "{\n  \"a\": 1\n}");
    assert_eq!(prettify_json("[1]"), "[\n  1\n]");
    assert_eq!(prettify_json("```json"), "```json");
    assert_eq!(prettify_cursor("[1,2]"), "[1,2]");
    assert_eq!(prettify_object("[1,2]"), "[1,2]");
    assert_eq!(prettify_cursor(r#"{"a":1}"#), "{\n  \"a\": 1\n}");
    assert_eq!(pretty_or_raw(Some("x".to_string()), "y"), "x");
    assert_eq!(pretty_or_raw(None, "y"), "y");
}

fn detail_fixture(model: &str) -> TranslationBlockDetail {
    TranslationBlockDetail {
        ordinal: 7,
        unit_id: "unit-3".into(),
        unit_ordinal: 2,
        unit_title: "第三章".into(),
        unit_revision: 4,
        block_id: "unit-3::h5".into(),
        source_text: "Hello world".into(),
        segments: vec!["Hello".into(), "world".into()],
        request: TranslationBlockRequest {
            model: model.into(),
            target_language: "zh-Hans".into(),
            target_label: Some("中文（简体）".into()),
            source_language: Some("en".into()),
            max_tokens: 4_096,
            temperature: format!("{:.1}", 0.0_f32),
            body: r#"{"model":"m"}"#.into(),
            system_prompt: "系统".into(),
            user_content: r#"{"source":"Hello world","segments":[]}"#.into(),
        },
    }
}

fn detail_state(tab: BlockDetailTab, detail: Option<TranslationBlockDetail>) -> BlockDetailState {
    BlockDetailState {
        job_id: "job".into(),
        ordinal: 7,
        generation: 0,
        tab,
        failed: false,
        loading: false,
        detail,
        error: None,
        probe: BlockProbeState::default(),
    }
}

fn segment_count_mismatch() -> JobLogErrorKind {
    JobLogErrorKind { cancelled: false, label: "片段数量与原文不一致".into() }
}

fn invalid_schema() -> JobLogErrorKind {
    JobLogErrorKind { cancelled: false, label: "响应结构不符合分段协议".into() }
}

fn probe_fixture(response_text: &str) -> TranslationBlockProbe {
    TranslationBlockProbe {
        model: "chat-test".into(),
        response_text: response_text.into(),
        response_bytes: response_text.len(),
        end: "done".into(),
        finish_reason: Some("stop".into()),
        decoded_segments: None,
        decode_error_kind: Some(segment_count_mismatch()),
        decode_error_line: None,
        decode_error_column: None,
        elapsed_seconds: "1.5".into(),
    }
}

/// The response tab is the only one that is not part of the pinned payload,
/// and the only one that must stay hidden for a block that translated fine.
#[test]
fn only_a_failed_block_offers_the_model_response_tab() {
    let healthy = block_detail_tabs(false);
    assert!(!healthy.contains(&BlockDetailTab::Response));
    assert_eq!(
        healthy,
        vec![
            BlockDetailTab::Overview,
            BlockDetailTab::Body,
            BlockDetailTab::Source,
            BlockDetailTab::Prompt,
            BlockDetailTab::Message,
        ]
    );

    let failed = block_detail_tabs(true);
    assert_eq!(failed.len(), healthy.len() + 1);
    assert_eq!(failed.last(), Some(&BlockDetailTab::Response));
    // Every tab keeps a distinct id and label, so a click can never land on
    // the wrong page.
    let ids: std::collections::BTreeSet<_> = failed.iter().map(|tab| tab.id()).collect();
    let labels: std::collections::BTreeSet<_> = failed.iter().map(|tab| tab.label()).collect();
    assert_eq!(ids.len(), failed.len());
    assert_eq!(labels.len(), failed.len());
}

/// A replayed answer is shown the way it arrived: a valid JSON object is
/// indented, and anything the decoder rejects is shown byte for byte, because
/// that broken shape is exactly what the user opened the tab to see.
#[test]
fn the_response_tab_shows_the_replayed_answer_without_cleaning_it() {
    // Nothing is shown before the user asks for a replay.
    assert!(block_detail_text(&detail_state(BlockDetailTab::Response, None)).is_none());

    let mut state = detail_state(BlockDetailTab::Response, None);
    state.probe.result = Some(probe_fixture(r#"{"translations":[{"id":0,"text":"甲"}]}"#));
    let pretty = block_detail_text(&state).unwrap();
    assert!(pretty.contains('\n'), "a valid object is indented: {pretty}");
    assert!(serde_json::from_str::<serde_json::Value>(&pretty).is_ok());

    // A fenced answer is the classic weak-model failure; it must be visible
    // as it was written, fence and all.
    let fenced = "```json\n{\"translations\":[{\"id\":0,\"text\":\"甲\"}]}\n```";
    state.probe.result = Some(probe_fixture(fenced));
    assert_eq!(block_detail_text(&state).unwrap(), fenced);

    // So is a truncated object with no closing braces.
    let truncated = r#"{"translations":[{"id":0,"text":"甲""#;
    state.probe.result = Some(probe_fixture(truncated));
    assert_eq!(block_detail_text(&state).unwrap(), truncated);

    // Nor is an answer touched that is JSON but no object.
    for other in ["[1,2]", "\"text\"", "42"] {
        state.probe.result = Some(probe_fixture(other));
        assert_eq!(block_detail_text(&state).unwrap(), other);
        let shown = render_block_probe(&state.probe).answer.unwrap();
        assert_eq!(shown.text.as_deref(), Some(other));
    }

    // The replayed text is copied verbatim, so the clipboard never carries a
    // request payload from another tab.
    assert_eq!(block_detail_text(&detail_state(BlockDetailTab::Source, None)), None);
}

#[test]
fn the_replay_panel_names_how_the_stream_ended_and_what_the_decoder_said() {
    let mut probe = probe_fixture("{}");
    assert_eq!(probe_end_label(&probe), "模型正常收尾");

    probe.end = "unexpected_finish_reason".into();
    probe.finish_reason = Some("length".into());
    assert_eq!(probe_end_label(&probe), "模型提前结束响应（finish_reason=length）");

    probe.end = "stream_eof".into();
    assert_eq!(probe_end_label(&probe), "响应流在没有收尾标记的情况下关闭");

    probe.end = "size_limit".into();
    assert_eq!(probe_end_label(&probe), "响应超过大小上限，只显示已收到的部分");

    probe.end = "tool_call".into();
    assert_eq!(probe_end_label(&probe), "模型意外请求了工具");

    // The verdict comes from the worker's own decoder, labelled from the
    // closed category table rather than re-derived in the window.
    probe.decode_error_kind = Some(segment_count_mismatch());
    probe.decode_error_line = Some(3);
    probe.decode_error_column = Some(12);
    assert_eq!(
        probe_decode_label(&probe),
        "严格解码失败：片段数量与原文不一致（第 3 行第 12 列）"
    );

    probe.decode_error_kind =
        Some(JobLogErrorKind { cancelled: false, label: "响应 JSON 不完整".into() });
    probe.decode_error_line = None;
    probe.decode_error_column = None;
    assert_eq!(probe_decode_label(&probe), "严格解码失败：响应 JSON 不完整");

    probe.decode_error_kind = None;
    probe.decoded_segments = Some(2);
    assert_eq!(probe_decode_label(&probe), "严格解码通过：2 个片段");

    // A replay that produced no answer at all still says what the model did.
    let mut empty = probe_fixture("");
    empty.end = "unexpected_finish_reason".into();
    empty.finish_reason = None;
    assert_eq!(probe_end_label(&empty), "模型提前结束响应（finish_reason=other）");
}

#[test]
fn block_detail_tabs_show_the_payload_and_hide_nothing_behind_the_preview() {
    let shown = |tab: BlockDetailTab, detail: TranslationBlockDetail| {
        block_detail_text(&detail_state(tab, Some(detail))).unwrap()
    };
    // The whole block, not the 96-character preview the list holds.
    assert_eq!(shown(BlockDetailTab::Source, detail_fixture("chat-test")), "Hello world");
    assert_eq!(shown(BlockDetailTab::Prompt, detail_fixture("chat-test")), "系统");

    let body = shown(BlockDetailTab::Body, detail_fixture("chat-test"));
    assert!(serde_json::from_str::<serde_json::Value>(&body).is_ok());

    // A body that is not JSON must still be shown verbatim rather than
    // rendering an empty panel.
    let mut broken = detail_fixture("chat-test");
    broken.request.body = "<html>error page</html>".into();
    assert_eq!(shown(BlockDetailTab::Body, broken), "<html>error page</html>");

    let overview = shown(BlockDetailTab::Overview, detail_fixture("chat-test"));
    assert!(overview.contains("#7"));
    assert!(overview.contains("unit-3::h5"));
    assert!(overview.contains("chat-test"));
    assert!(overview.contains("中文（简体）"));
    assert!(overview.contains("5, 5"), "per-segment character counts");
    assert!(overview.contains("原文语言标记: en"));

    // A task that never ran records no model; the overview must say so
    // instead of printing an empty field.
    let empty_model = shown(BlockDetailTab::Overview, detail_fixture(""));
    assert!(empty_model.contains("调用模型: \n"));

    // Nothing is rendered while the payload is missing.
    for tab in block_detail_tabs(true) {
        assert!(block_detail_text(&detail_state(tab, None)).is_none());
    }
}

#[test]
fn characters_are_counted_per_segment() {
    assert_eq!(segment_char_label(&vec!["甲乙".to_string(), "abc".to_string()]), "2, 3");
    assert!(overview_text(&detail_fixture("m")).contains("调用模型: m"));
}

#[test]
fn the_view_of_a_block_shows_what_it_waits_for() {
    let mut state = detail_state(BlockDetailTab::Overview, None);
    state.loading = true;
    assert_eq!(render_block_detail(&state).body, BlockDetailBody::Loading);
    state.loading = false;
    state.error = Some("读取失败".to_string());
    assert!(matches!(render_block_detail(&state).body, BlockDetailBody::Error(_)));
}

fn task_id(index: usize) -> String {
    format!("translation:layout-source-{index:04}-0123456789abcdef:zh-Hans")
}

fn snapshots() -> Vec<BackgroundJobSnapshot> {
    (0..56)
        .map(|index| BackgroundJobSnapshot {
            id: task_id(index),
            book_id: format!("book-{}", index / 14),
            source_id: Some(format!("layout-source-{index:04}")),
            kind: if index % 2 == 0 { "translation" } else { "embedding" }.into(),
            status: if index % 3 == 0 {
                BackgroundJobStatus::Failed
            } else {
                BackgroundJobStatus::Paused
            },
            pause_requested: false,
            cancel_requested: false,
            attempts: 3,
            progress: BackgroundJobProgress { completed: 17, total: Some(78) },
            error: Some("当前模型请求失败。请检查模型服务后重试。".repeat(20)),
            created_at: 1_700_000_000,
            updated_at: 1_700_000_010,
            started_at: Some(1_700_000_001),
            finished_at: Some(1_700_000_010),
            cursor_json: Some(
                "{\"next_ordinal\":17,\"unit_ids\":[\"unit-0000\",\"unit-0001\"]}".to_string(),
            ),
        })
        .collect()
}

/// Synthetic block list matching the snapshot progress: a book long enough to
/// need several inspector pages, with empty chapter titles to exercise the
/// fallback label.
fn block_list(total: usize) -> TranslationBlockList {
    TranslationBlockList {
        target_language: "zh-Hans".into(),
        target_label: Some("中文（简体）".into()),
        total,
        blocks: (0..total)
            .map(|ordinal| TranslationBlockInfo {
                ordinal,
                unit_ordinal: ordinal / 4,
                unit_title: if ordinal % 4 == 0 {
                    String::new()
                } else {
                    format!("第 {} 节 — 用于验证标题截断的长章节名", ordinal / 4 + 1)
                },
                source_preview: format!(
                    "文本块 {ordinal} 的原文预览内容，用于验证单行截断与状态徽章的对齐"
                ),
            })
            .collect(),
    }
}

/// One persisted diagnostic line, reduced to what the inspector reads.
fn log_entry(
    event: JobLogEvent,
    ordinal: Option<usize>,
    error_kind: Option<JobLogErrorKind>,
) -> JobLogEntry {
    JobLogEntry { event, ordinal, error_kind, line: String::new() }
}

fn log_snapshot(entries: Vec<JobLogEntry>) -> BackgroundJobLogSnapshot {
    BackgroundJobLogSnapshot { entries, truncated: false }
}

#[test]
fn translation_block_inspector_pages_filters_and_marks_the_in_flight_blocks() {
    let blocks = block_list(78);
    let mut job = snapshots().remove(0);
    job.status = BackgroundJobStatus::Running;
    // 并发 3 的一次运行：游标只说「第一块没完成的」，处理中的三块由窗口集合给出。
    job.cursor_json = Some("{\"inflight\":[17,18,19],\"next_ordinal\":17}".to_string());
    let inspector = BlockInspector::new(&job, blocks.total, None);
    let progress = &inspector.progress;
    assert_eq!(
        (progress.done, progress.processing.clone(), progress.pending),
        (17, vec![17, 18, 19], 58)
    );
    assert_eq!(inspector.state(16), BlockState::Done);
    assert_eq!(inspector.state(17), BlockState::Processing);
    assert_eq!(inspector.state(19), BlockState::Processing);
    assert_eq!(inspector.state(20), BlockState::Pending);

    let first = block_page_indices(&blocks, &inspector, None, 0);
    assert_eq!(first, (0..BLOCKS_PER_PAGE).collect::<Vec<_>>());
    let second = block_page_indices(&blocks, &inspector, None, 1);
    assert_eq!(second.first(), Some(&50));
    assert_eq!(second.last(), Some(&77));

    assert_eq!(
        block_page_indices(&blocks, &inspector, Some(BlockState::Done), 0),
        (0..17).collect::<Vec<_>>()
    );
    assert_eq!(
        block_page_indices(&blocks, &inspector, Some(BlockState::Processing), 0),
        vec![17, 18, 19]
    );
    let pending = block_page_indices(&blocks, &inspector, Some(BlockState::Pending), 0);
    assert_eq!(pending.first(), Some(&20));
    assert_eq!(pending.len(), BLOCKS_PER_PAGE);

    // A task whose row says running but whose cursor carries no window (an older
    // format, or a process that died between two rounds) claims nothing is in
    // flight instead of inventing one block at the cursor.
    job.cursor_json = Some("{\"next_ordinal\":17}".to_string());
    let unwindowed = BlockInspector::new(&job, blocks.total, None);
    assert!(unwindowed.progress.processing.is_empty());
    assert_eq!(unwindowed.progress.pending, 61);
    assert_eq!(
        block_page_indices(&blocks, &unwindowed, Some(BlockState::Processing), 0),
        Vec::<usize>::new()
    );

    // A finished task leaves no block in flight, and the page controls cannot
    // scroll past the last block.
    job.cursor_json = Some("{\"inflight\":[17,18,19],\"next_ordinal\":17}".to_string());
    job.progress.completed = blocks.total;
    let finished = BlockInspector::new(&job, blocks.total, None);
    assert_eq!(
        (
            finished.progress.done,
            finished.progress.processing.clone(),
            finished.progress.pending
        ),
        (78, Vec::new(), 0)
    );
    assert!(block_page_indices(&blocks, &finished, Some(BlockState::Processing), 0).is_empty());
    // Past the last page there is nothing left to show.
    assert!(block_page_indices(&blocks, &finished, None, 2).is_empty());

    // A stale snapshot that overran the current block list stays consistent.
    job.progress.completed = 200;
    let stale = BlockInspector::new(&job, blocks.total, None);
    assert_eq!(
        (
            stale.progress.done,
            stale.progress.processing.clone(),
            stale.progress.pending
        ),
        (78, Vec::new(), 0)
    );
}

/// The durable cursor alone can only say how far a failed task got: the blocks
/// it skipped are named by the per-block diagnostics, and those are what the
/// window has to show.
#[test]
fn translation_block_inspector_names_the_blocks_that_failed() {
    let blocks = block_list(78);
    let mut job = snapshots().remove(0);
    job.status = BackgroundJobStatus::Failed;
    job.progress.completed = 60;
    let logs = log_snapshot(vec![
        log_entry(JobLogEvent::RunStarted, None, None),
        log_entry(JobLogEvent::Other, Some(1), None),
        log_entry(JobLogEvent::ProtocolSkipped, Some(58), Some(invalid_schema())),
        log_entry(JobLogEvent::Other, Some(61), Some(segment_count_mismatch())),
        log_entry(JobLogEvent::StepFailed, Some(61), Some(segment_count_mismatch())),
        // The headline failure carries the run position, not a block.
        log_entry(
            JobLogEvent::Other,
            Some(60),
            Some(JobLogErrorKind { cancelled: false, label: "请求超时".into() }),
        ),
    ]);
    let inspector = BlockInspector::new(&job, blocks.total, Some(&logs));

    assert_eq!(inspector.progress.failed, 2);
    assert_eq!(inspector.state(58), BlockState::Failed);
    assert_eq!(inspector.state(61), BlockState::Failed);
    assert_eq!(inspector.reason(58), Some("响应结构不符合分段协议"));
    assert_eq!(inspector.reason(61), Some("片段数量与原文不一致"));
    // A rejected attempt that was retried into a valid answer is not a failure.
    assert_eq!(inspector.reason(60), None);
    assert_eq!(inspector.state(60), BlockState::Pending);
    assert_eq!(inspector.reason(1), None);
    assert_eq!(inspector.state(1), BlockState::Done);

    // The failed blocks leave the state the cursor gave them, so the header
    // still adds up to the number of blocks.
    let progress = &inspector.progress;
    assert_eq!(progress.cursor, 60);
    assert_eq!(progress.done, 59);
    assert_eq!(
        progress.done + progress.processing.len() + progress.failed + progress.pending,
        progress.total
    );

    // They can be filtered and jumped to on their own.
    assert_eq!(
        block_page_indices(&blocks, &inspector, Some(BlockState::Failed), 0),
        vec![58, 61]
    );
    assert_eq!(anchor_page(&blocks, &inspector, Some(BlockState::Failed)), 0);
    assert_eq!(anchor_page(&blocks, &inspector, Some(BlockState::Pending)), 0);
    assert_eq!(
        untranslated_summary(&inspector).as_deref(),
        Some("本次执行未翻译的文本块：#58、#61")
    );
    // A failed task must explain itself in the inspector, not only in the log.
    assert!(failure_banner(&job, &inspector).is_some());
}

#[test]
fn translation_block_inspector_reports_every_untranslated_block_in_the_banner() {
    let blocks = block_list(200);
    let mut job = snapshots().remove(0);
    job.status = BackgroundJobStatus::Failed;
    job.progress.completed = 0;
    let mut entries = vec![log_entry(JobLogEvent::RunStarted, None, None)];
    entries.extend((0..30).map(|ordinal| {
        log_entry(JobLogEvent::ProtocolSkipped, Some(ordinal), Some(invalid_schema()))
    }));
    let logs = log_snapshot(entries);
    let inspector = BlockInspector::new(&job, blocks.total, Some(&logs));
    assert_eq!(inspector.progress.failed, 30);
    let summary = untranslated_summary(&inspector).expect("失败块必须能被列出来");
    assert!(summary.contains("#0、#1"), "{summary}");
    assert!(summary.contains("共 30 个"), "{summary}");
    assert!(
        !summary.contains("#12"),
        "清单必须有上限，否则横幅会变成数字墙：{summary}"
    );
}

/// A retry must not inherit the failures of the attempt before it, and a
/// controlled stop is not a block failure.
#[test]
fn translation_block_inspector_scopes_failures_to_the_newest_execution() {
    let blocks = block_list(20);
    let mut job = snapshots().remove(0);
    job.status = BackgroundJobStatus::Running;
    job.progress.completed = 12;
    let logs = log_snapshot(vec![
        log_entry(JobLogEvent::RunStarted, None, None),
        log_entry(JobLogEvent::ProtocolSkipped, Some(3), Some(invalid_schema())),
        log_entry(JobLogEvent::Other, Some(3), None),
        // A new execution translated what the previous one skipped.
        log_entry(JobLogEvent::RunStarted, None, None),
        log_entry(JobLogEvent::Other, Some(3), None),
        log_entry(
            JobLogEvent::StepFailed,
            Some(11),
            Some(JobLogErrorKind { cancelled: true, label: "已取消".into() }),
        ),
    ]);
    let inspector = BlockInspector::new(&job, blocks.total, Some(&logs));
    assert_eq!(inspector.progress.failed, 0);
    assert_eq!(inspector.state(3), BlockState::Done);
    assert!(failure_banner(&job, &inspector).is_none());

    // Without any log at all the inspector still renders from the cursor: 已处理与待处理
    // 由游标决定，处理中由游标里的窗口集合决定（单块在飞时就是游标那一块）。
    job.cursor_json = Some("{\"inflight\":[12],\"next_ordinal\":12}".to_string());
    let bare = BlockInspector::new(&job, blocks.total, None);
    assert_eq!(bare.progress.failed, 0);
    assert_eq!(bare.state(11), BlockState::Done);
    assert_eq!(bare.state(12), BlockState::Processing);
    assert_eq!(bare.state(13), BlockState::Pending);
}

#[test]
fn a_window_holds_blocks_that_are_not_done_once_each() {
    assert_eq!(
        window_of(&vec![Some(19), Some(17), Some(19), Some(3), None, Some(99)], 17, 20),
        vec![17, 19]
    );
}

#[test]
fn pages_hold_every_block_once() {
    let blocks = block_list(120);
    let mut job = snapshots().remove(0);
    job.progress.completed = 70;
    let inspector = BlockInspector::new(&job, blocks.total, None);
    let mut all = Vec::new();
    for page in 0..3 {
        all.extend(block_page_indices(&blocks, &inspector, None, page));
    }
    assert_eq!(all, (0..120).collect::<Vec<_>>());
    assert_eq!(anchor_page(&blocks, &inspector, None), 1);
    assert_eq!(block_chapter_label(&blocks.blocks[1]), blocks.blocks[1].unit_title);
    assert!(block_chapter_label(&blocks.blocks[4]).contains('2'));
    assert!(translation_blocks_copy(&job, &blocks, &inspector).contains(&job.id));
}

fn open_fixture() -> BackgroundJobsWindow {
    let books = (0..4)
        .map(|index| BackgroundJobBook {
            id: format!("book-{index}"),
            title: format!("Layout book {index} — 长书名验证任务列表与详情区域保持可见"),
        })
        .collect();
    let mut jobs = BackgroundJobsWindow::new(books, "隔离布局回归".to_string());
    jobs.auto_refresh = false;
    jobs.jobs = snapshots();
    jobs.loaded = true;
    jobs.reconcile_selection();
    jobs
}

#[test]
fn pagination_clicks_select_the_current_page_after_filter_changes() {
    let mut jobs = open_fixture();
    for (page, index) in [(1, 12), (2, 24), (3, 36), (4, 48)] {
        jobs.next_page();
        assert_eq!(jobs.page, page);
        assert_eq!(jobs.selected_job_id, Some(task_id(index)));
        assert!(jobs.take_signals().contains(&JobsSignal::ScrollListToTop));
    }
    jobs.set_kind("translation");
    assert_eq!(jobs.page, 0);
    assert_eq!(jobs.filtered_jobs().len(), 28);
    assert_eq!(jobs.selected_job_id, Some(task_id(0)));
    jobs.next_page();
    assert_eq!(jobs.page, 1);
    assert_eq!(jobs.selected_job_id, Some(task_id(24)));
    jobs.set_query("Layout book 1");
    assert_eq!(jobs.page, 0);
    assert_eq!(jobs.filtered_jobs().len(), 7);
    assert_eq!(jobs.selected_job_id, Some(task_id(24)));
    jobs.set_status(Some(BackgroundJobStatus::Failed));
    assert_eq!(jobs.filtered_jobs().len(), 2);
    assert_eq!(jobs.selected_job_id, Some(task_id(24)));
    jobs.set_query("Layout book 0");
    assert_eq!(jobs.filtered_jobs().len(), 3);
    assert_eq!(jobs.selected_job_id, Some(task_id(0)));
    assert_eq!(jobs.render_list().rows.len(), 3);
    assert_eq!(JOBS_PER_PAGE, 12);
}

/// The two repair routes of a finished translation: all failed blocks at once,
/// before the job is translated anew, and one failed row. A translated row offers
/// neither.
#[test]
fn failed_blocks_offer_a_bulk_retry_before_retranslate_and_a_row_retry() {
    let mut jobs = open_fixture();
    jobs.tab = DetailTab::Blocks;
    jobs.blocks = Some(block_list(78));
    jobs.blocks_job_id = Some(task_id(0));
    jobs.logs = Some(log_snapshot(vec![
        log_entry(JobLogEvent::RunStarted, None, None),
        log_entry(JobLogEvent::ProtocolSkipped, Some(18), Some(invalid_schema())),
        log_entry(JobLogEvent::ProtocolSkipped, Some(19), Some(invalid_schema())),
    ]));
    let job = jobs.jobs.iter_mut().find(|job| job.id == task_id(0)).unwrap();
    job.status = BackgroundJobStatus::Succeeded;
    job.error = None;
    job.progress.completed = job.progress.total.unwrap_or_default();

    let detail = jobs.render_detail().unwrap();
    assert_eq!(detail.actions, vec![BackgroundJobAction::Retranslate]);
    assert_eq!(detail.retry_failed.as_ref().unwrap().0, vec![18, 19]);
    let DetailBody::Blocks(BlocksPanel::Loaded(list)) = detail.body else {
        panic!("the blocks are shown");
    };
    assert_eq!(list.rows[18].state, BlockState::Failed);
    assert_eq!(list.rows[19].state, BlockState::Failed);
    assert_ne!(list.rows[0].state, BlockState::Failed);
    assert!(list.rows[18].offers_retry);
    assert!(!list.rows[0].offers_retry, "a block with a translation must not offer a retry");

    jobs.retry_translation_blocks(vec![18, 19]);
    assert!(jobs.take_signals().iter().any(|signal| matches!(
        signal,
        JobsSignal::Run(JobsTask::RetryBlocks { ordinals, .. }) if *ordinals == vec![18, 19]
    )));
    assert_eq!(jobs.pending_job_id, Some(task_id(0)));
    jobs.finish_retry(jobs.scope_generation, 2, Ok(true));
    assert_eq!(jobs.notice.as_ref().unwrap().text, "已请求重试 2 个文本块。");
    assert_eq!(jobs.pending_job_id, None);
    assert!(jobs.blocks.is_none());
    assert!(jobs.logs.is_some());
}

#[test]
fn a_refresh_that_was_overtaken_is_dropped() {
    let mut jobs = BackgroundJobsWindow::new(Vec::new(), "全部".to_string());
    jobs.refresh();
    let first = jobs.refresh_generation;
    jobs.apply_scope(
        vec![BackgroundJobBook { id: "book-0".into(), title: "T".into() }],
        "一本".to_string(),
    );
    jobs.finish_refresh(first, Ok(snapshots()));
    assert!(jobs.jobs.is_empty());
    assert!(jobs.loading);
    jobs.finish_refresh(jobs.refresh_generation, Ok(snapshots()));
    assert_eq!(jobs.jobs.len(), 56);
    assert_eq!(jobs.filtered_jobs().len(), 56);
    assert!(!jobs.loading);
    jobs.refresh();
    jobs.finish_refresh(jobs.refresh_generation, Err("断开".to_string()));
    assert_eq!(jobs.refresh_error.as_deref(), Some("无法刷新后台任务：断开"));
    assert_eq!(jobs.jobs.len(), 56);
}

#[test]
fn actions_are_asked_for_one_at_a_time() {
    let mut jobs = open_fixture();
    jobs.take_signals();
    jobs.apply_action(&task_id(0), BackgroundJobAction::Retry);
    jobs.apply_action(&task_id(1), BackgroundJobAction::Resume);
    let controls = jobs
        .take_signals()
        .into_iter()
        .filter(|signal| matches!(signal, JobsSignal::Run(JobsTask::Control { .. })))
        .count();
    assert_eq!(controls, 1);
    jobs.finish_action(jobs.scope_generation, BackgroundJobAction::Retry, Ok(false));
    assert_eq!(jobs.notice.as_ref().unwrap().text, "任务状态已发生变化，未重复执行操作。");
    jobs.finish_action(
        jobs.scope_generation,
        BackgroundJobAction::Retry,
        Err("拒绝".to_string()),
    );
    assert!(jobs.notice.as_ref().unwrap().error);
}

#[test]
fn jobs_stand_in_order() {
    let mut running = job(BackgroundJobStatus::Running);
    running.id = "r".to_string();
    let mut done = job(BackgroundJobStatus::Succeeded);
    done.id = "s".to_string();
    done.updated_at = 1_800_000_000;
    let sorted = sort_jobs(vec![done, running]);
    assert_eq!(sorted.len(), 2);
    assert_eq!(sorted[0].id, "r");
}

#[test]
fn queries_ignore_case() {
    let books = vec![BackgroundJobBook { id: "book-1".into(), title: "RUST ÄPFEL 开发".into() }];
    let snapshot = job(BackgroundJobStatus::Failed);
    assert!(job_matches(&snapshot, &books, "", None, "rust äpfel"));
    let mut jobs = BackgroundJobsWindow::new(books, "全部".to_string());
    jobs.finish_refresh(jobs.refresh_generation, Ok(vec![snapshot]));
    jobs.set_query("  Rust ");
    assert_eq!(jobs.filtered_jobs().len(), 1);
    jobs.set_query("JOB-2");
    assert!(jobs.filtered_jobs().is_empty());
    assert!(query_finds("rust", "job", &vec!["rust 开发".to_string()]));
    assert!(query_finds("job", "job-1", &Vec::new()));
    assert!(query_finds("", "job-1", &Vec::new()));
    assert!(!query_finds("x", "job", &vec!["书".to_string()]));
    assert_ne!(job_kind_label("embedding"), job_kind_label("translation"));
    assert_ne!(action_id(BackgroundJobAction::Pause), action_id(BackgroundJobAction::Resume));
    assert_ne!(action_label(BackgroundJobAction::Pause), action_label(BackgroundJobAction::Resume));
    assert!(!detail_rows(&job(BackgroundJobStatus::Queued)).is_empty());
}
