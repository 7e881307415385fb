use book_studio_ui::block_detail::{BlockDetailBody, BlockDetailTab};
use book_studio_ui::block_inspector::BlockState;
use book_studio_ui::block_pages::{TranslationBlockInfo, TranslationBlockList};
use book_studio_ui::citations::{ChatThread, UiSessionState};
use book_studio_ui::controller::{
    AgentRunEvent, AiSidebarController, ReconciledSessions, SessionTaskKind, TaskOutcome,
    UiAgentMessage,
};
use book_studio_ui::conversation::{AiMessage, AiMessageRole, AiQuestionRequest};
use book_studio_ui::document::{DocumentLocator, Revision};
use book_studio_ui::endpoint::AiEndpointStatus;
use book_studio_ui::jobs::{
    BackgroundJobAction, BackgroundJobBook, BackgroundJobLogSnapshot, BackgroundJobProgress,
    BackgroundJobSnapshot, BackgroundJobStatus, StatusTone,
};
use book_studio_ui::jobs_display::{status_filters, BlocksPanel, DetailBody};
use book_studio_ui::jobs_window::{
    tab_id, BackgroundJobsWindow, DetailTab, JobsSignal, JobsTask,
};
use book_studio_ui::references::AiReferenceHint;
use book_studio_ui::scope::{AiBookOption, AiSidebarScope};
use book_studio_ui::sessions::AiThreadOption;
use book_studio_ui::sidebar::{AiSidebar, AiSidebarEvent, SidebarSignal};
use book_studio_ui::sidebar_display::{
    render_message, SessionPanelBody, SidebarFrame,
};
use book_studio_ui::sources::{AgentAnswerSourceStatus, AiSourceLink};
use book_studio_ui::submission::{AnswerContent, AnswerWorker, WorkerAction, WorkerStage};

fn book(id: &str) -> AiBookOption {
    AiBookOption::new(id, &format!("Book {id}"))
}

fn sidebar() -> AiSidebar {
    AiSidebar::new(
        AiSidebarScope::book(book("a"), vec![book("b"), book("c")]),
        false,
        AiEndpointStatus::Local,
    )
}

fn events(sidebar: &mut AiSidebar) -> Vec<AiSidebarEvent> {
    sidebar
        .take_signals()
        .into_iter()
        .filter_map(|signal| match signal {
            SidebarSignal::Event(event) => Some(event),
            _ => None,
        })
        .collect()
}

fn thread(id: &str, books: &[&str]) -> AiThreadOption {
    AiThreadOption::new(id, &format!("Title {id}"), books.iter().map(|b| b.to_string()).collect())
}

#[test]
fn a_changed_scope_is_told_and_closes_what_is_not_allowed() {
    let mut sidebar = sidebar();
    sidebar.add_book("b");
    sidebar.fail_session_operation("done");
    sidebar.apply_session(Some("ab".to_string()), vec![thread("ab", &["a", "b"])], Vec::new());
    assert_eq!(sidebar.sessions.active_thread_id.as_deref(), Some("ab"));
    sidebar.take_signals();
    sidebar.remove_book("b");
    assert_eq!(sidebar.sessions.active_thread_id, None);
    assert!(events(&mut sidebar).iter().any(|event| matches!(
        event,
        AiSidebarEvent::ScopeChanged { book_ids } if *book_ids == vec!["a".to_string()]
    )));
    assert!(sidebar.sessions.busy);
}

#[test]
fn sessions_are_chosen_deleted_and_started() {
    let mut sidebar = sidebar();
    sidebar.apply_session(None, vec![thread("t", &["a"]), thread("u", &["a"])], Vec::new());
    sidebar.toggle_session_picker();
    match sidebar.render_session_picker().unwrap().body {
        SessionPanelBody::Rows { rows, empty_text } => {
            assert_eq!(rows.len(), 2);
            assert_eq!(rows[0].title, "Title t");
            assert_eq!(rows[0].delete_tooltip, "删除会话“Title t”");
            assert!(!rows[0].switch_disabled);
            assert_eq!(empty_text, None);
        }
        other => panic!("the list is shown: {other:?}"),
    }
    sidebar.confirm_delete_session("t");
    assert!(matches!(
        sidebar.render_session_picker().unwrap().body,
        SessionPanelBody::ConfirmDelete { ref thread_id, .. } if thread_id == "t"
    ));
    sidebar.cancel_delete_session();
    assert!(sidebar.sessions.pending_delete.is_none());
    sidebar.confirm_delete_session("gone");
    assert_eq!(
        sidebar.sessions.error.as_deref(),
        Some("该会话已不存在或不在当前图书范围内。")
    );
    sidebar.confirm_delete_session("t");
    sidebar.take_signals();
    assert!(sidebar.delete_session("t"));
    assert!(events(&mut sidebar)
        .iter()
        .any(|event| matches!(event, AiSidebarEvent::DeleteSession { thread_id } if thread_id == "t")));
    sidebar.fail_session_operation("拒绝");
    assert_eq!(sidebar.sessions.error.as_deref(), Some("拒绝"));
    sidebar.switch_session("u");
    assert!(events(&mut sidebar)
        .iter()
        .any(|event| matches!(event, AiSidebarEvent::SwitchSession { thread_id } if thread_id == "u")));
    sidebar.apply_session(Some("u".to_string()), vec![thread("u", &["a"])], Vec::new());
    sidebar.new_session();
    assert!(events(&mut sidebar).iter().any(|event| matches!(event, AiSidebarEvent::NewSession)));
}

#[test]
fn a_link_that_is_opened_is_told() {
    let mut sidebar = sidebar();
    let source = AiSourceLink {
        citation_id: "c".to_string(),
        book_id: "a".to_string(),
        unit_id: "u".to_string(),
        unit_index: None,
        document_revision: Revision::new(1),
        unit_revision: Revision::new(1),
        locator: Some(DocumentLocator::unit("a", "u")),
        label: "L".to_string(),
        quote: None,
        selection_snapshot: false,
        stale: false,
        url: None,
    };
    sidebar.open_source(&source);
    assert!(events(&mut sidebar)
        .iter()
        .any(|event| matches!(event, AiSidebarEvent::OpenSource(opened) if *opened == source)));
    let card = render_message(&AiMessage {
        id: 1,
        role: AiMessageRole::Assistant,
        content: "answer".to_string(),
        sources: vec![source],
        source_status: Some(AgentAnswerSourceStatus::VerifiedKnowledgeBaseSources),
        request_id: None,
    });
    assert_eq!(card.sources.len(), 1);
    assert!(!card.warning);
    assert_eq!(card.copy_text, "answer");
}

#[test]
fn the_sidebar_shows_its_scope_and_references() {
    let mut sidebar = sidebar();
    let scope = sidebar.render_scope();
    assert_eq!(scope.count_label, "1 本");
    assert_eq!(scope.chips.len(), 1);
    assert!(!scope.chips[0].removable);
    assert_eq!(scope.books_to_add.len(), 2);
    assert!(sidebar.render_references().is_none());
    let hint = AiReferenceHint::chapter("a", "u", 0, "Chapter");
    sidebar.set_reference_hint(Some(hint.clone()));
    let panel = sidebar.render_references().unwrap();
    assert_eq!(panel.rows[0].button, "引用");
    assert_eq!(panel.max_height, 28);
    sidebar.toggle_reference(&hint);
    assert_eq!(sidebar.render_references().unwrap().rows[0].button, "已引用");
    sidebar.set_reference_hint(None);
    assert!(sidebar.render_references().is_none());
}

#[test]
fn the_frame_follows_what_the_sidebar_does() {
    let mut sidebar = sidebar();
    assert!(matches!(
        sidebar.render("  "),
        SidebarFrame::Expanded { sends: true, send_disabled: true, nothing_said: true, .. }
    ));
    sidebar.submit("question");
    match sidebar.render("next") {
        SidebarFrame::Expanded { hint, sends, .. } => {
            assert_eq!(hint, "正在生成，可随时取消");
            assert!(!sends);
        }
        other => panic!("the sidebar is open: {other:?}"),
    }
    sidebar.cancel();
    assert!(matches!(sidebar.render("next"), SidebarFrame::Expanded { send_disabled: false, .. }));
    sidebar.toggle_collapsed();
    sidebar.set_endpoint_status(AiEndpointStatus::Unavailable);
    assert_eq!(
        sidebar.render(""),
        SidebarFrame::Collapsed { warning: true, status_text: "远" }
    );
    sidebar.toggle_collapsed();
    sidebar.resize(true);
    assert!(!sidebar.is_collapsed(), "what the user chose stays");
}

#[test]
fn restoring_waits_for_its_turn() {
    let mut sidebar = sidebar();
    let mut controller = AiSidebarController::new();
    let task = controller.restore(&mut sidebar).unwrap();
    assert_eq!(task.kind, SessionTaskKind::Restore);
    assert_eq!(task.allowed_book_ids, vec!["a".to_string()]);
    assert!(controller.restore(&mut sidebar).is_none());
    controller.finish_session_task(task, TaskOutcome::Failed("坏了".to_string()), &mut sidebar);
    assert!(sidebar.sessions.error.is_some());
    let task = controller.new_session(&sidebar);
    controller.finish_session_task(
        task,
        TaskOutcome::Finished(UiSessionState {
            active_thread_id: None,
            threads: vec![thread("t", &["a"])],
            messages: Vec::new(),
        }),
        &mut sidebar,
    );
    assert_eq!(sidebar.sessions.threads.len(), 1);
    let task = controller.delete_session("t".to_string(), &sidebar);
    controller.close();
    controller.finish_session_task(task, TaskOutcome::Failed("late".to_string()), &mut sidebar);
    assert_eq!(sidebar.sessions.error, None);
}

#[test]
fn a_scope_that_left_the_conversation_behind_starts_a_new_one() {
    let mut sidebar = sidebar();
    sidebar.apply_session(Some("t".to_string()), vec![thread("t", &["a"])], Vec::new());
    let mut controller = AiSidebarController::new();
    let listed = |reset: bool| {
        TaskOutcome::Finished(ReconciledSessions {
            reset,
            active_thread_id: Some("t".to_string()),
            threads: Ok(vec![ChatThread {
                id: "t".to_string(),
                title: "T".to_string(),
                book_ids: vec!["a".to_string()],
            }]),
        })
    };
    let task = controller.reconcile_scope(vec!["a".to_string()]);
    controller.finish_reconciling(task, listed(false), &mut sidebar);
    assert_eq!(sidebar.sessions.active_thread_id.as_deref(), Some("t"));
    let task = controller.reconcile_scope(vec!["a".to_string()]);
    controller.finish_reconciling(task, listed(true), &mut sidebar);
    assert_eq!(sidebar.sessions.active_thread_id, None);
    let task = controller.reconcile_scope(vec!["a".to_string()]);
    controller.finish_reconciling(task, TaskOutcome::Failed("坏了".to_string()), &mut sidebar);
    assert_eq!(sidebar.sessions.error.as_deref(), Some("无法同步 AI 会话范围：坏了"));
}

fn question(id: u64, hints: Vec<AiReferenceHint>, editor: Option<AiReferenceHint>) -> AiQuestionRequest {
    AiQuestionRequest {
        request_id: id,
        question: "q".to_string(),
        book_ids: vec!["a".to_string()],
        book_titles: vec![("a".to_string(), "A".to_string())],
        reference_hints: hints,
        reference: editor,
    }
}

#[test]
fn a_question_is_sent_with_what_the_editor_froze() {
    let mut sidebar = sidebar();
    let controller = AiSidebarController::new();
    let plain = AiReferenceHint::chapter("a", "u", 0, "Chapter");
    let mut frozen = plain.clone();
    frozen.frozen_text = Some("unsaved".to_string());
    let sent = controller
        .submit(question(5, vec![plain.clone()], Some(frozen.clone())), &Ok(()), &mut sidebar)
        .unwrap();
    assert_eq!(sent.references, vec![frozen]);
    assert_eq!(sent.request_id, 5);
    sidebar.submit("question");
    let id = match sidebar.conversation.request {
        book_studio_ui::conversation::RequestState::Sending { request_id } => request_id,
        _ => panic!("the question is being answered"),
    };
    assert!(controller
        .submit(
            question(id, vec![plain], None),
            &Err("connection refused".to_string()),
            &mut sidebar
        )
        .is_none());
    assert!(!sidebar.conversation.is_sending());
    assert!(sidebar.conversation.messages.last().unwrap().content.contains("Ollama"));
}

#[test]
fn a_worker_tells_the_conversations_before_the_answer() {
    let mut worker = AnswerWorker::new(7);
    assert_eq!(worker.agent_event(Some(AgentRunEvent::AnswerReset)), WorkerAction::Wait);
    assert_eq!(worker.frozen(Ok(())), WorkerAction::Ask);
    assert_eq!(worker.frozen(Ok(())), WorkerAction::Wait);
    assert_eq!(
        worker.agent_event(Some(AgentRunEvent::AnswerDelta("x".to_string()))),
        WorkerAction::Deliver(UiAgentMessage::Delta("x".to_string()))
    );
    assert_eq!(worker.agent_event(Some(AgentRunEvent::ToolStarted)), WorkerAction::Wait);
    assert_eq!(worker.agent_event(None), WorkerAction::Wait);
    assert_eq!(worker.stage, WorkerStage::Asking { events_open: false });
    let content = AnswerContent {
        markdown: "answer".to_string(),
        citations: Vec::new(),
        source_status: AgentAnswerSourceStatus::NoVerifiedSources,
    };
    assert_eq!(worker.answered(Ok(content)), WorkerAction::ReadDocuments);
    assert_eq!(
        worker.documents_read(&vec!["a".to_string()], &Some(Vec::new())),
        WorkerAction::ListSessions
    );
    let told = worker.sessions_listed(None, &Ok(Vec::new()));
    assert_eq!(told.len(), 2);
    assert!(matches!(told[0], UiAgentMessage::Sessions { .. }));
    assert!(matches!(&told[1], UiAgentMessage::Completed(Ok(answer)) if answer.markdown == "answer"));
    assert_eq!(worker.stage, WorkerStage::Done);
    assert!(worker.sessions_listed(None, &Ok(Vec::new())).is_empty());
}

#[test]
fn a_worker_stops_where_nothing_can_be_frozen_or_told() {
    let mut worker = AnswerWorker::new(7);
    assert_eq!(
        worker.frozen(Err("引用列表包含重复的章节或页面".to_string())),
        WorkerAction::Deliver(UiAgentMessage::Completed(Err(
            "引用列表包含重复的章节或页面".to_string()
        )))
    );
    assert_eq!(worker.stage, WorkerStage::Done);
    assert_eq!(worker.undelivered(), WorkerAction::Wait);
    let mut worker = AnswerWorker::new(8);
    worker.frozen(Ok(()));
    assert_eq!(worker.undelivered(), WorkerAction::Cancel { request_id: 8 });
    let mut worker = AnswerWorker::new(9);
    worker.frozen(Ok(()));
    assert_eq!(worker.answered(Err("坏了".to_string())), WorkerAction::ListSessions);
    let told = worker.sessions_listed(None, &Err("坏了".to_string()));
    assert_eq!(told, vec![UiAgentMessage::Completed(Err("坏了".to_string()))]);
}

fn job(id: &str, status: BackgroundJobStatus) -> BackgroundJobSnapshot {
    BackgroundJobSnapshot {
        id: id.to_string(),
        book_id: "a".to_string(),
        source_id: None,
        kind: "translation".to_string(),
        status,
        pause_requested: false,
        cancel_requested: false,
        attempts: 1,
        progress: BackgroundJobProgress { completed: 1, total: Some(3) },
        error: None,
        created_at: 1,
        updated_at: 2,
        started_at: None,
        finished_at: None,
        cursor_json: None,
    }
}

fn jobs_window() -> BackgroundJobsWindow {
    let mut window = BackgroundJobsWindow::new(
        vec![BackgroundJobBook { id: "a".to_string(), title: "A".to_string() }],
        "全部".to_string(),
    );
    window.refresh();
    let generation = window.refresh_generation;
    window.finish_refresh(
        generation,
        Ok(vec![job("x", BackgroundJobStatus::Running), job("y", BackgroundJobStatus::Failed)]),
    );
    window.take_signals();
    window
}

fn tasks(window: &mut BackgroundJobsWindow) -> Vec<JobsTask> {
    window
        .take_signals()
        .into_iter()
        .filter_map(|signal| match signal {
            JobsSignal::Run(task) => Some(task),
            _ => None,
        })
        .collect()
}

fn blocks() -> TranslationBlockList {
    TranslationBlockList {
        total: 3,
        target_language: "zh-Hans".to_string(),
        target_label: None,
        blocks: (0..3)
            .map(|ordinal| TranslationBlockInfo {
                ordinal,
                unit_title: "T".to_string(),
                unit_ordinal: 0,
                source_preview: "preview".to_string(),
            })
            .collect(),
    }
}

#[test]
fn the_window_of_jobs_reads_what_it_shows() {
    let mut window = jobs_window();
    assert_eq!(window.selected_job_id.as_deref(), Some("x"));
    window.set_tab(DetailTab::Blocks);
    let started = tasks(&mut window);
    assert!(started.iter().any(|task| matches!(task, JobsTask::LoadLogs { .. })));
    assert!(started.iter().any(|task| matches!(task, JobsTask::LoadBlocks { .. })));
    window.finish_logs(
        window.logs_generation,
        Ok(BackgroundJobLogSnapshot { entries: Vec::new(), truncated: false }),
    );
    window.finish_blocks(window.blocks_generation, "x", Ok(blocks()));
    window.set_blocks_state(Some(BlockState::Done));
    window.go_to_blocks_page(0);
    let detail = window.render_detail().unwrap();
    let DetailBody::Blocks(BlocksPanel::Loaded(list)) = detail.body else {
        panic!("the blocks are shown");
    };
    assert_eq!(list.rows.len(), 1);
    assert_eq!(BlockState::Failed.tone(), StatusTone::Bad);
    window.reload_blocks();
    assert!(tasks(&mut window).iter().any(|task| matches!(task, JobsTask::LoadBlocks { .. })));
    window.select_job("y");
    assert!(window.blocks.is_none());
    assert!(window.logs.is_none());
    assert_ne!(tab_id(DetailTab::Logs), tab_id(DetailTab::Blocks));
}

#[test]
fn a_block_is_opened_probed_and_closed() {
    let mut window = jobs_window();
    window.open_block_detail(2, true);
    let generation = match tasks(&mut window).pop() {
        Some(JobsTask::LoadBlockDetail { generation, ordinal: 2, .. }) => generation,
        other => panic!("the block is read: {other:?}"),
    };
    window.finish_block_detail(1, generation, Err("other".to_string()));
    assert!(window.block_detail.as_ref().unwrap().loading);
    window.finish_block_detail(2, generation, Err("没有".to_string()));
    let modal = window.render_block_detail_modal().unwrap();
    assert!(matches!(modal.body, BlockDetailBody::Error(_)));
    assert_eq!(modal.tabs.len(), 6);
    window.set_block_tab(BlockDetailTab::Response);
    window.probe_block_response();
    window.probe_block_response();
    assert_eq!(
        tasks(&mut window)
            .iter()
            .filter(|task| matches!(task, JobsTask::ProbeBlock { .. }))
            .count(),
        1
    );
    let generation = window.block_detail.as_ref().unwrap().generation;
    window.finish_probe(2, generation, Err("超时".to_string()));
    assert!(window.block_detail.as_ref().unwrap().probe.error.is_some());
    window.close_block_detail();
    assert!(window.render_block_detail_modal().is_none());
}

fn loading_number(window: &mut BackgroundJobsWindow) -> u64 {
    match tasks(window).pop() {
        Some(JobsTask::LoadBlockDetail { generation, .. }) => generation,
        other => panic!("the block is read: {other:?}"),
    }
}

#[test]
fn a_late_answer_for_a_block_is_dropped() {
    // The same block, closed and opened again.
    let mut window = jobs_window();
    window.open_block_detail(3, true);
    let first = loading_number(&mut window);
    window.probe_block_response();
    window.close_block_detail();
    window.open_block_detail(3, true);
    let second = loading_number(&mut window);
    assert_ne!(first, second);
    window.finish_probe(3, first, Err("late".to_string()));
    window.finish_block_detail(3, first, Err("late".to_string()));
    let shown = window.block_detail.as_ref().unwrap();
    assert!(shown.loading && shown.error.is_none() && shown.probe.error.is_none());

    // A block of another job that has the same place.
    window.select_job("y");
    assert!(window.block_detail.is_none());
    window.open_block_detail(3, true);
    let third = loading_number(&mut window);
    for late in [first, second] {
        window.finish_probe(3, late, Err("late".to_string()));
        window.finish_block_detail(3, late, Err("late".to_string()));
    }
    let shown = window.block_detail.as_ref().unwrap();
    assert!(shown.loading && shown.error.is_none() && shown.probe.error.is_none());
    window.finish_block_detail(3, third, Err("没有".to_string()));
    assert_eq!(
        window.block_detail.as_ref().unwrap().error.as_deref(),
        Some("无法读取文本块详情：没有")
    );
}

#[test]
fn pages_of_blocks_are_turned_one_by_one() {
    let mut window = jobs_window();
    window.previous_blocks_page();
    assert_eq!(window.blocks_page, 0);
    window.next_blocks_page(3);
    window.next_blocks_page(3);
    assert_eq!(window.blocks_page, 2);
    window.next_blocks_page(3);
    assert_eq!(window.blocks_page, 2);
    window.next_blocks_page(1);
    assert_eq!(window.blocks_page, 0);
    window.go_to_blocks_page(5);
    window.previous_blocks_page();
    assert_eq!(window.blocks_page, 4);
    assert!(window.take_signals().contains(&JobsSignal::ScrollDetailToTop));
}

#[test]
fn the_header_and_the_filters_show_what_there_is() {
    let mut window = jobs_window();
    let header = window.render_header();
    assert_eq!(header.line, "全部 · 1 本图书 · 2 个任务");
    assert_eq!(header.auto_refresh_label, "自动刷新 · 2 秒");
    window.toggle_auto_refresh();
    assert_eq!(window.render_header().auto_refresh_label, "自动刷新已暂停");
    window.poll();
    assert!(tasks(&mut window).is_empty(), "nothing is read while that is paused");
    window.refresh_by_hand();
    assert_eq!(window.render_header().refresh_label, "刷新中…");
    let kinds = window.render_kinds_bar();
    assert_eq!(kinds.len(), 5);
    assert_eq!(kinds[0].count, 2);
    assert!(kinds[0].selected);
    assert_eq!(kinds[2].count, 0);
    assert_eq!(status_filters().len(), 7);
    window.previous_page();
    assert_eq!(window.page, 0);
    window.note_copied(false);
    assert!(!window.notice.as_ref().unwrap().error);
    let detail = window.render_detail().unwrap();
    assert_eq!(
        detail.actions,
        vec![
            BackgroundJobAction::Pause,
            BackgroundJobAction::Cancel,
            BackgroundJobAction::Retranslate
        ]
    );
}
