use book_studio_ui::citations::{
    load_ui_session_state, restored_messages, source_link_from_agent_citation,
    source_link_from_chat_citation, thread_options, validate_live_sources,
    validated_restored_messages, AgentCitation, AgentCitationSourceKind, ChatCitation, ChatRole,
    ChatSession, ChatThread, StoredChatMessage, UiSessionState,
};
use book_studio_ui::controller::{
    completed_answer, friendly_agent_error, ui_message, AgentRunEvent, AiSidebarController,
    AnswerProgress, SessionTaskKind, TaskOutcome, UiAgentMessage,
};
use book_studio_ui::conversation::{AiMessageRole, MAX_SELECTED_REFERENCES};
use book_studio_ui::document::{
    BookDocument, ContentUnit, DocumentLocator, RefusedLocator, Revision, SourceLocator,
    TextBlock, TextRange,
};
use book_studio_ui::endpoint::AiEndpointStatus;
use book_studio_ui::reference_freeze::{
    accept_snapshots, capture_frozen_reference, checked_reference_bytes, merge_editor_reference,
    validate_explanation_reference, validate_persisted_reference, validate_reference_request,
    validate_snapshot_payload, FreezeError, ReferenceFreeze, SelectionSnapshot, MAX_REFERENCE_TOTAL_BYTES,
};
use book_studio_ui::references::AiReferenceHint;
use book_studio_ui::scope::{AiBookOption, AiSidebarScope};
use book_studio_ui::sessions::AiThreadOption;
use book_studio_ui::sidebar::{
    AiRestoredMessage, AiRestoredRole, AiSidebar, AiSidebarEvent, SidebarSignal,
};
use book_studio_ui::sources::{AgentAnswerSourceStatus, AiSourceLink};

fn reference(book_id: &str, unit_id: &str, index: usize) -> AiReferenceHint {
    AiReferenceHint::chapter(book_id, unit_id, index, &format!("Unit {index}"))
}

fn pdf_page(page: u32) -> SourceLocator {
    SourceLocator::Address { address: format!("pdf-page:{page}") }
}

fn with_source(mut locator: DocumentLocator, source: SourceLocator) -> DocumentLocator {
    locator.source = Some(source);
    locator
}

fn text_locator(start: u64, end: u64) -> DocumentLocator {
    let mut locator = DocumentLocator::unit("book-a", "unit-1");
    locator.block_id = Some("block-1".to_string());
    locator.text_range = Some(TextRange { start_byte: start, end_byte: end });
    locator
}

fn document(book: &str, unit: &str, text: &str) -> BookDocument {
    BookDocument {
        id: book.to_string(),
        revision: Revision::new(1),
        units: vec![ContentUnit {
            id: unit.to_string(),
            revision: Revision::new(1),
            source_locator: None,
            blocks: vec![TextBlock { id: "block-1".to_string(), text: text.to_string() }],
            text: text.to_string(),
        }],
        refused: Vec::new(),
    }
}

fn sidebar() -> AiSidebar {
    AiSidebar::new(
        AiSidebarScope::book(AiBookOption::new("book-a", "Book"), Vec::new()),
        false,
        AiEndpointStatus::Local,
    )
}

/// The size of the selection in its stored form.
fn encoded(reference: &AiReferenceHint) -> Option<usize> {
    reference.frozen_text.as_ref().map(|text| {
        serde_json::Value::from(vec![text.clone()]).to_string().len() + 64
    })
}

#[test]
fn explains_local_ollama_connection_failure() {
    assert!(friendly_agent_error("connection refused").contains("Ollama"));
}

#[test]
fn selection_explanation_rejects_missing_selection_and_untrusted_scope() {
    let allowed = vec!["book-a".to_string()];
    let mut selected = reference("book-a", "unit-1", 0);
    assert!(validate_explanation_reference(&selected, &allowed, encoded(&selected)).is_err());
    selected.frozen_text = Some("  \n".to_string());
    assert!(validate_explanation_reference(&selected, &allowed, encoded(&selected)).is_err());
    selected.frozen_text = Some("selected words\n精确选区".to_string());
    assert_eq!(selected.revision, None, "Reader uses host-authorized metadata");
    assert!(validate_explanation_reference(&selected, &allowed, encoded(&selected)).is_ok());
    assert!(validate_explanation_reference(
        &selected,
        &vec!["other".to_string()],
        encoded(&selected)
    )
    .is_err());
    selected.frozen_text = Some("x".repeat(MAX_REFERENCE_TOTAL_BYTES + 1));
    assert!(validate_explanation_reference(&selected, &allowed, encoded(&selected)).is_err());
}

#[test]
fn editor_frozen_text_replaces_only_the_matching_selected_reference() {
    let first = reference("book-a", "unit-1", 0);
    let second = reference("book-a", "unit-2", 1);
    let mut frozen = first.clone();
    frozen.revision = Some(27);
    frozen.frozen_text = Some("未保存的正文\nexact bytes".to_string());

    let merged = merge_editor_reference(vec![first, second.clone()], Some(frozen.clone()));

    assert_eq!(merged, vec![frozen.clone(), second]);
    let snapshot = capture_frozen_reference(&merged[0]).unwrap();
    assert_eq!(snapshot.text, "未保存的正文\nexact bytes");
    assert_eq!(snapshot.revision, 27);

    let outside = reference("book-secret", "unit-x", 0);
    let copy = merged.clone();
    assert_eq!(merge_editor_reference(merged, Some(outside)), copy);
}

#[test]
fn controller_rejects_out_of_scope_duplicate_and_too_many_references() {
    let allowed = vec!["book-a".to_string()];
    assert!(validate_reference_request(&vec![reference("book-a", "unit-1", 0)], &allowed).is_ok());
    assert!(validate_reference_request(&vec![reference("book-secret", "unit-1", 0)], &allowed)
        .unwrap_err()
        .contains("授权范围"));
    let duplicate = reference("book-a", "unit-1", 0);
    assert!(validate_reference_request(&vec![duplicate.clone(), duplicate], &allowed)
        .unwrap_err()
        .contains("重复"));

    let too_many = (0..=MAX_SELECTED_REFERENCES)
        .map(|index| reference("book-a", &format!("unit-{index}"), index))
        .collect::<Vec<_>>();
    assert!(validate_reference_request(&too_many, &allowed).unwrap_err().contains("最多引用"));
}

#[test]
fn controller_rejects_preview_only_and_mismatched_locators() {
    let allowed = vec!["book-a".to_string()];
    let mut preview_only = reference("book-a", "unit-1", 0);
    preview_only.locator = Some(with_source(
        DocumentLocator::unit("book-a", "unit-1"),
        SourceLocator::OfficeRenderedPage { page: 1 },
    ));
    assert!(validate_reference_request(&vec![preview_only], &allowed)
        .unwrap_err()
        .contains("派生数据"));

    let mut source_locator = reference("book-a", "unit-1", 0);
    source_locator.locator =
        Some(with_source(DocumentLocator::unit("book-a", "unit-1"), pdf_page(1)));
    assert!(validate_reference_request(&vec![source_locator], &allowed).is_ok());

    let mut mismatched = reference("book-a", "unit-1", 0);
    mismatched.locator = Some(DocumentLocator::unit("book-a", "unit-2"));
    assert!(validate_reference_request(&vec![mismatched], &allowed)
        .unwrap_err()
        .contains("不一致"));
}

fn agent_citation(
    citation_id: &str,
    unit_id: &str,
    unit_title: &str,
    quote: &str,
    locator: DocumentLocator,
) -> AgentCitation {
    AgentCitation {
        citation_id: citation_id.to_string(),
        book_id: "book-a".to_string(),
        book_title: "Book".to_string(),
        unit_id: unit_id.to_string(),
        unit_title: unit_title.to_string(),
        document_revision: Revision::new(1),
        unit_revision: Revision::new(1),
        quote: quote.to_string(),
        locator,
        source_kind: AgentCitationSourceKind::Book,
        url: None,
        source_title: None,
    }
}

#[test]
fn live_and_persisted_citations_keep_only_valid_exact_locators() {
    let locator = with_source(DocumentLocator::unit("book-a", "unit-1"), pdf_page(2));
    let live = source_link_from_agent_citation(&agent_citation(
        "passage:p-1",
        "unit-1",
        "Unit",
        "evidence",
        locator.clone(),
    ))
    .expect("valid live citation");
    assert_eq!(live.locator.as_ref(), Some(&locator));
    assert!(!live.selection_snapshot);

    let live_selection = source_link_from_agent_citation(&agent_citation(
        "selection:host-issued",
        "unit-1",
        "Unit",
        "unsaved selection",
        locator.clone(),
    ))
    .expect("valid live selection citation");
    assert!(live_selection.selection_snapshot);

    let restored = source_link_from_chat_citation(&ChatCitation {
        id: "citation-1".to_string(),
        content_unit_id: Some("unit-1".to_string()),
        search_chunk_id: Some("p-1".to_string()),
        document_revision: Revision::new(1),
        unit_revision: Revision::new(1),
        quote: "evidence".to_string(),
        locator: locator.clone(),
        source_kind: AgentCitationSourceKind::Book,
        url: None,
        source_title: None,
    })
    .expect("valid persisted citation");
    assert_eq!(restored.locator.as_ref(), Some(&locator));
    assert!(!restored.selection_snapshot);

    assert!(source_link_from_agent_citation(&agent_citation(
        "passage:forged",
        "unit-2",
        "Other",
        "forged",
        locator,
    ))
    .is_none());
}

fn web_citation() -> ChatCitation {
    ChatCitation {
        id: "web-citation".to_string(),
        content_unit_id: None,
        search_chunk_id: None,
        document_revision: Revision::new(0),
        unit_revision: Revision::new(0),
        quote: "verified snippet".to_string(),
        locator: DocumentLocator::unit("", ""),
        source_kind: AgentCitationSourceKind::Web,
        url: Some("https://example.test/docs".to_string()),
        source_title: Some("Docs".to_string()),
    }
}

#[test]
fn web_citations_keep_a_url_instead_of_a_book_locator() {
    let link = source_link_from_chat_citation(&web_citation())
        .expect("web citation must survive restoration");
    assert_eq!(link.url.as_deref(), Some("https://example.test/docs"));
    assert_eq!(link.label, "Docs");
    assert!(link.locator.is_none());
    assert!(link.book_id.is_empty());
}

fn thread(id: &str, title: &str, book_ids: Vec<String>) -> ChatThread {
    ChatThread { id: id.to_string(), title: title.to_string(), book_ids }
}

#[test]
fn a_web_citation_survives_restoration_and_is_not_stale() {
    let session = ChatSession {
        thread: thread("t", "Question", vec!["book-a".to_string()]),
        messages: vec![StoredChatMessage {
            role: ChatRole::Assistant,
            content: "answer".to_string(),
            citations: vec![web_citation()],
        }],
    };
    let restored = validated_restored_messages(&session, &Some(Vec::new()));
    assert_eq!(restored[0].sources.len(), 1);
    assert!(!restored[0].sources[0].stale);
    assert_eq!(
        restored[0].source_status,
        Some(AgentAnswerSourceStatus::VerifiedKnowledgeBaseSources)
    );
}

#[test]
fn restored_source_status_uses_rows_before_ui_source_filtering() {
    let cited = StoredChatMessage {
        role: ChatRole::Assistant,
        content: "grounded answer".to_string(),
        citations: vec![ChatCitation {
            id: "citation-invalid-for-ui".to_string(),
            content_unit_id: Some("unit-a".to_string()),
            search_chunk_id: Some("chunk-a".to_string()),
            document_revision: Revision::new(1),
            unit_revision: Revision::new(1),
            quote: "evidence".to_string(),
            locator: DocumentLocator::unit("book-a", "different-unit"),
            source_kind: AgentCitationSourceKind::Book,
            url: None,
            source_title: None,
        }],
    };
    let uncited = StoredChatMessage {
        role: ChatRole::Assistant,
        content: "general answer".to_string(),
        citations: Vec::new(),
    };
    let restored = restored_messages(&ChatSession {
        thread: thread("thread-source-status", "Question", Vec::new()),
        messages: vec![cited, uncited],
    });

    assert!(restored[0].sources.is_empty());
    assert_eq!(
        restored[0].source_status,
        Some(AgentAnswerSourceStatus::VerifiedKnowledgeBaseSources),
        "a persisted citation row must keep the answer grounded even when its UI link is rejected"
    );
    assert_eq!(restored[1].source_status, Some(AgentAnswerSourceStatus::NoVerifiedSources));
}

#[test]
fn persisted_reference_checks_current_revision_and_text_bounds() {
    let mut document = document("book-a", "unit-1", "body");
    // The library finds that the range does not fit the block.
    document.refused.push(RefusedLocator {
        locator: text_locator(0, 99),
        reason: "text range is out of bounds".to_string(),
    });
    let unit = &document.units[0];

    let mut reference = reference("book-a", "unit-1", 0);
    reference.revision = Some(unit.revision.value);
    reference.locator = Some(text_locator(0, 4));
    assert!(validate_persisted_reference(&document, unit, &reference).is_ok());

    reference.revision = Some(unit.revision.value + 1);
    assert!(validate_persisted_reference(&document, unit, &reference).is_err());
    reference.revision = Some(unit.revision.value);
    reference.locator = Some(text_locator(0, 99));
    assert!(validate_persisted_reference(&document, unit, &reference).is_err());

    reference.locator = Some(with_source(DocumentLocator::unit("book-a", "unit-1"), pdf_page(1)));
    assert!(validate_persisted_reference(&document, unit, &reference)
        .unwrap_err()
        .contains("原始来源位置"));
}

fn snapshot(unit: &str, revision: u64, text: String) -> SelectionSnapshot {
    SelectionSnapshot {
        book_id: "book-a".to_string(),
        unit_id: unit.to_string(),
        revision,
        text,
        locator: None,
    }
}

fn stored_size(snapshots: &[SelectionSnapshot]) -> Option<usize> {
    Some(snapshots.iter().map(|snapshot| snapshot.text.len() + 128).sum::<usize>() + 2)
}

#[test]
fn combined_snapshot_payload_has_a_hard_total_byte_limit() {
    let within = vec![
        snapshot("unit-1", 1, "a".repeat(1024)),
        snapshot("unit-2", 2, "b".repeat(1024)),
    ];
    assert!(validate_snapshot_payload(&within, stored_size(&within)).is_ok());

    let oversized = vec![snapshot("unit-large", 3, "x".repeat(MAX_REFERENCE_TOTAL_BYTES + 1))];
    assert!(validate_snapshot_payload(&oversized, stored_size(&oversized))
        .unwrap_err()
        .contains("总大小"));
}

#[test]
fn the_sizes_of_references_add_up_to_the_limit() {
    assert_eq!(checked_reference_bytes(MAX_REFERENCE_TOTAL_BYTES - 1, 1), Ok(MAX_REFERENCE_TOTAL_BYTES));
    assert!(checked_reference_bytes(MAX_REFERENCE_TOTAL_BYTES, 1).unwrap_err().contains("96 KiB"));
    assert!(checked_reference_bytes(usize::MAX, 1).is_err());
}

#[test]
fn references_are_frozen_in_order_and_kept_apart() {
    let mut frozen = reference("book-a", "unit-2", 1);
    frozen.frozen_text = Some("selected".to_string());
    frozen.revision = Some(4);
    let stored = reference("book-a", "unit-1", 0);
    let allowed = vec!["book-a".to_string()];
    let mut freeze = ReferenceFreeze::begin(vec![stored, frozen], &allowed, false).unwrap();
    assert_eq!(freeze.next_book(), Some("book-a"));
    assert_eq!(
        freeze.supply(&Err("读取失败".to_string()), false),
        Err(FreezeError::Refused("读取失败".to_string()))
    );
    freeze.supply(&Ok(document("book-a", "unit-1", "whole chapter")), false).unwrap();
    assert_eq!(freeze.next_book(), None);
    let snapshots = freeze.finish();
    assert_eq!(snapshots.len(), 2);
    assert_eq!(snapshots[0].text, "whole chapter");
    assert_eq!(snapshots[1].text, "selected");
    assert_eq!(snapshots[1].revision, 4);
    assert_eq!(accept_snapshots(snapshots, Some(1024), false).unwrap().len(), 2);
}

#[test]
fn reference_freeze_stops_when_the_prepared_request_is_cancelled() {
    assert_eq!(
        ReferenceFreeze::begin(Vec::new(), &Vec::new(), true),
        Err(FreezeError::Cancelled),
        "cancelled freeze must stop before reading the library"
    );
    let allowed = vec!["book-a".to_string()];
    let mut freeze =
        ReferenceFreeze::begin(vec![reference("book-a", "unit-1", 0)], &allowed, false).unwrap();
    assert_eq!(
        freeze.supply(&Ok(document("book-a", "unit-1", "text")), true),
        Err(FreezeError::Cancelled)
    );
    assert_eq!(accept_snapshots(Vec::new(), None, true), Err(FreezeError::Cancelled));
}

#[test]
fn restored_unsaved_selection_is_stale_when_current_ast_cannot_prove_it() {
    let document = document("book-a", "unit-1", "the current chapter");
    let session = ChatSession {
        thread: thread("thread-selection", "Question", vec!["book-a".to_string()]),
        messages: vec![StoredChatMessage {
            role: ChatRole::Assistant,
            content: "Answer".to_string(),
            citations: vec![ChatCitation {
                id: "stored-selection".to_string(),
                content_unit_id: Some("unit-1".to_string()),
                search_chunk_id: None,
                document_revision: document.revision,
                unit_revision: document.units[0].revision,
                quote: "unsaved text absent from the current AST".to_string(),
                locator: DocumentLocator::unit("book-a", "unit-1"),
                source_kind: AgentCitationSourceKind::Book,
                url: None,
                source_title: None,
            }],
        }],
    };
    let restored = validated_restored_messages(&session, &Some(vec![document]));
    let source = &restored[0].sources[0];
    assert!(source.selection_snapshot);
    assert!(source.stale);
}

#[test]
fn reader_selection_explanation_emits_once_after_fresh_session_callback() {
    let mut sidebar = sidebar();
    let mut controller = AiSidebarController::new();
    let mut selected = reference("book-a", "unit-1", 0);
    selected.locator = Some(DocumentLocator::unit("book-a", "unit-1"));
    selected.frozen_text = Some("original menu selection".to_string());
    assert_eq!(selected.revision, None);
    sidebar.apply_session(
        Some("old".to_string()),
        vec![AiThreadOption::new("old", "Previous question", vec!["book-a".to_string()])],
        vec![AiRestoredMessage {
            role: AiRestoredRole::User,
            content: "Previous question".to_string(),
            sources: Vec::new(),
            source_status: None,
        }],
    );
    let task = controller
        .explain_selection(selected.clone(), encoded(&selected), &mut sidebar)
        .expect("the fresh session is asked for");
    assert!(controller
        .explain_selection(selected.clone(), encoded(&selected), &mut sidebar)
        .is_none());
    let submits = |signals: Vec<SidebarSignal>| {
        signals
            .into_iter()
            .filter_map(|signal| match signal {
                SidebarSignal::Event(AiSidebarEvent::Submit(request)) => Some(request),
                _ => None,
            })
            .collect::<Vec<_>>()
    };
    assert!(submits(sidebar.take_signals()).is_empty(), "submission waits for backend reset");
    let mut changed = selected.clone();
    changed.frozen_text = Some("later live selection".to_string());
    sidebar.set_reference_hints(vec![changed]);

    assert!(matches!(task.kind, SessionTaskKind::Create { explanation: Some(_) }));
    controller.finish_session_task(
        task,
        TaskOutcome::Finished(UiSessionState {
            active_thread_id: None,
            threads: vec![AiThreadOption::new(
                "old",
                "Previous question",
                vec!["book-a".to_string()],
            )],
            messages: Vec::new(),
        }),
        &mut sidebar,
    );
    let emitted = submits(sidebar.take_signals());
    assert_eq!(emitted.len(), 1);
    assert_eq!(emitted[0].question, "用汉语详细解释一下");
    assert_eq!(emitted[0].reference_hints, vec![selected]);
    assert_eq!(sidebar.sessions.active_thread_id, None);
    assert!(!sidebar.is_collapsed());
    controller.close();
}

#[test]
fn a_task_that_was_overtaken_changes_nothing() {
    let mut sidebar = sidebar();
    let mut controller = AiSidebarController::new();
    let first = controller.switch_session("a".to_string(), &sidebar);
    let second = controller.switch_session("b".to_string(), &sidebar);
    let state = |id: &str| {
        TaskOutcome::Finished(UiSessionState {
            active_thread_id: Some(id.to_string()),
            threads: vec![AiThreadOption::new(id, id, vec!["book-a".to_string()])],
            messages: Vec::new(),
        })
    };
    controller.finish_session_task(first, state("a"), &mut sidebar);
    assert_eq!(sidebar.sessions.active_thread_id, None);
    controller.finish_session_task(second, state("b"), &mut sidebar);
    assert_eq!(sidebar.sessions.active_thread_id.as_deref(), Some("b"));
}

#[test]
fn a_failed_fresh_session_reports_the_explanation_that_did_not_start() {
    let mut sidebar = sidebar();
    let mut controller = AiSidebarController::new();
    let mut selected = reference("book-a", "unit-1", 0);
    selected.frozen_text = Some("words".to_string());
    let task = controller
        .explain_selection(selected.clone(), encoded(&selected), &mut sidebar)
        .unwrap();
    sidebar.take_signals();
    controller.finish_session_task(task, TaskOutcome::Failed("busy".to_string()), &mut sidebar);
    let failures = sidebar
        .take_signals()
        .into_iter()
        .filter_map(|signal| match signal {
            SidebarSignal::ExplanationFailed(event) => Some(event.request_id),
            _ => None,
        })
        .collect::<Vec<_>>();
    assert_eq!(failures, vec![None]);
    assert!(!sidebar.sessions.busy);
}

#[test]
fn an_answer_that_was_not_confirmed_is_replaced_by_the_final_one() {
    let mut sidebar = sidebar();
    sidebar.submit("question");
    let id = sidebar
        .take_signals()
        .into_iter()
        .find_map(|signal| match signal {
            SidebarSignal::Event(AiSidebarEvent::Submit(request)) => Some(request.request_id),
            _ => None,
        })
        .unwrap();
    let mut progress = AnswerProgress::new(id);
    progress.apply(UiAgentMessage::Delta("planning".to_string()), &mut sidebar);
    assert!(progress.received_delta && !progress.answer_committed && !progress.done);
    let answer = completed_answer(
        "final".to_string(),
        &Vec::new(),
        AgentAnswerSourceStatus::NoVerifiedSources,
        &vec!["book-a".to_string()],
        &Some(Vec::new()),
    );
    progress.apply(UiAgentMessage::Completed(Ok(answer)), &mut sidebar);
    assert!(progress.done);
    let last = sidebar.conversation.messages.last().unwrap();
    assert_eq!(last.role, AiMessageRole::Assistant);
    assert_eq!(last.content, "final");
}

fn asked() -> (AiSidebar, u64) {
    let mut sidebar = sidebar();
    sidebar.submit("question");
    let id = sidebar
        .take_signals()
        .into_iter()
        .find_map(|signal| match signal {
            SidebarSignal::Event(AiSidebarEvent::Submit(request)) => Some(request.request_id),
            _ => None,
        })
        .unwrap();
    (sidebar, id)
}

fn stored_answer(markdown: &str) -> UiAgentMessage {
    UiAgentMessage::Completed(Ok(completed_answer(
        markdown.to_string(),
        &Vec::new(),
        AgentAnswerSourceStatus::NoVerifiedSources,
        &vec!["book-a".to_string()],
        &Some(Vec::new()),
    )))
}

#[test]
fn confirmed_pieces_are_kept_and_missing_ones_made_up_for() {
    let (mut sidebar, id) = asked();
    let mut progress = AnswerProgress::new(id);
    progress.apply(UiAgentMessage::Delta("as it ".to_string()), &mut sidebar);
    progress.apply(UiAgentMessage::Delta("came".to_string()), &mut sidebar);
    progress.apply(UiAgentMessage::Committed, &mut sidebar);
    progress.apply(stored_answer("stored"), &mut sidebar);
    assert_eq!(sidebar.conversation.messages.last().unwrap().content, "as it came");

    let (mut sidebar, id) = asked();
    let mut progress = AnswerProgress::new(id);
    progress.apply(UiAgentMessage::Committed, &mut sidebar);
    progress.apply(stored_answer("stored"), &mut sidebar);
    assert_eq!(sidebar.conversation.messages.last().unwrap().content, "stored");

    let (mut sidebar, id) = asked();
    let mut progress = AnswerProgress::new(id);
    progress.apply(stored_answer(""), &mut sidebar);
    assert_eq!(sidebar.conversation.messages.last().unwrap().content, "模型没有返回文本。");
}

#[test]
fn what_was_selected_blank_has_no_snapshot() {
    let mut blank = reference("book-a", "unit-1", 0);
    blank.frozen_text = Some("  ".to_string());
    let mut frozen = reference("book-a", "unit-2", 1);
    frozen.frozen_text = Some("text".to_string());
    let freeze =
        ReferenceFreeze::begin(vec![blank, frozen], &vec!["book-a".to_string()], false).unwrap();
    assert_eq!(freeze.next_book(), None);
    let snapshots = freeze.finish();
    assert_eq!(snapshots.len(), 1);
    assert_eq!(snapshots[0].unit_id, "unit-2");
}

#[test]
fn events_of_a_run_become_messages() {
    assert!(matches!(
        ui_message(AgentRunEvent::AnswerDelta("x".to_string())),
        Some(UiAgentMessage::Delta(text)) if text == "x"
    ));
    assert!(matches!(ui_message(AgentRunEvent::AnswerReset), Some(UiAgentMessage::Reset)));
    assert!(ui_message(AgentRunEvent::ToolStarted).is_none());
}

#[test]
fn only_links_into_the_scope_survive_the_last_check() {
    let inside = source_link_from_agent_citation(&agent_citation(
        "passage:p-1",
        "unit-1",
        "Unit",
        "body",
        DocumentLocator::unit("book-a", "unit-1"),
    ))
    .unwrap();
    let outside = AiSourceLink { book_id: "secret".to_string(), ..inside.clone() };
    let checked = validate_live_sources(
        &vec!["book-a".to_string()],
        &vec![document("book-a", "unit-1", "body")],
        &vec![inside, outside],
    );
    assert_eq!(checked.len(), 1);
    assert!(!checked[0].stale);
    assert_eq!(checked[0].book_id, "book-a");
}

#[test]
fn a_session_that_was_not_read_leaves_the_selection() {
    let threads = vec![thread("t", "Title", vec!["book-a".to_string()])];
    let state = load_ui_session_state(&None, Some("t".to_string()), &None, &Some(threads));
    assert_eq!(state.threads.len(), 1);
    assert!(state.messages.is_empty());
    assert_eq!(thread_options(&vec![thread("u", "U", Vec::new())])[0].id, "u");
}
