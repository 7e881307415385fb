use book_studio_ui::citation_script::citation_dom_navigation_script;
use book_studio_ui::conversation::{
    AiMessage, AiMessageRole, ConversationState, RequestState, MAX_SELECTED_REFERENCES,
};
use book_studio_ui::document::{
    BookDocument, ContentUnit, DocumentLocator, NormalizedRect, Revision, SourceLocator,
    TextBlock, TextRange,
};
use book_studio_ui::endpoint::{AiEndpointStatus, RoleEndpoints};
use book_studio_ui::message_html::selectable_message_html;
use book_studio_ui::references::{reference_key, AiReferenceHint};
use book_studio_ui::scope::{AiBookOption, AiSidebarScope};
use book_studio_ui::sessions::{
    authorized_thread_options, AiThreadOption, PendingSessionDeletion, SessionPickerState,
};
use book_studio_ui::sidebar::{
    AiAnswerCompleted, AiSidebar, AiSidebarEvent, ResponsiveSidebar, SidebarSignal,
};
use book_studio_ui::sidebar_display::{
    reference_list_max_height, should_show_no_knowledge_base_source_warning, source_basis_badge,
    NO_KNOWLEDGE_BASE_SOURCE_WARNING_TITLE,
};
use book_studio_ui::sources::{
    allowed_source_link, AgentAnswerSourceStatus, AiCitationTextFocus, AiSourceLink,
};

fn book(id: &str) -> AiBookOption {
    AiBookOption::new(id, &format!("Book {id}"))
}

fn epub(href: &str) -> SourceLocator {
    SourceLocator::Address { address: href.to_string() }
}

fn with_source(mut locator: DocumentLocator, source: SourceLocator) -> DocumentLocator {
    locator.source = Some(source);
    locator
}

fn text_locator(book: &str, unit: &str, block: &str, start: u64, end: u64) -> DocumentLocator {
    let mut locator = DocumentLocator::unit(book, unit);
    locator.block_id = Some(block.to_string());
    locator.text_range = Some(TextRange { start_byte: start, end_byte: end });
    locator
}

fn block_locator(book: &str, unit: &str, block: &str) -> DocumentLocator {
    let mut locator = DocumentLocator::unit(book, unit);
    locator.block_id = Some(block.to_string());
    locator
}

fn set_paragraph(unit: &mut ContentUnit, id: &str, text: &str) {
    unit.blocks = vec![TextBlock { id: id.to_string(), text: text.to_string() }];
    unit.text = text.to_string();
}

fn cited_document() -> (BookDocument, AiSourceLink) {
    let text = "前文 引用目标 后文";
    let start = text.find("引用目标").unwrap();
    let mut unit = ContentUnit {
        id: "unit-1".to_string(),
        revision: Revision::new(7),
        source_locator: Some(epub("Text/chapter.xhtml#source-anchor")),
        blocks: Vec::new(),
        text: String::new(),
    };
    set_paragraph(&mut unit, "block-1", text);
    let document = BookDocument {
        id: "book".to_string(),
        revision: Revision::new(3),
        units: vec![unit],
        refused: Vec::new(),
    };
    let locator = with_source(
        text_locator(
            "book",
            "unit-1",
            "block-1",
            start as u64,
            (start + "引用目标".len()) as u64,
        ),
        epub("Text/chapter.xhtml#source-anchor"),
    );
    let source = AiSourceLink {
        citation_id: "passage:one".to_string(),
        book_id: "book".to_string(),
        unit_id: "unit-1".to_string(),
        unit_index: None,
        document_revision: Revision::new(3),
        unit_revision: Revision::new(7),
        locator: Some(locator),
        label: "Book · Chapter".to_string(),
        quote: Some("引用目标".to_string()),
        selection_snapshot: false,
        stale: false,
        url: None,
    };
    (document, source)
}

#[test]
fn citation_navigation_rederives_the_exact_text_from_the_current_ast() {
    let (document, source) = cited_document();
    let target = source.current_navigation_target(&document).unwrap();
    assert_eq!(target.unit_index, 0);
    assert_eq!(target.source, Some(epub("Text/chapter.xhtml#source-anchor")));
    assert_eq!(target.focus.as_ref().unwrap().text, "引用目标");
    assert_eq!(target.focus.as_ref().unwrap().before, "前文 ");
    assert_eq!(target.focus.as_ref().unwrap().after, " 后文");
}

#[test]
fn citation_navigation_rejects_stale_versions_and_mismatched_sources() {
    let (document, mut source) = cited_document();
    source.document_revision = Revision::new(2);
    assert!(source.current_navigation_target(&document).unwrap_err().contains("版本已失效"));

    let (_, mut source) = cited_document();
    source.locator.as_mut().unwrap().source = Some(epub("Text/other.xhtml"));
    assert!(source.current_navigation_target(&document).unwrap_err().contains("原始来源位置"));
}

#[test]
fn citation_navigation_rejects_a_repeated_quote_without_a_text_range() {
    let (mut document, mut source) = cited_document();
    set_paragraph(&mut document.units[0], "block-1", "重复文字，中间内容，重复文字");
    source.locator = Some(with_source(
        block_locator("book", "unit-1", "block-1"),
        epub("Text/chapter.xhtml#source-anchor"),
    ));
    source.quote = Some("重复文字".to_string());

    assert!(source.current_navigation_target(&document).unwrap_err().contains("不唯一"));
}

#[test]
fn unit_quote_keeps_no_invented_context_so_dom_duplicates_are_ambiguous() {
    let (document, mut source) = cited_document();
    source.locator = Some(with_source(
        DocumentLocator::unit("book", "unit-1"),
        epub("Text/chapter.xhtml#source-anchor"),
    ));
    source.quote = Some("引用目标".to_string());

    let target = source.current_navigation_target(&document).unwrap();
    let focus = target.focus.unwrap();
    assert_eq!(focus.text, "引用目标");
    assert!(focus.before.is_empty());
    assert!(focus.after.is_empty());
    let script = citation_dom_navigation_script(
        &focus,
        "{\"request_id\":2,\"type\":\"citation_navigation_result\"}",
    );
    assert!(script.contains("haystack.indexOf(context, matchStart + 1) >= 0"));
    assert!(script.contains("finish(false, matchStart < 0 ? 'not_found' : 'ambiguous')"));
}

#[test]
fn restored_selection_snapshot_requires_a_unique_current_ast_quote() {
    let (mut document, mut source) = cited_document();
    source.selection_snapshot = true;
    source.locator = Some(with_source(
        DocumentLocator::unit("book", "unit-1"),
        epub("Text/chapter.xhtml#source-anchor"),
    ));

    source.quote = Some("仅存在于未保存编辑器中的正文".to_string());
    source.mark_restored_status(Some(&document));
    assert!(source.stale, "missing unsaved text cannot be restored as current");

    source.quote = Some("引用目标".to_string());
    source.mark_restored_status(Some(&document));
    assert!(!source.stale, "a unique current AST match is provable");

    set_paragraph(&mut document.units[0], "block-1", "重复文字，中间内容，重复文字");
    source.quote = Some("重复文字".to_string());
    source.mark_restored_status(Some(&document));
    assert!(source.stale, "a unit-only repeated quote is ambiguous");

    let (document, mut visual_passage) = cited_document();
    let mut locator = with_source(
        DocumentLocator::unit("book", "unit-1"),
        epub("Text/chapter.xhtml#source-anchor"),
    );
    locator.region = Some(NormalizedRect { x: 10, y: 10, width: 200, height: 200 });
    visual_passage.locator = Some(locator);
    visual_passage.quote = Some("OCR text is not required in the reflowed AST".to_string());
    visual_passage.selection_snapshot = false;
    visual_passage.mark_restored_status(Some(&document));
    assert!(
        !visual_passage.stale,
        "visual passage provenance must bypass selection AST verification"
    );
}

#[test]
fn dom_navigation_preserves_virtual_block_spaces_and_rejects_duplicate_quotes() {
    let focus = AiCitationTextFocus {
        text: "重复文字".to_string(),
        before: String::new(),
        after: String::new(),
    };
    let script = citation_dom_navigation_script(
        &focus,
        "{\"request_id\":1,\"type\":\"citation_navigation_result\"}",
    );
    assert!(script.contains("let hasPendingSpace = false"));
    assert!(script.contains("emitSpace(null)"));
    assert!(script.contains("positions.push(pendingSpace)"));
    assert!(script.contains("haystack.indexOf(context, matchStart + 1) >= 0"));
    assert!(script.contains("'ambiguous'"));
}

#[test]
fn a_quote_stands_in_the_script_as_a_string() {
    let focus = AiCitationTextFocus {
        text: "say \"hi\"\n".to_string(),
        before: "a\\".to_string(),
        after: String::new(),
    };
    let script = citation_dom_navigation_script(&focus, "{}");
    assert!(script.contains("\"say \\\"hi\\\"\\n\""), "{script}");
    assert!(script.contains("\"a\\\\\""), "{script}");
    assert!(!script.contains("say \"hi\""));
}

#[test]
fn endpoint_status_distinguishes_loopback_and_remote_hosts() {
    for local in [
        "http://127.0.0.1:11434/v1",
        "http://localhost:11434/v1",
        "http://[::1]:11434/v1",
    ] {
        let status = AiEndpointStatus::from_base_url(local);
        assert_eq!(status, AiEndpointStatus::Local);
        assert_eq!(status.label(), "本地");
        assert!(!status.is_warning());
    }

    let remote = AiEndpointStatus::from_base_url("https://models.example.test/v1");
    assert_eq!(
        remote,
        AiEndpointStatus::Remote { hostname: "models.example.test".to_string() }
    );
    assert_eq!(remote.label(), "远程 · models.example.test");
    assert!(remote.is_warning());

    let private_network = AiEndpointStatus::from_base_url("http://192.168.1.10:11434/v1");
    assert_eq!(
        private_network,
        AiEndpointStatus::Remote { hostname: "192.168.1.10".to_string() }
    );
    assert!(private_network.is_warning());
}

#[test]
fn endpoint_status_reports_remote_embedding_with_local_chat() {
    let local = Some("http://127.0.0.1:11434/v1/".to_string());
    let mut settings = RoleEndpoints {
        chat: local.clone(),
        embedding: Some("https://vectors.example.test/v1".to_string()),
        vision: local,
    };
    let status = AiEndpointStatus::from_settings(&settings);
    assert!(status.is_warning());
    assert!(status.label().contains("Embedding：vectors.example.test"));
    assert!(!status.label().contains("对话："));
    settings.vision = None;
    assert_eq!(AiEndpointStatus::from_settings(&settings), AiEndpointStatus::Unavailable);
}

#[test]
fn invalid_endpoint_status_is_explicitly_unavailable() {
    let status = AiEndpointStatus::from_base_url("not a URL");
    assert_eq!(status, AiEndpointStatus::Unavailable);
    assert_eq!(status.label(), "端点不可用");
    assert!(status.is_warning());
}

#[test]
fn every_role_is_local_only_together() {
    let local = Some("http://localhost:11434/v1".to_string());
    let all = RoleEndpoints { chat: local.clone(), embedding: local.clone(), vision: local };
    assert_eq!(AiEndpointStatus::from_settings(&all), AiEndpointStatus::Local);
    assert_eq!(AiEndpointStatus::current(Some(&all)), AiEndpointStatus::Local);
    assert_eq!(AiEndpointStatus::current(None), AiEndpointStatus::Unavailable);
    assert_eq!(AiEndpointStatus::from_base_url("http://127.8.9.10/v1"), AiEndpointStatus::Local);
    assert_eq!(AiEndpointStatus::from_base_url("http://LOCALHOST/v1"), AiEndpointStatus::Local);
    assert_ne!(
        AiEndpointStatus::from_base_url("http://localhost.example.test/v1"),
        AiEndpointStatus::Local
    );
}

#[test]
fn library_scope_deduplicates_books_and_preserves_host_order() {
    let scope = AiSidebarScope::library(
        "Group",
        vec![book("a"), book("b"), book("a"), AiBookOption::new("", "bad")],
    );
    assert_eq!(scope.book_ids(), vec!["a", "b"]);
    assert_eq!(scope.label(), "Group");
}

#[test]
fn book_scope_keeps_current_book_and_only_adds_host_options() {
    let mut scope = AiSidebarScope::book(book("current"), vec![book("other")]);
    assert_eq!(scope.book_ids(), vec!["current"]);
    assert!(!scope.remove_book("current"));
    assert!(!scope.add_book("not-offered"));
    assert!(scope.add_book("other"));
    assert!(!scope.add_book("other"));
    assert_eq!(scope.book_ids(), vec!["current", "other"]);
    assert!(scope.remove_book("other"));
    assert_eq!(scope.book_ids(), vec!["current"]);
}

#[test]
fn narrow_windows_start_collapsed_until_user_overrides() {
    let is_narrow = |width: f32| width < 1080.;
    let narrow = ResponsiveSidebar::new(is_narrow(900.));
    assert!(narrow.collapsed);

    let mut wide = ResponsiveSidebar::new(is_narrow(1400.));
    assert!(!wide.collapsed);
    assert!(wide.resize(is_narrow(900.)));
    assert!(wide.collapsed);
    wide.toggle();
    assert!(!wide.collapsed);
    assert!(!wide.resize(is_narrow(1400.)));
    assert!(!wide.resize(is_narrow(900.)));
    assert!(!wide.collapsed);
}

#[test]
fn reference_list_shows_at_most_three_rows_without_dropping_candidates() {
    assert_eq!(reference_list_max_height(1), 28);
    assert_eq!(reference_list_max_height(2), 56);
    assert_eq!(reference_list_max_height(3), 84);
    assert_eq!(reference_list_max_height(6), 84);
}

#[test]
fn selectable_message_html_keeps_untrusted_chat_content_inert() {
    let message =
        "<img src=\"https://example.test/tracker\"> & [link](https://example.test)\r\n'quoted'";
    let html = selectable_message_html(message);

    assert_eq!(
        html,
        "<p>&lt;img src=&quot;https://example.test/tracker&quot;&gt; &amp; [link](https://example.test)</p><p>&#39;quoted&#39;</p>"
    );
    assert!(!html.contains("<br>"));
    assert!(!html.contains("<img"));
    assert!(!html.contains("<a"));
}

#[test]
fn no_source_warning_appears_only_after_an_explicit_final_status() {
    let mut state = ConversationState::new(AiSidebarScope::library("All", vec![book("a")]));
    let request = state.begin("question").unwrap();
    assert!(state.append_delta(request.request_id, "model answer"));

    let provisional = state
        .messages
        .iter()
        .find(|message| message.role == AiMessageRole::Assistant)
        .unwrap();
    assert_eq!(provisional.source_status, None);
    assert!(!should_show_no_knowledge_base_source_warning(provisional));

    assert!(state.finish(
        request.request_id,
        Vec::new(),
        AgentAnswerSourceStatus::NoVerifiedSources,
    ));
    let finished = state
        .messages
        .iter()
        .find(|message| message.role == AiMessageRole::Assistant)
        .unwrap();
    assert!(should_show_no_knowledge_base_source_warning(finished));
    assert_eq!(finished.content, "model answer");
    assert!(!finished.content.contains(NO_KNOWLEDGE_BASE_SOURCE_WARNING_TITLE));
    assert!(!selectable_message_html(&finished.content)
        .contains(NO_KNOWLEDGE_BASE_SOURCE_WARNING_TITLE));

    let mut grounded_without_displayable_links = finished.clone();
    grounded_without_displayable_links.source_status =
        Some(AgentAnswerSourceStatus::VerifiedKnowledgeBaseSources);
    grounded_without_displayable_links.sources.clear();
    assert!(!should_show_no_knowledge_base_source_warning(
        &grounded_without_displayable_links
    ));
}

#[test]
fn source_basis_badge_names_the_knowledge_the_answer_used() {
    fn assistant(status: AgentAnswerSourceStatus) -> AiMessage {
        AiMessage {
            id: 1,
            role: AiMessageRole::Assistant,
            content: "answer".to_string(),
            sources: Vec::new(),
            source_status: Some(status),
            request_id: None,
        }
    }
    assert_eq!(
        source_basis_badge(&assistant(AgentAnswerSourceStatus::VerifiedKnowledgeBaseSources))
            .unwrap()
            .0,
        "已基于当前图书内容回答"
    );
    assert_eq!(
        source_basis_badge(&assistant(AgentAnswerSourceStatus::VerifiedWebSources)).unwrap().0,
        "已基于联网搜索结果回答"
    );
    assert_eq!(
        source_basis_badge(&assistant(AgentAnswerSourceStatus::VerifiedMixedSources)).unwrap().0,
        "已结合图书与联网搜索回答"
    );
    // Ungrounded answers keep the existing warning instead of a badge.
    assert!(source_basis_badge(&assistant(AgentAnswerSourceStatus::NoVerifiedSources)).is_none());
}

#[test]
fn web_source_links_survive_the_book_scope_filter() {
    let allowed = vec!["book-a".to_string()];
    let web = AiSourceLink {
        citation_id: "web:0".to_string(),
        book_id: String::new(),
        unit_id: String::new(),
        unit_index: None,
        document_revision: Revision::new(0),
        unit_revision: Revision::new(0),
        locator: None,
        label: "Docs".to_string(),
        quote: Some("snippet".to_string()),
        selection_snapshot: false,
        stale: false,
        url: Some("https://example.test/docs".to_string()),
    };
    assert!(allowed_source_link(&allowed, &web));

    // A book citation outside the current scope is still rejected.
    let mut foreign_book = web.clone();
    foreign_book.url = None;
    foreign_book.book_id = "secret".to_string();
    assert!(!allowed_source_link(&allowed, &foreign_book));
}

#[test]
fn session_picker_tracks_active_thread_and_recovers_from_errors() {
    let first = AiThreadOption::new("thread-a", "First", vec!["book-a".to_string()]);
    let second = AiThreadOption::new("thread-b", "Second", vec!["book-a".to_string()]);
    let mut sessions = SessionPickerState::default();

    assert_eq!(sessions.active_title(), "新对话");
    assert!(sessions.begin());
    assert!(!sessions.begin());
    sessions.apply(Some(second.id.clone()), vec![first.clone(), second.clone(), second]);
    assert_eq!(sessions.active_title(), "Second");
    assert_eq!(sessions.threads.len(), 2);

    assert!(sessions.begin());
    sessions.fail("会话正被其它窗口使用");
    assert!(!sessions.busy);
    assert_eq!(sessions.active_title(), "Second");
    assert_eq!(sessions.error.as_deref(), Some("会话正被其它窗口使用"));
}

#[test]
fn session_delete_confirmation_is_cleared_by_any_started_or_applied_operation() {
    let thread = AiThreadOption::new("thread-a", "First", vec!["book-a".to_string()]);
    let pending = PendingSessionDeletion {
        thread_id: thread.id.clone(),
        title: thread.title.clone(),
    };
    let mut sessions = SessionPickerState {
        threads: vec![thread.clone()],
        active_thread_id: Some(thread.id.clone()),
        open: true,
        pending_delete: Some(pending.clone()),
        ..SessionPickerState::default()
    };

    assert!(sessions.begin());
    assert_eq!(sessions.pending_delete, None);
    sessions.pending_delete = Some(pending);
    sessions.apply(None, vec![thread]);
    assert_eq!(sessions.pending_delete, None);
    assert_eq!(sessions.active_thread_id, None);
}

#[test]
fn session_options_are_hard_filtered_by_the_current_book_scope() {
    let allowed = vec!["book-a".to_string(), "book-b".to_string()];
    let options = authorized_thread_options(
        vec![
            AiThreadOption::new("a", "A", vec!["book-a".to_string()]),
            AiThreadOption::new("ab", "A + B", vec!["book-a".to_string(), "book-b".to_string()]),
            AiThreadOption::new("c", "C", vec!["book-c".to_string()]),
        ],
        &allowed,
    );

    assert_eq!(
        options.iter().map(|option| option.id.as_str()).collect::<Vec<_>>(),
        vec!["a", "ab"]
    );
}

#[test]
fn changing_persisted_threads_keeps_only_the_in_flight_request_projection() {
    let mut conversation =
        ConversationState::new(AiSidebarScope::library("Shelf", vec![book("book-a")]));
    conversation.messages.push(AiMessage {
        id: 99,
        role: AiMessageRole::Assistant,
        content: "old session".to_string(),
        sources: Vec::new(),
        source_status: Some(AgentAnswerSourceStatus::NoVerifiedSources),
        request_id: None,
    });
    let request = conversation.begin("new question").unwrap();
    assert!(conversation.append_delta(request.request_id, "new answer"));

    conversation.retain_current_request_messages();

    assert_eq!(conversation.messages.len(), 2);
    assert!(conversation
        .messages
        .iter()
        .all(|message| message.request_id == Some(request.request_id)));
    assert!(conversation.messages.iter().all(|message| message.content != "old session"));
}

#[test]
fn requests_capture_exact_scope_and_independently_selected_references() {
    let mut state = ConversationState::new(AiSidebarScope::book(
        book("current"),
        vec![book("current"), book("other")],
    ));
    assert!(state.scope.add_book("other"));
    let first = AiReferenceHint::chapter("current", "unit-1", 0, "Chapter 1");
    let second = AiReferenceHint::chapter("other", "unit-2", 1, "Chapter 2");
    state.set_reference_hints(vec![first.clone(), second.clone()]);
    assert!(state.toggle_reference(&first));
    assert!(state.toggle_reference(&second));
    assert!(state.toggle_reference(&first));
    assert!(state.toggle_reference(&first));
    let request = state.begin("  What happened?  ").unwrap();
    assert_eq!(request.question, "What happened?");
    assert_eq!(request.book_ids, vec!["current", "other"]);
    assert_eq!(
        request
            .reference_hints
            .iter()
            .map(|reference| reference.unit_id.as_str())
            .collect::<Vec<_>>(),
        vec!["unit-1", "unit-2"]
    );
    assert_eq!(request.reference.unwrap().unit_id, "unit-1");
    assert!(state.begin("second request").is_none());
}

#[test]
fn active_frozen_reference_enters_the_request_without_a_manual_toggle() {
    let mut state = ConversationState::new(AiSidebarScope::book(book("current"), Vec::new()));
    let mut highlighted = AiReferenceHint::chapter("current", "unit-1", 0, "Current highlight");
    highlighted.frozen_text = Some("exact selected words".to_string());
    highlighted.revision = Some(7);

    state.set_reference_hints(vec![highlighted.clone()]);

    assert_eq!(state.selected_reference_count(), 1);
    assert!(state.reference_is_included(&highlighted));
    let request = state.begin("Explain this").expect("valid request");
    assert_eq!(request.reference_hints, vec![highlighted.clone()]);
    assert_eq!(request.reference, Some(highlighted));
}

#[test]
fn selection_explanation_replaces_previous_history_and_reference_choices() {
    let mut state = ConversationState::new(AiSidebarScope::book(book("current"), Vec::new()));
    let mut selected = AiReferenceHint::chapter("current", "unit-1", 0, "Selected text");
    selected.frozen_text = Some("exact selected words\n第二行".to_string());
    assert_eq!(selected.revision, None, "Reader freezes text without an editor revision");
    let manual = AiReferenceHint::chapter("current", "unit-2", 1, "Manual chapter");
    state.set_reference_hints(vec![selected.clone(), manual.clone()]);
    assert!(state.toggle_reference(&selected));
    assert!(state.toggle_reference(&manual));
    let previous = state.begin("Previous question").unwrap();
    assert!(state.append_delta(previous.request_id, "Previous answer"));
    assert!(state.finish(
        previous.request_id,
        Vec::new(),
        AgentAnswerSourceStatus::NoVerifiedSources,
    ));

    let request = state.begin_selection_explanation(selected.clone()).unwrap();

    assert_eq!(request.question, "用汉语详细解释一下");
    assert_eq!(request.reference_hints, vec![selected.clone()]);
    assert_eq!(request.reference, Some(selected.clone()));
    assert_eq!(state.messages.len(), 1);
    assert_eq!(state.messages[0].content, "用汉语详细解释一下");
    assert!(request.request_id > previous.request_id);
    assert!(state.included_references.is_empty());
    assert!(state.reference_is_included(&selected));

    // Selection changes while the answer is running only affect a later
    // question; they must not rewrite the already emitted request.
    let mut changed = selected.clone();
    changed.frozen_text = Some("new live selection".to_string());
    state.set_reference_hints(vec![changed, manual]);
    assert_eq!(request.reference_hints, vec![selected]);
}

#[test]
fn selection_explanation_rejects_busy_or_removed_scope_without_mutating_conversation() {
    let mut state = ConversationState::new(AiSidebarScope::book(book("current"), Vec::new()));
    let mut selected = AiReferenceHint::chapter("current", "unit-1", 0, "Selected text");
    selected.frozen_text = Some("selected words".to_string());
    state.set_reference_hints(vec![selected.clone()]);
    let request = state.begin("Keep this request").unwrap();
    assert!(state.append_delta(request.request_id, "Still answering"));
    let messages = state.messages.clone();
    assert!(state.begin_selection_explanation(selected.clone()).is_none());
    assert!(state.is_current(request.request_id));
    assert_eq!(state.messages, messages);
    assert_eq!(state.reference_hints, vec![selected.clone()]);

    assert!(state.finish(
        request.request_id,
        Vec::new(),
        AgentAnswerSourceStatus::NoVerifiedSources,
    ));
    let completed = state.messages.clone();
    selected.book_id = "removed-book".to_string();
    assert!(state.begin_selection_explanation(selected).is_none());
    assert_eq!(state.messages, completed);
}

#[test]
fn automatic_highlight_can_be_excluded_and_cleared_without_losing_manual_references() {
    let mut state = ConversationState::new(AiSidebarScope::book(book("current"), Vec::new()));
    let mut highlighted = AiReferenceHint::chapter("current", "unit-1", 0, "Current highlight");
    highlighted.frozen_text = Some("exact selected words".to_string());
    highlighted.revision = Some(7);
    let manual = AiReferenceHint::chapter("current", "unit-2", 1, "Other chapter");
    state.set_reference_hints(vec![highlighted.clone(), manual.clone()]);
    assert!(state.toggle_reference(&manual));

    assert!(state.toggle_reference(&highlighted));
    assert!(!state.reference_is_included(&highlighted));
    assert_eq!(state.selected_reference_count(), 1);

    state.set_reference_hints(vec![highlighted.clone(), manual.clone()]);
    assert!(
        !state.reference_is_included(&highlighted),
        "a redundant host refresh must preserve the user's exclusion"
    );
    assert!(state.toggle_reference(&highlighted));
    assert_eq!(state.selected_reference_count(), 2);

    let mut cleared = highlighted.clone();
    cleared.frozen_text = None;
    state.set_reference_hints(vec![cleared.clone(), manual.clone()]);
    assert!(state.automatic_reference.is_none());
    assert!(!state.reference_is_included(&cleared));
    assert!(state.reference_is_included(&manual));
    assert_eq!(state.selected_reference_count(), 1);
}

#[test]
fn effective_reference_count_deduplicates_manual_and_automatic_keys_and_enforces_the_limit() {
    let mut state = ConversationState::new(AiSidebarScope::book(book("current"), Vec::new()));
    let plain = AiReferenceHint::chapter("current", "unit-0", 0, "Current chapter");
    state.set_reference_hints(vec![plain.clone()]);
    assert!(state.toggle_reference(&plain));

    let mut highlighted = plain.clone();
    highlighted.label = "Current highlight".to_string();
    highlighted.frozen_text = Some("selected".to_string());
    let mut references = vec![highlighted.clone()];
    references.extend((1..=MAX_SELECTED_REFERENCES).map(|index| {
        AiReferenceHint::chapter(
            "current",
            &format!("unit-{index}"),
            index,
            &format!("Chapter {index}"),
        )
    }));
    state.set_reference_hints(references.clone());

    assert_eq!(state.selected_reference_count(), 1);
    for reference in references.iter().skip(1).take(MAX_SELECTED_REFERENCES - 1) {
        assert!(state.toggle_reference(reference));
    }
    assert_eq!(state.selected_reference_count(), MAX_SELECTED_REFERENCES as u128);
    assert!(!state.toggle_reference(references.last().unwrap()));

    let request = state.begin("Compare").expect("valid request");
    assert_eq!(request.reference_hints.len(), MAX_SELECTED_REFERENCES);
    assert_eq!(
        request
            .reference_hints
            .iter()
            .filter(|reference| reference.unit_id == "unit-0")
            .count(),
        1
    );
}

#[test]
fn page_locators_distinguish_references_within_one_content_unit() {
    let mut state = ConversationState::new(AiSidebarScope::book(book("book"), Vec::new()));
    let mut first = AiReferenceHint::chapter("book", "unit-1", 0, "Page 1");
    first.locator = Some(with_source(
        DocumentLocator::unit("book", "unit-1"),
        SourceLocator::OfficeRenderedPage { page: 1 },
    ));
    let mut second = first.clone();
    second.label = "Page 2".to_string();
    second.locator = Some(with_source(
        DocumentLocator::unit("book", "unit-1"),
        SourceLocator::OfficeRenderedPage { page: 2 },
    ));

    state.set_reference_hints(vec![first.clone(), second.clone()]);
    assert_eq!(state.reference_hints.len(), 2);
    assert!(state.toggle_reference(&first));
    assert!(state.toggle_reference(&second));
    let request = state.begin("compare pages").expect("valid request");
    assert_eq!(request.reference_hints.len(), 2);
    assert_eq!(request.reference_hints[0].locator, first.locator);
    assert_eq!(request.reference_hints[1].locator, second.locator);
}

#[test]
fn scope_refresh_preserves_only_still_authorized_additions() {
    let mut state = ConversationState::new(AiSidebarScope::book(
        book("current"),
        vec![book("other"), book("removed")],
    ));
    assert!(state.scope.add_book("other"));
    assert!(state.scope.add_book("removed"));

    assert!(state.set_scope(AiSidebarScope::book(
        AiBookOption::new("current", "Renamed current"),
        vec![book("other"), book("new")],
    )));
    assert_eq!(state.scope.book_ids(), vec!["current", "other"]);
    assert_eq!(state.scope.label(), "Renamed current 等 2 本");
    assert!(!state.scope.add_book("removed"));
    assert!(state.scope.add_book("new"));
    assert!(!state.set_scope(AiSidebarScope::book(
        AiBookOption::new("current", "Renamed current"),
        vec![book("other"), book("new")],
    )));
}

fn plain_link(id: &str, label: &str) -> AiSourceLink {
    let unit = format!("unit-{id}");
    AiSourceLink {
        citation_id: format!("citation-{id}"),
        book_id: id.to_string(),
        unit_id: unit.clone(),
        unit_index: None,
        document_revision: Revision::new(1),
        unit_revision: Revision::new(1),
        locator: Some(DocumentLocator::unit(id, &unit)),
        label: label.to_string(),
        quote: None,
        selection_snapshot: false,
        stale: false,
        url: None,
    }
}

#[test]
fn scope_change_drops_only_unauthorized_reference_selections() {
    let mut state =
        ConversationState::new(AiSidebarScope::library("All", vec![book("a"), book("b")]));
    let a = AiReferenceHint::chapter("a", "unit-a", 0, "A");
    let b = AiReferenceHint::chapter("b", "unit-b", 0, "B");
    state.set_reference_hints(vec![a.clone(), b.clone()]);
    assert!(state.toggle_reference(&a));
    assert!(state.toggle_reference(&b));
    state.messages.push(AiMessage {
        id: 99,
        role: AiMessageRole::Assistant,
        content: "answer".to_string(),
        sources: vec![plain_link("a", "A"), plain_link("b", "B")],
        source_status: Some(AgentAnswerSourceStatus::VerifiedKnowledgeBaseSources),
        request_id: None,
    });

    state.set_scope(AiSidebarScope::library("Only B", vec![book("b")]));

    assert_eq!(state.reference_hints, vec![b.clone()]);
    assert_eq!(state.included_references.len(), 1);
    assert!(state.included_references.contains(&reference_key(&b)));
    assert_eq!(state.messages[0].sources.len(), 1);
    assert_eq!(state.messages[0].sources[0].book_id, "b");
}

#[test]
fn cancellation_rejects_late_stream_callbacks() {
    let mut state = ConversationState::new(AiSidebarScope::library("All", vec![book("a")]));
    let request = state.begin("question").unwrap();
    assert!(state.append_delta(request.request_id, "partial"));
    assert_eq!(state.cancel(), Some(request.request_id));
    assert!(!state.messages.iter().any(|message| {
        message.request_id == Some(request.request_id) && message.role == AiMessageRole::Assistant
    }));
    assert!(!state.append_delta(request.request_id, "late"));
    assert!(!state.finish(
        request.request_id,
        Vec::new(),
        AgentAnswerSourceStatus::NoVerifiedSources,
    ));
    assert!(!state.fail(request.request_id, "late failure"));
    assert!(!state.is_sending());
}

#[test]
fn provisional_answer_can_be_reset_before_a_later_final_stream() {
    let mut state = ConversationState::new(AiSidebarScope::library("All", vec![book("a")]));
    let request = state.begin("question").unwrap();
    assert!(state.append_delta(request.request_id, "temporary tool planning"));
    assert!(state.reset_answer(request.request_id));
    assert!(!state.reset_answer(request.request_id));
    assert!(state.append_delta(request.request_id, "final "));
    assert!(state.append_delta(request.request_id, "answer"));
    assert!(state.finish(
        request.request_id,
        Vec::new(),
        AgentAnswerSourceStatus::NoVerifiedSources,
    ));
    let answer = state
        .messages
        .iter()
        .find(|message| message.role == AiMessageRole::Assistant)
        .unwrap();
    assert_eq!(answer.content, "final answer");
}

#[test]
fn failed_stream_discards_provisional_answer_before_showing_error() {
    let mut state = ConversationState::new(AiSidebarScope::library("All", vec![book("a")]));
    let request = state.begin("question").unwrap();
    assert!(state.append_delta(request.request_id, "unvalidated partial"));
    assert!(state.fail(request.request_id, "invalid citation"));
    assert!(!state.messages.iter().any(|message| {
        message.request_id == Some(request.request_id) && message.role == AiMessageRole::Assistant
    }));
    assert_eq!(state.messages.last().unwrap().role, AiMessageRole::Error);
    assert_eq!(state.messages.last().unwrap().content, "invalid citation");
}

#[test]
fn only_current_request_can_receive_sources() {
    let mut state = ConversationState::new(AiSidebarScope::library("All", vec![book("a")]));
    let request = state.begin("question").unwrap();
    assert!(state.append_delta(request.request_id, "answer"));
    let source = AiSourceLink {
        citation_id: "source-1".to_string(),
        book_id: "a".to_string(),
        unit_id: "unit-1".to_string(),
        unit_index: Some(0),
        document_revision: Revision::new(1),
        unit_revision: Revision::new(1),
        locator: None,
        label: "Chapter 1".to_string(),
        quote: Some("evidence".to_string()),
        selection_snapshot: false,
        stale: false,
        url: None,
    };
    let foreign = AiSourceLink {
        citation_id: "source-foreign".to_string(),
        book_id: "secret".to_string(),
        ..source.clone()
    };
    assert!(state.finish(
        request.request_id,
        vec![source.clone(), foreign],
        AgentAnswerSourceStatus::VerifiedKnowledgeBaseSources,
    ));
    assert_eq!(state.messages.last().unwrap().sources, vec![source]);
    assert!(!state.finish(
        request.request_id,
        Vec::new(),
        AgentAnswerSourceStatus::NoVerifiedSources,
    ));
}

#[test]
fn source_versions_are_checked_before_navigation_and_stale_links_remain_identifiable() {
    let mut document = BookDocument {
        id: "book".to_string(),
        revision: Revision::new(3),
        units: vec![ContentUnit {
            id: "unit-1".to_string(),
            revision: Revision::new(7),
            source_locator: None,
            blocks: Vec::new(),
            text: String::new(),
        }],
        refused: Vec::new(),
    };
    let mut source = AiSourceLink {
        citation_id: "source-1".to_string(),
        book_id: "book".to_string(),
        unit_id: "unit-1".to_string(),
        unit_index: Some(0),
        document_revision: Revision::new(3),
        unit_revision: Revision::new(7),
        locator: Some(DocumentLocator::unit("book", "unit-1")),
        label: "Chapter".to_string(),
        quote: None,
        selection_snapshot: false,
        stale: false,
        url: None,
    };
    assert_eq!(source.current_unit_index(&document), Some(0));

    document.units[0].revision = Revision::new(8);
    source.mark_current_status(Some(&document));
    assert!(source.stale);
    assert_eq!(source.current_unit_index(&document), None);
    assert!(source.validated_locator().is_some());
}

fn begin_explanation(sidebar: &mut AiSidebar) -> u64 {
    assert!(sidebar.begin_selection_explanation());
    let mut reference = AiReferenceHint::chapter("book", "unit", 0, "Chapter");
    reference.frozen_text = Some("frozen selected words".to_string());
    sidebar.complete_selection_explanation(Vec::new(), reference);
    match sidebar.conversation.request {
        RequestState::Sending { request_id } => request_id,
        RequestState::Idle => panic!("explanation should submit a new request"),
    }
}

#[test]
fn explanation_events_publish_only_current_persisted_answers_and_report_recoverable_failures() {
    let mut sidebar = AiSidebar::new(
        AiSidebarScope::book(book("book"), Vec::new()),
        false,
        AiEndpointStatus::Local,
    );
    let failed_id = begin_explanation(&mut sidebar);
    sidebar.append_answer_delta(failed_id, "uncommitted provisional answer");
    assert!(sidebar.fail_answer(failed_id, "fixture persistence failure"));
    assert!(!sidebar.finish_persisted_answer(
        failed_id,
        "late failed answer".into(),
        Vec::new(),
        AgentAnswerSourceStatus::NoVerifiedSources,
    ));
    let cancelled_id = begin_explanation(&mut sidebar);
    sidebar.append_answer_delta(cancelled_id, "cancelled provisional answer");
    assert_eq!(sidebar.cancel_for_window_close(), Some(cancelled_id));
    let successful_id = begin_explanation(&mut sidebar);
    assert!(!sidebar.finish_persisted_answer(
        cancelled_id,
        "old generation".into(),
        Vec::new(),
        AgentAnswerSourceStatus::NoVerifiedSources,
    ));
    sidebar.append_answer_delta(successful_id, "stream projection");
    assert!(sidebar.finish_persisted_answer(
        successful_id,
        "## Final persisted Markdown\n\n**final answer**".into(),
        Vec::new(),
        AgentAnswerSourceStatus::NoVerifiedSources,
    ));
    assert!(!sidebar.finish_persisted_answer(
        successful_id,
        "duplicate result".into(),
        Vec::new(),
        AgentAnswerSourceStatus::NoVerifiedSources,
    ));

    let mut completed = Vec::new();
    let mut failed = Vec::new();
    let mut order = Vec::new();
    let mut record = |signals: Vec<SidebarSignal>| {
        for signal in signals {
            match signal {
                SidebarSignal::Completed(event) => completed.push(event),
                SidebarSignal::ExplanationFailed(event) => failed.push(event.request_id),
                SidebarSignal::ExplanationSubmitted(event) => {
                    order.push(("explanation", event.request_id));
                }
                SidebarSignal::Event(AiSidebarEvent::Submit(request)) => {
                    order.push(("submit", request.request_id));
                }
                _ => {}
            }
        }
    };
    record(sidebar.take_signals());

    sidebar.fail_session_operation("ordinary session failure");
    let ordinary = sidebar.conversation.begin("ordinary question").unwrap();
    assert!(sidebar.fail_answer(ordinary.request_id, "ordinary answer failure"));
    sidebar.fail_selection_explanation_session("fresh session failed");
    let reference = AiReferenceHint::chapter("book", "unit", 0, "missing selection");
    sidebar.complete_selection_explanation(Vec::new(), reference);
    record(sidebar.take_signals());

    assert_eq!(
        completed,
        vec![AiAnswerCompleted {
            request_id: successful_id,
            markdown: "## Final persisted Markdown\n\n**final answer**".into(),
        }]
    );
    assert_eq!(
        failed,
        vec![Some(failed_id), Some(cancelled_id), None, None],
        "ordinary chat is not an explanation"
    );
    assert_eq!(
        order,
        [failed_id, cancelled_id, successful_id]
            .into_iter()
            .flat_map(|id| [("explanation", id), ("submit", id)])
            .collect::<Vec<_>>(),
        "the exact explanation generation is bound before submission"
    );
}

#[test]
fn a_piece_is_refused_only_where_the_request_is_gone() {
    let mut sidebar = AiSidebar::new(
        AiSidebarScope::book(book("book"), Vec::new()),
        false,
        AiEndpointStatus::Local,
    );
    sidebar.submit("question");
    let RequestState::Sending { request_id } = sidebar.conversation.request else {
        panic!("the question is being answered");
    };
    assert!(sidebar.append_answer_delta(request_id, "piece"));
    sidebar.take_signals();
    assert!(sidebar.append_answer_delta(request_id, ""), "the request goes on");
    assert!(sidebar.append_answer_delta(request_id, &"x".repeat(1024 * 1024)));
    assert_eq!(sidebar.conversation.messages.last().unwrap().content, "piece");
    assert!(sidebar.take_signals().is_empty());
    assert!(!sidebar.append_answer_delta(request_id + 100, "other"));
    sidebar.cancel();
    assert!(!sidebar.append_answer_delta(request_id, "late"));
}
