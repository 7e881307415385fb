//! The tasks that a sidebar starts, and what becomes of their results.

use crate::citations::{
    documents_read, links_of_answer, listed, live_links, thread_options, validate_live_sources,
    validated_links, AgentCitation, ChatThread, UiSessionState,
};
use crate::conversation::{answer_index, not_answering, MAX_MESSAGE_BYTES};
use crate::conversation_laws::{
    a_finished_answer_keeps_its_text, an_answer_is_its_pieces_in_order,
    an_unanswered_request_is_named, an_unfinished_answer_leaves_nothing,
};
use crate::document::{BookDocument, DocumentView};
use crate::reference_freeze::{explanation_error, validate_explanation_reference};
use crate::references::AiReferenceHint;
use crate::seqs::lemma_filter_same_length;
use crate::sessions::{thread_views, AiThreadOption, ThreadView};
use crate::sidebar::{
    restored_views, AiRestoredMessage, AiSidebar, RestoredView, SidebarView, SignalView,
};
use crate::sources::{source_views, AgentAnswerSourceStatus, AiSourceLink, SourceLinkView};
use crate::text::{byte_len, contains_text, copy_option, has_text, option_text, texts};
use vstd::prelude::*;
use vstd::string::*;

verus! {

// ---------------------------------------------------------------------------
// Tasks on the stored conversations
// ---------------------------------------------------------------------------

/// What a task on the stored conversations does.
#[derive(Debug, PartialEq, Eq)]
pub enum SessionTaskKind {
    Restore,
    Create { explanation: Option<AiReferenceHint> },
    Switch { thread_id: String },
    Delete { thread_id: String },
}

/// A task on the stored conversations that the host has to carry out.
#[derive(Debug, PartialEq, Eq)]
pub struct SessionTask {
    pub generation: u64,
    pub kind: SessionTaskKind,
    pub allowed_book_ids: Vec<String>,
}

/// The task that brings the stored conversations in line with a scope.
#[derive(Debug, PartialEq, Eq)]
pub struct ReconcileTask {
    pub generation: u64,
    pub allowed_book_ids: Vec<String>,
}

/// How a task ended.
#[derive(Debug, PartialEq, Eq)]
pub enum TaskOutcome<T> {
    Finished(T),
    /// The task itself reported an error.
    Failed(String),
    /// The task was stopped before it could report anything.
    Stopped(String),
}

/// What is left of the stored conversations in line with a scope.
#[derive(Debug, PartialEq, Eq)]
pub struct ReconciledSessions {
    /// Whether the open conversation was left.
    pub reset: bool,
    pub active_thread_id: Option<String>,
    /// The conversations, or why they could not be listed.
    pub threads: Result<Vec<ChatThread>, String>,
}

/// What a stopped task is called.
pub open spec fn stopped_prefix(kind: SessionTaskKind) -> Seq<char> {
    match kind {
        SessionTaskKind::Restore => "AI 会话恢复任务已停止："@,
        SessionTaskKind::Create { explanation } => "新建 AI 会话任务已停止："@,
        SessionTaskKind::Switch { thread_id } => "切换 AI 会话任务已停止："@,
        SessionTaskKind::Delete { thread_id } => "删除 AI 会话任务已停止："@,
    }
}

/// What is said before the error of a task.
pub open spec fn failure_prefix(kind: SessionTaskKind) -> Seq<char> {
    match kind {
        SessionTaskKind::Restore => "无法恢复 AI 会话："@,
        SessionTaskKind::Create { explanation } => "无法新建 AI 会话："@,
        SessionTaskKind::Switch { thread_id } => "无法切换 AI 会话："@,
        SessionTaskKind::Delete { thread_id } => "无法删除 AI 会话："@,
    }
}

/// Whether a task was started for an explanation.
pub open spec fn is_explanation(kind: SessionTaskKind) -> bool {
    kind matches SessionTaskKind::Create { explanation } && explanation is Some
}

/// The sidebar after a task failed. An explanation that it was started for is
/// reported as failed.
pub open spec fn after_failure(
    sidebar: SidebarView,
    kind: SessionTaskKind,
    error: Seq<char>,
) -> SidebarView {
    let text = failure_prefix(kind) + error;
    let after = sidebar.with_session_error(text);
    if is_explanation(kind) {
        after.telling(SignalView::ExplanationFailed(None, text))
    } else {
        after
    }
}

/// The sidebar after a task was carried out.
pub open spec fn after_success(
    sidebar: SidebarView,
    kind: SessionTaskKind,
    state: UiSessionState,
) -> SidebarView {
    let threads = thread_views(state.threads@);
    let messages = restored_views(state.messages@);
    match kind {
        SessionTaskKind::Create { explanation } => match explanation {
            Some(reference) => sidebar.explaining(threads, reference@),
            None => sidebar.with_session(None, threads, messages),
        },
        _ => sidebar.with_session(option_text(state.active_thread_id), threads, messages),
    }
}

/// The sidebar after a task ended.
pub open spec fn after_task(
    sidebar: SidebarView,
    kind: SessionTaskKind,
    outcome: TaskOutcome<UiSessionState>,
) -> SidebarView {
    match outcome {
        TaskOutcome::Finished(state) => after_success(sidebar, kind, state),
        TaskOutcome::Failed(error) => after_failure(sidebar, kind, error@),
        TaskOutcome::Stopped(error) => after_failure(sidebar, kind, stopped_prefix(kind) + error@),
    }
}

/// The sidebar after the stored conversations were brought in line with a scope.
pub open spec fn after_reconciling(
    sidebar: SidebarView,
    outcome: TaskOutcome<ReconciledSessions>,
) -> SidebarView {
    match outcome {
        TaskOutcome::Finished(sessions) => match sessions.threads {
            Ok(threads) => if sessions.reset {
                sidebar.with_session(None, listed(threads@), Seq::empty())
            } else {
                sidebar.with_sessions(option_text(sessions.active_thread_id), listed(threads@))
            },
            Err(error) => if sessions.reset {
                sidebar.with_session(None, Seq::empty(), Seq::empty())
            } else {
                sidebar.with_session_error("无法刷新当前范围的 AI 会话："@ + error@)
            },
        },
        TaskOutcome::Failed(error) => sidebar.with_session_error("无法同步 AI 会话范围："@ + error@),
        TaskOutcome::Stopped(error) => sidebar.with_session_error(
            "无法同步 AI 会话范围："@ + ("AI 会话范围同步任务已停止："@ + error@),
        ),
    }
}

/// Numbers the tasks on the stored conversations. Only the result of the last one
/// counts.
#[derive(Debug, PartialEq, Eq)]
pub struct AiSidebarController {
    pub session_generation: u64,
}

/// The number behind another one.
pub open spec fn next_generation(generation: u64) -> u64 {
    if generation == u64::MAX {
        0
    } else {
        (generation + 1) as u64
    }
}

impl AiSidebarController {
    pub fn new() -> (r: Self)
        ensures
            r.session_generation == 0,
    {
        AiSidebarController { session_generation: 0 }
    }

    fn start(&mut self) -> (r: u64)
        ensures
            r == next_generation(old(self).session_generation),
            final(self).session_generation == r,
    {
        self.session_generation = if self.session_generation == u64::MAX {
            0
        } else {
            self.session_generation + 1
        };
        self.session_generation
    }

    /// Starts reading the conversation that was open last, unless something else
    /// is under way.
    pub fn restore(&mut self, sidebar: &mut AiSidebar) -> (r: Option<SessionTask>)
        ensures
            final(sidebar)@ == old(sidebar)@.operating(),
            match r {
                Some(task) => old(sidebar)@.is_ready() && task.generation == next_generation(
                    old(self).session_generation,
                ) && task.kind is Restore && texts(task.allowed_book_ids@)
                    == old(sidebar)@.conversation.scope.book_ids()
                    && final(self).session_generation == task.generation,
                None => !old(sidebar)@.is_ready() && *final(self) == *old(self),
            },
    {
        if !sidebar.begin_session_operation() {
            return None;
        }
        let generation: u64 = self.start();
        Some(
            SessionTask {
                generation,
                kind: SessionTaskKind::Restore,
                allowed_book_ids: sidebar.authorized_book_ids(),
            },
        )
    }

    /// Starts a new conversation.
    pub fn new_session(&mut self, sidebar: &AiSidebar) -> (r: SessionTask)
        ensures
            r.generation == next_generation(old(self).session_generation),
            final(self).session_generation == r.generation,
            r.kind matches SessionTaskKind::Create { explanation } && explanation is None,
            texts(r.allowed_book_ids@) == sidebar@.conversation.scope.book_ids(),
    {
        self.create_session(sidebar, None)
    }

    /// Starts a new conversation for an explanation of selected text, unless the
    /// selection is refused or something else is under way. `encoded_bytes` is
    /// the size of the selection as it is sent.
    pub fn explain_selection(
        &mut self,
        reference: AiReferenceHint,
        encoded_bytes: Option<usize>,
        sidebar: &mut AiSidebar,
    ) -> (r: Option<SessionTask>)
        ensures
            ({
                let before = old(sidebar)@;
                let ids = before.conversation.scope.book_ids();
                match explanation_error(reference@, ids, encoded_bytes) {
                    Some(error) => r is None && final(sidebar)@ == before.showing_error(
                        "无法解释所选文本："@ + error,
                    ) && *final(self) == *old(self),
                    None => {
                        let unfolded = SidebarView {
                            layout: crate::sidebar::ResponsiveSidebar {
                                collapsed: false,
                                manual_override: true,
                                ..before.layout
                            },
                            ..before
                        };
                        if before.is_ready() {
                            &&& final(sidebar)@ == unfolded.operating()
                            &&& r matches Some(task) && task.generation == next_generation(
                                old(self).session_generation,
                            ) && final(self).session_generation == task.generation && texts(
                                task.allowed_book_ids@,
                            ) == ids && task.kind == (SessionTaskKind::Create {
                                explanation: Some(reference),
                            })
                        } else {
                            &&& r is None
                            &&& *final(self) == *old(self)
                            &&& final(sidebar)@ == unfolded.showing_error(
                                "AI 正在处理当前请求，请完成或取消后再使用 AI 解释。"@,
                            )
                        }
                    },
                }
            }),
    {
        let allowed = sidebar.authorized_book_ids();
        if let Err(error) = validate_explanation_reference(&reference, &allowed, encoded_bytes) {
            let mut text = "无法解释所选文本：".to_owned();
            text.push_str(error.as_str());
            sidebar.show_explanation_error(text.as_str());
            return None;
        }
        if !sidebar.begin_selection_explanation() {
            return None;
        }
        Some(self.create_session(sidebar, Some(reference)))
    }

    fn create_session(&mut self, sidebar: &AiSidebar, explanation: Option<AiReferenceHint>) -> (r:
        SessionTask)
        ensures
            r.generation == next_generation(old(self).session_generation),
            final(self).session_generation == r.generation,
            r.kind == (SessionTaskKind::Create { explanation }),
            texts(r.allowed_book_ids@) == sidebar@.conversation.scope.book_ids(),
    {
        let generation: u64 = self.start();
        SessionTask {
            generation,
            kind: SessionTaskKind::Create { explanation },
            allowed_book_ids: sidebar.authorized_book_ids(),
        }
    }

    /// Starts reading another stored conversation.
    pub fn switch_session(&mut self, thread_id: String, sidebar: &AiSidebar) -> (r: SessionTask)
        ensures
            r.generation == next_generation(old(self).session_generation),
            final(self).session_generation == r.generation,
            r.kind == (SessionTaskKind::Switch { thread_id }),
            texts(r.allowed_book_ids@) == sidebar@.conversation.scope.book_ids(),
    {
        let generation: u64 = self.start();
        SessionTask {
            generation,
            kind: SessionTaskKind::Switch { thread_id },
            allowed_book_ids: sidebar.authorized_book_ids(),
        }
    }

    /// Starts deleting a stored conversation.
    pub fn delete_session(&mut self, thread_id: String, sidebar: &AiSidebar) -> (r: SessionTask)
        ensures
            r.generation == next_generation(old(self).session_generation),
            final(self).session_generation == r.generation,
            r.kind == (SessionTaskKind::Delete { thread_id }),
            texts(r.allowed_book_ids@) == sidebar@.conversation.scope.book_ids(),
    {
        let generation: u64 = self.start();
        SessionTask {
            generation,
            kind: SessionTaskKind::Delete { thread_id },
            allowed_book_ids: sidebar.authorized_book_ids(),
        }
    }

    /// Starts bringing the stored conversations in line with a scope.
    pub fn reconcile_scope(&mut self, allowed_book_ids: Vec<String>) -> (r: ReconcileTask)
        ensures
            r.generation == next_generation(old(self).session_generation),
            final(self).session_generation == r.generation,
            r.allowed_book_ids == allowed_book_ids,
    {
        let generation: u64 = self.start();
        ReconcileTask { generation, allowed_book_ids }
    }

    /// Takes over the result of a task, unless another one was started since.
    pub fn finish_session_task(
        &self,
        task: SessionTask,
        outcome: TaskOutcome<UiSessionState>,
        sidebar: &mut AiSidebar,
    )
        ensures
            final(sidebar)@ == (if task.generation == self.session_generation {
                after_task(old(sidebar)@, task.kind, outcome)
            } else {
                old(sidebar)@
            }),
    {
        if self.session_generation != task.generation {
            return ;
        }
        match outcome {
            TaskOutcome::Finished(state) => {
                let threads = state.threads;
                let messages = state.messages;
                match task.kind {
                    SessionTaskKind::Create { explanation } => match explanation {
                        Some(reference) => {
                            sidebar.complete_selection_explanation(threads, reference);
                        },
                        None => {
                            let _ = sidebar.apply_session(None, threads, messages);
                        },
                    },
                    _ => {
                        let _ = sidebar.apply_session(state.active_thread_id, threads, messages);
                    },
                }
            },
            TaskOutcome::Failed(error) => {
                fail_task(&task.kind, error.as_str(), sidebar);
            },
            TaskOutcome::Stopped(error) => {
                let mut text = stopped_text(&task.kind);
                text.push_str(error.as_str());
                fail_task(&task.kind, text.as_str(), sidebar);
            },
        }
    }

    /// Takes over what is left in line with a scope, unless another task was
    /// started since.
    pub fn finish_reconciling(
        &self,
        task: ReconcileTask,
        outcome: TaskOutcome<ReconciledSessions>,
        sidebar: &mut AiSidebar,
    )
        ensures
            final(sidebar)@ == (if task.generation == self.session_generation {
                after_reconciling(old(sidebar)@, outcome)
            } else {
                old(sidebar)@
            }),
    {
        if self.session_generation != task.generation {
            return ;
        }
        match outcome {
            TaskOutcome::Finished(sessions) => {
                let none: Vec<AiRestoredMessage> = Vec::new();
                assert(restored_views(none@) =~= Seq::<RestoredView>::empty());
                match &sessions.threads {
                    Ok(threads) => {
                        let options = thread_options(threads);
                        if sessions.reset {
                            let _ = sidebar.apply_session(None, options, none);
                        } else {
                            sidebar.refresh_sessions(copy_option(&sessions.active_thread_id), options);
                        }
                    },
                    Err(error) => {
                        if sessions.reset {
                            let no_threads: Vec<AiThreadOption> = Vec::new();
                            assert(thread_views(no_threads@) =~= Seq::<ThreadView>::empty());
                            let _ = sidebar.apply_session(None, no_threads, none);
                        } else {
                            let mut text = "无法刷新当前范围的 AI 会话：".to_owned();
                            text.push_str(error.as_str());
                            sidebar.fail_session_operation(text.as_str());
                        }
                    },
                }
            },
            TaskOutcome::Failed(error) => {
                let mut text = "无法同步 AI 会话范围：".to_owned();
                text.push_str(error.as_str());
                sidebar.fail_session_operation(text.as_str());
            },
            TaskOutcome::Stopped(error) => {
                let mut cause = "AI 会话范围同步任务已停止：".to_owned();
                cause.push_str(error.as_str());
                let mut text = "无法同步 AI 会话范围：".to_owned();
                text.push_str(cause.as_str());
                sidebar.fail_session_operation(text.as_str());
            },
        }
    }

    /// Ignores whatever task is under way, now that the window is closed.
    pub fn close(&mut self)
        ensures
            final(self).session_generation == next_generation(old(self).session_generation),
    {
        let _ = self.start();
    }
}

fn stopped_text(kind: &SessionTaskKind) -> (r: String)
    ensures
        r@ == stopped_prefix(*kind),
{
    match kind {
        SessionTaskKind::Restore => "AI 会话恢复任务已停止：".to_owned(),
        SessionTaskKind::Create { explanation } => "新建 AI 会话任务已停止：".to_owned(),
        SessionTaskKind::Switch { thread_id } => "切换 AI 会话任务已停止：".to_owned(),
        SessionTaskKind::Delete { thread_id } => "删除 AI 会话任务已停止：".to_owned(),
    }
}

fn fail_task(kind: &SessionTaskKind, error: &str, sidebar: &mut AiSidebar)
    ensures
        final(sidebar)@ == after_failure(old(sidebar)@, *kind, error@),
{
    let mut text = match kind {
        SessionTaskKind::Restore => "无法恢复 AI 会话：".to_owned(),
        SessionTaskKind::Create { explanation } => "无法新建 AI 会话：".to_owned(),
        SessionTaskKind::Switch { thread_id } => "无法切换 AI 会话：".to_owned(),
        SessionTaskKind::Delete { thread_id } => "无法删除 AI 会话：".to_owned(),
    };
    text.push_str(error);
    let explaining: bool = match kind {
        SessionTaskKind::Create { explanation } => explanation.is_some(),
        _ => false,
    };
    if explaining {
        sidebar.fail_selection_explanation_session(text.as_str());
    } else {
        sidebar.fail_session_operation(text.as_str());
    }
}

// ---------------------------------------------------------------------------
// Answers
// ---------------------------------------------------------------------------

/// What a reader is told of an error.
pub open spec fn friendly_error(error: Seq<char>) -> Seq<char> {
    if contains_text(error, "connection refused"@) || contains_text(error, "failed to connect"@) {
        "无法连接本地 Ollama。请确认 Ollama 已启动，并在 AI 设置中检查端点和模型；本应用不会代为启动服务。"@
    } else if contains_text(error, "cancelled"@) {
        "本次回答已取消。"@
    } else if contains_text(error, "unknown or unserved citation"@) {
        "模型引用了一个本次检索并未提供的来源，因此该回答未被采用。请重新提问；小模型更容易出现这种情况，可在 AI 设置中换用更强的对话模型。"@
    } else {
        "AI 回答失败："@ + error
    }
}

/// What a reader is told of an error.
pub fn friendly_agent_error(error: &str) -> (r: String)
    ensures
        r@ == friendly_error(error@),
{
    if has_text(error, "connection refused") || has_text(error, "failed to connect") {
        "无法连接本地 Ollama。请确认 Ollama 已启动，并在 AI 设置中检查端点和模型；本应用不会代为启动服务。".to_owned()
    } else if has_text(error, "cancelled") {
        "本次回答已取消。".to_owned()
    } else if has_text(error, "unknown or unserved citation") {
        "模型引用了一个本次检索并未提供的来源，因此该回答未被采用。请重新提问；小模型更容易出现这种情况，可在 AI 设置中换用更强的对话模型。".to_owned()
    } else {
        let mut text = "AI 回答失败：".to_owned();
        text.push_str(error);
        text
    }
}

/// What happens while an answer is given.
#[derive(Debug, PartialEq, Eq)]
pub enum AgentRunEvent {
    AnswerDelta(String),
    AnswerReset,
    AnswerCommitted,
    ToolStarted,
    ToolFinished,
}

/// A completed answer.
#[derive(Debug, PartialEq, Eq)]
pub struct UiConversationAnswer {
    pub markdown: String,
    pub sources: Vec<AiSourceLink>,
    pub source_status: AgentAnswerSourceStatus,
}

/// What the sidebar is told while an answer is given.
#[derive(Debug, PartialEq, Eq)]
pub enum UiAgentMessage {
    Delta(String),
    Reset,
    Committed,
    Sessions { active_thread_id: Option<String>, threads: Vec<AiThreadOption> },
    Completed(Result<UiConversationAnswer, String>),
}

/// What the sidebar is told of an event, if anything.
pub fn ui_message(event: AgentRunEvent) -> (r: Option<UiAgentMessage>)
    ensures
        r == (match event {
            AgentRunEvent::AnswerDelta(delta) => Some(UiAgentMessage::Delta(delta)),
            AgentRunEvent::AnswerReset => Some(UiAgentMessage::Reset),
            AgentRunEvent::AnswerCommitted => Some(UiAgentMessage::Committed),
            AgentRunEvent::ToolStarted => None,
            AgentRunEvent::ToolFinished => None,
        }),
{
    match event {
        AgentRunEvent::AnswerDelta(delta) => Some(UiAgentMessage::Delta(delta)),
        AgentRunEvent::AnswerReset => Some(UiAgentMessage::Reset),
        AgentRunEvent::AnswerCommitted => Some(UiAgentMessage::Committed),
        AgentRunEvent::ToolStarted | AgentRunEvent::ToolFinished => None,
    }
}

/// The links of a completed answer, held against the current documents; none
/// where these could not be read.
pub open spec fn answer_links(
    citations: Seq<AgentCitation>,
    allowed: Seq<Seq<char>>,
    documents: Option<Seq<DocumentView>>,
) -> Seq<SourceLinkView> {
    match documents {
        Some(documents) => validated_links(allowed, documents, live_links(citations), false),
        None => Seq::empty(),
    }
}

/// A completed answer. What it counts as resting on does not depend on which of
/// its links can be shown.
pub fn completed_answer(
    markdown: String,
    citations: &Vec<AgentCitation>,
    source_status: AgentAnswerSourceStatus,
    allowed_book_ids: &Vec<String>,
    documents: &Option<Vec<BookDocument>>,
) -> (r: UiConversationAnswer)
    ensures
        r.markdown == markdown,
        r.source_status == source_status,
        source_views(r.sources@) == answer_links(
            citations@,
            texts(allowed_book_ids@),
            documents_read(*documents),
        ),
{
    let links = links_of_answer(citations);
    let sources = match documents {
        Some(documents) => validate_live_sources(allowed_book_ids, documents, &links),
        None => {
            let none: Vec<AiSourceLink> = Vec::new();
            assert(source_views(none@) =~= Seq::<SourceLinkView>::empty());
            none
        },
    };
    UiConversationAnswer { markdown, sources, source_status }
}

/// How far an answer has come.
#[derive(Debug, PartialEq, Eq)]
pub struct AnswerProgress {
    pub request_id: u64,
    /// Whether a piece has come since the answer was last withdrawn.
    pub received_delta: bool,
    /// Whether the pieces that came are the answer that was stored.
    pub answer_committed: bool,
    pub done: bool,
}

/// The sidebar after the whole answer has come: pieces that are not the stored
/// answer are withdrawn, and the stored one is shown where there are none.
pub open spec fn after_completion(
    sidebar: SidebarView,
    progress: AnswerProgress,
    answer: UiConversationAnswer,
) -> SidebarView {
    let id = progress.request_id;
    let checked = if progress.answer_committed {
        sidebar
    } else {
        sidebar.answer_reset(id)
    };
    let shown = if progress.answer_committed && progress.received_delta {
        checked
    } else {
        checked.appended(id, answer.markdown@)
    };
    shown.finished(id, answer.markdown@, source_views(answer.sources@), answer.source_status)
}

/// The sidebar after a message.
pub open spec fn after_message(
    sidebar: SidebarView,
    progress: AnswerProgress,
    message: UiAgentMessage,
) -> SidebarView {
    let id = progress.request_id;
    match message {
        UiAgentMessage::Delta(delta) => sidebar.appended(id, delta@),
        UiAgentMessage::Reset => sidebar.answer_reset(id),
        UiAgentMessage::Committed => sidebar,
        UiAgentMessage::Sessions { active_thread_id, threads } => sidebar.with_sessions(
            option_text(active_thread_id),
            thread_views(threads@),
        ),
        UiAgentMessage::Completed(result) => match result {
            Ok(answer) => after_completion(sidebar, progress, answer),
            Err(error) => sidebar.failed(id, friendly_error(error@)),
        },
    }
}

/// How far the answer has come after a message.
pub open spec fn progressed(progress: AnswerProgress, message: UiAgentMessage) -> AnswerProgress {
    match message {
        UiAgentMessage::Delta(_) => AnswerProgress { received_delta: true, ..progress },
        UiAgentMessage::Reset => AnswerProgress {
            received_delta: false,
            answer_committed: false,
            ..progress
        },
        UiAgentMessage::Committed => AnswerProgress { answer_committed: true, ..progress },
        UiAgentMessage::Sessions { active_thread_id, threads } => progress,
        UiAgentMessage::Completed(_) => AnswerProgress { done: true, ..progress },
    }
}

impl AnswerProgress {
    /// The start of an answer.
    pub fn new(request_id: u64) -> (r: Self)
        ensures
            r == (AnswerProgress {
                request_id,
                received_delta: false,
                answer_committed: false,
                done: false,
            }),
    {
        AnswerProgress { request_id, received_delta: false, answer_committed: false, done: false }
    }

    /// Passes a message on to the sidebar.
    pub fn apply(&mut self, message: UiAgentMessage, sidebar: &mut AiSidebar)
        ensures
            *final(self) == progressed(*old(self), message),
            final(sidebar)@ == after_message(old(sidebar)@, *old(self), message),
    {
        let id: u64 = self.request_id;
        match message {
            UiAgentMessage::Delta(delta) => {
                self.received_delta = true;
                let _ = sidebar.append_answer_delta(id, delta.as_str());
            },
            UiAgentMessage::Reset => {
                self.received_delta = false;
                self.answer_committed = false;
                let _ = sidebar.reset_answer(id);
            },
            UiAgentMessage::Committed => {
                self.answer_committed = true;
            },
            UiAgentMessage::Sessions { active_thread_id, threads } => {
                sidebar.refresh_sessions(active_thread_id, threads);
            },
            UiAgentMessage::Completed(result) => {
                self.done = true;
                match result {
                    Ok(answer) => {
                        if !self.answer_committed {
                            let _ = sidebar.reset_answer(id);
                        }
                        if !(self.answer_committed && self.received_delta) {
                            let _ = sidebar.append_answer_delta(id, answer.markdown.as_str());
                        }
                        let _ = sidebar.finish_persisted_answer(
                            id,
                            answer.markdown,
                            answer.sources,
                            answer.source_status,
                        );
                    },
                    Err(error) => {
                        let text = friendly_agent_error(error.as_str());
                        let _ = sidebar.fail_answer(id, text.as_str());
                    },
                }
            },
        }
    }
}

/// Reports that a request could not even be prepared.
pub fn fail_preparation(request_id: u64, error: &str, sidebar: &mut AiSidebar) -> (r: bool)
    ensures
        r == old(sidebar)@.conversation.is_current(request_id),
        final(sidebar)@ == old(sidebar)@.failed(request_id, friendly_error(error@)),
{
    let text = friendly_agent_error(error);
    sidebar.fail_answer(request_id, text.as_str())
}

// ---------------------------------------------------------------------------
// Laws
// ---------------------------------------------------------------------------

/// The result of a task counts only as long as no other task was started, and
/// closing the window counts as starting one.
pub proof fn only_the_last_task_counts(generation: u64)
    ensures
        next_generation(generation) != generation,
{
}

/// Whether a sidebar goes on showing its conversation once the answer is complete:
/// no change of scope waits that would close it.
pub open spec fn stays_open(sidebar: SidebarView) -> bool {
    !sidebar.pending_scope_sync || !sidebar.active_is_unauthorized()
}

/// While the pieces of an answer have not been confirmed as the one that was
/// stored, they are replaced by the stored one; the reader ends up with what was
/// stored.
pub proof fn an_unconfirmed_answer_is_replaced(
    sidebar: SidebarView,
    progress: AnswerProgress,
    answer: UiConversationAnswer,
)
    requires
        sidebar.conversation.is_current(progress.request_id),
        !progress.answer_committed,
        0 < answer.markdown@.len(),
        byte_len(answer.markdown@) <= MAX_MESSAGE_BYTES,
        stays_open(sidebar),
    ensures
        after_completion(sidebar, progress, answer).conversation.answer_so_far(progress.request_id)
            == answer.markdown@,
{
    lemma_reset_leaves_nothing(sidebar, progress.request_id);
    lemma_stored_answer_is_shown(
        sidebar.answer_reset(progress.request_id),
        progress.request_id,
        answer,
    );
}

/// Pieces that were confirmed as the stored answer are kept as they came.
pub proof fn a_confirmed_answer_is_kept(
    sidebar: SidebarView,
    progress: AnswerProgress,
    answer: UiConversationAnswer,
)
    requires
        sidebar.conversation.is_current(progress.request_id),
        progress.answer_committed,
        progress.received_delta,
        answer_index(sidebar.conversation.messages, progress.request_id) is Some,
        stays_open(sidebar),
    ensures
        after_completion(sidebar, progress, answer).conversation.answer_so_far(progress.request_id)
            == sidebar.conversation.answer_so_far(progress.request_id),
{
    a_finished_answer_keeps_its_text(
        sidebar.conversation,
        progress.request_id,
        source_views(answer.sources@),
        answer.source_status,
    );
}

/// Where no piece came, the stored answer is shown.
pub proof fn an_answer_without_pieces_is_shown(
    sidebar: SidebarView,
    progress: AnswerProgress,
    answer: UiConversationAnswer,
)
    requires
        sidebar.conversation.is_current(progress.request_id),
        progress.answer_committed,
        !progress.received_delta,
        answer_index(sidebar.conversation.messages, progress.request_id) is None,
        0 < answer.markdown@.len(),
        byte_len(answer.markdown@) <= MAX_MESSAGE_BYTES,
        stays_open(sidebar),
    ensures
        after_completion(sidebar, progress, answer).conversation.answer_so_far(progress.request_id)
            == answer.markdown@,
{
    lemma_stored_answer_is_shown(sidebar, progress.request_id, answer);
}

/// Where neither a piece came nor the stored answer can be shown, because it is
/// empty or too long, the reader is told that there is no text.
pub proof fn an_answer_without_text_is_named(
    sidebar: SidebarView,
    progress: AnswerProgress,
    answer: UiConversationAnswer,
)
    requires
        sidebar.conversation.is_current(progress.request_id),
        progress.answer_committed ==> answer_index(
            sidebar.conversation.messages,
            progress.request_id,
        ) is None,
        answer.markdown@.len() == 0 || byte_len(answer.markdown@) > MAX_MESSAGE_BYTES,
        stays_open(sidebar),
    ensures
        after_completion(sidebar, progress, answer).conversation.answer_so_far(progress.request_id)
            == "模型没有返回文本。"@,
{
    let id = progress.request_id;
    lemma_reset_leaves_nothing(sidebar, id);
    let checked = if progress.answer_committed {
        sidebar
    } else {
        sidebar.answer_reset(id)
    };
    an_unanswered_request_is_named(
        checked.conversation,
        id,
        source_views(answer.sources@),
        answer.source_status,
    );
}

proof fn lemma_reset_leaves_nothing(sidebar: SidebarView, id: u64)
    requires
        sidebar.conversation.is_current(id),
    ensures
        answer_index(sidebar.answer_reset(id).conversation.messages, id) is None,
        sidebar.answer_reset(id).conversation.is_current(id),
        stays_open(sidebar) ==> stays_open(sidebar.answer_reset(id)),
{
    an_unfinished_answer_leaves_nothing(sidebar.conversation, id, Seq::empty());
    if !sidebar.has_answer(id) {
        lemma_filter_same_length(sidebar.conversation.messages, not_answering(id));
    }
}

proof fn lemma_stored_answer_is_shown(sidebar: SidebarView, id: u64, answer: UiConversationAnswer)
    requires
        sidebar.conversation.is_current(id),
        answer_index(sidebar.conversation.messages, id) is None,
        0 < answer.markdown@.len(),
        byte_len(answer.markdown@) <= MAX_MESSAGE_BYTES,
        stays_open(sidebar),
    ensures
        sidebar.appended(id, answer.markdown@).finished(
            id,
            answer.markdown@,
            source_views(answer.sources@),
            answer.source_status,
        ).conversation.answer_so_far(id) == answer.markdown@,
{
    assert(sidebar.conversation.answer_so_far(id) =~= Seq::<char>::empty());
    assert(sidebar.conversation.can_append(id, answer.markdown@));
    an_answer_is_its_pieces_in_order(sidebar.conversation, id, answer.markdown@);
    let shown = sidebar.appended(id, answer.markdown@);
    assert(Seq::<char>::empty() + answer.markdown@ =~= answer.markdown@);
    a_finished_answer_keeps_its_text(
        shown.conversation,
        id,
        source_views(answer.sources@),
        answer.source_status,
    );
}

} // verus!
