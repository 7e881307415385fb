//! The AI sidebar: a conversation, the stored ones, and what the window that
//! owns the sidebar is told.

use crate::conversation::{
    message_views, next_after, AiMessage, AiMessageRole, AiQuestionRequest, ConversationState,
    ConversationView, MessageView, QuestionView, RequestState, MAX_MESSAGE_BYTES,
};
use crate::endpoint::{AiEndpointStatus, StatusView};
use crate::references::{hint_views, same_hints, AiReferenceHint, HintView, KeyView};
use crate::scope::{AiSidebarScope, ScopeView};
use crate::sessions::{
    authorized_thread_options, authorized_threads, find_thread, is_authorized,
    thread_scope_is_authorized, thread_views, thread_with_id, AiThreadOption,
    PendingSessionDeletion, SessionPickerState, SessionsView, ThreadView,
};
use crate::sources::{
    allowed_source, allowed_source_links, source_views, AgentAnswerSourceStatus, AiSourceLink,
    SourceLinkView,
};
use crate::text::{
    byte_len, byte_length, copy_option, option_text, same_option_text, same_text, texts,
};
use vstd::prelude::*;
use vstd::string::*;

verus! {

/// Who a stored message is from.
#[derive(Clone, Copy, Debug, PartialEq, Eq, Structural)]
pub enum AiRestoredRole {
    User,
    Assistant,
}

/// A stored message.
#[derive(Debug, PartialEq, Eq)]
pub struct AiRestoredMessage {
    pub role: AiRestoredRole,
    pub content: String,
    pub sources: Vec<AiSourceLink>,
    pub source_status: Option<AgentAnswerSourceStatus>,
}

/// A stored message, as texts.
pub struct RestoredView {
    pub role: AiRestoredRole,
    pub content: Seq<char>,
    pub sources: Seq<SourceLinkView>,
    pub source_status: Option<AgentAnswerSourceStatus>,
}

impl View for AiRestoredMessage {
    type V = RestoredView;

    open spec fn view(&self) -> RestoredView {
        RestoredView {
            role: self.role,
            content: self.content@,
            sources: source_views(self.sources@),
            source_status: self.source_status,
        }
    }
}

/// The stored messages that a list holds.
pub open spec fn restored_views(messages: Seq<AiRestoredMessage>) -> Seq<RestoredView> {
    messages.map_values(|m: AiRestoredMessage| m@)
}

/// What the sidebar asks the owning window to do.
#[derive(Debug, PartialEq, Eq)]
pub enum AiSidebarEvent {
    Submit(AiQuestionRequest),
    Cancel { request_id: u64 },
    NewSession,
    SwitchSession { thread_id: String },
    DeleteSession { thread_id: String },
    ScopeChanged { book_ids: Vec<String> },
    OpenSource(AiSourceLink),
}

/// Published once for an awaited answer after it was stored.
#[derive(Debug, PartialEq, Eq)]
pub struct AiAnswerCompleted {
    pub request_id: u64,
    pub markdown: String,
}

/// Published right before the question of an explanation is.
#[derive(Debug, PartialEq, Eq)]
pub struct AiExplanationSubmitted {
    pub request_id: u64,
}

/// Published where an explanation came to nothing.
#[derive(Debug, PartialEq, Eq)]
pub struct AiExplanationFailed {
    /// Nothing where the explanation failed before its question was sent.
    pub request_id: Option<u64>,
    pub error: String,
}

/// Something that the owning window is told.
#[derive(Debug, PartialEq, Eq)]
pub enum SidebarSignal {
    /// The sidebar is to be drawn anew.
    Notify,
    /// The text of the question was taken and is to be cleared.
    ClearInput,
    Event(AiSidebarEvent),
    Completed(AiAnswerCompleted),
    ExplanationSubmitted(AiExplanationSubmitted),
    ExplanationFailed(AiExplanationFailed),
}

/// Something that the owning window is told, as texts.
pub enum SignalView {
    Notify,
    ClearInput,
    Submit(QuestionView),
    Cancel(u64),
    NewSession,
    SwitchSession(Seq<char>),
    DeleteSession(Seq<char>),
    ScopeChanged(Seq<Seq<char>>),
    OpenSource(SourceLinkView),
    Completed(u64, Seq<char>),
    ExplanationSubmitted(u64),
    ExplanationFailed(Option<u64>, Seq<char>),
}

impl View for SidebarSignal {
    type V = SignalView;

    open spec fn view(&self) -> SignalView {
        match *self {
            SidebarSignal::Notify => SignalView::Notify,
            SidebarSignal::ClearInput => SignalView::ClearInput,
            SidebarSignal::Event(event) => match event {
                AiSidebarEvent::Submit(request) => SignalView::Submit(request@),
                AiSidebarEvent::Cancel { request_id } => SignalView::Cancel(request_id),
                AiSidebarEvent::NewSession => SignalView::NewSession,
                AiSidebarEvent::SwitchSession { thread_id } => SignalView::SwitchSession(
                    thread_id@,
                ),
                AiSidebarEvent::DeleteSession { thread_id } => SignalView::DeleteSession(
                    thread_id@,
                ),
                AiSidebarEvent::ScopeChanged { book_ids } => SignalView::ScopeChanged(
                    texts(book_ids@),
                ),
                AiSidebarEvent::OpenSource(source) => SignalView::OpenSource(source@),
            },
            SidebarSignal::Completed(done) => SignalView::Completed(
                done.request_id,
                done.markdown@,
            ),
            SidebarSignal::ExplanationSubmitted(sent) => SignalView::ExplanationSubmitted(
                sent.request_id,
            ),
            SidebarSignal::ExplanationFailed(failed) => SignalView::ExplanationFailed(
                failed.request_id,
                failed.error@,
            ),
        }
    }
}

/// The signals that a list holds.
pub open spec fn signal_views(signals: Seq<SidebarSignal>) -> Seq<SignalView> {
    signals.map_values(|s: SidebarSignal| s@)
}

/// Whether the sidebar is folded away. It follows the width of the window until
/// it was folded or unfolded by hand.
#[derive(Clone, Copy, Debug, PartialEq, Eq, Structural)]
pub struct ResponsiveSidebar {
    pub collapsed: bool,
    pub narrow: bool,
    pub manual_override: bool,
}

impl ResponsiveSidebar {
    /// The sidebar in a window that is narrow or not.
    pub fn new(narrow: bool) -> (r: Self)
        ensures
            r == (ResponsiveSidebar { collapsed: narrow, narrow, manual_override: false }),
    {
        ResponsiveSidebar { collapsed: narrow, narrow, manual_override: false }
    }

    /// The sidebar after the window has become narrow or wide.
    pub open spec fn resized(self, narrow: bool) -> ResponsiveSidebar {
        ResponsiveSidebar {
            collapsed: if narrow == self.narrow || self.manual_override {
                self.collapsed
            } else {
                narrow
            },
            narrow,
            ..self
        }
    }

    /// Follows the width of the window. The result says whether the sidebar was
    /// folded or unfolded.
    pub fn resize(&mut self, narrow: bool) -> (r: bool)
        ensures
            *final(self) == old(self).resized(narrow),
            r == (final(self).collapsed != old(self).collapsed),
    {
        if narrow == self.narrow {
            return false;
        }
        self.narrow = narrow;
        if self.manual_override || self.collapsed == narrow {
            return false;
        }
        self.collapsed = narrow;
        true
    }

    /// Folds or unfolds the sidebar by hand.
    pub fn toggle(&mut self)
        ensures
            *final(self) == (ResponsiveSidebar {
                collapsed: !old(self).collapsed,
                manual_override: true,
                ..*old(self)
            }),
    {
        self.collapsed = !self.collapsed;
        self.manual_override = true;
    }
}

/// The sidebar. What the owning window has to be told stands in `outbox`, in
/// order, until the window takes it out.
#[derive(Debug)]
pub struct AiSidebar {
    pub conversation: ConversationState,
    pub sessions: SessionPickerState,
    pub selection_explanation_request: Option<u64>,
    pub pending_scope_sync: bool,
    pub layout: ResponsiveSidebar,
    pub endpoint_status: AiEndpointStatus,
    pub outbox: Vec<SidebarSignal>,
}

/// The sidebar, as texts.
pub struct SidebarView {
    pub conversation: ConversationView,
    pub sessions: SessionsView,
    /// The request of the explanation that is under way.
    pub explanation: Option<u64>,
    pub pending_scope_sync: bool,
    pub layout: ResponsiveSidebar,
    pub status: StatusView,
    pub outbox: Seq<SignalView>,
}

impl View for AiSidebar {
    type V = SidebarView;

    open spec fn view(&self) -> SidebarView {
        SidebarView {
            conversation: self.conversation@,
            sessions: self.sessions@,
            explanation: self.selection_explanation_request,
            pending_scope_sync: self.pending_scope_sync,
            layout: self.layout,
            status: self.endpoint_status@,
            outbox: signal_views(self.outbox@),
        }
    }
}

/// Whether a stored message is shown.
pub open spec fn is_shown(message: RestoredView) -> bool {
    0 < message.content.len() && byte_len(message.content) <= MAX_MESSAGE_BYTES
}

/// Stored messages as messages of the conversation, and the next identifier.
pub open spec fn restored_messages(
    allowed: Seq<Seq<char>>,
    next_id: u64,
    messages: Seq<RestoredView>,
) -> (Seq<MessageView>, u64)
    decreases messages.len(),
{
    if messages.len() == 0 {
        (Seq::empty(), next_id)
    } else {
        let (before, id) = restored_messages(allowed, next_id, messages.drop_last());
        let message = messages.last();
        if is_shown(message) {
            (
                before.push(
                    MessageView {
                        id,
                        role: match message.role {
                            AiRestoredRole::User => AiMessageRole::User,
                            AiRestoredRole::Assistant => AiMessageRole::Assistant,
                        },
                        content: message.content,
                        sources: message.sources.filter(allowed_source(allowed)),
                        source_status: message.source_status,
                        request_id: None,
                    },
                ),
                next_after(id),
            )
        } else {
            (before, id)
        }
    }
}

impl SidebarView {
    /// A sidebar in which nothing was done.
    pub open spec fn initial(scope: ScopeView, narrow: bool, status: StatusView) -> SidebarView {
        SidebarView {
            conversation: ConversationView::initial(scope),
            sessions: SessionsView::initial(),
            explanation: None,
            pending_scope_sync: false,
            layout: ResponsiveSidebar { collapsed: narrow, narrow, manual_override: false },
            status,
            outbox: Seq::empty(),
        }
    }

    /// With one more thing to tell.
    pub open spec fn telling(self, signal: SignalView) -> SidebarView {
        SidebarView { outbox: self.outbox.push(signal), ..self }
    }

    /// Whether an answer is awaited.
    pub open spec fn is_sending(self) -> bool {
        !(self.conversation.request is Idle)
    }

    /// Whether an operation on the stored conversations may start.
    pub open spec fn is_ready(self) -> bool {
        !self.is_sending() && !self.pending_scope_sync && !self.sessions.busy
    }

    /// After such an operation was asked for.
    pub open spec fn operating(self) -> SidebarView {
        if self.is_ready() {
            (SidebarView { sessions: self.sessions.begun(), ..self }).telling(SignalView::Notify)
        } else {
            self
        }
    }

    /// After an operation was asked for that the window is told of.
    pub open spec fn requested(self, signal: SignalView) -> SidebarView {
        if self.is_ready() {
            self.operating().telling(signal)
        } else {
            self
        }
    }

    /// Unfolded, with an error that leaves everything under way alone.
    pub open spec fn showing_error(self, error: Seq<char>) -> SidebarView {
        (SidebarView {
            layout: ResponsiveSidebar { collapsed: false, manual_override: true, ..self.layout },
            sessions: SessionsView { error: Some(error), ..self.sessions },
            ..self
        }).telling(SignalView::Notify)
    }

    /// After an explanation was turned down before its question was sent.
    pub open spec fn rejected(self, error: Seq<char>) -> SidebarView {
        self.showing_error(error).telling(SignalView::ExplanationFailed(None, error))
    }

    /// Whether the open conversation speaks of books that are not allowed.
    pub open spec fn active_is_unauthorized(self) -> bool {
        match self.sessions.active {
            None => false,
            Some(active) => match thread_with_id(self.sessions.threads, active) {
                None => true,
                Some(thread) => !is_authorized(thread, self.conversation.scope.book_ids()),
            },
        }
    }

    /// After the scope changed: the owning window is told, at once or as soon as
    /// nothing else is under way. A conversation on books that are no longer
    /// allowed is closed.
    pub open spec fn synchronizing(self) -> SidebarView {
        if self.is_sending() || self.sessions.busy {
            (SidebarView { pending_scope_sync: true, ..self }).telling(SignalView::Notify)
        } else {
            let closed = if self.active_is_unauthorized() {
                SidebarView {
                    sessions: SessionsView { active: None, ..self.sessions },
                    conversation: ConversationView {
                        messages: Seq::empty(),
                        included: Seq::empty(),
                        ..self.conversation
                    },
                    ..self
                }
            } else {
                self
            };
            (SidebarView {
                pending_scope_sync: false,
                sessions: closed.sessions.begun(),
                ..closed
            }).telling(SignalView::ScopeChanged(self.conversation.scope.book_ids())).telling(
                SignalView::Notify,
            )
        }
    }

    /// After something under way has come to its end.
    pub open spec fn resumed(self) -> SidebarView {
        if self.pending_scope_sync && !self.is_sending() && !self.sessions.busy {
            self.synchronizing()
        } else {
            self
        }
    }

    /// After the owning window has set a scope.
    pub open spec fn with_scope(self, scope: ScopeView) -> SidebarView {
        let conversation = self.conversation.with_scope(scope);
        if crate::conversation::carried_scope(self.conversation.scope, scope)
            == self.conversation.scope {
            self
        } else {
            (SidebarView { conversation, ..self }).synchronizing()
        }
    }

    /// After the owning window has offered references.
    pub open spec fn with_hints(self, references: Seq<HintView>) -> SidebarView {
        if self.conversation.hints == references {
            self
        } else {
            (SidebarView {
                conversation: self.conversation.with_hints(references),
                ..self
            }).telling(SignalView::Notify)
        }
    }

    /// With a stored conversation open, before anything that waited goes on.
    pub open spec fn opened(
        self,
        active: Option<Seq<char>>,
        threads: Seq<ThreadView>,
        messages: Seq<RestoredView>,
    ) -> SidebarView {
        let allowed = self.conversation.scope.book_ids();
        let sessions = self.sessions.applied(active, authorized_threads(threads, allowed));
        let (restored, next_id) = if active == sessions.active {
            restored_messages(allowed, self.conversation.next_id, messages)
        } else {
            (Seq::<MessageView>::empty(), self.conversation.next_id)
        };
        (SidebarView {
            sessions,
            conversation: ConversationView {
                included: Seq::empty(),
                messages: restored,
                next_id,
                ..self.conversation
            },
            ..self
        }).telling(SignalView::Notify)
    }

    /// After a stored conversation was read. It is not shown while an answer is
    /// awaited.
    pub open spec fn with_session(
        self,
        active: Option<Seq<char>>,
        threads: Seq<ThreadView>,
        messages: Seq<RestoredView>,
    ) -> SidebarView {
        if self.is_sending() {
            self
        } else {
            self.opened(active, threads, messages).resumed()
        }
    }

    /// After the list of stored conversations was read anew.
    pub open spec fn with_sessions(
        self,
        active: Option<Seq<char>>,
        threads: Seq<ThreadView>,
    ) -> SidebarView {
        let allowed = self.conversation.scope.book_ids();
        let sessions = self.sessions.refreshed(active, authorized_threads(threads, allowed));
        (SidebarView {
            sessions,
            conversation: if sessions.active == self.sessions.active {
                self.conversation
            } else {
                ConversationView {
                    included: Seq::empty(),
                    ..self.conversation.only_current_request()
                }
            },
            ..self
        }).telling(SignalView::Notify).resumed()
    }

    /// After an operation on the stored conversations failed.
    pub open spec fn with_session_error(self, error: Seq<char>) -> SidebarView {
        (SidebarView { sessions: self.sessions.failed(error), ..self }).telling(
            SignalView::Notify,
        ).resumed()
    }

    /// After the fresh conversation for an explanation was started.
    pub open spec fn explaining(self, threads: Seq<ThreadView>, reference: HintView) -> SidebarView {
        let ready = self.with_session(None, threads, Seq::empty());
        if self.is_sending() || ready.sessions.busy || ready.pending_scope_sync {
            ready.rejected("AI 图书范围正在更新，请更新完成后再次使用 AI 解释。"@)
        } else if !ready.conversation.can_explain(reference) {
            ready.rejected("所选文本已不在当前 AI 范围内，请重新选择后再试。"@)
        } else {
            let request = ready.conversation.cleared_for(reference).request_for(
                crate::conversation::SELECTION_EXPLANATION_QUESTION@,
            );
            (SidebarView {
                conversation: ready.conversation.explaining(reference),
                explanation: Some(request.request_id),
                ..ready
            }).telling(SignalView::ExplanationSubmitted(request.request_id)).telling(
                SignalView::Submit(request),
            ).telling(SignalView::Notify)
        }
    }

    /// With the explanation that a request was for reported as failed.
    pub open spec fn explanation_failed(self, request_id: u64, error: Seq<char>) -> SidebarView {
        if self.explanation == Some(request_id) {
            (SidebarView { explanation: None, ..self }).telling(
                SignalView::ExplanationFailed(Some(request_id), error),
            )
        } else {
            self
        }
    }

    /// After a piece of an answer has come.
    pub open spec fn appended(self, request_id: u64, delta: Seq<char>) -> SidebarView {
        if self.conversation.can_append(request_id, delta) {
            (SidebarView {
                conversation: self.conversation.appended(request_id, delta),
                ..self
            }).telling(SignalView::Notify)
        } else {
            self
        }
    }

    /// Whether some of the awaited answer has come.
    pub open spec fn has_answer(self, request_id: u64) -> bool {
        self.conversation.is_current(request_id) && self.conversation.messages.filter(
            crate::conversation::not_answering(request_id),
        ).len() != self.conversation.messages.len()
    }

    /// After the answer was withdrawn in order to be given anew.
    pub open spec fn answer_reset(self, request_id: u64) -> SidebarView {
        if self.has_answer(request_id) {
            (SidebarView { conversation: self.conversation.reset(request_id), ..self }).telling(
                SignalView::Notify,
            )
        } else {
            self
        }
    }

    /// After the awaited answer was stored.
    pub open spec fn finished(
        self,
        request_id: u64,
        markdown: Seq<char>,
        sources: Seq<SourceLinkView>,
        status: AgentAnswerSourceStatus,
    ) -> SidebarView {
        if self.conversation.is_current(request_id) {
            (SidebarView {
                conversation: self.conversation.finished(request_id, sources, status),
                explanation: if self.explanation == Some(request_id) {
                    None
                } else {
                    self.explanation
                },
                ..self
            }).telling(SignalView::Completed(request_id, markdown)).telling(
                SignalView::Notify,
            ).resumed()
        } else {
            self.resumed()
        }
    }

    /// After the awaited answer failed.
    pub open spec fn failed(self, request_id: u64, error: Seq<char>) -> SidebarView {
        if self.conversation.is_current(request_id) {
            (SidebarView {
                conversation: self.conversation.failed(request_id, error),
                ..self
            }).explanation_failed(request_id, error).telling(SignalView::Notify).resumed()
        } else {
            self.resumed()
        }
    }

    /// After the awaited answer was called off.
    pub open spec fn cancelled(self) -> SidebarView {
        match self.conversation.request {
            RequestState::Idle => self,
            RequestState::Sending { request_id } => (SidebarView {
                conversation: self.conversation.cancelled(),
                ..self
            }).telling(SignalView::Cancel(request_id)).explanation_failed(
                request_id,
                "本次 AI 解释已取消。"@,
            ).telling(SignalView::Notify),
        }
    }

    /// After a question was entered.
    pub open spec fn submitted(self, question: Seq<char>) -> SidebarView {
        if self.sessions.busy || self.pending_scope_sync || !self.conversation.can_ask(question) {
            self
        } else {
            (SidebarView { conversation: self.conversation.asked(question), ..self }).telling(
                SignalView::ClearInput,
            ).telling(SignalView::Submit(self.conversation.request_for(question))).telling(
                SignalView::Notify,
            )
        }
    }

    /// After the deletion of a conversation was asked for, which is to be
    /// confirmed.
    pub open spec fn confirming(self, thread_id: Seq<char>) -> SidebarView {
        if !self.is_ready() {
            self
        } else {
            match authorized_with_id(
                self.sessions.threads,
                thread_id,
                self.conversation.scope.book_ids(),
            ) {
                None => (SidebarView {
                    sessions: SessionsView {
                        error: Some("该会话已不存在或不在当前图书范围内。"@),
                        ..self.sessions
                    },
                    ..self
                }).telling(SignalView::Notify),
                Some(thread) => (SidebarView {
                    sessions: SessionsView {
                        error: None,
                        pending_delete: Some((thread.id, thread.title)),
                        ..self.sessions
                    },
                    ..self
                }).telling(SignalView::Notify),
            }
        }
    }
}

/// The first conversation with an identifier that is on allowed books.
pub open spec fn authorized_with_id(
    threads: Seq<ThreadView>,
    id: Seq<char>,
    allowed: Seq<Seq<char>>,
) -> Option<ThreadView>
    decreases threads.len(),
{
    if threads.len() == 0 {
        None
    } else if threads[0].id == id && is_authorized(threads[0], allowed) {
        Some(threads[0])
    } else {
        authorized_with_id(threads.drop_first(), id, allowed)
    }
}

fn find_authorized(threads: &Vec<AiThreadOption>, id: &str, allowed: &Vec<String>) -> (r: Option<
    usize,
>)
    ensures
        match r {
            Some(i) => i < threads@.len() && authorized_with_id(
                thread_views(threads@),
                id@,
                texts(allowed@),
            ) == Some(threads@[i as int]@),
            None => authorized_with_id(thread_views(threads@), id@, texts(allowed@)) is None,
        },
{
    let ghost all = thread_views(threads@);
    let mut i: usize = 0;
    assert(all.subrange(0, all.len() as int) =~= all);
    while i < threads.len()
        invariant
            i <= threads@.len(),
            all == thread_views(threads@),
            authorized_with_id(all.subrange(i as int, all.len() as int), id@, texts(allowed@))
                == authorized_with_id(all, id@, texts(allowed@)),
        decreases threads@.len() - i,
    {
        let ghost here = all.subrange(i as int, all.len() as int);
        proof {
            assert(here[0] == threads@[i as int]@);
            assert(here.drop_first() =~= all.subrange(i + 1, all.len() as int));
        }
        if same_text(threads[i].id.as_str(), id) && thread_scope_is_authorized(
            &threads[i],
            allowed,
        ) {
            return Some(i);
        }
        i = i + 1;
    }
    None
}

/// Takes stored messages into a conversation that has none.
fn restore_messages(
    conversation: &mut ConversationState,
    allowed: &Vec<String>,
    messages: &Vec<AiRestoredMessage>,
)
    requires
        old(conversation)@.messages.len() == 0,
    ensures
        ({
            let (restored, next_id) = restored_messages(
                texts(allowed@),
                old(conversation)@.next_id,
                restored_views(messages@),
            );
            final(conversation)@ == (ConversationView {
                messages: restored,
                next_id,
                ..old(conversation)@
            })
        }),
{
    let ghost all = restored_views(messages@);
    let ghost start = old(conversation)@.next_id;
    let mut i: usize = 0;
    proof {
        assert(all.subrange(0, 0) =~= Seq::<RestoredView>::empty());
        assert(conversation@.messages =~= Seq::<MessageView>::empty());
    }
    while i < messages.len()
        invariant
            i <= messages@.len(),
            all == restored_views(messages@),
            start == old(conversation)@.next_id,
            ({
                let (restored, next_id) = restored_messages(
                    texts(allowed@),
                    start,
                    all.subrange(0, i as int),
                );
                conversation@ == (ConversationView {
                    messages: restored,
                    next_id,
                    ..old(conversation)@
                })
            }),
        decreases messages@.len() - i,
    {
        proof {
            assert(all.subrange(0, i + 1).drop_last() =~= all.subrange(0, i as int));
            assert(all.subrange(0, i + 1).last() == messages@[i as int]@);
        }
        if !messages[i].content.as_str().is_empty() && byte_length(messages[i].content.as_str())
            <= MAX_MESSAGE_BYTES {
            let id: u64 = conversation.take_id();
            let message = AiMessage {
                id,
                role: match messages[i].role {
                    AiRestoredRole::User => AiMessageRole::User,
                    AiRestoredRole::Assistant => AiMessageRole::Assistant,
                },
                content: messages[i].content.clone(),
                sources: allowed_source_links(allowed, &messages[i].sources),
                source_status: messages[i].source_status,
                request_id: None,
            };
            let ghost had = conversation.messages@;
            conversation.messages.push(message);
            assert(message_views(conversation.messages@) =~= message_views(had).push(message@));
        }
        i = i + 1;
    }
    assert(all.subrange(0, all.len() as int) =~= all);
}

impl AiSidebar {
    /// A sidebar in a window that is narrow or not.
    pub fn new(scope: AiSidebarScope, narrow: bool, endpoint_status: AiEndpointStatus) -> (r: Self)
        ensures
            r@ == SidebarView::initial(scope@, narrow, endpoint_status@),
    {
        let r = AiSidebar {
            conversation: ConversationState::new(scope),
            sessions: SessionPickerState::default(),
            selection_explanation_request: None,
            pending_scope_sync: false,
            layout: ResponsiveSidebar::new(narrow),
            endpoint_status,
            outbox: Vec::new(),
        };
        assert(r@.outbox =~= Seq::<SignalView>::empty());
        r
    }

    fn tell(&mut self, signal: SidebarSignal)
        ensures
            final(self)@ == old(self)@.telling(signal@),
    {
        let ghost had = self.outbox@;
        self.outbox.push(signal);
        assert(signal_views(self.outbox@) =~= signal_views(had).push(signal@));
    }

    /// Hands over what the owning window has to be told.
    pub fn take_signals(&mut self) -> (r: Vec<SidebarSignal>)
        ensures
            signal_views(r@) == old(self)@.outbox,
            final(self)@ == (SidebarView { outbox: Seq::empty(), ..old(self)@ }),
    {
        let mut out: Vec<SidebarSignal> = Vec::new();
        core::mem::swap(&mut out, &mut self.outbox);
        assert(signal_views(self.outbox@) =~= Seq::<SignalView>::empty());
        out
    }

    /// Follows the width of the window.
    pub fn resize(&mut self, narrow: bool)
        ensures
            final(self)@ == ({
                let after = SidebarView { layout: old(self)@.layout.resized(narrow), ..old(self)@ };
                if after.layout.collapsed != old(self)@.layout.collapsed {
                    after.telling(SignalView::Notify)
                } else {
                    after
                }
            }),
    {
        if self.layout.resize(narrow) {
            self.tell(SidebarSignal::Notify);
        }
    }

    /// Takes over where the models run.
    pub fn set_endpoint_status(&mut self, status: AiEndpointStatus)
        ensures
            final(self)@ == (if status@ == old(self)@.status {
                old(self)@
            } else {
                (SidebarView { status: status@, ..old(self)@ }).telling(SignalView::Notify)
            }),
    {
        if !self.endpoint_status.same(&status) {
            self.endpoint_status = status;
            self.tell(SidebarSignal::Notify);
        }
    }

    /// Whether the sidebar is folded away.
    pub fn is_collapsed(&self) -> (r: bool)
        ensures
            r == self@.layout.collapsed,
    {
        self.layout.collapsed
    }

    /// Sets the scope.
    pub fn set_scope(&mut self, scope: AiSidebarScope)
        ensures
            final(self)@ == old(self)@.with_scope(scope@),
    {
        if self.conversation.set_scope(scope) {
            self.begin_scope_sync();
        }
    }

    /// The books that the conversation may speak of.
    pub fn authorized_book_ids(&self) -> (r: Vec<String>)
        ensures
            texts(r@) == self@.conversation.scope.book_ids(),
    {
        self.conversation.scope.book_ids()
    }

    /// Offers one reference, or none.
    pub fn set_reference_hint(&mut self, reference: Option<AiReferenceHint>)
        ensures
            final(self)@ == old(self)@.with_hints(
                match reference {
                    Some(reference) => seq![reference@],
                    None => Seq::empty(),
                },
            ),
    {
        let mut references: Vec<AiReferenceHint> = Vec::new();
        match reference {
            Some(reference) => {
                references.push(reference);
                assert(hint_views(references@) =~= seq![reference@]);
            },
            None => {
                assert(hint_views(references@) =~= Seq::<HintView>::empty());
            },
        }
        self.set_reference_hints(references);
    }

    /// Offers references.
    pub fn set_reference_hints(&mut self, references: Vec<AiReferenceHint>)
        ensures
            final(self)@ == old(self)@.with_hints(hint_views(references@)),
    {
        if !same_hints(&self.conversation.reference_hints, &references) {
            self.conversation.set_reference_hints(references);
            self.tell(SidebarSignal::Notify);
        }
    }

    /// Starts an operation on the stored conversations, unless something else is
    /// under way.
    pub fn begin_session_operation(&mut self) -> (r: bool)
        ensures
            r == old(self)@.is_ready(),
            final(self)@ == old(self)@.operating(),
    {
        if self.conversation.is_sending() || self.pending_scope_sync || !self.sessions.begin() {
            return false;
        }
        self.tell(SidebarSignal::Notify);
        true
    }

    /// Unfolds the sidebar and shows an error, which leaves everything under way
    /// alone.
    pub fn show_explanation_error(&mut self, error: &str)
        ensures
            final(self)@ == old(self)@.showing_error(error@),
    {
        self.layout.collapsed = false;
        self.layout.manual_override = true;
        self.sessions.error = Some(error.to_owned());
        self.tell(SidebarSignal::Notify);
    }

    /// Starts an explanation of selected text, unless something else is under
    /// way.
    pub fn begin_selection_explanation(&mut self) -> (r: bool)
        ensures
            r == old(self)@.is_ready(),
            final(self)@ == ({
                let unfolded = SidebarView {
                    layout: ResponsiveSidebar {
                        collapsed: false,
                        manual_override: true,
                        ..old(self)@.layout
                    },
                    ..old(self)@
                };
                if old(self)@.is_ready() {
                    unfolded.operating()
                } else {
                    unfolded.showing_error(
                        "AI 正在处理当前请求，请完成或取消后再使用 AI 解释。"@,
                    )
                }
            }),
    {
        self.layout.collapsed = false;
        self.layout.manual_override = true;
        if !self.begin_session_operation() {
            self.show_explanation_error("AI 正在处理当前请求，请完成或取消后再使用 AI 解释。");
            return false;
        }
        true
    }

    /// Asks for an explanation of selected text, now that a fresh conversation
    /// was started for it.
    pub fn complete_selection_explanation(
        &mut self,
        threads: Vec<AiThreadOption>,
        reference: AiReferenceHint,
    )
        ensures
            final(self)@ == old(self)@.explaining(thread_views(threads@), reference@),
    {
        let no_messages: Vec<AiRestoredMessage> = Vec::new();
        assert(restored_views(no_messages@) =~= Seq::<RestoredView>::empty());
        let applied: bool = self.apply_session(None, threads, no_messages);
        if !applied || self.sessions.busy || self.pending_scope_sync {
            self.reject_selection_explanation(
                "AI 图书范围正在更新，请更新完成后再次使用 AI 解释。",
            );
            return ;
        }
        match self.conversation.begin_selection_explanation(reference) {
            None => {
                self.reject_selection_explanation(
                    "所选文本已不在当前 AI 范围内，请重新选择后再试。",
                );
            },
            Some(request) => {
                let request_id: u64 = request.request_id;
                self.selection_explanation_request = Some(request_id);
                self.tell(
                    SidebarSignal::ExplanationSubmitted(AiExplanationSubmitted { request_id }),
                );
                self.tell(SidebarSignal::Event(AiSidebarEvent::Submit(request)));
                self.tell(SidebarSignal::Notify);
            },
        }
    }

    fn reject_selection_explanation(&mut self, error: &str)
        ensures
            final(self)@ == old(self)@.rejected(error@),
    {
        self.show_explanation_error(error);
        self.tell(
            SidebarSignal::ExplanationFailed(
                AiExplanationFailed { request_id: None, error: error.to_owned() },
            ),
        );
    }

    /// Reports that no fresh conversation could be started for an explanation.
    pub fn fail_selection_explanation_session(&mut self, error: &str)
        ensures
            final(self)@ == old(self)@.with_session_error(error@).telling(
                SignalView::ExplanationFailed(None, error@),
            ),
    {
        self.fail_session_operation(error);
        self.tell(
            SidebarSignal::ExplanationFailed(
                AiExplanationFailed { request_id: None, error: error.to_owned() },
            ),
        );
    }

    fn fail_selection_explanation_request(&mut self, request_id: u64, error: &str)
        ensures
            final(self)@ == old(self)@.explanation_failed(request_id, error@),
    {
        let awaited: bool = match self.selection_explanation_request {
            Some(id) => id == request_id,
            None => false,
        };
        if awaited {
            self.selection_explanation_request = None;
            self.tell(
                SidebarSignal::ExplanationFailed(
                    AiExplanationFailed { request_id: Some(request_id), error: error.to_owned() },
                ),
            );
        }
    }

    fn begin_scope_sync(&mut self)
        ensures
            final(self)@ == old(self)@.synchronizing(),
    {
        if self.conversation.is_sending() || self.sessions.busy {
            self.pending_scope_sync = true;
            self.tell(SidebarSignal::Notify);
            return ;
        }
        let book_ids = self.conversation.scope.book_ids();
        let unauthorized: bool = match &self.sessions.active_thread_id {
            None => false,
            Some(active) => match find_thread(&self.sessions.threads, active.as_str()) {
                None => true,
                Some(i) => !thread_scope_is_authorized(&self.sessions.threads[i], &book_ids),
            },
        };
        if unauthorized {
            self.sessions.active_thread_id = None;
            self.conversation.messages = Vec::new();
            self.conversation.included_references = Vec::new();
            assert(self.conversation@.messages =~= Seq::<MessageView>::empty());
            assert(self.conversation@.included =~= Seq::<KeyView>::empty());
        }
        self.pending_scope_sync = false;
        if self.sessions.begin() {
            self.tell(SidebarSignal::Event(AiSidebarEvent::ScopeChanged { book_ids }));
        }
        self.tell(SidebarSignal::Notify);
    }

    fn resume_pending_scope_sync(&mut self)
        ensures
            final(self)@ == old(self)@.resumed(),
    {
        if self.pending_scope_sync && !self.conversation.is_sending() && !self.sessions.busy {
            self.begin_scope_sync();
        }
    }

    /// Shows a stored conversation, unless an answer is awaited.
    pub fn apply_session(
        &mut self,
        active_thread_id: Option<String>,
        threads: Vec<AiThreadOption>,
        messages: Vec<AiRestoredMessage>,
    ) -> (r: bool)
        ensures
            r == !old(self)@.is_sending(),
            final(self)@ == old(self)@.with_session(
                option_text(active_thread_id),
                thread_views(threads@),
                restored_views(messages@),
            ),
    {
        if self.conversation.is_sending() {
            return false;
        }
        let allowed = self.conversation.scope.book_ids();
        let requested = copy_option(&active_thread_id);
        let authorized = authorized_thread_options(threads, &allowed);
        self.sessions.apply(active_thread_id, authorized);
        self.conversation.included_references = Vec::new();
        self.conversation.messages = Vec::new();
        assert(self.conversation@.messages =~= Seq::<MessageView>::empty());
        assert(self.conversation@.included =~= Seq::<KeyView>::empty());
        proof {
            crate::sessions::offered_threads_are_the_authorized_ones(
                thread_views(threads@),
                texts(allowed@),
            );
        }
        if same_option_text(&requested, &self.sessions.active_thread_id) {
            restore_messages(&mut self.conversation, &allowed, &messages);
        }
        self.tell(SidebarSignal::Notify);
        self.resume_pending_scope_sync();
        true
    }

    /// Takes over the list of stored conversations.
    pub fn refresh_sessions(
        &mut self,
        active_thread_id: Option<String>,
        threads: Vec<AiThreadOption>,
    )
        ensures
            final(self)@ == old(self)@.with_sessions(
                option_text(active_thread_id),
                thread_views(threads@),
            ),
    {
        let previous = copy_option(&self.sessions.active_thread_id);
        let allowed = self.conversation.scope.book_ids();
        let authorized = authorized_thread_options(threads, &allowed);
        self.sessions.refresh(active_thread_id, authorized);
        if !same_option_text(&previous, &self.sessions.active_thread_id) {
            self.conversation.retain_current_request_messages();
            self.conversation.included_references = Vec::new();
            assert(self.conversation@.included =~= Seq::<KeyView>::empty());
        }
        self.tell(SidebarSignal::Notify);
        self.resume_pending_scope_sync();
    }

    /// Reports that an operation on the stored conversations failed.
    pub fn fail_session_operation(&mut self, error: &str)
        ensures
            final(self)@ == old(self)@.with_session_error(error@),
    {
        self.sessions.fail(error);
        self.tell(SidebarSignal::Notify);
        self.resume_pending_scope_sync();
    }

    /// Takes a piece of an answer. The result is false exactly where the request
    /// was called off or another one took its place; then nothing changes. A piece
    /// that is empty, or with which the answer would be too long, is left out while
    /// the request goes on.
    pub fn append_answer_delta(&mut self, request_id: u64, delta: &str) -> (r: bool)
        ensures
            r == old(self)@.conversation.is_current(request_id),
            final(self)@ == old(self)@.appended(request_id, delta@),
            !r ==> final(self)@ == old(self)@,
    {
        let current: bool = self.conversation.is_current(request_id);
        if self.conversation.append_delta(request_id, delta) {
            self.tell(SidebarSignal::Notify);
        }
        current
    }

    /// Withdraws an answer as far as it has come.
    pub fn reset_answer(&mut self, request_id: u64) -> (r: bool)
        ensures
            r == old(self)@.has_answer(request_id),
            final(self)@ == old(self)@.answer_reset(request_id),
    {
        let changed: bool = self.conversation.reset_answer(request_id);
        if changed {
            self.tell(SidebarSignal::Notify);
        } else {
            proof {
                if old(self)@.conversation.is_current(request_id) {
                    crate::seqs::lemma_filter_same_length(
                        old(self)@.conversation.messages,
                        crate::conversation::not_answering(request_id),
                    );
                }
            }
        }
        changed
    }

    /// Completes an answer with the text that was stored.
    pub fn finish_persisted_answer(
        &mut self,
        request_id: u64,
        markdown: String,
        sources: Vec<AiSourceLink>,
        source_status: AgentAnswerSourceStatus,
    ) -> (r: bool)
        ensures
            r == old(self)@.conversation.is_current(request_id),
            final(self)@ == old(self)@.finished(
                request_id,
                markdown@,
                source_views(sources@),
                source_status,
            ),
    {
        let changed: bool = self.conversation.finish(request_id, sources, source_status);
        if changed {
            let explained: bool = match self.selection_explanation_request {
                Some(id) => id == request_id,
                None => false,
            };
            if explained {
                self.selection_explanation_request = None;
            }
            self.tell(SidebarSignal::Completed(AiAnswerCompleted { request_id, markdown }));
            self.tell(SidebarSignal::Notify);
        }
        self.resume_pending_scope_sync();
        changed
    }

    /// Ends an answer with an error.
    pub fn fail_answer(&mut self, request_id: u64, error: &str) -> (r: bool)
        ensures
            r == old(self)@.conversation.is_current(request_id),
            final(self)@ == old(self)@.failed(request_id, error@),
    {
        let changed: bool = self.conversation.fail(request_id, error);
        if changed {
            self.fail_selection_explanation_request(request_id, error);
            self.tell(SidebarSignal::Notify);
        }
        self.resume_pending_scope_sync();
        changed
    }

    /// Calls the awaited answer off before the window is closed.
    pub fn cancel_for_window_close(&mut self) -> (r: Option<u64>)
        ensures
            r == (match old(self)@.conversation.request {
                RequestState::Sending { request_id } => Some(request_id),
                RequestState::Idle => None,
            }),
            final(self)@ == old(self)@.cancelled(),
    {
        match self.conversation.cancel() {
            None => None,
            Some(request_id) => {
                self.tell(SidebarSignal::Event(AiSidebarEvent::Cancel { request_id }));
                self.fail_selection_explanation_request(request_id, "本次 AI 解释已取消。");
                self.tell(SidebarSignal::Notify);
                Some(request_id)
            },
        }
    }

    /// Sends the question that was entered.
    pub fn submit(&mut self, question: &str)
        ensures
            final(self)@ == old(self)@.submitted(question@),
    {
        if self.sessions.busy || self.pending_scope_sync {
            return ;
        }
        if let Some(request) = self.conversation.begin(question) {
            self.tell(SidebarSignal::ClearInput);
            self.tell(SidebarSignal::Event(AiSidebarEvent::Submit(request)));
            self.tell(SidebarSignal::Notify);
        }
    }

    /// Calls the awaited answer off.
    pub fn cancel(&mut self)
        ensures
            final(self)@ == old(self)@.cancelled(),
    {
        let _ = self.cancel_for_window_close();
    }

    /// Opens or closes the list of stored conversations.
    pub fn toggle_session_picker(&mut self)
        ensures
            final(self)@ == (if old(self)@.is_ready() {
                (SidebarView {
                    sessions: SessionsView {
                        open: !old(self)@.sessions.open,
                        error: None,
                        pending_delete: None,
                        ..old(self)@.sessions
                    },
                    ..old(self)@
                }).telling(SignalView::Notify)
            } else {
                old(self)@
            }),
    {
        if self.sessions.busy || self.pending_scope_sync || self.conversation.is_sending() {
            return ;
        }
        self.sessions.open = !self.sessions.open;
        self.sessions.error = None;
        self.sessions.pending_delete = None;
        self.tell(SidebarSignal::Notify);
    }

    /// Asks for a new conversation.
    pub fn new_session(&mut self)
        ensures
            final(self)@ == old(self)@.requested(SignalView::NewSession),
    {
        if self.begin_session_operation() {
            self.tell(SidebarSignal::Event(AiSidebarEvent::NewSession));
        }
    }

    /// Asks for a stored conversation; the list is closed where it is open
    /// already.
    pub fn switch_session(&mut self, thread_id: &str)
        ensures
            final(self)@ == (if old(self)@.sessions.active == Some(thread_id@) {
                (SidebarView {
                    sessions: SessionsView { open: false, ..old(self)@.sessions },
                    ..old(self)@
                }).telling(SignalView::Notify)
            } else {
                old(self)@.requested(SignalView::SwitchSession(thread_id@))
            }),
    {
        let active: bool = match &self.sessions.active_thread_id {
            Some(id) => same_text(id.as_str(), thread_id),
            None => false,
        };
        if active {
            self.sessions.open = false;
            self.tell(SidebarSignal::Notify);
            return ;
        }
        if self.begin_session_operation() {
            self.tell(
                SidebarSignal::Event(
                    AiSidebarEvent::SwitchSession { thread_id: thread_id.to_owned() },
                ),
            );
        }
    }

    /// Asks whether a stored conversation is to be deleted.
    pub fn confirm_delete_session(&mut self, thread_id: &str)
        ensures
            final(self)@ == old(self)@.confirming(thread_id@),
    {
        if self.sessions.busy || self.pending_scope_sync || self.conversation.is_sending() {
            return ;
        }
        let allowed = self.conversation.scope.book_ids();
        match find_authorized(&self.sessions.threads, thread_id, &allowed) {
            None => {
                self.sessions.error = Some("该会话已不存在或不在当前图书范围内。".to_owned());
                self.tell(SidebarSignal::Notify);
            },
            Some(i) => {
                let pending = PendingSessionDeletion {
                    thread_id: self.sessions.threads[i].id.clone(),
                    title: self.sessions.threads[i].title.clone(),
                };
                self.sessions.pending_delete = Some(pending);
                self.sessions.error = None;
                self.tell(SidebarSignal::Notify);
            },
        }
    }

    /// Leaves the conversation undeleted that was to be.
    pub fn cancel_delete_session(&mut self)
        ensures
            final(self)@ == (if old(self)@.sessions.pending_delete is Some {
                (SidebarView {
                    sessions: SessionsView { pending_delete: None, ..old(self)@.sessions },
                    ..old(self)@
                }).telling(SignalView::Notify)
            } else {
                old(self)@
            }),
    {
        if self.sessions.pending_delete.is_some() {
            self.sessions.pending_delete = None;
            self.tell(SidebarSignal::Notify);
        }
    }

    /// Asks for a stored conversation to be deleted.
    pub fn delete_session(&mut self, thread_id: &str) -> (r: bool)
        ensures
            r == old(self)@.is_ready(),
            final(self)@ == old(self)@.requested(SignalView::DeleteSession(thread_id@)),
    {
        if !self.begin_session_operation() {
            return false;
        }
        self.tell(
            SidebarSignal::Event(
                AiSidebarEvent::DeleteSession { thread_id: thread_id.to_owned() },
            ),
        );
        true
    }

    /// Chooses a reference, or drops it where it is chosen.
    pub fn toggle_reference(&mut self, reference: &AiReferenceHint)
        ensures
            final(self)@ == (if old(self)@.conversation.can_toggle(reference@.key()) {
                (SidebarView {
                    conversation: old(self)@.conversation.toggled(reference@.key()),
                    ..old(self)@
                }).telling(SignalView::Notify)
            } else {
                old(self)@
            }),
    {
        if self.conversation.toggle_reference(reference) {
            self.tell(SidebarSignal::Notify);
        }
    }

    /// Folds or unfolds the sidebar by hand.
    pub fn toggle_collapsed(&mut self)
        ensures
            final(self)@ == (SidebarView {
                layout: ResponsiveSidebar {
                    collapsed: !old(self)@.layout.collapsed,
                    manual_override: true,
                    ..old(self)@.layout
                },
                ..old(self)@
            }).telling(SignalView::Notify),
    {
        self.layout.toggle();
        self.tell(SidebarSignal::Notify);
    }

    /// Adds a book to the scope.
    pub fn add_book(&mut self, book_id: &str)
        ensures
            final(self)@ == (if old(self)@.conversation.scope.can_add(book_id@) {
                (SidebarView {
                    conversation: ConversationView {
                        scope: old(self)@.conversation.scope.with_book(book_id@),
                        ..old(self)@.conversation
                    },
                    ..old(self)@
                }).synchronizing()
            } else {
                old(self)@
            }),
    {
        if self.conversation.scope.add_book(book_id) {
            self.begin_scope_sync();
        }
    }

    /// Takes a book out of the scope, and with it what referred to it.
    pub fn remove_book(&mut self, book_id: &str)
        ensures
            final(self)@ == (if old(self)@.conversation.scope.can_remove(book_id@) {
                (SidebarView {
                    conversation: (ConversationView {
                        scope: old(self)@.conversation.scope.without_book(book_id@),
                        ..old(self)@.conversation
                    }).pruned(),
                    ..old(self)@
                }).synchronizing()
            } else {
                old(self)@
            }),
    {
        if self.conversation.scope.remove_book(book_id) {
            self.conversation.prune_references_to_scope();
            self.begin_scope_sync();
        } else {
            proof {
                lemma_nothing_to_remove(old(self)@.conversation.scope, book_id@);
            }
        }
    }

    /// Asks for the passage that a link leads to.
    pub fn open_source(&mut self, source: &AiSourceLink)
        ensures
            final(self)@ == old(self)@.telling(SignalView::OpenSource(source@)),
    {
        self.tell(SidebarSignal::Event(AiSidebarEvent::OpenSource(source.clone())));
    }
}

proof fn lemma_nothing_to_remove(scope: ScopeView, id: Seq<char>)
    requires
        !scope.can_remove(id),
    ensures
        scope.without_book(id) == scope,
{
    if let ScopeView::Book { current, available, additional } = scope {
        if id != current.id {
            let keep = crate::scope::other_than(id);
            assert forall|i: int| 0 <= i < additional.len() implies keep(#[trigger] additional[i]) by {
                assert(additional.contains(additional[i]));
            }
            crate::seqs::lemma_filter_all(additional, keep);
        }
    }
}

} // verus!
