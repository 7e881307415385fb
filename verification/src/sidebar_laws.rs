//! What holds of every sidebar, whatever is done with it.

use crate::conversation::{
    carried_scope, AiMessageRole, ConversationView, RequestState, SELECTION_EXPLANATION_QUESTION,
};
use crate::conversation_laws::{
    a_finished_answer_has_allowed_links, a_scope_change_keeps_a_conversation_well_formed,
    an_explanation_inherits_nothing, answering_keeps_a_conversation_well_formed,
    choosing_references_keeps_a_conversation_well_formed,
    offering_references_keeps_a_conversation_well_formed, pruning_restores_well_formedness,
};
use crate::question_laws::{is_answer_to, lemma_shown_links, may_be_shown};
use crate::references::{HintView, KeyView};
use crate::scope::ScopeView;
use crate::seqs::{lemma_filter_all, lemma_filter_elements, lemma_filter_same_length};
use crate::sessions::{
    authorized_threads, lemma_thread_with_id, session_operations_keep_the_list_well_formed,
    SessionsView, ThreadView,
};
use crate::sidebar::{
    authorized_with_id, is_shown, restored_messages, AiRestoredRole, ResponsiveSidebar,
    RestoredView, SidebarView, SignalView,
};
use crate::sources::{allowed_source, is_allowed_source, AgentAnswerSourceStatus, SourceLinkView};
use crate::text::byte_len;
use vstd::prelude::*;

verus! {

impl SidebarView {
    /// The conversation and the list are well formed, only allowed links are
    /// shown, and an explanation is under way only while its answer is awaited.
    pub open spec fn wf(self) -> bool {
        &&& self.conversation.wf()
        &&& self.conversation.links_are_allowed()
        &&& self.sessions.wf()
        &&& self.explanation is Some ==> self.conversation.is_current(self.explanation->0)
    }

    /// Whether a change of scope waits although nothing is under way.
    pub open spec fn has_forgotten_a_scope_change(self) -> bool {
        self.pending_scope_sync && !self.is_sending() && !self.sessions.busy
    }
}

/// A conversation without references that were chosen by hand.
proof fn lemma_without_choices(before: ConversationView, after: ConversationView)
    requires
        before.wf(),
        after.scope == before.scope,
        after.hints == before.hints,
        after.automatic == before.automatic,
        after.included.len() == 0,
    ensures
        after.wf(),
{
}

/// A sidebar starts out well formed.
pub proof fn a_new_sidebar_is_well_formed(
    scope: ScopeView,
    narrow: bool,
    status: crate::endpoint::StatusView,
)
    ensures
        SidebarView::initial(scope, narrow, status).wf(),
{
    assert(SessionsView::initial().threads =~= Seq::<ThreadView>::empty());
}

proof fn lemma_synchronizing(sidebar: SidebarView)
    requires
        sidebar.wf(),
    ensures
        sidebar.synchronizing().wf(),
        !sidebar.synchronizing().has_forgotten_a_scope_change(),
{
    let after = sidebar.synchronizing();
    if !(sidebar.is_sending() || sidebar.sessions.busy) && sidebar.active_is_unauthorized() {
        lemma_without_choices(sidebar.conversation, after.conversation);
    }
}

/// Once something under way has come to its end, a change of scope that waited
/// for it is passed on, or something else is under way.
pub proof fn a_waiting_scope_change_is_passed_on(
    sidebar: SidebarView,
    request_id: u64,
    text: Seq<char>,
    sources: Seq<SourceLinkView>,
    status: AgentAnswerSourceStatus,
    active: Option<Seq<char>>,
    threads: Seq<ThreadView>,
)
    ensures
        !sidebar.finished(request_id, text, sources, status).has_forgotten_a_scope_change(),
        !sidebar.failed(request_id, text).has_forgotten_a_scope_change(),
        !sidebar.with_sessions(active, threads).has_forgotten_a_scope_change(),
        !sidebar.with_session_error(text).has_forgotten_a_scope_change(),
        !sidebar.synchronizing().has_forgotten_a_scope_change(),
        !sidebar.resumed().has_forgotten_a_scope_change(),
{
}

/// A change of scope that is passed on names exactly the books of the scope, and
/// leaves no conversation open on other books.
pub proof fn a_scope_change_closes_unauthorized_conversations(sidebar: SidebarView)
    requires
        !sidebar.is_sending(),
        !sidebar.sessions.busy,
    ensures
        !sidebar.synchronizing().active_is_unauthorized(),
        sidebar.synchronizing().outbox == sidebar.outbox.push(
            SignalView::ScopeChanged(sidebar.conversation.scope.book_ids()),
        ).push(SignalView::Notify),
        sidebar.synchronizing().sessions.busy,
{
}

/// Operations on the stored conversations keep a sidebar well formed.
pub proof fn session_operations_keep_a_sidebar_well_formed(
    sidebar: SidebarView,
    active: Option<Seq<char>>,
    threads: Seq<ThreadView>,
    messages: Seq<RestoredView>,
    text: Seq<char>,
    signal: SignalView,
)
    requires
        sidebar.wf(),
    ensures
        sidebar.operating().wf(),
        sidebar.requested(signal).wf(),
        sidebar.with_session(active, threads, messages).wf(),
        sidebar.with_sessions(active, threads).wf(),
        sidebar.with_session_error(text).wf(),
        sidebar.confirming(text).wf(),
        sidebar.showing_error(text).wf(),
{
    let allowed = sidebar.conversation.scope.book_ids();
    let authorized = crate::sessions::authorized_threads(threads, allowed);
    session_operations_keep_the_list_well_formed(sidebar.sessions, active, authorized, text);
    if !sidebar.is_sending() {
        let opened = sidebar.opened(active, threads, messages);
        lemma_without_choices(sidebar.conversation, opened.conversation);
        lemma_restored_links(allowed, sidebar.conversation.next_id, messages);
        assert(opened.conversation.links_are_allowed());
        lemma_synchronizing(opened);
    }
    let refreshed = sidebar.sessions.refreshed(active, authorized);
    let listed = (SidebarView {
        sessions: refreshed,
        conversation: if refreshed.active == sidebar.sessions.active {
            sidebar.conversation
        } else {
            ConversationView {
                included: Seq::empty(),
                ..sidebar.conversation.only_current_request()
            }
        },
        ..sidebar
    }).telling(SignalView::Notify);
    if refreshed.active != sidebar.sessions.active {
        lemma_without_choices(sidebar.conversation, listed.conversation);
        lemma_links_after_keeping_current(sidebar.conversation);
    }
    assert(listed.wf());
    lemma_synchronizing(listed);
    let failed = (SidebarView { sessions: sidebar.sessions.failed(text), ..sidebar }).telling(
        SignalView::Notify,
    );
    lemma_synchronizing(failed);
}

proof fn lemma_links_after_keeping_current(conversation: ConversationView)
    requires
        conversation.links_are_allowed(),
    ensures
        conversation.only_current_request().links_are_allowed(),
{
    let after = conversation.only_current_request();
    if let RequestState::Sending { request_id } = conversation.request {
        lemma_filter_elements(
            conversation.messages,
            crate::conversation::belonging_to(request_id),
        );
        assert forall|i: int, k: int|
            #![trigger after.messages[i].sources[k]]
            0 <= i < after.messages.len() && 0 <= k
                < after.messages[i].sources.len() implies is_allowed_source(
            after.scope.book_ids(),
            after.messages[i].sources[k],
        ) by {
            assert(conversation.messages.contains(after.messages[i]));
            let j = choose|j: int|
                0 <= j < conversation.messages.len() && conversation.messages[j]
                    == after.messages[i];
            assert(is_allowed_source(
                conversation.scope.book_ids(),
                conversation.messages[j].sources[k],
            ));
        }
    }
}

proof fn lemma_restored_links(
    allowed: Seq<Seq<char>>,
    next_id: u64,
    messages: Seq<RestoredView>,
)
    ensures
        forall|i: int, k: int|
            #![trigger restored_messages(allowed, next_id, messages).0[i].sources[k]]
            0 <= i < restored_messages(allowed, next_id, messages).0.len() && 0 <= k
                < restored_messages(allowed, next_id, messages).0[i].sources.len()
                ==> is_allowed_source(
                allowed,
                restored_messages(allowed, next_id, messages).0[i].sources[k],
            ),
    decreases messages.len(),
{
    if messages.len() > 0 {
        lemma_restored_links(allowed, next_id, messages.drop_last());
        let before = restored_messages(allowed, next_id, messages.drop_last()).0;
        let all = restored_messages(allowed, next_id, messages).0;
        let kept = messages.last().sources.filter(allowed_source(allowed));
        lemma_filter_elements(messages.last().sources, allowed_source(allowed));
        assert forall|i: int, k: int|
            #![trigger all[i].sources[k]]
            0 <= i < all.len() && 0 <= k < all[i].sources.len() implies is_allowed_source(
            allowed,
            all[i].sources[k],
        ) by {
            if i < before.len() {
                assert(all[i] == before[i]);
                assert(is_allowed_source(allowed, before[i].sources[k]));
            } else {
                assert(all[i].sources == kept);
                assert(allowed_source(allowed)(kept[k]));
            }
        }
    }
}

/// Changes of scope and of the references on offer keep a sidebar well formed.
pub proof fn host_changes_keep_a_sidebar_well_formed(
    sidebar: SidebarView,
    scope: ScopeView,
    references: Seq<HintView>,
    key: KeyView,
)
    requires
        sidebar.wf(),
    ensures
        sidebar.with_scope(scope).wf(),
        sidebar.with_hints(references).wf(),
        (SidebarView {
            conversation: sidebar.conversation.toggled(key),
            ..sidebar
        }).wf(),
{
    a_scope_change_keeps_a_conversation_well_formed(sidebar.conversation, scope);
    let moved = SidebarView { conversation: sidebar.conversation.with_scope(scope), ..sidebar };
    assert(moved.wf());
    lemma_synchronizing(moved);
    offering_references_keeps_a_conversation_well_formed(sidebar.conversation, references);
    assert(sidebar.conversation.with_hints(references).links_are_allowed());
    choosing_references_keeps_a_conversation_well_formed(sidebar.conversation, key);
    let toggled = sidebar.conversation.toggled(key);
    assert(toggled.messages == sidebar.conversation.messages);
    assert(toggled.links_are_allowed());
}

/// Adding a book to the scope, or removing one, keeps a sidebar well formed.
pub proof fn book_changes_keep_a_sidebar_well_formed(sidebar: SidebarView, id: Seq<char>)
    requires
        sidebar.wf(),
    ensures
        (SidebarView {
            conversation: ConversationView {
                scope: sidebar.conversation.scope.with_book(id),
                ..sidebar.conversation
            },
            ..sidebar
        }).synchronizing().wf(),
        (SidebarView {
            conversation: (ConversationView {
                scope: sidebar.conversation.scope.without_book(id),
                ..sidebar.conversation
            }).pruned(),
            ..sidebar
        }).synchronizing().wf(),
{
    let scope = sidebar.conversation.scope;
    let more = ConversationView { scope: scope.with_book(id), ..sidebar.conversation };
    assert forall|other: Seq<char>| scope.book_ids().contains(other) implies scope.with_book(
        id,
    ).book_ids().contains(other) by {
        let i = choose|i: int| 0 <= i < scope.book_ids().len() && scope.book_ids()[i] == other;
        assert(scope.with_book(id).book_ids()[i] == other);
    }
    assert(more.reference_count() == sidebar.conversation.reference_count());
    assert(more.wf()) by {
        assert forall|i: int| 0 <= i < more.hints.len() implies crate::references::is_usable(
            more.scope.book_ids(),
            #[trigger] more.hints[i],
        ) by {
            assert(crate::references::is_usable(
                scope.book_ids(),
                sidebar.conversation.hints[i],
            ));
        }
    }
    assert(more.links_are_allowed()) by {
        assert forall|i: int, k: int|
            #![trigger more.messages[i].sources[k]]
            0 <= i < more.messages.len() && 0 <= k
                < more.messages[i].sources.len() implies is_allowed_source(
            more.scope.book_ids(),
            more.messages[i].sources[k],
        ) by {
            assert(is_allowed_source(
                scope.book_ids(),
                sidebar.conversation.messages[i].sources[k],
            ));
        }
    }
    lemma_synchronizing(SidebarView { conversation: more, ..sidebar });
    pruning_restores_well_formedness(sidebar.conversation, scope.without_book(id));
    let fewer = (ConversationView {
        scope: scope.without_book(id),
        ..sidebar.conversation
    }).pruned();
    lemma_synchronizing(SidebarView { conversation: fewer, ..sidebar });
}

/// Questions, answers and their ends keep a sidebar well formed.
pub proof fn answers_keep_a_sidebar_well_formed(
    sidebar: SidebarView,
    question: Seq<char>,
    request_id: u64,
    text: Seq<char>,
    sources: Seq<SourceLinkView>,
    status: AgentAnswerSourceStatus,
)
    requires
        sidebar.wf(),
    ensures
        sidebar.submitted(question).wf(),
        sidebar.finished(request_id, text, sources, status).wf(),
        sidebar.failed(request_id, text).wf(),
        sidebar.cancelled().wf(),
{
    answering_keeps_a_conversation_well_formed(
        sidebar.conversation,
        question,
        request_id,
        text,
        sources,
        status,
    );
    let conversation = sidebar.conversation;
    if conversation.can_ask(question) {
        let asked = conversation.asked(question);
        assert(asked.links_are_allowed()) by {
            assert forall|i: int, k: int|
                #![trigger asked.messages[i].sources[k]]
                0 <= i < asked.messages.len() && 0 <= k
                    < asked.messages[i].sources.len() implies is_allowed_source(
                asked.scope.book_ids(),
                asked.messages[i].sources[k],
            ) by {
                assert(i < conversation.messages.len());
                assert(asked.messages[i] == conversation.messages[i]);
                assert(is_allowed_source(
                    conversation.scope.book_ids(),
                    conversation.messages[i].sources[k],
                ));
            }
        }
    }
    lemma_synchronizing(sidebar);
    if conversation.is_current(request_id) {
        a_finished_answer_has_allowed_links(conversation, request_id, sources, status);
        let finished = (SidebarView {
            conversation: conversation.finished(request_id, sources, status),
            explanation: None,
            ..sidebar
        }).telling(SignalView::Completed(request_id, text)).telling(SignalView::Notify);
        assert(sidebar.finished(request_id, text, sources, status) == finished.resumed());
        lemma_synchronizing(finished);
        lemma_ended_links(conversation, request_id, AiMessageRole::Error, text);
        let failed = (SidebarView {
            conversation: conversation.failed(request_id, text),
            ..sidebar
        }).explanation_failed(request_id, text).telling(SignalView::Notify);
        lemma_synchronizing(failed);
    }
    if let RequestState::Sending { request_id: current } = conversation.request {
        lemma_ended_links(conversation, current, AiMessageRole::Status, "已取消本次回答。"@);
    }
}

proof fn lemma_ended_links(
    conversation: ConversationView,
    request_id: u64,
    role: AiMessageRole,
    content: Seq<char>,
)
    requires
        conversation.links_are_allowed(),
    ensures
        conversation.ended(request_id, role, content).links_are_allowed(),
{
    let keep = crate::conversation::not_answering(request_id);
    lemma_filter_elements(conversation.messages, keep);
    let kept = conversation.messages.filter(keep);
    let after = conversation.ended(request_id, role, content);
    assert forall|i: int, k: int|
        #![trigger after.messages[i].sources[k]]
        0 <= i < after.messages.len() && 0 <= k
            < after.messages[i].sources.len() implies is_allowed_source(
        after.scope.book_ids(),
        after.messages[i].sources[k],
    ) by {
        assert(i < kept.len());
        assert(after.messages[i] == kept[i]);
        assert(conversation.messages.contains(kept[i]));
        let j = choose|j: int|
            0 <= j < conversation.messages.len() && conversation.messages[j] == kept[i];
        assert(is_allowed_source(
            conversation.scope.book_ids(),
            conversation.messages[j].sources[k],
        ));
    }
}

/// An answer is published once: completing or failing it again changes nothing.
pub proof fn an_answer_is_published_once(
    sidebar: SidebarView,
    request_id: u64,
    markdown: Seq<char>,
    sources: Seq<SourceLinkView>,
    status: AgentAnswerSourceStatus,
    later: Seq<char>,
)
    requires
        sidebar.conversation.is_current(request_id),
    ensures
        ({
            let done = sidebar.finished(request_id, markdown, sources, status);
            &&& done.finished(request_id, later, sources, status) == done
            &&& done.failed(request_id, later) == done
            &&& done.outbox.len() > sidebar.outbox.len() && done.outbox[sidebar.outbox.len() as int]
                == SignalView::Completed(request_id, markdown)
        }),
{
}

/// What comes for a request that is not awaited publishes no answer and touches
/// neither the messages nor the explanation that is under way.
pub proof fn late_answers_publish_nothing(
    sidebar: SidebarView,
    request_id: u64,
    text: Seq<char>,
    sources: Seq<SourceLinkView>,
    status: AgentAnswerSourceStatus,
)
    requires
        !sidebar.conversation.is_current(request_id),
        !sidebar.has_forgotten_a_scope_change(),
    ensures
        sidebar.finished(request_id, text, sources, status) == sidebar,
        sidebar.failed(request_id, text) == sidebar,
{
}

/// The request of an explanation is announced right before its question, and a
/// failure or a cancellation of it is reported once.
pub proof fn an_explanation_is_announced_and_its_failure_reported_once(
    sidebar: SidebarView,
    request_id: u64,
    error: Seq<char>,
)
    requires
        sidebar.explanation == Some(request_id),
        sidebar.conversation.is_current(request_id),
        !sidebar.pending_scope_sync,
    ensures
        sidebar.failed(request_id, error).outbox == sidebar.outbox.push(
            SignalView::ExplanationFailed(Some(request_id), error),
        ).push(SignalView::Notify),
        sidebar.failed(request_id, error).explanation is None,
        sidebar.cancelled().outbox == sidebar.outbox.push(SignalView::Cancel(request_id)).push(
            SignalView::ExplanationFailed(Some(request_id), "本次 AI 解释已取消。"@),
        ).push(SignalView::Notify),
        sidebar.cancelled().explanation is None,
        sidebar.cancelled().cancelled() == sidebar.cancelled(),
{
}

/// Whether a fresh conversation leads to an explanation.
pub open spec fn explains(
    sidebar: SidebarView,
    threads: Seq<ThreadView>,
    reference: HintView,
) -> bool {
    let ready = sidebar.with_session(None, threads, Seq::empty());
    !sidebar.is_sending() && !ready.sessions.busy && !ready.pending_scope_sync
        && ready.conversation.can_explain(reference)
}

/// An explanation that starts is announced before its question is sent, under the
/// same identifier; its question has the selection as its only reference.
pub proof fn a_started_explanation_is_announced_first(
    sidebar: SidebarView,
    threads: Seq<ThreadView>,
    reference: HintView,
)
    requires
        explains(sidebar, threads, reference),
    ensures
        ({
            let ready = sidebar.with_session(None, threads, Seq::empty());
            let after = sidebar.explaining(threads, reference);
            let request = ready.conversation.cleared_for(reference).request_for(
                SELECTION_EXPLANATION_QUESTION@,
            );
            &&& after.outbox == ready.outbox.push(
                SignalView::ExplanationSubmitted(request.request_id),
            ).push(SignalView::Submit(request)).push(SignalView::Notify)
            &&& after.explanation == Some(request.request_id)
            &&& after.conversation.is_current(request.request_id)
            &&& request.reference_hints == seq![reference]
        }),
{
    let ready = sidebar.with_session(None, threads, Seq::empty());
    an_explanation_inherits_nothing(ready.conversation, reference);
}

/// Explanations keep a sidebar well formed, whether they start or not.
pub proof fn explanations_keep_a_sidebar_well_formed(
    sidebar: SidebarView,
    threads: Seq<ThreadView>,
    reference: HintView,
)
    requires
        sidebar.wf(),
    ensures
        sidebar.explaining(threads, reference).wf(),
{
    session_operations_keep_a_sidebar_well_formed(
        sidebar,
        None,
        threads,
        Seq::empty(),
        Seq::empty(),
        SignalView::Notify,
    );
    let ready = sidebar.with_session(None, threads, Seq::empty());
    if explains(sidebar, threads, reference) {
        an_explanation_inherits_nothing(ready.conversation, reference);
        let cleared = ConversationView {
            messages: Seq::empty(),
            included: Seq::empty(),
            automatic: None,
            ..ready.conversation
        };
        assert(cleared.wf());
        offering_references_keeps_a_conversation_well_formed(cleared, seq![reference]);
        let offered = ready.conversation.cleared_for(reference);
        answering_keeps_a_conversation_well_formed(
            offered,
            SELECTION_EXPLANATION_QUESTION@,
            0,
            Seq::empty(),
            Seq::empty(),
            AgentAnswerSourceStatus::NoVerifiedSources,
        );
    }
}

/// Ordinary questions are no explanations: their failure is reported as none.
pub proof fn an_ordinary_failure_is_no_failed_explanation(
    sidebar: SidebarView,
    request_id: u64,
    error: Seq<char>,
)
    requires
        sidebar.explanation != Some(request_id),
        sidebar.conversation.is_current(request_id),
        !sidebar.pending_scope_sync,
    ensures
        sidebar.failed(request_id, error).outbox == sidebar.outbox.push(SignalView::Notify),
        sidebar.failed(request_id, error).explanation == sidebar.explanation,
{
}

// ---------------------------------------------------------------------------
// What a sidebar does, field by field
// ---------------------------------------------------------------------------

/// The test for stored messages that are shown: not empty, and no more than 1 MiB.
pub open spec fn fits() -> spec_fn(RestoredView) -> bool {
    |message: RestoredView| 0 < message.content.len() && byte_len(message.content) <= 1024 * 1024
}

/// Of a stored conversation all messages are shown that fit, in their order, each with
/// its own text, role and status, those of its links that may be shown, and an
/// identifier of its own.
pub proof fn stored_messages_are_shown_in_order(
    scope: ScopeView,
    next_id: u64,
    messages: Seq<RestoredView>,
)
    requires
        next_id + messages.len() < u64::MAX,
    ensures
        ({
            let (shown, id) = restored_messages(scope.book_ids(), next_id, messages);
            let stored = messages.filter(fits());
            &&& shown.len() == stored.len()
            &&& id == next_id + shown.len()
            &&& shown.len() <= messages.len()
            &&& forall|i: int|
                #![trigger shown[i]]
                0 <= i < shown.len() ==> {
                    &&& shown[i].content == stored[i].content
                    &&& shown[i].role == AiMessageRole::User <==> stored[i].role
                        == AiRestoredRole::User
                    &&& shown[i].role == AiMessageRole::Assistant <==> stored[i].role
                        == AiRestoredRole::Assistant
                    &&& shown[i].source_status == stored[i].source_status
                    &&& shown[i].sources == stored[i].sources.filter(may_be_shown(scope))
                    &&& shown[i].request_id is None
                    &&& shown[i].id == next_id + i
                }
        }),
    decreases messages.len(),
{
    reveal(Seq::filter);
    if messages.len() > 0 {
        let rest = messages.drop_last();
        let last = messages.last();
        stored_messages_are_shown_in_order(scope, next_id, rest);
        let (before, id) = restored_messages(scope.book_ids(), next_id, rest);
        let (shown, after) = restored_messages(scope.book_ids(), next_id, messages);
        assert(fits()(last) == is_shown(last));
        lemma_shown_links(scope, last.sources);
        assert forall|i: int| 0 <= i < before.len() implies #[trigger] shown[i] == before[i]
            && messages.filter(fits())[i] == rest.filter(fits())[i] by {}
    }
}

/// A question that may be sent is sent while no operation and no change of scope is
/// under way: the input is cleared, the request is passed on, and the conversation goes
/// on with the question. Otherwise nothing changes.
pub proof fn a_question_is_sent_once_nothing_else_is_under_way(
    sidebar: SidebarView,
    question: Seq<char>,
)
    ensures
        ({
            let after = sidebar.submitted(question);
            let sent = !sidebar.sessions.busy && !sidebar.pending_scope_sync
                && sidebar.conversation.can_ask(question);
            &&& !sent ==> after == sidebar
            &&& sent ==> after == (SidebarView {
                conversation: sidebar.conversation.asked(question),
                outbox: sidebar.outbox.push(SignalView::ClearInput).push(
                    SignalView::Submit(sidebar.conversation.request_for(question)),
                ).push(SignalView::Notify),
                ..sidebar
            })
        }),
{
}

/// An operation on the stored conversations starts exactly where no answer is awaited,
/// no change of scope waits and no other operation is under way; the window is then
/// told of it, and the conversation stays.
pub proof fn an_operation_starts_where_nothing_is_under_way(
    sidebar: SidebarView,
    signal: SignalView,
)
    ensures
        sidebar.is_ready() <==> sidebar.conversation.request == RequestState::Idle
            && !sidebar.pending_scope_sync && !sidebar.sessions.busy,
        !sidebar.is_ready() ==> sidebar.operating() == sidebar && sidebar.requested(signal)
            == sidebar,
        sidebar.is_ready() ==> {
            let after = sidebar.requested(signal);
            &&& after.sessions.busy
            &&& after.sessions.threads == sidebar.sessions.threads
            &&& after.sessions.active == sidebar.sessions.active
            &&& after.outbox == sidebar.outbox.push(SignalView::Notify).push(signal)
            &&& after.conversation == sidebar.conversation
            &&& after.explanation == sidebar.explanation
            &&& after.layout == sidebar.layout
            &&& after.status == sidebar.status
            &&& sidebar.operating().sessions == after.sessions
            &&& sidebar.operating().conversation == sidebar.conversation
        },
{
}

/// A stored conversation that was read is not shown while an answer is awaited.
/// Otherwise its messages take the place of those that are shown, where it is the one
/// that is open now, and none are shown where it is not; nothing is chosen any more, and
/// what is on offer stays.
pub proof fn a_stored_conversation_takes_the_place_of_the_open_one(
    sidebar: SidebarView,
    active: Option<Seq<char>>,
    threads: Seq<ThreadView>,
    messages: Seq<RestoredView>,
)
    ensures
        sidebar.is_sending() ==> sidebar.with_session(active, threads, messages) == sidebar,
        ({
            let after = sidebar.opened(active, threads, messages);
            let allowed = sidebar.conversation.scope.book_ids();
            let listed = authorized_threads(threads, allowed);
            &&& after.sessions == sidebar.sessions.applied(active, listed)
            &&& after.sessions.active == active ==> after.conversation.messages
                == restored_messages(allowed, sidebar.conversation.next_id, messages).0
            &&& after.sessions.active != active ==> after.conversation.messages.len() == 0
            &&& after.conversation.included.len() == 0
            &&& after.conversation.hints == sidebar.conversation.hints
            &&& after.conversation.automatic == sidebar.conversation.automatic
            &&& after.conversation.scope == sidebar.conversation.scope
            &&& after.conversation.request == sidebar.conversation.request
            &&& after.outbox == sidebar.outbox.push(SignalView::Notify)
            &&& after.pending_scope_sync == sidebar.pending_scope_sync
        }),
        !sidebar.is_sending() && !sidebar.pending_scope_sync ==> sidebar.with_session(
            active,
            threads,
            messages,
        ) == sidebar.opened(active, threads, messages),
{
}

/// A list that was read anew keeps the messages and what is chosen as long as the same
/// conversation is open; otherwise only the awaited answer stays.
pub proof fn a_list_that_was_read_anew_keeps_the_open_conversation(
    sidebar: SidebarView,
    active: Option<Seq<char>>,
    threads: Seq<ThreadView>,
)
    requires
        !sidebar.pending_scope_sync,
    ensures
        ({
            let after = sidebar.with_sessions(active, threads);
            let listed = authorized_threads(threads, sidebar.conversation.scope.book_ids());
            &&& after.sessions == sidebar.sessions.refreshed(active, listed)
            &&& after.sessions.active == sidebar.sessions.active ==> after.conversation
                == sidebar.conversation
            &&& after.sessions.active != sidebar.sessions.active ==> after.conversation == (
            ConversationView {
                included: Seq::empty(),
                messages: sidebar.conversation.only_current_request().messages,
                ..sidebar.conversation
            })
            &&& after.outbox == sidebar.outbox.push(SignalView::Notify)
            &&& after.explanation == sidebar.explanation
        }),
{
}

/// A change of scope waits while an answer or an operation is under way, without any
/// other change. Otherwise it is passed on; the messages and what is chosen stay unless
/// the open conversation speaks of a book that the scope does not hold, or is not
/// listed.
pub proof fn a_change_of_scope_keeps_what_it_allows(sidebar: SidebarView)
    ensures
        sidebar.is_sending() || sidebar.sessions.busy ==> sidebar.synchronizing() == (SidebarView {
            pending_scope_sync: true,
            outbox: sidebar.outbox.push(SignalView::Notify),
            ..sidebar
        }),
        !sidebar.is_sending() && !sidebar.sessions.busy ==> {
            let after = sidebar.synchronizing();
            &&& !after.pending_scope_sync
            &&& after.sessions.busy
            &&& after.sessions.threads == sidebar.sessions.threads
            &&& !sidebar.active_is_unauthorized() ==> after.conversation == sidebar.conversation
                && after.sessions.active == sidebar.sessions.active
            &&& sidebar.active_is_unauthorized() ==> after.sessions.active is None
                && after.conversation == (ConversationView {
                messages: Seq::empty(),
                included: Seq::empty(),
                ..sidebar.conversation
            })
        },
{
}

/// Whether a conversation speaks of a book that a scope does not hold.
pub open spec fn speaks_of_others(thread: ThreadView, scope: ScopeView) -> bool {
    exists|b: int|
        0 <= b < thread.book_ids.len() && !scope.book_ids().contains(#[trigger] thread.book_ids[b])
}

/// The open conversation is closed by a change of scope exactly where it is not listed
/// or speaks of a book that the scope does not hold.
pub proof fn the_open_conversation_is_closed_where_it_speaks_of_others(
    sidebar: SidebarView,
    at: int,
)
    ensures
        sidebar.sessions.active is None ==> !sidebar.active_is_unauthorized(),
        sidebar.sessions.active is Some && (forall|k: int|
            0 <= k < sidebar.sessions.threads.len() ==> #[trigger] sidebar.sessions.threads[k].id
                != sidebar.sessions.active->0) ==> sidebar.active_is_unauthorized(),
        sidebar.sessions.active is Some && 0 <= at < sidebar.sessions.threads.len()
            && sidebar.sessions.threads[at].id == sidebar.sessions.active->0 && (forall|k: int|
            0 <= k < at ==> #[trigger] sidebar.sessions.threads[k].id
                != sidebar.sessions.active->0) ==> (sidebar.active_is_unauthorized()
            <==> speaks_of_others(sidebar.sessions.threads[at], sidebar.conversation.scope)),
{
    if let Some(id) = sidebar.sessions.active {
        let threads = sidebar.sessions.threads;
        if forall|k: int| 0 <= k < threads.len() ==> #[trigger] threads[k].id != id {
            lemma_thread_with_id(threads, id, threads.len() as int);
        }
        if 0 <= at < threads.len() && threads[at].id == id && (forall|k: int|
            0 <= k < at ==> #[trigger] threads[k].id != id) {
            lemma_thread_with_id(threads, id, at);
        }
    }
}

/// A piece of the awaited answer is added to the conversation, and so are its end and
/// its withdrawal, as long as no change of scope waits; nothing else of the sidebar
/// changes but what the window is told.
pub proof fn an_answer_goes_into_its_conversation(
    sidebar: SidebarView,
    request_id: u64,
    text: Seq<char>,
    sources: Seq<SourceLinkView>,
    status: AgentAnswerSourceStatus,
)
    requires
        sidebar.conversation.is_current(request_id),
        !sidebar.pending_scope_sync,
    ensures
        ({
            let appended = sidebar.appended(request_id, text);
            let finished = sidebar.finished(request_id, text, sources, status);
            let failed = sidebar.failed(request_id, text);
            let cancelled = sidebar.cancelled();
            &&& appended.conversation == sidebar.conversation.appended(request_id, text)
            &&& finished.conversation == sidebar.conversation.finished(request_id, sources, status)
            &&& failed.conversation == sidebar.conversation.failed(request_id, text)
            &&& cancelled.conversation == sidebar.conversation.cancelled()
            &&& appended.sessions == sidebar.sessions && finished.sessions == sidebar.sessions
            &&& failed.sessions == sidebar.sessions && cancelled.sessions == sidebar.sessions
            &&& appended.explanation == sidebar.explanation
            &&& finished.explanation == (if sidebar.explanation == Some(request_id) {
                None
            } else {
                sidebar.explanation
            })
            &&& finished.outbox == sidebar.outbox.push(
                SignalView::Completed(request_id, text),
            ).push(SignalView::Notify)
            &&& finished.layout == sidebar.layout && failed.layout == sidebar.layout
        }),
{
}

/// An answer is withdrawn exactly where the request is awaited and some of its answer
/// has come.
pub proof fn an_answer_is_withdrawn_where_some_of_it_came(sidebar: SidebarView, request_id: u64)
    ensures
        sidebar.has_answer(request_id) <==> sidebar.conversation.request == (
        RequestState::Sending { request_id }) && exists|i: int|
            0 <= i < sidebar.conversation.messages.len() && is_answer_to(
                #[trigger] sidebar.conversation.messages[i],
                request_id,
            ),
        sidebar.has_answer(request_id) ==> sidebar.answer_reset(request_id).conversation
            == sidebar.conversation.reset(request_id),
        !sidebar.has_answer(request_id) ==> sidebar.answer_reset(request_id) == sidebar,
{
    let messages = sidebar.conversation.messages;
    let keep = crate::conversation::not_answering(request_id);
    if messages.filter(keep).len() == messages.len() {
        lemma_filter_same_length(messages, keep);
        assert forall|i: int| 0 <= i < messages.len() implies !is_answer_to(
            #[trigger] messages[i],
            request_id,
        ) by {
            assert(keep(messages[i]));
        }
    } else if forall|i: int|
        0 <= i < messages.len() ==> !is_answer_to(#[trigger] messages[i], request_id) {
        assert forall|i: int| 0 <= i < messages.len() implies keep(#[trigger] messages[i]) by {
            assert(!is_answer_to(messages[i], request_id));
        }
        lemma_filter_all(messages, keep);
    }
}

/// A deletion waits to be confirmed for the first conversation with the identifier that
/// speaks of books of the scope alone; where there is none, an error says so.
pub proof fn a_deletion_is_confirmed_for_an_offered_conversation(
    sidebar: SidebarView,
    id: Seq<char>,
    at: int,
)
    requires
        sidebar.is_ready(),
    ensures
        ({
            let threads = sidebar.sessions.threads;
            let scope = sidebar.conversation.scope;
            let after = sidebar.confirming(id);
            &&& (forall|k: int|
                0 <= k < threads.len() ==> (#[trigger] threads[k]).id != id || speaks_of_others(
                    threads[k],
                    scope,
                )) ==> after.sessions.pending_delete == sidebar.sessions.pending_delete
                && after.sessions.error == Some("该会话已不存在或不在当前图书范围内。"@)
            &&& 0 <= at < threads.len() && threads[at].id == id && !speaks_of_others(
                threads[at],
                scope,
            ) && (forall|k: int|
                0 <= k < at ==> (#[trigger] threads[k]).id != id || speaks_of_others(
                    threads[k],
                    scope,
                )) ==> after.sessions.pending_delete == Some((id, threads[at].title))
                && after.sessions.error is None
            &&& after.sessions.threads == threads
            &&& after.sessions.active == sidebar.sessions.active
            &&& after.conversation == sidebar.conversation
        }),
        !sidebar.is_ready() ==> sidebar.confirming(id) == sidebar,
{
    let threads = sidebar.sessions.threads;
    let scope = sidebar.conversation.scope;
    if forall|k: int|
        0 <= k < threads.len() ==> (#[trigger] threads[k]).id != id || speaks_of_others(
            threads[k],
            scope,
        ) {
        lemma_authorized_with_id(threads, id, scope, threads.len() as int);
    }
    if 0 <= at < threads.len() && threads[at].id == id && !speaks_of_others(threads[at], scope) && (
    forall|k: int|
        0 <= k < at ==> (#[trigger] threads[k]).id != id || speaks_of_others(threads[k], scope)) {
        lemma_authorized_with_id(threads, id, scope, at);
    }
}

proof fn lemma_authorized_with_id(
    threads: Seq<ThreadView>,
    id: Seq<char>,
    scope: ScopeView,
    at: int,
)
    requires
        0 <= at <= threads.len(),
        at < threads.len() ==> threads[at].id == id && !speaks_of_others(threads[at], scope),
        forall|k: int|
            0 <= k < at ==> (#[trigger] threads[k]).id != id || speaks_of_others(threads[k], scope),
    ensures
        authorized_with_id(threads, id, scope.book_ids()) == (if at < threads.len() {
            Some(threads[at])
        } else {
            None
        }),
    decreases threads.len(),
{
    if threads.len() > 0 && at > 0 {
        let rest = threads.drop_first();
        assert forall|k: int| 0 <= k < at - 1 implies (#[trigger] rest[k]).id != id
            || speaks_of_others(rest[k], scope) by {
            assert(rest[k] == threads[k + 1]);
        }
        if at < threads.len() {
            assert(rest[at - 1] == threads[at]);
        }
        lemma_authorized_with_id(rest, id, scope, at - 1);
        assert(threads[0].id != id || speaks_of_others(threads[0], scope));
    }
}

/// The sidebar follows the width of the window, folded where it becomes narrow and
/// unfolded where it becomes wide, until it was folded or unfolded by hand.
pub proof fn a_sidebar_follows_the_window(layout: ResponsiveSidebar, narrow: bool)
    ensures
        layout.resized(narrow).narrow == narrow,
        layout.resized(narrow).manual_override == layout.manual_override,
        layout.manual_override ==> layout.resized(narrow).collapsed == layout.collapsed,
        !layout.manual_override && narrow != layout.narrow ==> layout.resized(narrow).collapsed
            == narrow,
        narrow == layout.narrow ==> layout.resized(narrow) == layout,
{
}

/// An error is shown in an unfolded sidebar and leaves everything under way alone; a
/// failed operation leaves the list and the conversation as they were.
pub proof fn an_error_leaves_what_is_under_way(sidebar: SidebarView, error: Seq<char>)
    ensures
        ({
            let after = sidebar.showing_error(error);
            &&& !after.layout.collapsed
            &&& after.sessions == (SessionsView { error: Some(error), ..sidebar.sessions })
            &&& after.conversation == sidebar.conversation
            &&& after.explanation == sidebar.explanation
            &&& after.pending_scope_sync == sidebar.pending_scope_sync
            &&& after.outbox == sidebar.outbox.push(SignalView::Notify)
            &&& sidebar.rejected(error).outbox == after.outbox.push(
                SignalView::ExplanationFailed(None, error),
            )
            &&& sidebar.rejected(error).conversation == sidebar.conversation
        }),
        !sidebar.pending_scope_sync ==> {
            let after = sidebar.with_session_error(error);
            &&& after.conversation == sidebar.conversation
            &&& after.sessions == (SessionsView {
                busy: false,
                error: Some(error),
                ..sidebar.sessions
            })
            &&& after.outbox == sidebar.outbox.push(SignalView::Notify)
        },
{
}

/// A scope that the window sets is taken over, with the books that were added to the old one
/// as far as they are carried over, and passed on; the same scope changes nothing.
pub proof fn a_scope_that_was_set_is_taken_over(sidebar: SidebarView, scope: ScopeView)
    ensures
        ({
            let carried = carried_scope(sidebar.conversation.scope, scope);
            let after = sidebar.with_scope(scope);
            &&& carried == sidebar.conversation.scope ==> after == sidebar
            &&& carried != sidebar.conversation.scope ==> {
                &&& after.conversation.scope == carried
                &&& after == (SidebarView {
                    conversation: sidebar.conversation.with_scope(scope),
                    ..sidebar
                }).synchronizing()
                &&& after.outbox.len() > sidebar.outbox.len()
            }
        }),
{
}

/// References that the window offers take the place of those on offer; where they are the
/// same, nothing changes.
pub proof fn offered_references_take_the_place_of_others(
    sidebar: SidebarView,
    references: Seq<HintView>,
)
    ensures
        references == sidebar.conversation.hints ==> sidebar.with_hints(references) == sidebar,
        references != sidebar.conversation.hints ==> sidebar.with_hints(references) == (
        SidebarView {
            conversation: sidebar.conversation.with_hints(references),
            outbox: sidebar.outbox.push(SignalView::Notify),
            ..sidebar
        }),
{
}

/// An explanation that cannot start is turned down with why: because an answer or a change
/// is under way, or because the selection may not be used.
pub proof fn an_explanation_is_turned_down_with_why(
    sidebar: SidebarView,
    threads: Seq<ThreadView>,
    reference: HintView,
)
    ensures
        ({
            let ready = sidebar.with_session(None, threads, Seq::empty());
            let after = sidebar.explaining(threads, reference);
            let waits = sidebar.is_sending() || ready.sessions.busy || ready.pending_scope_sync;
            &&& waits ==> after == ready.rejected(
                "AI 图书范围正在更新，请更新完成后再次使用 AI 解释。"@,
            )
            &&& !waits && !ready.conversation.can_explain(reference) ==> after == ready.rejected(
                "所选文本已不在当前 AI 范围内，请重新选择后再试。"@,
            )
            &&& !waits && ready.conversation.can_explain(reference) ==> after.conversation
                == ready.conversation.explaining(reference) && after.explanation == Some(
                ready.conversation.next_id,
            )
        }),
{
}

} // verus!
