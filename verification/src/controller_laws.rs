//! What becomes of the results of tasks and of the messages of an answer.

use crate::citation_laws::{every_citation_becomes_a_link, showable};
use crate::citations::{
    every_allowed_link_is_kept_in_order, listed, live_links, points_into, AgentCitation,
    UiSessionState,
};
use crate::controller::{
    after_completion, after_message, after_reconciling, after_task, answer_links, friendly_error,
    progressed, AgentRunEvent, AnswerProgress, ReconciledSessions, SessionTaskKind, TaskOutcome,
    UiAgentMessage, UiConversationAnswer,
};
use crate::document::DocumentView;
use crate::sessions::thread_views;
use crate::sidebar::{restored_views, RestoredView, SidebarView, SignalView};
use crate::sources::{source_views, SourceLinkView};
use crate::submission::{
    after_answer, after_event, after_freezing, after_silence, AnswerContent, WorkerAction,
    WorkerStage,
};
use crate::text::{contains_text, option_text};
use vstd::prelude::*;

verus! {

/// A conversation that was read is shown as the one that it is; a new one is shown
/// without being open in the store yet, and one that was started for an explanation
/// goes on with the explanation.
pub proof fn a_finished_task_shows_what_was_read(
    sidebar: SidebarView,
    kind: SessionTaskKind,
    state: UiSessionState,
)
    ensures
        ({
            let after = after_task(sidebar, kind, TaskOutcome::Finished(state));
            let threads = thread_views(state.threads@);
            let messages = restored_views(state.messages@);
            let active = option_text(state.active_thread_id);
            &&& kind is Restore ==> after == sidebar.with_session(active, threads, messages)
            &&& kind is Switch ==> after == sidebar.with_session(active, threads, messages)
            &&& kind is Delete ==> after == sidebar.with_session(active, threads, messages)
            &&& kind is Create && kind->explanation is None ==> after == sidebar.with_session(
                None,
                threads,
                messages,
            )
            &&& kind is Create && kind->explanation is Some ==> after == sidebar.explaining(
                threads,
                kind->explanation->0@,
            )
        }),
{
}

/// A task that failed or was stopped leaves the conversations as they were, with an
/// error that says what was tried and why it failed. Where it was for an explanation,
/// that is told as well.
pub proof fn a_failed_task_says_what_was_tried(
    sidebar: SidebarView,
    kind: SessionTaskKind,
    error: String,
    tried: Seq<char>,
    stopped: Seq<char>,
)
    requires
        kind is Restore ==> tried == "无法恢复 AI 会话："@ && stopped == "AI 会话恢复任务已停止："@,
        kind is Create ==> tried == "无法新建 AI 会话："@ && stopped == "新建 AI 会话任务已停止："@,
        kind is Switch ==> tried == "无法切换 AI 会话："@ && stopped == "切换 AI 会话任务已停止："@,
        kind is Delete ==> tried == "无法删除 AI 会话："@ && stopped == "删除 AI 会话任务已停止："@,
    ensures
        ({
            let explains = kind is Create && kind->explanation is Some;
            let failed = tried + error@;
            let ended = tried + (stopped + error@);
            &&& after_task(sidebar, kind, TaskOutcome::Failed(error)) == (if explains {
                sidebar.with_session_error(failed).telling(
                    SignalView::ExplanationFailed(None, failed),
                )
            } else {
                sidebar.with_session_error(failed)
            })
            &&& after_task(sidebar, kind, TaskOutcome::Stopped(error)) == (if explains {
                sidebar.with_session_error(ended).telling(
                    SignalView::ExplanationFailed(None, ended),
                )
            } else {
                sidebar.with_session_error(ended)
            })
        }),
{
}

/// After a change of scope the list is that of the store. Where the store closed the
/// conversation, none is open and no message is shown; otherwise the one that the store
/// names stays open. A failure says why.
pub proof fn a_change_of_scope_reads_the_list_anew(
    sidebar: SidebarView,
    sessions: ReconciledSessions,
    error: String,
)
    ensures
        sessions.threads is Ok && sessions.reset ==> after_reconciling(
            sidebar,
            TaskOutcome::Finished(sessions),
        ) == sidebar.with_session(
            None,
            listed(sessions.threads->Ok_0@),
            Seq::<RestoredView>::empty(),
        ),
        sessions.threads is Ok && !sessions.reset ==> after_reconciling(
            sidebar,
            TaskOutcome::Finished(sessions),
        ) == sidebar.with_sessions(
            option_text(sessions.active_thread_id),
            listed(sessions.threads->Ok_0@),
        ),
        sessions.threads is Err && sessions.reset ==> after_reconciling(
            sidebar,
            TaskOutcome::Finished(sessions),
        ) == sidebar.with_session(None, Seq::empty(), Seq::<RestoredView>::empty()),
        sessions.threads is Err && !sessions.reset ==> after_reconciling(
            sidebar,
            TaskOutcome::Finished(sessions),
        ) == sidebar.with_session_error(
            "无法刷新当前范围的 AI 会话："@ + sessions.threads->Err_0@,
        ),
        after_reconciling(sidebar, TaskOutcome::Failed(error)) == sidebar.with_session_error(
            "无法同步 AI 会话范围："@ + error@,
        ),
{
}

/// Every piece of an answer goes to its end, a withdrawal takes it away, and a failure
/// ends the request with a friendly wording. That an answer is stored changes nothing
/// of what is shown.
pub proof fn the_messages_of_an_answer_reach_the_sidebar(
    sidebar: SidebarView,
    progress: AnswerProgress,
    text: String,
    answer: UiConversationAnswer,
)
    ensures
        after_message(sidebar, progress, UiAgentMessage::Delta(text)) == sidebar.appended(
            progress.request_id,
            text@,
        ),
        after_message(sidebar, progress, UiAgentMessage::Reset) == sidebar.answer_reset(
            progress.request_id,
        ),
        after_message(sidebar, progress, UiAgentMessage::Committed) == sidebar,
        after_message(sidebar, progress, UiAgentMessage::Completed(Err(text))) == sidebar.failed(
            progress.request_id,
            friendly_error(text@),
        ),
        after_message(sidebar, progress, UiAgentMessage::Completed(Ok(answer)))
            == after_completion(sidebar, progress, answer),
{
}

/// A completed answer is told with its own text, links and status, whatever of it had
/// been shown.
pub proof fn a_completed_answer_is_told_with_its_links(
    sidebar: SidebarView,
    progress: AnswerProgress,
    answer: UiConversationAnswer,
)
    requires
        sidebar.conversation.is_current(progress.request_id),
        !sidebar.pending_scope_sync,
    ensures
        ({
            let after = after_completion(sidebar, progress, answer);
            let n = after.outbox.len() as int;
            &&& n >= 2
            &&& after.outbox[n - 2] == SignalView::Completed(
                progress.request_id,
                answer.markdown@,
            )
            &&& !after.is_sending()
            &&& after.sessions == sidebar.sessions
            &&& exists|shown: SidebarView|
                shown.conversation.is_current(progress.request_id) && #[trigger] shown.finished(
                    progress.request_id,
                    answer.markdown@,
                    source_views(answer.sources@),
                    answer.source_status,
                ) == after
        }),
{
    let id = progress.request_id;
    let checked = if progress.answer_committed {
        sidebar
    } else {
        sidebar.answer_reset(id)
    };
    let shown = if progress.answer_committed && progress.received_delta {
        checked
    } else {
        checked.appended(id, answer.markdown@)
    };
    assert(shown.conversation.is_current(id));
    assert(shown.finished(
        id,
        answer.markdown@,
        source_views(answer.sources@),
        answer.source_status,
    ) == after_completion(sidebar, progress, answer));
}

/// An error is told in words that fit what it speaks of: that the model could not be
/// reached, that the answer was called off, that a source was made up, in this order;
/// any other error is told as it is.
pub proof fn an_error_is_told_for_what_it_speaks_of(error: Seq<char>)
    ensures
        ({
            let unreachable = contains_text(error, "connection refused"@) || contains_text(
                error,
                "failed to connect"@,
            );
            let cancelled = contains_text(error, "cancelled"@);
            let made_up = contains_text(error, "unknown or unserved citation"@);
            &&& unreachable ==> friendly_error(error)
                == "无法连接本地 Ollama。请确认 Ollama 已启动，并在 AI 设置中检查端点和模型；本应用不会代为启动服务。"@
            &&& !unreachable && cancelled ==> friendly_error(error) == "本次回答已取消。"@
            &&& !unreachable && !cancelled && made_up ==> friendly_error(error)
                == "模型引用了一个本次检索并未提供的来源，因此该回答未被采用。请重新提问；小模型更容易出现这种情况，可在 AI 设置中换用更强的对话模型。"@
            &&& !unreachable && !cancelled && !made_up ==> friendly_error(error)
                == "AI 回答失败："@ + error
        }),
{
}

/// A new answer shows the links of those of its citations that can be shown and lead to
/// the web or into an allowed book, all of them and in their order; none where the
/// documents could not be read.
pub proof fn a_new_answer_shows_its_allowed_citations(
    citations: Seq<AgentCitation>,
    allowed: Seq<Seq<char>>,
    documents: Seq<DocumentView>,
)
    ensures
        answer_links(citations, allowed, None).len() == 0,
        ({
            let shown = answer_links(citations, allowed, Some(documents));
            let links = live_links(citations);
            let within = links.filter(points_into(allowed));
            &&& links.len() == citations.filter(showable()).len()
            &&& shown.len() == within.len()
            &&& forall|i: int|
                #![trigger shown[i]]
                0 <= i < shown.len() ==> shown[i] == (SourceLinkView {
                    stale: shown[i].stale,
                    ..within[i]
                })
        }),
{
    every_citation_becomes_a_link(citations);
    every_allowed_link_is_kept_in_order(allowed, documents, live_links(citations), false);
}

// ---------------------------------------------------------------------------
// A question on its way
// ---------------------------------------------------------------------------

/// The model is asked exactly once the references are frozen; where they are refused,
/// that ends the question, and the reason is told.
pub proof fn a_question_goes_on_once_its_references_are_frozen(error: String)
    ensures
        after_freezing(WorkerStage::Freezing, Ok(())) == (
            WorkerStage::Asking { events_open: true },
            WorkerAction::Ask,
        ),
        after_freezing(WorkerStage::Freezing, Err(error)) == (
            WorkerStage::Done,
            WorkerAction::Deliver(UiAgentMessage::Completed(Err(error))),
        ),
{
}

/// While the model answers, each piece, withdrawal and confirmation is passed on as it
/// comes; the use of tools is not. Once the events have ended, nothing more is passed
/// on, and the stage of the question does not change by events otherwise.
pub proof fn the_pieces_of_an_answer_are_passed_on(text: String, event: AgentRunEvent)
    ensures
        ({
            let asking = WorkerStage::Asking { events_open: true };
            let heard = WorkerStage::Asking { events_open: false };
            &&& after_event(asking, Some(AgentRunEvent::AnswerDelta(text))) == (
                asking,
                WorkerAction::Deliver(UiAgentMessage::Delta(text)),
            )
            &&& after_event(asking, Some(AgentRunEvent::AnswerReset)) == (
                asking,
                WorkerAction::Deliver(UiAgentMessage::Reset),
            )
            &&& after_event(asking, Some(AgentRunEvent::AnswerCommitted)) == (
                asking,
                WorkerAction::Deliver(UiAgentMessage::Committed),
            )
            &&& after_event(asking, Some(AgentRunEvent::ToolStarted)) == (
                asking,
                WorkerAction::Wait,
            )
            &&& after_event(asking, Some(AgentRunEvent::ToolFinished)) == (
                asking,
                WorkerAction::Wait,
            )
            &&& after_event(asking, None) == (heard, WorkerAction::Wait)
            &&& after_event(heard, Some(event)) == (heard, WorkerAction::Wait)
        }),
{
}

/// An answer is checked against the documents before it is told; a failed one is told
/// without. Where nobody listens any more, the question is called off under its own
/// number.
pub proof fn an_answer_is_checked_before_it_is_told(
    events_open: bool,
    content: AnswerContent,
    error: String,
    request_id: u64,
)
    ensures
        ({
            let asking = WorkerStage::Asking { events_open };
            &&& after_answer(asking, Ok(content)) == (
                WorkerStage::Checking(content),
                WorkerAction::ReadDocuments,
            )
            &&& after_answer(asking, Err(error)) == (
                WorkerStage::Listing(Err(error)),
                WorkerAction::ListSessions,
            )
            &&& after_silence(asking, request_id) == (
                WorkerStage::Done,
                WorkerAction::Cancel { request_id },
            )
        }),
{
}

/// An answer counts as begun from its first piece on, and as confirmed from its
/// confirmation on, until it is withdrawn; it is done exactly once it was completed.
/// It always belongs to the same request.
pub proof fn an_answer_counts_as_begun_until_it_is_withdrawn(
    progress: AnswerProgress,
    message: UiAgentMessage,
)
    ensures
        ({
            let after = progressed(progress, message);
            &&& after.request_id == progress.request_id
            &&& after.received_delta <==> message is Delta || (progress.received_delta
                && !(message is Reset))
            &&& after.answer_committed <==> message is Committed || (progress.answer_committed
                && !(message is Reset))
            &&& after.done <==> message is Completed || progress.done
        }),
{
}

} // verus!
