//! A question on its way: from the references that are frozen for it to the answer
//! that is told.

use crate::citations::{documents_read, listed, thread_options, AgentCitation, ChatThread};
use crate::controller::{
    answer_links, completed_answer, fail_preparation, friendly_error, ui_message, AgentRunEvent,
    AiSidebarController, UiAgentMessage, UiConversationAnswer,
};
use crate::conversation::AiQuestionRequest;
use crate::document::{BookDocument, DocumentView};
use crate::reference_freeze::{merge_editor_reference, merged_references};
use crate::references::{hint_views, AiReferenceHint};
use crate::sessions::{thread_views, AiThreadOption};
use crate::sidebar::AiSidebar;
use crate::sources::{source_views, AgentAnswerSourceStatus};
use crate::text::texts;
use vstd::prelude::*;

verus! {

/// A question whose references are to be frozen.
#[derive(Debug, PartialEq, Eq)]
pub struct Submission {
    pub request_id: u64,
    pub question: String,
    pub book_ids: Vec<String>,
    pub book_titles: Vec<(String, String)>,
    pub references: Vec<AiReferenceHint>,
}

impl AiSidebarController {
    /// Sends a question. `prepared` says whether a request could be prepared for
    /// it, or why not. What an editor froze anew takes the place of the reference
    /// to the same unit.
    pub fn submit(
        &self,
        request: AiQuestionRequest,
        prepared: &Result<(), String>,
        sidebar: &mut AiSidebar,
    ) -> (r: Option<Submission>)
        ensures
            r is Some == (*prepared is Ok),
            match *prepared {
                Ok(()) => {
                    &&& r->0.request_id == request.request_id
                    &&& r->0.question == request.question
                    &&& r->0.book_ids == request.book_ids
                    &&& r->0.book_titles == request.book_titles
                    &&& hint_views(r->0.references@) == merged_references(
                        hint_views(request.reference_hints@),
                        match request.reference {
                            Some(reference) => Some(reference@),
                            None => None,
                        },
                    )
                    &&& final(sidebar)@ == old(sidebar)@
                },
                Err(error) => final(sidebar)@ == old(sidebar)@.failed(
                    request.request_id,
                    friendly_error(error@),
                ),
            },
    {
        match prepared {
            Ok(()) => Some(
                Submission {
                    request_id: request.request_id,
                    question: request.question,
                    book_ids: request.book_ids,
                    book_titles: request.book_titles,
                    references: merge_editor_reference(
                        request.reference_hints,
                        request.reference,
                    ),
                },
            ),
            Err(error) => {
                let _ = fail_preparation(request.request_id, error.as_str(), sidebar);
                None
            },
        }
    }
}

/// The answer of a model.
#[derive(Debug, PartialEq, Eq)]
pub struct AnswerContent {
    pub markdown: String,
    pub citations: Vec<AgentCitation>,
    pub source_status: AgentAnswerSourceStatus,
}

/// How far a question has come.
#[derive(Debug, PartialEq, Eq)]
pub enum WorkerStage {
    /// Its references are being frozen.
    Freezing,
    /// The model is answering. Its events come in as long as they are open.
    Asking { events_open: bool },
    /// The documents are being read that the links of the answer are held against.
    Checking(AnswerContent),
    /// The stored conversations are being listed; then the result is told.
    Listing(Result<UiConversationAnswer, String>),
    Done,
}

/// What is to be done next.
#[derive(Debug, PartialEq, Eq)]
pub enum WorkerAction {
    /// Wait for what comes next.
    Wait,
    /// Ask the model.
    Ask,
    /// Tell the sidebar.
    Deliver(UiAgentMessage),
    /// Cancel the request.
    Cancel { request_id: u64 },
    /// Read the documents of the scope.
    ReadDocuments,
    /// List the stored conversations.
    ListSessions,
}

/// A question on its way.
#[derive(Debug, PartialEq, Eq)]
pub struct AnswerWorker {
    pub request_id: u64,
    pub stage: WorkerStage,
}

/// Once the references are frozen, the model is asked; where they could not be,
/// that is told, and nothing else happens.
pub open spec fn after_freezing(stage: WorkerStage, result: Result<(), String>) -> (
    WorkerStage,
    WorkerAction,
) {
    match (stage, result) {
        (WorkerStage::Freezing, Ok(())) => (
            WorkerStage::Asking { events_open: true },
            WorkerAction::Ask,
        ),
        (WorkerStage::Freezing, Err(error)) => (
            WorkerStage::Done,
            WorkerAction::Deliver(UiAgentMessage::Completed(Err(error))),
        ),
        _ => (stage, WorkerAction::Wait),
    }
}

/// What the sidebar is told of an event of the model, or of their end.
pub open spec fn after_event(stage: WorkerStage, event: Option<AgentRunEvent>) -> (
    WorkerStage,
    WorkerAction,
) {
    match (stage, event) {
        (WorkerStage::Asking { events_open: true }, Some(event)) => (
            stage,
            match told(event) {
                Some(message) => WorkerAction::Deliver(message),
                None => WorkerAction::Wait,
            },
        ),
        (WorkerStage::Asking { events_open: true }, None) => (
            WorkerStage::Asking { events_open: false },
            WorkerAction::Wait,
        ),
        _ => (stage, WorkerAction::Wait),
    }
}

/// What the sidebar is told of an event of the model, if anything.
pub open spec fn told(event: AgentRunEvent) -> Option<UiAgentMessage> {
    match event {
        AgentRunEvent::AnswerDelta(delta) => Some(UiAgentMessage::Delta(delta)),
        AgentRunEvent::AnswerReset => Some(UiAgentMessage::Reset),
        AgentRunEvent::AnswerCommitted => Some(UiAgentMessage::Committed),
        AgentRunEvent::ToolStarted => None,
        AgentRunEvent::ToolFinished => None,
    }
}

/// Where nobody is there to be told, an answer that is still being given is
/// cancelled.
pub open spec fn after_silence(stage: WorkerStage, request_id: u64) -> (WorkerStage, WorkerAction) {
    match stage {
        WorkerStage::Asking { events_open } => (
            WorkerStage::Done,
            WorkerAction::Cancel { request_id },
        ),
        _ => (stage, WorkerAction::Wait),
    }
}

/// Once the model has answered, the links of the answer are held against the
/// documents; where it failed, there is nothing to hold.
pub open spec fn after_answer(stage: WorkerStage, result: Result<AnswerContent, String>) -> (
    WorkerStage,
    WorkerAction,
) {
    match (stage, result) {
        (WorkerStage::Asking { events_open }, Ok(content)) => (
            WorkerStage::Checking(content),
            WorkerAction::ReadDocuments,
        ),
        (WorkerStage::Asking { events_open }, Err(error)) => (
            WorkerStage::Listing(Err(error)),
            WorkerAction::ListSessions,
        ),
        _ => (stage, WorkerAction::Wait),
    }
}

/// Whether an answer is what a model said, with the links that hold.
pub open spec fn is_answer_of(
    answer: UiConversationAnswer,
    content: AnswerContent,
    allowed: Seq<Seq<char>>,
    documents: Option<Seq<DocumentView>>,
) -> bool {
    &&& answer.markdown == content.markdown
    &&& answer.source_status == content.source_status
    &&& source_views(answer.sources@) == answer_links(content.citations@, allowed, documents)
}

impl AnswerWorker {
    /// The start.
    pub fn new(request_id: u64) -> (r: Self)
        ensures
            r == (AnswerWorker { request_id, stage: WorkerStage::Freezing }),
    {
        AnswerWorker { request_id, stage: WorkerStage::Freezing }
    }

    /// Takes whether the references are frozen, or why they are not.
    pub fn frozen(&mut self, result: Result<(), String>) -> (r: WorkerAction)
        ensures
            final(self).request_id == old(self).request_id,
            (final(self).stage, r) == after_freezing(old(self).stage, result),
    {
        match &self.stage {
            WorkerStage::Freezing => match result {
                Ok(()) => {
                    self.stage = WorkerStage::Asking { events_open: true };
                    WorkerAction::Ask
                },
                Err(error) => {
                    self.stage = WorkerStage::Done;
                    WorkerAction::Deliver(UiAgentMessage::Completed(Err(error)))
                },
            },
            _ => WorkerAction::Wait,
        }
    }

    /// Takes an event of the model, or that there are no more.
    pub fn agent_event(&mut self, event: Option<AgentRunEvent>) -> (r: WorkerAction)
        ensures
            final(self).request_id == old(self).request_id,
            (final(self).stage, r) == after_event(old(self).stage, event),
    {
        match &self.stage {
            WorkerStage::Asking { events_open: true } => match event {
                Some(event) => match ui_message(event) {
                    Some(message) => WorkerAction::Deliver(message),
                    None => WorkerAction::Wait,
                },
                None => {
                    self.stage = WorkerStage::Asking { events_open: false };
                    WorkerAction::Wait
                },
            },
            _ => WorkerAction::Wait,
        }
    }

    /// Takes that nobody was there to be told.
    pub fn undelivered(&mut self) -> (r: WorkerAction)
        ensures
            final(self).request_id == old(self).request_id,
            (final(self).stage, r) == after_silence(old(self).stage, old(self).request_id),
    {
        match &self.stage {
            WorkerStage::Asking { .. } => {
                self.stage = WorkerStage::Done;
                WorkerAction::Cancel { request_id: self.request_id }
            },
            _ => WorkerAction::Wait,
        }
    }

    /// Takes the answer of the model, or why there is none.
    pub fn answered(&mut self, result: Result<AnswerContent, String>) -> (r: WorkerAction)
        ensures
            final(self).request_id == old(self).request_id,
            (final(self).stage, r) == after_answer(old(self).stage, result),
    {
        match &self.stage {
            WorkerStage::Asking { .. } => match result {
                Ok(content) => {
                    self.stage = WorkerStage::Checking(content);
                    WorkerAction::ReadDocuments
                },
                Err(error) => {
                    self.stage = WorkerStage::Listing(Err(error));
                    WorkerAction::ListSessions
                },
            },
            _ => WorkerAction::Wait,
        }
    }

    /// Takes the documents of the scope, where they could be read.
    pub fn documents_read(
        &mut self,
        allowed_book_ids: &Vec<String>,
        documents: &Option<Vec<BookDocument>>,
    ) -> (r: WorkerAction)
        ensures
            final(self).request_id == old(self).request_id,
            match old(self).stage {
                WorkerStage::Checking(content) => r == WorkerAction::ListSessions && (
                final(self).stage matches WorkerStage::Listing(Ok(answer)) && is_answer_of(
                    answer,
                    content,
                    texts(allowed_book_ids@),
                    documents_read(*documents),
                )),
                _ => r == WorkerAction::Wait && final(self).stage == old(self).stage,
            },
    {
        let mut stage = WorkerStage::Done;
        std::mem::swap(&mut stage, &mut self.stage);
        match stage {
            WorkerStage::Checking(content) => {
                let answer = completed_answer(
                    content.markdown,
                    &content.citations,
                    content.source_status,
                    allowed_book_ids,
                    documents,
                );
                self.stage = WorkerStage::Listing(Ok(answer));
                WorkerAction::ListSessions
            },
            other => {
                self.stage = other;
                WorkerAction::Wait
            },
        }
    }

    /// Takes the stored conversations, or why they could not be listed. The result
    /// is what the sidebar is told, in order: the conversations where they are
    /// known, then the answer.
    pub fn sessions_listed(
        &mut self,
        active_thread_id: Option<String>,
        threads: &Result<Vec<ChatThread>, String>,
    ) -> (r: Vec<UiAgentMessage>)
        ensures
            final(self).request_id == old(self).request_id,
            match old(self).stage {
                WorkerStage::Listing(result) => {
                    &&& final(self).stage == WorkerStage::Done
                    &&& r@.len() == (if *threads is Ok {
                        2int
                    } else {
                        1int
                    })
                    &&& r@.last() == UiAgentMessage::Completed(result)
                    &&& *threads matches Ok(threads) ==> (r@[0] matches UiAgentMessage::Sessions {
                        active_thread_id: active,
                        threads: options,
                    } && active == active_thread_id && thread_views(options@) == listed(threads@))
                },
                _ => r@.len() == 0 && final(self).stage == old(self).stage,
            },
    {
        let mut messages: Vec<UiAgentMessage> = Vec::new();
        let mut stage = WorkerStage::Done;
        std::mem::swap(&mut stage, &mut self.stage);
        match stage {
            WorkerStage::Listing(result) => {
                if let Ok(threads) = threads {
                    let options: Vec<AiThreadOption> = thread_options(threads);
                    messages.push(
                        UiAgentMessage::Sessions { active_thread_id, threads: options },
                    );
                }
                messages.push(UiAgentMessage::Completed(result));
            },
            other => {
                self.stage = other;
            },
        }
        messages
    }
}

// ---------------------------------------------------------------------------
// Laws
// ---------------------------------------------------------------------------

/// A question that has come to its end stays there: nothing is asked, told or
/// cancelled any more.
pub proof fn an_ended_question_stays_ended(
    frozen: Result<(), String>,
    event: Option<AgentRunEvent>,
    answer: Result<AnswerContent, String>,
    request_id: u64,
)
    ensures
        after_freezing(WorkerStage::Done, frozen) == (WorkerStage::Done, WorkerAction::Wait),
        after_event(WorkerStage::Done, event) == (WorkerStage::Done, WorkerAction::Wait),
        after_silence(WorkerStage::Done, request_id) == (WorkerStage::Done, WorkerAction::Wait),
        after_answer(WorkerStage::Done, answer) == (WorkerStage::Done, WorkerAction::Wait),
{
}

/// The model is asked only once the references are frozen, and only once.
pub proof fn the_model_is_asked_once(
    stage: WorkerStage,
    frozen: Result<(), String>,
    event: Option<AgentRunEvent>,
    answer: Result<AnswerContent, String>,
    request_id: u64,
)
    ensures
        after_freezing(stage, frozen).1 is Ask ==> stage is Freezing && frozen is Ok,
        !(after_freezing(stage, frozen).0 is Freezing),
        !(after_event(stage, event).1 is Ask),
        !(after_silence(stage, request_id).1 is Ask),
        !(after_answer(stage, answer).1 is Ask),
        after_event(stage, event).0 is Freezing ==> stage is Freezing,
        after_silence(stage, request_id).0 is Freezing ==> stage is Freezing,
        after_answer(stage, answer).0 is Freezing ==> stage is Freezing,
{
}

} // verus!
