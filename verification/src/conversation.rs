//! One conversation: its scope, the references that are chosen for the next
//! question, the messages, and the request that is under way.

use crate::references::{
    accept_hints, accepted_hints, has_key, hint_views, is_usable, key_other_than, key_views,
    keys_have, keys_without, list_has_key, offered_by, offered_keys, reference_key, same_revision,
    usable, usable_hints, valid_reference_hint_locator, AiReferenceHint, AiReferenceKey, HintView,
    KeyView,
};
use crate::scope::{
    book_views, is_offered, offers, AiBookOption, AiSidebarScope, BookView, ScopeView,
};
use crate::seqs::{lemma_filter_ends, lemma_filter_step};
use crate::sources::{
    allowed_source, allowed_source_links, source_views, AgentAnswerSourceStatus, AiSourceLink,
    SourceLinkView,
};
use crate::text::{
    byte_len, byte_length, is_blank, lemma_trimmed, list_has, same_text, texts, trim, trimmed,
};
use vstd::prelude::*;
use vstd::string::*;

verus! {

/// The longest question, in bytes.
pub const MAX_QUESTION_BYTES: usize = 32768;

/// The longest message, in bytes.
pub const MAX_MESSAGE_BYTES: usize = 1048576;

/// The most references that one question may have.
pub const MAX_SELECTED_REFERENCES: usize = 16;

/// The question that an explanation of selected text asks.
pub const SELECTION_EXPLANATION_QUESTION: &'static str = "用汉语详细解释一下";

/// Who a message is from.
#[derive(Clone, Copy, Debug, PartialEq, Eq, Structural)]
pub enum AiMessageRole {
    User,
    Assistant,
    Status,
    Error,
}

/// A message of the conversation.
#[derive(Debug, PartialEq, Eq)]
pub struct AiMessage {
    pub id: u64,
    pub role: AiMessageRole,
    pub content: String,
    pub sources: Vec<AiSourceLink>,
    pub source_status: Option<AgentAnswerSourceStatus>,
    pub request_id: Option<u64>,
}

/// A message, as texts.
pub struct MessageView {
    pub id: u64,
    pub role: AiMessageRole,
    pub content: Seq<char>,
    pub sources: Seq<SourceLinkView>,
    pub source_status: Option<AgentAnswerSourceStatus>,
    pub request_id: Option<u64>,
}

impl View for AiMessage {
    type V = MessageView;

    open spec fn view(&self) -> MessageView {
        MessageView {
            id: self.id,
            role: self.role,
            content: self.content@,
            sources: source_views(self.sources@),
            source_status: self.source_status,
            request_id: self.request_id,
        }
    }
}

fn copy_sources(sources: &Vec<AiSourceLink>) -> (r: Vec<AiSourceLink>)
    ensures
        r@ == sources@,
{
    let mut out: Vec<AiSourceLink> = Vec::new();
    let mut i: usize = 0;
    while i < sources.len()
        invariant
            i <= sources@.len(),
            out@ == sources@.subrange(0, i as int),
        decreases sources@.len() - i,
    {
        out.push(sources[i].clone());
        i = i + 1;
        assert(out@ =~= sources@.subrange(0, i as int));
    }
    assert(out@ =~= sources@);
    out
}

impl Clone for AiMessage {
    fn clone(&self) -> (r: Self)
        ensures
            r@ == self@,
    {
        AiMessage {
            id: self.id,
            role: self.role,
            content: self.content.clone(),
            sources: copy_sources(&self.sources),
            source_status: self.source_status,
            request_id: self.request_id,
        }
    }
}

/// The messages that a list holds.
pub open spec fn message_views(messages: Seq<AiMessage>) -> Seq<MessageView> {
    messages.map_values(|m: AiMessage| m@)
}

/// Whether an answer is awaited.
#[derive(Clone, Copy, Debug, PartialEq, Eq, Structural)]
pub enum RequestState {
    Idle,
    Sending { request_id: u64 },
}

/// A question with everything that its answer may rest on.
#[derive(Debug, PartialEq, Eq)]
pub struct AiQuestionRequest {
    pub request_id: u64,
    pub question: String,
    pub book_ids: Vec<String>,
    pub book_titles: Vec<(String, String)>,
    pub reference_hints: Vec<AiReferenceHint>,
    /// The first of `reference_hints`, for a host that freezes it anew before
    /// the question is sent.
    pub reference: Option<AiReferenceHint>,
}

/// A question, as texts.
pub struct QuestionView {
    pub request_id: u64,
    pub question: Seq<char>,
    pub book_ids: Seq<Seq<char>>,
    pub book_titles: Seq<(Seq<char>, Seq<char>)>,
    pub reference_hints: Seq<HintView>,
    pub reference: Option<HintView>,
}

impl View for AiQuestionRequest {
    type V = QuestionView;

    open spec fn view(&self) -> QuestionView {
        QuestionView {
            request_id: self.request_id,
            question: self.question@,
            book_ids: texts(self.book_ids@),
            book_titles: self.book_titles@.map_values(|p: (String, String)| (p.0@, p.1@)),
            reference_hints: hint_views(self.reference_hints@),
            reference: match self.reference {
                Some(hint) => Some(hint@),
                None => None,
            },
        }
    }
}

/// The question that an optional request asks.
pub open spec fn question_view(request: Option<AiQuestionRequest>) -> Option<QuestionView> {
    match request {
        Some(request) => Some(request@),
        None => None,
    }
}

/// The selection that is referred to without being chosen by hand.
#[derive(Debug, PartialEq, Eq)]
pub struct AutomaticReferenceState {
    pub key: AiReferenceKey,
    pub frozen_text: String,
    pub revision: Option<u64>,
    pub included: bool,
}

/// The automatic reference, as texts.
pub struct AutomaticView {
    pub key: KeyView,
    pub frozen_text: Seq<char>,
    pub revision: Option<u64>,
    pub included: bool,
}

impl View for AutomaticReferenceState {
    type V = AutomaticView;

    open spec fn view(&self) -> AutomaticView {
        AutomaticView {
            key: self.key@,
            frozen_text: self.frozen_text@,
            revision: self.revision,
            included: self.included,
        }
    }
}

impl AutomaticView {
    /// Whether both stand for the same selection of the same version.
    pub open spec fn same_selection(self, other: AutomaticView) -> bool {
        self.key == other.key && self.frozen_text == other.frozen_text && self.revision
            == other.revision
    }
}

/// The automatic reference that a hint gives rise to, included.
pub open spec fn automatic_of(hint: HintView) -> AutomaticView {
    AutomaticView {
        key: hint.key(),
        frozen_text: hint.frozen_text->0,
        revision: hint.revision,
        included: true,
    }
}

impl AutomaticReferenceState {
    /// The automatic reference that a hint gives rise to, if its text is frozen.
    pub fn from_reference(reference: &AiReferenceHint) -> (r: Option<Self>)
        ensures
            match r {
                Some(automatic) => reference@.is_frozen() && automatic@ == automatic_of(
                    reference@,
                ),
                None => !reference@.is_frozen(),
            },
    {
        if !reference.is_frozen() {
            return None;
        }
        match &reference.frozen_text {
            Some(text) => Some(
                AutomaticReferenceState {
                    key: reference_key(reference),
                    frozen_text: text.clone(),
                    revision: reference.revision,
                    included: true,
                },
            ),
            None => None,
        }
    }

    /// Whether both stand for the same selection of the same version.
    pub fn same_selection(&self, other: &Self) -> (r: bool)
        ensures
            r == self@.same_selection(other@),
    {
        self.key.same(&other.key) && same_text(
            self.frozen_text.as_str(),
            other.frozen_text.as_str(),
        ) && same_revision(self.revision, other.revision)
    }
}

/// A conversation.
#[derive(Debug)]
pub struct ConversationState {
    pub scope: AiSidebarScope,
    pub reference_hints: Vec<AiReferenceHint>,
    pub automatic_reference: Option<AutomaticReferenceState>,
    pub included_references: Vec<AiReferenceKey>,
    pub messages: Vec<AiMessage>,
    pub request: RequestState,
    pub next_id: u64,
}

/// A conversation, as texts.
pub struct ConversationView {
    pub scope: ScopeView,
    pub hints: Seq<HintView>,
    pub automatic: Option<AutomaticView>,
    /// The keys of the references that were chosen by hand.
    pub included: Seq<KeyView>,
    pub messages: Seq<MessageView>,
    pub request: RequestState,
    pub next_id: u64,
}

/// The automatic reference, as texts.
pub open spec fn automatic_view(automatic: Option<AutomaticReferenceState>) -> Option<
    AutomaticView,
> {
    match automatic {
        Some(automatic) => Some(automatic@),
        None => None,
    }
}

impl View for ConversationState {
    type V = ConversationView;

    open spec fn view(&self) -> ConversationView {
        ConversationView {
            scope: self.scope@,
            hints: hint_views(self.reference_hints@),
            automatic: automatic_view(self.automatic_reference),
            included: key_views(self.included_references@),
            messages: message_views(self.messages@),
            request: self.request,
            next_id: self.next_id,
        }
    }
}

/// The identifier behind another one; the largest stays.
pub open spec fn next_after(id: u64) -> u64 {
    if id == u64::MAX {
        id
    } else {
        (id + 1) as u64
    }
}

/// Whether a message is a part of the answer to a request.
pub open spec fn answers(message: MessageView, request_id: u64) -> bool {
    message.request_id == Some(request_id) && message.role == AiMessageRole::Assistant
}

/// The test for messages that are no part of the answer to a request.
pub open spec fn not_answering(request_id: u64) -> spec_fn(MessageView) -> bool {
    |message: MessageView| !answers(message, request_id)
}

/// The test for messages that belong to a request.
pub open spec fn belonging_to(request_id: u64) -> spec_fn(MessageView) -> bool {
    |message: MessageView| message.request_id == Some(request_id)
}

/// The place of the last message that answers a request.
pub open spec fn answer_index(messages: Seq<MessageView>, request_id: u64) -> Option<int>
    decreases messages.len(),
{
    if messages.len() == 0 {
        None
    } else if answers(messages.last(), request_id) {
        Some(messages.len() - 1)
    } else {
        answer_index(messages.drop_last(), request_id)
    }
}

/// A message without sources.
pub open spec fn plain_message(
    id: u64,
    role: AiMessageRole,
    content: Seq<char>,
    request_id: Option<u64>,
) -> MessageView {
    MessageView { id, role, content, sources: Seq::empty(), source_status: None, request_id }
}

/// The test for identifiers that are on offer.
pub open spec fn on_offer(available: Seq<BookView>) -> spec_fn(Seq<char>) -> bool {
    |id: Seq<char>| offers(available, id)
}

/// A new scope, with the books that were added to the old one as far as they are
/// still on offer for the same current book.
pub open spec fn carried_scope(old_scope: ScopeView, scope: ScopeView) -> ScopeView {
    match (old_scope, scope) {
        (
            ScopeView::Book { current: old_current, available: _, additional: old_additional },
            ScopeView::Book { current, available, additional },
        ) => if old_current.id == current.id {
            ScopeView::Book {
                current,
                available,
                additional: old_additional.filter(on_offer(available)),
            }
        } else {
            scope
        },
        _ => scope,
    }
}

/// A message with the links that are allowed.
pub open spec fn with_allowed_sources(allowed: Seq<Seq<char>>) -> spec_fn(
    MessageView,
) -> MessageView {
    |message: MessageView|
        MessageView { sources: message.sources.filter(allowed_source(allowed)), ..message }
}

/// The first hint whose text is frozen.
pub open spec fn first_frozen(hints: Seq<HintView>) -> Option<HintView>
    decreases hints.len(),
{
    if hints.len() == 0 {
        None
    } else if hints[0].is_frozen() {
        Some(hints[0])
    } else {
        first_frozen(hints.drop_first())
    }
}

/// The automatic reference among hints: a selection that was excluded before
/// stays so, and one for which there is no room is excluded.
pub open spec fn automatic_among(
    hints: Seq<HintView>,
    previous: Option<AutomaticView>,
    included: Seq<KeyView>,
) -> Option<AutomaticView> {
    match first_frozen(hints) {
        None => None,
        Some(hint) => {
            let fresh = automatic_of(hint);
            let wanted = match previous {
                Some(previous) => if previous.same_selection(fresh) {
                    previous.included
                } else {
                    true
                },
                None => true,
            };
            Some(
                AutomaticView {
                    included: wanted && (included.contains(fresh.key) || included.len()
                        < MAX_SELECTED_REFERENCES),
                    ..fresh
                },
            )
        },
    }
}

impl ConversationView {
    /// A conversation in which nothing was said.
    pub open spec fn initial(scope: ScopeView) -> ConversationView {
        ConversationView {
            scope,
            hints: Seq::empty(),
            automatic: None,
            included: Seq::empty(),
            messages: Seq::empty(),
            request: RequestState::Idle,
            next_id: 1,
        }
    }

    /// Without the references and links that the scope does not allow.
    pub open spec fn pruned(self) -> ConversationView {
        let allowed = self.scope.book_ids();
        let hints = self.hints.filter(usable(allowed));
        ConversationView {
            hints,
            included: self.included.filter(offered_by(hints)),
            automatic: match self.automatic {
                Some(automatic) => if has_key(hints, automatic.key) {
                    Some(automatic)
                } else {
                    None
                },
                None => None,
            },
            messages: self.messages.map_values(with_allowed_sources(allowed)),
            ..self
        }
    }

    /// After the host has set a scope.
    pub open spec fn with_scope(self, scope: ScopeView) -> ConversationView {
        let carried = carried_scope(self.scope, scope);
        if carried == self.scope {
            self
        } else {
            (ConversationView { scope: carried, ..self }).pruned()
        }
    }

    /// After the host has offered references.
    pub open spec fn with_hints(self, references: Seq<HintView>) -> ConversationView {
        let hints = accepted_hints(self.scope.book_ids(), references);
        let included = self.included.filter(offered_by(hints));
        ConversationView {
            hints,
            included,
            automatic: automatic_among(hints, self.automatic, included),
            ..self
        }
    }

    /// Whether a key is that of the automatic reference.
    pub open spec fn is_automatic(self, key: KeyView) -> bool {
        self.automatic is Some && self.automatic->0.key == key
    }

    /// Whether the next question refers to the reference with a key.
    pub open spec fn includes(self, key: KeyView) -> bool {
        self.included.contains(key) || (self.automatic is Some && self.automatic->0.included
            && self.automatic->0.key == key)
    }

    /// How many references the next question has.
    pub open spec fn reference_count(self) -> nat {
        self.included.len() + (if self.automatic is Some && self.automatic->0.included
            && !self.included.contains(self.automatic->0.key) {
            1nat
        } else {
            0nat
        })
    }

    /// Whether choosing or dropping a reference changes anything.
    pub open spec fn can_toggle(self, key: KeyView) -> bool {
        self.includes(key) || (self.reference_count() < MAX_SELECTED_REFERENCES && (
        self.is_automatic(key) || has_key(self.hints, key)))
    }

    /// After a reference was chosen, or dropped where it was chosen.
    pub open spec fn toggled(self, key: KeyView) -> ConversationView {
        let automatic = self.is_automatic(key);
        if !self.can_toggle(key) {
            self
        } else if self.includes(key) {
            ConversationView {
                included: self.included.filter(key_other_than(key)),
                automatic: if automatic {
                    Some(AutomaticView { included: false, ..self.automatic->0 })
                } else {
                    self.automatic
                },
                ..self
            }
        } else if automatic {
            ConversationView {
                automatic: Some(AutomaticView { included: true, ..self.automatic->0 }),
                ..self
            }
        } else {
            ConversationView { included: self.included.push(key), ..self }
        }
    }

    /// Whether a question may be sent.
    pub open spec fn can_ask(self, question: Seq<char>) -> bool {
        self.request is Idle && !is_blank(question) && byte_len(trimmed(question))
            <= MAX_QUESTION_BYTES
    }

    /// The references of the next question.
    pub open spec fn chosen_hints(self) -> Seq<HintView> {
        self.hints.filter(chosen_in(self))
    }

    /// The request that a question becomes.
    pub open spec fn request_for(self, question: Seq<char>) -> QuestionView {
        let hints = self.chosen_hints();
        QuestionView {
            request_id: self.next_id,
            question: trimmed(question),
            book_ids: self.scope.book_ids(),
            book_titles: self.scope.selected_books().map_values(
                |b: BookView| (b.id, b.title),
            ),
            reference_hints: hints,
            reference: if hints.len() > 0 {
                Some(hints[0])
            } else {
                None
            },
        }
    }

    /// After a question was sent.
    pub open spec fn asked(self, question: Seq<char>) -> ConversationView {
        let id = self.next_id;
        ConversationView {
            request: RequestState::Sending { request_id: id },
            messages: self.messages.push(
                plain_message(next_after(id), AiMessageRole::User, trimmed(question), Some(id)),
            ),
            next_id: next_after(next_after(id)),
            ..self
        }
    }

    /// Whether an explanation of selected text may be asked for.
    pub open spec fn can_explain(self, reference: HintView) -> bool {
        self.request is Idle && is_usable(self.scope.book_ids(), reference)
            && reference.is_frozen()
    }

    /// With a selection as the only reference and nothing said.
    pub open spec fn cleared_for(self, reference: HintView) -> ConversationView {
        (ConversationView {
            messages: Seq::empty(),
            included: Seq::empty(),
            automatic: None,
            ..self
        }).with_hints(seq![reference])
    }

    /// After an explanation of selected text was asked for.
    pub open spec fn explaining(self, reference: HintView) -> ConversationView {
        self.cleared_for(reference).asked(SELECTION_EXPLANATION_QUESTION@)
    }

    /// Whether a request is the one whose answer is awaited.
    pub open spec fn is_current(self, request_id: u64) -> bool {
        self.request == (RequestState::Sending { request_id })
    }

    /// Without the answer to a request, as far as it has come.
    pub open spec fn without_answer(self, request_id: u64) -> ConversationView {
        ConversationView { messages: self.messages.filter(not_answering(request_id)), ..self }
    }

    /// After a request ended without an answer, with a message that says so.
    pub open spec fn ended(
        self,
        request_id: u64,
        role: AiMessageRole,
        content: Seq<char>,
    ) -> ConversationView {
        let rest = self.without_answer(request_id);
        ConversationView {
            request: RequestState::Idle,
            messages: rest.messages.push(
                plain_message(self.next_id, role, content, Some(request_id)),
            ),
            next_id: next_after(self.next_id),
            ..rest
        }
    }

    /// After the awaited answer was called off.
    pub open spec fn cancelled(self) -> ConversationView {
        match self.request {
            RequestState::Idle => self,
            RequestState::Sending { request_id } => self.ended(
                request_id,
                AiMessageRole::Status,
                "已取消本次回答。"@,
            ),
        }
    }

    /// The answer to a request as far as it has come.
    pub open spec fn answer_so_far(self, request_id: u64) -> Seq<char> {
        match answer_index(self.messages, request_id) {
            Some(i) => self.messages[i].content,
            None => Seq::empty(),
        }
    }

    /// Whether a piece of an answer is taken.
    pub open spec fn can_append(self, request_id: u64, delta: Seq<char>) -> bool {
        self.is_current(request_id) && delta.len() > 0 && byte_len(self.answer_so_far(request_id))
            + byte_len(delta) <= MAX_MESSAGE_BYTES
    }

    /// After a piece of an answer has come.
    pub open spec fn appended(self, request_id: u64, delta: Seq<char>) -> ConversationView {
        if !self.can_append(request_id, delta) {
            self
        } else {
            match answer_index(self.messages, request_id) {
                Some(i) => ConversationView {
                    messages: self.messages.update(
                        i,
                        MessageView {
                            content: self.messages[i].content + delta,
                            ..self.messages[i]
                        },
                    ),
                    ..self
                },
                None => ConversationView {
                    messages: self.messages.push(
                        plain_message(
                            self.next_id,
                            AiMessageRole::Assistant,
                            delta,
                            Some(request_id),
                        ),
                    ),
                    next_id: next_after(self.next_id),
                    ..self
                },
            }
        }
    }

    /// After the answer was withdrawn in order to be given anew.
    pub open spec fn reset(self, request_id: u64) -> ConversationView {
        if self.is_current(request_id) {
            self.without_answer(request_id)
        } else {
            self
        }
    }

    /// After the answer was completed.
    pub open spec fn finished(
        self,
        request_id: u64,
        sources: Seq<SourceLinkView>,
        status: AgentAnswerSourceStatus,
    ) -> ConversationView {
        let allowed = sources.filter(allowed_source(self.scope.book_ids()));
        if !self.is_current(request_id) {
            self
        } else {
            match answer_index(self.messages, request_id) {
                Some(i) => ConversationView {
                    request: RequestState::Idle,
                    messages: self.messages.update(
                        i,
                        MessageView {
                            sources: allowed,
                            source_status: Some(status),
                            ..self.messages[i]
                        },
                    ),
                    ..self
                },
                None => ConversationView {
                    request: RequestState::Idle,
                    messages: self.messages.push(
                        MessageView {
                            id: self.next_id,
                            role: AiMessageRole::Assistant,
                            content: "模型没有返回文本。"@,
                            sources: allowed,
                            source_status: Some(status),
                            request_id: Some(request_id),
                        },
                    ),
                    next_id: next_after(self.next_id),
                    ..self
                },
            }
        }
    }

    /// After the answer failed.
    pub open spec fn failed(self, request_id: u64, message: Seq<char>) -> ConversationView {
        if self.is_current(request_id) {
            self.ended(request_id, AiMessageRole::Error, message)
        } else {
            self
        }
    }

    /// With the messages of the awaited answer alone.
    pub open spec fn only_current_request(self) -> ConversationView {
        ConversationView {
            messages: match self.request {
                RequestState::Sending { request_id } => self.messages.filter(
                    belonging_to(request_id),
                ),
                RequestState::Idle => Seq::empty(),
            },
            ..self
        }
    }
}

/// The test for references that the next question of a conversation has.
pub open spec fn chosen_in(conversation: ConversationView) -> spec_fn(HintView) -> bool {
    |hint: HintView| conversation.includes(hint.key())
}

fn remaining_on_offer(ids: &Vec<String>, available: &Vec<AiBookOption>) -> (r: Vec<String>)
    ensures
        texts(r@) == texts(ids@).filter(on_offer(book_views(available@))),
{
    let ghost all = texts(ids@);
    let ghost keep = on_offer(book_views(available@));
    let mut kept: Vec<String> = Vec::new();
    proof {
        lemma_filter_ends(all, keep);
        assert(texts(kept@) =~= Seq::<Seq<char>>::empty());
    }
    let mut i: usize = 0;
    while i < ids.len()
        invariant
            i <= ids@.len(),
            all == texts(ids@),
            keep == on_offer(book_views(available@)),
            texts(kept@) == all.subrange(0, i as int).filter(keep),
        decreases ids@.len() - i,
    {
        proof {
            lemma_filter_step(all, keep, i as int);
        }
        if is_offered(available, ids[i].as_str()) {
            let ghost had = kept@;
            let id = ids[i].clone();
            kept.push(id);
            assert(texts(kept@) =~= texts(had).push(id@));
        }
        i = i + 1;
    }
    kept
}

/// A new scope, with the books that were added to the old one as far as they are
/// still on offer for the same current book.
fn carry_scope(old_scope: &AiSidebarScope, scope: AiSidebarScope) -> (r: AiSidebarScope)
    ensures
        r@ == carried_scope(old_scope@, scope@),
{
    match (old_scope, scope) {
        (
            AiSidebarScope::Book {
                current: old_current,
                available: _,
                additional_ids: old_additional,
            },
            AiSidebarScope::Book { current, available, additional_ids },
        ) => {
            if same_text(old_current.id.as_str(), current.id.as_str()) {
                let additional_ids = remaining_on_offer(old_additional, &available);
                AiSidebarScope::Book { current, available, additional_ids }
            } else {
                AiSidebarScope::Book { current, available, additional_ids }
            }
        },
        (_, scope) => scope,
    }
}

fn same_books(a: &Vec<AiBookOption>, b: &Vec<AiBookOption>) -> (r: bool)
    ensures
        r == (book_views(a@) == book_views(b@)),
{
    if a.len() != b.len() {
        assert(book_views(a@).len() != book_views(b@).len());
        return false;
    }
    let mut i: usize = 0;
    while i < a.len()
        invariant
            a@.len() == b@.len(),
            i <= a@.len(),
            forall|k: int| 0 <= k < i ==> book_views(a@)[k] == book_views(b@)[k],
        decreases a@.len() - i,
    {
        if !same_text(a[i].id.as_str(), b[i].id.as_str()) || !same_text(
            a[i].title.as_str(),
            b[i].title.as_str(),
        ) {
            assert(book_views(a@)[i as int] != book_views(b@)[i as int]);
            return false;
        }
        i = i + 1;
    }
    assert(book_views(a@) =~= book_views(b@));
    true
}

fn same_lists(a: &Vec<String>, b: &Vec<String>) -> (r: bool)
    ensures
        r == (texts(a@) == texts(b@)),
{
    if a.len() != b.len() {
        assert(texts(a@).len() != texts(b@).len());
        return false;
    }
    let mut i: usize = 0;
    while i < a.len()
        invariant
            a@.len() == b@.len(),
            i <= a@.len(),
            forall|k: int| 0 <= k < i ==> texts(a@)[k] == texts(b@)[k],
        decreases a@.len() - i,
    {
        if !same_text(a[i].as_str(), b[i].as_str()) {
            assert(texts(a@)[i as int] != texts(b@)[i as int]);
            return false;
        }
        i = i + 1;
    }
    assert(texts(a@) =~= texts(b@));
    true
}

/// Whether two scopes are the same.
pub fn same_scope(a: &AiSidebarScope, b: &AiSidebarScope) -> (r: bool)
    ensures
        r == (a@ == b@),
{
    match (a, b) {
        (
            AiSidebarScope::Library { label: x, books: xs },
            AiSidebarScope::Library { label: y, books: ys },
        ) => same_text(x.as_str(), y.as_str()) && same_books(xs, ys),
        (
            AiSidebarScope::Book { current: x, available: xs, additional_ids: xa },
            AiSidebarScope::Book { current: y, available: ys, additional_ids: ya },
        ) => same_text(x.id.as_str(), y.id.as_str()) && same_text(
            x.title.as_str(),
            y.title.as_str(),
        ) && same_books(xs, ys) && same_lists(xa, ya),
        _ => false,
    }
}

/// The messages that are no part of the answer to a request.
fn messages_without_answer(messages: &Vec<AiMessage>, request_id: u64) -> (r: Vec<AiMessage>)
    ensures
        message_views(r@) == message_views(messages@).filter(not_answering(request_id)),
{
    let ghost all = message_views(messages@);
    let ghost keep = not_answering(request_id);
    let mut kept: Vec<AiMessage> = Vec::new();
    proof {
        lemma_filter_ends(all, keep);
        assert(message_views(kept@) =~= Seq::<MessageView>::empty());
    }
    let mut i: usize = 0;
    while i < messages.len()
        invariant
            i <= messages@.len(),
            all == message_views(messages@),
            keep == not_answering(request_id),
            message_views(kept@) == all.subrange(0, i as int).filter(keep),
        decreases messages@.len() - i,
    {
        proof {
            lemma_filter_step(all, keep, i as int);
        }
        if !is_answer(&messages[i], request_id) {
            let ghost had = kept@;
            let message = messages[i].clone();
            kept.push(message);
            assert(message_views(kept@) =~= message_views(had).push(message@));
        }
        i = i + 1;
    }
    kept
}

fn belongs(message: &AiMessage, request_id: u64) -> (r: bool)
    ensures
        r == (message.request_id == Some(request_id)),
{
    match message.request_id {
        Some(id) => id == request_id,
        None => false,
    }
}

fn is_answer(message: &AiMessage, request_id: u64) -> (r: bool)
    ensures
        r == answers(message@, request_id),
{
    belongs(message, request_id) && message.role == AiMessageRole::Assistant
}

/// The place of the last message that answers a request.
fn find_answer(messages: &Vec<AiMessage>, request_id: u64) -> (r: Option<usize>)
    ensures
        match r {
            Some(i) => i < messages@.len() && answer_index(message_views(messages@), request_id)
                == Some(i as int),
            None => answer_index(message_views(messages@), request_id) is None,
        },
{
    let ghost all = message_views(messages@);
    let mut end: usize = messages.len();
    assert(all.subrange(0, all.len() as int) =~= all);
    while end > 0
        invariant
            end <= messages@.len(),
            all == message_views(messages@),
            answer_index(all.subrange(0, end as int), request_id) == answer_index(all, request_id),
        decreases end,
    {
        proof {
            assert(all.subrange(0, end as int).drop_last() =~= all.subrange(0, end - 1));
            assert(all.subrange(0, end as int).last() == messages@[end - 1]@);
        }
        if is_answer(&messages[end - 1], request_id) {
            return Some(end - 1);
        }
        end = end - 1;
    }
    None
}

fn plain(id: u64, role: AiMessageRole, content: &str, request_id: Option<u64>) -> (r: AiMessage)
    ensures
        r@ == plain_message(id, role, content@, request_id),
{
    let r = AiMessage {
        id,
        role,
        content: content.to_owned(),
        sources: Vec::new(),
        source_status: None,
        request_id,
    };
    assert(source_views(r.sources@) =~= Seq::<SourceLinkView>::empty());
    r
}

fn book_titles(books: &Vec<AiBookOption>) -> (r: Vec<(String, String)>)
    ensures
        r@.map_values(|p: (String, String)| (p.0@, p.1@)) == book_views(books@).map_values(
            |b: BookView| (b.id, b.title),
        ),
{
    let mut out: Vec<(String, String)> = Vec::new();
    let mut i: usize = 0;
    while i < books.len()
        invariant
            i <= books@.len(),
            out@.len() == i,
            forall|k: int|
                0 <= k < i ==> (#[trigger] out@[k]).0@ == books@[k].id@ && out@[k].1@
                    == books@[k].title@,
        decreases books@.len() - i,
    {
        out.push((books[i].id.clone(), books[i].title.clone()));
        i = i + 1;
    }
    assert(out@.map_values(|p: (String, String)| (p.0@, p.1@)) =~= book_views(books@).map_values(
        |b: BookView| (b.id, b.title),
    ));
    out
}

impl ConversationState {
    /// A conversation in which nothing was said.
    pub fn new(scope: AiSidebarScope) -> (r: Self)
        ensures
            r@ == ConversationView::initial(scope@),
    {
        let r = ConversationState {
            scope,
            reference_hints: Vec::new(),
            automatic_reference: None,
            included_references: Vec::new(),
            messages: Vec::new(),
            request: RequestState::Idle,
            next_id: 1,
        };
        proof {
            assert(r@.hints =~= Seq::<HintView>::empty());
            assert(r@.included =~= Seq::<KeyView>::empty());
            assert(r@.messages =~= Seq::<MessageView>::empty());
        }
        r
    }

    /// Sets the scope. Books that were added stay as long as the host offers
    /// them. The result says whether the scope changed.
    pub fn set_scope(&mut self, scope: AiSidebarScope) -> (r: bool)
        ensures
            r == (carried_scope(old(self)@.scope, scope@) != old(self)@.scope),
            final(self)@ == old(self)@.with_scope(scope@),
    {
        let carried = carry_scope(&self.scope, scope);
        if same_scope(&self.scope, &carried) {
            return false;
        }
        self.scope = carried;
        self.prune_references_to_scope();
        true
    }

    /// Takes over the references that the host offers.
    pub fn set_reference_hints(&mut self, references: Vec<AiReferenceHint>)
        ensures
            final(self)@ == old(self)@.with_hints(hint_views(references@)),
    {
        let allowed = self.scope.book_ids();
        self.reference_hints = accept_hints(&allowed, references);
        self.included_references = offered_keys(&self.included_references, &self.reference_hints);
        let previous = self.automatic_reference.take();
        let ghost hints = hint_views(self.reference_hints@);
        let mut i: usize = 0;
        assert(hints.subrange(0, hints.len() as int) =~= hints);
        while i < self.reference_hints.len()
            invariant
                i <= self.reference_hints@.len(),
                hints == hint_views(self.reference_hints@),
                self.automatic_reference is None,
                previous == old(self).automatic_reference,
                self.scope@ == old(self).scope@,
                self.messages@ == old(self).messages@,
                self.request == old(self).request,
                self.next_id == old(self).next_id,
                hints == accepted_hints(old(self)@.scope.book_ids(), hint_views(references@)),
                key_views(self.included_references@) == old(self)@.included.filter(
                    offered_by(hints),
                ),
                first_frozen(hints.subrange(i as int, hints.len() as int)) == first_frozen(hints),
            decreases self.reference_hints@.len() - i,
        {
            let ghost here = hints.subrange(i as int, hints.len() as int);
            assert(here.drop_first() =~= hints.subrange(i + 1, hints.len() as int));
            assert(here[0] == self.reference_hints@[i as int]@);
            if let Some(fresh) = AutomaticReferenceState::from_reference(
                &self.reference_hints[i],
            ) {
                let mut automatic = fresh;
                if let Some(previous) = &previous {
                    if previous.same_selection(&automatic) {
                        // A refresh by the host does not bring back a selection
                        // that was excluded by hand.
                        automatic.included = previous.included;
                    }
                }
                if automatic.included && !keys_have(&self.included_references, &automatic.key)
                    && self.included_references.len() >= MAX_SELECTED_REFERENCES {
                    automatic.included = false;
                }
                self.automatic_reference = Some(automatic);
                return ;
            }
            i = i + 1;
        }
    }

    /// Drops the references and links that the scope does not allow.
    pub fn prune_references_to_scope(&mut self)
        ensures
            final(self)@ == old(self)@.pruned(),
    {
        let allowed = self.scope.book_ids();
        self.reference_hints = usable_hints(&allowed, &self.reference_hints);
        self.included_references = offered_keys(&self.included_references, &self.reference_hints);
        let dropped: bool = match &self.automatic_reference {
            Some(automatic) => !list_has_key(&self.reference_hints, &automatic.key),
            None => false,
        };
        if dropped {
            self.automatic_reference = None;
        }
        let ghost keep = with_allowed_sources(texts(allowed@));
        let ghost before = message_views(self.messages@);
        let mut kept: Vec<AiMessage> = Vec::new();
        let mut i: usize = 0;
        while i < self.messages.len()
            invariant
                i <= self.messages@.len(),
                before == message_views(self.messages@),
                keep == with_allowed_sources(texts(allowed@)),
                kept@.len() == i,
                forall|k: int| 0 <= k < i ==> (#[trigger] kept@[k])@ == keep(before[k]),
            decreases self.messages@.len() - i,
        {
            let message = AiMessage {
                id: self.messages[i].id,
                role: self.messages[i].role,
                content: self.messages[i].content.clone(),
                sources: allowed_source_links(&allowed, &self.messages[i].sources),
                source_status: self.messages[i].source_status,
                request_id: self.messages[i].request_id,
            };
            kept.push(message);
            i = i + 1;
        }
        self.messages = kept;
        assert(message_views(self.messages@) =~= before.map_values(keep));
    }

    /// Chooses a reference, or drops it where it is chosen. The result says
    /// whether anything changed.
    pub fn toggle_reference(&mut self, reference: &AiReferenceHint) -> (r: bool)
        ensures
            r == old(self)@.can_toggle(reference@.key()),
            final(self)@ == old(self)@.toggled(reference@.key()),
    {
        let key = reference_key(reference);
        let ghost k = key@;
        let automatic: bool = match &self.automatic_reference {
            Some(automatic) => automatic.key.same(&key),
            None => false,
        };
        let included: bool = self.reference_is_included_by_key(&key);
        if included {
            // One row stands for both ways in which a reference may be chosen.
            self.included_references = keys_without(&self.included_references, &key);
            if automatic {
                if let Some(state) = self.automatic_reference.take() {
                    self.automatic_reference = Some(
                        AutomaticReferenceState { included: false, ..state },
                    );
                }
            }
            return true;
        }
        if self.selected_reference_count() >= MAX_SELECTED_REFERENCES as u128 {
            return false;
        }
        if automatic {
            if let Some(state) = self.automatic_reference.take() {
                self.automatic_reference = Some(AutomaticReferenceState { included: true, ..state });
            }
            return true;
        }
        if !list_has_key(&self.reference_hints, &key) {
            return false;
        }
        let ghost had = self.included_references@;
        self.included_references.push(key);
        assert(key_views(self.included_references@) =~= key_views(had).push(k));
        true
    }

    /// Whether the next question has a reference.
    pub fn reference_is_included(&self, reference: &AiReferenceHint) -> (r: bool)
        ensures
            r == self@.includes(reference@.key()),
    {
        self.reference_is_included_by_key(&reference_key(reference))
    }

    /// Whether the next question has the reference with a key.
    pub fn reference_is_included_by_key(&self, key: &AiReferenceKey) -> (r: bool)
        ensures
            r == self@.includes(key@),
    {
        keys_have(&self.included_references, key) || match &self.automatic_reference {
            Some(automatic) => automatic.included && automatic.key.same(key),
            None => false,
        }
    }

    /// How many references the next question has.
    pub fn selected_reference_count(&self) -> (r: u128)
        ensures
            r == self@.reference_count(),
    {
        let extra: u128 = match &self.automatic_reference {
            Some(automatic) => if automatic.included && !keys_have(
                &self.included_references,
                &automatic.key,
            ) {
                1
            } else {
                0
            },
            None => 0,
        };
        self.included_references.len() as u128 + extra
    }

    /// Sends a question, unless an answer is awaited.
    pub fn begin(&mut self, question: &str) -> (r: Option<AiQuestionRequest>)
        ensures
            old(self)@.can_ask(question@) ==> question_view(r) == Some(
                old(self)@.request_for(question@),
            ) && final(self)@ == old(self)@.asked(question@),
            !old(self)@.can_ask(question@) ==> r is None && final(self)@ == old(self)@,
    {
        if self.is_sending() {
            return None;
        }
        proof {
            lemma_trimmed(question@);
        }
        let question = trim(question);
        if question.as_str().is_empty() || byte_length(question.as_str()) > MAX_QUESTION_BYTES {
            return None;
        }
        let reference_hints = self.selected_hints();
        let request_id: u64 = self.take_id();
        let message_id: u64 = self.take_id();
        let ghost had = self.messages@;
        let message = plain(message_id, AiMessageRole::User, question.as_str(), Some(request_id));
        self.messages.push(message);
        assert(message_views(self.messages@) =~= message_views(had).push(message@));
        self.request = RequestState::Sending { request_id };
        let reference = if reference_hints.len() > 0 {
            Some(reference_hints[0].clone())
        } else {
            None
        };
        Some(
            AiQuestionRequest {
                request_id,
                question,
                book_ids: self.scope.book_ids(),
                book_titles: book_titles(&self.scope.selected_books()),
                reference,
                reference_hints,
            },
        )
    }

    fn selected_hints(&self) -> (r: Vec<AiReferenceHint>)
        ensures
            hint_views(r@) == self@.chosen_hints(),
    {
        let ghost all = hint_views(self.reference_hints@);
        let ghost keep = chosen_in(self@);
        let mut kept: Vec<AiReferenceHint> = Vec::new();
        proof {
            lemma_filter_ends(all, keep);
            assert(hint_views(kept@) =~= Seq::<HintView>::empty());
        }
        let mut i: usize = 0;
        while i < self.reference_hints.len()
            invariant
                i <= self.reference_hints@.len(),
                all == hint_views(self.reference_hints@),
                keep == chosen_in(self@),
                hint_views(kept@) == all.subrange(0, i as int).filter(keep),
            decreases self.reference_hints@.len() - i,
        {
            proof {
                lemma_filter_step(all, keep, i as int);
            }
            if self.reference_is_included(&self.reference_hints[i]) {
                let ghost had = kept@;
                let hint = self.reference_hints[i].clone();
                kept.push(hint);
                assert(hint_views(kept@) =~= hint_views(had).push(hint@));
            }
            i = i + 1;
        }
        kept
    }

    /// Asks for an explanation of selected text in a conversation that was just
    /// started: no message and no reference is left over from the one before.
    pub fn begin_selection_explanation(&mut self, reference: AiReferenceHint) -> (r: Option<
        AiQuestionRequest,
    >)
        ensures
            old(self)@.can_explain(reference@) ==> question_view(r) == Some(
                old(self)@.cleared_for(reference@).request_for(SELECTION_EXPLANATION_QUESTION@),
            ) && final(self)@ == old(self)@.explaining(reference@),
            !old(self)@.can_explain(reference@) ==> r is None && final(self)@ == old(self)@,
    {
        let allowed = self.scope.book_ids();
        if self.is_sending() || !list_has(&allowed, reference.book_id.as_str())
            || !valid_reference_hint_locator(&reference) || !reference.is_frozen() {
            return None;
        }
        self.messages = Vec::new();
        self.included_references = Vec::new();
        self.automatic_reference = None;
        assert(message_views(self.messages@) =~= Seq::<MessageView>::empty());
        assert(key_views(self.included_references@) =~= Seq::<KeyView>::empty());
        let mut references: Vec<AiReferenceHint> = Vec::new();
        let ghost hint = reference@;
        references.push(reference);
        assert(hint_views(references@) =~= seq![hint]);
        self.set_reference_hints(references);
        proof {
            lemma_explanation_question();
        }
        self.begin(SELECTION_EXPLANATION_QUESTION)
    }

    /// Calls the awaited answer off.
    pub fn cancel(&mut self) -> (r: Option<u64>)
        ensures
            r == (match old(self).request {
                RequestState::Sending { request_id } => Some(request_id),
                RequestState::Idle => None,
            }),
            final(self)@ == old(self)@.cancelled(),
    {
        match self.request {
            RequestState::Idle => None,
            RequestState::Sending { request_id } => {
                self.end(request_id, AiMessageRole::Status, "已取消本次回答。");
                Some(request_id)
            },
        }
    }

    fn end(&mut self, request_id: u64, role: AiMessageRole, content: &str)
        ensures
            final(self)@ == old(self)@.ended(request_id, role, content@),
    {
        self.messages = messages_without_answer(&self.messages, request_id);
        self.request = RequestState::Idle;
        let message_id: u64 = self.take_id();
        let ghost had = self.messages@;
        let message = plain(message_id, role, content, Some(request_id));
        self.messages.push(message);
        assert(message_views(self.messages@) =~= message_views(had).push(message@));
    }

    /// Takes a piece of the awaited answer.
    pub fn append_delta(&mut self, request_id: u64, delta: &str) -> (r: bool)
        ensures
            r == old(self)@.can_append(request_id, delta@),
            final(self)@ == old(self)@.appended(request_id, delta@),
    {
        if !self.is_current(request_id) || delta.is_empty() {
            return false;
        }
        match find_answer(&self.messages, request_id) {
            Some(i) => {
                let size: u128 = byte_length(self.messages[i].content.as_str()) as u128
                    + byte_length(delta) as u128;
                if size > MAX_MESSAGE_BYTES as u128 {
                    return false;
                }
                let ghost before = self.messages@;
                let mut message = self.messages[i].clone();
                message.content.push_str(delta);
                self.messages.set(i, message);
                assert(message_views(self.messages@) =~= message_views(before).update(
                    i as int,
                    message@,
                ));
            },
            None => {
                if byte_length(delta) > MAX_MESSAGE_BYTES {
                    return false;
                }
                let message_id: u64 = self.take_id();
                let ghost had = self.messages@;
                let message = plain(message_id, AiMessageRole::Assistant, delta, Some(request_id));
                self.messages.push(message);
                assert(message_views(self.messages@) =~= message_views(had).push(message@));
            },
        }
        true
    }

    /// Withdraws the awaited answer as far as it has come. The result says
    /// whether there was any.
    pub fn reset_answer(&mut self, request_id: u64) -> (r: bool)
        ensures
            r == (old(self)@.is_current(request_id) && old(self)@.messages.filter(
                not_answering(request_id),
            ).len() != old(self)@.messages.len()),
            final(self)@ == old(self)@.reset(request_id),
    {
        if !self.is_current(request_id) {
            return false;
        }
        self.discard_answer_message(request_id)
    }

    /// Completes the awaited answer with the links that are allowed.
    pub fn finish(
        &mut self,
        request_id: u64,
        sources: Vec<AiSourceLink>,
        source_status: AgentAnswerSourceStatus,
    ) -> (r: bool)
        ensures
            r == old(self)@.is_current(request_id),
            final(self)@ == old(self)@.finished(request_id, source_views(sources@), source_status),
    {
        if !self.is_current(request_id) {
            return false;
        }
        let allowed = self.scope.book_ids();
        let sources = allowed_source_links(&allowed, &sources);
        let ghost before = self.messages@;
        match find_answer(&self.messages, request_id) {
            Some(i) => {
                let message = AiMessage {
                    id: self.messages[i].id,
                    role: self.messages[i].role,
                    content: self.messages[i].content.clone(),
                    sources,
                    source_status: Some(source_status),
                    request_id: self.messages[i].request_id,
                };
                self.messages.set(i, message);
                assert(message_views(self.messages@) =~= message_views(before).update(
                    i as int,
                    message@,
                ));
            },
            None => {
                let message_id: u64 = self.take_id();
                let message = AiMessage {
                    id: message_id,
                    role: AiMessageRole::Assistant,
                    content: "模型没有返回文本。".to_owned(),
                    sources,
                    source_status: Some(source_status),
                    request_id: Some(request_id),
                };
                self.messages.push(message);
                assert(message_views(self.messages@) =~= message_views(before).push(message@));
            },
        }
        self.request = RequestState::Idle;
        true
    }

    /// Ends the awaited answer with an error.
    pub fn fail(&mut self, request_id: u64, message: &str) -> (r: bool)
        ensures
            r == old(self)@.is_current(request_id),
            final(self)@ == old(self)@.failed(request_id, message@),
    {
        if !self.is_current(request_id) {
            return false;
        }
        self.end(request_id, AiMessageRole::Error, message);
        true
    }

    /// Drops the answer to a request as far as it has come. The result says
    /// whether there was any.
    pub fn discard_answer_message(&mut self, request_id: u64) -> (r: bool)
        ensures
            r == (old(self)@.messages.filter(not_answering(request_id)).len()
                != old(self)@.messages.len()),
            final(self)@ == old(self)@.without_answer(request_id),
    {
        let before: usize = self.messages.len();
        self.messages = messages_without_answer(&self.messages, request_id);
        assert(message_views(self.messages@).len() == self.messages@.len());
        self.messages.len() != before
    }

    /// Whether a request is the one whose answer is awaited.
    pub fn is_current(&self, request_id: u64) -> (r: bool)
        ensures
            r == self@.is_current(request_id),
    {
        self.request == RequestState::Sending { request_id }
    }

    /// Whether an answer is awaited.
    pub fn is_sending(&self) -> (r: bool)
        ensures
            r == !(self@.request is Idle),
    {
        match self.request {
            RequestState::Sending { request_id } => true,
            RequestState::Idle => false,
        }
    }

    /// Keeps the messages of the awaited answer alone.
    pub fn retain_current_request_messages(&mut self)
        ensures
            final(self)@ == old(self)@.only_current_request(),
    {
        match self.request {
            RequestState::Sending { request_id } => {
                let ghost all = message_views(self.messages@);
                let ghost keep = belonging_to(request_id);
                let mut kept: Vec<AiMessage> = Vec::new();
                proof {
                    lemma_filter_ends(all, keep);
                    assert(message_views(kept@) =~= Seq::<MessageView>::empty());
                }
                let mut i: usize = 0;
                while i < self.messages.len()
                    invariant
                        i <= self.messages@.len(),
                        all == message_views(self.messages@),
                        keep == belonging_to(request_id),
                        message_views(kept@) == all.subrange(0, i as int).filter(keep),
                    decreases self.messages@.len() - i,
                {
                    proof {
                        lemma_filter_step(all, keep, i as int);
                    }
                    if belongs(&self.messages[i], request_id) {
                        let ghost had = kept@;
                        let message = self.messages[i].clone();
                        kept.push(message);
                        assert(message_views(kept@) =~= message_views(had).push(message@));
                    }
                    i = i + 1;
                }
                self.messages = kept;
            },
            RequestState::Idle => {
                self.messages = Vec::new();
                assert(message_views(self.messages@) =~= Seq::<MessageView>::empty());
            },
        }
    }

    /// The next identifier.
    pub fn take_id(&mut self) -> (r: u64)
        ensures
            r == old(self).next_id,
            final(self)@ == (ConversationView {
                next_id: next_after(old(self).next_id),
                ..old(self)@
            }),
    {
        let id: u64 = self.next_id;
        self.next_id = if id == u64::MAX {
            id
        } else {
            id + 1
        };
        id
    }
}

proof fn lemma_explanation_question()
    ensures
        !is_blank(SELECTION_EXPLANATION_QUESTION@),
        byte_len(trimmed(SELECTION_EXPLANATION_QUESTION@)) <= MAX_QUESTION_BYTES,
{
    reveal_strlit("用汉语详细解释一下");
    let q = SELECTION_EXPLANATION_QUESTION@;
    assert(!crate::text::is_white_space(q[0]));
    crate::text::lemma_trimmed_bytes(q);
    reveal_with_fuel(byte_len, 12);
}

} // verus!
