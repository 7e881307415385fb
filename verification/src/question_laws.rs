//! What asking, answering and choosing references do to a conversation, message by
//! message and reference by reference, and what they leave as it was.

use crate::conversation::{
    answer_index, carried_scope, first_frozen, AiMessageRole, AutomaticView, ConversationView,
    MessageView, RequestState,
};
use crate::references::{accepted_hints, has_key, HintView, KeyView};
use crate::scope::ScopeView;
use crate::scope_laws::{may_be_used, says_something};
use crate::seqs::{lemma_filter_agrees, lemma_filter_elements};
use crate::sources::{AgentAnswerSourceStatus, SourceLinkView};
use crate::text::{byte_len, trimmed};
use vstd::prelude::*;

verus! {

// ---------------------------------------------------------------------------
// Asking
// ---------------------------------------------------------------------------

/// A question may be sent exactly where none is awaited and the question, without the
/// white space around it, is not empty and takes no more than 32 KiB.
pub proof fn a_question_may_be_sent_within_its_limit(
    conversation: ConversationView,
    question: Seq<char>,
)
    ensures
        conversation.can_ask(question) <==> conversation.request == RequestState::Idle
            && says_something(question) && byte_len(trimmed(question)) <= 32 * 1024,
{
}

/// A question that was sent stands behind all other messages, as the user's, without
/// the white space around it; its answer is awaited, and nothing else changes.
pub proof fn a_question_stands_behind_what_was_said(
    conversation: ConversationView,
    question: Seq<char>,
)
    ensures
        ({
            let after = conversation.asked(question);
            let n = conversation.messages.len() as int;
            &&& after.messages.len() == n + 1
            &&& after.messages.subrange(0, n) == conversation.messages
            &&& after.messages[n].role == AiMessageRole::User
            &&& after.messages[n].content == trimmed(question)
            &&& after.messages[n].request_id == Some(conversation.next_id)
            &&& after.messages[n].sources.len() == 0
            &&& after.messages[n].source_status is None
            &&& after.request == (RequestState::Sending { request_id: conversation.next_id })
            &&& after.scope == conversation.scope
            &&& after.hints == conversation.hints
            &&& after.included == conversation.included
            &&& after.automatic == conversation.automatic
            &&& conversation.next_id < u64::MAX - 1 ==> after.messages[n].id
                == conversation.next_id + 1 && after.next_id == conversation.next_id + 2
        }),
{
    let n = conversation.messages.len() as int;
    assert(conversation.asked(question).messages.subrange(0, n) =~= conversation.messages);
}

/// Whether the next question refers to a reference: it was chosen, or it is the
/// selection of the editor and was not excluded.
pub open spec fn is_chosen(conversation: ConversationView, hint: HintView) -> bool {
    let key = KeyView { book_id: hint.book_id, unit_id: hint.unit_id, locator: hint.locator };
    conversation.included.contains(key) || (conversation.automatic is Some
        && conversation.automatic->0.included && conversation.automatic->0.key == key)
}

/// What is sent of a question: its text without the white space around it, under the
/// number that is awaited, for the books of the scope with their titles, and with the
/// chosen references in the order in which they are on offer, the first of them also
/// on its own.
pub proof fn a_request_says_what_was_asked(
    conversation: ConversationView,
    question: Seq<char>,
    keep: spec_fn(HintView) -> bool,
)
    requires
        forall|hint: HintView| #[trigger] keep(hint) == is_chosen(conversation, hint),
    ensures
        ({
            let request = conversation.request_for(question);
            let books = conversation.scope.selected_books();
            &&& request.request_id == conversation.next_id
            &&& request.question == trimmed(question)
            &&& request.book_ids == conversation.scope.book_ids()
            &&& request.book_titles.len() == books.len()
            &&& forall|i: int|
                0 <= i < books.len() ==> #[trigger] request.book_titles[i] == (
                    books[i].id,
                    books[i].title,
                )
            &&& request.reference_hints == conversation.hints.filter(keep)
            &&& request.reference == (if request.reference_hints.len() > 0 {
                Some(request.reference_hints[0])
            } else {
                None
            })
        }),
{
    let chosen = crate::conversation::chosen_in(conversation);
    assert forall|i: int| 0 <= i < conversation.hints.len() implies keep(
        #[trigger] conversation.hints[i],
    ) == chosen(conversation.hints[i]) by {}
    lemma_filter_agrees(conversation.hints, keep, chosen);
}

// ---------------------------------------------------------------------------
// Answering
// ---------------------------------------------------------------------------

/// Whether a message is a part of the answer to a request.
pub open spec fn is_answer_to(message: MessageView, request_id: u64) -> bool {
    message.role == AiMessageRole::Assistant && message.request_id == Some(request_id)
}

/// The answer to a request is the last message of the assistant under its number.
pub proof fn an_answer_is_the_last_message_to_its_request(
    messages: Seq<MessageView>,
    request_id: u64,
    at: int,
)
    ensures
        answer_index(messages, request_id) == Some(at) <==> 0 <= at < messages.len()
            && is_answer_to(messages[at], request_id) && (forall|k: int|
            at < k < messages.len() ==> !is_answer_to(#[trigger] messages[k], request_id)),
        answer_index(messages, request_id) is None <==> forall|k: int|
            0 <= k < messages.len() ==> !is_answer_to(#[trigger] messages[k], request_id),
    decreases messages.len(),
{
    if messages.len() > 0 {
        let rest = messages.drop_last();
        let last = messages.len() - 1;
        assert(messages.last() == messages[last]);
        an_answer_is_the_last_message_to_its_request(rest, request_id, at);
        assert forall|k: int| 0 <= k < last implies #[trigger] rest[k] == messages[k] by {}
        if !is_answer_to(messages[last], request_id) {
            if answer_index(messages, request_id) == Some(at) {
                assert forall|k: int| at < k < messages.len() implies !is_answer_to(
                    #[trigger] messages[k],
                    request_id,
                ) by {
                    if k < last {
                        assert(rest[k] == messages[k]);
                    }
                }
            }
            if answer_index(messages, request_id) is None {
                assert forall|k: int| 0 <= k < messages.len() implies !is_answer_to(
                    #[trigger] messages[k],
                    request_id,
                ) by {
                    if k < last {
                        assert(rest[k] == messages[k]);
                    }
                }
            }
        } else {
            if 0 <= at < last {
                assert(is_answer_to(messages[last], request_id));
            }
        }
    }
}

/// A piece of an answer is taken exactly where the request is awaited, the piece is
/// not empty, and the answer with it takes no more than 1 MiB.
pub proof fn a_piece_is_taken_within_the_limit(
    conversation: ConversationView,
    request_id: u64,
    delta: Seq<char>,
    at: int,
)
    ensures
        0 <= at < conversation.messages.len() && is_answer_to(
            conversation.messages[at],
            request_id,
        ) && (forall|k: int|
            at < k < conversation.messages.len() ==> !is_answer_to(
                #[trigger] conversation.messages[k],
                request_id,
            )) ==> (conversation.can_append(request_id, delta) <==> conversation.request == (
        RequestState::Sending { request_id }) && delta.len() > 0 && byte_len(
            conversation.messages[at].content,
        ) + byte_len(delta) <= 1024 * 1024),
        (forall|k: int|
            0 <= k < conversation.messages.len() ==> !is_answer_to(
                #[trigger] conversation.messages[k],
                request_id,
            )) ==> (conversation.can_append(request_id, delta) <==> conversation.request == (
        RequestState::Sending { request_id }) && delta.len() > 0 && byte_len(delta) <= 1024 * 1024),
{
    an_answer_is_the_last_message_to_its_request(conversation.messages, request_id, at);
    assert(byte_len(Seq::<char>::empty()) == 0);
}

/// The first piece of an answer becomes a message of the assistant behind all others;
/// every further one is added to its end. No other message changes, and nothing else of
/// the conversation.
pub proof fn a_piece_goes_to_the_end_of_its_answer(
    conversation: ConversationView,
    request_id: u64,
    delta: Seq<char>,
    at: int,
)
    requires
        conversation.can_append(request_id, delta),
    ensures
        ({
            let after = conversation.appended(request_id, delta);
            let n = conversation.messages.len() as int;
            &&& (forall|k: int|
                0 <= k < n ==> !is_answer_to(#[trigger] conversation.messages[k], request_id))
                ==> after.messages == conversation.messages.push(
                MessageView {
                    id: conversation.next_id,
                    role: AiMessageRole::Assistant,
                    content: delta,
                    sources: Seq::empty(),
                    source_status: None,
                    request_id: Some(request_id),
                },
            )
            &&& 0 <= at < n && is_answer_to(conversation.messages[at], request_id) && (forall|k: int|
                at < k < n ==> !is_answer_to(#[trigger] conversation.messages[k], request_id)) ==> {
                &&& after.messages.len() == n
                &&& after.messages[at].content == conversation.messages[at].content + delta
                &&& after.messages[at] == (MessageView {
                    content: after.messages[at].content,
                    ..conversation.messages[at]
                })
                &&& forall|k: int|
                    0 <= k < n && k != at ==> #[trigger] after.messages[k]
                        == conversation.messages[k]
                &&& after.next_id == conversation.next_id
            }
            &&& after.request == conversation.request
            &&& after.scope == conversation.scope
            &&& after.hints == conversation.hints
            &&& after.included == conversation.included
            &&& after.automatic == conversation.automatic
        }),
{
    an_answer_is_the_last_message_to_its_request(conversation.messages, request_id, at);
}

/// The test for links that may be shown under a scope: those to the web, and those into
/// a book of the scope and a named unit, with a place of their own where they have one.
pub open spec fn may_be_shown(scope: ScopeView) -> spec_fn(SourceLinkView) -> bool {
    |link: SourceLinkView|
        link.url is Some || (scope.book_ids().contains(link.book_id) && says_something(
            link.unit_id,
        ) && (link.locator is Some ==> link.locator->0.book_id == link.book_id
            && link.locator->0.unit_id == link.unit_id && link.locator->0.shape_error is None))
}

pub(crate) proof fn lemma_shown_links(scope: ScopeView, links: Seq<SourceLinkView>)
    ensures
        links.filter(crate::sources::allowed_source(scope.book_ids())) == links.filter(
            may_be_shown(scope),
        ),
{
    let allowed = crate::sources::allowed_source(scope.book_ids());
    assert forall|i: int| 0 <= i < links.len() implies allowed(#[trigger] links[i]) == may_be_shown(
        scope,
    )(links[i]) by {}
    lemma_filter_agrees(links, allowed, may_be_shown(scope));
}

/// A completed answer gets all of its links that may be shown, in their order, and its
/// status; its text stays, and so do all other messages. Where no text came, a message
/// says so. The request is awaited no longer.
pub proof fn a_completed_answer_gets_its_links(
    conversation: ConversationView,
    request_id: u64,
    links: Seq<SourceLinkView>,
    status: AgentAnswerSourceStatus,
    at: int,
)
    requires
        conversation.request == (RequestState::Sending { request_id }),
    ensures
        ({
            let after = conversation.finished(request_id, links, status);
            let n = conversation.messages.len() as int;
            let shown = links.filter(may_be_shown(conversation.scope));
            &&& after.request == RequestState::Idle
            &&& after.scope == conversation.scope
            &&& after.hints == conversation.hints
            &&& after.included == conversation.included
            &&& after.automatic == conversation.automatic
            &&& 0 <= at < n && is_answer_to(conversation.messages[at], request_id) && (forall|k: int|
                at < k < n ==> !is_answer_to(#[trigger] conversation.messages[k], request_id))
                ==> after.messages == conversation.messages.update(
                at,
                MessageView {
                    sources: shown,
                    source_status: Some(status),
                    ..conversation.messages[at]
                },
            )
            &&& (forall|k: int|
                0 <= k < n ==> !is_answer_to(#[trigger] conversation.messages[k], request_id))
                ==> after.messages == conversation.messages.push(
                MessageView {
                    id: conversation.next_id,
                    role: AiMessageRole::Assistant,
                    content: "模型没有返回文本。"@,
                    sources: shown,
                    source_status: Some(status),
                    request_id: Some(request_id),
                },
            )
        }),
{
    an_answer_is_the_last_message_to_its_request(conversation.messages, request_id, at);
    lemma_shown_links(conversation.scope, links);
}

/// The test for messages that are no part of the answer to a request.
pub open spec fn no_answer_to(request_id: u64) -> spec_fn(MessageView) -> bool {
    |message: MessageView|
        message.role != AiMessageRole::Assistant || message.request_id != Some(request_id)
}

/// Of a request that failed or was called off, all messages stay but its answer, in
/// their order, with one more behind them that says so; of one that is answered anew,
/// the same without such a message, and it is still awaited.
pub proof fn an_ended_request_leaves_the_other_messages(
    conversation: ConversationView,
    request_id: u64,
    error: Seq<char>,
)
    requires
        conversation.request == (RequestState::Sending { request_id }),
    ensures
        ({
            let rest = conversation.messages.filter(no_answer_to(request_id));
            let failed = conversation.failed(request_id, error);
            let cancelled = conversation.cancelled();
            let reset = conversation.reset(request_id);
            let message = |role: AiMessageRole, content: Seq<char>|
                MessageView {
                    id: conversation.next_id,
                    role,
                    content,
                    sources: Seq::empty(),
                    source_status: None,
                    request_id: Some(request_id),
                };
            &&& failed.messages == rest.push(message(AiMessageRole::Error, error))
            &&& failed.request == RequestState::Idle
            &&& cancelled.messages == rest.push(
                message(AiMessageRole::Status, "已取消本次回答。"@),
            )
            &&& cancelled.request == RequestState::Idle
            &&& reset == (ConversationView { messages: rest, ..conversation })
            &&& failed.hints == conversation.hints && cancelled.hints == conversation.hints
            &&& failed.included == conversation.included && cancelled.included
                == conversation.included
            &&& failed.automatic == conversation.automatic && cancelled.automatic
                == conversation.automatic
            &&& failed.scope == conversation.scope && cancelled.scope == conversation.scope
        }),
        (ConversationView { request: RequestState::Idle, ..conversation }).cancelled() == (
        ConversationView { request: RequestState::Idle, ..conversation }),
{
    let other = crate::conversation::not_answering(request_id);
    assert forall|i: int| 0 <= i < conversation.messages.len() implies other(
        #[trigger] conversation.messages[i],
    ) == no_answer_to(request_id)(conversation.messages[i]) by {}
    lemma_filter_agrees(conversation.messages, other, no_answer_to(request_id));
}

/// The test for messages of a request.
pub open spec fn is_of_request(request_id: u64) -> spec_fn(MessageView) -> bool {
    |message: MessageView| message.request_id == Some(request_id)
}

/// Where another conversation is opened while an answer is awaited, all messages of
/// that request stay, in their order; where none is awaited, no message stays. Nothing
/// else changes.
pub proof fn the_awaited_request_keeps_its_messages(
    conversation: ConversationView,
    request_id: u64,
)
    ensures
        conversation.request == RequestState::Idle
            ==> conversation.only_current_request().messages.len() == 0,
        conversation.request == (RequestState::Sending { request_id })
            ==> conversation.only_current_request().messages == conversation.messages.filter(
            is_of_request(request_id),
        ),
        conversation.only_current_request() == (ConversationView {
            messages: conversation.only_current_request().messages,
            ..conversation
        }),
{
    let belongs = crate::conversation::belonging_to(request_id);
    assert forall|i: int| 0 <= i < conversation.messages.len() implies belongs(
        #[trigger] conversation.messages[i],
    ) == is_of_request(request_id)(conversation.messages[i]) by {}
    lemma_filter_agrees(conversation.messages, belongs, is_of_request(request_id));
}

// ---------------------------------------------------------------------------
// Choosing references
// ---------------------------------------------------------------------------

/// A reference can be chosen exactly where it is on offer, or is the selection of the
/// editor, and fewer than 16 are chosen; one that is chosen can always be dropped.
pub proof fn a_reference_can_be_chosen_within_the_limit(
    conversation: ConversationView,
    hint: HintView,
)
    ensures
        is_chosen(conversation, hint) ==> conversation.can_toggle(hint.key()),
        !is_chosen(conversation, hint) && (exists|i: int|
            0 <= i < conversation.hints.len() && (#[trigger] conversation.hints[i]).book_id
                == hint.book_id && conversation.hints[i].unit_id == hint.unit_id
                && conversation.hints[i].locator == hint.locator) ==> (conversation.can_toggle(
            hint.key(),
        ) <==> conversation.reference_count() < 16),
        conversation.reference_count() == conversation.included.len() + (if (
        conversation.automatic is Some && conversation.automatic->0.included
            && !conversation.included.contains(conversation.automatic->0.key)) {
            1int
        } else {
            0
        }),
{
    if exists|i: int|
        0 <= i < conversation.hints.len() && (#[trigger] conversation.hints[i]).book_id
            == hint.book_id && conversation.hints[i].unit_id == hint.unit_id
            && conversation.hints[i].locator == hint.locator {
        let i = choose|i: int|
            0 <= i < conversation.hints.len() && (#[trigger] conversation.hints[i]).book_id
                == hint.book_id && conversation.hints[i].unit_id == hint.unit_id
                && conversation.hints[i].locator == hint.locator;
        assert(conversation.hints[i].key() == hint.key());
        assert(has_key(conversation.hints, hint.key()));
    }
}

/// Choosing or dropping a reference changes what is chosen and nothing else: neither
/// the messages, nor what is on offer, nor what is awaited.
pub proof fn choosing_a_reference_leaves_the_rest(conversation: ConversationView, key: KeyView)
    ensures
        conversation.toggled(key).messages == conversation.messages,
        conversation.toggled(key).hints == conversation.hints,
        conversation.toggled(key).scope == conversation.scope,
        conversation.toggled(key).request == conversation.request,
        conversation.toggled(key).next_id == conversation.next_id,
        conversation.toggled(key).automatic is Some == conversation.automatic is Some,
        conversation.automatic is Some ==> conversation.toggled(key).automatic == Some(
            AutomaticView {
                included: conversation.toggled(key).automatic->0.included,
                ..conversation.automatic->0
            },
        ),
{
}

/// Of the references that a host offers, the first one with a text that is not blank is
/// the selection of the editor. It is chosen unless the same selection was excluded
/// before, or 16 others are chosen. What was chosen stays so as far as it is on offer.
pub proof fn the_first_selection_is_chosen(
    conversation: ConversationView,
    references: Seq<HintView>,
    at: int,
)
    ensures
        ({
            let after = conversation.with_hints(references);
            let hints = after.hints;
            &&& hints == accepted_hints(conversation.scope.book_ids(), references)
            &&& after.messages == conversation.messages
            &&& after.scope == conversation.scope
            &&& after.request == conversation.request
            &&& after.next_id == conversation.next_id
            &&& forall|key: KeyView| #[trigger]
                after.included.contains(key) <==> conversation.included.contains(key) && exists|
                    i: int,
                |
                    0 <= i < hints.len() && (#[trigger] hints[i]).key() == key
            &&& (forall|k: int|
                0 <= k < hints.len() ==> !((#[trigger] hints[k]).frozen_text is Some
                    && says_something(hints[k].frozen_text->0))) ==> after.automatic is None
            &&& 0 <= at < hints.len() && hints[at].frozen_text is Some && says_something(
                hints[at].frozen_text->0,
            ) && (forall|k: int|
                0 <= k < at ==> !((#[trigger] hints[k]).frozen_text is Some && says_something(
                    hints[k].frozen_text->0,
                ))) ==> {
                let chosen = after.automatic->0;
                let before = conversation.automatic;
                let excluded = before is Some && !before->0.included && before->0.key == chosen.key
                    && before->0.frozen_text == chosen.frozen_text && before->0.revision
                    == chosen.revision;
                &&& after.automatic is Some
                &&& chosen.key == hints[at].key()
                &&& chosen.frozen_text == hints[at].frozen_text->0
                &&& chosen.revision == hints[at].revision
                &&& chosen.included <==> !excluded && (after.included.contains(chosen.key)
                    || after.included.len() < 16)
            }
        }),
{
    let after = conversation.with_hints(references);
    let hints = after.hints;
    lemma_filter_elements(conversation.included, crate::references::offered_by(hints));
    if forall|k: int|
        0 <= k < hints.len() ==> !((#[trigger] hints[k]).frozen_text is Some && says_something(
            hints[k].frozen_text->0,
        )) {
        lemma_first_frozen(hints, hints.len() as int);
    }
    if 0 <= at < hints.len() && hints[at].frozen_text is Some && says_something(
        hints[at].frozen_text->0,
    ) && (forall|k: int|
        0 <= k < at ==> !((#[trigger] hints[k]).frozen_text is Some && says_something(
            hints[k].frozen_text->0,
        ))) {
        lemma_first_frozen(hints, at);
    }
}

proof fn lemma_first_frozen(hints: Seq<HintView>, at: int)
    requires
        0 <= at <= hints.len(),
        at < hints.len() ==> hints[at].frozen_text is Some && says_something(
            hints[at].frozen_text->0,
        ),
        forall|k: int|
            0 <= k < at ==> !((#[trigger] hints[k]).frozen_text is Some && says_something(
                hints[k].frozen_text->0,
            )),
    ensures
        first_frozen(hints) == (if at < hints.len() {
            Some(hints[at])
        } else {
            None
        }),
    decreases hints.len(),
{
    if hints.len() > 0 {
        if at > 0 {
            let rest = hints.drop_first();
            assert forall|k: int| 0 <= k < at - 1 implies !((
            #[trigger] rest[k]).frozen_text is Some && says_something(rest[k].frozen_text->0)) by {
                assert(rest[k] == hints[k + 1]);
            }
            if at < hints.len() {
                assert(rest[at - 1] == hints[at]);
            }
            lemma_first_frozen(rest, at - 1);
            assert(!(hints[0].frozen_text is Some && says_something(hints[0].frozen_text->0)));
        }
    }
}

// ---------------------------------------------------------------------------
// Another scope
// ---------------------------------------------------------------------------

/// A new scope takes over the books that were added to the old one exactly where both
/// are of the same book: those that are still on offer, in their order. Of everything
/// else it is as the host has set it.
pub proof fn added_books_are_carried_over(
    old_scope: ScopeView,
    scope: ScopeView,
    keep: spec_fn(Seq<char>) -> bool,
)
    requires
        scope is Book ==> forall|id: Seq<char>| #[trigger]
            keep(id) <==> exists|i: int|
                0 <= i < scope->available.len() && #[trigger] scope->available[i].id == id,
    ensures
        !(old_scope is Book && scope is Book && old_scope->current.id == scope->current.id)
            ==> carried_scope(old_scope, scope) == scope,
        old_scope is Book && scope is Book && old_scope->current.id == scope->current.id ==> {
            let carried = carried_scope(old_scope, scope);
            &&& carried is Book
            &&& carried->current == scope->current
            &&& carried->available == scope->available
            &&& carried->additional == old_scope->additional.filter(keep)
        },
{
    if old_scope is Book && scope is Book {
        lemma_filter_agrees(
            old_scope->additional,
            keep,
            crate::conversation::on_offer(scope->available),
        );
    }
}

/// Under another scope all messages stay, each with those of its links that may be
/// shown, in their order; references stay on offer as far as they may be used, and
/// chosen as far as they are on offer. Under the same scope nothing changes.
pub proof fn another_scope_keeps_the_messages(
    conversation: ConversationView,
    scope: ScopeView,
    i: int,
    usable: spec_fn(HintView) -> bool,
)
    requires
        forall|hint: HintView| #[trigger]
            usable(hint) == may_be_used(conversation.scope.book_ids(), hint),
    ensures
        carried_scope(conversation.scope, scope) == conversation.scope ==> conversation.with_scope(
            scope,
        ) == conversation,
        conversation.with_scope(scope).scope == carried_scope(conversation.scope, scope),
        conversation.pruned().messages.len() == conversation.messages.len(),
        0 <= i < conversation.messages.len() ==> conversation.pruned().messages[i] == (MessageView {
            sources: conversation.messages[i].sources.filter(may_be_shown(conversation.scope)),
            ..conversation.messages[i]
        }),
        conversation.pruned().hints == conversation.hints.filter(usable),
        forall|key: KeyView| #[trigger]
            conversation.pruned().included.contains(key) <==> conversation.included.contains(key)
                && exists|k: int|
                0 <= k < conversation.pruned().hints.len() && (
                #[trigger] conversation.pruned().hints[k]).key() == key,
        conversation.pruned().automatic == (if conversation.automatic is Some && exists|k: int|
            0 <= k < conversation.pruned().hints.len() && (
            #[trigger] conversation.pruned().hints[k]).key() == conversation.automatic->0.key {
            conversation.automatic
        } else {
            None
        }),
        conversation.pruned().request == conversation.request,
        conversation.pruned().next_id == conversation.next_id,
        conversation.pruned().scope == conversation.scope,
{
    let allowed = conversation.scope.book_ids();
    if 0 <= i < conversation.messages.len() {
        lemma_shown_links(conversation.scope, conversation.messages[i].sources);
    }
    let keep = crate::references::usable(allowed);
    assert forall|k: int| 0 <= k < conversation.hints.len() implies usable(
        #[trigger] conversation.hints[k],
    ) == keep(conversation.hints[k]) by {}
    lemma_filter_agrees(conversation.hints, usable, keep);
    lemma_filter_elements(
        conversation.included,
        crate::references::offered_by(conversation.pruned().hints),
    );
}

// ---------------------------------------------------------------------------
// Explaining a selection
// ---------------------------------------------------------------------------

/// An explanation may be asked for exactly where nothing is awaited, the selection may
/// be used under the scope, and its text is not blank. It is asked for in a fixed
/// question, alone in the conversation, for the selection alone.
pub proof fn a_selection_is_explained_on_its_own(
    conversation: ConversationView,
    reference: HintView,
)
    ensures
        conversation.can_explain(reference) <==> conversation.request == RequestState::Idle
            && may_be_used(conversation.scope.book_ids(), reference)
            && reference.frozen_text is Some && says_something(reference.frozen_text->0),
        conversation.can_explain(reference) ==> {
            let after = conversation.explaining(reference);
            &&& after.messages.len() == 1
            &&& after.messages[0].role == AiMessageRole::User
            &&& after.messages[0].content == trimmed("用汉语详细解释一下"@)
            &&& after.messages[0].request_id == Some(conversation.next_id)
            &&& after.hints == seq![reference]
            &&& after.included.len() == 0
            &&& after.automatic is Some
            &&& after.automatic->0.key == reference.key()
            &&& after.automatic->0.frozen_text == reference.frozen_text->0
            &&& after.automatic->0.included
            &&& after.scope == conversation.scope
            &&& after.request == (RequestState::Sending { request_id: conversation.next_id })
        },
{
    if conversation.can_explain(reference) {
        let one = seq![reference];
        let allowed = conversation.scope.book_ids();
        assert(one.drop_last() =~= Seq::<HintView>::empty());
        assert(accepted_hints(allowed, one.drop_last()) =~= Seq::<HintView>::empty());
        assert(one.last() == reference);
        assert(accepted_hints(allowed, one) =~= one);
        let none = Seq::<KeyView>::empty();
        lemma_filter_elements(none, crate::references::offered_by(one));
        let cleared = conversation.cleared_for(reference);
        assert(cleared.hints == one);
        assert(one[0] == reference);
        lemma_first_frozen(one, 0);
        assert(cleared.messages =~= Seq::<MessageView>::empty());
    }
}

/// A reference that is chosen goes behind those that are; one that is dropped is taken from
/// among them, and the others stay in their order. The selection of the editor is only
/// marked.
pub proof fn a_chosen_reference_goes_behind_the_others(
    conversation: ConversationView,
    key: KeyView,
    keep: spec_fn(KeyView) -> bool,
)
    requires
        conversation.can_toggle(key),
        forall|other: KeyView| #[trigger] keep(other) <==> other != key,
    ensures
        ({
            let after = conversation.toggled(key);
            let selection = conversation.automatic is Some && conversation.automatic->0.key == key;
            let had = conversation.included.contains(key) || (selection
                && conversation.automatic->0.included);
            &&& had ==> after.included == conversation.included.filter(keep)
            &&& !had && !selection ==> after.included == conversation.included.push(key)
            &&& !had && selection ==> after.included == conversation.included
            &&& selection ==> after.automatic->0.included == !had
            &&& !selection ==> after.automatic == conversation.automatic
        }),
{
    lemma_filter_agrees(conversation.included, keep, crate::references::key_other_than(key));
}

} // verus!
