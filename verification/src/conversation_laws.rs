//! What holds of every conversation, whatever is done with it.

use crate::conversation::{
    answer_index, answers, belonging_to, carried_scope, chosen_in, first_frozen, not_answering,
    AiMessageRole, ConversationView, MessageView, RequestState, MAX_MESSAGE_BYTES,
    MAX_QUESTION_BYTES, MAX_SELECTED_REFERENCES, SELECTION_EXPLANATION_QUESTION,
};
use crate::references::{
    accepted_hints, accepted_hints_are_usable_and_distinct, has_key, is_usable, key_other_than,
    offered_by, usable, HintView, KeyView,
};
use crate::scope::ScopeView;
use crate::seqs::{lemma_filter_all, lemma_filter_elements, lemma_filter_no_duplicates};
use crate::sources::{allowed_source, is_allowed_source, AgentAnswerSourceStatus, SourceLinkView};
use crate::text::{byte_len, lemma_byte_len_concat, trimmed};
use vstd::prelude::*;

verus! {

impl ConversationView {
    /// Every reference on offer may be used, no two have the same key, whatever
    /// is chosen is on offer, nothing is chosen twice, and the limit is kept.
    pub open spec fn wf(self) -> bool {
        &&& forall|i: int|
            0 <= i < self.hints.len() ==> is_usable(self.scope.book_ids(), #[trigger] self.hints[i])
        &&& forall|i: int, j: int|
            0 <= i < j < self.hints.len() ==> (#[trigger] self.hints[i]).key() != (
            #[trigger] self.hints[j]).key()
        &&& self.included.no_duplicates()
        &&& forall|i: int|
            0 <= i < self.included.len() ==> has_key(self.hints, #[trigger] self.included[i])
        &&& self.automatic is Some ==> has_key(self.hints, self.automatic->0.key)
        &&& self.reference_count() <= MAX_SELECTED_REFERENCES
    }

    /// Every link of every message may be shown.
    pub open spec fn links_are_allowed(self) -> bool {
        forall|i: int, k: int|
            #![trigger self.messages[i].sources[k]]
            0 <= i < self.messages.len() && 0 <= k < self.messages[i].sources.len()
                ==> is_allowed_source(self.scope.book_ids(), self.messages[i].sources[k])
    }

    /// No identifier in use is ahead of the next one.
    pub open spec fn ids_are_behind(self) -> bool {
        &&& forall|i: int|
            0 <= i < self.messages.len() ==> (#[trigger] self.messages[i]).id < self.next_id && (
            self.messages[i].request_id is Some ==> self.messages[i].request_id->0 < self.next_id)
        &&& self.request is Sending ==> self.request->request_id < self.next_id
    }
}

proof fn lemma_distinct_after_filter(hints: Seq<HintView>, keep: spec_fn(HintView) -> bool)
    requires
        forall|i: int, j: int|
            0 <= i < j < hints.len() ==> (#[trigger] hints[i]).key() != (#[trigger] hints[j]).key(),
    ensures
        forall|i: int, j: int|
            0 <= i < j < hints.filter(keep).len() ==> (#[trigger] hints.filter(keep)[i]).key() != (
            #[trigger] hints.filter(keep)[j]).key(),
        hints.filter(keep).no_duplicates(),
{
    assert(hints.no_duplicates()) by {
        assert forall|i: int, j: int|
            0 <= i < hints.len() && 0 <= j < hints.len() && i != j implies hints[i] != hints[j] by {
            if i < j {
                assert(hints[i].key() != hints[j].key());
            } else {
                assert(hints[j].key() != hints[i].key());
            }
        }
    }
    lemma_filter_no_duplicates(hints, keep);
    lemma_filter_elements(hints, keep);
    let kept = hints.filter(keep);
    assert forall|i: int, j: int| 0 <= i < j < kept.len() implies (#[trigger] kept[i]).key() != (
    #[trigger] kept[j]).key() by {
        assert(hints.contains(kept[i]) && hints.contains(kept[j]));
        let a = choose|a: int| 0 <= a < hints.len() && hints[a] == kept[i];
        let b = choose|b: int| 0 <= b < hints.len() && hints[b] == kept[j];
        assert(kept[i] != kept[j]);
        if a < b {
            assert(hints[a].key() != hints[b].key());
        } else {
            assert(hints[b].key() != hints[a].key());
        }
    }
}

/// Filtering a list of distinct keys can only lower how many are chosen.
proof fn lemma_count_after_filter(
    before: ConversationView,
    after: ConversationView,
    keep: spec_fn(KeyView) -> bool,
)
    requires
        before.reference_count() <= MAX_SELECTED_REFERENCES,
        after.included == before.included.filter(keep),
        after.automatic == before.automatic || after.automatic is None,
        after.automatic is Some ==> keep(after.automatic->0.key),
    ensures
        after.reference_count() <= MAX_SELECTED_REFERENCES,
{
    lemma_filter_elements(before.included, keep);
}

/// A conversation starts out well formed.
pub proof fn a_new_conversation_is_well_formed(scope: ScopeView)
    ensures
        ConversationView::initial(scope).wf(),
        ConversationView::initial(scope).links_are_allowed(),
        ConversationView::initial(scope).ids_are_behind(),
{
}

/// Dropping what the scope does not allow makes a conversation well formed
/// again after the scope has changed.
pub proof fn pruning_restores_well_formedness(before: ConversationView, scope: ScopeView)
    requires
        before.wf(),
    ensures
        (ConversationView { scope, ..before }).pruned().wf(),
        (ConversationView { scope, ..before }).pruned().links_are_allowed(),
{
    let changed = ConversationView { scope, ..before };
    let after = changed.pruned();
    let allowed = scope.book_ids();
    lemma_distinct_after_filter(before.hints, usable(allowed));
    lemma_filter_elements(before.hints, usable(allowed));
    lemma_filter_elements(before.included, offered_by(after.hints));
    lemma_filter_no_duplicates(before.included, offered_by(after.hints));
    assert(changed.reference_count() == before.reference_count());
    lemma_count_after_filter(changed, after, offered_by(after.hints));
    assert forall|i: int, k: int|
        #![trigger after.messages[i].sources[k]]
        0 <= i < after.messages.len() && 0 <= k
            < after.messages[i].sources.len() implies is_allowed_source(
        allowed,
        after.messages[i].sources[k],
    ) by {
        lemma_filter_elements(before.messages[i].sources, allowed_source(allowed));
        assert(after.messages[i].sources == before.messages[i].sources.filter(
            allowed_source(allowed),
        ));
        let kept = before.messages[i].sources.filter(allowed_source(allowed));
        assert(allowed_source(allowed)(kept[k]));
    }
}

/// A change of scope leaves nothing in the conversation that the new scope does
/// not allow.
pub proof fn a_scope_change_keeps_a_conversation_well_formed(
    before: ConversationView,
    scope: ScopeView,
)
    requires
        before.wf(),
        before.links_are_allowed(),
    ensures
        before.with_scope(scope).wf(),
        before.with_scope(scope).links_are_allowed(),
{
    pruning_restores_well_formedness(before, carried_scope(before.scope, scope));
}

/// Offering references keeps a conversation well formed, the limit included.
pub proof fn offering_references_keeps_a_conversation_well_formed(
    before: ConversationView,
    references: Seq<HintView>,
)
    requires
        before.wf(),
    ensures
        before.with_hints(references).wf(),
{
    let after = before.with_hints(references);
    accepted_hints_are_usable_and_distinct(before.scope.book_ids(), references);
    lemma_filter_elements(before.included, offered_by(after.hints));
    lemma_filter_no_duplicates(before.included, offered_by(after.hints));
    lemma_first_frozen(after.hints);
}

proof fn lemma_first_frozen(hints: Seq<HintView>)
    ensures
        match first_frozen(hints) {
            Some(hint) => hints.contains(hint) && hint.is_frozen() && has_key(hints, hint.key()),
            None => forall|i: int| 0 <= i < hints.len() ==> !(#[trigger] hints[i]).is_frozen(),
        },
    decreases hints.len(),
{
    if hints.len() > 0 {
        if hints[0].is_frozen() {
            assert(hints.contains(hints[0]));
            assert(hints[0].key() == hints[0].key());
        } else {
            let rest = hints.drop_first();
            lemma_first_frozen(rest);
            match first_frozen(rest) {
                Some(hint) => {
                    let i = choose|i: int| 0 <= i < rest.len() && rest[i] == hint;
                    assert(hints[i + 1] == hint);
                    assert(hints[i + 1].key() == hint.key());
                },
                None => {
                    assert forall|i: int| 0 <= i < hints.len() implies !(
                    #[trigger] hints[i]).is_frozen() by {
                        if i > 0 {
                            assert(hints[i] == rest[i - 1]);
                        }
                    }
                },
            }
        }
    }
}

/// Choosing and dropping references keeps a conversation well formed, the limit
/// included.
pub proof fn choosing_references_keeps_a_conversation_well_formed(
    before: ConversationView,
    key: KeyView,
)
    requires
        before.wf(),
    ensures
        before.toggled(key).wf(),
{
    let after = before.toggled(key);
    let keep = key_other_than(key);
    lemma_filter_elements(before.included, keep);
    lemma_filter_no_duplicates(before.included, keep);
    if before.can_toggle(key) && before.includes(key) {
        assert forall|i: int| 0 <= i < after.included.len() implies has_key(
            after.hints,
            #[trigger] after.included[i],
        ) by {
            assert(before.included.contains(after.included[i]));
            let k = choose|k: int|
                0 <= k < before.included.len() && before.included[k] == after.included[i];
            assert(has_key(before.hints, before.included[k]));
        }
        if before.automatic is Some && before.automatic->0.key != key {
            let other = before.automatic->0.key;
            assert(after.included.contains(other) <==> before.included.contains(other));
        }
    } else if before.can_toggle(key) && !before.is_automatic(key) {
        assert(!before.included.contains(key));
        let more = before.included.push(key);
        assert(after.included == more);
        assert forall|i: int, j: int|
            0 <= i < more.len() && 0 <= j < more.len() && i != j implies more[i] != more[j] by {
            if i < before.included.len() && j < before.included.len() {
                assert(before.included[i] != before.included[j]);
            } else if i < before.included.len() {
                assert(before.included.contains(before.included[i]));
            } else {
                assert(before.included.contains(before.included[j]));
            }
        }
        if before.automatic is Some {
            let other = before.automatic->0.key;
            assert(more.contains(other) <==> before.included.contains(other)) by {
                if before.included.contains(other) {
                    let i = choose|i: int|
                        0 <= i < before.included.len() && before.included[i] == other;
                    assert(more[i] == other);
                }
                if more.contains(other) {
                    let i = choose|i: int| 0 <= i < more.len() && more[i] == other;
                    assert(i < before.included.len());
                    assert(before.included[i] == other);
                }
            }
        }
    }
}

/// Asking, answering and ending an answer leave the choice of references alone
/// and so keep a conversation well formed.
pub proof fn answering_keeps_a_conversation_well_formed(
    before: ConversationView,
    question: Seq<char>,
    request_id: u64,
    delta: Seq<char>,
    sources: Seq<SourceLinkView>,
    status: AgentAnswerSourceStatus,
)
    requires
        before.wf(),
    ensures
        before.asked(question).wf(),
        before.appended(request_id, delta).wf(),
        before.reset(request_id).wf(),
        before.finished(request_id, sources, status).wf(),
        before.failed(request_id, delta).wf(),
        before.cancelled().wf(),
        before.only_current_request().wf(),
{
    assert(before.asked(question).reference_count() == before.reference_count());
    assert(before.appended(request_id, delta).reference_count() == before.reference_count());
    assert(before.reset(request_id).reference_count() == before.reference_count());
    assert(before.finished(request_id, sources, status).reference_count()
        == before.reference_count());
    assert(before.failed(request_id, delta).reference_count() == before.reference_count());
    assert(before.cancelled().reference_count() == before.reference_count());
    assert(before.only_current_request().reference_count() == before.reference_count());
}

/// A question has exactly the references that are counted as chosen, and never
/// more than the limit.
pub proof fn a_question_has_the_chosen_references(conversation: ConversationView)
    requires
        conversation.wf(),
    ensures
        conversation.chosen_hints().len() == conversation.reference_count(),
        conversation.chosen_hints().len() <= MAX_SELECTED_REFERENCES,
        forall|hint: HintView| #[trigger]
            conversation.chosen_hints().contains(hint) <==> conversation.hints.contains(hint)
                && conversation.includes(hint.key()),
{
    let keep = chosen_in(conversation);
    let chosen = conversation.chosen_hints();
    lemma_filter_elements(conversation.hints, keep);
    lemma_distinct_after_filter(conversation.hints, keep);
    let keys = chosen.map_values(|h: HintView| h.key());
    assert(keys.no_duplicates()) by {
        assert forall|i: int, j: int|
            0 <= i < keys.len() && 0 <= j < keys.len() && i != j implies keys[i] != keys[j] by {
            if i < j {
                assert(chosen[i].key() != chosen[j].key());
            } else {
                assert(chosen[j].key() != chosen[i].key());
            }
        }
    }
    keys.unique_seq_to_set();
    conversation.included.unique_seq_to_set();
    let manual = conversation.included.to_set();
    let automatic = conversation.automatic;
    let all = if automatic is Some && automatic->0.included {
        manual.insert(automatic->0.key)
    } else {
        manual
    };
    assert(all.len() == conversation.reference_count()) by {
        if automatic is Some {
            assert(manual.contains(automatic->0.key) <==> conversation.included.contains(
                automatic->0.key,
            ));
        }
    }
    assert forall|key: KeyView| all.contains(key) implies #[trigger] keys.to_set().contains(
        key,
    ) by {
        assert(conversation.includes(key));
        assert(has_key(conversation.hints, key)) by {
            if conversation.included.contains(key) {
                let i = choose|i: int|
                    0 <= i < conversation.included.len() && conversation.included[i] == key;
                assert(has_key(conversation.hints, conversation.included[i]));
            }
        }
        let i = choose|i: int|
            0 <= i < conversation.hints.len() && (#[trigger] conversation.hints[i]).key() == key;
        let hint = conversation.hints[i];
        assert(conversation.hints.contains(hint));
        assert(chosen.contains(hint));
        let j = choose|j: int| 0 <= j < chosen.len() && chosen[j] == hint;
        assert(keys[j] == key);
        assert(keys.contains(key));
    }
    assert forall|key: KeyView| #[trigger] keys.to_set().contains(key) implies all.contains(
        key,
    ) by {
        let j = choose|j: int| 0 <= j < keys.len() && keys[j] == key;
        assert(keep(chosen[j]));
        assert(conversation.includes(key));
    }
    assert(keys.to_set() =~= all);
}

/// A reference that was chosen and dropped, or dropped and chosen, is where it
/// was before, and no other reference is touched.
pub proof fn choosing_twice_changes_nothing(conversation: ConversationView, key: KeyView)
    requires
        conversation.wf(),
        conversation.can_toggle(key),
    ensures
        conversation.toggled(key).includes(key) != conversation.includes(key),
        conversation.toggled(key).can_toggle(key),
        forall|other: KeyView|
            other != key ==> #[trigger] conversation.toggled(key).includes(other)
                == conversation.includes(other),
        forall|other: KeyView| #[trigger]
            conversation.toggled(key).toggled(key).includes(other) == conversation.includes(other),
{
    lemma_toggle(conversation, key);
    let once = conversation.toggled(key);
    choosing_references_keeps_a_conversation_well_formed(conversation, key);
    assert(once.can_toggle(key)) by {
        if conversation.includes(key) {
            assert(has_key(conversation.hints, key)) by {
                if conversation.included.contains(key) {
                    let i = choose|i: int|
                        0 <= i < conversation.included.len() && conversation.included[i] == key;
                    assert(has_key(conversation.hints, conversation.included[i]));
                }
            }
            lemma_dropping_makes_room(conversation, key);
        }
    }
    lemma_toggle(once, key);
    assert forall|other: KeyView| #[trigger]
        once.toggled(key).includes(other) == conversation.includes(other) by {
        if other != key {
            assert(once.includes(other) == conversation.includes(other));
        }
    }
}

proof fn lemma_toggle(conversation: ConversationView, key: KeyView)
    requires
        conversation.can_toggle(key),
    ensures
        conversation.toggled(key).includes(key) != conversation.includes(key),
        forall|other: KeyView|
            other != key ==> #[trigger] conversation.toggled(key).includes(other)
                == conversation.includes(other),
{
    let keep = key_other_than(key);
    lemma_filter_elements(conversation.included, keep);
    let after = conversation.toggled(key);
    if !conversation.includes(key) && !conversation.is_automatic(key) {
        let more = conversation.included.push(key);
        assert(more[conversation.included.len() as int] == key);
        assert(more.contains(key));
        assert forall|other: KeyView| other != key implies #[trigger] after.includes(other)
            == conversation.includes(other) by {
            if conversation.included.contains(other) {
                let i = choose|i: int|
                    0 <= i < conversation.included.len() && conversation.included[i] == other;
                assert(more[i] == other);
            }
            if more.contains(other) {
                let i = choose|i: int| 0 <= i < more.len() && more[i] == other;
                assert(conversation.included[i] == other);
            }
        }
    }
}

proof fn lemma_dropping_makes_room(conversation: ConversationView, key: KeyView)
    requires
        conversation.wf(),
        conversation.includes(key),
    ensures
        conversation.toggled(key).reference_count() < conversation.reference_count(),
{
    let keep = key_other_than(key);
    let after = conversation.toggled(key);
    lemma_filter_elements(conversation.included, keep);
    if conversation.included.contains(key) {
        if after.included.len() == conversation.included.len() {
            crate::seqs::lemma_filter_same_length(conversation.included, keep);
            let i = choose|i: int|
                0 <= i < conversation.included.len() && conversation.included[i] == key;
            assert(keep(conversation.included[i]));
        }
        if conversation.automatic is Some && conversation.automatic->0.key != key {
            let other = conversation.automatic->0.key;
            assert(after.included.contains(other) <==> conversation.included.contains(other));
        }
    } else {
        assert forall|i: int| 0 <= i < conversation.included.len() implies keep(
            #[trigger] conversation.included[i],
        ) by {
            assert(conversation.included.contains(conversation.included[i]));
        }
        lemma_filter_all(conversation.included, keep);
    }
}

/// A selection that was excluded by hand stays excluded when the host offers it
/// again.
pub proof fn an_excluded_selection_stays_excluded(
    conversation: ConversationView,
    references: Seq<HintView>,
)
    requires
        conversation.automatic is Some,
        !conversation.automatic->0.included,
        ({
            let after = conversation.with_hints(references);
            after.automatic is Some && conversation.automatic->0.same_selection(
                after.automatic->0,
            )
        }),
    ensures
        !conversation.with_hints(references).automatic->0.included,
        conversation.with_hints(references).automatic == conversation.automatic,
{
}

/// An explanation starts from an empty conversation: one message, and the
/// selection as the only reference.
pub proof fn an_explanation_inherits_nothing(conversation: ConversationView, reference: HintView)
    requires
        conversation.can_explain(reference),
    ensures
        conversation.cleared_for(reference).request_for(
            SELECTION_EXPLANATION_QUESTION@,
        ).reference_hints == seq![reference],
        conversation.explaining(reference).messages.len() == 1,
        conversation.explaining(reference).included.len() == 0,
        conversation.explaining(reference).includes(reference.key()),
        conversation.explaining(reference).is_current(conversation.next_id),
{
    let allowed = conversation.scope.book_ids();
    let one = seq![reference];
    let empty = Seq::<HintView>::empty();
    assert(one.drop_last() =~= empty);
    assert(accepted_hints(allowed, empty) == empty);
    assert(accepted_hints(allowed, one) =~= one);
    let ready = conversation.cleared_for(reference);
    assert(first_frozen(one) == Some(reference));
    reveal(Seq::filter);
    assert(ready.included =~= Seq::<KeyView>::empty());
    assert(ready.hints =~= one);
    assert(ready.includes(reference.key()));
    assert forall|i: int| 0 <= i < ready.hints.len() implies chosen_in(ready)(
        #[trigger] ready.hints[i],
    ) by {}
    lemma_filter_all(ready.hints, chosen_in(ready));
}

/// What comes for a request that is not awaited has no effect.
pub proof fn late_answers_have_no_effect(
    conversation: ConversationView,
    request_id: u64,
    delta: Seq<char>,
    sources: Seq<SourceLinkView>,
    status: AgentAnswerSourceStatus,
    error: Seq<char>,
)
    requires
        !conversation.is_current(request_id),
    ensures
        conversation.appended(request_id, delta) == conversation,
        conversation.reset(request_id) == conversation,
        conversation.finished(request_id, sources, status) == conversation,
        conversation.failed(request_id, error) == conversation,
{
}

/// Once an answer is completed, failed or called off, its request is awaited no
/// longer, and neither is any other.
pub proof fn an_ended_request_is_not_awaited(
    conversation: ConversationView,
    request_id: u64,
    other: u64,
    sources: Seq<SourceLinkView>,
    status: AgentAnswerSourceStatus,
    error: Seq<char>,
)
    requires
        conversation.is_current(request_id),
    ensures
        !conversation.finished(request_id, sources, status).is_current(other),
        !conversation.failed(request_id, error).is_current(other),
        !conversation.cancelled().is_current(other),
{
}

/// Of an answer that failed or was called off nothing is left.
pub proof fn an_unfinished_answer_leaves_nothing(
    conversation: ConversationView,
    request_id: u64,
    error: Seq<char>,
)
    requires
        conversation.is_current(request_id),
    ensures
        answer_index(conversation.cancelled().messages, request_id) is None,
        answer_index(conversation.failed(request_id, error).messages, request_id) is None,
        answer_index(conversation.reset(request_id).messages, request_id) is None,
        conversation.failed(request_id, error).messages.last().content == error,
        conversation.failed(request_id, error).messages.last().role == AiMessageRole::Error,
{
    let rest = conversation.messages.filter(not_answering(request_id));
    lemma_no_answer_left(conversation.messages, request_id);
    let ended = conversation.cancelled().messages;
    assert(ended.drop_last() =~= rest);
    let failed = conversation.failed(request_id, error).messages;
    assert(failed.drop_last() =~= rest);
}

proof fn lemma_no_answer_left(messages: Seq<MessageView>, request_id: u64)
    ensures
        answer_index(messages.filter(not_answering(request_id)), request_id) is None,
    decreases messages.len(),
{
    reveal(Seq::filter);
    if messages.len() > 0 {
        let rest = messages.drop_last();
        lemma_no_answer_left(rest, request_id);
        let kept = messages.filter(not_answering(request_id));
        if not_answering(request_id)(messages.last()) {
            assert(kept.drop_last() =~= rest.filter(not_answering(request_id)));
        }
    }
}

proof fn lemma_answer_index(messages: Seq<MessageView>, request_id: u64)
    ensures
        match answer_index(messages, request_id) {
            Some(i) => 0 <= i < messages.len() && answers(messages[i], request_id) && forall|
                k: int,
            |
                i < k < messages.len() ==> !answers(#[trigger] messages[k], request_id),
            None => forall|k: int|
                0 <= k < messages.len() ==> !answers(#[trigger] messages[k], request_id),
        },
    decreases messages.len(),
{
    if messages.len() > 0 && !answers(messages.last(), request_id) {
        lemma_answer_index(messages.drop_last(), request_id);
        match answer_index(messages, request_id) {
            Some(i) => {
                assert(messages.drop_last()[i] == messages[i]);
                assert forall|k: int| i < k < messages.len() implies !answers(
                    #[trigger] messages[k],
                    request_id,
                ) by {
                    if k < messages.len() - 1 {
                        assert(messages.drop_last()[k] == messages[k]);
                    }
                }
            },
            None => {
                assert forall|k: int| 0 <= k < messages.len() implies !answers(
                    #[trigger] messages[k],
                    request_id,
                ) by {
                    if k < messages.len() - 1 {
                        assert(messages.drop_last()[k] == messages[k]);
                    }
                }
            },
        }
    }
}

proof fn lemma_answer_index_is(messages: Seq<MessageView>, request_id: u64, at: int)
    requires
        0 <= at < messages.len(),
        answers(messages[at], request_id),
        forall|k: int| at < k < messages.len() ==> !answers(#[trigger] messages[k], request_id),
    ensures
        answer_index(messages, request_id) == Some(at),
{
    lemma_answer_index(messages, request_id);
    match answer_index(messages, request_id) {
        Some(i) => {
            if i < at {
                assert(!answers(messages[at], request_id));
            } else if at < i {
                assert(!answers(messages[i], request_id));
            }
        },
        None => {
            assert(!answers(messages[at], request_id));
        },
    }
}

/// The pieces of an answer stand one behind the other in the order in which
/// they came, within the limit.
pub proof fn an_answer_is_its_pieces_in_order(
    conversation: ConversationView,
    request_id: u64,
    delta: Seq<char>,
)
    requires
        conversation.can_append(request_id, delta),
    ensures
        conversation.appended(request_id, delta).answer_so_far(request_id)
            == conversation.answer_so_far(request_id) + delta,
        answer_index(conversation.appended(request_id, delta).messages, request_id) is Some,
        byte_len(conversation.appended(request_id, delta).answer_so_far(request_id))
            <= MAX_MESSAGE_BYTES,
{
    let after = conversation.appended(request_id, delta);
    lemma_answer_index(conversation.messages, request_id);
    lemma_byte_len_concat(conversation.answer_so_far(request_id), delta);
    match answer_index(conversation.messages, request_id) {
        Some(i) => {
            assert forall|k: int| i < k < after.messages.len() implies !answers(
                #[trigger] after.messages[k],
                request_id,
            ) by {
                assert(after.messages[k] == conversation.messages[k]);
            }
            lemma_answer_index_is(after.messages, request_id, i);
        },
        None => {
            lemma_answer_index_is(after.messages, request_id, conversation.messages.len() as int);
            assert(Seq::<char>::empty() + delta =~= delta);
        },
    }
}

/// A completed answer has only links that its scope allows, and its text is what
/// had come.
pub proof fn a_finished_answer_has_allowed_links(
    conversation: ConversationView,
    request_id: u64,
    sources: Seq<SourceLinkView>,
    status: AgentAnswerSourceStatus,
)
    requires
        conversation.is_current(request_id),
        conversation.links_are_allowed(),
    ensures
        conversation.finished(request_id, sources, status).links_are_allowed(),
        ({
            let after = conversation.finished(request_id, sources, status);
            let at = answer_index(after.messages, request_id);
            &&& at is Some
            &&& after.messages[at->0].source_status == Some(status)
            &&& forall|source: SourceLinkView| #[trigger]
                after.messages[at->0].sources.contains(source) <==> sources.contains(source)
                    && is_allowed_source(conversation.scope.book_ids(), source)
            &&& answer_index(conversation.messages, request_id) is Some
                ==> after.messages[at->0].content == conversation.answer_so_far(request_id)
        }),
{
    let keep = allowed_source(conversation.scope.book_ids());
    let after = conversation.finished(request_id, sources, status);
    lemma_filter_elements(sources, keep);
    lemma_answer_index(conversation.messages, request_id);
    let kept = sources.filter(keep);
    let at = match answer_index(conversation.messages, request_id) {
        Some(i) => i,
        None => conversation.messages.len() as int,
    };
    assert forall|k: int| at < k < after.messages.len() implies !answers(
        #[trigger] after.messages[k],
        request_id,
    ) by {
        assert(after.messages[k] == conversation.messages[k]);
    }
    lemma_answer_index_is(after.messages, request_id, at);
    assert forall|i: int, k: int|
        #![trigger after.messages[i].sources[k]]
        0 <= i < after.messages.len() && 0 <= k
            < after.messages[i].sources.len() implies is_allowed_source(
        after.scope.book_ids(),
        after.messages[i].sources[k],
    ) by {
        if i == at {
            assert(after.messages[i].sources == kept);
            assert(keep(kept[k]));
        } else {
            assert(after.messages[i] == conversation.messages[i]);
            assert(is_allowed_source(
                conversation.scope.book_ids(),
                conversation.messages[i].sources[k],
            ));
        }
    }
}

/// Completing an answer leaves its text as it had come.
pub proof fn a_finished_answer_keeps_its_text(
    conversation: ConversationView,
    request_id: u64,
    sources: Seq<SourceLinkView>,
    status: AgentAnswerSourceStatus,
)
    requires
        conversation.is_current(request_id),
        answer_index(conversation.messages, request_id) is Some,
    ensures
        conversation.finished(request_id, sources, status).answer_so_far(request_id)
            == conversation.answer_so_far(request_id),
{
    let after = conversation.finished(request_id, sources, status);
    lemma_answer_index(conversation.messages, request_id);
    let at = answer_index(conversation.messages, request_id)->0;
    assert forall|k: int| at < k < after.messages.len() implies !answers(
        #[trigger] after.messages[k],
        request_id,
    ) by {
        assert(after.messages[k] == conversation.messages[k]);
    }
    lemma_answer_index_is(after.messages, request_id, at);
}

/// Completing a request for which no text came says so.
pub proof fn an_unanswered_request_is_named(
    conversation: ConversationView,
    request_id: u64,
    sources: Seq<SourceLinkView>,
    status: AgentAnswerSourceStatus,
)
    requires
        conversation.is_current(request_id),
        answer_index(conversation.messages, request_id) is None,
    ensures
        conversation.finished(request_id, sources, status).answer_so_far(request_id)
            == "模型没有返回文本。"@,
{
    let after = conversation.finished(request_id, sources, status);
    lemma_answer_index_is(after.messages, request_id, conversation.messages.len() as int);
}

/// Identifiers are handed out in rising order: what is new was never used, as
/// long as the largest number is not reached.
pub proof fn identifiers_are_fresh(
    conversation: ConversationView,
    question: Seq<char>,
    request_id: u64,
    delta: Seq<char>,
    sources: Seq<SourceLinkView>,
    status: AgentAnswerSourceStatus,
)
    requires
        conversation.ids_are_behind(),
        conversation.next_id < u64::MAX - 1,
    ensures
        conversation.asked(question).ids_are_behind(),
        conversation.appended(request_id, delta).ids_are_behind(),
        conversation.reset(request_id).ids_are_behind(),
        conversation.finished(request_id, sources, status).ids_are_behind(),
        conversation.failed(request_id, delta).ids_are_behind(),
        conversation.cancelled().ids_are_behind(),
        forall|i: int|
            0 <= i < conversation.messages.len() ==> (#[trigger] conversation.messages[i]).id
                < conversation.request_for(question).request_id,
        conversation.asked(question).next_id > conversation.next_id,
{
    let keep = not_answering(request_id);
    lemma_filter_elements(conversation.messages, keep);
    lemma_behind_after_filter(conversation, keep);
    lemma_answer_index(conversation.messages, request_id);
    if let RequestState::Sending { request_id: current } = conversation.request {
        lemma_behind_after_filter(conversation, not_answering(current));
    }
    let asked = conversation.asked(question);
    assert forall|i: int| 0 <= i < asked.messages.len() implies (#[trigger] asked.messages[i]).id
        < asked.next_id && (asked.messages[i].request_id is Some
        ==> asked.messages[i].request_id->0 < asked.next_id) by {
        if i < conversation.messages.len() {
            assert(asked.messages[i] == conversation.messages[i]);
        }
    }
    let appended = conversation.appended(request_id, delta);
    assert forall|i: int| 0 <= i < appended.messages.len() implies (
    #[trigger] appended.messages[i]).id < appended.next_id && (appended.messages[i].request_id is Some
        ==> appended.messages[i].request_id->0 < appended.next_id) by {
        if i < conversation.messages.len() {
            assert(conversation.messages[i].id < conversation.next_id);
        }
    }
    let finished = conversation.finished(request_id, sources, status);
    assert forall|i: int| 0 <= i < finished.messages.len() implies (
    #[trigger] finished.messages[i]).id < finished.next_id && (finished.messages[i].request_id is Some
        ==> finished.messages[i].request_id->0 < finished.next_id) by {
        if i < conversation.messages.len() {
            assert(conversation.messages[i].id < conversation.next_id);
        }
    }
}

proof fn lemma_behind_after_filter(
    conversation: ConversationView,
    keep: spec_fn(MessageView) -> bool,
)
    requires
        conversation.ids_are_behind(),
    ensures
        forall|i: int|
            0 <= i < conversation.messages.filter(keep).len() ==> (
            #[trigger] conversation.messages.filter(keep)[i]).id < conversation.next_id && (
            conversation.messages.filter(keep)[i].request_id is Some
                ==> conversation.messages.filter(keep)[i].request_id->0 < conversation.next_id),
{
    lemma_filter_elements(conversation.messages, keep);
    let kept = conversation.messages.filter(keep);
    assert forall|i: int| 0 <= i < kept.len() implies (#[trigger] kept[i]).id
        < conversation.next_id && (kept[i].request_id is Some ==> kept[i].request_id->0
        < conversation.next_id) by {
        assert(conversation.messages.contains(kept[i]));
        let k = choose|k: int|
            0 <= k < conversation.messages.len() && conversation.messages[k] == kept[i];
        assert(conversation.messages[k].id < conversation.next_id);
    }
}

/// A request is exactly the trimmed question within its limit, under the scope
/// of the conversation, and while it is awaited no other can be sent.
pub proof fn one_request_at_a_time(
    conversation: ConversationView,
    question: Seq<char>,
    another: Seq<char>,
    reference: HintView,
)
    requires
        conversation.can_ask(question),
    ensures
        conversation.request_for(question).question == trimmed(question),
        0 < byte_len(trimmed(question)) <= MAX_QUESTION_BYTES,
        conversation.request_for(question).book_ids == conversation.scope.book_ids(),
        !conversation.asked(question).can_ask(another),
        !conversation.asked(question).can_explain(reference),
        conversation.asked(question).is_current(conversation.request_for(question).request_id),
{
    crate::text::lemma_trimmed(question);
    crate::text::lemma_byte_len_ge(trimmed(question));
}

/// When another stored conversation is opened, only the messages of the awaited
/// answer are kept.
pub proof fn only_the_awaited_answer_moves_along(conversation: ConversationView)
    ensures
        forall|i: int|
            0 <= i < conversation.only_current_request().messages.len() ==> conversation.request
                == (RequestState::Sending {
                request_id: (#[trigger] conversation.only_current_request().messages[i]).request_id->0,
            }),
{
    if let RequestState::Sending { request_id } = conversation.request {
        lemma_filter_elements(conversation.messages, belonging_to(request_id));
    }
}

} // verus!
