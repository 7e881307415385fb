//! What an answer shows of its citations, and a stored conversation of its messages:
//! all of them that can be shown, in their order, each for what it is.

use crate::citations::{
    all_restored, listed, live_links, restored_message, stored_links, with_validated_links,
    AgentCitation, AgentCitationSourceKind, ChatCitation, ChatRole, ChatThread, StoredChatMessage,
};
use crate::document::{DocumentView, LocatorView};
use crate::sidebar::{AiRestoredRole, RestoredView};
use crate::sources::{AgentAnswerSourceStatus, SourceLinkView};
use crate::text::{begins_with, is_white_space, option_text};
use vstd::prelude::*;

verus! {

/// Whether a locator names a page that was only rendered for a preview.
pub open spec fn is_rendered_page(locator: LocatorView) -> bool {
    locator.source is Some && locator.source->0 is OfficeRenderedPage
}

/// The test for citations of a new answer that can be shown: those of the web, and
/// those of a book whose place is well-formed, is in the cited unit, and is no page
/// that was only rendered.
pub open spec fn showable() -> spec_fn(AgentCitation) -> bool {
    |citation: AgentCitation|
        citation.source_kind == AgentCitationSourceKind::Web || (citation.locator@.book_id
            == citation.book_id@ && citation.locator@.unit_id == citation.unit_id@
            && citation.locator@.shape_error is None && !is_rendered_page(citation.locator@))
}

/// The test for stored citations that can be shown.
pub open spec fn stored_showable() -> spec_fn(ChatCitation) -> bool {
    |citation: ChatCitation|
        citation.source_kind == AgentCitationSourceKind::Web || (
        citation.locator@.shape_error is None && !is_rendered_page(citation.locator@) && (
        citation.content_unit_id is None || citation.content_unit_id->0@
            == citation.locator@.unit_id))
}

/// Whether a link to the web is that of a citation: named by the title of the page,
/// or by its address where it has none, and in no book.
pub open spec fn is_web_link_of(
    link: SourceLinkView,
    id: Seq<char>,
    quote: Seq<char>,
    url: Option<String>,
    title: Option<String>,
) -> bool {
    &&& link.citation_id == id
    &&& link.quote == Some(quote)
    &&& link.url == option_text(url)
    &&& title is Some ==> link.label == title->0@
    &&& title is None && url is Some ==> link.label == url->0@
    &&& title is None && url is None ==> link.label.len() == 0
    &&& link.book_id.len() == 0
    &&& link.unit_id.len() == 0
    &&& link.locator is None
    &&& link.unit_index is None
    &&& !link.selection_snapshot
    &&& !link.stale
}

/// Whether a link is that of a citation of a new answer.
pub open spec fn is_link_of(link: SourceLinkView, citation: AgentCitation) -> bool {
    if citation.source_kind == AgentCitationSourceKind::Web {
        is_web_link_of(
            link,
            citation.citation_id@,
            citation.quote@,
            citation.url,
            citation.source_title,
        )
    } else {
        &&& link.citation_id == citation.citation_id@
        &&& link.book_id == citation.book_id@
        &&& link.unit_id == citation.unit_id@
        &&& link.document_revision == citation.document_revision
        &&& link.unit_revision == citation.unit_revision
        &&& link.locator == Some(citation.locator@)
        &&& link.label == citation.book_title@ + " · "@ + citation.unit_title@
        &&& link.quote == Some(citation.quote@)
        &&& link.selection_snapshot == begins_with(citation.citation_id@, "selection:"@)
        &&& link.unit_index is None
        &&& link.url is None
        &&& !link.stale
    }
}

/// Whether a link is that of a stored citation.
pub open spec fn is_link_of_stored(link: SourceLinkView, citation: ChatCitation) -> bool {
    if citation.source_kind == AgentCitationSourceKind::Web {
        is_web_link_of(
            link,
            citation.id@,
            citation.quote@,
            citation.url,
            citation.source_title,
        )
    } else {
        &&& link.citation_id == citation.id@
        &&& link.book_id == citation.locator@.book_id
        &&& link.unit_id == citation.locator@.unit_id
        &&& link.document_revision == citation.document_revision
        &&& link.unit_revision == citation.unit_revision
        &&& link.locator == Some(citation.locator@)
        &&& link.label == "已保存的来源"@
        &&& link.quote == Some(citation.quote@)
        &&& link.selection_snapshot == (citation.search_chunk_id is None)
        &&& link.unit_index is None
        &&& link.url is None
        &&& !link.stale
    }
}

/// An answer shows a link for each of its citations that can be shown, in their order;
/// each link is that of its own citation.
pub proof fn every_citation_becomes_a_link(citations: Seq<AgentCitation>)
    ensures
        live_links(citations).len() == citations.filter(showable()).len(),
        forall|i: int|
            0 <= i < live_links(citations).len() ==> is_link_of(
                #[trigger] live_links(citations)[i],
                citations.filter(showable())[i],
            ),
    decreases citations.len(),
{
    reveal(Seq::filter);
    if citations.len() > 0 {
        let rest = citations.drop_last();
        every_citation_becomes_a_link(rest);
        assert(showable()(citations.last()) == citations.last().is_linkable());
        assert forall|i: int| 0 <= i < live_links(citations).len() implies is_link_of(
            #[trigger] live_links(citations)[i],
            citations.filter(showable())[i],
        ) by {
            if i < live_links(rest).len() {
                assert(live_links(citations)[i] == live_links(rest)[i]);
            }
        }
    }
}

/// A stored answer shows a link for each of its citations that can be shown, in their
/// order; each link is that of its own citation.
pub proof fn every_stored_citation_becomes_a_link(citations: Seq<ChatCitation>)
    ensures
        stored_links(citations).len() == citations.filter(stored_showable()).len(),
        forall|i: int|
            0 <= i < stored_links(citations).len() ==> is_link_of_stored(
                #[trigger] stored_links(citations)[i],
                citations.filter(stored_showable())[i],
            ),
    decreases citations.len(),
{
    reveal(Seq::filter);
    if citations.len() > 0 {
        let rest = citations.drop_last();
        every_stored_citation_becomes_a_link(rest);
        assert(stored_showable()(citations.last()) == citations.last().is_linkable());
        assert forall|i: int| 0 <= i < stored_links(citations).len() implies is_link_of_stored(
            #[trigger] stored_links(citations)[i],
            citations.filter(stored_showable())[i],
        ) by {
            if i < stored_links(rest).len() {
                assert(stored_links(citations)[i] == stored_links(rest)[i]);
            }
        }
    }
}

/// The test for messages that are shown: questions and answers.
pub open spec fn is_spoken() -> spec_fn(StoredChatMessage) -> bool {
    |message: StoredChatMessage|
        message.role == ChatRole::User || message.role == ChatRole::Assistant
}

/// A stored conversation shows all its questions and answers, in their order and with
/// their own texts and citations, and nothing else. An answer counts as backed exactly
/// where citations are stored with it.
pub proof fn every_stored_message_is_shown(messages: Seq<StoredChatMessage>)
    ensures
        all_restored(messages).len() == messages.filter(is_spoken()).len(),
        forall|i: int|
            #![trigger all_restored(messages)[i]]
            0 <= i < all_restored(messages).len() ==> {
                let shown = all_restored(messages)[i];
                let stored = messages.filter(is_spoken())[i];
                &&& shown.content == stored.content@
                &&& shown.sources == stored_links(stored.citations@)
                &&& shown.role == AiRestoredRole::User <==> stored.role == ChatRole::User
                &&& shown.role == AiRestoredRole::Assistant <==> stored.role == ChatRole::Assistant
                &&& shown.source_status is None <==> stored.role == ChatRole::User
                &&& stored.role == ChatRole::Assistant ==> (shown.source_status == Some(
                    AgentAnswerSourceStatus::NoVerifiedSources,
                ) <==> stored.citations@.len() == 0)
                &&& stored.role == ChatRole::Assistant ==> (shown.source_status == Some(
                    AgentAnswerSourceStatus::VerifiedKnowledgeBaseSources,
                ) <==> stored.citations@.len() > 0)
            },
    decreases messages.len(),
{
    reveal(Seq::filter);
    if messages.len() > 0 {
        let rest = messages.drop_last();
        every_stored_message_is_shown(rest);
        assert(is_spoken()(messages.last()) == restored_message(messages.last()) is Some);
        assert forall|i: int| 0 <= i < all_restored(rest).len() implies #[trigger] all_restored(
            messages,
        )[i] == all_restored(rest)[i] && messages.filter(is_spoken())[i] == rest.filter(
            is_spoken(),
        )[i] by {}
    }
}

/// Holding the links of a message against the documents changes nothing else of it;
/// where the documents could not be read, no link is shown.
pub proof fn a_message_keeps_its_text_without_documents(
    allowed: Seq<Seq<char>>,
    documents: Option<Seq<DocumentView>>,
    message: RestoredView,
)
    ensures
        with_validated_links(allowed, documents, message).role == message.role,
        with_validated_links(allowed, documents, message).content == message.content,
        with_validated_links(allowed, documents, message).source_status == message.source_status,
        with_validated_links(allowed, None, message).sources.len() == 0,
{
}

/// All stored conversations are listed, in their order, each under its title, or
/// as a new one where that is blank.
pub proof fn every_stored_conversation_is_listed(threads: Seq<ChatThread>, i: int)
    requires
        0 <= i < threads.len(),
    ensures
        listed(threads).len() == threads.len(),
        listed(threads)[i].id == threads[i].id@,
        listed(threads)[i].book_ids.len() == threads[i].book_ids@.len(),
        forall|b: int|
            0 <= b < threads[i].book_ids@.len() ==> #[trigger] listed(threads)[i].book_ids[b]
                == threads[i].book_ids@[b]@,
        (forall|k: int|
            0 <= k < threads[i].title@.len() ==> is_white_space(#[trigger] threads[i].title@[k]))
            ==> listed(threads)[i].title == "新对话"@,
        (exists|k: int|
            0 <= k < threads[i].title@.len() && !is_white_space(#[trigger] threads[i].title@[k]))
            ==> listed(threads)[i].title == threads[i].title@,
{
}

} // verus!
