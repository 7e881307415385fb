//! Citations of answers, live and stored, as links to passages.

use crate::document::{
    BookDocument, DocumentLocator, DocumentView, LocatorView, Revision, SourceLocator,
};
use crate::sessions::{thread_views, AiThreadOption, ThreadView};
use crate::sidebar::{restored_views, AiRestoredMessage, AiRestoredRole, RestoredView};
use crate::scope::label_or;
use crate::sources::{source_views, AgentAnswerSourceStatus, AiSourceLink, SourceLinkView};
use crate::text::{
    begins_with, copy_list, copy_option, has_prefix, list_has, option_text, same_text, texts,
};
use vstd::prelude::*;
use vstd::string::*;

verus! {

/// Where a cited passage is from.
#[derive(Clone, Copy, Debug, PartialEq, Eq, Structural)]
pub enum AgentCitationSourceKind {
    Book,
    Web,
}

/// A citation of an answer that was just given.
#[derive(Debug, PartialEq, Eq)]
pub struct AgentCitation {
    pub citation_id: String,
    pub book_id: String,
    pub book_title: String,
    pub unit_id: String,
    pub unit_title: String,
    pub document_revision: Revision,
    pub unit_revision: Revision,
    pub quote: String,
    pub locator: DocumentLocator,
    pub source_kind: AgentCitationSourceKind,
    pub url: Option<String>,
    pub source_title: Option<String>,
}

/// A citation of a stored answer.
#[derive(Debug, PartialEq, Eq)]
pub struct ChatCitation {
    pub id: String,
    pub content_unit_id: Option<String>,
    pub search_chunk_id: Option<String>,
    pub document_revision: Revision,
    pub unit_revision: Revision,
    pub quote: String,
    pub locator: DocumentLocator,
    pub source_kind: AgentCitationSourceKind,
    pub url: Option<String>,
    pub source_title: Option<String>,
}

/// A link to the web: it belongs to no book.
pub open spec fn web_link(
    id: Seq<char>,
    quote: Seq<char>,
    url: Option<Seq<char>>,
    title: Option<Seq<char>>,
) -> SourceLinkView {
    SourceLinkView {
        citation_id: id,
        book_id: Seq::empty(),
        unit_id: Seq::empty(),
        unit_index: None,
        document_revision: Revision { value: 0 },
        unit_revision: Revision { value: 0 },
        locator: None,
        label: match (title, url) {
            (Some(title), _) => title,
            (None, Some(url)) => url,
            (None, None) => Seq::empty(),
        },
        quote: Some(quote),
        selection_snapshot: false,
        stale: false,
        url,
    }
}

fn link_to_web(
    id: &String,
    quote: &String,
    url: &Option<String>,
    title: &Option<String>,
) -> (r: AiSourceLink)
    ensures
        r@ == web_link(id@, quote@, option_text(*url), option_text(*title)),
{
    let label = match title {
        Some(title) => title.clone(),
        None => match url {
            Some(url) => url.clone(),
            None => String::new(),
        },
    };
    AiSourceLink {
        citation_id: id.clone(),
        book_id: String::new(),
        unit_id: String::new(),
        unit_index: None,
        document_revision: Revision::new(0),
        unit_revision: Revision::new(0),
        locator: None,
        label,
        quote: Some(quote.clone()),
        selection_snapshot: false,
        stale: false,
        url: copy_option(url),
    }
}

/// Whether a locator names a page that was only rendered for a preview.
pub open spec fn is_preview(locator: LocatorView) -> bool {
    locator.source is Some && locator.source->0 is OfficeRenderedPage
}

fn names_preview(locator: &DocumentLocator) -> (r: bool)
    ensures
        r == is_preview(locator@),
{
    match &locator.source {
        Some(SourceLocator::OfficeRenderedPage { page }) => true,
        _ => false,
    }
}

impl AgentCitation {
    /// Whether the citation can be shown as a link.
    pub open spec fn is_linkable(self) -> bool {
        self.source_kind is Web || (self.locator@.book_id == self.book_id@ && self.locator@.unit_id
            == self.unit_id@ && self.locator@.shape_error is None && !is_preview(self.locator@))
    }

    /// The link that the citation becomes.
    pub open spec fn link(self) -> SourceLinkView {
        if self.source_kind is Web {
            web_link(
                self.citation_id@,
                self.quote@,
                option_text(self.url),
                option_text(self.source_title),
            )
        } else {
            SourceLinkView {
                citation_id: self.citation_id@,
                book_id: self.book_id@,
                unit_id: self.unit_id@,
                unit_index: None,
                document_revision: self.document_revision,
                unit_revision: self.unit_revision,
                locator: Some(self.locator@),
                label: self.book_title@ + " · "@ + self.unit_title@,
                quote: Some(self.quote@),
                selection_snapshot: begins_with(self.citation_id@, "selection:"@),
                stale: false,
                url: None,
            }
        }
    }
}

/// The link of a citation of an answer that was just given, if its place is
/// valid.
pub fn source_link_from_agent_citation(citation: &AgentCitation) -> (r: Option<AiSourceLink>)
    ensures
        match r {
            Some(link) => citation.is_linkable() && link@ == citation.link(),
            None => !citation.is_linkable(),
        },
{
    if citation.source_kind == AgentCitationSourceKind::Web {
        return Some(
            link_to_web(
                &citation.citation_id,
                &citation.quote,
                &citation.url,
                &citation.source_title,
            ),
        );
    }
    if !same_text(citation.locator.book_id.as_str(), citation.book_id.as_str()) || !same_text(
        citation.locator.unit_id.as_str(),
        citation.unit_id.as_str(),
    ) || citation.locator.shape_error.is_some() || names_preview(&citation.locator) {
        return None;
    }
    let mut label = citation.book_title.clone();
    label.push_str(" · ");
    label.push_str(citation.unit_title.as_str());
    Some(
        AiSourceLink {
            citation_id: citation.citation_id.clone(),
            book_id: citation.book_id.clone(),
            unit_id: citation.unit_id.clone(),
            unit_index: None,
            document_revision: citation.document_revision,
            unit_revision: citation.unit_revision,
            locator: Some(citation.locator.clone()),
            label,
            quote: Some(citation.quote.clone()),
            selection_snapshot: has_prefix(citation.citation_id.as_str(), "selection:"),
            stale: false,
            url: None,
        },
    )
}

impl ChatCitation {
    /// Whether the citation can be shown as a link.
    pub open spec fn is_linkable(self) -> bool {
        self.source_kind is Web || (self.locator@.shape_error is None && !is_preview(self.locator@)
            && (self.content_unit_id is Some ==> self.content_unit_id->0@ == self.locator@.unit_id))
    }

    /// The link that the citation becomes.
    pub open spec fn link(self) -> SourceLinkView {
        if self.source_kind is Web {
            web_link(
                self.id@,
                self.quote@,
                option_text(self.url),
                option_text(self.source_title),
            )
        } else {
            SourceLinkView {
                citation_id: self.id@,
                book_id: self.locator@.book_id,
                unit_id: self.locator@.unit_id,
                unit_index: None,
                document_revision: self.document_revision,
                unit_revision: self.unit_revision,
                locator: Some(self.locator@),
                label: "已保存的来源"@,
                quote: Some(self.quote@),
                selection_snapshot: self.search_chunk_id is None,
                stale: false,
                url: None,
            }
        }
    }
}

/// The link of a stored citation, if its place is valid.
pub fn source_link_from_chat_citation(citation: &ChatCitation) -> (r: Option<AiSourceLink>)
    ensures
        match r {
            Some(link) => citation.is_linkable() && link@ == citation.link(),
            None => !citation.is_linkable(),
        },
{
    if citation.source_kind == AgentCitationSourceKind::Web {
        return Some(
            link_to_web(&citation.id, &citation.quote, &citation.url, &citation.source_title),
        );
    }
    if citation.locator.shape_error.is_some() || names_preview(&citation.locator) {
        return None;
    }
    if let Some(unit_id) = &citation.content_unit_id {
        if !same_text(unit_id.as_str(), citation.locator.unit_id.as_str()) {
            return None;
        }
    }
    Some(
        AiSourceLink {
            citation_id: citation.id.clone(),
            book_id: citation.locator.book_id.clone(),
            unit_id: citation.locator.unit_id.clone(),
            unit_index: None,
            document_revision: citation.document_revision,
            unit_revision: citation.unit_revision,
            locator: Some(citation.locator.clone()),
            label: "已保存的来源".to_owned(),
            quote: Some(citation.quote.clone()),
            selection_snapshot: citation.search_chunk_id.is_none(),
            stale: false,
            url: None,
        },
    )
}

/// The links of stored citations.
pub open spec fn stored_links(citations: Seq<ChatCitation>) -> Seq<SourceLinkView>
    decreases citations.len(),
{
    if citations.len() == 0 {
        Seq::empty()
    } else {
        let before = stored_links(citations.drop_last());
        if citations.last().is_linkable() {
            before.push(citations.last().link())
        } else {
            before
        }
    }
}

fn links_of_stored(citations: &Vec<ChatCitation>) -> (r: Vec<AiSourceLink>)
    ensures
        source_views(r@) == stored_links(citations@),
{
    let mut out: Vec<AiSourceLink> = Vec::new();
    let mut i: usize = 0;
    assert(citations@.subrange(0, 0) =~= Seq::<ChatCitation>::empty());
    assert(source_views(out@) =~= Seq::<SourceLinkView>::empty());
    while i < citations.len()
        invariant
            i <= citations@.len(),
            source_views(out@) == stored_links(citations@.subrange(0, i as int)),
        decreases citations@.len() - i,
    {
        assert(citations@.subrange(0, i + 1).drop_last() =~= citations@.subrange(0, i as int));
        if let Some(link) = source_link_from_chat_citation(&citations[i]) {
            let ghost had = out@;
            out.push(link);
            assert(source_views(out@) =~= source_views(had).push(link@));
        }
        i = i + 1;
    }
    assert(citations@.subrange(0, citations@.len() as int) =~= citations@);
    out
}

/// The links of citations of an answer that was just given.
pub open spec fn live_links(citations: Seq<AgentCitation>) -> Seq<SourceLinkView>
    decreases citations.len(),
{
    if citations.len() == 0 {
        Seq::empty()
    } else {
        let before = live_links(citations.drop_last());
        if citations.last().is_linkable() {
            before.push(citations.last().link())
        } else {
            before
        }
    }
}

/// The links of citations of an answer that was just given.
pub fn links_of_answer(citations: &Vec<AgentCitation>) -> (r: Vec<AiSourceLink>)
    ensures
        source_views(r@) == live_links(citations@),
{
    let mut out: Vec<AiSourceLink> = Vec::new();
    let mut i: usize = 0;
    assert(citations@.subrange(0, 0) =~= Seq::<AgentCitation>::empty());
    assert(source_views(out@) =~= Seq::<SourceLinkView>::empty());
    while i < citations.len()
        invariant
            i <= citations@.len(),
            source_views(out@) == live_links(citations@.subrange(0, i as int)),
        decreases citations@.len() - i,
    {
        assert(citations@.subrange(0, i + 1).drop_last() =~= citations@.subrange(0, i as int));
        if let Some(link) = source_link_from_agent_citation(&citations[i]) {
            let ghost had = out@;
            out.push(link);
            assert(source_views(out@) =~= source_views(had).push(link@));
        }
        i = i + 1;
    }
    assert(citations@.subrange(0, citations@.len() as int) =~= citations@);
    out
}

/// The documents that a list holds.
pub open spec fn document_views(documents: Seq<BookDocument>) -> Seq<DocumentView> {
    documents.map_values(|d: BookDocument| d@)
}

/// The first document with an identifier.
pub open spec fn document_with_id(documents: Seq<DocumentView>, id: Seq<char>) -> Option<
    DocumentView,
>
    decreases documents.len(),
{
    if documents.len() == 0 {
        None
    } else if documents[0].id == id {
        Some(documents[0])
    } else {
        document_with_id(documents.drop_first(), id)
    }
}

fn find_document<'a>(documents: &'a Vec<BookDocument>, id: &str) -> (r: Option<&'a BookDocument>)
    ensures
        document_with_id(document_views(documents@), id@) == (match r {
            Some(document) => Some(document@),
            None => None,
        }),
{
    let ghost all = document_views(documents@);
    let mut i: usize = 0;
    assert(all.subrange(0, all.len() as int) =~= all);
    while i < documents.len()
        invariant
            i <= documents@.len(),
            all == document_views(documents@),
            document_with_id(all.subrange(i as int, all.len() as int), id@) == document_with_id(
                all,
                id@,
            ),
        decreases documents@.len() - i,
    {
        let ghost here = all.subrange(i as int, all.len() as int);
        proof {
            assert(here[0] == documents@[i as int]@);
            assert(here.drop_first() =~= all.subrange(i + 1, all.len() as int));
        }
        if same_text(documents[i].id.as_str(), id) {
            return Some(&documents[i]);
        }
        i = i + 1;
    }
    None
}

/// Whether a link is kept where only some books are allowed. Links to the web
/// belong to no book and are kept everywhere.
pub open spec fn is_kept(allowed: Seq<Seq<char>>, source: SourceLinkView) -> bool {
    source.url is Some || allowed.contains(source.book_id)
}

/// A link of an answer that was just given, held against the current documents.
/// A link to the web stays as it is.
pub open spec fn live_status(documents: Seq<DocumentView>, source: SourceLinkView) -> SourceLinkView {
    if source.url is Some {
        source
    } else {
        source.checked(document_with_id(documents, source.book_id))
    }
}

/// A link of a stored answer, held against the current documents. A link to the
/// web stays as it is.
pub open spec fn stored_status(
    documents: Seq<DocumentView>,
    source: SourceLinkView,
) -> SourceLinkView {
    if source.url is Some {
        source
    } else {
        source.restored(document_with_id(documents, source.book_id))
    }
}

/// The links that are kept, each held against the current documents.
pub open spec fn validated_links(
    allowed: Seq<Seq<char>>,
    documents: Seq<DocumentView>,
    sources: Seq<SourceLinkView>,
    stored: bool,
) -> Seq<SourceLinkView>
    decreases sources.len(),
{
    if sources.len() == 0 {
        Seq::empty()
    } else {
        let before = validated_links(allowed, documents, sources.drop_last(), stored);
        let last = sources.last();
        if is_kept(allowed, last) {
            before.push(
                if stored {
                    stored_status(documents, last)
                } else {
                    live_status(documents, last)
                },
            )
        } else {
            before
        }
    }
}

fn validate_links(
    allowed: &Vec<String>,
    documents: &Vec<BookDocument>,
    sources: &Vec<AiSourceLink>,
    stored: bool,
) -> (r: Vec<AiSourceLink>)
    ensures
        source_views(r@) == validated_links(
            texts(allowed@),
            document_views(documents@),
            source_views(sources@),
            stored,
        ),
{
    let ghost all = source_views(sources@);
    let ghost docs = document_views(documents@);
    let mut out: Vec<AiSourceLink> = Vec::new();
    let mut i: usize = 0;
    assert(all.subrange(0, 0) =~= Seq::<SourceLinkView>::empty());
    assert(source_views(out@) =~= Seq::<SourceLinkView>::empty());
    while i < sources.len()
        invariant
            i <= sources@.len(),
            all == source_views(sources@),
            docs == document_views(documents@),
            source_views(out@) == validated_links(
                texts(allowed@),
                docs,
                all.subrange(0, i as int),
                stored,
            ),
        decreases sources@.len() - i,
    {
        proof {
            assert(all.subrange(0, i + 1).drop_last() =~= all.subrange(0, i as int));
            assert(all.subrange(0, i + 1).last() == sources@[i as int]@);
        }
        let web: bool = sources[i].url.is_some();
        if web || list_has(allowed, sources[i].book_id.as_str()) {
            let mut source = sources[i].clone();
            if !web {
                let document = find_document(documents, source.book_id.as_str());
                if stored {
                    source.mark_restored_status(document);
                } else {
                    source.mark_current_status(document);
                }
            }
            let ghost had = out@;
            out.push(source);
            assert(source_views(out@) =~= source_views(had).push(source@));
        }
        i = i + 1;
    }
    assert(all.subrange(0, all.len() as int) =~= all);
    out
}

/// The links of an answer that was just given, as far as they are kept, each
/// held against the current documents.
pub fn validate_live_sources(
    allowed_book_ids: &Vec<String>,
    documents: &Vec<BookDocument>,
    sources: &Vec<AiSourceLink>,
) -> (r: Vec<AiSourceLink>)
    ensures
        source_views(r@) == validated_links(
            texts(allowed_book_ids@),
            document_views(documents@),
            source_views(sources@),
            false,
        ),
{
    validate_links(allowed_book_ids, documents, sources, false)
}

/// Who a stored message is from.
#[derive(Clone, Copy, Debug, PartialEq, Eq, Structural)]
pub enum ChatRole {
    User,
    Assistant,
    System,
    Tool,
}

/// A message as it is stored.
#[derive(Debug, PartialEq, Eq)]
pub struct StoredChatMessage {
    pub role: ChatRole,
    pub content: String,
    pub citations: Vec<ChatCitation>,
}

/// The head of a stored conversation.
#[derive(Debug, PartialEq, Eq)]
pub struct ChatThread {
    pub id: String,
    pub title: String,
    pub book_ids: Vec<String>,
}

/// A stored conversation.
#[derive(Debug, PartialEq, Eq)]
pub struct ChatSession {
    pub thread: ChatThread,
    pub messages: Vec<StoredChatMessage>,
}

/// A stored message as it is shown; nothing for one that is neither a question
/// nor an answer. Whether an answer counts as backed depends on what is stored
/// with it, not on which of it can still be shown.
pub open spec fn restored_message(message: StoredChatMessage) -> Option<RestoredView> {
    match message.role {
        ChatRole::User => Some(
            RestoredView {
                role: AiRestoredRole::User,
                content: message.content@,
                sources: stored_links(message.citations@),
                source_status: None,
            },
        ),
        ChatRole::Assistant => Some(
            RestoredView {
                role: AiRestoredRole::Assistant,
                content: message.content@,
                sources: stored_links(message.citations@),
                source_status: Some(
                    if message.citations@.len() == 0 {
                        AgentAnswerSourceStatus::NoVerifiedSources
                    } else {
                        AgentAnswerSourceStatus::VerifiedKnowledgeBaseSources
                    },
                ),
            },
        ),
        _ => None,
    }
}

/// Stored messages as they are shown.
pub open spec fn all_restored(messages: Seq<StoredChatMessage>) -> Seq<RestoredView>
    decreases messages.len(),
{
    if messages.len() == 0 {
        Seq::empty()
    } else {
        let before = all_restored(messages.drop_last());
        match restored_message(messages.last()) {
            Some(message) => before.push(message),
            None => before,
        }
    }
}

/// The messages of a stored conversation as they are shown.
pub fn restored_messages(session: &ChatSession) -> (r: Vec<AiRestoredMessage>)
    ensures
        restored_views(r@) == all_restored(session.messages@),
{
    let messages = &session.messages;
    let mut out: Vec<AiRestoredMessage> = Vec::new();
    let mut i: usize = 0;
    assert(messages@.subrange(0, 0) =~= Seq::<StoredChatMessage>::empty());
    assert(restored_views(out@) =~= Seq::<RestoredView>::empty());
    while i < messages.len()
        invariant
            i <= messages@.len(),
            restored_views(out@) == all_restored(messages@.subrange(0, i as int)),
        decreases messages@.len() - i,
    {
        assert(messages@.subrange(0, i + 1).drop_last() =~= messages@.subrange(0, i as int));
        let role: Option<AiRestoredRole> = match messages[i].role {
            ChatRole::User => Some(AiRestoredRole::User),
            ChatRole::Assistant => Some(AiRestoredRole::Assistant),
            ChatRole::System | ChatRole::Tool => None,
        };
        if let Some(role) = role {
            let source_status = match role {
                AiRestoredRole::User => None,
                AiRestoredRole::Assistant => Some(
                    if messages[i].citations.len() == 0 {
                        AgentAnswerSourceStatus::NoVerifiedSources
                    } else {
                        AgentAnswerSourceStatus::VerifiedKnowledgeBaseSources
                    },
                ),
            };
            let message = AiRestoredMessage {
                role,
                content: messages[i].content.clone(),
                sources: links_of_stored(&messages[i].citations),
                source_status,
            };
            let ghost had = out@;
            out.push(message);
            assert(restored_views(out@) =~= restored_views(had).push(message@));
        }
        i = i + 1;
    }
    assert(messages@.subrange(0, messages@.len() as int) =~= messages@);
    out
}

/// A message with its links held against the current documents; without links
/// where the documents could not be read.
pub open spec fn with_validated_links(
    allowed: Seq<Seq<char>>,
    documents: Option<Seq<DocumentView>>,
    message: RestoredView,
) -> RestoredView {
    RestoredView {
        sources: match documents {
            Some(documents) => validated_links(allowed, documents, message.sources, true),
            None => Seq::empty(),
        },
        ..message
    }
}

/// The documents, where they could be read.
pub open spec fn documents_read(documents: Option<Vec<BookDocument>>) -> Option<
    Seq<DocumentView>,
> {
    match documents {
        Some(documents) => Some(document_views(documents@)),
        None => None,
    }
}

/// The messages of a stored conversation as they are shown, with their links held
/// against the current documents. Where the documents could not be read, the
/// messages are shown without links.
pub fn validated_restored_messages(
    session: &ChatSession,
    documents: &Option<Vec<BookDocument>>,
) -> (r: Vec<AiRestoredMessage>)
    ensures
        ({
            let shown = all_restored(session.messages@);
            let docs = documents_read(*documents);
            &&& r@.len() == shown.len()
            &&& forall|i: int|
                0 <= i < r@.len() ==> (#[trigger] r@[i])@ == with_validated_links(
                    texts(session.thread.book_ids@),
                    docs,
                    shown[i],
                )
        }),
{
    let messages = restored_messages(session);
    let ghost shown = all_restored(session.messages@);
    assert(shown.len() == messages@.len());
    let ghost docs = documents_read(*documents);
    let mut out: Vec<AiRestoredMessage> = Vec::new();
    let mut i: usize = 0;
    while i < messages.len()
        invariant
            i <= messages@.len(),
            restored_views(messages@) == shown,
            docs == documents_read(*documents),
            out@.len() == i,
            forall|k: int|
                0 <= k < i ==> (#[trigger] out@[k])@ == with_validated_links(
                    texts(session.thread.book_ids@),
                    docs,
                    shown[k],
                ),
        decreases messages@.len() - i,
    {
        assert(shown[i as int] == messages@[i as int]@);
        let sources = match documents {
            Some(documents) => validate_links(
                &session.thread.book_ids,
                documents,
                &messages[i].sources,
                true,
            ),
            None => Vec::new(),
        };
        proof {
            if documents is None {
                assert(source_views(sources@) =~= Seq::<SourceLinkView>::empty());
            }
        }
        let message = AiRestoredMessage {
            role: messages[i].role,
            content: messages[i].content.clone(),
            sources,
            source_status: messages[i].source_status,
        };
        out.push(message);
        i = i + 1;
    }
    out
}

/// A stored conversation on the list.
pub open spec fn thread_option(thread: ChatThread) -> ThreadView {
    ThreadView {
        id: thread.id@,
        title: label_or(thread.title@, "新对话"@),
        book_ids: texts(thread.book_ids@),
    }
}

/// Stored conversations on the list.
pub open spec fn listed(threads: Seq<ChatThread>) -> Seq<ThreadView> {
    threads.map_values(|t: ChatThread| thread_option(t))
}

fn option_of(thread: &ChatThread) -> (r: AiThreadOption)
    ensures
        r@ == thread_option(*thread),
{
    AiThreadOption::new(thread.id.as_str(), thread.title.as_str(), copy_list(&thread.book_ids))
}

/// Stored conversations on the list.
pub fn thread_options(threads: &Vec<ChatThread>) -> (r: Vec<AiThreadOption>)
    ensures
        thread_views(r@) == listed(threads@),
{
    let mut out: Vec<AiThreadOption> = Vec::new();
    let mut i: usize = 0;
    while i < threads.len()
        invariant
            i <= threads@.len(),
            thread_views(out@) =~= listed(threads@).subrange(0, i as int),
        decreases threads@.len() - i,
    {
        let option = option_of(&threads[i]);
        let ghost had = out@;
        out.push(option);
        i = i + 1;
        proof {
            assert(thread_views(out@) =~= thread_views(had).push(option@));
            assert(listed(threads@).subrange(0, i as int) =~= listed(threads@).subrange(
                0,
                i - 1,
            ).push(option@));
        }
    }
    assert(listed(threads@).subrange(0, listed(threads@).len() as int) =~= listed(threads@));
    out
}

/// A conversation that was opened, as the sidebar shows it.
#[derive(Debug, PartialEq, Eq)]
pub struct UiSessionState {
    pub active_thread_id: Option<String>,
    pub threads: Vec<AiThreadOption>,
    pub messages: Vec<AiRestoredMessage>,
}

/// A conversation that was opened, as the sidebar shows it. `selected` is the
/// one that the store has open, `listed` what it lists; where it could not list
/// anything, the opened conversation is all that is listed.
pub fn load_ui_session_state(
    session: &Option<ChatSession>,
    selected: Option<String>,
    documents: &Option<Vec<BookDocument>>,
    listed_threads: &Option<Vec<ChatThread>>,
) -> (r: UiSessionState)
    ensures
        option_text(r.active_thread_id) == (match *session {
            Some(session) => Some(session.thread.id@),
            None => option_text(selected),
        }),
        thread_views(r.threads@) == (match (*listed_threads, *session) {
            (Some(threads), _) => listed(threads@),
            (None, Some(session)) => seq![thread_option(session.thread)],
            (None, None) => Seq::empty(),
        }),
        match *session {
            None => r.messages@.len() == 0,
            Some(session) => {
                let shown = all_restored(session.messages@);
                let docs = documents_read(*documents);
                &&& r.messages@.len() == shown.len()
                &&& forall|i: int|
                    0 <= i < r.messages@.len() ==> (#[trigger] r.messages@[i])@
                        == with_validated_links(
                        texts(session.thread.book_ids@),
                        docs,
                        shown[i],
                    )
            },
        },
{
    let active_thread_id = match session {
        Some(session) => Some(session.thread.id.clone()),
        None => selected,
    };
    let messages = match session {
        Some(session) => validated_restored_messages(session, documents),
        None => Vec::new(),
    };
    let threads = match listed_threads {
        Some(threads) => thread_options(threads),
        None => {
            let mut out: Vec<AiThreadOption> = Vec::new();
            match session {
                Some(session) => {
                    let option = option_of(&session.thread);
                    out.push(option);
                    assert(thread_views(out@) =~= seq![thread_option(session.thread)]);
                },
                None => {
                    assert(thread_views(out@) =~= Seq::<ThreadView>::empty());
                },
            }
            out
        },
    };
    UiSessionState { active_thread_id, threads, messages }
}

// ---------------------------------------------------------------------------
// Laws
// ---------------------------------------------------------------------------

/// A link that a citation becomes names the passage's own book and unit, or a
/// place on the web, and never a page that was only rendered for a preview.
pub proof fn links_keep_valid_places_only(live: AgentCitation, stored: ChatCitation)
    ensures
        live.is_linkable() && live.source_kind is Book ==> live.link().validated_locator()
            == Some(live.locator@) && !is_preview(live.locator@),
        stored.is_linkable() && stored.source_kind is Book ==> stored.link().validated_locator()
            == Some(stored.locator@) && !is_preview(stored.locator@),
        live.source_kind is Web ==> live.is_linkable() && live.link().locator is None
            && live.link().url == option_text(live.url),
        stored.source_kind is Web ==> stored.is_linkable() && stored.link().locator is None
            && stored.link().url == option_text(stored.url),
{
}

/// Of the links of an answer those into allowed books and those to the web are
/// kept, and no others.
pub proof fn only_allowed_links_are_kept(
    allowed: Seq<Seq<char>>,
    documents: Seq<DocumentView>,
    sources: Seq<SourceLinkView>,
    stored: bool,
)
    ensures
        forall|i: int|
            0 <= i < validated_links(allowed, documents, sources, stored).len() ==> is_kept(
                allowed,
                #[trigger] validated_links(allowed, documents, sources, stored)[i],
            ),
        validated_links(allowed, documents, sources, stored).len() <= sources.len(),
    decreases sources.len(),
{
    if sources.len() > 0 {
        only_allowed_links_are_kept(allowed, documents, sources.drop_last(), stored);
        let before = validated_links(allowed, documents, sources.drop_last(), stored);
        let all = validated_links(allowed, documents, sources, stored);
        assert forall|i: int| 0 <= i < all.len() implies is_kept(allowed, #[trigger] all[i]) by {
            if i < before.len() {
                assert(all[i] == before[i]);
            }
        }
    }
}

proof fn lemma_document_with_id(documents: Seq<DocumentView>, id: Seq<char>)
    ensures
        document_with_id(documents, id) is None <==> forall|k: int|
            0 <= k < documents.len() ==> (#[trigger] documents[k]).id != id,
        forall|d: int|
            #![trigger documents[d]]
            0 <= d < documents.len() && documents[d].id == id && (forall|k: int|
                0 <= k < d ==> (#[trigger] documents[k]).id != id) ==> document_with_id(
                documents,
                id,
            ) == Some(documents[d]),
    decreases documents.len(),
{
    if documents.len() > 0 {
        let rest = documents.drop_first();
        lemma_document_with_id(rest, id);
        assert forall|k: int| 1 <= k < documents.len() implies #[trigger] documents[k] == rest[k
            - 1] by {}
        if documents[0].id != id {
            assert forall|d: int|
                #![trigger documents[d]]
                0 <= d < documents.len() && documents[d].id == id && (forall|k: int|
                    0 <= k < d ==> (#[trigger] documents[k]).id != id) implies document_with_id(
                documents,
                id,
            ) == Some(documents[d]) by {
                assert(rest[d - 1] == documents[d]);
                assert forall|k: int| 0 <= k < d - 1 implies (#[trigger] rest[k]).id != id by {
                    assert(rest[k] == documents[k + 1]);
                }
            }
            if document_with_id(documents, id) is Some {
                let k = choose|k: int| 0 <= k < rest.len() && (#[trigger] rest[k]).id == id;
                assert(documents[k + 1].id == id);
            }
        }
    }
}

/// The test for links to the web and into some books.
pub open spec fn points_into(books: Seq<Seq<char>>) -> spec_fn(SourceLinkView) -> bool {
    |link: SourceLinkView| link.url is Some || books.contains(link.book_id)
}

/// The links that are kept are all links to the web and into allowed books, in
/// their order. Of a link at most the mark that it is stale changes; a link to
/// the web stays as it is, one into a book without a current document is stale,
/// and any other one is held against the first document of its book.
pub proof fn every_allowed_link_is_kept_in_order(
    allowed: Seq<Seq<char>>,
    documents: Seq<DocumentView>,
    sources: Seq<SourceLinkView>,
    stored: bool,
)
    ensures
        ({
            let shown = validated_links(allowed, documents, sources, stored);
            let within = sources.filter(points_into(allowed));
            &&& shown.len() == within.len()
            &&& forall|i: int|
                #![trigger shown[i]]
                #![trigger within[i]]
                0 <= i < within.len() ==> shown[i] == (SourceLinkView {
                    stale: shown[i].stale,
                    ..within[i]
                })
            &&& forall|i: int|
                #![trigger shown[i]]
                0 <= i < within.len() && within[i].url is Some ==> shown[i].stale
                    == within[i].stale
            &&& forall|i: int|
                #![trigger shown[i]]
                0 <= i < within.len() && within[i].url is None && (forall|k: int|
                    0 <= k < documents.len() ==> (#[trigger] documents[k]).id
                        != within[i].book_id) ==> shown[i].stale
            &&& forall|i: int, d: int|
                #![trigger shown[i], documents[d]]
                0 <= i < within.len() && within[i].url is None && 0 <= d < documents.len()
                    && documents[d].id == within[i].book_id && (forall|k: int|
                    0 <= k < d ==> (#[trigger] documents[k]).id != within[i].book_id)
                    ==> shown[i].stale == (if stored {
                    within[i].restored(Some(documents[d])).stale
                } else {
                    within[i].checked(Some(documents[d])).stale
                })
        }),
    decreases sources.len(),
{
    reveal(Seq::filter);
    if sources.len() > 0 {
        let rest = sources.drop_last();
        every_allowed_link_is_kept_in_order(allowed, documents, rest, stored);
        lemma_document_with_id(documents, sources.last().book_id);
        let before = validated_links(allowed, documents, rest, stored);
        let shown = validated_links(allowed, documents, sources, stored);
        let within = sources.filter(points_into(allowed));
        assert forall|i: int| 0 <= i < before.len() implies #[trigger] shown[i] == before[i]
            && within[i] == rest.filter(points_into(allowed))[i] by {}
    }
}

} // verus!
