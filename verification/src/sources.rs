//! Links from an answer to the passages it rests on, and where such a link
//! leads in the current text of a book.

use crate::document::{
    copy_locator, copy_source, lemma_unit_position_bounds, locator_view, lookup, same_source,
    source_view, the_first_unit_with_an_identifier_is_found, the_first_value_of_a_key_is_found,
    unit_position, BookDocument, ContentUnit, DocumentLocator, DocumentView,
    LocatorView, Revision, SourceLocator, SourceLocatorView, UnitView,
};
use crate::seqs::{lemma_filter_ends, lemma_filter_step};
use crate::text::{
    begins_with, blank, boundary_at, byte_len, byte_length, byte_slice, char_boundary, chars_of,
    contains_text, copy_option, find_from, first_from, has_prefix, is_blank,
    lemma_boundary_of_char, lemma_byte_len_prefix, lemma_char_boundary, list_has, occurs_at,
    option_text, same_text, text_of, texts,
};
use vstd::prelude::*;
use vstd::string::*;

verus! {

/// What an answer rests on.
#[derive(Clone, Copy, Debug, PartialEq, Eq, Structural)]
pub enum AgentAnswerSourceStatus {
    VerifiedKnowledgeBaseSources,
    VerifiedWebSources,
    VerifiedMixedSources,
    NoVerifiedSources,
}

/// A link from an answer to a passage.
#[derive(Debug, PartialEq, Eq)]
pub struct AiSourceLink {
    pub citation_id: String,
    pub book_id: String,
    pub unit_id: String,
    pub unit_index: Option<usize>,
    pub document_revision: Revision,
    pub unit_revision: Revision,
    /// The exact place that was recorded with the answer. A link without one
    /// leads to a unit as a whole.
    pub locator: Option<DocumentLocator>,
    pub label: String,
    pub quote: Option<String>,
    /// True only for text that was frozen from an editor's selection.
    pub selection_snapshot: bool,
    /// True for a link whose passage is no longer what it was. Such a link stays
    /// visible, but no window may follow it.
    pub stale: bool,
    /// The address of a passage from the web. Links into books have none.
    pub url: Option<String>,
}

/// A link, as texts.
pub struct SourceLinkView {
    pub citation_id: Seq<char>,
    pub book_id: Seq<char>,
    pub unit_id: Seq<char>,
    pub unit_index: Option<usize>,
    pub document_revision: Revision,
    pub unit_revision: Revision,
    pub locator: Option<LocatorView>,
    pub label: Seq<char>,
    pub quote: Option<Seq<char>>,
    pub selection_snapshot: bool,
    pub stale: bool,
    pub url: Option<Seq<char>>,
}

impl View for AiSourceLink {
    type V = SourceLinkView;

    open spec fn view(&self) -> SourceLinkView {
        SourceLinkView {
            citation_id: self.citation_id@,
            book_id: self.book_id@,
            unit_id: self.unit_id@,
            unit_index: self.unit_index,
            document_revision: self.document_revision,
            unit_revision: self.unit_revision,
            locator: locator_view(self.locator),
            label: self.label@,
            quote: option_text(self.quote),
            selection_snapshot: self.selection_snapshot,
            stale: self.stale,
            url: option_text(self.url),
        }
    }
}

impl Clone for AiSourceLink {
    fn clone(&self) -> (r: Self)
        ensures
            r == *self,
    {
        AiSourceLink {
            citation_id: self.citation_id.clone(),
            book_id: self.book_id.clone(),
            unit_id: self.unit_id.clone(),
            unit_index: self.unit_index,
            document_revision: self.document_revision,
            unit_revision: self.unit_revision,
            locator: copy_locator(&self.locator),
            label: self.label.clone(),
            quote: copy_option(&self.quote),
            selection_snapshot: self.selection_snapshot,
            stale: self.stale,
            url: copy_option(&self.url),
        }
    }
}

/// The text that a link leads to, with the text around it.
#[derive(Debug, PartialEq, Eq)]
pub struct AiCitationTextFocus {
    pub text: String,
    pub before: String,
    pub after: String,
}

/// The text that a link leads to, as texts.
pub struct FocusView {
    pub text: Seq<char>,
    pub before: Seq<char>,
    pub after: Seq<char>,
}

impl View for AiCitationTextFocus {
    type V = FocusView;

    open spec fn view(&self) -> FocusView {
        FocusView { text: self.text@, before: self.before@, after: self.after@ }
    }
}

/// A place that a window may open, found again in the current text rather than
/// taken from the recorded quote.
#[derive(Debug, PartialEq, Eq)]
pub struct AiCitationNavigationTarget {
    pub unit_index: usize,
    pub locator: DocumentLocator,
    pub source: Option<SourceLocator>,
    pub focus: Option<AiCitationTextFocus>,
}

/// A place that a window may open, as texts.
pub struct TargetView {
    pub unit_index: int,
    pub locator: LocatorView,
    pub source: Option<SourceLocatorView>,
    pub focus: Option<FocusView>,
}

impl View for AiCitationNavigationTarget {
    type V = TargetView;

    open spec fn view(&self) -> TargetView {
        TargetView {
            unit_index: self.unit_index as int,
            locator: self.locator@,
            source: source_view(self.source),
            focus: match self.focus {
                Some(focus) => Some(focus@),
                None => None,
            },
        }
    }
}

/// The characters of context that are kept behind a focus; one more is kept
/// before it.
pub const CITATION_CONTEXT_CHARACTERS: usize = 96;

/// The longest focus, in bytes.
pub const MAX_CITATION_FOCUS_BYTES: usize = 16384;

/// A quote that is not blank.
pub open spec fn shown_quote(quote: Option<Seq<char>>) -> Option<Seq<char>> {
    match quote {
        Some(q) => if is_blank(q) {
            None
        } else {
            Some(q)
        },
        None => None,
    }
}

/// A quote that is not blank.
pub fn non_empty_citation_quote(quote: &Option<String>) -> (r: Option<&str>)
    ensures
        match r {
            Some(q) => shown_quote(option_text(*quote)) == Some(q@),
            None => shown_quote(option_text(*quote)) is None,
        },
{
    match quote {
        Some(q) => if blank(q.as_str()) {
            None
        } else {
            Some(q.as_str())
        },
        None => None,
    }
}

/// The first place where `part` stands in `whole`.
pub open spec fn first_match(whole: Seq<char>, part: Seq<char>) -> Option<int> {
    if contains_text(whole, part) {
        Some(choose|at: int| first_from(whole, part, 0, at))
    } else {
        None
    }
}

/// Whether `part` stands in `whole` again, behind its first match.
pub open spec fn matches_again(whole: Seq<char>, part: Seq<char>) -> bool {
    match first_match(whole, part) {
        Some(at) => exists|next: int| at + part.len() <= next && occurs_at(whole, part, next),
        None => false,
    }
}

pub(crate) proof fn lemma_first_match(whole: Seq<char>, part: Seq<char>, at: int)
    requires
        first_from(whole, part, 0, at),
    ensures
        first_match(whole, part) == Some(at),
{
    assert(occurs_at(whole, part, at));
    let other = choose|other: int| first_from(whole, part, 0, other);
    assert(first_from(whole, part, 0, other));
    if other < at {
        assert(!occurs_at(whole, part, other));
    } else if at < other {
        assert(!occurs_at(whole, part, at));
    }
}

impl SourceLinkView {
    /// The recorded place, if it belongs to the link's own book and unit.
    pub open spec fn validated_locator(self) -> Option<LocatorView> {
        match self.locator {
            Some(locator) => if locator.book_id == self.book_id && locator.unit_id == self.unit_id
                && locator.shape_error is None {
                Some(locator)
            } else {
                None
            },
            None => None,
        }
    }

    /// The unit that the link leads to, if nothing has changed since it was made.
    pub open spec fn current_unit_index(self, document: DocumentView) -> Option<int> {
        if self.stale || document.id != self.book_id || document.revision
            != self.document_revision {
            None
        } else {
            match unit_position(document.units, self.unit_id) {
                Some(index) => if document.units[index].revision == self.unit_revision && (
                self.unit_index is Some ==> self.unit_index->0 == index) && (self.locator is Some
                    ==> lookup(document.refused, self.locator->0) is None) {
                    Some(index)
                } else {
                    None
                },
                None => None,
            }
        }
    }

    /// Whether the recorded selection is still found in a unit, at its recorded
    /// place or, without one, exactly once.
    pub open spec fn selection_matches(self, unit: UnitView) -> bool {
        match (self.validated_locator(), shown_quote(self.quote)) {
            (Some(locator), Some(quote)) => {
                let text = match locator.block_id {
                    Some(block_id) => lookup(unit.blocks, block_id),
                    None => Some(unit.text),
                };
                &&& !(locator.source is Some
                    && locator.source->0 is OfficeRenderedPage)
                &&& locator.source is Some ==> unit.source_locator == locator.source
                &&& locator.region is None
                &&& text is Some
                &&& match locator.text_range {
                    Some(range) => range.start_byte <= usize::MAX && range.end_byte <= usize::MAX
                        && byte_slice(
                        text->0,
                        range.start_byte as int,
                        range.end_byte as int,
                    ) == Some(quote),
                    None => contains_text(text->0, quote) && !matches_again(text->0, quote),
                }
            },
            _ => false,
        }
    }

    /// The link after it was held against the current document.
    pub open spec fn checked(self, document: Option<DocumentView>) -> SourceLinkView {
        let fresh = SourceLinkView { stale: false, ..self };
        SourceLinkView {
            stale: !(document is Some && fresh.current_unit_index(document->0) is Some),
            ..self
        }
    }

    /// The link after it was read back with a stored conversation.
    pub open spec fn restored(self, document: Option<DocumentView>) -> SourceLinkView {
        let checked = self.checked(document);
        if checked.stale || !self.selection_snapshot {
            checked
        } else {
            let units = document->0.units;
            SourceLinkView {
                stale: !checked.selection_matches(units[unit_position(units, self.unit_id)->0]),
                ..checked
            }
        }
    }
}

/// The focus on `text`, which stands in `block` from the byte `start` on; or why
/// there is none.
pub open spec fn focus_on(block: Seq<char>, start: int, text: Seq<char>) -> Result<
    FocusView,
    Seq<char>,
> {
    if text.len() == 0 {
        Err("引用文字为空，无法精确定位"@)
    } else if byte_len(text) > MAX_CITATION_FOCUS_BYTES {
        Err("引用文字超过精确定位上限"@)
    } else if byte_slice(block, start, start + byte_len(text)) != Some(text) {
        Err("引用文字边界已失效"@)
    } else {
        Ok(focus_at(block, char_boundary(block, start)->0, text))
    }
}

/// The focus on `text`, which stands in `block` from the character `at` on.
pub open spec fn focus_at(block: Seq<char>, at: int, text: Seq<char>) -> FocusView {
    let end = at + text.len();
    FocusView {
        text,
        before: block.subrange(
            if at > CITATION_CONTEXT_CHARACTERS {
                at - CITATION_CONTEXT_CHARACTERS - 1
            } else {
                0
            },
            at,
        ),
        after: block.subrange(
            end,
            if block.len() - end > CITATION_CONTEXT_CHARACTERS {
                end + CITATION_CONTEXT_CHARACTERS
            } else {
                block.len() as int
            },
        ),
    }
}

/// The focus on a text in a block, with its surroundings.
pub fn citation_text_focus(block_text: &str, start: usize, focus_text: &str) -> (r: Result<
    AiCitationTextFocus,
    String,
>)
    ensures
        match r {
            Ok(focus) => focus_on(block_text@, start as int, focus_text@) == Ok::<
                FocusView,
                Seq<char>,
            >(focus@),
            Err(error) => focus_on(block_text@, start as int, focus_text@) == Err::<
                FocusView,
                Seq<char>,
            >(error@),
        },
{
    if focus_text.is_empty() {
        return Err("引用文字为空，无法精确定位".to_owned());
    }
    let size: usize = byte_length(focus_text);
    if size > MAX_CITATION_FOCUS_BYTES {
        return Err("引用文字超过精确定位上限".to_owned());
    }
    let block = chars_of(block_text);
    let focus = chars_of(focus_text);
    let at: usize = match boundary_at(&block, start as u64) {
        Some(at) => at,
        None => {
            return Err("引用文字边界已失效".to_owned());
        },
    };
    proof {
        lemma_char_boundary(block@, start as int);
    }
    if focus.len() > block.len() - at {
        proof {
            if byte_slice(block@, start as int, start + byte_len(focus@)) == Some(focus@) {
                let j = char_boundary(block@, start + byte_len(focus@))->0;
                lemma_char_boundary(block@, start + byte_len(focus@));
                assert(block@.subrange(at as int, j).len() == j - at);
            }
        }
        return Err("引用文字边界已失效".to_owned());
    }
    let end: usize = at + focus.len();
    if !crate::text::stands_at(&block, &focus, at) {
        proof {
            if byte_slice(block@, start as int, start + byte_len(focus@)) == Some(focus@) {
                let j = char_boundary(block@, start + byte_len(focus@))->0;
                lemma_char_boundary(block@, start + byte_len(focus@));
                assert(block@.subrange(at as int, j).len() == j - at);
                assert(j == end);
            }
        }
        return Err("引用文字边界已失效".to_owned());
    }
    proof {
        lemma_byte_len_prefix(block@, at as int, end as int);
        lemma_boundary_of_char(block@, end as int);
        assert(byte_len(block@.subrange(0, end as int)) == start + byte_len(focus@));
    }
    let before_start: usize = if at > CITATION_CONTEXT_CHARACTERS {
        at - CITATION_CONTEXT_CHARACTERS - 1
    } else {
        0
    };
    let after_end: usize = if block.len() - end > CITATION_CONTEXT_CHARACTERS {
        end + CITATION_CONTEXT_CHARACTERS
    } else {
        block.len()
    };
    Ok(
        AiCitationTextFocus {
            text: focus_text.to_owned(),
            before: text_of(&block, before_start, at),
            after: text_of(&block, end, after_end),
        },
    )
}

/// The passage of a block that a link speaks of, with the byte it begins at; or
/// why there is none.
pub open spec fn located(
    block: Seq<char>,
    range: Option<crate::document::TextRange>,
    quote: Option<Seq<char>>,
) -> Result<(int, Seq<char>), Seq<char>> {
    match (range, quote) {
        (Some(range), _) => if range.start_byte > usize::MAX {
            Err("引用文字起点超出当前平台范围"@)
        } else if range.end_byte > usize::MAX {
            Err("引用文字终点超出当前平台范围"@)
        } else {
            match byte_slice(block, range.start_byte as int, range.end_byte as int) {
                Some(text) => Ok((range.start_byte as int, text)),
                None => Err("引用文字范围已失效"@),
            }
        },
        (None, Some(quote)) => match first_match(block, quote) {
            None => Err("引用文字与当前正文块不匹配"@),
            Some(at) => if matches_again(block, quote) {
                Err("引用文字在当前正文块中不唯一，无法精确定位"@)
            } else {
                Ok((byte_len(block.subrange(0, at)) as int, quote))
            },
        },
        (None, None) => Ok((0, block)),
    }
}

/// The focus of a link in a block; or why there is none.
pub open spec fn focus_in_block(
    block: Seq<char>,
    range: Option<crate::document::TextRange>,
    quote: Option<Seq<char>>,
) -> Result<FocusView, Seq<char>> {
    match (located(block, range, quote), quote) {
        (Err(error), _) => Err(error),
        (Ok((start, passage)), Some(quote)) => if begins_with(passage, quote) {
            focus_on(block, start, quote)
        } else {
            Err("引用文字与当前正文范围不匹配"@)
        },
        (Ok((start, passage)), None) => focus_on(block, start, passage),
    }
}

impl SourceLinkView {
    /// The place that the link is taken to: the recorded one where it is valid,
    /// the whole unit otherwise.
    pub open spec fn target_locator(self) -> LocatorView {
        match self.validated_locator() {
            Some(locator) => locator,
            None => LocatorView::of_unit(self.book_id, self.unit_id),
        }
    }

    /// The text that the link leads to in a unit; or why it leads nowhere.
    pub open spec fn focus_in(self, unit: UnitView) -> Result<Option<FocusView>, Seq<char>> {
        let locator = self.target_locator();
        let quote = shown_quote(self.quote);
        match (locator.block_id, quote) {
            (Some(block_id), _) => match lookup(unit.blocks, block_id) {
                None => Err("引用对应的正文块已不存在"@),
                Some(block) => some_focus(focus_in_block(block, locator.text_range, quote)),
            },
            (None, Some(quote)) => some_focus(focus_on(quote, 0, quote)),
            (None, None) => Ok(None),
        }
    }

    /// Where the link leads in the current document; or why it leads nowhere.
    pub open spec fn navigation(self, document: DocumentView) -> Result<TargetView, Seq<char>> {
        match self.current_unit_index(document) {
            None => Err("引用对应的文档或内容版本已失效"@),
            Some(index) => {
                let unit = document.units[index];
                let locator = self.target_locator();
                match lookup(document.refused, locator) {
                    Some(reason) => Err("引用定位已失效："@ + reason),
                    None => if locator.region is Some {
                        Err("该引用是视觉区域定位，当前可重排正文无法精确显示该区域"@)
                    } else if locator.source is Some && unit.source_locator != locator.source {
                        Err("引用的原始来源位置与当前内容单元不匹配"@)
                    } else {
                        match self.focus_in(unit) {
                            Err(error) => Err(error),
                            Ok(focus) => Ok(
                                TargetView {
                                    unit_index: index,
                                    locator,
                                    source: locator.source,
                                    focus,
                                },
                            ),
                        }
                    },
                }
            },
        }
    }
}

/// A focus that was found, as an optional one.
pub open spec fn some_focus(found: Result<FocusView, Seq<char>>) -> Result<
    Option<FocusView>,
    Seq<char>,
> {
    match found {
        Ok(focus) => Ok(Some(focus)),
        Err(error) => Err(error),
    }
}

/// The first match of a quote in a block and the byte it begins at, if there is
/// just one.
fn unique_match(block_text: &str, quote: &str) -> (r: Result<usize, String>)
    ensures
        match (r, located(block_text@, None, Some(quote@))) {
            (Ok(start), Ok((expected, passage))) => start == expected && passage == quote@,
            (Err(error), Err(expected)) => error@ == expected,
            _ => false,
        },
{
    let block = chars_of(block_text);
    let part = chars_of(quote);
    match find_from(&block, &part, 0) {
        None => {
            assert(!contains_text(block@, part@));
            Err("引用文字与当前正文块不匹配".to_owned())
        },
        Some(at) => {
            proof {
                lemma_first_match(block@, part@, at as int);
                assert(at + part@.len() <= block.len());
            }
            if find_from(&block, &part, at + part.len()).is_some() {
                return Err("引用文字在当前正文块中不唯一，无法精确定位".to_owned());
            }
            let total: usize = byte_length(block_text);
            let mut start: usize = 0;
            let mut k: usize = 0;
            assert(block@.subrange(0, 0) =~= Seq::<char>::empty());
            assert(block@.subrange(0, block@.len() as int) =~= block@);
            while k < at
                invariant
                    k <= at <= block@.len(),
                    total == byte_len(block@),
                    block@.subrange(0, block@.len() as int) == block@,
                    start == byte_len(block@.subrange(0, k as int)),
                decreases at - k,
            {
                proof {
                    let next = block@.subrange(0, k + 1);
                    assert(next.drop_last() =~= block@.subrange(0, k as int));
                    lemma_byte_len_prefix(block@, k + 1, block@.len() as int);
                }
                start = start + block[k].len_utf8();
                k = k + 1;
            }
            Ok(start)
        },
    }
}

/// The passage of a block between two byte positions.
fn passage(block_text: &str, start: u64, end: u64) -> (r: Option<String>)
    ensures
        option_text(r) == byte_slice(block_text@, start as int, end as int),
{
    let block = chars_of(block_text);
    proof {
        lemma_char_boundary(block@, start as int);
        lemma_char_boundary(block@, end as int);
    }
    match (boundary_at(&block, start), boundary_at(&block, end)) {
        (Some(i), Some(j)) => if i <= j {
            Some(text_of(&block, i, j))
        } else {
            None
        },
        _ => None,
    }
}

fn focus_of_block(
    block_text: &str,
    range: Option<crate::document::TextRange>,
    quote: Option<&str>,
) -> (r: Result<AiCitationTextFocus, String>)
    ensures
        ({
            let expected = focus_in_block(
                block_text@,
                range,
                match quote {
                    Some(q) => Some(q@),
                    None => None,
                },
            );
            match r {
                Ok(focus) => expected == Ok::<FocusView, Seq<char>>(focus@),
                Err(error) => expected == Err::<FocusView, Seq<char>>(error@),
            }
        }),
{
    match range {
        Some(range) => {
            if range.start_byte > usize::MAX as u64 {
                return Err("引用文字起点超出当前平台范围".to_owned());
            }
            if range.end_byte > usize::MAX as u64 {
                return Err("引用文字终点超出当前平台范围".to_owned());
            }
            match passage(block_text, range.start_byte, range.end_byte) {
                None => Err("引用文字范围已失效".to_owned()),
                Some(text) => {
                    let start: usize = range.start_byte as usize;
                    match quote {
                        Some(quote) => if has_prefix(text.as_str(), quote) {
                            citation_text_focus(block_text, start, quote)
                        } else {
                            Err("引用文字与当前正文范围不匹配".to_owned())
                        },
                        None => citation_text_focus(block_text, start, text.as_str()),
                    }
                },
            }
        },
        None => match quote {
            Some(quote) => match unique_match(block_text, quote) {
                Err(error) => Err(error),
                Ok(start) => {
                    assert(quote@.subrange(0, quote@.len() as int) =~= quote@);
                    citation_text_focus(block_text, start, quote)
                },
            },
            None => citation_text_focus(block_text, 0, block_text),
        },
    }
}

impl AiSourceLink {
    /// The recorded place, if it belongs to the link's own book and unit.
    pub fn validated_locator(&self) -> (r: Option<&DocumentLocator>)
        ensures
            match r {
                Some(locator) => self@.validated_locator() == Some(locator@),
                None => self@.validated_locator() is None,
            },
    {
        match &self.locator {
            Some(locator) => if same_text(locator.book_id.as_str(), self.book_id.as_str())
                && same_text(locator.unit_id.as_str(), self.unit_id.as_str())
                && locator.shape_error.is_none() {
                Some(locator)
            } else {
                None
            },
            None => None,
        }
    }

    /// The unit that the link leads to, if nothing has changed since it was made.
    pub fn current_unit_index(&self, document: &BookDocument) -> (r: Option<usize>)
        ensures
            match r {
                Some(index) => index < document.units@.len() && self@.current_unit_index(document@)
                    == Some(index as int),
                None => self@.current_unit_index(document@) is None,
            },
    {
        if self.stale || !same_text(document.id.as_str(), self.book_id.as_str())
            || document.revision != self.document_revision {
            return None;
        }
        let index: usize = match document.position(self.unit_id.as_str()) {
            Some(index) => index,
            None => {
                return None;
            },
        };
        assert(document@.units[index as int] == document.units@[index as int]@);
        if document.units[index].revision != self.unit_revision {
            return None;
        }
        if let Some(candidate) = self.unit_index {
            if candidate != index {
                return None;
            }
        }
        if let Some(locator) = &self.locator {
            if document.refusal(locator).is_some() {
                return None;
            }
        }
        Some(index)
    }

    /// Whether the recorded selection is still found in a unit.
    pub fn selection_matches_current_ast(&self, unit: &ContentUnit) -> (r: bool)
        ensures
            r == self@.selection_matches(unit@),
    {
        let locator = match self.validated_locator() {
            Some(locator) => locator,
            None => {
                return false;
            },
        };
        if let Some(SourceLocator::OfficeRenderedPage { page }) = &locator.source {
            return false;
        }
        if locator.source.is_some() && !same_source(&unit.source_locator, &locator.source) {
            return false;
        }
        // A selection is made of text; a region comes from a page image and is
        // not judged by text that may have been laid out anew.
        if locator.region.is_some() {
            return false;
        }
        let quote = match non_empty_citation_quote(&self.quote) {
            Some(quote) => quote,
            None => {
                return false;
            },
        };
        let text = match &locator.block_id {
            Some(block_id) => match unit.find_block(block_id.as_str()) {
                Some(text) => text,
                None => {
                    return false;
                },
            },
            None => unit.text.as_str(),
        };
        match locator.text_range {
            Some(range) => {
                if range.start_byte > usize::MAX as u64 || range.end_byte > usize::MAX as u64 {
                    return false;
                }
                match passage(text, range.start_byte, range.end_byte) {
                    Some(found) => same_text(found.as_str(), quote),
                    None => false,
                }
            },
            None => {
                let r: bool = unique_match(text, quote).is_ok();
                r
            },
        }
    }

    /// Marks the link as stale unless the current document bears it out.
    pub fn mark_current_status(&mut self, document: Option<&BookDocument>)
        ensures
            final(self)@ == old(self)@.checked(
                match document {
                    Some(document) => Some(document@),
                    None => None,
                },
            ),
    {
        self.stale = false;
        let stale: bool = match document {
            Some(document) => self.current_unit_index(document).is_none(),
            None => true,
        };
        self.stale = stale;
    }

    /// Marks a link that was read back as stale unless the current document
    /// bears it out, text of a selection included.
    pub fn mark_restored_status(&mut self, document: Option<&BookDocument>)
        ensures
            final(self)@ == old(self)@.restored(
                match document {
                    Some(document) => Some(document@),
                    None => None,
                },
            ),
    {
        self.mark_current_status(document);
        if self.stale || !self.selection_snapshot {
            return ;
        }
        if let Some(document) = document {
            if let Some(index) = document.position(self.unit_id.as_str()) {
                let matches: bool = self.selection_matches_current_ast(&document.units[index]);
                assert(document@.units[index as int] == document.units@[index as int]@);
                self.stale = !matches;
            }
        }
    }

    /// Where the link leads in the current document; or why it leads nowhere.
    pub fn current_navigation_target(&self, document: &BookDocument) -> (r: Result<
        AiCitationNavigationTarget,
        String,
    >)
        ensures
            match r {
                Ok(target) => self@.navigation(document@) == Ok::<TargetView, Seq<char>>(target@),
                Err(error) => self@.navigation(document@) == Err::<TargetView, Seq<char>>(error@),
            },
    {
        let unit_index: usize = match self.current_unit_index(document) {
            Some(index) => index,
            None => {
                return Err("引用对应的文档或内容版本已失效".to_owned());
            },
        };
        let unit = &document.units[unit_index];
        assert(document@.units[unit_index as int] == unit@);
        let locator = match self.validated_locator() {
            Some(locator) => locator.clone(),
            None => DocumentLocator::unit(self.book_id.as_str(), self.unit_id.as_str()),
        };
        if let Some(reason) = document.refusal(&locator) {
            let mut error = "引用定位已失效：".to_owned();
            error.push_str(reason);
            return Err(error);
        }
        if locator.region.is_some() {
            return Err("该引用是视觉区域定位，当前可重排正文无法精确显示该区域".to_owned());
        }
        if locator.source.is_some() && !same_source(&unit.source_locator, &locator.source) {
            return Err("引用的原始来源位置与当前内容单元不匹配".to_owned());
        }
        let quote = non_empty_citation_quote(&self.quote);
        let focus = match &locator.block_id {
            Some(block_id) => match unit.find_block(block_id.as_str()) {
                None => {
                    return Err("引用对应的正文块已不存在".to_owned());
                },
                Some(block_text) => match focus_of_block(block_text, locator.text_range, quote) {
                    Ok(focus) => Some(focus),
                    Err(error) => {
                        return Err(error);
                    },
                },
            },
            None => match quote {
                Some(quote) => match citation_text_focus(quote, 0, quote) {
                    Ok(focus) => Some(focus),
                    Err(error) => {
                        return Err(error);
                    },
                },
                None => None,
            },
        };
        let source = copy_source(&locator.source);
        Ok(AiCitationNavigationTarget { unit_index, source, locator, focus })
    }
}

/// Whether a link may be shown where only some books are allowed. Links to the
/// web belong to no book and are shown everywhere.
pub open spec fn is_allowed_source(allowed: Seq<Seq<char>>, source: SourceLinkView) -> bool {
    source.url is Some || (allowed.contains(source.book_id) && !is_blank(source.unit_id) && (
    source.locator is Some ==> source.validated_locator() is Some))
}

/// The test for links that may be shown.
pub open spec fn allowed_source(allowed: Seq<Seq<char>>) -> spec_fn(SourceLinkView) -> bool {
    |source: SourceLinkView| is_allowed_source(allowed, source)
}

/// Whether a link may be shown where only some books are allowed.
pub fn allowed_source_link(allowed: &Vec<String>, source: &AiSourceLink) -> (r: bool)
    ensures
        r == is_allowed_source(texts(allowed@), source@),
{
    if source.url.is_some() {
        return true;
    }
    list_has(allowed, source.book_id.as_str()) && !blank(source.unit_id.as_str()) && (
    source.locator.is_none() || source.validated_locator().is_some())
}

/// The links that a list holds.
pub open spec fn source_views(sources: Seq<AiSourceLink>) -> Seq<SourceLinkView> {
    sources.map_values(|s: AiSourceLink| s@)
}

/// The links that may be shown where only some books are allowed.
pub fn allowed_source_links(allowed: &Vec<String>, sources: &Vec<AiSourceLink>) -> (r: Vec<
    AiSourceLink,
>)
    ensures
        source_views(r@) == source_views(sources@).filter(allowed_source(texts(allowed@))),
{
    let ghost all = source_views(sources@);
    let ghost keep = allowed_source(texts(allowed@));
    let mut out: Vec<AiSourceLink> = Vec::new();
    proof {
        lemma_filter_ends(all, keep);
        assert(source_views(out@) =~= Seq::<SourceLinkView>::empty());
    }
    let mut i: usize = 0;
    while i < sources.len()
        invariant
            i <= sources@.len(),
            all == source_views(sources@),
            keep == allowed_source(texts(allowed@)),
            source_views(out@) == all.subrange(0, i as int).filter(keep),
        decreases sources@.len() - i,
    {
        proof {
            lemma_filter_step(all, keep, i as int);
        }
        if allowed_source_link(allowed, &sources[i]) {
            let ghost had = out@;
            let source = sources[i].clone();
            out.push(source);
            assert(source_views(out@) =~= source_views(had).push(source@));
        }
        i = i + 1;
    }
    out
}

// ---------------------------------------------------------------------------
// Laws
// ---------------------------------------------------------------------------

/// A link that leads somewhere is not stale, and document, unit and place are
/// those that it was made for.
pub proof fn a_followed_link_is_current(link: SourceLinkView, document: DocumentView)
    requires
        link.navigation(document) is Ok,
    ensures
        !link.stale,
        document.id == link.book_id,
        document.revision == link.document_revision,
        ({
            let target = link.navigation(document)->Ok_0;
            let unit = document.units[target.unit_index];
            &&& 0 <= target.unit_index < document.units.len()
            &&& unit.id == link.unit_id
            &&& unit.revision == link.unit_revision
            &&& target.locator.book_id == link.book_id
            &&& target.locator.unit_id == link.unit_id
            &&& target.locator.region is None
            &&& lookup(document.refused, target.locator) is None
            &&& target.source == target.locator.source
            &&& target.source is Some ==> unit.source_locator == target.source
        }),
{
    lemma_unit_position_bounds(document.units, link.unit_id);
}

/// A stale link leads nowhere, whatever the document.
pub proof fn a_stale_link_leads_nowhere(link: SourceLinkView, document: DocumentView)
    requires
        link.stale,
    ensures
        link.current_unit_index(document) is None,
        link.navigation(document) is Err,
{
}

/// A focus is a passage of its block with what stands right before and right
/// behind it; it is not empty and keeps within the limits.
pub proof fn a_focus_stands_in_its_block(block: Seq<char>, start: int, text: Seq<char>)
    requires
        focus_on(block, start, text) is Ok,
    ensures
        ({
            let focus = focus_on(block, start, text)->Ok_0;
            &&& focus.text == text
            &&& 0 < byte_len(text) <= MAX_CITATION_FOCUS_BYTES
            &&& focus.before.len() <= CITATION_CONTEXT_CHARACTERS + 1
            &&& focus.after.len() <= CITATION_CONTEXT_CHARACTERS
            &&& occurs_at(
                block,
                focus.before + focus.text + focus.after,
                char_boundary(block, start)->0 - focus.before.len(),
            )
        }),
{
    let at = char_boundary(block, start)->0;
    lemma_char_boundary(block, start);
    lemma_char_boundary(block, start + byte_len(text));
    let end = char_boundary(block, start + byte_len(text))->0;
    assert(block.subrange(at, end) == text);
    let focus = focus_at(block, at, text);
    let whole = focus.before + focus.text + focus.after;
    let from = at - focus.before.len();
    assert(block.subrange(from, from + whole.len()) =~= whole) by {
        assert forall|i: int| 0 <= i < whole.len() implies block.subrange(
            from,
            from + whole.len(),
        )[i] == whole[i] by {
            if focus.before.len() <= i < focus.before.len() + text.len() {
                assert(block.subrange(at, end)[i - focus.before.len()] == text[i
                    - focus.before.len()]);
            }
        }
    }
    crate::text::lemma_byte_len_ge(text);
}

/// Holding a link against the same document again changes nothing, and a link
/// that passes leads to a unit of the document.
pub proof fn checking_a_link_again_changes_nothing(
    link: SourceLinkView,
    document: Option<DocumentView>,
)
    ensures
        link.checked(document).checked(document) == link.checked(document),
        link.checked(None).stale,
        !link.checked(document).stale <==> document is Some && link.checked(
            document,
        ).current_unit_index(document->0) is Some,
        link.restored(document).stale || !link.checked(document).stale,
{
}

/// Under a narrower set of books no link is shown that a wider one hides.
pub proof fn fewer_books_allow_fewer_links(
    allowed: Seq<Seq<char>>,
    wider: Seq<Seq<char>>,
    source: SourceLinkView,
)
    requires
        forall|id: Seq<char>| allowed.contains(id) ==> wider.contains(id),
        is_allowed_source(allowed, source),
    ensures
        is_allowed_source(wider, source),
{
}

/// A link holds exactly where the book, its revision, the unit and its revision
/// are those that it was made for, the unit stands where the link says, if it
/// says so, and the document does not refuse the recorded place. Nothing of a
/// link changes but the mark that it is stale.
pub proof fn a_link_holds_where_nothing_changed(
    link: SourceLinkView,
    document: DocumentView,
    at: int,
)
    ensures
        link.checked(Some(document)) == (SourceLinkView {
            stale: link.checked(Some(document)).stale,
            ..link
        }),
        !link.checked(Some(document)).stale ==> exists|k: int|
            0 <= k < document.units.len() && (#[trigger] document.units[k]).id == link.unit_id,
        0 <= at < document.units.len() && document.units[at].id == link.unit_id && (forall|k: int|
            0 <= k < at ==> (#[trigger] document.units[k]).id != link.unit_id) ==> (!link.checked(
            Some(document),
        ).stale <==> document.id == link.book_id && document.revision == link.document_revision
            && document.units[at].revision == link.unit_revision && (link.unit_index is Some
            ==> link.unit_index->0 == at) && (link.locator is Some ==> forall|k: int|
            0 <= k < document.refused.len() ==> (#[trigger] document.refused[k]).0
                != link.locator->0)),
{
    the_first_unit_with_an_identifier_is_found(document.units, link.unit_id, at);
    if link.locator is Some {
        the_first_value_of_a_key_is_found(document.refused, link.locator->0);
    }
}

} // verus!
