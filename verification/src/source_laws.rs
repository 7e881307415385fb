//! Where a link leads: to the unit that it was made for, and to its own words
//! there.

use crate::document::{
    the_first_unit_with_an_identifier_is_found, the_first_value_of_a_key_is_found, DocumentView,
    LocatorView, TextRange, UnitView,
};
use crate::sources::{
    focus_in_block, focus_on, is_allowed_source, located, matches_again, shown_quote, FocusView,
    SourceLinkView,
};
use crate::text::{
    byte_len, byte_slice, char_boundary, contains_text, first_from, is_white_space,
    lemma_boundary_of_char, lemma_byte_len_concat, lemma_byte_len_ge, lemma_char_boundary,
    occurs_at,
};
use vstd::prelude::*;

verus! {

// ---------------------------------------------------------------------------
// The words of a citation
// ---------------------------------------------------------------------------

/// The end of a text, of some length or whole where it is shorter.
pub open spec fn end_of(text: Seq<char>, length: int) -> Seq<char> {
    if text.len() <= length {
        text
    } else {
        text.subrange(text.len() - length, text.len() as int)
    }
}

/// The start of a text, of some length or whole where it is shorter.
pub open spec fn start_of(text: Seq<char>, length: int) -> Seq<char> {
    if text.len() <= length {
        text
    } else {
        text.subrange(0, length)
    }
}

/// Words of a block are brought into view with the 97 characters right before them
/// and the 96 right behind, or as many as there are.
pub proof fn words_are_shown_with_what_surrounds_them(
    before: Seq<char>,
    words: Seq<char>,
    after: Seq<char>,
)
    requires
        0 < words.len(),
        byte_len(words) <= 16384,
    ensures
        focus_on(before + words + after, byte_len(before) as int, words) == Ok::<
            FocusView,
            Seq<char>,
        >(FocusView { text: words, before: end_of(before, 97), after: start_of(after, 96) }),
{
    let block = before + words + after;
    let at = before.len() as int;
    let end = at + words.len();
    lemma_byte_len_concat(before, words);
    assert(block.subrange(0, at) =~= before);
    assert(block.subrange(0, end) =~= before + words);
    lemma_boundary_of_char(block, at);
    lemma_boundary_of_char(block, end);
    assert(block.subrange(at, end) =~= words);
    let focus = focus_on(block, byte_len(before) as int, words)->Ok_0;
    assert(focus.before =~= end_of(before, 97));
    assert(focus.after =~= start_of(after, 96));
}

/// Words are not brought into view where there are none, where they take more than
/// 16 KiB, or where they do not stand in the block at their place; each refusal says
/// which.
pub proof fn words_that_cannot_be_shown_are_refused(
    block: Seq<char>,
    start: int,
    words: Seq<char>,
)
    ensures
        words.len() == 0 ==> focus_on(block, start, words) == Err::<FocusView, Seq<char>>(
            "引用文字为空，无法精确定位"@,
        ),
        byte_len(words) > 16384 ==> focus_on(block, start, words) == Err::<FocusView, Seq<char>>(
            "引用文字超过精确定位上限"@,
        ),
        focus_on(block, start, words) is Ok ==> exists|before: Seq<char>, after: Seq<char>|
            #![trigger before + words + after]
            block == before + words + after && byte_len(before) == start,
        focus_on(block, start, words) is Err && 0 < words.len() && byte_len(words) <= 16384
            ==> focus_on(block, start, words) == Err::<FocusView, Seq<char>>(
            "引用文字边界已失效"@,
        ),
{
    lemma_byte_len_ge(words);
    if words.len() == 0 {
        assert(words =~= Seq::<char>::empty());
        assert(byte_len(words) == 0);
    }
    if focus_on(block, start, words) is Ok {
        lemma_char_boundary(block, start);
        lemma_char_boundary(block, start + byte_len(words));
        let i = char_boundary(block, start)->0;
        let j = char_boundary(block, start + byte_len(words))->0;
        let before = block.subrange(0, i);
        let after = block.subrange(j, block.len() as int);
        assert(block.subrange(i, j) == words);
        assert(block =~= before + words + after);
    }
}

/// A quote without a range is found where it stands in the block once; where it does
/// not stand there, or stands there again behind its first place, it is refused.
pub proof fn a_quote_is_found_where_it_stands_once(block: Seq<char>, quote: Seq<char>, at: int)
    ensures
        (forall|k: int| !occurs_at(block, quote, k)) ==> located(block, None, Some(quote)) == Err::<
            (int, Seq<char>),
            Seq<char>,
        >("引用文字与当前正文块不匹配"@),
        occurs_at(block, quote, at) && (forall|k: int| k < at ==> !occurs_at(block, quote, k)) && (
        exists|k: int| at + quote.len() <= k && occurs_at(block, quote, k)) ==> located(
            block,
            None,
            Some(quote),
        ) == Err::<(int, Seq<char>), Seq<char>>("引用文字在当前正文块中不唯一，无法精确定位"@),
        occurs_at(block, quote, at) && (forall|k: int| k < at ==> !occurs_at(block, quote, k)) && (
        forall|k: int| at + quote.len() <= k ==> !occurs_at(block, quote, k)) ==> located(
            block,
            None,
            Some(quote),
        ) == Ok::<(int, Seq<char>), Seq<char>>(
            (byte_len(block.subrange(0, at)) as int, quote),
        ),
{
    if occurs_at(block, quote, at) && (forall|k: int| k < at ==> !occurs_at(block, quote, k)) {
        assert(first_from(block, quote, 0, at));
        crate::sources::lemma_first_match(block, quote, at);
    }
}

/// With a range, the words are those of the block between its two ends, whatever the
/// quote; without a range and a quote, the whole block.
pub proof fn a_range_names_its_words(
    block: Seq<char>,
    range: TextRange,
    quote: Option<Seq<char>>,
)
    ensures
        located(block, None, None) == Ok::<(int, Seq<char>), Seq<char>>((0int, block)),
        range.start_byte <= usize::MAX && range.end_byte <= usize::MAX ==> located(
            block,
            Some(range),
            quote,
        ) == (match byte_slice(block, range.start_byte as int, range.end_byte as int) {
            Some(words) => Ok::<(int, Seq<char>), Seq<char>>((range.start_byte as int, words)),
            None => Err::<(int, Seq<char>), Seq<char>>("引用文字范围已失效"@),
        }),
{
}

/// What is brought into view of a block are the words of the quote, where there is
/// one, and those at the recorded range otherwise; a quote with a range stands at the
/// start of the range.
pub proof fn a_block_is_shown_at_the_words_of_the_citation(
    block: Seq<char>,
    range: Option<TextRange>,
    quote: Option<Seq<char>>,
)
    requires
        focus_in_block(block, range, quote) is Ok,
    ensures
        ({
            let focus = focus_in_block(block, range, quote)->Ok_0;
            let (start, words) = located(block, range, quote)->Ok_0;
            &&& located(block, range, quote) is Ok
            &&& quote is Some ==> focus.text == quote->0
            &&& quote is None ==> focus.text == words
            &&& quote is Some && range is Some ==> words.len() >= quote->0.len() && words.subrange(
                0,
                quote->0.len() as int,
            ) == quote->0
            &&& exists|before: Seq<char>, after: Seq<char>|
                #![trigger before + focus.text + after]
                block == before + focus.text + after && byte_len(before) == start
        }),
{
    let (start, words) = located(block, range, quote)->Ok_0;
    match quote {
        Some(quote) => words_that_cannot_be_shown_are_refused(block, start, quote),
        None => words_that_cannot_be_shown_are_refused(block, start, words),
    }
}

// ---------------------------------------------------------------------------
// Where a link leads
// ---------------------------------------------------------------------------

/// A quote is shown unless it is blank.
pub proof fn a_blank_quote_is_no_quote(quote: Seq<char>)
    ensures
        shown_quote(None) is None,
        (forall|i: int| 0 <= i < quote.len() ==> is_white_space(#[trigger] quote[i]))
            ==> shown_quote(Some(quote)) is None,
        (exists|i: int| 0 <= i < quote.len() && !is_white_space(#[trigger] quote[i]))
            ==> shown_quote(Some(quote)) == Some(quote),
{
}

/// Whether the place that a link records is one in its own book and unit.
pub open spec fn has_own_place(link: SourceLinkView) -> bool {
    link.locator is Some && link.locator->0.book_id == link.book_id && link.locator->0.unit_id
        == link.unit_id && link.locator->0.shape_error is None
}

/// The place that a link leads to: the one that it records, where that is in its own
/// unit, and the unit as a whole otherwise.
pub proof fn a_link_leads_to_its_own_place(link: SourceLinkView)
    ensures
        has_own_place(link) ==> link.target_locator() == link.locator->0,
        !has_own_place(link) ==> link.target_locator() == (LocatorView {
            book_id: link.book_id,
            unit_id: link.unit_id,
            block_id: None,
            text_range: None,
            region: None,
            source: None,
            shape_error: None,
        }),
        link.validated_locator() is Some <==> has_own_place(link),
        has_own_place(link) ==> link.validated_locator() == link.locator,
{
}

/// Whether a document refuses a locator.
pub open spec fn refuses(document: DocumentView, locator: LocatorView) -> bool {
    exists|k: int|
        0 <= k < document.refused.len() && (#[trigger] document.refused[k]).0 == locator
}

/// A link leads somewhere exactly where it is not stale, nothing has changed of the
/// book and the unit since it was made, the document accepts its place, that is no
/// region of a page image and from the unit's own source, and its words are found. It
/// then leads to that unit, place and words.
pub proof fn a_link_leads_where_it_was_made_for(
    link: SourceLinkView,
    document: DocumentView,
    at: int,
)
    requires
        0 <= at < document.units.len(),
        document.units[at].id == link.unit_id,
        forall|k: int| 0 <= k < at ==> (#[trigger] document.units[k]).id != link.unit_id,
    ensures
        link.navigation(document) is Ok <==> {
            let unit = document.units[at];
            let place = link.target_locator();
            &&& !link.stale
            &&& document.id == link.book_id
            &&& document.revision == link.document_revision
            &&& unit.revision == link.unit_revision
            &&& link.unit_index is Some ==> link.unit_index->0 == at
            &&& link.locator is Some ==> !refuses(document, link.locator->0)
            &&& !refuses(document, place)
            &&& place.region is None
            &&& place.source is Some ==> place.source == unit.source_locator
            &&& link.focus_in(unit) is Ok
        },
        link.navigation(document) is Ok ==> {
            let target = link.navigation(document)->Ok_0;
            &&& target.unit_index == at
            &&& target.locator == link.target_locator()
            &&& target.source == link.target_locator().source
            &&& target.focus == link.focus_in(document.units[at])->Ok_0
        },
{
    the_first_unit_with_an_identifier_is_found(document.units, link.unit_id, at);
    if let Some(locator) = link.locator {
        the_first_value_of_a_key_is_found(document.refused, locator);
    }
    the_first_value_of_a_key_is_found(document.refused, link.target_locator());
}

/// The words that a link leads to: those of its block, where it names one; its quote
/// alone, where it names none; and none where it has no quote either. A block that
/// the unit does not have is refused.
pub proof fn a_link_leads_to_its_own_words(link: SourceLinkView, unit: UnitView, at: int)
    ensures
        ({
            let place = link.target_locator();
            let quote = shown_quote(link.quote);
            &&& place.block_id is None && quote is None ==> link.focus_in(unit) == Ok::<
                Option<FocusView>,
                Seq<char>,
            >(None)
            &&& place.block_id is None && quote is Some && byte_len(quote->0) <= 16384
                ==> link.focus_in(unit) == Ok::<Option<FocusView>, Seq<char>>(
                Some(
                    FocusView { text: quote->0, before: Seq::empty(), after: Seq::empty() },
                ),
            )
            &&& place.block_id is Some && (forall|k: int|
                0 <= k < unit.blocks.len() ==> (#[trigger] unit.blocks[k]).0 != place.block_id->0)
                ==> link.focus_in(unit) == Err::<Option<FocusView>, Seq<char>>(
                "引用对应的正文块已不存在"@,
            )
            &&& place.block_id is Some && 0 <= at < unit.blocks.len() && unit.blocks[at].0
                == place.block_id->0 && (forall|k: int|
                0 <= k < at ==> (#[trigger] unit.blocks[k]).0 != place.block_id->0) ==> (
            match focus_in_block(unit.blocks[at].1, place.text_range, quote) {
                Ok(focus) => link.focus_in(unit) == Ok::<Option<FocusView>, Seq<char>>(
                    Some(focus),
                ),
                Err(error) => link.focus_in(unit) == Err::<Option<FocusView>, Seq<char>>(error),
            })
        }),
{
    let place = link.target_locator();
    let quote = shown_quote(link.quote);
    if let Some(block_id) = place.block_id {
        the_first_value_of_a_key_is_found(unit.blocks, block_id);
    } else if let Some(quote) = quote {
        let none = Seq::<char>::empty();
        if byte_len(quote) <= 16384 {
            words_are_shown_with_what_surrounds_them(none, quote, none);
            assert(none + quote + none =~= quote);
            assert(byte_len(none) == 0);
        }
    }
}

// ---------------------------------------------------------------------------
// Which links are kept and which are stale
// ---------------------------------------------------------------------------

/// The text that a link into a unit quotes from: its block, or the unit as a whole.
pub open spec fn quoted_text(unit: UnitView, place: LocatorView, text: Seq<char>) -> bool {
    match place.block_id {
        None => text == unit.text,
        Some(block_id) => exists|at: int|
            0 <= at < unit.blocks.len() && (#[trigger] unit.blocks[at]) == (block_id, text) && (
            forall|k: int| 0 <= k < at ==> (#[trigger] unit.blocks[k]).0 != block_id),
    }
}

/// A stored selection is found again exactly where its place is its own, no page that
/// was only rendered and no region, from the unit's own source, and its quote stands
/// in the text: at the recorded range, or once where there is none.
pub proof fn a_selection_is_found_again_by_its_words(
    link: SourceLinkView,
    unit: UnitView,
    text: Seq<char>,
    quote: Seq<char>,
)
    requires
        has_own_place(link),
        shown_quote(link.quote) == Some(quote),
        quoted_text(unit, link.locator->0, text),
    ensures
        link.selection_matches(unit) <==> {
            let place = link.locator->0;
            &&& place.source is Some ==> !(place.source->0 is OfficeRenderedPage)
                && unit.source_locator == place.source
            &&& place.region is None
            &&& match place.text_range {
                Some(range) => range.start_byte <= usize::MAX && range.end_byte <= usize::MAX
                    && byte_slice(text, range.start_byte as int, range.end_byte as int) == Some(
                    quote,
                ),
                None => exists|at: int|
                    #![trigger occurs_at(text, quote, at)]
                    occurs_at(text, quote, at) && forall|k: int|
                        #![trigger occurs_at(text, quote, k)]
                        k < at || at + quote.len() <= k ==> !occurs_at(text, quote, k),
            }
        },
{
    let place = link.locator->0;
    if let Some(block_id) = place.block_id {
        the_first_value_of_a_key_is_found(unit.blocks, block_id);
        let at = choose|at: int|
            0 <= at < unit.blocks.len() && (#[trigger] unit.blocks[at]) == (block_id, text) && (
            forall|k: int| 0 <= k < at ==> (#[trigger] unit.blocks[k]).0 != block_id);
        assert(unit.blocks[at].1 == text);
    }
    if place.text_range is None {
        if contains_text(text, quote) && !matches_again(text, quote) {
            let some = choose|k: int| occurs_at(text, quote, k);
            let at = lemma_first_place(text, quote, some);
            crate::sources::lemma_first_match(text, quote, at);
            assert(occurs_at(text, quote, at));
        }
        if exists|at: int|
            #![trigger occurs_at(text, quote, at)]
            occurs_at(text, quote, at) && forall|k: int|
                #![trigger occurs_at(text, quote, k)]
                k < at || at + quote.len() <= k ==> !occurs_at(text, quote, k) {
            let at = choose|at: int|
                #![trigger occurs_at(text, quote, at)]
                occurs_at(text, quote, at) && forall|k: int|
                    #![trigger occurs_at(text, quote, k)]
                    k < at || at + quote.len() <= k ==> !occurs_at(text, quote, k);
            assert(first_from(text, quote, 0, at));
            crate::sources::lemma_first_match(text, quote, at);
        }
    }
}

proof fn lemma_first_place(text: Seq<char>, quote: Seq<char>, some: int) -> (at: int)
    requires
        occurs_at(text, quote, some),
    ensures
        first_from(text, quote, 0, at),
    decreases some,
{
    if exists|k: int| 0 <= k < some && occurs_at(text, quote, k) {
        let k = choose|k: int| 0 <= k < some && occurs_at(text, quote, k);
        lemma_first_place(text, quote, k)
    } else {
        some
    }
}

/// A stored link is stale where a link of a new answer would be; beyond that, a
/// stored selection is stale exactly where its words are not found again. Nothing
/// else of it changes.
pub proof fn a_stored_selection_must_be_found_again(
    link: SourceLinkView,
    document: DocumentView,
    at: int,
)
    requires
        0 <= at < document.units.len(),
        document.units[at].id == link.unit_id,
        forall|k: int| 0 <= k < at ==> (#[trigger] document.units[k]).id != link.unit_id,
    ensures
        link.restored(Some(document)) == (SourceLinkView {
            stale: link.restored(Some(document)).stale,
            ..link
        }),
        link.restored(None) == (SourceLinkView { stale: true, ..link }),
        link.restored(Some(document)).stale <==> link.checked(Some(document)).stale || (
        link.selection_snapshot && !(SourceLinkView { stale: false, ..link }).selection_matches(
            document.units[at],
        )),
{
    the_first_unit_with_an_identifier_is_found(document.units, link.unit_id, at);
}

/// A link may be shown exactly where it leads to the web, or into an allowed book and
/// a named unit, with a place of its own where it records one.
pub proof fn a_link_is_shown_where_its_book_is_allowed(
    allowed: Seq<Seq<char>>,
    link: SourceLinkView,
)
    ensures
        is_allowed_source(allowed, link) <==> link.url is Some || ((exists|b: int|
            0 <= b < allowed.len() && #[trigger] allowed[b] == link.book_id) && (exists|i: int|
            0 <= i < link.unit_id.len() && !is_white_space(#[trigger] link.unit_id[i])) && (
        link.locator is None || has_own_place(link))),
{
}

} // verus!
