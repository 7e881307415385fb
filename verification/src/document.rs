//! Books as the windows see them: versions, locators and the text of blocks.

use crate::text::{copy_option, option_text, same_option_text, same_text};
use vstd::prelude::*;
use vstd::string::*;

verus! {

/// The version of a document or of one of its units.
#[derive(Clone, Copy, Debug, PartialEq, Eq, Structural)]
pub struct Revision {
    pub value: u64,
}

impl Revision {
    pub fn new(value: u64) -> (r: Self)
        ensures
            r.value == value,
    {
        Revision { value }
    }
}

/// A range of bytes in the text of a block.
#[derive(Clone, Copy, Debug, PartialEq, Eq, Structural)]
pub struct TextRange {
    pub start_byte: u64,
    pub end_byte: u64,
}

/// A rectangle on a page, in fractions of the page that the document model
/// fixes.
#[derive(Clone, Copy, Debug, PartialEq, Eq, Structural)]
pub struct NormalizedRect {
    pub x: u32,
    pub y: u32,
    pub width: u32,
    pub height: u32,
}

/// Where a part of a book stands in the file it came from.
#[derive(Debug, PartialEq, Eq)]
pub enum SourceLocator {
    /// A page that an office document was rendered to.
    OfficeRenderedPage { page: u32 },
    /// Any other place, under an address that names it alone.
    Address { address: String },
}

/// A place in a source file, as texts.
pub enum SourceLocatorView {
    OfficeRenderedPage { page: u32 },
    Address { address: Seq<char> },
}

impl View for SourceLocator {
    type V = SourceLocatorView;

    open spec fn view(&self) -> SourceLocatorView {
        match *self {
            SourceLocator::OfficeRenderedPage { page } => SourceLocatorView::OfficeRenderedPage {
                page,
            },
            SourceLocator::Address { address } => SourceLocatorView::Address { address: address@ },
        }
    }
}

impl Clone for SourceLocator {
    fn clone(&self) -> (r: Self)
        ensures
            r == *self,
    {
        match self {
            SourceLocator::OfficeRenderedPage { page } => SourceLocator::OfficeRenderedPage {
                page: *page,
            },
            SourceLocator::Address { address } => SourceLocator::Address {
                address: address.clone(),
            },
        }
    }
}

/// The place that an optional locator names.
pub open spec fn source_view(source: Option<SourceLocator>) -> Option<SourceLocatorView> {
    match source {
        Some(s) => Some(s@),
        None => None,
    }
}

/// Whether two optional places are the same.
pub fn same_source(a: &Option<SourceLocator>, b: &Option<SourceLocator>) -> (r: bool)
    ensures
        r == (source_view(*a) == source_view(*b)),
{
    match (a, b) {
        (None, None) => true,
        (
            Some(SourceLocator::OfficeRenderedPage { page: x }),
            Some(SourceLocator::OfficeRenderedPage { page: y }),
        ) => *x == *y,
        (
            Some(SourceLocator::Address { address: x }),
            Some(SourceLocator::Address { address: y }),
        ) => same_text(x.as_str(), y.as_str()),
        _ => false,
    }
}

pub fn copy_source(source: &Option<SourceLocator>) -> (r: Option<SourceLocator>)
    ensures
        r == *source,
{
    match source {
        Some(s) => Some(s.clone()),
        None => None,
    }
}

/// A place in a book: a unit, or a block, text range or region in it.
#[derive(Debug, PartialEq, Eq)]
pub struct DocumentLocator {
    pub book_id: String,
    pub unit_id: String,
    pub block_id: Option<String>,
    pub text_range: Option<TextRange>,
    pub region: Option<NormalizedRect>,
    pub source: Option<SourceLocator>,
    /// What the document model finds wrong with the locator in itself, if
    /// anything.
    pub shape_error: Option<String>,
}

/// A place in a book, as texts.
pub struct LocatorView {
    pub book_id: Seq<char>,
    pub unit_id: Seq<char>,
    pub block_id: Option<Seq<char>>,
    pub text_range: Option<TextRange>,
    pub region: Option<NormalizedRect>,
    pub source: Option<SourceLocatorView>,
    pub shape_error: Option<Seq<char>>,
}

impl View for DocumentLocator {
    type V = LocatorView;

    open spec fn view(&self) -> LocatorView {
        LocatorView {
            book_id: self.book_id@,
            unit_id: self.unit_id@,
            block_id: option_text(self.block_id),
            text_range: self.text_range,
            region: self.region,
            source: source_view(self.source),
            shape_error: option_text(self.shape_error),
        }
    }
}

impl Clone for DocumentLocator {
    fn clone(&self) -> (r: Self)
        ensures
            r == *self,
    {
        DocumentLocator {
            book_id: self.book_id.clone(),
            unit_id: self.unit_id.clone(),
            block_id: copy_option(&self.block_id),
            text_range: self.text_range,
            region: self.region,
            source: copy_source(&self.source),
            shape_error: copy_option(&self.shape_error),
        }
    }
}

impl LocatorView {
    /// The locator of a whole unit.
    pub open spec fn of_unit(book_id: Seq<char>, unit_id: Seq<char>) -> LocatorView {
        LocatorView {
            book_id,
            unit_id,
            block_id: None,
            text_range: None,
            region: None,
            source: None,
            shape_error: None,
        }
    }
}

impl DocumentLocator {
    /// The locator of a whole unit.
    pub fn unit(book_id: &str, unit_id: &str) -> (r: Self)
        ensures
            r@ == LocatorView::of_unit(book_id@, unit_id@),
    {
        DocumentLocator {
            book_id: book_id.to_owned(),
            unit_id: unit_id.to_owned(),
            block_id: None,
            text_range: None,
            region: None,
            source: None,
            shape_error: None,
        }
    }

    /// Whether two locators name the same place in the same way.
    pub fn same(&self, other: &DocumentLocator) -> (r: bool)
        ensures
            r == (self@ == other@),
    {
        let range: bool = match (&self.text_range, &other.text_range) {
            (Some(x), Some(y)) => *x == *y,
            (None, None) => true,
            _ => false,
        };
        let region: bool = match (&self.region, &other.region) {
            (Some(x), Some(y)) => *x == *y,
            (None, None) => true,
            _ => false,
        };
        same_text(self.book_id.as_str(), other.book_id.as_str()) && same_text(
            self.unit_id.as_str(),
            other.unit_id.as_str(),
        ) && same_option_text(&self.block_id, &other.block_id) && range && region && same_source(
            &self.source,
            &other.source,
        ) && same_option_text(&self.shape_error, &other.shape_error)
    }
}

/// The place that an optional locator names.
pub open spec fn locator_view(locator: Option<DocumentLocator>) -> Option<LocatorView> {
    match locator {
        Some(l) => Some(l@),
        None => None,
    }
}

pub fn same_locator(a: &Option<DocumentLocator>, b: &Option<DocumentLocator>) -> (r: bool)
    ensures
        r == (locator_view(*a) == locator_view(*b)),
{
    match (a, b) {
        (Some(x), Some(y)) => x.same(y),
        (None, None) => true,
        _ => false,
    }
}

pub fn copy_locator(locator: &Option<DocumentLocator>) -> (r: Option<DocumentLocator>)
    ensures
        r == *locator,
{
    match locator {
        Some(l) => Some(l.clone()),
        None => None,
    }
}

/// A block of a unit, with its text.
#[derive(Debug, PartialEq, Eq)]
pub struct TextBlock {
    pub id: String,
    pub text: String,
}

/// A unit of a document: its blocks in reading order, nested ones too, and the
/// text of the whole.
#[derive(Debug, PartialEq, Eq)]
pub struct ContentUnit {
    pub id: String,
    pub revision: Revision,
    pub source_locator: Option<SourceLocator>,
    pub blocks: Vec<TextBlock>,
    pub text: String,
}

/// A locator that the document does not accept, and why.
#[derive(Debug, PartialEq, Eq)]
pub struct RefusedLocator {
    pub locator: DocumentLocator,
    pub reason: String,
}

/// The current state of a book, with the document model's verdict on the
/// locators that it was asked about.
#[derive(Debug, PartialEq, Eq)]
pub struct BookDocument {
    pub id: String,
    pub revision: Revision,
    pub units: Vec<ContentUnit>,
    pub refused: Vec<RefusedLocator>,
}

/// A unit, as texts. Each block is its identifier and its text.
pub struct UnitView {
    pub id: Seq<char>,
    pub revision: Revision,
    pub source_locator: Option<SourceLocatorView>,
    pub blocks: Seq<(Seq<char>, Seq<char>)>,
    pub text: Seq<char>,
}

impl View for ContentUnit {
    type V = UnitView;

    open spec fn view(&self) -> UnitView {
        UnitView {
            id: self.id@,
            revision: self.revision,
            source_locator: source_view(self.source_locator),
            blocks: self.blocks@.map_values(|b: TextBlock| (b.id@, b.text@)),
            text: self.text@,
        }
    }
}

/// A document, as texts. Each refused locator is paired with the reason.
pub struct DocumentView {
    pub id: Seq<char>,
    pub revision: Revision,
    pub units: Seq<UnitView>,
    pub refused: Seq<(LocatorView, Seq<char>)>,
}

impl View for BookDocument {
    type V = DocumentView;

    open spec fn view(&self) -> DocumentView {
        DocumentView {
            id: self.id@,
            revision: self.revision,
            units: self.units@.map_values(|u: ContentUnit| u@),
            refused: self.refused@.map_values(|r: RefusedLocator| (r.locator@, r.reason@)),
        }
    }
}

/// The value of the first pair with a key.
pub open spec fn lookup<K, V>(pairs: Seq<(K, V)>, key: K) -> Option<V>
    decreases pairs.len(),
{
    if pairs.len() == 0 {
        None
    } else if pairs[0].0 == key {
        Some(pairs[0].1)
    } else {
        lookup(pairs.drop_first(), key)
    }
}

/// The place of the first unit with an identifier.
pub open spec fn unit_position(units: Seq<UnitView>, id: Seq<char>) -> Option<int>
    decreases units.len(),
{
    if units.len() == 0 {
        None
    } else if units[0].id == id {
        Some(0)
    } else {
        match unit_position(units.drop_first(), id) {
            Some(i) => Some(i + 1),
            None => None,
        }
    }
}

proof fn lemma_lookup<K, V>(pairs: Seq<(K, V)>, key: K, at: int)
    requires
        0 <= at <= pairs.len(),
        at < pairs.len() ==> pairs[at].0 == key,
        forall|k: int| 0 <= k < at ==> (#[trigger] pairs[k]).0 != key,
    ensures
        lookup(pairs, key) == (if at < pairs.len() {
            Some(pairs[at].1)
        } else {
            None
        }),
    decreases pairs.len(),
{
    if pairs.len() > 0 && at > 0 {
        assert(pairs[0].0 != key);
        let rest = pairs.drop_first();
        assert forall|k: int| 0 <= k < at - 1 implies (#[trigger] rest[k]).0 != key by {
            assert(rest[k] == pairs[k + 1]);
        }
        lemma_lookup(rest, key, at - 1);
    }
}

proof fn lemma_unit_position(units: Seq<UnitView>, id: Seq<char>, at: int)
    requires
        0 <= at <= units.len(),
        at < units.len() ==> units[at].id == id,
        forall|k: int| 0 <= k < at ==> (#[trigger] units[k]).id != id,
    ensures
        unit_position(units, id) == (if at < units.len() {
            Some(at)
        } else {
            None
        }),
    decreases units.len(),
{
    if units.len() > 0 && at > 0 {
        assert(units[0].id != id);
        let rest = units.drop_first();
        assert forall|k: int| 0 <= k < at - 1 implies (#[trigger] rest[k]).id != id by {
            assert(rest[k] == units[k + 1]);
        }
        lemma_unit_position(rest, id, at - 1);
    }
}

/// The unit at the place found for an identifier has it.
pub proof fn lemma_unit_position_bounds(units: Seq<UnitView>, id: Seq<char>)
    ensures
        match unit_position(units, id) {
            Some(i) => 0 <= i < units.len() && units[i].id == id,
            None => forall|k: int| 0 <= k < units.len() ==> (#[trigger] units[k]).id != id,
        },
    decreases units.len(),
{
    if units.len() > 0 && units[0].id != id {
        let rest = units.drop_first();
        lemma_unit_position_bounds(rest, id);
        assert forall|k: int|
            0 <= k < units.len() && unit_position(units, id) is None implies (
        #[trigger] units[k]).id != id by {
            if k > 0 {
                assert(units[k] == rest[k - 1]);
            }
        }
    }
}

impl ContentUnit {
    /// The text of the first block with an identifier.
    pub fn find_block(&self, block_id: &str) -> (r: Option<&str>)
        ensures
            match r {
                Some(text) => lookup(self@.blocks, block_id@) == Some(text@),
                None => lookup(self@.blocks, block_id@) is None,
            },
    {
        let ghost pairs = self@.blocks;
        let mut i: usize = 0;
        while i < self.blocks.len()
            invariant
                i <= self.blocks@.len(),
                pairs == self@.blocks,
                forall|k: int| 0 <= k < i ==> (#[trigger] pairs[k]).0 != block_id@,
            decreases self.blocks@.len() - i,
        {
            if same_text(self.blocks[i].id.as_str(), block_id) {
                proof {
                    assert(pairs[i as int].0 == block_id@);
                    lemma_lookup(pairs, block_id@, i as int);
                }
                return Some(self.blocks[i].text.as_str());
            }
            assert(pairs[i as int].0 != block_id@);
            i = i + 1;
        }
        proof {
            lemma_lookup(pairs, block_id@, i as int);
        }
        None
    }
}

impl BookDocument {
    /// The place of the first unit with an identifier.
    pub fn position(&self, unit_id: &str) -> (r: Option<usize>)
        ensures
            match r {
                Some(i) => i < self.units@.len() && unit_position(self@.units, unit_id@) == Some(
                    i as int,
                ),
                None => unit_position(self@.units, unit_id@) is None,
            },
    {
        let ghost units = self@.units;
        let mut i: usize = 0;
        while i < self.units.len()
            invariant
                i <= self.units@.len(),
                units == self@.units,
                forall|k: int| 0 <= k < i ==> (#[trigger] units[k]).id != unit_id@,
            decreases self.units@.len() - i,
        {
            if same_text(self.units[i].id.as_str(), unit_id) {
                proof {
                    assert(units[i as int].id == unit_id@);
                    lemma_unit_position(units, unit_id@, i as int);
                }
                return Some(i);
            }
            assert(units[i as int].id != unit_id@);
            i = i + 1;
        }
        proof {
            lemma_unit_position(units, unit_id@, i as int);
        }
        None
    }

    /// Why the document does not accept a locator; nothing where it does.
    pub fn refusal(&self, locator: &DocumentLocator) -> (r: Option<&str>)
        ensures
            match r {
                Some(reason) => lookup(self@.refused, locator@) == Some(reason@),
                None => lookup(self@.refused, locator@) is None,
            },
    {
        let ghost pairs = self@.refused;
        let mut i: usize = 0;
        while i < self.refused.len()
            invariant
                i <= self.refused@.len(),
                pairs == self@.refused,
                forall|k: int| 0 <= k < i ==> (#[trigger] pairs[k]).0 != locator@,
            decreases self.refused@.len() - i,
        {
            if self.refused[i].locator.same(locator) {
                proof {
                    assert(pairs[i as int].0 == locator@);
                    lemma_lookup(pairs, locator@, i as int);
                }
                return Some(self.refused[i].reason.as_str());
            }
            assert(pairs[i as int].0 != locator@);
            i = i + 1;
        }
        proof {
            lemma_lookup(pairs, locator@, i as int);
        }
        None
    }
}

// ---------------------------------------------------------------------------
// Laws
// ---------------------------------------------------------------------------

/// The unit that an identifier names is the first one that has it.
pub proof fn the_first_unit_with_an_identifier_is_found(
    units: Seq<UnitView>,
    id: Seq<char>,
    at: int,
)
    ensures
        unit_position(units, id) == Some(at) <==> 0 <= at < units.len() && units[at].id == id && (
        forall|k: int| 0 <= k < at ==> (#[trigger] units[k]).id != id),
        unit_position(units, id) is None <==> forall|k: int|
            0 <= k < units.len() ==> (#[trigger] units[k]).id != id,
    decreases units.len(),
{
    lemma_unit_position_bounds(units, id);
    match unit_position(units, id) {
        Some(found) => {
            lemma_unit_position_is_first(units, id);
            if 0 <= at < units.len() && units[at].id == id && (forall|k: int|
                0 <= k < at ==> (#[trigger] units[k]).id != id) {
                lemma_unit_position(units, id, at);
            }
            assert(units[found].id == id);
        },
        None => {},
    }
}

proof fn lemma_unit_position_is_first(units: Seq<UnitView>, id: Seq<char>)
    ensures
        unit_position(units, id) is Some ==> forall|k: int|
            0 <= k < unit_position(units, id)->0 ==> (#[trigger] units[k]).id != id,
    decreases units.len(),
{
    if units.len() > 0 && units[0].id != id {
        let rest = units.drop_first();
        lemma_unit_position_is_first(rest, id);
        lemma_unit_position_bounds(units, id);
        if unit_position(units, id) is Some {
            assert forall|k: int| 0 <= k < unit_position(units, id)->0 implies (
            #[trigger] units[k]).id != id by {
                if k > 0 {
                    assert(units[k] == rest[k - 1]);
                }
            }
        }
    }
}

/// What is looked up is the value of the first pair with the key; nothing is
/// found exactly where no pair has it.
pub proof fn the_first_value_of_a_key_is_found<K, V>(pairs: Seq<(K, V)>, key: K)
    ensures
        lookup(pairs, key) is None <==> forall|k: int|
            0 <= k < pairs.len() ==> (#[trigger] pairs[k]).0 != key,
        forall|at: int|
            #![trigger pairs[at]]
            0 <= at < pairs.len() && pairs[at].0 == key && (forall|k: int|
                0 <= k < at ==> (#[trigger] pairs[k]).0 != key) ==> lookup(pairs, key) == Some(
                pairs[at].1,
            ),
    decreases pairs.len(),
{
    assert forall|at: int|
        #![trigger pairs[at]]
        0 <= at < pairs.len() && pairs[at].0 == key && (forall|k: int|
            0 <= k < at ==> (#[trigger] pairs[k]).0 != key) implies lookup(pairs, key) == Some(
        pairs[at].1,
    ) by {
        lemma_lookup(pairs, key, at);
    }
    if pairs.len() > 0 {
        if pairs[0].0 != key {
            let rest = pairs.drop_first();
            the_first_value_of_a_key_is_found(rest, key);
            if lookup(pairs, key) is None {
                assert forall|k: int| 0 <= k < pairs.len() implies (#[trigger] pairs[k]).0
                    != key by {
                    if k > 0 {
                        assert(pairs[k] == rest[k - 1]);
                    }
                }
            } else {
                let k = choose|k: int| 0 <= k < rest.len() && (#[trigger] rest[k]).0 == key;
                assert(pairs[k + 1].0 == key);
            }
        }
    }
}

} // verus!
