//! The books that a conversation may speak of.

use crate::seqs::{
    lemma_filter_all, lemma_filter_elements, lemma_filter_ends, lemma_filter_no_duplicates,
    lemma_filter_step,
};
use crate::text::{
    blank, copy_list, decimal, is_blank, is_white_space, lemma_trimmed, list_has, push_decimal,
    same_text, texts, trim, trimmed,
};
use vstd::prelude::*;
use vstd::string::*;

verus! {

/// A book that the host offers.
#[derive(Debug, PartialEq, Eq)]
pub struct AiBookOption {
    pub id: String,
    pub title: String,
}

/// A book, as texts.
pub struct BookView {
    pub id: Seq<char>,
    pub title: Seq<char>,
}

impl View for AiBookOption {
    type V = BookView;

    open spec fn view(&self) -> BookView {
        BookView { id: self.id@, title: self.title@ }
    }
}

impl Clone for AiBookOption {
    fn clone(&self) -> (r: Self)
        ensures
            r == *self,
    {
        AiBookOption { id: self.id.clone(), title: self.title.clone() }
    }
}

/// The title a book is shown under.
pub open spec fn shown_title(title: Seq<char>) -> Seq<char> {
    if is_blank(title) {
        "未命名图书"@
    } else {
        title
    }
}

/// A label, or what stands in for it where it is blank.
pub open spec fn label_or(value: Seq<char>, fallback: Seq<char>) -> Seq<char> {
    if is_blank(value) {
        fallback
    } else {
        value
    }
}

/// A label, or what stands in for it where it is blank.
pub fn non_empty_label(value: String, fallback: &str) -> (r: String)
    ensures
        r@ == label_or(value@, fallback@),
{
    if blank(value.as_str()) {
        fallback.to_owned()
    } else {
        value
    }
}

impl AiBookOption {
    /// A book under its title, or under a stand-in where the title is blank.
    pub fn new(id: &str, title: &str) -> (r: Self)
        ensures
            r@ == (BookView { id: id@, title: shown_title(title@) }),
    {
        AiBookOption {
            id: id.to_owned(),
            title: non_empty_label(title.to_owned(), "未命名图书"),
        }
    }
}

/// The books that a list holds.
pub open spec fn book_views(books: Seq<AiBookOption>) -> Seq<BookView> {
    books.map_values(|b: AiBookOption| b@)
}

/// The identifiers of a list of books.
pub open spec fn ids_of(books: Seq<BookView>) -> Seq<Seq<char>> {
    books.map_values(|b: BookView| b.id)
}

/// Whether some book of the list has the identifier.
pub open spec fn offers(books: Seq<BookView>, id: Seq<char>) -> bool {
    exists|i: int| 0 <= i < books.len() && #[trigger] books[i].id == id
}

/// The books with an identifier, each identifier once, in the host's order.
pub open spec fn normalized_books(books: Seq<BookView>) -> Seq<BookView>
    decreases books.len(),
{
    if books.len() == 0 {
        Seq::empty()
    } else {
        let kept = normalized_books(books.drop_last());
        let id = trimmed(books.last().id);
        if id.len() == 0 || offers(kept, id) {
            kept
        } else {
            kept.push(BookView { id, title: shown_title(books.last().title) })
        }
    }
}

/// Whether some book of the list has the identifier.
pub fn is_offered(books: &Vec<AiBookOption>, id: &str) -> (r: bool)
    ensures
        r == offers(book_views(books@), id@),
{
    find_book(books, id).is_some()
}

/// The first book of the list with the identifier.
pub fn find_book(books: &Vec<AiBookOption>, id: &str) -> (r: Option<usize>)
    ensures
        match r {
            Some(i) => i < books@.len() && books@[i as int].id@ == id@ && forall|k: int|
                0 <= k < i ==> books@[k].id@ != id@,
            None => !offers(book_views(books@), id@),
        },
        r is Some ==> offers(book_views(books@), id@),
{
    let mut i: usize = 0;
    while i < books.len()
        invariant
            i <= books@.len(),
            forall|k: int| 0 <= k < i ==> books@[k].id@ != id@,
        decreases books@.len() - i,
    {
        if same_text(books[i].id.as_str(), id) {
            assert(book_views(books@)[i as int].id == id@);
            return Some(i);
        }
        i = i + 1;
    }
    assert forall|k: int| 0 <= k < books@.len() implies #[trigger] book_views(books@)[k].id
        != id@ by {
        assert(books@[k].id@ != id@);
    }
    None
}

/// The books with an identifier, each identifier once, in the host's order.
pub fn normalize_books(books: Vec<AiBookOption>) -> (r: Vec<AiBookOption>)
    ensures
        book_views(r@) == normalized_books(book_views(books@)),
{
    let mut kept: Vec<AiBookOption> = Vec::new();
    let mut i: usize = 0;
    let ghost all = book_views(books@);
    assert(all.subrange(0, 0) =~= Seq::<BookView>::empty());
    assert(book_views(kept@) =~= Seq::<BookView>::empty());
    while i < books.len()
        invariant
            i <= books@.len(),
            all == book_views(books@),
            book_views(kept@) == normalized_books(all.subrange(0, i as int)),
        decreases books@.len() - i,
    {
        let ghost before = all.subrange(0, i as int);
        let ghost after = all.subrange(0, i + 1);
        assert(after.drop_last() =~= before);
        assert(after.last() == books@[i as int]@);
        let id = trim(books[i].id.as_str());
        if !id.as_str().is_empty() && !is_offered(&kept, id.as_str()) {
            let ghost had = kept@;
            let book = AiBookOption::new(id.as_str(), books[i].title.as_str());
            kept.push(book);
            assert(book_views(kept@) =~= book_views(had).push(book@));
        }
        i = i + 1;
    }
    assert(all.subrange(0, all.len() as int) =~= all);
    kept
}

/// Scope is supplied by the owning window. Nothing here looks a book up.
#[derive(Debug, PartialEq, Eq)]
pub enum AiSidebarScope {
    /// All the books of a shelf.
    Library { label: String, books: Vec<AiBookOption> },
    /// One book, which stays, and the books that were added to it.
    Book { current: AiBookOption, available: Vec<AiBookOption>, additional_ids: Vec<String> },
}

/// A scope, as texts.
pub enum ScopeView {
    Library { label: Seq<char>, books: Seq<BookView> },
    Book { current: BookView, available: Seq<BookView>, additional: Seq<Seq<char>> },
}

impl View for AiSidebarScope {
    type V = ScopeView;

    open spec fn view(&self) -> ScopeView {
        match *self {
            AiSidebarScope::Library { label, books } => ScopeView::Library {
                label: label@,
                books: book_views(books@),
            },
            AiSidebarScope::Book { current, available, additional_ids } => ScopeView::Book {
                current: current@,
                available: book_views(available@),
                additional: texts(additional_ids@),
            },
        }
    }
}

impl ScopeView {
    /// The identifiers of the books that the scope holds.
    pub open spec fn book_ids(self) -> Seq<Seq<char>> {
        match self {
            ScopeView::Library { label, books } => ids_of(books),
            ScopeView::Book { current, available, additional } => seq![current.id] + additional,
        }
    }

    /// Whether the scope holds a book.
    pub open spec fn allows(self, id: Seq<char>) -> bool {
        self.book_ids().contains(id)
    }

    /// What the scope is called.
    pub open spec fn label(self) -> Seq<char> {
        match self {
            ScopeView::Library { label, books } => label,
            ScopeView::Book { current, available, additional } => if additional.len() == 0 {
                current.title
            } else {
                current.title + " 等 "@ + decimal(additional.len() + 1) + " 本"@
            },
        }
    }

    /// The books that the scope holds, with their titles.
    pub open spec fn selected_books(self) -> Seq<BookView> {
        match self {
            ScopeView::Library { label, books } => books,
            ScopeView::Book { current, available, additional } => seq![current] + offered_among(
                available,
                additional,
            ),
        }
    }

    /// The books that may still be added.
    pub open spec fn addable_books(self) -> Seq<BookView> {
        match self {
            ScopeView::Library { label, books } => Seq::empty(),
            ScopeView::Book { current, available, additional } => available.filter(
                |b: BookView| b.id != current.id && !additional.contains(b.id),
            ),
        }
    }

    /// Whether a book may be added.
    pub open spec fn can_add(self, id: Seq<char>) -> bool {
        match self {
            ScopeView::Library { label, books } => false,
            ScopeView::Book { current, available, additional } => id != current.id
                && !additional.contains(id) && offers(available, id),
        }
    }

    /// Whether a book may be taken out again.
    pub open spec fn can_remove(self, id: Seq<char>) -> bool {
        match self {
            ScopeView::Library { label, books } => false,
            ScopeView::Book { current, available, additional } => id != current.id
                && additional.contains(id),
        }
    }

    /// The scope after a request to add a book.
    pub open spec fn with_book(self, id: Seq<char>) -> ScopeView {
        match self {
            ScopeView::Book { current, available, additional } if self.can_add(id) => {
                ScopeView::Book { current, available, additional: additional.push(id) }
            },
            _ => self,
        }
    }

    /// The scope after a request to take a book out.
    pub open spec fn without_book(self, id: Seq<char>) -> ScopeView {
        match self {
            ScopeView::Book { current, available, additional } if id != current.id => {
                ScopeView::Book {
                    current,
                    available,
                    additional: additional.filter(other_than(id)),
                }
            },
            _ => self,
        }
    }

    /// No identifier twice, and every added book is another one on offer.
    pub open spec fn wf(self) -> bool {
        match self {
            ScopeView::Library { label, books } => ids_of(books).no_duplicates(),
            ScopeView::Book { current, available, additional } => {
                &&& ids_of(available).no_duplicates()
                &&& offers(available, current.id)
                &&& additional.no_duplicates()
                &&& !additional.contains(current.id)
                &&& forall|i: int|
                    0 <= i < additional.len() ==> offers(available, #[trigger] additional[i])
            },
        }
    }
}

/// The test for any text but one.
pub open spec fn other_than(id: Seq<char>) -> spec_fn(Seq<char>) -> bool {
    |other: Seq<char>| other != id
}

/// The books of `available` with the given identifiers, in the order of these.
pub open spec fn offered_among(available: Seq<BookView>, ids: Seq<Seq<char>>) -> Seq<BookView>
    decreases ids.len(),
{
    if ids.len() == 0 {
        Seq::empty()
    } else {
        let rest = offered_among(available, ids.drop_last());
        if offers(available, ids.last()) {
            rest.push(first_with_id(available, ids.last()))
        } else {
            rest
        }
    }
}

/// The first book with an identifier.
pub open spec fn first_with_id(books: Seq<BookView>, id: Seq<char>) -> BookView {
    books[choose|i: int|
        0 <= i < books.len() && #[trigger] books[i].id == id && forall|k: int|
            0 <= k < i ==> #[trigger] books[k].id != id]
}

proof fn lemma_first_with_id(books: Seq<BookView>, id: Seq<char>, at: int)
    requires
        0 <= at < books.len(),
        books[at].id == id,
        forall|k: int| 0 <= k < at ==> #[trigger] books[k].id != id,
    ensures
        first_with_id(books, id) == books[at],
{
    let i = choose|i: int|
        0 <= i < books.len() && #[trigger] books[i].id == id && forall|k: int|
            0 <= k < i ==> #[trigger] books[k].id != id;
    assert(0 <= i < books.len() && books[i].id == id && forall|k: int|
        0 <= k < i ==> #[trigger] books[k].id != id);
    if i < at {
        assert(books[i].id != id);
    } else if at < i {
        assert(books[at].id != id);
    }
}

fn copy_books(books: &Vec<AiBookOption>) -> (r: Vec<AiBookOption>)
    ensures
        r@ == books@,
{
    let mut out: Vec<AiBookOption> = Vec::new();
    let mut i: usize = 0;
    while i < books.len()
        invariant
            i <= books@.len(),
            out@ == books@.subrange(0, i as int),
        decreases books@.len() - i,
    {
        out.push(books[i].clone());
        i = i + 1;
        assert(out@ =~= books@.subrange(0, i as int));
    }
    assert(out@ =~= books@);
    out
}

impl Clone for AiSidebarScope {
    fn clone(&self) -> (r: Self)
        ensures
            r@ == self@,
    {
        match self {
            AiSidebarScope::Library { label, books } => AiSidebarScope::Library {
                label: label.clone(),
                books: copy_books(books),
            },
            AiSidebarScope::Book { current, available, additional_ids } => AiSidebarScope::Book {
                current: current.clone(),
                available: copy_books(available),
                additional_ids: copy_list(additional_ids),
            },
        }
    }
}

impl AiSidebarScope {
    /// The scope of a shelf.
    pub fn library(label: &str, books: Vec<AiBookOption>) -> (r: Self)
        ensures
            r@ == (ScopeView::Library {
                label: label_or(label@, "当前书架"@),
                books: normalized_books(book_views(books@)),
            }),
    {
        AiSidebarScope::Library {
            label: non_empty_label(label.to_owned(), "当前书架"),
            books: normalize_books(books),
        }
    }

    /// The scope of one book, with the books that may be added to it.
    pub fn book(current: AiBookOption, available: Vec<AiBookOption>) -> (r: Self)
        ensures
            r@ == book_scope(current@, book_views(available@)),
    {
        let current = AiBookOption::new(current.id.as_str(), current.title.as_str());
        let mut available = normalize_books(available);
        if !is_offered(&available, current.id.as_str()) {
            let ghost had = available@;
            let first = current.clone();
            available.insert(0, first);
            assert(book_views(available@) =~= seq![current@] + book_views(had));
        }
        let r = AiSidebarScope::Book { current, available, additional_ids: Vec::new() };
        assert(texts(Seq::<String>::empty()) =~= Seq::<Seq<char>>::empty());
        r
    }

    /// The identifiers of the books that the scope holds.
    pub fn book_ids(&self) -> (r: Vec<String>)
        ensures
            texts(r@) == self@.book_ids(),
    {
        match self {
            AiSidebarScope::Library { label, books } => {
                let mut out: Vec<String> = Vec::new();
                let mut i: usize = 0;
                while i < books.len()
                    invariant
                        i <= books@.len(),
                        texts(out@) == ids_of(book_views(books@)).subrange(0, i as int),
                    decreases books@.len() - i,
                {
                    let ghost had = out@;
                    out.push(books[i].id.clone());
                    i = i + 1;
                    assert(texts(out@) =~= texts(had).push(books@[i - 1].id@));
                    assert(ids_of(book_views(books@)).subrange(0, i as int) =~= ids_of(
                        book_views(books@),
                    ).subrange(0, i - 1).push(books@[i - 1].id@));
                    assert(texts(out@) =~= ids_of(book_views(books@)).subrange(0, i as int));
                }
                assert(texts(out@) =~= ids_of(book_views(books@)));
                out
            },
            AiSidebarScope::Book { current, available, additional_ids } => {
                let mut out = copy_list(additional_ids);
                out.insert(0, current.id.clone());
                assert(texts(out@) =~= seq![current.id@] + texts(additional_ids@));
                out
            },
        }
    }

    /// What the scope is called.
    pub fn label(&self) -> (r: String)
        ensures
            r@ == self@.label(),
    {
        match self {
            AiSidebarScope::Library { label, books } => label.clone(),
            AiSidebarScope::Book { current, available, additional_ids } => {
                if additional_ids.len() == 0 {
                    current.title.clone()
                } else {
                    let mut out = current.title.clone();
                    out.push_str(" 等 ");
                    push_decimal(&mut out, additional_ids.len() as u128 + 1);
                    out.push_str(" 本");
                    out
                }
            },
        }
    }

    /// The books that the scope holds, with their titles.
    pub fn selected_books(&self) -> (r: Vec<AiBookOption>)
        ensures
            book_views(r@) == self@.selected_books(),
    {
        match self {
            AiSidebarScope::Library { label, books } => copy_books(books),
            AiSidebarScope::Book { current, available, additional_ids } => {
                let mut out: Vec<AiBookOption> = Vec::new();
                out.push(current.clone());
                let ghost offer = book_views(available@);
                let ghost ids = texts(additional_ids@);
                assert(ids.subrange(0, 0) =~= Seq::<Seq<char>>::empty());
                assert(book_views(out@) =~= seq![current@] + offered_among(
                    offer,
                    ids.subrange(0, 0),
                ));
                let mut i: usize = 0;
                while i < additional_ids.len()
                    invariant
                        i <= additional_ids@.len(),
                        offer == book_views(available@),
                        ids == texts(additional_ids@),
                        book_views(out@) == seq![current@] + offered_among(
                            offer,
                            ids.subrange(0, i as int),
                        ),
                    decreases additional_ids@.len() - i,
                {
                    let ghost had = out@;
                    proof {
                        assert(ids.subrange(0, i + 1).drop_last() =~= ids.subrange(0, i as int));
                        assert(ids.subrange(0, i + 1).last() == additional_ids@[i as int]@);
                    }
                    if let Some(at) = find_book(available, additional_ids[i].as_str()) {
                        let book = available[at].clone();
                        proof {
                            lemma_first_with_id(offer, additional_ids@[i as int]@, at as int);
                        }
                        out.push(book);
                        assert(book_views(out@) =~= book_views(had).push(book@));
                        assert(book_views(out@) =~= seq![current@] + offered_among(
                            offer,
                            ids.subrange(0, i + 1),
                        ));
                    }
                    i = i + 1;
                }
                assert(ids.subrange(0, ids.len() as int) =~= ids);
                out
            },
        }
    }

    /// The books that may still be added.
    pub fn available_books_to_add(&self) -> (r: Vec<AiBookOption>)
        ensures
            book_views(r@) == self@.addable_books(),
    {
        match self {
            AiSidebarScope::Library { label, books } => {
                let out: Vec<AiBookOption> = Vec::new();
                assert(book_views(out@) =~= Seq::<BookView>::empty());
                out
            },
            AiSidebarScope::Book { current, available, additional_ids } => {
                let ghost keep = |b: BookView|
                    b.id != current@.id && !texts(additional_ids@).contains(b.id);
                let ghost offer = book_views(available@);
                let mut out: Vec<AiBookOption> = Vec::new();
                proof {
                    lemma_filter_ends(offer, keep);
                    assert(book_views(out@) =~= Seq::<BookView>::empty());
                }
                let mut i: usize = 0;
                while i < available.len()
                    invariant
                        i <= available@.len(),
                        offer == book_views(available@),
                        keep == (|b: BookView|
                            b.id != current@.id && !texts(additional_ids@).contains(b.id)),
                        book_views(out@) == offer.subrange(0, i as int).filter(keep),
                    decreases available@.len() - i,
                {
                    proof {
                        lemma_filter_step(offer, keep, i as int);
                    }
                    let ghost had = out@;
                    if !same_text(available[i].id.as_str(), current.id.as_str()) && !list_has(
                        additional_ids,
                        available[i].id.as_str(),
                    ) {
                        let book = available[i].clone();
                        out.push(book);
                        assert(book_views(out@) =~= book_views(had).push(book@));
                    }
                    i = i + 1;
                }
                out
            },
        }
    }

    /// Adds a book that is on offer. The result says whether the scope changed.
    pub fn add_book(&mut self, book_id: &str) -> (r: bool)
        ensures
            r == old(self)@.can_add(book_id@),
            final(self)@ == old(self)@.with_book(book_id@),
    {
        match self {
            AiSidebarScope::Library { label, books } => false,
            AiSidebarScope::Book { current, available, additional_ids } => {
                if same_text(book_id, current.id.as_str()) || list_has(additional_ids, book_id)
                    || !is_offered(available, book_id) {
                    return false;
                }
                let ghost had = additional_ids@;
                additional_ids.push(book_id.to_owned());
                assert(texts(additional_ids@) =~= texts(had).push(book_id@));
                true
            },
        }
    }

    /// Takes an added book out. The result says whether the scope changed.
    pub fn remove_book(&mut self, book_id: &str) -> (r: bool)
        ensures
            r == old(self)@.can_remove(book_id@),
            final(self)@ == old(self)@.without_book(book_id@),
    {
        match self {
            AiSidebarScope::Library { label, books } => false,
            AiSidebarScope::Book { current, available, additional_ids } => {
                if same_text(book_id, current.id.as_str()) {
                    return false;
                }
                let had: bool = list_has(additional_ids, book_id);
                let ghost before = texts(additional_ids@);
                let kept = list_without(additional_ids, book_id);
                *additional_ids = kept;
                had
            },
        }
    }
}

/// The list without the items equal to `text`.
fn list_without(list: &Vec<String>, text: &str) -> (r: Vec<String>)
    ensures
        texts(r@) == texts(list@).filter(other_than(text@)),
{
    let ghost keep = other_than(text@);
    let mut out: Vec<String> = Vec::new();
    proof {
        lemma_filter_ends(texts(list@), keep);
        assert(texts(out@) =~= Seq::<Seq<char>>::empty());
    }
    let mut i: usize = 0;
    while i < list.len()
        invariant
            i <= list@.len(),
            keep == other_than(text@),
            texts(out@) == texts(list@).subrange(0, i as int).filter(keep),
        decreases list@.len() - i,
    {
        proof {
            lemma_filter_step(texts(list@), keep, i as int);
        }
        let ghost had = out@;
        if !same_text(list[i].as_str(), text) {
            let item = list[i].clone();
            out.push(item);
            assert(texts(out@) =~= texts(had).push(item@));
        }
        i = i + 1;
    }
    out
}

/// The scope that a host sets for one book.
pub open spec fn book_scope(current: BookView, available: Seq<BookView>) -> ScopeView {
    let shown = BookView { id: current.id, title: shown_title(current.title) };
    let offer = normalized_books(available);
    ScopeView::Book {
        current: shown,
        available: if offers(offer, shown.id) {
            offer
        } else {
            seq![shown] + offer
        },
        additional: Seq::empty(),
    }
}

// ---------------------------------------------------------------------------
// Laws
// ---------------------------------------------------------------------------

/// Of the books that a host offers, each one with an identifier is kept under
/// its trimmed identifier, none twice, and nothing else is.
pub proof fn normalized_books_are_the_identified_ones(books: Seq<BookView>)
    ensures
        ids_of(normalized_books(books)).no_duplicates(),
        forall|i: int|
            0 <= i < books.len() && !is_blank(books[i].id) ==> offers(
                normalized_books(books),
                #[trigger] trimmed(books[i].id),
            ),
        forall|k: int|
            0 <= k < normalized_books(books).len() ==> ({
                let kept = #[trigger] normalized_books(books)[k];
                kept.id.len() > 0 && exists|i: int|
                    0 <= i < books.len() && kept == (BookView {
                        id: trimmed(#[trigger] books[i].id),
                        title: shown_title(books[i].title),
                    })
            }),
    decreases books.len(),
{
    if books.len() > 0 {
        let rest = books.drop_last();
        normalized_books_are_the_identified_ones(rest);
        let kept = normalized_books(rest);
        let id = trimmed(books.last().id);
        lemma_trimmed(books.last().id);
        let all = normalized_books(books);
        assert forall|i: int| 0 <= i < books.len() && !is_blank(books[i].id) implies offers(
            all,
            #[trigger] trimmed(books[i].id),
        ) by {
            if i < rest.len() {
                assert(rest[i] == books[i]);
                assert(offers(kept, trimmed(rest[i].id)));
                let k = choose|k: int|
                    0 <= k < kept.len() && #[trigger] kept[k].id == trimmed(rest[i].id);
                assert(all[k].id == trimmed(rest[i].id));
            } else if !offers(kept, id) {
                assert(all[all.len() - 1].id == id);
            }
        }
        assert forall|k: int| 0 <= k < all.len() implies ({
            let kept = #[trigger] all[k];
            kept.id.len() > 0 && exists|i: int|
                0 <= i < books.len() && kept == (BookView {
                    id: trimmed(#[trigger] books[i].id),
                    title: shown_title(books[i].title),
                })
        }) by {
            if k < kept.len() {
                assert(all[k] == kept[k]);
                let i = choose|i: int|
                    0 <= i < rest.len() && kept[k] == (BookView {
                        id: trimmed(#[trigger] rest[i].id),
                        title: shown_title(rest[i].title),
                    });
                assert(books[i] == rest[i]);
            } else {
                let last = books[books.len() - 1];
                assert(all[k].id == trimmed(last.id));
            }
        }
        if all.len() > kept.len() {
            assert forall|i: int, j: int|
                0 <= i < all.len() && 0 <= j < all.len() && i != j implies ids_of(all)[i] != ids_of(
                all,
            )[j] by {
                if i < kept.len() && j < kept.len() {
                    assert(ids_of(kept)[i] == ids_of(all)[i]);
                    assert(ids_of(kept)[j] == ids_of(all)[j]);
                } else if i < kept.len() {
                    assert(kept[i].id != id);
                } else {
                    assert(kept[j].id != id);
                }
            }
        }
    }
}

/// A list of books that was put in order is left as it is by doing so again.
pub proof fn normalizing_books_again_changes_nothing(books: Seq<BookView>)
    ensures
        normalized_books(normalized_books(books)) == normalized_books(books),
    decreases books.len(),
{
    if books.len() > 0 {
        normalizing_books_again_changes_nothing(books.drop_last());
        let kept = normalized_books(books.drop_last());
        let id = trimmed(books.last().id);
        lemma_trimmed(books.last().id);
        if id.len() > 0 && !offers(kept, id) {
            let title = shown_title(books.last().title);
            let all = kept.push(BookView { id, title });
            assert(all.drop_last() =~= kept);
            reveal_strlit("未命名图书");
            assert(shown_title(title) == title) by {
                if is_blank(books.last().title) {
                    assert(!is_white_space(title[0]));
                }
            }
        }
    }
}

/// A scope of a shelf or of a book holds no identifier twice.
pub proof fn new_scopes_are_well_formed(
    label: Seq<char>,
    current: BookView,
    books: Seq<BookView>,
)
    ensures
        (ScopeView::Library { label, books: normalized_books(books) }).wf(),
        book_scope(current, books).wf(),
{
    normalized_books_are_the_identified_ones(books);
    let offer = normalized_books(books);
    let shown = BookView { id: current.id, title: shown_title(current.title) };
    if !offers(offer, shown.id) {
        let all = seq![shown] + offer;
        assert(all[0].id == shown.id);
        assert forall|i: int, j: int|
            0 <= i < all.len() && 0 <= j < all.len() && i != j implies ids_of(all)[i] != ids_of(
            all,
        )[j] by {
            if i > 0 {
                assert(all[i] == offer[i - 1]);
                assert(ids_of(offer)[i - 1] == ids_of(all)[i]);
            }
            if j > 0 {
                assert(all[j] == offer[j - 1]);
                assert(ids_of(offer)[j - 1] == ids_of(all)[j]);
            }
        }
    }
}

/// Adding and removing books keeps a scope well formed.
pub proof fn book_changes_keep_a_scope_well_formed(scope: ScopeView, id: Seq<char>)
    requires
        scope.wf(),
    ensures
        scope.with_book(id).wf(),
        scope.without_book(id).wf(),
{
    if let ScopeView::Book { current, available, additional } = scope {
        let keep = other_than(id);
        lemma_filter_no_duplicates(additional, keep);
        lemma_filter_elements(additional, keep);
        let fewer = additional.filter(keep);
        assert forall|i: int| 0 <= i < fewer.len() implies offers(
            available,
            #[trigger] fewer[i],
        ) by {
            let k = choose|k: int| 0 <= k < additional.len() && additional[k] == fewer[i];
            assert(offers(available, additional[k]));
        }
        if scope.can_add(id) {
            let more = additional.push(id);
            assert(!more.contains(current.id)) by {
                if more.contains(current.id) {
                    let k = choose|k: int| 0 <= k < more.len() && more[k] == current.id;
                    if k < additional.len() {
                        assert(additional[k] == current.id);
                    }
                }
            }
            assert forall|i: int| 0 <= i < more.len() implies offers(
                available,
                #[trigger] more[i],
            ) by {
                if i < additional.len() {
                    assert(more[i] == additional[i]);
                }
            }
        }
    }
}

/// Removing a book that was just added gives the scope back as it was.
pub proof fn removing_an_added_book_undoes_it(scope: ScopeView, id: Seq<char>)
    requires
        scope.can_add(id),
    ensures
        scope.with_book(id).can_remove(id),
        scope.with_book(id).without_book(id) == scope,
{
    if let ScopeView::Book { current, available, additional } = scope {
        let keep = other_than(id);
        let more = additional.push(id);
        assert(more[additional.len() as int] == id);
        assert forall|i: int| 0 <= i < additional.len() implies keep(#[trigger] additional[i]) by {
            if additional[i] == id {
                assert(additional.contains(id));
            }
        }
        lemma_filter_all(additional, keep);
        assert(more.drop_last() =~= additional);
        reveal(Seq::filter);
        assert(more.filter(keep) == additional);
    }
}

/// The current book of a scope is in it, whatever is added or removed.
pub proof fn the_current_book_stays(scope: ScopeView, id: Seq<char>)
    requires
        scope is Book,
    ensures
        scope->current == scope.with_book(id)->current,
        scope->current == scope.without_book(id)->current,
        scope.allows(scope->current.id),
        scope.with_book(id).allows(scope->current.id),
        scope.without_book(id).allows(scope->current.id),
{
    assert(scope.book_ids()[0] == scope->current.id);
    assert(scope.with_book(id).book_ids()[0] == scope->current.id);
    assert(scope.without_book(id).book_ids()[0] == scope->current.id);
}

} // verus!
