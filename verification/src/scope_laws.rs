//! Which books, conversations and references are on offer: of those that a host
//! names, the first of each, in the host's order.

use crate::references::{
    accepted_hints, accepted_hints_are_usable_and_distinct, has_key, is_usable, HintView,
};
use crate::scope::{
    book_scope, normalized_books, normalized_books_are_the_identified_ones, offered_among, offers,
    shown_title, BookView, ScopeView,
};
use crate::seqs::{lemma_filter_agrees, lemma_places_step, places};
use crate::sessions::{
    authorized_threads, is_authorized, lists_thread, normalized_threads,
    normalized_threads_have_distinct_identifiers, SessionsView, ThreadView,
};
use crate::text::{decimal, is_blank, is_white_space, lemma_trimmed, trimmed};
use vstd::prelude::*;

verus! {

// ---------------------------------------------------------------------------
// References
// ---------------------------------------------------------------------------

/// Whether a reference may be used: it is in an allowed book, and its place, where it
/// has one, is a well-formed one in its own unit.
pub open spec fn may_be_used(allowed: Seq<Seq<char>>, hint: HintView) -> bool {
    allowed.contains(hint.book_id) && (hint.locator is Some ==> hint.locator->0.book_id
        == hint.book_id && hint.locator->0.unit_id == hint.unit_id
        && hint.locator->0.shape_error is None)
}

/// Whether two references are to the same place.
pub open spec fn same_place(a: HintView, b: HintView) -> bool {
    a.book_id == b.book_id && a.unit_id == b.unit_id && a.locator == b.locator
}

/// The test for places of references that may be used and of which none before is to
/// the same place.
pub open spec fn first_usable(allowed: Seq<Seq<char>>, hints: Seq<HintView>) -> spec_fn(
    int,
) -> bool {
    |i: int|
        may_be_used(allowed, hints[i]) && forall|k: int|
            0 <= k < i && may_be_used(allowed, #[trigger] hints[k]) ==> !same_place(
                hints[k],
                hints[i],
            )
}

/// The references on offer are those that may be used, the first of each place and in
/// the host's order.
pub proof fn the_first_reference_of_each_place_is_offered(
    allowed: Seq<Seq<char>>,
    hints: Seq<HintView>,
)
    ensures
        ({
            let firsts = places(hints.len()).filter(first_usable(allowed, hints));
            &&& accepted_hints(allowed, hints).len() == firsts.len()
            &&& forall|i: int|
                0 <= i < firsts.len() ==> #[trigger] accepted_hints(allowed, hints)[i]
                    == hints[firsts[i]]
            &&& forall|i: int| 0 <= i < firsts.len() ==> 0 <= #[trigger] firsts[i] < hints.len()
        }),
    decreases hints.len(),
{
    if hints.len() == 0 {
        reveal(Seq::filter);
        assert(places(0) =~= Seq::<int>::empty());
    } else {
        let rest = hints.drop_last();
        let n = rest.len();
        let last = hints.last();
        the_first_reference_of_each_place_is_offered(allowed, rest);
        accepted_hints_are_usable_and_distinct(allowed, rest);
        lemma_places_step(hints.len(), first_usable(allowed, hints));
        assert forall|i: int| 0 <= i < places(n).len() implies first_usable(allowed, hints)(
            #[trigger] places(n)[i],
        ) == first_usable(allowed, rest)(places(n)[i]) by {
            assert(hints[i] == rest[i]);
            assert forall|k: int| 0 <= k < i implies #[trigger] hints[k] == rest[k] by {}
        }
        lemma_filter_agrees(places(n), first_usable(allowed, hints), first_usable(allowed, rest));
        let kept = accepted_hints(allowed, rest);
        let first = first_usable(allowed, hints)(n as int);
        assert(first == (is_usable(allowed, last) && !has_key(kept, last.key()))) by {
            if has_key(kept, last.key()) {
                let k = choose|k: int|
                    0 <= k < kept.len() && (#[trigger] kept[k]).key() == last.key();
                assert(rest.contains(kept[k]));
                let m = choose|m: int| 0 <= m < rest.len() && rest[m] == kept[k];
                assert(hints[m] == kept[k]);
            } else if is_usable(allowed, last) {
                assert forall|k: int|
                    0 <= k < n && may_be_used(allowed, #[trigger] hints[k]) implies !same_place(
                    hints[k],
                    hints[n as int],
                ) by {
                    assert(rest[k] == hints[k]);
                    if same_place(hints[k], hints[n as int]) {
                        assert(rest[k].key() == last.key());
                        assert(has_key(kept, rest[k].key()));
                    }
                }
            }
        }
        let firsts = places(hints.len()).filter(first_usable(allowed, hints));
        assert forall|i: int| 0 <= i < firsts.len() implies #[trigger] accepted_hints(
            allowed,
            hints,
        )[i] == hints[firsts[i]] && 0 <= firsts[i] < hints.len() by {
            if i < kept.len() {
                assert(accepted_hints(allowed, hints)[i] == kept[i]);
                assert(0 <= firsts[i] < rest.len());
            }
        }
        assert forall|i: int| 0 <= i < firsts.len() implies 0 <= #[trigger] firsts[i]
            < hints.len() by {
            assert(accepted_hints(allowed, hints)[i] == hints[firsts[i]]);
        }
    }
}

// ---------------------------------------------------------------------------
// Books
// ---------------------------------------------------------------------------

/// Whether a text holds anything but white space.
pub open spec fn says_something(text: Seq<char>) -> bool {
    exists|i: int| 0 <= i < text.len() && !is_white_space(#[trigger] text[i])
}

/// The test for places of books with an identifier that no book before has, but for
/// the white space around it.
pub open spec fn first_book(books: Seq<BookView>) -> spec_fn(int) -> bool {
    |i: int|
        says_something(books[i].id) && forall|k: int|
            0 <= k < i ==> trimmed((#[trigger] books[k]).id) != trimmed(books[i].id)
}

/// The books on offer are those with an identifier, the first of each and in the
/// host's order, under their own identifiers and titles.
pub proof fn the_first_book_of_each_identifier_is_offered(books: Seq<BookView>)
    ensures
        ({
            let firsts = places(books.len()).filter(first_book(books));
            &&& normalized_books(books).len() == firsts.len()
            &&& forall|i: int|
                0 <= i < firsts.len() ==> 0 <= #[trigger] firsts[i] < books.len()
                    && normalized_books(books)[i].id == trimmed(books[firsts[i]].id)
                    && normalized_books(books)[i].title == shown_title(books[firsts[i]].title)
        }),
    decreases books.len(),
{
    if books.len() == 0 {
        reveal(Seq::filter);
        assert(places(0) =~= Seq::<int>::empty());
    } else {
        let rest = books.drop_last();
        let n = rest.len();
        let last = books.last();
        let id = trimmed(last.id);
        the_first_book_of_each_identifier_is_offered(rest);
        normalized_books_are_the_identified_ones(rest);
        lemma_places_step(books.len(), first_book(books));
        lemma_trimmed(last.id);
        assert forall|i: int| 0 <= i < places(n).len() implies first_book(books)(
            #[trigger] places(n)[i],
        ) == first_book(rest)(places(n)[i]) by {
            assert(books[i] == rest[i]);
            assert forall|k: int| 0 <= k < i implies #[trigger] books[k] == rest[k] by {}
        }
        lemma_filter_agrees(places(n), first_book(books), first_book(rest));
        let kept = normalized_books(rest);
        assert(first_book(books)(n as int) == !(id.len() == 0 || offers(kept, id))) by {
            assert(says_something(last.id) <==> !is_blank(last.id));
            if id.len() > 0 {
                if offers(kept, id) {
                    let k = choose|k: int| 0 <= k < kept.len() && #[trigger] kept[k].id == id;
                    let other = kept[k];
                    let m = choose|m: int|
                        0 <= m < rest.len() && other == (BookView {
                            id: trimmed(#[trigger] rest[m].id),
                            title: shown_title(rest[m].title),
                        });
                    assert(books[m] == rest[m]);
                } else {
                    assert forall|k: int| 0 <= k < n implies trimmed((#[trigger] books[k]).id)
                        != trimmed(books[n as int].id) by {
                        assert(rest[k] == books[k]);
                        if trimmed(rest[k].id) == id {
                            lemma_trimmed(rest[k].id);
                            assert(offers(kept, trimmed(rest[k].id)));
                        }
                    }
                }
            }
        }
        let firsts = places(books.len()).filter(first_book(books));
        let before = places(n).filter(first_book(rest));
        assert forall|i: int| 0 <= i < firsts.len() implies 0 <= #[trigger] firsts[i]
            < books.len() && normalized_books(books)[i].id == trimmed(books[firsts[i]].id)
            && normalized_books(books)[i].title == shown_title(books[firsts[i]].title) by {
            if i < kept.len() {
                assert(firsts[i] == before[i]);
                assert(normalized_books(books)[i] == kept[i]);
                assert(books[firsts[i]] == rest[before[i]]);
            }
        }
    }
}

/// A book is shown under its title, or as one without a name where that is blank.
pub proof fn a_book_is_shown_under_its_title(title: Seq<char>)
    ensures
        says_something(title) ==> shown_title(title) == title,
        !says_something(title) ==> shown_title(title) == "未命名图书"@,
{
}

/// The scope of a book holds the book alone, under its own identifier. On offer are
/// the books that the host names, and the book itself, first where the host does not
/// name it.
pub proof fn a_scope_starts_with_its_own_book(current: BookView, available: Seq<BookView>)
    ensures
        book_scope(current, available) is Book,
        book_scope(current, available).book_ids() == seq![current.id],
        book_scope(current, available)->current.id == current.id,
        book_scope(current, available)->current.title == shown_title(current.title),
        offers(normalized_books(available), current.id) ==> book_scope(
            current,
            available,
        )->available == normalized_books(available),
        !offers(normalized_books(available), current.id) ==> book_scope(
            current,
            available,
        )->available == seq![book_scope(current, available)->current] + normalized_books(available),
{
    assert(book_scope(current, available).book_ids() =~= seq![current.id]);
}

/// A scope holds its current book and those that were added, in the order in which
/// they were; a shelf holds all of its books.
pub proof fn a_scope_holds_what_was_added(scope: ScopeView, i: int)
    ensures
        scope is Book ==> scope.book_ids().len() == 1 + scope->additional.len()
            && scope.book_ids()[0] == scope->current.id && (0 <= i < scope->additional.len()
            ==> scope.book_ids()[i + 1] == scope->additional[i]),
        scope is Library ==> scope.book_ids().len() == scope->books.len() && (0 <= i
            < scope->books.len() ==> scope.book_ids()[i] == scope->books[i].id),
{
}

/// A book is added exactly where it is on offer and not there yet, behind the others;
/// a book other than the current one is taken out wherever it stands. Nothing else of
/// a scope changes, and a shelf never does.
pub proof fn a_scope_changes_by_one_book(
    scope: ScopeView,
    id: Seq<char>,
    other: Seq<char>,
    keep: spec_fn(Seq<char>) -> bool,
)
    requires
        forall|book: Seq<char>| #[trigger] keep(book) <==> book != id,
    ensures
        scope is Library ==> scope.with_book(id) == scope && scope.without_book(id) == scope
            && !scope.can_add(id) && !scope.can_remove(id),
        scope is Book ==> {
            let added = id != scope->current.id && !scope->additional.contains(id) && exists|i: int|
                0 <= i < scope->available.len() && #[trigger] scope->available[i].id == id;
            &&& scope.can_add(id) == added
            &&& added ==> scope.with_book(id).book_ids() == scope.book_ids().push(id)
            &&& !added ==> scope.with_book(id) == scope
            &&& scope.with_book(id)->available == scope->available
            &&& scope.without_book(id)->available == scope->available
            &&& scope.can_remove(id) <==> id != scope->current.id && scope->additional.contains(id)
            &&& id != scope->current.id ==> scope.without_book(id)->additional
                == scope->additional.filter(keep)
            &&& id == scope->current.id ==> scope.without_book(id) == scope
            &&& scope.without_book(id).allows(other) <==> scope.allows(other) && (other != id
                || other == scope->current.id)
        },
{
    if scope is Book {
        let additional = scope->additional;
        crate::seqs::lemma_filter_elements(additional, crate::scope::other_than(id));
        lemma_filter_agrees(additional, keep, crate::scope::other_than(id));
        if scope.can_add(id) {
            assert(scope.with_book(id).book_ids() =~= scope.book_ids().push(id));
        }
        let after = scope.without_book(id);
        lemma_allows(scope, other);
        lemma_allows(after, other);
    }
}

proof fn lemma_allows(scope: ScopeView, id: Seq<char>)
    requires
        scope is Book,
    ensures
        scope.allows(id) <==> id == scope->current.id || scope->additional.contains(id),
{
    let ids = scope.book_ids();
    assert(ids[0] == scope->current.id);
    if scope->additional.contains(id) {
        let i = choose|i: int| 0 <= i < scope->additional.len() && scope->additional[i] == id;
        assert(ids[i + 1] == id);
    }
    if ids.contains(id) && id != scope->current.id {
        let i = choose|i: int| 0 <= i < ids.len() && ids[i] == id;
        assert(scope->additional[i - 1] == id);
    }
}

/// A scope is called by its shelf or its book, with how many books it holds where
/// others were added.
pub proof fn a_scope_is_called_by_its_book(scope: ScopeView)
    ensures
        scope is Library ==> scope.label() == scope->label,
        scope is Book && scope.book_ids().len() == 1 ==> scope.label() == scope->current.title,
        scope is Book && scope.book_ids().len() > 1 ==> scope.label() == scope->current.title
            + " 等 "@ + decimal(scope.book_ids().len()) + " 本"@,
{
}

/// The books that may still be added are those on offer that the scope does not hold,
/// in their order.
pub proof fn what_may_be_added_is_on_offer(scope: ScopeView, keep: spec_fn(BookView) -> bool)
    requires
        forall|book: BookView| #[trigger] keep(book) <==> !scope.book_ids().contains(book.id),
    ensures
        scope is Library ==> scope.addable_books().len() == 0,
        scope is Book ==> scope.addable_books() == scope->available.filter(keep),
{
    if scope is Book {
        let current = scope->current;
        let additional = scope->additional;
        let free = |b: BookView| b.id != current.id && !additional.contains(b.id);
        assert(scope.addable_books() == scope->available.filter(free));
        assert forall|i: int| 0 <= i < scope->available.len() implies free(
            #[trigger] scope->available[i],
        ) == keep(scope->available[i]) by {
            lemma_allows(scope, scope->available[i].id);
        }
        lemma_filter_agrees(scope->available, free, keep);
    }
}

/// A well-formed scope shows a book for each that it holds, in the same order and
/// under the same identifiers; each added one is on offer with its title.
pub proof fn a_scope_shows_the_books_that_it_holds(scope: ScopeView, i: int)
    requires
        scope.wf(),
        0 <= i < scope.book_ids().len(),
    ensures
        scope.selected_books().len() == scope.book_ids().len(),
        scope.selected_books()[i].id == scope.book_ids()[i],
        scope is Book && i > 0 ==> scope->available.contains(scope.selected_books()[i]),
        scope is Book ==> scope.selected_books()[0] == scope->current,
        scope is Library ==> scope.selected_books() == scope->books,
{
    if scope is Book {
        lemma_offered_among(scope->available, scope->additional);
        if i > 0 {
            assert(scope.selected_books()[i] == offered_among(
                scope->available,
                scope->additional,
            )[i - 1]);
        }
    }
}

proof fn lemma_offered_among(available: Seq<BookView>, ids: Seq<Seq<char>>)
    requires
        forall|i: int| 0 <= i < ids.len() ==> offers(available, #[trigger] ids[i]),
    ensures
        offered_among(available, ids).len() == ids.len(),
        forall|i: int|
            0 <= i < ids.len() ==> (#[trigger] offered_among(available, ids)[i]).id == ids[i]
                && available.contains(offered_among(available, ids)[i]),
    decreases ids.len(),
{
    if ids.len() > 0 {
        let rest = ids.drop_last();
        assert forall|i: int| 0 <= i < rest.len() implies offers(available, #[trigger] rest[i]) by {
            assert(rest[i] == ids[i]);
        }
        lemma_offered_among(available, rest);
        let last = ids[ids.len() - 1];
        assert(offers(available, last));
        let some = choose|i: int| 0 <= i < available.len() && #[trigger] available[i].id == last;
        lemma_first_book(available, last, some);
        assert forall|i: int| 0 <= i < ids.len() implies (#[trigger] offered_among(
            available,
            ids,
        )[i]).id == ids[i] && available.contains(offered_among(available, ids)[i]) by {
            if i < rest.len() {
                assert(offered_among(available, ids)[i] == offered_among(available, rest)[i]);
            }
        }
    }
}

proof fn lemma_first_book(books: Seq<BookView>, id: Seq<char>, some: int)
    requires
        0 <= some < books.len(),
        books[some].id == id,
    ensures
        crate::scope::first_with_id(books, id).id == id,
        books.contains(crate::scope::first_with_id(books, id)),
    decreases some,
{
    if exists|k: int| 0 <= k < some && #[trigger] books[k].id == id {
        let k = choose|k: int| 0 <= k < some && #[trigger] books[k].id == id;
        lemma_first_book(books, id, k);
    } else {
        assert(books[some].id == id && forall|k: int| 0 <= k < some ==> #[trigger] books[k].id
            != id);
    }
}

// ---------------------------------------------------------------------------
// Conversations
// ---------------------------------------------------------------------------

/// The test for places of conversations with an identifier that none before has.
pub open spec fn first_thread(threads: Seq<ThreadView>) -> spec_fn(int) -> bool {
    |i: int|
        says_something(threads[i].id) && forall|k: int|
            0 <= k < i ==> (#[trigger] threads[k]).id != threads[i].id
}

/// The conversations that are listed are those with an identifier, the first of each,
/// in the order of the store and as they are stored.
pub proof fn the_first_conversation_of_each_identifier_is_listed(threads: Seq<ThreadView>)
    ensures
        ({
            let firsts = places(threads.len()).filter(first_thread(threads));
            &&& normalized_threads(threads).len() == firsts.len()
            &&& forall|i: int|
                0 <= i < firsts.len() ==> 0 <= #[trigger] firsts[i] < threads.len()
                    && normalized_threads(threads)[i] == threads[firsts[i]]
        }),
    decreases threads.len(),
{
    if threads.len() == 0 {
        reveal(Seq::filter);
        assert(places(0) =~= Seq::<int>::empty());
    } else {
        let rest = threads.drop_last();
        let n = rest.len();
        let last = threads.last();
        the_first_conversation_of_each_identifier_is_listed(rest);
        normalized_threads_have_distinct_identifiers(rest);
        lemma_places_step(threads.len(), first_thread(threads));
        assert forall|i: int| 0 <= i < places(n).len() implies first_thread(threads)(
            #[trigger] places(n)[i],
        ) == first_thread(rest)(places(n)[i]) by {
            assert(threads[i] == rest[i]);
            assert forall|k: int| 0 <= k < i implies #[trigger] threads[k] == rest[k] by {}
        }
        lemma_filter_agrees(places(n), first_thread(threads), first_thread(rest));
        let kept = normalized_threads(rest);
        assert(first_thread(threads)(n as int) == !(is_blank(last.id) || lists_thread(
            kept,
            last.id,
        ))) by {
            assert(says_something(last.id) <==> !is_blank(last.id));
            if lists_thread(kept, last.id) {
                let k = choose|k: int| 0 <= k < kept.len() && #[trigger] kept[k].id == last.id;
                assert(rest.contains(kept[k]));
                let m = choose|m: int| 0 <= m < rest.len() && rest[m] == kept[k];
                assert(threads[m].id == last.id);
            } else if !is_blank(last.id) {
                assert forall|k: int| 0 <= k < n implies (#[trigger] threads[k]).id
                    != threads[n as int].id by {
                    assert(rest[k] == threads[k]);
                    if rest[k].id == last.id {
                        assert(lists_thread(kept, rest[k].id));
                    }
                }
            }
        }
        let firsts = places(threads.len()).filter(first_thread(threads));
        let before = places(n).filter(first_thread(rest));
        assert forall|i: int| 0 <= i < firsts.len() implies 0 <= #[trigger] firsts[i]
            < threads.len() && normalized_threads(threads)[i] == threads[firsts[i]] by {
            if i < kept.len() {
                assert(firsts[i] == before[i]);
                assert(normalized_threads(threads)[i] == kept[i]);
                assert(threads[firsts[i]] == rest[before[i]]);
            }
        }
    }
}

/// Of the listed conversations those are offered, in their order, all of whose books
/// are among the allowed ones.
pub proof fn conversations_of_other_books_are_not_offered(
    threads: Seq<ThreadView>,
    allowed: Seq<Seq<char>>,
    keep: spec_fn(ThreadView) -> bool,
)
    requires
        forall|thread: ThreadView| #[trigger]
            keep(thread) <==> forall|b: int|
                0 <= b < thread.book_ids.len() ==> allowed.contains(#[trigger] thread.book_ids[b]),
    ensures
        authorized_threads(threads, allowed) == normalized_threads(threads).filter(keep),
{
    let listed = normalized_threads(threads);
    assert forall|i: int| 0 <= i < listed.len() implies keep(#[trigger] listed[i])
        == crate::sessions::authorized_by(allowed)(listed[i]) by {
        assert(keep(listed[i]) <==> is_authorized(listed[i], allowed));
    }
    lemma_filter_agrees(listed, keep, crate::sessions::authorized_by(allowed));
}

/// After an operation the list is what is stored, and the conversation is open that
/// the operation names, where it is listed, and none otherwise. An operation that is
/// under way keeps the list and what is open; a failed one adds why it failed.
pub proof fn an_operation_opens_what_it_names(
    sessions: SessionsView,
    active: Option<Seq<char>>,
    threads: Seq<ThreadView>,
    error: Seq<char>,
)
    ensures
        sessions.applied(active, threads).threads == normalized_threads(threads),
        sessions.applied(active, threads).active == (if active is Some && exists|i: int|
            0 <= i < normalized_threads(threads).len() && #[trigger] normalized_threads(
                threads,
            )[i].id == active->0 {
            active
        } else {
            None
        }),
        !sessions.applied(active, threads).busy,
        !sessions.applied(active, threads).open,
        sessions.applied(active, threads).error is None,
        sessions.refreshed(active, threads).open == sessions.open,
        sessions.refreshed(active, threads).threads == normalized_threads(threads),
        sessions.refreshed(active, threads).active == sessions.applied(active, threads).active,
        sessions.busy ==> sessions.begun() == sessions,
        sessions.begun().busy,
        sessions.begun().threads == sessions.threads,
        sessions.begun().active == sessions.active,
        !sessions.busy ==> !sessions.begun().open && sessions.begun().error is None,
        sessions.failed(error).threads == sessions.threads,
        sessions.failed(error).active == sessions.active,
        sessions.failed(error).open == sessions.open,
        sessions.failed(error).pending_delete == sessions.pending_delete,
        sessions.failed(error).error == Some(error),
        !sessions.failed(error).busy,
{
}

/// The title of the open conversation is that of the first one on the list with its
/// identifier, and that of a new one where none is open or listed.
pub proof fn the_open_conversation_has_its_own_title(sessions: SessionsView, at: int)
    ensures
        sessions.active is None ==> sessions.active_title() == "新对话"@,
        sessions.active is Some && (forall|k: int|
            0 <= k < sessions.threads.len() ==> #[trigger] sessions.threads[k].id
                != sessions.active->0) ==> sessions.active_title() == "新对话"@,
        sessions.active is Some && 0 <= at < sessions.threads.len() && sessions.threads[at].id
            == sessions.active->0 && (forall|k: int|
            0 <= k < at ==> #[trigger] sessions.threads[k].id != sessions.active->0)
            ==> sessions.active_title() == sessions.threads[at].title,
{
    if let Some(id) = sessions.active {
        if forall|k: int|
            0 <= k < sessions.threads.len() ==> #[trigger] sessions.threads[k].id != id {
            crate::sessions::lemma_thread_with_id(
                sessions.threads,
                id,
                sessions.threads.len() as int,
            );
        }
        if 0 <= at < sessions.threads.len() && sessions.threads[at].id == id && (forall|k: int|
            0 <= k < at ==> #[trigger] sessions.threads[k].id != id) {
            crate::sessions::lemma_thread_with_id(sessions.threads, id, at);
        }
    }
}

} // verus!
