//! The stored conversations that a window may choose from.

use crate::scope::{label_or, non_empty_label};
use crate::seqs::{
    lemma_filter_elements, lemma_filter_ends, lemma_filter_no_duplicates, lemma_filter_step,
};
use crate::text::{blank, copy_list, is_blank, list_has, option_text, same_text, texts};
use vstd::prelude::*;
use vstd::string::*;

verus! {

/// A stored conversation that may be opened.
#[derive(Debug, PartialEq, Eq)]
pub struct AiThreadOption {
    pub id: String,
    pub title: String,
    pub book_ids: Vec<String>,
}

/// A stored conversation, as texts.
pub struct ThreadView {
    pub id: Seq<char>,
    pub title: Seq<char>,
    pub book_ids: Seq<Seq<char>>,
}

impl View for AiThreadOption {
    type V = ThreadView;

    open spec fn view(&self) -> ThreadView {
        ThreadView { id: self.id@, title: self.title@, book_ids: texts(self.book_ids@) }
    }
}

impl Clone for AiThreadOption {
    fn clone(&self) -> (r: Self)
        ensures
            r@ == self@,
    {
        AiThreadOption {
            id: self.id.clone(),
            title: self.title.clone(),
            book_ids: copy_list(&self.book_ids),
        }
    }
}

impl AiThreadOption {
    /// A conversation under its title, or under a stand-in where that is blank.
    pub fn new(id: &str, title: &str, book_ids: Vec<String>) -> (r: Self)
        ensures
            r@ == (ThreadView {
                id: id@,
                title: label_or(title@, "新对话"@),
                book_ids: texts(book_ids@),
            }),
    {
        AiThreadOption {
            id: id.to_owned(),
            title: non_empty_label(title.to_owned(), "新对话"),
            book_ids,
        }
    }
}

/// The conversations that a list holds.
pub open spec fn thread_views(threads: Seq<AiThreadOption>) -> Seq<ThreadView> {
    threads.map_values(|t: AiThreadOption| t@)
}

/// Whether some conversation of the list has the identifier.
pub open spec fn lists_thread(threads: Seq<ThreadView>, id: Seq<char>) -> bool {
    exists|i: int| 0 <= i < threads.len() && #[trigger] threads[i].id == id
}

/// The first conversation with an identifier.
pub open spec fn thread_with_id(threads: Seq<ThreadView>, id: Seq<char>) -> Option<ThreadView>
    decreases threads.len(),
{
    if threads.len() == 0 {
        None
    } else if threads[0].id == id {
        Some(threads[0])
    } else {
        thread_with_id(threads.drop_first(), id)
    }
}

/// The conversations with an identifier, each identifier once, the first of its
/// kind.
pub open spec fn normalized_threads(threads: Seq<ThreadView>) -> Seq<ThreadView>
    decreases threads.len(),
{
    if threads.len() == 0 {
        Seq::empty()
    } else {
        let kept = normalized_threads(threads.drop_last());
        if is_blank(threads.last().id) || lists_thread(kept, threads.last().id) {
            kept
        } else {
            kept.push(threads.last())
        }
    }
}

/// Whether all the books of a conversation are allowed.
pub open spec fn is_authorized(thread: ThreadView, allowed: Seq<Seq<char>>) -> bool {
    forall|i: int|
        0 <= i < thread.book_ids.len() ==> allowed.contains(#[trigger] thread.book_ids[i])
}

/// The test for conversations whose books are all allowed.
pub open spec fn authorized_by(allowed: Seq<Seq<char>>) -> spec_fn(ThreadView) -> bool {
    |thread: ThreadView| is_authorized(thread, allowed)
}

/// The conversations that may be offered where only some books are allowed.
pub open spec fn authorized_threads(
    threads: Seq<ThreadView>,
    allowed: Seq<Seq<char>>,
) -> Seq<ThreadView> {
    normalized_threads(threads).filter(authorized_by(allowed))
}

pub(crate) proof fn lemma_thread_with_id(threads: Seq<ThreadView>, id: Seq<char>, at: int)
    requires
        0 <= at <= threads.len(),
        at < threads.len() ==> threads[at].id == id,
        forall|k: int| 0 <= k < at ==> #[trigger] threads[k].id != id,
    ensures
        thread_with_id(threads, id) == (if at < threads.len() {
            Some(threads[at])
        } else {
            None
        }),
        lists_thread(threads, id) <==> at < threads.len(),
    decreases threads.len(),
{
    if at < threads.len() {
        assert(threads[at].id == id);
    }
    if threads.len() > 0 && at > 0 {
        assert(threads[0].id != id);
        let rest = threads.drop_first();
        assert forall|k: int| 0 <= k < at - 1 implies #[trigger] rest[k].id != id by {
            assert(rest[k] == threads[k + 1]);
        }
        lemma_thread_with_id(rest, id, at - 1);
        if lists_thread(threads, id) {
            let k = choose|k: int| 0 <= k < threads.len() && #[trigger] threads[k].id == id;
            assert(rest[k - 1].id == id);
        }
    }
}

/// The place of the first conversation with an identifier.
pub fn find_thread(threads: &Vec<AiThreadOption>, id: &str) -> (r: Option<usize>)
    ensures
        match r {
            Some(i) => i < threads@.len() && thread_with_id(thread_views(threads@), id@) == Some(
                threads@[i as int]@,
            ),
            None => thread_with_id(thread_views(threads@), id@) is None,
        },
        r is Some <==> lists_thread(thread_views(threads@), id@),
{
    let ghost all = thread_views(threads@);
    let mut i: usize = 0;
    while i < threads.len()
        invariant
            i <= threads@.len(),
            all == thread_views(threads@),
            forall|k: int| 0 <= k < i ==> #[trigger] all[k].id != id@,
        decreases threads@.len() - i,
    {
        if same_text(threads[i].id.as_str(), id) {
            proof {
                assert(all[i as int].id == id@);
                lemma_thread_with_id(all, id@, i as int);
            }
            return Some(i);
        }
        assert(all[i as int].id != id@);
        i = i + 1;
    }
    proof {
        lemma_thread_with_id(all, id@, i as int);
    }
    None
}

/// The conversations with an identifier, each identifier once.
pub fn normalized_thread_options(threads: Vec<AiThreadOption>) -> (r: Vec<AiThreadOption>)
    ensures
        thread_views(r@) == normalized_threads(thread_views(threads@)),
{
    let ghost all = thread_views(threads@);
    let mut kept: Vec<AiThreadOption> = Vec::new();
    let mut i: usize = 0;
    assert(all.subrange(0, 0) =~= Seq::<ThreadView>::empty());
    assert(thread_views(kept@) =~= Seq::<ThreadView>::empty());
    while i < threads.len()
        invariant
            i <= threads@.len(),
            all == thread_views(threads@),
            thread_views(kept@) == normalized_threads(all.subrange(0, i as int)),
        decreases threads@.len() - i,
    {
        proof {
            assert(all.subrange(0, i + 1).drop_last() =~= all.subrange(0, i as int));
            assert(all.subrange(0, i + 1).last() == threads@[i as int]@);
        }
        if !blank(threads[i].id.as_str()) && find_thread(
            &kept,
            threads[i].id.as_str(),
        ).is_none() {
            let ghost had = kept@;
            let thread = threads[i].clone();
            kept.push(thread);
            assert(thread_views(kept@) =~= thread_views(had).push(thread@));
        }
        i = i + 1;
    }
    assert(all.subrange(0, all.len() as int) =~= all);
    kept
}

/// Whether all the books of a conversation are allowed.
pub fn thread_scope_is_authorized(thread: &AiThreadOption, allowed: &Vec<String>) -> (r: bool)
    ensures
        r == is_authorized(thread@, texts(allowed@)),
{
    let mut i: usize = 0;
    while i < thread.book_ids.len()
        invariant
            i <= thread.book_ids@.len(),
            forall|k: int|
                0 <= k < i ==> texts(allowed@).contains(#[trigger] thread@.book_ids[k]),
        decreases thread.book_ids@.len() - i,
    {
        if !list_has(allowed, thread.book_ids[i].as_str()) {
            assert(!texts(allowed@).contains(thread@.book_ids[i as int]));
            return false;
        }
        i = i + 1;
    }
    true
}

/// The conversations that may be offered where only some books are allowed.
pub fn authorized_thread_options(threads: Vec<AiThreadOption>, allowed: &Vec<String>) -> (r: Vec<
    AiThreadOption,
>)
    ensures
        thread_views(r@) == authorized_threads(thread_views(threads@), texts(allowed@)),
{
    let listed = normalized_thread_options(threads);
    let ghost all = thread_views(listed@);
    let ghost keep = authorized_by(texts(allowed@));
    let mut kept: Vec<AiThreadOption> = Vec::new();
    proof {
        lemma_filter_ends(all, keep);
        assert(thread_views(kept@) =~= Seq::<ThreadView>::empty());
    }
    let mut i: usize = 0;
    while i < listed.len()
        invariant
            i <= listed@.len(),
            all == thread_views(listed@),
            keep == authorized_by(texts(allowed@)),
            thread_views(kept@) == all.subrange(0, i as int).filter(keep),
        decreases listed@.len() - i,
    {
        proof {
            lemma_filter_step(all, keep, i as int);
        }
        if thread_scope_is_authorized(&listed[i], allowed) {
            let ghost had = kept@;
            let thread = listed[i].clone();
            kept.push(thread);
            assert(thread_views(kept@) =~= thread_views(had).push(thread@));
        }
        i = i + 1;
    }
    kept
}

/// A conversation that waits for its deletion to be confirmed.
#[derive(Debug, PartialEq, Eq)]
pub struct PendingSessionDeletion {
    pub thread_id: String,
    pub title: String,
}

impl Clone for PendingSessionDeletion {
    fn clone(&self) -> (r: Self)
        ensures
            r == *self,
    {
        PendingSessionDeletion { thread_id: self.thread_id.clone(), title: self.title.clone() }
    }
}

/// The list of stored conversations, and what is going on with it.
#[derive(Debug, PartialEq, Eq)]
pub struct SessionPickerState {
    pub threads: Vec<AiThreadOption>,
    pub active_thread_id: Option<String>,
    pub open: bool,
    pub busy: bool,
    pub error: Option<String>,
    pub pending_delete: Option<PendingSessionDeletion>,
}

/// The list of stored conversations, as texts.
pub struct SessionsView {
    pub threads: Seq<ThreadView>,
    pub active: Option<Seq<char>>,
    pub open: bool,
    pub busy: bool,
    pub error: Option<Seq<char>>,
    /// Identifier and title of the conversation to be deleted.
    pub pending_delete: Option<(Seq<char>, Seq<char>)>,
}

impl View for SessionPickerState {
    type V = SessionsView;

    open spec fn view(&self) -> SessionsView {
        SessionsView {
            threads: thread_views(self.threads@),
            active: option_text(self.active_thread_id),
            open: self.open,
            busy: self.busy,
            error: option_text(self.error),
            pending_delete: match self.pending_delete {
                Some(pending) => Some((pending.thread_id@, pending.title@)),
                None => None,
            },
        }
    }
}

impl SessionsView {
    /// An empty list with nothing going on.
    pub open spec fn initial() -> SessionsView {
        SessionsView {
            threads: Seq::empty(),
            active: None,
            open: false,
            busy: false,
            error: None,
            pending_delete: None,
        }
    }

    /// The title of the conversation that is open.
    pub open spec fn active_title(self) -> Seq<char> {
        match self.active {
            Some(id) => match thread_with_id(self.threads, id) {
                Some(thread) => thread.title,
                None => "新对话"@,
            },
            None => "新对话"@,
        }
    }

    /// The list after an operation was asked for: a second one has no effect.
    pub open spec fn begun(self) -> SessionsView {
        if self.busy {
            self
        } else {
            SessionsView { busy: true, open: false, error: None, pending_delete: None, ..self }
        }
    }

    /// The list after an operation came back with what is stored.
    pub open spec fn applied(
        self,
        active: Option<Seq<char>>,
        threads: Seq<ThreadView>,
    ) -> SessionsView {
        let listed = normalized_threads(threads);
        SessionsView {
            threads: listed,
            active: match active {
                Some(id) => if lists_thread(listed, id) {
                    Some(id)
                } else {
                    None
                },
                None => None,
            },
            open: false,
            busy: false,
            error: None,
            pending_delete: None,
        }
    }

    /// The list after a reload, which leaves it open where it was.
    pub open spec fn refreshed(
        self,
        active: Option<Seq<char>>,
        threads: Seq<ThreadView>,
    ) -> SessionsView {
        SessionsView { open: self.open, ..self.applied(active, threads) }
    }

    /// The list after an operation failed.
    pub open spec fn failed(self, error: Seq<char>) -> SessionsView {
        SessionsView { busy: false, error: Some(error), ..self }
    }

    /// No identifier is blank or stands twice, and what is open is listed.
    pub open spec fn wf(self) -> bool {
        &&& normalized_threads(self.threads) == self.threads
        &&& self.active is Some ==> lists_thread(self.threads, self.active->0)
    }
}

impl Default for SessionPickerState {
    fn default() -> (r: Self)
        ensures
            r@ == SessionsView::initial(),
    {
        let r = SessionPickerState {
            threads: Vec::new(),
            active_thread_id: None,
            open: false,
            busy: false,
            error: None,
            pending_delete: None,
        };
        assert(thread_views(r.threads@) =~= Seq::<ThreadView>::empty());
        r
    }
}

impl SessionPickerState {
    /// The title of the conversation that is open.
    pub fn active_title(&self) -> (r: &str)
        ensures
            r@ == self@.active_title(),
    {
        match &self.active_thread_id {
            Some(active) => match find_thread(&self.threads, active.as_str()) {
                Some(i) => self.threads[i].title.as_str(),
                None => "新对话",
            },
            None => "新对话",
        }
    }

    /// Starts an operation, unless one is under way.
    pub fn begin(&mut self) -> (r: bool)
        ensures
            r == !old(self).busy,
            final(self)@ == old(self)@.begun(),
    {
        if self.busy {
            return false;
        }
        self.busy = true;
        self.open = false;
        self.error = None;
        self.pending_delete = None;
        true
    }

    /// Takes over what is stored, at the end of an operation.
    pub fn apply(&mut self, active_thread_id: Option<String>, threads: Vec<AiThreadOption>)
        ensures
            final(self)@ == old(self)@.applied(
                option_text(active_thread_id),
                thread_views(threads@),
            ),
    {
        self.threads = normalized_thread_options(threads);
        let active = match active_thread_id {
            Some(id) => if find_thread(&self.threads, id.as_str()).is_some() {
                Some(id)
            } else {
                None
            },
            None => None,
        };
        self.active_thread_id = active;
        self.busy = false;
        self.open = false;
        self.error = None;
        self.pending_delete = None;
    }

    /// Takes over what is stored and leaves the list open where it was.
    pub fn refresh(&mut self, active_thread_id: Option<String>, threads: Vec<AiThreadOption>)
        ensures
            final(self)@ == old(self)@.refreshed(
                option_text(active_thread_id),
                thread_views(threads@),
            ),
    {
        let was_open: bool = self.open;
        self.apply(active_thread_id, threads);
        self.open = was_open;
    }

    /// Ends an operation that failed.
    pub fn fail(&mut self, error: &str)
        ensures
            final(self)@ == old(self)@.failed(error@),
    {
        self.busy = false;
        self.error = Some(error.to_owned());
    }
}

// ---------------------------------------------------------------------------
// Laws
// ---------------------------------------------------------------------------

/// Every listed conversation has an identifier of its own, was on the list that
/// was handed in, and every identifier on that list is kept.
pub proof fn normalized_threads_have_distinct_identifiers(threads: Seq<ThreadView>)
    ensures
        forall|i: int, j: int|
            0 <= i < j < normalized_threads(threads).len() ==> (
            #[trigger] normalized_threads(threads)[i]).id != (
            #[trigger] normalized_threads(threads)[j]).id,
        forall|i: int|
            0 <= i < normalized_threads(threads).len() ==> !is_blank(
                (#[trigger] normalized_threads(threads)[i]).id,
            ) && threads.contains(normalized_threads(threads)[i]),
        forall|i: int|
            0 <= i < threads.len() && !is_blank(threads[i].id) ==> lists_thread(
                normalized_threads(threads),
                (#[trigger] threads[i]).id,
            ),
    decreases threads.len(),
{
    if threads.len() > 0 {
        let rest = threads.drop_last();
        normalized_threads_have_distinct_identifiers(rest);
        let kept = normalized_threads(rest);
        let all = normalized_threads(threads);
        let last = threads.last();
        assert forall|i: int| 0 <= i < all.len() implies !is_blank((#[trigger] all[i]).id)
            && threads.contains(all[i]) by {
            if i < kept.len() {
                assert(all[i] == kept[i]);
                let k = choose|k: int| 0 <= k < rest.len() && rest[k] == kept[i];
                assert(threads[k] == kept[i]);
            } else {
                assert(threads[threads.len() - 1] == all[i]);
            }
        }
        assert forall|i: int| 0 <= i < threads.len() && !is_blank(threads[i].id) implies lists_thread(
            all,
            (#[trigger] threads[i]).id,
        ) by {
            if i < rest.len() {
                assert(rest[i] == threads[i]);
                let k = choose|k: int|
                    0 <= k < kept.len() && #[trigger] kept[k].id == threads[i].id;
                assert(all[k].id == threads[i].id);
            } else if !lists_thread(kept, last.id) {
                assert(all[all.len() - 1].id == last.id);
            }
        }
        assert forall|i: int, j: int| 0 <= i < j < all.len() implies (#[trigger] all[i]).id != (
        #[trigger] all[j]).id by {
            assert(all[i] == kept[i]);
            if j < kept.len() {
                assert(all[j] == kept[j]);
            } else {
                assert(!lists_thread(kept, last.id));
            }
        }
    }
}

proof fn lemma_normalized_when_distinct(threads: Seq<ThreadView>)
    requires
        forall|i: int, j: int|
            0 <= i < j < threads.len() ==> (#[trigger] threads[i]).id != (#[trigger] threads[j]).id,
        forall|i: int| 0 <= i < threads.len() ==> !is_blank((#[trigger] threads[i]).id),
    ensures
        normalized_threads(threads) == threads,
    decreases threads.len(),
{
    if threads.len() > 0 {
        let rest = threads.drop_last();
        assert forall|i: int, j: int| 0 <= i < j < rest.len() implies (#[trigger] rest[i]).id != (
        #[trigger] rest[j]).id by {
            assert(rest[i] == threads[i] && rest[j] == threads[j]);
        }
        assert forall|i: int| 0 <= i < rest.len() implies !is_blank((#[trigger] rest[i]).id) by {
            assert(rest[i] == threads[i]);
        }
        lemma_normalized_when_distinct(rest);
        assert(!is_blank(threads[threads.len() - 1].id));
        if lists_thread(rest, threads.last().id) {
            let k = choose|k: int|
                0 <= k < rest.len() && #[trigger] rest[k].id == threads.last().id;
            assert(threads[k].id != threads[threads.len() - 1].id);
        }
        assert(rest.push(threads.last()) =~= threads);
    }
}

/// Only conversations whose books are all allowed are offered, and each of
/// these that comes first under its identifier is.
pub proof fn offered_threads_are_the_authorized_ones(
    threads: Seq<ThreadView>,
    allowed: Seq<Seq<char>>,
)
    ensures
        forall|thread: ThreadView| #[trigger]
            authorized_threads(threads, allowed).contains(thread) <==> normalized_threads(
                threads,
            ).contains(thread) && is_authorized(thread, allowed),
        normalized_threads(authorized_threads(threads, allowed)) == authorized_threads(
            threads,
            allowed,
        ),
{
    let listed = normalized_threads(threads);
    let keep = authorized_by(allowed);
    lemma_filter_elements(listed, keep);
    normalized_threads_have_distinct_identifiers(threads);
    assert(listed.no_duplicates()) by {
        assert forall|i: int, j: int|
            0 <= i < listed.len() && 0 <= j < listed.len() && i != j implies listed[i]
            != listed[j] by {
            if i < j {
                assert(listed[i].id != listed[j].id);
            } else {
                assert(listed[j].id != listed[i].id);
            }
        }
    }
    lemma_filter_no_duplicates(listed, keep);
    let kept = listed.filter(keep);
    assert forall|i: int, j: int| 0 <= i < j < kept.len() implies (#[trigger] kept[i]).id != (
    #[trigger] kept[j]).id by {
        assert(listed.contains(kept[i]) && listed.contains(kept[j]));
        let a = choose|a: int| 0 <= a < listed.len() && listed[a] == kept[i];
        let b = choose|b: int| 0 <= b < listed.len() && listed[b] == kept[j];
        assert(kept[i] != kept[j]);
        if a < b {
            assert(listed[a].id != listed[b].id);
        } else {
            assert(listed[b].id != listed[a].id);
        }
    }
    assert forall|i: int| 0 <= i < kept.len() implies !is_blank((#[trigger] kept[i]).id) by {
        assert(listed.contains(kept[i]));
        let a = choose|a: int| 0 <= a < listed.len() && listed[a] == kept[i];
        assert(!is_blank(listed[a].id));
    }
    lemma_normalized_when_distinct(kept);
}

/// Every operation leaves the list well formed, and a started or finished one
/// leaves no deletion waiting for its confirmation.
pub proof fn session_operations_keep_the_list_well_formed(
    sessions: SessionsView,
    active: Option<Seq<char>>,
    threads: Seq<ThreadView>,
    error: Seq<char>,
)
    requires
        sessions.wf(),
    ensures
        SessionsView::initial().wf(),
        sessions.begun().wf(),
        sessions.applied(active, threads).wf(),
        sessions.refreshed(active, threads).wf(),
        sessions.failed(error).wf(),
        !sessions.busy ==> sessions.begun().pending_delete is None,
        sessions.applied(active, threads).pending_delete is None,
        sessions.refreshed(active, threads).pending_delete is None,
{
    normalized_threads_have_distinct_identifiers(threads);
    lemma_normalized_when_distinct(normalized_threads(threads));
}

/// After a failure the same conversation is open as before the operation, and
/// another operation may start.
pub proof fn a_failed_operation_keeps_the_open_conversation(
    sessions: SessionsView,
    error: Seq<char>,
)
    ensures
        sessions.begun().failed(error).active == sessions.active,
        sessions.begun().failed(error).active_title() == sessions.active_title(),
        !sessions.begun().failed(error).busy,
        sessions.begun().failed(error).error == Some(error),
{
}

} // verus!
