//! What the references of a question come to: which are refused, and what the
//! snapshots hold that are sent.

use crate::document::{
    the_first_unit_with_an_identifier_is_found, the_first_value_of_a_key_is_found, DocumentView,
    UnitView,
};
use crate::reference_freeze::{
    checked_references, explanation_error, filled, frozen_snapshot, lemma_next_unfrozen,
    lemma_skipped_are_frozen, matching_reference, merged_references, next_unfrozen, payload_error,
    request_error, resolved, snapshot_bytes, FreezeView, SnapshotView,
};
use crate::references::{has_key, HintView};
use crate::text::{byte_len, is_blank};
use vstd::prelude::*;

verus! {

/// Whether a unit is the first one of a document that has an identifier.
pub open spec fn is_first_unit(units: Seq<UnitView>, id: Seq<char>, at: int) -> bool {
    &&& 0 <= at < units.len()
    &&& units[at].id == id
    &&& forall|k: int| 0 <= k < at ==> (#[trigger] units[k]).id != id
}

/// The snapshot of a reference holds the text and the revision of the unit that
/// the reference names, in the document that was read, and the place that the
/// reference records; the size grows by that of the text and keeps within 96 KiB.
pub proof fn a_snapshot_holds_the_text_of_its_unit(
    document: DocumentView,
    reference: HintView,
    bytes: nat,
)
    requires
        resolved(document, reference, bytes) is Ok,
    ensures
        ({
            let (snapshot, total) = resolved(document, reference, bytes)->Ok_0;
            &&& snapshot.book_id == reference.book_id
            &&& snapshot.unit_id == reference.unit_id
            &&& snapshot.locator == reference.locator
            &&& exists|at: int|
                is_first_unit(document.units, reference.unit_id, at) && snapshot.text
                    == (#[trigger] document.units[at]).text && snapshot.revision
                    == document.units[at].revision.value
            &&& total == bytes + byte_len(snapshot.text)
            &&& total <= 96 * 1024
        }),
{
    let at = crate::document::unit_position(document.units, reference.unit_id)->0;
    the_first_unit_with_an_identifier_is_found(document.units, reference.unit_id, at);
    assert(document.units[at].id == reference.unit_id);
}

/// A reference is frozen exactly where its unit exists, the place and the revision
/// that it names are those of the unit, the document does not refuse its locator,
/// the locator's source is the unit's, and the text fits within 96 KiB with what
/// there is.
pub proof fn a_reference_is_frozen_where_it_still_holds(
    document: DocumentView,
    reference: HintView,
    bytes: nat,
    at: int,
)
    requires
        is_first_unit(document.units, reference.unit_id, at),
    ensures
        resolved(document, reference, bytes) is Ok <==> {
            let unit = document.units[at];
            &&& reference.unit_index is Some ==> reference.unit_index->0 < document.units.len()
                && document.units[reference.unit_index->0 as int].id == reference.unit_id
            &&& reference.revision is Some ==> reference.revision->0 == unit.revision.value
            &&& reference.locator is Some ==> (forall|k: int|
                0 <= k < document.refused.len() ==> (#[trigger] document.refused[k]).0
                    != reference.locator->0)
            &&& reference.locator is Some && reference.locator->0.source is Some
                ==> reference.locator->0.source == unit.source_locator
            &&& bytes + byte_len(unit.text) <= 96 * 1024
        },
{
    the_first_unit_with_an_identifier_is_found(document.units, reference.unit_id, at);
    if reference.locator is Some {
        the_first_value_of_a_key_is_found(document.refused, reference.locator->0);
    }
}

/// A reference to a unit that the document does not have is refused, and so is one
/// whose unit stands at another place or has another revision; each refusal says
/// what is wrong.
pub proof fn a_reference_that_does_not_hold_is_refused(
    document: DocumentView,
    reference: HintView,
    bytes: nat,
    at: int,
)
    ensures
        (forall|k: int|
            0 <= k < document.units.len() ==> (#[trigger] document.units[k]).id
                != reference.unit_id) ==> resolved(document, reference, bytes) == Err::<
            (SnapshotView, nat),
            Seq<char>,
        >("引用的章节或页面已不存在"@),
        is_first_unit(document.units, reference.unit_id, at) ==> {
            let unit = document.units[at];
            let refused = |error: Seq<char>|
                resolved(document, reference, bytes) == Err::<(SnapshotView, nat), Seq<char>>(error);
            let placed = reference.unit_index is Some ==> reference.unit_index->0
                < document.units.len() && document.units[reference.unit_index->0 as int].id
                == reference.unit_id;
            &&& reference.unit_index is Some && reference.unit_index->0 >= document.units.len()
                ==> refused("引用的内容单元序号已失效"@)
            &&& reference.unit_index is Some && reference.unit_index->0 < document.units.len()
                && document.units[reference.unit_index->0 as int].id != reference.unit_id
                ==> refused("引用的内容单元 ID 与序号不一致"@)
            &&& placed && reference.revision is Some && reference.revision->0
                != unit.revision.value ==> refused("引用的内容单元版本已失效"@)
        },
{
    the_first_unit_with_an_identifier_is_found(document.units, reference.unit_id, at);
}

/// A question with these documents read one after the other, each for the next
/// reference without a text; nothing where one of them is refused or none is asked
/// for.
pub open spec fn after_reading(references: Seq<HintView>, documents: Seq<DocumentView>) -> Option<
    FreezeView,
>
    decreases documents.len(),
{
    if documents.len() == 0 {
        Some(FreezeView::started(references))
    } else {
        match after_reading(references, documents.drop_last()) {
            None => None,
            Some(freeze) => match freeze.next_snapshot(Ok(documents.last())) {
                Ok((snapshot, bytes)) => if freeze.next < references.len() {
                    Some(freeze.advanced(snapshot, bytes))
                } else {
                    None
                },
                Err(_) => None,
            },
        }
    }
}

/// The test for references that came without a text.
pub open spec fn without_text() -> spec_fn(HintView) -> bool {
    |reference: HintView| reference.frozen_text is None
}

/// How many of the references before a place came without a text: which of the
/// documents that are read is that of the reference at the place.
pub open spec fn turn(references: Seq<HintView>, i: int) -> int {
    references.subrange(0, i).filter(without_text()).len() as int
}

/// Whether a slot holds the text of a document's unit, for its reference.
pub open spec fn is_read_from(
    slot: Option<SnapshotView>,
    reference: HintView,
    document: DocumentView,
) -> bool {
    &&& slot is Some
    &&& slot->0.book_id == reference.book_id
    &&& slot->0.unit_id == reference.unit_id
    &&& slot->0.locator == reference.locator
    &&& exists|at: int|
        is_first_unit(document.units, reference.unit_id, at) && slot->0.text == (
        #[trigger] document.units[at]).text && slot->0.revision == document.units[at].revision.value
}

proof fn lemma_turn(references: Seq<HintView>, from: int, to: int)
    requires
        0 <= from <= to <= references.len(),
    ensures
        turn(references, from) <= turn(references, to),
        (forall|i: int| from <= i < to ==> (#[trigger] references[i]).frozen_text is Some) ==> turn(
            references,
            from,
        ) == turn(references, to),
        from < to && references[from].frozen_text is None ==> turn(references, from) < turn(
            references,
            to,
        ),
    decreases to - from,
{
    if from < to {
        crate::seqs::lemma_filter_step(references, without_text(), to - 1);
        lemma_turn(references, from, to - 1);
        if forall|i: int| from <= i < to ==> (#[trigger] references[i]).frozen_text is Some {
            assert(references[to - 1].frozen_text is Some);
        }
    }
}

/// Each document that is read gives its text to one reference without a text, in
/// the order of the references: the first one to the first, and so on. The
/// snapshot of such a reference holds the text and the revision of the unit that
/// the reference names, in its own document. A reference that came with a text
/// has exactly that text, with the revision that it names, or none where the text
/// is blank; it takes no document.
pub proof fn every_reference_is_sent_with_its_own_text(
    references: Seq<HintView>,
    documents: Seq<DocumentView>,
)
    requires
        after_reading(references, documents) is Some,
    ensures
        ({
            let freeze = after_reading(references, documents)->0;
            &&& freeze.references == references
            &&& freeze.slots.len() == references.len()
            &&& 0 <= freeze.next <= references.len()
            &&& freeze.next < references.len() ==> references[freeze.next].frozen_text is None
            &&& turn(references, freeze.next) == documents.len()
            &&& forall|i: int|
                #![trigger freeze.slots[i]]
                #![trigger references[i]]
                0 <= i < freeze.next && references[i].frozen_text is None ==> 0 <= turn(
                    references,
                    i,
                ) < documents.len() && is_read_from(
                    freeze.slots[i],
                    references[i],
                    documents[turn(references, i)],
                )
            &&& forall|i: int|
                #![trigger freeze.slots[i]]
                #![trigger references[i]]
                freeze.next <= i < references.len() && references[i].frozen_text is None
                    ==> freeze.slots[i] is None
            &&& forall|i: int|
                #![trigger freeze.slots[i]]
                #![trigger references[i]]
                0 <= i < references.len() && references[i].frozen_text is Some ==> match (
                freeze.slots[i]) {
                    Some(snapshot) => !is_blank(references[i].frozen_text->0) && snapshot.text
                        == references[i].frozen_text->0 && snapshot.book_id
                        == references[i].book_id && snapshot.unit_id == references[i].unit_id
                        && snapshot.locator == references[i].locator && snapshot.revision == (
                    if references[i].revision is Some {
                        references[i].revision->0
                    } else {
                        0
                    }),
                    None => is_blank(references[i].frozen_text->0),
                }
        }),
    decreases documents.len(),
{
    if documents.len() == 0 {
        lemma_next_unfrozen(references, 0);
        lemma_skipped_are_frozen(references, 0);
        lemma_turn(references, 0, next_unfrozen(references, 0));
        crate::seqs::lemma_filter_ends(references, without_text());
        let freeze = after_reading(references, documents)->0;
        assert forall|i: int|
            #![trigger freeze.slots[i]]
            #![trigger references[i]]
            0 <= i < freeze.next && references[i].frozen_text is None implies 0 <= turn(
            references,
            i,
        ) < documents.len() && is_read_from(
            freeze.slots[i],
            references[i],
            documents[turn(references, i)],
        ) by {
            assert(references[i].frozen_text is Some);
        }
    } else {
        let fewer = documents.drop_last();
        every_reference_is_sent_with_its_own_text(references, fewer);
        let before = after_reading(references, fewer)->0;
        let freeze = after_reading(references, documents)->0;
        let at = before.next;
        lemma_next_unfrozen(references, at + 1);
        lemma_skipped_are_frozen(references, at + 1);
        lemma_turn(references, at + 1, freeze.next);
        crate::seqs::lemma_filter_step(references, without_text(), at);
        a_snapshot_holds_the_text_of_its_unit(documents.last(), references[at], before.bytes);
        assert forall|i: int|
            #![trigger freeze.slots[i]]
            #![trigger references[i]]
            0 <= i < freeze.next && references[i].frozen_text is None implies 0 <= turn(
            references,
            i,
        ) < documents.len() && is_read_from(
            freeze.slots[i],
            references[i],
            documents[turn(references, i)],
        ) by {
            if i < at {
                assert(freeze.slots[i] == before.slots[i]);
                assert(fewer[turn(references, i)] == documents[turn(references, i)]);
            } else if i > at {
                assert(references[i].frozen_text is Some);
            } else {
                assert(documents[turn(references, i)] == documents.last());
            }
        }
        assert forall|i: int|
            #![trigger freeze.slots[i]]
            #![trigger references[i]]
            freeze.next <= i < references.len() && references[i].frozen_text is None implies
            freeze.slots[i] is None by {
            assert(freeze.slots[i] == before.slots[i]);
        }
        assert forall|i: int|
            #![trigger freeze.slots[i]]
            #![trigger references[i]]
            0 <= i < references.len() && references[i].frozen_text is Some implies freeze.slots[i]
            == before.slots[i] by {}
    }
}

/// The test for slots that hold a snapshot.
pub open spec fn holds_snapshot() -> spec_fn(Option<SnapshotView>) -> bool {
    |slot: Option<SnapshotView>| slot is Some
}

/// What is sent are the snapshots of the slots that hold one, all of them, in the
/// order of the slots.
pub proof fn all_snapshots_are_sent_in_order(slots: Seq<Option<SnapshotView>>)
    ensures
        filled(slots).len() == slots.filter(holds_snapshot()).len(),
        forall|i: int|
            0 <= i < filled(slots).len() ==> Some(#[trigger] filled(slots)[i]) == slots.filter(
                holds_snapshot(),
            )[i],
    decreases slots.len(),
{
    reveal(Seq::filter);
    if slots.len() > 0 {
        let fewer = slots.drop_last();
        all_snapshots_are_sent_in_order(fewer);
        assert forall|i: int| 0 <= i < filled(slots).len() implies Some(#[trigger] filled(slots)[i])
            == slots.filter(holds_snapshot())[i] by {
            if i < filled(fewer).len() {
                assert(filled(slots)[i] == filled(fewer)[i]);
            }
        }
    }
}

// ---------------------------------------------------------------------------
// What is refused
// ---------------------------------------------------------------------------

/// The bytes of all texts that came with references.
pub open spec fn bytes_that_came(references: Seq<HintView>) -> nat {
    references.fold_left(
        0nat,
        |sum: nat, reference: HintView|
            if reference.frozen_text is Some {
                sum + byte_len(reference.frozen_text->0)
            } else {
                sum
            },
    )
}

/// The bytes of the texts of all snapshots.
pub open spec fn bytes_of_snapshots(snapshots: Seq<SnapshotView>) -> nat {
    snapshots.fold_left(0nat, |sum: nat, snapshot: SnapshotView| sum + byte_len(snapshot.text))
}

/// Whether a reference names a place that can be sent: a well-formed one in its own
/// unit, and no page that was only rendered for a preview.
pub open spec fn names_valid_place(reference: HintView) -> bool {
    reference.locator is Some ==> reference.locator->0.shape_error is None
        && reference.locator->0.book_id == reference.book_id && reference.locator->0.unit_id
        == reference.unit_id && !(reference.locator->0.source is Some
        && reference.locator->0.source->0 is OfficeRenderedPage)
}

proof fn lemma_checked(allowed: Seq<Seq<char>>, references: Seq<HintView>)
    ensures
        checked_references(allowed, references) is Ok ==> checked_references(
            allowed,
            references,
        )->Ok_0 == bytes_that_came(references) && bytes_that_came(references) <= 96 * 1024,
        checked_references(allowed, references) is Ok <==> {
            &&& bytes_that_came(references) <= 96 * 1024
            &&& forall|i: int|
                0 <= i < references.len() ==> allowed.contains((#[trigger] references[i]).book_id)
                    && names_valid_place(references[i])
            &&& forall|i: int, j: int|
                0 <= i < j < references.len() ==> !((#[trigger] references[i]).book_id == (
                #[trigger] references[j]).book_id && references[i].unit_id == references[j].unit_id
                    && references[i].locator == references[j].locator)
        },
    decreases references.len(),
{
    reveal(Seq::fold_left);
    if references.len() > 0 {
        let before = references.drop_last();
        let last = references.last();
        lemma_checked(allowed, before);
        assert forall|i: int| 0 <= i < before.len() implies #[trigger] before[i]
            == references[i] by {}
        assert(last == references[references.len() - 1]);
        if has_key(before, last.key()) {
            let k = choose|k: int| 0 <= k < before.len() && (#[trigger] before[k]).key()
                == last.key();
            assert(references[k].key() == last.key());
        }
        if checked_references(allowed, references) is Ok {
            assert forall|i: int, j: int| 0 <= i < j < references.len() implies !((
            #[trigger] references[i]).book_id == (#[trigger] references[j]).book_id
                && references[i].unit_id == references[j].unit_id && references[i].locator
                == references[j].locator) by {
                assert(before[i] == references[i]);
                if j < before.len() {
                    assert(before[j] == references[j]);
                } else {
                    assert(before[i].key() != last.key());
                }
            }
            assert forall|i: int| 0 <= i < references.len() implies allowed.contains(
                (#[trigger] references[i]).book_id,
            ) && names_valid_place(references[i]) by {
                if i < before.len() {
                    assert(before[i] == references[i]);
                }
            }
        } else {
            if (forall|i: int|
                0 <= i < references.len() ==> allowed.contains((#[trigger] references[i]).book_id)
                    && names_valid_place(references[i])) && (forall|i: int, j: int|
                0 <= i < j < references.len() ==> !((#[trigger] references[i]).book_id == (
                #[trigger] references[j]).book_id && references[i].unit_id == references[j].unit_id
                    && references[i].locator == references[j].locator)) {
                assert(!has_key(before, last.key()));
                assert(allowed.contains(last.book_id) && names_valid_place(last));
            }
        }
    }
}

/// The references of a question are accepted exactly where there are no more than
/// 16, all of them in allowed books and with valid places, none twice, and the
/// texts that came with them take no more than 96 KiB together.
pub proof fn references_are_accepted_within_the_limits(
    allowed: Seq<Seq<char>>,
    references: Seq<HintView>,
)
    ensures
        request_error(allowed, references) is None <==> {
            &&& references.len() <= 16
            &&& bytes_that_came(references) <= 96 * 1024
            &&& forall|i: int|
                0 <= i < references.len() ==> allowed.contains((#[trigger] references[i]).book_id)
                    && names_valid_place(references[i])
            &&& forall|i: int, j: int|
                0 <= i < j < references.len() ==> !((#[trigger] references[i]).book_id == (
                #[trigger] references[j]).book_id && references[i].unit_id == references[j].unit_id
                    && references[i].locator == references[j].locator)
        },
{
    lemma_checked(allowed, references);
}

proof fn lemma_snapshot_bytes(snapshots: Seq<SnapshotView>)
    ensures
        snapshot_bytes(snapshots) is Ok <==> bytes_of_snapshots(snapshots) <= 96 * 1024,
        snapshot_bytes(snapshots) is Ok ==> snapshot_bytes(snapshots)->Ok_0 == bytes_of_snapshots(
            snapshots,
        ),
    decreases snapshots.len(),
{
    reveal(Seq::fold_left);
    if snapshots.len() > 0 {
        lemma_snapshot_bytes(snapshots.drop_last());
    }
}

/// Snapshots are accepted exactly where there are no more than 16, and both their
/// texts and what is sent of them take no more than 96 KiB.
pub proof fn snapshots_are_accepted_within_the_limits(
    snapshots: Seq<SnapshotView>,
    encoded_bytes: Option<usize>,
)
    ensures
        payload_error(snapshots, encoded_bytes) is None <==> snapshots.len() <= 16
            && bytes_of_snapshots(snapshots) <= 96 * 1024 && encoded_bytes is Some
            && encoded_bytes->0 <= 96 * 1024,
{
    lemma_snapshot_bytes(snapshots);
}

/// An explanation is asked for exactly where the selection lies in an allowed book,
/// has a valid place and a text that is not blank, and neither the text nor what is
/// sent of it takes more than 96 KiB.
pub proof fn a_selection_can_be_explained_within_the_limits(
    reference: HintView,
    allowed: Seq<Seq<char>>,
    encoded_bytes: Option<usize>,
)
    ensures
        explanation_error(reference, allowed, encoded_bytes) is None <==> {
            &&& allowed.contains(reference.book_id)
            &&& names_valid_place(reference)
            &&& reference.frozen_text is Some
            &&& !is_blank(reference.frozen_text->0)
            &&& byte_len(reference.frozen_text->0) <= 96 * 1024
            &&& encoded_bytes is Some
            &&& encoded_bytes->0 <= 96 * 1024
        },
{
    reveal(Seq::fold_left);
    let one = seq![reference];
    references_are_accepted_within_the_limits(allowed, one);
    assert(one[0] == reference);
    assert(one.drop_last() =~= Seq::<HintView>::empty());
    assert(bytes_that_came(one) == (if reference.frozen_text is Some {
        byte_len(reference.frozen_text->0)
    } else {
        0
    })) by {
        assert(bytes_that_came(one.drop_last()) == 0);
    }
    let sent = seq![frozen_snapshot(reference)];
    snapshots_are_accepted_within_the_limits(sent, encoded_bytes);
    assert(sent.drop_last() =~= Seq::<SnapshotView>::empty());
    assert(bytes_of_snapshots(sent.drop_last()) == 0);
    assert(bytes_of_snapshots(sent) == byte_len(frozen_snapshot(reference).text));
}

// ---------------------------------------------------------------------------
// What an editor has frozen anew
// ---------------------------------------------------------------------------

proof fn lemma_matching_is_first(references: Seq<HintView>, editor: HintView)
    ensures
        match matching_reference(references, editor) {
            Some(at) => 0 <= at < references.len() && references[at].book_id == editor.book_id
                && references[at].unit_id == editor.unit_id && forall|k: int|
                0 <= k < at ==> !((#[trigger] references[k]).book_id == editor.book_id
                    && references[k].unit_id == editor.unit_id),
            None => forall|k: int|
                0 <= k < references.len() ==> !((#[trigger] references[k]).book_id
                    == editor.book_id && references[k].unit_id == editor.unit_id),
        },
    decreases references.len(),
{
    if references.len() > 0 && !(references[0].book_id == editor.book_id && references[0].unit_id
        == editor.unit_id) {
        let rest = references.drop_first();
        lemma_matching_is_first(rest, editor);
        assert forall|k: int| 1 <= k < references.len() implies #[trigger] references[k] == rest[k
            - 1] by {}
    }
}

/// What an editor has frozen anew takes the place of the first reference about the
/// same unit of the same book; all others stay, and without such a reference
/// nothing changes.
pub proof fn the_editor_replaces_the_reference_to_its_unit(
    references: Seq<HintView>,
    editor: HintView,
    i: int,
)
    requires
        0 <= i < references.len(),
    ensures
        merged_references(references, None) == references,
        merged_references(references, Some(editor)).len() == references.len(),
        merged_references(references, Some(editor))[i] == (if references[i].book_id
            == editor.book_id && references[i].unit_id == editor.unit_id && (forall|k: int|
            0 <= k < i ==> !((#[trigger] references[k]).book_id == editor.book_id
                && references[k].unit_id == editor.unit_id)) {
            editor
        } else {
            references[i]
        }),
{
    lemma_matching_is_first(references, editor);
}

} // verus!
