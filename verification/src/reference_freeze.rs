//! The references of a question, frozen to the text that they stand for.

use crate::document::{
    copy_locator, lookup, same_source, unit_position, BookDocument, ContentUnit, DocumentLocator,
    DocumentView, LocatorView, SourceLocator, UnitView,
};
use crate::conversation::MAX_SELECTED_REFERENCES;
use crate::references::{
    has_key, hint_views, list_has_key, reference_key, AiReferenceHint, HintView,
};
use crate::text::{blank, byte_len, byte_length, decimal, list_has, push_decimal, same_text, texts};
use vstd::prelude::*;
use vstd::string::*;

verus! {

/// The most bytes that all references of a question may take together.
pub const MAX_REFERENCE_TOTAL_BYTES: usize = 98304;

/// The same in KiB.
pub const MAX_REFERENCE_TOTAL_KIB: usize = 96;

/// Why too many references were refused.
pub open spec fn too_many_references() -> Seq<char> {
    "一次最多引用 "@ + decimal(MAX_SELECTED_REFERENCES as nat) + " 个章节或页面"@
}

fn too_many_references_text() -> (r: String)
    ensures
        r@ == too_many_references(),
{
    let mut text = "一次最多引用 ".to_owned();
    push_decimal(&mut text, MAX_SELECTED_REFERENCES as u128);
    text.push_str(" 个章节或页面");
    text
}

/// The size of all references with one more; or why it is refused.
pub open spec fn added_bytes(current: nat, additional: nat) -> Result<nat, Seq<char>> {
    if current + additional > usize::MAX {
        Err("引用内容大小溢出"@)
    } else if current + additional > MAX_REFERENCE_TOTAL_BYTES {
        Err("所选引用内容总大小超过 "@ + decimal(MAX_REFERENCE_TOTAL_KIB as nat) + " KiB"@)
    } else {
        Ok(current + additional)
    }
}

/// The size of all references with one more; or why it is refused.
pub fn checked_reference_bytes(current: usize, additional: usize) -> (r: Result<usize, String>)
    ensures
        match r {
            Ok(total) => added_bytes(current as nat, additional as nat) == Ok::<nat, Seq<char>>(
                total as nat,
            ),
            Err(error) => added_bytes(current as nat, additional as nat) == Err::<nat, Seq<char>>(
                error@,
            ),
        },
{
    if additional > usize::MAX - current {
        return Err("引用内容大小溢出".to_owned());
    }
    let total: usize = current + additional;
    if total > MAX_REFERENCE_TOTAL_BYTES {
        let mut text = "所选引用内容总大小超过 ".to_owned();
        push_decimal(&mut text, MAX_REFERENCE_TOTAL_KIB as u128);
        text.push_str(" KiB");
        return Err(text);
    }
    Ok(total)
}

/// Why the place of a reference is refused, if it is.
pub open spec fn locator_error(reference: HintView) -> Option<Seq<char>> {
    match reference.locator {
        None => None,
        Some(locator) => match locator.shape_error {
            Some(cause) => Some("引用定位信息无效: "@ + cause),
            None => if locator.book_id != reference.book_id || locator.unit_id
                != reference.unit_id {
                Some("引用定位与图书或内容单元不一致"@)
            } else if locator.source is Some && locator.source->0 is OfficeRenderedPage {
                Some("Office 增强预览页是可重建派生数据，不能作为 AI 引用定位"@)
            } else {
                None
            },
        },
    }
}

/// Tests the place of a reference.
pub fn validate_reference_locator(reference: &AiReferenceHint) -> (r: Result<(), String>)
    ensures
        match r {
            Ok(()) => locator_error(reference@) is None,
            Err(error) => locator_error(reference@) == Some(error@),
        },
{
    let locator = match &reference.locator {
        None => {
            return Ok(());
        },
        Some(locator) => locator,
    };
    if let Some(cause) = &locator.shape_error {
        let mut text = "引用定位信息无效: ".to_owned();
        text.push_str(cause.as_str());
        return Err(text);
    }
    if !same_text(locator.book_id.as_str(), reference.book_id.as_str()) || !same_text(
        locator.unit_id.as_str(),
        reference.unit_id.as_str(),
    ) {
        return Err("引用定位与图书或内容单元不一致".to_owned());
    }
    if let Some(SourceLocator::OfficeRenderedPage { page }) = &locator.source {
        return Err("Office 增强预览页是可重建派生数据，不能作为 AI 引用定位".to_owned());
    }
    Ok(())
}

/// The size of the frozen texts of references, one after the other; or why the
/// first that is refused is.
pub open spec fn checked_references(
    allowed: Seq<Seq<char>>,
    references: Seq<HintView>,
) -> Result<nat, Seq<char>>
    decreases references.len(),
{
    if references.len() == 0 {
        Ok(0)
    } else {
        let before = references.drop_last();
        let last = references.last();
        match checked_references(allowed, before) {
            Err(error) => Err(error),
            Ok(bytes) => if !allowed.contains(last.book_id) {
                Err("引用的图书已不在当前窗口授权范围内"@)
            } else {
                match locator_error(last) {
                    Some(error) => Err(error),
                    None => if has_key(before, last.key()) {
                        Err("引用列表包含重复的章节或页面"@)
                    } else {
                        match last.frozen_text {
                            Some(text) => added_bytes(bytes, byte_len(text)),
                            None => Ok(bytes),
                        }
                    },
                }
            },
        }
    }
}

/// Why the references of a question are refused, if they are.
pub open spec fn request_error(allowed: Seq<Seq<char>>, references: Seq<HintView>) -> Option<
    Seq<char>,
> {
    if references.len() > MAX_SELECTED_REFERENCES {
        Some(too_many_references())
    } else {
        match checked_references(allowed, references) {
            Ok(_) => None,
            Err(error) => Some(error),
        }
    }
}

proof fn lemma_first_error_stands(
    allowed: Seq<Seq<char>>,
    references: Seq<HintView>,
    k: int,
)
    requires
        0 <= k <= references.len(),
        checked_references(allowed, references.subrange(0, k)) is Err,
    ensures
        checked_references(allowed, references) == checked_references(
            allowed,
            references.subrange(0, k),
        ),
    decreases references.len() - k,
{
    if k == references.len() {
        assert(references.subrange(0, k) =~= references);
    } else {
        assert(references.subrange(0, k + 1).drop_last() =~= references.subrange(0, k));
        lemma_first_error_stands(allowed, references, k + 1);
    }
}

/// Tests the references of a question: their number, their books and places,
/// that none stands twice, and the size of the texts that are frozen already.
pub fn validate_reference_request(
    references: &Vec<AiReferenceHint>,
    allowed_book_ids: &Vec<String>,
) -> (r: Result<(), String>)
    ensures
        match r {
            Ok(()) => request_error(texts(allowed_book_ids@), hint_views(references@)) is None,
            Err(error) => request_error(texts(allowed_book_ids@), hint_views(references@)) == Some(
                error@,
            ),
        },
{
    let ghost all = hint_views(references@);
    let ghost allowed = texts(allowed_book_ids@);
    assert(all.len() == references@.len());
    if references.len() > MAX_SELECTED_REFERENCES {
        return Err(too_many_references_text());
    }
    let mut seen: Vec<AiReferenceHint> = Vec::new();
    let mut frozen_bytes: usize = 0;
    let mut i: usize = 0;
    assert(all.subrange(0, 0) =~= Seq::<HintView>::empty());
    assert(hint_views(seen@) =~= all.subrange(0, 0));
    while i < references.len()
        invariant
            i <= references@.len() <= MAX_SELECTED_REFERENCES,
            all == hint_views(references@),
            allowed == texts(allowed_book_ids@),
            hint_views(seen@) == all.subrange(0, i as int),
            checked_references(allowed, all.subrange(0, i as int)) == Ok::<nat, Seq<char>>(
                frozen_bytes as nat,
            ),
        decreases references@.len() - i,
    {
        let reference = &references[i];
        proof {
            assert(all.subrange(0, i + 1).drop_last() =~= all.subrange(0, i as int));
            assert(all.subrange(0, i + 1).last() == reference@);
            if checked_references(allowed, all.subrange(0, i + 1)) is Err {
                lemma_first_error_stands(allowed, all, i + 1);
            }
        }
        if !list_has(allowed_book_ids, reference.book_id.as_str()) {
            return Err("引用的图书已不在当前窗口授权范围内".to_owned());
        }
        if let Err(error) = validate_reference_locator(reference) {
            return Err(error);
        }
        if list_has_key(&seen, &reference_key(reference)) {
            return Err("引用列表包含重复的章节或页面".to_owned());
        }
        if let Some(text) = &reference.frozen_text {
            match checked_reference_bytes(frozen_bytes, byte_length(text.as_str())) {
                Ok(total) => {
                    frozen_bytes = total;
                },
                Err(error) => {
                    return Err(error);
                },
            }
        }
        let ghost had = seen@;
        let copy = reference.clone();
        seen.push(copy);
        i = i + 1;
        assert(hint_views(seen@) =~= hint_views(had).push(copy@));
        assert(hint_views(seen@) =~= all.subrange(0, i as int));
    }
    assert(all.subrange(0, all.len() as int) =~= all);
    Ok(())
}

/// The references of a question, with the one that an editor has frozen anew in
/// the place of the first that is about the same unit.
pub open spec fn merged_references(
    references: Seq<HintView>,
    editor: Option<HintView>,
) -> Seq<HintView> {
    match editor {
        None => references,
        Some(editor) => match matching_reference(references, editor) {
            Some(at) => references.update(at, editor),
            None => references,
        },
    }
}

/// The place of the first reference about the same unit.
pub open spec fn matching_reference(references: Seq<HintView>, editor: HintView) -> Option<int>
    decreases references.len(),
{
    if references.len() == 0 {
        None
    } else if references[0].book_id == editor.book_id && references[0].unit_id == editor.unit_id {
        Some(0)
    } else {
        match matching_reference(references.drop_first(), editor) {
            Some(at) => Some(at + 1),
            None => None,
        }
    }
}

/// The references of a question, with the one that an editor has frozen anew. A
/// reference to anything else is not taken in.
pub fn merge_editor_reference(
    references: Vec<AiReferenceHint>,
    editor_reference: Option<AiReferenceHint>,
) -> (r: Vec<AiReferenceHint>)
    ensures
        hint_views(r@) == merged_references(
            hint_views(references@),
            match editor_reference {
                Some(reference) => Some(reference@),
                None => None,
            },
        ),
{
    let editor = match editor_reference {
        None => {
            return references;
        },
        Some(editor) => editor,
    };
    let mut merged = references;
    let ghost all = hint_views(merged@);
    let mut i: usize = 0;
    assert(all.subrange(0, all.len() as int) =~= all);
    while i < merged.len()
        invariant
            i <= merged@.len(),
            all == hint_views(merged@),
            all == hint_views(references@),
            editor_reference matches Some(wanted) && wanted@ == editor@,
            match matching_reference(all.subrange(i as int, all.len() as int), editor@) {
                Some(at) => matching_reference(all, editor@) == Some(i + at),
                None => matching_reference(all, editor@) is None,
            },
        decreases merged@.len() - i,
    {
        let ghost here = all.subrange(i as int, all.len() as int);
        proof {
            assert(here[0] == merged@[i as int]@);
            assert(here.drop_first() =~= all.subrange(i + 1, all.len() as int));
        }
        if same_text(merged[i].book_id.as_str(), editor.book_id.as_str()) && same_text(
            merged[i].unit_id.as_str(),
            editor.unit_id.as_str(),
        ) {
            let ghost before = merged@;
            merged.set(i, editor);
            assert(hint_views(merged@) =~= hint_views(before).update(i as int, editor@));
            return merged;
        }
        i = i + 1;
    }
    merged
}

/// A passage, frozen to its text.
#[derive(Debug, PartialEq, Eq)]
pub struct SelectionSnapshot {
    pub book_id: String,
    pub unit_id: String,
    pub revision: u64,
    pub text: String,
    pub locator: Option<DocumentLocator>,
}

/// A passage frozen to its text, as texts.
pub struct SnapshotView {
    pub book_id: Seq<char>,
    pub unit_id: Seq<char>,
    pub revision: u64,
    pub text: Seq<char>,
    pub locator: Option<LocatorView>,
}

impl View for SelectionSnapshot {
    type V = SnapshotView;

    open spec fn view(&self) -> SnapshotView {
        SnapshotView {
            book_id: self.book_id@,
            unit_id: self.unit_id@,
            revision: self.revision,
            text: self.text@,
            locator: crate::document::locator_view(self.locator),
        }
    }
}

/// The snapshots that a list holds.
pub open spec fn snapshot_views(snapshots: Seq<SelectionSnapshot>) -> Seq<SnapshotView> {
    snapshots.map_values(|s: SelectionSnapshot| s@)
}

/// The snapshot of a reference whose text is frozen already.
pub open spec fn frozen_snapshot(reference: HintView) -> SnapshotView {
    SnapshotView {
        book_id: reference.book_id,
        unit_id: reference.unit_id,
        revision: match reference.revision {
            Some(revision) => revision,
            None => 0,
        },
        text: reference.frozen_text->0,
        locator: reference.locator,
    }
}

/// The snapshot of a reference whose text is frozen already and not blank.
pub fn capture_frozen_reference(reference: &AiReferenceHint) -> (r: Option<SelectionSnapshot>)
    ensures
        match r {
            Some(snapshot) => reference@.is_frozen() && snapshot@ == frozen_snapshot(reference@),
            None => !reference@.is_frozen(),
        },
{
    match &reference.frozen_text {
        None => None,
        Some(text) => if blank(text.as_str()) {
            None
        } else {
            Some(
                SelectionSnapshot {
                    book_id: reference.book_id.clone(),
                    unit_id: reference.unit_id.clone(),
                    revision: match reference.revision {
                        Some(revision) => revision,
                        None => 0,
                    },
                    text: text.clone(),
                    locator: copy_locator(&reference.locator),
                },
            )
        },
    }
}

/// The size of the texts of snapshots; or why it is refused.
pub open spec fn snapshot_bytes(snapshots: Seq<SnapshotView>) -> Result<nat, Seq<char>>
    decreases snapshots.len(),
{
    if snapshots.len() == 0 {
        Ok(0)
    } else {
        match snapshot_bytes(snapshots.drop_last()) {
            Ok(bytes) => added_bytes(bytes, byte_len(snapshots.last().text)),
            Err(error) => Err(error),
        }
    }
}

/// Why snapshots are refused, if they are. `encoded_bytes` is the size of all of
/// them as they are sent, if it could be told.
pub open spec fn payload_error(
    snapshots: Seq<SnapshotView>,
    encoded_bytes: Option<usize>,
) -> Option<Seq<char>> {
    if snapshots.len() > MAX_SELECTED_REFERENCES {
        Some(too_many_references())
    } else {
        match (snapshot_bytes(snapshots), encoded_bytes) {
            (Err(error), _) => Some(error),
            (Ok(_), None) => Some("无法计算引用快照大小"@),
            (Ok(_), Some(size)) => if size > MAX_REFERENCE_TOTAL_BYTES {
                Some(
                    "所选引用快照总大小超过 "@ + decimal(MAX_REFERENCE_TOTAL_KIB as nat)
                        + " KiB"@,
                )
            } else {
                None
            },
        }
    }
}

proof fn lemma_first_size_error_stands(snapshots: Seq<SnapshotView>, k: int)
    requires
        0 <= k <= snapshots.len(),
        snapshot_bytes(snapshots.subrange(0, k)) is Err,
    ensures
        snapshot_bytes(snapshots) == snapshot_bytes(snapshots.subrange(0, k)),
    decreases snapshots.len() - k,
{
    if k == snapshots.len() {
        assert(snapshots.subrange(0, k) =~= snapshots);
    } else {
        assert(snapshots.subrange(0, k + 1).drop_last() =~= snapshots.subrange(0, k));
        lemma_first_size_error_stands(snapshots, k + 1);
    }
}

/// Tests the number and the size of snapshots.
pub fn validate_snapshot_payload(
    snapshots: &Vec<SelectionSnapshot>,
    encoded_bytes: Option<usize>,
) -> (r: Result<(), String>)
    ensures
        match r {
            Ok(()) => payload_error(snapshot_views(snapshots@), encoded_bytes) is None,
            Err(error) => payload_error(snapshot_views(snapshots@), encoded_bytes) == Some(error@),
        },
{
    let ghost all = snapshot_views(snapshots@);
    assert(all.len() == snapshots@.len());
    if snapshots.len() > MAX_SELECTED_REFERENCES {
        return Err(too_many_references_text());
    }
    let mut bytes: usize = 0;
    let mut i: usize = 0;
    assert(all.subrange(0, 0) =~= Seq::<SnapshotView>::empty());
    while i < snapshots.len()
        invariant
            i <= snapshots@.len() <= MAX_SELECTED_REFERENCES,
            all == snapshot_views(snapshots@),
            snapshot_bytes(all.subrange(0, i as int)) == Ok::<nat, Seq<char>>(bytes as nat),
        decreases snapshots@.len() - i,
    {
        proof {
            assert(all.subrange(0, i + 1).drop_last() =~= all.subrange(0, i as int));
            assert(all.subrange(0, i + 1).last() == snapshots@[i as int]@);
            if snapshot_bytes(all.subrange(0, i + 1)) is Err {
                lemma_first_size_error_stands(all, i + 1);
            }
        }
        match checked_reference_bytes(bytes, byte_length(snapshots[i].text.as_str())) {
            Ok(total) => {
                bytes = total;
            },
            Err(error) => {
                return Err(error);
            },
        }
        i = i + 1;
    }
    assert(all.subrange(0, all.len() as int) =~= all);
    match encoded_bytes {
        None => Err("无法计算引用快照大小".to_owned()),
        Some(size) => if size > MAX_REFERENCE_TOTAL_BYTES {
            let mut text = "所选引用快照总大小超过 ".to_owned();
            push_decimal(&mut text, MAX_REFERENCE_TOTAL_KIB as u128);
            text.push_str(" KiB");
            Err(text)
        } else {
            Ok(())
        },
    }
}

/// Why the selection that an explanation is asked for is refused, if it is.
pub open spec fn explanation_error(
    reference: HintView,
    allowed: Seq<Seq<char>>,
    encoded_bytes: Option<usize>,
) -> Option<Seq<char>> {
    match request_error(allowed, seq![reference]) {
        Some(error) => Some(error),
        None => if !reference.is_frozen() {
            Some("请先选择需要解释的文本"@)
        } else {
            payload_error(seq![frozen_snapshot(reference)], encoded_bytes)
        },
    }
}

/// Tests the selection that an explanation is asked for. `encoded_bytes` is the
/// size of its snapshot as it is sent.
pub fn validate_explanation_reference(
    reference: &AiReferenceHint,
    allowed_book_ids: &Vec<String>,
    encoded_bytes: Option<usize>,
) -> (r: Result<(), String>)
    ensures
        match r {
            Ok(()) => explanation_error(reference@, texts(allowed_book_ids@), encoded_bytes) is None,
            Err(error) => explanation_error(
                reference@,
                texts(allowed_book_ids@),
                encoded_bytes,
            ) == Some(error@),
        },
{
    let mut one: Vec<AiReferenceHint> = Vec::new();
    let copy = reference.clone();
    one.push(copy);
    assert(hint_views(one@) =~= seq![reference@]);
    if let Err(error) = validate_reference_request(&one, allowed_book_ids) {
        return Err(error);
    }
    match capture_frozen_reference(reference) {
        None => Err("请先选择需要解释的文本".to_owned()),
        Some(snapshot) => {
            let mut snapshots: Vec<SelectionSnapshot> = Vec::new();
            snapshots.push(snapshot);
            assert(snapshot_views(snapshots@) =~= seq![frozen_snapshot(reference@)]);
            validate_snapshot_payload(&snapshots, encoded_bytes)
        },
    }
}

/// Why a reference does not fit the stored document, if it does not.
pub open spec fn persisted_error(
    document: DocumentView,
    unit: UnitView,
    reference: HintView,
) -> Option<Seq<char>> {
    if reference.revision is Some && reference.revision->0 != unit.revision.value {
        Some("引用的内容单元版本已失效"@)
    } else {
        match reference.locator {
            None => None,
            Some(locator) => match lookup(document.refused, locator) {
                Some(cause) => Some("引用定位已失效或超出内容范围: "@ + cause),
                None => if locator.source is Some && unit.source_locator != locator.source {
                    Some("引用的原始来源位置与当前内容单元不匹配"@)
                } else {
                    None
                },
            },
        }
    }
}

/// Tests a reference against the stored document.
pub fn validate_persisted_reference(
    document: &BookDocument,
    unit: &ContentUnit,
    reference: &AiReferenceHint,
) -> (r: Result<(), String>)
    ensures
        match r {
            Ok(()) => persisted_error(document@, unit@, reference@) is None,
            Err(error) => persisted_error(document@, unit@, reference@) == Some(error@),
        },
{
    if let Some(revision) = reference.revision {
        if revision != unit.revision.value {
            return Err("引用的内容单元版本已失效".to_owned());
        }
    }
    if let Some(locator) = &reference.locator {
        if let Some(cause) = document.refusal(locator) {
            let mut text = "引用定位已失效或超出内容范围: ".to_owned();
            text.push_str(cause);
            return Err(text);
        }
        if locator.source.is_some() && !same_source(&unit.source_locator, &locator.source) {
            return Err("引用的原始来源位置与当前内容单元不匹配".to_owned());
        }
    }
    Ok(())
}

/// The snapshot of a reference to a stored unit, and the size of all texts with
/// it; or why there is none.
pub open spec fn resolved(
    document: DocumentView,
    reference: HintView,
    bytes: nat,
) -> Result<(SnapshotView, nat), Seq<char>> {
    match unit_position(document.units, reference.unit_id) {
        None => Err("引用的章节或页面已不存在"@),
        Some(at) => {
            let unit = document.units[at];
            if reference.unit_index is Some && reference.unit_index->0 >= document.units.len() {
                Err("引用的内容单元序号已失效"@)
            } else if reference.unit_index is Some
                && document.units[reference.unit_index->0 as int].id != unit.id {
                Err("引用的内容单元 ID 与序号不一致"@)
            } else {
                match (
                    persisted_error(document, unit, reference),
                    added_bytes(bytes, byte_len(unit.text)),
                ) {
                    (Some(error), _) => Err(error),
                    (None, Err(error)) => Err(error),
                    (None, Ok(total)) => Ok(
                        (
                            SnapshotView {
                                book_id: reference.book_id,
                                unit_id: unit.id,
                                revision: unit.revision.value,
                                text: unit.text,
                                locator: reference.locator,
                            },
                            total,
                        ),
                    ),
                }
            }
        },
    }
}

/// The snapshot of a reference to a stored unit, and the size of all texts with
/// it; or why there is none.
pub fn resolve_reference(document: &BookDocument, reference: &AiReferenceHint, bytes: usize) -> (r:
    Result<(SelectionSnapshot, usize), String>)
    ensures
        match r {
            Ok((snapshot, total)) => resolved(document@, reference@, bytes as nat) == Ok::<
                (SnapshotView, nat),
                Seq<char>,
            >((snapshot@, total as nat)),
            Err(error) => resolved(document@, reference@, bytes as nat) == Err::<
                (SnapshotView, nat),
                Seq<char>,
            >(error@),
        },
{
    let at: usize = match document.position(reference.unit_id.as_str()) {
        None => {
            return Err("引用的章节或页面已不存在".to_owned());
        },
        Some(at) => at,
    };
    let unit = &document.units[at];
    assert(document@.units[at as int] == unit@);
    assert(document@.units.len() == document.units@.len());
    if let Some(index) = reference.unit_index {
        if index >= document.units.len() {
            return Err("引用的内容单元序号已失效".to_owned());
        }
        assert(document@.units[index as int] == document.units@[index as int]@);
        if !same_text(document.units[index].id.as_str(), unit.id.as_str()) {
            return Err("引用的内容单元 ID 与序号不一致".to_owned());
        }
    }
    if let Err(error) = validate_persisted_reference(document, unit, reference) {
        return Err(error);
    }
    match checked_reference_bytes(bytes, byte_length(unit.text.as_str())) {
        Err(error) => Err(error),
        Ok(total) => Ok(
            (
                SelectionSnapshot {
                    book_id: reference.book_id.clone(),
                    unit_id: unit.id.clone(),
                    revision: unit.revision.value,
                    text: unit.text.clone(),
                    locator: copy_locator(&reference.locator),
                },
                total,
            ),
        ),
    }
}

// ---------------------------------------------------------------------------
// Freezing all references of a question
// ---------------------------------------------------------------------------

/// The references of a question on the way to being frozen: those whose text
/// came with them are, the others one document after the other.
#[derive(Debug, PartialEq, Eq)]
pub struct ReferenceFreeze {
    pub references: Vec<AiReferenceHint>,
    pub slots: Vec<Option<SelectionSnapshot>>,
    pub next: usize,
    pub bytes: usize,
}

/// References on the way to being frozen, as texts.
pub struct FreezeView {
    pub references: Seq<HintView>,
    pub slots: Seq<Option<SnapshotView>>,
    /// The place of the next reference whose document has to be read.
    pub next: int,
    pub bytes: nat,
}

/// An optional snapshot, as texts.
pub open spec fn slot_view(slot: Option<SelectionSnapshot>) -> Option<SnapshotView> {
    match slot {
        Some(snapshot) => Some(snapshot@),
        None => None,
    }
}

impl View for ReferenceFreeze {
    type V = FreezeView;

    open spec fn view(&self) -> FreezeView {
        FreezeView {
            references: hint_views(self.references@),
            slots: self.slots@.map_values(|slot: Option<SelectionSnapshot>| slot_view(slot)),
            next: self.next as int,
            bytes: self.bytes as nat,
        }
    }
}

/// The first place from `from` on of a reference whose text did not come with it.
pub open spec fn next_unfrozen(references: Seq<HintView>, from: int) -> int
    decreases references.len() - from,
{
    if from < 0 || from >= references.len() || references[from].frozen_text is None {
        from
    } else {
        next_unfrozen(references, from + 1)
    }
}

/// The bytes of the frozen texts that are not blank.
pub open spec fn frozen_bytes(references: Seq<HintView>) -> nat
    decreases references.len(),
{
    if references.len() == 0 {
        0
    } else {
        frozen_bytes(references.drop_last()) + (if references.last().is_frozen() {
            byte_len(references.last().frozen_text->0)
        } else {
            0
        })
    }
}

/// What is frozen from the start.
pub open spec fn initial_slots(references: Seq<HintView>) -> Seq<Option<SnapshotView>> {
    references.map_values(
        |r: HintView|
            if r.is_frozen() {
                Some(frozen_snapshot(r))
            } else {
                None
            },
    )
}

/// The snapshots that there are, in the order of their references.
pub open spec fn filled(slots: Seq<Option<SnapshotView>>) -> Seq<SnapshotView>
    decreases slots.len(),
{
    if slots.len() == 0 {
        Seq::empty()
    } else {
        let before = filled(slots.drop_last());
        match slots.last() {
            Some(snapshot) => before.push(snapshot),
            None => before,
        }
    }
}

impl FreezeView {
    /// The start, where the text that came with the references is frozen.
    pub open spec fn started(references: Seq<HintView>) -> FreezeView {
        FreezeView {
            references,
            slots: initial_slots(references),
            next: next_unfrozen(references, 0),
            bytes: frozen_bytes(references),
        }
    }

    /// After the document of the next reference was read, with the snapshot made
    /// from it.
    pub open spec fn advanced(self, snapshot: SnapshotView, bytes: nat) -> FreezeView {
        FreezeView {
            slots: self.slots.update(self.next, Some(snapshot)),
            next: next_unfrozen(self.references, self.next + 1),
            bytes,
            ..self
        }
    }

    /// There is a slot for every reference, and the limits are kept.
    pub open spec fn wf(self) -> bool {
        &&& self.slots.len() == self.references.len()
        &&& 0 <= self.next <= self.references.len()
        &&& self.references.len() <= MAX_SELECTED_REFERENCES
        &&& self.bytes <= MAX_REFERENCE_TOTAL_BYTES
    }
}

proof fn lemma_frozen_bytes_within(allowed: Seq<Seq<char>>, references: Seq<HintView>)
    requires
        checked_references(allowed, references) is Ok,
    ensures
        frozen_bytes(references) <= checked_references(allowed, references)->Ok_0,
        checked_references(allowed, references)->Ok_0 <= MAX_REFERENCE_TOTAL_BYTES,
    decreases references.len(),
{
    if references.len() > 0 {
        lemma_frozen_bytes_within(allowed, references.drop_last());
    }
}

proof fn lemma_frozen_bytes_grow(references: Seq<HintView>, k: int)
    requires
        0 <= k <= references.len(),
    ensures
        frozen_bytes(references.subrange(0, k)) <= frozen_bytes(references),
    decreases references.len() - k,
{
    if k == references.len() {
        assert(references.subrange(0, k) =~= references);
    } else {
        assert(references.subrange(0, k + 1).drop_last() =~= references.subrange(0, k));
        lemma_frozen_bytes_grow(references, k + 1);
    }
}

pub(crate) proof fn lemma_next_unfrozen(references: Seq<HintView>, from: int)
    requires
        0 <= from <= references.len(),
    ensures
        from <= next_unfrozen(references, from) <= references.len(),
    decreases references.len() - from,
{
    if from < references.len() && references[from].frozen_text is Some {
        lemma_next_unfrozen(references, from + 1);
    }
}

/// Why references are not frozen.
#[derive(Debug, PartialEq, Eq)]
pub enum FreezeError {
    /// The request was cancelled meanwhile.
    Cancelled,
    Refused(String),
}

/// Why references are not frozen, as a text.
pub enum FreezeErrorView {
    Cancelled,
    Refused(Seq<char>),
}

impl View for FreezeError {
    type V = FreezeErrorView;

    open spec fn view(&self) -> FreezeErrorView {
        match *self {
            FreezeError::Cancelled => FreezeErrorView::Cancelled,
            FreezeError::Refused(error) => FreezeErrorView::Refused(error@),
        }
    }
}

/// Why references are not frozen, if they are not. That the request was cancelled
/// comes before anything else.
pub open spec fn stopped(cancelled: bool, refusal: Option<Seq<char>>) -> Option<FreezeErrorView> {
    if cancelled {
        Some(FreezeErrorView::Cancelled)
    } else {
        match refusal {
            Some(error) => Some(FreezeErrorView::Refused(error)),
            None => None,
        }
    }
}

/// The document of a reference, or why it could not be read.
pub open spec fn document_read(document: Result<BookDocument, String>) -> Result<
    DocumentView,
    Seq<char>,
> {
    match document {
        Ok(document) => Ok(document@),
        Err(error) => Err(error@),
    }
}

impl FreezeView {
    /// The snapshot of the next reference, and the size of all texts with it; or
    /// why there is none.
    pub open spec fn next_snapshot(self, document: Result<DocumentView, Seq<char>>) -> Result<
        (SnapshotView, nat),
        Seq<char>,
    > {
        match document {
            Ok(document) => resolved(document, self.references[self.next], self.bytes),
            Err(error) => Err(error),
        }
    }
}

/// The error of a result, if it is one.
pub open spec fn error_of<A>(r: Result<A, Seq<char>>) -> Option<Seq<char>> {
    match r {
        Ok(_) => None,
        Err(error) => Some(error),
    }
}

impl ReferenceFreeze {
    /// Tests the references of a question and freezes what came with them.
    pub fn begin(
        references: Vec<AiReferenceHint>,
        allowed_book_ids: &Vec<String>,
        cancelled: bool,
    ) -> (r: Result<ReferenceFreeze, FreezeError>)
        ensures
            ({
                let refusal = request_error(texts(allowed_book_ids@), hint_views(references@));
                match r {
                    Ok(freeze) => stopped(cancelled, refusal) is None && freeze@
                        == FreezeView::started(hint_views(references@)) && freeze@.wf(),
                    Err(error) => stopped(cancelled, refusal) == Some(error@),
                }
            }),
    {
        if cancelled {
            return Err(FreezeError::Cancelled);
        }
        if let Err(error) = validate_reference_request(&references, allowed_book_ids) {
            return Err(FreezeError::Refused(error));
        }
        let ghost all = hint_views(references@);
        let mut slots: Vec<Option<SelectionSnapshot>> = Vec::new();
        let mut bytes: usize = 0;
        let mut i: usize = 0;
        proof {
            assert(all.len() == references@.len());
            lemma_frozen_bytes_within(texts(allowed_book_ids@), all);
            assert(all.subrange(0, 0) =~= Seq::<HintView>::empty());
        }
        while i < references.len()
            invariant
                i <= references@.len(),
                all == hint_views(references@),
                frozen_bytes(all) <= MAX_REFERENCE_TOTAL_BYTES,
                bytes == frozen_bytes(all.subrange(0, i as int)),
                slots@.len() == i,
                forall|k: int|
                    0 <= k < i ==> slot_view(#[trigger] slots@[k]) == initial_slots(all)[k],
            decreases references@.len() - i,
        {
            proof {
                assert(all.subrange(0, i + 1).drop_last() =~= all.subrange(0, i as int));
                assert(all.subrange(0, i + 1).last() == references@[i as int]@);
                assert(initial_slots(all)[i as int] == (if all[i as int].is_frozen() {
                    Some(frozen_snapshot(all[i as int]))
                } else {
                    None
                }));
                lemma_frozen_bytes_grow(all, i + 1);
            }
            let slot = capture_frozen_reference(&references[i]);
            if let Some(snapshot) = &slot {
                let size: usize = byte_length(snapshot.text.as_str());
                bytes = bytes + size;
            }
            slots.push(slot);
            i = i + 1;
        }
        assert(all.subrange(0, all.len() as int) =~= all);
        let next: usize = first_unfrozen(&references, 0);
        let r = ReferenceFreeze { references, slots, next, bytes };
        assert(r@.slots =~= initial_slots(all));
        Ok(r)
    }

    /// The book whose document has to be read next.
    pub fn next_book(&self) -> (r: Option<&str>)
        requires
            self@.wf(),
        ensures
            match r {
                Some(id) => self@.next < self@.references.len() && id@
                    == self@.references[self@.next].book_id,
                None => self@.next == self@.references.len(),
            },
    {
        assert(self@.references.len() == self.references@.len());
        if self.next < self.references.len() {
            assert(self@.references[self.next as int] == self.references@[self.next as int]@);
            Some(self.references[self.next].book_id.as_str())
        } else {
            None
        }
    }

    /// Freezes the next reference from its document, or from why that could not be
    /// read. After an error nothing has changed.
    pub fn supply(&mut self, document: &Result<BookDocument, String>, cancelled: bool) -> (r:
        Result<(), FreezeError>)
        requires
            old(self)@.wf(),
            old(self)@.next < old(self)@.references.len(),
        ensures
            ({
                let before = old(self)@;
                let outcome = before.next_snapshot(document_read(*document));
                match r {
                    Ok(()) => stopped(cancelled, error_of(outcome)) is None && final(self)@
                        == before.advanced(outcome->Ok_0.0, outcome->Ok_0.1) && final(self)@.wf(),
                    Err(error) => stopped(cancelled, error_of(outcome)) == Some(error@)
                        && final(self)@ == before,
                }
            }),
    {
        if cancelled {
            return Err(FreezeError::Cancelled);
        }
        let document = match document {
            Ok(document) => document,
            Err(error) => {
                return Err(FreezeError::Refused(error.clone()));
            },
        };
        assert(self@.references.len() == self.references@.len());
        assert(self@.slots.len() == self.slots@.len());
        assert(self@.references[self.next as int] == self.references@[self.next as int]@);
        match resolve_reference(document, &self.references[self.next], self.bytes) {
            Err(error) => Err(FreezeError::Refused(error)),
            Ok((snapshot, total)) => {
                let at: usize = self.next;
                self.slots.set(at, Some(snapshot));
                self.bytes = total;
                self.next = first_unfrozen(&self.references, at + 1);
                assert(self@.slots =~= old(self)@.slots.update(at as int, Some(snapshot@)));
                Ok(())
            },
        }
    }

    /// The snapshots, in the order of their references.
    pub fn finish(self) -> (r: Vec<SelectionSnapshot>)
        ensures
            snapshot_views(r@) == filled(self@.slots),
    {
        let slots = self.slots;
        let ghost all = self@.slots;
        let mut out: Vec<SelectionSnapshot> = Vec::new();
        let mut i: usize = 0;
        assert(all.subrange(0, 0) =~= Seq::<Option<SnapshotView>>::empty());
        assert(snapshot_views(out@) =~= Seq::<SnapshotView>::empty());
        while i < slots.len()
            invariant
                i <= slots@.len(),
                all == slots@.map_values(|slot: Option<SelectionSnapshot>| slot_view(slot)),
                snapshot_views(out@) == filled(all.subrange(0, i as int)),
            decreases slots@.len() - i,
        {
            proof {
                assert(all.subrange(0, i + 1).drop_last() =~= all.subrange(0, i as int));
                assert(all.subrange(0, i + 1).last() == slot_view(slots@[i as int]));
            }
            if let Some(snapshot) = &slots[i] {
                let copy = SelectionSnapshot {
                    book_id: snapshot.book_id.clone(),
                    unit_id: snapshot.unit_id.clone(),
                    revision: snapshot.revision,
                    text: snapshot.text.clone(),
                    locator: copy_locator(&snapshot.locator),
                };
                let ghost had = out@;
                out.push(copy);
                assert(snapshot_views(out@) =~= snapshot_views(had).push(copy@));
            }
            i = i + 1;
        }
        assert(all.subrange(0, all.len() as int) =~= all);
        out
    }
}

/// Accepts the snapshots of a question, or says why not. `encoded_bytes` is the
/// size of all of them as they are sent, if it could be told.
pub fn accept_snapshots(
    snapshots: Vec<SelectionSnapshot>,
    encoded_bytes: Option<usize>,
    cancelled: bool,
) -> (r: Result<Vec<SelectionSnapshot>, FreezeError>)
    ensures
        ({
            let refusal = payload_error(snapshot_views(snapshots@), encoded_bytes);
            match r {
                Ok(accepted) => stopped(cancelled, refusal) is None && accepted == snapshots,
                Err(error) => stopped(cancelled, refusal) == Some(error@),
            }
        }),
{
    if cancelled {
        return Err(FreezeError::Cancelled);
    }
    match validate_snapshot_payload(&snapshots, encoded_bytes) {
        Ok(()) => Ok(snapshots),
        Err(error) => Err(FreezeError::Refused(error)),
    }
}

fn first_unfrozen(references: &Vec<AiReferenceHint>, from: usize) -> (r: usize)
    requires
        from <= references@.len(),
    ensures
        r == next_unfrozen(hint_views(references@), from as int),
        from <= r <= references@.len(),
{
    let ghost all = hint_views(references@);
    let mut at: usize = from;
    while at < references.len() && references[at].frozen_text.is_some()
        invariant
            from <= at <= references@.len(),
            all == hint_views(references@),
            all.len() == references@.len(),
            next_unfrozen(all, at as int) == next_unfrozen(all, from as int),
        decreases references@.len() - at,
    {
        assert(all[at as int] == references@[at as int]@);
        at = at + 1;
    }
    proof {
        if at < references@.len() {
            assert(all[at as int] == references@[at as int]@);
        }
    }
    at
}

// ---------------------------------------------------------------------------
// Laws
// ---------------------------------------------------------------------------

/// A question whose references were accepted has no more than the limit, none
/// twice, none outside the allowed books or with an invalid place, and their
/// frozen texts keep within the limit together.
pub proof fn accepted_references_keep_the_limits(
    allowed: Seq<Seq<char>>,
    references: Seq<HintView>,
)
    requires
        request_error(allowed, references) is None,
    ensures
        references.len() <= MAX_SELECTED_REFERENCES,
        forall|i: int|
            0 <= i < references.len() ==> allowed.contains((#[trigger] references[i]).book_id)
                && locator_error(references[i]) is None,
        forall|i: int, j: int|
            0 <= i < j < references.len() ==> (#[trigger] references[i]).key() != (
            #[trigger] references[j]).key(),
        frozen_bytes(references) <= MAX_REFERENCE_TOTAL_BYTES,
{
    lemma_accepted(allowed, references);
    lemma_frozen_bytes_within(allowed, references);
}

proof fn lemma_accepted(allowed: Seq<Seq<char>>, references: Seq<HintView>)
    requires
        checked_references(allowed, references) is Ok,
    ensures
        forall|i: int|
            0 <= i < references.len() ==> allowed.contains((#[trigger] references[i]).book_id)
                && locator_error(references[i]) is None,
        forall|i: int, j: int|
            0 <= i < j < references.len() ==> (#[trigger] references[i]).key() != (
            #[trigger] references[j]).key(),
    decreases references.len(),
{
    if references.len() > 0 {
        let rest = references.drop_last();
        lemma_accepted(allowed, rest);
        assert forall|i: int| 0 <= i < references.len() implies allowed.contains(
            (#[trigger] references[i]).book_id,
        ) && locator_error(references[i]) is None by {
            if i < rest.len() {
                assert(references[i] == rest[i]);
            }
        }
        assert forall|i: int, j: int| 0 <= i < j < references.len() implies (
        #[trigger] references[i]).key() != (#[trigger] references[j]).key() by {
            assert(references[i] == rest[i]);
            if j < rest.len() {
                assert(references[j] == rest[j]);
            }
        }
    }
}

impl FreezeView {
    /// Whether every snapshot is of the unit of its reference.
    pub open spec fn snapshots_fit(self) -> bool {
        forall|i: int|
            0 <= i < self.slots.len() && (#[trigger] self.slots[i]) is Some ==> self.slots[i]->0.book_id
                == self.references[i].book_id && self.slots[i]->0.unit_id
                == self.references[i].unit_id
    }
}

/// Every snapshot is of the unit of its reference, from the start to the end.
pub proof fn a_snapshot_is_of_its_reference(
    references: Seq<HintView>,
    freeze: FreezeView,
    document: DocumentView,
)
    ensures
        FreezeView::started(references).snapshots_fit(),
        freeze.wf() && freeze.next < freeze.references.len() && freeze.snapshots_fit()
            && freeze.next_snapshot(Ok(document)) is Ok ==> freeze.advanced(
            freeze.next_snapshot(Ok(document))->Ok_0.0,
            freeze.next_snapshot(Ok(document))->Ok_0.1,
        ).snapshots_fit(),
{
    if freeze.wf() && freeze.next < freeze.references.len() && freeze.next_snapshot(
        Ok(document),
    ) is Ok {
        let reference = freeze.references[freeze.next];
        crate::document::lemma_unit_position_bounds(document.units, reference.unit_id);
    }
}

/// Whether a reference stands for a text: the one that came with it, unless that is
/// blank, or the one that its document has.
pub open spec fn stands_for_text(reference: HintView) -> bool {
    reference.frozen_text is None || reference.is_frozen()
}

/// The test for references that stand for a text.
pub open spec fn with_text() -> spec_fn(HintView) -> bool {
    |reference: HintView| stands_for_text(reference)
}

impl FreezeView {
    /// Whether exactly those references have a snapshot whose text came with them
    /// or whose document was read; the text that came is the one that is frozen; and
    /// the next reference is one whose document has to be read.
    pub open spec fn is_on_its_way(self) -> bool {
        &&& 0 <= self.next < self.references.len()
            ==> self.references[self.next].frozen_text is None
        &&& forall|i: int|
            0 <= i < self.slots.len() ==> ((#[trigger] self.slots[i]) is Some <==> (
            self.references[i].is_frozen() || (self.references[i].frozen_text is None && i
                < self.next)))
        &&& forall|i: int|
            0 <= i < self.slots.len() && self.references[i].is_frozen() ==> (
            #[trigger] self.slots[i]) == Some(frozen_snapshot(self.references[i]))
    }
}

pub(crate) proof fn lemma_skipped_are_frozen(references: Seq<HintView>, from: int)
    requires
        0 <= from <= references.len(),
    ensures
        forall|i: int|
            from <= i < next_unfrozen(references, from) ==> (
            #[trigger] references[i]).frozen_text is Some,
        next_unfrozen(references, from) < references.len() ==> references[next_unfrozen(
            references,
            from,
        )].frozen_text is None,
    decreases references.len() - from,
{
    if from < references.len() && references[from].frozen_text is Some {
        lemma_skipped_are_frozen(references, from + 1);
    }
}

/// From the start on, and with every document that is read, the references up to
/// the next one have their snapshots, and no others but those whose text came with
/// them.
pub proof fn freezing_goes_on_in_order(
    references: Seq<HintView>,
    freeze: FreezeView,
    document: DocumentView,
)
    ensures
        FreezeView::started(references).is_on_its_way(),
        freeze.wf() && freeze.next < freeze.references.len() && freeze.is_on_its_way()
            && freeze.next_snapshot(Ok(document)) is Ok ==> freeze.advanced(
            freeze.next_snapshot(Ok(document))->Ok_0.0,
            freeze.next_snapshot(Ok(document))->Ok_0.1,
        ).is_on_its_way(),
{
    lemma_next_unfrozen(references, 0);
    lemma_skipped_are_frozen(references, 0);
    if freeze.wf() && freeze.next < freeze.references.len() {
        lemma_next_unfrozen(freeze.references, freeze.next + 1);
        lemma_skipped_are_frozen(freeze.references, freeze.next + 1);
    }
}

/// Once no document has to be read any more, every reference that stands for a
/// text has its snapshot, and the snapshots stand in the order of their references.
/// What was selected blank has none.
pub proof fn every_reference_is_frozen_in_order(freeze: FreezeView)
    requires
        freeze.wf(),
        freeze.is_on_its_way(),
        freeze.snapshots_fit(),
        freeze.next == freeze.references.len(),
    ensures
        ({
            let kept = freeze.references.filter(with_text());
            let snapshots = filled(freeze.slots);
            &&& snapshots.len() == kept.len()
            &&& forall|i: int|
                0 <= i < snapshots.len() ==> (#[trigger] snapshots[i]).book_id == kept[i].book_id
                    && snapshots[i].unit_id == kept[i].unit_id && (kept[i].is_frozen()
                    ==> snapshots[i] == frozen_snapshot(kept[i]))
        }),
        (forall|i: int|
            0 <= i < freeze.references.len() ==> stands_for_text(#[trigger] freeze.references[i]))
            ==> filled(freeze.slots).len() == freeze.references.len() && forall|i: int|
            0 <= i < freeze.references.len() ==> Some(#[trigger] filled(freeze.slots)[i])
                == freeze.slots[i],
{
    lemma_filled_in_order(freeze.references, freeze.slots);
    if forall|i: int|
        0 <= i < freeze.references.len() ==> stands_for_text(#[trigger] freeze.references[i]) {
        assert forall|i: int| 0 <= i < freeze.slots.len() implies (
        #[trigger] freeze.slots[i]) is Some by {
            assert(stands_for_text(freeze.references[i]));
        }
        lemma_all_filled(freeze.slots);
    }
}

proof fn lemma_all_filled(slots: Seq<Option<SnapshotView>>)
    requires
        forall|i: int| 0 <= i < slots.len() ==> (#[trigger] slots[i]) is Some,
    ensures
        filled(slots).len() == slots.len(),
        forall|i: int| 0 <= i < slots.len() ==> Some(#[trigger] filled(slots)[i]) == slots[i],
    decreases slots.len(),
{
    if slots.len() > 0 {
        let before = slots.drop_last();
        assert forall|i: int| 0 <= i < before.len() implies (#[trigger] before[i]) is Some by {
            assert(slots[i] is Some);
        }
        lemma_all_filled(before);
        assert(slots.last() is Some);
        assert forall|i: int| 0 <= i < slots.len() implies Some(#[trigger] filled(slots)[i])
            == slots[i] by {
            if i < before.len() {
                assert(filled(slots)[i] == filled(before)[i]);
            }
        }
    }
}

/// Whether a snapshot is the one of a reference.
spec fn is_snapshot_of(snapshot: SnapshotView, reference: HintView) -> bool {
    &&& snapshot.book_id == reference.book_id
    &&& snapshot.unit_id == reference.unit_id
    &&& reference.is_frozen() ==> snapshot == frozen_snapshot(reference)
}

proof fn lemma_filled_in_order(references: Seq<HintView>, slots: Seq<Option<SnapshotView>>)
    requires
        slots.len() == references.len(),
        forall|i: int|
            0 <= i < slots.len() ==> ((#[trigger] slots[i]) is Some <==> stands_for_text(
                references[i],
            )),
        forall|i: int|
            0 <= i < slots.len() && (#[trigger] slots[i]) is Some ==> is_snapshot_of(
                slots[i]->0,
                references[i],
            ),
    ensures
        filled(slots).len() == references.filter(with_text()).len(),
        forall|i: int|
            0 <= i < filled(slots).len() ==> is_snapshot_of(
                #[trigger] filled(slots)[i],
                references.filter(with_text())[i],
            ),
    decreases slots.len(),
{
    reveal(Seq::filter);
    if slots.len() > 0 {
        let fewer = slots.drop_last();
        let earlier = references.drop_last();
        assert forall|i: int| 0 <= i < fewer.len() implies ((#[trigger] fewer[i]) is Some
            <==> stands_for_text(earlier[i])) by {
            assert(fewer[i] == slots[i]);
        }
        assert forall|i: int| 0 <= i < fewer.len() && (#[trigger] fewer[i]) is Some implies is_snapshot_of(
            fewer[i]->0,
            earlier[i],
        ) by {
            assert(fewer[i] == slots[i]);
        }
        lemma_filled_in_order(earlier, fewer);
        let last = slots[slots.len() - 1];
        assert(with_text()(references.last()) == stands_for_text(references.last()));
        assert forall|i: int| 0 <= i < filled(slots).len() implies is_snapshot_of(
            #[trigger] filled(slots)[i],
            references.filter(with_text())[i],
        ) by {
            if i < filled(fewer).len() {
                assert(filled(slots)[i] == filled(fewer)[i]);
            }
        }
    }
}

/// What an editor froze anew replaces at most one reference, which is about the
/// same unit; it never adds one.
pub proof fn an_editor_reference_never_widens_a_question(
    references: Seq<HintView>,
    editor: HintView,
)
    ensures
        merged_references(references, Some(editor)).len() == references.len(),
        forall|i: int|
            0 <= i < references.len() ==> (#[trigger] merged_references(
                references,
                Some(editor),
            )[i]).book_id == references[i].book_id && merged_references(
                references,
                Some(editor),
            )[i].unit_id == references[i].unit_id,
        matching_reference(references, editor) is None ==> merged_references(
            references,
            Some(editor),
        ) == references,
{
    lemma_matching(references, editor);
}

proof fn lemma_matching(references: Seq<HintView>, editor: HintView)
    ensures
        match matching_reference(references, editor) {
            Some(at) => 0 <= at < references.len() && references[at].book_id == editor.book_id
                && references[at].unit_id == editor.unit_id,
            None => true,
        },
    decreases references.len(),
{
    if references.len() > 0 {
        lemma_matching(references.drop_first(), editor);
    }
}

} // verus!
