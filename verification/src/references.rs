//! Passages that a host offers as references for a question.

use crate::document::{copy_locator, locator_view, same_locator, DocumentLocator, LocatorView};
use crate::seqs::{lemma_filter_ends, lemma_filter_step};
use crate::text::{
    blank, copy_option, is_blank, list_has, option_text, same_option_text, same_text, texts,
};
use vstd::prelude::*;
use vstd::string::*;

verus! {

/// A passage that a question may refer to.
#[derive(Debug, PartialEq, Eq)]
pub struct AiReferenceHint {
    pub book_id: String,
    pub unit_id: String,
    pub unit_index: Option<usize>,
    /// The place of a reference to a page or block rather than a whole unit.
    pub locator: Option<DocumentLocator>,
    pub label: String,
    /// Text that the host froze from a selection. Without it the unit is read
    /// when the question is answered.
    pub frozen_text: Option<String>,
    pub revision: Option<u64>,
}

/// A passage, as texts.
pub struct HintView {
    pub book_id: Seq<char>,
    pub unit_id: Seq<char>,
    pub unit_index: Option<usize>,
    pub locator: Option<LocatorView>,
    pub label: Seq<char>,
    pub frozen_text: Option<Seq<char>>,
    pub revision: Option<u64>,
}

impl View for AiReferenceHint {
    type V = HintView;

    open spec fn view(&self) -> HintView {
        HintView {
            book_id: self.book_id@,
            unit_id: self.unit_id@,
            unit_index: self.unit_index,
            locator: locator_view(self.locator),
            label: self.label@,
            frozen_text: option_text(self.frozen_text),
            revision: self.revision,
        }
    }
}

impl Clone for AiReferenceHint {
    fn clone(&self) -> (r: Self)
        ensures
            r == *self,
    {
        AiReferenceHint {
            book_id: self.book_id.clone(),
            unit_id: self.unit_id.clone(),
            unit_index: self.unit_index,
            locator: copy_locator(&self.locator),
            label: self.label.clone(),
            frozen_text: copy_option(&self.frozen_text),
            revision: self.revision,
        }
    }
}

/// What makes two references the same.
#[derive(Debug, PartialEq, Eq)]
pub struct AiReferenceKey {
    pub book_id: String,
    pub unit_id: String,
    pub locator: Option<DocumentLocator>,
}

/// What makes two references the same, as texts.
pub struct KeyView {
    pub book_id: Seq<char>,
    pub unit_id: Seq<char>,
    pub locator: Option<LocatorView>,
}

impl View for AiReferenceKey {
    type V = KeyView;

    open spec fn view(&self) -> KeyView {
        KeyView {
            book_id: self.book_id@,
            unit_id: self.unit_id@,
            locator: locator_view(self.locator),
        }
    }
}

impl Clone for AiReferenceKey {
    fn clone(&self) -> (r: Self)
        ensures
            r == *self,
    {
        AiReferenceKey {
            book_id: self.book_id.clone(),
            unit_id: self.unit_id.clone(),
            locator: copy_locator(&self.locator),
        }
    }
}

impl AiReferenceKey {
    /// Whether two keys are the same.
    pub fn same(&self, other: &AiReferenceKey) -> (r: bool)
        ensures
            r == (self@ == other@),
    {
        same_text(self.book_id.as_str(), other.book_id.as_str()) && same_text(
            self.unit_id.as_str(),
            other.unit_id.as_str(),
        ) && same_locator(&self.locator, &other.locator)
    }
}

impl HintView {
    /// The book, unit and place of the reference.
    pub open spec fn key(self) -> KeyView {
        KeyView { book_id: self.book_id, unit_id: self.unit_id, locator: self.locator }
    }

    /// Whether the place, if there is one, lies in the reference's own unit.
    pub open spec fn has_valid_locator(self) -> bool {
        match self.locator {
            Some(locator) => locator.book_id == self.book_id && locator.unit_id == self.unit_id
                && locator.shape_error is None,
            None => true,
        }
    }

    /// Whether the host froze text that is not blank.
    pub open spec fn is_frozen(self) -> bool {
        self.frozen_text is Some && !is_blank(self.frozen_text->0)
    }
}

impl AiReferenceHint {
    /// A reference to a whole chapter.
    pub fn chapter(book_id: &str, unit_id: &str, unit_index: usize, label: &str) -> (r: Self)
        ensures
            r@ == (HintView {
                book_id: book_id@,
                unit_id: unit_id@,
                unit_index: Some(unit_index),
                locator: None,
                label: label@,
                frozen_text: None,
                revision: None,
            }),
    {
        AiReferenceHint {
            book_id: book_id.to_owned(),
            unit_id: unit_id.to_owned(),
            unit_index: Some(unit_index),
            locator: None,
            label: label.to_owned(),
            frozen_text: None,
            revision: None,
        }
    }

    /// Whether two references are alike in every respect.
    pub fn same(&self, other: &AiReferenceHint) -> (r: bool)
        ensures
            r == (self@ == other@),
    {
        same_text(self.book_id.as_str(), other.book_id.as_str()) && same_text(
            self.unit_id.as_str(),
            other.unit_id.as_str(),
        ) && same_index(self.unit_index, other.unit_index) && same_locator(
            &self.locator,
            &other.locator,
        ) && same_text(self.label.as_str(), other.label.as_str()) && same_option_text(
            &self.frozen_text,
            &other.frozen_text,
        ) && same_revision(self.revision, other.revision)
    }

    /// Whether the host froze text that is not blank.
    pub fn is_frozen(&self) -> (r: bool)
        ensures
            r == self@.is_frozen(),
    {
        match &self.frozen_text {
            Some(text) => !blank(text.as_str()),
            None => false,
        }
    }
}

pub fn same_index(a: Option<usize>, b: Option<usize>) -> (r: bool)
    ensures
        r == (a == b),
{
    match (a, b) {
        (Some(x), Some(y)) => x == y,
        (None, None) => true,
        _ => false,
    }
}

pub fn same_revision(a: Option<u64>, b: Option<u64>) -> (r: bool)
    ensures
        r == (a == b),
{
    match (a, b) {
        (Some(x), Some(y)) => x == y,
        (None, None) => true,
        _ => false,
    }
}

/// The book, unit and place of a reference.
pub fn reference_key(reference: &AiReferenceHint) -> (r: AiReferenceKey)
    ensures
        r@ == reference@.key(),
{
    AiReferenceKey {
        book_id: reference.book_id.clone(),
        unit_id: reference.unit_id.clone(),
        locator: copy_locator(&reference.locator),
    }
}

/// Whether the place of a reference, if there is one, lies in its own unit.
pub fn valid_reference_hint_locator(reference: &AiReferenceHint) -> (r: bool)
    ensures
        r == reference@.has_valid_locator(),
{
    match &reference.locator {
        Some(locator) => same_text(locator.book_id.as_str(), reference.book_id.as_str())
            && same_text(locator.unit_id.as_str(), reference.unit_id.as_str())
            && locator.shape_error.is_none(),
        None => true,
    }
}

/// The references that a list holds.
pub open spec fn hint_views(hints: Seq<AiReferenceHint>) -> Seq<HintView> {
    hints.map_values(|h: AiReferenceHint| h@)
}

/// The keys that a list holds.
pub open spec fn key_views(keys: Seq<AiReferenceKey>) -> Seq<KeyView> {
    keys.map_values(|k: AiReferenceKey| k@)
}

/// Whether some reference of the list has the key.
pub open spec fn has_key(hints: Seq<HintView>, key: KeyView) -> bool {
    exists|i: int| 0 <= i < hints.len() && (#[trigger] hints[i]).key() == key
}

/// Whether a reference may be used where only some books are allowed.
pub open spec fn is_usable(allowed: Seq<Seq<char>>, hint: HintView) -> bool {
    allowed.contains(hint.book_id) && hint.has_valid_locator()
}

/// The test for references that may be used.
pub open spec fn usable(allowed: Seq<Seq<char>>) -> spec_fn(HintView) -> bool {
    |hint: HintView| is_usable(allowed, hint)
}

/// The usable references, the first of each key.
pub open spec fn accepted_hints(allowed: Seq<Seq<char>>, hints: Seq<HintView>) -> Seq<HintView>
    decreases hints.len(),
{
    if hints.len() == 0 {
        Seq::empty()
    } else {
        let kept = accepted_hints(allowed, hints.drop_last());
        if is_usable(allowed, hints.last()) && !has_key(kept, hints.last().key()) {
            kept.push(hints.last())
        } else {
            kept
        }
    }
}

/// Whether some reference of the list has the key.
pub fn list_has_key(hints: &Vec<AiReferenceHint>, key: &AiReferenceKey) -> (r: bool)
    ensures
        r == has_key(hint_views(hints@), key@),
{
    let ghost all = hint_views(hints@);
    let mut i: usize = 0;
    while i < hints.len()
        invariant
            i <= hints@.len(),
            all == hint_views(hints@),
            forall|k: int| 0 <= k < i ==> (#[trigger] all[k]).key() != key@,
        decreases hints@.len() - i,
    {
        if reference_key(&hints[i]).same(key) {
            assert(all[i as int].key() == key@);
            return true;
        }
        assert(all[i as int].key() != key@);
        i = i + 1;
    }
    false
}

/// The usable references, the first of each key.
pub fn accept_hints(allowed: &Vec<String>, hints: Vec<AiReferenceHint>) -> (r: Vec<
    AiReferenceHint,
>)
    ensures
        hint_views(r@) == accepted_hints(texts(allowed@), hint_views(hints@)),
{
    let ghost all = hint_views(hints@);
    let mut kept: Vec<AiReferenceHint> = Vec::new();
    let mut i: usize = 0;
    assert(all.subrange(0, 0) =~= Seq::<HintView>::empty());
    assert(hint_views(kept@) =~= Seq::<HintView>::empty());
    while i < hints.len()
        invariant
            i <= hints@.len(),
            all == hint_views(hints@),
            hint_views(kept@) == accepted_hints(texts(allowed@), all.subrange(0, i as int)),
        decreases hints@.len() - i,
    {
        proof {
            assert(all.subrange(0, i + 1).drop_last() =~= all.subrange(0, i as int));
            assert(all.subrange(0, i + 1).last() == hints@[i as int]@);
        }
        if list_has(allowed, hints[i].book_id.as_str()) && valid_reference_hint_locator(&hints[i])
            && !list_has_key(&kept, &reference_key(&hints[i])) {
            let ghost had = kept@;
            let hint = hints[i].clone();
            kept.push(hint);
            assert(hint_views(kept@) =~= hint_views(had).push(hint@));
        }
        i = i + 1;
    }
    assert(all.subrange(0, all.len() as int) =~= all);
    kept
}

/// The references of a list that may be used where only some books are allowed.
pub fn usable_hints(allowed: &Vec<String>, hints: &Vec<AiReferenceHint>) -> (r: Vec<
    AiReferenceHint,
>)
    ensures
        hint_views(r@) == hint_views(hints@).filter(usable(texts(allowed@))),
{
    let ghost all = hint_views(hints@);
    let ghost keep = usable(texts(allowed@));
    let mut kept: Vec<AiReferenceHint> = Vec::new();
    proof {
        lemma_filter_ends(all, keep);
        assert(hint_views(kept@) =~= Seq::<HintView>::empty());
    }
    let mut i: usize = 0;
    while i < hints.len()
        invariant
            i <= hints@.len(),
            all == hint_views(hints@),
            keep == usable(texts(allowed@)),
            hint_views(kept@) == all.subrange(0, i as int).filter(keep),
        decreases hints@.len() - i,
    {
        proof {
            lemma_filter_step(all, keep, i as int);
        }
        if list_has(allowed, hints[i].book_id.as_str()) && valid_reference_hint_locator(
            &hints[i],
        ) {
            let ghost had = kept@;
            let hint = hints[i].clone();
            kept.push(hint);
            assert(hint_views(kept@) =~= hint_views(had).push(hint@));
        }
        i = i + 1;
    }
    kept
}

/// The test for keys that some reference of the list has.
pub open spec fn offered_by(hints: Seq<HintView>) -> spec_fn(KeyView) -> bool {
    |key: KeyView| has_key(hints, key)
}

/// The keys that some reference of the list has.
pub fn offered_keys(keys: &Vec<AiReferenceKey>, hints: &Vec<AiReferenceHint>) -> (r: Vec<
    AiReferenceKey,
>)
    ensures
        key_views(r@) == key_views(keys@).filter(offered_by(hint_views(hints@))),
{
    let ghost all = key_views(keys@);
    let ghost keep = offered_by(hint_views(hints@));
    let mut kept: Vec<AiReferenceKey> = Vec::new();
    proof {
        lemma_filter_ends(all, keep);
        assert(key_views(kept@) =~= Seq::<KeyView>::empty());
    }
    let mut i: usize = 0;
    while i < keys.len()
        invariant
            i <= keys@.len(),
            all == key_views(keys@),
            keep == offered_by(hint_views(hints@)),
            key_views(kept@) == all.subrange(0, i as int).filter(keep),
        decreases keys@.len() - i,
    {
        proof {
            lemma_filter_step(all, keep, i as int);
        }
        if list_has_key(hints, &keys[i]) {
            let ghost had = kept@;
            let key = keys[i].clone();
            kept.push(key);
            assert(key_views(kept@) =~= key_views(had).push(key@));
        }
        i = i + 1;
    }
    kept
}

/// The test for any key but one.
pub open spec fn key_other_than(key: KeyView) -> spec_fn(KeyView) -> bool {
    |other: KeyView| other != key
}

/// The keys of a list but one.
pub fn keys_without(keys: &Vec<AiReferenceKey>, key: &AiReferenceKey) -> (r: Vec<AiReferenceKey>)
    ensures
        key_views(r@) == key_views(keys@).filter(key_other_than(key@)),
{
    let ghost all = key_views(keys@);
    let ghost keep = key_other_than(key@);
    let mut kept: Vec<AiReferenceKey> = Vec::new();
    proof {
        lemma_filter_ends(all, keep);
        assert(key_views(kept@) =~= Seq::<KeyView>::empty());
    }
    let mut i: usize = 0;
    while i < keys.len()
        invariant
            i <= keys@.len(),
            all == key_views(keys@),
            keep == key_other_than(key@),
            key_views(kept@) == all.subrange(0, i as int).filter(keep),
        decreases keys@.len() - i,
    {
        proof {
            lemma_filter_step(all, keep, i as int);
        }
        if !keys[i].same(key) {
            let ghost had = kept@;
            let item = keys[i].clone();
            kept.push(item);
            assert(key_views(kept@) =~= key_views(had).push(item@));
        }
        i = i + 1;
    }
    kept
}

/// Whether a list holds a key.
pub fn keys_have(keys: &Vec<AiReferenceKey>, key: &AiReferenceKey) -> (r: bool)
    ensures
        r == key_views(keys@).contains(key@),
{
    let ghost all = key_views(keys@);
    let mut i: usize = 0;
    while i < keys.len()
        invariant
            i <= keys@.len(),
            all == key_views(keys@),
            forall|k: int| 0 <= k < i ==> #[trigger] all[k] != key@,
        decreases keys@.len() - i,
    {
        if keys[i].same(key) {
            assert(all[i as int] == key@);
            return true;
        }
        assert(all[i as int] != key@);
        i = i + 1;
    }
    false
}

/// Whether two lists hold the same references in the same order.
pub fn same_hints(a: &Vec<AiReferenceHint>, b: &Vec<AiReferenceHint>) -> (r: bool)
    ensures
        r == (hint_views(a@) == hint_views(b@)),
{
    if a.len() != b.len() {
        assert(hint_views(a@).len() != hint_views(b@).len());
        return false;
    }
    let mut i: usize = 0;
    while i < a.len()
        invariant
            a@.len() == b@.len(),
            i <= a@.len(),
            forall|k: int| 0 <= k < i ==> hint_views(a@)[k] == hint_views(b@)[k],
        decreases a@.len() - i,
    {
        if !a[i].same(&b[i]) {
            assert(hint_views(a@)[i as int] != hint_views(b@)[i as int]);
            return false;
        }
        i = i + 1;
    }
    assert(hint_views(a@) =~= hint_views(b@));
    true
}

/// The accepted references are usable and of different keys, and every usable
/// reference is accepted or stands behind an accepted one of its key.
pub proof fn accepted_hints_are_usable_and_distinct(
    allowed: Seq<Seq<char>>,
    hints: Seq<HintView>,
)
    ensures
        forall|i: int|
            0 <= i < accepted_hints(allowed, hints).len() ==> is_usable(
                allowed,
                #[trigger] accepted_hints(allowed, hints)[i],
            ) && hints.contains(accepted_hints(allowed, hints)[i]),
        forall|i: int, j: int|
            0 <= i < j < accepted_hints(allowed, hints).len() ==> (#[trigger] accepted_hints(
                allowed,
                hints,
            )[i]).key() != (#[trigger] accepted_hints(allowed, hints)[j]).key(),
        forall|i: int|
            0 <= i < hints.len() && is_usable(allowed, hints[i]) ==> has_key(
                accepted_hints(allowed, hints),
                (#[trigger] hints[i]).key(),
            ),
    decreases hints.len(),
{
    if hints.len() > 0 {
        let rest = hints.drop_last();
        accepted_hints_are_usable_and_distinct(allowed, rest);
        let kept = accepted_hints(allowed, rest);
        let all = accepted_hints(allowed, hints);
        let last = hints.last();
        assert forall|i: int| 0 <= i < all.len() implies is_usable(allowed, #[trigger] all[i])
            && hints.contains(all[i]) by {
            if i < kept.len() {
                assert(all[i] == kept[i]);
                let k = choose|k: int| 0 <= k < rest.len() && rest[k] == kept[i];
                assert(hints[k] == kept[i]);
            } else {
                assert(hints[hints.len() - 1] == all[i]);
            }
        }
        assert forall|i: int, j: int| 0 <= i < j < all.len() implies (#[trigger] all[i]).key() != (
        #[trigger] all[j]).key() by {
            assert(all[i] == kept[i]);
            if j < kept.len() {
                assert(all[j] == kept[j]);
            }
        }
        assert forall|i: int| 0 <= i < hints.len() && is_usable(allowed, hints[i]) implies has_key(
            all,
            (#[trigger] hints[i]).key(),
        ) by {
            if i < rest.len() {
                assert(rest[i] == hints[i]);
                let k = choose|k: int|
                    0 <= k < kept.len() && (#[trigger] kept[k]).key() == hints[i].key();
                assert(all[k].key() == hints[i].key());
            } else if !has_key(kept, last.key()) {
                assert(all[all.len() - 1].key() == last.key());
            }
        }
    }
}

} // verus!
