//! What holds of the settings window, whatever is done with it.

use crate::seqs::lemma_filter_all;
use crate::settings::{identity_of, ChatGenerationView, KeyUpdateView, DEFAULT_ENDPOINT_ID};
use crate::settings_fields::{ModelRole, PendingOperation, SettingsTab};
use crate::settings_form::{
    following, has_draft, lemma_has_draft, lemma_place, EndpointSettingsView, EndpointView,
    ProviderSettingsView,
};
use crate::settings_window::{fresh_endpoint, other_than, without, SettingsWindowView};
use vstd::prelude::*;
use vstd::string::*;

verus! {

/// Whether two lists of connections have the same identifiers, place by place.
pub open spec fn same_identifiers(a: Seq<EndpointView>, b: Seq<EndpointView>) -> bool {
    &&& a.len() == b.len()
    &&& forall|i: int| 0 <= i < a.len() ==> (#[trigger] a[i]).id == b[i].id
}

/// Whether no two connections have the same identifier.
pub open spec fn identifiers_are_distinct(list: Seq<EndpointView>) -> bool {
    forall|i: int, j: int|
        0 <= i < j < list.len() ==> (#[trigger] list[i]).id != (#[trigger] list[j]).id
}

proof fn lemma_same_identifiers(a: Seq<EndpointView>, b: Seq<EndpointView>, id: Seq<char>)
    requires
        same_identifiers(a, b),
        has_draft(a, id),
    ensures
        has_draft(b, id),
{
    let i = choose|i: int| 0 <= i < a.len() && (#[trigger] a[i]).id == id;
    assert(b[i].id == id);
}

/// Whether a window has what another had: its connections are there, and the ones
/// that are shown and that serve some use are the same.
proof fn lemma_kept(before: SettingsWindowView, after: SettingsWindowView)
    requires
        same_identifiers(before.form.endpoints, after.form.endpoints),
    ensures
        forall|id: Seq<char>| before.has(id) ==> #[trigger] after.has(id),
{
    assert forall|id: Seq<char>| before.has(id) implies #[trigger] after.has(id) by {
        lemma_same_identifiers(before.form.endpoints, after.form.endpoints, id);
    }
}

/// A new window shows a connection that is there.
pub proof fn a_new_window_is_well_formed(
    settings: ProviderSettingsView,
    canonical: Seq<Option<Seq<char>>>,
)
    ensures
        SettingsWindowView::opened(settings, canonical).wf(),
{
    let window = SettingsWindowView::opened(settings, canonical);
    assert(window.form.endpoints[0].id == DEFAULT_ENDPOINT_ID@);
}

/// Editing a connection keeps the window well formed, and the connections that
/// serve some use in place.
pub proof fn editing_keeps_the_window_well_formed(
    window: SettingsWindowView,
    id: Seq<char>,
    text: Seq<char>,
    canonical: Option<Seq<char>>,
    normalized: Result<Seq<char>, Seq<char>>,
    checked: bool,
)
    requires
        window.wf(),
    ensures
        window.renamed(id, text).wf(),
        window.timed(id, text).wf(),
        window.readdressed(id, text, canonical).wf(),
        window.rekeyed(id, text).wf(),
        window.deleting_key(id, checked).wf(),
        window.permitted(id, checked, normalized).wf(),
        window.insecure(id, checked).wf(),
        window.routes_lead_somewhere() ==> {
            &&& window.renamed(id, text).routes_lead_somewhere()
            &&& window.timed(id, text).routes_lead_somewhere()
            &&& window.readdressed(id, text, canonical).routes_lead_somewhere()
            &&& window.rekeyed(id, text).routes_lead_somewhere()
            &&& window.deleting_key(id, checked).routes_lead_somewhere()
            &&& window.permitted(id, checked, normalized).routes_lead_somewhere()
            &&& window.insecure(id, checked).routes_lead_somewhere()
        },
{
    lemma_has_draft(window.form.endpoints, id);
    lemma_kept(window, window.renamed(id, text));
    lemma_kept(window, window.timed(id, text));
    lemma_kept(window, window.readdressed(id, text, canonical));
    lemma_kept(window, window.rekeyed(id, text));
    lemma_kept(window, window.deleting_key(id, checked));
    lemma_kept(window, window.permitted(id, checked, normalized));
    lemma_kept(window, window.insecure(id, checked));
}

/// Showing, adding, removing and assigning connections keep the window well
/// formed, and the connections that serve some use in place.
pub proof fn changing_connections_keeps_the_window_well_formed(
    window: SettingsWindowView,
    id: Seq<char>,
    role: ModelRole,
    random: Option<Seq<u8>>,
    canonical: Option<Seq<char>>,
)
    requires
        window.wf(),
    ensures
        window.selecting(id).wf(),
        window.added(random, canonical).wf(),
        window.deleted().wf(),
        window.assigned(role, id).wf(),
        window.routes_lead_somewhere() ==> {
            &&& window.selecting(id).routes_lead_somewhere()
            &&& window.added(random, canonical).routes_lead_somewhere()
            &&& window.deleted().routes_lead_somewhere()
            &&& window.assigned(role, id).routes_lead_somewhere()
        },
{
    if !window.busy() && random is Some {
        let after = window.added(random, canonical);
        assert forall|other: Seq<char>| window.has(other) implies #[trigger] after.has(other) by {
            let i = choose|i: int|
                0 <= i < window.form.endpoints.len() && (#[trigger] window.form.endpoints[i]).id
                    == other;
            assert(after.form.endpoints[i].id == other);
        }
        assert(after.form.endpoints[window.form.endpoints.len() as int].id == after.selected);
    }
    if !window.busy() && window.selected != DEFAULT_ENDPOINT_ID@ {
        let after = window.deleted();
        assert forall|other: Seq<char>|
            window.has(other) && other != window.selected implies #[trigger] has_draft(
            without(window.form.endpoints, window.selected),
            other,
        ) by {
            lemma_others_stay(window.form.endpoints, window.selected, other);
        }
    }
}

/// What is awaited and what comes in keep the window well formed, and the
/// connections that serve some use in place.
pub proof fn waiting_keeps_the_window_well_formed(
    window: SettingsWindowView,
    id: Seq<char>,
    verdict: Option<Seq<char>>,
    endpoint: EndpointSettingsView,
    generation: u64,
    asked: Option<Seq<char>>,
    current: Seq<Option<Seq<char>>>,
    outcome: Result<Seq<Seq<char>>, Seq<char>>,
    confirmed: bool,
)
    requires
        window.wf(),
    ensures
        window.detecting(id, verdict).wf(),
        window.detected(endpoint, generation, asked, current, outcome).wf(),
        window.saving(verdict).wf(),
        window.answered(confirmed).wf(),
        window.saved(verdict).wf(),
        window.routes_lead_somewhere() ==> {
            &&& window.detecting(id, verdict).routes_lead_somewhere()
            &&& window.detected(
                endpoint,
                generation,
                asked,
                current,
                outcome,
            ).routes_lead_somewhere()
            &&& window.saving(verdict).routes_lead_somewhere()
            &&& window.answered(confirmed).routes_lead_somewhere()
            &&& window.saved(verdict).routes_lead_somewhere()
        },
{
    lemma_has_draft(window.form.endpoints, id);
    lemma_has_draft(window.form.endpoints, endpoint.id);
    lemma_kept(window, window.detecting(id, verdict));
    let after = window.detected(endpoint, generation, asked, current, outcome);
    assert(same_identifiers(window.form.endpoints, after.form.endpoints)) by {
        if window.detection_matches(endpoint.id, generation, asked, current) {
            assert(window.has(endpoint.id));
        }
    }
    lemma_kept(window, after);
}

proof fn lemma_others_stay(list: Seq<EndpointView>, gone: Seq<char>, id: Seq<char>)
    requires
        has_draft(list, id),
        id != gone,
    ensures
        has_draft(without(list, gone), id),
{
    let i = choose|i: int| 0 <= i < list.len() && (#[trigger] list[i]).id == id;
    let kept = list.filter(other_than(gone));
    assert(other_than(gone)(list[i]));
    assert(kept.contains(list[i])) by {
        crate::seqs::lemma_filter_elements(list, other_than(gone));
    }
    let k = choose|k: int| 0 <= k < kept.len() && kept[k] == list[i];
    assert(kept[k].id == id);
}

/// The default connection, and one that serves some use, are never removed.
pub proof fn a_connection_in_use_is_not_removed(window: SettingsWindowView)
    requires
        window.selected == DEFAULT_ENDPOINT_ID@ || window.form.is_bound(window.selected),
    ensures
        window.deleted().form == window.form,
        window.deleted().selected == window.selected,
{
}

/// A connection that was added and not yet put to use can be removed again, and
/// leaves nothing behind.
pub proof fn removing_an_added_connection_undoes_it(
    window: SettingsWindowView,
    bytes: Seq<u8>,
    canonical: Option<Seq<char>>,
)
    requires
        !window.busy(),
        !window.has(fresh_endpoint(bytes, 1).id),
        !window.form.is_bound(fresh_endpoint(bytes, 1).id),
    ensures
        window.added(Some(bytes), canonical).deleted().form == window.form,
{
    let id = fresh_endpoint(bytes, 1).id;
    let before = window.form.endpoints;
    let after = window.added(Some(bytes), canonical).form.endpoints;
    reveal_strlit("endpoint-");
    reveal_strlit("default");
    assert(id[0] == 'e');
    assert(DEFAULT_ENDPOINT_ID@[0] == 'd');
    assert(after.drop_last() =~= before);
    assert(after.last().id == id);
    reveal(Seq::filter);
    assert(without(after, id) == without(before, id));
    assert forall|i: int| 0 <= i < before.len() implies other_than(id)(#[trigger] before[i]) by {
        assert(before[i].id != id);
    }
    lemma_filter_all(before, other_than(id));
}

/// A connection to another place keeps neither the key that was entered, nor any
/// permission, nor the models that were detected; and no other connection changes.
pub proof fn another_place_starts_without_permissions(
    window: SettingsWindowView,
    id: Seq<char>,
    url: Seq<char>,
    canonical: Option<Seq<char>>,
)
    requires
        window.has(id),
        identity_of(url, canonical) != window.draft(id).observed_url,
    ensures
        ({
            let after = window.readdressed(id, url, canonical);
            let draft = after.form.endpoints[window.at(id)];
            &&& draft.base_url == url
            &&& draft.api_key == Seq::<char>::empty()
            &&& draft.key_update() == KeyUpdateView::Keep
            &&& !draft.remote_content_confirmed
            &&& !draft.allow_insecure_remote_http
            &&& draft.confirmed_remote_endpoint == Seq::<char>::empty()
            &&& draft.detected_models is None
            &&& draft.name == window.draft(id).name
            &&& after.form == window.form.with_draft(window.at(id), draft)
        }),
{
    lemma_has_draft(window.form.endpoints, id);
}

/// Another way to write the same address changes nothing but the text.
pub proof fn the_same_place_keeps_everything(
    window: SettingsWindowView,
    id: Seq<char>,
    url: Seq<char>,
    canonical: Option<Seq<char>>,
)
    requires
        window.has(id),
        identity_of(url, canonical) == window.draft(id).observed_url,
    ensures
        window.readdressed(id, url, canonical) == window.with_draft(
            id,
            EndpointView { base_url: url, ..window.draft(id) },
        ),
{
}

/// What was detected before a key or a place was changed no longer counts.
pub proof fn a_change_makes_a_detection_stale(
    window: SettingsWindowView,
    id: Seq<char>,
    text: Seq<char>,
    delete: bool,
    canonical: Option<Seq<char>>,
    asked: Option<Seq<char>>,
    current: Seq<Option<Seq<char>>>,
)
    requires
        identifiers_are_distinct(window.form.endpoints),
        window.has(id),
    ensures
        !window.rekeyed(id, text).detection_matches(
            id,
            window.draft(id).discovery_generation,
            asked,
            current,
        ),
        !window.deleting_key(id, delete).detection_matches(
            id,
            window.draft(id).discovery_generation,
            asked,
            current,
        ),
        identity_of(text, canonical) != window.draft(id).observed_url ==> !window.readdressed(
            id,
            text,
            canonical,
        ).detection_matches(id, window.draft(id).discovery_generation, asked, current),
{
    lemma_has_draft(window.form.endpoints, id);
    lemma_stale(
        window,
        window.rekeyed(id, text),
        id,
        asked,
        current,
    );
    lemma_stale(
        window,
        window.deleting_key(id, delete),
        id,
        asked,
        current,
    );
    if identity_of(text, canonical) != window.draft(id).observed_url {
        lemma_stale(
            window,
            window.readdressed(id, text, canonical),
            id,
            asked,
            current,
        );
    }
}

proof fn lemma_stale(
    window: SettingsWindowView,
    after: SettingsWindowView,
    id: Seq<char>,
    asked: Option<Seq<char>>,
    current: Seq<Option<Seq<char>>>,
)
    requires
        identifiers_are_distinct(window.form.endpoints),
        window.has(id),
        same_identifiers(window.form.endpoints, after.form.endpoints),
        after.form.endpoints[window.at(id)].discovery_generation == following(
            window.draft(id).discovery_generation,
        ),
    ensures
        !after.detection_matches(id, window.draft(id).discovery_generation, asked, current),
{
    let list = window.form.endpoints;
    lemma_has_draft(list, id);
    let g = window.draft(id).discovery_generation;
    assert forall|i: int| 0 <= i < after.form.endpoints.len() implies !((
    #[trigger] after.form.endpoints[i]).id == id && after.form.endpoints[i].discovery_generation
        == g && current[i] == asked) by {
        if after.form.endpoints[i].id == id {
            assert(list[i].id == id);
            let p = window.at(id);
            assert(list[p].id == id);
            if i < p {
                assert(list[i].id != list[p].id);
            }
            if p < i {
                assert(list[p].id != list[i].id);
            }
            assert(i == p);
        }
    }
}

/// What a stale detection brings is dropped: only the wait ends.
pub proof fn a_stale_detection_brings_nothing(
    window: SettingsWindowView,
    endpoint: EndpointSettingsView,
    generation: u64,
    asked: Option<Seq<char>>,
    current: Seq<Option<Seq<char>>>,
    outcome: Result<Seq<Seq<char>>, Seq<char>>,
)
    requires
        !window.detection_matches(endpoint.id, generation, asked, current),
    ensures
        window.detected(endpoint, generation, asked, current, outcome).form == window.form,
        window.detected(endpoint, generation, asked, current, outcome).operation
            == PendingOperation::Idle,
        window.detected(endpoint, generation, asked, current, outcome).notice is None,
{
}

/// An answer that comes before anything was changed counts.
pub proof fn a_prompt_detection_counts(
    window: SettingsWindowView,
    id: Seq<char>,
    current: Seq<Option<Seq<char>>>,
    models: Seq<Seq<char>>,
)
    requires
        window.detects(id, None),
        current.len() == window.form.endpoints.len(),
    ensures
        ({
            let waiting = window.detecting(id, None);
            let after = waiting.detected(
                window.draft(id).entered(),
                following(window.draft(id).discovery_generation),
                current[window.at(id)],
                current,
                Ok(models),
            );
            &&& waiting.operation == PendingOperation::Detecting
            &&& after.operation == PendingOperation::Idle
            &&& after.form.endpoints[window.at(id)].detected_models == Some(models)
        }),
{
    lemma_has_draft(window.form.endpoints, id);
    let waiting = window.detecting(id, None);
    let at = window.at(id);
    assert(waiting.form.endpoints[at].id == id);
    lemma_place(window.form.endpoints, id, 0);
    lemma_has_draft(waiting.form.endpoints, id);
    lemma_place(waiting.form.endpoints, id, 0);
    assert(waiting.at(id) == at) by {
        let other = waiting.at(id);
        if other < at {
            assert(window.form.endpoints[other].id != id);
            assert(waiting.form.endpoints[other].id == id);
        }
        if at < other {
            assert(waiting.form.endpoints[at].id != id);
        }
    }
}

/// While something is awaited, neither tabs nor connections nor parameters change
/// by a click, and nothing else is started.
pub proof fn a_busy_window_stands_still(
    window: SettingsWindowView,
    id: Seq<char>,
    tab: SettingsTab,
    role: ModelRole,
    random: Option<Seq<u8>>,
    canonical: Option<Seq<char>>,
    verdict: Option<Seq<char>>,
    error: Option<Seq<char>>,
    defaults: ChatGenerationView,
)
    requires
        window.busy(),
    ensures
        window.switched(tab) == window,
        window.selecting(id) == window,
        window.added(random, canonical) == window,
        window.deleted() == window,
        window.assigned(role, id) == window,
        window.reset(defaults) == window,
        window.detecting(id, verdict) == window,
        window.saving(error) == window,
{
}

/// Switching tabs keeps what was entered.
pub proof fn switching_tabs_keeps_what_was_entered(window: SettingsWindowView, tab: SettingsTab)
    ensures
        window.switched(tab).form == window.form,
        window.switched(tab).selected == window.selected,
        window.switched(tab).notice == window.notice,
{
}

/// A connection without the permission to send content has no permission to send
/// it in the clear either: withdrawing the one withdraws the other.
pub proof fn withdrawing_a_permission_withdraws_both(
    window: SettingsWindowView,
    id: Seq<char>,
    normalized: Result<Seq<char>, Seq<char>>,
)
    requires
        window.has(id),
    ensures
        ({
            let draft = window.permitted(id, false, normalized).form.endpoints[window.at(id)];
            &&& !draft.remote_content_confirmed
            &&& !draft.allow_insecure_remote_http
            &&& draft.confirmed_remote_endpoint == Seq::<char>::empty()
        }),
{
    lemma_has_draft(window.form.endpoints, id);
}

/// A permission names the place it was given for.
pub proof fn a_permission_names_its_place(
    window: SettingsWindowView,
    id: Seq<char>,
    normalized: Result<Seq<char>, Seq<char>>,
)
    requires
        window.has(id),
    ensures
        ({
            let draft = window.permitted(id, true, normalized).form.endpoints[window.at(id)];
            &&& draft.remote_content_confirmed == normalized is Ok
            &&& normalized is Ok ==> draft.confirmed_remote_endpoint == normalized->Ok_0
            &&& normalized is Err ==> draft.confirmed_remote_endpoint == Seq::<char>::empty()
        }),
{
    lemma_has_draft(window.form.endpoints, id);
}

/// Saving that fails, or that the user calls off, keeps what was entered, so that
/// it can be tried again.
pub proof fn unsaved_settings_stay_entered(window: SettingsWindowView, error: Seq<char>)
    requires
        !window.busy(),
    ensures
        window.saving(None).operation == PendingOperation::Saving,
        window.saving(None).answered(false).form == window.form,
        !window.saving(None).answered(false).busy(),
        window.saving(None).answered(true).saved(Some(error)).form == window.form,
        !window.saving(None).answered(true).saved(Some(error)).busy(),
        window.saving(Some(error)).form == window.form,
        !window.saving(Some(error)).busy(),
{
}

} // verus!
