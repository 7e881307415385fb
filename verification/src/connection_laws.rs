//! What the settings window does to the connections and to what was entered, and what
//! it leaves as it was.

use crate::citation_script::hex_digit;
use crate::form_laws::lemma_first_place;
use crate::seqs::lemma_filter_agrees;
use crate::settings::{within, ChatGenerationView};
use crate::settings_fields::{ModelRole, NoticeView, PendingOperation, SettingsTab};
use crate::settings_form::{
    following, EndpointSettingsView, EndpointView, FormView, ModelInputsView, WebSearchInputsView,
};
use crate::settings_window::{hex, SettingsWindowView};
use crate::text::{decimal, trimmed};
use vstd::prelude::*;

verus! {

/// Whether a place is that of the first connection with an identifier.
pub open spec fn is_first(list: Seq<EndpointView>, id: Seq<char>, at: int) -> bool {
    &&& 0 <= at < list.len()
    &&& list[at].id == id
    &&& forall|k: int| 0 <= k < at ==> (#[trigger] list[k]).id != id
}

/// Whether of a window only one connection has changed, and perhaps what it tells.
pub open spec fn changes_one(
    before: SettingsWindowView,
    after: SettingsWindowView,
    at: int,
    draft: EndpointView,
) -> bool {
    after == (SettingsWindowView {
        form: FormView { endpoints: before.form.endpoints.update(at, draft), ..before.form },
        notice: after.notice,
        ..before
    })
}

/// Renaming a connection changes its name; its timeout changes where digits alone were
/// entered. No other connection changes, and nothing else of the window.
pub proof fn a_connection_is_renamed_alone(
    window: SettingsWindowView,
    id: Seq<char>,
    text: Seq<char>,
    at: int,
)
    requires
        is_first(window.form.endpoints, id, at),
    ensures
        ({
            let draft = window.form.endpoints[at];
            let digits = forall|i: int|
                0 <= i < text.len() ==> '0' <= #[trigger] text[i] && text[i] <= '9';
            &&& changes_one(
                window,
                window.renamed(id, text),
                at,
                EndpointView { name: text, ..draft },
            )
            &&& window.renamed(id, text).notice == window.notice
            &&& digits ==> changes_one(
                window,
                window.timed(id, text),
                at,
                EndpointView { request_timeout: text, ..draft },
            ) && window.timed(id, text).notice == window.notice
            &&& !digits ==> window.timed(id, text) == window
        }),
{
    lemma_first_place(window.form.endpoints, id, at);
}

/// Another key for a connection is entered as it is, or dropped where the stored one is to
/// be deleted; what was detected with the old one no longer counts. No other connection
/// changes.
pub proof fn a_key_is_entered_for_one_connection(
    window: SettingsWindowView,
    id: Seq<char>,
    key: Seq<char>,
    at: int,
)
    requires
        is_first(window.form.endpoints, id, at),
    ensures
        ({
            let draft = window.form.endpoints[at];
            let stale = EndpointView {
                detected_models: None,
                discovery_generation: following(draft.discovery_generation),
                ..draft
            };
            &&& changes_one(
                window,
                window.rekeyed(id, key),
                at,
                EndpointView { api_key: key, ..stale },
            )
            &&& changes_one(
                window,
                window.deleting_key(id, true),
                at,
                EndpointView { delete_api_key: true, api_key: Seq::empty(), ..stale },
            )
            &&& changes_one(
                window,
                window.deleting_key(id, false),
                at,
                EndpointView { delete_api_key: false, ..stale },
            )
            &&& window.rekeyed(id, key).notice is None
            &&& following(draft.discovery_generation) != draft.discovery_generation
        }),
{
    lemma_first_place(window.form.endpoints, id, at);
}

/// A permission is given to one connection, for the place that it leads to, and withdrawn
/// from it together with that for plain connections; where the place is not valid, none is
/// given and the window says why.
pub proof fn a_permission_is_given_to_one_connection(
    window: SettingsWindowView,
    id: Seq<char>,
    url: Seq<char>,
    error: Seq<char>,
    checked: bool,
    at: int,
)
    requires
        is_first(window.form.endpoints, id, at),
    ensures
        ({
            let draft = window.form.endpoints[at];
            let given = window.permitted(id, true, Ok(url));
            let withdrawn = window.permitted(id, false, Ok(url));
            let refused = window.permitted(id, true, Err(error));
            &&& changes_one(
                window,
                given,
                at,
                EndpointView {
                    remote_content_confirmed: true,
                    confirmed_remote_endpoint: url,
                    ..draft
                },
            )
            &&& given.notice == window.notice
            &&& changes_one(
                window,
                withdrawn,
                at,
                EndpointView {
                    remote_content_confirmed: false,
                    allow_insecure_remote_http: false,
                    confirmed_remote_endpoint: Seq::empty(),
                    ..draft
                },
            )
            &&& withdrawn.notice == window.notice
            &&& changes_one(
                window,
                refused,
                at,
                EndpointView {
                    remote_content_confirmed: false,
                    confirmed_remote_endpoint: Seq::empty(),
                    ..draft
                },
            )
            &&& refused.notice == Some(
                NoticeView { text: "Endpoint 无效，无法确认："@ + error, error: true },
            )
            &&& changes_one(
                window,
                window.insecure(id, checked),
                at,
                EndpointView { allow_insecure_remote_http: checked, ..draft },
            )
        }),
{
    lemma_first_place(window.form.endpoints, id, at);
}

/// A connection that there is not is not edited.
pub proof fn an_unknown_connection_is_not_edited(
    window: SettingsWindowView,
    id: Seq<char>,
    text: Seq<char>,
    canonical: Option<Seq<char>>,
    checked: bool,
    normalized: Result<Seq<char>, Seq<char>>,
    role: ModelRole,
)
    requires
        forall|i: int|
            0 <= i < window.form.endpoints.len() ==> (#[trigger] window.form.endpoints[i]).id != id,
    ensures
        window.renamed(id, text) == window,
        window.timed(id, text) == window,
        window.readdressed(id, text, canonical) == window,
        window.rekeyed(id, text) == window,
        window.deleting_key(id, checked) == window,
        window.permitted(id, checked, normalized) == window,
        window.insecure(id, checked) == window,
        window.selecting(id) == window,
        window.assigned(role, id) == window,
{
}

/// A connection is shown exactly where there is one and nothing is awaited; what was
/// entered stays.
pub proof fn a_connection_is_shown_where_there_is_one(
    window: SettingsWindowView,
    id: Seq<char>,
    at: int,
)
    requires
        is_first(window.form.endpoints, id, at),
        window.operation == PendingOperation::Idle,
    ensures
        window.selecting(id) == (SettingsWindowView { selected: id, notice: None, ..window }),
{
    lemma_first_place(window.form.endpoints, id, at);
}

/// A model is served by the connection that was chosen for it; the other roles keep
/// theirs, and nothing else changes.
pub proof fn a_role_is_served_by_what_was_chosen(
    window: SettingsWindowView,
    role: ModelRole,
    other: ModelRole,
    id: Seq<char>,
    at: int,
)
    requires
        is_first(window.form.endpoints, id, at),
        window.operation == PendingOperation::Idle,
    ensures
        ({
            let after = window.assigned(role, id);
            &&& after.form.route(role) == id
            &&& other != role ==> after.form.route(other) == window.form.route(other)
            &&& after.form.endpoints == window.form.endpoints
            &&& after.form.models == window.form.models
            &&& after.form.web == window.form.web
            &&& after.form.application == window.form.application
            &&& after.selected == window.selected
            &&& after.active_tab == window.active_tab
            &&& after.notice is None
        }),
        window.form.route(ModelRole::Chat) == window.form.chat_endpoint_id,
        window.form.route(ModelRole::Embedding) == window.form.embedding_endpoint_id,
        window.form.route(ModelRole::Vision) == window.form.vision_endpoint_id,
        window.form.model(ModelRole::Chat) == window.form.models.chat_model,
        window.form.model(ModelRole::Embedding) == window.form.models.embedding_model,
        window.form.model(ModelRole::Vision) == window.form.models.vision_model,
{
    lemma_first_place(window.form.endpoints, id, at);
}

/// Bytes are written as two digits each, the higher one first, in their order.
pub proof fn bytes_are_written_in_pairs(bytes: Seq<u8>, i: int)
    requires
        0 <= i < bytes.len(),
    ensures
        hex(bytes).len() == 2 * bytes.len(),
        hex(bytes)[2 * i] == hex_digit(bytes[i] as nat / 16),
        hex(bytes)[2 * i + 1] == hex_digit(bytes[i] as nat % 16),
    decreases bytes.len(),
{
    let rest = bytes.drop_last();
    if i < rest.len() {
        bytes_are_written_in_pairs(rest, i);
        assert(hex(bytes)[2 * i] == hex(rest)[2 * i]);
        assert(hex(bytes)[2 * i + 1] == hex(rest)[2 * i + 1]);
    } else {
        lemma_hex_length(rest);
    }
}

proof fn lemma_hex_length(bytes: Seq<u8>)
    ensures
        hex(bytes).len() == 2 * bytes.len(),
    decreases bytes.len(),
{
    if bytes.len() > 0 {
        lemma_hex_length(bytes.drop_last());
    }
}

/// A connection that was added stands behind all others and is shown: with an identifier
/// of its own, numbered, without an address, a key or a permission, and with a timeout of
/// 120 seconds. Where no identifier could be made, the window says so.
pub proof fn an_added_connection_is_empty(
    window: SettingsWindowView,
    bytes: Seq<u8>,
    canonical: Option<Seq<char>>,
)
    requires
        window.operation == PendingOperation::Idle,
    ensures
        ({
            let after = window.added(Some(bytes), canonical);
            let n = window.form.endpoints.len() as int;
            let draft = after.form.endpoints[n];
            &&& after.form.endpoints.len() == n + 1
            &&& after.form.endpoints.subrange(0, n) == window.form.endpoints
            &&& draft.id == "endpoint-"@ + hex(bytes)
            &&& draft.name == "Endpoint "@ + decimal((n + 1) as nat)
            &&& draft.base_url.len() == 0
            &&& draft.request_timeout == decimal(120)
            &&& draft.api_key.len() == 0
            &&& !draft.delete_api_key
            &&& !draft.remote_content_confirmed
            &&& !draft.allow_insecure_remote_http
            &&& draft.confirmed_remote_endpoint.len() == 0
            &&& draft.detected_models is None
            &&& after.selected == draft.id
            &&& after.form == (FormView { endpoints: after.form.endpoints, ..window.form })
            &&& after.active_tab == window.active_tab
        }),
        window.added(None, canonical).form == window.form,
        window.added(None, canonical).notice == Some(
            NoticeView { text: "无法生成 Endpoint 标识，请重试。"@, error: true },
        ),
{
    let n = window.form.endpoints.len() as int;
    assert(window.added(Some(bytes), canonical).form.endpoints.subrange(0, n)
        =~= window.form.endpoints);
}

/// The connection that is shown is removed where it serves no use and is not the default
/// one; all others stay in their order, and the default one is shown. One in use stays, and the window
/// says so.
pub proof fn a_removed_connection_leaves_the_others(
    window: SettingsWindowView,
    keep: spec_fn(EndpointView) -> bool,
)
    requires
        window.operation == PendingOperation::Idle,
        window.selected != "default"@,
        forall|draft: EndpointView| #[trigger] keep(draft) <==> draft.id != window.selected,
    ensures
        ({
            let after = window.deleted();
            let used = window.form.chat_endpoint_id == window.selected
                || window.form.embedding_endpoint_id == window.selected
                || window.form.vision_endpoint_id == window.selected;
            &&& used ==> after.form == window.form && after.selected == window.selected
                && after.notice is Some && after.notice->0.error
            &&& !used ==> {
                &&& after.form.endpoints == window.form.endpoints.filter(keep)
                &&& after.form == (FormView { endpoints: after.form.endpoints, ..window.form })
                &&& after.selected == "default"@
                &&& after.notice is None
            }
        }),
{
    lemma_filter_agrees(
        window.form.endpoints,
        keep,
        crate::settings_window::other_than(window.selected),
    );
}

/// The parameters of a conversation are set to their defaults, and nothing else that was
/// entered changes; a tab is switched to, and nothing at all that was entered changes.
pub proof fn parameters_are_set_to_their_defaults(
    window: SettingsWindowView,
    defaults: ChatGenerationView,
    tab: SettingsTab,
)
    requires
        window.operation == PendingOperation::Idle,
    ensures
        ({
            let after = window.reset(defaults);
            let shown = after.form.models.generation;
            &&& defaults.temperature is Some ==> shown.temperature == defaults.temperature->0
            &&& defaults.temperature is None ==> shown.temperature.len() == 0
            &&& defaults.top_p is Some ==> shown.top_p == defaults.top_p->0
            &&& defaults.top_p is None ==> shown.top_p.len() == 0
            &&& shown.max_output_tokens == decimal(defaults.max_output_tokens)
            &&& defaults.presence_penalty is Some ==> shown.presence_penalty
                == defaults.presence_penalty->0
            &&& defaults.presence_penalty is None ==> shown.presence_penalty.len() == 0
            &&& defaults.frequency_penalty is Some ==> shown.frequency_penalty
                == defaults.frequency_penalty->0
            &&& defaults.frequency_penalty is None ==> shown.frequency_penalty.len() == 0
            &&& after.form == (FormView {
                models: ModelInputsView { generation: shown, ..window.form.models },
                ..window.form
            })
            &&& after.notice is Some && !after.notice->0.error
        }),
        window.switched(tab) == (SettingsWindowView { active_tab: tab, ..window }),
{
}

// ---------------------------------------------------------------------------
// Detecting and saving
// ---------------------------------------------------------------------------

/// The models of a connection are asked for exactly where nothing is awaited, the
/// connection is there, and it can be used; what was detected before no longer counts
/// either way. Where it cannot be used, the window says why.
pub proof fn models_are_asked_of_a_usable_connection(
    window: SettingsWindowView,
    id: Seq<char>,
    verdict: Option<Seq<char>>,
    at: int,
)
    requires
        is_first(window.form.endpoints, id, at),
        window.operation == PendingOperation::Idle,
    ensures
        ({
            let draft = window.form.endpoints[at];
            let after = window.detecting(id, verdict);
            let usable = within(draft.request_timeout, 1, 600) is Some && verdict is None;
            &&& window.detects(id, verdict) == usable
            &&& after.form == (FormView {
                endpoints: window.form.endpoints.update(
                    at,
                    EndpointView {
                        detected_models: None,
                        discovery_generation: following(draft.discovery_generation),
                        ..draft
                    },
                ),
                ..window.form
            })
            &&& usable ==> after.operation == PendingOperation::Detecting && after.notice == Some(
                NoticeView {
                    text: "正在读取 "@ + trimmed(draft.name) + " 的模型…"@,
                    error: false,
                },
            )
            &&& !usable ==> after.operation == PendingOperation::Idle && after.notice is Some
                && after.notice->0.error
            &&& within(draft.request_timeout, 1, 600) is Some && verdict is Some ==> after.notice
                == Some(
                NoticeView { text: "AI Provider 设置无效："@ + verdict->0, error: true },
            )
            &&& after.selected == window.selected
            &&& after.active_tab == window.active_tab
        }),
{
    lemma_first_place(window.form.endpoints, id, at);
}

/// An answer to the question for models counts exactly where a connection is there with
/// the same identifier, asked under the same number and leading to the same place. Then
/// its models are those of the connection, or the window says why there are none.
pub proof fn detected_models_belong_to_their_connection(
    window: SettingsWindowView,
    endpoint: EndpointSettingsView,
    generation: u64,
    asked: Option<Seq<char>>,
    current: Seq<Option<Seq<char>>>,
    models: Seq<Seq<char>>,
    error: Seq<char>,
    at: int,
)
    requires
        is_first(window.form.endpoints, endpoint.id, at),
    ensures
        window.form.endpoints[at].discovery_generation == generation && current[at] == asked ==> {
            let after = window.detected(endpoint, generation, asked, current, Ok(models));
            let failed = window.detected(endpoint, generation, asked, current, Err(error));
            &&& window.detection_matches(endpoint.id, generation, asked, current)
            &&& after.form == (FormView {
                endpoints: window.form.endpoints.update(
                    at,
                    EndpointView { detected_models: Some(models), ..window.form.endpoints[at] },
                ),
                ..window.form
            })
            &&& after.operation == PendingOperation::Idle
            &&& after.notice == Some(
                NoticeView {
                    text: endpoint.name + " 连接成功，返回 "@ + decimal(models.len())
                        + " 个模型；可在各模型区域查看或选择。"@,
                    error: false,
                },
            )
            &&& failed.form == window.form
            &&& failed.operation == PendingOperation::Idle
            &&& failed.notice == Some(
                NoticeView {
                    text: "无法读取 "@ + endpoint.name + " 的模型："@ + error
                        + "。若使用本地 Ollama，请确认服务已运行。"@,
                    error: true,
                },
            )
        },
        (forall|i: int|
            0 <= i < window.form.endpoints.len() && (#[trigger] window.form.endpoints[i]).id
                == endpoint.id ==> window.form.endpoints[i].discovery_generation != generation
                || current[i] != asked) ==> window.detected(
            endpoint,
            generation,
            asked,
            current,
            Ok(models),
        ) == (SettingsWindowView {
            operation: PendingOperation::Idle,
            notice: None,
            ..window
        }),
{
    lemma_first_place(window.form.endpoints, endpoint.id, at);
    assert(window.form.endpoints[at].id == endpoint.id);
}

/// Saving starts where nothing is awaited and nothing is wrong, and says why not
/// otherwise; it ends with a notice of what came of it. What was entered stays.
pub proof fn saving_is_told_from_start_to_end(window: SettingsWindowView, error: Seq<char>)
    requires
        window.operation == PendingOperation::Idle,
    ensures
        window.saving(None) == (SettingsWindowView {
            operation: PendingOperation::Saving,
            notice: Some(NoticeView { text: "正在安全保存 Provider 设置…"@, error: false }),
            ..window
        }),
        window.saving(Some(error)) == (SettingsWindowView {
            notice: Some(NoticeView { text: "AI Provider 设置无效："@ + error, error: true }),
            ..window
        }),
        window.answered(true) == window,
        window.answered(false) == (SettingsWindowView {
            operation: PendingOperation::Idle,
            notice: Some(
                NoticeView { text: "已取消保存，Embedding 设置未修改。"@, error: false },
            ),
            ..window
        }),
        window.saved(None) == (SettingsWindowView {
            operation: PendingOperation::Idle,
            notice: Some(
                NoticeView {
                    text: "Provider 设置已保存；新的搜索与问答请求会使用这些设置。"@,
                    error: false,
                },
            ),
            ..window
        }),
        window.saved(Some(error)) == (SettingsWindowView {
            operation: PendingOperation::Idle,
            notice: Some(NoticeView { text: "保存 Provider 设置失败："@ + error, error: true }),
            ..window
        }),
{
}

/// A permission for the search on the web is given for its place, and withdrawn together
/// with that for plain connections; where the place is not valid, none is given and the
/// window says so. Nothing else of the search changes.
pub proof fn a_permission_for_the_web_names_its_place(window: SettingsWindowView, url: Seq<char>)
    ensures
        window.web_permitted(true, Some(url)) == window.with_form(
            FormView {
                web: WebSearchInputsView {
                    remote_confirmed: true,
                    confirmed_remote_endpoint: url,
                    ..window.form.web
                },
                ..window.form
            },
        ),
        window.web_permitted(false, Some(url)) == window.with_form(
            FormView {
                web: WebSearchInputsView {
                    remote_confirmed: false,
                    allow_insecure_http: false,
                    confirmed_remote_endpoint: Seq::empty(),
                    ..window.form.web
                },
                ..window.form
            },
        ),
        window.web_permitted(false, None) == window.web_permitted(false, Some(url)),
        window.web_permitted(true, None).form == (FormView {
            web: WebSearchInputsView {
                remote_confirmed: false,
                confirmed_remote_endpoint: Seq::empty(),
                ..window.form.web
            },
            ..window.form
        }),
        window.web_permitted(true, None).notice == Some(
            NoticeView { text: "联网搜索端点无效，无法确认。"@, error: true },
        ),
        window.with_form(window.form) == window,
{
}

} // verus!
