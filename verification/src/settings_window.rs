//! The settings window: what each operation does to what is entered, to what is
//! awaited and to what is told.

use crate::citation_script::hex_digit;
use crate::settings::{
    endpoint_draft_identity, identity_of, ChatGenerationSettings, ChatGenerationView,
    GenerationForm, GenerationView, DEFAULT_AI_REQUEST_TIMEOUT_SECS, DEFAULT_ENDPOINT_ID,
};
use crate::settings_fields::{
    change_view, followed, model_field, notice, notice_view, says, DataDirChange,
    DataDirChangeView, FormField, ModelRole, NoticeView, PendingOperation, SettingsNotice,
    SettingsTab,
};
use crate::settings_form::{
    drafts, empty_text, find_draft, has_draft, lemma_has_draft, option_views, place, EndpointDraft,
    EndpointSettingsView, EndpointView, FormView, ModelInputsView, ProviderSettings,
    ProviderSettingsView, SettingsForm,
};
use crate::text::{decimal, option_text, same_text};
use vstd::prelude::*;
use vstd::string::*;

verus! {

/// The settings window. The host shows it anew after each operation.
#[derive(Debug, PartialEq, Eq)]
pub struct AiSettingsWindow {
    pub form: SettingsForm,
    pub selected_endpoint_id: String,
    pub active_tab: SettingsTab,
    pub operation: PendingOperation,
    /// Whether a directory is being chosen, or a choice is being recorded.
    pub choosing_data_directory: bool,
    /// A change to a place that already holds a library, until it is confirmed.
    pub confirm_overwrite: Option<DataDirChange>,
    pub notice: Option<SettingsNotice>,
}

/// The settings window, as texts.
pub struct SettingsWindowView {
    pub form: FormView,
    pub selected: Seq<char>,
    pub active_tab: SettingsTab,
    pub operation: PendingOperation,
    pub choosing: bool,
    pub overwrite: Option<DataDirChangeView>,
    pub notice: Option<NoticeView>,
}

impl View for AiSettingsWindow {
    type V = SettingsWindowView;

    open spec fn view(&self) -> SettingsWindowView {
        SettingsWindowView {
            form: self.form@,
            selected: self.selected_endpoint_id@,
            active_tab: self.active_tab,
            operation: self.operation,
            choosing: self.choosing_data_directory,
            overwrite: change_view(self.confirm_overwrite),
            notice: notice_view(self.notice),
        }
    }
}

// ---------------------------------------------------------------------------
// What the operations do
// ---------------------------------------------------------------------------

/// Bytes as pairs of hexadecimal digits.
pub open spec fn hex(bytes: Seq<u8>) -> Seq<char>
    decreases bytes.len(),
{
    if bytes.len() == 0 {
        Seq::empty()
    } else {
        hex(bytes.drop_last()).push(hex_digit(bytes.last() as nat / 16)).push(
            hex_digit(bytes.last() as nat % 16),
        )
    }
}

/// A connection that is new.
pub open spec fn fresh_endpoint(bytes: Seq<u8>, ordinal: nat) -> EndpointSettingsView {
    EndpointSettingsView {
        id: "endpoint-"@ + hex(bytes),
        name: "Endpoint "@ + decimal(ordinal),
        base_url: Seq::empty(),
        request_timeout_secs: DEFAULT_AI_REQUEST_TIMEOUT_SECS as nat,
        remote_content_confirmed: false,
        allow_insecure_remote_http: false,
        confirmed_remote_endpoint: Seq::empty(),
    }
}

impl EndpointView {
    /// After another address was entered. A connection to another place has
    /// neither the key nor the permissions of the old one.
    pub open spec fn readdressed(self, url: Seq<char>, canonical: Option<Seq<char>>) -> Self {
        if identity_of(url, canonical) == self.observed_url {
            EndpointView { base_url: url, ..self }
        } else {
            EndpointView {
                base_url: url,
                observed_url: identity_of(url, canonical),
                remote_content_confirmed: false,
                allow_insecure_remote_http: false,
                confirmed_remote_endpoint: Seq::empty(),
                delete_api_key: false,
                api_key: Seq::empty(),
                ..self.invalidated()
            }
        }
    }

    /// After it was said whether the stored key is to go.
    pub open spec fn deleting_key(self, delete: bool) -> Self {
        EndpointView {
            delete_api_key: delete,
            api_key: if delete {
                Seq::empty()
            } else {
                self.api_key
            },
            ..self.invalidated()
        }
    }

    /// After the permission to send content was given or withdrawn. `normalized` is
    /// the normal form of the address, or what is wrong with it.
    pub open spec fn permitted(
        self,
        checked: bool,
        normalized: Result<Seq<char>, Seq<char>>,
    ) -> Self {
        match normalized {
            Ok(url) if checked => EndpointView {
                remote_content_confirmed: true,
                confirmed_remote_endpoint: url,
                ..self
            },
            _ => EndpointView {
                remote_content_confirmed: false,
                allow_insecure_remote_http: checked && self.allow_insecure_remote_http,
                confirmed_remote_endpoint: Seq::empty(),
                ..self
            },
        }
    }
}

pub open spec fn result_view(r: Result<String, String>) -> Result<Seq<char>, Seq<char>> {
    match r {
        Ok(text) => Ok(text@),
        Err(error) => Err(error@),
    }
}

/// Connections without those of an identifier.
pub open spec fn without(list: Seq<EndpointView>, id: Seq<char>) -> Seq<EndpointView> {
    list.filter(other_than(id))
}

/// Whether a draft has another identifier.
pub open spec fn other_than(id: Seq<char>) -> spec_fn(EndpointView) -> bool {
    |e: EndpointView| e.id != id
}

impl SettingsWindowView {
    pub open spec fn busy(self) -> bool {
        self.operation != PendingOperation::Idle
    }

    /// Whether there is a connection.
    pub open spec fn has(self, id: Seq<char>) -> bool {
        has_draft(self.form.endpoints, id)
    }

    /// The place of a connection.
    pub open spec fn at(self, id: Seq<char>) -> int {
        place(self.form.endpoints, id)
    }

    /// A connection that there is.
    pub open spec fn draft(self, id: Seq<char>) -> EndpointView {
        self.form.endpoints[self.at(id)]
    }

    /// Whether the connection that is shown, and the default one, are there.
    pub open spec fn wf(self) -> bool {
        self.has(self.selected) && self.has(DEFAULT_ENDPOINT_ID@)
    }

    /// Whether the connections that serve some use are there.
    pub open spec fn routes_lead_somewhere(self) -> bool {
        self.has(self.form.chat_endpoint_id) && self.has(self.form.embedding_endpoint_id)
            && self.has(self.form.vision_endpoint_id)
    }

    pub open spec fn telling(self, text: Seq<char>, error: bool) -> Self {
        SettingsWindowView { notice: says(text, error), ..self }
    }

    pub open spec fn with_form(self, form: FormView) -> Self {
        SettingsWindowView { form, ..self }
    }

    /// With another draft of a connection.
    pub open spec fn with_draft(self, id: Seq<char>, draft: EndpointView) -> Self {
        self.with_form(self.form.with_draft(self.at(id), draft))
    }

    pub open spec fn quiet(self) -> Self {
        SettingsWindowView { notice: None, ..self }
    }

    /// A window that shows what is stored.
    pub open spec fn opened(
        settings: ProviderSettingsView,
        canonical: Seq<Option<Seq<char>>>,
    ) -> Self {
        SettingsWindowView {
            form: FormView::of(settings, canonical),
            selected: DEFAULT_ENDPOINT_ID@,
            active_tab: SettingsTab::Endpoint,
            operation: PendingOperation::Idle,
            choosing: false,
            overwrite: None,
            notice: None,
        }
    }

    pub open spec fn renamed(self, id: Seq<char>, name: Seq<char>) -> Self {
        if self.has(id) {
            self.with_draft(id, EndpointView { name, ..self.draft(id) })
        } else {
            self
        }
    }

    pub open spec fn timed(self, id: Seq<char>, timeout: Seq<char>) -> Self {
        if self.has(id) && crate::settings_fields::all_digits(timeout) {
            self.with_draft(id, EndpointView { request_timeout: timeout, ..self.draft(id) })
        } else {
            self
        }
    }

    /// After another address was entered.
    pub open spec fn readdressed(
        self,
        id: Seq<char>,
        url: Seq<char>,
        canonical: Option<Seq<char>>,
    ) -> Self {
        if !self.has(id) {
            self
        } else if identity_of(url, canonical) == self.draft(id).observed_url {
            self.with_draft(id, self.draft(id).readdressed(url, canonical))
        } else {
            self.with_draft(id, self.draft(id).readdressed(url, canonical)).quiet()
        }
    }

    /// After another key was entered.
    pub open spec fn rekeyed(self, id: Seq<char>, key: Seq<char>) -> Self {
        if self.has(id) {
            self.with_draft(
                id,
                EndpointView { api_key: key, ..self.draft(id).invalidated() },
            ).quiet()
        } else {
            self
        }
    }

    pub open spec fn deleting_key(self, id: Seq<char>, delete: bool) -> Self {
        if self.has(id) {
            self.with_draft(id, self.draft(id).deleting_key(delete)).quiet()
        } else {
            self
        }
    }

    pub open spec fn permitted(
        self,
        id: Seq<char>,
        checked: bool,
        normalized: Result<Seq<char>, Seq<char>>,
    ) -> Self {
        if !self.has(id) {
            self
        } else {
            let changed = self.with_draft(id, self.draft(id).permitted(checked, normalized));
            match normalized {
                Err(error) if checked => changed.telling(
                    "Endpoint 无效，无法确认："@ + error,
                    true,
                ),
                _ => changed,
            }
        }
    }

    pub open spec fn insecure(self, id: Seq<char>, checked: bool) -> Self {
        if self.has(id) {
            self.with_draft(
                id,
                EndpointView { allow_insecure_remote_http: checked, ..self.draft(id) },
            )
        } else {
            self
        }
    }

    pub open spec fn selecting(self, id: Seq<char>) -> Self {
        if self.busy() || !self.has(id) {
            self
        } else {
            SettingsWindowView { selected: id, notice: None, ..self }
        }
    }

    /// After a connection was to be added, given the bytes that chance gave and the
    /// normal form of an empty address, if it has one.
    pub open spec fn added(self, random: Option<Seq<u8>>, canonical: Option<Seq<char>>) -> Self {
        if self.busy() {
            self
        } else {
            match random {
                None => self.telling("无法生成 Endpoint 标识，请重试。"@, true),
                Some(bytes) => {
                    let fresh = fresh_endpoint(bytes, self.form.endpoints.len() + 1);
                    let endpoints = self.form.endpoints.push(EndpointView::of(fresh, canonical));
                    SettingsWindowView {
                        form: FormView { endpoints, ..self.form },
                        selected: fresh.id,
                        notice: None,
                        ..self
                    }
                },
            }
        }
    }

    /// After the connection that is shown was to go.
    pub open spec fn deleted(self) -> Self {
        if self.busy() || self.selected == DEFAULT_ENDPOINT_ID@ {
            self
        } else if self.form.is_bound(self.selected) {
            self.telling(
                "这个 Endpoint 仍被模型使用，请先在“对话模型”中重新选择对应 Endpoint。"@,
                true,
            )
        } else {
            SettingsWindowView {
                form: FormView {
                    endpoints: without(self.form.endpoints, self.selected),
                    ..self.form
                },
                selected: DEFAULT_ENDPOINT_ID@,
                notice: None,
                ..self
            }
        }
    }

    pub open spec fn assigned(self, role: ModelRole, id: Seq<char>) -> Self {
        if self.busy() || !self.has(id) {
            self
        } else {
            self.with_form(self.form.routed(role, id)).quiet()
        }
    }

    pub open spec fn switched(self, tab: SettingsTab) -> Self {
        if self.busy() {
            self
        } else {
            SettingsWindowView { active_tab: tab, ..self }
        }
    }

    pub open spec fn reset(self, defaults: ChatGenerationView) -> Self {
        if self.busy() {
            self
        } else {
            self.with_form(
                FormView {
                    models: ModelInputsView {
                        generation: GenerationView::of(defaults),
                        ..self.form.models
                    },
                    ..self.form
                },
            ).telling("对话生成参数已恢复默认，点击“保存设置”后生效。"@, false)
        }
    }
}

impl AiSettingsWindow {
    pub open spec fn wf(self) -> bool {
        self@.wf()
    }

    /// A window that shows what is stored. `canonical` holds the normal form of the
    /// address of each connection, where it has one.
    pub fn new(settings: &ProviderSettings, canonical: &Vec<Option<String>>) -> (r: Self)
        requires
            canonical@.len() == settings.endpoint_routing.additional_endpoints@.len() + 1,
        ensures
            r@ == SettingsWindowView::opened(settings@, option_views(canonical@)),
            r.wf(),
    {
        let form = SettingsForm::new(settings, canonical);
        assert(form@.endpoints[0].id == DEFAULT_ENDPOINT_ID@);
        AiSettingsWindow {
            form,
            selected_endpoint_id: DEFAULT_ENDPOINT_ID.to_owned(),
            active_tab: SettingsTab::default(),
            operation: PendingOperation::Idle,
            choosing_data_directory: false,
            confirm_overwrite: None,
            notice: None,
        }
    }

    /// Enters the name of a connection.
    pub fn edit_name(&mut self, id: &str, name: &str)
        ensures
            final(self)@ == old(self)@.renamed(id@, name@),
    {
        match find_draft(&self.form.endpoints, id) {
            Some(i) => {
                let ghost before = self@;
                let draft = &mut self.form.endpoints[i];
                draft.name = name.to_owned();
                assert(drafts(self.form.endpoints@) =~= before.renamed(
                    id@,
                    name@,
                ).form.endpoints);
            },
            None => {},
        }
    }

    /// Enters the timeout of a connection, which takes digits alone. The result
    /// says whether it was taken.
    pub fn edit_request_timeout(&mut self, id: &str, timeout: &str) -> (r: bool)
        ensures
            r == (old(self)@.has(id@) && crate::settings_fields::all_digits(timeout@)),
            final(self)@ == old(self)@.timed(id@, timeout@),
    {
        if !crate::settings::is_digits(timeout) {
            return false;
        }
        match find_draft(&self.form.endpoints, id) {
            Some(i) => {
                let ghost before = self@;
                let draft = &mut self.form.endpoints[i];
                draft.request_timeout = timeout.to_owned();
                assert(drafts(self.form.endpoints@) =~= before.timed(
                    id@,
                    timeout@,
                ).form.endpoints);
                true
            },
            None => false,
        }
    }

    /// Enters the address of a connection. `canonical` is its normal form, if it
    /// has one. A connection to another place keeps neither key nor permissions.
    pub fn edit_base_url(&mut self, id: &str, url: &str, canonical: &Option<String>)
        ensures
            final(self)@ == old(self)@.readdressed(id@, url@, option_text(*canonical)),
    {
        match find_draft(&self.form.endpoints, id) {
            Some(i) => {
                let ghost before = self@;
                let identity = endpoint_draft_identity(url, canonical);
                let moved = !same_text(
                    identity.as_str(),
                    self.form.endpoints[i].observed_url.as_str(),
                );
                let draft = &mut self.form.endpoints[i];
                draft.base_url = url.to_owned();
                if moved {
                    draft.observed_url = identity;
                    draft.remote_content_confirmed = false;
                    draft.allow_insecure_remote_http = false;
                    draft.confirmed_remote_endpoint = empty_text();
                    draft.delete_api_key = false;
                    draft.api_key = empty_text();
                    draft.invalidate_models();
                }
                if moved {
                    self.notice = None;
                }
                assert(drafts(self.form.endpoints@) =~= before.readdressed(
                    id@,
                    url@,
                    option_text(*canonical),
                ).form.endpoints);
            },
            None => {},
        }
    }

    /// Enters the key of a connection.
    pub fn edit_api_key(&mut self, id: &str, key: &str)
        ensures
            final(self)@ == old(self)@.rekeyed(id@, key@),
    {
        match find_draft(&self.form.endpoints, id) {
            Some(i) => {
                let ghost before = self@;
                let draft = &mut self.form.endpoints[i];
                draft.api_key = key.to_owned();
                draft.invalidate_models();
                self.notice = None;
                assert(drafts(self.form.endpoints@) =~= before.rekeyed(id@, key@).form.endpoints);
            },
            None => {},
        }
    }

    /// Says whether the stored key of a connection is to go.
    pub fn set_delete_endpoint_key(&mut self, id: &str, delete: bool)
        ensures
            final(self)@ == old(self)@.deleting_key(id@, delete),
    {
        match find_draft(&self.form.endpoints, id) {
            Some(i) => {
                let ghost before = self@;
                let draft = &mut self.form.endpoints[i];
                draft.delete_api_key = delete;
                draft.invalidate_models();
                if delete {
                    draft.api_key = empty_text();
                }
                self.notice = None;
                assert(drafts(self.form.endpoints@) =~= before.deleting_key(
                    id@,
                    delete,
                ).form.endpoints);
            },
            None => {},
        }
    }

    /// Gives or withdraws the permission to send content to a connection.
    /// `normalized` is the normal form of its address, or what is wrong with it.
    pub fn confirm_remote(&mut self, id: &str, checked: bool, normalized: &Result<String, String>)
        ensures
            final(self)@ == old(self)@.permitted(id@, checked, result_view(*normalized)),
    {
        match find_draft(&self.form.endpoints, id) {
            Some(i) => {
                let ghost before = self@;
                let draft = &mut self.form.endpoints[i];
                if checked {
                    match normalized {
                        Ok(url) => {
                            draft.remote_content_confirmed = true;
                            draft.confirmed_remote_endpoint = url.clone();
                        },
                        Err(error) => {
                            draft.remote_content_confirmed = false;
                            draft.confirmed_remote_endpoint = empty_text();
                            self.notice = notice(
                                followed("Endpoint 无效，无法确认：", error.as_str()),
                                true,
                            );
                        },
                    }
                } else {
                    draft.remote_content_confirmed = false;
                    draft.allow_insecure_remote_http = false;
                    draft.confirmed_remote_endpoint = empty_text();
                }
                assert(drafts(self.form.endpoints@) =~= before.permitted(
                    id@,
                    checked,
                    result_view(*normalized),
                ).form.endpoints);
            },
            None => {},
        }
    }

    /// Says whether content may go to a connection in the clear.
    pub fn allow_insecure_http(&mut self, id: &str, checked: bool)
        ensures
            final(self)@ == old(self)@.insecure(id@, checked),
    {
        match find_draft(&self.form.endpoints, id) {
            Some(i) => {
                let ghost before = self@;
                let draft = &mut self.form.endpoints[i];
                draft.allow_insecure_remote_http = checked;
                assert(drafts(self.form.endpoints@) =~= before.insecure(
                    id@,
                    checked,
                ).form.endpoints);
            },
            None => {},
        }
    }

    /// The connection that is shown.
    pub fn selected_endpoint(&self) -> (r: &EndpointDraft)
        requires
            self.wf(),
        ensures
            r@ == self@.draft(self@.selected),
    {
        proof {
            lemma_has_draft(self@.form.endpoints, self@.selected);
        }
        let mut i: usize = 0;
        match find_draft(&self.form.endpoints, self.selected_endpoint_id.as_str()) {
            Some(found) => {
                i = found;
            },
            None => {},
        }
        assert(drafts(self.form.endpoints@)[i as int] == self.form.endpoints@[i as int]@);
        &self.form.endpoints[i]
    }

    /// Shows a connection. The result says whether the focus is to leave what was
    /// shown.
    pub fn select_endpoint(&mut self, id: &str) -> (r: bool)
        ensures
            r == (!old(self)@.busy() && old(self)@.has(id@)),
            final(self)@ == old(self)@.selecting(id@),
    {
        if self.operation.busy() || find_draft(&self.form.endpoints, id).is_none() {
            return false;
        }
        self.selected_endpoint_id = id.to_owned();
        self.notice = None;
        true
    }

    /// Lets a connection serve a use.
    pub fn assign_endpoint(&mut self, role: ModelRole, id: &str)
        ensures
            final(self)@ == old(self)@.assigned(role, id@),
    {
        if self.operation.busy() || find_draft(&self.form.endpoints, id).is_none() {
            return;
        }
        match role {
            ModelRole::Chat => {
                self.form.chat_endpoint_id = id.to_owned();
            },
            ModelRole::Embedding => {
                self.form.embedding_endpoint_id = id.to_owned();
            },
            ModelRole::Vision => {
                self.form.vision_endpoint_id = id.to_owned();
            },
        }
        self.notice = None;
    }

    /// Shows a tab. The result says whether the focus is to leave what was shown.
    pub fn switch_tab(&mut self, tab: SettingsTab) -> (r: bool)
        ensures
            r == (!old(self)@.busy() && old(self)@.active_tab != tab),
            final(self)@ == old(self)@.switched(tab),
    {
        if self.operation.busy() || self.active_tab == tab {
            return false;
        }
        self.active_tab = tab;
        true
    }

    /// Shows the default parameters of chats.
    pub fn reset_chat_generation(&mut self, defaults: &ChatGenerationSettings)
        ensures
            final(self)@ == old(self)@.reset(defaults@),
    {
        if self.operation.busy() {
            return;
        }
        self.form.models.generation = GenerationForm::new(defaults);
        self.notice = notice("对话生成参数已恢复默认，点击“保存设置”后生效。".to_owned(), false);
    }

    /// Enters a text into a field. The result says whether it was taken.
    pub fn edit(&mut self, field: FormField, text: &str) -> (r: bool)
        ensures
            r == field.takes(text@),
            final(self)@ == if field.takes(text@) {
                old(self)@.with_form(old(self)@.form.with(field, text@))
            } else {
                old(self)@
            },
    {
        if !field.accepts(text) {
            return false;
        }
        self.form.put(field, text);
        true
    }

    /// Takes a model that was detected for a use.
    pub fn choose_model(&mut self, role: ModelRole, model: &str)
        ensures
            final(self)@ == old(self)@.with_form(old(self)@.form.with(model_field(role), model@)),
    {
        match role {
            ModelRole::Chat => self.form.put(FormField::ChatModel, model),
            ModelRole::Embedding => self.form.put(FormField::EmbeddingModel, model),
            ModelRole::Vision => self.form.put(FormField::VisionModel, model),
        }
    }
}

} // verus!
