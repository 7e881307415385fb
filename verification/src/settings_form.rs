//! The form of the settings: what is stored, what is entered, and how one becomes
//! the other.

use crate::settings::{
    api_key_update_for_input, ascii_upper_text, concurrency_error, dimensions_error,
    endpoint_draft_identity, entered_generation, generation_error, identity_of, interval_error,
    key_update, non_blank, numbers_within_limits_are_read_back, optional_text,
    parse_background_job_concurrency, parse_background_job_interval_ms, parse_chat_generation,
    parse_embedding_dimensions, parse_request_timeout_secs, parse_web_search_max_results,
    parse_web_search_timeout_secs, request_timeout_error, upper_case, web_results_error,
    web_timeout_error, within, ApiKeyUpdate, ChatGenerationSettings, ChatGenerationView,
    GenerationForm, GenerationView, KeyUpdateView, NumberChecks, SettingsLimits,
    DEFAULT_ENDPOINT_ID, MAX_AI_REQUEST_TIMEOUT_SECS, MAX_BACKGROUND_JOB_CONCURRENCY,
    MAX_BACKGROUND_JOB_INTERVAL_MS, MIN_AI_REQUEST_TIMEOUT_SECS, MIN_BACKGROUND_JOB_CONCURRENCY,
};
use crate::text::{
    copy_option, decimal, decimal_text, is_blank, option_text, same_text, texts, trim, trimmed,
};
use vstd::prelude::*;
use vstd::string::*;

verus! {

// ---------------------------------------------------------------------------
// What is stored
// ---------------------------------------------------------------------------

/// A connection to a provider.
#[derive(Debug, PartialEq, Eq)]
pub struct EndpointSettings {
    pub id: String,
    pub name: String,
    pub base_url: String,
    pub request_timeout_secs: u64,
    pub remote_content_confirmed: bool,
    pub allow_insecure_remote_http: bool,
    pub confirmed_remote_endpoint: String,
}

/// A connection to a provider, as texts.
pub struct EndpointSettingsView {
    pub id: Seq<char>,
    pub name: Seq<char>,
    pub base_url: Seq<char>,
    pub request_timeout_secs: nat,
    pub remote_content_confirmed: bool,
    pub allow_insecure_remote_http: bool,
    pub confirmed_remote_endpoint: Seq<char>,
}

impl View for EndpointSettings {
    type V = EndpointSettingsView;

    open spec fn view(&self) -> EndpointSettingsView {
        EndpointSettingsView {
            id: self.id@,
            name: self.name@,
            base_url: self.base_url@,
            request_timeout_secs: self.request_timeout_secs as nat,
            remote_content_confirmed: self.remote_content_confirmed,
            allow_insecure_remote_http: self.allow_insecure_remote_http,
            confirmed_remote_endpoint: self.confirmed_remote_endpoint@,
        }
    }
}

impl Clone for EndpointSettings {
    fn clone(&self) -> (r: Self)
        ensures
            r@ == self@,
    {
        EndpointSettings {
            id: self.id.clone(),
            name: self.name.clone(),
            base_url: self.base_url.clone(),
            request_timeout_secs: self.request_timeout_secs,
            remote_content_confirmed: self.remote_content_confirmed,
            allow_insecure_remote_http: self.allow_insecure_remote_http,
            confirmed_remote_endpoint: self.confirmed_remote_endpoint.clone(),
        }
    }
}

/// Connections, as texts.
pub open spec fn endpoint_views(list: Seq<EndpointSettings>) -> Seq<EndpointSettingsView> {
    list.map_values(|e: EndpointSettings| e@)
}

/// How translations are shown beside the text.
#[derive(Clone, Copy, Debug, PartialEq, Eq, Structural)]
pub enum TranslationDisplayMode {
    Bilingual,
    OriginalOnly,
    TranslationOnly,
}

/// Which connections there are besides the default one, and which of them serves
/// what.
#[derive(Debug, PartialEq, Eq)]
pub struct EndpointRoutingSettings {
    pub default_endpoint_name: String,
    pub additional_endpoints: Vec<EndpointSettings>,
    pub chat_endpoint_id: String,
    pub embedding_endpoint_id: String,
    pub vision_endpoint_id: String,
}

/// All that is stored.
#[derive(Debug, PartialEq, Eq)]
pub struct ProviderSettings {
    pub base_url: String,
    pub endpoint_routing: EndpointRoutingSettings,
    pub chat_model: String,
    pub chat_generation: ChatGenerationSettings,
    pub embedding_model: String,
    pub embedding_dimensions: usize,
    pub vision_model: String,
    pub remote_content_confirmed: bool,
    pub allow_insecure_remote_http: bool,
    pub confirmed_remote_endpoint: String,
    pub request_timeout_secs: u64,
    pub web_search_enabled: bool,
    pub web_search_url_template: String,
    pub web_search_method: String,
    pub web_search_body_template: Option<String>,
    pub web_search_key_header: Option<String>,
    pub web_search_remote_confirmed: bool,
    pub web_search_allow_insecure_http: bool,
    pub web_search_confirmed_remote_endpoint: String,
    pub web_search_timeout_secs: u64,
    pub web_search_max_results: usize,
    pub auto_run_background_jobs: bool,
    pub background_job_concurrency: usize,
    pub background_job_interval_ms: u64,
    pub pdf_compact_reading: bool,
    pub default_language: Option<String>,
    pub translation_display_mode: TranslationDisplayMode,
    pub use_proxy: bool,
}

/// All that is stored, as texts and numbers.
pub struct ProviderSettingsView {
    pub base_url: Seq<char>,
    pub default_endpoint_name: Seq<char>,
    pub additional_endpoints: Seq<EndpointSettingsView>,
    pub chat_endpoint_id: Seq<char>,
    pub embedding_endpoint_id: Seq<char>,
    pub vision_endpoint_id: Seq<char>,
    pub chat_model: Seq<char>,
    pub chat_generation: ChatGenerationView,
    pub embedding_model: Seq<char>,
    pub embedding_dimensions: nat,
    pub vision_model: Seq<char>,
    pub remote_content_confirmed: bool,
    pub allow_insecure_remote_http: bool,
    pub confirmed_remote_endpoint: Seq<char>,
    pub request_timeout_secs: nat,
    pub web_search_enabled: bool,
    pub web_search_url_template: Seq<char>,
    pub web_search_method: Seq<char>,
    pub web_search_body_template: Option<Seq<char>>,
    pub web_search_key_header: Option<Seq<char>>,
    pub web_search_remote_confirmed: bool,
    pub web_search_allow_insecure_http: bool,
    pub web_search_confirmed_remote_endpoint: Seq<char>,
    pub web_search_timeout_secs: nat,
    pub web_search_max_results: nat,
    pub auto_run_background_jobs: bool,
    pub background_job_concurrency: nat,
    pub background_job_interval_ms: nat,
    pub pdf_compact_reading: bool,
    pub default_language: Option<Seq<char>>,
    pub translation_display_mode: TranslationDisplayMode,
    pub use_proxy: bool,
}

impl View for ProviderSettings {
    type V = ProviderSettingsView;

    open spec fn view(&self) -> ProviderSettingsView {
        ProviderSettingsView {
            base_url: self.base_url@,
            default_endpoint_name: self.endpoint_routing.default_endpoint_name@,
            additional_endpoints: endpoint_views(self.endpoint_routing.additional_endpoints@),
            chat_endpoint_id: self.endpoint_routing.chat_endpoint_id@,
            embedding_endpoint_id: self.endpoint_routing.embedding_endpoint_id@,
            vision_endpoint_id: self.endpoint_routing.vision_endpoint_id@,
            chat_model: self.chat_model@,
            chat_generation: self.chat_generation@,
            embedding_model: self.embedding_model@,
            embedding_dimensions: self.embedding_dimensions as nat,
            vision_model: self.vision_model@,
            remote_content_confirmed: self.remote_content_confirmed,
            allow_insecure_remote_http: self.allow_insecure_remote_http,
            confirmed_remote_endpoint: self.confirmed_remote_endpoint@,
            request_timeout_secs: self.request_timeout_secs as nat,
            web_search_enabled: self.web_search_enabled,
            web_search_url_template: self.web_search_url_template@,
            web_search_method: self.web_search_method@,
            web_search_body_template: option_text(self.web_search_body_template),
            web_search_key_header: option_text(self.web_search_key_header),
            web_search_remote_confirmed: self.web_search_remote_confirmed,
            web_search_allow_insecure_http: self.web_search_allow_insecure_http,
            web_search_confirmed_remote_endpoint: self.web_search_confirmed_remote_endpoint@,
            web_search_timeout_secs: self.web_search_timeout_secs as nat,
            web_search_max_results: self.web_search_max_results as nat,
            auto_run_background_jobs: self.auto_run_background_jobs,
            background_job_concurrency: self.background_job_concurrency as nat,
            background_job_interval_ms: self.background_job_interval_ms as nat,
            pdf_compact_reading: self.pdf_compact_reading,
            default_language: option_text(self.default_language),
            translation_display_mode: self.translation_display_mode,
            use_proxy: self.use_proxy,
        }
    }
}

impl ProviderSettingsView {
    /// The connections: the default one, then the others.
    pub open spec fn endpoints(self) -> Seq<EndpointSettingsView> {
        seq![
            EndpointSettingsView {
                id: DEFAULT_ENDPOINT_ID@,
                name: self.default_endpoint_name,
                base_url: self.base_url,
                request_timeout_secs: self.request_timeout_secs,
                remote_content_confirmed: self.remote_content_confirmed,
                allow_insecure_remote_http: self.allow_insecure_remote_http,
                confirmed_remote_endpoint: self.confirmed_remote_endpoint,
            },
        ] + self.additional_endpoints
    }
}

impl ProviderSettings {
    /// The connections: the default one, then the others.
    pub fn endpoints(&self) -> (r: Vec<EndpointSettings>)
        ensures
            endpoint_views(r@) == self@.endpoints(),
    {
        let mut out: Vec<EndpointSettings> = Vec::new();
        out.push(
            EndpointSettings {
                id: DEFAULT_ENDPOINT_ID.to_owned(),
                name: self.endpoint_routing.default_endpoint_name.clone(),
                base_url: self.base_url.clone(),
                request_timeout_secs: self.request_timeout_secs,
                remote_content_confirmed: self.remote_content_confirmed,
                allow_insecure_remote_http: self.allow_insecure_remote_http,
                confirmed_remote_endpoint: self.confirmed_remote_endpoint.clone(),
            },
        );
        let others = &self.endpoint_routing.additional_endpoints;
        let mut i: usize = 0;
        assert(endpoint_views(out@) =~= self@.endpoints().subrange(0, 1));
        while i < others.len()
            invariant
                i <= others@.len(),
                others@ == self.endpoint_routing.additional_endpoints@,
                endpoint_views(out@) == self@.endpoints().subrange(0, 1 + i),
            decreases others@.len() - i,
        {
            let copy = others[i].clone();
            let ghost before = out@;
            out.push(copy);
            i = i + 1;
            assert(endpoint_views(out@) =~= endpoint_views(before).push(copy@));
            assert(self@.endpoints()[i as int] == copy@);
            assert(endpoint_views(out@) =~= self@.endpoints().subrange(0, 1 + i));
        }
        assert(self@.endpoints().subrange(0, 1 + i) =~= self@.endpoints());
        out
    }
}

// ---------------------------------------------------------------------------
// What is entered
// ---------------------------------------------------------------------------

/// A connection as it is entered.
#[derive(Debug, PartialEq, Eq)]
pub struct EndpointDraft {
    pub id: String,
    pub name: String,
    pub base_url: String,
    pub request_timeout: String,
    pub api_key: String,
    pub remote_content_confirmed: bool,
    pub allow_insecure_remote_http: bool,
    pub confirmed_remote_endpoint: String,
    pub delete_api_key: bool,
    /// What tells the address from others.
    pub observed_url: String,
    pub detected_models: Option<Vec<String>>,
    /// Goes on whenever what was detected no longer holds.
    pub discovery_generation: u64,
}

/// A connection as it is entered, as texts.
pub struct EndpointView {
    pub id: Seq<char>,
    pub name: Seq<char>,
    pub base_url: Seq<char>,
    pub request_timeout: Seq<char>,
    pub api_key: Seq<char>,
    pub remote_content_confirmed: bool,
    pub allow_insecure_remote_http: bool,
    pub confirmed_remote_endpoint: Seq<char>,
    pub delete_api_key: bool,
    pub observed_url: Seq<char>,
    pub detected_models: Option<Seq<Seq<char>>>,
    pub discovery_generation: u64,
}

/// A list that may be missing, as texts.
pub open spec fn option_texts(list: Option<Vec<String>>) -> Option<Seq<Seq<char>>> {
    match list {
        Some(list) => Some(texts(list@)),
        None => None,
    }
}

impl View for EndpointDraft {
    type V = EndpointView;

    open spec fn view(&self) -> EndpointView {
        EndpointView {
            id: self.id@,
            name: self.name@,
            base_url: self.base_url@,
            request_timeout: self.request_timeout@,
            api_key: self.api_key@,
            remote_content_confirmed: self.remote_content_confirmed,
            allow_insecure_remote_http: self.allow_insecure_remote_http,
            confirmed_remote_endpoint: self.confirmed_remote_endpoint@,
            delete_api_key: self.delete_api_key,
            observed_url: self.observed_url@,
            detected_models: option_texts(self.detected_models),
            discovery_generation: self.discovery_generation,
        }
    }
}

/// Drafts, as texts.
pub open spec fn drafts(list: Seq<EndpointDraft>) -> Seq<EndpointView> {
    list.map_values(|e: EndpointDraft| e@)
}

/// The number that follows in a counter that starts anew after its last.
pub open spec fn following(n: u64) -> u64 {
    if n == u64::MAX {
        0
    } else {
        (n + 1) as u64
    }
}

impl EndpointView {
    /// A draft that shows what is stored. `canonical` is the normal form of its
    /// address, if it has one.
    pub open spec fn of(settings: EndpointSettingsView, canonical: Option<Seq<char>>) -> Self {
        EndpointView {
            id: settings.id,
            name: settings.name,
            base_url: settings.base_url,
            request_timeout: decimal(settings.request_timeout_secs),
            api_key: Seq::empty(),
            remote_content_confirmed: settings.remote_content_confirmed,
            allow_insecure_remote_http: settings.allow_insecure_remote_http,
            confirmed_remote_endpoint: settings.confirmed_remote_endpoint,
            delete_api_key: false,
            observed_url: identity_of(settings.base_url, canonical),
            detected_models: None,
            discovery_generation: 0,
        }
    }

    /// The timeout that was entered, if it is one.
    pub open spec fn timeout(self) -> Option<nat> {
        within(
            self.request_timeout,
            MIN_AI_REQUEST_TIMEOUT_SECS as nat,
            MAX_AI_REQUEST_TIMEOUT_SECS as nat,
        )
    }

    /// What was entered, as it would be stored.
    pub open spec fn entered(self) -> EndpointSettingsView {
        EndpointSettingsView {
            id: self.id,
            name: trimmed(self.name),
            base_url: trimmed(self.base_url),
            request_timeout_secs: self.timeout().unwrap_or(0),
            remote_content_confirmed: self.remote_content_confirmed,
            allow_insecure_remote_http: self.allow_insecure_remote_http,
            confirmed_remote_endpoint: self.confirmed_remote_endpoint,
        }
    }

    /// What becomes of the stored key.
    pub open spec fn key_update(self) -> KeyUpdateView {
        key_update(self.api_key, self.delete_api_key)
    }

    /// Without the models that were detected.
    pub open spec fn invalidated(self) -> Self {
        EndpointView {
            detected_models: None,
            discovery_generation: following(self.discovery_generation),
            ..self
        }
    }
}

impl EndpointDraft {
    /// A draft that shows what is stored. `canonical` is the normal form of its
    /// address, if it has one.
    pub fn new(endpoint: &EndpointSettings, canonical: &Option<String>) -> (r: Self)
        ensures
            r@ == EndpointView::of(endpoint@, option_text(*canonical)),
    {
        let observed_url = endpoint_draft_identity(endpoint.base_url.as_str(), canonical);
        EndpointDraft {
            id: endpoint.id.clone(),
            name: endpoint.name.clone(),
            base_url: endpoint.base_url.clone(),
            request_timeout: decimal_text(endpoint.request_timeout_secs),
            api_key: empty_text(),
            remote_content_confirmed: endpoint.remote_content_confirmed,
            allow_insecure_remote_http: endpoint.allow_insecure_remote_http,
            confirmed_remote_endpoint: endpoint.confirmed_remote_endpoint.clone(),
            delete_api_key: false,
            observed_url,
            detected_models: None,
            discovery_generation: 0,
        }
    }

    /// Forgets the models that were detected; a detection that is under way no
    /// longer counts.
    pub fn invalidate_models(&mut self)
        ensures
            final(self)@ == old(self)@.invalidated(),
    {
        self.detected_models = None;
        self.discovery_generation = if self.discovery_generation == u64::MAX {
            0
        } else {
            self.discovery_generation + 1
        };
    }

    /// What was entered, as it would be stored.
    pub fn entered(&self) -> (r: Result<EndpointSettings, String>)
        ensures
            match r {
                Ok(settings) => self@.timeout() is Some && settings@ == self@.entered(),
                Err(error) => self@.timeout() is None && error@ == request_timeout_error(),
            },
    {
        let request_timeout_secs: u64 = match parse_request_timeout_secs(
            self.request_timeout.as_str(),
        ) {
            Ok(n) => n,
            Err(error) => {
                return Err(error);
            },
        };
        Ok(
            EndpointSettings {
                id: self.id.clone(),
                name: trim(self.name.as_str()),
                base_url: trim(self.base_url.as_str()),
                request_timeout_secs,
                remote_content_confirmed: self.remote_content_confirmed,
                allow_insecure_remote_http: self.allow_insecure_remote_http,
                confirmed_remote_endpoint: self.confirmed_remote_endpoint.clone(),
            },
        )
    }

    /// What becomes of the stored key.
    pub fn api_key_update(&self) -> (r: ApiKeyUpdate)
        ensures
            r@ == self@.key_update(),
    {
        api_key_update_for_input(self.api_key.as_str(), self.delete_api_key)
    }
}

/// A text that holds nothing.
pub fn empty_text() -> (r: String)
    ensures
        r@ == Seq::<char>::empty(),
{
    let r = String::new();
    assert(r@ =~= Seq::<char>::empty());
    r
}

/// The place of the first draft of an identifier; the length of the list if there
/// is none.
pub open spec fn place_from(list: Seq<EndpointView>, id: Seq<char>, from: int) -> int
    decreases list.len() - from,
{
    if from >= list.len() {
        list.len() as int
    } else if list[from].id == id {
        from
    } else {
        place_from(list, id, from + 1)
    }
}

/// The place of the first draft of an identifier.
pub open spec fn place(list: Seq<EndpointView>, id: Seq<char>) -> int {
    place_from(list, id, 0)
}

/// Whether there is a draft of an identifier.
pub open spec fn has_draft(list: Seq<EndpointView>, id: Seq<char>) -> bool {
    exists|i: int| 0 <= i < list.len() && (#[trigger] list[i]).id == id
}

/// A place that was found is the first one.
pub proof fn lemma_place(list: Seq<EndpointView>, id: Seq<char>, from: int)
    requires
        0 <= from <= list.len(),
    ensures
        from <= place_from(list, id, from) <= list.len(),
        place_from(list, id, from) < list.len() ==> list[place_from(list, id, from)].id == id,
        forall|k: int|
            from <= k < place_from(list, id, from) ==> (#[trigger] list[k]).id != id,
    decreases list.len() - from,
{
    if from < list.len() && list[from].id != id {
        lemma_place(list, id, from + 1);
    }
}

/// There is a draft exactly where one is found.
pub proof fn lemma_has_draft(list: Seq<EndpointView>, id: Seq<char>)
    ensures
        has_draft(list, id) <==> place(list, id) < list.len(),
        0 <= place(list, id) <= list.len(),
        place(list, id) < list.len() ==> list[place(list, id)].id == id,
{
    lemma_place(list, id, 0);
    if place(list, id) < list.len() {
        assert(list[place(list, id)].id == id);
    }
}

/// The place of the first draft of an identifier.
pub fn find_draft(list: &Vec<EndpointDraft>, id: &str) -> (r: Option<usize>)
    ensures
        match r {
            Some(i) => i < list@.len() && place(drafts(list@), id@) == i && has_draft(
                drafts(list@),
                id@,
            ),
            None => place(drafts(list@), id@) == list@.len() && !has_draft(drafts(list@), id@),
        },
{
    proof {
        lemma_has_draft(drafts(list@), id@);
    }
    let mut i: usize = 0;
    while i < list.len()
        invariant
            i <= list@.len(),
            place(drafts(list@), id@) == place_from(drafts(list@), id@, i as int),
        decreases list@.len() - i,
    {
        assert(drafts(list@)[i as int] == list@[i as int]@);
        if same_text(list[i].id.as_str(), id) {
            return Some(i);
        }
        i = i + 1;
    }
    None
}

/// The models as they are entered.
#[derive(Debug, PartialEq, Eq)]
pub struct ModelInputs {
    pub chat_model: String,
    pub generation: GenerationForm,
    pub embedding_model: String,
    pub embedding_dimensions: String,
    pub vision_model: String,
}

/// The models as they are entered, as texts.
pub struct ModelInputsView {
    pub chat_model: Seq<char>,
    pub generation: GenerationView,
    pub embedding_model: Seq<char>,
    pub embedding_dimensions: Seq<char>,
    pub vision_model: Seq<char>,
}

impl View for ModelInputs {
    type V = ModelInputsView;

    open spec fn view(&self) -> ModelInputsView {
        ModelInputsView {
            chat_model: self.chat_model@,
            generation: self.generation@,
            embedding_model: self.embedding_model@,
            embedding_dimensions: self.embedding_dimensions@,
            vision_model: self.vision_model@,
        }
    }
}

/// Web searches as they are entered.
#[derive(Debug, PartialEq, Eq)]
pub struct WebSearchInputs {
    pub enabled: bool,
    pub url: String,
    pub method: String,
    pub body: String,
    pub key_header: String,
    pub api_key: String,
    pub timeout: String,
    pub max_results: String,
    pub remote_confirmed: bool,
    pub allow_insecure_http: bool,
    pub confirmed_remote_endpoint: String,
    pub delete_api_key: bool,
}

/// Web searches as they are entered, as texts.
pub struct WebSearchInputsView {
    pub enabled: bool,
    pub url: Seq<char>,
    pub method: Seq<char>,
    pub body: Seq<char>,
    pub key_header: Seq<char>,
    pub api_key: Seq<char>,
    pub timeout: Seq<char>,
    pub max_results: Seq<char>,
    pub remote_confirmed: bool,
    pub allow_insecure_http: bool,
    pub confirmed_remote_endpoint: Seq<char>,
    pub delete_api_key: bool,
}

impl View for WebSearchInputs {
    type V = WebSearchInputsView;

    open spec fn view(&self) -> WebSearchInputsView {
        WebSearchInputsView {
            enabled: self.enabled,
            url: self.url@,
            method: self.method@,
            body: self.body@,
            key_header: self.key_header@,
            api_key: self.api_key@,
            timeout: self.timeout@,
            max_results: self.max_results@,
            remote_confirmed: self.remote_confirmed,
            allow_insecure_http: self.allow_insecure_http,
            confirmed_remote_endpoint: self.confirmed_remote_endpoint@,
            delete_api_key: self.delete_api_key,
        }
    }
}

impl WebSearchInputs {
    /// What becomes of the stored key.
    pub fn web_api_key_update(&self) -> (r: ApiKeyUpdate)
        ensures
            r@ == key_update(self.api_key@, self.delete_api_key),
    {
        api_key_update_for_input(self.api_key.as_str(), self.delete_api_key)
    }
}

/// What concerns jobs, reading and the network as it is entered.
#[derive(Debug, PartialEq, Eq)]
pub struct ApplicationInputs {
    pub auto_run_background_jobs: bool,
    pub background_job_concurrency: String,
    pub background_job_interval: String,
    pub pdf_compact_reading: bool,
    pub default_language: Option<String>,
    pub translation_display_mode: TranslationDisplayMode,
    pub use_proxy: bool,
}

/// What concerns jobs, reading and the network as it is entered, as texts.
pub struct ApplicationInputsView {
    pub auto_run_background_jobs: bool,
    pub background_job_concurrency: Seq<char>,
    pub background_job_interval: Seq<char>,
    pub pdf_compact_reading: bool,
    pub default_language: Option<Seq<char>>,
    pub translation_display_mode: TranslationDisplayMode,
    pub use_proxy: bool,
}

impl View for ApplicationInputs {
    type V = ApplicationInputsView;

    open spec fn view(&self) -> ApplicationInputsView {
        ApplicationInputsView {
            auto_run_background_jobs: self.auto_run_background_jobs,
            background_job_concurrency: self.background_job_concurrency@,
            background_job_interval: self.background_job_interval@,
            pdf_compact_reading: self.pdf_compact_reading,
            default_language: option_text(self.default_language),
            translation_display_mode: self.translation_display_mode,
            use_proxy: self.use_proxy,
        }
    }
}

/// All that is entered.
#[derive(Debug, PartialEq, Eq)]
pub struct SettingsForm {
    pub endpoints: Vec<EndpointDraft>,
    pub chat_endpoint_id: String,
    pub embedding_endpoint_id: String,
    pub vision_endpoint_id: String,
    pub models: ModelInputs,
    pub web: WebSearchInputs,
    pub application: ApplicationInputs,
}

/// All that is entered, as texts.
pub struct FormView {
    pub endpoints: Seq<EndpointView>,
    pub chat_endpoint_id: Seq<char>,
    pub embedding_endpoint_id: Seq<char>,
    pub vision_endpoint_id: Seq<char>,
    pub models: ModelInputsView,
    pub web: WebSearchInputsView,
    pub application: ApplicationInputsView,
}

impl View for SettingsForm {
    type V = FormView;

    open spec fn view(&self) -> FormView {
        FormView {
            endpoints: drafts(self.endpoints@),
            chat_endpoint_id: self.chat_endpoint_id@,
            embedding_endpoint_id: self.embedding_endpoint_id@,
            vision_endpoint_id: self.vision_endpoint_id@,
            models: self.models@,
            web: self.web@,
            application: self.application@,
        }
    }
}

/// A text that may be missing, or nothing.
pub open spec fn or_empty(text: Option<Seq<char>>) -> Seq<char> {
    match text {
        Some(text) => text,
        None => Seq::empty(),
    }
}

/// A text that may be missing, or nothing.
pub fn optional_parameter_text(value: &Option<String>) -> (r: String)
    ensures
        r@ == or_empty(option_text(*value)),
{
    match value {
        Some(text) => text.clone(),
        None => empty_text(),
    }
}

/// Normal forms of addresses, as texts.
pub open spec fn option_views(list: Seq<Option<String>>) -> Seq<Option<Seq<char>>> {
    list.map_values(|text: Option<String>| option_text(text))
}

/// The first thing that is wrong, after what was found wrong before.
pub open spec fn or_else_wrong(
    before: Option<Seq<char>>,
    wrong: bool,
    error: Seq<char>,
) -> Option<Seq<char>> {
    if before is Some {
        before
    } else if wrong {
        Some(error)
    } else {
        None
    }
}

/// Whether every timeout is one.
pub open spec fn timeouts_are_fine(list: Seq<EndpointView>) -> bool {
    forall|i: int| 0 <= i < list.len() ==> (#[trigger] list[i]).timeout() is Some
}

/// Drafts as they would be stored.
pub open spec fn entered_endpoints(list: Seq<EndpointView>) -> Seq<EndpointSettingsView> {
    list.map_values(|e: EndpointView| e.entered())
}

impl GenerationView {
    /// The parameters of chats as they are shown to be changed.
    pub open spec fn of(settings: ChatGenerationView) -> Self {
        GenerationView {
            temperature: or_empty(settings.temperature),
            top_p: or_empty(settings.top_p),
            max_output_tokens: decimal(settings.max_output_tokens),
            presence_penalty: or_empty(settings.presence_penalty),
            frequency_penalty: or_empty(settings.frequency_penalty),
        }
    }
}

impl GenerationForm {
    /// The parameters of chats as they are shown to be changed.
    pub fn new(settings: &ChatGenerationSettings) -> (r: Self)
        ensures
            r@ == GenerationView::of(settings@),
    {
        GenerationForm {
            temperature: optional_parameter_text(&settings.temperature),
            top_p: optional_parameter_text(&settings.top_p),
            max_output_tokens: decimal_text(settings.max_output_tokens as u64),
            presence_penalty: optional_parameter_text(&settings.presence_penalty),
            frequency_penalty: optional_parameter_text(&settings.frequency_penalty),
        }
    }
}

impl FormView {
    /// A form that shows what is stored. `canonical` holds the normal form of the
    /// address of each connection, where it has one.
    pub open spec fn of(settings: ProviderSettingsView, canonical: Seq<Option<Seq<char>>>) -> Self {
        FormView {
            endpoints: Seq::new(
                settings.endpoints().len(),
                |i: int| EndpointView::of(settings.endpoints()[i], canonical[i]),
            ),
            chat_endpoint_id: settings.chat_endpoint_id,
            embedding_endpoint_id: settings.embedding_endpoint_id,
            vision_endpoint_id: settings.vision_endpoint_id,
            models: ModelInputsView {
                chat_model: settings.chat_model,
                generation: GenerationView::of(settings.chat_generation),
                embedding_model: settings.embedding_model,
                embedding_dimensions: decimal(settings.embedding_dimensions),
                vision_model: settings.vision_model,
            },
            web: WebSearchInputsView {
                enabled: settings.web_search_enabled,
                url: settings.web_search_url_template,
                method: settings.web_search_method,
                body: or_empty(settings.web_search_body_template),
                key_header: or_empty(settings.web_search_key_header),
                api_key: Seq::empty(),
                timeout: decimal(settings.web_search_timeout_secs),
                max_results: decimal(settings.web_search_max_results),
                remote_confirmed: settings.web_search_remote_confirmed,
                allow_insecure_http: settings.web_search_allow_insecure_http,
                confirmed_remote_endpoint: settings.web_search_confirmed_remote_endpoint,
                delete_api_key: false,
            },
            application: ApplicationInputsView {
                auto_run_background_jobs: settings.auto_run_background_jobs,
                background_job_concurrency: decimal(settings.background_job_concurrency),
                background_job_interval: decimal(settings.background_job_interval_ms),
                pdf_compact_reading: settings.pdf_compact_reading,
                default_language: settings.default_language,
                translation_display_mode: settings.translation_display_mode,
                use_proxy: settings.use_proxy,
            },
        }
    }

    pub open spec fn web_timeout(self, limits: SettingsLimits) -> Option<nat> {
        within(
            self.web.timeout,
            limits.min_web_search_timeout_secs as nat,
            limits.max_web_search_timeout_secs as nat,
        )
    }

    pub open spec fn web_results(self, limits: SettingsLimits) -> Option<nat> {
        within(self.web.max_results, 1, limits.max_web_search_results as nat)
    }

    pub open spec fn dimensions(self, limits: SettingsLimits) -> Option<nat> {
        within(self.models.embedding_dimensions, 1, limits.max_embedding_dimensions as nat)
    }

    pub open spec fn concurrency(self) -> Option<nat> {
        within(
            self.application.background_job_concurrency,
            MIN_BACKGROUND_JOB_CONCURRENCY as nat,
            MAX_BACKGROUND_JOB_CONCURRENCY as nat,
        )
    }

    pub open spec fn interval(self) -> Option<nat> {
        within(
            self.application.background_job_interval,
            0,
            MAX_BACKGROUND_JOB_INTERVAL_MS as nat,
        )
    }

    /// What is wrong with the connections, if anything is.
    pub open spec fn endpoints_error(self) -> Option<Seq<char>> {
        or_else_wrong(
            or_else_wrong(None, !timeouts_are_fine(self.endpoints), request_timeout_error()),
            !has_draft(self.endpoints, DEFAULT_ENDPOINT_ID@),
            "缺少默认 Endpoint"@,
        )
    }

    /// What is wrong with the numbers outside the connections, if anything is.
    pub open spec fn numbers_error(self, limits: SettingsLimits) -> Option<Seq<char>> {
        let web = or_else_wrong(
            or_else_wrong(None, self.web_timeout(limits) is None, web_timeout_error(limits)),
            self.web_results(limits) is None,
            web_results_error(limits),
        );
        let dimensions = or_else_wrong(
            web,
            self.dimensions(limits) is None,
            dimensions_error(limits),
        );
        or_else_wrong(
            or_else_wrong(dimensions, self.concurrency() is None, concurrency_error()),
            self.interval() is None,
            interval_error(),
        )
    }

    /// The first thing that is wrong with what was entered, if anything is.
    pub open spec fn error(
        self,
        numbers: NumberChecks,
        verdict: Option<Seq<char>>,
        limits: SettingsLimits,
    ) -> Option<Seq<char>> {
        match generation_error(self.models.generation, numbers, verdict) {
            Some(error) => Some(error),
            None => match self.endpoints_error() {
                Some(error) => Some(error),
                None => self.numbers_error(limits),
            },
        }
    }

    /// The draft of the default connection.
    pub open spec fn default_endpoint(self) -> EndpointSettingsView {
        entered_endpoints(self.endpoints)[place(self.endpoints, DEFAULT_ENDPOINT_ID@)]
    }

    /// What was entered, as it would be stored.
    pub open spec fn entered(self, limits: SettingsLimits) -> ProviderSettingsView {
        let default = self.default_endpoint();
        ProviderSettingsView {
            base_url: default.base_url,
            default_endpoint_name: default.name,
            additional_endpoints: entered_endpoints(self.endpoints).remove(
                place(self.endpoints, DEFAULT_ENDPOINT_ID@),
            ),
            chat_endpoint_id: self.chat_endpoint_id,
            embedding_endpoint_id: self.embedding_endpoint_id,
            vision_endpoint_id: self.vision_endpoint_id,
            chat_model: trimmed(self.models.chat_model),
            chat_generation: entered_generation(self.models.generation),
            embedding_model: trimmed(self.models.embedding_model),
            embedding_dimensions: self.dimensions(limits).unwrap_or(0),
            vision_model: trimmed(self.models.vision_model),
            remote_content_confirmed: default.remote_content_confirmed,
            allow_insecure_remote_http: default.allow_insecure_remote_http,
            confirmed_remote_endpoint: default.confirmed_remote_endpoint,
            request_timeout_secs: default.request_timeout_secs,
            web_search_enabled: self.web.enabled,
            web_search_url_template: trimmed(self.web.url),
            web_search_method: ascii_upper_text(trimmed(self.web.method)),
            web_search_body_template: optional_text(self.web.body),
            web_search_key_header: optional_text(self.web.key_header),
            web_search_remote_confirmed: self.web.remote_confirmed,
            web_search_allow_insecure_http: self.web.allow_insecure_http,
            web_search_confirmed_remote_endpoint: self.web.confirmed_remote_endpoint,
            web_search_timeout_secs: self.web_timeout(limits).unwrap_or(0),
            web_search_max_results: self.web_results(limits).unwrap_or(0),
            auto_run_background_jobs: self.application.auto_run_background_jobs,
            background_job_concurrency: self.concurrency().unwrap_or(0),
            background_job_interval_ms: self.interval().unwrap_or(0),
            pdf_compact_reading: self.application.pdf_compact_reading,
            default_language: self.application.default_language,
            translation_display_mode: self.application.translation_display_mode,
            use_proxy: self.application.use_proxy,
        }
    }
}

/// The drafts as they would be stored.
fn enter_endpoints(list: &Vec<EndpointDraft>) -> (r: Result<Vec<EndpointSettings>, String>)
    ensures
        match r {
            Ok(entered) => timeouts_are_fine(drafts(list@)) && endpoint_views(entered@)
                == entered_endpoints(drafts(list@)),
            Err(error) => !timeouts_are_fine(drafts(list@)) && error@ == request_timeout_error(),
        },
{
    let mut out: Vec<EndpointSettings> = Vec::new();
    let mut i: usize = 0;
    while i < list.len()
        invariant
            i <= list@.len(),
            out@.len() == i,
            forall|k: int|
                0 <= k < i ==> (#[trigger] drafts(list@)[k]).timeout() is Some && out@[k]@
                    == drafts(list@)[k].entered(),
        decreases list@.len() - i,
    {
        assert(drafts(list@)[i as int] == list@[i as int]@);
        match list[i].entered() {
            Ok(settings) => {
                out.push(settings);
            },
            Err(error) => {
                return Err(error);
            },
        }
        i = i + 1;
    }
    assert(endpoint_views(out@) =~= entered_endpoints(drafts(list@))) by {
        assert forall|k: int| 0 <= k < out@.len() implies out@[k]@ == entered_endpoints(
            drafts(list@),
        )[k] by {
            assert(drafts(list@)[k].timeout() is Some);
        }
    }
    Ok(out)
}

impl SettingsForm {
    /// A form that shows what is stored. `canonical` holds the normal form of the
    /// address of each connection, where it has one.
    pub fn new(settings: &ProviderSettings, canonical: &Vec<Option<String>>) -> (r: Self)
        requires
            canonical@.len() == settings.endpoint_routing.additional_endpoints@.len() + 1,
        ensures
            r@ == FormView::of(settings@, option_views(canonical@)),
    {
        let stored = settings.endpoints();
        let ghost expected = FormView::of(settings@, option_views(canonical@)).endpoints;
        let mut endpoints: Vec<EndpointDraft> = Vec::new();
        let mut i: usize = 0;
        assert(endpoint_views(stored@).len() == stored@.len());
        while i < stored.len()
            invariant
                i <= stored@.len(),
                stored@.len() == canonical@.len(),
                endpoint_views(stored@) == settings@.endpoints(),
                expected == FormView::of(settings@, option_views(canonical@)).endpoints,
                endpoints@.len() == i,
                forall|k: int| 0 <= k < i ==> (#[trigger] endpoints@[k])@ == expected[k],
            decreases stored@.len() - i,
        {
            let draft = EndpointDraft::new(&stored[i], &canonical[i]);
            assert(endpoint_views(stored@)[i as int] == stored@[i as int]@);
            assert(option_views(canonical@)[i as int] == option_text(canonical@[i as int]));
            endpoints.push(draft);
            i = i + 1;
        }
        assert(drafts(endpoints@) =~= expected);
        SettingsForm {
            endpoints,
            chat_endpoint_id: settings.endpoint_routing.chat_endpoint_id.clone(),
            embedding_endpoint_id: settings.endpoint_routing.embedding_endpoint_id.clone(),
            vision_endpoint_id: settings.endpoint_routing.vision_endpoint_id.clone(),
            models: ModelInputs {
                chat_model: settings.chat_model.clone(),
                generation: GenerationForm::new(&settings.chat_generation),
                embedding_model: settings.embedding_model.clone(),
                embedding_dimensions: decimal_text(settings.embedding_dimensions as u64),
                vision_model: settings.vision_model.clone(),
            },
            web: WebSearchInputs {
                enabled: settings.web_search_enabled,
                url: settings.web_search_url_template.clone(),
                method: settings.web_search_method.clone(),
                body: optional_parameter_text(&settings.web_search_body_template),
                key_header: optional_parameter_text(&settings.web_search_key_header),
                api_key: empty_text(),
                timeout: decimal_text(settings.web_search_timeout_secs),
                max_results: decimal_text(settings.web_search_max_results as u64),
                remote_confirmed: settings.web_search_remote_confirmed,
                allow_insecure_http: settings.web_search_allow_insecure_http,
                confirmed_remote_endpoint: settings.web_search_confirmed_remote_endpoint.clone(),
                delete_api_key: false,
            },
            application: ApplicationInputs {
                auto_run_background_jobs: settings.auto_run_background_jobs,
                background_job_concurrency: decimal_text(
                    settings.background_job_concurrency as u64,
                ),
                background_job_interval: decimal_text(settings.background_job_interval_ms),
                pdf_compact_reading: settings.pdf_compact_reading,
                default_language: copy_option(&settings.default_language),
                translation_display_mode: settings.translation_display_mode,
                use_proxy: settings.use_proxy,
            },
        }
    }

    /// What was entered, as it would be stored; or the first thing that is wrong
    /// with it. `verdict` is what the provider finds wrong with the parameters of
    /// chats in themselves.
    pub fn entered_settings(
        &self,
        numbers: &NumberChecks,
        verdict: &Option<String>,
        limits: &SettingsLimits,
    ) -> (r: Result<ProviderSettings, String>)
        ensures
            match r {
                Ok(settings) => self@.error(*numbers, option_text(*verdict), *limits) is None
                    && settings@ == self@.entered(*limits),
                Err(error) => self@.error(*numbers, option_text(*verdict), *limits) == Some(
                    error@,
                ),
            },
    {
        let chat_generation = match parse_chat_generation(
            &self.models.generation,
            numbers,
            verdict,
        ) {
            Ok(settings) => settings,
            Err(error) => {
                return Err(error);
            },
        };
        let mut endpoints = match enter_endpoints(&self.endpoints) {
            Ok(endpoints) => endpoints,
            Err(error) => {
                return Err(error);
            },
        };
        let default_index: usize = match find_draft(&self.endpoints, DEFAULT_ENDPOINT_ID) {
            Some(i) => i,
            None => {
                return Err("缺少默认 Endpoint".to_owned());
            },
        };
        let ghost all = endpoints@;
        assert(endpoint_views(all).len() == all.len());
        assert(entered_endpoints(self@.endpoints).len() == self@.endpoints.len());
        let default_endpoint = endpoints.remove(default_index);
        assert(endpoint_views(all)[default_index as int] == default_endpoint@);
        assert(endpoint_views(endpoints@) =~= endpoint_views(all).remove(default_index as int));
        let web_search_timeout_secs: u64 = match parse_web_search_timeout_secs(
            self.web.timeout.as_str(),
            limits,
        ) {
            Ok(n) => n,
            Err(error) => {
                return Err(error);
            },
        };
        let web_search_max_results: usize = match parse_web_search_max_results(
            self.web.max_results.as_str(),
            limits,
        ) {
            Ok(n) => n,
            Err(error) => {
                return Err(error);
            },
        };
        let embedding_dimensions: usize = match parse_embedding_dimensions(
            self.models.embedding_dimensions.as_str(),
            limits,
        ) {
            Ok(n) => n,
            Err(error) => {
                return Err(error);
            },
        };
        let background_job_concurrency: usize = match parse_background_job_concurrency(
            self.application.background_job_concurrency.as_str(),
        ) {
            Ok(n) => n,
            Err(error) => {
                return Err(error);
            },
        };
        let background_job_interval_ms: u64 = match parse_background_job_interval_ms(
            self.application.background_job_interval.as_str(),
        ) {
            Ok(n) => n,
            Err(error) => {
                return Err(error);
            },
        };
        let method = trim(self.web.method.as_str());
        Ok(
            ProviderSettings {
                base_url: default_endpoint.base_url,
                endpoint_routing: EndpointRoutingSettings {
                    default_endpoint_name: default_endpoint.name,
                    additional_endpoints: endpoints,
                    chat_endpoint_id: self.chat_endpoint_id.clone(),
                    embedding_endpoint_id: self.embedding_endpoint_id.clone(),
                    vision_endpoint_id: self.vision_endpoint_id.clone(),
                },
                chat_model: trim(self.models.chat_model.as_str()),
                chat_generation,
                embedding_model: trim(self.models.embedding_model.as_str()),
                embedding_dimensions,
                vision_model: trim(self.models.vision_model.as_str()),
                remote_content_confirmed: default_endpoint.remote_content_confirmed,
                allow_insecure_remote_http: default_endpoint.allow_insecure_remote_http,
                confirmed_remote_endpoint: default_endpoint.confirmed_remote_endpoint,
                request_timeout_secs: default_endpoint.request_timeout_secs,
                web_search_enabled: self.web.enabled,
                web_search_url_template: trim(self.web.url.as_str()),
                web_search_method: upper_case(method.as_str()),
                web_search_body_template: non_blank(self.web.body.as_str()),
                web_search_key_header: non_blank(self.web.key_header.as_str()),
                web_search_remote_confirmed: self.web.remote_confirmed,
                web_search_allow_insecure_http: self.web.allow_insecure_http,
                web_search_confirmed_remote_endpoint: self.web.confirmed_remote_endpoint.clone(),
                web_search_timeout_secs,
                web_search_max_results,
                auto_run_background_jobs: self.application.auto_run_background_jobs,
                background_job_concurrency,
                background_job_interval_ms,
                pdf_compact_reading: self.application.pdf_compact_reading,
                default_language: copy_option(&self.application.default_language),
                translation_display_mode: self.application.translation_display_mode,
                use_proxy: self.application.use_proxy,
            },
        )
    }
}

// ---------------------------------------------------------------------------
// Laws
// ---------------------------------------------------------------------------

/// Whether a text has no white space around it.
pub open spec fn is_trimmed(s: Seq<char>) -> bool {
    trimmed(s) == s
}

/// Whether a text that may be missing holds something, and no white space around
/// it, where it is there.
pub open spec fn is_proper(s: Option<Seq<char>>) -> bool {
    match s {
        Some(text) => is_trimmed(text) && !is_blank(text),
        None => true,
    }
}

impl EndpointSettingsView {
    /// Whether a connection is stored as the form stores it.
    pub open spec fn is_tidy(self) -> bool {
        &&& is_trimmed(self.name)
        &&& is_trimmed(self.base_url)
        &&& MIN_AI_REQUEST_TIMEOUT_SECS <= self.request_timeout_secs
            <= MAX_AI_REQUEST_TIMEOUT_SECS
    }
}

impl ProviderSettingsView {
    /// Whether the settings are stored as the form stores them: texts without white
    /// space around them, numbers within limits.
    pub open spec fn is_tidy(self, limits: SettingsLimits) -> bool {
        &&& forall|i: int|
            0 <= i < self.endpoints().len() ==> (#[trigger] self.endpoints()[i]).is_tidy()
        &&& is_trimmed(self.chat_model)
        &&& is_trimmed(self.embedding_model)
        &&& is_trimmed(self.vision_model)
        &&& is_proper(self.chat_generation.temperature)
        &&& is_proper(self.chat_generation.top_p)
        &&& is_proper(self.chat_generation.presence_penalty)
        &&& is_proper(self.chat_generation.frequency_penalty)
        &&& self.chat_generation.max_output_tokens <= u32::MAX
        &&& 1 <= self.embedding_dimensions <= limits.max_embedding_dimensions
        &&& is_trimmed(self.web_search_url_template)
        &&& is_trimmed(self.web_search_method)
        &&& ascii_upper_text(self.web_search_method) == self.web_search_method
        &&& is_proper(self.web_search_body_template)
        &&& is_proper(self.web_search_key_header)
        &&& limits.min_web_search_timeout_secs <= self.web_search_timeout_secs
            <= limits.max_web_search_timeout_secs
        &&& 1 <= self.web_search_max_results <= limits.max_web_search_results
        &&& MIN_BACKGROUND_JOB_CONCURRENCY <= self.background_job_concurrency
            <= MAX_BACKGROUND_JOB_CONCURRENCY
        &&& self.background_job_interval_ms <= MAX_BACKGROUND_JOB_INTERVAL_MS
    }
}

proof fn lemma_shown_text_is_entered(text: Option<Seq<char>>)
    requires
        is_proper(text),
    ensures
        optional_text(or_empty(text)) == text,
{
}

proof fn lemma_shown_endpoint_is_entered(
    settings: EndpointSettingsView,
    canonical: Option<Seq<char>>,
)
    requires
        settings.is_tidy(),
    ensures
        EndpointView::of(settings, canonical).entered() == settings,
        EndpointView::of(settings, canonical).timeout() == Some(settings.request_timeout_secs),
{
    numbers_within_limits_are_read_back(
        settings.request_timeout_secs,
        MIN_AI_REQUEST_TIMEOUT_SECS as nat,
        MAX_AI_REQUEST_TIMEOUT_SECS as nat,
    );
}

/// Settings that are shown and saved without a change stay as they are, and no
/// stored key is touched.
pub proof fn settings_shown_are_settings_entered(
    settings: ProviderSettingsView,
    canonical: Seq<Option<Seq<char>>>,
    limits: SettingsLimits,
)
    requires
        settings.is_tidy(limits),
        canonical.len() == settings.endpoints().len(),
    ensures
        ({
            let form = FormView::of(settings, canonical);
            &&& form.endpoints_error() is None
            &&& form.numbers_error(limits) is None
            &&& form.entered(limits) == settings
            &&& forall|i: int|
                0 <= i < form.endpoints.len() ==> (#[trigger] form.endpoints[i]).key_update()
                    == KeyUpdateView::Keep
            &&& key_update(form.web.api_key, form.web.delete_api_key) == KeyUpdateView::Keep
        }),
{
    let form = FormView::of(settings, canonical);
    let all = settings.endpoints();
    assert forall|i: int| 0 <= i < form.endpoints.len() implies (
    #[trigger] form.endpoints[i]).timeout() is Some && form.endpoints[i].entered() == all[i] by {
        assert(all[i].is_tidy());
        lemma_shown_endpoint_is_entered(all[i], canonical[i]);
    }
    assert(form.endpoints[0].id == DEFAULT_ENDPOINT_ID@);
    assert(place(form.endpoints, DEFAULT_ENDPOINT_ID@) == 0);
    assert(entered_endpoints(form.endpoints) =~= all);
    assert(all.remove(0) =~= settings.additional_endpoints);
    numbers_within_limits_are_read_back(
        settings.chat_generation.max_output_tokens,
        0,
        u32::MAX as nat,
    );
    numbers_within_limits_are_read_back(
        settings.embedding_dimensions,
        1,
        limits.max_embedding_dimensions as nat,
    );
    numbers_within_limits_are_read_back(
        settings.web_search_timeout_secs,
        limits.min_web_search_timeout_secs as nat,
        limits.max_web_search_timeout_secs as nat,
    );
    numbers_within_limits_are_read_back(
        settings.web_search_max_results,
        1,
        limits.max_web_search_results as nat,
    );
    numbers_within_limits_are_read_back(
        settings.background_job_concurrency,
        MIN_BACKGROUND_JOB_CONCURRENCY as nat,
        MAX_BACKGROUND_JOB_CONCURRENCY as nat,
    );
    numbers_within_limits_are_read_back(
        settings.background_job_interval_ms,
        0,
        MAX_BACKGROUND_JOB_INTERVAL_MS as nat,
    );
    lemma_shown_text_is_entered(settings.chat_generation.temperature);
    lemma_shown_text_is_entered(settings.chat_generation.top_p);
    lemma_shown_text_is_entered(settings.chat_generation.presence_penalty);
    lemma_shown_text_is_entered(settings.chat_generation.frequency_penalty);
    lemma_shown_text_is_entered(settings.web_search_body_template);
    lemma_shown_text_is_entered(settings.web_search_key_header);
}

} // verus!
