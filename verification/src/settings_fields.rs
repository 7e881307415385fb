//! Tabs, notices and fields of the settings window.

use crate::settings::{ascii_upper_text, is_digits, is_search_method, GenerationView};
use crate::settings_form::{
    ApplicationInputsView, EndpointView, FormView, ModelInputsView, SettingsForm,
    WebSearchInputsView,
};
use crate::text::same_text;
use vstd::prelude::*;
use vstd::string::*;

verus! {

// ---------------------------------------------------------------------------
// Tabs, operations, notices
// ---------------------------------------------------------------------------

#[derive(Clone, Copy, Debug, PartialEq, Eq, Structural)]
pub enum SettingsTab {
    Endpoint,
    Models,
    WebSearch,
    BackgroundJobs,
    System,
}

impl Default for SettingsTab {
    fn default() -> (r: Self)
        ensures
            r == SettingsTab::Endpoint,
    {
        SettingsTab::Endpoint
    }
}

impl SettingsTab {
    /// The tab at a place of the tab bar.
    pub open spec fn at(index: int) -> Option<SettingsTab> {
        if index == 0 {
            Some(SettingsTab::Endpoint)
        } else if index == 1 {
            Some(SettingsTab::Models)
        } else if index == 2 {
            Some(SettingsTab::WebSearch)
        } else if index == 3 {
            Some(SettingsTab::BackgroundJobs)
        } else if index == 4 {
            Some(SettingsTab::System)
        } else {
            None
        }
    }

    /// The tab at a place of the tab bar.
    pub fn from_index(index: usize) -> (r: Option<SettingsTab>)
        ensures
            r == SettingsTab::at(index as int),
    {
        if index == 0 {
            Some(SettingsTab::Endpoint)
        } else if index == 1 {
            Some(SettingsTab::Models)
        } else if index == 2 {
            Some(SettingsTab::WebSearch)
        } else if index == 3 {
            Some(SettingsTab::BackgroundJobs)
        } else if index == 4 {
            Some(SettingsTab::System)
        } else {
            None
        }
    }

    /// The place in the tab bar.
    pub fn index(self) -> (r: usize)
        ensures
            r < 5,
            SettingsTab::at(r as int) == Some(self),
    {
        match self {
            SettingsTab::Endpoint => 0,
            SettingsTab::Models => 1,
            SettingsTab::WebSearch => 2,
            SettingsTab::BackgroundJobs => 3,
            SettingsTab::System => 4,
        }
    }

    pub open spec fn label_text(self) -> Seq<char> {
        match self {
            SettingsTab::Endpoint => "Endpoint"@,
            SettingsTab::Models => "对话模型"@,
            SettingsTab::WebSearch => "联网搜索"@,
            SettingsTab::BackgroundJobs => "后台任务"@,
            SettingsTab::System => "系统配置"@,
        }
    }

    pub fn label(self) -> (r: &'static str)
        ensures
            r@ == self.label_text(),
    {
        match self {
            SettingsTab::Endpoint => "Endpoint",
            SettingsTab::Models => "对话模型",
            SettingsTab::WebSearch => "联网搜索",
            SettingsTab::BackgroundJobs => "后台任务",
            SettingsTab::System => "系统配置",
        }
    }

    pub open spec fn selector_text(self) -> Seq<char> {
        match self {
            SettingsTab::Endpoint => "ai-settings-tab-endpoint"@,
            SettingsTab::Models => "ai-settings-tab-models"@,
            SettingsTab::WebSearch => "ai-settings-tab-web-search"@,
            SettingsTab::BackgroundJobs => "ai-settings-tab-background-jobs"@,
            SettingsTab::System => "ai-settings-tab-system"@,
        }
    }

    pub fn selector(self) -> (r: &'static str)
        ensures
            r@ == self.selector_text(),
    {
        match self {
            SettingsTab::Endpoint => "ai-settings-tab-endpoint",
            SettingsTab::Models => "ai-settings-tab-models",
            SettingsTab::WebSearch => "ai-settings-tab-web-search",
            SettingsTab::BackgroundJobs => "ai-settings-tab-background-jobs",
            SettingsTab::System => "ai-settings-tab-system",
        }
    }
}

/// What the window waits for.
#[derive(Clone, Copy, Debug, PartialEq, Eq, Structural)]
pub enum PendingOperation {
    Idle,
    Detecting,
    Saving,
}

impl PendingOperation {
    pub fn busy(self) -> (r: bool)
        ensures
            r == (self != PendingOperation::Idle),
    {
        self != PendingOperation::Idle
    }
}

/// What a model is used for.
#[derive(Clone, Copy, Debug, PartialEq, Eq, Structural)]
pub enum ModelRole {
    Chat,
    Embedding,
    Vision,
}

/// What the window tells.
#[derive(Debug, PartialEq, Eq)]
pub struct SettingsNotice {
    pub text: String,
    pub error: bool,
}

/// What the window tells, as a text.
pub struct NoticeView {
    pub text: Seq<char>,
    pub error: bool,
}

pub open spec fn notice_view(notice: Option<SettingsNotice>) -> Option<NoticeView> {
    match notice {
        Some(notice) => Some(NoticeView { text: notice.text@, error: notice.error }),
        None => None,
    }
}

/// A notice of a text.
pub open spec fn says(text: Seq<char>, error: bool) -> Option<NoticeView> {
    Some(NoticeView { text, error })
}

/// A notice of a text.
pub fn notice(text: String, error: bool) -> (r: Option<SettingsNotice>)
    ensures
        notice_view(r) == says(text@, error),
{
    Some(SettingsNotice { text, error })
}

/// Two texts in a row.
pub fn followed(first: &str, second: &str) -> (r: String)
    ensures
        r@ == first@ + second@,
{
    let mut out = first.to_owned();
    out.push_str(second);
    out
}

/// Three texts in a row.
pub fn concat(first: &str, second: &str, third: &str) -> (r: String)
    ensures
        r@ == first@ + second@ + third@,
{
    let mut out = first.to_owned();
    out.push_str(second);
    out.push_str(third);
    out
}

/// A change of the directory of the data: the new place, where the choice is
/// recorded, and the old place.
#[derive(Debug, PartialEq, Eq)]
pub struct DataDirChange {
    pub target: String,
    pub config_path: String,
    pub from: String,
}

/// A change of the directory of the data, as texts.
pub struct DataDirChangeView {
    pub target: Seq<char>,
    pub config_path: Seq<char>,
    pub from: Seq<char>,
}

impl View for DataDirChange {
    type V = DataDirChangeView;

    open spec fn view(&self) -> DataDirChangeView {
        DataDirChangeView {
            target: self.target@,
            config_path: self.config_path@,
            from: self.from@,
        }
    }
}

impl Clone for DataDirChange {
    fn clone(&self) -> (r: Self)
        ensures
            r@ == self@,
    {
        DataDirChange {
            target: self.target.clone(),
            config_path: self.config_path.clone(),
            from: self.from.clone(),
        }
    }
}

pub open spec fn change_view(change: Option<DataDirChange>) -> Option<DataDirChangeView> {
    match change {
        Some(change) => Some(change@),
        None => None,
    }
}

// ---------------------------------------------------------------------------
// Fields
// ---------------------------------------------------------------------------

/// A text field outside the connections.
#[derive(Clone, Copy, Debug, PartialEq, Eq, Structural)]
pub enum FormField {
    ChatModel,
    Temperature,
    TopP,
    MaxOutputTokens,
    PresencePenalty,
    FrequencyPenalty,
    EmbeddingModel,
    EmbeddingDimensions,
    VisionModel,
    WebUrl,
    WebMethod,
    WebBody,
    WebKeyHeader,
    WebApiKey,
    WebTimeout,
    WebMaxResults,
    JobConcurrency,
    JobInterval,
}

/// Whether a text holds digits alone.
pub open spec fn all_digits(value: Seq<char>) -> bool {
    forall|i: int| 0 <= i < value.len() ==> '0' <= #[trigger] value[i] && value[i] <= '9'
}

impl FormField {
    /// Whether the field takes a text at all.
    pub open spec fn takes(self, text: Seq<char>) -> bool {
        match self {
            FormField::EmbeddingDimensions
            | FormField::WebTimeout
            | FormField::WebMaxResults
            | FormField::JobConcurrency
            | FormField::JobInterval => all_digits(text),
            FormField::WebMethod => ascii_upper_text(text) == "GET"@ || ascii_upper_text(text)
                == "POST"@,
            _ => true,
        }
    }

    /// Whether the field takes a text at all: numbers take digits alone, and the
    /// method of web searches takes those that there are.
    pub fn accepts(self, text: &str) -> (r: bool)
        ensures
            r == self.takes(text@),
    {
        match self {
            FormField::EmbeddingDimensions => is_digits(text),
            FormField::WebTimeout => is_digits(text),
            FormField::WebMaxResults => is_digits(text),
            FormField::JobConcurrency => is_digits(text),
            FormField::JobInterval => is_digits(text),
            FormField::WebMethod => is_search_method(text),
            _ => true,
        }
    }
}

impl FormView {
    /// With another text in a field.
    pub open spec fn with(self, field: FormField, text: Seq<char>) -> Self {
        let models = self.models;
        let generation = self.models.generation;
        let web = self.web;
        let application = self.application;
        match field {
            FormField::ChatModel => FormView {
                models: ModelInputsView { chat_model: text, ..models },
                ..self
            },
            FormField::Temperature => FormView {
                models: ModelInputsView {
                    generation: GenerationView { temperature: text, ..generation },
                    ..models
                },
                ..self
            },
            FormField::TopP => FormView {
                models: ModelInputsView {
                    generation: GenerationView { top_p: text, ..generation },
                    ..models
                },
                ..self
            },
            FormField::MaxOutputTokens => FormView {
                models: ModelInputsView {
                    generation: GenerationView { max_output_tokens: text, ..generation },
                    ..models
                },
                ..self
            },
            FormField::PresencePenalty => FormView {
                models: ModelInputsView {
                    generation: GenerationView { presence_penalty: text, ..generation },
                    ..models
                },
                ..self
            },
            FormField::FrequencyPenalty => FormView {
                models: ModelInputsView {
                    generation: GenerationView { frequency_penalty: text, ..generation },
                    ..models
                },
                ..self
            },
            FormField::EmbeddingModel => FormView {
                models: ModelInputsView { embedding_model: text, ..models },
                ..self
            },
            FormField::EmbeddingDimensions => FormView {
                models: ModelInputsView { embedding_dimensions: text, ..models },
                ..self
            },
            FormField::VisionModel => FormView {
                models: ModelInputsView { vision_model: text, ..models },
                ..self
            },
            FormField::WebUrl => FormView { web: WebSearchInputsView { url: text, ..web }, ..self },
            FormField::WebMethod => FormView {
                web: WebSearchInputsView { method: text, ..web },
                ..self
            },
            FormField::WebBody => FormView {
                web: WebSearchInputsView { body: text, ..web },
                ..self
            },
            FormField::WebKeyHeader => FormView {
                web: WebSearchInputsView { key_header: text, ..web },
                ..self
            },
            FormField::WebApiKey => FormView {
                web: WebSearchInputsView { api_key: text, ..web },
                ..self
            },
            FormField::WebTimeout => FormView {
                web: WebSearchInputsView { timeout: text, ..web },
                ..self
            },
            FormField::WebMaxResults => FormView {
                web: WebSearchInputsView { max_results: text, ..web },
                ..self
            },
            FormField::JobConcurrency => FormView {
                application: ApplicationInputsView {
                    background_job_concurrency: text,
                    ..application
                },
                ..self
            },
            FormField::JobInterval => FormView {
                application: ApplicationInputsView { background_job_interval: text, ..application },
                ..self
            },
        }
    }

    /// With another draft at a place.
    pub open spec fn with_draft(self, at: int, draft: EndpointView) -> Self {
        FormView { endpoints: self.endpoints.update(at, draft), ..self }
    }

    /// The connection that serves a use.
    pub open spec fn route(self, role: ModelRole) -> Seq<char> {
        match role {
            ModelRole::Chat => self.chat_endpoint_id,
            ModelRole::Embedding => self.embedding_endpoint_id,
            ModelRole::Vision => self.vision_endpoint_id,
        }
    }

    /// The model that serves a use.
    pub open spec fn model(self, role: ModelRole) -> Seq<char> {
        match role {
            ModelRole::Chat => self.models.chat_model,
            ModelRole::Embedding => self.models.embedding_model,
            ModelRole::Vision => self.models.vision_model,
        }
    }

    /// With another connection for a use.
    pub open spec fn routed(self, role: ModelRole, id: Seq<char>) -> Self {
        match role {
            ModelRole::Chat => FormView { chat_endpoint_id: id, ..self },
            ModelRole::Embedding => FormView { embedding_endpoint_id: id, ..self },
            ModelRole::Vision => FormView { vision_endpoint_id: id, ..self },
        }
    }

    /// Whether a connection serves some use.
    pub open spec fn is_bound(self, id: Seq<char>) -> bool {
        self.chat_endpoint_id == id || self.embedding_endpoint_id == id
            || self.vision_endpoint_id == id
    }
}

/// The field of a model.
pub open spec fn model_field(role: ModelRole) -> FormField {
    match role {
        ModelRole::Chat => FormField::ChatModel,
        ModelRole::Embedding => FormField::EmbeddingModel,
        ModelRole::Vision => FormField::VisionModel,
    }
}

impl SettingsForm {
    /// Puts a text into a field.
    pub fn put(&mut self, field: FormField, text: &str)
        ensures
            final(self)@ == old(self)@.with(field, text@),
    {
        let text = text.to_owned();
        match field {
            FormField::ChatModel => {
                self.models.chat_model = text;
            },
            FormField::Temperature => {
                self.models.generation.temperature = text;
            },
            FormField::TopP => {
                self.models.generation.top_p = text;
            },
            FormField::MaxOutputTokens => {
                self.models.generation.max_output_tokens = text;
            },
            FormField::PresencePenalty => {
                self.models.generation.presence_penalty = text;
            },
            FormField::FrequencyPenalty => {
                self.models.generation.frequency_penalty = text;
            },
            FormField::EmbeddingModel => {
                self.models.embedding_model = text;
            },
            FormField::EmbeddingDimensions => {
                self.models.embedding_dimensions = text;
            },
            FormField::VisionModel => {
                self.models.vision_model = text;
            },
            FormField::WebUrl => {
                self.web.url = text;
            },
            FormField::WebMethod => {
                self.web.method = text;
            },
            FormField::WebBody => {
                self.web.body = text;
            },
            FormField::WebKeyHeader => {
                self.web.key_header = text;
            },
            FormField::WebApiKey => {
                self.web.api_key = text;
            },
            FormField::WebTimeout => {
                self.web.timeout = text;
            },
            FormField::WebMaxResults => {
                self.web.max_results = text;
            },
            FormField::JobConcurrency => {
                self.application.background_job_concurrency = text;
            },
            FormField::JobInterval => {
                self.application.background_job_interval = text;
            },
        }
    }

    /// The connection that serves a use.
    pub fn endpoint_id_for(&self, role: ModelRole) -> (r: &str)
        ensures
            r@ == self@.route(role),
    {
        match role {
            ModelRole::Chat => self.chat_endpoint_id.as_str(),
            ModelRole::Embedding => self.embedding_endpoint_id.as_str(),
            ModelRole::Vision => self.vision_endpoint_id.as_str(),
        }
    }

    /// The model that serves a use.
    pub fn model_input_for(&self, role: ModelRole) -> (r: &str)
        ensures
            r@ == self@.model(role),
    {
        match role {
            ModelRole::Chat => self.models.chat_model.as_str(),
            ModelRole::Embedding => self.models.embedding_model.as_str(),
            ModelRole::Vision => self.models.vision_model.as_str(),
        }
    }

    /// Whether a connection serves some use.
    pub fn endpoint_is_bound(&self, id: &str) -> (r: bool)
        ensures
            r == self@.is_bound(id@),
    {
        same_text(self.chat_endpoint_id.as_str(), id) || same_text(
            self.embedding_endpoint_id.as_str(),
            id,
        ) || same_text(self.vision_endpoint_id.as_str(), id)
    }
}

} // verus!
