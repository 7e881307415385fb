//! What the settings window shows.

use crate::endpoint::{is_local_ollama, ollama_pull_commands, pull_commands, url_parts};
use crate::settings::DEFAULT_ENDPOINT_ID;
use crate::settings_fields::{followed, FormField, ModelRole, PendingOperation, SettingsTab};
use crate::settings_form::{
    drafts, find_draft, EndpointDraft, EndpointView, FormView, TranslationDisplayMode,
};
use crate::settings_window::{AiSettingsWindow, SettingsWindowView};
use crate::text::{
    copy_list, decimal, join, joined, list_has, option_text, push_decimal, same_text, texts, trim,
    trimmed,
};
use vstd::prelude::*;
use vstd::string::*;

verus! {

// ---------------------------------------------------------------------------
// Fields
// ---------------------------------------------------------------------------

impl FormField {
    pub open spec fn label_text(self) -> Seq<char> {
        match self {
            FormField::ChatModel => "对话模型"@,
            FormField::Temperature => "温度（Temperature）"@,
            FormField::TopP => "核采样（Top P）"@,
            FormField::MaxOutputTokens => "最大输出 token 数"@,
            FormField::PresencePenalty => "出现惩罚（Presence Penalty）"@,
            FormField::FrequencyPenalty => "频率惩罚（Frequency Penalty）"@,
            FormField::EmbeddingModel => "Embedding 模型"@,
            FormField::EmbeddingDimensions => "向量维度（Dimensions）"@,
            FormField::VisionModel => "视觉模型"@,
            FormField::WebUrl => "请求模板（URL）"@,
            FormField::WebMethod => "方法"@,
            FormField::WebBody => "请求体模板（可选）"@,
            FormField::WebKeyHeader => "API key 头（可选）"@,
            FormField::WebApiKey => ""@,
            FormField::WebTimeout => "超时（秒）"@,
            FormField::WebMaxResults => "结果条数"@,
            FormField::JobConcurrency => "任务并发"@,
            FormField::JobInterval => "任务间隔（毫秒）"@,
        }
    }

    /// What stands above the field; nothing above the key of web searches.
    pub fn label(self) -> (r: &'static str)
        ensures
            r@ == self.label_text(),
    {
        match self {
            FormField::ChatModel => "对话模型",
            FormField::Temperature => "温度（Temperature）",
            FormField::TopP => "核采样（Top P）",
            FormField::MaxOutputTokens => "最大输出 token 数",
            FormField::PresencePenalty => "出现惩罚（Presence Penalty）",
            FormField::FrequencyPenalty => "频率惩罚（Frequency Penalty）",
            FormField::EmbeddingModel => "Embedding 模型",
            FormField::EmbeddingDimensions => "向量维度（Dimensions）",
            FormField::VisionModel => "视觉模型",
            FormField::WebUrl => "请求模板（URL）",
            FormField::WebMethod => "方法",
            FormField::WebBody => "请求体模板（可选）",
            FormField::WebKeyHeader => "API key 头（可选）",
            FormField::WebApiKey => "",
            FormField::WebTimeout => "超时（秒）",
            FormField::WebMaxResults => "结果条数",
            FormField::JobConcurrency => "任务并发",
            FormField::JobInterval => "任务间隔（毫秒）",
        }
    }

    pub open spec fn description_text(self) -> Seq<char> {
        match self {
            FormField::ChatModel => "用于流式问答和只读工具调用。"@,
            FormField::Temperature => "0–2；默认 0.1。越低越集中，越高越随机。通常与 Top P 选择一项调整。"@,
            FormField::TopP => "0–1；控制候选词的累计概率范围，越小越集中。"@,
            FormField::MaxOutputTokens => "正整数，默认 4096；请按所选模型设置，墨页不设固定上限。上下文不足时可能进一步降低。"@,
            FormField::PresencePenalty => "−2–2；正值降低已出现词的再次使用倾向，负值提高。"@,
            FormField::FrequencyPenalty => "−2–2；正值按出现次数抑制重复，负值鼓励重复。"@,
            FormField::EmbeddingModel => "用于向量索引；不可用时全文检索仍可工作。"@,
            FormField::EmbeddingDimensions => "正整数，默认 1024。修改后所有已索引的向量将失效并需要重新生成。"@,
            FormField::VisionModel => "用于页面 OCR 与视觉说明任务。"@,
            FormField::WebUrl => "必须包含 {query}；可配置 SearxNG、Brave、Tavily 等端点。"@,
            FormField::WebMethod => "GET 或 POST；POST 端点需填写下方的请求体模板。"@,
            FormField::WebBody => "POST 时使用，需包含 {query}；留空则用 GET。"@,
            FormField::WebKeyHeader => "自定义携带密钥的请求头名；留空则用 Authorization: Bearer。"@,
            FormField::WebApiKey => "联网搜索 API key 只存入 Windows Credential Manager；留空保持、输入替换。"@,
            FormField::WebTimeout => "单次联网搜索请求的总超时。"@,
            FormField::WebMaxResults => "返回给模型的最大搜索结果数量。"@,
            FormField::JobConcurrency => "同时运行的模型任务数量，1–1024，默认 1。并发越高占用的内存与网络越多；配置较低的机器建议保持 1。"@,
            FormField::JobInterval => "一个任务完成后，休眠多久再开始下一个任务，0–60000 毫秒，默认 10。机器配置较差时增大该值可降低持续满载的风险。"@,
        }
    }

    /// What stands below the field.
    pub fn description(self) -> (r: &'static str)
        ensures
            r@ == self.description_text(),
    {
        match self {
            FormField::ChatModel => "用于流式问答和只读工具调用。",
            FormField::Temperature => "0–2；默认 0.1。越低越集中，越高越随机。通常与 Top P 选择一项调整。",
            FormField::TopP => "0–1；控制候选词的累计概率范围，越小越集中。",
            FormField::MaxOutputTokens => "正整数，默认 4096；请按所选模型设置，墨页不设固定上限。上下文不足时可能进一步降低。",
            FormField::PresencePenalty => "−2–2；正值降低已出现词的再次使用倾向，负值提高。",
            FormField::FrequencyPenalty => "−2–2；正值按出现次数抑制重复，负值鼓励重复。",
            FormField::EmbeddingModel => "用于向量索引；不可用时全文检索仍可工作。",
            FormField::EmbeddingDimensions => "正整数，默认 1024。修改后所有已索引的向量将失效并需要重新生成。",
            FormField::VisionModel => "用于页面 OCR 与视觉说明任务。",
            FormField::WebUrl => "必须包含 {query}；可配置 SearxNG、Brave、Tavily 等端点。",
            FormField::WebMethod => "GET 或 POST；POST 端点需填写下方的请求体模板。",
            FormField::WebBody => "POST 时使用，需包含 {query}；留空则用 GET。",
            FormField::WebKeyHeader => "自定义携带密钥的请求头名；留空则用 Authorization: Bearer。",
            FormField::WebApiKey => "联网搜索 API key 只存入 Windows Credential Manager；留空保持、输入替换。",
            FormField::WebTimeout => "单次联网搜索请求的总超时。",
            FormField::WebMaxResults => "返回给模型的最大搜索结果数量。",
            FormField::JobConcurrency => "同时运行的模型任务数量，1–1024，默认 1。并发越高占用的内存与网络越多；配置较低的机器建议保持 1。",
            FormField::JobInterval => "一个任务完成后，休眠多久再开始下一个任务，0–60000 毫秒，默认 10。机器配置较差时增大该值可降低持续满载的风险。",
        }
    }
}

/// A text field as it is shown.
#[derive(Debug, PartialEq, Eq)]
pub struct InputField {
    pub field: FormField,
    pub label: &'static str,
    pub description: &'static str,
    pub value: String,
    pub disabled: bool,
}

impl FormView {
    /// The text in a field.
    pub open spec fn text(self, field: FormField) -> Seq<char> {
        match field {
            FormField::ChatModel => self.models.chat_model,
            FormField::Temperature => self.models.generation.temperature,
            FormField::TopP => self.models.generation.top_p,
            FormField::MaxOutputTokens => self.models.generation.max_output_tokens,
            FormField::PresencePenalty => self.models.generation.presence_penalty,
            FormField::FrequencyPenalty => self.models.generation.frequency_penalty,
            FormField::EmbeddingModel => self.models.embedding_model,
            FormField::EmbeddingDimensions => self.models.embedding_dimensions,
            FormField::VisionModel => self.models.vision_model,
            FormField::WebUrl => self.web.url,
            FormField::WebMethod => self.web.method,
            FormField::WebBody => self.web.body,
            FormField::WebKeyHeader => self.web.key_header,
            FormField::WebApiKey => self.web.api_key,
            FormField::WebTimeout => self.web.timeout,
            FormField::WebMaxResults => self.web.max_results,
            FormField::JobConcurrency => self.application.background_job_concurrency,
            FormField::JobInterval => self.application.background_job_interval,
        }
    }
}

/// A field shows what was last put into it, and no other field changes.
pub proof fn a_field_keeps_what_was_put_into_it(
    form: FormView,
    field: FormField,
    other: FormField,
    text: Seq<char>,
)
    ensures
        form.with(field, text).text(field) == text,
        other != field ==> form.with(field, text).text(other) == form.text(other),
        form.with(field, text).endpoints == form.endpoints,
{
}

impl InputField {
    /// Whether this is a field that a window shows.
    pub open spec fn shows(self, window: SettingsWindowView, field: FormField) -> bool {
        &&& self.field == field
        &&& self.label@ == field.label_text()
        &&& self.description@ == field.description_text()
        &&& self.value@ == window.form.text(field)
        &&& self.disabled == window.busy()
    }
}

impl AiSettingsWindow {
    fn field_text(&self, field: FormField) -> (r: &str)
        ensures
            r@ == self@.form.text(field),
    {
        match field {
            FormField::ChatModel => self.form.models.chat_model.as_str(),
            FormField::Temperature => self.form.models.generation.temperature.as_str(),
            FormField::TopP => self.form.models.generation.top_p.as_str(),
            FormField::MaxOutputTokens => self.form.models.generation.max_output_tokens.as_str(),
            FormField::PresencePenalty => self.form.models.generation.presence_penalty.as_str(),
            FormField::FrequencyPenalty => self.form.models.generation.frequency_penalty.as_str(),
            FormField::EmbeddingModel => self.form.models.embedding_model.as_str(),
            FormField::EmbeddingDimensions => self.form.models.embedding_dimensions.as_str(),
            FormField::VisionModel => self.form.models.vision_model.as_str(),
            FormField::WebUrl => self.form.web.url.as_str(),
            FormField::WebMethod => self.form.web.method.as_str(),
            FormField::WebBody => self.form.web.body.as_str(),
            FormField::WebKeyHeader => self.form.web.key_header.as_str(),
            FormField::WebApiKey => self.form.web.api_key.as_str(),
            FormField::WebTimeout => self.form.web.timeout.as_str(),
            FormField::WebMaxResults => self.form.web.max_results.as_str(),
            FormField::JobConcurrency => self.form.application.background_job_concurrency.as_str(),
            FormField::JobInterval => self.form.application.background_job_interval.as_str(),
        }
    }

    /// A text field as it is shown.
    pub fn render_input_field(&self, field: FormField) -> (r: InputField)
        ensures
            r.shows(self@, field),
    {
        InputField {
            field,
            label: field.label(),
            description: field.description(),
            value: self.field_text(field).to_owned(),
            disabled: self.operation.busy(),
        }
    }
}

// ---------------------------------------------------------------------------
// Detected models
// ---------------------------------------------------------------------------

/// The models that a connection has.
#[derive(Debug, PartialEq, Eq)]
pub struct DetectionDisplay {
    pub title: String,
    pub hint: &'static str,
    /// What is said of a model that the connection does not have.
    pub missing: Option<String>,
    pub models: Vec<String>,
    /// Whether the models cannot be chosen.
    pub disabled: bool,
    /// The commands that fetch what is missing.
    pub commands: Vec<String>,
}

/// The models that are entered for a use and that a connection does not have.
pub open spec fn missing_models(
    window: SettingsWindowView,
    models: Seq<Seq<char>>,
    role: Option<ModelRole>,
) -> Seq<Seq<char>> {
    match role {
        Some(role) => if models.contains(trimmed(window.form.model(role))) {
            Seq::empty()
        } else {
            seq![trimmed(window.form.model(role))]
        },
        None => Seq::empty(),
    }
}

impl DetectionDisplay {
    /// Whether these are the models that a connection has.
    pub open spec fn shows(
        self,
        window: SettingsWindowView,
        endpoint: EndpointView,
        role: Option<ModelRole>,
    ) -> bool {
        let models = endpoint.detected_models->0;
        let missing = missing_models(window, models, role);
        &&& self.title@ == endpoint.name + " 返回的模型（"@ + decimal(models.len()) + "）"@
        &&& self.hint@ == (if models.len() == 0 {
            "未返回模型"@
        } else {
            "模型列表不标注能力，请选择支持当前用途的模型。"@
        })
        &&& option_text(self.missing) == (if missing.len() == 0 {
            None
        } else {
            Some("当前模型未在此 Endpoint 的列表中："@ + joined(missing, "、"@))
        })
        &&& texts(self.models@) == models
        &&& self.disabled == (window.busy() || role is None)
        &&& texts(self.commands@) == (if is_local_ollama(url_parts(trimmed(endpoint.base_url))) {
            pull_commands(missing)
        } else {
            Seq::empty()
        })
    }
}

/// Whether the models of a connection are shown as they are to be.
pub open spec fn detection_is_shown(
    display: Option<DetectionDisplay>,
    window: SettingsWindowView,
    endpoint: EndpointView,
    role: Option<ModelRole>,
) -> bool {
    &&& display is Some <==> endpoint.detected_models is Some
    &&& display is Some ==> display->0.shows(window, endpoint, role)
}

impl AiSettingsWindow {
    /// The models that a connection has, where they were detected. `role` is the
    /// use for which one could be chosen.
    pub fn render_model_detection(&self, endpoint: &EndpointDraft, role: Option<ModelRole>) -> (r:
        Option<DetectionDisplay>)
        ensures
            detection_is_shown(r, self@, endpoint@, role),
    {
        let models = match &endpoint.detected_models {
            Some(models) => models,
            None => {
                return None;
            },
        };
        let mut missing: Vec<String> = Vec::new();
        assert(texts(missing@) =~= Seq::<Seq<char>>::empty());
        if let Some(role) = role {
            let model = trim(self.form.model_input_for(role));
            if !list_has(models, model.as_str()) {
                let ghost name = model@;
                missing.push(model);
                assert(texts(missing@) =~= seq![name]);
            }
        }
        let commands = ollama_pull_commands(endpoint.base_url.as_str(), &missing);
        let mut title = followed(endpoint.name.as_str(), " 返回的模型（");
        push_decimal(&mut title, models.len() as u128);
        title.push_str("）");
        let said = if missing.len() == 0 {
            None
        } else {
            let list = join(&missing, "、");
            Some(followed("当前模型未在此 Endpoint 的列表中：", list.as_str()))
        };
        Some(
            DetectionDisplay {
                title,
                hint: if models.len() == 0 {
                    "未返回模型"
                } else {
                    "模型列表不标注能力，请选择支持当前用途的模型。"
                },
                missing: said,
                models: copy_list(models),
                disabled: self.operation.busy() || role.is_none(),
                commands,
            },
        )
    }
}

// ---------------------------------------------------------------------------
// Connections
// ---------------------------------------------------------------------------

/// A connection that can be chosen.
#[derive(Debug, PartialEq, Eq)]
pub struct EndpointChoice {
    pub id: String,
    pub label: String,
    pub selected: bool,
}

/// Whether choices are the connections, with one of them marked.
pub open spec fn choices_show(
    choices: Seq<EndpointChoice>,
    endpoints: Seq<EndpointView>,
    selected: Seq<char>,
) -> bool {
    &&& choices.len() == endpoints.len()
    &&& forall|i: int|
        0 <= i < choices.len() ==> (#[trigger] choices[i]).id@ == endpoints[i].id
            && choices[i].label@ == endpoints[i].name && choices[i].selected == (endpoints[i].id
            == selected)
}

fn endpoint_choices(endpoints: &Vec<EndpointDraft>, selected: &str) -> (r: Vec<EndpointChoice>)
    ensures
        choices_show(r@, drafts(endpoints@), selected@),
{
    let mut out: Vec<EndpointChoice> = Vec::new();
    let mut i: usize = 0;
    while i < endpoints.len()
        invariant
            i <= endpoints@.len(),
            out@.len() == i,
            forall|k: int|
                0 <= k < i ==> (#[trigger] out@[k]).id@ == drafts(endpoints@)[k].id
                    && out@[k].label@ == drafts(endpoints@)[k].name && out@[k].selected == (drafts(
                    endpoints@,
                )[k].id == selected@),
        decreases endpoints@.len() - i,
    {
        let draft = &endpoints[i];
        assert(drafts(endpoints@)[i as int] == draft@);
        out.push(
            EndpointChoice {
                id: draft.id.clone(),
                label: draft.name.clone(),
                selected: same_text(draft.id.as_str(), selected),
            },
        );
        i = i + 1;
    }
    out
}

/// The panel of the connection that is shown, with its key.
#[derive(Debug, PartialEq, Eq)]
pub struct EndpointPanel {
    pub choices: Vec<EndpointChoice>,
    pub busy: bool,
    pub delete_disabled: bool,
    pub name: String,
    pub base_url: String,
    pub request_timeout: String,
    pub remote_checked: bool,
    pub insecure_checked: bool,
    pub insecure_disabled: bool,
    pub key_disabled: bool,
    pub delete_key_checked: bool,
    pub detection: Option<DetectionDisplay>,
}

impl EndpointPanel {
    /// Whether this is the panel that a window shows.
    pub open spec fn shows(self, window: SettingsWindowView) -> bool {
        let endpoint = window.draft(window.selected);
        &&& choices_show(self.choices@, window.form.endpoints, window.selected)
        &&& self.busy == window.busy()
        &&& self.delete_disabled == (window.busy() || window.selected == DEFAULT_ENDPOINT_ID@)
        &&& self.name@ == endpoint.name
        &&& self.base_url@ == endpoint.base_url
        &&& self.request_timeout@ == endpoint.request_timeout
        &&& self.remote_checked == endpoint.remote_content_confirmed
        &&& self.insecure_checked == endpoint.allow_insecure_remote_http
        &&& self.insecure_disabled == (window.busy() || !endpoint.remote_content_confirmed)
        &&& self.key_disabled == (window.busy() || endpoint.delete_api_key)
        &&& self.delete_key_checked == endpoint.delete_api_key
        &&& detection_is_shown(self.detection, window, endpoint, None)
    }
}

impl AiSettingsWindow {
    /// The panel of the connection that is shown.
    pub fn render_endpoint_panel(&self) -> (r: EndpointPanel)
        requires
            self.wf(),
        ensures
            r.shows(self@),
    {
        let endpoint = self.selected_endpoint();
        let busy = self.operation.busy();
        EndpointPanel {
            choices: endpoint_choices(&self.form.endpoints, self.selected_endpoint_id.as_str()),
            busy,
            delete_disabled: busy || same_text(
                self.selected_endpoint_id.as_str(),
                DEFAULT_ENDPOINT_ID,
            ),
            name: endpoint.name.clone(),
            base_url: endpoint.base_url.clone(),
            request_timeout: endpoint.request_timeout.clone(),
            remote_checked: endpoint.remote_content_confirmed,
            insecure_checked: endpoint.allow_insecure_remote_http,
            insecure_disabled: busy || !endpoint.remote_content_confirmed,
            key_disabled: busy || endpoint.delete_api_key,
            delete_key_checked: endpoint.delete_api_key,
            detection: self.render_model_detection(endpoint, None),
        }
    }
}

// ---------------------------------------------------------------------------
// Models
// ---------------------------------------------------------------------------

impl ModelRole {
    pub open spec fn label_text(self) -> Seq<char> {
        match self {
            ModelRole::Chat => "对话模型"@,
            ModelRole::Embedding => "Embedding 模型"@,
            ModelRole::Vision => "视觉模型"@,
        }
    }

    pub fn label(self) -> (r: &'static str)
        ensures
            r@ == self.label_text(),
    {
        match self {
            ModelRole::Chat => "对话模型",
            ModelRole::Embedding => "Embedding 模型",
            ModelRole::Vision => "视觉模型",
        }
    }

    pub open spec fn description_text(self) -> Seq<char> {
        match self {
            ModelRole::Chat => "用于流式问答和只读工具调用。"@,
            ModelRole::Embedding => "用于向量索引；不可用时全文检索仍可工作。"@,
            ModelRole::Vision => "用于页面 OCR 与视觉说明任务。"@,
        }
    }

    pub fn description(self) -> (r: &'static str)
        ensures
            r@ == self.description_text(),
    {
        match self {
            ModelRole::Chat => "用于流式问答和只读工具调用。",
            ModelRole::Embedding => "用于向量索引；不可用时全文检索仍可工作。",
            ModelRole::Vision => "用于页面 OCR 与视觉说明任务。",
        }
    }

    pub open spec fn selector_text(self) -> Seq<char> {
        match self {
            ModelRole::Chat => "chat"@,
            ModelRole::Embedding => "embedding"@,
            ModelRole::Vision => "vision"@,
        }
    }

    pub fn selector(self) -> (r: &'static str)
        ensures
            r@ == self.selector_text(),
    {
        match self {
            ModelRole::Chat => "chat",
            ModelRole::Embedding => "embedding",
            ModelRole::Vision => "vision",
        }
    }
}

/// The panel of a use.
#[derive(Debug, PartialEq, Eq)]
pub struct RolePanel {
    pub heading: String,
    pub choices: Vec<EndpointChoice>,
    pub busy: bool,
    /// The address of the connection that serves the use.
    pub address: Option<String>,
    pub model: String,
    /// The dimensions of vectors, where they matter.
    pub dimensions: Option<String>,
    pub detection: Option<DetectionDisplay>,
}

impl RolePanel {
    /// Whether this is the panel of a use that a window shows.
    pub open spec fn shows(self, window: SettingsWindowView, role: ModelRole) -> bool {
        let id = window.form.route(role);
        let endpoint = window.draft(id);
        &&& self.heading@ == role.label_text() + " · Endpoint"@
        &&& choices_show(self.choices@, window.form.endpoints, id)
        &&& self.busy == window.busy()
        &&& option_text(self.address) == (if window.has(id) {
            Some(endpoint.base_url)
        } else {
            None
        })
        &&& self.model@ == window.form.model(role)
        &&& option_text(self.dimensions) == (if role == ModelRole::Embedding {
            Some(window.form.models.embedding_dimensions)
        } else {
            None
        })
        &&& window.has(id) ==> detection_is_shown(self.detection, window, endpoint, Some(role))
        &&& !window.has(id) ==> self.detection is None
    }
}

impl AiSettingsWindow {
    /// The panel of a use.
    pub fn render_role_panel(&self, role: ModelRole) -> (r: RolePanel)
        ensures
            r.shows(self@, role),
    {
        let id = self.form.endpoint_id_for(role);
        let choices = endpoint_choices(&self.form.endpoints, id);
        let mut address: Option<String> = None;
        let mut detection: Option<DetectionDisplay> = None;
        match find_draft(&self.form.endpoints, id) {
            Some(i) => {
                let endpoint = &self.form.endpoints[i];
                assert(drafts(self.form.endpoints@)[i as int] == endpoint@);
                address = Some(endpoint.base_url.clone());
                detection = self.render_model_detection(endpoint, Some(role));
            },
            None => {},
        }
        RolePanel {
            heading: followed(role.label(), " · Endpoint"),
            choices,
            busy: self.operation.busy(),
            address,
            model: self.form.model_input_for(role).to_owned(),
            dimensions: if role == ModelRole::Embedding {
                Some(self.form.models.embedding_dimensions.clone())
            } else {
                None
            },
            detection,
        }
    }
}

// ---------------------------------------------------------------------------
// Web searches and the application
// ---------------------------------------------------------------------------

/// The switches of web searches.
#[derive(Clone, Copy, Debug, PartialEq, Eq, Structural)]
pub struct WebSearchSwitches {
    pub enabled: bool,
    pub busy: bool,
    pub key_disabled: bool,
    pub remote_checked: bool,
    pub remote_disabled: bool,
    pub insecure_checked: bool,
    pub insecure_disabled: bool,
    pub delete_key_checked: bool,
    pub delete_key_disabled: bool,
}

/// The switches of web searches that a window shows.
pub open spec fn web_search_switches(window: SettingsWindowView) -> WebSearchSwitches {
    let web = window.form.web;
    WebSearchSwitches {
        enabled: web.enabled,
        busy: window.busy(),
        key_disabled: window.busy() || web.delete_api_key || !web.enabled,
        remote_checked: web.remote_confirmed,
        remote_disabled: window.busy() || !web.enabled,
        insecure_checked: web.allow_insecure_http,
        insecure_disabled: window.busy() || !web.enabled || !web.remote_confirmed,
        delete_key_checked: web.delete_api_key,
        delete_key_disabled: window.busy() || !web.enabled,
    }
}

/// The panel of web searches.
#[derive(Debug, PartialEq, Eq)]
pub struct WebSearchPanel {
    pub switches: WebSearchSwitches,
    pub fields: Vec<InputField>,
}

/// The fields of web searches, in the order in which they are shown.
pub open spec fn web_search_field(i: int) -> FormField {
    if i == 0 {
        FormField::WebUrl
    } else if i == 1 {
        FormField::WebMethod
    } else if i == 2 {
        FormField::WebBody
    } else if i == 3 {
        FormField::WebKeyHeader
    } else if i == 4 {
        FormField::WebTimeout
    } else {
        FormField::WebMaxResults
    }
}

impl WebSearchPanel {
    /// Whether this is the panel that a window shows.
    pub open spec fn shows(self, window: SettingsWindowView) -> bool {
        &&& self.switches == web_search_switches(window)
        &&& self.fields@.len() == 6
        &&& forall|i: int|
            0 <= i < 6 ==> (#[trigger] self.fields@[i]).shows(window, web_search_field(i))
    }
}

impl AiSettingsWindow {
    fn switches(&self) -> (r: WebSearchSwitches)
        ensures
            r == web_search_switches(self@),
    {
        let busy = self.operation.busy();
        let web = &self.form.web;
        WebSearchSwitches {
            enabled: web.enabled,
            busy,
            key_disabled: busy || web.delete_api_key || !web.enabled,
            remote_checked: web.remote_confirmed,
            remote_disabled: busy || !web.enabled,
            insecure_checked: web.allow_insecure_http,
            insecure_disabled: busy || !web.enabled || !web.remote_confirmed,
            delete_key_checked: web.delete_api_key,
            delete_key_disabled: busy || !web.enabled,
        }
    }

    /// The panel of web searches.
    pub fn render_web_search_panel(&self) -> (r: WebSearchPanel)
        ensures
            r.shows(self@),
    {
        let mut fields: Vec<InputField> = Vec::new();
        fields.push(self.render_input_field(FormField::WebUrl));
        fields.push(self.render_input_field(FormField::WebMethod));
        fields.push(self.render_input_field(FormField::WebBody));
        fields.push(self.render_input_field(FormField::WebKeyHeader));
        fields.push(self.render_input_field(FormField::WebTimeout));
        fields.push(self.render_input_field(FormField::WebMaxResults));
        WebSearchPanel { switches: self.switches(), fields }
    }
}

/// A language into which books can be translated.
#[derive(Debug, PartialEq, Eq)]
pub struct LanguageOption {
    pub tag: String,
    pub label: String,
}

/// The label of the first language of a tag among the languages from a place on.
pub open spec fn language_label(languages: Seq<LanguageOption>, tag: Seq<char>, from: int) -> Option<
    Seq<char>,
>
    decreases languages.len() - from,
{
    if from >= languages.len() {
        None
    } else if languages[from].tag@ == tag {
        Some(languages[from].label@)
    } else {
        language_label(languages, tag, from + 1)
    }
}

/// What the button of the language shows.
pub open spec fn language_text(
    languages: Seq<LanguageOption>,
    language: Option<Seq<char>>,
) -> Seq<char> {
    match language {
        Some(tag) => match language_label(languages, tag, 0) {
            Some(label) => label,
            None => "不翻译（仅原文）"@,
        },
        None => "不翻译（仅原文）"@,
    }
}

impl TranslationDisplayMode {
    pub open spec fn label_text(self) -> Seq<char> {
        match self {
            TranslationDisplayMode::Bilingual => "双语"@,
            TranslationDisplayMode::OriginalOnly => "原文"@,
            TranslationDisplayMode::TranslationOnly => "译文"@,
        }
    }

    pub fn label(self) -> (r: &'static str)
        ensures
            r@ == self.label_text(),
    {
        match self {
            TranslationDisplayMode::Bilingual => "双语",
            TranslationDisplayMode::OriginalOnly => "原文",
            TranslationDisplayMode::TranslationOnly => "译文",
        }
    }
}

/// A language in the menu.
#[derive(Debug, PartialEq, Eq)]
pub struct LanguageItem {
    /// The language, or none where books are not translated.
    pub tag: Option<String>,
    pub label: String,
    pub checked: bool,
}

/// The menu of languages: none, then each.
pub open spec fn menu_shows(
    items: Seq<LanguageItem>,
    languages: Seq<LanguageOption>,
    language: Option<Seq<char>>,
) -> bool {
    &&& items.len() == languages.len() + 1
    &&& option_text(items[0].tag) is None
    &&& items[0].label@ == "不翻译（仅原文）"@
    &&& items[0].checked == language is None
    &&& forall|i: int|
        0 <= i < languages.len() ==> option_text((#[trigger] items[i + 1]).tag) == Some(
            languages[i].tag@,
        ) && items[i + 1].label@ == languages[i].label@ && items[i + 1].checked == (language
            == Some(languages[i].tag@))
}

/// The panel of the application.
#[derive(Debug, PartialEq, Eq)]
pub struct SystemPanel {
    pub language: String,
    pub languages: Vec<LanguageItem>,
    pub display_mode: &'static str,
    pub display_modes: Vec<DisplayModeItem>,
    pub compact_reading: bool,
    pub use_proxy: bool,
    pub busy: bool,
    pub change_directory_disabled: bool,
    /// Where things are stored: what, and the path.
    pub storage: Vec<(&'static str, String)>,
    /// What is asked before a library is overwritten.
    pub overwrite_question: Option<String>,
}

/// What is asked before a library is overwritten.
pub open spec fn overwrite_text(window: SettingsWindowView) -> Option<Seq<char>> {
    match window.overwrite {
        Some(change) => Some(
            change.target
                + " 已经是一个图书库。继续会先删掉它的内容，再把当前数据目录的内容整体搬过去 —— 这一步不可撤销。"@,
        ),
        None => None,
    }
}

/// Where things are stored, as texts.
pub open spec fn storage_views(rows: Seq<(&'static str, String)>) -> Seq<(Seq<char>, Seq<char>)> {
    rows.map_values(|row: (&'static str, String)| (row.0@, row.1@))
}

impl SystemPanel {
    /// Whether this is the panel that a window shows.
    pub open spec fn shows(
        self,
        window: SettingsWindowView,
        languages: Seq<LanguageOption>,
        data_dir: Seq<char>,
        log_dir: Seq<char>,
    ) -> bool {
        let application = window.form.application;
        &&& self.language@ == language_text(languages, application.default_language)
        &&& menu_shows(self.languages@, languages, application.default_language)
        &&& self.display_mode@ == application.translation_display_mode.label_text()
        &&& modes_show(self.display_modes@, application.translation_display_mode)
        &&& self.compact_reading == application.pdf_compact_reading
        &&& self.use_proxy == application.use_proxy
        &&& self.busy == window.busy()
        &&& self.change_directory_disabled == (window.busy() || window.choosing)
        &&& storage_views(self.storage@) == seq![("数据目录"@, data_dir), ("日志目录"@, log_dir)]
        &&& option_text(self.overwrite_question) == overwrite_text(window)
    }
}

/// A way to show translations in the menu.
#[derive(Clone, Copy, Debug, PartialEq, Eq, Structural)]
pub struct DisplayModeItem {
    pub mode: TranslationDisplayMode,
    pub checked: bool,
}

/// The menu of ways to show translations.
pub open spec fn modes_show(items: Seq<DisplayModeItem>, selected: TranslationDisplayMode) -> bool {
    items =~= seq![
        DisplayModeItem {
            mode: TranslationDisplayMode::TranslationOnly,
            checked: selected == TranslationDisplayMode::TranslationOnly,
        },
        DisplayModeItem {
            mode: TranslationDisplayMode::Bilingual,
            checked: selected == TranslationDisplayMode::Bilingual,
        },
        DisplayModeItem {
            mode: TranslationDisplayMode::OriginalOnly,
            checked: selected == TranslationDisplayMode::OriginalOnly,
        },
    ]
}

fn display_mode_menu(selected: TranslationDisplayMode) -> (r: Vec<DisplayModeItem>)
    ensures
        modes_show(r@, selected),
{
    let mut out: Vec<DisplayModeItem> = Vec::new();
    out.push(
        DisplayModeItem {
            mode: TranslationDisplayMode::TranslationOnly,
            checked: selected == TranslationDisplayMode::TranslationOnly,
        },
    );
    out.push(
        DisplayModeItem {
            mode: TranslationDisplayMode::Bilingual,
            checked: selected == TranslationDisplayMode::Bilingual,
        },
    );
    out.push(
        DisplayModeItem {
            mode: TranslationDisplayMode::OriginalOnly,
            checked: selected == TranslationDisplayMode::OriginalOnly,
        },
    );
    out
}

fn current_language(languages: &Vec<LanguageOption>, language: &Option<String>) -> (r: String)
    ensures
        r@ == language_text(languages@, option_text(*language)),
{
    if let Some(tag) = language {
        let mut i: usize = 0;
        while i < languages.len()
            invariant
                i <= languages@.len(),
                option_text(*language) == Some(tag@),
                language_label(languages@, tag@, 0) == language_label(
                    languages@,
                    tag@,
                    i as int,
                ),
            decreases languages@.len() - i,
        {
            if same_text(languages[i].tag.as_str(), tag.as_str()) {
                return languages[i].label.clone();
            }
            i = i + 1;
        }
    }
    "不翻译（仅原文）".to_owned()
}

fn language_menu(languages: &Vec<LanguageOption>, language: &Option<String>) -> (r: Vec<
    LanguageItem,
>)
    ensures
        menu_shows(r@, languages@, option_text(*language)),
{
    let mut out: Vec<LanguageItem> = Vec::new();
    out.push(
        LanguageItem {
            tag: None,
            label: "不翻译（仅原文）".to_owned(),
            checked: language.is_none(),
        },
    );
    let mut i: usize = 0;
    while i < languages.len()
        invariant
            i <= languages@.len(),
            out@.len() == i + 1,
            option_text(out@[0].tag) is None,
            out@[0].label@ == "不翻译（仅原文）"@,
            out@[0].checked == option_text(*language) is None,
            forall|k: int|
                0 <= k < i ==> option_text((#[trigger] out@[k + 1]).tag) == Some(
                    languages@[k].tag@,
                ) && out@[k + 1].label@ == languages@[k].label@ && out@[k + 1].checked == (
                option_text(*language) == Some(languages@[k].tag@)),
        decreases languages@.len() - i,
    {
        let checked = match language {
            Some(tag) => same_text(tag.as_str(), languages[i].tag.as_str()),
            None => false,
        };
        out.push(
            LanguageItem {
                tag: Some(languages[i].tag.clone()),
                label: languages[i].label.clone(),
                checked,
            },
        );
        i = i + 1;
    }
    out
}

impl AiSettingsWindow {
    /// The panel of the application, given the languages that there are and where
    /// data and logs are stored.
    pub fn render_system_panel(
        &self,
        languages: &Vec<LanguageOption>,
        data_dir: &str,
        log_dir: &str,
    ) -> (r: SystemPanel)
        ensures
            r.shows(self@, languages@, data_dir@, log_dir@),
    {
        let application = &self.form.application;
        let mut storage: Vec<(&'static str, String)> = Vec::new();
        storage.push(("数据目录", data_dir.to_owned()));
        storage.push(("日志目录", log_dir.to_owned()));
        assert(storage_views(storage@) =~= seq![
            ("数据目录"@, data_dir@),
            ("日志目录"@, log_dir@),
        ]);
        SystemPanel {
            language: current_language(languages, &application.default_language),
            languages: language_menu(languages, &application.default_language),
            display_mode: application.translation_display_mode.label(),
            display_modes: display_mode_menu(application.translation_display_mode),
            compact_reading: application.pdf_compact_reading,
            use_proxy: application.use_proxy,
            busy: self.operation.busy(),
            change_directory_disabled: self.operation.busy() || self.choosing_data_directory,
            storage,
            overwrite_question: self.render_confirm_overwrite(),
        }
    }

    /// What is asked before a library is overwritten.
    pub fn render_confirm_overwrite(&self) -> (r: Option<String>)
        ensures
            option_text(r) == overwrite_text(self@),
    {
        match &self.confirm_overwrite {
            Some(change) => Some(
                followed(
                    change.target.as_str(),
                    " 已经是一个图书库。继续会先删掉它的内容，再把当前数据目录的内容整体搬过去 —— 这一步不可撤销。",
                ),
            ),
            None => None,
        }
    }
}

// ---------------------------------------------------------------------------
// Panels
// ---------------------------------------------------------------------------

/// The panel of jobs.
#[derive(Debug, PartialEq, Eq)]
pub struct BackgroundJobsPanel {
    pub auto_run: bool,
    pub busy: bool,
    pub concurrency: InputField,
    pub interval: InputField,
}

/// The panel of models.
#[derive(Debug, PartialEq, Eq)]
pub struct ModelsPanel {
    pub chat: RolePanel,
    pub embedding: RolePanel,
    pub vision: RolePanel,
    /// The parameters of chats, in order.
    pub generation: Vec<InputField>,
    pub reset_disabled: bool,
}

/// The panel of the tab that is shown.
#[derive(Debug, PartialEq, Eq)]
pub enum ActivePanel {
    Endpoint(EndpointPanel),
    Models(ModelsPanel),
    WebSearch(WebSearchPanel),
    BackgroundJobs(BackgroundJobsPanel),
    System(SystemPanel),
}

impl BackgroundJobsPanel {
    /// Whether this is the panel that a window shows.
    pub open spec fn shows(self, window: SettingsWindowView) -> bool {
        &&& self.auto_run == window.form.application.auto_run_background_jobs
        &&& self.busy == window.busy()
        &&& self.concurrency.shows(window, FormField::JobConcurrency)
        &&& self.interval.shows(window, FormField::JobInterval)
    }
}

/// The parameters of chats, in the order in which they are shown.
pub open spec fn generation_field(i: int) -> FormField {
    if i == 0 {
        FormField::Temperature
    } else if i == 1 {
        FormField::TopP
    } else if i == 2 {
        FormField::MaxOutputTokens
    } else if i == 3 {
        FormField::PresencePenalty
    } else {
        FormField::FrequencyPenalty
    }
}

impl ModelsPanel {
    /// Whether this is the panel that a window shows.
    pub open spec fn shows(self, window: SettingsWindowView) -> bool {
        &&& self.chat.shows(window, ModelRole::Chat)
        &&& self.embedding.shows(window, ModelRole::Embedding)
        &&& self.vision.shows(window, ModelRole::Vision)
        &&& self.generation@.len() == 5
        &&& forall|i: int|
            0 <= i < 5 ==> (#[trigger] self.generation@[i]).shows(window, generation_field(i))
        &&& self.reset_disabled == window.busy()
    }
}

impl ActivePanel {
    /// Whether this is the panel of the tab that a window shows.
    pub open spec fn shows(
        self,
        window: SettingsWindowView,
        languages: Seq<LanguageOption>,
        data_dir: Seq<char>,
        log_dir: Seq<char>,
    ) -> bool {
        match window.active_tab {
            SettingsTab::Endpoint => self matches ActivePanel::Endpoint(panel) && panel.shows(
                window,
            ),
            SettingsTab::Models => self matches ActivePanel::Models(panel) && panel.shows(window),
            SettingsTab::WebSearch => self matches ActivePanel::WebSearch(panel) && panel.shows(
                window,
            ),
            SettingsTab::BackgroundJobs => self matches ActivePanel::BackgroundJobs(panel)
                && panel.shows(window),
            SettingsTab::System => self matches ActivePanel::System(panel) && panel.shows(
                window,
                languages,
                data_dir,
                log_dir,
            ),
        }
    }
}

impl AiSettingsWindow {
    /// The panel of jobs.
    pub fn render_background_jobs_panel(&self) -> (r: BackgroundJobsPanel)
        ensures
            r.shows(self@),
    {
        BackgroundJobsPanel {
            auto_run: self.form.application.auto_run_background_jobs,
            busy: self.operation.busy(),
            concurrency: self.render_input_field(FormField::JobConcurrency),
            interval: self.render_input_field(FormField::JobInterval),
        }
    }

    /// The panel of models.
    pub fn render_models_panel(&self) -> (r: ModelsPanel)
        ensures
            r.shows(self@),
    {
        let mut generation: Vec<InputField> = Vec::new();
        generation.push(self.render_input_field(FormField::Temperature));
        generation.push(self.render_input_field(FormField::TopP));
        generation.push(self.render_input_field(FormField::MaxOutputTokens));
        generation.push(self.render_input_field(FormField::PresencePenalty));
        generation.push(self.render_input_field(FormField::FrequencyPenalty));
        ModelsPanel {
            chat: self.render_role_panel(ModelRole::Chat),
            embedding: self.render_role_panel(ModelRole::Embedding),
            vision: self.render_role_panel(ModelRole::Vision),
            generation,
            reset_disabled: self.operation.busy(),
        }
    }

    /// The panel of the tab that is shown, given the languages that there are and
    /// where data and logs are stored.
    pub fn render_active_panel(
        &self,
        languages: &Vec<LanguageOption>,
        data_dir: &str,
        log_dir: &str,
    ) -> (r: ActivePanel)
        requires
            self.wf(),
        ensures
            r.shows(self@, languages@, data_dir@, log_dir@),
    {
        match self.active_tab {
            SettingsTab::Endpoint => ActivePanel::Endpoint(self.render_endpoint_panel()),
            SettingsTab::Models => ActivePanel::Models(self.render_models_panel()),
            SettingsTab::WebSearch => ActivePanel::WebSearch(self.render_web_search_panel()),
            SettingsTab::BackgroundJobs => ActivePanel::BackgroundJobs(
                self.render_background_jobs_panel(),
            ),
            SettingsTab::System => ActivePanel::System(
                self.render_system_panel(languages, data_dir, log_dir),
            ),
        }
    }
}

// ---------------------------------------------------------------------------
// The frame
// ---------------------------------------------------------------------------

/// What stands around the panel of the tab.
#[derive(Debug, PartialEq, Eq)]
pub struct SettingsFrame {
    pub tabs: Vec<SettingsTab>,
    pub active_index: usize,
    pub tabs_disabled: bool,
    pub notice_text: Option<String>,
    pub notice_is_error: bool,
    /// What the button that detects models shows, where it is there.
    pub detect_label: Option<&'static str>,
    pub save_label: &'static str,
    pub buttons_disabled: bool,
}

impl SettingsFrame {
    /// Whether this is the frame that a window shows.
    pub open spec fn shows(self, window: SettingsWindowView) -> bool {
        &&& self.tabs@.len() == 5
        &&& forall|i: int| 0 <= i < 5 ==> Some(#[trigger] self.tabs@[i]) == SettingsTab::at(i)
        &&& self.active_index < 5
        &&& self.tabs@[self.active_index as int] == window.active_tab
        &&& self.tabs_disabled == window.busy()
        &&& match window.notice {
            Some(notice) => option_text(self.notice_text) == Some(notice.text)
                && self.notice_is_error == notice.error,
            None => self.notice_text is None && !self.notice_is_error,
        }
        &&& (self.detect_label is Some) == (window.active_tab == SettingsTab::Endpoint)
        &&& self.detect_label is Some ==> self.detect_label->0@ == (if window.operation
            == PendingOperation::Detecting {
            "正在检测…"@
        } else {
            "检测模型"@
        })
        &&& self.save_label@ == (if window.operation == PendingOperation::Saving {
            "正在保存…"@
        } else {
            "保存设置"@
        })
        &&& self.buttons_disabled == window.busy()
    }
}

impl AiSettingsWindow {
    /// What stands around the panel of the tab.
    pub fn render(&self) -> (r: SettingsFrame)
        ensures
            r.shows(self@),
    {
        let mut tabs: Vec<SettingsTab> = Vec::new();
        tabs.push(SettingsTab::Endpoint);
        tabs.push(SettingsTab::Models);
        tabs.push(SettingsTab::WebSearch);
        tabs.push(SettingsTab::BackgroundJobs);
        tabs.push(SettingsTab::System);
        let mut notice_text: Option<String> = None;
        let mut notice_is_error = false;
        if let Some(notice) = &self.notice {
            notice_text = Some(notice.text.clone());
            notice_is_error = notice.error;
        }
        SettingsFrame {
            tabs,
            active_index: self.active_tab.index(),
            tabs_disabled: self.operation.busy(),
            notice_text,
            notice_is_error,
            detect_label: if self.active_tab == SettingsTab::Endpoint {
                if self.operation == PendingOperation::Detecting {
                    Some("正在检测…")
                } else {
                    Some("检测模型")
                }
            } else {
                None
            },
            save_label: if self.operation == PendingOperation::Saving {
                "正在保存…"
            } else {
                "保存设置"
            },
            buttons_disabled: self.operation.busy(),
        }
    }

    /// Shows the tab at a place of the tab bar. The result says whether the focus
    /// is to leave what was shown.
    pub fn click_tab(&mut self, index: usize) -> (r: bool)
        ensures
            match SettingsTab::at(index as int) {
                Some(tab) => r == (!old(self)@.busy() && old(self)@.active_tab != tab)
                    && final(self)@ == old(self)@.switched(tab),
                None => !r && final(self)@ == old(self)@,
            },
    {
        match SettingsTab::from_index(index) {
            Some(tab) => self.switch_tab(tab),
            None => false,
        }
    }
}

} // verus!
