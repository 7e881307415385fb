//! What the settings window does with others: connections that are new, models
//! that are detected, settings that are saved, directories that are changed.

use crate::citation_script::hex_digit;
use crate::seqs::lemma_filter_step;
use crate::settings::{
    key_update, request_timeout_error, ApiKeyUpdate, NumberChecks, SettingsLimits,
    DEFAULT_AI_REQUEST_TIMEOUT_SECS, DEFAULT_ENDPOINT_ID,
};
use crate::settings_fields::{concat, followed, notice, PendingOperation};
use crate::settings_form::{
    drafts, empty_text, find_draft, option_views, ApplicationInputsView, EndpointDraft,
    EndpointSettings, EndpointSettingsView, EndpointView, FormView, ProviderSettings,
    TranslationDisplayMode, WebSearchInputsView,
};
use crate::settings_window::{hex, other_than, AiSettingsWindow, SettingsWindowView};
use crate::text::{
    copy_option, decimal, option_text, push_decimal, same_option_text, same_text, texts,
};
use vstd::prelude::*;
use vstd::string::*;

verus! {

// ---------------------------------------------------------------------------
// Adding and removing connections
// ---------------------------------------------------------------------------

/// How many bytes the identifier of a new connection is made of.
pub const IDENTIFIER_BYTES: usize = 16;

/// Bytes from `getrandom::fill`, which fills its argument with bytes of the
/// system's random source, or fails. Claimed is only how many there are: which
/// bytes they are is chance.
#[verifier::external_body]
fn random_bytes(count: usize) -> (r: Option<Vec<u8>>)
    requires
        count <= 1024,
    ensures
        r is Some ==> r->0@.len() == count,
{
    let mut bytes = vec![0_u8; count];
    match getrandom::fill(&mut bytes) {
        Ok(()) => Some(bytes),
        Err(_) => None,
    }
}

fn hex_char(d: u8) -> (r: char)
    requires
        d < 16,
    ensures
        r == hex_digit(d as nat),
{
    if d < 10 {
        (48 + d) as char
    } else {
        (87 + d) as char
    }
}

/// The identifier of a new connection, from bytes.
pub fn endpoint_identifier(bytes: &Vec<u8>) -> (r: String)
    ensures
        r@ == "endpoint-"@ + hex(bytes@),
{
    let mut out = "endpoint-".to_owned();
    let mut i: usize = 0;
    assert(bytes@.subrange(0, 0) =~= Seq::<u8>::empty());
    assert(out@ =~= "endpoint-"@ + hex(bytes@.subrange(0, 0)));
    while i < bytes.len()
        invariant
            i <= bytes@.len(),
            out@ == "endpoint-"@ + hex(bytes@.subrange(0, i as int)),
        decreases bytes@.len() - i,
    {
        let b: u8 = bytes[i];
        out.push(hex_char(b / 16));
        out.push(hex_char(b % 16));
        i = i + 1;
        assert(bytes@.subrange(0, i as int).drop_last() =~= bytes@.subrange(0, i - 1));
        assert(out@ =~= "endpoint-"@ + hex(bytes@.subrange(0, i as int)));
    }
    assert(bytes@.subrange(0, i as int) =~= bytes@);
    out
}

pub open spec fn bytes_view(bytes: Option<Vec<u8>>) -> Option<Seq<u8>> {
    match bytes {
        Some(bytes) => Some(bytes@),
        None => None,
    }
}

/// Whether a window is what adding a connection leaves, whatever chance gave.
pub open spec fn is_added(
    before: SettingsWindowView,
    after: SettingsWindowView,
    canonical: Option<Seq<char>>,
) -> bool {
    exists|random: Option<Seq<u8>>|
        (random is Some ==> random->0.len() == IDENTIFIER_BYTES) && after
            == #[trigger] before.added(random, canonical)
}

impl AiSettingsWindow {
    /// Adds a connection and shows it. `canonical` is the normal form of an empty
    /// address, if it has one.
    pub fn add_endpoint(&mut self, canonical: &Option<String>)
        requires
            old(self).form.endpoints.len() < usize::MAX,
        ensures
            is_added(old(self)@, final(self)@, option_text(*canonical)),
    {
        let ghost before = self@;
        if self.operation.busy() {
            assert(before == before.added(None, option_text(*canonical)));
            return;
        }
        let random = random_bytes(IDENTIFIER_BYTES);
        let ghost given = bytes_view(random);
        self.add_endpoint_with(&random, canonical);
        assert(self@ == before.added(given, option_text(*canonical)));
    }

    /// Adds a connection and shows it, given the bytes of its identifier, if chance
    /// gave any, and the normal form of an empty address, if it has one.
    pub fn add_endpoint_with(&mut self, random: &Option<Vec<u8>>, canonical: &Option<String>)
        requires
            old(self).form.endpoints.len() < usize::MAX,
        ensures
            final(self)@ == old(self)@.added(bytes_view(*random), option_text(*canonical)),
    {
        if self.operation.busy() {
            return;
        }
        match random {
            None => {
                self.notice = notice("无法生成 Endpoint 标识，请重试。".to_owned(), true);
            },
            Some(bytes) => {
                let id = endpoint_identifier(bytes);
                let mut name = "Endpoint ".to_owned();
                let ordinal: usize = self.form.endpoints.len() + 1;
                push_decimal(&mut name, ordinal as u128);
                let endpoint = EndpointSettings {
                    id: id.clone(),
                    name,
                    base_url: empty_text(),
                    request_timeout_secs: DEFAULT_AI_REQUEST_TIMEOUT_SECS,
                    remote_content_confirmed: false,
                    allow_insecure_remote_http: false,
                    confirmed_remote_endpoint: empty_text(),
                };
                let draft = EndpointDraft::new(&endpoint, canonical);
                let ghost before = self@;
                self.form.endpoints.push(draft);
                assert(drafts(self.form.endpoints@) =~= before.form.endpoints.push(draft@));
                self.selected_endpoint_id = id;
                self.notice = None;
            },
        }
    }

    /// Removes the connection that is shown, unless it is the default one or serves
    /// some use.
    pub fn delete_selected_endpoint(&mut self)
        ensures
            final(self)@ == old(self)@.deleted(),
    {
        if self.operation.busy() || same_text(
            self.selected_endpoint_id.as_str(),
            DEFAULT_ENDPOINT_ID,
        ) {
            return;
        }
        if self.form.endpoint_is_bound(self.selected_endpoint_id.as_str()) {
            self.notice = notice(
                "这个 Endpoint 仍被模型使用，请先在“对话模型”中重新选择对应 Endpoint。".to_owned(),
                true,
            );
            return;
        }
        let ghost all = self@.form.endpoints;
        let ghost id = self@.selected;
        let mut kept: Vec<EndpointDraft> = Vec::new();
        let mut rest: Vec<EndpointDraft> = Vec::new();
        std::mem::swap(&mut rest, &mut self.form.endpoints);
        let ghost mut done: int = 0;
        assert(drafts(rest@) =~= all.subrange(0, all.len() as int));
        assert(all.subrange(0, 0).filter(other_than(id)) =~= Seq::empty());
        while rest.len() > 0
            invariant
                0 <= done,
                done + rest@.len() == all.len(),
                id == self.selected_endpoint_id@,
                drafts(rest@) == all.subrange(done, all.len() as int),
                drafts(kept@) == all.subrange(0, done).filter(other_than(id)),
            decreases rest@.len(),
        {
            let ghost before = rest@;
            let draft = rest.remove(0);
            assert(drafts(before)[0] == draft@);
            assert(draft@ == all[done]);
            proof {
                lemma_filter_step(all, other_than(id), done);
            }
            let ghost had = kept@;
            if !same_text(draft.id.as_str(), self.selected_endpoint_id.as_str()) {
                kept.push(draft);
                assert(drafts(kept@) =~= drafts(had).push(draft@));
            }
            proof {
                done = done + 1;
            }
            assert(drafts(rest@) =~= drafts(before).remove(0));
            assert(drafts(rest@) =~= all.subrange(done, all.len() as int));
        }
        assert(all.subrange(0, done) =~= all);
        self.form.endpoints = kept;
        self.selected_endpoint_id = DEFAULT_ENDPOINT_ID.to_owned();
        self.notice = None;
    }
}

// ---------------------------------------------------------------------------
// Detecting models
// ---------------------------------------------------------------------------

/// A detection to be made.
#[derive(Debug, PartialEq, Eq)]
pub struct DetectionTask {
    pub endpoint: EndpointSettings,
    pub key: ApiKeyUpdate,
    pub generation: u64,
}

/// The names of models that were detected, or why none were.
pub open spec fn models_view(outcome: Result<Vec<String>, String>) -> Result<
    Seq<Seq<char>>,
    Seq<char>,
> {
    match outcome {
        Ok(models) => Ok(texts(models@)),
        Err(error) => Err(error@),
    }
}

impl SettingsWindowView {
    /// What keeps a connection from being asked, if anything does. `verdict` is what
    /// the provider finds wrong with it.
    pub open spec fn detection_error(self, id: Seq<char>, verdict: Option<Seq<char>>) -> Option<
        Seq<char>,
    > {
        if self.draft(id).timeout() is None {
            Some(request_timeout_error())
        } else {
            verdict
        }
    }

    /// Whether a connection is asked.
    pub open spec fn detects(self, id: Seq<char>, verdict: Option<Seq<char>>) -> bool {
        !self.busy() && self.has(id) && self.detection_error(id, verdict) is None
    }

    /// After a connection was to be asked for its models.
    pub open spec fn detecting(self, id: Seq<char>, verdict: Option<Seq<char>>) -> Self {
        if self.busy() || !self.has(id) {
            self
        } else {
            let asking = self.with_draft(id, self.draft(id).invalidated());
            match self.detection_error(id, verdict) {
                Some(error) => asking.telling("AI Provider 设置无效："@ + error, true),
                None => SettingsWindowView {
                    operation: PendingOperation::Detecting,
                    ..asking.telling(
                        "正在读取 "@ + self.draft(id).entered().name + " 的模型…"@,
                        false,
                    )
                },
            }
        }
    }

    /// Whether what was detected still concerns a connection as it is entered.
    /// `current` holds the normal forms of the addresses that are entered.
    pub open spec fn detection_matches(
        self,
        id: Seq<char>,
        generation: u64,
        asked: Option<Seq<char>>,
        current: Seq<Option<Seq<char>>>,
    ) -> bool {
        exists|i: int|
            0 <= i < self.form.endpoints.len() && (#[trigger] self.form.endpoints[i]).id == id
                && self.form.endpoints[i].discovery_generation == generation && current[i] == asked
    }

    /// After the answer of a connection came in.
    pub open spec fn detected(
        self,
        endpoint: EndpointSettingsView,
        generation: u64,
        asked: Option<Seq<char>>,
        current: Seq<Option<Seq<char>>>,
        outcome: Result<Seq<Seq<char>>, Seq<char>>,
    ) -> Self {
        let idle = SettingsWindowView { operation: PendingOperation::Idle, ..self };
        if !self.detection_matches(endpoint.id, generation, asked, current) {
            idle.quiet()
        } else {
            match outcome {
                Ok(models) => idle.with_draft(
                    endpoint.id,
                    EndpointView { detected_models: Some(models), ..self.draft(endpoint.id) },
                ).telling(
                    endpoint.name + " 连接成功，返回 "@ + decimal(models.len())
                        + " 个模型；可在各模型区域查看或选择。"@,
                    false,
                ),
                Err(error) => idle.telling(
                    "无法读取 "@ + endpoint.name + " 的模型："@ + error
                        + "。若使用本地 Ollama，请确认服务已运行。"@,
                    true,
                ),
            }
        }
    }
}

impl AiSettingsWindow {
    /// Asks a connection for its models. `verdict` is what the provider finds wrong
    /// with it.
    pub fn detect_models(&mut self, id: &str, verdict: &Option<String>) -> (r: Option<
        DetectionTask,
    >)
        ensures
            r is Some == old(self)@.detects(id@, option_text(*verdict)),
            r is Some ==> r->0.endpoint@ == old(self)@.draft(id@).entered() && r->0.key@
                == old(self)@.draft(id@).key_update() && r->0.generation == old(self)@.draft(
                id@,
            ).invalidated().discovery_generation,
            final(self)@ == old(self)@.detecting(id@, option_text(*verdict)),
    {
        if self.operation.busy() {
            return None;
        }
        let i: usize = match find_draft(&self.form.endpoints, id) {
            Some(i) => i,
            None => {
                return None;
            },
        };
        let ghost before = self@;
        assert(before.draft(id@) == self.form.endpoints@[i as int]@);
        self.form.endpoints[i].invalidate_models();
        assert(drafts(self.form.endpoints@) =~= before.form.endpoints.update(
            i as int,
            before.draft(id@).invalidated(),
        ));
        let entered = match self.form.endpoints[i].entered() {
            Ok(endpoint) => match verdict {
                Some(error) => Err(error.clone()),
                None => Ok(endpoint),
            },
            Err(error) => Err(error),
        };
        let endpoint = match entered {
            Ok(endpoint) => endpoint,
            Err(error) => {
                self.notice = notice(followed("AI Provider 设置无效：", error.as_str()), true);
                return None;
            },
        };
        let key = self.form.endpoints[i].api_key_update();
        self.operation = PendingOperation::Detecting;
        self.notice = notice(concat("正在读取 ", endpoint.name.as_str(), " 的模型…"), false);
        Some(
            DetectionTask {
                endpoint,
                key,
                generation: self.form.endpoints[i].discovery_generation,
            },
        )
    }

    /// Whether what was detected still concerns a connection as it is entered.
    pub fn detection_matches(
        &self,
        id: &str,
        generation: u64,
        asked: &Option<String>,
        current: &Vec<Option<String>>,
    ) -> (r: bool)
        requires
            current@.len() == self.form.endpoints@.len(),
        ensures
            r == self@.detection_matches(
                id@,
                generation,
                option_text(*asked),
                option_views(current@),
            ),
    {
        let mut i: usize = 0;
        let ghost endpoints = self@.form.endpoints;
        while i < self.form.endpoints.len()
            invariant
                i <= self.form.endpoints@.len(),
                current@.len() == self.form.endpoints@.len(),
                endpoints == drafts(self.form.endpoints@),
                forall|k: int|
                    0 <= k < i ==> !((#[trigger] endpoints[k]).id == id@
                        && endpoints[k].discovery_generation == generation && option_views(
                        current@,
                    )[k] == option_text(*asked)),
            decreases self.form.endpoints@.len() - i,
        {
            let draft = &self.form.endpoints[i];
            assert(endpoints[i as int] == draft@);
            assert(option_views(current@)[i as int] == option_text(current@[i as int]));
            if same_text(draft.id.as_str(), id) && draft.discovery_generation == generation
                && same_option_text(&current[i], asked) {
                return true;
            }
            i = i + 1;
        }
        false
    }

    /// Takes the answer of a connection. `asked` is the normal form of the address
    /// that was asked, and `current` holds those of the addresses that are entered.
    pub fn finish_detection(
        &mut self,
        endpoint: &EndpointSettings,
        generation: u64,
        asked: &Option<String>,
        current: &Vec<Option<String>>,
        outcome: Result<Vec<String>, String>,
    )
        requires
            current@.len() == old(self).form.endpoints@.len(),
        ensures
            final(self)@ == old(self)@.detected(
                endpoint@,
                generation,
                option_text(*asked),
                option_views(current@),
                models_view(outcome),
            ),
    {
        let ghost before = self@;
        let matching = self.detection_matches(endpoint.id.as_str(), generation, asked, current);
        self.operation = PendingOperation::Idle;
        if !matching {
            self.notice = None;
            return;
        }
        assert(before.has(endpoint.id@));
        match outcome {
            Ok(models) => self.apply_detected_models(endpoint, models),
            Err(error) => {
                let mut text = concat("无法读取 ", endpoint.name.as_str(), " 的模型：");
                text.push_str(error.as_str());
                text.push_str("。若使用本地 Ollama，请确认服务已运行。");
                self.notice = notice(text, true);
            },
        }
    }

    fn apply_detected_models(&mut self, endpoint: &EndpointSettings, models: Vec<String>)
        requires
            old(self)@.has(endpoint.id@),
        ensures
            final(self)@ == old(self)@.with_draft(
                endpoint.id@,
                EndpointView {
                    detected_models: Some(texts(models@)),
                    ..old(self)@.draft(endpoint.id@)
                },
            ).telling(
                endpoint.name@ + " 连接成功，返回 "@ + decimal(texts(models@).len())
                    + " 个模型；可在各模型区域查看或选择。"@,
                false,
            ),
    {
        let mut text = followed(endpoint.name.as_str(), " 连接成功，返回 ");
        push_decimal(&mut text, models.len() as u128);
        text.push_str(" 个模型；可在各模型区域查看或选择。");
        let ghost names = texts(models@);
        let ghost before = self@;
        match find_draft(&self.form.endpoints, endpoint.id.as_str()) {
            Some(i) => {
                let draft = &mut self.form.endpoints[i];
                draft.detected_models = Some(models);
                assert(drafts(self.form.endpoints@) =~= before.form.endpoints.update(
                    i as int,
                    EndpointView {
                        detected_models: Some(names),
                        ..before.draft(endpoint.id@)
                    },
                ));
            },
            None => {},
        }
        self.notice = notice(text, false);
    }
}

// ---------------------------------------------------------------------------
// Saving
// ---------------------------------------------------------------------------

/// What becomes of the stored key of a connection.
#[derive(Debug, PartialEq, Eq)]
pub struct KeyChange {
    pub endpoint_id: String,
    pub update: ApiKeyUpdate,
}

/// Settings to be saved.
#[derive(Debug, PartialEq, Eq)]
pub struct SaveTask {
    pub settings: ProviderSettings,
    pub keys: Vec<KeyChange>,
    pub web_key: ApiKeyUpdate,
    /// What the user is asked before, if anything is to be asked.
    pub confirmation: Option<String>,
}

/// What vectors are made with, as it is stored.
#[derive(Debug, PartialEq, Eq)]
pub struct StoredEmbedding {
    pub model: String,
    pub dimensions: usize,
}

/// What the user is asked before other vectors are made, if anything is to be
/// asked.
pub open spec fn confirmation_text(
    stored: Option<StoredEmbedding>,
    model: Seq<char>,
    dimensions: nat,
) -> Option<Seq<char>> {
    match stored {
        Some(stored) => if stored.model@ != model && stored.dimensions != dimensions {
            Some("Embedding 模型与向量维度已修改"@)
        } else if stored.model@ != model {
            Some("Embedding 模型已修改"@)
        } else if stored.dimensions != dimensions {
            Some("向量维度已修改"@)
        } else {
            None
        },
        None => None,
    }
}

fn embedding_confirmation(stored: &Option<StoredEmbedding>, model: &str, dimensions: usize) -> (r:
    Option<String>)
    ensures
        option_text(r) == confirmation_text(*stored, model@, dimensions as nat),
{
    match stored {
        Some(stored) => {
            let other_model = !same_text(stored.model.as_str(), model);
            if other_model && stored.dimensions != dimensions {
                Some("Embedding 模型与向量维度已修改".to_owned())
            } else if other_model {
                Some("Embedding 模型已修改".to_owned())
            } else if stored.dimensions != dimensions {
                Some("向量维度已修改".to_owned())
            } else {
                None
            }
        },
        None => None,
    }
}

/// What is told below the question before other vectors are made.
pub const EMBEDDING_CONFIRMATION_DETAIL: &'static str =
    "修改 Embedding 模型或向量维度会使所有已索引的向量失效，保存后将自动重新生成索引。是否继续？";

/// Whether changes of keys are those that were entered, connection by connection.
pub open spec fn keys_are_entered(keys: Seq<KeyChange>, endpoints: Seq<EndpointView>) -> bool {
    &&& keys.len() == endpoints.len()
    &&& forall|i: int|
        0 <= i < endpoints.len() ==> (#[trigger] keys[i]).endpoint_id@ == endpoints[i].id
            && keys[i].update@ == endpoints[i].key_update()
}

impl SettingsWindowView {
    /// The first thing that keeps the settings from being saved, if anything does.
    /// `verdict` is what the provider finds wrong with the settings as a whole.
    pub open spec fn save_error(
        self,
        numbers: NumberChecks,
        generation: Option<Seq<char>>,
        limits: SettingsLimits,
        verdict: Option<Seq<char>>,
    ) -> Option<Seq<char>> {
        match self.form.error(numbers, generation, limits) {
            Some(error) => Some(error),
            None => verdict,
        }
    }

    /// After the settings were to be saved, given what keeps them from being saved.
    pub open spec fn saving(self, error: Option<Seq<char>>) -> Self {
        if self.busy() {
            self
        } else {
            match error {
                Some(error) => self.telling("AI Provider 设置无效："@ + error, true),
                None => SettingsWindowView {
                    operation: PendingOperation::Saving,
                    ..self.telling("正在安全保存 Provider 设置…"@, false)
                },
            }
        }
    }

    /// After the user answered what was asked.
    pub open spec fn answered(self, confirmed: bool) -> Self {
        if confirmed {
            self
        } else {
            SettingsWindowView {
                operation: PendingOperation::Idle,
                ..self.telling("已取消保存，Embedding 设置未修改。"@, false)
            }
        }
    }

    /// After the settings were saved, or could not be.
    pub open spec fn saved(self, error: Option<Seq<char>>) -> Self {
        let idle = SettingsWindowView { operation: PendingOperation::Idle, ..self };
        match error {
            None => idle.telling("Provider 设置已保存；新的搜索与问答请求会使用这些设置。"@, false),
            Some(error) => idle.telling("保存 Provider 设置失败："@ + error, true),
        }
    }
}

fn entered_keys(endpoints: &Vec<EndpointDraft>) -> (r: Vec<KeyChange>)
    ensures
        keys_are_entered(r@, drafts(endpoints@)),
{
    let mut out: Vec<KeyChange> = Vec::new();
    let mut i: usize = 0;
    while i < endpoints.len()
        invariant
            i <= endpoints@.len(),
            out@.len() == i,
            forall|k: int|
                0 <= k < i ==> (#[trigger] out@[k]).endpoint_id@ == drafts(endpoints@)[k].id
                    && out@[k].update@ == drafts(endpoints@)[k].key_update(),
        decreases endpoints@.len() - i,
    {
        let update = endpoints[i].api_key_update();
        out.push(KeyChange { endpoint_id: endpoints[i].id.clone(), update });
        assert(drafts(endpoints@)[i as int] == endpoints@[i as int]@);
        i = i + 1;
    }
    out
}

impl AiSettingsWindow {
    /// Starts to save what was entered. `generation` is what the provider finds
    /// wrong with the parameters of chats, `verdict` what it finds wrong with the
    /// settings as a whole, and `stored` what vectors are made with so far, where
    /// that is known.
    pub fn save(
        &mut self,
        numbers: &NumberChecks,
        generation: &Option<String>,
        limits: &SettingsLimits,
        verdict: &Option<String>,
        stored: &Option<StoredEmbedding>,
    ) -> (r: Option<SaveTask>)
        ensures
            r is Some == (!old(self)@.busy() && old(self)@.save_error(
                *numbers,
                option_text(*generation),
                *limits,
                option_text(*verdict),
            ) is None),
            r is Some ==> {
                &&& r->0.settings@ == old(self)@.form.entered(*limits)
                &&& keys_are_entered(r->0.keys@, old(self)@.form.endpoints)
                &&& r->0.web_key@ == key_update(
                    old(self)@.form.web.api_key,
                    old(self)@.form.web.delete_api_key,
                )
                &&& option_text(r->0.confirmation) == confirmation_text(
                    *stored,
                    old(self)@.form.entered(*limits).embedding_model,
                    old(self)@.form.entered(*limits).embedding_dimensions,
                )
            },
            final(self)@ == old(self)@.saving(
                old(self)@.save_error(
                    *numbers,
                    option_text(*generation),
                    *limits,
                    option_text(*verdict),
                ),
            ),
    {
        if self.operation.busy() {
            return None;
        }
        let entered = match self.form.entered_settings(numbers, generation, limits) {
            Ok(settings) => match verdict {
                Some(error) => Err(error.clone()),
                None => Ok(settings),
            },
            Err(error) => Err(error),
        };
        let settings = match entered {
            Ok(settings) => settings,
            Err(error) => {
                self.notice = notice(followed("AI Provider 设置无效：", error.as_str()), true);
                return None;
            },
        };
        let confirmation = embedding_confirmation(
            stored,
            settings.embedding_model.as_str(),
            settings.embedding_dimensions,
        );
        let keys = entered_keys(&self.form.endpoints);
        let web_key = self.form.web.web_api_key_update();
        self.operation = PendingOperation::Saving;
        self.notice = notice("正在安全保存 Provider 设置…".to_owned(), false);
        Some(SaveTask { settings, keys, web_key, confirmation })
    }

    /// Takes what the user answered. The result says whether to go on.
    pub fn finish_confirmation(&mut self, confirmed: bool) -> (r: bool)
        ensures
            r == confirmed,
            final(self)@ == old(self)@.answered(confirmed),
    {
        if !confirmed {
            self.operation = PendingOperation::Idle;
            self.notice = notice("已取消保存，Embedding 设置未修改。".to_owned(), false);
        }
        confirmed
    }

    /// Takes what became of saving: an error, if any. The result says whether the
    /// settings were saved, so that open readers are to follow them and the window
    /// is to close; else an exit that waits for it is called off.
    pub fn finish_save(&mut self, error: &Option<String>) -> (r: bool)
        ensures
            r == (*error is None),
            final(self)@ == old(self)@.saved(option_text(*error)),
    {
        self.operation = PendingOperation::Idle;
        match error {
            None => {
                self.notice = notice(
                    "Provider 设置已保存；新的搜索与问答请求会使用这些设置。".to_owned(),
                    false,
                );
                true
            },
            Some(error) => {
                self.notice = notice(followed("保存 Provider 设置失败：", error.as_str()), true);
                false
            },
        }
    }

    /// Whether the window may close: not while settings are being saved.
    pub fn may_close(&self) -> (r: bool)
        ensures
            r == (self@.operation != PendingOperation::Saving),
    {
        self.operation != PendingOperation::Saving
    }
}

// ---------------------------------------------------------------------------
// Web searches, jobs, reading
// ---------------------------------------------------------------------------

impl SettingsWindowView {
    pub open spec fn with_web(self, web: WebSearchInputsView) -> Self {
        self.with_form(FormView { web, ..self.form })
    }

    pub open spec fn with_application(self, application: ApplicationInputsView) -> Self {
        self.with_form(FormView { application, ..self.form })
    }

    /// After the permission to send what is searched for was given or withdrawn.
    /// `normalized` is the normal form of the address, if it has one.
    pub open spec fn web_permitted(self, checked: bool, normalized: Option<Seq<char>>) -> Self {
        match normalized {
            Some(url) if checked => self.with_web(
                WebSearchInputsView {
                    remote_confirmed: true,
                    confirmed_remote_endpoint: url,
                    ..self.form.web
                },
            ),
            _ => {
                let withdrawn = self.with_web(
                    WebSearchInputsView {
                        remote_confirmed: false,
                        allow_insecure_http: checked && self.form.web.allow_insecure_http,
                        confirmed_remote_endpoint: Seq::empty(),
                        ..self.form.web
                    },
                );
                if checked {
                    withdrawn.telling("联网搜索端点无效，无法确认。"@, true)
                } else {
                    withdrawn
                }
            },
        }
    }
}

impl AiSettingsWindow {
    /// Turns web searches on or off.
    pub fn set_web_search_enabled(&mut self, checked: bool)
        ensures
            final(self)@ == old(self)@.with_web(
                WebSearchInputsView { enabled: checked, ..old(self)@.form.web },
            ),
    {
        self.form.web.enabled = checked;
    }

    /// Gives or withdraws the permission to send what is searched for.
    /// `normalized` is the normal form of the address, if it has one.
    pub fn confirm_web_remote(&mut self, checked: bool, normalized: &Option<String>)
        ensures
            final(self)@ == old(self)@.web_permitted(checked, option_text(*normalized)),
    {
        if checked {
            match normalized {
                Some(url) => {
                    self.form.web.remote_confirmed = true;
                    self.form.web.confirmed_remote_endpoint = url.clone();
                },
                None => {
                    self.form.web.remote_confirmed = false;
                    self.form.web.confirmed_remote_endpoint = empty_text();
                    self.notice = notice("联网搜索端点无效，无法确认。".to_owned(), true);
                },
            }
        } else {
            self.form.web.remote_confirmed = false;
            self.form.web.allow_insecure_http = false;
            self.form.web.confirmed_remote_endpoint = empty_text();
        }
    }

    /// Says whether what is searched for may be sent in the clear.
    pub fn allow_web_insecure_http(&mut self, checked: bool)
        ensures
            final(self)@ == old(self)@.with_web(
                WebSearchInputsView { allow_insecure_http: checked, ..old(self)@.form.web },
            ),
    {
        self.form.web.allow_insecure_http = checked;
    }

    /// Says whether the stored key of web searches is to go.
    pub fn set_delete_web_key(&mut self, checked: bool)
        ensures
            final(self)@ == old(self)@.with_web(
                WebSearchInputsView {
                    delete_api_key: checked,
                    api_key: if checked {
                        Seq::empty()
                    } else {
                        old(self)@.form.web.api_key
                    },
                    ..old(self)@.form.web
                },
            ),
    {
        self.form.web.delete_api_key = checked;
        if checked {
            self.form.web.api_key = empty_text();
        }
    }

    /// Says whether new jobs run by themselves.
    pub fn set_auto_run_background_jobs(&mut self, checked: bool)
        ensures
            final(self)@ == old(self)@.with_application(
                ApplicationInputsView {
                    auto_run_background_jobs: checked,
                    ..old(self)@.form.application
                },
            ),
    {
        self.form.application.auto_run_background_jobs = checked;
    }

    /// Says whether pages follow one another without a gap.
    pub fn set_pdf_compact_reading(&mut self, checked: bool)
        ensures
            final(self)@ == old(self)@.with_application(
                ApplicationInputsView {
                    pdf_compact_reading: checked,
                    ..old(self)@.form.application
                },
            ),
    {
        self.form.application.pdf_compact_reading = checked;
    }

    /// Says whether requests go through the proxy of the system.
    pub fn set_use_proxy(&mut self, checked: bool)
        ensures
            final(self)@ == old(self)@.with_application(
                ApplicationInputsView { use_proxy: checked, ..old(self)@.form.application },
            ),
    {
        self.form.application.use_proxy = checked;
    }

    /// Says into which language books are translated, if into any.
    pub fn set_default_language(&mut self, language: &Option<String>)
        ensures
            final(self)@ == old(self)@.with_application(
                ApplicationInputsView {
                    default_language: option_text(*language),
                    ..old(self)@.form.application
                },
            ),
    {
        self.form.application.default_language = copy_option(language);
    }

    /// Says how translations are shown.
    pub fn set_translation_display_mode(&mut self, mode: TranslationDisplayMode)
        ensures
            final(self)@ == old(self)@.with_application(
                ApplicationInputsView {
                    translation_display_mode: mode,
                    ..old(self)@.form.application
                },
            ),
    {
        self.form.application.translation_display_mode = mode;
    }
}

} // verus!
