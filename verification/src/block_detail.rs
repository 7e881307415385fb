//! One block of a translation job: what is sent for it, and what comes back.

use crate::jobs::JobLogErrorKind;
use crate::json::{indented, indented_object, or_raw, prettify_json, prettify_object};
use crate::text::{
    blank, byte_len, byte_length, copy_option, decimal, decimal_text, is_blank, join, joined,
    option_text, push_decimal, same_text, texts, trim, trimmed,
};
use vstd::prelude::*;
use vstd::string::*;

verus! {

/// A part of the view on one block.
#[derive(Clone, Copy, Debug, PartialEq, Eq, Structural)]
pub enum BlockDetailTab {
    Overview,
    Source,
    Body,
    Prompt,
    Message,
    /// The answer to a request that was repeated by hand.
    Response,
}

impl BlockDetailTab {
    /// What the part is called.
    pub fn label(self) -> (r: &'static str)
        ensures
            r@ == (match self {
                BlockDetailTab::Overview => "概览"@,
                BlockDetailTab::Source => "原文"@,
                BlockDetailTab::Body => "请求 Body"@,
                BlockDetailTab::Prompt => "System 提示词"@,
                BlockDetailTab::Message => "User 内容"@,
                BlockDetailTab::Response => "模型响应"@,
            }),
    {
        match self {
            BlockDetailTab::Overview => "概览",
            BlockDetailTab::Source => "原文",
            BlockDetailTab::Body => "请求 Body",
            BlockDetailTab::Prompt => "System 提示词",
            BlockDetailTab::Message => "User 内容",
            BlockDetailTab::Response => "模型响应",
        }
    }

    /// The identifier of the part.
    pub fn id(self) -> (r: &'static str)
        ensures
            r@ == (match self {
                BlockDetailTab::Overview => "overview"@,
                BlockDetailTab::Source => "source"@,
                BlockDetailTab::Body => "body"@,
                BlockDetailTab::Prompt => "prompt"@,
                BlockDetailTab::Message => "message"@,
                BlockDetailTab::Response => "response"@,
            }),
    {
        match self {
            BlockDetailTab::Overview => "overview",
            BlockDetailTab::Source => "source",
            BlockDetailTab::Body => "body",
            BlockDetailTab::Prompt => "prompt",
            BlockDetailTab::Message => "message",
            BlockDetailTab::Response => "response",
        }
    }
}

/// The parts of the view on a block, in order.
pub open spec fn detail_tabs(failed: bool) -> Seq<BlockDetailTab> {
    let tabs = seq![
        BlockDetailTab::Overview,
        BlockDetailTab::Body,
        BlockDetailTab::Source,
        BlockDetailTab::Prompt,
        BlockDetailTab::Message,
    ];
    if failed {
        tabs.push(BlockDetailTab::Response)
    } else {
        tabs
    }
}

/// The parts of the view on a block, in order. Only a failed block has an answer
/// worth asking for again.
pub fn block_detail_tabs(failed: bool) -> (r: Vec<BlockDetailTab>)
    ensures
        r@ == detail_tabs(failed),
{
    let mut tabs: Vec<BlockDetailTab> = Vec::new();
    tabs.push(BlockDetailTab::Overview);
    tabs.push(BlockDetailTab::Body);
    tabs.push(BlockDetailTab::Source);
    tabs.push(BlockDetailTab::Prompt);
    tabs.push(BlockDetailTab::Message);
    if failed {
        tabs.push(BlockDetailTab::Response);
    }
    assert(tabs@ =~= detail_tabs(failed));
    tabs
}

/// The request that is sent for a block.
#[derive(Debug, PartialEq, Eq)]
pub struct TranslationBlockRequest {
    pub model: String,
    pub target_language: String,
    /// The name of the target language, if it has one.
    pub target_label: Option<String>,
    pub source_language: Option<String>,
    pub max_tokens: u32,
    /// The temperature as it is written in the request.
    pub temperature: String,
    pub body: String,
    pub system_prompt: String,
    pub user_content: String,
}

/// A block with the request that is sent for it.
#[derive(Debug, PartialEq, Eq)]
pub struct TranslationBlockDetail {
    pub ordinal: usize,
    pub unit_id: String,
    pub unit_ordinal: usize,
    pub unit_title: String,
    pub unit_revision: u64,
    pub block_id: String,
    pub source_text: String,
    pub segments: Vec<String>,
    pub request: TranslationBlockRequest,
}

/// The answer to a request that was repeated by hand.
#[derive(Debug, PartialEq, Eq)]
pub struct TranslationBlockProbe {
    pub model: String,
    /// The seconds that the answer took, with one decimal.
    pub elapsed_seconds: String,
    pub response_bytes: usize,
    /// How the answer ended.
    pub end: String,
    pub finish_reason: Option<String>,
    pub decode_error_kind: Option<JobLogErrorKind>,
    pub decoded_segments: Option<usize>,
    pub decode_error_line: Option<usize>,
    pub decode_error_column: Option<usize>,
    pub response_text: String,
}

/// A request that is repeated by hand: under way, answered or failed.
#[derive(Debug, PartialEq, Eq)]
pub struct BlockProbeState {
    pub loading: bool,
    pub result: Option<TranslationBlockProbe>,
    pub error: Option<String>,
}

impl Default for BlockProbeState {
    fn default() -> (r: Self)
        ensures
            !r.loading,
            r.result is None,
            r.error is None,
    {
        BlockProbeState { loading: false, result: None, error: None }
    }
}

/// The block whose view is open.
#[derive(Debug, PartialEq, Eq)]
pub struct BlockDetailState {
    pub job_id: String,
    pub ordinal: usize,
    pub generation: u64,
    pub tab: BlockDetailTab,
    /// Whether the newest run left the block untranslated.
    pub failed: bool,
    pub loading: bool,
    pub detail: Option<TranslationBlockDetail>,
    pub error: Option<String>,
    pub probe: BlockProbeState,
}

// ---------------------------------------------------------------------------
// Texts
// ---------------------------------------------------------------------------

/// The numbers of characters of segments.
pub open spec fn segment_lengths(segments: Seq<String>) -> Seq<Seq<char>> {
    segments.map_values(|segment: String| decimal(segment@.len()))
}

/// The numbers of characters of segments, in words.
pub open spec fn segments_text(segments: Seq<String>) -> Seq<char> {
    if segments.len() == 0 {
        "无片段"@
    } else {
        joined(segment_lengths(segments), ", "@)
    }
}

/// The numbers of characters of segments, in words.
pub fn segment_char_label(segments: &Vec<String>) -> (r: String)
    ensures
        r@ == segments_text(segments@),
{
    if segments.len() == 0 {
        return "无片段".to_owned();
    }
    let ghost expected = segment_lengths(segments@);
    let mut parts: Vec<String> = Vec::new();
    let mut i: usize = 0;
    while i < segments.len()
        invariant
            i <= segments@.len(),
            expected == segment_lengths(segments@),
            texts(parts@) =~= expected.subrange(0, i as int),
        decreases segments@.len() - i,
    {
        let part = decimal_text(segments[i].as_str().unicode_len() as u64);
        let ghost had = parts@;
        parts.push(part);
        proof {
            assert(expected[i as int] == part@);
            assert(texts(parts@) =~= texts(had).push(part@));
            assert(expected.subrange(0, i + 1) =~= expected.subrange(0, i as int).push(part@));
        }
        i = i + 1;
    }
    assert(expected.subrange(0, expected.len() as int) =~= expected);
    join(&parts, ", ")
}

/// A label, a number and a unit.
pub open spec fn number_line(label: Seq<char>, n: nat, unit: Seq<char>) -> Seq<char> {
    label + decimal(n) + unit
}

fn number_text(label: &str, n: usize, unit: &str) -> (r: String)
    ensures
        r@ == number_line(label@, n as nat, unit@),
{
    let mut out = label.to_owned();
    push_decimal(&mut out, n as u128);
    out.push_str(unit);
    out
}

/// The chapter of a block, with its title where it has one.
pub open spec fn unit_line(detail: TranslationBlockDetail) -> Seq<char> {
    let title = trimmed(detail.unit_title@);
    "单元序号: 第 "@ + decimal((detail.unit_ordinal + 1) as nat) + " 章"@ + (if title.len() == 0 {
        Seq::empty()
    } else {
        "（"@ + title + "）"@
    })
}

/// The language that a source is marked with.
pub open spec fn source_language_text(request: TranslationBlockRequest) -> Seq<char> {
    match request.source_language {
        Some(language) => if is_blank(language@) {
            "未设置"@
        } else {
            language@
        },
        None => "未设置"@,
    }
}

/// What the target language of a request is called.
pub open spec fn target_name(request: TranslationBlockRequest) -> Seq<char> {
    match request.target_label {
        Some(label) => label@,
        None => request.target_language@,
    }
}

/// The overview of a block, line by line.
pub open spec fn overview_lines(detail: TranslationBlockDetail) -> Seq<Seq<char>> {
    let request = detail.request;
    seq![
        number_line("文本块序号: #"@, detail.ordinal as nat, ""@),
        "文本块标识: "@ + detail.block_id@,
        "所属单元: "@ + detail.unit_id@,
        unit_line(detail),
        "单元版本: "@ + decimal(detail.unit_revision as nat),
        number_line("原文长度: "@, detail.source_text@.len(), " 字符"@),
        number_line("片段数量: "@, detail.segments@.len(), ""@),
        "片段字符数: "@ + segments_text(detail.segments@),
        ""@,
        "调用模型: "@ + request.model@,
        "目标语言: "@ + target_name(request) + "（"@ + request.target_language@ + "）"@,
        "原文语言标记: "@ + source_language_text(request),
        "temperature: "@ + request.temperature@,
        "max_tokens: "@ + decimal(request.max_tokens as nat),
        "reasoning_effort: none"@,
        "messages: 2（system + user）"@,
        number_line("system 长度: "@, request.system_prompt@.len(), " 字符"@),
        number_line("user 长度: "@, request.user_content@.len(), " 字符"@),
        number_line("body 长度: "@, byte_len(request.body@), " 字节"@),
    ]
}

fn prefixed(prefix: &str, text: &str) -> (r: String)
    ensures
        r@ == prefix@ + text@,
{
    let mut out = prefix.to_owned();
    out.push_str(text);
    out
}

/// The overview of a block.
pub fn overview_text(detail: &TranslationBlockDetail) -> (r: String)
    ensures
        r@ == joined(overview_lines(*detail), "\n"@),
{
    let request = &detail.request;
    let title = trim(detail.unit_title.as_str());
    let mut unit = "单元序号: 第 ".to_owned();
    push_decimal(&mut unit, detail.unit_ordinal as u128 + 1);
    unit.push_str(" 章");
    if !title.as_str().is_empty() {
        unit.push_str("（");
        unit.push_str(title.as_str());
        unit.push_str("）");
    }
    assert(unit@ =~= unit_line(*detail));
    let target = match &request.target_label {
        Some(label) => label.as_str(),
        None => request.target_language.as_str(),
    };
    let mut language = prefixed("目标语言: ", target);
    language.push_str("（");
    language.push_str(request.target_language.as_str());
    language.push_str("）");
    let source_language = match &request.source_language {
        Some(language) => if blank(language.as_str()) {
            "未设置"
        } else {
            language.as_str()
        },
        None => "未设置",
    };
    let mut lines: Vec<String> = Vec::new();
    lines.push(number_text("文本块序号: #", detail.ordinal, ""));
    lines.push(prefixed("文本块标识: ", detail.block_id.as_str()));
    lines.push(prefixed("所属单元: ", detail.unit_id.as_str()));
    lines.push(unit);
    lines.push(prefixed("单元版本: ", decimal_text(detail.unit_revision).as_str()));
    lines.push(number_text("原文长度: ", detail.source_text.as_str().unicode_len(), " 字符"));
    lines.push(number_text("片段数量: ", detail.segments.len(), ""));
    lines.push(prefixed("片段字符数: ", segment_char_label(&detail.segments).as_str()));
    lines.push("".to_owned());
    lines.push(prefixed("调用模型: ", request.model.as_str()));
    lines.push(language);
    lines.push(prefixed("原文语言标记: ", source_language));
    lines.push(prefixed("temperature: ", request.temperature.as_str()));
    lines.push(prefixed("max_tokens: ", decimal_text(request.max_tokens as u64).as_str()));
    lines.push("reasoning_effort: none".to_owned());
    lines.push("messages: 2（system + user）".to_owned());
    lines.push(number_text("system 长度: ", request.system_prompt.as_str().unicode_len(), " 字符"));
    lines.push(number_text("user 长度: ", request.user_content.as_str().unicode_len(), " 字符"));
    lines.push(number_text("body 长度: ", byte_length(request.body.as_str()), " 字节"));
    assert(texts(lines@) =~= overview_lines(*detail));
    join(&lines, "\n")
}

/// The text of the part that is open; nothing where there is none yet.
pub open spec fn detail_text(state: BlockDetailState) -> Option<Seq<char>> {
    if state.tab == BlockDetailTab::Response {
        match state.probe.result {
            Some(probe) => Some(
                or_raw(indented_object(probe.response_text@), probe.response_text@),
            ),
            None => None,
        }
    } else {
        match state.detail {
            None => None,
            Some(detail) => Some(
                match state.tab {
                    BlockDetailTab::Overview => joined(overview_lines(detail), "\n"@),
                    BlockDetailTab::Source => detail.source_text@,
                    BlockDetailTab::Body => or_raw(
                        indented(detail.request.body@),
                        detail.request.body@,
                    ),
                    BlockDetailTab::Prompt => detail.request.system_prompt@,
                    _ => or_raw(
                        indented(detail.request.user_content@),
                        detail.request.user_content@,
                    ),
                },
            ),
        }
    }
}

/// The text of the part that is open. An answer is shown as it came: a JSON
/// object is indented, and nothing else is touched.
pub fn block_detail_text(state: &BlockDetailState) -> (r: Option<String>)
    ensures
        option_text(r) == detail_text(*state),
{
    if state.tab == BlockDetailTab::Response {
        return match &state.probe.result {
            Some(probe) => Some(prettify_object(probe.response_text.as_str())),
            None => None,
        };
    }
    match &state.detail {
        None => None,
        Some(detail) => Some(
            match state.tab {
                BlockDetailTab::Overview => overview_text(detail),
                BlockDetailTab::Source => detail.source_text.clone(),
                BlockDetailTab::Body => prettify_json(detail.request.body.as_str()),
                BlockDetailTab::Prompt => detail.request.system_prompt.clone(),
                _ => prettify_json(detail.request.user_content.as_str()),
            },
        ),
    }
}

/// How an answer ended, in words.
pub open spec fn end_text(probe: TranslationBlockProbe) -> Seq<char> {
    let end = probe.end@;
    if end == "done"@ {
        "模型正常收尾"@
    } else if end == "unexpected_finish_reason"@ {
        "模型提前结束响应（finish_reason="@ + (match probe.finish_reason {
            Some(reason) => reason@,
            None => "other"@,
        }) + "）"@
    } else if end == "stream_eof"@ {
        "响应流在没有收尾标记的情况下关闭"@
    } else if end == "size_limit"@ {
        "响应超过大小上限，只显示已收到的部分"@
    } else if end == "tool_call"@ {
        "模型意外请求了工具"@
    } else {
        end
    }
}

/// How an answer ended, in words.
pub fn probe_end_label(probe: &TranslationBlockProbe) -> (r: String)
    ensures
        r@ == end_text(*probe),
{
    let end = probe.end.as_str();
    if same_text(end, "done") {
        "模型正常收尾".to_owned()
    } else if same_text(end, "unexpected_finish_reason") {
        let mut out = "模型提前结束响应（finish_reason=".to_owned();
        match &probe.finish_reason {
            Some(reason) => out.push_str(reason.as_str()),
            None => out.push_str("other"),
        }
        out.push_str("）");
        out
    } else if same_text(end, "stream_eof") {
        "响应流在没有收尾标记的情况下关闭".to_owned()
    } else if same_text(end, "size_limit") {
        "响应超过大小上限，只显示已收到的部分".to_owned()
    } else if same_text(end, "tool_call") {
        "模型意外请求了工具".to_owned()
    } else {
        probe.end.clone()
    }
}

/// What could be made of an answer, in words.
pub open spec fn decode_text(probe: TranslationBlockProbe) -> Seq<char> {
    match probe.decode_error_kind {
        None => "严格解码通过："@ + decimal(
            match probe.decoded_segments {
                Some(n) => n as nat,
                None => 0,
            },
        ) + " 个片段"@,
        Some(kind) => "严格解码失败："@ + kind.label@ + (match (
            probe.decode_error_line,
            probe.decode_error_column,
        ) {
            (Some(line), Some(column)) => "（第 "@ + decimal(line as nat) + " 行第 "@ + decimal(
                column as nat,
            ) + " 列）"@,
            _ => Seq::empty(),
        }),
    }
}

/// What could be made of an answer, in words.
pub fn probe_decode_label(probe: &TranslationBlockProbe) -> (r: String)
    ensures
        r@ == decode_text(*probe),
{
    match &probe.decode_error_kind {
        None => {
            let n: usize = match probe.decoded_segments {
                Some(n) => n,
                None => 0,
            };
            number_text("严格解码通过：", n, " 个片段")
        },
        Some(kind) => {
            let mut out = prefixed("严格解码失败：", kind.label.as_str());
            match (probe.decode_error_line, probe.decode_error_column) {
                (Some(line), Some(column)) => {
                    out.push_str("（第 ");
                    push_decimal(&mut out, line as u128);
                    out.push_str(" 行第 ");
                    push_decimal(&mut out, column as u128);
                    out.push_str(" 列）");
                },
                _ => {},
            }
            assert(out@ =~= decode_text(*probe));
            out
        },
    }
}

// ---------------------------------------------------------------------------
// What is shown
// ---------------------------------------------------------------------------

/// The answer of a repeated request as it is shown.
#[derive(Debug, PartialEq, Eq)]
pub struct ProbeAnswer {
    pub head_line: String,
    pub decode_line: String,
    pub decode_failed: bool,
    /// The answer; nothing where it is empty.
    pub text: Option<String>,
}

/// The first line about an answer.
pub open spec fn probe_head(probe: TranslationBlockProbe) -> Seq<char> {
    "调用模型 "@ + probe.model@ + " · 耗时 "@ + probe.elapsed_seconds@ + " 秒 · 收到 "@ + decimal(
        probe.response_bytes as nat,
    ) + " 字节 · "@ + end_text(probe)
}

impl ProbeAnswer {
    /// Whether this is how an answer is shown.
    pub open spec fn shows(self, probe: TranslationBlockProbe) -> bool {
        &&& self.head_line@ == probe_head(probe)
        &&& self.decode_line@ == decode_text(probe)
        &&& self.decode_failed == (probe.decode_error_kind is Some)
        &&& option_text(self.text) == (if probe.response_text@.len() == 0 {
            None
        } else {
            Some(or_raw(indented_object(probe.response_text@), probe.response_text@))
        })
    }
}

/// A repeated request as it is shown.
#[derive(Debug, PartialEq, Eq)]
pub struct ProbePanel {
    pub button: &'static str,
    pub loading: bool,
    pub error: Option<String>,
    pub answer: Option<ProbeAnswer>,
}

/// What the button that repeats a request says.
pub open spec fn probe_button(probe: BlockProbeState) -> Seq<char> {
    if probe.loading {
        "正在请求模型…"@
    } else if probe.result is Some {
        "再请求一次"@
    } else {
        "重新请求一次"@
    }
}

/// A repeated request as it is shown. While one is under way, no other can be
/// asked for.
pub fn render_block_probe(probe: &BlockProbeState) -> (r: ProbePanel)
    ensures
        r.button@ == probe_button(*probe),
        r.loading == probe.loading,
        option_text(r.error) == option_text(probe.error),
        match (r.answer, probe.result) {
            (Some(answer), Some(result)) => answer.shows(result),
            (None, None) => true,
            _ => false,
        },
{
    let answer = match &probe.result {
        None => None,
        Some(result) => {
            let mut head_line = prefixed("调用模型 ", result.model.as_str());
            head_line.push_str(" · 耗时 ");
            head_line.push_str(result.elapsed_seconds.as_str());
            head_line.push_str(" 秒 · 收到 ");
            push_decimal(&mut head_line, result.response_bytes as u128);
            head_line.push_str(" 字节 · ");
            head_line.push_str(probe_end_label(result).as_str());
            let text = if result.response_text.as_str().is_empty() {
                None
            } else {
                Some(prettify_object(result.response_text.as_str()))
            };
            Some(
                ProbeAnswer {
                    head_line,
                    decode_line: probe_decode_label(result),
                    decode_failed: result.decode_error_kind.is_some(),
                    text,
                },
            )
        },
    };
    ProbePanel {
        button: if probe.loading {
            "正在请求模型…"
        } else if probe.result.is_some() {
            "再请求一次"
        } else {
            "重新请求一次"
        },
        loading: probe.loading,
        error: copy_option(&probe.error),
        answer,
    }
}

/// What stands in the middle of the view on a block.
#[derive(Debug, PartialEq, Eq)]
pub enum BlockDetailBody {
    Error(String),
    Loading,
    Probe(ProbePanel),
    Text(String),
    Empty,
}

/// The view on a block.
#[derive(Debug, PartialEq, Eq)]
pub struct BlockDetailModal {
    pub title: String,
    pub subtitle: String,
    /// Each part, and whether it is open.
    pub tabs: Vec<(BlockDetailTab, bool)>,
    pub body: BlockDetailBody,
    pub hint: Option<&'static str>,
    /// What the copy button copies; nothing where it is disabled.
    pub copy_text: Option<String>,
}

/// The title of the view on a block.
pub open spec fn modal_title(state: BlockDetailState) -> Seq<char> {
    let head = "文本块 #"@ + decimal(state.ordinal as nat);
    match state.detail {
        Some(detail) => if detail.unit_title@.len() > 0 {
            head + " · "@ + detail.block_id@ + " · 第 "@ + decimal((detail.unit_ordinal + 1) as nat)
                + " 章"@
        } else {
            head
        },
        None => head,
    }
}

/// The line below the title.
pub open spec fn modal_subtitle(state: BlockDetailState) -> Seq<char> {
    match state.detail {
        None => "该文本块尚无可用详情。"@,
        Some(detail) => {
            let model = trimmed(detail.request.model@);
            (if model.len() == 0 {
                "未记录模型"@
            } else {
                model
            }) + " · 原文 "@ + decimal(detail.source_text@.len()) + " 字符 · "@ + decimal(
                detail.segments@.len(),
            ) + " 个片段 · 单元 "@ + detail.unit_id@
        },
    }
}

/// Where the text of the open part comes from.
pub open spec fn modal_hint(state: BlockDetailState) -> Option<Seq<char>> {
    if state.detail is None {
        None
    } else if state.tab == BlockDetailTab::Response {
        Some("模型响应为一次现场重放的原始回答，只显示在这里，不落库、不写译文。"@)
    } else {
        Some("请求 Body 为工作进程构造的完整 chat-completions 请求，仅用于调试，不落库。"@)
    }
}

impl BlockDetailBody {
    /// Whether this is what stands in the middle of the view.
    pub open spec fn shows(self, state: BlockDetailState) -> bool {
        match state.error {
            Some(error) => self matches BlockDetailBody::Error(text) && text@ == error@,
            None => if state.loading {
                self is Loading
            } else if state.tab == BlockDetailTab::Response {
                self matches BlockDetailBody::Probe(panel) && panel.button@ == probe_button(
                    state.probe,
                ) && panel.loading == state.probe.loading && option_text(panel.error)
                    == option_text(state.probe.error) && match (panel.answer, state.probe.result) {
                    (Some(answer), Some(result)) => answer.shows(result),
                    (None, None) => true,
                    _ => false,
                }
            } else {
                match detail_text(state) {
                    Some(expected) => self matches BlockDetailBody::Text(text) && text@ == expected,
                    None => self is Empty,
                }
            },
        }
    }
}

impl BlockDetailModal {
    /// Whether this is the view on the block that is open.
    pub open spec fn shows(self, state: BlockDetailState) -> bool {
        &&& self.title@ == modal_title(state)
        &&& self.subtitle@ == modal_subtitle(state)
        &&& self.tabs@ == detail_tabs(state.failed).map_values(
            |tab: BlockDetailTab| (tab, tab == state.tab),
        )
        &&& self.body.shows(state)
        &&& modal_hint(state) == (match self.hint {
            Some(hint) => Some(hint@),
            None => None,
        })
        &&& option_text(self.copy_text) == detail_text(state)
    }
}

/// The view on a block.
pub fn render_block_detail(state: &BlockDetailState) -> (r: BlockDetailModal)
    ensures
        r.shows(*state),
{
    let copy_text = block_detail_text(state);
    let mut title = number_text("文本块 #", state.ordinal, "");
    assert(title@ =~= "文本块 #"@ + decimal(state.ordinal as nat)) by {
        reveal_strlit("");
    }
    if let Some(detail) = &state.detail {
        if !detail.unit_title.as_str().is_empty() {
            title.push_str(" · ");
            title.push_str(detail.block_id.as_str());
            title.push_str(" · 第 ");
            push_decimal(&mut title, detail.unit_ordinal as u128 + 1);
            title.push_str(" 章");
        }
    }
    let subtitle = match &state.detail {
        None => "该文本块尚无可用详情。".to_owned(),
        Some(detail) => {
            let model = trim(detail.request.model.as_str());
            let mut out = if model.as_str().is_empty() {
                "未记录模型".to_owned()
            } else {
                model
            };
            out.push_str(" · 原文 ");
            push_decimal(&mut out, detail.source_text.as_str().unicode_len() as u128);
            out.push_str(" 字符 · ");
            push_decimal(&mut out, detail.segments.len() as u128);
            out.push_str(" 个片段 · 单元 ");
            out.push_str(detail.unit_id.as_str());
            out
        },
    };
    let names = block_detail_tabs(state.failed);
    let ghost expected = detail_tabs(state.failed).map_values(
        |tab: BlockDetailTab| (tab, tab == state.tab),
    );
    let mut tabs: Vec<(BlockDetailTab, bool)> = Vec::new();
    let mut i: usize = 0;
    while i < names.len()
        invariant
            i <= names@.len(),
            names@ == detail_tabs(state.failed),
            expected == detail_tabs(state.failed).map_values(
                |tab: BlockDetailTab| (tab, tab == state.tab),
            ),
            tabs@ =~= expected.subrange(0, i as int),
        decreases names@.len() - i,
    {
        let open: bool = names[i] == state.tab;
        tabs.push((names[i], open));
        i = i + 1;
        assert(expected.subrange(0, i as int) =~= expected.subrange(0, i - 1).push(
            expected[i - 1],
        ));
    }
    assert(expected.subrange(0, expected.len() as int) =~= expected);
    let body = match &state.error {
        Some(error) => BlockDetailBody::Error(error.clone()),
        None => if state.loading {
            BlockDetailBody::Loading
        } else if state.tab == BlockDetailTab::Response {
            BlockDetailBody::Probe(render_block_probe(&state.probe))
        } else {
            match block_detail_text(state) {
                Some(text) => BlockDetailBody::Text(text),
                None => BlockDetailBody::Empty,
            }
        },
    };
    let hint = if state.detail.is_none() {
        None
    } else if state.tab == BlockDetailTab::Response {
        Some("模型响应为一次现场重放的原始回答，只显示在这里，不落库、不写译文。")
    } else {
        Some("请求 Body 为工作进程构造的完整 chat-completions 请求，仅用于调试，不落库。")
    };
    BlockDetailModal { title, subtitle, tabs, body, hint, copy_text }
}

} // verus!
