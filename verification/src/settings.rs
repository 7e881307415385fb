//! Settings as they are entered: numbers within limits, keys, endpoints.

use crate::text::{
    blank, chars_of, decimal, is_blank, numeral_value, option_text, parse_number, push_decimal,
    same_text, trim, trimmed,
};
use vstd::prelude::*;
use vstd::string::*;

verus! {

pub const MIN_AI_REQUEST_TIMEOUT_SECS: u64 = 1;

pub const MAX_AI_REQUEST_TIMEOUT_SECS: u64 = 600;

pub const DEFAULT_AI_REQUEST_TIMEOUT_SECS: u64 = 120;

pub const MIN_BACKGROUND_JOB_CONCURRENCY: usize = 1;

pub const MAX_BACKGROUND_JOB_CONCURRENCY: usize = 1024;

pub const MAX_BACKGROUND_JOB_INTERVAL_MS: u64 = 60000;

/// The identifier of the endpoint that is always there.
pub const DEFAULT_ENDPOINT_ID: &'static str = "default";

// ---------------------------------------------------------------------------
// Numbers within limits
// ---------------------------------------------------------------------------

/// The number that a text writes, white space around it aside, if it is within
/// limits.
pub open spec fn within(value: Seq<char>, low: nat, high: nat) -> Option<nat> {
    match numeral_value(trimmed(value)) {
        Some(n) => if low <= n <= high {
            Some(n)
        } else {
            None
        },
        None => None,
    }
}

fn number_within(value: &str, low: u64, high: u64) -> (r: Option<u64>)
    ensures
        match r {
            Some(n) => within(value@, low as nat, high as nat) == Some(n as nat) && low <= n
                <= high,
            None => within(value@, low as nat, high as nat) is None,
        },
{
    match parse_number(trim(value).as_str()) {
        Some(n) => if low <= n && n <= high {
            Some(n)
        } else {
            None
        },
        None => None,
    }
}

/// What is said of a text that is no number within limits.
pub open spec fn limits_error(
    subject: Seq<char>,
    low: nat,
    high: nat,
    unit: Seq<char>,
) -> Seq<char> {
    subject + decimal(low) + " 到 "@ + decimal(high) + unit
}

fn limits_text(subject: &str, low: u64, high: u64, unit: &str) -> (r: String)
    ensures
        r@ == limits_error(subject@, low as nat, high as nat, unit@),
{
    let mut out = subject.to_owned();
    push_decimal(&mut out, low as u128);
    out.push_str(" 到 ");
    push_decimal(&mut out, high as u128);
    out.push_str(unit);
    out
}

/// What is said of a request timeout that is none.
pub open spec fn request_timeout_error() -> Seq<char> {
    limits_error(
        "请求超时必须是 "@,
        MIN_AI_REQUEST_TIMEOUT_SECS as nat,
        MAX_AI_REQUEST_TIMEOUT_SECS as nat,
        " 之间的整数秒数"@,
    )
}

/// A request timeout in seconds.
pub fn parse_request_timeout_secs(value: &str) -> (r: Result<u64, String>)
    ensures
        match r {
            Ok(n) => within(
                value@,
                MIN_AI_REQUEST_TIMEOUT_SECS as nat,
                MAX_AI_REQUEST_TIMEOUT_SECS as nat,
            ) == Some(n as nat),
            Err(error) => within(
                value@,
                MIN_AI_REQUEST_TIMEOUT_SECS as nat,
                MAX_AI_REQUEST_TIMEOUT_SECS as nat,
            ) is None && error@ == request_timeout_error(),
        },
{
    match number_within(value, MIN_AI_REQUEST_TIMEOUT_SECS, MAX_AI_REQUEST_TIMEOUT_SECS) {
        Some(n) => Ok(n),
        None => Err(
            limits_text(
                "请求超时必须是 ",
                MIN_AI_REQUEST_TIMEOUT_SECS,
                MAX_AI_REQUEST_TIMEOUT_SECS,
                " 之间的整数秒数",
            ),
        ),
    }
}

/// The limits of a provider.
#[derive(Clone, Copy, Debug, PartialEq, Eq, Structural)]
pub struct SettingsLimits {
    pub max_embedding_dimensions: usize,
    pub min_web_search_timeout_secs: u64,
    pub max_web_search_timeout_secs: u64,
    pub max_web_search_results: usize,
}

/// What is said of a timeout of web searches that is none.
pub open spec fn web_timeout_error(limits: SettingsLimits) -> Seq<char> {
    limits_error(
        "联网搜索超时必须是 "@,
        limits.min_web_search_timeout_secs as nat,
        limits.max_web_search_timeout_secs as nat,
        " 之间的整数秒数"@,
    )
}

/// A timeout of web searches in seconds.
pub fn parse_web_search_timeout_secs(value: &str, limits: &SettingsLimits) -> (r: Result<
    u64,
    String,
>)
    ensures
        match r {
            Ok(n) => within(
                value@,
                limits.min_web_search_timeout_secs as nat,
                limits.max_web_search_timeout_secs as nat,
            ) == Some(n as nat),
            Err(error) => within(
                value@,
                limits.min_web_search_timeout_secs as nat,
                limits.max_web_search_timeout_secs as nat,
            ) is None && error@ == web_timeout_error(*limits),
        },
{
    match number_within(
        value,
        limits.min_web_search_timeout_secs,
        limits.max_web_search_timeout_secs,
    ) {
        Some(n) => Ok(n),
        None => Err(
            limits_text(
                "联网搜索超时必须是 ",
                limits.min_web_search_timeout_secs,
                limits.max_web_search_timeout_secs,
                " 之间的整数秒数",
            ),
        ),
    }
}

/// What is said of a number of results that is none.
pub open spec fn web_results_error(limits: SettingsLimits) -> Seq<char> {
    limits_error(
        "联网搜索结果数必须是 "@,
        1,
        limits.max_web_search_results as nat,
        " 之间的整数"@,
    )
}

/// A number of results of web searches.
pub fn parse_web_search_max_results(value: &str, limits: &SettingsLimits) -> (r: Result<
    usize,
    String,
>)
    ensures
        match r {
            Ok(n) => within(value@, 1, limits.max_web_search_results as nat) == Some(n as nat),
            Err(error) => within(value@, 1, limits.max_web_search_results as nat) is None && error@
                == web_results_error(*limits),
        },
{
    match number_within(value, 1, limits.max_web_search_results as u64) {
        Some(n) => Ok(n as usize),
        None => Err(
            limits_text(
                "联网搜索结果数必须是 ",
                1,
                limits.max_web_search_results as u64,
                " 之间的整数",
            ),
        ),
    }
}

/// What is said of a number of jobs at a time that is none.
pub open spec fn concurrency_error() -> Seq<char> {
    limits_error(
        "后台任务并发必须是 "@,
        MIN_BACKGROUND_JOB_CONCURRENCY as nat,
        MAX_BACKGROUND_JOB_CONCURRENCY as nat,
        " 之间的整数"@,
    )
}

/// How many jobs may run at a time.
pub fn parse_background_job_concurrency(value: &str) -> (r: Result<usize, String>)
    ensures
        match r {
            Ok(n) => within(
                value@,
                MIN_BACKGROUND_JOB_CONCURRENCY as nat,
                MAX_BACKGROUND_JOB_CONCURRENCY as nat,
            ) == Some(n as nat),
            Err(error) => within(
                value@,
                MIN_BACKGROUND_JOB_CONCURRENCY as nat,
                MAX_BACKGROUND_JOB_CONCURRENCY as nat,
            ) is None && error@ == concurrency_error(),
        },
{
    match number_within(
        value,
        MIN_BACKGROUND_JOB_CONCURRENCY as u64,
        MAX_BACKGROUND_JOB_CONCURRENCY as u64,
    ) {
        Some(n) => Ok(n as usize),
        None => Err(
            limits_text(
                "后台任务并发必须是 ",
                MIN_BACKGROUND_JOB_CONCURRENCY as u64,
                MAX_BACKGROUND_JOB_CONCURRENCY as u64,
                " 之间的整数",
            ),
        ),
    }
}

/// What is said of a pause between jobs that is none.
pub open spec fn interval_error() -> Seq<char> {
    limits_error(
        "后台任务间隔必须是 "@,
        0,
        MAX_BACKGROUND_JOB_INTERVAL_MS as nat,
        " 之间的整数毫秒"@,
    )
}

/// The pause between jobs in milliseconds.
pub fn parse_background_job_interval_ms(value: &str) -> (r: Result<u64, String>)
    ensures
        match r {
            Ok(n) => within(value@, 0, MAX_BACKGROUND_JOB_INTERVAL_MS as nat) == Some(n as nat),
            Err(error) => within(value@, 0, MAX_BACKGROUND_JOB_INTERVAL_MS as nat) is None && error@
                == interval_error(),
        },
{
    match number_within(value, 0, MAX_BACKGROUND_JOB_INTERVAL_MS) {
        Some(n) => Ok(n),
        None => Err(
            limits_text("后台任务间隔必须是 ", 0, MAX_BACKGROUND_JOB_INTERVAL_MS, " 之间的整数毫秒"),
        ),
    }
}

/// What is said of dimensions that are none.
pub open spec fn dimensions_error(limits: SettingsLimits) -> Seq<char> {
    limits_error(
        "embedding 维度必须是 "@,
        1,
        limits.max_embedding_dimensions as nat,
        " 之间的正整数"@,
    )
}

/// The dimensions of vectors.
pub fn parse_embedding_dimensions(value: &str, limits: &SettingsLimits) -> (r: Result<
    usize,
    String,
>)
    ensures
        match r {
            Ok(n) => within(value@, 1, limits.max_embedding_dimensions as nat) == Some(n as nat),
            Err(error) => within(value@, 1, limits.max_embedding_dimensions as nat) is None
                && error@ == dimensions_error(*limits),
        },
{
    match number_within(value, 1, limits.max_embedding_dimensions as u64) {
        Some(n) => Ok(n as usize),
        None => Err(
            limits_text(
                "embedding 维度必须是 ",
                1,
                limits.max_embedding_dimensions as u64,
                " 之间的正整数",
            ),
        ),
    }
}

// ---------------------------------------------------------------------------
// Generation
// ---------------------------------------------------------------------------

/// The parameters of chats as they are entered.
#[derive(Debug, PartialEq, Eq)]
pub struct GenerationForm {
    pub temperature: String,
    pub top_p: String,
    pub max_output_tokens: String,
    pub presence_penalty: String,
    pub frequency_penalty: String,
}

/// The parameters of chats as they are entered, as texts.
pub struct GenerationView {
    pub temperature: Seq<char>,
    pub top_p: Seq<char>,
    pub max_output_tokens: Seq<char>,
    pub presence_penalty: Seq<char>,
    pub frequency_penalty: Seq<char>,
}

impl View for GenerationForm {
    type V = GenerationView;

    open spec fn view(&self) -> GenerationView {
        GenerationView {
            temperature: self.temperature@,
            top_p: self.top_p@,
            max_output_tokens: self.max_output_tokens@,
            presence_penalty: self.presence_penalty@,
            frequency_penalty: self.frequency_penalty@,
        }
    }
}

/// Which of the parameters are numbers, white space around them aside.
#[derive(Clone, Copy, Debug, PartialEq, Eq, Structural)]
pub struct NumberChecks {
    pub temperature: bool,
    pub top_p: bool,
    pub presence_penalty: bool,
    pub frequency_penalty: bool,
}

/// The parameters of chats. Those that are not there are left to the provider;
/// the others stand as the numerals that were entered.
#[derive(Debug, PartialEq, Eq)]
pub struct ChatGenerationSettings {
    pub temperature: Option<String>,
    pub top_p: Option<String>,
    pub max_output_tokens: u32,
    pub presence_penalty: Option<String>,
    pub frequency_penalty: Option<String>,
}

/// The parameters of chats, as texts.
pub struct ChatGenerationView {
    pub temperature: Option<Seq<char>>,
    pub top_p: Option<Seq<char>>,
    pub max_output_tokens: nat,
    pub presence_penalty: Option<Seq<char>>,
    pub frequency_penalty: Option<Seq<char>>,
}

impl View for ChatGenerationSettings {
    type V = ChatGenerationView;

    open spec fn view(&self) -> ChatGenerationView {
        ChatGenerationView {
            temperature: option_text(self.temperature),
            top_p: option_text(self.top_p),
            max_output_tokens: self.max_output_tokens as nat,
            presence_penalty: option_text(self.presence_penalty),
            frequency_penalty: option_text(self.frequency_penalty),
        }
    }
}

/// A parameter that may be left out: its numeral, if there is one; or what is said
/// where it is no number.
pub open spec fn optional_number_of(
    label: Seq<char>,
    value: Seq<char>,
    is_number: bool,
) -> Result<Option<Seq<char>>, Seq<char>> {
    if is_blank(value) {
        Ok(None)
    } else if is_number {
        Ok(Some(trimmed(value)))
    } else {
        Err(label + "必须是数字，或留空使用服务端默认值"@)
    }
}

/// A parameter that may be left out.
pub fn optional_number(label: &str, value: &str, is_number: bool) -> (r: Result<
    Option<String>,
    String,
>)
    ensures
        match r {
            Ok(number) => optional_number_of(label@, value@, is_number) == Ok::<
                Option<Seq<char>>,
                Seq<char>,
            >(option_text(number)),
            Err(error) => optional_number_of(label@, value@, is_number) == Err::<
                Option<Seq<char>>,
                Seq<char>,
            >(error@),
        },
{
    if blank(value) {
        Ok(None)
    } else if is_number {
        Ok(Some(trim(value)))
    } else {
        let mut error = label.to_owned();
        error.push_str("必须是数字，或留空使用服务端默认值");
        Err(error)
    }
}

/// The first thing that is wrong with the parameters of chats, if anything is.
/// `verdict` is what the provider finds wrong with numbers in themselves.
pub open spec fn generation_error(
    form: GenerationView,
    numbers: NumberChecks,
    verdict: Option<Seq<char>>,
) -> Option<Seq<char>> {
    let temperature = optional_number_of(
        "温度（Temperature）"@,
        form.temperature,
        numbers.temperature,
    );
    let top_p = optional_number_of("核采样（Top P）"@, form.top_p, numbers.top_p);
    let presence = optional_number_of(
        "出现惩罚（Presence Penalty）"@,
        form.presence_penalty,
        numbers.presence_penalty,
    );
    let frequency = optional_number_of(
        "频率惩罚（Frequency Penalty）"@,
        form.frequency_penalty,
        numbers.frequency_penalty,
    );
    if temperature is Err {
        Some(temperature->Err_0)
    } else if top_p is Err {
        Some(top_p->Err_0)
    } else if within(form.max_output_tokens, 0, u32::MAX as nat) is None {
        Some("最大输出 token 数必须是有效的正整数"@)
    } else if presence is Err {
        Some(presence->Err_0)
    } else if frequency is Err {
        Some(frequency->Err_0)
    } else {
        verdict
    }
}

/// The parameters that were entered.
pub open spec fn entered_generation(form: GenerationView) -> ChatGenerationView {
    ChatGenerationView {
        temperature: optional_text(form.temperature),
        top_p: optional_text(form.top_p),
        max_output_tokens: within(form.max_output_tokens, 0, u32::MAX as nat).unwrap_or(0),
        presence_penalty: optional_text(form.presence_penalty),
        frequency_penalty: optional_text(form.frequency_penalty),
    }
}

/// The parameters of chats as they were entered; or the first thing that is wrong
/// with them.
pub fn parse_chat_generation(
    form: &GenerationForm,
    numbers: &NumberChecks,
    verdict: &Option<String>,
) -> (r: Result<ChatGenerationSettings, String>)
    ensures
        match r {
            Ok(settings) => generation_error(form@, *numbers, option_text(*verdict)) is None
                && settings@ == entered_generation(form@),
            Err(error) => generation_error(form@, *numbers, option_text(*verdict)) == Some(error@),
        },
{
    let temperature = match optional_number(
        "温度（Temperature）",
        form.temperature.as_str(),
        numbers.temperature,
    ) {
        Ok(number) => number,
        Err(error) => {
            return Err(error);
        },
    };
    let top_p = match optional_number("核采样（Top P）", form.top_p.as_str(), numbers.top_p) {
        Ok(number) => number,
        Err(error) => {
            return Err(error);
        },
    };
    let max_output_tokens: u32 = match number_within(
        form.max_output_tokens.as_str(),
        0,
        u32::MAX as u64,
    ) {
        Some(n) => n as u32,
        None => {
            return Err("最大输出 token 数必须是有效的正整数".to_owned());
        },
    };
    let presence_penalty = match optional_number(
        "出现惩罚（Presence Penalty）",
        form.presence_penalty.as_str(),
        numbers.presence_penalty,
    ) {
        Ok(number) => number,
        Err(error) => {
            return Err(error);
        },
    };
    let frequency_penalty = match optional_number(
        "频率惩罚（Frequency Penalty）",
        form.frequency_penalty.as_str(),
        numbers.frequency_penalty,
    ) {
        Ok(number) => number,
        Err(error) => {
            return Err(error);
        },
    };
    if let Some(error) = verdict {
        return Err(error.clone());
    }
    Ok(
        ChatGenerationSettings {
            temperature,
            top_p,
            max_output_tokens,
            presence_penalty,
            frequency_penalty,
        },
    )
}

// ---------------------------------------------------------------------------
// Keys and addresses
// ---------------------------------------------------------------------------

/// What becomes of a stored key.
#[derive(Debug, PartialEq, Eq)]
pub enum ApiKeyUpdate {
    Keep,
    Replace(String),
    Delete,
}

/// What becomes of a stored key, as texts.
pub enum KeyUpdateView {
    Keep,
    Replace(Seq<char>),
    Delete,
}

impl View for ApiKeyUpdate {
    type V = KeyUpdateView;

    open spec fn view(&self) -> KeyUpdateView {
        match *self {
            ApiKeyUpdate::Keep => KeyUpdateView::Keep,
            ApiKeyUpdate::Replace(value) => KeyUpdateView::Replace(value@),
            ApiKeyUpdate::Delete => KeyUpdateView::Delete,
        }
    }
}

/// What becomes of a stored key, given what was entered.
pub open spec fn key_update(value: Seq<char>, delete: bool) -> KeyUpdateView {
    if delete {
        KeyUpdateView::Delete
    } else if is_blank(value) {
        KeyUpdateView::Keep
    } else {
        KeyUpdateView::Replace(value)
    }
}

/// What becomes of a stored key, given what was entered: nothing entered keeps
/// it.
pub fn api_key_update_for_input(value: &str, delete: bool) -> (r: ApiKeyUpdate)
    ensures
        r@ == key_update(value@, delete),
{
    if delete {
        ApiKeyUpdate::Delete
    } else if blank(value) {
        ApiKeyUpdate::Keep
    } else {
        ApiKeyUpdate::Replace(value.to_owned())
    }
}

/// What tells one address from another: its normal form, or the text itself where
/// it has none.
pub open spec fn identity_of(endpoint: Seq<char>, canonical: Option<Seq<char>>) -> Seq<char> {
    match canonical {
        Some(text) => text,
        None => trimmed(endpoint),
    }
}

/// What tells one address from another. `canonical` is its normal form, if it has
/// one.
pub fn endpoint_draft_identity(endpoint: &str, canonical: &Option<String>) -> (r: String)
    ensures
        r@ == identity_of(endpoint@, option_text(*canonical)),
{
    match canonical {
        Some(text) => text.clone(),
        None => trim(endpoint),
    }
}

/// The text without white space around it, if anything is left.
pub open spec fn optional_text(value: Seq<char>) -> Option<Seq<char>> {
    if is_blank(value) {
        None
    } else {
        Some(trimmed(value))
    }
}

/// The text without white space around it, if anything is left.
pub fn non_blank(value: &str) -> (r: Option<String>)
    ensures
        option_text(r) == optional_text(value@),
{
    if blank(value) {
        None
    } else {
        Some(trim(value))
    }
}

/// An ASCII letter in upper case; any other character as it is.
pub open spec fn ascii_upper(c: char) -> char {
    if 'a' <= c && c <= 'z' {
        ((c as u32 - 32) as u8) as char
    } else {
        c
    }
}

/// A text with its ASCII letters in upper case.
pub open spec fn ascii_upper_text(s: Seq<char>) -> Seq<char> {
    s.map_values(|c: char| ascii_upper(c))
}

/// A text with its ASCII letters in upper case.
pub fn upper_case(text: &str) -> (r: String)
    ensures
        r@ == ascii_upper_text(text@),
{
    let chars = chars_of(text);
    let mut out = String::new();
    let mut i: usize = 0;
    while i < chars.len()
        invariant
            i <= chars@.len(),
            out@ =~= ascii_upper_text(chars@).subrange(0, i as int),
        decreases chars@.len() - i,
    {
        let c = chars[i];
        let upper = if 'a' <= c && c <= 'z' {
            ((c as u32 - 32) as u8) as char
        } else {
            c
        };
        out.push(upper);
        i = i + 1;
        assert(ascii_upper_text(chars@).subrange(0, i as int) =~= ascii_upper_text(
            chars@,
        ).subrange(0, i - 1).push(upper));
    }
    assert(ascii_upper_text(chars@).subrange(0, chars@.len() as int) =~= ascii_upper_text(chars@));
    out
}

/// Whether a text holds digits alone.
pub fn is_digits(value: &str) -> (r: bool)
    ensures
        r == (forall|i: int|
            0 <= i < value@.len() ==> '0' <= #[trigger] value@[i] && value@[i] <= '9'),
{
    let chars = chars_of(value);
    let mut i: usize = 0;
    while i < chars.len()
        invariant
            i <= chars@.len(),
            chars@ == value@,
            forall|k: int| 0 <= k < i ==> '0' <= #[trigger] chars@[k] && chars@[k] <= '9',
        decreases chars@.len() - i,
    {
        if !('0' <= chars[i] && chars[i] <= '9') {
            assert(!('0' <= value@[i as int] && value@[i as int] <= '9'));
            return false;
        }
        i = i + 1;
    }
    true
}

/// Whether a text names a method that web searches can use.
pub fn is_search_method(value: &str) -> (r: bool)
    ensures
        r == (ascii_upper_text(value@) == "GET"@ || ascii_upper_text(value@) == "POST"@),
{
    let upper = upper_case(value);
    same_text(upper.as_str(), "GET") || same_text(upper.as_str(), "POST")
}

/// A number within limits that is written in decimal is read back.
pub proof fn numbers_within_limits_are_read_back(n: nat, low: nat, high: nat)
    requires
        low <= n <= high,
    ensures
        within(decimal(n), low, high) == Some(n),
{
    crate::text::decimal_reads_back(n);
    let s = decimal(n);
    lemma_decimal_has_no_space(n);
    assert(trimmed(s) == s) by {
        assert(crate::text::trim_start(s) == s);
        assert(crate::text::trim_end(s) == s);
    }
}

proof fn lemma_decimal_has_no_space(n: nat)
    ensures
        decimal(n).len() > 0,
        !crate::text::is_white_space(decimal(n)[0]),
        !crate::text::is_white_space(decimal(n).last()),
    decreases n,
{
    let d = n % 10;
    assert(d == 0 || d == 1 || d == 2 || d == 3 || d == 4 || d == 5 || d == 6 || d == 7 || d == 8
        || d == 9);
    if n >= 10 {
        lemma_decimal_has_no_space(n / 10);
        assert(decimal(n)[0] == decimal(n / 10)[0]);
    }
}

} // verus!
