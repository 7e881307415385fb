//! What is made of the settings that were entered: which are refused, and what each
//! field comes to.

use crate::settings::{
    ascii_upper_text, entered_generation, generation_error, identity_of, key_update, optional_text,
    within, GenerationView, KeyUpdateView, NumberChecks, SettingsLimits,
};
use crate::settings_fields::FormField;
use crate::settings_form::{
    has_draft, lemma_place, place, EndpointView, FormView, ProviderSettingsView,
};
use crate::settings_operations::{confirmation_text, StoredEmbedding};
use crate::text::{decimal, is_white_space, numeral_value, trimmed};
use vstd::prelude::*;

verus! {

/// Whether a text holds anything but white space.
pub open spec fn is_filled(text: Seq<char>) -> bool {
    exists|i: int| 0 <= i < text.len() && !is_white_space(#[trigger] text[i])
}

// ---------------------------------------------------------------------------
// Single fields
// ---------------------------------------------------------------------------

/// A number is taken exactly where the text, without the white space around it, writes
/// one within the limits, and it is that number.
pub proof fn a_number_is_taken_within_its_limits(
    value: Seq<char>,
    low: nat,
    high: nat,
    n: nat,
)
    ensures
        within(value, low, high) == Some(n) <==> numeral_value(trimmed(value)) == Some(n) && low
            <= n && n <= high,
        trimmed(value) == decimal(n) && low <= n <= high ==> within(value, low, high) == Some(n),
{
    crate::text::decimal_reads_back(n);
}

/// An optional text is what was entered without the white space around it, and nothing
/// where only white space was entered.
pub proof fn an_optional_text_is_nothing_where_it_is_blank(value: Seq<char>)
    ensures
        is_filled(value) ==> optional_text(value) == Some(trimmed(value)),
        !is_filled(value) ==> optional_text(value) is None,
{
}

/// A key is deleted where that was asked for, replaced by what was entered, to the
/// letter, where anything was, and kept otherwise.
pub proof fn a_key_is_kept_unless_another_is_entered(value: Seq<char>, delete: bool)
    ensures
        key_update(value, delete) == KeyUpdateView::Delete <==> delete,
        key_update(value, delete) == KeyUpdateView::Replace(value) <==> !delete && is_filled(value),
        key_update(value, delete) == KeyUpdateView::Keep <==> !delete && !is_filled(value),
{
}

/// A text in upper case is as long as before; each small letter of ASCII has become the
/// capital one, and every other character is as it was.
pub proof fn upper_case_changes_small_letters_alone(s: Seq<char>, i: int)
    requires
        0 <= i < s.len(),
    ensures
        ascii_upper_text(s).len() == s.len(),
        'a' <= s[i] && s[i] <= 'z' ==> ascii_upper_text(s)[i] as u32 + 32 == s[i] as u32,
        !('a' <= s[i] && s[i] <= 'z') ==> ascii_upper_text(s)[i] == s[i],
{
    let v = (s[i] as u32 - 32) as u8;
    if 'a' <= s[i] && s[i] <= 'z' {
        assert(v as u32 == s[i] as u32 - 32);
        assert((v as char) as u32 == s[i] as u32 - 32);
    }
}

/// Two ways to write an address are the same place where they have the same normal form;
/// where one has none, it stands for itself, without the white space around it.
pub proof fn a_place_is_told_by_its_normal_form(endpoint: Seq<char>, canonical: Seq<char>)
    ensures
        identity_of(endpoint, Some(canonical)) == canonical,
        identity_of(endpoint, None) == trimmed(endpoint),
{
}

// ---------------------------------------------------------------------------
// The form as a whole
// ---------------------------------------------------------------------------

/// The parameters of a conversation are accepted exactly where each of the four that may
/// be left out is left out or a number, the number of tokens is one of 32 bits, and the
/// model has nothing against them.
pub proof fn parameters_are_accepted_where_they_are_numbers(
    form: GenerationView,
    numbers: NumberChecks,
    verdict: Option<Seq<char>>,
)
    ensures
        generation_error(form, numbers, verdict) is None <==> {
            &&& is_filled(form.temperature) ==> numbers.temperature
            &&& is_filled(form.top_p) ==> numbers.top_p
            &&& is_filled(form.presence_penalty) ==> numbers.presence_penalty
            &&& is_filled(form.frequency_penalty) ==> numbers.frequency_penalty
            &&& within(form.max_output_tokens, 0, 0xffff_ffff) is Some
            &&& verdict is None
        },
        entered_generation(form).temperature == optional_text(form.temperature),
        entered_generation(form).top_p == optional_text(form.top_p),
        entered_generation(form).presence_penalty == optional_text(form.presence_penalty),
        entered_generation(form).frequency_penalty == optional_text(form.frequency_penalty),
        generation_error(form, numbers, verdict) is None ==> within(
            form.max_output_tokens,
            0,
            0xffff_ffff,
        ) == Some(entered_generation(form).max_output_tokens),
{
}

/// The settings are accepted exactly where the parameters are, every connection has a
/// timeout from 1 to 600 seconds, the default one is there, and every other number is
/// within its limits: jobs from 1 to 1024 at a time, 0 to 60000 milliseconds apart.
pub proof fn settings_are_accepted_within_their_limits(
    form: FormView,
    numbers: NumberChecks,
    verdict: Option<Seq<char>>,
    limits: SettingsLimits,
)
    ensures
        form.error(numbers, verdict, limits) is None <==> {
            &&& generation_error(form.models.generation, numbers, verdict) is None
            &&& forall|i: int|
                0 <= i < form.endpoints.len() ==> within(
                    (#[trigger] form.endpoints[i]).request_timeout,
                    1,
                    600,
                ) is Some
            &&& exists|i: int|
                0 <= i < form.endpoints.len() && (#[trigger] form.endpoints[i]).id == "default"@
            &&& within(
                form.web.timeout,
                limits.min_web_search_timeout_secs as nat,
                limits.max_web_search_timeout_secs as nat,
            ) is Some
            &&& within(form.web.max_results, 1, limits.max_web_search_results as nat) is Some
            &&& within(
                form.models.embedding_dimensions,
                1,
                limits.max_embedding_dimensions as nat,
            ) is Some
            &&& within(form.application.background_job_concurrency, 1, 1024) is Some
            &&& within(form.application.background_job_interval, 0, 60000) is Some
        },
{
    if forall|i: int|
        0 <= i < form.endpoints.len() ==> within(
            (#[trigger] form.endpoints[i]).request_timeout,
            1,
            600,
        ) is Some {
        assert forall|i: int| 0 <= i < form.endpoints.len() implies (
        #[trigger] form.endpoints[i]).timeout() is Some by {}
    }
    if form.error(numbers, verdict, limits) is None {
        assert forall|i: int| 0 <= i < form.endpoints.len() implies within(
            (#[trigger] form.endpoints[i]).request_timeout,
            1,
            600,
        ) is Some by {
            assert(form.endpoints[i].timeout() is Some);
        }
    }
}

/// What is saved of a connection: its own identifier and permissions, its name and
/// address without the white space around them, and its timeout as a number.
pub proof fn a_connection_is_saved_as_entered(draft: EndpointView)
    ensures
        draft.entered().id == draft.id,
        draft.entered().name == trimmed(draft.name),
        draft.entered().base_url == trimmed(draft.base_url),
        draft.entered().remote_content_confirmed == draft.remote_content_confirmed,
        draft.entered().allow_insecure_remote_http == draft.allow_insecure_remote_http,
        draft.entered().confirmed_remote_endpoint == draft.confirmed_remote_endpoint,
        within(draft.request_timeout, 1, 600) is Some ==> within(draft.request_timeout, 1, 600)
            == Some(draft.entered().request_timeout_secs),
        draft.key_update() == key_update(draft.api_key, draft.delete_api_key),
{
}

/// What is saved of an accepted form: every text without the white space around it, every
/// number as it reads, and every choice as it was made.
pub proof fn settings_are_saved_as_entered(
    form: FormView,
    numbers: NumberChecks,
    verdict: Option<Seq<char>>,
    limits: SettingsLimits,
)
    requires
        form.error(numbers, verdict, limits) is None,
    ensures
        ({
            let saved = form.entered(limits);
            &&& saved.chat_endpoint_id == form.chat_endpoint_id
            &&& saved.embedding_endpoint_id == form.embedding_endpoint_id
            &&& saved.vision_endpoint_id == form.vision_endpoint_id
            &&& saved.chat_model == trimmed(form.models.chat_model)
            &&& saved.embedding_model == trimmed(form.models.embedding_model)
            &&& saved.vision_model == trimmed(form.models.vision_model)
            &&& saved.chat_generation == entered_generation(form.models.generation)
            &&& within(
                form.models.embedding_dimensions,
                1,
                limits.max_embedding_dimensions as nat,
            ) == Some(saved.embedding_dimensions)
            &&& saved.web_search_enabled == form.web.enabled
            &&& saved.web_search_url_template == trimmed(form.web.url)
            &&& saved.web_search_method == ascii_upper_text(trimmed(form.web.method))
            &&& saved.web_search_body_template == optional_text(form.web.body)
            &&& saved.web_search_key_header == optional_text(form.web.key_header)
            &&& saved.web_search_remote_confirmed == form.web.remote_confirmed
            &&& saved.web_search_allow_insecure_http == form.web.allow_insecure_http
            &&& saved.web_search_confirmed_remote_endpoint == form.web.confirmed_remote_endpoint
            &&& within(
                form.web.timeout,
                limits.min_web_search_timeout_secs as nat,
                limits.max_web_search_timeout_secs as nat,
            ) == Some(saved.web_search_timeout_secs)
            &&& within(form.web.max_results, 1, limits.max_web_search_results as nat) == Some(
                saved.web_search_max_results,
            )
            &&& saved.auto_run_background_jobs == form.application.auto_run_background_jobs
            &&& within(form.application.background_job_concurrency, 1, 1024) == Some(
                saved.background_job_concurrency,
            )
            &&& within(form.application.background_job_interval, 0, 60000) == Some(
                saved.background_job_interval_ms,
            )
            &&& saved.pdf_compact_reading == form.application.pdf_compact_reading
            &&& saved.default_language == form.application.default_language
            &&& saved.translation_display_mode == form.application.translation_display_mode
            &&& saved.use_proxy == form.application.use_proxy
        }),
{
}

/// The first connection with the default identifier is saved as the default one; all
/// others are saved behind it, in their order.
pub proof fn every_connection_is_saved(form: FormView, limits: SettingsLimits, at: int, i: int)
    requires
        0 <= at < form.endpoints.len(),
        form.endpoints[at].id == "default"@,
        forall|k: int| 0 <= k < at ==> (#[trigger] form.endpoints[k]).id != "default"@,
        0 <= i < form.endpoints.len(),
    ensures
        ({
            let saved = form.entered(limits);
            let default = form.endpoints[at].entered();
            &&& saved.base_url == default.base_url
            &&& saved.default_endpoint_name == default.name
            &&& saved.request_timeout_secs == default.request_timeout_secs
            &&& saved.remote_content_confirmed == default.remote_content_confirmed
            &&& saved.allow_insecure_remote_http == default.allow_insecure_remote_http
            &&& saved.confirmed_remote_endpoint == default.confirmed_remote_endpoint
            &&& saved.additional_endpoints.len() == form.endpoints.len() - 1
            &&& i < at ==> saved.additional_endpoints[i] == form.endpoints[i].entered()
            &&& i > at ==> saved.additional_endpoints[i - 1] == form.endpoints[i].entered()
        }),
{
    lemma_first_place(form.endpoints, "default"@, at);
}

/// The place of a connection is that of the first one with its identifier.
pub proof fn lemma_first_place(list: Seq<EndpointView>, id: Seq<char>, at: int)
    requires
        0 <= at < list.len(),
        list[at].id == id,
        forall|k: int| 0 <= k < at ==> (#[trigger] list[k]).id != id,
    ensures
        place(list, id) == at,
        has_draft(list, id),
{
    lemma_place(list, id, 0);
    let found = place(list, id);
    assert(has_draft(list, id));
    if found < at {
        assert(list[found].id == id);
    } else if at < found {
        assert(list[at].id == id);
    }
}

/// What a form shows of stored settings: the default connection first and the others
/// behind it, every text as it is stored, every number in decimal, and no key.
pub proof fn a_form_shows_what_is_stored(
    settings: ProviderSettingsView,
    canonical: Seq<Option<Seq<char>>>,
    i: int,
)
    ensures
        ({
            let form = FormView::of(settings, canonical);
            &&& form.endpoints.len() == settings.additional_endpoints.len() + 1
            &&& form.endpoints[0].id == "default"@
            &&& form.endpoints[0].name == settings.default_endpoint_name
            &&& form.endpoints[0].base_url == settings.base_url
            &&& form.endpoints[0].request_timeout == decimal(settings.request_timeout_secs)
            &&& form.endpoints[0].remote_content_confirmed == settings.remote_content_confirmed
            &&& form.endpoints[0].allow_insecure_remote_http == settings.allow_insecure_remote_http
            &&& form.endpoints[0].confirmed_remote_endpoint == settings.confirmed_remote_endpoint
            &&& 0 <= i < settings.additional_endpoints.len() ==> {
                let shown = form.endpoints[i + 1];
                let stored = settings.additional_endpoints[i];
                &&& shown.id == stored.id
                &&& shown.name == stored.name
                &&& shown.base_url == stored.base_url
                &&& shown.request_timeout == decimal(stored.request_timeout_secs)
                &&& shown.remote_content_confirmed == stored.remote_content_confirmed
                &&& shown.allow_insecure_remote_http == stored.allow_insecure_remote_http
                &&& shown.confirmed_remote_endpoint == stored.confirmed_remote_endpoint
            }
            &&& 0 <= i < form.endpoints.len() ==> {
                let shown = form.endpoints[i];
                &&& shown.api_key.len() == 0
                &&& !shown.delete_api_key
                &&& shown.detected_models is None
            }
            &&& form.chat_endpoint_id == settings.chat_endpoint_id
            &&& form.embedding_endpoint_id == settings.embedding_endpoint_id
            &&& form.vision_endpoint_id == settings.vision_endpoint_id
            &&& form.models.chat_model == settings.chat_model
            &&& form.models.embedding_model == settings.embedding_model
            &&& form.models.vision_model == settings.vision_model
            &&& form.models.embedding_dimensions == decimal(settings.embedding_dimensions)
            &&& form.models.generation.max_output_tokens == decimal(
                settings.chat_generation.max_output_tokens,
            )
            &&& settings.chat_generation.temperature is Some ==> form.models.generation.temperature
                == settings.chat_generation.temperature->0
            &&& settings.chat_generation.temperature is None
                ==> form.models.generation.temperature.len() == 0
            &&& settings.chat_generation.top_p is Some ==> form.models.generation.top_p
                == settings.chat_generation.top_p->0
            &&& settings.chat_generation.presence_penalty is Some
                ==> form.models.generation.presence_penalty
                == settings.chat_generation.presence_penalty->0
            &&& settings.chat_generation.frequency_penalty is Some
                ==> form.models.generation.frequency_penalty
                == settings.chat_generation.frequency_penalty->0
            &&& form.web.enabled == settings.web_search_enabled
            &&& form.web.url == settings.web_search_url_template
            &&& form.web.method == settings.web_search_method
            &&& form.web.api_key.len() == 0
            &&& !form.web.delete_api_key
            &&& form.web.timeout == decimal(settings.web_search_timeout_secs)
            &&& form.web.max_results == decimal(settings.web_search_max_results)
            &&& form.web.remote_confirmed == settings.web_search_remote_confirmed
            &&& form.web.allow_insecure_http == settings.web_search_allow_insecure_http
            &&& form.application.auto_run_background_jobs == settings.auto_run_background_jobs
            &&& form.application.background_job_concurrency == decimal(
                settings.background_job_concurrency,
            )
            &&& form.application.background_job_interval == decimal(
                settings.background_job_interval_ms,
            )
            &&& form.application.pdf_compact_reading == settings.pdf_compact_reading
            &&& form.application.default_language == settings.default_language
            &&& form.application.translation_display_mode == settings.translation_display_mode
            &&& form.application.use_proxy == settings.use_proxy
        }),
{
}

/// Saving is to be confirmed exactly where vectors are stored that another model or
/// another number of dimensions made, and the question says which of them changed.
pub proof fn a_change_of_stored_vectors_is_to_be_confirmed(
    stored: StoredEmbedding,
    model: Seq<char>,
    dimensions: nat,
)
    ensures
        confirmation_text(None, model, dimensions) is None,
        confirmation_text(Some(stored), model, dimensions) is None <==> stored.model@ == model
            && stored.dimensions == dimensions,
        stored.model@ != model && stored.dimensions == dimensions ==> confirmation_text(
            Some(stored),
            model,
            dimensions,
        ) == Some("Embedding 模型已修改"@),
        stored.model@ == model && stored.dimensions != dimensions ==> confirmation_text(
            Some(stored),
            model,
            dimensions,
        ) == Some("向量维度已修改"@),
        stored.model@ != model && stored.dimensions != dimensions ==> confirmation_text(
            Some(stored),
            model,
            dimensions,
        ) == Some("Embedding 模型与向量维度已修改"@),
{
}

/// Why settings are refused, where only one thing is wrong with them, is told with the
/// limits that were passed.
pub proof fn a_passed_limit_is_told(
    form: FormView,
    numbers: NumberChecks,
    verdict: Option<Seq<char>>,
    limits: SettingsLimits,
)
    requires
        generation_error(form.models.generation, numbers, verdict) is None,
    ensures
        ({
            let error = form.error(numbers, verdict, limits);
            let timeouts = forall|i: int|
                0 <= i < form.endpoints.len() ==> (#[trigger] form.endpoints[i]).timeout() is Some;
            let default = has_draft(form.endpoints, "default"@);
            let web_timeout = form.web_timeout(limits) is Some;
            let web_results = form.web_results(limits) is Some;
            let dimensions = form.dimensions(limits) is Some;
            let concurrency = form.concurrency() is Some;
            &&& !timeouts ==> error == Some(
                "请求超时必须是 "@ + decimal(1) + " 到 "@ + decimal(600) + " 之间的整数秒数"@,
            )
            &&& timeouts && !default ==> error == Some("缺少默认 Endpoint"@)
            &&& timeouts && default && !web_timeout ==> error == Some(
                "联网搜索超时必须是 "@ + decimal(limits.min_web_search_timeout_secs as nat)
                    + " 到 "@ + decimal(limits.max_web_search_timeout_secs as nat)
                    + " 之间的整数秒数"@,
            )
            &&& timeouts && default && web_timeout && !web_results ==> error == Some(
                "联网搜索结果数必须是 "@ + decimal(1) + " 到 "@ + decimal(
                    limits.max_web_search_results as nat,
                ) + " 之间的整数"@,
            )
            &&& timeouts && default && web_timeout && web_results && !dimensions ==> error == Some(
                "embedding 维度必须是 "@ + decimal(1) + " 到 "@ + decimal(
                    limits.max_embedding_dimensions as nat,
                ) + " 之间的正整数"@,
            )
            &&& timeouts && default && web_timeout && web_results && dimensions && !concurrency
                ==> error == Some(
                "后台任务并发必须是 "@ + decimal(1) + " 到 "@ + decimal(1024) + " 之间的整数"@,
            )
            &&& timeouts && default && web_timeout && web_results && dimensions && concurrency
                && form.interval() is None ==> error == Some(
                "后台任务间隔必须是 "@ + decimal(0) + " 到 "@ + decimal(60000) + " 之间的整数毫秒"@,
            )
        }),
{
}

/// A field for a number takes digits alone, the one for the method takes either method in
/// whatever case, and every other field takes any text.
pub proof fn a_field_takes_what_it_is_for(field: FormField, text: Seq<char>)
    ensures
        ({
            let number = field == FormField::EmbeddingDimensions || field == FormField::WebTimeout
                || field == FormField::WebMaxResults || field == FormField::JobConcurrency || field
                == FormField::JobInterval;
            &&& number ==> (field.takes(text) <==> forall|i: int|
                0 <= i < text.len() ==> '0' <= #[trigger] text[i] && text[i] <= '9')
            &&& field == FormField::WebMethod ==> (field.takes(text) <==> ascii_upper_text(text)
                == "GET"@ || ascii_upper_text(text) == "POST"@)
            &&& !number && field != FormField::WebMethod ==> field.takes(text)
        }),
{
}

} // verus!
