use book_studio_ui::data_directory::CommitTask;
use book_studio_ui::endpoint::{looks_like_local_ollama, ollama_pull_commands};
use book_studio_ui::settings::{
    api_key_update_for_input, endpoint_draft_identity, is_digits, is_search_method,
    parse_background_job_concurrency, parse_background_job_interval_ms, parse_chat_generation,
    parse_embedding_dimensions, parse_request_timeout_secs, parse_web_search_max_results,
    parse_web_search_timeout_secs, upper_case, ApiKeyUpdate, ChatGenerationSettings,
    GenerationForm, NumberChecks, SettingsLimits, MAX_BACKGROUND_JOB_CONCURRENCY,
    MAX_BACKGROUND_JOB_INTERVAL_MS, MIN_BACKGROUND_JOB_CONCURRENCY,
};
use book_studio_ui::settings_display::{ActivePanel, LanguageOption};
use book_studio_ui::settings_fields::{
    DataDirChange, FormField, ModelRole, PendingOperation, SettingsTab,
};
use book_studio_ui::settings_form::{
    EndpointDraft, EndpointRoutingSettings, EndpointSettings, ProviderSettings,
    TranslationDisplayMode,
};
use book_studio_ui::settings_operations::{endpoint_identifier, StoredEmbedding};
use book_studio_ui::settings_window::AiSettingsWindow;
use book_studio_ui::window_tracker::{
    ensure_ai_settings_window_tracker, existing_window_disposition, open_background_jobs_window,
    AiSettingsWindowTracker, CloseAnswer, ExistingWindowDisposition, SingletonWindowReservation,
    WindowRequest,
};

const DEFAULT_OLLAMA_OPENAI_BASE_URL: &str = "http://127.0.0.1:11434/v1/";

fn limits() -> SettingsLimits {
    SettingsLimits {
        max_embedding_dimensions: 8192,
        min_web_search_timeout_secs: 1,
        max_web_search_timeout_secs: 60,
        max_web_search_results: 10,
    }
}

fn default_generation() -> ChatGenerationSettings {
    ChatGenerationSettings {
        temperature: Some("0.1".to_string()),
        top_p: None,
        max_output_tokens: 4096,
        presence_penalty: None,
        frequency_penalty: None,
    }
}

fn default_settings() -> ProviderSettings {
    ProviderSettings {
        base_url: DEFAULT_OLLAMA_OPENAI_BASE_URL.to_string(),
        endpoint_routing: EndpointRoutingSettings {
            default_endpoint_name: "默认".to_string(),
            additional_endpoints: Vec::new(),
            chat_endpoint_id: "default".to_string(),
            embedding_endpoint_id: "default".to_string(),
            vision_endpoint_id: "default".to_string(),
        },
        chat_model: "chat-model".to_string(),
        chat_generation: default_generation(),
        embedding_model: "embed-model".to_string(),
        embedding_dimensions: 1024,
        vision_model: "vision-model".to_string(),
        remote_content_confirmed: false,
        allow_insecure_remote_http: false,
        confirmed_remote_endpoint: String::new(),
        request_timeout_secs: 120,
        web_search_enabled: false,
        web_search_url_template: "http://127.0.0.1:8080/search?q={query}&format=json".to_string(),
        web_search_method: "GET".to_string(),
        web_search_body_template: None,
        web_search_key_header: None,
        web_search_remote_confirmed: false,
        web_search_allow_insecure_http: false,
        web_search_confirmed_remote_endpoint: String::new(),
        web_search_timeout_secs: 10,
        web_search_max_results: 5,
        auto_run_background_jobs: false,
        background_job_concurrency: 1,
        background_job_interval_ms: 10,
        pdf_compact_reading: false,
        default_language: Some("zh-Hans".to_string()),
        translation_display_mode: TranslationDisplayMode::TranslationOnly,
        use_proxy: true,
    }
}

/// The normal form of an address.
fn canonical(url: &str) -> Option<String> {
    let url = url.trim();
    if url.starts_with("http://") || url.starts_with("https://") {
        Some(url.trim_end_matches('/').to_string())
    } else {
        None
    }
}

fn open_settings() -> AiSettingsWindow {
    AiSettingsWindow::new(&default_settings(), &vec![canonical(DEFAULT_OLLAMA_OPENAI_BASE_URL)])
}

fn currents(window: &AiSettingsWindow) -> Vec<Option<String>> {
    window.form.endpoints.iter().map(|endpoint| canonical(&endpoint.base_url)).collect()
}

fn is_number(value: &str) -> bool {
    value.trim().parse::<f32>().is_ok()
}

fn numbers(form: &GenerationForm) -> NumberChecks {
    NumberChecks {
        temperature: is_number(&form.temperature),
        top_p: is_number(&form.top_p),
        presence_penalty: is_number(&form.presence_penalty),
        frequency_penalty: is_number(&form.frequency_penalty),
    }
}

/// What the provider finds wrong with the parameters of chats.
fn verdict(form: &GenerationForm) -> Option<String> {
    let within = |value: &str, low: f32, high: f32| match value.trim().parse::<f32>() {
        Ok(number) => number.is_finite() && low <= number && number <= high,
        Err(_) => true,
    };
    if !within(&form.temperature, 0., 2.)
        || !within(&form.top_p, 0., 1.)
        || !within(&form.presence_penalty, -2., 2.)
        || !within(&form.frequency_penalty, -2., 2.)
        || form.max_output_tokens.trim().parse::<u32>() == Ok(0)
    {
        Some("out of range".to_string())
    } else {
        None
    }
}

fn generation(values: [&str; 5]) -> Result<ChatGenerationSettings, String> {
    let form = GenerationForm {
        temperature: values[0].to_string(),
        top_p: values[1].to_string(),
        max_output_tokens: values[2].to_string(),
        presence_penalty: values[3].to_string(),
        frequency_penalty: values[4].to_string(),
    };
    parse_chat_generation(&form, &numbers(&form), &verdict(&form))
}

fn entered(window: &AiSettingsWindow) -> Result<ProviderSettings, String> {
    let form = &window.form.models.generation;
    window.form.entered_settings(&numbers(form), &verdict(form), &limits())
}

fn save(window: &mut AiSettingsWindow, stored: Option<StoredEmbedding>) -> Option<Option<String>> {
    let checks = numbers(&window.form.models.generation);
    let found = verdict(&window.form.models.generation);
    window.save(&checks, &found, &limits(), &None, &stored).map(|task| task.confirmation)
}

#[test]
fn generation_text_parsing_supports_blank_options_and_rejects_invalid_drafts() {
    let empty_options = generation([" ", "", " 1 ", "", " "]).unwrap();
    assert_eq!(empty_options.temperature, None);
    assert_eq!(empty_options.top_p, None);
    assert_eq!(empty_options.presence_penalty, None);
    assert_eq!(empty_options.frequency_penalty, None);
    assert_eq!(empty_options.max_output_tokens, 1);
    for value in ["4097", "65536", "131072", "4294967295"] {
        assert_eq!(
            generation(["", "", value, "", ""]).unwrap().max_output_tokens,
            value.parse::<u32>().unwrap(),
        );
    }
    for invalid in ["", "0", "1.5", "-1", "NaN", "4294967296"] {
        assert!(generation(["", "", invalid, "", ""]).is_err());
    }
    for invalid in ["NaN", "inf", "-inf", "0,7", "abc", "2.1", "-0.1"] {
        assert!(generation([invalid, "", "4096", "", ""]).is_err());
    }
    assert!(generation(["", "1.1", "4096", "", ""]).is_err());
    assert!(generation(["", "", "4096", "-2.1", ""]).is_err());
    assert!(generation(["", "", "4096", "", "2.1"]).is_err());
}

#[test]
fn the_first_wrong_parameter_is_named() {
    assert_eq!(
        generation(["x", "y", "z", "", ""]),
        Err("温度（Temperature）必须是数字，或留空使用服务端默认值".to_string())
    );
    assert_eq!(
        generation(["", "y", "z", "", ""]),
        Err("核采样（Top P）必须是数字，或留空使用服务端默认值".to_string())
    );
    assert_eq!(
        generation(["", "", "z", "x", "x"]),
        Err("最大输出 token 数必须是有效的正整数".to_string())
    );
    assert_eq!(
        generation(["", "", "1", "x", "x"]),
        Err("出现惩罚（Presence Penalty）必须是数字，或留空使用服务端默认值".to_string())
    );
    assert_eq!(
        generation(["", "", "1", "", "x"]),
        Err("频率惩罚（Frequency Penalty）必须是数字，或留空使用服务端默认值".to_string())
    );
}

#[test]
fn background_job_scheduling_parsing_enforces_supported_ranges() {
    assert_eq!(
        parse_background_job_concurrency(" 1 ").unwrap(),
        MIN_BACKGROUND_JOB_CONCURRENCY
    );
    assert_eq!(
        parse_background_job_concurrency(&MAX_BACKGROUND_JOB_CONCURRENCY.to_string()).unwrap(),
        MAX_BACKGROUND_JOB_CONCURRENCY
    );
    let over_max = (MAX_BACKGROUND_JOB_CONCURRENCY + 1).to_string();
    for invalid in ["", "0", "-1", "1.5", "abc", over_max.as_str()] {
        assert!(
            parse_background_job_concurrency(invalid).is_err(),
            "invalid concurrency unexpectedly accepted: {invalid}"
        );
    }

    assert_eq!(parse_background_job_interval_ms("0").unwrap(), 0);
    assert_eq!(parse_background_job_interval_ms(" 10 ").unwrap(), 10);
    assert_eq!(
        parse_background_job_interval_ms(&MAX_BACKGROUND_JOB_INTERVAL_MS.to_string()).unwrap(),
        MAX_BACKGROUND_JOB_INTERVAL_MS
    );
    for invalid in ["", "-1", "1.5", "abc", "60001"] {
        assert!(
            parse_background_job_interval_ms(invalid).is_err(),
            "invalid interval unexpectedly accepted: {invalid}"
        );
    }
}

#[test]
fn limits_are_named_in_the_error() {
    assert_eq!(
        parse_background_job_concurrency("x"),
        Err("后台任务并发必须是 1 到 1024 之间的整数".to_string())
    );
    assert_eq!(
        parse_background_job_interval_ms("x"),
        Err("后台任务间隔必须是 0 到 60000 之间的整数毫秒".to_string())
    );
    assert_eq!(
        parse_request_timeout_secs("x"),
        Err("请求超时必须是 1 到 600 之间的整数秒数".to_string())
    );
    assert_eq!(
        parse_embedding_dimensions("8193", &limits()),
        Err("embedding 维度必须是 1 到 8192 之间的正整数".to_string())
    );
    assert_eq!(parse_embedding_dimensions(" 8192 ", &limits()), Ok(8192));
    assert_eq!(
        parse_web_search_timeout_secs("61", &limits()),
        Err("联网搜索超时必须是 1 到 60 之间的整数秒数".to_string())
    );
    assert_eq!(parse_web_search_timeout_secs("60", &limits()), Ok(60));
    assert_eq!(
        parse_web_search_max_results("0", &limits()),
        Err("联网搜索结果数必须是 1 到 10 之间的整数".to_string())
    );
    assert_eq!(parse_web_search_max_results("+3", &limits()), Ok(3));
}

#[test]
fn singleton_window_state_distinguishes_live_stale_and_reentrant_requests() {
    assert_eq!(
        existing_window_disposition(false, false, None::<u8>, false, |_| false),
        ExistingWindowDisposition::OpenNew
    );
    assert_eq!(
        existing_window_disposition(true, false, None::<u8>, false, |_| false),
        ExistingWindowDisposition::SuppressReentrantOpen
    );
    assert_eq!(
        existing_window_disposition(false, false, Some(7_u8), true, |handle| handle == 7),
        ExistingWindowDisposition::Activate(7)
    );
    assert_eq!(
        existing_window_disposition(false, false, Some(7_u8), false, |_| true),
        ExistingWindowDisposition::ClearStale(7)
    );
    assert_eq!(
        existing_window_disposition(false, false, Some(7_u8), true, |_| false),
        ExistingWindowDisposition::ClearStale(7)
    );
    assert_eq!(
        existing_window_disposition(false, true, Some(7_u8), true, |_| true),
        ExistingWindowDisposition::SuppressReentrantOpen
    );
}

#[test]
fn a_window_is_tracked_from_opening_to_closing() {
    let mut slot: Option<AiSettingsWindowTracker<&str>> = None;
    ensure_ai_settings_window_tracker(&mut slot);
    let tracker = slot.as_mut().unwrap();
    assert_eq!(tracker.activate_existing(true, &vec![]), ExistingWindowDisposition::OpenNew);
    tracker.begin_opening();
    assert_eq!(
        tracker.activate_existing(true, &vec![]),
        ExistingWindowDisposition::SuppressReentrantOpen
    );
    tracker.note_view("view");
    tracker.finish_opening(Some(9));
    assert_eq!(tracker.activate_existing(true, &vec![9]), ExistingWindowDisposition::Activate(9));
    tracker.begin_closing(8);
    assert!(!tracker.closing);
    tracker.begin_closing(9);
    assert_eq!(
        tracker.activate_existing(true, &vec![9]),
        ExistingWindowDisposition::SuppressReentrantOpen
    );
    assert_eq!(tracker.activate_existing(true, &vec![]), ExistingWindowDisposition::ClearStale(9));
    assert_eq!(tracker, &mut AiSettingsWindowTracker::default());
    ensure_ai_settings_window_tracker(&mut slot);
    let tracker = slot.as_mut().unwrap();
    tracker.begin_opening();
    tracker.finish_opening(None);
    assert_eq!(tracker.activate_existing(true, &vec![]), ExistingWindowDisposition::OpenNew);
}

#[test]
fn requests_for_windows_open_one_at_a_time() {
    let mut tracker: AiSettingsWindowTracker<u8> = AiSettingsWindowTracker::default();
    assert_eq!(tracker.request(true, true, &vec![]), WindowRequest::Nothing);
    assert_eq!(tracker.request(false, true, &vec![]), WindowRequest::Open);
    assert_eq!(tracker.request(false, true, &vec![]), WindowRequest::Nothing);
    tracker.note_view(1);
    tracker.finish_opening(Some(4));
    assert_eq!(
        tracker.request(false, true, &vec![3, 4]),
        WindowRequest::Activate { window: 4 }
    );
    assert_eq!(tracker.close(4, true, false), CloseAnswer::Stay);
    assert!(!tracker.closing);
    assert_eq!(tracker.close(4, false, false), CloseAnswer::Hide { remove: true });
    assert!(tracker.closing);
    assert_eq!(tracker.close(4, false, true), CloseAnswer::Hide { remove: false });
    assert_eq!(tracker.request(false, true, &vec![3]), WindowRequest::Open);
    assert_eq!(
        open_background_jobs_window(false, SingletonWindowReservation::Activate(5), true),
        WindowRequest::Retarget { window: 5 }
    );
    assert_eq!(
        open_background_jobs_window(false, SingletonWindowReservation::Activate(5), false),
        WindowRequest::Activate { window: 5 }
    );
    assert_eq!(
        open_background_jobs_window(false, SingletonWindowReservation::InFlight, true),
        WindowRequest::Nothing
    );
    assert_eq!(
        open_background_jobs_window(false, SingletonWindowReservation::Reserved, true),
        WindowRequest::Open
    );
    assert_eq!(
        open_background_jobs_window(true, SingletonWindowReservation::Reserved, true),
        WindowRequest::Nothing
    );
}

#[test]
fn api_key_input_has_explicit_keep_set_and_delete_semantics() {
    assert_eq!(api_key_update_for_input("", false), ApiKeyUpdate::Keep);
    assert_eq!(api_key_update_for_input("   ", false), ApiKeyUpdate::Keep);
    assert_eq!(
        api_key_update_for_input("new-secret", false),
        ApiKeyUpdate::Replace("new-secret".to_string())
    );
    assert_eq!(api_key_update_for_input("new-secret", true), ApiKeyUpdate::Delete);
}

#[test]
fn pull_guidance_is_only_generated_for_local_ollama() {
    let missing = vec!["chat-model".to_string(), "embed-model".to_string()];
    assert_eq!(
        ollama_pull_commands(DEFAULT_OLLAMA_OPENAI_BASE_URL, &missing),
        vec!["ollama pull chat-model".to_string(), "ollama pull embed-model".to_string()]
    );
    assert!(ollama_pull_commands("https://models.example.test/v1/", &missing).is_empty());
    assert_eq!(ollama_pull_commands("http://localhost:11434", &missing).len(), 2);
}

#[test]
fn another_port_is_no_local_ollama() {
    assert!(looks_like_local_ollama(" http://[::1]:11434/v1 "));
    assert!(!looks_like_local_ollama("http://localhost:11435"));
    assert!(!looks_like_local_ollama("http://localhost"));
    assert!(!looks_like_local_ollama("not a URL"));
}

#[test]
fn request_timeout_is_an_integer_within_the_provider_range() {
    assert_eq!(parse_request_timeout_secs("1").unwrap(), 1);
    assert_eq!(parse_request_timeout_secs(" 120 ").unwrap(), 120);
    assert_eq!(parse_request_timeout_secs("600").unwrap(), 600);
    for invalid in ["", "0", "601", "1.5", "-1", "ten", "18446744073709551616"] {
        assert!(parse_request_timeout_secs(invalid).is_err(), "{invalid:?} should be rejected");
    }
}

#[test]
fn an_address_is_told_by_its_normal_form() {
    assert_eq!(endpoint_draft_identity(" x ", &None), "x");
    assert_eq!(endpoint_draft_identity("x", &Some("y".to_string())), "y");
    assert_eq!(upper_case("Get ä1"), "GET ä1");
    assert!(is_search_method("post") && is_search_method("GET") && !is_search_method("PUT"));
    assert!(is_digits("") && is_digits("0123456789") && !is_digits("1.5"));
}

#[test]
fn settings_shown_and_saved_stay_as_they_are() {
    let window = open_settings();
    assert_eq!(entered(&window).unwrap(), default_settings());
    let mut more = default_settings();
    more.endpoint_routing.additional_endpoints.push(EndpointSettings {
        id: "second".to_string(),
        name: "另一个".to_string(),
        base_url: "https://models.example.test/v1".to_string(),
        request_timeout_secs: 600,
        remote_content_confirmed: true,
        allow_insecure_remote_http: false,
        confirmed_remote_endpoint: "https://models.example.test/v1".to_string(),
    });
    more.web_search_body_template = Some("{\"q\":\"{query}\"}".to_string());
    let window = AiSettingsWindow::new(&more, &vec![None, None]);
    assert_eq!(entered(&window).unwrap(), more);
    assert!(window
        .form
        .endpoints
        .iter()
        .all(|endpoint| endpoint.api_key_update() == ApiKeyUpdate::Keep));
}

#[test]
fn tab_clicks_preserve_unsaved_inputs_and_blur_hidden_fields() {
    let mut window = open_settings();
    let endpoint_draft = "http://127.0.0.1:18081/v1/";
    let model_draft = "draft-chat-model";
    let web_draft = "http://127.0.0.1:18082/search?q={query}&format=json";
    let key_draft = "fixture-only-unsaved-key";
    window.edit_base_url("default", endpoint_draft, &canonical(endpoint_draft));
    window.edit_api_key("default", key_draft);
    assert!(window.click_tab(1));
    assert!(!window.click_tab(1), "the tab is already shown");
    assert!(!window.click_tab(5), "there is no such tab");
    assert_eq!(window.active_tab, SettingsTab::Models);
    assert!(window.edit(FormField::ChatModel, model_draft));
    assert!(window.switch_tab(SettingsTab::WebSearch));
    assert!(window.edit(FormField::WebUrl, web_draft));
    window.switch_tab(SettingsTab::BackgroundJobs);
    window.set_auto_run_background_jobs(true);
    window.switch_tab(SettingsTab::System);
    window.set_pdf_compact_reading(true);
    window.set_use_proxy(false);
    for tab in [
        SettingsTab::Endpoint,
        SettingsTab::Models,
        SettingsTab::WebSearch,
        SettingsTab::BackgroundJobs,
        SettingsTab::System,
    ] {
        window.switch_tab(tab);
        assert_eq!(window.active_tab, tab);
        assert_eq!(SettingsTab::from_index(tab.index()), Some(tab));
        let entered = entered(&window).unwrap();
        assert_eq!(entered.base_url, endpoint_draft);
        assert_eq!(entered.chat_model, model_draft);
        assert_eq!(entered.web_search_url_template, web_draft);
        assert!(!entered.web_search_enabled);
        assert!(entered.auto_run_background_jobs);
        assert!(entered.pdf_compact_reading);
        assert!(!entered.use_proxy);
        assert_eq!(
            window.selected_endpoint().api_key_update(),
            ApiKeyUpdate::Replace(key_draft.into())
        );
    }
    assert_eq!(SettingsTab::Models.label(), "对话模型");
    assert_eq!(SettingsTab::System.selector(), "ai-settings-tab-system");
}

fn languages() -> Vec<LanguageOption> {
    vec![
        LanguageOption { tag: "zh-Hans".to_string(), label: "中文（简体）".to_string() },
        LanguageOption { tag: "ja".to_string(), label: "日本語".to_string() },
    ]
}

#[test]
fn system_tab_language_dropdown_updates_translation_draft() {
    let mut window = open_settings();
    assert!(window.switch_tab(SettingsTab::System));
    assert_eq!(window.form.application.default_language.as_deref(), Some("zh-Hans"));
    assert_eq!(window.render_system_panel(&languages(), "D:\\书库", "D:\\书库\\logs").language, "中文（简体）");
    window.set_default_language(&Some("ja".to_string()));
    assert_eq!(entered(&window).unwrap().default_language.as_deref(), Some("ja"));
    let panel = window.render_system_panel(&languages(), "D:\\书库", "D:\\书库\\logs");
    assert_eq!(panel.language, "日本語");
    assert_eq!(panel.storage[1], ("日志目录", "D:\\书库\\logs".to_string()));
    assert_eq!(
        panel.display_modes.iter().map(|item| (item.mode.label(), item.checked)).collect::<Vec<_>>(),
        vec![("译文", true), ("双语", false), ("原文", false)]
    );
    assert_eq!(
        panel.languages.iter().map(|item| item.checked).collect::<Vec<_>>(),
        vec![false, false, true]
    );
    window.set_default_language(&None);
    assert_eq!(window.render_system_panel(&languages(), "D:\\书库", "D:\\书库\\logs").language, "不翻译（仅原文）");
    window.set_translation_display_mode(TranslationDisplayMode::Bilingual);
    assert_eq!(window.render_system_panel(&languages(), "D:\\书库", "D:\\书库\\logs").display_mode, "双语");
}

#[test]
fn endpoint_switches_preserve_drafts_and_role_bindings_block_deletion() {
    let mut window = open_settings();
    window.edit_api_key("default", "fixture-default-key");
    window.add_endpoint(&canonical(""));
    assert_eq!(window.form.endpoints.len(), 2);
    let extra_id = window.selected_endpoint().id.clone();
    assert_ne!(extra_id, "default");
    assert_eq!(extra_id.len(), "endpoint-".len() + 32);
    assert!(extra_id.starts_with("endpoint-"));
    assert_ne!(extra_id, endpoint_identifier(&vec![0; 16]), "chance gave the bytes");
    assert_eq!(window.selected_endpoint().name, "Endpoint 2");
    assert!(!window.selected_endpoint().remote_content_confirmed);
    assert!(!window.selected_endpoint().allow_insecure_remote_http);
    assert_eq!(window.selected_endpoint().api_key_update(), ApiKeyUpdate::Keep);
    let url = "http://127.0.0.1:18082/v1/";
    window.edit_base_url(&extra_id, url, &canonical(url));
    window.edit_api_key(&extra_id, "fixture-extra-key");
    window.switch_tab(SettingsTab::Models);
    window.assign_endpoint(ModelRole::Embedding, &extra_id);
    let settings = entered(&window).unwrap();
    assert_eq!(settings.endpoint_routing.chat_endpoint_id, "default");
    assert_eq!(settings.endpoint_routing.embedding_endpoint_id, extra_id);
    assert_eq!(settings.endpoint_routing.vision_endpoint_id, "default");
    assert_eq!(settings.endpoint_routing.additional_endpoints[0].base_url, url);
    assert_eq!(window.render_role_panel(ModelRole::Embedding).address.as_deref(), Some(url));

    window.switch_tab(SettingsTab::Endpoint);
    window.delete_selected_endpoint();
    assert_eq!(window.form.endpoints.len(), 2);
    assert!(window.notice.as_ref().unwrap().error);
    assert_eq!(
        window.selected_endpoint().api_key_update(),
        ApiKeyUpdate::Replace("fixture-extra-key".into())
    );
    assert!(window.select_endpoint("default"));
    assert_eq!(
        window.selected_endpoint().api_key_update(),
        ApiKeyUpdate::Replace("fixture-default-key".into())
    );
    window.delete_selected_endpoint();
    assert_eq!(window.form.endpoints.len(), 2, "the default connection stays");

    window.assign_endpoint(ModelRole::Embedding, "default");
    window.select_endpoint(&extra_id);
    window.delete_selected_endpoint();
    assert_eq!(window.form.endpoints.len(), 1);
    assert_eq!(window.selected_endpoint_id, "default");
    assert!(!window.select_endpoint(&extra_id));
}

#[test]
fn identifiers_are_written_in_hexadecimal() {
    let mut window = open_settings();
    let bytes: Vec<u8> = vec![0, 1, 15, 16, 171, 255];
    assert_eq!(endpoint_identifier(&bytes), "endpoint-00010f10abff");
    window.add_endpoint_with(&Some(bytes), &canonical(""));
    assert_eq!(window.selected_endpoint_id, "endpoint-00010f10abff");
    window.delete_selected_endpoint();
    assert_eq!(entered(&window).unwrap(), default_settings());
    window.add_endpoint_with(&None, &canonical(""));
    assert_eq!(window.notice.as_ref().unwrap().text, "无法生成 Endpoint 标识，请重试。");
    assert_eq!(window.form.endpoints.len(), 1);
}

#[test]
fn endpoint_url_change_resets_only_its_authorization_key_and_detection() {
    let mut window = open_settings();
    let original = window.selected_endpoint().entered().unwrap();
    let asked = canonical(&original.base_url);
    {
        let endpoint = &mut window.form.endpoints[0];
        endpoint.remote_content_confirmed = true;
        endpoint.allow_insecure_remote_http = true;
        endpoint.confirmed_remote_endpoint = asked.clone().unwrap();
        endpoint.delete_api_key = true;
        endpoint.detected_models = Some(vec!["old-server-model".into()]);
    }
    // The same place written otherwise keeps everything.
    let same = "http://127.0.0.1:11434/v1";
    window.edit_base_url("default", same, &canonical(same));
    assert!(window.selected_endpoint().remote_content_confirmed);

    let other = "http://127.0.0.1:18083/v1/";
    window.edit_base_url("default", other, &canonical(other));
    let endpoint = window.selected_endpoint();
    assert!(!endpoint.remote_content_confirmed);
    assert!(!endpoint.allow_insecure_remote_http);
    assert!(endpoint.confirmed_remote_endpoint.is_empty());
    assert!(!endpoint.delete_api_key);
    assert!(endpoint.detected_models.is_none());
    assert_eq!(endpoint.api_key_update(), ApiKeyUpdate::Keep);
    assert!(!window.detection_matches(&original.id, 0, &asked, &currents(&window)));

    window.edit(FormField::MaxOutputTokens, "0");
    assert!(entered(&window).is_err());
    // Detecting the selected connection does not parse unrelated model parameters.
    let task = window.detect_models("default", &None).unwrap();
    assert_eq!(window.operation, PendingOperation::Detecting);
    let asked = canonical(&task.endpoint.base_url);
    let current = currents(&window);
    assert!(window.detection_matches(&task.endpoint.id, task.generation, &asked, &current));
    window.finish_detection(&task.endpoint, task.generation, &asked, &current, Ok(vec![]));
    assert_eq!(window.selected_endpoint().detected_models, Some(vec![]));
    assert_eq!(
        window.notice.as_ref().unwrap().text,
        "默认 连接成功，返回 0 个模型；可在各模型区域查看或选择。"
    );
}

#[test]
fn changing_endpoint_keys_or_retrying_detection_invalidates_only_its_models() {
    let mut window = open_settings();
    let endpoint = window.selected_endpoint().entered().unwrap();
    let other = EndpointSettings {
        id: "second-endpoint".into(),
        name: "另一个服务".into(),
        base_url: "http://127.0.0.1:18084/v1/".into(),
        ..endpoint.clone()
    };
    window.form.endpoints.push(EndpointDraft::new(&other, &canonical(&other.base_url)));
    window.form.endpoints[0].detected_models = Some(vec!["account-a-model".into()]);
    window.form.endpoints[1].detected_models = Some(vec!["other-server-model".into()]);
    let generation = window.form.endpoints[0].discovery_generation;
    let asked = canonical(&endpoint.base_url);

    window.edit_api_key("default", "fixture-account-b-key");
    assert!(window.form.endpoints[0].detected_models.is_none());
    assert!(!window.detection_matches("default", generation, &asked, &currents(&window)));
    assert_eq!(
        window.form.endpoints[1].detected_models,
        Some(vec!["other-server-model".to_string()])
    );
    window.form.endpoints[0].detected_models = Some(vec!["account-b-model".into()]);
    window.set_delete_endpoint_key("default", true);
    assert!(window.form.endpoints[0].detected_models.is_none());
    assert!(window.form.endpoints[0].api_key.is_empty());
    window.form.endpoints[0].detected_models = Some(vec!["anonymous-model".into()]);
    window.set_delete_endpoint_key("default", false);
    assert!(window.form.endpoints[0].detected_models.is_none());
    window.form.endpoints[0].detected_models = Some(vec!["cached-after-reset".into()]);
    window.edit_api_key("default", "fixture-account-c-key");
    assert!(window.form.endpoints[0].detected_models.is_none());

    window.form.endpoints[0].detected_models = Some(vec!["cached-before-failure".into()]);
    assert!(window.edit_request_timeout("default", "0"));
    assert!(!window.edit_request_timeout("default", "1.5"), "digits alone are taken");
    assert!(window.detect_models("default", &None).is_none());
    assert_eq!(window.operation, PendingOperation::Idle);
    assert!(window.notice.as_ref().unwrap().error);
    assert!(window.form.endpoints[0].detected_models.is_none());
    assert_eq!(
        window.form.endpoints[1].detected_models,
        Some(vec!["other-server-model".to_string()])
    );
}

#[test]
fn a_detection_that_fails_or_comes_late_is_told_or_dropped() {
    let mut window = open_settings();
    assert!(window.detect_models("missing", &None).is_none());
    assert!(window.detect_models("default", &Some("没有名称".to_string())).is_none());
    assert_eq!(window.notice.as_ref().unwrap().text, "AI Provider 设置无效：没有名称");
    let task = window.detect_models("default", &None).unwrap();
    assert_eq!(task.key, ApiKeyUpdate::Keep);
    let asked = canonical(&task.endpoint.base_url);
    let current = currents(&window);
    window.finish_detection(
        &task.endpoint,
        task.generation,
        &asked,
        &current,
        Err("拒绝连接".to_string()),
    );
    assert_eq!(
        window.notice.as_ref().unwrap().text,
        "无法读取 默认 的模型：拒绝连接。若使用本地 Ollama，请确认服务已运行。"
    );
    let task = window.detect_models("default", &None).unwrap();
    window.edit_api_key("default", "other");
    window.finish_detection(
        &task.endpoint,
        task.generation,
        &asked,
        &current,
        Ok(vec!["late".to_string()]),
    );
    assert_eq!(window.operation, PendingOperation::Idle);
    assert!(window.notice.is_none());
    assert!(window.form.endpoints[0].detected_models.is_none());
}

#[test]
fn detected_models_name_what_is_missing() {
    let mut window = open_settings();
    let task = window.detect_models("default", &None).unwrap();
    let asked = canonical(&task.endpoint.base_url);
    let current = currents(&window);
    window.finish_detection(
        &task.endpoint,
        task.generation,
        &asked,
        &current,
        Ok(vec!["chat-model".to_string(), "big".to_string()]),
    );
    let chat = window.render_role_panel(ModelRole::Chat).detection.unwrap();
    assert_eq!(chat.title, "默认 返回的模型（2）");
    assert_eq!(chat.missing, None);
    assert!(chat.commands.is_empty());
    let embedding = window.render_role_panel(ModelRole::Embedding);
    assert_eq!(embedding.dimensions.as_deref(), Some("1024"));
    let detection = embedding.detection.unwrap();
    assert_eq!(
        detection.missing.as_deref(),
        Some("当前模型未在此 Endpoint 的列表中：embed-model")
    );
    assert_eq!(detection.commands, vec!["ollama pull embed-model".to_string()]);
    window.choose_model(ModelRole::Embedding, "big");
    assert!(window.render_role_panel(ModelRole::Embedding).detection.unwrap().missing.is_none());
    assert!(window.render_endpoint_panel().detection.unwrap().disabled);
}

#[test]
fn generation_drafts_survive_tabs_and_invalid_save_then_reset() {
    let mut window = open_settings();
    window.switch_tab(SettingsTab::Models);
    for (field, value) in [
        (FormField::Temperature, "0.7"),
        (FormField::TopP, "0.8"),
        (FormField::MaxOutputTokens, "131072"),
        (FormField::PresencePenalty, "0.3"),
        (FormField::FrequencyPenalty, "-0.4"),
    ] {
        assert!(window.edit(field, value));
    }
    window.switch_tab(SettingsTab::Endpoint);
    let parameters = entered(&window).unwrap().chat_generation;
    assert_eq!(parameters.temperature.as_deref(), Some("0.7"));
    assert_eq!(parameters.top_p.as_deref(), Some("0.8"));
    assert_eq!(parameters.max_output_tokens, 131_072);
    assert_eq!(parameters.presence_penalty.as_deref(), Some("0.3"));
    assert_eq!(parameters.frequency_penalty.as_deref(), Some("-0.4"));

    window.switch_tab(SettingsTab::Models);
    window.edit(FormField::MaxOutputTokens, "0");
    assert!(save(&mut window, None).is_none());
    assert_eq!(window.operation, PendingOperation::Idle);
    assert!(window.notice.as_ref().is_some_and(|notice| notice.error));
    assert_eq!(window.form.models.generation.max_output_tokens, "0");

    window.edit(FormField::ChatModel, "preserved-model-draft");
    window.reset_chat_generation(&default_generation());
    let settings = entered(&window).unwrap();
    assert_eq!(settings.chat_generation, default_generation());
    assert_eq!(settings.chat_model, "preserved-model-draft");
    assert!(!window.notice.as_ref().unwrap().error);
}

#[test]
fn background_jobs_tab_scheduling_drafts_parse_without_saving() {
    let mut window = open_settings();
    window.switch_tab(SettingsTab::System);
    assert_eq!(window.active_tab, SettingsTab::System);
    match window.render_active_panel(&languages(), "d", "l") {
        // The remaining preferences; task scheduling has no place among them.
        ActivePanel::System(panel) => assert!(!panel.compact_reading),
        other => panic!("the system configuration is shown: {other:?}"),
    }
    window.switch_tab(SettingsTab::BackgroundJobs);
    assert_eq!(window.active_tab, SettingsTab::BackgroundJobs);
    match window.render_active_panel(&languages(), "d", "l") {
        ActivePanel::BackgroundJobs(panel) => {
            assert_eq!(panel.concurrency.label, "任务并发");
            assert_eq!(panel.interval.label, "任务间隔（毫秒）");
        }
        other => panic!("task scheduling must live on the background jobs tab: {other:?}"),
    }
    window.edit(FormField::JobConcurrency, "0");
    assert!(entered(&window).is_err(), "out-of-range concurrency must block saving");
    assert!(!window.edit(FormField::JobConcurrency, "x"));
    window.edit(FormField::JobConcurrency, "3");
    window.edit(FormField::JobInterval, "250");
    let settings = entered(&window).unwrap();
    assert_eq!(settings.background_job_concurrency, 3);
    assert_eq!(settings.background_job_interval_ms, 250);
    assert_eq!(default_settings().background_job_concurrency, 1);
    assert_eq!(default_settings().background_job_interval_ms, 10);
}

#[test]
fn tab_clicks_wait_for_detection_and_saving_to_finish() {
    let mut window = open_settings();
    for operation in [PendingOperation::Detecting, PendingOperation::Saving] {
        window.operation = operation;
        assert!(operation.busy());
        for tab in [
            SettingsTab::Models,
            SettingsTab::WebSearch,
            SettingsTab::BackgroundJobs,
            SettingsTab::System,
        ] {
            assert!(!window.switch_tab(tab));
            assert_eq!(window.operation, operation);
            assert_eq!(window.active_tab, SettingsTab::Endpoint);
        }
        assert!(window.render().tabs_disabled);
        assert_eq!(window.may_close(), operation == PendingOperation::Detecting);
    }
    window.operation = PendingOperation::Idle;
    assert!(window.switch_tab(SettingsTab::BackgroundJobs));
    assert_eq!(window.active_tab, SettingsTab::BackgroundJobs);
    assert_eq!(window.render().active_index, 3);
    assert_eq!(window.render().detect_label, None);
}

#[test]
fn other_vectors_are_asked_about_before_they_are_saved() {
    let stored = |model: &str, dimensions: usize| {
        Some(StoredEmbedding { model: model.to_string(), dimensions })
    };
    for (current, title) in [
        (stored("embed-model", 1024), None),
        (stored("old", 1024), Some("Embedding 模型已修改")),
        (stored("embed-model", 768), Some("向量维度已修改")),
        (stored("old", 768), Some("Embedding 模型与向量维度已修改")),
        (None, None),
    ] {
        let mut window = open_settings();
        assert_eq!(save(&mut window, current).unwrap().as_deref(), title);
        assert_eq!(window.operation, PendingOperation::Saving);
        assert_eq!(window.render().save_label, "正在保存…");
        assert!(save(&mut window, None).is_none(), "nothing else is started meanwhile");
    }
    let mut window = open_settings();
    save(&mut window, None);
    assert!(!window.finish_confirmation(false));
    assert_eq!(window.notice.as_ref().unwrap().text, "已取消保存，Embedding 设置未修改。");
    save(&mut window, None);
    assert!(window.finish_confirmation(true));
    assert!(!window.finish_save(&Some("磁盘已满".to_string())));
    assert_eq!(window.notice.as_ref().unwrap().text, "保存 Provider 设置失败：磁盘已满");
    save(&mut window, None);
    assert!(window.finish_save(&None));
    assert_eq!(window.operation, PendingOperation::Idle);
}

#[test]
fn saving_says_what_becomes_of_each_key() {
    let mut window = open_settings();
    window.add_endpoint_with(&Some(vec![1]), &canonical(""));
    window.edit_api_key("endpoint-01", "new");
    window.set_delete_endpoint_key("default", true);
    window.edit(FormField::WebApiKey, "web");
    let checks = numbers(&window.form.models.generation);
    let task = window.save(&checks, &None, &limits(), &None, &None).unwrap();
    assert_eq!(task.keys.len(), 2);
    assert_eq!(task.keys[0].endpoint_id, "default");
    assert_eq!(task.keys[0].update, ApiKeyUpdate::Delete);
    assert_eq!(task.keys[1].update, ApiKeyUpdate::Replace("new".to_string()));
    assert_eq!(task.web_key, ApiKeyUpdate::Replace("web".to_string()));
    let mut window = open_settings();
    assert!(window
        .save(&checks, &None, &limits(), &Some("路由无效".to_string()), &None)
        .is_none());
    assert_eq!(window.notice.as_ref().unwrap().text, "AI Provider 设置无效：路由无效");
}

#[test]
fn permissions_name_their_place() {
    let mut window = open_settings();
    window.confirm_remote("default", true, &Ok("https://a.test/".to_string()));
    window.allow_insecure_http("default", true);
    assert!(window.selected_endpoint().remote_content_confirmed);
    assert_eq!(window.selected_endpoint().confirmed_remote_endpoint, "https://a.test/");
    assert!(!window.render_endpoint_panel().insecure_disabled);
    window.confirm_remote("default", false, &Ok("https://a.test/".to_string()));
    assert!(!window.selected_endpoint().remote_content_confirmed);
    assert!(!window.selected_endpoint().allow_insecure_remote_http);
    window.confirm_remote("default", true, &Err("缺少协议".to_string()));
    assert!(!window.selected_endpoint().remote_content_confirmed);
    assert_eq!(window.notice.as_ref().unwrap().text, "Endpoint 无效，无法确认：缺少协议");

    window.set_web_search_enabled(true);
    window.confirm_web_remote(true, &Some("https://s.test/".to_string()));
    window.allow_web_insecure_http(true);
    assert!(window.render_web_search_panel().switches.remote_checked);
    assert_eq!(window.form.web.confirmed_remote_endpoint, "https://s.test/");
    window.confirm_web_remote(true, &None);
    assert!(!window.form.web.remote_confirmed);
    assert!(window.form.web.allow_insecure_http);
    assert_eq!(window.notice.as_ref().unwrap().text, "联网搜索端点无效，无法确认。");
    window.confirm_web_remote(false, &None);
    assert!(!window.form.web.allow_insecure_http);
    window.edit(FormField::WebApiKey, "key");
    window.set_delete_web_key(true);
    assert!(window.form.web.api_key.is_empty());
    assert!(window.render_web_search_panel().switches.key_disabled);
}

#[test]
fn the_panel_of_the_open_tab_is_shown() {
    let mut window = open_settings();
    let shown = |window: &AiSettingsWindow| window.render_active_panel(&languages(), "d", "l");
    assert!(matches!(shown(&window), ActivePanel::Endpoint(_)));
    window.switch_tab(SettingsTab::Models);
    match shown(&window) {
        ActivePanel::Models(panel) => {
            assert_eq!(panel.chat.heading, "对话模型 · Endpoint");
            assert_eq!(panel.generation[0].value, "0.1");
            assert_eq!(panel.generation[2].label, "最大输出 token 数");
        }
        other => panic!("the models are shown: {other:?}"),
    }
    window.switch_tab(SettingsTab::WebSearch);
    match shown(&window) {
        ActivePanel::WebSearch(panel) => {
            assert!(panel.switches.remote_disabled);
            assert_eq!(panel.fields[1].value, "GET");
            assert_eq!(panel.fields.len(), 6);
        }
        other => panic!("web searches are shown: {other:?}"),
    }
    window.switch_tab(SettingsTab::BackgroundJobs);
    match shown(&window) {
        ActivePanel::BackgroundJobs(panel) => {
            assert_eq!(panel.interval.value, "10");
            assert!(!panel.auto_run);
        }
        other => panic!("jobs are shown: {other:?}"),
    }
    window.switch_tab(SettingsTab::System);
    assert!(matches!(shown(&window), ActivePanel::System(_)));
}

#[test]
fn missing_numbers_keep_the_settings_from_being_saved() {
    let mut window = open_settings();
    window.edit(FormField::EmbeddingDimensions, "");
    window.edit(FormField::WebMaxResults, "99");
    assert_eq!(
        entered(&window).unwrap_err(),
        "联网搜索结果数必须是 1 到 10 之间的整数"
    );
    window.edit(FormField::WebMaxResults, "1");
    assert_eq!(
        entered(&window).unwrap_err(),
        "embedding 维度必须是 1 到 8192 之间的正整数"
    );
    window.form.endpoints[0].id = "renamed".to_string();
    assert_eq!(entered(&window).unwrap_err(), "缺少默认 Endpoint");
    window.edit_request_timeout("renamed", "601");
    assert_eq!(
        entered(&window).unwrap_err(),
        "请求超时必须是 1 到 600 之间的整数秒数"
    );
    window.edit_name("renamed", "新名称");
    assert_eq!(window.form.endpoints[0].name, "新名称");
}

#[test]
fn a_directory_that_holds_a_library_is_asked_about() {
    let mut window = open_settings();
    assert!(!window.change_data_directory(&Err("没有权限".to_string())));
    assert_eq!(window.notice.as_ref().unwrap().text, "无法定位目录设置文件：没有权限");
    assert!(window.change_data_directory(&Ok("bootstrap.json".to_string())));
    assert!(!window.change_data_directory(&Ok("bootstrap.json".to_string())));
    assert!(window
        .finish_choosing(&Ok(None), "bootstrap.json", "old")
        .is_none());
    let change = window
        .finish_choosing(&Ok(Some("new".to_string())), "bootstrap.json", "old")
        .unwrap();
    assert!(window.finish_preparing(change, &Ok(true)).is_none());
    assert_eq!(
        window.render_confirm_overwrite().as_deref(),
        Some("new 已经是一个图书库。继续会先删掉它的内容，再把当前数据目录的内容整体搬过去 —— 这一步不可撤销。")
    );
    window.refuse_overwrite();
    assert!(window.accept_overwrite().is_none());
    let change = || DataDirChange {
        target: "new".to_string(),
        config_path: "bootstrap.json".to_string(),
        from: "old".to_string(),
    };
    window.finish_preparing(change(), &Ok(true));
    assert_eq!(
        window.accept_overwrite(),
        Some(CommitTask { change: change(), overwrite: true })
    );
    assert!(window.choosing_data_directory);
    assert!(window.finish_commit(&None));
    assert!(window.finish_restart("new", &None));
    assert_eq!(
        window.finish_preparing(change(), &Ok(false)),
        Some(CommitTask { change: change(), overwrite: false })
    );
    assert!(window.notice.as_ref().unwrap().text.starts_with("正在把数据目录切换到 new，"));
    assert!(!window.finish_commit(&Some("只读".to_string())));
    assert_eq!(window.notice.as_ref().unwrap().text, "无法使用该目录：只读");
    assert!(!window.finish_restart("new", &Some("找不到程序".to_string())));
    assert!(window.notice.as_ref().unwrap().text.ends_with("自动重启失败：找不到程序"));
    window.finish_preparing(change(), &Err("只读".to_string()));
    assert_eq!(window.notice.as_ref().unwrap().text, "无法使用该目录：只读");
    window.finish_choosing(&Err("占用".to_string()), "bootstrap.json", "old");
    assert_eq!(window.notice.as_ref().unwrap().text, "无法打开目录选择器：占用");
    window.note_unopened_directory("数据目录", &Some("拒绝".to_string()));
    assert_eq!(window.notice.as_ref().unwrap().text, "无法打开数据目录：拒绝");
    window.note_unopened_directory("日志目录", &None);
    assert_eq!(
        window.notice.as_ref().unwrap().text,
        "当前平台不支持在文件管理器中打开日志目录。"
    );
}
