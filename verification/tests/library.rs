use emailbrain_backend::adapter::{resolve_adapter_path, AdapterWithMetadata};
use emailbrain_backend::chat::{
    chat_log_entry, jkca_completion, log_entry, status_is_success, truncate_for_log,
    AdapterFiles, Chat, ChatAction, ChatEvent, ChatRequest, ChatSettings, UpstreamReply,
    MAX_LOG_CHARS,
};
use emailbrain_backend::storage::{schema_missing, seed_rows};
use emailbrain_backend::config::{
    chat_max_tokens_setting,
    jkca_runtime_generate_url, lm_chat_url, pagination, parse_bind_addr, parse_chat_max_tokens,
    provider_or_default, InferenceProvider, ListQuery, DEFAULT_BIND_ADDR,
};
use emailbrain_backend::email::{
    check_email_id, email_not_found, receipt, trim_optional, validate_email_input,
    with_normalized_date, EmailInput,
};
use emailbrain_backend::error::{db_error, map_jkca_error, map_lmstudio_error, HttpFailure};
use emailbrain_backend::json::{
    extract_jkca_generated_text, extract_response_text, jkca_payload, lm_studio_payload,
    normalize_chat_response, parse_pointer_index, JsonValue,
};
use emailbrain_backend::origins::{configured_frontend_origins, local_origin_aliases};
use emailbrain_backend::text::{count_words, i64_to_string, parse_i64, trim_str};

fn s(v: &str) -> JsonValue {
    JsonValue::String(v.to_string())
}

fn obj(members: Vec<(&str, JsonValue)>) -> JsonValue {
    JsonValue::Object(members.into_iter().map(|(k, v)| (k.to_string(), v)).collect())
}

fn completion(text: &str) -> JsonValue {
    obj(vec![(
        "choices",
        JsonValue::Array(vec![obj(vec![("message", obj(vec![("content", s(text))]))])]),
    )])
}

fn settings(provider: InferenceProvider) -> ChatSettings {
    ChatSettings {
        inference_provider: provider,
        chat_max_tokens: 64,
        lm_studio_url: "http://lm:1234/".to_string(),
        jkca_app_base_url: "http://jkca:8100".to_string(),
        project_root: "/srv/emailbrain".to_string(),
    }
}

fn request(prompt: &str, adapter_id: Option<i64>) -> ChatRequest {
    ChatRequest { prompt: prompt.to_string(), adapter_id }
}

fn failure(connect: bool, timeout: bool, builder: bool, req: bool) -> HttpFailure {
    HttpFailure {
        is_connect: connect,
        is_timeout: timeout,
        is_builder: builder,
        is_request: req,
        description: "boom".to_string(),
    }
}

fn email(subject: &str, sender: &str, body: &str, date: &str) -> EmailInput {
    EmailInput {
        subject: subject.to_string(),
        sender: sender.to_string(),
        body: body.to_string(),
        date: date.to_string(),
        recipients: Some("  a@b.c  ".to_string()),
        thread_id: Some("   ".to_string()),
    }
}

#[test]
fn provider_names_are_trimmed_and_case_insensitive() {
    assert_eq!(InferenceProvider::parse(" JKCA-Agent ").unwrap(), InferenceProvider::Jkca);
    assert_eq!(InferenceProvider::parse("LM_Studio").unwrap(), InferenceProvider::LmStudio);
    assert_eq!(InferenceProvider::parse("lm-studio").unwrap(), InferenceProvider::LmStudio);
    assert_eq!(
        InferenceProvider::parse(" OpenAI ").unwrap_err(),
        "unsupported EMAILBRAIN_INFERENCE_PROVIDER 'openai' (expected 'jkca' or 'lmstudio')"
    );
}

#[test]
fn provider_names_round_trip() {
    for p in [InferenceProvider::Jkca, InferenceProvider::LmStudio] {
        assert_eq!(InferenceProvider::parse(p.as_str()).unwrap(), p);
    }
    assert_eq!(InferenceProvider::Jkca.as_str(), "jkca");
    assert_eq!(InferenceProvider::LmStudio.as_str(), "lmstudio");
}

#[test]
fn unknown_provider_falls_back_to_lm_studio() {
    let (p, warning) = provider_or_default("ollama");
    assert_eq!(p, InferenceProvider::LmStudio);
    assert_eq!(
        warning.unwrap(),
        "unsupported EMAILBRAIN_INFERENCE_PROVIDER 'ollama' (expected 'jkca' or 'lmstudio'); falling back to lmstudio"
    );
    assert_eq!(provider_or_default("jkca"), (InferenceProvider::Jkca, None));
}

#[test]
fn endpoints_drop_every_trailing_slash() {
    assert_eq!(lm_chat_url("http://h:1//"), "http://h:1/v1/chat/completions");
    assert_eq!(lm_chat_url("http://h:1"), "http://h:1/v1/chat/completions");
    assert_eq!(jkca_runtime_generate_url("http://j:2///"), "http://j:2/api/runtime/generate");
    assert_eq!(lm_chat_url(""), "/v1/chat/completions");
}

#[test]
fn chat_max_tokens_parsing() {
    assert_eq!(parse_chat_max_tokens(" 42 "), 42);
    assert_eq!(parse_chat_max_tokens("+7"), 7);
    assert_eq!(parse_chat_max_tokens("0"), 150);
    assert_eq!(parse_chat_max_tokens("-5"), 150);
    assert_eq!(parse_chat_max_tokens("99999999999999999999"), 150);
    assert_eq!(parse_chat_max_tokens("9223372036854775807"), i64::MAX);
    assert_eq!(parse_chat_max_tokens(""), 150);
    assert_eq!(parse_chat_max_tokens("1 2"), 150);
}

#[test]
fn bind_addr_is_kept_trimmed_when_valid() {
    assert_eq!(parse_bind_addr(" 127.0.0.1:8080 ", true), "127.0.0.1:8080");
    assert_eq!(parse_bind_addr(" 127.0.0.1:8080 ", false), DEFAULT_BIND_ADDR);
}

#[test]
fn pagination_defaults_and_clamps() {
    assert_eq!(pagination(ListQuery { limit: None, offset: None }), (100, 0));
    assert_eq!(pagination(ListQuery { limit: Some(0), offset: Some(-3) }), (1, 0));
    assert_eq!(pagination(ListQuery { limit: Some(500), offset: Some(7) }), (200, 7));
    assert_eq!(pagination(ListQuery { limit: Some(25), offset: Some(50) }), (25, 50));
}

#[test]
fn words_are_separated_by_unicode_white_space() {
    assert_eq!(count_words(""), 0);
    assert_eq!(count_words(" \t\n "), 0);
    assert_eq!(count_words("a\u{3000}b\u{a0}c"), 3);
    assert_eq!(count_words("  leading and trailing  "), 3);
    assert_eq!(trim_str("\u{2003} x y \u{85}"), "x y");
}

#[test]
fn decimal_text_of_integers() {
    assert_eq!(i64_to_string(0), "0");
    assert_eq!(i64_to_string(-42), "-42");
    assert_eq!(i64_to_string(i64::MIN), "-9223372036854775808");
    assert_eq!(parse_i64("-9223372036854775808"), Some(i64::MIN));
    assert_eq!(parse_i64("9223372036854775808"), None);
    assert_eq!(parse_i64("-"), None);
    assert_eq!(parse_i64("007"), Some(7));
    for n in [0i64, 1, -1, 1234567, i64::MAX, i64::MIN] {
        assert_eq!(parse_i64(&i64_to_string(n)), Some(n));
    }
}

#[test]
fn log_text_is_trimmed_and_cut() {
    assert_eq!(truncate_for_log("  hi  "), "hi");
    let exact = "y".repeat(MAX_LOG_CHARS);
    assert_eq!(truncate_for_log(&exact), exact);
    let long = format!("  {}z  ", "y".repeat(MAX_LOG_CHARS));
    let cut = truncate_for_log(&long);
    assert_eq!(cut.chars().count(), MAX_LOG_CHARS + 3);
    assert_eq!(cut, format!("{}...", "y".repeat(MAX_LOG_CHARS)));
    assert_eq!(truncate_for_log(&cut), cut);
}

#[test]
fn log_rows_keep_cut_texts_and_counts() {
    let e = log_entry("  p  ", " r ", 1, 2, Some(3));
    assert_eq!((e.prompt.as_str(), e.response.as_str(), e.tokens_in, e.tokens_out, e.adapter_id), ("p", "r", 1, 2, Some(3)));
    let row = chat_log_entry("two words", &completion("one two three"), None);
    assert_eq!((row.response.as_str(), row.tokens_in, row.tokens_out), ("one two three", 2, 3));
    let row = chat_log_entry("x", &obj(vec![("other", s("y"))]), Some(9));
    assert_eq!((row.response.as_str(), row.tokens_out, row.adapter_id), ("[non-text chat response]", 0, Some(9)));
    let row = chat_log_entry("x", &obj(vec![("generated_text", s(" a b "))]), None);
    assert_eq!((row.response.as_str(), row.tokens_out), ("a b", 2));
}

#[test]
fn allowed_origins_include_local_aliases_once() {
    assert_eq!(
        configured_frontend_origins("http://127.0.0.1:5173, https://localhost:8443 ,, "),
        vec![
            "http://127.0.0.1:5173",
            "http://localhost:5173",
            "https://localhost:8443",
            "https://127.0.0.1:8443"
        ]
    );
    assert_eq!(
        configured_frontend_origins("http://localhost:3900,http://127.0.0.1:3900"),
        vec!["http://localhost:3900", "http://127.0.0.1:3900"]
    );
    assert_eq!(configured_frontend_origins("https://example.com"), vec!["https://example.com"]);
}

#[test]
fn invalid_or_missing_origins_fall_back_to_default() {
    let default = vec!["http://localhost:3900", "http://127.0.0.1:3900"];
    assert_eq!(configured_frontend_origins(""), default);
    assert_eq!(configured_frontend_origins(" , "), default);
    assert_eq!(configured_frontend_origins("http://bad\u{7f}host"), default);
    assert_eq!(
        configured_frontend_origins("http://ok.example\t,http://bad\nhost"),
        vec!["http://ok.example"]
    );
}

#[test]
fn local_aliases_swap_both_ways() {
    assert_eq!(local_origin_aliases("http://localhost:1"), vec!["http://localhost:1", "http://127.0.0.1:1"]);
    assert_eq!(local_origin_aliases("http://127.0.0.1:1"), vec!["http://127.0.0.1:1", "http://localhost:1"]);
    assert_eq!(local_origin_aliases("https://127.0.0.1:9"), vec!["https://127.0.0.1:9", "https://localhost:9"]);
    assert_eq!(local_origin_aliases("http://localhost"), vec!["http://localhost"]);
}

#[test]
fn completion_text_is_read_from_first_choice() {
    assert_eq!(extract_response_text(&completion("hello")).as_deref(), Some("hello"));
    let numeric = obj(vec![(
        "choices",
        JsonValue::Array(vec![obj(vec![("message", obj(vec![("content", JsonValue::Number("1".into()))]))])]),
    )]);
    assert_eq!(extract_response_text(&numeric), None);
    assert_eq!(extract_response_text(&obj(vec![("choices", JsonValue::Array(vec![]))])), None);
}

#[test]
fn jkca_text_is_found_in_order_and_trimmed() {
    let nested = obj(vec![(
        "downstream",
        obj(vec![(
            "choices",
            JsonValue::Array(vec![obj(vec![("message", obj(vec![("content", s(" deep "))]))])]),
        )]),
    )]);
    assert_eq!(extract_jkca_generated_text(&nested).as_deref(), Some("deep"));
    let both = obj(vec![("text", s("top")), ("downstream", obj(vec![("generated_text", s("inner"))]))]);
    assert_eq!(extract_jkca_generated_text(&both).as_deref(), Some("inner"));
    let blank_first = obj(vec![("text", s("   ")), ("generated_text", s("x"))]);
    assert_eq!(extract_jkca_generated_text(&blank_first), None);
    let repeated = obj(vec![("text", s("old")), ("text", s("new"))]);
    assert_eq!(extract_jkca_generated_text(&repeated).as_deref(), Some("new"));
    assert_eq!(extract_jkca_generated_text(&JsonValue::Null), None);
}

#[test]
fn pointer_indexes_have_no_leading_zeros() {
    assert_eq!(parse_pointer_index("0"), Some(0));
    assert_eq!(parse_pointer_index("12"), Some(12));
    assert_eq!(parse_pointer_index("00"), None);
    assert_eq!(parse_pointer_index("+1"), None);
    assert_eq!(parse_pointer_index(""), None);
}

#[test]
fn normalized_completion_shape() {
    let raw = obj(vec![("downstream", obj(vec![("text", s("hi"))]))]);
    let got = normalize_chat_response("hi", "jkca-shared-runtime", Some(raw));
    let expected = obj(vec![
        ("object", s("chat.completion")),
        ("model", s("jkca-shared-runtime")),
        (
            "choices",
            JsonValue::Array(vec![obj(vec![
                ("index", JsonValue::Number("0".into())),
                ("message", obj(vec![("role", s("assistant")), ("content", s("hi"))])),
                ("finish_reason", s("stop")),
            ])]),
        ),
        ("provider_response", obj(vec![("downstream", obj(vec![("text", s("hi"))]))])),
    ]);
    assert_eq!(got, expected);
    assert_eq!(extract_response_text(&got).as_deref(), Some("hi"));
}

#[test]
fn request_bodies() {
    let lm = lm_studio_payload("  hello  ", 150, Some("/srv/a"));
    let expected = obj(vec![
        ("model", s("local-model")),
        ("messages", JsonValue::Array(vec![obj(vec![("role", s("user")), ("content", s("hello"))])])),
        ("temperature", JsonValue::Number("0.7".into())),
        ("max_tokens", JsonValue::Number("150".into())),
        ("lora", obj(vec![("adapter_path", s("/srv/a"))])),
    ]);
    assert_eq!(lm, expected);
    assert_eq!(
        jkca_payload(" q ", -2),
        obj(vec![("user_content", s("q")), ("max_tokens", JsonValue::Number("-2".into()))])
    );
}

#[test]
fn upstream_failures_map_to_statuses() {
    let e = map_lmstudio_error(&failure(true, true, true, true));
    assert_eq!((e.status, e.message.as_str()), (503, "Unable to connect to LM Studio server. Please ensure it's running on http://127.0.0.1:1234"));
    let e = map_lmstudio_error(&failure(false, true, false, false));
    assert_eq!((e.status, e.message.as_str()), (504, "Request to LM Studio server timed out"));
    let e = map_lmstudio_error(&failure(false, false, false, true));
    assert_eq!((e.status, e.message.as_str()), (502, "Invalid LM Studio request: boom"));
    let e = map_lmstudio_error(&failure(false, false, false, false));
    assert_eq!((e.status, e.message.as_str()), (500, "Unexpected HTTP error: boom"));
    let e = map_jkca_error(&failure(true, false, false, false));
    assert_eq!((e.status, e.message.as_str()), (503, "Unable to connect to JKCA runtime. Please ensure jkca-agent is running on http://127.0.0.1:8100"));
    let e = map_jkca_error(&failure(false, true, false, false));
    assert_eq!((e.status, e.message.as_str()), (504, "Request to JKCA runtime timed out"));
    let e = map_jkca_error(&failure(false, false, true, false));
    assert_eq!((e.status, e.message.as_str()), (502, "Invalid JKCA request: boom"));
    let e = map_jkca_error(&failure(false, false, false, false));
    assert_eq!((e.status, e.message.as_str()), (500, "Unexpected JKCA HTTP error: boom"));
    let e = db_error("disk I/O error");
    assert_eq!((e.status, e.message.as_str()), (500, "Database error occurred: disk I/O error"));
}

#[test]
fn success_statuses() {
    assert!(status_is_success(200));
    assert!(status_is_success(299));
    assert!(!status_is_success(199));
    assert!(!status_is_success(300));
}

#[test]
fn emails_are_checked_in_order_and_trimmed() {
    let e = validate_email_input(email(" ", " ", " ", " ")).unwrap_err();
    assert_eq!((e.status, e.message.as_str()), (400, "Email subject must not be empty"));
    let e = validate_email_input(email("s", "\n", "", "")).unwrap_err();
    assert_eq!(e.message, "Email sender must not be empty");
    let e = validate_email_input(email("s", "a", " ", "")).unwrap_err();
    assert_eq!(e.message, "Email body must not be empty");
    let e = validate_email_input(email("s", "a", "b", "  ")).unwrap_err();
    assert_eq!(e.message, "Email date must not be empty");
    let ok = validate_email_input(email(" Hi ", " me@x ", " body ", " 2024-01-02 ")).unwrap();
    assert_eq!(
        (ok.subject.as_str(), ok.sender.as_str(), ok.body.as_str(), ok.date.as_str()),
        ("Hi", "me@x", "body", "2024-01-02")
    );
    assert_eq!(ok.recipients.as_deref(), Some("a@b.c"));
    assert_eq!(ok.thread_id, None);
}

#[test]
fn dates_take_the_database_normal_form() {
    let base = || validate_email_input(email("s", "a", "b", " tomorrow ")).unwrap();
    let e = with_normalized_date(base(), Ok(None)).unwrap_err();
    assert_eq!((e.status, e.message.as_str()), (400, "Email date 'tomorrow' is not a supported timestamp"));
    let e = with_normalized_date(base(), Ok(Some(String::new()))).unwrap_err();
    assert_eq!(e.message, "Email date 'tomorrow' is not a supported timestamp");
    let e = with_normalized_date(base(), Err("locked".to_string())).unwrap_err();
    assert_eq!((e.status, e.message.as_str()), (500, "Database error occurred: locked"));
    let ok = with_normalized_date(base(), Ok(Some("2024-01-02T00:00:00Z".to_string()))).unwrap();
    assert_eq!(ok.date, "2024-01-02T00:00:00Z");
    assert_eq!(ok.subject, "s");
}

#[test]
fn optional_fields_vanish_when_blank() {
    assert_eq!(trim_optional(" x ".to_string()).as_deref(), Some("x"));
    assert_eq!(trim_optional("\t".to_string()), None);
}

#[test]
fn email_ids_and_receipts() {
    assert!(check_email_id(1).is_ok());
    let e = check_email_id(0).unwrap_err();
    assert_eq!((e.status, e.message.as_str()), (400, "Email ID must be a positive integer"));
    let e = email_not_found(-3);
    assert_eq!((e.status, e.message.as_str()), (404, "Email with ID -3 not found"));
    let r = receipt(email("s", "a", "b", "d"), 7, true);
    assert_eq!((r.message.as_str(), r.email_id), ("Email already exists", 7));
    let r = receipt(email("s", "a", "b", "d"), 8, false);
    assert_eq!(r.message, "Email received successfully");
}

#[test]
fn adapter_paths_stay_under_the_root() {
    assert_eq!(resolve_adapter_path("/tmp/project", "adapters/a").unwrap(), "/tmp/project/adapters/a");
    assert_eq!(resolve_adapter_path("/tmp/project/", "a").unwrap(), "/tmp/project/a");
    assert_eq!(resolve_adapter_path("", "a").unwrap(), "a");
    assert_eq!(resolve_adapter_path("/r", "a/..b/./c").unwrap(), "/r/a/..b/./c");
    let e = resolve_adapter_path("/r", "/etc/passwd").unwrap_err();
    assert_eq!((e.status, e.message.as_str()), (400, "Adapter path '/etc/passwd' must stay inside the project root"));
    assert!(resolve_adapter_path("/r", "a/../../b").is_err());
    assert!(resolve_adapter_path("/r", "a/..").is_err());
}

fn expect_fail(action: ChatAction, status: u16, message: &str) {
    match action {
        ChatAction::Fail(e) => assert_eq!((e.status, e.message.as_str()), (status, message)),
        other => panic!("expected a failure, got {:?}", matches!(other, ChatAction::Respond(_))),
    }
}

#[test]
fn blank_prompts_and_bad_adapter_ids_are_refused() {
    let (_, a) = Chat::new(settings(InferenceProvider::LmStudio), request(" \n ", None)).step(ChatEvent::Begin);
    expect_fail(a, 400, "Prompt must not be empty");
    let (_, a) = Chat::new(settings(InferenceProvider::LmStudio), request("hi", Some(0))).step(ChatEvent::Begin);
    expect_fail(a, 400, "Adapter ID must be a positive integer");
}

#[test]
fn base_chat_through_lm_studio() {
    let chat = Chat::new(settings(InferenceProvider::LmStudio), request(" say hi ", None));
    let (chat, action) = chat.step(ChatEvent::Begin);
    match action {
        ChatAction::Post { url, payload } => {
            assert_eq!(url, "http://lm:1234/v1/chat/completions");
            assert_eq!(payload, lm_studio_payload("say hi", 64, None));
        }
        _ => panic!("expected a post"),
    }
    let reply = UpstreamReply::Answered {
        status: 200,
        body: r#"{"choices": [{"message": {"content": "hi there"}}]}"#.to_string(),
    };
    let (chat, action) = chat.step(ChatEvent::Replied(reply));
    match action {
        ChatAction::StoreLog(row) => {
            assert_eq!((row.prompt.as_str(), row.response.as_str(), row.tokens_in, row.tokens_out), ("say hi", "hi there", 2, 2));
        }
        _ => panic!("expected a log row"),
    }
    let (_, action) = chat.step(ChatEvent::Logged { stored: false });
    match action {
        ChatAction::Respond(j) => assert_eq!(j, completion("hi there")),
        _ => panic!("expected an answer"),
    }
}

#[test]
fn base_chat_through_jkca_is_normalized() {
    let chat = Chat::new(settings(InferenceProvider::Jkca), request("q", None));
    let (chat, action) = chat.step(ChatEvent::Begin);
    match action {
        ChatAction::Post { url, payload } => {
            assert_eq!(url, "http://jkca:8100/api/runtime/generate");
            assert_eq!(payload, jkca_payload("q", 64));
        }
        _ => panic!("expected a post"),
    }
    let raw = obj(vec![("downstream", obj(vec![("text", s(" answer "))]))]);
    assert_eq!(raw, obj(vec![("downstream", obj(vec![("text", s(" answer "))]))]));
    let body = r#"{"downstream": {"text": " answer "}}"#.to_string();
    let reply = UpstreamReply::Answered { status: 201, body };
    let (chat, action) = chat.step(ChatEvent::Replied(reply));
    assert!(matches!(action, ChatAction::StoreLog(_)));
    let (_, action) = chat.step(ChatEvent::Logged { stored: true });
    let expected = jkca_completion(obj(vec![("downstream", obj(vec![("text", s(" answer "))]))])).unwrap();
    match action {
        ChatAction::Respond(j) => {
            assert_eq!(j, expected);
            assert_eq!(extract_response_text(&j).as_deref(), Some("answer"));
        }
        _ => panic!("expected an answer"),
    }
}

#[test]
fn reply_bodies_are_decoded_before_use() {
    let sent = || Chat::new(settings(InferenceProvider::LmStudio), request("hi", None)).step(ChatEvent::Begin).0;
    let body = r#"{"id": 7, "ok": true, "none": null, "choices": [{"message": {"content": "x"}}], "t": 0.5}"#;
    let (chat, _) = sent().step(ChatEvent::Replied(UpstreamReply::Answered { status: 200, body: body.to_string() }));
    let (_, action) = chat.step(ChatEvent::Logged { stored: true });
    let expected = obj(vec![
        ("choices", JsonValue::Array(vec![obj(vec![("message", obj(vec![("content", s("x"))]))])])),
        ("id", JsonValue::Number("7".into())),
        ("none", JsonValue::Null),
        ("ok", JsonValue::Bool(true)),
        ("t", JsonValue::Number("0.5".into())),
    ]);
    match action {
        ChatAction::Respond(j) => assert_eq!(j, expected),
        _ => panic!("expected an answer"),
    }
}

#[test]
fn jkca_reply_without_text_is_an_error() {
    let chat = Chat::new(settings(InferenceProvider::Jkca), request("q", None));
    let (chat, _) = chat.step(ChatEvent::Begin);
    let reply = UpstreamReply::Answered { status: 200, body: "{}".to_string() };
    let (_, action) = chat.step(ChatEvent::Replied(reply));
    expect_fail(action, 500, "JKCA runtime response did not include generated text");
}

fn adapter(path: &str) -> AdapterWithMetadata {
    AdapterWithMetadata { id: 4, name: "Inbox Concierge".to_string(), path: path.to_string() }
}

#[test]
fn adapter_chat_goes_to_lm_studio_with_lora() {
    let chat = Chat::new(settings(InferenceProvider::Jkca), request("hi", Some(4)));
    let (chat, action) = chat.step(ChatEvent::Begin);
    assert!(matches!(action, ChatAction::FetchAdapter { adapter_id: 4 }));
    let (chat, action) = chat.step(ChatEvent::AdapterFetched(Ok(Some(adapter("adapters/output/x")))));
    match action {
        ChatAction::CheckAdapterFiles { path } => assert_eq!(path, "/srv/emailbrain/adapters/output/x"),
        _ => panic!("expected a file check"),
    }
    let (_, action) = chat.step(ChatEvent::AdapterChecked(AdapterFiles::Present));
    match action {
        ChatAction::Post { url, payload } => {
            assert_eq!(url, "http://lm:1234/v1/chat/completions");
            assert_eq!(payload, lm_studio_payload("hi", 64, Some("/srv/emailbrain/adapters/output/x")));
        }
        _ => panic!("expected a post"),
    }
}

#[test]
fn adapter_lookup_and_file_problems() {
    let start = || Chat::new(settings(InferenceProvider::LmStudio), request("hi", Some(12))).step(ChatEvent::Begin).0;
    let (_, a) = start().step(ChatEvent::AdapterFetched(Ok(None)));
    expect_fail(a, 404, "LoRA adapter with ID 12 not found");
    let (_, a) = start().step(ChatEvent::AdapterFetched(Err("no such table: adapters".to_string())));
    expect_fail(a, 500, "Database error occurred: no such table: adapters");
    let (_, a) = start().step(ChatEvent::AdapterFetched(Ok(Some(adapter("../x")))));
    expect_fail(a, 400, "Adapter path '../x' must stay inside the project root");
    let checking = || start().step(ChatEvent::AdapterFetched(Ok(Some(adapter("a"))))).0;
    let (_, a) = checking().step(ChatEvent::AdapterChecked(AdapterFiles::Missing));
    expect_fail(a, 404, "LoRA adapter file not found at /srv/emailbrain/a");
    let (_, a) = checking().step(ChatEvent::AdapterChecked(AdapterFiles::EmptyDirectory));
    expect_fail(a, 400, "LoRA adapter directory is empty at /srv/emailbrain/a");
    let (_, a) = checking().step(ChatEvent::AdapterChecked(AdapterFiles::Unreadable("denied".to_string())));
    expect_fail(a, 500, "Failed to inspect adapter directory /srv/emailbrain/a: denied");
}

#[test]
fn upstream_problems_end_the_chat() {
    let sent = || Chat::new(settings(InferenceProvider::LmStudio), request("hi", None)).step(ChatEvent::Begin).0;
    let (_, a) = sent().step(ChatEvent::Replied(UpstreamReply::Failed(failure(true, false, false, false))));
    expect_fail(a, 503, "Unable to connect to LM Studio server. Please ensure it's running on http://127.0.0.1:1234");
    let reply = UpstreamReply::Answered { status: 500, body: "overloaded".to_string() };
    let (_, a) = sent().step(ChatEvent::Replied(reply));
    expect_fail(a, 502, "LM Studio API error: overloaded");
    let reply = UpstreamReply::Answered { status: 200, body: "<html>".to_string() };
    let (_, a) = sent().step(ChatEvent::Replied(reply));
    expect_fail(a, 502, "Failed to decode LM Studio response: expected value at line 1 column 1");
    let jkca = || Chat::new(settings(InferenceProvider::Jkca), request("hi", None)).step(ChatEvent::Begin).0;
    let reply = UpstreamReply::Answered { status: 404, body: "nope".to_string() };
    let (_, a) = jkca().step(ChatEvent::Replied(reply));
    expect_fail(a, 502, "JKCA runtime API error: nope");
    let (_, a) = jkca().step(ChatEvent::Replied(UpstreamReply::Failed(failure(false, true, false, false))));
    expect_fail(a, 504, "Request to JKCA runtime timed out");
}

#[test]
fn chats_only_take_the_awaited_event() {
    let chat = Chat::new(settings(InferenceProvider::LmStudio), request("hi", None));
    assert!(chat.expects(&ChatEvent::Begin));
    assert!(!chat.expects(&ChatEvent::Logged { stored: true }));
    let (chat, _) = chat.step(ChatEvent::Begin);
    assert!(!chat.expects(&ChatEvent::Begin));
    assert!(chat.expects(&ChatEvent::Replied(UpstreamReply::Failed(failure(false, false, false, false)))));
}

#[test]
fn trimming_twice_is_trimming_once() {
    for v in ["  a b  ", "\u{3000}x\u{3000}", "", "   ", "plain"] {
        assert_eq!(trim_str(&trim_str(v)), trim_str(v));
    }
}

#[test]
fn default_max_tokens_text_reads_back() {
    assert_eq!(parse_chat_max_tokens(&i64_to_string(150)), 150);
    assert_eq!(parse_chat_max_tokens(&i64_to_string(4096)), 4096);
}

#[test]
fn resolved_adapter_paths_start_with_the_root() {
    for (root, rel) in [("/srv/app", "adapters/x"), ("/srv/app/", "x/y"), ("", "z")] {
        let resolved = resolve_adapter_path(root, rel).unwrap();
        assert!(resolved.starts_with(root));
        assert!(resolved.ends_with(rel));
    }
}

#[test]
fn base_chat_with_lm_studio_configured_never_reaches_jkca() {
    let (_, action) = Chat::new(settings(InferenceProvider::LmStudio), request("hi", None)).step(ChatEvent::Begin);
    match action {
        ChatAction::Post { url, .. } => assert_eq!(url, "http://lm:1234/v1/chat/completions"),
        _ => panic!("expected a post"),
    }
}

#[test]
fn adapter_chat_ends_within_five_steps() {
    let mut chat = Chat::new(settings(InferenceProvider::Jkca), request("hi", Some(4)));
    let mut event = ChatEvent::Begin;
    let mut steps = 0;
    loop {
        assert!(chat.expects(&event));
        let (next, action) = chat.step(event);
        chat = next;
        steps += 1;
        event = match action {
            ChatAction::FetchAdapter { .. } => ChatEvent::AdapterFetched(Ok(Some(adapter("a")))),
            ChatAction::CheckAdapterFiles { .. } => ChatEvent::AdapterChecked(AdapterFiles::Present),
            ChatAction::Post { .. } => ChatEvent::Replied(UpstreamReply::Answered {
                status: 200,
                body: r#"{"choices": [{"message": {"content": "ok"}}]}"#.to_string(),
            }),
            ChatAction::StoreLog(row) => {
                assert_eq!(row.adapter_id, Some(4));
                ChatEvent::Logged { stored: true }
            }
            ChatAction::Respond(reply) => {
                assert_eq!(reply, completion("ok"));
                break;
            }
            ChatAction::Fail(e) => panic!("unexpected failure {}", e.message),
        };
    }
    assert_eq!(steps, 5);
    assert!(!chat.expects(&ChatEvent::Begin));
}

#[test]
fn empty_tables_get_seed_rows() {
    let (email, adapter) = seed_rows(0, 0);
    let email = email.unwrap();
    assert_eq!(email.subject, "Welcome to EmailBrain");
    assert_eq!(email.sender, "system@emailbrain.local");
    assert_eq!(
        email.body,
        "EmailBrain is ready. Connect the Swift Mail app or POST to /api/v1/emails to ingest real messages."
    );
    assert_eq!(email.recipients, "you@emailbrain.local");
    assert_eq!(email.thread_id, "seed-welcome");
    assert_eq!(
        adapter,
        Some(("Inbox Concierge".to_string(), "adapters/output/inbox-concierge".to_string(), 4096))
    );
    let (email, adapter) = seed_rows(3, 0);
    assert!(email.is_none() && adapter.is_some());
    let (email, adapter) = seed_rows(0, 1);
    assert!(email.is_some() && adapter.is_none());
    assert!(schema_missing(3));
    assert!(!schema_missing(4));
}

#[test]
fn word_counts_add_up_over_joined_text() {
    for (a, b) in [("one two", "three"), ("", "x"), ("a ", " b"), ("", ""), ("x\t", "y z")] {
        assert_eq!(count_words(&format!("{a} {b}")), count_words(a) + count_words(b));
    }
}

#[test]
fn invalid_max_tokens_setting_warns() {
    assert_eq!(chat_max_tokens_setting(" 64 "), (64, None));
    assert_eq!(
        chat_max_tokens_setting("oops"),
        (150, Some("invalid EMAILBRAIN_CHAT_MAX_TOKENS 'oops'; falling back to 150".to_string()))
    );
    assert_eq!(chat_max_tokens_setting("0").1.is_some(), true);
}

#[test]
fn provider_names_read_back_in_any_case_with_padding() {
    for p in [InferenceProvider::Jkca, InferenceProvider::LmStudio] {
        let spelled = format!(" \t {} \n", p.as_str().to_uppercase());
        assert_eq!(InferenceProvider::parse(&spelled).unwrap(), p);
    }
}
