use model_router::config::{AppConfig, AuthType, Provider, ProviderFormat, Providers, Route};
use model_router::json::Json;
use model_router::proxy::bodies::{is_normalizable, normalize_roles, strip_thinking};
use model_router::proxy::errors::{is_retryable, ProxyError};
use model_router::proxy::failover::{After, Failover};
use model_router::proxy::forward::{
    count_tokens_body, forward_body, is_forwardable, read_request, timeout_seconds,
};
use model_router::proxy::headers::{forward_client_headers, Header};
use model_router::proxy::replies::{
    answer, answer_at, parse_body, parse_upstream_json, stream_way, StreamWay,
};
use model_router::proxy::routing::{find_candidate_routes, request_tag, resolve_tag_from_model};
use model_router::proxy::session::{Session, Step};
use model_router::proxy::streams::{ModelStream, PassStream};
use model_router::proxy::trial::{trial_body, Trial, TrialAnswer};

fn json(s: &str) -> Json {
    Json::parse(s).expect("JSON")
}

fn at<'a>(v: &'a Json, path: &[&str]) -> &'a Json {
    let mut v = v;
    for key in path {
        v = match (v.as_array(), key.parse::<usize>()) {
            (Some(items), Ok(i)) => &items[i],
            _ => v.get(key).expect("a value under the key"),
        };
    }
    v
}

fn text<'a>(v: &'a Json, path: &[&str]) -> &'a str {
    at(v, path).as_str().expect("a string")
}

fn array(v: &Json) -> &Vec<Json> {
    v.as_array().expect("an array")
}

#[test]
fn test_normalize_roles_converts_system_to_user() {
    let mut body = json(
        r#"{
        "model": "test",
        "messages": [
            {"role": "system", "content": "You are helpful"},
            {"role": "user", "content": "Hello"},
            {"role": "assistant", "content": "Hi"}
        ]
    }"#,
    );
    normalize_roles(&mut body);
    let messages = array(at(&body, &["messages"]));
    assert_eq!(text(&messages[0], &["role"]), "user");
    assert_eq!(text(&messages[1], &["role"]), "user");
    assert_eq!(text(&messages[2], &["role"]), "assistant");
}

#[test]
fn test_normalize_roles_preserves_user_and_assistant() {
    let mut body = json(
        r#"{
        "model": "test",
        "messages": [
            {"role": "user", "content": "Hello"},
            {"role": "assistant", "content": "Hi"}
        ]
    }"#,
    );
    normalize_roles(&mut body);
    let messages = array(at(&body, &["messages"]));
    assert_eq!(text(&messages[0], &["role"]), "user");
    assert_eq!(text(&messages[1], &["role"]), "assistant");
}

#[test]
fn test_normalize_roles_with_tool_messages() {
    let mut body = json(
        r#"{
        "model": "test",
        "messages": [
            {"role": "system", "content": "system prompt"},
            {"role": "user", "content": "user msg"},
            {"role": "assistant", "content": [{"type": "tool_use", "name": "bash"}]},
            {"role": "user", "content": [{"type": "tool_result"}]}
        ]
    }"#,
    );
    normalize_roles(&mut body);
    let messages = array(at(&body, &["messages"]));
    assert_eq!(text(&messages[0], &["role"]), "user", "system should become user");
    assert_eq!(text(&messages[1], &["role"]), "user");
    assert_eq!(text(&messages[2], &["role"]), "assistant");
    assert_eq!(text(&messages[3], &["role"]), "user");
}

#[test]
fn test_strip_thinking_array_content() {
    let mut body = json(
        r#"{
        "messages": [
            {"role": "assistant", "content": [
                {"type": "thinking", "thinking": "inner monologue"},
                {"type": "text", "text": "Hello"}
            ]}
        ]
    }"#,
    );
    strip_thinking(&mut body);
    let content = array(at(&body, &["messages", "0", "content"]));
    assert_eq!(content.len(), 1);
    assert_eq!(text(&content[0], &["type"]), "text");
}

#[test]
fn test_strip_thinking_string_content_noop() {
    let mut body = json(
        r#"{
        "messages": [
            {"role": "assistant", "content": "plain text response"}
        ]
    }"#,
    );
    strip_thinking(&mut body);
    assert_eq!(text(&body, &["messages", "0", "content"]), "plain text response");
}

#[test]
fn test_resolve_tag_codex_models() {
    // Codex model names and their tags
    assert_eq!(resolve_tag_from_model("gpt-5.5"), Some("opus".to_string()));
    assert_eq!(resolve_tag_from_model("gpt-5.4"), Some("sonnet".to_string()));
    assert_eq!(resolve_tag_from_model("gpt-5.3-codex"), Some("sonnet".to_string()));
    assert_eq!(resolve_tag_from_model("gpt-5.4-mini"), Some("haiku".to_string()));
    assert_eq!(resolve_tag_from_model("gpt-5.2"), Some("haiku".to_string()));
}

#[test]
fn test_resolve_tag_direct_matches() {
    // Direct tag name matches
    assert_eq!(resolve_tag_from_model("opus"), Some("opus".to_string()));
    assert_eq!(resolve_tag_from_model("sonnet"), Some("sonnet".to_string()));
    assert_eq!(resolve_tag_from_model("haiku"), Some("haiku".to_string()));
    assert_eq!(resolve_tag_from_model("auto"), None);
}

#[test]
fn test_resolve_tag_provider_heuristics() {
    assert_eq!(resolve_tag_from_model("glm-5.1"), Some("sonnet".to_string()));
    assert_eq!(resolve_tag_from_model("deepseek-v4-pro"), Some("haiku".to_string()));
    assert_eq!(resolve_tag_from_model("k2.6"), Some("sonnet".to_string()));
}

#[test]
fn test_resolve_tag_unknown() {
    // Unknown model names should return None (falls back to current_tag)
    assert_eq!(resolve_tag_from_model("some-random-model"), None);
    assert_eq!(resolve_tag_from_model(""), None);
}

#[test]
fn messages_at_every_depth_are_fixed() {
    let mut body = json(
        r#"{"batch": [{"messages": [
            {"role": "tool", "content": null},
            {"role": "developer", "content": {"a": 1}},
            {"role": "user"},
            null
        ]}]}"#,
    );
    assert!(is_normalizable(&body));
    normalize_roles(&mut body);
    assert_eq!(
        body.to_text(),
        json(
            r#"{"batch": [{"messages": [
                {"role": "assistant", "content": ""},
                {"role": "user", "content": [{"type": "text", "text": "{\"a\":1}"}]},
                {"role": "user", "content": ""},
                {"content": ""}
            ]}]}"#
        )
        .to_text()
    );
    assert!(!is_normalizable(&json(r#"{"messages": ["text"]}"#)));
    assert!(!is_normalizable(&json(r#"[{"messages": [1]}]"#)));
}

#[test]
fn only_the_thinking_of_assistants_goes() {
    let mut body = json(
        r#"{"messages": [
            {"role": "user", "content": [{"type": "thinking"}, {"type": "text"}]},
            {"role": "assistant", "content": [{"type": "thinking"}, {"type": "text"},
                {"type": "tool_result", "messages": [
                    {"role": "assistant", "content": [{"type": "thinking"}]}
                ]}]}
        ], "content": [{"type": "thinking"}]}"#,
    );
    strip_thinking(&mut body);
    assert_eq!(
        body.to_text(),
        json(
            r#"{"messages": [
                {"role": "user", "content": [{"type": "thinking"}, {"type": "text"}]},
                {"role": "assistant", "content": [{"type": "text"},
                    {"type": "tool_result", "messages": [
                        {"role": "assistant", "content": []}
                    ]}]}
            ], "content": [{"type": "thinking"}]}"#
        )
        .to_text()
    );
}

#[test]
fn the_case_of_a_model_name_does_not_matter() {
    assert_eq!(resolve_tag_from_model("Some-OPUS-4-8"), Some("opus".to_string()));
    assert_eq!(resolve_tag_from_model("KIMI/K2"), Some("sonnet".to_string()));
    assert_eq!(request_tag("some-random-model", "haiku"), "haiku");
    assert_eq!(request_tag("some-sonnet-4-6", "haiku"), "sonnet");
}

fn route(model: &str, provider: &str, tags: &[&str], enabled: bool) -> Route {
    Route {
        endpoint: "/v1/messages".into(),
        model: model.into(),
        provider: provider.into(),
        tags: tags.iter().map(|t| t.to_string()).collect(),
        format: ProviderFormat::Anthropic,
        enabled,
    }
}

fn models(routes: &[Route]) -> Vec<&str> {
    routes.iter().map(|r| r.model.as_str()).collect()
}

#[test]
fn candidates_fall_back_to_auto_and_then_to_all() {
    let mut routes = vec![
        route("a", "p", &["opus"], true),
        route("b", "p", &["auto"], true),
        route("c", "p", &["opus", "auto"], true),
        route("d", "p", &["opus"], false),
    ];
    assert_eq!(models(&find_candidate_routes(&routes, "opus")), vec!["a", "c"]);
    assert_eq!(models(&find_candidate_routes(&routes, "haiku")), vec!["b", "c"]);
    routes[1].enabled = false;
    routes[2].enabled = false;
    assert_eq!(models(&find_candidate_routes(&routes, "haiku")), vec!["a"]);
    routes[0].enabled = false;
    assert!(find_candidate_routes(&routes, "haiku").is_empty());
}

#[test]
fn errors_have_a_text_a_status_and_a_body() {
    let e = ProxyError::NoRoute("opus".into());
    assert_eq!(e.message(), "no route for tag 'opus'");
    assert_eq!(e.status(), 400);
    assert_eq!(e.body().to_text(), r#"{"error":"no route for tag 'opus'"}"#);
    let e = ProxyError::NoProvider("kimi".into());
    assert_eq!(e.message(), "provider 'kimi' not found");
    assert_eq!(e.status(), 400);
    let e = ProxyError::Upstream("Connection reset".into());
    assert_eq!(e.message(), "upstream error: Connection reset");
    assert_eq!(e.status(), 502);
    assert!(is_retryable(&e));
    assert!(is_retryable(&ProxyError::Upstream("HTTP 503: busy".into())));
    assert!(is_retryable(&ProxyError::Upstream("HTTP 501: Not Implemented".into())));
    assert!(is_retryable(&ProxyError::Upstream("HTTP 599: ?".into())));
    assert!(!is_retryable(&ProxyError::Upstream("HTTP 404: no".into())));
    assert!(!is_retryable(&ProxyError::Upstream("HTTP 5x1: no".into())));
    assert!(!is_retryable(&ProxyError::NoProvider("connection".into())));
}

fn header(name: &str, value: &str) -> Header {
    Header { name: name.into(), value: Some(value.into()) }
}

#[test]
fn headers_with_keys_end_at_the_proxy() {
    let headers = vec![
        header("Host", "127.0.0.1"),
        header("Authorization", "Bearer local"),
        header("X-Api-Key", "local"),
        header("anthropic-version", "2023-06-01"),
        header("Anthropic-Beta", "interleaved-thinking-2025-05-14 , tools-2024-04-04, fine"),
        Header { name: "x-binary".into(), value: None },
    ];
    assert_eq!(
        forward_client_headers(&headers),
        vec![
            ("anthropic-version".to_string(), "2023-06-01".to_string()),
            ("anthropic-beta".to_string(), "tools-2024-04-04, fine".to_string()),
        ]
    );
    let headers = vec![header("anthropic-beta", "thinking")];
    assert!(forward_client_headers(&headers).is_empty());
}

fn config() -> AppConfig {
    let mut providers = Providers::new();
    providers.insert(
        "good",
        Provider {
            name: "Good".into(),
            base_url: "https://good.example//".into(),
            api_key: "secret".into(),
            auth_type: AuthType::XApiKey,
        },
    );
    providers.insert(
        "other",
        Provider {
            name: "Other".into(),
            base_url: "https://other.example".into(),
            api_key: "secret2".into(),
            auth_type: AuthType::Bearer,
        },
    );
    providers.insert(
        "keyless",
        Provider {
            name: "Keyless".into(),
            base_url: "https://keyless.example".into(),
            api_key: "sk-your-key".into(),
            auth_type: AuthType::Bearer,
        },
    );
    AppConfig {
        port: 8083,
        providers,
        routes: vec![
            route("m0", "missing", &["opus"], true),
            route("m1", "good", &["opus"], true),
            route("m2", "keyless", &["opus"], true),
            route("m3", "other", &["opus"], true),
            route("m4", "keyless", &["opus"], true),
        ],
        tags: Vec::new(),
        current_tag: "auto".into(),
        management_key: "k".into(),
    }
}

#[test]
fn routes_are_tried_in_their_order() {
    let config = config();
    let mut failover = Failover::new(&config.routes, "opus");
    let attempt = failover.next(&config.providers, "").unwrap();
    assert_eq!(attempt.url, "https://good.example/v1/messages");
    assert_eq!(attempt.auth_name, "x-api-key");
    assert_eq!(attempt.auth_value, "secret");
    assert_eq!(attempt.provider_name, "Good");
    assert_eq!(attempt.model, "m1");
    assert!(matches!(failover.connection_failed("dns error"), After::TryNext));
    let attempt = failover.next(&config.providers, "/count_tokens").unwrap();
    assert_eq!(attempt.url, "https://other.example/v1/messages/count_tokens");
    assert_eq!(attempt.auth_value, "Bearer secret2");
    assert!(failover.refused(503, "busy"));
    let error = failover.next(&config.providers, "").err().unwrap();
    assert_eq!(
        error.message(),
        "provider 'provider 'keyless' has no valid API key configured' not found"
    );
}

#[test]
fn the_last_error_is_the_one_that_is_told() {
    let mut config = config();
    config.routes.truncate(4);
    let mut failover = Failover::new(&config.routes, "opus");
    failover.next(&config.providers, "").unwrap();
    assert!(!failover.refused(404, "not here"));
    failover.next(&config.providers, "").unwrap();
    let long = "x".repeat(300);
    assert!(failover.refused(500, &long));
    let error = failover.next(&config.providers, "").err().unwrap();
    assert_eq!(error.message(), format!("upstream error: HTTP 500: {}", "x".repeat(200)));
    match failover.connection_failed("bad certificate") {
        After::Stop(e) => assert_eq!(e.message(), "upstream error: bad certificate"),
        After::TryNext => panic!("another route does not help"),
    }
    let mut failover = Failover::new(&Vec::new(), "opus");
    let error = failover.next(&config.providers, "").err().unwrap();
    assert_eq!(error.message(), "no route for tag 'opus'");
}

#[test]
fn a_request_is_read() {
    let r = read_request(&json(r#"{"model": "some-opus-4-8", "stream": true}"#), "auto");
    assert_eq!(r.model, "some-opus-4-8");
    assert!(r.streaming);
    assert_eq!(r.tag, "opus");
    let r = read_request(&json(r#"{"stream": "yes"}"#), "haiku");
    assert_eq!(r.model, "");
    assert!(!r.streaming);
    assert_eq!(r.tag, "haiku");
    assert_eq!(timeout_seconds(true), 3600);
    assert_eq!(timeout_seconds(false), 300);
}

#[test]
fn bodies_go_on_by_protocol_and_format() {
    let body = json(r#"{"model": "opus", "messages": [{"role": "system", "content": "Hi"}]}"#);
    let passed = forward_body("anthropic", ProviderFormat::Anthropic, &body, "m");
    assert_eq!(
        passed.to_text(),
        r#"{"messages":[{"content":"Hi","role":"user"}],"model":"m"}"#
    );
    let passed = forward_body("openai", ProviderFormat::Openai, &body, "m");
    assert_eq!(
        passed.to_text(),
        r#"{"messages":[{"content":"Hi","role":"system"}],"model":"m"}"#
    );
    let converted = forward_body("openai", ProviderFormat::OpenaiResponses, &body, "m");
    assert_eq!(text(&converted, &["instructions"]), "Hi");
    assert_eq!(text(&converted, &["model"]), "m");
    assert!(!is_forwardable("openai", ProviderFormat::Openai, &json("[]"), "m"));
    assert!(is_forwardable("openai", ProviderFormat::Anthropic, &json("[]"), "m"));
    assert!(!is_forwardable(
        "anthropic",
        ProviderFormat::Openai,
        &json(r#"{"messages": [1]}"#),
        "m"
    ));
    let error = count_tokens_body("openai", ProviderFormat::OpenaiResponses, &body, "m");
    assert_eq!(
        error.err().unwrap().message(),
        "upstream error: count_tokens not supported for protocol openai with format \
         OpenaiResponses"
    );
    assert!(count_tokens_body("anthropic", ProviderFormat::Openai, &body, "m").is_ok());
}

#[test]
fn bodies_are_read() {
    assert_eq!(parse_body(b"").unwrap().to_text(), "{}");
    assert_eq!(parse_body(br#"{"a": [1, -2.5]}"#).unwrap().to_text(), r#"{"a":[1,-2.5]}"#);
    let error = parse_body(b"{").err().unwrap().message();
    assert!(error.starts_with("upstream error: invalid JSON body: EOF"));
    let error = parse_upstream_json(b"<html>").err().unwrap().message();
    assert!(error.starts_with("upstream error: failed to parse upstream response: "));
}

#[test]
fn the_model_of_the_request_goes_back() {
    let reply = answer(
        "openai",
        ProviderFormat::Openai,
        br#"{"model": "glm-5.1", "id": "x"}"#,
        "opus",
    );
    assert_eq!(reply.unwrap(), r#"{"id":"x","model":"opus"}"#);
    let reply = answer("anthropic", ProviderFormat::Anthropic, b"[1]", "opus");
    assert_eq!(reply.unwrap(), "[1]");
    let reply = answer_at(
        "openai",
        ProviderFormat::Anthropic,
        br#"{"id": "msg_1", "model": "glm", "content": [{"type": "text", "text": "Hi"}],
            "stop_reason": "end_turn", "usage": {"input_tokens": 1, "output_tokens": 2}}"#,
        "opus",
        7,
    );
    let reply = json(&reply.unwrap());
    assert_eq!(text(&reply, &["model"]), "opus");
    assert_eq!(at(&reply, &["created"]).as_u64(), Some(7));
    assert_eq!(text(&reply, &["choices", "0", "message", "content"]), "Hi");
    assert_eq!(at(&reply, &["usage", "total_tokens"]).as_u64(), Some(3));
    assert!(answer("anthropic", ProviderFormat::Openai, b"oops", "opus").is_err());
}

#[test]
fn streams_go_back_by_protocol_and_format() {
    let (anthropic, openai, responses) =
        (ProviderFormat::Anthropic, ProviderFormat::Openai, ProviderFormat::OpenaiResponses);
    assert_eq!(stream_way("anthropic", openai), StreamWay::ChatToAnthropic);
    assert_eq!(stream_way("anthropic", responses), StreamWay::ResponsesToAnthropic);
    assert_eq!(stream_way("anthropic", anthropic), StreamWay::Pass);
    assert_eq!(stream_way("openai", responses), StreamWay::ResponsesToChat);
    assert_eq!(stream_way("openai", anthropic), StreamWay::AnthropicToChat);
    assert_eq!(stream_way("openai", openai), StreamWay::Pass);
    assert_eq!(stream_way("openai_responses", openai), StreamWay::ChatToResponses);
    assert_eq!(stream_way("openai_responses", anthropic), StreamWay::AnthropicToResponses);
    assert_eq!(stream_way("openai_responses", responses), StreamWay::Pass);
    assert_eq!(stream_way("other", openai), StreamWay::ReplaceModel);
}

#[test]
fn the_model_in_a_stream_is_replaced() {
    let mut s = ModelStream::new("opus");
    let mut out = s.feed(b"event: message_start\ndata: {\"type\":\"message_start\",\"mess");
    out.extend(s.feed(b"age\":{\"id\":\"m\"}}\n\n: note\ndata: [DONE]\ndata:oops\n"));
    out.extend(s.feed(b"data: {\"message\":{\"model\":\"glm\"}}\ndata: {\"message\":{}}\nrest"));
    assert_eq!(
        out,
        vec![
            "event: message_start\n",
            "data: {\"message\":{\"id\":\"m\",\"model\":\"opus\"},\"type\":\"message_start\"}\n\n",
            "\n",
            ": note\n",
            "data: [DONE]\n\n",
            "data: oops\n\n",
            "data: {\"message\":{\"model\":\"opus\"}}\n\n",
            "data: {\"message\":{}}\n\n",
        ]
    );
}

#[test]
fn a_stream_that_is_passed_changes_only_its_model() {
    let stream = "event: x\r\ndata: {\"model\": \"glm\", \"b\": 1}\n\
                  data: {\"response\": {\"model\": \"glm\"}}\n\n\
                  data: {\"text\": \"\u{4f60}\u{597d}\"}\ndata: [DONE]\ndata: {\"model\":\"x\"}";
    let expected = "event: x\r\ndata: {\"b\":1,\"model\":\"opus\"}\n\
                    data: {\"response\":{\"model\":\"opus\"}}\n\n\
                    data: {\"text\": \"\u{4f60}\u{597d}\"}\ndata: [DONE]\ndata: {\"model\":\"opus\"}";
    for size in [1, 2, 7, 1000] {
        let mut s = PassStream::new("opus");
        let mut out = Vec::new();
        for chunk in stream.as_bytes().chunks(size) {
            out.extend(s.feed(chunk));
        }
        out.extend(s.end());
        assert_eq!(String::from_utf8(out).unwrap(), expected);
    }
}

#[test]
fn a_trial_goes_through_the_routes() {
    let config = config();
    let mut trial = Trial::new(&config.routes, "opus").ok().unwrap();
    let attempt = trial.next(&config.providers).ok().unwrap();
    assert_eq!(attempt.url, "https://good.example/v1/messages");
    let answer = TrialAnswer::NoConnection("refused".into());
    assert!(trial.answered(&attempt, 5, answer).is_none());
    let attempt = trial.next(&config.providers).ok().unwrap();
    assert_eq!(attempt.model, "m3");
    let body = trial_body("opus", "Hi", attempt.format, &attempt.model);
    assert_eq!(
        body.to_text(),
        r#"{"max_tokens":64,"messages":[{"content":"Hi","role":"user"}],"model":"m3"}"#
    );
    let busy = TrialAnswer::Answer(503, "503 Service Unavailable".into(), "busy".into());
    assert!(trial.answered(&attempt, 9, busy).is_none());
    let last = trial.next(&config.providers).err().unwrap();
    assert_eq!(last.provider, "Keyless");
    assert_eq!(
        last.error.as_deref(),
        Some("provider 'keyless' has no valid API key (key='sk-your-...')")
    );
    assert_eq!(last.format, "Anthropic");
    assert!(!last.success);
}

#[test]
fn a_trial_ends_with_an_answer() {
    let mut config = config();
    config.routes = vec![route("m3", "other", &["opus"], true)];
    config.routes[0].format = ProviderFormat::Openai;
    let mut trial = Trial::new(&config.routes, "opus").ok().unwrap();
    let attempt = trial.next(&config.providers).ok().unwrap();
    let refused = TrialAnswer::Answer(401, "401 Unauthorized".into(), "no key".into());
    let result = trial.answered(&attempt, 3, refused).unwrap();
    assert!(!result.success);
    assert_eq!(result.error.as_deref(), Some("HTTP 401 Unauthorized: no key"));
    assert_eq!(result.latency_ms, 3);
    let answer = r#"{"choices": [{"message": {"content": "Hello"}, "finish_reason": "stop"}]}"#;
    let answer = TrialAnswer::Answer(200, "200 OK".into(), answer.into());
    let result = trial.answered(&attempt, 4, answer).unwrap();
    assert!(result.success);
    assert_eq!(result.error, None);
    let response = result.response.unwrap();
    assert_eq!(text(&response, &["content", "0", "text"]), "Hello");
    assert_eq!(text(&response, &["model"]), "opus");
    let unread = TrialAnswer::Unread("eof".into());
    assert!(trial.answered(&attempt, 4, unread).is_none());
    let result = trial.next(&config.providers).err().unwrap();
    assert_eq!(result.error.as_deref(), Some("read response error: eof"));
    let none = Trial::new(&Vec::new(), "opus").err().unwrap();
    assert_eq!(none.error.as_deref(), Some("no enabled route found for tag 'opus'"));
}

#[test]
fn a_session_goes_from_route_to_route() {
    let config = config();
    let body = json(r#"{"model": "opus", "messages": [{"role": "user", "content": "Hi"}]}"#);
    let mut session = Session::new("anthropic", body, false, &config);
    assert_eq!(session.request_model(), "opus");
    assert_eq!(session.timeout_seconds(), 300);
    assert!(!session.is_sendable());
    let step = session.try_next(&config.providers);
    assert!(matches!(&step, Step::Try(a) if a.model == "m1"));
    assert!(session.is_sendable());
    assert_eq!(text(&session.outgoing_body().ok().unwrap(), &["model"]), "m1");
    let step = session.lost(&config.providers, "tcp connect error: Connection refused");
    assert!(matches!(&step, Step::Try(a) if a.model == "m3"));
    assert!(matches!(session.answered(429), Step::ReadRefusal));
    let step = session.refused(&config.providers, "slow down");
    assert!(matches!(&step, Step::Reply(429, t) if t == "slow down"));
    assert!(matches!(session.answered(200), Step::ReadBody));
    let step = session.read(br#"{"model": "glm", "content": []}"#.to_vec());
    assert!(matches!(&step, Step::Reply(200, t) if t == r#"{"content":[],"model":"opus"}"#));
    assert!(matches!(session.read(b"?".to_vec()), Step::Fail(ProxyError::Upstream(_))));
    let entry = session.log_entry();
    assert_eq!(entry.request_model, "opus");
    assert_eq!(entry.tag, "opus");
    assert_eq!(entry.provider, "Other");
    assert_eq!(entry.target_model, "m3");
    assert!(matches!(session.answered(500), Step::ReadRefusal));
    let step = session.refused(&config.providers, "broken");
    assert!(matches!(step, Step::Fail(ProxyError::NoProvider(_))));
}

#[test]
fn a_session_streams_or_counts() {
    let config = config();
    let body = json(r#"{"model": "opus", "stream": true, "messages": []}"#);
    let mut session = Session::new("openai", body.clone(), false, &config);
    assert_eq!(session.timeout_seconds(), 3600);
    session.try_next(&config.providers);
    assert!(matches!(session.answered(201), Step::Stream(StreamWay::AnthropicToChat)));
    let mut session = Session::new("anthropic", body.clone(), true, &config);
    assert_eq!(session.timeout_seconds(), 60);
    let step = session.try_next(&config.providers);
    assert!(
        matches!(&step, Step::Try(a) if a.url == "https://good.example/v1/messages/count_tokens")
    );
    assert!(matches!(session.answered(404), Step::ReadBody));
    let step = session.read(b"raw".to_vec());
    assert!(matches!(&step, Step::ReplyBytes(404, b) if b == b"raw"));
    assert!(matches!(session.lost(&config.providers, "odd"), Step::Fail(_)));
    let mut session = Session::new("openai", body, true, &config);
    session.try_next(&config.providers);
    assert!(session.is_sendable());
    assert!(session.outgoing_body().is_err());
}

#[test]
fn every_way_names_the_right_model() {
    let body = json(
        r#"{"model": "opus", "input": "Hi", "messages": [{"role": "user", "content": "Hi"}]}"#,
    );
    let reply = br#"{"model": "glm", "id": "x", "choices": [], "content": [], "output": []}"#;
    for protocol in ["anthropic", "openai", "openai_responses", "other"] {
        for format in
            [ProviderFormat::Anthropic, ProviderFormat::Openai, ProviderFormat::OpenaiResponses]
        {
            let sent = forward_body(protocol, format, &body, "target");
            assert_eq!(text(&sent, &["model"]), "target");
            let back = json(&answer(protocol, format, reply, "opus").ok().unwrap());
            assert_eq!(text(&back, &["model"]), "opus");
        }
    }
}

#[test]
fn bytes_that_are_no_text_are_replaced() {
    let mut s = ModelStream::new("opus");
    assert_eq!(s.feed(b"a\xffb\n"), vec!["a\u{fffd}b\n"]);
}

#[test]
fn the_way_a_model_is_written_does_not_matter() {
    for model in ["gpt-5.4-mini", "GPT_5.4/Mini", "mini 4.gpt-5"] {
        assert_eq!(resolve_tag_from_model(model), Some("haiku".to_string()));
    }
    assert_eq!(resolve_tag_from_model("deepseek/OPUS"), Some("opus".to_string()));
    assert_eq!(resolve_tag_from_model("octopus"), None);
}

#[test]
fn headers_of_one_connection_do_not_go_on() {
    let header = |name: &str| Header { name: name.to_string(), value: Some("7".to_string()) };
    let names = [
        "Keep-Alive",
        "te",
        "Trailer",
        "upgrade",
        "proxy-authenticate",
        "Proxy-Authorization",
        "connection",
        "x-trace",
    ];
    let passed = forward_client_headers(&names.map(header).into_iter().collect());
    assert_eq!(passed, vec![("x-trace".to_string(), "7".to_string())]);
}

#[test]
fn a_second_pass_over_a_body_changes_nothing() {
    let mut body = json(
        r#"{"messages": [{"role": "system", "content": {"a": 1}}, null,
            {"role": "tool"}, {"role": "assistant", "content": [{"type": "thinking"},
            {"type": "text", "text": "Hi"}]}], "other": {"messages": 3}}"#,
    );
    normalize_roles(&mut body);
    let once = body.to_text();
    normalize_roles(&mut body);
    assert_eq!(body.to_text(), once);
    strip_thinking(&mut body);
    let once = body.to_text();
    assert!(!once.contains("thinking"));
    strip_thinking(&mut body);
    assert_eq!(body.to_text(), once);
}

#[test]
fn a_session_says_what_is_logged() {
    let config = config();
    let body = json(r#"{"model": "opus", "messages": []}"#);
    let mut session = Session::new("anthropic", body.clone(), false, &config);
    session.try_next(&config.providers);
    assert!(!session.is_logged());
    session.answered(200);
    assert!(session.is_logged());
    session.answered(404);
    assert!(!session.is_logged());
    let mut session = Session::new("anthropic", body, true, &config);
    session.try_next(&config.providers);
    session.answered(200);
    assert!(!session.is_logged());
}
