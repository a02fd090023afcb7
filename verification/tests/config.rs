use model_router::config::{
    backfill_defaults, default_format, default_management_key, AppConfig, AppState, AuthType,
    Provider, ProviderFormat, Providers, RequestLog,
};

#[test]
fn test_default_config_has_sensible_values() {
    let cfg = AppConfig::default();
    assert_eq!(cfg.port, 8083);
    assert_eq!(cfg.current_tag, "auto");
    assert_eq!(cfg.management_key, "model-router-local");
    assert!(!cfg.providers.is_empty());
    assert!(!cfg.routes.is_empty());
    assert!(!cfg.tags.is_empty());
    assert_eq!(cfg.tags.len(), 4); // opus, sonnet, haiku, auto
}

#[test]
fn test_auth_type_header_name() {
    assert_eq!(AuthType::Bearer.header_name(), "authorization");
    assert_eq!(AuthType::XApiKey.header_name(), "x-api-key");
    assert_eq!(AuthType::XGoogApiKey.header_name(), "x-goog-api-key");
}

#[test]
fn test_auth_type_header_value() {
    assert_eq!(AuthType::Bearer.header_value("key123"), "Bearer key123");
    assert_eq!(AuthType::XApiKey.header_value("key123"), "key123");
    assert_eq!(AuthType::XGoogApiKey.header_value("key123"), "key123");
}

#[test]
fn test_default_format_is_openai() {
    assert_eq!(default_format(), ProviderFormat::Openai);
}

#[test]
fn test_request_log_ring_buffer() {
    let mut state = AppState::new(AppConfig::default());
    for i in 0..60 {
        state.log_request(RequestLog {
            request_model: format!("model-{}", i),
            tag: "auto".into(),
            provider: "test".into(),
            target_model: "target".into(),
            timestamp: "now".into(),
        });
    }
    let logs = &state.request_log;
    assert_eq!(logs.len(), 50); // MAX_LOG_ENTRIES
    assert_eq!(logs[0].request_model, "model-10"); // oldest remaining
    assert_eq!(logs[49].request_model, "model-59"); // newest
}

#[test]
fn test_management_key_default() {
    assert_eq!(default_management_key(), "model-router-local");
}

fn provider(name: &str) -> Provider {
    Provider {
        name: name.into(),
        base_url: "https://example.org".into(),
        api_key: "key".into(),
        auth_type: AuthType::Bearer,
    }
}

#[test]
fn a_provider_is_found_by_its_id() {
    let mut providers = Providers::new();
    providers.insert("a", provider("A"));
    providers.insert("b", provider("B"));
    assert_eq!(providers.len(), 2);
    assert_eq!(providers.get("b").unwrap().name, "B");
    assert!(providers.get("c").is_none());
    providers.insert("a", provider("A again"));
    assert_eq!(providers.len(), 2);
    assert_eq!(providers.get("a").unwrap().name, "A again");
    assert_eq!(providers.get("b").unwrap().name, "B");
}

#[test]
fn every_default_route_leads_to_a_default_provider() {
    let cfg = AppConfig::default();
    for route in &cfg.routes {
        assert!(cfg.providers.get(&route.provider).is_some());
        assert!(route.enabled);
    }
    assert_eq!(cfg.providers.len(), 7);
    assert_eq!(cfg.routes.len(), 6);
    assert_eq!(cfg.providers.get("kimi").unwrap().base_url, "https://api.kimi.com/coding");
    assert_eq!(cfg.routes[2].model, "glm-5.1");
    assert_eq!(cfg.routes[2].format, ProviderFormat::Anthropic);
}

#[test]
fn missing_parts_of_a_configuration_are_filled() {
    let mut cfg = AppConfig::default();
    cfg.providers = Providers::new();
    cfg.tags = Vec::new();
    cfg.routes.truncate(1);
    let (filled, changed) = backfill_defaults(cfg);
    assert!(changed);
    assert_eq!(filled.providers.len(), 7);
    assert_eq!(filled.tags.len(), 4);
    assert_eq!(filled.routes.len(), 1);
    let (again, changed) = backfill_defaults(filled);
    assert!(!changed);
    assert_eq!(again.providers.len(), 7);
}

#[test]
fn a_log_entry_of_now_carries_a_timestamp() {
    let entry = RequestLog::now("opus", "opus", "Kimi", "K2.6");
    assert_eq!(entry.request_model, "opus");
    assert_eq!(entry.target_model, "K2.6");
    assert_eq!(entry.timestamp.len(), 20);
    assert!(entry.timestamp.ends_with('Z'));
}
