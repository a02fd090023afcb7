use model_router::api::{
    check_management_key, default_test_prompt, export_config, get_models, get_status,
    import_config, model_ids, set_current_tag, update_config, validate_config, ApiError,
    SetTagRequest, TakeoverInfo,
};
use model_router::config::{AppConfig, Provider, Providers, Route};
use model_router::order::is_less;
use model_router::pages::{asset_name, choose_page, not_found_body, Page};
use model_router::takeover::{is_claude_stale, is_codex_stale};

#[test]
fn the_default_configuration_is_right() {
    assert!(validate_config(&AppConfig::default()).is_ok());
}

fn problem(change: impl Fn(&mut AppConfig)) -> String {
    let mut config = AppConfig::default();
    change(&mut config);
    validate_config(&config).err().unwrap()
}

fn provider(base_url: &str, api_key: &str) -> Provider {
    let mut p = AppConfig::default().providers.get("kimi").unwrap().clone();
    p.base_url = base_url.into();
    p.api_key = api_key.into();
    p
}

#[test]
fn what_is_wrong_with_a_configuration_is_told() {
    assert_eq!(problem(|c| c.port = 0), "port cannot be 0");
    assert_eq!(
        problem(|c| c.providers.insert("kimi", provider(" \t", "k"))),
        "provider 'kimi' has empty base_url"
    );
    assert_eq!(
        problem(|c| c.providers.insert("kimi", provider("u", "\u{3000}"))),
        "provider 'kimi' has empty api_key"
    );
    assert_eq!(problem(|c| c.routes[1].model = " ".into()), "route #2 has empty model");
    assert_eq!(problem(|c| c.routes[0].provider = "".into()), "route #1 has empty provider");
    assert_eq!(
        problem(|c| c.routes[5].provider = "nobody".into()),
        "route #6 references unknown provider 'nobody'"
    );
    assert_eq!(
        problem(|c| {
            c.routes[3].model = "".into();
            c.routes[1].provider = "nobody".into();
        }),
        "route #2 references unknown provider 'nobody'"
    );
    assert_eq!(
        problem(|c| {
            c.providers = Providers::new();
        }),
        "route #1 references unknown provider 'deepseek'"
    );
}

#[test]
fn a_wrong_configuration_is_not_taken() {
    let mut config = AppConfig::default();
    let mut wrong = AppConfig::default();
    wrong.port = 0;
    wrong.current_tag = "opus".into();
    let error = update_config(&mut config, wrong).err().unwrap();
    assert_eq!(error.status(), 400);
    assert_eq!(error.body().to_text(), r#"{"error":"port cannot be 0"}"#);
    assert_eq!(config.current_tag, "auto");
    let mut right = AppConfig::default();
    right.port = 9000;
    assert!(update_config(&mut config, right).is_ok());
    assert_eq!(config.port, 9000);
}

#[test]
fn an_exported_configuration_comes_back_with_its_key() {
    let mut config = AppConfig::default();
    config.management_key = "mine".into();
    let exported = export_config(&config);
    assert_eq!(exported.management_key, "YOUR_MANAGEMENT_KEY");
    assert!(import_config(&mut config, exported).is_ok());
    assert_eq!(config.management_key, "mine");
    let mut other = AppConfig::default();
    other.management_key = "other".into();
    assert!(import_config(&mut config, other).is_ok());
    assert_eq!(config.management_key, "other");
    let mut wrong = AppConfig::default();
    wrong.port = 0;
    assert!(import_config(&mut config, wrong).is_err());
    assert_eq!(config.management_key, "other");
}

#[test]
fn only_the_key_lets_in() {
    let config = AppConfig::default();
    assert!(check_management_key(Some("model-router-local"), &config).is_ok());
    let error = check_management_key(Some("model-router-loca"), &config).err().unwrap();
    assert_eq!(error.status(), 401);
    assert_eq!(error.message(), "unauthorized");
    assert!(check_management_key(None, &config).is_err());
}

#[test]
fn errors_of_the_api() {
    let e = ApiError::Internal("disk full".into());
    assert_eq!(e.status(), 500);
    assert_eq!(e.message(), "disk full");
    assert_eq!(default_test_prompt(), "Hi, reply with one word.");
}

#[test]
fn a_tag_becomes_the_current_one() {
    let mut config = AppConfig::default();
    set_current_tag(&mut config, SetTagRequest { tag: "haiku".into() });
    assert_eq!(config.current_tag, "haiku");
    let claude = TakeoverInfo { active: true, proxy_url: Some("http://127.0.0.1:8083".into()) };
    let codex = TakeoverInfo { active: false, proxy_url: None };
    let status = get_status(&config, claude.clone(), codex);
    assert_eq!(status.current_tag, "haiku");
    assert!(status.takeover.active);
    assert_eq!(status.takeover.proxy_url, claude.proxy_url);
    assert!(!status.codex_takeover.active);
}

#[test]
fn models_are_listed_once_and_in_order() {
    let config = AppConfig::default();
    assert_eq!(
        model_ids(&config.routes),
        vec![
            "auto",
            "gpt-5.2",
            "gpt-5.3-codex",
            "gpt-5.4",
            "gpt-5.4-mini",
            "gpt-5.5",
            "haiku",
            "opus",
            "sonnet",
        ]
    );
    let mut config = config;
    config.routes = Vec::<Route>::new();
    let list = get_models(&config);
    assert_eq!(list.str_at("object"), Some("list"));
    let data = list.array_at("data").unwrap();
    assert_eq!(data.len(), 6);
    assert_eq!(
        data[0].to_text(),
        r#"{"created":0,"id":"auto","object":"model","owned_by":"model-router"}"#
    );
}

#[test]
fn texts_have_an_order() {
    assert!(is_less("", "a"));
    assert!(is_less("a", "ab"));
    assert!(is_less("Z", "a"));
    assert!(!is_less("a", "a"));
    assert!(!is_less("b", "ab"));
    assert!(is_less("\u{ffff}", "\u{10000}"));
}

#[test]
fn old_settings_are_told_from_others() {
    assert!(is_claude_stale("{\"url\": \"http://127.0.0.1:9000\"}"));
    assert!(is_claude_stale("model-router"));
    assert!(!is_claude_stale("{}"));
    assert!(is_codex_stale("model-router http://127.0.0.1:9000", 8083));
    assert!(!is_codex_stale("model-router http://127.0.0.1:8083", 8083));
    assert!(!is_codex_stale("http://127.0.0.1:9000", 8083));
}

#[test]
fn pages_are_chosen() {
    assert_eq!(asset_name("/"), "index.html");
    assert_eq!(asset_name("//assets/app.js"), "assets/app.js");
    assert_eq!(choose_page(true, true, true), Page::Asset);
    assert_eq!(choose_page(false, false, true), Page::Index);
    assert_eq!(choose_page(false, true, true), Page::Missing);
    assert_eq!(choose_page(false, false, false), Page::Missing);
    assert_eq!(
        not_found_body("POST", "/nowhere").to_text(),
        r#"{"error":"not found: POST /nowhere"}"#
    );
}
