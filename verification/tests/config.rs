use std::collections::HashMap;

use agent_harness::config::{nonempty, Config};

fn from_map(pairs: &[(&str, &str)]) -> Config {
    let map: HashMap<&str, &str> = pairs.iter().copied().collect();
    Config::from_get(|key| map.get(key).map(|s| (*s).to_string()))
}

#[test]
fn defaults_when_env_is_empty() {
    let cfg = from_map(&[]);
    assert_eq!(
        cfg,
        Config {
            api_key: None,
            base_url: Config::DEFAULT_BASE_URL.to_string(),
            model: Config::DEFAULT_MODEL.to_string(),
        }
    );
}

#[test]
fn overrides_from_env() {
    let cfg = from_map(&[
        ("OPENAI_API_KEY", "sk-test"),
        ("OPENAI_BASE_URL", "http://localhost:8080/v1"),
        ("OPENAI_MODEL", "local-model"),
    ]);
    assert_eq!(
        cfg,
        Config {
            api_key: Some("sk-test".into()),
            base_url: "http://localhost:8080/v1".into(),
            model: "local-model".into(),
        }
    );
}

#[test]
fn blank_values_fall_back_to_defaults() {
    let cfg = from_map(&[
        ("OPENAI_API_KEY", "   "),
        ("OPENAI_BASE_URL", "\t\n"),
        ("OPENAI_MODEL", ""),
    ]);
    assert_eq!(cfg.api_key, None);
    assert_eq!(cfg.base_url, "https://api.openai.com/v1");
    assert_eq!(cfg.model, "gpt-4.1-mini");
}

#[test]
fn values_are_trimmed() {
    let cfg = Config::from_values(
        Some("  sk-x\n".to_string()),
        Some(" http://h/v1 ".to_string()),
        Some("\u{3000}m\u{a0}".to_string()),
    );
    assert_eq!(cfg.api_key.as_deref(), Some("sk-x"));
    assert_eq!(cfg.base_url, "http://h/v1");
    assert_eq!(cfg.model, "m");
}

#[test]
fn nonempty_trims_or_drops() {
    assert_eq!(nonempty(None), None);
    assert_eq!(nonempty(Some(" \t ".to_string())), None);
    assert_eq!(nonempty(Some(" a b ".to_string())), Some("a b".to_string()));
}
