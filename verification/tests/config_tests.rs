use authproxy::config::{AppConfig, ConfigOverrides, EnvSettings, KeyPlan};
use authproxy::text::{parse_key_file, parse_u16};

fn empty_env() -> EnvSettings {
    EnvSettings {
        ollama_url: None,
        proxy_host: None,
        proxy_port: None,
        api_keys_sqlite: None,
        api_keys_file: None,
        api_keys: None,
    }
}

#[test]
fn env_fallback() {
    let mut env = empty_env();
    env.api_keys = Some("a,b, c".to_string());
    let (cfg, plan) = AppConfig::load(&env);
    assert!(matches!(plan, KeyPlan::Ready));
    assert_eq!(cfg.valid_keys, vec!["a", "b", "c"]);
}

#[test]
fn file_keys() {
    let keys = parse_key_file("foo,bar\n");
    assert_eq!(keys, vec!["foo", "bar"]);
}

#[test]
fn file_key_plan() {
    let mut env = empty_env();
    env.api_keys_file = Some("/tmp/keys".to_string());
    env.api_keys = Some("ignored".to_string());
    let (cfg, plan) = AppConfig::load(&env);
    assert!(matches!(plan, KeyPlan::File(p) if p == "/tmp/keys"));
    assert!(cfg.valid_keys.is_empty());
}

#[test]
fn sqlite_beats_file() {
    let mut env = empty_env();
    env.api_keys_sqlite = Some("/tmp/db".to_string());
    env.api_keys_file = Some("/tmp/keys".to_string());
    let (cfg, plan) = AppConfig::load(&env);
    assert!(matches!(plan, KeyPlan::Sqlite(p) if p == "/tmp/db"));
    assert!(cfg.valid_keys.is_empty());
}

#[test]
fn url_defaults_and_override() {
    let env = empty_env();
    let (cfg, _) = AppConfig::load(&env);
    assert_eq!(cfg.ollama_url, "http://127.0.0.1:11434");
    let mut env2 = empty_env();
    env2.ollama_url = Some("http://example.com".to_string());
    let (cfg2, _) = AppConfig::load(&env2);
    assert_eq!(cfg2.ollama_url, "http://example.com");
}

#[test]
fn proxy_addr_defaults_and_override() {
    let env = empty_env();
    let (cfg, _) = AppConfig::load(&env);
    assert_eq!(format!("{}:{}", cfg.proxy_host, cfg.proxy_port), "0.0.0.0:3000");
    let mut env2 = empty_env();
    env2.proxy_host = Some("127.0.0.1".to_string());
    env2.proxy_port = Some("8080".to_string());
    let (cfg2, _) = AppConfig::load(&env2);
    assert_eq!(format!("{}:{}", cfg2.proxy_host, cfg2.proxy_port), "127.0.0.1:8080");
}

#[test]
fn bad_port_falls_back() {
    let mut env = empty_env();
    env.proxy_port = Some("not-a-port".to_string());
    let (cfg, _) = AppConfig::load(&env);
    assert_eq!(cfg.proxy_port, 3000);
    let mut env2 = empty_env();
    env2.proxy_port = Some("65536".to_string());
    let (cfg2, _) = AppConfig::load(&env2);
    assert_eq!(cfg2.proxy_port, 3000);
}

#[test]
fn parse_u16_accepts_plus_and_bounds() {
    assert_eq!(parse_u16("+123"), Some(123));
    assert_eq!(parse_u16("65535"), Some(65535));
    assert_eq!(parse_u16("0"), Some(0));
    assert_eq!(parse_u16("65536"), None);
    assert_eq!(parse_u16(""), None);
    assert_eq!(parse_u16("+"), None);
    assert_eq!(parse_u16("-1"), None);
    assert_eq!(parse_u16("00080"), Some(80));
}

#[test]
fn apply_overrides_test() {
    let env = empty_env();
    let (mut cfg, _) = AppConfig::load(&env);
    let mut overrides = ConfigOverrides::default();
    overrides.ollama_url = Some("http://foo".into());
    overrides.proxy_host = Some("127.0.0.1".into());
    overrides.proxy_port = Some(1234);
    // check key vector override
    overrides.api_keys = Some(vec!["k1".into(), "k2".into()]);
    cfg.apply_overrides(&overrides, None);
    assert_eq!(cfg.ollama_url, "http://foo");
    assert_eq!(format!("{}:{}", cfg.proxy_host, cfg.proxy_port), "127.0.0.1:1234");
    assert_eq!(cfg.valid_keys, vec!["k1", "k2"]);
}

#[test]
fn apply_overrides_keeps_unset_fields() {
    let env = empty_env();
    let (mut cfg, _) = AppConfig::load(&env);
    let overrides = ConfigOverrides::default();
    cfg.apply_overrides(&overrides, None);
    assert_eq!(cfg.ollama_url, "http://127.0.0.1:11434");
    assert_eq!(cfg.proxy_host, "0.0.0.0");
    assert_eq!(cfg.proxy_port, 3000);
    assert!(cfg.valid_keys.is_empty());
}

#[test]
fn apply_overrides_loaded_keys_win() {
    let env = empty_env();
    let (mut cfg, _) = AppConfig::load(&env);
    let mut overrides = ConfigOverrides::default();
    overrides.api_keys_sqlite = Some("/tmp/db".into());
    overrides.api_keys = Some(vec!["shadowed".into()]);
    cfg.apply_overrides(&overrides, Some(vec!["x".into(), "y".into()]));
    assert_eq!(cfg.valid_keys, vec!["x", "y"]);
}

#[test]
fn key_text_trims_and_drops_blanks() {
    let keys = parse_key_file(" one ,\r\n,  two\nthree,");
    assert_eq!(keys, vec!["one", "two", "three"]);
}
