use puppetterm::ai::{
    apply_ai_config, blank_config, config_from_env, config_view, default_auth_method,
    default_flow, default_provider, endpoint, error_with_snippet, finish_loaded_config,
    model_ids, models_fetch_step, models_source, resolve_test_config, seal_for_disk,
    test_summary_chat, test_summary_models, token_needs_refresh, uses_anthropic, AiConfig,
    AiOAuthMeta, FetchStep, ModelSource,
};
use puppetterm::crypto::{decrypt_key, encrypt_key, machine_key, seal_with_nonce, MachineId};
use puppetterm::json::Json;

fn machine() -> MachineId {
    MachineId { file: Some("0123456789abcdef0123456789abcdef\n".to_string()), hostname: None }
}

fn config(key: &str) -> AiConfig {
    AiConfig {
        base_url: "http://example/v1".to_string(),
        model: "m".to_string(),
        provider: "openai".to_string(),
        api_key: key.to_string(),
        api_key_enc: None,
        auth_method: default_auth_method(),
        oauth: AiOAuthMeta::default(),
        refresh_token: String::new(),
        refresh_token_enc: None,
        token_expires_at: None,
    }
}

#[test]
fn encrypt_roundtrip() {
    let plain = "sk-test-12345-abcdef";
    let enc = encrypt_key(&machine(), plain).expect("encrypt");
    assert_ne!(enc, plain, "encrypted value must differ from plaintext");
    assert_eq!(decrypt_key(&machine(), &enc).expect("decrypt"), plain);
}

#[test]
fn stored_secret_is_nonce_ciphertext_and_tag() {
    let plain = "sk-test-12345-abcdef";
    // 12 + 20 + 16 = 48 bytes, 64 base64 characters
    assert_eq!(encrypt_key(&machine(), plain).unwrap().len(), 64);

    let key = machine_key(&machine()).unwrap();
    assert_eq!(key.len(), 32);
    let a = seal_with_nonce(&key, &[7u8; 12], plain).unwrap();
    let b = seal_with_nonce(&key, &[7u8; 12], plain).unwrap();
    let c = seal_with_nonce(&key, &[8u8; 12], plain).unwrap();
    assert_eq!(a, b);
    assert_ne!(a, c);
    assert_eq!(a.len(), 64);
    // the nonce leads the stored bytes: twelve 7s encode as "BwcH" repeated
    assert!(a.starts_with("BwcHBwcHBwcHBwcH"));
    assert_eq!(decrypt_key(&machine(), &a).unwrap(), plain);
    assert_eq!(decrypt_key(&machine(), &c).unwrap(), plain);
}

#[test]
fn config_encrypts_key_at_rest() {
    let cfg = config("sk-super-secret-xyz");
    let stored = seal_for_disk(cfg, &machine()).expect("save");
    assert_eq!(stored.api_key, "");
    let enc = stored.api_key_enc.clone().expect("encrypted key missing");
    assert!(!enc.contains("sk-super-secret-xyz"), "plaintext key leaked: {enc}");
    let loaded = finish_loaded_config(stored, &machine());
    assert_eq!(loaded.api_key, "sk-super-secret-xyz", "decrypted key mismatch");
}

#[test]
fn each_encryption_uses_a_fresh_nonce() {
    let a = encrypt_key(&machine(), "same").unwrap();
    let b = encrypt_key(&machine(), "same").unwrap();
    assert_ne!(a, b);
    assert_eq!(decrypt_key(&machine(), &a).unwrap(), "same");
    assert_eq!(decrypt_key(&machine(), &b).unwrap(), "same");
}

#[test]
fn decryption_failures() {
    assert!(decrypt_key(&machine(), "%%%").unwrap_err().starts_with("bad encoded key: "));
    // 8 bytes only
    assert_eq!(decrypt_key(&machine(), "AAAAAAAAAAA=").unwrap_err(), "key too short");
    let other = MachineId { file: None, hostname: Some("another-host".to_string()) };
    let enc = encrypt_key(&machine(), "secret").unwrap();
    assert_eq!(decrypt_key(&other, &enc).unwrap_err(), "cannot decrypt api key");
    let none = MachineId { file: None, hostname: None };
    assert_eq!(encrypt_key(&none, "x").unwrap_err(), "cannot derive machine key (no machine-id)");
    assert_eq!(decrypt_key(&none, &enc).unwrap_err(), "cannot derive machine key (no machine-id)");
}

#[test]
fn machine_id_file_is_trimmed() {
    let trimmed = MachineId { file: Some("0123456789abcdef0123456789abcdef".to_string()), hostname: None };
    let enc = encrypt_key(&machine(), "k").unwrap();
    assert_eq!(decrypt_key(&trimmed, &enc).unwrap(), "k");
}

#[test]
fn sealing_without_secrets_needs_no_machine_id() {
    let none = MachineId { file: None, hostname: None };
    let stored = seal_for_disk(config(""), &none).unwrap();
    assert!(stored.api_key_enc.is_none());
    assert!(seal_for_disk(config("k"), &none).is_err());
}

#[test]
fn legacy_plaintext_key_still_loads() {
    let loaded = finish_loaded_config(config("plain-key"), &machine());
    assert_eq!(loaded.api_key, "plain-key");
}

#[test]
fn defaults() {
    assert_eq!(default_provider(), "openai");
    assert_eq!(default_flow(), "standard");
    let b = blank_config();
    assert_eq!(b.provider, "openai");
    assert_eq!(b.auth_method, default_auth_method());
}

#[test]
fn environment_config_needs_all_three_variables() {
    assert!(config_from_env(Some("http://x"), Some("k"), None, None).is_none());
    let c = config_from_env(Some("http://x"), Some("k"), Some("m"), None).unwrap();
    assert_eq!(c.provider, "openai");
    assert_eq!(c.api_key, "k");
    let c = config_from_env(Some("http://x"), Some("k"), Some("m"), Some("deepseek")).unwrap();
    assert_eq!(c.provider, "deepseek");
}

#[test]
fn applying_settings_keeps_blank_fields() {
    let mut stored = config("old-key");
    stored.api_key_enc = Some("ENC".to_string());
    let r = apply_ai_config(Some(stored), "", "gpt-x", Some("weird"), Some(""), None, None);
    assert_eq!(r.base_url, "http://example/v1");
    assert_eq!(r.model, "gpt-x");
    assert_eq!(r.provider, "openai");
    assert_eq!(r.api_key, "old-key");
    assert_eq!(r.api_key_enc.as_deref(), Some("ENC"));

    let r = apply_ai_config(None, "http://new", "", Some("anthropic"), Some("new-key"), Some("key"), None);
    assert_eq!(r.base_url, "http://new");
    assert_eq!(r.model, "");
    assert_eq!(r.provider, "anthropic");
    assert_eq!(r.api_key, "new-key");
    assert_eq!(r.auth_method, "key");
}

#[test]
fn config_view_hides_the_key() {
    let v = config_view(&config("secret"));
    assert!(v.has_api_key);
    assert_eq!(v.base_url, "http://example/v1");
    assert!(!config_view(&config("")).has_api_key);
}

#[test]
fn token_refresh_window() {
    let mut c = config("t");
    c.auth_method = "oauth".to_string();
    c.token_expires_at = Some(1_000);
    assert!(token_needs_refresh(&c, 940));
    assert!(!token_needs_refresh(&c, 939));
    c.token_expires_at = None;
    assert!(!token_needs_refresh(&c, 5_000));
    c.auth_method = "key".to_string();
    c.token_expires_at = Some(1);
    assert!(!token_needs_refresh(&c, 5_000));
}

#[test]
fn endpoints_and_snippets() {
    assert_eq!(endpoint("https://api.x/v1//", "/chat/completions"), "https://api.x/v1/chat/completions");
    assert_eq!(error_with_snippet("AI API 500: ", "abcdef", 3), "AI API 500: abc");
    assert_eq!(error_with_snippet("p: ", "ab", 3), "p: ab");
    let mut c = config("k");
    assert!(!uses_anthropic(&c));
    c.provider = "anthropic".to_string();
    assert!(uses_anthropic(&c));
}

#[test]
fn test_config_resolution() {
    let stored = config("stored-key");
    let c = resolve_test_config("", "", None, None, Some(&stored)).unwrap();
    assert_eq!(c.base_url, "http://example/v1");
    assert_eq!(c.api_key, "stored-key");
    assert_eq!(resolve_test_config("", "m", None, Some("k"), None).err().unwrap(), "base_url is required");
    assert_eq!(
        resolve_test_config("http://x", "m", None, None, None).err().unwrap(),
        "api_key is required (or log in first)"
    );
    let c = resolve_test_config("  http://x ", " m ", Some(" deepseek "), Some(" k "), None).unwrap();
    assert_eq!(c.base_url, "http://x");
    assert_eq!(c.model, "m");
    assert_eq!(c.provider, "deepseek");
    assert_eq!(c.api_key, "k");
    let c = resolve_test_config("http://x", "", Some("mistral"), Some("k"), Some(&stored)).unwrap();
    assert_eq!(c.provider, "openai");
    assert_eq!(c.model, "m");
    assert_eq!(
        test_summary_models("openai", 3),
        "Connected · openai · 3 models available (pick one in Settings → Models)"
    );
    assert_eq!(test_summary_chat("openai", "m"), "Connected · openai · m");
}

#[test]
fn where_models_come_from() {
    let mut c = config("k");
    c.base_url = "https://generativelanguage.googleapis.com/v1beta/openai/".to_string();
    match models_source(&c).unwrap() {
        ModelSource::Fetch(urls) => assert_eq!(
            urls,
            vec![
                "https://generativelanguage.googleapis.com/v1beta/openai/models".to_string(),
                "https://generativelanguage.googleapis.com/v1beta/models".to_string(),
            ]
        ),
        ModelSource::Preset => panic!("expected a fetch"),
    }
    c.provider = "anthropic".to_string();
    assert!(matches!(models_source(&c).unwrap(), ModelSource::Preset));
    c.api_key = " ".to_string();
    assert_eq!(
        models_source(&c).err().unwrap(),
        "not authenticated — configure a provider or log in first"
    );
    c.base_url = String::new();
    assert_eq!(models_source(&c).err().unwrap(), "base_url is required");
}

#[test]
fn models_fetch_steps() {
    assert!(matches!(models_fetch_step(true, 200, "200 OK", ""), FetchStep::Parse));
    match models_fetch_step(false, 404, "404 Not Found", "nope") {
        FetchStep::TryNext(e) => assert_eq!(e, "list models failed (404 Not Found): nope"),
        _ => panic!("expected try-next"),
    }
    match models_fetch_step(false, 500, "500 Internal Server Error", "x") {
        FetchStep::Fail(e) => assert_eq!(e, "list models failed (500 Internal Server Error): x"),
        _ => panic!("expected failure"),
    }
}

fn obj(members: Vec<(&str, Json)>) -> Json {
    Json::Object(members.into_iter().map(|(k, v)| (k.to_string(), v)).collect())
}

#[test]
fn model_ids_from_either_shape() {
    let openai = obj(vec![(
        "data",
        Json::Array(vec![
            obj(vec![("id", Json::Str("gpt-4o".to_string()))]),
            obj(vec![("id", Json::Str("gpt-4o-mini".to_string()))]),
        ]),
    )]);
    assert_eq!(model_ids(&openai).unwrap(), vec!["gpt-4o".to_string(), "gpt-4o-mini".to_string()]);
    let other = obj(vec![(
        "models",
        Json::Array(vec![
            obj(vec![("id", Json::Str("gemini-pro".to_string()))]),
            Json::Str("text-model".to_string()),
            Json::Number("7".to_string()),
        ]),
    )]);
    assert_eq!(model_ids(&other).unwrap(), vec!["gemini-pro".to_string(), "text-model".to_string()]);
    // an empty `data` list falls back to `models`
    let both = obj(vec![
        ("data", Json::Array(vec![])),
        ("models", Json::Array(vec![Json::Str("a".to_string())])),
    ]);
    assert_eq!(model_ids(&both).unwrap(), vec!["a".to_string()]);
    assert_eq!(
        model_ids(&obj(vec![])).err().unwrap(),
        "could not parse models list (unexpected response shape)"
    );
}
