use umbra::providers::{
    ApiKind, ApiProvider, ConfigureProviderUseCase, GetProviderStatusUseCase, HttpMethod,
    ProbeReply, ProviderConfig, ProviderEntry, TestConnectionUseCase, api_kind, known_provider,
    lookup_name, save_failure,
};
use umbra::vault::{AppError, LockUseCase, MigrateUseCase, UnlockUseCase, VaultRepository, judge_migration, judge_unlock};

struct MemVault {
    locked: bool,
    passphrase: String,
    keys: Vec<(String, String, String)>,
    fail_set: bool,
    env_keys: Vec<String>,
}

impl MemVault {
    fn new(locked: bool) -> Self {
        MemVault { locked, passphrase: "pw".to_string(), keys: vec![], fail_set: false, env_keys: vec![] }
    }
}

impl VaultRepository for MemVault {
    type Status = bool;
    fn locked(&self) -> bool {
        self.locked
    }
    fn stored_key(&self, provider_id: &str) -> Option<(String, String)> {
        self.keys.iter().find(|k| k.0 == provider_id).map(|k| (k.1.clone(), k.2.clone()))
    }
    fn unlock_reply(&self, passphrase: &str) -> Result<bool, String> {
        if passphrase == self.passphrase {
            Ok(true)
        } else if passphrase.is_empty() {
            Err("empty passphrase".to_string())
        } else if passphrase == "half" {
            Ok(false)
        } else {
            Err("wrong_passphrase".to_string())
        }
    }
    fn report(&self) -> bool {
        self.locked
    }
    fn is_locked(&self) -> bool {
        self.locked
    }
    fn lock(&mut self) {
        self.locked = true;
    }
    fn unlock(&mut self, passphrase: &str) -> Result<bool, String> {
        let reply = self.unlock_reply(passphrase);
        if reply == Ok(true) {
            self.locked = false;
        }
        reply
    }
    fn status(&mut self) -> bool {
        self.report()
    }
    fn list_keys(&self) -> Vec<String> {
        self.keys.iter().map(|k| k.0.clone()).collect()
    }
    fn get_key(&self, provider_id: &str) -> Option<String> {
        self.keys.iter().find(|k| k.0 == provider_id).map(|k| k.1.clone())
    }
    fn set_key(&mut self, provider_id: &str, api_key: &str, base_url: &str) -> Result<(), String> {
        if self.fail_set {
            return Err("disk full".to_string());
        }
        self.keys.retain(|k| k.0 != provider_id);
        self.keys.push((provider_id.to_string(), api_key.to_string(), base_url.to_string()));
        Ok(())
    }
    fn delete_key(&mut self, provider_id: &str) -> Result<(), String> {
        self.keys.retain(|k| k.0 != provider_id);
        Ok(())
    }
    fn migrate_from_env(&mut self) -> Result<Vec<String>, String> {
        if self.env_keys.is_empty() {
            Err("nothing found".to_string())
        } else {
            Ok(self.env_keys.clone())
        }
    }
    fn set_auto_lock(&mut self, _minutes: u64) {}
}

fn entry(id: &str, name: &str, base_url: &str, api_type: &str) -> ApiProvider {
    ApiProvider {
        id: id.into(),
        name: name.into(),
        name_zh: String::new(),
        api_type: api_type.into(),
        base_url: base_url.into(),
        models: vec![],
        requires_key: true,
        is_chinese: false,
        is_local: false,
        supports_reasoning: false,
        supports_vision: false,
    }
}

fn catalog() -> Vec<ApiProvider> {
    vec![
        entry("openai", "OpenAI", "https://api.openai.com/v1", "openai"),
        entry("anthropic", "Anthropic", "https://api.anthropic.com/v1", "anthropic"),
    ]
}

#[test]
fn api_kinds_are_recognised() {
    assert_eq!(api_kind("openai"), Some(ApiKind::OpenAi));
    assert_eq!(api_kind("anthropic"), Some(ApiKind::Anthropic));
    assert_eq!(api_kind("google"), Some(ApiKind::Google));
    assert_eq!(api_kind("baidu"), Some(ApiKind::Baidu));
    assert_eq!(api_kind("OpenAI"), None);
}

#[test]
fn openai_probe_lists_models_with_bearer_key() {
    let uc = TestConnectionUseCase::new();
    let p = uc.plan("openai", "https://api.openai.com/v1//", "sk-1").ok().unwrap();
    assert_eq!(p.method, HttpMethod::Get);
    assert_eq!(p.url, "https://api.openai.com/v1/models");
    assert_eq!(p.headers, vec![("Authorization".to_string(), "Bearer sk-1".to_string())]);
    assert!(p.query.is_empty());
    assert!(!p.ping_body);
}

#[test]
fn anthropic_probe_pings_messages() {
    let uc = TestConnectionUseCase::new();
    let p = uc.plan("anthropic", "https://api.anthropic.com/v1/", "k").ok().unwrap();
    assert_eq!(p.method, HttpMethod::Post);
    assert_eq!(p.url, "https://api.anthropic.com/v1/messages");
    assert_eq!(p.headers[0], ("x-api-key".to_string(), "k".to_string()));
    assert_eq!(p.headers[1], ("anthropic-version".to_string(), "2023-06-01".to_string()));
    assert!(p.ping_body);
}

#[test]
fn google_and_baidu_probes() {
    let uc = TestConnectionUseCase::new();
    let g = uc.plan("google", "https://g.example/v1beta", "gk").ok().unwrap();
    assert_eq!(g.url, "https://g.example/v1beta/models");
    assert_eq!(g.headers, vec![("x-goog-api-key".to_string(), "gk".to_string())]);
    let b = uc.plan("baidu", "secret/", "id").ok().unwrap();
    assert_eq!(b.url, "https://aip.baidubce.com/oauth/2.0/token");
    assert_eq!(b.query[1], ("client_id".to_string(), "id".to_string()));
    assert_eq!(b.query[2], ("client_secret".to_string(), "secret/".to_string()));
}

#[test]
fn unsupported_api_type_is_reported() {
    let uc = TestConnectionUseCase::new();
    let v = uc.plan("cohere", "x", "y").err().unwrap();
    assert!(!v.valid);
    assert_eq!(v.error.unwrap(), "Unsupported API type: cohere");
}

#[test]
fn verdicts_follow_status_codes() {
    let uc = TestConnectionUseCase::new();
    let ok = uc.verdict(ApiKind::OpenAi, ProbeReply::Status { code: 200, status_text: "200 OK".into(), model_count: Some(7) });
    assert!(ok.valid);
    assert_eq!(ok.models_available, Some(7));
    let bad = uc.verdict(ApiKind::OpenAi, ProbeReply::Status { code: 401, status_text: "401 Unauthorized".into(), model_count: None });
    assert_eq!(bad.error.unwrap(), "Invalid API key");
    let other = uc.verdict(ApiKind::OpenAi, ProbeReply::Status { code: 500, status_text: "500 Internal Server Error".into(), model_count: None });
    assert_eq!(other.error.unwrap(), "HTTP 500 Internal Server Error");
    let g = uc.verdict(ApiKind::Google, ProbeReply::Status { code: 403, status_text: "403 Forbidden".into(), model_count: None });
    assert!(!g.valid && g.error.is_none());
    let f = uc.verdict(ApiKind::Baidu, ProbeReply::Failed { message: "timeout".into() });
    assert_eq!(f.error.unwrap(), "timeout");
    assert_eq!(uc.client_unavailable().error.unwrap(), "Failed to create HTTP client");
}

#[test]
fn catalog_lookup() {
    let c = catalog();
    assert_eq!(lookup_name(&c, "anthropic"), Some("Anthropic".to_string()));
    assert_eq!(lookup_name(&c, "nope"), None);
    assert!(known_provider(&c, "openai"));
    assert!(!known_provider(&c, "nope"));
}

#[test]
fn provider_status_reports_roles_and_keys() {
    let config = ProviderConfig {
        primary: Some("openai".into()),
        secondary: Some("mystery".into()),
        providers: vec![
            ProviderEntry { id: "openai".into(), api_key: Some("sk".into()), base_url: None },
            ProviderEntry { id: "anthropic".into(), api_key: Some(String::new()), base_url: None },
        ],
    };
    let st = GetProviderStatusUseCase::new().execute(&config, &catalog());
    let p = st.primary.unwrap();
    assert_eq!(p.id, "openai");
    assert_eq!(p.name, Some("OpenAI".to_string()));
    assert!(p.configured);
    let s = st.secondary.unwrap();
    assert_eq!(s.name, None);
    assert!(!s.configured);
    assert_eq!(st.configured_providers.len(), 2);
    assert!(st.configured_providers[0].has_key);
    assert!(!st.configured_providers[1].has_key);
}

#[test]
fn configure_unknown_provider_is_refused() {
    let mut v = MemVault::new(false);
    let r = ConfigureProviderUseCase::new().execute(&mut v, &catalog(), "nope", Some("k".into()), None, None, None);
    match r {
        Err(AppError::Validation(m)) => assert_eq!(m, "Unknown provider"),
        _ => panic!("expected a validation error"),
    }
    assert!(v.keys.is_empty());
}

#[test]
fn configure_with_open_vault_stores_key_in_vault() {
    let mut v = MemVault::new(false);
    let edits = ConfigureProviderUseCase::new()
        .execute(&mut v, &catalog(), "openai", Some("sk".into()), None, Some(true), None)
        .ok()
        .unwrap();
    assert!(edits.provider_key.is_none());
    assert!(edits.set_primary);
    assert!(!edits.set_secondary);
    assert_eq!(v.keys, vec![("openai".to_string(), "sk".to_string(), String::new())]);
}

#[test]
fn configure_with_locked_vault_writes_key_to_file() {
    let mut v = MemVault::new(true);
    let edits = ConfigureProviderUseCase::new()
        .execute(&mut v, &catalog(), "openai", Some("sk".into()), Some("http://b".into()), None, Some(true))
        .ok()
        .unwrap();
    assert_eq!(edits.provider_key, Some(("sk".to_string(), Some("http://b".to_string()))));
    assert!(edits.set_secondary);
    assert!(v.keys.is_empty());
}

#[test]
fn configure_vault_failure_is_internal() {
    let mut v = MemVault::new(false);
    v.fail_set = true;
    match ConfigureProviderUseCase::new().execute(&mut v, &catalog(), "openai", Some("sk".into()), None, None, None) {
        Err(AppError::Internal(m)) => assert_eq!(m, "Vault error: disk full"),
        _ => panic!("expected an internal error"),
    }
    match save_failure("read-only") {
        AppError::Internal(m) => assert_eq!(m, "Save failed: read-only"),
        _ => panic!("expected an internal error"),
    }
}

#[test]
fn unlock_outcomes() {
    let mut v = MemVault::new(true);
    assert!(matches!(UnlockUseCase::new().execute(&mut v, "pw"), Ok(false)));
    let mut v = MemVault::new(true);
    match UnlockUseCase::new().execute(&mut v, "guess") {
        Err(AppError::Unauthorized(m)) => assert_eq!(m, "Unlock failed: wrong_passphrase"),
        _ => panic!("expected unauthorized"),
    }
    match UnlockUseCase::new().execute(&mut v, "") {
        Err(AppError::Validation(m)) => assert_eq!(m, "Unlock failed: empty passphrase"),
        _ => panic!("expected a validation error"),
    }
    match UnlockUseCase::new().execute(&mut v, "half") {
        Err(AppError::Internal(m)) => assert_eq!(m, "Unknown unlock error"),
        _ => panic!("expected an internal error"),
    }
    assert!(judge_unlock(Ok(true)).is_ok());
}

#[test]
fn lock_and_migrate() {
    let mut v = MemVault::new(false);
    LockUseCase::new().execute(&mut v);
    assert!(v.locked);
    assert!(matches!(MigrateUseCase::new().execute(&mut v), Err(AppError::VaultLocked)));
    let mut v = MemVault::new(false);
    v.env_keys = vec!["openai".into()];
    assert_eq!(MigrateUseCase::new().execute(&mut v).ok().unwrap(), vec!["openai".to_string()]);
    v.env_keys.clear();
    match MigrateUseCase::new().execute(&mut v) {
        Err(AppError::Internal(m)) => assert_eq!(m, "Migration failed: nothing found"),
        _ => panic!("expected an internal error"),
    }
}

#[test]
fn configure_replaces_only_the_providers_own_key() {
    let mut v = MemVault::new(false);
    v.set_key("anthropic", "a-key", "").unwrap();
    ConfigureProviderUseCase::new()
        .execute(&mut v, &catalog(), "openai", Some("sk-1".into()), Some("http://h".into()), None, None)
        .ok()
        .unwrap();
    ConfigureProviderUseCase::new()
        .execute(&mut v, &catalog(), "openai", Some("sk-2".into()), None, None, None)
        .ok()
        .unwrap();
    assert_eq!(v.stored_key("openai"), Some(("sk-2".to_string(), String::new())));
    assert_eq!(v.stored_key("anthropic"), Some(("a-key".to_string(), String::new())));
}

#[test]
fn lock_keeps_the_stored_keys() {
    let mut v = MemVault::new(false);
    v.set_key("openai", "sk", "u").unwrap();
    LockUseCase::new().execute(&mut v);
    assert!(v.is_locked());
    assert_eq!(v.stored_key("openai"), Some(("sk".to_string(), "u".to_string())));
}

#[test]
fn unlock_hands_on_the_passphrase_and_reports_the_status() {
    let mut v = MemVault::new(true);
    assert!(UnlockUseCase::new().execute(&mut v, "wrong").is_err());
    assert!(v.is_locked());
    assert_eq!(UnlockUseCase::new().execute(&mut v, "pw").ok(), Some(false));
    assert!(!v.is_locked());
}

#[test]
fn migration_replies_are_judged() {
    assert_eq!(judge_migration(Ok(vec!["openai".to_string()])).ok(), Some(vec!["openai".to_string()]));
    match judge_migration(Err("no env".to_string())) {
        Err(AppError::Internal(m)) => assert_eq!(m, "Migration failed: no env"),
        _ => panic!("expected an internal error"),
    }
}
