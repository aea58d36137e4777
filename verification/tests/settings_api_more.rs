use umbra::api::{ActionRequest, JepaConvertRequest, action_verdict, answered_chat, chat_answer, blocked_action, blocked_chat, conversion_name, model_family, status_mode};
use umbra::audio::fish_voice;
use umbra::bridge::SignalIds;
use umbra::browser::urlencoding;
use umbra::debugger::Debugger;
use umbra::desktop::chat::{default_desktop_providers, detect_tts, mark_configured};
use umbra::emotion::{EmotionIntensity, Mood, PrimaryEmotion};
use umbra::providers::{ApiProvider, ProviderConfig, ProviderEntry, TestConnectionUseCase, TestTally, provider_detail};
use umbra::settings::{
    AgentOrchestrator, GetSettingsStatusUseCase, GetTrainingStatsUseCase, GetVoiceUseCase, Preferences,
    PrefsBody, SaveVoiceUseCase, TrainingOutcome, TriggerTrainingUseCase, VoiceSettings, backend_models,
    update_prefs,
};

fn provider(id: &str, api_type: &str, base: &str) -> ApiProvider {
    ApiProvider {
        id: id.into(),
        name: id.to_uppercase(),
        name_zh: String::new(),
        api_type: api_type.into(),
        base_url: base.into(),
        models: vec!["m1".into(), "m2".into()],
        requires_key: true,
        is_chinese: false,
        is_local: false,
        supports_reasoning: false,
        supports_vision: false,
    }
}

#[test]
fn voice_settings_take_defaults() {
    let empty = VoiceSettings { stt_language: None, tts_engine: None, wake_word: None, voice_feedback: None };
    let v = GetVoiceUseCase::new().execute(empty);
    assert_eq!((v.stt_language.as_str(), v.tts_engine.as_str(), v.wake_word.as_str(), v.voice_feedback), ("en-US", "fish", "umbra", true));
    let given = VoiceSettings { stt_language: Some("es-ES".into()), tts_engine: None, wake_word: Some("jarvis".into()), voice_feedback: Some(false) };
    let s = SaveVoiceUseCase::new().execute(given);
    assert_eq!((s.stt_language.as_str(), s.tts_engine.as_str(), s.wake_word.as_str(), s.voice_feedback), ("es-ES", "fish", "jarvis", false));
}

#[test]
fn preferences_update() {
    let p = Preferences { user_name: "Tony".into(), honorific: "sir".into(), calendar_accounts: vec![] };
    let q = update_prefs(p, PrefsBody { user_name: None, honorific: Some("boss".into()), calendar_accounts: Some(vec!["work".into()]) });
    assert_eq!(q.user_name, "Tony");
    assert_eq!(q.honorific, "boss");
    assert_eq!(q.calendar_accounts, vec!["work".to_string()]);
}

#[test]
fn settings_status_needs_both_keys() {
    let uc = GetSettingsStatusUseCase::new();
    let s = uc.execute(Some("a".into()), false, Some(String::new()), true, 42, backend_models(Some("llama3".into()), None));
    assert!(s.has_anthropic && s.has_fish && s.keys_configured);
    assert_eq!(s.uptime_seconds, 42);
    assert_eq!(s.models.primary, "llama3");
    assert_eq!(s.models.secondary, "N/A");
    let t = uc.execute(Some(String::new()), false, None, true, 0, backend_models(None, None));
    assert!(!t.has_anthropic && t.has_fish && !t.keys_configured);
}

#[test]
fn training_and_orchestration() {
    let _ = GetTrainingStatsUseCase::new();
    let uc = TriggerTrainingUseCase::new();
    assert_eq!(uc.model(), "umbra-base");
    match uc.execute(Ok("/models/umbra-base.bin".into())) {
        TrainingOutcome::Trained { model } => assert_eq!(model, "/models/umbra-base.bin"),
        TrainingOutcome::Failed { .. } => panic!("expected a trained model"),
    }
    match uc.execute(Err("no data".into())) {
        TrainingOutcome::Failed { error } => assert_eq!(error, "no data"),
        TrainingOutcome::Trained { .. } => panic!("expected a failure"),
    }
    let o = AgentOrchestrator::new();
    assert_eq!(o.emotional_response(true), Mood::happy());
    let c = o.emotional_response(false);
    assert_eq!((c.primary, c.intensity), (PrimaryEmotion::Anticipation, EmotionIntensity::Medium));
}

#[test]
fn chat_answers() {
    let b = blocked_chat("[IronClaw] blocked".into(), None);
    assert_eq!(b.response, "[IronClaw] blocked");
    assert_eq!(b.conversation_id, "");
    assert_eq!((b.tokens_used.input, b.tokens_used.output), (0, 0));
    let a = answered_chat("héllo", "hi there", Some("c1".into()));
    assert_eq!(a.conversation_id, "c1");
    assert_eq!((a.tokens_used.input, a.tokens_used.output), (6, 8));
    let fresh = answered_chat("x", "y", None);
    let id = fresh.conversation_id;
    assert_eq!(id.len(), 36);
    for (i, c) in id.chars().enumerate() {
        if i == 8 || i == 13 || i == 18 || i == 23 {
            assert_eq!(c, '-');
        } else {
            assert!(c.is_ascii_hexdigit() && !c.is_ascii_uppercase());
        }
    }
}

#[test]
fn action_answers() {
    let req = ActionRequest { action: "open_app".into(), args: "{\"name\":\"x\"}".into() };
    let ok = action_verdict(&req.action, &req.args, Ok(true));
    assert_eq!(ok.status, "ok");
    assert_eq!(ok.result, "[Umbra] Acción 'open_app' ejecutada: {\"name\":\"x\"}");
    assert!(ok.blocked_by.is_none());
    let no = action_verdict("rm", "[]", Ok(false));
    assert_eq!(no.blocked_by.unwrap(), "[Thoth] Acción bloqueada por seguridad");
    let err = action_verdict("rm", "[]", Err("gate down".into()));
    assert_eq!(err.status, "error");
    assert_eq!(err.blocked_by.unwrap(), "[Thoth] Error: gate down");
    let blocked = blocked_action("[IronClaw] no".into());
    assert_eq!(blocked.status, "blocked");
    assert_eq!(status_mode(true), "limitado");
    assert_eq!(status_mode(false), "activo");
    assert_eq!(model_family(None), "ollama");
    assert_eq!(conversion_name(JepaConvertRequest { model: "m".into(), output_name: None }), "m");
    assert_eq!(conversion_name(JepaConvertRequest { model: "m".into(), output_name: Some("n".into()) }), "n");
}

#[test]
fn provider_detail_prefers_table_values() {
    let catalog = vec![provider("openai", "openai", "https://api.openai.com/v1")];
    let cfg = ProviderConfig {
        primary: None,
        secondary: None,
        providers: vec![ProviderEntry { id: "openai".into(), api_key: Some("sk".into()), base_url: Some("http://proxy".into()) }],
    };
    let d = provider_detail(&catalog, &cfg, "openai").unwrap();
    assert_eq!(d.base_url, "http://proxy");
    assert!(d.api_key_configured);
    assert_eq!(d.models, vec!["m1".to_string(), "m2".to_string()]);
    let bare = ProviderConfig { primary: None, secondary: None, providers: vec![] };
    let e = provider_detail(&catalog, &bare, "openai").unwrap();
    assert_eq!(e.base_url, "https://api.openai.com/v1");
    assert!(!e.api_key_configured);
    assert!(provider_detail(&catalog, &bare, "nope").is_none());
}

#[test]
fn provider_probe_and_tally() {
    let uc = TestConnectionUseCase::new();
    let p = provider("google", "google", "https://gen.example/v1");
    let probe = uc.probe_for(&p, "gk", None).ok().unwrap();
    assert_eq!(probe.url, "https://gen.example/v1/models");
    let other = uc.probe_for(&p, "gk", Some("http://alt/")).ok().unwrap();
    assert_eq!(other.url, "http://alt/models");
    assert_eq!(uc.unknown_provider().error.unwrap(), "Unknown provider");
    assert_eq!(uc.no_key().error.unwrap(), "No key configured");
    let mut t = TestTally::new();
    t.record(&uc.no_key());
    t.record(&uc.client_unavailable());
    assert_eq!((t.tested, t.passed), (2, 0));
}

#[test]
fn desktop_provider_list() {
    let mut ps = default_desktop_providers();
    assert_eq!(ps.len(), 23);
    assert_eq!(ps[17].name, "Ollama");
    mark_configured(&mut ps, "Ollama");
    assert!(ps[17].configured);
    assert!(!ps[18].configured);
    mark_configured(&mut ps, "Nobody");
    assert_eq!(ps.iter().filter(|p| p.configured).count(), 1);
    let d = detect_tts(false, false, true, false, false);
    assert!(d.local_detected && d.use_local && !d.fish_detected);
    let e = detect_tts(false, false, false, true, false);
    assert!(!e.local_detected && !e.use_local && e.fish_detected);
    assert!(detect_tts(false, false, false, false, true).use_local);
}

#[test]
fn debugger_categories() {
    let mut d = Debugger::new();
    d.record_error_at("network", "a", 1);
    d.record_error_at("network", "b", 2);
    d.record_latency_at("/x", 2_000_000_000, 3);
    let counts = d.category_counts();
    assert_eq!(counts, vec![("debugger".to_string(), 1), ("network".to_string(), 2)]);
}

#[test]
fn signal_ids_count_up() {
    let mut ids = SignalIds::new();
    let a = ids.generate_signal_id();
    let b = ids.generate_signal_id();
    assert!(a.starts_with("umbra_sig_") && a.ends_with("_0"));
    assert!(b.ends_with("_1"));
}

#[test]
fn fish_voice_default() {
    assert_eq!(fish_voice(None), "612b878b113047d9a770c069c8b4fdfe");
    assert_eq!(fish_voice(Some("v".into())), "v");
}

fn decode(s: &str) -> Vec<u8> {
    let b = s.as_bytes();
    let mut out = Vec::new();
    let mut i = 0;
    while i < b.len() {
        if b[i] == b'%' && i + 2 < b.len() + 0 + 1 {
            let hex = std::str::from_utf8(&b[i + 1..i + 3]).unwrap();
            out.push(u8::from_str_radix(hex, 16).unwrap());
            i += 3;
        } else {
            out.push(b[i]);
            i += 1;
        }
    }
    out
}

#[test]
fn percent_encoding_round_trips() {
    for s in ["plain", "a b&c=d", "ünïcødé ✓", "%41", ""] {
        assert_eq!(decode(&urlencoding(s)), s.as_bytes().to_vec());
    }
}

#[test]
fn chat_answer_keeps_the_given_conversation() {
    let a = chat_answer("ab", "xyz", "conv-9".to_string());
    assert_eq!(a.response, "xyz");
    assert_eq!(a.conversation_id, "conv-9");
    assert_eq!(a.tokens_used.input, 2);
    assert_eq!(a.tokens_used.output, 3);
    assert!(a.actions.is_empty());
}
