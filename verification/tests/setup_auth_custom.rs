use umbra::auth::{
    choose_auth_token, generate_token, is_authorized, session_cookie, session_token, token_of_draws, trim_str,
};
use umbra::customization::{
    Customization, CustomizationBody, StoredCustomization, apply_customization, default_fields,
    default_list, load_customization, open_customization, seal_customization, seal_with_fresh_nonce, sealed_bytes,
};
use umbra::discovery::{
    SearchQuery, lang_to_code, plan_discovery, search_limit, stt_models_or_default,
    tts_models_or_default,
};
use umbra::setup::{
    ModeError, SetModeBody, SystemMode, current_mode, discovered_models, is_first_run,
    locale_language, mode_or_balanced, set_mode, apply_mode,
};
use umbra::settings::{voice_config_text, VoiceConfig};

#[test]
fn modes_and_their_settings() {
    let s = set_mode(&SetModeBody { mode: "secure".into() }).ok().unwrap();
    assert_eq!(s.mode, "secure");
    assert_eq!(s.auto_lock_minutes, 5);
    assert!(s.require_vault && s.firefox_hardening && s.system_hardening);
    assert_eq!(s.cors_origin, "strict");
    let b = set_mode(&SetModeBody { mode: "balanced".into() }).ok().unwrap();
    assert_eq!((b.auto_lock_minutes, b.require_vault, b.firefox_hardening, b.system_hardening), (15, false, true, false));
    assert_eq!(b.cors_origin, "local");
    let u = set_mode(&SetModeBody { mode: "unrestricted".into() }).ok().unwrap();
    assert_eq!((u.auto_lock_minutes, u.firefox_hardening), (0, false));
    assert_eq!(u.cors_origin, "any");
    assert_eq!(set_mode(&SetModeBody { mode: "Secure".into() }).err(), Some(ModeError::InvalidMode));
}

#[test]
fn mode_labels() {
    let all = SystemMode::all();
    assert_eq!(all.len(), 3);
    assert_eq!(all[0].id(), "secure");
    assert_eq!(SystemMode::Balanced.label(), "⚖️ Balanced");
    assert_eq!(SystemMode::Unrestricted.label_es(), "🚀 Sin restricciones");
    assert_eq!(SystemMode::Secure.description_es(), "Full TLS, vault required, auto-lock 5min, restricted CORS, Firefox hardening");
    assert_eq!(SystemMode::parse("balanced"), Some(SystemMode::Balanced));
}

#[test]
fn first_run_only_without_files() {
    assert!(is_first_run(false, false));
    assert!(!is_first_run(true, false));
    assert!(!is_first_run(false, true));
}

#[test]
fn current_mode_from_config() {
    assert_eq!(current_mode(None), "balanced");
    assert_eq!(current_mode(Some("[system]\nmode = \"secure\"\n")), "secure");
    assert_eq!(current_mode(Some("[system]\nauto_lock_minutes = 5\n")), "balanced");
    assert_eq!(current_mode(Some("not = = toml")), "balanced");
}

#[test]
fn locale_language_guess() {
    assert_eq!(locale_language(Some("es_MX.UTF-8")), "es-ES");
    assert_eq!(locale_language(Some("zh_CN.UTF-8")), "zh-CN");
    assert_eq!(locale_language(Some("fr_FR.UTF-8")), "en-US");
    assert_eq!(locale_language(None), "en-US");
}

#[test]
fn discovered_models_keep_first_ten_named() {
    let mut items: Vec<Option<String>> = (0..12).map(|i| Some(format!("m{}", i))).collect();
    items[1] = None;
    let names = discovered_models(&items);
    assert_eq!(names.len(), 9);
    assert_eq!(names[0], "m0");
    assert_eq!(names[1], "m2");
    assert_eq!(names[8], "m9");
}

#[test]
fn language_codes() {
    assert_eq!(lang_to_code("es-MX"), "es");
    assert_eq!(lang_to_code("sq-AL"), "sq");
    assert_eq!(lang_to_code("xx-YY"), "en");
    assert_eq!(lang_to_code(""), "en");
}

#[test]
fn discovery_queries() {
    let p = plan_discovery(Some("de-DE".into()));
    assert_eq!(p.code, "de");
    assert_eq!(p.stt_query, "whisper-small-de");
    assert_eq!(p.tts_query, "piper-tts-de");
    assert_eq!(p.llm_query, "de-small");
    let e = plan_discovery(None);
    assert_eq!(e.language, "en-US");
    assert_eq!(e.stt_query, "whisper-small");
    assert_eq!(e.tts_query, "piper-tts");
    assert_eq!(e.llm_query, "en-small");
    assert_eq!(stt_models_or_default(vec![]), vec!["openai/whisper-small".to_string()]);
    assert_eq!(tts_models_or_default(vec![]), vec!["rhasspy/piper-voices".to_string()]);
    assert_eq!(tts_models_or_default(vec!["x".into()]), vec!["x".to_string()]);
    assert_eq!(search_limit(&SearchQuery { query: None, language: None, limit: None }), 10);
    assert_eq!(search_limit(&SearchQuery { query: None, language: None, limit: Some(3) }), 3);
}

#[test]
fn session_cookie_parsing() {
    assert_eq!(session_token("umbra_session=abc"), Some("abc".to_string()));
    assert_eq!(session_token("a=b; umbra_session=xyz; c=d"), Some("xyz".to_string()));
    assert_eq!(session_token("a=b;umbra_session = no"), None);
    assert_eq!(session_token("umbra_session=v=w"), Some("v=w".to_string()));
    assert_eq!(session_token("other=1"), None);
    assert_eq!(session_token(""), None);
    assert_eq!(session_token("  umbra_session=t  ;x"), Some("t".to_string()));
}

#[test]
fn authorization_by_key_or_cookie() {
    assert!(is_authorized("tok", None, "tok"));
    assert!(!is_authorized("", None, "tok"));
    assert!(is_authorized("", Some("umbra_session=tok"), "tok"));
    assert!(!is_authorized("bad", Some("umbra_session=other"), "tok"));
    let header = session_cookie("tok");
    assert_eq!(header, "umbra_session=tok; HttpOnly; SameSite=Strict; Secure; Max-Age=86400; Path=/");
}

#[test]
fn tokens() {
    let t = generate_token();
    assert_eq!(t.len(), 32);
    assert!(t.chars().all(|c| c.is_ascii_hexdigit() && !c.is_ascii_uppercase()));
    let kept = choose_auth_token(Some("  stored-token\n"));
    assert!(!kept.generated);
    assert_eq!(kept.token, "stored-token");
    let fresh = choose_auth_token(Some("   "));
    assert!(fresh.generated);
    assert_eq!(fresh.token.len(), 32);
    assert!(choose_auth_token(None).generated);
    assert_eq!(trim_str("\u{2009} x \u{3000}"), "x");
}

#[test]
fn customization_file_round_trip() {
    let key = [7u8; 32];
    let nonce = [1u8; 12];
    let plain = b"{\"name\":\"Jarvis\"}";
    let sealed = seal_customization(&key, &nonce, plain);
    assert_eq!(sealed.len(), plain.len() + 28);
    assert_eq!(&sealed[..12], &nonce);
    assert_eq!(open_customization(&key, &sealed), Some(plain.to_vec()));
    let other = [8u8; 32];
    assert_eq!(open_customization(&other, &sealed), None);
    let mut tampered = sealed.clone();
    tampered[20] ^= 1;
    assert_eq!(open_customization(&key, &tampered), None);
    assert_eq!(open_customization(&key, &sealed[..27]), None);
    let fresh = seal_with_fresh_nonce(&key, plain);
    assert_eq!(open_customization(&key, &fresh), Some(plain.to_vec()));
}

#[test]
fn customization_defaults_and_updates() {
    let key = [0u8; 32];
    let d = default_fields();
    assert_eq!(d.name, "UMBRA");
    assert_eq!(d.primary_color, "#7c3aed");
    assert_eq!(default_list().len(), 12);
    assert_eq!(default_list()[11], ("persona".to_string(), "professional".to_string()));
    match load_customization(&key, &StoredCustomization::Missing) {
        Customization::Fields(f) => assert_eq!(f.greeting, "sir"),
        Customization::DefaultList => panic!("expected fields"),
    }
    assert!(matches!(load_customization(&key, &StoredCustomization::Unreadable), Customization::DefaultList));
    assert!(matches!(load_customization(&key, &StoredCustomization::Bytes(vec![0; 40])), Customization::DefaultList));
    let body = CustomizationBody {
        name: Some("Jarvis".into()),
        greeting: None,
        wake_word: None,
        tts_engine: None,
        tts_voice: None,
        stt_language: None,
        theme: Some("light".into()),
        primary_color: None,
        accent_color: None,
        icon_style: None,
        response_style: None,
        persona: None,
    };
    match apply_customization(Customization::Fields(default_fields()), body) {
        Customization::Fields(f) => {
            assert_eq!(f.name, "Jarvis");
            assert_eq!(f.theme, "light");
            assert_eq!(f.greeting, "sir");
        }
        Customization::DefaultList => panic!("expected fields"),
    }
}

#[test]
fn named_mode_or_balanced() {
    assert_eq!(mode_or_balanced(Some("secure".to_string())), "secure");
    assert_eq!(mode_or_balanced(None), "balanced");
}

#[test]
fn sealed_file_is_nonce_then_ciphertext() {
    assert_eq!(sealed_bytes(&[1, 2, 3], &[9, 8]), vec![1, 2, 3, 9, 8]);
    assert_eq!(sealed_bytes(&[], &[]), Vec::<u8>::new());
    let key = [7u8; 32];
    let nonce = [5u8; 12];
    let sealed = seal_customization(&key, &nonce, b"abc");
    assert_eq!(&sealed[..12], &nonce[..]);
    assert_eq!(sealed.len(), 12 + 3 + 16);
    assert_ne!(&sealed[12..15], b"abc");
}

#[test]
fn token_spells_the_draws_in_hex() {
    assert_eq!(token_of_draws(&vec![0, 9, 10, 15, 3]), "09af3");
    assert_eq!(token_of_draws(&vec![]), "");
}

#[test]
fn mode_switch_replaces_only_the_system_table() {
    let before = "[voice]\nwake_word = \"hey\"\n\n[system]\nmode = \"balanced\"\n";
    let (st, text) = apply_mode(before, &SetModeBody { mode: "secure".to_string() }).ok().unwrap();
    assert_eq!(st.mode, "secure");
    assert_eq!(current_mode(Some(&text)), "secure");
    assert!(text.contains("wake_word = \"hey\""));
    assert!(text.contains("auto_lock_minutes = 5"));
    assert!(text.contains("cors_origin = \"strict\""));
    assert!(apply_mode(before, &SetModeBody { mode: "turbo".to_string() }).is_err());
    let fresh = apply_mode("not = = toml", &SetModeBody { mode: "unrestricted".to_string() }).ok().unwrap().1;
    assert_eq!(current_mode(Some(&fresh)), "unrestricted");
    assert!(!fresh.contains("not"));
}

#[test]
fn voice_settings_replace_the_voice_table() {
    let v = VoiceConfig {
        stt_language: "es-ES".to_string(),
        tts_engine: "piper".to_string(),
        wake_word: "umbra".to_string(),
        voice_feedback: false,
    };
    let text = voice_config_text("[system]\nmode = \"secure\"\n", &v);
    assert_eq!(current_mode(Some(&text)), "secure");
    assert!(text.contains("tts_engine = \"piper\""));
    assert!(text.contains("voice_feedback = false"));
}
