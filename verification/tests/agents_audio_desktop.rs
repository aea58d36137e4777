use umbra::desktop::chat::{elapsed_clock, sphere_chat, ChatLine};
use umbra::desktop::chat::Desk;
use umbra::agent_personality::AiGender;
use umbra::desktop::chat::ThinkingOutcome;
use umbra::desktop::chat::default_desktop_providers;
use umbra::desktop::screen::Screen;
use umbra::desktop::sidebar::{address_for, theme_color, tts_status};
use umbra::desktop::sidebar::{delete_all_agents, download_status, toggle_agent};
use umbra::desktop::sidebar::{create_agent, default_agents};
use umbra::desktop::sidebar::{provider_ready, remove_provider_key, save_provider_key};
use umbra::ai_client::{AiError, ChatMessage, OllamaClient, SttClient, SttRoute, chat_error, clean_transcript, transcript_result};
use umbra::audio::{AudioEngine, SileroVadEngine, SpeechDetector, SpeechRoute, choose_fish_key};
use umbra::bridge::{FfiBridge, StrategySandbox, check_symbol, mt5_request, signal_id, strip_quotes};
use umbra::config::{UmbraConfig, home_or_tmp};
use umbra::desktop::chat::{
    ChatBook, ShortcutAction, Shortcuts, TradingReply, ai_response, pressed_key_combo,
    primary_rgb, recorded_key_combo, trading_reply,
};
use umbra::desktop::{State, View};
use umbra::emotion::{EmotionIntensity, Mood, PrimaryEmotion, regulate_mood, voice_tone_for};
use umbra::security::{component_detail, exposed_detail, exposed_ports};

#[test]
fn hot_moods_cool_down_to_low_joy() {
    let mut m = Mood { primary: PrimaryEmotion::Anger, intensity: EmotionIntensity::High, secondary: None };
    assert!(m.is_hot());
    m.cool_down();
    assert_eq!(m.intensity, EmotionIntensity::Medium);
    assert!(!m.is_hot());
    m.cool_down();
    assert_eq!(m.intensity, EmotionIntensity::Low);
    assert_eq!(m.primary, PrimaryEmotion::Anger);
    m.cool_down();
    assert_eq!(m.primary, PrimaryEmotion::Joy);
    assert!(m.is_cold());
}

#[test]
fn mood_constructors_and_coldness() {
    assert_eq!(Mood::calm().intensity, EmotionIntensity::Low);
    assert!(Mood::calm().is_cold());
    assert_eq!(Mood::happy().primary, PrimaryEmotion::Joy);
    assert_eq!(Mood::analytical().secondary, Some(PrimaryEmotion::Anticipation));
    assert_eq!(Mood::curious().secondary, Some(PrimaryEmotion::Trust));
    let strong_joy = Mood { primary: PrimaryEmotion::Joy, intensity: EmotionIntensity::High, secondary: None };
    assert!(!strong_joy.is_cold() && !strong_joy.is_hot());
}

#[test]
fn regulation_cools_only_when_needed() {
    let fear = Mood { primary: PrimaryEmotion::Fear, intensity: EmotionIntensity::High, secondary: None };
    let (m, cooled) = regulate_mood(fear, false);
    assert!(cooled);
    assert_eq!(m.intensity, EmotionIntensity::Medium);
    let (m2, cooled2) = regulate_mood(Mood::calm(), false);
    assert!(!cooled2);
    assert_eq!(m2, Mood::calm());
    let (m3, cooled3) = regulate_mood(Mood::calm(), true);
    assert!(cooled3);
    assert_eq!(m3.primary, PrimaryEmotion::Joy);
}

#[test]
fn voice_tones() {
    assert_eq!(voice_tone_for("Happy"), "cheerful");
    assert_eq!(voice_tone_for("ANGRY"), "angry");
    assert_eq!(voice_tone_for("Tired"), "sad");
    assert_eq!(voice_tone_for("surprised"), "worried");
    assert_eq!(voice_tone_for("Calm"), "neutral");
    assert_eq!(voice_tone_for("happy!"), "neutral");
}

#[test]
fn speech_detector_hysteresis() {
    let mut g = SpeechDetector::new();
    assert!(!g.step(true));
    assert!(!g.step(true));
    assert!(g.step(true));
    for _ in 0..9 {
        assert!(g.step(false));
    }
    assert!(!g.step(false));
    assert_eq!(g.silence_frames(), 10);
    g.step(true);
    assert_eq!(g.speech_frames(), 1);
    assert_eq!(g.silence_frames(), 0);
    g.reset();
    assert!(!g.is_speaking());
    assert_eq!(g.speech_frames(), 0);
}

#[test]
fn silero_is_not_available() {
    assert_eq!(SileroVadEngine::new(&[1, 2, 3]).err().unwrap(), "Silero VAD not yet implemented");
}

#[test]
fn audio_engine_settings() {
    let mut e = AudioEngine::new("/models".into(), None);
    assert!(e.use_local);
    assert_eq!(e.route(), SpeechRoute::Local);
    assert_eq!(e.whisper_model_file(), "ggml-tiny.en.bin");
    assert_eq!(e.piper_voice_file(), "en_US-lessac-medium.onnx");
    e.set_whisper_model("base");
    e.set_piper_voice("es_ES-davefx-medium");
    assert_eq!(e.whisper_model_file(), "ggml-base.en.bin");
    assert_eq!(e.piper_voice_file(), "es_ES-davefx-medium.onnx");
    assert!(e.is_local_available(false, true));
    assert!(!e.is_local_available(false, false));
    assert!(AudioEngine::new("/m".into(), Some(String::new())).use_local);
    assert_eq!(AudioEngine::new("/m".into(), Some("k".into())).route(), SpeechRoute::Api);
    assert_eq!(choose_fish_key(Some(String::new()), Some("f".into())), Some("f".to_string()));
    assert_eq!(choose_fish_key(Some("e".into()), Some("f".into())), Some("e".to_string()));
    assert_eq!(choose_fish_key(None, Some(String::new())), None);
}

#[test]
fn ai_client_endpoints_and_errors() {
    assert_eq!(OllamaClient::new().url(), "http://localhost:11434");
    let c = OllamaClient::with_url("http://host:1234//");
    assert_eq!(c.url(), "http://host:1234");
    assert_eq!(c.tags_url(), "http://host:1234/api/tags");
    assert_eq!(c.chat_url(), "http://host:1234/api/chat");
    assert_eq!(AiError::Http(404, "missing".into()).to_string(), "Ollama HTTP 404: missing");
    assert_eq!(AiError::Request("down".into()).to_string(), "Ollama request failed: down");
    assert_eq!(AiError::Parse("bad".into()).to_string(), "Ollama parse failed: bad");
    match chat_error(500, "raw".into(), Some("model not found".into())) {
        AiError::Http(c, t) => {
            assert_eq!(c, 500);
            assert_eq!(t, "model not found");
        }
        _ => panic!("expected an HTTP error"),
    }
    let m = ChatMessage::new("user", "hi");
    assert_eq!((m.role.as_str(), m.content.as_str()), ("user", "hi"));
    let local = SttClient::new_local();
    assert_eq!(local.route(), SttRoute::Local);
    assert_eq!(local.endpoint(), "http://localhost:8080/inference");
    let remote = SttClient::new_openai("sk".into());
    assert_eq!(remote.route(), SttRoute::OpenAi);
    assert_eq!(remote.endpoint(), "https://api.openai.com/v1/audio/transcriptions");
    assert_eq!(clean_transcript("  hello world\n"), "hello world");
}

#[test]
fn bridge_helpers() {
    let _ = FfiBridge::new();
    assert_eq!(mt5_request("get_positions", "\"\""), "{\"method\":\"get_positions\",\"params\":\"\"}");
    assert_eq!(strip_quotes("\"12345\""), "12345");
    assert_eq!(strip_quotes("\"\"\""), "");
    assert_eq!(signal_id(255, 7), "umbra_sig_ff_7");
    assert_eq!(signal_id(-1, 0), "umbra_sig_ffffffffffffffff_0");
    let mut sb: StrategySandbox<u32> = StrategySandbox::new();
    for i in 0..1005u32 {
        sb.record_signal(i);
    }
    assert_eq!(sb.len(), 1000);
    assert_eq!(*sb.get(0), 5);
    assert_eq!(*sb.get(999), 1004);
}

#[test]
fn config_defaults() {
    let c = UmbraConfig::default();
    assert_eq!(c.api.backend_port, 8484);
    assert_eq!(c.api.frontend_port, 8340);
    assert_eq!(c.ollama.base_url, "http://localhost:11434");
    assert_eq!(c.training.jepa_epochs, 50);
    assert_eq!(c.security.env_file_perms, "0600");
    assert_eq!(home_or_tmp(None), "/tmp");
    assert_eq!(home_or_tmp(Some("/home/u".into())), "/home/u");
}

#[test]
fn exposed_ports_from_ss_listing() {
    let listing = "State  Recv-Q Send-Q Local Address:Port Peer Address:Port\n\
LISTEN 0      128    0.0.0.0:22         0.0.0.0:*\n\
LISTEN 0      128    127.0.0.1:631      0.0.0.0:*\n\
LISTEN 0      128    [::]:8080          [::]:*\r\n\
LISTEN 0      4096   :::9000            :::*\n";
    let ports = exposed_ports(listing);
    assert_eq!(ports, vec!["22".to_string(), "631".to_string(), "9000".to_string()]);
    assert_eq!(exposed_detail(&ports), "Exposed ports: 22, 631, 9000");
    assert!(exposed_ports("").is_empty());
    assert_eq!(component_detail(Some(" 6.1.0\n")), "6.1.0");
    assert_eq!(component_detail(None), "not found");
}

#[test]
fn screens_default() {
    assert_eq!(View::default(), View::Hud);
    assert_eq!(State::default(), State::Idle);
}

#[test]
fn hud_messages_open_a_conversation() {
    let mut b = ChatBook::new();
    assert_eq!(b.send_hud_message("   "), None);
    assert_eq!(b.len(), 0);
    assert_eq!(b.send_hud_message("  hello "), Some(0));
    assert_eq!(b.selected(), Some(0));
    assert_eq!(b.line_count(0), 1);
    assert_eq!(b.send_hud_message("again"), Some(0));
    assert_eq!(b.line_count(0), 2);
    b.select(Some(9));
    assert_eq!(b.send_hud_message("new"), Some(1));
    assert_eq!(b.len(), 2);
    assert!(b.deliver_reply(1, "reply".into()));
    assert_eq!(b.line_count(1), 2);
    assert!(!b.deliver_reply(5, "lost".into()));
}

#[test]
fn conversation_messages_need_a_selection() {
    let mut b = ChatBook::new();
    assert_eq!(b.send_conv_message("hi"), None);
    b.send_hud_message("start");
    assert_eq!(b.send_conv_message(" next "), Some(0));
    assert_eq!(b.line_count(0), 2);
    assert_eq!(b.send_conv_message(""), None);
}

#[test]
fn offline_replies() {
    assert!(ai_response(0).starts_with("I've analysed"));
    assert_eq!(ai_response(7), ai_response(0));
    assert!(ai_response(6).starts_with("Cognitive processing"));
    assert!(matches!(trading_reply("What is my BALANCE?", 0), TradingReply::Account));
    assert!(matches!(trading_reply("eurusd outlook", 0), TradingReply::Market));
    assert!(matches!(trading_reply("should I open?", 0), TradingReply::Position));
    match trading_reply("hello", 2) {
        TradingReply::Remark(m) => assert!(m.starts_with("Running predictive models")),
        _ => panic!("expected a remark"),
    }
}

#[test]
fn theme_colour() {
    assert_eq!(primary_rgb("#00DCFF"), (0, 220, 255));
    assert_eq!(primary_rgb("#7c3aed"), (124, 58, 237));
    assert_eq!(primary_rgb("#+f+f+f"), (15, 15, 15));
    assert_eq!(primary_rgb("#GG0000"), (167, 139, 250));
    assert_eq!(primary_rgb("00DCFF"), (167, 139, 250));
    assert_eq!(primary_rgb("#00DCF"), (167, 139, 250));
}

#[test]
fn shortcuts() {
    let mut s = Shortcuts::new();
    assert_eq!(s.action_for("Ctrl+B"), Some(ShortcutAction::ToggleSidebar));
    assert_eq!(s.action_for("Ctrl+M"), Some(ShortcutAction::ToggleMute));
    assert_eq!(s.action_for("Ctrl+N"), Some(ShortcutAction::Other));
    assert_eq!(s.action_for("Ctrl+Q"), None);
    assert_eq!(pressed_key_combo(true, true, false, "b"), "Ctrl+Shift+B");
    assert_eq!(recorded_key_combo(true, false, true, false, "K"), "Ctrl+Shift+K");
    s.recording = Some(0);
    s.record("Ctrl+M");
    assert_eq!(s.entries[0].key, "Ctrl+B");
    assert!(s.recording.is_none());
    s.recording = Some(0);
    s.record("Ctrl+K");
    assert_eq!(s.entries[0].key, "Ctrl+K");
    assert_eq!(s.action_for("Ctrl+K"), Some(ShortcutAction::ToggleSidebar));
}

#[test]
fn new_conversations_are_numbered_and_selected() {
    let mut b = ChatBook::new();
    assert_eq!(b.new_conversation(), 0);
    assert_eq!(b.new_conversation(), 1);
    assert_eq!(b.len(), 2);
    assert_eq!(b.selected(), Some(1));
    assert_eq!(b.send_conv_message("hi"), Some(1));
    assert_eq!(b.line_count(1), 1);
    assert_eq!(b.line_count(0), 0);
}

#[test]
fn deleting_the_selected_conversation_moves_the_selection() {
    let mut b = ChatBook::new();
    b.new_conversation();
    b.new_conversation();
    b.new_conversation();
    b.select(Some(1));
    b.delete_conversation(1);
    assert_eq!(b.len(), 2);
    assert_eq!(b.selected(), Some(1));
    b.delete_conversation(1);
    assert_eq!(b.selected(), Some(0));
    b.delete_conversation(0);
    assert_eq!(b.len(), 0);
    assert_eq!(b.selected(), None);
}

#[test]
fn deleting_another_conversation_keeps_the_selection() {
    let mut b = ChatBook::new();
    b.new_conversation();
    b.new_conversation();
    b.select(Some(0));
    b.delete_conversation(1);
    assert_eq!(b.selected(), Some(0));
    assert_eq!(b.len(), 1);
}

#[test]
fn thinking_asks_the_model_about_the_last_line() {
    let mut b = ChatBook::new();
    assert!(matches!(b.finish_thinking(true, 0), ThinkingOutcome::Idle));
    assert_eq!(b.send_hud_message("  hello there "), Some(0));
    match b.finish_thinking(true, 3) {
        ThinkingOutcome::AskModel { conv, prompt } => {
            assert_eq!(conv, 0);
            assert_eq!(prompt, "hello there");
        }
        _ => panic!("expected a model request"),
    }
    assert_eq!(b.line_count(0), 1);
}

#[test]
fn thinking_without_a_model_adds_the_offline_reply() {
    let mut b = ChatBook::new();
    b.send_hud_message("hi");
    assert!(matches!(b.finish_thinking(false, 8), ThinkingOutcome::Replied { conv: 0 }));
    assert_eq!(b.line_count(0), 2);
    b.select(Some(5));
    assert!(matches!(b.finish_thinking(false, 8), ThinkingOutcome::Idle));
}

#[test]
fn screen_switches_views_and_panels() {
    let mut s = Screen::new();
    s.click_sphere();
    assert!(s.sphere_selected);
    s.show_view(View::Trading);
    assert!(s.sphere_selected);
    s.settle_sphere();
    assert!(!s.sphere_selected);
    s.show_view(View::Hud);
    s.click_sphere();
    s.toggle_sidebar();
    s.escape();
    assert!(!s.sphere_selected && !s.sidebar_open);
    assert!(!s.apply_shortcut(ShortcutAction::ToggleMute));
    assert!(s.muted);
    assert!(s.apply_shortcut(ShortcutAction::RecenterWindow));
    assert!(s.muted);
}

#[test]
fn sidebar_creates_agents_from_a_typed_name() {
    let mut agents = default_agents();
    assert_eq!(agents.len(), 4);
    assert_eq!(agents[1].name, "analyst");
    assert_eq!(agents[2].agent_type, "SSM");
    let mut name = String::new();
    create_agent(&mut agents, &mut name, 0, 0);
    assert_eq!(agents.len(), 4);
    let mut name = String::from("scout");
    create_agent(&mut agents, &mut name, 5, 1);
    assert_eq!(agents.len(), 5);
    assert_eq!(agents[4].name, "scout");
    assert_eq!(agents[4].agent_type, "Vision");
    assert_eq!(agents[4].gender, AiGender::Female);
    assert!(!agents[4].active);
    assert!(name.is_empty());
}

#[test]
fn sidebar_themes_address_and_voice_status() {
    assert_eq!(theme_color(0), "#00DCFF");
    assert_eq!(theme_color(1), "#BB86FC");
    assert_eq!(theme_color(4), "#FFFFFF");
    assert_eq!(theme_color(9), "#00DCFF");
    assert_eq!(address_for("female"), "ma'am");
    assert_eq!(address_for("male"), "sir");
    assert_eq!(tts_status(true, true), "🗣️ Local (Piper/espeak) detected");
    assert_eq!(tts_status(false, true), "☁️ Fish API configured");
    assert_eq!(tts_status(false, false), "🔍 Auto-detecting...");
}

#[test]
fn sidebar_provider_keys() {
    let mut ps = default_desktop_providers();
    assert!(!provider_ready(&ps, "OpenAI"));
    save_provider_key(&mut ps[0]);
    assert!(!ps[0].configured);
    ps[0].key = String::from("sk-test");
    save_provider_key(&mut ps[0]);
    assert!(ps[0].configured);
    assert!(provider_ready(&ps, "OpenAI"));
    remove_provider_key(&mut ps[0]);
    assert!(!ps[0].configured && ps[0].key.is_empty());
    assert!(!provider_ready(&ps, "OpenAI"));
}

#[test]
fn signal_ids_with_different_numbers_differ() {
    assert_ne!(signal_id(255, 1), signal_id(255, 11));
    assert_ne!(signal_id(15, 1), signal_id(1, 11));
    assert_ne!(signal_id(0, 10), signal_id(0, 1));
}

#[test]
fn symbols_are_checked_against_the_allowed_list() {
    assert_eq!(check_symbol("", &vec![]), Err("Símbolo vacío".to_string()));
    assert_eq!(check_symbol("EURUSD", &vec![]), Ok(()));
    let allowed = vec!["EURUSD".to_string(), "XAUUSD".to_string()];
    assert_eq!(check_symbol("XAUUSD", &allowed), Ok(()));
    assert_eq!(check_symbol("BTCUSD", &allowed), Err("Símbolo no permitido: BTCUSD".to_string()));
}

#[test]
fn test_emotional_state_calm() {
    let state = Mood::calm();
    assert_eq!(state.intensity, EmotionIntensity::Low);
}

#[test]
fn desk_turns_analytical_after_a_delivered_reply() {
    let mut d = Desk::new();
    assert_eq!(d.frames, 0);
    assert_eq!(d.state, State::Idle);
    d.next_frame();
    assert_eq!(d.frames, 1);
    assert_eq!(d.hud_message("hello"), Some(0));
    assert_eq!(d.state, State::Thinking);
    assert_eq!(d.mood, Mood::curious());
    assert!(!d.take_reply(3, "lost".to_string()));
    assert_eq!(d.mood, Mood::curious());
    assert!(d.take_reply(0, "hi".to_string()));
    assert_eq!(d.mood, Mood::analytical());
    assert_eq!(d.book.line_count(0), 2);
}

#[test]
fn desk_offline_reply_turns_analytical() {
    let mut d = Desk::new();
    d.hud_message("hi");
    d.mood = Mood::calm();
    assert!(matches!(d.think_done(false), ThinkingOutcome::Replied { conv: 0 }));
    assert_eq!(d.mood, Mood::analytical());
    assert_eq!(d.book.line_count(0), 2);
}

#[test]
fn transcripts_follow_the_status() {
    assert_eq!(transcript_result(200, "  hello \n".to_string()).ok(), Some("hello".to_string()));
    match transcript_result(500, "boom".to_string()) {
        Err(AiError::Http(c, b)) => {
            assert_eq!(c, 500);
            assert_eq!(b, "boom");
        }
        _ => panic!("expected an HTTP error"),
    }
}

#[test]
fn sandbox_keeps_the_last_thousand_signals() {
    let mut s: StrategySandbox<u32> = StrategySandbox::new();
    for i in 0..1005u32 {
        s.record_signal(i);
    }
    assert_eq!(s.len(), 1000);
    assert_eq!(*s.get(0), 5);
    assert_eq!(*s.get(999), 1004);
}

#[test]
fn sidebar_agent_toggles_and_downloads() {
    let mut agents = default_agents();
    toggle_agent(&mut agents, 2);
    assert!(agents[2].active);
    assert!(!agents[1].active);
    toggle_agent(&mut agents, 2);
    assert!(!agents[2].active);
    delete_all_agents(&mut agents);
    assert!(agents.is_empty());
    assert_eq!(download_status(""), None);
    assert_eq!(download_status("org/model"), Some("Downloading org/model...".to_string()));
}

#[test]
fn shortcut_recording_starts_and_settles() {
    let mut s = Shortcuts::new();
    s.start_recording(2);
    assert_eq!(s.recording, Some(2));
    assert!(s.entries[2].recording);
    s.settle_recording();
    assert_eq!(s.recording, Some(2));
    s.entries[2].recording = false;
    s.settle_recording();
    assert_eq!(s.recording, None);
}

#[test]
fn sphere_chat_adds_the_line_and_a_processing_reply() {
    let mut lines: Vec<ChatLine> = Vec::new();
    assert!(!sphere_chat(&mut lines, "   "));
    assert!(lines.is_empty());
    assert!(sphere_chat(&mut lines, "  what now? "));
    assert_eq!(lines.len(), 2);
    assert_eq!(lines[0].text, "You: what now?");
    assert!(lines[0].is_user);
    assert_eq!(lines[1].text, "Umbra: Processing...");
    assert_eq!(lines[1].sender, "umbra");
}

#[test]
fn elapsed_clock_pads_to_two_digits() {
    assert_eq!(elapsed_clock(0), "00:00:00");
    assert_eq!(elapsed_clock(3_725), "01:02:05");
    assert_eq!(elapsed_clock(360_000), "100:00:00");
}
