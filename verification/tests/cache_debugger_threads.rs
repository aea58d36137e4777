use umbra::agent_personality::{AiGender, ConversationThread, OpinionType};
use umbra::bounded::BoundedLog;
use umbra::cache::TtlCache;
use umbra::debugger::{Debugger, Severity};

#[test]
fn cache_read_after_write_and_expiry() {
    let mut c: TtlCache<u64, String> = TtlCache::new(100);
    c.set_at(1, "one".to_string(), 10);
    assert_eq!(c.get_at(&1, 10), Some("one".to_string()));
    assert_eq!(c.get_at(&1, 109), Some("one".to_string()));
    assert_eq!(c.get_at(&1, 110), None);
    assert_eq!(c.get_at(&2, 10), None);
    c.set_at(2, "two".to_string(), 50);
    c.clear_expired_at(120);
    assert_eq!(c.len(), 1);
    assert_eq!(c.get_at(&2, 120), Some("two".to_string()));
    c.invalidate(&2);
    assert_eq!(c.get_at(&2, 120), None);
    c.clear();
    assert_eq!(c.len(), 0);
    let mut live: TtlCache<u64, String> = TtlCache::new(3_600_000_000_000);
    live.set(3, "three".to_string());
    assert_eq!(live.get(&3), Some("three".to_string()));
    live.clear_expired();
    assert_eq!(live.len(), 1);
}

#[test]
fn cache_expiry_saturates() {
    let mut c: TtlCache<u64, u32> = TtlCache::new(u64::MAX);
    c.set_at(7, 70, 5);
    assert_eq!(c.get_at(&7, u64::MAX - 1), Some(70));
}

#[test]
fn bounded_log_keeps_most_recent() {
    let mut l = BoundedLog::new(3);
    for i in 0..5u32 {
        l.push(i);
    }
    assert_eq!(l.len(), 3);
    assert_eq!(*l.get(0), 2);
    assert_eq!(*l.get(2), 4);
    assert_eq!(l.pop_oldest(), Some(2));
    l.clear();
    assert!(l.is_empty());
    assert_eq!(l.capacity(), 3);
}

#[test]
fn debugger_starts_with_one_info() {
    let d = Debugger::new();
    let recent = d.recent_diagnostics(10);
    assert_eq!(recent.len(), 1);
    assert_eq!(recent[0].id, 1);
    assert_eq!(recent[0].message, "Debugger iniciado");
    assert_eq!(recent[0].severity.to_string(), "INFO");
    let s = d.summary();
    assert_eq!(s.health, "healthy");
    assert_eq!(s.total_diagnostics, 1);
}

#[test]
fn debugger_records_latencies_up_to_ten_seconds() {
    let mut d = Debugger::new();
    d.record_latency_at("/api/chat", 10_000_000_000, 1);
    d.record_latency_at("/api/chat", 1_000_000, 2);
    let s = d.summary();
    assert_eq!(s.total_requests, 2);
    assert_eq!(s.active_warnings, 0);
    assert_eq!(s.latencies, vec![10_000_000_000, 1_000_000]);
    assert_eq!(d.recent_diagnostics(5).len(), 1);
}

#[test]
fn debugger_errors_degrade_health() {
    let mut d = Debugger::new();
    d.record_error_at("network", "timeout", 5);
    let s = d.summary();
    assert_eq!(s.active_errors, 1);
    assert_eq!(s.error_count, 1);
    assert_eq!(s.health, "degraded");
    assert_eq!(d.recent_diagnostics(1)[0].severity, Severity::Error);
}

#[test]
fn debugger_lints_short_and_incoherent_answers() {
    let mut d = Debugger::new();
    d.lint_response_at("null", "/x", 3);
    let r = d.recent_diagnostics(2);
    assert_eq!(r.len(), 2);
    assert_eq!(r[0].message, "Posible incoherencia: 'null' en respuesta de /x");
    assert_eq!(r[1].message, "Respuesta muy corta (4 chars < 10) de /x");
    let mut d2 = Debugger::new();
    d2.lint_response_at("a perfectly fine answer", "/y", 3);
    assert_eq!(d2.recent_diagnostics(5).len(), 1);
}

#[test]
fn debugger_cleanup_keeps_recent_and_severe() {
    let mut d = Debugger::new();
    d.report_at(Severity::Warning, "q", "old warning", None, 0);
    d.report_at(Severity::Critical, "q", "old critical", None, 0);
    d.cleanup_old_at(7_200_000_000_000);
    let msgs: Vec<String> = d.recent_diagnostics(10).into_iter().map(|x| x.message).collect();
    assert_eq!(msgs, vec!["old critical".to_string()]);
}

#[test]
fn genders_voices_and_greetings() {
    assert_eq!(AiGender::Female.tts_voice(), "nova");
    assert_eq!(AiGender::Male.tts_voice(), "default");
    assert_eq!(AiGender::Androgynous.icon(), "⚤");
    assert_eq!(AiGender::Neutral.communication_style(), "Objective and neutral");
    assert_eq!(AiGender::Male.greeting("Umbra"), "Umbra here. Ready to analyze.");
}

#[test]
fn thread_messages_and_last_n() {
    let mut t = ConversationThread::new_at("markets", 1_700_000_000_123_456_789);
    assert_eq!(t.id, "conv_1700000000123456789");
    assert_eq!(t.started_at, 1_700_000_000);
    assert!(t.active);
    t.add_message_at("trader", "buy", &AiGender::Male, OpinionType::Agreement, 5);
    t.add_message_at("analyst", "wait", &AiGender::Female, OpinionType::Disagreement, 6);
    t.add_message("voice", "ok", &AiGender::Neutral, OpinionType::Analysis);
    let last = t.last_n(2);
    assert_eq!(last.len(), 2);
    assert_eq!(last[0].content, "wait");
    assert_eq!(last[1].from, "voice");
    assert_eq!(last[1].to, vec!["*".to_string()]);
    assert_eq!(t.last_n(10).len(), 3);
    assert_eq!(t.last_n(0).len(), 0);
    let fresh = ConversationThread::new("x");
    assert!(fresh.id.starts_with("conv_"));
}

#[test]
fn cache_length_counts_distinct_keys() {
    let mut c: TtlCache<u64, u32> = TtlCache::new(1_000);
    c.set_at(1, 10, 0);
    c.set_at(2, 20, 0);
    c.set_at(1, 11, 5);
    assert_eq!(c.len(), 2);
    c.invalidate(&1);
    assert_eq!(c.len(), 1);
    c.invalidate(&1);
    assert_eq!(c.len(), 1);
}

#[test]
fn recent_diagnostics_come_newest_first_with_falling_ids() {
    let mut d = Debugger::new();
    d.report(Severity::Warning, "network", "slow", None);
    d.report(Severity::Error, "network", "down", None);
    let r = d.recent_diagnostics(10);
    assert_eq!(r.len(), 3);
    assert!(r[0].id > r[1].id && r[1].id > r[2].id);
    assert_eq!(r[0].message, "down");
}

#[test]
fn report_ids_count_the_reports_made() {
    let mut d = Debugger::new();
    assert_eq!(d.report_at(Severity::Info, "a", "one", None, 1), 2);
    assert_eq!(d.report_at(Severity::Info, "a", "two", None, 2), 3);
    d.record_error_at("b", "x", 3);
    assert_eq!(d.report_at(Severity::Info, "a", "three", None, 4), 5);
}
