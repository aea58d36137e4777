//! User settings: the voice settings and their defaults, the user's
//! preferences, the status summary of the settings page, and the use cases
//! around training and agent orchestration.

use vstd::prelude::*;
use crate::setup::{ConfigValue, ConfigValueView, entries_view, toml_replace_table, toml_table_replaced};
use crate::emotion::Mood;
use crate::text::owned;

verus! {

/// A request that sets the voice settings; absent fields take defaults.
pub struct VoiceSettings {
    pub stt_language: Option<String>,
    pub tts_engine: Option<String>,
    pub wake_word: Option<String>,
    pub voice_feedback: Option<bool>,
}

/// The voice settings in effect.
pub struct VoiceConfig {
    pub stt_language: String,
    pub tts_engine: String,
    pub wake_word: String,
    pub voice_feedback: bool,
}

/// `v` is `given` when present, else the default `d`.
pub open spec fn or_default(given: Option<String>, d: Seq<char>, v: String) -> bool {
    v@ == match given {
        Some(g) => g@,
        None => d,
    }
}

/// `c` holds the given settings, with `en-US`, `fish`, `umbra` and voice
/// feedback on for whatever is absent.
pub open spec fn voice_with_defaults(s: VoiceSettings, c: VoiceConfig) -> bool {
    &&& or_default(s.stt_language, "en-US"@, c.stt_language)
    &&& or_default(s.tts_engine, "fish"@, c.tts_engine)
    &&& or_default(s.wake_word, "umbra"@, c.wake_word)
    &&& c.voice_feedback == match s.voice_feedback {
        Some(b) => b,
        None => true,
    }
}

fn pick_or(given: Option<String>, d: &str) -> (r: String)
    ensures
        or_default(given, d@, r),
{
    match given {
        Some(g) => g,
        None => owned(d),
    }
}

fn resolve_voice(s: VoiceSettings) -> (r: VoiceConfig)
    ensures
        voice_with_defaults(s, r),
{
    VoiceConfig {
        stt_language: pick_or(s.stt_language, "en-US"),
        tts_engine: pick_or(s.tts_engine, "fish"),
        wake_word: pick_or(s.wake_word, "umbra"),
        voice_feedback: match s.voice_feedback {
            Some(b) => b,
            None => true,
        },
    }
}

/// Reads the voice settings.
pub struct GetVoiceUseCase;

impl GetVoiceUseCase {
    pub fn new() -> (r: Self) {
        GetVoiceUseCase
    }

    /// The voice settings in effect for the `[voice]` values stored (each
    /// absent when the file lacks it or holds another type).
    pub fn execute(&self, stored: VoiceSettings) -> (r: VoiceConfig)
        ensures
            voice_with_defaults(stored, r),
    {
        resolve_voice(stored)
    }
}

/// The `[voice]` entries written for `c`, in order.
pub open spec fn voice_entries(c: VoiceConfig) -> Seq<(Seq<char>, ConfigValueView)> {
    seq![
        ("stt_language"@, ConfigValueView::Text(c.stt_language@)),
        ("tts_engine"@, ConfigValueView::Text(c.tts_engine@)),
        ("wake_word"@, ConfigValueView::Text(c.wake_word@)),
        ("voice_feedback"@, ConfigValueView::Flag(c.voice_feedback)),
    ]
}

/// The configuration text `config` with its `[voice]` table replaced by
/// the voice settings `c` (the other tables kept).
pub fn voice_config_text(config: &str, c: &VoiceConfig) -> (r: String)
    ensures
        r@ == toml_table_replaced(config@, "voice"@, voice_entries(*c)),
{
    let mut entries: Vec<(String, ConfigValue)> = Vec::new();
    entries.push((owned("stt_language"), ConfigValue::Text(owned(c.stt_language.as_str()))));
    entries.push((owned("tts_engine"), ConfigValue::Text(owned(c.tts_engine.as_str()))));
    entries.push((owned("wake_word"), ConfigValue::Text(owned(c.wake_word.as_str()))));
    entries.push((owned("voice_feedback"), ConfigValue::Flag(c.voice_feedback)));
    assert(entries_view(entries@) =~= voice_entries(*c));
    toml_replace_table(config, "voice", &entries)
}

/// Saves the voice settings.
pub struct SaveVoiceUseCase;

impl SaveVoiceUseCase {
    pub fn new() -> (r: Self) {
        SaveVoiceUseCase
    }

    /// The `[voice]` table to write for a request: every field, with the
    /// defaults for those the request leaves out.
    pub fn execute(&self, body: VoiceSettings) -> (r: VoiceConfig)
        ensures
            voice_with_defaults(body, r),
    {
        resolve_voice(body)
    }
}

/// The user's preferences.
pub struct Preferences {
    pub user_name: String,
    pub honorific: String,
    pub calendar_accounts: Vec<String>,
}

/// A request that changes some preferences.
pub struct PrefsBody {
    pub user_name: Option<String>,
    pub honorific: Option<String>,
    pub calendar_accounts: Option<Vec<String>>,
}

/// The preferences after a change request: each field given replaces the
/// stored one.
pub fn update_prefs(current: Preferences, body: PrefsBody) -> (r: Preferences)
    ensures
        or_default(body.user_name, current.user_name@, r.user_name),
        or_default(body.honorific, current.honorific@, r.honorific),
        r.calendar_accounts@ == match body.calendar_accounts {
            Some(c) => c@,
            None => current.calendar_accounts@,
        },
{
    Preferences {
        user_name: match body.user_name {
            Some(n) => n,
            None => current.user_name,
        },
        honorific: match body.honorific {
            Some(h) => h,
            None => current.honorific,
        },
        calendar_accounts: match body.calendar_accounts {
            Some(c) => c,
            None => current.calendar_accounts,
        },
    }
}

/// The names of the primary and secondary models the backend reports.
pub struct BackendModels {
    pub primary: String,
    pub secondary: String,
}

/// The backend's model names, `N/A` for each one it did not report.
pub fn backend_models(primary: Option<String>, secondary: Option<String>) -> (r: BackendModels)
    ensures
        or_default(primary, "N/A"@, r.primary),
        or_default(secondary, "N/A"@, r.secondary),
{
    BackendModels { primary: pick_or(primary, "N/A"), secondary: pick_or(secondary, "N/A") }
}

/// What the settings page shows about the system.
pub struct SettingsStatus {
    pub has_anthropic: bool,
    pub has_fish: bool,
    pub keys_configured: bool,
    pub uptime_seconds: u64,
    pub models: BackendModels,
}

/// A key counts as present when the environment holds a non-empty one or
/// the vault holds one.
pub open spec fn key_present(env: Option<String>, in_vault: bool) -> bool {
    (env matches Some(k) && k@.len() > 0) || in_vault
}

fn key_found(env: &Option<String>, in_vault: bool) -> (b: bool)
    ensures
        b == key_present(*env, in_vault),
{
    match env {
        Some(k) => !k.as_str().is_empty() || in_vault,
        None => in_vault,
    }
}

/// Reports the status of the settings.
pub struct GetSettingsStatusUseCase;

impl GetSettingsStatusUseCase {
    pub fn new() -> (r: Self) {
        GetSettingsStatusUseCase
    }

    /// The settings status: which speech and model keys are present
    /// (`ANTHROPIC_API_KEY` or the vault's `anthropic`, `FISH_API_KEY` or
    /// the vault's `fish_audio`), keys counted as configured only when both
    /// are, with the uptime and the backend's models.
    pub fn execute(
        &self,
        anthropic_env: Option<String>,
        anthropic_in_vault: bool,
        fish_env: Option<String>,
        fish_in_vault: bool,
        uptime_seconds: u64,
        models: BackendModels,
    ) -> (r: SettingsStatus)
        ensures
            r.has_anthropic == key_present(anthropic_env, anthropic_in_vault),
            r.has_fish == key_present(fish_env, fish_in_vault),
            r.keys_configured == (r.has_anthropic && r.has_fish),
            r.uptime_seconds == uptime_seconds,
            r.models == models,
    {
        let has_anthropic = key_found(&anthropic_env, anthropic_in_vault);
        let has_fish = key_found(&fish_env, fish_in_vault);
        SettingsStatus {
            has_anthropic,
            has_fish,
            keys_configured: has_anthropic && has_fish,
            uptime_seconds,
            models,
        }
    }
}

/// The outcome of a training run as reported: the model made, or the
/// reason it failed.
pub enum TrainingOutcome {
    Trained { model: String },
    Failed { error: String },
}

/// Reports the trainer's statistics.
pub struct GetTrainingStatsUseCase;

impl GetTrainingStatsUseCase {
    pub fn new() -> (r: Self) {
        GetTrainingStatsUseCase
    }
}

/// Starts a training run.
pub struct TriggerTrainingUseCase;

/// The model a triggered training run trains.
pub open spec fn base_model() -> Seq<char> {
    "umbra-base"@
}

impl TriggerTrainingUseCase {
    pub fn new() -> (r: Self) {
        TriggerTrainingUseCase
    }

    /// The model that a run trains.
    pub fn model(&self) -> (r: &'static str)
        ensures
            r@ == base_model(),
    {
        "umbra-base"
    }

    /// The report of a run that gave `result`: the model's path, or the
    /// failure's message; a failure is reported, not raised.
    pub fn execute(&self, result: Result<String, String>) -> (r: TrainingOutcome)
        ensures
            match result {
                Ok(p) => r matches TrainingOutcome::Trained { model } && model == p,
                Err(e) => r matches TrainingOutcome::Failed { error } && error == e,
            },
    {
        match result {
            Ok(model) => TrainingOutcome::Trained { model },
            Err(error) => TrainingOutcome::Failed { error },
        }
    }
}

/// Assigns tasks to agents.
pub struct AgentOrchestrator;

impl AgentOrchestrator {
    pub fn new() -> (r: Self) {
        AgentOrchestrator
    }

    /// The mood an agent takes after a task: happy on success, curious
    /// otherwise.
    pub fn emotional_response(&self, success: bool) -> (r: Mood)
        ensures
            r == if success { Mood::spec_happy() } else { Mood::spec_curious() },
    {
        if success {
            Mood::happy()
        } else {
            Mood::curious()
        }
    }
}

/// A task for an agent: what to do, with what context, needing which
/// capability.
pub struct AgentTask {
    pub id: String,
    pub description: String,
    pub context: String,
    pub required_capability: Option<String>,
}

/// Generates the tone of a reply.
pub struct GenerateToneUseCase;

/// Carries out a command.
pub struct ExecuteCommandUseCase;

/// Checks a command before it is carried out.
pub struct ValidateCommandUseCase;

/// Records and reads the audit log.
pub struct AuditLogUseCase;

/// Decides whether a user may act on a resource.
pub struct AuthorizeActionUseCase;

/// Checks a speaker's voice against a user.
pub struct VerifyIdentityUseCase;

/// Clones a voice from a sample.
pub struct CloneVoiceUseCase;

/// Detects the emotion in speech.
pub struct DetectEmotionUseCase;

/// Detects the language of a text.
pub struct DetectLanguageUseCase;

/// Turns text into speech.
pub struct SynthesizeSpeechUseCase;

/// Turns speech into text.
pub struct TranscribeSpeechUseCase;

} // verus!
