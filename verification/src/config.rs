//! The settings file: its sections and the defaults used when it is
//! missing or unreadable.

use vstd::prelude::*;
use crate::text::owned;

verus! {

/// Where models, sub-agents, the voice frontend and logs live.
pub struct PathsConfig {
    pub models_dir: String,
    pub subagents_dir: String,
    pub jarvis_dir: String,
    pub logs_dir: String,
}

/// The ports and hosts of the backend and the frontend.
pub struct ApiConfig {
    pub backend_port: u16,
    pub frontend_port: u16,
    pub backend_host: String,
    pub frontend_host: String,
}

/// The speech service.
pub struct AudioConfig {
    pub fish_api_url: String,
    pub default_voice_id: String,
}

/// The local model server.
pub struct OllamaConfig {
    pub base_url: String,
}

/// How often and how much the system trains itself.
pub struct TrainingConfig {
    pub auto_train_interval_mins: u32,
    pub max_examples: u32,
    pub jepa_epochs: u32,
}

/// Where credentials live and how the environment file is protected.
pub struct SecurityConfig {
    pub auth_dir: String,
    pub env_file_perms: String,
}

/// The whole settings file.
pub struct UmbraConfig {
    pub paths: PathsConfig,
    pub api: ApiConfig,
    pub audio: AudioConfig,
    pub ollama: OllamaConfig,
    pub training: TrainingConfig,
    pub security: SecurityConfig,
}

/// The default settings.
pub open spec fn is_default_config(c: UmbraConfig) -> bool {
    &&& c.paths.models_dir@ == "/mnt/external/projects/umbra/models"@
    &&& c.paths.subagents_dir@ == "/mnt/external/projects/umbra/sub_agents"@
    &&& c.paths.jarvis_dir@ == "/mnt/external/projects/jarvis"@
    &&& c.paths.logs_dir@ == "/mnt/external/projects/umbra/logs"@
    &&& c.api.backend_port == 8484
    &&& c.api.frontend_port == 8340
    &&& c.api.backend_host@ == "127.0.0.1"@
    &&& c.api.frontend_host@ == "127.0.0.1"@
    &&& c.audio.fish_api_url@ == "https://api.fish.audio/v1/tts"@
    &&& c.audio.default_voice_id@ == "612b878b113047d9a770c069c8b4fdfe"@
    &&& c.ollama.base_url@ == "http://localhost:11434"@
    &&& c.training.auto_train_interval_mins == 30
    &&& c.training.max_examples == 1000
    &&& c.training.jepa_epochs == 50
    &&& c.security.auth_dir@ == "~/.umbra"@
    &&& c.security.env_file_perms@ == "0600"@
}

impl Default for UmbraConfig {
    fn default() -> (r: UmbraConfig)
        ensures
            is_default_config(r),
    {
        UmbraConfig {
            paths: PathsConfig {
                models_dir: owned("/mnt/external/projects/umbra/models"),
                subagents_dir: owned("/mnt/external/projects/umbra/sub_agents"),
                jarvis_dir: owned("/mnt/external/projects/jarvis"),
                logs_dir: owned("/mnt/external/projects/umbra/logs"),
            },
            api: ApiConfig {
                backend_port: 8484,
                frontend_port: 8340,
                backend_host: owned("127.0.0.1"),
                frontend_host: owned("127.0.0.1"),
            },
            audio: AudioConfig {
                fish_api_url: owned("https://api.fish.audio/v1/tts"),
                default_voice_id: owned("612b878b113047d9a770c069c8b4fdfe"),
            },
            ollama: OllamaConfig { base_url: owned("http://localhost:11434") },
            training: TrainingConfig { auto_train_interval_mins: 30, max_examples: 1000, jepa_epochs: 50 },
            security: SecurityConfig { auth_dir: owned("~/.umbra"), env_file_perms: owned("0600") },
        }
    }
}

/// The home directory to use: `HOME`, or `/tmp` when it is not set.
pub fn home_or_tmp(home: Option<String>) -> (r: String)
    ensures
        r@ == match home {
            Some(h) => h@,
            None => "/tmp"@,
        },
{
    match home {
        Some(h) => h,
        None => owned("/tmp"),
    }
}

} // verus!
