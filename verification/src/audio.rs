//! Audio decisions: when a stream of frames counts as speech, which speech
//! engines the audio engine uses, and where it finds its local models.

use vstd::prelude::*;
use crate::text::{owned, push_str};

verus! {

/// The hysteresis of voice activity detection: speech begins after enough
/// consecutive loud frames and ends after enough consecutive quiet ones.
pub struct SpeechDetector {
    min_speech_frames: u32,
    min_silence_frames: u32,
    speech_frames: u32,
    silence_frames: u32,
    speaking: bool,
}

/// The state of a speech detector as plain values.
pub struct DetectorView {
    pub min_speech: u32,
    pub min_silence: u32,
    pub speech_frames: u32,
    pub silence_frames: u32,
    pub speaking: bool,
}

impl View for SpeechDetector {
    type V = DetectorView;

    closed spec fn view(&self) -> DetectorView {
        DetectorView {
            min_speech: self.min_speech_frames,
            min_silence: self.min_silence_frames,
            speech_frames: self.speech_frames,
            silence_frames: self.silence_frames,
            speaking: self.speaking,
        }
    }
}

/// The loud frames in a row that start speech.
pub const MIN_SPEECH_FRAMES: u32 = 3;

/// The quiet frames in a row that end speech.
pub const MIN_SILENCE_FRAMES: u32 = 10;

/// The detector after one more frame, loud or quiet: the run of its kind grows
/// and the other run restarts; a silent detector starts speaking once the loud
/// run is long enough, a speaking detector stops once the quiet run is.
pub open spec fn detector_step(g: DetectorView, loud: bool) -> DetectorView {
    let speech = if loud { g.speech_frames + 1 } else { 0 };
    let silence = if loud { 0 } else { g.silence_frames + 1 };
    let speaking = if !g.speaking && speech >= g.min_speech {
        true
    } else if g.speaking && silence >= g.min_silence {
        false
    } else {
        g.speaking
    };
    DetectorView {
        speech_frames: speech as u32,
        silence_frames: silence as u32,
        speaking,
        ..g
    }
}

/// The detector after a run of frames, in order.
pub open spec fn detector_run(g: DetectorView, frames: Seq<bool>) -> DetectorView
    decreases frames.len(),
{
    if frames.len() == 0 {
        g
    } else {
        detector_step(detector_run(g, frames.drop_last()), frames.last())
    }
}

/// Neither run can overflow on the next frame.
pub open spec fn can_step(g: DetectorView) -> bool {
    g.speech_frames < u32::MAX && g.silence_frames < u32::MAX
}

impl SpeechDetector {
    /// A silent detector that needs three loud frames to start speech and ten
    /// quiet ones to end it.
    pub fn new() -> (r: SpeechDetector)
        ensures
            r@ == (DetectorView {
                min_speech: MIN_SPEECH_FRAMES,
                min_silence: MIN_SILENCE_FRAMES,
                speech_frames: 0,
                silence_frames: 0,
                speaking: false,
            }),
    {
        SpeechDetector {
            min_speech_frames: MIN_SPEECH_FRAMES,
            min_silence_frames: MIN_SILENCE_FRAMES,
            speech_frames: 0,
            silence_frames: 0,
            speaking: false,
        }
    }

    /// Whether speech is going on.
    pub fn is_speaking(&self) -> (r: bool)
        ensures
            r == self@.speaking,
    {
        self.speaking
    }

    /// The loud frames in a row so far.
    pub fn speech_frames(&self) -> (r: u32)
        ensures
            r == self@.speech_frames,
    {
        self.speech_frames
    }

    /// The quiet frames in a row so far.
    pub fn silence_frames(&self) -> (r: u32)
        ensures
            r == self@.silence_frames,
    {
        self.silence_frames
    }

    /// Forgets both runs and the speech.
    pub fn reset(&mut self)
        ensures
            final(self)@ == (DetectorView {
                speech_frames: 0,
                silence_frames: 0,
                speaking: false,
                ..old(self)@
            }),
    {
        self.speech_frames = 0;
        self.silence_frames = 0;
        self.speaking = false;
    }

    /// Takes one frame, loud when its energy is above the threshold, and
    /// tells whether speech is going on after it.
    pub fn step(&mut self, loud: bool) -> (r: bool)
        requires
            can_step(old(self)@),
        ensures
            final(self)@ == detector_step(old(self)@, loud),
            r == final(self)@.speaking,
    {
        if loud {
            self.speech_frames = self.speech_frames + 1;
            self.silence_frames = 0;
        } else {
            self.silence_frames = self.silence_frames + 1;
            self.speech_frames = 0;
        }
        if !self.speaking && self.speech_frames >= self.min_speech_frames {
            self.speaking = true;
        } else if self.speaking && self.silence_frames >= self.min_silence_frames {
            self.speaking = false;
        }
        self.speaking
    }
}

proof fn lemma_loud_run_counts(g: DetectorView, frames: Seq<bool>)
    requires
        forall|i: int| 0 <= i < frames.len() ==> frames[i],
        g.speech_frames + frames.len() <= u32::MAX,
        g.min_silence > 0,
    ensures
        frames.len() > 0 ==> detector_run(g, frames).speech_frames == g.speech_frames + frames.len(),
        frames.len() > 0 ==> detector_run(g, frames).silence_frames == 0,
        detector_run(g, frames).min_speech == g.min_speech,
        detector_run(g, frames).min_silence == g.min_silence,
        g.speaking ==> detector_run(g, frames).speaking,
    decreases frames.len(),
{
    if frames.len() > 0 {
        let before = frames.drop_last();
        assert forall|i: int| 0 <= i < before.len() implies before[i] by {
            assert(before[i] == frames[i]);
        }
        lemma_loud_run_counts(g, before);
        assert(frames.last() == frames[frames.len() - 1]);
    }
}

proof fn lemma_quiet_run_counts(g: DetectorView, frames: Seq<bool>)
    requires
        forall|i: int| 0 <= i < frames.len() ==> !frames[i],
        g.silence_frames + frames.len() <= u32::MAX,
        g.min_speech > 0,
    ensures
        frames.len() > 0 ==> detector_run(g, frames).silence_frames == g.silence_frames + frames.len(),
        frames.len() > 0 ==> detector_run(g, frames).speech_frames == 0,
        detector_run(g, frames).min_speech == g.min_speech,
        detector_run(g, frames).min_silence == g.min_silence,
        !g.speaking ==> !detector_run(g, frames).speaking,
    decreases frames.len(),
{
    if frames.len() > 0 {
        let before = frames.drop_last();
        assert forall|i: int| 0 <= i < before.len() implies !before[i] by {
            assert(before[i] == frames[i]);
        }
        lemma_quiet_run_counts(g, before);
        assert(frames.last() == frames[frames.len() - 1]);
    }
}

/// Speech has begun once the detector has seen as many loud frames in a row as
/// it needs, whatever came before.
pub proof fn lemma_loud_run_starts_speech(g: DetectorView, frames: Seq<bool>)
    requires
        frames.len() >= g.min_speech,
        frames.len() > 0,
        forall|i: int| 0 <= i < frames.len() ==> frames[i],
        g.speech_frames + frames.len() <= u32::MAX,
        g.min_silence > 0,
    ensures
        detector_run(g, frames).speaking,
{
    let before = frames.drop_last();
    assert forall|i: int| 0 <= i < before.len() implies before[i] by {
        assert(before[i] == frames[i]);
    }
    lemma_loud_run_counts(g, before);
    assert(frames.last() == frames[frames.len() - 1]);
    let h = detector_run(g, before);
    assert(h.speech_frames + 1 >= g.min_speech) by {
        if before.len() == 0 {
            assert(g.min_speech <= 1);
        }
    }
}

/// Speech has ended once the detector has seen as many quiet frames in a row as
/// it needs, whatever came before.
pub proof fn lemma_quiet_run_ends_speech(g: DetectorView, frames: Seq<bool>)
    requires
        frames.len() >= g.min_silence,
        frames.len() > 0,
        forall|i: int| 0 <= i < frames.len() ==> !frames[i],
        g.silence_frames + frames.len() <= u32::MAX,
        g.min_speech > 0,
    ensures
        !detector_run(g, frames).speaking,
{
    let before = frames.drop_last();
    assert forall|i: int| 0 <= i < before.len() implies !before[i] by {
        assert(before[i] == frames[i]);
    }
    lemma_quiet_run_counts(g, before);
    assert(frames.last() == frames[frames.len() - 1]);
    let h = detector_run(g, before);
    assert(h.silence_frames + 1 >= g.min_silence) by {
        if before.len() == 0 {
            assert(g.min_silence <= 1);
        }
    }
}

/// Fewer loud frames in a row than the detector needs, from a silent detector with
/// no loud run, start no speech.
pub proof fn lemma_short_loud_run_stays_silent(g: DetectorView, frames: Seq<bool>)
    requires
        !g.speaking,
        g.speech_frames == 0,
        g.min_silence > 0,
        frames.len() < g.min_speech,
        forall|i: int| 0 <= i < frames.len() ==> frames[i],
    ensures
        !detector_run(g, frames).speaking,
    decreases frames.len(),
{
    if frames.len() > 0 {
        let before = frames.drop_last();
        assert forall|i: int| 0 <= i < before.len() implies before[i] by {
            assert(before[i] == frames[i]);
        }
        lemma_short_loud_run_stays_silent(g, before);
        lemma_loud_run_counts(g, before);
        assert(frames.last() == frames[frames.len() - 1]);
    }
}

/// The Silero voice activity engine, which is not available yet.
pub struct SileroVadEngine;

impl SileroVadEngine {
    /// Building the engine always fails: it is not implemented.
    pub fn new(model_bytes: &[u8]) -> (r: Result<SileroVadEngine, String>)
        ensures
            r matches Err(e) && e@ == "Silero VAD not yet implemented"@,
    {
        Err(owned("Silero VAD not yet implemented"))
    }
}

/// How the audio engine transcribes and speaks.
#[derive(Clone, Copy, Debug, PartialEq, Eq, Structural)]
pub enum SpeechRoute {
    /// whisper.cpp and Piper on this machine.
    Local,
    /// The Fish Audio API.
    Api,
}

/// The audio engine's settings: where local models live, which Whisper
/// model and Piper voice to use, and whether to stay local.
pub struct AudioEngine {
    pub models_dir: String,
    pub whisper_model: String,
    pub piper_voice: String,
    pub use_local: bool,
}

impl AudioEngine {
    /// An engine over `models_dir` with the `tiny` Whisper model and the
    /// `en_US-lessac-medium` voice, staying local unless a Fish Audio key
    /// that is not empty is available.
    pub fn new(models_dir: String, fish_api_key: Option<String>) -> (r: AudioEngine)
        ensures
            r.models_dir@ == models_dir@,
            r.whisper_model@ == "tiny"@,
            r.piper_voice@ == "en_US-lessac-medium"@,
            r.use_local == match fish_api_key {
                Some(k) => k@.len() == 0,
                None => true,
            },
    {
        let use_local = match &fish_api_key {
            Some(k) => k.as_str().is_empty(),
            None => true,
        };
        AudioEngine {
            models_dir,
            whisper_model: owned("tiny"),
            piper_voice: owned("en_US-lessac-medium"),
            use_local,
        }
    }

    /// Chooses the Whisper model.
    pub fn set_whisper_model(&mut self, model: &str)
        ensures
            final(self).whisper_model@ == model@,
            final(self).models_dir == old(self).models_dir,
            final(self).piper_voice == old(self).piper_voice,
            final(self).use_local == old(self).use_local,
    {
        self.whisper_model = owned(model);
    }

    /// Chooses the Piper voice.
    pub fn set_piper_voice(&mut self, voice: &str)
        ensures
            final(self).piper_voice@ == voice@,
            final(self).models_dir == old(self).models_dir,
            final(self).whisper_model == old(self).whisper_model,
            final(self).use_local == old(self).use_local,
    {
        self.piper_voice = owned(voice);
    }

    /// The route transcription and synthesis take.
    pub fn route(&self) -> (r: SpeechRoute)
        ensures
            r == if self.use_local { SpeechRoute::Local } else { SpeechRoute::Api },
    {
        if self.use_local {
            SpeechRoute::Local
        } else {
            SpeechRoute::Api
        }
    }

    /// The file name of the Whisper model, `ggml-<model>.en.bin`.
    pub fn whisper_model_file(&self) -> (r: String)
        ensures
            r@ == "ggml-"@ + self.whisper_model@ + ".en.bin"@,
    {
        let mut r = owned("ggml-");
        push_str(&mut r, self.whisper_model.as_str());
        push_str(&mut r, ".en.bin");
        r
    }

    /// The file name of the Piper voice, `<voice>.onnx`.
    pub fn piper_voice_file(&self) -> (r: String)
        ensures
            r@ == self.piper_voice@ + ".onnx"@,
    {
        let mut r = owned(self.piper_voice.as_str());
        push_str(&mut r, ".onnx");
        r
    }

    /// Local speech is available when the Whisper model or the Piper voice
    /// is present.
    pub fn is_local_available(&self, whisper_present: bool, piper_present: bool) -> (r: bool)
        ensures
            r == (whisper_present || piper_present),
    {
        whisper_present || piper_present
    }
}

/// The Fish Audio voice used when none is configured.
pub const DEFAULT_FISH_VOICE: &'static str = "612b878b113047d9a770c069c8b4fdfe";

/// The Fish Audio voice to speak with: `FISH_VOICE_ID` when set, else the
/// default voice.
pub fn fish_voice(configured: Option<String>) -> (r: String)
    ensures
        r@ == match configured {
            Some(v) => v@,
            None => DEFAULT_FISH_VOICE@,
        },
{
    match configured {
        Some(v) => v,
        None => owned(DEFAULT_FISH_VOICE),
    }
}

/// The Fish Audio key to use: the environment's when it is not empty, else
/// the one the frontend hands out when that one is not empty.
pub fn choose_fish_key(from_env: Option<String>, from_frontend: Option<String>) -> (r: Option<String>)
    ensures
        match from_env {
            Some(k) if k@.len() > 0 => r == Some(k),
            _ => match from_frontend {
                Some(k) if k@.len() > 0 => r == Some(k),
                _ => r is None,
            },
        },
{
    match from_env {
        Some(k) => {
            if !k.as_str().is_empty() {
                return Some(k);
            }
        },
        None => {},
    }
    match from_frontend {
        Some(k) => {
            if !k.as_str().is_empty() {
                Some(k)
            } else {
                None
            }
        },
        None => None,
    }
}

} // verus!
