//! The discrete side of an agent's emotional state on Plutchik's wheel: its
//! primary and secondary emotion and its intensity, the cognitive cooling
//! that calms a heated state, and the voice tone an emotion's label calls
//! for.

use vstd::prelude::*;
use crate::text::{chars_of, starts_ci, starts_ci_at};

verus! {

/// The kinds of model an agent runs on.
#[derive(Clone, Copy, Debug, PartialEq, Eq, Structural)]
pub enum AgentType {
    LLM,
    JEPA,
    SNN,
    SSM,
    Audio,
    Vision,
}

/// The eight primary emotions of Plutchik's wheel.
#[derive(Clone, Copy, Debug, PartialEq, Eq, Structural)]
pub enum PrimaryEmotion {
    Joy,
    Trust,
    Fear,
    Surprise,
    Sadness,
    Disgust,
    Anger,
    Anticipation,
}

/// How strongly an emotion is felt.
#[derive(Clone, Copy, Debug, PartialEq, Eq, Structural)]
pub enum EmotionIntensity {
    Low,
    Medium,
    High,
}

/// The discrete part of an emotional state.
#[derive(Clone, Copy, Debug, PartialEq, Eq, Structural)]
pub struct Mood {
    pub primary: PrimaryEmotion,
    pub intensity: EmotionIntensity,
    pub secondary: Option<PrimaryEmotion>,
}

/// A heated state: anger, fear or surprise felt strongly.
pub open spec fn spec_is_hot(m: Mood) -> bool {
    (m.primary == PrimaryEmotion::Anger || m.primary == PrimaryEmotion::Fear || m.primary
        == PrimaryEmotion::Surprise) && m.intensity == EmotionIntensity::High
}

/// A cool state: joy, trust or anticipation not felt strongly.
pub open spec fn spec_is_cold(m: Mood) -> bool {
    (m.primary == PrimaryEmotion::Joy || m.primary == PrimaryEmotion::Trust || m.primary
        == PrimaryEmotion::Anticipation) && m.intensity != EmotionIntensity::High
}

/// One step of cooling: the intensity drops one level; at the lowest level
/// the emotion turns to low joy. The secondary emotion stays.
pub open spec fn cooled(m: Mood) -> Mood {
    match m.intensity {
        EmotionIntensity::High => Mood { intensity: EmotionIntensity::Medium, ..m },
        EmotionIntensity::Medium => Mood { intensity: EmotionIntensity::Low, ..m },
        EmotionIntensity::Low => Mood { primary: PrimaryEmotion::Joy, intensity: EmotionIntensity::Low, ..m },
    }
}

/// `n` steps of cooling.
pub open spec fn cooled_n(m: Mood, n: nat) -> Mood
    decreases n,
{
    if n == 0 {
        m
    } else {
        cooled(cooled_n(m, (n - 1) as nat))
    }
}

impl Mood {
    /// Medium joy.
    pub open spec fn spec_happy() -> Mood {
        Mood { primary: PrimaryEmotion::Joy, intensity: EmotionIntensity::Medium, secondary: None }
    }

    /// Medium anticipation with trust.
    pub open spec fn spec_curious() -> Mood {
        Mood {
            primary: PrimaryEmotion::Anticipation,
            intensity: EmotionIntensity::Medium,
            secondary: Some(PrimaryEmotion::Trust),
        }
    }

    /// The calm mood: low trust.
    pub fn calm() -> (r: Mood)
        ensures
            r == (Mood { primary: PrimaryEmotion::Trust, intensity: EmotionIntensity::Low, secondary: None }),
    {
        Mood { primary: PrimaryEmotion::Trust, intensity: EmotionIntensity::Low, secondary: None }
    }

    /// The happy mood: medium joy.
    pub fn happy() -> (r: Mood)
        ensures
            r == Mood::spec_happy(),
    {
        Mood { primary: PrimaryEmotion::Joy, intensity: EmotionIntensity::Medium, secondary: None }
    }

    /// The analytical mood: medium trust with anticipation.
    pub fn analytical() -> (r: Mood)
        ensures
            r == (Mood {
                primary: PrimaryEmotion::Trust,
                intensity: EmotionIntensity::Medium,
                secondary: Some(PrimaryEmotion::Anticipation),
            }),
    {
        Mood {
            primary: PrimaryEmotion::Trust,
            intensity: EmotionIntensity::Medium,
            secondary: Some(PrimaryEmotion::Anticipation),
        }
    }

    /// The curious mood: medium anticipation with trust.
    pub fn curious() -> (r: Mood)
        ensures
            r == Mood::spec_curious(),
    {
        Mood {
            primary: PrimaryEmotion::Anticipation,
            intensity: EmotionIntensity::Medium,
            secondary: Some(PrimaryEmotion::Trust),
        }
    }

    /// Whether this mood is heated.
    pub fn is_hot(&self) -> (r: bool)
        ensures
            r == spec_is_hot(*self),
    {
        (self.primary == PrimaryEmotion::Anger || self.primary == PrimaryEmotion::Fear
            || self.primary == PrimaryEmotion::Surprise) && self.intensity == EmotionIntensity::High
    }

    /// Whether this mood is cool.
    pub fn is_cold(&self) -> (r: bool)
        ensures
            r == spec_is_cold(*self),
    {
        (self.primary == PrimaryEmotion::Joy || self.primary == PrimaryEmotion::Trust
            || self.primary == PrimaryEmotion::Anticipation) && self.intensity != EmotionIntensity::High
    }

    /// Cools this mood by one step.
    pub fn cool_down(&mut self)
        ensures
            *final(self) == cooled(*old(self)),
    {
        match self.intensity {
            EmotionIntensity::High => self.intensity = EmotionIntensity::Medium,
            EmotionIntensity::Medium => self.intensity = EmotionIntensity::Low,
            EmotionIntensity::Low => {
                self.primary = PrimaryEmotion::Joy;
                self.intensity = EmotionIntensity::Low;
            },
        }
    }
}

/// Cooling never raises the intensity, and a cooled mood is never heated.
pub proof fn lemma_cooled_is_not_hot(m: Mood)
    ensures
        !spec_is_hot(cooled(m)),
        cooled(m).intensity != EmotionIntensity::High,
        cooled(m).secondary == m.secondary,
{
}

/// Whatever the mood, three steps of cooling leave low joy, which is cool.
pub proof fn lemma_cooling_settles(m: Mood)
    ensures
        cooled_n(m, 3).primary == PrimaryEmotion::Joy,
        cooled_n(m, 3).intensity == EmotionIntensity::Low,
        spec_is_cold(cooled_n(m, 3)),
{
    reveal_with_fuel(cooled_n, 4);
}

/// Low joy is a resting point of cooling.
pub proof fn lemma_low_joy_is_fixed(m: Mood)
    requires
        m.primary == PrimaryEmotion::Joy,
        m.intensity == EmotionIntensity::Low,
    ensures
        cooled(m) == m,
{
}

/// Regulation cools a mood when it is heated or the agent is frustrated.
pub open spec fn needs_cooling(m: Mood, frustrated: bool) -> bool {
    spec_is_hot(m) || frustrated
}

/// The mood after regulation: cooled one step when it is heated or the
/// agent is frustrated, else as it was.
pub fn regulate_mood(m: Mood, frustrated: bool) -> (r: (Mood, bool))
    ensures
        r.1 == needs_cooling(m, frustrated),
        r.0 == if r.1 { cooled(m) } else { m },
{
    if m.is_hot() || frustrated {
        let mut c = m;
        c.cool_down();
        (c, true)
    } else {
        (m, false)
    }
}

/// `label` equals the lower-case word `w`, ignoring case.
pub open spec fn label_is(label: Seq<char>, w: Seq<char>) -> bool {
    label.len() == w.len() && starts_ci_at(label, 0, w)
}

/// The voice tone for an emotion label, compared ignoring case: cheerful
/// for joyful labels, angry, sad, worried for fearful ones, and neutral
/// for everything else.
pub open spec fn tone_of(label: Seq<char>) -> Seq<char> {
    if label_is(label, "joy"@) || label_is(label, "happy"@) || label_is(label, "excited"@)
        || label_is(label, "creative"@) || label_is(label, "flow"@) {
        "cheerful"@
    } else if label_is(label, "angry"@) {
        "angry"@
    } else if label_is(label, "sad"@) || label_is(label, "depressed"@) || label_is(label, "tired"@)
        || label_is(label, "ashamed"@) {
        "sad"@
    } else if label_is(label, "fearful"@) || label_is(label, "anxious"@) || label_is(label, "surprised"@) {
        "worried"@
    } else {
        "neutral"@
    }
}

fn is_word(label: &Vec<char>, w: &str) -> (b: bool)
    ensures
        b == label_is(label@, w@),
{
    let wv = chars_of(w);
    label.len() == wv.len() && starts_ci(label, 0, &wv)
}

/// The voice tone for an emotion label.
pub fn voice_tone_for(label: &str) -> (r: &'static str)
    ensures
        r@ == tone_of(label@),
{
    let v = chars_of(label);
    if is_word(&v, "joy") || is_word(&v, "happy") || is_word(&v, "excited") || is_word(&v, "creative")
        || is_word(&v, "flow") {
        "cheerful"
    } else if is_word(&v, "angry") {
        "angry"
    } else if is_word(&v, "sad") || is_word(&v, "depressed") || is_word(&v, "tired") || is_word(
        &v,
        "ashamed",
    ) {
        "sad"
    } else if is_word(&v, "fearful") || is_word(&v, "anxious") || is_word(&v, "surprised") {
        "worried"
    } else {
        "neutral"
    }
}

} // verus!
