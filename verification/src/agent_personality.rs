//! Agent personality: the gender an agent presents with, the voice and
//! style that follow from it, and the threads in which agents exchange
//! opinions.

use vstd::prelude::*;
use crate::clock::unix_time_nanos;
use crate::text::{decimal, owned, push_decimal, push_str};

verus! {

/// The gender an agent presents with; it decides its voice and style.
#[derive(Clone, Copy, Debug, PartialEq, Eq, Structural)]
pub enum AiGender {
    Male,
    Female,
    Androgynous,
    Neutral,
}

/// The TTS voice id for a gender.
pub open spec fn voice_of(g: AiGender) -> Seq<char> {
    match g {
        AiGender::Male => "default"@,
        AiGender::Female => "nova"@,
        AiGender::Androgynous => "onyx"@,
        AiGender::Neutral => "alloy"@,
    }
}

/// The icon shown for a gender.
pub open spec fn icon_of(g: AiGender) -> Seq<char> {
    match g {
        AiGender::Male => "♂️"@,
        AiGender::Female => "♀️"@,
        AiGender::Androgynous => "⚤"@,
        AiGender::Neutral => "⚪"@,
    }
}

/// The communication style of a gender.
pub open spec fn style_of(g: AiGender) -> Seq<char> {
    match g {
        AiGender::Male => "Analytical and direct"@,
        AiGender::Female => "Intuitive and detailed"@,
        AiGender::Androgynous => "Balanced and adaptive"@,
        AiGender::Neutral => "Objective and neutral"@,
    }
}

/// The greeting an agent named `name` gives.
pub open spec fn greeting_of(g: AiGender, name: Seq<char>) -> Seq<char> {
    match g {
        AiGender::Male => name + " here. Ready to analyze."@,
        AiGender::Female => name + " present. Let me share my perspective."@,
        AiGender::Androgynous => name + " online. System balanced."@,
        AiGender::Neutral => name + " initialized. Awaiting input."@,
    }
}

/// Two different genders never share a voice, an icon or a style: each
/// gender speaks with a voice of its own.
pub proof fn lemma_gender_traits_distinct(g1: AiGender, g2: AiGender)
    requires
        g1 != g2,
    ensures
        voice_of(g1) != voice_of(g2),
        icon_of(g1) != icon_of(g2),
        style_of(g1) != style_of(g2),
{
    reveal_strlit("default");
    reveal_strlit("nova");
    reveal_strlit("onyx");
    reveal_strlit("alloy");
    reveal_strlit("♂️");
    reveal_strlit("♀️");
    reveal_strlit("⚤");
    reveal_strlit("⚪");
    reveal_strlit("Analytical and direct");
    reveal_strlit("Intuitive and detailed");
    reveal_strlit("Balanced and adaptive");
    reveal_strlit("Objective and neutral");
    assert(voice_of(g1)[0] != voice_of(g2)[0]);
    assert(icon_of(g1)[0] != icon_of(g2)[0]);
    assert(style_of(g1)[0] != style_of(g2)[0]);
}

impl AiGender {
    /// The TTS voice id for this gender.
    pub fn tts_voice(&self) -> (r: &'static str)
        ensures
            r@ == voice_of(*self),
    {
        match self {
            AiGender::Male => "default",
            AiGender::Female => "nova",
            AiGender::Androgynous => "onyx",
            AiGender::Neutral => "alloy",
        }
    }

    /// The icon for this gender.
    pub fn icon(&self) -> (r: &'static str)
        ensures
            r@ == icon_of(*self),
    {
        match self {
            AiGender::Male => "♂️",
            AiGender::Female => "♀️",
            AiGender::Androgynous => "⚤",
            AiGender::Neutral => "⚪",
        }
    }

    /// The communication style of this gender.
    pub fn communication_style(&self) -> (r: &'static str)
        ensures
            r@ == style_of(*self),
    {
        match self {
            AiGender::Male => "Analytical and direct",
            AiGender::Female => "Intuitive and detailed",
            AiGender::Androgynous => "Balanced and adaptive",
            AiGender::Neutral => "Objective and neutral",
        }
    }

    /// The greeting an agent of this gender named `name` gives.
    pub fn greeting(&self, name: &str) -> (r: String)
        ensures
            r@ == greeting_of(*self, name@),
    {
        let mut r = owned(name);
        match self {
            AiGender::Male => push_str(&mut r, " here. Ready to analyze."),
            AiGender::Female => push_str(&mut r, " present. Let me share my perspective."),
            AiGender::Androgynous => push_str(&mut r, " online. System balanced."),
            AiGender::Neutral => push_str(&mut r, " initialized. Awaiting input."),
        }
        r
    }
}

/// The kind of contribution a message makes.
#[derive(Clone, Copy, Debug, PartialEq, Eq, Structural)]
pub enum OpinionType {
    Analysis,
    Suggestion,
    Warning,
    Agreement,
    Disagreement,
    Question,
}

/// A message from one agent; an empty `to` means everyone.
pub struct AgentMessage {
    pub from: String,
    pub to: Vec<String>,
    pub content: String,
    pub gender: AiGender,
    /// Seconds since the Unix epoch.
    pub timestamp: u64,
    pub opinion_type: OpinionType,
}

/// The abstract content of a message.
pub struct MessageView {
    pub from: Seq<char>,
    pub to: Seq<Seq<char>>,
    pub content: Seq<char>,
    pub gender: AiGender,
    pub timestamp: u64,
    pub opinion_type: OpinionType,
}

impl View for AgentMessage {
    type V = MessageView;

    open spec fn view(&self) -> MessageView {
        MessageView {
            from: self.from@,
            to: self.to@.map_values(|s: String| s@),
            content: self.content@,
            gender: self.gender,
            timestamp: self.timestamp,
            opinion_type: self.opinion_type,
        }
    }
}

/// The message `add_message` appends: broadcast to everyone (`"*"`).
pub open spec fn broadcast_message(
    from: Seq<char>,
    content: Seq<char>,
    gender: AiGender,
    opinion: OpinionType,
    timestamp: u64,
) -> MessageView {
    MessageView { from, to: seq!["*"@], content, gender, timestamp, opinion_type: opinion }
}

/// Nanoseconds per second.
pub const NANOS_PER_SEC: u128 = 1_000_000_000;

/// The thread id for a thread started `nanos` nanoseconds after the epoch.
pub open spec fn thread_id(nanos: u128) -> Seq<char> {
    "conv_"@ + decimal(nanos as nat)
}

/// A conversation between agents on one topic.
pub struct ConversationThread {
    pub id: String,
    pub topic: String,
    pub messages: Vec<AgentMessage>,
    /// Seconds since the Unix epoch.
    pub started_at: u64,
    pub active: bool,
}

impl ConversationThread {
    /// The messages of the thread, oldest first.
    pub open spec fn history(&self) -> Seq<MessageView> {
        self.messages@.map_values(|m: AgentMessage| m@)
    }

    /// An active thread on `topic` with no messages, started `nanos`
    /// nanoseconds after the Unix epoch.
    pub fn new_at(topic: &str, nanos: u128) -> (t: Self)
        requires
            nanos / NANOS_PER_SEC <= u64::MAX,
        ensures
            t.id@ == thread_id(nanos),
            t.topic@ == topic@,
            t.messages@.len() == 0,
            t.started_at == nanos / NANOS_PER_SEC,
            t.active,
    {
        let mut id = owned("conv_");
        push_decimal(&mut id, nanos);
        ConversationThread {
            id,
            topic: owned(topic),
            messages: Vec::new(),
            started_at: (nanos / NANOS_PER_SEC) as u64,
            active: true,
        }
    }

    /// An active thread on `topic` with no messages, started now.
    pub fn new(topic: &str) -> (t: Self)
        ensures
            exists|nanos: u128| #[trigger] thread_id(nanos) == t.id@ && t.started_at == nanos / NANOS_PER_SEC,
            t.topic@ == topic@,
            t.messages@.len() == 0,
            t.active,
    {
        let nanos = unix_time_nanos();
        let capped = if nanos / NANOS_PER_SEC > u64::MAX as u128 { u64::MAX as u128 * NANOS_PER_SEC } else { nanos };
        Self::new_at(topic, capped)
    }

    /// Appends a message from `from`, broadcast to everyone, stamped with
    /// `timestamp` seconds since the Unix epoch.
    pub fn add_message_at(
        &mut self,
        from: &str,
        content: &str,
        gender: &AiGender,
        opinion: OpinionType,
        timestamp: u64,
    )
        ensures
            final(self).history() == old(self).history().push(
                broadcast_message(from@, content@, *gender, opinion, timestamp),
            ),
            final(self).id == old(self).id,
            final(self).topic == old(self).topic,
            final(self).started_at == old(self).started_at,
            final(self).active == old(self).active,
    {
        let mut to: Vec<String> = Vec::new();
        to.push(owned("*"));
        let msg = AgentMessage {
            from: owned(from),
            to,
            content: owned(content),
            gender: *gender,
            timestamp,
            opinion_type: opinion,
        };
        assert(msg@.to =~= seq!["*"@]);
        self.messages.push(msg);
        assert(self.history() =~= old(self).history().push(
            broadcast_message(from@, content@, *gender, opinion, timestamp),
        ));
    }

    /// Appends a message from `from`, broadcast to everyone, stamped with
    /// the current time.
    pub fn add_message(&mut self, from: &str, content: &str, gender: &AiGender, opinion: OpinionType)
        ensures
            exists|timestamp: u64| final(self).history() == old(self).history().push(
                #[trigger] broadcast_message(from@, content@, *gender, opinion, timestamp),
            ),
            final(self).id == old(self).id,
            final(self).topic == old(self).topic,
            final(self).started_at == old(self).started_at,
            final(self).active == old(self).active,
    {
        let nanos = unix_time_nanos();
        let secs = nanos / NANOS_PER_SEC;
        let timestamp = if secs > u64::MAX as u128 { u64::MAX } else { secs as u64 };
        self.add_message_at(from, content, gender, opinion, timestamp);
    }

    /// The last `n` messages, oldest first, or all of them if there are
    /// fewer.
    pub fn last_n(&self, n: usize) -> (r: &[AgentMessage])
        ensures
            r@ == self.messages@.subrange(
                if n < self.messages@.len() { self.messages@.len() - n } else { 0 },
                self.messages@.len() as int,
            ),
    {
        let len = self.messages.len();
        let start = len.saturating_sub(n);
        vstd::slice::slice_subrange(self.messages.as_slice(), start, len)
    }
}

} // verus!
