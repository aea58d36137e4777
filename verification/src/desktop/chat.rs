//! The desktop assistant's decisions, apart from drawing: the chat book of
//! conversations, the replies it gives offline, the theme colour and the
//! keyboard shortcuts.

use vstd::prelude::*;
use vstd::pervasive::VecAdditionalExecFns;
use vstd::string::StringSliceAdditionalSpecFns;
use crate::auth::{trim_str, trim_ws};
use crate::desktop::screen::State;
use crate::emotion::{EmotionIntensity, Mood, PrimaryEmotion};
use crate::text::{chars_of, decimal, owned, push_decimal, push_str, same_chars, starts_ci, starts_ci_at, str_eq};

verus! {

/// One line of a conversation.
pub struct ChatLine {
    pub sender: String,
    pub text: String,
    pub is_user: bool,
}

/// A conversation: its number, title and lines.
pub struct Conversation {
    pub id: usize,
    pub title: String,
    pub messages: Vec<ChatLine>,
}

/// A chat line as plain values.
pub struct LineView {
    pub sender: Seq<char>,
    pub text: Seq<char>,
    pub is_user: bool,
}

/// A conversation as plain values.
pub struct ConvView {
    pub id: usize,
    pub title: Seq<char>,
    pub messages: Seq<LineView>,
}

/// The plain values of a chat line.
pub open spec fn line_view(l: ChatLine) -> LineView {
    LineView { sender: l.sender@, text: l.text@, is_user: l.is_user }
}

/// The plain values of a conversation.
pub open spec fn conv_view(c: Conversation) -> ConvView {
    ConvView { id: c.id, title: c.title@, messages: c.messages@.map_values(|l: ChatLine| line_view(l)) }
}

/// The conversations, the selected one, and the number of conversations
/// ever opened.
pub struct ChatBook {
    conversations: Vec<Conversation>,
    selected: Option<usize>,
    counter: usize,
}

/// A chat book as plain values.
pub struct BookView {
    pub conversations: Seq<ConvView>,
    pub selected: Option<usize>,
    pub counter: usize,
}

impl View for ChatBook {
    type V = BookView;

    closed spec fn view(&self) -> BookView {
        BookView {
            conversations: self.conversations@.map_values(|c: Conversation| conv_view(c)),
            selected: self.selected,
            counter: self.counter,
        }
    }
}

/// The selected conversation, when it exists.
pub open spec fn selected_index(b: BookView) -> Option<int> {
    match b.selected {
        Some(i) => if i < b.conversations.len() { Some(i as int) } else { None },
        None => None,
    }
}

/// `c` with one more line.
pub open spec fn with_line(c: ConvView, l: LineView) -> ConvView {
    ConvView { messages: c.messages.push(l), ..c }
}

/// A new conversation from the HUD, numbered `id`.
pub open spec fn hud_conversation(id: usize) -> ConvView {
    ConvView { id, title: "HUD Chat"@, messages: Seq::empty() }
}

/// The book after a HUD message `text` (already trimmed and not empty):
/// it goes to the selected conversation, or to a new `HUD Chat` when none
/// is selected or the selection is stale; that conversation is selected.
pub open spec fn after_hud_message(b: BookView, text: Seq<char>) -> BookView {
    let line = LineView { sender: "user"@, text, is_user: true };
    match selected_index(b) {
        Some(i) => BookView {
            conversations: b.conversations.update(i, with_line(b.conversations[i], line)),
            selected: Some(i as usize),
            counter: b.counter,
        },
        None => {
            let convs = b.conversations.push(hud_conversation((b.counter + 1) as usize));
            let i = b.conversations.len() as int;
            BookView {
                conversations: convs.update(i, with_line(convs[i], line)),
                selected: Some(i as usize),
                counter: (b.counter + 1) as usize,
            }
        },
    }
}

impl ChatBook {
    /// An empty book.
    pub fn new() -> (r: ChatBook)
        ensures
            r@.conversations.len() == 0,
            r@.selected is None,
            r@.counter == 0,
    {
        let r = ChatBook { conversations: Vec::new(), selected: None, counter: 0 };
        assert(r@.conversations =~= Seq::<ConvView>::empty());
        r
    }

    /// The number of conversations.
    pub fn len(&self) -> (r: usize)
        ensures
            r == self@.conversations.len(),
    {
        self.conversations.len()
    }

    /// The selected conversation's index.
    pub fn selected(&self) -> (r: Option<usize>)
        ensures
            r == self@.selected,
    {
        self.selected
    }

    /// Selects conversation `i`.
    pub fn select(&mut self, i: Option<usize>)
        ensures
            final(self)@ == (BookView { selected: i, ..old(self)@ }),
    {
        self.selected = i;
    }

    /// The lines of conversation `i`, by text.
    pub fn line_count(&self, i: usize) -> (r: usize)
        requires
            i < self@.conversations.len(),
        ensures
            r == self@.conversations[i as int].messages.len(),
    {
        self.conversations[i].messages.len()
    }

    /// Appends `line` to conversation `i`.
    fn push_line(&mut self, i: usize, line: ChatLine)
        requires
            i < old(self)@.conversations.len(),
        ensures
            final(self)@ == (BookView {
                conversations: old(self)@.conversations.update(
                    i as int,
                    with_line(old(self)@.conversations[i as int], line_view(line)),
                ),
                ..old(self)@
            }),
    {
        let mut c = Conversation { id: 0, title: String::new(), messages: Vec::new() };
        self.conversations.set_and_swap(i, &mut c);
        let ghost before = c;
        c.messages.push(line);
        assert(conv_view(c) == with_line(conv_view(before), line_view(line))) by {
            assert(c.messages@.map_values(|l: ChatLine| line_view(l)) =~= before.messages@.map_values(
                |l: ChatLine| line_view(l),
            ).push(line_view(line)));
        }
        self.conversations.set_and_swap(i, &mut c);
        assert(self@.conversations =~= old(self)@.conversations.update(
            i as int,
            with_line(old(self)@.conversations[i as int], line_view(line)),
        ));
    }

    /// Sends a message typed in the HUD. Blank input is ignored; otherwise
    /// the trimmed text goes, as the user's, to the selected conversation or
    /// to a new `HUD Chat`, which becomes selected. Returns the conversation
    /// that got it.
    pub fn send_hud_message(&mut self, input: &str) -> (r: Option<usize>)
        requires
            trim_ws(input@).len() > 0 && selected_index(old(self)@) is None ==> old(self)@.counter < usize::MAX,
        ensures
            trim_ws(input@).len() == 0 ==> r is None && final(self)@ == old(self)@,
            trim_ws(input@).len() > 0 ==> {
                &&& final(self)@ == after_hud_message(old(self)@, trim_ws(input@))
                &&& r == final(self)@.selected
            },
    {
        let text = trim_str(input);
        if text.as_str().is_empty() {
            return None;
        }
        let idx = match self.selected {
            Some(i) if i < self.conversations.len() => i,
            _ => {
                self.counter = self.counter + 1;
                let c = Conversation { id: self.counter, title: owned("HUD Chat"), messages: Vec::new() };
                let ghost before = self@;
                self.conversations.push(c);
                assert(self@.conversations =~= before.conversations.push(hud_conversation(self.counter))) by {
                    assert(conv_view(c).messages =~= Seq::<LineView>::empty());
                }
                self.conversations.len() - 1
            },
        };
        self.selected = Some(idx);
        self.push_line(idx, ChatLine { sender: owned("user"), text, is_user: true });
        Some(idx)
    }

    /// Sends a message typed in the conversations view: the trimmed text
    /// goes, as the user's, to the selected conversation when there is one.
    /// Blank input, or no valid selection, sends nothing.
    pub fn send_conv_message(&mut self, input: &str) -> (r: Option<usize>)
        ensures
            match selected_index(old(self)@) {
                Some(i) if trim_ws(input@).len() > 0 => {
                    &&& r == Some(i as usize)
                    &&& final(self)@ == (BookView {
                        conversations: old(self)@.conversations.update(
                            i,
                            with_line(
                                old(self)@.conversations[i],
                                LineView { sender: "user"@, text: trim_ws(input@), is_user: true },
                            ),
                        ),
                        ..old(self)@
                    })
                },
                _ => r is None && final(self)@ == old(self)@,
            },
    {
        let text = trim_str(input);
        if text.as_str().is_empty() {
            return None;
        }
        match self.selected {
            Some(i) => {
                if i < self.conversations.len() {
                    self.push_line(i, ChatLine { sender: owned("user"), text, is_user: true });
                    Some(i)
                } else {
                    None
                }
            },
            None => None,
        }
    }

    /// Opens a new empty conversation, titled `Chat <n>` with the next
    /// number, and selects it. Returns its index.
    pub fn new_conversation(&mut self) -> (r: usize)
        requires
            old(self)@.counter < usize::MAX,
        ensures
            r == old(self)@.conversations.len(),
            final(self)@ == (BookView {
                conversations: old(self)@.conversations.push(numbered_conversation((old(self)@.counter + 1) as usize)),
                selected: Some(r),
                counter: (old(self)@.counter + 1) as usize,
            }),
    {
        self.counter = self.counter + 1;
        let mut title = owned("Chat ");
        push_decimal(&mut title, self.counter as u128);
        let c = Conversation { id: self.counter, title, messages: Vec::new() };
        let ghost before = self@;
        self.conversations.push(c);
        assert(self@.conversations =~= before.conversations.push(numbered_conversation(self.counter))) by {
            assert(conv_view(c).messages =~= Seq::<LineView>::empty());
        }
        let r = self.conversations.len() - 1;
        self.selected = Some(r);
        r
    }

    /// Deletes conversation `idx`. When it was the selected one, the
    /// selection moves to the conversation that takes its place, else to the
    /// one before it; a book left without conversations has none selected.
    pub fn delete_conversation(&mut self, idx: usize)
        requires
            idx < old(self)@.conversations.len(),
        ensures
            final(self)@ == (BookView {
                conversations: old(self)@.conversations.remove(idx as int),
                selected: selection_after_delete(old(self)@.selected, idx, old(self)@.conversations.len()),
                counter: old(self)@.counter,
            }),
            old(self)@.selected == Some(idx) ==> (selected_index(final(self)@) is Some
                <==> final(self)@.conversations.len() > 0),
    {
        let len = self.conversations.len();
        if self.selected == Some(idx) {
            self.selected = if idx + 1 < len {
                Some(idx)
            } else if idx > 0 {
                Some(idx - 1)
            } else {
                None
            };
        }
        let ghost before = self.conversations@;
        self.conversations.remove(idx);
        assert(self@.conversations =~= before.map_values(|c: Conversation| conv_view(c)).remove(idx as int));
    }

    /// Ends the assistant's thinking at frame `frames`. With a conversation
    /// selected, it asks the local model about that conversation's last line
    /// when one is available, and otherwise adds the offline reply for the
    /// frame, as `umbra`'s, to it.
    pub fn finish_thinking(&mut self, model_available: bool, frames: u64) -> (r: ThinkingOutcome)
        ensures
            match selected_index(old(self)@) {
                None => r is Idle && final(self)@ == old(self)@,
                Some(i) => if model_available {
                    &&& r matches ThinkingOutcome::AskModel { conv, prompt } && conv == i
                        && prompt@ == last_text(old(self)@.conversations[i])
                    &&& final(self)@ == old(self)@
                } else {
                    &&& r matches ThinkingOutcome::Replied { conv } && conv == i
                    &&& final(self)@ == (BookView {
                        conversations: old(self)@.conversations.update(
                            i,
                            with_line(
                                old(self)@.conversations[i],
                                LineView { sender: "umbra"@, text: canned_replies()[(frames % 7) as int], is_user: false },
                            ),
                        ),
                        ..old(self)@
                    })
                },
            },
    {
        let i = match self.selected {
            Some(i) => {
                if i < self.conversations.len() {
                    i
                } else {
                    return ThinkingOutcome::Idle;
                }
            },
            None => {
                return ThinkingOutcome::Idle;
            },
        };
        if model_available {
            let n = self.conversations[i].messages.len();
            let prompt = if n > 0 {
                owned(self.conversations[i].messages[n - 1].text.as_str())
            } else {
                String::new()
            };
            proof {
                assert(self@.conversations[i as int].messages.len() == n);
                if n > 0 {
                    assert(self@.conversations[i as int].messages.last()
                        == line_view(self.conversations@[i as int].messages@[n - 1]));
                }
            }
            ThinkingOutcome::AskModel { conv: i, prompt }
        } else {
            let reply = ai_response(frames);
            self.push_line(i, ChatLine { sender: owned("umbra"), text: owned(reply), is_user: false });
            ThinkingOutcome::Replied { conv: i }
        }
    }

    /// Delivers the assistant's reply to conversation `conv`, when it still
    /// exists.
    pub fn deliver_reply(&mut self, conv: usize, reply: String) -> (r: bool)
        ensures
            r == (conv < old(self)@.conversations.len()),
            r ==> final(self)@ == (BookView {
                conversations: old(self)@.conversations.update(
                    conv as int,
                    with_line(
                        old(self)@.conversations[conv as int],
                        LineView { sender: "umbra"@, text: reply@, is_user: false },
                    ),
                ),
                ..old(self)@
            }),
            !r ==> final(self)@ == old(self)@,
    {
        if conv < self.conversations.len() {
            self.push_line(conv, ChatLine { sender: owned("umbra"), text: reply, is_user: false });
            true
        } else {
            false
        }
    }
}

/// A new conversation opened by hand, numbered `id` and titled `Chat <id>`.
pub open spec fn numbered_conversation(id: usize) -> ConvView {
    ConvView { id, title: "Chat "@ + decimal(id as nat), messages: Seq::empty() }
}

/// The selection after conversation `idx` of `len` is deleted: a selection
/// of that conversation moves to the one that takes its place, else to the
/// one before it, else to nothing; any other selection stays as it was.
pub open spec fn selection_after_delete(selected: Option<usize>, idx: usize, len: nat) -> Option<usize> {
    if selected == Some(idx) {
        if idx + 1 < len {
            Some(idx)
        } else if idx > 0 {
            Some((idx - 1) as usize)
        } else {
            None
        }
    } else {
        selected
    }
}

/// What happens when the assistant's thinking time is over.
pub enum ThinkingOutcome {
    /// No conversation is selected: nothing to answer.
    Idle,
    /// A local model is there: ask it, in the background, to answer
    /// `prompt` in conversation `conv`; the answer comes back through
    /// `deliver_reply`.
    AskModel { conv: usize, prompt: String },
    /// No model is there: the offline reply was added to conversation `conv`.
    Replied { conv: usize },
}

/// The text of the last line of a conversation, empty when it has none.
pub open spec fn last_text(c: ConvView) -> Seq<char> {
    if c.messages.len() > 0 { c.messages.last().text } else { Seq::empty() }
}

/// Medium trust with anticipation: the mood after an answer.
pub open spec fn analytical_mood() -> Mood {
    Mood {
        primary: PrimaryEmotion::Trust,
        intensity: EmotionIntensity::Medium,
        secondary: Some(PrimaryEmotion::Anticipation),
    }
}

/// The desk of the desktop assistant: the chat book, the assistant's mood
/// and activity, and the number of frames drawn.
pub struct Desk {
    pub book: ChatBook,
    pub mood: Mood,
    pub state: State,
    pub frames: u64,
}

impl Desk {
    /// An empty book, a calm and idle assistant, no frame drawn.
    pub fn new() -> (r: Desk)
        ensures
            r.book@.conversations.len() == 0,
            r.book@.selected is None,
            r.book@.counter == 0,
            r.mood == (Mood { primary: PrimaryEmotion::Trust, intensity: EmotionIntensity::Low, secondary: None }),
            r.state == State::Idle,
            r.frames == 0,
    {
        Desk { book: ChatBook::new(), mood: Mood::calm(), state: State::Idle, frames: 0 }
    }

    /// Counts one more frame drawn.
    pub fn next_frame(&mut self)
        requires
            old(self).frames < u64::MAX,
        ensures
            final(self).frames == old(self).frames + 1,
            final(self).book@ == old(self).book@,
            final(self).mood == old(self).mood,
            final(self).state == old(self).state,
    {
        self.frames = self.frames + 1;
    }

    /// Takes the model's reply for conversation `conv`: when that
    /// conversation still exists the reply is added to it as `umbra`'s and
    /// the assistant turns analytical; otherwise nothing changes.
    pub fn take_reply(&mut self, conv: usize, reply: String) -> (r: bool)
        ensures
            r == (conv < old(self).book@.conversations.len()),
            r ==> final(self).book@ == (BookView {
                conversations: old(self).book@.conversations.update(
                    conv as int,
                    with_line(
                        old(self).book@.conversations[conv as int],
                        LineView { sender: "umbra"@, text: reply@, is_user: false },
                    ),
                ),
                ..old(self).book@
            }),
            r ==> final(self).mood == analytical_mood(),
            !r ==> final(self).book@ == old(self).book@ && final(self).mood == old(self).mood,
            final(self).frames == old(self).frames,
            final(self).state == old(self).state,
    {
        let r = self.book.deliver_reply(conv, reply);
        if r {
            self.mood = Mood::analytical();
        }
        r
    }

    /// Ends the thinking time, as `ChatBook::finish_thinking` at the current
    /// frame; an offline reply turns the assistant analytical.
    pub fn think_done(&mut self, model_available: bool) -> (r: ThinkingOutcome)
        ensures
            final(self).frames == old(self).frames,
            final(self).state == old(self).state,
            match selected_index(old(self).book@) {
                None => r is Idle && final(self).book@ == old(self).book@ && final(self).mood == old(self).mood,
                Some(i) => if model_available {
                    &&& r matches ThinkingOutcome::AskModel { conv, prompt } && conv == i
                        && prompt@ == last_text(old(self).book@.conversations[i])
                    &&& final(self).book@ == old(self).book@
                    &&& final(self).mood == old(self).mood
                } else {
                    &&& r matches ThinkingOutcome::Replied { conv } && conv == i
                    &&& final(self).book@ == (BookView {
                        conversations: old(self).book@.conversations.update(
                            i,
                            with_line(
                                old(self).book@.conversations[i],
                                LineView {
                                    sender: "umbra"@,
                                    text: canned_replies()[(old(self).frames % 7) as int],
                                    is_user: false,
                                },
                            ),
                        ),
                        ..old(self).book@
                    })
                    &&& final(self).mood == analytical_mood()
                },
            },
    {
        let r = self.book.finish_thinking(model_available, self.frames);
        match r {
            ThinkingOutcome::Replied { conv } => {
                self.mood = Mood::analytical();
                ThinkingOutcome::Replied { conv }
            },
            other => other,
        }
    }

    /// Sends a HUD message as `ChatBook::send_hud_message`; once sent, the
    /// assistant is thinking and curious.
    pub fn hud_message(&mut self, input: &str) -> (r: Option<usize>)
        requires
            trim_ws(input@).len() > 0 && selected_index(old(self).book@) is None ==> old(self).book@.counter < usize::MAX,
        ensures
            trim_ws(input@).len() == 0 ==> r is None && final(self).book@ == old(self).book@
                && final(self).mood == old(self).mood && final(self).state == old(self).state,
            trim_ws(input@).len() > 0 ==> {
                &&& final(self).book@ == after_hud_message(old(self).book@, trim_ws(input@))
                &&& r == final(self).book@.selected
                &&& final(self).state == State::Thinking
                &&& final(self).mood == Mood::spec_curious()
            },
            final(self).frames == old(self).frames,
    {
        let r = self.book.send_hud_message(input);
        if r.is_some() {
            self.state = State::Thinking;
            self.mood = Mood::curious();
        }
        r
    }

    /// Sends a message from the conversations view as
    /// `ChatBook::send_conv_message`; once sent, the assistant is thinking
    /// and curious.
    pub fn conv_message(&mut self, input: &str) -> (r: Option<usize>)
        ensures
            match selected_index(old(self).book@) {
                Some(i) if trim_ws(input@).len() > 0 => {
                    &&& r == Some(i as usize)
                    &&& final(self).book@ == (BookView {
                        conversations: old(self).book@.conversations.update(
                            i,
                            with_line(
                                old(self).book@.conversations[i],
                                LineView { sender: "user"@, text: trim_ws(input@), is_user: true },
                            ),
                        ),
                        ..old(self).book@
                    })
                    &&& final(self).state == State::Thinking
                    &&& final(self).mood == Mood::spec_curious()
                },
                _ => r is None && final(self).book@ == old(self).book@ && final(self).mood == old(self).mood
                    && final(self).state == old(self).state,
            },
            final(self).frames == old(self).frames,
    {
        let r = self.book.send_conv_message(input);
        if r.is_some() {
            self.state = State::Thinking;
            self.mood = Mood::curious();
        }
        r
    }
}

/// Sends a message from the sphere panel's chat: blank input is ignored;
/// otherwise the trimmed text goes in as `You: <text>` from the user, and
/// `Umbra: Processing...` follows it from the assistant.
pub fn sphere_chat(lines: &mut Vec<ChatLine>, input: &str) -> (sent: bool)
    ensures
        sent == (trim_ws(input@).len() > 0),
        !sent ==> final(lines)@ == old(lines)@,
        sent ==> final(lines)@.map_values(|l: ChatLine| line_view(l)) == old(lines)@.map_values(
            |l: ChatLine| line_view(l),
        ).push(LineView { sender: "user"@, text: "You: "@ + trim_ws(input@), is_user: true }).push(
            LineView { sender: "umbra"@, text: "Umbra: Processing..."@, is_user: false },
        ),
{
    let text = trim_str(input);
    if text.as_str().is_empty() {
        return false;
    }
    let mut you = owned("You: ");
    push_str(&mut you, text.as_str());
    let ghost before = lines@;
    let a = ChatLine { sender: owned("user"), text: you, is_user: true };
    let b = ChatLine { sender: owned("umbra"), text: owned("Umbra: Processing..."), is_user: false };
    lines.push(a);
    lines.push(b);
    assert(lines@ == before.push(a).push(b));
    assert(lines@.map_values(|l: ChatLine| line_view(l)) =~= before.map_values(|l: ChatLine| line_view(l)).push(
        line_view(a),
    ).push(line_view(b)));
    true
}

/// A count with at least two digits, as `{:02}` writes it.
pub open spec fn two_digits(n: nat) -> Seq<char> {
    if n < 10 { seq!['0'] + decimal(n) } else { decimal(n) }
}

/// The running time `secs` as `HH:MM:SS`; the hours grow past two digits
/// when they must.
pub open spec fn clock_text(secs: u64) -> Seq<char> {
    two_digits((secs / 3600) as nat) + ":"@ + two_digits(((secs % 3600) / 60) as nat) + ":"@ + two_digits(
        (secs % 60) as nat,
    )
}

fn push_two_digits(out: &mut String, n: u64)
    ensures
        final(out)@ == old(out)@ + two_digits(n as nat),
{
    if n < 10 {
        out.push('0');
    }
    push_decimal(out, n as u128);
    assert(final(out)@ =~= old(out)@ + two_digits(n as nat));
}

/// The top bar's running time, `HH:MM:SS`, for `secs` seconds.
pub fn elapsed_clock(secs: u64) -> (r: String)
    ensures
        r@ == clock_text(secs),
{
    let mut r = String::new();
    push_two_digits(&mut r, secs / 3600);
    push_str(&mut r, ":");
    push_two_digits(&mut r, (secs % 3600) / 60);
    push_str(&mut r, ":");
    push_two_digits(&mut r, secs % 60);
    assert(r@ =~= clock_text(secs));
    r
}

/// The offline replies of the assistant.
pub open spec fn canned_replies() -> Seq<Seq<char>> {
    seq![
        "I've analysed the input. The optimal approach involves leveraging existing patterns in the data."@,
        "Processing complete. I recommend a multi-step strategy with continuous monitoring."@,
        "Correlation analysis shows a 0.73 confidence level. Proceeding with suggested parameters."@,
        "Insight: The underlying structure suggests emergent properties we can exploit."@,
        "Analysis complete. Three possible paths identified. Path A has the highest probability of success."@,
        "Neural assessment: Patterns detected across 4 dimensions. Confidence threshold exceeded."@,
        "Cognitive processing finished. The most efficient solution utilises parallel sub-agent coordination."@,
    ]
}

/// The offline reply for frame `frames`: the replies taken in turn.
pub fn ai_response(frames: u64) -> (r: &'static str)
    ensures
        r@ == canned_replies()[(frames % 7) as int],
{
    let i = frames % 7;
    if i == 0 {
        "I've analysed the input. The optimal approach involves leveraging existing patterns in the data."
    } else if i == 1 {
        "Processing complete. I recommend a multi-step strategy with continuous monitoring."
    } else if i == 2 {
        "Correlation analysis shows a 0.73 confidence level. Proceeding with suggested parameters."
    } else if i == 3 {
        "Insight: The underlying structure suggests emergent properties we can exploit."
    } else if i == 4 {
        "Analysis complete. Three possible paths identified. Path A has the highest probability of success."
    } else if i == 5 {
        "Neural assessment: Patterns detected across 4 dimensions. Confidence threshold exceeded."
    } else {
        "Cognitive processing finished. The most efficient solution utilises parallel sub-agent coordination."
    }
}

/// The trading assistant's general remarks.
pub open spec fn market_remarks() -> Seq<Seq<char>> {
    seq![
        "Analysing market conditions... Volatility is moderate. No unusual patterns detected."@,
        "Cross-referencing multiple timeframes. Short-term bullish, long-term neutral."@,
        "Running predictive models... Probability of upward movement: 62% over next 4 hours."@,
        "Economic calendar shows no major events in the next 2 hours. Normal trading conditions."@,
        "Technical indicators suggest consolidation. Recommend waiting for a clear breakout signal."@,
    ]
}

/// What a trading message asks about.
pub enum TradingReply {
    /// The account: balance, equity and margin are reported.
    Account,
    /// The market outlook for EURUSD.
    Market,
    /// Advice on opening a position.
    Position,
    /// A general remark.
    Remark(&'static str),
}

/// `word` occurs in `s`, ignoring case.
pub open spec fn mentions(s: Seq<char>, word: Seq<char>) -> bool {
    exists|i: int| #[trigger] starts_ci_at(s, i, word)
}

fn mentions_word(s: &Vec<char>, word: &str) -> (b: bool)
    ensures
        b == mentions(s@, word@),
{
    let w = chars_of(word);
    let mut i: usize = 0;
    while i < s.len()
        invariant
            i <= s.len(),
            w@ == word@,
            forall|k: int| 0 <= k < i ==> !starts_ci_at(s@, k, w@),
        decreases s.len() - i,
    {
        if starts_ci(s, i, &w) {
            return true;
        }
        i = i + 1;
    }
    if starts_ci(s, i, &w) {
        return true;
    }
    assert forall|k: int| !#[trigger] starts_ci_at(s@, k, w@) by {
        if 0 <= k < i {
        } else if k == i {
        } else {
        }
    }
    false
}

/// The reply to a trading message: the account when it mentions balance or
/// account, the market when it mentions EURUSD or market, position advice
/// when it mentions position or open (checked in that order, ignoring
/// case); otherwise the general remarks taken in turn by frame.
pub open spec fn trading_reply_of(text: Seq<char>, frames: u64) -> Option<Seq<char>> {
    if mentions(text, "balance"@) || mentions(text, "account"@) {
        None
    } else if mentions(text, "eurusd"@) || mentions(text, "market"@) {
        None
    } else if mentions(text, "position"@) || mentions(text, "open"@) {
        None
    } else {
        Some(market_remarks()[(frames % 5) as int])
    }
}

/// The reply to a trading message.
pub fn trading_reply(text: &str, frames: u64) -> (r: TradingReply)
    ensures
        match r {
            TradingReply::Account => mentions(text@, "balance"@) || mentions(text@, "account"@),
            TradingReply::Market => !(mentions(text@, "balance"@) || mentions(text@, "account"@))
                && (mentions(text@, "eurusd"@) || mentions(text@, "market"@)),
            TradingReply::Position => !(mentions(text@, "balance"@) || mentions(text@, "account"@))
                && !(mentions(text@, "eurusd"@) || mentions(text@, "market"@)) && (mentions(
                text@,
                "position"@,
            ) || mentions(text@, "open"@)),
            TradingReply::Remark(m) => trading_reply_of(text@, frames) == Some(m@),
        },
{
    let v = chars_of(text);
    if mentions_word(&v, "balance") || mentions_word(&v, "account") {
        TradingReply::Account
    } else if mentions_word(&v, "eurusd") || mentions_word(&v, "market") {
        TradingReply::Market
    } else if mentions_word(&v, "position") || mentions_word(&v, "open") {
        TradingReply::Position
    } else {
        let i = frames % 5;
        let m = if i == 0 {
            "Analysing market conditions... Volatility is moderate. No unusual patterns detected."
        } else if i == 1 {
            "Cross-referencing multiple timeframes. Short-term bullish, long-term neutral."
        } else if i == 2 {
            "Running predictive models... Probability of upward movement: 62% over next 4 hours."
        } else if i == 3 {
            "Economic calendar shows no major events in the next 2 hours. Normal trading conditions."
        } else {
            "Technical indicators suggest consolidation. Recommend waiting for a clear breakout signal."
        };
        TradingReply::Remark(m)
    }
}

/// The value of an ASCII hexadecimal digit byte.
pub open spec fn hex_value(b: u8) -> Option<u8> {
    if 48 <= b <= 57 {
        Some((b - 48) as u8)
    } else if 97 <= b <= 102 {
        Some((b - 87) as u8)
    } else if 65 <= b <= 70 {
        Some((b - 55) as u8)
    } else {
        None
    }
}

/// Two bytes read as an unsigned byte in base 16, as `u8::from_str_radix`
/// reads them: two digits, or a plus sign and one digit.
pub open spec fn hex_pair(a: u8, b: u8) -> Option<u8> {
    if a == 43 {
        hex_value(b)
    } else {
        match (hex_value(a), hex_value(b)) {
            (Some(x), Some(y)) => Some((x * 16 + y) as u8),
            _ => None,
        }
    }
}

/// The colour written as `#RRGGBB` (seven bytes, each pair read in base 16),
/// or the default violet (167, 139, 250) when it is not one.
pub open spec fn theme_rgb(bytes: Seq<u8>) -> (u8, u8, u8) {
    if bytes.len() == 7 && bytes[0] == 35 {
        match (hex_pair(bytes[1], bytes[2]), hex_pair(bytes[3], bytes[4]), hex_pair(bytes[5], bytes[6])) {
            (Some(r), Some(g), Some(b)) => (r, g, b),
            _ => (167, 139, 250),
        }
    } else {
        (167, 139, 250)
    }
}

fn hex_byte(b: u8) -> (r: Option<u8>)
    ensures
        r == hex_value(b),
{
    if 48 <= b && b <= 57 {
        Some(b - 48)
    } else if 97 <= b && b <= 102 {
        Some(b - 87)
    } else if 65 <= b && b <= 70 {
        Some(b - 55)
    } else {
        None
    }
}

fn read_pair(a: u8, b: u8) -> (r: Option<u8>)
    ensures
        r == hex_pair(a, b),
{
    if a == 43 {
        return hex_byte(b);
    }
    match (hex_byte(a), hex_byte(b)) {
        (Some(x), Some(y)) => Some(x * 16 + y),
        _ => None,
    }
}

/// The theme colour written in `hex`. The pairs are cut at byte positions,
/// so a seven-byte string that starts with `#` must have character
/// boundaries at bytes 3 and 5.
pub fn primary_rgb(hex: &str) -> (r: (u8, u8, u8))
    requires
        hex.spec_bytes().len() == 7 && hex.spec_bytes()[0] == 35 ==> vstd::utf8::is_char_boundary(
            hex.spec_bytes(),
            3,
        ) && vstd::utf8::is_char_boundary(hex.spec_bytes(), 5),
    ensures
        r == theme_rgb(hex.spec_bytes()),
{
    let b = hex.as_bytes();
    if b.len() == 7 && b[0] == 35 {
        match (read_pair(b[1], b[2]), read_pair(b[3], b[4]), read_pair(b[5], b[6])) {
            (Some(r), Some(g), Some(bl)) => (r, g, bl),
            _ => (167, 139, 250),
        }
    } else {
        (167, 139, 250)
    }
}

/// What a keyboard shortcut does.
#[derive(Clone, Copy, Debug, PartialEq, Eq, Structural)]
pub enum ShortcutAction {
    ToggleSidebar,
    ToggleMute,
    RecenterWindow,
    Other,
}

/// A shortcut: the action's name, its key combination, and whether a new
/// combination is being recorded for it.
pub struct ShortcutEntry {
    pub action: String,
    pub key: String,
    pub recording: bool,
}

/// The action named `name`.
pub open spec fn action_named(name: Seq<char>) -> ShortcutAction {
    if name == "Toggle Sidebar"@ {
        ShortcutAction::ToggleSidebar
    } else if name == "Toggle Mute"@ {
        ShortcutAction::ToggleMute
    } else if name == "Recenter Window"@ {
        ShortcutAction::RecenterWindow
    } else {
        ShortcutAction::Other
    }
}

/// The first shortcut among `entries` bound to `combo` and not being
/// recorded.
pub open spec fn first_bound(entries: Seq<ShortcutEntry>, combo: Seq<char>) -> Option<int>
    decreases entries.len(),
{
    if entries.len() == 0 {
        None
    } else if entries[0].key@ == combo && !entries[0].recording {
        Some(0)
    } else {
        match first_bound(entries.drop_first(), combo) {
            Some(i) => Some(i + 1),
            None => None,
        }
    }
}

/// Whether some shortcut is bound to `combo`.
pub open spec fn combo_taken(entries: Seq<ShortcutEntry>, combo: Seq<char>) -> bool {
    exists|i: int| 0 <= i < entries.len() && #[trigger] entries[i].key@ == combo
}

/// The shortcuts and the one being recorded.
pub struct Shortcuts {
    pub entries: Vec<ShortcutEntry>,
    pub recording: Option<usize>,
}

/// No two shortcuts share a key combination.
pub open spec fn keys_distinct(entries: Seq<ShortcutEntry>) -> bool {
    forall|i: int, j: int|
        0 <= i < entries.len() && 0 <= j < entries.len() && i != j ==> #[trigger] entries[i].key@ != #[trigger] entries[j].key@
}

/// The combination a key press is matched against: `Ctrl+`, `Shift+`,
/// `Alt+` as held, then the key's name in upper case.
pub open spec fn pressed_combo(ctrl: bool, shift: bool, alt: bool, key_upper: Seq<char>) -> Seq<char> {
    (if ctrl { "Ctrl+"@ } else { Seq::empty() }) + (if shift { "Shift+"@ } else { Seq::empty() }) + (
    if alt { "Alt+"@ } else { Seq::empty() }) + key_upper
}

/// The combination recorded for a key press: `Ctrl+`, `Alt+`, `Shift+`,
/// `Cmd+` as held, then the key's name as it is.
pub open spec fn recorded_combo(ctrl: bool, alt: bool, shift: bool, cmd: bool, key: Seq<char>) -> Seq<char> {
    let m = (if ctrl { "Ctrl+"@ } else { Seq::empty() }) + (if alt { "Alt+"@ } else { Seq::empty() }) + (
    if shift { "Shift+"@ } else { Seq::empty() }) + (if cmd { "Cmd+"@ } else { Seq::empty() });
    if m + key == "Ctrl+"@ { key } else { m + key }
}

/// The upper case of an ASCII character.
pub open spec fn ascii_upper(c: char) -> char {
    if 'a' <= c && c <= 'z' { ((c as u32) - 32) as char } else { c }
}

/// The combination a key press is matched against.
pub fn pressed_key_combo(ctrl: bool, shift: bool, alt: bool, key: &str) -> (r: String)
    requires
        forall|i: int| 0 <= i < key@.len() ==> (key@[i] as u32) < 128,
    ensures
        r@ == pressed_combo(ctrl, shift, alt, key@.map_values(|c: char| ascii_upper(c))),
{
    let mut r = String::new();
    if ctrl {
        push_str(&mut r, "Ctrl+");
    }
    if shift {
        push_str(&mut r, "Shift+");
    }
    if alt {
        push_str(&mut r, "Alt+");
    }
    let ghost prefix = r@;
    let v = chars_of(key);
    let mut i: usize = 0;
    while i < v.len()
        invariant
            v@ == key@,
            i <= v.len(),
            forall|k: int| 0 <= k < key@.len() ==> (key@[k] as u32) < 128,
            r@ == prefix + key@.take(i as int).map_values(|c: char| ascii_upper(c)),
        decreases v.len() - i,
    {
        let c = v[i];
        let u = if 'a' <= c && c <= 'z' {
            let x = (c as u32) - 32;
            assert(x < 128);
            (x as u8) as char
        } else {
            c
        };
        r.push(u);
        assert(key@.take(i + 1).map_values(|c: char| ascii_upper(c)) =~= key@.take(i as int).map_values(
            |c: char| ascii_upper(c),
        ).push(ascii_upper(c)));
        i = i + 1;
    }
    assert(key@.take(key@.len() as int) =~= key@);
    r
}

/// The combination recorded for a key press.
pub fn recorded_key_combo(ctrl: bool, alt: bool, shift: bool, cmd: bool, key: &str) -> (r: String)
    ensures
        r@ == recorded_combo(ctrl, alt, shift, cmd, key@),
{
    let mut r = String::new();
    if ctrl {
        push_str(&mut r, "Ctrl+");
    }
    if alt {
        push_str(&mut r, "Alt+");
    }
    if shift {
        push_str(&mut r, "Shift+");
    }
    if cmd {
        push_str(&mut r, "Cmd+");
    }
    push_str(&mut r, key);
    if str_eq(r.as_str(), "Ctrl+") {
        owned(key)
    } else {
        r
    }
}

impl Shortcuts {
    /// The default shortcuts, none being recorded.
    pub fn new() -> (r: Shortcuts)
        ensures
            r.entries@.len() == 5,
            r.recording is None,
            r.entries@[0].action@ == "Toggle Sidebar"@ && r.entries@[0].key@ == "Ctrl+B"@,
            r.entries@[1].action@ == "Focus Input"@ && r.entries@[1].key@ == "Ctrl+I"@,
            r.entries@[2].action@ == "Toggle Mute"@ && r.entries@[2].key@ == "Ctrl+M"@,
            r.entries@[3].action@ == "New Conversation"@ && r.entries@[3].key@ == "Ctrl+N"@,
            r.entries@[4].action@ == "Recenter Window"@ && r.entries@[4].key@ == "Ctrl+R"@,
            forall|i: int| 0 <= i < 5 ==> !(#[trigger] r.entries@[i]).recording,
            keys_distinct(r.entries@),
    {
        let entries = vec![
            ShortcutEntry { action: owned("Toggle Sidebar"), key: owned("Ctrl+B"), recording: false },
            ShortcutEntry { action: owned("Focus Input"), key: owned("Ctrl+I"), recording: false },
            ShortcutEntry { action: owned("Toggle Mute"), key: owned("Ctrl+M"), recording: false },
            ShortcutEntry { action: owned("New Conversation"), key: owned("Ctrl+N"), recording: false },
            ShortcutEntry { action: owned("Recenter Window"), key: owned("Ctrl+R"), recording: false },
        ];
        proof {
            reveal_strlit("Ctrl+B");
            reveal_strlit("Ctrl+I");
            reveal_strlit("Ctrl+M");
            reveal_strlit("Ctrl+N");
            reveal_strlit("Ctrl+R");
            let last = seq!['B', 'I', 'M', 'N', 'R'];
            assert forall|i: int| 0 <= i < 5 implies (#[trigger] entries@[i]).key@[5] == last[i] by {}
            assert forall|i: int, j: int| 0 <= i < 5 && 0 <= j < 5 && i != j implies
                #[trigger] entries@[i].key@ != #[trigger] entries@[j].key@ by {
                assert(entries@[i].key@[5] == last[i]);
                assert(entries@[j].key@[5] == last[j]);
            }
        }
        Shortcuts { entries, recording: None }
    }

    /// Starts recording a new combination for shortcut `i`.
    pub fn start_recording(&mut self, i: usize)
        requires
            i < old(self).entries@.len(),
        ensures
            final(self).recording == Some(i),
            final(self).entries@.len() == old(self).entries@.len(),
            final(self).entries@[i as int].recording,
            final(self).entries@[i as int].action == old(self).entries@[i as int].action,
            final(self).entries@[i as int].key == old(self).entries@[i as int].key,
            forall|k: int| 0 <= k < old(self).entries@.len() && k != i ==> #[trigger] final(self).entries@[k]
                == old(self).entries@[k],
    {
        let mut e = ShortcutEntry { action: String::new(), key: String::new(), recording: false };
        self.entries.set_and_swap(i, &mut e);
        e.recording = true;
        self.entries.set_and_swap(i, &mut e);
        self.recording = Some(i);
    }

    /// Forgets the shortcut being recorded when its entry is no longer
    /// marked as recording.
    pub fn settle_recording(&mut self)
        ensures
            final(self).entries == old(self).entries,
            final(self).recording == match old(self).recording {
                Some(i) if i < old(self).entries@.len() && !old(self).entries@[i as int].recording => None,
                other => other,
            },
    {
        if let Some(i) = self.recording {
            if i < self.entries.len() && !self.entries[i].recording {
                self.recording = None;
            }
        }
    }

    /// The action of the first shortcut bound to `combo` and not being
    /// recorded, if any.
    pub fn action_for(&self, combo: &str) -> (r: Option<ShortcutAction>)
        ensures
            match first_bound(self.entries@, combo@) {
                Some(i) => r == Some(action_named(self.entries@[i].action@)),
                None => r is None,
            },
    {
        let mut i: usize = 0;
        assert(self.entries@.skip(0) =~= self.entries@);
        while i < self.entries.len()
            invariant
                i <= self.entries.len(),
                forall|k: int| 0 <= k < i ==> !(#[trigger] self.entries@[k].key@ == combo@ && !self.entries@[k].recording),
            decreases self.entries.len() - i,
        {
            let e = &self.entries[i];
            if str_eq(e.key.as_str(), combo) && !e.recording {
                proof {
                    lemma_first_bound_at(self.entries@, combo@, i as int);
                }
                let a = if str_eq(e.action.as_str(), "Toggle Sidebar") {
                    ShortcutAction::ToggleSidebar
                } else if str_eq(e.action.as_str(), "Toggle Mute") {
                    ShortcutAction::ToggleMute
                } else if str_eq(e.action.as_str(), "Recenter Window") {
                    ShortcutAction::RecenterWindow
                } else {
                    ShortcutAction::Other
                };
                return Some(a);
            }
            i = i + 1;
        }
        proof {
            lemma_first_bound_none(self.entries@, combo@);
        }
        None
    }

    /// Records `combo` for the shortcut being recorded, unless some shortcut
    /// already has it; recording stops either way.
    pub fn record(&mut self, combo: &str)
        requires
            old(self).recording is Some,
        ensures
            final(self).recording is None,
            match old(self).recording {
                Some(i) if i < old(self).entries@.len() && !combo_taken(old(self).entries@, combo@) => {
                    &&& final(self).entries@.len() == old(self).entries@.len()
                    &&& final(self).entries@[i as int].key@ == combo@
                    &&& final(self).entries@[i as int].action == old(self).entries@[i as int].action
                    &&& final(self).entries@[i as int].recording == old(self).entries@[i as int].recording
                    &&& forall|k: int| 0 <= k < old(self).entries@.len() && k != i ==> #[trigger] final(self).entries@[k]
                        == old(self).entries@[k]
                },
                _ => final(self).entries@ == old(self).entries@,
            },
            keys_distinct(old(self).entries@) ==> keys_distinct(final(self).entries@),
    {
        if let Some(idx) = self.recording {
            if idx < self.entries.len() {
                let mut taken = false;
                let mut k: usize = 0;
                while k < self.entries.len()
                    invariant
                        k <= self.entries.len(),
                        taken == exists|j: int| 0 <= j < k && #[trigger] self.entries@[j].key@ == combo@,
                    decreases self.entries.len() - k,
                {
                    if str_eq(self.entries[k].key.as_str(), combo) {
                        taken = true;
                    }
                    k = k + 1;
                }
                if !taken {
                    let mut e = ShortcutEntry { action: String::new(), key: String::new(), recording: false };
                    self.entries.set_and_swap(idx, &mut e);
                    e.key = owned(combo);
                    self.entries.set_and_swap(idx, &mut e);
                }
            }
        }
        self.recording = None;
    }
}

proof fn lemma_first_bound_at(entries: Seq<ShortcutEntry>, combo: Seq<char>, i: int)
    requires
        0 <= i < entries.len(),
        entries[i].key@ == combo && !entries[i].recording,
        forall|k: int| 0 <= k < i ==> !(#[trigger] entries[k].key@ == combo && !entries[k].recording),
    ensures
        first_bound(entries, combo) == Some(i),
    decreases i,
{
    if i > 0 {
        let rest = entries.drop_first();
        assert forall|k: int| 0 <= k < i - 1 implies !(#[trigger] rest[k].key@ == combo && !rest[k].recording) by {
            assert(rest[k] == entries[k + 1]);
        }
        lemma_first_bound_at(rest, combo, i - 1);
    }
}

proof fn lemma_first_bound_none(entries: Seq<ShortcutEntry>, combo: Seq<char>)
    requires
        forall|k: int| 0 <= k < entries.len() ==> !(#[trigger] entries[k].key@ == combo && !entries[k].recording),
    ensures
        first_bound(entries, combo) is None,
    decreases entries.len(),
{
    if entries.len() > 0 {
        let rest = entries.drop_first();
        assert forall|k: int| 0 <= k < rest.len() implies !(#[trigger] rest[k].key@ == combo && !rest[k].recording) by {
            assert(rest[k] == entries[k + 1]);
        }
        lemma_first_bound_none(rest, combo);
    }
}

/// A provider as the desktop lists it: its name, whether it is set up, and
/// the key typed for it.
pub struct DesktopProvider {
    pub name: String,
    pub configured: bool,
    pub key: String,
}

/// The providers the desktop lists, in order.
pub open spec fn desktop_provider_names() -> Seq<Seq<char>> {
    seq![
        "OpenAI"@, "Anthropic"@, "Google"@, "DeepSeek"@, "Qwen (Alibaba)"@, "Zhipu (GLM)"@,
        "Moonshot"@, "Yi (01.AI)"@, "StepFun"@, "MiniMax"@, "Baidu (ERNIE)"@, "Mistral"@, "Groq"@,
        "Perplexity"@, "Together"@, "Cohere"@, "OpenRouter"@, "Ollama"@, "llama.cpp"@,
        "Fish Audio"@, "OpenCode Go"@, "HuggingFace"@, "Cursor"@,
    ]
}

/// The providers the desktop starts with: none set up, no keys.
pub fn default_desktop_providers() -> (r: Vec<DesktopProvider>)
    ensures
        r@.len() == desktop_provider_names().len(),
        forall|i: int| 0 <= i < r@.len() ==> {
            &&& (#[trigger] r@[i]).name@ == desktop_provider_names()[i]
            &&& !r@[i].configured
            &&& r@[i].key@.len() == 0
        },
{
    let names = vec![
        "OpenAI", "Anthropic", "Google", "DeepSeek", "Qwen (Alibaba)", "Zhipu (GLM)",
        "Moonshot", "Yi (01.AI)", "StepFun", "MiniMax", "Baidu (ERNIE)", "Mistral", "Groq",
        "Perplexity", "Together", "Cohere", "OpenRouter", "Ollama", "llama.cpp",
        "Fish Audio", "OpenCode Go", "HuggingFace", "Cursor",
    ];
    assert(names@.map_values(|n: &str| n@) =~= desktop_provider_names());
    let mut r: Vec<DesktopProvider> = Vec::new();
    let mut i: usize = 0;
    while i < names.len()
        invariant
            i <= names@.len(),
            names@.map_values(|n: &str| n@) == desktop_provider_names(),
            r@.len() == i,
            forall|k: int| 0 <= k < i ==> {
                &&& (#[trigger] r@[k]).name@ == desktop_provider_names()[k]
                &&& !r@[k].configured
                &&& r@[k].key@.len() == 0
            },
        decreases names.len() - i,
    {
        assert(names@[i as int]@ == desktop_provider_names()[i as int]);
        r.push(DesktopProvider { name: owned(names[i]), configured: false, key: String::new() });
        i = i + 1;
    }
    r
}

/// The first provider named `name`.
pub open spec fn provider_named(ps: Seq<DesktopProvider>, name: Seq<char>) -> Option<int>
    decreases ps.len(),
{
    if ps.len() == 0 {
        None
    } else if ps[0].name@ == name {
        Some(0)
    } else {
        match provider_named(ps.drop_first(), name) {
            Some(i) => Some(i + 1),
            None => None,
        }
    }
}

proof fn lemma_provider_named_at(ps: Seq<DesktopProvider>, name: Seq<char>, i: int)
    requires
        0 <= i < ps.len(),
        ps[i].name@ == name,
        forall|k: int| 0 <= k < i ==> #[trigger] ps[k].name@ != name,
    ensures
        provider_named(ps, name) == Some(i),
    decreases i,
{
    if i > 0 {
        let rest = ps.drop_first();
        assert forall|k: int| 0 <= k < i - 1 implies #[trigger] rest[k].name@ != name by {
            assert(rest[k] == ps[k + 1]);
        }
        lemma_provider_named_at(rest, name, i - 1);
    }
}

proof fn lemma_provider_named_none(ps: Seq<DesktopProvider>, name: Seq<char>)
    requires
        forall|k: int| 0 <= k < ps.len() ==> #[trigger] ps[k].name@ != name,
    ensures
        provider_named(ps, name) is None,
    decreases ps.len(),
{
    if ps.len() > 0 {
        let rest = ps.drop_first();
        assert forall|k: int| 0 <= k < rest.len() implies #[trigger] rest[k].name@ != name by {
            assert(rest[k] == ps[k + 1]);
        }
        lemma_provider_named_none(rest, name);
    }
}

/// Marks the first provider named `name` as set up, when there is one.
pub fn mark_configured(ps: &mut Vec<DesktopProvider>, name: &str)
    ensures
        final(ps)@.len() == old(ps)@.len(),
        match provider_named(old(ps)@, name@) {
            Some(i) => {
                &&& final(ps)@[i].configured
                &&& final(ps)@[i].name == old(ps)@[i].name
                &&& final(ps)@[i].key == old(ps)@[i].key
                &&& forall|k: int| 0 <= k < old(ps)@.len() && k != i ==> #[trigger] final(ps)@[k] == old(ps)@[k]
            },
            None => final(ps)@ == old(ps)@,
        },
{
    let mut i: usize = 0;
    while i < ps.len()
        invariant
            i <= ps@.len(),
            ps@ == old(ps)@,
            forall|k: int| 0 <= k < i ==> #[trigger] ps@[k].name@ != name@,
        decreases ps.len() - i,
    {
        if str_eq(ps[i].name.as_str(), name) {
            proof {
                lemma_provider_named_at(ps@, name@, i as int);
            }
            let mut e = DesktopProvider { name: String::new(), configured: false, key: String::new() };
            ps.set_and_swap(i, &mut e);
            e.configured = true;
            ps.set_and_swap(i, &mut e);
            return;
        }
        i = i + 1;
    }
    proof {
        lemma_provider_named_none(ps@, name@);
    }
}

/// The speech synthesis the desktop finds: local when Piper, eSpeak or
/// eSpeak NG is installed (which also switches to local speech), and the
/// Fish Audio API when that provider is set up.
pub struct TtsDetection {
    pub local_detected: bool,
    pub fish_detected: bool,
    pub use_local: bool,
}

/// What the desktop concludes about speech synthesis; local speech stays as
/// it was set when no local engine is found.
pub fn detect_tts(piper: bool, espeak: bool, espeak_ng: bool, fish_configured: bool, use_local_before: bool) -> (r: TtsDetection)
    ensures
        r.local_detected == (piper || espeak || espeak_ng),
        r.fish_detected == fish_configured,
        r.use_local == (r.local_detected || use_local_before),
{
    let local = piper || espeak || espeak_ng;
    TtsDetection { local_detected: local, fish_detected: fish_configured, use_local: local || use_local_before }
}

} // verus!
