//! The model and speech clients as the rest of the system sees them: their
//! endpoints, the messages sent, and the errors reported.

use vstd::prelude::*;
use crate::auth::{trim_str, trim_ws};
use crate::text::{decimal, owned, push_decimal, push_str, trim_end_char, trim_end_matching};

verus! {

/// One message of a chat: who speaks and what is said.
pub struct ChatMessage {
    pub role: String,
    pub content: String,
}

impl ChatMessage {
    /// A message from `role` saying `content`.
    pub fn new(role: &str, content: &str) -> (r: ChatMessage)
        ensures
            r.role@ == role@,
            r.content@ == content@,
    {
        ChatMessage { role: owned(role), content: owned(content) }
    }
}

/// What went wrong talking to a model server.
pub enum AiError {
    /// The request could not be sent.
    Request(String),
    /// The server answered with an error status and text.
    Http(u16, String),
    /// The answer could not be read.
    Parse(String),
}

/// The message an error is shown with.
pub open spec fn ai_error_text(e: AiError) -> Seq<char> {
    match e {
        AiError::Request(m) => "Ollama request failed: "@ + m@,
        AiError::Http(code, text) => "Ollama HTTP "@ + decimal(code as nat) + ": "@ + text@,
        AiError::Parse(m) => "Ollama parse failed: "@ + m@,
    }
}

impl AiError {
    /// The message this error is shown with.
    pub fn to_string(&self) -> (r: String)
        ensures
            r@ == ai_error_text(*self),
    {
        match self {
            AiError::Request(m) => {
                let mut r = owned("Ollama request failed: ");
                push_str(&mut r, m.as_str());
                r
            },
            AiError::Http(code, text) => {
                let mut r = owned("Ollama HTTP ");
                push_decimal(&mut r, *code as u128);
                push_str(&mut r, ": ");
                push_str(&mut r, text.as_str());
                r
            },
            AiError::Parse(m) => {
                let mut r = owned("Ollama parse failed: ");
                push_str(&mut r, m.as_str());
                r
            },
        }
    }
}

/// The error for a chat answered with a non-200 status: the server's own
/// error message when its body is an error object, else the body as it is.
pub fn chat_error(status: u16, body: String, server_error: Option<String>) -> (r: AiError)
    ensures
        r matches AiError::Http(c, t) && c == status && t@ == match server_error {
            Some(e) => e@,
            None => body@,
        },
{
    match server_error {
        Some(e) => AiError::Http(status, e),
        None => AiError::Http(status, body),
    }
}

/// The model served by a local Ollama.
pub struct OllamaClient {
    base_url: String,
}

/// The default address of a local Ollama.
pub open spec fn ollama_default_url() -> Seq<char> {
    "http://localhost:11434"@
}

impl OllamaClient {
    /// A client of the local Ollama at its default address.
    pub fn new() -> (r: OllamaClient)
        ensures
            r.base_url()@ == ollama_default_url(),
    {
        OllamaClient { base_url: owned("http://localhost:11434") }
    }

    /// A client of the Ollama at `url`, without trailing slashes.
    pub fn with_url(url: &str) -> (r: OllamaClient)
        ensures
            r.base_url()@ == trim_end_char(url@, '/'),
    {
        OllamaClient { base_url: trim_end_matching(url, '/') }
    }

    /// The address of the server.
    pub closed spec fn base_url(&self) -> String {
        self.base_url
    }

    /// The address of the server.
    pub fn url(&self) -> (r: &str)
        ensures
            r@ == self.base_url()@,
    {
        self.base_url.as_str()
    }

    /// The address that lists the installed models.
    pub fn tags_url(&self) -> (r: String)
        ensures
            r@ == self.base_url()@ + "/api/tags"@,
    {
        let mut r = owned(self.base_url.as_str());
        push_str(&mut r, "/api/tags");
        r
    }

    /// The address that answers chats.
    pub fn chat_url(&self) -> (r: String)
        ensures
            r@ == self.base_url()@ + "/api/chat"@,
    {
        let mut r = owned(self.base_url.as_str());
        push_str(&mut r, "/api/chat");
        r
    }
}

/// The speech-to-text service a client talks to.
#[derive(Clone, Copy, Debug, PartialEq, Eq, Structural)]
pub enum SttRoute {
    /// A local whisper.cpp server.
    Local,
    /// OpenAI's Whisper API.
    OpenAi,
}

/// A speech-to-text client: the server's address and, for OpenAI, the key.
pub struct SttClient {
    pub base_url: String,
    pub api_key: Option<String>,
}

impl SttClient {
    /// A client of the local whisper.cpp server.
    pub fn new_local() -> (r: SttClient)
        ensures
            r.base_url@ == "http://localhost:8080"@,
            r.api_key is None,
    {
        SttClient { base_url: owned("http://localhost:8080"), api_key: None }
    }

    /// A client of OpenAI's Whisper API with `api_key`.
    pub fn new_openai(api_key: String) -> (r: SttClient)
        ensures
            r.base_url@ == "https://api.openai.com/v1"@,
            r.api_key == Some(api_key),
    {
        SttClient { base_url: owned("https://api.openai.com/v1"), api_key: Some(api_key) }
    }

    /// OpenAI when the client has a key, the local server otherwise.
    pub fn route(&self) -> (r: SttRoute)
        ensures
            r == if self.api_key is Some { SttRoute::OpenAi } else { SttRoute::Local },
    {
        match &self.api_key {
            Some(_) => SttRoute::OpenAi,
            None => SttRoute::Local,
        }
    }

    /// The address audio is sent to.
    pub fn endpoint(&self) -> (r: String)
        ensures
            r@ == self.base_url@ + if self.api_key is Some {
                "/audio/transcriptions"@
            } else {
                "/inference"@
            },
    {
        let mut r = owned(self.base_url.as_str());
        match &self.api_key {
            Some(_) => push_str(&mut r, "/audio/transcriptions"),
            None => push_str(&mut r, "/inference"),
        }
        r
    }
}

/// A transcript as returned to the caller: without white space at either end.
pub fn clean_transcript(text: &str) -> (r: String)
    ensures
        r@ == trim_ws(text@),
{
    trim_str(text)
}

/// What a transcription request gives for the HTTP status and the text of
/// the reply: the transcript, trimmed, on status 200, else an HTTP error
/// with the status and the text.
pub fn transcript_result(status: u16, body: String) -> (r: Result<String, AiError>)
    ensures
        status == 200 ==> (r matches Ok(t) && t@ == trim_ws(body@)),
        status != 200 ==> (r matches Err(AiError::Http(c, b)) && c == status && b == body),
{
    if status == 200 {
        Ok(clean_transcript(body.as_str()))
    } else {
        Err(AiError::Http(status, body))
    }
}

} // verus!
