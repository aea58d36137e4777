//! The backend API's requests and answers, and the decisions behind the
//! chat and action endpoints once the guards have had their say.

use vstd::prelude::*;
use crate::text::{owned, push_str};

verus! {

/// What the user's screen, calendar, mail and tasks show, when known.
pub struct ContextSnapshot {
    pub screen: Option<String>,
    pub calendar: Option<String>,
    pub mail: Option<String>,
    pub active_tasks: Option<String>,
}

/// A chat message for the agent.
pub struct ChatRequest {
    pub message: String,
    pub conversation_id: Option<String>,
    pub context: Option<ContextSnapshot>,
}

/// An action the agent carried out while answering.
pub struct ExecutedAction {
    pub name: String,
    pub status: String,
    pub result: String,
}

/// The bytes that went into and came out of the agent.
pub struct TokenUsage {
    pub input: u64,
    pub output: u64,
}

/// The answer to a chat message.
pub struct ChatResponse {
    pub response: String,
    pub conversation_id: String,
    pub actions: Vec<ExecutedAction>,
    pub tokens_used: TokenUsage,
}

/// A request to carry out an action; the arguments are their JSON text.
pub struct ActionRequest {
    pub action: String,
    pub args: String,
}

/// The answer to an action request.
pub struct ActionResponse {
    pub status: String,
    pub result: String,
    pub blocked_by: Option<String>,
}

/// A request to convert a JEPA model.
pub struct JepaConvertRequest {
    pub model: String,
    pub output_name: Option<String>,
}

/// A hyphenated lower-case UUID: 36 characters, hyphens at positions 8, 13,
/// 18 and 23, and hexadecimal digits elsewhere.
pub open spec fn is_hyphenated_uuid(s: Seq<char>) -> bool {
    &&& s.len() == 36
    &&& forall|i: int| 0 <= i < 36 ==> {
        if i == 8 || i == 13 || i == 18 || i == 23 {
            #[trigger] s[i] == '-'
        } else {
            ('0' <= s[i] && s[i] <= '9') || ('a' <= s[i] && s[i] <= 'f')
        }
    }
}

/// Calls `uuid::Uuid::new_v4` and formats the result with `to_string`,
/// which writes the hyphenated lower-case form. The UUID is random, so only
/// its shape is stated.
#[verifier::external_body]
fn fresh_uuid() -> (r: String)
    ensures
        is_hyphenated_uuid(r@),
{
    uuid::Uuid::new_v4().to_string()
}

/// The answer when a guard blocked the message or the agent's reply: the
/// guard's message, the conversation id given (or none), no actions and no
/// tokens.
pub fn blocked_chat(block: String, conversation_id: Option<String>) -> (r: ChatResponse)
    ensures
        r.response == block,
        r.conversation_id@ == match conversation_id {
            Some(c) => c@,
            None => Seq::<char>::empty(),
        },
        r.actions@.len() == 0,
        r.tokens_used.input == 0 && r.tokens_used.output == 0,
{
    ChatResponse {
        response: block,
        conversation_id: match conversation_id {
            Some(c) => c,
            None => String::new(),
        },
        actions: Vec::new(),
        tokens_used: TokenUsage { input: 0, output: 0 },
    }
}

/// The answer carrying the agent's `reply` to `message` in conversation
/// `conversation_id`; the tokens are the byte lengths of the message and
/// the reply.
pub fn chat_answer(message: &str, reply: &str, conversation_id: String) -> (r: ChatResponse)
    ensures
        r.response@ == reply@,
        r.conversation_id == conversation_id,
        r.actions@.len() == 0,
        r.tokens_used.input == message.len() as u64,
        r.tokens_used.output == reply.len() as u64,
{
    let input = message.len() as u64;
    let output = reply.len() as u64;
    ChatResponse {
        response: owned(reply),
        conversation_id,
        actions: Vec::new(),
        tokens_used: TokenUsage { input, output },
    }
}

/// The answer carrying the agent's `reply` to `message`: the conversation
/// id given, or a fresh random UUID; the tokens are the byte lengths of the
/// message and the reply.
pub fn answered_chat(message: &str, reply: &str, conversation_id: Option<String>) -> (r: ChatResponse)
    ensures
        r.response@ == reply@,
        match conversation_id {
            Some(c) => r.conversation_id == c,
            None => is_hyphenated_uuid(r.conversation_id@),
        },
        r.actions@.len() == 0,
        r.tokens_used.input == message.len() as u64,
        r.tokens_used.output == reply.len() as u64,
{
    let id = match conversation_id {
        Some(c) => c,
        None => fresh_uuid(),
    };
    chat_answer(message, reply, id)
}

/// The answer when the action guard blocked an action.
pub fn blocked_action(block: String) -> (r: ActionResponse)
    ensures
        r.status@ == "blocked"@,
        r.result@.len() == 0,
        r.blocked_by == Some(block),
{
    ActionResponse { status: owned("blocked"), result: String::new(), blocked_by: Some(block) }
}

/// The answer once the security gate has judged `action` with `args`:
/// carried out when it allowed it, blocked when it refused it, an error
/// when it failed.
pub fn action_verdict(action: &str, args: &str, gate: Result<bool, String>) -> (r: ActionResponse)
    ensures
        match gate {
            Ok(true) => {
                &&& r.status@ == "ok"@
                &&& r.result@ == "[Umbra] Acción '"@ + action@ + "' ejecutada: "@ + args@
                &&& r.blocked_by is None
            },
            Ok(false) => {
                &&& r.status@ == "blocked"@
                &&& r.result@.len() == 0
                &&& r.blocked_by matches Some(b) && b@ == "[Thoth] Acción bloqueada por seguridad"@
            },
            Err(e) => {
                &&& r.status@ == "error"@
                &&& r.result@.len() == 0
                &&& r.blocked_by matches Some(b) && b@ == "[Thoth] Error: "@ + e@
            },
        },
{
    match gate {
        Ok(true) => {
            let mut result = owned("[Umbra] Acción '");
            push_str(&mut result, action);
            push_str(&mut result, "' ejecutada: ");
            push_str(&mut result, args);
            ActionResponse { status: owned("ok"), result, blocked_by: None }
        },
        Ok(false) => ActionResponse {
            status: owned("blocked"),
            result: String::new(),
            blocked_by: Some(owned("[Thoth] Acción bloqueada por seguridad")),
        },
        Err(e) => {
            let mut b = owned("[Thoth] Error: ");
            push_str(&mut b, e.as_str());
            ActionResponse { status: owned("error"), result: String::new(), blocked_by: Some(b) }
        },
    }
}

/// The mode the status endpoint reports: limited while the hardware
/// throttles, active otherwise.
pub fn status_mode(throttling: bool) -> (r: &'static str)
    ensures
        r@ == if throttling { "limitado"@ } else { "activo"@ },
{
    if throttling {
        "limitado"
    } else {
        "activo"
    }
}

/// The model family a download uses when none is named.
pub fn model_family(requested: Option<String>) -> (r: String)
    ensures
        r@ == match requested {
            Some(f) => f@,
            None => "ollama"@,
        },
{
    match requested {
        Some(f) => f,
        None => owned("ollama"),
    }
}

/// The name a converted JEPA model is saved under: the one asked for, or
/// the model's own.
pub fn conversion_name(request: JepaConvertRequest) -> (r: String)
    ensures
        r == match request.output_name {
            Some(n) => n,
            None => request.model,
        },
{
    match request.output_name {
        Some(n) => n,
        None => request.model,
    }
}

} // verus!
