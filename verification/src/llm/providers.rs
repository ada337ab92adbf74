//! What is sent to the OpenAI and Ollama chat services, and what is read
//! from their replies.

use vstd::prelude::*;
use crate::engine::executor::is_text;
use crate::error::{Error, error_message};
use crate::json::{JsonValue, member, member_exec, text_member, text_member_exec};
use crate::llm::types::{Message, MessageRole};
use crate::text::{concat, join, join_strings, owned, string_views};

verus! {

/// The role name that OpenAI expects.
pub open spec fn openai_role(r: MessageRole) -> Seq<char> {
    match r {
        MessageRole::System => "system"@,
        MessageRole::User => "user"@,
        MessageRole::Assistant => "assistant"@,
    }
}

/// The role name written in an Ollama prompt.
pub open spec fn prompt_role(r: MessageRole) -> Seq<char> {
    match r {
        MessageRole::System => "System"@,
        MessageRole::User => "User"@,
        MessageRole::Assistant => "Assistant"@,
    }
}

/// A message as OpenAI takes it: an object with `content` and `role`.
pub open spec fn openai_message(v: JsonValue, m: Message) -> bool {
    &&& v matches JsonValue::Object(f)
    &&& f@.len() == 2
    &&& f@[0].0@ == "content"@ && is_text(f@[0].1, m.content@)
    &&& f@[1].0@ == "role"@ && is_text(f@[1].1, openai_role(m.role))
}

/// The lines of an Ollama prompt, one per message: `Role: content`.
pub open spec fn prompt_parts(ms: Seq<Message>) -> Seq<Seq<char>> {
    ms.map_values(|m: Message| prompt_role(m.role) + ": "@ + m.content@)
}

/// The reply text in an OpenAI answer: `choices[0].message.content`.
pub open spec fn openai_reply(body: JsonValue) -> Option<Seq<char>> {
    match member(body, "choices"@) {
        Some(JsonValue::Array(items)) => if items@.len() > 0 {
            match member(items@[0], "message"@) {
                Some(m) => text_member(m, "content"@),
                None => None,
            }
        } else {
            None
        },
        _ => None,
    }
}

/// The messages as OpenAI takes them.
pub fn openai_messages(messages: &Vec<Message>) -> (r: Vec<JsonValue>)
    ensures
        r@.len() == messages@.len(),
        forall|k: int| 0 <= k < messages@.len() ==> openai_message(#[trigger] r@[k], messages@[k]),
{
    let mut out: Vec<JsonValue> = Vec::new();
    let mut i: usize = 0;
    while i < messages.len()
        invariant
            i <= messages@.len(),
            out@.len() == i,
            forall|k: int| 0 <= k < i ==> openai_message(#[trigger] out@[k], messages@[k]),
        decreases messages@.len() - i,
    {
        let m = &messages[i];
        let role = match m.role {
            MessageRole::System => "system",
            MessageRole::User => "user",
            MessageRole::Assistant => "assistant",
        };
        let mut fields: Vec<(String, JsonValue)> = Vec::new();
        fields.push((owned("content"), JsonValue::String(m.content.clone())));
        fields.push((owned("role"), JsonValue::String(owned(role))));
        out.push(JsonValue::Object(fields));
        i = i + 1;
    }
    out
}

/// The Ollama prompt: one `Role: content` line per message, separated by
/// blank lines.
pub fn ollama_prompt(messages: &Vec<Message>) -> (p: String)
    ensures
        p@ == join(prompt_parts(messages@), "\n\n"@),
{
    let mut parts: Vec<String> = Vec::new();
    let mut i: usize = 0;
    while i < messages.len()
        invariant
            i <= messages@.len(),
            string_views(parts@) == prompt_parts(messages@).take(i as int),
        decreases messages@.len() - i,
    {
        let m = &messages[i];
        let role = match m.role {
            MessageRole::System => "System",
            MessageRole::User => "User",
            MessageRole::Assistant => "Assistant",
        };
        let head = concat(role, ": ");
        let line = concat(head.as_str(), m.content.as_str());
        let ghost before = parts@;
        parts.push(line);
        assert(string_views(parts@) =~= string_views(before).push(line@));
        i = i + 1;
        assert(prompt_parts(messages@).take(i as int) =~= prompt_parts(messages@).take(i - 1).push(line@));
    }
    assert(prompt_parts(messages@).take(i as int) =~= prompt_parts(messages@));
    join_strings(&parts, "\n\n")
}

/// The reply text of an OpenAI answer, or an error when it has none.
pub fn openai_reply_text(body: &JsonValue) -> (r: Result<String, Error>)
    ensures
        match openai_reply(*body) {
            Some(t) => r matches Ok(s) && s@ == t,
            None => r matches Err(Error::Internal(m)) && m@ == "Missing content in OpenAI response"@,
        },
{
    let missing = Err(Error::Internal(owned("Missing content in OpenAI response")));
    match member_exec(body, "choices") {
        Some(JsonValue::Array(items)) => {
            if items.len() == 0 {
                return missing;
            }
            match member_exec(&items[0], "message") {
                Some(m) => match text_member_exec(m, "content") {
                    Some(s) => Ok(s),
                    None => missing,
                },
                None => missing,
            }
        },
        _ => missing,
    }
}

/// The reply text of an Ollama answer (its `response` string), or an error
/// when it has none.
pub fn ollama_reply_text(body: &JsonValue) -> (r: Result<String, Error>)
    ensures
        match text_member(*body, "response"@) {
            Some(t) => r matches Ok(s) && s@ == t,
            None => r matches Err(Error::Internal(m)) && m@ == "Missing 'response' field in Ollama output"@,
        },
{
    match text_member_exec(body, "response") {
        Some(s) => Ok(s),
        None => Err(Error::Internal(owned("Missing 'response' field in Ollama output"))),
    }
}

/// The error for an unsuccessful HTTP answer of a service: `{service} API
/// error {status}: {body}`.
pub fn service_error(service: &str, status: &str, body: &str) -> (e: Error)
    ensures
        e matches Error::Internal(m) && m@ == service@ + " API error "@ + status@ + ": "@ + body@,
{
    let a = concat(service, " API error ");
    let b = concat(a.as_str(), status);
    let c = concat(b.as_str(), ": ");
    Error::Internal(concat(c.as_str(), body))
}

/// Where a completion stands after the primary provider answered.
#[derive(Debug)]
pub enum CompletionStep {
    /// The completion is decided.
    Done(Result<String, Error>),
    /// The primary provider failed with this error; the fallback is asked.
    TryFallback(Error),
}

/// After the primary provider answered: its reply stands; its failure
/// stands too when there is no fallback, else the fallback is asked.
pub fn after_primary(result: Result<String, Error>, has_fallback: bool) -> (s: CompletionStep)
    ensures
        match result {
            Ok(t) => s == CompletionStep::Done(Ok(t)),
            Err(e) => if has_fallback { s == CompletionStep::TryFallback(e) } else { s == CompletionStep::Done(Err(e)) },
        },
{
    match result {
        Ok(t) => CompletionStep::Done(Ok(t)),
        Err(e) => if has_fallback { CompletionStep::TryFallback(e) } else { CompletionStep::Done(Err(e)) },
    }
}

/// The message when both providers failed.
pub open spec fn both_failed_text(primary: Seq<char>, fallback: Seq<char>, pe: Error, fe: Error) -> Seq<char> {
    "Both primary ("@ + primary + ") and fallback ("@ + fallback + ") providers failed. Primary: "@
        + error_message(pe) + ". Fallback: "@ + error_message(fe)
}

/// After the fallback provider answered: its reply stands; its failure
/// gives an error that names both providers and both errors.
pub fn after_fallback(primary_name: &str, fallback_name: &str, primary_error: Error, result: Result<String, Error>) -> (r: Result<String, Error>)
    ensures
        match result {
            Ok(t) => r == Ok::<String, Error>(t),
            Err(fe) => r matches Err(Error::Internal(m))
                && m@ == both_failed_text(primary_name@, fallback_name@, primary_error, fe),
        },
{
    match result {
        Ok(t) => Ok(t),
        Err(fe) => {
            let a = concat("Both primary (", primary_name);
            let b = concat(a.as_str(), ") and fallback (");
            let c = concat(b.as_str(), fallback_name);
            let d = concat(c.as_str(), ") providers failed. Primary: ");
            let e = concat(d.as_str(), primary_error.message().as_str());
            let f = concat(e.as_str(), ". Fallback: ");
            Err(Error::Internal(concat(f.as_str(), fe.message().as_str())))
        },
    }
}

} // verus!
