//! The OpenAI-compatible chat completion exchange: what is sent, and what a
//! reply means.

use vstd::prelude::*;

use crate::command::{normalize_command, normalized, CommandError};
use crate::config::RequestSettings;
use crate::json::{element_of, field, field_of, text_in, text_of, Json, JsonNumber};
use crate::keyed::keys_of;
use crate::session::opt_str;
use crate::text::{concat_str, decimal, decimal_string, first_str_at, lemma_first_str_at, position};

verus! {

/// What the model is told before the request.
pub const SYSTEM_PROMPT: &'static str = "Return exactly one shell command that fulfils the user request. Return only the command, with no Markdown, code fences, explanation, or line breaks. The command will be inserted into an interactive shell for review; never state that it was executed.";

/// The system message for a request in `shell`.
pub open spec fn system_prompt_text(shell: Seq<char>) -> Seq<char> {
    SYSTEM_PROMPT@ + " Generate syntax that is compatible with "@ + shell + "."@
}

/// The system message for a request in `shell`.
pub fn system_prompt(shell: &str) -> (r: String)
    ensures
        r@ == system_prompt_text(shell@),
{
    let a = concat_str(SYSTEM_PROMPT, " Generate syntax that is compatible with ");
    let b = concat_str(a.as_str(), shell);
    concat_str(b.as_str(), ".")
}

/// The member names of a payload for `settings`, in order.
pub open spec fn payload_keys(settings: RequestSettings) -> Seq<Seq<char>> {
    seq!["model"@, "messages"@] + (if settings.max_tokens is Some {
        seq!["max_tokens"@]
    } else {
        Seq::empty()
    }) + (if settings.temperature is Some {
        seq!["temperature"@]
    } else {
        Seq::empty()
    }) + (if settings.reasoning_effort is Some {
        seq!["reasoning_effort"@]
    } else {
        Seq::empty()
    })
}

/// A chat message object with `role` and `content`.
pub open spec fn is_message(j: Option<Json>, role: Seq<char>, content: Seq<char>) -> bool {
    &&& j matches Some(Json::Object(m)) && keys_of(m@) == seq!["role"@, "content"@]
    &&& text_in(field_of(j, "role"@)) == Some(role)
    &&& text_in(field_of(j, "content"@)) == Some(content)
}

/// The number member for an optional token limit.
pub open spec fn tokens_member(n: Option<u64>) -> Option<Json> {
    match n {
        Some(n) => Some(Json::Number(JsonNumber::Unsigned(n))),
        None => None,
    }
}

/// `j` is the completion request for `model`: the system message for
/// `shell`, then `request` from the user, and each setting that is set.
pub open spec fn is_payload(
    j: Json,
    model: Seq<char>,
    settings: RequestSettings,
    shell: Seq<char>,
    request: Seq<char>,
) -> bool {
    &&& j matches Json::Object(members) && keys_of(members@) == payload_keys(settings)
    &&& text_in(field(j, "model"@)) == Some(model)
    &&& field(j, "messages"@) matches Some(Json::Array(items)) && items@.len() == 2
    &&& is_message(element_of(field(j, "messages"@), 0), "system"@, system_prompt_text(shell))
    &&& is_message(element_of(field(j, "messages"@), 1), "user"@, request)
    &&& field(j, "max_tokens"@) == tokens_member(settings.max_tokens)
    &&& field(j, "temperature"@) == match settings.temperature {
        Some(t) => Some(Json::Number(JsonNumber::Float(t.bits))),
        None => None,
    }
    &&& text_in(field(j, "reasoning_effort"@)) == opt_str(settings.reasoning_effort)
}

/// In a list of distinct names, each name's position is its own.
proof fn lemma_distinct_position(keys: Seq<Seq<char>>, i: int)
    requires
        0 <= i < keys.len(),
        forall|a: int, b: int| 0 <= a < b < keys.len() ==> keys[a].len() != keys[b].len(),
    ensures
        position(keys, keys[i]) == Some(i),
{
    assert forall|j: int| 0 <= j < i implies keys[j] != keys[i] by {
        assert(keys[j].len() != keys[i].len());
    }
    assert(first_str_at(keys, keys[i], i));
    lemma_first_str_at(keys, keys[i], i);
}

/// In a list of names, one that is missing has no position.
proof fn lemma_absent_position(keys: Seq<Seq<char>>, k: Seq<char>)
    requires
        forall|a: int| 0 <= a < keys.len() ==> keys[a].len() != k.len(),
    ensures
        position(keys, k) is None,
{
    if keys.contains(k) {
        let a = choose|a: int| 0 <= a < keys.len() && keys[a] == k;
        assert(keys[a].len() != k.len());
    }
}

fn member(key: &str, value: Json) -> (r: (String, Json))
    ensures
        r.0@ == key@,
        r.1 == value,
{
    (key.to_owned(), value)
}

fn message(role: &str, content: String) -> (r: Json)
    ensures
        is_message(Some(r), role@, content@),
{
    proof {
        reveal_strlit("role");
        reveal_strlit("content");
    }
    let mut m: Vec<(String, Json)> = Vec::new();
    m.push(member("role", Json::Text(role.to_owned())));
    m.push(member("content", Json::Text(content)));
    let r = Json::Object(m);
    proof {
        let keys = keys_of(m@);
        assert(keys =~= seq!["role"@, "content"@]);
        lemma_distinct_position(keys, 0);
        lemma_distinct_position(keys, 1);
    }
    r
}

/// The chat completion request for `model`: the system message for
/// `shell`, the user's `request`, and each configured setting.
pub fn completion_payload(model: &str, settings: &RequestSettings, shell: &str, request: &str) -> (r: Json)
    ensures
        is_payload(r, model@, *settings, shell@, request@),
{
    proof {
        reveal_strlit("model");
        reveal_strlit("messages");
        reveal_strlit("max_tokens");
        reveal_strlit("temperature");
        reveal_strlit("reasoning_effort");
    }
    let mut messages: Vec<Json> = Vec::new();
    messages.push(message("system", system_prompt(shell)));
    messages.push(message("user", request.to_owned()));
    let msgs = Json::Array(messages);
    let mut members: Vec<(String, Json)> = Vec::new();
    members.push(member("model", Json::Text(model.to_owned())));
    members.push(member("messages", msgs));
    match settings.max_tokens {
        Some(n) => members.push(member("max_tokens", Json::Number(JsonNumber::Unsigned(n)))),
        None => {},
    }
    match settings.temperature {
        Some(t) => members.push(member("temperature", Json::Number(JsonNumber::Float(t.bits)))),
        None => {},
    }
    match &settings.reasoning_effort {
        Some(e) => members.push(member("reasoning_effort", Json::Text(e.clone()))),
        None => {},
    }
    let r = Json::Object(members);
    proof {
        let keys = keys_of(members@);
        assert(keys =~= payload_keys(*settings));
        assert forall|a: int, b: int| 0 <= a < b < keys.len() implies keys[a].len() != keys[b].len() by {
        }
        lemma_distinct_position(keys, 0);
        lemma_distinct_position(keys, 1);
        let mut k: int = 2;
        if settings.max_tokens is Some {
            lemma_distinct_position(keys, k);
            k = k + 1;
        } else {
            lemma_absent_position(keys, "max_tokens"@);
        }
        if settings.temperature is Some {
            lemma_distinct_position(keys, k);
            k = k + 1;
        } else {
            lemma_absent_position(keys, "temperature"@);
        }
        if settings.reasoning_effort is Some {
            lemma_distinct_position(keys, k);
        } else {
            lemma_absent_position(keys, "reasoning_effort"@);
        }
    }
    r
}

/// The provider's account of a failure: `error.message`, else a top-level
/// `message`, when that is a string.
pub open spec fn error_detail_text(body: Json) -> Seq<char> {
    let picked = match field_of(field(body, "error"@), "message"@) {
        Some(v) => Some(v),
        None => field(body, "message"@),
    };
    match text_in(picked) {
        Some(t) => t,
        None => "unknown provider error"@,
    }
}

/// The provider's account of a failure, from the reply body.
pub fn error_detail(body: &Json) -> (r: String)
    ensures
        r@ == error_detail_text(*body),
{
    let nested = match body.get("error") {
        Some(e) => e.get("message"),
        None => None,
    };
    let picked = match nested {
        Some(v) => Some(v),
        None => body.get("message"),
    };
    match picked {
        Some(v) => match v.as_text() {
            Some(t) => t.to_owned(),
            None => "unknown provider error".to_owned(),
        },
        None => "unknown provider error".to_owned(),
    }
}

/// The value under the path step `0`: member `"0"` of an object, element 0
/// of an array.
pub open spec fn step_zero(j: Option<Json>) -> Option<Json> {
    match j {
        Some(Json::Object(_)) => field(j->0, "0"@),
        Some(Json::Array(_)) => element_of(j, 0),
        _ => None,
    }
}

fn step_zero_of(j: Option<&Json>) -> (r: Option<&Json>)
    ensures
        match r {
            Some(v) => step_zero(match j {
                Some(x) => Some(*x),
                None => None,
            }) == Some(*v),
            None => step_zero(match j {
                Some(x) => Some(*x),
                None => None,
            }) is None,
        },
{
    match j {
        Some(v) => match v {
            Json::Object(_) => v.get("0"),
            Json::Array(_) => v.at(0),
            _ => None,
        },
        None => None,
    }
}

fn field_in<'a>(j: Option<&'a Json>, key: &str) -> (r: Option<&'a Json>)
    ensures
        match r {
            Some(v) => field_of(match j {
                Some(x) => Some(*x),
                None => None,
            }, key@) == Some(*v),
            None => field_of(match j {
                Some(x) => Some(*x),
                None => None,
            }, key@) is None,
        },
{
    match j {
        Some(v) => v.get(key),
        None => None,
    }
}

/// The first choice of a reply.
pub open spec fn first_choice(body: Json) -> Option<Json> {
    step_zero(field(body, "choices"@))
}

/// The message of the first choice.
pub open spec fn first_message(body: Json) -> Option<Json> {
    field_of(first_choice(body), "message"@)
}

/// The text at `/choices/0/message/content`, if it is a string.
pub open spec fn reply_content(body: Json) -> Option<Seq<char>> {
    text_in(field_of(first_message(body), "content"@))
}

/// The text of the first choice's message, if there is one.
pub fn message_content(body: &Json) -> (r: Option<String>)
    ensures
        match r {
            Some(s) => reply_content(*body) == Some(s@),
            None => reply_content(*body) is None,
        },
{
    let choice = step_zero_of(body.get("choices"));
    let message = field_in(choice, "message");
    match field_in(message, "content") {
        Some(v) => match v.as_text() {
            Some(t) => Some(t.to_owned()),
            None => None,
        },
        None => None,
    }
}

/// `true` or `false`.
pub open spec fn bool_text(b: bool) -> Seq<char> {
    if b {
        "true"@
    } else {
        "false"@
    }
}

/// The number of choices, when `choices` is an array.
pub open spec fn choice_count(body: Json) -> nat {
    match field(body, "choices"@) {
        Some(Json::Array(items)) => items@.len(),
        _ => 0,
    }
}

/// What kind of value the message is.
pub open spec fn message_kind(m: Option<Json>) -> Seq<char> {
    match m {
        None => "missing"@,
        Some(Json::Object(_)) => "object"@,
        Some(Json::Null) => "null"@,
        Some(_) => "other"@,
    }
}

/// What kind of value the content is.
pub open spec fn content_kind(c: Option<Json>) -> Seq<char> {
    match c {
        None => "missing"@,
        Some(Json::Text(_)) => "string"@,
        Some(Json::Null) => "null"@,
        Some(Json::Array(_)) => "array"@,
        Some(Json::Object(_)) => "object"@,
        Some(_) => "other"@,
    }
}

/// The finish reason, among those the report names.
pub open spec fn finish_kind(reason: Option<Seq<char>>) -> Seq<char> {
    match reason {
        None => "missing"@,
        Some(r) => if r == "length"@ {
            "length"@
        } else if r == "stop"@ {
            "stop"@
        } else if r == "tool_calls"@ {
            "tool_calls"@
        } else if r == "content_filter"@ {
            "content_filter"@
        } else {
            "other"@
        },
    }
}

/// The shape of a reply that holds no command: counts, kinds and the
/// presence of fields, never text that the provider wrote.
pub open spec fn diagnostics_text(body: Json) -> Seq<char> {
    let message = first_message(body);
    "choice_count="@ + decimal(choice_count(body)) + " message="@ + message_kind(message)
        + " content="@ + content_kind(field_of(message, "content"@)) + " finish_reason="@
        + finish_kind(text_in(field_of(first_choice(body), "finish_reason"@))) + " refusal="@
        + bool_text(field_of(message, "refusal"@) is Some) + " tool_calls="@ + bool_text(
        field_of(message, "tool_calls"@) is Some,
    ) + " reasoning="@ + bool_text(field_of(message, "reasoning"@) is Some)
}

/// The report of a reply's shape from its parts: the number of choices,
/// the kinds of the message, the content and the finish reason, and which
/// of refusal, tool calls and reasoning are present.
pub open spec fn diagnostics_layout(
    count: nat,
    message: Seq<char>,
    content: Seq<char>,
    finish: Seq<char>,
    refusal: bool,
    tool_calls: bool,
    reasoning: bool,
) -> Seq<char> {
    "choice_count="@ + decimal(count) + " message="@ + message + " content="@ + content
        + " finish_reason="@ + finish + " refusal="@ + bool_text(refusal) + " tool_calls="@
        + bool_text(tool_calls) + " reasoning="@ + bool_text(reasoning)
}

/// The report on a reply that holds no command never carries text the
/// provider wrote: it is a count, fixed words for the kinds, and three flags.
pub proof fn law_diagnostics_hold_no_provider_text(body: Json)
    ensures
        exists|
            count: nat,
            message: Seq<char>,
            content: Seq<char>,
            finish: Seq<char>,
            refusal: bool,
            tool_calls: bool,
            reasoning: bool,
        |
            {
                &&& seq!["missing"@, "object"@, "null"@, "other"@].contains(message)
                &&& seq!["missing"@, "string"@, "null"@, "array"@, "object"@, "other"@].contains(
                    content,
                )
                &&& seq!["missing"@, "length"@, "stop"@, "tool_calls"@, "content_filter"@, "other"@].contains(
                    finish,
                )
                &&& diagnostics_text(body) == #[trigger] diagnostics_layout(
                    count,
                    message,
                    content,
                    finish,
                    refusal,
                    tool_calls,
                    reasoning,
                )
            },
{
    let m = first_message(body);
    let message = message_kind(m);
    let content = content_kind(field_of(m, "content"@));
    let finish = finish_kind(text_in(field_of(first_choice(body), "finish_reason"@)));
    let ms = seq!["missing"@, "object"@, "null"@, "other"@];
    let cs = seq!["missing"@, "string"@, "null"@, "array"@, "object"@, "other"@];
    let fs = seq!["missing"@, "length"@, "stop"@, "tool_calls"@, "content_filter"@, "other"@];
    assert(ms.contains(message)) by {
        assert(ms[0] == "missing"@ && ms[1] == "object"@ && ms[2] == "null"@ && ms[3] == "other"@);
    }
    assert(cs.contains(content)) by {
        assert(cs[0] == "missing"@ && cs[1] == "string"@ && cs[2] == "null"@ && cs[3] == "array"@
            && cs[4] == "object"@ && cs[5] == "other"@);
    }
    assert(fs.contains(finish)) by {
        assert(fs[0] == "missing"@ && fs[1] == "length"@ && fs[2] == "stop"@ && fs[3] == "tool_calls"@
            && fs[4] == "content_filter"@ && fs[5] == "other"@);
    }
    assert(diagnostics_text(body) == diagnostics_layout(
        choice_count(body),
        message,
        content,
        finish,
        field_of(m, "refusal"@) is Some,
        field_of(m, "tool_calls"@) is Some,
        field_of(m, "reasoning"@) is Some,
    ));
}

fn bool_string(b: bool) -> (r: String)
    ensures
        r@ == bool_text(b),
{
    if b {
        "true".to_owned()
    } else {
        "false".to_owned()
    }
}

/// Describes the shape of a reply without any text the provider wrote.
pub fn response_diagnostics(body: &Json) -> (r: String)
    ensures
        r@ == diagnostics_text(*body),
{
    let choices = body.get("choices");
    let choice = step_zero_of(choices);
    let message = field_in(choice, "message");
    let content = field_in(message, "content");
    let count: u64 = match choices {
        Some(Json::Array(items)) => items.len() as u64,
        _ => 0,
    };
    let message_kind = match message {
        None => "missing",
        Some(Json::Object(_)) => "object",
        Some(Json::Null) => "null",
        Some(_) => "other",
    };
    let content_kind = match content {
        None => "missing",
        Some(Json::Text(_)) => "string",
        Some(Json::Null) => "null",
        Some(Json::Array(_)) => "array",
        Some(Json::Object(_)) => "object",
        Some(_) => "other",
    };
    let reason = match field_in(choice, "finish_reason") {
        Some(v) => v.as_text(),
        None => None,
    };
    proof {
        reveal_strlit("length");
        reveal_strlit("stop");
        reveal_strlit("tool_calls");
        reveal_strlit("content_filter");
    }
    let finish = match reason {
        None => "missing",
        Some(r) => if crate::text::str_eq(r, "length") {
            "length"
        } else if crate::text::str_eq(r, "stop") {
            "stop"
        } else if crate::text::str_eq(r, "tool_calls") {
            "tool_calls"
        } else if crate::text::str_eq(r, "content_filter") {
            "content_filter"
        } else {
            "other"
        },
    };
    let refusal = field_in(message, "refusal").is_some();
    let tool_calls = field_in(message, "tool_calls").is_some();
    let reasoning = field_in(message, "reasoning").is_some();
    let s = concat_str("choice_count=", decimal_string(count).as_str());
    let s = concat_str(s.as_str(), " message=");
    let s = concat_str(s.as_str(), message_kind);
    let s = concat_str(s.as_str(), " content=");
    let s = concat_str(s.as_str(), content_kind);
    let s = concat_str(s.as_str(), " finish_reason=");
    let s = concat_str(s.as_str(), finish);
    let s = concat_str(s.as_str(), " refusal=");
    let s = concat_str(s.as_str(), bool_string(refusal).as_str());
    let s = concat_str(s.as_str(), " tool_calls=");
    let s = concat_str(s.as_str(), bool_string(tool_calls).as_str());
    let s = concat_str(s.as_str(), " reasoning=");
    concat_str(s.as_str(), bool_string(reasoning).as_str())
}

/// Why a provider exchange yielded no command.
#[derive(Clone, Debug, PartialEq, Eq)]
pub enum ProviderError {
    /// The request did not reach the provider, with the cause.
    Unreachable(String),
    /// The reply body is not JSON, with the cause.
    InvalidJson(String),
    /// The reply has a failure status (first) and the provider's account
    /// of it (second).
    Status(String, String),
    /// The reply holds no message text; what it does hold is described.
    NoContent(String),
    /// The message text is not a usable command.
    Command(CommandError),
}

/// Abstract form of [`ProviderError`].
pub enum ProviderProblem {
    Unreachable(Seq<char>),
    InvalidJson(Seq<char>),
    Status(Seq<char>, Seq<char>),
    NoContent(Seq<char>),
    Command(CommandError),
}

impl View for ProviderError {
    type V = ProviderProblem;

    open spec fn view(&self) -> ProviderProblem {
        match self {
            ProviderError::Unreachable(c) => ProviderProblem::Unreachable(c@),
            ProviderError::InvalidJson(c) => ProviderProblem::InvalidJson(c@),
            ProviderError::Status(s, d) => ProviderProblem::Status(s@, d@),
            ProviderError::NoContent(d) => ProviderProblem::NoContent(d@),
            ProviderError::Command(e) => ProviderProblem::Command(*e),
        }
    }
}

/// `head`, then `": "` and `cause` when there is a cause.
pub open spec fn with_cause(head: Seq<char>, cause: Seq<char>) -> Seq<char> {
    if cause.len() == 0 {
        head
    } else {
        head + ": "@ + cause
    }
}

/// `head`, then `": "` and `cause` when there is a cause.
pub fn append_cause(head: &str, cause: &str) -> (r: String)
    ensures
        r@ == with_cause(head@, cause@),
{
    if crate::text::chars_of(cause).len() == 0 {
        head.to_owned()
    } else {
        let a = concat_str(head, ": ");
        concat_str(a.as_str(), cause)
    }
}

impl ProviderError {
    /// The message for this error.
    pub open spec fn text(&self) -> Seq<char> {
        match self@ {
            ProviderProblem::Unreachable(c) => with_cause(
                "could not contact inference provider"@,
                c,
            ),
            ProviderProblem::InvalidJson(c) => with_cause("provider returned invalid JSON"@, c),
            ProviderProblem::Status(s, d) => "provider returned "@ + s + ": "@ + d,
            ProviderProblem::NoContent(d) => "provider response contained no message content ("@
                + d + ")"@,
            ProviderProblem::Command(e) => e.message_text(),
        }
    }

    /// The message shown for this error.
    pub fn message(&self) -> (r: String)
        ensures
            r@ == self.text(),
    {
        match self {
            ProviderError::Unreachable(c) => append_cause(
                "could not contact inference provider",
                c.as_str(),
            ),
            ProviderError::InvalidJson(c) => append_cause("provider returned invalid JSON", c.as_str()),
            ProviderError::Status(s, d) => {
                let a = concat_str("provider returned ", s.as_str());
                let b = concat_str(a.as_str(), ": ");
                concat_str(b.as_str(), d.as_str())
            },
            ProviderError::NoContent(d) => {
                let a = concat_str("provider response contained no message content (", d.as_str());
                concat_str(a.as_str(), ")")
            },
            ProviderError::Command(e) => e.message(),
        }
    }
}

/// What a reply means: a body that is not JSON fails, then a failure
/// status, then a reply without message text; otherwise the text is
/// normalized into a command.
pub open spec fn reply_outcome(success: bool, status: Seq<char>, body: Result<Json, Seq<char>>) -> Result<
    Seq<char>,
    ProviderProblem,
> {
    match body {
        Err(cause) => Err(ProviderProblem::InvalidJson(cause)),
        Ok(b) => if !success {
            Err(ProviderProblem::Status(status, error_detail_text(b)))
        } else {
            match reply_content(b) {
                None => Err(ProviderProblem::NoContent(diagnostics_text(b))),
                Some(content) => match normalized(content) {
                    Ok(c) => Ok(c),
                    Err(e) => Err(ProviderProblem::Command(e)),
                },
            }
        },
    }
}

/// The command in a provider's reply, given whether its status is a
/// success, the status line, and the body read as JSON (or why it could
/// not be).
pub fn interpret_reply(success: bool, status: &str, body: Result<Json, String>) -> (r: Result<
    String,
    ProviderError,
>)
    ensures
        match (r, reply_outcome(
            success,
            status@,
            match body {
                Ok(b) => Ok(b),
                Err(c) => Err(c@),
            },
        )) {
            (Ok(c), Ok(c2)) => c@ == c2,
            (Err(e), Err(e2)) => e@ == e2,
            _ => false,
        },
{
    let b = match body {
        Err(cause) => {
            return Err(ProviderError::InvalidJson(cause));
        },
        Ok(b) => b,
    };
    if !success {
        return Err(ProviderError::Status(status.to_owned(), error_detail(&b)));
    }
    match message_content(&b) {
        None => Err(ProviderError::NoContent(response_diagnostics(&b))),
        Some(content) => match normalize_command(content.as_str()) {
            Ok(c) => Ok(c),
            Err(e) => Err(ProviderError::Command(e)),
        },
    }
}

} // verus!
