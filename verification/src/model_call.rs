//! Calls of a language model: what is sent, how a reply is read, and when a call is made again.

use crate::chars;
use crate::json;
use crate::json::Json;
use crate::outside;
use crate::sections;
use crate::sources;
use crate::text;
use vstd::prelude::*;

verus! {

/// How often a call is made again.
pub const MAX_RETRIES: u32 = 3;

/// What a model is called for: prose, or a plan in JSON.
#[derive(Debug, Clone, Copy, PartialEq, Eq, Structural)]
pub enum ModelKind {
    Prose,
    Planning,
}

/// A call of a model. The temperature is in hundredths.
#[derive(Debug)]
pub struct ModelRequest {
    pub kind: ModelKind,
    pub system: &'static str,
    pub prompt: String,
    pub temperature_percent: u32,
    pub max_output_tokens: u32,
}

pub struct RequestView {
    pub kind: ModelKind,
    pub system: Seq<char>,
    pub prompt: Seq<char>,
    pub temperature_percent: int,
    pub max_output_tokens: int,
}

impl View for ModelRequest {
    type V = RequestView;

    open spec fn view(&self) -> RequestView {
        RequestView {
            kind: self.kind,
            system: self.system@,
            prompt: self.prompt@,
            temperature_percent: self.temperature_percent as int,
            max_output_tokens: self.max_output_tokens as int,
        }
    }
}

// What is sent

/// Where a model is called; an error without a key.
pub open spec fn call_target(google_key: Seq<char>, model: Seq<char>) -> Result<
    Seq<char>,
    Seq<char>,
> {
    if google_key.len() == 0 {
        Err("GOOGLE_API_KEY is empty"@)
    } else {
        Ok(
            "https://generativelanguage.googleapis.com/v1beta/models/"@ + model
                + ":generateContent?key="@ + google_key,
        )
    }
}

/// Where a model is called; an error without a key.
pub fn model_url(google_key: &str, model: &str) -> (r: Result<String, String>)
    ensures
        match r {
            Ok(url) => call_target(google_key@, model@) == Ok::<Seq<char>, Seq<char>>(url@),
            Err(e) => call_target(google_key@, model@) == Err::<Seq<char>, Seq<char>>(e@),
        },
{
    if google_key.is_empty() {
        return Err(text::copy("GOOGLE_API_KEY is empty"));
    }
    let mut url = text::copy("https://generativelanguage.googleapis.com/v1beta/models/");
    url.append(model);
    url.append(":generateContent?key=");
    url.append(google_key);
    Ok(url)
}

/// A list of one part that holds a text.
pub open spec fn is_text_part(value: Json, t: Seq<char>) -> bool {
    match value.items() {
        Some(items) => {
            &&& items.len() == 1
            &&& items[0].size() == 1
            &&& items[0].key_at(0) == "text"@
            &&& items[0].value_at(0).text() == Some(t)
        },
        None => false,
    }
}

/// What is sent to a model, but for the temperature.
pub open spec fn is_model_body(body: Json, request: RequestView) -> bool {
    let contents = body.value_at(0);
    let instruction = body.value_at(1);
    let settings = body.value_at(2);
    &&& body.size() == 3
    &&& body.key_at(0) == "contents"@
    &&& contents.items() matches Some(items) && items.len() == 1 && items[0].size() == 2
        && items[0].key_at(0) == "role"@ && items[0].value_at(0).text() == Some("user"@)
        && items[0].key_at(1) == "parts"@ && is_text_part(items[0].value_at(1), request.prompt)
    &&& body.key_at(1) == "systemInstruction"@
    &&& instruction.size() == 1
    &&& instruction.key_at(0) == "parts"@
    &&& is_text_part(instruction.value_at(0), request.system)
    &&& body.key_at(2) == "generationConfig"@
    &&& settings.key_at(0) == "maxOutputTokens"@
    &&& settings.value_at(0).integer() == Some(request.max_output_tokens)
    &&& match request.kind {
        ModelKind::Prose => settings.size() == 1,
        ModelKind::Planning => settings.size() == 2 && settings.key_at(1) == "responseMimeType"@
            && settings.value_at(1).text() == Some("application/json"@),
    }
}

fn text_part(t: &str) -> (r: Json)
    ensures
        is_text_part(r, t@),
{
    Json::Array(vec![Json::Object(vec![json::pair("text", json::string(t))])])
}

/// What is sent to a model. The temperature is not part of it: it joins `generationConfig` where
/// numbers with a fraction can be written.
pub fn model_body(request: &ModelRequest) -> (r: Json)
    ensures
        is_model_body(r, request@),
{
    let content = Json::Object(
        vec![
            json::pair("role", json::string("user")),
            json::pair("parts", text_part(request.prompt.as_str())),
        ],
    );
    let instruction = Json::Object(vec![json::pair("parts", text_part(request.system))]);
    let tokens = Json::Integer(request.max_output_tokens as i128);
    let settings = match request.kind {
        ModelKind::Prose => Json::Object(vec![json::pair("maxOutputTokens", tokens)]),
        ModelKind::Planning => Json::Object(
            vec![
                json::pair("maxOutputTokens", tokens),
                json::pair("responseMimeType", json::string("application/json")),
            ],
        ),
    };
    Json::Object(
        vec![
            json::pair("contents", Json::Array(vec![content])),
            json::pair("systemInstruction", instruction),
            json::pair("generationConfig", settings),
        ],
    )
}

// What comes back

/// Whether a part of a reply is a thought of the model.
pub open spec fn is_thought(part: Json) -> bool {
    part.member("thought"@).truth() == Some(true)
}

/// The first text among the parts of a reply that is no thought.
pub open spec fn first_part_text(parts: Seq<Json>) -> Option<Seq<char>>
    decreases parts.len(),
{
    if parts.len() == 0 {
        None
    } else if !is_thought(parts[0]) && parts[0].member("text"@).text() is Some {
        parts[0].member("text"@).text()
    } else {
        first_part_text(parts.skip(1))
    }
}

/// The text of a reply.
pub open spec fn reply_text(reply: Json) -> Option<Seq<char>> {
    match sources::first_item(reply.member("candidates"@)).member("content"@).member(
        "parts"@,
    ).items() {
        Some(parts) => first_part_text(parts),
        None => None,
    }
}

/// The text of a reply: the first part that holds one and is no thought.
pub fn text_of_reply(reply: &Json) -> (r: Option<String>)
    ensures
        r is Some <==> reply_text(*reply) is Some,
        r matches Some(t) ==> reply_text(*reply) == Some(t@),
{
    match sources::first_of(reply.at("candidates")).at("content").at("parts").as_items() {
        Some(parts) => {
            let mut i: usize = 0;
            assert(parts@.skip(0) == parts@);
            while i < parts.len()
                invariant
                    i <= parts@.len(),
                    first_part_text(parts@) == first_part_text(parts@.skip(i as int)),
                    reply_text(*reply) == first_part_text(parts@),
                decreases parts@.len() - i,
            {
                let part = &parts[i];
                let thought = match part.at("thought").as_truth() {
                    Some(b) => b,
                    None => false,
                };
                if !thought {
                    match part.at("text").as_text() {
                        Some(t) => {
                            return Some(text::copy(t.as_str()));
                        },
                        None => {},
                    }
                }
                assert(parts@.skip(i as int).skip(1) == parts@.skip(i + 1));
                i += 1;
            }
            None
        },
        None => None,
    }
}

// Calling again

/// Whether a call is worth making again: the service is overloaded, or limits the rate for a
/// while; not where a quota is used up.
pub open spec fn is_transient(status: int, message: Seq<char>) -> bool {
    status == 503 || (status == 429 && !text::contains(
        chars::lowercase(message),
        "quota exceeded"@,
    ))
}

/// Whether a call that was answered with an error is worth making again.
pub fn should_retry_model_status(status: u16, err_msg: &str) -> (r: bool)
    ensures
        r == is_transient(status as int, err_msg@),
{
    if status == 503 {
        return true;
    }
    if status != 429 {
        return false;
    }
    let lowered = chars::to_lowercase(err_msg);
    !text::has(lowered.as_str(), "quota exceeded")
}

/// The number of digits and full stops that a text begins with.
pub open spec fn numeral_length(t: Seq<char>) -> int
    decreases t.len(),
{
    if t.len() > 0 && (chars::is_digit(t[0]) || t[0] == '.') {
        1 + numeral_length(t.skip(1))
    } else {
        0
    }
}

/// The delay in seconds that an error message asks for, as it is written there.
pub open spec fn delay_numeral(message: Seq<char>) -> Option<Seq<char>> {
    match text::split_once(chars::lowercase(message), "retry in "@) {
        Some((_, rest)) => Some(rest.take(numeral_length(rest))),
        None => None,
    }
}

/// The delay in seconds that an error message like `Please retry in 14.59s` asks for, as it is
/// written there.
pub fn retry_delay_text(err_msg: &str) -> (r: Option<String>)
    ensures
        r is Some <==> delay_numeral(err_msg@) is Some,
        r matches Some(t) ==> delay_numeral(err_msg@) == Some(t@),
{
    let lowered = chars::to_lowercase(err_msg);
    match text::cut_once(lowered.as_str(), "retry in ") {
        Some((_, rest)) => {
            let x = text::chars_of(rest.as_str());
            let mut k: usize = 0;
            assert(x@.skip(0) == x@);
            while k < x.len() && (chars::digit(x[k]) || x[k] == '.')
                invariant
                    k <= x@.len(),
                    numeral_length(x@) == k + numeral_length(x@.skip(k as int)),
                decreases x@.len() - k,
            {
                assert(x@.skip(k as int).skip(1) == x@.skip(k + 1));
                k += 1;
            }
            let t = text::text_between(&x, 0, k);
            assert(t@ == rest@.take(k as int));
            Some(t)
        },
        None => None,
    }
}

/// How long to wait before an attempt: as long as was asked for but no less than five seconds, or
/// else 30 seconds, doubled with each attempt.
pub open spec fn delay_before(attempt: int, hinted: Option<u64>) -> int {
    match hinted {
        Some(secs) => if secs >= 5 {
            secs as int
        } else {
            5
        },
        None => if attempt <= 1 {
            30
        } else if attempt == 2 {
            60
        } else {
            120
        },
    }
}

/// How long to wait before an attempt, in seconds.
pub fn retry_delay_secs(attempt: u32, hinted: Option<u64>) -> (r: u64)
    requires
        1 <= attempt <= MAX_RETRIES,
    ensures
        r == delay_before(attempt as int, hinted),
{
    match hinted {
        Some(secs) => if secs >= 5 {
            secs
        } else {
            5
        },
        None => if attempt == 1 {
            30
        } else if attempt == 2 {
            60
        } else {
            120
        },
    }
}

/// What became of an attempt: there was no reply, or none that could be read, or one with a status
/// and a JSON value.
#[derive(Debug)]
pub enum ModelReply {
    Unreachable { error: String },
    Unreadable { error: String },
    Answer { status: u16, json: Json },
}

/// What to do next: make another attempt, after the delay that the message names or the usual one;
/// give up; or take the text.
#[derive(Debug)]
pub enum ModelStep {
    Wait { attempt: u32, hint: Option<String> },
    Fail { error: String },
    Done { text: String },
}

pub enum ModelStepView {
    Wait { attempt: int, hint: Option<Seq<char>> },
    Fail { error: Seq<char> },
    Done { text: Seq<char> },
}

impl View for ModelStep {
    type V = ModelStepView;

    open spec fn view(&self) -> ModelStepView {
        match self {
            ModelStep::Wait { attempt, hint } => ModelStepView::Wait {
                attempt: *attempt as int,
                hint: text::opt_view(*hint),
            },
            ModelStep::Fail { error } => ModelStepView::Fail { error: error@ },
            ModelStep::Done { text } => ModelStepView::Done { text: text@ },
        }
    }
}

pub open spec fn unreachable_error(kind: ModelKind, error: Seq<char>) -> Seq<char> {
    match kind {
        ModelKind::Prose => "Google Generative Language request failed: "@ + error,
        ModelKind::Planning => "Google JSON planning request failed: "@ + error,
    }
}

pub open spec fn unreadable_error(kind: ModelKind, error: Seq<char>) -> Seq<char> {
    match kind {
        ModelKind::Prose => "Failed to parse model response: "@ + error,
        ModelKind::Planning => "Failed to parse JSON planning response: "@ + error,
    }
}

pub open spec fn status_error(kind: ModelKind, status: int, message: Seq<char>) -> Seq<char> {
    match kind {
        ModelKind::Prose => "Model API error ("@ + outside::status_line(status) + "): "@ + message,
        ModelKind::Planning => "Model JSON planning error ("@ + outside::status_line(status)
            + "): "@ + message,
    }
}

/// What follows a reply with success: its text, without fences where it is prose.
pub open spec fn answer_step(kind: ModelKind, reply: Json) -> ModelStepView {
    match reply_text(reply) {
        Some(t) => ModelStepView::Done {
            text: match kind {
                ModelKind::Prose => sections::without_fences(t),
                ModelKind::Planning => t,
            },
        },
        None => ModelStepView::Fail {
            error: match kind {
                ModelKind::Prose => "No text content in model response"@,
                ModelKind::Planning => "No JSON text content in planning response"@,
            },
        },
    }
}

/// What follows an attempt.
pub open spec fn step_after(kind: ModelKind, attempt: int, reply: ModelReply) -> ModelStepView {
    match reply {
        ModelReply::Unreachable { error } => if attempt < MAX_RETRIES {
            ModelStepView::Wait { attempt: attempt + 1, hint: None }
        } else {
            ModelStepView::Fail { error: unreachable_error(kind, error@) }
        },
        ModelReply::Unreadable { error } => ModelStepView::Fail {
            error: unreadable_error(kind, error@),
        },
        ModelReply::Answer { status, json } => if sources::is_success(status as int) {
            answer_step(kind, json)
        } else if is_transient(status as int, sources::error_message(json)) && attempt
            < MAX_RETRIES {
            ModelStepView::Wait {
                attempt: attempt + 1,
                hint: match kind {
                    ModelKind::Prose => delay_numeral(sources::error_message(json)),
                    ModelKind::Planning => None,
                },
            }
        } else {
            ModelStepView::Fail {
                error: status_error(kind, status as int, sources::error_message(json)),
            }
        },
    }
}

/// What to do after an attempt.
pub fn model_step(kind: ModelKind, attempt: u32, reply: &ModelReply) -> (r: ModelStep)
    requires
        attempt <= MAX_RETRIES,
        reply matches ModelReply::Answer { status, .. } ==> 100 <= *status <= 999,
    ensures
        r@ == step_after(kind, attempt as int, *reply),
{
    match reply {
        ModelReply::Unreachable { error } => {
            if attempt < MAX_RETRIES {
                return ModelStep::Wait { attempt: attempt + 1, hint: None };
            }
            let mut e = match kind {
                ModelKind::Prose => text::copy("Google Generative Language request failed: "),
                ModelKind::Planning => text::copy("Google JSON planning request failed: "),
            };
            e.append(error.as_str());
            ModelStep::Fail { error: e }
        },
        ModelReply::Unreadable { error } => {
            let mut e = match kind {
                ModelKind::Prose => text::copy("Failed to parse model response: "),
                ModelKind::Planning => text::copy("Failed to parse JSON planning response: "),
            };
            e.append(error.as_str());
            ModelStep::Fail { error: e }
        },
        ModelReply::Answer { status, json } => {
            if sources::succeeded(*status) {
                return match text_of_reply(json) {
                    Some(t) => ModelStep::Done {
                        text: match kind {
                            ModelKind::Prose => sections::strip_code_fences(t.as_str()),
                            ModelKind::Planning => t,
                        },
                    },
                    None => ModelStep::Fail {
                        error: match kind {
                            ModelKind::Prose => text::copy("No text content in model response"),
                            ModelKind::Planning => text::copy(
                                "No JSON text content in planning response",
                            ),
                        },
                    },
                };
            }
            let message = sources::message_of_error(json);
            if should_retry_model_status(*status, message.as_str()) && attempt < MAX_RETRIES {
                return ModelStep::Wait {
                    attempt: attempt + 1,
                    hint: match kind {
                        ModelKind::Prose => retry_delay_text(message.as_str()),
                        ModelKind::Planning => None,
                    },
                };
            }
            let mut e = match kind {
                ModelKind::Prose => text::copy("Model API error ("),
                ModelKind::Planning => text::copy("Model JSON planning error ("),
            };
            let line = outside::status_text(*status);
            e.append(line.as_str());
            e.append("): ");
            e.append(message.as_str());
            ModelStep::Fail { error: e }
        },
    }
}

/// A call is made again only after an attempt that failed for a while, and no more than three
/// times; before each attempt there are at least five seconds.
pub proof fn law_retries(kind: ModelKind, attempt: int, reply: ModelReply, hinted: Option<u64>)
    requires
        0 <= attempt <= MAX_RETRIES,
    ensures
        step_after(kind, attempt, reply) matches ModelStepView::Wait { attempt: next, .. } ==> next
            == attempt + 1 && next <= MAX_RETRIES && (reply is Unreachable || (
        reply matches ModelReply::Answer { status, .. } && (status == 429 || status == 503))),
        attempt == MAX_RETRIES ==> step_after(kind, attempt, reply) !is Wait,
        delay_before(attempt, hinted) >= 5,
{
}

/// A used-up quota ends the call with the first reply that reports it.
pub proof fn law_quota_ends_the_call(kind: ModelKind, attempt: int, json: Json)
    ensures
        text::contains(chars::lowercase(sources::error_message(json)), "quota exceeded"@)
            ==> step_after(kind, attempt, (ModelReply::Answer { status: 429, json })) == (
        ModelStepView::Fail { error: status_error(kind, 429, sources::error_message(json)) }),
{
}

} // verus!
