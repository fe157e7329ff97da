//! Calls of models, the configuration, and the links of accounts.

use crate::chars;
use crate::config;
use crate::json::Json;
use crate::laws::finding;
use crate::laws::texts;
use crate::model_call;
use crate::model_call::{ModelKind, ModelReply, ModelStepView, RequestView};
use crate::numbers;
use crate::outside;
use crate::pages;
use crate::pieces;
use crate::sections;
use crate::sources;
use crate::text;
use crate::trim;
use vstd::prelude::*;

verus! {

// Calls

/// Whether a part of a reply says something: it holds a text, and is no thought.
pub open spec fn says_something(part: Json) -> bool {
    part.member("text"@).text() is Some && part.member("thought"@).truth() != Some(true)
}

/// The text of a reply is that of the first part of its first candidate that says something.
pub proof fn law_first_answer_is_taken(
    reply: Json,
    candidates: Seq<Json>,
    parts: Seq<Json>,
    k: int,
)
    requires
        reply.member("candidates"@).items() == Some(candidates),
        candidates.len() > 0,
        candidates[0].member("content"@).member("parts"@).items() == Some(parts),
        0 <= k <= parts.len(),
        forall|i: int| 0 <= i < k ==> !says_something(#[trigger] parts[i]),
    ensures
        k < parts.len() && says_something(parts[k]) ==> model_call::reply_text(reply)
            == parts[k].member("text"@).text(),
        k == parts.len() ==> model_call::reply_text(reply) is None,
{
    lemma_first_answer(parts, k);
}

proof fn lemma_first_answer(parts: Seq<Json>, k: int)
    requires
        0 <= k <= parts.len(),
        forall|i: int| 0 <= i < k ==> !says_something(#[trigger] parts[i]),
    ensures
        k < parts.len() && says_something(parts[k]) ==> model_call::first_part_text(parts)
            == parts[k].member("text"@).text(),
        k == parts.len() ==> model_call::first_part_text(parts) is None,
    decreases k,
{
    if k > 0 {
        let rest = parts.skip(1);
        assert(!says_something(parts[0]));
        assert forall|i: int| 0 <= i < k - 1 implies !says_something(#[trigger] rest[i]) by {
            assert(rest[i] == parts[i + 1]);
        }
        lemma_first_answer(rest, k - 1);
        if k < parts.len() {
            assert(rest[k - 1] == parts[k]);
        }
    }
}

/// A reply that reports success ends the call with its text, prose without fences around it, or with
/// an error where it has none.
pub proof fn law_answers_end_the_call(kind: ModelKind, attempt: int, status: u16, json: Json)
    requires
        200 <= status < 300,
    ensures
        ({
            let step = model_call::step_after(kind, attempt, ModelReply::Answer { status, json });
            match model_call::reply_text(json) {
                Some(t) => step == (ModelStepView::Done {
                    text: if kind is Planning {
                        t
                    } else {
                        sections::without_fences(t)
                    },
                }),
                None => step is Fail,
            }
        }),
{
}

/// A call that did not reach the model, or found it overloaded, is made again up to three times; any
/// other failure ends it, and the error tells the reason.
#[verifier::rlimit(40)]
pub proof fn law_failed_calls(kind: ModelKind, attempt: int, reply: ModelReply)
    requires
        0 <= attempt,
    ensures
        ({
            let step = model_call::step_after(kind, attempt, reply);
            match reply {
                ModelReply::Unreachable { error } => {
                    &&& attempt < 3 <==> step is Wait
                    &&& attempt >= 3 ==> (step matches ModelStepView::Fail { error: e }
                        && text::contains(e, error@))
                },
                ModelReply::Unreadable { error } => step matches ModelStepView::Fail { error: e }
                    && text::contains(e, error@),
                ModelReply::Answer { status, json } => {
                    let message = json.member("error"@).member("message"@).text();
                    let told = match message {
                        Some(m) => m,
                        None => "Unknown error"@,
                    };
                    let overloaded = status == 503 || (status == 429 && !text::contains(
                        chars::lowercase(told),
                        "quota exceeded"@,
                    ));
                    &&& 200 <= status < 300 ==> step !is Wait
                    &&& !(200 <= status < 300) ==> (step is Wait <==> overloaded && attempt < 3)
                    &&& !(200 <= status < 300) && !(overloaded && attempt < 3) ==> (
                    step matches ModelStepView::Fail { error: e } && text::contains(
                        e,
                        "): "@ + told,
                    ) && text::contains(e, outside::status_line(status as int)))
                },
            }
        }),
        model_call::step_after(kind, attempt, reply) matches ModelStepView::Wait {
            attempt: next,
            ..
        } ==> next == attempt + 1,
{
    match reply {
        ModelReply::Unreachable { error } => {
            finding::lemma_holds_itself(error@);
            finding::lemma_holds_back(
                "Google Generative Language request failed: "@,
                error@,
                error@,
            );
            finding::lemma_holds_back("Google JSON planning request failed: "@, error@, error@);
        },
        ModelReply::Unreadable { error } => {
            finding::lemma_holds_itself(error@);
            finding::lemma_holds_back("Failed to parse model response: "@, error@, error@);
            finding::lemma_holds_back("Failed to parse JSON planning response: "@, error@, error@);
        },
        ModelReply::Answer { status, json } => {
            let told = sources::error_message(json);
            let line = outside::status_line(status as int);
            lemma_status_error("Model API error ("@, line, told);
            lemma_status_error("Model JSON planning error ("@, line, told);
        },
    }
}

proof fn lemma_status_error(label: Seq<char>, line: Seq<char>, told: Seq<char>)
    ensures
        text::contains(label + line + "): "@ + told, "): "@ + told),
        text::contains(label + line + "): "@ + told, line),
{
    broadcast use finding::group_holds;

}

/// Before the next attempt there is the time that the model asked for, five seconds at least; where it
/// asked for none, half a minute, then one minute, then two.
pub proof fn law_delays(attempt: int, hint: u64)
    ensures
        hint >= 5 ==> model_call::delay_before(attempt, Some(hint)) == hint,
        hint < 5 ==> model_call::delay_before(attempt, Some(hint)) == 5,
        attempt == 1 ==> model_call::delay_before(attempt, None) == 30,
        attempt == 2 ==> model_call::delay_before(attempt, None) == 60,
        attempt == 3 ==> model_call::delay_before(attempt, None) == 120,
{
}

/// The time that a message asks for is the numeral behind the first `retry in `.
pub proof fn law_delays_are_read(message: Seq<char>, a: Seq<char>, numeral: Seq<char>, b: Seq<char>)
    requires
        chars::lowercase(message) == a + ("retry in "@ + (numeral + b)),
        forall|i: int| 0 <= i < a.len() ==> !text::occurs_at(
            chars::lowercase(message),
            "retry in "@,
            i,
        ),
        forall|i: int|
            0 <= i < numeral.len() ==> chars::is_digit(#[trigger] numeral[i]) || numeral[i] == '.',
        b.len() > 0 ==> !chars::is_digit(b[0]) && b[0] != '.',
    ensures
        model_call::delay_numeral(message) == Some(numeral),
{
    let s = chars::lowercase(message);
    let mark = "retry in "@;
    let rest = numeral + b;
    let k = a.len() as int;
    assert(s.subrange(k, k + mark.len()) =~= mark);
    assert(text::occurs_at(s, mark, k));
    text::lemma_find_from(s, mark, 0);
    match text::find(s, mark) {
        Some(i) => {
            assert(i == k);
            assert(s.skip(k + mark.len()) =~= rest);
        },
        None => {},
    }
    lemma_numeral(numeral, b);
    assert(rest.take(numeral.len() as int) =~= numeral);
}

proof fn lemma_numeral(n: Seq<char>, b: Seq<char>)
    requires
        forall|i: int| 0 <= i < n.len() ==> chars::is_digit(#[trigger] n[i]) || n[i] == '.',
        b.len() > 0 ==> !chars::is_digit(b[0]) && b[0] != '.',
    ensures
        model_call::numeral_length(n + b) == n.len(),
    decreases n.len(),
{
    if n.len() == 0 {
        assert(n + b =~= b);
    } else {
        assert((n + b)[0] == n[0]);
        assert((n + b).skip(1) =~= n.skip(1) + b);
        lemma_numeral(n.skip(1), b);
    }
}

/// Where a model is called is named by the model and the key; without a key there is no call.
pub proof fn law_call_targets(key: Seq<char>, model: Seq<char>)
    ensures
        key.len() == 0 <==> model_call::call_target(key, model) is Err,
        key.len() > 0 ==> (model_call::call_target(key, model) matches Ok(url) && text::contains(
            url,
            model,
        ) && text::contains(url, "?key="@ + key)),
{
    broadcast use finding::group_holds;

    reveal_strlit(":generateContent?key=");
    reveal_strlit(":generateContent");
    reveal_strlit("?key=");
    assert(":generateContent?key="@ =~= ":generateContent"@ + "?key="@);
    let front = "https://generativelanguage.googleapis.com/v1beta/models/"@ + model;
    assert(front + ":generateContent?key="@ + key =~= front + ":generateContent"@ + "?key="@ + key);
    assert(text::contains(front + ":generateContent"@ + "?key="@ + key, "?key="@ + key));
    assert(text::contains(front, model));
}

/// Who reads the body of a request by its members finds the prompt, the system prompt and the number
/// of tokens, and of a plan that JSON is asked for.
#[verifier::rlimit(40)]
pub proof fn law_bodies_hold_their_request(body: Json, r: RequestView)
    requires
        model_call::is_model_body(body, r),
    ensures
        ({
            let contents = body.member("contents"@).items();
            let said = contents->0[0].member("parts"@).items();
            let system = body.member("systemInstruction"@).member("parts"@).items();
            let settings = body.member("generationConfig"@);
            &&& contents is Some && contents->0.len() == 1
            &&& contents->0[0].member("role"@).text() == Some("user"@)
            &&& said is Some && said->0.len() == 1
            &&& said->0[0].member("text"@).text() == Some(r.prompt)
            &&& system is Some && system->0.len() == 1
            &&& system->0[0].member("text"@).text() == Some(r.system)
            &&& settings.member("maxOutputTokens"@).integer() == Some(r.max_output_tokens)
            &&& r.kind is Planning ==> settings.member("responseMimeType"@).text() == Some(
                "application/json"@,
            )
        }),
{
    reveal_strlit("contents");
    reveal_strlit("systemInstruction");
    reveal_strlit("generationConfig");
    reveal_strlit("role");
    reveal_strlit("parts");
    reveal_strlit("maxOutputTokens");
    reveal_strlit("responseMimeType");
    assert("contents"@.len() == 8 && "systemInstruction"@.len() == 17 && "generationConfig"@.len()
        == 16);
    assert("role"@.len() == 4 && "parts"@.len() == 5);
    assert("maxOutputTokens"@.len() == 15 && "responseMimeType"@.len() == 16);
    lemma_member(body, 0);
    lemma_member(body, 1);
    lemma_member(body, 2);
    let content = body.value_at(0).items()->0[0];
    lemma_member(content, 0);
    lemma_member(content, 1);
    let said = content.value_at(1).items()->0[0];
    lemma_member(said, 0);
    let instruction = body.value_at(1);
    lemma_member(instruction, 0);
    let system = instruction.value_at(0).items()->0[0];
    lemma_member(system, 0);
    let settings = body.value_at(2);
    lemma_member(settings, 0);
    if r.kind is Planning {
        lemma_member(settings, 1);
    }
}

/// The member of an object with the name at a place is the value at that place, where no name before
/// it is the same.
proof fn lemma_member(value: Json, i: int)
    requires
        0 <= i < value.size() <= 3,
        i > 0 ==> value.key_at(0) != value.key_at(i),
        i > 1 ==> value.key_at(1) != value.key_at(i),
    ensures
        value.member(value.key_at(i)) == value.value_at(i),
{
    let entries = value->Object_0@;
    let key = value.key_at(i);
    reveal_with_fuel(crate::json::entry, 4);
    if i > 0 {
        assert(entries.skip(1)[i - 1] == entries[i]);
        assert(entries.skip(1)[0] == entries[1]);
    }
    if i > 1 {
        assert(entries.skip(1).skip(1)[i - 2] == entries[i]);
        assert(entries.skip(1).skip(1)[0] == entries[2]);
    }
}

// The configuration

/// Whether a variable is set to a value: it is the first one with the name.
pub open spec fn is_set(vars: Seq<(String, String)>, name: Seq<char>, value: Seq<char>) -> bool {
    exists|k: int| #[trigger] is_set_at(vars, name, value, k)
}

pub open spec fn is_set_at(
    vars: Seq<(String, String)>,
    name: Seq<char>,
    value: Seq<char>,
    k: int,
) -> bool {
    &&& 0 <= k < vars.len()
    &&& vars[k].0@ == name
    &&& vars[k].1@ == value
    &&& forall|j: int| 0 <= j < k ==> (#[trigger] vars[j]).0@ != name
}

/// Whether no variable has a name.
pub open spec fn is_unset(vars: Seq<(String, String)>, name: Seq<char>) -> bool {
    forall|j: int| 0 <= j < vars.len() ==> (#[trigger] vars[j]).0@ != name
}

proof fn lemma_variable(vars: Seq<(String, String)>, name: Seq<char>, value: Seq<char>)
    ensures
        is_set(vars, name, value) ==> config::variable(vars, name) == Some(value),
        is_unset(vars, name) ==> config::variable(vars, name) is None,
    decreases vars.len(),
{
    if vars.len() > 0 {
        let rest = vars.skip(1);
        lemma_variable(rest, name, value);
        if is_set(vars, name, value) {
            let k = choose|k: int| #[trigger] is_set_at(vars, name, value, k);
            if k > 0 {
                assert(vars[0].0@ != name);
                assert(rest[k - 1] == vars[k]);
                assert forall|j: int| 0 <= j < k - 1 implies (#[trigger] rest[j]).0@ != name by {
                    assert(rest[j] == vars[j + 1]);
                }
                assert(is_set_at(rest, name, value, k - 1));
            }
        }
        if is_unset(vars, name) {
            assert(vars[0].0@ != name);
            assert forall|j: int| 0 <= j < rest.len() implies (#[trigger] rest[j]).0@ != name by {
                assert(rest[j] == vars[j + 1]);
            }
        }
    }
}

/// What a variable is set to is taken over.
pub proof fn law_set_variables_are_taken(vars: Seq<(String, String)>, value: Seq<char>)
    ensures
        ({
            let c = config::configured(vars);
            &&& is_set(vars, "AI_MODEL"@, value) ==> c.ai_model == value
            &&& is_set(vars, "GOOGLE_API_KEY"@, value) ==> c.google_api_key == value
            &&& is_set(vars, "YOUTUBE_API_KEY"@, value) ==> c.youtube_api_key == value
            &&& is_set(vars, "TAVILY_API_KEY"@, value) ==> c.tavily_api_key == value
            &&& is_set(vars, "TELEGRAM_BOT_TOKEN"@, value) ==> c.telegram_bot_token == value
            &&& is_set(vars, "PAYSTACK_SECRET_KEY"@, value) ==> c.paystack_secret_key == value
            &&& is_set(vars, "SUPABASE_URL"@, value) ==> c.supabase_url == value
            &&& is_set(vars, "SUPABASE_KEY"@, value) ==> c.supabase_key == value
            &&& is_set(vars, "WEBHOOK_URL"@, value) && value.len() > 0 ==> c.webhook_url == Some(
                value,
            )
            &&& is_set(vars, "FEEDBACK_DIR"@, value) ==> c.feedback_dir == value
            &&& is_set(vars, "ADMIN_API_KEY"@, value) ==> c.admin_api_key == value
            &&& is_set(vars, "BRIDGE_SECRET"@, value) ==> c.bridge_secret == value
            &&& is_set(vars, "TESTING_MODE"@, value) ==> (c.testing_mode <==> value != "false"@
                && value != "0"@)
        }),
{
    lemma_variable(vars, "AI_MODEL"@, value);
    lemma_variable(vars, "GOOGLE_API_KEY"@, value);
    lemma_variable(vars, "YOUTUBE_API_KEY"@, value);
    lemma_variable(vars, "TAVILY_API_KEY"@, value);
    lemma_variable(vars, "TELEGRAM_BOT_TOKEN"@, value);
    lemma_variable(vars, "PAYSTACK_SECRET_KEY"@, value);
    lemma_variable(vars, "SUPABASE_URL"@, value);
    lemma_variable(vars, "SUPABASE_KEY"@, value);
    lemma_variable(vars, "WEBHOOK_URL"@, value);
    lemma_variable(vars, "FEEDBACK_DIR"@, value);
    lemma_variable(vars, "ADMIN_API_KEY"@, value);
    lemma_variable(vars, "BRIDGE_SECRET"@, value);
    lemma_variable(vars, "TESTING_MODE"@, value);
}

/// Numbers are taken over where they fit, and the listed users are let in, those that are written as
/// numbers.
pub proof fn law_set_numbers_are_taken(
    vars: Seq<(String, String)>,
    n: nat,
    items: Seq<Seq<char>>,
    item: Seq<char>,
)
    ensures
        ({
            let c = config::configured(vars);
            let value = numbers::decimal(n);
            &&& is_set(vars, "PORT"@, value) && n <= 65535 ==> c.port == n
            &&& is_set(vars, "PORT"@, value) && n > 65535 ==> c.port == 3000
            &&& is_set(vars, "MAX_REQUESTS_PER_HOUR"@, value) && n <= usize::MAX
                ==> c.max_requests_per_hour == n
            &&& trim::trim(item) == value && n <= i64::MAX ==> config::users(items.push(item))
                == config::users(items).push(n as i64)
            &&& trim::trim(item).len() == 0 ==> config::users(items.push(item)) == config::users(
                items,
            )
        }),
        forall|v: Seq<char>| #[trigger]
            is_set(vars, "ALLOWED_USERS"@, v) && v.len() > 0 ==> config::configured(
                vars,
            ).allowed_users == Some(config::users(pieces::split(v, ','))),
{
    let value = numbers::decimal(n);
    texts::law_numbers_read_back(n);
    lemma_variable(vars, "PORT"@, value);
    lemma_variable(vars, "MAX_REQUESTS_PER_HOUR"@, value);
    assert(items.push(item).drop_last() =~= items);
    assert(chars::is_digit(value[0]));
    assert(value[0] != '-' && value[0] != '+');
    assert forall|v: Seq<char>| #[trigger]
        is_set(vars, "ALLOWED_USERS"@, v) && v.len() > 0 implies config::configured(
        vars,
    ).allowed_users == Some(config::users(pieces::split(v, ','))) by {
        lemma_variable(vars, "ALLOWED_USERS"@, v);
    }
}

/// Where nothing is set the assistant runs as in a test, on port 3000, for everyone, with three
/// requests an hour.
pub proof fn law_defaults(vars: Seq<(String, String)>)
    requires
        vars.len() == 0,
    ensures
        ({
            let c = config::configured(vars);
            &&& c.testing_mode
            &&& c.port == 3000
            &&& c.max_requests_per_hour == 3
            &&& c.allowed_users is None
            &&& c.webhook_url is None
            &&& c.ai_model == "gemma-4-31b-it"@
            &&& c.feedback_dir == "./feedback"@
        }),
{
}

// Links of accounts

/// The page on which an account is linked holds the code where there is one, character by character:
/// letters and digits as they are, others by their number.
pub proof fn law_links_hold_the_code(code: Seq<char>, c: char)
    ensures
        trim::trim(code).len() > 0 ==> text::contains(
            pages::page(Some(code)),
            "&format=png&data="@ + pages::encoded(trim::trim(code)),
        ),
        trim::trim(code).len() == 0 ==> pages::page(Some(code)) == pages::page(None),
        pages::encoded(code.push(c)) == pages::encoded(code) + pages::encoded(seq![c]),
        chars::is_ascii_alphanumeric(c) ==> pages::encoded(seq![c]) == seq![c],
        pages::encoded(Seq::empty()) == Seq::<char>::empty(),
        c == ' ' ==> pages::encoded(seq![c]) == seq!['%', '2', '0'],
{
    broadcast use finding::group_holds;

    let address = "https://api.qrserver.com/v1/create-qr-code/?size=400x400&format=png&data="@;
    reveal_strlit(
        "https://api.qrserver.com/v1/create-qr-code/?size=400x400&format=png&data=",
    );
    reveal_strlit("https://api.qrserver.com/v1/create-qr-code/?size=400x400");
    reveal_strlit("&format=png&data=");
    let front = "https://api.qrserver.com/v1/create-qr-code/?size=400x400"@;
    assert(address =~= front + "&format=png&data="@);
    let data = pages::encoded(trim::trim(code));
    assert(pages::QR_PAGE_HEAD@ + address + data =~= pages::QR_PAGE_HEAD@ + front
        + "&format=png&data="@ + data);
    assert(code.push(c).drop_last() =~= code);
    assert(seq![c].drop_last() =~= Seq::<char>::empty());
    assert(pages::encoded(Seq::<char>::empty()) =~= Seq::<char>::empty());
    assert(pages::encoded(seq![c]) =~= pages::encoded_char(c));
}

} // verus!
