//! Requests to the services around the assistant, and the replies to them: Telegram, payments and
//! the bridge.

use crate::calendar;
use crate::excerpt;
use crate::json;
use crate::json::Json;
use crate::models::{
    ArtifactsView, PaystackWebhookPayload, ReportView, ResearchArtifacts, ResearchReport,
    ResearchTier, Timestamp,
};
use crate::outside;
use crate::text;
use vstd::prelude::*;

verus! {

// Telegram

/// Where a method of the Telegram bot is called.
pub fn telegram_url(token: &str, method: &str) -> (r: String)
    ensures
        r@ == "https://api.telegram.org/bot"@ + token@ + "/"@ + method@,
{
    let mut r = text::copy("https://api.telegram.org/bot");
    r.append(token);
    r.append("/");
    r.append(method);
    r
}

/// A message, in Markdown or plain.
pub fn message_body(chat_id: i64, message: &str, markdown: bool) -> (r: Json)
    ensures
        r.size() == if markdown {
            3int
        } else {
            2int
        },
        r.key_at(0) == "chat_id"@,
        r.value_at(0).integer() == Some(chat_id as int),
        r.key_at(1) == "text"@,
        r.value_at(1).text() == Some(message@),
        markdown ==> r.key_at(2) == "parse_mode"@ && r.value_at(2).text() == Some("Markdown"@),
{
    let mut entries = vec![
        json::pair("chat_id", Json::Integer(chat_id as i128)),
        json::pair("text", json::string(message)),
    ];
    if markdown {
        entries.push(json::pair("parse_mode", json::string("Markdown")));
    }
    Json::Object(entries)
}

/// A new text for a message.
pub fn edit_body(chat_id: i64, message_id: i64, message: &str) -> (r: Json)
    ensures
        r.size() == 4,
        r.key_at(0) == "chat_id"@,
        r.value_at(0).integer() == Some(chat_id as int),
        r.key_at(1) == "message_id"@,
        r.value_at(1).integer() == Some(message_id as int),
        r.key_at(2) == "text"@,
        r.value_at(2).text() == Some(message@),
        r.key_at(3) == "parse_mode"@,
        r.value_at(3).text() == Some("Markdown"@),
{
    Json::Object(
        vec![
            json::pair("chat_id", Json::Integer(chat_id as i128)),
            json::pair("message_id", Json::Integer(message_id as i128)),
            json::pair("text", json::string(message)),
            json::pair("parse_mode", json::string("Markdown")),
        ],
    )
}

/// A document that Telegram fetches itself.
pub fn document_body(chat_id: i64, document_url: &str, caption: &str) -> (r: Json)
    ensures
        r.size() == 4,
        r.key_at(0) == "chat_id"@,
        r.value_at(0).integer() == Some(chat_id as int),
        r.key_at(1) == "document"@,
        r.value_at(1).text() == Some(document_url@),
        r.key_at(2) == "caption"@,
        r.value_at(2).text() == Some(caption@),
        r.key_at(3) == "parse_mode"@,
        r.value_at(3).text() == Some("Markdown"@),
{
    Json::Object(
        vec![
            json::pair("chat_id", Json::Integer(chat_id as i128)),
            json::pair("document", json::string(document_url)),
            json::pair("caption", json::string(caption)),
            json::pair("parse_mode", json::string("Markdown")),
        ],
    )
}

/// A button with what it sends.
pub open spec fn is_button(value: Json, button: (String, String)) -> bool {
    &&& value.size() == 2
    &&& value.key_at(0) == "text"@
    &&& value.value_at(0).text() == Some(button.0@)
    &&& value.key_at(1) == "callback_data"@
    &&& value.value_at(1).text() == Some(button.1@)
}

/// A row of buttons.
pub open spec fn is_row(value: Json, row: Seq<(String, String)>) -> bool {
    value.items() matches Some(items) && items.len() == row.len() && forall|i: int|
        0 <= i < row.len() ==> is_button(#[trigger] items[i], row[i])
}

/// Rows of buttons.
pub open spec fn is_keyboard(value: Json, rows: Seq<Vec<(String, String)>>) -> bool {
    value.items() matches Some(items) && items.len() == rows.len() && forall|i: int|
        0 <= i < rows.len() ==> is_row(#[trigger] items[i], rows[i]@)
}

fn keyboard_row(row: &Vec<(String, String)>) -> (r: Json)
    ensures
        is_row(r, row@),
{
    let mut items: Vec<Json> = Vec::new();
    let mut i: usize = 0;
    while i < row.len()
        invariant
            i <= row@.len(),
            items@.len() == i,
            forall|j: int| 0 <= j < i ==> is_button(#[trigger] items@[j], row@[j]),
        decreases row@.len() - i,
    {
        let button = Json::Object(
            vec![
                json::pair("text", json::string(row[i].0.as_str())),
                json::pair("callback_data", json::string(row[i].1.as_str())),
            ],
        );
        items.push(button);
        i += 1;
    }
    Json::Array(items)
}

/// A message with buttons.
pub fn keyboard_body(chat_id: i64, message: &str, buttons: &Vec<Vec<(String, String)>>) -> (r: Json)
    ensures
        r.size() == 4,
        r.key_at(0) == "chat_id"@,
        r.value_at(0).integer() == Some(chat_id as int),
        r.key_at(1) == "text"@,
        r.value_at(1).text() == Some(message@),
        r.key_at(2) == "parse_mode"@,
        r.value_at(2).text() == Some("Markdown"@),
        r.key_at(3) == "reply_markup"@,
        r.value_at(3).size() == 1,
        r.value_at(3).key_at(0) == "inline_keyboard"@,
        is_keyboard(r.value_at(3).value_at(0), buttons@),
{
    let mut rows: Vec<Json> = Vec::new();
    let mut i: usize = 0;
    while i < buttons.len()
        invariant
            i <= buttons@.len(),
            rows@.len() == i,
            forall|j: int| 0 <= j < i ==> is_row(#[trigger] rows@[j], buttons@[j]@),
        decreases buttons@.len() - i,
    {
        rows.push(keyboard_row(&buttons[i]));
        i += 1;
    }
    let keyboard = Json::Array(rows);
    assert(is_keyboard(keyboard, buttons@));
    Json::Object(
        vec![
            json::pair("chat_id", Json::Integer(chat_id as i128)),
            json::pair("text", json::string(message)),
            json::pair("parse_mode", json::string("Markdown")),
            json::pair(
                "reply_markup",
                Json::Object(vec![json::pair("inline_keyboard", keyboard)]),
            ),
        ],
    )
}

/// That a pressed button was noticed.
pub fn callback_answer_body(callback_query_id: &str) -> (r: Json)
    ensures
        r.size() == 1,
        r.key_at(0) == "callback_query_id"@,
        r.value_at(0).text() == Some(callback_query_id@),
{
    Json::Object(vec![json::pair("callback_query_id", json::string(callback_query_id))])
}

/// The kinds of updates that are asked for.
pub open spec fn are_update_kinds(value: Json) -> bool {
    value.items() matches Some(items) && items.len() == 2 && items[0].text() == Some("message"@)
        && items[1].text() == Some("callback_query"@)
}

fn update_kinds() -> (r: Json)
    ensures
        are_update_kinds(r),
{
    Json::Array(vec![json::string("message"), json::string("callback_query")])
}

/// The question for new updates, from an offset on.
pub fn updates_body(offset: Option<u64>) -> (r: Json)
    ensures
        r.size() == if offset is Some {
            3int
        } else {
            2int
        },
        r.key_at(0) == "timeout"@,
        r.value_at(0).integer() == Some(30int),
        r.key_at(1) == "allowed_updates"@,
        are_update_kinds(r.value_at(1)),
        offset matches Some(n) ==> r.key_at(2) == "offset"@ && r.value_at(2) == Json::Integer(
            n as i128,
        ),
{
    let mut entries = vec![
        json::pair("timeout", Json::Integer(30)),
        json::pair("allowed_updates", update_kinds()),
    ];
    match offset {
        Some(n) => {
            entries.push(json::pair("offset", Json::Integer(n as i128)));
        },
        None => {},
    }
    Json::Object(entries)
}

/// The number of an update, where it has one.
pub open spec fn update_number(update: Json) -> Option<int> {
    match update.member("update_id"@) {
        Json::Integer(n) => if 0 <= n <= u64::MAX {
            Some(n as int)
        } else {
            None
        },
        _ => None,
    }
}

/// The offset after an update: behind its number, where it has one.
pub fn next_offset(offset: Option<u64>, update: &Json) -> (r: Option<u64>)
    requires
        update_number(*update) != Some(u64::MAX as int),
    ensures
        match update_number(*update) {
            Some(n) => r is Some && r->0 == n + 1,
            None => r == offset,
        },
{
    match update.at("update_id") {
        Json::Integer(n) => if 0 <= *n && *n <= u64::MAX as i128 {
            Some((*n as u64) + 1)
        } else {
            offset
        },
        _ => offset,
    }
}

/// The updates in a reply; none where it holds none.
pub fn updates_of(reply: &Json) -> (r: Option<&Vec<Json>>)
    ensures
        r is Some <==> reply.member("result"@).items() is Some,
        r matches Some(v) ==> reply.member("result"@).items() == Some(v@),
{
    reply.at("result").as_items()
}

/// The number of the message that was sent, nought where the reply names none.
pub fn sent_message_id(reply: &Json) -> (r: i64)
    ensures
        match reply.member("result"@).member("message_id"@).integer() {
            Some(n) => r == n,
            None => r == 0,
        },
{
    match reply.at("result").at("message_id").as_integer() {
        Some(n) => n,
        None => 0,
    }
}

/// Where Telegram sends updates.
pub fn webhook_body(webhook_url: &str) -> (r: Json)
    ensures
        r.size() == 2,
        r.key_at(0) == "url"@,
        r.value_at(0).text() == Some(webhook_url@),
        r.key_at(1) == "allowed_updates"@,
        are_update_kinds(r.value_at(1)),
{
    Json::Object(
        vec![
            json::pair("url", json::string(webhook_url)),
            json::pair("allowed_updates", update_kinds()),
        ],
    )
}

/// The address to which Telegram sends updates.
pub fn webhook_endpoint(url: &str) -> (r: String)
    ensures
        r@ == url@ + "/webhook/telegram"@,
{
    let mut r = text::copy(url);
    r.append("/webhook/telegram");
    r
}

/// Whether Telegram accepted the address, or why not.
pub fn webhook_result(reply: &Json) -> (r: Result<(), String>)
    ensures
        r is Ok <==> reply.member("ok"@).truth() == Some(true),
        r matches Err(e) ==> e@ == "Telegram setWebhook failed: "@ + json::or(
            reply.member("description"@).text(),
            "unknown error"@,
        ),
{
    match reply.at("ok").as_truth() {
        Some(true) => Ok(()),
        _ => {
            let mut e = text::copy("Telegram setWebhook failed: ");
            let description = reply.at("description").text_or("unknown error");
            e.append(description.as_str());
            Err(e)
        },
    }
}

// Payments

/// A payment that is asked for.
pub fn payment_body(email: &str, amount_kobo: u64, reference: &str, phone: &str) -> (r: Json)
    ensures
        r.size() == 5,
        r.key_at(0) == "email"@,
        r.value_at(0).text() == Some(email@),
        r.key_at(1) == "amount"@,
        r.value_at(1) == Json::Integer(amount_kobo as i128),
        r.key_at(2) == "reference"@,
        r.value_at(2).text() == Some(reference@),
        r.key_at(3) == "currency"@,
        r.value_at(3).text() == Some("NGN"@),
        r.key_at(4) == "metadata"@,
        ({
            let metadata = r.value_at(4);
            &&& metadata.size() == 2
            &&& metadata.key_at(0) == "phone"@
            &&& metadata.value_at(0).text() == Some(phone@)
            &&& metadata.key_at(1) == "custom_fields"@
            &&& metadata.value_at(1).items() matches Some(fields) && fields.len() == 1
                && fields[0].size() == 3 && fields[0].key_at(0) == "display_name"@
                && fields[0].value_at(0).text() == Some("Phone Number"@) && fields[0].key_at(1)
                == "variable_name"@ && fields[0].value_at(1).text() == Some("phone"@)
                && fields[0].key_at(2) == "value"@ && fields[0].value_at(2).text() == Some(phone@)
        }),
{
    let field = Json::Object(
        vec![
            json::pair("display_name", json::string("Phone Number")),
            json::pair("variable_name", json::string("phone")),
            json::pair("value", json::string(phone)),
        ],
    );
    let metadata = Json::Object(
        vec![
            json::pair("phone", json::string(phone)),
            json::pair("custom_fields", Json::Array(vec![field])),
        ],
    );
    Json::Object(
        vec![
            json::pair("email", json::string(email)),
            json::pair("amount", Json::Integer(amount_kobo as i128)),
            json::pair("reference", json::string(reference)),
            json::pair("currency", json::string("NGN")),
            json::pair("metadata", metadata),
        ],
    )
}

/// Where a payment is made, or that the reply does not say.
pub fn payment_link(reply: &Json) -> (r: Result<String, String>)
    ensures
        match reply.member("data"@).member("authorization_url"@).text() {
            Some(url) => r matches Ok(u) && u@ == url,
            None => r matches Err(e) && e@ == "Failed to get Paystack authorization URL"@,
        },
{
    match reply.at("data").at("authorization_url").as_text() {
        Some(url) => Ok(text::copy(url.as_str())),
        None => Err(text::copy("Failed to get Paystack authorization URL")),
    }
}

/// A payment that was made.
#[derive(Debug)]
pub struct Payment {
    pub naira: u64,
    pub tier: ResearchTier,
    pub phone: String,
}

/// The payment that an event reports, where it reports one: the tier that the amount buys, and who
/// paid.
pub fn confirmed_payment(payload: &PaystackWebhookPayload) -> (r: Option<Payment>)
    ensures
        r is Some <==> payload.event@ == "charge.success"@,
        r matches Some(p) ==> {
            let amount: u64 = match payload.data.amount {
                Some(a) => a,
                None => 0,
            };
            let phone = match payload.data.metadata {
                Some(m) => json::or(m.member("phone"@).text(), "unknown"@),
                None => "unknown"@,
            };
            p.naira == amount / 100 && p.tier == ResearchTier::bought_with(amount as int)
                && p.phone@ == phone
        },
{
    if !text::same(payload.event.as_str(), "charge.success") {
        return None;
    }
    let amount: u64 = match payload.data.amount {
        Some(a) => a,
        None => 0,
    };
    let phone = match &payload.data.metadata {
        Some(m) => m.at("phone").text_or("unknown"),
        None => text::copy("unknown"),
    };
    Some(Payment { naira: amount / 100, tier: ResearchTier::from_amount_kobo(amount), phone })
}

// The bridge

/// A message for the bridge.
pub fn bridge_message_body(to: &str, message: &str) -> (r: Json)
    ensures
        r.size() == 2,
        r.key_at(0) == "to"@,
        r.value_at(0).text() == Some(to@),
        r.key_at(1) == "text"@,
        r.value_at(1).text() == Some(message@),
{
    Json::Object(
        vec![json::pair("to", json::string(to)), json::pair("text", json::string(message))],
    )
}

/// A document for the bridge.
pub fn bridge_document_body(
    to: &str,
    message: &str,
    base64: &str,
    file_name: &str,
    caption: &str,
) -> (r: Json)
    ensures
        r.size() == 5,
        r.key_at(0) == "to"@,
        r.value_at(0).text() == Some(to@),
        r.key_at(1) == "text"@,
        r.value_at(1).text() == Some(message@),
        r.key_at(2) == "document_base64"@,
        r.value_at(2).text() == Some(base64@),
        r.key_at(3) == "document_filename"@,
        r.value_at(3).text() == Some(file_name@),
        r.key_at(4) == "document_caption"@,
        r.value_at(4).text() == Some(caption@),
{
    Json::Object(
        vec![
            json::pair("to", json::string(to)),
            json::pair("text", json::string(message)),
            json::pair("document_base64", json::string(base64)),
            json::pair("document_filename", json::string(file_name)),
            json::pair("document_caption", json::string(caption)),
        ],
    )
}

// Files of a report

/// The directory of the reports.
pub fn output_dir(configured: &Option<String>) -> (r: String)
    ensures
        r@ == json::or(text::opt_view(*configured), "papers"@),
{
    match configured {
        Some(dir) => text::copy(dir.as_str()),
        None => text::copy("papers"),
    }
}

/// The name that the files of a report share: its time and its title; none where the time is out of
/// range.
pub open spec fn base_name(time: Timestamp, title: Seq<char>) -> Option<Seq<char>> {
    match outside::compact_time(time.secs as int, time.nanos as int) {
        Some(stamp) => Some(stamp + "-"@ + excerpt::slug(title)),
        None => None,
    }
}

/// The name that the files of a report share, given its time as it is written.
pub fn stamped_base_name(stamp: &str, title: &str) -> (r: String)
    ensures
        r@ == stamp@ + "-"@ + excerpt::slug(title@),
{
    let mut r = text::copy(stamp);
    r.append("-");
    let slug = excerpt::slugify(title);
    r.append(slug.as_str());
    r
}

/// The name that the files of a report share.
pub fn artifact_base_name(time: Timestamp, title: &str) -> (r: Option<String>)
    ensures
        r is Some <==> base_name(time, title@) is Some,
        r matches Some(s) ==> base_name(time, title@) == Some(s@),
        calendar::is_common(time) ==> (r matches Some(s) && exists|stamp: Seq<char>|
            #[trigger] calendar::is_stamp(stamp, time.secs as int) && s@ == stamp + "-"@
                + excerpt::slug(title@)),
{
    match outside::compact_stamp(time) {
        Some(stamp) => Some(stamped_base_name(stamp.as_str(), title)),
        None => None,
    }
}

/// The path of a file in a directory.
pub open spec fn path_in(dir: Seq<char>, name: Seq<char>) -> Seq<char> {
    if dir.len() == 0 || dir.last() == '/' {
        dir + name
    } else {
        dir + "/"@ + name
    }
}

/// The path of a file of a report, given the name that its files share.
pub fn artifact_path(dir: &str, base: &str, extension: &str) -> (r: String)
    ensures
        r@ == path_in(dir@, base@ + extension@),
{
    let x = text::chars_of(dir);
    let mut r = text::copy(dir);
    if x.len() > 0 && x[x.len() - 1] != '/' {
        r.append("/");
    }
    r.append(base);
    r.append(extension);
    assert(r@ =~= path_in(dir@, base@ + extension@));
    r
}

/// Where the files of a report are: its text, its data and its PDF.
pub open spec fn artifacts_in(dir: Seq<char>, base: Seq<char>) -> ArtifactsView {
    ArtifactsView {
        markdown_path: Some(path_in(dir, base + ".md"@)),
        json_path: Some(path_in(dir, base + ".json"@)),
        pdf_path: Some(path_in(dir, base + ".pdf"@)),
    }
}

/// Notes in a report where its files are.
pub fn note_artifacts(report: &mut ResearchReport, dir: &str, base: &str)
    ensures
        final(report)@ == (ReportView {
            artifacts: Some(artifacts_in(dir@, base@)),
            ..old(report)@
        }),
{
    report.artifacts = Some(
        ResearchArtifacts {
            markdown_path: Some(artifact_path(dir, base, ".md")),
            json_path: Some(artifact_path(dir, base, ".json")),
            pdf_path: Some(artifact_path(dir, base, ".pdf")),
        },
    );
}

} // verus!
