use research_bot::json::Json;
use research_bot::models::{PaystackData, PaystackWebhookPayload, ResearchTier, Timestamp};
use research_bot::pages::{qr_page, WAITING_PAGE};
use research_bot::requests::{
    artifact_base_name, bridge_document_body, bridge_message_body, callback_answer_body,
    confirmed_payment, document_body, edit_body, keyboard_body, message_body, next_offset,
    output_dir, payment_body, payment_link, sent_message_id, stamped_base_name, telegram_url,
    updates_body, updates_of, webhook_body, webhook_endpoint, webhook_result,
};

fn text(t: &str) -> Json {
    Json::Text(t.to_string())
}

fn object(entries: Vec<(&str, Json)>) -> Json {
    Json::Object(entries.into_iter().map(|(k, v)| (k.to_string(), v)).collect())
}

fn keys(value: &Json) -> Vec<&str> {
    match value {
        Json::Object(entries) => entries.iter().map(|(k, _)| k.as_str()).collect(),
        other => panic!("{other:?}"),
    }
}

#[test]
fn telegram_messages_are_formed() {
    assert_eq!(
        telegram_url("TOKEN", "sendMessage"),
        "https://api.telegram.org/botTOKEN/sendMessage"
    );
    let plain = message_body(-5, "hi", false);
    assert_eq!(keys(&plain), vec!["chat_id", "text"]);
    assert_eq!(plain.at("chat_id").as_integer(), Some(-5));
    let marked = message_body(5, "hi", true);
    assert_eq!(marked.at("parse_mode").text_or(""), "Markdown");
    let edit = edit_body(5, 9, "new");
    assert_eq!(keys(&edit), vec!["chat_id", "message_id", "text", "parse_mode"]);
    assert_eq!(edit.at("message_id").as_integer(), Some(9));
    let document = document_body(5, "https://x/y.pdf", "c");
    assert_eq!(document.at("document").text_or(""), "https://x/y.pdf");
    assert_eq!(keys(&callback_answer_body("q")), vec!["callback_query_id"]);
}

#[test]
fn keyboards_are_formed() {
    let buttons = vec![
        vec![("A".to_string(), "a".to_string()), ("B".to_string(), "b".to_string())],
        vec![("C".to_string(), "c".to_string())],
    ];
    let body = keyboard_body(1, "choose", &buttons);
    let rows = body.at("reply_markup").at("inline_keyboard").as_items().unwrap();
    assert_eq!(rows.len(), 2);
    let first = rows[0].as_items().unwrap();
    assert_eq!(first[1].at("text").text_or(""), "B");
    assert_eq!(first[1].at("callback_data").text_or(""), "b");
}

#[test]
fn updates_are_polled() {
    assert_eq!(keys(&updates_body(None)), vec!["timeout", "allowed_updates"]);
    let body = updates_body(Some(12));
    assert_eq!(body.at("offset").as_integer(), Some(12));
    assert_eq!(body.at("allowed_updates").as_items().unwrap().len(), 2);
    let update = object(vec![("update_id", Json::Integer(41))]);
    assert_eq!(next_offset(None, &update), Some(42));
    assert_eq!(next_offset(Some(7), &Json::Null), Some(7));
    let negative = object(vec![("update_id", Json::Integer(-1))]);
    assert_eq!(next_offset(Some(7), &negative), Some(7));
    let reply = object(vec![("result", Json::Array(vec![update]))]);
    assert_eq!(updates_of(&reply).unwrap().len(), 1);
    assert!(updates_of(&Json::Null).is_none());
}

#[test]
fn telegram_replies_are_read() {
    let sent = object(vec![("result", object(vec![("message_id", Json::Integer(3))]))]);
    assert_eq!(sent_message_id(&sent), 3);
    assert_eq!(sent_message_id(&Json::Null), 0);
    assert_eq!(webhook_endpoint("https://h"), "https://h/webhook/telegram");
    assert_eq!(keys(&webhook_body("u")), vec!["url", "allowed_updates"]);
    assert!(webhook_result(&object(vec![("ok", Json::Bool(true))])).is_ok());
    assert_eq!(
        webhook_result(&object(vec![("description", text("bad"))])).unwrap_err(),
        "Telegram setWebhook failed: bad"
    );
    assert_eq!(
        webhook_result(&object(vec![("ok", Json::Bool(false))])).unwrap_err(),
        "Telegram setWebhook failed: unknown error"
    );
}

#[test]
fn payments_are_asked_for_and_confirmed() {
    let body = payment_body("e", 150_000, "r", "080");
    assert_eq!(keys(&body), vec!["email", "amount", "reference", "currency", "metadata"]);
    let fields = body.at("metadata").at("custom_fields").as_items().unwrap();
    assert_eq!(fields[0].at("value").text_or(""), "080");
    let reply = object(vec![("data", object(vec![("authorization_url", text("u"))]))]);
    assert_eq!(payment_link(&reply).unwrap(), "u");
    assert_eq!(
        payment_link(&Json::Null).unwrap_err(),
        "Failed to get Paystack authorization URL"
    );
    let payload = |event: &str, amount, metadata| PaystackWebhookPayload {
        event: event.to_string(),
        data: PaystackData {
            _reference: None,
            amount,
            _currency: None,
            _status: None,
            _customer: None,
            metadata,
        },
    };
    let paid = confirmed_payment(&payload(
        "charge.success",
        Some(500_050),
        Some(object(vec![("phone", text("080"))])),
    ))
    .unwrap();
    assert_eq!((paid.naira, paid.tier, paid.phone.as_str()), (5_000, ResearchTier::Standard, "080"));
    let free = confirmed_payment(&payload("charge.success", None, None)).unwrap();
    assert_eq!((free.naira, free.tier, free.phone.as_str()), (0, ResearchTier::Preview, "unknown"));
    assert!(confirmed_payment(&payload("charge.failed", Some(1), None)).is_none());
}

#[test]
fn bridge_bodies_are_formed() {
    assert_eq!(keys(&bridge_message_body("t", "m")), vec!["to", "text"]);
    let body = bridge_document_body("t", "", "b64", "f.pdf", "c");
    assert_eq!(
        keys(&body),
        vec!["to", "text", "document_base64", "document_filename", "document_caption"]
    );
    assert_eq!(body.at("document_base64").text_or(""), "b64");
}

#[test]
fn report_files_share_a_name() {
    assert_eq!(output_dir(&None), "papers");
    assert_eq!(output_dir(&Some(String::new())), "");
    assert_eq!(stamped_base_name("S", "A  b!"), "S-a-b");
    let noon = Timestamp { secs: 1_767_268_800, nanos: 0 };
    assert_eq!(artifact_base_name(noon, "Größe & Co").unwrap(), "20260101T120000Z-gr-e-co");
    let moment = chrono::DateTime::<chrono::Utc>::from_timestamp(0, 0).unwrap();
    assert_eq!(
        artifact_base_name(Timestamp { secs: 0, nanos: 0 }, "x").unwrap(),
        format!("{}-x", moment.format("%Y%m%dT%H%M%SZ"))
    );
    assert_eq!(artifact_base_name(Timestamp { secs: i64::MIN, nanos: 0 }, "x"), None);
}

#[test]
fn codes_are_shown_on_a_page() {
    let page = qr_page(&Some(" 2@aZ/+é, \n".to_string()));
    assert!(page.starts_with("<!DOCTYPE html>\n<html><head>\n"));
    assert!(page.contains(
        "src=\"https://api.qrserver.com/v1/create-qr-code/?size=400x400&format=png&data=2%40aZ%2F%2B%E9%2C\" alt="
    ));
    assert!(page.contains("  * { box-sizing: border-box; margin: 0; padding: 0; }"));
    assert!(page.ends_with("</script>\n</body></html>"));
    assert_eq!(qr_page(&Some("  ".to_string())), WAITING_PAGE);
    assert_eq!(qr_page(&None), WAITING_PAGE);
    assert!(WAITING_PAGE.contains("body {{ background: #0a0a0a;"));
}
