use mail_relay::json::JsonValue;
use mail_relay::legacy::email::{AddressFieldLegacy, EmailRequestLegacy, EmailTemplateTypeLegacy};

fn convert(value: &serde_json::Value) -> JsonValue {
    match value {
        serde_json::Value::Null => JsonValue::Null,
        serde_json::Value::Bool(b) => JsonValue::Bool(*b),
        serde_json::Value::Number(n) => JsonValue::Number(n.to_string()),
        serde_json::Value::String(s) => JsonValue::Text(s.clone()),
        serde_json::Value::Array(items) => JsonValue::List(items.iter().map(convert).collect()),
        serde_json::Value::Object(members) => JsonValue::Object(
            members
                .iter()
                .map(|(key, member)| (key.clone(), convert(member)))
                .collect(),
        ),
    }
}

fn request(json: &str) -> EmailRequestLegacy {
    let value: serde_json::Value = serde_json::from_str(json).unwrap();
    EmailRequestLegacy::from_json(&convert(&value)).unwrap()
}

#[test]
fn with_html() {
    let json = r#"{
            "key": "mykey123",
            "from": "sender@datasektionen.se",
            "subject": "Hello World",
            "html": "<p>Test email</p>"
        }"#;
    let req = request(json);
    assert_eq!(req.key, "mykey123");
    assert_eq!(req.subject, "Hello World");
    assert_eq!(req.html.unwrap(), "<p>Test email</p>");
    assert_eq!(req.template, EmailTemplateTypeLegacy::Default);
}

#[test]
fn with_content() {
    let json = r#"{
            "key": "mykey123",
            "from": "sender@datasektionen.se",
            "subject": "Hello World",
            "content": "This is plain text"
        }"#;
    let req = request(json);
    assert_eq!(req.content.unwrap(), "This is plain text");
    assert!(req.html.is_none());
}

#[test]
fn valid_sender() {
    let json = r#"{
            "key": "mykey123",
            "from": {"name": "John Doe", "address": "john@datasektionen.se"},
            "subject": "Hello",
            "html": "<p>Test</p>"
        }"#;
    let req = request(json);
    match &req.from {
        AddressFieldLegacy::NameAndAddress(na) => {
            assert_eq!(na.name, "John Doe");
            assert_eq!(na.address, "john@datasektionen.se");
        }
        _ => panic!("Expected NameAndAddress"),
    }
}

#[test]
fn valid_recipient() {
    let json = r#"{
            "key": "mykey123",
            "from": "sender@datasektionen.se",
            "to": "recipient@datasektionen.se",
            "subject": "Hello",
            "html": "<p>Test</p>"
        }"#;
    let req = request(json);
    assert!(req.to.is_some());
}

#[test]
fn valid_recipients() {
    let json = r#"{
            "key": "mykey123",
            "from": "sender@datasektionen.se",
            "to": ["recipient1@datasektionen.se", "recipient2@datasektionen.se"],
            "subject": "Hello",
            "html": "<p>Test</p>"
        }"#;
    let req = request(json);
    let recipients: Vec<String> = req.to.unwrap().try_into().unwrap();
    assert_eq!(recipients.len(), 2);
}

#[test]
fn valid_cc_and_bcc() {
    let json = r#"{
            "key": "mykey123",
            "from": "sender@datasektionen.se",
            "to": "recipient@datasektionen.se",
            "cc": ["cc@datasektionen.se"],
            "bcc": ["bcc1@datasektionen.se", "Bcc <bcc2@datasektionen.se>"],
            "subject": "Hello",
            "html": "<p>Test</p>"
        }"#;
    let req = request(json);
    assert!(req.cc.is_some());
    assert!(req.bcc.is_some());
    let bcc: Vec<String> = req.bcc.unwrap().try_into().unwrap();
    assert_eq!(bcc.len(), 2)
}

#[test]
fn valid_reply_to() {
    let json = r#"{
            "key": "mykey123",
            "from": "sender@datasektionen.se",
            "replyTo": "reply@datasektionen.se",
            "subject": "Hello",
            "html": "<p>Test</p>"
        }"#;
    let req = request(json);
    assert!(req.reply_to.is_some());
}

#[test]
fn valid_template() {
    let json = r#"{
            "key": "mykey123",
            "from": "sender@datasektionen.se",
            "template": "metaspexet",
            "subject": "Hello",
            "html": "<p>Test</p>"
        }"#;
    let req = request(json);
    assert_eq!(req.template, EmailTemplateTypeLegacy::Metaspexet);
}

#[test]
fn valid_attachments() {
    let json = r#"{
            "key": "mykey123",
            "from": "sender@datasektionen.se",
            "subject": "With attachment",
            "html": "<p>See attachment</p>",
            "attachments[]": [
                {
                    "originalname": "document.pdf",
                    "mimetype": "application/pdf",
                    "buffer": "JVBERi0xLjQ="
                }
            ]
        }"#;
    let req = request(json);
    assert!(req.attachments.is_some());
    let attachments = req.attachments.unwrap();
    assert_eq!(attachments.len(), 1);
    assert_eq!(attachments[0].original_name, "document.pdf");
}

#[test]
fn valid_empty_attachments() {
    let json = r#"{
            "key": "mykey123",
            "from": "sender@datasektionen.se",
            "subject": "No attachments",
            "attachments[]": []
        }"#;
    let req = request(json);
    let attachments = req.attachments.unwrap();
    assert_eq!(attachments.len(), 0);
}

#[test]
fn valid_string_addresses() {
    let json = r#"{
            "key": "mykey123",
            "from": "sender@datasektionen.se",
            "to": "recipient@datasektionen.se, test <other@datasektionen.se>",
            "subject": "Multiple recipients"
        }"#;
    let req = request(json);
    let to: Vec<String> = req.to.unwrap().try_into().unwrap();
    assert_eq!(to.len(), 2);
}

#[test]
fn valid_fancy_address() {
    let json = r#"{
            "key": "mykey123",
            "from": "Test <sender@datasektionen.se>",
            "to": ["Test <recipient@datasektionen.se>", "Other <other@datasektionen.se>"],
            "subject": "Multiple recipients"
        }"#;
    let req = request(json);
    let to: Vec<String> = req.to.unwrap().try_into().unwrap();
    assert_eq!(to.len(), 2);
}

#[test]
fn valid_utf8_address() {
    let json = r#"{
            "key": "mykey123",
            "from": {"name": "åäö", "address": "sender@datasektionen.se"},
            "subject": "Hello"
        }"#;
    let req = request(json);
    let from: String = req.from.try_into().unwrap();
    assert_eq!(from, "=?UTF-8?B?w6XDpMO2?= <sender@datasektionen.se>");
}

#[test]
fn valid_utf8_fancy_address() {
    let json = r#"{
            "key": "mykey123",
            "from": "åäö <sender@datasektionen.se>",
            "to": "åäö <recipient@datasektionen.se>, åäö <other@datasektionen.se>",
            "subject": "Hello"
        }"#;
    let req = request(json);
    let from: String = req.from.try_into().unwrap();
    assert_eq!(from, "=?UTF-8?B?w6XDpMO2?= <sender@datasektionen.se>");

    let to: Vec<String> = req.to.unwrap().try_into().unwrap();
    assert_eq!(to.len(), 2);
    assert_eq!(
        to.get(0).unwrap(),
        "=?UTF-8?B?w6XDpMO2?= <recipient@datasektionen.se>"
    );
    assert_eq!(
        to.get(1).unwrap(),
        "=?UTF-8?B?w6XDpMO2?= <other@datasektionen.se>"
    );
}
