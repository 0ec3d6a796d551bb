use base64::Engine;
use mail_relay::error::Error;
use mail_relay::json::{JsonValue, ParseError};
use mail_relay::legacy::email::{
    encoding_default, first_invalid_field, format_utf8, join_name_and_address, normalize_all,
    split_addresses, try_format_utf8, AddressFieldLegacy, AddressFieldsLegacy, EmailNameLegacy,
    EmailTemplateTypeLegacy,
};

fn bare(address: &str) -> AddressFieldLegacy {
    AddressFieldLegacy::Address(address.to_string())
}

fn pair(name: &str, address: &str) -> AddressFieldLegacy {
    AddressFieldLegacy::NameAndAddress(EmailNameLegacy {
        name: name.to_string(),
        address: address.to_string(),
    })
}

fn text(s: &str) -> JsonValue {
    JsonValue::Text(s.to_string())
}

fn object(members: Vec<(&str, JsonValue)>) -> JsonValue {
    JsonValue::Object(members.into_iter().map(|(k, v)| (k.to_string(), v)).collect())
}

fn not_ascii(r: Result<String, Error>) -> String {
    match r {
        Err(Error::NotASCII(detail)) => detail,
        other => panic!("expected a non-ASCII failure, got {:?}", other),
    }
}

#[test]
fn ascii_bare_address_is_kept_as_it_is() {
    for address in [
        "sender@datasektionen.se",
        "Name <sender@datasektionen.se>",
        "  padded@x.se ",
        "",
        "no brackets closed <a@b.se",
    ] {
        assert_eq!(bare(address).normalized().unwrap(), address);
    }
}

#[test]
fn non_ascii_name_is_encoded_and_can_be_recovered() {
    let word = format_utf8("åäö");
    assert_eq!(word, "=?UTF-8?B?w6XDpMO2?=");
    let payload = &word[10..word.len() - 2];
    let bytes = base64::prelude::BASE64_STANDARD.decode(payload).unwrap();
    assert_eq!(bytes, "åäö".as_bytes());
}

#[test]
fn encoded_name_is_trimmed_first() {
    assert_eq!(format_utf8("  åäö \t"), format_utf8("åäö"));
    assert_eq!(format_utf8(""), "=?UTF-8?B??=");
    assert_eq!(format_utf8("a"), "=?UTF-8?B?YQ==?=");
}

#[test]
fn fancy_sender_with_non_ascii_name() {
    assert_eq!(
        bare("åäö <sender@datasektionen.se>").normalized().unwrap(),
        "=?UTF-8?B?w6XDpMO2?= <sender@datasektionen.se>"
    );
}

#[test]
fn every_closing_bracket_at_the_end_is_dropped() {
    assert_eq!(
        bare("åäö <sender@datasektionen.se>>>").normalized().unwrap(),
        "=?UTF-8?B?w6XDpMO2?= <sender@datasektionen.se>"
    );
    assert_eq!(
        bare("åäö <sender@datasektionen.se").normalized().unwrap(),
        "=?UTF-8?B?w6XDpMO2?= <sender@datasektionen.se>"
    );
}

#[test]
fn bare_address_that_is_not_ascii_fails() {
    assert_eq!(
        not_ascii(bare("sändare@datasektionen.se").normalized()),
        "is not ASCII and is not in Name <addr> format"
    );
    assert_eq!(
        not_ascii(bare("Name <sändare@datasektionen.se>").normalized()),
        "address is not ASCII"
    );
}

#[test]
fn pair_keeps_an_ascii_name() {
    assert_eq!(
        pair("John Doe", "john@datasektionen.se").normalized().unwrap(),
        "John Doe <john@datasektionen.se>"
    );
    assert_eq!(pair(" John ", "j@x.se").normalized().unwrap(), " John  <j@x.se>");
}

#[test]
fn pair_with_non_ascii_address_fails() {
    assert_eq!(not_ascii(pair("John", "jöhn@x.se").normalized()), "address field");
    assert_eq!(not_ascii(pair("åäö", "jöhn@x.se").normalized()), "address field");
}

#[test]
fn normalized_addresses_are_ascii() {
    for field in [
        bare("a@x.se"),
        bare("åäö <a@x.se>"),
        pair("åäö", "a@x.se"),
        pair("Plain", "a@x.se"),
    ] {
        assert!(field.normalized().unwrap().is_ascii());
    }
}

#[test]
fn address_fits_the_encoder() {
    assert!(bare("åäö <a@x.se>").fits());
    assert!(pair("åäö", "a@x.se").fits());
    assert!(AddressFieldsLegacy::AddressList(vec![bare("a@x.se"), pair("å", "b@x.se")]).fits());
    assert!(AddressFieldsLegacy::AddressField(bare("a@x.se")).fits());
}

#[test]
fn name_and_address_are_joined_with_brackets() {
    assert_eq!(join_name_and_address("N", "a@x.se"), "N <a@x.se>");
    assert_eq!(join_name_and_address("", ""), " <>");
}

#[test]
fn comma_separated_destinations_keep_their_order() {
    let fields = AddressFieldsLegacy::from_json(&text("a@x.se, Name <b@x.se>")).unwrap();
    assert_eq!(fields.normalized().unwrap(), vec!["a@x.se", "Name <b@x.se>"]);
}

#[test]
fn comma_separated_text_gives_one_address_per_segment() {
    for (input, expected) in [
        ("a@x.se,b@x.se", vec!["a@x.se", "b@x.se"]),
        (" a@x.se ,\tb@x.se,c@x.se ", vec!["a@x.se", "b@x.se", "c@x.se"]),
        ("a@x.se,", vec!["a@x.se", ""]),
        (",", vec!["", ""]),
    ] {
        let list = split_addresses(input);
        assert_eq!(list.len(), input.matches(',').count() + 1);
        assert_eq!(normalize_all(&list).unwrap(), expected);
        let fields = AddressFieldsLegacy::from_json(&text(input)).unwrap();
        assert!(matches!(fields, AddressFieldsLegacy::AddressList(_)));
        assert_eq!(fields.normalized().unwrap(), expected);
    }
}

#[test]
fn text_without_comma_is_a_single_field() {
    let fields = AddressFieldsLegacy::from_json(&text(" a@x.se ")).unwrap();
    match &fields {
        AddressFieldsLegacy::AddressField(AddressFieldLegacy::Address(a)) => {
            assert_eq!(a, " a@x.se ")
        }
        other => panic!("expected a single field, got {:?}", other),
    }
    assert_eq!(fields.normalized().unwrap(), vec![" a@x.se "]);
}

#[test]
fn collection_fails_with_its_first_invalid_field() {
    let fields = AddressFieldsLegacy::AddressList(vec![
        bare("a@x.se"),
        pair("N", "ö@x.se"),
        bare("ö@x.se"),
    ]);
    match fields.normalized() {
        Err(Error::NotASCII(detail)) => assert_eq!(detail, "address field"),
        other => panic!("expected a non-ASCII failure, got {:?}", other),
    }
}

#[test]
fn empty_collection_is_a_failure() {
    let fields = AddressFieldsLegacy::from_json(&JsonValue::List(vec![])).unwrap();
    assert!(matches!(&fields, AddressFieldsLegacy::AddressList(v) if v.is_empty()));
    for r in [
        fields.normalized(),
        fields.try_normalized(),
        normalize_all(&vec![]),
        Vec::<String>::try_from(&fields),
    ] {
        match r {
            Err(Error::NotASCII(detail)) => assert_eq!(detail, "address list is empty"),
            other => panic!("expected a failure, got {:?}", other),
        }
    }
    assert_eq!(not_ascii(fields.first_normalized()), "address list is empty");
}

#[test]
fn what_comes_out_of_a_collection_is_never_empty() {
    for fields in [
        AddressFieldsLegacy::AddressField(bare("a@x.se")),
        AddressFieldsLegacy::AddressList(vec![bare("a@x.se")]),
        AddressFieldsLegacy::AddressList(vec![bare("a@x.se"), pair("å", "b@x.se")]),
        AddressFieldsLegacy::AddressList(vec![]),
        AddressFieldsLegacy::AddressList(vec![bare("ö@x.se")]),
    ] {
        if let Ok(list) = fields.normalized() {
            assert!(!list.is_empty());
        }
    }
}

#[test]
fn conversions_give_the_header_safe_forms() {
    let field = bare("åäö <sender@datasektionen.se>");
    let expected = "=?UTF-8?B?w6XDpMO2?= <sender@datasektionen.se>";
    assert_eq!(String::try_from(&field).unwrap(), expected);
    assert_eq!(field.try_normalized().unwrap(), expected);
    let owned: String = field.try_into().unwrap();
    assert_eq!(owned, expected);
    assert_eq!(String::try_from(&bare("a@x.se")).unwrap(), "a@x.se");
    assert_eq!(not_ascii(String::try_from(pair("N", "ö@x.se"))), "address field");

    let fields = AddressFieldsLegacy::AddressList(vec![bare("a@x.se"), pair("åäö", "b@x.se")]);
    let expected = vec!["a@x.se".to_string(), "=?UTF-8?B?w6XDpMO2?= <b@x.se>".to_string()];
    assert_eq!(Vec::<String>::try_from(&fields).unwrap(), expected);
    assert_eq!(fields.try_normalized().unwrap(), expected);
    let owned: Vec<String> = fields.try_into().unwrap();
    assert_eq!(owned, expected);
    let bad = AddressFieldsLegacy::AddressField(bare("ö@x.se"));
    assert!(matches!(Vec::<String>::try_from(bad), Err(Error::NotASCII(_))));
}

#[test]
fn encoded_name_in_a_normalized_field_can_be_read_back() {
    for (field, name) in [
        (bare("  åäö  <sender@datasektionen.se>"), "åäö"),
        (pair(" Björn Ö ", "b@x.se"), "Björn Ö"),
    ] {
        let out = field.normalized().unwrap();
        let word = out.split(' ').next().unwrap();
        assert!(word.starts_with("=?UTF-8?B?") && word.ends_with("?="));
        let payload = &word[10..word.len() - 2];
        let bytes = base64::prelude::BASE64_STANDARD.decode(payload).unwrap();
        assert_eq!(bytes, name.as_bytes());
    }
}

#[test]
fn reply_to_is_the_first_field_only() {
    let fields = AddressFieldsLegacy::AddressList(vec![bare("first@x.se"), bare("ö@x.se")]);
    assert_eq!(fields.first_normalized().unwrap(), "first@x.se");
    let single = AddressFieldsLegacy::AddressField(pair("åäö", "r@x.se"));
    assert_eq!(single.first_normalized().unwrap(), "=?UTF-8?B?w6XDpMO2?= <r@x.se>");
    let bad = AddressFieldsLegacy::AddressList(vec![bare("ö@x.se"), bare("ok@x.se")]);
    assert!(matches!(bad.first_normalized(), Err(Error::NotASCII(_))));
}

#[test]
fn object_needs_name_and_address_as_strings() {
    let ok = object(vec![("name", text("N")), ("address", text("a@x.se"))]);
    assert!(matches!(
        AddressFieldLegacy::from_json(&ok),
        Ok(AddressFieldLegacy::NameAndAddress(_))
    ));
    let no_name = object(vec![("address", text("a@x.se"))]);
    match AddressFieldLegacy::from_json(&no_name) {
        Err(ParseError::MissingField(field)) => assert_eq!(field, "name"),
        other => panic!("expected a missing field, got {:?}", other),
    }
    let no_address = object(vec![("name", text("N")), ("address", JsonValue::Bool(true))]);
    match AddressFieldLegacy::from_json(&no_address) {
        Err(e) => assert_eq!(e.to_string(), "missing field `address`"),
        other => panic!("expected a missing field, got {:?}", other),
    }
}

#[test]
fn other_values_are_no_address() {
    for value in [JsonValue::Null, JsonValue::Bool(true), JsonValue::Number("1".to_string())] {
        match AddressFieldLegacy::from_json(&value) {
            Err(ParseError::Custom(m)) => assert_eq!(m, "expected string or object"),
            other => panic!("expected a complaint, got {:?}", other),
        }
        match AddressFieldsLegacy::from_json(&value) {
            Err(ParseError::Custom(m)) => assert_eq!(m, "expected string, object, or array"),
            other => panic!("expected a complaint, got {:?}", other),
        }
    }
    match AddressFieldLegacy::from_json(&JsonValue::List(vec![])) {
        Err(ParseError::Custom(m)) => assert_eq!(m, "expected string or object"),
        other => panic!("expected a complaint, got {:?}", other),
    }
}

#[test]
fn array_fails_with_its_first_bad_element() {
    let value = JsonValue::List(vec![
        text("a@x.se"),
        object(vec![("name", text("N"))]),
        JsonValue::Null,
    ]);
    match AddressFieldsLegacy::from_json(&value) {
        Err(ParseError::Custom(m)) => assert_eq!(m, "missing field `address`"),
        other => panic!("expected a complaint, got {:?}", other),
    }
}

#[test]
fn array_elements_are_not_split_at_commas() {
    let value = JsonValue::List(vec![text("a@x.se, b@x.se")]);
    let fields = AddressFieldsLegacy::from_json(&value).unwrap();
    assert_eq!(fields.normalized().unwrap(), vec!["a@x.se, b@x.se"]);
}

#[test]
fn object_in_a_collection_reports_in_words() {
    let value = object(vec![("name", text("N"))]);
    match AddressFieldsLegacy::from_json(&value) {
        Err(ParseError::Custom(m)) => assert_eq!(m, "missing field `address`"),
        other => panic!("expected a complaint, got {:?}", other),
    }
}

#[test]
fn template_names() {
    assert_eq!(EmailTemplateTypeLegacy::Default.to_string(), "default");
    assert_eq!(EmailTemplateTypeLegacy::Metaspexet.to_string(), "metaspexet");
    assert_eq!(EmailTemplateTypeLegacy::Plain.to_string(), "none");
    assert_eq!(String::from(EmailTemplateTypeLegacy::Metaspexet), "metaspexet");
    assert_eq!(EmailTemplateTypeLegacy::from_name("none"), Some(EmailTemplateTypeLegacy::Plain));
    assert_eq!(EmailTemplateTypeLegacy::from_name("None"), None);
    assert_eq!(EmailTemplateTypeLegacy::default(), EmailTemplateTypeLegacy::Default);
    for template in [
        EmailTemplateTypeLegacy::Default,
        EmailTemplateTypeLegacy::Metaspexet,
        EmailTemplateTypeLegacy::Plain,
    ] {
        assert_eq!(EmailTemplateTypeLegacy::from_name(template.as_str()), Some(template));
    }
}

#[test]
fn default_encoding_is_base64() {
    assert_eq!(encoding_default(), "base64");
}

#[test]
fn first_invalid_field_is_found_by_its_place() {
    let list = vec![bare("a@x.se"), pair("å", "b@x.se"), pair("N", "ö@x.se"), bare("ö@x.se")];
    assert_eq!(first_invalid_field(&list), 2);
    assert_eq!(first_invalid_field(&list[..2].to_vec()), 2);
    assert_eq!(first_invalid_field(&vec![]), 0);
    assert_eq!(AddressFieldsLegacy::AddressList(list).first_invalid_index(), 2);
    assert_eq!(AddressFieldsLegacy::AddressField(bare("a@x.se")).first_invalid_index(), 1);
    assert_eq!(AddressFieldsLegacy::AddressField(bare("ö@x.se")).first_invalid_index(), 0);
    let fields = AddressFieldsLegacy::from_json(&text("a@x.se, ö@x.se, N <ö@x.se>")).unwrap();
    assert_eq!(fields.first_invalid_index(), 1);
    assert!(fields.normalized().is_err());
}

#[test]
fn valid_fields_are_those_with_a_header_safe_form() {
    for field in [
        bare("a@x.se"),
        bare("åäö <a@x.se>"),
        bare("ö@x.se"),
        bare("N <ö@x.se>"),
        pair("åäö", "a@x.se"),
        pair("N", "ö@x.se"),
    ] {
        assert_eq!(field.is_valid(), field.normalized().is_ok());
    }
}

#[test]
fn encoded_word_of_any_name() {
    assert_eq!(try_format_utf8("åäö").as_deref(), Some("=?UTF-8?B?w6XDpMO2?="));
    assert_eq!(try_format_utf8(" \t").as_deref(), Some("=?UTF-8?B??="));
    for name in ["åäö", "  åäö ", "a b", "", "\u{3000}x\u{2003}"] {
        assert_eq!(try_format_utf8(name), Some(format_utf8(name)));
        assert_eq!(format_utf8(name), format_utf8(name.trim()));
        assert!(format_utf8(name).is_ascii());
    }
}
