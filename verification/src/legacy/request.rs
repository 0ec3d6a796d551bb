//! Reading a request out of a JSON document.
//!
//! The members are looked at in a fixed order: `key`, `template`, `from`,
//! `replyTo`, `to`, `subject`, `content`, `html`, `cc`, `bcc`,
//! `attachments[]`. The first one that is missing though required, or of
//! the wrong type, decides the failure.

use vstd::prelude::*;
use vstd::string::*;
use crate::json::{JsonValue, ParseError, ParseErrorModel};
use crate::legacy::email::{
    attachment_models, encoding_default, parse_address, parse_addresses,
    AddressFieldLegacy, AddressFieldsLegacy, AddressesModel, AttachmentLegacy, AttachmentModel,
    EmailRequestLegacy, EmailTemplateTypeLegacy, RequestModel,
};

verus! {

/// The string that the required member `key` holds.
pub open spec fn required_text(value: JsonValue, key: Seq<char>) -> Result<
    Seq<char>,
    ParseErrorModel,
> {
    match value.member(key) {
        None => Err(ParseErrorModel::MissingField(key)),
        Some(JsonValue::Text(s)) => Ok(s@),
        Some(_) => Err(ParseErrorModel::InvalidType("a string"@)),
    }
}

/// The string that the member `key` holds, where it is there and not
/// `null`.
pub open spec fn optional_text_member(value: JsonValue, key: Seq<char>) -> Result<
    Option<Seq<char>>,
    ParseErrorModel,
> {
    match value.present_member(key) {
        None => Ok(None),
        Some(JsonValue::Text(s)) => Ok(Some(s@)),
        Some(_) => Err(ParseErrorModel::InvalidType("a string"@)),
    }
}

/// The template that the member `template` names; the default one where
/// the member is absent.
pub open spec fn template_member(value: JsonValue) -> Result<
    EmailTemplateTypeLegacy,
    ParseErrorModel,
> {
    match value.member("template"@) {
        None => Ok(EmailTemplateTypeLegacy::Default),
        Some(JsonValue::Text(s)) => match EmailTemplateTypeLegacy::named(s@) {
            Some(template) => Ok(template),
            None => Err(ParseErrorModel::UnknownVariant(s@)),
        },
        Some(_) => Err(ParseErrorModel::InvalidType("a template name"@)),
    }
}

/// The collection that the member `key` holds, where it is there and not
/// `null`.
pub open spec fn addresses_member(value: JsonValue, key: Seq<char>) -> Result<
    Option<AddressesModel>,
    ParseErrorModel,
> {
    match value.present_member(key) {
        None => Ok(None),
        Some(inner) => match parse_addresses(inner) {
            Ok(a) => Ok(Some(a)),
            Err(e) => Err(e),
        },
    }
}

/// The attachment that a JSON object stands for. Its encoding is `base64`
/// where it names none.
pub open spec fn parse_attachment(value: JsonValue) -> Result<AttachmentModel, ParseErrorModel> {
    if !(value is Object) {
        Err(ParseErrorModel::InvalidType("an attachment object"@))
    } else {
        match required_text(value, "originalname"@) {
            Err(e) => Err(e),
            Ok(original_name) => match required_text(value, "mimetype"@) {
                Err(e) => Err(e),
                Ok(mimetype) => match required_text(value, "buffer"@) {
                    Err(e) => Err(e),
                    Ok(buffer) => match value.member("encoding"@) {
                        None => Ok(
                            AttachmentModel {
                                original_name,
                                mimetype,
                                buffer,
                                encoding: "base64"@,
                            },
                        ),
                        Some(JsonValue::Text(s)) => Ok(
                            AttachmentModel { original_name, mimetype, buffer, encoding: s@ },
                        ),
                        Some(_) => Err(ParseErrorModel::InvalidType("a string"@)),
                    },
                },
            },
        }
    }
}

/// Index of the first element at or after `from` that stands for no
/// attachment, or `items.len()` when there is none.
pub open spec fn first_bad_attachment(items: Seq<JsonValue>, from: int) -> int
    decreases items.len() - from,
{
    if from < 0 || from >= items.len() {
        items.len() as int
    } else if parse_attachment(items[from]) is Err {
        from
    } else {
        first_bad_attachment(items, from + 1)
    }
}

/// Attachments in `items[from..k]` and none at `k`, or the end there, fixes
/// `first_bad_attachment`.
pub proof fn lemma_first_bad_attachment_at(items: Seq<JsonValue>, from: int, k: int)
    requires
        0 <= from <= k <= items.len(),
        forall|j: int| from <= j < k ==> parse_attachment(#[trigger] items[j]) is Ok,
        k < items.len() ==> parse_attachment(items[k]) is Err,
    ensures
        first_bad_attachment(items, from) == k,
    decreases k - from,
{
    if from < k {
        lemma_first_bad_attachment_at(items, from + 1, k);
    }
}

/// The attachments that the elements of an array stand for, or the failure
/// of the first element that stands for none.
pub open spec fn parse_attachment_list(items: Seq<JsonValue>) -> Result<
    Seq<AttachmentModel>,
    ParseErrorModel,
> {
    let k = first_bad_attachment(items, 0);
    if 0 <= k < items.len() {
        Err(parse_attachment(items[k])->Err_0)
    } else {
        Ok(Seq::new(items.len(), |i: int| parse_attachment(items[i])->Ok_0))
    }
}

/// The attachments that the member `attachments[]` holds, where it is there
/// and not `null`.
pub open spec fn attachments_member(value: JsonValue) -> Result<
    Option<Seq<AttachmentModel>>,
    ParseErrorModel,
> {
    match value.present_member("attachments[]"@) {
        None => Ok(None),
        Some(JsonValue::List(items)) => match parse_attachment_list(items@) {
            Ok(list) => Ok(Some(list)),
            Err(e) => Err(e),
        },
        Some(_) => Err(ParseErrorModel::InvalidType("an array"@)),
    }
}

/// The sender that the required member `from` holds.
pub open spec fn from_member(value: JsonValue) -> Result<
    crate::legacy::email::AddressModel,
    ParseErrorModel,
> {
    match value.member("from"@) {
        None => Err(ParseErrorModel::MissingField("from"@)),
        Some(inner) => parse_address(inner),
    }
}

/// The request that a JSON value stands for.
pub open spec fn parse_request(value: JsonValue) -> Result<RequestModel, ParseErrorModel> {
    if !(value is Object) {
        Err(ParseErrorModel::InvalidType("a request object"@))
    } else {
        match required_text(value, "key"@) {
            Err(e) => Err(e),
            Ok(key) => match template_member(value) {
                Err(e) => Err(e),
                Ok(template) => match from_member(value) {
                    Err(e) => Err(e),
                    Ok(from) => match addresses_member(value, "replyTo"@) {
                        Err(e) => Err(e),
                        Ok(reply_to) => match addresses_member(value, "to"@) {
                            Err(e) => Err(e),
                            Ok(to) => match required_text(value, "subject"@) {
                                Err(e) => Err(e),
                                Ok(subject) => match optional_text_member(value, "content"@) {
                                    Err(e) => Err(e),
                                    Ok(content) => match optional_text_member(value, "html"@) {
                                        Err(e) => Err(e),
                                        Ok(html) => match addresses_member(value, "cc"@) {
                                            Err(e) => Err(e),
                                            Ok(cc) => match addresses_member(value, "bcc"@) {
                                                Err(e) => Err(e),
                                                Ok(bcc) => match attachments_member(value) {
                                                    Err(e) => Err(e),
                                                    Ok(attachments) => Ok(
                                                        RequestModel {
                                                            key,
                                                            template,
                                                            from,
                                                            reply_to,
                                                            to,
                                                            subject,
                                                            content,
                                                            html,
                                                            cc,
                                                            bcc,
                                                            attachments,
                                                        },
                                                    ),
                                                },
                                            },
                                        },
                                    },
                                },
                            },
                        },
                    },
                },
            },
        }
    }
}

/// The string that the required member `key` holds.
pub fn read_required_text(value: &JsonValue, key: &str) -> (r: Result<String, ParseError>)
    ensures
        match r {
            Ok(s) => required_text(*value, key@) == Ok::<Seq<char>, ParseErrorModel>(s@),
            Err(e) => required_text(*value, key@) == Err::<Seq<char>, ParseErrorModel>(e@),
        },
{
    match value.get(key) {
        None => Err(ParseError::MissingField(String::from_str(key))),
        Some(JsonValue::Text(s)) => Ok(s.clone()),
        Some(_) => Err(ParseError::InvalidType(String::from_str("a string"))),
    }
}

/// The string that the member `key` holds, where it is there and not
/// `null`.
pub fn read_optional_text(value: &JsonValue, key: &str) -> (r: Result<Option<String>, ParseError>)
    ensures
        match r {
            Ok(Some(s)) => optional_text_member(*value, key@) == Ok::<
                Option<Seq<char>>,
                ParseErrorModel,
            >(Some(s@)),
            Ok(None) => optional_text_member(*value, key@) == Ok::<
                Option<Seq<char>>,
                ParseErrorModel,
            >(None),
            Err(e) => optional_text_member(*value, key@) == Err::<
                Option<Seq<char>>,
                ParseErrorModel,
            >(e@),
        },
{
    match value.get_present(key) {
        None => Ok(None),
        Some(JsonValue::Text(s)) => Ok(Some(s.clone())),
        Some(_) => Err(ParseError::InvalidType(String::from_str("a string"))),
    }
}

/// The template that the member `template` names.
pub fn read_template(value: &JsonValue) -> (r: Result<EmailTemplateTypeLegacy, ParseError>)
    ensures
        match r {
            Ok(t) => template_member(*value) == Ok::<EmailTemplateTypeLegacy, ParseErrorModel>(t),
            Err(e) => template_member(*value) == Err::<EmailTemplateTypeLegacy, ParseErrorModel>(
                e@,
            ),
        },
{
    match value.get("template") {
        None => Ok(EmailTemplateTypeLegacy::Default),
        Some(JsonValue::Text(s)) => match EmailTemplateTypeLegacy::from_name(s.as_str()) {
            Some(template) => Ok(template),
            None => Err(ParseError::UnknownVariant(s.clone())),
        },
        Some(_) => Err(ParseError::InvalidType(String::from_str("a template name"))),
    }
}

/// The collection that the member `key` holds, where it is there and not
/// `null`.
pub fn read_addresses(value: &JsonValue, key: &str) -> (r: Result<
    Option<AddressFieldsLegacy>,
    ParseError,
>)
    ensures
        match r {
            Ok(Some(a)) => addresses_member(*value, key@) == Ok::<
                Option<AddressesModel>,
                ParseErrorModel,
            >(Some(a@)),
            Ok(None) => addresses_member(*value, key@) == Ok::<
                Option<AddressesModel>,
                ParseErrorModel,
            >(None),
            Err(e) => addresses_member(*value, key@) == Err::<
                Option<AddressesModel>,
                ParseErrorModel,
            >(e@),
        },
{
    match value.get_present(key) {
        None => Ok(None),
        Some(inner) => match AddressFieldsLegacy::from_json(inner) {
            Ok(a) => Ok(Some(a)),
            Err(e) => Err(e),
        },
    }
}

impl AttachmentLegacy {
    /// Reads an attachment out of a JSON value.
    pub fn from_json(value: &JsonValue) -> (r: Result<AttachmentLegacy, ParseError>)
        ensures
            match r {
                Ok(a) => parse_attachment(*value) == Ok::<AttachmentModel, ParseErrorModel>(a@),
                Err(e) => parse_attachment(*value) == Err::<AttachmentModel, ParseErrorModel>(e@),
            },
    {
        match value {
            JsonValue::Object(_) => {},
            _ => {
                return Err(ParseError::InvalidType(String::from_str("an attachment object")));
            },
        }
        let original_name = match read_required_text(value, "originalname") {
            Ok(s) => s,
            Err(e) => {
                return Err(e);
            },
        };
        let mimetype = match read_required_text(value, "mimetype") {
            Ok(s) => s,
            Err(e) => {
                return Err(e);
            },
        };
        let buffer = match read_required_text(value, "buffer") {
            Ok(s) => s,
            Err(e) => {
                return Err(e);
            },
        };
        let encoding = match value.get("encoding") {
            None => encoding_default(),
            Some(JsonValue::Text(s)) => s.clone(),
            Some(_) => {
                return Err(ParseError::InvalidType(String::from_str("a string")));
            },
        };
        Ok(AttachmentLegacy { original_name, mimetype, buffer, encoding })
    }
}

/// The attachments that the elements of an array stand for.
pub fn read_attachment_list(items: &Vec<JsonValue>) -> (r: Result<Vec<AttachmentLegacy>, ParseError>)
    ensures
        match r {
            Ok(list) => parse_attachment_list(items@) == Ok::<
                Seq<AttachmentModel>,
                ParseErrorModel,
            >(attachment_models(list@)),
            Err(e) => parse_attachment_list(items@) == Err::<
                Seq<AttachmentModel>,
                ParseErrorModel,
            >(e@),
        },
{
    let mut list: Vec<AttachmentLegacy> = Vec::new();
    let mut i: usize = 0;
    while i < items.len()
        invariant
            i <= items.len(),
            list@.len() == i,
            forall|j: int|
                0 <= j < i ==> parse_attachment(#[trigger] items@[j]) == Ok::<
                    AttachmentModel,
                    ParseErrorModel,
                >(list@[j]@),
        decreases items.len() - i,
    {
        match AttachmentLegacy::from_json(&items[i]) {
            Ok(a) => {
                list.push(a);
            },
            Err(e) => {
                proof {
                    lemma_first_bad_attachment_at(items@, 0, i as int);
                }
                return Err(e);
            },
        }
        i = i + 1;
    }
    proof {
        lemma_first_bad_attachment_at(items@, 0, i as int);
        assert(attachment_models(list@) =~= Seq::new(
            items@.len(),
            |k: int| parse_attachment(items@[k])->Ok_0,
        ));
    }
    Ok(list)
}

/// The attachments that the member `attachments[]` holds, where it is there
/// and not `null`.
pub fn read_attachments(value: &JsonValue) -> (r: Result<Option<Vec<AttachmentLegacy>>, ParseError>)
    ensures
        match r {
            Ok(Some(list)) => attachments_member(*value) == Ok::<
                Option<Seq<AttachmentModel>>,
                ParseErrorModel,
            >(Some(attachment_models(list@))),
            Ok(None) => attachments_member(*value) == Ok::<
                Option<Seq<AttachmentModel>>,
                ParseErrorModel,
            >(None),
            Err(e) => attachments_member(*value) == Err::<
                Option<Seq<AttachmentModel>>,
                ParseErrorModel,
            >(e@),
        },
{
    match value.get_present("attachments[]") {
        None => Ok(None),
        Some(JsonValue::List(items)) => match read_attachment_list(items) {
            Ok(list) => Ok(Some(list)),
            Err(e) => Err(e),
        },
        Some(_) => Err(ParseError::InvalidType(String::from_str("an array"))),
    }
}

/// A parsed request with its texts as sequences of characters.
pub open spec fn request_result(r: Result<EmailRequestLegacy, ParseError>) -> Result<
    RequestModel,
    ParseErrorModel,
> {
    match r {
        Ok(request) => Ok(request@),
        Err(e) => Err(e@),
    }
}

impl EmailRequestLegacy {
    /// Reads a request out of a JSON value.
    pub fn from_json(value: &JsonValue) -> (r: Result<EmailRequestLegacy, ParseError>)
        ensures
            request_result(r) == parse_request(*value),
    {
        match value {
            JsonValue::Object(_) => {},
            _ => {
                return Err(ParseError::InvalidType(String::from_str("a request object")));
            },
        }
        let key = match read_required_text(value, "key") {
            Ok(s) => s,
            Err(e) => {
                return Err(e);
            },
        };
        let template = match read_template(value) {
            Ok(t) => t,
            Err(e) => {
                return Err(e);
            },
        };
        let from = match value.get("from") {
            None => {
                return Err(ParseError::MissingField(String::from_str("from")));
            },
            Some(inner) => match AddressFieldLegacy::from_json(inner) {
                Ok(a) => a,
                Err(e) => {
                    return Err(e);
                },
            },
        };
        let reply_to = match read_addresses(value, "replyTo") {
            Ok(a) => a,
            Err(e) => {
                return Err(e);
            },
        };
        let to = match read_addresses(value, "to") {
            Ok(a) => a,
            Err(e) => {
                return Err(e);
            },
        };
        let subject = match read_required_text(value, "subject") {
            Ok(s) => s,
            Err(e) => {
                return Err(e);
            },
        };
        let content = match read_optional_text(value, "content") {
            Ok(s) => s,
            Err(e) => {
                return Err(e);
            },
        };
        let html = match read_optional_text(value, "html") {
            Ok(s) => s,
            Err(e) => {
                return Err(e);
            },
        };
        let cc = match read_addresses(value, "cc") {
            Ok(a) => a,
            Err(e) => {
                return Err(e);
            },
        };
        let bcc = match read_addresses(value, "bcc") {
            Ok(a) => a,
            Err(e) => {
                return Err(e);
            },
        };
        let attachments = match read_attachments(value) {
            Ok(a) => a,
            Err(e) => {
                return Err(e);
            },
        };
        Ok(
            EmailRequestLegacy {
                key,
                template,
                from,
                reply_to,
                to,
                subject,
                content,
                html,
                cc,
                bcc,
                attachments,
            },
        )
    }
}

} // verus!
