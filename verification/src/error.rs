//! The failures of the relay, their texts and their HTTP status codes.

use vstd::prelude::*;
use crate::text::concat2;

verus! {

/// Everything that can end a request early.
#[derive(Debug)]
pub enum Error {
    EnvVarMissing(String),
    InvalidEmailDomain(String),
    InvalidContentType,
    ApiKeyInvalid,
    ApiKeyLookup(String),
    MissingContent,
    EmailSend(String),
    TemplateRender(String),
    TemplateLoad(String),
    Attachment(String),
    NotASCII(String),
    EmailBody(String),
}

/// An [`Error`] with its detail text as a sequence of characters.
pub enum ErrorModel {
    EnvVarMissing(Seq<char>),
    InvalidEmailDomain(Seq<char>),
    InvalidContentType,
    ApiKeyInvalid,
    ApiKeyLookup(Seq<char>),
    MissingContent,
    EmailSend(Seq<char>),
    TemplateRender(Seq<char>),
    TemplateLoad(Seq<char>),
    Attachment(Seq<char>),
    NotASCII(Seq<char>),
    EmailBody(Seq<char>),
}

impl View for Error {
    type V = ErrorModel;

    open spec fn view(&self) -> ErrorModel {
        match *self {
            Error::EnvVarMissing(m) => ErrorModel::EnvVarMissing(m@),
            Error::InvalidEmailDomain(m) => ErrorModel::InvalidEmailDomain(m@),
            Error::InvalidContentType => ErrorModel::InvalidContentType,
            Error::ApiKeyInvalid => ErrorModel::ApiKeyInvalid,
            Error::ApiKeyLookup(m) => ErrorModel::ApiKeyLookup(m@),
            Error::MissingContent => ErrorModel::MissingContent,
            Error::EmailSend(m) => ErrorModel::EmailSend(m@),
            Error::TemplateRender(m) => ErrorModel::TemplateRender(m@),
            Error::TemplateLoad(m) => ErrorModel::TemplateLoad(m@),
            Error::Attachment(m) => ErrorModel::Attachment(m@),
            Error::NotASCII(m) => ErrorModel::NotASCII(m@),
            Error::EmailBody(m) => ErrorModel::EmailBody(m@),
        }
    }
}

pub const STATUS_BAD_REQUEST: u16 = 400;

pub const STATUS_UNAUTHORIZED: u16 = 401;

pub const STATUS_INTERNAL_SERVER_ERROR: u16 = 500;

impl ErrorModel {
    /// The text shown for this failure.
    pub open spec fn text(self) -> Seq<char> {
        match self {
            ErrorModel::EnvVarMissing(m) => "Environment variable missing: "@ + m,
            ErrorModel::ApiKeyInvalid => "API key is invalid or lacks permissions"@,
            ErrorModel::ApiKeyLookup(m) => "API lookup failed: "@ + m,
            ErrorModel::InvalidEmailDomain(m) => "Invalid email domain: "@ + m,
            ErrorModel::InvalidContentType => "Invalid content type"@,
            ErrorModel::EmailSend(m) => "Failed to send email: "@ + m,
            ErrorModel::TemplateRender(m) => "Failed to render template: "@ + m,
            ErrorModel::TemplateLoad(m) => "Failed to load template: "@ + m,
            ErrorModel::Attachment(m) => "Failed to process attachment: "@ + m,
            ErrorModel::EmailBody(m) => "Failed to process email body: "@ + m,
            ErrorModel::NotASCII(m) => "Contains non-ASCII characters: "@ + m,
            ErrorModel::MissingContent => "No 'html' or 'content' field provided."@,
        }
    }

    /// The HTTP status this failure is answered with: 401 for a key
    /// without permission, 500 for what the backend or its configuration
    /// caused, 400 for what the caller can correct.
    pub open spec fn status(self) -> u16 {
        match self {
            ErrorModel::ApiKeyInvalid => STATUS_UNAUTHORIZED,
            ErrorModel::EmailSend(_)
            | ErrorModel::TemplateRender(_)
            | ErrorModel::TemplateLoad(_)
            | ErrorModel::ApiKeyLookup(_)
            | ErrorModel::EnvVarMissing(_) => STATUS_INTERNAL_SERVER_ERROR,
            ErrorModel::Attachment(_)
            | ErrorModel::EmailBody(_)
            | ErrorModel::InvalidEmailDomain(_)
            | ErrorModel::InvalidContentType
            | ErrorModel::NotASCII(_)
            | ErrorModel::MissingContent => STATUS_BAD_REQUEST,
        }
    }
}

impl Error {
    /// The text shown for this failure.
    pub fn to_string(&self) -> (s: String)
        ensures
            s@ == self@.text(),
    {
        match self {
            Error::EnvVarMissing(m) => concat2("Environment variable missing: ", m.as_str()),
            Error::ApiKeyInvalid => String::from_str("API key is invalid or lacks permissions"),
            Error::ApiKeyLookup(m) => concat2("API lookup failed: ", m.as_str()),
            Error::InvalidEmailDomain(m) => concat2("Invalid email domain: ", m.as_str()),
            Error::InvalidContentType => String::from_str("Invalid content type"),
            Error::EmailSend(m) => concat2("Failed to send email: ", m.as_str()),
            Error::TemplateRender(m) => concat2("Failed to render template: ", m.as_str()),
            Error::TemplateLoad(m) => concat2("Failed to load template: ", m.as_str()),
            Error::Attachment(m) => concat2("Failed to process attachment: ", m.as_str()),
            Error::EmailBody(m) => concat2("Failed to process email body: ", m.as_str()),
            Error::NotASCII(m) => concat2("Contains non-ASCII characters: ", m.as_str()),
            Error::MissingContent => String::from_str("No 'html' or 'content' field provided."),
        }
    }

    /// The HTTP status this failure is answered with.
    pub fn status_code(&self) -> (code: u16)
        ensures
            code == self@.status(),
    {
        match self {
            Error::ApiKeyInvalid => STATUS_UNAUTHORIZED,
            Error::EmailSend(_)
            | Error::TemplateRender(_)
            | Error::TemplateLoad(_)
            | Error::ApiKeyLookup(_)
            | Error::EnvVarMissing(_) => STATUS_INTERNAL_SERVER_ERROR,
            Error::Attachment(_)
            | Error::EmailBody(_)
            | Error::InvalidEmailDomain(_)
            | Error::InvalidContentType
            | Error::NotASCII(_)
            | Error::MissingContent => STATUS_BAD_REQUEST,
        }
    }
}

} // verus!
