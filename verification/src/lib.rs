//! Normalisation and assembly of relayed e-mail requests.

pub mod attachment;
pub mod content;
pub mod dispatch;
pub mod domain;
pub mod encoding;
pub mod error;
pub mod json;
pub mod legacy;
pub mod message;
pub mod text;
