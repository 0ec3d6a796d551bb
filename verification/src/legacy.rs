//! The request shape that callers of the relay have always sent.

pub mod email;
pub mod request;
