//! Extraction of short, predominantly Chinese sentences from forum reply
//! records: character classes, markup stripping, paragraph validation,
//! script-ratio filtering and per-record processing.

pub mod lexical;
pub mod text;
pub mod patterns;
pub mod validator;
pub mod script;
pub mod markup;
pub mod record;
pub mod batch;
