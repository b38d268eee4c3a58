//! Form definitions, submission normalisation and the append-only submission log.

pub mod answers;
pub mod config;
pub mod field;
pub mod record;
pub mod store;
pub mod text;
