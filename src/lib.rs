//! An embeddable relational data store: framing of client messages, the
//! schema and value model, translation of parsed statements into commands,
//! and a storage engine that validates inserts and allocates identifiers.

pub mod error;
pub mod instance;
pub mod laws;
pub mod literal;
pub mod message;
pub mod seqs;
pub mod storage;
pub mod translate;
pub mod types;
