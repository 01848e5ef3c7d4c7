//! A table-driven finite-state scanner for a small "wordlist" text format:
//! named entries, each optionally carrying key/value attributes.
//!
//! The scanner consumes one character at a time. An ordered transition table
//! decides, from the current state and the character's class, which state
//! comes next and which mutation of the accumulation context runs; the first
//! matching rule wins, and a character matched by no rule is consumed with no
//! effect. Completed entries are appended to an ordered output collection,
//! and the end of the stream forces the open entry to be committed.

pub mod chars;
pub mod records;
pub mod machine;
pub mod parser;
pub mod engine;
pub mod laws;
