//! A small semantic-version state machine: a version model with
//! precedence-ordered increments and a pre-release-tag lifecycle, together
//! with its canonical text form (render and parse).

pub mod cli;
pub mod digits;
pub mod parser;
pub mod render;
pub mod semantic_version;
