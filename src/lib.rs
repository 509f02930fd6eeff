//! Traceability between a markdown specification and the tests that verify it.
//!
//! - `spec_parser`: requirement extraction, a single walk over the markdown
//!   event stream (`markdown`) with the heading hierarchy (`heading`) as side
//!   state; `classify` gives each requirement its type and priority.
//! - `alignment`: from each requirement's tests and their latest results to a
//!   coverage verdict, a report and its mismatches; `export` renders the
//!   mismatch tables.
//! - `scanner`, `template`, `prompt`: codebase symbols, test skeletons and the
//!   prompt for model-written tests.
//! - `requests`: checks on caller input; `model`: the records; `text`: the
//!   character-sequence toolkit the rest is written in; `ids`: fresh
//!   identifiers and timestamps.

pub mod text;
pub mod model;
pub mod ids;
pub mod heading;
pub mod markdown;
pub mod classify;
pub mod spec_parser;
pub mod alignment;
pub mod export;
pub mod scanner;
pub mod template;
pub mod prompt;
pub mod requests;
