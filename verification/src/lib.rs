//! Event-to-notification pipeline: turns one "agent turn complete" event into
//! a bounded summary and a fan-out delivery plan for the configured channels.

pub mod channels;
pub mod config;
pub mod dispatch;
pub mod event;
pub mod json;
pub mod summarizer;
pub mod text;

use vstd::prelude::*;

verus! {

/// A character is clause punctuation when the local summarizer may cut after it.
pub open spec fn is_clause_punct(c: char) -> bool {
    c == '\u{3002}' || c == '\u{FF1B}' || c == '\u{FF0C}' || c == '\u{3001}'
}

} // verus!
