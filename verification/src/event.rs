//! The incoming event: parsing and the suppression rule.
//!
//! Only a turn-complete event with a non-blank message starts the pipeline;
//! anything else is suppressed silently.

use vstd::prelude::*;
use crate::config::opt_view;
use crate::text::{chars_of, spec_trim, str_eq, trim_chars};

verus! {

/// One upstream occurrence: its kind tag and its optional free-text payload.
pub struct Event {
    pub event_type: String,
    pub message: Option<String>,
}

/// The event an input document denotes: its `type` string and its optional
/// `last-assistant-message` string, or nothing when the document does not
/// parse or lacks a string `type`. A function of the input alone.
pub uninterp spec fn json_event(s: Seq<char>) -> Option<(Seq<char>, Option<Seq<char>>)>;

/// Relies on serde_json::from_str and serde_json::Value::get: parses the input
/// as a JSON object and reads its `type` and `last-assistant-message` string
/// fields, the latter optional.
#[verifier::external_body]
fn parse_event(input: &str) -> (r: Option<Event>)
    ensures
        match r {
            Some(e) => json_event(input@) == Some((e.event_type@, opt_view(e.message))),
            None => json_event(input@) is None,
        },
{
    let v: serde_json::Value = match serde_json::from_str(input) {
        Ok(v) => v,
        Err(_) => return None,
    };
    let t = match v.get("type").and_then(|x| x.as_str()) {
        Some(t) => t.to_string(),
        None => return None,
    };
    let m = v.get("last-assistant-message").and_then(|x| x.as_str()).map(|s| s.to_string());
    Some(Event { event_type: t, message: m })
}

/// The content the pipeline may work on: the message of a turn-complete event,
/// when that message is present and not blank. Everything else is suppressed.
pub open spec fn spec_accept(parsed: Option<(Seq<char>, Option<Seq<char>>)>) -> Option<Seq<char>> {
    match parsed {
        Some((t, Some(m))) => if t == "agent-turn-complete"@ && spec_trim(m).len() > 0 {
            Some(m)
        } else {
            None
        },
        Some((t, None)) => None,
        None => None,
    }
}

/// Law: with an unparseable input, an event of another kind, an absent
/// message, or a blank message, `accept_event` hands back nothing, so
/// neither summarization nor dispatch can take place.
pub proof fn lemma_suppressed(parsed: Option<(Seq<char>, Option<Seq<char>>)>)
    ensures
        parsed is None ==> spec_accept(parsed) is None,
        parsed is Some && parsed->Some_0.0 != "agent-turn-complete"@ ==> spec_accept(parsed)
            is None,
        parsed is Some && parsed->Some_0.1 is None ==> spec_accept(parsed) is None,
        parsed is Some && parsed->Some_0.1 is Some && spec_trim(parsed->Some_0.1->Some_0).len()
            == 0 ==> spec_accept(parsed) is None,
{
}

/// Hand back the event's content exactly when the input is a turn-complete
/// event with a non-blank message; `None` suppresses the whole pipeline
/// (no summarization, no dispatch).
pub fn accept_event(input: &str) -> (r: Option<String>)
    ensures
        opt_view(r) == spec_accept(json_event(input@)),
{
    match parse_event(input) {
        Some(e) => match e.message {
            Some(m) => {
                if str_eq(e.event_type.as_str(), "agent-turn-complete") {
                    let mc = chars_of(m.as_str());
                    let t = trim_chars(&mc);
                    if t.len() > 0 {
                        Some(m)
                    } else {
                        None
                    }
                } else {
                    None
                }
            },
            None => None,
        },
        None => None,
    }
}

} // verus!
