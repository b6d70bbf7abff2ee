//! What is logged, and whether traces are sent.

use vstd::prelude::*;

use crate::text::{ascii_lowercase, chars_of, same_text, string_of, to_ascii_lowercase, trim, trimmed};

verus! {

/// Whether a setting, without outer white space and in lower case, switches
/// something off.
pub open spec fn switches_off(value: Seq<char>) -> bool {
    let v = ascii_lowercase(trimmed(value));
    v == "0"@ || v == "false"@ || v == "off"@ || v == "no"@
}

/// Whether logs go to the standard output, given the setting of
/// `AGENT_GATEWAY_LOG_STDOUT`. They do unless it switches them off.
pub fn stdout_logging_enabled(value: Option<&str>) -> (r: bool)
    ensures
        r == !(value is Some && switches_off(value->0@)),
{
    match value {
        None => true,
        Some(value) => {
            let chars = chars_of(value);
            let lower = to_ascii_lowercase(trim(chars.as_slice()));
            let text = string_of(lower.as_slice());
            let v = text.as_str();
            !(same_text(v, "0") || same_text(v, "false") || same_text(v, "off") || same_text(
                v,
                "no",
            ))
        },
    }
}

/// The endpoint that the sidecar sends traces to, given the setting of
/// `OTEL_EXPORTER_OTLP_ENDPOINT`: none where it is missing or empty.
pub fn otlp_endpoint<'a>(value: Option<&'a str>) -> (r: Option<&'a str>)
    ensures
        match r {
            Some(endpoint) => value == Some(endpoint) && endpoint@.len() > 0,
            None => value is None || value->0@.len() == 0,
        },
{
    match value {
        Some(endpoint) => if endpoint.is_empty() {
            None
        } else {
            Some(endpoint)
        },
        None => None,
    }
}

} // verus!
