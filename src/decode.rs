use vstd::prelude::*;

verus! {

#[verifier::external_type_specification]
#[verifier::external_body]
pub struct ExJsonValue(serde_json::Value);

/// Whether a text is one complete JSON document, as serde_json reads it.
pub uninterp spec fn is_json_text(s: Seq<char>) -> bool;

/// Relies on `serde_json::from_str::<serde_json::Value>`: it succeeds exactly
/// on the texts that hold one JSON document (surrounding whitespace allowed),
/// and whether it does depends on the text alone.
#[verifier::external_body]
fn parse_json(text: &str) -> (r: Option<serde_json::Value>)
    ensures
        r is Some <==> is_json_text(text@),
{
    serde_json::from_str::<serde_json::Value>(text).ok()
}

/// What one read from the input source amounts to.
pub enum LineOutcome {
    /// The read returned no text: the source is exhausted.
    Exhausted,
    /// The line holds no decodable request.
    Malformed,
    /// The line decoded to a request body.
    Decoded(serde_json::Value),
}

/// Whether a line read from the source carries a request.
pub open spec fn decodable(line: Seq<char>) -> bool {
    line.len() > 0 && is_json_text(line)
}

/// Decodes one line as read from the source, line terminator included. An
/// empty read means that the stream is exhausted.
pub fn decode_line(line: &str) -> (r: LineOutcome)
    ensures
        r is Exhausted <==> line@.len() == 0,
        r is Decoded <==> decodable(line@),
        r is Malformed <==> line@.len() > 0 && !is_json_text(line@),
{
    if line.is_empty() {
        LineOutcome::Exhausted
    } else {
        match parse_json(line) {
            Some(body) => LineOutcome::Decoded(body),
            None => LineOutcome::Malformed,
        }
    }
}

} // verus!
