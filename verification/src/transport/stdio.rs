//! The line handling of the STDIO transport: one JSON-RPC message per line.
use vstd::prelude::*;
use crate::protocol::{JsonRpcResponse, PARSE_ERROR, ResponseModel, error_model};
use crate::text::{concat, trim, trim_spec};

verus! {

/// What to do with one line of input.
#[derive(Debug)]
pub enum LineAction {
    /// A blank line: skip it.
    Skip,
    /// Parse this text (the line without surrounding white space) as a
    /// message.
    Parse(String),
}

/// Classifies a line: blank lines are skipped, others are parsed without
/// their surrounding white space.
pub fn classify_line(line: &str) -> (r: LineAction)
    ensures
        trim_spec(line@).len() == 0 ==> r is Skip,
        trim_spec(line@).len() > 0 ==> (r matches LineAction::Parse(t) && t@ == trim_spec(line@)),
{
    let t = trim(line);
    if t.as_str().is_empty() {
        LineAction::Skip
    } else {
        LineAction::Parse(t)
    }
}

/// The response to a line that is not a JSON-RPC request.
pub fn parse_error_response(detail: &str) -> (r: JsonRpcResponse)
    ensures
        r@ == error_model(None, PARSE_ERROR, "Parse error: "@ + detail@, None),
{
    JsonRpcResponse::error(None, PARSE_ERROR, concat("Parse error: ", detail), None)
}

} // verus!
