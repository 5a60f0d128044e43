//! The run as a whole, without its input and output: from the file's text to
//! the request, and from what the transport gave back to the report.

use vstd::prelude::*;
use crate::error::RunError;
use crate::format::{
    duration_nanos, duration_text, render_response, report, Palette, Response,
};
use crate::json::reindented;
use crate::locate::{find_request_block, located};
use crate::parse::{no_request_reason, parse_request, parsed, RequestBlock};
use std::time::Duration;

verus! {

/// What the transport gave back for one call.
#[derive(Debug)]
pub enum Outcome {
    /// A response arrived, whatever its status.
    Answered(Response),
    /// No response could be had: the cause.
    Failed(String),
}

/// The request at line `line` of the file `content`, lines counted from 1:
/// the block that holds the line, parsed.
pub fn load_request(content: &str, line: usize) -> (r: Result<RequestBlock, RunError>)
    ensures
        match r {
            Ok(req) => located(content@, line as int) matches Some(block) && parsed(block) == Some(
                req@,
            ) && req.wf(),
            Err(e) => match located(content@, line as int) {
                None => e == RunError::NoRequestBlock(line),
                Some(block) => parsed(block) is None && (e matches RunError::ParseFailed(reason)
                    && reason@ == no_request_reason()),
            },
        },
{
    match find_request_block(content, line) {
        Ok(block) => parse_request(block.as_str()),
        Err(e) => Err(e),
    }
}

/// What a run ends with: the report of the response, whatever its status,
/// or the transport's failure.
pub fn conclude(req: &RequestBlock, outcome: &Outcome, elapsed: Duration) -> (r: Result<
    String,
    RunError,
>)
    ensures
        match *outcome {
            Outcome::Answered(resp) => r matches Ok(out) && out@ == report(
                Palette::ansi_codes(),
                req@,
                resp@,
                reindented(resp@.body),
                duration_text(duration_nanos(elapsed)),
            ),
            Outcome::Failed(cause) => r matches Err(e) && e == RunError::Transport(cause),
        },
{
    match outcome {
        Outcome::Answered(resp) => Ok(render_response(resp, req, elapsed)),
        Outcome::Failed(cause) => Err(RunError::Transport(cause.clone())),
    }
}

} // verus!
