//! The error taxonomy of the pipeline.  Every failure is terminal for the
//! single-pass run: there is no retry anywhere.

use vstd::prelude::*;

verus! {

/// Why a run was abandoned.
///
/// - `MalformedEvent`: one input line does not match any known event shape.
/// - `UnmatchedEvent`: a finish or ignore event has no corresponding pending
///   start, or a suite event arrives with no suite open.
/// - `MalformedRecord`: a plaintext record lacks a required field.
/// - `IOFailure`: a stream could not be opened, read or written.
#[derive(Debug, Clone)]
pub enum ReportError {
    MalformedEvent { line: String, detail: String },
    UnmatchedEvent { name: String },
    MalformedRecord { detail: String },
    IOFailure { detail: String },
}

/// What `ReportError::message` returns: a prefix naming the failure kind,
/// followed by the offending context.
pub open spec fn spec_error_message(e: ReportError) -> Seq<char> {
    match e {
        ReportError::MalformedEvent { line, detail } => "malformed event: "@ + detail@ + " in line: "@
            + line@,
        ReportError::UnmatchedEvent { name } => "unmatched event: "@ + name@,
        ReportError::MalformedRecord { detail } => "malformed record: "@ + detail@,
        ReportError::IOFailure { detail } => "i/o failure: "@ + detail@,
    }
}

impl ReportError {
    /// A human-readable description, with enough context to diagnose the
    /// offending line or record.
    pub fn message(&self) -> (r: String)
        ensures
            r@ == spec_error_message(*self),
    {
        match self {
            ReportError::MalformedEvent { line, detail } => {
                let mut r = String::new();
                r.append("malformed event: ");
                r.append(detail.as_str());
                r.append(" in line: ");
                r.append(line.as_str());
                assert(r@ =~= spec_error_message(*self));
                r
            },
            ReportError::UnmatchedEvent { name } => {
                let mut r = String::new();
                r.append("unmatched event: ");
                r.append(name.as_str());
                assert(r@ =~= spec_error_message(*self));
                r
            },
            ReportError::MalformedRecord { detail } => {
                let mut r = String::new();
                r.append("malformed record: ");
                r.append(detail.as_str());
                assert(r@ =~= spec_error_message(*self));
                r
            },
            ReportError::IOFailure { detail } => {
                let mut r = String::new();
                r.append("i/o failure: ");
                r.append(detail.as_str());
                assert(r@ =~= spec_error_message(*self));
                r
            },
        }
    }
}

} // verus!
