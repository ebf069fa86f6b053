//! The linter's message stream, as decoded values.  The shapes mirror the
//! compiler's diagnostics; the code-quality mapping in [`crate::generate`]
//! consumes them.

use vstd::prelude::*;
use crate::code_climate::CodeQualityReportLocation;
use crate::code_climate::CodeQualityReportPosition;
use crate::code_climate::CodeQualityReportPositions;

verus! {

/// One decoded line of the linter's message stream.  Unknown message
/// reasons decode to `Other` and are tolerated silently.
#[derive(Debug, Clone)]
pub enum Message {
    CompilerMessage(CompilerMessage),
    CompilerArtifact,
    BuildFinished,
    BuildScriptExecuted,
    Other,
}

#[derive(Debug, Clone)]
pub struct CompilerMessage {
    pub message: CompilerMessageMessage,
}

#[derive(Debug, Clone)]
pub struct CompilerMessageMessage {
    pub rendered: String,
    pub code: Option<CompilerMessageMessageCode>,
    pub level: String,
    pub message: String,
    pub spans: Vec<CompilerMessageMessageSpan>,
}

#[derive(Debug, Clone)]
pub struct CompilerMessageMessageCode {
    pub code: String,
    pub explanation: Option<String>,
}

#[derive(Debug, Clone)]
pub struct CompilerMessageMessageSpan {
    pub file_name: String,
    pub line_start: usize,
    pub line_end: usize,
    pub column_start: usize,
    pub column_end: usize,
}

/// The code-quality location that a linter span maps to: the span's file,
/// with its start and end coordinates.
pub open spec fn spec_span_location(span: CompilerMessageMessageSpan) -> CodeQualityReportLocation {
    CodeQualityReportLocation {
        path: span.file_name,
        lines: None,
        positions: Some(
            CodeQualityReportPositions {
                begin: CodeQualityReportPosition::Coordinates {
                    line: span.line_start,
                    column: span.column_start,
                },
                end: CodeQualityReportPosition::Coordinates {
                    line: span.line_end,
                    column: span.column_end,
                },
            },
        ),
    }
}

impl CompilerMessageMessageSpan {
    /// Builds the code-quality report location the span denotes.
    pub fn to_location(&self) -> (r: CodeQualityReportLocation)
        ensures
            r == spec_span_location(*self),
    {
        CodeQualityReportLocation {
            path: self.file_name.clone(),
            lines: None,
            positions: Some(
                CodeQualityReportPositions {
                    begin: CodeQualityReportPosition::Coordinates {
                        line: self.line_start,
                        column: self.column_start,
                    },
                    end: CodeQualityReportPosition::Coordinates {
                        line: self.line_end,
                        column: self.column_end,
                    },
                },
            ),
        }
    }

    /// Converts the span into a code-quality report location.
    pub fn into_location(self) -> (r: CodeQualityReportLocation)
        ensures
            r == spec_span_location(self),
    {
        self.to_location()
    }
}

} // verus!
