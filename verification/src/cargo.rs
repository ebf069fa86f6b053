//! The machine-readable output of the test runner and of the compiler, as
//! decoded values.  Decoding the JSON lines themselves happens outside the
//! library; the correlator and the emitters work on these shapes.
//!
//! Durations arrive from the wire as fractional seconds and are held here
//! as whole nanoseconds.

use vstd::prelude::*;
use crate::code_climate::CodeQualityReportLocation;
use crate::code_climate::CodeQualityReportPosition;
use crate::code_climate::CodeQualityReportPositions;

verus! {

/// One decoded line of the test runner's event stream.
#[derive(Debug, Clone)]
pub enum CargoMessage {
    Suite(CargoTestReportSuite),
    Test(CargoTestReportTest),
    Bench(CargoTestReportBench),
}

/// A suite-level event: the suite began, or it finished with its final
/// counts.  The upstream stream tells a passing from a failing finish, but
/// both carry the same payload and are treated alike.
#[derive(Debug, Clone)]
pub enum CargoTestReportSuite {
    Started(CargoTestReportSuiteStarted),
    Finished(CargoTestReportSuiteOkOrFailed),
}

#[derive(Debug, Clone)]
pub struct CargoTestReportSuiteStarted {
    pub test_count: usize,
}

#[derive(Debug, Clone)]
pub struct CargoTestReportSuiteOkOrFailed {
    pub passed: usize,
    pub failed: usize,
    pub allowed_fail: usize,
    pub ignored: usize,
    pub measured: usize,
    pub filtered_out: usize,
    pub exec_time_nanos: u64,
}

/// A test-level event, carrying the qualified test name.
#[derive(Debug, Clone)]
pub struct CargoTestReportTest {
    pub name: String,
    pub event: CargoTestReportTestEvent,
}

/// What happened to one test: it started, was ignored, passed or failed.
#[derive(Debug, Clone)]
pub enum CargoTestReportTestEvent {
    Started,
    Ignored,
    Passed(CargoTestReportTestOkOrFailed),
    Failed(CargoTestReportTestOkOrFailed),
}

#[derive(Debug, Clone)]
pub struct CargoTestReportTestOkOrFailed {
    pub stdout: Option<String>,
}

/// One benchmark result; carries no suite correlation.
#[derive(Debug, Clone)]
pub struct CargoTestReportBench {
    pub name: String,
    pub median_nanos: u64,
    pub deviation_nanos: u64,
}

/// One decoded line of the compiler's message stream, as emitted while
/// building tests.  Unknown message reasons decode to `Other` and are
/// tolerated silently.
#[derive(Debug, Clone)]
pub enum RustMessage {
    CompilerMessage(RustCompilerMessage),
    CompilerArtifact,
    BuildFinished,
    BuildScriptExecuted,
    Other,
}

#[derive(Debug, Clone)]
pub struct RustCompilerMessage {
    pub message: RustCompilerMessageMessage,
}

#[derive(Debug, Clone)]
pub struct RustCompilerMessageMessage {
    pub rendered: String,
    pub code: Option<RustCompilerMessageMessageCode>,
    pub level: String,
    pub message: String,
    pub spans: Vec<RustCompilerMessageMessageSpan>,
}

#[derive(Debug, Clone)]
pub struct RustCompilerMessageMessageCode {
    pub code: String,
    pub explanation: Option<String>,
}

#[derive(Debug, Clone)]
pub struct RustCompilerMessageMessageSpan {
    pub file_name: String,
    pub line_start: usize,
    pub line_end: usize,
    pub column_start: usize,
    pub column_end: usize,
}

/// The code-quality location that a compiler span maps to: the span's file,
/// with its start and end coordinates.
pub open spec fn spec_span_location(span: RustCompilerMessageMessageSpan) -> CodeQualityReportLocation {
    CodeQualityReportLocation {
        path: span.file_name,
        lines: None,
        positions: Some(
            CodeQualityReportPositions {
                begin: CodeQualityReportPosition::Coordinates {
                    line: span.line_start,
                    column: span.column_start,
                },
                end: CodeQualityReportPosition::Coordinates {
                    line: span.line_end,
                    column: span.column_end,
                },
            },
        ),
    }
}

impl RustCompilerMessageMessageSpan {
    /// Builds the code-quality report location the span denotes.
    pub fn to_location(&self) -> (r: CodeQualityReportLocation)
        ensures
            r == spec_span_location(*self),
    {
        CodeQualityReportLocation {
            path: self.file_name.clone(),
            lines: None,
            positions: Some(
                CodeQualityReportPositions {
                    begin: CodeQualityReportPosition::Coordinates {
                        line: self.line_start,
                        column: self.column_start,
                    },
                    end: CodeQualityReportPosition::Coordinates {
                        line: self.line_end,
                        column: self.column_end,
                    },
                },
            ),
        }
    }

    /// Converts the span into a code-quality report location.
    pub fn into_location(self) -> (r: CodeQualityReportLocation)
        ensures
            r == spec_span_location(self),
    {
        self.to_location()
    }
}

} // verus!
