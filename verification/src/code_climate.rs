//! The code-quality report vocabulary: an array of issue objects with a
//! check identifier, a description, categories, a location and an optional
//! stable fingerprint.

use vstd::prelude::*;

verus! {

#[derive(Debug, Clone)]
pub struct CodeQualityReport(pub Vec<CodeQualityReportIssue>);

/// One issue of the code-quality report.  `issue_type` is always the word
/// for an issue in the target vocabulary.
#[derive(Debug, Clone)]
pub struct CodeQualityReportIssue {
    pub issue_type: String,
    pub check_name: String,
    pub description: String,
    pub content: Option<String>,
    pub categories: Vec<CodeQualityReportIssueCategory>,
    pub location: CodeQualityReportLocation,
    pub other_locations: Option<Vec<CodeQualityReportLocation>>,
    pub remediation_points: Option<usize>,
    pub severity: Option<CodeQualityReportIssueSeverity>,
    pub fingerprint: Option<String>,
}

#[derive(Debug, Clone)]
pub enum CodeQualityReportIssueCategory {
    BugRisk,
    Clarity,
    Compatibility,
    Complexity,
    Duplication,
    Performance,
    Security,
    Style,
}

/// Issue severities, ordered from informational to blocking.
#[derive(Debug, Clone)]
pub enum CodeQualityReportIssueSeverity {
    Info,
    Minor,
    Major,
    Critical,
    Blocker,
}

#[derive(Debug, Clone)]
pub struct CodeQualityReportLocation {
    pub path: String,
    pub lines: Option<CodeQualityReportLines>,
    pub positions: Option<CodeQualityReportPositions>,
}

#[derive(Debug, Clone)]
pub struct CodeQualityReportLines {
    pub begin: usize,
    pub end: usize,
}

#[derive(Debug, Clone)]
pub struct CodeQualityReportPositions {
    pub begin: CodeQualityReportPosition,
    pub end: CodeQualityReportPosition,
}

/// A position is either a line/column coordinate pair or a byte offset.
#[derive(Debug, Clone)]
pub enum CodeQualityReportPosition {
    Coordinates { line: usize, column: usize },
    Offset { offset: usize },
}

} // verus!
