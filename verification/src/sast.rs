//! The static-analysis flavour of the security-findings document, whose
//! location is always file- and line-based.

use vstd::prelude::*;

verus! {

#[derive(Debug, Clone)]
pub struct SastReport {
    pub version: String,
    pub scan: Option<SastReportScan>,
    pub vulnerabilities: Vec<SastReportVulnerability>,
    pub remediations: Vec<SastReportRemediations>,
}

#[derive(Debug, Clone)]
pub struct SastReportScan {
    pub start_time: String,
    pub end_time: String,
    pub scan_type: SastReportScanType,
    pub status: SastReportScanStatus,
    pub messages: Vec<SastReportScanMessage>,
    pub analyzer: Option<SastReportScanAnalyzer>,
    pub scanner: SastReportScanScanner,
}

#[derive(Debug, Clone)]
pub enum SastReportScanType {
    Sast,
}

#[derive(Debug, Clone)]
pub enum SastReportScanStatus {
    Success,
    Failure,
}

#[derive(Debug, Clone)]
pub struct SastReportScanMessage {
    pub level: SastReportScanMessageLevel,
    pub value: String,
}

#[derive(Debug, Clone)]
pub enum SastReportScanMessageLevel {
    Info,
    Warn,
    Fatal,
}

#[derive(Debug, Clone)]
pub struct SastReportScanAnalyzer {
    pub id: String,
    pub name: String,
    pub url: Option<String>,
    pub vendor: String,
    pub version: String,
}

#[derive(Debug, Clone)]
pub struct SastReportScanScanner {
    pub id: String,
    pub name: String,
    pub url: Option<String>,
    pub vendor: String,
    pub version: String,
}

#[derive(Debug, Clone)]
pub struct SastReportVulnerability {
    pub id: Option<String>,
    pub category: String,
    pub name: Option<String>,
    pub message: Option<String>,
    pub description: Option<String>,
    pub severity: Option<SastReportVulnerabilitySeverity>,
    pub confidence: Option<SastReportVulnerabilityConfidence>,
    pub solution: Option<String>,
    pub scanner: SastReportVulnerabilityScanner,
    pub identifiers: Vec<SastReportVulnerabilityIdentifier>,
    pub location: SastReportVulnerabilityLocation,
    pub raw_source_code_extract: Option<String>,
}

#[derive(Debug, Clone)]
pub enum SastReportVulnerabilitySeverity {
    Info,
    Unknown,
    Low,
    Medium,
    High,
    Critical,
}

#[derive(Debug, Clone)]
pub enum SastReportVulnerabilityConfidence {
    Ignore,
    Unknown,
    Experimental,
    Low,
    Medium,
    High,
    Confirmed,
}

#[derive(Debug, Clone)]
pub struct SastReportVulnerabilityScanner {
    pub id: String,
    pub name: String,
}

#[derive(Debug, Clone)]
pub struct SastReportVulnerabilityLocation {
    pub file: Option<String>,
    pub start_line: Option<usize>,
    pub end_line: Option<usize>,
    pub module: Option<String>,
    pub item: Option<String>,
    pub dependency: Option<()>,
}

#[derive(Debug, Clone)]
pub struct SastReportVulnerabilityIdentifier {
    pub identifier_type: String,
    pub name: String,
    pub value: String,
    pub url: Option<String>,
}

#[derive(Debug, Clone)]
pub struct SastReportRemediations {
}

} // verus!
