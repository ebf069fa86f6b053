//! The versioned security-findings document: scanner identity and a list
//! of vulnerabilities, each with severity, confidence, identifiers and a
//! location variant selected by the scan type.

use vstd::prelude::*;

verus! {

#[derive(Debug, Clone)]
pub struct Report {
    pub version: String,
    pub scan: Option<Scan>,
    pub vulnerabilities: Vec<Vulnerability>,
    pub remediations: Vec<Remediation>,
    pub dependency_files: Vec<DependencyFile>,
}

#[derive(Debug, Clone)]
pub struct Scan {
    pub start_time: String,
    pub end_time: String,
    pub scan_type: ScanType,
    pub status: ScanStatus,
    pub messages: Vec<ScanMessage>,
    pub analyzer: Option<ScanAnalyzer>,
    pub scanner: ScanScanner,
}

/// Which kind of scan produced the report; it selects the location
/// variant of each vulnerability.
#[derive(Debug, Clone, Copy, PartialEq, Eq, Structural)]
pub enum ScanType {
    ClusterImageScanning,
    ContainerScanning,
    CoverageFuzzing,
    Dast,
    ApiFuzzing,
    DependencyScanning,
    Sast,
    SecretDetection,
}

#[derive(Debug, Clone)]
pub enum ScanStatus {
    Success,
    Failure,
}

#[derive(Debug, Clone)]
pub struct ScanMessage {
    pub level: ScanMessageLevel,
    pub value: String,
}

#[derive(Debug, Clone)]
pub enum ScanMessageLevel {
    Info,
    Warn,
    Fatal,
}

#[derive(Debug, Clone)]
pub struct ScanAnalyzer {
    pub id: String,
    pub name: String,
    pub url: Option<String>,
    pub vendor: String,
    pub version: String,
}

#[derive(Debug, Clone)]
pub struct ScanScanner {
    pub id: String,
    pub name: String,
    pub url: Option<String>,
    pub vendor: String,
    pub version: String,
}

/// One finding of the report.
#[derive(Debug, Clone)]
pub struct Vulnerability {
    pub id: Option<String>,
    pub category: String,
    pub name: Option<String>,
    pub message: Option<String>,
    pub description: Option<String>,
    pub severity: Option<VulnerabilitySeverity>,
    pub confidence: Option<VulnerabilityConfidence>,
    pub solution: Option<String>,
    pub scanner: VulnerabilityScanner,
    pub identifiers: Vec<VulnerabilityIdentifier>,
    pub links: Vec<String>,
    pub location: VulnerabilityLocation,
    pub raw_source_code_extract: Option<String>,
}

/// Severities, ordered from informational to critical.
#[derive(Debug, Clone, PartialEq, Eq, Structural)]
pub enum VulnerabilitySeverity {
    Info,
    Unknown,
    Low,
    Medium,
    High,
    Critical,
}

#[derive(Debug, Clone, PartialEq, Eq, Structural)]
pub enum VulnerabilityConfidence {
    Ignore,
    Unknown,
    Experimental,
    Low,
    Medium,
    High,
    Confirmed,
}

#[derive(Debug, Clone)]
pub struct VulnerabilityScanner {
    pub id: String,
    pub name: String,
}

/// Where a finding lives: the variant must match the scan type of the
/// surrounding report.
#[derive(Debug, Clone)]
pub enum VulnerabilityLocation {
    ClusterImageScanning {
        dependency: VulnerabilityLocationDependency,
        operating_system: String,
        image: String,
        kubernetes_resource: VulnerabilityLocationClusterImageScanningKubernetesResource,
    },
    ContainerScanning {
        dependency: VulnerabilityLocationDependency,
        operating_system: String,
        image: String,
    },
    CoverageFuzzing {
        crash_address: Option<String>,
        stacktrace_snippet: Option<String>,
        crash_state: Option<String>,
        crash_type: Option<String>,
    },
    DependencyScanning {
        file: Option<String>,
        dependency: VulnerabilityLocationDependency,
    },
    Sast {
        file: Option<String>,
        start_line: Option<usize>,
        end_line: Option<usize>,
        module: Option<String>,
        item: Option<String>,
    },
    SecretDetection {
        file: Option<String>,
        commit: VulnerabilityLocationSecretDetectionCommit,
        start_line: Option<usize>,
        end_line: Option<usize>,
        module: Option<String>,
        item: Option<String>,
    },
}

/// The location variant used when nothing more precise is known: an
/// analysis location with every field absent.
pub open spec fn spec_default_location() -> VulnerabilityLocation {
    VulnerabilityLocation::Sast {
        file: None,
        start_line: None,
        end_line: None,
        module: None,
        item: None,
    }
}

impl Default for VulnerabilityLocation {
    /// Returns the empty analysis location.
    fn default() -> (r: Self)
        ensures
            r == spec_default_location(),
    {
        VulnerabilityLocation::Sast {
            file: None,
            start_line: None,
            end_line: None,
            module: None,
            item: None,
        }
    }
}

#[derive(Debug, Clone)]
pub struct VulnerabilityLocationDependency {
    pub package: Option<VulnerabilityLocationDependencyPackage>,
    pub version: Option<String>,
    pub iid: Option<usize>,
    pub direct: Option<bool>,
    pub dependency_path: Vec<VulnerabilityLocationDependencyPath>,
}

#[derive(Debug, Clone)]
pub struct VulnerabilityLocationDependencyPackage {
    pub name: String,
}

#[derive(Debug, Clone)]
pub struct VulnerabilityLocationDependencyPath {
    pub iid: usize,
}

#[derive(Debug, Clone)]
pub struct VulnerabilityLocationClusterImageScanningKubernetesResource {
    pub namespace: String,
    pub kind: String,
    pub name: String,
    pub container_name: String,
    pub agent_id: Option<String>,
    pub cluster_id: Option<String>,
}

#[derive(Debug, Clone)]
pub struct VulnerabilityLocationSecretDetectionCommit {
    pub author: Option<String>,
    pub date: Option<String>,
    pub message: Option<String>,
    pub sha: Option<String>,
}

#[derive(Debug, Clone)]
pub struct VulnerabilityIdentifier {
    pub identifier_type: String,
    pub name: String,
    pub value: String,
    pub url: Option<String>,
}

#[derive(Debug, Clone)]
pub struct Remediation {
    pub fixes: Vec<RemediationFix>,
    pub summary: String,
    pub diff: String,
}

#[derive(Debug, Clone)]
pub struct RemediationFix {
    pub cve: String,
}

#[derive(Debug, Clone)]
pub struct DependencyFile {
    pub path: String,
    pub package_manager: String,
    pub dependencies: Vec<VulnerabilityLocationDependency>,
}

} // verus!
