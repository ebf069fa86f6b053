//! The structured audit report: the advisory database summary, the found
//! vulnerabilities and the warnings, as decoded values.  Warning groups are
//! held as a list of pairs in the order they were decoded.

use vstd::prelude::*;

verus! {

#[derive(Debug, Clone)]
pub struct Report {
    pub database: Database,
    pub lockfile: Lockfile,
    pub settings: Settings,
    pub vulnerabilities: SettingsVulnerabilities,
    pub warnings: Vec<(String, Vec<Issue>)>,
}

#[derive(Debug, Clone)]
pub struct Database {
    pub advisory_count: usize,
    pub last_commit: String,
    pub last_updated: String,
}

#[derive(Debug, Clone)]
pub struct Lockfile {
    pub dependency_count: usize,
}

#[derive(Debug, Clone)]
pub struct Settings {
    pub target_arch: Option<String>,
    pub target_os: Option<String>,
    pub severity: Option<String>,
    pub ignore: Vec<String>,
    pub informational_warnings: Vec<String>,
    pub package_scope: Option<String>,
}

#[derive(Debug, Clone)]
pub struct SettingsVulnerabilities {
    pub found: bool,
    pub count: usize,
    pub list: Vec<Issue>,
}

/// One vulnerability or warning.  A warning-only issue has a `kind` and no
/// `advisory`; a vulnerability has an `advisory`.
#[derive(Debug, Clone)]
pub struct Issue {
    pub kind: Option<String>,
    pub advisory: Option<IssueAdvisory>,
    pub versions: Option<IssueVersions>,
    pub affected: Option<IssueAffected>,
    pub package: IssuePackage,
}

#[derive(Debug, Clone)]
pub struct IssueAdvisory {
    pub id: String,
    pub package: String,
    pub title: String,
    pub description: String,
    pub date: String,
    pub aliases: Vec<String>,
    pub related: Vec<String>,
    pub collection: String,
    pub categories: Vec<String>,
    pub keywords: Vec<String>,
    pub cvss: Option<String>,
    pub informational: Option<String>,
    pub url: String,
    pub references: Vec<String>,
    pub withdrawn: Option<String>,
}

#[derive(Debug, Clone)]
pub struct IssueVersions {
    pub patched: Vec<String>,
    pub unaffected: Vec<String>,
}

#[derive(Debug, Clone)]
pub struct IssueAffected {
    pub arch: Vec<String>,
    pub os: Vec<String>,
    pub functions: Vec<(String, Vec<String>)>,
}

#[derive(Debug, Clone)]
pub struct IssuePackage {
    pub name: String,
    pub version: String,
    pub source: String,
    pub checksum: String,
    pub dependencies: Vec<IssuePackageDependency>,
    pub replace: Option<String>,
}

#[derive(Debug, Clone)]
pub struct IssuePackageDependency {
    pub name: String,
    pub version: String,
    pub source: Option<String>,
}

} // verus!
