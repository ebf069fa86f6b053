//! The stateless mappings from decoded tool output to the target report
//! vocabularies, and the report generators built on them.
//!
//! Severity policy: a compiler error maps to a major finding and a warning
//! to a minor one; an audit record with a structured advisory maps to a
//! medium finding named by the advisory identifier, one without to a high
//! finding named by package and version; dependency-usage records are
//! informational, and a package that both forbids unchecked code and shows
//! none is suppressed entirely.

use vstd::prelude::*;
use crate::audit;
use crate::cargo::CargoMessage;
use crate::cargo::CargoTestReportSuite;
use crate::cargo::CargoTestReportSuiteOkOrFailed;
use crate::clippy;
use crate::code_climate::CodeQualityReportIssue;
use crate::code_climate::CodeQualityReportIssueCategory;
use crate::code_climate::CodeQualityReportIssueSeverity;
use crate::code_climate::CodeQualityReportLocation;
use crate::correlate::TestRun;
use crate::correlate::correlate;
use crate::correlate::run_stream;
use crate::correlate::stream_monotone;
use crate::errors::ReportError;
use crate::fingerprint::fingerprint;
use crate::fingerprint::spec_fingerprint;
use crate::junit;
use crate::textfmt::dec_u64;
use crate::textfmt::nanos_as_seconds;
use crate::textfmt::spec_dec;
use crate::textfmt::spec_nanos_as_seconds;
use crate::textfmt::str_eq;
use crate::timestamp::format_timestamp;
use crate::timestamp::timestamp_text_of;
use crate::geiger;
use crate::gitlab_security_report::Report;
use crate::gitlab_security_report::ScanType;
use crate::gitlab_security_report::Vulnerability;
use crate::gitlab_security_report::VulnerabilityConfidence;
use crate::gitlab_security_report::VulnerabilityIdentifier;
use crate::gitlab_security_report::VulnerabilityLocation;
use crate::gitlab_security_report::VulnerabilityLocationDependency;
use crate::gitlab_security_report::VulnerabilityLocationDependencyPackage;
use crate::gitlab_security_report::VulnerabilityScanner;
use crate::gitlab_security_report::VulnerabilitySeverity;
use crate::plaintext::RecordModel;
use crate::plaintext::VulnerabilityRecord;
use crate::plaintext::opt_view;
use crate::plaintext::scan_records;
use crate::plaintext::spec_scan;

verus! {

/// Where a dependency finding points: for a dependency scan, at the
/// package and version; for a static-analysis scan, at an empty location.
pub open spec fn dependency_location_matches(
    loc: VulnerabilityLocation,
    name: Seq<char>,
    version: Seq<char>,
    ty: ScanType,
) -> bool {
    if ty is DependencyScanning {
        &&& loc matches VulnerabilityLocation::DependencyScanning { file, dependency }
        &&& file is None
        &&& dependency.package matches Some(p) && p.name@ == name
        &&& dependency.version matches Some(v) && v@ == version
        &&& dependency.iid is None
        &&& dependency.direct is None
        &&& dependency.dependency_path@.len() == 0
    } else {
        loc == crate::gitlab_security_report::spec_default_location()
    }
}

/// Builds the location for a dependency finding.
fn dependency_location(name: &String, version: &String, ty: ScanType) -> (loc:
    VulnerabilityLocation)
    requires
        ty is DependencyScanning || ty is Sast,
    ensures
        dependency_location_matches(loc, name@, version@, ty),
{
    match ty {
        ScanType::DependencyScanning => VulnerabilityLocation::DependencyScanning {
            file: None,
            dependency: VulnerabilityLocationDependency {
                package: Some(VulnerabilityLocationDependencyPackage { name: name.clone() }),
                version: Some(version.clone()),
                iid: None,
                direct: None,
                dependency_path: Vec::new(),
            },
        },
        _ => VulnerabilityLocation::Sast {
            file: None,
            start_line: None,
            end_line: None,
            module: None,
            item: None,
        },
    }
}

/// The empty scanner identity a bare mapping leaves behind; the report
/// generators overwrite it with the producing tool's identity.
pub open spec fn scanner_empty(v: Vulnerability) -> bool {
    v.scanner.id@ == Seq::<char>::empty() && v.scanner.name@ == Seq::<char>::empty()
}

/// What the audit-issue mapping produces, except for the scanner
/// identity.  An issue with a structured advisory becomes a medium
/// finding named and described by the advisory, with one advisory
/// identifier; one without becomes a high finding named by package and
/// version, with no identifiers.
pub open spec fn vuln_from_issue(v: Vulnerability, issue: audit::Issue, ty: ScanType) -> bool {
    &&& v.id is None
    &&& v.category@ == "Dependency Scanning"@
    &&& match issue.advisory {
        Some(adv) => {
            &&& v.severity == Some(VulnerabilitySeverity::Medium)
            &&& v.name matches Some(n) && n@ == adv.id@
            &&& v.message matches Some(m) && m@ == adv.title@
            &&& v.description matches Some(d) && d@ == adv.description@
            &&& v.identifiers@.len() == 1
            &&& v.identifiers@[0].identifier_type@ == "RUSTSEC Advisory"@
            &&& v.identifiers@[0].name@ == adv.id@
            &&& v.identifiers@[0].value@ == adv.id@
            &&& v.identifiers@[0].url matches Some(u) && u@ == adv.url@
        },
        None => {
            &&& v.severity == Some(VulnerabilitySeverity::High)
            &&& v.name matches Some(n) && n@ == issue.package.name@ + "@"@
                + issue.package.version@
            &&& v.message matches Some(m) && m@ == (match issue.kind {
                Some(k) => k@,
                None => "unknown"@,
            }) + ": "@ + issue.package.name@
            &&& v.description matches Some(d) && d@ == Seq::<char>::empty()
            &&& v.identifiers@.len() == 0
        },
    }
    &&& v.confidence == Some(VulnerabilityConfidence::Confirmed)
    &&& v.solution is None
    &&& v.links@.len() == 0
    &&& dependency_location_matches(v.location, issue.package.name@, issue.package.version@, ty)
    &&& v.raw_source_code_extract is None
}

/// Maps one audit issue to a finding, leaving the scanner identity empty
/// for the caller to fill in.
pub fn audit_issue_to_gitlab_vuln(issue: &audit::Issue, ty: ScanType) -> (v: Vulnerability)
    requires
        ty is DependencyScanning || ty is Sast,
    ensures
        vuln_from_issue(v, *issue, ty),
        scanner_empty(v),
{
    let location = dependency_location(&issue.package.name, &issue.package.version, ty);
    let (severity, name, message, description, identifiers): (
        VulnerabilitySeverity,
        String,
        String,
        String,
        Vec<VulnerabilityIdentifier>,
    ) = match &issue.advisory {
        Some(advisory) => {
            let mut identifiers: Vec<VulnerabilityIdentifier> = Vec::new();
            identifiers.push(
                VulnerabilityIdentifier {
                    identifier_type: {
                        let mut t = String::new();
                        t.append("RUSTSEC Advisory");
                        t
                    },
                    name: advisory.id.clone(),
                    value: advisory.id.clone(),
                    url: Some(advisory.url.clone()),
                },
            );
            (
                VulnerabilitySeverity::Medium,
                advisory.id.clone(),
                advisory.title.clone(),
                advisory.description.clone(),
                identifiers,
            )
        },
        None => {
            let mut name = issue.package.name.clone();
            name.append("@");
            name.append(issue.package.version.as_str());
            let mut message = match &issue.kind {
                Some(k) => k.clone(),
                None => {
                    let mut u = String::new();
                    u.append("unknown");
                    u
                },
            };
            message.append(": ");
            message.append(issue.package.name.as_str());
            (VulnerabilitySeverity::High, name, message, String::new(), Vec::new())
        },
    };
    let v = Vulnerability {
        id: None,
        category: {
            let mut c = String::new();
            c.append("Dependency Scanning");
            c
        },
        name: Some(name),
        message: Some(message),
        description: Some(description),
        severity: Some(severity),
        confidence: Some(VulnerabilityConfidence::Confirmed),
        solution: None,
        scanner: VulnerabilityScanner { id: String::new(), name: String::new() },
        identifiers,
        links: Vec::new(),
        location,
        raw_source_code_extract: None,
    };
    v
}

/// The audit tool's scanner identity.
pub open spec fn scanner_is_cargo_audit(v: Vulnerability) -> bool {
    v.scanner.id@ == "cargo_audit"@ && v.scanner.name@ == "Cargo Audit"@
}

fn cargo_audit_scanner() -> (s: VulnerabilityScanner)
    ensures
        s.id@ == "cargo_audit"@,
        s.name@ == "Cargo Audit"@,
{
    let mut id = String::new();
    id.append("cargo_audit");
    let mut name = String::new();
    name.append("Cargo Audit");
    VulnerabilityScanner { id, name }
}

/// The issues of an audit report in emission order: the found
/// vulnerabilities first, then every warning group's issues, groups in
/// report order.
pub open spec fn warn_issues(ws: Seq<(String, Vec<audit::Issue>)>) -> Seq<audit::Issue>
    decreases ws.len(),
{
    if ws.len() == 0 {
        Seq::empty()
    } else {
        warn_issues(ws.drop_last()) + ws.last().1@
    }
}

pub open spec fn flat_issues(report: audit::Report) -> Seq<audit::Issue> {
    report.vulnerabilities.list@ + warn_issues(report.warnings@)
}

/// An empty versioned report shell.
pub open spec fn report_shell(r: Report) -> bool {
    &&& r.version@ == "2.0"@
    &&& r.scan is None
    &&& r.remediations@.len() == 0
    &&& r.dependency_files@.len() == 0
}

/// Maps a whole structured audit report: one finding per vulnerability
/// and per warning, in report order, all under the audit tool's scanner
/// identity.
pub fn audit_to_gitlab_security_report(format: ScanType, audit_report: &audit::Report) -> (r:
    Report)
    requires
        format is DependencyScanning || format is Sast,
    ensures
        report_shell(r),
        r.vulnerabilities@.len() == flat_issues(*audit_report).len(),
        forall|i: int|
            0 <= i < r.vulnerabilities@.len() ==> vuln_from_issue(
                #[trigger] r.vulnerabilities@[i],
                flat_issues(*audit_report)[i],
                format,
            ) && scanner_is_cargo_audit(r.vulnerabilities@[i]),
{
    let mut vulnerabilities: Vec<Vulnerability> = Vec::new();
    let list = &audit_report.vulnerabilities.list;
    let mut i: usize = 0;
    while i < list.len()
        invariant
            i <= list@.len(),
            format is DependencyScanning || format is Sast,
            vulnerabilities@.len() == i,
            forall|k: int|
                0 <= k < i ==> vuln_from_issue(
                    #[trigger] vulnerabilities@[k],
                    list@[k],
                    format,
                ) && scanner_is_cargo_audit(vulnerabilities@[k]),
        decreases list@.len() - i,
    {
        let mut v = audit_issue_to_gitlab_vuln(&list[i], format);
        v.scanner = cargo_audit_scanner();
        vulnerabilities.push(v);
        i = i + 1;
    }
    let ghost list_len = list@.len() as int;
    let warnings = &audit_report.warnings;
    let mut g: usize = 0;
    proof {
        assert(warnings@.subrange(0, 0) =~= Seq::<(String, Vec<audit::Issue>)>::empty());
        assert(flat_issues(*audit_report).subrange(0, list_len) =~= list@);
    }
    while g < warnings.len()
        invariant
            g <= warnings@.len(),
            format is DependencyScanning || format is Sast,
            list_len == list@.len(),
            list == audit_report.vulnerabilities.list,
            warnings == audit_report.warnings,
            vulnerabilities@.len() == list_len + warn_issues(warnings@.subrange(0, g as int)).len(),
            forall|k: int|
                0 <= k < vulnerabilities@.len() ==> vuln_from_issue(
                    #[trigger] vulnerabilities@[k],
                    (list@ + warn_issues(warnings@.subrange(0, g as int)))[k],
                    format,
                ) && scanner_is_cargo_audit(vulnerabilities@[k]),
        decreases warnings@.len() - g,
    {
        let ghost done_before = warn_issues(warnings@.subrange(0, g as int));
        let group = &warnings[g].1;
        let mut j: usize = 0;
        while j < group.len()
            invariant
                j <= group@.len(),
                format is DependencyScanning || format is Sast,
                list_len == list@.len(),
                list == audit_report.vulnerabilities.list,
                group == audit_report.warnings@[g as int].1,
                vulnerabilities@.len() == list_len + done_before.len() + j,
                forall|k: int|
                    0 <= k < vulnerabilities@.len() ==> vuln_from_issue(
                        #[trigger] vulnerabilities@[k],
                        (list@ + done_before + group@.subrange(0, j as int))[k],
                        format,
                    ) && scanner_is_cargo_audit(vulnerabilities@[k]),
            decreases group@.len() - j,
        {
            let mut v = audit_issue_to_gitlab_vuln(&group[j], format);
            v.scanner = cargo_audit_scanner();
            vulnerabilities.push(v);
            proof {
                assert(group@.subrange(0, j + 1).drop_last() =~= group@.subrange(0, j as int));
                assert((list@ + done_before + group@.subrange(0, j + 1)) =~= (list@ + done_before
                    + group@.subrange(0, j as int)).push(group@[j as int]));
            }
            j = j + 1;
        }
        proof {
            assert(group@.subrange(0, group@.len() as int) =~= group@);
            assert(warnings@.subrange(0, g + 1).drop_last() =~= warnings@.subrange(0, g as int));
            assert(warnings@.subrange(0, g + 1).last() == warnings@[g as int]);
            assert(warn_issues(warnings@.subrange(0, g + 1)) =~= done_before + group@);
            assert(list@ + done_before + group@ =~= list@ + warn_issues(
                warnings@.subrange(0, g + 1),
            ));
        }
        g = g + 1;
    }
    proof {
        assert(warnings@.subrange(0, warnings@.len() as int) =~= warnings@);
        assert(list@ + warn_issues(warnings@) =~= flat_issues(*audit_report));
    }
    let r = Report {
        version: {
            let mut s = String::new();
            s.append("2.0");
            s
        },
        scan: None,
        vulnerabilities,
        remediations: Vec::new(),
        dependency_files: Vec::new(),
    };
    r
}

/// What the plaintext-record mapping produces.  A record carrying an
/// advisory identifier maps like an issue with a structured advisory,
/// one without like a warning-only issue; the record's solution text is
/// carried along as the finding's remediation.
pub open spec fn vuln_from_record(v: Vulnerability, rm: RecordModel, ty: ScanType) -> bool {
    &&& v.id is None
    &&& v.category@ == "Dependency Scanning"@
    &&& match rm.id {
        Some(id) => {
            &&& v.severity == Some(VulnerabilitySeverity::Medium)
            &&& v.name matches Some(n) && n@ == id
            &&& v.message matches Some(m) && m@ == opt_or_empty(rm.title)
            &&& v.description matches Some(d) && d@ == Seq::<char>::empty()
            &&& v.identifiers@.len() == 1
            &&& v.identifiers@[0].identifier_type@ == "RUSTSEC Advisory"@
            &&& v.identifiers@[0].name@ == id
            &&& v.identifiers@[0].value@ == id
            &&& v.identifiers@[0].url matches Some(u) && u@ == opt_or_empty(rm.url)
        },
        None => {
            &&& v.severity == Some(VulnerabilitySeverity::High)
            &&& v.name matches Some(n) && n@ == rm.package + "@"@ + rm.version
            &&& v.message matches Some(m) && m@ == (match rm.kind {
                Some(k) => k,
                None => "unknown"@,
            }) + ": "@ + rm.package
            &&& v.description matches Some(d) && d@ == Seq::<char>::empty()
            &&& v.identifiers@.len() == 0
        },
    }
    &&& v.confidence == Some(VulnerabilityConfidence::Confirmed)
    &&& (match rm.solution {
        Some(sol) => v.solution matches Some(s) && s@ == sol,
        None => v.solution is None,
    })
    &&& v.links@.len() == 0
    &&& dependency_location_matches(v.location, rm.package, rm.version, ty)
    &&& v.raw_source_code_extract is None
    &&& scanner_is_cargo_audit(v)
}

pub open spec fn opt_or_empty(o: Option<Seq<char>>) -> Seq<char> {
    match o {
        Some(s) => s,
        None => Seq::empty(),
    }
}

/// Lifts one plaintext record into the structured issue shape, so that
/// the one audit mapping serves both entry paths.
fn record_to_issue(rec: &VulnerabilityRecord) -> (issue: audit::Issue)
    ensures
        issue.kind == rec.kind,
        issue.package.name == rec.package,
        issue.package.version == rec.version,
        match rec.id {
            Some(_) => issue.advisory matches Some(adv) && adv.id@ == opt_or_empty(opt_view(rec.id))
                && adv.title@ == opt_or_empty(opt_view(rec.title)) && adv.url@ == opt_or_empty(
                opt_view(rec.url),
            ) && adv.description@ == Seq::<char>::empty(),
            None => issue.advisory is None,
        },
{
    let advisory = match &rec.id {
        Some(id) => Some(
            audit::IssueAdvisory {
                id: id.clone(),
                package: rec.package.clone(),
                title: match &rec.title {
                    Some(t) => t.clone(),
                    None => String::new(),
                },
                description: String::new(),
                date: match &rec.date {
                    Some(d) => d.clone(),
                    None => String::new(),
                },
                aliases: Vec::new(),
                related: Vec::new(),
                collection: String::new(),
                categories: Vec::new(),
                keywords: Vec::new(),
                cvss: None,
                informational: None,
                url: match &rec.url {
                    Some(u) => u.clone(),
                    None => String::new(),
                },
                references: Vec::new(),
                withdrawn: None,
            },
        ),
        None => None,
    };
    audit::Issue {
        kind: match &rec.kind {
            Some(k) => Some(k.clone()),
            None => None,
        },
        advisory,
        versions: None,
        affected: None,
        package: audit::IssuePackage {
            name: rec.package.clone(),
            version: rec.version.clone(),
            source: String::new(),
            checksum: String::new(),
            dependencies: Vec::new(),
            replace: None,
        },
    }
}

/// Scans the plaintext audit report and maps every record to a finding,
/// in record order, under the audit tool's scanner identity.  The first
/// malformed record aborts with its error.
pub fn audit_text_to_gitlab_security_report(format: ScanType, text: &str) -> (res: Result<
    Report,
    ReportError,
>)
    requires
        format is DependencyScanning || format is Sast,
    ensures
        match res {
            Result::Ok(r) => {
                &&& spec_scan(text@) matches Some(records)
                &&& report_shell(r)
                &&& r.vulnerabilities@.len() == records.len()
                &&& forall|i: int|
                    0 <= i < records.len() ==> vuln_from_record(
                        #[trigger] r.vulnerabilities@[i],
                        records[i],
                        format,
                    )
            },
            Result::Err(e) => spec_scan(text@) is None && e is MalformedRecord,
        },
{
    let records = match scan_records(text) {
        Result::Ok(v) => v,
        Result::Err(e) => {
            return Err(e);
        },
    };
    let ghost records_model = spec_scan(text@)->Some_0;
    let mut vulnerabilities: Vec<Vulnerability> = Vec::new();
    let mut i: usize = 0;
    while i < records.len()
        invariant
            i <= records@.len(),
            format is DependencyScanning || format is Sast,
            records_model == records@.map_values(|x: VulnerabilityRecord| x@),
            vulnerabilities@.len() == i,
            forall|k: int|
                0 <= k < i ==> vuln_from_record(
                    #[trigger] vulnerabilities@[k],
                    records_model[k],
                    format,
                ),
        decreases records@.len() - i,
    {
        let rec = &records[i];
        let issue = record_to_issue(rec);
        let mut v = audit_issue_to_gitlab_vuln(&issue, format);
        v.scanner = cargo_audit_scanner();
        v.solution = match &rec.solution {
            Some(s) => Some(s.clone()),
            None => None,
        };
        vulnerabilities.push(v);
        proof {
            assert(records_model[i as int] == rec@);
            assert(vuln_from_record(vulnerabilities@.last(), records_model[i as int], format));
        }
        i = i + 1;
    }
    let r = Report {
        version: {
            let mut s = String::new();
            s.append("2.0");
            s
        },
        scan: None,
        vulnerabilities,
        remediations: Vec::new(),
        dependency_files: Vec::new(),
    };
    Ok(r)
}

/// The unchecked-code uses a counts block reports, summed over its five
/// kinds.
pub open spec fn counts_sum(c: geiger::PackageUnsafetyCounts) -> int {
    c.functions.unsafe_ + c.exprs.unsafe_ + c.item_impls.unsafe_ + c.item_traits.unsafe_
        + c.methods.unsafe_
}

/// All unchecked-code uses a package reports, reached by the build or
/// not.
pub open spec fn total_unsafe(p: geiger::Package) -> int {
    counts_sum(p.unsafety.used) + counts_sum(p.unsafety.unused)
}

/// Whether a dependency-usage record is emitted at all: a package that
/// both declares it forbids unchecked code and shows none is suppressed
/// entirely; every other package is reported, never suppressed.
pub open spec fn geiger_included(p: geiger::Package) -> bool {
    !(p.unsafety.forbids_unsafe && total_unsafe(p) == 0)
}

/// The finding message for a package: its total count of unchecked-code
/// uses and how many the build reaches.
pub open spec fn geiger_message(p: geiger::Package) -> Seq<char> {
    "Found "@ + crate::textfmt::spec_dec(total_unsafe(p) as nat) + " `unsafe` usages in package `"@
        + p.package.id.name@ + "` ("@ + crate::textfmt::spec_dec(
        counts_sum(p.unsafety.used) as nat,
    ) + " used by the build)"@
}

/// The finding description for a package: one line per kind, each with
/// the used and unused counts.
pub open spec fn geiger_description(p: geiger::Package) -> Seq<char> {
    "Cargo Geiger Report for package `"@ + p.package.id.name@ + "`:\n"@ + "Functions: "@
        + crate::textfmt::spec_dec(p.unsafety.used.functions.unsafe_ as nat) + "/"@
        + crate::textfmt::spec_dec(p.unsafety.unused.functions.unsafe_ as nat) + "\n"@
        + "Expressions: "@ + crate::textfmt::spec_dec(p.unsafety.used.exprs.unsafe_ as nat) + "/"@
        + crate::textfmt::spec_dec(p.unsafety.unused.exprs.unsafe_ as nat) + "\n"@ + "Impls: "@
        + crate::textfmt::spec_dec(p.unsafety.used.item_impls.unsafe_ as nat) + "/"@
        + crate::textfmt::spec_dec(p.unsafety.unused.item_impls.unsafe_ as nat) + "\n"@
        + "Traits: "@ + crate::textfmt::spec_dec(p.unsafety.used.item_traits.unsafe_ as nat) + "/"@
        + crate::textfmt::spec_dec(p.unsafety.unused.item_traits.unsafe_ as nat) + "\n"@
        + "Methods:  "@ + crate::textfmt::spec_dec(p.unsafety.used.methods.unsafe_ as nat) + "/"@
        + crate::textfmt::spec_dec(p.unsafety.unused.methods.unsafe_ as nat) + "\n"@
}

/// What the dependency-usage mapping produces, except for the scanner
/// identity: an informational finding naming the package and counting its
/// unchecked-code uses.
pub open spec fn vuln_from_package(v: Vulnerability, p: geiger::Package, ty: ScanType) -> bool {
    &&& v.id is None
    &&& v.category@ == "Dependency Scanning"@
    &&& v.severity == Some(VulnerabilitySeverity::Info)
    &&& v.name matches Some(n) && n@ == "Unsafe usage in package `"@ + p.package.id.name@ + "`"@
    &&& v.message matches Some(m) && m@ == geiger_message(p)
    &&& v.description matches Some(d) && d@ == geiger_description(p)
    &&& v.confidence == Some(VulnerabilityConfidence::Ignore)
    &&& v.solution is None
    &&& v.identifiers@.len() == 0
    &&& v.links@.len() == 0
    &&& dependency_location_matches(v.location, p.package.id.name@, p.package.id.version@, ty)
    &&& v.raw_source_code_extract is None
}

/// Maps one dependency-usage package to a finding, leaving the scanner
/// identity empty for the caller to fill in.
pub fn geiger_package_to_gitlab_vuln(package: &geiger::Package, ty: ScanType) -> (v: Vulnerability)
    requires
        ty is DependencyScanning || ty is Sast,
        total_unsafe(*package) <= u64::MAX,
    ensures
        vuln_from_package(v, *package, ty),
        scanner_empty(v),
{
    let u = &package.unsafety;
    let unsafe_used: u64 = u.used.functions.unsafe_ as u64 + u.used.exprs.unsafe_ as u64
        + u.used.item_impls.unsafe_ as u64 + u.used.item_traits.unsafe_ as u64
        + u.used.methods.unsafe_ as u64;
    let unsafe_unused: u64 = u.unused.functions.unsafe_ as u64 + u.unused.exprs.unsafe_ as u64
        + u.unused.item_impls.unsafe_ as u64 + u.unused.item_traits.unsafe_ as u64
        + u.unused.methods.unsafe_ as u64;
    let location = dependency_location(&package.package.id.name, &package.package.id.version, ty);
    let mut name = String::new();
    name.append("Unsafe usage in package `");
    name.append(package.package.id.name.as_str());
    name.append("`");
    let mut message = String::new();
    message.append("Found ");
    let t = crate::textfmt::dec_u64(unsafe_used + unsafe_unused);
    message.append(t.as_str());
    message.append(" `unsafe` usages in package `");
    message.append(package.package.id.name.as_str());
    message.append("` (");
    let t = crate::textfmt::dec_u64(unsafe_used);
    message.append(t.as_str());
    message.append(" used by the build)");
    assert(message@ =~= geiger_message(*package));
    let mut description = String::new();
    description.append("Cargo Geiger Report for package `");
    description.append(package.package.id.name.as_str());
    description.append("`:\n");
    description.append("Functions: ");
    let t = crate::textfmt::dec_u64(u.used.functions.unsafe_ as u64);
    description.append(t.as_str());
    description.append("/");
    let t = crate::textfmt::dec_u64(u.unused.functions.unsafe_ as u64);
    description.append(t.as_str());
    description.append("\n");
    description.append("Expressions: ");
    let t = crate::textfmt::dec_u64(u.used.exprs.unsafe_ as u64);
    description.append(t.as_str());
    description.append("/");
    let t = crate::textfmt::dec_u64(u.unused.exprs.unsafe_ as u64);
    description.append(t.as_str());
    description.append("\n");
    description.append("Impls: ");
    let t = crate::textfmt::dec_u64(u.used.item_impls.unsafe_ as u64);
    description.append(t.as_str());
    description.append("/");
    let t = crate::textfmt::dec_u64(u.unused.item_impls.unsafe_ as u64);
    description.append(t.as_str());
    description.append("\n");
    description.append("Traits: ");
    let t = crate::textfmt::dec_u64(u.used.item_traits.unsafe_ as u64);
    description.append(t.as_str());
    description.append("/");
    let t = crate::textfmt::dec_u64(u.unused.item_traits.unsafe_ as u64);
    description.append(t.as_str());
    description.append("\n");
    description.append("Methods:  ");
    let t = crate::textfmt::dec_u64(u.used.methods.unsafe_ as u64);
    description.append(t.as_str());
    description.append("/");
    let t = crate::textfmt::dec_u64(u.unused.methods.unsafe_ as u64);
    description.append(t.as_str());
    description.append("\n");
    assert(description@ =~= geiger_description(*package));
    Vulnerability {
        id: None,
        category: {
            let mut c = String::new();
            c.append("Dependency Scanning");
            c
        },
        name: Some(name),
        message: Some(message),
        description: Some(description),
        severity: Some(VulnerabilitySeverity::Info),
        confidence: Some(VulnerabilityConfidence::Ignore),
        solution: None,
        scanner: VulnerabilityScanner { id: String::new(), name: String::new() },
        identifiers: Vec::new(),
        links: Vec::new(),
        location,
        raw_source_code_extract: None,
    }
}

/// The dependency-usage tool's scanner identity.
pub open spec fn scanner_is_cargo_geiger(v: Vulnerability) -> bool {
    v.scanner.id@ == "cargo_geiger"@ && v.scanner.name@ == "Cargo Geiger"@
}

/// The findings that a sequence of packages maps to, in order: one per
/// package that is not suppressed.
pub open spec fn geiger_vulns_match(
    pkgs: Seq<geiger::Package>,
    vs: Seq<Vulnerability>,
    ty: ScanType,
) -> bool
    decreases pkgs.len(),
{
    if pkgs.len() == 0 {
        vs.len() == 0
    } else if geiger_included(pkgs.last()) {
        &&& vs.len() > 0
        &&& geiger_vulns_match(pkgs.drop_last(), vs.drop_last(), ty)
        &&& vuln_from_package(vs.last(), pkgs.last(), ty)
        &&& scanner_is_cargo_geiger(vs.last())
    } else {
        geiger_vulns_match(pkgs.drop_last(), vs, ty)
    }
}

/// Maps a whole dependency-usage report: one informational finding per
/// package, in report order, under the usage tool's scanner identity;
/// packages that forbid unchecked code and show none are suppressed.
pub fn geiger_to_gitlab_security_report(format: ScanType, geiger_report: &geiger::Report) -> (r:
    Report)
    requires
        format is DependencyScanning || format is Sast,
        forall|i: int|
            0 <= i < geiger_report.packages@.len() ==> total_unsafe(
                #[trigger] geiger_report.packages@[i],
            ) <= u64::MAX,
    ensures
        report_shell(r),
        geiger_vulns_match(geiger_report.packages@, r.vulnerabilities@, format),
{
    let mut vulnerabilities: Vec<Vulnerability> = Vec::new();
    let pkgs = &geiger_report.packages;
    let mut i: usize = 0;
    proof {
        assert(pkgs@.subrange(0, 0) =~= Seq::<geiger::Package>::empty());
    }
    while i < pkgs.len()
        invariant
            i <= pkgs@.len(),
            format is DependencyScanning || format is Sast,
            pkgs == geiger_report.packages,
            forall|k: int|
                0 <= k < pkgs@.len() ==> total_unsafe(#[trigger] pkgs@[k]) <= u64::MAX,
            geiger_vulns_match(pkgs@.subrange(0, i as int), vulnerabilities@, format),
        decreases pkgs@.len() - i,
    {
        let package = &pkgs[i];
        let u = &package.unsafety;
        let total: u64 = u.used.functions.unsafe_ as u64 + u.used.exprs.unsafe_ as u64
            + u.used.item_impls.unsafe_ as u64 + u.used.item_traits.unsafe_ as u64
            + u.used.methods.unsafe_ as u64 + u.unused.functions.unsafe_ as u64
            + u.unused.exprs.unsafe_ as u64 + u.unused.item_impls.unsafe_ as u64
            + u.unused.item_traits.unsafe_ as u64 + u.unused.methods.unsafe_ as u64;
        let ghost old_vs = vulnerabilities@;
        if !(package.unsafety.forbids_unsafe && total == 0) {
            let mut v = geiger_package_to_gitlab_vuln(package, format);
            v.scanner = {
                let mut id = String::new();
                id.append("cargo_geiger");
                let mut name = String::new();
                name.append("Cargo Geiger");
                VulnerabilityScanner { id, name }
            };
            vulnerabilities.push(v);
            proof {
                assert(vulnerabilities@.drop_last() =~= old_vs);
                assert(geiger_included(pkgs@[i as int]));
            }
        } else {
            proof {
                assert(!geiger_included(pkgs@[i as int]));
            }
        }
        proof {
            assert(pkgs@.subrange(0, i + 1).drop_last() =~= pkgs@.subrange(0, i as int));
            assert(pkgs@.subrange(0, i + 1).last() == pkgs@[i as int]);
        }
        i = i + 1;
    }
    proof {
        assert(pkgs@.subrange(0, pkgs@.len() as int) =~= pkgs@);
    }
    Report {
        version: {
            let mut s = String::new();
            s.append("2.0");
            s
        },
        scan: None,
        vulnerabilities,
        remediations: Vec::new(),
        dependency_files: Vec::new(),
    }
}

/// The code-quality severity a compiler level maps to: an error is major,
/// a warning minor, anything else informational.
pub open spec fn spec_level_severity(level: Seq<char>) -> CodeQualityReportIssueSeverity {
    if level == "error"@ {
        CodeQualityReportIssueSeverity::Major
    } else if level == "warning"@ {
        CodeQualityReportIssueSeverity::Minor
    } else {
        CodeQualityReportIssueSeverity::Info
    }
}

/// What the code-quality mapping produces for one linter message that
/// carries at least one span.
pub open spec fn issue_from_message(iss: CodeQualityReportIssue, v: clippy::CompilerMessage) -> bool {
    &&& iss.issue_type@ == "issue"@
    &&& v.message.code matches Some(code) && iss.check_name@ == code.code@
    &&& iss.description@ == v.message.message@
    &&& iss.content matches Some(c) && c@ == "```"@ + v.message.rendered@ + "```"@
    &&& iss.categories@.len() == 1 && iss.categories@[0] is Style
    &&& iss.location == clippy::spec_span_location(v.message.spans@[0])
    &&& if v.message.spans@.len() > 1 {
        &&& iss.other_locations matches Some(locs)
        &&& locs@.len() == v.message.spans@.len() - 1
        &&& forall|j: int|
            0 <= j < locs@.len() ==> #[trigger] locs@[j] == clippy::spec_span_location(
                v.message.spans@[j + 1],
            )
    } else {
        iss.other_locations is None
    }
    &&& iss.remediation_points is None
    &&& iss.severity == Some(spec_level_severity(v.message.level@))
    &&& iss.fingerprint matches Some(f) && f@ == spec_fingerprint(
        vstd::utf8::encode_utf8(v.message.message@),
    )
}

/// The issues that a sequence of linter messages maps to, in order: one
/// per compiler message with at least one span.
pub open spec fn issues_match(
    msgs: Seq<clippy::Message>,
    issues: Seq<CodeQualityReportIssue>,
) -> bool
    decreases msgs.len(),
{
    if msgs.len() == 0 {
        issues.len() == 0
    } else {
        match msgs.last() {
            clippy::Message::CompilerMessage(v) => if v.message.spans@.len() > 0 {
                &&& issues.len() > 0
                &&& issues_match(msgs.drop_last(), issues.drop_last())
                &&& issue_from_message(issues.last(), v)
            } else {
                issues_match(msgs.drop_last(), issues)
            },
            _ => issues_match(msgs.drop_last(), issues),
        }
    }
}

/// Whether every linter message destined for the code-quality report
/// carries a check identifier; the upstream tool always attaches one to
/// messages with spans.
pub open spec fn quality_msgs_ok(msgs: Seq<clippy::Message>) -> bool {
    forall|i: int|
        0 <= i < msgs.len() ==> match #[trigger] msgs[i] {
            clippy::Message::CompilerMessage(v) => v.message.spans@.len() > 0
                ==> v.message.code is Some,
            _ => true,
        }
}

/// Maps the linter's message stream to the code-quality issue list: one
/// issue, with severity, locations and a content fingerprint, per message
/// that carries at least one span.
pub fn clippy_to_code_quality(msgs: &Vec<clippy::Message>) -> (r: Vec<CodeQualityReportIssue>)
    requires
        quality_msgs_ok(msgs@),
    ensures
        issues_match(msgs@, r@),
{
    let mut issues: Vec<CodeQualityReportIssue> = Vec::new();
    let mut i: usize = 0;
    proof {
        assert(msgs@.subrange(0, 0) =~= Seq::<clippy::Message>::empty());
    }
    while i < msgs.len()
        invariant
            i <= msgs@.len(),
            quality_msgs_ok(msgs@),
            issues_match(msgs@.subrange(0, i as int), issues@),
        decreases msgs@.len() - i,
    {
        let ghost old_issues = issues@;
        match &msgs[i] {
            clippy::Message::CompilerMessage(v) => {
                if v.message.spans.len() > 0 {
                    let check_name = match &v.message.code {
                        Some(code) => code.code.clone(),
                        None => {
                            proof {
                                assert(false);
                            }
                            unreached()
                        },
                    };
                    let mut content = String::new();
                    content.append("```");
                    content.append(v.message.rendered.as_str());
                    content.append("```");
                    let mut categories: Vec<CodeQualityReportIssueCategory> = Vec::new();
                    categories.push(CodeQualityReportIssueCategory::Style);
                    let location = v.message.spans[0].to_location();
                    let other_locations: Option<Vec<CodeQualityReportLocation>> = if v.message.spans.len() > 1 {
                        let mut locs: Vec<CodeQualityReportLocation> = Vec::new();
                        let mut j: usize = 1;
                        while j < v.message.spans.len()
                            invariant
                                1 <= j <= v.message.spans@.len(),
                                locs@.len() == j - 1,
                                forall|k: int|
                                    0 <= k < locs@.len() ==> #[trigger] locs@[k]
                                        == clippy::spec_span_location(v.message.spans@[k + 1]),
                            decreases v.message.spans@.len() - j,
                        {
                            let loc = v.message.spans[j].to_location();
                            locs.push(loc);
                            j = j + 1;
                        }
                        Some(locs)
                    } else {
                        None
                    };
                    let severity = if str_eq(v.message.level.as_str(), "error") {
                        CodeQualityReportIssueSeverity::Major
                    } else if str_eq(v.message.level.as_str(), "warning") {
                        CodeQualityReportIssueSeverity::Minor
                    } else {
                        CodeQualityReportIssueSeverity::Info
                    };
                    let print = fingerprint(v.message.message.as_str().as_bytes());
                    let issue = CodeQualityReportIssue {
                        issue_type: {
                            let mut t = String::new();
                            t.append("issue");
                            t
                        },
                        check_name,
                        description: v.message.message.clone(),
                        content: Some(content),
                        categories,
                        location,
                        other_locations,
                        remediation_points: None,
                        severity: Some(severity),
                        fingerprint: Some(print),
                    };
                    issues.push(issue);
                    proof {
                        assert(issues@.drop_last() =~= old_issues);
                        assert(issue_from_message(issues@.last(), *v));
                    }
                }
            },
            _ => {},
        }
        proof {
            assert(msgs@.subrange(0, i + 1).drop_last() =~= msgs@.subrange(0, i as int));
            assert(msgs@.subrange(0, i + 1).last() == msgs@[i as int]);
        }
        i = i + 1;
    }
    proof {
        assert(msgs@.subrange(0, msgs@.len() as int) =~= msgs@);
    }
    issues
}

/// Whether a linter message counts towards the summary metrics: a
/// compiler message without any span.
pub open spec fn metric_msg(m: clippy::Message) -> bool {
    m matches clippy::Message::CompilerMessage(v) && v.message.spans@.len() == 0
}

/// The level and check identifier a metric message is keyed by.
pub open spec fn metric_key(m: clippy::Message) -> (Seq<char>, Seq<char>)
    recommends
        metric_msg(m),
{
    match m {
        clippy::Message::CompilerMessage(v) => (v.message.level@, v.message.code->Some_0.code@),
        _ => (Seq::empty(), Seq::empty()),
    }
}

/// The distinct metric keys of a message stream, in first-appearance
/// order.
pub open spec fn metric_keys(msgs: Seq<clippy::Message>) -> Seq<(Seq<char>, Seq<char>)>
    decreases msgs.len(),
{
    if msgs.len() == 0 {
        Seq::empty()
    } else {
        let ks = metric_keys(msgs.drop_last());
        if metric_msg(msgs.last()) && !ks.contains(metric_key(msgs.last())) {
            ks.push(metric_key(msgs.last()))
        } else {
            ks
        }
    }
}

/// How many metric messages of a stream carry the given key.
pub open spec fn metric_count(msgs: Seq<clippy::Message>, key: (Seq<char>, Seq<char>)) -> nat
    decreases msgs.len(),
{
    if msgs.len() == 0 {
        0
    } else {
        metric_count(msgs.drop_last(), key) + (if metric_msg(msgs.last()) && metric_key(
            msgs.last(),
        ) == key {
            1nat
        } else {
            0nat
        })
    }
}

/// One metrics line: the level, the check identifier as a label, and the
/// count.
pub open spec fn metric_line(msgs: Seq<clippy::Message>, key: (Seq<char>, Seq<char>)) -> Seq<
    char,
> {
    key.0 + "{code="@ + key.1 + "}: "@ + spec_dec(metric_count(msgs, key)) + "\n"@
}

pub open spec fn render_metric_lines(
    msgs: Seq<clippy::Message>,
    ks: Seq<(Seq<char>, Seq<char>)>,
) -> Seq<char>
    decreases ks.len(),
{
    if ks.len() == 0 {
        Seq::empty()
    } else {
        render_metric_lines(msgs, ks.drop_last()) + metric_line(msgs, ks.last())
    }
}

/// The whole metrics text of the linter's stream: one line per distinct
/// key, keys in first-appearance order.
pub open spec fn spec_clippy_metrics(msgs: Seq<clippy::Message>) -> Seq<char> {
    render_metric_lines(msgs, metric_keys(msgs))
}

/// Whether every linter message destined for the metrics carries a check
/// identifier.
pub open spec fn metric_msgs_ok(msgs: Seq<clippy::Message>) -> bool {
    forall|i: int|
        0 <= i < msgs.len() ==> match #[trigger] msgs[i] {
            clippy::Message::CompilerMessage(v) => v.message.spans@.len() == 0
                ==> v.message.code is Some,
            _ => true,
        }
}

/// Maps the linter's message stream to the summary metrics text: for each
/// distinct level and check identifier among the span-less messages, one
/// line with its count, keys in first-appearance order.
pub fn clippy_to_open_metrics(msgs: &Vec<clippy::Message>) -> (r: String)
    requires
        metric_msgs_ok(msgs@),
    ensures
        r@ == spec_clippy_metrics(msgs@),
{
    let mut counts: Vec<(String, String, u64)> = Vec::new();
    let mut i: usize = 0;
    proof {
        assert(msgs@.subrange(0, 0) =~= Seq::<clippy::Message>::empty());
    }
    while i < msgs.len()
        invariant
            i <= msgs@.len(),
            metric_msgs_ok(msgs@),
            counts@.len() == metric_keys(msgs@.subrange(0, i as int)).len(),
            forall|k: int|
                0 <= k < counts@.len() ==> ((#[trigger] counts@[k]).0@, counts@[k].1@)
                    == metric_keys(msgs@.subrange(0, i as int))[k],
            forall|k: int|
                0 <= k < counts@.len() ==> (#[trigger] counts@[k]).2 == metric_count(
                    msgs@.subrange(0, i as int),
                    metric_keys(msgs@.subrange(0, i as int))[k],
                ),
            forall|k: int|
                0 <= k < counts@.len() ==> (#[trigger] counts@[k]).2 <= i,
        decreases msgs@.len() - i,
    {
        let ghost prefix = msgs@.subrange(0, i as int);
        let ghost prefix1 = msgs@.subrange(0, i + 1);
        proof {
            assert(prefix1.drop_last() =~= prefix);
            assert(prefix1.last() == msgs@[i as int]);
        }
        match &msgs[i] {
            clippy::Message::CompilerMessage(v) => {
                if v.message.spans.len() == 0 {
                    let level = &v.message.level;
                    let code = match &v.message.code {
                        Some(code) => &code.code,
                        None => {
                            proof {
                                assert(false);
                            }
                            unreached()
                        },
                    };
                    let mut j: usize = 0;
                    let mut slot: Option<usize> = None;
                    while j < counts.len() && slot.is_none()
                        invariant
                            j <= counts@.len(),
                            match slot {
                                Some(idx) => idx < counts@.len() && counts@[idx as int].0@
                                    == level@ && counts@[idx as int].1@ == code@,
                                None => forall|k: int|
                                    0 <= k < j ==> !((#[trigger] counts@[k]).0@ == level@
                                        && counts@[k].1@ == code@),
                            },
                        decreases (if slot is None { 1int } else { 0int }), counts@.len() - j,
                    {
                        let hit = str_eq(counts[j].0.as_str(), level.as_str()) && str_eq(
                            counts[j].1.as_str(),
                            code.as_str(),
                        );
                        if hit {
                            slot = Some(j);
                        } else {
                            j = j + 1;
                        }
                    }
                    let ghost key = metric_key(msgs@[i as int]);
                    proof {
                        assert(metric_msg(msgs@[i as int]));
                        assert(key == (level@, code@));
                        assert(metric_count(prefix1, key) == metric_count(prefix, key) + 1);
                        assert forall|other: (Seq<char>, Seq<char>)|
                            other != key implies metric_count(prefix1, other) == metric_count(
                            prefix,
                            other,
                        ) by {}
                    }
                    match slot {
                        Some(idx) => {
                            proof {
                                assert(metric_keys(prefix).contains(key)) by {
                                    assert(metric_keys(prefix)[idx as int] == key);
                                }
                                assert(metric_keys(prefix1) =~= metric_keys(prefix));
                                lemma_metric_keys_distinct(prefix);
                                assert(metric_keys(prefix)[idx as int] == key);
                            }
                            let entry = counts.remove(idx);
                            counts.insert(idx, (entry.0, entry.1, entry.2 + 1));
                            proof {
                                assert forall|k: int| 0 <= k < counts@.len() implies ((
                                #[trigger] counts@[k]).0@, counts@[k].1@) == metric_keys(
                                    prefix1,
                                )[k] && counts@[k].2 == metric_count(
                                    prefix1,
                                    metric_keys(prefix1)[k],
                                ) by {
                                    if k != idx {
                                        assert(metric_keys(prefix1)[k] != key);
                                    }
                                }
                            }
                        },
                        None => {
                            proof {
                                assert(!metric_keys(prefix).contains(key)) by {
                                    if metric_keys(prefix).contains(key) {
                                        let w = choose|w: int|
                                            0 <= w < metric_keys(prefix).len() && metric_keys(
                                                prefix,
                                            )[w] == key;
                                        assert(counts@[w].0@ == key.0 && counts@[w].1@ == key.1);
                                    }
                                }
                                assert(metric_keys(prefix1) =~= metric_keys(prefix).push(key));
                                assert(metric_count(prefix, key) == 0) by {
                                    lemma_metric_count_absent(prefix, key);
                                }
                            }
                            counts.push((level.clone(), code.clone(), 1));
                            proof {
                                assert forall|k: int| 0 <= k < counts@.len() implies ((
                                #[trigger] counts@[k]).0@, counts@[k].1@) == metric_keys(
                                    prefix1,
                                )[k] && counts@[k].2 == metric_count(
                                    prefix1,
                                    metric_keys(prefix1)[k],
                                ) by {
                                    if k < counts@.len() - 1 {
                                        assert(metric_keys(prefix1)[k] != key);
                                    }
                                }
                            }
                        },
                    }
                } else {
                    proof {
                        assert(metric_keys(prefix1) =~= metric_keys(prefix));
                        assert forall|other: (Seq<char>, Seq<char>)| #[trigger] metric_count(
                            prefix1,
                            other,
                        ) == metric_count(prefix, other) by {}
                    }
                }
            },
            _ => {
                proof {
                    assert(metric_keys(prefix1) =~= metric_keys(prefix));
                    assert forall|other: (Seq<char>, Seq<char>)| #[trigger] metric_count(
                        prefix1,
                        other,
                    ) == metric_count(prefix, other) by {}
                }
            },
        }
        i = i + 1;
    }
    proof {
        assert(msgs@.subrange(0, msgs@.len() as int) =~= msgs@);
    }
    let mut out = String::new();
    let mut k: usize = 0;
    proof {
        assert(metric_keys(msgs@).subrange(0, 0) =~= Seq::<(Seq<char>, Seq<char>)>::empty());
    }
    while k < counts.len()
        invariant
            k <= counts@.len(),
            counts@.len() == metric_keys(msgs@).len(),
            forall|w: int|
                0 <= w < counts@.len() ==> ((#[trigger] counts@[w]).0@, counts@[w].1@)
                    == metric_keys(msgs@)[w],
            forall|w: int|
                0 <= w < counts@.len() ==> (#[trigger] counts@[w]).2 == metric_count(
                    msgs@,
                    metric_keys(msgs@)[w],
                ),
            out@ == render_metric_lines(msgs@, metric_keys(msgs@).subrange(0, k as int)),
        decreases counts@.len() - k,
    {
        out.append(counts[k].0.as_str());
        out.append("{code=");
        out.append(counts[k].1.as_str());
        out.append("}: ");
        let d = dec_u64(counts[k].2);
        out.append(d.as_str());
        out.append("\n");
        proof {
            let ks = metric_keys(msgs@);
            assert(ks.subrange(0, k + 1).drop_last() =~= ks.subrange(0, k as int));
            assert(ks.subrange(0, k + 1).last() == ks[k as int]);
            assert(out@ =~= render_metric_lines(msgs@, ks.subrange(0, k + 1)));
        }
        k = k + 1;
    }
    proof {
        assert(metric_keys(msgs@).subrange(0, metric_keys(msgs@).len() as int) =~= metric_keys(
            msgs@,
        ));
    }
    out
}

/// The keys of a stream are distinct: a key is recorded only at its
/// first appearance.
proof fn lemma_metric_keys_distinct(msgs: Seq<clippy::Message>)
    ensures
        forall|a: int, b: int|
            0 <= a < b < metric_keys(msgs).len() ==> #[trigger] metric_keys(msgs)[a]
                != #[trigger] metric_keys(msgs)[b],
    decreases msgs.len(),
{
    if msgs.len() > 0 {
        lemma_metric_keys_distinct(msgs.drop_last());
        let ks = metric_keys(msgs.drop_last());
        assert forall|a: int, b: int|
            0 <= a < b < metric_keys(msgs).len() implies #[trigger] metric_keys(msgs)[a]
            != #[trigger] metric_keys(msgs)[b] by {
            if b == ks.len() && metric_keys(msgs).len() == ks.len() + 1 {
                assert(!ks.contains(metric_keys(msgs)[b]));
                assert(metric_keys(msgs)[a] == ks[a]);
            }
        }
    }
}

/// A key no metric message carries is counted zero times.
proof fn lemma_metric_count_absent(msgs: Seq<clippy::Message>, key: (Seq<char>, Seq<char>))
    requires
        !metric_keys(msgs).contains(key),
    ensures
        metric_count(msgs, key) == 0,
    decreases msgs.len(),
{
    if msgs.len() > 0 {
        let ks = metric_keys(msgs.drop_last());
        assert forall|w: int| 0 <= w < ks.len() implies ks[w] != key by {
            if metric_msg(msgs.last()) && !ks.contains(metric_key(msgs.last())) {
                assert(metric_keys(msgs)[w] == ks[w]);
            } else {
                assert(metric_keys(msgs)[w] == ks[w]);
            }
        }
        lemma_metric_count_absent(msgs.drop_last(), key);
        if metric_msg(msgs.last()) && metric_key(msgs.last()) == key {
            if !ks.contains(key) {
                assert(metric_keys(msgs).last() == key);
            }
            assert(false);
        }
    }
}

/// The benchmark metrics text: one line per benchmark result, in stream
/// order, with the median duration in nanoseconds.
pub open spec fn spec_bench_metrics(msgs: Seq<CargoMessage>) -> Seq<char>
    decreases msgs.len(),
{
    if msgs.len() == 0 {
        Seq::empty()
    } else {
        spec_bench_metrics(msgs.drop_last()) + (match msgs.last() {
            CargoMessage::Bench(b) => b.name@ + ": "@ + spec_dec(b.median_nanos as nat) + "\n"@,
            _ => Seq::<char>::empty(),
        })
    }
}

/// Renders the benchmark results of a message stream as metrics lines.
pub fn bench_to_open_metrics(msgs: &Vec<CargoMessage>) -> (r: String)
    ensures
        r@ == spec_bench_metrics(msgs@),
{
    let mut out = String::new();
    let mut i: usize = 0;
    proof {
        assert(msgs@.subrange(0, 0) =~= Seq::<CargoMessage>::empty());
    }
    while i < msgs.len()
        invariant
            i <= msgs@.len(),
            out@ == spec_bench_metrics(msgs@.subrange(0, i as int)),
        decreases msgs@.len() - i,
    {
        match &msgs[i] {
            CargoMessage::Bench(b) => {
                out.append(b.name.as_str());
                out.append(": ");
                let d = dec_u64(b.median_nanos);
                out.append(d.as_str());
                out.append("\n");
            },
            _ => {},
        }
        proof {
            assert(msgs@.subrange(0, i + 1).drop_last() =~= msgs@.subrange(0, i as int));
            assert(msgs@.subrange(0, i + 1).last() == msgs@[i as int]);
            assert(out@ =~= spec_bench_metrics(msgs@.subrange(0, i + 1)));
        }
        i = i + 1;
    }
    proof {
        assert(msgs@.subrange(0, msgs@.len() as int) =~= msgs@);
    }
    out
}

/// How many suite-finished events a stream holds; the next one gets this
/// ordinal in its metrics label.
pub open spec fn count_finished(msgs: Seq<CargoMessage>) -> nat
    decreases msgs.len(),
{
    if msgs.len() == 0 {
        0
    } else {
        count_finished(msgs.drop_last()) + (match msgs.last() {
            CargoMessage::Suite(CargoTestReportSuite::Finished(_)) => 1nat,
            _ => 0nat,
        })
    }
}

/// The metrics block for one finished suite: its counts and duration,
/// each labelled with the suite's ordinal.
pub open spec fn suite_metrics_block(v: CargoTestReportSuiteOkOrFailed, i: nat) -> Seq<char> {
    let label = "cargo test #"@ + spec_dec(i);
    "passed{suite="@ + label + "}: "@ + spec_dec(v.passed as nat) + "\n"@ + "failed{suite="@
        + label + "}: "@ + spec_dec(v.failed as nat) + "\n"@ + "allowed_fail{suite="@ + label
        + "}: "@ + spec_dec(v.allowed_fail as nat) + "\n"@ + "ignored{suite="@ + label + "}: "@
        + spec_dec(v.ignored as nat) + "\n"@ + "measured{suite="@ + label + "}: "@ + spec_dec(
        v.measured as nat,
    ) + "\n"@ + "filtered_out{suite="@ + label + "}: "@ + spec_dec(v.filtered_out as nat) + "\n"@
        + "exec_time{suite="@ + label + "}: "@ + spec_nanos_as_seconds(v.exec_time_nanos as nat)
        + "\n"@
}

/// The whole test metrics text: one block per suite-finished event, in
/// stream order, ordinals counting from zero.
pub open spec fn spec_test_metrics(msgs: Seq<CargoMessage>) -> Seq<char>
    decreases msgs.len(),
{
    if msgs.len() == 0 {
        Seq::empty()
    } else {
        spec_test_metrics(msgs.drop_last()) + (match msgs.last() {
            CargoMessage::Suite(CargoTestReportSuite::Finished(v)) => suite_metrics_block(
                v,
                count_finished(msgs.drop_last()),
            ),
            _ => Seq::<char>::empty(),
        })
    }
}

/// Builds the metrics block for one finished suite.
fn suite_metrics(v: &CargoTestReportSuiteOkOrFailed, n: u64) -> (r: String)
    ensures
        r@ == suite_metrics_block(*v, n as nat),
{
    let mut label = String::new();
    label.append("cargo test #");
    let d = dec_u64(n);
    label.append(d.as_str());
    let mut out = String::new();
    out.append("passed{suite=");
    out.append(label.as_str());
    out.append("}: ");
    let d = dec_u64(v.passed as u64);
    out.append(d.as_str());
    out.append("\n");
    out.append("failed{suite=");
    out.append(label.as_str());
    out.append("}: ");
    let d = dec_u64(v.failed as u64);
    out.append(d.as_str());
    out.append("\n");
    out.append("allowed_fail{suite=");
    out.append(label.as_str());
    out.append("}: ");
    let d = dec_u64(v.allowed_fail as u64);
    out.append(d.as_str());
    out.append("\n");
    out.append("ignored{suite=");
    out.append(label.as_str());
    out.append("}: ");
    let d = dec_u64(v.ignored as u64);
    out.append(d.as_str());
    out.append("\n");
    out.append("measured{suite=");
    out.append(label.as_str());
    out.append("}: ");
    let d = dec_u64(v.measured as u64);
    out.append(d.as_str());
    out.append("\n");
    out.append("filtered_out{suite=");
    out.append(label.as_str());
    out.append("}: ");
    let d = dec_u64(v.filtered_out as u64);
    out.append(d.as_str());
    out.append("\n");
    out.append("exec_time{suite=");
    out.append(label.as_str());
    out.append("}: ");
    let d = nanos_as_seconds(v.exec_time_nanos);
    out.append(d.as_str());
    out.append("\n");
    assert(out@ =~= suite_metrics_block(*v, n as nat));
    out
}

/// Renders the suite summaries of a test event stream as metrics lines.
pub fn test_to_open_metrics(msgs: &Vec<CargoMessage>) -> (r: String)
    ensures
        r@ == spec_test_metrics(msgs@),
{
    let mut out = String::new();
    let mut n: u64 = 0;
    let mut i: usize = 0;
    proof {
        assert(msgs@.subrange(0, 0) =~= Seq::<CargoMessage>::empty());
    }
    while i < msgs.len()
        invariant
            i <= msgs@.len(),
            n <= i,
            n == count_finished(msgs@.subrange(0, i as int)),
            out@ == spec_test_metrics(msgs@.subrange(0, i as int)),
        decreases msgs@.len() - i,
    {
        proof {
            assert(msgs@.subrange(0, i + 1).drop_last() =~= msgs@.subrange(0, i as int));
            assert(msgs@.subrange(0, i + 1).last() == msgs@[i as int]);
        }
        match &msgs[i] {
            CargoMessage::Suite(CargoTestReportSuite::Finished(v)) => {
                let block = suite_metrics(v, n);
                out.append(block.as_str());
                proof {
                    assert(out@ =~= spec_test_metrics(msgs@.subrange(0, i + 1)));
                }
                n = n + 1;
            },
            _ => {},
        }
        proof {
            assert(out@ =~= spec_test_metrics(msgs@.subrange(0, i + 1)));
        }
        i = i + 1;
    }
    proof {
        assert(msgs@.subrange(0, msgs@.len() as int) =~= msgs@);
    }
    out
}

/// What one testcase element holds: the key and duration of its model,
/// and a status child for a skipped or failed case.  A passed case, like
/// one still pending at end of stream, has no status child.
pub open spec fn testcase_matches(
    t: junit::TestsuiteTestcase,
    c: crate::correlate::CaseModel,
) -> bool {
    &&& t.name@ == c.name
    &&& t.classname@ == c.module
    &&& t.time_nanos == c.duration_nanos
    &&& match c.status {
        crate::correlate::StatusModel::Pending => t.status is None,
        crate::correlate::StatusModel::Passed => t.status is None,
        crate::correlate::StatusModel::Skipped => t.status == Some(
            junit::TestsuiteTestcaseStatus::Skipped,
        ),
        crate::correlate::StatusModel::Failed(out) => t.status matches Some(
            junit::TestsuiteTestcaseStatus::Failure { kind, system_output },
        ) && kind@ == "cargo test"@ && system_output@ == out,
    }
}

/// Addition capped at the machine's limit.
pub open spec fn sat_add(a: usize, b: usize) -> usize {
    if a + b > usize::MAX {
        usize::MAX
    } else {
        (a + b) as usize
    }
}

/// What one suite element holds: the ordinal as its id and name, the
/// creation timestamp, the declared test count, and the counts and
/// duration of the finishing event, zero where none arrived; skipped
/// covers both the ignored and the filtered-out tests.
pub open spec fn testsuite_matches(
    t: junit::Testsuite,
    s: crate::correlate::SuiteModel,
) -> bool {
    &&& t.id == s.index
    &&& t.name@ == "cargo test #"@ + spec_dec(s.index as nat)
    &&& t.timestamp@ == timestamp_text_of((s.created_nanos / 1_000_000_000) as u64)
    &&& t.hostname@ == "localhost"@
    &&& t.tests == s.declared_count
    &&& t.errors == 0
    &&& match s.summary {
        Some(sm) => t.failures == sm.failed && t.skipped == sat_add(sm.ignored, sm.filtered_out)
            && t.time_nanos == sm.exec_time_nanos,
        None => t.failures == 0 && t.skipped == 0 && t.time_nanos == 0,
    }
    &&& t.properties is None
    &&& t.testcases matches Some(tcs) && tcs@.len() == s.cases.len() && (forall|j: int|
        0 <= j < tcs@.len() ==> testcase_matches(#[trigger] tcs@[j], s.cases[j]))
}

/// Lays a finished correlator state out as the test-report tree: one
/// suite element per suite, in creation order.
pub fn run_to_junit(run: &TestRun) -> (rep: junit::Report)
    requires
        run.wf(),
    ensures
        rep.0@.len() == run@.suites.len(),
        forall|i: int|
            0 <= i < rep.0@.len() ==> testsuite_matches(#[trigger] rep.0@[i], run@.suites[i]),
{
    let mut suites: Vec<junit::Testsuite> = Vec::new();
    let mut i: usize = 0;
    while i < run.suites.len()
        invariant
            i <= run.suites@.len(),
            run.wf(),
            suites@.len() == i,
            forall|k: int|
                0 <= k < i ==> testsuite_matches(#[trigger] suites@[k], run@.suites[k]),
        decreases run.suites@.len() - i,
    {
        let s = &run.suites[i];
        let mut name = String::new();
        name.append("cargo test #");
        let d = dec_u64(s.index as u64);
        name.append(d.as_str());
        let secs = s.created_nanos / 1_000_000_000;
        assert(secs <= 18_446_744_073);
        let timestamp = format_timestamp(secs);
        let mut hostname = String::new();
        hostname.append("localhost");
        let (failures, skipped, time_nanos): (usize, usize, u64) = match &s.summary {
            Some(sm) => (sm.failed, sm.ignored.saturating_add(sm.filtered_out), sm.exec_time_nanos),
            None => (0, 0, 0),
        };
        let mut tcs: Vec<junit::TestsuiteTestcase> = Vec::new();
        let mut j: usize = 0;
        while j < s.testcases.len()
            invariant
                j <= s.testcases@.len(),
                tcs@.len() == j,
                forall|k: int|
                    0 <= k < j ==> testcase_matches(#[trigger] tcs@[k], s.testcases@[k]@),
            decreases s.testcases@.len() - j,
        {
            let c = &s.testcases[j];
            let status: Option<junit::TestsuiteTestcaseStatus> = match &c.status {
                crate::correlate::TestcaseStatus::Pending => None,
                crate::correlate::TestcaseStatus::Passed => None,
                crate::correlate::TestcaseStatus::Skipped => Some(
                    junit::TestsuiteTestcaseStatus::Skipped,
                ),
                crate::correlate::TestcaseStatus::Failed { output } => Some(
                    junit::TestsuiteTestcaseStatus::Failure {
                        kind: {
                            let mut k = String::new();
                            k.append("cargo test");
                            k
                        },
                        system_output: output.clone(),
                    },
                ),
            };
            tcs.push(
                junit::TestsuiteTestcase {
                    status,
                    name: c.name.clone(),
                    classname: c.module.clone(),
                    time_nanos: c.duration_nanos,
                },
            );
            j = j + 1;
        }
        let suite = junit::Testsuite {
            id: s.index,
            name,
            timestamp,
            hostname,
            tests: s.declared_count,
            failures,
            errors: 0,
            skipped,
            time_nanos,
            properties: None,
            testcases: Some(tcs),
        };
        suites.push(suite);
        proof {
            assert(run@.suites[i as int] == run.suites@[i as int]@);
            assert(testsuite_matches(suites@.last(), run@.suites[i as int]));
        }
        i = i + 1;
    }
    junit::Report(suites)
}

/// Correlates a whole pre-stamped test event stream and lays the result
/// out as the test-report tree.  An unmatched event aborts the run with
/// its error and no report is produced.
pub fn test_to_junit(events: &Vec<(CargoMessage, u64)>) -> (res: Result<
    junit::Report,
    ReportError,
>)
    requires
        stream_monotone(events@),
    ensures
        match res {
            Result::Ok(rep) => {
                &&& run_stream(events@) matches Ok(m)
                &&& rep.0@.len() == m.suites.len()
                &&& forall|i: int|
                    0 <= i < rep.0@.len() ==> testsuite_matches(
                        #[trigger] rep.0@[i],
                        m.suites[i],
                    )
            },
            Result::Err(e) => run_stream(events@) is Err && e is UnmatchedEvent,
        },
{
    let run = match correlate(events) {
        Result::Ok(run) => run,
        Result::Err(e) => {
            return Err(e);
        },
    };
    Ok(run_to_junit(&run))
}

} // verus!
