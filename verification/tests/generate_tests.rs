use gitlab_report::audit;
use gitlab_report::cargo::CargoMessage;
use gitlab_report::cargo::CargoTestReportBench;
use gitlab_report::cargo::CargoTestReportSuite;
use gitlab_report::cargo::CargoTestReportSuiteOkOrFailed;
use gitlab_report::clippy;
use gitlab_report::code_climate::CodeQualityReportIssueSeverity;
use gitlab_report::code_climate::CodeQualityReportPosition;
use gitlab_report::generate::audit_issue_to_gitlab_vuln;
use gitlab_report::generate::audit_text_to_gitlab_security_report;
use gitlab_report::generate::audit_to_gitlab_security_report;
use gitlab_report::generate::bench_to_open_metrics;
use gitlab_report::generate::clippy_to_code_quality;
use gitlab_report::generate::clippy_to_open_metrics;
use gitlab_report::generate::geiger_package_to_gitlab_vuln;
use gitlab_report::generate::geiger_to_gitlab_security_report;
use gitlab_report::generate::test_to_open_metrics;
use gitlab_report::geiger;
use gitlab_report::gitlab_security_report::ScanType;
use gitlab_report::gitlab_security_report::VulnerabilityConfidence;
use gitlab_report::gitlab_security_report::VulnerabilityLocation;
use gitlab_report::gitlab_security_report::VulnerabilitySeverity;
use gitlab_report::textfmt::dec_u64;
use gitlab_report::textfmt::hex_u128;
use gitlab_report::textfmt::nanos_as_seconds;
use gitlab_report::textfmt::xml_escape;

fn clippy_message(
    level: &str,
    code: Option<&str>,
    message: &str,
    spans: usize,
) -> clippy::Message {
    let span = clippy::CompilerMessageMessageSpan {
        file_name: "src/lib.rs".to_string(),
        line_start: 3,
        line_end: 4,
        column_start: 5,
        column_end: 6,
    };
    clippy::Message::CompilerMessage(clippy::CompilerMessage {
        message: clippy::CompilerMessageMessage {
            rendered: format!("rendered: {}", message),
            code: code.map(|c| clippy::CompilerMessageMessageCode {
                code: c.to_string(),
                explanation: None,
            }),
            level: level.to_string(),
            message: message.to_string(),
            spans: std::iter::repeat_with(|| span.clone()).take(spans).collect(),
        },
    })
}

#[test]
fn clippy_issue_fields_and_fingerprint() {
    let msgs = vec![
        clippy_message("warning", Some("clippy::unit_arg"), "passing a unit value", 2),
        clippy::Message::CompilerArtifact,
        clippy_message("error", Some("E0308"), "mismatched types", 1),
        clippy_message("warning", Some("clippy::skipme"), "no spans here", 0),
    ];
    let issues = clippy_to_code_quality(&msgs);
    assert_eq!(issues.len(), 2);

    let first = &issues[0];
    assert_eq!(first.issue_type, "issue");
    assert_eq!(first.check_name, "clippy::unit_arg");
    assert_eq!(first.description, "passing a unit value");
    assert_eq!(
        first.content.as_deref(),
        Some("```rendered: passing a unit value```")
    );
    assert!(matches!(
        first.severity,
        Some(CodeQualityReportIssueSeverity::Minor)
    ));
    assert_eq!(first.location.path, "src/lib.rs");
    match first.location.positions.as_ref().unwrap().begin {
        CodeQualityReportPosition::Coordinates { line, column } => {
            assert_eq!(line, 3);
            assert_eq!(column, 5);
        }
        _ => panic!("expected coordinates"),
    }
    assert_eq!(first.other_locations.as_ref().unwrap().len(), 1);

    let expected_print = format!(
        "{:x}",
        xxhash_rust::xxh3::xxh3_128("passing a unit value".as_bytes())
    );
    assert_eq!(first.fingerprint.as_deref(), Some(expected_print.as_str()));

    let second = &issues[1];
    assert!(matches!(
        second.severity,
        Some(CodeQualityReportIssueSeverity::Major)
    ));
    assert!(second.other_locations.is_none());
}

#[test]
fn clippy_note_level_is_informational() {
    let msgs = vec![clippy_message("note", Some("x"), "m", 1)];
    let issues = clippy_to_code_quality(&msgs);
    assert!(matches!(
        issues[0].severity,
        Some(CodeQualityReportIssueSeverity::Info)
    ));
}

#[test]
fn clippy_metrics_count_by_level_and_code() {
    let msgs = vec![
        clippy_message("warning", Some("clippy::a"), "one", 0),
        clippy_message("warning", Some("clippy::b"), "two", 0),
        clippy_message("warning", Some("clippy::a"), "three", 0),
        clippy_message("error", Some("clippy::a"), "four", 0),
        clippy_message("warning", Some("spanful"), "not counted", 1),
        clippy::Message::BuildFinished,
    ];
    let out = clippy_to_open_metrics(&msgs);
    let expected = "warning{code=clippy::a}: 2\nwarning{code=clippy::b}: 1\nerror{code=clippy::a}: 1\n";
    assert_eq!(out, expected);
}

#[test]
fn bench_metrics_one_line_per_result() {
    let msgs = vec![
        CargoMessage::Bench(CargoTestReportBench {
            name: "tests::bench_add".to_string(),
            median_nanos: 213,
            deviation_nanos: 8,
        }),
        CargoMessage::Bench(CargoTestReportBench {
            name: "tests::bench_mul".to_string(),
            median_nanos: 1024,
            deviation_nanos: 16,
        }),
    ];
    let out = bench_to_open_metrics(&msgs);
    assert_eq!(out, "tests::bench_add: 213\ntests::bench_mul: 1024\n");
}

#[test]
fn test_metrics_render_suite_summaries() {
    let msgs = vec![
        CargoMessage::Suite(CargoTestReportSuite::Finished(CargoTestReportSuiteOkOrFailed {
            passed: 3,
            failed: 1,
            allowed_fail: 0,
            ignored: 2,
            measured: 0,
            filtered_out: 4,
            exec_time_nanos: 1_500_000_000,
        })),
        CargoMessage::Suite(CargoTestReportSuite::Finished(CargoTestReportSuiteOkOrFailed {
            passed: 0,
            failed: 0,
            allowed_fail: 0,
            ignored: 0,
            measured: 0,
            filtered_out: 0,
            exec_time_nanos: 42,
        })),
    ];
    let out = test_to_open_metrics(&msgs);
    let expected = "passed{suite=cargo test #0}: 3\nfailed{suite=cargo test #0}: 1\nallowed_fail{suite=cargo test #0}: 0\nignored{suite=cargo test #0}: 2\nmeasured{suite=cargo test #0}: 0\nfiltered_out{suite=cargo test #0}: 4\nexec_time{suite=cargo test #0}: 1.500000000\npassed{suite=cargo test #1}: 0\nfailed{suite=cargo test #1}: 0\nallowed_fail{suite=cargo test #1}: 0\nignored{suite=cargo test #1}: 0\nmeasured{suite=cargo test #1}: 0\nfiltered_out{suite=cargo test #1}: 0\nexec_time{suite=cargo test #1}: 0.000000042\n";
    assert_eq!(out, expected);
}

fn plain_issue(kind: Option<&str>, advisory: Option<(&str, &str, &str, &str)>) -> audit::Issue {
    audit::Issue {
        kind: kind.map(|k| k.to_string()),
        advisory: advisory.map(|(id, title, description, url)| audit::IssueAdvisory {
            id: id.to_string(),
            package: "pkg".to_string(),
            title: title.to_string(),
            description: description.to_string(),
            date: "2021-01-01".to_string(),
            aliases: Vec::new(),
            related: Vec::new(),
            collection: "crates".to_string(),
            categories: Vec::new(),
            keywords: Vec::new(),
            cvss: None,
            informational: None,
            url: url.to_string(),
            references: Vec::new(),
            withdrawn: None,
        }),
        versions: None,
        affected: None,
        package: audit::IssuePackage {
            name: "pkg".to_string(),
            version: "1.2.3".to_string(),
            source: String::new(),
            checksum: String::new(),
            dependencies: Vec::new(),
            replace: None,
        },
    }
}

#[test]
fn audit_issue_with_advisory_is_medium() {
    let issue = plain_issue(
        None,
        Some((
            "RUSTSEC-2021-0001",
            "bad things",
            "a long description",
            "https://example.invalid/a",
        )),
    );
    let v = audit_issue_to_gitlab_vuln(&issue, ScanType::DependencyScanning);
    assert!(matches!(v.severity, Some(VulnerabilitySeverity::Medium)));
    assert_eq!(v.name.as_deref(), Some("RUSTSEC-2021-0001"));
    assert_eq!(v.message.as_deref(), Some("bad things"));
    assert_eq!(v.description.as_deref(), Some("a long description"));
    assert!(matches!(v.confidence, Some(VulnerabilityConfidence::Confirmed)));
    assert_eq!(v.identifiers.len(), 1);
    assert_eq!(v.identifiers[0].identifier_type, "RUSTSEC Advisory");
    assert_eq!(v.identifiers[0].name, "RUSTSEC-2021-0001");
    assert_eq!(v.identifiers[0].url.as_deref(), Some("https://example.invalid/a"));
    match &v.location {
        VulnerabilityLocation::DependencyScanning { file, dependency } => {
            assert!(file.is_none());
            assert_eq!(dependency.package.as_ref().unwrap().name, "pkg");
            assert_eq!(dependency.version.as_deref(), Some("1.2.3"));
        }
        _ => panic!("expected dependency location"),
    }
}

#[test]
fn audit_issue_without_advisory_is_high() {
    let issue = plain_issue(Some("unmaintained"), None);
    let v = audit_issue_to_gitlab_vuln(&issue, ScanType::Sast);
    assert!(matches!(v.severity, Some(VulnerabilitySeverity::High)));
    assert_eq!(v.name.as_deref(), Some("pkg@1.2.3"));
    assert_eq!(v.message.as_deref(), Some("unmaintained: pkg"));
    assert_eq!(v.description.as_deref(), Some(""));
    assert!(v.identifiers.is_empty());
    assert!(matches!(v.location, VulnerabilityLocation::Sast { .. }));

    let issue = plain_issue(None, None);
    let v = audit_issue_to_gitlab_vuln(&issue, ScanType::Sast);
    assert_eq!(v.message.as_deref(), Some("unknown: pkg"));
}

#[test]
fn audit_report_flattens_vulnerabilities_and_warnings() {
    let report = audit::Report {
        database: audit::Database {
            advisory_count: 2,
            last_commit: String::new(),
            last_updated: String::new(),
        },
        lockfile: audit::Lockfile { dependency_count: 10 },
        settings: audit::Settings {
            target_arch: None,
            target_os: None,
            severity: None,
            ignore: Vec::new(),
            informational_warnings: Vec::new(),
            package_scope: None,
        },
        vulnerabilities: audit::SettingsVulnerabilities {
            found: true,
            count: 1,
            list: vec![plain_issue(None, Some(("RUSTSEC-1", "t", "d", "u")))],
        },
        warnings: vec![
            ("unmaintained".to_string(), vec![plain_issue(Some("unmaintained"), None)]),
            ("yanked".to_string(), vec![plain_issue(Some("yanked"), None)]),
        ],
    };
    let out = audit_to_gitlab_security_report(ScanType::DependencyScanning, &report);
    assert_eq!(out.version, "2.0");
    assert!(out.scan.is_none());
    assert_eq!(out.vulnerabilities.len(), 3);
    for v in &out.vulnerabilities {
        assert_eq!(v.scanner.id, "cargo_audit");
        assert_eq!(v.scanner.name, "Cargo Audit");
    }
    assert_eq!(out.vulnerabilities[0].name.as_deref(), Some("RUSTSEC-1"));
    assert_eq!(out.vulnerabilities[1].message.as_deref(), Some("unmaintained: pkg"));
    assert_eq!(out.vulnerabilities[2].message.as_deref(), Some("yanked: pkg"));
}

fn geiger_package(forbids: bool, used_fn: usize, unused_expr: usize) -> geiger::Package {
    let count = |u: usize| geiger::PackageUnsafetyCount { safe: 1, unsafe_: u };
    geiger::Package {
        package: geiger::PackagePackage {
            id: geiger::PackagePackageId {
                name: "dep".to_string(),
                version: "0.9.0".to_string(),
            },
            dependencies: Vec::new(),
            dev_dependencies: Vec::new(),
            build_dependencies: Vec::new(),
        },
        unsafety: geiger::PackageUnsafety {
            used: geiger::PackageUnsafetyCounts {
                functions: count(used_fn),
                exprs: count(0),
                item_impls: count(0),
                item_traits: count(0),
                methods: count(0),
            },
            unused: geiger::PackageUnsafetyCounts {
                functions: count(0),
                exprs: count(unused_expr),
                item_impls: count(0),
                item_traits: count(0),
                methods: count(0),
            },
            forbids_unsafe: forbids,
        },
    }
}

#[test]
fn geiger_clean_forbidding_package_is_suppressed() {
    let report = geiger::Report {
        packages: vec![geiger_package(true, 0, 0), geiger_package(true, 1, 0)],
    };
    let out = geiger_to_gitlab_security_report(ScanType::DependencyScanning, &report);
    assert_eq!(out.vulnerabilities.len(), 1);
    let v = &out.vulnerabilities[0];
    assert!(matches!(v.severity, Some(VulnerabilitySeverity::Info)));
    assert_eq!(v.scanner.id, "cargo_geiger");
    assert_eq!(v.name.as_deref(), Some("Unsafe usage in package `dep`"));
}

#[test]
fn geiger_counts_appear_in_message_and_description() {
    let v = geiger_package_to_gitlab_vuln(&geiger_package(false, 2, 3), ScanType::Sast);
    assert_eq!(
        v.message.as_deref(),
        Some("Found 5 `unsafe` usages in package `dep` (2 used by the build)")
    );
    let expected_description = "Cargo Geiger Report for package `dep`:\nFunctions: 2/0\nExpressions: 0/3\nImpls: 0/0\nTraits: 0/0\nMethods:  0/0\n";
    assert_eq!(v.description.as_deref(), Some(expected_description));
    assert!(matches!(v.confidence, Some(VulnerabilityConfidence::Ignore)));
}

#[test]
fn plaintext_report_maps_to_findings() {
    let text = "Crate: foo\nVersion: 1.0\nWarning: unsound\nDependency tree:\nfoo 1.0\n\nCrate: bar\nVersion: 2.0\nID: RUSTSEC-9\nTitle: titled\nURL: https://example.invalid/9\nSolution: upgrade bar\nDependency tree:\nbar 2.0\n\n";
    let out = audit_text_to_gitlab_security_report(ScanType::DependencyScanning, text)
        .expect("well-formed report");
    assert_eq!(out.vulnerabilities.len(), 2);

    let first = &out.vulnerabilities[0];
    assert!(matches!(first.severity, Some(VulnerabilitySeverity::High)));
    assert_eq!(first.name.as_deref(), Some("foo@1.0"));
    assert_eq!(first.message.as_deref(), Some("unsound: foo"));
    assert!(first.solution.is_none());

    let second = &out.vulnerabilities[1];
    assert!(matches!(second.severity, Some(VulnerabilitySeverity::Medium)));
    assert_eq!(second.name.as_deref(), Some("RUSTSEC-9"));
    assert_eq!(second.message.as_deref(), Some("titled"));
    assert_eq!(second.solution.as_deref(), Some("upgrade bar"));
    assert_eq!(second.identifiers.len(), 1);
    assert_eq!(second.identifiers[0].url.as_deref(), Some("https://example.invalid/9"));
    assert_eq!(second.scanner.id, "cargo_audit");
}

#[test]
fn plaintext_report_mapping_propagates_scan_errors() {
    let text = "Crate: foo\nDependency tree:\nfoo\n\n";
    assert!(audit_text_to_gitlab_security_report(ScanType::Sast, text).is_err());
}

#[test]
fn number_rendering_exact_values() {
    assert_eq!(dec_u64(0), "0");
    assert_eq!(dec_u64(907), "907");
    assert_eq!(dec_u64(u64::MAX), "18446744073709551615");
    assert_eq!(hex_u128(0), "0");
    assert_eq!(hex_u128(0xdead_beef), "deadbeef");
    assert_eq!(hex_u128(u128::MAX), "ffffffffffffffffffffffffffffffff");
    assert_eq!(nanos_as_seconds(0), "0.000000000");
    assert_eq!(nanos_as_seconds(1_234_567_890), "1.234567890");
    assert_eq!(nanos_as_seconds(305_000_000), "0.305000000");
}

#[test]
fn xml_escape_exact_values() {
    assert_eq!(xml_escape("plain"), "plain");
    assert_eq!(xml_escape("<&>\"'"), "&lt;&amp;&gt;&quot;&apos;");
    assert_eq!(xml_escape(""), "");
}

#[test]
fn fingerprint_matches_the_digest_of_the_message() {
    let msgs = vec![clippy_message("warning", Some("c"), "alpha", 1)];
    let issues = clippy_to_code_quality(&msgs);
    let expected = format!("{:x}", xxhash_rust::xxh3::xxh3_128(b"alpha"));
    assert_eq!(issues[0].fingerprint.as_deref(), Some(expected.as_str()));
    // Distinct messages get distinct fingerprints.
    let msgs2 = vec![clippy_message("warning", Some("c"), "beta", 1)];
    let issues2 = clippy_to_code_quality(&msgs2);
    assert_ne!(issues[0].fingerprint, issues2[0].fingerprint);
}
