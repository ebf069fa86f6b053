use gitlab_report::errors::ReportError;
use gitlab_report::plaintext::parse_record;
use gitlab_report::plaintext::scan_records;
use gitlab_report::plaintext::trim_spaces;

#[test]
fn minimal_record_parses() {
    let text = "Crate: foo\nVersion: 1.0\nDependency tree:\nfoo 1.0\n\n";
    let records = scan_records(text).expect("well-formed report");
    assert_eq!(records.len(), 1);
    let r = &records[0];
    assert_eq!(r.package, "foo");
    assert_eq!(r.version, "1.0");
    assert_eq!(r.dependency_tree, "foo 1.0");
    assert!(r.kind.is_none());
    assert!(r.title.is_none());
    assert!(r.id.is_none());
}

#[test]
fn full_record_parses() {
    let text = "Crate: bar\nVersion: 0.3.1\nWarning: unmaintained\nTitle: bar is unmaintained\nDate: 2020-01-01\nID: RUSTSEC-2020-0001\nURL: https://example.invalid/advisory\nSolution: upgrade\nDependency tree:\nbar 0.3.1\n\n";
    let records = scan_records(text).expect("well-formed report");
    assert_eq!(records.len(), 1);
    let r = &records[0];
    assert_eq!(r.package, "bar");
    assert_eq!(r.version, "0.3.1");
    assert_eq!(r.kind.as_deref(), Some("unmaintained"));
    assert_eq!(r.title.as_deref(), Some("bar is unmaintained"));
    assert_eq!(r.date.as_deref(), Some("2020-01-01"));
    assert_eq!(r.id.as_deref(), Some("RUSTSEC-2020-0001"));
    assert_eq!(r.url.as_deref(), Some("https://example.invalid/advisory"));
    assert_eq!(r.solution.as_deref(), Some("upgrade"));
    assert_eq!(r.dependency_tree, "bar 0.3.1");
}

#[test]
fn rescanning_a_record_is_idempotent() {
    let text = "some preamble line\nCrate: foo\nVersion: 1.0\nDependency tree:\nfoo 1.0\n\nCrate: bar\nVersion: 2.0\nWarning: yanked\nDependency tree:\nbar 2.0\n\n";
    let records = scan_records(text).expect("well-formed report");
    assert_eq!(records.len(), 2);

    // The raw text of each record, as the boundary rules delimit it.
    let raw_first = "Crate: foo\nVersion: 1.0\nDependency tree:\nfoo 1.0";
    let raw_second = "Crate: bar\nVersion: 2.0\nWarning: yanked\nDependency tree:\nbar 2.0";
    for (raw, first_pass) in [(raw_first, &records[0]), (raw_second, &records[1])] {
        let again = scan_records(raw).expect("a record rescans");
        assert_eq!(again.len(), 1);
        assert_eq!(again[0].package, first_pass.package);
        assert_eq!(again[0].version, first_pass.version);
        assert_eq!(again[0].kind, first_pass.kind);
        assert_eq!(again[0].dependency_tree, first_pass.dependency_tree);

        let direct = parse_record(raw).expect("a record parses directly");
        assert_eq!(direct.package, first_pass.package);
        assert_eq!(direct.version, first_pass.version);
        assert_eq!(direct.dependency_tree, first_pass.dependency_tree);
    }
}

#[test]
fn missing_version_is_malformed() {
    let text = "Crate: foo\nDependency tree:\nfoo 1.0\n\n";
    let err = scan_records(text).err().expect("malformed record");
    assert!(matches!(err, ReportError::MalformedRecord { .. }));
}

#[test]
fn missing_dependency_tree_is_malformed() {
    let text = "Crate: foo\nVersion: 1.0\n\n";
    let err = scan_records(text).err().expect("malformed record");
    assert!(matches!(err, ReportError::MalformedRecord { .. }));
}

#[test]
fn one_malformed_record_aborts_the_whole_scan() {
    let text = "Crate: good\nVersion: 1.0\nDependency tree:\ngood 1.0\n\nCrate: bad\nDependency tree:\nbad ?\n\n";
    assert!(scan_records(text).is_err());
}

#[test]
fn empty_input_scans_to_nothing() {
    let records = scan_records("").expect("empty input");
    assert!(records.is_empty());
    let records = scan_records("no records here\njust text\n").expect("no markers");
    assert!(records.is_empty());
}

#[test]
fn record_at_end_of_input_needs_no_blank_line() {
    let text = "Crate: foo\nVersion: 1.0\nDependency tree:\nfoo 1.0";
    let records = scan_records(text).expect("well-formed report");
    assert_eq!(records.len(), 1);
    assert_eq!(records[0].dependency_tree, "foo 1.0");
}

#[test]
fn marker_must_start_a_line() {
    let text = "notCrate: foo\nVersion: 1.0\nDependency tree:\nfoo 1.0\n\n";
    let records = scan_records(text).expect("no record starts");
    assert!(records.is_empty());
}

#[test]
fn unrecognized_keys_are_ignored() {
    let text = "Crate: foo\nVersion: 1.0\nSeverity: high\nDependency tree:\nfoo 1.0\n\n";
    let records = scan_records(text).expect("well-formed report");
    assert_eq!(records.len(), 1);
    assert_eq!(records[0].package, "foo");
}

#[test]
fn block_lines_concatenate_verbatim_without_separator() {
    let text = "Crate: foo\nVersion: 1.0\nDependency tree:\nfoo 1.0\nwith bar 2.0\n\n";
    let records = scan_records(text).expect("well-formed report");
    assert_eq!(records[0].dependency_tree, "foo 1.0with bar 2.0");
}

#[test]
fn values_are_trimmed_of_spaces() {
    assert_eq!(trim_spaces("  x  "), "x");
    assert_eq!(trim_spaces(""), "");
    assert_eq!(trim_spaces("   "), "");
    assert_eq!(trim_spaces("a b"), "a b");
    let text = "Crate:   spacey  \nVersion: 1.0\nDependency tree:\nx\n\n";
    let records = scan_records(text).expect("well-formed report");
    assert_eq!(records[0].package, "spacey");
}

#[test]
fn later_keys_overwrite_earlier_ones() {
    let text = "Crate: one\nCrate: two\nVersion: 1.0\nDependency tree:\nx\n\n";
    let records = scan_records(text).expect("well-formed report");
    assert_eq!(records[0].package, "two");
}
