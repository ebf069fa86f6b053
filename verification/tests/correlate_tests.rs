use gitlab_report::cargo::CargoMessage;
use gitlab_report::cargo::CargoTestReportBench;
use gitlab_report::cargo::CargoTestReportSuite;
use gitlab_report::cargo::CargoTestReportSuiteOkOrFailed;
use gitlab_report::cargo::CargoTestReportSuiteStarted;
use gitlab_report::cargo::CargoTestReportTest;
use gitlab_report::cargo::CargoTestReportTestEvent;
use gitlab_report::cargo::CargoTestReportTestOkOrFailed;
use gitlab_report::correlate::correlate;
use gitlab_report::correlate::split_qualified_name;
use gitlab_report::correlate::TestcaseStatus;
use gitlab_report::errors::ReportError;

fn suite_started(count: usize) -> CargoMessage {
    CargoMessage::Suite(CargoTestReportSuite::Started(CargoTestReportSuiteStarted {
        test_count: count,
    }))
}

fn suite_finished(passed: usize, failed: usize, ignored: usize) -> CargoMessage {
    CargoMessage::Suite(CargoTestReportSuite::Finished(CargoTestReportSuiteOkOrFailed {
        passed,
        failed,
        allowed_fail: 0,
        ignored,
        measured: 0,
        filtered_out: 0,
        exec_time_nanos: 305_000_000,
    }))
}

fn test_started(name: &str) -> CargoMessage {
    CargoMessage::Test(CargoTestReportTest {
        name: name.to_string(),
        event: CargoTestReportTestEvent::Started,
    })
}

fn test_passed(name: &str) -> CargoMessage {
    CargoMessage::Test(CargoTestReportTest {
        name: name.to_string(),
        event: CargoTestReportTestEvent::Passed(CargoTestReportTestOkOrFailed { stdout: None }),
    })
}

fn test_failed(name: &str, stdout: Option<&str>) -> CargoMessage {
    CargoMessage::Test(CargoTestReportTest {
        name: name.to_string(),
        event: CargoTestReportTestEvent::Failed(CargoTestReportTestOkOrFailed {
            stdout: stdout.map(|s| s.to_string()),
        }),
    })
}

fn test_ignored(name: &str) -> CargoMessage {
    CargoMessage::Test(CargoTestReportTest {
        name: name.to_string(),
        event: CargoTestReportTestEvent::Ignored,
    })
}

#[test]
fn single_passing_testcase() {
    let events = vec![
        (suite_started(1), 10),
        (test_started("mod::case_a"), 20),
        (test_passed("mod::case_a"), 30),
        (suite_finished(1, 0, 0), 40),
    ];
    let run = correlate(&events).expect("well-formed stream");
    assert_eq!(run.suites.len(), 1);
    let suite = &run.suites[0];
    assert_eq!(suite.index, 0);
    assert_eq!(suite.declared_count, 1);
    assert_eq!(suite.created_nanos, 10);
    assert_eq!(suite.testcases.len(), 1);
    let case = &suite.testcases[0];
    assert_eq!(case.module, "mod");
    assert_eq!(case.name, "case_a");
    assert!(matches!(case.status, TestcaseStatus::Passed));
    let summary = suite.summary.as_ref().expect("suite finished");
    assert_eq!(summary.passed, 1);
    assert_eq!(summary.failed, 0);
    assert_eq!(summary.exec_time_nanos, 305_000_000);
    assert!(!run.in_suite);
}

#[test]
fn finish_without_start_is_unmatched() {
    let events = vec![(suite_started(1), 10), (test_passed("mod::case_a"), 20)];
    let err = correlate(&events).err().expect("unmatched event");
    assert!(matches!(err, ReportError::UnmatchedEvent { .. }));
    // No report comes out of such a stream.
    assert!(gitlab_report::generate::test_to_junit(&events).is_err());
}

#[test]
fn finish_in_idle_state_is_unmatched() {
    let events = vec![(test_passed("mod::case_a"), 20)];
    let err = correlate(&events).err().expect("unmatched event");
    assert!(matches!(err, ReportError::UnmatchedEvent { .. }));
}

#[test]
fn suite_finished_without_open_suite_is_unmatched() {
    let events = vec![(suite_finished(0, 0, 0), 10)];
    let err = correlate(&events).err().expect("unmatched event");
    assert!(matches!(err, ReportError::UnmatchedEvent { .. }));
}

#[test]
fn suite_ordinals_count_up_from_zero() {
    let events = vec![
        (suite_started(0), 1),
        (suite_finished(0, 0, 0), 2),
        (suite_started(0), 3),
        (suite_finished(0, 0, 0), 4),
        (suite_started(0), 5),
    ];
    let run = correlate(&events).expect("well-formed stream");
    assert_eq!(run.suites.len(), 3);
    for (i, suite) in run.suites.iter().enumerate() {
        assert_eq!(suite.index, i);
    }
    assert!(run.in_suite);
    assert!(run.suites[2].summary.is_none());
}

#[test]
fn durations_measure_processing_time() {
    let events = vec![
        (suite_started(2), 100),
        (test_started("a::one"), 150),
        (test_started("a::two"), 160),
        (test_passed("a::one"), 175),
        (test_ignored("a::two"), 300),
    ];
    let run = correlate(&events).expect("well-formed stream");
    let cases = &run.suites[0].testcases;
    assert_eq!(cases[0].duration_nanos, 25);
    assert!(matches!(cases[0].status, TestcaseStatus::Passed));
    assert_eq!(cases[1].duration_nanos, 140);
    assert!(matches!(cases[1].status, TestcaseStatus::Skipped));
}

#[test]
fn resolution_picks_last_pending_with_same_key() {
    let events = vec![
        (suite_started(2), 0),
        (test_started("m::t"), 10),
        (test_started("m::t"), 20),
        (test_failed("m::t", Some("boom")), 35),
    ];
    let run = correlate(&events).expect("well-formed stream");
    let cases = &run.suites[0].testcases;
    assert_eq!(cases.len(), 2);
    assert!(matches!(cases[0].status, TestcaseStatus::Pending));
    match &cases[1].status {
        TestcaseStatus::Failed { output } => assert_eq!(output, "boom"),
        other => panic!("expected failed, got {:?}", other),
    }
    assert_eq!(cases[1].duration_nanos, 15);
}

#[test]
fn failed_without_output_records_empty_output() {
    let events = vec![
        (suite_started(1), 0),
        (test_started("m::t"), 1),
        (test_failed("m::t", None), 2),
    ];
    let run = correlate(&events).expect("well-formed stream");
    match &run.suites[0].testcases[0].status {
        TestcaseStatus::Failed { output } => assert_eq!(output, ""),
        other => panic!("expected failed, got {:?}", other),
    }
}

#[test]
fn bench_results_collect_in_any_state() {
    let events = vec![
        (
            CargoMessage::Bench(CargoTestReportBench {
                name: "bench_free".to_string(),
                median_nanos: 120,
                deviation_nanos: 4,
            }),
            0,
        ),
        (suite_started(0), 1),
        (
            CargoMessage::Bench(CargoTestReportBench {
                name: "bench_in_suite".to_string(),
                median_nanos: 7,
                deviation_nanos: 1,
            }),
            2,
        ),
    ];
    let run = correlate(&events).expect("well-formed stream");
    assert_eq!(run.benches.len(), 2);
    assert_eq!(run.benches[0].name, "bench_free");
    assert_eq!(run.benches[0].median_nanos, 120);
    assert_eq!(run.benches[1].name, "bench_in_suite");
}

#[test]
fn qualified_names_split_on_last_separator() {
    let (module, name) = split_qualified_name("a::b::c");
    assert_eq!(module, "a::b");
    assert_eq!(name, "c");
    let (module, name) = split_qualified_name("bare");
    assert_eq!(module, "");
    assert_eq!(name, "bare");
    let (module, name) = split_qualified_name("");
    assert_eq!(module, "");
    assert_eq!(name, "");
    let (module, name) = split_qualified_name("x::");
    assert_eq!(module, "x");
    assert_eq!(name, "");
}

#[test]
fn error_message_names_the_event() {
    let events = vec![(test_passed("mod::case_a"), 20)];
    let err = correlate(&events).err().expect("unmatched event");
    assert_eq!(err.message(), "unmatched event: mod::case_a");
}

#[test]
fn error_messages_name_their_kind_and_context() {
    let e = ReportError::MalformedEvent {
        line: "{not json".to_string(),
        detail: "bad discriminator".to_string(),
    };
    assert_eq!(e.message(), "malformed event: bad discriminator in line: {not json");
    let e = ReportError::MalformedRecord {
        detail: "missing version".to_string(),
    };
    assert_eq!(e.message(), "malformed record: missing version");
    let e = ReportError::IOFailure {
        detail: "stream closed".to_string(),
    };
    assert_eq!(e.message(), "i/o failure: stream closed");
}
