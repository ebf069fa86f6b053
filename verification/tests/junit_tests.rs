use gitlab_report::cargo::CargoMessage;
use gitlab_report::cargo::CargoTestReportSuite;
use gitlab_report::cargo::CargoTestReportSuiteOkOrFailed;
use gitlab_report::cargo::CargoTestReportSuiteStarted;
use gitlab_report::cargo::CargoTestReportTest;
use gitlab_report::cargo::CargoTestReportTestEvent;
use gitlab_report::cargo::CargoTestReportTestOkOrFailed;
use gitlab_report::generate::test_to_junit;
use gitlab_report::junit::render_report;
use quick_xml::events::Event;
use quick_xml::reader::Reader;

fn suite_started(count: usize) -> CargoMessage {
    CargoMessage::Suite(CargoTestReportSuite::Started(CargoTestReportSuiteStarted {
        test_count: count,
    }))
}

fn suite_finished(passed: usize, failed: usize) -> CargoMessage {
    CargoMessage::Suite(CargoTestReportSuite::Finished(CargoTestReportSuiteOkOrFailed {
        passed,
        failed,
        allowed_fail: 0,
        ignored: 1,
        measured: 0,
        filtered_out: 2,
        exec_time_nanos: 305_000_000,
    }))
}

fn test_event(name: &str, event: CargoTestReportTestEvent) -> CargoMessage {
    CargoMessage::Test(CargoTestReportTest { name: name.to_string(), event })
}

/// Counts elements and collects the per-suite `tests`/`failures`
/// attributes with an XML-aware reader.
fn xml_shape(xml: &str) -> (Vec<(usize, usize)>, usize) {
    let mut reader = Reader::from_str(xml);
    let mut suites = Vec::new();
    let mut testcases = 0;
    loop {
        match reader.read_event().expect("well-formed xml") {
            Event::Start(e) | Event::Empty(e) => {
                let name = e.name().as_ref().to_string();
                if name == "testsuite" {
                    let tests: usize = e
                        .try_get_attribute("tests")
                        .unwrap()
                        .expect("tests attribute")
                        .unescape_value()
                        .unwrap()
                        .parse()
                        .unwrap();
                    let failures: usize = e
                        .try_get_attribute("failures")
                        .unwrap()
                        .expect("failures attribute")
                        .unescape_value()
                        .unwrap()
                        .parse()
                        .unwrap();
                    suites.push((tests, failures));
                } else if name == "testcase" {
                    testcases += 1;
                }
            }
            Event::Eof => break,
            _ => {}
        }
    }
    (suites, testcases)
}

#[test]
fn junit_xml_round_trips_through_an_xml_reader() {
    let events = vec![
        (suite_started(2), 1_000_000_000),
        (test_event("m::a", CargoTestReportTestEvent::Started), 1_000_000_100),
        (
            test_event(
                "m::a",
                CargoTestReportTestEvent::Passed(CargoTestReportTestOkOrFailed { stdout: None }),
            ),
            1_000_000_200,
        ),
        (test_event("m::b", CargoTestReportTestEvent::Started), 1_000_000_300),
        (
            test_event(
                "m::b",
                CargoTestReportTestEvent::Failed(CargoTestReportTestOkOrFailed {
                    stdout: Some("assertion <failed> & more".to_string()),
                }),
            ),
            1_000_000_400,
        ),
        (suite_finished(1, 1), 1_000_000_500),
        (suite_started(0), 2_000_000_000),
        (suite_finished(0, 0), 2_000_000_001),
    ];
    let report = test_to_junit(&events).expect("well-formed stream");
    let xml = render_report(&report);

    let (suites, testcases) = xml_shape(&xml);
    assert_eq!(suites.len(), report.0.len());
    assert_eq!(suites.len(), 2);
    assert_eq!(testcases, 2);
    assert_eq!(suites[0], (2, 1));
    assert_eq!(suites[1], (0, 0));
}

#[test]
fn xml_escapes_attribute_and_text_content() {
    let events = vec![
        (suite_started(1), 0),
        (test_event("m::a<&\">'x", CargoTestReportTestEvent::Started), 10),
        (
            test_event(
                "m::a<&\">'x",
                CargoTestReportTestEvent::Failed(CargoTestReportTestOkOrFailed {
                    stdout: Some("left < right & \"quoted\"".to_string()),
                }),
            ),
            20,
        ),
    ];
    let report = test_to_junit(&events).expect("well-formed stream");
    let xml = render_report(&report);
    assert!(xml.contains("name=\"a&lt;&amp;&quot;&gt;&apos;x\""));
    assert!(xml.contains("left &lt; right &amp; &quot;quoted&quot;"));

    // The XML-aware reader recovers the source text.
    let mut reader = Reader::from_str(&xml);
    let mut found_name = None;
    let mut text = String::new();
    loop {
        match reader.read_event().expect("well-formed xml") {
            Event::Start(e) if e.name().as_ref() == "testcase" => {
                let name = e
                    .try_get_attribute("name")
                    .unwrap()
                    .expect("name attribute")
                    .unescape_value()
                    .unwrap()
                    .into_owned();
                found_name = Some(name);
            }
            Event::Text(t) => {
                text.push_str(&t.xml10_content());
            }
            Event::GeneralRef(r) => {
                text.push_str(match r.xml10_content().as_ref() {
                    "lt" => "<",
                    "gt" => ">",
                    "amp" => "&",
                    "quot" => "\"",
                    "apos" => "'",
                    other => panic!("unexpected entity: {}", other),
                });
            }
            Event::Eof => break,
            _ => {}
        }
    }
    assert_eq!(found_name.as_deref(), Some("a<&\">'x"));
    assert_eq!(text, "left < right & \"quoted\"");
}

#[test]
fn suite_timestamp_matches_the_calendar() {
    let created_nanos: u64 = 1_431_648_000_000_000_000;
    let events = vec![(suite_started(0), created_nanos)];
    let report = test_to_junit(&events).expect("well-formed stream");
    let expected = chrono::DateTime::<chrono::Utc>::from_timestamp(
        (created_nanos / 1_000_000_000) as i64,
        0,
    )
    .unwrap()
    .format("%Y-%m-%dT%H:%M:%S")
    .to_string();
    assert_eq!(report.0[0].timestamp, expected);
    assert_eq!(expected, "2015-05-15T00:00:00");
}

#[test]
fn exact_xml_for_one_skipped_testcase() {
    let events = vec![
        (suite_started(1), 0),
        (test_event("m::a", CargoTestReportTestEvent::Started), 250_000_000),
        (test_event("m::a", CargoTestReportTestEvent::Ignored), 500_000_000),
        (suite_finished(0, 0), 750_000_000),
    ];
    let report = test_to_junit(&events).expect("well-formed stream");
    let xml = render_report(&report);
    let expected = "<?xml version=\"1.0\" encoding=\"utf-8\"?><testsuites><testsuite id=\"0\" name=\"cargo test #0\" timestamp=\"1970-01-01T00:00:00\" hostname=\"localhost\" tests=\"1\" failures=\"0\" errors=\"0\" skipped=\"3\" time=\"0.305000000\"><testcase name=\"a\" classname=\"m\" time=\"0.250000000\"><skipped/></testcase></testsuite></testsuites>";
    assert_eq!(xml, expected);
}
