//! The test-report tree in the classic XML schema's vocabulary: suites
//! with counts and a timestamp, testcases with a class name, a duration
//! and an optional skipped or failure child.  [`render_report`] serializes
//! the tree; its output is specified character by character.

use vstd::prelude::*;
use crate::textfmt::spec_dec;
use crate::textfmt::spec_nanos_as_seconds;
use crate::textfmt::spec_xml_escape;
use crate::textfmt::dec_u64;
use crate::textfmt::nanos_as_seconds;
use crate::textfmt::xml_escape;

verus! {

#[derive(Debug, Clone)]
pub struct Report(pub Vec<Testsuite>);

/// One suite element.  Durations are whole nanoseconds; the suite's own
/// duration is the one taken verbatim from the finishing event.
#[derive(Debug, Clone)]
pub struct Testsuite {
    pub id: usize,
    pub name: String,
    pub timestamp: String,
    pub hostname: String,
    pub tests: usize,
    pub failures: usize,
    pub errors: usize,
    pub skipped: usize,
    pub time_nanos: u64,
    pub properties: Option<Vec<TestsuiteProperty>>,
    pub testcases: Option<Vec<TestsuiteTestcase>>,
}

#[derive(Debug, Clone)]
pub struct TestsuiteProperty {
    pub name: String,
    pub value: String,
}

/// One testcase element.  A testcase without a status child passed or is
/// still pending.
#[derive(Debug, Clone)]
pub struct TestsuiteTestcase {
    pub status: Option<TestsuiteTestcaseStatus>,
    pub name: String,
    pub classname: String,
    pub time_nanos: u64,
}

#[derive(Debug, Clone)]
pub enum TestsuiteTestcaseStatus {
    Skipped,
    Error { kind: String, message: String },
    Failure { kind: String, system_output: String },
}

/// The status child of a testcase element: nothing for a passed or pending
/// case, an empty skipped element, or an error or failure element.
pub open spec fn spec_render_status(status: Option<TestsuiteTestcaseStatus>) -> Seq<char> {
    match status {
        None => Seq::empty(),
        Some(TestsuiteTestcaseStatus::Skipped) => "<skipped/>"@,
        Some(TestsuiteTestcaseStatus::Error { kind, message }) => "<error type=\""@
            + spec_xml_escape(kind@) + "\" message=\""@ + spec_xml_escape(message@) + "\"/>"@,
        Some(TestsuiteTestcaseStatus::Failure { kind, system_output }) => "<failure type=\""@
            + spec_xml_escape(kind@) + "\">"@ + spec_xml_escape(system_output@)
            + "</failure>"@,
    }
}

/// One testcase element with its name, class name, duration in seconds and
/// status child.
pub open spec fn spec_render_testcase(tc: TestsuiteTestcase) -> Seq<char> {
    "<testcase name=\""@ + spec_xml_escape(tc.name@) + "\" classname=\""@ + spec_xml_escape(
        tc.classname@,
    ) + "\" time=\""@ + spec_nanos_as_seconds(tc.time_nanos as nat) + "\">"@ + spec_render_status(
        tc.status,
    ) + "</testcase>"@
}

/// A sequence of testcase elements, in order.
pub open spec fn spec_render_testcases(tcs: Seq<TestsuiteTestcase>) -> Seq<char>
    decreases tcs.len(),
{
    if tcs.len() == 0 {
        Seq::empty()
    } else {
        spec_render_testcases(tcs.drop_last()) + spec_render_testcase(tcs.last())
    }
}

/// One property element.
pub open spec fn spec_render_property(p: TestsuiteProperty) -> Seq<char> {
    "<property name=\""@ + spec_xml_escape(p.name@) + "\" value=\""@ + spec_xml_escape(p.value@)
        + "\"/>"@
}

/// A sequence of property elements, in order.
pub open spec fn spec_render_properties(ps: Seq<TestsuiteProperty>) -> Seq<char>
    decreases ps.len(),
{
    if ps.len() == 0 {
        Seq::empty()
    } else {
        spec_render_properties(ps.drop_last()) + spec_render_property(ps.last())
    }
}

/// One suite element: the counts as attributes, then the property and
/// testcase children.  An absent child list renders as nothing.
pub open spec fn spec_render_testsuite(s: Testsuite) -> Seq<char> {
    "<testsuite id=\""@ + spec_dec(s.id as nat) + "\" name=\""@ + spec_xml_escape(s.name@)
        + "\" timestamp=\""@ + spec_xml_escape(s.timestamp@) + "\" hostname=\""@ + spec_xml_escape(
        s.hostname@,
    ) + "\" tests=\""@ + spec_dec(s.tests as nat) + "\" failures=\""@ + spec_dec(s.failures as nat)
        + "\" errors=\""@ + spec_dec(s.errors as nat) + "\" skipped=\""@ + spec_dec(
        s.skipped as nat,
    ) + "\" time=\""@ + spec_nanos_as_seconds(s.time_nanos as nat) + "\">"@ + (match s.properties {
        None => Seq::<char>::empty(),
        Some(ps) => spec_render_properties(ps@),
    }) + (match s.testcases {
        None => Seq::<char>::empty(),
        Some(tcs) => spec_render_testcases(tcs@),
    }) + "</testsuite>"@
}

/// A sequence of suite elements, in order.
pub open spec fn spec_render_testsuites(ss: Seq<Testsuite>) -> Seq<char>
    decreases ss.len(),
{
    if ss.len() == 0 {
        Seq::empty()
    } else {
        spec_render_testsuites(ss.drop_last()) + spec_render_testsuite(ss.last())
    }
}

/// The whole document: the XML declaration, then every suite inside one
/// root element.
pub open spec fn spec_render_report(r: Report) -> Seq<char> {
    "<?xml version=\"1.0\" encoding=\"utf-8\"?>"@ + "<testsuites>"@ + spec_render_testsuites(r.0@)
        + "</testsuites>"@
}

fn render_status(status: &Option<TestsuiteTestcaseStatus>) -> (r: String)
    ensures
        r@ == spec_render_status(*status),
{
    let mut r = String::new();
    match status {
        None => {},
        Some(TestsuiteTestcaseStatus::Skipped) => {
            r.append("<skipped/>");
        },
        Some(TestsuiteTestcaseStatus::Error { kind, message }) => {
            r.append("<error type=\"");
            let e = xml_escape(kind.as_str());
            r.append(e.as_str());
            r.append("\" message=\"");
            let e = xml_escape(message.as_str());
            r.append(e.as_str());
            r.append("\"/>");
        },
        Some(TestsuiteTestcaseStatus::Failure { kind, system_output }) => {
            r.append("<failure type=\"");
            let e = xml_escape(kind.as_str());
            r.append(e.as_str());
            r.append("\">");
            let e = xml_escape(system_output.as_str());
            r.append(e.as_str());
            r.append("</failure>");
        },
    }
    assert(r@ =~= spec_render_status(*status));
    r
}

fn render_testcase(tc: &TestsuiteTestcase) -> (r: String)
    ensures
        r@ == spec_render_testcase(*tc),
{
    let mut r = String::new();
    r.append("<testcase name=\"");
    let e = xml_escape(tc.name.as_str());
    r.append(e.as_str());
    r.append("\" classname=\"");
    let e = xml_escape(tc.classname.as_str());
    r.append(e.as_str());
    r.append("\" time=\"");
    let t = nanos_as_seconds(tc.time_nanos);
    r.append(t.as_str());
    r.append("\">");
    let s = render_status(&tc.status);
    r.append(s.as_str());
    r.append("</testcase>");
    assert(r@ =~= spec_render_testcase(*tc));
    r
}

fn render_property(p: &TestsuiteProperty) -> (r: String)
    ensures
        r@ == spec_render_property(*p),
{
    let mut r = String::new();
    r.append("<property name=\"");
    let e = xml_escape(p.name.as_str());
    r.append(e.as_str());
    r.append("\" value=\"");
    let e = xml_escape(p.value.as_str());
    r.append(e.as_str());
    r.append("\"/>");
    assert(r@ =~= spec_render_property(*p));
    r
}

fn render_testsuite(s: &Testsuite) -> (r: String)
    ensures
        r@ == spec_render_testsuite(*s),
{
    let mut r = String::new();
    r.append("<testsuite id=\"");
    let t = dec_u64(s.id as u64);
    r.append(t.as_str());
    r.append("\" name=\"");
    let e = xml_escape(s.name.as_str());
    r.append(e.as_str());
    r.append("\" timestamp=\"");
    let e = xml_escape(s.timestamp.as_str());
    r.append(e.as_str());
    r.append("\" hostname=\"");
    let e = xml_escape(s.hostname.as_str());
    r.append(e.as_str());
    r.append("\" tests=\"");
    let t = dec_u64(s.tests as u64);
    r.append(t.as_str());
    r.append("\" failures=\"");
    let t = dec_u64(s.failures as u64);
    r.append(t.as_str());
    r.append("\" errors=\"");
    let t = dec_u64(s.errors as u64);
    r.append(t.as_str());
    r.append("\" skipped=\"");
    let t = dec_u64(s.skipped as u64);
    r.append(t.as_str());
    r.append("\" time=\"");
    let t = nanos_as_seconds(s.time_nanos);
    r.append(t.as_str());
    r.append("\">");
    match &s.properties {
        None => {},
        Some(ps) => {
            let ghost prefix = r@;
            let mut i: usize = 0;
            assert(ps@.subrange(0, 0) =~= Seq::<TestsuiteProperty>::empty());
            while i < ps.len()
                invariant
                    i <= ps@.len(),
                    r@ == prefix + spec_render_properties(ps@.subrange(0, i as int)),
                decreases ps@.len() - i,
            {
                let p = render_property(&ps[i]);
                r.append(p.as_str());
                proof {
                    assert(ps@.subrange(0, i + 1).drop_last() =~= ps@.subrange(0, i as int));
                    assert(ps@.subrange(0, i + 1).last() == ps@[i as int]);
                }
                i = i + 1;
            }
            assert(ps@.subrange(0, ps@.len() as int) =~= ps@);
        },
    }
    match &s.testcases {
        None => {},
        Some(tcs) => {
            let ghost prefix = r@;
            let mut i: usize = 0;
            assert(tcs@.subrange(0, 0) =~= Seq::<TestsuiteTestcase>::empty());
            while i < tcs.len()
                invariant
                    i <= tcs@.len(),
                    r@ == prefix + spec_render_testcases(tcs@.subrange(0, i as int)),
                decreases tcs@.len() - i,
            {
                let p = render_testcase(&tcs[i]);
                r.append(p.as_str());
                proof {
                    assert(tcs@.subrange(0, i + 1).drop_last() =~= tcs@.subrange(0, i as int));
                    assert(tcs@.subrange(0, i + 1).last() == tcs@[i as int]);
                }
                i = i + 1;
            }
            assert(tcs@.subrange(0, tcs@.len() as int) =~= tcs@);
        },
    }
    r.append("</testsuite>");
    assert(r@ =~= spec_render_testsuite(*s));
    r
}

/// Serializes the whole report, exactly as [`spec_render_report`] lays it
/// out.
pub fn render_report(report: &Report) -> (r: String)
    ensures
        r@ == spec_render_report(*report),
{
    let mut r = String::new();
    r.append("<?xml version=\"1.0\" encoding=\"utf-8\"?>");
    r.append("<testsuites>");
    let ghost prefix = r@;
    let mut i: usize = 0;
    assert(report.0@.subrange(0, 0) =~= Seq::<Testsuite>::empty());
    while i < report.0.len()
        invariant
            i <= report.0@.len(),
            r@ == prefix + spec_render_testsuites(report.0@.subrange(0, i as int)),
        decreases report.0@.len() - i,
    {
        let p = render_testsuite(&report.0[i]);
        r.append(p.as_str());
        proof {
            assert(report.0@.subrange(0, i + 1).drop_last() =~= report.0@.subrange(0, i as int));
            assert(report.0@.subrange(0, i + 1).last() == report.0@[i as int]);
        }
        i = i + 1;
    }
    assert(report.0@.subrange(0, report.0@.len() as int) =~= report.0@);
    r.append("</testsuites>");
    assert(r@ =~= spec_render_report(*report));
    r
}

} // verus!
