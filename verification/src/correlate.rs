//! The run correlator: the state machine that rebuilds a tree of suites
//! and testcases from the flat, time-ordered event stream of the test
//! runner.
//!
//! The machine is either idle or inside one open suite.  A suite-started
//! event opens a new suite with the next ordinal; test events attach to the
//! open suite; a suite-finished event writes the suite's final counts and
//! closes it.  A finish or ignore event resolves the most recently started
//! still-pending testcase with the same `(module, name)` key; if there is
//! none, the whole run fails with an unmatched-event error.  Benchmark
//! results are collected on the side in any state.
//!
//! Every transition is specified against a ghost model ([`RunModel`]) by
//! the total step function [`step`]; the executable [`TestRun::process`]
//! is proved to follow it exactly.

use vstd::prelude::*;
use crate::cargo::CargoMessage;
use crate::cargo::CargoTestReportBench;
use crate::cargo::CargoTestReportSuite;
use crate::cargo::CargoTestReportSuiteOkOrFailed;
use crate::cargo::CargoTestReportTest;
use crate::cargo::CargoTestReportTestEvent;
use crate::cargo::CargoTestReportTestOkOrFailed;
use crate::errors::ReportError;

verus! {

/// The final state of one testcase.  `Pending` marks a testcase whose
/// resolving event has not arrived yet.
#[derive(Debug, Clone)]
pub enum TestcaseStatus {
    Pending,
    Skipped,
    Failed { output: String },
    Passed,
}

/// One testcase of a suite.  The key `(module, name)` comes from splitting
/// the qualified test name on its last scope separator; both halves are
/// immutable once set.  `duration_nanos` is written once, by the resolving
/// event.
#[derive(Debug, Clone)]
pub struct Testcase {
    pub module: String,
    pub name: String,
    pub start_nanos: u64,
    pub duration_nanos: u64,
    pub status: TestcaseStatus,
}

/// The aggregate counts a suite-finished event carries; its duration is
/// taken verbatim from the event.
#[derive(Debug, Clone, Copy)]
pub struct SuiteSummary {
    pub passed: usize,
    pub failed: usize,
    pub allowed_fail: usize,
    pub ignored: usize,
    pub measured: usize,
    pub filtered_out: usize,
    pub exec_time_nanos: u64,
}

/// One suite: its ordinal index (assigned at creation), the declared test
/// count, the creation timestamp, its testcases in start order, and the
/// summary written at the finishing event, if one arrived.
#[derive(Debug, Clone)]
pub struct Suite {
    pub index: usize,
    pub declared_count: usize,
    pub created_nanos: u64,
    pub testcases: Vec<Testcase>,
    pub summary: Option<SuiteSummary>,
}

/// The correlator's whole state: the suites in creation order, whether the
/// last one is still open, the benchmark results seen so far, and the
/// largest timestamp processed yet.
#[derive(Debug)]
pub struct TestRun {
    pub suites: Vec<Suite>,
    pub in_suite: bool,
    pub benches: Vec<CargoTestReportBench>,
    pub clock: u64,
}

/// The ghost image of a testcase status.
#[verifier::ext_equal]
pub ghost enum StatusModel {
    Pending,
    Skipped,
    Failed(Seq<char>),
    Passed,
}

/// The ghost image of a testcase.
#[verifier::ext_equal]
pub ghost struct CaseModel {
    pub module: Seq<char>,
    pub name: Seq<char>,
    pub start_nanos: u64,
    pub duration_nanos: u64,
    pub status: StatusModel,
}

/// The ghost image of a suite.
#[verifier::ext_equal]
pub ghost struct SuiteModel {
    pub index: int,
    pub declared_count: usize,
    pub created_nanos: u64,
    pub cases: Seq<CaseModel>,
    pub summary: Option<SuiteSummary>,
}

/// The ghost image of the correlator state.
#[verifier::ext_equal]
pub ghost struct RunModel {
    pub suites: Seq<SuiteModel>,
    pub in_suite: bool,
    pub benches: Seq<CargoTestReportBench>,
    pub clock: u64,
}

pub open spec fn status_model(s: TestcaseStatus) -> StatusModel {
    match s {
        TestcaseStatus::Pending => StatusModel::Pending,
        TestcaseStatus::Skipped => StatusModel::Skipped,
        TestcaseStatus::Failed { output } => StatusModel::Failed(output@),
        TestcaseStatus::Passed => StatusModel::Passed,
    }
}

impl View for Testcase {
    type V = CaseModel;

    open spec fn view(&self) -> CaseModel {
        CaseModel {
            module: self.module@,
            name: self.name@,
            start_nanos: self.start_nanos,
            duration_nanos: self.duration_nanos,
            status: status_model(self.status),
        }
    }
}

impl View for Suite {
    type V = SuiteModel;

    open spec fn view(&self) -> SuiteModel {
        SuiteModel {
            index: self.index as int,
            declared_count: self.declared_count,
            created_nanos: self.created_nanos,
            cases: self.testcases@.map_values(|c: Testcase| c@),
            summary: self.summary,
        }
    }
}

impl View for TestRun {
    type V = RunModel;

    open spec fn view(&self) -> RunModel {
        RunModel {
            suites: self.suites@.map_values(|s: Suite| s@),
            in_suite: self.in_suite,
            benches: self.benches@,
            clock: self.clock,
        }
    }
}

/// The position of the last scope separator `::` in a qualified name, or
/// `-1` if there is none.
pub open spec fn last_sep(q: Seq<char>) -> int
    decreases q.len(),
{
    if q.len() < 2 {
        -1
    } else if q[q.len() - 2] == ':' && q[q.len() - 1] == ':' {
        q.len() - 2
    } else {
        last_sep(q.drop_last())
    }
}

/// The module half of a qualified name: everything before the last scope
/// separator, or empty if there is none.
pub open spec fn split_module(q: Seq<char>) -> Seq<char> {
    if last_sep(q) == -1 {
        Seq::empty()
    } else {
        q.subrange(0, last_sep(q))
    }
}

/// The short-name half of a qualified name: everything after the last
/// scope separator, or the whole name if there is none.
pub open spec fn split_name(q: Seq<char>) -> Seq<char> {
    if last_sep(q) == -1 {
        q
    } else {
        q.subrange(last_sep(q) + 2, q.len() as int)
    }
}

/// Whether a testcase is still pending and carries the given key.
pub open spec fn pending_match(c: CaseModel, module: Seq<char>, name: Seq<char>) -> bool {
    c.status is Pending && c.module == module && c.name == name
}

/// The index of the last pending testcase with the given key, or `-1` if
/// there is none.  A finish or ignore event resolves exactly this one.
pub open spec fn last_pending(cases: Seq<CaseModel>, module: Seq<char>, name: Seq<char>) -> int
    decreases cases.len(),
{
    if cases.len() == 0 {
        -1
    } else if pending_match(cases.last(), module, name) {
        cases.len() - 1
    } else {
        last_pending(cases.drop_last(), module, name)
    }
}

/// The summary a finishing event writes onto its suite.
pub open spec fn summary_model(v: CargoTestReportSuiteOkOrFailed) -> SuiteSummary {
    SuiteSummary {
        passed: v.passed,
        failed: v.failed,
        allowed_fail: v.allowed_fail,
        ignored: v.ignored,
        measured: v.measured,
        filtered_out: v.filtered_out,
        exec_time_nanos: v.exec_time_nanos,
    }
}

/// The failure output recorded for a failed testcase: the event's captured
/// output, or empty if the event carried none.
pub open spec fn failure_output(v: CargoTestReportTestOkOrFailed) -> Seq<char> {
    match v.stdout {
        Some(s) => s@,
        None => Seq::empty(),
    }
}

/// The status a resolving event assigns.
pub open spec fn resolved_status(ev: CargoTestReportTestEvent) -> StatusModel {
    match ev {
        CargoTestReportTestEvent::Started => StatusModel::Pending,
        CargoTestReportTestEvent::Ignored => StatusModel::Skipped,
        CargoTestReportTestEvent::Passed(_) => StatusModel::Passed,
        CargoTestReportTestEvent::Failed(v) => StatusModel::Failed(failure_output(v)),
    }
}

/// A testcase after its resolving event: the status is written and the
/// duration becomes the distance from its start to the resolving event's
/// processing time.
pub open spec fn resolve_case(c: CaseModel, st: StatusModel, now: u64) -> CaseModel {
    CaseModel { duration_nanos: (now - c.start_nanos) as u64, status: st, ..c }
}

/// The state the correlator starts in: no suites, no benches, clock at
/// zero.
pub open spec fn init_model() -> RunModel {
    RunModel { suites: Seq::empty(), in_suite: false, benches: Seq::empty(), clock: 0 }
}

/// One transition of the state machine.  `Err(())` is the unmatched-event
/// outcome: a finish or ignore event without a pending start, a test event
/// with no suite open, or a suite-finished event with no suite open; it is
/// fatal for the run.
pub open spec fn step(m: RunModel, msg: CargoMessage, now: u64) -> Result<RunModel, ()> {
    match msg {
        CargoMessage::Suite(CargoTestReportSuite::Started(s)) => Ok(
            RunModel {
                suites: m.suites.push(
                    SuiteModel {
                        index: m.suites.len() as int,
                        declared_count: s.test_count,
                        created_nanos: now,
                        cases: Seq::empty(),
                        summary: None,
                    },
                ),
                in_suite: true,
                clock: now,
                ..m
            },
        ),
        CargoMessage::Suite(CargoTestReportSuite::Finished(v)) => {
            if m.in_suite && m.suites.len() > 0 {
                let s = m.suites.last();
                Ok(
                    RunModel {
                        suites: m.suites.update(
                            m.suites.len() - 1,
                            SuiteModel { summary: Some(summary_model(v)), ..s },
                        ),
                        in_suite: false,
                        clock: now,
                        ..m
                    },
                )
            } else {
                Err(())
            }
        },
        CargoMessage::Test(t) => {
            let module = split_module(t.name@);
            let name = split_name(t.name@);
            if !(m.in_suite && m.suites.len() > 0) {
                Err(())
            } else {
                let s = m.suites.last();
                match t.event {
                    CargoTestReportTestEvent::Started => Ok(
                        RunModel {
                            suites: m.suites.update(
                                m.suites.len() - 1,
                                SuiteModel {
                                    cases: s.cases.push(
                                        CaseModel {
                                            module: module,
                                            name: name,
                                            start_nanos: now,
                                            duration_nanos: 0,
                                            status: StatusModel::Pending,
                                        },
                                    ),
                                    ..s
                                },
                            ),
                            clock: now,
                            ..m
                        },
                    ),
                    _ => {
                        let i = last_pending(s.cases, module, name);
                        if i == -1 {
                            Err(())
                        } else {
                            Ok(
                                RunModel {
                                    suites: m.suites.update(
                                        m.suites.len() - 1,
                                        SuiteModel {
                                            cases: s.cases.update(
                                                i,
                                                resolve_case(
                                                    s.cases[i],
                                                    resolved_status(t.event),
                                                    now,
                                                ),
                                            ),
                                            ..s
                                        },
                                    ),
                                    clock: now,
                                    ..m
                                },
                            )
                        }
                    },
                }
            }
        },
        CargoMessage::Bench(b) => Ok(
            RunModel { benches: m.benches.push(b), clock: now, ..m },
        ),
    }
}

/// The correlator's invariant: ordinals equal positions, every recorded
/// start lies at or before the clock, and an open suite exists.
pub open spec fn model_wf(m: RunModel) -> bool {
    &&& forall|i: int| 0 <= i < m.suites.len() ==> (#[trigger] m.suites[i]).index == i
    &&& forall|i: int, j: int|
        0 <= i < m.suites.len() && 0 <= j < m.suites[i].cases.len() ==> (
        #[trigger] m.suites[i].cases[j]).start_nanos <= m.clock
    &&& (m.in_suite ==> m.suites.len() > 0)
}

/// Where `last_pending` points when it found something: at a pending match
/// with no pending match after it.
pub proof fn lemma_last_pending_found(cases: Seq<CaseModel>, module: Seq<char>, name: Seq<char>)
    requires
        last_pending(cases, module, name) != -1,
    ensures
        0 <= last_pending(cases, module, name) < cases.len(),
        pending_match(cases[last_pending(cases, module, name)], module, name),
        forall|k: int|
            last_pending(cases, module, name) < k < cases.len() ==> !pending_match(
                #[trigger] cases[k],
                module,
                name,
            ),
    decreases cases.len(),
{
    if cases.len() > 0 && !pending_match(cases.last(), module, name) {
        lemma_last_pending_found(cases.drop_last(), module, name);
        assert forall|k: int|
            last_pending(cases, module, name) < k < cases.len() implies !pending_match(
            cases[k],
            module,
            name,
        ) by {
            if k < cases.len() - 1 {
                assert(cases[k] == cases.drop_last()[k]);
            }
        }
    }
}

/// Where `last_pending` found nothing, nothing matches.
pub proof fn lemma_last_pending_none(cases: Seq<CaseModel>, module: Seq<char>, name: Seq<char>)
    requires
        last_pending(cases, module, name) == -1,
    ensures
        forall|k: int| 0 <= k < cases.len() ==> !pending_match(#[trigger] cases[k], module, name),
    decreases cases.len(),
{
    if cases.len() > 0 {
        lemma_last_pending_none(cases.drop_last(), module, name);
        assert forall|k: int| 0 <= k < cases.len() implies !pending_match(
            cases[k],
            module,
            name,
        ) by {
            if k < cases.len() - 1 {
                assert(cases[k] == cases.drop_last()[k]);
            }
        }
    }
}

/// A pending match below nothing but non-matches is exactly where
/// `last_pending` points.
pub proof fn lemma_last_pending_at(
    cases: Seq<CaseModel>,
    module: Seq<char>,
    name: Seq<char>,
    i: int,
)
    requires
        0 <= i < cases.len(),
        pending_match(cases[i], module, name),
        forall|k: int| i < k < cases.len() ==> !pending_match(#[trigger] cases[k], module, name),
    ensures
        last_pending(cases, module, name) == i,
    decreases cases.len(),
{
    if i == cases.len() - 1 {
    } else {
        assert forall|k: int| i < k < cases.drop_last().len() implies !pending_match(
            cases.drop_last()[k],
            module,
            name,
        ) by {
            assert(cases.drop_last()[k] == cases[k]);
        }
        assert(cases.drop_last()[i] == cases[i]);
        lemma_last_pending_at(cases.drop_last(), module, name, i);
    }
}

/// Splits a qualified test name on the last occurrence of the scope
/// separator into its module and short-name halves; the module is empty
/// when there is no separator.
pub fn split_qualified_name(q: &str) -> (r: (String, String))
    ensures
        r.0@ == split_module(q@),
        r.1@ == split_name(q@),
{
    let len = q.unicode_len();
    let mut j: usize = len;
    assert(q@.subrange(0, len as int) =~= q@);
    while j >= 2
        invariant
            j <= len,
            len == q@.len(),
            last_sep(q@) == last_sep(q@.subrange(0, j as int)),
        decreases j,
    {
        if q.get_char(j - 2) == ':' && q.get_char(j - 1) == ':' {
            proof {
                let pre = q@.subrange(0, j as int);
                assert(pre[pre.len() - 2] == ':' && pre[pre.len() - 1] == ':');
                assert(last_sep(pre) == j - 2);
            }
            let module = q.substring_char(0, j - 2);
            let name = q.substring_char(j, len);
            return (module.to_owned(), name.to_owned());
        }
        proof {
            let pre = q@.subrange(0, j as int);
            assert(pre.drop_last() =~= q@.subrange(0, j - 1));
            assert(last_sep(pre) == last_sep(q@.subrange(0, j - 1)));
        }
        j = j - 1;
    }
    proof {
        assert(last_sep(q@.subrange(0, j as int)) == -1);
        assert(split_name(q@) == q@);
    }
    let module = String::new();
    let name = q.to_owned();
    (module, name)
}

impl TestRun {
    /// The invariant every state reachable from [`TestRun::new`] satisfies.
    pub open spec fn wf(&self) -> bool {
        model_wf(self@)
    }

    /// A fresh correlator, in the idle state.
    pub fn new() -> (r: TestRun)
        ensures
            r@ == init_model(),
            r.wf(),
    {
        let r = TestRun { suites: Vec::new(), in_suite: false, benches: Vec::new(), clock: 0 };
        proof {
            assert(r@ =~~= init_model());
        }
        r
    }

    /// Feeds one event, stamped with its processing time, through the
    /// state machine.  The state advances exactly as [`step`] prescribes;
    /// on the unmatched-event error the state is left unchanged.
    pub fn process(&mut self, msg: &CargoMessage, now_nanos: u64) -> (r: Result<(), ReportError>)
        requires
            old(self).wf(),
            now_nanos >= old(self)@.clock,
        ensures
            final(self).wf(),
            match r {
                Result::Ok(()) => step(old(self)@, *msg, now_nanos) == Ok::<RunModel, ()>(
                    final(self)@,
                ),
                Result::Err(e) => step(old(self)@, *msg, now_nanos) is Err && final(self)@ == old(
                    self,
                )@ && e is UnmatchedEvent,
            },
    {
        let ghost m0 = self@;
        match msg {
            CargoMessage::Suite(CargoTestReportSuite::Started(s)) => {
                let suite = Suite {
                    index: self.suites.len(),
                    declared_count: s.test_count,
                    created_nanos: now_nanos,
                    testcases: Vec::new(),
                    summary: None,
                };
                self.suites.push(suite);
                self.in_suite = true;
                self.clock = now_nanos;
                proof {
                    let stepped = step(m0, *msg, now_nanos);
                    assert(suite@.cases =~= Seq::<CaseModel>::empty());
                    assert(self@.suites =~= m0.suites.push(suite@));
                    assert(self@ =~~= stepped->Ok_0);
                }
                Ok(())
            },
            CargoMessage::Suite(CargoTestReportSuite::Finished(v)) => {
                if self.in_suite {
                    let mut suite = self.suites.pop().unwrap();
                    suite.summary = Some(
                        SuiteSummary {
                            passed: v.passed,
                            failed: v.failed,
                            allowed_fail: v.allowed_fail,
                            ignored: v.ignored,
                            measured: v.measured,
                            filtered_out: v.filtered_out,
                            exec_time_nanos: v.exec_time_nanos,
                        },
                    );
                    self.suites.push(suite);
                    self.in_suite = false;
                    self.clock = now_nanos;
                    proof {
                        let stepped = step(m0, *msg, now_nanos);
                        assert(self@.suites =~= m0.suites.update(
                            m0.suites.len() - 1,
                            SuiteModel { summary: Some(summary_model(*v)), ..m0.suites.last() },
                        ));
                        assert(self@ =~~= stepped->Ok_0);
                    }
                    Ok(())
                } else {
                    let mut name = String::new();
                    name.append("testsuite finished");
                    Err(ReportError::UnmatchedEvent { name })
                }
            },
            CargoMessage::Test(t) => self.process_test(t, now_nanos),
            CargoMessage::Bench(b) => {
                let copy = CargoTestReportBench {
                    name: b.name.clone(),
                    median_nanos: b.median_nanos,
                    deviation_nanos: b.deviation_nanos,
                };
                self.benches.push(copy);
                self.clock = now_nanos;
                proof {
                    let stepped = step(m0, *msg, now_nanos);
                    assert(self@ =~~= stepped->Ok_0);
                }
                Ok(())
            },
        }
    }

    /// The test-event half of [`TestRun::process`]: attach a new pending
    /// testcase, or resolve the last pending one with the event's key.
    fn process_test(&mut self, t: &CargoTestReportTest, now_nanos: u64) -> (r: Result<
        (),
        ReportError,
    >)
        requires
            old(self).wf(),
            now_nanos >= old(self)@.clock,
        ensures
            final(self).wf(),
            match r {
                Result::Ok(()) => step(old(self)@, CargoMessage::Test(*t), now_nanos) == Ok::<
                    RunModel,
                    (),
                >(final(self)@),
                Result::Err(e) => step(old(self)@, CargoMessage::Test(*t), now_nanos) is Err
                    && final(self)@ == old(self)@ && e is UnmatchedEvent,
            },
    {
        let ghost m0 = self@;
        let (module, name) = split_qualified_name(t.name.as_str());
        if !self.in_suite {
            return Err(ReportError::UnmatchedEvent { name: t.name.clone() });
        }
        let ghost s0 = m0.suites.last();
        match &t.event {
            CargoTestReportTestEvent::Started => {
                let case = Testcase {
                    module,
                    name,
                    start_nanos: now_nanos,
                    duration_nanos: 0,
                    status: TestcaseStatus::Pending,
                };
                let mut suite = self.suites.pop().unwrap();
                suite.testcases.push(case);
                self.suites.push(suite);
                self.clock = now_nanos;
                proof {
                    let stepped = step(m0, CargoMessage::Test(*t), now_nanos);
                    assert(suite@.cases =~= s0.cases.push(case@));
                    assert(self@.suites =~= m0.suites.update(
                        m0.suites.len() - 1,
                        SuiteModel { cases: s0.cases.push(case@), ..s0 },
                    ));
                    assert(self@ =~~= stepped->Ok_0);
                }
                Ok(())
            },
            _ => {
                // Scan the open suite's testcases from the end for the last
                // pending one with this key.
                let last = self.suites.len() - 1;
                let n = self.suites[last].testcases.len();
                let ghost cases = s0.cases;
                let mut j: usize = n;
                let mut found: Option<usize> = None;
                while j > 0 && found.is_none()
                    invariant
                        j <= n,
                        n == cases.len(),
                        0 < self.suites@.len(),
                        last == self.suites@.len() - 1,
                        cases == self@.suites.last().cases,
                        self.suites@[last as int].testcases@.len() == n,
                        forall|k: int|
                            0 <= k < n ==> (#[trigger] self.suites@[last as int].testcases@[k])@
                                == cases[k],
                        module@ == split_module(t.name@),
                        name@ == split_name(t.name@),
                        match found {
                            Some(i) => i < n && pending_match(cases[i as int], module@, name@)
                                && forall|k: int|
                                i < k < n ==> !pending_match(#[trigger] cases[k], module@, name@),
                            None => forall|k: int|
                                j <= k < n ==> !pending_match(#[trigger] cases[k], module@, name@),
                        },
                    decreases (if found is None { 1int } else { 0int }), j,
                {
                    let c = &self.suites[last].testcases[j - 1];
                    let is_pending = match c.status {
                        TestcaseStatus::Pending => true,
                        _ => false,
                    };
                    if is_pending && c.module == module && c.name == name {
                        found = Some(j - 1);
                    } else {
                        j = j - 1;
                    }
                }
                match found {
                    None => {
                        proof {
                            lemma_last_pending_at_none(cases, module@, name@);
                        }
                        Err(ReportError::UnmatchedEvent { name: t.name.clone() })
                    },
                    Some(i) => {
                        proof {
                            lemma_last_pending_at(cases, module@, name@, i as int);
                        }
                        let mut suite = self.suites.pop().unwrap();
                        let mut case = suite.testcases.remove(i);
                        case.duration_nanos = now_nanos - case.start_nanos;
                        case.status = match &t.event {
                            CargoTestReportTestEvent::Ignored => TestcaseStatus::Skipped,
                            CargoTestReportTestEvent::Passed(_) => TestcaseStatus::Passed,
                            CargoTestReportTestEvent::Failed(v) => TestcaseStatus::Failed {
                                output: match &v.stdout {
                                    Some(s) => s.clone(),
                                    None => String::new(),
                                },
                            },
                            CargoTestReportTestEvent::Started => TestcaseStatus::Pending,
                        };
                        suite.testcases.insert(i, case);
                        self.suites.push(suite);
                        self.clock = now_nanos;
                        proof {
                            let stepped = step(m0, CargoMessage::Test(*t), now_nanos);
                            assert(suite@.cases =~~= cases.update(
                                i as int,
                                resolve_case(cases[i as int], resolved_status(t.event), now_nanos),
                            ));
                            assert(self@.suites =~~= m0.suites.update(
                                m0.suites.len() - 1,
                                SuiteModel {
                                    cases: cases.update(
                                        i as int,
                                        resolve_case(
                                            cases[i as int],
                                            resolved_status(t.event),
                                            now_nanos,
                                        ),
                                    ),
                                    ..s0
                                },
                            ));
                            assert(self@ =~~= stepped->Ok_0);
                        }
                        Ok(())
                    },
                }
            },
        }
    }
}

/// Whether the stream's processing times never decrease.  A single
/// sequential reader stamping events as it goes produces such a stream.
pub open spec fn stream_monotone(events: Seq<(CargoMessage, u64)>) -> bool {
    forall|i: int, j: int|
        0 <= i <= j < events.len() ==> (#[trigger] events[i]).1 <= (#[trigger] events[j]).1
}

/// The state after a whole event stream, folded through [`step`] from the
/// initial state; `Err(())` as soon as any step is unmatched.
pub open spec fn run_stream(events: Seq<(CargoMessage, u64)>) -> Result<RunModel, ()>
    decreases events.len(),
{
    if events.len() == 0 {
        Ok(init_model())
    } else {
        match run_stream(events.drop_last()) {
            Ok(m) => step(m, events.last().0, events.last().1),
            Err(()) => Err(()),
        }
    }
}

/// Every transition preserves the invariant and stamps the clock with the
/// event's processing time.
pub proof fn lemma_step_wf(m: RunModel, msg: CargoMessage, now: u64)
    requires
        model_wf(m),
        now >= m.clock,
    ensures
        step(m, msg, now) matches Ok(m2) ==> model_wf(m2) && m2.clock == now,
{
    if step(m, msg, now) is Ok {
        let m2 = step(m, msg, now)->Ok_0;
        match msg {
            CargoMessage::Suite(CargoTestReportSuite::Started(s)) => {
                assert(model_wf(m2));
            },
            CargoMessage::Suite(CargoTestReportSuite::Finished(v)) => {
                assert(model_wf(m2));
            },
            CargoMessage::Test(t) => {
                let module = split_module(t.name@);
                let name = split_name(t.name@);
                let sidx = m.suites.len() - 1;
                match t.event {
                    CargoTestReportTestEvent::Started => {
                        assert(model_wf(m2));
                    },
                    _ => {
                        lemma_last_pending_found(m.suites[sidx].cases, module, name);
                        assert(model_wf(m2));
                    },
                }
            },
            CargoMessage::Bench(b) => {
                assert(model_wf(m2));
            },
        }
    }
}

/// A failed prefix fails the whole stream.
proof fn lemma_run_stream_prefix_err(events: Seq<(CargoMessage, u64)>, k: int)
    requires
        0 <= k <= events.len(),
        run_stream(events.subrange(0, k)) is Err,
    ensures
        run_stream(events) is Err,
    decreases events.len() - k,
{
    if k < events.len() {
        assert(events.subrange(0, k + 1).drop_last() =~= events.subrange(0, k));
        assert(run_stream(events.subrange(0, k + 1)) is Err);
        lemma_run_stream_prefix_err(events, k + 1);
    } else {
        assert(events.subrange(0, events.len() as int) =~= events);
    }
}

/// The state a well-formed stream folds to satisfies the invariant, and
/// its clock is the last event's processing time.
pub proof fn lemma_run_stream_wf(events: Seq<(CargoMessage, u64)>)
    requires
        stream_monotone(events),
        run_stream(events) is Ok,
    ensures
        model_wf(run_stream(events)->Ok_0),
        events.len() == 0 ==> run_stream(events)->Ok_0.clock == 0,
        events.len() > 0 ==> run_stream(events)->Ok_0.clock == events.last().1,
    decreases events.len(),
{
    if events.len() > 0 {
        let prefix = events.drop_last();
        assert(stream_monotone(prefix)) by {
            assert forall|i: int, j: int| 0 <= i <= j < prefix.len() implies (
            #[trigger] prefix[i]).1 <= (#[trigger] prefix[j]).1 by {
                assert(prefix[i] == events[i] && prefix[j] == events[j]);
            }
        }
        lemma_run_stream_wf(prefix);
        let m = run_stream(prefix)->Ok_0;
        if prefix.len() > 0 {
            assert(events[events.len() - 2].1 <= events[events.len() - 1].1);
        }
        lemma_step_wf(m, events.last().0, events.last().1);
    }
}

/// Suite ordinals are assigned in strictly increasing order matching the
/// arrival order of the suite-started events, starting at zero: after any
/// well-formed stream, the suite at position `i` carries ordinal `i`.
pub proof fn lemma_suite_ordinals(events: Seq<(CargoMessage, u64)>)
    requires
        stream_monotone(events),
        run_stream(events) is Ok,
    ensures
        forall|i: int|
            0 <= i < run_stream(events)->Ok_0.suites.len() ==> (#[trigger] run_stream(
                events,
            )->Ok_0.suites[i]).index == i,
{
    lemma_run_stream_wf(events);
}

/// A resolving event computes the resolved testcase's duration as exactly
/// the distance from the testcase's start to the event's processing time,
/// which is never negative.
pub proof fn lemma_duration_exact(m: RunModel, t: CargoTestReportTest, now: u64)
    requires
        model_wf(m),
        now >= m.clock,
        !(t.event is Started),
        step(m, CargoMessage::Test(t), now) is Ok,
    ensures
        ({
            let m2 = step(m, CargoMessage::Test(t), now)->Ok_0;
            let sidx = m.suites.len() - 1;
            let i = last_pending(
                m.suites[sidx].cases,
                split_module(t.name@),
                split_name(t.name@),
            );
            &&& 0 <= i < m.suites[sidx].cases.len()
            &&& m.suites[sidx].cases[i].start_nanos <= now
            &&& m2.suites[sidx].cases[i].duration_nanos == now - m.suites[sidx].cases[
                i
            ].start_nanos
        }),
{
    let sidx = m.suites.len() - 1;
    lemma_last_pending_found(m.suites[sidx].cases, split_module(t.name@), split_name(t.name@));
}

/// Exactly-once resolution: a finish or ignore event either resolves
/// exactly one testcase — the last still-pending one bearing the event's
/// key in the open suite — leaving every other testcase and every other
/// suite unchanged, or it fails as unmatched, and then no pending testcase
/// in the open suite bears the key.
pub proof fn lemma_resolution(m: RunModel, t: CargoTestReportTest, now: u64)
    requires
        model_wf(m),
        now >= m.clock,
        !(t.event is Started),
    ensures
        match step(m, CargoMessage::Test(t), now) {
            Ok(m2) => ({
                let module = split_module(t.name@);
                let name = split_name(t.name@);
                let sidx = m.suites.len() - 1;
                let i = last_pending(m.suites[sidx].cases, module, name);
                &&& m.in_suite && m.suites.len() > 0
                &&& 0 <= i < m.suites[sidx].cases.len()
                &&& pending_match(m.suites[sidx].cases[i], module, name)
                &&& m2.suites[sidx].cases[i].status == resolved_status(t.event)
                &&& !(m2.suites[sidx].cases[i].status is Pending)
                &&& forall|k: int|
                    i < k < m.suites[sidx].cases.len() ==> !pending_match(
                        #[trigger] m.suites[sidx].cases[k],
                        module,
                        name,
                    )
                &&& m2.suites[sidx].cases.len() == m.suites[sidx].cases.len()
                &&& forall|k: int|
                    0 <= k < m.suites[sidx].cases.len() && k != i ==> #[trigger] m2.suites[
                        sidx
                    ].cases[k] == m.suites[sidx].cases[k]
                &&& forall|u: int|
                    0 <= u < m.suites.len() && u != sidx ==> #[trigger] m2.suites[u] == m.suites[u]
            }),
            Err(_) => !m.in_suite || m.suites.len() == 0 || (forall|k: int|
                0 <= k < m.suites.last().cases.len() ==> !pending_match(
                    #[trigger] m.suites.last().cases[k],
                    split_module(t.name@),
                    split_name(t.name@),
                )),
        },
{
    let module = split_module(t.name@);
    let name = split_name(t.name@);
    if m.in_suite && m.suites.len() > 0 {
        let sidx = m.suites.len() - 1;
        let i = last_pending(m.suites[sidx].cases, module, name);
        if i == -1 {
            lemma_last_pending_none(m.suites[sidx].cases, module, name);
        } else {
            lemma_last_pending_found(m.suites[sidx].cases, module, name);
            assert(resolved_status(t.event) != StatusModel::Pending);
        }
    }
}

/// A testcase that is no longer pending is never changed by any later
/// step: resolution touches only pending testcases, and every other
/// transition leaves existing testcases as they are.
pub proof fn lemma_resolved_stable(m: RunModel, msg: CargoMessage, now: u64)
    requires
        model_wf(m),
        now >= m.clock,
        step(m, msg, now) is Ok,
    ensures
        ({
            let m2 = step(m, msg, now)->Ok_0;
            forall|u: int, j: int|
                0 <= u < m.suites.len() && 0 <= j < m.suites[u].cases.len() && !((
                #[trigger] m.suites[u].cases[j]).status is Pending) ==> m2.suites[u].cases[j]
                    == m.suites[u].cases[j]
        }),
{
    let m2 = step(m, msg, now)->Ok_0;
    match msg {
        CargoMessage::Test(t) => {
            let module = split_module(t.name@);
            let name = split_name(t.name@);
            if m.in_suite && m.suites.len() > 0 && !(t.event is Started) {
                let sidx = m.suites.len() - 1;
                let i = last_pending(m.suites[sidx].cases, module, name);
                if i != -1 {
                    lemma_last_pending_found(m.suites[sidx].cases, module, name);
                }
            }
        },
        _ => {},
    }
}

/// Whether a testcase's resolving event has arrived.
pub open spec fn case_resolved(c: CaseModel) -> bool {
    !(c.status is Pending)
}

/// How many testcases of a suite's list have been resolved.
pub open spec fn resolved_in_cases(cases: Seq<CaseModel>) -> nat
    decreases cases.len(),
{
    if cases.len() == 0 {
        0
    } else {
        resolved_in_cases(cases.drop_last()) + (if case_resolved(cases.last()) {
            1nat
        } else {
            0nat
        })
    }
}

/// How many testcases of a whole run have been resolved.
pub open spec fn resolved_in_suites(suites: Seq<SuiteModel>) -> nat
    decreases suites.len(),
{
    if suites.len() == 0 {
        0
    } else {
        resolved_in_suites(suites.drop_last()) + resolved_in_cases(suites.last().cases)
    }
}

/// Whether an event resolves a testcase: a test event other than a start.
pub open spec fn is_resolving(msg: CargoMessage) -> bool {
    msg matches CargoMessage::Test(t) && !(t.event is Started)
}

/// How many resolving events a stream holds.
pub open spec fn resolving_count(events: Seq<(CargoMessage, u64)>) -> nat
    decreases events.len(),
{
    if events.len() == 0 {
        0
    } else {
        resolving_count(events.drop_last()) + (if is_resolving(events.last().0) {
            1nat
        } else {
            0nat
        })
    }
}

proof fn lemma_resolved_cases_update(cases: Seq<CaseModel>, i: int, c: CaseModel)
    requires
        0 <= i < cases.len(),
    ensures
        resolved_in_cases(cases.update(i, c)) + (if case_resolved(cases[i]) {
            1nat
        } else {
            0nat
        }) == resolved_in_cases(cases) + (if case_resolved(c) {
            1nat
        } else {
            0nat
        }),
    decreases cases.len(),
{
    let upd = cases.update(i, c);
    if i == cases.len() - 1 {
        assert(upd.drop_last() =~= cases.drop_last());
        assert(upd.last() == c);
    } else {
        assert(upd.drop_last() =~= cases.drop_last().update(i, c));
        assert(upd.last() == cases.last());
        lemma_resolved_cases_update(cases.drop_last(), i, c);
        assert(cases.drop_last()[i] == cases[i]);
    }
}

proof fn lemma_resolved_suites_update(suites: Seq<SuiteModel>, i: int, s: SuiteModel)
    requires
        0 <= i < suites.len(),
    ensures
        resolved_in_suites(suites.update(i, s)) + resolved_in_cases(suites[i].cases)
            == resolved_in_suites(suites) + resolved_in_cases(s.cases),
    decreases suites.len(),
{
    let upd = suites.update(i, s);
    if i == suites.len() - 1 {
        assert(upd.drop_last() =~= suites.drop_last());
        assert(upd.last() == s);
    } else {
        assert(upd.drop_last() =~= suites.drop_last().update(i, s));
        assert(upd.last() == suites.last());
        lemma_resolved_suites_update(suites.drop_last(), i, s);
        assert(suites.drop_last()[i] == suites[i]);
    }
}

/// A transition resolves exactly one testcase when the event is a finish
/// or an ignore, and none otherwise.
pub proof fn lemma_step_resolved_count(m: RunModel, msg: CargoMessage, now: u64)
    requires
        model_wf(m),
        now >= m.clock,
        step(m, msg, now) is Ok,
    ensures
        resolved_in_suites(step(m, msg, now)->Ok_0.suites) == resolved_in_suites(m.suites) + (
        if is_resolving(msg) {
            1nat
        } else {
            0nat
        }),
{
    let m2 = step(m, msg, now)->Ok_0;
    match msg {
        CargoMessage::Suite(CargoTestReportSuite::Started(st)) => {
            assert(m2.suites.drop_last() =~= m.suites);
            assert(m2.suites.last().cases =~= Seq::<CaseModel>::empty());
        },
        CargoMessage::Suite(CargoTestReportSuite::Finished(v)) => {
            let sidx = m.suites.len() - 1;
            lemma_resolved_suites_update(
                m.suites,
                sidx,
                SuiteModel { summary: Some(summary_model(v)), ..m.suites.last() },
            );
        },
        CargoMessage::Test(t) => {
            let module = split_module(t.name@);
            let name = split_name(t.name@);
            let sidx = m.suites.len() - 1;
            let cases = m.suites.last().cases;
            match t.event {
                CargoTestReportTestEvent::Started => {
                    let case = CaseModel {
                        module: module,
                        name: name,
                        start_nanos: now,
                        duration_nanos: 0,
                        status: StatusModel::Pending,
                    };
                    assert(resolved_in_cases(cases.push(case)) == resolved_in_cases(cases)) by {
                        assert(cases.push(case).drop_last() =~= cases);
                    }
                    lemma_resolved_suites_update(
                        m.suites,
                        sidx,
                        SuiteModel { cases: cases.push(case), ..m.suites.last() },
                    );
                },
                _ => {
                    let i = last_pending(cases, module, name);
                    lemma_last_pending_found(cases, module, name);
                    let c = resolve_case(cases[i], resolved_status(t.event), now);
                    assert(case_resolved(c));
                    assert(!case_resolved(cases[i]));
                    lemma_resolved_cases_update(cases, i, c);
                    lemma_resolved_suites_update(
                        m.suites,
                        sidx,
                        SuiteModel { cases: cases.update(i, c), ..m.suites.last() },
                    );
                },
            }
        },
        CargoMessage::Bench(b) => {},
    }
}

/// Conservation of resolution over a whole run: every start is matched by
/// at most one resolving event, so after a stream the run accepts, the
/// number of resolved testcases equals the number of finish and ignore
/// events processed.
pub proof fn lemma_resolution_conservation(events: Seq<(CargoMessage, u64)>)
    requires
        stream_monotone(events),
        run_stream(events) is Ok,
    ensures
        resolved_in_suites(run_stream(events)->Ok_0.suites) == resolving_count(events),
    decreases events.len(),
{
    if events.len() > 0 {
        let prefix = events.drop_last();
        assert(stream_monotone(prefix)) by {
            assert forall|i: int, j: int| 0 <= i <= j < prefix.len() implies (
            #[trigger] prefix[i]).1 <= (#[trigger] prefix[j]).1 by {
                assert(prefix[i] == events[i] && prefix[j] == events[j]);
            }
        }
        lemma_resolution_conservation(prefix);
        lemma_run_stream_wf(prefix);
        let m = run_stream(prefix)->Ok_0;
        if prefix.len() > 0 {
            assert(events[events.len() - 2].1 <= events[events.len() - 1].1);
        }
        lemma_step_resolved_count(m, events.last().0, events.last().1);
    }
}

/// Runs a whole pre-stamped event stream through a fresh correlator.  On
/// the first unmatched event the run is abandoned with that error.
pub fn correlate(events: &Vec<(CargoMessage, u64)>) -> (r: Result<TestRun, ReportError>)
    requires
        stream_monotone(events@),
    ensures
        match r {
            Result::Ok(run) => run.wf() && run_stream(events@) == Ok::<RunModel, ()>(run@),
            Result::Err(e) => run_stream(events@) is Err && e is UnmatchedEvent,
        },
{
    let ghost orig = events@;
    let total: usize = events.len();
    let mut run = TestRun::new();
    let mut i: usize = 0;
    assert(orig.subrange(0, 0) =~= Seq::<(CargoMessage, u64)>::empty());
    while i < total
        invariant
            run.wf(),
            total == orig.len(),
            orig == events@,
            i <= total,
            run_stream(orig.subrange(0, i as int)) == Ok::<RunModel, ()>(run@),
            stream_monotone(orig),
            i == 0 ==> run@.clock == 0,
            i > 0 ==> run@.clock == orig[i - 1].1,
        decreases total - i,
    {
        let msg = &events[i].0;
        let now = events[i].1;
        proof {
            assert(orig[i as int].0 == *msg && orig[i as int].1 == now);
            if i > 0 {
                assert(orig[i - 1].1 <= orig[i as int].1);
            }
            lemma_run_stream_wf(orig.subrange(0, i as int));
        }
        let res = run.process(msg, now);
        proof {
            assert(orig.subrange(0, i + 1).drop_last() =~= orig.subrange(0, i as int));
            assert(orig.subrange(0, i + 1).last() == orig[i as int]);
        }
        match res {
            Result::Ok(()) => {
                proof {
                    assert(run_stream(orig.subrange(0, i + 1)) == Ok::<RunModel, ()>(run@));
                }
            },
            Result::Err(e) => {
                proof {
                    assert(run_stream(orig.subrange(0, i + 1)) is Err);
                    lemma_run_stream_prefix_err(orig, i + 1);
                }
                return Err(e);
            },
        }
        i = i + 1;
    }
    proof {
        assert(orig.subrange(0, i as int) =~= orig);
    }
    Ok(run)
}

/// A missing scan result means no pending match at all.
proof fn lemma_last_pending_at_none(cases: Seq<CaseModel>, module: Seq<char>, name: Seq<char>)
    requires
        forall|k: int| 0 <= k < cases.len() ==> !pending_match(#[trigger] cases[k], module, name),
    ensures
        last_pending(cases, module, name) == -1,
    decreases cases.len(),
{
    if cases.len() > 0 {
        assert forall|k: int| 0 <= k < cases.drop_last().len() implies !pending_match(
            cases.drop_last()[k],
            module,
            name,
        ) by {
            assert(cases.drop_last()[k] == cases[k]);
        }
        lemma_last_pending_at_none(cases.drop_last(), module, name);
    }
}

} // verus!
