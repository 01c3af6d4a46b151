use crate::error::{error_text, Error};
use crate::testing::runner::{grade, RunOutput, Test, TestResult, Verdict};
use crate::text::{decimal, push_decimal, push_str};
use vstd::prelude::*;

verus! {

/// A named, ordered collection of test cases with a time limit in milliseconds.
pub struct TestPackage {
    pub name: String,
    pub tests: Vec<Test>,
    pub time_limit: u128,
}

/// What a test package holds.
pub struct PackageView {
    pub name: Seq<char>,
    pub time_limit: u128,
    pub tests: Seq<(Seq<char>, Seq<char>)>,
}

/// What a sequence of cases holds, case by case.
pub open spec fn cases_view(v: Seq<Test>) -> Seq<(Seq<char>, Seq<char>)> {
    v.map_values(|t: Test| t@)
}

impl View for TestPackage {
    type V = PackageView;

    open spec fn view(&self) -> PackageView {
        PackageView { name: self.name@, time_limit: self.time_limit, tests: cases_view(self.tests@) }
    }
}

/// The outcome of one generation task, with its case as character sequences.
pub open spec fn made_view(r: Result<Test, Error>) -> Result<(Seq<char>, Seq<char>), Error> {
    match r {
        Ok(t) => Ok(t@),
        Err(e) => Err(e),
    }
}

pub open spec fn made_views(v: Seq<Result<Test, Error>>) -> Seq<
    Result<(Seq<char>, Seq<char>), Error>,
> {
    v.map_values(|r: Result<Test, Error>| made_view(r))
}

/// The first failure among the outcomes from index `i` on.
pub open spec fn failure_from(v: Seq<Result<(Seq<char>, Seq<char>), Error>>, i: int) -> Option<
    Error,
>
    decreases v.len() - i,
{
    if i < 0 || i >= v.len() {
        None
    } else {
        match v[i] {
            Err(e) => Some(e),
            Ok(_) => failure_from(v, i + 1),
        }
    }
}

/// The first failure among the outcomes, in task order.
pub open spec fn first_failure(v: Seq<Result<(Seq<char>, Seq<char>), Error>>) -> Option<Error> {
    failure_from(v, 0)
}

/// The cases of outcomes that all succeeded, in task order.
pub open spec fn made_cases(v: Seq<Result<(Seq<char>, Seq<char>), Error>>) -> Seq<
    (Seq<char>, Seq<char>),
> {
    v.map_values(|r: Result<(Seq<char>, Seq<char>), Error>| r->Ok_0)
}

/// The package `p` with the cases of the outcomes `made` added at its end.
pub open spec fn with_cases(p: PackageView, made: Seq<Result<(Seq<char>, Seq<char>), Error>>) -> PackageView {
    PackageView { tests: p.tests + made_cases(made), ..p }
}

/// The outcome of grading one case: the verdict on its run, or the failure that
/// kept the run from completing.
pub open spec fn case_outcome(
    case: (Seq<char>, Seq<char>),
    run: Result<RunOutput, Error>,
    limit_ms: u128,
) -> Result<Verdict, Error> {
    match run {
        Ok(o) => Ok(grade(case.1, o.output@, o.elapsed_ms, limit_ms)),
        Err(e) => Err(e),
    }
}

/// The outcomes of grading each case of `p` against the run at the same position.
pub open spec fn graded(p: PackageView, runs: Seq<Result<RunOutput, Error>>) -> Seq<
    Result<Verdict, Error>,
> {
    Seq::new(runs.len(), |i: int| case_outcome(p.tests[i], runs[i], p.time_limit))
}

pub open spec fn outcome_view(o: Result<TestResult, Error>) -> Result<Verdict, Error> {
    match o {
        Ok(v) => Ok(v@),
        Err(e) => Err(e),
    }
}

pub open spec fn outcome_views(v: Seq<Result<TestResult, Error>>) -> Seq<Result<Verdict, Error>> {
    v.map_values(|o: Result<TestResult, Error>| outcome_view(o))
}

/// How many of the outcomes are `Accepted`.
pub open spec fn count_accepted(v: Seq<Result<Verdict, Error>>) -> nat
    decreases v.len(),
{
    if v.len() == 0 {
        0
    } else {
        count_accepted(v.drop_last()) + if v.last() == Ok::<Verdict, Error>(Verdict::Accepted) {
            1nat
        } else {
            0nat
        }
    }
}

pub proof fn lemma_count_accepted_bound(v: Seq<Result<Verdict, Error>>)
    ensures
        count_accepted(v) <= v.len(),
    decreases v.len(),
{
    if v.len() > 0 {
        lemma_count_accepted_bound(v.drop_last());
    }
}

/// The log line of the case at position `i` (counted from 1).
pub open spec fn case_line(i: nat, o: Result<Verdict, Error>) -> Seq<char> {
    let head = "\nTestcase "@ + decimal(i);
    match o {
        Ok(Verdict::Accepted) => head + " OK"@,
        Ok(Verdict::WrongAnswer(actual, expected)) => head + " FAIL"@ + "\n\tExpected "@ + expected
            + "\n\tReceived "@ + actual,
        Ok(Verdict::Timeout) => head + " TIMEOUT"@,
        Err(e) => head + " ERROR "@ + error_text(e),
    }
}

/// The log lines of all cases, in position order.
pub open spec fn log_body(v: Seq<Result<Verdict, Error>>) -> Seq<char>
    decreases v.len(),
{
    if v.len() == 0 {
        Seq::empty()
    } else {
        log_body(v.drop_last()) + case_line(v.len(), v.last())
    }
}

/// The log of one grading run of package `name` at `timestamp_ms`.
pub open spec fn log_text(name: Seq<char>, timestamp_ms: u128, v: Seq<Result<Verdict, Error>>) -> Seq<
    char,
> {
    "### PACKAGE NAME: "@ + name + "\nTIMESTAMP: "@ + decimal(timestamp_ms as nat) + "\n"@
        + log_body(v)
}

/// The one-line summary of a grading run.
pub open spec fn summary_text(accepted: nat, total: nat) -> Seq<char> {
    decimal(accepted) + "/"@ + decimal(total) + " passed"@
}

/// The outcome of a grading run: one outcome per case, in case order, the
/// number of accepted cases, and the log.
pub struct TestReport {
    pub outcomes: Vec<Result<TestResult, Error>>,
    pub accepted: usize,
    pub log: String,
}

impl TestReport {
    pub fn total(&self) -> (r: usize)
        ensures
            r == self.outcomes@.len(),
    {
        self.outcomes.len()
    }

    /// Whether every case was accepted.
    pub fn all_passed(&self) -> (r: bool)
        ensures
            r == (self.accepted == self.outcomes@.len()),
    {
        self.accepted == self.outcomes.len()
    }

    /// `"<accepted>/<total> passed"`.
    pub fn summary(&self) -> (r: String)
        ensures
            r@ == summary_text(self.accepted as nat, self.outcomes@.len()),
    {
        let mut r = String::new();
        push_decimal(&mut r, self.accepted as u128);
        push_str(&mut r, "/");
        push_decimal(&mut r, self.outcomes.len() as u128);
        push_str(&mut r, " passed");
        assert(r@ =~= summary_text(self.accepted as nat, self.outcomes@.len()));
        r
    }
}

fn copy_test(t: &Test) -> (r: Test)
    ensures
        r@ == t@,
{
    Test { input: t.input.clone(), output: t.output.clone() }
}

fn copy_verdict(v: &TestResult) -> (r: TestResult)
    ensures
        r@ == v@,
{
    match v {
        TestResult::Accepted => TestResult::Accepted,
        TestResult::WrongAnswer(a, e) => TestResult::WrongAnswer(a.clone(), e.clone()),
        TestResult::Timeout => TestResult::Timeout,
    }
}

fn push_case_line(log: &mut String, i: u128, o: &Result<TestResult, Error>)
    ensures
        final(log)@ == old(log)@ + case_line(i as nat, outcome_view(*o)),
{
    push_str(log, "\nTestcase ");
    push_decimal(log, i);
    match o {
        Ok(TestResult::Accepted) => push_str(log, " OK"),
        Ok(TestResult::WrongAnswer(actual, expected)) => {
            push_str(log, " FAIL");
            push_str(log, "\n\tExpected ");
            push_str(log, expected.as_str());
            push_str(log, "\n\tReceived ");
            push_str(log, actual.as_str());
        },
        Ok(TestResult::Timeout) => push_str(log, " TIMEOUT"),
        Err(e) => {
            push_str(log, " ERROR ");
            let m = e.message();
            push_str(log, m.as_str());
        },
    }
    assert(final(log)@ =~= old(log)@ + case_line(i as nat, outcome_view(*o)));
}

/// The package that stored parts describe, or `CorruptData` where they break
/// the package invariant.
pub open spec fn restore(
    name: Seq<char>,
    time_limit: u128,
    tests: Seq<(Seq<char>, Seq<char>)>,
) -> Result<PackageView, Error> {
    if time_limit > 0 {
        Ok(PackageView { name, time_limit, tests })
    } else {
        Err(Error::CorruptData)
    }
}

/// Storing a well-formed package as its name, time limit and cases and
/// restoring it from them gives the same package back.
pub proof fn lemma_store_restore(p: PackageView)
    requires
        p.time_limit > 0,
    ensures
        restore(p.name, p.time_limit, p.tests) == Ok::<PackageView, Error>(p),
{
}

proof fn lemma_failure_from_none(v: Seq<Result<(Seq<char>, Seq<char>), Error>>, i: int)
    requires
        0 <= i,
    ensures
        failure_from(v, i) is None <==> forall|k: int| i <= k < v.len() ==> #[trigger] v[k] is Ok,
    decreases v.len() - i,
{
    if i < v.len() {
        lemma_failure_from_none(v, i + 1);
    }
}

/// A batch of generation tasks fails exactly when one of its tasks failed; when
/// none did, the package gains one case per task, the case of that task, at
/// the task's position after the cases it had, and keeps those it had.
pub proof fn lemma_generation_keeps_each_case(
    p: PackageView,
    made: Seq<Result<(Seq<char>, Seq<char>), Error>>,
)
    ensures
        first_failure(made) is Some <==> exists|i: int| 0 <= i < made.len() && #[trigger] made[i] is Err,
        first_failure(made) is None ==> {
            let q = with_cases(p, made);
            &&& q.name == p.name
            &&& q.time_limit == p.time_limit
            &&& q.tests.len() == p.tests.len() + made.len()
            &&& q.tests.subrange(0, p.tests.len() as int) == p.tests
            &&& forall|i: int|
                0 <= i < made.len() ==> made[i] is Ok && #[trigger] q.tests[p.tests.len() + i]
                    == made[i]->Ok_0
        },
{
    lemma_failure_from_none(made, 0);
    let q = with_cases(p, made);
    assert(q.tests.subrange(0, p.tests.len() as int) =~= p.tests);
}

/// Grading gives exactly one outcome per case, and the outcome at each position
/// is the one of that position's case and run.
pub proof fn lemma_grading_one_outcome_per_case(p: PackageView, runs: Seq<Result<RunOutput, Error>>)
    requires
        runs.len() == p.tests.len(),
    ensures
        graded(p, runs).len() == p.tests.len(),
        forall|i: int|
            0 <= i < runs.len() ==> #[trigger] graded(p, runs)[i] == case_outcome(
                p.tests[i],
                runs[i],
                p.time_limit,
            ),
        count_accepted(graded(p, runs)) <= p.tests.len(),
{
    lemma_count_accepted_bound(graded(p, runs));
}

/// `<name>.json`, the file name a package is stored under.
pub fn package_file_name(name: &str) -> (r: String)
    ensures
        r@ == name@ + ".json"@,
{
    let mut r = String::new();
    push_str(&mut r, name);
    push_str(&mut r, ".json");
    assert(r@ =~= name@ + ".json"@);
    r
}

/// `<timestamp_ms>-log.txt`, the file name of a grading run's log.
pub fn log_file_name(timestamp_ms: u128) -> (r: String)
    ensures
        r@ == decimal(timestamp_ms as nat) + "-log.txt"@,
{
    let mut r = String::new();
    push_decimal(&mut r, timestamp_ms);
    push_str(&mut r, "-log.txt");
    assert(r@ =~= decimal(timestamp_ms as nat) + "-log.txt"@);
    r
}

impl TestPackage {
    /// The invariant of a package: its time limit is positive.
    pub open spec fn wf(&self) -> bool {
        self.time_limit > 0
    }

    /// The package that stored parts describe; `CorruptData` where the time
    /// limit is not positive.
    pub fn from_parts(name: String, time_limit: u128, tests: Vec<Test>) -> (r: Result<
        TestPackage,
        Error,
    >)
        ensures
            match restore(name@, time_limit, cases_view(tests@)) {
                Ok(v) => r is Ok && r->Ok_0@ == v && r->Ok_0.wf(),
                Err(e) => r == Err::<TestPackage, Error>(e),
            },
    {
        if time_limit == 0 {
            return Err(Error::CorruptData);
        }
        Ok(TestPackage { name, tests, time_limit })
    }

    /// The file name this package is stored under.
    pub fn file_name(&self) -> (r: String)
        ensures
            r@ == self.name@ + ".json"@,
    {
        package_file_name(self.name.as_str())
    }

    /// An empty package.
    pub fn new(name: String, time_limit: u128) -> (r: TestPackage)
        requires
            time_limit > 0,
        ensures
            r.wf(),
            r@ == (PackageView { name: name@, time_limit, tests: Seq::empty() }),
    {
        let r = TestPackage { name, tests: Vec::new(), time_limit };
        assert(r@.tests =~= Seq::<(Seq<char>, Seq<char>)>::empty());
        r
    }

    /// Adds a case at the end.
    pub fn add_test(&mut self, input: String, output: String)
        ensures
            final(self)@ == (PackageView {
                tests: old(self)@.tests.push((input@, output@)),
                ..old(self)@
            }),
    {
        self.tests.push(Test { input, output });
        assert(final(self)@.tests =~= old(self)@.tests.push((input@, output@)));
    }

    /// Takes in the outcomes of a batch of generation tasks. If one failed, the
    /// first failure in task order is returned and the package is left as it
    /// was; otherwise every case is added at the end, in task order.
    pub fn generate_tests(&mut self, made: Vec<Result<Test, Error>>) -> (r: Result<(), Error>)
        ensures
            match first_failure(made_views(made@)) {
                Some(e) => r == Err::<(), Error>(e) && final(self)@ == old(self)@,
                None => r is Ok && final(self)@ == with_cases(old(self)@, made_views(made@)),
            },
            final(self).time_limit == old(self).time_limit,
    {
        let ghost mv = made_views(made@);
        let n = made.len();
        let mut i: usize = 0;
        while i < n
            invariant
                n == made@.len(),
                mv == made_views(made@),
                i <= n,
                first_failure(mv) == failure_from(mv, i as int),
            decreases n - i,
        {
            match &made[i] {
                Err(e) => {
                    return Err(*e);
                },
                Ok(_) => {},
            }
            i = i + 1;
        }
        assert(failure_from(mv, n as int) is None);
        let ghost start = self@;
        let mut j: usize = 0;
        while j < n
            invariant
                n == made@.len(),
                mv == made_views(made@),
                j <= n,
                first_failure(mv) is None,
                first_failure(mv) == failure_from(mv, j as int),
                self@ == with_cases(start, mv.subrange(0, j as int)),
            decreases n - j,
        {
            assert(mv[j as int] == made_view(made@[j as int]));
            match &made[j] {
                Ok(t) => {
                    let c = copy_test(t);
                    self.add_test(c.input, c.output);
                },
                Err(e) => {
                    assert(false);
                },
            }
            assert(made_cases(mv.subrange(0, j as int + 1)) =~= made_cases(
                mv.subrange(0, j as int),
            ).push(made_cases(mv)[j as int]));
            assert(self@.tests =~= with_cases(start, mv.subrange(0, j as int + 1)).tests);
            j = j + 1;
        }
        assert(mv.subrange(0, n as int) =~= mv);
        Ok(())
    }

    /// Grades each case against the candidate run at the same position and
    /// writes the log of the run, stamped with `timestamp_ms`.
    pub fn test(&self, runs: &Vec<Result<RunOutput, Error>>, timestamp_ms: u128) -> (r: TestReport)
        requires
            runs@.len() == self.tests@.len(),
        ensures
            outcome_views(r.outcomes@) == graded(self@, runs@),
            r.accepted == count_accepted(graded(self@, runs@)),
            r.log@ == log_text(self.name@, timestamp_ms, graded(self@, runs@)),
    {
        let ghost g = graded(self@, runs@);
        let n = runs.len();
        let mut outcomes: Vec<Result<TestResult, Error>> = Vec::new();
        let mut accepted: usize = 0;
        let mut log = String::new();
        push_str(&mut log, "### PACKAGE NAME: ");
        push_str(&mut log, self.name.as_str());
        push_str(&mut log, "\nTIMESTAMP: ");
        push_decimal(&mut log, timestamp_ms);
        push_str(&mut log, "\n");
        let ghost header = log@;
        assert(g.subrange(0, 0) =~= Seq::<Result<Verdict, Error>>::empty());
        assert(outcome_views(outcomes@) =~= g.subrange(0, 0));
        let mut i: usize = 0;
        while i < n
            invariant
                n == runs@.len(),
                n == self.tests@.len(),
                g == graded(self@, runs@),
                i <= n,
                outcome_views(outcomes@) == g.subrange(0, i as int),
                accepted == count_accepted(g.subrange(0, i as int)),
                accepted <= i,
                header == "### PACKAGE NAME: "@ + self.name@ + "\nTIMESTAMP: "@ + decimal(
                    timestamp_ms as nat,
                ) + "\n"@,
                log@ == header + log_body(g.subrange(0, i as int)),
            decreases n - i,
        {
            let o: Result<TestResult, Error> = match &runs[i] {
                Ok(run) => Ok(self.tests[i].test(run.output.as_str(), run.elapsed_ms, self.time_limit)),
                Err(e) => Err(*e),
            };
            assert(outcome_view(o) == g[i as int]);
            let accepted_here = match &o {
                Ok(TestResult::Accepted) => true,
                _ => false,
            };
            push_case_line(&mut log, i as u128 + 1, &o);
            let ghost prefix = g.subrange(0, i as int + 1);
            assert(prefix.drop_last() =~= g.subrange(0, i as int));
            assert(prefix.last() == g[i as int]);
            if accepted_here {
                accepted = accepted + 1;
            }
            let ghost before = outcomes@;
            outcomes.push(o);
            assert(outcome_views(outcomes@) =~= outcome_views(before).push(outcome_view(o)));
            assert(log@ =~= header + log_body(prefix));
            i = i + 1;
        }
        assert(g.subrange(0, n as int) =~= g);
        TestReport { outcomes, accepted, log }
    }
}

} // verus!
