use crate::error::Error;
use crate::text::{trim, trim_seq};
use vstd::prelude::*;

verus! {

/// One test case: an input and the output the reference program gave for it.
pub struct Test {
    pub input: String,
    pub output: String,
}

impl View for Test {
    type V = (Seq<char>, Seq<char>);

    open spec fn view(&self) -> (Seq<char>, Seq<char>) {
        (self.input@, self.output@)
    }
}

/// What one run of an external program produced: its output, the wall-clock
/// time it took, and whether it exited successfully.
pub struct RunOutput {
    pub output: String,
    pub elapsed_ms: u128,
    pub exited_ok: bool,
}

/// The verdict on one run of the candidate program against one case.
pub enum TestResult {
    Accepted,
    /// The candidate's output, then the expected output.
    WrongAnswer(String, String),
    Timeout,
}

/// A verdict, with its texts as character sequences.
pub enum Verdict {
    Accepted,
    WrongAnswer(Seq<char>, Seq<char>),
    Timeout,
}

impl View for TestResult {
    type V = Verdict;

    open spec fn view(&self) -> Verdict {
        match self {
            TestResult::Accepted => Verdict::Accepted,
            TestResult::WrongAnswer(a, e) => Verdict::WrongAnswer(a@, e@),
            TestResult::Timeout => Verdict::Timeout,
        }
    }
}

/// The verdict on a candidate that printed `actual` in `elapsed_ms` milliseconds,
/// where `expected` was owed within `limit_ms`: the output is checked first,
/// the time only for an output that is right.
pub open spec fn grade(
    expected: Seq<char>,
    actual: Seq<char>,
    elapsed_ms: u128,
    limit_ms: u128,
) -> Verdict {
    if trim_seq(actual) != trim_seq(expected) {
        Verdict::WrongAnswer(actual, expected)
    } else if elapsed_ms > limit_ms {
        Verdict::Timeout
    } else {
        Verdict::Accepted
    }
}

impl Test {
    /// The case made from one generator run and the reference program's answer
    /// to it, both without surrounding whitespace.
    pub fn generate_testcase(generated: &str, reference: &str) -> (r: Test)
        ensures
            r.input@ == trim_seq(generated@),
            r.output@ == trim_seq(reference@),
    {
        Test { input: trim(generated), output: trim(reference) }
    }

    /// The case made from a generator run and the reference program's run on
    /// its output; `Crashed` where either program exited unsuccessfully.
    pub fn from_runs(generated: &RunOutput, reference: &RunOutput) -> (r: Result<Test, Error>)
        ensures
            !(generated.exited_ok && reference.exited_ok) ==> r == Err::<Test, Error>(
                Error::Crashed,
            ),
            generated.exited_ok && reference.exited_ok ==> r is Ok && r->Ok_0@ == (
                trim_seq(generated.output@),
                trim_seq(reference.output@),
            ),
    {
        if !(generated.exited_ok && reference.exited_ok) {
            return Err(Error::Crashed);
        }
        Ok(Test::generate_testcase(generated.output.as_str(), reference.output.as_str()))
    }

    /// The verdict on a candidate run that printed `output` in `elapsed_ms`
    /// milliseconds, under a limit of `tl` milliseconds.
    pub fn test(&self, output: &str, elapsed_ms: u128, tl: u128) -> (r: TestResult)
        ensures
            r@ == grade(self.output@, output@, elapsed_ms, tl),
            trim_seq(output@) != trim_seq(self.output@) ==> r@ == Verdict::WrongAnswer(
                output@,
                self.output@,
            ),
            trim_seq(output@) == trim_seq(self.output@) && elapsed_ms <= tl ==> r is Accepted,
            trim_seq(output@) == trim_seq(self.output@) && elapsed_ms > tl ==> r is Timeout,
    {
        let got = trim(output);
        let want = trim(self.output.as_str());
        if got != want {
            return TestResult::WrongAnswer(output.to_owned(), self.output.clone());
        }
        if elapsed_ms > tl {
            return TestResult::Timeout;
        }
        TestResult::Accepted
    }
}

} // verus!
