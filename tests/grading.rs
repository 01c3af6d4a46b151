use moonstone::error::Error;
use moonstone::testing::runner::{RunOutput, Test, TestResult};
use moonstone::testing::testcase::{log_file_name, package_file_name, TestPackage};

fn sample(time_limit: u128) -> TestPackage {
    let mut p = TestPackage::new("sample".to_string(), time_limit);
    p.add_test("3\n1 2 3\n".to_string(), "6".to_string());
    p
}

fn run(output: &str, elapsed_ms: u128) -> Result<RunOutput, Error> {
    Ok(RunOutput { output: output.to_string(), elapsed_ms, exited_ok: true })
}

#[test]
fn sample_accepted() {
    let p = sample(1000);
    let report = p.test(&vec![run("6\n", 10)], 1);
    assert!(matches!(report.outcomes[0], Ok(TestResult::Accepted)));
    assert_eq!(report.accepted, 1);
    assert_eq!(report.summary(), "1/1 passed");
    assert!(report.all_passed());
}

#[test]
fn sample_wrong_answer() {
    let p = sample(1000);
    let report = p.test(&vec![run("7", 10)], 1);
    match &report.outcomes[0] {
        Ok(TestResult::WrongAnswer(actual, expected)) => {
            assert_eq!(actual, "7");
            assert_eq!(expected, "6");
        }
        _ => panic!("expected a wrong answer"),
    }
    assert_eq!(report.summary(), "0/1 passed");
    assert!(!report.all_passed());
}

#[test]
fn sample_timeout() {
    let p = sample(5);
    let report = p.test(&vec![run("6", 50)], 1);
    assert!(matches!(report.outcomes[0], Ok(TestResult::Timeout)));
    assert_eq!(report.summary(), "0/1 passed");
}

#[test]
fn wrong_and_slow_is_wrong_answer() {
    let case = Test { input: "1".to_string(), output: "6".to_string() };
    assert!(matches!(case.test("7", 50, 5), TestResult::WrongAnswer(_, _)));
}

#[test]
fn right_within_limit_is_accepted() {
    let case = Test { input: "1".to_string(), output: "6".to_string() };
    assert!(matches!(case.test("  6 \r\n", 5, 5), TestResult::Accepted));
    assert!(matches!(case.test("6", 0, 0), TestResult::Accepted));
}

#[test]
fn right_over_limit_is_timeout() {
    let case = Test { input: "1".to_string(), output: "6".to_string() };
    assert!(matches!(case.test("6\n", 6, 5), TestResult::Timeout));
}

#[test]
fn wrong_answer_keeps_raw_output() {
    let case = Test { input: "1".to_string(), output: "6".to_string() };
    match case.test("7\n", 1, 5) {
        TestResult::WrongAnswer(actual, expected) => {
            assert_eq!(actual, "7\n");
            assert_eq!(expected, "6");
        }
        _ => panic!("expected a wrong answer"),
    }
}

#[test]
fn grading_is_by_position() {
    let mut p = TestPackage::new("sum".to_string(), 100);
    p.add_test("1".to_string(), "1".to_string());
    p.add_test("2".to_string(), "2".to_string());
    p.add_test("3".to_string(), "3".to_string());
    let runs = vec![run("1", 1), Err(Error::Spawn), run("4", 1)];
    let report = p.test(&runs, 42);
    assert_eq!(report.total(), 3);
    assert!(matches!(report.outcomes[0], Ok(TestResult::Accepted)));
    assert!(matches!(report.outcomes[1], Err(Error::Spawn)));
    match &report.outcomes[2] {
        Ok(TestResult::WrongAnswer(actual, expected)) => {
            assert_eq!(actual, "4");
            assert_eq!(expected, "3");
        }
        _ => panic!("expected a wrong answer"),
    }
    assert_eq!(report.accepted, 1);
    assert_eq!(report.summary(), "1/3 passed");
}

#[test]
fn empty_package_grades_nothing() {
    let p = TestPackage::new("empty".to_string(), 1);
    let report = p.test(&vec![], 7);
    assert_eq!(report.total(), 0);
    assert_eq!(report.summary(), "0/0 passed");
    assert!(report.all_passed());
    assert_eq!(report.log, "### PACKAGE NAME: empty\nTIMESTAMP: 7\n");
}

#[test]
fn log_lists_every_case() {
    let mut p = TestPackage::new("pkg".to_string(), 10);
    p.add_test("a".to_string(), "x".to_string());
    p.add_test("b".to_string(), "y".to_string());
    p.add_test("c".to_string(), "z".to_string());
    p.add_test("d".to_string(), "w".to_string());
    let runs = vec![run("x", 1), run("q", 1), run("z", 11), Err(Error::Io)];
    let report = p.test(&runs, 1700000000123);
    assert_eq!(
        report.log,
        "### PACKAGE NAME: pkg\nTIMESTAMP: 1700000000123\n\
         \nTestcase 1 OK\
         \nTestcase 2 FAIL\n\tExpected y\n\tReceived q\
         \nTestcase 3 TIMEOUT\
         \nTestcase 4 ERROR could not talk to an external program"
    );
}

#[test]
fn file_names() {
    assert_eq!(package_file_name("sample"), "sample.json");
    assert_eq!(log_file_name(1700000000123), "1700000000123-log.txt");
    assert_eq!(log_file_name(0), "0-log.txt");
    assert_eq!(sample(1).file_name(), "sample.json");
}

#[test]
fn error_messages() {
    assert_eq!(Error::NotFound.message(), "no test package has that name");
    assert_eq!(Error::CorruptData.message(), "the stored test package is damaged");
}
