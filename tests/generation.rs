use moonstone::error::Error;
use moonstone::testing::config::TestConfig;
use moonstone::testing::runner::Test;
use moonstone::testing::testcase::TestPackage;

#[test]
fn manufacture_trims_both_sides() {
    let t = Test::generate_testcase("  3\n1 2 3\n\n", "6\r\n");
    assert_eq!(t.input, "3\n1 2 3");
    assert_eq!(t.output, "6");
}

#[test]
fn batch_keeps_every_case_in_order() {
    let mut p = TestPackage::new("gen".to_string(), 1000);
    let made: Vec<Result<Test, Error>> = (0..3)
        .map(|i| Ok(Test::generate_testcase(&format!("{i}\n"), &format!("{i}\n"))))
        .collect();
    assert!(p.generate_tests(made).is_ok());
    assert_eq!(p.tests.len(), 3);
    for (i, t) in p.tests.iter().enumerate() {
        assert_eq!(t.input, i.to_string());
        assert_eq!(t.output, i.to_string());
    }
}

#[test]
fn batch_appends_after_existing_cases() {
    let mut p = TestPackage::new("gen".to_string(), 1000);
    p.add_test("old".to_string(), "case".to_string());
    let made = vec![Ok(Test { input: "new".to_string(), output: "one".to_string() })];
    assert!(p.generate_tests(made).is_ok());
    assert_eq!(p.tests.len(), 2);
    assert_eq!(p.tests[0].input, "old");
    assert_eq!(p.tests[1].input, "new");
}

#[test]
fn one_failed_task_fails_the_batch() {
    let mut p = TestPackage::new("gen".to_string(), 1000);
    let made = vec![
        Ok(Test { input: "1".to_string(), output: "1".to_string() }),
        Err(Error::Spawn),
        Ok(Test { input: "3".to_string(), output: "3".to_string() }),
    ];
    assert_eq!(p.generate_tests(made), Err(Error::Spawn));
    assert!(p.tests.is_empty());
}

#[test]
fn first_failure_is_reported() {
    let mut p = TestPackage::new("gen".to_string(), 1000);
    let made = vec![Err(Error::Encoding), Err(Error::Io)];
    assert_eq!(p.generate_tests(made), Err(Error::Encoding));
}

#[test]
fn empty_batch_adds_nothing() {
    let mut p = TestPackage::new("gen".to_string(), 1000);
    assert!(p.generate_tests(Vec::new()).is_ok());
    assert!(p.tests.is_empty());
}

#[test]
fn parts_round_trip() {
    let tests = vec![Test { input: "3\n1 2 3".to_string(), output: "6".to_string() }];
    let p = TestPackage::from_parts("sample".to_string(), 1000, tests).ok().unwrap();
    assert_eq!(p.name, "sample");
    assert_eq!(p.time_limit, 1000);
    assert_eq!(p.tests.len(), 1);
    assert_eq!(p.tests[0].input, "3\n1 2 3");
    assert_eq!(p.tests[0].output, "6");
}

#[test]
fn zero_time_limit_is_corrupt() {
    let r = TestPackage::from_parts("sample".to_string(), 0, Vec::new());
    assert!(matches!(r, Err(Error::CorruptData)));
}

#[test]
fn test_config_defaults() {
    let c = TestConfig::default();
    assert_eq!(c.count, 0);
    assert_eq!(c.time_limit, 1000);
    assert_eq!(c.memory_limit, 256);
    assert!(c.tests.is_empty());
}

fn output(text: &str, exited_ok: bool) -> moonstone::testing::runner::RunOutput {
    moonstone::testing::runner::RunOutput { output: text.to_string(), elapsed_ms: 3, exited_ok }
}

#[test]
fn case_from_runs_is_trimmed() {
    let t = Test::from_runs(&output("3\n1 2 3\n", true), &output("6\n", true)).ok().unwrap();
    assert_eq!(t.input, "3\n1 2 3");
    assert_eq!(t.output, "6");
}

#[test]
fn crashed_reference_fails_the_case() {
    assert_eq!(Test::from_runs(&output("1", true), &output("", false)).err(), Some(Error::Crashed));
    assert_eq!(Test::from_runs(&output("1", false), &output("1", true)).err(), Some(Error::Crashed));
}

#[test]
fn batch_with_crash_on_second_run_fails() {
    let mut p = TestPackage::new("gen".to_string(), 1000);
    let made = vec![
        Test::from_runs(&output("1", true), &output("1", true)),
        Test::from_runs(&output("2", true), &output("", false)),
        Test::from_runs(&output("3", true), &output("3", true)),
    ];
    assert_eq!(p.generate_tests(made), Err(Error::Crashed));
    assert!(p.tests.is_empty());
}
