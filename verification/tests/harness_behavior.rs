//! Behavior of the test-harness bookkeeping: environments, result
//! recording, and batch expansion, driven by the scripted suite.

use light_spike::tester::ScriptedSuite;
use light_spike::tester::TestResult;
use light_spike::tester::Tester;
use light_spike::testenv::TestEnv;
use light_spike::testenv::component_is_ignored;
use light_spike::testenv::path_is_json;

#[test]
fn env_roots_and_paths() {
    let env = TestEnv::new("root/dir").unwrap();
    assert_eq!(env.current_dir(), "root/dir");
    assert_eq!(env.full_path("a.json"), "root/dir/a.json");
    // An absolute path stands as it is.
    assert_eq!(env.full_path("/abs/b.json"), "/abs/b.json");
}

#[test]
fn env_push_appends_a_component() {
    let env = TestEnv::new("root").unwrap();
    let child = env.push("sub").unwrap();
    assert_eq!(child.current_dir(), "root/sub");
    let grandchild = child.push("deeper").unwrap();
    assert_eq!(grandchild.current_dir(), "root/sub/deeper");
}

#[test]
fn rel_path_strips_the_root() {
    let env = TestEnv::new("root/dir").unwrap();
    assert_eq!(env.rel_path("root/dir/x/y.json"), Some("x/y.json".to_string()));
    assert_eq!(env.rel_path("root/dir"), Some(String::new()));
    assert_eq!(env.rel_path("root/dir/"), Some(String::new()));
    assert_eq!(env.rel_path("elsewhere/x.json"), None);
    // A shared prefix without a component boundary is not under the root.
    assert_eq!(env.rel_path("root/dirt/x.json"), None);
}

#[test]
fn underscore_components_are_ignored() {
    assert!(component_is_ignored("_output"));
    assert!(!component_is_ignored("cases"));
    assert!(!component_is_ignored(""));
}

#[test]
fn json_extension_is_recognized() {
    assert!(path_is_json("a/b/case.json"));
    assert!(path_is_json(".json"));
    assert!(!path_is_json("case.jsonx"));
    assert!(!path_is_json("case.txt"));
    assert!(!path_is_json("son"));
}

#[test]
fn result_kind_predicates() {
    assert!(TestResult::Success.is_success());
    assert!(!TestResult::Success.is_failure());
    assert!(TestResult::ReadError.is_readerror());
    assert!(TestResult::ParseError.is_parseerror());
    let failure = TestResult::Failure {
        message: "boom".to_string(),
        location: "here".to_string(),
    };
    assert!(failure.is_failure());
    assert!(!failure.is_success());
    assert!(!failure.is_readerror());
    assert!(!failure.is_parseerror());
}

#[test]
fn successful_runs_are_recorded_under_the_test_name() {
    let mut tester = Tester::new("run", "root");
    tester.add_test("alpha");
    let mut suite = ScriptedSuite::new();
    suite.add_test();
    suite.on_input(0, "case one", TestResult::Success);
    tester.run_for_input(&suite, "one.json", "case one");
    assert_eq!(tester.successful_tests("alpha"), vec!["one.json".to_string()]);
    assert!(tester.failed_tests("alpha").is_empty());
    assert!(tester.unparseable_tests().is_empty());
    assert!(tester.unreadable_tests().is_empty());
}

#[test]
fn failures_keep_message_and_location() {
    let mut tester = Tester::new("run", "root");
    tester.add_test("alpha");
    let mut suite = ScriptedSuite::new();
    suite.add_test();
    suite.on_input(
        0,
        "bad case",
        TestResult::Failure { message: "boom".to_string(), location: "line 3".to_string() },
    );
    tester.run_for_input(&suite, "bad.json", "bad case");
    assert_eq!(
        tester.failed_tests("alpha"),
        vec![("bad.json".to_string(), "boom".to_string(), "line 3".to_string())]
    );
    assert!(tester.successful_tests("alpha").is_empty());
}

#[test]
fn unparseable_input_is_recorded_once() {
    let mut tester = Tester::new("run", "root");
    tester.add_test("alpha");
    let suite = {
        let mut suite = ScriptedSuite::new();
        suite.add_test();
        suite
    };
    tester.run_for_input(&suite, "junk.json", "not a case");
    assert_eq!(tester.unparseable_tests(), vec!["junk.json".to_string()]);
    assert!(tester.successful_tests("alpha").is_empty());
}

#[test]
fn unreadable_files_are_recorded() {
    let mut tester = Tester::new("run", "root");
    tester.read_error("gone.json");
    assert_eq!(tester.unreadable_tests(), vec!["gone.json".to_string()]);
    assert!(tester.unparseable_tests().is_empty());
}

#[test]
fn every_accepting_test_records_its_outcome() {
    // Two registered tests; both accept the same input, one succeeds and one
    // fails: each outcome lands under its own test's name.
    let mut tester = Tester::new("run", "root");
    tester.add_test("alpha");
    tester.add_test("beta");
    let mut suite = ScriptedSuite::new();
    suite.add_test();
    suite.add_test();
    suite.on_input(0, "shared", TestResult::Success);
    suite.on_input(
        1,
        "shared",
        TestResult::Failure { message: "no".to_string(), location: "l".to_string() },
    );
    tester.run_for_input(&suite, "shared.json", "shared");
    assert_eq!(tester.successful_tests("alpha"), vec!["shared.json".to_string()]);
    assert_eq!(
        tester.failed_tests("beta"),
        vec![("shared.json".to_string(), "no".to_string(), "l".to_string())]
    );
    assert!(tester.failed_tests("alpha").is_empty());
    assert!(tester.successful_tests("beta").is_empty());
}

#[test]
fn batches_expand_into_named_scenarios() {
    // The batch input parses as no direct case, but expands into two named
    // scenarios; one succeeds, the other parses as nothing and is recorded
    // as unparseable under its expanded path.
    let mut tester = Tester::new("run", "root");
    tester.add_test("alpha");
    let mut suite = ScriptedSuite::new();
    suite.add_test();
    suite.on_input(0, "case one", TestResult::Success);
    suite.on_batch(
        "a batch",
        vec![
            ("first".to_string(), "case one".to_string()),
            ("second".to_string(), "garbage".to_string()),
        ],
    );
    tester.run_for_input(&suite, "batch.json", "a batch");
    assert_eq!(
        tester.successful_tests("alpha"),
        vec!["batch.json/first".to_string()]
    );
    assert_eq!(
        tester.unparseable_tests(),
        vec!["batch.json/second".to_string()]
    );
}

#[test]
fn an_empty_batch_is_unparseable() {
    let mut tester = Tester::new("run", "root");
    tester.add_test("alpha");
    let mut suite = ScriptedSuite::new();
    suite.add_test();
    suite.on_batch("empty batch", vec![]);
    tester.run_for_input(&suite, "empty.json", "empty batch");
    assert_eq!(tester.unparseable_tests(), vec!["empty.json".to_string()]);
}

#[test]
fn results_accumulate_in_recording_order() {
    let mut tester = Tester::new("run", "root");
    tester.add_test("alpha");
    let mut suite = ScriptedSuite::new();
    suite.add_test();
    suite.on_input(0, "case one", TestResult::Success);
    suite.on_input(0, "case two", TestResult::Success);
    tester.run_for_input(&suite, "one.json", "case one");
    tester.run_for_input(&suite, "two.json", "case two");
    assert_eq!(
        tester.successful_tests("alpha"),
        vec!["one.json".to_string(), "two.json".to_string()]
    );
}

#[test]
fn tester_env_is_rooted_at_the_run_root() {
    let tester = Tester::new("run", "some/root");
    let env = tester.env().unwrap();
    assert_eq!(env.current_dir(), "some/root");
}
