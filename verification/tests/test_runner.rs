use wasm_bindgen_cli_support::test_runner::{CoverageTarget, OutputFormatSetting, RunnerError, TestPlan, TestRunner};
use wasm_bindgen_cli_support::testing::{TestMode, Tests};

#[test]
fn runner_defaults_and_builders() {
    let mut r = TestRunner::new("t.wasm".into(), vec![1, 2, 3]);
    assert_eq!(r.driver_timeout, 5);
    assert_eq!(r.browser_timeout, 20);
    assert!(!r.no_modules && !r.exact && r.filter.is_none());
    r.no_modules()
        .with_exact()
        .with_skip("slow")
        .with_filter("fast")
        .with_driver_timeout(9)
        .with_format(OutputFormatSetting::Terse)
        .with_fallback_test_mode(TestMode::Deno);
    assert!(r.no_modules);
    assert!(r.exact);
    assert_eq!(r.skip, vec!["slow".to_string()]);
    assert_eq!(r.filter, Some("fast".to_string()));
    assert_eq!(r.driver_timeout, 9);
    assert_eq!(r.format, Some(OutputFormatSetting::Terse));
    assert_eq!(r.fallback_test_mode, Some(TestMode::Deno));
    assert_eq!(r.file_content, vec![1, 2, 3]);
}

#[test]
fn test_modes() {
    assert!(TestMode::DedicatedWorker { no_modules: false }.is_worker());
    assert!(!TestMode::Browser { no_modules: true }.is_worker());
    assert!(TestMode::Deno.no_modules());
    assert!(TestMode::Node { no_modules: true }.no_modules());
    assert!(!TestMode::ServiceWorker { no_modules: false }.no_modules());
}

fn exports(names: &[&str]) -> Vec<String> {
    names.iter().map(|s| s.to_string()).collect()
}

#[test]
fn selecting_tests_from_exports() {
    let names = exports(&[
        "__wbgt__crate::tests::adds",
        "__wbgt_$_crate::tests::ignored_one",
        "__wbgt__crate::tests::subtracts",
        "not_a_test",
        "__wbgt__no_separator",
    ]);
    let r = TestRunner::new("t.wasm".into(), vec![]);
    let tests = r.select_tests(&names);
    assert_eq!(tests.filtered, 0);
    let got: Vec<_> = tests.tests.iter().map(|t| (t.name.clone(), t.ignored)).collect();
    assert_eq!(
        got,
        vec![
            ("tests::adds".to_string(), false),
            ("tests::ignored_one".to_string(), true),
            ("tests::subtracts".to_string(), false),
        ]
    );
    assert_eq!(tests.tests[1].export, "__wbgt_$_crate::tests::ignored_one");

    let mut r = TestRunner::new("t.wasm".into(), vec![]);
    r.with_filter("adds");
    let tests = r.select_tests(&names);
    assert_eq!(tests.tests.len(), 1);
    assert_eq!(tests.filtered, 2);

    let mut r = TestRunner::new("t.wasm".into(), vec![]);
    r.with_skip("sub").with_ignored();
    let tests = r.select_tests(&names);
    assert_eq!(tests.tests.len(), 1);
    assert_eq!(tests.tests[0].name, "tests::ignored_one");
    assert_eq!(tests.filtered, 2);

    let mut r = TestRunner::new("t.wasm".into(), vec![]);
    r.with_filter("tests::adds").with_exact();
    let tests = r.select_tests(&names);
    assert_eq!(tests.tests.len(), 1);
}

#[test]
fn ignored_flags_exclude_each_other() {
    let mut r = TestRunner::new("t.wasm".into(), vec![]);
    assert!(r.check_ignored_flags().is_ok());
    r.with_ignored().with_include_ignored();
    let e = r.check_ignored_flags().unwrap_err();
    assert_eq!(e.message(), "`ignored` is mutually exclusive with `include_ignored`.");
}

#[test]
fn runtime_arguments_text() {
    let mut t = Tests::new();
    t.filtered = 3;
    assert_eq!(
        t.as_args(true),
        "\n            // Forward runtime arguments.\n            cx.include_ignored(true);\n            cx.filtered_count(3);\n        "
    );
}

#[test]
fn coverage_profraw_names_use_the_prefix() {
    let mut r = TestRunner::new("t.wasm".into(), vec![]);
    assert_eq!(r.coverage_profraw_name("t.wasm"), "t.wasm.profraw");
    r.with_coverage_profraw_prefix("run1-".to_string());
    assert_eq!(r.coverage_profraw_name("t.wasm"), "run1-t.wasm.profraw");
}

#[test]
fn test_mode_comes_from_the_section_or_the_fallback() {
    let mut r = TestRunner::new("t.wasm".into(), vec![]);
    assert_eq!(r.test_mode(Some(&vec![1])), Ok(TestMode::Browser { no_modules: false }));
    assert_eq!(r.test_mode(Some(&vec![5, 2])), Ok(TestMode::DedicatedWorker { no_modules: false }));
    assert_eq!(r.test_mode(Some(&vec![4])), Ok(TestMode::ServiceWorker { no_modules: false }));
    r.no_modules();
    assert_eq!(r.test_mode(Some(&vec![5])), Ok(TestMode::Node { no_modules: true }));
    assert_eq!(r.test_mode(Some(&vec![3, 9])), Ok(TestMode::SharedWorker { no_modules: true }));
    assert_eq!(r.test_mode(Some(&vec![9])).map_err(|e| e.message()), Err("invalid __wasm_bingen_test_unstable value".to_string()));
    assert_eq!(
        r.test_mode(None).map_err(|e| e.message()),
        Err("Unable to determine test mode. No fallback was provided.".to_string())
    );
    r.with_fallback_test_mode(TestMode::Deno);
    assert_eq!(r.test_mode(None), Ok(TestMode::Deno));
}

#[test]
fn suites_for_the_other_runtime_are_skipped() {
    let mut r = TestRunner::new("t.wasm".into(), vec![]);
    assert!(!r.skips_mode(TestMode::Deno));
    r.with_test_only_node();
    assert!(r.skips_mode(TestMode::Browser { no_modules: false }));
    assert!(!r.skips_mode(TestMode::Node { no_modules: false }));
    let mut w = TestRunner::new("t.wasm".into(), vec![]);
    w.with_test_only_web();
    assert!(w.skips_mode(TestMode::Node { no_modules: true }));
    assert!(!w.skips_mode(TestMode::SharedWorker { no_modules: false }));
}

#[test]
fn both_ignore_flags_give_the_exclusive_error() {
    let mut r = TestRunner::new("t.wasm".to_string(), vec![]);
    r.with_ignored().with_include_ignored();
    let e = r.check_ignored_flags().unwrap_err();
    assert!(e == RunnerError::IgnoredWithIncludeIgnored);
    assert_eq!(e.message(), "`ignored` is mutually exclusive with `include_ignored`.");
}

#[test]
fn coverage_targets_follow_the_configured_output() {
    let mut r = TestRunner::new("t.wasm".into(), vec![]);
    r.with_coverage_profraw_prefix("p-".to_string());
    assert!(matches!(r.coverage_target("t.wasm", true), CoverageTarget::Name(n) if n == "p-t.wasm.profraw"));
    r.with_coverage_profraw_out(std::path::PathBuf::from("out"));
    assert!(matches!(r.coverage_target("t.wasm", true), CoverageTarget::InOutputDirectory(n) if n == "p-t.wasm.profraw"));
    assert!(matches!(r.coverage_target("t.wasm", false), CoverageTarget::ConfiguredOutput));
}

fn test_module(section: &str) -> Vec<u8> {
    let wat = format!(
        r#"(module
            (func (export "__wbgt_$_m::slow"))
            (func (export "__wbgt__m::fast"))
            (func (export "helper"))
            {section})"#
    );
    wat::parse_str(&wat).unwrap()
}

#[test]
fn a_module_is_planned_from_its_exports_and_section() {
    let wasm = test_module(r#"(@custom "__wasm_bindgen_test_unstable" "\01")"#);
    let r = TestRunner::new("t.wasm".into(), wasm);
    match r.plan() {
        Some(Ok(TestPlan::Run(mode, tests))) => {
            assert_eq!(mode, TestMode::Browser { no_modules: false });
            let names: Vec<_> = tests.tests.iter().map(|t| (t.name.as_str(), t.ignored)).collect();
            assert_eq!(names, vec![("slow", true), ("fast", false)]);
            assert_eq!(tests.tests[0].export, "__wbgt_$_m::slow");
            assert_eq!(tests.filtered, 0);
        }
        _ => panic!("expected a run"),
    }
}

#[test]
fn a_node_suite_is_skipped_when_only_browser_tests_run() {
    let wasm = test_module(r#"(@custom "__wasm_bindgen_test_unstable" "\05")"#);
    let mut r = TestRunner::new("t.wasm".into(), wasm);
    r.with_test_only_web();
    assert!(matches!(r.plan(), Some(Ok(TestPlan::SkipNodeSuite))));
}

#[test]
fn planning_reports_unreadable_files_and_missing_modes() {
    let r = TestRunner::new("t.wasm".into(), vec![1, 2, 3]);
    assert!(matches!(r.plan(), Some(Err(RunnerError::ModuleParse))));
    let r = TestRunner::new("t.wasm".into(), test_module(""));
    assert!(matches!(r.plan(), Some(Err(RunnerError::NoTestMode))));
    let r = TestRunner::new("t.wasm".into(), test_module(r#"(@custom "__wasm_bindgen_test_unstable" "\09")"#));
    assert!(matches!(r.plan(), Some(Err(RunnerError::InvalidTestSection))));
    let mut r = TestRunner::new("t.wasm".into(), test_module(""));
    r.with_ignored().with_include_ignored();
    assert!(matches!(r.plan(), Some(Err(RunnerError::IgnoredWithIncludeIgnored))));
}

#[test]
fn listing_and_filtering_need_no_mode() {
    let mut r = TestRunner::new("t.wasm".into(), test_module(""));
    r.with_list().with_filter("fa");
    match r.plan() {
        Some(Ok(TestPlan::List(tests))) => {
            assert_eq!(tests.tests.len(), 1);
            assert_eq!(tests.tests[0].name, "fast");
            assert_eq!(tests.filtered, 1);
        }
        _ => panic!("expected a list"),
    }
    let mut r = TestRunner::new("t.wasm".into(), test_module(""));
    r.with_filter("nothing");
    assert!(matches!(r.plan(), Some(Ok(TestPlan::NoTests))));
}

#[test]
fn a_test_export_without_modifiers_is_not_planned() {
    let wasm = wat::parse_str(r#"(module (func (export "__wbgtx")))"#).unwrap();
    assert!(TestRunner::new("t.wasm".into(), wasm).plan().is_some());
    let wasm = wat::parse_str(r#"(module (func (export "__wbgt_x")))"#).unwrap();
    assert!(TestRunner::new("t.wasm".into(), wasm).plan().is_none());
}
