use yab::options::PreviousSource;
use yab::{
    BaselineLocation, BenchMode, BenchOptions, BenchmarkId, CachegrindOptions, ConfigError,
    IdMatcher, OptionsError, Verbosity,
};

fn args(items: &[&str]) -> Vec<String> {
    items.iter().map(|s| s.to_string()).collect()
}

fn options() -> BenchOptions {
    BenchOptions {
        bench: false,
        bench_name: "yab".to_owned(),
        cachegrind_wrapper: vec!["valgrind".to_owned()],
        warm_up_instructions: 1_000_000,
        max_iterations: 1_000,
        cachegrind_out_dir: "target/yab".to_owned(),
        jobs: 1,
        verbose: false,
        quiet: false,
        breakdown: false,
        save_baseline: None,
        baseline: None,
        threshold_ppm: 50_000,
        list: false,
        print: None,
        exact: false,
        filter: None,
    }
}

#[test]
fn parsing_cachegrind_options() {
    let options = CachegrindOptions::parse_args(&Vec::new());
    assert!(matches!(options, Ok(None)));
    let options = CachegrindOptions::parse_args(&args(&["yab", "--bench", "fib"]));
    assert!(matches!(options, Ok(None)));

    let options =
        CachegrindOptions::parse_args(&args(&["yab", "--cachegrind-instrument", "123", "+", "fib"]))
            .unwrap()
            .expect("no options");
    assert_eq!(options.iterations, 123);
    assert!(options.is_baseline);
    assert_eq!(options.id, "fib");
}

#[test]
fn cachegrind_option_errors() {
    let parse = |a: &[&str]| CachegrindOptions::parse_args(&args(a)).unwrap_err();
    assert_eq!(parse(&["yab", "--cachegrind-instrument"]), OptionsError::TooFewArgs);
    assert_eq!(parse(&["yab", "--cachegrind-instrument", "x", "+", "id"]), OptionsError::Iterations);
    assert_eq!(parse(&["yab", "--cachegrind-instrument", "3"]), OptionsError::TooFewArgs);
    assert_eq!(parse(&["yab", "--cachegrind-instrument", "3", "*", "id"]), OptionsError::IsBaseline);
    assert_eq!(parse(&["yab", "--cachegrind-instrument", "3", "-"]), OptionsError::TooFewArgs);
}

#[test]
fn child_arguments_round_trip() {
    let options = CachegrindOptions { iterations: 201, is_baseline: false, id: "fib/15".to_owned() };
    let rendered = options.to_args();
    assert_eq!(rendered, args(&["--cachegrind-instrument", "201", "-", "fib/15"]));
    let mut all = vec!["bench".to_owned()];
    all.extend(rendered);
    let parsed = CachegrindOptions::parse_args(&all).unwrap().unwrap();
    assert_eq!(parsed.iterations, 201);
    assert!(!parsed.is_baseline);
    assert_eq!(parsed.id, "fib/15");
    let zero = CachegrindOptions { iterations: 0, is_baseline: true, id: "x".to_owned() };
    assert_eq!(zero.to_args()[1], "0");
    assert_eq!(zero.to_args()[2], "+");
}

#[test]
fn filtering_ids_by_regex() {
    let matcher = IdMatcher::from_filter(Some(r"/\d+$"), false).unwrap();
    let ids = [
        BenchmarkId::new("fib", "15"),
        BenchmarkId::new("fib", "20"),
        BenchmarkId::named("fib_long"),
        BenchmarkId::new("random_walk", "10000000"),
    ];
    let matched: Vec<String> =
        ids.iter().filter(|id| matcher.matches(id)).map(|id| id.to_text()).collect();
    assert_eq!(matched, ["fib/15", "fib/20", "random_walk/10000000"]);
}

#[test]
fn filtering_ids_exactly_and_by_default() {
    let exact = IdMatcher::from_filter(Some("hash_set/sum"), true).unwrap();
    let id = BenchmarkId::named("hash_set").with_capture("sum");
    assert!(exact.matches(&id));
    assert!(!exact.matches(&BenchmarkId::named("hash_set")));
    let any = IdMatcher::from_filter(None, true).unwrap();
    assert!(any.matches(&id));
    assert!(IdMatcher::from_filter(Some("fib("), false).is_err());
    let capture_filter = IdMatcher::from_filter(Some("/(gen|sum)"), false).unwrap();
    assert!(capture_filter.matches(&BenchmarkId::new("rng", "10000").with_capture("gen_in_loop")));
    assert!(!capture_filter.matches(&BenchmarkId::named("hash_set").with_capture("drain")));
}

#[test]
fn deciding_mode_and_verbosity() {
    let mut o = options();
    assert_eq!(o.mode(), BenchMode::Test);
    o.bench = true;
    assert_eq!(o.mode(), BenchMode::Bench);
    o.print = Some(None);
    assert_eq!(o.mode(), BenchMode::PrintResults);
    assert!(!o.has_print_baseline());
    o.list = true;
    assert_eq!(o.mode(), BenchMode::List);
    assert_eq!(o.verbosity(), Verbosity::Normal);
    o.verbose = true;
    assert_eq!(o.verbosity(), Verbosity::Verbose);
    o.quiet = true;
    assert_eq!(o.verbosity(), Verbosity::Quiet);
}

#[test]
fn resolving_baseline_locations() {
    let mut o = options();
    o.baseline = Some("main".to_owned());
    o.save_baseline = Some("pub:new".to_owned());
    assert_eq!(o.baseline_location(), Some(BaselineLocation::Local("main".to_owned())));
    assert_eq!(o.save_baseline_location(), Some(BaselineLocation::Public("new".to_owned())));
    assert_eq!(o.print_baseline_location(), None);
    assert_eq!(o.regression_threshold_ppm(), Some(50_000));
    o.print = Some(Some("feature/alloc".to_owned()));
    assert!(o.has_print_baseline());
    assert_eq!(
        o.print_baseline_location(),
        Some(BaselineLocation::Local("feature/alloc".to_owned()))
    );
    o.baseline = Some("pub:main".to_owned());
    assert_eq!(o.baseline_location(), Some(BaselineLocation::Public("main".to_owned())));
    o.baseline = None;
    assert_eq!(o.regression_threshold_ppm(), None);
}

#[test]
fn validating_options() {
    let mut o = options();
    assert_eq!(o.validate(), Ok(()));
    o.max_iterations = 0;
    assert_eq!(o.validate(), Err(ConfigError::BadMaxIterations));
    o.warm_up_instructions = 0;
    assert_eq!(o.validate(), Err(ConfigError::ZeroWarmUp));
}

#[test]
fn building_child_command_lines() {
    let mut o = options();
    o.cachegrind_wrapper = args(&["valgrind", "--tool=cachegrind"]);
    let child = CachegrindOptions { iterations: 3, is_baseline: true, id: "fib/15".to_owned() };
    let line = o.child_command("target/yab/fib/15.cachegrind~", "bench-exe", &child).unwrap();
    assert_eq!(
        line,
        args(&[
            "valgrind",
            "--tool=cachegrind",
            "--cachegrind-out-file=target/yab/fib/15.cachegrind~",
            "bench-exe",
            "--cachegrind-instrument",
            "3",
            "+",
            "fib/15",
        ])
    );
    o.cachegrind_wrapper = Vec::new();
    assert!(o.child_command("out", "exe", &child).is_none());
}

#[test]
fn choosing_previous_source() {
    let mut o = options();
    assert_eq!(o.previous_source(), PreviousSource::Files);
    o.print = Some(Some("main".to_owned()));
    assert_eq!(o.previous_source(), PreviousSource::Nothing);
    o.baseline = Some("pub:cmp".to_owned());
    assert_eq!(
        o.previous_source(),
        PreviousSource::Named(BaselineLocation::Public("cmp".to_owned()))
    );
}
