//! End-to-end tests of scanning, generation, application, the phase state
//! machine, classification and run-level decisions.

use mutants::lab::{
    mutant_scenarios, run_exit_code, should_proceed_to_mutants, JobQueue, ResultCollector,
    Scenario, ScenarioRunner,
};
use mutants::mutate::{
    candidate_replacements, generate_mutations, site_eligible, FunctionSite, Mutation,
    ReturnGenre, SourceFileScan,
};
use mutants::outcome::{CargoResult, Outcome, Phase, Status, TreeStatus};
use mutants::{Options, RunError, EXIT_BASELINE_FAILED, EXIT_MUTANTS_MISSED, EXIT_SUCCESS};

fn options(check: bool, test: bool) -> Options {
    Options {
        check,
        test,
        show_times: false,
        print_caught: false,
        print_unviable: false,
        show_all_logs: false,
    }
}

fn half_source() -> &'static str {
    "fn half(x: i64) -> i64 { x / 2 }"
}

fn half_site() -> FunctionSite {
    let src = half_source();
    let start = src.find("x / 2").unwrap();
    FunctionSite {
        name: "half".to_owned(),
        return_type: "-> i64".to_owned(),
        genre: ReturnGenre::Integer,
        span_start: start,
        span_end: start + "x / 2".len(),
        line: 1,
        is_test: false,
        skip: false,
        trivial: false,
    }
}

fn half_scan() -> Vec<SourceFileScan> {
    vec![SourceFileScan { path: "src/lib.rs".to_owned(), parsed: true, sites: vec![half_site()] }]
}

fn run_mutant(check: bool, test: bool, results: &[CargoResult]) -> Outcome {
    let mut runner = ScenarioRunner::new(&options(check, test));
    for r in results {
        assert!(runner.next_phase().is_some());
        runner.record(*r);
    }
    let (mutations, _) = generate_mutations(&half_scan());
    let scenario = mutant_scenarios(mutations).remove(0);
    runner.into_outcome(scenario, String::new())
}

#[test]
fn half_yields_zero_replacement() {
    let (mutations, warnings) = generate_mutations(&half_scan());
    assert!(warnings.is_empty());
    assert_eq!(mutations.len(), 1);
    let m = &mutations[0];
    assert_eq!(m.file, "src/lib.rs");
    assert_eq!(m.function_name, "half");
    assert_eq!(m.return_type, "-> i64");
    assert_eq!(m.replacement, "0");
}

#[test]
fn applying_half_mutation_rewrites_only_the_body() {
    let (mutations, _) = generate_mutations(&half_scan());
    let original: Vec<u8> = half_source().as_bytes().to_vec();
    let mutated = mutations[0].apply(&original);
    assert_eq!(String::from_utf8(mutated).unwrap(), "fn half(x: i64) -> i64 { 0 }");
}

#[test]
fn apply_changes_only_the_recorded_span() {
    let m = Mutation {
        file: "src/lib.rs".to_owned(),
        line: 1,
        span_start: 4,
        span_end: 9,
        function_name: "half".to_owned(),
        return_type: "-> i64".to_owned(),
        replacement: "ZZ".to_owned(),
    };
    let original: Vec<u8> = b"abcd12345wxyz".to_vec();
    let mutated = m.apply(&original);
    assert_eq!(mutated, b"abcdZZwxyz".to_vec());
    // Prefix and suffix are byte-for-byte the original.
    assert_eq!(&mutated[..4], &original[..4]);
    assert_eq!(&mutated[6..], &original[9..]);
}

#[test]
fn generation_is_deterministic() {
    let (first, _) = generate_mutations(&half_scan());
    let (second, _) = generate_mutations(&half_scan());
    assert_eq!(first.len(), second.len());
    for (a, b) in first.iter().zip(second.iter()) {
        assert_eq!(a.file, b.file);
        assert_eq!(a.line, b.line);
        assert_eq!(a.span_start, b.span_start);
        assert_eq!(a.span_end, b.span_end);
        assert_eq!(a.function_name, b.function_name);
        assert_eq!(a.return_type, b.return_type);
        assert_eq!(a.replacement, b.replacement);
    }
}

#[test]
fn generation_order_is_file_site_candidate() {
    let mut site_a = half_site();
    site_a.genre = ReturnGenre::Boolean;
    site_a.name = "a".to_owned();
    let mut site_b = half_site();
    site_b.span_start += 1;
    site_b.name = "b".to_owned();
    let files = vec![
        SourceFileScan {
            path: "src/a.rs".to_owned(),
            parsed: true,
            sites: vec![site_a, site_b],
        },
        SourceFileScan {
            path: "src/b.rs".to_owned(),
            parsed: true,
            sites: vec![half_site()],
        },
    ];
    let (mutations, _) = generate_mutations(&files);
    let got: Vec<(String, String, String)> = mutations
        .iter()
        .map(|m| (m.file.clone(), m.function_name.clone(), m.replacement.clone()))
        .collect();
    assert_eq!(
        got,
        vec![
            ("src/a.rs".to_owned(), "a".to_owned(), "true".to_owned()),
            ("src/a.rs".to_owned(), "a".to_owned(), "false".to_owned()),
            ("src/a.rs".to_owned(), "b".to_owned(), "0".to_owned()),
            ("src/b.rs".to_owned(), "half".to_owned(), "0".to_owned()),
        ]
    );
}

#[test]
fn excluded_and_unparsed_sites_generate_nothing() {
    let mut test_site = half_site();
    test_site.is_test = true;
    let mut skipped = half_site();
    skipped.skip = true;
    let mut trivial = half_site();
    trivial.trivial = true;
    assert!(!site_eligible(&test_site));
    assert!(!site_eligible(&skipped));
    assert!(!site_eligible(&trivial));
    assert!(site_eligible(&half_site()));
    let files = vec![
        SourceFileScan {
            path: "src/a.rs".to_owned(),
            parsed: true,
            sites: vec![test_site, skipped, trivial],
        },
        SourceFileScan { path: "src/bad.rs".to_owned(), parsed: false, sites: vec![] },
    ];
    let (mutations, warnings) = generate_mutations(&files);
    assert!(mutations.is_empty());
    assert_eq!(warnings, vec!["src/bad.rs".to_owned()]);
}

#[test]
fn no_sites_means_no_mutants_and_success() {
    let files: Vec<SourceFileScan> = vec![SourceFileScan {
        path: "src/lib.rs".to_owned(),
        parsed: true,
        sites: vec![],
    }];
    let (mutations, warnings) = generate_mutations(&files);
    assert!(mutations.is_empty());
    assert!(warnings.is_empty());
    let scenarios = mutant_scenarios(mutations);
    assert!(scenarios.is_empty());
    let statuses: Vec<Status> = Vec::new();
    assert_eq!(run_exit_code(TreeStatus::Clean, &statuses), EXIT_SUCCESS);
}

#[test]
fn candidates_match_return_genres() {
    assert_eq!(candidate_replacements(ReturnGenre::Unit), vec!["()"]);
    assert_eq!(candidate_replacements(ReturnGenre::Boolean), vec!["true", "false"]);
    assert_eq!(candidate_replacements(ReturnGenre::Integer), vec!["0"]);
    assert_eq!(candidate_replacements(ReturnGenre::Text), vec!["String::new()"]);
    assert_eq!(candidate_replacements(ReturnGenre::Other), vec!["Default::default()"]);
}

#[test]
fn scenarios_carry_ordinals_in_order() {
    let (mutations, _) = generate_mutations(&half_scan());
    let scenarios = mutant_scenarios(mutations);
    assert_eq!(scenarios.len(), 1);
    match &scenarios[0] {
        Scenario::Mutant { mutation, i_mutation, n_mutations } => {
            assert_eq!(mutation.function_name, "half");
            assert_eq!(*i_mutation, 0);
            assert_eq!(*n_mutations, 1);
        }
        _ => panic!("expected a mutant scenario"),
    }
}

#[test]
fn pipeline_runs_check_build_test_in_order() {
    let o = run_mutant(
        true,
        true,
        &[CargoResult::Success, CargoResult::Success, CargoResult::Success],
    );
    let phases: Vec<Phase> = o.phase_results.iter().map(|pr| pr.0).collect();
    assert_eq!(phases, vec![Phase::Check, Phase::Build, Phase::Test]);
    // Everything before the terminal phase succeeded.
    assert_eq!(o.phase_results[0].1, CargoResult::Success);
    assert_eq!(o.phase_results[1].1, CargoResult::Success);
}

#[test]
fn pipeline_halts_at_first_failure() {
    let o = run_mutant(true, true, &[CargoResult::Success, CargoResult::Failure]);
    let phases: Vec<Phase> = o.phase_results.iter().map(|pr| pr.0).collect();
    assert_eq!(phases, vec![Phase::Check, Phase::Build]);
    assert_eq!(o.status(), Status::Unviable);
}

#[test]
fn missed_mutant_fails_the_run_despite_green_phases() {
    let o = run_mutant(false, true, &[CargoResult::Success, CargoResult::Success]);
    assert_eq!(o.status(), Status::Missed);
    assert_eq!(
        run_exit_code(TreeStatus::Clean, &vec![Status::Missed]),
        EXIT_MUTANTS_MISSED
    );
    assert_ne!(EXIT_MUTANTS_MISSED, EXIT_SUCCESS);
}

#[test]
fn caught_mutant_is_test_failure() {
    let o = run_mutant(false, true, &[CargoResult::Success, CargoResult::Failure]);
    assert_eq!(o.status(), Status::Caught);
    assert!(o.mutant_caught());
    assert_eq!(run_exit_code(TreeStatus::Clean, &vec![Status::Caught]), EXIT_SUCCESS);
}

#[test]
fn unviable_is_exactly_check_or_build_nonsuccess() {
    let check_failed = run_mutant(true, true, &[CargoResult::Failure]);
    assert_eq!(check_failed.status(), Status::Unviable);
    let build_timeout = run_mutant(false, true, &[CargoResult::Timeout]);
    assert_eq!(build_timeout.status(), Status::Unviable);
    let test_failed = run_mutant(false, true, &[CargoResult::Success, CargoResult::Failure]);
    assert_ne!(test_failed.status(), Status::Unviable);
}

#[test]
fn test_phase_timeout_is_timeout_not_failure() {
    let o = run_mutant(false, true, &[CargoResult::Success, CargoResult::Timeout]);
    assert_eq!(o.status(), Status::Timeout);
    assert_ne!(o.status(), Status::Unviable);
    assert_ne!(o.status(), Status::Caught);
}

#[test]
fn cancelled_scenario_records_timeout() {
    let mut runner = ScenarioRunner::new(&options(false, true));
    runner.record(CargoResult::Success);
    runner.cancel();
    assert!(runner.finished());
    let (mutations, _) = generate_mutations(&half_scan());
    let scenario = mutant_scenarios(mutations).remove(0);
    let o = runner.into_outcome(scenario, String::new());
    assert_eq!(o.phase_results.last().unwrap().1, CargoResult::Timeout);
    assert_eq!(o.status(), Status::Timeout);
}

#[test]
fn broken_baseline_stops_the_run_with_its_own_code() {
    let mut runner = ScenarioRunner::new(&options(false, true));
    runner.record(CargoResult::Failure);
    let baseline = runner.into_outcome(Scenario::Baseline, String::new());
    assert_eq!(baseline.tree_status(), TreeStatus::Broken);
    assert!(!should_proceed_to_mutants(&baseline));
    let code = run_exit_code(TreeStatus::Broken, &vec![]);
    assert_eq!(code, EXIT_BASELINE_FAILED);
    assert_ne!(code, EXIT_MUTANTS_MISSED);
    assert_ne!(code, EXIT_SUCCESS);
}

#[test]
fn clean_baseline_proceeds() {
    let mut runner = ScenarioRunner::new(&options(false, true));
    runner.record(CargoResult::Success);
    runner.record(CargoResult::Success);
    let baseline = runner.into_outcome(Scenario::Baseline, String::new());
    assert_eq!(baseline.tree_status(), TreeStatus::Clean);
    assert!(should_proceed_to_mutants(&baseline));
}

#[test]
fn job_queue_hands_out_all_ordinals_once() {
    let mut q = JobQueue::new(3);
    assert_eq!(q.take(), Some(0));
    assert_eq!(q.take(), Some(1));
    assert_eq!(q.take(), Some(2));
    assert_eq!(q.take(), None);
}

#[test]
fn collector_releases_outcomes_in_ordinal_order() {
    let make = |r: CargoResult| {
        let mut runner = ScenarioRunner::new(&options(false, true));
        runner.record(CargoResult::Success);
        runner.record(r);
        let (mutations, _) = generate_mutations(&half_scan());
        let scenario = mutant_scenarios(mutations).remove(0);
        runner.into_outcome(scenario, String::new())
    };
    let mut collector = ResultCollector::new(2);
    // The second mutant finishes first; nothing is released yet.
    collector.record(1, make(CargoResult::Failure));
    assert!(collector.next_ready().is_none());
    collector.record(0, make(CargoResult::Success));
    let first = collector.next_ready().expect("ordinal 0 ready");
    assert_eq!(first.status(), Status::Missed);
    let second = collector.next_ready().expect("ordinal 1 ready");
    assert_eq!(second.status(), Status::Caught);
    assert!(collector.next_ready().is_none());
}

#[test]
fn diff_shows_removed_and_inserted_text() {
    let (mutations, _) = generate_mutations(&half_scan());
    let original: Vec<u8> = half_source().as_bytes().to_vec();
    let diff = mutations[0].diff(&original);
    assert!(diff.contains("-fn half(x: i64) -> i64 { x / 2 }"));
    assert!(diff.contains("+fn half(x: i64) -> i64 { 0 }"));
}

#[test]
fn error_messages_name_the_failure() {
    assert_eq!(
        RunError::Scan { file: "src/bad.rs".to_owned() }.message(),
        "failed to parse src/bad.rs; its sites are skipped"
    );
    assert_eq!(
        RunError::Isolation { path: "/tmp/scratch".to_owned() }.message(),
        "failed to prepare an isolated tree at /tmp/scratch"
    );
    assert_eq!(
        RunError::Toolchain { command: "cargo".to_owned() }.message(),
        "failed to launch cargo"
    );
    assert_eq!(
        RunError::BaselineBroken.message(),
        "baseline failed; mutant results would be meaningless"
    );
}

#[test]
fn error_fatality_follows_the_taxonomy() {
    assert!(!RunError::Scan { file: "src/bad.rs".to_owned() }.is_fatal());
    assert!(!RunError::Isolation { path: "/tmp/scratch".to_owned() }.is_fatal());
    assert!(RunError::Toolchain { command: "cargo".to_owned() }.is_fatal());
    assert!(RunError::BaselineBroken.is_fatal());
}
