//! Tests of the plain-text rendering: formatting helpers, mutation
//! descriptions, outcome lines and progress messages.

use mutants::console::{
    format_decimal, format_elapsed, format_mb, list_mutations, style_mb, style_mutation,
    style_outcome, Console,
};
use mutants::lab::{Scenario, ScenarioRunner};
use mutants::mutate::Mutation;
use mutants::outcome::CargoResult;
use mutants::Options;

fn options() -> Options {
    Options {
        check: false,
        test: true,
        show_times: false,
        print_caught: false,
        print_unviable: false,
        show_all_logs: false,
    }
}

fn half_mutation() -> Mutation {
    Mutation {
        file: "src/lib.rs".to_owned(),
        line: 1,
        span_start: 25,
        span_end: 30,
        function_name: "half".to_owned(),
        return_type: "-> i64".to_owned(),
        replacement: "0".to_owned(),
    }
}

fn outcome_for(scenario: Scenario, results: &[CargoResult], log: &str) -> mutants::outcome::Outcome {
    let mut opts = options();
    opts.check = results.len() == 3;
    let mut runner = ScenarioRunner::new(&opts);
    for r in results {
        runner.record(*r);
    }
    runner.into_outcome(scenario, log.to_owned())
}

#[test]
fn decimal_formatting_is_exact() {
    assert_eq!(format_decimal(0), "0");
    assert_eq!(format_decimal(7), "7");
    assert_eq!(format_decimal(10), "10");
    assert_eq!(format_decimal(90210), "90210");
}

#[test]
fn megabytes_are_whole_and_labelled() {
    assert_eq!(format_mb(0), "0 MB");
    assert_eq!(format_mb(2_500_000), "2 MB");
    assert_eq!(format_mb(999_999), "0 MB");
    assert_eq!(style_mb(42_000_000), "42 MB");
}

#[test]
fn elapsed_times_show_milliseconds() {
    assert_eq!(format_elapsed(0), "0.000s");
    assert_eq!(format_elapsed(1234), "1.234s");
    assert_eq!(format_elapsed(59_007), "59.007s");
}

#[test]
fn mutation_description_reads_naturally() {
    let m = half_mutation();
    assert_eq!(m.describe_location(), "src/lib.rs:1");
    assert_eq!(style_mutation(&m), "src/lib.rs:1: replace half -> i64 with 0");
}

#[test]
fn unit_mutation_description_omits_the_type() {
    let mut m = half_mutation();
    m.function_name = "reset".to_owned();
    m.return_type = String::new();
    m.replacement = "()".to_owned();
    assert_eq!(style_mutation(&m), "src/lib.rs:1: replace reset with ()");
}

#[test]
fn listing_without_diffs_is_one_line_per_mutation() {
    let mutations = vec![half_mutation()];
    let sources: Vec<Vec<u8>> = Vec::new();
    let lines = list_mutations(&mutations, &sources, false);
    assert_eq!(lines, vec!["src/lib.rs:1: replace half -> i64 with 0".to_owned()]);
}

#[test]
fn listing_with_diffs_interleaves_diffs() {
    let source = b"fn half(x: i64) -> i64 { x / 2 }".to_vec();
    let mutations = vec![half_mutation()];
    let sources = vec![source];
    let lines = list_mutations(&mutations, &sources, true);
    assert_eq!(lines.len(), 2);
    assert_eq!(lines[0], "src/lib.rs:1: replace half -> i64 with 0");
    assert!(lines[1].contains("-fn half(x: i64) -> i64 { x / 2 }"));
    assert!(lines[1].contains("+fn half(x: i64) -> i64 { 0 }"));
}

#[test]
fn outcome_labels_reflect_moral_value() {
    let baseline_ok = outcome_for(Scenario::Baseline, &[CargoResult::Success, CargoResult::Success], "");
    assert_eq!(style_outcome(&baseline_ok), "ok");
    let baseline_bad = outcome_for(Scenario::Baseline, &[CargoResult::Failure], "");
    assert_eq!(style_outcome(&baseline_bad), "FAILED");
    let mutant = |results: &[CargoResult]| {
        outcome_for(
            Scenario::Mutant { mutation: half_mutation(), i_mutation: 0, n_mutations: 1 },
            results,
            "",
        )
    };
    assert_eq!(style_outcome(&mutant(&[CargoResult::Success, CargoResult::Failure])), "caught");
    assert_eq!(style_outcome(&mutant(&[CargoResult::Success, CargoResult::Success])), "missed");
    assert_eq!(style_outcome(&mutant(&[CargoResult::Failure])), "build failed");
    assert_eq!(style_outcome(&mutant(&[CargoResult::Timeout])), "TIMEOUT");
}

#[test]
fn scenario_activities_carry_progress() {
    let console = Console::new(&options());
    let scenario = Scenario::Mutant { mutation: half_mutation(), i_mutation: 4, n_mutations: 9 };
    let mut activity = console.start_scenario(&scenario);
    assert_eq!(activity.task, "src/lib.rs:1: replace half -> i64 with 0");
    assert_eq!(activity.overall_progress, Some((5, 9)));
    activity.set_phase("build");
    assert_eq!(activity.message, "[5/9] src/lib.rs:1: replace half -> i64 with 0 (build)");
    let tree = console.start_scenario(&Scenario::SourceTree);
    assert_eq!(tree.task, "source tree");
    assert_eq!(tree.overall_progress, None);
    let baseline = console.start_scenario(&Scenario::Baseline);
    assert_eq!(baseline.task, "unmutated baseline");
}

#[test]
fn interrupted_line_names_the_task() {
    let console = Console::new(&options());
    let activity = console.start_activity("unmutated baseline");
    assert_eq!(activity.interrupted(), "unmutated baseline ... interrupted");
}

#[test]
fn caught_mutants_stay_quiet_unless_asked() {
    let console = Console::new(&options());
    let scenario = Scenario::Mutant { mutation: half_mutation(), i_mutation: 0, n_mutations: 1 };
    let caught = outcome_for(
        Scenario::Mutant { mutation: half_mutation(), i_mutation: 0, n_mutations: 1 },
        &[CargoResult::Success, CargoResult::Failure],
        "",
    );
    let activity = console.start_scenario(&scenario);
    assert!(activity.outcome(&caught, &options(), 10).is_none());
    let mut loud = options();
    loud.print_caught = true;
    let activity = console.start_scenario(&scenario);
    let text = activity.outcome(&caught, &loud, 10).expect("printed when asked");
    assert_eq!(text, "src/lib.rs:1: replace half -> i64 with 0 ... caught\n");
}

#[test]
fn unviable_mutants_stay_quiet_unless_asked() {
    let console = Console::new(&options());
    let scenario = Scenario::Mutant { mutation: half_mutation(), i_mutation: 0, n_mutations: 1 };
    let unviable = outcome_for(
        Scenario::Mutant { mutation: half_mutation(), i_mutation: 0, n_mutations: 1 },
        &[CargoResult::Failure],
        "",
    );
    let activity = console.start_scenario(&scenario);
    assert!(activity.outcome(&unviable, &options(), 10).is_none());
    let mut loud = options();
    loud.print_unviable = true;
    let activity = console.start_scenario(&scenario);
    let text = activity.outcome(&unviable, &loud, 10).expect("printed when asked");
    assert_eq!(text, "src/lib.rs:1: replace half -> i64 with 0 ... build failed\n");
}

#[test]
fn failed_baseline_report_shows_times_and_logs() {
    let mut opts = options();
    opts.show_times = true;
    let console = Console::new(&opts);
    let broken = outcome_for(Scenario::Baseline, &[CargoResult::Failure], "error: it broke\n");
    let activity = console.start_scenario(&Scenario::Baseline);
    let text = activity.outcome(&broken, &opts, 1234).expect("baselines always print");
    assert_eq!(text, "unmutated baseline ... FAILED in 1.234s\nerror: it broke\n");
}

#[test]
fn copy_activity_reports_progress_and_result() {
    let mut opts = options();
    opts.show_times = true;
    let console = Console::new(&opts);
    let copy = console.start_copy_activity("copy source tree");
    assert_eq!(copy.bytes_copied(3_000_000, 2), "copy source tree ... 3 MB in 2s");
    assert_eq!(copy.succeed(3_000_000, 2500), "copy source tree ... 3 MB in 2.500s");
    let quiet = Console::new(&options());
    let copy = quiet.start_copy_activity("copy source tree");
    assert_eq!(copy.succeed(3_000_000, 2500), "copy source tree ... done");
    let copy = quiet.start_copy_activity("copy source tree");
    assert_eq!(copy.fail(), "copy source tree ... failed");
}
