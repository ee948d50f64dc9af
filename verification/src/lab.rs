//! Scenarios, the phase state machine that drives them, and run-level
//! decisions: scheduling order, the baseline gate and the exit code.
//!
//! Subprocesses, timeouts and worker threads live outside this crate; the
//! functions here decide which phase runs next, what an outcome means, and
//! in what order results are released.

use vstd::prelude::*;

use crate::mutate::{
    FileScanView, Mutation, spec_mutations, spec_no_eligible_sites, lemma_no_sites_no_mutations,
};
use crate::outcome::{CargoResult, Outcome, Phase, Status, TreeStatus, phases_well_ordered};
use crate::{Options, EXIT_BASELINE_FAILED, EXIT_MUTANTS_MISSED, EXIT_SUCCESS};

verus! {

/// What one pipeline run is evaluating.
pub enum Scenario {
    /// Verify that the pristine tree builds and tests cleanly.
    SourceTree,
    /// Run the full pipeline on an unmutated copy, as a reference point.
    Baseline,
    /// Evaluate one mutation, the `i_mutation`-th (0-based) of
    /// `n_mutations`.
    Mutant { mutation: Mutation, i_mutation: usize, n_mutations: usize },
}

impl Scenario {
    /// A mutant scenario's ordinal stays below the total.
    pub open spec fn well_formed(self) -> bool {
        self is Mutant ==> self->i_mutation < self->n_mutations
    }

    /// Whether this scenario evaluates a mutant.
    pub fn is_mutant(&self) -> (r: bool)
        ensures
            r == (self is Mutant),
    {
        matches!(self, Scenario::Mutant { .. })
    }
}

/// The configured pipeline: Check when enabled, then Build, then Test when
/// enabled.
pub open spec fn spec_pipeline(check: bool, test: bool) -> Seq<Phase> {
    (if check {
        seq![Phase::Check]
    } else {
        Seq::<Phase>::empty()
    }) + seq![Phase::Build] + (if test {
        seq![Phase::Test]
    } else {
        Seq::<Phase>::empty()
    })
}

/// Every configured pipeline is well ordered and always contains Build.
pub proof fn lemma_pipeline_well_ordered(check: bool, test: bool)
    ensures
        phases_well_ordered(spec_pipeline(check, test)),
        spec_pipeline(check, test).contains(Phase::Build),
{
    let p = spec_pipeline(check, test);
    assert(p[if check { 1int } else { 0int }] == Phase::Build);
    assert(p.contains(Phase::Build));
    assert forall|i: int, j: int| 0 <= i < j < p.len() implies p[i].order() < p[j].order() by {}
}

/// Every prefix of a well-ordered phase sequence is well ordered.
pub proof fn lemma_prefix_well_ordered(ph: Seq<Phase>, k: int)
    requires
        phases_well_ordered(ph),
        0 <= k <= ph.len(),
    ensures
        phases_well_ordered(ph.take(k)),
{
    let p = ph.take(k);
    if p.contains(Phase::Test) {
        let t = choose|t: int| 0 <= t < p.len() && p[t] == Phase::Test;
        assert(ph.contains(Phase::Test)) by {
            assert(ph[t] == Phase::Test);
        }
        let b = choose|b: int| 0 <= b < ph.len() && ph[b] == Phase::Build;
        assert(b < t) by {
            if b > t {
                assert(ph[t].order() < ph[b].order());
            }
        }
        assert(p[b] == Phase::Build);
        assert(p.contains(Phase::Build));
    }
}

/// Drives one scenario through the configured phases: each phase runs only
/// if every earlier phase succeeded, and the first failure or timeout halts
/// the scenario immediately.
///
/// The caller runs the external command for the phase that `next_phase`
/// names and feeds its result back through `record`; a cancellation is
/// recorded as a timeout.
pub struct ScenarioRunner {
    /// The configured phases, in pipeline order.
    pub phases: Vec<Phase>,
    /// The phases already run, each with its result.
    pub results: Vec<(Phase, CargoResult)>,
    /// Set as soon as a phase ends without success.
    pub halted: bool,
}

impl ScenarioRunner {
    /// Invariant: results follow the configured phases in order, every
    /// result before the last is a success, and the runner halts exactly
    /// when the last result is not.
    pub open spec fn well_formed(self) -> bool {
        &&& phases_well_ordered(self.phases@)
        &&& self.results@.len() <= self.phases@.len()
        &&& forall|i: int|
            0 <= i < self.results@.len() ==> (#[trigger] self.results@[i]).0 == self.phases@[i]
        &&& forall|i: int|
            0 <= i < self.results@.len() - 1 ==> (#[trigger] self.results@[i]).1 is Success
        &&& self.halted <==> (self.results@.len() > 0 && !(self.results@.last().1 is Success))
    }

    /// The scenario still has a phase to run.
    pub open spec fn spec_running(self) -> bool {
        !self.halted && self.results@.len() < self.phases@.len()
    }

    /// Set up a runner for the phases the options configure.
    pub fn new(options: &Options) -> (r: Self)
        ensures
            r.well_formed(),
            r.results@.len() == 0,
            !r.halted,
            r.phases@ == spec_pipeline(options.check, options.test),
    {
        let mut phases: Vec<Phase> = Vec::new();
        if options.check {
            phases.push(Phase::Check);
        }
        phases.push(Phase::Build);
        if options.test {
            phases.push(Phase::Test);
        }
        proof {
            assert(phases@ =~= spec_pipeline(options.check, options.test));
            lemma_pipeline_well_ordered(options.check, options.test);
        }
        ScenarioRunner { phases, results: Vec::new(), halted: false }
    }

    /// The phase to run next, or None once the scenario is over.
    pub fn next_phase(&self) -> (r: Option<Phase>)
        requires
            self.well_formed(),
        ensures
            r is Some <==> self.spec_running(),
            r is Some ==> r->0 == self.phases@[self.results@.len() as int],
    {
        if !self.halted && self.results.len() < self.phases.len() {
            Some(self.phases[self.results.len()])
        } else {
            None
        }
    }

    /// Record the result of the phase that `next_phase` named. A result
    /// other than success halts the scenario: no later phase will run.
    pub fn record(&mut self, result: CargoResult)
        requires
            old(self).well_formed(),
            old(self).spec_running(),
        ensures
            final(self).well_formed(),
            final(self).phases == old(self).phases,
            final(self).results@ == old(self).results@.push(
                (old(self).phases@[old(self).results@.len() as int], result),
            ),
            final(self).halted == !(result is Success),
    {
        let phase = self.phases[self.results.len()];
        self.results.push((phase, result));
        if !matches!(result, CargoResult::Success) {
            self.halted = true;
        }
    }

    /// A cancellation (global shutdown) kills the active subprocess; the
    /// scenario records the interrupted phase as timed out and halts.
    pub fn cancel(&mut self)
        requires
            old(self).well_formed(),
            old(self).spec_running(),
        ensures
            final(self).well_formed(),
            final(self).phases == old(self).phases,
            final(self).results@ == old(self).results@.push(
                (old(self).phases@[old(self).results@.len() as int], CargoResult::Timeout),
            ),
            final(self).halted,
    {
        self.record(CargoResult::Timeout);
    }

    /// Whether no phase remains to run.
    pub fn finished(&self) -> (r: bool)
        requires
            self.well_formed(),
        ensures
            r == !self.spec_running(),
    {
        self.halted || self.results.len() == self.phases.len()
    }

    /// Seal the phases run so far into the scenario's terminal outcome.
    pub fn into_outcome(self, scenario: Scenario, log_content: String) -> (o: Outcome)
        requires
            self.well_formed(),
            self.results@.len() > 0,
        ensures
            o.well_formed(),
            o.scenario == scenario,
            o.phase_results@ == self.results@,
            o.log_content == log_content,
    {
        let ghost phases = self.phases@;
        let ghost results = self.results@;
        let o = Outcome { scenario, phase_results: self.results, log_content };
        proof {
            let ph = Seq::new(o.phase_results@.len(), |i: int| o.phase_results@[i].0);
            assert(ph =~= phases.take(results.len() as int));
            lemma_prefix_well_ordered(phases, results.len() as int);
        }
        o
    }
}

/// Wrap each mutation into its mutant scenario, keeping enumeration order:
/// the i-th mutation becomes the i-th scenario of the run.
pub fn mutant_scenarios(mutations: Vec<Mutation>) -> (r: Vec<Scenario>)
    ensures
        r@.len() == mutations@.len(),
        forall|i: int|
            0 <= i < r@.len() ==> {
                &&& (#[trigger] r@[i]) is Mutant
                &&& r@[i]->mutation == mutations@[i]
                &&& r@[i]->i_mutation == i
                &&& r@[i]->n_mutations == mutations@.len()
                &&& r@[i].well_formed()
            },
{
    let total = mutations.len();
    let ghost orig = mutations@;
    let mut rest = mutations;
    let mut out: Vec<Scenario> = Vec::new();
    let mut i: usize = 0;
    while i < total
        invariant
            i <= total,
            total == orig.len(),
            out@.len() == i,
            rest@ =~= orig.skip(i as int),
            forall|j: int|
                0 <= j < i ==> {
                    &&& (#[trigger] out@[j]) is Mutant
                    &&& out@[j]->mutation == orig[j]
                    &&& out@[j]->i_mutation == j
                    &&& out@[j]->n_mutations == total
                },
        decreases total - i,
    {
        let m = rest.remove(0);
        proof {
            assert(orig.skip(i as int)[0] == orig[i as int]);
        }
        out.push(Scenario::Mutant { mutation: m, i_mutation: i, n_mutations: total });
        i += 1;
        proof {
            assert(rest@ =~= orig.skip(i as int));
        }
    }
    out
}

/// Gate between the baseline scenario and the mutant scenarios: mutants are
/// evaluated only when the unmutated tree came out clean, since results
/// against a broken baseline would be meaningless.
pub fn should_proceed_to_mutants(baseline: &Outcome) -> (r: bool)
    requires
        baseline.phase_results@.len() > 0,
    ensures
        r == (baseline.spec_tree_status() is Clean),
{
    matches!(baseline.tree_status(), TreeStatus::Clean)
}

/// Some mutant of the run went undetected by the test suite.
pub open spec fn spec_any_missed(st: Seq<Status>) -> bool {
    exists|i: int| 0 <= i < st.len() && (#[trigger] st[i]) is Missed
}

/// The run's exit code: a failed baseline has its own code; otherwise the
/// run fails exactly when some mutant was missed.
pub open spec fn spec_exit_code(baseline: TreeStatus, st: Seq<Status>) -> int {
    if !(baseline is Clean) {
        EXIT_BASELINE_FAILED as int
    } else if spec_any_missed(st) {
        EXIT_MUTANTS_MISSED as int
    } else {
        EXIT_SUCCESS as int
    }
}

/// Compute the process exit code from the baseline's classification and the
/// collected mutant statuses.
pub fn run_exit_code(baseline: TreeStatus, statuses: &Vec<Status>) -> (r: i32)
    ensures
        r == spec_exit_code(baseline, statuses@),
{
    match baseline {
        TreeStatus::Clean => {
            let mut i: usize = 0;
            while i < statuses.len()
                invariant
                    baseline is Clean,
                    i <= statuses@.len(),
                    forall|j: int| 0 <= j < i ==> !((#[trigger] statuses@[j]) is Missed),
                decreases statuses@.len() - i,
            {
                match statuses[i] {
                    Status::Missed => {
                        proof {
                            assert(spec_any_missed(statuses@)) by {
                                assert(statuses@[i as int] is Missed);
                            }
                        }
                        return EXIT_MUTANTS_MISSED;
                    },
                    _ => {},
                }
                i += 1;
            }
            EXIT_SUCCESS
        },
        _ => EXIT_BASELINE_FAILED,
    }
}

/// A baseline that is not clean reserves the run's exit code for baseline
/// failure: distinct from success and from the missed-mutants code,
/// whatever mutant statuses might exist.
pub proof fn lemma_baseline_gate(baseline: TreeStatus, st: Seq<Status>)
    requires
        !(baseline is Clean),
    ensures
        spec_exit_code(baseline, st) == EXIT_BASELINE_FAILED,
        spec_exit_code(baseline, st) != EXIT_MUTANTS_MISSED,
        spec_exit_code(baseline, st) != EXIT_SUCCESS,
{
}

/// A subject tree with no eligible mutable site generates no mutations, so
/// the run evaluates no mutant scenario, and after a clean baseline it
/// exits successfully.
pub proof fn lemma_empty_scan_clean_run(files: Seq<FileScanView>)
    requires
        spec_no_eligible_sites(files),
    ensures
        spec_mutations(files).len() == 0,
        spec_exit_code(TreeStatus::Clean, Seq::<Status>::empty()) == EXIT_SUCCESS,
{
    lemma_no_sites_no_mutations(files);
}

/// Hands mutant ordinals out to workers: each worker takes the next
/// unstarted mutant when it becomes free, so assignment follows completion
/// order while enumeration order stays with the ordinals themselves.
pub struct JobQueue {
    /// Ordinal of the next mutant to hand out.
    pub next: usize,
    /// Total number of mutants.
    pub total: usize,
}

impl JobQueue {
    /// Invariant: never hands out more than there is.
    pub open spec fn well_formed(self) -> bool {
        self.next <= self.total
    }

    /// A queue over `total` mutants, none yet assigned.
    pub fn new(total: usize) -> (r: Self)
        ensures
            r.well_formed(),
            r.next == 0,
            r.total == total,
    {
        JobQueue { next: 0, total }
    }

    /// Take the next unassigned ordinal, if any is left.
    pub fn take(&mut self) -> (r: Option<usize>)
        requires
            old(self).well_formed(),
        ensures
            final(self).well_formed(),
            final(self).total == old(self).total,
            r is Some <==> old(self).next < old(self).total,
            r is Some ==> r->0 == old(self).next && final(self).next == old(self).next + 1,
            r is None ==> final(self).next == old(self).next,
    {
        if self.next < self.total {
            let i = self.next;
            self.next = self.next + 1;
            Some(i)
        } else {
            None
        }
    }
}

/// Collects mutant outcomes that complete in any order and releases them in
/// ordinal order, so reporting reads as if the mutants ran sequentially.
///
/// Slot `k` holds the not-yet-released outcome of ordinal `flushed + k`.
pub struct ResultCollector {
    /// Buffered outcomes for the ordinals not yet released.
    pub slots: Vec<Option<Outcome>>,
    /// How many outcomes have been released, all with ordinals below this.
    pub flushed: usize,
}

impl ResultCollector {
    /// Invariant: the total count of ordinals fits the machine.
    pub open spec fn well_formed(self) -> bool {
        self.flushed + self.slots@.len() <= usize::MAX
    }

    /// A collector for `total` mutants, with nothing recorded yet.
    pub fn new(total: usize) -> (r: Self)
        ensures
            r.well_formed(),
            r.flushed == 0,
            r.slots@.len() == total,
            forall|k: int| 0 <= k < total ==> (#[trigger] r.slots@[k]) is None,
    {
        let mut slots: Vec<Option<Outcome>> = Vec::new();
        let mut i: usize = 0;
        while i < total
            invariant
                i <= total,
                slots@.len() == i,
                forall|k: int| 0 <= k < i ==> (#[trigger] slots@[k]) is None,
            decreases total - i,
        {
            slots.push(None);
            i += 1;
        }
        ResultCollector { slots, flushed: 0 }
    }

    /// Buffer the outcome of one ordinal; its slot must still be free, and
    /// the ordinal must not have been released already.
    pub fn record(&mut self, ordinal: usize, outcome: Outcome)
        requires
            old(self).well_formed(),
            old(self).flushed <= ordinal,
            ordinal - old(self).flushed < old(self).slots@.len(),
            old(self).slots@[ordinal - old(self).flushed] is None,
        ensures
            final(self).well_formed(),
            final(self).flushed == old(self).flushed,
            final(self).slots@ == old(self).slots@.update(
                ordinal - old(self).flushed,
                Some(outcome),
            ),
    {
        let idx = ordinal - self.flushed;
        self.slots[idx] = Some(outcome);
        proof {
            assert(self.slots@ =~= old(self).slots@.update(
                ordinal - old(self).flushed,
                Some(outcome),
            ));
        }
    }

    /// Release the next outcome in ordinal order, if it has arrived.
    pub fn next_ready(&mut self) -> (r: Option<Outcome>)
        requires
            old(self).well_formed(),
        ensures
            final(self).well_formed(),
            r is Some <==> (old(self).slots@.len() > 0 && old(self).slots@[0] is Some),
            r is Some ==> {
                &&& Some(r->0) == old(self).slots@[0]
                &&& final(self).flushed == old(self).flushed + 1
                &&& final(self).slots@ == old(self).slots@.skip(1)
            },
            r is None ==> *final(self) == *old(self),
    {
        if self.slots.len() > 0 && self.slots[0].is_some() {
            let out = self.slots.remove(0);
            self.flushed = self.flushed + 1;
            proof {
                assert(self.slots@ =~= old(self).slots@.skip(1));
            }
            out
        } else {
            None
        }
    }
}

} // verus!
