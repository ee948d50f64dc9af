//! Phases, per-phase results, scenario outcomes and their classification.

use vstd::prelude::*;

use crate::lab::Scenario;

verus! {

/// One stage of the evaluation pipeline, always run in the order
/// Check, Build, Test; later phases run only if every earlier one succeeded.
#[derive(Clone, Copy, Debug, PartialEq, Eq, Structural)]
pub enum Phase {
    Check,
    Build,
    Test,
}

impl Phase {
    /// Position of this phase in the fixed pipeline order.
    pub open spec fn order(self) -> int {
        match self {
            Phase::Check => 0,
            Phase::Build => 1,
            Phase::Test => 2,
        }
    }

    /// The phase's name, as shown in progress messages.
    pub fn name(&self) -> (r: &'static str)
        ensures
            self is Check ==> r == "check",
            self is Build ==> r == "build",
            self is Test ==> r == "test",
    {
        match self {
            Phase::Check => "check",
            Phase::Build => "build",
            Phase::Test => "test",
        }
    }
}

/// The result of running one pipeline phase as an external command.
#[derive(Clone, Copy, Debug, PartialEq, Eq, Structural)]
pub enum CargoResult {
    /// The command exited with status zero.
    Success,
    /// The command exited with a non-zero status.
    Failure,
    /// The command exceeded its wall-clock budget and was killed.
    Timeout,
}

/// A mutant's final classification, derived from its outcome.
#[derive(Clone, Copy, Debug, PartialEq, Eq, Structural)]
pub enum Status {
    /// The Test phase ran and failed: the test suite detected the mutation.
    Caught,
    /// The Test phase ran and passed: the mutation went undetected.
    Missed,
    /// Check or Build did not succeed: the mutant never ran its tests, so it
    /// says nothing about test quality and is reported separately.
    Unviable,
    /// The Test phase exceeded its time budget, typically an injected
    /// infinite loop.
    Timeout,
    /// Check and Build succeeded and the configuration ran no Test phase.
    Viable,
}

/// Classification of the unmutated tree, used as a pre-flight gate.
#[derive(Clone, Copy, Debug, PartialEq, Eq, Structural)]
pub enum TreeStatus {
    /// Every phase succeeded; mutants may be evaluated.
    Clean,
    /// Some phase failed; mutant results would be meaningless.
    Broken,
    /// Some phase timed out.
    Slow,
}

/// The phases of a well-formed outcome follow pipeline order, and Test never
/// runs without Build.
pub open spec fn phases_well_ordered(ph: Seq<Phase>) -> bool {
    &&& forall|i: int, j: int|
        0 <= i < j < ph.len() ==> ph[i].order() < ph[j].order()
    &&& ph.contains(Phase::Test) ==> ph.contains(Phase::Build)
}

/// Terminal record of one scenario: which phases actually ran, with their
/// results, plus the captured subprocess output.
pub struct Outcome {
    /// What was being evaluated.
    pub scenario: Scenario,
    /// The phases that ran, in order, each with its result.
    pub phase_results: Vec<(Phase, CargoResult)>,
    /// Combined stdout and stderr of every phase subprocess.
    pub log_content: String,
}

impl Outcome {
    /// Invariant established by the scenario runner: at least one phase ran,
    /// phases follow pipeline order, and the pipeline stopped at the first
    /// result that was not a success.
    pub open spec fn well_formed(self) -> bool {
        &&& self.phase_results.len() > 0
        &&& phases_well_ordered(Seq::new(self.phase_results@.len(), |i: int| self.phase_results@[i].0))
        &&& forall|i: int|
            0 <= i < self.phase_results.len() - 1 ==> (#[trigger] self.phase_results@[i].1)
                is Success
    }

    /// The last phase that ran.
    pub open spec fn spec_last_phase(self) -> Phase {
        self.phase_results@.last().0
    }

    /// The result of the last phase that ran.
    pub open spec fn spec_last_phase_result(self) -> CargoResult {
        self.phase_results@.last().1
    }

    /// The last phase that ran.
    pub fn last_phase(&self) -> (r: Phase)
        requires
            self.phase_results.len() > 0,
        ensures
            r == self.spec_last_phase(),
    {
        self.phase_results[self.phase_results.len() - 1].0
    }

    /// The result of the last phase that ran.
    pub fn last_phase_result(&self) -> (r: CargoResult)
        requires
            self.phase_results.len() > 0,
        ensures
            r == self.spec_last_phase_result(),
    {
        self.phase_results[self.phase_results.len() - 1].1
    }

    /// A mutant is caught exactly when its Test phase ran and failed.
    pub open spec fn spec_mutant_caught(self) -> bool {
        &&& self.scenario is Mutant
        &&& self.spec_last_phase() is Test
        &&& self.spec_last_phase_result() is Failure
    }

    /// Whether this outcome is a mutant that the test suite detected.
    pub fn mutant_caught(&self) -> (r: bool)
        requires
            self.phase_results.len() > 0,
        ensures
            r == self.spec_mutant_caught(),
    {
        self.scenario.is_mutant() && matches!(self.last_phase(), Phase::Test)
            && matches!(self.last_phase_result(), CargoResult::Failure)
    }

    /// A check or build phase ended without success, so the mutant is
    /// unviable: it never reached its tests.
    pub open spec fn spec_check_or_build_failed(self) -> bool {
        &&& !(self.spec_last_phase() is Test)
        &&& !(self.spec_last_phase_result() is Success)
    }

    /// Whether the terminal phase was a failed or timed-out Check or Build.
    pub fn check_or_build_failed(&self) -> (r: bool)
        requires
            self.phase_results.len() > 0,
        ensures
            r == self.spec_check_or_build_failed(),
    {
        !matches!(self.last_phase(), Phase::Test) && !matches!(
            self.last_phase_result(),
            CargoResult::Success,
        )
    }

    /// Classification of a mutant outcome from its terminal phase and result.
    pub open spec fn spec_status(self) -> Status {
        if self.spec_check_or_build_failed() {
            Status::Unviable
        } else if !(self.spec_last_phase() is Test) {
            Status::Viable
        } else {
            match self.spec_last_phase_result() {
                CargoResult::Success => Status::Missed,
                CargoResult::Failure => Status::Caught,
                CargoResult::Timeout => Status::Timeout,
            }
        }
    }

    /// Derive a mutant's final classification.
    pub fn status(&self) -> (r: Status)
        requires
            self.phase_results.len() > 0,
        ensures
            r == self.spec_status(),
    {
        if self.check_or_build_failed() {
            Status::Unviable
        } else if !matches!(self.last_phase(), Phase::Test) {
            Status::Viable
        } else {
            match self.last_phase_result() {
                CargoResult::Success => Status::Missed,
                CargoResult::Failure => Status::Caught,
                CargoResult::Timeout => Status::Timeout,
            }
        }
    }

    /// Classification of the unmutated tree: the last phase's result alone.
    pub open spec fn spec_tree_status(self) -> TreeStatus {
        match self.spec_last_phase_result() {
            CargoResult::Success => TreeStatus::Clean,
            CargoResult::Failure => TreeStatus::Broken,
            CargoResult::Timeout => TreeStatus::Slow,
        }
    }

    /// Classify a source-tree or baseline outcome as a pre-flight gate.
    pub fn tree_status(&self) -> (r: TreeStatus)
        requires
            self.phase_results.len() > 0,
        ensures
            r == self.spec_tree_status(),
    {
        match self.last_phase_result() {
            CargoResult::Success => TreeStatus::Clean,
            CargoResult::Failure => TreeStatus::Broken,
            CargoResult::Timeout => TreeStatus::Slow,
        }
    }

    /// Logs are interesting when a tree or baseline scenario did not come out
    /// clean; mutant failures are routine and stay quiet.
    pub open spec fn spec_should_show_logs(self) -> bool {
        &&& !(self.scenario is Mutant)
        &&& !(self.spec_last_phase_result() is Success)
    }

    /// Whether the captured log should be printed without being asked for.
    pub fn should_show_logs(&self) -> (r: bool)
        requires
            self.phase_results.len() > 0,
        ensures
            r == self.spec_should_show_logs(),
    {
        !self.scenario.is_mutant() && !matches!(
            self.last_phase_result(),
            CargoResult::Success,
        )
    }

    /// The captured subprocess output for this scenario.
    pub fn get_log_content(&self) -> (r: &String)
        ensures
            r == &self.log_content,
    {
        &self.log_content
    }
}

/// Phase-ordering invariant: in a well-formed outcome, if Test ran then Build
/// ran strictly earlier and succeeded, and so did Check whenever it ran.
pub proof fn lemma_phase_ordering(o: Outcome)
    requires
        o.well_formed(),
        exists|t: int|
            0 <= t < o.phase_results.len() && (#[trigger] o.phase_results@[t].0) is Test,
    ensures
        exists|b: int, t: int|
            0 <= b < t < o.phase_results.len() && (#[trigger] o.phase_results@[b].0) is Build
                && (#[trigger] o.phase_results@[t].0) is Test && o.phase_results@[b].1
                is Success,
        forall|c: int, t: int|
            0 <= c < o.phase_results.len() && 0 <= t < o.phase_results.len()
                && (#[trigger] o.phase_results@[c].0) is Check
                && (#[trigger] o.phase_results@[t].0) is Test ==> c < t && o.phase_results@[c].1
                is Success,
{
    let ph = Seq::new(o.phase_results@.len(), |i: int| o.phase_results@[i].0);
    let t = choose|t: int|
        0 <= t < o.phase_results.len() && (#[trigger] o.phase_results@[t].0) is Test;
    assert(ph.contains(Phase::Test)) by {
        assert(ph[t] is Test);
    }
    assert(ph.contains(Phase::Build));
    let b = choose|b: int| 0 <= b < ph.len() && ph[b] == Phase::Build;
    assert(o.phase_results@[b].0 is Build);
    // Build precedes Test because phase order is strictly increasing.
    assert(b < t) by {
        if b > t {
            assert(ph[t].order() < ph[b].order());
        }
    }
    assert(o.phase_results@[b].1 is Success);
    assert forall|c: int, t2: int|
        0 <= c < o.phase_results.len() && 0 <= t2 < o.phase_results.len()
            && (#[trigger] o.phase_results@[c].0) is Check
            && (#[trigger] o.phase_results@[t2].0) is Test implies c < t2
        && o.phase_results@[c].1 is Success by {
        if c > t2 {
            assert(ph[t2].order() < ph[c].order());
        }
        assert(c < o.phase_results.len() - 1);
    }
}

/// Classification invariant: a mutant is Unviable exactly when the terminal
/// result is a failure or timeout at Check or Build, and Caught exactly when
/// the Test phase ran and returned Failure.
pub proof fn lemma_classification(o: Outcome)
    requires
        o.well_formed(),
        o.scenario is Mutant,
    ensures
        o.spec_status() is Unviable <==> (!(o.spec_last_phase() is Test) && (
        o.spec_last_phase_result() is Failure || o.spec_last_phase_result() is Timeout)),
        o.spec_status() is Caught <==> (o.spec_last_phase() is Test
            && o.spec_last_phase_result() is Failure),
        o.spec_status() is Caught <==> o.spec_mutant_caught(),
{
}

} // verus!
