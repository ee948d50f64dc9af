//! Plain-text rendering of run events: progress messages, outcome lines and
//! the mutant listing.
//!
//! Every function here is a pure projection from events to text. Styling,
//! progress bars and printing belong to the presentation layer outside this
//! crate, which decorates and emits the strings produced here.

use vstd::prelude::*;
use vstd::string::StringExecFns;

use crate::lab::Scenario;
use crate::mutate::{Mutation, diff_of};
use crate::outcome::{CargoResult, Outcome, Phase};
use crate::Options;

verus! {

/// The character for one decimal digit.
pub open spec fn spec_digit_char(d: nat) -> char {
    if d == 0 {
        '0'
    } else if d == 1 {
        '1'
    } else if d == 2 {
        '2'
    } else if d == 3 {
        '3'
    } else if d == 4 {
        '4'
    } else if d == 5 {
        '5'
    } else if d == 6 {
        '6'
    } else if d == 7 {
        '7'
    } else if d == 8 {
        '8'
    } else {
        '9'
    }
}

/// The decimal digits of a number, most significant first, no leading
/// zeroes (a single zero for zero).
pub open spec fn spec_decimal(n: nat) -> Seq<char>
    decreases n,
{
    if n < 10 {
        seq![spec_digit_char(n)]
    } else {
        spec_decimal(n / 10).push(spec_digit_char(n % 10))
    }
}

/// One decimal digit as a string slice.
fn digit_str(d: u64) -> (r: &'static str)
    requires
        d < 10,
    ensures
        r@ == seq![spec_digit_char(d as nat)],
{
    if d == 0 {
        proof {
            reveal_strlit("0");
            assert("0"@ =~= seq![spec_digit_char(0)]);
        }
        "0"
    } else if d == 1 {
        proof {
            reveal_strlit("1");
            assert("1"@ =~= seq![spec_digit_char(1)]);
        }
        "1"
    } else if d == 2 {
        proof {
            reveal_strlit("2");
            assert("2"@ =~= seq![spec_digit_char(2)]);
        }
        "2"
    } else if d == 3 {
        proof {
            reveal_strlit("3");
            assert("3"@ =~= seq![spec_digit_char(3)]);
        }
        "3"
    } else if d == 4 {
        proof {
            reveal_strlit("4");
            assert("4"@ =~= seq![spec_digit_char(4)]);
        }
        "4"
    } else if d == 5 {
        proof {
            reveal_strlit("5");
            assert("5"@ =~= seq![spec_digit_char(5)]);
        }
        "5"
    } else if d == 6 {
        proof {
            reveal_strlit("6");
            assert("6"@ =~= seq![spec_digit_char(6)]);
        }
        "6"
    } else if d == 7 {
        proof {
            reveal_strlit("7");
            assert("7"@ =~= seq![spec_digit_char(7)]);
        }
        "7"
    } else if d == 8 {
        proof {
            reveal_strlit("8");
            assert("8"@ =~= seq![spec_digit_char(8)]);
        }
        "8"
    } else {
        proof {
            reveal_strlit("9");
            assert("9"@ =~= seq![spec_digit_char(9)]);
        }
        "9"
    }
}

/// Render a number in decimal.
pub fn format_decimal(n: u64) -> (r: String)
    ensures
        r@ == spec_decimal(n as nat),
    decreases n,
{
    if n < 10 {
        String::from_str(digit_str(n))
    } else {
        let mut s = format_decimal(n / 10);
        s.append(digit_str(n % 10));
        proof {
            assert(s@ =~= spec_decimal(n as nat));
        }
        s
    }
}

/// A byte count shown as whole megabytes: the text of `format_mb`.
pub open spec fn spec_mb(bytes: nat) -> Seq<char> {
    spec_decimal(bytes / 1000000) + " MB"@
}

/// Render a byte count as whole megabytes.
pub fn format_mb(bytes: u64) -> (r: String)
    ensures
        r@ == spec_mb(bytes as nat),
{
    let mut s = format_decimal(bytes / 1000000);
    s.append(" MB");
    s
}

/// The megabyte text to be shown emphasized; coloring is applied by the
/// presentation layer, which receives this plain text.
pub fn style_mb(bytes: u64) -> (r: String)
    ensures
        r@ == spec_mb(bytes as nat),
{
    format_mb(bytes)
}

/// A millisecond fraction as exactly three digits.
pub open spec fn spec_millis_3(frac: nat) -> Seq<char> {
    seq![
        spec_digit_char(frac / 100),
        spec_digit_char((frac / 10) % 10),
        spec_digit_char(frac % 10),
    ]
}

/// An elapsed time in seconds with millisecond precision: the text of
/// `format_elapsed`.
pub open spec fn spec_elapsed(ms: nat) -> Seq<char> {
    spec_decimal(ms / 1000) + "."@ + spec_millis_3(ms % 1000) + "s"@
}

/// Render an elapsed wall-clock time, measured in milliseconds, as seconds
/// with three decimal places.
pub fn format_elapsed(elapsed_ms: u64) -> (r: String)
    ensures
        r@ == spec_elapsed(elapsed_ms as nat),
{
    let mut s = format_decimal(elapsed_ms / 1000);
    s.append(".");
    let frac = elapsed_ms % 1000;
    s.append(digit_str(frac / 100));
    s.append(digit_str((frac / 10) % 10));
    s.append(digit_str(frac % 10));
    s.append("s");
    proof {
        assert(s@ =~= spec_elapsed(elapsed_ms as nat));
    }
    s
}

/// A mutation's human-readable location: file, colon, line.
pub open spec fn spec_location(m: Mutation) -> Seq<char> {
    m.file@ + ":"@ + spec_decimal(m.line as nat)
}

/// The one-line description of a mutation: its location, what is replaced,
/// and the replacement text.
pub open spec fn spec_style_mutation(m: Mutation) -> Seq<char> {
    spec_location(m) + ": replace "@ + m.function_name@ + (if m.return_type@.len() == 0 {
        Seq::<char>::empty()
    } else {
        " "@
    }) + m.return_type@ + " with "@ + m.replacement@
}

impl Mutation {
    /// Render this mutation's location as `file:line`.
    pub fn describe_location(&self) -> (r: String)
        ensures
            r@ == spec_location(*self),
    {
        let mut s = self.file.clone();
        s.append(":");
        let line_text = format_decimal(self.line as u64);
        s.append(line_text.as_str());
        s
    }
}

/// Render a mutation as one line: location, replaced function and type, and
/// the replacement text.
pub fn style_mutation(mutation: &Mutation) -> (r: String)
    ensures
        r@ == spec_style_mutation(*mutation),
{
    let mut s = mutation.describe_location();
    s.append(": replace ");
    s.append(mutation.function_name.as_str());
    if !mutation.return_type.as_str().is_empty() {
        s.append(" ");
    }
    s.append(mutation.return_type.as_str());
    s.append(" with ");
    s.append(mutation.replacement.as_str());
    proof {
        assert(s@ =~= spec_style_mutation(*mutation));
    }
    s
}

/// With diffs shown, the listing alternates lines: descriptions on even
/// lines, the matching diff on the next odd one.
pub open spec fn spec_listing_line(mutations: Seq<Mutation>, sources: Seq<Vec<u8>>, j: int) -> Seq<
    char,
> {
    if j % 2 == 0 {
        spec_style_mutation(mutations[j / 2])
    } else {
        diff_of(sources[j / 2]@, mutations[j / 2].spec_apply(sources[j / 2]@))
    }
}

/// The lines of the mutant listing: one description line per mutation and,
/// when diffs are requested, the unified diff of each edit against its
/// file's pristine content.
pub fn list_mutations(mutations: &Vec<Mutation>, sources: &Vec<Vec<u8>>, show_diffs: bool) -> (r:
    Vec<String>)
    requires
        show_diffs ==> sources@.len() == mutations@.len(),
        show_diffs ==> forall|i: int|
            0 <= i < mutations@.len() ==> (#[trigger] mutations@[i]).applies_to_len(
                sources@[i]@.len(),
            ),
    ensures
        !show_diffs ==> {
            &&& r@.len() == mutations@.len()
            &&& forall|i: int|
                0 <= i < mutations@.len() ==> (#[trigger] r@[i])@ == spec_style_mutation(
                    mutations@[i],
                )
        },
        show_diffs ==> {
            &&& r@.len() == 2 * mutations@.len()
            &&& forall|i: int|
                0 <= i < mutations@.len() ==> {
                    &&& (#[trigger] r@[2 * i])@ == spec_style_mutation(mutations@[i])
                    &&& r@[2 * i + 1]@ == diff_of(
                        sources@[i]@,
                        mutations@[i].spec_apply(sources@[i]@),
                    )
                }
        },
{
    let mut out: Vec<String> = Vec::new();
    let mut i: usize = 0;
    while i < mutations.len()
        invariant
            i <= mutations@.len(),
            show_diffs ==> sources@.len() == mutations@.len(),
            show_diffs ==> forall|j: int|
                0 <= j < mutations@.len() ==> (#[trigger] mutations@[j]).applies_to_len(
                    sources@[j]@.len(),
                ),
            !show_diffs ==> {
                &&& out@.len() == i
                &&& forall|j: int|
                    0 <= j < i ==> (#[trigger] out@[j])@ == spec_style_mutation(mutations@[j])
            },
            show_diffs ==> {
                &&& out@.len() == 2 * i
                &&& forall|j: int|
                    0 <= j < out@.len() ==> (#[trigger] out@[j])@ == spec_listing_line(
                        mutations@,
                        sources@,
                        j,
                    )
            },
        decreases mutations@.len() - i,
    {
        let ghost len_before = out@.len();
        let ghost out_before = out@;
        out.push(style_mutation(&mutations[i]));
        if show_diffs {
            out.push(mutations[i].diff(&sources[i]));
            proof {
                assert forall|j: int| 0 <= j < out@.len() implies (#[trigger] out@[j])@
                    == spec_listing_line(mutations@, sources@, j) by {
                    if j < len_before {
                        assert(out@[j] == out_before[j]);
                        assert(out_before[j]@ == spec_listing_line(mutations@, sources@, j));
                    } else if j == len_before {
                        assert(j % 2 == 0 && j / 2 == i);
                    } else {
                        assert(j == len_before + 1 && j % 2 == 1 && j / 2 == i);
                    }
                }
            }
        }
        i += 1;
    }
    proof {
        if show_diffs {
            assert forall|k: int| 0 <= k < mutations@.len() implies {
                &&& (#[trigger] out@[2 * k])@ == spec_style_mutation(mutations@[k])
                &&& out@[2 * k + 1]@ == diff_of(
                    sources@[k]@,
                    mutations@[k].spec_apply(sources@[k]@),
                )
            } by {
                assert((2 * k) % 2 == 0 && (2 * k) / 2 == k);
                assert((2 * k + 1) % 2 == 1 && (2 * k + 1) / 2 == k);
                assert(out@[2 * k]@ == spec_style_mutation(mutations@[k]));
                assert(out@[2 * k + 1]@ == diff_of(
                    sources@[k]@,
                    mutations@[k].spec_apply(sources@[k]@),
                ));
            }
        }
    }
    out
}

/// The label that summarizes an outcome, reflecting its moral value: for
/// the pristine tree and the baseline a plain verdict, for a mutant whether
/// the test suite caught it.
pub open spec fn spec_outcome_label(o: Outcome) -> Seq<char> {
    match o.scenario {
        Scenario::SourceTree | Scenario::Baseline => match o.spec_last_phase_result() {
            CargoResult::Success => "ok"@,
            CargoResult::Failure => "FAILED"@,
            CargoResult::Timeout => "TIMEOUT"@,
        },
        Scenario::Mutant { .. } => match (o.spec_last_phase(), o.spec_last_phase_result()) {
            (Phase::Test, CargoResult::Failure) => "caught"@,
            (Phase::Test, CargoResult::Success) => "missed"@,
            (Phase::Build, CargoResult::Success) => "build ok"@,
            (Phase::Check, CargoResult::Success) => "check ok"@,
            (Phase::Build, CargoResult::Failure) => "build failed"@,
            (Phase::Check, CargoResult::Failure) => "check failed"@,
            (_, CargoResult::Timeout) => "TIMEOUT"@,
        },
    }
}

/// The label summarizing an outcome, to be styled by the presentation
/// layer.
pub fn style_outcome(outcome: &Outcome) -> (r: &'static str)
    requires
        outcome.phase_results@.len() > 0,
    ensures
        r@ == spec_outcome_label(*outcome),
{
    match &outcome.scenario {
        Scenario::SourceTree | Scenario::Baseline => match outcome.last_phase_result() {
            CargoResult::Success => "ok",
            CargoResult::Failure => "FAILED",
            CargoResult::Timeout => "TIMEOUT",
        },
        Scenario::Mutant { .. } => match (outcome.last_phase(), outcome.last_phase_result()) {
            (Phase::Test, CargoResult::Failure) => "caught",
            (Phase::Test, CargoResult::Success) => "missed",
            (Phase::Build, CargoResult::Success) => "build ok",
            (Phase::Check, CargoResult::Success) => "check ok",
            (Phase::Build, CargoResult::Failure) => "build failed",
            (Phase::Check, CargoResult::Failure) => "check failed",
            (_, CargoResult::Timeout) => "TIMEOUT",
        },
    }
}

/// The task text that introduces a scenario's messages.
pub open spec fn spec_scenario_task(s: Scenario) -> Seq<char> {
    match s {
        Scenario::SourceTree => "source tree"@,
        Scenario::Baseline => "unmutated baseline"@,
        Scenario::Mutant { mutation, .. } => spec_style_mutation(mutation),
    }
}

/// Keeps the small amount of state that rendering needs.
pub struct Console {
    /// Show elapsed times on permanent output.
    pub show_times: bool,
}

/// The running state of one scenario's messages: its task text, the current
/// progress message, and its place in the overall run.
pub struct Activity {
    /// The task text that introduces every message.
    pub task: String,
    /// The most recent progress message, updated as phases change.
    pub message: String,
    /// For a mutant, its 1-based ordinal and the total mutant count.
    pub overall_progress: Option<(usize, usize)>,
    /// Copied from the console.
    pub show_times: bool,
}

/// The running state of a tree-copy activity's messages.
pub struct CopyActivity {
    /// The name that introduces every message.
    pub name: String,
    /// Copied from the console.
    pub show_times: bool,
}

impl Console {
    /// Construct a console from the run's options.
    pub fn new(options: &Options) -> (r: Console)
        ensures
            r.show_times == options.show_times,
    {
        Console { show_times: options.show_times }
    }

    /// Start the activity for one scenario: the pristine tree and the
    /// baseline get fixed task texts, a mutant is described by its
    /// mutation, with its ordinal within the run.
    pub fn start_scenario(&self, scenario: &Scenario) -> (r: Activity)
        requires
            scenario.well_formed(),
        ensures
            r.task@ == spec_scenario_task(*scenario),
            r.message@ == spec_scenario_task(*scenario),
            r.show_times == self.show_times,
            scenario is Mutant ==> r.overall_progress == Some(
                (
                    (scenario->i_mutation + 1) as usize,
                    scenario->n_mutations,
                ),
            ),
            !(scenario is Mutant) ==> r.overall_progress is None,
    {
        match scenario {
            Scenario::SourceTree => self.start_activity("source tree"),
            Scenario::Baseline => self.start_activity("unmutated baseline"),
            Scenario::Mutant { mutation, i_mutation, n_mutations } => {
                let described = style_mutation(mutation);
                let mut activity = self.start_activity(described.as_str());
                activity.overall_progress = Some((*i_mutation + 1, *n_mutations));
                activity
            },
        }
    }

    /// Start a general-purpose activity.
    pub fn start_activity(&self, task: &str) -> (r: Activity)
        ensures
            r.task@ == task@,
            r.message@ == task@,
            r.overall_progress is None,
            r.show_times == self.show_times,
    {
        Activity {
            task: String::from_str(task),
            message: String::from_str(task),
            overall_progress: None,
            show_times: self.show_times,
        }
    }

    /// Start an activity for copying a tree.
    pub fn start_copy_activity(&self, name: &str) -> (r: CopyActivity)
        ensures
            r.name@ == name@,
            r.show_times == self.show_times,
    {
        CopyActivity { name: String::from_str(name), show_times: self.show_times }
    }
}

/// The progress message shown while a phase runs: the mutant's place in the
/// run when there is one, the task, and the phase name.
pub open spec fn spec_phase_message(a: Activity, phase: Seq<char>) -> Seq<char> {
    (match a.overall_progress {
        Some((i, n)) => "["@ + spec_decimal(i as nat) + "/"@ + spec_decimal(n as nat) + "] "@,
        None => Seq::<char>::empty(),
    }) + a.task@ + " ("@ + phase + ")"@
}

impl Activity {
    /// Update the progress message for the phase now running.
    pub fn set_phase(&mut self, phase: &str)
        ensures
            final(self).task == old(self).task,
            final(self).overall_progress == old(self).overall_progress,
            final(self).show_times == old(self).show_times,
            final(self).message@ == spec_phase_message(*old(self), phase@),
    {
        let mut m: String = String::new();
        match self.overall_progress {
            Some((i, n)) => {
                m.append("[");
                let i_text = format_decimal(i as u64);
                m.append(i_text.as_str());
                m.append("/");
                let n_text = format_decimal(n as u64);
                m.append(n_text.as_str());
                m.append("] ");
            },
            None => {},
        }
        m.append(self.task.as_str());
        m.append(" (");
        m.append(phase);
        m.append(")");
        proof {
            assert(m@ =~= spec_phase_message(*old(self), phase@));
        }
        self.message = m;
    }

    /// The line reporting that this activity was interrupted.
    pub fn interrupted(&self) -> (r: String)
        ensures
            r@ == self.task@ + " ... interrupted"@,
    {
        let mut s = self.task.clone();
        s.append(" ... interrupted");
        s
    }

    /// Whether this outcome's report is suppressed: caught mutants and
    /// unviable mutants stay quiet unless the options ask for them.
    pub open spec fn spec_outcome_suppressed(o: Outcome, options: Options) -> bool {
        ||| (o.spec_mutant_caught() && !options.print_caught)
        ||| (o.scenario is Mutant && o.spec_check_or_build_failed() && !options.print_unviable)
    }

    /// The text reporting an outcome: the task, its label, the elapsed time
    /// when times are shown, and the captured log when it is interesting or
    /// always wanted.
    pub open spec fn spec_outcome_text(
        a: Activity,
        o: Outcome,
        options: Options,
        elapsed_ms: nat,
    ) -> Seq<char> {
        a.task@ + " ... "@ + spec_outcome_label(o) + (if a.show_times {
            " in "@ + spec_elapsed(elapsed_ms)
        } else {
            Seq::<char>::empty()
        }) + "\n"@ + (if o.spec_should_show_logs() || options.show_all_logs {
            o.log_content@
        } else {
            Seq::<char>::empty()
        })
    }

    /// Report the outcome of this activity's scenario, given how long it
    /// took: the full text to print, or nothing when the outcome is
    /// routine and suppressed.
    pub fn outcome(self, outcome: &Outcome, options: &Options, elapsed_ms: u64) -> (r: Option<
        String,
    >)
        requires
            outcome.phase_results@.len() > 0,
        ensures
            r is Some <==> !Self::spec_outcome_suppressed(*outcome, *options),
            r is Some ==> r->0@ == Self::spec_outcome_text(
                self,
                *outcome,
                *options,
                elapsed_ms as nat,
            ),
    {
        if (outcome.mutant_caught() && !options.print_caught) || (outcome.scenario.is_mutant()
            && outcome.check_or_build_failed() && !options.print_unviable) {
            return None;
        }
        let mut s = self.task.clone();
        s.append(" ... ");
        s.append(style_outcome(outcome));
        if self.show_times {
            s.append(" in ");
            let t = format_elapsed(elapsed_ms);
            s.append(t.as_str());
        }
        s.append("\n");
        if outcome.should_show_logs() || options.show_all_logs {
            s.append(outcome.get_log_content().as_str());
        }
        proof {
            assert(s@ =~= Self::spec_outcome_text(self, *outcome, *options, elapsed_ms as nat));
        }
        Some(s)
    }
}

impl CopyActivity {
    /// The progress message while bytes are still being copied.
    pub fn bytes_copied(&self, bytes_copied: u64, elapsed_secs: u64) -> (r: String)
        ensures
            r@ == self.name@ + " ... "@ + spec_mb(bytes_copied as nat) + " in "@ + spec_decimal(
                elapsed_secs as nat,
            ) + "s"@,
    {
        let mut s = self.name.clone();
        s.append(" ... ");
        let mb = style_mb(bytes_copied);
        s.append(mb.as_str());
        s.append(" in ");
        let secs = format_decimal(elapsed_secs);
        s.append(secs.as_str());
        s.append("s");
        s
    }

    /// The line reporting that the copy finished, with its size and
    /// duration when times are shown.
    pub fn succeed(self, bytes_copied: u64, elapsed_ms: u64) -> (r: String)
        ensures
            self.show_times ==> r@ == self.name@ + " ... "@ + spec_mb(bytes_copied as nat)
                + " in "@ + spec_elapsed(elapsed_ms as nat),
            !self.show_times ==> r@ == self.name@ + " ... done"@,
    {
        let mut s = self.name.clone();
        if self.show_times {
            s.append(" ... ");
            let mb = style_mb(bytes_copied);
            s.append(mb.as_str());
            s.append(" in ");
            let t = format_elapsed(elapsed_ms);
            s.append(t.as_str());
        } else {
            s.append(" ... done");
        }
        s
    }

    /// The line reporting that the copy failed.
    pub fn fail(self) -> (r: String)
        ensures
            r@ == self.name@ + " ... failed"@,
    {
        let mut s = self.name.clone();
        s.append(" ... failed");
        s
    }
}

} // verus!
