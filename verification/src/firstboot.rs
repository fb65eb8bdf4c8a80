use vstd::prelude::*;
use vstd::utf8::encode_utf8;

use crate::plan::{law_failure_ends_plan, law_plan_runs_to_first_failure, succeeded, trace};
use crate::text::enclose;

verus! {

/// The file in the boot filesystem whose presence makes a boot the first one. It comes with
/// the image: without it, nothing can be added to it.
pub const FIRSTBOOT_FILE: &'static str = "ignition.firstboot";

/// The line that gives the first boot more kernel arguments.
pub open spec fn firstboot_line(args: Seq<char>) -> Seq<char> {
    "set ignition_network_kcmdline=\""@ + args + "\"\n"@
}

/// Says what to append to [`FIRSTBOOT_FILE`] to give the first boot more kernel arguments.
pub fn write_firstboot_kargs(args: &str) -> (line: String)
    ensures
        line@ == firstboot_line(args@),
{
    enclose("set ignition_network_kcmdline=\"", args, "\"\n")
}

/// One thing to do with [`FIRSTBOOT_FILE`]. The steps are taken in order, up to the first that
/// fails, as [`crate::plan::trace`] says.
#[derive(Debug, Clone, Copy, PartialEq, Eq, Structural)]
pub enum FirstbootStep {
    /// Open it to append to it. It must be there.
    Open,
    /// Write to it what [`write_firstboot_kargs`] says.
    Write,
}

/// What is done to set the kernel arguments of the first boot.
pub open spec fn firstboot_steps() -> Seq<FirstbootStep> {
    seq![FirstbootStep::Open, FirstbootStep::Write]
}

/// Says how to set the kernel arguments of the first boot.
pub fn plan_firstboot() -> (steps: Vec<FirstbootStep>)
    ensures
        steps@ == firstboot_steps(),
{
    let mut steps: Vec<FirstbootStep> = Vec::new();
    steps.push(FirstbootStep::Open);
    steps.push(FirstbootStep::Write);
    assert(steps@ =~= firstboot_steps());
    steps
}

/// What is said of a step that failed, where `path` is the file.
pub open spec fn firstboot_context(step: FirstbootStep, path: Seq<char>) -> Seq<char> {
    match step {
        FirstbootStep::Open => "opening first-boot file "@ + path,
        FirstbootStep::Write => "writing first-boot kernel arguments"@,
    }
}

impl FirstbootStep {
    /// What to say of the step if it fails, in front of its own error, where `path` is the file.
    pub fn context(&self, path: &str) -> (context: String)
        ensures
            context@ == firstboot_context(*self, path@),
    {
        match self {
            FirstbootStep::Open => "opening first-boot file ".to_owned().concat(path),
            FirstbootStep::Write => "writing first-boot kernel arguments".to_owned(),
        }
    }
}

/// What [`FIRSTBOOT_FILE`] holds after some steps succeeded, given what it held before. Opening it
/// to append to it leaves it as it is.
pub open spec fn firstboot_file(before: Seq<u8>, steps: Seq<FirstbootStep>, args: Seq<char>) -> Seq<
    u8,
>
    decreases steps.len(),
{
    if steps.len() == 0 {
        before
    } else {
        let file = firstboot_file(before, steps.drop_last(), args);
        match steps.last() {
            FirstbootStep::Open => file,
            FirstbootStep::Write => file + encode_utf8(firstboot_line(args)),
        }
    }
}

/// Where no step fails, the line stands at the end of the file, after all that the file held.
pub proof fn law_line_is_appended(outcomes: Seq<bool>, before: Seq<u8>, args: Seq<char>)
    requires
        outcomes.len() == firstboot_steps().len(),
        trace(firstboot_steps(), outcomes).failed is None,
    ensures
        firstboot_file(before, succeeded(trace(firstboot_steps(), outcomes)), args) == before
            + encode_utf8(firstboot_line(args)),
{
    let steps = firstboot_steps();
    law_plan_runs_to_first_failure(steps, outcomes);
    let opened = steps.drop_last();
    assert(opened.drop_last() =~= Seq::<FirstbootStep>::empty());
    assert(firstboot_file(before, opened.drop_last(), args) == before);
    assert(firstboot_file(before, opened, args) == before);
}

/// A file that cannot be opened is not written to.
pub proof fn law_missing_file_is_not_written(outcomes: Seq<bool>)
    requires
        outcomes.len() == firstboot_steps().len(),
        !outcomes[0],
    ensures
        trace(firstboot_steps(), outcomes).taken == seq![FirstbootStep::Open],
        trace(firstboot_steps(), outcomes).failed == Some(FirstbootStep::Open),
{
    law_failure_ends_plan(firstboot_steps(), outcomes, 0);
    assert(firstboot_steps().take(1) =~= seq![FirstbootStep::Open]);
}

/// Setting the kernel arguments again adds a line after the first one, which stays.
pub proof fn law_lines_add_up(
    first_outcomes: Seq<bool>,
    second_outcomes: Seq<bool>,
    before: Seq<u8>,
    first: Seq<char>,
    second: Seq<char>,
)
    requires
        first_outcomes.len() == firstboot_steps().len(),
        trace(firstboot_steps(), first_outcomes).failed is None,
        second_outcomes.len() == firstboot_steps().len(),
        trace(firstboot_steps(), second_outcomes).failed is None,
    ensures
        firstboot_file(
            firstboot_file(before, succeeded(trace(firstboot_steps(), first_outcomes)), first),
            succeeded(trace(firstboot_steps(), second_outcomes)),
            second,
        ) == before + encode_utf8(firstboot_line(first)) + encode_utf8(firstboot_line(second)),
{
    law_line_is_appended(first_outcomes, before, first);
    law_line_is_appended(second_outcomes, before + encode_utf8(firstboot_line(first)), second);
}

/// The file is opened before it is written to, and what is appended is a line of its own with all
/// of the arguments in quotes.
pub proof fn law_arguments_are_quoted(args: Seq<char>, path: Seq<char>)
    ensures
        firstboot_steps().len() == 2,
        firstboot_steps()[0] == FirstbootStep::Open,
        firstboot_steps()[1] == FirstbootStep::Write,
        FIRSTBOOT_FILE@ == "ignition.firstboot"@,
        firstboot_line(args) == "set ignition_network_kcmdline=\""@ + args + "\"\n"@,
        firstboot_context(FirstbootStep::Open, path) == "opening first-boot file "@ + path,
        firstboot_context(FirstbootStep::Write, path) == "writing first-boot kernel arguments"@,
{
}

} // verus!
