use vstd::prelude::*;

verus! {

/// What came of a plan: the steps that were taken, and the one whose error is that of the whole.
pub struct Trace<T> {
    pub taken: Seq<T>,
    pub failed: Option<T>,
}

/// What comes of the steps of a plan, given which of them succeed if they are taken. They are
/// taken in order, and the first that fails is the last.
pub open spec fn trace<T>(steps: Seq<T>, outcomes: Seq<bool>) -> Trace<T>
    decreases steps.len(),
{
    if steps.len() == 0 {
        Trace { taken: Seq::empty(), failed: None }
    } else if !outcomes[0] {
        Trace { taken: seq![steps[0]], failed: Some(steps[0]) }
    } else {
        let rest = trace(steps.skip(1), outcomes.skip(1));
        Trace { taken: seq![steps[0]] + rest.taken, failed: rest.failed }
    }
}

/// A plan that is being carried out, and what came of the steps that were taken.
pub struct Progress<T> {
    pub steps: Seq<T>,
    pub outcomes: Seq<bool>,
}

/// No step was taken after one that failed.
pub open spec fn in_order<T>(progress: Progress<T>) -> bool {
    &&& progress.outcomes.len() <= progress.steps.len()
    &&& forall|i: int| 0 <= i < progress.outcomes.len() - 1 ==> #[trigger] progress.outcomes[i]
}

/// The step that failed, if one did.
pub open spec fn failed_step<T>(progress: Progress<T>) -> Option<T> {
    if progress.outcomes.len() > 0 && !progress.outcomes.last() {
        Some(progress.steps[progress.outcomes.len() - 1])
    } else {
        None
    }
}

/// The step to take next, unless one failed or all were taken.
pub open spec fn next_step<T>(progress: Progress<T>) -> Option<T> {
    if failed_step(progress) is None && progress.outcomes.len() < progress.steps.len() {
        Some(progress.steps[progress.outcomes.len() as int])
    } else {
        None
    }
}

/// Carries a plan out, step by step, up to the first that fails.
#[derive(Debug)]
pub struct Walk<T> {
    steps: Vec<T>,
    succeeded: usize,
    failed: bool,
}

impl<T> View for Walk<T> {
    type V = Progress<T>;

    closed spec fn view(&self) -> Progress<T> {
        let successes = Seq::new(self.succeeded as nat, |i: int| true);
        Progress {
            steps: self.steps@,
            outcomes: if self.failed {
                successes.push(false)
            } else {
                successes
            },
        }
    }
}

impl<T> Walk<T> {
    #[verifier::type_invariant]
    spec fn within_plan(self) -> bool {
        &&& self.succeeded <= self.steps@.len()
        &&& self.failed ==> self.succeeded < self.steps@.len()
    }
}

impl<T: Copy> Walk<T> {
    /// Nothing of the plan was done yet.
    pub fn new(steps: Vec<T>) -> (walk: Self)
        ensures
            walk@.steps == steps@,
            walk@.outcomes == Seq::<bool>::empty(),
            in_order(walk@),
    {
        Walk { steps, succeeded: 0, failed: false }
    }

    /// The same walk, with more steps at the end of its plan.
    pub fn followed_by(self, more: Vec<T>) -> (walk: Self)
        ensures
            walk@.steps == self@.steps + more@,
            walk@.outcomes == self@.outcomes,
            in_order(self@) ==> in_order(walk@),
    {
        proof {
            use_type_invariant(&self);
        }
        let mut more = more;
        let mut steps = self.steps;
        steps.append(&mut more);
        Walk { steps, succeeded: self.succeeded, failed: self.failed }
    }

    /// The step to take now. There is none once a step failed, or when all were taken.
    pub fn next(&self) -> (step: Option<T>)
        ensures
            step == next_step(self@),
            step is None <==> self@.outcomes.len() >= self@.steps.len() || (self@.outcomes.len() > 0
                && !self@.outcomes.last()),
            step matches Some(step) ==> step == self@.steps[self@.outcomes.len() as int],
    {
        proof {
            use_type_invariant(self);
        }
        if !self.failed && self.succeeded < self.steps.len() {
            Some(self.steps[self.succeeded])
        } else {
            None
        }
    }

    /// The step that failed, if one did.
    pub fn failed(&self) -> (step: Option<T>)
        ensures
            step == failed_step(self@),
            step is Some <==> self@.outcomes.len() > 0 && !self@.outcomes.last(),
            step matches Some(step) ==> step == self@.steps[self@.outcomes.len() - 1],
    {
        proof {
            use_type_invariant(self);
        }
        if self.failed {
            Some(self.steps[self.succeeded])
        } else {
            None
        }
    }

    /// Takes in whether the step that was to be taken now succeeded. Where there was none,
    /// nothing changes.
    pub fn record(&mut self, succeeded: bool)
        ensures
            final(self)@.steps == old(self)@.steps,
            final(self)@.outcomes == if next_step(old(self)@) is Some {
                old(self)@.outcomes.push(succeeded)
            } else {
                old(self)@.outcomes
            },
            in_order(old(self)@) ==> in_order(final(self)@),
    {
        proof {
            use_type_invariant(&*self);
        }
        if !self.failed && self.succeeded < self.steps.len() {
            if succeeded {
                self.succeeded = self.succeeded + 1;
            } else {
                self.failed = true;
            }
        }
        assert(self@.outcomes =~= if next_step(old(self)@) is Some {
            old(self)@.outcomes.push(succeeded)
        } else {
            old(self)@.outcomes
        });
    }
}

/// How many of the first `n` steps succeed before one fails.
pub open spec fn successes(outcomes: Seq<bool>, n: nat) -> nat
    decreases n,
{
    if n == 0 || !outcomes[0] {
        0
    } else {
        1 + successes(outcomes.skip(1), (n - 1) as nat)
    }
}

proof fn lemma_successes(outcomes: Seq<bool>, n: nat)
    requires
        n <= outcomes.len(),
    ensures
        successes(outcomes, n) <= n,
        forall|i: int| 0 <= i < successes(outcomes, n) ==> #[trigger] outcomes[i],
        successes(outcomes, n) < n ==> !outcomes[successes(outcomes, n) as int],
    decreases n,
{
    if n > 0 && outcomes[0] {
        let rest = outcomes.skip(1);
        lemma_successes(rest, (n - 1) as nat);
        assert forall|i: int| 0 <= i < successes(outcomes, n) implies #[trigger] outcomes[i] by {
            if i > 0 {
                assert(rest[i - 1] == outcomes[i]);
            }
        }
        assert(successes(outcomes, n) < n ==> rest[successes(rest, (n - 1) as nat) as int]
            == outcomes[successes(outcomes, n) as int]);
    }
}

/// A plan is carried out whole, or up to and with the first step that fails.
pub proof fn law_plan_runs_to_first_failure<T>(steps: Seq<T>, outcomes: Seq<bool>)
    requires
        steps.len() <= outcomes.len(),
    ensures
        ({
            let done = trace(steps, outcomes);
            let k = successes(outcomes, steps.len()) as int;
            &&& k <= steps.len()
            &&& forall|i: int| 0 <= i < k ==> #[trigger] outcomes[i]
            &&& k < steps.len() ==> !outcomes[k] && done.taken == steps.take(k + 1) && done.failed
                == Some(steps[k])
            &&& k == steps.len() ==> done.taken == steps && done.failed is None
        }),
{
    let k = successes(outcomes, steps.len()) as int;
    lemma_successes(outcomes, steps.len());
    if k < steps.len() {
        law_failure_ends_plan(steps, outcomes, k);
    } else {
        law_success_takes_all(steps, outcomes);
    }
}

/// The steps that succeeded: all that were taken, but for the one that failed.
pub open spec fn succeeded<T>(done: Trace<T>) -> Seq<T> {
    if done.failed is Some {
        done.taken.drop_last()
    } else {
        done.taken
    }
}

/// A step that fails after others that succeeded is the last that is taken, and its error is
/// that of the plan.
pub proof fn law_failure_ends_plan<T>(steps: Seq<T>, outcomes: Seq<bool>, k: int)
    requires
        0 <= k < steps.len() <= outcomes.len(),
        forall|i: int| 0 <= i < k ==> #[trigger] outcomes[i],
        !outcomes[k],
    ensures
        trace(steps, outcomes).taken == steps.take(k + 1),
        trace(steps, outcomes).failed == Some(steps[k]),
    decreases k,
{
    if k > 0 {
        let rest = trace(steps.skip(1), outcomes.skip(1));
        law_failure_ends_plan(steps.skip(1), outcomes.skip(1), k - 1);
        assert(seq![steps[0]] + rest.taken =~= steps.take(k + 1));
    } else {
        assert(seq![steps[0]] =~= steps.take(1));
    }
}

/// A plan none of whose steps fails is carried out whole.
pub proof fn law_success_takes_all<T>(steps: Seq<T>, outcomes: Seq<bool>)
    requires
        steps.len() <= outcomes.len(),
        forall|i: int| 0 <= i < steps.len() ==> #[trigger] outcomes[i],
    ensures
        trace(steps, outcomes).taken == steps,
        trace(steps, outcomes).failed is None,
    decreases steps.len(),
{
    if steps.len() > 0 {
        law_success_takes_all(steps.skip(1), outcomes.skip(1));
        assert(seq![steps[0]] + steps.skip(1) =~= steps);
    }
}

/// A walk that has nothing left to do took the steps, and met the failure, that the outcomes of
/// the steps call for.
pub proof fn law_walk_follows_outcomes<T>(progress: Progress<T>, outcomes: Seq<bool>)
    requires
        in_order(progress),
        next_step(progress) is None,
        outcomes.len() == progress.steps.len(),
        progress.outcomes == outcomes.take(progress.outcomes.len() as int),
    ensures
        trace(progress.steps, outcomes).taken == progress.steps.take(
            progress.outcomes.len() as int,
        ),
        trace(progress.steps, outcomes).failed == failed_step(progress),
{
    let n = progress.outcomes.len() as int;
    assert forall|i: int| 0 <= i < n implies #[trigger] outcomes[i] == progress.outcomes[i] by {
        assert(outcomes.take(n)[i] == outcomes[i]);
    }
    if failed_step(progress) is Some {
        law_failure_ends_plan(progress.steps, outcomes, n - 1);
    } else {
        if n > 0 {
            assert(progress.outcomes[n - 1]);
        }
        law_success_takes_all(progress.steps, outcomes);
        assert(progress.steps.take(n) =~= progress.steps);
    }
}

/// The step to take next is the one after those that were taken. There is none exactly where the
/// last one failed or all were taken.
pub proof fn law_steps_are_taken_in_turn<T>(progress: Progress<T>)
    ensures
        next_step(progress) is None <==> progress.outcomes.len() >= progress.steps.len() || (
        progress.outcomes.len() > 0 && !progress.outcomes.last()),
        next_step(progress) matches Some(step) ==> step
            == progress.steps[progress.outcomes.len() as int],
        failed_step(progress) is Some <==> progress.outcomes.len() > 0
            && !progress.outcomes.last(),
        failed_step(progress) matches Some(step) ==> step
            == progress.steps[progress.outcomes.len() - 1],
        in_order(progress) <==> progress.outcomes.len() <= progress.steps.len() && forall|i: int|
            0 <= i < progress.outcomes.len() - 1 ==> #[trigger] progress.outcomes[i],
{
}

/// What succeeded of a plan is what was taken of it, but for the step that failed.
pub proof fn law_failed_step_did_not_succeed<T>(done: Trace<T>)
    ensures
        done.failed is None ==> succeeded(done) == done.taken,
        done.failed is Some && done.taken.len() > 0 ==> succeeded(done).push(done.taken.last())
            == done.taken,
{
    if done.failed is Some && done.taken.len() > 0 {
        assert(done.taken.drop_last().push(done.taken.last()) =~= done.taken);
    }
}

} // verus!
