//! The course of a plan: its steps are taken in order, and the first failure of a step that must
//! succeed ends it.

use vstd::prelude::*;

verus! {

/// Where a plan stands.
#[derive(Debug)]
pub enum Course<E> {
    /// The step at this place is to be taken.
    Next(usize),
    /// All steps were taken.
    Done,
    /// A step that must succeed failed, and no further step is taken.
    Failed(E),
}

/// The beginning of a plan of so many steps.
pub open spec fn beginning<E>(len: nat) -> Course<E> {
    if len == 0 {
        Course::Done
    } else {
        Course::Next(0)
    }
}

/// Where a plan stands once the step at a place was taken, by which of its steps must succeed.
pub open spec fn after<E>(must: Seq<bool>, at: int, outcome: Result<(), E>) -> Course<E> {
    match outcome {
        Err(e) if must[at] => Course::Failed(e),
        _ => if at + 1 < must.len() {
            Course::Next((at + 1) as usize)
        } else {
            Course::Done
        },
    }
}

/// The beginning of a plan of so many steps.
pub fn begin<E>(len: usize) -> (r: Course<E>)
    ensures
        r == beginning::<E>(len as nat),
{
    if len == 0 {
        Course::Done
    } else {
        Course::Next(0)
    }
}

/// Where a plan of `len` steps stands once the step at a place was taken, by whether that step
/// must succeed.
pub fn proceed<E>(len: usize, at: usize, must: bool, outcome: Result<(), E>) -> (r: Course<E>)
    requires
        at < len,
    ensures
        r == match outcome {
            Err(e) if must => Course::Failed(e),
            _ => if at + 1 < len {
                Course::Next((at + 1) as usize)
            } else {
                Course::Done
            },
        },
{
    match outcome {
        Err(e) if must => Course::Failed(e),
        _ => if at + 1 < len {
            Course::Next(at + 1)
        } else {
            Course::Done
        },
    }
}

/// Whether the step at a place ends the plan, by what would come of each step.
pub open spec fn ends_it<E>(must: Seq<bool>, outcomes: Seq<Result<(), E>>, i: int) -> bool {
    must[i] && outcomes[i] is Err
}

/// How many steps are taken from a place on up to the end of the plan, and how the plan ends, by
/// what would come of each step.
pub open spec fn finish<E>(
    must: Seq<bool>,
    outcomes: Seq<Result<(), E>>,
    course: Course<E>,
    taken: nat,
) -> (nat, Course<E>)
    decreases must.len() - taken,
{
    match course {
        Course::Next(at) => if at == taken && taken < must.len() {
            finish(must, outcomes, after(must, at as int, outcomes[at as int]), taken + 1)
        } else {
            (taken, course)
        },
        _ => (taken, course),
    }
}

/// A plan fails exactly where a step that must succeed does. The first such failure is the result,
/// and no step behind it is taken; other failures change nothing.
pub proof fn first_failure_is_the_result<E>(must: Seq<bool>, outcomes: Seq<Result<(), E>>)
    requires
        outcomes.len() == must.len(),
        must.len() <= usize::MAX,
    ensures
        ({
            let (taken, end) = finish(must, outcomes, beginning(must.len()), 0);
            match end {
                Course::Failed(e) => {
                    &&& 0 < taken <= must.len()
                    &&& ends_it(must, outcomes, taken - 1)
                    &&& outcomes[taken - 1] == Err::<(), E>(e)
                    &&& forall|i: int| 0 <= i < taken - 1 ==> !ends_it(must, outcomes, i)
                },
                Course::Done => {
                    &&& taken == must.len()
                    &&& forall|i: int| 0 <= i < must.len() ==> !ends_it(must, outcomes, i)
                },
                Course::Next(_) => false,
            }
        }),
{
    if must.len() > 0 {
        lemma_finish(must, outcomes, 0);
    }
}

proof fn lemma_finish<E>(must: Seq<bool>, outcomes: Seq<Result<(), E>>, at: nat)
    requires
        outcomes.len() == must.len(),
        at < must.len() <= usize::MAX,
        forall|i: int| 0 <= i < at ==> !ends_it(must, outcomes, i),
    ensures
        ({
            let (taken, end) = finish(must, outcomes, Course::Next(at as usize), at);
            match end {
                Course::Failed(e) => {
                    &&& 0 < taken <= must.len()
                    &&& ends_it(must, outcomes, taken - 1)
                    &&& outcomes[taken - 1] == Err::<(), E>(e)
                    &&& forall|i: int| 0 <= i < taken - 1 ==> !ends_it(must, outcomes, i)
                },
                Course::Done => {
                    &&& taken == must.len()
                    &&& forall|i: int| 0 <= i < must.len() ==> !ends_it(must, outcomes, i)
                },
                Course::Next(_) => false,
            }
        }),
    decreases must.len() - at,
{
    reveal_with_fuel(finish, 2);
    if !ends_it(must, outcomes, at as int) && at + 1 < must.len() {
        lemma_finish(must, outcomes, at + 1);
    }
}

} // verus!
