//! Steps that are taken in order until one fails.

use vstd::prelude::*;

verus! {

/// How far a list of steps has come.
#[derive(Clone, Copy, Debug, PartialEq, Eq, Structural)]
pub enum Progress {
    /// The step at this place is to be taken.
    Take(usize),
    /// Every step has succeeded.
    Complete,
    /// A step has failed, and none is taken any more.
    Failed,
}

/// What comes first of `count` steps.
pub open spec fn first_action(count: usize) -> Progress {
    if count > 0 {
        Progress::Take(0)
    } else {
        Progress::Complete
    }
}

/// What comes after the step at `i` of `count` steps.
pub open spec fn step_action(count: usize, i: usize, succeeded: bool) -> Progress {
    if !succeeded {
        Progress::Failed
    } else if i + 1 < count {
        Progress::Take((i + 1) as usize)
    } else {
        Progress::Complete
    }
}

/// Decides what comes first of `count` steps.
pub fn first_step(count: usize) -> (r: Progress)
    ensures
        r == first_action(count),
{
    if count > 0 {
        Progress::Take(0)
    } else {
        Progress::Complete
    }
}

/// Decides what comes after the step at `i` of `count` steps, by whether it succeeded.
pub fn on_step(count: usize, i: usize, succeeded: bool) -> (r: Progress)
    ensures
        r == step_action(count, i, succeeded),
{
    if !succeeded {
        Progress::Failed
    } else if i < count && i + 1 < count {
        Progress::Take(i + 1)
    } else {
        Progress::Complete
    }
}

/// What `count` steps come to from the progress `p` on, where `results` tells which of them succeed:
/// the places of the steps that are taken, in order, and the end.
pub open spec fn run_from(count: usize, p: Progress, results: spec_fn(int) -> bool) -> (
    Seq<int>,
    Progress,
)
    decreases
            (match p {
                Progress::Take(i) => count - i + 1,
                _ => 0,
            }),
{
    match p {
        Progress::Take(i) => if i < count {
            let rest = run_from(count, step_action(count, i, results(i as int)), results);
            (seq![i as int] + rest.0, rest.1)
        } else {
            (Seq::empty(), p)
        },
        end => (Seq::empty(), end),
    }
}

/// What `count` steps come to, where `results` tells which of them succeed.
pub open spec fn run(count: usize, results: spec_fn(int) -> bool) -> (Seq<int>, Progress) {
    run_from(count, first_action(count), results)
}

/// Whether every one of `count` steps succeeds.
pub open spec fn all_succeed(count: usize, results: spec_fn(int) -> bool) -> bool {
    forall|i: int| 0 <= i < count ==> #[trigger] results(i)
}

/// The steps are complete exactly where every one of them succeeded, and in every other case they
/// fail.
pub proof fn law_complete(count: usize, results: spec_fn(int) -> bool)
    ensures
        run(count, results).1 == Progress::Complete <==> all_succeed(count, results),
        run(count, results).1 == Progress::Failed <==> !all_succeed(count, results),
{
    if count > 0 {
        lemma_complete(count, 0, results);
    }
}

proof fn lemma_complete(count: usize, from: usize, results: spec_fn(int) -> bool)
    requires
        from < count,
    ensures
        ({
            let end = run_from(count, Progress::Take(from), results).1;
            let all = forall|i: int| from <= i < count ==> #[trigger] results(i);
            &&& end == Progress::Complete <==> all
            &&& end == Progress::Failed <==> !all
        }),
    decreases count - from,
{
    let next = step_action(count, from, results(from as int));
    assert(run_from(count, Progress::Take(from), results).1 == run_from(count, next, results).1);
    if results(from as int) && from + 1 < count {
        lemma_complete(count, (from + 1) as usize, results);
        if forall|i: int| from + 1 <= i < count ==> #[trigger] results(i) {
            assert forall|i: int| from <= i < count implies #[trigger] results(i) by {
                if i > from {
                    assert(from + 1 <= i);
                }
            }
        }
    }
}

/// A step is taken only where every step before it has succeeded: nothing is done behind a failure.
pub proof fn law_nothing_behind_a_failure(count: usize, results: spec_fn(int) -> bool, k: int)
    requires
        run(count, results).0.contains(k),
    ensures
        0 <= k < count,
        forall|i: int| 0 <= i < k ==> #[trigger] results(i),
{
    if count > 0 {
        lemma_taken(count, 0, results, k);
    }
}

proof fn lemma_taken(count: usize, from: usize, results: spec_fn(int) -> bool, k: int)
    requires
        from < count,
        run_from(count, Progress::Take(from), results).0.contains(k),
    ensures
        from <= k < count,
        forall|i: int| from <= i < k ==> #[trigger] results(i),
    decreases count - from,
{
    let next = step_action(count, from, results(from as int));
    let rest = run_from(count, next, results).0;
    let taken = run_from(count, Progress::Take(from), results).0;
    assert(taken == seq![from as int] + rest);
    if k != from {
        let at = choose|at: int| 0 <= at < taken.len() && taken[at] == k;
        assert(rest[at - 1] == k);
        assert(results(from as int) && from + 1 < count);
        lemma_taken(count, (from + 1) as usize, results, k);
        assert forall|i: int| from <= i < k implies #[trigger] results(i) by {
            if i > from {
                assert(from + 1 <= i);
            }
        }
    }
}

/// The steps are taken one after the other from the first on, none twice and none left out, as many as
/// succeed and the one that fails.
pub proof fn law_in_order(count: usize, results: spec_fn(int) -> bool, j: int)
    ensures
        0 <= j < run(count, results).0.len() ==> run(count, results).0[j] == j,
        run(count, results).0.len() <= count,
        run(count, results).0.len() < count ==> run(count, results).0.len() > 0 && !results(
            run(count, results).0.len() - 1,
        ),
{
    if count > 0 {
        lemma_in_order(count, 0, results, j);
    }
}

proof fn lemma_in_order(count: usize, from: usize, results: spec_fn(int) -> bool, j: int)
    requires
        from < count,
    ensures
        ({
            let taken = run_from(count, Progress::Take(from), results).0;
            &&& 0 <= j < taken.len() ==> taken[j] == from + j
            &&& 0 < taken.len() <= count - from
            &&& taken.len() < count - from ==> !results(from + taken.len() - 1)
        }),
    decreases count - from,
{
    let next = step_action(count, from, results(from as int));
    let rest = run_from(count, next, results).0;
    let taken = run_from(count, Progress::Take(from), results).0;
    assert(taken == seq![from as int] + rest);
    if results(from as int) && from + 1 < count {
        lemma_in_order(count, (from + 1) as usize, results, j - 1);
    } else {
        assert(rest.len() == 0);
    }
}

} // verus!
