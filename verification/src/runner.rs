//! The task runner: executing `Runnable` tasks singly or as a batch, with
//! deterministic failure surfacing.
//!
//! Every execution goes through [`Runner`], which is the only module able to
//! construct the [`Token`] a task body requires — a type-level guarantee
//! that no task runs outside the runner's supervision.

use vstd::prelude::*;

use crate::errors::Error;

verus! {

/// A capability required to call [`Runnable::run`].
///
/// It has no public constructor: only [`Runner`] creates one, so every task
/// body provably executes under the runner.
pub struct Token {
    no_outside_constructor: (),
}

/// A unit of work the runner can execute: a name, a human description, and
/// a body that can only be invoked with a runner-issued [`Token`].
/// Implementations live with the callers; command, in-container-exec and
/// cleanup tasks all come through here.
pub trait Runnable: Sized {
    /// Short name of the task, used to label output and wrap errors.
    fn name(&self) -> String;

    /// Human description of what the task does.
    fn description(&self) -> String;

    /// The task body. Consumes the task: each task runs at most once.
    fn run(self, token: Token) -> Result<(), Error>;
}

/// Index of the first failed result, or `-1` when every task succeeded.
pub open spec fn first_err_idx(results: Seq<Result<(), Error>>) -> int
    decreases results.len(),
{
    if results.len() == 0 {
        -1
    } else if results.first() is Err {
        0
    } else {
        let r = first_err_idx(results.drop_first());
        if r == -1 {
            -1
        } else {
            r + 1
        }
    }
}

/// The first failed index is the least failed index: every result before it
/// succeeded, it failed itself, and it is `-1` exactly when all succeeded.
pub proof fn lemma_first_err_idx(results: Seq<Result<(), Error>>)
    ensures
        -1 <= first_err_idx(results) < results.len(),
        first_err_idx(results) == -1 <==> (forall|j: int|
            0 <= j < results.len() ==> (#[trigger] results[j]) is Ok),
        first_err_idx(results) >= 0 ==> results[first_err_idx(results)] is Err && (forall|j: int|
            0 <= j < first_err_idx(results) ==> (#[trigger] results[j]) is Ok),
    decreases results.len(),
{
    if results.len() > 0 && !(results.first() is Err) {
        lemma_first_err_idx(results.drop_first());
        assert(forall|j: int|
            1 <= j < results.len() ==> (#[trigger] results[j]) == results.drop_first()[j - 1]);
    }
}

/// Reduce a batch's results to its outcome: success when every task
/// succeeded, otherwise the error of the first failing task in iteration
/// order — not in the order failures happened to occur.
#[verifier::loop_isolation(false)]
pub fn first_error(results: Vec<Result<(), Error>>) -> (r: Result<(), Error>)
    ensures
        first_err_idx(results@) == -1 ==> r is Ok,
        first_err_idx(results@) >= 0 ==> r == results@[first_err_idx(results@)],
        r is Ok <==> (forall|j: int| 0 <= j < results@.len() ==> (#[trigger] results@[j]) is Ok),
{
    proof {
        lemma_first_err_idx(results@);
    }
    let ghost rv = results@;
    let mut rest = results;
    let ghost mut done: int = 0;
    proof {
        assert(rv.skip(0) =~= rv);
    }
    while rest.len() > 0
        invariant
            0 <= done <= rv.len(),
            rest@ == rv.skip(done),
            forall|k: int| 0 <= k < done ==> (#[trigger] rv[k]) is Ok,
        decreases rest@.len(),
    {
        let ghost rest_before = rest@;
        let x = rest.remove(0);
        proof {
            assert(x == rv.skip(done)[0]);
            assert(x == rv[done]);
            assert(rest@ =~= rv.skip(done + 1));
        }
        match x {
            Result::Err(e) => {
                proof {
                    let i = first_err_idx(rv);
                    assert(rv[done] is Err);
                    if i == -1 {
                        assert(rv[done] is Ok);
                    }
                    if i < done {
                        assert(rv[i] is Ok);
                    }
                    if i > done {
                        assert(rv[done] is Ok);
                    }
                    assert(i == done);
                }
                return Result::Err(e);
            },
            Result::Ok(_) => {
                proof {
                    done = done + 1;
                }
            },
        }
    }
    proof {
        let i = first_err_idx(rv);
        if i >= 0 {
            assert(rv[i] is Ok);
        }
    }
    Result::Ok(())
}

/// The fixed palette of label colors for parallel output, cycled by task
/// position: a pure function of the index, so concurrent tasks need no
/// shared state to agree on their colors.
pub open spec fn spec_label_color(i: int) -> Seq<char> {
    let m = i % 4;
    if m == 0 {
        "\u{1b}[33m"@  // yellow
    } else if m == 1 {
        "\u{1b}[32m"@  // green
    } else if m == 2 {
        "\u{1b}[34m"@  // blue
    } else {
        "\u{1b}[36m"@  // cyan
    }
}

/// The ANSI color for the task at the given batch position.
pub fn label_color(i: usize) -> (r: &'static str)
    ensures
        r@ == spec_label_color(i as int),
{
    let m = i % 4;
    if m == 0 {
        "\u{1b}[33m"
    } else if m == 1 {
        "\u{1b}[32m"
    } else if m == 2 {
        "\u{1b}[34m"
    } else {
        "\u{1b}[36m"
    }
}

/// The runner: the single gate through which tasks execute.
pub struct Runner;

impl Runner {
    /// Execute one task. On failure the task's error comes back augmented
    /// with the task's own name as context; on success, success. No retries:
    /// a failing task is reported immediately.
    pub fn run<R: Runnable>(runnable: R) -> (r: Result<(), Error>)
        ensures
            r is Err ==> r->Err_0 matches Error::Context { .. },
    {
        let name = runnable.name();
        match runnable.run(Token { no_outside_constructor: () }) {
            Result::Ok(()) => Result::Ok(()),
            Result::Err(e) => Result::Err(e.with_context(name)),
        }
    }

    /// Execute an ordered batch of tasks. Every task runs to completion
    /// regardless of any individual failure — a batch cleaning up N
    /// workspaces must not abandon the remaining N-1 because one failed.
    /// After all have finished, the outcome is that of [`first_error`] over
    /// the per-task results in iteration order: success when all succeeded,
    /// else the first-by-index failure, wrapped with its task's name.
    pub fn run_parallel<R: Runnable>(runnables: Vec<R>) -> (r: Result<(), Error>)
        ensures
            r is Err ==> r->Err_0 matches Error::Context { .. },
            runnables@.len() == 0 ==> r is Ok,
    {
        let ghost n0 = runnables@.len();
        let mut results: Vec<Result<(), Error>> = Vec::new();
        let mut rest = runnables;
        while rest.len() > 0
            invariant
                results@.len() + rest@.len() == n0,
                forall|k: int| 0 <= k < results@.len() ==> (#[trigger] results@[k]) is Err
                    ==> results@[k]->Err_0 matches Error::Context { .. },
            decreases rest@.len(),
        {
            let t = rest.remove(0);
            let name = t.name();
            let outcome = match t.run(Token { no_outside_constructor: () }) {
                Result::Ok(()) => Result::Ok(()),
                Result::Err(e) => Result::Err(e.with_context(name)),
            };
            results.push(outcome);
        }
        proof {
            lemma_first_err_idx(results@);
            if n0 == 0 {
                assert(results@.len() == 0);
                assert(first_err_idx(results@) == -1);
            }
        }
        first_error(results)
    }
}

} // verus!
