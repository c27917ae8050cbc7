use vstd::prelude::*;
use crate::errgonomic::Errgonomic;
use crate::error_tree::ErrorTree;

verus! {

/// The two process exit signals a computation's outcome maps to.
#[derive(Clone, Copy, PartialEq, Eq, Structural, Debug)]
pub enum ExitSignal {
    /// The computation succeeded.
    Success,
    /// The computation failed.
    Failure,
}

/// Converts a computation's outcome into an exit signal. A success maps to
/// the success signal and leaves nothing to report; a failure maps to the
/// failure signal and hands back the failure's tree, ready for the report
/// sink.
pub fn exit_result<E: Errgonomic>(result: Result<(), E>) -> (r: (ExitSignal, Option<ErrorTree>))
    ensures
        result is Ok ==> r.0 is Success && r.1 is None,
        result is Err ==> r.0 is Failure && r.1 is Some && r.1->0@ == result->Err_0.tree_spec(),
{
    match result {
        Result::Ok(()) => (ExitSignal::Success, Option::None),
        Result::Err(e) => (ExitSignal::Failure, Option::Some(e.to_error_tree())),
    }
}

/// The position of the first failure in a sequence of outcomes; the
/// sequence's length where every outcome succeeded.
pub open spec fn first_failure_index<E>(s: Seq<Result<(), E>>) -> int
    decreases s.len(),
{
    if s.len() == 0 {
        0
    } else if s[0] is Err {
        0
    } else {
        1 + first_failure_index(s.subrange(1, s.len() as int))
    }
}

/// Where the first `i` outcomes succeed and the one at `i` fails, the
/// first failure stands at `i`.
pub proof fn lemma_first_failure_index<E>(s: Seq<Result<(), E>>, i: int)
    requires
        0 <= i < s.len(),
        s[i] is Err,
        forall|j: int| 0 <= j < i ==> s[j] is Ok,
    ensures
        first_failure_index(s) == i,
    decreases i,
{
    if i > 0 {
        let rest = s.subrange(1, s.len() as int);
        assert(rest[i - 1] is Err);
        assert(forall|j: int| 0 <= j < i - 1 ==> #[trigger] rest[j] == s[j + 1]);
        lemma_first_failure_index(rest, i - 1);
    }
}

/// Converts an ordered sequence of outcomes into one exit signal: the
/// first failure, if any, decides. The walk stops at that failure — later
/// outcomes are never inspected — and hands back its tree, ready for the
/// report sink; with no failure the success signal is returned and nothing
/// is left to report.
pub fn exit_results<E: Errgonomic>(results: Vec<Result<(), E>>) -> (r: (
    ExitSignal,
    Option<ErrorTree>,
))
    ensures
        (forall|i: int| 0 <= i < results@.len() ==> results@[i] is Ok) ==> r.0 is Success
            && r.1 is None,
        (exists|i: int| 0 <= i < results@.len() && results@[i] is Err) ==> {
            let first = first_failure_index(results@);
            &&& r.0 is Failure
            &&& r.1 is Some
            &&& 0 <= first < results@.len()
            &&& results@[first] is Err
            &&& r.1->0@ == results@[first]->Err_0.tree_spec()
        },
{
    let mut i: usize = 0;
    while i < results.len()
        invariant
            i <= results@.len(),
            forall|j: int| 0 <= j < i ==> results@[j] is Ok,
        decreases results@.len() - i,
    {
        match &results[i] {
            Result::Ok(u) => {},
            Result::Err(e) => {
                let tree = e.to_error_tree();
                proof {
                    lemma_first_failure_index(results@, i as int);
                }
                return (ExitSignal::Failure, Option::Some(tree));
            },
        }
        i = i + 1;
    }
    (ExitSignal::Success, Option::None)
}

} // verus!
