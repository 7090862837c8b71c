//! Work that is issued one item at a time and stops at the first failure.

use vstd::prelude::*;

verus! {

/// What is to be done next.
#[derive(Debug, PartialEq)]
pub enum Step<T, E> {
    /// Issue this item, and come back with its outcome.
    Issue(T),
    /// Everything went well.
    Done,
    /// The last item failed.
    Failed(E),
}

/// Takes the next step, given the outcome of the last one: nothing more is issued after a failure,
/// and the items are issued in order.
pub fn advance<T, E>(pending: &mut Vec<T>, outcome: Result<(), E>) -> (step: Step<T, E>)
    ensures
        step == next_step(old(pending)@, outcome),
        final(pending)@ == left_after(old(pending)@, outcome),
{
    match outcome {
        Err(cause) => Step::Failed(cause),
        Ok(_) => if pending.is_empty() {
            Step::Done
        } else {
            let ghost before = pending@;
            let item = pending.remove(0);
            assert(pending@ =~= before.drop_first());
            Step::Issue(item)
        },
    }
}

/// The next step, given what is pending and the outcome of the last step.
pub open spec fn next_step<T, E>(pending: Seq<T>, outcome: Result<(), E>) -> Step<T, E> {
    match outcome {
        Err(cause) => Step::Failed(cause),
        Ok(_) => if pending.len() == 0 {
            Step::Done
        } else {
            Step::Issue(pending[0])
        },
    }
}

/// What is pending after the next step.
pub open spec fn left_after<T, E>(pending: Seq<T>, outcome: Result<(), E>) -> Seq<T> {
    if outcome is Ok && pending.len() > 0 {
        pending.drop_first()
    } else {
        pending
    }
}

/// The items that are issued in a run that meets these outcomes, one for each item, until there is
/// no further outcome.
pub open spec fn issued<T, E>(
    pending: Seq<T>,
    outcome: Result<(), E>,
    later: Seq<Result<(), E>>,
) -> Seq<T>
    decreases later.len(),
{
    match next_step(pending, outcome) {
        Step::Issue(item) => if later.len() == 0 {
            seq![item]
        } else {
            seq![item] + issued(left_after(pending, outcome), later[0], later.drop_first())
        },
        _ => Seq::empty(),
    }
}

/// A run issues the pending items from the first one on: all of them when each goes well, and none
/// behind the first that fails.
pub proof fn runs_stop_at_the_first_failure<T, E>(
    pending: Seq<T>,
    later: Seq<Result<(), E>>,
    succeeded: int,
)
    requires
        0 <= succeeded <= later.len(),
        forall|k: int| 0 <= k < succeeded ==> #[trigger] later[k] is Ok,
        succeeded < later.len() ==> later[succeeded] is Err,
    ensures
        issued(pending, Ok(()), later) == if succeeded + 1 <= pending.len() {
            pending.take(succeeded + 1)
        } else {
            pending
        },
    decreases later.len(),
{
    if pending.len() == 0 {
        assert(issued(pending, Ok(()), later) =~= pending);
    } else if later.len() == 0 {
        assert(pending.take(1) =~= seq![pending[0]]);
    } else if succeeded == 0 {
        assert(issued(pending.drop_first(), later[0], later.drop_first()) =~= Seq::empty());
        assert(issued(pending, Ok(()), later) =~= pending.take(1));
    } else {
        let rest = later.drop_first();
        assert forall|k: int| 0 <= k < succeeded - 1 implies #[trigger] rest[k] is Ok by {
            assert(rest[k] == later[k + 1]);
        }
        runs_stop_at_the_first_failure(pending.drop_first(), rest, succeeded - 1);
        assert(later[0] is Ok);
        assert(later[0]->Ok_0 == ());
        let tail = issued(pending.drop_first(), Ok(()), rest);
        assert(issued(pending, Ok(()), later) =~= seq![pending[0]] + tail);
        if succeeded + 1 <= pending.len() {
            assert(seq![pending[0]] + tail =~= pending.take(succeeded + 1));
        } else {
            assert(seq![pending[0]] + tail =~= pending);
        }
    }
}

/// The step that a run ends in, when it meets these outcomes; `None` when it has not come to an end.
pub open spec fn last_step<T, E>(
    pending: Seq<T>,
    outcome: Result<(), E>,
    later: Seq<Result<(), E>>,
) -> Option<Step<T, E>>
    decreases later.len(),
{
    match next_step(pending, outcome) {
        Step::Issue(_) => if later.len() == 0 {
            None
        } else {
            last_step(left_after(pending, outcome), later[0], later.drop_first())
        },
        step => Some(step),
    }
}

/// A run in which every item goes well is done after the last one, and not before; one in which an
/// item fails ends with the cause of that failure.
pub proof fn runs_end_as_their_items_went<T, E>(
    pending: Seq<T>,
    later: Seq<Result<(), E>>,
    succeeded: int,
)
    requires
        0 <= succeeded <= later.len(),
        succeeded <= pending.len(),
        forall|k: int| 0 <= k < succeeded ==> #[trigger] later[k] is Ok,
    ensures
        succeeded == pending.len() ==> last_step(pending, Ok(()), later) == Some(Step::<T, E>::Done),
        succeeded < pending.len() && succeeded == later.len() ==> last_step(pending, Ok(()), later)
            == None::<Step<T, E>>,
        succeeded < pending.len() && succeeded < later.len() ==> match later[succeeded] {
            Err(cause) => last_step(pending, Ok(()), later) == Some(Step::<T, E>::Failed(cause)),
            Ok(_) => true,
        },
    decreases later.len(),
{
    if succeeded > 0 {
        let rest = later.drop_first();
        assert forall|k: int| 0 <= k < succeeded - 1 implies #[trigger] rest[k] is Ok by {
            assert(rest[k] == later[k + 1]);
        }
        runs_end_as_their_items_went(pending.drop_first(), rest, succeeded - 1);
        assert(later[0] is Ok);
        assert(later[0]->Ok_0 == ());
        if succeeded < later.len() {
            assert(rest[succeeded - 1] == later[succeeded]);
        }
    } else if pending.len() > 0 && later.len() > 0 {
        reveal_with_fuel(last_step, 2);
    }
}

} // verus!
