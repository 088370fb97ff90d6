use vstd::prelude::*;
use crate::ledger::AetherArena;
use crate::stakes::stake_sum;
use crate::types::{ArenaError, ArenaStatus, Owner};

verus! {

/// In every well-formed ledger, and so after every sequence of mutations, each
/// stake total of an arena equals the sum of the amounts of the predictions on
/// that arena and outcome.
pub proof fn lemma_stakes_are_prediction_sums(l: &AetherArena, arena_id: u64, k: usize)
    requires
        l.wf(),
        arena_id < l.arenas@.len(),
        k < l.arenas@[arena_id as int].outcomes@.len(),
    ensures
        l.arenas@[arena_id as int].total_stakes@.len() == l.arenas@[arena_id as int].outcomes@.len(),
        l.arenas@[arena_id as int].total_stakes@[k as int] == stake_sum(l.predictions@, arena_id, k as int),
{
    assert(l.arena_wf(arena_id as int));
}

/// A prediction on an existing arena whose status is not `Open` is refused with
/// `InvalidState`; a refused prediction leaves the ledger unchanged.
pub proof fn lemma_prediction_needs_open_arena(
    l: &AetherArena,
    arena_id: u64,
    outcome_index: usize,
    amount: u64,
    owner: Owner,
)
    requires
        l.wf(),
        arena_id < l.arenas@.len(),
        l.arenas@[arena_id as int].status != ArenaStatus::Open,
    ensures
        l.place_prediction_result(arena_id, outcome_index, amount, owner) == Err::<(), ArenaError>(
            ArenaError::InvalidState,
        ),
{
}

/// A status change on an existing arena succeeds exactly for Open to Live, Live to
/// Resolving and Resolving to Closed, and is refused with `InvalidState` otherwise.
pub proof fn lemma_status_changes_follow_the_chain(l: &AetherArena, arena_id: u64, new_status: ArenaStatus)
    requires
        l.wf(),
        arena_id < l.arenas@.len(),
    ensures
        ({
            let from = l.arenas@[arena_id as int].status;
            l.update_arena_status_result(arena_id, new_status) == if (from == ArenaStatus::Open
                && new_status == ArenaStatus::Live) || (from == ArenaStatus::Live && new_status
                == ArenaStatus::Resolving) || (from == ArenaStatus::Resolving && new_status
                == ArenaStatus::Closed) {
                Ok::<(), ArenaError>(())
            } else {
                Err::<(), ArenaError>(ArenaError::InvalidState)
            }
        }),
{
}

/// Resolving an existing arena is refused with `InvalidArgument` exactly when the
/// winning outcome lies outside its outcome list, and succeeds otherwise, whatever
/// the arena's status.
pub proof fn lemma_resolution_needs_valid_outcome(l: &AetherArena, arena_id: u64, winning_outcome: usize)
    requires
        l.wf(),
        arena_id < l.arenas@.len(),
    ensures
        winning_outcome >= l.arenas@[arena_id as int].outcomes@.len() ==> l.resolve_arena_result(
            arena_id,
            winning_outcome,
        ) == Err::<(), ArenaError>(ArenaError::InvalidArgument),
        winning_outcome < l.arenas@[arena_id as int].outcomes@.len() ==> l.resolve_arena_result(
            arena_id,
            winning_outcome,
        ) == Ok::<(), ArenaError>(()),
{
}

/// A new arena has one stake total per outcome, all zero, status `Open` and no
/// resolution.
pub proof fn lemma_new_arena_is_open_and_empty(
    before: &AetherArena,
    after: &AetherArena,
    question: Seq<char>,
    outcomes: Seq<Seq<char>>,
    creator: Owner,
    now: u64,
)
    requires
        AetherArena::arena_created(before, after, question, outcomes, creator, now),
    ensures
        ({
            let v = after.arenas@[before.next_arena_id as int]@;
            &&& v.total_stakes.len() == outcomes.len()
            &&& forall|i: int| 0 <= i < outcomes.len() ==> v.total_stakes[i] == 0
            &&& v.status == ArenaStatus::Open
            &&& v.resolution_outcome is None
        }),
{
}

} // verus!
