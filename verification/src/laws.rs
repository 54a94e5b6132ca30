//! What holds of every migration, whatever the platform answers.

use crate::channel::Member;
use crate::machine::{
    eligible, initial, lemma_next_eligible, lemma_step_wf, next_eligible, one_pass_less,
    outcome_event, pending, settled, step, sweep_from, MigrationState,
};
use crate::protocol::{
    Action, FailedMove, Limits, MigrationError, MoveFailure, Observation, Phase,
};
use vstd::prelude::*;

verus! {

/// A member is only ever moved out of the latest snapshot, and only to the
/// destination: whenever a step leaves a move pending, the member to move
/// stands in the snapshot that the migration saw last and may be moved
/// under the filter, and the channel to move to is the destination that the
/// migration was created with. The snapshot seen last is the one that the
/// step took in, where it took one in.
pub proof fn law_moves_follow_snapshot(s: MigrationState, event: Observation)
    requires
        s.wf(),
    ensures
        pending(step(s, event)) is MoveMember ==> {
            &&& step(s, event).snapshot.contains(pending(step(s, event))->member)
            &&& eligible(s.filter, pending(step(s, event))->member)
            &&& pending(step(s, event))->destination == s.destination
        },
        s.phase is Listing && event is Snapshot ==> step(s, event).snapshot == event->Snapshot_0,
        !(s.phase is Listing && event is Snapshot) ==> step(s, event).snapshot == s.snapshot,
        step(s, event).source == s.source,
        step(s, event).destination == s.destination,
        step(s, event).filter == s.filter,
        step(s, event).limits == s.limits,
{
    lemma_step_wf(s, event);
    let t = step(s, event);
    if t.phase is Moving {
        assert(t.snapshot[t.cursor as int] == pending(t)->member);
    }
}

/// A migration ends with success only at a settled snapshot: a step ends it
/// with `Ok` exactly when a listing was awaited and the event is a snapshot
/// that is settled under the filter. For a migration of everyone that is an
/// empty snapshot.
pub proof fn law_success_means_settled(s: MigrationState, event: Observation)
    requires
        s.wf(),
        !s.finished(),
    ensures
        step(s, event).phase == Phase::Finished(Ok(())) <==> s.phase is Listing && event is Snapshot
            && settled(s.filter, event->Snapshot_0),
        s.filter is None ==> (step(s, event).phase == Phase::Finished(Ok(())) <==> s.phase is Listing
            && event == Observation::Snapshot(Seq::empty())),
{
    match (s.phase, event) {
        (Phase::Listing, Observation::Snapshot(members)) => {
            lemma_next_eligible(s.filter, members, 0);
            if members.len() == 0 {
                assert(members =~= Seq::empty());
            }
        },
        (Phase::Moving, Observation::Moved) => {
            lemma_next_eligible(s.filter, s.snapshot, s.cursor as int + 1);
        },
        (Phase::Moving, Observation::MoveFailed(_)) => {
            lemma_next_eligible(s.filter, s.snapshot, s.cursor as int + 1);
        },
        _ => {},
    }
}

/// Each way in which a migration ends without success has its own cause, and
/// no other: `Cancelled` comes from `Cancel` alone; `MigrationAborted` from
/// a failed listing when no try is left; `TimedOut` from a snapshot that is
/// not settled when no pass may be started. `ChannelKindMismatch` never ends
/// a migration: it keeps one from starting.
pub proof fn law_failures_have_causes(s: MigrationState, event: Observation)
    requires
        s.wf(),
        !s.finished(),
    ensures
        step(s, event).phase == Phase::Finished(Err(MigrationError::Cancelled)) <==> event is Cancel,
        step(s, event).phase == Phase::Finished(Err(MigrationError::MigrationAborted)) <==> s.phase is Listing
            && event is SnapshotFailed && s.retries_left == 0,
        step(s, event).phase == Phase::Finished(Err(MigrationError::TimedOut)) <==> s.phase is Listing
            && event is Snapshot && !settled(s.filter, event->Snapshot_0) && s.passes_left == Some(
            0u64,
        ),
        step(s, event).phase != Phase::Finished(Err(MigrationError::ChannelKindMismatch)),
{
    match (s.phase, event) {
        (Phase::Listing, Observation::Snapshot(members)) => {
            lemma_next_eligible(s.filter, members, 0);
        },
        (Phase::Moving, Observation::Moved) => {
            lemma_next_eligible(s.filter, s.snapshot, s.cursor as int + 1);
        },
        (Phase::Moving, Observation::MoveFailed(_)) => {
            lemma_next_eligible(s.filter, s.snapshot, s.cursor as int + 1);
        },
        _ => {},
    }
}

/// Migrating everyone out of a source that is already empty does nothing:
/// the migration asks for one listing, and the empty snapshot ends it with
/// success. No move is ever asked for.
pub proof fn law_empty_source_is_left_alone(source: u64, destination: u64, limits: Limits)
    ensures
        pending(initial(source, destination, None, limits)) == (Action::ListMembers {
            channel: source,
            delay_ms: 0,
        }),
        pending(
            step(initial(source, destination, None, limits), Observation::Snapshot(Seq::empty())),
        ) == (Action::Finish { result: Ok(()) }),
{
}

/// A move that fails does not stop the pass. The migration goes on exactly
/// as after a move that worked, to the same member or the same listing; the
/// one difference is that the failure is recorded.
pub proof fn law_failed_move_goes_on(s: MigrationState, reason: MoveFailure)
    requires
        s.wf(),
        s.phase is Moving,
    ensures
        step(s, Observation::MoveFailed(reason)) == (MigrationState {
            failures: s.failures.push(FailedMove { member: s.snapshot[s.cursor as int], reason }),
            ..step(s, Observation::Moved)
        }),
        pending(step(s, Observation::MoveFailed(reason))) == pending(step(s, Observation::Moved)),
        !step(s, Observation::MoveFailed(reason)).finished(),
{
    lemma_next_eligible(s.filter, s.snapshot, s.cursor as int + 1);
}

/// With an empty filter nobody is ever moved, and the migration ends with
/// success only when the source is seen empty: a snapshot with anyone in it
/// starts a pass that moves no one and asks for the next listing, for as
/// long as passes may be started.
pub proof fn law_empty_filter_moves_nobody(s: MigrationState, event: Observation)
    requires
        s.wf(),
        s.filter == Some(Set::<u64>::empty()),
    ensures
        !(s.phase is Moving),
        !(step(s, event).phase is Moving),
        s.phase is Listing && event is Snapshot ==> (step(s, event).phase == Phase::Finished(Ok(()))
            <==> event->Snapshot_0.len() == 0),
        s.phase is Listing && event is Snapshot && event->Snapshot_0.len() > 0 && s.passes_left
            != Some(0u64) ==> pending(step(s, event)) == (Action::ListMembers {
            channel: s.source,
            delay_ms: s.limits.pass_delay_ms,
        }),
{
    lemma_step_wf(s, event);
    if let Observation::Snapshot(members) = event {
        lemma_next_eligible(s.filter, members, 0);
    }
}

/// Whether `event` answers the action that a migration in state `s` is
/// waiting for: a snapshot or a failed listing where a listing was asked
/// for, the outcome of a move where a move was. `Cancel` is taken at any
/// time.
pub open spec fn answers(s: MigrationState, event: Observation) -> bool {
    match (s.phase, event) {
        (Phase::Finished(_), _) => false,
        (_, Observation::Cancel) => true,
        (Phase::Listing, Observation::Snapshot(_)) => true,
        (Phase::Listing, Observation::SnapshotFailed) => true,
        (Phase::Moving, Observation::Moved) => true,
        (Phase::Moving, Observation::MoveFailed(_)) => true,
        _ => false,
    }
}

/// How far a migration with a bound on its passes is from its end, at most:
/// the passes that may still be started; then whether a pass is under way;
/// then, in a pass, the members of the snapshot that are still to come, and
/// between passes, the failed listings that will still be asked again.
pub open spec fn remaining(s: MigrationState) -> (nat, nat, nat) {
    (
        match s.passes_left {
            Some(left) => left as nat,
            None => 0,
        },
        if s.phase is Moving {
            1
        } else {
            0
        },
        if s.phase is Moving {
            (s.snapshot.len() - s.cursor) as nat
        } else {
            s.retries_left as nat
        },
    )
}

/// An event that answers nothing changes nothing.
pub proof fn law_stray_events_change_nothing(s: MigrationState, event: Observation)
    requires
        !answers(s, event),
    ensures
        step(s, event) == s,
{
}

/// With a bound on its passes a migration ends, whatever the platform
/// answers: each answer either ends the migration or brings it closer to
/// its end, in the order of [`remaining`], which cannot go down for ever. So
/// a member who can never be moved does not keep such a migration going: it
/// ends with `TimedOut`.
pub proof fn law_bounded_migration_ends(s: MigrationState, event: Observation)
    requires
        s.wf(),
        s.passes_left is Some,
        answers(s, event),
    ensures
        step(s, event).finished() || decreases_to!(
            remaining(s).0, remaining(s).1, remaining(s).2 =>
            remaining(step(s, event)).0, remaining(step(s, event)).1, remaining(step(s, event)).2
        ),
        step(s, event).passes_left is Some,
{
    match (s.phase, event) {
        (Phase::Listing, Observation::Snapshot(members)) => {
            lemma_next_eligible(s.filter, members, 0);
        },
        (Phase::Moving, Observation::Moved) => {
            lemma_next_eligible(s.filter, s.snapshot, s.cursor as int + 1);
        },
        (Phase::Moving, Observation::MoveFailed(_)) => {
            lemma_next_eligible(s.filter, s.snapshot, s.cursor as int + 1);
        },
        _ => {},
    }
}

/// The members of `snapshot` whom a pass tries to move: those who may be
/// moved under `filter`, in the order of the snapshot.
pub open spec fn targets(filter: Option<Set<u64>>, snapshot: Seq<Member>) -> Seq<Member> {
    snapshot.filter(may_move(filter))
}

/// The test that picks the members who may be moved under `filter`.
pub open spec fn may_move(filter: Option<Set<u64>>) -> spec_fn(Member) -> bool {
    |member: Member| eligible(filter, member)
}

/// The state after `s` when the caller reports `outcomes`, one after the
/// other.
pub open spec fn after_outcomes(
    s: MigrationState,
    outcomes: Seq<Option<MoveFailure>>,
) -> MigrationState
    decreases outcomes.len(),
{
    if outcomes.len() == 0 {
        s
    } else {
        step(after_outcomes(s, outcomes.drop_last()), outcome_event(outcomes.last()))
    }
}

/// Between `from` and the next member who may be moved there is nobody whom
/// a pass tries, and that member is the next whom it tries.
proof fn lemma_targets_up_to(filter: Option<Set<u64>>, snapshot: Seq<Member>, from: int)
    requires
        0 <= from <= snapshot.len(),
    ensures
        ({
            let at = next_eligible(filter, snapshot, from);
            &&& from <= at <= snapshot.len()
            &&& targets(filter, snapshot.take(at)) == targets(filter, snapshot.take(from))
            &&& at < snapshot.len() ==> targets(filter, snapshot.take(at + 1)) == targets(
                filter,
                snapshot.take(from),
            ).push(snapshot[at])
        }),
    decreases snapshot.len() - from,
{
    reveal(Seq::filter);
    if from < snapshot.len() {
        assert(snapshot.take(from + 1).drop_last() =~= snapshot.take(from));
        assert(snapshot.take(from + 1).last() == snapshot[from]);
        if !eligible(filter, snapshot[from]) {
            lemma_targets_up_to(filter, snapshot, from + 1);
        }
    }
}

/// Where a pass over `snapshot` stands when `tried` of its moves have been
/// answered: at the next member whom it tries, or at its end when there is
/// none.
spec fn in_pass(t: MigrationState, snapshot: Seq<Member>, tried: nat) -> bool {
    let due = targets(t.filter, snapshot);
    &&& t.wf()
    &&& t.snapshot == snapshot
    &&& !t.fresh
    &&& tried <= due.len()
    &&& if tried < due.len() {
        &&& t.phase is Moving
        &&& targets(t.filter, snapshot.take(t.cursor as int)).len() == tried
        &&& snapshot[t.cursor as int] == due[tried as int]
    } else {
        t.phase is Listing
    }
}

/// A pass reaches the next member whom it tries, or its end, when it goes on
/// at `from` after `tried` moves.
proof fn lemma_sweep_in_pass(s: MigrationState, from: int, tried: nat)
    requires
        sweep_from(s, from).wf(),
        !s.fresh,
        0 <= from <= s.snapshot.len(),
        targets(s.filter, s.snapshot.take(from)).len() == tried,
    ensures
        in_pass(sweep_from(s, from), s.snapshot, tried),
{
    let snapshot = s.snapshot;
    let at = next_eligible(s.filter, snapshot, from);
    let due = targets(s.filter, snapshot);
    lemma_targets_up_to(s.filter, snapshot, from);
    if at < snapshot.len() {
        let reached = targets(s.filter, snapshot.take(at + 1));
        assert(snapshot.take(at + 1).is_prefix_of(snapshot));
        snapshot.take(at + 1).lemma_filter_monotone(snapshot, may_move(s.filter));
        assert(reached.is_prefix_of(due));
        assert(reached.len() == tried + 1);
        assert(reached[tried as int] == snapshot[at]);
        assert(due[tried as int] == reached[tried as int]);
    } else {
        assert(snapshot.take(at) =~= snapshot);
    }
}

/// Where a pass stands after each of its moves.
proof fn lemma_pass_progress(
    s: MigrationState,
    members: Seq<Member>,
    outcomes: Seq<Option<MoveFailure>>,
)
    requires
        s.wf(),
        s.phase is Listing,
        !settled(s.filter, members),
        s.passes_left != Some(0u64),
        outcomes.len() <= targets(s.filter, members).len(),
    ensures
        ({
            let t = after_outcomes(step(s, Observation::Snapshot(members)), outcomes);
            &&& in_pass(t, members, outcomes.len())
            &&& t.source == s.source
            &&& t.destination == s.destination
            &&& t.filter == s.filter
            &&& t.limits == s.limits
        }),
    decreases outcomes.len(),
{
    let start = step(s, Observation::Snapshot(members));
    lemma_step_wf(s, Observation::Snapshot(members));
    if outcomes.len() == 0 {
        assert(members.take(0) =~= Seq::<Member>::empty());
        reveal(Seq::filter);
        lemma_sweep_in_pass(
            MigrationState {
                fresh: false,
                snapshot: members,
                cursor: 0,
                retries_left: s.limits.fetch_retries,
                failures: Seq::empty(),
                passes_left: one_pass_less(s.passes_left),
                ..s
            },
            0,
            0,
        );
    } else {
        lemma_pass_progress(s, members, outcomes.drop_last());
        let before = after_outcomes(start, outcomes.drop_last());
        let event = outcome_event(outcomes.last());
        lemma_step_wf(before, event);
        let at = before.cursor as int;
        lemma_targets_up_to(before.filter, members, at);
        assert(next_eligible(before.filter, members, at) == at);
        let recorded = match outcomes.last() {
            None => before,
            Some(reason) => MigrationState {
                failures: before.failures.push(FailedMove { member: members[at], reason }),
                ..before
            },
        };
        assert(step(before, event) == sweep_from(recorded, at + 1));
        lemma_sweep_in_pass(recorded, at + 1, outcomes.len());
    }
}

/// A pass tries every member of the snapshot who may be moved, once each and
/// in the order of the snapshot, whatever comes of the moves; then it asks
/// for the next listing. Nobody else is tried.
///
/// Let a migration take in a snapshot that starts a pass, and then the
/// outcomes of the first so many moves. While not all of [`targets`] have
/// been tried, the migration waits for the move of the next of them to the
/// destination. When all have been tried, it waits for a listing of the
/// source.
pub proof fn law_pass_tries_everyone(
    s: MigrationState,
    members: Seq<Member>,
    outcomes: Seq<Option<MoveFailure>>,
)
    requires
        s.wf(),
        s.phase is Listing,
        !settled(s.filter, members),
        s.passes_left != Some(0u64),
        outcomes.len() <= targets(s.filter, members).len(),
    ensures
        ({
            let t = after_outcomes(step(s, Observation::Snapshot(members)), outcomes);
            let due = targets(s.filter, members);
            &&& t.snapshot == members
            &&& outcomes.len() < due.len() ==> pending(t) == (Action::MoveMember {
                member: due[outcomes.len() as int],
                destination: s.destination,
            })
            &&& outcomes.len() == due.len() ==> pending(t) == (Action::ListMembers {
                channel: s.source,
                delay_ms: s.limits.pass_delay_ms,
            })
        }),
{
    lemma_pass_progress(s, members, outcomes);
}

} // verus!
