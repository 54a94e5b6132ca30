//! The rules of a migration, as a transition function on mathematical
//! states. The executable [`crate::migration::Migration`] follows it step by
//! step.

use crate::channel::Member;
use crate::protocol::{
    Action, FailedMove, Limits, MigrationError, MoveFailure, Observation, Phase,
};
use vstd::prelude::*;

verus! {

/// The state of a migration.
pub struct MigrationState {
    /// The channel that is drained.
    pub source: u64,
    /// The channel that members are moved to.
    pub destination: u64,
    /// The identities that may be moved; `None` where everyone may.
    pub filter: Option<Set<u64>>,
    /// The limits that the migration was created with.
    pub limits: Limits,
    /// Whether no listing has been answered yet.
    pub fresh: bool,
    /// Where the migration stands.
    pub phase: Phase,
    /// The latest snapshot of the source; empty before the first.
    pub snapshot: Seq<Member>,
    /// While moving: the place in `snapshot` of the member whose move has
    /// been asked for.
    pub cursor: nat,
    /// The passes that may still be started; `None` where they are not
    /// bounded.
    pub passes_left: Option<u64>,
    /// The failed listings that will still be asked again.
    pub retries_left: u64,
    /// The moves that failed in the pass over `snapshot`, in order.
    pub failures: Seq<FailedMove>,
}

/// Whether the migration may move `member`.
pub open spec fn eligible(filter: Option<Set<u64>>, member: Member) -> bool {
    match filter {
        None => true,
        Some(ids) => ids.contains(member.id),
    }
}

/// Whether a snapshot of the source ends the migration.
///
/// Without a filter the source must be empty. With a filter the test is on
/// sizes alone: the snapshot must hold exactly as many members as the filter
/// holds identities. This is another test than "no member of the filter is
/// left in the source", and neither follows from the other. Once every
/// filtered member has been moved, the source holds those outside the
/// filter: the sizes then meet only if there are exactly as many of them as
/// the filter holds identities, and the migration goes on otherwise, until
/// its limits stop it. And where the sizes meet while filtered members are
/// still in the source, because others have left or because they met from
/// the start, the migration ends and leaves them there. The size test is
/// what this library implements, on purpose.
pub open spec fn settled(filter: Option<Set<u64>>, snapshot: Seq<Member>) -> bool {
    match filter {
        None => snapshot.len() == 0,
        Some(ids) => snapshot.len() == ids.len(),
    }
}

/// The first place at or after `from` at which `snapshot` holds a member
/// that may be moved; the length of `snapshot` where there is none.
pub open spec fn next_eligible(filter: Option<Set<u64>>, snapshot: Seq<Member>, from: int) -> int
    decreases snapshot.len() - from,
{
    if from >= snapshot.len() {
        snapshot.len() as int
    } else if eligible(filter, snapshot[from]) {
        from
    } else {
        next_eligible(filter, snapshot, from + 1)
    }
}

/// `next_eligible` finds the least eligible place, and nothing else.
pub proof fn lemma_next_eligible(filter: Option<Set<u64>>, snapshot: Seq<Member>, from: int)
    requires
        0 <= from <= snapshot.len(),
    ensures
        from <= next_eligible(filter, snapshot, from) <= snapshot.len(),
        forall|k: int|
            from <= k < next_eligible(filter, snapshot, from) ==> !eligible(
                filter,
                #[trigger] snapshot[k],
            ),
        next_eligible(filter, snapshot, from) < snapshot.len() ==> eligible(
            filter,
            snapshot[next_eligible(filter, snapshot, from)],
        ),
    decreases snapshot.len() - from,
{
    if from < snapshot.len() && !eligible(filter, snapshot[from]) {
        lemma_next_eligible(filter, snapshot, from + 1);
    }
}

/// One pass fewer, where passes are counted.
pub open spec fn one_pass_less(passes_left: Option<u64>) -> Option<u64> {
    match passes_left {
        None => None,
        Some(n) => if n > 0 {
            Some((n - 1) as u64)
        } else {
            Some(0)
        },
    }
}

impl MigrationState {
    /// What holds of every state that a migration can reach.
    pub open spec fn wf(self) -> bool {
        &&& self.filter matches Some(ids) ==> ids.finite()
        &&& self.phase is Moving ==> self.cursor < self.snapshot.len() && eligible(
            self.filter,
            self.snapshot[self.cursor as int],
        )
        &&& self.phase is Moving ==> self.failures.len() <= self.cursor
        &&& self.failures.len() <= self.snapshot.len()
        &&& forall|k: int|
            0 <= k < self.failures.len() ==> self.snapshot.contains(
                (#[trigger] self.failures[k]).member,
            )
        &&& self.limits.max_passes is None <==> self.passes_left is None
        &&& self.limits.max_passes matches Some(most) ==> self.passes_left matches Some(left)
            && left <= most
        &&& self.retries_left <= self.limits.fetch_retries
        &&& self.phase != Phase::Finished(Err(MigrationError::ChannelKindMismatch))
    }

    /// Whether the migration has ended.
    pub open spec fn finished(self) -> bool {
        self.phase is Finished
    }
}

/// The state in which a migration starts: a first listing of the source has
/// been asked for.
pub open spec fn initial(
    source: u64,
    destination: u64,
    filter: Option<Set<u64>>,
    limits: Limits,
) -> MigrationState {
    MigrationState {
        source,
        destination,
        filter,
        limits,
        fresh: true,
        phase: Phase::Listing,
        snapshot: Seq::empty(),
        cursor: 0,
        passes_left: limits.max_passes,
        retries_left: limits.fetch_retries,
        failures: Seq::empty(),
    }
}

/// The action that a migration in state `s` is waiting for.
pub open spec fn pending(s: MigrationState) -> Action {
    match s.phase {
        Phase::Listing => Action::ListMembers {
            channel: s.source,
            delay_ms: if s.fresh {
                0
            } else {
                s.limits.pass_delay_ms
            },
        },
        Phase::Moving => Action::MoveMember {
            member: s.snapshot[s.cursor as int],
            destination: s.destination,
        },
        Phase::Finished(result) => Action::Finish { result },
    }
}

/// Goes on with the pass over the snapshot at `from`: the next member that
/// may be moved is moved; where none is left, the pass is over and the
/// source is listed again.
pub open spec fn sweep_from(s: MigrationState, from: int) -> MigrationState {
    let at = next_eligible(s.filter, s.snapshot, from);
    if at < s.snapshot.len() {
        MigrationState { phase: Phase::Moving, cursor: at as nat, ..s }
    } else {
        MigrationState { phase: Phase::Listing, cursor: 0, ..s }
    }
}

/// Takes in a snapshot of the source. A settled snapshot ends the migration
/// with success. One that is not settled starts a pass, if one may still be
/// started, and ends the migration with `TimedOut` if none may.
pub open spec fn observe(s: MigrationState, members: Seq<Member>) -> MigrationState {
    let seen = MigrationState {
        fresh: false,
        snapshot: members,
        cursor: 0,
        retries_left: s.limits.fetch_retries,
        failures: Seq::empty(),
        ..s
    };
    if settled(s.filter, members) {
        MigrationState { phase: Phase::Finished(Ok(())), ..seen }
    } else if s.passes_left == Some(0u64) {
        MigrationState { phase: Phase::Finished(Err(MigrationError::TimedOut)), ..seen }
    } else {
        sweep_from(MigrationState { passes_left: one_pass_less(s.passes_left), ..seen }, 0)
    }
}

/// Takes in a failed listing: it is asked again while tries are left, and
/// ends the migration with `MigrationAborted` when none is.
pub open spec fn listing_failed(s: MigrationState) -> MigrationState {
    if s.retries_left > 0 {
        MigrationState { fresh: false, retries_left: (s.retries_left - 1) as u64, ..s }
    } else {
        MigrationState {
            fresh: false,
            phase: Phase::Finished(Err(MigrationError::MigrationAborted)),
            ..s
        }
    }
}

/// What the caller reports of a move: `None` where it worked, the cause
/// where it did not.
pub open spec fn outcome_event(outcome: Option<MoveFailure>) -> Observation {
    match outcome {
        None => Observation::Moved,
        Some(reason) => Observation::MoveFailed(reason),
    }
}

/// The state after `s` when the caller reports `event`.
///
/// A finished migration stays as it is. `Cancel` ends any other. A snapshot
/// or a failed listing is taken in while a listing is awaited, the outcome
/// of a move while a move is awaited; a failed move is recorded and the pass
/// goes on with the next member, as after a move that worked. An event that
/// answers nothing that was asked for changes nothing.
pub open spec fn step(s: MigrationState, event: Observation) -> MigrationState {
    match (s.phase, event) {
        (Phase::Finished(_), _) => s,
        (_, Observation::Cancel) => MigrationState {
            phase: Phase::Finished(Err(MigrationError::Cancelled)),
            ..s
        },
        (Phase::Listing, Observation::Snapshot(members)) => observe(s, members),
        (Phase::Listing, Observation::SnapshotFailed) => listing_failed(s),
        (Phase::Moving, Observation::Moved) => sweep_from(s, s.cursor as int + 1),
        (Phase::Moving, Observation::MoveFailed(reason)) => sweep_from(
            MigrationState {
                failures: s.failures.push(
                    FailedMove { member: s.snapshot[s.cursor as int], reason },
                ),
                ..s
            },
            s.cursor as int + 1,
        ),
        _ => s,
    }
}

/// Every state that a migration starts in is well formed.
pub proof fn lemma_initial_wf(
    source: u64,
    destination: u64,
    filter: Option<Set<u64>>,
    limits: Limits,
)
    requires
        filter matches Some(ids) ==> ids.finite(),
    ensures
        initial(source, destination, filter, limits).wf(),
{
}

/// Every step keeps a state well formed.
pub proof fn lemma_step_wf(s: MigrationState, event: Observation)
    requires
        s.wf(),
    ensures
        step(s, event).wf(),
{
    match (s.phase, event) {
        (Phase::Listing, Observation::Snapshot(members)) => {
            lemma_next_eligible(s.filter, members, 0);
        },
        (Phase::Moving, Observation::Moved) => {
            lemma_next_eligible(s.filter, s.snapshot, s.cursor as int + 1);
        },
        (Phase::Moving, Observation::MoveFailed(reason)) => {
            lemma_next_eligible(s.filter, s.snapshot, s.cursor as int + 1);
            let failure = FailedMove { member: s.snapshot[s.cursor as int], reason };
            assert forall|k: int| 0 <= k < s.failures.push(failure).len() implies s.snapshot.contains(
                (#[trigger] s.failures.push(failure)[k]).member,
            ) by {
                if k < s.failures.len() {
                    assert(s.failures.push(failure)[k] == s.failures[k]);
                }
            }
        },
        _ => {},
    }
}

} // verus!
