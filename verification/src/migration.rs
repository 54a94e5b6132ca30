//! The executable migration: a state machine that its caller drives.

use crate::channel::{GroupChannel, Member};
use crate::filter::FilterSet;
use crate::machine::{
    eligible, initial, lemma_next_eligible, listing_failed, next_eligible, observe, outcome_event,
    pending, settled, step, sweep_from, MigrationState,
};
use crate::protocol::{Action, Event, FailedMove, Limits, MigrationError, MoveFailure, Phase};
use vstd::prelude::*;

verus! {

/// A filter as specifications see it.
pub open spec fn filter_view(filter: Option<FilterSet>) -> Option<Set<u64>> {
    match filter {
        None => None,
        Some(ids) => Some(ids@),
    }
}

/// A migration of the members of one voice channel to another.
///
/// A migration decides and its caller acts. [`Migration::pending`] names the
/// action that the migration waits for; the caller performs it and hands the
/// result to [`Migration::advance`], which returns the next action. This
/// goes on until the action is [`Action::Finish`].
pub struct Migration {
    source: u64,
    destination: u64,
    filter: Option<FilterSet>,
    limits: Limits,
    fresh: bool,
    phase: Phase,
    snapshot: Vec<Member>,
    cursor: usize,
    passes_left: Option<u64>,
    retries_left: u64,
    failures: Vec<FailedMove>,
}

impl View for Migration {
    type V = MigrationState;

    closed spec fn view(&self) -> MigrationState {
        MigrationState {
            source: self.source,
            destination: self.destination,
            filter: filter_view(self.filter),
            limits: self.limits,
            fresh: self.fresh,
            phase: self.phase,
            snapshot: self.snapshot@,
            cursor: self.cursor as nat,
            passes_left: self.passes_left,
            retries_left: self.retries_left,
            failures: self.failures@,
        }
    }
}

/// Whether `member` may be moved under `filter`.
fn is_eligible(filter: &Option<FilterSet>, member: &Member) -> (may: bool)
    ensures
        may == eligible(filter_view(*filter), *member),
{
    match filter {
        None => true,
        Some(ids) => ids.contains(member.id),
    }
}

/// Whether `snapshot` ends a migration under `filter`.
fn is_settled(filter: &Option<FilterSet>, snapshot: &Vec<Member>) -> (done: bool)
    ensures
        done == settled(filter_view(*filter), snapshot@),
{
    match filter {
        None => snapshot.len() == 0,
        Some(ids) => snapshot.len() == ids.len(),
    }
}

/// The first place at or after `from` whose member may be moved.
fn find_eligible(filter: &Option<FilterSet>, snapshot: &Vec<Member>, from: usize) -> (at: usize)
    requires
        from <= snapshot.len(),
    ensures
        at == next_eligible(filter_view(*filter), snapshot@, from as int),
        from <= at <= snapshot.len(),
{
    let mut at: usize = from;
    while at < snapshot.len() && !is_eligible(filter, &snapshot[at])
        invariant
            from <= at <= snapshot.len(),
            next_eligible(filter_view(*filter), snapshot@, from as int) == next_eligible(
                filter_view(*filter),
                snapshot@,
                at as int,
            ),
        decreases snapshot.len() - at,
    {
        at += 1;
    }
    at
}

impl Migration {
    /// Every migration is in a state that is well formed.
    #[verifier::type_invariant]
    spec fn inv(&self) -> bool {
        self@.wf()
    }

    /// The action that this migration is waiting for.
    pub fn pending(&self) -> (action: Action)
        ensures
            action == pending(self@),
            self@.wf(),
    {
        proof {
            use_type_invariant(self);
        }
        match self.phase {
            Phase::Listing => Action::ListMembers {
                channel: self.source,
                delay_ms: if self.fresh {
                    0
                } else {
                    self.limits.pass_delay_ms
                },
            },
            Phase::Moving => Action::MoveMember {
                member: self.snapshot[self.cursor],
                destination: self.destination,
            },
            Phase::Finished(result) => Action::Finish { result },
        }
    }

    /// Where the migration stands.
    pub fn phase(&self) -> (phase: Phase)
        ensures
            phase == self@.phase,
    {
        self.phase
    }

    /// Whether the migration has ended.
    pub fn is_finished(&self) -> (finished: bool)
        ensures
            finished == self@.finished(),
    {
        match self.phase {
            Phase::Finished(_) => true,
            _ => false,
        }
    }

    /// How the migration ended; `None` while it has not.
    pub fn result(&self) -> (result: Option<Result<(), MigrationError>>)
        ensures
            result == match self@.phase {
                Phase::Finished(ended) => Some(ended),
                _ => None,
            },
    {
        match self.phase {
            Phase::Finished(ended) => Some(ended),
            _ => None,
        }
    }

    /// The identity of the channel that is drained.
    pub fn source(&self) -> (channel: u64)
        ensures
            channel == self@.source,
    {
        self.source
    }

    /// The identity of the channel that members are moved to.
    pub fn destination(&self) -> (channel: u64)
        ensures
            channel == self@.destination,
    {
        self.destination
    }

    /// The limits that the migration was created with.
    pub fn limits(&self) -> (limits: Limits)
        ensures
            limits == self@.limits,
    {
        self.limits
    }

    /// The passes that may still be started; `None` where they are not
    /// bounded.
    pub fn passes_left(&self) -> (left: Option<u64>)
        ensures
            left == self@.passes_left,
    {
        self.passes_left
    }

    /// The latest snapshot of the source; empty before the first.
    pub fn snapshot(&self) -> (snapshot: &Vec<Member>)
        ensures
            snapshot@ == self@.snapshot,
    {
        &self.snapshot
    }

    /// The moves that failed in the pass over the latest snapshot, in the
    /// order in which they were tried. A new snapshot clears them.
    pub fn failures(&self) -> (failures: &Vec<FailedMove>)
        ensures
            failures@ == self@.failures,
    {
        &self.failures
    }

    /// Goes on with the pass at `from`.
    fn sweep_from(&mut self, from: usize)
        requires
            from <= old(self).snapshot.len(),
            old(self).failures.len() <= from,
        ensures
            final(self)@ == sweep_from(old(self)@, from as int),
    {
        proof {
            use_type_invariant(&*self);
            lemma_next_eligible(self@.filter, self@.snapshot, from as int);
        }
        let at: usize = find_eligible(&self.filter, &self.snapshot, from);
        if at < self.snapshot.len() {
            self.cursor = at;
            self.phase = Phase::Moving;
        } else {
            self.phase = Phase::Listing;
            self.cursor = 0;
        }
    }

    /// Takes in a snapshot of the source.
    fn observe(&mut self, members: Vec<Member>)
        requires
            old(self).phase is Listing,
        ensures
            final(self)@ == observe(old(self)@, members@),
    {
        proof {
            use_type_invariant(&*self);
        }
        self.fresh = false;
        self.failures = Vec::new();
        self.cursor = 0;
        self.retries_left = self.limits.fetch_retries;
        self.snapshot = members;
        if is_settled(&self.filter, &self.snapshot) {
            self.phase = Phase::Finished(Ok(()));
        } else {
            match self.passes_left {
                Some(0) => {
                    self.phase = Phase::Finished(Err(MigrationError::TimedOut));
                },
                Some(left) => {
                    self.passes_left = Some(left - 1);
                    self.sweep_from(0);
                },
                None => {
                    self.sweep_from(0);
                },
            }
        }
    }

    /// Takes in a failed listing.
    fn listing_failed(&mut self)
        requires
            old(self).phase is Listing,
        ensures
            final(self)@ == listing_failed(old(self)@),
    {
        proof {
            use_type_invariant(&*self);
        }
        self.fresh = false;
        if self.retries_left > 0 {
            self.retries_left = self.retries_left - 1;
        } else {
            self.phase = Phase::Finished(Err(MigrationError::MigrationAborted));
        }
    }

    /// Takes in the outcome of the move that was asked for: `failed` holds
    /// the cause where the move did not work.
    fn moved(&mut self, failed: Option<MoveFailure>)
        requires
            old(self).phase is Moving,
        ensures
            final(self)@ == step(old(self)@, outcome_event(failed)),
    {
        proof {
            use_type_invariant(&*self);
        }
        assert(self.cursor < self.snapshot.len());
        let member: Member = self.snapshot[self.cursor];
        let from: usize = self.cursor + 1;
        self.sweep_from(from);
        proof {
            use_type_invariant(&*self);
            lemma_next_eligible(self@.filter, self@.snapshot, from as int);
        }
        if let Some(reason) = failed {
            let mut failures: Vec<FailedMove> = Vec::new();
            std::mem::swap(&mut failures, &mut self.failures);
            failures.push(FailedMove { member, reason });
            proof {
                assert forall|k: int| 0 <= k < failures@.len() implies self.snapshot@.contains(
                    (#[trigger] failures@[k]).member,
                ) by {
                    if k == failures@.len() - 1 {
                        assert(self.snapshot@[from - 1] == member);
                    }
                }
            }
            self.failures = failures;
        }
    }

    /// Reports `event` to the migration and returns the action that it asks
    /// for next.
    ///
    /// The migration moves as [`step`] says, and the action is the one that
    /// the new state waits for. Nothing that the caller can report makes
    /// this fail: an event that answers nothing that was asked for is passed
    /// over, and the action that was pending is returned again.
    pub fn advance(&mut self, event: Event) -> (action: Action)
        ensures
            final(self)@ == step(old(self)@, event@),
            action == pending(final(self)@),
            final(self)@.wf(),
    {
        proof {
            use_type_invariant(&*self);
        }
        match self.phase {
            Phase::Finished(_) => {},
            Phase::Listing => match event {
                Event::Cancel => {
                    self.phase = Phase::Finished(Err(MigrationError::Cancelled));
                },
                Event::Snapshot(members) => {
                    self.observe(members);
                },
                Event::SnapshotFailed => {
                    self.listing_failed();
                },
                Event::Moved => {},
                Event::MoveFailed(_) => {},
            },
            Phase::Moving => match event {
                Event::Cancel => {
                    self.phase = Phase::Finished(Err(MigrationError::Cancelled));
                },
                Event::Moved => {
                    self.moved(None);
                },
                Event::MoveFailed(reason) => {
                    self.moved(Some(reason));
                },
                Event::Snapshot(_) => {},
                Event::SnapshotFailed => {},
            },
        }
        self.pending()
    }
}

/// What starting a migration from `from` to `to` gives: between two voice
/// channels a migration in its initial state, and `ChannelKindMismatch`
/// where either channel is of another kind.
pub open spec fn starts(
    started: Result<Migration, MigrationError>,
    from: GroupChannel,
    to: GroupChannel,
    filter: Option<Set<u64>>,
    limits: Limits,
) -> bool {
    match started {
        Ok(migration) => {
            &&& from.kind.voice_capable()
            &&& to.kind.voice_capable()
            &&& migration@ == initial(from.id, to.id, filter, limits)
        },
        Err(error) => {
            &&& !(from.kind.voice_capable() && to.kind.voice_capable())
            &&& error == MigrationError::ChannelKindMismatch
        },
    }
}

/// Starts a migration from `from` to `to` under `filter`.
fn start(
    from: &GroupChannel,
    to: &GroupChannel,
    filter: Option<FilterSet>,
    limits: Limits,
) -> (started: Result<Migration, MigrationError>)
    ensures
        starts(started, *from, *to, filter_view(filter), limits),
{
    if !from.is_voice() || !to.is_voice() {
        return Err(MigrationError::ChannelKindMismatch);
    }
    proof {
        if let Some(ids) = &filter {
            ids.lemma_finite();
        }
    }
    Ok(
        Migration {
            source: from.id,
            destination: to.id,
            filter,
            limits,
            fresh: true,
            phase: Phase::Listing,
            snapshot: Vec::new(),
            cursor: 0,
            passes_left: limits.max_passes,
            retries_left: limits.fetch_retries,
            failures: Vec::new(),
        },
    )
}

/// Starts the migration of everyone in `from` to `to`.
///
/// Both channels must be voice channels. Where one is not, the result is
/// `ChannelKindMismatch` and there is no migration, so nothing is ever asked
/// of the platform. Otherwise the migration starts by asking for a listing
/// of `from`, and ends with success at the first snapshot of `from` that is
/// empty.
pub fn move_vc(
    from: &GroupChannel,
    to: &GroupChannel,
    limits: Limits,
) -> (started: Result<Migration, MigrationError>)
    ensures
        starts(started, *from, *to, None, limits),
{
    start(from, to, None, limits)
}

/// Starts the migration to `to` of those in `from` whose identity is in
/// `filter`; the others are left where they are.
///
/// Both channels must be voice channels, as for [`move_vc`]. The migration
/// ends with success at the first snapshot of `from` that holds as many
/// members as `filter` holds identities: see [`settled`].
pub fn move_vc_filtered(
    from: &GroupChannel,
    to: &GroupChannel,
    filter: FilterSet,
    limits: Limits,
) -> (started: Result<Migration, MigrationError>)
    ensures
        starts(started, *from, *to, Some(filter@), limits),
{
    start(from, to, Some(filter), limits)
}

} // verus!
