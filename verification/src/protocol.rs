//! What a migration and its caller say to each other: the actions that a
//! migration asks for, the events that the caller reports, and the limits
//! and results of a run.

use crate::channel::Member;
use vstd::prelude::*;

verus! {

/// Bounds on one migration. They are handed to each migration when it is
/// created; nothing is read from the surroundings.
#[derive(Clone, Copy, Debug, PartialEq, Eq)]
pub struct Limits {
    /// The largest number of passes over the source channel. `None` sets no
    /// bound: the migration then goes on for as long as the source is not
    /// settled.
    pub max_passes: Option<u64>,
    /// How many times in a row a failed listing is asked again before the
    /// migration is aborted.
    pub fetch_retries: u64,
    /// The pause, in milliseconds, that the caller is asked to make before
    /// every listing but the first.
    pub pass_delay_ms: u64,
}

impl Limits {
    /// No bound on the passes, no second try of a failed listing, no pause.
    pub open spec fn unbounded_spec() -> Limits {
        Limits { max_passes: None, fetch_retries: 0, pass_delay_ms: 0 }
    }

    /// Executable form of [`Limits::unbounded_spec`].
    #[verifier::when_used_as_spec(unbounded_spec)]
    pub fn unbounded() -> (limits: Limits)
        ensures
            limits == Limits::unbounded_spec(),
    {
        Limits { max_passes: None, fetch_retries: 0, pass_delay_ms: 0 }
    }

    /// At most `max_passes` passes, `fetch_retries` further tries of a
    /// failed listing, and a pause of `pass_delay_ms` between listings.
    pub fn bounded(max_passes: u64, fetch_retries: u64, pass_delay_ms: u64) -> (limits: Limits)
        ensures
            limits == (Limits { max_passes: Some(max_passes), fetch_retries, pass_delay_ms }),
    {
        Limits { max_passes: Some(max_passes), fetch_retries, pass_delay_ms }
    }
}

impl Default for Limits {
    fn default() -> (limits: Limits)
        ensures
            limits == Limits::unbounded_spec(),
    {
        Limits::unbounded()
    }
}

/// Why a migration did not run, or did not run to its end.
#[derive(Clone, Copy, Debug, PartialEq, Eq, Structural)]
pub enum MigrationError {
    /// The source or the destination is not a voice channel. Nothing was
    /// asked of the platform.
    ChannelKindMismatch,
    /// The members of the source could not be listed, and the tries that
    /// the limits allow are used up.
    MigrationAborted,
    /// The passes that the limits allow are used up and the source is still
    /// not settled.
    TimedOut,
    /// The caller cancelled the migration.
    Cancelled,
}

/// Why the platform refused to move a member. A migration treats every
/// cause alike; the cause is kept for the caller.
#[derive(Clone, Copy, Debug, PartialEq, Eq, Structural)]
pub enum MoveFailure {
    PermissionDenied,
    NotFound,
    RateLimited,
    Transient,
    Other,
}

/// A move that failed, and why.
#[derive(Clone, Copy, Debug, PartialEq, Eq)]
pub struct FailedMove {
    pub member: Member,
    pub reason: MoveFailure,
}

/// What a migration asks its caller to do next.
#[derive(Clone, Copy, Debug, PartialEq, Eq)]
pub enum Action {
    /// Wait `delay_ms` milliseconds, list the members who are in `channel`
    /// now, and report [`Event::Snapshot`] or [`Event::SnapshotFailed`].
    ListMembers { channel: u64, delay_ms: u64 },
    /// Move `member` to the channel `destination`, and report
    /// [`Event::Moved`] or [`Event::MoveFailed`].
    MoveMember { member: Member, destination: u64 },
    /// Nothing more: the migration has ended with `result`.
    Finish { result: Result<(), MigrationError> },
}

/// What the caller reports to a migration.
#[derive(Debug, PartialEq, Eq)]
pub enum Event {
    /// The members found in the source channel, in the order of the listing.
    Snapshot(Vec<Member>),
    /// The listing failed.
    SnapshotFailed,
    /// The member named in the last action was moved.
    Moved,
    /// The member named in the last action could not be moved.
    MoveFailed(MoveFailure),
    /// The migration is to stop.
    Cancel,
}

/// An [`Event`] as specifications see it, with the snapshot as a sequence.
pub enum Observation {
    Snapshot(Seq<Member>),
    SnapshotFailed,
    Moved,
    MoveFailed(MoveFailure),
    Cancel,
}

impl View for Event {
    type V = Observation;

    open spec fn view(&self) -> Observation {
        match *self {
            Event::Snapshot(members) => Observation::Snapshot(members@),
            Event::SnapshotFailed => Observation::SnapshotFailed,
            Event::Moved => Observation::Moved,
            Event::MoveFailed(reason) => Observation::MoveFailed(reason),
            Event::Cancel => Observation::Cancel,
        }
    }
}

/// Where a migration stands.
#[derive(Clone, Copy, Debug, PartialEq, Eq)]
pub enum Phase {
    /// A listing of the source has been asked for.
    Listing,
    /// A move of one member of the latest snapshot has been asked for.
    Moving,
    /// The migration has ended.
    Finished(Result<(), MigrationError>),
}

} // verus!
