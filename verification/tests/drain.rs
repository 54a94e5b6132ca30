use voice_migrator::{
    move_vc, Action, ChannelKind, Event, FailedMove, GroupChannel, Limits, Member, Migration,
    MigrationError, MoveFailure,
};

const SOURCE: u64 = 100;
const DESTINATION: u64 = 200;

/// A platform in memory. A member listed under `refusals` is refused that
/// many times before a move is carried out; one listed under `stuck` is
/// refused every time.
struct FakeSession {
    source: Vec<u64>,
    destination: Vec<u64>,
    refusals: Vec<(u64, u32)>,
    stuck: Vec<u64>,
    listings: usize,
    moves: Vec<u64>,
    delays: Vec<u64>,
}

impl FakeSession {
    fn new(source: &[u64]) -> FakeSession {
        FakeSession {
            source: source.to_vec(),
            destination: Vec::new(),
            refusals: Vec::new(),
            stuck: Vec::new(),
            listings: 0,
            moves: Vec::new(),
            delays: Vec::new(),
        }
    }

    fn list_members(&mut self, channel: u64) -> Event {
        self.listings += 1;
        if channel == SOURCE {
            Event::Snapshot(self.source.iter().map(|id| Member::new(*id)).collect())
        } else {
            Event::SnapshotFailed
        }
    }

    fn move_member(&mut self, member: Member, destination: u64) -> Event {
        self.moves.push(member.id);
        if self.stuck.contains(&member.id) {
            return Event::MoveFailed(MoveFailure::PermissionDenied);
        }
        for entry in self.refusals.iter_mut() {
            if entry.0 == member.id && entry.1 > 0 {
                entry.1 -= 1;
                return Event::MoveFailed(MoveFailure::Transient);
            }
        }
        match self.source.iter().position(|id| *id == member.id) {
            None => Event::MoveFailed(MoveFailure::NotFound),
            Some(at) => {
                self.source.remove(at);
                if destination == DESTINATION {
                    self.destination.push(member.id);
                }
                Event::Moved
            }
        }
    }
}

/// Carries out what `migration` asks for, for `rounds` rounds at most.
/// Returns how the migration ended, or `None` if it has not.
fn drive(
    migration: &mut Migration,
    session: &mut FakeSession,
    rounds: usize,
) -> Option<Result<(), MigrationError>> {
    let mut action = migration.pending();
    for _ in 0..rounds {
        let event = match action {
            Action::ListMembers { channel, delay_ms } => {
                session.delays.push(delay_ms);
                session.list_members(channel)
            }
            Action::MoveMember { member, destination } => session.move_member(member, destination),
            Action::Finish { result } => return Some(result),
        };
        action = migration.advance(event);
    }
    match action {
        Action::Finish { result } => Some(result),
        _ => None,
    }
}

fn voice(id: u64) -> GroupChannel {
    GroupChannel::new(id, ChannelKind::Voice)
}

fn members(ids: &[u64]) -> Vec<Member> {
    ids.iter().map(|id| Member::new(*id)).collect()
}

#[test]
fn drain_empties_the_source() {
    for size in 1..6u64 {
        let ids: Vec<u64> = (1..=size).collect();
        let mut session = FakeSession::new(&ids);
        let mut migration = move_vc(&voice(SOURCE), &voice(DESTINATION), Limits::unbounded()).unwrap();
        let ended = drive(&mut migration, &mut session, 1000);
        assert_eq!(ended, Some(Ok(())));
        assert!(session.source.is_empty());
        assert_eq!(session.destination, ids);
        assert_eq!(session.moves, ids);
        assert_eq!(session.listings, 2);
        assert!(migration.snapshot().is_empty());
    }
}

#[test]
fn drain_takes_exactly_the_rounds_it_needs() {
    let mut session = FakeSession::new(&[1, 2, 3]);
    let mut migration = move_vc(&voice(SOURCE), &voice(DESTINATION), Limits::unbounded()).unwrap();
    // One listing, three moves: not yet finished.
    assert_eq!(drive(&mut migration, &mut session, 4), None);
    assert_eq!(
        migration.pending(),
        Action::ListMembers { channel: SOURCE, delay_ms: 0 }
    );
    // The second listing finds the source empty.
    assert_eq!(drive(&mut migration, &mut session, 1), Some(Ok(())));
}

#[test]
fn drain_outlasts_refusals_that_end() {
    let mut session = FakeSession::new(&[1, 2, 3]);
    session.refusals = vec![(2, 2), (3, 1)];
    let mut migration = move_vc(&voice(SOURCE), &voice(DESTINATION), Limits::unbounded()).unwrap();
    let ended = drive(&mut migration, &mut session, 1000);
    assert_eq!(ended, Some(Ok(())));
    assert!(session.source.is_empty());
    assert_eq!(session.destination, vec![1, 3, 2]);
    // Pass one tries 1, 2, 3; pass two tries 2, 3; pass three tries 2.
    assert_eq!(session.moves, vec![1, 2, 3, 2, 3, 2]);
    assert_eq!(session.listings, 4);
}

#[test]
fn drain_with_enough_passes_succeeds_and_with_too_few_times_out() {
    // Member 2 is refused twice, so three passes are needed.
    let mut session = FakeSession::new(&[1, 2]);
    session.refusals = vec![(2, 2)];
    let mut migration = move_vc(&voice(SOURCE), &voice(DESTINATION), Limits::bounded(3, 0, 0)).unwrap();
    assert_eq!(drive(&mut migration, &mut session, 1000), Some(Ok(())));
    assert_eq!(migration.passes_left(), Some(0));

    let mut session = FakeSession::new(&[1, 2]);
    session.refusals = vec![(2, 2)];
    let mut migration = move_vc(&voice(SOURCE), &voice(DESTINATION), Limits::bounded(2, 0, 0)).unwrap();
    assert_eq!(
        drive(&mut migration, &mut session, 1000),
        Some(Err(MigrationError::TimedOut))
    );
    assert_eq!(session.source, vec![2]);
    assert_eq!(session.destination, vec![1]);
}

#[test]
fn moved_members_are_in_the_destination() {
    let mut session = FakeSession::new(&[7, 8, 9]);
    session.stuck = vec![8];
    let mut migration = move_vc(&voice(SOURCE), &voice(DESTINATION), Limits::bounded(2, 0, 0)).unwrap();
    let mut action = migration.pending();
    let mut moved: Vec<u64> = Vec::new();
    loop {
        let event = match action {
            Action::ListMembers { channel, .. } => session.list_members(channel),
            Action::MoveMember { member, destination } => {
                assert_eq!(destination, DESTINATION);
                let event = session.move_member(member, destination);
                if event == Event::Moved {
                    moved.push(member.id);
                }
                event
            }
            Action::Finish { .. } => break,
        };
        action = migration.advance(event);
    }
    assert_eq!(moved, vec![7, 9]);
    for id in moved {
        assert!(session.destination.contains(&id));
        assert!(!session.source.contains(&id));
    }
}

#[test]
fn every_move_names_a_member_of_the_latest_snapshot() {
    let mut migration = move_vc(&voice(SOURCE), &voice(DESTINATION), Limits::unbounded()).unwrap();
    let first = migration.advance(Event::Snapshot(members(&[1, 2])));
    assert_eq!(first, Action::MoveMember { member: Member::new(1), destination: DESTINATION });
    let second = migration.advance(Event::Moved);
    assert_eq!(second, Action::MoveMember { member: Member::new(2), destination: DESTINATION });
    assert_eq!(
        migration.advance(Event::Moved),
        Action::ListMembers { channel: SOURCE, delay_ms: 0 }
    );
    // The next snapshot holds other members: only they are moved now.
    let third = migration.advance(Event::Snapshot(members(&[5])));
    assert_eq!(third, Action::MoveMember { member: Member::new(5), destination: DESTINATION });
    assert_eq!(migration.snapshot(), &members(&[5]));
}

#[test]
fn drain_between_non_voice_channels_fails_and_moves_nobody() {
    let text = GroupChannel::new(SOURCE, ChannelKind::Text);
    let category = GroupChannel::new(DESTINATION, ChannelKind::Category);
    let started = move_vc(&text, &category, Limits::unbounded());
    assert_eq!(started.err(), Some(MigrationError::ChannelKindMismatch));
}

#[test]
fn drain_needs_both_channels_to_be_voice() {
    let kinds = [
        ChannelKind::Text,
        ChannelKind::Private,
        ChannelKind::Category,
        ChannelKind::News,
        ChannelKind::Store,
        ChannelKind::NewsThread,
        ChannelKind::PublicThread,
        ChannelKind::PrivateThread,
        ChannelKind::Stage,
        ChannelKind::Unknown,
    ];
    for kind in kinds {
        let other = GroupChannel::new(SOURCE, kind);
        assert_eq!(
            move_vc(&other, &voice(DESTINATION), Limits::unbounded()).err(),
            Some(MigrationError::ChannelKindMismatch)
        );
        assert_eq!(
            move_vc(&voice(SOURCE), &other, Limits::unbounded()).err(),
            Some(MigrationError::ChannelKindMismatch)
        );
        assert!(!kind.is_voice_capable());
        assert!(!other.is_voice());
    }
    assert!(ChannelKind::Voice.is_voice_capable());
    assert!(voice(SOURCE).is_voice());
    assert!(move_vc(&voice(SOURCE), &voice(DESTINATION), Limits::unbounded()).is_ok());
}

#[test]
fn drain_of_an_empty_source_is_a_no_op() {
    let mut session = FakeSession::new(&[]);
    let mut migration = move_vc(&voice(SOURCE), &voice(DESTINATION), Limits::unbounded()).unwrap();
    assert_eq!(
        migration.pending(),
        Action::ListMembers { channel: SOURCE, delay_ms: 0 }
    );
    assert_eq!(drive(&mut migration, &mut session, 1), Some(Ok(())));
    assert!(session.moves.is_empty());
    assert_eq!(session.listings, 1);
}

#[test]
fn drain_again_after_a_drain_is_a_no_op() {
    let mut session = FakeSession::new(&[1, 2, 3]);
    let mut first = move_vc(&voice(SOURCE), &voice(DESTINATION), Limits::unbounded()).unwrap();
    assert_eq!(drive(&mut first, &mut session, 1000), Some(Ok(())));
    let moves_before = session.moves.len();
    let listings_before = session.listings;
    let destination_before = session.destination.clone();

    let mut second = move_vc(&voice(SOURCE), &voice(DESTINATION), Limits::unbounded()).unwrap();
    assert_eq!(drive(&mut second, &mut session, 1), Some(Ok(())));
    assert_eq!(session.moves.len(), moves_before);
    assert_eq!(session.listings, listings_before + 1);
    assert_eq!(session.destination, destination_before);
}

#[test]
fn a_member_who_cannot_be_moved_keeps_the_drain_going() {
    let mut session = FakeSession::new(&[1, 2, 3]);
    session.stuck = vec![2];
    let mut migration = move_vc(&voice(SOURCE), &voice(DESTINATION), Limits::unbounded()).unwrap();
    // However long it is driven, it does not end.
    assert_eq!(drive(&mut migration, &mut session, 500), None);
    assert!(!migration.is_finished());
    assert_eq!(migration.result(), None);
    // The others were moved in the first pass all the same.
    assert_eq!(session.destination, vec![1, 3]);
    assert_eq!(session.source, vec![2]);
    // After the first pass every pass tries the member who is stuck, alone.
    assert_eq!(&session.moves[..3], &[1, 2, 3]);
    assert!(session.moves[3..].iter().all(|id| *id == 2));
    assert!(session.moves.len() > 100);
}

#[test]
fn a_pass_limit_finds_the_member_who_cannot_be_moved() {
    let mut session = FakeSession::new(&[1, 2, 3]);
    session.stuck = vec![2];
    let mut migration = move_vc(&voice(SOURCE), &voice(DESTINATION), Limits::bounded(4, 0, 0)).unwrap();
    let ended = drive(&mut migration, &mut session, 1000);
    assert_eq!(ended, Some(Err(MigrationError::TimedOut)));
    assert_eq!(migration.result(), Some(Err(MigrationError::TimedOut)));
    assert!(migration.is_finished());
    assert_eq!(session.destination, vec![1, 3]);
    assert_eq!(session.source, vec![2]);
    // Four passes: 1, 2, 3, then 2 three times over. Five listings.
    assert_eq!(session.moves, vec![1, 2, 3, 2, 2, 2]);
    assert_eq!(session.listings, 5);
    assert_eq!(migration.passes_left(), Some(0));
    assert_eq!(migration.snapshot(), &members(&[2]));
}

#[test]
fn failures_of_the_latest_pass_are_recorded() {
    let mut migration = move_vc(&voice(SOURCE), &voice(DESTINATION), Limits::unbounded()).unwrap();
    migration.advance(Event::Snapshot(members(&[1, 2, 3])));
    migration.advance(Event::MoveFailed(MoveFailure::PermissionDenied));
    migration.advance(Event::Moved);
    let next = migration.advance(Event::MoveFailed(MoveFailure::RateLimited));
    assert_eq!(next, Action::ListMembers { channel: SOURCE, delay_ms: 0 });
    assert_eq!(
        migration.failures(),
        &vec![
            FailedMove { member: Member::new(1), reason: MoveFailure::PermissionDenied },
            FailedMove { member: Member::new(3), reason: MoveFailure::RateLimited },
        ]
    );
    // The next snapshot starts a new record.
    migration.advance(Event::Snapshot(members(&[1, 3])));
    assert!(migration.failures().is_empty());
    migration.advance(Event::MoveFailed(MoveFailure::NotFound));
    migration.advance(Event::MoveFailed(MoveFailure::Other));
    assert_eq!(
        migration.failures(),
        &vec![
            FailedMove { member: Member::new(1), reason: MoveFailure::NotFound },
            FailedMove { member: Member::new(3), reason: MoveFailure::Other },
        ]
    );
}

#[test]
fn a_failed_move_does_not_stop_the_pass() {
    let mut failing = move_vc(&voice(SOURCE), &voice(DESTINATION), Limits::unbounded()).unwrap();
    let mut working = move_vc(&voice(SOURCE), &voice(DESTINATION), Limits::unbounded()).unwrap();
    failing.advance(Event::Snapshot(members(&[1, 2, 3])));
    working.advance(Event::Snapshot(members(&[1, 2, 3])));
    for _ in 0..3 {
        let after_failure = failing.advance(Event::MoveFailed(MoveFailure::Transient));
        let after_success = working.advance(Event::Moved);
        assert_eq!(after_failure, after_success);
    }
    assert_eq!(failing.failures().len(), 3);
    assert!(working.failures().is_empty());
}
