use voice_migrator::{
    move_vc_filtered, Action, ChannelKind, Event, FilterSet, GroupChannel, Limits, Member,
    MigrationError,
};

const SOURCE: u64 = 100;
const DESTINATION: u64 = 200;

const A: u64 = 1;
const B: u64 = 2;
const C: u64 = 3;

fn voice(id: u64) -> GroupChannel {
    GroupChannel::new(id, ChannelKind::Voice)
}

fn members(ids: &[u64]) -> Vec<Member> {
    ids.iter().map(|id| Member::new(*id)).collect()
}

fn filter_of(ids: &[u64]) -> FilterSet {
    let mut filter = FilterSet::new();
    for id in ids {
        filter.insert(*id);
    }
    filter
}

fn list(delay_ms: u64) -> Action {
    Action::ListMembers { channel: SOURCE, delay_ms }
}

fn move_of(id: u64) -> Action {
    Action::MoveMember { member: Member::new(id), destination: DESTINATION }
}

#[test]
fn filtered_pass_moves_the_filtered_and_goes_on_while_sizes_differ() {
    let mut source = vec![A, B, C];
    let mut destination: Vec<u64> = Vec::new();
    let mut migration =
        move_vc_filtered(&voice(SOURCE), &voice(DESTINATION), filter_of(&[A, C]), Limits::unbounded())
            .unwrap();
    assert_eq!(migration.pending(), list(0));

    // One pass, in which every move works.
    let mut action = migration.advance(Event::Snapshot(members(&source)));
    while let Action::MoveMember { member, destination: to } = action {
        assert_eq!(to, DESTINATION);
        source.retain(|id| *id != member.id);
        destination.push(member.id);
        action = migration.advance(Event::Moved);
    }
    assert_eq!(destination, vec![A, C]);
    assert_eq!(source, vec![B]);

    // The pass is over and the source is listed again.
    assert_eq!(action, list(0));
    // One member is left and the filter holds two identities: not settled.
    // B may not be moved, so the new pass moves nobody and lists again.
    assert_eq!(migration.advance(Event::Snapshot(members(&source))), list(0));
    assert!(!migration.is_finished());
    assert_eq!(migration.advance(Event::Snapshot(members(&source))), list(0));
    assert_eq!(migration.result(), None);
}

#[test]
fn filtered_leaves_the_others_untouched() {
    let mut migration =
        move_vc_filtered(&voice(SOURCE), &voice(DESTINATION), filter_of(&[C]), Limits::unbounded())
            .unwrap();
    // Three in the source, one in the filter.
    assert_eq!(migration.advance(Event::Snapshot(members(&[A, B, C]))), move_of(C));
    assert_eq!(migration.advance(Event::Moved), list(0));
    // Two are left, the filter holds one: the size test does not hold yet.
    assert_eq!(migration.advance(Event::Snapshot(members(&[A, B]))), list(0));
    // When one of the others has left, the sizes meet.
    assert_eq!(
        migration.advance(Event::Snapshot(members(&[A]))),
        Action::Finish { result: Ok(()) }
    );
}

#[test]
fn filtered_with_an_empty_filter_ends_only_on_an_empty_source() {
    let mut migration =
        move_vc_filtered(&voice(SOURCE), &voice(DESTINATION), FilterSet::new(), Limits::unbounded())
            .unwrap();
    assert_eq!(
        migration.advance(Event::Snapshot(Vec::new())),
        Action::Finish { result: Ok(()) }
    );
}

#[test]
fn filtered_with_an_empty_filter_and_a_full_source_never_ends() {
    let mut migration =
        move_vc_filtered(&voice(SOURCE), &voice(DESTINATION), FilterSet::new(), Limits::unbounded())
            .unwrap();
    let mut moves = 0;
    let mut listings = 1;
    let mut action = migration.pending();
    for _ in 0..1000 {
        action = match action {
            Action::ListMembers { .. } => migration.advance(Event::Snapshot(members(&[A, B, C]))),
            Action::MoveMember { .. } => {
                moves += 1;
                migration.advance(Event::Moved)
            }
            Action::Finish { .. } => break,
        };
        if let Action::ListMembers { .. } = action {
            listings += 1;
        }
    }
    // Nobody is moved, the source is listed over and over, nothing ends it.
    assert_eq!(moves, 0);
    assert_eq!(listings, 1001);
    assert!(!migration.is_finished());
    assert_eq!(action, list(0));
}

#[test]
fn filtered_with_an_empty_filter_is_stopped_by_a_pass_limit() {
    let mut migration =
        move_vc_filtered(&voice(SOURCE), &voice(DESTINATION), FilterSet::new(), Limits::bounded(3, 0, 25))
            .unwrap();
    assert_eq!(migration.pending(), list(0));
    assert_eq!(migration.advance(Event::Snapshot(members(&[A, B, C]))), list(25));
    assert_eq!(migration.passes_left(), Some(2));
    assert_eq!(migration.advance(Event::Snapshot(members(&[A, B, C]))), list(25));
    assert_eq!(migration.advance(Event::Snapshot(members(&[A, B, C]))), list(25));
    assert_eq!(migration.passes_left(), Some(0));
    assert_eq!(
        migration.advance(Event::Snapshot(members(&[A, B, C]))),
        Action::Finish { result: Err(MigrationError::TimedOut) }
    );
}

#[test]
fn filtered_can_end_while_filtered_members_remain() {
    let mut migration =
        move_vc_filtered(&voice(SOURCE), &voice(DESTINATION), filter_of(&[A, C]), Limits::unbounded())
            .unwrap();
    // Two members in the source, two identities in the filter: the sizes
    // meet at once, though A has not been moved.
    assert_eq!(
        migration.advance(Event::Snapshot(members(&[A, B]))),
        Action::Finish { result: Ok(()) }
    );
}

#[test]
fn filtered_on_non_voice_channels_fails() {
    let stage = GroupChannel::new(SOURCE, ChannelKind::Stage);
    assert_eq!(
        move_vc_filtered(&stage, &voice(DESTINATION), filter_of(&[A]), Limits::unbounded()).err(),
        Some(MigrationError::ChannelKindMismatch)
    );
    assert_eq!(
        move_vc_filtered(&voice(SOURCE), &stage, filter_of(&[A]), Limits::unbounded()).err(),
        Some(MigrationError::ChannelKindMismatch)
    );
}

#[test]
fn filtered_skips_to_the_next_member_of_the_filter() {
    let mut migration =
        move_vc_filtered(&voice(SOURCE), &voice(DESTINATION), filter_of(&[5, 9]), Limits::unbounded())
            .unwrap();
    assert_eq!(
        migration.advance(Event::Snapshot(members(&[1, 5, 2, 3, 9, 4]))),
        move_of(5)
    );
    assert_eq!(migration.advance(Event::Moved), move_of(9));
    assert_eq!(migration.advance(Event::Moved), list(0));
}

#[test]
fn filter_set_counts_each_identity_once() {
    let mut filter = FilterSet::new();
    assert!(filter.is_empty());
    assert_eq!(filter.len(), 0);
    assert!(filter.insert(4));
    assert!(filter.insert(7));
    assert!(!filter.insert(4));
    assert_eq!(filter.len(), 2);
    assert!(filter.contains(4));
    assert!(filter.contains(7));
    assert!(!filter.contains(5));
    assert!(!filter.is_empty());
}

#[test]
fn filter_set_from_members_goes_by_identity() {
    let filter = FilterSet::from_members(&members(&[3, 1, 3, 2, 1]));
    assert_eq!(filter.len(), 3);
    assert!(filter.contains(1));
    assert!(filter.contains(2));
    assert!(filter.contains(3));
    assert!(!filter.contains(4));
    assert_eq!(FilterSet::from_members(&Vec::new()).len(), 0);
}

#[test]
fn filter_built_from_members_twice_listed_settles_on_distinct_identities() {
    // The filter holds two identities, though three members were given.
    let filter = FilterSet::from_members(&members(&[A, C, A]));
    let mut migration =
        move_vc_filtered(&voice(SOURCE), &voice(DESTINATION), filter, Limits::unbounded()).unwrap();
    assert_eq!(
        migration.advance(Event::Snapshot(members(&[B, 8]))),
        Action::Finish { result: Ok(()) }
    );
}

#[test]
fn one_filtered_pass_moves_who_may_be_moved_and_is_not_refused() {
    // A and C are in the filter; the platform refuses C once.
    let mut source = vec![A, B, C];
    let mut destination: Vec<u64> = Vec::new();
    let mut refusals_of_c = 1;
    let mut migration = move_vc_filtered(
        &voice(SOURCE),
        &voice(DESTINATION),
        filter_of(&[A, C]),
        Limits::bounded(5, 0, 0),
    )
    .unwrap();

    let mut action = migration.advance(Event::Snapshot(members(&source)));
    let mut tried: Vec<u64> = Vec::new();
    while let Action::MoveMember { member, .. } = action {
        tried.push(member.id);
        if member.id == C && refusals_of_c > 0 {
            refusals_of_c -= 1;
            action = migration.advance(Event::MoveFailed(voice_migrator::MoveFailure::Transient));
        } else {
            source.retain(|id| *id != member.id);
            destination.push(member.id);
            action = migration.advance(Event::Moved);
        }
    }
    assert_eq!(tried, vec![A, C]);
    assert_eq!(source, vec![B, C]);
    assert_eq!(destination, vec![A]);
    assert_eq!(action, list(0));
    assert_eq!(migration.passes_left(), Some(4));
    // Two members are left and the filter holds two identities: the sizes
    // meet, and the migration ends though C is still in the source.
    assert_eq!(
        migration.advance(Event::Snapshot(members(&source))),
        Action::Finish { result: Ok(()) }
    );
}
