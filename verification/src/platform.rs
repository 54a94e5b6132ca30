//! A model of a platform that keeps its word, and what a migration achieves
//! against it.
//!
//! The model knows who is in the source channel and, for each of them, how
//! often it will still refuse to move them. A refusal leaves the member
//! where they are; every member is moved in the end, some only after many
//! tries. Nobody joins or leaves but by a move.

use crate::channel::Member;
use crate::machine::{
    eligible, initial, lemma_next_eligible, lemma_step_wf, next_eligible, observe, one_pass_less,
    pending, settled, step, MigrationState,
};
use crate::protocol::{Action, Limits, MigrationError, MoveFailure, Observation, Phase};
use vstd::prelude::*;

verus! {

/// A member who is in the source channel.
pub struct Resident {
    pub member: Member,
    /// How many more moves of this member the platform refuses before it
    /// carries one out.
    pub refusals: nat,
}

/// The platform, as far as one migration meets it.
pub struct Platform {
    /// The identity of the source channel.
    pub source: u64,
    /// The identity of the destination channel.
    pub destination: u64,
    /// Who is in the source channel, in the order of a listing.
    pub present: Seq<Resident>,
    /// Who has been moved to the destination channel, in the order of
    /// arrival.
    pub arrived: Seq<Member>,
}

/// The members among `present`, in order.
pub open spec fn names(present: Seq<Resident>) -> Seq<Member> {
    present.map_values(|resident: Resident| resident.member)
}

/// The first place at or after `from` at which `member` stands in
/// `present`; the length of `present` where they are not there.
pub open spec fn place_of(present: Seq<Resident>, member: Member, from: int) -> int
    decreases present.len() - from,
{
    if from >= present.len() {
        present.len() as int
    } else if present[from].member == member {
        from
    } else {
        place_of(present, member, from + 1)
    }
}

impl Platform {
    /// No member is listed twice.
    pub open spec fn wf(self) -> bool {
        names(self.present).no_duplicates()
    }

    /// What the platform does when asked to move `member` to the channel
    /// `to`, and what it reports. Someone who is not in the source cannot
    /// be moved. A member whom the platform still refuses stays, with one
    /// refusal fewer to come. Anyone else leaves the source, and arrives in
    /// the destination if that is where they were sent.
    pub open spec fn move_member(self, member: Member, to: u64) -> (Platform, Observation) {
        let at = place_of(self.present, member, 0);
        if at >= self.present.len() {
            (self, Observation::MoveFailed(MoveFailure::NotFound))
        } else if self.present[at].refusals > 0 {
            (
                Platform {
                    present: self.present.update(
                        at,
                        Resident { member, refusals: (self.present[at].refusals - 1) as nat },
                    ),
                    ..self
                },
                Observation::MoveFailed(MoveFailure::Transient),
            )
        } else {
            (
                Platform {
                    present: self.present.remove(at),
                    arrived: if to == self.destination {
                        self.arrived.push(member)
                    } else {
                        self.arrived
                    },
                    ..self
                },
                Observation::Moved,
            )
        }
    }

    /// What the platform does with `action`, and what it reports. A listing
    /// of the source gives everyone who is there; a listing of any other
    /// channel fails.
    pub open spec fn respond(self, action: Action) -> (Platform, Observation) {
        match action {
            Action::ListMembers { channel, delay_ms } => if channel == self.source {
                (self, Observation::Snapshot(names(self.present)))
            } else {
                (self, Observation::SnapshotFailed)
            },
            Action::MoveMember { member, destination } => self.move_member(member, destination),
            Action::Finish { result } => (self, Observation::Cancel),
        }
    }
}

/// One round: the platform carries out what the migration waits for, and the
/// migration takes in what the platform reports.
pub open spec fn round(s: MigrationState, platform: Platform) -> (MigrationState, Platform) {
    let (after, event) = platform.respond(pending(s));
    (step(s, event), after)
}

/// `rounds` rounds, one after the other.
pub open spec fn run(s: MigrationState, platform: Platform, rounds: nat) -> (
    MigrationState,
    Platform,
)
    decreases rounds,
{
    if rounds == 0 {
        (s, platform)
    } else {
        let (next, after) = round(s, platform);
        run(next, after, (rounds - 1) as nat)
    }
}

/// The passes that it takes to get everyone of `present` out: one more than
/// the greatest number of refusals that any of them has to come, and none
/// where nobody is there.
pub open spec fn passes_needed(present: Seq<Resident>) -> nat
    decreases present.len(),
{
    if present.len() == 0 {
        0
    } else {
        let others = passes_needed(present.drop_last());
        let own = present.last().refusals + 1;
        if own > others {
            own
        } else {
            others
        }
    }
}

/// Whether the passes that may still be started are enough to get everyone
/// of `present` out.
pub open spec fn enough_passes(passes_left: Option<u64>, present: Seq<Resident>) -> bool {
    match passes_left {
        None => true,
        Some(left) => left >= passes_needed(present),
    }
}

/// What a migration of everyone comes to against `platform`, when
/// `passes_left` passes may be started: `end` is finished. Where the passes
/// are enough it has ended with success, nobody is left in the source, and
/// everyone who was in it is in the destination, once each, behind those who
/// were there before. Where they are not it has ended with `TimedOut`, and
/// someone is left in the source.
pub open spec fn drained(
    platform: Platform,
    passes_left: Option<u64>,
    end: (MigrationState, Platform),
) -> bool {
    &&& platform.arrived.is_prefix_of(end.1.arrived)
    &&& if enough_passes(passes_left, platform.present) {
        &&& end.0.phase == Phase::Finished(Ok(()))
        &&& end.1.present.len() == 0
        &&& end.1.arrived.len() == platform.arrived.len() + platform.present.len()
        &&& forall|i: int|
            0 <= i < platform.present.len() ==> end.1.arrived.contains(
                (#[trigger] platform.present[i]).member,
            )
    } else {
        &&& end.0.phase == Phase::Finished(Err(MigrationError::TimedOut))
        &&& end.1.present.len() > 0
    }
}

/// Who is in the source after one pass under `filter` over `present`, in
/// the order in which they stood: those who may not be moved, as they were,
/// and those whom the platform refused, each with one refusal fewer to come.
pub open spec fn left_behind(filter: Option<Set<u64>>, present: Seq<Resident>) -> Seq<Resident>
    decreases present.len(),
{
    if present.len() == 0 {
        Seq::empty()
    } else {
        let last = present.last();
        let front = left_behind(filter, present.drop_last());
        if !eligible(filter, last.member) {
            front.push(last)
        } else if last.refusals > 0 {
            front.push(Resident { member: last.member, refusals: (last.refusals - 1) as nat })
        } else {
            front
        }
    }
}

/// Who arrives in the destination in one pass under `filter` over `present`,
/// in order: those who may be moved and whom the platform does not refuse.
pub open spec fn moved_out(filter: Option<Set<u64>>, present: Seq<Resident>) -> Seq<Member>
    decreases present.len(),
{
    if present.len() == 0 {
        Seq::empty()
    } else {
        let last = present.last();
        let front = moved_out(filter, present.drop_last());
        if eligible(filter, last.member) && last.refusals == 0 {
            front.push(last.member)
        } else {
            front
        }
    }
}

/// The moves that it takes to get everyone of `present` out.
spec fn effort(present: Seq<Resident>) -> nat
    decreases present.len(),
{
    if present.len() == 0 {
        0
    } else {
        effort(present.drop_last()) + present.last().refusals + 1
    }
}

/// Running `a + b` rounds is running `a` rounds and then `b` more.
proof fn lemma_run_split(s: MigrationState, platform: Platform, a: nat, b: nat)
    ensures
        run(s, platform, a + b) == run(run(s, platform, a).0, run(s, platform, a).1, b),
    decreases a,
{
    if a > 0 {
        let (next, after) = round(s, platform);
        lemma_run_split(next, after, (a - 1) as nat, b);
        assert((a + b - 1) as nat == (a - 1) as nat + b);
    }
}

/// Where `member` stands at `at` and nowhere before, `place_of` finds `at`.
proof fn lemma_place_of(present: Seq<Resident>, member: Member, from: int, at: int)
    requires
        0 <= from <= at < present.len(),
        present[at].member == member,
        forall|k: int| from <= k < at ==> (#[trigger] present[k]).member != member,
    ensures
        place_of(present, member, from) == at,
    decreases at - from,
{
    if from < at {
        lemma_place_of(present, member, from + 1, at);
    }
}

/// Where `place_of` finds a place, the member stands there.
proof fn lemma_place_found(present: Seq<Resident>, member: Member, from: int)
    requires
        0 <= from,
    ensures
        from <= place_of(present, member, from) || place_of(present, member, from)
            == present.len(),
        place_of(present, member, from) < present.len() ==> present[place_of(
            present,
            member,
            from,
        )].member == member,
    decreases present.len() - from,
{
    if from < present.len() && present[from].member != member {
        lemma_place_found(present, member, from + 1);
    }
}

/// A pass leaves nobody in the source who was not there before it.
proof fn lemma_left_behind_members(filter: Option<Set<u64>>, present: Seq<Resident>)
    ensures
        forall|k: int|
            0 <= k < left_behind(filter, present).len() ==> names(present).contains(
                (#[trigger] left_behind(filter, present)[k]).member,
            ),
    decreases present.len(),
{
    if present.len() > 0 {
        let front = present.drop_last();
        let left = left_behind(filter, present);
        lemma_left_behind_members(filter, front);
        assert forall|k: int| 0 <= k < left.len() implies names(present).contains(
            (#[trigger] left[k]).member,
        ) by {
            if k < left_behind(filter, front).len() {
                let j = choose|j: int|
                    0 <= j < names(front).len() && names(front)[j] == left_behind(
                        filter,
                        front,
                    )[k].member;
                assert(names(present)[j] == left[k].member);
            } else {
                assert(names(present)[present.len() - 1] == left[k].member);
            }
        }
    }
}

/// A pass over members who are all different leaves members who are all
/// different.
proof fn lemma_left_behind_distinct(filter: Option<Set<u64>>, present: Seq<Resident>)
    requires
        names(present).no_duplicates(),
    ensures
        names(left_behind(filter, present)).no_duplicates(),
    decreases present.len(),
{
    if present.len() > 0 {
        let front = present.drop_last();
        let last = present.last();
        assert forall|i: int, j: int|
            0 <= i < names(front).len() && 0 <= j < names(front).len() && i != j implies names(
            front,
        )[i] != names(front)[j] by {
            assert(names(present)[i] == names(front)[i]);
            assert(names(present)[j] == names(front)[j]);
        }
        lemma_left_behind_distinct(filter, front);
        lemma_left_behind_members(filter, front);
        let left = left_behind(filter, present);
        let inner_left = left_behind(filter, front);
        if left.len() > inner_left.len() {
            assert forall|i: int, j: int|
                0 <= i < names(left).len() && 0 <= j < names(left).len() && i != j implies names(
                left,
            )[i] != names(left)[j] by {
                let end = left.len() - 1;
                if i < end && j < end {
                    assert(names(inner_left)[i] == names(left)[i]);
                    assert(names(inner_left)[j] == names(left)[j]);
                } else {
                    let inner = if i < end {
                        i
                    } else {
                        j
                    };
                    let was = choose|k: int|
                        0 <= k < names(front).len() && names(front)[k] == inner_left[inner].member;
                    assert(names(present)[was] == left[inner].member);
                    assert(names(present)[present.len() - 1] == left[end].member);
                }
            }
        }
    }
}

/// A stretch of members who may not be moved is passed over: the pass
/// leaves them as they are, and nobody of them arrives anywhere.
proof fn lemma_passed_over(
    filter: Option<Set<u64>>,
    before: Seq<Resident>,
    from: int,
    to: int,
)
    requires
        0 <= from <= to <= before.len(),
        forall|k: int| from <= k < to ==> !eligible(filter, (#[trigger] before[k]).member),
    ensures
        left_behind(filter, before.take(to)) + before.skip(to) == left_behind(
            filter,
            before.take(from),
        ) + before.skip(from),
        moved_out(filter, before.take(to)) == moved_out(filter, before.take(from)),
    decreases to - from,
{
    if from < to {
        lemma_passed_over(filter, before, from, to - 1);
        assert(before.take(to).drop_last() =~= before.take(to - 1));
        assert(before.take(to).last() == before[to - 1]);
        assert(left_behind(filter, before.take(to)) + before.skip(to) =~= left_behind(
            filter,
            before.take(to - 1),
        ) + before.skip(to - 1));
    }
}

/// Where everyone may be moved, a pass moves or keeps each member, and takes
/// as many moves off the effort as there were members.
proof fn lemma_pass_of_everyone(present: Seq<Resident>)
    ensures
        left_behind(None, present).len() + moved_out(None, present).len() == present.len(),
        effort(left_behind(None, present)) + present.len() == effort(present),
    decreases present.len(),
{
    if present.len() > 0 {
        let front = present.drop_last();
        lemma_pass_of_everyone(front);
        if present.last().refusals > 0 {
            assert(left_behind(None, present).drop_last() =~= left_behind(None, front));
        }
    }
}

/// Where everyone may be moved, a pass takes one off the passes that are
/// needed.
proof fn lemma_pass_of_everyone_counts(present: Seq<Resident>)
    requires
        present.len() > 0,
    ensures
        passes_needed(left_behind(None, present)) + 1 == passes_needed(present),
    decreases present.len(),
{
    let front = present.drop_last();
    let last = present.last();
    if front.len() > 0 {
        lemma_pass_of_everyone_counts(front);
    } else {
        assert(left_behind(None, front).len() == 0);
        assert(passes_needed(left_behind(None, front)) == 0);
        assert(passes_needed(front) == 0);
    }
    if last.refusals > 0 {
        let left = left_behind(None, present);
        assert(left.drop_last() =~= left_behind(None, front));
        assert(left.last().refusals == last.refusals - 1);
        assert(passes_needed(left) == if left.last().refusals + 1 > passes_needed(
            left_behind(None, front),
        ) {
            left.last().refusals + 1
        } else {
            passes_needed(left_behind(None, front))
        });
    } else {
        assert(left_behind(None, present) == left_behind(None, front));
    }
}

/// Where everyone may be moved, each member has either arrived after a pass
/// or is still in the source.
proof fn lemma_moved_or_left(present: Seq<Resident>, i: int)
    requires
        0 <= i < present.len(),
    ensures
        present[i].refusals == 0 ==> moved_out(None, present).contains(present[i].member),
        present[i].refusals > 0 ==> names(left_behind(None, present)).contains(present[i].member),
    decreases present.len(),
{
    let front = present.drop_last();
    let last = present.last();
    if i < present.len() - 1 {
        lemma_moved_or_left(front, i);
        if present[i].refusals == 0 {
            let k = choose|k: int|
                0 <= k < moved_out(None, front).len() && moved_out(None, front)[k]
                    == front[i].member;
            assert(moved_out(None, present)[k] == present[i].member);
        } else {
            let k = choose|k: int|
                0 <= k < names(left_behind(None, front)).len() && names(
                    left_behind(None, front),
                )[k] == front[i].member;
            assert(names(left_behind(None, present))[k] == present[i].member);
        }
    } else {
        if last.refusals == 0 {
            assert(moved_out(None, present)[moved_out(None, present).len() - 1] == last.member);
        } else {
            assert(names(left_behind(None, present))[left_behind(None, present).len() - 1]
                == last.member);
        }
    }
}

/// A migration in the middle of a pass over `before`, with the move of the
/// member at `at` pending: the pass has dealt with those before `at`, and
/// those from `at` on are as they were.
spec fn mid_pass(
    s: MigrationState,
    platform: Platform,
    before: Seq<Resident>,
    arrived: Seq<Member>,
    at: int,
) -> bool {
    &&& s.wf()
    &&& s.phase is Moving
    &&& s.cursor == at
    &&& 0 <= at < before.len()
    &&& s.snapshot == names(before)
    &&& s.source == platform.source
    &&& s.destination == platform.destination
    &&& names(before).no_duplicates()
    &&& platform.present == left_behind(s.filter, before.take(at)) + before.skip(at)
    &&& platform.arrived == arrived + moved_out(s.filter, before.take(at))
}

/// The state of a migration but for where it stands in its pass.
spec fn same_run(s: MigrationState, t: MigrationState) -> bool {
    &&& s.source == t.source
    &&& s.destination == t.destination
    &&& s.filter == t.filter
    &&& s.limits == t.limits
    &&& s.fresh == t.fresh
    &&& s.snapshot == t.snapshot
    &&& s.passes_left == t.passes_left
    &&& s.retries_left == t.retries_left
}

/// What a pass over `before` comes to: the migration waits for a listing,
/// and the platform holds whom the pass left behind and whom it moved out.
spec fn pass_over(
    s: MigrationState,
    platform: Platform,
    before: Seq<Resident>,
    arrived: Seq<Member>,
    end: (MigrationState, Platform),
) -> bool {
    &&& end.0.wf()
    &&& end.0.phase is Listing
    &&& same_run(s, end.0)
    &&& end.1.source == platform.source
    &&& end.1.destination == platform.destination
    &&& end.1.present == left_behind(s.filter, before)
    &&& end.1.arrived == arrived + moved_out(s.filter, before)
}

/// From the middle of a pass to its end.
proof fn lemma_pass(
    s: MigrationState,
    platform: Platform,
    before: Seq<Resident>,
    arrived: Seq<Member>,
    at: int,
) -> (rounds: nat)
    requires
        mid_pass(s, platform, before, arrived, at),
    ensures
        pass_over(s, platform, before, arrived, run(s, platform, rounds)),
    decreases before.len() - at,
{
    let filter = s.filter;
    let member = before[at].member;
    let dealt = left_behind(filter, before.take(at));
    assert(names(before)[at] == member);
    assert(pending(s) == Action::MoveMember { member, destination: s.destination });
    assert(platform.present[dealt.len() as int] == before[at]);
    assert forall|k: int| 0 <= k < dealt.len() implies (#[trigger] platform.present[k]).member
        != member by {
        lemma_left_behind_members(filter, before.take(at));
        let j = choose|j: int|
            0 <= j < names(before.take(at)).len() && names(before.take(at))[j] == dealt[k].member;
        assert(names(before)[j] == dealt[k].member);
    }
    lemma_place_of(platform.present, member, 0, dealt.len() as int);
    let (t, after) = round(s, platform);
    assert(before.take(at + 1).drop_last() =~= before.take(at));
    assert(before.take(at + 1).last() == before[at]);
    assert(after.present =~= left_behind(filter, before.take(at + 1)) + before.skip(at + 1));
    assert(after.arrived =~= arrived + moved_out(filter, before.take(at + 1)));
    lemma_step_wf(s, platform.respond(pending(s)).1);
    let next = next_eligible(filter, s.snapshot, at + 1);
    lemma_next_eligible(filter, s.snapshot, at + 1);
    assert forall|k: int| at + 1 <= k < next implies !eligible(
        filter,
        (#[trigger] before[k]).member,
    ) by {
        assert(s.snapshot[k] == before[k].member);
    }
    lemma_passed_over(filter, before, at + 1, next);
    assert(run(t, after, 0) == (t, after));
    if next < before.len() {
        assert(mid_pass(t, after, before, arrived, next));
        let more = lemma_pass(t, after, before, arrived, next);
        assert(run(s, platform, 1 + more) == run(t, after, more));
        1 + more
    } else {
        assert(before.take(next) =~= before);
        assert(before.skip(next) =~= Seq::<Resident>::empty());
        assert(after.present =~= left_behind(filter, before));
        assert(run(s, platform, 1) == run(t, after, 0));
        1
    }
}

/// From a snapshot that starts a pass to the end of that pass.
proof fn lemma_first_pass(s: MigrationState, platform: Platform) -> (rounds: nat)
    requires
        s.wf(),
        s.phase is Listing,
        s.source == platform.source,
        s.destination == platform.destination,
        platform.wf(),
        !settled(s.filter, names(platform.present)),
        s.passes_left != Some(0u64),
    ensures
        pass_over(
            observe(s, names(platform.present)),
            platform,
            platform.present,
            platform.arrived,
            run(s, platform, rounds),
        ),
        rounds >= 1,
{
    let filter = s.filter;
    let before = platform.present;
    let (t, after) = round(s, platform);
    assert(after == platform);
    assert(t == observe(s, names(before)));
    lemma_step_wf(s, Observation::Snapshot(names(before)));
    assert(run(t, after, 0) == (t, after));
    let first = next_eligible(filter, names(before), 0);
    lemma_next_eligible(filter, names(before), 0);
    assert forall|k: int| 0 <= k < first implies !eligible(filter, (#[trigger] before[k]).member) by {
        assert(names(before)[k] == before[k].member);
    }
    lemma_passed_over(filter, before, 0, first);
    assert(before.take(0) =~= Seq::<Resident>::empty());
    assert(before.skip(0) =~= before);
    assert(platform.present =~= left_behind(filter, before.take(first)) + before.skip(first));
    assert(platform.arrived =~= platform.arrived + moved_out(filter, before.take(first)));
    if first < before.len() {
        assert(mid_pass(t, platform, before, platform.arrived, first));
        let more = lemma_pass(t, platform, before, platform.arrived, first);
        assert(run(s, platform, 1 + more) == run(t, after, more));
        1 + more
    } else {
        assert(before.take(first) =~= before);
        assert(before.skip(first) =~= Seq::<Resident>::empty());
        assert(platform.present =~= left_behind(filter, before));
        assert(run(s, platform, 1) == run(t, after, 0));
        1
    }
}

/// From a listing to the end: a migration of everyone that awaits a listing
/// ends after some number of rounds. Where the passes that it may start are
/// enough, it ends with success, the source empty and everyone who was in
/// it moved to the destination; where they are not, it ends with
/// `TimedOut` and someone is left.
proof fn lemma_drain(s: MigrationState, platform: Platform) -> (rounds: nat)
    requires
        s.wf(),
        s.phase is Listing,
        s.filter is None,
        s.source == platform.source,
        s.destination == platform.destination,
        platform.wf(),
    ensures
        drained(platform, s.passes_left, run(s, platform, rounds)),
    decreases effort(platform.present),
{
    let before = platform.present;
    if before.len() == 0 || s.passes_left == Some(0u64) {
        let (t, after) = round(s, platform);
        assert(run(t, after, 0) == (t, after));
        assert(run(s, platform, 1) == run(t, after, 0));
        1
    } else {
        let pass = lemma_first_pass(s, platform);
        let (u, left) = run(s, platform, pass);
        lemma_pass_of_everyone(before);
        lemma_pass_of_everyone_counts(before);
        lemma_left_behind_distinct(None, before);
        let more = lemma_drain(u, left);
        let (v, end) = run(u, left, more);
        lemma_run_split(s, platform, pass, more);
        assert(enough_passes(s.passes_left, before) == enough_passes(u.passes_left, left.present));
        if enough_passes(s.passes_left, before) {
            assert forall|i: int| 0 <= i < before.len() implies end.arrived.contains(
                (#[trigger] before[i]).member,
            ) by {
                lemma_moved_or_left(before, i);
                if before[i].refusals == 0 {
                    let k = choose|k: int|
                        0 <= k < moved_out(None, before).len() && moved_out(None, before)[k]
                            == before[i].member;
                    assert(left.arrived[platform.arrived.len() + k] == before[i].member);
                    assert(end.arrived[platform.arrived.len() + k] == before[i].member);
                } else {
                    let k = choose|k: int|
                        0 <= k < names(left.present).len() && names(left.present)[k]
                            == before[i].member;
                    assert(left.present[k].member == before[i].member);
                }
            }
        }
        pass + more
    }
}

/// One pass moves those who may be moved and leaves the others where they
/// are.
///
/// Let a migration that awaits a listing meet a platform whose source is not
/// settled, while a pass may still be started. After some number of rounds
/// the pass is over and the migration awaits the next listing. The source
/// then holds [`left_behind`]: whoever may not be moved under the filter,
/// untouched and in place, and whoever the platform refused. The
/// destination has received [`moved_out`], in the order of the listing. One
/// pass has been used up.
pub proof fn law_pass_moves_who_may_be_moved(
    s: MigrationState,
    platform: Platform,
) -> (rounds: nat)
    requires
        s.wf(),
        s.phase is Listing,
        s.source == platform.source,
        s.destination == platform.destination,
        platform.wf(),
        !settled(s.filter, names(platform.present)),
        s.passes_left != Some(0u64),
    ensures
        ({
            let (t, after) = run(s, platform, rounds);
            &&& pending(t) == (Action::ListMembers {
                channel: s.source,
                delay_ms: s.limits.pass_delay_ms,
            })
            &&& t.passes_left == one_pass_less(s.passes_left)
            &&& after.present == left_behind(s.filter, platform.present)
            &&& after.arrived == platform.arrived + moved_out(s.filter, platform.present)
            &&& after.wf()
        }),
{
    lemma_left_behind_distinct(s.filter, platform.present);
    lemma_first_pass(s, platform)
}

/// A member whose move the platform reports as done is in the destination
/// and out of the source: when a round ends with `Moved`, the migration had
/// asked for the move of a member, that member is the latest to have
/// arrived in the destination, and the source no longer lists them.
pub proof fn law_moved_members_arrive(s: MigrationState, platform: Platform)
    requires
        s.destination == platform.destination,
        platform.wf(),
    ensures
        platform.respond(pending(s)).1 is Moved ==> {
            &&& pending(s) is MoveMember
            &&& round(s, platform).1.arrived == platform.arrived.push(pending(s)->member)
            &&& !names(round(s, platform).1.present).contains(pending(s)->member)
            &&& round(s, platform).1.wf()
        },
{
    if platform.respond(pending(s)).1 is Moved {
        let member = pending(s)->member;
        let present = platform.present;
        let at = place_of(present, member, 0);
        lemma_place_found(present, member, 0);
        let left = present.remove(at);
        assert forall|i: int| 0 <= i < left.len() implies (#[trigger] names(left)[i]) != member by {
            if i < at {
                assert(names(present)[i] == names(left)[i]);
            } else {
                assert(names(present)[i + 1] == names(left)[i]);
            }
            assert(names(present)[at] == member);
        }
        assert forall|i: int, j: int|
            0 <= i < names(left).len() && 0 <= j < names(left).len() && i != j implies names(
            left,
        )[i] != names(left)[j] by {
            let before_i = if i < at {
                i
            } else {
                i + 1
            };
            let before_j = if j < at {
                j
            } else {
                j + 1
            };
            assert(names(present)[before_i] == names(left)[i]);
            assert(names(present)[before_j] == names(left)[j]);
        }
    }
}

/// Who has arrived in the destination stays there: however long a migration
/// runs, those who were in the destination are still there, in front of
/// those who came later.
pub proof fn law_arrivals_stay(s: MigrationState, platform: Platform, rounds: nat)
    ensures
        platform.arrived.is_prefix_of(run(s, platform, rounds).1.arrived),
    decreases rounds,
{
    if rounds > 0 {
        let (next, after) = round(s, platform);
        law_arrivals_stay(next, after, (rounds - 1) as nat);
    }
}

/// A migration of everyone ends, and empties the source, whenever no member
/// is refused for ever and the passes are not cut short.
///
/// Take a platform on which each member who is in the source is refused
/// some number of times, any number, and is moved at the next try after
/// that. A migration of everyone then ends after some number of rounds.
/// With no bound on its passes, or a bound of at least [`passes_needed`],
/// it ends with success: nobody is left in the source, and everyone who was
/// in it is in the destination. With a smaller bound it ends with
/// `TimedOut`: a member whom the platform goes on refusing is found out,
/// not waited for.
pub proof fn law_drain_empties_source(
    source: u64,
    destination: u64,
    limits: Limits,
    platform: Platform,
) -> (rounds: nat)
    requires
        platform.source == source,
        platform.destination == destination,
        platform.wf(),
    ensures
        drained(
            platform,
            limits.max_passes,
            run(initial(source, destination, None, limits), platform, rounds),
        ),
{
    lemma_drain(initial(source, destination, None, limits), platform)
}

} // verus!
