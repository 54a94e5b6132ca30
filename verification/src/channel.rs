//! Channels and members, reduced to what a migration reads of them.

use vstd::prelude::*;

verus! {

/// The kind of a channel, as the platform reports it.
#[derive(Clone, Copy, Debug, PartialEq, Eq, Structural)]
pub enum ChannelKind {
    Text,
    Private,
    Voice,
    Category,
    News,
    Store,
    NewsThread,
    PublicThread,
    PrivateThread,
    Stage,
    Unknown,
}

impl ChannelKind {
    /// Whether members can be moved into and out of a channel of this kind.
    /// Only plain voice channels qualify; a stage channel does not.
    pub open spec fn voice_capable(self) -> bool {
        self == ChannelKind::Voice
    }

    /// Executable form of [`ChannelKind::voice_capable`].
    pub fn is_voice_capable(self) -> (capable: bool)
        ensures
            capable == self.voice_capable(),
    {
        self == ChannelKind::Voice
    }
}

/// A channel of the platform: its identity and its kind. The platform owns
/// the channel; a migration only refers to it.
#[derive(Clone, Copy, Debug, PartialEq, Eq, Structural)]
pub struct GroupChannel {
    pub id: u64,
    pub kind: ChannelKind,
}

impl GroupChannel {
    /// A handle for the channel `id` of the given kind.
    pub fn new(id: u64, kind: ChannelKind) -> (channel: GroupChannel)
        ensures
            channel.id == id,
            channel.kind == kind,
    {
        GroupChannel { id, kind }
    }

    /// Whether this channel can take part in a migration.
    pub fn is_voice(&self) -> (voice: bool)
        ensures
            voice == self.kind.voice_capable(),
    {
        self.kind.is_voice_capable()
    }
}

/// A participant, known by identity alone. Two values with the same `id` are
/// the same member, whenever and wherever they were observed.
#[derive(Clone, Copy, Debug, PartialEq, Eq, Hash, Structural)]
pub struct Member {
    pub id: u64,
}

impl Member {
    /// The member with identity `id`.
    pub fn new(id: u64) -> (member: Member)
        ensures
            member.id == id,
    {
        Member { id }
    }
}

} // verus!
