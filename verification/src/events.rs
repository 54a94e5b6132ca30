//! What is decided when the platform reports a message, a change of
//! nickname or a deleted message. Sending the answer is left to the caller.

use vstd::prelude::*;

verus! {

/// A command that a message can give.
#[derive(Clone, Copy, Debug, PartialEq, Eq, Structural)]
pub enum Command {
    Ping,
    Help,
    Start,
    End,
    SendId,
}

impl Command {
    /// The bytes that a message starts with to give this command: `!ping`,
    /// `!help`, `!start`, `!end` and `!sendid`.
    pub open spec fn word(self) -> Seq<u8> {
        match self {
            Command::Ping => seq![33u8, 112u8, 105u8, 110u8, 103u8],
            Command::Help => seq![33u8, 104u8, 101u8, 108u8, 112u8],
            Command::Start => seq![33u8, 115u8, 116u8, 97u8, 114u8, 116u8],
            Command::End => seq![33u8, 101u8, 110u8, 100u8],
            Command::SendId => seq![33u8, 115u8, 101u8, 110u8, 100u8, 105u8, 100u8],
        }
    }

    /// Whether the command is obeyed in the control centre only. The two
    /// commands that move members are.
    pub open spec fn restricted(self) -> bool {
        self is Start || self is End
    }

    /// Whether the command is obeyed when it is given in `channel`.
    pub fn allowed_in(self, channel: u64, control_centre: u64) -> (allowed: bool)
        ensures
            allowed == (self.restricted() ==> channel == control_centre),
    {
        match self {
            Command::Start => channel == control_centre,
            Command::End => channel == control_centre,
            _ => true,
        }
    }
}

/// The command that a message with the bytes `content` gives: the one whose
/// word the message starts with, and none where it starts with no word.
pub open spec fn command_of(content: Seq<u8>) -> Option<Command> {
    if Command::Ping.word().is_prefix_of(content) {
        Some(Command::Ping)
    } else if Command::Help.word().is_prefix_of(content) {
        Some(Command::Help)
    } else if Command::Start.word().is_prefix_of(content) {
        Some(Command::Start)
    } else if Command::End.word().is_prefix_of(content) {
        Some(Command::End)
    } else if Command::SendId.word().is_prefix_of(content) {
        Some(Command::SendId)
    } else {
        None
    }
}

/// Whether `content` starts with `word`.
fn has_prefix<const N: usize>(content: &[u8], word: &[u8; N]) -> (found: bool)
    ensures
        found == word@.is_prefix_of(content@),
{
    if content.len() < N {
        return false;
    }
    let mut i: usize = 0;
    while i < N
        invariant
            i <= N <= content.len(),
            forall|k: int| 0 <= k < i ==> content@[k] == word@[k],
        decreases N - i,
    {
        if content[i] != word[i] {
            return false;
        }
        i += 1;
    }
    assert(word@ =~= content@.subrange(0, N as int));
    true
}

/// Reads the command that a message gives from the bytes of its text.
pub fn parse_command(content: &[u8]) -> (command: Option<Command>)
    ensures
        command == command_of(content@),
{
    let ping: [u8; 5] = [33, 112, 105, 110, 103];
    let help: [u8; 5] = [33, 104, 101, 108, 112];
    let start: [u8; 6] = [33, 115, 116, 97, 114, 116];
    let end: [u8; 4] = [33, 101, 110, 100];
    let send_id: [u8; 7] = [33, 115, 101, 110, 100, 105, 100];
    assert(ping@ =~= Command::Ping.word());
    assert(help@ =~= Command::Help.word());
    assert(start@ =~= Command::Start.word());
    assert(end@ =~= Command::End.word());
    assert(send_id@ =~= Command::SendId.word());
    if has_prefix(content, &ping) {
        Some(Command::Ping)
    } else if has_prefix(content, &help) {
        Some(Command::Help)
    } else if has_prefix(content, &start) {
        Some(Command::Start)
    } else if has_prefix(content, &end) {
        Some(Command::End)
    } else if has_prefix(content, &send_id) {
        Some(Command::SendId)
    } else {
        None
    }
}

/// A nickname as specifications see it.
pub open spec fn nick_view(nick: Option<String>) -> Option<Seq<char>> {
    match nick {
        None => None,
        Some(name) => Some(name@),
    }
}

/// The two names that a change of nickname is announced with, the name
/// shown before and the name shown after: a member is shown under their
/// nickname, and under their user name where they have none. Nothing is
/// announced where the nickname is what it was, or where there is none
/// before and none after.
pub open spec fn announced_names(
    old_nick: Option<Seq<char>>,
    old_name: Seq<char>,
    new_nick: Option<Seq<char>>,
    new_name: Seq<char>,
) -> Option<(Seq<char>, Seq<char>)> {
    match (old_nick, new_nick) {
        (None, None) => None,
        (None, Some(after)) => Some((old_name, after)),
        (Some(before), None) => Some((before, new_name)),
        (Some(before), Some(after)) => if before == after {
            None
        } else {
            Some((before, after))
        },
    }
}

/// What is announced when a member's nickname may have changed: see
/// [`announced_names`].
pub fn nickname_notice(
    old_nick: Option<String>,
    old_name: String,
    new_nick: Option<String>,
    new_name: String,
) -> (notice: Option<(String, String)>)
    ensures
        notice is None <==> announced_names(
            nick_view(old_nick),
            old_name@,
            nick_view(new_nick),
            new_name@,
        ) is None,
        notice matches Some(shown) ==> announced_names(
            nick_view(old_nick),
            old_name@,
            nick_view(new_nick),
            new_name@,
        ) == Some((shown.0@, shown.1@)),
{
    match (old_nick, new_nick) {
        (None, None) => None,
        (None, Some(after)) => Some((old_name, after)),
        (Some(before), None) => Some((before, new_name)),
        (Some(before), Some(after)) => if before == after {
            None
        } else {
            Some((before, after))
        },
    }
}

/// Whether `channel` is among the channels whose deleted messages are not
/// reported.
pub fn channel_ignored(ignored: &Vec<String>, channel: &String) -> (found: bool)
    ensures
        found == exists|i: int| 0 <= i < ignored.len() && ignored[i]@ == channel@,
{
    let mut i: usize = 0;
    while i < ignored.len()
        invariant
            i <= ignored.len(),
            forall|k: int| 0 <= k < i ==> ignored[k]@ != channel@,
        decreases ignored.len() - i,
    {
        if ignored[i] == *channel {
            return true;
        }
        i += 1;
    }
    false
}

/// How the deletion of a message is reported.
#[derive(Clone, Copy, Debug, PartialEq, Eq, Structural)]
pub enum DeletionNotice {
    /// The message is not known any more: only the channel and the latest
    /// moderator are named.
    Uncached,
    /// The author deleted their own message.
    ByAuthor,
    /// Someone else deleted the message, possibly the latest moderator.
    ByOther,
}

/// How the deletion of a message is reported, given the author of the
/// message, where the message is still known, and the member whom the latest
/// deletion by a moderator was aimed at. A moderator's deletion aimed at
/// the author is taken to be this one; any other means that the author
/// deleted the message themselves.
///
/// For a message that is still known, the latest deletion by a moderator
/// must name whom it was aimed at.
pub fn deletion_notice(author: Option<u64>, audit_target: Option<u64>) -> (notice: DeletionNotice)
    requires
        author is Some ==> audit_target is Some,
    ensures
        notice == match author {
            None => DeletionNotice::Uncached,
            Some(id) => if audit_target != Some(id) {
                DeletionNotice::ByAuthor
            } else {
                DeletionNotice::ByOther
            },
        },
{
    match (author, audit_target) {
        (Some(id), Some(target)) => if target != id {
            DeletionNotice::ByAuthor
        } else {
            DeletionNotice::ByOther
        },
        _ => DeletionNotice::Uncached,
    }
}

} // verus!
