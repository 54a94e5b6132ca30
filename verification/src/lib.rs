//! Bulk migration of voice-channel members, as a verified state machine.
//!
//! The platform that hosts the channels is reached only through two remote
//! operations: listing who is in a channel, and moving one member to another
//! channel. Neither can be performed from here. The library therefore holds
//! the decisions and leaves the remote work to its caller: a [`Migration`]
//! names the next [`Action`], the caller performs it and reports what came
//! back as an [`Event`], and [`Migration::advance`] answers with the action
//! after that.
//!
//! - [`channel`], [`filter`] and [`protocol`] hold the values that a
//!   migration works with.
//! - [`machine`] states the rules of a migration as a transition function,
//!   and [`migration`] is the executable machine that follows it.
//! - [`laws`] proves what holds of every migration, and [`platform`] what a
//!   migration achieves against a platform that keeps its word.
//! - [`events`] holds the smaller decisions that are taken when the platform
//!   reports a message, a change of nickname or a deleted message.

pub mod channel;
pub mod events;
pub mod filter;
pub mod laws;
pub mod machine;
pub mod migration;
pub mod platform;
pub mod protocol;

pub use channel::{ChannelKind, GroupChannel, Member};
pub use filter::FilterSet;
pub use migration::{move_vc, move_vc_filtered, Migration};
pub use protocol::{Action, Event, FailedMove, Limits, MigrationError, MoveFailure, Phase};
