//! In-memory models of the bot's persisted stores: the admin directory,
//! the message catalog, the group registry and the schedule store. Each
//! mutator states exactly how it changes the rows it owns.

pub mod group;
pub mod msg;
pub mod polling_msg;
pub mod user;
