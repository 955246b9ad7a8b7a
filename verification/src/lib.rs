//! Group-chat administration bot core: a conversation state machine that
//! interprets inbound chat events against per-conversation dialogue state,
//! in-memory models of the bot's stores (admins, messages, groups, scheduled
//! pushes), and a scheduler that matches the wall clock against the stored
//! push times once per minute.

use vstd::prelude::*;

pub mod commands;
pub mod my_handler;
pub mod scheduler;
pub mod service;
pub mod text;
pub mod timefmt;

verus! {

/// Dialogue state of one conversation, persisted between inbound events.
///
/// Every variant other than `Menu` carries exactly the data needed to finish
/// the operation in flight; an event that does not fit the current state
/// resets the conversation to `Menu` instead of failing.
#[derive(Clone, Debug, PartialEq)]
pub enum State {
    /// Idle: no multi-step operation in flight.
    Menu,
    /// Admin management menu is open.
    Admin,
    /// An admin entry was selected; the payload is its external user id.
    AdminChoose(String),
    /// Waiting for the new display name of the selected admin.
    AdminRename(String),
    /// Waiting for an "id name" line describing the admin to add.
    AdminAdd,
    /// Waiting for the body text of a new polling message.
    AddPollingMsg,
    /// Waiting for the title; the payload is the body entered before.
    AddPollingTitle(String),
    /// Waiting for the new welcome-message text.
    SetWelcomeMsg,
    /// Group list is open, none selected yet.
    Group,
    /// A group was selected.
    GroupChoose { group_db_id: i64, group_name: String },
    /// A group and a catalog message were selected; waiting for the push time.
    GroupPushMsg { group_db_id: i64, group_name: String, msg_db_id: i64 },
}

impl Default for State {
    fn default() -> (r: Self)
        ensures
            r == State::Menu,
    {
        State::Menu
    }
}

impl State {
    /// Copies the state; the copy equals the original.
    pub fn duplicate(&self) -> (r: State)
        ensures
            r == *self,
    {
        match self {
            State::Menu => State::Menu,
            State::Admin => State::Admin,
            State::AdminChoose(uid) => State::AdminChoose(uid.clone()),
            State::AdminRename(uid) => State::AdminRename(uid.clone()),
            State::AdminAdd => State::AdminAdd,
            State::AddPollingMsg => State::AddPollingMsg,
            State::AddPollingTitle(body) => State::AddPollingTitle(body.clone()),
            State::SetWelcomeMsg => State::SetWelcomeMsg,
            State::Group => State::Group,
            State::GroupChoose { group_db_id, group_name } => State::GroupChoose {
                group_db_id: *group_db_id,
                group_name: group_name.clone(),
            },
            State::GroupPushMsg { group_db_id, group_name, msg_db_id } => State::GroupPushMsg {
                group_db_id: *group_db_id,
                group_name: group_name.clone(),
                msg_db_id: *msg_db_id,
            },
        }
    }
}

} // verus!
