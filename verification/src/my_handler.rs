//! The conversation state machine: one entry point that maps an inbound
//! chat event and the conversation's current dialogue state to the next
//! state, at most one store mutation and at most one outbound directive.

pub mod admin;
pub mod callback_query;
pub mod group_event;
pub mod group_set;
pub mod poll_message;
pub mod welcome_message;

use vstd::prelude::*;
use vstd::string::StrSliceExecFns;
use crate::commands::{spec_parse_admin_command, spec_parse_command};
use crate::my_handler::callback_query::spec_parse_callback;
use crate::service::group::{Group, GroupInfo};
use crate::service::msg::{Message, Msg};
use crate::service::polling_msg::{PollingMsg, PollingMsgDb};
use crate::service::user::{Admin, User};
use crate::State;

verus! {

/// Who sent the event: the external user id and a display name for them.
pub struct Caller {
    pub user_id: String,
    pub user_name: String,
}

/// An inbound chat event: a line of text (a slash command or a free-text
/// reply) or a callback token from an interactive element. Both are parsed
/// here, once, at the boundary; the transition rules never split strings.
pub enum Event {
    Text(String),
    Callback(String),
}

/// The single outbound directive a transition may carry. Rendering (button
/// layouts, exact wording) belongs to the host; the directive carries the
/// data the rendering needs and nothing else.
#[derive(Debug)]
pub enum Effect {
    /// Nothing to send.
    Silent,
    /// The public command list.
    HelpText,
    /// The dialogue was ended by /cancel.
    SessionEnded,
    /// The caller asked who they are.
    WhoamiInfo,
    /// An admin opened the bot: the admin command list.
    AdminCommandMenu,
    /// A non-admin opened the bot while an admin exists.
    AccessRestricted,
    /// The caller just became the first admin.
    AdminGranted,
    /// The bootstrap grant failed in the store.
    AdminGrantFailed,
    /// An admin-only command from a non-admin.
    AccessDenied,
    /// The admin management menu.
    AdminMenu,
    /// The welcome-message menu.
    HiMsgMenu,
    /// The polling-message menu.
    PollMsgMenu,
    /// The group list, one selectable entry per registered group.
    GroupList(Vec<GroupInfo>),
    /// The bot is in no group yet.
    NoGroups,
    /// The admin directory, one selectable entry per row.
    AdminList(Vec<Admin>),
    /// Actions for the selected admin.
    AdminChoseMenu,
    /// The selected admin's flag was revoked.
    AdminDeleted,
    /// No active admin row matched the selected id.
    AdminDeleteFailed,
    /// Ask for the selected admin's new name.
    PromptNewName,
    /// The rename was applied.
    AdminRenamed,
    /// No row matched the id to rename.
    AdminRenameFailed,
    /// Ask for "id name" of the admin to add.
    PromptAdminIdName,
    /// The reply did not hold exactly two tokens.
    AdminAddInvalidFormat,
    /// The new admin row was inserted.
    AdminAdded,
    /// The id already had a row, or the store refused the insert.
    AdminAddFailed,
    /// Ask for the welcome text.
    PromptWelcomeText,
    /// The welcome text was stored.
    WelcomeSaved,
    /// The store refused the welcome text.
    WelcomeSaveFailed,
    /// The currently stored welcome text.
    CurrentWelcome(String),
    /// Ask for the body of a new polling message.
    PromptPollingBody,
    /// Ask for its title.
    PromptPollingTitle,
    /// The reply was empty after trimming; ask again.
    EmptyInput,
    /// The polling message was added to the catalog.
    PollingAdded,
    /// The catalog refused the new polling message.
    PollingAddFailed,
    /// The polling messages, for display.
    PollList(Vec<Message>),
    /// The catalog holds no polling message yet.
    NoPollMessages,
    /// The menu of one selected group.
    GroupMenu,
    /// The polling messages, one selectable entry each.
    PollMessageOptions(Vec<Message>),
    /// Ask for the push time of day.
    PromptTime,
    /// The reply was not a well-formed `HH:MM` time; ask again.
    BadTimeFormat,
    /// The schedule entry was stored.
    PushSaved,
    /// The schedule store refused the entry.
    PushSaveFailed,
    /// The group's schedule entries, one deletable entry each.
    PushList(Vec<PollingMsg>),
    /// The schedule entry was deleted.
    PushDeleted,
    /// No schedule entry had the selected id.
    PushDeleteFailed,
    /// The operation was cancelled.
    Cancelled,
    /// The stored dialogue state did not fit the event; the dialogue was
    /// reset defensively.
    StateReset,
    /// The callback token matched no known shape.
    UnroutableCallback,
    /// A slash command that is not in the command set.
    InvalidCommand,
    /// Greet a newly joined member with the stored welcome text.
    GreetMember { first_name: String, welcome_text: String },
    /// The bot was added to a group: greet the group. The host records the
    /// group in the registry once the greeting was actually delivered.
    GroupJoinGreeting,
}

/// One transition's outcome: the dialogue state to persist and the
/// directive to emit.
#[derive(Debug)]
pub struct Transition {
    pub next: State,
    pub effect: Effect,
}

/// A line of text is treated as a command exactly when it opens with '/'.
pub open spec fn is_command_text(s: Seq<char>) -> bool {
    s.len() > 0 && s[0] == '/'
}

/// What `handle_event` promises: the relation between the pre-states of
/// the stores, the event, and the transition plus post-states.
pub open spec fn handle_event_post(
    st: State,
    caller: Caller,
    event: Event,
    pre_users: User,
    post_users: User,
    pre_msgs: Msg,
    post_msgs: Msg,
    pre_groups: Group,
    post_groups: Group,
    pre_sched: PollingMsgDb,
    post_sched: PollingMsgDb,
    t: Transition,
) -> bool {
    match event {
        Event::Text(text) => match spec_parse_command(text@) {
            Some(cmd) => {
                &&& post_msgs == pre_msgs
                &&& post_groups == pre_groups
                &&& post_sched == pre_sched
                &&& crate::commands::answer::answer_post(cmd, caller, st, pre_users, post_users, t)
            },
            None => match spec_parse_admin_command(text@) {
                Some(acmd) => {
                    &&& post_users == pre_users
                    &&& post_msgs == pre_msgs
                    &&& post_groups == pre_groups
                    &&& post_sched == pre_sched
                    &&& crate::commands::start_command::admin_enter_post(
                        acmd,
                        caller,
                        st,
                        pre_users,
                        pre_groups,
                        t,
                    )
                },
                None => {
                    &&& post_groups == pre_groups
                    &&& dialogue_text_post(
                        st,
                        text@,
                        pre_users,
                        post_users,
                        pre_msgs,
                        post_msgs,
                        pre_sched,
                        post_sched,
                        t,
                    )
                },
            },
        },
        Event::Callback(token) => {
            &&& post_msgs == pre_msgs
            &&& callback_query::callback_post(
                spec_parse_callback(token@),
                st,
                pre_users,
                post_users,
                pre_msgs,
                pre_groups,
                post_groups,
                pre_sched,
                post_sched,
                t,
            )
        },
    }
}

/// What a free-text reply does, by the dialogue state it arrives in.
pub open spec fn dialogue_text_post(
    st: State,
    text: Seq<char>,
    pre_users: User,
    post_users: User,
    pre_msgs: Msg,
    post_msgs: Msg,
    pre_sched: PollingMsgDb,
    post_sched: PollingMsgDb,
    t: Transition,
) -> bool {
    match st {
        State::SetWelcomeMsg => {
            &&& post_users == pre_users
            &&& post_sched == pre_sched
            &&& welcome_message::set_welcome_post(text, pre_msgs, post_msgs, t)
        },
        State::AddPollingMsg => {
            &&& post_users == pre_users
            &&& post_msgs == pre_msgs
            &&& post_sched == pre_sched
            &&& poll_message::add_body_post(text, t)
        },
        State::AddPollingTitle(body) => {
            &&& post_users == pre_users
            &&& post_sched == pre_sched
            &&& poll_message::add_title_post(body@, text, pre_msgs, post_msgs, t)
        },
        State::AdminRename(uid) => {
            &&& post_msgs == pre_msgs
            &&& post_sched == pre_sched
            &&& admin::rename_submit_post(uid@, text, pre_users, post_users, t)
        },
        State::AdminAdd => {
            &&& post_msgs == pre_msgs
            &&& post_sched == pre_sched
            &&& admin::add_submit_post(text, pre_users, post_users, t)
        },
        State::GroupPushMsg { group_db_id, group_name, msg_db_id } => {
            &&& post_users == pre_users
            &&& post_msgs == pre_msgs
            &&& group_set::push_datetime_post(
                group_db_id as int,
                group_name@,
                msg_db_id as int,
                text,
                pre_sched,
                post_sched,
                t,
            )
        },
        _ => {
            &&& post_users == pre_users
            &&& post_msgs == pre_msgs
            &&& post_sched == pre_sched
            &&& t.next == st
            &&& if is_command_text(text) {
                t.effect is InvalidCommand
            } else {
                t.effect is Silent
            }
        },
    }
}

/// The single entry point for inbound chat events. Every event yields
/// exactly one transition; no input makes it fail.
pub fn handle_event(
    state: &State,
    caller: &Caller,
    event: Event,
    users: &mut User,
    msgs: &mut Msg,
    groups: &mut Group,
    schedule: &mut PollingMsgDb,
) -> (t: Transition)
    requires
        old(users).wf(),
        old(msgs).wf(),
        old(groups).wf(),
        old(schedule).wf(),
    ensures
        final(users).wf(),
        final(msgs).wf(),
        final(groups).wf(),
        final(schedule).wf(),
        handle_event_post(
            *state,
            *caller,
            event,
            *old(users),
            *final(users),
            *old(msgs),
            *final(msgs),
            *old(groups),
            *final(groups),
            *old(schedule),
            *final(schedule),
            t,
        ),
{
    match event {
        Event::Text(text) => {
            if let Some(cmd) = crate::commands::parse_command(text.as_str()) {
                crate::commands::answer::enter(cmd, caller, state, users)
            } else if let Some(acmd) = crate::commands::parse_admin_command(text.as_str()) {
                crate::commands::start_command::enter(acmd, caller, state, users, groups)
            } else {
                dialogue_text(state, text.as_str(), users, msgs, schedule)
            }
        },
        Event::Callback(token) => {
            let action = callback_query::parse_callback(token.as_str());
            callback_query::enter(action, state, users, msgs, groups, schedule)
        },
    }
}

/// Routes a free-text reply by the dialogue state it arrives in.
fn dialogue_text(
    state: &State,
    text: &str,
    users: &mut User,
    msgs: &mut Msg,
    schedule: &mut PollingMsgDb,
) -> (t: Transition)
    requires
        old(users).wf(),
        old(msgs).wf(),
        old(schedule).wf(),
    ensures
        final(users).wf(),
        final(msgs).wf(),
        final(schedule).wf(),
        dialogue_text_post(
            *state,
            text@,
            *old(users),
            *final(users),
            *old(msgs),
            *final(msgs),
            *old(schedule),
            *final(schedule),
            t,
        ),
{
    match state {
        State::SetWelcomeMsg => welcome_message::handle_set_welcome_msg(msgs, text),
        State::AddPollingMsg => poll_message::add_poll_message(text),
        State::AddPollingTitle(body) => poll_message::add_poll_message_title(msgs, body, text),
        State::AdminRename(uid) => admin::rename_admin_submit(users, uid, text),
        State::AdminAdd => admin::add_admin_submit(users, text),
        State::GroupPushMsg { group_db_id, group_name, msg_db_id } => {
            group_set::handle_group_push_datetime(
                schedule,
                *group_db_id,
                group_name,
                *msg_db_id,
                text,
            )
        },
        _ => {
            let slash = text.unicode_len() > 0 && text.get_char(0) == '/';
            let effect = if slash {
                Effect::InvalidCommand
            } else {
                Effect::Silent
            };
            Transition { next: state.duplicate(), effect }
        },
    }
}

} // verus!
