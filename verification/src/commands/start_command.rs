//! Transitions for the admin-only commands: they gate on the caller's
//! admin flag and open the management menus.

use vstd::prelude::*;
use crate::my_handler::{Caller, Effect, Transition};
use crate::service::group::Group;
use crate::service::user::User;
use crate::commands::AdminCommand;
use crate::State;

verus! {

/// What each admin command does: denied outright for non-admins; otherwise
/// a menu is opened, and the group command moves the dialogue into the
/// group flow when any group is registered.
pub open spec fn admin_enter_post(
    cmd: AdminCommand,
    caller: Caller,
    st: State,
    users: User,
    groups: Group,
    t: Transition,
) -> bool {
    if !users.spec_is_admin(caller.user_id@) {
        t.next == st && t.effect is AccessDenied
    } else {
        match cmd {
            AdminCommand::Admins => t.next == st && t.effect is AdminMenu,
            AdminCommand::HiMsg => t.next == st && t.effect is HiMsgMenu,
            AdminCommand::PollMsg => t.next == st && t.effect is PollMsgMenu,
            AdminCommand::Group => group_menu_post(st, groups, t),
        }
    }
}

/// Opening the group flow: with no registered group the dialogue stays
/// put; otherwise it enters the group list, carrying every registered
/// group for display.
pub open spec fn group_menu_post(st: State, groups: Group, t: Transition) -> bool {
    if groups.rows().len() == 0 {
        t.next == st && t.effect is NoGroups
    } else {
        &&& t.next == State::Group
        &&& t.effect matches Effect::GroupList(l) && l@ == groups.rows()
    }
}

/// Handles one admin command.
pub fn enter(
    cmd: AdminCommand,
    caller: &Caller,
    state: &State,
    users: &User,
    groups: &Group,
) -> (t: Transition)
    ensures
        admin_enter_post(cmd, *caller, *state, *users, *groups, t),
{
    if !users.is_admin(caller.user_id.as_str()) {
        return Transition { next: state.duplicate(), effect: Effect::AccessDenied };
    }
    match cmd {
        AdminCommand::Admins => Transition { next: state.duplicate(), effect: Effect::AdminMenu },
        AdminCommand::HiMsg => Transition { next: state.duplicate(), effect: Effect::HiMsgMenu },
        AdminCommand::PollMsg => Transition {
            next: state.duplicate(),
            effect: Effect::PollMsgMenu,
        },
        AdminCommand::Group => group_menu(state, groups),
    }
}

/// The group command: list the registered groups, or report that the bot
/// has joined none yet.
pub fn group_menu(state: &State, groups: &Group) -> (t: Transition)
    ensures
        group_menu_post(*state, *groups, t),
{
    let all = groups.all();
    if all.len() == 0 {
        Transition { next: state.duplicate(), effect: Effect::NoGroups }
    } else {
        Transition { next: State::Group, effect: Effect::GroupList(all) }
    }
}

} // verus!
