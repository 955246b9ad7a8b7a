//! Transitions for the public commands. The start command carries the
//! bootstrap rule: while no admin exists, the first caller to start the
//! bot is granted the admin flag.

use vstd::prelude::*;
use crate::my_handler::{Caller, Effect, Transition};
use crate::service::user::User;
use crate::commands::Command;
use crate::State;

verus! {

/// What the start command does: an admin is shown the admin command list;
/// while no admin exists the caller is granted the flag (unless a row for
/// them already exists or the store refuses); anyone else is turned away.
/// The dialogue state is never changed by it.
pub open spec fn start_post(caller: Caller, st: State, pre: User, post: User, t: Transition) -> bool {
    &&& t.next == st
    &&& if pre.spec_is_admin(caller.user_id@) {
        post == pre && t.effect is AdminCommandMenu
    } else if pre.spec_has_admin() {
        post == pre && t.effect is AccessRestricted
    } else if !pre.spec_has_user(caller.user_id@) && pre.can_assign() {
        &&& t.effect is AdminGranted
        &&& post.spec_is_admin(caller.user_id@)
        &&& post.rows().len() == pre.rows().len() + 1
        &&& post.rows().take(pre.rows().len() as int) == pre.rows()
        &&& post.rows().last().user_id@ == caller.user_id@
        &&& post.rows().last().user_name@ == caller.user_name@
        &&& post.rows().last().is_admin
    } else {
        post == pre && t.effect is AdminGrantFailed
    }
}

/// What each public command does.
pub open spec fn answer_post(
    cmd: Command,
    caller: Caller,
    st: State,
    pre: User,
    post: User,
    t: Transition,
) -> bool {
    match cmd {
        Command::Help => post == pre && t.next == st && t.effect is HelpText,
        Command::Start => start_post(caller, st, pre, post, t),
        Command::Cancel => post == pre && t.next == State::Menu && t.effect is SessionEnded,
        Command::Whoami => post == pre && t.next == st && t.effect is WhoamiInfo,
    }
}

/// Law: in the idle state, while the directory holds no admin and no row
/// for the caller, a start event always grants the caller the admin flag
/// and leaves the dialogue idle.
pub proof fn lemma_first_start_grants_admin(caller: Caller, pre: User, post: User, t: Transition)
    requires
        start_post(caller, State::Menu, pre, post, t),
        !pre.spec_has_admin(),
        !pre.spec_has_user(caller.user_id@),
        pre.can_assign(),
    ensures
        post.spec_is_admin(caller.user_id@),
        t.next == State::Menu,
        t.effect is AdminGranted,
{
    if pre.spec_is_admin(caller.user_id@) {
        let i = choose|i: int|
            0 <= i < pre.rows().len() && (#[trigger] pre.rows()[i]).user_id@ == caller.user_id@
                && pre.rows()[i].is_admin;
        assert(pre.rows()[i].is_admin);
        assert(false);
    }
}

/// Law: once any admin exists, a start event from a caller who is not an
/// admin never grants anything: the directory is left exactly as it was
/// and access is refused.
pub proof fn lemma_start_after_admin_grants_nothing(
    caller: Caller,
    st: State,
    pre: User,
    post: User,
    t: Transition,
)
    requires
        start_post(caller, st, pre, post, t),
        pre.spec_has_admin(),
        !pre.spec_is_admin(caller.user_id@),
    ensures
        post == pre,
        t.next == st,
        t.effect is AccessRestricted,
{
}

/// Handles one public command.
pub fn enter(cmd: Command, caller: &Caller, state: &State, users: &mut User) -> (t: Transition)
    requires
        old(users).wf(),
    ensures
        final(users).wf(),
        answer_post(cmd, *caller, *state, *old(users), *final(users), t),
{
    match cmd {
        Command::Help => Transition { next: state.duplicate(), effect: Effect::HelpText },
        Command::Start => start_command_init(caller, state, users),
        Command::Cancel => Transition { next: State::Menu, effect: Effect::SessionEnded },
        Command::Whoami => Transition { next: state.duplicate(), effect: Effect::WhoamiInfo },
    }
}

/// The start command. An admin is welcomed back with the admin command
/// list; otherwise, while the directory has no admin yet, the caller is
/// granted the flag; once an admin exists everyone else is turned away.
pub fn start_command_init(caller: &Caller, state: &State, users: &mut User) -> (t: Transition)
    requires
        old(users).wf(),
    ensures
        final(users).wf(),
        start_post(*caller, *state, *old(users), *final(users), t),
{
    if users.is_admin(caller.user_id.as_str()) {
        return Transition { next: state.duplicate(), effect: Effect::AdminCommandMenu };
    }
    if users.has_admin() {
        return Transition { next: state.duplicate(), effect: Effect::AccessRestricted };
    }
    let granted = users.add_admin(caller.user_id.as_str(), caller.user_name.as_str());
    if granted {
        Transition { next: state.duplicate(), effect: Effect::AdminGranted }
    } else {
        Transition { next: state.duplicate(), effect: Effect::AdminGrantFailed }
    }
}

} // verus!
