//! Group-flow transitions: choosing a group, attaching a catalog message
//! to it at a time of day, viewing its pushes and deleting one. Adding a
//! push returns to the group's menu, not all the way to the idle state, so
//! several pushes can be added without re-navigating.

use vstd::prelude::*;
use crate::my_handler::{Effect, Transition};
use crate::service::group::Group;
use crate::service::msg::{polling_rows, Msg};
use crate::service::polling_msg::{group_rows, join_row, without_entry_id, PollingMsg, PollingMsgDb, ScheduleError};
use crate::timefmt::valid_time;
use crate::State;

verus! {

/// A group was selected: enter its menu.
pub fn show_group_menu(group_db_id: i64, group_name: String) -> (t: Transition)
    ensures
        t.next matches State::GroupChoose { group_db_id: g, group_name: nm } && g == group_db_id
            && nm@ == group_name@,
        t.effect is GroupMenu,
{
    Transition {
        next: State::GroupChoose { group_db_id, group_name },
        effect: Effect::GroupMenu,
    }
}

/// Back to the group list: offer every registered group, or leave the
/// flow when there is none.
pub open spec fn group_buttons_post(groups: Group, t: Transition) -> bool {
    if groups.rows().len() == 0 {
        t.next == State::Menu && t.effect is NoGroups
    } else {
        &&& t.next == State::Group
        &&& t.effect matches Effect::GroupList(l) && l@ == groups.rows()
    }
}

/// Shows the group list again.
pub fn show_group_buttons(groups: &Group) -> (t: Transition)
    ensures
        group_buttons_post(*groups, t),
{
    let all = groups.all();
    if all.len() == 0 {
        Transition { next: State::Menu, effect: Effect::NoGroups }
    } else {
        Transition { next: State::Group, effect: Effect::GroupList(all) }
    }
}

/// Adding a push first lists the catalog's polling messages; arriving here
/// without a selected group resets the dialogue defensively.
pub open spec fn add_push_post(st: State, msgs: Msg, t: Transition) -> bool {
    match st {
        State::GroupChoose { group_db_id, group_name } => {
            &&& t.next == st
            &&& t.effect matches Effect::PollMessageOptions(l) && l@ == polling_rows(msgs.rows())
        },
        _ => t.next == State::Menu && t.effect is StateReset,
    }
}

/// Starts adding a push to the selected group.
pub fn group_add_push(msgs: &Msg, state: &State) -> (t: Transition)
    ensures
        add_push_post(*state, *msgs, t),
{
    match state {
        State::GroupChoose { group_db_id, group_name } => Transition {
            next: state.duplicate(),
            effect: Effect::PollMessageOptions(msgs.all()),
        },
        _ => Transition { next: State::Menu, effect: Effect::StateReset },
    }
}

/// A catalog message was picked: remember it with the group and ask for
/// the time of day.
pub open spec fn msg_choose_post(st: State, msg_db_id: int, t: Transition) -> bool {
    match st {
        State::GroupChoose { group_db_id, group_name } => {
            &&& t.next matches State::GroupPushMsg { group_db_id: g, group_name: nm, msg_db_id: m }
                && g == group_db_id && nm@ == group_name@ && m as int == msg_db_id
            &&& t.effect is PromptTime
        },
        _ => t.next == State::Menu && t.effect is StateReset,
    }
}

/// Handles the message choice within the group flow.
pub fn group_msg_choose(state: &State, msg_db_id: i64) -> (t: Transition)
    ensures
        msg_choose_post(*state, msg_db_id as int, t),
{
    match state {
        State::GroupChoose { group_db_id, group_name } => Transition {
            next: State::GroupPushMsg {
                group_db_id: *group_db_id,
                group_name: group_name.clone(),
                msg_db_id,
            },
            effect: Effect::PromptTime,
        },
        _ => Transition { next: State::Menu, effect: Effect::StateReset },
    }
}

/// What the time-of-day reply does: a malformed time is reported and the
/// dialogue stays put for a retry; a well-formed time stores the entry and
/// returns to the group's menu, unless the store refuses, which is
/// reported with the dialogue left unchanged.
pub open spec fn push_datetime_post(
    group_db_id: int,
    group_name: Seq<char>,
    msg_db_id: int,
    text: Seq<char>,
    pre: PollingMsgDb,
    post: PollingMsgDb,
    t: Transition,
) -> bool {
    if !valid_time(text) {
        &&& post == pre
        &&& t.next matches State::GroupPushMsg { group_db_id: g, group_name: nm, msg_db_id: m }
            && g as int == group_db_id && nm@ == group_name && m as int == msg_db_id
        &&& t.effect is BadTimeFormat
    } else if pre.can_assign() {
        &&& post.entries().len() == pre.entries().len() + 1
        &&& post.entries().take(pre.entries().len() as int) == pre.entries()
        &&& post.entries().last().hv_msg_id == msg_db_id
        &&& post.entries().last().group_db_id == group_db_id
        &&& post.entries().last().send_time@ == text
        &&& t.next matches State::GroupChoose { group_db_id: g, group_name: nm } && g as int
            == group_db_id && nm@ == group_name
        &&& t.effect is PushSaved
    } else {
        &&& post == pre
        &&& t.next matches State::GroupPushMsg { group_db_id: g, group_name: nm, msg_db_id: m }
            && g as int == group_db_id && nm@ == group_name && m as int == msg_db_id
        &&& t.effect is PushSaveFailed
    }
}

/// Handles the time-of-day reply that completes a push.
pub fn handle_group_push_datetime(
    schedule: &mut PollingMsgDb,
    group_db_id: i64,
    group_name: &String,
    msg_db_id: i64,
    text: &str,
) -> (t: Transition)
    requires
        old(schedule).wf(),
    ensures
        final(schedule).wf(),
        push_datetime_post(
            group_db_id as int,
            group_name@,
            msg_db_id as int,
            text@,
            *old(schedule),
            *final(schedule),
            t,
        ),
{
    if !crate::timefmt::check_time(text) {
        return Transition {
            next: State::GroupPushMsg {
                group_db_id,
                group_name: group_name.clone(),
                msg_db_id,
            },
            effect: Effect::BadTimeFormat,
        };
    }
    match schedule.add_polling_msg(msg_db_id, group_db_id, text) {
        Ok(_) => Transition {
            next: State::GroupChoose { group_db_id, group_name: group_name.clone() },
            effect: Effect::PushSaved,
        },
        Err(e) => {
            proof {
                assert(e is StoreFailure);
            }
            Transition {
                next: State::GroupPushMsg {
                    group_db_id,
                    group_name: group_name.clone(),
                    msg_db_id,
                },
                effect: Effect::PushSaveFailed,
            }
        },
    }
}

/// Viewing the pushes lists the selected group's schedule entries joined
/// with their message titles; without a selected group the dialogue is
/// reset defensively.
pub open spec fn view_push_post(
    st: State,
    sched: PollingMsgDb,
    msgs: Msg,
    groups: Group,
    t: Transition,
) -> bool {
    match st {
        State::GroupChoose { group_db_id, group_name } => {
            &&& t.next == st
            &&& t.effect matches Effect::PushList(l) && l@.len() == group_rows(
                sched.entries(),
                group_db_id as int,
                msgs.rows(),
                groups.rows(),
            ).len() && (forall|k: int|
                0 <= k < l@.len() ==> join_row(
                    #[trigger] l@[k],
                    group_rows(
                        sched.entries(),
                        group_db_id as int,
                        msgs.rows(),
                        groups.rows(),
                    )[k],
                    msgs.rows(),
                    groups.rows(),
                ))
        },
        _ => t.next == State::Menu && t.effect is StateReset,
    }
}

/// Lists the selected group's pushes.
pub fn group_view_push(
    schedule: &PollingMsgDb,
    msgs: &Msg,
    groups: &Group,
    state: &State,
) -> (t: Transition)
    ensures
        view_push_post(*state, *schedule, *msgs, *groups, t),
{
    match state {
        State::GroupChoose { group_db_id, group_name } => {
            let l = schedule.get_group_msgs(msgs, groups, *group_db_id);
            Transition { next: state.duplicate(), effect: Effect::PushList(l) }
        },
        _ => Transition { next: State::Menu, effect: Effect::StateReset },
    }
}

/// What deleting a push does: with a group selected, the entry with the
/// picked id is removed (reporting whether it existed); otherwise the
/// dialogue is reset defensively.
pub open spec fn delete_push_post(
    st: State,
    push_id: int,
    pre: PollingMsgDb,
    post: PollingMsgDb,
    t: Transition,
) -> bool {
    match st {
        State::GroupChoose { group_db_id, group_name } => {
            &&& t.next == st
            &&& post.entries() == without_entry_id(pre.entries(), push_id)
            &&& post.next() == pre.next()
            &&& if pre.spec_has_id(push_id) {
                t.effect is PushDeleted
            } else {
                t.effect is PushDeleteFailed
            }
        },
        _ => post == pre && t.next == State::Menu && t.effect is StateReset,
    }
}

/// Deletes one push by its schedule-entry id.
pub fn group_delete_push(schedule: &mut PollingMsgDb, state: &State, push_id: i64) -> (t:
    Transition)
    requires
        old(schedule).wf(),
    ensures
        final(schedule).wf(),
        delete_push_post(*state, push_id as int, *old(schedule), *final(schedule), t),
{
    match state {
        State::GroupChoose { group_db_id, group_name } => {
            let removed = schedule.delete_polling_msg_by_id(push_id);
            let effect = if removed {
                Effect::PushDeleted
            } else {
                Effect::PushDeleteFailed
            };
            Transition { next: state.duplicate(), effect }
        },
        _ => Transition { next: State::Menu, effect: Effect::StateReset },
    }
}

} // verus!
