//! The callback-token grammar and the callback dispatcher. Interactive
//! elements report a short delimited token (`group_12_teamname`,
//! `admin_delete`, `cancel`); the grammar parses it once, here, into a
//! tagged action, and a token of no known shape becomes a diagnostic
//! rather than an error.

use vstd::prelude::*;
use vstd::string::StrSliceExecFns;
use crate::my_handler::{admin, group_set, poll_message, welcome_message, Effect, Transition};
use crate::service::group::Group;
use crate::service::msg::Msg;
use crate::service::polling_msg::PollingMsgDb;
use crate::service::user::User;
use crate::text::{
    all_digits, digits_value, has_prefix, is_digit, parse_digits_range, starts_with_lit, str_eq,
};
use crate::State;

verus! {

/// A parsed callback token.
#[derive(Debug)]
pub enum CallbackAction {
    /// Back from a group's menu to the group list.
    CancelGroup,
    /// Add a push to the selected group: list the catalog messages.
    GroupAddPush,
    /// A catalog message was picked for the push.
    GroupMsgChoose(i64),
    /// View the selected group's pushes.
    GroupViewPush,
    /// Delete one push by its entry id.
    GroupDeletePush(i64),
    /// A group was picked from the group list.
    GroupSelect { group_db_id: i64, group_name: String },
    /// Show the admin list.
    Managers,
    /// Add a new admin.
    NewlyAdded,
    /// Back to the admin menu.
    BackAdmin,
    /// An admin entry was picked.
    ChosenAdmin(String),
    /// Revoke the selected admin.
    AdminDelete,
    /// Rename the selected admin.
    AdminRename,
    /// Set the welcome message.
    SettingWelcomeMessage,
    /// Show the current welcome message.
    CurrentWelcomeMessage,
    /// Add a polling message.
    AddPollMessage,
    /// List the polling messages.
    ListPollMessage,
    /// Abort the operation.
    Cancel,
    /// No known shape: report a diagnostic, change nothing.
    Unknown,
}

/// The mathematical shape of a parsed token: the same tags with the
/// payloads as plain values.
pub enum CallbackShape {
    CancelGroup,
    GroupAddPush,
    GroupMsgChoose(int),
    GroupViewPush,
    GroupDeletePush(int),
    GroupSelect { group_db_id: int, group_name: Seq<char> },
    Managers,
    NewlyAdded,
    BackAdmin,
    ChosenAdmin(Seq<char>),
    AdminDelete,
    AdminRename,
    SettingWelcomeMessage,
    CurrentWelcomeMessage,
    AddPollMessage,
    ListPollMessage,
    Cancel,
    Unknown,
}

impl View for CallbackAction {
    type V = CallbackShape;

    open spec fn view(&self) -> CallbackShape {
        match self {
            CallbackAction::CancelGroup => CallbackShape::CancelGroup,
            CallbackAction::GroupAddPush => CallbackShape::GroupAddPush,
            CallbackAction::GroupMsgChoose(m) => CallbackShape::GroupMsgChoose(*m as int),
            CallbackAction::GroupViewPush => CallbackShape::GroupViewPush,
            CallbackAction::GroupDeletePush(p) => CallbackShape::GroupDeletePush(*p as int),
            CallbackAction::GroupSelect { group_db_id, group_name } => CallbackShape::GroupSelect {
                group_db_id: *group_db_id as int,
                group_name: group_name@,
            },
            CallbackAction::Managers => CallbackShape::Managers,
            CallbackAction::NewlyAdded => CallbackShape::NewlyAdded,
            CallbackAction::BackAdmin => CallbackShape::BackAdmin,
            CallbackAction::ChosenAdmin(u) => CallbackShape::ChosenAdmin(u@),
            CallbackAction::AdminDelete => CallbackShape::AdminDelete,
            CallbackAction::AdminRename => CallbackShape::AdminRename,
            CallbackAction::SettingWelcomeMessage => CallbackShape::SettingWelcomeMessage,
            CallbackAction::CurrentWelcomeMessage => CallbackShape::CurrentWelcomeMessage,
            CallbackAction::AddPollMessage => CallbackShape::AddPollMessage,
            CallbackAction::ListPollMessage => CallbackShape::ListPollMessage,
            CallbackAction::Cancel => CallbackShape::Cancel,
            CallbackAction::Unknown => CallbackShape::Unknown,
        }
    }
}

/// The token carries prefix `p` followed by a non-empty run of digits
/// spelling a number an `i64` can hold.
pub open spec fn num_suffix_ok(s: Seq<char>, p: Seq<char>) -> bool {
    &&& has_prefix(s, p)
    &&& s.len() > p.len()
    &&& all_digits(s.skip(p.len() as int))
    &&& digits_value(s.skip(p.len() as int)) <= i64::MAX
}

/// The number a well-formed numeric suffix spells.
pub open spec fn num_suffix(s: Seq<char>, p: Seq<char>) -> int {
    digits_value(s.skip(p.len() as int))
}

/// End of the run of digits starting at position `i`.
pub open spec fn digit_run_end(s: Seq<char>, i: int) -> int
    decreases s.len() - i,
{
    if i < 0 || i >= s.len() || !is_digit(s[i]) {
        i
    } else {
        digit_run_end(s, i + 1)
    }
}

/// Everything before the end of a digit run is a digit, the run stays in
/// bounds, and it stops only at the end or at a non-digit.
proof fn lemma_digit_run_digits(s: Seq<char>, i: int)
    requires
        0 <= i <= s.len(),
    ensures
        i <= digit_run_end(s, i) <= s.len(),
        forall|m: int| i <= m < digit_run_end(s, i) ==> is_digit(#[trigger] s[m]),
    decreases s.len() - i,
{
    if i < s.len() && is_digit(s[i]) {
        lemma_digit_run_digits(s, i + 1);
    }
}

/// The token names a group: `group_` followed by the group's numeric id
/// and then, optionally, one more delimiter and the group's name.
pub open spec fn group_select_ok(s: Seq<char>) -> bool {
    let b = "group_"@.len() as int;
    let e = digit_run_end(s, b);
    &&& has_prefix(s, "group_"@)
    &&& e > b
    &&& digits_value(s.subrange(b, e)) <= i64::MAX
    &&& (e == s.len() || s[e] == '_')
}

/// The group id of a well-formed group-selection token.
pub open spec fn group_select_id(s: Seq<char>) -> int {
    let b = "group_"@.len() as int;
    digits_value(s.subrange(b, digit_run_end(s, b)))
}

/// The group name of a well-formed group-selection token (empty when the
/// token ends after the id).
pub open spec fn group_select_name(s: Seq<char>) -> Seq<char> {
    let e = digit_run_end(s, "group_"@.len() as int);
    if e == s.len() {
        Seq::empty()
    } else {
        s.skip(e + 1)
    }
}

/// The token selects an admin: `chosen_admin_` followed by an external
/// user id holding no further delimiter.
pub open spec fn chosen_admin_ok(s: Seq<char>) -> bool {
    &&& has_prefix(s, "chosen_admin_"@)
    &&& forall|m: int| "chosen_admin_"@.len() <= m < s.len() ==> s[m] != '_'
}

/// The shape a callback token parses to. Fixed tokens first, then the
/// shapes with a payload; anything else is unroutable.
pub open spec fn spec_parse_callback(s: Seq<char>) -> CallbackShape {
    if s == "cancel"@ {
        CallbackShape::Cancel
    } else if s == "cancel_group"@ {
        CallbackShape::CancelGroup
    } else if s == "group_add_push"@ {
        CallbackShape::GroupAddPush
    } else if s == "group_view_push"@ {
        CallbackShape::GroupViewPush
    } else if s == "managers"@ {
        CallbackShape::Managers
    } else if s == "newly_added"@ {
        CallbackShape::NewlyAdded
    } else if s == "back_admin"@ {
        CallbackShape::BackAdmin
    } else if s == "admin_delete"@ {
        CallbackShape::AdminDelete
    } else if s == "admin_rename"@ {
        CallbackShape::AdminRename
    } else if s == "setting_welcome_message"@ {
        CallbackShape::SettingWelcomeMessage
    } else if s == "current_welcome_message"@ {
        CallbackShape::CurrentWelcomeMessage
    } else if s == "add_poll_message"@ {
        CallbackShape::AddPollMessage
    } else if s == "list_poll_message"@ {
        CallbackShape::ListPollMessage
    } else if num_suffix_ok(s, "group_msg_"@) {
        CallbackShape::GroupMsgChoose(num_suffix(s, "group_msg_"@))
    } else if num_suffix_ok(s, "group_delete_push_"@) {
        CallbackShape::GroupDeletePush(num_suffix(s, "group_delete_push_"@))
    } else if chosen_admin_ok(s) {
        CallbackShape::ChosenAdmin(s.skip("chosen_admin_"@.len() as int))
    } else if group_select_ok(s) {
        CallbackShape::GroupSelect { group_db_id: group_select_id(s), group_name: group_select_name(s) }
    } else {
        CallbackShape::Unknown
    }
}

/// Parses one callback token into its action.
pub fn parse_callback(token: &str) -> (r: CallbackAction)
    ensures
        r@ == spec_parse_callback(token@),
{
    if str_eq(token, "cancel") {
        return CallbackAction::Cancel;
    }
    if str_eq(token, "cancel_group") {
        return CallbackAction::CancelGroup;
    }
    if str_eq(token, "group_add_push") {
        return CallbackAction::GroupAddPush;
    }
    if str_eq(token, "group_view_push") {
        return CallbackAction::GroupViewPush;
    }
    if str_eq(token, "managers") {
        return CallbackAction::Managers;
    }
    if str_eq(token, "newly_added") {
        return CallbackAction::NewlyAdded;
    }
    if str_eq(token, "back_admin") {
        return CallbackAction::BackAdmin;
    }
    if str_eq(token, "admin_delete") {
        return CallbackAction::AdminDelete;
    }
    if str_eq(token, "admin_rename") {
        return CallbackAction::AdminRename;
    }
    if str_eq(token, "setting_welcome_message") {
        return CallbackAction::SettingWelcomeMessage;
    }
    if str_eq(token, "current_welcome_message") {
        return CallbackAction::CurrentWelcomeMessage;
    }
    if str_eq(token, "add_poll_message") {
        return CallbackAction::AddPollMessage;
    }
    if str_eq(token, "list_poll_message") {
        return CallbackAction::ListPollMessage;
    }
    let n: usize = token.unicode_len();
    if starts_with_lit(token, "group_msg_") {
        let p: usize = "group_msg_".unicode_len();
        proof {
            assert(token@.subrange(p as int, n as int) =~= token@.skip("group_msg_"@.len() as int));
        }
        if let Some(v) = parse_digits_range(token, p, n) {
            return CallbackAction::GroupMsgChoose(v);
        }
    }
    if starts_with_lit(token, "group_delete_push_") {
        let p: usize = "group_delete_push_".unicode_len();
        proof {
            assert(token@.subrange(p as int, n as int) =~= token@.skip(
                "group_delete_push_"@.len() as int,
            ));
        }
        if let Some(v) = parse_digits_range(token, p, n) {
            return CallbackAction::GroupDeletePush(v);
        }
    }
    if starts_with_lit(token, "chosen_admin_") {
        let p: usize = "chosen_admin_".unicode_len();
        let mut m: usize = p;
        let mut plain: bool = true;
        while m < n
            invariant
                p <= m <= n,
                n == token@.len(),
                plain == forall|k: int| p <= k < m ==> token@[k] != '_',
            decreases n - m,
        {
            if token.get_char(m) == '_' {
                plain = false;
            }
            m = m + 1;
        }
        if plain {
            proof {
                assert(token@.subrange(p as int, n as int) =~= token@.skip(
                    "chosen_admin_"@.len() as int,
                ));
            }
            return CallbackAction::ChosenAdmin(token.substring_char(p, n).to_owned());
        }
    }
    if starts_with_lit(token, "group_") {
        let b: usize = "group_".unicode_len();
        let mut e: usize = b;
        while e < n
            invariant
                b <= e <= n,
                n == token@.len(),
                digit_run_end(token@, b as int) == digit_run_end(token@, e as int),
            ensures
                b <= e <= n,
                n == token@.len(),
                digit_run_end(token@, b as int) == e as int,
            decreases n - e,
        {
            let c = token.get_char(e);
            if !(c >= '0' && c <= '9') {
                break;
            }
            e = e + 1;
        }
        proof {
            lemma_digit_run_digits(token@, b as int);
            assert(token@.subrange(b as int, e as int) == token@.subrange(
                "group_"@.len() as int,
                digit_run_end(token@, "group_"@.len() as int),
            ));
        }
        if e > b {
            if let Some(v) = parse_digits_range(token, b, e) {
                proof {
                    assert(token@.subrange(b as int, e as int) == token@.subrange(
                        "group_"@.len() as int,
                        digit_run_end(token@, "group_"@.len() as int),
                    ));
                }
                if e == n {
                    return CallbackAction::GroupSelect {
                        group_db_id: v,
                        group_name: String::new(),
                    };
                }
                if token.get_char(e) == '_' {
                    proof {
                        assert(token@.subrange(e + 1 as int, n as int) =~= token@.skip(
                            e + 1 as int,
                        ));
                    }
                    return CallbackAction::GroupSelect {
                        group_db_id: v,
                        group_name: token.substring_char(e + 1, n).to_owned(),
                    };
                }
            }
        }
    }
    CallbackAction::Unknown
}

/// What each callback action does. The group registry and the message
/// catalog are never written from a callback; the admin directory changes
/// only under a revocation and the schedule store only under a push
/// deletion.
pub open spec fn callback_post(
    sh: CallbackShape,
    st: State,
    pre_users: User,
    post_users: User,
    msgs: Msg,
    pre_groups: Group,
    post_groups: Group,
    pre_sched: PollingMsgDb,
    post_sched: PollingMsgDb,
    t: Transition,
) -> bool {
    &&& post_groups == pre_groups
    &&& match sh {
        CallbackShape::Cancel => {
            &&& post_users == pre_users
            &&& post_sched == pre_sched
            &&& t.next == State::Menu
            &&& t.effect is Cancelled
        },
        CallbackShape::CancelGroup => {
            &&& post_users == pre_users
            &&& post_sched == pre_sched
            &&& group_set::group_buttons_post(pre_groups, t)
        },
        CallbackShape::GroupAddPush => {
            &&& post_users == pre_users
            &&& post_sched == pre_sched
            &&& group_set::add_push_post(st, msgs, t)
        },
        CallbackShape::GroupMsgChoose(m) => {
            &&& post_users == pre_users
            &&& post_sched == pre_sched
            &&& group_set::msg_choose_post(st, m, t)
        },
        CallbackShape::GroupViewPush => {
            &&& post_users == pre_users
            &&& post_sched == pre_sched
            &&& group_set::view_push_post(st, pre_sched, msgs, pre_groups, t)
        },
        CallbackShape::GroupDeletePush(p) => {
            &&& post_users == pre_users
            &&& group_set::delete_push_post(st, p, pre_sched, post_sched, t)
        },
        CallbackShape::GroupSelect { group_db_id, group_name } => {
            &&& post_users == pre_users
            &&& post_sched == pre_sched
            &&& t.next matches State::GroupChoose { group_db_id: g, group_name: nm } && g as int
                == group_db_id && nm@ == group_name
            &&& t.effect is GroupMenu
        },
        CallbackShape::Managers => {
            &&& post_users == pre_users
            &&& post_sched == pre_sched
            &&& t.next == st
            &&& t.effect matches Effect::AdminList(l) && l@ == pre_users.rows()
        },
        CallbackShape::NewlyAdded => {
            &&& post_users == pre_users
            &&& post_sched == pre_sched
            &&& t.next == State::AdminAdd
            &&& t.effect is PromptAdminIdName
        },
        CallbackShape::BackAdmin => {
            &&& post_users == pre_users
            &&& post_sched == pre_sched
            &&& t.next == st
            &&& t.effect is AdminMenu
        },
        CallbackShape::ChosenAdmin(uid) => {
            &&& post_users == pre_users
            &&& post_sched == pre_sched
            &&& t.next matches State::AdminChoose(u) && u@ == uid
            &&& t.effect is AdminChoseMenu
        },
        CallbackShape::AdminDelete => {
            &&& post_sched == pre_sched
            &&& admin::delete_post(st, pre_users, post_users, t)
        },
        CallbackShape::AdminRename => {
            &&& post_users == pre_users
            &&& post_sched == pre_sched
            &&& admin::rename_start_post(st, t)
        },
        CallbackShape::SettingWelcomeMessage => {
            &&& post_users == pre_users
            &&& post_sched == pre_sched
            &&& t.next == State::SetWelcomeMsg
            &&& t.effect is PromptWelcomeText
        },
        CallbackShape::CurrentWelcomeMessage => {
            &&& post_users == pre_users
            &&& post_sched == pre_sched
            &&& t.next == st
            &&& welcome_message::current_welcome_effect(msgs, t)
        },
        CallbackShape::AddPollMessage => {
            &&& post_users == pre_users
            &&& post_sched == pre_sched
            &&& t.next == State::AddPollingMsg
            &&& t.effect is PromptPollingBody
        },
        CallbackShape::ListPollMessage => {
            &&& post_users == pre_users
            &&& post_sched == pre_sched
            &&& t.next == st
            &&& poll_message::list_effect(msgs, t)
        },
        CallbackShape::Unknown => {
            &&& post_users == pre_users
            &&& post_sched == pre_sched
            &&& t.next == st
            &&& t.effect is UnroutableCallback
        },
    }
}

/// Dispatches one parsed callback action.
pub fn enter(
    action: CallbackAction,
    state: &State,
    users: &mut User,
    msgs: &Msg,
    groups: &Group,
    schedule: &mut PollingMsgDb,
) -> (t: Transition)
    requires
        old(users).wf(),
        msgs.wf(),
        old(schedule).wf(),
    ensures
        final(users).wf(),
        final(schedule).wf(),
        callback_post(
            action@,
            *state,
            *old(users),
            *final(users),
            *msgs,
            *groups,
            *groups,
            *old(schedule),
            *final(schedule),
            t,
        ),
{
    match action {
        CallbackAction::Cancel => Transition { next: State::Menu, effect: Effect::Cancelled },
        CallbackAction::CancelGroup => group_set::show_group_buttons(groups),
        CallbackAction::GroupAddPush => group_set::group_add_push(msgs, state),
        CallbackAction::GroupMsgChoose(m) => group_set::group_msg_choose(state, m),
        CallbackAction::GroupViewPush => group_set::group_view_push(schedule, msgs, groups, state),
        CallbackAction::GroupDeletePush(p) => group_set::group_delete_push(schedule, state, p),
        CallbackAction::GroupSelect { group_db_id, group_name } => group_set::show_group_menu(
            group_db_id,
            group_name,
        ),
        CallbackAction::Managers => admin::all_admin(users, state),
        CallbackAction::NewlyAdded => Transition {
            next: State::AdminAdd,
            effect: Effect::PromptAdminIdName,
        },
        CallbackAction::BackAdmin => Transition {
            next: state.duplicate(),
            effect: Effect::AdminMenu,
        },
        CallbackAction::ChosenAdmin(uid) => admin::admin_chose_menu(uid),
        CallbackAction::AdminDelete => admin::delete_admin(users, state),
        CallbackAction::AdminRename => admin::rename_admin(state),
        CallbackAction::SettingWelcomeMessage => welcome_message::setting_welcome_message(),
        CallbackAction::CurrentWelcomeMessage => welcome_message::current_welcome_message(
            msgs,
            state,
        ),
        CallbackAction::AddPollMessage => poll_message::init_add_poll_message(),
        CallbackAction::ListPollMessage => poll_message::list_poll_message(msgs, state),
        CallbackAction::Unknown => Transition {
            next: state.duplicate(),
            effect: Effect::UnroutableCallback,
        },
    }
}

} // verus!
