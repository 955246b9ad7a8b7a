//! Admin-management transitions: listing, selecting, revoking, renaming
//! and adding admins. Revocation clears the admin flag rather than
//! deleting the row, so a revoked admin can later be re-granted.

use vstd::prelude::*;
use crate::my_handler::{Effect, Transition};
use crate::service::user::{cancel_step, rename_step, User};
use crate::text::{spec_tokens, tokenize};
use crate::State;

verus! {

/// Showing the admin list never changes anything.
pub fn all_admin(users: &User, state: &State) -> (t: Transition)
    ensures
        t.next == *state,
        t.effect matches Effect::AdminList(l) && l@ == users.rows(),
{
    Transition { next: state.duplicate(), effect: Effect::AdminList(users.all_admins()) }
}

/// An admin entry was selected: remember which and offer the actions.
pub fn admin_chose_menu(uid: String) -> (t: Transition)
    ensures
        t.next matches State::AdminChoose(u) && u@ == uid@,
        t.effect is AdminChoseMenu,
{
    Transition { next: State::AdminChoose(uid), effect: Effect::AdminChoseMenu }
}

/// What revocation does: with an admin selected, that admin's flag is
/// cleared (reporting whether an active flag was found); in any other
/// state nothing changes but the dialogue is put back on the admin menu.
pub open spec fn delete_post(st: State, pre: User, post: User, t: Transition) -> bool {
    &&& t.next == State::Admin
    &&& match st {
        State::AdminChoose(uid) => {
            &&& post.rows().len() == pre.rows().len()
            &&& post.next() == pre.next()
            &&& forall|i: int|
                0 <= i < pre.rows().len() ==> cancel_step(
                    #[trigger] post.rows()[i],
                    pre.rows()[i],
                    uid@,
                    true,
                )
            &&& !post.spec_is_admin(uid@)
            &&& if pre.spec_is_admin(uid@) {
                t.effect is AdminDeleted
            } else {
                t.effect is AdminDeleteFailed
            }
        },
        _ => post == pre && t.effect is StateReset,
    }
}

/// Revokes the selected admin's flag.
pub fn delete_admin(users: &mut User, state: &State) -> (t: Transition)
    requires
        old(users).wf(),
    ensures
        final(users).wf(),
        delete_post(*state, *old(users), *final(users), t),
{
    match state {
        State::AdminChoose(uid) => {
            let revoked = users.cancel_admin(uid.as_str());
            let effect = if revoked {
                Effect::AdminDeleted
            } else {
                Effect::AdminDeleteFailed
            };
            Transition { next: State::Admin, effect }
        },
        _ => Transition { next: State::Admin, effect: Effect::StateReset },
    }
}

/// What starting a rename does: with an admin selected, ask for the new
/// name; otherwise reset defensively.
pub open spec fn rename_start_post(st: State, t: Transition) -> bool {
    match st {
        State::AdminChoose(uid) => {
            &&& t.next matches State::AdminRename(u) && u@ == uid@
            &&& t.effect is PromptNewName
        },
        _ => t.next == State::Menu && t.effect is StateReset,
    }
}

/// Starts renaming the selected admin.
pub fn rename_admin(state: &State) -> (t: Transition)
    ensures
        rename_start_post(*state, t),
{
    match state {
        State::AdminChoose(uid) => Transition {
            next: State::AdminRename(uid.clone()),
            effect: Effect::PromptNewName,
        },
        _ => Transition { next: State::Menu, effect: Effect::StateReset },
    }
}

/// What submitting a new name does: the selected admin's rows take the
/// name, and the dialogue returns to the admin menu.
pub open spec fn rename_submit_post(
    uid: Seq<char>,
    name: Seq<char>,
    pre: User,
    post: User,
    t: Transition,
) -> bool {
    &&& t.next == State::Admin
    &&& post.rows().len() == pre.rows().len()
    &&& post.next() == pre.next()
    &&& forall|i: int|
        0 <= i < pre.rows().len() ==> rename_step(
            #[trigger] post.rows()[i],
            pre.rows()[i],
            uid,
            name,
            true,
        )
    &&& if pre.spec_has_user(uid) {
        t.effect is AdminRenamed
    } else {
        t.effect is AdminRenameFailed
    }
}

/// Applies the submitted name to the selected admin.
pub fn rename_admin_submit(users: &mut User, uid: &String, name: &str) -> (t: Transition)
    requires
        old(users).wf(),
    ensures
        final(users).wf(),
        rename_submit_post(uid@, name@, *old(users), *final(users), t),
{
    let renamed = users.set_admin_name(uid.as_str(), name);
    let effect = if renamed {
        Effect::AdminRenamed
    } else {
        Effect::AdminRenameFailed
    };
    Transition { next: State::Admin, effect }
}

/// What submitting a new admin does: the reply must hold exactly two
/// whitespace-separated tokens, the external id and the display name;
/// anything else is reported as a format error and the dialogue stays put
/// for a retry. A well-formed reply attempts the grant and returns to the
/// menu whether or not the directory accepted it.
pub open spec fn add_submit_post(text: Seq<char>, pre: User, post: User, t: Transition) -> bool {
    if spec_tokens(text).len() == 2 {
        let uid = spec_tokens(text)[0];
        let name = spec_tokens(text)[1];
        &&& t.next == State::Menu
        &&& if !pre.spec_has_user(uid) && pre.can_assign() {
            &&& t.effect is AdminAdded
            &&& post.rows().len() == pre.rows().len() + 1
            &&& post.rows().take(pre.rows().len() as int) == pre.rows()
            &&& post.rows().last().user_id@ == uid
            &&& post.rows().last().user_name@ == name
            &&& post.rows().last().is_admin
        } else {
            post == pre && t.effect is AdminAddFailed
        }
    } else {
        &&& post == pre
        &&& t.next == State::AdminAdd
        &&& t.effect is AdminAddInvalidFormat
    }
}

/// Law: the id-and-name reply is accepted exactly when it splits into two
/// whitespace-separated tokens; any other token count is a format error
/// that leaves the directory untouched and the dialogue in place for a
/// retry.
pub proof fn lemma_add_admin_two_tokens(text: Seq<char>, pre: User, post: User, t: Transition)
    requires
        add_submit_post(text, pre, post, t),
    ensures
        (spec_tokens(text).len() == 2) <==> !(t.effect is AdminAddInvalidFormat),
        spec_tokens(text).len() != 2 ==> post == pre && t.next == State::AdminAdd,
{
}

/// Handles the "id name" reply that adds an admin.
pub fn add_admin_submit(users: &mut User, text: &str) -> (t: Transition)
    requires
        old(users).wf(),
    ensures
        final(users).wf(),
        add_submit_post(text@, *old(users), *final(users), t),
{
    let parts = tokenize(text);
    if parts.len() != 2 {
        return Transition { next: State::AdminAdd, effect: Effect::AdminAddInvalidFormat };
    }
    proof {
        assert(parts@[0]@ == spec_tokens(text@)[0]);
        assert(parts@[1]@ == spec_tokens(text@)[1]);
    }
    let added = users.add_admin(parts[0].as_str(), parts[1].as_str());
    let effect = if added {
        Effect::AdminAdded
    } else {
        Effect::AdminAddFailed
    };
    Transition { next: State::Menu, effect }
}

} // verus!
