//! Group-membership events: greeting members who join a group, and
//! keeping the registry in step when the bot itself is added to or removed
//! from a chat.

use vstd::prelude::*;
use crate::my_handler::Effect;
use crate::service::group::{without_group, Group};
use crate::service::msg::{default_welcome, Msg};
use crate::State;
use crate::my_handler::Transition;

verus! {

/// One member who just joined a chat.
pub struct NewMember {
    pub is_bot: bool,
    pub first_name: String,
}

/// The first names of the human members of `ms`, in order; bots are not
/// greeted.
pub open spec fn human_names(ms: Seq<NewMember>) -> Seq<Seq<char>>
    decreases ms.len(),
{
    if ms.len() == 0 {
        Seq::empty()
    } else if ms.last().is_bot {
        human_names(ms.drop_last())
    } else {
        human_names(ms.drop_last()).push(ms.last().first_name@)
    }
}

/// Extending a prefix by one member keeps the greeting list in step.
proof fn lemma_human_names_take_step(ms: Seq<NewMember>, i: int)
    requires
        0 <= i < ms.len(),
    ensures
        human_names(ms.take(i + 1)) == if ms[i].is_bot {
            human_names(ms.take(i))
        } else {
            human_names(ms.take(i)).push(ms[i].first_name@)
        },
{
    assert(ms.take(i + 1).drop_last() =~= ms.take(i));
    assert(ms.take(i + 1).last() == ms[i]);
}

/// Greets every human member who just joined: one directive per member,
/// carrying their name and the stored welcome text (or the fallback
/// greeting while none is set).
pub fn handle_new_members(msgs: &Msg, members: &Vec<NewMember>) -> (r: Vec<Effect>)
    requires
        msgs.wf(),
    ensures
        r@.len() == human_names(members@).len(),
        forall|k: int|
            0 <= k < r@.len() ==> ((#[trigger] r@[k]) matches Effect::GreetMember {
                first_name: f,
                welcome_text: w,
            } && f@ == human_names(members@)[k] && (if msgs.spec_has_welcome() {
                w@ == msgs.spec_welcome_text()
            } else {
                w@ == default_welcome()
            })),
{
    let n: usize = members.len();
    let mut out: Vec<Effect> = Vec::new();
    proof {
        assert(members@.take(0) =~= Seq::<NewMember>::empty());
    }
    let mut i: usize = 0;
    while i < n
        invariant
            i <= n,
            n == members@.len(),
            msgs.wf(),
            out@.len() == human_names(members@.take(i as int)).len(),
            forall|k: int|
                0 <= k < out@.len() ==> ((#[trigger] out@[k]) matches Effect::GreetMember {
                    first_name: f,
                    welcome_text: w,
                } && f@ == human_names(members@.take(i as int))[k] && (if msgs.spec_has_welcome() {
                    w@ == msgs.spec_welcome_text()
                } else {
                    w@ == default_welcome()
                })),
        decreases n - i,
    {
        proof {
            lemma_human_names_take_step(members@, i as int);
        }
        if !members[i].is_bot {
            let greeting = Effect::GreetMember {
                first_name: members[i].first_name.clone(),
                welcome_text: msgs.welcome_msg(),
            };
            out.push(greeting);
        }
        i = i + 1;
    }
    proof {
        assert(members@.take(n as int) =~= members@);
    }
    out
}

/// How a chat-membership update about the bot itself changes things.
#[derive(Clone, Copy, Debug, PartialEq, Eq, Structural)]
pub enum MemberStatus {
    Left,
    Banned,
    Member,
    Administrator,
    Other,
}

/// What a membership update does: an update about someone else is
/// ignored; leaving or being banned deletes the chat's registry row;
/// being added asks the host to greet the chat — the host records the
/// group (via `add_group`) only once that greeting was actually sent, as
/// membership is mirrored from delivered platform events.
pub open spec fn chat_member_post(
    about_self: bool,
    status: MemberStatus,
    chat_id: Seq<char>,
    pre: Group,
    post: Group,
    t: Transition,
) -> bool {
    &&& t.next == State::Menu
    &&& if !about_self {
        post == pre && t.effect is Silent
    } else {
        match status {
            MemberStatus::Left | MemberStatus::Banned => {
                &&& post.rows() == without_group(pre.rows(), chat_id)
                &&& post.next() == pre.next()
                &&& t.effect is Silent
            },
            MemberStatus::Member | MemberStatus::Administrator => {
                post == pre && t.effect is GroupJoinGreeting
            },
            MemberStatus::Other => post == pre && t.effect is Silent,
        }
    }
}

/// Handles a chat-membership update concerning the bot.
pub fn handle_my_chat_member(
    groups: &mut Group,
    about_self: bool,
    status: MemberStatus,
    chat_id: &str,
) -> (t: Transition)
    requires
        old(groups).wf(),
    ensures
        final(groups).wf(),
        chat_member_post(about_self, status, chat_id@, *old(groups), *final(groups), t),
{
    if !about_self {
        return Transition { next: State::Menu, effect: Effect::Silent };
    }
    match status {
        MemberStatus::Left | MemberStatus::Banned => {
            let _removed = groups.delete_group(chat_id);
            Transition { next: State::Menu, effect: Effect::Silent }
        },
        MemberStatus::Member | MemberStatus::Administrator => Transition {
            next: State::Menu,
            effect: Effect::GroupJoinGreeting,
        },
        MemberStatus::Other => Transition { next: State::Menu, effect: Effect::Silent },
    }
}

} // verus!
