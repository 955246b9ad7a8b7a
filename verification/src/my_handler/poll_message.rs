//! Polling-message transitions: the two-step dialogue that adds a titled
//! message body to the catalog, and the listing of what the catalog holds.

use vstd::prelude::*;
use vstd::string::StrSliceExecFns;
use crate::my_handler::{Effect, Transition};
use crate::service::msg::{polling_rows, Msg, MsgType};
use crate::text::{blank, spec_trim, trim_str};
use crate::State;

verus! {

/// Opens the add-message dialogue.
pub fn init_add_poll_message() -> (t: Transition)
    ensures
        t.next == State::AddPollingMsg,
        t.effect is PromptPollingBody,
{
    Transition { next: State::AddPollingMsg, effect: Effect::PromptPollingBody }
}

/// What the body reply does: an all-whitespace reply is refused and the
/// dialogue stays put for a retry; otherwise the body is carried into the
/// title step as it was typed.
pub open spec fn add_body_post(text: Seq<char>, t: Transition) -> bool {
    if blank(text) {
        t.next == State::AddPollingMsg && t.effect is EmptyInput
    } else {
        &&& t.next matches State::AddPollingTitle(body) && body@ == text
        &&& t.effect is PromptPollingTitle
    }
}

/// Step one: take the message body.
pub fn add_poll_message(text: &str) -> (t: Transition)
    ensures
        add_body_post(text@, t),
{
    if crate::text::is_blank(text) {
        Transition { next: State::AddPollingMsg, effect: Effect::EmptyInput }
    } else {
        Transition {
            next: State::AddPollingTitle(text.to_owned()),
            effect: Effect::PromptPollingTitle,
        }
    }
}

/// What the title reply does: an all-whitespace title is refused with the
/// dialogue staying put; otherwise the trimmed title and the carried body
/// become a new polling row and the dialogue returns to idle, reporting
/// failure when the catalog refuses the insert.
pub open spec fn add_title_post(
    body: Seq<char>,
    text: Seq<char>,
    pre: Msg,
    post: Msg,
    t: Transition,
) -> bool {
    if blank(text) {
        &&& post == pre
        &&& t.next matches State::AddPollingTitle(b) && b@ == body
        &&& t.effect is EmptyInput
    } else {
        &&& t.next == State::Menu
        &&& if pre.can_assign() {
            &&& post.rows().len() == pre.rows().len() + 1
            &&& post.rows().take(pre.rows().len() as int) == pre.rows()
            &&& post.rows().last().msg_type is Polling
            &&& post.rows().last().msg_text@ == body
            &&& post.rows().last().msg_title@ == spec_trim(text)
            &&& t.effect is PollingAdded
        } else {
            post == pre && t.effect is PollingAddFailed
        }
    }
}

/// Step two: take the title and store the new polling message.
pub fn add_poll_message_title(msgs: &mut Msg, body: &String, text: &str) -> (t: Transition)
    requires
        old(msgs).wf(),
    ensures
        final(msgs).wf(),
        add_title_post(body@, text@, *old(msgs), *final(msgs), t),
{
    if crate::text::is_blank(text) {
        return Transition {
            next: State::AddPollingTitle(body.clone()),
            effect: Effect::EmptyInput,
        };
    }
    let title = trim_str(text);
    let id = msgs.add_msg(MsgType::Polling, body.as_str(), title.as_str());
    if id > 0 {
        Transition { next: State::Menu, effect: Effect::PollingAdded }
    } else {
        Transition { next: State::Menu, effect: Effect::PollingAddFailed }
    }
}

/// Listing the polling messages carries them all, or says the catalog is
/// still empty; nothing changes either way.
pub open spec fn list_effect(msgs: Msg, t: Transition) -> bool {
    if polling_rows(msgs.rows()).len() == 0 {
        t.effect is NoPollMessages
    } else {
        t.effect matches Effect::PollList(l) && l@ == polling_rows(msgs.rows())
    }
}

/// Lists the catalog's polling messages.
pub fn list_poll_message(msgs: &Msg, state: &State) -> (t: Transition)
    ensures
        t.next == *state,
        list_effect(*msgs, t),
{
    let all = msgs.all();
    if all.len() == 0 {
        Transition { next: state.duplicate(), effect: Effect::NoPollMessages }
    } else {
        Transition { next: state.duplicate(), effect: Effect::PollList(all) }
    }
}

} // verus!
