//! Welcome-message transitions: setting the text new members are greeted
//! with, and showing what is currently stored.

use vstd::prelude::*;
use crate::my_handler::{Effect, Transition};
use crate::service::msg::{default_welcome, welcome_step, welcome_title, Msg};
use crate::text::{blank, spec_trim, trim_str};
use crate::State;

verus! {

/// What the welcome-text reply does: an all-whitespace reply is refused
/// and the dialogue stays put; otherwise the trimmed text overwrites (or
/// creates) the welcome row and the dialogue returns to idle, reporting
/// failure when the catalog refuses the write.
pub open spec fn set_welcome_post(text: Seq<char>, pre: Msg, post: Msg, t: Transition) -> bool {
    if blank(text) {
        &&& post == pre
        &&& t.next == State::SetWelcomeMsg
        &&& t.effect is PromptWelcomeText
    } else {
        &&& t.next == State::Menu
        &&& if pre.spec_has_welcome() || pre.can_assign() {
            &&& t.effect is WelcomeSaved
            &&& post.spec_has_welcome()
            &&& post.spec_welcome_text() == spec_trim(text)
        } else {
            post == pre && t.effect is WelcomeSaveFailed
        }
    }
}

/// Stores the submitted welcome text.
pub fn handle_set_welcome_msg(msgs: &mut Msg, text: &str) -> (t: Transition)
    requires
        old(msgs).wf(),
    ensures
        final(msgs).wf(),
        set_welcome_post(text@, *old(msgs), *final(msgs), t),
{
    if crate::text::is_blank(text) {
        return Transition { next: State::SetWelcomeMsg, effect: Effect::PromptWelcomeText };
    }
    let trimmed = trim_str(text);
    let saved = msgs.add_welcome_msg(trimmed.as_str());
    if saved {
        Transition { next: State::Menu, effect: Effect::WelcomeSaved }
    } else {
        Transition { next: State::Menu, effect: Effect::WelcomeSaveFailed }
    }
}

/// Opens the set-welcome dialogue.
pub fn setting_welcome_message() -> (t: Transition)
    ensures
        t.next == State::SetWelcomeMsg,
        t.effect is PromptWelcomeText,
{
    Transition { next: State::SetWelcomeMsg, effect: Effect::PromptWelcomeText }
}

/// Showing the welcome message carries the stored text, or the fixed
/// fallback greeting while none is set — a missing welcome row is never
/// an error.
pub open spec fn current_welcome_effect(msgs: Msg, t: Transition) -> bool {
    &&& t.effect matches Effect::CurrentWelcome(w)
    &&& if msgs.spec_has_welcome() {
        (t.effect matches Effect::CurrentWelcome(w) && w@ == msgs.spec_welcome_text())
    } else {
        (t.effect matches Effect::CurrentWelcome(w) && w@ == default_welcome())
    }
}

/// Shows the currently stored welcome text.
pub fn current_welcome_message(msgs: &Msg, state: &State) -> (t: Transition)
    requires
        msgs.wf(),
    ensures
        t.next == *state,
        current_welcome_effect(*msgs, t),
{
    Transition { next: state.duplicate(), effect: Effect::CurrentWelcome(msgs.welcome_msg()) }
}

} // verus!
