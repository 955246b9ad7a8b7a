//! The slash commands the bot understands: the public ones every user may
//! send and the admin-only ones, with verified parsers from the raw
//! command text.

pub mod answer;
pub mod start_command;

use vstd::prelude::*;
use crate::text::str_eq;

verus! {

/// Commands available to every user.
#[derive(Clone, Copy, Debug, PartialEq, Eq, Structural)]
pub enum Command {
    /// Show the command list.
    Help,
    /// Open the bot; the first user to do so becomes the admin.
    Start,
    /// End the current dialogue.
    Cancel,
    /// Report the caller's own user id.
    Whoami,
}

/// Commands available to admins only.
#[derive(Clone, Copy, Debug, PartialEq, Eq, Structural)]
pub enum AdminCommand {
    /// Admin list management.
    Admins,
    /// Group welcome message management.
    HiMsg,
    /// Group polling message management.
    PollMsg,
    /// The bot's groups.
    Group,
}

/// Which public command, if any, the text spells.
pub open spec fn spec_parse_command(s: Seq<char>) -> Option<Command> {
    if s == "/help"@ {
        Some(Command::Help)
    } else if s == "/start"@ {
        Some(Command::Start)
    } else if s == "/cancel"@ {
        Some(Command::Cancel)
    } else if s == "/whoami"@ {
        Some(Command::Whoami)
    } else {
        None
    }
}

/// Which admin command, if any, the text spells.
pub open spec fn spec_parse_admin_command(s: Seq<char>) -> Option<AdminCommand> {
    if s == "/admins"@ {
        Some(AdminCommand::Admins)
    } else if s == "/himsg"@ {
        Some(AdminCommand::HiMsg)
    } else if s == "/pollmsg"@ {
        Some(AdminCommand::PollMsg)
    } else if s == "/group"@ {
        Some(AdminCommand::Group)
    } else {
        None
    }
}

/// Parses a public command.
pub fn parse_command(text: &str) -> (r: Option<Command>)
    ensures
        r == spec_parse_command(text@),
{
    if str_eq(text, "/help") {
        Some(Command::Help)
    } else if str_eq(text, "/start") {
        Some(Command::Start)
    } else if str_eq(text, "/cancel") {
        Some(Command::Cancel)
    } else if str_eq(text, "/whoami") {
        Some(Command::Whoami)
    } else {
        None
    }
}

/// Parses an admin command.
pub fn parse_admin_command(text: &str) -> (r: Option<AdminCommand>)
    ensures
        r == spec_parse_admin_command(text@),
{
    if str_eq(text, "/admins") {
        Some(AdminCommand::Admins)
    } else if str_eq(text, "/himsg") {
        Some(AdminCommand::HiMsg)
    } else if str_eq(text, "/pollmsg") {
        Some(AdminCommand::PollMsg)
    } else if str_eq(text, "/group") {
        Some(AdminCommand::Group)
    } else {
        None
    }
}

} // verus!
