//! The commands that a player can send to the bot.

use vstd::prelude::*;

verus! {

/// A command of the bot.
#[derive(Debug, Clone, Copy, PartialEq, Eq, Structural)]
pub enum Command {
    /// `/help`: explain the game.
    Help,
    /// `/new` or `/start`: start a new game.
    New,
    /// `/admin`: route the admin messages to this chat.
    Admin,
    /// `/score`: show the score of the player.
    Score,
    /// Anything else.
    Unknown,
}

/// The command that a text stands for. The text must be the command and
/// nothing else.
pub open spec fn command_of(text: Seq<char>) -> Command {
    if text == "/help"@ {
        Command::Help
    } else if text == "/new"@ || text == "/start"@ {
        Command::New
    } else if text == "/admin"@ {
        Command::Admin
    } else if text == "/score"@ {
        Command::Score
    } else {
        Command::Unknown
    }
}

/// Reads a command.
pub fn parse_command(text: &str) -> (command: Command)
    ensures
        command == command_of(text@),
{
    if text.eq("/help") {
        Command::Help
    } else if text.eq("/new") || text.eq("/start") {
        Command::New
    } else if text.eq("/admin") {
        Command::Admin
    } else if text.eq("/score") {
        Command::Score
    } else {
        Command::Unknown
    }
}

/// Whether `username` is the admin: an admin is named, and by this name.
pub fn is_admin(admin_user: &Option<String>, username: &str) -> (admin: bool)
    ensures
        admin == (admin_user matches Some(name) && name@ == username@),
{
    match admin_user {
        Some(name) => name.as_str().eq(username),
        None => false,
    }
}

} // verus!
