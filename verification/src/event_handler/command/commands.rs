//! The bot's commands.
use vstd::prelude::*;

use crate::text::str_eq;

pub mod fend;
pub mod help;
pub mod template;
pub mod uptime;
pub mod version;

verus! {

/// A command of the bot.
#[derive(Debug, Clone, Copy, PartialEq, Eq, Structural)]
pub enum Command {
    Fend,
    ClearContext,
    Help,
    Uptime,
    Version,
}

/// The command that word `w` names.
pub open spec fn parse_command(w: Seq<char>) -> Option<Command> {
    if w == "fend"@ {
        Some(Command::Fend)
    } else if w == "clear-context"@ {
        Some(Command::ClearContext)
    } else if w == "help"@ {
        Some(Command::Help)
    } else if w == "uptime"@ {
        Some(Command::Uptime)
    } else if w == "version"@ {
        Some(Command::Version)
    } else {
        None
    }
}

/// The name that calls a command.
pub open spec fn command_name(c: Command) -> Seq<char> {
    match c {
        Command::Fend => "fend"@,
        Command::ClearContext => "clear-context"@,
        Command::Help => "help"@,
        Command::Uptime => "uptime"@,
        Command::Version => "version"@,
    }
}

/// Every command is called by its own name, and by no other command's.
pub proof fn lemma_command_names(c: Command)
    ensures
        parse_command(command_name(c)) == Some(c),
{
    reveal_strlit("fend");
    reveal_strlit("clear-context");
    reveal_strlit("help");
    reveal_strlit("uptime");
    reveal_strlit("version");
    assert("fend"@.len() == 4 && "fend"@[0] == 'f');
    assert("clear-context"@.len() == 13);
    assert("help"@.len() == 4 && "help"@[0] == 'h');
    assert("uptime"@.len() == 6);
    assert("version"@.len() == 7);
}

/// Help text of `fend`: usage, `---`, summary, `---`, details, `---`, and a
/// part that help leaves out.
pub const FEND_DOC: &'static str = "**fend** \\[EXPRESSION\\]\n\n---\n\nCalculates a [fend](<https://github.com/printfn/fend>) expression,\nor starts an interactive fend REPL if no expression is provided\n\n---\n\n[fend](<https://github.com/printfn/fend>) is an arbitrary-precision unit-aware calculator,\nsee the [manual](<https://printfn.github.io/fend/documentation/>) for more information on how to use it\n\nThis command has a number of special features:\n\n- Interactive REPL sessions\n\n-# (type `~fend` with no arguments, and the bot will listen to every message you send for a while)\n\n- Multi-line prompts\n\n-# (any expression that spans multiple lines will be evaluated as if\nit were a series of prompts, with context retention between prompts)\n\n- Channel context retention\n\n-# (try sending `~fend x = 5` and then `~fend x + 10`)\n\n---\n\nthis section should be ignored by the help command";

/// Help text of `clear-context`.
pub const CLEAR_CONTEXT_DOC: &'static str = "**clear-context**\n\n---\n\nClears the fend context for the current channel\n\n---\n\nThis is mostly included in case an important unit or constant gets redefined,\nwhich could remain in the context for a long time depending on usage conditions.";

/// Help text of `help`.
pub const HELP_DOC: &'static str = "**help** \\[COMMANDS\\]\n\n---\n\nLists all commands, or details about a specific command if one or more is provided";

/// The help text of a command; commands without one are hidden from help.
pub open spec fn command_doc(c: Command) -> Option<Seq<char>> {
    match c {
        Command::Fend => Some(FEND_DOC@),
        Command::ClearContext => Some(CLEAR_CONTEXT_DOC@),
        Command::Help => Some(HELP_DOC@),
        Command::Uptime => None,
        Command::Version => None,
    }
}

/// All commands, in the order of their declaration.
pub open spec fn all_commands_spec() -> Seq<Command> {
    seq![Command::Fend, Command::ClearContext, Command::Help, Command::Uptime, Command::Version]
}

impl Command {
    /// The command that `word` names.
    pub fn from_name(word: &str) -> (r: Option<Command>)
        ensures
            r == parse_command(word@),
    {
        if str_eq(word, "fend") {
            Some(Command::Fend)
        } else if str_eq(word, "clear-context") {
            Some(Command::ClearContext)
        } else if str_eq(word, "help") {
            Some(Command::Help)
        } else if str_eq(word, "uptime") {
            Some(Command::Uptime)
        } else if str_eq(word, "version") {
            Some(Command::Version)
        } else {
            None
        }
    }

    /// The help text of this command, if it has one.
    pub fn variant_docs(&self) -> (r: Option<&'static str>)
        ensures
            match command_doc(*self) {
                Some(d) => r matches Some(x) && x@ == d,
                None => r is None,
            },
    {
        match self {
            Command::Fend => Some(FEND_DOC),
            Command::ClearContext => Some(CLEAR_CONTEXT_DOC),
            Command::Help => Some(HELP_DOC),
            Command::Uptime => None,
            Command::Version => None,
        }
    }

    /// All commands, in the order of their declaration.
    pub fn all() -> (r: Vec<Command>)
        ensures
            r@ == all_commands_spec(),
    {
        let r = vec![Command::Fend, Command::ClearContext, Command::Help, Command::Uptime, Command::Version];
        assert(r@ =~= all_commands_spec());
        r
    }
}

/// Values that can be read off the front of a list of words.
pub trait Parse: Sized {
    /// Returns the parsed value and removes it from the vector.
    fn try_parse(content: &mut Vec<String>) -> (r: Option<Self>)
        ensures
            r is Some ==> old(content)@.len() > 0 && final(content)@ == old(content)@.drop_first(),
            r is None ==> final(content)@ == old(content)@,
    ;
}

impl Parse for Command {
    /// The command that the first word names; it is then removed.
    fn try_parse(content: &mut Vec<String>) -> (r: Option<Command>)
        ensures
            r == (if old(content)@.len() > 0 {
                parse_command(old(content)@[0]@)
            } else {
                None
            }),
    {
        if content.len() == 0 {
            return None;
        }
        let command = Command::from_name(content[0].as_str());
        if command.is_some() {
            content.remove(0);
            assert(content@ =~= old(content)@.drop_first());
        }
        command
    }
}

} // verus!
