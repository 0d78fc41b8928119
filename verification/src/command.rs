//! Chat commands: recognising `n:` messages and parsing their words.
use vstd::prelude::*;
use crate::text::{copy_string, chars_of, has_prefix, join, join_from, split_words, starts_with, text_is, words};
use vstd::string::StringExecFns;

verus! {

broadcast use vstd::string::group_string_axioms;

/// A command that players give the bot in chat.
#[derive(Clone, Debug, PartialEq, Eq)]
pub enum BotCommand {
    Help,
    Info,
    Core,
    /// action, delay (or loop id), command
    Loop(String, String, String),
    Execute(String),
    Tellraw(String),
    Login(String),
    Kick(String),
    Disable(String),
    Loops,
    List,
    Light(String),
    AdvancedTellraw(String),
}

/// A command with its text arguments as character sequences.
pub enum CommandView {
    Help,
    Info,
    Core,
    Loop(Seq<char>, Seq<char>, Seq<char>),
    Execute(Seq<char>),
    Tellraw(Seq<char>),
    Login(Seq<char>),
    Kick(Seq<char>),
    Disable(Seq<char>),
    Loops,
    List,
    Light(Seq<char>),
    AdvancedTellraw(Seq<char>),
}

impl View for BotCommand {
    type V = CommandView;

    open spec fn view(&self) -> CommandView {
        match self {
            BotCommand::Help => CommandView::Help,
            BotCommand::Info => CommandView::Info,
            BotCommand::Core => CommandView::Core,
            BotCommand::Loop(a, d, c) => CommandView::Loop(a@, d@, c@),
            BotCommand::Execute(a) => CommandView::Execute(a@),
            BotCommand::Tellraw(a) => CommandView::Tellraw(a@),
            BotCommand::Login(a) => CommandView::Login(a@),
            BotCommand::Kick(a) => CommandView::Kick(a@),
            BotCommand::Disable(a) => CommandView::Disable(a@),
            BotCommand::Loops => CommandView::Loops,
            BotCommand::List => CommandView::List,
            BotCommand::Light(a) => CommandView::Light(a@),
            BotCommand::AdvancedTellraw(a) => CommandView::AdvancedTellraw(a@),
        }
    }
}

/// `ws[from..]` joined with `sep`, or nothing when `from` is past the end.
pub open spec fn join_after(ws: Seq<Seq<char>>, from: int, sep: Seq<char>) -> Seq<char> {
    if 0 <= from <= ws.len() {
        join(ws.skip(from), sep)
    } else {
        seq![]
    }
}

/// The words of a message that parse without a panic: at least one word, and
/// a second one after `loop`.
pub open spec fn parsable(parts: Seq<Seq<char>>) -> bool {
    &&& parts.len() >= 1
    &&& parts[0] == "loop"@ ==> parts.len() >= 2
}

/// The command that the words `parts` name; unknown names give `Help`.
pub open spec fn command_of(parts: Seq<Seq<char>>) -> CommandView
    recommends
        parsable(parts),
{
    let name = parts[0];
    let args = join_after(parts, 1, " "@);
    if name == "help"@ {
        CommandView::Help
    } else if name == "info"@ {
        CommandView::Info
    } else if name == "core"@ {
        CommandView::Core
    } else if name == "exe"@ {
        CommandView::Execute(args)
    } else if name == "loop"@ {
        CommandView::Loop(
            parts[1],
            if parts.len() > 2 { parts[2] } else { "0"@ },
            join_after(parts, 3, " "@),
        )
    } else if name == "list"@ {
        CommandView::List
    } else if name == "kick"@ {
        CommandView::Kick(args)
    } else if name == "tellraw"@ {
        CommandView::Tellraw(args)
    } else if name == "login"@ {
        CommandView::Login(args)
    } else if name == "loops"@ {
        CommandView::Loops
    } else if name == "light"@ {
        CommandView::Light(args)
    } else if name == "disable"@ {
        CommandView::Disable(args)
    } else if name == "tellraw+"@ {
        CommandView::AdvancedTellraw(args)
    } else {
        CommandView::Help
    }
}

/// Commands that only logged-in players may give.
pub open spec fn needs_auth(c: CommandView) -> bool {
    c is Core || c is Loop
}

/// The words after the `n:` prefix of a chat message, or `None` when the
/// message does not start with `n:`.
pub open spec fn command_words_of(content: Seq<char>) -> Option<Seq<Seq<char>>> {
    if starts_with(content, "n:"@) {
        Some(words(content.skip(2)))
    } else {
        None
    }
}

impl BotCommand {
    /// Parses the words of a chat command.
    pub fn parse(parts: &Vec<String>) -> (r: BotCommand)
        requires
            parsable(parts.deep_view()),
        ensures
            r@ == command_of(parts.deep_view()),
    {
        let ghost ps = parts.deep_view();
        assert(ps[0] == parts[0]@);
        let name = &parts[0];
        let args = join_from(parts, 1, " ");
        if text_is(name, "help") {
            BotCommand::Help
        } else if text_is(name, "info") {
            BotCommand::Info
        } else if text_is(name, "core") {
            BotCommand::Core
        } else if text_is(name, "exe") {
            BotCommand::Execute(args)
        } else if text_is(name, "loop") {
            assert(ps[1] == parts[1]@);
            let action = copy_string(&parts[1]);
            let delay = if parts.len() > 2 {
                assert(ps[2] == parts[2]@);
                copy_string(&parts[2])
            } else {
                String::from_str("0")
            };
            let command = join_from(parts, 3, " ");
            BotCommand::Loop(action, delay, command)
        } else if text_is(name, "list") {
            BotCommand::List
        } else if text_is(name, "kick") {
            BotCommand::Kick(args)
        } else if text_is(name, "tellraw") {
            BotCommand::Tellraw(args)
        } else if text_is(name, "login") {
            BotCommand::Login(args)
        } else if text_is(name, "loops") {
            BotCommand::Loops
        } else if text_is(name, "light") {
            BotCommand::Light(args)
        } else if text_is(name, "disable") {
            BotCommand::Disable(args)
        } else if text_is(name, "tellraw+") {
            BotCommand::AdvancedTellraw(args)
        } else {
            BotCommand::Help
        }
    }

    /// Whether the command may only be given by a logged-in player.
    pub fn requires_auth(&self) -> (r: bool)
        ensures
            r == needs_auth(self@),
    {
        match self {
            BotCommand::Core | BotCommand::Loop(_, _, _) => true,
            _ => false,
        }
    }
}

/// The words of a chat message after its `n:` prefix, when it has one.
pub fn command_words(content: &String) -> (r: Option<Vec<String>>)
    ensures
        r is Some == (command_words_of(content@) is Some),
        r matches Some(w) ==> w.deep_view() == command_words_of(content@)->0,
{
    let chars = chars_of(content.as_str());
    let prefix = chars_of("n:");
    proof {
        reveal_strlit("n:");
    }
    if has_prefix(&chars, &prefix) {
        Some(split_words(&chars, 2))
    } else {
        None
    }
}

} // verus!
