//! The texts that the bot sends: `tellraw` commands, game commands and the
//! webhook message body.
use vstd::prelude::*;
use vstd::string::StringExecFns;
use crate::text::{push_repeated, repeat_char};

verus! {

broadcast use vstd::string::group_string_axioms;

/// The `tellraw` command that shows `msg` to every player after the bot's
/// coloured `[neo]` tag.
pub open spec fn tellraw_text(msg: Seq<char>) -> Seq<char> {
    "minecraft:tellraw @a [{\"text\":\"[\",\"color\":\"#54daf4\",\"italic\":false},{\"text\":\"n\",\"color\":\"#5ed0e8\",\"italic\":false},{\"text\":\"e\",\"color\":\"#68c6dc\",\"italic\":false},{\"text\":\"o\",\"color\":\"#72bcd0\",\"italic\":false},{\"text\":\"]\",\"color\":\"#8aa8c4\",\"italic\":false},{\"text\":\" "@
        + msg + "\",\"color\":\"white\"}]"@
}

/// The body of the webhook message that relays chat line `msg`.
pub open spec fn webhook_text(msg: Seq<char>) -> Seq<char> {
    "```ansi\n"@ + msg + "\n```"@
}

/// The character that opens the name of the item given by `kick`.
pub open spec fn kick_mark() -> char {
    '\u{0D9E}'
}

/// The `/give` command of `kick`: an item whose name is too long for the
/// player's client.
pub open spec fn kick_text(user: Seq<char>) -> Seq<char> {
    "/give "@ + user + " diamond_hoe[minecraft:custom_name='"@ + seq![kick_mark()] + repeat_char(
        'L',
        20000,
    ) + "']"@
}

/// The command of `light`: endless night vision for `user`.
pub open spec fn light_text(user: Seq<char>) -> Seq<char> {
    "effect give "@ + user + " night_vision infinite 0 true"@
}

/// The `tellraw` command for a message.
pub fn tellraw(msg: &str) -> (r: String)
    ensures
        r@ == tellraw_text(msg@),
{
    let mut s = String::new();
    s.append(
        "minecraft:tellraw @a [{\"text\":\"[\",\"color\":\"#54daf4\",\"italic\":false},{\"text\":\"n\",\"color\":\"#5ed0e8\",\"italic\":false},{\"text\":\"e\",\"color\":\"#68c6dc\",\"italic\":false},{\"text\":\"o\",\"color\":\"#72bcd0\",\"italic\":false},{\"text\":\"]\",\"color\":\"#8aa8c4\",\"italic\":false},{\"text\":\" ",
    );
    s.append(msg);
    s.append("\",\"color\":\"white\"}]");
    s
}

/// The body of the webhook message for a chat line.
pub fn webhook_content(msg: &str) -> (r: String)
    ensures
        r@ == webhook_text(msg@),
{
    let mut s = String::new();
    s.append("```ansi\n");
    s.append(msg);
    s.append("\n```");
    s
}

/// The command of `kick` for `user`.
pub fn kick_command(user: &str) -> (r: String)
    ensures
        r@ == kick_text(user@),
{
    let mut s = String::new();
    s.append("/give ");
    s.append(user);
    s.append(" diamond_hoe[minecraft:custom_name='");
    push_repeated(&mut s, '\u{0D9E}', 1);
    assert(repeat_char(kick_mark(), 1) == seq![kick_mark()]);
    push_repeated(&mut s, 'L', 20000);
    s.append("']");
    s
}

/// The command of `light` for `user`.
pub fn light_command(user: &str) -> (r: String)
    ensures
        r@ == light_text(user@),
{
    let mut s = String::new();
    s.append("effect give ");
    s.append(user);
    s.append(" night_vision infinite 0 true");
    s
}

} // verus!
