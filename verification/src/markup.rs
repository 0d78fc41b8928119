//! Markup messages: `[link]<color>text` pieces turned into a `tellraw`
//! component list. The pieces are found with the `regex` crate.
use vstd::prelude::*;
use vstd::string::StringExecFns;
use crate::text::{chars_of, join, string_of, trim, trim_chars};

verus! {

broadcast use vstd::string::group_string_axioms;

#[verifier::external_type_specification]
#[verifier::external_body]
pub struct ExRegex(regex::Regex);

#[verifier::external_type_specification]
#[verifier::external_body]
pub struct ExRegexError(regex::Error);

/// Groups 1, 2 and 3 of each successive match of `pattern` in `haystack`, as
/// `regex::Regex::captures_iter` yields them (`None` where a group did not
/// take part in the match).
pub uninterp spec fn regex_captures(pattern: Seq<char>, haystack: Seq<char>) -> Seq<
    (Option<Seq<char>>, Option<Seq<char>>, Option<Seq<char>>),
>;

/// Whether `pattern` compiles with `regex::Regex::new` (it does unless the
/// pattern is not valid regex syntax or exceeds the crate's default size
/// limit, which depend on the pattern alone).
pub uninterp spec fn regex_compiles(pattern: Seq<char>) -> bool;

/// One match of the markup pattern: its link, colour and text groups.
pub type Capture = (Option<String>, Option<String>, Option<String>);

/// A compiled pattern together with the text it was compiled from.
pub struct CompiledPattern {
    re: regex::Regex,
    pattern: Ghost<Seq<char>>,
}

/// The pattern of one markup piece: an optional `[link]`, an optional
/// `<color>` and the text up to the next `<` or `[`.
pub open spec fn markup_pattern() -> Seq<char> {
    "(?:\\[([^\\]]*)\\])?(?:<([^>]*)*>)?([^<\\[]*)"@
}

/// Why a markup message could not be turned into a command.
#[derive(Clone, Copy, Debug, PartialEq, Eq)]
pub enum MarkupError {
    /// The pattern did not compile.
    InvalidPattern,
}

/// Compiles `pattern` (`regex::Regex::new`); the error is the crate's.
#[verifier::external_body]
fn compile_pattern(pattern: &str) -> (r: Result<CompiledPattern, regex::Error>)
    ensures
        r is Ok == regex_compiles(pattern@),
        r matches Ok(p) ==> p.pattern@ == pattern@,
{
    match regex::Regex::new(pattern) {
        Ok(re) => Ok(CompiledPattern { re, pattern: Ghost(pattern@) }),
        Err(e) => Err(e),
    }
}

/// Groups 1 to 3 of every match of `p` in `haystack`
/// (`regex::Regex::captures_iter`).
#[verifier::external_body]
fn captures_of(p: &CompiledPattern, haystack: &str) -> (r: Vec<Capture>)
    ensures
        r.deep_view() == regex_captures(p.pattern@, haystack@),
{
    p.re.captures_iter(haystack).map(
        |c|
            (
                c.get(1).map(|m| m.as_str().to_string()),
                c.get(2).map(|m| m.as_str().to_string()),
                c.get(3).map(|m| m.as_str().to_string()),
            ),
    ).collect()
}

/// An absent group reads as empty text.
pub open spec fn group_text(g: Option<Seq<char>>) -> Seq<char> {
    match g {
        Some(t) => t,
        None => seq![],
    }
}

/// The clickable component of a link.
pub open spec fn link_component(link: Seq<char>) -> Seq<char> {
    "{\"text\":\""@ + link + "\",\"color\":\"aqua\",\"click_event\":{\"action\":\"open_url\",\"url\":\""@
        + trim(link) + "\"}}"@
}

/// The component of a text in a colour.
pub open spec fn text_component(text: Seq<char>, color: Seq<char>) -> Seq<char> {
    "{\"text\":\""@ + text + "\",\"color\":\""@ + color + "\"}"@
}

/// The components of one markup piece: the link, when there is one, then
/// the text, white unless a colour was given.
pub open spec fn piece_components(
    cap: (Option<Seq<char>>, Option<Seq<char>>, Option<Seq<char>>),
) -> Seq<Seq<char>> {
    let link = group_text(cap.0);
    let color = group_text(cap.1);
    let text = group_text(cap.2);
    (if link.len() > 0 { seq![link_component(link)] } else { seq![] }) + (if color.len() == 0 {
        seq![text_component(text, "white"@)]
    } else {
        seq![text_component(text, color)]
    })
}

/// The components of all pieces, in order.
pub open spec fn components(
    caps: Seq<(Option<Seq<char>>, Option<Seq<char>>, Option<Seq<char>>)>,
) -> Seq<Seq<char>>
    decreases caps.len(),
{
    if caps.len() == 0 {
        seq![]
    } else {
        components(caps.drop_last()) + piece_components(caps.last())
    }
}

/// The `tellraw` command that shows the pieces.
pub open spec fn markup_text(
    caps: Seq<(Option<Seq<char>>, Option<Seq<char>>, Option<Seq<char>>)>,
) -> Seq<char> {
    "/tellraw @a ["@ + join(components(caps), ","@) + "]"@
}

fn group_or_empty(g: &Option<String>) -> (r: Vec<char>)
    ensures
        r@ == group_text(g.deep_view()),
{
    match g {
        Some(t) => chars_of(t.as_str()),
        None => Vec::new(),
    }
}

fn text_component_exec(text: &Vec<char>, color: &str) -> (r: String)
    ensures
        r@ == text_component(text@, color@),
{
    let mut s = String::new();
    s.append("{\"text\":\"");
    let t = string_of(text);
    s.append(t.as_str());
    s.append("\",\"color\":\"");
    s.append(color);
    s.append("\"}");
    s
}

/// The components of the pieces, in order.
pub fn markup_components(caps: &Vec<Capture>) -> (r: Vec<String>)
    ensures
        r.deep_view() == components(caps.deep_view()),
{
    let ghost cs = caps.deep_view();
    let mut out: Vec<String> = Vec::new();
    for i in 0..caps.len()
        invariant
            cs == caps.deep_view(),
            out.deep_view() == components(cs.take(i as int)),
    {
        let ghost before = out.deep_view();
        proof {
            assert(cs.take(i + 1).drop_last() == cs.take(i as int));
            assert(cs.take(i + 1).last() == cs[i as int]);
        }
        let cap = &caps[i];
        let link = group_or_empty(&cap.0);
        let color = group_or_empty(&cap.1);
        let text = group_or_empty(&cap.2);
        if link.len() > 0 {
            let mut s = String::new();
            s.append("{\"text\":\"");
            let l = string_of(&link);
            s.append(l.as_str());
            s.append(
                "\",\"color\":\"aqua\",\"click_event\":{\"action\":\"open_url\",\"url\":\"",
            );
            let lt = string_of(&trim_chars(&link));
            s.append(lt.as_str());
            s.append("\"}}");
            out.push(s);
        }
        if color.len() == 0 {
            out.push(text_component_exec(&text, "white"));
        } else {
            let c = string_of(&color);
            out.push(text_component_exec(&text, c.as_str()));
        }
        assert(out.deep_view() == before + piece_components(cs[i as int]));
    }
    assert(cs.take(caps.len() as int) == cs);
    out
}

/// The `tellraw` command that shows the pieces.
pub fn markup_command(caps: &Vec<Capture>) -> (r: String)
    ensures
        r@ == markup_text(caps.deep_view()),
{
    let parts = markup_components(caps);
    let mut s = String::new();
    s.append("/tellraw @a [");
    let body = crate::text::join_from(&parts, 0, ",");
    assert(parts.deep_view().skip(0) == parts.deep_view());
    s.append(body.as_str());
    s.append("]");
    s
}

/// The `tellraw` command for a markup message such as
/// `"<gray>Join [https://example.org]"`; it fails exactly when the markup
/// pattern does not compile.
pub fn advanced_tellraw(message: &String) -> (r: Result<String, MarkupError>)
    ensures
        r is Ok == regex_compiles(markup_pattern()),
        r matches Ok(c) ==> c@ == markup_text(regex_captures(markup_pattern(), message@)),
        r matches Err(e) ==> e == MarkupError::InvalidPattern,
{
    match compile_pattern("(?:\\[([^\\]]*)\\])?(?:<([^>]*)*>)?([^<\\[]*)") {
        Ok(p) => {
            let caps = captures_of(&p, message.as_str());
            Ok(markup_command(&caps))
        },
        Err(_) => Err(MarkupError::InvalidPattern),
    }
}

} // verus!
