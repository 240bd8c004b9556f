//! Suggestion lists: how commands and envs are shown, and which one was
//! picked.

use crossterm::style::{Color, Stylize};
use vstd::prelude::*;

use crate::models::{EnvKind, StoredCommand, StoredEnv};
#[allow(unused_imports)]
use crate::models::EnvView;
use crate::text::{char_is_space, chars_of, lossy_text, string_of};
#[allow(unused_imports)]
use crate::text::{decimal, is_space, read_lossily};
#[allow(unused_imports)]
use crate::views::{group_views, views};

verus! {

broadcast use {vstd::string::group_string_axioms, group_views};

/// Max rows returned by either search-as-you-type query, applied as a SQL
/// LIMIT - the suggestion list can never grow past this regardless of how
/// many commands/envs are stored or how tall the terminal is.
pub const MAX_SUGGESTIONS: i64 = 10;

/// A character of an id.
pub open spec fn is_id_char(c: char) -> bool {
    ('a' <= c && c <= 'z') || ('A' <= c && c <= 'Z') || ('0' <= c && c <= '9') || c == '_' || c
        == '-'
}

/// `s` ends with an id in brackets and nothing but white space behind it: the
/// id goes from `from` to `to`.
pub open spec fn is_id_suffix(s: Seq<char>, from: int, to: int) -> bool {
    &&& 0 < from < to < s.len()
    &&& s[from - 1] == '['
    &&& forall|k: int| from <= k < to ==> is_id_char(#[trigger] s[k])
    &&& s[to] == ']'
    &&& forall|k: int| to < k < s.len() ==> is_space(#[trigger] s[k])
}

/// The id in brackets that `s` ends with, if it ends with one.
pub open spec fn id_suffix(s: Seq<char>) -> Option<Seq<char>> {
    if exists|from: int, to: int| is_id_suffix(s, from, to) {
        let (from, to) = choose|from: int, to: int| is_id_suffix(s, from, to);
        Some(s.subrange(from, to))
    } else {
        None
    }
}

/// There is only one place for the id.
proof fn id_suffix_is_unique(s: Seq<char>, from: int, to: int, from2: int, to2: int)
    requires
        is_id_suffix(s, from, to),
        is_id_suffix(s, from2, to2),
    ensures
        from == from2,
        to == to2,
{
    if to < to2 {
        assert(is_space(s[to2]));
    }
    if to2 < to {
        assert(is_space(s[to]));
    }
    if from < from2 {
        assert(is_id_char(s[from2 - 1]));
    }
    if from2 < from {
        assert(is_id_char(s[from - 1]));
    }
}

/// An id suffix that stands where it says is the id.
pub proof fn id_suffix_is(s: Seq<char>, from: int, to: int)
    requires
        is_id_suffix(s, from, to),
    ensures
        id_suffix(s) == Some(s.subrange(from, to)),
{
    let (f, t) = choose|f: int, t: int| is_id_suffix(s, f, t);
    id_suffix_is_unique(s, from, to, f, t);
}

fn char_is_id_char(c: char) -> (r: bool)
    ensures
        r == is_id_char(c),
{
    ('a' <= c && c <= 'z') || ('A' <= c && c <= 'Z') || ('0' <= c && c <= '9') || c == '_' || c
        == '-'
}

/// The id at the end of a suggestion that was picked.
pub fn parse_id_suffix(suggestion: &str) -> (r: Option<String>)
    ensures
        match r {
            Some(id) => id_suffix(suggestion@) == Some(id@),
            None => id_suffix(suggestion@) is None,
        },
{
    let cs = chars_of(suggestion);
    let mut end: usize = cs.len();
    while end > 0 && char_is_space(cs[end - 1])
        invariant
            end <= cs.len(),
            forall|k: int| end <= k < cs@.len() ==> is_space(#[trigger] cs@[k]),
        decreases end,
    {
        end -= 1;
    }
    if end == 0 || cs[end - 1] != ']' {
        proof {
            if id_suffix(cs@) is Some {
                let (f, t) = choose|f: int, t: int| is_id_suffix(cs@, f, t);
                assert(!is_space(cs@[t]));
                assert(t < end);
                if t + 1 < end {
                    assert(is_space(cs@[end - 1]));
                }
            }
        }
        return None;
    }
    let to: usize = end - 1;
    let mut from: usize = to;
    while from > 0 && char_is_id_char(cs[from - 1])
        invariant
            from <= to < cs.len(),
            forall|k: int| from <= k < to ==> is_id_char(#[trigger] cs@[k]),
        decreases from,
    {
        from -= 1;
    }
    if from == to || from == 0 || cs[from - 1] != '[' {
        proof {
            if id_suffix(cs@) is Some {
                let (f, t) = choose|f: int, t: int| is_id_suffix(cs@, f, t);
                if t < to {
                    assert(is_space(cs@[to as int]));
                }
                if to < t {
                    assert(is_space(cs@[t]));
                }
                if f < from {
                    assert(is_id_char(cs@[from - 1]));
                }
                if from < f {
                    assert(is_id_char(cs@[f - 1]));
                }
            }
        }
        return None;
    }
    proof {
        id_suffix_is(cs@, from as int, to as int);
    }
    Some(string_of(&cs, from, to))
}

/// The control sequence for a colour, or the empty one where colours are off.
pub open spec fn colour_sequence(code: Seq<char>, on: bool) -> Seq<char> {
    if on {
        "\x1b["@ + code + "m"@
    } else {
        "\x1b["@ + "m"@
    }
}

/// A text in a colour, bold or not, on a terminal that takes control
/// sequences.
pub open spec fn ansi_styled(
    text: Seq<char>,
    code: Seq<char>,
    bold: bool,
    on: bool,
    off: bool,
) -> Seq<char> {
    if bold {
        colour_sequence(code, on) + "\x1b[1m"@ + text + "\x1b[0m"@
    } else {
        colour_sequence(code, on) + text + colour_sequence("39"@, off)
    }
}

/// What styling makes of a text: control sequences around it, with or without
/// the colour, or nothing where the terminal takes no control sequences.
pub open spec fn is_styled(r: Seq<char>, text: Seq<char>, code: Seq<char>, bold: bool) -> bool {
    ||| r.len() == 0
    ||| exists|on: bool, off: bool| r == #[trigger] ansi_styled(text, code, bold, on, off)
}

/// The code of a colour given by its parts.
pub open spec fn rgb_code(red: u8, green: u8, blue: u8) -> Seq<char> {
    "38;2;"@ + decimal(red as nat) + ";"@ + decimal(green as nat) + ";"@ + decimal(blue as nat)
}

/// `crossterm::style::Stylize::with` an RGB colour and `bold`, written out:
/// the text between the sequences for the colour, for bold, and for a reset.
/// Whether the colour is on depends on the environment, and old Windows
/// consoles get an empty text: each of these is left open.
#[verifier::external_body]
fn style_bold_rgb(text: &str, red: u8, green: u8, blue: u8) -> (r: String)
    ensures
        is_styled(r@, text@, rgb_code(red, green, blue), true),
{
    text.with(Color::Rgb { r: red, g: green, b: blue }).bold().to_string()
}

/// `crossterm::style::Stylize::dark_grey`, written out: the text between the
/// sequences for the colour and for the default colour. Whether the colours
/// are on depends on the environment, and old Windows consoles get an empty
/// text: each of these is left open.
#[verifier::external_body]
fn style_dark_grey(text: &str) -> (r: String)
    ensures
        is_styled(r@, text@, "38;5;8"@, false),
{
    text.dark_grey().to_string()
}

/// `crossterm::style::Stylize::with` green and `bold`, written out: the text
/// between the sequences for the colour, for bold, and for a reset. Whether
/// the colour is on depends on the environment, and old Windows consoles get
/// an empty text: each of these is left open.
#[verifier::external_body]
fn style_bold_green(text: &str) -> (r: String)
    ensures
        is_styled(r@, text@, "38;5;10"@, true),
{
    text.with(Color::Green).bold().to_string()
}

/// A variable's name, green so that it jumps out from the surrounding kind and
/// env detail.
pub fn highlight_name(name: &str) -> (r: String)
    ensures
        is_styled(r@, name@, "38;5;10"@, true),
{
    style_bold_green(name)
}

/// The color used for the field you're actually scanning for in a
/// suggestion list - a command's description, an env's name - so it jumps
/// out from the dimmer reference detail (command text, value, id) next to
/// it.
pub open spec fn highlight_code() -> Seq<char> {
    rgb_code(255, 140, 0)
}

/// A styled text that stands out.
fn highlight(text: &str) -> (r: String)
    ensures
        is_styled(r@, text@, highlight_code(), true),
{
    style_bold_rgb(text, 255, 140, 0)
}

/// The line of a command in a suggestion list.
pub open spec fn command_suggestion(
    description: Seq<char>,
    arrow: Seq<char>,
    template: Seq<char>,
    id: Seq<char>,
) -> Seq<char> {
    description + " "@ + arrow + " "@ + template + "   ["@ + id + "]"@
}

/// Joins the styled parts of a command's line.
pub fn join_command_suggestion(description: &str, arrow: &str, template: &str, id: &str) -> (r:
    String)
    ensures
        r@ == command_suggestion(description@, arrow@, template@, id@),
{
    let mut out = description.to_string();
    out.append(" ");
    out.append(arrow);
    out.append(" ");
    out.append(template);
    out.append("   [");
    out.append(id);
    out.append("]");
    out
}

/// Whether `r` is the line of a command, however its parts were styled.
pub open spec fn is_command_suggestion(
    r: Seq<char>,
    description: Seq<char>,
    template: Seq<char>,
    id: Seq<char>,
) -> bool {
    exists|d: Seq<char>, a: Seq<char>, t: Seq<char>|
        r == #[trigger] command_suggestion(d, a, t, id) && is_styled(
            d,
            description,
            highlight_code(),
            true,
        ) && is_styled(a, "\u{2192}"@, "38;5;8"@, false) && is_styled(t, template, "38;5;8"@, false)
}

/// Description in orange, the command itself dimmed to grey - the
/// description is what you're scanning for, the command is reference detail
/// once you've found it. Inquire's renderer is ANSI-aware, so these embedded
/// escape codes render correctly and are excluded from width/cursor math;
/// the trailing `[id]` stays unstyled so `parse_id_suffix` keeps matching
/// plain text.
pub fn format_command_suggestion(cmd: &StoredCommand) -> (r: String)
    ensures
        is_command_suggestion(r@, cmd.description@, cmd.template@, cmd.id@),
{
    let description = highlight(cmd.description.as_str());
    let arrow = style_dark_grey("\u{2192}");
    let template = style_dark_grey(cmd.template.as_str());
    join_command_suggestion(&description, &arrow, &template, &cmd.id)
}

/// What a suggestion list shows of an env's value.
pub open spec fn display_value(env: EnvView) -> Seq<char> {
    if env.kind == EnvKind::Secret {
        "***"@
    } else {
        read_lossily(env.value)
    }
}

/// A value preview shown next to an env's name in a suggestion list. Never
/// reveals a secret's plaintext - only ever shows a masked placeholder for
/// Secret kind, matching `inr env s`'s display rule.
pub fn env_display_value(env: &StoredEnv) -> (r: String)
    ensures
        r@ == display_value(env@),
{
    match env.kind {
        EnvKind::Secret => "***".to_string(),
        _ => lossy_text(env.value.as_slice()),
    }
}

/// The line of an env in a suggestion list.
pub open spec fn env_suggestion(
    name: Seq<char>,
    equals: Seq<char>,
    value: Seq<char>,
    kind: Seq<char>,
    id: Seq<char>,
) -> Seq<char> {
    name + " "@ + equals + " "@ + value + "  "@ + kind + "   ["@ + id + "]"@
}

/// Joins the styled parts of an env's line.
pub fn join_env_suggestion(name: &str, equals: &str, value: &str, kind: &str, id: &str) -> (r:
    String)
    ensures
        r@ == env_suggestion(name@, equals@, value@, kind@, id@),
{
    let mut out = name.to_string();
    out.append(" ");
    out.append(equals);
    out.append(" ");
    out.append(value);
    out.append("  ");
    out.append(kind);
    out.append("   [");
    out.append(id);
    out.append("]");
    out
}

/// Whether `r` is the line of an env, however its parts were styled.
pub open spec fn is_env_suggestion(r: Seq<char>, env: EnvView) -> bool {
    exists|n: Seq<char>, e: Seq<char>, v: Seq<char>, k: Seq<char>|
        r == #[trigger] env_suggestion(n, e, v, k, env.id) && is_styled(
            n,
            env.name,
            highlight_code(),
            true,
        ) && is_styled(e, "="@, "38;5;8"@, false) && is_styled(
            v,
            display_value(env),
            "38;5;8"@,
            false,
        ) && is_styled(k, "("@ + env.kind.text() + ")"@, "38;5;8"@, false)
}

pub fn format_env_suggestion(env: &StoredEnv) -> (r: String)
    ensures
        is_env_suggestion(r@, env@),
{
    let mut kind_text = "(".to_string();
    kind_text.append(env.kind.as_str());
    kind_text.append(")");
    let name = highlight(env.name.as_str());
    let equals = style_dark_grey("=");
    let value = style_dark_grey(&env_display_value(env));
    let kind = style_dark_grey(&kind_text);
    let r = join_env_suggestion(&name, &equals, &value, &kind, &env.id);
    assert(r@ == env_suggestion(name@, equals@, value@, kind@, env@.id));
    assert(is_styled(name@, env@.name, highlight_code(), true));
    assert(is_styled(equals@, "="@, "38;5;8"@, false));
    assert(is_styled(value@, display_value(env@), "38;5;8"@, false));
    assert(is_styled(kind@, "("@ + env@.kind.text() + ")"@, "38;5;8"@, false));
    r
}

/// An id that a suggestion can carry.
pub open spec fn is_id(id: Seq<char>) -> bool {
    id.len() > 0 && forall|k: int| 0 <= k < id.len() ==> is_id_char(#[trigger] id[k])
}

/// An id in brackets at the end of a text is read back.
proof fn bracketed_id_reads_back(before: Seq<char>, id: Seq<char>)
    requires
        is_id(id),
    ensures
        id_suffix(before + "   ["@ + id + "]"@) == Some(id),
{
    reveal_strlit("   [");
    reveal_strlit("]");
    let s = before + "   ["@ + id + "]"@;
    let from: int = before.len() as int + 4;
    let to: int = from + id.len() as int;
    assert(s[from - 1] == '[');
    assert(s[to] == ']');
    assert forall|k: int| from <= k < to implies is_id_char(#[trigger] s[k]) by {
        assert(s[k] == id[k - from]);
    }
    id_suffix_is(s, from, to);
    assert(s.subrange(from, to) =~= id);
}

/// Picking a suggestion picks the command it shows, however it was styled.
pub proof fn command_suggestion_names_its_command(
    r: Seq<char>,
    description: Seq<char>,
    template: Seq<char>,
    id: Seq<char>,
)
    requires
        is_id(id),
        is_command_suggestion(r, description, template, id),
    ensures
        id_suffix(r) == Some(id),
{
    let (d, a, t) = choose|d: Seq<char>, a: Seq<char>, t: Seq<char>|
        r == #[trigger] command_suggestion(d, a, t, id) && is_styled(
            d,
            description,
            highlight_code(),
            true,
        ) && is_styled(a, "\u{2192}"@, "38;5;8"@, false) && is_styled(t, template, "38;5;8"@, false);
    bracketed_id_reads_back(d + " "@ + a + " "@ + t, id);
}

/// Picking a suggestion picks the env it shows, however it was styled.
pub proof fn env_suggestion_names_its_env(r: Seq<char>, env: EnvView)
    requires
        is_id(env.id),
        is_env_suggestion(r, env),
    ensures
        id_suffix(r) == Some(env.id),
{
    let (n, e, v, k) = choose|n: Seq<char>, e: Seq<char>, v: Seq<char>, k: Seq<char>|
        r == #[trigger] env_suggestion(n, e, v, k, env.id) && is_styled(
            n,
            env.name,
            highlight_code(),
            true,
        ) && is_styled(e, "="@, "38;5;8"@, false) && is_styled(
            v,
            display_value(env),
            "38;5;8"@,
            false,
        ) && is_styled(k, "("@ + env.kind.text() + ")"@, "38;5;8"@, false);
    bracketed_id_reads_back(n + " "@ + e + " "@ + v + "  "@ + k, env.id);
}

/// A suggestion list shows nothing of a secret's value, encrypted or not.
pub proof fn suggestions_hide_secrets(a: EnvView, b: EnvView)
    requires
        a.kind == EnvKind::Secret,
        b.kind == EnvKind::Secret,
    ensures
        display_value(a) == display_value(b),
{
}

/// Autocompletes env names.
///
/// In `Deferred` mode it only activates once the input starts with '@' -
/// used for a combined "type a literal value, or @ to search" field where
/// plain typing must NOT be treated as a search query. In `Immediate` mode
/// it searches on every keystroke with no prefix required - used for a
/// field whose sole purpose is already "search envs" (`inr env s`, and the
/// secret lookup after choosing "Look up from saved secrets" in `inr s`),
/// where making the user type '@' first would just be a redundant step.
#[derive(Debug, Clone, Copy, PartialEq, Eq, Structural)]
pub enum EnvLookupMode {
    Immediate,
    Deferred,
}

impl EnvLookupMode {
    /// What to search for, if there is to be a search.
    pub open spec fn query_of(self, input: Seq<char>) -> Option<Seq<char>> {
        match self {
            EnvLookupMode::Immediate => Some(input),
            EnvLookupMode::Deferred => if input.len() > 0 && input[0] == '@' {
                Some(input.subrange(1, input.len() as int))
            } else {
                None
            },
        }
    }

    /// The search that an input asks for. Without one there are no
    /// suggestions.
    pub fn query(self, input: &str) -> (r: Option<String>)
        ensures
            match r {
                Some(query) => self.query_of(input@) == Some(query@),
                None => self.query_of(input@) is None,
            },
    {
        match self {
            EnvLookupMode::Immediate => Some(input.to_string()),
            EnvLookupMode::Deferred => {
                let cs = chars_of(input);
                if cs.len() > 0 && cs[0] == '@' {
                    Some(string_of(&cs, 1, cs.len()))
                } else {
                    None
                }
            },
        }
    }
}

/// What to do with an answer to a search prompt.
#[derive(Debug, PartialEq, Eq)]
pub enum PickStep {
    /// Ask again, after this notice.
    Again(&'static str),
    /// Look up the command or env with this id.
    LookUp(String),
}

/// The id of what was picked, if the answer is one of the suggestions that were
/// offered. Any other text was typed, whatever it looks like.
pub open spec fn picked_id(answer: Seq<char>, offered: Seq<Seq<char>>) -> Option<Seq<char>> {
    if offered.contains(answer) {
        id_suffix(answer)
    } else {
        None
    }
}

/// Finds out whether an answer is a pick, and of what.
pub fn parse_pick(answer: &str, offered: &[String]) -> (r: Option<String>)
    ensures
        match r {
            Some(id) => picked_id(answer@, views(offered@)) == Some(id@),
            None => picked_id(answer@, views(offered@)) is None,
        },
{
    let ghost all = views(offered@);
    let mut i: usize = 0;
    while i < offered.len()
        invariant
            i <= offered.len(),
            all == views(offered@),
            forall|k: int| 0 <= k < i ==> #[trigger] all[k] != answer@,
        decreases offered.len() - i,
    {
        assert(all[i as int] == offered@[i as int]@);
        if *offered[i].as_str() == *answer {
            return parse_id_suffix(answer);
        }
        i += 1;
    }
    None
}

/// Reads the answer to the search for a command.
pub fn pick_command(answer: &str, offered: &[String]) -> (r: PickStep)
    ensures
        match r {
            PickStep::LookUp(id) => picked_id(answer@, views(offered@)) == Some(id@),
            PickStep::Again(notice) => picked_id(answer@, views(offered@)) is None && notice@
                == "No command selected - pick one from the list with \u{2191}/\u{2193} and Enter."@,
        },
{
    match parse_pick(answer, offered) {
        Some(id) => PickStep::LookUp(id),
        None => PickStep::Again(
            "No command selected - pick one from the list with \u{2191}/\u{2193} and Enter.",
        ),
    }
}

/// Reads the answer to the search for an env.
pub fn pick_env(answer: &str, offered: &[String]) -> (r: PickStep)
    ensures
        match r {
            PickStep::LookUp(id) => picked_id(answer@, views(offered@)) == Some(id@),
            PickStep::Again(notice) => picked_id(answer@, views(offered@)) is None && notice@
                == "No env selected - pick one from the list with \u{2191}/\u{2193} and Enter."@,
        },
{
    match parse_pick(answer, offered) {
        Some(id) => PickStep::LookUp(id),
        None => PickStep::Again(
            "No env selected - pick one from the list with \u{2191}/\u{2193} and Enter.",
        ),
    }
}

/// Takes the command that a lookup found, or says that it is gone.
pub fn picked_command(found: Option<StoredCommand>) -> (r: Result<StoredCommand, &'static str>)
    ensures
        match r {
            Ok(cmd) => found == Some(cmd),
            Err(notice) => found is None && notice@ == "That command no longer exists, try again."@,
        },
{
    match found {
        Some(cmd) => Ok(cmd),
        None => Err("That command no longer exists, try again."),
    }
}

/// Whether a search that is restricted to `kind_filter` may give an env of
/// this kind. An empty filter restricts nothing.
pub open spec fn passes_filter(kind: EnvKind, kind_filter: Seq<EnvKind>) -> bool {
    kind_filter.len() == 0 || kind_filter.contains(kind)
}

/// Tests an env against the filter of a search.
fn is_searched_kind(kind: EnvKind, kind_filter: &[EnvKind]) -> (r: bool)
    ensures
        r == passes_filter(kind, kind_filter@),
{
    let mut i: usize = 0;
    while i < kind_filter.len()
        invariant
            i <= kind_filter.len(),
            forall|k: int| 0 <= k < i ==> #[trigger] kind_filter@[k] != kind,
        decreases kind_filter.len() - i,
    {
        if kind_filter[i] == kind {
            return true;
        }
        i += 1;
    }
    kind_filter.len() == 0
}

/// Takes the env that a lookup found, or says that it is gone or none of those
/// that were searched.
pub fn picked_env(found: Option<StoredEnv>, kind_filter: &[EnvKind]) -> (r: Result<
    StoredEnv,
    &'static str,
>)
    ensures
        match r {
            Ok(env) => found == Some(env) && passes_filter(env.kind, kind_filter@),
            Err(notice) => match found {
                Some(env) => !passes_filter(env.kind, kind_filter@) && notice@
                    == "No env selected - pick one from the list with \u{2191}/\u{2193} and Enter."@,
                None => notice@ == "That env no longer exists, try again."@,
            },
        },
{
    match found {
        Some(env) => if is_searched_kind(env.kind, kind_filter) {
            Ok(env)
        } else {
            Err("No env selected - pick one from the list with \u{2191}/\u{2193} and Enter.")
        },
        None => Err("That env no longer exists, try again."),
    }
}

} // verus!
