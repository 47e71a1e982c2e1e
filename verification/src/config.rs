//! The prompt's colors and separator, and how the answers of the interactive
//! configurator choose them.
use vstd::prelude::*;

use crate::text::{text_is, trim_text, trimmed};
use termion::color;

verus! {

/// The terminal foreground colors the configuration offers.
#[derive(Debug, Clone, Copy, PartialEq, Eq, Structural)]
pub enum TermColor {
    LightGreen,
    LightBlue,
    LightCyan,
    LightYellow,
    LightRed,
    Red,
    LightMagenta,
    Magenta,
    /// The terminal's own default color.
    Reset,
}

/// The ANSI escape sequence that selects `c` as foreground color.
pub open spec fn ansi_fg(c: TermColor) -> Seq<char> {
    match c {
        TermColor::LightGreen => "\x1b[38;5;10m"@,
        TermColor::LightBlue => "\x1b[38;5;12m"@,
        TermColor::LightCyan => "\x1b[38;5;14m"@,
        TermColor::LightYellow => "\x1b[38;5;11m"@,
        TermColor::LightRed => "\x1b[38;5;9m"@,
        TermColor::Red => "\x1b[38;5;1m"@,
        TermColor::LightMagenta => "\x1b[38;5;13m"@,
        TermColor::Magenta => "\x1b[38;5;5m"@,
        TermColor::Reset => "\x1b[39m"@,
    }
}

/// What writing color `c` may give: its escape sequence, or, for a color
/// other than `Reset` when colors are switched off, nothing.
pub open spec fn fg_written(c: TermColor, s: Seq<char>) -> bool {
    ||| s == ansi_fg(c)
    ||| (c != TermColor::Reset && s.len() == 0)
}

/// Writes `termion::color::Fg` of the termion color `c` names to a string
/// (its `Display`). Claimed: `Reset` always gives `ESC [39m`; any other color
/// gives `ESC [38;5;Nm` with its palette number N, or the empty string when
/// the `NO_COLOR` environment variable is set, which termion looks up once
/// per process. Which of the two comes back is not stated.
#[verifier::external_body]
pub(crate) fn fg_text(c: TermColor) -> (r: String)
    ensures
        fg_written(c, r@),
        c == TermColor::Reset ==> r@ == ansi_fg(c),
{
    match c {
        TermColor::LightGreen => color::Fg(color::LightGreen).to_string(),
        TermColor::LightBlue => color::Fg(color::LightBlue).to_string(),
        TermColor::LightCyan => color::Fg(color::LightCyan).to_string(),
        TermColor::LightYellow => color::Fg(color::LightYellow).to_string(),
        TermColor::LightRed => color::Fg(color::LightRed).to_string(),
        TermColor::Red => color::Fg(color::Red).to_string(),
        TermColor::LightMagenta => color::Fg(color::LightMagenta).to_string(),
        TermColor::Magenta => color::Fg(color::Magenta).to_string(),
        TermColor::Reset => color::Fg(color::Reset).to_string(),
    }
}

/// The prompt's configuration: the color of the user name, the color of the
/// status shown after a failed command, and the separator before the input.
pub struct Conf {
    pub usercolor: String,
    pub errorcolor: String,
    pub separator: String,
}

/// The user name color that an answer picks: `0` light green, `1` light blue,
/// `2` light cyan, `3` light yellow, `4` the terminal default; anything else
/// light green. Surrounding whitespace is ignored.
pub open spec fn user_color_for(answer: Seq<char>) -> TermColor {
    let t = trimmed(answer);
    if t == "1"@ {
        TermColor::LightBlue
    } else if t == "2"@ {
        TermColor::LightCyan
    } else if t == "3"@ {
        TermColor::LightYellow
    } else if t == "4"@ {
        TermColor::Reset
    } else {
        TermColor::LightGreen
    }
}

/// The status color that an answer picks: `0` light red, `1` red, `2` light
/// magenta, `3` magenta, `4` the terminal default; anything else light red.
pub open spec fn error_color_for(answer: Seq<char>) -> TermColor {
    let t = trimmed(answer);
    if t == "1"@ {
        TermColor::Red
    } else if t == "2"@ {
        TermColor::LightMagenta
    } else if t == "3"@ {
        TermColor::Magenta
    } else if t == "4"@ {
        TermColor::Reset
    } else {
        TermColor::LightRed
    }
}

/// The separator that an answer gives: the answer without surrounding
/// whitespace, or `->` when that is empty.
pub open spec fn separator_for(answer: Seq<char>) -> Seq<char> {
    if trimmed(answer).len() == 0 {
        "->"@
    } else {
        trimmed(answer)
    }
}

/// Each entry of the configurator's menus picks its own color: for the user
/// name `0` light green, `1` light blue, `2` light cyan, `3` light yellow, `4`
/// the terminal default; for the status `0` light red, `1` red, `2` light
/// magenta, `3` magenta, `4` the terminal default. A separator answer that is
/// not blank is used as it stands, without its surrounding whitespace.
pub proof fn law_menu_entries(answer: Seq<char>)
    ensures
        trimmed(answer) == "0"@ ==> user_color_for(answer) == TermColor::LightGreen,
        trimmed(answer) == "1"@ ==> user_color_for(answer) == TermColor::LightBlue,
        trimmed(answer) == "2"@ ==> user_color_for(answer) == TermColor::LightCyan,
        trimmed(answer) == "3"@ ==> user_color_for(answer) == TermColor::LightYellow,
        trimmed(answer) == "4"@ ==> user_color_for(answer) == TermColor::Reset,
        trimmed(answer) == "0"@ ==> error_color_for(answer) == TermColor::LightRed,
        trimmed(answer) == "1"@ ==> error_color_for(answer) == TermColor::Red,
        trimmed(answer) == "2"@ ==> error_color_for(answer) == TermColor::LightMagenta,
        trimmed(answer) == "3"@ ==> error_color_for(answer) == TermColor::Magenta,
        trimmed(answer) == "4"@ ==> error_color_for(answer) == TermColor::Reset,
        trimmed(answer).len() > 0 ==> separator_for(answer) == trimmed(answer),
{
    reveal_strlit("0");
    reveal_strlit("1");
    reveal_strlit("2");
    reveal_strlit("3");
    reveal_strlit("4");
    assert("0"@.len() == 1 && "1"@.len() == 1 && "2"@.len() == 1 && "3"@.len() == 1 && "4"@.len()
        == 1);
    assert("0"@[0] != "1"@[0] && "0"@[0] != "2"@[0] && "0"@[0] != "3"@[0] && "0"@[0] != "4"@[0]);
    assert("1"@[0] != "2"@[0] && "1"@[0] != "3"@[0] && "1"@[0] != "4"@[0]);
    assert("2"@[0] != "3"@[0] && "2"@[0] != "4"@[0] && "3"@[0] != "4"@[0]);
}

/// Answers that pick nothing (anything but `1` to `4`, and a blank separator)
/// give the default configuration's colors and separator.
pub proof fn law_unrecognized_answers_give_defaults(
    user_answer: Seq<char>,
    error_answer: Seq<char>,
    separator_answer: Seq<char>,
)
    requires
        trimmed(user_answer) != "1"@,
        trimmed(user_answer) != "2"@,
        trimmed(user_answer) != "3"@,
        trimmed(user_answer) != "4"@,
        trimmed(error_answer) != "1"@,
        trimmed(error_answer) != "2"@,
        trimmed(error_answer) != "3"@,
        trimmed(error_answer) != "4"@,
        trimmed(separator_answer).len() == 0,
    ensures
        user_color_for(user_answer) == TermColor::LightGreen,
        error_color_for(error_answer) == TermColor::LightRed,
        separator_for(separator_answer) == "->"@,
{
}

/// The user name color chosen by `answer`.
pub fn user_color_choice(answer: &str) -> (r: TermColor)
    ensures
        r == user_color_for(answer@),
{
    let t = trim_text(answer);
    let t = t.as_str();
    if text_is(t, "1") {
        TermColor::LightBlue
    } else if text_is(t, "2") {
        TermColor::LightCyan
    } else if text_is(t, "3") {
        TermColor::LightYellow
    } else if text_is(t, "4") {
        TermColor::Reset
    } else {
        TermColor::LightGreen
    }
}

/// The status color chosen by `answer`.
pub fn error_color_choice(answer: &str) -> (r: TermColor)
    ensures
        r == error_color_for(answer@),
{
    let t = trim_text(answer);
    let t = t.as_str();
    if text_is(t, "1") {
        TermColor::Red
    } else if text_is(t, "2") {
        TermColor::LightMagenta
    } else if text_is(t, "3") {
        TermColor::Magenta
    } else if text_is(t, "4") {
        TermColor::Reset
    } else {
        TermColor::LightRed
    }
}

/// The separator given by `answer`.
pub fn separator_choice(answer: &str) -> (r: String)
    ensures
        r@ == separator_for(answer@),
{
    let t = trim_text(answer);
    if t.as_str().unicode_len() == 0 {
        String::from_str("->")
    } else {
        t
    }
}

impl Conf {
    /// The configuration that the three answers of the configurator ask for.
    pub fn from_answers(user_answer: &str, error_answer: &str, separator_answer: &str) -> (r: Conf)
        ensures
            fg_written(user_color_for(user_answer@), r.usercolor@),
            fg_written(error_color_for(error_answer@), r.errorcolor@),
            r.separator@ == separator_for(separator_answer@),
    {
        Conf {
            usercolor: fg_text(user_color_choice(user_answer)),
            errorcolor: fg_text(error_color_choice(error_answer)),
            separator: separator_choice(separator_answer),
        }
    }
}

impl Default for Conf {
    /// Light green user name, light red status, `->` separator.
    fn default() -> (r: Conf)
        ensures
            fg_written(TermColor::LightGreen, r.usercolor@),
            fg_written(TermColor::LightRed, r.errorcolor@),
            r.separator@ == "->"@,
    {
        Conf {
            usercolor: fg_text(TermColor::LightGreen),
            errorcolor: fg_text(TermColor::LightRed),
            separator: String::from_str("->"),
        }
    }
}

} // verus!
