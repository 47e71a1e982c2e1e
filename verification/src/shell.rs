//! The read-run loop's own decisions: what an input line becomes, which
//! status a finished command leaves for the next prompt, and the prompt itself.
use vstd::prelude::*;

use crate::config::Conf;
use crate::parse::{lemma_words_empty_iff_blank, split_input, texts, words};
use crate::status::{errno_is_enoent, Returns, ShellError, ShellResult};
use crate::text::{has_content, lemma_trimmed_empty, push_signed_decimal, signed_decimal, trim_text};

verus! {

/// What the last command left for the prompt: its exit code, and the signal
/// that ended it, if one did.
#[derive(Debug, Clone, Copy, PartialEq, Eq, Structural)]
pub struct LastStatus {
    pub return_code: i32,
    pub signal: Option<i32>,
}

impl LastStatus {
    /// The status before any command: code 0, no signal.
    pub fn new() -> (r: LastStatus)
        ensures
            r.return_code == 0,
            r.signal is None,
    {
        LastStatus { return_code: 0, signal: None }
    }
}

/// What the loop does after a command.
#[derive(Debug, Clone, Copy, PartialEq, Eq, Structural)]
pub enum Next {
    /// Prompt again, showing this status.
    Continue(LastStatus),
    /// Leave the shell successfully.
    Quit,
}

/// The exit code recorded for an error: 127 when the program was not found,
/// 126 when it could not be started for another reason, 1 for anything else.
pub open spec fn error_code(e: ShellError) -> i32 {
    match e {
        ShellError::Exec(c) => if c == 2 {
            127
        } else {
            126
        },
        _ => 1,
    }
}

/// The status after a command gave `outcome`, the shell's status having been
/// `status`. A signal leaves the code as it was.
pub open spec fn spec_after_command(status: LastStatus, outcome: ShellResult) -> Next {
    match outcome {
        Ok(Returns::Code(c)) => Next::Continue(LastStatus { return_code: c, signal: None }),
        Ok(Returns::ShellSignal(s)) => Next::Continue(
            LastStatus { return_code: status.return_code, signal: Some(s) },
        ),
        Ok(Returns::ExitSig) => Next::Quit,
        Err(e) => Next::Continue(LastStatus { return_code: error_code(e), signal: None }),
    }
}

/// After an exit code the shell shows that code and no signal; after a signal
/// it keeps the previous code and shows the signal; `ExitSig` quits; a program
/// that could not be started leaves 127 when it was not found (error number 2)
/// and 126 otherwise; every other error leaves 1. No error leaves a signal.
pub proof fn law_status_after_command(status: LastStatus, code: i32, sig: i32, e: ShellError)
    ensures
        spec_after_command(status, Ok(Returns::Code(code))) == Next::Continue(
            LastStatus { return_code: code, signal: None },
        ),
        spec_after_command(status, Ok(Returns::ShellSignal(sig))) == Next::Continue(
            LastStatus { return_code: status.return_code, signal: Some(sig) },
        ),
        spec_after_command(status, Ok(Returns::ExitSig)) == Next::Quit,
        spec_after_command(status, Err(ShellError::Exec(2))) == Next::Continue(
            LastStatus { return_code: 127, signal: None },
        ),
        code != 2 ==> spec_after_command(status, Err(ShellError::Exec(code))) == Next::Continue(
            LastStatus { return_code: 126, signal: None },
        ),
        !(e is Exec) ==> spec_after_command(status, Err(e)) == Next::Continue(
            LastStatus { return_code: 1, signal: None },
        ),
{
}

/// Records how a command ended.
pub fn after_command(status: LastStatus, outcome: &ShellResult) -> (r: Next)
    ensures
        r == spec_after_command(status, *outcome),
{
    match outcome {
        Ok(Returns::Code(c)) => Next::Continue(LastStatus { return_code: *c, signal: None }),
        Ok(Returns::ShellSignal(s)) => Next::Continue(
            LastStatus { return_code: status.return_code, signal: Some(*s) },
        ),
        Ok(Returns::ExitSig) => Next::Quit,
        Err(e) => {
            let code = match e {
                ShellError::Exec(c) => if errno_is_enoent(*c) {
                    127
                } else {
                    126
                },
                _ => 1,
            };
            Next::Continue(LastStatus { return_code: code, signal: None })
        },
    }
}

/// What an input line becomes.
#[derive(Debug, PartialEq, Eq)]
pub enum Line {
    /// Nothing but whitespace: ignored.
    Blank,
    /// Refused with this error; the status stays as it was.
    Refused(ShellError),
    /// The arguments of a command, never empty.
    Args(Vec<String>),
}

/// Reads an input line: blank lines are skipped, a line holding a NUL
/// character is refused, anything else gives its words.
pub fn read_line_args(line: &str) -> (r: Line)
    ensures
        r is Blank <==> !has_content(line@),
        r is Refused <==> has_content(line@) && line@.contains('\0'),
        r matches Line::Refused(e) ==> e == ShellError::CStringNullByte,
        r matches Line::Args(v) ==> v.len() > 0 && texts(v@) == words(line@),
{
    let t = trim_text(line);
    proof {
        lemma_trimmed_empty(line@);
        lemma_words_empty_iff_blank(line@);
    }
    if t.as_str().unicode_len() == 0 {
        return Line::Blank;
    }
    match split_input(line) {
        Ok(v) => {
            assert(texts(v@).len() == v@.len());
            Line::Args(v)
        },
        Err(e) => Line::Refused(e),
    }
}

/// The name of the signal with number `number`, as nix's `Signal` shows it
/// (`SIGINT`, `SIGTERM`, ...), or `None` when nix knows no such signal.
pub uninterp spec fn signal_name_of(number: i32) -> Option<Seq<char>>;

/// Calls `nix::sys::signal::Signal::try_from(number)` and, when it succeeds,
/// `Signal::as_str` (which its `Display` writes). Claimed: the answer is a
/// function of `number` alone (a fixed table in nix).
#[verifier::external_body]
fn signal_name(number: i32) -> (r: Option<String>)
    ensures
        match r {
            Some(s) => signal_name_of(number) == Some(s@),
            None => signal_name_of(number) is None,
        },
{
    match nix::sys::signal::Signal::try_from(number) {
        Ok(s) => Some(s.as_str().to_string()),
        Err(_) => None,
    }
}

/// Calls `nix::sys::signal::Signal::try_from(number) == Ok(Signal::SIGINT)`.
/// Claimed: true exactly for number 2, libc's `SIGINT` on the unix targets.
#[verifier::external_body]
fn signal_is_interrupt(number: i32) -> (r: bool)
    ensures
        r == (number == 2),
{
    nix::sys::signal::Signal::try_from(number) == Ok(nix::sys::signal::Signal::SIGINT)
}

/// Whether an empty line is printed before the prompt: after an interrupt
/// (signal 2, `SIGINT`) ended the last command.
pub fn needs_blank_line(status: LastStatus) -> (r: bool)
    ensures
        r == (status.signal == Some(2i32)),
{
    match status.signal {
        Some(s) => signal_is_interrupt(s),
        None => false,
    }
}

/// The text shown for signal `number`: its name, or its number when it has none.
pub open spec fn signal_text(number: i32) -> Seq<char> {
    match signal_name_of(number) {
        Some(t) => t,
        None => signed_decimal(number as int),
    }
}

/// The escape sequence that gives the terminal its own foreground color back.
pub open spec fn reset_fg() -> Seq<char> {
    "\x1b[39m"@
}

/// The prompt, where `status_text` stands for what a bracketed status shows:
/// `USER@HOST SEP ` after a command that exited with 0, and
/// `USER@HOST [STATUS] SEP ` otherwise, the user name and the status in their
/// configured colors.
pub open spec fn prompt_text(
    conf_user: Seq<char>,
    conf_error: Seq<char>,
    separator: Seq<char>,
    user: Seq<char>,
    host: Seq<char>,
    status: LastStatus,
    status_text: Seq<char>,
) -> Seq<char> {
    let head = conf_user + user + reset_fg() + "@"@ + host;
    if status.signal is None && status.return_code == 0 {
        head + " "@ + separator + " "@
    } else {
        head + " ["@ + conf_error + status_text + reset_fg() + "] "@ + separator + " "@
    }
}

/// What the bracketed status shows: the signal's name, or else the exit code.
pub open spec fn status_shown(status: LastStatus) -> Seq<char> {
    match status.signal {
        Some(s) => signal_text(s),
        None => signed_decimal(status.return_code as int),
    }
}

/// After a command, the next prompt shows no bracketed status exactly when the
/// command exited with code 0; after any other outcome that keeps the shell
/// running, it shows the signal's name or the new exit code.
pub proof fn law_prompt_follows_outcome(
    status: LastStatus,
    outcome: ShellResult,
    conf_user: Seq<char>,
    conf_error: Seq<char>,
    separator: Seq<char>,
    user: Seq<char>,
    host: Seq<char>,
)
    requires
        spec_after_command(status, outcome) is Continue,
    ensures
        ({
            let next = spec_after_command(status, outcome)->Continue_0;
            let shown = prompt_text(
                conf_user,
                conf_error,
                separator,
                user,
                host,
                next,
                status_shown(next),
            );
            let head = conf_user + user + reset_fg() + "@"@ + host;
            &&& outcome == Ok::<Returns, ShellError>(Returns::Code(0)) ==> shown == head + " "@
                + separator + " "@
            &&& outcome != Ok::<Returns, ShellError>(Returns::Code(0)) ==> shown == head + " ["@
                + conf_error + status_shown(next) + reset_fg() + "] "@ + separator + " "@
        }),
{
}

/// The prompt shows, in brackets, the name of the signal that ended the last
/// command whenever there is one (its number when nix has no name for it),
/// whatever the exit code; else the exit code when it is not 0; and no
/// brackets after code 0.
pub proof fn law_prompt_shows_status(
    conf_user: Seq<char>,
    conf_error: Seq<char>,
    separator: Seq<char>,
    user: Seq<char>,
    host: Seq<char>,
    status: LastStatus,
)
    ensures
        ({
            let shown = prompt_text(
                conf_user,
                conf_error,
                separator,
                user,
                host,
                status,
                status_shown(status),
            );
            let head = conf_user + user + "\x1b[39m"@ + "@"@ + host;
            &&& status.signal matches Some(s) ==> shown == head + " ["@ + conf_error + (
            match signal_name_of(s) {
                Some(name) => name,
                None => signed_decimal(s as int),
            }) + "\x1b[39m"@ + "] "@ + separator + " "@
            &&& status.signal is None && status.return_code != 0 ==> shown == head + " ["@
                + conf_error + signed_decimal(status.return_code as int) + "\x1b[39m"@ + "] "@
                + separator + " "@
            &&& status.signal is None && status.return_code == 0 ==> shown == head + " "@
                + separator + " "@
        }),
{
}

/// Builds the prompt from the status text that goes in brackets.
pub fn prompt_with(conf: &Conf, user: &str, host: &str, status: LastStatus, status_text: &str) -> (r:
    String)
    ensures
        r@ == prompt_text(
            conf.usercolor@,
            conf.errorcolor@,
            conf.separator@,
            user@,
            host@,
            status,
            status_text@,
        ),
{
    let reset = crate::config::fg_text(crate::config::TermColor::Reset);
    let head = conf.usercolor.clone().concat(user).concat(reset.as_str()).concat("@").concat(host);
    if status.signal.is_none() && status.return_code == 0 {
        head.concat(" ").concat(conf.separator.as_str()).concat(" ")
    } else {
        head.concat(" [").concat(conf.errorcolor.as_str()).concat(status_text).concat(
            reset.as_str(),
        ).concat("] ").concat(conf.separator.as_str()).concat(" ")
    }
}

/// The prompt shown before reading a line.
pub fn prompt(conf: &Conf, user: &str, host: &str, status: LastStatus) -> (r: String)
    ensures
        r@ == prompt_text(
            conf.usercolor@,
            conf.errorcolor@,
            conf.separator@,
            user@,
            host@,
            status,
            status_shown(status),
        ),
{
    let mut shown = String::new();
    match status.signal {
        Some(s) => match signal_name(s) {
            Some(name) => {
                shown = name;
            },
            None => {
                push_signed_decimal(&mut shown, s);
            },
        },
        None => {
            push_signed_decimal(&mut shown, status.return_code);
        },
    }
    assert(shown@ == status_shown(status));
    prompt_with(conf, user, host, status, shown.as_str())
}

} // verus!
