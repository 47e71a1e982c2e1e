//! What a command gives back: its status, or the error that stopped it.
use vstd::prelude::*;

verus! {

/// Why a command could not be carried out. The errors that come from the
/// operating system carry its error number.
#[derive(Debug, PartialEq, Eq)]
pub enum ShellError {
    /// Creating a child process failed.
    Fork(i32),
    /// Opening a file or changing directory failed.
    IO(i32),
    /// Creating a pipe failed.
    Pipe(i32),
    /// The program could not be started.
    Exec(i32),
    /// An operator or builtin lacks the argument it needs.
    NoArg,
    /// An argument holds a NUL character.
    CStringNullByte,
    /// Standard output could not be sent to the named file.
    DupStdout(i32, String),
    /// Standard input could not be taken from the named file.
    DupStdin(i32, String),
}

/// How a command ended.
#[derive(Debug, Clone, Copy, PartialEq, Eq, Structural)]
pub enum Returns {
    /// It exited with this code.
    Code(i32),
    /// It was ended by the signal with this number.
    ShellSignal(i32),
    /// The shell is asked to quit.
    ExitSig,
}

/// The outcome of running a command line.
pub type ShellResult = Result<Returns, ShellError>;

/// The operating system's description of error number `code`, as
/// `nix::errno::Errno::desc` gives it.
pub uninterp spec fn errno_description(code: i32) -> Seq<char>;

/// Calls `nix::errno::Errno::from_raw(code).desc()`. Claimed: the text is a
/// function of `code` alone (a fixed table in nix; unknown numbers all read
/// "Unknown errno").
#[verifier::external_body]
fn errno_desc(code: i32) -> (r: String)
    ensures
        r@ == errno_description(code),
{
    nix::errno::Errno::from_raw(code).desc().to_string()
}

/// Calls `nix::errno::Errno::from_raw(code) == nix::errno::Errno::ENOENT`.
/// Claimed: true exactly for error number 2, the value of `ENOENT` that libc
/// gives on Linux, Android, macOS, the BSDs, Solaris and AIX. On Haiku, Hurd
/// and Emscripten, which nix also supports, `ENOENT` has another value and
/// this claim does not hold; the library is meant for the targets named.
#[verifier::external_body]
pub(crate) fn errno_is_enoent(code: i32) -> (r: bool)
    ensures
        r == (code == 2),
{
    nix::errno::Errno::from_raw(code) == nix::errno::Errno::ENOENT
}

/// The error number an error carries, if any.
pub open spec fn spec_errno(e: ShellError) -> Option<i32> {
    match e {
        ShellError::Fork(c) => Some(c),
        ShellError::IO(c) => Some(c),
        ShellError::Pipe(c) => Some(c),
        ShellError::Exec(c) => Some(c),
        ShellError::NoArg => None,
        ShellError::CStringNullByte => None,
        ShellError::DupStdout(c, _) => Some(c),
        ShellError::DupStdin(c, _) => Some(c),
    }
}

/// The message shown for `e`, where `errno_text` describes its error number.
pub open spec fn error_text(e: ShellError, errno_text: Seq<char>) -> Seq<char> {
    match e {
        ShellError::Fork(_) => "error: "@ + errno_text,
        ShellError::IO(_) => "error: "@ + errno_text,
        ShellError::Pipe(_) => "error: "@ + errno_text,
        ShellError::Exec(_) => "error: "@ + errno_text,
        ShellError::NoArg => "error: no argument(s) provided!"@,
        ShellError::CStringNullByte => "error: null byte found before end of string"@,
        ShellError::DupStdout(_, f) => "error: failed to redirect stdout to '"@ + f@ + "'"@,
        ShellError::DupStdin(_, f) => "error: failed to redirect stdin to '"@ + f@ + "'"@,
    }
}

/// The message shown for `e`.
pub open spec fn error_message(e: ShellError) -> Seq<char> {
    match spec_errno(e) {
        Some(c) => error_text(e, errno_description(c)),
        None => error_text(e, Seq::empty()),
    }
}

/// The message for each error: the operating-system errors show `error: `
/// and the description of their number; a missing argument, a NUL character
/// and a failed redirection each have their own sentence, the latter naming
/// the file in quotes.
pub proof fn law_error_messages(e: ShellError)
    ensures
        e matches ShellError::Fork(c) ==> error_message(e) == "error: "@ + errno_description(c),
        e matches ShellError::IO(c) ==> error_message(e) == "error: "@ + errno_description(c),
        e matches ShellError::Pipe(c) ==> error_message(e) == "error: "@ + errno_description(c),
        e matches ShellError::Exec(c) ==> error_message(e) == "error: "@ + errno_description(c),
        e matches ShellError::NoArg ==> error_message(e) == "error: no argument(s) provided!"@,
        e matches ShellError::CStringNullByte ==> error_message(e)
            == "error: null byte found before end of string"@,
        e matches ShellError::DupStdout(_, f) ==> error_message(e)
            == "error: failed to redirect stdout to '"@ + f@ + "'"@,
        e matches ShellError::DupStdin(_, f) ==> error_message(e)
            == "error: failed to redirect stdin to '"@ + f@ + "'"@,
{
}

impl ShellError {
    /// The error number this error carries, if any.
    pub fn errno(&self) -> (r: Option<i32>)
        ensures
            r == spec_errno(*self),
    {
        match self {
            ShellError::Fork(c) => Some(*c),
            ShellError::IO(c) => Some(*c),
            ShellError::Pipe(c) => Some(*c),
            ShellError::Exec(c) => Some(*c),
            ShellError::NoArg => None,
            ShellError::CStringNullByte => None,
            ShellError::DupStdout(c, _) => Some(*c),
            ShellError::DupStdin(c, _) => Some(*c),
        }
    }

    /// The message for this error, with `errno_text` standing for the
    /// description of its error number.
    pub fn describe(&self, errno_text: &str) -> (r: String)
        ensures
            r@ == error_text(*self, errno_text@),
    {
        match self {
            ShellError::Fork(_) | ShellError::IO(_) | ShellError::Pipe(_) | ShellError::Exec(_) => {
                String::from_str("error: ").concat(errno_text)
            },
            ShellError::NoArg => String::from_str("error: no argument(s) provided!"),
            ShellError::CStringNullByte => String::from_str(
                "error: null byte found before end of string",
            ),
            ShellError::DupStdout(_, f) => String::from_str(
                "error: failed to redirect stdout to '",
            ).concat(f.as_str()).concat("'"),
            ShellError::DupStdin(_, f) => String::from_str(
                "error: failed to redirect stdin to '",
            ).concat(f.as_str()).concat("'"),
        }
    }

    /// The message shown for this error.
    pub fn message(&self) -> (r: String)
        ensures
            r@ == error_message(*self),
    {
        match self.errno() {
            Some(c) => {
                let d = errno_desc(c);
                self.describe(d.as_str())
            },
            None => self.describe(""),
        }
    }
}

} // verus!
