//! Deciding what an argument list asks for, and the decisions taken while a
//! command runs: what a finished child gives back, whether `&&` goes on, which
//! error a pipeline reports, and how a redirection opens its file.
use vstd::prelude::*;

use crate::parse::texts;
use crate::status::{Returns, ShellError, ShellResult};
use crate::text::text_is;

verus! {

/// What an argument list asks the shell to do.
#[derive(Debug, PartialEq, Eq)]
pub enum Command {
    /// `exit`: quit the shell.
    Exit,
    /// `ver`: print the version.
    Version,
    /// `cd DIR`: change the working directory.
    ChangeDir(String),
    /// `mkconf`: ask for and write a new configuration.
    MakeConf,
    /// `history`: print the lines entered so far.
    History,
    /// `ARGS > FILE` (overwrite) or `ARGS >> FILE` (append).
    Redirect { args: Vec<String>, file: String, overwrite: bool },
    /// `ARGS < FILE`.
    InputFrom { args: Vec<String>, file: String },
    /// `LEFT | RIGHT`.
    Pipe { left: Vec<String>, right: Vec<String> },
    /// `LEFT && RIGHT`.
    And { left: Vec<String>, right: Vec<String> },
    /// Any other program, with its arguments.
    Run(Vec<String>),
}

/// A `Command` with its texts as character sequences.
pub enum CommandView {
    Exit,
    Version,
    ChangeDir(Seq<char>),
    MakeConf,
    History,
    Redirect { args: Seq<Seq<char>>, file: Seq<char>, overwrite: bool },
    InputFrom { args: Seq<Seq<char>>, file: Seq<char> },
    Pipe { left: Seq<Seq<char>>, right: Seq<Seq<char>> },
    And { left: Seq<Seq<char>>, right: Seq<Seq<char>> },
    Run(Seq<Seq<char>>),
}

impl View for Command {
    type V = CommandView;

    open spec fn view(&self) -> CommandView {
        match self {
            Command::Exit => CommandView::Exit,
            Command::Version => CommandView::Version,
            Command::ChangeDir(d) => CommandView::ChangeDir(d@),
            Command::MakeConf => CommandView::MakeConf,
            Command::History => CommandView::History,
            Command::Redirect { args, file, overwrite } => CommandView::Redirect {
                args: texts(args@),
                file: file@,
                overwrite: *overwrite,
            },
            Command::InputFrom { args, file } => CommandView::InputFrom {
                args: texts(args@),
                file: file@,
            },
            Command::Pipe { left, right } => CommandView::Pipe {
                left: texts(left@),
                right: texts(right@),
            },
            Command::And { left, right } => CommandView::And {
                left: texts(left@),
                right: texts(right@),
            },
            Command::Run(args) => CommandView::Run(texts(args@)),
        }
    }
}

/// The names of the builtin commands, which the shell carries out itself.
pub open spec fn is_builtin_name(w: Seq<char>) -> bool {
    ||| w == "exit"@
    ||| w == "ver"@
    ||| w == "cd"@
    ||| w == "mkconf"@
    ||| w == "history"@
}

/// The operators: output redirection, appending redirection, input
/// redirection, pipe and conditional sequence.
pub open spec fn is_operator(w: Seq<char>) -> bool {
    ||| w == ">"@
    ||| w == ">>"@
    ||| w == "<"@
    ||| w == "|"@
    ||| w == "&&"@
}

/// Index of the first operator in `a` (`a.len()` when there is none).
pub open spec fn first_operator(a: Seq<Seq<char>>) -> int
    decreases a.len(),
{
    if a.len() == 0 {
        0
    } else if is_operator(a[0]) {
        0
    } else {
        1 + first_operator(a.drop_first())
    }
}

pub proof fn lemma_first_operator(a: Seq<Seq<char>>)
    ensures
        0 <= first_operator(a) <= a.len(),
        forall|j: int| 0 <= j < first_operator(a) ==> !is_operator(#[trigger] a[j]),
        first_operator(a) < a.len() ==> is_operator(a[first_operator(a)]),
    decreases a.len(),
{
    if a.len() > 0 && !is_operator(a[0]) {
        lemma_first_operator(a.drop_first());
        assert forall|j: int| 0 <= j < first_operator(a) implies !is_operator(#[trigger] a[j]) by {
            if j > 0 {
                assert(a[j] == a.drop_first()[j - 1]);
            }
        }
    }
}

proof fn lemma_first_operator_exact(a: Seq<Seq<char>>, i: int)
    requires
        0 <= i <= a.len(),
        forall|j: int| 0 <= j < i ==> !is_operator(#[trigger] a[j]),
        i == a.len() || is_operator(a[i]),
    ensures
        first_operator(a) == i,
    decreases i,
{
    if i > 0 {
        assert forall|j: int| 0 <= j < i - 1 implies !is_operator(#[trigger] a.drop_first()[j]) by {
            assert(a.drop_first()[j] == a[j + 1]);
        }
        if i < a.len() {
            assert(a.drop_first()[i - 1] == a[i]);
        }
        lemma_first_operator_exact(a.drop_first(), i - 1);
    }
}

/// What the argument list `a` (not empty) asks for, or `None` when an operator
/// or builtin lacks its argument. A builtin name in first place decides the
/// command whatever follows; otherwise the first operator does, and words after
/// a redirection's file name are not used; with no operator the whole list is a
/// program and its arguments.
pub open spec fn planned(a: Seq<Seq<char>>) -> Option<CommandView> {
    let w = a[0];
    if w == "exit"@ {
        Some(CommandView::Exit)
    } else if w == "ver"@ {
        Some(CommandView::Version)
    } else if w == "cd"@ {
        if a.len() < 2 {
            None
        } else {
            Some(CommandView::ChangeDir(a[1]))
        }
    } else if w == "mkconf"@ {
        Some(CommandView::MakeConf)
    } else if w == "history"@ {
        Some(CommandView::History)
    } else {
        let i = first_operator(a);
        if i >= a.len() {
            Some(CommandView::Run(a))
        } else if i + 1 >= a.len() {
            None
        } else {
            let op = a[i];
            if op == ">"@ || op == ">>"@ {
                Some(CommandView::Redirect { args: a.take(i), file: a[i + 1], overwrite: op == ">"@ })
            } else if op == "<"@ {
                Some(CommandView::InputFrom { args: a.take(i), file: a[i + 1] })
            } else if op == "|"@ {
                Some(CommandView::Pipe { left: a.take(i), right: a.skip(i + 1) })
            } else {
                Some(CommandView::And { left: a.take(i), right: a.skip(i + 1) })
            }
        }
    }
}

/// A builtin name in first place decides the command whatever follows it;
/// only `cd` also looks at the next word.
pub proof fn law_builtin_ignores_rest(a: Seq<Seq<char>>, b: Seq<Seq<char>>)
    requires
        a.len() > 0,
        b.len() > 0,
        a[0] == b[0],
        is_builtin_name(a[0]),
        a[0] != "cd"@,
    ensures
        planned(a) == planned(b),
        planned(a) is Some,
{
}

/// Each builtin name in first place gives its builtin whatever follows it;
/// `cd` takes the word right after it as the directory, and without one the
/// list is refused.
pub proof fn law_builtin_commands(a: Seq<Seq<char>>)
    requires
        a.len() > 0,
    ensures
        a[0] == "exit"@ ==> planned(a) == Some(CommandView::Exit),
        a[0] == "ver"@ ==> planned(a) == Some(CommandView::Version),
        a[0] == "mkconf"@ ==> planned(a) == Some(CommandView::MakeConf),
        a[0] == "history"@ ==> planned(a) == Some(CommandView::History),
        a[0] == "cd"@ && a.len() >= 2 ==> planned(a) == Some(CommandView::ChangeDir(a[1])),
        a[0] == "cd"@ && a.len() == 1 ==> planned(a) is None,
{
    reveal_strlit("exit");
    reveal_strlit("ver");
    reveal_strlit("cd");
    reveal_strlit("mkconf");
    reveal_strlit("history");
    assert("exit"@.len() == 4);
    assert("ver"@.len() == 3);
    assert("cd"@.len() == 2);
    assert("mkconf"@.len() == 6);
    assert("history"@.len() == 7);
}

/// Whether `w` is none of the operator words.
pub open spec fn plain_word(w: Seq<char>) -> bool {
    &&& w != ">"@
    &&& w != ">>"@
    &&& w != "<"@
    &&& w != "|"@
    &&& w != "&&"@
}

proof fn lemma_literals_distinct()
    ensures
        ">"@ != ">>"@,
        ">"@ != "<"@,
        ">"@ != "|"@,
        ">"@ != "&&"@,
        ">>"@ != "<"@,
        ">>"@ != "|"@,
        ">>"@ != "&&"@,
        "<"@ != "|"@,
        "<"@ != "&&"@,
        "|"@ != "&&"@,
{
    reveal_strlit(">");
    reveal_strlit(">>");
    reveal_strlit("<");
    reveal_strlit("|");
    reveal_strlit("&&");
    assert(">"@.len() == 1);
    assert(">>"@.len() == 2);
    assert("<"@.len() == 1);
    assert("|"@.len() == 1);
    assert("&&"@.len() == 2);
    assert(">"@[0] != "<"@[0]);
    assert(">"@[0] != "|"@[0]);
    assert("<"@[0] != "|"@[0]);
    assert(">>"@[0] != "&&"@[0]);
}

/// A list that starts with no builtin name and holds no operator runs as a
/// program with exactly those arguments.
pub proof fn law_plain_list_runs(a: Seq<Seq<char>>)
    requires
        a.len() > 0,
        a[0] != "exit"@ && a[0] != "ver"@ && a[0] != "cd"@ && a[0] != "mkconf"@ && a[0]
            != "history"@,
        forall|j: int| 0 <= j < a.len() ==> plain_word(#[trigger] a[j]),
    ensures
        planned(a) == Some(CommandView::Run(a)),
{
    assert forall|j: int| 0 <= j < a.len() implies !is_operator(#[trigger] a[j]) by {
        assert(plain_word(a[j]));
    }
    lemma_first_operator_exact(a, a.len() as int);
}

/// With no builtin name first, the first operator word `a[i]` decides: as the
/// last word it is refused; `>` and `>>` send the words before it to the file
/// named right after it, overwriting or appending; `<` reads that file; `|`
/// and `&&` join the words before it with all the words after it.
pub proof fn law_first_operator_decides(a: Seq<Seq<char>>, i: int)
    requires
        0 <= i < a.len(),
        a[0] != "exit"@ && a[0] != "ver"@ && a[0] != "cd"@ && a[0] != "mkconf"@ && a[0]
            != "history"@,
        forall|j: int| 0 <= j < i ==> plain_word(#[trigger] a[j]),
        !plain_word(a[i]),
    ensures
        i + 1 == a.len() ==> planned(a) is None,
        i + 1 < a.len() && a[i] == ">"@ ==> planned(a) == Some(
            CommandView::Redirect { args: a.take(i), file: a[i + 1], overwrite: true },
        ),
        i + 1 < a.len() && a[i] == ">>"@ ==> planned(a) == Some(
            CommandView::Redirect { args: a.take(i), file: a[i + 1], overwrite: false },
        ),
        i + 1 < a.len() && a[i] == "<"@ ==> planned(a) == Some(
            CommandView::InputFrom { args: a.take(i), file: a[i + 1] },
        ),
        i + 1 < a.len() && a[i] == "|"@ ==> planned(a) == Some(
            CommandView::Pipe { left: a.take(i), right: a.skip(i + 1) },
        ),
        i + 1 < a.len() && a[i] == "&&"@ ==> planned(a) == Some(
            CommandView::And { left: a.take(i), right: a.skip(i + 1) },
        ),
{
    lemma_literals_distinct();
    assert forall|j: int| 0 <= j < i implies !is_operator(#[trigger] a[j]) by {
        assert(plain_word(a[j]));
    }
    lemma_first_operator_exact(a, i);
}

/// Where the first operator splits the argument list: the words before it
/// hold no operator; a pipe or `&&` gives back the whole list as
/// `left`, the operator, `right`; a redirection's words, operator and file are
/// the start of the list; with no operator the program gets the list unchanged.
pub proof fn law_plan_splits_at_first_operator(a: Seq<Seq<char>>)
    requires
        a.len() > 0,
        !is_builtin_name(a[0]),
    ensures
        planned(a) matches Some(CommandView::Run(args)) ==> args == a && forall|j: int|
            0 <= j < a.len() ==> !is_operator(#[trigger] a[j]),
        planned(a) matches Some(CommandView::Pipe { left, right }) ==> left + seq!["|"@] + right
            == a && forall|j: int| 0 <= j < left.len() ==> !is_operator(#[trigger] left[j]),
        planned(a) matches Some(CommandView::And { left, right }) ==> left + seq!["&&"@] + right
            == a && forall|j: int| 0 <= j < left.len() ==> !is_operator(#[trigger] left[j]),
        planned(a) matches Some(CommandView::Redirect { args, file, overwrite }) ==> (args + seq![
            if overwrite {
                ">"@
            } else {
                ">>"@
            },
            file,
        ]) == a.take(args.len() + 2int) && forall|j: int|
            0 <= j < args.len() ==> !is_operator(#[trigger] args[j]),
        planned(a) matches Some(CommandView::InputFrom { args, file }) ==> (args + seq!["<"@, file])
            == a.take(args.len() + 2int) && forall|j: int|
            0 <= j < args.len() ==> !is_operator(#[trigger] args[j]),
        planned(a) is None <==> first_operator(a) == a.len() - 1,
{
    lemma_first_operator(a);
    let i = first_operator(a);
    if i < a.len() && i + 1 < a.len() {
        let op = a[i];
        assert(a.take(i) + seq![op] + a.skip(i + 1) =~= a);
        assert(a.take(i) + seq![op, a[i + 1]] =~= a.take(i + 2));
        assert forall|j: int| 0 <= j < a.take(i).len() implies !is_operator(#[trigger] a.take(i)[j]) by {
            assert(a.take(i)[j] == a[j]);
        }
    }
}

fn word_is_operator(w: &String) -> (r: bool)
    ensures
        r == is_operator(w@),
{
    let s = w.as_str();
    text_is(s, ">") || text_is(s, ">>") || text_is(s, "<") || text_is(s, "|") || text_is(s, "&&")
}

/// Copies of `a[from..to]`.
fn copy_range(a: &Vec<String>, from: usize, to: usize) -> (r: Vec<String>)
    requires
        from <= to <= a.len(),
    ensures
        texts(r@) == texts(a@).subrange(from as int, to as int),
{
    let mut out: Vec<String> = Vec::new();
    let mut i = from;
    while i < to
        invariant
            from <= i <= to <= a.len(),
            texts(out@) == texts(a@).subrange(from as int, i as int),
        decreases to - i,
    {
        let ghost before = out@;
        out.push(a[i].clone());
        assert(texts(out@) =~= texts(before).push(a@[i as int]@));
        assert(texts(out@) =~= texts(a@).subrange(from as int, i + 1));
        i = i + 1;
    }
    out
}

/// Decides what a non-empty argument list asks for. Fails with `NoArg` when
/// `cd` has no directory or an operator has nothing after it.
pub fn plan_command(arguments: &Vec<String>) -> (r: Result<Command, ShellError>)
    requires
        arguments.len() > 0,
    ensures
        r matches Ok(c) ==> planned(texts(arguments@)) == Some(c@),
        r matches Err(e) ==> planned(texts(arguments@)) is None && e == ShellError::NoArg,
        r is Ok <==> planned(texts(arguments@)) is Some,
{
    let ghost a = texts(arguments@);
    let n = arguments.len();
    let first = arguments[0].as_str();
    assert(a[0] == arguments@[0]@);
    if text_is(first, "exit") {
        return Ok(Command::Exit);
    }
    if text_is(first, "ver") {
        return Ok(Command::Version);
    }
    if text_is(first, "cd") {
        if n < 2 {
            return Err(ShellError::NoArg);
        }
        assert(a[1] == arguments@[1]@);
        return Ok(Command::ChangeDir(arguments[1].clone()));
    }
    if text_is(first, "mkconf") {
        return Ok(Command::MakeConf);
    }
    if text_is(first, "history") {
        return Ok(Command::History);
    }
    let mut i: usize = 0;
    while i < n && !word_is_operator(&arguments[i])
        invariant
            n == arguments.len(),
            a == texts(arguments@),
            i <= n,
            forall|j: int| 0 <= j < i ==> !is_operator(#[trigger] a[j]),
        decreases n - i,
    {
        i = i + 1;
    }
    proof {
        lemma_first_operator_exact(a, i as int);
    }
    if i >= n {
        let all = copy_range(arguments, 0, n);
        assert(a.subrange(0, n as int) =~= a);
        return Ok(Command::Run(all));
    }
    if i + 1 >= n {
        return Err(ShellError::NoArg);
    }
    let op = arguments[i].as_str();
    assert(a[i as int] == op@);
    assert(a[i + 1] == arguments@[i + 1]@);
    assert(a.take(i as int) =~= a.subrange(0, i as int));
    assert(a.skip(i + 1) =~= a.subrange(i + 1, n as int));
    if text_is(op, ">") {
        let args = copy_range(arguments, 0, i);
        Ok(Command::Redirect { args, file: arguments[i + 1].clone(), overwrite: true })
    } else if text_is(op, ">>") {
        let args = copy_range(arguments, 0, i);
        Ok(Command::Redirect { args, file: arguments[i + 1].clone(), overwrite: false })
    } else if text_is(op, "<") {
        let args = copy_range(arguments, 0, i);
        Ok(Command::InputFrom { args, file: arguments[i + 1].clone() })
    } else if text_is(op, "|") {
        let left = copy_range(arguments, 0, i);
        let right = copy_range(arguments, i + 1, n);
        Ok(Command::Pipe { left, right })
    } else {
        let left = copy_range(arguments, 0, i);
        let right = copy_range(arguments, i + 1, n);
        Ok(Command::And { left, right })
    }
}

/// How a child that was waited for ended, as far as the shell looks at it.
#[derive(Debug, Clone, Copy, PartialEq, Eq, Structural)]
pub enum ChildExit {
    /// It exited with this code.
    Exited(i32),
    /// A signal with this number ended it.
    Signaled(i32),
    /// Any other state that waiting reports.
    Other,
}

/// What a finished child gives back, where `exec_error` is the error number
/// that the child reported before starting its program failed, if it did.
pub open spec fn spec_child_outcome(exec_error: Option<i32>, status: ChildExit) -> ShellResult {
    match exec_error {
        Some(e) => Err(ShellError::Exec(e)),
        None => match status {
            ChildExit::Exited(code) => Ok(Returns::Code(code)),
            ChildExit::Signaled(sig) => Ok(Returns::ShellSignal(sig)),
            ChildExit::Other => Ok(Returns::Code(0)),
        },
    }
}

/// The outcome of a child process: a failed start wins over how the child
/// ended; otherwise its exit code, or the signal that ended it, or code 0.
pub fn child_outcome(exec_error: Option<i32>, status: ChildExit) -> (r: ShellResult)
    ensures
        r == spec_child_outcome(exec_error, status),
{
    match exec_error {
        Some(e) => Err(ShellError::Exec(e)),
        None => match status {
            ChildExit::Exited(code) => Ok(Returns::Code(code)),
            ChildExit::Signaled(sig) => Ok(Returns::ShellSignal(sig)),
            ChildExit::Other => Ok(Returns::Code(0)),
        },
    }
}

/// A start failure reported by the child is the outcome whatever the child's
/// exit state; otherwise the exit code, or the signal, or code 0 comes back.
pub proof fn law_child_outcome(e: i32, status: ChildExit, code: i32, sig: i32)
    ensures
        spec_child_outcome(Some(e), status) == Err::<Returns, ShellError>(ShellError::Exec(e)),
        spec_child_outcome(None, ChildExit::Exited(code)) == Ok::<Returns, ShellError>(
            Returns::Code(code),
        ),
        spec_child_outcome(None, ChildExit::Signaled(sig)) == Ok::<Returns, ShellError>(
            Returns::ShellSignal(sig),
        ),
        spec_child_outcome(None, ChildExit::Other) == Ok::<Returns, ShellError>(Returns::Code(0)),
{
}

/// Whether `LEFT && RIGHT` goes on to run `RIGHT` after `LEFT` gave `first`:
/// only when `LEFT` exited with code 0.
pub fn and_runs_second(first: &ShellResult) -> (r: bool)
    ensures
        r <==> (*first matches Ok(Returns::Code(c)) && c == 0),
{
    match first {
        Ok(Returns::Code(c)) => *c == 0,
        _ => false,
    }
}

/// Which start failure a pipeline reports: the left side's if it had one,
/// else the right side's. When there is one, the pipeline is stopped.
pub fn pipeline_exec_error(left: Option<i32>, right: Option<i32>) -> (r: Option<i32>)
    ensures
        r == (if left is Some {
            left
        } else {
            right
        }),
{
    match left {
        Some(e) => Some(e),
        None => right,
    }
}

/// How a file is opened for a redirection.
#[derive(Debug, Clone, Copy, PartialEq, Eq, Structural)]
pub struct OpenFlags {
    pub read_only: bool,
    pub write_only: bool,
    pub create: bool,
    pub truncate: bool,
    pub append: bool,
    pub close_on_exec: bool,
    /// Permission bits for a file that is created: read and write for its owner.
    pub owner_read_write: bool,
}

/// The flags for `>` (`overwrite`) and `>>`: `>` creates or truncates the file;
/// `>>` appends to a file that must already exist.
pub fn redirect_flags(overwrite: bool) -> (r: OpenFlags)
    ensures
        r.write_only && !r.read_only && r.close_on_exec && r.owner_read_write,
        r.create == overwrite,
        r.truncate == overwrite,
        r.append == !overwrite,
{
    if overwrite {
        OpenFlags {
            read_only: false,
            write_only: true,
            create: true,
            truncate: true,
            append: false,
            close_on_exec: true,
            owner_read_write: true,
        }
    } else {
        OpenFlags {
            read_only: false,
            write_only: true,
            create: false,
            truncate: false,
            append: true,
            close_on_exec: true,
            owner_read_write: true,
        }
    }
}

/// The flags for `<`: read only, closed on exec, nothing created.
pub fn input_flags() -> (r: OpenFlags)
    ensures
        r.read_only && !r.write_only && r.close_on_exec,
        !r.create && !r.truncate && !r.append && !r.owner_read_write,
{
    OpenFlags {
        read_only: true,
        write_only: false,
        create: false,
        truncate: false,
        append: false,
        close_on_exec: true,
        owner_read_write: false,
    }
}

} // verus!
