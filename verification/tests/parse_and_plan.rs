use rsh::exec::{plan_command, Command};
use rsh::parse::split_input;
use rsh::shell::{read_line_args, Line};
use rsh::status::ShellError;

fn words(line: &str) -> Vec<String> {
    split_input(line).expect("line without NUL")
}

fn strs(v: &[&str]) -> Vec<String> {
    v.iter().map(|s| s.to_string()).collect()
}

#[test]
fn split_collapses_runs_of_whitespace() {
    assert_eq!(words("  ls   -la\t/tmp \n"), strs(&["ls", "-la", "/tmp"]));
}

#[test]
fn split_uses_unicode_whitespace() {
    assert_eq!(words("a\u{3000}b\u{00A0}c\u{2009}d"), strs(&["a", "b", "c", "d"]));
}

#[test]
fn split_of_blank_line_is_empty() {
    assert_eq!(words(" \t \r\n"), Vec::<String>::new());
    assert_eq!(words(""), Vec::<String>::new());
}

#[test]
fn split_refuses_nul_byte() {
    assert_eq!(split_input("echo a\0b"), Err(ShellError::CStringNullByte));
    assert_eq!(split_input("\0"), Err(ShellError::CStringNullByte));
}

#[test]
fn split_keeps_non_ascii_words() {
    assert_eq!(words("échø  ünï"), strs(&["échø", "ünï"]));
}

#[test]
fn split_concatenation_law_on_example() {
    let line = " ab  c\td ";
    let joined: String = words(line).concat();
    let without_space: String = line.chars().filter(|c| !c.is_whitespace()).collect();
    assert_eq!(joined, without_space);
}

#[test]
fn read_line_blank_refused_and_args() {
    assert_eq!(read_line_args("   \t"), Line::Blank);
    assert_eq!(read_line_args(" a\0 "), Line::Refused(ShellError::CStringNullByte));
    assert_eq!(read_line_args(" ls  -l "), Line::Args(strs(&["ls", "-l"])));
}

#[test]
fn plan_builtins() {
    assert_eq!(plan_command(&strs(&["exit"])), Ok(Command::Exit));
    assert_eq!(plan_command(&strs(&["exit", "|", "wc"])), Ok(Command::Exit));
    assert_eq!(plan_command(&strs(&["ver"])), Ok(Command::Version));
    assert_eq!(plan_command(&strs(&["mkconf"])), Ok(Command::MakeConf));
    assert_eq!(plan_command(&strs(&["history", ">", "f"])), Ok(Command::History));
    assert_eq!(plan_command(&strs(&["cd", "/tmp", "x"])), Ok(Command::ChangeDir("/tmp".to_string())));
}

#[test]
fn plan_cd_without_directory_is_no_arg() {
    assert_eq!(plan_command(&strs(&["cd"])), Err(ShellError::NoArg));
}

#[test]
fn plan_run_without_operator() {
    assert_eq!(plan_command(&strs(&["ls", "-l"])), Ok(Command::Run(strs(&["ls", "-l"]))));
    assert_eq!(plan_command(&strs(&["exits"])), Ok(Command::Run(strs(&["exits"]))));
}

#[test]
fn plan_redirections() {
    assert_eq!(
        plan_command(&strs(&["echo", "hi", ">", "out.txt", "ignored"])),
        Ok(Command::Redirect { args: strs(&["echo", "hi"]), file: "out.txt".to_string(), overwrite: true })
    );
    assert_eq!(
        plan_command(&strs(&["echo", ">>", "log"])),
        Ok(Command::Redirect { args: strs(&["echo"]), file: "log".to_string(), overwrite: false })
    );
    assert_eq!(
        plan_command(&strs(&["sort", "<", "in"])),
        Ok(Command::InputFrom { args: strs(&["sort"]), file: "in".to_string() })
    );
}

#[test]
fn plan_pipe_and_and() {
    assert_eq!(
        plan_command(&strs(&["ls", "|", "grep", "x", "|", "wc"])),
        Ok(Command::Pipe { left: strs(&["ls"]), right: strs(&["grep", "x", "|", "wc"]) })
    );
    assert_eq!(
        plan_command(&strs(&["make", "&&", "make", "install"])),
        Ok(Command::And { left: strs(&["make"]), right: strs(&["make", "install"]) })
    );
}

#[test]
fn plan_first_operator_wins() {
    assert_eq!(
        plan_command(&strs(&["a", "&&", "b", ">", "f"])),
        Ok(Command::And { left: strs(&["a"]), right: strs(&["b", ">", "f"]) })
    );
}

#[test]
fn plan_operator_without_argument_is_no_arg() {
    for op in [">", ">>", "<", "|", "&&"] {
        assert_eq!(plan_command(&strs(&["ls", op])), Err(ShellError::NoArg));
    }
}

#[test]
fn plan_operator_first_gives_empty_left() {
    assert_eq!(
        plan_command(&strs(&["|", "wc"])),
        Ok(Command::Pipe { left: Vec::new(), right: strs(&["wc"]) })
    );
}

#[test]
fn resplitting_joined_words_gives_them_back() {
    for line in ["  ls   -la\t/tmp \n", "a\u{3000}b", "", " \t ", "échø  ünï  x"] {
        let v = words(line);
        let joined = v.join(" ");
        assert_eq!(split_input(&joined), Ok(v.clone()));
        assert!(v.iter().all(|w| !w.is_empty() && !w.chars().any(|c| c.is_whitespace())));
    }
    let joined_nul = "a\0b".to_string();
    assert_eq!(split_input(&joined_nul), Err(ShellError::CStringNullByte));
}
