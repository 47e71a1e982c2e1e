use rsh::builtin::{exit, history_lines, version_text};
use rsh::config::{error_color_choice, separator_choice, user_color_choice, Conf, TermColor};
use rsh::exec::{
    and_runs_second, child_outcome, input_flags, pipeline_exec_error, redirect_flags, ChildExit,
};
use rsh::shell::{after_command, needs_blank_line, prompt, prompt_with, LastStatus, Next};
use rsh::status::{Returns, ShellError, ShellResult};
use rsh::text::{push_decimal, push_signed_decimal, trim_text};

fn test_conf() -> Conf {
    Conf { usercolor: "<u>".to_string(), errorcolor: "<e>".to_string(), separator: "->".to_string() }
}

#[test]
fn after_command_records_exit_code() {
    let s = LastStatus::new();
    let r: ShellResult = Ok(Returns::Code(3));
    assert_eq!(after_command(s, &r), Next::Continue(LastStatus { return_code: 3, signal: None }));
}

#[test]
fn after_command_signal_keeps_code() {
    let s = LastStatus { return_code: 5, signal: None };
    let r: ShellResult = Ok(Returns::ShellSignal(9));
    assert_eq!(after_command(s, &r), Next::Continue(LastStatus { return_code: 5, signal: Some(9) }));
}

#[test]
fn after_command_exit_quits() {
    let r: ShellResult = Ok(exit());
    assert_eq!(after_command(LastStatus::new(), &r), Next::Quit);
}

#[test]
fn after_command_error_codes() {
    let s = LastStatus { return_code: 0, signal: Some(2) };
    assert_eq!(
        after_command(s, &Err(ShellError::Exec(2))),
        Next::Continue(LastStatus { return_code: 127, signal: None })
    );
    assert_eq!(
        after_command(s, &Err(ShellError::Exec(13))),
        Next::Continue(LastStatus { return_code: 126, signal: None })
    );
    assert_eq!(
        after_command(s, &Err(ShellError::NoArg)),
        Next::Continue(LastStatus { return_code: 1, signal: None })
    );
    assert_eq!(
        after_command(s, &Err(ShellError::Fork(11))),
        Next::Continue(LastStatus { return_code: 1, signal: None })
    );
}

#[test]
fn prompt_after_success_has_no_status() {
    let p = prompt(&test_conf(), "ann", "box", LastStatus::new());
    assert_eq!(p, "<u>ann\x1b[39m@box -> ");
}

#[test]
fn prompt_after_failure_shows_code() {
    let p = prompt(&test_conf(), "ann", "box", LastStatus { return_code: 127, signal: None });
    assert_eq!(p, "<u>ann\x1b[39m@box [<e>127\x1b[39m] -> ");
    let p = prompt(&test_conf(), "ann", "box", LastStatus { return_code: -3, signal: None });
    assert_eq!(p, "<u>ann\x1b[39m@box [<e>-3\x1b[39m] -> ");
}

#[test]
fn prompt_after_signal_shows_its_name() {
    let p = prompt(&test_conf(), "ann", "box", LastStatus { return_code: 0, signal: Some(9) });
    assert_eq!(p, "<u>ann\x1b[39m@box [<e>SIGKILL\x1b[39m] -> ");
    let p = prompt(&test_conf(), "ann", "box", LastStatus { return_code: 0, signal: Some(4000) });
    assert_eq!(p, "<u>ann\x1b[39m@box [<e>4000\x1b[39m] -> ");
}

#[test]
fn prompt_with_uses_given_status_text() {
    let p = prompt_with(&test_conf(), "u", "h", LastStatus { return_code: 1, signal: None }, "X");
    assert_eq!(p, "<u>u\x1b[39m@h [<e>X\x1b[39m] -> ");
}

#[test]
fn blank_line_only_after_interrupt() {
    assert!(needs_blank_line(LastStatus { return_code: 0, signal: Some(2) }));
    assert!(!needs_blank_line(LastStatus { return_code: 0, signal: Some(15) }));
    assert!(!needs_blank_line(LastStatus { return_code: 2, signal: None }));
}

#[test]
fn error_messages() {
    assert_eq!(ShellError::NoArg.message(), "error: no argument(s) provided!");
    assert_eq!(ShellError::CStringNullByte.message(), "error: null byte found before end of string");
    assert_eq!(ShellError::Exec(2).message(), "error: No such file or directory");
    assert_eq!(ShellError::IO(13).message(), "error: Permission denied");
    assert_eq!(
        ShellError::DupStdout(9, "out".to_string()).message(),
        "error: failed to redirect stdout to 'out'"
    );
    assert_eq!(
        ShellError::DupStdin(9, "in".to_string()).message(),
        "error: failed to redirect stdin to 'in'"
    );
    assert_eq!(ShellError::Fork(11).errno(), Some(11));
    assert_eq!(ShellError::NoArg.errno(), None);
}

#[test]
fn child_outcomes() {
    assert_eq!(child_outcome(Some(2), ChildExit::Exited(0)), Err(ShellError::Exec(2)));
    assert_eq!(child_outcome(None, ChildExit::Exited(4)), Ok(Returns::Code(4)));
    assert_eq!(child_outcome(None, ChildExit::Signaled(15)), Ok(Returns::ShellSignal(15)));
    assert_eq!(child_outcome(None, ChildExit::Other), Ok(Returns::Code(0)));
}

#[test]
fn and_continues_only_after_success() {
    assert!(and_runs_second(&Ok(Returns::Code(0))));
    assert!(!and_runs_second(&Ok(Returns::Code(1))));
    assert!(!and_runs_second(&Ok(Returns::ShellSignal(2))));
    assert!(!and_runs_second(&Ok(Returns::ExitSig)));
    assert!(!and_runs_second(&Err(ShellError::Exec(2))));
}

#[test]
fn pipeline_reports_left_error_first() {
    assert_eq!(pipeline_exec_error(Some(2), Some(13)), Some(2));
    assert_eq!(pipeline_exec_error(None, Some(13)), Some(13));
    assert_eq!(pipeline_exec_error(None, None), None);
}

#[test]
fn open_flags() {
    let o = redirect_flags(true);
    assert!(o.write_only && o.create && o.truncate && !o.append && o.close_on_exec);
    let a = redirect_flags(false);
    assert!(a.write_only && !a.create && !a.truncate && a.append && a.close_on_exec);
    let i = input_flags();
    assert!(i.read_only && !i.write_only && !i.create && i.close_on_exec);
}

#[test]
fn version_and_history() {
    assert_eq!(version_text(), "version: 0.2.3");
    let lines = history_lines(&vec!["ls".to_string(), "cd /".to_string()]);
    assert_eq!(lines, vec!["1: ls".to_string(), "2: cd /".to_string()]);
    let many: Vec<String> = (0..12).map(|i| format!("c{}", i)).collect();
    assert_eq!(history_lines(&many)[11], "12: c11");
}

#[test]
fn color_choices() {
    assert_eq!(user_color_choice("1\n"), TermColor::LightBlue);
    assert_eq!(user_color_choice(" 4 "), TermColor::Reset);
    assert_eq!(user_color_choice("0"), TermColor::LightGreen);
    assert_eq!(user_color_choice("7"), TermColor::LightGreen);
    assert_eq!(error_color_choice("1\n"), TermColor::Red);
    assert_eq!(error_color_choice("2"), TermColor::LightMagenta);
    assert_eq!(error_color_choice("3"), TermColor::Magenta);
    assert_eq!(error_color_choice(""), TermColor::LightRed);
    assert_eq!(separator_choice("\n"), "->");
    assert_eq!(separator_choice("  $ \n"), "$");
}

#[test]
fn default_conf_and_answers() {
    let d = Conf::default();
    assert!(d.usercolor == "\x1b[38;5;10m" || d.usercolor.is_empty());
    assert!(d.errorcolor == "\x1b[38;5;9m" || d.errorcolor.is_empty());
    assert_eq!(d.separator, "->");
    let c = Conf::from_answers("4\n", "4\n", "=>\n");
    assert_eq!(c.usercolor, "\x1b[39m");
    assert_eq!(c.errorcolor, "\x1b[39m");
    assert_eq!(c.separator, "=>");
    let b = Conf::from_answers("x", "", "");
    assert_eq!(b.usercolor, d.usercolor);
    assert_eq!(b.errorcolor, d.errorcolor);
    assert_eq!(b.separator, d.separator);
}

#[test]
fn decimal_rendering_and_trim() {
    let mut s = String::new();
    push_decimal(&mut s, 0);
    push_decimal(&mut s, 1234567890);
    assert_eq!(s, "01234567890");
    let mut t = String::new();
    push_signed_decimal(&mut t, i32::MIN);
    assert_eq!(t, "-2147483648");
    assert_eq!(trim_text(" \t a b \n"), "a b");
    assert_eq!(trim_text("   "), "");
}
