use hello::cmdline::{
    complaint, report_usage, Argument, CmdLine, Exit, Task, UsageError, HELP,
};
use pico_args::Arguments;

fn arguments(args: &[&str]) -> Arguments {
    Arguments::from_vec(args.iter().map(|arg| arg.into()).collect())
}

fn parse(args: &[&str]) -> Result<CmdLine, UsageError> {
    CmdLine::from_arguments("hello".to_string(), arguments(args))
}

fn text(arg: &str) -> Argument {
    Argument::Text(arg.to_string())
}

#[test]
fn no_arguments_is_the_shell() {
    assert_eq!(parse(&[]), Ok(CmdLine { prog: "hello".to_string(), task: Task::Shell }));
}

#[test]
fn help_flag_in_either_spelling() {
    let help = CmdLine { prog: "hello".to_string(), task: Task::Help };
    assert_eq!(parse(&["-h"]).as_ref(), Ok(&help));
    assert_eq!(parse(&["--help"]).as_ref(), Ok(&help));
    assert_eq!(parse(&["-h", "--help", "-h"]).as_ref(), Ok(&help));
}

#[test]
fn help_takes_priority_over_anything_else() {
    let help = CmdLine { prog: "hello".to_string(), task: Task::Help };
    assert_eq!(parse(&["extra", "--help"]).as_ref(), Ok(&help));
    assert_eq!(parse(&["-x", "-h", "more"]).as_ref(), Ok(&help));
    assert_eq!(parse(&["--", "-h"]).as_ref(), Ok(&help));
}

#[test]
fn any_other_argument_is_a_usage_error() {
    let error = parse(&["-x", "file", "--long", "", "-"]).unwrap_err();
    assert_eq!(
        error.report,
        vec![
            "hello: error: unrecognized option: -x".to_string(),
            "hello: error: unused argument: file".to_string(),
            "hello: error: unrecognized option: --long".to_string(),
            "hello: error: unused argument: ".to_string(),
            "hello: error: unrecognized option: -".to_string(),
            "hello: error: invalid command line arguments.".to_string(),
            "hello: Try 'hello --help' for more information.".to_string(),
        ]
    );
    assert_eq!(error.exit(), Exit::Usage);
}

#[test]
fn what_looks_like_the_help_flag_is_not_it() {
    let error = parse(&["-help"]).unwrap_err();
    assert_eq!(error.report[0], "hello: error: unrecognized option: -help");
    let error = parse(&["--h"]).unwrap_err();
    assert_eq!(error.report[0], "hello: error: unrecognized option: --h");
    let error = parse(&["help"]).unwrap_err();
    assert_eq!(error.report[0], "hello: error: unused argument: help");
}

#[test]
fn report_names_the_program() {
    let error =
        CmdLine::from_arguments("tokens".to_string(), arguments(&["one"])).unwrap_err();
    assert_eq!(
        error.report,
        vec![
            "tokens: error: unused argument: one".to_string(),
            "tokens: error: invalid command line arguments.".to_string(),
            "tokens: Try 'hello --help' for more information.".to_string(),
        ]
    );
}

#[test]
fn complaint_by_the_kind_of_argument() {
    assert_eq!(complaint("p", &text("-v")), "p: error: unrecognized option: -v");
    assert_eq!(complaint("p", &text("v")), "p: error: unused argument: v");
    assert_eq!(complaint("p", &text("")), "p: error: unused argument: ");
    assert_eq!(complaint("p", &text("\u{2212}v")), "p: error: unused argument: \u{2212}v");
    assert_eq!(
        complaint("p", &Argument::Raw("\"\\xFF\"".to_string())),
        "p: error: unused/unrecognized command line parameter: \"\\xFF\""
    );
}

#[test]
fn report_of_no_arguments_is_the_summary() {
    assert_eq!(
        report_usage("p", &vec![]),
        vec![
            "p: error: invalid command line arguments.".to_string(),
            "p: Try 'hello --help' for more information.".to_string(),
        ]
    );
}

#[test]
fn report_keeps_the_order_of_the_arguments() {
    let rest = vec![text("b"), Argument::Raw("\"\\xC0\"".to_string()), text("-a")];
    assert_eq!(
        report_usage("p", &rest),
        vec![
            "p: error: unused argument: b".to_string(),
            "p: error: unused/unrecognized command line parameter: \"\\xC0\"".to_string(),
            "p: error: unrecognized option: -a".to_string(),
            "p: error: invalid command line arguments.".to_string(),
            "p: Try 'hello --help' for more information.".to_string(),
        ]
    );
}

#[test]
fn exit_statuses() {
    assert_eq!(Exit::Success.code(), 0);
    assert_eq!(Exit::Failure.code(), 1);
    assert_eq!(Exit::Usage.code(), 2);
}

#[test]
fn help_text() {
    assert_eq!(
        HELP,
        "Usage: hello [options]\n\nOptions:\n    -h, --help      Print this help information"
    );
}
