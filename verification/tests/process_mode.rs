//! The helper process: its command line, and what it does with what it reads.

use zed_ios::process_mode::{
    build_helper_request, parse_ffi_argv, parse_process_mode_args, process_mode_exit_code,
    stdin_step, terminal_window_size, watches_resizes, OutputProxy, ProxyAction, ProxyInput,
    RusshHelperExecArgs, StdinAction, StdinRead,
};
use zed_ios::russh_helper::{
    build_russh_helper_command_template, Interactive, RusshHelperFrame, RusshWindowSize,
};

#[test]
fn parses_russh_helper_exec_argv() {
    let args = vec![
        "/Applications/Zed.app/Zed".into(),
        "--zed-ios-russh-helper".into(),
        "exec".into(),
        "--socket".into(),
        "/tmp/zed-russh/helper.sock".into(),
        "--interactive".into(),
        "yes".into(),
        "--command".into(),
        "cd \"$HOME/project\" && exec env bash -l".into(),
    ];

    let parsed = parse_process_mode_args(&args).unwrap().unwrap();
    assert_eq!(parsed.socket_path, "/tmp/zed-russh/helper.sock");
    assert!(parsed.interactive);
    assert_eq!(parsed.command, "cd \"$HOME/project\" && exec env bash -l");
}

#[test]
fn non_helper_argv_is_not_handled() {
    let args = vec!["/Applications/Zed.app/Zed".into(), "--regular".into()];
    assert!(parse_process_mode_args(&args).unwrap().is_none());
}

#[test]
fn helper_request_construction_preserves_interactive_flag_and_command() {
    let args = RusshHelperExecArgs {
        socket_path: "/tmp/zed-russh/helper.sock".into(),
        interactive: false,
        command: "exec env printf hello".into(),
    };
    let request = build_helper_request(
        &args,
        Some(RusshWindowSize {
            columns: 100,
            rows: 40,
            pixel_width: 1200,
            pixel_height: 800,
        }),
    );

    assert!(!request.interactive);
    assert_eq!(request.command, "exec env printf hello");
    assert_eq!(
        request.initial_window_size,
        Some(RusshWindowSize {
            columns: 100,
            rows: 40,
            pixel_width: 1200,
            pixel_height: 800,
        })
    );
}

fn size() -> RusshWindowSize {
    RusshWindowSize {
        columns: 80,
        rows: 24,
        pixel_width: 0,
        pixel_height: 0,
    }
}

#[test]
fn helper_reads_the_command_line_that_starts_it() {
    let template =
        build_russh_helper_command_template("zed", "/tmp/h.sock", "make".into(), Interactive::No);
    let mut argv = vec![template.program];
    argv.extend(template.args);
    let parsed = parse_process_mode_args(&argv).unwrap().unwrap();
    assert_eq!(parsed.socket_path, "/tmp/h.sock");
    assert!(!parsed.interactive);
    assert_eq!(parsed.command, "make");
}

#[test]
fn incomplete_command_lines_are_refused() {
    let helper = |rest: &[&str]| {
        let mut argv = vec!["zed".to_string(), "--zed-ios-russh-helper".to_string()];
        argv.extend(rest.iter().map(|arg| arg.to_string()));
        parse_process_mode_args(&argv)
    };
    assert!(helper(&[]).is_err());
    assert!(helper(&["other"]).is_err());
    assert!(helper(&["exec", "--socket"]).is_err());
    assert!(helper(&["exec", "--socket", "s", "--interactive", "maybe", "--command", "c"]).is_err());
    assert!(helper(&["exec", "--socket", "s", "--command", "c"]).is_err());
    assert!(helper(&["exec", "--unknown", "x"]).is_err());
}

#[test]
fn resizes_are_watched_only_on_a_terminal() {
    let interactive = RusshHelperExecArgs {
        socket_path: "s".into(),
        interactive: true,
        command: "c".into(),
    };
    assert!(watches_resizes(&interactive, Some(size())));
    assert!(!watches_resizes(&interactive, None));
    assert_eq!(terminal_window_size(false, Some(size())), None);
    assert_eq!(terminal_window_size(true, Some(size())), Some(size()));
}

#[test]
fn last_exit_status_is_the_one_that_counts() {
    let mut proxy = OutputProxy::new();
    assert_eq!(
        proxy.step(ProxyInput::Frame(RusshHelperFrame::Stdout(vec![1]))),
        ProxyAction::WriteStdout(vec![1])
    );
    assert_eq!(
        proxy.step(ProxyInput::Frame(RusshHelperFrame::Stderr(vec![2]))),
        ProxyAction::WriteStderr(vec![2])
    );
    proxy.step(ProxyInput::Frame(RusshHelperFrame::ExitStatus(3)));
    proxy.step(ProxyInput::Frame(RusshHelperFrame::ExitStatus(4)));
    assert_eq!(proxy.step(ProxyInput::StreamEnded), ProxyAction::Finish(4));
    assert_eq!(
        OutputProxy::new().step(ProxyInput::StreamEnded),
        ProxyAction::Finish(1)
    );
    assert_eq!(
        OutputProxy::new().step(ProxyInput::Frame(RusshHelperFrame::Error("boom".into()))),
        ProxyAction::ReportAndFinish("boom".into(), 1)
    );
    assert_eq!(
        OutputProxy::new().step(ProxyInput::ReadFailed),
        ProxyAction::ReadFailed
    );
    assert_eq!(
        OutputProxy::new().step(ProxyInput::Frame(RusshHelperFrame::Resize(size()))),
        ProxyAction::UnexpectedFrame(RusshHelperFrame::Resize(size()))
    );
}

#[test]
fn stdin_is_handed_on_until_it_ends() {
    assert_eq!(
        stdin_step(StdinRead::Data(vec![7])),
        StdinAction::SendAndContinue(RusshHelperFrame::Stdin(vec![7]))
    );
    assert_eq!(
        stdin_step(StdinRead::Data(vec![])),
        StdinAction::SendAndStop(RusshHelperFrame::Eof)
    );
    assert_eq!(stdin_step(StdinRead::Interrupted), StdinAction::Continue);
    assert_eq!(stdin_step(StdinRead::Failed), StdinAction::Stop);
}

#[test]
fn process_ends_with_the_helpers_code() {
    assert_eq!(process_mode_exit_code(&Ok(Some(5))), 5);
    assert_eq!(process_mode_exit_code(&Ok(None)), -1);
    assert_eq!(process_mode_exit_code(&Err("boom".into())), 1);
}

#[test]
fn argument_list_from_outside_is_checked() {
    assert_eq!(
        parse_ffi_argv(1, &Some(vec![Some("zed".into())])),
        Ok(vec!["zed".to_string()])
    );
    assert!(parse_ffi_argv(-1, &None).is_err());
    assert!(parse_ffi_argv(1, &None).is_err());
    assert!(parse_ffi_argv(1, &Some(vec![None])).is_err());
}
