//! The app started as an SSH helper: its command line, and what it does with the
//! frames that it gets and with what it reads from its terminal.

use crate::russh_helper;
use crate::russh_helper::{RusshHelperFrame, RusshHelperRequest, RusshWindowSize};
use crate::ssh_channel;
use crate::ssh_channel::{EventView, HelperStepView};
use crate::text;
use vstd::prelude::*;

verus! {

/// What the helper is asked to do on its command line.
#[derive(Clone, Debug, PartialEq, Eq)]
pub struct RusshHelperExecArgs {
    pub socket_path: String,
    pub interactive: bool,
    pub command: String,
}

/// The contents of the helper's command line.
pub struct ExecArgsView {
    pub socket_path: Seq<char>,
    pub interactive: bool,
    pub command: Seq<char>,
}

impl View for RusshHelperExecArgs {
    type V = ExecArgsView;

    open spec fn view(&self) -> ExecArgsView {
        ExecArgsView {
            socket_path: self.socket_path@,
            interactive: self.interactive,
            command: self.command@,
        }
    }
}

/// The options that were found so far.
pub struct FoundOptions {
    pub socket_path: Option<Seq<char>>,
    pub interactive: Option<bool>,
    pub command: Option<Seq<char>>,
}

/// The options found in `args` from position `at` on, on top of those found before:
/// an option given twice has its last value.
pub open spec fn scan_options(args: Seq<Seq<char>>, at: int, found: FoundOptions) -> Result<
    FoundOptions,
    Seq<char>,
>
    decreases args.len() - at,
{
    if at >= args.len() {
        Ok(found)
    } else if args[at] == "--socket"@ {
        if at + 1 >= args.len() {
            Err("Missing value for --socket"@)
        } else {
            scan_options(args, at + 2, FoundOptions { socket_path: Some(args[at + 1]), ..found })
        }
    } else if args[at] == "--interactive"@ {
        if at + 1 >= args.len() {
            Err("Missing value for --interactive"@)
        } else if args[at + 1] == "yes"@ {
            scan_options(args, at + 2, FoundOptions { interactive: Some(true), ..found })
        } else if args[at + 1] == "no"@ {
            scan_options(args, at + 2, FoundOptions { interactive: Some(false), ..found })
        } else {
            Err("Invalid value for --interactive: "@ + args[at + 1])
        }
    } else if args[at] == "--command"@ {
        if at + 1 >= args.len() {
            Err("Missing value for --command"@)
        } else {
            scan_options(args, at + 2, FoundOptions { command: Some(args[at + 1]), ..found })
        }
    } else {
        Err("Unexpected iOS Russh helper argument: "@ + args[at])
    }
}

/// The command line, once all its options were found.
pub open spec fn complete_options(found: FoundOptions) -> Result<ExecArgsView, Seq<char>> {
    match (found.socket_path, found.interactive, found.command) {
        (None, _, _) => Err("Missing --socket"@),
        (_, None, _) => Err("Missing --interactive"@),
        (_, _, None) => Err("Missing --command"@),
        (Some(socket_path), Some(interactive), Some(command)) => Ok(
            ExecArgsView { socket_path, interactive, command },
        ),
    }
}

/// No option found yet.
pub open spec fn no_options() -> FoundOptions {
    FoundOptions { socket_path: None, interactive: None, command: None }
}

/// What a command line asks of the helper; nothing if it is not meant for it.
pub open spec fn parsed_args(args: Seq<Seq<char>>) -> Result<Option<ExecArgsView>, Seq<char>> {
    if args.len() < 2 || args[1] != "--zed-ios-russh-helper"@ {
        Ok(None)
    } else if args.len() < 3 || args[2] != "exec"@ {
        Err("Unsupported iOS Russh helper subcommand"@)
    } else {
        match scan_options(args, 3, no_options()) {
            Err(message) => Err(message),
            Ok(found) => match complete_options(found) {
                Err(message) => Err(message),
                Ok(exec_args) => Ok(Some(exec_args)),
            },
        }
    }
}

/// The outcome of reading the command line, by contents.
pub open spec fn args_result(result: Result<Option<RusshHelperExecArgs>, String>) -> Result<
    Option<ExecArgsView>,
    Seq<char>,
> {
    match result {
        Ok(Some(args)) => Ok(Some(args@)),
        Ok(None) => Ok(None),
        Err(message) => Err(message@),
    }
}

/// What a command line asks of the helper; nothing if it is not meant for it.
pub fn parse_process_mode_args(args: &[String]) -> (result: Result<
    Option<RusshHelperExecArgs>,
    String,
>)
    ensures
        args_result(result) == parsed_args(text::texts(args@)),
{
    if args.len() < 2 || !text::same_text(args[1].as_str(), "--zed-ios-russh-helper") {
        return Ok(None);
    }
    if args.len() < 3 || !text::same_text(args[2].as_str(), "exec") {
        return Err("Unsupported iOS Russh helper subcommand".to_owned());
    }
    let mut socket_path: Option<String> = None;
    let mut interactive: Option<bool> = None;
    let mut command: Option<String> = None;
    let mut index: usize = 3;
    let ghost all = text::texts(args@);
    while index < args.len()
        invariant
            3 <= index,
            all == text::texts(args@),
            scan_options(all, 3, no_options()) == scan_options(
                all,
                index as int,
                FoundOptions {
                    socket_path: text::optional(socket_path),
                    interactive,
                    command: text::optional(command),
                },
            ),
            parsed_args(all) == match scan_options(all, 3, no_options()) {
                Err(message) => Err(message),
                Ok(found) => match complete_options(found) {
                    Err(message) => Err(message),
                    Ok(exec_args) => Ok(Some(exec_args)),
                },
            },
        decreases args.len() - index,
    {
        let option = args[index].as_str();
        if text::same_text(option, "--socket") {
            if args.len() - index < 2 {
                return Err("Missing value for --socket".to_owned());
            }
            socket_path = Some(args[index + 1].clone());
        } else if text::same_text(option, "--interactive") {
            if args.len() - index < 2 {
                return Err("Missing value for --interactive".to_owned());
            }
            let value = args[index + 1].as_str();
            if text::same_text(value, "yes") {
                interactive = Some(true);
            } else if text::same_text(value, "no") {
                interactive = Some(false);
            } else {
                return Err(text::concat("Invalid value for --interactive: ", value));
            }
        } else if text::same_text(option, "--command") {
            if args.len() - index < 2 {
                return Err("Missing value for --command".to_owned());
            }
            command = Some(args[index + 1].clone());
        } else {
            return Err(text::concat("Unexpected iOS Russh helper argument: ", option));
        }
        index = index + 2;
    }
    match (socket_path, interactive, command) {
        (Some(socket_path), Some(interactive), Some(command)) => Ok(
            Some(RusshHelperExecArgs { socket_path, interactive, command }),
        ),
        (None, _, _) => Err("Missing --socket".to_owned()),
        (_, None, _) => Err("Missing --interactive".to_owned()),
        (_, _, None) => Err("Missing --command".to_owned()),
    }
}


/// The command line that the app starts the helper with is read back by the helper
/// as what was asked for, whatever the program, the socket and the command are.
pub proof fn law_helper_reads_its_command_line(
    program: Seq<char>,
    socket_path: Seq<char>,
    command: Seq<char>,
    interactive: bool,
)
    ensures
        parsed_args(seq![program] + russh_helper::helper_args(socket_path, command, interactive))
            == Ok::<Option<ExecArgsView>, Seq<char>>(
            Some(ExecArgsView { socket_path, interactive, command }),
        ),
{
    let args = seq![program] + russh_helper::helper_args(socket_path, command, interactive);
    reveal_strlit("--socket");
    reveal_strlit("--interactive");
    reveal_strlit("--command");
    reveal_strlit("yes");
    reveal_strlit("no");
    assert("--socket"@.len() == 8 && "--interactive"@.len() == 13 && "--command"@.len() == 9);
    assert("yes"@.len() == 3 && "no"@.len() == 2);
    let one = FoundOptions { socket_path: Some(socket_path), ..no_options() };
    let two = FoundOptions { interactive: Some(interactive), ..one };
    let three = FoundOptions { command: Some(command), ..two };
    assert(scan_options(args, 3, no_options()) == scan_options(args, 5, one));
    assert(scan_options(args, 5, one) == scan_options(args, 7, two));
    assert(scan_options(args, 7, two) == scan_options(args, 9, three));
    assert(scan_options(args, 9, three) == Ok::<FoundOptions, Seq<char>>(three));
}

/// The request that the helper sends for its command line.
pub fn build_helper_request(
    args: &RusshHelperExecArgs,
    initial_window_size: Option<RusshWindowSize>,
) -> (request: RusshHelperRequest)
    ensures
        request.command@ == args.command@,
        request.interactive == args.interactive,
        request.initial_window_size == initial_window_size,
{
    RusshHelperRequest {
        command: args.command.clone(),
        interactive: args.interactive,
        initial_window_size,
    }
}

/// Whether changes of the terminal's size are to be watched for and sent.
pub open spec fn watches_size(interactive: bool, size: Option<RusshWindowSize>) -> bool {
    interactive && size is Some
}

/// Whether changes of the terminal's size are to be watched for and sent.
pub fn watches_resizes(
    args: &RusshHelperExecArgs,
    initial_window_size: Option<RusshWindowSize>,
) -> (watches: bool)
    ensures
        watches == watches_size(args.interactive, initial_window_size),
{
    args.interactive && initial_window_size.is_some()
}

/// The size of the terminal on standard input, from what the system says of it.
pub open spec fn usable_size(is_tty: bool, size: Option<RusshWindowSize>) -> Option<
    RusshWindowSize,
> {
    if is_tty && size is Some && size->0.columns != 0 && size->0.rows != 0 {
        size
    } else {
        None
    }
}

/// The size of the terminal on standard input, from what the system says of it:
/// nothing if there is no terminal, if its size could not be had, or if it has no
/// cells.
pub fn terminal_window_size(is_tty: bool, size: Option<RusshWindowSize>) -> (result: Option<
    RusshWindowSize,
>)
    ensures
        result == usable_size(is_tty, size),
{
    if !is_tty {
        return None;
    }
    match size {
        Some(size) => if size.columns == 0 || size.rows == 0 {
            None
        } else {
            Some(size)
        },
        None => None,
    }
}

/// What came from the app.
#[derive(Clone, Debug, PartialEq, Eq)]
pub enum ProxyInput {
    Frame(RusshHelperFrame),
    /// The stream ended.
    StreamEnded,
    /// The stream could not be read, or held something else than a frame.
    ReadFailed,
}

/// What the helper does next.
#[derive(Clone, Debug, PartialEq, Eq)]
pub enum ProxyAction {
    /// Write to standard output, then go on.
    WriteStdout(Vec<u8>),
    /// Write to standard error, then go on.
    WriteStderr(Vec<u8>),
    /// Go on.
    Continue,
    /// End with a status.
    Finish(i32),
    /// Write a line to standard error and end with a status.
    ReportAndFinish(String, i32),
    /// Fail because the app sent a frame that only the helper sends.
    UnexpectedFrame(RusshHelperFrame),
    /// Fail because the stream could not be read.
    ReadFailed,
}

/// The helper's side of a running command: the exit status that the app told so far.
#[derive(Clone, Copy, Debug, PartialEq, Eq, Structural)]
pub struct OutputProxy {
    pub exit_status: Option<i32>,
}

/// What the helper does next, given the exit status it was told and what came.
pub open spec fn proxy_action(exit_status: Option<i32>, input: ProxyInput) -> ProxyAction {
    match input {
        ProxyInput::Frame(RusshHelperFrame::Stdout(data)) => ProxyAction::WriteStdout(data),
        ProxyInput::Frame(RusshHelperFrame::Stderr(data)) => ProxyAction::WriteStderr(data),
        ProxyInput::Frame(RusshHelperFrame::ExitStatus(_)) => ProxyAction::Continue,
        ProxyInput::Frame(RusshHelperFrame::Error(message)) => ProxyAction::ReportAndFinish(
            message,
            1,
        ),
        ProxyInput::Frame(frame) => ProxyAction::UnexpectedFrame(frame),
        ProxyInput::StreamEnded => ProxyAction::Finish(
            match exit_status {
                Some(status) => status,
                None => 1,
            },
        ),
        ProxyInput::ReadFailed => ProxyAction::ReadFailed,
    }
}

/// The exit status that was told, once something more came.
pub open spec fn told_status(exit_status: Option<i32>, input: ProxyInput) -> Option<i32> {
    match input {
        ProxyInput::Frame(RusshHelperFrame::ExitStatus(status)) => Some(status),
        _ => exit_status,
    }
}

/// The exit status that was told in a series of inputs.
pub open spec fn told_status_after(inputs: Seq<ProxyInput>) -> Option<i32>
    decreases inputs.len(),
{
    if inputs.len() == 0 {
        None
    } else {
        told_status(told_status_after(inputs.drop_last()), inputs.last())
    }
}

impl OutputProxy {
    /// A command that has told nothing yet.
    pub fn new() -> (proxy: Self)
        ensures
            proxy.exit_status == told_status_after(Seq::empty()),
    {
        OutputProxy { exit_status: None }
    }

    /// What to do with what came.
    pub fn step(&mut self, input: ProxyInput) -> (action: ProxyAction)
        ensures
            action == proxy_action(old(self).exit_status, input),
            final(self).exit_status == told_status(old(self).exit_status, input),
    {
        match input {
            ProxyInput::Frame(frame) => match frame {
                RusshHelperFrame::Stdout(data) => ProxyAction::WriteStdout(data),
                RusshHelperFrame::Stderr(data) => ProxyAction::WriteStderr(data),
                RusshHelperFrame::ExitStatus(status) => {
                    self.exit_status = Some(status);
                    ProxyAction::Continue
                },
                RusshHelperFrame::Error(message) => ProxyAction::ReportAndFinish(message, 1),
                other => ProxyAction::UnexpectedFrame(other),
            },
            ProxyInput::StreamEnded => {
                let status: i32 = match self.exit_status {
                    Some(status) => status,
                    None => 1,
                };
                ProxyAction::Finish(status)
            },
            ProxyInput::ReadFailed => ProxyAction::ReadFailed,
        }
    }
}

/// When the stream ends, the helper ends with the exit status that the app told last,
/// and with 1 if it told none.
pub proof fn law_last_exit_status_counts(inputs: Seq<ProxyInput>, at: int)
    requires
        0 <= at < inputs.len(),
        inputs[at] matches ProxyInput::Frame(frame) && frame is ExitStatus,
        forall|later: int|
            at < later < inputs.len() ==> !(#[trigger] inputs[later] matches ProxyInput::Frame(
                frame,
            ) && frame is ExitStatus),
    ensures
        proxy_action(told_status_after(inputs), ProxyInput::StreamEnded) == ProxyAction::Finish(
            inputs[at]->Frame_0->ExitStatus_0,
        ),
    decreases inputs.len(),
{
    if at < inputs.len() - 1 {
        let before = inputs.drop_last();
        assert(inputs.last() == inputs[inputs.len() - 1]);
        law_last_exit_status_counts(before, at);
    }
}

/// A command that told no exit status ends with 1.
pub proof fn law_no_exit_status_is_a_failure(inputs: Seq<ProxyInput>)
    requires
        forall|at: int|
            0 <= at < inputs.len() ==> !(#[trigger] inputs[at] matches ProxyInput::Frame(frame)
                && frame is ExitStatus),
    ensures
        proxy_action(told_status_after(inputs), ProxyInput::StreamEnded) == ProxyAction::Finish(1),
    decreases inputs.len(),
{
    if inputs.len() > 0 {
        assert(inputs.last() == inputs[inputs.len() - 1]);
        law_no_exit_status_is_a_failure(inputs.drop_last());
    }
}

/// What came of reading standard input.
#[derive(Clone, Debug, PartialEq, Eq)]
pub enum StdinRead {
    Data(Vec<u8>),
    Interrupted,
    Failed,
}

/// What to do with what came of reading standard input.
#[derive(Clone, Debug, PartialEq, Eq)]
pub enum StdinAction {
    /// Send a frame and read on, unless it could not be sent.
    SendAndContinue(RusshHelperFrame),
    /// Send a frame and stop reading.
    SendAndStop(RusshHelperFrame),
    Continue,
    Stop,
}

/// What to do with what came of reading standard input.
pub open spec fn stdin_action(read: StdinRead) -> StdinAction {
    match read {
        StdinRead::Data(data) => if data@.len() == 0 {
            StdinAction::SendAndStop(RusshHelperFrame::Eof)
        } else {
            StdinAction::SendAndContinue(RusshHelperFrame::Stdin(data))
        },
        StdinRead::Interrupted => StdinAction::Continue,
        StdinRead::Failed => StdinAction::Stop,
    }
}

/// What to do with what came of reading standard input: data is passed on, the end of
/// the input (no data) is told and ends the reading, an interruption is ignored, and
/// any other failure ends the reading.
pub fn stdin_step(read: StdinRead) -> (action: StdinAction)
    ensures
        action == stdin_action(read),
{
    match read {
        StdinRead::Data(data) => if data.len() == 0 {
            StdinAction::SendAndStop(RusshHelperFrame::Eof)
        } else {
            StdinAction::SendAndContinue(RusshHelperFrame::Stdin(data))
        },
        StdinRead::Interrupted => StdinAction::Continue,
        StdinRead::Failed => StdinAction::Stop,
    }
}

/// The exit code of the process.
pub open spec fn exit_code_of(result: Result<Option<i32>, String>) -> int {
    match result {
        Ok(Some(code)) => code as int,
        Ok(None) => -1,
        Err(_) => 1,
    }
}

/// The exit code of the process: that of the helper if it ran, -1 if the command line
/// was not meant for it, and 1 if it failed.
pub fn process_mode_exit_code(result: &Result<Option<i32>, String>) -> (code: i32)
    ensures
        code == exit_code_of(*result),
{
    match result {
        Ok(Some(code)) => *code,
        Ok(None) => -1,
        Err(_) => 1,
    }
}

/// The arguments handed over by C code, where nothing stands for a null pointer.
pub open spec fn ffi_args(argc: i32, argv: Option<Seq<Option<Seq<char>>>>) -> Result<
    Seq<Seq<char>>,
    Seq<char>,
> {
    if argc < 0 {
        Err("Negative argc passed to zed_ios_maybe_run_process_mode"@)
    } else if argc == 0 {
        Ok(Seq::empty())
    } else {
        match argv {
            None => Err("Null argv passed to zed_ios_maybe_run_process_mode"@),
            Some(list) => if exists|i: int| 0 <= i < argc && #[trigger] list[i] is None {
                Err("Null argv element passed to zed_ios_maybe_run_process_mode"@)
            } else {
                Ok(Seq::new(argc as nat, |i: int| list[i]->0))
            },
        }
    }
}

/// The contents of arguments handed over by C code.
pub open spec fn ffi_contents(argv: Option<Vec<Option<String>>>) -> Option<
    Seq<Option<Seq<char>>>,
> {
    match argv {
        Some(list) => Some(list@.map_values(|arg: Option<String>| text::optional(arg))),
        None => None,
    }
}

/// The arguments handed over by C code, where nothing stands for a null pointer.
pub fn parse_ffi_argv(argc: i32, argv: &Option<Vec<Option<String>>>) -> (result: Result<
    Vec<String>,
    String,
>)
    requires
        *argv matches Some(list) ==> argc <= list@.len(),
    ensures
        match (result, ffi_args(argc, ffi_contents(*argv))) {
            (Ok(args), Ok(expected)) => text::texts(args@) == expected,
            (Err(message), Err(expected)) => message@ == expected,
            _ => false,
        },
{
    if argc < 0 {
        return Err("Negative argc passed to zed_ios_maybe_run_process_mode".to_owned());
    }
    let mut args: Vec<String> = Vec::new();
    if argc == 0 {
        assert(text::texts(args@) =~= Seq::empty());
        return Ok(args);
    }
    match argv {
        None => Err("Null argv passed to zed_ios_maybe_run_process_mode".to_owned()),
        Some(list) => {
            let ghost contents = ffi_contents(*argv)->0;
            let count: usize = argc as usize;
            let mut i: usize = 0;
            while i < count
                invariant
                    i <= count <= list@.len(),
                    contents == list@.map_values(|arg: Option<String>| text::optional(arg)),
                    args@.len() == i,
                    forall|k: int| 0 <= k < i ==> #[trigger] contents[k] is Some,
                    forall|k: int| 0 <= k < i ==> (#[trigger] args@[k])@ == contents[k]->0,
                    count == argc,
                    argc > 0,
                    ffi_contents(*argv) == Some(contents),
                decreases count - i,
            {
                match &list[i] {
                    Some(arg) => args.push(arg.clone()),
                    None => {
                        assert(contents[i as int] is None);
                        return Err(
                            "Null argv element passed to zed_ios_maybe_run_process_mode".to_owned(),
                        );
                    },
                }
                i = i + 1;
            }
            assert(text::texts(args@) =~= Seq::new(argc as nat, |k: int| contents[k]->0));
            Ok(args)
        },
    }
}

// What goes through the helper.

/// What a command prints on the server is printed by the helper, on the same stream and as it is,
/// however it got there; and the helper ends with the exit status that the command had.
pub proof fn law_output_comes_out_where_it_went_in(
    exit_status: Option<i32>,
    frame: RusshHelperFrame,
    data: Seq<u8>,
    status: u32,
)
    requires
        status <= i32::MAX,
    ensures
        ssh_channel::step_for_message(EventView::Data(data)) == HelperStepView::WriteFrame(frame@)
            ==> (proxy_action(exit_status, ProxyInput::Frame(frame)) matches
            ProxyAction::WriteStdout(written) && written@ == data),
        ssh_channel::step_for_message(EventView::ExtendedData { data, ext: 1 })
            == HelperStepView::WriteFrame(frame@) ==> (proxy_action(
            exit_status,
            ProxyInput::Frame(frame),
        ) matches ProxyAction::WriteStderr(written) && written@ == data),
        ssh_channel::step_for_message(EventView::ExitStatus(status)) == HelperStepView::WriteFrame(
            frame@,
        ) ==> proxy_action(
            told_status(exit_status, ProxyInput::Frame(frame)),
            ProxyInput::StreamEnded,
        ) == ProxyAction::Finish(status as i32),
{
}

/// What the helper reads is typed into the command: data as it is, and the end of the input as its
/// end. An interruption is nothing, and a failure ends the reading.
pub proof fn law_input_goes_to_the_command(read: StdinRead)
    ensures
        read matches StdinRead::Data(data) ==> (data@.len() > 0 ==> (stdin_action(read) matches
            StdinAction::SendAndContinue(frame) && ssh_channel::step_for_frame(frame@)
            == HelperStepView::SendData(data@))),
        read matches StdinRead::Data(data) ==> (data@.len() == 0 ==> (stdin_action(read) matches
            StdinAction::SendAndStop(frame) && ssh_channel::step_for_frame(frame@)
            == HelperStepView::SendEof)),
        stdin_action(read) is Continue <==> read is Interrupted,
        stdin_action(read) is Stop <==> read is Failed,
{
}

/// The helper goes on until the stream ends or something is wrong; an error of the app is told and
/// is a failure; output changes no exit status.
pub proof fn law_helper_ends_when_it_is_over(exit_status: Option<i32>, input: ProxyInput)
    ensures
        proxy_action(exit_status, input) is Finish <==> input is StreamEnded,
        proxy_action(exit_status, input) is ReadFailed <==> input is ReadFailed,
        proxy_action(exit_status, input) matches ProxyAction::ReportAndFinish(message, code) ==> code
            != 0 && input == ProxyInput::Frame(RusshHelperFrame::Error(message)),
        input matches ProxyInput::Frame(frame) ==> {
            &&& frame is Error ==> proxy_action(exit_status, input) is ReportAndFinish
            &&& frame is Stdout || frame is Stderr ==> told_status(exit_status, input) == exit_status
            &&& proxy_action(exit_status, input) is UnexpectedFrame <==> frame is Stdin
                || frame is Resize || frame is Eof
            &&& frame matches RusshHelperFrame::ExitStatus(status) ==> told_status(
                exit_status,
                input,
            ) == Some(status)
        },
{
}

/// A terminal is used exactly if there is one and it has cells, in the size that it has; its size
/// is watched exactly if the command is interactive.
pub proof fn law_only_real_terminals_are_used(
    is_tty: bool,
    size: Option<RusshWindowSize>,
    interactive: bool,
)
    ensures
        usable_size(is_tty, size) matches Some(used) ==> is_tty && size == Some(used) && used.columns
            > 0 && used.rows > 0,
        is_tty && size is Some && size->0.columns > 0 && size->0.rows > 0 ==> usable_size(
            is_tty,
            size,
        ) == size,
        watches_size(interactive, usable_size(is_tty, size)) <==> interactive && usable_size(
            is_tty,
            size,
        ) is Some,
{
}

/// The process ends as the helper did, if it ran; a failure is one, and a command line for the app
/// itself is told apart from both.
pub proof fn law_process_ends_as_the_helper_did(
    result: Result<Option<i32>, String>,
    code: i32,
    message: String,
)
    ensures
        exit_code_of(Ok(Some(code))) == code,
        exit_code_of(Err(message)) > 0,
        exit_code_of(Ok(None)) < 0,
        exit_code_of(result) == 0 ==> result == Ok::<Option<i32>, String>(Some(0)),
{
}

proof fn lemma_options_stand_in_the_line(args: Seq<Seq<char>>, at: int, found: FoundOptions)
    requires
        at >= 0,
        scan_options(args, at, found) is Ok,
    ensures
        ({
            let result = scan_options(args, at, found)->Ok_0;
            &&& result.socket_path == found.socket_path || exists|i: int|
                at <= i < args.len() - 1 && #[trigger] args[i] == "--socket"@
                    && result.socket_path == Some(args[i + 1])
            &&& result.command == found.command || exists|i: int|
                at <= i < args.len() - 1 && #[trigger] args[i] == "--command"@ && result.command
                    == Some(args[i + 1])
            &&& result.interactive == found.interactive || exists|i: int|
                at <= i < args.len() - 1 && #[trigger] args[i] == "--interactive"@
                    && result.interactive == Some(args[i + 1] == "yes"@)
        }),
    decreases args.len() - at,
{
    reveal_strlit("yes");
    reveal_strlit("no");
    assert("yes"@.len() == 3 && "no"@.len() == 2);
    if at < args.len() {
        let next = if args[at] == "--socket"@ {
            FoundOptions { socket_path: Some(args[at + 1]), ..found }
        } else if args[at] == "--interactive"@ {
            FoundOptions { interactive: Some(args[at + 1] == "yes"@), ..found }
        } else {
            FoundOptions { command: Some(args[at + 1]), ..found }
        };
        lemma_options_stand_in_the_line(args, at + 2, next);
    }
}

/// A command line is for the helper exactly if its first argument says so. What the helper reads
/// from it stands there, each value behind its option, and no option is missing.
pub proof fn law_options_stand_in_the_line(args: Seq<Seq<char>>)
    ensures
        parsed_args(args) == Ok::<Option<ExecArgsView>, Seq<char>>(None) <==> args.len() < 2
            || args[1] != "--zed-ios-russh-helper"@,
        parsed_args(args) matches Ok(Some(told)) ==> {
            &&& args[2] == "exec"@
            &&& exists|i: int|
                3 <= i < args.len() - 1 && #[trigger] args[i] == "--socket"@ && args[i + 1]
                    == told.socket_path
            &&& exists|i: int|
                3 <= i < args.len() - 1 && #[trigger] args[i] == "--command"@ && args[i + 1]
                    == told.command
            &&& exists|i: int|
                3 <= i < args.len() - 1 && #[trigger] args[i] == "--interactive"@ && told.interactive
                    == (args[i + 1] == "yes"@)
        },
{
    if parsed_args(args) matches Ok(Some(told)) {
        lemma_options_stand_in_the_line(args, 3, no_options());
    }
}

/// The arguments of the process are taken as they were handed over, all of them and in order, and
/// only if none is missing.
pub proof fn law_arguments_are_taken_as_they_are(
    argc: i32,
    argv: Option<Seq<Option<Seq<char>>>>,
)
    ensures
        argc < 0 ==> ffi_args(argc, argv) is Err,
        ffi_args(argc, argv) matches Ok(args) ==> args.len() == argc && forall|i: int|
            0 <= i < argc ==> argv is Some && Some(#[trigger] args[i]) == argv->0[i],
        argc >= 0 && argv is Some && (forall|i: int|
            0 <= i < argc ==> #[trigger] argv->0[i] is Some) ==> ffi_args(argc, argv) is Ok,
{
}

} // verus!
