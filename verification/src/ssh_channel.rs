//! What is done with the messages of an SSH channel: running a command, bridging the
//! RPC protocol, forwarding a port, and serving the helper process.

use crate::numbers;
use crate::russh_helper;
use crate::russh_helper::{FrameView, RusshHelperError, RusshHelperFrame, RusshHelperRequest, RusshWindowSize};
use crate::text;
use vstd::prelude::*;

verus! {

/// A message that a channel gave.
#[derive(Clone, Debug, PartialEq, Eq)]
pub enum ChannelEvent {
    Data(Vec<u8>),
    ExtendedData { data: Vec<u8>, ext: u32 },
    ExitStatus(u32),
    Eof,
    Close,
    /// There are no more messages.
    Ended,
    /// A message of another sort.
    Other,
}

/// The contents of a message.
pub enum EventView {
    Data(Seq<u8>),
    ExtendedData { data: Seq<u8>, ext: u32 },
    ExitStatus(u32),
    Eof,
    Close,
    Ended,
    Other,
}

impl View for ChannelEvent {
    type V = EventView;

    open spec fn view(&self) -> EventView {
        match self {
            ChannelEvent::Data(data) => EventView::Data(data@),
            ChannelEvent::ExtendedData { data, ext } => EventView::ExtendedData {
                data: data@,
                ext: *ext,
            },
            ChannelEvent::ExitStatus(status) => EventView::ExitStatus(*status),
            ChannelEvent::Eof => EventView::Eof,
            ChannelEvent::Close => EventView::Close,
            ChannelEvent::Ended => EventView::Ended,
            ChannelEvent::Other => EventView::Other,
        }
    }
}

/// Whether a message ends the channel.
pub open spec fn ends(event: EventView) -> bool {
    event is Eof || event is Close || event is Ended
}

/// The sort of extended data that is error output.
pub const STDERR_EXT: u32 = 1;

// Running a command.

/// What a command that runs on the server has told so far.
#[derive(Clone, Debug, PartialEq, Eq)]
pub struct CommandRun {
    pub output: Vec<u8>,
    pub stderr: Vec<u8>,
    pub exit_status: Option<u32>,
}

/// What a command has told so far.
pub struct RunView {
    pub output: Seq<u8>,
    pub stderr: Seq<u8>,
    pub exit_status: Option<u32>,
}

impl View for CommandRun {
    type V = RunView;

    open spec fn view(&self) -> RunView {
        RunView { output: self.output@, stderr: self.stderr@, exit_status: self.exit_status }
    }
}

/// What is known of a command after one more message.
pub open spec fn heard(run: RunView, event: EventView) -> RunView {
    match event {
        EventView::Data(data) => RunView { output: run.output + data, ..run },
        EventView::ExtendedData { data, ext } => if ext == 1 {
            RunView { stderr: run.stderr + data, ..run }
        } else {
            run
        },
        EventView::ExitStatus(status) => RunView { exit_status: Some(status), ..run },
        _ => run,
    }
}

/// What running a command comes to: its output, or what is told of its failure.
pub open spec fn command_result(
    exit_status: Option<u32>,
    stdout: Seq<char>,
    stderr: Seq<char>,
) -> Result<Seq<char>, Seq<char>> {
    match exit_status {
        Some(status) => if status != 0 {
            Err(
                "Command failed with exit code "@ + text::decimal(status as nat) + ": stderr="@
                    + text::trimmed(stderr) + ", stdout="@ + text::trimmed(stdout),
            )
        } else {
            Ok(stdout)
        },
        None => Ok(stdout),
    }
}

/// A command of which nothing is known yet.
pub open spec fn nothing_heard() -> RunView {
    RunView { output: Seq::empty(), stderr: Seq::empty(), exit_status: None }
}

/// What running a command comes to, from its exit status and what it printed.
pub fn command_outcome(exit_status: Option<u32>, stdout: String, stderr: &str) -> (result: Result<
    String,
    String,
>)
    ensures
        match (result, command_result(exit_status, stdout@, stderr@)) {
            (Ok(output), Ok(expected)) => output@ == expected,
            (Err(message), Err(expected)) => message@ == expected,
            _ => false,
        },
{
    let status: u32 = match exit_status {
        Some(status) => status,
        None => 0,
    };
    if status == 0 {
        return Ok(stdout);
    }
    let mut message = "Command failed with exit code ".to_owned();
    message.append(text::format_decimal(status as u64).as_str());
    message.append(": stderr=");
    message.append(text::trim(stderr).as_str());
    message.append(", stdout=");
    message.append(text::trim(stdout.as_str()).as_str());
    Err(message)
}

impl CommandRun {
    /// A command of which nothing is known yet.
    pub fn new() -> (run: Self)
        ensures
            run@ == nothing_heard(),
    {
        CommandRun { output: Vec::new(), stderr: Vec::new(), exit_status: None }
    }

    /// Takes one message of the channel; whether it was the last one.
    pub fn hear(&mut self, event: ChannelEvent) -> (finished: bool)
        ensures
            final(self)@ == heard(old(self)@, event@),
            finished == ends(event@),
    {
        match event {
            ChannelEvent::Data(data) => {
                self.output.extend_from_slice(data.as_slice());
                assert(self.output@ =~= old(self)@.output + data@);
                false
            },
            ChannelEvent::ExtendedData { data, ext } => {
                if ext == STDERR_EXT {
                    self.stderr.extend_from_slice(data.as_slice());
                    assert(self.stderr@ =~= old(self)@.stderr + data@);
                }
                false
            },
            ChannelEvent::ExitStatus(status) => {
                self.exit_status = Some(status);
                false
            },
            ChannelEvent::Eof => true,
            ChannelEvent::Close => true,
            ChannelEvent::Ended => true,
            ChannelEvent::Other => false,
        }
    }

    /// What running the command came to.
    pub fn outcome(&self) -> (result: Result<String, String>)
        ensures
            match (
                result,
                command_result(
                    self@.exit_status,
                    text::lossy_text(self@.output),
                    text::lossy_text(self@.stderr),
                ),
            ) {
                (Ok(output), Ok(expected)) => output@ == expected,
                (Err(message), Err(expected)) => message@ == expected,
                _ => false,
            },
    {
        let stdout = text::text_from_utf8_lossy(self.output.as_slice());
        let stderr = text::text_from_utf8_lossy(self.stderr.as_slice());
        command_outcome(self.exit_status, stdout, stderr.as_str())
    }
}

// The RPC protocol.

/// How many bytes tell the length of a message.
pub const MESSAGE_LEN_SIZE: usize = 4;

/// A message as it goes over the channel: its length in four bytes, then its own bytes.
/// Of a length that four bytes cannot tell, the lowest four bytes are sent.
pub open spec fn framed(message: Seq<u8>) -> Seq<u8> {
    russh_helper::u32_bytes((message.len() % 0x1_0000_0000) as u32) + message
}

/// Messages as they go over the channel, one behind the other.
pub open spec fn framed_all(messages: Seq<Seq<u8>>) -> Seq<u8>
    decreases messages.len(),
{
    if messages.len() == 0 {
        Seq::empty()
    } else {
        framed(messages.first()) + framed_all(messages.drop_first())
    }
}

/// The whole messages that bytes begin with.
pub open spec fn messages_in(bytes: Seq<u8>) -> Seq<Seq<u8>>
    decreases bytes.len(),
{
    match russh_helper::parse_wire(bytes) {
        Ok((message, rest)) => if rest.len() < bytes.len() {
            seq![message] + messages_in(rest)
        } else {
            Seq::empty()
        },
        Err(_) => Seq::empty(),
    }
}

/// What is left of bytes behind the whole messages that they begin with.
pub open spec fn unfinished(bytes: Seq<u8>) -> Seq<u8>
    decreases bytes.len(),
{
    match russh_helper::parse_wire(bytes) {
        Ok((message, rest)) => if rest.len() < bytes.len() {
            unfinished(rest)
        } else {
            bytes
        },
        Err(_) => bytes,
    }
}

/// Messages that were sent one behind the other arrive as they were sent, and nothing is
/// left over.
pub proof fn law_messages_arrive_as_sent(messages: Seq<Seq<u8>>)
    requires
        forall|i: int| 0 <= i < messages.len() ==> (#[trigger] messages[i]).len() <= u32::MAX,
    ensures
        messages_in(framed_all(messages)) == messages,
        unfinished(framed_all(messages)).len() == 0,
    decreases messages.len(),
{
    if messages.len() == 0 {
        assert(messages_in(framed_all(messages)) =~= messages);
    } else {
        let rest = messages.drop_first();
        assert forall|i: int| 0 <= i < rest.len() implies (#[trigger] rest[i]).len()
            <= u32::MAX by {
            assert(rest[i] == messages[i + 1]);
        }
        law_messages_arrive_as_sent(rest);
        let first = messages.first();
        let tail = framed_all(rest);
        assert(messages[0].len() <= u32::MAX);
        lemma_framed_message_is_found(first, tail);
        assert(framed_all(messages) == framed(first) + tail);
        assert(seq![first] + rest =~= messages);
    }
}

proof fn lemma_framed_message_is_found(message: Seq<u8>, tail: Seq<u8>)
    requires
        message.len() <= u32::MAX,
    ensures
        messages_in(framed(message) + tail) == seq![message] + messages_in(tail),
        unfinished(framed(message) + tail) == unfinished(tail),
{
    assert(framed(message) == russh_helper::wire_bytes(message));
    russh_helper::law_wire_reads_back(message, tail);
    let bytes = framed(message) + tail;
    assert(russh_helper::parse_wire(bytes) == Ok::<(Seq<u8>, Seq<u8>), RusshHelperError>(
        (message, tail),
    ));
    assert(tail.len() < bytes.len());
}

/// It does not matter how the bytes that arrive are cut into pieces: the messages that are
/// found in the first piece, and then in what it left over with the second, are those of
/// both together.
pub proof fn law_pieces_do_not_matter(first: Seq<u8>, second: Seq<u8>)
    ensures
        messages_in(first + second) == messages_in(first) + messages_in(
            unfinished(first) + second,
        ),
        unfinished(first + second) == unfinished(unfinished(first) + second),
    decreases first.len(),
{
    match russh_helper::parse_wire(first) {
        Ok((message, rest)) => {
            let both = first + second;
            assert(both.take(4) =~= first.take(4));
            assert(russh_helper::u32_value(both) == russh_helper::u32_value(first));
            let end = 4 + russh_helper::u32_value(first);
            assert(both.subrange(4, end) =~= first.subrange(4, end));
            assert(both.skip(end) =~= rest + second);
            law_pieces_do_not_matter(rest, second);
            assert(messages_in(both) =~= seq![message] + messages_in(rest + second));
            assert(messages_in(both) =~= messages_in(first) + messages_in(
                unfinished(first) + second,
            ));
        },
        Err(_) => {
            assert(messages_in(first + second) =~= messages_in(first) + messages_in(
                unfinished(first) + second,
            ));
        },
    }
}

/// The bytes of a message as they go over the channel.
pub fn frame_message(message: &[u8]) -> (bytes: Vec<u8>)
    ensures
        bytes@ == framed(message@),
{
    let length: u32 = (message.len() as u64 % 0x1_0000_0000) as u32;
    let mut bytes: Vec<u8> = Vec::new();
    russh_helper::write_u32(&mut bytes, length);
    bytes.extend_from_slice(message);
    assert(bytes@ =~= framed(message@));
    bytes
}

fn whole_message_at(bytes: &[u8], at: usize) -> (end: Option<usize>)
    requires
        at <= bytes@.len(),
    ensures
        match russh_helper::parse_wire(bytes@.skip(at as int)) {
            Ok((message, rest)) => {
                &&& end is Some
                &&& at + 4 <= end->0 <= bytes@.len()
                &&& message == bytes@.subrange(at + 4, end->0 as int)
                &&& rest == bytes@.skip(end->0 as int)
            },
            Err(_) => end is None,
        },
{
    let left: usize = bytes.len() - at;
    let ghost tail = bytes@.skip(at as int);
    if left < MESSAGE_LEN_SIZE {
        return None;
    }
    let length: u32 = bytes[at] as u32 + 256 * bytes[at + 1] as u32 + 65536 * bytes[at + 2] as u32
        + 16777216 * bytes[at + 3] as u32;
    assert(length == russh_helper::u32_value(tail));
    if left - MESSAGE_LEN_SIZE < length as usize {
        return None;
    }
    let end: usize = at + MESSAGE_LEN_SIZE + length as usize;
    proof {
        assert(tail.subrange(4, 4 + length) =~= bytes@.subrange(at + 4, end as int));
        assert(tail.skip(4 + length) =~= bytes@.skip(end as int));
    }
    Some(end)
}

/// The contents of messages.
pub open spec fn contents(messages: Seq<Vec<u8>>) -> Seq<Seq<u8>> {
    messages.map_values(|message: Vec<u8>| message@)
}

/// What the bridge does next.
#[derive(Clone, Debug, PartialEq, Eq)]
pub enum RpcStep {
    /// Hand these messages on, and note that the connection is alive.
    Deliver(Vec<Vec<u8>>),
    Wait,
    Stop,
}

/// What the bridge does next, as contents.
pub enum RpcStepView {
    Deliver(Seq<Seq<u8>>),
    Wait,
    Stop,
}

impl View for RpcStep {
    type V = RpcStepView;

    open spec fn view(&self) -> RpcStepView {
        match self {
            RpcStep::Deliver(messages) => RpcStepView::Deliver(contents(messages@)),
            RpcStep::Wait => RpcStepView::Wait,
            RpcStep::Stop => RpcStepView::Stop,
        }
    }
}

/// The bridge between the RPC protocol and a channel.
#[derive(Clone, Debug, PartialEq, Eq)]
pub struct RpcBridge {
    pub pending: Vec<u8>,
    pub exit_code: Option<u32>,
    pub stderr_output: Vec<u8>,
}

/// The state of the bridge.
pub struct BridgeView {
    pub pending: Seq<u8>,
    pub exit_code: Option<u32>,
    pub stderr_output: Seq<u8>,
}

impl View for RpcBridge {
    type V = BridgeView;

    open spec fn view(&self) -> BridgeView {
        BridgeView {
            pending: self.pending@,
            exit_code: self.exit_code,
            stderr_output: self.stderr_output@,
        }
    }
}

/// The bridge after one more message of the channel.
pub open spec fn bridged(bridge: BridgeView, event: EventView) -> BridgeView {
    match event {
        EventView::Data(data) => BridgeView {
            pending: unfinished(bridge.pending + data),
            ..bridge
        },
        EventView::ExtendedData { data, ext } => if ext == 1 {
            BridgeView { stderr_output: bridge.stderr_output + data, ..bridge }
        } else {
            bridge
        },
        EventView::ExitStatus(status) => BridgeView { exit_code: Some(status), ..bridge },
        _ => bridge,
    }
}

/// What the bridge does with one more message of the channel.
pub open spec fn rpc_step(bridge: BridgeView, event: EventView) -> RpcStepView {
    match event {
        EventView::Data(data) => RpcStepView::Deliver(messages_in(bridge.pending + data)),
        _ => if ends(event) {
            RpcStepView::Stop
        } else {
            RpcStepView::Wait
        },
    }
}

impl RpcBridge {
    /// A bridge over which nothing went yet.
    pub fn new() -> (bridge: Self)
        ensures
            bridge@ == (BridgeView {
                pending: Seq::empty(),
                exit_code: None,
                stderr_output: Seq::empty(),
            }),
    {
        RpcBridge { pending: Vec::new(), exit_code: None, stderr_output: Vec::new() }
    }

    fn take_messages(&mut self) -> (messages: Vec<Vec<u8>>)
        ensures
            contents(messages@) == messages_in(old(self)@.pending),
            final(self)@ == (BridgeView {
                pending: unfinished(old(self)@.pending),
                ..old(self)@
            }),
    {
        let mut messages: Vec<Vec<u8>> = Vec::new();
        let mut at: usize = 0;
        let ghost pending = self.pending@;
        proof {
            assert(pending.skip(0) =~= pending);
            assert(contents(messages@) + messages_in(pending) =~= messages_in(pending));
        }
        let mut next = whole_message_at(self.pending.as_slice(), at);
        while next.is_some()
            invariant
                self.pending@ == pending,
                self@.exit_code == old(self)@.exit_code,
                self@.stderr_output == old(self)@.stderr_output,
                pending == old(self)@.pending,
                at <= pending.len(),
                messages_in(pending) == contents(messages@) + messages_in(
                    pending.skip(at as int),
                ),
                unfinished(pending) == unfinished(pending.skip(at as int)),
                match russh_helper::parse_wire(pending.skip(at as int)) {
                    Ok((message, rest)) => {
                        &&& next is Some
                        &&& at + 4 <= next->0 <= pending.len()
                        &&& message == pending.subrange(at + 4, next->0 as int)
                        &&& rest == pending.skip(next->0 as int)
                    },
                    Err(_) => next is None,
                },
            decreases pending.len() - at,
        {
            let end: usize = match next {
                Some(end) => end,
                None => at,
            };
            let message = vstd::slice::slice_to_vec(
                vstd::slice::slice_subrange(self.pending.as_slice(), at + MESSAGE_LEN_SIZE, end),
            );
            proof {
                let before = contents(messages@);
                assert(contents(messages@.push(message)) =~= before.push(message@));
                assert(before + (seq![message@] + messages_in(pending.skip(end as int)))
                    =~= before.push(message@) + messages_in(pending.skip(end as int)));
            }
            messages.push(message);
            at = end;
            next = whole_message_at(self.pending.as_slice(), at);
        }
        let rest = vstd::slice::slice_to_vec(
            vstd::slice::slice_subrange(self.pending.as_slice(), at, self.pending.len()),
        );
        proof {
            assert(rest@ =~= pending.skip(at as int));
            assert(contents(messages@) + messages_in(pending.skip(at as int)) =~= contents(
                messages@,
            ));
        }
        self.pending = rest;
        messages
    }

    /// Takes one message of the channel.
    pub fn received(&mut self, event: ChannelEvent) -> (step: RpcStep)
        ensures
            final(self)@ == bridged(old(self)@, event@),
            step@ == rpc_step(old(self)@, event@),
    {
        match event {
            ChannelEvent::Data(data) => {
                self.pending.extend_from_slice(data.as_slice());
                assert(self.pending@ =~= old(self)@.pending + data@);
                RpcStep::Deliver(self.take_messages())
            },
            ChannelEvent::ExtendedData { data, ext } => {
                if ext == STDERR_EXT {
                    self.stderr_output.extend_from_slice(data.as_slice());
                    assert(self.stderr_output@ =~= old(self)@.stderr_output + data@);
                }
                RpcStep::Wait
            },
            ChannelEvent::ExitStatus(status) => {
                self.exit_code = Some(status);
                RpcStep::Wait
            },
            ChannelEvent::Eof => RpcStep::Stop,
            ChannelEvent::Close => RpcStep::Stop,
            ChannelEvent::Ended => RpcStep::Stop,
            ChannelEvent::Other => RpcStep::Wait,
        }
    }

    /// The exit code of the process at the other end, 0 if it told none.
    pub fn final_exit_code(&self) -> (code: i32)
        ensures
            code == code_told(self@.exit_code),
    {
        match self.exit_code {
            Some(status) => numbers::to_signed(status),
            None => 0,
        }
    }
}

/// The exit code of a process, from the status that it told.
pub open spec fn code_told(status: Option<u32>) -> i32 {
    match status {
        Some(status) => numbers::signed_of(status),
        None => 0,
    }
}

// A forwarded port.

/// What happens on either side of a forwarded connection.
#[derive(Clone, Debug, PartialEq, Eq)]
pub enum ForwardEvent {
    /// The local side sent these bytes; none if it will send no more.
    LocalRead(Vec<u8>),
    LocalFailed,
    Channel(ChannelEvent),
}

/// What to do with it.
#[derive(Clone, Debug, PartialEq, Eq)]
pub enum ForwardStep {
    Wait,
    SendData(Vec<u8>),
    SendEof,
    WriteLocal(Vec<u8>),
    /// Shut the local side down, and stop.
    ShutDownLocal,
    Stop,
    Fail,
}

/// A forwarded connection.
#[derive(Clone, Copy, Debug, PartialEq, Eq, Structural)]
pub struct ForwardBridge {
    /// Whether the local side will send no more, so that it is not read any longer.
    pub stream_closed: bool,
}

/// What to do with what happened on a forwarded connection, as contents.
pub enum ForwardStepView {
    Wait,
    SendData(Seq<u8>),
    SendEof,
    WriteLocal(Seq<u8>),
    ShutDownLocal,
    Stop,
    Fail,
}

impl View for ForwardStep {
    type V = ForwardStepView;

    open spec fn view(&self) -> ForwardStepView {
        match self {
            ForwardStep::Wait => ForwardStepView::Wait,
            ForwardStep::SendData(data) => ForwardStepView::SendData(data@),
            ForwardStep::SendEof => ForwardStepView::SendEof,
            ForwardStep::WriteLocal(data) => ForwardStepView::WriteLocal(data@),
            ForwardStep::ShutDownLocal => ForwardStepView::ShutDownLocal,
            ForwardStep::Stop => ForwardStepView::Stop,
            ForwardStep::Fail => ForwardStepView::Fail,
        }
    }
}

/// Whether the local side will send no more, once something happened.
pub open spec fn closed_after(closed: bool, event: ForwardEvent) -> bool {
    closed || (event matches ForwardEvent::LocalRead(data) && data@.len() == 0)
}

/// What to do with what happened on a forwarded connection.
pub open spec fn forward_step(closed: bool, event: ForwardEvent) -> ForwardStepView {
    match event {
        ForwardEvent::LocalRead(data) => if data@.len() == 0 {
            ForwardStepView::SendEof
        } else {
            ForwardStepView::SendData(data@)
        },
        ForwardEvent::LocalFailed => ForwardStepView::Fail,
        ForwardEvent::Channel(message) => match message@ {
            EventView::Data(data) => ForwardStepView::WriteLocal(data),
            EventView::ExtendedData { data, ext } => ForwardStepView::WriteLocal(data),
            _ => if !ends(message@) {
                ForwardStepView::Wait
            } else if closed {
                ForwardStepView::Stop
            } else {
                ForwardStepView::ShutDownLocal
            },
        },
    }
}

impl ForwardBridge {
    /// A connection that was just made.
    pub fn new() -> (bridge: Self)
        ensures
            !bridge.stream_closed,
    {
        ForwardBridge { stream_closed: false }
    }

    /// What to do with what happened.
    pub fn step(&mut self, event: ForwardEvent) -> (step: ForwardStep)
        ensures
            final(self).stream_closed == closed_after(old(self).stream_closed, event),
            step@ == forward_step(old(self).stream_closed, event),
    {
        match event {
            ForwardEvent::LocalRead(data) => if data.len() == 0 {
                self.stream_closed = true;
                ForwardStep::SendEof
            } else {
                ForwardStep::SendData(data)
            },
            ForwardEvent::LocalFailed => ForwardStep::Fail,
            ForwardEvent::Channel(message) => match message {
                ChannelEvent::Data(data) => ForwardStep::WriteLocal(data),
                ChannelEvent::ExtendedData { data, ext: _ } => ForwardStep::WriteLocal(data),
                ChannelEvent::ExitStatus(_) => ForwardStep::Wait,
                ChannelEvent::Other => ForwardStep::Wait,
                _ => if self.stream_closed {
                    ForwardStep::Stop
                } else {
                    ForwardStep::ShutDownLocal
                },
            },
        }
    }
}

// The helper process.

/// The size of a terminal that did not tell its own.
pub open spec fn default_size() -> RusshWindowSize {
    RusshWindowSize { columns: 80, rows: 24, pixel_width: 0, pixel_height: 0 }
}

/// The size of a terminal that did not tell its own.
pub fn default_helper_window_size() -> (size: RusshWindowSize)
    ensures
        size == default_size(),
{
    RusshWindowSize { columns: 80, rows: 24, pixel_width: 0, pixel_height: 0 }
}

/// The terminal that a request is run in: none unless it is interactive.
pub open spec fn terminal_for(interactive: bool, told: Option<RusshWindowSize>) -> Option<
    RusshWindowSize,
> {
    if !interactive {
        None
    } else if told is Some {
        told
    } else {
        Some(default_size())
    }
}

/// The terminal that a request is run in: none unless it is interactive.
pub fn requested_terminal(request: &RusshHelperRequest) -> (size: Option<RusshWindowSize>)
    ensures
        size == terminal_for(request@.interactive, request@.initial_window_size),
{
    if !request.interactive {
        return None;
    }
    match request.initial_window_size {
        Some(size) => Some(size),
        None => Some(default_helper_window_size()),
    }
}

/// What happens on either side of a helper process's connection.
#[derive(Clone, Debug, PartialEq, Eq)]
pub enum HelperEvent {
    /// The helper process sent a frame.
    Frame(RusshHelperFrame),
    /// The helper process went away.
    HelperEnded,
    /// What the helper process sent could not be read.
    HelperFailed,
    Channel(ChannelEvent),
}

/// What to do with it.
#[derive(Clone, Debug, PartialEq, Eq)]
pub enum HelperStep {
    Wait,
    SendData(Vec<u8>),
    ChangeWindow(RusshWindowSize),
    SendEof,
    WriteFrame(RusshHelperFrame),
    Stop,
    /// The helper process may not send such a frame.
    UnexpectedFrame(RusshHelperFrame),
    ReadFailed,
}

/// What is done, as contents.
pub enum HelperStepView {
    Wait,
    SendData(Seq<u8>),
    ChangeWindow(RusshWindowSize),
    SendEof,
    WriteFrame(FrameView),
    Stop,
    UnexpectedFrame(FrameView),
    ReadFailed,
}

impl View for HelperStep {
    type V = HelperStepView;

    open spec fn view(&self) -> HelperStepView {
        match self {
            HelperStep::Wait => HelperStepView::Wait,
            HelperStep::SendData(data) => HelperStepView::SendData(data@),
            HelperStep::ChangeWindow(size) => HelperStepView::ChangeWindow(*size),
            HelperStep::SendEof => HelperStepView::SendEof,
            HelperStep::WriteFrame(frame) => HelperStepView::WriteFrame(frame@),
            HelperStep::Stop => HelperStepView::Stop,
            HelperStep::UnexpectedFrame(frame) => HelperStepView::UnexpectedFrame(frame@),
            HelperStep::ReadFailed => HelperStepView::ReadFailed,
        }
    }
}

/// The exit status that the helper process is told: one too large for it becomes the
/// largest there is.
pub open spec fn told_exit_status(status: u32) -> i32 {
    if status <= i32::MAX {
        status as i32
    } else {
        i32::MAX
    }
}

/// What is done with a frame of the helper process.
pub open spec fn step_for_frame(frame: FrameView) -> HelperStepView {
    match frame {
        FrameView::Stdin(data) => if data.len() == 0 {
            HelperStepView::Wait
        } else {
            HelperStepView::SendData(data)
        },
        FrameView::Resize(size) => HelperStepView::ChangeWindow(size),
        FrameView::Eof => HelperStepView::SendEof,
        other => HelperStepView::UnexpectedFrame(other),
    }
}

/// What is done with a message of the channel.
pub open spec fn step_for_message(message: EventView) -> HelperStepView {
    match message {
        EventView::Data(data) => HelperStepView::WriteFrame(FrameView::Stdout(data)),
        EventView::ExtendedData { data, ext } => if ext == 1 {
            HelperStepView::WriteFrame(FrameView::Stderr(data))
        } else {
            HelperStepView::Wait
        },
        EventView::ExitStatus(status) => HelperStepView::WriteFrame(
            FrameView::ExitStatus(told_exit_status(status)),
        ),
        EventView::Other => HelperStepView::Wait,
        _ => HelperStepView::Stop,
    }
}

/// What to do with what happened.
pub open spec fn helper_step_for(event: HelperEvent) -> HelperStepView {
    match event {
        HelperEvent::Frame(frame) => step_for_frame(frame@),
        HelperEvent::HelperEnded => HelperStepView::Stop,
        HelperEvent::HelperFailed => HelperStepView::ReadFailed,
        HelperEvent::Channel(message) => step_for_message(message@),
    }
}

/// What to do with what happened.
pub fn helper_step(event: HelperEvent) -> (step: HelperStep)
    ensures
        step@ == helper_step_for(event),
{
    match event {
        HelperEvent::Frame(frame) => match frame {
            RusshHelperFrame::Stdin(data) => if data.len() == 0 {
                HelperStep::Wait
            } else {
                HelperStep::SendData(data)
            },
            RusshHelperFrame::Resize(size) => HelperStep::ChangeWindow(size),
            RusshHelperFrame::Eof => HelperStep::SendEof,
            other => HelperStep::UnexpectedFrame(other),
        },
        HelperEvent::HelperEnded => HelperStep::Stop,
        HelperEvent::HelperFailed => HelperStep::ReadFailed,
        HelperEvent::Channel(message) => match message {
            ChannelEvent::Data(data) => HelperStep::WriteFrame(RusshHelperFrame::Stdout(data)),
            ChannelEvent::ExtendedData { data, ext } => if ext == STDERR_EXT {
                HelperStep::WriteFrame(RusshHelperFrame::Stderr(data))
            } else {
                HelperStep::Wait
            },
            ChannelEvent::ExitStatus(status) => {
                let told: i32 = if status <= i32::MAX as u32 {
                    status as i32
                } else {
                    i32::MAX
                };
                HelperStep::WriteFrame(RusshHelperFrame::ExitStatus(told))
            },
            ChannelEvent::Other => HelperStep::Wait,
            _ => HelperStep::Stop,
        },
    }
}

/// The helper process is never told a success that the command did not have: what it is
/// told is 0 exactly if the command's own exit status was.
pub proof fn law_failure_stays_a_failure(status: u32)
    ensures
        told_exit_status(status) >= 0,
        told_exit_status(status) == 0 <==> status == 0,
{
}

// What goes over a channel.

/// A channel ends with its end, whichever way it is told, and with nothing else.
pub proof fn law_channels_end_when_told(event: EventView)
    ensures
        ends(event) <==> !(event is Data) && !(event is ExtendedData) && !(event is ExitStatus)
            && !(event is Other),
{
}

/// What a command prints is gathered in its order: output with output, errors with errors, and
/// neither is lost or mixed; the last exit status counts, and nothing else changes what is known.
pub proof fn law_output_is_gathered(run: RunView, data: Seq<u8>, ext: u32, status: u32)
    ensures
        ({
            let after = heard(run, EventView::Data(data));
            &&& run.output.is_prefix_of(after.output) && data.is_suffix_of(after.output)
            &&& after.output.len() == run.output.len() + data.len()
            &&& after.stderr == run.stderr && after.exit_status == run.exit_status
        }),
        ({
            let after = heard(run, EventView::ExtendedData { data, ext: 1 });
            &&& run.stderr.is_prefix_of(after.stderr) && data.is_suffix_of(after.stderr)
            &&& after.stderr.len() == run.stderr.len() + data.len()
            &&& after.output == run.output && after.exit_status == run.exit_status
        }),
        ext != 1 ==> heard(run, EventView::ExtendedData { data, ext }) == run,
        heard(run, EventView::ExitStatus(status)) == (RunView { exit_status: Some(status), ..run }),
        heard(run, EventView::Eof) == run && heard(run, EventView::Close) == run,
        heard(run, EventView::Ended) == run && heard(run, EventView::Other) == run,
{
    let after = heard(run, EventView::Data(data)).output;
    assert(after.subrange(0, run.output.len() as int) =~= run.output);
    assert(after.subrange(after.len() - data.len(), after.len() as int) =~= data);
    let errors = heard(run, EventView::ExtendedData { data, ext: 1 }).stderr;
    assert(errors.subrange(0, run.stderr.len() as int) =~= run.stderr);
    assert(errors.subrange(errors.len() - data.len(), errors.len() as int) =~= data);
}

/// A command fails exactly if it told an exit status other than 0, and the failure names it and
/// what was printed; its output is handed on untouched otherwise.
pub proof fn law_commands_fail_by_their_status(
    exit_status: Option<u32>,
    stdout: Seq<char>,
    stderr: Seq<char>,
)
    ensures
        command_result(exit_status, stdout, stderr) is Err <==> exit_status is Some
            && exit_status->0 != 0,
        command_result(exit_status, stdout, stderr) matches Ok(output) ==> output == stdout,
        command_result(exit_status, stdout, stderr) matches Err(message) ==> {
            &&& text::trimmed(stdout).is_suffix_of(message)
            &&& text::has_part(message, text::trimmed(stderr))
            &&& text::has_part(message, text::decimal(exit_status->0 as nat))
        },
{
    if let Err(message) = command_result(exit_status, stdout, stderr) {
        let (out, err) = (text::trimmed(stdout), text::trimmed(stderr));
        let number = text::decimal(exit_status->0 as nat);
        let start = "Command failed with exit code "@;
        let at = start.len() as int;
        assert(message.subrange(at, at + number.len()) =~= number);
        assert(text::stands_at(message, number, at));
        let behind = (start + number + ": stderr="@).len() as int;
        assert(message.subrange(behind, behind + err.len()) =~= err);
        assert(text::stands_at(message, err, behind));
        assert(message.subrange(message.len() - out.len(), message.len() as int) =~= out);
    }
}

/// The messages of the protocol are handed on whole and in their order, in whatever pieces they
/// arrive; error output and the exit status are kept apart from them.
pub proof fn law_bridge_hands_on_whole_messages(
    bridge: BridgeView,
    first: Seq<u8>,
    second: Seq<u8>,
    status: u32,
)
    ensures
        ({
            let between = bridged(bridge, EventView::Data(first));
            let one = rpc_step(bridge, EventView::Data(first))->Deliver_0;
            let two = rpc_step(between, EventView::Data(second))->Deliver_0;
            let both = rpc_step(bridge, EventView::Data(first + second))->Deliver_0;
            &&& one + two == both
            &&& bridged(between, EventView::Data(second)) == bridged(
                bridge,
                EventView::Data(first + second),
            )
            &&& between.exit_code == bridge.exit_code && between.stderr_output
                == bridge.stderr_output
        }),
        bridged(bridge, EventView::ExitStatus(status)).exit_code == Some(status),
        bridged(bridge, EventView::ExitStatus(status)).pending == bridge.pending,
        bridged(bridge, EventView::ExtendedData { data: first, ext: 1 }).pending == bridge.pending,
        bridged(bridge, EventView::ExtendedData { data: first, ext: 1 }).stderr_output
            == bridge.stderr_output + first,
{
    assert(bridge.pending + first + second =~= bridge.pending + (first + second));
    law_pieces_do_not_matter(bridge.pending + first, second);
}

/// The bridge hands messages on exactly if data came, and stops exactly if the channel ended.
pub proof fn law_bridge_stops_with_the_channel(bridge: BridgeView, event: EventView)
    ensures
        rpc_step(bridge, event) is Deliver <==> event is Data,
        rpc_step(bridge, event) is Stop <==> ends(event),
{
}

/// What either side of a forwarded connection sends reaches the other side as it was sent. The end
/// of the local side is told to the server; the end of the server's side shuts the local one down,
/// unless it has ended already.
pub proof fn law_forwarded_data_reaches_the_other_side(
    closed: bool,
    event: ForwardEvent,
    data: Seq<u8>,
)
    ensures
        event matches ForwardEvent::LocalRead(sent) ==> (forward_step(closed, event)
            == ForwardStepView::SendData(sent@) <==> sent@.len() > 0),
        forward_step(closed, event) is SendEof <==> (event matches ForwardEvent::LocalRead(sent)
            && sent@.len() == 0),
        event matches ForwardEvent::Channel(message) ==> (message@ == EventView::Data(data)
            ==> forward_step(closed, event) == ForwardStepView::WriteLocal(data)),
        forward_step(closed, event) is Stop ==> closed,
        forward_step(closed, event) is ShutDownLocal ==> !closed,
        event matches ForwardEvent::Channel(message) ==> (ends(message@) <==> forward_step(
            closed,
            event,
        ) is Stop || forward_step(closed, event) is ShutDownLocal),
        forward_step(closed, event) is Fail <==> event is LocalFailed,
        closed ==> closed_after(closed, event),
        forward_step(closed, event) is SendEof ==> closed_after(closed, event),
        !closed && closed_after(closed, event) ==> forward_step(closed, event) is SendEof,
{
}

/// A command has a terminal exactly if it is interactive: of the size that was told, or of the
/// usual one, which has cells.
pub proof fn law_interactive_commands_have_a_terminal(
    interactive: bool,
    told: Option<RusshWindowSize>,
)
    ensures
        terminal_for(interactive, told) is Some <==> interactive,
        interactive && told is Some ==> terminal_for(interactive, told) == told,
        interactive && told is None ==> terminal_for(interactive, told)->0.columns == 80
            && terminal_for(interactive, told)->0.rows == 24,
{
}

/// What the helper process sends reaches the command: input as it is, a new size as a new size,
/// and the end as the end. It may send nothing else.
pub proof fn law_input_reaches_the_command(frame: FrameView)
    ensures
        frame matches FrameView::Stdin(data) ==> (data.len() > 0 ==> step_for_frame(frame)
            == HelperStepView::SendData(data)),
        frame matches FrameView::Resize(size) ==> step_for_frame(frame)
            == HelperStepView::ChangeWindow(size),
        step_for_frame(frame) is SendEof <==> frame is Eof,
        step_for_frame(frame) is UnexpectedFrame <==> !(frame is Stdin) && !(frame is Resize) && !(
        frame is Eof),
{
}

/// What the command sends reaches the helper process, each stream as itself and nothing changed;
/// the helper is stopped exactly when the channel ends.
pub proof fn law_streams_are_not_mixed(message: EventView, data: Seq<u8>)
    ensures
        step_for_message(message) == HelperStepView::WriteFrame(FrameView::Stdout(data)) <==> message
            == EventView::Data(data),
        step_for_message(message) == HelperStepView::WriteFrame(FrameView::Stderr(data)) <==> message
            == (EventView::ExtendedData { data, ext: 1 }),
        step_for_message(message) is Stop <==> ends(message),
        message matches EventView::ExitStatus(status) ==> (status <= i32::MAX ==> step_for_message(
            message,
        ) == HelperStepView::WriteFrame(FrameView::ExitStatus(status as i32))),
        message matches EventView::ExitStatus(status) ==> step_for_message(message) is WriteFrame,
{
}

/// The exit code that a process told is the one that is given back, with its sign; without one the
/// process counts as successful, and nothing is known of a command before anything is heard.
pub proof fn law_exit_codes_keep_their_sign(code: i32, status: u32)
    ensures
        code_told(Some(numbers::unsigned_of(code))) == code,
        code_told(None) == 0,
        status <= i32::MAX ==> code_told(Some(status)) == status,
        nothing_heard().output.len() == 0,
        nothing_heard().stderr.len() == 0,
        nothing_heard().exit_status is None,
{
    numbers::law_signs_read_back(code, status);
}

} // verus!
