//! The messages of an SSH channel.

use zed_ios::russh_helper::{RusshHelperFrame, RusshHelperRequest, RusshWindowSize};
use zed_ios::ssh_channel::{
    command_outcome, default_helper_window_size, frame_message, helper_step, requested_terminal,
    ChannelEvent, CommandRun, ForwardBridge, ForwardEvent, ForwardStep, HelperEvent, HelperStep,
    RpcBridge, RpcStep,
};

#[test]
fn commands_tell_their_output() {
    let mut run = CommandRun::new();
    assert!(!run.hear(ChannelEvent::Data(b"out".to_vec())));
    assert!(!run.hear(ChannelEvent::ExtendedData { data: b"err\n".to_vec(), ext: 1 }));
    assert!(!run.hear(ChannelEvent::ExtendedData { data: b"other".to_vec(), ext: 2 }));
    assert_eq!(run.outcome(), Ok("out".to_string()));
    run.hear(ChannelEvent::ExitStatus(3));
    assert!(run.hear(ChannelEvent::Close));
    assert_eq!(
        run.outcome(),
        Err("Command failed with exit code 3: stderr=err, stdout=out".to_string())
    );
    assert_eq!(command_outcome(None, "x".into(), ""), Ok("x".to_string()));
}

#[test]
fn output_that_is_no_text_is_mended() {
    let mut run = CommandRun::new();
    run.hear(ChannelEvent::Data(vec![b'a', 0xff, b'b']));
    assert_eq!(run.outcome(), Ok("a\u{fffd}b".to_string()));
}

#[test]
fn messages_arrive_whole_however_they_are_cut() {
    let mut sent = frame_message(b"hello");
    sent.extend(frame_message(b""));
    sent.extend(frame_message(b"you"));
    assert_eq!(&sent[..5], &[5, 0, 0, 0, b'h']);
    let mut bridge = RpcBridge::new();
    let mut received = Vec::new();
    for byte in sent {
        match bridge.received(ChannelEvent::Data(vec![byte])) {
            RpcStep::Deliver(messages) => received.extend(messages),
            other => panic!("unexpected step: {other:?}"),
        }
    }
    assert_eq!(received, vec![b"hello".to_vec(), b"".to_vec(), b"you".to_vec()]);
    assert_eq!(bridge.received(ChannelEvent::Other), RpcStep::Wait);
    assert_eq!(bridge.final_exit_code(), 0);
    bridge.received(ChannelEvent::ExitStatus(9));
    assert_eq!(bridge.final_exit_code(), 9);
    assert_eq!(bridge.received(ChannelEvent::Eof), RpcStep::Stop);
}

#[test]
fn forwarded_data_goes_both_ways() {
    let mut bridge = ForwardBridge::new();
    assert_eq!(
        bridge.step(ForwardEvent::LocalRead(vec![1])),
        ForwardStep::SendData(vec![1])
    );
    assert_eq!(
        bridge.step(ForwardEvent::Channel(ChannelEvent::Data(vec![2]))),
        ForwardStep::WriteLocal(vec![2])
    );
    assert_eq!(bridge.step(ForwardEvent::LocalRead(vec![])), ForwardStep::SendEof);
    assert!(bridge.stream_closed);
}

#[test]
fn helper_is_served() {
    assert_eq!(
        helper_step(HelperEvent::Frame(RusshHelperFrame::Stdin(vec![1]))),
        HelperStep::SendData(vec![1])
    );
    assert_eq!(
        helper_step(HelperEvent::Frame(RusshHelperFrame::Stdin(vec![]))),
        HelperStep::Wait
    );
    let size = RusshWindowSize { columns: 1, rows: 2, pixel_width: 3, pixel_height: 4 };
    assert_eq!(
        helper_step(HelperEvent::Frame(RusshHelperFrame::Resize(size))),
        HelperStep::ChangeWindow(size)
    );
    assert_eq!(
        helper_step(HelperEvent::Frame(RusshHelperFrame::ExitStatus(1))),
        HelperStep::UnexpectedFrame(RusshHelperFrame::ExitStatus(1))
    );
    assert_eq!(
        helper_step(HelperEvent::Channel(ChannelEvent::ExitStatus(u32::MAX))),
        HelperStep::WriteFrame(RusshHelperFrame::ExitStatus(i32::MAX))
    );
    assert_eq!(helper_step(HelperEvent::HelperEnded), HelperStep::Stop);
    assert_eq!(helper_step(HelperEvent::HelperFailed), HelperStep::ReadFailed);
}

#[test]
fn terminals_are_asked_for_by_interactive_requests() {
    let request = RusshHelperRequest {
        command: "c".into(),
        interactive: true,
        initial_window_size: None,
    };
    assert_eq!(requested_terminal(&request), Some(default_helper_window_size()));
    let quiet = RusshHelperRequest { interactive: false, ..request };
    assert_eq!(requested_terminal(&quiet), None);
}
