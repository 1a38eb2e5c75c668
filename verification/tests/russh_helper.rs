//! The messages between the app and its helper process.

use zed_ios::russh_helper::{
    build_russh_helper_command_template, Interactive, RusshHelperError, RusshHelperFrame,
    RusshHelperRequest, RusshWindowSize,
};

#[test]
fn request_round_trip_serialization() {
    let request = RusshHelperRequest {
        command: "cd \"$HOME\" && exec env TERM=xterm bash -l".into(),
        interactive: true,
        initial_window_size: Some(RusshWindowSize {
            columns: 120,
            rows: 40,
            pixel_width: 1440,
            pixel_height: 900,
        }),
    };

    let mut buffer = Vec::new();
    request.write_to(&mut buffer).unwrap();
    let decoded = RusshHelperRequest::read_from(&mut buffer.as_slice()).unwrap();

    assert_eq!(decoded, request);
}

#[test]
fn interactive_and_non_interactive_requests_encode_differently() {
    let command = "exec env printf hello".to_string();
    let interactive_request = RusshHelperRequest {
        command: command.clone(),
        interactive: true,
        initial_window_size: Some(RusshWindowSize {
            columns: 80,
            rows: 24,
            pixel_width: 0,
            pixel_height: 0,
        }),
    };
    let non_interactive_request = RusshHelperRequest {
        command,
        interactive: false,
        initial_window_size: None,
    };

    let interactive_bytes = interactive_request.encode().unwrap();
    let non_interactive_bytes = non_interactive_request.encode().unwrap();

    assert_ne!(interactive_bytes, non_interactive_bytes);
    assert!(RusshHelperRequest::decode(&interactive_bytes)
        .unwrap()
        .interactive);
    assert!(!RusshHelperRequest::decode(&non_interactive_bytes)
        .unwrap()
        .interactive);
}

#[test]
fn resize_frame_round_trip() {
    let frame = RusshHelperFrame::Resize(RusshWindowSize {
        columns: 132,
        rows: 43,
        pixel_width: 1584,
        pixel_height: 972,
    });

    let mut buffer = Vec::new();
    frame.write_to(&mut buffer).unwrap();
    let decoded = RusshHelperFrame::read_from(&mut buffer.as_slice()).unwrap();

    assert_eq!(decoded, frame);
}

#[test]
fn frame_round_trip_for_stdio_and_exit_status() {
    let frames = vec![
        RusshHelperFrame::Stdin(vec![1, 2, 3]),
        RusshHelperFrame::Stdout(vec![4, 5, 6]),
        RusshHelperFrame::Stderr(vec![7, 8, 9]),
        RusshHelperFrame::Eof,
        RusshHelperFrame::ExitStatus(17),
        RusshHelperFrame::Error("boom".into()),
    ];

    for frame in frames {
        let encoded = frame.encode().unwrap();
        let decoded = RusshHelperFrame::decode(&encoded).unwrap();
        assert_eq!(decoded, frame);
    }
}

#[test]
fn helper_command_template_uses_expected_argv_format() {
    let command = build_russh_helper_command_template(
        "/Applications/Zed.app/Zed",
        "/tmp/zed-russh/helper.sock",
        "cd \"$HOME/project\" && exec env FOO=bar bash -l".into(),
        Interactive::Yes,
    );

    assert_eq!(command.program, "/Applications/Zed.app/Zed");
    assert_eq!(
        command.args,
        vec![
            "--zed-ios-russh-helper",
            "exec",
            "--socket",
            "/tmp/zed-russh/helper.sock",
            "--interactive",
            "yes",
            "--command",
            "cd \"$HOME/project\" && exec env FOO=bar bash -l",
        ]
    );
    assert!(command.env.is_empty());
}

#[test]
fn helper_command_template_marks_non_interactive_commands() {
    let command = build_russh_helper_command_template(
        "/Applications/Zed.app/Zed",
        "/tmp/zed-russh/helper.sock",
        "exec env printf hello".into(),
        Interactive::No,
    );

    assert_eq!(command.args[5], "no");
}

#[test]
fn request_has_its_exact_bytes() {
    let request = RusshHelperRequest {
        command: "ls é".into(),
        interactive: true,
        initial_window_size: Some(RusshWindowSize {
            columns: 258,
            rows: 3,
            pixel_width: 4,
            pixel_height: 5,
        }),
    };
    assert_eq!(
        request.encode().unwrap(),
        vec![5, 0, 0, 0, b'l', b's', b' ', 0xc3, 0xa9, 1, 1, 2, 1, 3, 0, 4, 0, 5, 0]
    );
}

#[test]
fn exit_status_is_written_in_twos_complement() {
    let encoded = RusshHelperFrame::ExitStatus(-2).encode().unwrap();
    assert_eq!(encoded, vec![5, 0xfe, 0xff, 0xff, 0xff]);
    assert_eq!(
        RusshHelperFrame::decode(&encoded),
        Ok(RusshHelperFrame::ExitStatus(-2))
    );
}

#[test]
fn broken_payloads_are_refused() {
    assert_eq!(
        RusshHelperFrame::decode(&[]),
        Err(RusshHelperError::UnexpectedEnd)
    );
    assert_eq!(
        RusshHelperFrame::decode(&[9]),
        Err(RusshHelperError::UnknownFrameTag(9))
    );
    assert_eq!(
        RusshHelperFrame::decode(&[4, 7, 7]),
        Err(RusshHelperError::TrailingBytes(2))
    );
    assert_eq!(
        RusshHelperFrame::decode(&[6, 1, 0, 0, 0, 0xff]),
        Err(RusshHelperError::InvalidUtf8)
    );
    assert_eq!(
        RusshHelperRequest::decode(&[0, 0, 0, 0, 7, 0]),
        Err(RusshHelperError::InvalidBool(7))
    );
}

#[test]
fn short_streams_end_early() {
    let mut none: &[u8] = &[];
    assert_eq!(
        RusshHelperFrame::read_from(&mut none),
        Err(RusshHelperError::StreamEnded)
    );
    let mut cut: &[u8] = &[9, 0, 0, 0, 4];
    assert_eq!(
        RusshHelperFrame::read_from(&mut cut),
        Err(RusshHelperError::StreamEnded)
    );
}

#[test]
fn frames_are_read_one_after_another() {
    let mut stream = Vec::new();
    RusshHelperFrame::Stdin(vec![1]).write_to(&mut stream).unwrap();
    RusshHelperFrame::Eof.write_to(&mut stream).unwrap();
    assert_eq!(stream, vec![6, 0, 0, 0, 0, 1, 0, 0, 0, 1, 1, 0, 0, 0, 4]);

    let mut reader = stream.as_slice();
    assert_eq!(
        RusshHelperFrame::read_from(&mut reader),
        Ok(RusshHelperFrame::Stdin(vec![1]))
    );
    assert_eq!(
        RusshHelperFrame::read_from(&mut reader),
        Ok(RusshHelperFrame::Eof)
    );
    assert!(reader.is_empty());
}

#[test]
fn helper_errors_have_messages() {
    assert!(!RusshHelperError::StreamEnded.message().is_empty());
    assert_ne!(
        RusshHelperError::UnknownFrameTag(7).message(),
        RusshHelperError::UnknownFrameTag(8).message()
    );
}
