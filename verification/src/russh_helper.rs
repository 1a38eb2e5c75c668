//! The messages between the app and its SSH helper process: what a request and a
//! frame look like as bytes, and how they are read back.

use crate::numbers;
use crate::text;
use vstd::prelude::*;
use vstd::utf8::*;

verus! {

/// The size of a terminal, in cells and in pixels.
#[derive(Clone, Copy, Debug, PartialEq, Eq, Structural)]
pub struct RusshWindowSize {
    pub columns: u16,
    pub rows: u16,
    pub pixel_width: u16,
    pub pixel_height: u16,
}

/// What the helper process asks the app to run.
#[derive(Clone, Debug, PartialEq, Eq)]
pub struct RusshHelperRequest {
    pub command: String,
    pub interactive: bool,
    pub initial_window_size: Option<RusshWindowSize>,
}

/// One message of a running command, in either direction.
#[derive(Clone, Debug, PartialEq, Eq)]
pub enum RusshHelperFrame {
    Stdin(Vec<u8>),
    Stdout(Vec<u8>),
    Stderr(Vec<u8>),
    Resize(RusshWindowSize),
    Eof,
    ExitStatus(i32),
    Error(String),
}

/// Why a message could not be written or read.
#[derive(Clone, Copy, Debug, PartialEq, Eq, Structural)]
pub enum RusshHelperError {
    /// A field has more bytes than a 32-bit length can tell.
    FieldTooLong,
    /// A payload has more bytes than a 32-bit length can tell.
    PayloadTooLong,
    /// The stream ended before a whole message was there.
    StreamEnded,
    /// The payload ended in the middle of a field.
    UnexpectedEnd,
    /// A flag byte that is neither 0 nor 1.
    InvalidBool(u8),
    /// A frame of no known sort.
    UnknownFrameTag(u8),
    /// A text field that is not UTF-8.
    InvalidUtf8,
    /// Bytes after the last field.
    TrailingBytes(usize),
}

pub const TAG_STDIN: u8 = 0;

pub const TAG_STDOUT: u8 = 1;

pub const TAG_STDERR: u8 = 2;

pub const TAG_RESIZE: u8 = 3;

pub const TAG_EOF: u8 = 4;

pub const TAG_EXIT_STATUS: u8 = 5;

pub const TAG_ERROR: u8 = 6;

/// The contents of a request.
pub struct RequestView {
    pub command: Seq<char>,
    pub interactive: bool,
    pub initial_window_size: Option<RusshWindowSize>,
}

/// The contents of a frame.
pub enum FrameView {
    Stdin(Seq<u8>),
    Stdout(Seq<u8>),
    Stderr(Seq<u8>),
    Resize(RusshWindowSize),
    Eof,
    ExitStatus(i32),
    Error(Seq<char>),
}

impl View for RusshHelperRequest {
    type V = RequestView;

    open spec fn view(&self) -> RequestView {
        RequestView {
            command: self.command@,
            interactive: self.interactive,
            initial_window_size: self.initial_window_size,
        }
    }
}

impl View for RusshHelperFrame {
    type V = FrameView;

    open spec fn view(&self) -> FrameView {
        match self {
            RusshHelperFrame::Stdin(data) => FrameView::Stdin(data@),
            RusshHelperFrame::Stdout(data) => FrameView::Stdout(data@),
            RusshHelperFrame::Stderr(data) => FrameView::Stderr(data@),
            RusshHelperFrame::Resize(size) => FrameView::Resize(*size),
            RusshHelperFrame::Eof => FrameView::Eof,
            RusshHelperFrame::ExitStatus(status) => FrameView::ExitStatus(*status),
            RusshHelperFrame::Error(message) => FrameView::Error(message@),
        }
    }
}

/// A 16-bit number as two bytes, the lower one first.
pub open spec fn u16_bytes(n: u16) -> Seq<u8> {
    seq![(n % 256) as u8, (n / 256) as u8]
}

/// A 32-bit number as four bytes, the lowest one first.
pub open spec fn u32_bytes(n: u32) -> Seq<u8> {
    seq![
        (n % 256) as u8,
        (n / 256 % 256) as u8,
        (n / 65536 % 256) as u8,
        (n / 16777216) as u8,
    ]
}

/// The number that two bytes stand for, the lower one first.
pub open spec fn u16_value(bytes: Seq<u8>) -> u16 {
    (bytes[0] + 256 * bytes[1]) as u16
}

/// The number that four bytes stand for, the lowest one first.
pub open spec fn u32_value(bytes: Seq<u8>) -> u32 {
    (bytes[0] + 256 * bytes[1] + 65536 * bytes[2] + 16777216 * bytes[3]) as u32
}

/// A flag as one byte.
pub open spec fn bool_bytes(flag: bool) -> Seq<u8> {
    if flag {
        seq![1u8]
    } else {
        seq![0u8]
    }
}

/// A field of any length: its length in four bytes, then its bytes.
pub open spec fn field_bytes(value: Seq<u8>) -> Seq<u8> {
    u32_bytes(value.len() as u32) + value
}

/// A window size: four 16-bit numbers.
pub open spec fn size_bytes(size: RusshWindowSize) -> Seq<u8> {
    u16_bytes(size.columns) + u16_bytes(size.rows) + u16_bytes(size.pixel_width) + u16_bytes(
        size.pixel_height,
    )
}

/// A window size that may be missing: a flag, then the size if it is there.
pub open spec fn optional_size_bytes(size: Option<RusshWindowSize>) -> Seq<u8> {
    match size {
        Some(size) => bool_bytes(true) + size_bytes(size),
        None => bool_bytes(false),
    }
}

/// A request as bytes.
pub open spec fn request_bytes(request: RequestView) -> Seq<u8> {
    field_bytes(encode_utf8(request.command)) + bool_bytes(request.interactive)
        + optional_size_bytes(request.initial_window_size)
}

/// The first byte of a frame: its sort.
pub open spec fn frame_tag(frame: FrameView) -> u8 {
    match frame {
        FrameView::Stdin(_) => TAG_STDIN,
        FrameView::Stdout(_) => TAG_STDOUT,
        FrameView::Stderr(_) => TAG_STDERR,
        FrameView::Resize(_) => TAG_RESIZE,
        FrameView::Eof => TAG_EOF,
        FrameView::ExitStatus(_) => TAG_EXIT_STATUS,
        FrameView::Error(_) => TAG_ERROR,
    }
}

/// What follows the first byte of a frame.
pub open spec fn frame_body(frame: FrameView) -> Seq<u8> {
    match frame {
        FrameView::Stdin(data) => field_bytes(data),
        FrameView::Stdout(data) => field_bytes(data),
        FrameView::Stderr(data) => field_bytes(data),
        FrameView::Resize(size) => size_bytes(size),
        FrameView::Eof => Seq::empty(),
        FrameView::ExitStatus(status) => u32_bytes(numbers::unsigned_of(status)),
        FrameView::Error(message) => field_bytes(encode_utf8(message)),
    }
}

/// A frame as bytes.
pub open spec fn frame_bytes(frame: FrameView) -> Seq<u8> {
    seq![frame_tag(frame)] + frame_body(frame)
}

/// How many bytes the field of any length in a frame has.
pub open spec fn frame_field_len(frame: FrameView) -> nat {
    match frame {
        FrameView::Stdin(data) => data.len(),
        FrameView::Stdout(data) => data.len(),
        FrameView::Stderr(data) => data.len(),
        FrameView::Error(message) => encode_utf8(message).len(),
        _ => 0,
    }
}

/// Whether the fields of a request fit their lengths.
pub open spec fn request_fits(request: RequestView) -> bool {
    encode_utf8(request.command).len() <= u32::MAX
}

/// Whether the fields of a frame fit their lengths.
pub open spec fn frame_fits(frame: FrameView) -> bool {
    frame_field_len(frame) <= u32::MAX
}

/// A payload on the wire: its length in four bytes, then the payload.
pub open spec fn wire_bytes(payload: Seq<u8>) -> Seq<u8> {
    u32_bytes(payload.len() as u32) + payload
}


/// Reading one byte: the byte, and what is left.
pub open spec fn parse_u8(bytes: Seq<u8>) -> Result<(u8, Seq<u8>), RusshHelperError> {
    if bytes.len() < 1 {
        Err(RusshHelperError::UnexpectedEnd)
    } else {
        Ok((bytes[0], bytes.skip(1)))
    }
}

/// Reading a flag.
pub open spec fn parse_bool(bytes: Seq<u8>) -> Result<(bool, Seq<u8>), RusshHelperError> {
    if bytes.len() < 1 {
        Err(RusshHelperError::UnexpectedEnd)
    } else if bytes[0] > 1 {
        Err(RusshHelperError::InvalidBool(bytes[0]))
    } else {
        Ok((bytes[0] == 1, bytes.skip(1)))
    }
}

/// Reading a 32-bit number.
pub open spec fn parse_u32(bytes: Seq<u8>) -> Result<(u32, Seq<u8>), RusshHelperError> {
    if bytes.len() < 4 {
        Err(RusshHelperError::UnexpectedEnd)
    } else {
        Ok((u32_value(bytes), bytes.skip(4)))
    }
}

/// Reading a field of any length.
pub open spec fn parse_field(bytes: Seq<u8>) -> Result<(Seq<u8>, Seq<u8>), RusshHelperError> {
    if bytes.len() < 4 || bytes.len() < 4 + u32_value(bytes) {
        Err(RusshHelperError::UnexpectedEnd)
    } else {
        Ok((bytes.subrange(4, 4 + u32_value(bytes)), bytes.skip(4 + u32_value(bytes))))
    }
}

/// Reading a text field.
pub open spec fn parse_text(bytes: Seq<u8>) -> Result<(Seq<char>, Seq<u8>), RusshHelperError> {
    match parse_field(bytes) {
        Err(error) => Err(error),
        Ok((value, rest)) => if valid_utf8(value) {
            Ok((decode_utf8(value), rest))
        } else {
            Err(RusshHelperError::InvalidUtf8)
        },
    }
}

/// Reading a window size.
pub open spec fn parse_size(bytes: Seq<u8>) -> Result<
    (RusshWindowSize, Seq<u8>),
    RusshHelperError,
> {
    if bytes.len() < 8 {
        Err(RusshHelperError::UnexpectedEnd)
    } else {
        Ok(
            (
                RusshWindowSize {
                    columns: u16_value(bytes),
                    rows: u16_value(bytes.skip(2)),
                    pixel_width: u16_value(bytes.skip(4)),
                    pixel_height: u16_value(bytes.skip(6)),
                },
                bytes.skip(8),
            ),
        )
    }
}

/// Reading a window size that may be missing.
pub open spec fn parse_optional_size(bytes: Seq<u8>) -> Result<
    (Option<RusshWindowSize>, Seq<u8>),
    RusshHelperError,
> {
    match parse_bool(bytes) {
        Err(error) => Err(error),
        Ok((false, rest)) => Ok((None, rest)),
        Ok((true, rest)) => match parse_size(rest) {
            Err(error) => Err(error),
            Ok((size, rest)) => Ok((Some(size), rest)),
        },
    }
}

/// A value that was read, if nothing is left after it.
pub open spec fn finished<T>(value: T, rest: Seq<u8>) -> Result<T, RusshHelperError> {
    if rest.len() == 0 {
        Ok(value)
    } else {
        Err(RusshHelperError::TrailingBytes(rest.len() as usize))
    }
}

/// What a payload says as a request.
pub open spec fn parse_request(payload: Seq<u8>) -> Result<RequestView, RusshHelperError> {
    match parse_text(payload) {
        Err(error) => Err(error),
        Ok((command, rest)) => match parse_bool(rest) {
            Err(error) => Err(error),
            Ok((interactive, rest)) => match parse_optional_size(rest) {
                Err(error) => Err(error),
                Ok((initial_window_size, rest)) => finished(
                    RequestView { command, interactive, initial_window_size },
                    rest,
                ),
            },
        },
    }
}

/// What follows the first byte of a frame of a given sort.
pub open spec fn parse_frame_body(tag: u8, body: Seq<u8>) -> Result<
    (FrameView, Seq<u8>),
    RusshHelperError,
> {
    if tag == TAG_STDIN || tag == TAG_STDOUT || tag == TAG_STDERR {
        match parse_field(body) {
            Err(error) => Err(error),
            Ok((data, rest)) => Ok(
                (
                    if tag == TAG_STDIN {
                        FrameView::Stdin(data)
                    } else if tag == TAG_STDOUT {
                        FrameView::Stdout(data)
                    } else {
                        FrameView::Stderr(data)
                    },
                    rest,
                ),
            ),
        }
    } else if tag == TAG_RESIZE {
        match parse_size(body) {
            Err(error) => Err(error),
            Ok((size, rest)) => Ok((FrameView::Resize(size), rest)),
        }
    } else if tag == TAG_EOF {
        Ok((FrameView::Eof, body))
    } else if tag == TAG_EXIT_STATUS {
        match parse_u32(body) {
            Err(error) => Err(error),
            Ok((status, rest)) => Ok((FrameView::ExitStatus(numbers::signed_of(status)), rest)),
        }
    } else if tag == TAG_ERROR {
        match parse_text(body) {
            Err(error) => Err(error),
            Ok((message, rest)) => Ok((FrameView::Error(message), rest)),
        }
    } else {
        Err(RusshHelperError::UnknownFrameTag(tag))
    }
}

/// What a payload says as a frame.
pub open spec fn parse_frame(payload: Seq<u8>) -> Result<FrameView, RusshHelperError> {
    match parse_u8(payload) {
        Err(error) => Err(error),
        Ok((tag, body)) => match parse_frame_body(tag, body) {
            Err(error) => Err(error),
            Ok((frame, rest)) => finished(frame, rest),
        },
    }
}

/// The payload that a stream begins with, and what is left of the stream.
pub open spec fn parse_wire(stream: Seq<u8>) -> Result<(Seq<u8>, Seq<u8>), RusshHelperError> {
    if stream.len() < 4 || stream.len() < 4 + u32_value(stream) {
        Err(RusshHelperError::StreamEnded)
    } else {
        Ok((stream.subrange(4, 4 + u32_value(stream)), stream.skip(4 + u32_value(stream))))
    }
}

// Numbers as bytes.

proof fn lemma_u16_round_trip(n: u16)
    ensures
        u16_value(u16_bytes(n)) == n,
{
}

proof fn lemma_u32_round_trip(n: u32)
    ensures
        u32_value(u32_bytes(n)) == n,
{
}

proof fn lemma_u16_canonical(bytes: Seq<u8>)
    requires
        bytes.len() >= 2,
    ensures
        u16_bytes(u16_value(bytes)) == bytes.take(2),
{
    assert(u16_bytes(u16_value(bytes)) =~= bytes.take(2));
}

proof fn lemma_u32_canonical(bytes: Seq<u8>)
    requires
        bytes.len() >= 4,
    ensures
        u32_bytes(u32_value(bytes)) == bytes.take(4),
{
    let n = u32_value(bytes) as int;
    let high = bytes[2] + 256 * bytes[3];
    let middle = bytes[1] + 256 * high;
    assert(n == bytes[0] + 256 * middle);
    assert(n % 256 == bytes[0] && n / 256 == middle);
    assert(middle % 256 == bytes[1] && middle / 256 == high);
    assert(n / 65536 == high);
    assert(high % 256 == bytes[2] && high / 256 == bytes[3]);
    assert(n / 16777216 == bytes[3]);
    assert(u32_bytes(u32_value(bytes)) =~= bytes.take(4));
}

// Reading back what was written, with anything after it.

proof fn lemma_bool_reads_back(flag: bool, tail: Seq<u8>)
    ensures
        parse_bool(bool_bytes(flag) + tail) == Ok::<(bool, Seq<u8>), RusshHelperError>((flag, tail)),
{
    assert((bool_bytes(flag) + tail).skip(1) =~= tail);
}

proof fn lemma_field_reads_back(value: Seq<u8>, tail: Seq<u8>)
    requires
        value.len() <= u32::MAX,
    ensures
        parse_field(field_bytes(value) + tail) == Ok::<(Seq<u8>, Seq<u8>), RusshHelperError>(
            (value, tail),
        ),
{
    let bytes = field_bytes(value) + tail;
    lemma_u32_round_trip(value.len() as u32);
    assert(bytes.take(4) =~= u32_bytes(value.len() as u32));
    assert(u32_value(bytes) == u32_value(u32_bytes(value.len() as u32)));
    assert(bytes.subrange(4, 4 + value.len() as int) =~= value);
    assert(bytes.skip(4 + value.len() as int) =~= tail);
}

proof fn lemma_text_reads_back(value: Seq<char>, tail: Seq<u8>)
    requires
        encode_utf8(value).len() <= u32::MAX,
    ensures
        parse_text(field_bytes(encode_utf8(value)) + tail) == Ok::<
            (Seq<char>, Seq<u8>),
            RusshHelperError,
        >((value, tail)),
{
    lemma_field_reads_back(encode_utf8(value), tail);
    encode_utf8_valid_utf8(value);
    encode_utf8_decode_utf8(value);
}

proof fn lemma_size_reads_back(size: RusshWindowSize, tail: Seq<u8>)
    ensures
        parse_size(size_bytes(size) + tail) == Ok::<(RusshWindowSize, Seq<u8>), RusshHelperError>(
            (size, tail),
        ),
{
    let bytes = size_bytes(size) + tail;
    lemma_u16_round_trip(size.columns);
    lemma_u16_round_trip(size.rows);
    lemma_u16_round_trip(size.pixel_width);
    lemma_u16_round_trip(size.pixel_height);
    assert(u16_value(bytes) == u16_value(u16_bytes(size.columns)));
    assert(u16_value(bytes.skip(2)) == u16_value(u16_bytes(size.rows)));
    assert(u16_value(bytes.skip(4)) == u16_value(u16_bytes(size.pixel_width)));
    assert(u16_value(bytes.skip(6)) == u16_value(u16_bytes(size.pixel_height)));
    assert(bytes.skip(8) =~= tail);
}

proof fn lemma_optional_size_reads_back(size: Option<RusshWindowSize>, tail: Seq<u8>)
    ensures
        parse_optional_size(optional_size_bytes(size) + tail) == Ok::<
            (Option<RusshWindowSize>, Seq<u8>),
            RusshHelperError,
        >((size, tail)),
{
    match size {
        Some(inner) => {
            lemma_bool_reads_back(true, size_bytes(inner) + tail);
            lemma_size_reads_back(inner, tail);
            assert(optional_size_bytes(size) + tail =~= bool_bytes(true) + (size_bytes(inner)
                + tail));
        },
        None => {
            lemma_bool_reads_back(false, tail);
        },
    }
}

/// A request that was written is read back as it was.
pub proof fn law_request_reads_back(request: RequestView)
    requires
        request_fits(request),
    ensures
        parse_request(request_bytes(request)) == Ok::<RequestView, RusshHelperError>(request),
{
    let size = optional_size_bytes(request.initial_window_size);
    let flags = bool_bytes(request.interactive) + size;
    lemma_text_reads_back(request.command, flags);
    lemma_bool_reads_back(request.interactive, size);
    lemma_optional_size_reads_back(request.initial_window_size, Seq::empty());
    assert(size + Seq::<u8>::empty() =~= size);
    assert(request_bytes(request) =~= field_bytes(encode_utf8(request.command)) + flags);
}

/// A frame that was written is read back as it was.
pub proof fn law_frame_reads_back(frame: FrameView)
    requires
        frame_fits(frame),
    ensures
        parse_frame(frame_bytes(frame)) == Ok::<FrameView, RusshHelperError>(frame),
{
    let body = frame_body(frame);
    assert(frame_bytes(frame).skip(1) =~= body);
    assert(body + Seq::<u8>::empty() =~= body);
    match frame {
        FrameView::Stdin(data) => lemma_field_reads_back(data, Seq::empty()),
        FrameView::Stdout(data) => lemma_field_reads_back(data, Seq::empty()),
        FrameView::Stderr(data) => lemma_field_reads_back(data, Seq::empty()),
        FrameView::Resize(size) => lemma_size_reads_back(size, Seq::empty()),
        FrameView::Eof => {},
        FrameView::ExitStatus(status) => {
            lemma_u32_round_trip(numbers::unsigned_of(status));
            assert(body.skip(4) =~= Seq::<u8>::empty());
        },
        FrameView::Error(message) => lemma_text_reads_back(message, Seq::empty()),
    }
}

/// A payload that was put on a stream is the first one taken off it, and what came
/// after it is left.
pub proof fn law_wire_reads_back(payload: Seq<u8>, tail: Seq<u8>)
    requires
        payload.len() <= u32::MAX,
    ensures
        parse_wire(wire_bytes(payload) + tail) == Ok::<(Seq<u8>, Seq<u8>), RusshHelperError>(
            (payload, tail),
        ),
{
    lemma_field_reads_back(payload, tail);
}


// What can be read is exactly what would have been written.

proof fn lemma_field_canonical(bytes: Seq<u8>, value: Seq<u8>, rest: Seq<u8>)
    requires
        parse_field(bytes) == Ok::<(Seq<u8>, Seq<u8>), RusshHelperError>((value, rest)),
    ensures
        bytes == field_bytes(value) + rest,
        value.len() <= u32::MAX,
{
    lemma_u32_canonical(bytes);
    assert(bytes =~= field_bytes(value) + rest);
}

proof fn lemma_text_canonical(bytes: Seq<u8>, value: Seq<char>, rest: Seq<u8>)
    requires
        parse_text(bytes) == Ok::<(Seq<char>, Seq<u8>), RusshHelperError>((value, rest)),
    ensures
        bytes == field_bytes(encode_utf8(value)) + rest,
        encode_utf8(value).len() <= u32::MAX,
{
    let (field, after) = parse_field(bytes)->Ok_0;
    lemma_field_canonical(bytes, field, after);
    decode_utf8_encode_utf8(field);
}

proof fn lemma_bool_canonical(bytes: Seq<u8>, flag: bool, rest: Seq<u8>)
    requires
        parse_bool(bytes) == Ok::<(bool, Seq<u8>), RusshHelperError>((flag, rest)),
    ensures
        bytes == bool_bytes(flag) + rest,
{
    assert(bytes =~= bool_bytes(flag) + rest);
}

proof fn lemma_size_canonical(bytes: Seq<u8>, size: RusshWindowSize, rest: Seq<u8>)
    requires
        parse_size(bytes) == Ok::<(RusshWindowSize, Seq<u8>), RusshHelperError>((size, rest)),
    ensures
        bytes == size_bytes(size) + rest,
{
    lemma_u16_canonical(bytes);
    lemma_u16_canonical(bytes.skip(2));
    lemma_u16_canonical(bytes.skip(4));
    lemma_u16_canonical(bytes.skip(6));
    assert(bytes =~= bytes.take(2) + bytes.skip(2).take(2) + bytes.skip(4).take(2) + bytes.skip(
        6,
    ).take(2) + rest);
    assert(bytes =~= size_bytes(size) + rest);
}

proof fn lemma_optional_size_canonical(
    bytes: Seq<u8>,
    size: Option<RusshWindowSize>,
    rest: Seq<u8>,
)
    requires
        parse_optional_size(bytes) == Ok::<
            (Option<RusshWindowSize>, Seq<u8>),
            RusshHelperError,
        >((size, rest)),
    ensures
        bytes == optional_size_bytes(size) + rest,
{
    let (flag, after) = parse_bool(bytes)->Ok_0;
    lemma_bool_canonical(bytes, flag, after);
    if flag {
        lemma_size_canonical(after, size->0, rest);
        assert(bytes =~= optional_size_bytes(size) + rest);
    }
}

/// Every payload that can be read as a request is the one that the request is
/// written as: a request has one form only.
pub proof fn law_request_form_is_unique(payload: Seq<u8>)
    requires
        parse_request(payload) is Ok,
    ensures
        request_bytes(parse_request(payload)->Ok_0) == payload,
        request_fits(parse_request(payload)->Ok_0),
{
    let request = parse_request(payload)->Ok_0;
    let (command, rest) = parse_text(payload)->Ok_0;
    lemma_text_canonical(payload, command, rest);
    let (interactive, after) = parse_bool(rest)->Ok_0;
    lemma_bool_canonical(rest, interactive, after);
    let (size, end) = parse_optional_size(after)->Ok_0;
    lemma_optional_size_canonical(after, size, end);
    assert(request_bytes(request) =~= payload);
}

/// Every payload that can be read as a frame is the one that the frame is written
/// as: a frame has one form only.
pub proof fn law_frame_form_is_unique(payload: Seq<u8>)
    requires
        parse_frame(payload) is Ok,
    ensures
        frame_bytes(parse_frame(payload)->Ok_0) == payload,
        frame_fits(parse_frame(payload)->Ok_0),
{
    let (tag, body) = parse_u8(payload)->Ok_0;
    let (frame, rest) = parse_frame_body(tag, body)->Ok_0;
    assert(payload =~= seq![tag] + body);
    match frame {
        FrameView::Stdin(data) => lemma_field_canonical(body, data, rest),
        FrameView::Stdout(data) => lemma_field_canonical(body, data, rest),
        FrameView::Stderr(data) => lemma_field_canonical(body, data, rest),
        FrameView::Resize(size) => lemma_size_canonical(body, size, rest),
        FrameView::Eof => {},
        FrameView::ExitStatus(status) => {
            lemma_u32_canonical(body);
            assert(body =~= body.take(4) + rest);
        },
        FrameView::Error(message) => lemma_text_canonical(body, message, rest),
    }
    assert(frame_bytes(frame) =~= payload);
}

/// Two requests that differ in anything are written differently.
pub proof fn law_requests_differ_on_the_wire(a: RequestView, b: RequestView)
    requires
        request_fits(a),
        request_fits(b),
        a != b,
    ensures
        request_bytes(a) != request_bytes(b),
{
    law_request_reads_back(a);
    law_request_reads_back(b);
}

// Writing.

fn write_u16(payload: &mut Vec<u8>, n: u16)
    ensures
        final(payload)@ == old(payload)@ + u16_bytes(n),
{
    payload.push((n % 256) as u8);
    payload.push((n / 256) as u8);
    assert(payload@ =~= old(payload)@ + u16_bytes(n));
}

pub(crate) fn write_u32(payload: &mut Vec<u8>, n: u32)
    ensures
        final(payload)@ == old(payload)@ + u32_bytes(n),
{
    payload.push((n % 256) as u8);
    payload.push((n / 256 % 256) as u8);
    payload.push((n / 65536 % 256) as u8);
    payload.push((n / 16777216) as u8);
    assert(payload@ =~= old(payload)@ + u32_bytes(n));
}

fn write_bytes(payload: &mut Vec<u8>, value: &[u8]) -> (result: Result<(), RusshHelperError>)
    ensures
        value@.len() <= u32::MAX ==> result is Ok && final(payload)@ == old(payload)@ + field_bytes(
            value@,
        ),
        value@.len() > u32::MAX ==> result == Err::<(), _>(RusshHelperError::FieldTooLong)
            && final(payload)@ == old(payload)@,
{
    if value.len() as u64 > u32::MAX as u64 {
        return Err(RusshHelperError::FieldTooLong);
    }
    write_u32(payload, value.len() as u32);
    payload.extend_from_slice(value);
    assert(payload@ =~= old(payload)@ + field_bytes(value@));
    Ok(())
}

fn write_string(payload: &mut Vec<u8>, value: &str) -> (result: Result<(), RusshHelperError>)
    ensures
        encode_utf8(value@).len() <= u32::MAX ==> result is Ok && final(payload)@ == old(payload)@
            + field_bytes(encode_utf8(value@)),
        encode_utf8(value@).len() > u32::MAX ==> result == Err::<(), _>(
            RusshHelperError::FieldTooLong,
        ) && final(payload)@ == old(payload)@,
{
    write_bytes(payload, value.as_bytes())
}

fn write_bool(payload: &mut Vec<u8>, flag: bool)
    ensures
        final(payload)@ == old(payload)@ + bool_bytes(flag),
{
    payload.push(
        if flag {
            1
        } else {
            0
        },
    );
    assert(payload@ =~= old(payload)@ + bool_bytes(flag));
}

fn write_window_size(payload: &mut Vec<u8>, size: RusshWindowSize)
    ensures
        final(payload)@ == old(payload)@ + size_bytes(size),
{
    write_u16(payload, size.columns);
    write_u16(payload, size.rows);
    write_u16(payload, size.pixel_width);
    write_u16(payload, size.pixel_height);
    assert(payload@ =~= old(payload)@ + size_bytes(size));
}

fn write_length_prefixed_payload(writer: &mut Vec<u8>, payload: &[u8]) -> (result: Result<
    (),
    RusshHelperError,
>)
    ensures
        payload@.len() <= u32::MAX ==> result is Ok && final(writer)@ == old(writer)@ + wire_bytes(
            payload@,
        ),
        payload@.len() > u32::MAX ==> result == Err::<(), _>(RusshHelperError::PayloadTooLong)
            && final(writer)@ == old(writer)@,
{
    if payload.len() as u64 > u32::MAX as u64 {
        return Err(RusshHelperError::PayloadTooLong);
    }
    write_u32(writer, payload.len() as u32);
    writer.extend_from_slice(payload);
    assert(writer@ =~= old(writer)@ + wire_bytes(payload@));
    Ok(())
}

fn read_length_prefixed_payload(reader: &mut &[u8]) -> (result: Result<Vec<u8>, RusshHelperError>)
    ensures
        match parse_wire((*old(reader))@) {
            Ok((payload, rest)) => result matches Ok(read) && read@ == payload && (*final(reader))@
                == rest,
            Err(error) => result == Err::<Vec<u8>, _>(error) && (*final(reader))@.len() == 0,
        },
{
    let stream: &[u8] = *reader;
    let length: usize = stream.len();
    if length < 4 {
        *reader = stream.split_at(length).1;
        return Err(RusshHelperError::StreamEnded);
    }
    let payload_length: u32 = stream[0] as u32 + 256 * stream[1] as u32 + 65536 * stream[2] as u32
        + 16777216 * stream[3] as u32;
    if length - 4 < payload_length as usize {
        *reader = stream.split_at(length).1;
        return Err(RusshHelperError::StreamEnded);
    }
    let (message, rest) = stream.split_at(4 + payload_length as usize);
    let (_, body) = message.split_at(4);
    *reader = rest;
    let mut payload: Vec<u8> = Vec::new();
    payload.extend_from_slice(body);
    proof {
        assert(payload@ =~= stream@.subrange(4, 4 + u32_value(stream@)));
        assert(rest@ =~= stream@.skip(4 + u32_value(stream@)));
    }
    Ok(payload)
}


// Reading.

struct Decoder<'a> {
    payload: &'a [u8],
    offset: usize,
}

impl<'a> Decoder<'a> {
    /// What is still to be read.
    spec fn rest(self) -> Seq<u8> {
        self.payload@.skip(self.offset as int)
    }

    spec fn wf(self) -> bool {
        self.offset <= self.payload@.len()
    }

    fn new(payload: &'a [u8]) -> (decoder: Self)
        ensures
            decoder.wf(),
            decoder.rest() == payload@,
    {
        assert(payload@.skip(0) =~= payload@);
        Decoder { payload, offset: 0 }
    }

    /// The next bytes, as many as asked for.
    fn read_fixed(&mut self, count: usize) -> (result: Result<&'a [u8], RusshHelperError>)
        requires
            old(self).wf(),
        ensures
            final(self).wf(),
            old(self).rest().len() < count ==> result == Err::<&[u8], _>(
                RusshHelperError::UnexpectedEnd,
            ),
            old(self).rest().len() >= count ==> result is Ok && result->Ok_0@ == old(
                self,
            ).rest().take(count as int) && final(self).rest() == old(self).rest().skip(
                count as int,
            ),
    {
        let payload: &'a [u8] = self.payload;
        let offset: usize = self.offset;
        if payload.len() - offset < count {
            return Err(RusshHelperError::UnexpectedEnd);
        }
        let (_, rest) = payload.split_at(offset);
        let (bytes, _) = rest.split_at(count);
        self.offset = offset + count;
        assert(bytes@ =~= old(self).rest().take(count as int));
        assert(self.rest() =~= old(self).rest().skip(count as int));
        Ok(bytes)
    }

    fn read_u8(&mut self) -> (result: Result<u8, RusshHelperError>)
        requires
            old(self).wf(),
        ensures
            final(self).wf(),
            match parse_u8(old(self).rest()) {
                Ok((value, rest)) => result == Ok::<u8, RusshHelperError>(value)
                    && final(self).rest() == rest,
                Err(error) => result == Err::<u8, _>(error),
            },
    {
        match self.read_fixed(1) {
            Ok(bytes) => Ok(bytes[0]),
            Err(error) => Err(error),
        }
    }

    fn read_bool(&mut self) -> (result: Result<bool, RusshHelperError>)
        requires
            old(self).wf(),
        ensures
            final(self).wf(),
            match parse_bool(old(self).rest()) {
                Ok((value, rest)) => result == Ok::<bool, RusshHelperError>(value)
                    && final(self).rest() == rest,
                Err(error) => result == Err::<bool, _>(error),
            },
    {
        match self.read_u8() {
            Ok(0) => Ok(false),
            Ok(1) => Ok(true),
            Ok(other) => Err(RusshHelperError::InvalidBool(other)),
            Err(error) => Err(error),
        }
    }

    fn read_u32(&mut self) -> (result: Result<u32, RusshHelperError>)
        requires
            old(self).wf(),
        ensures
            final(self).wf(),
            match parse_u32(old(self).rest()) {
                Ok((value, rest)) => result == Ok::<u32, RusshHelperError>(value)
                    && final(self).rest() == rest,
                Err(error) => result == Err::<u32, _>(error),
            },
    {
        match self.read_fixed(4) {
            Ok(bytes) => Ok(
                bytes[0] as u32 + 256 * bytes[1] as u32 + 65536 * bytes[2] as u32 + 16777216
                    * bytes[3] as u32,
            ),
            Err(error) => Err(error),
        }
    }

    fn read_i32(&mut self) -> (result: Result<i32, RusshHelperError>)
        requires
            old(self).wf(),
        ensures
            final(self).wf(),
            match parse_u32(old(self).rest()) {
                Ok((value, rest)) => result == Ok::<i32, RusshHelperError>(numbers::signed_of(value))
                    && final(self).rest() == rest,
                Err(error) => result == Err::<i32, _>(error),
            },
    {
        match self.read_u32() {
            Ok(value) => Ok(numbers::to_signed(value)),
            Err(error) => Err(error),
        }
    }

    fn read_bytes(&mut self) -> (result: Result<Vec<u8>, RusshHelperError>)
        requires
            old(self).wf(),
        ensures
            final(self).wf(),
            match parse_field(old(self).rest()) {
                Ok((value, rest)) => result matches Ok(bytes) && bytes@ == value
                    && final(self).rest() == rest,
                Err(error) => result == Err::<Vec<u8>, _>(error),
            },
    {
        let length: u32 = match self.read_u32() {
            Ok(length) => length,
            Err(error) => {
                return Err(error);
            },
        };
        let bytes = match self.read_fixed(length as usize) {
            Ok(bytes) => bytes,
            Err(error) => {
                return Err(error);
            },
        };
        let mut value: Vec<u8> = Vec::new();
        value.extend_from_slice(bytes);
        proof {
            let before = old(self).rest();
            assert(value@ =~= before.subrange(4, 4 + length as int));
            assert(before.skip(4).skip(length as int) =~= before.skip(4 + length as int));
        }
        Ok(value)
    }

    fn read_string(&mut self) -> (result: Result<String, RusshHelperError>)
        requires
            old(self).wf(),
        ensures
            final(self).wf(),
            match parse_text(old(self).rest()) {
                Ok((value, rest)) => result matches Ok(text) && text@ == value
                    && final(self).rest() == rest,
                Err(error) => result == Err::<String, _>(error),
            },
    {
        match self.read_bytes() {
            Ok(bytes) => match text::text_from_utf8(bytes) {
                Some(text) => Ok(text),
                None => Err(RusshHelperError::InvalidUtf8),
            },
            Err(error) => Err(error),
        }
    }

    fn read_window_size(&mut self) -> (result: Result<RusshWindowSize, RusshHelperError>)
        requires
            old(self).wf(),
        ensures
            final(self).wf(),
            match parse_size(old(self).rest()) {
                Ok((value, rest)) => result == Ok::<RusshWindowSize, RusshHelperError>(value)
                    && final(self).rest() == rest,
                Err(error) => result == Err::<RusshWindowSize, _>(error),
            },
    {
        match self.read_fixed(8) {
            Ok(bytes) => Ok(
                RusshWindowSize {
                    columns: bytes[0] as u16 + 256 * bytes[1] as u16,
                    rows: bytes[2] as u16 + 256 * bytes[3] as u16,
                    pixel_width: bytes[4] as u16 + 256 * bytes[5] as u16,
                    pixel_height: bytes[6] as u16 + 256 * bytes[7] as u16,
                },
            ),
            Err(error) => Err(error),
        }
    }

    fn finish(&self) -> (result: Result<(), RusshHelperError>)
        requires
            self.wf(),
        ensures
            result == finished((), self.rest()),
    {
        if self.offset == self.payload.len() {
            Ok(())
        } else {
            Err(RusshHelperError::TrailingBytes(self.payload.len() - self.offset))
        }
    }
}

/// The outcome of reading a request, by contents.
pub open spec fn request_result(result: Result<RusshHelperRequest, RusshHelperError>) -> Result<
    RequestView,
    RusshHelperError,
> {
    match result {
        Ok(request) => Ok(request@),
        Err(error) => Err(error),
    }
}

/// The outcome of reading a frame, by contents.
pub open spec fn frame_result(result: Result<RusshHelperFrame, RusshHelperError>) -> Result<
    FrameView,
    RusshHelperError,
> {
    match result {
        Ok(frame) => Ok(frame@),
        Err(error) => Err(error),
    }
}

impl RusshHelperRequest {
    /// The request as a payload.
    pub fn encode(&self) -> (result: Result<Vec<u8>, RusshHelperError>)
        ensures
            request_fits(self@) ==> result is Ok && result->Ok_0@ == request_bytes(self@),
            !request_fits(self@) ==> result == Err::<Vec<u8>, _>(RusshHelperError::FieldTooLong),
    {
        let mut payload: Vec<u8> = Vec::new();
        match write_string(&mut payload, self.command.as_str()) {
            Ok(()) => {},
            Err(error) => {
                return Err(error);
            },
        }
        write_bool(&mut payload, self.interactive);
        match self.initial_window_size {
            Some(size) => {
                write_bool(&mut payload, true);
                write_window_size(&mut payload, size);
            },
            None => {
                write_bool(&mut payload, false);
            },
        }
        assert(payload@ =~= request_bytes(self@));
        Ok(payload)
    }

    /// The request that a payload holds.
    pub fn decode(payload: &[u8]) -> (result: Result<Self, RusshHelperError>)
        ensures
            request_result(result) == parse_request(payload@),
    {
        let mut decoder = Decoder::new(payload);
        let command = match decoder.read_string() {
            Ok(command) => command,
            Err(error) => {
                return Err(error);
            },
        };
        let interactive = match decoder.read_bool() {
            Ok(interactive) => interactive,
            Err(error) => {
                return Err(error);
            },
        };
        let has_size = match decoder.read_bool() {
            Ok(has_size) => has_size,
            Err(error) => {
                return Err(error);
            },
        };
        let initial_window_size = if has_size {
            match decoder.read_window_size() {
                Ok(size) => Some(size),
                Err(error) => {
                    return Err(error);
                },
            }
        } else {
            None
        };
        match decoder.finish() {
            Ok(()) => Ok(RusshHelperRequest { command, interactive, initial_window_size }),
            Err(error) => Err(error),
        }
    }

    /// Appends the request to a stream, as a payload with its length in front.
    pub fn write_to(&self, writer: &mut Vec<u8>) -> (result: Result<(), RusshHelperError>)
        ensures
            request_fits(self@) && request_bytes(self@).len() <= u32::MAX ==> result is Ok
                && final(writer)@ == old(writer)@ + wire_bytes(request_bytes(self@)),
            request_fits(self@) && request_bytes(self@).len() > u32::MAX ==> result == Err::<(), _>(
                RusshHelperError::PayloadTooLong,
            ) && final(writer)@ == old(writer)@,
            !request_fits(self@) ==> result == Err::<(), _>(RusshHelperError::FieldTooLong)
                && final(writer)@ == old(writer)@,
    {
        match self.encode() {
            Ok(payload) => write_length_prefixed_payload(writer, payload.as_slice()),
            Err(error) => Err(error),
        }
    }

    /// Takes a request off the front of a stream. A stream that ends too early is
    /// used up; otherwise the payload alone is taken, whatever it holds.
    pub fn read_from(reader: &mut &[u8]) -> (result: Result<Self, RusshHelperError>)
        ensures
            match parse_wire((*old(reader))@) {
                Ok((payload, rest)) => request_result(result) == parse_request(payload)
                    && (*final(reader))@ == rest,
                Err(error) => result == Err::<Self, _>(error) && (*final(reader))@.len() == 0,
            },
    {
        match read_length_prefixed_payload(reader) {
            Ok(payload) => Self::decode(payload.as_slice()),
            Err(error) => Err(error),
        }
    }
}

impl RusshHelperFrame {
    /// The frame as a payload.
    pub fn encode(&self) -> (result: Result<Vec<u8>, RusshHelperError>)
        ensures
            frame_fits(self@) ==> result is Ok && result->Ok_0@ == frame_bytes(self@),
            !frame_fits(self@) ==> result == Err::<Vec<u8>, _>(RusshHelperError::FieldTooLong),
    {
        let mut payload: Vec<u8> = Vec::new();
        let written = match self {
            RusshHelperFrame::Stdin(data) => {
                payload.push(TAG_STDIN);
                write_bytes(&mut payload, data.as_slice())
            },
            RusshHelperFrame::Stdout(data) => {
                payload.push(TAG_STDOUT);
                write_bytes(&mut payload, data.as_slice())
            },
            RusshHelperFrame::Stderr(data) => {
                payload.push(TAG_STDERR);
                write_bytes(&mut payload, data.as_slice())
            },
            RusshHelperFrame::Resize(size) => {
                payload.push(TAG_RESIZE);
                write_window_size(&mut payload, *size);
                Ok(())
            },
            RusshHelperFrame::Eof => {
                payload.push(TAG_EOF);
                Ok(())
            },
            RusshHelperFrame::ExitStatus(status) => {
                payload.push(TAG_EXIT_STATUS);
                let value: u32 = if *status < 0 {
                    (*status as i64 + 0x1_0000_0000) as u32
                } else {
                    *status as u32
                };
                write_u32(&mut payload, value);
                Ok(())
            },
            RusshHelperFrame::Error(message) => {
                payload.push(TAG_ERROR);
                write_string(&mut payload, message.as_str())
            },
        };
        match written {
            Ok(()) => {
                assert(payload@ =~= frame_bytes(self@));
                Ok(payload)
            },
            Err(error) => Err(error),
        }
    }

    /// The frame that a payload holds.
    pub fn decode(payload: &[u8]) -> (result: Result<Self, RusshHelperError>)
        ensures
            frame_result(result) == parse_frame(payload@),
    {
        let mut decoder = Decoder::new(payload);
        let tag: u8 = match decoder.read_u8() {
            Ok(tag) => tag,
            Err(error) => {
                return Err(error);
            },
        };
        let read: Result<RusshHelperFrame, RusshHelperError> = if tag == TAG_STDIN {
            match decoder.read_bytes() {
                Ok(data) => Ok(RusshHelperFrame::Stdin(data)),
                Err(error) => Err(error),
            }
        } else if tag == TAG_STDOUT {
            match decoder.read_bytes() {
                Ok(data) => Ok(RusshHelperFrame::Stdout(data)),
                Err(error) => Err(error),
            }
        } else if tag == TAG_STDERR {
            match decoder.read_bytes() {
                Ok(data) => Ok(RusshHelperFrame::Stderr(data)),
                Err(error) => Err(error),
            }
        } else if tag == TAG_RESIZE {
            match decoder.read_window_size() {
                Ok(size) => Ok(RusshHelperFrame::Resize(size)),
                Err(error) => Err(error),
            }
        } else if tag == TAG_EOF {
            Ok(RusshHelperFrame::Eof)
        } else if tag == TAG_EXIT_STATUS {
            match decoder.read_i32() {
                Ok(status) => Ok(RusshHelperFrame::ExitStatus(status)),
                Err(error) => Err(error),
            }
        } else if tag == TAG_ERROR {
            match decoder.read_string() {
                Ok(message) => Ok(RusshHelperFrame::Error(message)),
                Err(error) => Err(error),
            }
        } else {
            Err(RusshHelperError::UnknownFrameTag(tag))
        };
        match read {
            Ok(frame) => match decoder.finish() {
                Ok(()) => Ok(frame),
                Err(error) => Err(error),
            },
            Err(error) => Err(error),
        }
    }

    /// Appends the frame to a stream, as a payload with its length in front.
    pub fn write_to(&self, writer: &mut Vec<u8>) -> (result: Result<(), RusshHelperError>)
        ensures
            frame_fits(self@) && frame_bytes(self@).len() <= u32::MAX ==> result is Ok
                && final(writer)@ == old(writer)@ + wire_bytes(frame_bytes(self@)),
            frame_fits(self@) && frame_bytes(self@).len() > u32::MAX ==> result == Err::<(), _>(
                RusshHelperError::PayloadTooLong,
            ) && final(writer)@ == old(writer)@,
            !frame_fits(self@) ==> result == Err::<(), _>(RusshHelperError::FieldTooLong)
                && final(writer)@ == old(writer)@,
    {
        match self.encode() {
            Ok(payload) => write_length_prefixed_payload(writer, payload.as_slice()),
            Err(error) => Err(error),
        }
    }

    /// Takes a frame off the front of a stream. A stream that ends too early is
    /// used up; otherwise the payload alone is taken, whatever it holds.
    pub fn read_from(reader: &mut &[u8]) -> (result: Result<Self, RusshHelperError>)
        ensures
            match parse_wire((*old(reader))@) {
                Ok((payload, rest)) => frame_result(result) == parse_frame(payload)
                    && (*final(reader))@ == rest,
                Err(error) => result == Err::<Self, _>(error) && (*final(reader))@.len() == 0,
            },
    {
        match read_length_prefixed_payload(reader) {
            Ok(payload) => Self::decode(payload.as_slice()),
            Err(error) => Err(error),
        }
    }
}


/// The text that an error is reported with.
pub open spec fn error_text(error: RusshHelperError) -> Seq<char> {
    match error {
        RusshHelperError::FieldTooLong => "Russh helper field exceeds u32"@,
        RusshHelperError::PayloadTooLong => "Russh helper payload exceeds u32"@,
        RusshHelperError::StreamEnded => "failed to fill whole buffer"@,
        RusshHelperError::UnexpectedEnd => "Unexpected end of Russh helper payload"@,
        RusshHelperError::InvalidBool(value) => "Invalid Russh helper bool value: "@
            + text::decimal(value as nat),
        RusshHelperError::UnknownFrameTag(tag) => "Unknown Russh helper frame tag: "@
            + text::decimal(tag as nat),
        RusshHelperError::InvalidUtf8 => "Russh helper payload contained invalid UTF-8"@,
        RusshHelperError::TrailingBytes(count) => "Russh helper payload had "@ + text::decimal(
            count as nat,
        ) + " trailing bytes"@,
    }
}

impl RusshHelperError {
    /// The text that the error is reported with.
    pub fn message(&self) -> (message: String)
        ensures
            message@ == error_text(*self),
    {
        match self {
            RusshHelperError::FieldTooLong => "Russh helper field exceeds u32".to_owned(),
            RusshHelperError::PayloadTooLong => "Russh helper payload exceeds u32".to_owned(),
            RusshHelperError::StreamEnded => "failed to fill whole buffer".to_owned(),
            RusshHelperError::UnexpectedEnd => "Unexpected end of Russh helper payload".to_owned(),
            RusshHelperError::InvalidBool(value) => text::concat(
                "Invalid Russh helper bool value: ",
                text::format_decimal(*value as u64).as_str(),
            ),
            RusshHelperError::UnknownFrameTag(tag) => text::concat(
                "Unknown Russh helper frame tag: ",
                text::format_decimal(*tag as u64).as_str(),
            ),
            RusshHelperError::InvalidUtf8 => {
                "Russh helper payload contained invalid UTF-8".to_owned()
            },
            RusshHelperError::TrailingBytes(count) => {
                let mut message = "Russh helper payload had ".to_owned();
                message.append(text::format_decimal(*count as u64).as_str());
                message.append(" trailing bytes");
                message
            },
        }
    }
}

/// Whether a command is to run in a terminal.
#[derive(Clone, Copy, Debug, PartialEq, Eq, Structural)]
pub enum Interactive {
    Yes,
    No,
}

/// A program with its arguments and the variables added to its environment.
#[derive(Clone, Debug, PartialEq, Eq)]
pub struct CommandTemplate {
    pub program: String,
    pub args: Vec<String>,
    pub env: Vec<(String, String)>,
}

/// How the interactive flag is written on the command line.
pub open spec fn interactive_text(interactive: bool) -> Seq<char> {
    if interactive {
        "yes"@
    } else {
        "no"@
    }
}

/// The arguments with which the helper process is started.
pub open spec fn helper_args(socket_path: Seq<char>, command: Seq<char>, interactive: bool) -> Seq<
    Seq<char>,
> {
    seq![
        "--zed-ios-russh-helper"@,
        "exec"@,
        "--socket"@,
        socket_path,
        "--interactive"@,
        interactive_text(interactive),
        "--command"@,
        command,
    ]
}

/// The command that starts the helper process.
pub fn build_russh_helper_command_template(
    executable_path: &str,
    socket_path: &str,
    command: String,
    interactive: Interactive,
) -> (template: CommandTemplate)
    ensures
        template.program@ == executable_path@,
        text::texts(template.args@) == helper_args(
            socket_path@,
            command@,
            interactive == Interactive::Yes,
        ),
        template.env@.len() == 0,
{
    let interactive_arg = match interactive {
        Interactive::Yes => "yes",
        Interactive::No => "no",
    };
    let ghost command_text = command@;
    let mut args: Vec<String> = Vec::new();
    args.push("--zed-ios-russh-helper".to_owned());
    args.push("exec".to_owned());
    args.push("--socket".to_owned());
    args.push(socket_path.to_owned());
    args.push("--interactive".to_owned());
    args.push(interactive_arg.to_owned());
    args.push("--command".to_owned());
    args.push(command);
    assert(text::texts(args@) =~= helper_args(
        socket_path@,
        command_text,
        interactive == Interactive::Yes,
    ));
    CommandTemplate { program: executable_path.to_owned(), args, env: Vec::new() }
}

/// Bytes behind a request are not taken for a part of it: they are counted and refused.
pub proof fn law_bytes_behind_a_request_are_refused(request: RequestView, tail: Seq<u8>)
    requires
        request_fits(request),
        0 < tail.len() <= usize::MAX,
    ensures
        parse_request(request_bytes(request) + tail) == Err::<RequestView, _>(
            RusshHelperError::TrailingBytes(tail.len() as usize),
        ),
{
    let size = optional_size_bytes(request.initial_window_size);
    let flags = bool_bytes(request.interactive) + (size + tail);
    lemma_text_reads_back(request.command, flags);
    lemma_bool_reads_back(request.interactive, size + tail);
    lemma_optional_size_reads_back(request.initial_window_size, tail);
    assert(request_bytes(request) + tail =~= field_bytes(encode_utf8(request.command)) + flags);
}

proof fn lemma_frame_body_reads_back(frame: FrameView, tail: Seq<u8>)
    requires
        frame_fits(frame),
    ensures
        parse_frame_body(frame_tag(frame), frame_body(frame) + tail) == Ok::<
            (FrameView, Seq<u8>),
            RusshHelperError,
        >((frame, tail)),
{
    let body = frame_body(frame);
    match frame {
        FrameView::Stdin(data) => lemma_field_reads_back(data, tail),
        FrameView::Stdout(data) => lemma_field_reads_back(data, tail),
        FrameView::Stderr(data) => lemma_field_reads_back(data, tail),
        FrameView::Resize(size) => lemma_size_reads_back(size, tail),
        FrameView::Eof => {
            assert(body + tail =~= tail);
        },
        FrameView::ExitStatus(status) => {
            let value = numbers::unsigned_of(status);
            lemma_u32_round_trip(value);
            assert(u32_value(body + tail) == u32_value(u32_bytes(value)));
            assert((body + tail).skip(4) =~= tail);
        },
        FrameView::Error(message) => lemma_text_reads_back(message, tail),
    }
}

/// Bytes behind a frame are not taken for a part of it: they are counted and refused.
pub proof fn law_bytes_behind_a_frame_are_refused(frame: FrameView, tail: Seq<u8>)
    requires
        frame_fits(frame),
        0 < tail.len() <= usize::MAX,
    ensures
        parse_frame(frame_bytes(frame) + tail) == Err::<FrameView, _>(
            RusshHelperError::TrailingBytes(tail.len() as usize),
        ),
{
    lemma_frame_body_reads_back(frame, tail);
    let bytes = frame_bytes(frame) + tail;
    assert(bytes[0] == frame_tag(frame));
    assert(bytes.skip(1) =~= frame_body(frame) + tail);
}

/// A request or a frame of which the end is missing is refused, wherever it was cut.
pub proof fn law_cut_messages_are_refused(request: RequestView, frame: FrameView, n: int)
    requires
        request_fits(request),
        frame_fits(frame),
        request_bytes(request).len() <= usize::MAX,
        frame_bytes(frame).len() <= usize::MAX,
    ensures
        0 <= n < request_bytes(request).len() ==> parse_request(
            request_bytes(request).take(n),
        ) is Err,
        0 <= n < frame_bytes(frame).len() ==> parse_frame(frame_bytes(frame).take(n)) is Err,
{
    if 0 <= n < request_bytes(request).len() {
        let whole = request_bytes(request);
        let cut = whole.take(n);
        if parse_request(cut) is Ok {
            let read = parse_request(cut)->Ok_0;
            law_request_form_is_unique(cut);
            law_request_reads_back(request);
            law_bytes_behind_a_request_are_refused(read, whole.skip(n));
            assert(cut + whole.skip(n) =~= whole);
        }
    }
    if 0 <= n < frame_bytes(frame).len() {
        let whole = frame_bytes(frame);
        let cut = whole.take(n);
        if parse_frame(cut) is Ok {
            let read = parse_frame(cut)->Ok_0;
            law_frame_form_is_unique(cut);
            law_frame_reads_back(frame);
            law_bytes_behind_a_frame_are_refused(read, whole.skip(n));
            assert(cut + whole.skip(n) =~= whole);
        }
    }
}

/// A stream that breaks off inside a payload, or inside its length, has ended.
pub proof fn law_cut_streams_have_ended(payload: Seq<u8>, n: int)
    requires
        payload.len() <= u32::MAX,
        0 <= n < wire_bytes(payload).len(),
    ensures
        parse_wire(wire_bytes(payload).take(n)) == Err::<(Seq<u8>, Seq<u8>), _>(
            RusshHelperError::StreamEnded,
        ),
{
    let cut = wire_bytes(payload).take(n);
    if n >= 4 {
        lemma_u32_round_trip(payload.len() as u32);
        assert(u32_value(cut) == u32_value(u32_bytes(payload.len() as u32)));
    }
}

/// Numbers are written with their lowest byte first.
pub proof fn law_low_bytes_come_first(n: u8, short: u16, long: u32)
    ensures
        u16_bytes(short).len() == 2,
        u32_bytes(long).len() == 4,
        short == u16_bytes(short)[0] + 256 * u16_bytes(short)[1],
        long == u32_bytes(long)[0] + 256 * (u32_bytes(long)[1] + 256 * (u32_bytes(long)[2] + 256
            * u32_bytes(long)[3])),
        u16_bytes(n as u16) == seq![n, 0u8],
        u32_bytes(n as u32) == seq![n, 0u8, 0u8, 0u8],
{
    lemma_u16_round_trip(short);
    lemma_u32_round_trip(long);
    assert(u16_bytes(n as u16) =~= seq![n, 0u8]);
    assert(u32_bytes(n as u32) =~= seq![n, 0u8, 0u8, 0u8]);
}

/// A frame of an unknown sort is refused, whatever it holds, and the sort is told.
pub proof fn law_unknown_frames_are_refused(tag: u8, body: Seq<u8>)
    ensures
        parse_frame(Seq::empty()) == Err::<FrameView, _>(RusshHelperError::UnexpectedEnd),
        parse_frame(seq![tag] + body) == Err::<FrameView, _>(
            RusshHelperError::UnknownFrameTag(tag),
        ) <==> tag > 6,
{
    assert((seq![tag] + body).skip(1) =~= body);
}

/// What went wrong is told in different words for different errors.
pub proof fn law_errors_are_told_apart(error: RusshHelperError, other: RusshHelperError)
    ensures
        error_text(error) == error_text(other) ==> error == other,
{
    reveal_strlit("Russh helper field exceeds u32");
    reveal_strlit("Russh helper payload exceeds u32");
    reveal_strlit("failed to fill whole buffer");
    reveal_strlit("Unexpected end of Russh helper payload");
    reveal_strlit("Invalid Russh helper bool value: ");
    reveal_strlit("Unknown Russh helper frame tag: ");
    reveal_strlit("Russh helper payload contained invalid UTF-8");
    reveal_strlit("Russh helper payload had ");
    reveal_strlit(" trailing bytes");
    let a = error_text(error);
    let b = error_text(other);
    lemma_error_begins(error);
    lemma_error_begins(other);
    if a == b {
        match (error, other) {
            (RusshHelperError::InvalidBool(x), RusshHelperError::InvalidBool(y)) => {
                assert(text::decimal(x as nat) =~= a.skip(33));
                assert(text::decimal(y as nat) =~= b.skip(33));
                text::lemma_decimal_parses_back(x as nat);
                text::lemma_decimal_parses_back(y as nat);
            },
            (RusshHelperError::UnknownFrameTag(x), RusshHelperError::UnknownFrameTag(y)) => {
                assert(text::decimal(x as nat) =~= a.skip(32));
                assert(text::decimal(y as nat) =~= b.skip(32));
                text::lemma_decimal_parses_back(x as nat);
                text::lemma_decimal_parses_back(y as nat);
            },
            (RusshHelperError::TrailingBytes(x), RusshHelperError::TrailingBytes(y)) => {
                assert(text::decimal(x as nat) =~= a.subrange(25, a.len() - 15));
                assert(text::decimal(y as nat) =~= b.subrange(25, b.len() - 15));
                text::lemma_decimal_parses_back(x as nat);
                text::lemma_decimal_parses_back(y as nat);
            },
            _ => {},
        }
    }
}

proof fn lemma_error_begins(error: RusshHelperError)
    ensures
        ({
            let message = error_text(error);
            &&& message.len() > 22
            &&& message[0] == 'R' <==> error is FieldTooLong || error is PayloadTooLong
                || error is InvalidUtf8 || error is TrailingBytes
            &&& message[0] == 'f' <==> error is StreamEnded
            &&& message[0] == 'I' <==> error is InvalidBool
            &&& message[0] == 'U' && message[2] == 'e' <==> error is UnexpectedEnd
            &&& message[0] == 'U' && message[2] == 'k' <==> error is UnknownFrameTag
            &&& message[0] == 'R' && message[13] == 'f' <==> error is FieldTooLong
            &&& message[0] == 'R' && message[13] == 'p' && message[21] == 'e'
                <==> error is PayloadTooLong
            &&& message[0] == 'R' && message[13] == 'p' && message[21] == 'c'
                <==> error is InvalidUtf8
            &&& message[0] == 'R' && message[13] == 'p' && message[21] == 'h'
                <==> error is TrailingBytes
        }),
{
    reveal_strlit("Russh helper field exceeds u32");
    reveal_strlit("Russh helper payload exceeds u32");
    reveal_strlit("failed to fill whole buffer");
    reveal_strlit("Unexpected end of Russh helper payload");
    reveal_strlit("Invalid Russh helper bool value: ");
    reveal_strlit("Unknown Russh helper frame tag: ");
    reveal_strlit("Russh helper payload contained invalid UTF-8");
    reveal_strlit("Russh helper payload had ");
}

} // verus!
