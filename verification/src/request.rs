//! Message roles and the request/response layer.
//!
//! Four message types travel on the wire: an invocation that expects a reply,
//! a oneway invocation, a reply, and a notification (a reply-shaped message
//! with no preceding request). A `Request` or `Response` value pairs the
//! service/request/sequence ids with the role flag and drives one encoded
//! message through the framed transport per call.

use vstd::prelude::*;

use crate::codec::{
    decode_header, header_bytes, BasicCodec, BasicCodecFactory, CodecError, CodecFactory,
    MessageHeader,
};
use crate::cursor::{BufferCursor, CursorError};
use crate::framed_transport::{
    crc16_of, frame_bytes, frame_declared_crc, frame_declared_len, frame_head_taken,
    frame_read_payload, frame_rest, FramedTransport, FramedTransportError, MAX_MESSAGE_SIZE,
};
use crate::wire::{avail_of, read_padded, u32_of_le};

verus! {

#[derive(Debug, Copy, Clone, PartialEq, Eq)]
pub enum MessageType {
    InvocationMessage,
    OnewayMessage,
    ReplyMessage,
    NotificationMessage,
}

/// The wire code of each message type.
pub open spec fn message_type_code(t: MessageType) -> u32 {
    match t {
        MessageType::InvocationMessage => 0,
        MessageType::OnewayMessage => 1,
        MessageType::ReplyMessage => 2,
        MessageType::NotificationMessage => 3,
    }
}

/// The message type a wire code names, if any.
pub open spec fn message_type_of(v: u32) -> Option<MessageType> {
    if v == 0 {
        Some(MessageType::InvocationMessage)
    } else if v == 1 {
        Some(MessageType::OnewayMessage)
    } else if v == 2 {
        Some(MessageType::ReplyMessage)
    } else if v == 3 {
        Some(MessageType::NotificationMessage)
    } else {
        None
    }
}

impl MessageType {
    /// The message type named by a wire code; codes above 3 name none.
    pub fn from_u32(v: u32) -> (r: Option<MessageType>)
        ensures
            r == message_type_of(v),
    {
        if v == 0 {
            Some(MessageType::InvocationMessage)
        } else if v == 1 {
            Some(MessageType::OnewayMessage)
        } else if v == 2 {
            Some(MessageType::ReplyMessage)
        } else if v == 3 {
            Some(MessageType::NotificationMessage)
        } else {
            None
        }
    }

    /// The wire code of this message type.
    pub fn code(self) -> (r: u32)
        ensures
            r == message_type_code(self),
    {
        match self {
            MessageType::InvocationMessage => 0,
            MessageType::OnewayMessage => 1,
            MessageType::ReplyMessage => 2,
            MessageType::NotificationMessage => 3,
        }
    }
}

#[derive(Debug, Copy, Clone, PartialEq, Eq)]
pub enum RequestResponseError<TransportError> {
    /// A received message was not an invocation or a oneway.
    InvalidRequest,
    /// A received message was not a reply or a notification.
    InvalidResponse,
    /// The codec failed while encoding or decoding the message.
    CodecError(CodecError),
    /// The framing layer failed while carrying the message.
    FramedTransportError(FramedTransportError<TransportError>),
}

impl<E> From<CodecError> for RequestResponseError<E> {
    fn from(err: CodecError) -> (r: Self) {
        RequestResponseError::CodecError(err)
    }
}

impl<E> vstd::std_specs::convert::FromSpecImpl<CodecError> for RequestResponseError<E> {
    open spec fn obeys_from_spec() -> bool {
        true
    }

    open spec fn from_spec(err: CodecError) -> Self {
        RequestResponseError::CodecError(err)
    }
}

impl<E> From<FramedTransportError<E>> for RequestResponseError<E> {
    fn from(err: FramedTransportError<E>) -> (r: Self) {
        RequestResponseError::FramedTransportError(err)
    }
}

impl<E> vstd::std_specs::convert::FromSpecImpl<FramedTransportError<E>> for RequestResponseError<E> {
    open spec fn obeys_from_spec() -> bool {
        true
    }

    open spec fn from_spec(err: FramedTransportError<E>) -> Self {
        RequestResponseError::FramedTransportError(err)
    }
}

/// The codec state right after the header was written into `buffer`: the
/// eight header bytes overwrite the front, and the position sits after them.
pub open spec fn header_written(
    c: BasicCodec<BufferCursor>,
    buffer: Seq<u8>,
    h: MessageHeader,
) -> bool {
    &&& c.data() == crate::wire::overwrite(buffer, 0, header_bytes(h))
    &&& c.pos() == 8
    &&& c.inv()
}

/// The message header decoded from the front of a received payload, with
/// the cursor's zero-extension when the payload is shorter than a header.
pub open spec fn parse_message_header(p: Seq<u8>) -> Option<MessageHeader> {
    decode_header(
        u32_of_le(read_padded(p, 0, 4)),
        u32_of_le(read_padded(p, avail_of(p, 0, 4), 4)),
    )
}

/// How many payload bytes the header decode consumes.
pub open spec fn message_header_taken(p: Seq<u8>) -> int {
    avail_of(p, 0, 4) + avail_of(p, avail_of(p, 0, 4), 4)
}

/// A payload that starts with an encoded header parses back to that header,
/// with the service and request ids reduced to their low byte, and the
/// decoder sitting at the start of the body.
pub proof fn lemma_message_header_round_trip(h: MessageHeader, body: Seq<u8>)
    ensures
        parse_message_header(header_bytes(h) + body) == Some(
            MessageHeader {
                message_type: h.message_type,
                service: h.service & 0xff,
                request: h.request & 0xff,
                sequence: h.sequence,
            },
        ),
        message_header_taken(header_bytes(h) + body) == 8,
{
    let p = header_bytes(h) + body;
    crate::codec::lemma_header_round_trip(h);
    crate::wire::lemma_read_padded_in_bounds(p, 0, 4);
    crate::wire::lemma_read_padded_in_bounds(p, 4, 4);
    assert(p.subrange(0, 4) =~= header_bytes(h).subrange(0, 4));
    assert(p.subrange(4, 8) =~= header_bytes(h).subrange(4, 8));
    crate::wire::lemma_u32_round_trip(crate::codec::header_word(h));
    crate::wire::lemma_u32_round_trip(h.sequence);
}

/// The whole stack round trips: a frame carrying an encoded header and a
/// body parses back to that frame's payload with a matching checksum, the
/// header decodes to the same fields — service and request ids reduced to
/// their low byte — and the body lies right behind it, with the rest of the
/// stream untouched.
pub proof fn lemma_message_round_trip(h: MessageHeader, body: Seq<u8>, rest: Seq<u8>)
    requires
        8 + body.len() <= MAX_MESSAGE_SIZE,
    ensures
        ({
            let payload = header_bytes(h) + body;
            let s = frame_bytes(payload) + rest;
            &&& frame_declared_len(s) == payload.len()
            &&& frame_declared_crc(s) == crc16_of(frame_read_payload(s))
            &&& frame_read_payload(s) == payload
            &&& frame_rest(s) == rest
            &&& parse_message_header(payload) == Some(
                MessageHeader {
                    message_type: h.message_type,
                    service: h.service & 0xff,
                    request: h.request & 0xff,
                    sequence: h.sequence,
                },
            )
            &&& message_header_taken(payload) == 8
        }),
{
    crate::codec::lemma_header_round_trip(h);
    crate::framed_transport::lemma_frame_round_trip(header_bytes(h) + body, rest);
    lemma_message_header_round_trip(h, body);
}

/// Encodes one message into `buffer` — the header, then whatever body the
/// caller's `constructor` writes through the codec — and hands exactly the
/// written byte range to the framing layer as one frame.
///
/// The constructor receives the codec positioned after the header, returns
/// it with the body written, and reports its own failure as a `CodecError`.
/// The first failure anywhere is returned at once; the buffer is consumed
/// either way.
pub fn send_message<Error, Transport, Constructor>(
    transport: &mut Transport,
    buffer: Vec<u8>,
    message_header: &MessageHeader,
    codec_factory: BasicCodecFactory<BufferCursor>,
    constructor: Constructor,
) -> (r: Result<(), RequestResponseError<Error>>) where
    Transport: FramedTransport<Error>,
    Constructor: FnOnce(BasicCodec<BufferCursor>) -> (BasicCodec<BufferCursor>, Result<
        (),
        CodecError,
    >),

    requires
        old(transport).inv(),
        buffer@.len() >= 8 ==> forall|c: BasicCodec<BufferCursor>|
            header_written(c, buffer@, *message_header) ==> #[trigger] call_requires(
                constructor,
                (c,),
            ),
        forall|
            c: BasicCodec<BufferCursor>,
            out: (BasicCodec<BufferCursor>, Result<(), CodecError>),
        |
            c.inv() && #[trigger] call_ensures(constructor, (c,), out) ==> out.0.inv()
                && out.0.data().len() == c.data().len(),
    ensures
        final(transport).inv(),
        match r {
            Ok(()) => exists|
                c: BasicCodec<BufferCursor>,
                body: BasicCodec<BufferCursor>,
                ok: Result<(), CodecError>,
            |
                {
                    &&& buffer@.len() >= 8
                    &&& header_written(c, buffer@, *message_header)
                    &&& #[trigger] call_ensures(constructor, (c,), (body, ok))
                    &&& ok is Ok
                    &&& body.pos() <= MAX_MESSAGE_SIZE
                    &&& final(transport).sent() == old(transport).sent() + frame_bytes(
                        body.data().take(body.pos() as int),
                    )
                },
            Err(RequestResponseError::CodecError(e)) => (buffer@.len() < 8 && e
                == CodecError::Cursor(CursorError::InsufficientBuffer) && final(transport).sent()
                == old(transport).sent()) || exists|
                c: BasicCodec<BufferCursor>,
                body: BasicCodec<BufferCursor>,
            |
                {
                    &&& buffer@.len() >= 8
                    &&& header_written(c, buffer@, *message_header)
                    &&& #[trigger] call_ensures(
                        constructor,
                        (c,),
                        (body, Err::<(), CodecError>(e)),
                    )
                    &&& final(transport).sent() == old(transport).sent()
                },
            Err(RequestResponseError::FramedTransportError(fe)) => exists|
                c: BasicCodec<BufferCursor>,
                body: BasicCodec<BufferCursor>,
                ok: Result<(), CodecError>,
            |
                {
                    &&& buffer@.len() >= 8
                    &&& header_written(c, buffer@, *message_header)
                    &&& #[trigger] call_ensures(constructor, (c,), (body, ok))
                    &&& ok is Ok
                    &&& match fe {
                        FramedTransportError::DataTooLong => body.pos() > MAX_MESSAGE_SIZE
                            && final(transport).sent() == old(transport).sent(),
                        FramedTransportError::UnderlyingError(_) => body.pos()
                            <= MAX_MESSAGE_SIZE,
                        _ => false,
                    }
                },
            _ => false,
        },
{
    let ghost buffer0 = buffer@;
    let cursor = BufferCursor::new(buffer);
    let mut codec_factory = codec_factory;
    let mut codec = codec_factory.from_cursor(cursor);
    match codec.start_write_message(message_header) {
        Ok(()) => {},
        Err(e) => {
            return Err(RequestResponseError::CodecError(e));
        },
    }
    let ghost mid = codec;
    let (codec, constructed) = constructor(codec);
    let ghost body = codec;
    proof {
        assert(call_ensures(constructor, (mid,), (body, constructed)));
    }
    match constructed {
        Ok(()) => {},
        Err(e) => {
            return Err(RequestResponseError::CodecError(e));
        },
    }
    let cursor = codec.detach();
    let position = cursor.get_position();
    let mut buffer = cursor.release();
    buffer.truncate(position);
    proof {
        assert(header_written(mid, buffer0, *message_header));
        assert(buffer@ == body.data().take(body.pos() as int));
    }
    match transport.send(buffer.as_slice()) {
        Ok(()) => Ok(()),
        Err(e) => Err(RequestResponseError::FramedTransportError(e)),
    }
}

/// Receives one frame, decodes just the message header at its front, and
/// returns the header with the codec positioned after it, so the caller can
/// decode the body fields on demand. The codec owns the buffer, truncated
/// to the received payload.
pub fn receive_message<Error, Transport>(
    transport: &mut Transport,
    buffer: Vec<u8>,
    codec_factory: BasicCodecFactory<BufferCursor>,
) -> (r: Result<(MessageHeader, BasicCodec<BufferCursor>), RequestResponseError<Error>>) where
    Transport: FramedTransport<Error>,

    requires
        old(transport).inv(),
    ensures
        final(transport).inv(),
        ({
            let s = old(transport).to_read();
            let p = frame_read_payload(s);
            match r {
                Ok((h, c)) => {
                    &&& frame_declared_len(s) as int <= buffer@.len()
                    &&& frame_declared_crc(s) == crc16_of(p)
                    &&& final(transport).to_read() == frame_rest(s)
                    &&& parse_message_header(p) == Some(h)
                    &&& c.data() == p
                    &&& c.pos() == message_header_taken(p)
                    &&& c.inv()
                },
                Err(RequestResponseError::CodecError(e)) => {
                    &&& e == CodecError::InvalidMessageType
                    &&& frame_declared_len(s) as int <= buffer@.len()
                    &&& frame_declared_crc(s) == crc16_of(p)
                    &&& final(transport).to_read() == frame_rest(s)
                    &&& parse_message_header(p) is None
                },
                Err(RequestResponseError::FramedTransportError(fe)) => match fe {
                    FramedTransportError::BufferTooShort => {
                        &&& frame_declared_len(s) as int > buffer@.len()
                        &&& final(transport).to_read() == s.skip(frame_head_taken(s))
                    },
                    FramedTransportError::ChecksumError => {
                        &&& frame_declared_len(s) as int <= buffer@.len()
                        &&& frame_declared_crc(s) != crc16_of(p)
                        &&& final(transport).to_read() == frame_rest(s)
                    },
                    FramedTransportError::UnderlyingError(_) => true,
                    _ => false,
                },
                _ => false,
            }
        }),
{
    let mut buffer = buffer;
    let received = match transport.receive(&mut buffer) {
        Ok(n) => n,
        Err(e) => {
            return Err(RequestResponseError::FramedTransportError(e));
        },
    };
    buffer.truncate(received);
    let cursor = BufferCursor::new(buffer);
    let mut codec_factory = codec_factory;
    let mut codec = codec_factory.from_cursor(cursor);
    let message_header = match codec.start_read_message() {
        Ok(h) => h,
        Err(e) => {
            return Err(RequestResponseError::CodecError(e));
        },
    };
    Ok((message_header, codec))
}

/// One outgoing or incoming invocation: who is called, which request, and
/// the caller's correlation number. A oneway request expects no reply.
#[derive(Debug, Copy, Clone, PartialEq, Eq)]
pub struct Request {
    pub service: u32,
    pub request: u32,
    pub sequence: u32,
    pub is_oneway: bool,
}

/// The header a request travels under.
pub open spec fn request_header(r: Request) -> MessageHeader {
    MessageHeader {
        message_type: if r.is_oneway {
            MessageType::OnewayMessage
        } else {
            MessageType::InvocationMessage
        },
        service: r.service,
        request: r.request,
        sequence: r.sequence,
    }
}

impl Request {
    pub fn new(service: u32, request: u32, sequence: u32, is_oneway: bool) -> (r: Self)
        ensures
            r == (Request { service, request, sequence, is_oneway }),
    {
        Self { service, request, sequence, is_oneway }
    }

    /// Sends this request as one framed message: its header, then the body
    /// the constructor writes.
    pub fn send_request<Error, Transport, Constructor>(
        &self,
        transport: &mut Transport,
        buffer: Vec<u8>,
        codec_factory: BasicCodecFactory<BufferCursor>,
        constructor: Constructor,
    ) -> (r: Result<(), RequestResponseError<Error>>) where
        Transport: FramedTransport<Error>,
        Constructor: FnOnce(BasicCodec<BufferCursor>) -> (BasicCodec<BufferCursor>, Result<
            (),
            CodecError,
        >),

        requires
            old(transport).inv(),
            buffer@.len() >= 8 ==> forall|c: BasicCodec<BufferCursor>|
                header_written(c, buffer@, request_header(*self)) ==> #[trigger] call_requires(
                    constructor,
                    (c,),
                ),
            forall|
                c: BasicCodec<BufferCursor>,
                out: (BasicCodec<BufferCursor>, Result<(), CodecError>),
            |
                c.inv() && #[trigger] call_ensures(constructor, (c,), out) ==> out.0.inv()
                    && out.0.data().len() == c.data().len(),
        ensures
            final(transport).inv(),
            match r {
                Ok(()) => exists|
                    c: BasicCodec<BufferCursor>,
                    body: BasicCodec<BufferCursor>,
                    ok: Result<(), CodecError>,
                |
                    {
                        &&& buffer@.len() >= 8
                        &&& header_written(c, buffer@, request_header(*self))
                        &&& #[trigger] call_ensures(constructor, (c,), (body, ok))
                        &&& ok is Ok
                        &&& body.pos() <= MAX_MESSAGE_SIZE
                        &&& final(transport).sent() == old(transport).sent() + frame_bytes(
                            body.data().take(body.pos() as int),
                        )
                    },
                Err(RequestResponseError::CodecError(e)) => (buffer@.len() < 8 && e
                    == CodecError::Cursor(CursorError::InsufficientBuffer) && final(transport).sent() == old(transport).sent()) || exists|
                    c: BasicCodec<BufferCursor>,
                    body: BasicCodec<BufferCursor>,
                |
                    {
                        &&& buffer@.len() >= 8
                        &&& header_written(c, buffer@, request_header(*self))
                        &&& #[trigger] call_ensures(
                            constructor,
                            (c,),
                            (body, Err::<(), CodecError>(e)),
                        )
                        &&& final(transport).sent() == old(transport).sent()
                    },
                Err(RequestResponseError::FramedTransportError(fe)) => exists|
                    c: BasicCodec<BufferCursor>,
                    body: BasicCodec<BufferCursor>,
                    ok: Result<(), CodecError>,
                |
                    {
                        &&& buffer@.len() >= 8
                        &&& header_written(c, buffer@, request_header(*self))
                        &&& #[trigger] call_ensures(constructor, (c,), (body, ok))
                        &&& ok is Ok
                        &&& match fe {
                            FramedTransportError::DataTooLong => body.pos() > MAX_MESSAGE_SIZE
                                && final(transport).sent() == old(transport).sent(),
                            FramedTransportError::UnderlyingError(_) => body.pos()
                                <= MAX_MESSAGE_SIZE,
                            _ => false,
                        }
                    },
                _ => false,
            },
    {
        let message_header = MessageHeader {
            message_type: if self.is_oneway {
                MessageType::OnewayMessage
            } else {
                MessageType::InvocationMessage
            },
            service: self.service,
            request: self.request,
            sequence: self.sequence,
        };
        send_message(transport, buffer, &message_header, codec_factory, constructor)
    }

    /// Receives one message and requires it to be an invocation or a oneway,
    /// else fails with `InvalidRequest`; the body stays in the returned
    /// codec for the caller to decode.
    pub fn receive_request<Error, Transport>(
        transport: &mut Transport,
        buffer: Vec<u8>,
        codec_factory: BasicCodecFactory<BufferCursor>,
    ) -> (r: Result<(Request, BasicCodec<BufferCursor>), RequestResponseError<Error>>) where
        Transport: FramedTransport<Error>,

        requires
            old(transport).inv(),
        ensures
            final(transport).inv(),
            ({
                let s = old(transport).to_read();
                let p = frame_read_payload(s);
                match r {
                    Ok((req, c)) => {
                        &&& frame_declared_len(s) as int <= buffer@.len()
                        &&& frame_declared_crc(s) == crc16_of(p)
                        &&& final(transport).to_read() == frame_rest(s)
                        &&& (parse_message_header(p) matches Some(h) && req == (Request {
                            service: h.service,
                            request: h.request,
                            sequence: h.sequence,
                            is_oneway: h.message_type == MessageType::OnewayMessage,
                        }) && (h.message_type == MessageType::InvocationMessage
                            || h.message_type == MessageType::OnewayMessage))
                        &&& c.data() == p
                        &&& c.pos() == message_header_taken(p)
                        &&& c.inv()
                    },
                    Err(RequestResponseError::InvalidRequest) => {
                        &&& frame_declared_len(s) as int <= buffer@.len()
                        &&& frame_declared_crc(s) == crc16_of(p)
                        &&& final(transport).to_read() == frame_rest(s)
                        &&& (parse_message_header(p) matches Some(h) && (h.message_type
                            == MessageType::ReplyMessage || h.message_type
                            == MessageType::NotificationMessage))
                    },
                    Err(RequestResponseError::CodecError(e)) => {
                        &&& e == CodecError::InvalidMessageType
                        &&& parse_message_header(p) is None
                        &&& final(transport).to_read() == frame_rest(s)
                    },
                    Err(RequestResponseError::FramedTransportError(fe)) => match fe {
                        FramedTransportError::BufferTooShort => {
                            &&& frame_declared_len(s) as int > buffer@.len()
                            &&& final(transport).to_read() == s.skip(frame_head_taken(s))
                        },
                        FramedTransportError::ChecksumError => {
                            &&& frame_declared_crc(s) != crc16_of(p)
                            &&& final(transport).to_read() == frame_rest(s)
                        },
                        FramedTransportError::UnderlyingError(_) => true,
                        _ => false,
                    },
                    _ => false,
                }
            }),
    {
        let (message_header, codec) = match receive_message(transport, buffer, codec_factory) {
            Ok(v) => v,
            Err(e) => {
                return Err(e);
            },
        };
        let is_oneway = match message_header.message_type {
            MessageType::InvocationMessage => false,
            MessageType::OnewayMessage => true,
            _ => {
                return Err(RequestResponseError::InvalidRequest);
            },
        };
        let request = Request {
            is_oneway,
            service: message_header.service,
            request: message_header.request,
            sequence: message_header.sequence,
        };
        Ok((request, codec))
    }
}

/// One outgoing or incoming reply: which call it answers and the sequence
/// number that correlates it. A notification is a reply-shaped message sent
/// without a preceding request.
#[derive(Debug, Copy, Clone, PartialEq, Eq)]
pub struct Response {
    pub service: u32,
    pub request: u32,
    pub sequence: u32,
    pub is_notification: bool,
}

/// The header a response travels under.
pub open spec fn response_header(r: Response) -> MessageHeader {
    MessageHeader {
        message_type: if r.is_notification {
            MessageType::NotificationMessage
        } else {
            MessageType::ReplyMessage
        },
        service: r.service,
        request: r.request,
        sequence: r.sequence,
    }
}

impl Response {
    pub fn new(service: u32, request: u32, sequence: u32, is_notification: bool) -> (r: Self)
        ensures
            r == (Response { service, request, sequence, is_notification }),
    {
        Self { service, request, sequence, is_notification }
    }

    /// Sends this response as one framed message: its header, then the body
    /// the constructor writes.
    pub fn send_response<Error, Transport, Constructor>(
        &self,
        transport: &mut Transport,
        buffer: Vec<u8>,
        codec_factory: BasicCodecFactory<BufferCursor>,
        constructor: Constructor,
    ) -> (r: Result<(), RequestResponseError<Error>>) where
        Transport: FramedTransport<Error>,
        Constructor: FnOnce(BasicCodec<BufferCursor>) -> (BasicCodec<BufferCursor>, Result<
            (),
            CodecError,
        >),

        requires
            old(transport).inv(),
            buffer@.len() >= 8 ==> forall|c: BasicCodec<BufferCursor>|
                header_written(c, buffer@, response_header(*self)) ==> #[trigger] call_requires(
                    constructor,
                    (c,),
                ),
            forall|
                c: BasicCodec<BufferCursor>,
                out: (BasicCodec<BufferCursor>, Result<(), CodecError>),
            |
                c.inv() && #[trigger] call_ensures(constructor, (c,), out) ==> out.0.inv()
                    && out.0.data().len() == c.data().len(),
        ensures
            final(transport).inv(),
            match r {
                Ok(()) => exists|
                    c: BasicCodec<BufferCursor>,
                    body: BasicCodec<BufferCursor>,
                    ok: Result<(), CodecError>,
                |
                    {
                        &&& buffer@.len() >= 8
                        &&& header_written(c, buffer@, response_header(*self))
                        &&& #[trigger] call_ensures(constructor, (c,), (body, ok))
                        &&& ok is Ok
                        &&& body.pos() <= MAX_MESSAGE_SIZE
                        &&& final(transport).sent() == old(transport).sent() + frame_bytes(
                            body.data().take(body.pos() as int),
                        )
                    },
                Err(RequestResponseError::CodecError(e)) => (buffer@.len() < 8 && e
                    == CodecError::Cursor(CursorError::InsufficientBuffer) && final(transport).sent() == old(transport).sent()) || exists|
                    c: BasicCodec<BufferCursor>,
                    body: BasicCodec<BufferCursor>,
                |
                    {
                        &&& buffer@.len() >= 8
                        &&& header_written(c, buffer@, response_header(*self))
                        &&& #[trigger] call_ensures(
                            constructor,
                            (c,),
                            (body, Err::<(), CodecError>(e)),
                        )
                        &&& final(transport).sent() == old(transport).sent()
                    },
                Err(RequestResponseError::FramedTransportError(fe)) => exists|
                    c: BasicCodec<BufferCursor>,
                    body: BasicCodec<BufferCursor>,
                    ok: Result<(), CodecError>,
                |
                    {
                        &&& buffer@.len() >= 8
                        &&& header_written(c, buffer@, response_header(*self))
                        &&& #[trigger] call_ensures(constructor, (c,), (body, ok))
                        &&& ok is Ok
                        &&& match fe {
                            FramedTransportError::DataTooLong => body.pos() > MAX_MESSAGE_SIZE
                                && final(transport).sent() == old(transport).sent(),
                            FramedTransportError::UnderlyingError(_) => body.pos()
                                <= MAX_MESSAGE_SIZE,
                            _ => false,
                        }
                    },
                _ => false,
            },
    {
        let message_header = MessageHeader {
            message_type: if self.is_notification {
                MessageType::NotificationMessage
            } else {
                MessageType::ReplyMessage
            },
            service: self.service,
            request: self.request,
            sequence: self.sequence,
        };
        send_message(transport, buffer, &message_header, codec_factory, constructor)
    }

    /// Receives one message and requires it to be a reply or a notification,
    /// else fails with `InvalidResponse`; the body stays in the returned
    /// codec for the caller to decode.
    pub fn receive_response<Error, Transport>(
        transport: &mut Transport,
        buffer: Vec<u8>,
        codec_factory: BasicCodecFactory<BufferCursor>,
    ) -> (r: Result<(Response, BasicCodec<BufferCursor>), RequestResponseError<Error>>) where
        Transport: FramedTransport<Error>,

        requires
            old(transport).inv(),
        ensures
            final(transport).inv(),
            ({
                let s = old(transport).to_read();
                let p = frame_read_payload(s);
                match r {
                    Ok((resp, c)) => {
                        &&& frame_declared_len(s) as int <= buffer@.len()
                        &&& frame_declared_crc(s) == crc16_of(p)
                        &&& final(transport).to_read() == frame_rest(s)
                        &&& (parse_message_header(p) matches Some(h) && resp == (Response {
                            service: h.service,
                            request: h.request,
                            sequence: h.sequence,
                            is_notification: h.message_type == MessageType::NotificationMessage,
                        }) && (h.message_type == MessageType::ReplyMessage
                            || h.message_type == MessageType::NotificationMessage))
                        &&& c.data() == p
                        &&& c.pos() == message_header_taken(p)
                        &&& c.inv()
                    },
                    Err(RequestResponseError::InvalidResponse) => {
                        &&& frame_declared_len(s) as int <= buffer@.len()
                        &&& frame_declared_crc(s) == crc16_of(p)
                        &&& final(transport).to_read() == frame_rest(s)
                        &&& (parse_message_header(p) matches Some(h) && (h.message_type
                            == MessageType::InvocationMessage || h.message_type
                            == MessageType::OnewayMessage))
                    },
                    Err(RequestResponseError::CodecError(e)) => {
                        &&& e == CodecError::InvalidMessageType
                        &&& parse_message_header(p) is None
                        &&& final(transport).to_read() == frame_rest(s)
                    },
                    Err(RequestResponseError::FramedTransportError(fe)) => match fe {
                        FramedTransportError::BufferTooShort => {
                            &&& frame_declared_len(s) as int > buffer@.len()
                            &&& final(transport).to_read() == s.skip(frame_head_taken(s))
                        },
                        FramedTransportError::ChecksumError => {
                            &&& frame_declared_crc(s) != crc16_of(p)
                            &&& final(transport).to_read() == frame_rest(s)
                        },
                        FramedTransportError::UnderlyingError(_) => true,
                        _ => false,
                    },
                    _ => false,
                }
            }),
    {
        let (message_header, codec) = match receive_message(transport, buffer, codec_factory) {
            Ok(v) => v,
            Err(e) => {
                return Err(e);
            },
        };
        let is_notification = match message_header.message_type {
            MessageType::NotificationMessage => true,
            MessageType::ReplyMessage => false,
            _ => {
                return Err(RequestResponseError::InvalidResponse);
            },
        };
        let response = Response {
            service: message_header.service,
            request: message_header.request,
            sequence: message_header.sequence,
            is_notification,
        };
        Ok((response, codec))
    }
}

} // verus!
