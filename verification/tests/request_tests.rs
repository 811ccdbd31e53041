use rust_erpc::codec::{BasicCodec, BasicCodecFactory, CodecError, MessageHeader};
use rust_erpc::cursor::{CursorError, SliceCursor};
use rust_erpc::framed_transport::BasicFramedTransport;
use rust_erpc::request::{MessageType, Request, RequestResponseError, Response};

fn compare_result_data(expected: &[u8], actual: &[u8]) {
    assert_eq!(
        expected.len(),
        actual.len(),
        "Result data don't have the same length."
    );
    assert!(
        expected.iter().zip(actual.iter()).all(|(e, a)| e == a),
        "Result data are not equal."
    );
}

#[test]
fn send_receive() -> Result<(), RequestResponseError<CursorError>> {
    let buffer = vec![0u8; (4 + 0) + (4 + 16) + (4 + 65535)];
    let data16 = {
        let mut data = [0u8; 16];
        for (index, item) in data.iter_mut().enumerate() {
            *item = (index & 0xff) as u8;
        }
        data
    };

    let buffer = {
        let cursor = SliceCursor::new(buffer);
        let mut transport = BasicFramedTransport::new(cursor);

        let request = Request::new(1u32, 2u32, 0u32, false);
        request.send_request(
            &mut transport,
            vec![0u8; 256],
            BasicCodecFactory::new(),
            |mut codec| {
                let written = codec.write_binary(&data16);
                (codec, written)
            },
        )?;

        let response = Response::new(4u32, 5u32, 0u32, false);
        response.send_response(
            &mut transport,
            vec![0u8; 256],
            BasicCodecFactory::new(),
            |mut codec| {
                let written = codec.write_binary(&data16);
                (codec, written)
            },
        )?;

        let cursor = transport.release();
        assert!(cursor.get_position() > 0);
        cursor.release()
    };

    {
        let cursor = SliceCursor::new(buffer);
        let mut transport = BasicFramedTransport::new(cursor);

        let (request, mut codec) = Request::receive_request(
            &mut transport,
            vec![0u8; 256],
            BasicCodecFactory::new(),
        )?;
        assert_eq!(request.service, 1u32);
        assert_eq!(request.request, 2u32);
        assert_eq!(request.sequence, 0u32);
        assert_eq!(request.is_oneway, false);

        let mut data_buffer = vec![0u8; 16];
        let n = codec.read_binary(&mut data_buffer)?;
        compare_result_data(&data16, &data_buffer[..n]);

        let (response, mut codec) = Response::receive_response(
            &mut transport,
            vec![0u8; 256],
            BasicCodecFactory::new(),
        )?;
        assert_eq!(response.service, 4u32);
        assert_eq!(response.request, 5u32);
        assert_eq!(response.sequence, 0u32);
        assert_eq!(response.is_notification, false);

        let mut data_buffer = vec![0u8; 16];
        let n = codec.read_binary(&mut data_buffer)?;
        compare_result_data(&data16, &data_buffer[..n]);
    }

    Ok(())
}

#[test]
fn header_round_trip_truncates_wide_ids() -> Result<(), CodecError> {
    // Service and request ids above 255 keep only their low byte on the wire.
    let header = MessageHeader {
        message_type: MessageType::ReplyMessage,
        service: 300,
        request: 0x1234,
        sequence: u32::MAX,
    };
    let cursor = SliceCursor::new(vec![0u8; 8]);
    let mut codec = BasicCodec::new(cursor);
    codec.start_write_message(&header)?;
    let buffer = codec.detach().release();

    let cursor = SliceCursor::new(buffer);
    let mut codec = BasicCodec::new(cursor);
    let read_back = codec.start_read_message()?;
    assert_eq!(read_back.message_type, MessageType::ReplyMessage);
    assert_eq!(read_back.service, 300 & 0xff);
    assert_eq!(read_back.request, 0x1234 & 0xff);
    assert_eq!(read_back.sequence, u32::MAX);
    Ok(())
}

#[test]
fn header_wire_bytes_pack_version_ids_and_type() -> Result<(), CodecError> {
    let header = MessageHeader {
        message_type: MessageType::OnewayMessage,
        service: 0xAB,
        request: 0xCD,
        sequence: 0x11223344,
    };
    let cursor = SliceCursor::new(vec![0u8; 8]);
    let mut codec = BasicCodec::new(cursor);
    codec.start_write_message(&header)?;
    let buffer = codec.detach().release();
    // (1 << 24) | (0xAB << 16) | (0xCD << 8) | 1, little-endian, then the
    // sequence number.
    assert_eq!(buffer, vec![0x01, 0xCD, 0xAB, 0x01, 0x44, 0x33, 0x22, 0x11]);
    Ok(())
}

#[test]
fn malformed_message_type_fails_decode() -> Result<(), CodecError> {
    let cursor = SliceCursor::new(vec![0u8; 8]);
    let mut codec = BasicCodec::new(cursor);
    // A header word whose low byte is 99 names no message type.
    codec.write_u32((1 << 24) | 99)?;
    codec.write_u32(0)?;
    let buffer = codec.detach().release();

    let cursor = SliceCursor::new(buffer);
    let mut codec = BasicCodec::new(cursor);
    assert_eq!(
        codec.start_read_message(),
        Err(CodecError::InvalidMessageType)
    );
    Ok(())
}

#[test]
fn reply_frame_fails_receive_request() -> Result<(), RequestResponseError<CursorError>> {
    let buffer = {
        let cursor = SliceCursor::new(vec![0u8; 64]);
        let mut transport = BasicFramedTransport::new(cursor);
        let response = Response::new(1, 2, 3, false);
        response.send_response(
            &mut transport,
            vec![0u8; 32],
            BasicCodecFactory::new(),
            |codec| (codec, Ok(())),
        )?;
        transport.release().release()
    };
    let cursor = SliceCursor::new(buffer);
    let mut transport = BasicFramedTransport::new(cursor);
    let result = Request::receive_request(&mut transport, vec![0u8; 32], BasicCodecFactory::new());
    assert!(matches!(result, Err(RequestResponseError::InvalidRequest)));
    Ok(())
}

#[test]
fn request_frame_fails_receive_response() -> Result<(), RequestResponseError<CursorError>> {
    let buffer = {
        let cursor = SliceCursor::new(vec![0u8; 64]);
        let mut transport = BasicFramedTransport::new(cursor);
        let request = Request::new(1, 2, 3, true);
        request.send_request(
            &mut transport,
            vec![0u8; 32],
            BasicCodecFactory::new(),
            |codec| (codec, Ok(())),
        )?;
        transport.release().release()
    };
    let cursor = SliceCursor::new(buffer);
    let mut transport = BasicFramedTransport::new(cursor);
    let result =
        Response::receive_response(&mut transport, vec![0u8; 32], BasicCodecFactory::new());
    assert!(matches!(result, Err(RequestResponseError::InvalidResponse)));
    Ok(())
}

#[test]
fn oneway_flag_travels_in_the_message_type() -> Result<(), RequestResponseError<CursorError>> {
    let buffer = {
        let cursor = SliceCursor::new(vec![0u8; 64]);
        let mut transport = BasicFramedTransport::new(cursor);
        let request = Request::new(7, 8, 9, true);
        request.send_request(
            &mut transport,
            vec![0u8; 32],
            BasicCodecFactory::new(),
            |codec| (codec, Ok(())),
        )?;
        transport.release().release()
    };
    let cursor = SliceCursor::new(buffer);
    let mut transport = BasicFramedTransport::new(cursor);
    let (request, _codec) =
        Request::receive_request(&mut transport, vec![0u8; 32], BasicCodecFactory::new())?;
    assert_eq!(request.service, 7);
    assert_eq!(request.request, 8);
    assert_eq!(request.sequence, 9);
    assert_eq!(request.is_oneway, true);
    Ok(())
}

#[test]
fn notification_flag_travels_in_the_message_type() -> Result<(), RequestResponseError<CursorError>>
{
    let buffer = {
        let cursor = SliceCursor::new(vec![0u8; 64]);
        let mut transport = BasicFramedTransport::new(cursor);
        let response = Response::new(7, 8, 9, true);
        response.send_response(
            &mut transport,
            vec![0u8; 32],
            BasicCodecFactory::new(),
            |codec| (codec, Ok(())),
        )?;
        transport.release().release()
    };
    let cursor = SliceCursor::new(buffer);
    let mut transport = BasicFramedTransport::new(cursor);
    let (response, _codec) =
        Response::receive_response(&mut transport, vec![0u8; 32], BasicCodecFactory::new())?;
    assert_eq!(response.is_notification, true);
    Ok(())
}
