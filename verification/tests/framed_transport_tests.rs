use rust_erpc::cursor::{CursorError, SliceCursor};
use rust_erpc::framed_transport::{
    checksum_crc16, BasicFramedTransport, FramedTransport, FramedTransportError,
};

fn compare_result_data(expected: &[u8], actual: &[u8]) {
    assert_eq!(
        expected.len(),
        actual.len(),
        "Result data don't have the same length."
    );
    assert!(
        expected.iter().zip(actual.iter()).all(|(e, a)| e == a),
        "Result data are not equal."
    );
}

#[test]
fn basic_framed_transport() -> Result<(), FramedTransportError<CursorError>> {
    let buffer = vec![0u8; (4 + 0) + (4 + 16) + (4 + 65535)];
    let data16 = {
        let mut data = [0u8; 16];
        for (index, item) in data.iter_mut().enumerate() {
            *item = (index & 0xff) as u8;
        }
        data
    };
    let data65535 = {
        let mut data = vec![0u8; 65535];
        for (index, item) in data.iter_mut().enumerate() {
            *item = 255u8 - (index & 0xff) as u8;
        }
        data
    };

    let buffer = {
        let cursor = SliceCursor::new(buffer);
        let mut transport = BasicFramedTransport::new(cursor);

        transport.send(&[])?;
        transport.send(&data16)?;
        transport.send(&data65535)?;

        let large_data = vec![0u8; 65536];
        assert_eq!(
            transport.send(&large_data),
            Err(FramedTransportError::DataTooLong),
            "Data larger than 65535 bytes did not fail to send."
        );

        assert_eq!(
            transport.send(&[]),
            Err(FramedTransportError::UnderlyingError(
                CursorError::InsufficientBuffer
            )),
            "Send data beyond the underlying buffer size did not fail."
        );
        transport.release().release()
    };
    let buffer = {
        let cursor = SliceCursor::new(buffer);
        let mut transport = BasicFramedTransport::new(cursor);
        let mut receive_buffer = vec![0u8; 65535];
        let n = transport.receive(&mut receive_buffer)?;
        compare_result_data(&[], &receive_buffer[..n]);
        let n = transport.receive(&mut receive_buffer)?;
        compare_result_data(&data16, &receive_buffer[..n]);
        let n = transport.receive(&mut receive_buffer)?;
        compare_result_data(&data65535, &receive_buffer[..n]);
        transport.release().release()
    };
    {
        let cursor = SliceCursor::new(buffer.clone());
        let mut transport = BasicFramedTransport::new(cursor);
        let mut receive_buffer = vec![0u8; 65534];
        let n = transport.receive(&mut receive_buffer)?;
        compare_result_data(&[], &receive_buffer[..n]);
        let n = transport.receive(&mut receive_buffer)?;
        compare_result_data(&data16, &receive_buffer[..n]);
        assert_eq!(
            transport.receive(&mut receive_buffer),
            Err(FramedTransportError::BufferTooShort)
        );
    }
    {
        // Modify the content of the third frame.
        let mut buffer = buffer;
        buffer[4 + 0 + 4 + 16 + 4 + 1] = !buffer[4 + 0 + 4 + 16 + 4 + 1];
        let cursor = SliceCursor::new(buffer);
        let mut transport = BasicFramedTransport::new(cursor);
        let mut receive_buffer = vec![0u8; 65535];
        transport.receive(&mut receive_buffer)?;
        transport.receive(&mut receive_buffer)?;
        assert_eq!(
            transport.receive(&mut receive_buffer),
            Err(FramedTransportError::ChecksumError)
        );
    }
    Ok(())
}

#[test]
fn crc16_of_empty_is_the_initial_value() {
    assert_eq!(checksum_crc16(&[]), 0xEF4A);
}

#[test]
fn empty_frame_wire_bytes() -> Result<(), FramedTransportError<CursorError>> {
    let cursor = SliceCursor::new(vec![0u8; 4]);
    let mut transport = BasicFramedTransport::new(cursor);
    transport.send(&[])?;
    let buffer = transport.release().release();
    // Zero length, then the checksum of nothing: 0xEF4A, little-endian.
    assert_eq!(buffer, vec![0x00, 0x00, 0x4A, 0xEF]);
    Ok(())
}

#[test]
fn frame_checksum_covers_payload_only() -> Result<(), FramedTransportError<CursorError>> {
    let payload = [5u8, 6, 7];
    let cursor = SliceCursor::new(vec![0u8; 16]);
    let mut transport = BasicFramedTransport::new(cursor);
    transport.send(&payload)?;
    let buffer = transport.release().release();
    assert_eq!(&buffer[..2], &[3, 0]);
    let crc = checksum_crc16(&payload);
    assert_eq!(&buffer[2..4], &[(crc & 0xff) as u8, (crc >> 8) as u8]);
    assert_eq!(&buffer[4..7], &payload);
    Ok(())
}
