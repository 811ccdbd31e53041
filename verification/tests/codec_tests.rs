use rust_erpc::codec::{BasicCodec, CodecError, MessageHeader};
use rust_erpc::cursor::SliceCursor;
use rust_erpc::request::MessageType;

#[test]
fn basic_codec_read_write() -> Result<(), CodecError> {
    let buffer = vec![0u8; 256];
    let buffer = {
        let cursor = SliceCursor::new(buffer);
        let mut codec = BasicCodec::new(cursor);
        codec.write_i8(0)?;
        codec.write_i8(127)?;
        codec.write_i8(-128)?;
        codec.write_u8(0)?;
        codec.write_u8(1)?;
        codec.write_u8(255)?;

        codec.write_u32(0xdeadbeef)?;

        codec.write_u32(0f32.to_bits())?;
        codec.write_u32((-1f32).to_bits())?;
        codec.write_u32(1f32.to_bits())?;
        codec.write_u32(0.5f32.to_bits())?;
        codec.write_u32((-0.25f32).to_bits())?;
        codec.write_u32(core::f32::MIN.to_bits())?;
        codec.write_u32((-core::f32::MIN).to_bits())?;
        codec.write_u32(core::f32::MAX.to_bits())?;
        codec.write_u32((-core::f32::MAX).to_bits())?;
        codec.write_u32(core::f32::NAN.to_bits())?;
        codec.write_u32(core::f32::INFINITY.to_bits())?;
        codec.write_u32(core::f32::NEG_INFINITY.to_bits())?;

        codec.write_str("HogeFugaPiyo\u{f8ff}\u{fc}\u{e7}\u{a3}")?;
        codec.write_binary(&[0xdeu8, 0xad, 0xbe, 0xef, 0xca, 0xfe, 0x00])?;

        let message_header = MessageHeader {
            message_type: MessageType::NotificationMessage,
            service: 0xfe,
            request: 0xca,
            sequence: 0xdeadbeefu32,
        };
        codec.start_write_message(&message_header)?;
        codec.detach().release()
    };
    {
        let cursor = SliceCursor::new(buffer);
        let mut codec = BasicCodec::new(cursor);
        assert_eq!(codec.read_i8()?, 0i8);
        assert_eq!(codec.read_i8()?, 127i8);
        assert_eq!(codec.read_i8()?, -128i8);
        assert_eq!(codec.read_u8()?, 0u8);
        assert_eq!(codec.read_u8()?, 1u8);
        assert_eq!(codec.read_u8()?, 255u8);

        assert_eq!(codec.read_u32()?, 0xdeadbeef);

        assert_eq!(f32::from_bits(codec.read_u32()?), 0f32);
        assert_eq!(f32::from_bits(codec.read_u32()?), -1f32);
        assert_eq!(f32::from_bits(codec.read_u32()?), 1f32);
        assert_eq!(f32::from_bits(codec.read_u32()?), 0.5f32);
        assert_eq!(f32::from_bits(codec.read_u32()?), -0.25f32);
        assert_eq!(f32::from_bits(codec.read_u32()?), core::f32::MIN);
        assert_eq!(f32::from_bits(codec.read_u32()?), -core::f32::MIN);
        assert_eq!(f32::from_bits(codec.read_u32()?), core::f32::MAX);
        assert_eq!(f32::from_bits(codec.read_u32()?), -core::f32::MAX);
        assert!(f32::from_bits(codec.read_u32()?).is_nan());
        assert_eq!(f32::from_bits(codec.read_u32()?), core::f32::INFINITY);
        assert_eq!(f32::from_bits(codec.read_u32()?), core::f32::NEG_INFINITY);

        let mut binary_buffer = vec![0u8; 256];
        assert_eq!(
            codec.read_str(&mut binary_buffer)?,
            "HogeFugaPiyo\u{f8ff}\u{fc}\u{e7}\u{a3}"
        );
        let n = codec.read_binary(&mut binary_buffer)?;
        assert_eq!(
            &binary_buffer[..n],
            &[0xdeu8, 0xad, 0xbe, 0xef, 0xca, 0xfe, 0x00]
        );

        let message_header = codec.start_read_message()?;
        assert_eq!(
            message_header.message_type,
            MessageType::NotificationMessage
        );
        assert_eq!(message_header.service, 0xfeu32);
        assert_eq!(message_header.request, 0xcau32);
        assert_eq!(message_header.sequence, 0xdeadbeefu32);
    }
    Ok(())
}

#[test]
fn scalar_extremes_round_trip() -> Result<(), CodecError> {
    let buffer = vec![0u8; 256];
    let cursor = SliceCursor::new(buffer);
    let mut codec = BasicCodec::new(cursor);
    codec.write_u16(0)?;
    codec.write_u16(u16::MAX)?;
    codec.write_i16(i16::MIN)?;
    codec.write_i16(i16::MAX)?;
    codec.write_i16(-1)?;
    codec.write_i32(i32::MIN)?;
    codec.write_i32(i32::MAX)?;
    codec.write_u64(u64::MAX)?;
    codec.write_i64(i64::MIN)?;
    codec.write_i64(-1)?;
    codec.write_ptr(usize::MAX)?;
    codec.write_ptr(0)?;
    codec.write_bool(true)?;
    codec.write_bool(false)?;
    let buffer = codec.detach().release();

    let cursor = SliceCursor::new(buffer);
    let mut codec = BasicCodec::new(cursor);
    assert_eq!(codec.read_u16()?, 0);
    assert_eq!(codec.read_u16()?, u16::MAX);
    assert_eq!(codec.read_i16()?, i16::MIN);
    assert_eq!(codec.read_i16()?, i16::MAX);
    assert_eq!(codec.read_i16()?, -1);
    assert_eq!(codec.read_i32()?, i32::MIN);
    assert_eq!(codec.read_i32()?, i32::MAX);
    assert_eq!(codec.read_u64()?, u64::MAX);
    assert_eq!(codec.read_i64()?, i64::MIN);
    assert_eq!(codec.read_i64()?, -1);
    assert_eq!(codec.read_ptr()?, usize::MAX);
    assert_eq!(codec.read_ptr()?, 0);
    assert_eq!(codec.read_bool()?, true);
    assert_eq!(codec.read_bool()?, false);
    Ok(())
}

#[test]
fn scalar_wire_bytes_are_little_endian() -> Result<(), CodecError> {
    let cursor = SliceCursor::new(vec![0u8; 16]);
    let mut codec = BasicCodec::new(cursor);
    codec.write_u32(0x0403_0201)?;
    codec.write_u16(0x0605)?;
    let buffer = codec.detach().release();
    assert_eq!(&buffer[..6], &[0x01, 0x02, 0x03, 0x04, 0x05, 0x06]);
    Ok(())
}

#[test]
fn binary_with_embedded_zeros_round_trips() -> Result<(), CodecError> {
    let data = [0u8, 1, 0, 2, 0, 0, 3];
    let cursor = SliceCursor::new(vec![0u8; 64]);
    let mut codec = BasicCodec::new(cursor);
    codec.write_binary(&data)?;
    let buffer = codec.detach().release();
    // u32 length prefix, little-endian, then the raw bytes.
    assert_eq!(&buffer[..4], &[7, 0, 0, 0]);

    let cursor = SliceCursor::new(buffer);
    let mut codec = BasicCodec::new(cursor);
    let mut scratch = vec![0u8; 64];
    let n = codec.read_binary(&mut scratch)?;
    assert_eq!(&scratch[..n], &data);
    Ok(())
}

#[test]
fn multibyte_string_round_trips() -> Result<(), CodecError> {
    let text = "h\u{e9}llo \u{1f680} \u{4e16}\u{754c}";
    let cursor = SliceCursor::new(vec![0u8; 64]);
    let mut codec = BasicCodec::new(cursor);
    codec.write_str(text)?;
    let buffer = codec.detach().release();

    let cursor = SliceCursor::new(buffer);
    let mut codec = BasicCodec::new(cursor);
    let mut scratch = vec![0u8; 64];
    assert_eq!(codec.read_str(&mut scratch)?, text);
    Ok(())
}

#[test]
fn invalid_utf8_fails_read_str() -> Result<(), CodecError> {
    let cursor = SliceCursor::new(vec![0u8; 16]);
    let mut codec = BasicCodec::new(cursor);
    codec.write_binary(&[0xff, 0xfe, 0x41])?;
    let buffer = codec.detach().release();

    let cursor = SliceCursor::new(buffer);
    let mut codec = BasicCodec::new(cursor);
    let mut scratch = vec![0u8; 16];
    assert_eq!(codec.read_str(&mut scratch), Err(CodecError::Utf8Error));
    Ok(())
}

#[test]
fn list_union_null_flag_round_trip() -> Result<(), CodecError> {
    let cursor = SliceCursor::new(vec![0u8; 32]);
    let mut codec = BasicCodec::new(cursor);
    codec.start_write_list(3)?;
    codec.start_write_union(-7)?;
    codec.write_null_flag(true)?;
    codec.write_null_flag(false)?;
    let buffer = codec.detach().release();

    let cursor = SliceCursor::new(buffer);
    let mut codec = BasicCodec::new(cursor);
    assert_eq!(codec.start_read_list()?, 3);
    assert_eq!(codec.start_read_union()?, -7);
    assert_eq!(codec.read_null_flag()?, true);
    assert_eq!(codec.read_null_flag()?, false);
    Ok(())
}

#[test]
fn callback_present_round_trips() -> Result<(), CodecError> {
    let callback_ids: [usize; 3] = [10, 20, 30];
    let cursor = SliceCursor::new(vec![0u8; 8]);
    let mut codec = BasicCodec::new(cursor);
    codec.write_callback(&callback_ids, 20)?;
    let buffer = codec.detach().release();
    // Index 1, as one byte.
    assert_eq!(buffer[0], 1);

    let cursor = SliceCursor::new(buffer);
    let mut codec = BasicCodec::new(cursor);
    assert_eq!(codec.read_callback(&callback_ids)?, 20);
    Ok(())
}

#[test]
fn callback_absent_fails_write() {
    let callback_ids: [usize; 3] = [10, 20, 30];
    let cursor = SliceCursor::new(vec![0u8; 8]);
    let mut codec = BasicCodec::new(cursor);
    assert_eq!(
        codec.write_callback(&callback_ids, 99),
        Err(CodecError::InvalidCallback)
    );
    // Nothing was written.
    let cursor = codec.detach();
    assert_eq!(cursor.get_position(), 0);
}

#[test]
fn callback_index_out_of_table_fails_read() -> Result<(), CodecError> {
    let callback_ids: [usize; 3] = [10, 20, 30];
    let cursor = SliceCursor::new(vec![0u8; 8]);
    let mut codec = BasicCodec::new(cursor);
    codec.write_u8(7)?;
    let buffer = codec.detach().release();

    let cursor = SliceCursor::new(buffer);
    let mut codec = BasicCodec::new(cursor);
    assert_eq!(
        codec.read_callback(&callback_ids),
        Err(CodecError::InvalidCallback)
    );
    Ok(())
}

#[test]
fn write_past_end_fails_and_commits_nothing() {
    let cursor = SliceCursor::new(vec![0u8; 3]);
    let mut codec = BasicCodec::new(cursor);
    assert_eq!(
        codec.write_u32(0xdeadbeef),
        Err(CodecError::Cursor(rust_erpc::cursor::CursorError::InsufficientBuffer))
    );
    let cursor = codec.detach();
    assert_eq!(cursor.get_position(), 0);
}

#[test]
fn truncated_stream_zero_extends_scalar_reads() -> Result<(), CodecError> {
    let cursor = SliceCursor::new(vec![0xaa, 0xbb]);
    let mut codec = BasicCodec::new(cursor);
    // Two real bytes, two zero-extended.
    assert_eq!(codec.read_u32()?, 0x0000bbaa);
    Ok(())
}

#[test]
fn truncated_stream_shortens_read_binary() -> Result<(), CodecError> {
    // Length prefix says ten bytes, but only two follow.
    let cursor = SliceCursor::new(vec![10, 0, 0, 0, 1, 2]);
    let mut codec = BasicCodec::new(cursor);
    let mut scratch = vec![0u8; 16];
    let n = codec.read_binary(&mut scratch)?;
    assert_eq!(n, 2);
    assert_eq!(&scratch[..n], &[1, 2]);
    Ok(())
}
