//! Byte-level codec behavior: VarInts, strings, positions, and the fixed
//! primitives.
use nullspace::codec::{
    read_bool, read_i16, read_i64, read_string, read_u16, read_uuid, read_varint, write_bool,
    write_i16, write_i64, write_string, write_u16, write_u8, write_uuid, write_varint,
};
use nullspace::connection::VarIntDecoder;
use nullspace::position::Position;
use nullspace::DecodeError;

fn varint_bytes(v: i32) -> Vec<u8> {
    let mut buf = Vec::new();
    write_varint(v, &mut buf);
    buf
}

#[test]
fn varint_known_encodings() {
    assert_eq!(varint_bytes(0), vec![0x00]);
    assert_eq!(varint_bytes(127), vec![0x7F]);
    assert_eq!(varint_bytes(128), vec![0x80, 0x01]);
    assert_eq!(varint_bytes(255), vec![0xFF, 0x01]);
    assert_eq!(varint_bytes(25565), vec![0xDD, 0xC7, 0x01]);
    assert_eq!(varint_bytes(2147483647), vec![0xFF, 0xFF, 0xFF, 0xFF, 0x07]);
    assert_eq!(varint_bytes(-1), vec![0xFF, 0xFF, 0xFF, 0xFF, 0x0F]);
}

#[test]
fn varint_round_trips() {
    for v in [0, 1, 127, 128, 255, 25565, 2097151, 2147483647, -1, -2147483648] {
        let bytes = varint_bytes(v);
        let (decoded, end) = read_varint(&bytes, 0).unwrap();
        assert_eq!(decoded, v);
        assert_eq!(end, bytes.len());
    }
}

#[test]
fn varint_six_continuation_bytes_too_large() {
    let bytes = [0x80u8, 0x80, 0x80, 0x80, 0x80, 0x80];
    assert_eq!(read_varint(&bytes, 0), Err(DecodeError::VarIntTooLarge));
}

#[test]
fn varint_truncated_input_is_eof() {
    let bytes = [0x80u8, 0x80];
    assert_eq!(read_varint(&bytes, 0), Err(DecodeError::UnexpectedEof));
}

#[test]
fn varint_decoder_feeds_byte_by_byte() {
    let mut dec = VarIntDecoder::new();
    assert_eq!(dec.feed(0xDD), None);
    assert_eq!(dec.feed(0xC7), None);
    assert_eq!(dec.feed(0x01), Some(Ok(25565)));

    let mut dec = VarIntDecoder::new();
    for _ in 0..5 {
        assert_eq!(dec.feed(0x80), None);
    }
    assert_eq!(dec.feed(0x80), Some(Err(DecodeError::VarIntTooLarge)));
}

#[test]
fn string_round_trips() {
    for s in ["", "hello", "h\u{e9}llo"] {
        let mut buf = Vec::new();
        write_string(s, &mut buf);
        let (decoded, end) = read_string(&buf, 0).unwrap();
        assert_eq!(decoded, s);
        assert_eq!(end, buf.len());
    }
}

#[test]
fn string_length_32768_is_invalid() {
    let mut buf = Vec::new();
    write_varint(32768, &mut buf);
    // The length prefix alone decides: no body is needed.
    assert_eq!(read_string(&buf, 0), Err(DecodeError::InvalidLength));
}

#[test]
fn string_length_minus_one_is_invalid() {
    let mut buf = Vec::new();
    write_varint(-1, &mut buf);
    assert_eq!(read_string(&buf, 0), Err(DecodeError::InvalidLength));
}

#[test]
fn string_limit_32767_is_accepted() {
    let body = "a".repeat(32767);
    let mut buf = Vec::new();
    write_string(&body, &mut buf);
    let (decoded, _) = read_string(&buf, 0).unwrap();
    assert_eq!(decoded, body);
}

#[test]
fn string_invalid_utf8_is_rejected() {
    let buf = vec![0x02u8, 0xFF, 0xFE];
    assert_eq!(read_string(&buf, 0), Err(DecodeError::InvalidUtf8));
}

#[test]
fn position_round_trips_origin() {
    let p = Position::new(0, 0, 0);
    assert_eq!(Position::from_u64(p.to_u64()), p);
    assert_eq!(p.to_u64(), 0);
}

#[test]
fn position_round_trips_boundary_values() {
    let p = Position::new(18357644, 831, -20882616);
    let q = Position::from_u64(p.to_u64());
    assert_eq!(q.x, 18357644);
    assert_eq!(q.y, 831);
    assert_eq!(q.z, -20882616);
}

#[test]
fn position_round_trips_all_negative() {
    let p = Position::new(-1, -1, -1);
    let q = Position::from_u64(p.to_u64());
    assert_eq!(q.x, -1);
    assert_eq!(q.y, -1);
    assert_eq!(q.z, -1);
}

#[test]
fn position_known_packing() {
    // Each field masked to its width and placed at its bit offset.
    let p = Position::new(18357644, 831, -20882616);
    let expected = ((18357644u64 & 0x3FF_FFFF) << 38)
        | (((-20882616i64 as u64) & 0x3FF_FFFF) << 12)
        | (831u64 & 0xFFF);
    assert_eq!(p.to_u64(), expected);
}

#[test]
fn fixed_width_round_trips() {
    let mut buf = Vec::new();
    write_u16(0xABCD, &mut buf);
    assert_eq!(buf, vec![0xAB, 0xCD]);
    assert_eq!(read_u16(&buf, 0).unwrap(), (0xABCD, 2));

    let mut buf = Vec::new();
    write_i16(-2, &mut buf);
    assert_eq!(read_i16(&buf, 0).unwrap(), (-2, 2));

    let mut buf = Vec::new();
    write_i64(-1234567890123, &mut buf);
    assert_eq!(read_i64(&buf, 0).unwrap(), (-1234567890123, 8));

    let mut buf = Vec::new();
    write_bool(true, &mut buf);
    write_bool(false, &mut buf);
    assert_eq!(buf, vec![0x01, 0x00]);
    assert_eq!(read_bool(&buf, 0).unwrap(), (true, 1));
    assert_eq!(read_bool(&buf, 1).unwrap(), (false, 2));

    // Any nonzero byte reads as true.
    assert_eq!(read_bool(&[0x2A], 0).unwrap(), (true, 1));

    let uuid: u128 = 0x0123_4567_89AB_CDEF_0011_2233_4455_6677;
    let mut buf = Vec::new();
    write_uuid(uuid, &mut buf);
    assert_eq!(buf.len(), 16);
    assert_eq!(read_uuid(&buf, 0).unwrap(), (uuid, 16));

    let mut buf = Vec::new();
    write_u8(0x7E, &mut buf);
    assert_eq!(buf, vec![0x7E]);
}
