use mineroute::buffer::{
    var_int_size, write_byte_array, write_string, write_u16, write_u64, write_uuid, write_var_int,
    Buffer,
};
use mineroute::compressor::Compressor;
use mineroute::framing::{FrameCodec, MAX_FRAME_BODY};

fn var_int(value: i32) -> Vec<u8> {
    let mut buf = Vec::new();
    write_var_int(&mut buf, value);
    buf
}

#[test]
fn var_int_known_encodings() {
    assert_eq!(var_int(0), vec![0x00]);
    assert_eq!(var_int(1), vec![0x01]);
    assert_eq!(var_int(127), vec![0x7f]);
    assert_eq!(var_int(128), vec![0x80, 0x01]);
    assert_eq!(var_int(255), vec![0xff, 0x01]);
    assert_eq!(var_int(300), vec![0xac, 0x02]);
    assert_eq!(var_int(25565), vec![0xdd, 0xc7, 0x01]);
    assert_eq!(var_int(2097151), vec![0xff, 0xff, 0x7f]);
    assert_eq!(var_int(i32::MAX), vec![0xff, 0xff, 0xff, 0xff, 0x07]);
    assert_eq!(var_int(-1), vec![0xff, 0xff, 0xff, 0xff, 0x0f]);
    assert_eq!(var_int(i32::MIN), vec![0x80, 0x80, 0x80, 0x80, 0x08]);
}

#[test]
fn var_int_round_trip_and_size() {
    let values = [0, 1, 2, 127, 128, 16383, 16384, 2097151, 2097152, 268435455, 268435456, i32::MAX, -1, -128, i32::MIN];
    for &v in values.iter() {
        let mut bytes = var_int(v);
        assert_eq!(bytes.len(), var_int_size(v));
        assert!((1..=5).contains(&var_int_size(v)));
        bytes.extend_from_slice(&[0xaa, 0xbb]);
        let mut buf = Buffer::new(bytes);
        assert_eq!(buf.read_var_int(), Ok(v));
        assert_eq!(buf.remaining_bytes(), vec![0xaa, 0xbb]);
    }
}

#[test]
fn var_int_sizes() {
    assert_eq!(var_int_size(0), 1);
    assert_eq!(var_int_size(127), 1);
    assert_eq!(var_int_size(128), 2);
    assert_eq!(var_int_size(16384), 3);
    assert_eq!(var_int_size(2097152), 4);
    assert_eq!(var_int_size(268435456), 5);
    assert_eq!(var_int_size(-1), 5);
}

#[test]
fn var_int_fifth_continuation_byte_fails() {
    let mut buf = Buffer::new(vec![0x80, 0x80, 0x80, 0x80, 0x80, 0x01]);
    assert_eq!(buf.read_var_int(), Err(()));
}

#[test]
fn var_int_truncated_fails() {
    let mut buf = Buffer::new(vec![0x80, 0x80]);
    assert_eq!(buf.read_var_int(), Err(()));
    let mut empty = Buffer::new(vec![]);
    assert_eq!(empty.read_var_int(), Err(()));
}

#[test]
fn big_endian_integers() {
    let mut out = Vec::new();
    write_u16(&mut out, 25565);
    write_u64(&mut out, 0x0102030405060708);
    assert_eq!(out, vec![0x63, 0xdd, 1, 2, 3, 4, 5, 6, 7, 8]);
    let mut buf = Buffer::new(out);
    assert_eq!(buf.read_u16(), Ok(25565));
    assert_eq!(buf.read_u64(), Ok(0x0102030405060708));
    assert_eq!(buf.read_u8(), Err(()));
}

#[test]
fn byte_arrays_and_strings() {
    let mut out = Vec::new();
    write_byte_array(&mut out, &[9, 8, 7]);
    write_string(&mut out, "héllo");
    assert_eq!(&out[..4], &[3, 9, 8, 7]);
    assert_eq!(out[4], 6);
    let mut buf = Buffer::new(out);
    assert_eq!(buf.read_byte_array(), Ok(vec![9, 8, 7]));
    assert_eq!(buf.read_string(), Ok("héllo".to_string()));
    assert_eq!(buf.remaining(), 0);
}

#[test]
fn byte_array_longer_than_input_fails() {
    let mut buf = Buffer::new(vec![5, 1, 2]);
    assert_eq!(buf.read_byte_array(), Err(()));
}

#[test]
fn invalid_utf8_string_fails() {
    let mut buf = Buffer::new(vec![2, 0xc3, 0x28]);
    assert_eq!(buf.read_string(), Err(()));
}

#[test]
fn uuid_as_hyphenated_string() {
    let mut out = Vec::new();
    let uuid: u128 = 0x550e8400_e29b_41d4_a716_446655440000;
    write_uuid(&mut out, uuid);
    assert_eq!(out[0], 36);
    assert_eq!(&out[1..], "550e8400-e29b-41d4-a716-446655440000".as_bytes());
    let mut buf = Buffer::new(out);
    assert_eq!(buf.read_uuid(), Ok(uuid));
}

#[test]
fn invalid_uuid_fails() {
    let mut out = Vec::new();
    write_string(&mut out, "not-a-uuid");
    let mut buf = Buffer::new(out);
    assert_eq!(buf.read_uuid(), Err(()));
}

#[test]
fn frame_round_trip() {
    for len in [0usize, 1, 127, 128, 300, 70000] {
        let body: Vec<u8> = (0..len).map(|i| (i % 251) as u8).collect();
        let mut acc = FrameCodec::encode(body.clone()).unwrap();
        acc.extend_from_slice(&[1, 2, 3]);
        assert_eq!(FrameCodec::try_decode(&mut acc), Ok(Some(body)));
        assert_eq!(acc, vec![1, 2, 3]);
    }
}

#[test]
fn frame_of_largest_body() {
    let body = vec![7u8; MAX_FRAME_BODY];
    let mut acc = FrameCodec::encode(body.clone()).unwrap();
    assert_eq!(&acc[..3], &[0xff, 0xff, 0x7f]);
    assert_eq!(FrameCodec::try_decode(&mut acc), Ok(Some(body)));
    assert!(acc.is_empty());
}

#[test]
fn oversized_frame_is_refused() {
    assert_eq!(FrameCodec::encode(vec![0u8; MAX_FRAME_BODY + 1]), Err(()));
}

#[test]
fn incomplete_frame_needs_more() {
    let mut acc = vec![5, 1, 2];
    assert_eq!(FrameCodec::try_decode(&mut acc), Ok(None));
    assert_eq!(acc, vec![5, 1, 2]);
    let mut partial_length = vec![0x80];
    assert_eq!(FrameCodec::try_decode(&mut partial_length), Ok(None));
    let mut empty: Vec<u8> = vec![];
    assert_eq!(FrameCodec::try_decode(&mut empty), Ok(None));
}

#[test]
fn overlong_frame_length_fails() {
    let mut acc = vec![0x80, 0x80, 0x80, 0x01];
    assert_eq!(FrameCodec::try_decode(&mut acc), Err(()));
    assert_eq!(acc, vec![0x80, 0x80, 0x80, 0x01]);
}

#[test]
fn compression_below_threshold_is_plain() {
    let c = Compressor { size_limit: 256 };
    let payload = vec![0x42u8; 100];
    let body = c.encode(payload.clone()).unwrap();
    assert_eq!(body[0], 0);
    assert_eq!(&body[1..], &payload[..]);
    assert_eq!(c.decode(body), Ok(payload));
}

#[test]
fn compression_at_threshold_is_deflated() {
    let c = Compressor { size_limit: 256 };
    let payload: Vec<u8> = (0..1000u32).map(|i| (i % 7) as u8).collect();
    let body = c.encode(payload.clone()).unwrap();
    assert_eq!(&body[..2], &[0xe8, 0x07]);
    assert_eq!(&body[2..], &deflate::deflate_bytes_zlib(&payload)[..]);
    assert_ne!(&body[2..], &payload[..]);
    assert_eq!(c.decode(body), Ok(payload));
    let exact = vec![1u8; 256];
    let body = c.encode(exact.clone()).unwrap();
    assert_eq!(&body[..2], &[0x80, 0x02]);
    assert_eq!(c.decode(body), Ok(exact));
}

#[test]
fn compression_length_mismatch_fails() {
    let c = Compressor { size_limit: 4 };
    let mut body = vec![9u8];
    body.extend_from_slice(&deflate::deflate_bytes_zlib(&[1, 2, 3, 4, 5]));
    assert_eq!(c.decode(body), Err(()));
}

#[test]
fn compression_bad_stream_fails() {
    let c = Compressor { size_limit: 4 };
    assert_eq!(c.decode(vec![5, 1, 2, 3, 4, 5]), Err(()));
}
