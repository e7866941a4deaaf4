use rust_tcp_vpn::wire::{
    decode_frame, encode_data_frame, encode_exit_frame, get_u32, put_bytes, put_u32, put_u64,
    Decoded, WireError, DATA_HEADER_LEN, EXIT_FRAME_LEN, MAX_PAYLOAD,
};

fn data_frame(payload: &[u8], counter: u64) -> Vec<u8> {
    let mut out = Vec::new();
    encode_data_frame(&mut out, payload, counter).unwrap();
    out
}

#[test]
fn put_u32_writes_network_byte_order() {
    let mut out = vec![0xAA];
    put_u32(&mut out, 0x1234_5678);
    assert_eq!(out, vec![0xAA, 0x12, 0x34, 0x56, 0x78]);
}

#[test]
fn put_u64_writes_network_byte_order() {
    let mut out = Vec::new();
    put_u64(&mut out, 0x0102_0304_0506_0708);
    assert_eq!(out, vec![1, 2, 3, 4, 5, 6, 7, 8]);
    assert_eq!(out, 0x0102_0304_0506_0708u64.to_be_bytes().to_vec());
}

#[test]
fn put_u32_agrees_with_std() {
    for v in [0u32, 1, 255, 256, 0xFFFF_FF00, 0x8000_0000, u32::MAX, 0xDEAD_BEEF] {
        let mut out = Vec::new();
        put_u32(&mut out, v);
        assert_eq!(out, v.to_be_bytes().to_vec());
        assert_eq!(get_u32(&out, 0), v);
    }
}

#[test]
fn get_u32_reads_at_an_offset() {
    let buf = [9u8, 9, 0xDE, 0xAD, 0xBE, 0xEF, 9];
    assert_eq!(get_u32(&buf, 2), 0xDEAD_BEEF);
}

#[test]
fn put_bytes_appends() {
    let mut out = vec![1u8, 2];
    put_bytes(&mut out, &[3, 4, 5]);
    assert_eq!(out, vec![1, 2, 3, 4, 5]);
    put_bytes(&mut out, &[]);
    assert_eq!(out, vec![1, 2, 3, 4, 5]);
}

#[test]
fn exit_frame_bytes() {
    let mut out = Vec::new();
    encode_exit_frame(&mut out, 0);
    assert_eq!(out, vec![0, 0, 0, 2, 0, 0, 0, 0]);
    assert_eq!(out.len(), EXIT_FRAME_LEN);
}

#[test]
fn data_frame_bytes() {
    let frame = data_frame(&[0xCA, 0xFE, 0x42], 0x0102_0304_0506_0708);
    assert_eq!(
        frame,
        vec![0, 0, 0, 1, 0, 0, 0, 3, 1, 2, 3, 4, 5, 6, 7, 8, 0xCA, 0xFE, 0x42]
    );
}

#[test]
fn data_frame_round_trip() {
    let payload: Vec<u8> = (0..200u32).map(|i| (i * 7 % 251) as u8).collect();
    let frame = data_frame(&payload, 77);
    assert_eq!(frame.len(), DATA_HEADER_LEN + payload.len());
    assert_eq!(decode_frame(&frame), Ok(Decoded::Data { payload }));
}

#[test]
fn data_frame_round_trip_ignores_the_counter() {
    let payload = vec![5u8; 20];
    let one = decode_frame(&data_frame(&payload, 1));
    let other = decode_frame(&data_frame(&payload, u64::MAX));
    assert_eq!(one, other);
    assert_eq!(one, Ok(Decoded::Data { payload }));
}

#[test]
fn empty_payload_round_trip() {
    let frame = data_frame(&[], 3);
    assert_eq!(frame.len(), 16);
    assert_eq!(decode_frame(&frame), Ok(Decoded::Data { payload: vec![] }));
}

#[test]
fn largest_payload_round_trip() {
    let payload = vec![0x5Au8; MAX_PAYLOAD];
    let frame = data_frame(&payload, 9);
    assert_eq!(frame.len(), 16 + 4096);
    assert_eq!(decode_frame(&frame), Ok(Decoded::Data { payload }));
}

#[test]
fn oversized_payload_is_not_encoded() {
    let payload = vec![0u8; MAX_PAYLOAD + 1];
    let mut out = vec![7u8];
    assert_eq!(
        encode_data_frame(&mut out, &payload, 1),
        Err(WireError::Oversized(4097))
    );
    assert_eq!(out, vec![7u8]);
}

#[test]
fn oversized_length_is_not_decoded() {
    let mut frame = vec![0, 0, 0, 1];
    put_u32(&mut frame, 4097);
    put_u64(&mut frame, 0);
    assert_eq!(decode_frame(&frame), Err(WireError::Oversized(4097)));
    let mut frame = vec![0, 0, 0, 1];
    put_u32(&mut frame, u32::MAX);
    put_u64(&mut frame, 0);
    assert_eq!(
        decode_frame(&frame),
        Err(WireError::Oversized(u32::MAX as usize))
    );
}

#[test]
fn exit_frame_round_trip() {
    let mut frame = Vec::new();
    encode_exit_frame(&mut frame, 0);
    assert_eq!(decode_frame(&frame), Ok(Decoded::Exit));
}

#[test]
fn unknown_exit_reason_is_fatal() {
    for reason in [1u32, 2, 255, u32::MAX] {
        let mut frame = Vec::new();
        encode_exit_frame(&mut frame, reason);
        assert_eq!(
            decode_frame(&frame),
            Err(WireError::UnknownExitReason(reason))
        );
    }
}

#[test]
fn unknown_frame_type_is_fatal() {
    assert_eq!(
        decode_frame(&[0, 0, 0, 0]),
        Err(WireError::UnknownFrameType(0))
    );
    assert_eq!(
        decode_frame(&[0, 0, 0, 3, 1, 2, 3, 4, 5, 6, 7, 8]),
        Err(WireError::UnknownFrameType(3))
    );
    assert_eq!(
        decode_frame(&[1, 0, 0, 0]),
        Err(WireError::UnknownFrameType(0x0100_0000))
    );
}

#[test]
fn partial_frames_ask_for_the_rest() {
    assert_eq!(decode_frame(&[]), Ok(Decoded::NeedMore(4)));
    assert_eq!(decode_frame(&[0, 0]), Ok(Decoded::NeedMore(2)));
    let frame = data_frame(&[1, 2, 3, 4, 5], 6);
    assert_eq!(decode_frame(&frame[..4]), Ok(Decoded::NeedMore(12)));
    assert_eq!(decode_frame(&frame[..10]), Ok(Decoded::NeedMore(6)));
    assert_eq!(decode_frame(&frame[..16]), Ok(Decoded::NeedMore(5)));
    assert_eq!(decode_frame(&frame[..20]), Ok(Decoded::NeedMore(1)));
    let mut exit = Vec::new();
    encode_exit_frame(&mut exit, 0);
    assert_eq!(decode_frame(&exit[..4]), Ok(Decoded::NeedMore(4)));
    assert_eq!(decode_frame(&exit[..7]), Ok(Decoded::NeedMore(1)));
}

#[test]
fn every_prefix_of_a_frame_asks_within_the_frame() {
    let frame = data_frame(&[9u8; 33], 1);
    for k in 0..frame.len() {
        match decode_frame(&frame[..k]) {
            Ok(Decoded::NeedMore(n)) => {
                assert!(n > 0);
                assert!(k + n <= frame.len());
            }
            other => panic!("prefix of {} bytes decoded to {:?}", k, other),
        }
    }
}

#[test]
fn bytes_behind_a_frame_are_left_alone() {
    let mut stream = data_frame(&[1, 2, 3], 1);
    stream.extend(data_frame(&[4, 5], 2));
    assert_eq!(
        decode_frame(&stream),
        Ok(Decoded::Data {
            payload: vec![1, 2, 3]
        })
    );
    assert_eq!(
        decode_frame(&stream[19..]),
        Ok(Decoded::Data {
            payload: vec![4, 5]
        })
    );
}
