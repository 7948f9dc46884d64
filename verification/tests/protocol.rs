//! The wire protocol.

use bytes::BytesMut;
use tc::config;
use tc::invite::invite_url;
use tc::protocol::{
    decode_udp_hello, encode_tcp_frame, encode_udp_hello, extract_frames, try_decode_frame,
    FrameError, VoicePacket,
};
use tc::random::generate_channel_id;

#[test]
fn udp_hello_roundtrip() {
    let token: u64 = 0xDEAD_BEEF_CAFE_BABE;
    let encoded = encode_udp_hello(token);
    assert_eq!(encoded.len(), 12);
    assert_eq!(decode_udp_hello(&encoded), Some(token));
}

#[test]
fn udp_hello_rejects_wrong_size() {
    assert_eq!(decode_udp_hello(&[0u8; 5]), None);
    assert_eq!(decode_udp_hello(&[0u8; 13]), None);
    assert_eq!(decode_udp_hello(&[]), None);
}

#[test]
fn udp_hello_rejects_nonzero_seq() {
    let mut data = encode_udp_hello(42);
    data[0] = 1;
    assert_eq!(decode_udp_hello(&data), None);
}

#[test]
fn voice_packet_roundtrip() {
    let pkt = VoicePacket {
        sequence: 42,
        channel_id: "abc12".into(),
        opus_data: vec![1, 2, 3, 4, 5],
    };
    let encoded = pkt.encode();
    let decoded = VoicePacket::decode(&encoded).unwrap();
    assert_eq!(decoded.sequence, 42);
    assert_eq!(decoded.channel_id, "abc12");
    assert_eq!(decoded.opus_data, vec![1, 2, 3, 4, 5]);
}

#[test]
fn voice_packet_parse_voice_data() {
    let pkt = VoicePacket {
        sequence: 7,
        channel_id: "ch".into(),
        opus_data: vec![10, 20, 30],
    };
    let encoded = pkt.encode();
    let (seq, payload) = VoicePacket::parse_voice_data(&encoded).unwrap();
    assert_eq!(seq, 7);
    assert_eq!(payload, &[10, 20, 30]);
}

#[test]
fn voice_packet_parse_channel_id() {
    let pkt = VoicePacket {
        sequence: 1,
        channel_id: "room1".into(),
        opus_data: vec![0xFF],
    };
    let encoded = pkt.encode();
    assert_eq!(VoicePacket::parse_channel_id(&encoded), Some("room1"));
}

#[test]
fn voice_packet_rejects_short_data() {
    assert!(VoicePacket::decode(&[0u8; 3]).is_none());
    assert!(VoicePacket::decode(&[0u8; 5]).is_none());
}

#[test]
fn voice_packet_rejects_seq_zero() {
    let mut data = VoicePacket {
        sequence: 1,
        channel_id: "ch".into(),
        opus_data: vec![1],
    }
    .encode();
    data[0] = 0;
    data[1] = 0;
    data[2] = 0;
    data[3] = 0;
    assert!(VoicePacket::decode(&data).is_none());
}

#[test]
fn voice_packet_rejects_bad_text() {
    let data = [0u8, 0, 0, 1, 2, 0xC3, 0x28, 9];
    assert!(VoicePacket::decode(&data).is_none());
    assert_eq!(VoicePacket::parse_channel_id(&data), None);
}

#[test]
fn tcp_frame_roundtrip() {
    let payload = vec![7u8, 0, 0, 0];
    let frame = encode_tcp_frame(&payload);
    let (decoded, consumed) = try_decode_frame(&frame).unwrap().unwrap();
    assert_eq!(consumed, frame.len());
    assert_eq!(decoded, payload);
}

#[test]
fn tcp_frame_rejects_oversized() {
    let len = (config::MAX_FRAME_SIZE + 1) as u32;
    let mut buf = Vec::new();
    buf.extend_from_slice(&len.to_be_bytes());
    buf.extend_from_slice(&[0u8; 4]);
    assert!(matches!(try_decode_frame(&buf), Err(FrameError::TooLarge(_))));
}

#[test]
fn extract_frames_partial() {
    let frame = encode_tcp_frame(&[7u8, 0, 0, 0]);

    let half = frame.len() / 2;
    let mut pending = BytesMut::from(&frame[..half]);
    let frames = extract_frames(&mut pending).unwrap();
    assert!(frames.is_empty());
    assert_eq!(pending.len(), half);

    pending.extend_from_slice(&frame[half..]);
    let frames = extract_frames(&mut pending).unwrap();
    assert_eq!(frames.len(), 1);
    assert!(pending.is_empty());
}

#[test]
fn extract_frames_stops_at_an_oversized_one() {
    let mut bytes = encode_tcp_frame(&[1, 2, 3]);
    bytes.extend_from_slice(&70_000u32.to_be_bytes());
    let mut pending = BytesMut::from(&bytes[..]);
    assert!(matches!(extract_frames(&mut pending), Err(FrameError::TooLarge(70_000))));
    assert_eq!(pending.len(), 4);
}

#[test]
fn several_frames_come_out_in_order() {
    let mut bytes = encode_tcp_frame(&[1]);
    bytes.extend_from_slice(&encode_tcp_frame(&[]));
    bytes.extend_from_slice(&encode_tcp_frame(&[2, 3]));
    let mut pending = BytesMut::from(&bytes[..]);
    let frames = extract_frames(&mut pending).unwrap();
    assert_eq!(frames, vec![vec![1u8], vec![], vec![2, 3]]);
    assert!(pending.is_empty());
}

#[test]
fn generate_channel_id_valid() {
    let id = generate_channel_id();
    assert_eq!(id.len(), config::CHANNEL_ID_LEN);
    const CHARSET: &str = "abcdefghjkmnpqrstuvwxyz23456789";
    for c in id.chars() {
        assert!(CHARSET.contains(c), "invalid char: {}", c);
    }
}

#[test]
fn generated_channel_ids_differ() {
    let ids: Vec<String> = (0..20).map(|_| generate_channel_id()).collect();
    assert!(ids.iter().any(|id| id != &ids[0]));
}

#[test]
fn omits_default_port() {
    assert_eq!(
        invite_url(&format!("example.com:{}", config::TCP_PORT), None),
        "tc://example.com"
    );
}

#[test]
fn keeps_custom_port() {
    assert_eq!(invite_url("example.com:9000", None), "tc://example.com:9000");
}

#[test]
fn appends_channel() {
    assert_eq!(
        invite_url("example.com:9000", Some("lobby")),
        "tc://example.com:9000/lobby"
    );
}

#[test]
fn host_only_with_channel() {
    assert_eq!(
        invite_url(&format!("10.0.0.5:{}", config::TCP_PORT), Some("lobby")),
        "tc://10.0.0.5/lobby"
    );
}
