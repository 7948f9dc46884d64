//! Voice: sequence numbers, the jitter buffer, quality and encryption.

use bytes::BytesMut;
use tc::config;
use tc::jitter::{seq_before, JitterBuffer, PopResult};
use tc::protocol::{encode_udp_hello, VoicePacket};
use tc::quality::{maybe_adapt_encoder, pass_vad, NetworkStats, QualityTier};
use tc::receiver::{Received, VoiceReceiver};
use tc::sender::{
    after_hello, is_hello_ack, next_rehello_delay, rehello_step, Capture, FrameAction, HelloStep,
    PreRoll, TrafficSnapshot,
};
use tc::voice_crypto::{parse_packet_name, sender_name_bytes, VoiceCipher};

const MS: u64 = 1_000_000;

#[test]
fn parse_packet_name_extracts_name_and_offset() {
    let mut buf = vec![5u8];
    buf.extend_from_slice(b"alice");
    buf.extend_from_slice(&[1, 2, 3]);
    let (name, offset) = parse_packet_name(&buf).unwrap();
    assert_eq!(name, "alice");
    assert_eq!(offset, 6);
    assert_eq!(&buf[offset..], &[1, 2, 3]);

    assert!(parse_packet_name(&[]).is_none());
    assert!(parse_packet_name(&[10, b'x']).is_none());
}

#[test]
fn seq_before_basic() {
    assert!(seq_before(1, 2));
    assert!(seq_before(0, 1));
    assert!(!seq_before(2, 1));
    assert!(!seq_before(5, 5));
}

#[test]
fn seq_before_wrapping() {
    assert!(seq_before(u32::MAX - 1, u32::MAX));
    assert!(seq_before(u32::MAX, 0));
    assert!(seq_before(u32::MAX, 1));
    assert!(!seq_before(1, u32::MAX));
}

#[test]
fn quality_tier_from_loss_thresholds() {
    assert_eq!(QualityTier::from_loss(0), QualityTier::High);
    assert_eq!(QualityTier::from_loss(4), QualityTier::High);
    assert_eq!(QualityTier::from_loss(5), QualityTier::Medium);
    assert_eq!(QualityTier::from_loss(14), QualityTier::Medium);
    assert_eq!(QualityTier::from_loss(15), QualityTier::Low);
    assert_eq!(QualityTier::from_loss(29), QualityTier::Low);
    assert_eq!(QualityTier::from_loss(30), QualityTier::Minimum);
    assert_eq!(QualityTier::from_loss(100), QualityTier::Minimum);
}

#[test]
fn quality_tier_u8_roundtrip() {
    for tier in [
        QualityTier::High,
        QualityTier::Medium,
        QualityTier::Low,
        QualityTier::Minimum,
    ] {
        assert_eq!(QualityTier::from_u8(tier.to_u8()), tier);
    }
}

#[test]
fn quality_tier_unknown_u8_defaults_high() {
    assert_eq!(QualityTier::from_u8(255), QualityTier::High);
}

#[test]
fn quality_tier_bitrate_decreasing() {
    assert!(QualityTier::High.bitrate() > QualityTier::Medium.bitrate());
    assert!(QualityTier::Medium.bitrate() > QualityTier::Low.bitrate());
    assert!(QualityTier::Low.bitrate() > QualityTier::Minimum.bitrate());
}

#[test]
fn quality_tier_complexity_decreasing() {
    assert!(QualityTier::High.complexity() > QualityTier::Medium.complexity());
    assert!(QualityTier::Medium.complexity() > QualityTier::Low.complexity());
    assert!(QualityTier::Low.complexity() > QualityTier::Minimum.complexity());
}

#[test]
fn quality_tier_fec_only_when_lossy() {
    assert!(!QualityTier::High.fec());
    assert!(QualityTier::Medium.fec());
    assert!(QualityTier::Low.fec());
    assert!(QualityTier::Minimum.fec());
}

#[test]
fn quality_tier_as_str() {
    assert_eq!(QualityTier::High.as_str(), "high");
    assert_eq!(QualityTier::Medium.as_str(), "medium");
    assert_eq!(QualityTier::Low.as_str(), "low");
    assert_eq!(QualityTier::Minimum.as_str(), "minimum");
}

#[test]
fn network_stats_initial_state() {
    let stats = NetworkStats::new();
    assert_eq!(stats.loss_percent(), 0);
    assert_eq!(stats.current_tier(), QualityTier::High);
}

#[test]
fn network_stats_finalize_no_loss() {
    let mut stats = NetworkStats::new();
    for _ in 0..config::STATS_WINDOW_PACKETS {
        stats.record_received();
    }
    stats.maybe_finalize_window();
    assert_eq!(stats.loss_percent(), 0);
    assert_eq!(stats.current_tier(), QualityTier::High);
}

#[test]
fn network_stats_finalize_high_loss() {
    let mut stats = NetworkStats::new();
    let half = config::STATS_WINDOW_PACKETS / 2;
    for _ in 0..half {
        stats.record_received();
    }
    for _ in 0..half {
        stats.record_lost();
    }
    stats.maybe_finalize_window();
    assert!(stats.loss_percent() >= 40);
    assert_eq!(stats.loss_percent(), 50);
    assert_eq!(stats.current_tier(), QualityTier::Minimum);
}

#[test]
fn network_stats_window_resets_after_finalize() {
    let mut stats = NetworkStats::new();
    for _ in 0..config::STATS_WINDOW_PACKETS {
        stats.record_received();
    }
    stats.maybe_finalize_window();

    stats.record_received();
    stats.maybe_finalize_window();
    assert_eq!(stats.loss_percent(), 0);
    assert_eq!(stats.window(), (1, 0));
}

#[test]
fn jitter_buffer_push_pop_in_order() {
    let mut jb = JitterBuffer::new();
    let mut out = Vec::new();

    jb.push(1, &[10, 20], 0);
    jb.push(2, &[30, 40], 0);

    assert!(matches!(jb.pop(&mut out), PopResult::Packet));
    assert_eq!(out, vec![10, 20]);
    assert!(matches!(jb.pop(&mut out), PopResult::Packet));
    assert_eq!(out, vec![30, 40]);
    assert!(matches!(jb.pop(&mut out), PopResult::Empty));
}

#[test]
fn jitter_buffer_missing_packet_detected() {
    let mut jb = JitterBuffer::new();
    let mut out = Vec::new();

    jb.push(1, &[10], 0);
    jb.push(3, &[30], 0);

    assert!(matches!(jb.pop(&mut out), PopResult::Packet));
    assert_eq!(out, vec![10]);
    assert!(matches!(jb.pop(&mut out), PopResult::Missing));
    assert!(matches!(jb.pop(&mut out), PopResult::Packet));
    assert_eq!(out, vec![30]);
}

#[test]
fn jitter_buffer_late_packet_dropped() {
    let mut jb = JitterBuffer::new();
    let mut out = Vec::new();

    jb.push(5, &[50], 0);
    jb.pop(&mut out);

    jb.push(5, &[99], 0);
    assert!(matches!(jb.pop(&mut out), PopResult::Empty));
}

#[test]
fn jitter_buffer_count_buffered() {
    let mut jb = JitterBuffer::new();
    jb.push(1, &[10], 0);
    jb.push(2, &[20], 0);
    jb.push(3, &[30], 0);
    assert_eq!(jb.count_buffered(), 3);
}

#[test]
fn jitter_buffer_reset_to() {
    let mut jb = JitterBuffer::new();
    jb.push(100, &[1], 0);
    jb.push(101, &[2], 0);

    jb.reset_to(200);
    assert_eq!(jb.count_buffered(), 0);
    assert_eq!(jb.jitter_ns(), 0);

    let mut out = Vec::new();
    jb.push(200, &[42], 0);
    assert!(matches!(jb.pop(&mut out), PopResult::Packet));
    assert_eq!(out, vec![42]);
}

#[test]
fn jitter_buffer_stream_restart_detection() {
    let mut jb = JitterBuffer::new();
    let mut out = Vec::new();

    jb.push(1000, &[1], 0);
    jb.pop(&mut out);

    jb.push(1, &[99], 0);

    assert!(matches!(jb.pop(&mut out), PopResult::Packet));
    assert_eq!(out, vec![99]);
}

#[test]
fn jitter_buffer_far_ahead_packet_dropped() {
    let mut jb = JitterBuffer::new();
    jb.push(1, &[10], 0);
    jb.push(1 + config::JITTER_BUF_MAX as u32, &[99], 0);

    let mut out = Vec::new();
    assert!(matches!(jb.pop(&mut out), PopResult::Packet));
    assert_eq!(out, vec![10]);
    assert!(matches!(jb.pop(&mut out), PopResult::Empty));
}

#[test]
fn jitter_buffer_adapt_size() {
    let mut jb = JitterBuffer::new();
    jb.adapt_size();
    assert!(jb.max_size() >= config::JITTER_BUF_MIN);
    assert!(jb.max_size() <= config::JITTER_BUF_MAX);
}

#[test]
fn jitter_buffer_skip_to_oldest() {
    let mut jb = JitterBuffer::new();
    jb.push(1, &[10], 0);
    let mut out = Vec::new();
    jb.pop(&mut out);

    jb.push(5, &[50], 0);
    jb.push(6, &[60], 0);

    jb.skip_to_oldest_available();
    assert!(matches!(jb.pop(&mut out), PopResult::Packet));
    assert_eq!(out, vec![50]);
}

#[test]
fn jitter_buffer_follows_a_stream_that_jumped_ahead() {
    let mut jb = JitterBuffer::new();
    let mut out = Vec::new();
    jb.push(1, &[1], 0);
    jb.pop(&mut out);
    for i in 0..20u32 {
        jb.push(500 + i, &[i as u8], i as u64 * 20 * MS);
    }
    assert!(matches!(jb.pop(&mut out), PopResult::Packet));
}

#[test]
fn jitter_grows_with_uneven_arrival() {
    let mut jb = JitterBuffer::new();
    let mut out = Vec::new();
    let mut now = 0u64;
    for i in 1..200u32 {
        now += if i % 2 == 0 { 90 * MS } else { MS };
        jb.push(i, &[1], now);
        jb.pop(&mut out);
    }
    assert!(jb.jitter_ns() > 20 * MS);
    jb.adapt_size();
    assert!(jb.max_size() > config::JITTER_BUF_MIN);
}

#[test]
fn the_encoder_follows_the_network() {
    let mut stats = NetworkStats::new();
    let mut tier = QualityTier::High;
    assert!(maybe_adapt_encoder(&stats, &mut tier).is_none());
    for i in 0..config::STATS_WINDOW_PACKETS {
        if i % 5 == 0 {
            stats.record_lost();
        } else {
            stats.record_received();
        }
    }
    stats.maybe_finalize_window();
    assert_eq!(stats.loss_percent(), 20);
    let s = maybe_adapt_encoder(&stats, &mut tier).unwrap();
    assert_eq!(tier, QualityTier::Low);
    assert_eq!(s.bitrate, config::BITRATE_LOW);
}

#[test]
fn voice_detection_hangs_over() {
    let mut hangover = 0;
    assert!(!pass_vad(false, false, &mut hangover));
    assert!(pass_vad(false, true, &mut hangover));
    for _ in 0..config::VAD_HANGOVER_FRAMES {
        assert!(pass_vad(false, false, &mut hangover));
    }
    assert!(!pass_vad(false, false, &mut hangover));
    assert!(pass_vad(true, false, &mut hangover));
}

fn packet(cipher: &VoiceCipher, seq: u32, channel: &str, name: &str, opus: &[u8]) -> Vec<u8> {
    let mut buf = BytesMut::new();
    cipher.build_packet(&mut buf, seq, channel, &sender_name_bytes(name), opus);
    buf.to_vec()
}

#[test]
fn encrypted_voice_is_heard_again() {
    let cipher = VoiceCipher::new(vec![9u8; 32]).unwrap();
    let data = packet(&cipher, 5, "abc12", "alice", &[1, 2, 3]);
    assert_eq!(VoicePacket::parse_channel_id(&data), Some("abc12"));
    let (seq, encrypted) = VoicePacket::parse_voice_data(&data).unwrap();
    assert_eq!(seq, 5);
    assert!(!encrypted.windows(3).any(|w| w == [1, 2, 3]));
    let mut plain = Vec::new();
    assert!(cipher.decrypt_packet(encrypted, &mut plain));
    let (name, offset) = parse_packet_name(&plain).unwrap();
    assert_eq!(name, "alice");
    assert_eq!(&plain[offset..], &[1, 2, 3]);
}

#[test]
fn voice_under_another_key_is_refused() {
    let cipher = VoiceCipher::new(vec![9u8; 32]).unwrap();
    let other = VoiceCipher::new(vec![8u8; 32]).unwrap();
    let data = packet(&cipher, 5, "abc12", "alice", &[1, 2, 3]);
    let (_, encrypted) = VoicePacket::parse_voice_data(&data).unwrap();
    let mut plain = Vec::new();
    assert!(!other.decrypt_packet(encrypted, &mut plain));
    assert!(!cipher.decrypt_packet(&encrypted[..10], &mut plain));
}

#[test]
fn a_voice_key_has_32_bytes() {
    assert!(VoiceCipher::new(vec![1u8; 31]).is_none());
    assert!(VoiceCipher::new(vec![1u8; 32]).is_some());
}

#[test]
fn two_packets_with_the_same_voice_differ() {
    let cipher = VoiceCipher::new(vec![9u8; 32]).unwrap();
    let a = packet(&cipher, 5, "abc12", "alice", &[1, 2, 3]);
    let b = packet(&cipher, 5, "abc12", "alice", &[1, 2, 3]);
    assert_ne!(a, b);
}

fn receiver(name: &str) -> VoiceReceiver {
    VoiceReceiver::new(VoiceCipher::new(vec![9u8; 32]).unwrap(), 77, name, false)
}

#[test]
fn two_senders_are_kept_apart() {
    let cipher = VoiceCipher::new(vec![9u8; 32]).unwrap();
    let mut r = receiver("me");
    const FRAMES: u32 = 5;
    for i in 0..FRAMES {
        r.receive(&packet(&cipher, 1 + i, "abc12", "alice", &[1]), 0);
        r.receive(&packet(&cipher, 100_000 + i, "abc12", "bob", &[2]), 0);
    }
    let mut rounds = 0;
    let mut frames = 0;
    loop {
        let due = r.drain_round();
        if due.is_empty() {
            break;
        }
        rounds += 1;
        frames += due.len();
        if rounds > 100 {
            break;
        }
    }
    assert_eq!(rounds, FRAMES);
    assert_eq!(frames, 2 * FRAMES as usize);
    assert_eq!(r.stats().window(), (2 * FRAMES, 0));
}

#[test]
fn own_voice_is_not_played() {
    let cipher = VoiceCipher::new(vec![9u8; 32]).unwrap();
    let mut r = receiver("me");
    r.receive(&packet(&cipher, 1, "abc12", "me", &[1]), 0);
    assert!(r.drain_round().is_empty());
}

#[test]
fn a_hello_that_comes_back_registers() {
    let mut r = receiver("me");
    assert!(!r.is_registered());
    let other = encode_udp_hello(78);
    r.receive(&other, 0);
    assert!(!r.is_registered());
    let hello = encode_udp_hello(77);
    assert!(is_hello_ack(&hello, 77));
    assert!(!is_hello_ack(&hello, 78));
    let got = r.receive(&hello, 0);
    assert!(matches!(got, Received::Registered));
    assert!(r.is_registered());
}

#[test]
fn hellos_are_repeated_ever_more_slowly() {
    let mut delay = config::UDP_REHELLO_BASE_MS;
    let mut seen = vec![delay];
    for _ in 0..5 {
        delay = next_rehello_delay(delay);
        seen.push(delay);
    }
    assert_eq!(seen, vec![1000, 2000, 4000, 5000, 5000, 5000]);
}

#[test]
fn traffic_is_measured_in_bytes_per_second() {
    let mut t = TrafficSnapshot { instant: 0, bytes_tx: 0, bytes_rx: 0, tx_rate: 0, rx_rate: 0 };
    assert_eq!(t.traffic_info(1000, 500, 100 * MS), (0, 0, 1500));
    assert_eq!(t.traffic_info(1000, 500, 500 * MS), (2000, 1000, 1500));
    assert_eq!(t.traffic_info(1100, 500, 600 * MS), (2000, 1000, 1600));
}

#[test]
fn the_handshake_gives_up_waiting_after_three_hellos() {
    let ack = encode_udp_hello(42);
    let other = encode_udp_hello(43);
    assert_eq!(after_hello(0, Some(&ack), 42), HelloStep::Confirmed);
    assert_eq!(after_hello(0, Some(&other), 42), HelloStep::Again);
    assert_eq!(after_hello(1, None, 42), HelloStep::Again);
    assert_eq!(after_hello(2, None, 42), HelloStep::Unconfirmed);
    assert_eq!(after_hello(2, Some(&ack), 42), HelloStep::Confirmed);
    assert_eq!(rehello_step(true, false, 1000), None);
    assert_eq!(rehello_step(false, true, 1000), None);
    assert_eq!(rehello_step(false, false, 1000), Some(2000));
}

#[test]
fn the_onset_of_speech_is_not_clipped() {
    let mut p: PreRoll<u32> = PreRoll::new();
    for i in 0..8 {
        assert!(p.pass(i, FrameAction::Silent).is_empty());
    }
    assert_eq!(p.pass(8, FrameAction::Send(1)), vec![3, 4, 5, 6, 7, 8]);
    assert_eq!(p.pass(9, FrameAction::Send(7)), vec![9]);
    p.pass(10, FrameAction::Silent);
    assert!(p.pass(11, FrameAction::Muted).is_empty());
    assert_eq!(p.pass(12, FrameAction::Send(8)), vec![12]);
}

#[test]
fn the_capture_loop_counts_what_it_sends() {
    let stats = NetworkStats::new();
    let mut c = Capture::new();
    assert_eq!(c.on_frame(&stats, true, false, true), (FrameAction::Muted, None));
    assert_eq!(c.on_frame(&stats, false, false, false), (FrameAction::Silent, None));
    assert_eq!(c.on_frame(&stats, false, false, true), (FrameAction::Send(1), None));
    c.sent();
    assert_eq!(c.on_frame(&stats, false, false, false), (FrameAction::Send(2), None));
}

#[test]
fn jitter_buffer_follows_a_sustained_gap() {
    let mut jb = JitterBuffer::new();
    let mut out = Vec::new();
    jb.push(1, &[1], 0);
    assert!(matches!(jb.pop(&mut out), PopResult::Packet));

    jb.push(22, &[22], 0);
    assert!(matches!(jb.pop(&mut out), PopResult::Empty));
    jb.push(2, &[2], 0);
    assert!(matches!(jb.pop(&mut out), PopResult::Packet));
    assert_eq!(out, vec![2]);

    for k in 0..config::JITTER_RESYNC_AFTER {
        assert!(matches!(jb.pop(&mut out), PopResult::Empty));
        jb.push(23 + k, &[23 + k as u8], 0);
    }
    let last = 22 + config::JITTER_RESYNC_AFTER;
    assert!(matches!(jb.pop(&mut out), PopResult::Packet));
    assert_eq!(out, vec![last as u8]);
    jb.push(last + 1, &[99], 0);
    assert!(matches!(jb.pop(&mut out), PopResult::Packet));
    assert_eq!(out, vec![99]);
}

#[test]
fn voice_is_never_numbered_zero() {
    let mut c = Capture::new();
    assert_eq!(c.sequence, 1);
    c.sent();
    assert_eq!(c.sequence, 2);
    c.sequence = u32::MAX;
    c.sent();
    assert_eq!(c.sequence, 1);
}
