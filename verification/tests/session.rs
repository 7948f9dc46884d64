//! Sessions and the relay, from end to end.

use bytes::BytesMut;
use tc::addr::Addr;
use tc::messages::{ClientMessage, ServerMessage};
use tc::metrics::Metrics;
use tc::protocol::{encode_tcp_frame, encode_udp_hello, VoicePacket};
use tc::rate_limit::IpRateLimiter;
use tc::relay::{relay_datagram, resolve_workers, RelayAction};
use tc::server_model::Limits;
use tc::session::{maintain, scale, shutdown_notice, InputError, Outgoing, Session};
use tc::state::ServerState;
use tc::voice_crypto::{sender_name_bytes, VoiceCipher};

const SEC: u64 = 1_000_000_000;

fn text(s: &str) -> String {
    s.to_string()
}

fn peer(port: u16) -> Addr {
    Addr::V4 { ip: 0x7F00_0001, port }
}

fn server() -> (ServerState, IpRateLimiter) {
    (ServerState::new(Limits::default()), IpRateLimiter::new(50_000, 100_000))
}

fn enter(state: &mut ServerState, ips: &mut IpRateLimiter, port: u16) -> Session {
    let (session, welcome) = Session::connect(state, ips, peer(port), "1.0.0", 0).unwrap();
    assert!(matches!(welcome, ServerMessage::Welcome { version, protocol: 3 } if version == "1.0.0"));
    session
}

fn join(
    session: &mut Session,
    state: &mut ServerState,
    ips: &mut IpRateLimiter,
    id: &str,
) -> (u64, Vec<u8>, Vec<Outgoing>) {
    let out = session.process(state, ips, ClientMessage::JoinChannel { channel_id: text(id) }, 0);
    let mut found = None;
    for o in &out {
        if let Outgoing::Send { msg: ServerMessage::JoinedChannel { udp_token, voice_key, .. }, .. } = o {
            found = Some((*udp_token, voice_key.clone()));
        }
    }
    let (token, key) = found.unwrap();
    (token, key, out)
}

fn error_of(out: &[Outgoing]) -> String {
    match &out[0] {
        Outgoing::Send { msg: ServerMessage::Error { message }, .. } => message.clone(),
        other => panic!("{:?}", other),
    }
}

#[test]
fn a_channel_is_made_joined_and_left() {
    let (mut state, mut ips) = server();
    let mut a = enter(&mut state, &mut ips, 1);
    let mut b = enter(&mut state, &mut ips, 2);
    let out = a.process(
        &mut state,
        &mut ips,
        ClientMessage::CreateChannel { name: Some(text("lobby")) },
        0,
    );
    assert!(out.iter().any(|o| matches!(
        o,
        Outgoing::Send { msg: ServerMessage::ChannelCreated { channel_id }, .. } if channel_id == "pub-lobby"
    )));
    join(&mut a, &mut state, &mut ips, "pub-lobby");
    let (_, _, out) = join(&mut b, &mut state, &mut ips, "pub-lobby");
    assert!(out.iter().any(|o| matches!(
        o,
        Outgoing::Broadcast { to, msg: ServerMessage::PeerJoined { .. } } if to == &vec![peer(1)]
    )));
    let out = a.process(&mut state, &mut ips, ClientMessage::ChatMessage { text: text("hi") }, 0);
    assert!(out.iter().any(|o| matches!(
        o,
        Outgoing::Broadcast { to, msg: ServerMessage::ChatMessage { text, .. } }
            if to == &vec![peer(2)] && text == "hi"
    )));
    let out = a.process(&mut state, &mut ips, ClientMessage::LeaveChannel, 0);
    assert!(out.iter().any(|o| matches!(o, Outgoing::Send { msg: ServerMessage::LeftChannel, .. })));
    assert!(out.iter().any(|o| matches!(o, Outgoing::Broadcast { msg: ServerMessage::PeerLeft { .. }, .. })));
    let out = b.disconnect(&mut state, &mut ips, 0);
    assert!(out.iter().all(|o| !matches!(o, Outgoing::Send { .. })));
    assert_eq!(state.stats().clients, 1);
    assert_eq!(state.stats().channels, 0);
}

#[test]
fn refusals_of_a_session() {
    let (mut state, mut ips) = server();
    let mut a = enter(&mut state, &mut ips, 1);
    let long = "x".repeat(2049);
    let out = a.process(&mut state, &mut ips, ClientMessage::ChatMessage { text: long }, 0);
    assert_eq!(error_of(&out), "message too long");
    let out = a.process(&mut state, &mut ips, ClientMessage::LeaveChannel, 0);
    assert_eq!(error_of(&out), "not in a channel");
    let out = a.process(&mut state, &mut ips, ClientMessage::SetName { name: text("") }, 0);
    assert_eq!(error_of(&out), "name must be 1-32 characters");
    let out = a.process(
        &mut state,
        &mut ips,
        ClientMessage::JoinChannel { channel_id: text("nope") },
        0,
    );
    assert_eq!(error_of(&out), "channel 'nope' not found");
    let out = a.process(&mut state, &mut ips, ClientMessage::Ping, 0);
    assert!(matches!(&out[..], [Outgoing::Send { msg: ServerMessage::Pong, .. }]));
}

#[test]
fn a_client_renames_itself() {
    let (mut state, mut ips) = server();
    let mut a = enter(&mut state, &mut ips, 1);
    a.process(&mut state, &mut ips, ClientMessage::SetName { name: text("alice") }, 0);
    assert_eq!(a.name(), "alice");
    assert_eq!(state.get_client(&peer(1)).unwrap().name, "alice");
}

#[test]
fn direct_messages_find_the_key() {
    let (mut state, mut ips) = server();
    let mut a = enter(&mut state, &mut ips, 1);
    let mut b = enter(&mut state, &mut ips, 2);
    let hello = |k: u8| ClientMessage::Hello {
        version: text("1.0.0"),
        protocol: 3,
        pubkey: Some(vec![k; 32]),
    };
    let dm = |k: u8| ClientMessage::DirectMessage { to_pubkey: vec![k; 32], text: text("psst") };
    let out = a.process(&mut state, &mut ips, dm(2), 0);
    assert_eq!(error_of(&out), "no identity, reconnect first");
    a.process(&mut state, &mut ips, hello(1), 0);
    let out = a.process(&mut state, &mut ips, dm(2), 0);
    assert_eq!(error_of(&out), "recipient not connected");
    b.process(&mut state, &mut ips, hello(2), 0);
    let out = a.process(&mut state, &mut ips, dm(2), 0);
    assert!(out.iter().any(|o| matches!(
        o,
        Outgoing::Send { to, msg: ServerMessage::DirectMessage { from_pubkey, text, .. } }
            if *to == peer(2) && from_pubkey == &vec![1u8; 32] && text == "psst"
    )));
}

#[test]
fn a_busy_client_is_slowed_down() {
    let (mut state, mut ips) = server();
    let mut a = enter(&mut state, &mut ips, 1);
    let mut refused = 0;
    for _ in 0..30 {
        let out = a.process(&mut state, &mut ips, ClientMessage::ListChannels, 0);
        if matches!(&out[..], [Outgoing::Send { msg: ServerMessage::Error { .. }, .. }]) {
            assert_eq!(error_of(&out), "rate limited, slow down");
            refused += 1;
        }
    }
    assert_eq!(refused, 10);
    assert_eq!(scale(10_000, 20_000), 20_000);
    assert_eq!(scale(10_000, 5_000), 5_000);
}

#[test]
fn a_session_takes_frames_apart() {
    let (mut state, mut ips) = server();
    let mut a = enter(&mut state, &mut ips, 1);
    let frame = encode_tcp_frame(&[1, 2, 3]);
    assert!(a.feed(&frame[..2]).unwrap().is_empty());
    assert_eq!(a.feed(&frame[2..]).unwrap(), vec![vec![1u8, 2, 3]]);
    assert!(matches!(a.feed(&[0xFF; 8]), Err(InputError::Frame(_))));
}

#[test]
fn a_full_server_says_so() {
    let mut state = ServerState::new(Limits { max_clients: 1, ..Limits::default() });
    let mut ips = IpRateLimiter::new(0, 0);
    let _a = enter(&mut state, &mut ips, 1);
    let e = match Session::connect(&mut state, &mut ips, peer(2), "1.0.0", 0) {
        Err(e) => e,
        Ok(_) => panic!("a second client was let in"),
    };
    assert_eq!(e, "server full");
}

#[test]
fn voice_reaches_the_others_only() {
    let (mut state, mut ips) = server();
    let mut a = enter(&mut state, &mut ips, 1);
    let mut b = enter(&mut state, &mut ips, 2);
    let id = state.create_channel(None, 0).unwrap();
    let (ta, key, _) = join(&mut a, &mut state, &mut ips, &id);
    let (tb, _, _) = join(&mut b, &mut state, &mut ips, &id);
    let hello = encode_udp_hello(ta);
    match relay_datagram(&mut state, &hello, peer(5001), 0) {
        RelayAction::Ack(bytes) => assert_eq!(bytes, hello.to_vec()),
        other => panic!("{:?}", other),
    }
    relay_datagram(&mut state, &encode_udp_hello(tb), peer(5002), 0);
    assert!(matches!(
        relay_datagram(&mut state, &encode_udp_hello(12345), peer(5003), 0),
        RelayAction::Ignore
    ));

    let cipher = VoiceCipher::new(key).unwrap();
    let mut buf = BytesMut::new();
    cipher.build_packet(&mut buf, 1, &id, &sender_name_bytes("a"), &[1, 2, 3]);
    match relay_datagram(&mut state, &buf, peer(5001), 0) {
        RelayAction::Forward(to) => assert_eq!(to, vec![peer(5002)]),
        other => panic!("{:?}", other),
    }
    assert!(matches!(relay_datagram(&mut state, &[1, 2], peer(5001), 0), RelayAction::Ignore));
    let none = VoicePacket { sequence: 1, channel_id: text("zzzzz"), opus_data: vec![1] }.encode();
    match relay_datagram(&mut state, &none, peer(5001), 0) {
        RelayAction::Forward(to) => assert!(to.is_empty()),
        RelayAction::Ignore => {}
        other => panic!("{:?}", other),
    }
}

#[test]
fn a_sound_check_hears_itself() {
    let (mut state, mut ips) = server();
    let mut a = enter(&mut state, &mut ips, 1);
    let out = a.process(&mut state, &mut ips, ClientMessage::StartEchoTest, 0);
    let (id, token) = match &out[0] {
        Outgoing::Send { msg: ServerMessage::EchoTestReady { channel_id, udp_token, .. }, .. } => {
            (channel_id.clone(), *udp_token)
        }
        other => panic!("{:?}", other),
    };
    relay_datagram(&mut state, &encode_udp_hello(token), peer(5001), 0);
    let p = VoicePacket { sequence: 1, channel_id: id, opus_data: vec![1] }.encode();
    match relay_datagram(&mut state, &p, peer(5001), 0) {
        RelayAction::Forward(to) => assert_eq!(to, vec![peer(5001)]),
        other => panic!("{:?}", other),
    }
    a.process(&mut state, &mut ips, ClientMessage::StopEchoTest, 0);
    assert_eq!(state.stats().channels, 0);
}

#[test]
fn an_empty_public_channel_is_swept_and_announced() {
    let (mut state, mut ips) = server();
    let _a = enter(&mut state, &mut ips, 1);
    state.create_channel(Some("lobby"), 0).unwrap();
    assert!(maintain(&mut state, 1).is_empty());
    let out = maintain(&mut state, 1_000_000 * SEC);
    assert!(out.iter().any(|o| matches!(
        o,
        Outgoing::Broadcast { msg: ServerMessage::ChannelList { channels }, .. } if channels.is_empty()
    )));
    assert!(matches!(
        shutdown_notice(&state),
        Outgoing::Broadcast { to, msg: ServerMessage::Error { message } }
            if to.len() == 1 && message == "server shutting down"
    ));
}

#[test]
fn workers_and_metrics() {
    assert_eq!(resolve_workers(3, 8, true), 3);
    assert_eq!(resolve_workers(3, 8, false), 1);
    let m = Metrics::new();
    let s = m.snapshot();
    assert_eq!(s.delta(&s), s);
    assert_eq!(ServerState::with_metrics(Limits::default(), m).rate_limit_multiplier(), 10_000);
}
