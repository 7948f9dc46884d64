//! The terminal client.

use std::collections::HashSet;
use tc::audio::{
    choose_device, choose_or_default, device_frame_size, latency_cap, list_devices, name_at_index,
    Chunker, DeviceChoice, PlaybackQueue, ToneGate,
};
use tc::commands::{reconnect_delay_ms, threshold_string, Effect, Occasion};
use tc::identity::Identity;
use tc::messages::{ChannelInfo, ClientMessage, ServerMessage};
use tc::names::{sanitize_channel_name, sanitize_name};
use tc::network::{hello_message, tls_host, with_default_port, Inbox};
use tc::peer_gain::PeerGains;
use tc::protocol::encode_tcp_frame;
use tc::rain::{MatrixState, Shade, MATRIX_CHARSET};
use tc::screen::{
    completion_lines, format_bytes, popup_area, scroll_note, status_segments, web_line, Tone,
    WebCommand, WebState,
};
use tc::session::InputError;
use tc::settings::{
    build_settings, is_false, is_zero, settings_place, settings_with_trust, start_app,
    SettingsPlace, UserSettings,
};
use tc::table::Table;
use tc::terminal::{Action, App, ConnectionState, Key, Link};
use tc::tls::{cert_fingerprint, TofuResult, TofuState};

#[test]
fn sanitize_name_strips_control_chars() {
    assert_eq!(sanitize_name("hello\nworld"), "helloworld");
    assert_eq!(sanitize_name("  alice\t "), "alice");
    assert_eq!(sanitize_name("bob"), "bob");
}

#[test]
fn sanitize_channel_name_valid() {
    assert_eq!(sanitize_channel_name("My Channel!"), "mychannel");
    assert_eq!(sanitize_channel_name("test-room"), "test-room");
    assert_eq!(sanitize_channel_name("--edge--"), "edge");
    assert_eq!(sanitize_channel_name("UPPER123"), "upper123");
}

#[test]
fn sanitize_name_empty_and_whitespace() {
    assert_eq!(sanitize_name(""), "");
    assert_eq!(sanitize_name("   "), "");
    assert_eq!(sanitize_name("\n\r\t"), "");
}

#[test]
fn sanitize_name_preserves_unicode() {
    assert_eq!(sanitize_name("Денис"), "Денис");
    assert_eq!(sanitize_name("  日本語  "), "日本語");
}

#[test]
fn sanitize_channel_name_empty() {
    assert_eq!(sanitize_channel_name(""), "");
    assert_eq!(sanitize_channel_name("!!!"), "");
    assert_eq!(sanitize_channel_name("---"), "");
}

#[test]
fn sanitize_channel_name_unicode_stripped() {
    assert_eq!(sanitize_channel_name("канал-1"), "1");
    assert_eq!(sanitize_channel_name("café"), "caf");
}

#[test]
fn a_clean_channel_name_stays_as_it_is() {
    let once = sanitize_channel_name("-Big  Room-7-");
    assert_eq!(once, "bigroom-7");
    assert_eq!(sanitize_channel_name(&once), once);
}

const CERT: [u8; 5] = [1, 2, 3, 4, 5];
const OTHER_CERT: [u8; 5] = [10, 20, 30, 40, 50];

fn text(s: &str) -> String {
    s.to_string()
}

#[test]
fn fingerprint_format() {
    let fp = cert_fingerprint(&CERT);
    assert!(fp.starts_with("sha256:"));
    assert_eq!(fp.len(), 7 + 64);
}

#[test]
fn fingerprint_deterministic() {
    assert_eq!(cert_fingerprint(&CERT), cert_fingerprint(&CERT));
}

#[test]
fn fingerprint_different_certs() {
    assert_ne!(cert_fingerprint(&CERT), cert_fingerprint(&OTHER_CERT));
}

#[test]
fn fingerprint_of_nothing() {
    assert_eq!(
        cert_fingerprint(&[]),
        "sha256:e3b0c44298fc1c149afbf4c8996fb92427ae41e4649b934ca495991b7852b855"
    );
}

#[test]
fn tofu_state_set_current_server() {
    let mut tofu = TofuState::new(Table::new());
    tofu.set_current_server("example.com:7100");
    assert!(tofu.last_result().is_none());
}

#[test]
fn tofu_state_trust_and_retrieve() {
    let mut tofu = TofuState::new(Table::new());
    tofu.trust_server("srv1", "sha256:aaa");
    tofu.trust_server("srv2", "sha256:bbb");

    let map = tofu.trusted_map();
    assert_eq!(map.len(), 2);
    assert_eq!(map.get(&text("srv1")), Some(&text("sha256:aaa")));
}

#[test]
fn tofu_state_remove_server() {
    let mut tofu = TofuState::new(Table::new());
    tofu.trust_server("srv1", "sha256:aaa");
    tofu.remove_server("srv1");
    assert!(tofu.trusted_map().is_empty());
}

#[test]
fn tofu_state_init_from_existing() {
    let mut existing = Table::new();
    existing.insert(text("srv1"), text("sha256:aaa"));
    let tofu = TofuState::new(existing);
    assert_eq!(tofu.trusted_map().len(), 1);
}

#[test]
fn tofu_first_connection_trusts_automatically() {
    let mut tofu = TofuState::new(Table::new());
    tofu.set_current_server("new-server:7100");
    tofu.verify_cert(&CERT);

    match tofu.last_result().unwrap() {
        TofuResult::TrustedNew(fp) => assert!(fp.starts_with("sha256:")),
        other => panic!("expected TrustedNew, got {:?}", other),
    }

    let map = tofu.trusted_map();
    assert!(map.contains(&text("new-server:7100")));
}

#[test]
fn tofu_known_cert_matches() {
    let mut trusted = Table::new();
    trusted.insert(text("known-server:7100"), cert_fingerprint(&CERT));
    let mut tofu = TofuState::new(trusted);
    tofu.set_current_server("known-server:7100");
    tofu.verify_cert(&CERT);

    match tofu.last_result().unwrap() {
        TofuResult::TrustedKnown => {}
        other => panic!("expected TrustedKnown, got {:?}", other),
    }
}

#[test]
fn tofu_cert_change_auto_trusts() {
    let mut trusted = Table::new();
    trusted.insert(text("server:7100"), cert_fingerprint(&CERT));
    let mut tofu = TofuState::new(trusted);
    tofu.set_current_server("server:7100");
    tofu.verify_cert(&OTHER_CERT);

    match tofu.last_result().unwrap() {
        TofuResult::Mismatch { expected, actual } => {
            assert!(expected.starts_with("sha256:"));
            assert!(actual.starts_with("sha256:"));
            assert_ne!(expected, actual);
        }
        other => panic!("expected Mismatch, got {:?}", other),
    }

    let map = tofu.trusted_map();
    assert_eq!(map.get(&text("server:7100")), Some(&cert_fingerprint(&OTHER_CERT)));
}

#[test]
fn trust_in_one_server_is_none_in_another() {
    let mut tofu = TofuState::new(Table::new());
    tofu.set_current_server("a:7100");
    tofu.verify_cert(&CERT);
    tofu.verify_cert(&CERT);
    assert!(matches!(tofu.last_result(), Some(TofuResult::TrustedKnown)));
    tofu.set_current_server("b:7100");
    tofu.verify_cert(&CERT);
    assert!(matches!(tofu.last_result(), Some(TofuResult::TrustedNew(_))));
    tofu.remove_server("a:7100");
    tofu.set_current_server("a:7100");
    tofu.verify_cert(&CERT);
    assert!(matches!(tofu.last_result(), Some(TofuResult::TrustedNew(_))));
}

#[test]
fn format_bytes_ranges() {
    assert_eq!(format_bytes(0), "0 B");
    assert_eq!(format_bytes(512), "512 B");
    assert_eq!(format_bytes(1023), "1023 B");
    assert_eq!(format_bytes(1024), "1 KB");
    assert_eq!(format_bytes(1536), "2 KB");
    assert_eq!(format_bytes(1024 * 1024), "1.0 MB");
    assert_eq!(format_bytes(1024 * 1024 * 1024), "1.0 GB");
}

#[test]
fn format_bytes_rounds_as_printing_does() {
    for n in [1500u64, 2560, 3584, 1024 * 1024 - 1] {
        assert_eq!(format_bytes(n), format!("{:.0} KB", n as f64 / 1024.0));
    }
    for n in [1_100_000u64, 1_310_720, 1_363_149, 9_999_999, 1024 * 1024 * 1024 - 1] {
        assert_eq!(format_bytes(n), format!("{:.1} MB", n as f64 / 1_048_576.0));
    }
    for n in [1_342_177_280u64, 5_000_000_000] {
        assert_eq!(format_bytes(n), format!("{:.1} GB", n as f64 / 1_073_741_824.0));
    }
}

#[test]
fn matrix_state_tick_no_panic() {
    let mut ms = MatrixState::new();
    ms.tick(80, 24, 0);
    ms.tick(80, 24, 10 * 1024);
    assert!(!ms.stream_list().is_empty());
}

#[test]
fn matrix_state_zero_dimensions() {
    let mut ms = MatrixState::new();
    ms.tick(0, 0, 5 * 1024);
    assert!(ms.stream_list().is_empty());
}

#[test]
fn matrix_char_at_deterministic() {
    let ms = MatrixState::new();
    let c1 = ms.char_at(42, 10);
    let c2 = ms.char_at(42, 10);
    assert_eq!(c1, c2);
}

#[test]
fn matrix_char_at_different_seeds() {
    let ms = MatrixState::new();
    let chars: Vec<char> = (0..100).map(|i| ms.char_at(i, 0)).collect();
    assert!(chars.iter().all(|c| MATRIX_CHARSET.contains(*c)));
    let unique: HashSet<char> = chars.into_iter().collect();
    assert!(unique.len() > 1);
}

#[test]
fn the_rain_fits_narrow_screens() {
    for (width, streams) in [(1, 0), (5, 4), (9, 7), (10, 8), (20, 8)] {
        let mut ms = MatrixState::new();
        ms.tick(width, 10, 0);
        assert_eq!(ms.stream_list().len(), streams);
        assert!(ms.stream_list().iter().all(|s| s.x < width));
    }
}

#[test]
fn the_rain_keeps_falling() {
    let mut ms = MatrixState::new();
    for _ in 0..2000 {
        ms.tick(40, 10, 100_000);
        assert!(ms.stream_list().iter().all(|s| s.x < 40));
    }
}

#[test]
fn unity_is_absent_and_reads_default() {
    let mut g = PeerGains::new();
    assert_eq!(g.get("alice") as f32 / 100.0, 1.0);
    g.set_pct("alice", 100);
    assert!(g.pct_map().is_empty(), "100% should not be stored");
    assert_eq!(g.get("alice") as f32 / 100.0, 1.0);
}

#[test]
fn set_get_and_clamp() {
    let mut g = PeerGains::new();
    g.set_pct("bob", 50);
    assert_eq!(g.get("bob") as f32 / 100.0, 0.5);
    g.set_pct("bob", 200);
    assert_eq!(g.get("bob") as f32 / 100.0, 2.0);
    g.set_pct("bob", 999);
    assert_eq!(g.get("bob") as f32 / 100.0, 2.0);
}

#[test]
fn rename_preserves_gain() {
    let mut g = PeerGains::new();
    g.set_pct("old", 150);
    g.rename("old", "new");
    assert_eq!(g.get("new") as f32 / 100.0, 1.5);
    assert_eq!(g.get("old") as f32 / 100.0, 1.0);
}

#[test]
fn roundtrip_pct_map() {
    let mut pcts = Table::new();
    pcts.insert(text("a"), 50u32);
    pcts.insert(text("b"), 100u32);
    let g = PeerGains::from_pct_map(&pcts);
    let back = g.pct_map();
    assert_eq!(back.get(&text("a")), Some(&50));
    assert_eq!(back.get(&text("b")), None);
}

#[test]
fn fingerprint_is_16_hex_chars() {
    let id = Identity::generate();
    let fp = id.fingerprint();
    assert_eq!(fp.len(), 16);
    assert!(fp.chars().all(|c| c.is_ascii_hexdigit()));
}

#[test]
fn pubkey_is_32_bytes() {
    let id = Identity::generate();
    assert_eq!(id.pubkey().len(), 32);
}

#[test]
fn save_load_roundtrip() {
    let id = Identity::generate();
    let saved = id.to_bytes();
    assert_eq!(saved.len(), 32);
    let loaded = Identity::from_bytes(&saved).unwrap();
    assert_eq!(id.pubkey(), loaded.pubkey());
}

#[test]
fn a_known_secret_has_its_known_public_key() {
    // The first test vector of RFC 8032.
    let secret: [u8; 32] = [
        0x9d, 0x61, 0xb1, 0x9d, 0xef, 0xfd, 0x5a, 0x60, 0xba, 0x84, 0x4a, 0xf4, 0x92, 0xec, 0x2c,
        0xc4, 0x44, 0x49, 0xc5, 0x69, 0x7b, 0x32, 0x69, 0x19, 0x70, 0x3b, 0xac, 0x03, 0x1c, 0xae,
        0x7f, 0x60,
    ];
    let id = Identity::from_bytes(&secret).unwrap();
    assert_eq!(id.pubkey()[..4], [0xd7, 0x5a, 0x98, 0x01]);
    assert!(Identity::from_bytes(&secret[..31]).is_none());
    assert_ne!(Identity::generate().pubkey(), id.pubkey());
}

#[test]
fn default_settings_all_none() {
    let s = UserSettings::default();
    assert!(s.server.is_none());
    assert!(s.input_device.is_none());
    assert!(s.output_device.is_none());
    assert!(s.vad_level.is_none());
    assert!(s.input_gain.is_none());
    assert!(s.output_vol.is_none());
    assert!(s.name.is_none());
    assert!(s.trusted_servers.is_empty());
}

#[test]
fn settings_come_back_after_a_restart() {
    let mut app = App::new(false, text("example.com:7100"));
    app.vad_level = 30;
    app.input_gain = 120;
    app.output_vol = 80;
    app.name = Some(text("alice"));
    app.input_device = Some(text("mic"));
    let saved = build_settings(&app);
    let again = start_app(&saved, true);
    assert_eq!(again.server_addr, "example.com:7100");
    assert_eq!(again.vad_level, 30);
    assert_eq!(again.input_gain, 120);
    assert_eq!(again.output_vol, 80);
    assert_eq!(again.name.as_deref(), Some("alice"));
    assert_eq!(again.input_device.as_deref(), Some("mic"));
    assert!(again.muted);
}

#[test]
fn trust_is_saved_only_where_something_is_trusted() {
    let app = App::new(false, text("example.com:7100"));
    let mut tofu = TofuState::new(Table::new());
    assert!(settings_with_trust(&app, &tofu).is_none());
    tofu.trust_server("example.com:7100", "sha256:aaa");
    let s = settings_with_trust(&app, &tofu).unwrap();
    assert_eq!(s.trusted_servers.len(), 1);
    assert!(is_false(&false) && !is_false(&true));
    assert!(is_zero(&0) && !is_zero(&1));
}

#[test]
fn settings_move_to_the_config_dir_once() {
    assert_eq!(settings_place(true, false), SettingsPlace::Migrate);
    assert_eq!(settings_place(true, true), SettingsPlace::ConfigDir);
    assert_eq!(settings_place(false, false), SettingsPlace::ConfigDir);
}

#[test]
fn the_default_port_is_added() {
    assert_eq!(with_default_port("example.com"), "example.com:7100");
    assert_eq!(with_default_port("example.com:9000"), "example.com:9000");
    assert_eq!(tls_host("example.com:9000"), "example.com");
    match hello_message("1.2.3", Some(vec![1])) {
        ClientMessage::Hello { version, protocol, pubkey } => {
            assert_eq!(version, "1.2.3");
            assert_eq!(protocol, 3);
            assert_eq!(pubkey, Some(vec![1]));
        }
        other => panic!("{:?}", other),
    }
}

#[test]
fn an_inbox_puts_frames_together() {
    let mut inbox = Inbox::new();
    let mut bytes = encode_tcp_frame(&[1, 2]);
    bytes.extend_from_slice(&encode_tcp_frame(&[3]));
    assert_eq!(inbox.feed(&bytes[..5]).unwrap().len(), 0);
    assert_eq!(inbox.feed(&bytes[5..]).unwrap(), vec![vec![1u8, 2], vec![3]]);
    assert!(matches!(inbox.feed(&[0xFF; 4]), Err(InputError::Frame(_))));
    let mut inbox = Inbox::new();
    assert!(matches!(inbox.feed(&vec![0u8; 131_073]), Err(InputError::Overflow(131_073))));
}

fn online() -> App {
    let mut app = App::new(false, text("example.com:7100"));
    app.conn_state = ConnectionState::Connected;
    app.link = Link::Open;
    app
}

fn last(app: &App) -> &str {
    app.messages.last().map(|m| m.as_str()).unwrap_or("")
}

#[test]
fn commands_send_what_they_say() {
    let mut app = online();
    let e = app.handle_command("/create My Room");
    assert!(matches!(&e[..], [Effect::Send(ClientMessage::CreateChannel { name: Some(n) })] if n == "myroom"));
    assert_eq!(last(&app), "> /create myroom");
    let e = app.handle_command("/create");
    assert!(matches!(&e[..], [Effect::Send(ClientMessage::CreateChannel { name: None })]));
    let e = app.handle_command("#abc12");
    assert!(matches!(&e[..], [Effect::Send(ClientMessage::JoinChannel { channel_id })] if channel_id == "abc12"));
    let e = app.handle_command("/j abc12");
    assert!(matches!(&e[..], [Effect::Send(ClientMessage::JoinChannel { .. })]));
    let e = app.handle_command("/l");
    assert!(e.iter().any(|x| matches!(x, Effect::Send(ClientMessage::LeaveChannel))));
    let e = app.handle_command("/ls");
    assert!(matches!(&e[..], [Effect::Send(ClientMessage::ListChannels)]));
    let e = app.handle_command("hello there");
    assert!(matches!(&e[..], [Effect::Send(ClientMessage::ChatMessage { text })] if text == "hello there"));
    assert_eq!(last(&app), "you: hello there");
    app.handle_command("/nonsense");
    assert_eq!(last(&app), "unknown command: /nonsense (try /help)");
    app.handle_command("/create !!!");
    assert_eq!(last(&app), "channel name must contain [a-z0-9-]");
    app.handle_command("/q");
    assert!(app.should_quit);
}

#[test]
fn offline_commands_send_nothing() {
    let mut app = App::new(false, text("example.com:7100"));
    for line in ["/create", "/ls", "/leave", "#abc12", "hello", "/list"] {
        let e = app.handle_command(line);
        assert!(!e.iter().any(|x| matches!(x, Effect::Send(_))));
    }
}

#[test]
fn muting_twice_changes_nothing() {
    let mut app = online();
    app.handle_command("/mute");
    assert!(app.muted);
    assert_eq!(last(&app), "muted");
    app.handle_command("/m");
    assert!(!app.muted);
    assert_eq!(last(&app), "unmuted");
}

#[test]
fn config_changes_levels() {
    let mut app = online();
    app.handle_command("/config vad 30");
    assert_eq!(app.vad_level, 30);
    app.handle_command("/config vad off");
    assert_eq!(app.vad_level, 0);
    app.handle_command("/config gain 150");
    assert_eq!(app.input_gain, 150);
    app.handle_command("/cfg vol 50");
    assert_eq!(app.output_vol, 50);
    app.handle_command("/config gain 201");
    assert_eq!(last(&app), "usage: /config gain <0-200> (default 100)");
    assert_eq!(app.input_gain, 150);
    let e = app.handle_command("/config input 2");
    assert!(matches!(&e[..], [Effect::PickInput(2)]));
    assert_eq!(threshold_string(30), "0.0300");
}

#[test]
fn an_invite_is_printed() {
    let mut app = online();
    app.channel = Some(text("abc12"));
    app.handle_command("/invite");
    assert_eq!(last(&app), "tc://example.com/abc12");
}

#[test]
fn messages_change_the_client() {
    let mut app = online();
    let e = app.handle_server_message(
        ServerMessage::ChannelCreated { channel_id: text("abc12") },
        "1.0.0",
    );
    assert!(matches!(&e[..], [Effect::Send(ClientMessage::JoinChannel { channel_id })] if channel_id == "abc12"));
    let e = app.handle_server_message(
        ServerMessage::JoinedChannel {
            channel_id: text("abc12"),
            participants: vec![text("alice")],
            udp_token: 7,
            voice_key: vec![1; 32],
        },
        "1.0.0",
    );
    assert!(e.iter().any(|x| matches!(x, Effect::StartVoice)));
    assert_eq!(app.channel.as_deref(), Some("abc12"));
    assert_eq!(app.participants, vec![text("alice")]);
    app.handle_server_message(ServerMessage::PeerJoined { peer_name: text("bob") }, "1.0.0");
    assert_eq!(app.participants.len(), 2);
    app.handle_server_message(
        ServerMessage::NameChanged { old_name: text("bob"), new_name: text("rob") },
        "1.0.0",
    );
    assert_eq!(app.participants, vec![text("alice"), text("rob")]);
    app.handle_server_message(
        ServerMessage::ChatMessage { from: text("rob"), text: text("hi") },
        "1.0.0",
    );
    assert_eq!(last(&app), "rob: hi");
    app.handle_server_message(ServerMessage::PeerLeft { peer_name: text("rob") }, "1.0.0");
    assert_eq!(app.participants, vec![text("alice")]);
    app.handle_server_message(
        ServerMessage::ChannelList {
            channels: vec![ChannelInfo { channel_id: text("pub-lobby"), participant_count: 3 }],
        },
        "1.0.0",
    );
    assert_eq!(last(&app), "  pub-lobby (3 users)");
    app.handle_server_message(ServerMessage::Error { message: text("no") }, "1.0.0");
    assert_eq!(last(&app), "error: no");
    let e = app.handle_server_message(ServerMessage::LeftChannel, "1.0.0");
    assert!(e.iter().any(|x| matches!(x, Effect::StopVoice)));
    assert!(app.channel.is_none());
}

#[test]
fn a_lost_connection_comes_back_to_its_channel() {
    let mut app = online();
    app.channel = Some(text("abc12"));
    app.on_disconnected(1_000);
    assert!(!app.conn_state.is_connected());
    assert!(app.on_tick(1_500).is_empty());
    let e = app.on_tick(60_000);
    assert!(matches!(&e[..], [Effect::Connect(Occasion::Automatic)]));
    let e = app.on_connected(Occasion::Automatic, &Some(TofuResult::TrustedKnown));
    assert!(e.iter().any(
        |x| matches!(x, Effect::Send(ClientMessage::JoinChannel { channel_id }) if channel_id == "abc12")
    ));
    assert!(app.conn_state.is_connected());
}

#[test]
fn reconnecting_waits_ever_longer() {
    let waits: Vec<u64> = (0..8).map(reconnect_delay_ms).collect();
    assert_eq!(waits, vec![1000, 2000, 4000, 8000, 16000, 30000, 30000, 30000]);
}

#[test]
fn a_failed_connection_is_tried_again_where_it_was_automatic() {
    let mut app = App::new(false, text("example.com:7100"));
    app.on_connect_failed(Occasion::First, &None, "refused", 0);
    assert!(app.messages.iter().any(|m| m == "connection failed: refused"));
    assert!(app.next_reconnect.is_none());
    let mut app = online();
    app.on_disconnected(0);
    app.on_tick(60_000);
    app.on_connect_failed(Occasion::Automatic, &None, "refused", 60_000);
    assert!(!app.conn_state.is_connected());
    assert!(app.next_reconnect.is_some());
}

#[test]
fn voice_and_devices_are_reported() {
    let mut app = online();
    app.on_voice_started(false, &Ok(()));
    assert!(app.voice_active);
    app.on_voice_started(false, &Err(text("no mic")));
    assert_eq!(last(&app), "voice error: no mic");
    let devices = list_devices(&vec![Some(text("a")), None, Some(text("b"))], "b");
    assert_eq!(devices.len(), 2);
    assert!(devices[1].is_default);
    let index = devices[1].index;
    assert_eq!(name_at_index(&devices, index).as_deref(), Some("b"));
    app.show_config(&Ok(list_devices(&vec![Some(text("a"))], "a")), &Err(text("none")));
    assert!(app.messages.iter().any(|m| m == "  error: none"));
    let e = app.pick_device(true, &Ok(devices), index);
    assert_eq!(app.input_device.as_deref(), Some("b"));
    assert!(e.iter().any(|x| matches!(x, Effect::SaveSettings)));
}

#[test]
fn devices_are_found_by_name() {
    let names = vec![Some(text("a")), Some(text("b"))];
    assert_eq!(choose_device("input", Some("b"), &names, true), Ok(DeviceChoice::Place(1)));
    assert_eq!(
        choose_device("input", Some("c"), &names, true),
        Err(text("input device 'c' not found"))
    );
    assert_eq!(choose_device("input", None, &names, true), Ok(DeviceChoice::Standard));
    assert_eq!(
        choose_device("output", None, &names, false),
        Err(text("no output device available"))
    );
    assert_eq!(choose_or_default("output", Some("c"), &names, true), Ok(DeviceChoice::Standard));
    assert_eq!(
        choose_or_default("input", Some("c"), &names, false),
        Err(text("no input device available"))
    );
    assert_eq!(device_frame_size(44_100), 882);
    assert_eq!(latency_cap(4_800, 24_000), 2_400);
}

#[test]
fn sound_is_cut_into_frames() {
    let mut chunker: Chunker<i16> = Chunker::new(3);
    assert_eq!(chunker.feed(&[1, 2]), Vec::<Vec<i16>>::new());
    assert_eq!(chunker.feed(&[3, 4, 5, 6, 7]), vec![vec![1, 2, 3], vec![4, 5, 6]]);
    let mut queue: PlaybackQueue<i16> = PlaybackQueue::new();
    queue.extend(&[1, 2, 3, 4]);
    queue.limit(3);
    assert_eq!(queue.fill(4, 2, 0), vec![2, 2, 3, 3]);
    assert_eq!(queue.fill(4, 2, 0), vec![4, 4, 0, 0]);
    let mut gate = ToneGate::new(1000, 2);
    assert!(gate.sounds() && gate.sounds() && !gate.sounds());
}

#[test]
fn keys_edit_the_line() {
    let mut app = online();
    for c in "/mu".chars() {
        app.on_key(Key::Char(c), false);
    }
    app.on_key(Key::Tab, false);
    assert!(app.input.starts_with("/mute"));
    match app.on_key(Key::Enter, false) {
        Action::Command(line) => assert_eq!(line.trim(), "/mute"),
        other => panic!("{:?}", other),
    }
    assert_eq!(app.input, "");
    app.on_key(Key::Up, false);
    assert_eq!(app.input.trim(), "/mute");
    app.on_key(Key::Down, false);
    assert_eq!(app.input, "");
    app.on_key(Key::Char('x'), false);
    app.on_key(Key::Backspace, false);
    assert_eq!(app.input, "");
    assert!(matches!(app.on_key(Key::Char('c'), true), Action::Quit));
}

#[test]
fn the_message_list_is_bounded() {
    let mut app = online();
    for i in 0..600 {
        app.add_message(format!("{}", i));
    }
    assert_eq!(app.messages.len(), 500);
    assert_eq!(last(&app), "599");
    let (from, to) = app.visible_lines(10);
    assert_eq!((from, to), (490, 500));
}

#[test]
fn the_status_bar_names_the_channel() {
    let mut app = online();
    app.channel = Some(text("abc12"));
    let v = status_segments(&app);
    assert!(v.iter().any(|s| s.text == " #abc12 " && s.tone == Tone::Good));
    let w = WebState::from_app(&app);
    assert_eq!(w.conn_state, "connected");
    assert_eq!(w.channel.as_deref(), Some("abc12"));
    let line = web_line(&WebCommand::Command { text: text("  hi ") });
    assert_eq!(line.as_deref(), Some("hi"));
    assert_eq!(web_line(&WebCommand::Command { text: text("  ") }), None);
}

#[test]
fn the_rain_is_drawn_on_the_screen() {
    let mut ms = MatrixState::new();
    for _ in 0..60 {
        ms.tick(40, 10, 100_000);
    }
    let cells = ms.cells(0, 10, 40);
    assert!(!cells.is_empty());
    assert!(cells.iter().all(|c| c.x < 40 && c.y < 10 && MATRIX_CHARSET.contains(c.ch)));
    assert!(cells.iter().any(|c| c.shade == Shade::Bright));
    assert!(cells.iter().all(|c| match c.shade {
        Shade::Green(g) => (40..=255).contains(&g),
        _ => true,
    }));
    assert!(ms.cells(5, 5, 40).is_empty());
    assert!(ms.cells(0, 10, 0).is_empty());
}

#[test]
fn completions_are_listed() {
    let mut app = online();
    for c in "/co".chars() {
        app.on_key(Key::Char(c), false);
    }
    let lines = completion_lines(&app);
    assert_eq!(lines.len(), 2);
    assert_eq!(lines[0].0, "/config      audio device selection");
    assert_eq!(lines[1].0, "/connect     join a channel");
    assert_eq!(lines.iter().filter(|l| l.1).count(), 1);
    assert_eq!(popup_area(0, 20, 80, 2), (1, 18, 40, 2));
    assert_eq!(popup_area(0, 5, 30, 11), (1, 0, 28, 7));
    assert_eq!(scroll_note(&app), None);
    app.scroll_offset = 3;
    assert_eq!(scroll_note(&app).as_deref(), Some(" ↑ 3 more "));
}

#[test]
fn a_sound_check_is_asked_for_and_ends() {
    let mut app = online();
    let e = app.handle_command("/echotest");
    assert!(matches!(&e[..], [Effect::Send(ClientMessage::StartEchoTest)]));
    let e = app.handle_server_message(
        ServerMessage::EchoTestReady { channel_id: text("echo-1"), udp_token: 1, voice_key: vec![] },
        "1.0.0",
    );
    assert!(matches!(&e[..], [Effect::StartEcho]));
    assert_eq!(app.voice_join_params.as_ref().unwrap().channel_id, "echo-1");
    let e = app.on_echo_over();
    assert!(matches!(&e[..], [Effect::Send(ClientMessage::StopEchoTest), Effect::StopVoice]));
    assert!(app.voice_join_params.is_none());
    app.channel = Some(text("abc12"));
    assert!(app.handle_command("/echotest").is_empty());
    assert_eq!(last(&app), "leave the channel first");
}
