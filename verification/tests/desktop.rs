//! The desktop client.

use tc::addr::Ip;
use tc::config;
use tc::deeplink::{invite_from_parts, parse_invite, Gate, UrlParts};
use tc::desktop::{
    backoff_seconds, next_reconnect, vad_threshold_for, voice_failed, AppCore, Reaction,
    StartParams, VoiceMode,
};
use tc::dev_log::{dropped_notice, record_field, DevLogLayer, LogLevel, Throttle};
use tc::dm::{direct_message, dm_channel, fingerprint_of, forget_dm_peer, list_dm_peers, resolve_peer};
use tc::events::{EchoResult, Event};
use tc::history::{file_name_for, is_blank, last_lines};
use tc::hotkeys::{bind, bindings, on_hotkey, rebinding, unbind, HotkeyAction, HotkeyEffect};
use tc::identity::Identity;
use tc::invite::invite_url;
use tc::loadtest::{create_reply, join_reply, test_packet, CreateReply, LoadPlan};
use tc::messages::{ClientMessage, ServerMessage};
use tc::overlay::{is_overlay_position, is_overlay_visibility, place, Area};
use tc::protocol::next_sequence;
use tc::server_registry::{
    forget_server, label_server, list_servers, record_channel, set_server_favourite,
};
use tc::settings::UserSettings;
use tc::table::Table;
use tc::update_check::{is_newer, release_info, update_to_offer};
use tc::voice_actor::{
    echo_result, follows_default, CallDevices, LevelPump, Reopen, Source, Supervisor, VoiceActor,
    VoiceStats,
};

fn text(s: &str) -> String {
    s.to_string()
}

#[test]
fn parses_host_only() {
    let i = parse_invite("tc://example.com").unwrap();
    assert_eq!(i.addr, format!("example.com:{}", config::TCP_PORT));
    assert_eq!(i.channel, None);
}

#[test]
fn parses_host_port() {
    let i = parse_invite("tc://example.com:9000").unwrap();
    assert_eq!(i.addr, "example.com:9000");
}

#[test]
fn parses_host_port_channel() {
    let i = parse_invite("tc://example.com:9000/lobby").unwrap();
    assert_eq!(i.addr, "example.com:9000");
    assert_eq!(i.channel.as_deref(), Some("lobby"));
}

#[test]
fn parses_host_channel() {
    let i = parse_invite("tc://example.com/pub-room").unwrap();
    assert_eq!(i.addr, format!("example.com:{}", config::TCP_PORT));
    assert_eq!(i.channel.as_deref(), Some("pub-room"));
}

#[test]
fn rejects_other_scheme() {
    assert!(parse_invite("https://example.com/lobby").is_none());
}

#[test]
fn invites_without_a_host_lead_nowhere() {
    assert!(parse_invite("not a link").is_none());
    let parts = UrlParts { scheme: text("tc"), host: None, port: None, path: text("/x") };
    assert!(invite_from_parts(&Some(parts)).is_none());
    assert!(invite_from_parts(&None).is_none());
}

#[test]
fn a_printed_invite_leads_back() {
    let url = invite_url("example.com:9000", Some("lobby"));
    let i = parse_invite(&url).unwrap();
    assert_eq!(i.addr, "example.com:9000");
    assert_eq!(i.channel.as_deref(), Some("lobby"));
}

#[test]
fn an_early_invite_waits_for_the_window() {
    let mut store = Gate::default();
    assert!(store.forward("tc://a.com").is_none());
    assert!(store.forward("tc://b.com").is_none());
    assert_eq!(store.take_pending_invite().unwrap().addr, "b.com:7100");
    assert!(store.take_pending_invite().is_none());
    assert_eq!(store.forward("tc://c.com").unwrap().addr, "c.com:7100");
}

#[test]
fn detects_newer() {
    assert!(is_newer("1.9.20", "1.9.19"));
    assert!(is_newer("1.10.0", "1.9.19"));
    assert!(is_newer("2.0.0", "1.9.19"));
}

#[test]
fn ignores_same_or_older() {
    assert!(!is_newer("1.9.19", "1.9.19"));
    assert!(!is_newer("1.9.18", "1.9.19"));
    assert!(!is_newer("1.8.99", "1.9.0"));
}

#[test]
fn malformed_never_newer() {
    assert!(!is_newer("garbage", "1.9.19"));
    assert!(!is_newer("1.9.20-rc1", "1.9.20"));
}

#[test]
fn only_finished_releases_are_offered() {
    let info = release_info("v2.0.0", "https://x", false, false).unwrap();
    assert_eq!(info.version, "2.0.0");
    assert!(release_info("v2.0.0", "https://x", true, false).is_none());
    assert!(release_info("v2.0.0", "https://x", false, true).is_none());
    assert!(update_to_offer(Some(info.clone()), "1.0.0").is_some());
    assert!(update_to_offer(Some(info), "2.0.0").is_none());
    assert!(update_to_offer(None, "1.0.0").is_none());
}

#[test]
fn direct_message_partners_are_listed_by_recency() {
    let mut peers = Vec::new();
    tc::dm::touch(&mut peers, "aabb", "alice", 1);
    tc::dm::touch(&mut peers, "ccdd", "bob", 5);
    tc::dm::touch(&mut peers, "aabb", "alice2", 3);
    let list = list_dm_peers(&peers);
    assert_eq!(list.len(), 2);
    assert_eq!(list[0].name, "bob");
    assert_eq!(list[1].name, "alice2");
    assert_eq!(resolve_peer(&peers, &fingerprint_of("ccdd")).as_deref(), Some("ccdd"));
    let key = "AB".repeat(32);
    assert_eq!(resolve_peer(&peers, &key), Some("ab".repeat(32)));
    assert_eq!(resolve_peer(&peers, "0123456789abcdef"), None);
    assert_eq!(resolve_peer(&peers, "bob"), None);
    forget_dm_peer(&mut peers, "ccdd");
    assert_eq!(peers.len(), 1);
    assert_eq!(dm_channel("aabb"), "@dm:aabb");
}

#[test]
fn a_direct_message_goes_to_a_key() {
    match direct_message("00ff", "hi").unwrap() {
        ClientMessage::DirectMessage { to_pubkey, text } => {
            assert_eq!(to_pubkey, vec![0, 255]);
            assert_eq!(text, "hi");
        }
        other => panic!("{:?}", other),
    }
    let e = direct_message("xyz", "hi").unwrap_err();
    assert!(e.starts_with("bad pubkey hex: "));
    let id = Identity::generate();
    let hex: String = id.pubkey().iter().map(|b| format!("{:02x}", b)).collect();
    assert_eq!(fingerprint_of(&hex), id.fingerprint());
}

#[test]
fn servers_are_remembered() {
    let mut servers = Vec::new();
    tc::server_registry::touch(&mut servers, "a:7100", 1);
    tc::server_registry::touch(&mut servers, "b:7100", 2);
    record_channel(&mut servers, "a:7100", "lobby");
    label_server(&mut servers, "a:7100", Some(text("home")));
    set_server_favourite(&mut servers, "a:7100", true);
    let list = list_servers(&servers);
    assert_eq!(list.len(), 2);
    assert_eq!(list[0].addr, "a:7100");
    assert_eq!(list[0].label.as_deref(), Some("home"));
    assert_eq!(list[0].last_channel.as_deref(), Some("lobby"));
    forget_server(&mut servers, "a:7100");
    assert_eq!(servers.len(), 1);
}

#[test]
fn history_shows_the_newest_lines() {
    assert_eq!(last_lines(vec![1, 2, 3, 4], Some(2)), vec![3, 4]);
    assert_eq!(last_lines(vec![1, 2], Some(5)), vec![1, 2]);
    assert_eq!(last_lines(vec![1, 2], None), vec![1, 2]);
    assert!(is_blank("  \t"));
    assert!(!is_blank(" x "));
    let a = file_name_for("a:7100", "lobby");
    assert!(a.ends_with(".jsonl"));
    assert_eq!(a, file_name_for("a:7100", "lobby"));
    assert_ne!(a, file_name_for("b:7100", "lobby"));
}

#[test]
fn hotkeys_are_restored() {
    let mut keys: Table<String, String> = Table::new();
    keys.insert(text("fly"), text("F1"));
    keys.insert(text("QuickJoin"), text("F2"));
    bind(&mut keys, HotkeyAction::Mute, "Ctrl+M");
    assert_eq!(
        bindings(&keys),
        vec![(HotkeyAction::QuickJoin, text("F2")), (HotkeyAction::Mute, text("Ctrl+M"))]
    );
    assert!(bindings(&Table::new()).is_empty());
}

#[test]
fn hotkeys_have_names() {
    for a in [HotkeyAction::Mute, HotkeyAction::Ptt, HotkeyAction::QuickJoin] {
        assert_eq!(HotkeyAction::parse(a.as_str()), Some(a));
    }
    assert_eq!(HotkeyAction::parse("fly"), None);
    let mut keys = Table::new();
    bind(&mut keys, HotkeyAction::Mute, "Ctrl+M");
    let (action, old) = rebinding(&keys, "mute").unwrap();
    assert_eq!(action, HotkeyAction::Mute);
    assert_eq!(old.as_deref(), Some("Ctrl+M"));
    assert_eq!(rebinding(&keys, "fly").unwrap_err(), "unknown action: fly");
    assert_eq!(unbind(&mut keys, "mute").unwrap().as_deref(), Some("Ctrl+M"));
    assert!(unbind(&mut keys, "mute").unwrap().is_none());
    assert!(unbind(&mut keys, "fly").is_err());
}

#[test]
fn push_to_talk_opens_while_held() {
    let (muted, _) = on_hotkey(true, HotkeyAction::Ptt, true);
    assert!(!muted);
    let (muted, _) = on_hotkey(muted, HotkeyAction::Ptt, false);
    assert!(muted);
    let (muted, effect) = on_hotkey(false, HotkeyAction::Mute, true);
    assert!(muted);
    assert_eq!(effect, HotkeyEffect::LogMuted);
    let (muted, _) = on_hotkey(muted, HotkeyAction::Mute, true);
    assert!(!muted);
    assert_eq!(on_hotkey(true, HotkeyAction::QuickJoin, true).1, HotkeyEffect::QuickJoin);
}

#[test]
fn the_log_is_throttled() {
    let mut t = Throttle::new(0);
    let passed = (0..40).filter(|_| t.throttle_admit(10).is_some()).count();
    assert_eq!(passed, 25);
    assert_eq!(t.throttle_admit(1_000), Some(15));
    assert_eq!(t.throttle_admit(1_000), Some(0));
    let p = dropped_notice(15, 1_000);
    assert_eq!(p.message, "…15 dev log lines dropped (rate limit)");
    assert_eq!(record_field("", "message", "hello").trim(), "hello");
}

#[test]
fn the_log_is_filtered() {
    let mut layer = DevLogLayer::new();
    assert!(layer.on_event(LogLevel::Error, "tc_client", 0).is_none());
    layer.set_enabled(true);
    assert!(layer.on_event(LogLevel::Error, "hyper", 0).is_none());
    assert!(layer.on_event(LogLevel::Trace, "tc_client", 0).is_none());
    assert_eq!(layer.on_event(LogLevel::Debug, "tc_client", 0), Some(0));
}

#[test]
fn the_first_log_window_begins_with_the_first_line() {
    let mut layer = DevLogLayer::new();
    layer.set_enabled(true);
    assert!(layer.on_event(LogLevel::Info, "hyper", 0).is_none());
    for _ in 0..25 {
        assert_eq!(layer.on_event(LogLevel::Info, "tc_client", 990), Some(0));
    }
    assert_eq!(layer.on_event(LogLevel::Info, "tc_client", 1_000), None);
    assert_eq!(layer.on_event(LogLevel::Info, "tc_client", 1_989), None);
    assert_eq!(layer.on_event(LogLevel::Info, "tc_client", 1_990), Some(2));
}

#[test]
fn devices_are_supervised_in_passes() {
    let mut s = Supervisor::new(Some(text("mic")), None);
    let mic = |name: Option<&str>| Reopen { is_input: true, name: name.map(text) };
    let speaker = |name: Option<&str>| Reopen { is_input: false, name: name.map(text) };

    assert_eq!(s.tick(Some((false, false)), 0), (vec![mic(Some("mic")), speaker(None)], true));
    let devices = |open: &str| {
        Some(CallDevices {
            default_input: Some(text("other")),
            open_input: Some(text("mic")),
            default_output: Some(text("b")),
            open_output: Some(text(open)),
        })
    };
    let outputs = vec![text("a"), text("b")];
    assert_eq!(s.survey(&devices("a"), &vec![], &outputs), vec![speaker(None)]);
    assert_eq!(s.tick(Some((false, true)), 1_000), (vec![], false));
    assert_eq!(s.tick(Some((true, true)), 2_000), (vec![], true));
    assert_eq!(s.survey(&devices("b"), &vec![text("mic")], &outputs), vec![mic(Some("mic"))]);
    assert_eq!(s.tick(None, 4_000), (vec![], true));
    assert_eq!(s.survey(&None, &vec![], &outputs), vec![]);
}

#[test]
fn the_overlay_stays_on_its_monitor() {
    let monitor = Area { x: 0, y: 0, width: 1920, height: 1080 };
    assert_eq!(place("tl", monitor, 300, 200, 16), (16, 16));
    assert_eq!(place("tr", monitor, 300, 200, 16), (1604, 16));
    assert_eq!(place("br", monitor, 300, 200, 16), (1604, 864));
    assert!(is_overlay_position("tr"));
    assert!(!is_overlay_position("middle"));
    assert!(is_overlay_visibility("always"));
    assert!(!is_overlay_visibility("sometimes"));
}

#[test]
fn voice_modes_have_names() {
    for m in [VoiceMode::Open, VoiceMode::Vad, VoiceMode::Ptt] {
        assert_eq!(VoiceMode::parse(m.as_str()), Some(m));
    }
    assert_eq!(VoiceMode::parse("loud"), None);
    assert_eq!(vad_threshold_for(VoiceMode::Open, 40), 0);
    assert_eq!(vad_threshold_for(VoiceMode::Ptt, 40), 0);
    assert_eq!(vad_threshold_for(VoiceMode::Vad, 0), 0);
    assert_eq!(vad_threshold_for(VoiceMode::Vad, 40), 20_600);
    assert_eq!(vad_threshold_for(VoiceMode::Vad, 999), 50_000);
}

fn fresh_core() -> AppCore {
    AppCore::new(None, &UserSettings::default())
}

fn connected() -> AppCore {
    let mut c = fresh_core();
    c.begin_connect("example.com");
    c.on_connected("example.com:7100", Ip::V4(0x0102_0304), 9);
    c
}

#[test]
fn settings_of_the_desktop_come_back() {
    let mut c = fresh_core();
    c.set_name("alice");
    c.set_voice_mode("ptt").unwrap();
    c.apply_input_gain(120);
    c.apply_output_vol(80);
    c.set_language("ru").unwrap();
    let saved = c.settings();
    let d = AppCore::new(None, &saved);
    assert_eq!(d.name.as_deref(), Some("alice"));
    assert_eq!(d.voice_mode, VoiceMode::Ptt);
    assert_eq!(d.input_gain_pct, 120);
    assert_eq!(d.output_vol_pct, 80);
    assert_eq!(d.language, "ru");
    let mut e = fresh_core();
    e.import_settings(&saved);
    assert_eq!(e.voice_mode, VoiceMode::Ptt);
    assert_eq!(e.input_gain_pct, 120);
}

#[test]
fn the_desktop_refuses_unknown_settings() {
    let mut c = fresh_core();
    assert_eq!(c.set_voice_mode("loud").unwrap_err(), "unknown mode: loud");
    assert_eq!(c.set_language("xx").unwrap_err(), "unsupported language: xx");
    assert!(c.set_overlay_position("middle").is_err());
    assert!(c.set_overlay_visibility("sometimes").is_err());
    c.set_overlay_position("bl").unwrap();
    assert!(matches!(c.overlay_config(), Event::OverlayConfig(_)));
}

#[test]
fn what_needs_a_connection_says_so() {
    let mut c = fresh_core();
    assert!(c.check_connected().is_err());
    assert!(c.invite_link().is_err());
    assert!(c.start_echo_test().is_err());
    assert!(c.send_dm_to("00", "hi", 0).is_err());
    assert_eq!(c.begin_connect("example.com"), "example.com:7100");
    c.on_connected("example.com:7100", Ip::V4(1), 0);
    assert!(c.check_connected().is_ok());
    assert_eq!(c.invite_link().unwrap(), "tc://example.com");
    assert!(matches!(c.start_echo_test(), Ok(ClientMessage::StartEchoTest)));
    c.channel = Some(text("x"));
    assert_eq!(c.start_echo_test().unwrap_err(), "leave the channel first");
    c.tear_down_session();
    assert!(c.check_connected().is_err());
}

#[test]
fn joining_starts_voice_muted() {
    let mut c = connected();
    let v = c.handle(
        "example.com:7100",
        ServerMessage::JoinedChannel {
            channel_id: text("abc12"),
            participants: vec![text("me")],
            udp_token: 4,
            voice_key: vec![1; 32],
        },
        10,
    );
    assert_eq!(c.channel.as_deref(), Some("abc12"));
    assert!(c.muted);
    assert!(v.iter().any(
        |r| matches!(r, Reaction::StartVoice(p) if p.channel_id == "abc12" && p.muted && !p.echo_test)
    ));
    assert!(v.iter().any(|r| matches!(r, Reaction::Emit(Event::JoinedChannel(_)))));
    let v = c.handle("example.com:7100", ServerMessage::LeftChannel, 11);
    assert!(v.iter().any(|r| matches!(r, Reaction::StopVoice)));
    assert!(c.channel.is_none());
    let v = c.handle(
        "example.com:7100",
        ServerMessage::EchoTestReady { channel_id: text("echo-1"), udp_token: 1, voice_key: vec![2; 32] },
        12,
    );
    assert!(v.iter().any(|r| matches!(r, Reaction::StartEcho(p) if p.echo_test && !p.muted)));
}

#[test]
fn a_direct_message_is_recorded() {
    let mut c = connected();
    let v = c.handle(
        "example.com:7100",
        ServerMessage::DirectMessage { from_pubkey: vec![0xAB, 1], from_name: text("bob"), text: text("hi") },
        33,
    );
    assert_eq!(c.dm_peers.len(), 1);
    assert_eq!(c.dm_peers[0].pubkey_hex, "ab01");
    assert!(v.iter().any(
        |r| matches!(r, Reaction::Record { channel, .. } if channel == "@dm:ab01")
    ));
    let (msg, _) = c.send_dm_to("ab01", "yo", 34).unwrap();
    assert!(matches!(msg, ClientMessage::DirectMessage { .. }));
}

#[test]
fn the_desktop_reconnects() {
    assert_eq!(
        (0..6).map(backoff_seconds).collect::<Vec<u64>>()[..2],
        [5, 5]
    );
    let (attempt, event) = next_reconnect(0);
    assert_eq!(attempt, 1);
    assert!(matches!(event, Event::ConnectionState(_)));
    let mut c = connected();
    assert!(c.on_reconnected(Ip::V4(7)).is_empty());
    c.set_name("alice");
    let v = c.on_reconnected(Ip::V4(8));
    assert!(matches!(&v[..], [Reaction::Send(ClientMessage::SetName { name })] if name == "alice"));
    assert_eq!(c.conn, Some(Ip::V4(8)));
    let status = c.app_status("1.2.3");
    assert_eq!(status.version, "1.2.3");
    assert!(status.connected);
    assert!(matches!(voice_failed(false, "x"), Event::Error(e) if e.message == "voice failed: x"));
    assert!(matches!(voice_failed(true, "x"), Event::Error(e) if e.message == "sound check failed: x"));
}

fn params(channel: &str) -> StartParams {
    StartParams {
        server_ip: Ip::V4(1),
        channel_id: text(channel),
        udp_token: 1,
        voice_key: vec![0; 32],
        muted: false,
        input_device: None,
        output_device: None,
        sender_name: text("me"),
        echo_test: false,
    }
}

#[test]
fn voice_is_restarted_now_and_then() {
    let mut a = VoiceActor::new();
    assert_eq!(a.reported(), Source::Nothing);
    a.start(params("abc12"));
    a.call_started(false);
    assert!(a.restart_due(10_000));
    a.call_started(false);
    assert!(!a.restart_due(10_001));
    assert!(a.restart_due(12_000));
    a.call_started(true);
    assert!(!a.restart_due(99_000));
    assert_eq!(a.reported(), Source::Call);
    assert!(a.snapshot(Some(VoiceStats::idle())).active);
    a.stop();
    assert_eq!(a.reported(), Source::Nothing);
    assert!(!a.restart_due(200_000));
    assert!(!a.snapshot(None).active);
}

#[test]
fn a_sound_check_is_judged() {
    let mut a = VoiceActor::new();
    a.echo_started(true);
    assert_eq!(a.reported(), Source::SoundCheck);
    let sample = echo_result(true, true, true, 5);
    assert_eq!(a.echo_stop(sample), sample);
    let silent: EchoResult = echo_result(true, true, true, 0);
    assert_ne!(silent, sample);
}

#[test]
fn new_devices_are_told_apart() {
    let mut s = Supervisor::new(None, None);
    assert!(s.poll_due(0));
    assert!(!s.poll_due(1_999));
    assert!(s.poll_due(2_000));
    assert!(s.look(&vec![text("mic")], &vec![text("speaker")], true).is_empty());
    assert!(s.take_new_devices().is_empty());
    let inputs = vec![text("mic"), text("headset")];
    assert!(s.look(&inputs, &vec![text("speaker")], true).is_empty());
    let told = s.take_new_devices();
    assert_eq!(told.len(), 1);
    assert_eq!(told[0].name, "headset");
    assert!(told[0].is_input);
    s.look(&inputs, &vec![text("speaker")], true);
    assert!(s.take_new_devices().is_empty());
    let mut chosen = Supervisor::new(Some(text("headset")), None);
    chosen.look(&vec![text("mic")], &vec![], true);
    let opened = chosen.look(&inputs, &vec![], true);
    assert_eq!(opened.len(), 1);
    assert_eq!(opened[0].name, "headset");
    assert!(chosen.take_new_devices().is_empty());
    assert!(s.capture_due(false, 0));
    assert!(!s.capture_due(false, 1_000));
    assert!(follows_default(&None, &Some(text("b")), &Some(text("a"))));
    assert!(!follows_default(&Some(text("a")), &Some(text("b")), &Some(text("a"))));
}

#[test]
fn the_level_pump_stops_once() {
    let mut p = LevelPump::new();
    let t = p.tick(false, true);
    assert!(t.level && !t.stopped);
    let t = p.tick(true, true);
    assert!(t.muted_changed);
    let t = p.tick(true, false);
    assert!(t.stopped && !t.muted_changed);
    assert!(!p.tick(true, false).stopped);
}

#[test]
fn a_load_test_knows_what_to_expect() {
    let plan = LoadPlan { clients: 4, channels: 2, pps: 50, duration: 10 };
    assert!(plan.check().is_ok());
    assert_eq!(plan.channel_of(3), 1);
    assert_eq!(plan.interval_ns(), 20_000_000);
    assert_eq!(plan.expected(), Some((500, 2000)));
    assert!(LoadPlan { clients: 0, ..plan }.check().is_err());
    assert_eq!(next_sequence(u32::MAX), 1);
    assert_eq!(next_sequence(1), 2);
    assert_eq!(test_packet(3, "abc12", 8).opus_data.len(), 8);
    let joined = ServerMessage::JoinedChannel {
        channel_id: text("x"),
        participants: vec![],
        udp_token: 9,
        voice_key: vec![],
    };
    assert_eq!(join_reply(&joined), Some(Ok(9)));
    let err = ServerMessage::Error { message: text("full") };
    assert_eq!(join_reply(&err), Some(Err(text("server error: full"))));
    assert_eq!(join_reply(&ServerMessage::Pong), None);
    let made = ServerMessage::ChannelCreated { channel_id: text("abc12") };
    assert!(matches!(create_reply(&made), CreateReply::Created(id) if id == "abc12"));
    assert!(matches!(create_reply(&ServerMessage::Pong), CreateReply::Unrelated));
}
