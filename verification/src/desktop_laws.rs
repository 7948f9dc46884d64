//! What the desktop client does of what it hears.

use vstd::prelude::*;

use crate::addr::Ip;
use crate::desktop;
use crate::digest;
use crate::events;
use crate::history;
use crate::history::LineKind;
use crate::messages;
use crate::settings;

verus! {

/// Whether nothing is sent to the server.
pub open spec fn sends_nothing(r: Seq<desktop::ReactionView>) -> bool {
    forall|i: int| 0 <= i < r.len() ==> !((#[trigger] r[i]) is Send)
}

/// Whether the voice is left alone.
pub open spec fn leaves_voice(r: Seq<desktop::ReactionView>) -> bool {
    forall|i: int|
        0 <= i < r.len() ==> !((#[trigger] r[i]) is StartVoice) && !(r[i] is StopVoice)
            && !(r[i] is StartEcho)
}

/// Whether the window is told exactly one thing.
pub open spec fn tells(r: Seq<desktop::ReactionView>, e: events::EventView) -> bool {
    exists|k: int|
        #![trigger r[k]]
        0 <= k < r.len() && r[k] == desktop::ReactionView::Emit(e) && (forall|i: int|
            0 <= i < r.len() && i != k ==> !((#[trigger] r[i]) is Emit))
}

/// Whether the window is told nothing.
pub open spec fn tells_nothing(r: Seq<desktop::ReactionView>) -> bool {
    forall|i: int| 0 <= i < r.len() ==> !((#[trigger] r[i]) is Emit)
}

/// A line of chat is shown in the window, kept in the history of the channel,
/// and notified if the user wants it; nothing is answered and the client stays
/// as it is.
pub proof fn law_chat_is_shown(
    c: desktop::CoreView,
    server: Seq<char>,
    from: Seq<char>,
    text: Seq<char>,
    now: u64,
)
    ensures
        ({
            let (after, r) = c.heard(
                server,
                messages::ServerMessageView::ChatMessage { from, text },
                now,
            );
            &&& after == c
            &&& tells(r, events::EventView::ChatMessage { from, text })
            &&& sends_nothing(r)
            &&& leaves_voice(r)
            &&& c.notifications <==> r.contains(
                desktop::ReactionView::Notify { title: from, body: text },
            )
            &&& c.server_addr is Some && c.channel is Some ==> r.contains(
                desktop::ReactionView::Record {
                    server: c.server_addr->0,
                    channel: c.channel->0,
                    line: history::ChatLineView { ts_unix: now, kind: LineKind::Chat, from, text },
                },
            )
        }),
{
    let r = c.heard(server, messages::ServerMessageView::ChatMessage { from, text }, now).1;
    let kept = c.server_addr is Some && c.channel is Some;
    let n: int = if kept {
        1
    } else {
        0
    };
    if kept {
        assert(r[0] is Record);
    }
    if c.notifications {
        assert(r[n] == desktop::ReactionView::Notify { title: from, body: text });
        assert(r[n + 1] is Emit && r.len() == n + 2);
    } else {
        assert(r[n] is Emit && r.len() == n + 1);
    }
}

/// A direct message is shown in the window, kept in the history of its sender
/// and notified if the user wants it; its sender is known from then on, and
/// that is saved. Nothing is answered.
pub proof fn law_direct_message_is_shown(
    c: desktop::CoreView,
    server: Seq<char>,
    from_pubkey: Seq<u8>,
    from_name: Seq<char>,
    text: Seq<char>,
    now: u64,
)
    ensures
        ({
            let key = digest::hex_text(from_pubkey);
            let (after, r) = c.heard(
                server,
                messages::ServerMessageView::DirectMessage { from_pubkey, from_name, text },
                now,
            );
            &&& tells(
                r,
                events::EventView::DirectMessage { from_pubkey: key, from_name, text },
            )
            &&& sends_nothing(r)
            &&& leaves_voice(r)
            &&& r.contains(desktop::ReactionView::Save)
            &&& c.notifications <==> (exists|i: int|
                0 <= i < r.len() && (#[trigger] r[i]) is Notify)
            &&& forall|i: int|
                0 <= i < r.len() && (#[trigger] r[i]) is Notify ==> r[i]->body == text
            &&& c.server_addr is Some ==> r.contains(
                desktop::ReactionView::Record {
                    server: c.server_addr->0,
                    channel: "@dm:"@ + key,
                    line: history::ChatLineView {
                        ts_unix: now,
                        kind: LineKind::Dm,
                        from: from_name,
                        text,
                    },
                },
            )
            &&& after.dm_peers.contains(
                settings::DmPeerModel { pubkey_hex: key, name: from_name, last_seen_unix: now },
            )
            &&& after == (desktop::CoreView { dm_peers: after.dm_peers, ..c })
        }),
{
    let key = digest::hex_text(from_pubkey);
    let (after, r) = c.heard(
        server,
        messages::ServerMessageView::DirectMessage { from_pubkey, from_name, text },
        now,
    );
    crate::dm::law_touched_is_known(c.dm_peers, key, from_name, now);
    let n: int = if c.server_addr is Some {
        1
    } else {
        0
    };
    if c.server_addr is Some {
        assert(r[0] is Record);
    }
    assert(r[n] == desktop::ReactionView::Save);
    if c.notifications {
        assert(r[n + 1] is Notify);
        assert(r[n + 2] is Emit && r.len() == n + 3);
    } else {
        assert(r[n + 1] is Emit && r.len() == n + 2);
    }
}

/// Joining a channel puts the client into it with the microphone muted, tells
/// the window who is there, and starts the voice of that channel with the token
/// and the key that the server gave, under the name of the user. The name is
/// sent if the channel does not show it, and nothing else is.
pub proof fn law_joined_channel_is_entered(
    c: desktop::CoreView,
    server: Seq<char>,
    channel_id: Seq<char>,
    participants: Seq<Seq<char>>,
    udp_token: u64,
    voice_key: Seq<u8>,
    now: u64,
)
    ensures
        ({
            let (after, r) = c.heard(
                server,
                messages::ServerMessageView::JoinedChannel {
                    channel_id,
                    participants,
                    udp_token,
                    voice_key,
                },
                now,
            );
            &&& after.channel == Some(channel_id)
            &&& after.muted
            &&& after.conn == c.conn
            &&& after.name == c.name
            &&& tells(r, events::EventView::JoinedChannel { channel_id, participants })
            &&& forall|i: int|
                0 <= i < r.len() && (#[trigger] r[i]) is Send ==> c.conn is Some && c.name is Some
                    && !participants.contains(c.name->0) && r[i] == desktop::ReactionView::Send(
                    messages::ClientMessageView::SetName { name: c.name->0 },
                )
            &&& c.conn is Some && c.name is Some && !participants.contains(c.name->0) ==> r.contains(
                desktop::ReactionView::Send(
                    messages::ClientMessageView::SetName { name: c.name->0 },
                ),
            )
            &&& c.conn is None ==> leaves_voice(r)
            &&& c.conn is Some ==> r.len() > 0 && r.last() == desktop::ReactionView::StartVoice(
                desktop::StartParamsView {
                    server_ip: c.conn->0,
                    channel_id,
                    udp_token,
                    voice_key,
                    muted: true,
                    input_device: c.input_device,
                    output_device: c.output_device,
                    sender_name: match c.name {
                        Some(n) => n,
                        None => "anon"@,
                    },
                    echo_test: false,
                },
            ) && leaves_voice(r.drop_last())
        }),
{
    let (after, r) = c.heard(
        server,
        messages::ServerMessageView::JoinedChannel {
            channel_id,
            participants,
            udp_token,
            voice_key,
        },
        now,
    );
    let named = c.conn is Some && c.name is Some && !participants.contains(c.name->0);
    let n: int = if c.server_addr is Some {
        1
    } else {
        0
    };
    let k: int = if named {
        n + 1
    } else {
        n
    };
    if c.server_addr is Some {
        assert(r[0] == desktop::ReactionView::Save);
    }
    if named {
        assert(r[n] is Send);
    }
    assert(r[k] is Emit);
    if c.conn is Some {
        assert(r.len() == k + 2);
        assert(r[k + 1] is StartVoice);
    } else {
        assert(r.len() == k + 1);
    }
}

/// Leaving a channel stops the voice and tells the window, and the client is
/// in no channel.
pub proof fn law_left_channel_is_silent(c: desktop::CoreView, server: Seq<char>, now: u64)
    ensures
        ({
            let (after, r) = c.heard(server, messages::ServerMessageView::LeftChannel, now);
            &&& after.channel is None
            &&& after == (desktop::CoreView { channel: None, ..c })
            &&& r.contains(desktop::ReactionView::StopVoice)
            &&& tells(r, events::EventView::LeftChannel)
            &&& sends_nothing(r)
        }),
{
    let r = c.heard(server, messages::ServerMessageView::LeftChannel, now).1;
    assert(r[0] == desktop::ReactionView::StopVoice);
    assert(r[1] is Emit);
}

/// A channel that was created for the client is joined, if there is a
/// connection; the client does nothing else about it.
pub proof fn law_created_channel_is_joined(
    c: desktop::CoreView,
    server: Seq<char>,
    channel_id: Seq<char>,
    now: u64,
)
    ensures
        ({
            let (after, r) = c.heard(
                server,
                messages::ServerMessageView::ChannelCreated { channel_id },
                now,
            );
            &&& after == c
            &&& c.conn is Some ==> r.len() == 1 && r[0] == desktop::ReactionView::Send(
                messages::ClientMessageView::JoinChannel { channel_id },
            )
            &&& c.conn is None ==> r.len() == 0
        }),
{
}

/// A sound check that the server is ready for is started with what the server
/// gave, with an open microphone and outside any channel.
pub proof fn law_ready_sound_check_starts(
    c: desktop::CoreView,
    server: Seq<char>,
    channel_id: Seq<char>,
    udp_token: u64,
    voice_key: Seq<u8>,
    now: u64,
)
    ensures
        ({
            let (after, r) = c.heard(
                server,
                messages::ServerMessageView::EchoTestReady { channel_id, udp_token, voice_key },
                now,
            );
            &&& after == c
            &&& c.conn is None ==> r.len() == 0
            &&& c.conn is Some ==> r.len() == 1 && (r[0] matches desktop::ReactionView::StartEcho(p)
                && p.server_ip == c.conn->0 && p.channel_id == channel_id && p.udp_token
                == udp_token && p.voice_key == voice_key && !p.muted && p.echo_test
                && p.input_device == c.input_device && p.output_device == c.output_device)
        }),
{
}

/// What the server says of others and of itself is passed on to the window as
/// it is; the client stays as it is and answers nothing.
pub proof fn law_news_reach_the_window(
    c: desktop::CoreView,
    server: Seq<char>,
    msg: messages::ServerMessageView,
    now: u64,
)
    requires
        msg is Welcome || msg is PeerJoined || msg is PeerLeft || msg is NameChanged
            || msg is ChannelList || msg is Error || msg is Pong,
    ensures
        ({
            let (after, r) = c.heard(server, msg, now);
            &&& after == c
            &&& sends_nothing(r)
            &&& leaves_voice(r)
            &&& match msg {
                messages::ServerMessageView::Welcome { .. } => tells(
                    r,
                    events::EventView::ConnectionState(
                        events::ConnStateView::Connected { server },
                    ),
                ),
                messages::ServerMessageView::PeerJoined { peer_name } => {
                    &&& tells(r, events::EventView::PeerJoined { name: peer_name })
                    &&& c.notifications <==> (exists|i: int|
                        0 <= i < r.len() && (#[trigger] r[i]) is Notify)
                },
                messages::ServerMessageView::PeerLeft { peer_name } => tells(
                    r,
                    events::EventView::PeerLeft { name: peer_name },
                ),
                messages::ServerMessageView::NameChanged { old_name, new_name } => tells(
                    r,
                    events::EventView::NameChanged { old_name, new_name },
                ),
                messages::ServerMessageView::ChannelList { channels } => tells(
                    r,
                    events::EventView::ChannelList { channels },
                ),
                messages::ServerMessageView::Error { message } => tells(
                    r,
                    events::EventView::Error { message },
                ),
                _ => tells_nothing(r),
            }
        }),
{
    let r = c.heard(server, msg, now).1;
    if msg is PeerJoined && c.notifications {
        assert(r.len() == 2 && r[0] is Notify && r[1] is Emit);
    } else if !(msg is Pong) {
        assert(r.len() == 1 && r[0] is Emit);
    }
}

/// The microphone starts muted exactly when a key has to be held to speak, and
/// only where the client listens for voice is anything held back as too quiet.
pub proof fn law_mode_decides(c: desktop::CoreView, mode: desktop::VoiceMode)
    ensures
        c.with_mode(mode).voice_mode == mode,
        c.with_mode(mode).muted <==> mode == desktop::VoiceMode::Ptt,
        mode != desktop::VoiceMode::Vad ==> c.with_mode(mode).vad_threshold == 0,
        mode == desktop::VoiceMode::Vad && 1 <= c.vad_level_pct <= 100 ==> c.with_mode(
            mode,
        ).vad_threshold == 1_000 + 490 * c.vad_level_pct,
        c.with_mode(mode) == (desktop::CoreView {
            voice_mode: mode,
            muted: c.with_mode(mode).muted,
            vad_threshold: c.with_mode(mode).vad_threshold,
            ..c
        }),
{
}

/// A higher level never lets softer voice through, and levels above a hundred
/// percent are as good as a hundred.
pub proof fn law_level_is_monotone(c: desktop::CoreView, a: u32, b: u32)
    requires
        a <= b,
    ensures
        c.with_level(a).vad_threshold <= c.with_level(b).vad_threshold,
        a < b <= 100 && c.voice_mode == desktop::VoiceMode::Vad ==> c.with_level(a).vad_threshold
            < c.with_level(b).vad_threshold,
        b <= 100 ==> c.with_level(b).vad_level_pct == b,
        b > 100 ==> c.with_level(b) == c.with_level(100),
{
}

/// Gain and volume are what was asked for, up to four times.
pub proof fn law_gains_are_capped(c: desktop::CoreView, pct: u32)
    ensures
        pct <= 400 ==> c.with_gain(pct).input_gain_pct == pct && c.with_volume(pct).output_vol_pct
            == pct,
        pct > 400 ==> c.with_gain(pct).input_gain_pct == 400 && c.with_volume(pct).output_vol_pct
            == 400,
        c.with_gain(pct) == (desktop::CoreView {
            input_gain_pct: c.with_gain(pct).input_gain_pct,
            ..c
        }),
        c.with_volume(pct) == (desktop::CoreView {
            output_vol_pct: c.with_volume(pct).output_vol_pct,
            ..c
        }),
{
}

/// What the settings hold is what the client starts with.
pub proof fn law_start_follows_settings(identity: Option<Seq<u8>>, s: settings::SettingsModel)
    ensures
        ({
            let c = desktop::started_core(identity, s);
            &&& c.identity == identity
            &&& c.server_addr == s.server
            &&& c.name == s.name
            &&& c.input_device == s.input_device
            &&& c.output_device == s.output_device
            &&& c.trusted == s.trusted_servers
            &&& c.servers == s.servers
            &&& c.dm_peers == s.dm_peers
            &&& c.hotkeys == s.hotkeys
            &&& c.conn is None
            &&& c.channel is None
            &&& s.vad_level matches Some(v) ==> c.vad_level_pct == v
            &&& s.input_gain matches Some(v) ==> c.input_gain_pct == v
            &&& s.output_vol matches Some(v) ==> c.output_vol_pct == v
            &&& s.paranoid matches Some(b) ==> c.paranoid == b
            &&& s.denoise matches Some(b) ==> c.denoise == b
            &&& s.notifications matches Some(b) ==> c.notifications == b
            &&& s.autostart matches Some(b) ==> c.autostart == b
            &&& s.close_to_tray matches Some(b) ==> c.close_to_tray == b
            &&& s.language == Some("ru"@) ==> c.language == "ru"@
            &&& s.language == Some("en"@) ==> c.language == "en"@
            &&& c.muted <==> c.voice_mode == desktop::VoiceMode::Ptt
        }),
{
}

/// Settings that say nothing leave the defaults: voice is listened for, at
/// plain gain and volume, with notifications and without anything else.
pub proof fn law_defaults(identity: Option<Seq<u8>>, s: settings::SettingsModel)
    ensures
        ({
            let c = desktop::started_core(identity, s);
            &&& s.voice_mode is None ==> c.voice_mode == desktop::VoiceMode::Vad
            &&& s.vad_level is None ==> c.vad_level_pct == 15
            &&& s.input_gain is None ==> c.input_gain_pct == 100
            &&& s.output_vol is None ==> c.output_vol_pct == 100
            &&& s.notifications is None ==> c.notifications
            &&& s.autostart is None ==> !c.autostart
            &&& s.close_to_tray is None ==> !c.close_to_tray
            &&& s.paranoid is None ==> !c.paranoid
            &&& s.denoise is None ==> !c.denoise
            &&& s.language is None ==> c.language == "en"@
        }),
{
}

/// What settings leave out stays as it is when they are brought in; what they
/// hold takes its place, within the limits. Neither the identity nor the
/// session is touched.
pub proof fn law_import_replaces(c: desktop::CoreView, s: settings::SettingsModel)
    ensures
        ({
            let a = c.imported(s);
            &&& a.identity == c.identity
            &&& a.conn == c.conn
            &&& a.channel == c.channel
            &&& a.paranoid == c.paranoid
            &&& a.denoise == c.denoise
            &&& a.server_addr == s.server
            &&& a.name == s.name
            &&& a.trusted == s.trusted_servers
            &&& a.servers == s.servers
            &&& a.dm_peers == s.dm_peers
            &&& a.hotkeys == s.hotkeys
            &&& s.vad_level is None ==> a.vad_level_pct == c.vad_level_pct
            &&& s.vad_level matches Some(v) ==> a.vad_level_pct == if v <= 100 {
                v
            } else {
                100
            }
            &&& s.input_gain is None ==> a.input_gain_pct == c.input_gain_pct
            &&& s.input_gain matches Some(v) ==> (v <= 400 ==> a.input_gain_pct == v)
            &&& s.output_vol is None ==> a.output_vol_pct == c.output_vol_pct
            &&& s.output_vol matches Some(v) ==> (v <= 400 ==> a.output_vol_pct == v)
            &&& s.voice_mode is None ==> a.voice_mode == c.voice_mode && a.muted == c.muted
            &&& s.notifications is None ==> a.notifications == c.notifications
            &&& s.notifications matches Some(b) ==> a.notifications == b
            &&& s.autostart is None ==> a.autostart == c.autostart
            &&& s.autostart matches Some(b) ==> a.autostart == b
            &&& s.close_to_tray is None ==> a.close_to_tray == c.close_to_tray
            &&& s.close_to_tray matches Some(b) ==> a.close_to_tray == b
            &&& s.language is None ==> a.language == c.language
        }),
{
}

/// A session that is over leaves no connection, no channel and no pending
/// join, and everything else as it was.
pub proof fn law_session_ends(c: desktop::CoreView)
    ensures
        c.torn_down().conn is None,
        c.torn_down().channel is None,
        c.torn_down().pending_join is None,
        c.torn_down() == (desktop::CoreView { conn: None, channel: None, pending_join: None, ..c }),
        c.torn_down().kept() == c.kept(),
{
}

/// A client that connects is connected to that address, knows the server from
/// then on, saves that, and sends its name if it has one, and nothing else.
pub proof fn law_connection_introduces(
    c: desktop::CoreView,
    addr: Seq<char>,
    peer: Ip,
    now: u64,
)
    ensures
        ({
            let (after, r) = c.connected_to(addr, peer, now);
            &&& after.conn == Some(peer)
            &&& after.channel == c.channel
            &&& after.name == c.name
            &&& exists|i: int|
                0 <= i < after.servers.len() && (#[trigger] after.servers[i]).addr == addr
                    && after.servers[i].last_used_unix == now
            &&& r.contains(desktop::ReactionView::Save)
            &&& c.name is None ==> sends_nothing(r)
            &&& c.name matches Some(name) ==> r.len() == 2 && r[1] == desktop::ReactionView::Send(
                messages::ClientMessageView::SetName { name },
            ) && !(r[0] is Send)
        }),
{
    let (after, r) = c.connected_to(addr, peer, now);
    crate::server_registry::law_touched_server_is_known(c.servers, addr, now);
    let t = crate::server_registry::touched(c.servers, addr, now);
    let k = choose|i: int|
        0 <= i < t.len() && (#[trigger] t[i]).addr == addr && t[i].last_used_unix == now;
    assert(after.servers[k].addr == addr);
    assert(r[0] == desktop::ReactionView::Save);
}

/// A connection that was made again is announced with the name, if there is
/// one.
pub proof fn law_reconnection_introduces(c: desktop::CoreView, peer: Ip)
    ensures
        c.reconnected_to(peer).0 == (desktop::CoreView { conn: Some(peer), ..c }),
        c.name is None ==> c.reconnected_to(peer).1.len() == 0,
        c.name matches Some(name) ==> c.reconnected_to(peer).1.len() == 1 && c.reconnected_to(
            peer,
        ).1[0] == desktop::ReactionView::Send(messages::ClientMessageView::SetName { name }),
{
}

/// The delay before a reconnect is five seconds at first, grows once to ten,
/// and never beyond.
pub proof fn law_backoff(a: u32, b: u32)
    requires
        a <= b,
    ensures
        desktop::backoff(a) <= desktop::backoff(b),
        a <= 2 ==> desktop::backoff(a) == 5,
        b > 2 ==> desktop::backoff(b) == 10,
{
}

} // verus!
