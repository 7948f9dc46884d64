//! The desktop client: its state, and what it does with the messages of the
//! server.

use vstd::prelude::*;

use crate::addr::Ip;
use crate::digest;
use crate::digest::hex_encode;
use crate::dm;
use crate::dm::copy_peer;
use crate::events;
use crate::events::{
    ChannelListEntry, ChannelListPayload, ChatPayload, ConnState, DmPayload, ErrorPayload,
    Event, JoinedPayload, OverlayConfigPayload, PeerEvent,
};
use crate::history;
use crate::history::{ChatLine, LineKind};
use crate::identity;
use crate::identity::Identity;
use crate::invite;
use crate::invite::invite_url;
use crate::messages;
use crate::messages::{ClientMessage, ServerMessage};
use crate::network;
use crate::network::with_default_port;
use crate::overlay;
use crate::overlay::{is_overlay_position, is_overlay_visibility};
use crate::server_registry;
use crate::server_registry::copy_server;
use crate::settings;
use crate::settings::{DmPeer, ServerEntry, UserSettings};
use crate::state::copy_text;
use crate::table::Table;
use crate::terminal;
use crate::terminal::VoiceJoinParams;
use crate::text;
use crate::text::{join2, owned, str_eq, to_lower};
use crate::tls::TofuState;

verus! {

/// How voice is captured.
#[derive(Debug, Clone, Copy, PartialEq, Eq, Structural)]
pub enum VoiceMode {
    /// Always.
    Open,
    /// While it is loud enough.
    Vad,
    /// While a key is held.
    Ptt,
}

/// The name of a mode.
pub open spec fn mode_name(m: VoiceMode) -> Seq<char> {
    match m {
        VoiceMode::Open => "open"@,
        VoiceMode::Vad => "vad"@,
        VoiceMode::Ptt => "ptt"@,
    }
}

/// The mode that a name stands for, in either case.
pub open spec fn mode_of(name: Seq<char>) -> Option<VoiceMode> {
    let n = text::lowered(name);
    if n == "open"@ {
        Some(VoiceMode::Open)
    } else if n == "vad"@ {
        Some(VoiceMode::Vad)
    } else if n == "ptt"@ {
        Some(VoiceMode::Ptt)
    } else {
        None
    }
}

impl VoiceMode {
    /// The mode that a name stands for.
    pub fn parse(s: &str) -> (r: Option<Self>)
        ensures
            r == mode_of(s@),
    {
        let n = to_lower(s);
        let n: &str = n.as_str();
        if str_eq(n, "open") {
            Some(VoiceMode::Open)
        } else if str_eq(n, "vad") {
            Some(VoiceMode::Vad)
        } else if str_eq(n, "ptt") {
            Some(VoiceMode::Ptt)
        } else {
            None
        }
    }

    /// The name of the mode.
    pub fn as_str(self) -> (s: &'static str)
        ensures
            s@ == mode_name(self),
    {
        match self {
            VoiceMode::Open => "open",
            VoiceMode::Vad => "vad",
            VoiceMode::Ptt => "ptt",
        }
    }
}

/// The name of a mode stands for it.
pub proof fn law_mode_names(m: VoiceMode)
    ensures
        mode_of(mode_name(m)) == Some(m),
{
    reveal_strlit("open");
    reveal_strlit("vad");
    reveal_strlit("ptt");
    assert(text::lowered(mode_name(m)) =~= mode_name(m));
    assert("open"@.len() == 4 && "vad"@[0] == 'v' && "ptt"@[0] == 'p');
}

/// A number within a limit.
pub open spec fn at_most(n: u32, limit: u32) -> u32 {
    if n <= limit {
        n
    } else {
        limit
    }
}

/// The loudness from which voice is captured, in millionths of full scale. It
/// is 0, and nothing is held back, but in the mode that listens for voice: there
/// a level of 1 to 100 percent stands for 1490 to 50000.
pub open spec fn threshold_of(mode: VoiceMode, level_pct: u32) -> int {
    if mode == VoiceMode::Vad && level_pct > 0 {
        1_000 + 490 * at_most(level_pct, 100)
    } else {
        0
    }
}

/// The loudness from which voice is captured.
pub fn vad_threshold_for(mode: VoiceMode, level_pct: u32) -> (t: u32)
    ensures
        t == threshold_of(mode, level_pct),
{
    let n: u32 = if level_pct <= 100 {
        level_pct
    } else {
        100
    };
    match mode {
        VoiceMode::Open => 0,
        VoiceMode::Ptt => 0,
        VoiceMode::Vad => if n == 0 {
            0
        } else {
            1_000 + 490 * n
        },
    }
}

/// What is needed to start voice.
#[derive(Debug)]
pub struct StartParams {
    /// The address that the control connection goes to.
    pub server_ip: Ip,
    pub channel_id: String,
    pub udp_token: u64,
    pub voice_key: Vec<u8>,
    /// Whether the microphone starts muted.
    pub muted: bool,
    pub input_device: Option<String>,
    pub output_device: Option<String>,
    pub sender_name: String,
    /// Whether it is a sound check.
    pub echo_test: bool,
}

/// What [`StartParams`] say.
#[verifier::ext_equal]
pub struct StartParamsView {
    pub server_ip: Ip,
    pub channel_id: Seq<char>,
    pub udp_token: u64,
    pub voice_key: Seq<u8>,
    pub muted: bool,
    pub input_device: Option<Seq<char>>,
    pub output_device: Option<Seq<char>>,
    pub sender_name: Seq<char>,
    pub echo_test: bool,
}

impl View for StartParams {
    type V = StartParamsView;

    open spec fn view(&self) -> StartParamsView {
        StartParamsView {
            server_ip: self.server_ip,
            channel_id: self.channel_id@,
            udp_token: self.udp_token,
            voice_key: self.voice_key@,
            muted: self.muted,
            input_device: messages::opt_text(self.input_device),
            output_device: messages::opt_text(self.output_device),
            sender_name: self.sender_name@,
            echo_test: self.echo_test,
        }
    }
}

/// What is left to do for a message or a request.
#[derive(Debug)]
pub enum Reaction {
    /// Tell the window.
    Emit(Event),
    /// Send a message to the server.
    Send(ClientMessage),
    /// Save the settings.
    Save,
    /// Notify the user, unless the window has the focus.
    Notify { title: String, body: String },
    /// Add a line to a history.
    Record { server: String, channel: String, line: ChatLine },
    /// Start the voice of a channel.
    StartVoice(StartParams),
    /// Stop the voice.
    StopVoice,
    /// Start a sound check.
    StartEcho(StartParams),
}

/// What a [`Reaction`] says.
#[verifier::ext_equal]
pub enum ReactionView {
    Emit(events::EventView),
    Send(messages::ClientMessageView),
    Save,
    Notify { title: Seq<char>, body: Seq<char> },
    Record { server: Seq<char>, channel: Seq<char>, line: history::ChatLineView },
    StartVoice(StartParamsView),
    StopVoice,
    StartEcho(StartParamsView),
}

impl View for Reaction {
    type V = ReactionView;

    open spec fn view(&self) -> ReactionView {
        match *self {
            Reaction::Emit(e) => ReactionView::Emit(e@),
            Reaction::Send(m) => ReactionView::Send(m@),
            Reaction::Save => ReactionView::Save,
            Reaction::Notify { title, body } => ReactionView::Notify { title: title@, body: body@ },
            Reaction::Record { server, channel, line } => ReactionView::Record {
                server: server@,
                channel: channel@,
                line: line@,
            },
            Reaction::StartVoice(p) => ReactionView::StartVoice(p@),
            Reaction::StopVoice => ReactionView::StopVoice,
            Reaction::StartEcho(p) => ReactionView::StartEcho(p@),
        }
    }
}

/// What a list of reactions says.
pub open spec fn reactions(v: Seq<Reaction>) -> Seq<ReactionView> {
    v.map_values(|r: Reaction| r@)
}

/// The state of the desktop client.
pub struct AppCore {
    pub identity: Option<Identity>,
    pub tofu: TofuState,
    pub server_addr: Option<String>,
    /// The address at the other end of the connection, while there is one.
    pub conn: Option<Ip>,
    pub channel: Option<String>,
    pub name: Option<String>,
    pub input_device: Option<String>,
    pub output_device: Option<String>,
    pub voice_mode: VoiceMode,
    /// The level of voice detection that was set last, in percent.
    pub vad_level_pct: u32,
    pub input_gain_pct: u32,
    pub output_vol_pct: u32,
    pub hotkeys: Table<String, String>,
    pub notifications: bool,
    pub autostart: bool,
    pub close_to_tray: bool,
    /// `en` or `ru`.
    pub language: String,
    pub servers: Vec<ServerEntry>,
    pub dm_peers: Vec<DmPeer>,
    pub muted: bool,
    pub paranoid: bool,
    pub denoise: bool,
    /// The loudness from which voice is captured, in millionths of full scale.
    pub vad_threshold: u32,
    pub pending_join: Option<VoiceJoinParams>,
    pub overlay_enabled: bool,
    pub overlay_position: String,
    pub overlay_visibility: String,
}

/// What an [`AppCore`] holds.
#[verifier::ext_equal]
pub struct CoreView {
    pub identity: Option<Seq<u8>>,
    pub trusted: Map<Seq<char>, Seq<char>>,
    pub server_addr: Option<Seq<char>>,
    pub conn: Option<Ip>,
    pub channel: Option<Seq<char>>,
    pub name: Option<Seq<char>>,
    pub input_device: Option<Seq<char>>,
    pub output_device: Option<Seq<char>>,
    pub voice_mode: VoiceMode,
    pub vad_level_pct: u32,
    pub input_gain_pct: u32,
    pub output_vol_pct: u32,
    pub hotkeys: Map<Seq<char>, Seq<char>>,
    pub notifications: bool,
    pub autostart: bool,
    pub close_to_tray: bool,
    pub language: Seq<char>,
    pub servers: Seq<settings::ServerEntryModel>,
    pub dm_peers: Seq<settings::DmPeerModel>,
    pub muted: bool,
    pub paranoid: bool,
    pub denoise: bool,
    pub vad_threshold: u32,
    pub pending_join: Option<terminal::VoiceParamsView>,
    pub overlay_enabled: bool,
    pub overlay_position: Seq<char>,
    pub overlay_visibility: Seq<char>,
}

/// The secret of an optional identity.
pub open spec fn opt_identity(o: Option<Identity>) -> Option<Seq<u8>> {
    match o {
        Some(i) => Some(i@),
        None => None,
    }
}

impl View for AppCore {
    type V = CoreView;

    open spec fn view(&self) -> CoreView {
        CoreView {
            identity: opt_identity(self.identity),
            trusted: self.tofu@.trusted,
            server_addr: messages::opt_text(self.server_addr),
            conn: self.conn,
            channel: messages::opt_text(self.channel),
            name: messages::opt_text(self.name),
            input_device: messages::opt_text(self.input_device),
            output_device: messages::opt_text(self.output_device),
            voice_mode: self.voice_mode,
            vad_level_pct: self.vad_level_pct,
            input_gain_pct: self.input_gain_pct,
            output_vol_pct: self.output_vol_pct,
            hotkeys: self.hotkeys@,
            notifications: self.notifications,
            autostart: self.autostart,
            close_to_tray: self.close_to_tray,
            language: self.language@,
            servers: settings::server_views(self.servers@),
            dm_peers: settings::peer_views(self.dm_peers@),
            muted: self.muted,
            paranoid: self.paranoid,
            denoise: self.denoise,
            vad_threshold: self.vad_threshold,
            pending_join: terminal::opt_params(self.pending_join),
            overlay_enabled: self.overlay_enabled,
            overlay_position: self.overlay_position@,
            overlay_visibility: self.overlay_visibility@,
        }
    }
}

/// A flag or its default.
pub open spec fn flag_or(o: Option<bool>, default: bool) -> bool {
    match o {
        Some(b) => b,
        None => default,
    }
}

/// Whether a text names a language of the client.
pub open spec fn is_language(s: Seq<char>) -> bool {
    s == "en"@ || s == "ru"@
}

/// The mode that the settings name; by default the client listens for voice.
pub open spec fn saved_mode(o: Option<Seq<char>>) -> VoiceMode {
    match o {
        Some(s) => match mode_of(s) {
            Some(m) => m,
            None => VoiceMode::Vad,
        },
        None => VoiceMode::Vad,
    }
}

/// The language that the settings name; by default it is English.
pub open spec fn saved_language(o: Option<Seq<char>>) -> Seq<char> {
    match o {
        Some(s) => if is_language(s) {
            s
        } else {
            "en"@
        },
        None => "en"@,
    }
}

/// The client that starts with the given settings.
pub open spec fn started_core(identity: Option<Seq<u8>>, s: settings::SettingsModel) -> CoreView {
    let mode = saved_mode(s.voice_mode);
    let level = settings::or_default(s.vad_level, 15);
    CoreView {
        identity,
        trusted: s.trusted_servers,
        server_addr: s.server,
        conn: None,
        channel: None,
        name: s.name,
        input_device: s.input_device,
        output_device: s.output_device,
        voice_mode: mode,
        vad_level_pct: level,
        input_gain_pct: settings::or_default(s.input_gain, 100),
        output_vol_pct: settings::or_default(s.output_vol, 100),
        hotkeys: s.hotkeys,
        notifications: flag_or(s.notifications, true),
        autostart: flag_or(s.autostart, false),
        close_to_tray: flag_or(s.close_to_tray, false),
        language: saved_language(s.language),
        servers: s.servers,
        dm_peers: s.dm_peers,
        muted: mode == VoiceMode::Ptt,
        paranoid: flag_or(s.paranoid, false),
        denoise: flag_or(s.denoise, false),
        vad_threshold: threshold_of(mode, level) as u32,
        pending_join: None,
        overlay_enabled: false,
        overlay_position: "tr"@,
        overlay_visibility: "always"@,
    }
}

/// A flag or its default.
fn or_flag(o: Option<bool>, default: bool) -> (b: bool)
    ensures
        b == flag_or(o, default),
{
    match o {
        Some(b) => b,
        None => default,
    }
}

/// A number or its default.
fn or_number(o: Option<u32>, default: u32) -> (n: u32)
    ensures
        n == settings::or_default(o, default),
{
    match o {
        Some(n) => n,
        None => default,
    }
}

/// A second list that says the same.
pub fn copy_servers(list: &Vec<ServerEntry>) -> (r: Vec<ServerEntry>)
    ensures
        settings::server_views(r@) == settings::server_views(list@),
{
    let mut r: Vec<ServerEntry> = Vec::new();
    let mut i: usize = 0;
    while i < list.len()
        invariant
            i == r@.len(),
            i <= list@.len(),
            forall|j: int| 0 <= j < i ==> (#[trigger] r@[j])@ == list@[j]@,
        decreases list.len() - i,
    {
        r.push(copy_server(&list[i]));
        i = i + 1;
    }
    assert(settings::server_views(r@) =~= settings::server_views(list@));
    r
}

/// A second list that says the same.
pub fn copy_peers(list: &Vec<DmPeer>) -> (r: Vec<DmPeer>)
    ensures
        settings::peer_views(r@) == settings::peer_views(list@),
{
    let mut r: Vec<DmPeer> = Vec::new();
    let mut i: usize = 0;
    while i < list.len()
        invariant
            i == r@.len(),
            i <= list@.len(),
            forall|j: int| 0 <= j < i ==> (#[trigger] r@[j])@ == list@[j]@,
        decreases list.len() - i,
    {
        r.push(copy_peer(&list[i]));
        i = i + 1;
    }
    assert(settings::peer_views(r@) =~= settings::peer_views(list@));
    r
}

/// The language that the settings name.
fn language_of(o: &Option<String>) -> (s: String)
    ensures
        s@ == saved_language(messages::opt_text(*o)),
{
    match o {
        Some(l) => if str_eq(l.as_str(), "en") || str_eq(l.as_str(), "ru") {
            l.clone()
        } else {
            owned("en")
        },
        None => owned("en"),
    }
}

impl CoreView {
    /// What is kept of the client.
    pub open spec fn kept(self) -> settings::SettingsModel {
        settings::SettingsModel {
            server: self.server_addr,
            input_device: self.input_device,
            output_device: self.output_device,
            vad_level: Some(self.vad_level_pct),
            input_gain: Some(self.input_gain_pct),
            output_vol: Some(self.output_vol_pct),
            name: self.name,
            voice_mode: Some(mode_name(self.voice_mode)),
            paranoid: Some(self.paranoid),
            denoise: Some(self.denoise),
            hotkeys: self.hotkeys,
            notifications: Some(self.notifications),
            autostart: Some(self.autostart),
            close_to_tray: Some(self.close_to_tray),
            language: Some(self.language),
            trusted_servers: self.trusted,
            servers: self.servers,
            dm_peers: self.dm_peers,
        }
    }

    /// The mode of capture was set.
    pub open spec fn with_mode(self, mode: VoiceMode) -> CoreView {
        CoreView {
            voice_mode: mode,
            vad_threshold: threshold_of(mode, self.vad_level_pct) as u32,
            muted: mode == VoiceMode::Ptt,
            ..self
        }
    }

    /// The level of voice detection was set.
    pub open spec fn with_level(self, pct: u32) -> CoreView {
        CoreView {
            vad_level_pct: at_most(pct, 100),
            vad_threshold: threshold_of(self.voice_mode, at_most(pct, 100)) as u32,
            ..self
        }
    }

    /// The gain of the microphone was set.
    pub open spec fn with_gain(self, pct: u32) -> CoreView {
        CoreView { input_gain_pct: at_most(pct, 400), ..self }
    }

    /// The volume was set.
    pub open spec fn with_volume(self, pct: u32) -> CoreView {
        CoreView { output_vol_pct: at_most(pct, 400), ..self }
    }

    /// The levels of the settings were brought in.
    pub open spec fn imported_levels(self, s: settings::SettingsModel) -> CoreView {
        let a = match s.vad_level {
            Some(v) => self.with_level(v),
            None => self,
        };
        let b = match s.input_gain {
            Some(v) => a.with_gain(v),
            None => a,
        };
        match s.output_vol {
            Some(v) => b.with_volume(v),
            None => b,
        }
    }

    /// The mode of the settings was brought in.
    pub open spec fn imported_mode(self, s: settings::SettingsModel) -> CoreView {
        match s.voice_mode {
            Some(n) => match mode_of(n) {
                Some(m) => self.with_mode(m),
                None => self,
            },
            None => self,
        }
    }

    /// Settings were brought in. What they leave out stays as it is; the
    /// identity is not touched.
    pub open spec fn imported(self, s: settings::SettingsModel) -> CoreView {
        let a = CoreView {
            server_addr: s.server,
            input_device: s.input_device,
            output_device: s.output_device,
            ..self
        };
        let b = CoreView { name: s.name, ..a.imported_levels(s) };
        let f = b.imported_mode(s);
        f.imported_rest(s)
    }

    /// The flags and lists of the settings were brought in.
    pub open spec fn imported_rest(self, s: settings::SettingsModel) -> CoreView {
        CoreView {
            hotkeys: s.hotkeys,
            notifications: flag_or(s.notifications, self.notifications),
            autostart: flag_or(s.autostart, self.autostart),
            close_to_tray: flag_or(s.close_to_tray, self.close_to_tray),
            language: match s.language {
                Some(l) => if is_language(l) {
                    l
                } else {
                    self.language
                },
                None => self.language,
            },
            trusted: s.trusted_servers,
            servers: s.servers,
            dm_peers: s.dm_peers,
            ..self
        }
    }

    /// The session is over: no connection, no channel.
    pub open spec fn torn_down(self) -> CoreView {
        CoreView { conn: None, channel: None, pending_join: None, ..self }
    }

    /// The connection to `addr` was made.
    pub open spec fn connected_to(self, addr: Seq<char>, peer: Ip, now: u64) -> (
        CoreView,
        Seq<ReactionView>,
    ) {
        (
            CoreView {
                conn: Some(peer),
                servers: server_registry::touched(self.servers, addr, now),
                ..self
            },
            match self.name {
                Some(name) => seq![
                    ReactionView::Save,
                    ReactionView::Send(messages::ClientMessageView::SetName { name }),
                ],
                None => seq![ReactionView::Save],
            },
        )
    }

    /// The connection was made again.
    pub open spec fn reconnected_to(self, peer: Ip) -> (CoreView, Seq<ReactionView>) {
        (
            CoreView { conn: Some(peer), ..self },
            match self.name {
                Some(name) => seq![
                    ReactionView::Send(messages::ClientMessageView::SetName { name }),
                ],
                None => Seq::empty(),
            },
        )
    }

    /// The name that others see.
    pub open spec fn shown_name(self) -> Seq<char> {
        match self.name {
            Some(n) => n,
            None => "anon"@,
        }
    }

    /// What is needed to start the voice of a channel.
    pub open spec fn start_params(
        self,
        server_ip: Ip,
        channel_id: Seq<char>,
        udp_token: u64,
        voice_key: Seq<u8>,
        echo_test: bool,
    ) -> StartParamsView {
        StartParamsView {
            server_ip,
            channel_id,
            udp_token,
            voice_key,
            muted: if echo_test {
                false
            } else {
                self.muted
            },
            input_device: self.input_device,
            output_device: self.output_device,
            sender_name: self.shown_name(),
            echo_test,
        }
    }

    /// A notification, if the user wants any.
    pub open spec fn notified(self, title: Seq<char>, body: Seq<char>) -> Seq<ReactionView> {
        if self.notifications {
            seq![ReactionView::Notify { title, body }]
        } else {
            Seq::empty()
        }
    }

    /// A channel was joined: it is remembered, the microphone is muted, and
    /// the name is sent again if the channel does not show it.
    pub open spec fn joined(
        self,
        channel_id: Seq<char>,
        participants: Seq<Seq<char>>,
        udp_token: u64,
        voice_key: Seq<u8>,
    ) -> (CoreView, Seq<ReactionView>) {
        let a = CoreView {
            channel: Some(channel_id),
            servers: match self.server_addr {
                Some(addr) => server_registry::recorded(self.servers, addr, channel_id),
                None => self.servers,
            },
            muted: true,
            pending_join: None,
            ..self
        };
        let saving = if self.server_addr is Some {
            seq![ReactionView::Save]
        } else {
            Seq::empty()
        };
        let naming = match self.name {
            Some(name) => if self.conn is Some && !participants.contains(name) {
                seq![ReactionView::Send(messages::ClientMessageView::SetName { name })]
            } else {
                Seq::empty()
            },
            None => Seq::empty(),
        };
        let voice = match self.conn {
            Some(ip) => seq![
                ReactionView::StartVoice(
                    a.start_params(ip, channel_id, udp_token, voice_key, false),
                ),
            ],
            None => Seq::empty(),
        };
        (
            a,
            saving + naming + seq![
                ReactionView::Emit(events::EventView::JoinedChannel { channel_id, participants }),
            ] + voice,
        )
    }

    /// What a message of the server does.
    pub open spec fn heard(
        self,
        server: Seq<char>,
        msg: messages::ServerMessageView,
        now: u64,
    ) -> (CoreView, Seq<ReactionView>) {
        match msg {
            messages::ServerMessageView::Welcome { .. } => (
                self,
                seq![
                    ReactionView::Emit(
                        events::EventView::ConnectionState(
                            events::ConnStateView::Connected { server },
                        ),
                    ),
                ],
            ),
            messages::ServerMessageView::ChannelCreated { channel_id } => (
                self,
                if self.conn is Some {
                    seq![
                        ReactionView::Send(
                            messages::ClientMessageView::JoinChannel { channel_id },
                        ),
                    ]
                } else {
                    Seq::empty()
                },
            ),
            messages::ServerMessageView::JoinedChannel {
                channel_id,
                participants,
                udp_token,
                voice_key,
            } => self.joined(channel_id, participants, udp_token, voice_key),
            messages::ServerMessageView::PeerJoined { peer_name } => (
                self,
                self.notified("tc_"@, peer_name + " joined"@).push(
                    ReactionView::Emit(events::EventView::PeerJoined { name: peer_name }),
                ),
            ),
            messages::ServerMessageView::PeerLeft { peer_name } => (
                self,
                seq![ReactionView::Emit(events::EventView::PeerLeft { name: peer_name })],
            ),
            messages::ServerMessageView::LeftChannel => (
                CoreView { channel: None, ..self },
                seq![ReactionView::StopVoice, ReactionView::Emit(events::EventView::LeftChannel)],
            ),
            messages::ServerMessageView::ChatMessage { from, text } => (
                self,
                self.chat_recorded(from, text, now) + self.notified(from, text).push(
                    ReactionView::Emit(events::EventView::ChatMessage { from, text }),
                ),
            ),
            messages::ServerMessageView::DirectMessage { from_pubkey, from_name, text } => {
                let key = digest::hex_text(from_pubkey);
                (
                    CoreView {
                        dm_peers: dm::touched(self.dm_peers, key, from_name, now),
                        ..self
                    },
                    self.dm_recorded(key, from_name, text, now).push(ReactionView::Save)
                        + self.notified("DM · "@ + from_name, text).push(
                        ReactionView::Emit(
                            events::EventView::DirectMessage {
                                from_pubkey: key,
                                from_name,
                                text,
                            },
                        ),
                    ),
                )
            },
            messages::ServerMessageView::NameChanged { old_name, new_name } => (
                self,
                seq![ReactionView::Emit(events::EventView::NameChanged { old_name, new_name })],
            ),
            messages::ServerMessageView::ChannelList { channels } => (
                self,
                seq![ReactionView::Emit(events::EventView::ChannelList { channels })],
            ),
            messages::ServerMessageView::EchoTestReady { channel_id, udp_token, voice_key } => (
                self,
                match self.conn {
                    Some(ip) => seq![
                        ReactionView::StartEcho(
                            self.start_params(ip, channel_id, udp_token, voice_key, true),
                        ),
                    ],
                    None => Seq::empty(),
                },
            ),
            messages::ServerMessageView::Error { message } => (
                self,
                seq![ReactionView::Emit(events::EventView::Error { message })],
            ),
            messages::ServerMessageView::Pong => (self, Seq::empty()),
        }
    }

    /// A line of chat goes to the history of the channel.
    pub open spec fn chat_recorded(self, from: Seq<char>, text: Seq<char>, now: u64) -> Seq<
        ReactionView,
    > {
        match (self.server_addr, self.channel) {
            (Some(server), Some(channel)) => seq![
                ReactionView::Record {
                    server,
                    channel,
                    line: history::ChatLineView {
                        ts_unix: now,
                        kind: LineKind::Chat,
                        from,
                        text,
                    },
                },
            ],
            _ => Seq::empty(),
        }
    }

    /// A direct message goes to the history of the peer.
    pub open spec fn dm_recorded(
        self,
        key: Seq<char>,
        from: Seq<char>,
        text: Seq<char>,
        now: u64,
    ) -> Seq<ReactionView> {
        match self.server_addr {
            Some(server) => seq![
                ReactionView::Record {
                    server,
                    channel: "@dm:"@ + key,
                    line: history::ChatLineView { ts_unix: now, kind: LineKind::Dm, from, text },
                },
            ],
            None => Seq::empty(),
        }
    }
}

/// Adds a reaction.
fn push(v: &mut Vec<Reaction>, r: Reaction)
    ensures
        reactions(final(v)@) == reactions(old(v)@).push(r@),
{
    let ghost before = reactions(v@);
    v.push(r);
    assert(reactions(v@) =~= before.push(r@));
}

/// No reactions.
fn nothing() -> (v: Vec<Reaction>)
    ensures
        reactions(v@) == Seq::<ReactionView>::empty(),
{
    let v: Vec<Reaction> = Vec::new();
    assert(reactions(v@) =~= Seq::empty());
    v
}

/// One reaction.
fn one(r: Reaction) -> (v: Vec<Reaction>)
    ensures
        reactions(v@) == seq![r@],
{
    let mut v = nothing();
    push(&mut v, r);
    assert(reactions(v@) =~= seq![r@]);
    v
}

/// Whether a name is in a list.
fn has_name(list: &Vec<String>, name: &str) -> (r: bool)
    ensures
        r == messages::texts(list@).contains(name@),
{
    let ghost all = messages::texts(list@);
    let mut i: usize = 0;
    while i < list.len()
        invariant
            i <= list@.len(),
            all == messages::texts(list@),
            forall|j: int| 0 <= j < i ==> #[trigger] all[j] != name@,
        decreases list.len() - i,
    {
        assert(all[i as int] == list@[i as int]@);
        if str_eq(list[i].as_str(), name) {
            return true;
        }
        i = i + 1;
    }
    false
}

/// The public channels, as the window is told of them.
fn channel_entries(channels: Vec<messages::ChannelInfo>) -> (v: Vec<ChannelListEntry>)
    ensures
        events::entries(v@) == messages::infos(channels@),
{
    let mut v: Vec<ChannelListEntry> = Vec::new();
    let mut i: usize = 0;
    while i < channels.len()
        invariant
            i == v@.len(),
            i <= channels@.len(),
            forall|j: int|
                0 <= j < i ==> (#[trigger] v@[j]).channel_id@ == channels@[j].channel_id@
                    && v@[j].participant_count == channels@[j].participant_count,
        decreases channels.len() - i,
    {
        v.push(
            ChannelListEntry {
                channel_id: channels[i].channel_id.clone(),
                participant_count: channels[i].participant_count,
            },
        );
        i = i + 1;
    }
    assert(events::entries(v@) =~= messages::infos(channels@));
    v
}

impl AppCore {
    /// A client that starts with the given settings.
    pub fn new(identity: Option<Identity>, saved: &UserSettings) -> (c: Self)
        ensures
            c@ == started_core(opt_identity(identity), saved@),
    {
        let voice_mode = match &saved.voice_mode {
            Some(s) => match VoiceMode::parse(s.as_str()) {
                Some(m) => m,
                None => VoiceMode::Vad,
            },
            None => VoiceMode::Vad,
        };
        let vad_level_pct: u32 = or_number(saved.vad_level, 15);
        let c = AppCore {
            identity,
            tofu: TofuState::new(saved.trusted_servers.duplicate()),
            server_addr: copy_text(&saved.server),
            conn: None,
            channel: None,
            name: copy_text(&saved.name),
            input_device: copy_text(&saved.input_device),
            output_device: copy_text(&saved.output_device),
            voice_mode,
            vad_level_pct,
            input_gain_pct: or_number(saved.input_gain, 100),
            output_vol_pct: or_number(saved.output_vol, 100),
            hotkeys: saved.hotkeys.duplicate(),
            notifications: or_flag(saved.notifications, true),
            autostart: or_flag(saved.autostart, false),
            close_to_tray: or_flag(saved.close_to_tray, false),
            language: language_of(&saved.language),
            servers: copy_servers(&saved.servers),
            dm_peers: copy_peers(&saved.dm_peers),
            muted: voice_mode == VoiceMode::Ptt,
            paranoid: or_flag(saved.paranoid, false),
            denoise: or_flag(saved.denoise, false),
            vad_threshold: vad_threshold_for(voice_mode, vad_level_pct),
            pending_join: None,
            overlay_enabled: false,
            overlay_position: owned("tr"),
            overlay_visibility: owned("always"),
        };
        assert(c@ =~= started_core(opt_identity(identity), saved@));
        c
    }

    /// The public key, if there is an identity.
    pub fn pubkey(&self) -> (k: Option<Vec<u8>>)
        ensures
            messages::opt_bytes(k) == match self@.identity {
                Some(secret) => Some(identity::public_half(secret)),
                None => None,
            },
    {
        match &self.identity {
            Some(i) => Some(i.pubkey()),
            None => None,
        }
    }

    /// The short fingerprint of the public key.
    pub fn fingerprint(&self) -> (s: Option<String>)
        ensures
            messages::opt_text(s) == match self@.identity {
                Some(secret) => Some(digest::short_fingerprint(identity::public_half(secret))),
                None => None,
            },
    {
        match &self.identity {
            Some(i) => Some(i.fingerprint()),
            None => None,
        }
    }

    /// What is to be kept of the client. The identity is not part of it.
    pub fn settings(&self) -> (s: UserSettings)
        ensures
            s@ == self@.kept(),
    {
        let s = UserSettings {
            server: copy_text(&self.server_addr),
            input_device: copy_text(&self.input_device),
            output_device: copy_text(&self.output_device),
            vad_level: Some(self.vad_level_pct),
            input_gain: Some(self.input_gain_pct),
            output_vol: Some(self.output_vol_pct),
            name: copy_text(&self.name),
            voice_mode: Some(owned(self.voice_mode.as_str())),
            paranoid: Some(self.paranoid),
            denoise: Some(self.denoise),
            hotkeys: self.hotkeys.duplicate(),
            notifications: Some(self.notifications),
            autostart: Some(self.autostart),
            close_to_tray: Some(self.close_to_tray),
            language: Some(self.language.clone()),
            trusted_servers: self.tofu.trusted_map(),
            servers: copy_servers(&self.servers),
            dm_peers: copy_peers(&self.dm_peers),
        };
        assert(s@ =~= self@.kept());
        s
    }

    /// Sets the mode of capture. The microphone is muted in push-to-talk.
    pub fn apply_voice_mode(&mut self, mode: VoiceMode)
        ensures
            final(self)@ == old(self)@.with_mode(mode),
    {
        self.voice_mode = mode;
        self.vad_threshold = vad_threshold_for(mode, self.vad_level_pct);
        self.muted = mode == VoiceMode::Ptt;
    }

    /// Sets the level of voice detection.
    pub fn apply_vad_level(&mut self, level_pct: u32)
        ensures
            final(self)@ == old(self)@.with_level(level_pct),
    {
        self.vad_level_pct = if level_pct <= 100 {
            level_pct
        } else {
            100
        };
        self.vad_threshold = vad_threshold_for(self.voice_mode, self.vad_level_pct);
    }

    /// Sets the gain of the microphone.
    pub fn apply_input_gain(&mut self, pct: u32)
        ensures
            final(self)@ == old(self)@.with_gain(pct),
    {
        self.input_gain_pct = if pct <= 400 {
            pct
        } else {
            400
        };
    }

    /// Sets the volume.
    pub fn apply_output_vol(&mut self, pct: u32)
        ensures
            final(self)@ == old(self)@.with_volume(pct),
    {
        self.output_vol_pct = if pct <= 400 {
            pct
        } else {
            400
        };
    }

    /// Brings in the levels of settings.
    fn import_levels(&mut self, s: &UserSettings)
        ensures
            final(self)@ == old(self)@.imported_levels(s@),
    {
        if let Some(v) = s.vad_level {
            self.apply_vad_level(v);
        }
        if let Some(v) = s.input_gain {
            self.apply_input_gain(v);
        }
        if let Some(v) = s.output_vol {
            self.apply_output_vol(v);
        }
    }

    /// Brings in the mode of settings.
    fn import_mode(&mut self, s: &UserSettings)
        ensures
            final(self)@ == old(self)@.imported_mode(s@),
    {
        if let Some(n) = &s.voice_mode {
            if let Some(m) = VoiceMode::parse(n.as_str()) {
                self.apply_voice_mode(m);
            }
        }
    }

    /// Brings in the flags and lists of settings.
    fn import_rest(&mut self, s: &UserSettings)
        ensures
            final(self)@ == old(self)@.imported_rest(s@),
    {
        self.hotkeys = s.hotkeys.duplicate();
        self.notifications = or_flag(s.notifications, self.notifications);
        self.autostart = or_flag(s.autostart, self.autostart);
        self.close_to_tray = or_flag(s.close_to_tray, self.close_to_tray);
        self.tofu = TofuState::new(s.trusted_servers.duplicate());
        self.servers = copy_servers(&s.servers);
        self.dm_peers = copy_peers(&s.dm_peers);
        if let Some(l) = &s.language {
            if str_eq(l.as_str(), "en") || str_eq(l.as_str(), "ru") {
                self.language = l.clone();
            }
        }
    }

    /// Brings in settings.
    pub fn import_settings(&mut self, s: &UserSettings)
        ensures
            final(self)@ == old(self)@.imported(s@),
    {
        self.server_addr = copy_text(&s.server);
        self.input_device = copy_text(&s.input_device);
        self.output_device = copy_text(&s.output_device);
        self.import_levels(s);
        self.name = copy_text(&s.name);
        self.import_mode(s);
        self.import_rest(s);
    }

    /// Ends the session: no connection, no channel. The voice is to be stopped.
    pub fn tear_down_session(&mut self)
        ensures
            final(self)@ == old(self)@.torn_down(),
    {
        self.conn = None;
        self.channel = None;
        self.pending_join = None;
    }

    /// What is needed to start the voice of a channel.
    fn params_for(
        &self,
        server_ip: Ip,
        channel_id: String,
        udp_token: u64,
        voice_key: Vec<u8>,
        echo_test: bool,
    ) -> (p: StartParams)
        ensures
            p@ == self@.start_params(server_ip, channel_id@, udp_token, voice_key@, echo_test),
    {
        let sender_name = match &self.name {
            Some(n) => n.clone(),
            None => owned("anon"),
        };
        StartParams {
            server_ip,
            channel_id,
            udp_token,
            voice_key,
            muted: !echo_test && self.muted,
            input_device: copy_text(&self.input_device),
            output_device: copy_text(&self.output_device),
            sender_name,
            echo_test,
        }
    }

    /// Notifies the user, if they want any notifications.
    fn notify(&self, v: &mut Vec<Reaction>, title: String, body: String)
        ensures
            reactions(final(v)@) == reactions(old(v)@) + self@.notified(title@, body@),
    {
        if self.notifications {
            push(v, Reaction::Notify { title, body });
            assert(reactions(v@) =~= reactions(old(v)@) + self@.notified(title@, body@));
        } else {
            assert(reactions(v@) =~= reactions(old(v)@) + self@.notified(title@, body@));
        }
    }

    /// Enters a channel that was joined.
    fn on_joined(
        &mut self,
        channel_id: String,
        participants: Vec<String>,
        udp_token: u64,
        voice_key: Vec<u8>,
    ) -> (v: Vec<Reaction>)
        ensures
            (final(self)@, reactions(v@)) == old(self)@.joined(
                channel_id@,
                messages::texts(participants@),
                udp_token,
                voice_key@,
            ),
    {
        let mut v = nothing();
        self.channel = Some(channel_id.clone());
        if let Some(addr) = &self.server_addr {
            server_registry::record_channel(
                &mut self.servers,
                addr.as_str(),
                channel_id.as_str(),
            );
            push(&mut v, Reaction::Save);
        }
        self.muted = true;
        self.pending_join = None;
        let ghost saving = reactions(v@);
        if let Some(name) = &self.name {
            if self.conn.is_some() && !has_name(&participants, name.as_str()) {
                push(&mut v, Reaction::Send(ClientMessage::SetName { name: name.clone() }));
            }
        }
        let ghost named = reactions(v@);
        push(
            &mut v,
            Reaction::Emit(
                Event::JoinedChannel(
                    JoinedPayload { channel_id: channel_id.clone(), participants },
                ),
            ),
        );
        if let Some(ip) = self.conn {
            let p = self.params_for(ip, channel_id, udp_token, voice_key, false);
            push(&mut v, Reaction::StartVoice(p));
        }
        proof {
            let want = old(self)@.joined(
                channel_id@,
                messages::texts(participants@),
                udp_token,
                voice_key@,
            );
            assert(self@ =~= want.0);
            assert(reactions(v@) =~= want.1);
        }
        v
    }

    /// Handles a message of the server, and tells what is left to do.
    #[verifier::rlimit(40)]
    pub fn handle(&mut self, server: &str, msg: ServerMessage, now: u64) -> (v: Vec<Reaction>)
        ensures
            (final(self)@, reactions(v@)) == old(self)@.heard(server@, msg@, now),
    {
        match msg {
            ServerMessage::Welcome { .. } => one(
                Reaction::Emit(
                    Event::ConnectionState(ConnState::Connected { server: owned(server) }),
                ),
            ),
            ServerMessage::ChannelCreated { channel_id } => if self.conn.is_some() {
                one(Reaction::Send(ClientMessage::JoinChannel { channel_id }))
            } else {
                nothing()
            },
            ServerMessage::JoinedChannel { channel_id, participants, udp_token, voice_key } => {
                self.on_joined(channel_id, participants, udp_token, voice_key)
            },
            ServerMessage::PeerJoined { peer_name } => {
                let mut v = nothing();
                self.notify(&mut v, owned("tc_"), join2(peer_name.as_str(), " joined"));
                push(&mut v, Reaction::Emit(Event::PeerJoined(PeerEvent { name: peer_name })));
                assert(reactions(v@) =~= old(self)@.heard(server@, msg@, now).1);
                v
            },
            ServerMessage::PeerLeft { peer_name } => one(
                Reaction::Emit(Event::PeerLeft(PeerEvent { name: peer_name })),
            ),
            ServerMessage::LeftChannel => {
                self.channel = None;
                let mut v = one(Reaction::StopVoice);
                push(&mut v, Reaction::Emit(Event::LeftChannel));
                assert(reactions(v@) =~= old(self)@.heard(server@, msg@, now).1);
                v
            },
            ServerMessage::ChatMessage { from, text } => self.on_chat(from, text, now),
            ServerMessage::DirectMessage { from_pubkey, from_name, text } => {
                self.on_direct(from_pubkey, from_name, text, now)
            },
            ServerMessage::NameChanged { old_name, new_name } => one(
                Reaction::Emit(Event::NameChanged { old_name, new_name }),
            ),
            ServerMessage::ChannelList { channels } => one(
                Reaction::Emit(
                    Event::ChannelList(
                        ChannelListPayload { channels: channel_entries(channels) },
                    ),
                ),
            ),
            ServerMessage::EchoTestReady { channel_id, udp_token, voice_key } => match self.conn {
                Some(ip) => {
                    let p = self.params_for(ip, channel_id, udp_token, voice_key, true);
                    one(Reaction::StartEcho(p))
                },
                None => nothing(),
            },
            ServerMessage::Error { message } => one(
                Reaction::Emit(Event::Error(ErrorPayload { message })),
            ),
            ServerMessage::Pong => nothing(),
        }
    }

    /// Handles a line of chat.
    fn on_chat(&mut self, from: String, text: String, now: u64) -> (v: Vec<Reaction>)
        ensures
            (final(self)@, reactions(v@)) == old(self)@.heard(
                Seq::empty(),
                messages::ServerMessageView::ChatMessage { from: from@, text: text@ },
                now,
            ),
    {
        let mut v = nothing();
        if let Some(addr) = &self.server_addr {
            if let Some(channel) = &self.channel {
                push(
                    &mut v,
                    Reaction::Record {
                        server: addr.clone(),
                        channel: channel.clone(),
                        line: ChatLine {
                            ts_unix: now,
                            kind: LineKind::Chat,
                            from: from.clone(),
                            text: text.clone(),
                        },
                    },
                );
            }
        }
        assert(reactions(v@) =~= self@.chat_recorded(from@, text@, now));
        let ghost recorded = reactions(v@);
        self.notify(&mut v, from.clone(), text.clone());
        push(&mut v, Reaction::Emit(Event::ChatMessage(ChatPayload { from, text })));
        assert(reactions(v@) =~= recorded + self@.notified(from@, text@).push(
            ReactionView::Emit(events::EventView::ChatMessage { from: from@, text: text@ }),
        ));
        v
    }

    /// Handles a direct message.
    fn on_direct(&mut self, from_pubkey: Vec<u8>, from_name: String, text: String, now: u64) -> (v:
        Vec<Reaction>)
        ensures
            (final(self)@, reactions(v@)) == old(self)@.heard(
                Seq::empty(),
                messages::ServerMessageView::DirectMessage {
                    from_pubkey: from_pubkey@,
                    from_name: from_name@,
                    text: text@,
                },
                now,
            ),
    {
        let key = hex_encode(from_pubkey.as_slice());
        let mut v = nothing();
        if let Some(addr) = &self.server_addr {
            push(
                &mut v,
                Reaction::Record {
                    server: addr.clone(),
                    channel: dm::dm_channel(key.as_str()),
                    line: ChatLine {
                        ts_unix: now,
                        kind: LineKind::Dm,
                        from: from_name.clone(),
                        text: text.clone(),
                    },
                },
            );
        }
        assert(reactions(v@) =~= self@.dm_recorded(key@, from_name@, text@, now));
        dm::touch(&mut self.dm_peers, key.as_str(), from_name.as_str(), now);
        push(&mut v, Reaction::Save);
        let ghost recorded = reactions(v@);
        self.notify(&mut v, join2("DM · ", from_name.as_str()), text.clone());
        push(
            &mut v,
            Reaction::Emit(
                Event::DirectMessage(DmPayload { from_pubkey: key, from_name, text }),
            ),
        );
        proof {
            let want = old(self)@.heard(
                Seq::empty(),
                messages::ServerMessageView::DirectMessage {
                    from_pubkey: from_pubkey@,
                    from_name: from_name@,
                    text: text@,
                },
                now,
            );
            assert(self@ =~= want.0);
            assert(reactions(v@) =~= want.1);
        }
        v
    }

    /// A link to the current server and channel.
    pub fn invite_link(&self) -> (r: Result<String, String>)
        ensures
            match self@.conn {
                None => r matches Err(e) && e@ == "not connected — /server <addr> first"@,
                Some(_) => match self@.server_addr {
                    None => r matches Err(e) && e@ == "not connected"@,
                    Some(addr) => r matches Ok(s) && s@ == invite::invite_link(
                        addr,
                        self@.channel,
                    ),
                },
            },
    {
        if self.conn.is_none() {
            return Err(owned("not connected — /server <addr> first"));
        }
        match &self.server_addr {
            None => Err(owned("not connected")),
            Some(addr) => match &self.channel {
                Some(c) => Ok(invite_url(addr.as_str(), Some(c.as_str()))),
                None => Ok(invite_url(addr.as_str(), None)),
            },
        }
    }

    /// Starts a connection: the old session ends, and the address is kept.
    /// The voice is to be stopped and the settings saved; the answer is the
    /// address to connect to.
    pub fn begin_connect(&mut self, addr: &str) -> (target: String)
        ensures
            target@ == network::ported(addr@),
            final(self)@ == (CoreView {
                server_addr: Some(network::ported(addr@)),
                ..old(self)@.torn_down()
            }),
    {
        let target = with_default_port(addr);
        self.tear_down_session();
        self.server_addr = Some(target.clone());
        target
    }

    /// The connection was made: the server is noted and the name is sent.
    pub fn on_connected(&mut self, addr: &str, peer: Ip, now: u64) -> (v: Vec<Reaction>)
        ensures
            final(self)@ == (CoreView {
                conn: Some(peer),
                servers: server_registry::touched(old(self)@.servers, addr@, now),
                ..old(self)@
            }),
            reactions(v@) == match old(self)@.name {
                Some(name) => seq![
                    ReactionView::Save,
                    ReactionView::Send(messages::ClientMessageView::SetName { name }),
                ],
                None => seq![ReactionView::Save],
            },
            (final(self)@, reactions(v@)) == old(self)@.connected_to(addr@, peer, now),
    {
        self.conn = Some(peer);
        server_registry::touch(&mut self.servers, addr, now);
        let mut v = one(Reaction::Save);
        if let Some(name) = &self.name {
            push(&mut v, Reaction::Send(ClientMessage::SetName { name: name.clone() }));
            assert(reactions(v@) =~= seq![
                ReactionView::Save,
                ReactionView::Send(messages::ClientMessageView::SetName { name: name@ }),
            ]);
        }
        v
    }

    /// The connection was made again after it was lost: the name is sent.
    pub fn on_reconnected(&mut self, peer: Ip) -> (v: Vec<Reaction>)
        ensures
            final(self)@ == (CoreView { conn: Some(peer), ..old(self)@ }),
            reactions(v@) == match old(self)@.name {
                Some(name) => seq![
                    ReactionView::Send(messages::ClientMessageView::SetName { name }),
                ],
                None => Seq::empty(),
            },
            (final(self)@, reactions(v@)) == old(self)@.reconnected_to(peer),
    {
        self.conn = Some(peer);
        match &self.name {
            Some(name) => one(Reaction::Send(ClientMessage::SetName { name: name.clone() })),
            None => nothing(),
        }
    }

    /// Whether a message can be sent.
    pub fn check_connected(&self) -> (r: Result<(), String>)
        ensures
            r is Ok <==> self@.conn is Some,
            r matches Err(e) ==> e@ == "not connected"@,
    {
        if self.conn.is_some() {
            Ok(())
        } else {
            Err(owned("not connected"))
        }
    }

    /// Whether a sound check can be started: not without a connection, and not
    /// in a channel.
    pub fn start_echo_test(&self) -> (r: Result<ClientMessage, String>)
        ensures
            match (self@.conn, self@.channel) {
                (None, _) => r matches Err(e) && e@ == "not connected"@,
                (Some(_), Some(_)) => r matches Err(e) && e@ == "leave the channel first"@,
                (Some(_), None) => r matches Ok(m) && m@
                    == messages::ClientMessageView::StartEchoTest,
            },
    {
        if self.conn.is_none() {
            return Err(owned("not connected"));
        }
        if self.channel.is_some() {
            return Err(owned("leave the channel first"));
        }
        Ok(ClientMessage::StartEchoTest)
    }

    /// Sends a direct message: the message and the line for the history.
    pub fn send_dm_to(&self, pubkey_hex: &str, text: &str, now: u64) -> (r: Result<
        (ClientMessage, Reaction),
        String,
    >)
        ensures
            match (self@.conn, self@.server_addr) {
                (None, _) => r matches Err(e) && e@ == "not connected"@,
                (Some(_), None) => r matches Err(e) && e@ == "no server"@,
                (Some(_), Some(server)) => if digest::is_hex(pubkey_hex@) {
                    r matches Ok(p) && p.0@ == (messages::ClientMessageView::DirectMessage {
                        to_pubkey: digest::unhex(pubkey_hex@),
                        text: text@,
                    }) && p.1@ == (ReactionView::Record {
                        server,
                        channel: "@dm:"@ + pubkey_hex@,
                        line: history::ChatLineView {
                            ts_unix: now,
                            kind: LineKind::Dm,
                            from: match self@.name {
                                Some(n) => n,
                                None => "you"@,
                            },
                            text: text@,
                        },
                    })
                } else {
                    r matches Err(e) && e@ == "bad pubkey hex: "@ + digest::hex_complaint(
                        pubkey_hex@,
                    )
                },
            },
    {
        if self.conn.is_none() {
            return Err(owned("not connected"));
        }
        let server = match &self.server_addr {
            Some(s) => s.clone(),
            None => return Err(owned("no server")),
        };
        let from = match &self.name {
            Some(n) => n.clone(),
            None => owned("you"),
        };
        match dm::direct_message(pubkey_hex, text) {
            Ok(msg) => Ok(
                (
                    msg,
                    Reaction::Record {
                        server,
                        channel: dm::dm_channel(pubkey_hex),
                        line: ChatLine {
                            ts_unix: now,
                            kind: LineKind::Dm,
                            from,
                            text: owned(text),
                        },
                    },
                ),
            ),
            Err(e) => Err(e),
        }
    }

    /// Sets the name, which is then sent to the server.
    pub fn set_name(&mut self, name: &str) -> (msg: ClientMessage)
        ensures
            final(self)@ == (CoreView { name: Some(name@), ..old(self)@ }),
            msg@ == (messages::ClientMessageView::SetName { name: name@ }),
    {
        self.name = Some(owned(name));
        ClientMessage::SetName { name: owned(name) }
    }

    /// Sets the mode of capture by its name.
    pub fn set_voice_mode(&mut self, mode: &str) -> (r: Result<(), String>)
        ensures
            match mode_of(mode@) {
                Some(m) => r is Ok && final(self)@ == old(self)@.with_mode(m),
                None => {
                    &&& r matches Err(e) && e@ == "unknown mode: "@ + mode@
                    &&& final(self)@ == old(self)@
                },
            },
    {
        match VoiceMode::parse(mode) {
            Some(m) => {
                self.apply_voice_mode(m);
                Ok(())
            },
            None => Err(join2("unknown mode: ", mode)),
        }
    }

    /// Sets the language.
    pub fn set_language(&mut self, lang: &str) -> (r: Result<(), String>)
        ensures
            if is_language(lang@) {
                r is Ok && final(self)@ == (CoreView { language: lang@, ..old(self)@ })
            } else {
                &&& r matches Err(e) && e@ == "unsupported language: "@ + lang@
                &&& final(self)@ == old(self)@
            },
    {
        if str_eq(lang, "en") || str_eq(lang, "ru") {
            self.language = owned(lang);
            Ok(())
        } else {
            Err(join2("unsupported language: ", lang))
        }
    }

    /// Sets where the overlay is shown.
    pub fn set_overlay_position(&mut self, position: &str) -> (r: Result<(), String>)
        ensures
            if overlay::is_position(position@) {
                r is Ok && final(self)@ == (CoreView { overlay_position: position@, ..old(self)@ })
            } else {
                &&& r matches Err(e) && e@ == "invalid overlay position: "@ + position@
                &&& final(self)@ == old(self)@
            },
    {
        if is_overlay_position(position) {
            self.overlay_position = owned(position);
            Ok(())
        } else {
            Err(join2("invalid overlay position: ", position))
        }
    }

    /// Sets when the overlay is shown.
    pub fn set_overlay_visibility(&mut self, visibility: &str) -> (r: Result<(), String>)
        ensures
            if overlay::is_visibility(visibility@) {
                r is Ok && final(self)@ == (CoreView {
                    overlay_visibility: visibility@,
                    ..old(self)@
                })
            } else {
                &&& r matches Err(e) && e@ == "invalid overlay visibility: "@ + visibility@
                &&& final(self)@ == old(self)@
            },
    {
        if is_overlay_visibility(visibility) {
            self.overlay_visibility = owned(visibility);
            Ok(())
        } else {
            Err(join2("invalid overlay visibility: ", visibility))
        }
    }

    /// How the overlay is set up, for it to be told.
    pub fn overlay_config(&self) -> (e: Event)
        ensures
            e@ == (events::EventView::OverlayConfig {
                enabled: self@.overlay_enabled,
                position: self@.overlay_position,
                visibility: self@.overlay_visibility,
            }),
    {
        Event::OverlayConfig(
            OverlayConfigPayload {
                enabled: self.overlay_enabled,
                position: self.overlay_position.clone(),
                visibility: self.overlay_visibility.clone(),
            },
        )
    }

    /// What the window shows of the client.
    pub fn app_status(&self, version: &str) -> (s: AppStatus)
        ensures
            s.version@ == version@,
            messages::opt_text(s.fingerprint) == match self@.identity {
                Some(secret) => Some(digest::short_fingerprint(identity::public_half(secret))),
                None => None,
            },
            messages::opt_text(s.pubkey) == match self@.identity {
                Some(secret) => Some(digest::hex_text(identity::public_half(secret))),
                None => None,
            },
            s.connected == (self@.conn is Some),
            messages::opt_text(s.server_addr) == self@.server_addr,
            messages::opt_text(s.channel) == self@.channel,
            s.muted == self@.muted,
            messages::opt_text(s.name) == self@.name,
            s.voice_mode@ == mode_name(self@.voice_mode),
            messages::opt_text(s.input_device) == self@.input_device,
            messages::opt_text(s.output_device) == self@.output_device,
            s.input_gain_pct == self@.input_gain_pct,
            s.output_vol_pct == self@.output_vol_pct,
            s.vad_level_pct == self@.vad_level_pct,
            s.notifications == self@.notifications,
            s.close_to_tray == self@.close_to_tray,
            s.autostart == self@.autostart,
            s.language@ == self@.language,
    {
        let pubkey = match self.pubkey() {
            Some(k) => Some(hex_encode(k.as_slice())),
            None => None,
        };
        AppStatus {
            version: owned(version),
            fingerprint: self.fingerprint(),
            connected: self.conn.is_some(),
            server_addr: copy_text(&self.server_addr),
            channel: copy_text(&self.channel),
            muted: self.muted,
            name: copy_text(&self.name),
            pubkey,
            voice_mode: owned(self.voice_mode.as_str()),
            input_device: copy_text(&self.input_device),
            output_device: copy_text(&self.output_device),
            input_gain_pct: self.input_gain_pct,
            output_vol_pct: self.output_vol_pct,
            vad_level_pct: self.vad_level_pct,
            notifications: self.notifications,
            close_to_tray: self.close_to_tray,
            autostart: self.autostart,
            language: self.language.clone(),
        }
    }
}

/// What the window shows of the client.
#[derive(Debug)]
pub struct AppStatus {
    pub version: String,
    pub fingerprint: Option<String>,
    pub connected: bool,
    pub server_addr: Option<String>,
    pub channel: Option<String>,
    pub muted: bool,
    pub name: Option<String>,
    pub pubkey: Option<String>,
    pub voice_mode: String,
    pub input_device: Option<String>,
    pub output_device: Option<String>,
    pub input_gain_pct: u32,
    pub output_vol_pct: u32,
    pub vad_level_pct: u32,
    pub notifications: bool,
    pub close_to_tray: bool,
    pub autostart: bool,
    pub language: String,
}

/// What is told when voice could not be started.
pub fn voice_failed(echo_test: bool, error: &str) -> (e: Event)
    ensures
        e@ == (events::EventView::Error {
            message: if echo_test {
                "sound check failed: "@ + error@
            } else {
                "voice failed: "@ + error@
            },
        }),
{
    let message = if echo_test {
        join2("sound check failed: ", error)
    } else {
        join2("voice failed: ", error)
    };
    Event::Error(ErrorPayload { message })
}

/// The delay before a reconnect: five seconds before the first two, ten before
/// the others.
pub open spec fn backoff(attempt: u32) -> int {
    if attempt <= 2 {
        5
    } else {
        10
    }
}

/// The delay before a reconnect, in seconds.
pub fn backoff_seconds(attempt: u32) -> (secs: u64)
    ensures
        secs == backoff(attempt),
{
    if attempt <= 2 {
        5
    } else {
        10
    }
}

/// The next reconnect: its number, and what the window is told of it.
pub fn next_reconnect(attempt: u32) -> (r: (u32, Event))
    ensures
        r.0 == if attempt < u32::MAX {
            (attempt + 1) as u32
        } else {
            u32::MAX
        },
        r.1@ == events::EventView::ConnectionState(
            (events::ConnStateView::Reconnecting {
                attempt: r.0,
                delay_secs: backoff(r.0) as u64,
            }),
        ),
{
    let next: u32 = attempt.saturating_add(1);
    let delay_secs: u64 = backoff_seconds(next);
    (next, Event::ConnectionState(ConnState::Reconnecting { attempt: next, delay_secs }))
}

/// What the client keeps is what the next one starts with.
pub proof fn law_settings_survive(c: CoreView)
    requires
        is_language(c.language),
    ensures
        started_core(c.identity, c.kept()).kept() == c.kept(),
        started_core(c.identity, c.kept()).voice_mode == c.voice_mode,
{
    law_mode_names(c.voice_mode);
    assert(started_core(c.identity, c.kept()).kept() =~= c.kept());
}

/// Settings that were given out can be brought in: they replace the others,
/// but for the identity.
pub proof fn law_export_import(c: CoreView, other: CoreView)
    requires
        is_language(c.language),
        c.vad_level_pct <= 100,
        c.input_gain_pct <= 400,
        c.output_vol_pct <= 400,
        c.paranoid == other.paranoid,
        c.denoise == other.denoise,
    ensures
        other.imported(c.kept()).kept() == c.kept(),
        other.imported(c.kept()).identity == other.identity,
{
    law_mode_names(c.voice_mode);
    assert(other.imported(c.kept()).kept() =~= c.kept());
}

/// Nobody enters a channel with an open microphone.
pub proof fn law_joining_mutes(
    c: CoreView,
    channel_id: Seq<char>,
    participants: Seq<Seq<char>>,
    udp_token: u64,
    voice_key: Seq<u8>,
)
    ensures
        c.joined(channel_id, participants, udp_token, voice_key).0.muted,
{
}

/// A sound check is heard whether or not the microphone is muted.
pub proof fn law_sound_check_is_open(
    c: CoreView,
    ip: Ip,
    channel_id: Seq<char>,
    udp_token: u64,
    voice_key: Seq<u8>,
)
    ensures
        !c.start_params(ip, channel_id, udp_token, voice_key, true).muted,
{
}

} // verus!
