//! What is kept between two runs of a client.

use vstd::prelude::*;

use crate::config;
use crate::messages;
use crate::names;
use crate::names::sanitize_name;
use crate::state::copy_text;
use crate::table::Table;
use crate::terminal;
use crate::terminal::App;
use crate::text::{owned, str_eq};
use crate::tls::TofuState;

verus! {

/// A peer that direct messages were exchanged with.
#[derive(Debug, Clone)]
pub struct DmPeer {
    /// The public key in hexadecimal notation.
    pub pubkey_hex: String,
    /// The last name that the peer used.
    pub name: String,
    pub last_seen_unix: u64,
}

/// What a [`DmPeer`] says.
#[verifier::ext_equal]
pub struct DmPeerModel {
    pub pubkey_hex: Seq<char>,
    pub name: Seq<char>,
    pub last_seen_unix: u64,
}

impl View for DmPeer {
    type V = DmPeerModel;

    open spec fn view(&self) -> DmPeerModel {
        DmPeerModel {
            pubkey_hex: self.pubkey_hex@,
            name: self.name@,
            last_seen_unix: self.last_seen_unix,
        }
    }
}

impl Default for DmPeer {
    fn default() -> (p: Self)
        ensures
            p@ == (DmPeerModel {
                pubkey_hex: Seq::empty(),
                name: Seq::empty(),
                last_seen_unix: 0,
            }),
    {
        DmPeer { pubkey_hex: String::new(), name: String::new(), last_seen_unix: 0 }
    }
}

/// A server that was connected to.
#[derive(Debug, Clone)]
pub struct ServerEntry {
    pub addr: String,
    pub label: Option<String>,
    pub last_channel: Option<String>,
    pub favourite: bool,
    pub last_used_unix: u64,
}

/// What a [`ServerEntry`] says.
#[verifier::ext_equal]
pub struct ServerEntryModel {
    pub addr: Seq<char>,
    pub label: Option<Seq<char>>,
    pub last_channel: Option<Seq<char>>,
    pub favourite: bool,
    pub last_used_unix: u64,
}

impl View for ServerEntry {
    type V = ServerEntryModel;

    open spec fn view(&self) -> ServerEntryModel {
        ServerEntryModel {
            addr: self.addr@,
            label: messages::opt_text(self.label),
            last_channel: messages::opt_text(self.last_channel),
            favourite: self.favourite,
            last_used_unix: self.last_used_unix,
        }
    }
}

impl Default for ServerEntry {
    fn default() -> (e: Self)
        ensures
            e@ == (ServerEntryModel {
                addr: Seq::empty(),
                label: None,
                last_channel: None,
                favourite: false,
                last_used_unix: 0,
            }),
    {
        ServerEntry {
            addr: String::new(),
            label: None,
            last_channel: None,
            favourite: false,
            last_used_unix: 0,
        }
    }
}

/// What a list of peers says.
pub open spec fn peer_views(v: Seq<DmPeer>) -> Seq<DmPeerModel> {
    v.map_values(|p: DmPeer| p@)
}

/// What a list of servers says.
pub open spec fn server_views(v: Seq<ServerEntry>) -> Seq<ServerEntryModel> {
    v.map_values(|e: ServerEntry| e@)
}

/// Whether a flag has its default value and need not be written.
pub fn is_false(b: &bool) -> (r: bool)
    ensures
        r == !*b,
{
    !*b
}

/// Whether a number has its default value and need not be written.
pub fn is_zero(n: &u64) -> (r: bool)
    ensures
        r == (*n == 0),
{
    *n == 0
}

/// The settings of a user.
pub struct UserSettings {
    pub server: Option<String>,
    pub input_device: Option<String>,
    pub output_device: Option<String>,
    pub vad_level: Option<u32>,
    /// Gain of the microphone, in percent.
    pub input_gain: Option<u32>,
    /// Volume of incoming voice, in percent.
    pub output_vol: Option<u32>,
    pub name: Option<String>,
    /// `open`, `vad` or `ptt`.
    pub voice_mode: Option<String>,
    pub paranoid: Option<bool>,
    pub denoise: Option<bool>,
    /// The keys of the global actions.
    pub hotkeys: Table<String, String>,
    pub notifications: Option<bool>,
    pub autostart: Option<bool>,
    pub close_to_tray: Option<bool>,
    /// `en` or `ru`.
    pub language: Option<String>,
    /// The certificate fingerprints of known servers.
    pub trusted_servers: Table<String, String>,
    pub servers: Vec<ServerEntry>,
    pub dm_peers: Vec<DmPeer>,
}

/// What [`UserSettings`] say.
#[verifier::ext_equal]
pub struct SettingsModel {
    pub server: Option<Seq<char>>,
    pub input_device: Option<Seq<char>>,
    pub output_device: Option<Seq<char>>,
    pub vad_level: Option<u32>,
    pub input_gain: Option<u32>,
    pub output_vol: Option<u32>,
    pub name: Option<Seq<char>>,
    pub voice_mode: Option<Seq<char>>,
    pub paranoid: Option<bool>,
    pub denoise: Option<bool>,
    pub hotkeys: Map<Seq<char>, Seq<char>>,
    pub notifications: Option<bool>,
    pub autostart: Option<bool>,
    pub close_to_tray: Option<bool>,
    pub language: Option<Seq<char>>,
    pub trusted_servers: Map<Seq<char>, Seq<char>>,
    pub servers: Seq<ServerEntryModel>,
    pub dm_peers: Seq<DmPeerModel>,
}

impl View for UserSettings {
    type V = SettingsModel;

    open spec fn view(&self) -> SettingsModel {
        SettingsModel {
            server: messages::opt_text(self.server),
            input_device: messages::opt_text(self.input_device),
            output_device: messages::opt_text(self.output_device),
            vad_level: self.vad_level,
            input_gain: self.input_gain,
            output_vol: self.output_vol,
            name: messages::opt_text(self.name),
            voice_mode: messages::opt_text(self.voice_mode),
            paranoid: self.paranoid,
            denoise: self.denoise,
            hotkeys: self.hotkeys@,
            notifications: self.notifications,
            autostart: self.autostart,
            close_to_tray: self.close_to_tray,
            language: messages::opt_text(self.language),
            trusted_servers: self.trusted_servers@,
            servers: server_views(self.servers@),
            dm_peers: peer_views(self.dm_peers@),
        }
    }
}

/// Nothing is set.
pub open spec fn unset() -> SettingsModel {
    SettingsModel {
        server: None,
        input_device: None,
        output_device: None,
        vad_level: None,
        input_gain: None,
        output_vol: None,
        name: None,
        voice_mode: None,
        paranoid: None,
        denoise: None,
        hotkeys: Map::empty(),
        notifications: None,
        autostart: None,
        close_to_tray: None,
        language: None,
        trusted_servers: Map::empty(),
        servers: Seq::empty(),
        dm_peers: Seq::empty(),
    }
}

impl Default for UserSettings {
    fn default() -> (s: Self)
        ensures
            s@ == unset(),
    {
        let s = UserSettings {
            server: None,
            input_device: None,
            output_device: None,
            vad_level: None,
            input_gain: None,
            output_vol: None,
            name: None,
            voice_mode: None,
            paranoid: None,
            denoise: None,
            hotkeys: Table::new(),
            notifications: None,
            autostart: None,
            close_to_tray: None,
            language: None,
            trusted_servers: Table::new(),
            servers: Vec::new(),
            dm_peers: Vec::new(),
        };
        assert(s@ =~= unset());
        s
    }
}

/// A number, unless it is the default one.
pub open spec fn unless_default(n: u32, default: u32) -> Option<u32> {
    if n != default {
        Some(n)
    } else {
        None
    }
}

/// What is kept of the terminal client. Defaults are left out.
pub open spec fn kept_of(a: terminal::AppView) -> SettingsModel {
    SettingsModel {
        server: if a.server_addr != "127.0.0.1:7100"@ {
            Some(a.server_addr)
        } else {
            None
        },
        input_device: a.input_device,
        output_device: a.output_device,
        vad_level: unless_default(a.vad_level, config::DEFAULT_VAD_LEVEL),
        input_gain: unless_default(a.input_gain, 100),
        output_vol: unless_default(a.output_vol, 100),
        name: a.name,
        ..unset()
    }
}

/// A number, unless it is the default one.
fn unless(n: u32, default: u32) -> (r: Option<u32>)
    ensures
        r == unless_default(n, default),
{
    if n != default {
        Some(n)
    } else {
        None
    }
}

/// What is to be kept of the terminal client.
pub fn build_settings(app: &App) -> (s: UserSettings)
    ensures
        s@ == kept_of(app@),
{
    let mut s = UserSettings::default();
    if !str_eq(app.server_addr.as_str(), "127.0.0.1:7100") {
        s.server = Some(app.server_addr.clone());
    }
    s.input_device = copy_text(&app.input_device);
    s.output_device = copy_text(&app.output_device);
    s.vad_level = unless(app.vad_level, config::DEFAULT_VAD_LEVEL);
    s.input_gain = unless(app.input_gain, 100);
    s.output_vol = unless(app.output_vol, 100);
    s.name = copy_text(&app.name);
    assert(s@ =~= kept_of(app@));
    s
}

/// What is to be kept of the terminal client and of the servers that it
/// trusts. Nothing is kept when it trusts none.
pub fn settings_with_trust(app: &App, tofu: &TofuState) -> (s: Option<UserSettings>)
    ensures
        s is Some <==> tofu@.trusted != Map::<Seq<char>, Seq<char>>::empty(),
        s matches Some(u) ==> u@ == (SettingsModel {
            trusted_servers: tofu@.trusted,
            ..kept_of(app@)
        }),
{
    let trusted = tofu.trusted_map();
    if trusted.is_empty() {
        return None;
    }
    let mut s = build_settings(app);
    s.trusted_servers = trusted;
    Some(s)
}

/// The name that is taken from the settings, if it holds anything.
pub open spec fn usable_name(name: Option<Seq<char>>) -> Option<Seq<char>> {
    match name {
        Some(n) => if names::clean_name(n).len() > 0 {
            Some(names::clean_name(n))
        } else {
            None
        },
        None => None,
    }
}

/// A number or its default.
pub open spec fn or_default(n: Option<u32>, default: u32) -> u32 {
    match n {
        Some(v) => v,
        None => default,
    }
}

/// The terminal client that starts with the given settings.
pub open spec fn started_with(s: SettingsModel, muted: bool) -> terminal::AppView {
    terminal::AppView {
        input_device: s.input_device,
        output_device: s.output_device,
        name: usable_name(s.name),
        vad_level: or_default(s.vad_level, config::DEFAULT_VAD_LEVEL),
        input_gain: or_default(s.input_gain, 100),
        output_vol: or_default(s.output_vol, 100),
        ..terminal::started(
            muted,
            match s.server {
                Some(addr) => addr,
                None => "127.0.0.1:7100"@,
            },
        )
    }
}

/// A terminal client that starts with the given settings.
pub fn start_app(s: &UserSettings, muted: bool) -> (app: App)
    ensures
        app@.wf(),
        app@ == started_with(s@, muted),
{
    let addr = match &s.server {
        Some(addr) => addr.clone(),
        None => owned("127.0.0.1:7100"),
    };
    let mut app = App::new(muted, addr);
    app.input_device = copy_text(&s.input_device);
    app.output_device = copy_text(&s.output_device);
    if let Some(raw) = &s.name {
        let name = sanitize_name(raw.as_str());
        if !name.as_str().is_empty() {
            app.name = Some(name);
        }
    }
    if let Some(level) = s.vad_level {
        app.vad_level = level;
    }
    if let Some(pct) = s.input_gain {
        app.input_gain = pct;
    }
    if let Some(pct) = s.output_vol {
        app.output_vol = pct;
    }
    assert(app@ =~= started_with(s@, muted));
    app
}

/// What a client keeps is what the next one starts with.
pub proof fn law_settings_survive(a: terminal::AppView, muted: bool)
    requires
        a.name == usable_name(a.name),
    ensures
        ({
            let b = started_with(kept_of(a), muted);
            &&& b.server_addr == a.server_addr
            &&& b.input_device == a.input_device
            &&& b.output_device == a.output_device
            &&& b.vad_level == a.vad_level
            &&& b.input_gain == a.input_gain
            &&& b.output_vol == a.output_vol
            &&& b.name == a.name
        }),
{
}

/// Where the settings are.
#[derive(Debug, Clone, Copy, PartialEq, Eq, Structural)]
pub enum SettingsPlace {
    /// In the configuration directory.
    ConfigDir,
    /// Next to the program; they are to be moved.
    Migrate,
}

/// Where the settings are. Those next to the program count only as long as
/// there are none in the configuration directory.
pub fn settings_place(beside_program: bool, in_config_dir: bool) -> (p: SettingsPlace)
    ensures
        p == SettingsPlace::Migrate <==> beside_program && !in_config_dir,
{
    if beside_program && !in_config_dir {
        SettingsPlace::Migrate
    } else {
        SettingsPlace::ConfigDir
    }
}

/// A client without settings starts on this machine's server at plain gain and
/// volume, without a name.
pub proof fn law_defaults(muted: bool)
    ensures
        ({
            let a = started_with(unset(), muted);
            &&& a.server_addr == "127.0.0.1:7100"@
            &&& a.vad_level == config::DEFAULT_VAD_LEVEL
            &&& a.input_gain == 100
            &&& a.output_vol == 100
            &&& a.name is None
            &&& a.input_device is None
            &&& a.output_device is None
            &&& a.muted == muted
            &&& a.channel is None
        }),
{
}

/// What the settings hold is what the client starts with.
pub proof fn law_start_follows_settings(s: SettingsModel, muted: bool)
    ensures
        ({
            let a = started_with(s, muted);
            &&& s.server matches Some(addr) ==> a.server_addr == addr
            &&& a.input_device == s.input_device
            &&& a.output_device == s.output_device
            &&& s.vad_level matches Some(v) ==> a.vad_level == v
            &&& s.input_gain matches Some(v) ==> a.input_gain == v
            &&& s.output_vol matches Some(v) ==> a.output_vol == v
            &&& s.name matches Some(n) ==> (names::clean_name(n).len() > 0 ==> a.name == Some(
                names::clean_name(n),
            ))
        }),
{
}

/// What has its default value is not written down.
pub proof fn law_defaults_are_left_out(muted: bool)
    ensures
        kept_of(started_with(unset(), muted)) == unset(),
{
    assert(kept_of(started_with(unset(), muted)) =~= unset());
}

} // verus!
