//! The commands of the terminal client, and what it does with the messages of
//! the server.

use vstd::prelude::*;

use crate::audio;
use crate::audio::{name_at_index, DeviceInfo};
use crate::config;
use crate::invite;
use crate::invite::invite_url;
use crate::messages;
use crate::messages::{ClientMessage, ServerMessage};
use crate::names;
use crate::names::{sanitize_channel_name, sanitize_name};
use crate::network;
use crate::network::with_default_port;
use crate::terminal;
use crate::terminal::{App, ConnectionState, Link, VoiceJoinParams};
use crate::text;
use crate::text::{
    decimal_string, join2, join3, join4, join5, owned, parse_number, split_first, starts_with,
    str_eq, trim, utf8_len,
};
use crate::tls;
use crate::tls::TofuResult;

verus! {

/// Why a connection is made.
#[derive(Debug, Clone, Copy, PartialEq, Eq, Structural)]
pub enum Occasion {
    /// The client has just started.
    First,
    /// The user asked for it.
    Asked,
    /// The connection was lost.
    Automatic,
}

/// What is left to do for a command or a message.
#[derive(Debug)]
pub enum Effect {
    /// Send a message to the server.
    Send(ClientMessage),
    /// Connect to the server, dropping the old connection.
    Connect(Occasion),
    /// Forget the fingerprint of the server.
    ForgetServer,
    /// Save the settings.
    SaveSettings,
    /// Save the settings with the trusted fingerprints.
    SaveTrust,
    /// Start the web interface on a port.
    StartWeb(u16),
    /// Start the voice of the channel that was joined.
    StartVoice,
    /// Start the voice of the channel anew.
    RestartVoice,
    /// Stop the voice.
    StopVoice,
    /// Start the voice of a sound check.
    StartEcho,
    /// Start the digital rain anew.
    ResetRain,
    /// List the audio devices.
    ListDevices,
    /// Choose the input device with an index.
    PickInput(usize),
    /// Choose the output device with an index.
    PickOutput(usize),
}

/// What an [`Effect`] says.
#[verifier::ext_equal]
pub enum EffectView {
    Send(messages::ClientMessageView),
    Connect(Occasion),
    ForgetServer,
    SaveSettings,
    SaveTrust,
    StartWeb(u16),
    StartVoice,
    RestartVoice,
    StopVoice,
    StartEcho,
    ResetRain,
    ListDevices,
    PickInput(usize),
    PickOutput(usize),
}

impl View for Effect {
    type V = EffectView;

    open spec fn view(&self) -> EffectView {
        match *self {
            Effect::Send(m) => EffectView::Send(m@),
            Effect::Connect(o) => EffectView::Connect(o),
            Effect::ForgetServer => EffectView::ForgetServer,
            Effect::SaveSettings => EffectView::SaveSettings,
            Effect::SaveTrust => EffectView::SaveTrust,
            Effect::StartWeb(p) => EffectView::StartWeb(p),
            Effect::StartVoice => EffectView::StartVoice,
            Effect::RestartVoice => EffectView::RestartVoice,
            Effect::StopVoice => EffectView::StopVoice,
            Effect::StartEcho => EffectView::StartEcho,
            Effect::ResetRain => EffectView::ResetRain,
            Effect::ListDevices => EffectView::ListDevices,
            Effect::PickInput(i) => EffectView::PickInput(i),
            Effect::PickOutput(i) => EffectView::PickOutput(i),
        }
    }
}

/// What a list of effects says.
pub open spec fn effects(v: Seq<Effect>) -> Seq<EffectView> {
    v.map_values(|e: Effect| e@)
}

/// The state and what is left to do.
pub type Outcome = (terminal::AppView, Seq<EffectView>);

/// No effects.
fn nothing() -> (v: Vec<Effect>)
    ensures
        effects(v@) == Seq::<EffectView>::empty(),
{
    let v: Vec<Effect> = Vec::new();
    assert(effects(v@) =~= Seq::empty());
    v
}

/// One effect.
fn one(e: Effect) -> (v: Vec<Effect>)
    ensures
        effects(v@) == seq![e@],
{
    let mut v: Vec<Effect> = Vec::new();
    v.push(e);
    assert(effects(v@) =~= seq![e@]);
    v
}

/// One more effect.
fn push(v: &mut Vec<Effect>, e: Effect)
    ensures
        effects(final(v)@) == effects(old(v)@).push(e@),
{
    let ghost before = effects(v@);
    v.push(e);
    assert(effects(v@) =~= before.push(e@));
}

/// Three digits of a number below a thousand.
pub open spec fn three_digits(n: nat) -> Seq<char> {
    seq![text::digit(n / 100 % 10), text::digit(n / 10 % 10), text::digit(n % 10)]
}

/// The threshold of a level of voice detection, a thousandth for each step,
/// with four decimals.
pub open spec fn threshold_text(level: u32) -> Seq<char> {
    text::decimal((level / 1000) as nat) + "."@ + three_digits((level % 1000) as nat) + "0"@
}

/// The threshold of a level of voice detection.
pub fn threshold_string(level: u32) -> (s: String)
    ensures
        s@ == threshold_text(level),
{
    let whole = decimal_string((level / 1000) as u64);
    let m: u32 = level % 1000;
    let mut digits = String::new();
    digits.push((48u8 + (m / 100 % 10) as u8) as char);
    digits.push((48u8 + (m / 10 % 10) as u8) as char);
    digits.push((48u8 + (m % 10) as u8) as char);
    assert(digits@ =~= three_digits(m as nat));
    join4(whole.as_str(), ".", digits.as_str(), "0")
}

/// What is given after a command, without white space around it.
pub open spec fn given(arg: Option<Seq<char>>) -> Option<Seq<char>> {
    match arg {
        Some(a) => if text::trimmed(a).len() > 0 {
            Some(text::trimmed(a))
        } else {
            None
        },
        None => None,
    }
}

/// What is given after a command.
fn given_arg(arg: &Option<String>) -> (r: Option<String>)
    ensures
        messages::opt_text(r) == given(messages::opt_text(*arg)),
{
    match arg {
        Some(a) => {
            let t = trim(a.as_str());
            if t.as_str().is_empty() {
                None
            } else {
                Some(t)
            }
        },
        None => None,
    }
}

/// Names in a row, with commas between them.
pub(crate) fn join_names(list: &Vec<String>) -> (s: String)
    ensures
        s@ == text::joined(messages::texts(list@), ", "@),
{
    let mut s = String::new();
    let mut i: usize = 0;
    assert(s@ =~= text::joined(messages::texts(list@).subrange(0, 0), ", "@));
    while i < list.len()
        invariant
            i <= list@.len(),
            s@ == text::joined(messages::texts(list@).subrange(0, i as int), ", "@),
        decreases list.len() - i,
    {
        if i > 0 {
            s.append(", ");
        }
        s.append(list[i].as_str());
        i = i + 1;
        proof {
            let t = messages::texts(list@).subrange(0, i as int);
            assert(t.drop_last() =~= messages::texts(list@).subrange(0, i - 1));
            assert(t.last() == list@[i - 1]@);
            if i == 1 {
                assert(s@ =~= t[0]);
            }
        }
    }
    assert(messages::texts(list@).subrange(0, i as int) =~= messages::texts(list@));
    s
}

/// The lines that `/help` shows.
pub open spec fn help_lines() -> Seq<Seq<char>> {
    seq![
        "── commands (short aliases in parens) ──"@,
        "  /config (/cfg)     list audio config"@,
        "  /config input <N>  select input device"@,
        "  /config output <N> select output device"@,
        "  /config gain <0-200> mic gain (default 100)"@,
        "  /config vol <0-200>  incoming volume (default 100)"@,
        "  /config vad <0-100>  vad level (0/off = disable, default 15)"@,
        "  /create (/c)       create a private channel"@,
        "  /create (/c) <name> create a public channel"@,
        "  /list (/ls)        list public channels"@,
        "  /connect (/j) <id> join a channel (or just #<id>)"@,
        "  /leave (/l)        leave current channel"@,
        "  /invite (/i)       print an invite link"@,
        "  /echotest          hear yourself through the server"@,
        "  /mute (/m)         toggle mute"@,
        "  /name (/n) <name>  set your display name"@,
        "  /server (/s) <ip>  set server address"@,
        "  /reconnect (/r)    reconnect to server"@,
        "  /web <port>        start web UI on port"@,
        "  /quit (/q)         exit"@,
        "  <text>             send chat message"@,
        "── keys ──"@,
        "  Up/Down            command history"@,
        "  Ctrl+C / Esc       quit"@,
    ]
}

/// The lines that `/help` shows.
fn help_text() -> (v: Vec<String>)
    ensures
        messages::texts(v@) == help_lines(),
{
    let mut v: Vec<String> = Vec::new();
    v.push(owned("── commands (short aliases in parens) ──"));
    v.push(owned("  /config (/cfg)     list audio config"));
    v.push(owned("  /config input <N>  select input device"));
    v.push(owned("  /config output <N> select output device"));
    v.push(owned("  /config gain <0-200> mic gain (default 100)"));
    v.push(owned("  /config vol <0-200>  incoming volume (default 100)"));
    v.push(owned("  /config vad <0-100>  vad level (0/off = disable, default 15)"));
    v.push(owned("  /create (/c)       create a private channel"));
    v.push(owned("  /create (/c) <name> create a public channel"));
    v.push(owned("  /list (/ls)        list public channels"));
    v.push(owned("  /connect (/j) <id> join a channel (or just #<id>)"));
    v.push(owned("  /leave (/l)        leave current channel"));
    v.push(owned("  /invite (/i)       print an invite link"));
    v.push(owned("  /echotest          hear yourself through the server"));
    v.push(owned("  /mute (/m)         toggle mute"));
    v.push(owned("  /name (/n) <name>  set your display name"));
    v.push(owned("  /server (/s) <ip>  set server address"));
    v.push(owned("  /reconnect (/r)    reconnect to server"));
    v.push(owned("  /web <port>        start web UI on port"));
    v.push(owned("  /quit (/q)         exit"));
    v.push(owned("  <text>             send chat message"));
    v.push(owned("── keys ──"));
    v.push(owned("  Up/Down            command history"));
    v.push(owned("  Ctrl+C / Esc       quit"));
    assert(messages::texts(v@) =~= help_lines());
    v
}

/// A device in the list that `/config` shows.
pub open spec fn device_line(
    d: audio::DeviceInfoView,
    selected: Option<Seq<char>>,
) -> Seq<char> {
    "  "@ + text::decimal(d.index as nat) + ". "@ + d.name + (if selected == Some(d.name) {
        " [selected]"@
    } else if d.is_default {
        " [default]"@
    } else {
        ""@
    })
}

/// The devices in the list that `/config` shows.
pub open spec fn device_lines(
    devices: Seq<audio::DeviceInfoView>,
    selected: Option<Seq<char>>,
) -> Seq<Seq<char>> {
    devices.map_values(|d: audio::DeviceInfoView| device_line(d, selected))
}

/// A public channel in the list that `/list` shows.
pub open spec fn channel_line(c: messages::ChannelInfoView) -> Seq<char> {
    "  "@ + c.channel_id + " ("@ + text::decimal(c.participant_count as nat) + " users)"@
}

/// The public channels in the list that `/list` shows.
pub open spec fn channel_lines(channels: Seq<messages::ChannelInfoView>) -> Seq<Seq<char>> {
    channels.map_values(|c: messages::ChannelInfoView| channel_line(c))
}

/// Names without those that equal `name`.
pub open spec fn without(list: Seq<Seq<char>>, name: Seq<char>) -> Seq<Seq<char>>
    decreases list.len(),
{
    if list.len() == 0 {
        Seq::empty()
    } else {
        let rest = without(list.drop_last(), name);
        if list.last() == name {
            rest
        } else {
            rest.push(list.last())
        }
    }
}

/// Names with the first one that equals `old_name` replaced.
pub open spec fn with_renamed(
    list: Seq<Seq<char>>,
    old_name: Seq<char>,
    new_name: Seq<char>,
) -> Seq<Seq<char>>
    decreases list.len(),
{
    if list.len() == 0 {
        list
    } else if list[0] == old_name {
        list.update(0, new_name)
    } else {
        seq![list[0]] + with_renamed(list.drop_first(), old_name, new_name)
    }
}

/// What a list of devices or the text of an error says.
pub open spec fn devices_result(
    r: Result<Vec<DeviceInfo>, String>,
) -> Result<Seq<audio::DeviceInfoView>, Seq<char>> {
    match r {
        Ok(v) => Ok(audio::device_views(v@)),
        Err(e) => Err(e@),
    }
}

/// The delay before the reconnect after `attempt` failed ones, in
/// milliseconds: a second, doubled at each of the first five, but never more
/// than half a minute.
pub open spec fn reconnect_delay(attempt: u32) -> int {
    if attempt == 0 {
        1_000
    } else if attempt == 1 {
        2_000
    } else if attempt == 2 {
        4_000
    } else if attempt == 3 {
        8_000
    } else if attempt == 4 {
        16_000
    } else {
        30_000
    }
}

/// The delay before the reconnect after `attempt` failed ones.
pub fn reconnect_delay_ms(attempt: u32) -> (ms: u64)
    ensures
        ms == reconnect_delay(attempt),
{
    match attempt {
        0 => 1_000,
        1 => 2_000,
        2 => 4_000,
        3 => 8_000,
        4 => 16_000,
        _ => 30_000,
    }
}

/// Reconnects are tried ever more slowly, but at least twice a minute.
pub proof fn law_reconnect_backs_off(attempt: u32)
    requires
        attempt < u32::MAX,
    ensures
        1_000 <= reconnect_delay(attempt) <= reconnect_delay((attempt + 1) as u32) <= 30_000,
{
}

/// A time in the future, as far as times go.
pub open spec fn later(now: u64, ms: int) -> u64 {
    if now + ms <= u64::MAX {
        (now + ms) as u64
    } else {
        u64::MAX
    }
}

impl terminal::AppView {
    /// Lines were added to the log.
    pub open spec fn said_all(self, lines: Seq<Seq<char>>) -> terminal::AppView
        decreases lines.len(),
    {
        if lines.len() == 0 {
            self
        } else {
            self.said_all(lines.drop_last()).said(lines.last())
        }
    }

    /// A message goes out, if there is a line to the server.
    pub open spec fn dispatched(self, msg: messages::ClientMessageView) -> Outcome {
        match self.link {
            Link::Open => (self, seq![EffectView::Send(msg)]),
            Link::Closed => (
                terminal::AppView {
                    link: Link::Absent,
                    conn_state: ConnectionState::Disconnected,
                    ..self
                }.said("disconnected from server"@),
                Seq::empty(),
            ),
            Link::Absent => (self, Seq::empty()),
        }
    }

    /// The channel is left behind.
    pub open spec fn without_channel(self) -> terminal::AppView {
        terminal::AppView {
            voice_active: false,
            channel: None,
            participants: Seq::empty(),
            voice_params: None,
            ..self
        }
    }

    /// A new connection is made because the user asked for it.
    pub open spec fn reconnecting(self) -> Outcome {
        (
            terminal::AppView {
                next_reconnect: None,
                reconnect_attempt: 0,
                link: Link::Absent,
                conn_state: ConnectionState::Reconnecting { attempt: 1 },
                ..self.without_channel()
            }.said("connecting to "@ + self.server_addr + "..."@),
            seq![EffectView::Connect(Occasion::Asked)],
        )
    }

    /// `/matrix`: the digital rain starts or stops.
    pub open spec fn cmd_matrix(self) -> Outcome {
        (
            terminal::AppView { matrix_mode: !self.matrix_mode, ..self },
            if self.matrix_mode {
                Seq::empty()
            } else {
                seq![EffectView::ResetRain]
            },
        )
    }

    /// `/trust`: the server's fingerprint is forgotten.
    pub open spec fn cmd_trust(self) -> Outcome {
        (
            self.said(
                "cleared fingerprint for "@ + self.server_addr + ", reconnecting..."@,
            ).reconnecting().0,
            seq![
                EffectView::ForgetServer,
                EffectView::SaveTrust,
                EffectView::Connect(Occasion::Asked),
            ],
        )
    }

    /// `/server`: the address is shown or set.
    pub open spec fn cmd_server(self, arg: Option<Seq<char>>) -> Outcome {
        match given(arg) {
            None => (self.said("current server: "@ + self.server_addr), Seq::empty()),
            Some(addr) => {
                let a = terminal::AppView {
                    server_addr: network::ported(addr),
                    ..self
                }.said("server address set to "@ + network::ported(addr));
                if a.conn_state != ConnectionState::Connected {
                    (
                        a.reconnecting().0,
                        seq![EffectView::SaveSettings, EffectView::Connect(Occasion::Asked)],
                    )
                } else {
                    (a, seq![EffectView::SaveSettings])
                }
            },
        }
    }

    /// `/name`: the name is set.
    pub open spec fn cmd_name(self, arg: Option<Seq<char>>) -> Outcome {
        match arg {
            Some(raw) if names::clean_name(raw).len() > 0 => {
                let name = names::clean_name(raw);
                let sent = self.said("> /name "@ + name).dispatched(
                    messages::ClientMessageView::SetName { name },
                );
                (
                    terminal::AppView { name: Some(name), ..sent.0 },
                    sent.1.push(EffectView::SaveSettings),
                )
            },
            _ => (self.said("usage: /name <name>"@), Seq::empty()),
        }
    }

    /// `/mute`: the microphone is muted or not.
    pub open spec fn cmd_mute(self) -> Outcome {
        (
            terminal::AppView { muted: !self.muted, ..self }.said(
                if self.muted {
                    "unmuted"@
                } else {
                    "muted"@
                },
            ),
            Seq::empty(),
        )
    }

    /// `/web`: the web interface is started.
    pub open spec fn cmd_web(self, arg: Option<Seq<char>>) -> Outcome {
        match given(arg) {
            Some(s) if text::number_in(s, u16::MAX as int) is Some => {
                let port = text::number_in(s, u16::MAX as int)->0;
                (
                    self.said("web UI at http://127.0.0.1:"@ + text::decimal(port as nat)),
                    seq![EffectView::StartWeb(port as u16)],
                )
            },
            _ => (self.said("usage: /web <port>"@), Seq::empty()),
        }
    }

    /// `/invite`: a link to the server and channel is shown.
    pub open spec fn cmd_invite(self) -> Outcome {
        (self.said(invite::invite_link(self.server_addr, self.channel)), Seq::empty())
    }

    /// `/create`: a channel is asked for.
    pub open spec fn cmd_create(self, arg: Option<Seq<char>>) -> Outcome {
        match given(arg) {
            None => self.said("> /create"@).dispatched(
                messages::ClientMessageView::CreateChannel { name: None },
            ),
            Some(raw) => {
                let name = names::clean_channel_name(raw);
                if name.len() == 0 {
                    (self.said("channel name must contain [a-z0-9-]"@), Seq::empty())
                } else if text::byte_len(name) > config::MAX_CHANNEL_NAME_LEN {
                    (self.said("channel name too long (max 32)"@), Seq::empty())
                } else {
                    self.said("> /create "@ + name).dispatched(
                        messages::ClientMessageView::CreateChannel { name: Some(name) },
                    )
                }
            },
        }
    }

    /// `/list`: the public channels are asked for.
    pub open spec fn cmd_list(self) -> Outcome {
        self.said("> /list"@).dispatched(messages::ClientMessageView::ListChannels)
    }

    /// A channel is to be joined.
    pub open spec fn joining(self, id: Seq<char>) -> Outcome {
        self.said("> /connect "@ + id).dispatched(
            messages::ClientMessageView::JoinChannel { channel_id: id },
        )
    }

    /// `/connect`: a channel is to be joined.
    pub open spec fn cmd_connect(self, arg: Option<Seq<char>>) -> Outcome {
        match given(arg) {
            None => (self.said("usage: /connect <channel_id>"@), Seq::empty()),
            Some(id) => self.joining(id),
        }
    }

    /// `/leave`: the channel is left.
    pub open spec fn cmd_leave(self) -> Outcome {
        let sent = self.said("> /leave"@).dispatched(messages::ClientMessageView::LeaveChannel);
        (
            terminal::AppView { rejoin_channel: None, ..sent.0.without_channel() },
            sent.1.push(EffectView::StopVoice),
        )
    }

    /// Anything that is no known command: a channel to join, or text for the
    /// current one.
    pub open spec fn cmd_default(self, input: Seq<char>, head: Seq<char>) -> Outcome {
        if input.len() > 0 && input[0] == '#' {
            let id = text::trimmed(input.drop_first());
            if id.len() == 0 {
                (self.said("usage: #<channel_id>"@), Seq::empty())
            } else {
                self.joining(id)
            }
        } else if !(input.len() > 0 && input[0] == '/') {
            let sent = self.dispatched(messages::ClientMessageView::ChatMessage { text: input });
            (sent.0.said("you: "@ + input), sent.1)
        } else {
            (self.said("unknown command: "@ + head + " (try /help)"@), Seq::empty())
        }
    }

    /// `/echotest`: the server is asked for a sound check, unless the user is in
    /// a channel.
    pub open spec fn cmd_echotest(self) -> Outcome {
        if self.channel is Some {
            (self.said("leave the channel first"@), Seq::empty())
        } else {
            self.said("> /echotest"@).dispatched(messages::ClientMessageView::StartEchoTest)
        }
    }

    /// `/config vad`: the level of voice detection is shown or set.
    pub open spec fn config_vad(self, value: Seq<char>) -> Outcome {
        if value.len() == 0 {
            (
                self.said(
                    if self.vad_level == 0 {
                        "vad: off (0)"@
                    } else {
                        "vad level: "@ + text::decimal(self.vad_level as nat) + " (threshold "@
                            + threshold_text(self.vad_level) + ")"@
                    },
                ).said("  hangover: 10 frames"@),
                Seq::empty(),
            )
        } else if value == "off"@ || text::number_in(value, u32::MAX as int) == Some(0int) {
            (
                terminal::AppView { vad_level: 0, ..self }.said("vad disabled"@),
                seq![EffectView::SaveSettings],
            )
        } else {
            match text::number_in(value, u32::MAX as int) {
                Some(n) if n <= 100 => (
                    terminal::AppView { vad_level: n as u32, ..self }.said(
                        "vad level set to "@ + text::decimal(n as nat) + " (threshold "@
                            + threshold_text(n as u32) + ")"@,
                    ),
                    seq![EffectView::SaveSettings],
                ),
                _ => (
                    self.said("usage: /config vad <0-100|off> (default 15)"@),
                    Seq::empty(),
                ),
            }
        }
    }

    /// `/config gain`: the gain of the microphone is shown or set.
    pub open spec fn config_gain(self, value: Seq<char>) -> Outcome {
        if value.len() == 0 {
            (
                self.said("gain (mic): "@ + text::decimal(self.input_gain as nat) + "%"@),
                Seq::empty(),
            )
        } else {
            match text::number_in(value, u32::MAX as int) {
                Some(n) if n <= 200 => (
                    terminal::AppView { input_gain: n as u32, ..self }.said(
                        "gain (mic) set to "@ + text::decimal(n as nat) + "%"@,
                    ),
                    seq![EffectView::SaveSettings],
                ),
                _ => (
                    self.said("usage: /config gain <0-200> (default 100)"@),
                    Seq::empty(),
                ),
            }
        }
    }

    /// `/config vol`: the volume of incoming voice is shown or set.
    pub open spec fn config_vol(self, value: Seq<char>) -> Outcome {
        if value.len() == 0 {
            (
                self.said("vol (recv): "@ + text::decimal(self.output_vol as nat) + "%"@),
                Seq::empty(),
            )
        } else {
            match text::number_in(value, u32::MAX as int) {
                Some(n) if n <= 200 => (
                    terminal::AppView { output_vol: n as u32, ..self }.said(
                        "vol (recv) set to "@ + text::decimal(n as nat) + "%"@,
                    ),
                    seq![EffectView::SaveSettings],
                ),
                _ => (
                    self.said("usage: /config vol <0-200> (default 100)"@),
                    Seq::empty(),
                ),
            }
        }
    }

    /// `/config`: the audio is shown or set up.
    pub open spec fn cmd_config(self, arg: Option<Seq<char>>) -> Outcome {
        match given(arg) {
            None => (self, seq![EffectView::ListDevices]),
            Some(args) => {
                let sub = text::before_first(args, ' ');
                let value = match text::after_first(args, ' ') {
                    Some(v) => text::trimmed(v),
                    None => Seq::empty(),
                };
                let index = text::number_in(value, usize::MAX as int);
                if sub == "input"@ {
                    match index {
                        Some(i) => (self, seq![EffectView::PickInput(i as usize)]),
                        None => (self.said("usage: /config input <N>"@), Seq::empty()),
                    }
                } else if sub == "output"@ {
                    match index {
                        Some(i) => (self, seq![EffectView::PickOutput(i as usize)]),
                        None => (self.said("usage: /config output <N>"@), Seq::empty()),
                    }
                } else if sub == "vad"@ {
                    self.config_vad(value)
                } else if sub == "gain"@ {
                    self.config_gain(value)
                } else if sub == "vol"@ {
                    self.config_vol(value)
                } else {
                    (
                        self.said("usage: /config [input|output|gain|vol|vad] <value>"@),
                        Seq::empty(),
                    )
                }
            },
        }
    }

    /// What a line that the user entered does.
    pub open spec fn commanded(self, input: Seq<char>) -> Outcome {
        let head = text::before_first(input, ' ');
        let arg = text::after_first(input, ' ');
        if head == "/matrix"@ {
            self.cmd_matrix()
        } else if head == "/trust"@ {
            self.cmd_trust()
        } else if head == "/server"@ || head == "/s"@ {
            self.cmd_server(arg)
        } else if head == "/reconnect"@ || head == "/r"@ {
            self.reconnecting()
        } else if head == "/config"@ || head == "/cfg"@ {
            self.cmd_config(arg)
        } else if head == "/name"@ || head == "/n"@ {
            self.cmd_name(arg)
        } else if head == "/mute"@ || head == "/m"@ {
            self.cmd_mute()
        } else if head == "/web"@ {
            self.cmd_web(arg)
        } else if head == "/invite"@ || head == "/i"@ {
            self.cmd_invite()
        } else if head == "/quit"@ || head == "/exit"@ || head == "/q"@ {
            (terminal::AppView { should_quit: true, ..self }, Seq::empty())
        } else if head == "/help"@ || head == "/h"@ {
            (self.said_all(help_lines()), Seq::empty())
        } else if self.conn_state != ConnectionState::Connected {
            (self.said("not connected — use /server <ip> and /reconnect"@), Seq::empty())
        } else if head == "/create"@ || head == "/c"@ {
            self.cmd_create(arg)
        } else if head == "/list"@ || head == "/ls"@ {
            self.cmd_list()
        } else if head == "/connect"@ || head == "/join"@ || head == "/j"@ {
            self.cmd_connect(arg)
        } else if head == "/leave"@ || head == "/l"@ {
            self.cmd_leave()
        } else if head == "/echotest"@ {
            self.cmd_echotest()
        } else {
            self.cmd_default(input, head)
        }
    }
}

impl App {
    /// Adds lines to the log.
    fn say_all(&mut self, lines: Vec<String>)
        requires
            old(self)@.wf(),
        ensures
            final(self)@.wf(),
            final(self)@ == old(self)@.said_all(messages::texts(lines@)),
    {
        let mut i: usize = 0;
        assert(messages::texts(lines@).subrange(0, 0) =~= Seq::empty());
        while i < lines.len()
            invariant
                i <= lines@.len(),
                self@.wf(),
                self@ == old(self)@.said_all(messages::texts(lines@).subrange(0, i as int)),
            decreases lines.len() - i,
        {
            self.add_message(lines[i].clone());
            i = i + 1;
            proof {
                let t = messages::texts(lines@).subrange(0, i as int);
                assert(t.drop_last() =~= messages::texts(lines@).subrange(0, i - 1));
                assert(t.last() == lines@[i - 1]@);
            }
        }
        assert(messages::texts(lines@).subrange(0, i as int) =~= messages::texts(lines@));
    }

    /// Sends a message, if there is a line to the server.
    fn dispatch(&mut self, msg: ClientMessage) -> (e: Vec<Effect>)
        requires
            old(self)@.wf(),
        ensures
            final(self)@.wf(),
            (final(self)@, effects(e@)) == old(self)@.dispatched(msg@),
    {
        match self.link {
            Link::Open => one(Effect::Send(msg)),
            Link::Closed => {
                self.link = Link::Absent;
                self.conn_state = ConnectionState::Disconnected;
                self.add_message(owned("disconnected from server"));
                nothing()
            },
            Link::Absent => nothing(),
        }
    }

    /// Leaves the channel behind.
    fn drop_channel(&mut self)
        requires
            old(self)@.wf(),
        ensures
            final(self)@.wf(),
            final(self)@ == old(self)@.without_channel(),
    {
        self.voice_active = false;
        self.channel = None;
        self.participants = Vec::new();
        self.voice_join_params = None;
        assert(self@ =~= old(self)@.without_channel());
    }

    /// Starts a new connection because the user asked for it.
    fn do_reconnect(&mut self) -> (e: Vec<Effect>)
        requires
            old(self)@.wf(),
        ensures
            final(self)@.wf(),
            (final(self)@, effects(e@)) == old(self)@.reconnecting(),
    {
        self.drop_channel();
        self.next_reconnect = None;
        self.reconnect_attempt = 0;
        self.link = Link::Absent;
        self.conn_state = ConnectionState::Reconnecting { attempt: 1 };
        self.add_message(join3("connecting to ", self.server_addr.as_str(), "..."));
        one(Effect::Connect(Occasion::Asked))
    }

    fn cmd_trust(&mut self) -> (e: Vec<Effect>)
        requires
            old(self)@.wf(),
        ensures
            final(self)@.wf(),
            (final(self)@, effects(e@)) == old(self)@.cmd_trust(),
    {
        self.add_message(
            join3("cleared fingerprint for ", self.server_addr.as_str(), ", reconnecting..."),
        );
        let _connect = self.do_reconnect();
        let mut e = one(Effect::ForgetServer);
        push(&mut e, Effect::SaveTrust);
        push(&mut e, Effect::Connect(Occasion::Asked));
        assert(effects(e@) =~= old(self)@.cmd_trust().1);
        e
    }

    fn cmd_server(&mut self, arg: &Option<String>) -> (e: Vec<Effect>)
        requires
            old(self)@.wf(),
        ensures
            final(self)@.wf(),
            (final(self)@, effects(e@)) == old(self)@.cmd_server(messages::opt_text(*arg)),
    {
        match given_arg(arg) {
            None => {
                self.add_message(join2("current server: ", self.server_addr.as_str()));
                nothing()
            },
            Some(addr) => {
                self.server_addr = with_default_port(addr.as_str());
                self.add_message(join2("server address set to ", self.server_addr.as_str()));
                let mut e = one(Effect::SaveSettings);
                if self.conn_state.is_disconnected() {
                    let _connect = self.do_reconnect();
                    push(&mut e, Effect::Connect(Occasion::Asked));
                }
                assert(effects(e@) =~= old(self)@.cmd_server(messages::opt_text(*arg)).1);
                e
            },
        }
    }

    fn cmd_name(&mut self, arg: &Option<String>) -> (e: Vec<Effect>)
        requires
            old(self)@.wf(),
        ensures
            final(self)@.wf(),
            (final(self)@, effects(e@)) == old(self)@.cmd_name(messages::opt_text(*arg)),
    {
        if let Some(raw) = arg {
            let name = sanitize_name(raw.as_str());
            if !name.as_str().is_empty() {
                self.add_message(join2("> /name ", name.as_str()));
                let mut e = self.dispatch(ClientMessage::SetName { name: name.clone() });
                self.name = Some(name);
                push(&mut e, Effect::SaveSettings);
                return e;
            }
        }
        self.add_message(owned("usage: /name <name>"));
        nothing()
    }

    fn cmd_mute(&mut self) -> (e: Vec<Effect>)
        requires
            old(self)@.wf(),
        ensures
            final(self)@.wf(),
            (final(self)@, effects(e@)) == old(self)@.cmd_mute(),
    {
        let was_muted = self.muted;
        self.muted = !was_muted;
        self.add_message(
            if was_muted {
                owned("unmuted")
            } else {
                owned("muted")
            },
        );
        nothing()
    }

    fn cmd_web(&mut self, arg: &Option<String>) -> (e: Vec<Effect>)
        requires
            old(self)@.wf(),
        ensures
            final(self)@.wf(),
            (final(self)@, effects(e@)) == old(self)@.cmd_web(messages::opt_text(*arg)),
    {
        if let Some(s) = given_arg(arg) {
            if let Some(port) = parse_number(s.as_str(), u16::MAX as u64) {
                let digits = decimal_string(port);
                self.add_message(join2("web UI at http://127.0.0.1:", digits.as_str()));
                return one(Effect::StartWeb(port as u16));
            }
        }
        self.add_message(owned("usage: /web <port>"));
        nothing()
    }

    fn cmd_create(&mut self, arg: &Option<String>) -> (e: Vec<Effect>)
        requires
            old(self)@.wf(),
        ensures
            final(self)@.wf(),
            (final(self)@, effects(e@)) == old(self)@.cmd_create(messages::opt_text(*arg)),
    {
        match given_arg(arg) {
            None => {
                self.add_message(owned("> /create"));
                self.dispatch(ClientMessage::CreateChannel { name: None })
            },
            Some(raw) => {
                let name = sanitize_channel_name(raw.as_str());
                if name.as_str().is_empty() {
                    self.add_message(owned("channel name must contain [a-z0-9-]"));
                    nothing()
                } else if utf8_len(name.as_str()) > config::MAX_CHANNEL_NAME_LEN {
                    self.add_message(owned("channel name too long (max 32)"));
                    nothing()
                } else {
                    self.add_message(join2("> /create ", name.as_str()));
                    self.dispatch(ClientMessage::CreateChannel { name: Some(name) })
                }
            },
        }
    }

    fn join(&mut self, id: String) -> (e: Vec<Effect>)
        requires
            old(self)@.wf(),
        ensures
            final(self)@.wf(),
            (final(self)@, effects(e@)) == old(self)@.joining(id@),
    {
        self.add_message(join2("> /connect ", id.as_str()));
        self.dispatch(ClientMessage::JoinChannel { channel_id: id })
    }

    fn cmd_connect(&mut self, arg: &Option<String>) -> (e: Vec<Effect>)
        requires
            old(self)@.wf(),
        ensures
            final(self)@.wf(),
            (final(self)@, effects(e@)) == old(self)@.cmd_connect(messages::opt_text(*arg)),
    {
        match given_arg(arg) {
            None => {
                self.add_message(owned("usage: /connect <channel_id>"));
                nothing()
            },
            Some(id) => self.join(id),
        }
    }

    fn cmd_leave(&mut self) -> (e: Vec<Effect>)
        requires
            old(self)@.wf(),
        ensures
            final(self)@.wf(),
            (final(self)@, effects(e@)) == old(self)@.cmd_leave(),
    {
        self.add_message(owned("> /leave"));
        let mut e = self.dispatch(ClientMessage::LeaveChannel);
        self.drop_channel();
        self.rejoin_channel = None;
        push(&mut e, Effect::StopVoice);
        e
    }

    fn cmd_echotest(&mut self) -> (e: Vec<Effect>)
        requires
            old(self)@.wf(),
        ensures
            final(self)@.wf(),
            (final(self)@, effects(e@)) == old(self)@.cmd_echotest(),
    {
        if self.channel.is_some() {
            self.add_message(owned("leave the channel first"));
            return nothing();
        }
        self.add_message(owned("> /echotest"));
        self.dispatch(ClientMessage::StartEchoTest)
    }

    fn cmd_default(&mut self, input: &str, head: &str) -> (e: Vec<Effect>)
        requires
            old(self)@.wf(),
        ensures
            final(self)@.wf(),
            (final(self)@, effects(e@)) == old(self)@.cmd_default(input@, head@),
    {
        let n: usize = input.unicode_len();
        if n > 0 && input.get_char(0) == '#' {
            let id = trim(input.substring_char(1, n));
            assert(input@.subrange(1, n as int) =~= input@.drop_first());
            if id.as_str().is_empty() {
                self.add_message(owned("usage: #<channel_id>"));
                nothing()
            } else {
                self.join(id)
            }
        } else if !(n > 0 && input.get_char(0) == '/') {
            let e = self.dispatch(ClientMessage::ChatMessage { text: owned(input) });
            self.add_message(join2("you: ", input));
            e
        } else {
            self.add_message(join3("unknown command: ", head, " (try /help)"));
            nothing()
        }
    }

    /// Shows or sets the level of voice detection.
    fn handle_config_vad(&mut self, value: &str) -> (e: Vec<Effect>)
        requires
            old(self)@.wf(),
        ensures
            final(self)@.wf(),
            (final(self)@, effects(e@)) == old(self)@.config_vad(value@),
    {
        if value.is_empty() {
            if self.vad_level == 0 {
                self.add_message(owned("vad: off (0)"));
            } else {
                let level = decimal_string(self.vad_level as u64);
                let threshold = threshold_string(self.vad_level);
                self.add_message(
                    join5("vad level: ", level.as_str(), " (threshold ", threshold.as_str(), ")"),
                );
            }
            self.add_message(owned("  hangover: 10 frames"));
            return nothing();
        }
        let number = parse_number(value, u32::MAX as u64);
        if str_eq(value, "off") || matches!(number, Some(0)) {
            self.vad_level = 0;
            self.add_message(owned("vad disabled"));
            return one(Effect::SaveSettings);
        }
        match number {
            Some(n) if n <= 100 => {
                let level: u32 = n as u32;
                self.vad_level = level;
                let digits = decimal_string(n);
                let threshold = threshold_string(level);
                self.add_message(
                    join5(
                        "vad level set to ",
                        digits.as_str(),
                        " (threshold ",
                        threshold.as_str(),
                        ")",
                    ),
                );
                one(Effect::SaveSettings)
            },
            _ => {
                self.add_message(owned("usage: /config vad <0-100|off> (default 15)"));
                nothing()
            },
        }
    }

    /// Shows or sets the gain of the microphone.
    fn handle_config_gain(&mut self, value: &str) -> (e: Vec<Effect>)
        requires
            old(self)@.wf(),
        ensures
            final(self)@.wf(),
            (final(self)@, effects(e@)) == old(self)@.config_gain(value@),
    {
        if value.is_empty() {
            let digits = decimal_string(self.input_gain as u64);
            self.add_message(join3("gain (mic): ", digits.as_str(), "%"));
            return nothing();
        }
        match parse_number(value, u32::MAX as u64) {
            Some(n) if n <= 200 => {
                self.input_gain = n as u32;
                let digits = decimal_string(n);
                self.add_message(join3("gain (mic) set to ", digits.as_str(), "%"));
                one(Effect::SaveSettings)
            },
            _ => {
                self.add_message(owned("usage: /config gain <0-200> (default 100)"));
                nothing()
            },
        }
    }

    /// Shows or sets the volume of incoming voice.
    fn handle_config_vol(&mut self, value: &str) -> (e: Vec<Effect>)
        requires
            old(self)@.wf(),
        ensures
            final(self)@.wf(),
            (final(self)@, effects(e@)) == old(self)@.config_vol(value@),
    {
        if value.is_empty() {
            let digits = decimal_string(self.output_vol as u64);
            self.add_message(join3("vol (recv): ", digits.as_str(), "%"));
            return nothing();
        }
        match parse_number(value, u32::MAX as u64) {
            Some(n) if n <= 200 => {
                self.output_vol = n as u32;
                let digits = decimal_string(n);
                self.add_message(join3("vol (recv) set to ", digits.as_str(), "%"));
                one(Effect::SaveSettings)
            },
            _ => {
                self.add_message(owned("usage: /config vol <0-200> (default 100)"));
                nothing()
            },
        }
    }

    /// Shows the audio or sets it up.
    pub fn handle_config(&mut self, arg: &Option<String>) -> (e: Vec<Effect>)
        requires
            old(self)@.wf(),
        ensures
            final(self)@.wf(),
            (final(self)@, effects(e@)) == old(self)@.cmd_config(messages::opt_text(*arg)),
    {
        let args = match given_arg(arg) {
            None => return one(Effect::ListDevices),
            Some(args) => args,
        };
        let (sub, rest) = split_first(args.as_str(), ' ');
        let value = match rest {
            Some(v) => trim(v.as_str()),
            None => String::new(),
        };
        assert(rest is None ==> value@ =~= Seq::empty());
        if str_eq(sub.as_str(), "input") {
            match parse_number(value.as_str(), usize::MAX as u64) {
                Some(i) => one(Effect::PickInput(i as usize)),
                None => {
                    self.add_message(owned("usage: /config input <N>"));
                    nothing()
                },
            }
        } else if str_eq(sub.as_str(), "output") {
            match parse_number(value.as_str(), usize::MAX as u64) {
                Some(i) => one(Effect::PickOutput(i as usize)),
                None => {
                    self.add_message(owned("usage: /config output <N>"));
                    nothing()
                },
            }
        } else if str_eq(sub.as_str(), "vad") {
            self.handle_config_vad(value.as_str())
        } else if str_eq(sub.as_str(), "gain") {
            self.handle_config_gain(value.as_str())
        } else if str_eq(sub.as_str(), "vol") {
            self.handle_config_vol(value.as_str())
        } else {
            self.add_message(owned("usage: /config [input|output|gain|vol|vad] <value>"));
            nothing()
        }
    }

    /// Handles a line that the user entered, and tells what is left to do.
    pub fn handle_command(&mut self, input: &str) -> (e: Vec<Effect>)
        requires
            old(self)@.wf(),
        ensures
            final(self)@.wf(),
            (final(self)@, effects(e@)) == old(self)@.commanded(input@),
    {
        let (head, arg) = split_first(input, ' ');
        let head: &str = head.as_str();
        if str_eq(head, "/matrix") {
            self.matrix_mode = !self.matrix_mode;
            if self.matrix_mode {
                return one(Effect::ResetRain);
            }
            return nothing();
        }
        if str_eq(head, "/trust") {
            return self.cmd_trust();
        }
        if str_eq(head, "/server") || str_eq(head, "/s") {
            return self.cmd_server(&arg);
        }
        if str_eq(head, "/reconnect") || str_eq(head, "/r") {
            return self.do_reconnect();
        }
        if str_eq(head, "/config") || str_eq(head, "/cfg") {
            return self.handle_config(&arg);
        }
        if str_eq(head, "/name") || str_eq(head, "/n") {
            return self.cmd_name(&arg);
        }
        if str_eq(head, "/mute") || str_eq(head, "/m") {
            return self.cmd_mute();
        }
        if str_eq(head, "/web") {
            return self.cmd_web(&arg);
        }
        if str_eq(head, "/invite") || str_eq(head, "/i") {
            let link = match &self.channel {
                Some(c) => invite_url(self.server_addr.as_str(), Some(c.as_str())),
                None => invite_url(self.server_addr.as_str(), None),
            };
            self.add_message(link);
            return nothing();
        }
        if str_eq(head, "/quit") || str_eq(head, "/exit") || str_eq(head, "/q") {
            self.should_quit = true;
            return nothing();
        }
        if str_eq(head, "/help") || str_eq(head, "/h") {
            self.say_all(help_text());
            return nothing();
        }
        if self.conn_state.is_disconnected() {
            self.add_message(owned("not connected — use /server <ip> and /reconnect"));
            return nothing();
        }
        if str_eq(head, "/create") || str_eq(head, "/c") {
            self.cmd_create(&arg)
        } else if str_eq(head, "/list") || str_eq(head, "/ls") {
            self.add_message(owned("> /list"));
            self.dispatch(ClientMessage::ListChannels)
        } else if str_eq(head, "/connect") || str_eq(head, "/join") || str_eq(head, "/j") {
            self.cmd_connect(&arg)
        } else if str_eq(head, "/leave") || str_eq(head, "/l") {
            self.cmd_leave()
        } else if str_eq(head, "/echotest") {
            self.cmd_echotest()
        } else {
            self.cmd_default(input, head)
        }
    }
}

impl terminal::AppView {
    /// What came of looking at the server's certificate is told.
    pub open spec fn told_trust(self, result: Option<tls::TofuResultView>) -> terminal::AppView {
        match result {
            Some(tls::TofuResultView::TrustedNew(fp)) => self.said(
                "new server fingerprint: "@ + fp,
            ),
            Some(tls::TofuResultView::Mismatch { expected, actual }) => self.said(
                "server certificate changed (auto-trusted)"@,
            ).said("  old: "@ + expected).said("  new: "@ + actual),
            Some(tls::TofuResultView::TrustedKnown) => self,
            None => self,
        }
    }

    /// The connection was made: the name is sent, and the channel that was
    /// lost is joined again.
    pub open spec fn connected(
        self,
        occasion: Occasion,
        result: Option<tls::TofuResultView>,
    ) -> Outcome {
        let a = terminal::AppView {
            conn_state: ConnectionState::Connected,
            link: Link::Open,
            next_reconnect: None,
            reconnect_attempt: 0,
            ..self.told_trust(result).said(
                if occasion == Occasion::Automatic {
                    "reconnected!"@
                } else {
                    "connected!"@
                },
            )
        };
        let naming = match a.name {
            Some(name) => seq![EffectView::Send(messages::ClientMessageView::SetName { name })],
            None => Seq::empty(),
        };
        match a.rejoin_channel {
            Some(id) => (
                terminal::AppView { rejoin_channel: None, ..a }.said(
                    "rejoining #"@ + id + "..."@,
                ),
                naming.push(
                    EffectView::Send(messages::ClientMessageView::JoinChannel { channel_id: id }),
                ).push(EffectView::SaveTrust),
            ),
            None => (a, naming.push(EffectView::SaveTrust)),
        }
    }

    /// The connection could not be made.
    pub open spec fn connect_failed(
        self,
        occasion: Occasion,
        result: Option<tls::TofuResultView>,
        error: Seq<char>,
        now: u64,
    ) -> terminal::AppView {
        match occasion {
            Occasion::First => terminal::AppView {
                conn_state: ConnectionState::Disconnected,
                ..self.told_trust(result)
            }.said("connection failed: "@ + error).said(
                "use /server <ip> to set address, then /reconnect"@,
            ),
            Occasion::Asked => terminal::AppView {
                conn_state: ConnectionState::Disconnected,
                ..self
            }.said("connection failed: "@ + error),
            Occasion::Automatic => terminal::AppView {
                next_reconnect: Some(later(now, reconnect_delay(self.reconnect_attempt))),
                ..self
            },
        }
    }

    /// The connection was lost: the channel is remembered, and a reconnect is
    /// due in a second.
    pub open spec fn lost(self, now: u64) -> Outcome {
        (
            terminal::AppView {
                rejoin_channel: match self.channel {
                    Some(c) => Some(c),
                    None => self.rejoin_channel,
                },
                link: Link::Absent,
                reconnect_attempt: 0,
                next_reconnect: Some(later(now, 1_000)),
                conn_state: ConnectionState::Reconnecting { attempt: 1 },
                ..self.without_channel().said("disconnected from server"@)
            },
            seq![EffectView::StopVoice],
        )
    }

    /// The attempt that a due reconnect is.
    pub open spec fn next_attempt(self) -> u32 {
        if self.reconnect_attempt < u32::MAX {
            (self.reconnect_attempt + 1) as u32
        } else {
            u32::MAX
        }
    }

    /// Time has passed.
    pub open spec fn ticked(self, now: u64) -> Outcome {
        match self.next_reconnect {
            Some(due) if now >= due => (
                terminal::AppView {
                    reconnect_attempt: self.next_attempt(),
                    conn_state: ConnectionState::Reconnecting { attempt: self.next_attempt() },
                    ..self
                },
                seq![EffectView::Connect(Occasion::Automatic)],
            ),
            _ => (self, Seq::empty()),
        }
    }

    /// The server told its version.
    pub open spec fn welcomed(
        self,
        version: Seq<char>,
        protocol: u16,
        my_version: Seq<char>,
    ) -> terminal::AppView {
        if protocol != config::PROTOCOL_VERSION {
            self.said(
                "WARNING: protocol mismatch! server="@ + text::decimal(protocol as nat) + " (v"@
                    + version + ") client="@ + text::decimal(config::PROTOCOL_VERSION as nat)
                    + " (v"@ + my_version + ")"@,
            ).said("please update your client to match the server"@)
        } else if version != my_version {
            self.said(
                "server version "@ + version + " (you have "@ + my_version
                    + "), consider updating"@,
            )
        } else {
            self
        }
    }

    /// A channel was joined.
    pub open spec fn in_channel(
        self,
        channel_id: Seq<char>,
        participants: Seq<Seq<char>>,
        udp_token: u64,
        voice_key: Seq<u8>,
    ) -> terminal::AppView {
        terminal::AppView {
            participants,
            channel: Some(channel_id),
            voice_params: Some(terminal::VoiceParamsView { channel_id, udp_token, voice_key }),
            ..self.said(
                "joined #"@ + channel_id + " ("@ + text::joined(participants, ", "@) + ")"@,
            )
        }
    }

    /// A sound check begins.
    pub open spec fn sound_checking(
        self,
        channel_id: Seq<char>,
        udp_token: u64,
        voice_key: Seq<u8>,
    ) -> terminal::AppView {
        terminal::AppView {
            voice_params: Some(terminal::VoiceParamsView { channel_id, udp_token, voice_key }),
            ..self.said("sound check: speak and hear yourself"@)
        }
    }

    /// The time of a sound check is up: the voice stops, and the server is told.
    pub open spec fn sound_checked(self) -> Outcome {
        let (a, e) = terminal::AppView { voice_active: false, voice_params: None, ..self }.said(
            "sound check over"@,
        ).dispatched(messages::ClientMessageView::StopEchoTest);
        (a, e.push(EffectView::StopVoice))
    }

    /// What a message of the server does.
    pub open spec fn heard(
        self,
        msg: messages::ServerMessageView,
        my_version: Seq<char>,
    ) -> Outcome {
        match msg {
            messages::ServerMessageView::Welcome { version, protocol } => (
                self.welcomed(version, protocol, my_version),
                Seq::empty(),
            ),
            messages::ServerMessageView::ChannelCreated { channel_id } => self.said(
                "channel created: "@ + channel_id + ", joining..."@,
            ).dispatched(messages::ClientMessageView::JoinChannel { channel_id }),
            messages::ServerMessageView::JoinedChannel {
                channel_id,
                participants,
                udp_token,
                voice_key,
            } => (
                self.in_channel(channel_id, participants, udp_token, voice_key),
                seq![EffectView::StartVoice],
            ),
            messages::ServerMessageView::PeerJoined { peer_name } => (
                terminal::AppView {
                    participants: self.participants.push(peer_name),
                    ..self.said(peer_name + " joined"@)
                },
                Seq::empty(),
            ),
            messages::ServerMessageView::PeerLeft { peer_name } => (
                terminal::AppView {
                    participants: without(self.participants, peer_name),
                    ..self.said(peer_name + " left"@)
                },
                Seq::empty(),
            ),
            messages::ServerMessageView::LeftChannel => (
                terminal::AppView { rejoin_channel: None, ..self.without_channel() }.said(
                    "left channel"@,
                ),
                seq![EffectView::StopVoice],
            ),
            messages::ServerMessageView::NameChanged { old_name, new_name } => (
                terminal::AppView {
                    participants: with_renamed(self.participants, old_name, new_name),
                    ..self.said(old_name + " is now "@ + new_name)
                },
                Seq::empty(),
            ),
            messages::ServerMessageView::ChatMessage { from, text } => (
                self.said(from + ": "@ + text),
                Seq::empty(),
            ),
            messages::ServerMessageView::DirectMessage { from_name, text, .. } => (
                self.said("(dm) "@ + from_name + ": "@ + text),
                Seq::empty(),
            ),
            messages::ServerMessageView::ChannelList { channels } => (
                if channels.len() == 0 {
                    self.said("no public channels"@)
                } else {
                    self.said("── public channels ──"@).said_all(channel_lines(channels))
                },
                Seq::empty(),
            ),
            messages::ServerMessageView::Error { message } => (
                self.said("error: "@ + message),
                Seq::empty(),
            ),
            messages::ServerMessageView::Pong => (self, Seq::empty()),
            messages::ServerMessageView::EchoTestReady { channel_id, udp_token, voice_key } => (
                self.sound_checking(channel_id, udp_token, voice_key),
                seq![EffectView::StartEcho],
            ),
        }
    }

    /// The voice of a channel was started, or not.
    pub open spec fn voiced(
        self,
        again: bool,
        result: Result<(), Seq<char>>,
    ) -> terminal::AppView {
        match result {
            Ok(_) => terminal::AppView { voice_active: true, ..self }.said(
                if again {
                    "voice restarted"@
                } else {
                    "voice active"@
                },
            ),
            Err(e) => self.said(
                if again {
                    "voice restart error: "@ + e
                } else {
                    "voice error: "@ + e
                },
            ),
        }
    }

    /// A list of devices, or why there is none.
    pub open spec fn listed(
        self,
        heading: Seq<char>,
        devices: Result<Seq<audio::DeviceInfoView>, Seq<char>>,
        selected: Option<Seq<char>>,
    ) -> terminal::AppView {
        match devices {
            Ok(d) => self.said(heading).said_all(device_lines(d, selected)),
            Err(e) => self.said(heading).said("  error: "@ + e),
        }
    }

    /// The audio is shown.
    pub open spec fn config_shown(
        self,
        inputs: Result<Seq<audio::DeviceInfoView>, Seq<char>>,
        outputs: Result<Seq<audio::DeviceInfoView>, Seq<char>>,
    ) -> terminal::AppView {
        self.listed("── input devices ──"@, inputs, self.input_device).listed(
            "── output devices ──"@,
            outputs,
            self.output_device,
        ).said("── volume ──"@).said(
            "  gain (mic): "@ + text::decimal(self.input_gain as nat) + "%"@,
        ).said("  vol (recv): "@ + text::decimal(self.output_vol as nat) + "%"@).said(
            "── vad ──"@,
        ).said(
            if self.vad_level == 0 {
                "  level: off (0)"@
            } else {
                "  level: "@ + text::decimal(self.vad_level as nat) + " (threshold "@
                    + threshold_text(self.vad_level) + ")"@
            },
        ).said("  hangover: 10 frames"@)
    }

    /// A device was chosen by its index.
    pub open spec fn picked(
        self,
        is_input: bool,
        devices: Result<Seq<audio::DeviceInfoView>, Seq<char>>,
        index: usize,
    ) -> Outcome {
        let kind = if is_input {
            "input"@
        } else {
            "output"@
        };
        match devices {
            Err(e) => (self.said("error listing devices: "@ + e), Seq::empty()),
            Ok(d) => match audio::at_index(d, index) {
                None => (
                    self.said(
                        "no "@ + kind + " device with index "@ + text::decimal(index as nat),
                    ),
                    Seq::empty(),
                ),
                Some(name) => {
                    let a = self.said(kind + " device set to: "@ + name);
                    let b = if is_input {
                        terminal::AppView { input_device: Some(name), ..a }
                    } else {
                        terminal::AppView { output_device: Some(name), ..a }
                    };
                    if b.voice_params is Some {
                        (
                            terminal::AppView { voice_active: false, ..b },
                            seq![EffectView::SaveSettings, EffectView::RestartVoice],
                        )
                    } else {
                        (b, seq![EffectView::SaveSettings])
                    }
                },
            },
        }
    }
}

/// What a result with the text of an error says.
pub open spec fn unit_result(r: Result<(), String>) -> Result<(), Seq<char>> {
    match r {
        Ok(u) => Ok(u),
        Err(e) => Err(e@),
    }
}

/// Removes the names that equal `name`.
fn remove_name(list: &Vec<String>, name: &str) -> (r: Vec<String>)
    ensures
        messages::texts(r@) == without(messages::texts(list@), name@),
{
    let mut r: Vec<String> = Vec::new();
    let mut i: usize = 0;
    assert(messages::texts(r@) =~= without(messages::texts(list@).subrange(0, 0), name@));
    while i < list.len()
        invariant
            i <= list@.len(),
            messages::texts(r@) == without(messages::texts(list@).subrange(0, i as int), name@),
        decreases list.len() - i,
    {
        let ghost before = messages::texts(r@);
        if !str_eq(list[i].as_str(), name) {
            r.push(list[i].clone());
            assert(messages::texts(r@) =~= before.push(list@[i as int]@));
        }
        i = i + 1;
        proof {
            let t = messages::texts(list@).subrange(0, i as int);
            assert(t.drop_last() =~= messages::texts(list@).subrange(0, i - 1));
            assert(t.last() == list@[i - 1]@);
        }
    }
    assert(messages::texts(list@).subrange(0, i as int) =~= messages::texts(list@));
    r
}

proof fn lemma_with_renamed(
    list: Seq<Seq<char>>,
    i: int,
    old_name: Seq<char>,
    new_name: Seq<char>,
)
    requires
        0 <= i <= list.len(),
        forall|j: int| 0 <= j < i ==> #[trigger] list[j] != old_name,
        i < list.len() ==> list[i] == old_name,
    ensures
        with_renamed(list, old_name, new_name) == if i < list.len() {
            list.update(i, new_name)
        } else {
            list
        },
    decreases list.len(),
{
    if list.len() > 0 && i > 0 {
        let rest = list.drop_first();
        assert forall|j: int| 0 <= j < i - 1 implies #[trigger] rest[j] != old_name by {
            assert(rest[j] == list[j + 1]);
        }
        assert(list[0] != old_name);
        lemma_with_renamed(rest, i - 1, old_name, new_name);
        assert(seq![list[0]] + with_renamed(rest, old_name, new_name) =~= if i < list.len() {
            list.update(i, new_name)
        } else {
            list
        });
    }
}

/// Replaces the first name that equals `old_name`.
fn rename_first(list: &mut Vec<String>, old_name: &str, new_name: String)
    ensures
        messages::texts(final(list)@) == with_renamed(
            messages::texts(old(list)@),
            old_name@,
            new_name@,
        ),
{
    let ghost all = messages::texts(list@);
    let mut i: usize = 0;
    while i < list.len() && !str_eq(list[i].as_str(), old_name)
        invariant
            i <= list@.len(),
            list@ == old(list)@,
            all == messages::texts(list@),
            forall|j: int| 0 <= j < i ==> #[trigger] all[j] != old_name@,
        decreases list.len() - i,
    {
        assert(all[i as int] == list@[i as int]@);
        i = i + 1;
    }
    proof {
        if i < list@.len() {
            assert(all[i as int] == list@[i as int]@);
        }
        lemma_with_renamed(all, i as int, old_name@, new_name@);
    }
    if i < list.len() {
        let ghost text = new_name@;
        list.set(i, new_name);
        assert(messages::texts(list@) =~= all.update(i as int, text));
    }
}

/// The lines of a list of devices.
fn device_list(devices: &Vec<DeviceInfo>, selected: &Option<String>) -> (v: Vec<String>)
    ensures
        messages::texts(v@) == device_lines(
            audio::device_views(devices@),
            messages::opt_text(*selected),
        ),
{
    let ghost lines = device_lines(audio::device_views(devices@), messages::opt_text(*selected));
    let mut v: Vec<String> = Vec::new();
    let mut i: usize = 0;
    while i < devices.len()
        invariant
            i <= devices@.len(),
            lines == device_lines(audio::device_views(devices@), messages::opt_text(*selected)),
            messages::texts(v@) == lines.subrange(0, i as int),
        decreases devices.len() - i,
    {
        let ghost before = messages::texts(v@);
        let chosen = match selected {
            Some(s) => str_eq(s.as_str(), devices[i].name.as_str()),
            None => false,
        };
        let marker = if chosen {
            " [selected]"
        } else if devices[i].is_default {
            " [default]"
        } else {
            ""
        };
        let digits = decimal_string(devices[i].index as u64);
        let line = join5("  ", digits.as_str(), ". ", devices[i].name.as_str(), marker);
        proof {
            assert(audio::device_views(devices@)[i as int] == devices@[i as int]@);
            assert(lines[i as int] == line@);
        }
        v.push(line);
        i = i + 1;
        assert(messages::texts(v@) =~= before.push(lines[i - 1]));
        assert(lines.subrange(0, i as int) =~= lines.subrange(0, i - 1).push(lines[i - 1]));
    }
    assert(lines.subrange(0, i as int) =~= lines);
    v
}

/// The lines of a list of channels.
fn channel_list(channels: &Vec<messages::ChannelInfo>) -> (v: Vec<String>)
    ensures
        messages::texts(v@) == channel_lines(messages::infos(channels@)),
{
    let ghost lines = channel_lines(messages::infos(channels@));
    let mut v: Vec<String> = Vec::new();
    let mut i: usize = 0;
    while i < channels.len()
        invariant
            i <= channels@.len(),
            lines == channel_lines(messages::infos(channels@)),
            messages::texts(v@) == lines.subrange(0, i as int),
        decreases channels.len() - i,
    {
        let ghost before = messages::texts(v@);
        let digits = decimal_string(channels[i].participant_count as u64);
        let line = join5("  ", channels[i].channel_id.as_str(), " (", digits.as_str(), " users)");
        proof {
            assert(messages::infos(channels@)[i as int] == channels@[i as int]@);
            assert(lines[i as int] == line@);
        }
        v.push(line);
        i = i + 1;
        assert(messages::texts(v@) =~= before.push(lines[i - 1]));
        assert(lines.subrange(0, i as int) =~= lines.subrange(0, i - 1).push(lines[i - 1]));
    }
    assert(lines.subrange(0, i as int) =~= lines);
    v
}

impl App {
    /// Tells what came of looking at the server's certificate.
    fn handle_tofu_result(&mut self, result: &Option<TofuResult>)
        requires
            old(self)@.wf(),
        ensures
            final(self)@.wf(),
            final(self)@ == old(self)@.told_trust(tls::opt_result(*result)),
    {
        match result {
            Some(TofuResult::TrustedNew(fp)) => {
                self.add_message(join2("new server fingerprint: ", fp.as_str()));
            },
            Some(TofuResult::Mismatch { expected, actual }) => {
                self.add_message(owned("server certificate changed (auto-trusted)"));
                self.add_message(join2("  old: ", expected.as_str()));
                self.add_message(join2("  new: ", actual.as_str()));
            },
            Some(TofuResult::TrustedKnown) => {},
            None => {},
        }
    }

    /// The connection was made.
    pub fn on_connected(&mut self, occasion: Occasion, result: &Option<TofuResult>) -> (e: Vec<
        Effect,
    >)
        requires
            old(self)@.wf(),
        ensures
            final(self)@.wf(),
            (final(self)@, effects(e@)) == old(self)@.connected(occasion, tls::opt_result(*result)),
    {
        self.handle_tofu_result(result);
        self.add_message(
            if occasion == Occasion::Automatic {
                owned("reconnected!")
            } else {
                owned("connected!")
            },
        );
        self.conn_state = ConnectionState::Connected;
        self.link = Link::Open;
        self.next_reconnect = None;
        self.reconnect_attempt = 0;
        let mut e = nothing();
        if let Some(name) = &self.name {
            push(&mut e, Effect::Send(ClientMessage::SetName { name: name.clone() }));
            assert(effects(e@) =~= seq![
                EffectView::Send(messages::ClientMessageView::SetName { name: name@ }),
            ]);
        }
        let mut rejoin: Option<String> = None;
        std::mem::swap(&mut rejoin, &mut self.rejoin_channel);
        if let Some(id) = rejoin {
            self.add_message(join3("rejoining #", id.as_str(), "..."));
            push(&mut e, Effect::Send(ClientMessage::JoinChannel { channel_id: id }));
        }
        push(&mut e, Effect::SaveTrust);
        e
    }

    /// The connection could not be made.
    pub fn on_connect_failed(
        &mut self,
        occasion: Occasion,
        result: &Option<TofuResult>,
        error: &str,
        now: u64,
    )
        requires
            old(self)@.wf(),
        ensures
            final(self)@.wf(),
            final(self)@ == old(self)@.connect_failed(
                occasion,
                tls::opt_result(*result),
                error@,
                now,
            ),
    {
        match occasion {
            Occasion::First => {
                self.handle_tofu_result(result);
                self.conn_state = ConnectionState::Disconnected;
                self.add_message(join2("connection failed: ", error));
                self.add_message(owned("use /server <ip> to set address, then /reconnect"));
            },
            Occasion::Asked => {
                self.conn_state = ConnectionState::Disconnected;
                self.add_message(join2("connection failed: ", error));
            },
            Occasion::Automatic => {
                let delay: u64 = reconnect_delay_ms(self.reconnect_attempt);
                self.next_reconnect = Some(now.saturating_add(delay));
            },
        }
    }

    /// The connection was lost.
    pub fn on_disconnected(&mut self, now: u64) -> (e: Vec<Effect>)
        requires
            old(self)@.wf(),
        ensures
            final(self)@.wf(),
            (final(self)@, effects(e@)) == old(self)@.lost(now),
    {
        if let Some(channel) = &self.channel {
            self.rejoin_channel = Some(channel.clone());
        }
        self.drop_channel();
        self.add_message(owned("disconnected from server"));
        self.link = Link::Absent;
        self.reconnect_attempt = 0;
        self.next_reconnect = Some(now.saturating_add(1_000));
        self.conn_state = ConnectionState::Reconnecting { attempt: 1 };
        one(Effect::StopVoice)
    }

    /// Starts a reconnect that is due.
    pub fn on_tick(&mut self, now: u64) -> (e: Vec<Effect>)
        requires
            old(self)@.wf(),
        ensures
            final(self)@.wf(),
            (final(self)@, effects(e@)) == old(self)@.ticked(now),
    {
        let due: u64 = match self.next_reconnect {
            Some(due) => due,
            None => return nothing(),
        };
        if now < due {
            return nothing();
        }
        self.reconnect_attempt = self.reconnect_attempt.saturating_add(1);
        self.conn_state = ConnectionState::Reconnecting { attempt: self.reconnect_attempt };
        one(Effect::Connect(Occasion::Automatic))
    }

    /// Compares the versions.
    fn on_welcome(&mut self, version: &str, protocol: u16, my_version: &str)
        requires
            old(self)@.wf(),
        ensures
            final(self)@.wf(),
            final(self)@ == old(self)@.welcomed(version@, protocol, my_version@),
    {
        if protocol != config::PROTOCOL_VERSION {
            let theirs = decimal_string(protocol as u64);
            let ours = decimal_string(config::PROTOCOL_VERSION as u64);
            let mut line = join5(
                "WARNING: protocol mismatch! server=",
                theirs.as_str(),
                " (v",
                version,
                ") client=",
            );
            line.append(ours.as_str());
            line.append(" (v");
            line.append(my_version);
            line.append(")");
            self.add_message(line);
            self.add_message(owned("please update your client to match the server"));
        } else if !str_eq(version, my_version) {
            self.add_message(
                join5(
                    "server version ",
                    version,
                    " (you have ",
                    my_version,
                    "), consider updating",
                ),
            );
        }
    }

    /// Enters a channel that was joined.
    fn on_joined(
        &mut self,
        channel_id: String,
        participants: Vec<String>,
        udp_token: u64,
        voice_key: Vec<u8>,
    )
        requires
            old(self)@.wf(),
        ensures
            final(self)@.wf(),
            final(self)@ == old(self)@.in_channel(
                channel_id@,
                messages::texts(participants@),
                udp_token,
                voice_key@,
            ),
    {
        let roster = join_names(&participants);
        self.add_message(join5("joined #", channel_id.as_str(), " (", roster.as_str(), ")"));
        self.participants = participants;
        self.channel = Some(channel_id.clone());
        self.voice_join_params = Some(VoiceJoinParams { channel_id, udp_token, voice_key });
    }

    /// Handles a message of the server, and tells what is left to do.
    #[verifier::rlimit(40)]
    pub fn handle_server_message(&mut self, msg: ServerMessage, my_version: &str) -> (e: Vec<
        Effect,
    >)
        requires
            old(self)@.wf(),
        ensures
            final(self)@.wf(),
            (final(self)@, effects(e@)) == old(self)@.heard(msg@, my_version@),
    {
        match msg {
            ServerMessage::Welcome { version, protocol } => {
                self.on_welcome(version.as_str(), protocol, my_version);
                nothing()
            },
            ServerMessage::ChannelCreated { channel_id } => {
                self.add_message(join3("channel created: ", channel_id.as_str(), ", joining..."));
                self.dispatch(ClientMessage::JoinChannel { channel_id })
            },
            ServerMessage::JoinedChannel { channel_id, participants, udp_token, voice_key } => {
                self.on_joined(channel_id, participants, udp_token, voice_key);
                one(Effect::StartVoice)
            },
            ServerMessage::PeerJoined { peer_name } => {
                self.add_message(join2(peer_name.as_str(), " joined"));
                let ghost before = self@.participants;
                self.participants.push(peer_name);
                assert(self@.participants =~= before.push(peer_name@));
                nothing()
            },
            ServerMessage::PeerLeft { peer_name } => {
                self.add_message(join2(peer_name.as_str(), " left"));
                self.participants = remove_name(&self.participants, peer_name.as_str());
                nothing()
            },
            ServerMessage::LeftChannel => {
                self.drop_channel();
                self.rejoin_channel = None;
                self.add_message(owned("left channel"));
                one(Effect::StopVoice)
            },
            ServerMessage::NameChanged { old_name, new_name } => {
                self.add_message(join3(old_name.as_str(), " is now ", new_name.as_str()));
                rename_first(&mut self.participants, old_name.as_str(), new_name);
                nothing()
            },
            ServerMessage::ChatMessage { from, text } => {
                self.add_message(join3(from.as_str(), ": ", text.as_str()));
                nothing()
            },
            ServerMessage::DirectMessage { from_pubkey: _, from_name, text } => {
                self.add_message(join4("(dm) ", from_name.as_str(), ": ", text.as_str()));
                nothing()
            },
            ServerMessage::ChannelList { channels } => {
                if channels.len() == 0 {
                    self.add_message(owned("no public channels"));
                } else {
                    self.add_message(owned("── public channels ──"));
                    self.say_all(channel_list(&channels));
                }
                nothing()
            },
            ServerMessage::Error { message } => {
                self.add_message(join2("error: ", message.as_str()));
                nothing()
            },
            ServerMessage::Pong => nothing(),
            ServerMessage::EchoTestReady { channel_id, udp_token, voice_key } => {
                self.on_echo_ready(channel_id, udp_token, voice_key);
                one(Effect::StartEcho)
            },
        }
    }

    /// Begins a sound check.
    fn on_echo_ready(&mut self, channel_id: String, udp_token: u64, voice_key: Vec<u8>)
        requires
            old(self)@.wf(),
        ensures
            final(self)@.wf(),
            final(self)@ == old(self)@.sound_checking(channel_id@, udp_token, voice_key@),
    {
        self.add_message(owned("sound check: speak and hear yourself"));
        self.voice_join_params = Some(VoiceJoinParams { channel_id, udp_token, voice_key });
    }

    /// Ends a sound check when its time is up, and tells what is left to do.
    pub fn on_echo_over(&mut self) -> (e: Vec<Effect>)
        requires
            old(self)@.wf(),
        ensures
            final(self)@.wf(),
            (final(self)@, effects(e@)) == old(self)@.sound_checked(),
    {
        self.voice_active = false;
        self.voice_join_params = None;
        self.add_message(owned("sound check over"));
        let mut e = self.dispatch(ClientMessage::StopEchoTest);
        push(&mut e, Effect::StopVoice);
        e
    }

    /// The voice of a channel was started, for the first time or again, or it
    /// could not be.
    pub fn on_voice_started(&mut self, again: bool, result: &Result<(), String>)
        requires
            old(self)@.wf(),
        ensures
            final(self)@.wf(),
            final(self)@ == old(self)@.voiced(again, unit_result(*result)),
    {
        match result {
            Ok(_) => {
                self.voice_active = true;
                self.add_message(
                    if again {
                        owned("voice restarted")
                    } else {
                        owned("voice active")
                    },
                );
            },
            Err(e) => {
                self.add_message(
                    if again {
                        join2("voice restart error: ", e.as_str())
                    } else {
                        join2("voice error: ", e.as_str())
                    },
                );
            },
        }
    }

    /// Shows the audio: devices, volumes and voice detection.
    pub fn show_config(
        &mut self,
        inputs: &Result<Vec<DeviceInfo>, String>,
        outputs: &Result<Vec<DeviceInfo>, String>,
    )
        requires
            old(self)@.wf(),
        ensures
            final(self)@.wf(),
            final(self)@ == old(self)@.config_shown(
                devices_result(*inputs),
                devices_result(*outputs),
            ),
    {
        let ghost before = self@;
        self.add_message(owned("── input devices ──"));
        match inputs {
            Ok(devices) => {
                let lines = device_list(devices, &self.input_device);
                self.say_all(lines);
            },
            Err(e) => {
                self.add_message(join2("  error: ", e.as_str()));
            },
        }
        proof {
            if let Ok(d) = devices_result(*inputs) {
                lemma_said_all_keeps(
                    before.said("── input devices ──"@),
                    device_lines(d, before.input_device),
                );
            }
        }
        self.add_message(owned("── output devices ──"));
        let ghost middle = self@;
        match outputs {
            Ok(devices) => {
                let lines = device_list(devices, &self.output_device);
                self.say_all(lines);
            },
            Err(e) => {
                self.add_message(join2("  error: ", e.as_str()));
            },
        }
        proof {
            if let Ok(d) = devices_result(*outputs) {
                lemma_said_all_keeps(middle, device_lines(d, before.output_device));
            }
        }
        self.add_message(owned("── volume ──"));
        let gain = decimal_string(self.input_gain as u64);
        self.add_message(join3("  gain (mic): ", gain.as_str(), "%"));
        let vol = decimal_string(self.output_vol as u64);
        self.add_message(join3("  vol (recv): ", vol.as_str(), "%"));
        self.add_message(owned("── vad ──"));
        if self.vad_level == 0 {
            self.add_message(owned("  level: off (0)"));
        } else {
            let level = decimal_string(self.vad_level as u64);
            let threshold = threshold_string(self.vad_level);
            self.add_message(
                join5("  level: ", level.as_str(), " (threshold ", threshold.as_str(), ")"),
            );
        }
        self.add_message(owned("  hangover: 10 frames"));
    }

    /// Takes the device with an index; a running voice is started anew.
    pub fn pick_device(
        &mut self,
        is_input: bool,
        devices: &Result<Vec<DeviceInfo>, String>,
        index: usize,
    ) -> (e: Vec<Effect>)
        requires
            old(self)@.wf(),
        ensures
            final(self)@.wf(),
            (final(self)@, effects(e@)) == old(self)@.picked(
                is_input,
                devices_result(*devices),
                index,
            ),
    {
        let kind = if is_input {
            "input"
        } else {
            "output"
        };
        match devices {
            Err(e) => {
                self.add_message(join2("error listing devices: ", e.as_str()));
                nothing()
            },
            Ok(list) => match name_at_index(list, index) {
                None => {
                    let digits = decimal_string(index as u64);
                    self.add_message(join4("no ", kind, " device with index ", digits.as_str()));
                    nothing()
                },
                Some(name) => {
                    self.add_message(join3(kind, " device set to: ", name.as_str()));
                    if is_input {
                        self.input_device = Some(name);
                    } else {
                        self.output_device = Some(name);
                    }
                    let mut e = one(Effect::SaveSettings);
                    if self.voice_join_params.is_some() {
                        self.voice_active = false;
                        push(&mut e, Effect::RestartVoice);
                        assert(effects(e@) =~= seq![
                            EffectView::SaveSettings,
                            EffectView::RestartVoice,
                        ]);
                    }
                    e
                },
            },
        }
    }

    /// Takes in how the voice does: who speaks, the quality and the traffic.
    pub fn on_voice_stats(
        &mut self,
        speakers: Vec<String>,
        quality: Option<(u8, String)>,
        traffic: Option<(u64, u64, u64)>,
    )
        requires
            old(self)@.wf(),
        ensures
            final(self)@.wf(),
            final(self)@ == (terminal::AppView {
                active_speakers: messages::texts(speakers@),
                voice_quality: terminal::opt_quality(quality),
                voice_traffic: traffic,
                dirty: true,
                ..old(self)@
            }),
    {
        self.active_speakers = speakers;
        self.voice_quality = quality;
        self.voice_traffic = traffic;
        self.dirty = true;
    }
}

proof fn lemma_said_all_keeps(a: terminal::AppView, lines: Seq<Seq<char>>)
    ensures
        a.said_all(lines).input_device == a.input_device,
        a.said_all(lines).output_device == a.output_device,
        a.said_all(lines).input_gain == a.input_gain,
        a.said_all(lines).output_vol == a.output_vol,
        a.said_all(lines).vad_level == a.vad_level,
    decreases lines.len(),
{
    if lines.len() > 0 {
        lemma_said_all_keeps(a, lines.drop_last());
    }
}

/// A client that loses its connection in a channel asks for that channel again
/// as soon as it is connected.
pub proof fn law_reconnect_rejoins(
    a: terminal::AppView,
    channel: Seq<char>,
    now: u64,
    occasion: Occasion,
    result: Option<tls::TofuResultView>,
)
    requires
        a.channel == Some(channel),
    ensures
        a.lost(now).0.connected(occasion, result).1.contains(
            EffectView::Send(messages::ClientMessageView::JoinChannel { channel_id: channel }),
        ),
        a.lost(now).0.connected(occasion, result).0.rejoin_channel is None,
{
    let e = a.lost(now).0.connected(occasion, result).1;
    assert(e[e.len() - 2] == EffectView::Send(
        messages::ClientMessageView::JoinChannel { channel_id: channel },
    ));
}

/// A client that left its channel on its own does not go back to it.
pub proof fn law_left_is_not_rejoined(
    a: terminal::AppView,
    now: u64,
    result: Option<tls::TofuResultView>,
)
    requires
        a.name is None,
    ensures
        a.cmd_leave().0.lost(now).0.connected(Occasion::Automatic, result).1 == seq![
            EffectView::SaveTrust,
        ],
{
    let e = a.cmd_leave().0.lost(now).0.connected(Occasion::Automatic, result).1;
    assert(e =~= seq![EffectView::SaveTrust]);
}

/// While there is no connection, nothing but the commands that do without one
/// has an effect: the line is answered with a hint.
pub proof fn law_offline_sends_nothing(a: terminal::AppView, input: Seq<char>, i: int)
    requires
        a.conn_state != ConnectionState::Connected,
        a.link == Link::Absent,
        0 <= i < a.commanded(input).1.len(),
    ensures
        !(a.commanded(input).1[i] is Send),
{
}

/// Muting twice changes nothing but the log.
pub proof fn law_mute_twice(a: terminal::AppView)
    ensures
        a.cmd_mute().0.cmd_mute().0.muted == a.muted,
{
}

} // verus!
