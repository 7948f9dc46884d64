//! The terminal client: what it shows and what the keys do.

use vstd::prelude::*;

use crate::config;
use crate::messages;
use crate::protocol::ChannelId;
use crate::state::{copy_bytes, copy_text};
use crate::text;
use crate::text::{contains_char, join2, owned, starts_with, trim};

verus! {

/// The connection to the server.
#[derive(Debug, Clone, Copy, PartialEq, Eq, Structural)]
pub enum ConnectionState {
    Connected,
    Disconnected,
    Reconnecting { attempt: u32 },
}

impl ConnectionState {
    /// Whether the server is connected.
    pub fn is_connected(&self) -> (r: bool)
        ensures
            r == (*self == ConnectionState::Connected),
    {
        *self == ConnectionState::Connected
    }

    /// Whether the server is not connected.
    pub fn is_disconnected(&self) -> (r: bool)
        ensures
            r == (*self != ConnectionState::Connected),
    {
        !self.is_connected()
    }
}

/// The line to the server, as far as sending goes.
#[derive(Debug, Clone, Copy, PartialEq, Eq, Structural)]
pub enum Link {
    /// There is none.
    Absent,
    /// Messages can be sent.
    Open,
    /// It was closed; the next message notices.
    Closed,
}

/// What is needed to start the voice of the current channel again.
#[derive(Debug)]
pub struct VoiceJoinParams {
    pub channel_id: ChannelId,
    pub udp_token: u64,
    pub voice_key: Vec<u8>,
}

/// What [`VoiceJoinParams`] holds.
#[verifier::ext_equal]
pub struct VoiceParamsView {
    pub channel_id: Seq<char>,
    pub udp_token: u64,
    pub voice_key: Seq<u8>,
}

impl View for VoiceJoinParams {
    type V = VoiceParamsView;

    open spec fn view(&self) -> VoiceParamsView {
        VoiceParamsView {
            channel_id: self.channel_id@,
            udp_token: self.udp_token,
            voice_key: self.voice_key@,
        }
    }
}

/// What optional parameters hold.
pub open spec fn opt_params(o: Option<VoiceJoinParams>) -> Option<VoiceParamsView> {
    match o {
        Some(p) => Some(p@),
        None => None,
    }
}

/// What an optional quality says.
pub open spec fn opt_quality(o: Option<(u8, String)>) -> Option<(u8, Seq<char>)> {
    match o {
        Some(q) => Some((q.0, q.1@)),
        None => None,
    }
}

/// A key on the keyboard.
#[derive(Debug, Clone, Copy, PartialEq, Eq, Structural)]
pub enum Key {
    Enter,
    Up,
    Down,
    Char(char),
    Backspace,
    Tab,
    PageUp,
    PageDown,
    Home,
    End,
    Esc,
    Other,
}

/// What a key leads to.
#[derive(Debug)]
pub enum Action {
    /// A line was entered.
    Command(String),
    /// The user wants to quit.
    Quit,
    /// Nothing but a redraw.
    Redraw,
}

/// What an [`Action`] says.
#[verifier::ext_equal]
pub enum ActionView {
    Command(Seq<char>),
    Quit,
    Redraw,
}

impl View for Action {
    type V = ActionView;

    open spec fn view(&self) -> ActionView {
        match *self {
            Action::Command(s) => ActionView::Command(s@),
            Action::Quit => ActionView::Quit,
            Action::Redraw => ActionView::Redraw,
        }
    }
}

/// The number of commands that are offered for completion.
pub const COMMAND_COUNT: usize = 11;

/// The commands that are offered for completion.
pub open spec fn command(i: int) -> Seq<char> {
    if i == 0 {
        "/config"@
    } else if i == 1 {
        "/create"@
    } else if i == 2 {
        "/connect"@
    } else if i == 3 {
        "/leave"@
    } else if i == 4 {
        "/mute"@
    } else if i == 5 {
        "/name"@
    } else if i == 6 {
        "/reconnect"@
    } else if i == 7 {
        "/server"@
    } else if i == 8 {
        "/web"@
    } else if i == 9 {
        "/help"@
    } else {
        "/quit"@
    }
}

/// A command that is offered for completion.
pub fn command_name(i: usize) -> (s: &'static str)
    ensures
        s@ == command(i as int),
{
    match i {
        0 => "/config",
        1 => "/create",
        2 => "/connect",
        3 => "/leave",
        4 => "/mute",
        5 => "/name",
        6 => "/reconnect",
        7 => "/server",
        8 => "/web",
        9 => "/help",
        _ => "/quit",
    }
}

/// What the commands that are offered for completion are for.
pub open spec fn purpose(i: int) -> Seq<char> {
    if i == 0 {
        "audio device selection"@
    } else if i == 1 {
        "create a new channel"@
    } else if i == 2 {
        "join a channel"@
    } else if i == 3 {
        "leave current channel"@
    } else if i == 4 {
        "toggle mute"@
    } else if i == 5 {
        "set your display name"@
    } else if i == 6 {
        "reconnect to server"@
    } else if i == 7 {
        "set server address"@
    } else if i == 8 {
        "start web UI on port"@
    } else if i == 9 {
        "show help"@
    } else {
        "exit"@
    }
}

/// What a command that is offered for completion is for.
pub fn command_purpose(i: usize) -> (s: &'static str)
    ensures
        s@ == purpose(i as int),
{
    match i {
        0 => "audio device selection",
        1 => "create a new channel",
        2 => "join a channel",
        3 => "leave current channel",
        4 => "toggle mute",
        5 => "set your display name",
        6 => "reconnect to server",
        7 => "set server address",
        8 => "start web UI on port",
        9 => "show help",
        _ => "exit",
    }
}

/// The commands among the first `n` that start with `input`.
pub open spec fn matching(input: Seq<char>, n: nat) -> Seq<usize>
    decreases n,
{
    if n == 0 {
        Seq::empty()
    } else {
        let rest = matching(input, (n - 1) as nat);
        if text::has_prefix(command(n - 1), input) {
            rest.push((n - 1) as usize)
        } else {
            rest
        }
    }
}

/// The state of the terminal client.
pub struct App {
    /// The line that is being typed.
    pub input: String,
    /// The lines that were entered.
    pub history: Vec<String>,
    /// The line of the history that is shown.
    pub history_pos: Option<usize>,
    /// What was being typed before the history was shown.
    pub saved_input: String,
    /// The lines of the log.
    pub messages: Vec<String>,
    /// The channel that the user is in.
    pub channel: Option<String>,
    /// The names in that channel.
    pub participants: Vec<String>,
    /// Whether voice runs.
    pub voice_active: bool,
    /// Whether the microphone is muted.
    pub muted: bool,
    /// The address of the server.
    pub server_addr: String,
    /// The connection to it.
    pub conn_state: ConnectionState,
    /// Whether messages can be sent.
    pub link: Link,
    /// Whether the user asked to quit.
    pub should_quit: bool,
    /// The commands that complete the input.
    pub autocomplete: Vec<usize>,
    /// The selected one.
    pub autocomplete_sel: usize,
    /// The chosen microphone.
    pub input_device: Option<String>,
    /// The chosen loudspeaker.
    pub output_device: Option<String>,
    /// How to start voice again.
    pub voice_join_params: Option<VoiceJoinParams>,
    /// Level of voice detection; 0 is off.
    pub vad_level: u32,
    /// Gain of the microphone, in percent.
    pub input_gain: u32,
    /// Volume of incoming voice, in percent.
    pub output_vol: u32,
    /// The name of the user.
    pub name: Option<String>,
    /// The channel to join again after a reconnect.
    pub rejoin_channel: Option<ChannelId>,
    /// How many reconnects were tried since the connection was lost.
    pub reconnect_attempt: u32,
    /// When the next one is due, in milliseconds.
    pub next_reconnect: Option<u64>,
    /// Who speaks now.
    pub active_speakers: Vec<String>,
    /// Loss in percent and the name of the quality tier.
    pub voice_quality: Option<(u8, String)>,
    /// Bytes per second sent and received, and all bytes so far.
    pub voice_traffic: Option<(u64, u64, u64)>,
    /// How many lines the log is scrolled up.
    pub scroll_offset: usize,
    /// Whether the digital rain is shown.
    pub matrix_mode: bool,
    /// Whether the screen is out of date.
    pub dirty: bool,
}

/// What the terminal client holds.
#[verifier::ext_equal]
pub struct AppView {
    pub input: Seq<char>,
    pub history: Seq<Seq<char>>,
    pub history_pos: Option<usize>,
    pub saved_input: Seq<char>,
    pub messages: Seq<Seq<char>>,
    pub channel: Option<Seq<char>>,
    pub participants: Seq<Seq<char>>,
    pub voice_active: bool,
    pub muted: bool,
    pub server_addr: Seq<char>,
    pub conn_state: ConnectionState,
    pub link: Link,
    pub should_quit: bool,
    pub autocomplete: Seq<usize>,
    pub autocomplete_sel: usize,
    pub input_device: Option<Seq<char>>,
    pub output_device: Option<Seq<char>>,
    pub voice_params: Option<VoiceParamsView>,
    pub vad_level: u32,
    pub input_gain: u32,
    pub output_vol: u32,
    pub name: Option<Seq<char>>,
    pub rejoin_channel: Option<Seq<char>>,
    pub reconnect_attempt: u32,
    pub next_reconnect: Option<u64>,
    pub active_speakers: Seq<Seq<char>>,
    pub voice_quality: Option<(u8, Seq<char>)>,
    pub voice_traffic: Option<(u64, u64, u64)>,
    pub scroll_offset: usize,
    pub matrix_mode: bool,
    pub dirty: bool,
}

impl View for App {
    type V = AppView;

    open spec fn view(&self) -> AppView {
        AppView {
            input: self.input@,
            history: messages::texts(self.history@),
            history_pos: self.history_pos,
            saved_input: self.saved_input@,
            messages: messages::texts(self.messages@),
            channel: messages::opt_text(self.channel),
            participants: messages::texts(self.participants@),
            voice_active: self.voice_active,
            muted: self.muted,
            server_addr: self.server_addr@,
            conn_state: self.conn_state,
            link: self.link,
            should_quit: self.should_quit,
            autocomplete: self.autocomplete@,
            autocomplete_sel: self.autocomplete_sel,
            input_device: messages::opt_text(self.input_device),
            output_device: messages::opt_text(self.output_device),
            voice_params: opt_params(self.voice_join_params),
            vad_level: self.vad_level,
            input_gain: self.input_gain,
            output_vol: self.output_vol,
            name: messages::opt_text(self.name),
            rejoin_channel: messages::opt_text(self.rejoin_channel),
            reconnect_attempt: self.reconnect_attempt,
            next_reconnect: self.next_reconnect,
            active_speakers: messages::texts(self.active_speakers@),
            voice_quality: opt_quality(self.voice_quality),
            voice_traffic: self.voice_traffic,
            scroll_offset: self.scroll_offset,
            matrix_mode: self.matrix_mode,
            dirty: self.dirty,
        }
    }
}

/// The last `n` items of a sequence.
pub open spec fn last_items<A>(s: Seq<A>, n: int) -> Seq<A> {
    if s.len() <= n {
        s
    } else {
        s.subrange(s.len() - n, s.len() as int)
    }
}

impl AppView {
    /// What holds of the client at all times: the log is bounded, and the
    /// positions in history, completions and log exist.
    pub open spec fn wf(self) -> bool {
        &&& self.messages.len() <= config::MAX_MESSAGE_HISTORY
        &&& self.history_pos matches Some(p) ==> p < self.history.len()
        &&& forall|i: int|
            0 <= i < self.autocomplete.len() ==> (#[trigger] self.autocomplete[i]) < COMMAND_COUNT
        &&& self.autocomplete.len() > 0 ==> self.autocomplete_sel < self.autocomplete.len()
        &&& self.scroll_offset <= self.messages.len()
    }

    /// A line was added to the log, which shows its end.
    pub open spec fn said(self, msg: Seq<char>) -> AppView {
        AppView {
            messages: last_items(
                self.messages.push(msg),
                config::MAX_MESSAGE_HISTORY as int,
            ),
            dirty: true,
            scroll_offset: 0,
            ..self
        }
    }

    /// The completions for the current input.
    pub open spec fn completed(self) -> AppView {
        if text::has_prefix(self.input, "/"@) && !self.input.contains(' ') {
            let found = matching(self.input, COMMAND_COUNT as nat);
            AppView {
                autocomplete: found,
                autocomplete_sel: if self.autocomplete_sel < found.len() {
                    self.autocomplete_sel
                } else if found.len() > 0 {
                    (found.len() - 1) as usize
                } else {
                    0
                },
                ..self
            }
        } else {
            AppView { autocomplete: Seq::empty(), autocomplete_sel: 0, ..self }
        }
    }

    /// No completions are shown.
    pub open spec fn uncompleted(self) -> AppView {
        AppView { autocomplete: Seq::empty(), autocomplete_sel: 0, ..self }
    }

    /// The input is the completion at `sel`.
    pub open spec fn selected(self, sel: int) -> AppView {
        AppView {
            autocomplete_sel: sel as usize,
            input: command(self.autocomplete[sel] as int),
            ..self
        }
    }

    /// The input is the line of the history at `pos`.
    pub open spec fn recalled(self, pos: int) -> AppView {
        AppView { history_pos: Some(pos as usize), input: self.history[pos], ..self }
    }

    /// Enter: the line, if it holds anything, goes to the history and out.
    pub open spec fn entered(self) -> (AppView, ActionView) {
        let line = text::trimmed(self.input);
        let a = AppView { input: Seq::empty(), ..self.uncompleted() };
        if line.len() > 0 {
            (
                AppView {
                    history: self.history.push(line),
                    history_pos: None,
                    saved_input: Seq::empty(),
                    ..a
                },
                ActionView::Command(line),
            )
        } else {
            (a, ActionView::Redraw)
        }
    }

    /// Up: the completion or the line of the history before.
    pub open spec fn upped(self) -> AppView {
        if self.autocomplete.len() > 0 {
            self.selected(
                if self.autocomplete_sel > 0 {
                    self.autocomplete_sel - 1
                } else {
                    0
                },
            )
        } else if self.history.len() > 0 {
            match self.history_pos {
                None => AppView { saved_input: self.input, ..self }.recalled(
                    self.history.len() - 1,
                ),
                Some(p) => if p > 0 {
                    self.recalled(p - 1)
                } else {
                    self
                },
            }
        } else {
            self
        }
    }

    /// Down: the completion or the line of the history after; past its end,
    /// the line that was being typed.
    pub open spec fn downed(self) -> AppView {
        if self.autocomplete.len() > 0 {
            self.selected(
                if self.autocomplete_sel + 1 < self.autocomplete.len() {
                    self.autocomplete_sel + 1
                } else {
                    self.autocomplete_sel as int
                },
            )
        } else {
            match self.history_pos {
                Some(p) => if p + 1 < self.history.len() {
                    self.recalled(p + 1)
                } else {
                    AppView {
                        history_pos: None,
                        input: self.saved_input,
                        saved_input: Seq::empty(),
                        ..self
                    }
                },
                None => self,
            }
        }
    }

    /// Up, `n` times.
    pub open spec fn upped_times(self, n: nat) -> AppView
        decreases n,
    {
        if n == 0 {
            self
        } else {
            self.upped_times((n - 1) as nat).upped()
        }
    }

    /// Down, `n` times.
    pub open spec fn downed_times(self, n: nat) -> AppView
        decreases n,
    {
        if n == 0 {
            self
        } else {
            self.downed_times((n - 1) as nat).downed()
        }
    }

    /// How far the log can be scrolled up.
    pub open spec fn scroll_end(self) -> int {
        if self.messages.len() > 0 {
            self.messages.len() - 1
        } else {
            0
        }
    }

    /// What a key does.
    pub open spec fn pressed(self, key: Key, ctrl: bool) -> (AppView, ActionView) {
        if ctrl && key == Key::Char('c') {
            (self, ActionView::Quit)
        } else {
            let a = AppView { dirty: true, ..self };
            if a.matrix_mode {
                (
                    AppView { matrix_mode: key != Key::Esc, ..a },
                    ActionView::Redraw,
                )
            } else if ctrl && key == Key::Char('m') {
                (a, ActionView::Command("/mute"@))
            } else {
                match key {
                    Key::Enter => a.entered(),
                    Key::Up => (a.upped(), ActionView::Redraw),
                    Key::Down => (a.downed(), ActionView::Redraw),
                    Key::Char(c) => (
                        AppView { input: a.input.push(c), history_pos: None, ..a }.completed(),
                        ActionView::Redraw,
                    ),
                    Key::Backspace => (
                        AppView {
                            input: if a.input.len() > 0 {
                                a.input.drop_last()
                            } else {
                                a.input
                            },
                            ..a
                        }.completed(),
                        ActionView::Redraw,
                    ),
                    Key::Tab => (
                        if a.autocomplete.len() > 0 {
                            AppView {
                                input: command(a.autocomplete[a.autocomplete_sel as int] as int)
                                    + " "@,
                                ..a.uncompleted()
                            }
                        } else {
                            a
                        },
                        ActionView::Redraw,
                    ),
                    Key::PageUp => (
                        AppView {
                            scroll_offset: if a.scroll_offset + 10 <= a.scroll_end() {
                                (a.scroll_offset + 10) as usize
                            } else {
                                a.scroll_end() as usize
                            },
                            ..a
                        },
                        ActionView::Redraw,
                    ),
                    Key::PageDown => (
                        AppView {
                            scroll_offset: if a.scroll_offset >= 10 {
                                (a.scroll_offset - 10) as usize
                            } else {
                                0
                            },
                            ..a
                        },
                        ActionView::Redraw,
                    ),
                    Key::Home => (
                        AppView { scroll_offset: a.scroll_end() as usize, ..a },
                        ActionView::Redraw,
                    ),
                    Key::End => (AppView { scroll_offset: 0, ..a }, ActionView::Redraw),
                    Key::Esc => if a.autocomplete.len() > 0 {
                        (a.uncompleted(), ActionView::Redraw)
                    } else {
                        (a, ActionView::Quit)
                    },
                    Key::Other => (a, ActionView::Redraw),
                }
            }
        }
    }
}

proof fn lemma_matching(input: Seq<char>, n: nat)
    requires
        n <= COMMAND_COUNT,
    ensures
        forall|i: int|
            0 <= i < matching(input, n).len() ==> (#[trigger] matching(input, n)[i]) < n,
        matching(input, n).len() <= n,
    decreases n,
{
    if n > 0 {
        lemma_matching(input, (n - 1) as nat);
        let rest = matching(input, (n - 1) as nat);
        assert forall|i: int| 0 <= i < matching(input, n).len() implies (#[trigger] matching(
            input,
            n,
        )[i]) < n by {
            if i < rest.len() {
                assert(matching(input, n)[i] == rest[i]);
            }
        }
    }
}

/// The lines that the log starts with.
pub open spec fn banner() -> Seq<Seq<char>> {
    seq![
        ""@,
        "  ████████╗  ██████╗"@,
        "  ╚══██╔══╝ ██╔════╝"@,
        "     ██║    ██║     "@,
        "     ██║    ██║     "@,
        "     ██║    ╚██████╗"@,
        "     ╚═╝     ╚═════╝"@,
        ""@,
        "  voice chat for your terminal"@,
        "  type /help for commands"@,
        ""@,
    ]
}

/// A client that has just started.
pub open spec fn started(muted: bool, server_addr: Seq<char>) -> AppView {
    AppView {
        input: Seq::empty(),
        history: Seq::empty(),
        history_pos: None,
        saved_input: Seq::empty(),
        messages: banner(),
        channel: None,
        participants: Seq::empty(),
        voice_active: false,
        muted,
        server_addr,
        conn_state: ConnectionState::Disconnected,
        link: Link::Absent,
        should_quit: false,
        autocomplete: Seq::empty(),
        autocomplete_sel: 0,
        input_device: None,
        output_device: None,
        voice_params: None,
        vad_level: config::DEFAULT_VAD_LEVEL,
        input_gain: 100,
        output_vol: 100,
        name: None,
        rejoin_channel: None,
        reconnect_attempt: 0,
        next_reconnect: None,
        active_speakers: Seq::empty(),
        voice_quality: None,
        voice_traffic: None,
        scroll_offset: 0,
        matrix_mode: false,
        dirty: true,
    }
}

impl App {
    /// A client that has just started.
    pub fn new(muted: bool, server_addr: String) -> (a: Self)
        ensures
            a@.wf(),
            a@ == started(muted, server_addr@),
    {
        let mut lines: Vec<String> = Vec::new();
        lines.push(owned(""));
        lines.push(owned("  ████████╗  ██████╗"));
        lines.push(owned("  ╚══██╔══╝ ██╔════╝"));
        lines.push(owned("     ██║    ██║     "));
        lines.push(owned("     ██║    ██║     "));
        lines.push(owned("     ██║    ╚██████╗"));
        lines.push(owned("     ╚═╝     ╚═════╝"));
        lines.push(owned(""));
        lines.push(owned("  voice chat for your terminal"));
        lines.push(owned("  type /help for commands"));
        lines.push(owned(""));
        let a = App {
            input: String::new(),
            history: Vec::new(),
            history_pos: None,
            saved_input: String::new(),
            messages: lines,
            channel: None,
            participants: Vec::new(),
            voice_active: false,
            muted,
            server_addr,
            conn_state: ConnectionState::Disconnected,
            link: Link::Absent,
            should_quit: false,
            autocomplete: Vec::new(),
            autocomplete_sel: 0,
            input_device: None,
            output_device: None,
            voice_join_params: None,
            vad_level: config::DEFAULT_VAD_LEVEL,
            input_gain: 100,
            output_vol: 100,
            name: None,
            rejoin_channel: None,
            reconnect_attempt: 0,
            next_reconnect: None,
            active_speakers: Vec::new(),
            voice_quality: None,
            voice_traffic: None,
            scroll_offset: 0,
            matrix_mode: false,
            dirty: true,
        };
        assert(a@ =~= started(muted, server_addr@));
        a
    }

    /// Adds a line to the log.
    pub fn add_message(&mut self, msg: String)
        ensures
            final(self)@ == old(self)@.said(msg@),
    {
        let ghost before = self@.messages;
        let ghost text = msg@;
        self.messages.push(msg);
        self.dirty = true;
        self.scroll_offset = 0;
        assert(self@.messages =~= before.push(text));
        if self.messages.len() > config::MAX_MESSAGE_HISTORY {
            let extra: usize = self.messages.len() - config::MAX_MESSAGE_HISTORY;
            let kept = self.messages.split_off(extra);
            self.messages = kept;
            assert(self@.messages =~= before.push(text).subrange(
                extra as int,
                before.len() as int + 1,
            ));
        }
        assert(self@ =~= old(self)@.said(text));
    }

    /// Looks up the completions of the input.
    fn update_autocomplete(&mut self)
        requires
            old(self)@.wf(),
        ensures
            final(self)@.wf(),
            final(self)@ == old(self)@.completed(),
    {
        if starts_with(self.input.as_str(), "/") && !contains_char(self.input.as_str(), ' ') {
            let mut found: Vec<usize> = Vec::new();
            let mut i: usize = 0;
            while i < COMMAND_COUNT
                invariant
                    i <= COMMAND_COUNT,
                    found@ == matching(self.input@, i as nat),
                decreases COMMAND_COUNT - i,
            {
                if starts_with(command_name(i), self.input.as_str()) {
                    found.push(i);
                }
                i = i + 1;
            }
            proof {
                lemma_matching(self.input@, COMMAND_COUNT as nat);
            }
            if self.autocomplete_sel >= found.len() {
                self.autocomplete_sel = found.len().saturating_sub(1);
            }
            self.autocomplete = found;
        } else {
            self.autocomplete = Vec::new();
            self.autocomplete_sel = 0;
        }
        assert(self@ =~= old(self)@.completed());
    }

    /// Handles Enter.
    fn on_enter(&mut self) -> (action: Action)
        requires
            old(self)@.wf(),
        ensures
            final(self)@.wf(),
            (final(self)@, action@) == old(self)@.entered(),
    {
        self.autocomplete = Vec::new();
        self.autocomplete_sel = 0;
        let line = trim(self.input.as_str());
        self.input = String::new();
        if !line.as_str().is_empty() {
            let ghost before = self@.history;
            self.history.push(line.clone());
            self.history_pos = None;
            self.saved_input = String::new();
            proof {
                assert(self@.history =~= before.push(line@));
                assert(self@ =~= old(self)@.entered().0);
            }
            return Action::Command(line);
        }
        assert(self@ =~= old(self)@.entered().0);
        Action::Redraw
    }

    /// Makes a completion the input.
    fn select(&mut self, sel: usize)
        requires
            old(self)@.wf(),
            sel < old(self)@.autocomplete.len(),
        ensures
            final(self)@.wf(),
            final(self)@ == old(self)@.selected(sel as int),
    {
        self.autocomplete_sel = sel;
        self.input = owned(command_name(self.autocomplete[sel]));
        assert(self@ =~= old(self)@.selected(sel as int));
    }

    /// Makes a line of the history the input.
    fn recall(&mut self, pos: usize)
        requires
            old(self)@.wf(),
            pos < old(self)@.history.len(),
        ensures
            final(self)@.wf(),
            final(self)@ == old(self)@.recalled(pos as int),
    {
        self.history_pos = Some(pos);
        self.input = self.history[pos].clone();
        assert(self@ =~= old(self)@.recalled(pos as int));
    }

    /// Handles the up key.
    fn on_up(&mut self)
        requires
            old(self)@.wf(),
        ensures
            final(self)@.wf(),
            final(self)@ == old(self)@.upped(),
    {
        if self.autocomplete.len() > 0 {
            let sel: usize = if self.autocomplete_sel > 0 {
                self.autocomplete_sel - 1
            } else {
                0
            };
            self.select(sel);
        } else if self.history.len() > 0 {
            match self.history_pos {
                None => {
                    self.saved_input = self.input.clone();
                    let pos: usize = self.history.len() - 1;
                    self.recall(pos);
                },
                Some(pos) => {
                    if pos > 0 {
                        self.recall(pos - 1);
                    }
                },
            }
        }
    }

    /// Handles the down key.
    fn on_down(&mut self)
        requires
            old(self)@.wf(),
        ensures
            final(self)@.wf(),
            final(self)@ == old(self)@.downed(),
    {
        if self.autocomplete.len() > 0 {
            let sel: usize = if self.autocomplete_sel + 1 < self.autocomplete.len() {
                self.autocomplete_sel + 1
            } else {
                self.autocomplete_sel
            };
            self.select(sel);
        } else if let Some(pos) = self.history_pos {
            let n: usize = self.history.len();
            if n - pos > 1 {
                self.recall(pos + 1);
            } else {
                self.history_pos = None;
                self.input = self.saved_input.clone();
                self.saved_input = String::new();
                assert(self@ =~= old(self)@.downed());
            }
        }
    }

    /// Handles a key that was pressed.
    pub fn on_key(&mut self, key: Key, ctrl: bool) -> (action: Action)
        requires
            old(self)@.wf(),
        ensures
            final(self)@.wf(),
            (final(self)@, action@) == old(self)@.pressed(key, ctrl),
    {
        if ctrl && key == Key::Char('c') {
            return Action::Quit;
        }
        self.dirty = true;
        if self.matrix_mode {
            self.matrix_mode = key != Key::Esc;
            return Action::Redraw;
        }
        if ctrl && key == Key::Char('m') {
            return Action::Command(owned("/mute"));
        }
        match key {
            Key::Enter => return self.on_enter(),
            Key::Up => self.on_up(),
            Key::Down => self.on_down(),
            Key::Char(c) => {
                self.input.push(c);
                self.history_pos = None;
                self.update_autocomplete();
            },
            Key::Backspace => {
                let n: usize = self.input.as_str().unicode_len();
                if n > 0 {
                    let shorter = owned(self.input.as_str().substring_char(0, n - 1));
                    assert(shorter@ =~= self.input@.drop_last());
                    self.input = shorter;
                }
                self.update_autocomplete();
            },
            Key::Tab => {
                if self.autocomplete.len() > 0 {
                    let name = command_name(self.autocomplete[self.autocomplete_sel]);
                    self.input = join2(name, " ");
                    self.autocomplete = Vec::new();
                    self.autocomplete_sel = 0;
                }
            },
            Key::PageUp => {
                let end: usize = self.messages.len().saturating_sub(1);
                let up: usize = self.scroll_offset + 10;
                self.scroll_offset = if up <= end {
                    up
                } else {
                    end
                };
            },
            Key::PageDown => {
                self.scroll_offset = self.scroll_offset.saturating_sub(10);
            },
            Key::Home => {
                self.scroll_offset = self.messages.len().saturating_sub(1);
            },
            Key::End => {
                self.scroll_offset = 0;
            },
            Key::Esc => {
                if self.autocomplete.len() > 0 {
                    self.autocomplete = Vec::new();
                    self.autocomplete_sel = 0;
                } else {
                    return Action::Quit;
                }
            },
            Key::Other => {},
        }
        assert(self@ =~= old(self)@.pressed(key, ctrl).0);
        Action::Redraw
    }

    /// The part of the log that a window of `height` lines shows, from the
    /// first line to the one after the last.
    pub fn visible_lines(&self, height: usize) -> (r: (usize, usize))
        ensures
            r.0 <= r.1 <= self@.messages.len(),
            r.1 == if self@.messages.len() >= self@.scroll_offset {
                self@.messages.len() - self@.scroll_offset
            } else {
                0
            },
            r.0 == if r.1 >= height {
                r.1 - height
            } else {
                0
            },
    {
        let end: usize = self.messages.len().saturating_sub(self.scroll_offset);
        (end.saturating_sub(height), end)
    }
}

/// A new line always shows, at the end of a log that never grows too long.
pub proof fn law_log_is_bounded(a: AppView, msg: Seq<char>)
    requires
        a.wf(),
    ensures
        a.said(msg).wf(),
        a.said(msg).messages.len() <= config::MAX_MESSAGE_HISTORY,
        a.said(msg).messages.last() == msg,
        a.said(msg).scroll_offset == 0,
{
}

/// Going up in the history and down again as often comes back to the line that
/// was being typed, however often that is.
pub proof fn law_down_undoes_up(a: AppView, n: nat)
    requires
        a.autocomplete.len() == 0,
        a.history.len() <= usize::MAX,
        a.history_pos is None,
    ensures
        a.upped_times(n).downed_times(n).input == a.input,
        a.upped_times(n).downed_times(n).history_pos is None,
        a.upped_times(n).downed_times(n).history == a.history,
{
    lemma_upped_times(a, n);
    if n > 0 {
        lemma_downed_times(a, n, n);
    }
}

/// How many lines back in the history `n` steps up lead.
spec fn steps_back(a: AppView, n: nat) -> int {
    if n < a.history.len() {
        n as int
    } else {
        a.history.len() as int
    }
}

proof fn lemma_upped_times(a: AppView, n: nat)
    requires
        a.autocomplete.len() == 0,
        a.history.len() <= usize::MAX,
        a.history_pos is None,
    ensures
        a.upped_times(n) == if n == 0 || a.history.len() == 0 {
            a
        } else {
            AppView { saved_input: a.input, ..a }.recalled(a.history.len() - steps_back(a, n))
        },
    decreases n,
{
    if n > 0 {
        lemma_upped_times(a, (n - 1) as nat);
    }
}

proof fn lemma_downed_times(a: AppView, n: nat, m: nat)
    requires
        a.autocomplete.len() == 0,
        a.history.len() <= usize::MAX,
        a.history_pos is None,
        n > 0,
    ensures
        a.upped_times(n).downed_times(m) == if a.history.len() == 0 {
            a
        } else if m < steps_back(a, n) {
            AppView { saved_input: a.input, ..a }.recalled(
                a.history.len() - steps_back(a, n) + m,
            )
        } else {
            AppView { saved_input: Seq::empty(), ..a }
        },
    decreases m,
{
    lemma_upped_times(a, n);
    if m > 0 {
        lemma_downed_times(a, n, (m - 1) as nat);
    }
}

/// Completions are offered for a command without arguments alone, and each of
/// them completes the input.
pub proof fn law_completions_complete(a: AppView, i: int)
    requires
        0 <= i < a.completed().autocomplete.len(),
    ensures
        text::has_prefix(a.input, "/"@),
        !a.input.contains(' '),
        text::has_prefix(command(a.completed().autocomplete[i] as int), a.input),
{
    lemma_matching_prefix(a.input, COMMAND_COUNT as nat, i);
}

proof fn lemma_matching_prefix(input: Seq<char>, n: nat, i: int)
    requires
        n <= COMMAND_COUNT,
        0 <= i < matching(input, n).len(),
    ensures
        text::has_prefix(command(matching(input, n)[i] as int), input),
    decreases n,
{
    let rest = matching(input, (n - 1) as nat);
    if i < rest.len() {
        lemma_matching_prefix(input, (n - 1) as nat, i);
    }
}

/// Enter gives out the line that was typed, without white space around it, and
/// remembers it as the last of the history; the input is empty then. A line of
/// white space is dropped.
pub proof fn law_entered_line_goes_out(a: AppView, ctrl: bool)
    requires
        !a.matrix_mode,
    ensures
        ({
            let (b, action) = a.pressed(Key::Enter, ctrl);
            let line = text::trimmed(a.input);
            &&& b.input.len() == 0
            &&& b.autocomplete.len() == 0
            &&& line.len() > 0 ==> action == ActionView::Command(line) && b.history
                == a.history.push(line) && b.history_pos is None
            &&& line.len() == 0 ==> action == ActionView::Redraw && b.history == a.history
        }),
{
}

/// A character that is typed comes last in the input, and taking one back
/// leaves what was there before.
pub proof fn law_backspace_undoes_typing(a: AppView, c: char)
    requires
        !a.matrix_mode,
    ensures
        a.pressed(Key::Char(c), false).0.input == a.input.push(c),
        a.pressed(Key::Char(c), false).1 == ActionView::Redraw,
        a.pressed(Key::Char(c), false).0.pressed(Key::Backspace, false).0.input == a.input,
        a.input.len() == 0 ==> a.pressed(Key::Backspace, false).0.input.len() == 0,
{
    assert(a.input.push(c).drop_last() =~= a.input);
}

/// Holding control, `c` quits whatever is shown, and `m` mutes unless the rain
/// is shown; neither is typed.
pub proof fn law_control_keys(a: AppView)
    ensures
        a.pressed(Key::Char('c'), true).1 == ActionView::Quit,
        a.pressed(Key::Char('c'), true).0 == a,
        !a.matrix_mode ==> a.pressed(Key::Char('m'), true).1 == ActionView::Command("/mute"@),
        a.pressed(Key::Char('m'), true).0.input == a.input,
{
}

/// While the rain is shown, Escape ends it and other keys do nothing but for
/// the one that quits. Otherwise Escape first takes the completions away and
/// quits when there are none.
pub proof fn law_escape(a: AppView, key: Key)
    requires
        key != Key::Char('c'),
    ensures
        a.matrix_mode ==> a.pressed(key, false) == (
            AppView { matrix_mode: key != Key::Esc, dirty: true, ..a },
            ActionView::Redraw,
        ),
        !a.matrix_mode && a.autocomplete.len() > 0 ==> a.pressed(Key::Esc, false).1
            == ActionView::Redraw && a.pressed(Key::Esc, false).0.autocomplete.len() == 0,
        !a.matrix_mode && a.autocomplete.len() == 0 ==> a.pressed(Key::Esc, false).1
            == ActionView::Quit,
{
}

/// Keys change what is typed and shown, never the session: not the connection,
/// the channel, the people in it, the voice, the settings or the log.
pub proof fn law_keys_leave_the_session(a: AppView, key: Key, ctrl: bool)
    ensures
        ({
            let b = a.pressed(key, ctrl).0;
            &&& b.messages == a.messages
            &&& b.channel == a.channel
            &&& b.participants == a.participants
            &&& b.muted == a.muted
            &&& b.name == a.name
            &&& b.server_addr == a.server_addr
            &&& b.conn_state == a.conn_state
            &&& b.link == a.link
            &&& b.voice_active == a.voice_active
            &&& b.vad_level == a.vad_level
            &&& b.input_gain == a.input_gain
            &&& b.output_vol == a.output_vol
            &&& b.should_quit == a.should_quit
        }),
{
}

/// Scrolling moves by ten lines, or to the ends, and not beyond them.
pub proof fn law_scrolling(a: AppView)
    requires
        a.wf(),
        !a.matrix_mode,
    ensures
        a.pressed(Key::PageUp, false).0.scroll_offset == if a.scroll_offset + 10
            < a.messages.len() {
            a.scroll_offset + 10
        } else if a.messages.len() > 0 {
            a.messages.len() - 1
        } else {
            0
        },
        a.pressed(Key::PageDown, false).0.scroll_offset == if a.scroll_offset > 10 {
            a.scroll_offset - 10
        } else {
            0
        },
        a.messages.len() > 0 ==> a.pressed(Key::Home, false).0.scroll_offset == a.messages.len()
            - 1,
        a.pressed(Key::End, false).0.scroll_offset == 0,
{
}

/// Tab makes the selected completion the input, with a space for what comes
/// after it; without completions it does nothing.
pub proof fn law_tab_completes(a: AppView)
    requires
        a.wf(),
        !a.matrix_mode,
    ensures
        ({
            let b = a.pressed(Key::Tab, false).0;
            &&& a.autocomplete.len() == 0 ==> b.input == a.input
            &&& a.autocomplete.len() > 0 ==> b.input.drop_last() == command(
                a.autocomplete[a.autocomplete_sel as int] as int,
            ) && b.input.last() == ' ' && b.autocomplete.len() == 0
        }),
{
    reveal_strlit(" ");
    if a.autocomplete.len() > 0 {
        let c = command(a.autocomplete[a.autocomplete_sel as int] as int);
        assert((c + " "@).drop_last() =~= c);
    }
}

/// Every command that starts with what is typed is offered, and no other, each
/// of them once.
pub proof fn law_all_completions_are_offered(a: AppView, i: usize)
    requires
        text::has_prefix(a.input, "/"@),
        !a.input.contains(' '),
    ensures
        a.completed().autocomplete.contains(i) <==> i < COMMAND_COUNT && text::has_prefix(
            command(i as int),
            a.input,
        ),
        a.completed().autocomplete.no_duplicates(),
{
    lemma_all_matching(a.input, COMMAND_COUNT as nat, i);
}

proof fn lemma_all_matching(input: Seq<char>, n: nat, i: usize)
    requires
        n <= COMMAND_COUNT,
    ensures
        matching(input, n).contains(i) <==> i < n && text::has_prefix(command(i as int), input),
        matching(input, n).no_duplicates(),
    decreases n,
{
    if n > 0 {
        let rest = matching(input, (n - 1) as nat);
        let k = (n - 1) as usize;
        lemma_all_matching(input, (n - 1) as nat, i);
        lemma_matching(input, (n - 1) as nat);
        if text::has_prefix(command(n - 1), input) {
            crate::table::lemma_push_contains(rest, k);
            assert(rest.push(k).contains(i) <==> rest.contains(i) || i == k);
        }
    }
}

/// A new line pushes out the oldest one alone, and only when the log is full.
pub proof fn law_log_keeps_the_newest(a: AppView, msg: Seq<char>, i: int)
    requires
        a.messages.len() <= config::MAX_MESSAGE_HISTORY,
        0 <= i < a.said(msg).messages.len() - 1,
    ensures
        a.messages.len() < config::MAX_MESSAGE_HISTORY ==> a.said(msg).messages == a.messages.push(
            msg,
        ),
        a.messages.len() == config::MAX_MESSAGE_HISTORY ==> a.said(msg).messages.len()
            == config::MAX_MESSAGE_HISTORY && a.said(msg).messages[i] == a.messages[i + 1],
{
}

} // verus!
