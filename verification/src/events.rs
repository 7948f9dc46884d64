//! What the desktop client tells its window.

use vstd::prelude::*;

use crate::messages;

verus! {

/// The connection, as it is shown.
#[derive(Debug)]
pub enum ConnState {
    Disconnected,
    Connecting,
    Connected { server: String },
    /// The connection was lost; another try is due.
    Reconnecting { attempt: u32, delay_secs: u64 },
}

/// Somebody in the channel.
#[derive(Debug)]
pub struct PeerEvent {
    pub name: String,
}

/// Text in the channel.
#[derive(Debug)]
pub struct ChatPayload {
    pub from: String,
    pub text: String,
}

/// Text from one peer alone.
#[derive(Debug)]
pub struct DmPayload {
    pub from_pubkey: String,
    pub from_name: String,
    pub text: String,
}

/// A channel that was joined.
#[derive(Debug)]
pub struct JoinedPayload {
    pub channel_id: String,
    pub participants: Vec<String>,
}

/// A public channel.
#[derive(Debug)]
pub struct ChannelListEntry {
    pub channel_id: String,
    pub participant_count: u32,
}

/// The public channels.
#[derive(Debug)]
pub struct ChannelListPayload {
    pub channels: Vec<ChannelListEntry>,
}

/// An audio device that was plugged in.
#[derive(Debug)]
pub struct DeviceAddedPayload {
    /// `input` or `output`.
    pub kind: String,
    pub name: String,
}

/// Something went wrong.
#[derive(Debug)]
pub struct ErrorPayload {
    pub message: String,
}

/// How the overlay is set up.
#[derive(Debug)]
pub struct OverlayConfigPayload {
    pub enabled: bool,
    pub position: String,
    pub visibility: String,
}

/// The outcome of a sound check.
#[derive(Debug, Clone, Copy, PartialEq, Eq, Structural)]
pub struct EchoResult {
    /// The microphone was opened.
    pub mic_ok: bool,
    /// The loudspeaker was opened.
    pub output_ok: bool,
    /// The server confirmed the UDP address.
    pub registered: bool,
    /// Voice came back.
    pub roundtrip_ok: bool,
    /// How many bytes came back.
    pub bytes_received: u64,
}

/// Something that the window is told.
#[derive(Debug)]
pub enum Event {
    ConnectionState(ConnState),
    JoinedChannel(JoinedPayload),
    PeerJoined(PeerEvent),
    PeerLeft(PeerEvent),
    LeftChannel,
    ChatMessage(ChatPayload),
    DirectMessage(DmPayload),
    NameChanged { old_name: String, new_name: String },
    ChannelList(ChannelListPayload),
    Error(ErrorPayload),
    EchoTestStarted,
    EchoTestResult(EchoResult),
    OverlayConfig(OverlayConfigPayload),
}

/// What a [`ConnState`] says.
#[verifier::ext_equal]
pub enum ConnStateView {
    Disconnected,
    Connecting,
    Connected { server: Seq<char> },
    Reconnecting { attempt: u32, delay_secs: u64 },
}

/// What an [`Event`] says.
#[verifier::ext_equal]
pub enum EventView {
    ConnectionState(ConnStateView),
    JoinedChannel { channel_id: Seq<char>, participants: Seq<Seq<char>> },
    PeerJoined { name: Seq<char> },
    PeerLeft { name: Seq<char> },
    LeftChannel,
    ChatMessage { from: Seq<char>, text: Seq<char> },
    DirectMessage { from_pubkey: Seq<char>, from_name: Seq<char>, text: Seq<char> },
    NameChanged { old_name: Seq<char>, new_name: Seq<char> },
    ChannelList { channels: Seq<messages::ChannelInfoView> },
    Error { message: Seq<char> },
    EchoTestStarted,
    EchoTestResult(EchoResult),
    OverlayConfig { enabled: bool, position: Seq<char>, visibility: Seq<char> },
}

impl View for ConnState {
    type V = ConnStateView;

    open spec fn view(&self) -> ConnStateView {
        match *self {
            ConnState::Disconnected => ConnStateView::Disconnected,
            ConnState::Connecting => ConnStateView::Connecting,
            ConnState::Connected { server } => ConnStateView::Connected { server: server@ },
            ConnState::Reconnecting { attempt, delay_secs } => ConnStateView::Reconnecting {
                attempt,
                delay_secs,
            },
        }
    }
}

/// What a list of public channels says.
pub open spec fn entries(v: Seq<ChannelListEntry>) -> Seq<messages::ChannelInfoView> {
    v.map_values(
        |c: ChannelListEntry|
            messages::ChannelInfoView {
                channel_id: c.channel_id@,
                participant_count: c.participant_count,
            },
    )
}

impl View for Event {
    type V = EventView;

    open spec fn view(&self) -> EventView {
        match *self {
            Event::ConnectionState(s) => EventView::ConnectionState(s@),
            Event::JoinedChannel(p) => EventView::JoinedChannel {
                channel_id: p.channel_id@,
                participants: messages::texts(p.participants@),
            },
            Event::PeerJoined(p) => EventView::PeerJoined { name: p.name@ },
            Event::PeerLeft(p) => EventView::PeerLeft { name: p.name@ },
            Event::LeftChannel => EventView::LeftChannel,
            Event::ChatMessage(p) => EventView::ChatMessage { from: p.from@, text: p.text@ },
            Event::DirectMessage(p) => EventView::DirectMessage {
                from_pubkey: p.from_pubkey@,
                from_name: p.from_name@,
                text: p.text@,
            },
            Event::NameChanged { old_name, new_name } => EventView::NameChanged {
                old_name: old_name@,
                new_name: new_name@,
            },
            Event::ChannelList(p) => EventView::ChannelList { channels: entries(p.channels@) },
            Event::Error(p) => EventView::Error { message: p.message@ },
            Event::EchoTestStarted => EventView::EchoTestStarted,
            Event::EchoTestResult(r) => EventView::EchoTestResult(r),
            Event::OverlayConfig(p) => EventView::OverlayConfig {
                enabled: p.enabled,
                position: p.position@,
                visibility: p.visibility@,
            },
        }
    }
}

} // verus!
