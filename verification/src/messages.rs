//! Messages of the TCP control channel.

use vstd::prelude::*;

use crate::protocol::ChannelId;

verus! {

/// A message from a client to the server.
#[derive(Debug, Clone)]
pub enum ClientMessage {
    /// First message after connect: the version of the client and, where it
    /// has an identity, its public key.
    Hello { version: String, protocol: u16, pubkey: Option<Vec<u8>> },
    /// Create a channel; one with a name is public.
    CreateChannel { name: Option<String> },
    /// Join an existing channel.
    JoinChannel { channel_id: ChannelId },
    /// Leave the current channel.
    LeaveChannel,
    /// List the public channels.
    ListChannels,
    /// Send text to the current channel.
    ChatMessage { text: String },
    /// Send text to the client with this public key.
    DirectMessage { to_pubkey: Vec<u8>, text: String },
    /// Set the display name.
    SetName { name: String },
    /// Keep-alive.
    Ping,
    /// Start a sound check on a channel of its own.
    StartEchoTest,
    /// Stop the sound check.
    StopEchoTest,
}

/// A message from the server to a client.
#[derive(Debug, Clone)]
pub enum ServerMessage {
    /// First message after connect: the version of the server.
    Welcome { version: String, protocol: u16 },
    /// The channel was created.
    ChannelCreated { channel_id: ChannelId },
    /// The channel was joined. The token binds the client's UDP address to
    /// this session; the key encrypts the voice of the channel.
    JoinedChannel {
        channel_id: ChannelId,
        participants: Vec<String>,
        udp_token: u64,
        voice_key: Vec<u8>,
    },
    /// Another participant joined.
    PeerJoined { peer_name: String },
    /// Another participant left.
    PeerLeft { peer_name: String },
    /// The channel was left.
    LeftChannel,
    /// Text from a participant.
    ChatMessage { from: String, text: String },
    /// Text from one client alone.
    DirectMessage { from_pubkey: Vec<u8>, from_name: String, text: String },
    /// A name changed.
    NameChanged { old_name: String, new_name: String },
    /// The public channels.
    ChannelList { channels: Vec<ChannelInfo> },
    /// The request failed.
    Error { message: String },
    /// Answer to a keep-alive.
    Pong,
    /// The sound check is ready on this channel.
    EchoTestReady { channel_id: ChannelId, udp_token: u64, voice_key: Vec<u8> },
}

/// A public channel and how many are in it.
#[derive(Debug, Clone)]
pub struct ChannelInfo {
    pub channel_id: ChannelId,
    pub participant_count: u32,
}

/// What a [`ChannelInfo`] holds.
#[verifier::ext_equal]
pub struct ChannelInfoView {
    pub channel_id: Seq<char>,
    pub participant_count: u32,
}

impl View for ChannelInfo {
    type V = ChannelInfoView;

    open spec fn view(&self) -> ChannelInfoView {
        ChannelInfoView {
            channel_id: self.channel_id@,
            participant_count: self.participant_count,
        }
    }
}

/// The texts of a list of strings.
pub open spec fn texts(v: Seq<String>) -> Seq<Seq<char>> {
    v.map_values(|s: String| s@)
}

/// The contents of a list of channel infos.
pub open spec fn infos(v: Seq<ChannelInfo>) -> Seq<ChannelInfoView> {
    v.map_values(|c: ChannelInfo| c@)
}

/// What a [`ClientMessage`] says.
#[verifier::ext_equal]
pub enum ClientMessageView {
    Hello { version: Seq<char>, protocol: u16, pubkey: Option<Seq<u8>> },
    CreateChannel { name: Option<Seq<char>> },
    JoinChannel { channel_id: Seq<char> },
    LeaveChannel,
    ListChannels,
    ChatMessage { text: Seq<char> },
    DirectMessage { to_pubkey: Seq<u8>, text: Seq<char> },
    SetName { name: Seq<char> },
    Ping,
    StartEchoTest,
    StopEchoTest,
}

/// The text of an optional string.
pub open spec fn opt_text(o: Option<String>) -> Option<Seq<char>> {
    match o {
        Some(s) => Some(s@),
        None => None,
    }
}

/// The text of an optional borrowed string.
pub open spec fn opt_str(o: Option<&str>) -> Option<Seq<char>> {
    match o {
        Some(s) => Some(s@),
        None => None,
    }
}

/// The text of a result or of its error.
pub open spec fn text_result(r: Result<String, String>) -> Result<Seq<char>, Seq<char>> {
    match r {
        Ok(s) => Ok(s@),
        Err(e) => Err(e@),
    }
}

/// The contents of an optional byte vector.
pub open spec fn opt_bytes(o: Option<Vec<u8>>) -> Option<Seq<u8>> {
    match o {
        Some(v) => Some(v@),
        None => None,
    }
}

impl View for ClientMessage {
    type V = ClientMessageView;

    open spec fn view(&self) -> ClientMessageView {
        match *self {
            ClientMessage::Hello { version, protocol, pubkey } => ClientMessageView::Hello {
                version: version@,
                protocol,
                pubkey: opt_bytes(pubkey),
            },
            ClientMessage::CreateChannel { name } => ClientMessageView::CreateChannel {
                name: opt_text(name),
            },
            ClientMessage::JoinChannel { channel_id } => ClientMessageView::JoinChannel {
                channel_id: channel_id@,
            },
            ClientMessage::LeaveChannel => ClientMessageView::LeaveChannel,
            ClientMessage::ListChannels => ClientMessageView::ListChannels,
            ClientMessage::ChatMessage { text } => ClientMessageView::ChatMessage { text: text@ },
            ClientMessage::DirectMessage { to_pubkey, text } => ClientMessageView::DirectMessage {
                to_pubkey: to_pubkey@,
                text: text@,
            },
            ClientMessage::SetName { name } => ClientMessageView::SetName { name: name@ },
            ClientMessage::Ping => ClientMessageView::Ping,
            ClientMessage::StartEchoTest => ClientMessageView::StartEchoTest,
            ClientMessage::StopEchoTest => ClientMessageView::StopEchoTest,
        }
    }
}

/// What a [`ServerMessage`] says.
#[verifier::ext_equal]
pub enum ServerMessageView {
    Welcome { version: Seq<char>, protocol: u16 },
    ChannelCreated { channel_id: Seq<char> },
    JoinedChannel {
        channel_id: Seq<char>,
        participants: Seq<Seq<char>>,
        udp_token: u64,
        voice_key: Seq<u8>,
    },
    PeerJoined { peer_name: Seq<char> },
    PeerLeft { peer_name: Seq<char> },
    LeftChannel,
    ChatMessage { from: Seq<char>, text: Seq<char> },
    DirectMessage { from_pubkey: Seq<u8>, from_name: Seq<char>, text: Seq<char> },
    NameChanged { old_name: Seq<char>, new_name: Seq<char> },
    ChannelList { channels: Seq<ChannelInfoView> },
    Error { message: Seq<char> },
    Pong,
    EchoTestReady { channel_id: Seq<char>, udp_token: u64, voice_key: Seq<u8> },
}

impl View for ServerMessage {
    type V = ServerMessageView;

    open spec fn view(&self) -> ServerMessageView {
        match *self {
            ServerMessage::Welcome { version, protocol } => ServerMessageView::Welcome {
                version: version@,
                protocol,
            },
            ServerMessage::ChannelCreated { channel_id } => ServerMessageView::ChannelCreated {
                channel_id: channel_id@,
            },
            ServerMessage::JoinedChannel { channel_id, participants, udp_token, voice_key } => {
                ServerMessageView::JoinedChannel {
                    channel_id: channel_id@,
                    participants: texts(participants@),
                    udp_token,
                    voice_key: voice_key@,
                }
            },
            ServerMessage::PeerJoined { peer_name } => ServerMessageView::PeerJoined {
                peer_name: peer_name@,
            },
            ServerMessage::PeerLeft { peer_name } => ServerMessageView::PeerLeft {
                peer_name: peer_name@,
            },
            ServerMessage::LeftChannel => ServerMessageView::LeftChannel,
            ServerMessage::ChatMessage { from, text } => ServerMessageView::ChatMessage {
                from: from@,
                text: text@,
            },
            ServerMessage::DirectMessage { from_pubkey, from_name, text } => {
                ServerMessageView::DirectMessage {
                    from_pubkey: from_pubkey@,
                    from_name: from_name@,
                    text: text@,
                }
            },
            ServerMessage::NameChanged { old_name, new_name } => ServerMessageView::NameChanged {
                old_name: old_name@,
                new_name: new_name@,
            },
            ServerMessage::ChannelList { channels } => ServerMessageView::ChannelList {
                channels: infos(channels@),
            },
            ServerMessage::Error { message } => ServerMessageView::Error { message: message@ },
            ServerMessage::Pong => ServerMessageView::Pong,
            ServerMessage::EchoTestReady { channel_id, udp_token, voice_key } => {
                ServerMessageView::EchoTestReady {
                    channel_id: channel_id@,
                    udp_token,
                    voice_key: voice_key@,
                }
            },
        }
    }
}

} // verus!
