//! The server's side of a client connection: input, rate limits, and what
//! each message leads to.

use vstd::prelude::*;

use crate::addr;
use crate::addr::Addr;
use crate::config;
use crate::messages;
use crate::messages::{ChannelInfo, ClientMessage, ServerMessage};
use crate::network::Inbox;
use crate::protocol;
use crate::protocol::FrameError;
use crate::rate_limit;
use crate::rate_limit::{IpRateLimiter, RateLimiter};
use crate::server_laws;
use crate::server_model;
use crate::state;
use crate::state::ServerState;
use crate::text;
use crate::text::{owned, starts_with, trim, utf8_len};

verus! {

/// A message on its way to clients.
#[derive(Debug)]
pub enum Outgoing {
    /// To one client.
    Send { to: Addr, msg: ServerMessage },
    /// To each of these clients.
    Broadcast { to: Vec<Addr>, msg: ServerMessage },
}

/// What goes out, and to whom.
#[verifier::ext_equal]
pub enum OutgoingView {
    Send { to: Addr, msg: messages::ServerMessageView },
    Broadcast { to: Set<Addr>, msg: messages::ServerMessageView },
}

impl View for Outgoing {
    type V = OutgoingView;

    open spec fn view(&self) -> OutgoingView {
        match *self {
            Outgoing::Send { to, msg } => OutgoingView::Send { to, msg: msg@ },
            Outgoing::Broadcast { to, msg } => OutgoingView::Broadcast {
                to: to@.to_set(),
                msg: msg@,
            },
        }
    }
}

/// What a list of messages says.
pub open spec fn outs(v: Seq<Outgoing>) -> Seq<OutgoingView> {
    v.map_values(|o: Outgoing| o@)
}

/// No client gets a broadcast twice.
pub open spec fn once_each(v: Seq<Outgoing>) -> bool {
    forall|i: int|
        0 <= i < v.len() ==> (#[trigger] v[i] matches Outgoing::Broadcast { to, .. }
            ==> to@.no_duplicates())
}

/// An answer to `peer`.
pub open spec fn reply(peer: Addr, msg: messages::ServerMessageView) -> OutgoingView {
    OutgoingView::Send { to: peer, msg }
}

/// An error for `peer`.
pub open spec fn error_reply(peer: Addr, message: Seq<char>) -> Seq<OutgoingView> {
    seq![reply(peer, messages::ServerMessageView::Error { message })]
}

/// A message to the clients in a channel, but for `exclude`.
pub open spec fn to_channel(
    s: server_model::StateView,
    id: Seq<char>,
    exclude: Option<Addr>,
    msg: messages::ServerMessageView,
) -> OutgoingView {
    OutgoingView::Broadcast { to: server_model::audience(s, id, exclude), msg }
}

/// Channel infos as pairs.
pub open spec fn info_pairs(v: Seq<messages::ChannelInfoView>) -> Seq<(Seq<char>, u32)> {
    v.map_values(|c: messages::ChannelInfoView| (c.channel_id, c.participant_count))
}

/// A list of the public channels.
pub open spec fn is_channel_list(
    msg: messages::ServerMessageView,
    s: server_model::StateView,
) -> bool {
    msg matches messages::ServerMessageView::ChannelList { channels }
        && server_model::is_public_list(info_pairs(channels), s)
}

/// A list of the public channels for every client.
pub open spec fn is_list_for_all(o: OutgoingView, s: server_model::StateView) -> bool {
    o matches OutgoingView::Broadcast { to, msg } && to == s.clients.dom() && is_channel_list(
        msg,
        s,
    )
}

/// What a request for a channel leads to. Everybody is told of a new public
/// channel.
pub open spec fn create_handled(
    s: server_model::StateView,
    peer: Addr,
    name: Option<Seq<char>>,
    now: u64,
    after: server_model::StateView,
    out: Seq<OutgoingView>,
) -> bool {
    exists|r: Result<Seq<char>, Seq<char>>| #[trigger]
        server_model::create_outcome(s, name, now, after, r) && match r {
            Ok(id) => {
                &&& out.len() == if name is Some { 2nat } else { 1nat }
                &&& out[0] == reply(
                    peer,
                    messages::ServerMessageView::ChannelCreated { channel_id: id },
                )
                &&& name is Some ==> is_list_for_all(out[1], after)
            },
            Err(e) => out == error_reply(peer, e),
        }
}

/// The confirmation of a join: the names in the channel, a token that was
/// free, and the voice key.
pub open spec fn is_join_answer(
    msg: messages::ServerMessageView,
    s: server_model::StateView,
    peer: Addr,
    id: Seq<char>,
    now: u64,
    after: server_model::StateView,
) -> bool {
    msg matches messages::ServerMessageView::JoinedChannel {
        channel_id,
        participants,
        udp_token,
        voice_key,
    } && {
        &&& channel_id == id
        &&& server_model::is_roster(participants, after, id)
        &&& server_model::token_free(s, udp_token)
        &&& voice_key.len() == config::VOICE_KEY_LEN
        &&& !server_model::rotates_key(s, id) ==> voice_key == s.channel_keys[id]
        &&& after == server_model::joined(s, peer, id, udp_token, voice_key, now)
    }
}

/// The confirmation of a sound check: a new channel, a token that was free,
/// and the voice key.
pub open spec fn is_echo_answer(
    msg: messages::ServerMessageView,
    s: server_model::StateView,
    peer: Addr,
    now: u64,
    after: server_model::StateView,
) -> bool {
    msg matches messages::ServerMessageView::EchoTestReady { channel_id, udp_token, voice_key } && {
        &&& server_model::id_free(s, server_model::echo_prefix(), channel_id)
        &&& server_model::token_free(s, udp_token)
        &&& voice_key.len() == config::VOICE_KEY_LEN
        &&& after == server_model::echo_started(s, peer, channel_id, udp_token, voice_key, now)
    }
}

/// What a request to join leads to: the others in the channel are told, and
/// the client gets the names, a token and the voice key.
pub open spec fn join_handled(
    s: server_model::StateView,
    peer: Addr,
    name: Seq<char>,
    id: Seq<char>,
    now: u64,
    after: server_model::StateView,
    out: Seq<OutgoingView>,
) -> bool {
    match server_model::join_error(s, peer, id) {
        Some(e) => after == s && out == error_reply(peer, e),
        None => {
            &&& out.len() == 2
            &&& out[0] == to_channel(
                after,
                id,
                Some(peer),
                messages::ServerMessageView::PeerJoined { peer_name: name },
            )
            &&& out[1] matches OutgoingView::Send { to, msg } && to == peer && is_join_answer(
                msg,
                s,
                peer,
                id,
                now,
                after,
            )
        },
    }
}

/// What leaving leads to: the client is told, and so are those who stay.
pub open spec fn leave_handled(
    s: server_model::StateView,
    peer: Addr,
    after: server_model::StateView,
    out: Seq<OutgoingView>,
) -> bool {
    &&& after == server_model::left(s, peer)
    &&& if s.clients.dom().contains(peer) && s.clients[peer].channel is Some {
        out == seq![
            reply(peer, messages::ServerMessageView::LeftChannel),
            to_channel(
                after,
                s.clients[peer].channel->0,
                None,
                messages::ServerMessageView::PeerLeft { peer_name: s.clients[peer].name },
            ),
        ]
    } else {
        out == error_reply(peer, "not in a channel"@)
    }
}

/// What a chat message leads to: it goes to the others in the channel.
pub open spec fn chat_handled(
    s: server_model::StateView,
    peer: Addr,
    name: Seq<char>,
    body: Seq<char>,
    out: Seq<OutgoingView>,
) -> bool {
    if text::byte_len(body) > config::MAX_CHAT_LEN {
        out == error_reply(peer, "message too long"@)
    } else if s.clients.dom().contains(peer) && s.clients[peer].channel is Some {
        out == seq![
            to_channel(
                s,
                s.clients[peer].channel->0,
                Some(peer),
                messages::ServerMessageView::ChatMessage { from: name, text: body },
            ),
        ]
    } else {
        out == Seq::<OutgoingView>::empty()
    }
}

/// What a direct message leads to: it goes to the client that its recipient's
/// key is bound to, under the key of its sender.
pub open spec fn direct_handled(
    s: server_model::StateView,
    peer: Addr,
    name: Seq<char>,
    to_pubkey: Seq<u8>,
    body: Seq<char>,
    out: Seq<OutgoingView>,
) -> bool {
    if text::byte_len(body) > config::MAX_CHAT_LEN {
        out == error_reply(peer, "message too long"@)
    } else if !(s.clients.dom().contains(peer) && s.clients[peer].pubkey is Some) {
        out == error_reply(peer, "no identity, reconnect first"@)
    } else if !s.pubkey_index.dom().contains(to_pubkey) {
        out == error_reply(peer, "recipient not connected"@)
    } else {
        out == seq![
            reply(
                s.pubkey_index[to_pubkey],
                messages::ServerMessageView::DirectMessage {
                    from_pubkey: s.clients[peer].pubkey->0,
                    from_name: name,
                    text: body,
                },
            ),
        ]
    }
}

/// Whether a name, without the white space around it, can be taken.
pub open spec fn name_ok(name: Seq<char>) -> bool {
    0 < text::byte_len(name) <= config::MAX_NAME_LEN
}

/// What a request for a name leads to: the client and the others in its
/// channel are told.
pub open spec fn rename_handled(
    s: server_model::StateView,
    peer: Addr,
    name: Seq<char>,
    wanted: Seq<char>,
    after: server_model::StateView,
    name_after: Seq<char>,
    out: Seq<OutgoingView>,
) -> bool {
    let new_name = text::trimmed(wanted);
    if !name_ok(new_name) {
        &&& after == s
        &&& name_after == name
        &&& out == error_reply(peer, "name must be 1-32 characters"@)
    } else if s.clients.dom().contains(peer) {
        let c = s.clients[peer];
        let changed = messages::ServerMessageView::NameChanged { old_name: c.name, new_name };
        &&& after == server_model::renamed(s, peer, new_name)
        &&& name_after == new_name
        &&& out == match c.channel {
            Some(id) => seq![reply(peer, changed), to_channel(after, id, Some(peer), changed)],
            None => seq![reply(peer, changed)],
        }
    } else {
        after == s && name_after == name && out == Seq::<OutgoingView>::empty()
    }
}

/// What the start of a sound check leads to.
pub open spec fn echo_handled(
    s: server_model::StateView,
    peer: Addr,
    now: u64,
    after: server_model::StateView,
    out: Seq<OutgoingView>,
) -> bool {
    match server_model::echo_error(s, peer) {
        Some(e) => after == s && out == error_reply(peer, e),
        None => {
            &&& out.len() == 1
            &&& out[0] matches OutgoingView::Send { to, msg } && to == peer && is_echo_answer(
                msg,
                s,
                peer,
                now,
                after,
            )
        },
    }
}

/// What a message of the client at `peer`, called `name`, leads to.
pub open spec fn message_handled(
    s: server_model::StateView,
    peer: Addr,
    name: Seq<char>,
    msg: messages::ClientMessageView,
    now: u64,
    after: server_model::StateView,
    name_after: Seq<char>,
    out: Seq<OutgoingView>,
) -> bool {
    match msg {
        messages::ClientMessageView::Hello { pubkey, .. } => {
            &&& after == match pubkey {
                Some(pk) => server_model::key_bound(s, peer, pk),
                None => s,
            }
            &&& name_after == name
            &&& out == Seq::<OutgoingView>::empty()
        },
        messages::ClientMessageView::CreateChannel { name: wanted } => create_handled(
            s,
            peer,
            wanted,
            now,
            after,
            out,
        ) && name_after == name,
        messages::ClientMessageView::JoinChannel { channel_id } => join_handled(
            s,
            peer,
            name,
            channel_id,
            now,
            after,
            out,
        ) && name_after == name,
        messages::ClientMessageView::LeaveChannel => leave_handled(s, peer, after, out)
            && name_after == name,
        messages::ClientMessageView::ListChannels => {
            &&& after == s
            &&& name_after == name
            &&& out.len() == 1
            &&& out[0] matches OutgoingView::Send { to, msg } && to == peer && is_channel_list(
                msg,
                s,
            )
        },
        messages::ClientMessageView::ChatMessage { text } => chat_handled(
            s,
            peer,
            name,
            text,
            out,
        ) && after == s && name_after == name,
        messages::ClientMessageView::DirectMessage { to_pubkey, text } => direct_handled(
            s,
            peer,
            name,
            to_pubkey,
            text,
            out,
        ) && after == s && name_after == name,
        messages::ClientMessageView::SetName { name: wanted } => rename_handled(
            s,
            peer,
            name,
            wanted,
            after,
            name_after,
            out,
        ),
        messages::ClientMessageView::Ping => {
            &&& after == s
            &&& name_after == name
            &&& out == seq![reply(peer, messages::ServerMessageView::Pong)]
        },
        messages::ClientMessageView::StartEchoTest => echo_handled(s, peer, now, after, out)
            && name_after == name,
        messages::ClientMessageView::StopEchoTest => leave_handled(s, peer, after, out)
            && name_after == name,
    }
}

/// A single answer.
fn one(to: Addr, msg: ServerMessage) -> (out: Vec<Outgoing>)
    ensures
        outs(out@) == seq![reply(to, msg@)],
        once_each(out@),
{
    let mut out: Vec<Outgoing> = Vec::new();
    out.push(Outgoing::Send { to, msg });
    assert(outs(out@) =~= seq![reply(to, msg@)]);
    out
}

/// A single error.
fn one_error(to: Addr, message: String) -> (out: Vec<Outgoing>)
    ensures
        outs(out@) == error_reply(to, message@),
        once_each(out@),
{
    one(to, ServerMessage::Error { message })
}

/// A broadcast to the clients in a channel.
fn channel_cast(state: &ServerState, id: &str, exclude: Option<&Addr>, msg: ServerMessage) -> (o:
    Outgoing)
    ensures
        o@ == to_channel(
            state@,
            id@,
            match exclude {
                Some(a) => Some(*a),
                None => None,
            },
            msg@,
        ),
        once_each(seq![o]),
{
    let to = state.broadcast_channel_addrs(id, exclude);
    Outgoing::Broadcast { to, msg }
}

/// The message that lists the public channels.
fn channel_list(state: &ServerState) -> (msg: ServerMessage)
    ensures
        is_channel_list(msg@, state@),
{
    let list = state.list_public_channels();
    let mut channels: Vec<ChannelInfo> = Vec::new();
    let mut i: usize = 0;
    while i < list.len()
        invariant
            i <= list@.len(),
            info_pairs(messages::infos(channels@)) == state::listing(
                list@.subrange(0, i as int),
            ),
        decreases list.len() - i,
    {
        let ghost before = info_pairs(messages::infos(channels@));
        channels.push(
            ChannelInfo { channel_id: list[i].0.clone(), participant_count: list[i].1 },
        );
        i = i + 1;
        proof {
            let pair = (list@[i - 1].0@, list@[i - 1].1);
            assert(info_pairs(messages::infos(channels@)) =~= before.push(pair));
            assert(state::listing(list@.subrange(0, i as int)) =~= before.push(pair));
        }
    }
    assert(list@.subrange(0, list@.len() as int) =~= list@);
    ServerMessage::ChannelList { channels }
}

/// Two messages.
fn two(a: Outgoing, b: Outgoing) -> (out: Vec<Outgoing>)
    requires
        once_each(seq![a]),
        once_each(seq![b]),
    ensures
        outs(out@) == seq![a@, b@],
        once_each(out@),
{
    let mut out: Vec<Outgoing> = Vec::new();
    out.push(a);
    out.push(b);
    proof {
        assert(seq![a][0] == a);
        assert(seq![b][0] == b);
        assert(outs(out@) =~= seq![a@, b@]);
    }
    out
}

fn handle_create(state: &mut ServerState, peer: Addr, name: Option<String>, now: u64) -> (out: Vec<
    Outgoing,
>)
    requires
        old(state)@.wf(),
    ensures
        final(state)@.wf(),
        final(state).counters() == old(state).counters(),
        create_handled(
            old(state)@,
            peer,
            messages::opt_text(name),
            now,
            final(state)@,
            outs(out@),
        ),
        once_each(out@),
{
    let wanted: Option<&str> = match &name {
        Some(n) => Some(n.as_str()),
        None => None,
    };
    let r = state.create_channel(wanted, now);
    proof {
        assert(server_model::create_outcome(
            old(state)@,
            messages::opt_text(name),
            now,
            state@,
            messages::text_result(r),
        ));
    }
    match r {
        Ok(channel_id) => {
            let created = Outgoing::Send {
                to: peer,
                msg: ServerMessage::ChannelCreated { channel_id },
            };
            if name.is_some() {
                let all = state.client_addrs();
                let list = Outgoing::Broadcast { to: all, msg: channel_list(state) };
                two(created, list)
            } else {
                let mut out: Vec<Outgoing> = Vec::new();
                out.push(created);
                out
            }
        },
        Err(e) => one_error(peer, e),
    }
}

fn handle_join(state: &mut ServerState, peer: Addr, name: &String, channel_id: String, now: u64) -> (out:
    Vec<Outgoing>)
    requires
        old(state)@.wf(),
    ensures
        final(state)@.wf(),
        final(state).counters() == old(state).counters(),
        join_handled(
            old(state)@,
            peer,
            name@,
            channel_id@,
            now,
            final(state)@,
            outs(out@),
        ),
        once_each(out@),
{
    match state.join_channel(&peer, &channel_id, now) {
        Ok((participants, udp_token, voice_key)) => {
            let told = channel_cast(
                state,
                channel_id.as_str(),
                Some(&peer),
                ServerMessage::PeerJoined { peer_name: name.clone() },
            );
            let confirmed = Outgoing::Send {
                to: peer,
                msg: ServerMessage::JoinedChannel {
                    channel_id,
                    participants,
                    udp_token,
                    voice_key,
                },
            };
            two(told, confirmed)
        },
        Err(e) => one_error(peer, e),
    }
}

fn handle_leave(state: &mut ServerState, peer: Addr) -> (out: Vec<Outgoing>)
    requires
        old(state)@.wf(),
    ensures
        final(state)@.wf(),
        final(state).counters() == old(state).counters(),
        leave_handled(old(state)@, peer, final(state)@, outs(out@)),
        once_each(out@),
{
    match state.leave_channel(&peer) {
        Some((left_name, channel_id)) => {
            let told = channel_cast(
                state,
                channel_id.as_str(),
                None,
                ServerMessage::PeerLeft { peer_name: left_name },
            );
            two(Outgoing::Send { to: peer, msg: ServerMessage::LeftChannel }, told)
        },
        None => one_error(peer, owned("not in a channel")),
    }
}

fn handle_chat(state: &ServerState, peer: Addr, name: &String, body: String) -> (out: Vec<Outgoing>)
    ensures
        chat_handled(state@, peer, name@, body@, outs(out@)),
        once_each(out@),
{
    if utf8_len(body.as_str()) > config::MAX_CHAT_LEN {
        return one_error(peer, owned("message too long"));
    }
    let mut out: Vec<Outgoing> = Vec::new();
    assert(outs(out@) =~= Seq::<OutgoingView>::empty());
    if let Some(client) = state.get_client(&peer) {
        if let Some(channel_id) = client.channel {
            let o = channel_cast(
                state,
                channel_id.as_str(),
                Some(&peer),
                ServerMessage::ChatMessage { from: name.clone(), text: body },
            );
            out.push(o);
            proof {
                assert(seq![o][0] == o);
                assert(outs(out@) =~= seq![o@]);
            }
        }
    }
    out
}

fn handle_direct(state: &ServerState, peer: Addr, name: &String, to_pubkey: Vec<u8>, body: String) -> (out:
    Vec<Outgoing>)
    ensures
        direct_handled(state@, peer, name@, to_pubkey@, body@, outs(out@)),
        once_each(out@),
{
    if utf8_len(body.as_str()) > config::MAX_CHAT_LEN {
        return one_error(peer, owned("message too long"));
    }
    let from_pubkey: Vec<u8> = match state.get_client(&peer) {
        Some(client) => match client.pubkey {
            Some(pk) => pk,
            None => return one_error(peer, owned("no identity, reconnect first")),
        },
        None => return one_error(peer, owned("no identity, reconnect first")),
    };
    match state.lookup_pubkey(&to_pubkey) {
        Some(to) => one(
            to,
            ServerMessage::DirectMessage { from_pubkey, from_name: name.clone(), text: body },
        ),
        None => one_error(peer, owned("recipient not connected")),
    }
}

fn handle_rename(state: &mut ServerState, peer: Addr, name: &mut String, wanted: String) -> (out:
    Vec<Outgoing>)
    requires
        old(state)@.wf(),
    ensures
        final(state)@.wf(),
        final(state).counters() == old(state).counters(),
        rename_handled(
            old(state)@,
            peer,
            old(name)@,
            wanted@,
            final(state)@,
            final(name)@,
            outs(out@),
        ),
        once_each(out@),
{
    let new_name = trim(wanted.as_str());
    let len: usize = utf8_len(new_name.as_str());
    if len == 0 || len > config::MAX_NAME_LEN {
        return one_error(peer, owned("name must be 1-32 characters"));
    }
    match state.rename_client(&peer, new_name.clone()) {
        Some((old_name, channel)) => {
            *name = new_name.clone();
            let confirmed = Outgoing::Send {
                to: peer,
                msg: ServerMessage::NameChanged {
                    old_name: old_name.clone(),
                    new_name: new_name.clone(),
                },
            };
            match channel {
                Some(channel_id) => {
                    let told = channel_cast(
                        state,
                        channel_id.as_str(),
                        Some(&peer),
                        ServerMessage::NameChanged { old_name, new_name },
                    );
                    two(confirmed, told)
                },
                None => {
                    let mut out: Vec<Outgoing> = Vec::new();
                    out.push(confirmed);
                    assert(outs(out@) =~= seq![confirmed@]);
                    out
                },
            }
        },
        None => {
            let out: Vec<Outgoing> = Vec::new();
            assert(outs(out@) =~= Seq::<OutgoingView>::empty());
            out
        },
    }
}

fn handle_start_echo(state: &mut ServerState, peer: Addr, now: u64) -> (out: Vec<Outgoing>)
    requires
        old(state)@.wf(),
    ensures
        final(state)@.wf(),
        final(state).counters() == old(state).counters(),
        echo_handled(old(state)@, peer, now, final(state)@, outs(out@)),
        once_each(out@),
{
    match state.start_echo_test(&peer, now) {
        Ok((channel_id, udp_token, voice_key)) => one(
            peer,
            ServerMessage::EchoTestReady { channel_id, udp_token, voice_key },
        ),
        Err(e) => one_error(peer, e),
    }
}

/// Handles a message of the client at `peer_addr`, whose name is `name`.
/// Returns what is to be sent, in order.
pub fn handle_message(
    state: &mut ServerState,
    peer_addr: Addr,
    name: &mut String,
    msg: ClientMessage,
    now: u64,
) -> (out: Vec<Outgoing>)
    requires
        old(state)@.wf(),
    ensures
        final(state)@.wf(),
        final(state).counters() == old(state).counters(),
        message_handled(
            old(state)@,
            peer_addr,
            old(name)@,
            msg@,
            now,
            final(state)@,
            final(name)@,
            outs(out@),
        ),
        once_each(out@),
{
    match msg {
        ClientMessage::CreateChannel { name: wanted } => handle_create(
            state,
            peer_addr,
            wanted,
            now,
        ),
        ClientMessage::JoinChannel { channel_id } => handle_join(
            state,
            peer_addr,
            name,
            channel_id,
            now,
        ),
        ClientMessage::LeaveChannel => handle_leave(state, peer_addr),
        ClientMessage::ChatMessage { text } => handle_chat(state, peer_addr, name, text),
        ClientMessage::DirectMessage { to_pubkey, text } => handle_direct(
            state,
            peer_addr,
            name,
            to_pubkey,
            text,
        ),
        ClientMessage::SetName { name: wanted } => handle_rename(state, peer_addr, name, wanted),
        ClientMessage::Hello { pubkey, .. } => {
            if let Some(pk) = pubkey {
                state.set_pubkey(&peer_addr, pk);
            }
            let out: Vec<Outgoing> = Vec::new();
            assert(outs(out@) =~= Seq::<OutgoingView>::empty());
            out
        },
        ClientMessage::ListChannels => one(peer_addr, channel_list(state)),
        ClientMessage::Ping => one(peer_addr, ServerMessage::Pong),
        ClientMessage::StartEchoTest => handle_start_echo(state, peer_addr, now),
        ClientMessage::StopEchoTest => handle_leave(state, peer_addr),
    }
}

/// Why a connection is dropped.
#[derive(Debug, Clone, Copy, PartialEq, Eq, Structural)]
pub enum InputError {
    /// This many undecoded bytes piled up.
    Overflow(usize),
    /// A frame was refused.
    Frame(FrameError),
}

/// A rate or a burst, times a factor in ten-thousandths.
pub open spec fn scaled_by(v: u64, multiplier: u64) -> int {
    let n = (v * multiplier) / 10_000;
    if n <= u64::MAX {
        n
    } else {
        u64::MAX as int
    }
}

/// `v`, times a factor in ten-thousandths.
pub fn scale(v: u64, multiplier: u64) -> (r: u64)
    ensures
        r == scaled_by(v, multiplier),
{
    proof {
        let a = v as int;
        let b = multiplier as int;
        assert(0 <= a * b <= 0xffff_ffff_ffff_ffff * 0xffff_ffff_ffff_ffff) by (nonlinear_arith)
            requires
                0 <= a <= 0xffff_ffff_ffff_ffff,
                0 <= b <= 0xffff_ffff_ffff_ffff,
        ;
    }
    let n: u128 = (v as u128 * multiplier as u128) / 10_000;
    if n <= u64::MAX as u128 {
        n as u64
    } else {
        u64::MAX
    }
}

/// A connected client, as the server sees it.
pub struct Session {
    peer: Addr,
    name: String,
    inbox: Inbox,
    cmd_limiter: RateLimiter,
    create_limiter: RateLimiter,
}

/// What a session holds.
#[verifier::ext_equal]
pub struct SessionView {
    /// The TCP address of the client.
    pub peer: Addr,
    /// The name of the client.
    pub name: Seq<char>,
    /// Input that is not decoded yet.
    pub pending: Seq<u8>,
    /// The budget of commands.
    pub cmd: rate_limit::BucketView,
    /// The budget of new channels.
    pub create: rate_limit::BucketView,
}

impl View for Session {
    type V = SessionView;

    closed spec fn view(&self) -> SessionView {
        SessionView {
            peer: self.peer,
            name: self.name@,
            pending: self.inbox@,
            cmd: self.cmd_limiter@,
            create: self.create_limiter@,
        }
    }
}

/// A session that was just opened.
pub open spec fn new_session(peer: Addr, name: Seq<char>, multiplier: u64, now: u64) -> SessionView {
    SessionView {
        peer,
        name,
        pending: Seq::empty(),
        cmd: rate_limit::full_bucket(
            scaled_by(config::RATE_LIMIT_CMD_PER_SEC, multiplier) as u64,
            scaled_by(config::RATE_LIMIT_CMD_BURST, multiplier) as u64,
            now,
        ),
        create: rate_limit::full_bucket(
            scaled_by(config::RATE_LIMIT_CREATE_PER_SEC, multiplier) as u64,
            scaled_by(config::RATE_LIMIT_CREATE_BURST, multiplier) as u64,
            now,
        ),
    }
}

/// Whether a message costs nothing: keep-alives and the first message.
pub open spec fn is_free(msg: messages::ClientMessageView) -> bool {
    msg is Ping || msg is Hello
}

/// Whether a message is let through: the connection and its source address
/// have a command left, and a request for a channel also finds the budget of
/// new channels.
pub open spec fn admitted(
    s: SessionView,
    ips: rate_limit::IpLimiterView,
    msg: messages::ClientMessageView,
    now: u64,
) -> bool {
    is_free(msg) || (rate_limit::admits(s.cmd, now) && rate_limit::ip_admits(
        ips,
        addr::ip_of(s.peer),
        now,
    ) && (msg is CreateChannel ==> rate_limit::admits(s.create, now)))
}

/// The session after its budgets were asked for a message. A budget is only
/// asked when those before it agreed.
pub open spec fn charged(
    s: SessionView,
    ips: rate_limit::IpLimiterView,
    msg: messages::ClientMessageView,
    now: u64,
) -> SessionView {
    if is_free(msg) {
        s
    } else {
        SessionView {
            cmd: rate_limit::after_request(s.cmd, now),
            create: if msg is CreateChannel && rate_limit::admits(s.cmd, now)
                && rate_limit::ip_admits(ips, addr::ip_of(s.peer), now) {
                rate_limit::after_request(s.create, now)
            } else {
                s.create
            },
            ..s
        }
    }
}

/// The budgets by address after one was asked for a message.
pub open spec fn ips_charged(
    s: SessionView,
    ips: rate_limit::IpLimiterView,
    msg: messages::ClientMessageView,
    now: u64,
) -> rate_limit::IpLimiterView {
    if !is_free(msg) && rate_limit::admits(s.cmd, now) {
        rate_limit::ip_after_request(ips, addr::ip_of(s.peer), now)
    } else {
        ips
    }
}

/// What a disconnect leads to: those in the client's channel are told.
pub open spec fn disconnect_handled(
    s: server_model::StateView,
    peer: Addr,
    after: server_model::StateView,
    out: Seq<OutgoingView>,
) -> bool {
    &&& after == server_model::removed(s, peer)
    &&& if s.clients.dom().contains(peer) && s.clients[peer].channel is Some {
        out == seq![
            to_channel(
                after,
                s.clients[peer].channel->0,
                None,
                messages::ServerMessageView::PeerLeft { peer_name: s.clients[peer].name },
            ),
        ]
    } else {
        out == Seq::<OutgoingView>::empty()
    }
}

impl Session {
    /// Accepts a client, unless the server is full. Returns the session and
    /// the message that greets the client.
    pub fn connect(
        state: &mut ServerState,
        ips: &mut IpRateLimiter,
        peer: Addr,
        version: &str,
        now: u64,
    ) -> (r: Result<(Session, ServerMessage), String>)
        requires
            old(state)@.wf(),
        ensures
            final(state)@.wf(),
            final(state).counters() == old(state).counters(),
            match r {
                Ok((session, welcome)) => {
                    &&& !old(state)@.clients_full()
                    &&& final(state)@ == server_model::registered(old(state)@, peer)
                    &&& final(ips)@ == rate_limit::tracked_ip(
                        old(ips)@,
                        addr::ip_of(peer),
                        now,
                    )
                    &&& session@ == new_session(
                        peer,
                        server_model::user_name(
                            server_model::next_number(old(state)@.name_counter),
                        ),
                        if old(state)@.limits.rate_limit_multiplier >= 1 {
                            old(state)@.limits.rate_limit_multiplier
                        } else {
                            1
                        },
                        now,
                    )
                    &&& welcome@ == (messages::ServerMessageView::Welcome {
                        version: version@,
                        protocol: config::PROTOCOL_VERSION,
                    })
                },
                Err(e) => {
                    &&& old(state)@.clients_full()
                    &&& final(state)@ == old(state)@
                    &&& final(ips)@ == old(ips)@
                    &&& e@ == "server full"@
                },
            },
    {
        let m: u64 = state.rate_limit_multiplier();
        match state.register_client(peer) {
            Ok(name) => {
                ips.track(peer.ip(), now);
                let session = Session {
                    peer,
                    name,
                    inbox: Inbox::new(),
                    cmd_limiter: RateLimiter::new(
                        scale(config::RATE_LIMIT_CMD_PER_SEC, m),
                        scale(config::RATE_LIMIT_CMD_BURST, m),
                        now,
                    ),
                    create_limiter: RateLimiter::new(
                        scale(config::RATE_LIMIT_CREATE_PER_SEC, m),
                        scale(config::RATE_LIMIT_CREATE_BURST, m),
                        now,
                    ),
                };
                let welcome = ServerMessage::Welcome {
                    version: owned(version),
                    protocol: config::PROTOCOL_VERSION,
                };
                Ok((session, welcome))
            },
            Err(e) => Err(e),
        }
    }

    /// The name of the client.
    pub fn name(&self) -> (name: &str)
        ensures
            name@ == self@.name,
    {
        self.name.as_str()
    }

    /// Takes input and returns the payloads of the frames that it completes.
    /// The connection is to be dropped when too much undecoded input piles up
    /// or a frame is over the limit.
    pub fn feed(&mut self, input: &[u8]) -> (r: Result<Vec<Vec<u8>>, InputError>)
        ensures
            ({
                let all = old(self)@.pending + input@;
                match r {
                    Err(InputError::Overflow(len)) => {
                        &&& all.len() > config::MAX_PENDING_BUF
                        &&& len == all.len()
                        &&& final(self)@ == (SessionView { pending: all, ..old(self)@ })
                    },
                    Err(InputError::Frame(FrameError::TooLarge(len))) => {
                        &&& all.len() <= config::MAX_PENDING_BUF
                        &&& protocol::head_too_large(protocol::after_frames(all))
                        &&& len == protocol::announced_len(protocol::after_frames(all))
                        &&& final(self)@ == (SessionView {
                            pending: protocol::after_frames(all),
                            ..old(self)@
                        })
                    },
                    Ok(frames) => {
                        &&& all.len() <= config::MAX_PENDING_BUF
                        &&& !protocol::head_too_large(protocol::after_frames(all))
                        &&& protocol::payloads(frames@) == protocol::complete_frames(all)
                        &&& final(self)@ == (SessionView {
                            pending: protocol::after_frames(all),
                            ..old(self)@
                        })
                    },
                }
            }),
    {
        self.inbox.feed(input)
    }

    /// Asks the budgets whether a message is let through.
    fn let_through(&mut self, ips: &mut IpRateLimiter, msg: &ClientMessage, now: u64) -> (r: bool)
        ensures
            r == admitted(old(self)@, old(ips)@, msg@, now),
            final(self)@ == charged(old(self)@, old(ips)@, msg@, now),
            final(ips)@ == ips_charged(old(self)@, old(ips)@, msg@, now),
    {
        match msg {
            ClientMessage::Ping => true,
            ClientMessage::Hello { .. } => true,
            ClientMessage::CreateChannel { .. } => {
                self.cmd_limiter.check(now) && ips.check(self.peer.ip(), now)
                    && self.create_limiter.check(now)
            },
            _ => self.cmd_limiter.check(now) && ips.check(self.peer.ip(), now),
        }
    }

    /// Handles a message, or answers that the client is to slow down when a
    /// budget is used up. Returns what is to be sent, in order.
    pub fn process(
        &mut self,
        state: &mut ServerState,
        ips: &mut IpRateLimiter,
        msg: ClientMessage,
        now: u64,
    ) -> (out: Vec<Outgoing>)
        requires
            old(state)@.wf(),
        ensures
            final(state)@.wf(),
            once_each(out@),
            final(ips)@ == ips_charged(old(self)@, old(ips)@, msg@, now),
            final(self)@ == (SessionView {
                name: final(self)@.name,
                ..charged(old(self)@, old(ips)@, msg@, now)
            }),
            if admitted(old(self)@, old(ips)@, msg@, now) {
                &&& final(state).counters() == old(state).counters()
                &&& message_handled(
                    old(state)@,
                    old(self)@.peer,
                    old(self)@.name,
                    msg@,
                    now,
                    final(state)@,
                    final(self)@.name,
                    outs(out@),
                )
            } else {
                &&& final(self)@.name == old(self)@.name
                &&& final(state)@ == old(state)@
                &&& final(state).counters() == (crate::metrics::Metrics {
                    tcp_rate_limited: old(state).counters().tcp_rate_limited.wrapping_add(1),
                    ..old(state).counters()
                })
                &&& outs(out@) == error_reply(old(self)@.peer, "rate limited, slow down"@)
            },
    {
        if !self.let_through(ips, &msg, now) {
            let mut m = *state.metrics();
            m.tcp_rate_limited = m.tcp_rate_limited.wrapping_add(1);
            state.set_metrics(m);
            return one_error(self.peer, owned("rate limited, slow down"));
        }
        handle_message(state, self.peer, &mut self.name, msg, now)
    }

    /// Removes the client from the server. Returns what is to be sent.
    pub fn disconnect(self, state: &mut ServerState, ips: &mut IpRateLimiter, now: u64) -> (out: Vec<
        Outgoing,
    >)
        requires
            old(state)@.wf(),
        ensures
            final(state)@.wf(),
            final(state).counters() == old(state).counters(),
            final(ips)@ == rate_limit::untracked_ip(old(ips)@, addr::ip_of(self@.peer), now),
            disconnect_handled(old(state)@, self@.peer, final(state)@, outs(out@)),
            once_each(out@),
    {
        ips.untrack(self.peer.ip(), now);
        let mut out: Vec<Outgoing> = Vec::new();
        if let Some((left_name, Some(channel_id))) = state.remove_client(&self.peer) {
            let o = channel_cast(
                state,
                channel_id.as_str(),
                None,
                ServerMessage::PeerLeft { peer_name: left_name },
            );
            out.push(o);
            proof {
                assert(seq![o][0] == o);
                assert(outs(out@) =~= seq![o@]);
            }
        } else {
            assert(outs(out@) =~= Seq::<OutgoingView>::empty());
        }
        out
    }
}

/// Runs maintenance. When a public channel went away, everybody gets the new
/// list.
pub fn maintain(state: &mut ServerState, now: u64) -> (out: Vec<Outgoing>)
    requires
        old(state)@.wf(),
    ensures
        final(state)@.wf(),
        final(state).counters() == old(state).counters(),
        final(state)@ == server_model::cleaned(
            old(state)@,
            state::CHANNEL_GRACE_NS,
            state::UDP_TOKEN_TTL_NS,
            now,
        ),
        once_each(out@),
        if exists|id: Seq<char>|
            server_model::is_public(id) && #[trigger] server_model::reapable(
                old(state)@,
                id,
                state::CHANNEL_GRACE_NS,
                now,
            ) {
            out@.len() == 1 && is_list_for_all(outs(out@)[0], final(state)@)
        } else {
            out@.len() == 0
        },
{
    let gone = state.cleanup_empty_channels(now);
    let mut public_gone = false;
    let mut i: usize = 0;
    while i < gone.len()
        invariant
            i <= gone@.len(),
            public_gone <==> exists|j: int|
                0 <= j < i && server_model::is_public(#[trigger] messages::texts(gone@)[j]),
        decreases gone.len() - i,
    {
        assert(messages::texts(gone@)[i as int] == gone@[i as int]@);
        if starts_with(gone[i].as_str(), config::PUBLIC_CHANNEL_PREFIX) {
            public_gone = true;
        }
        i = i + 1;
    }
    let mut out: Vec<Outgoing> = Vec::new();
    if public_gone {
        let all = state.client_addrs();
        out.push(Outgoing::Broadcast { to: all, msg: channel_list(state) });
        proof {
            let j = choose|j: int|
                0 <= j < gone@.len() && server_model::is_public(
                    #[trigger] messages::texts(gone@)[j],
                );
            let id = messages::texts(gone@)[j];
            assert(messages::texts(gone@).contains(id));
        }
    } else {
        proof {
            assert forall|id: Seq<char>|
                server_model::is_public(id) implies !#[trigger] server_model::reapable(
                old(state)@,
                id,
                state::CHANNEL_GRACE_NS,
                now,
            ) by {
                if messages::texts(gone@).contains(id) {
                    let j = choose|j: int|
                        0 <= j < messages::texts(gone@).len() && messages::texts(gone@)[j] == id;
                    assert(server_model::is_public(messages::texts(gone@)[j]));
                }
            }
        }
    }
    out
}

/// The notice that the server stops, for every client.
pub fn shutdown_notice(state: &ServerState) -> (o: Outgoing)
    ensures
        o@ == (OutgoingView::Broadcast {
            to: state@.clients.dom(),
            msg: messages::ServerMessageView::Error { message: "server shutting down"@ },
        }),
        once_each(seq![o]),
{
    Outgoing::Broadcast {
        to: state.client_addrs(),
        msg: ServerMessage::Error { message: owned("server shutting down") },
    }
}

/// A request that is answered with an error changes nothing: neither the
/// server nor the name of the client.
pub proof fn law_refusal_changes_nothing(
    s: server_model::StateView,
    peer: Addr,
    name: Seq<char>,
    msg: messages::ClientMessageView,
    now: u64,
    after: server_model::StateView,
    name_after: Seq<char>,
    out: Seq<OutgoingView>,
    message: Seq<char>,
)
    requires
        message_handled(s, peer, name, msg, now, after, name_after, out),
        out == error_reply(peer, message),
    ensures
        after == s,
        name_after == name,
{
    assert(out[0] == reply(peer, messages::ServerMessageView::Error { message }));
    if msg is LeaveChannel || msg is StopEchoTest {
        if s.clients.dom().contains(peer) && s.clients[peer].channel is Some {
            assert(out[0] == reply(peer, messages::ServerMessageView::LeftChannel));
        }
    }
}

/// Text goes to those who share the channel with its author, and not back to
/// its author.
pub proof fn law_chat_stays_in_channel(
    s: server_model::StateView,
    peer: Addr,
    name: Seq<char>,
    body: Seq<char>,
    out: Seq<OutgoingView>,
    i: int,
    reader: Addr,
)
    requires
        chat_handled(s, peer, name, body, out),
        0 <= i < out.len(),
        out[i] matches OutgoingView::Broadcast { to, .. } && to.contains(reader),
    ensures
        reader != peer,
        s.clients.dom().contains(reader),
        s.clients.dom().contains(peer),
        s.clients[reader].channel is Some,
        s.clients[reader].channel == s.clients[peer].channel,
{
}

/// Everybody else in the channel reads what is said in it.
pub proof fn law_chat_reaches_the_others(
    s: server_model::StateView,
    peer: Addr,
    name: Seq<char>,
    body: Seq<char>,
    out: Seq<OutgoingView>,
    reader: Addr,
)
    requires
        chat_handled(s, peer, name, body, out),
        text::byte_len(body) <= config::MAX_CHAT_LEN,
        s.clients.dom().contains(peer),
        s.clients[peer].channel is Some,
        s.clients.dom().contains(reader),
        s.clients[reader].channel == s.clients[peer].channel,
        reader != peer,
    ensures
        out.len() == 1,
        out[0] matches OutgoingView::Broadcast { to, msg } && to.contains(reader) && msg
            == (messages::ServerMessageView::ChatMessage { from: name, text: body }),
{
}

} // verus!
