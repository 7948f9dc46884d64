//! What clients hear of each other, whatever they ask of the server.

use vstd::prelude::*;

use crate::addr;
use crate::addr::Addr;
use crate::config;
use crate::messages;
use crate::rate_limit;
use crate::server_laws;
use crate::server_model;
use crate::session;
use crate::text;

verus! {

/// The messages that the client at `a` gets, in the order in which they go out.
pub open spec fn delivered(out: Seq<session::OutgoingView>, a: Addr) -> Seq<
    messages::ServerMessageView,
>
    decreases out.len(),
{
    if out.len() == 0 {
        Seq::empty()
    } else {
        let before = delivered(out.drop_last(), a);
        match out.last() {
            session::OutgoingView::Send { to, msg } => if to == a {
                before.push(msg)
            } else {
                before
            },
            session::OutgoingView::Broadcast { to, msg } => if to.contains(a) {
                before.push(msg)
            } else {
                before
            },
        }
    }
}

/// Whether an outgoing message reaches the client at `a`.
spec fn reaches(o: session::OutgoingView, a: Addr) -> bool {
    match o {
        session::OutgoingView::Send { to, .. } => to == a,
        session::OutgoingView::Broadcast { to, .. } => to.contains(a),
    }
}

/// What an outgoing message says.
spec fn content(o: session::OutgoingView) -> messages::ServerMessageView {
    match o {
        session::OutgoingView::Send { msg, .. } => msg,
        session::OutgoingView::Broadcast { msg, .. } => msg,
    }
}

proof fn lemma_delivered(out: Seq<session::OutgoingView>, a: Addr)
    requires
        out.len() <= 2,
    ensures
        out.len() == 0 ==> delivered(out, a) == Seq::<messages::ServerMessageView>::empty(),
        out.len() == 1 ==> delivered(out, a) == if reaches(out[0], a) {
            seq![content(out[0])]
        } else {
            Seq::empty()
        },
        out.len() == 2 ==> delivered(out, a) == (if reaches(out[0], a) {
            seq![content(out[0])]
        } else {
            Seq::empty()
        }) + (if reaches(out[1], a) {
            seq![content(out[1])]
        } else {
            Seq::empty()
        }),
{
    reveal_with_fuel(delivered, 3);
    if out.len() == 1 {
        assert(out.drop_last() =~= Seq::<session::OutgoingView>::empty());
        assert(delivered(out, a) =~= if reaches(out[0], a) {
            seq![content(out[0])]
        } else {
            Seq::empty()
        });
    } else if out.len() == 2 {
        let one = out.drop_last();
        assert(one.drop_last() =~= Seq::<session::OutgoingView>::empty());
        assert(one.last() == out[0]);
        assert(delivered(one, a) =~= if reaches(out[0], a) {
            seq![content(out[0])]
        } else {
            Seq::empty()
        });
        assert(delivered(out, a) =~= (if reaches(out[0], a) {
            seq![content(out[0])]
        } else {
            Seq::empty()
        }) + (if reaches(out[1], a) {
            seq![content(out[1])]
        } else {
            Seq::empty()
        }));
    }
}

/// When the connection of a client in a channel ends, everybody else in the
/// channel is told once that this client left, stays where they are, and is
/// told nothing else. Nobody outside the channel hears of it, and the client
/// is gone.
pub proof fn law_disconnect_is_told(
    s: server_model::StateView,
    peer: Addr,
    after: server_model::StateView,
    out: Seq<session::OutgoingView>,
    id: Seq<char>,
    other: Addr,
)
    requires
        s.wf(),
        session::disconnect_handled(s, peer, after, out),
        s.clients.dom().contains(peer),
        s.clients[peer].channel == Some(id),
        s.clients.dom().contains(other),
        other != peer,
    ensures
        s.clients[other].channel == Some(id) ==> delivered(out, other) == seq![
            messages::ServerMessageView::PeerLeft { peer_name: s.clients[peer].name },
        ],
        s.clients[other].channel != Some(id) ==> delivered(out, other) == Seq::<
            messages::ServerMessageView,
        >::empty(),
        delivered(out, peer) == Seq::<messages::ServerMessageView>::empty(),
        !after.clients.dom().contains(peer),
        after.clients.dom().contains(other),
        after.clients[other] == s.clients[other],
{
    assert(after.clients =~= s.clients.remove(peer));
    assert(after.members(id).contains(other) <==> s.clients[other].channel == Some(id));
    assert(!after.members(id).contains(peer));
    lemma_delivered(out, other);
    lemma_delivered(out, peer);
}

/// When a client outside any channel disconnects, nobody is told.
pub proof fn law_idle_disconnect_is_silent(
    s: server_model::StateView,
    peer: Addr,
    after: server_model::StateView,
    out: Seq<session::OutgoingView>,
    other: Addr,
)
    requires
        session::disconnect_handled(s, peer, after, out),
        s.clients.dom().contains(peer),
        s.clients[peer].channel is None,
    ensures
        delivered(out, other) == Seq::<messages::ServerMessageView>::empty(),
        after.clients == s.clients.remove(peer),
{
    lemma_delivered(out, other);
}

/// Leaving a channel, or ending a sound check, is confirmed to the client and
/// told once to everybody who stays. The client is in no channel then, and
/// nobody else is moved.
pub proof fn law_leaving_is_told(
    s: server_model::StateView,
    peer: Addr,
    name: Seq<char>,
    msg: messages::ClientMessageView,
    now: u64,
    after: server_model::StateView,
    name_after: Seq<char>,
    out: Seq<session::OutgoingView>,
    id: Seq<char>,
    other: Addr,
)
    requires
        s.wf(),
        msg is LeaveChannel || msg is StopEchoTest,
        session::message_handled(s, peer, name, msg, now, after, name_after, out),
        s.clients.dom().contains(peer),
        s.clients[peer].channel == Some(id),
        s.clients.dom().contains(other),
        other != peer,
    ensures
        delivered(out, peer) == seq![messages::ServerMessageView::LeftChannel],
        s.clients[other].channel == Some(id) ==> delivered(out, other) == seq![
            messages::ServerMessageView::PeerLeft { peer_name: s.clients[peer].name },
        ],
        s.clients[other].channel != Some(id) ==> delivered(out, other) == Seq::<
            messages::ServerMessageView,
        >::empty(),
        after.clients.dom().contains(peer),
        after.clients[peer].channel is None,
        after.clients[peer].udp_addr is None,
        after.clients[peer].name == s.clients[peer].name,
        after.clients[peer].pubkey == s.clients[peer].pubkey,
        after.clients.dom().contains(other),
        after.clients[other] == s.clients[other],
        name_after == name,
{
    assert(after.members(id).contains(other) <==> s.clients[other].channel == Some(id));
    assert(!after.members(id).contains(peer));
    lemma_delivered(out, other);
    lemma_delivered(out, peer);
    let told = messages::ServerMessageView::PeerLeft { peer_name: s.clients[peer].name };
    assert(delivered(out, peer) =~= seq![messages::ServerMessageView::LeftChannel]);
    if s.clients[other].channel == Some(id) {
        assert(delivered(out, other) =~= seq![told]);
    } else {
        assert(delivered(out, other) =~= Seq::<messages::ServerMessageView>::empty());
    }
}

/// A client that is in no channel cannot leave one: it alone is told so.
pub proof fn law_leaving_nothing_is_refused(
    s: server_model::StateView,
    peer: Addr,
    name: Seq<char>,
    msg: messages::ClientMessageView,
    now: u64,
    after: server_model::StateView,
    name_after: Seq<char>,
    out: Seq<session::OutgoingView>,
    other: Addr,
)
    requires
        msg is LeaveChannel || msg is StopEchoTest,
        session::message_handled(s, peer, name, msg, now, after, name_after, out),
        s.clients.dom().contains(peer),
        s.clients[peer].channel is None,
        other != peer,
    ensures
        delivered(out, peer) == seq![
            messages::ServerMessageView::Error { message: "not in a channel"@ },
        ],
        delivered(out, other) == Seq::<messages::ServerMessageView>::empty(),
        after == s,
{
    lemma_delivered(out, other);
    lemma_delivered(out, peer);
}

/// A client that joins a channel is told who is in it, under which key they
/// speak, and which token to register with; everybody who was in it is told
/// once who came. The client is in the channel then, and nobody is moved.
pub proof fn law_joining_is_told(
    s: server_model::StateView,
    peer: Addr,
    name: Seq<char>,
    now: u64,
    after: server_model::StateView,
    name_after: Seq<char>,
    out: Seq<session::OutgoingView>,
    id: Seq<char>,
    other: Addr,
)
    requires
        s.wf(),
        session::message_handled(
            s,
            peer,
            name,
            messages::ClientMessageView::JoinChannel { channel_id: id },
            now,
            after,
            name_after,
            out,
        ),
        s.channels.dom().contains(id),
        s.clients.dom().contains(peer),
        s.clients[peer].channel is None,
        !server_model::tokens_exhausted(s),
        s.clients.dom().contains(other),
        other != peer,
    ensures
        delivered(out, peer).len() == 1,
        delivered(out, peer)[0] matches messages::ServerMessageView::JoinedChannel {
            channel_id,
            participants,
            udp_token,
            voice_key,
        } && {
            &&& channel_id == id
            &&& participants.contains(s.clients[peer].name)
            &&& s.clients[other].channel == Some(id) ==> participants.contains(
                s.clients[other].name,
            )
            &&& s.clients[other].channel == Some(id) ==> voice_key == s.channel_keys[id]
            &&& voice_key == after.channel_keys[id]
            &&& udp_token != 0
            &&& !s.udp_tokens.dom().contains(udp_token)
            &&& after.udp_tokens.dom().contains(udp_token)
            &&& after.udp_tokens[udp_token].0 == peer
            &&& after.udp_tokens[udp_token].1 == id
        },
        s.clients[other].channel == Some(id) ==> delivered(out, other) == seq![
            messages::ServerMessageView::PeerJoined { peer_name: name },
        ],
        s.clients[other].channel != Some(id) ==> delivered(out, other) == Seq::<
            messages::ServerMessageView,
        >::empty(),
        after.clients[peer].channel == Some(id),
        after.clients[peer].name == s.clients[peer].name,
        after.clients.dom() == s.clients.dom(),
        after.clients[other] == s.clients[other],
        after.channels == s.channels,
        name_after == name,
{
    lemma_delivered(out, other);
    lemma_delivered(out, peer);
    assert(after.clients.dom() =~= s.clients.dom());
    assert(after.members(id).contains(other) <==> s.clients[other].channel == Some(id));
    assert(after.members(id).contains(peer));
    if s.clients[other].channel == Some(id) {
        assert(s.members(id).contains(other));
        assert(delivered(out, other) =~= seq![
            messages::ServerMessageView::PeerJoined { peer_name: name },
        ]);
    } else {
        assert(delivered(out, other) =~= Seq::<messages::ServerMessageView>::empty());
    }
    let answer = content(out[1]);
    assert(delivered(out, peer) =~= seq![answer]);
    if let messages::ServerMessageView::JoinedChannel { participants, .. } = answer {
        let order = choose|order: Seq<Addr>|
            server_model::enumerates(order, after.members(id)) && participants
                == #[trigger] server_model::names_of(after, order);
        lemma_listed(after, order, id, participants, peer);
        if s.clients[other].channel == Some(id) {
            lemma_listed(after, order, id, participants, other);
        }
    }
}

proof fn lemma_listed(
    s: server_model::StateView,
    order: Seq<Addr>,
    id: Seq<char>,
    names: Seq<Seq<char>>,
    a: Addr,
)
    requires
        server_model::enumerates(order, s.members(id)),
        names == server_model::names_of(s, order),
        s.members(id).contains(a),
    ensures
        names.contains(s.clients[a].name),
{
    assert(order.to_set().contains(a));
    let i = choose|i: int| 0 <= i < order.len() && order[i] == a;
    assert(names[i] == s.clients[a].name);
}

/// Who is listed to a client that joins is in the channel, and everybody in it
/// is listed once.
pub proof fn law_roster_is_exact(
    s: server_model::StateView,
    id: Seq<char>,
    names: Seq<Seq<char>>,
    i: int,
)
    requires
        server_model::is_roster(names, s, id),
        s.clients.dom().finite(),
        0 <= i < names.len(),
    ensures
        names.len() == s.members(id).len(),
        exists|a: Addr| #[trigger]
            s.clients.dom().contains(a) && s.clients[a].channel == Some(id) && s.clients[a].name
                == names[i],
{
    let order = choose|order: Seq<Addr>|
        server_model::enumerates(order, s.members(id)) && names
            == #[trigger] server_model::names_of(s, order);
    order.unique_seq_to_set();
    assert(order.to_set().contains(order[i]));
    assert(s.members(id).contains(order[i]));
    assert(names[i] == s.clients[order[i]].name);
}

/// A join that cannot be is refused to its client alone, and changes nothing:
/// the channel does not exist, or the client is in one already.
pub proof fn law_bad_join_is_refused(
    s: server_model::StateView,
    peer: Addr,
    name: Seq<char>,
    now: u64,
    after: server_model::StateView,
    name_after: Seq<char>,
    out: Seq<session::OutgoingView>,
    id: Seq<char>,
    other: Addr,
)
    requires
        session::message_handled(
            s,
            peer,
            name,
            messages::ClientMessageView::JoinChannel { channel_id: id },
            now,
            after,
            name_after,
            out,
        ),
        !s.channels.dom().contains(id) || !s.clients.dom().contains(peer)
            || s.clients[peer].channel is Some,
        other != peer,
    ensures
        delivered(out, peer).len() == 1,
        delivered(out, peer)[0] is Error,
        !s.channels.dom().contains(id) ==> delivered(out, peer)[0] == (
        messages::ServerMessageView::Error { message: "channel '"@ + id + "' not found"@ }),
        s.channels.dom().contains(id) && s.clients.dom().contains(peer) ==> delivered(out, peer)[0]
            == (messages::ServerMessageView::Error {
            message: "already in a channel, leave first"@,
        }),
        delivered(out, other) == Seq::<messages::ServerMessageView>::empty(),
        after == s,
{
    lemma_delivered(out, other);
    lemma_delivered(out, peer);
}

/// What is said in a channel reaches everybody else in it once, under the name
/// of its author, and nobody else; it changes nothing.
pub proof fn law_chat_is_heard(
    s: server_model::StateView,
    peer: Addr,
    name: Seq<char>,
    body: Seq<char>,
    now: u64,
    after: server_model::StateView,
    name_after: Seq<char>,
    out: Seq<session::OutgoingView>,
    id: Seq<char>,
    other: Addr,
)
    requires
        session::message_handled(
            s,
            peer,
            name,
            messages::ClientMessageView::ChatMessage { text: body },
            now,
            after,
            name_after,
            out,
        ),
        s.clients.dom().contains(peer),
        s.clients[peer].channel == Some(id),
        text::byte_len(body) <= config::MAX_CHAT_LEN,
        other != peer,
    ensures
        s.clients.dom().contains(other) && s.clients[other].channel == Some(id) ==> delivered(
            out,
            other,
        ) == seq![messages::ServerMessageView::ChatMessage { from: name, text: body }],
        !(s.clients.dom().contains(other) && s.clients[other].channel == Some(id)) ==> delivered(
            out,
            other,
        ) == Seq::<messages::ServerMessageView>::empty(),
        delivered(out, peer) == Seq::<messages::ServerMessageView>::empty(),
        after == s,
        name_after == name,
{
    lemma_delivered(out, other);
    lemma_delivered(out, peer);
    assert(s.members(id).contains(other) <==> s.clients.dom().contains(other)
        && s.clients[other].channel == Some(id));
}

/// Text that is too long is refused to its author alone; text outside any
/// channel goes nowhere.
pub proof fn law_bad_chat_goes_nowhere(
    s: server_model::StateView,
    peer: Addr,
    name: Seq<char>,
    body: Seq<char>,
    now: u64,
    after: server_model::StateView,
    name_after: Seq<char>,
    out: Seq<session::OutgoingView>,
    other: Addr,
)
    requires
        session::message_handled(
            s,
            peer,
            name,
            messages::ClientMessageView::ChatMessage { text: body },
            now,
            after,
            name_after,
            out,
        ),
        text::byte_len(body) > config::MAX_CHAT_LEN || !s.clients.dom().contains(peer)
            || s.clients[peer].channel is None,
        other != peer,
    ensures
        delivered(out, peer) == if text::byte_len(body) > config::MAX_CHAT_LEN {
            seq![messages::ServerMessageView::Error { message: "message too long"@ }]
        } else {
            Seq::empty()
        },
        delivered(out, other) == Seq::<messages::ServerMessageView>::empty(),
        after == s,
{
    lemma_delivered(out, other);
    lemma_delivered(out, peer);
}

/// A direct message reaches the client that presented the recipient's key last,
/// and nobody else, under the name and the key of its author.
pub proof fn law_direct_message_arrives(
    s: server_model::StateView,
    peer: Addr,
    name: Seq<char>,
    to_pubkey: Seq<u8>,
    body: Seq<char>,
    now: u64,
    after: server_model::StateView,
    name_after: Seq<char>,
    out: Seq<session::OutgoingView>,
    from_pubkey: Seq<u8>,
    other: Addr,
)
    requires
        session::message_handled(
            s,
            peer,
            name,
            messages::ClientMessageView::DirectMessage { to_pubkey, text: body },
            now,
            after,
            name_after,
            out,
        ),
        s.clients.dom().contains(peer),
        s.clients[peer].pubkey == Some(from_pubkey),
        text::byte_len(body) <= config::MAX_CHAT_LEN,
    ensures
        s.pubkey_index.dom().contains(to_pubkey) ==> {
            &&& delivered(out, s.pubkey_index[to_pubkey]) == seq![
                messages::ServerMessageView::DirectMessage {
                    from_pubkey,
                    from_name: name,
                    text: body,
                },
            ]
            &&& other != s.pubkey_index[to_pubkey] ==> delivered(out, other) == Seq::<
                messages::ServerMessageView,
            >::empty()
        },
        !s.pubkey_index.dom().contains(to_pubkey) ==> {
            &&& delivered(out, peer) == seq![
                messages::ServerMessageView::Error { message: "recipient not connected"@ },
            ]
            &&& other != peer ==> delivered(out, other) == Seq::<
                messages::ServerMessageView,
            >::empty()
        },
        after == s,
{
    lemma_delivered(out, other);
    lemma_delivered(out, peer);
    if s.pubkey_index.dom().contains(to_pubkey) {
        lemma_delivered(out, s.pubkey_index[to_pubkey]);
    }
}

/// A new name is told once to the client and to everybody in its channel, with
/// the name that it replaces, and to nobody else. The name is the wanted one
/// without the white space around it.
pub proof fn law_rename_is_told(
    s: server_model::StateView,
    peer: Addr,
    name: Seq<char>,
    wanted: Seq<char>,
    now: u64,
    after: server_model::StateView,
    name_after: Seq<char>,
    out: Seq<session::OutgoingView>,
    other: Addr,
)
    requires
        session::message_handled(
            s,
            peer,
            name,
            messages::ClientMessageView::SetName { name: wanted },
            now,
            after,
            name_after,
            out,
        ),
        s.clients.dom().contains(peer),
        0 < text::byte_len(text::trimmed(wanted)) <= config::MAX_NAME_LEN,
        s.clients.dom().contains(other),
        other != peer,
    ensures
        ({
            let told = messages::ServerMessageView::NameChanged {
                old_name: s.clients[peer].name,
                new_name: text::trimmed(wanted),
            };
            &&& delivered(out, peer) == seq![told]
            &&& delivered(out, other) == if s.clients[peer].channel is Some
                && s.clients[other].channel == s.clients[peer].channel {
                seq![told]
            } else {
                Seq::empty()
            }
        }),
        after.clients[peer].name == text::trimmed(wanted),
        after.clients[peer].channel == s.clients[peer].channel,
        after.clients[peer].pubkey == s.clients[peer].pubkey,
        after.clients.dom() == s.clients.dom(),
        after.clients[other] == s.clients[other],
        after.channels == s.channels,
        name_after == text::trimmed(wanted),
{
    lemma_delivered(out, other);
    lemma_delivered(out, peer);
    assert(after.clients.dom() =~= s.clients.dom());
    let told = messages::ServerMessageView::NameChanged {
        old_name: s.clients[peer].name,
        new_name: text::trimmed(wanted),
    };
    if let Some(id) = s.clients[peer].channel {
        assert(after.members(id).contains(other) <==> s.clients[other].channel == Some(id));
        assert(out[0] == session::reply(peer, told));
    }
    assert(delivered(out, peer) =~= seq![told]);
    assert(delivered(out, other) =~= if s.clients[peer].channel is Some && s.clients[other].channel
        == s.clients[peer].channel {
        seq![told]
    } else {
        Seq::empty()
    });
}

/// A name that is empty or too long is refused to its client alone, which keeps
/// the one it has.
pub proof fn law_bad_name_is_refused(
    s: server_model::StateView,
    peer: Addr,
    name: Seq<char>,
    wanted: Seq<char>,
    now: u64,
    after: server_model::StateView,
    name_after: Seq<char>,
    out: Seq<session::OutgoingView>,
    other: Addr,
)
    requires
        session::message_handled(
            s,
            peer,
            name,
            messages::ClientMessageView::SetName { name: wanted },
            now,
            after,
            name_after,
            out,
        ),
        text::byte_len(text::trimmed(wanted)) == 0 || text::byte_len(text::trimmed(wanted))
            > config::MAX_NAME_LEN,
        other != peer,
    ensures
        delivered(out, peer) == seq![
            messages::ServerMessageView::Error { message: "name must be 1-32 characters"@ },
        ],
        delivered(out, other) == Seq::<messages::ServerMessageView>::empty(),
        after == s,
        name_after == name,
{
    lemma_delivered(out, other);
    lemma_delivered(out, peer);
}

/// A new channel is told to the client that asked for it; it exists then, and
/// nobody is in it. A named one bears the name after its prefix, and every
/// client gets a new list with it.
pub proof fn law_channel_is_created(
    s: server_model::StateView,
    peer: Addr,
    name: Seq<char>,
    wanted: Option<Seq<char>>,
    now: u64,
    after: server_model::StateView,
    name_after: Seq<char>,
    out: Seq<session::OutgoingView>,
    other: Addr,
)
    requires
        s.wf(),
        session::message_handled(
            s,
            peer,
            name,
            messages::ClientMessageView::CreateChannel { name: wanted },
            now,
            after,
            name_after,
            out,
        ),
        s.limits.max_channels == 0,
        match wanted {
            Some(n) => !s.channels.dom().contains(config::PUBLIC_CHANNEL_PREFIX@ + n),
            None => !server_model::ids_exhausted(s, Seq::empty()),
        },
        s.clients.dom().contains(peer),
        s.clients.dom().contains(other),
        other != peer,
    ensures
        delivered(out, peer).len() >= 1,
        delivered(out, peer)[0] matches messages::ServerMessageView::ChannelCreated { channel_id }
            && {
            &&& wanted matches Some(n) ==> channel_id == config::PUBLIC_CHANNEL_PREFIX@ + n
            &&& !s.channels.dom().contains(channel_id)
            &&& after.channels == s.channels.insert(channel_id, Set::empty())
            &&& after.channel_keys[channel_id].len() == config::VOICE_KEY_LEN
            &&& after.channel_created_at[channel_id] == now
        },
        wanted is Some ==> delivered(out, other).len() == 1 && delivered(out, other)[0]
            is ChannelList && delivered(out, peer).len() == 2 && delivered(out, peer)[1]
            == delivered(out, other)[0],
        wanted is None ==> delivered(out, other) == Seq::<messages::ServerMessageView>::empty()
            && delivered(out, peer).len() == 1,
        after.clients == s.clients,
        after.persistent == s.persistent,
        name_after == name,
{
    lemma_delivered(out, other);
    lemma_delivered(out, peer);
    let r = choose|r: Result<Seq<char>, Seq<char>>| #[trigger]
        server_model::create_outcome(s, wanted, now, after, r) && match r {
            Ok(id) => {
                &&& out.len() == if wanted is Some { 2nat } else { 1nat }
                &&& out[0] == session::reply(
                    peer,
                    messages::ServerMessageView::ChannelCreated { channel_id: id },
                )
                &&& wanted is Some ==> session::is_list_for_all(out[1], after)
            },
            Err(e) => out == session::error_reply(peer, e),
        };
    assert(r is Ok);
    let id = r->Ok_0;
    let key = choose|key: Seq<u8>|
        key.len() == config::VOICE_KEY_LEN && after == #[trigger] server_model::opened(
            s,
            id,
            key,
            now,
        );
    assert(after == server_model::opened(s, id, key, now));
    if wanted is Some {
        assert(reaches(out[1], peer));
        assert(reaches(out[1], other));
        assert(delivered(out, peer) =~= seq![content(out[0]), content(out[1])]);
        assert(delivered(out, other) =~= seq![content(out[1])]);
    }
}

/// A list of channels holds every public channel once, with the number of
/// clients in it, and no other.
pub proof fn law_list_is_complete(
    s: server_model::StateView,
    msg: messages::ServerMessageView,
    channels: Seq<messages::ChannelInfoView>,
    id: Seq<char>,
)
    requires
        msg == (messages::ServerMessageView::ChannelList { channels }),
        session::is_channel_list(msg, s),
        s.clients.dom().len() <= u32::MAX,
        s.clients.dom().finite(),
    ensures
        s.channels.dom().contains(id) && text::has_prefix(id, config::PUBLIC_CHANNEL_PREFIX@)
            <==> exists|i: int| 0 <= i < channels.len() && (#[trigger] channels[i]).channel_id == id,
        forall|i: int|
            0 <= i < channels.len() ==> (#[trigger] channels[i]).participant_count == s.members(
                channels[i].channel_id,
            ).len(),
        forall|i: int, j: int|
            0 <= i < j < channels.len() ==> (#[trigger] channels[i]).channel_id != (
            #[trigger] channels[j]).channel_id,
{
    let list = session::info_pairs(channels);
    let order = choose|order: Seq<Seq<char>>|
        {
            &&& order.no_duplicates()
            &&& order.to_set() == s.channels.dom().filter(
                |id: Seq<char>| server_model::is_public(id),
            )
            &&& list == #[trigger] server_model::occupancy(s, order)
        };
    assert(channels.len() == list.len() == order.len());
    assert forall|i: int| 0 <= i < channels.len() implies (#[trigger] channels[i]).channel_id
        == order[i] && channels[i].participant_count == s.members(order[i]).len() by {
        assert(list[i] == (channels[i].channel_id, channels[i].participant_count));
        assert(server_model::occupancy(s, order)[i] == (
            order[i],
            s.members(order[i]).len() as u32,
        ));
        assert(s.members(order[i]).subset_of(s.clients.dom()));
        vstd::set_lib::lemma_len_subset(s.members(order[i]), s.clients.dom());
    }
    if s.channels.dom().contains(id) && text::has_prefix(id, config::PUBLIC_CHANNEL_PREFIX@) {
        assert(order.to_set().contains(id));
        let i = choose|i: int| 0 <= i < order.len() && order[i] == id;
        assert(channels[i].channel_id == id);
    }
    if exists|i: int| 0 <= i < channels.len() && (#[trigger] channels[i]).channel_id == id {
        let i = choose|i: int| 0 <= i < channels.len() && (#[trigger] channels[i]).channel_id == id;
        assert(order[i] == id);
        assert(order.to_set().contains(id));
    }
    assert forall|i: int, j: int| 0 <= i < j < channels.len() implies (
    #[trigger] channels[i]).channel_id != (#[trigger] channels[j]).channel_id by {
        assert(order[i] != order[j]);
    }
}

/// A client that asks for the list of channels gets it, and a keep-alive is
/// answered; nobody else hears of either, and nothing changes.
pub proof fn law_questions_are_answered(
    s: server_model::StateView,
    peer: Addr,
    name: Seq<char>,
    msg: messages::ClientMessageView,
    now: u64,
    after: server_model::StateView,
    name_after: Seq<char>,
    out: Seq<session::OutgoingView>,
    other: Addr,
)
    requires
        session::message_handled(s, peer, name, msg, now, after, name_after, out),
        msg is ListChannels || msg is Ping,
        other != peer,
    ensures
        delivered(out, peer).len() == 1,
        msg is ListChannels ==> session::is_channel_list(delivered(out, peer)[0], s),
        msg is Ping ==> delivered(out, peer)[0] == messages::ServerMessageView::Pong,
        delivered(out, other) == Seq::<messages::ServerMessageView>::empty(),
        after == s,
        name_after == name,
{
    lemma_delivered(out, other);
    lemma_delivered(out, peer);
}

/// A sound check puts the client alone into a new channel and tells it alone
/// the channel, its key and a token for it.
pub proof fn law_sound_check_is_private(
    s: server_model::StateView,
    peer: Addr,
    name: Seq<char>,
    now: u64,
    after: server_model::StateView,
    name_after: Seq<char>,
    out: Seq<session::OutgoingView>,
    other: Addr,
)
    requires
        s.wf(),
        session::message_handled(
            s,
            peer,
            name,
            messages::ClientMessageView::StartEchoTest,
            now,
            after,
            name_after,
            out,
        ),
        server_model::echo_error(s, peer) is None,
        other != peer,
    ensures
        delivered(out, peer).len() == 1,
        delivered(out, peer)[0] matches messages::ServerMessageView::EchoTestReady {
            channel_id,
            udp_token,
            voice_key,
        } && {
            &&& text::has_prefix(channel_id, config::ECHO_CHANNEL_PREFIX@)
            &&& !s.channels.dom().contains(channel_id)
            &&& after.clients[peer].channel == Some(channel_id)
            &&& after.members(channel_id) == set![peer]
            &&& after.channel_keys[channel_id] == voice_key
            &&& after.udp_tokens.dom().contains(udp_token)
            &&& after.udp_tokens[udp_token].0 == peer
            &&& after.udp_tokens[udp_token].1 == channel_id
            &&& udp_token != 0
        },
        delivered(out, other) == Seq::<messages::ServerMessageView>::empty(),
        s.clients.dom().contains(other) ==> after.clients[other] == s.clients[other],
{
    lemma_delivered(out, other);
    lemma_delivered(out, peer);
    if let messages::ServerMessageView::EchoTestReady { channel_id, .. } = content(out[0]) {
        let p = config::ECHO_CHANNEL_PREFIX@;
        let g = choose|g: Seq<char>| #[trigger]
            crate::protocol::is_generated_id(g) && channel_id == p + g;
        assert((p + g).subrange(0, p.len() as int) =~= p);
        assert forall|a: Addr| #[trigger]
            after.members(channel_id).contains(a) <==> a == peer by {
            if a != peer && s.clients.dom().contains(a) && s.clients[a].channel == Some(
                channel_id,
            ) {
                assert(s.channels.dom().contains(channel_id));
            }
        }
        assert(after.members(channel_id) =~= set![peer]);
    }
}

/// A greeting with a public key binds the key to its client, so that direct
/// messages to it arrive there; one without changes nothing. Nobody is told.
pub proof fn law_greeting_binds_key(
    s: server_model::StateView,
    peer: Addr,
    name: Seq<char>,
    version: Seq<char>,
    protocol: u16,
    pubkey: Option<Seq<u8>>,
    now: u64,
    after: server_model::StateView,
    name_after: Seq<char>,
    out: Seq<session::OutgoingView>,
    other: Addr,
)
    requires
        session::message_handled(
            s,
            peer,
            name,
            messages::ClientMessageView::Hello { version, protocol, pubkey },
            now,
            after,
            name_after,
            out,
        ),
        s.clients.dom().contains(peer),
    ensures
        pubkey matches Some(pk) ==> {
            &&& after.pubkey_index.dom().contains(pk)
            &&& after.pubkey_index[pk] == peer
            &&& after.clients[peer].pubkey == Some(pk)
            &&& after.clients[peer].name == s.clients[peer].name
            &&& after.clients[peer].channel == s.clients[peer].channel
        },
        pubkey is None ==> after == s,
        delivered(out, other) == Seq::<messages::ServerMessageView>::empty(),
        after.channels == s.channels,
        other != peer && s.clients.dom().contains(other) ==> after.clients[other]
            == s.clients[other],
        name_after == name,
{
    lemma_delivered(out, other);
}

/// A message that costs something is let through only if the connection and its
/// source address both have a command left, and a request for a channel only if
/// the budget of new channels allows it. Greetings and keep-alives always are,
/// and so is whatever the budgets allow.
pub proof fn law_budgets_bind(
    s: session::SessionView,
    ips: rate_limit::IpLimiterView,
    msg: messages::ClientMessageView,
    now: u64,
)
    ensures
        msg is Ping || msg is Hello ==> session::admitted(s, ips, msg, now) && session::charged(
            s,
            ips,
            msg,
            now,
        ) == s && session::ips_charged(s, ips, msg, now) == ips,
        !(msg is Ping || msg is Hello) && session::admitted(s, ips, msg, now) ==> {
            &&& rate_limit::admits(s.cmd, now)
            &&& rate_limit::ip_admits(ips, addr::ip_of(s.peer), now)
            &&& msg is CreateChannel ==> rate_limit::admits(s.create, now)
            &&& session::charged(s, ips, msg, now).cmd == rate_limit::after_request(s.cmd, now)
            &&& session::ips_charged(s, ips, msg, now) == rate_limit::ip_after_request(
                ips,
                addr::ip_of(s.peer),
                now,
            )
            &&& msg is CreateChannel ==> session::charged(s, ips, msg, now).create
                == rate_limit::after_request(s.create, now)
            &&& !(msg is CreateChannel) ==> session::charged(s, ips, msg, now).create == s.create
        },
        rate_limit::admits(s.cmd, now) && rate_limit::ip_admits(ips, addr::ip_of(s.peer), now)
            && rate_limit::admits(s.create, now) ==> session::admitted(s, ips, msg, now),
        rate_limit::admits(s.cmd, now) && rate_limit::ip_admits(ips, addr::ip_of(s.peer), now)
            && !(msg is CreateChannel) ==> session::admitted(s, ips, msg, now),
        session::charged(s, ips, msg, now).peer == s.peer,
        session::charged(s, ips, msg, now).name == s.name,
        session::charged(s, ips, msg, now).pending == s.pending,
{
}

/// A new client can send as many commands at once as the burst allows, and ask
/// for as many channels, and no more, whatever is left of the budget of its
/// address. A factor of one leaves the limits as they are.
pub proof fn law_new_client_has_its_burst(peer: Addr, name: Seq<char>, now: u64, n: nat)
    ensures
        ({
            let s = session::new_session(peer, name, 10_000, now);
            &&& s.peer == peer
            &&& s.name == name
            &&& s.pending.len() == 0
            &&& rate_limit::admits(rate_limit::after_requests(s.cmd, now, n), now) <==> (n + 1)
                * 1000 <= config::RATE_LIMIT_CMD_BURST
            &&& rate_limit::admits(rate_limit::after_requests(s.create, now, n), now) <==> (n + 1)
                * 1000 <= config::RATE_LIMIT_CREATE_BURST
        }),
{
    rate_limit::law_burst_is_the_limit(
        config::RATE_LIMIT_CMD_PER_SEC,
        config::RATE_LIMIT_CMD_BURST,
        now,
        n,
    );
    rate_limit::law_burst_is_the_limit(
        config::RATE_LIMIT_CREATE_PER_SEC,
        config::RATE_LIMIT_CREATE_BURST,
        now,
        n,
    );
}

/// A factor on the limits multiplies them: twice the factor is twice the limit,
/// as far as numbers go.
pub proof fn law_limits_scale(v: u64, multiplier: u64)
    requires
        v <= 1_000_000,
        multiplier <= 1_000_000_000_000,
    ensures
        session::scaled_by(v, 10_000) == v,
        10_000 * session::scaled_by(v, multiplier) <= v * multiplier,
        v * multiplier < 10_000 * (session::scaled_by(v, multiplier) + 1),
{
    let p = v as int * multiplier as int;
    assert(0 <= p <= 1_000_000 * 1_000_000_000_000) by (nonlinear_arith)
        requires
            p == v as int * multiplier as int,
            0 <= v <= 1_000_000,
            0 <= multiplier <= 1_000_000_000_000,
    ;
}

/// Maintenance takes away every channel that nobody is in or takes part in and
/// that is older than the grace period, unless it is persistent.
pub proof fn law_empty_channels_go(
    s: server_model::StateView,
    id: Seq<char>,
    grace: u64,
    ttl: u64,
    now: u64,
)
    requires
        s.wf(),
        s.channels.dom().contains(id),
        s.channels[id] =~= Set::<Addr>::empty(),
        forall|a: Addr| #[trigger]
            s.clients.dom().contains(a) ==> s.clients[a].channel != Some(id),
        !s.persistent.contains(id),
        now >= s.channel_created_at[id],
        now - s.channel_created_at[id] > grace,
    ensures
        ({
            let t = server_model::cleaned(s, grace, ttl, now);
            &&& !t.channels.dom().contains(id)
            &&& !t.channel_keys.dom().contains(id)
            &&& t.clients == s.clients
            &&& forall|k: u64| #[trigger] t.udp_tokens.dom().contains(k) ==> t.udp_tokens[k].1 != id
        }),
{
    assert(s.members(id) =~= Set::<Addr>::empty());
    assert(server_model::reapable(s, id, grace, now));
    server_laws::law_cleaned_wf(s, grace, ttl, now);
}

} // verus!
