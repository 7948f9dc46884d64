//! The UDP voice relay: what becomes of each datagram.

use vstd::prelude::*;
use vstd::utf8;

use crate::addr;
use crate::addr::Addr;
use crate::config;
use crate::metrics;
use crate::metrics::Metrics;
use crate::protocol;
use crate::protocol::{decode_udp_hello, encode_udp_hello, VoicePacket};
use crate::server_model;
use crate::state::ServerState;
use crate::text;
use crate::text::starts_with;
use crate::voice_crypto;

verus! {

/// What the relay does with a datagram.
#[derive(Debug)]
pub enum RelayAction {
    /// Nothing is sent.
    Ignore,
    /// These bytes go back to the sender.
    Ack(Vec<u8>),
    /// The datagram goes, unchanged, to these addresses.
    Forward(Vec<Addr>),
}

/// The addresses that voice for channel `id` goes to: the other participants,
/// or, in a sound check, all of them.
pub open spec fn recipients(s: server_model::StateView, id: Seq<char>, src: Addr) -> Set<Addr> {
    if server_model::is_echo(id) {
        s.participants(id).remove(addr::nowhere())
    } else {
        s.participants(id).remove(src)
    }
}

/// The counters after a datagram of `len` bytes came in.
pub open spec fn received(m: Metrics, len: u64) -> Metrics {
    Metrics {
        udp_packets_in: m.udp_packets_in.wrapping_add(1),
        udp_bytes_in: m.udp_bytes_in.wrapping_add(len),
        ..m
    }
}

/// The counters after a datagram of `len` bytes went to `n` addresses.
pub open spec fn forwarded(m: Metrics, len: u64, n: u64) -> Metrics {
    if n == 0 {
        m
    } else {
        Metrics {
            udp_voice_relayed: m.udp_voice_relayed.wrapping_add(1),
            udp_fanout_total: m.udp_fanout_total.wrapping_add(n),
            udp_bytes_relayed: m.udp_bytes_relayed.wrapping_add(len.wrapping_mul(n)),
            ..m
        }
    }
}

/// What the relay does with `data` from `src`, and what it does to the server.
pub open spec fn relay_outcome(
    s: server_model::StateView,
    m: Metrics,
    data: Seq<u8>,
    src: Addr,
    now: u64,
    after: server_model::StateView,
    m_after: Metrics,
    action: RelayAction,
) -> bool {
    let len = data.len() as u64;
    let m1 = received(m, len);
    match protocol::hello_token(data) {
        Some(t) => if t == 0 {
            &&& action is Ignore
            &&& after == s
            &&& m_after == Metrics { udp_keepalives: m1.udp_keepalives.wrapping_add(1), ..m1 }
        } else if server_model::hello_accepted(s, t as u64, src) {
            &&& action matches RelayAction::Ack(ack) && ack@ == data
            &&& after == server_model::hello_registered(s, t as u64, src, now)
            &&& m_after == Metrics { udp_hellos_ok: m1.udp_hellos_ok.wrapping_add(1), ..m1 }
        } else {
            &&& action is Ignore
            &&& after == s
            &&& m_after == Metrics {
                udp_hellos_invalid: m1.udp_hellos_invalid.wrapping_add(1),
                ..m1
            }
        },
        None => match protocol::parsed_channel(data) {
            Some(id) => {
                &&& action matches RelayAction::Forward(peers) && server_model::enumerates(
                    peers@,
                    recipients(s, id, src),
                ) && m_after == forwarded(m1, len, peers@.len() as u64)
                &&& after == s
            },
            None => {
                &&& action is Ignore
                &&& after == s
                &&& m_after == Metrics {
                    udp_voice_malformed: m1.udp_voice_malformed.wrapping_add(1),
                    ..m1
                }
            },
        },
    }
}

/// Handles one datagram. A hello registers its sender and is acknowledged by
/// an echo of itself; one with token 0 is a keepalive and only counted. Any
/// other datagram is forwarded as it is, by its channel id alone.
pub fn relay_datagram(state: &mut ServerState, data: &[u8], src_addr: Addr, now: u64) -> (action:
    RelayAction)
    requires
        old(state)@.wf(),
    ensures
        final(state)@.wf(),
        relay_outcome(
            old(state)@,
            old(state).counters(),
            data@,
            src_addr,
            now,
            final(state)@,
            final(state).counters(),
            action,
        ),
{
    let len: u64 = data.len() as u64;
    let mut m: Metrics = *state.metrics();
    m.udp_packets_in = m.udp_packets_in.wrapping_add(1);
    m.udp_bytes_in = m.udp_bytes_in.wrapping_add(len);

    if let Some(token) = decode_udp_hello(data) {
        if token == 0 {
            m.udp_keepalives = m.udp_keepalives.wrapping_add(1);
            state.set_metrics(m);
            return RelayAction::Ignore;
        }
        if state.register_udp_by_token(token, src_addr, now) {
            m.udp_hellos_ok = m.udp_hellos_ok.wrapping_add(1);
            state.set_metrics(m);
            proof {
                protocol::lemma_hello_is_udp_hello(data@);
            }
            return RelayAction::Ack(encode_udp_hello(token));
        }
        m.udp_hellos_invalid = m.udp_hellos_invalid.wrapping_add(1);
        state.set_metrics(m);
        return RelayAction::Ignore;
    }
    let channel_id = match VoicePacket::parse_channel_id(data) {
        Some(id) => id,
        None => {
            m.udp_voice_malformed = m.udp_voice_malformed.wrapping_add(1);
            state.set_metrics(m);
            return RelayAction::Ignore;
        },
    };
    let exclude: Addr = if starts_with(channel_id, config::ECHO_CHANNEL_PREFIX) {
        Addr::V4 { ip: 0, port: 0 }
    } else {
        src_addr
    };
    let mut peers: Vec<Addr> = Vec::new();
    state.fill_channel_peers(channel_id, &exclude, &mut peers);
    if peers.len() > 0 {
        let n: u64 = peers.len() as u64;
        m.udp_voice_relayed = m.udp_voice_relayed.wrapping_add(1);
        m.udp_fanout_total = m.udp_fanout_total.wrapping_add(n);
        m.udp_bytes_relayed = m.udp_bytes_relayed.wrapping_add(len.wrapping_mul(n));
    }
    state.set_metrics(m);
    RelayAction::Forward(peers)
}

/// The relay needs no key: what it does with voice depends on the channel id
/// and the length of the datagram, not on what else it holds.
pub proof fn law_relay_is_key_blind(
    s: server_model::StateView,
    m: Metrics,
    data: Seq<u8>,
    other: Seq<u8>,
    src: Addr,
    now: u64,
    after: server_model::StateView,
    m_after: Metrics,
    action: RelayAction,
)
    requires
        protocol::hello_token(data) is None,
        protocol::hello_token(other) is None,
        protocol::parsed_channel(data) == protocol::parsed_channel(other),
        data.len() == other.len(),
    ensures
        relay_outcome(s, m, data, src, now, after, m_after, action) <==> relay_outcome(
            s,
            m,
            other,
            src,
            now,
            after,
            m_after,
            action,
        ),
{
}

/// A packet that a client builds goes to the recipients of the channel that it
/// was built for, and changes nothing on the server but its counters.
pub proof fn law_voice_packet_is_forwarded(
    s: server_model::StateView,
    m: Metrics,
    key: Seq<u8>,
    nonce: Seq<u8>,
    sequence: u32,
    channel_id: Seq<char>,
    name: Seq<u8>,
    opus: Seq<u8>,
    src: Addr,
    now: u64,
    after: server_model::StateView,
    m_after: Metrics,
    action: RelayAction,
)
    requires
        nonce.len() == config::XCHACHA20_NONCE_SIZE,
        sequence != 0,
        utf8::encode_utf8(channel_id).len() <= 255,
        relay_outcome(
            s,
            m,
            voice_crypto::voice_packet(key, nonce, sequence, channel_id, name, opus),
            src,
            now,
            after,
            m_after,
            action,
        ),
    ensures
        action matches RelayAction::Forward(peers) && server_model::enumerates(
            peers@,
            recipients(s, channel_id, src),
        ),
        after == s,
{
    let p = protocol::VoicePacketView {
        sequence,
        channel_id,
        opus_data: nonce + voice_crypto::sealed(
            key,
            nonce,
            voice_crypto::named_frame(name, opus),
        ),
    };
    protocol::law_voice_round_trip(p);
    let data = protocol::voice_datagram(p);
    if protocol::hello_token(data) is Some {
        protocol::law_hello_is_not_voice(data);
    }
    assert(protocol::parsed_channel(data) == Some(channel_id));
}

/// Voice reaches every other participant of its channel and never its sender.
pub proof fn law_voice_reaches_the_others(
    s: server_model::StateView,
    id: Seq<char>,
    src: Addr,
    peer: Addr,
)
    requires
        !server_model::is_echo(id),
    ensures
        !recipients(s, id, src).contains(src),
        peer != src ==> (recipients(s, id, src).contains(peer) <==> s.participants(id).contains(
            peer,
        )),
{
}

/// In a sound check the voice comes back to its sender.
pub proof fn law_echo_returns_to_sender(s: server_model::StateView, id: Seq<char>, src: Addr)
    requires
        server_model::is_echo(id),
        s.participants(id).contains(src),
        src != addr::nowhere(),
    ensures
        recipients(s, id, src).contains(src),
{
}

/// An accepted hello makes its sender a recipient of the voice of its channel
/// from everybody else.
pub proof fn law_hello_makes_recipient(
    s: server_model::StateView,
    token: u64,
    udp: Addr,
    now: u64,
    from: Addr,
)
    requires
        server_model::hello_accepted(s, token, udp),
        s.channels.dom().contains(s.udp_tokens[token].1),
        !server_model::is_echo(s.udp_tokens[token].1),
        from != udp,
    ensures
        recipients(
            server_model::hello_registered(s, token, udp, now),
            s.udp_tokens[token].1,
            from,
        ).contains(udp),
{
}

/// How many workers share the relay's port: as many as asked for, or one for
/// each processor. Where a port cannot be shared there is one.
pub fn resolve_workers(requested: usize, processors: usize, shared_port: bool) -> (n: usize)
    ensures
        n >= 1,
        n == if !shared_port {
            1
        } else if requested > 0 {
            requested
        } else if processors > 0 {
            processors
        } else {
            1
        },
{
    if !shared_port {
        1
    } else if requested > 0 {
        requested
    } else if processors > 0 {
        processors
    } else {
        1
    }
}

/// Every datagram is counted once, with its size, and as exactly one of a
/// keepalive, an accepted or a refused hello, malformed, or voice.
pub proof fn law_every_datagram_is_counted(
    s: server_model::StateView,
    m: Metrics,
    data: Seq<u8>,
    src: Addr,
    now: u64,
    after: server_model::StateView,
    m_after: Metrics,
    action: RelayAction,
)
    requires
        relay_outcome(s, m, data, src, now, after, m_after, action),
        data.len() <= u64::MAX,
        m.udp_packets_in < u64::MAX,
        m.udp_bytes_in + data.len() <= u64::MAX,
        m.udp_keepalives < u64::MAX,
        m.udp_hellos_ok < u64::MAX,
        m.udp_hellos_invalid < u64::MAX,
        m.udp_voice_malformed < u64::MAX,
        m.udp_voice_relayed < u64::MAX,
    ensures
        m_after.udp_packets_in == m.udp_packets_in + 1,
        m_after.udp_bytes_in == m.udp_bytes_in + data.len(),
        (m_after.udp_keepalives - m.udp_keepalives) + (m_after.udp_hellos_ok - m.udp_hellos_ok) + (
        m_after.udp_hellos_invalid - m.udp_hellos_invalid) + (m_after.udp_voice_malformed
            - m.udp_voice_malformed) + (m_after.udp_voice_relayed - m.udp_voice_relayed) == if (
        action matches RelayAction::Forward(peers) && peers@.len() as u64 == 0) {
            0int
        } else {
            1
        },
{
}

/// A client that holds a token and says hello from its own address gets its
/// hello back and can be reached at that address: voice of its channel goes
/// there from then on. Nothing is forwarded.
pub proof fn law_hello_is_answered(
    s: server_model::StateView,
    m: Metrics,
    token: u64,
    src: Addr,
    now: u64,
    after: server_model::StateView,
    m_after: Metrics,
    action: RelayAction,
)
    requires
        s.wf(),
        s.udp_tokens.dom().contains(token),
        addr::ip_of(s.udp_tokens[token].0) == addr::ip_of(src),
        relay_outcome(s, m, protocol::udp_hello(token), src, now, after, m_after, action),
    ensures
        action matches RelayAction::Ack(ack) && ack@ == protocol::udp_hello(token),
        after.participants(s.udp_tokens[token].1).contains(src),
        after.clients[s.udp_tokens[token].0].udp_addr == Some(src),
        after.clients[s.udp_tokens[token].0].channel == s.clients[s.udp_tokens[token].0].channel,
{
    protocol::law_udp_hello_round_trip(token);
}

/// A hello with a token that nobody holds, or from another address than its
/// holder's, is not answered and changes nothing; neither is a keepalive.
pub proof fn law_strange_hello_is_ignored(
    s: server_model::StateView,
    m: Metrics,
    token: u64,
    src: Addr,
    now: u64,
    after: server_model::StateView,
    m_after: Metrics,
    action: RelayAction,
)
    requires
        token == 0 || !s.udp_tokens.dom().contains(token) || addr::canonical(
            addr::ip_of(s.udp_tokens[token].0),
        ) != addr::canonical(addr::ip_of(src)),
        relay_outcome(s, m, protocol::udp_hello(token), src, now, after, m_after, action),
    ensures
        action is Ignore,
        after == s,
{
    protocol::law_udp_hello_round_trip(token);
}

/// Whoever takes part in a channel hears the voice for it exactly once, but
/// for its sender; nobody who takes part in other channels alone does.
pub proof fn law_voice_goes_round(
    s: server_model::StateView,
    m: Metrics,
    data: Seq<u8>,
    id: Seq<char>,
    src: Addr,
    now: u64,
    after: server_model::StateView,
    m_after: Metrics,
    action: RelayAction,
)
    requires
        protocol::hello_token(data) is None,
        protocol::parsed_channel(data) == Some(id),
        !text::has_prefix(id, config::ECHO_CHANNEL_PREFIX@),
        relay_outcome(s, m, data, src, now, after, m_after, action),
    ensures
        action is Forward,
        action matches RelayAction::Forward(peers) ==> peers@.no_duplicates() && forall|a: Addr| #[trigger]
            peers@.contains(a) <==> a != src && s.channels.dom().contains(id)
                && s.channels[id].contains(a),
        after == s,
{
    if let RelayAction::Forward(peers) = action {
        assert forall|a: Addr| #[trigger] peers@.contains(a) <==> a != src
            && s.channels.dom().contains(id) && s.channels[id].contains(a) by {
            assert(peers@.to_set().contains(a) <==> recipients(s, id, src).contains(a));
        }
    }
}

} // verus!
