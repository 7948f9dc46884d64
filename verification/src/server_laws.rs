//! What holds of the server whatever its clients do.

use vstd::prelude::*;

use crate::addr;
use crate::addr::Addr;
use crate::config;
use crate::server_model;
use crate::table;
use crate::text;

verus! {

/// A server that nobody has connected to is well-formed.
pub proof fn law_fresh_wf(limits: server_model::Limits)
    ensures
        server_model::fresh(limits).wf(),
        server_model::fresh(limits).pubkeys_agree(),
{
}

/// The relay's view depends only on the channels and the cache.
pub proof fn lemma_same_channels(s: server_model::StateView, t: server_model::StateView)
    requires
        s.cache_agrees(),
        s.channels == t.channels,
        s.peer_cache == t.peer_cache,
    ensures
        t.cache_agrees(),
{
    assert forall|id: Seq<char>| #[trigger] t.cached(id) == t.participants(id) by {
        assert(s.cached(id) == s.participants(id));
    }
}

/// Registering a client keeps the server well-formed.
pub proof fn law_registered_wf(s: server_model::StateView, a: Addr)
    requires
        s.wf(),
    ensures
        server_model::registered(s, a).wf(),
{
    lemma_same_channels(s, server_model::registered(s, a));
}

/// Binding a public key keeps the server well-formed.
pub proof fn law_key_bound_wf(s: server_model::StateView, a: Addr, pk: Seq<u8>)
    requires
        s.wf(),
    ensures
        server_model::key_bound(s, a, pk).wf(),
{
    lemma_same_channels(s, server_model::key_bound(s, a, pk));
}

/// Leaving a channel keeps the server well-formed.
pub proof fn law_exited_wf(s: server_model::StateView, id: Seq<char>, udp: Option<Addr>)
    requires
        s.wf(),
        s.channels.dom().contains(id),
    ensures
        server_model::exited(s, id, udp).wf(),
{
    let t = server_model::exited(s, id, udp);
    assert forall|a: Addr| #[trigger] t.clients.dom().contains(a) implies match t.clients[a].channel {
        Some(x) => t.channels.dom().contains(x),
        None => true,
    } by {
        if s.clients[a].channel == Some(id) {
            assert(s.members(id).contains(a));
        }
    }
    assert forall|x: Seq<char>| #[trigger] t.cached(x) == t.participants(x) by {
        assert(s.cached(x) == s.participants(x));
    }
    assert(t.channel_keys.dom() =~= t.channels.dom());
    assert(t.channel_created_at.dom() =~= t.channels.dom());
}

/// Tokens of other clients stay sound when those of one client are dropped.
pub proof fn lemma_tokens_without(s: server_model::StateView, t: server_model::StateView, a: Addr)
    requires
        s.wf(),
        t.channels == s.channels,
        t.peer_cache == s.peer_cache,
        t.channel_keys == s.channel_keys,
        t.channel_created_at == s.channel_created_at,
        t.persistent == s.persistent,
        t.udp_tokens == server_model::tokens_without(s.udp_tokens, a),
        t.clients == s.clients.remove(a) || exists|c: server_model::ClientView|
            c.channel is None && t.clients == #[trigger] s.clients.insert(a, c),
    ensures
        t.wf(),
{
    lemma_same_channels(s, t);
}

/// A disconnect keeps the server well-formed.
pub proof fn law_removed_wf(s: server_model::StateView, a: Addr)
    requires
        s.wf(),
    ensures
        server_model::removed(s, a).wf(),
{
    if s.clients.dom().contains(a) {
        let c = s.clients[a];
        let gone = server_model::StateView {
            clients: s.clients.remove(a),
            pubkey_index: match c.pubkey {
                Some(pk) => server_model::key_released(s.pubkey_index, a, pk),
                None => s.pubkey_index,
            },
            udp_tokens: server_model::tokens_without(s.udp_tokens, a),
            ..s
        };
        lemma_tokens_without(s, gone, a);
        if c.channel is Some {
            law_exited_wf(gone, c.channel->0, c.udp_addr);
        }
    }
}

/// Leaving keeps the server well-formed.
pub proof fn law_left_wf(s: server_model::StateView, a: Addr)
    requires
        s.wf(),
    ensures
        server_model::left(s, a).wf(),
{
    if s.clients.dom().contains(a) && s.clients[a].channel is Some {
        let c = s.clients[a];
        let out = server_model::StateView {
            clients: s.clients.insert(
                a,
                server_model::ClientView { channel: None, udp_addr: None, ..c },
            ),
            udp_tokens: server_model::tokens_without(s.udp_tokens, a),
            ..s
        };
        lemma_tokens_without(s, out, a);
        law_exited_wf(out, c.channel->0, c.udp_addr);
    }
}

/// Opening a channel keeps the server well-formed.
pub proof fn law_opened_wf(s: server_model::StateView, id: Seq<char>, key: Seq<u8>, now: u64)
    requires
        s.wf(),
        !s.channels.dom().contains(id),
        key.len() == config::VOICE_KEY_LEN,
    ensures
        server_model::opened(s, id, key, now).wf(),
{
    let t = server_model::opened(s, id, key, now);
    assert forall|x: Seq<char>| #[trigger] t.cached(x) == t.participants(x) by {
        assert(s.cached(x) == s.participants(x));
    }
    assert(t.channel_keys.dom() =~= t.channels.dom());
    assert(t.channel_created_at.dom() =~= t.channels.dom());
}

/// Joining a channel keeps the server well-formed.
pub proof fn law_joined_wf(
    s: server_model::StateView,
    a: Addr,
    id: Seq<char>,
    token: u64,
    drawn: Seq<u8>,
    now: u64,
)
    requires
        s.wf(),
        server_model::join_refusal(s, a, id) is None,
        server_model::token_free(s, token),
        drawn.len() == config::VOICE_KEY_LEN,
    ensures
        server_model::joined(s, a, id, token, drawn, now).wf(),
{
    let t = server_model::joined(s, a, id, token, drawn, now);
    lemma_same_channels(s, t);
    assert(t.channel_keys.dom() =~= s.channel_keys.dom());
    assert(s.channel_keys.dom().contains(id));
}

/// A sound check keeps the server well-formed.
pub proof fn law_echo_started_wf(
    s: server_model::StateView,
    a: Addr,
    id: Seq<char>,
    token: u64,
    key: Seq<u8>,
    now: u64,
)
    requires
        s.wf(),
        server_model::echo_refusal(s, a) is None,
        !s.channels.dom().contains(id),
        server_model::token_free(s, token),
        key.len() == config::VOICE_KEY_LEN,
    ensures
        server_model::echo_started(s, a, id, token, key, now).wf(),
{
    law_opened_wf(s, id, key, now);
    lemma_same_channels(
        server_model::opened(s, id, key, now),
        server_model::echo_started(s, a, id, token, key, now),
    );
}

/// A UDP hello keeps the server well-formed.
pub proof fn law_hello_registered_wf(s: server_model::StateView, token: u64, udp: Addr, now: u64)
    requires
        s.wf(),
        server_model::hello_accepted(s, token, udp),
    ensures
        server_model::hello_registered(s, token, udp, now).wf(),
{
    let t = server_model::hello_registered(s, token, udp, now);
    assert forall|x: Seq<char>| #[trigger] t.cached(x) == t.participants(x) by {
        assert(s.cached(x) == s.participants(x));
    }
    assert(t.channels.dom() =~= s.channels.dom());
}

/// A rename keeps the server well-formed.
pub proof fn law_renamed_wf(s: server_model::StateView, a: Addr, name: Seq<char>)
    requires
        s.wf(),
    ensures
        server_model::renamed(s, a, name).wf(),
{
    lemma_same_channels(s, server_model::renamed(s, a, name));
}

/// Maintenance keeps the server well-formed.
pub proof fn law_cleaned_wf(s: server_model::StateView, grace: u64, ttl: u64, now: u64)
    requires
        s.wf(),
    ensures
        server_model::cleaned(s, grace, ttl, now).wf(),
{
    let t = server_model::cleaned(s, grace, ttl, now);
    assert forall|a: Addr| #[trigger] t.clients.dom().contains(a) implies match t.clients[a].channel {
        Some(x) => t.channels.dom().contains(x),
        None => true,
    } by {
        if let Some(x) = s.clients[a].channel {
            assert(s.members(x).contains(a));
        }
    }
    assert forall|x: Seq<char>| #[trigger] t.cached(x) == t.participants(x) by {
        assert(s.cached(x) == s.participants(x));
    }
    assert(t.channel_keys.dom() =~= t.channels.dom());
    assert(t.channel_created_at.dom() =~= t.channels.dom());
}

/// Different clients get different names, as long as the counter does not
/// come round.
pub proof fn law_names_differ(m: u64, n: u64)
    requires
        m != n,
    ensures
        server_model::user_name(m) != server_model::user_name(n),
{
    text::law_decimal_round_trip(m as nat);
    text::law_decimal_round_trip(n as nat);
    let p = "user-"@;
    let a = text::decimal(m as nat);
    let b = text::decimal(n as nat);
    if p + a == p + b {
        assert(a =~= (p + a).subrange(p.len() as int, (p + a).len() as int));
        assert(b =~= (p + b).subrange(p.len() as int, (p + b).len() as int));
    }
}

/// A persistent channel outlives everything that its clients do: leaving,
/// disconnecting, and maintenance.
pub proof fn law_persistent_survives(
    s: server_model::StateView,
    id: Seq<char>,
    a: Addr,
    grace: u64,
    ttl: u64,
    now: u64,
)
    requires
        s.wf(),
        s.persistent.contains(id),
    ensures
        server_model::left(s, a).channels.dom().contains(id),
        server_model::left(s, a).persistent.contains(id),
        server_model::removed(s, a).channels.dom().contains(id),
        server_model::removed(s, a).persistent.contains(id),
        server_model::cleaned(s, grace, ttl, now).channels.dom().contains(id),
        server_model::cleaned(s, grace, ttl, now).persistent.contains(id),
{
}

/// Whoever enters an empty persistent channel gets the freshly drawn key, and
/// the channel keeps it.
pub proof fn law_key_rotates(
    s: server_model::StateView,
    a: Addr,
    id: Seq<char>,
    token: u64,
    drawn: Seq<u8>,
    now: u64,
)
    requires
        s.persistent.contains(id),
        s.members(id) == Set::<Addr>::empty(),
    ensures
        server_model::join_key(s, id, drawn) == drawn,
        server_model::joined(s, a, id, token, drawn, now).channel_keys[id] == drawn,
{
}

/// Everybody in a channel has the same voice key: a join to an occupied
/// channel does not change it.
pub proof fn law_key_shared(
    s: server_model::StateView,
    a: Addr,
    b: Addr,
    id: Seq<char>,
    token: u64,
    drawn: Seq<u8>,
    now: u64,
)
    requires
        s.clients.dom().contains(b),
        s.clients[b].channel == Some(id),
    ensures
        server_model::join_key(s, id, drawn) == s.channel_keys[id],
        server_model::joined(s, a, id, token, drawn, now).channel_keys[id] == s.channel_keys[id],
{
    assert(s.members(id).contains(b));
}

/// Joining puts a client into the channel, and nobody else anywhere else.
pub proof fn law_join_membership(
    s: server_model::StateView,
    a: Addr,
    id: Seq<char>,
    token: u64,
    drawn: Seq<u8>,
    now: u64,
    other: Seq<char>,
)
    requires
        server_model::join_refusal(s, a, id) is None,
    ensures
        server_model::joined(s, a, id, token, drawn, now).members(id) == s.members(id).insert(a),
        other != id ==> server_model::joined(s, a, id, token, drawn, now).members(other)
            == s.members(other),
{
    let t = server_model::joined(s, a, id, token, drawn, now);
    assert(t.members(id) =~= s.members(id).insert(a));
    if other != id {
        assert(t.members(other) =~= s.members(other));
    }
}

/// Leaving takes a client out of its channel, and nobody else.
pub proof fn law_leave_membership(s: server_model::StateView, a: Addr, id: Seq<char>)
    ensures
        server_model::left(s, a).members(id) == s.members(id).remove(a),
{
    let t = server_model::left(s, a);
    assert(t.members(id) =~= s.members(id).remove(a));
}

/// A disconnect leaves nothing of the client behind: no entry, no membership,
/// no token.
pub proof fn law_disconnect_forgets(
    s: server_model::StateView,
    a: Addr,
    id: Seq<char>,
    token: u64,
)
    requires
        s.wf(),
    ensures
        !server_model::removed(s, a).clients.dom().contains(a),
        !server_model::removed(s, a).members(id).contains(a),
        server_model::removed(s, a).udp_tokens.dom().contains(token)
            ==> server_model::removed(s, a).udp_tokens[token].0 != a,
{
    if !s.clients.dom().contains(a) && s.udp_tokens.dom().contains(token) {
        assert(s.clients.dom().contains(s.udp_tokens[token].0));
    }
}

/// A client that joins and leaves again is where it was: not in a channel,
/// without a voice address and without tokens, under the same name and key. A
/// channel that somebody else is in or takes part in is as it was; any other
/// is gone with its tokens, unless it is persistent.
pub proof fn law_leave_undoes_join(
    s: server_model::StateView,
    a: Addr,
    id: Seq<char>,
    token: u64,
    drawn: Seq<u8>,
    now: u64,
)
    requires
        s.wf(),
        server_model::join_refusal(s, a, id) is None,
        server_model::token_free(s, token),
        s.clients[a].udp_addr is None,
    ensures
        ({
            let t = server_model::left(server_model::joined(s, a, id, token, drawn, now), a);
            let kept = server_model::tokens_without(s.udp_tokens, a);
            &&& t.clients == s.clients
            &&& t.pubkey_index == s.pubkey_index
            &&& if s.participants(id) != Set::<Addr>::empty() || s.members(id) != Set::<
                Addr,
            >::empty() || s.persistent.contains(id) {
                t.channels == s.channels && t.udp_tokens == kept
            } else {
                &&& t.channels == s.channels.remove(id)
                &&& t.udp_tokens == server_model::tokens_outside(kept, id)
            }
        }),
{
    let j = server_model::joined(s, a, id, token, drawn, now);
    let out = server_model::StateView {
        clients: j.clients.insert(
            a,
            server_model::ClientView { channel: None, udp_addr: None, ..j.clients[a] },
        ),
        udp_tokens: server_model::tokens_without(j.udp_tokens, a),
        ..j
    };
    let t = server_model::left(j, a);
    assert(t == server_model::exited(out, id, None));
    assert(out.clients =~= s.clients);
    assert(out.udp_tokens =~= server_model::tokens_without(s.udp_tokens, a));
    assert(out.members(id) =~= s.members(id));
    assert(s.channels.insert(id, s.participants(id)) =~= s.channels);
}

/// A channel that somebody is in stays when another client leaves it or
/// disconnects, whether or not a voice address is known, and so does the one
/// who is in it.
pub proof fn law_occupied_channel_stays(
    s: server_model::StateView,
    a: Addr,
    b: Addr,
    id: Seq<char>,
)
    requires
        s.wf(),
        a != b,
        s.clients.dom().contains(b),
        s.clients[b].channel == Some(id),
    ensures
        server_model::left(s, a).channels.dom().contains(id),
        server_model::left(s, a).clients[b] == s.clients[b],
        server_model::left(s, a).channel_keys[id] == s.channel_keys[id],
        server_model::removed(s, a).channels.dom().contains(id),
        server_model::removed(s, a).clients[b] == s.clients[b],
        server_model::removed(s, a).channel_keys[id] == s.channel_keys[id],
{
    if s.clients.dom().contains(a) {
        let c = s.clients[a];
        let tokens = server_model::tokens_without(s.udp_tokens, a);
        let out = server_model::StateView {
            clients: s.clients.insert(
                a,
                server_model::ClientView { channel: None, udp_addr: None, ..c },
            ),
            udp_tokens: tokens,
            ..s
        };
        let gone = server_model::StateView {
            clients: s.clients.remove(a),
            pubkey_index: match c.pubkey {
                Some(pk) => server_model::key_released(s.pubkey_index, a, pk),
                None => s.pubkey_index,
            },
            udp_tokens: tokens,
            ..s
        };
        assert(out.members(id).contains(b));
        assert(gone.members(id).contains(b));
    }
}

/// When the last client of a channel leaves or disconnects, and no voice
/// address but its own was in the channel, the channel is gone, unless it is
/// persistent.
pub proof fn law_last_one_out_closes(s: server_model::StateView, a: Addr, id: Seq<char>)
    requires
        s.wf(),
        s.members(id) == set![a],
        forall|u: Addr| #[trigger]
            s.participants(id).contains(u) ==> s.clients[a].udp_addr == Some(u),
        !s.persistent.contains(id),
    ensures
        !server_model::left(s, a).channels.dom().contains(id),
        !server_model::removed(s, a).channels.dom().contains(id),
{
    assert(s.members(id).contains(a));
    let c = s.clients[a];
    let tokens = server_model::tokens_without(s.udp_tokens, a);
    let out = server_model::StateView {
        clients: s.clients.insert(
            a,
            server_model::ClientView { channel: None, udp_addr: None, ..c },
        ),
        udp_tokens: tokens,
        ..s
    };
    let gone = server_model::StateView {
        clients: s.clients.remove(a),
        pubkey_index: match c.pubkey {
            Some(pk) => server_model::key_released(s.pubkey_index, a, pk),
            None => s.pubkey_index,
        },
        udp_tokens: tokens,
        ..s
    };
    let rest = match c.udp_addr {
        Some(u) => s.participants(id).remove(u),
        None => s.participants(id),
    };
    assert(rest =~= Set::<Addr>::empty());
    assert forall|b: Addr| !out.members(id).contains(b) && !gone.members(id).contains(b) by {
        assert(s.members(id).contains(b) ==> b == a);
    }
    assert(out.members(id) =~= Set::<Addr>::empty());
    assert(gone.members(id) =~= Set::<Addr>::empty());
    assert(out.participants(id) == s.participants(id));
    assert(gone.participants(id) == s.participants(id));
    assert(server_model::left(s, a) == server_model::exited(out, id, c.udp_addr));
    assert(server_model::removed(s, a) == server_model::exited(gone, id, c.udp_addr));
}

/// As long as there is a token to hand out, a join is refused exactly where
/// the channel is unknown, the client is, or the client is in a channel.
pub proof fn law_join_refusals(s: server_model::StateView, a: Addr, id: Seq<char>)
    requires
        !server_model::tokens_exhausted(s),
    ensures
        server_model::join_error(s, a, id) is Some <==> {
            ||| !s.channels.dom().contains(id)
            ||| !s.clients.dom().contains(a)
            ||| s.clients[a].channel is Some
        },
{
}

/// The token of a client that is still in the token's channel survives
/// maintenance, however old it is.
pub proof fn law_live_token_survives(
    s: server_model::StateView,
    token: u64,
    grace: u64,
    ttl: u64,
    now: u64,
)
    requires
        s.udp_tokens.dom().contains(token),
        server_model::token_live(s.clients, s.udp_tokens[token]),
    ensures
        server_model::cleaned(s, grace, ttl, now).udp_tokens.dom().contains(token),
        server_model::cleaned(s, grace, ttl, now).udp_tokens[token] == s.udp_tokens[token],
{
    let e = s.udp_tokens[token];
    assert(s.members(e.1).contains(e.0));
}

/// A token unused for its lifetime, whose client is not in its channel, does
/// not survive maintenance.
pub proof fn law_stale_token_expires(
    s: server_model::StateView,
    token: u64,
    grace: u64,
    ttl: u64,
    now: u64,
)
    requires
        s.udp_tokens.dom().contains(token),
        !server_model::token_live(s.clients, s.udp_tokens[token]),
        server_model::elapsed(now, s.udp_tokens[token].2) >= ttl,
    ensures
        !server_model::cleaned(s, grace, ttl, now).udp_tokens.dom().contains(token),
{
}

/// Maintenance never removes a channel that somebody is in or takes part in,
/// nor a new one within its grace period.
pub proof fn law_cleanup_spares(
    s: server_model::StateView,
    id: Seq<char>,
    grace: u64,
    ttl: u64,
    now: u64,
)
    requires
        s.wf(),
        s.channels.dom().contains(id),
        s.channels[id] != Set::<Addr>::empty() || s.members(id) != Set::<Addr>::empty()
            || server_model::elapsed(now, s.channel_created_at[id]) <= grace,
    ensures
        server_model::cleaned(s, grace, ttl, now).channels.dom().contains(id),
        server_model::cleaned(s, grace, ttl, now).channels[id] == s.channels[id],
{
}

/// A refused hello changes nothing, so the right client can still register.
/// (What a hello does when it is accepted depends on the state alone.)
pub proof fn law_acceptance_needs_the_right_ip(
    s: server_model::StateView,
    token: u64,
    right: Addr,
    wrong: Addr,
)
    requires
        server_model::hello_accepted(s, token, right),
        addr::canonical(addr::ip_of(right)) != addr::canonical(addr::ip_of(wrong)),
    ensures
        !server_model::hello_accepted(s, token, wrong),
{
}

/// An accepted hello is from a connected client. Its address takes part in
/// the token's channel from then on, in place of the client's earlier one;
/// nobody else is moved. The token stays valid.
pub proof fn law_hello_registers(
    s: server_model::StateView,
    token: u64,
    udp: Addr,
    now: u64,
    other: Addr,
)
    requires
        s.wf(),
        server_model::hello_accepted(s, token, udp),
        other != udp,
    ensures
        ({
            let t = server_model::hello_registered(s, token, udp, now);
            let (a, id, _) = s.udp_tokens[token];
            &&& s.clients.dom().contains(a)
            &&& s.channels.dom().contains(id)
            &&& t.clients[a].udp_addr == Some(udp)
            &&& t.participants(id).contains(udp)
            &&& t.cached(id).contains(udp)
            &&& t.participants(id).contains(other) <==> {
                &&& s.participants(id).contains(other)
                &&& s.clients[a].udp_addr != Some(other)
            }
            &&& server_model::hello_accepted(t, token, udp)
        }),
{
}

/// A repeated hello is accepted again and only refreshes its token.
pub proof fn law_hello_idempotent(
    s: server_model::StateView,
    token: u64,
    udp: Addr,
    first: u64,
    second: u64,
)
    requires
        server_model::hello_accepted(s, token, udp),
    ensures
        server_model::hello_accepted(
            server_model::hello_registered(s, token, udp, first),
            token,
            udp,
        ),
        server_model::hello_registered(
            server_model::hello_registered(s, token, udp, first),
            token,
            udp,
            second,
        ) == server_model::hello_registered(s, token, udp, second),
{
    let once = server_model::hello_registered(s, token, udp, first);
    let twice = server_model::hello_registered(once, token, udp, second);
    let direct = server_model::hello_registered(s, token, udp, second);
    let id = s.udp_tokens[token].1;
    assert(twice.channels[id] =~= direct.channels[id]);
    assert(twice.channels =~= direct.channels);
    assert(twice.clients =~= direct.clients);
    assert(twice.udp_tokens =~= direct.udp_tokens);
    assert(twice.peer_cache =~= direct.peer_cache);
}

/// A hello from a new address replaces the old address of the client.
pub proof fn law_rebind_replaces(
    s: server_model::StateView,
    token: u64,
    was: Addr,
    new: Addr,
    first: u64,
    second: u64,
)
    requires
        s.wf(),
        server_model::hello_accepted(s, token, was),
        server_model::hello_accepted(s, token, new),
        was != new,
    ensures
        ({
            let t = server_model::hello_registered(
                server_model::hello_registered(s, token, was, first),
                token,
                new,
                second,
            );
            &&& t.participants(s.udp_tokens[token].1).contains(new)
            &&& !t.participants(s.udp_tokens[token].1).contains(was)
        }),
{
}

/// Binding a key, disconnecting, leaving, joining and renaming keep every
/// bound key with the client that presented it last; so does registering a
/// client at an address that is not in use.
pub proof fn law_pubkeys_agree(
    s: server_model::StateView,
    a: Addr,
    pk: Seq<u8>,
    name: Seq<char>,
    id: Seq<char>,
    token: u64,
    drawn: Seq<u8>,
    now: u64,
)
    requires
        s.pubkeys_agree(),
    ensures
        server_model::key_bound(s, a, pk).pubkeys_agree(),
        server_model::removed(s, a).pubkeys_agree(),
        server_model::left(s, a).pubkeys_agree(),
        server_model::renamed(s, a, name).pubkeys_agree(),
        server_model::join_refusal(s, a, id) is None ==> server_model::joined(
            s,
            a,
            id,
            token,
            drawn,
            now,
        ).pubkeys_agree(),
        !s.clients.dom().contains(a) ==> server_model::registered(s, a).pubkeys_agree(),
{
    let b = server_model::key_bound(s, a, pk);
    assert forall|k: Seq<u8>| #[trigger] b.pubkey_index.dom().contains(k) implies {
        &&& b.clients.dom().contains(b.pubkey_index[k])
        &&& b.clients[b.pubkey_index[k]].pubkey == Some(k)
    } by {
        if s.clients.dom().contains(a) && k != pk {
            assert(s.pubkey_index.dom().contains(k));
        }
    }
    let r = server_model::removed(s, a);
    assert forall|k: Seq<u8>| #[trigger] r.pubkey_index.dom().contains(k) implies {
        &&& r.clients.dom().contains(r.pubkey_index[k])
        &&& r.clients[r.pubkey_index[k]].pubkey == Some(k)
    } by {
        assert(s.pubkey_index.dom().contains(k));
    }
}

/// After a client presented a key, messages to that key go to it.
pub proof fn law_last_presenter_owns_key(s: server_model::StateView, a: Addr, pk: Seq<u8>)
    requires
        s.clients.dom().contains(a),
    ensures
        server_model::key_bound(s, a, pk).pubkey_index[pk] == a,
        server_model::key_bound(s, a, pk).clients[a].pubkey == Some(pk),
{
}

/// A key that a client took over stays with it when another client
/// disconnects or presents a different key, even the one that had it before.
pub proof fn law_key_outlives_former_owner(
    s: server_model::StateView,
    a: Addr,
    b: Addr,
    pk: Seq<u8>,
    other: Seq<u8>,
)
    requires
        a != b,
        s.pubkey_index.dom().contains(pk),
        s.pubkey_index[pk] == b,
        other != pk,
    ensures
        server_model::removed(s, a).pubkey_index.dom().contains(pk),
        server_model::removed(s, a).pubkey_index[pk] == b,
        server_model::key_bound(s, a, other).pubkey_index.dom().contains(pk),
        server_model::key_bound(s, a, other).pubkey_index[pk] == b,
{
}

/// A new client gets the next name, is in no channel, has no voice address and
/// no key; nobody else changes.
pub proof fn law_newcomer(s: server_model::StateView, a: Addr, b: Addr)
    requires
        s.name_counter < u64::MAX,
        b != a,
    ensures
        ({
            let t = server_model::registered(s, a);
            &&& t.clients.dom().contains(a)
            &&& t.clients[a].name == "user-"@ + text::decimal((s.name_counter + 1) as nat)
            &&& t.clients[a].channel is None
            &&& t.clients[a].udp_addr is None
            &&& t.clients[a].pubkey is None
            &&& t.name_counter == s.name_counter + 1
            &&& t.clients.dom().contains(b) <==> s.clients.dom().contains(b)
            &&& t.clients[b] == s.clients[b]
            &&& t.channels == s.channels
        }),
{
}

/// A client that leaves or disconnects is not reached any more: its voice
/// address takes no part in the channel. Everybody else's does as before.
pub proof fn law_leaver_is_not_reached(
    s: server_model::StateView,
    a: Addr,
    id: Seq<char>,
    udp: Addr,
    other: Addr,
)
    requires
        s.wf(),
        s.clients.dom().contains(a),
        s.clients[a].channel == Some(id),
        s.clients[a].udp_addr == Some(udp),
        other != udp,
    ensures
        !server_model::left(s, a).participants(id).contains(udp),
        !server_model::removed(s, a).participants(id).contains(udp),
        server_model::left(s, a).participants(id).contains(other) <==> s.participants(id).contains(
            other,
        ),
        server_model::removed(s, a).participants(id).contains(other) <==> s.participants(
            id,
        ).contains(other),
{
    let rest = s.participants(id).remove(udp);
    assert(rest.contains(other) <==> s.participants(id).contains(other));
}

/// What one client does to its channel leaves all other channels alone.
pub proof fn law_channels_are_apart(
    s: server_model::StateView,
    a: Addr,
    id: Seq<char>,
    other: Seq<char>,
)
    requires
        s.clients.dom().contains(a),
        s.clients[a].channel == Some(id),
        other != id,
    ensures
        server_model::left(s, a).channels.dom().contains(other) <==> s.channels.dom().contains(
            other,
        ),
        server_model::left(s, a).participants(other) == s.participants(other),
        server_model::removed(s, a).channels.dom().contains(other)
            <==> s.channels.dom().contains(other),
        server_model::removed(s, a).participants(other) == s.participants(other),
{
}

/// A client that leaves its channel is in none, has no voice address and no
/// token, and keeps its name and its key.
pub proof fn law_leaver_is_free(s: server_model::StateView, a: Addr, token: u64)
    requires
        s.clients.dom().contains(a),
        s.clients[a].channel is Some,
    ensures
        ({
            let t = server_model::left(s, a);
            &&& t.clients.dom().contains(a)
            &&& t.clients[a].channel is None
            &&& t.clients[a].udp_addr is None
            &&& t.clients[a].name == s.clients[a].name
            &&& t.clients[a].pubkey == s.clients[a].pubkey
            &&& t.udp_tokens.dom().contains(token) ==> t.udp_tokens[token].0 != a
        }),
{
}

/// A rename changes the name of that client and nothing else.
pub proof fn law_rename_is_local(s: server_model::StateView, a: Addr, name: Seq<char>, b: Addr)
    requires
        s.clients.dom().contains(a),
        b != a,
    ensures
        ({
            let t = server_model::renamed(s, a, name);
            &&& t.clients[a].name == name
            &&& t.clients[a].channel == s.clients[a].channel
            &&& t.clients[a].udp_addr == s.clients[a].udp_addr
            &&& t.clients[a].pubkey == s.clients[a].pubkey
            &&& t.clients[b] == s.clients[b]
            &&& t.channels == s.channels
            &&& t.udp_tokens == s.udp_tokens
        }),
{
}

/// A channel is refused exactly when there are as many as the server allows,
/// or when a public one of that name exists; a client exactly when there are
/// as many as the server allows. A limit of zero is none.
pub proof fn law_limits_bind(
    s: server_model::StateView,
    name: Seq<char>,
    now: u64,
    after: server_model::StateView,
    r: Result<Seq<char>, Seq<char>>,
)
    requires
        server_model::create_outcome(s, Some(name), now, after, r),
    ensures
        ({
            let id = config::PUBLIC_CHANNEL_PREFIX@ + name;
            let full = s.limits.max_channels > 0 && s.channels.dom().len()
                >= s.limits.max_channels;
            &&& r is Err <==> full || s.channels.dom().contains(id)
            &&& r is Err ==> after == s
            &&& r is Ok ==> r == Ok::<Seq<char>, Seq<char>>(id) && after.channels.dom().contains(id)
                && after.channels[id] == Set::<Addr>::empty()
            &&& forall|x: Seq<char>|
                x != id ==> (#[trigger] after.channels.dom().contains(x)
                    <==> s.channels.dom().contains(x))
        }),
        s.limits.max_clients == 0 ==> !s.clients_full(),
        s.limits.max_clients > 0 ==> (s.clients_full() <==> s.clients.dom().len()
            >= s.limits.max_clients),
{
}

} // verus!
