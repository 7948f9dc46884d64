//! The server's state as mathematical maps, and what each request does to it.

use vstd::prelude::*;

use crate::addr;
use crate::addr::Addr;
use crate::config;
use crate::protocol;
use crate::table;
use crate::text;

verus! {

/// Resource limits of the server.
#[derive(Debug, Clone, Copy, PartialEq, Eq, Structural)]
pub struct Limits {
    /// Most channels; 0 means no limit.
    pub max_channels: usize,
    /// Most clients; 0 means no limit.
    pub max_clients: usize,
    /// Factor on all rate limits, in ten-thousandths.
    pub rate_limit_multiplier: u64,
}

impl Default for Limits {
    /// No limits, and rate limits as they are.
    fn default() -> (l: Self)
        ensures
            l == (Limits { max_channels: 0, max_clients: 0, rate_limit_multiplier: 10_000 }),
    {
        Limits { max_channels: 0, max_clients: 0, rate_limit_multiplier: 10_000 }
    }
}

/// What the server knows of a client.
#[verifier::ext_equal]
pub struct ClientView {
    pub name: Seq<char>,
    pub channel: Option<Seq<char>>,
    pub udp_addr: Option<Addr>,
    pub pubkey: Option<Seq<u8>>,
}

/// What the server knows.
#[verifier::ext_equal]
pub struct StateView {
    /// The UDP addresses that take part in each channel.
    pub channels: Map<Seq<char>, Set<Addr>>,
    /// The clients, by TCP address.
    pub clients: Map<Addr, ClientView>,
    /// The client that last presented a public key.
    pub pubkey_index: Map<Seq<u8>, Addr>,
    /// The voice key of each channel.
    pub channel_keys: Map<Seq<char>, Seq<u8>>,
    /// When each channel was created.
    pub channel_created_at: Map<Seq<char>, u64>,
    /// Channels that outlive their participants.
    pub persistent: Set<Seq<char>>,
    /// The client, the channel and the last use of each UDP token.
    pub udp_tokens: Map<u64, (Addr, Seq<char>, u64)>,
    /// How many names were handed out.
    pub name_counter: u64,
    /// Resource limits.
    pub limits: Limits,
    /// The addresses that the relay forwards to, by channel.
    pub peer_cache: Map<Seq<char>, Set<Addr>>,
}

/// A server that nobody has connected to.
pub open spec fn fresh(limits: Limits) -> StateView {
    StateView {
        channels: Map::empty(),
        clients: Map::empty(),
        pubkey_index: Map::empty(),
        channel_keys: Map::empty(),
        channel_created_at: Map::empty(),
        persistent: Set::empty(),
        udp_tokens: Map::empty(),
        name_counter: 0,
        limits,
        peer_cache: Map::empty(),
    }
}

/// The prefix of public channel ids.
pub open spec fn public_prefix() -> Seq<char> {
    config::PUBLIC_CHANNEL_PREFIX@
}

/// The prefix of sound-check channel ids.
pub open spec fn echo_prefix() -> Seq<char> {
    config::ECHO_CHANNEL_PREFIX@
}

/// Whether a channel id is that of a public channel.
pub open spec fn is_public(id: Seq<char>) -> bool {
    text::has_prefix(id, public_prefix())
}

/// Whether a channel id is that of a sound check.
pub open spec fn is_echo(id: Seq<char>) -> bool {
    text::has_prefix(id, echo_prefix())
}

/// How long ago `then` was, by the clock reading `now`.
pub open spec fn elapsed(now: u64, then_: u64) -> int {
    if now >= then_ {
        now - then_
    } else {
        0
    }
}

impl StateView {
    /// The UDP addresses in a channel; none where it does not exist.
    pub open spec fn participants(self, id: Seq<char>) -> Set<Addr> {
        if self.channels.dom().contains(id) {
            self.channels[id]
        } else {
            Set::empty()
        }
    }

    /// The addresses that the relay forwards the voice of a channel to.
    pub open spec fn cached(self, id: Seq<char>) -> Set<Addr> {
        if self.peer_cache.dom().contains(id) {
            self.peer_cache[id]
        } else {
            Set::empty()
        }
    }

    /// The clients that are in a channel, by TCP address.
    pub open spec fn members(self, id: Seq<char>) -> Set<Addr> {
        self.clients.dom().filter(|a: Addr| self.clients[a].channel == Some(id))
    }

    /// The relay forwards exactly to the participants of each channel.
    pub open spec fn cache_agrees(self) -> bool {
        forall|id: Seq<char>| #[trigger] self.cached(id) == self.participants(id)
    }

    /// Every channel has a voice key of full length and a creation time.
    pub open spec fn channels_complete(self) -> bool {
        &&& self.channel_keys.dom() == self.channels.dom()
        &&& self.channel_created_at.dom() == self.channels.dom()
        &&& forall|id: Seq<char>| #[trigger]
            self.channel_keys.dom().contains(id) ==> self.channel_keys[id].len()
                == config::VOICE_KEY_LEN
    }

    /// Persistent channels exist.
    pub open spec fn persistent_exist(self) -> bool {
        self.persistent.subset_of(self.channels.dom())
    }

    /// Every client that is in a channel is in one that exists.
    pub open spec fn clients_placed(self) -> bool {
        forall|a: Addr| #[trigger]
            self.clients.dom().contains(a) ==> match self.clients[a].channel {
                Some(id) => self.channels.dom().contains(id),
                None => true,
            }
    }

    /// No token is zero (that marks a keepalive), and every token belongs to
    /// a connected client and to a channel that exists.
    pub open spec fn tokens_sound(self) -> bool {
        &&& !self.udp_tokens.dom().contains(0)
        &&& forall|t: u64| #[trigger]
            self.udp_tokens.dom().contains(t) ==> {
                &&& self.clients.dom().contains(self.udp_tokens[t].0)
                &&& self.channels.dom().contains(self.udp_tokens[t].1)
            }
    }

    /// What holds of the server at all times.
    pub open spec fn wf(self) -> bool {
        &&& self.cache_agrees()
        &&& self.channels_complete()
        &&& self.persistent_exist()
        &&& self.clients_placed()
        &&& self.tokens_sound()
    }

    /// Every bound public key is the one its client presented last.
    pub open spec fn pubkeys_agree(self) -> bool {
        forall|pk: Seq<u8>| #[trigger]
            self.pubkey_index.dom().contains(pk) ==> {
                &&& self.clients.dom().contains(self.pubkey_index[pk])
                &&& self.clients[self.pubkey_index[pk]].pubkey == Some(pk)
            }
    }

    /// No further client is accepted.
    pub open spec fn clients_full(self) -> bool {
        self.limits.max_clients > 0 && self.clients.dom().len() >= self.limits.max_clients
    }

    /// No further channel is accepted.
    pub open spec fn channels_full(self) -> bool {
        self.limits.max_channels > 0 && self.channels.dom().len() >= self.limits.max_channels
    }
}

/// The name of the `n`-th client.
pub open spec fn user_name(n: u64) -> Seq<char> {
    "user-"@ + text::decimal(n as nat)
}

/// The number after `n`, around the end of the type.
pub open spec fn next_number(n: u64) -> u64 {
    if n == u64::MAX {
        0
    } else {
        (n + 1) as u64
    }
}

/// A new client at `a`, under the next name.
pub open spec fn registered(s: StateView, a: Addr) -> StateView {
    let n = next_number(s.name_counter);
    StateView {
        name_counter: n,
        clients: s.clients.insert(
            a,
            ClientView { name: user_name(n), channel: None, udp_addr: None, pubkey: None },
        ),
        ..s
    }
}

/// The public keys after the client at `a` gave up the key `pk`. One that
/// another client presented since then stays with that client.
pub open spec fn key_released(index: Map<Seq<u8>, Addr>, a: Addr, pk: Seq<u8>) -> Map<
    Seq<u8>,
    Addr,
> {
    if index.dom().contains(pk) && index[pk] == a {
        index.remove(pk)
    } else {
        index
    }
}

/// The client at `a` presented the public key `pk`; the last to do so owns it.
pub open spec fn key_bound(s: StateView, a: Addr, pk: Seq<u8>) -> StateView {
    if s.clients.dom().contains(a) {
        let c = s.clients[a];
        let index = match c.pubkey {
            Some(was) if was != pk => key_released(s.pubkey_index, a, was),
            _ => s.pubkey_index,
        };
        StateView {
            clients: s.clients.insert(a, ClientView { pubkey: Some(pk), ..c }),
            pubkey_index: index.insert(pk, a),
            ..s
        }
    } else {
        s
    }
}

/// The tokens that do not belong to `a`.
pub open spec fn tokens_without(tokens: Map<u64, (Addr, Seq<char>, u64)>, a: Addr) -> Map<
    u64,
    (Addr, Seq<char>, u64),
> {
    table::kept(tokens, |t: u64, e: (Addr, Seq<char>, u64)| e.0 != a)
}

/// The tokens that are not for the channel `id`.
pub open spec fn tokens_outside(tokens: Map<u64, (Addr, Seq<char>, u64)>, id: Seq<char>) -> Map<
    u64,
    (Addr, Seq<char>, u64),
> {
    table::kept(tokens, |t: u64, e: (Addr, Seq<char>, u64)| e.1 != id)
}

/// A client left the channel `id`, and with it the address `udp`. A channel
/// that nobody is in or takes part in any more is gone, unless it is
/// persistent.
pub open spec fn exited(s: StateView, id: Seq<char>, udp: Option<Addr>) -> StateView {
    let rest = match udp {
        Some(u) => s.participants(id).remove(u),
        None => s.participants(id),
    };
    if rest == Set::<Addr>::empty() && s.members(id) == Set::<Addr>::empty()
        && !s.persistent.contains(id) {
        StateView {
            channels: s.channels.remove(id),
            channel_keys: s.channel_keys.remove(id),
            channel_created_at: s.channel_created_at.remove(id),
            udp_tokens: tokens_outside(s.udp_tokens, id),
            peer_cache: s.peer_cache.remove(id),
            ..s
        }
    } else {
        StateView {
            channels: s.channels.insert(id, rest),
            peer_cache: s.peer_cache.insert(id, rest),
            ..s
        }
    }
}

/// The client at `a` disconnected.
pub open spec fn removed(s: StateView, a: Addr) -> StateView {
    if s.clients.dom().contains(a) {
        let c = s.clients[a];
        let gone = StateView {
            clients: s.clients.remove(a),
            pubkey_index: match c.pubkey {
                Some(pk) => key_released(s.pubkey_index, a, pk),
                None => s.pubkey_index,
            },
            udp_tokens: tokens_without(s.udp_tokens, a),
            ..s
        };
        match c.channel {
            Some(id) => exited(gone, id, c.udp_addr),
            None => gone,
        }
    } else {
        s
    }
}

/// The client at `a` left its channel.
pub open spec fn left(s: StateView, a: Addr) -> StateView {
    if s.clients.dom().contains(a) {
        let c = s.clients[a];
        match c.channel {
            Some(id) => exited(
                StateView {
                    clients: s.clients.insert(
                        a,
                        ClientView { channel: None, udp_addr: None, ..c },
                    ),
                    udp_tokens: tokens_without(s.udp_tokens, a),
                    ..s
                },
                id,
                c.udp_addr,
            ),
            None => s,
        }
    } else {
        s
    }
}

/// A new, empty channel.
pub open spec fn opened(s: StateView, id: Seq<char>, key: Seq<u8>, now: u64) -> StateView {
    StateView {
        channels: s.channels.insert(id, Set::empty()),
        channel_keys: s.channel_keys.insert(id, key),
        channel_created_at: s.channel_created_at.insert(id, now),
        ..s
    }
}

/// Some channel was opened under `id` with a key of full length.
pub open spec fn opened_somehow(s: StateView, id: Seq<char>, now: u64, after: StateView) -> bool {
    exists|key: Seq<u8>|
        key.len() == config::VOICE_KEY_LEN && after == #[trigger] opened(s, id, key, now)
}

/// What a request for a channel leads to. A named channel is public; any other
/// gets a generated id that no channel has.
pub open spec fn create_outcome(
    s: StateView,
    name: Option<Seq<char>>,
    now: u64,
    after: StateView,
    r: Result<Seq<char>, Seq<char>>,
) -> bool {
    if s.channels_full() {
        after == s && r == Err::<Seq<char>, Seq<char>>("channel limit reached"@)
    } else {
        match name {
            Some(n) => {
                let id = public_prefix() + n;
                if s.channels.dom().contains(id) {
                    after == s && r == Err::<Seq<char>, Seq<char>>(
                        "channel '"@ + id + "' already exists"@,
                    )
                } else {
                    r == Ok::<Seq<char>, Seq<char>>(id) && opened_somehow(s, id, now, after)
                }
            },
            None => if ids_exhausted(s, Seq::empty()) {
                after == s && r == Err::<Seq<char>, Seq<char>>("channel limit reached"@)
            } else {
                r matches Ok(id) && !s.channels.dom().contains(id) && protocol::is_generated_id(id)
                    && opened_somehow(s, id, now, after)
            },
        }
    }
}

/// What a request for a persistent channel leads to: a public channel that is
/// marked as persistent.
pub open spec fn create_persistent_outcome(
    s: StateView,
    name: Seq<char>,
    now: u64,
    after: StateView,
    r: Result<Seq<char>, Seq<char>>,
) -> bool {
    &&& create_outcome(s, Some(name), now, StateView { persistent: s.persistent, ..after }, r)
    &&& after.persistent == match r {
        Ok(id) => s.persistent.insert(id),
        Err(_) => s.persistent,
    }
}

/// Whether joining `id` mints a fresh voice key: it is persistent and empty.
pub open spec fn rotates_key(s: StateView, id: Seq<char>) -> bool {
    s.persistent.contains(id) && s.members(id) == Set::<Addr>::empty()
}

/// The voice key that a client joining `id` is given, where `drawn` is the
/// key that a rotation would mint.
pub open spec fn join_key(s: StateView, id: Seq<char>, drawn: Seq<u8>) -> Seq<u8> {
    if rotates_key(s, id) {
        drawn
    } else {
        s.channel_keys[id]
    }
}

/// The client at `a` joined `id` and holds `token`.
pub open spec fn joined(
    s: StateView,
    a: Addr,
    id: Seq<char>,
    token: u64,
    drawn: Seq<u8>,
    now: u64,
) -> StateView {
    StateView {
        clients: s.clients.insert(a, ClientView { channel: Some(id), ..s.clients[a] }),
        udp_tokens: s.udp_tokens.insert(token, (a, id, now)),
        channel_keys: s.channel_keys.insert(id, join_key(s, id, drawn)),
        ..s
    }
}

/// A token that can be handed out.
pub open spec fn token_free(s: StateView, token: u64) -> bool {
    token != 0 && !s.udp_tokens.dom().contains(token)
}

/// No token is left to hand out.
pub open spec fn tokens_exhausted(s: StateView) -> bool {
    forall|t: u64| t == 0 || #[trigger] s.udp_tokens.dom().contains(t)
}

/// A generated id, after a prefix, that no channel has.
pub open spec fn id_free(s: StateView, prefix: Seq<char>, id: Seq<char>) -> bool {
    &&& !s.channels.dom().contains(id)
    &&& exists|g: Seq<char>| #[trigger] protocol::is_generated_id(g) && id == prefix + g
}

/// Every generated id, after a prefix, is taken.
pub open spec fn ids_exhausted(s: StateView, prefix: Seq<char>) -> bool {
    forall|g: Seq<char>| #[trigger]
        protocol::is_generated_id(g) ==> s.channels.dom().contains(prefix + g)
}

/// Why a client cannot join a channel.
pub open spec fn join_refusal(s: StateView, a: Addr, id: Seq<char>) -> Option<Seq<char>> {
    if !s.channels.dom().contains(id) {
        Some("channel '"@ + id + "' not found"@)
    } else if !s.clients.dom().contains(a) {
        Some("client not registered"@)
    } else if s.clients[a].channel is Some {
        Some("already in a channel, leave first"@)
    } else {
        None
    }
}

/// The error of a join: a refusal, or no token left.
pub open spec fn join_error(s: StateView, a: Addr, id: Seq<char>) -> Option<Seq<char>> {
    match join_refusal(s, a, id) {
        Some(e) => Some(e),
        None => if tokens_exhausted(s) {
            Some("no UDP token left"@)
        } else {
            None
        },
    }
}

/// Why a client cannot start a sound check.
pub open spec fn echo_refusal(s: StateView, a: Addr) -> Option<Seq<char>> {
    if s.channels_full() {
        Some("channel limit reached"@)
    } else if !s.clients.dom().contains(a) {
        Some("client not registered"@)
    } else if s.clients[a].channel is Some {
        Some("already in a channel, leave first"@)
    } else {
        None
    }
}

/// The error of a sound check: a refusal, or no id or token left.
pub open spec fn echo_error(s: StateView, a: Addr) -> Option<Seq<char>> {
    match echo_refusal(s, a) {
        Some(e) => Some(e),
        None => if ids_exhausted(s, echo_prefix()) {
            Some("channel limit reached"@)
        } else if tokens_exhausted(s) {
            Some("no UDP token left"@)
        } else {
            None
        },
    }
}

/// The client at `a` is alone in the new sound-check channel `id`.
pub open spec fn echo_started(
    s: StateView,
    a: Addr,
    id: Seq<char>,
    token: u64,
    key: Seq<u8>,
    now: u64,
) -> StateView {
    let o = opened(s, id, key, now);
    StateView {
        clients: o.clients.insert(a, ClientView { channel: Some(id), ..o.clients[a] }),
        udp_tokens: o.udp_tokens.insert(token, (a, id, now)),
        ..o
    }
}

/// The names of clients, in the order of their addresses in `order`.
pub open spec fn names_of(s: StateView, order: Seq<Addr>) -> Seq<Seq<char>> {
    order.map_values(|a: Addr| s.clients[a].name)
}

/// `names` are the names of the clients in `id`, each once, in some order.
pub open spec fn is_roster(names: Seq<Seq<char>>, s: StateView, id: Seq<char>) -> bool {
    exists|order: Seq<Addr>|
        enumerates(order, s.members(id)) && names == #[trigger] names_of(s, order)
}

/// Channels and the number of clients in them, in the order of `order`.
/// (Counts are taken modulo 2^32.)
pub open spec fn occupancy(s: StateView, order: Seq<Seq<char>>) -> Seq<(Seq<char>, u32)> {
    order.map_values(|id: Seq<char>| (id, s.members(id).len() as u32))
}

/// `list` holds each public channel once with the number of clients in it, in
/// some order.
pub open spec fn is_public_list(list: Seq<(Seq<char>, u32)>, s: StateView) -> bool {
    exists|order: Seq<Seq<char>>|
        {
            &&& order.no_duplicates()
            &&& order.to_set() == s.channels.dom().filter(|id: Seq<char>| is_public(id))
            &&& list == #[trigger] occupancy(s, order)
        }
}

/// `addrs` holds each member of a set once, in some order.
pub open spec fn enumerates(addrs: Seq<Addr>, set: Set<Addr>) -> bool {
    addrs.no_duplicates() && addrs.to_set() == set
}

/// The clients that a message to a channel goes to.
pub open spec fn audience(s: StateView, id: Seq<char>, exclude: Option<Addr>) -> Set<Addr> {
    match exclude {
        Some(a) => s.members(id).remove(a),
        None => s.members(id),
    }
}

/// Whether a hello with `token` from `udp` is accepted: the token is known
/// and comes from the IP address of the client that it was given to.
pub open spec fn hello_accepted(s: StateView, token: u64, udp: Addr) -> bool {
    s.udp_tokens.dom().contains(token) && addr::canonical(addr::ip_of(s.udp_tokens[token].0))
        == addr::canonical(addr::ip_of(udp))
}

/// The participants after a client moved from `prev` to `udp`.
pub open spec fn moved_to(p: Set<Addr>, prev: Option<Addr>, udp: Addr) -> Set<Addr> {
    match prev {
        Some(was) => p.remove(was).insert(udp),
        None => p.insert(udp),
    }
}

/// The accepted hello with `token` came from `udp`: the client is reached
/// there from now on, and the token was used at `now`.
pub open spec fn hello_registered(s: StateView, token: u64, udp: Addr, now: u64) -> StateView {
    let (a, id, _) = s.udp_tokens[token];
    let c = s.clients[a];
    let p = moved_to(s.channels[id], c.udp_addr, udp);
    StateView {
        udp_tokens: s.udp_tokens.insert(token, (a, id, now)),
        clients: s.clients.insert(a, ClientView { udp_addr: Some(udp), ..c }),
        channels: s.channels.insert(id, p),
        peer_cache: s.peer_cache.insert(id, p),
        ..s
    }
}

/// The client at `a` is called `name` from now on.
pub open spec fn renamed(s: StateView, a: Addr, name: Seq<char>) -> StateView {
    if s.clients.dom().contains(a) {
        StateView { clients: s.clients.insert(a, ClientView { name, ..s.clients[a] }), ..s }
    } else {
        s
    }
}

/// Whether maintenance removes a channel: nobody takes part, nobody is in it,
/// it is not persistent, and it is older than `grace`.
pub open spec fn reapable(s: StateView, id: Seq<char>, grace: u64, now: u64) -> bool {
    &&& s.channels.dom().contains(id)
    &&& s.channels[id] == Set::<Addr>::empty()
    &&& s.members(id) == Set::<Addr>::empty()
    &&& !s.persistent.contains(id)
    &&& s.channel_created_at.dom().contains(id) ==> elapsed(now, s.channel_created_at[id]) > grace
}

/// Whether the client of a token is still in the token's channel.
pub open spec fn token_live(
    clients: Map<Addr, ClientView>,
    e: (Addr, Seq<char>, u64),
) -> bool {
    clients.dom().contains(e.0) && clients[e.0].channel == Some(e.1)
}

/// The server after maintenance: channels that can be reaped are gone with
/// their tokens, and so are the tokens unused for `ttl` whose client is no
/// longer in their channel.
pub open spec fn cleaned(s: StateView, grace: u64, ttl: u64, now: u64) -> StateView {
    StateView {
        channels: table::kept(
            s.channels,
            |id: Seq<char>, p: Set<Addr>| !reapable(s, id, grace, now),
        ),
        channel_keys: table::kept(
            s.channel_keys,
            |id: Seq<char>, k: Seq<u8>| !reapable(s, id, grace, now),
        ),
        channel_created_at: table::kept(
            s.channel_created_at,
            |id: Seq<char>, t: u64| !reapable(s, id, grace, now),
        ),
        udp_tokens: table::kept(
            s.udp_tokens,
            |t: u64, e: (Addr, Seq<char>, u64)|
                !reapable(s, e.1, grace, now) && (token_live(s.clients, e) || elapsed(now, e.2) < ttl),
        ),
        ..s
    }
}

/// The pairs of a channel and an address that takes part in it.
pub open spec fn participations(s: StateView) -> Set<(Seq<char>, Addr)> {
    Set::new(
        |p: (Seq<char>, Addr)| s.channels.dom().contains(p.0) && s.channels[p.0].contains(p.1),
    )
}

} // verus!
