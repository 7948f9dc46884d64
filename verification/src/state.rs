//! The server's state: clients, channels, voice keys and UDP tokens.
//!
//! Times are readings of a monotonic clock in nanoseconds.

use vstd::prelude::*;

use crate::addr;
use crate::addr::Addr;
use crate::config;
use crate::messages;
use crate::metrics;
use crate::metrics::Metrics;
use crate::protocol;
use crate::protocol::ChannelId;
use crate::random;
use crate::random::{
    generate_channel_id, nth_channel_id, random_key, random_u64, CHANNEL_ID_COUNT,
};
use crate::server_laws;
use crate::server_model;
use crate::server_model::Limits;
use crate::table;
use crate::table::{Key, KeySet, Table};
use crate::text;
use crate::text::{join2, join3, owned, push_decimal, starts_with, str_eq};

verus! {

/// Random draws that are tried before unused values are searched in order.
pub const ID_DRAWS: u32 = 64;

/// How long a new channel may stay empty: two maintenance intervals.
pub const CHANNEL_GRACE_NS: u64 = 60_000_000_000;

/// How long an unused token of a session out of its channel is kept.
pub const UDP_TOKEN_TTL_NS: u64 = 30_000_000_000;

/// Snapshot of the server's sizes for logging.
#[derive(Debug, Clone, Copy, PartialEq, Eq, Structural)]
pub struct Stats {
    pub clients: usize,
    pub channels: usize,
    pub udp_peers: usize,
}

/// What the server knows of a client.
#[derive(Debug)]
pub struct ClientInfo {
    pub name: String,
    pub channel: Option<ChannelId>,
    pub udp_addr: Option<Addr>,
    pub pubkey: Option<Vec<u8>>,
}

impl View for ClientInfo {
    type V = server_model::ClientView;

    open spec fn view(&self) -> server_model::ClientView {
        server_model::ClientView {
            name: self.name@,
            channel: messages::opt_text(self.channel),
            udp_addr: self.udp_addr,
            pubkey: messages::opt_bytes(self.pubkey),
        }
    }
}

/// The texts and counts of a channel list.
pub open spec fn listing(list: Seq<(ChannelId, u32)>) -> Seq<(Seq<char>, u32)> {
    list.map_values(|e: (ChannelId, u32)| (e.0@, e.1))
}

/// A copy of an optional string.
pub(crate) fn copy_text(o: &Option<String>) -> (r: Option<String>)
    ensures
        messages::opt_text(r) == messages::opt_text(*o),
{
    match o {
        Some(s) => Some(s.clone()),
        None => None,
    }
}

/// A copy of an optional byte vector.
pub(crate) fn copy_bytes(o: &Option<Vec<u8>>) -> (r: Option<Vec<u8>>)
    ensures
        messages::opt_bytes(r) == messages::opt_bytes(*o),
{
    match o {
        Some(v) => Some(v.duplicate()),
        None => None,
    }
}

impl Clone for ClientInfo {
    fn clone(&self) -> (r: Self)
        ensures
            r@ == self@,
    {
        ClientInfo {
            name: self.name.clone(),
            channel: copy_text(&self.channel),
            udp_addr: self.udp_addr,
            pubkey: copy_bytes(&self.pubkey),
        }
    }
}

impl ClientInfo {
    /// Whether the client is in the channel.
    fn is_in(&self, id: &str) -> (r: bool)
        ensures
            r == (self@.channel == Some(id@)),
    {
        match &self.channel {
            Some(c) => str_eq(c.as_str(), id),
            None => false,
        }
    }
}

/// The server's state.
pub struct ServerState {
    channels: Table<ChannelId, KeySet<Addr>>,
    clients: Table<Addr, ClientInfo>,
    pubkey_index: Table<Vec<u8>, Addr>,
    channel_keys: Table<ChannelId, Vec<u8>>,
    channel_created_at: Table<ChannelId, u64>,
    persistent: KeySet<ChannelId>,
    udp_tokens: Table<u64, (Addr, ChannelId, u64)>,
    name_counter: u64,
    limits: Limits,
    peer_cache: Table<ChannelId, KeySet<Addr>>,
    metrics: Metrics,
}

impl View for ServerState {
    type V = server_model::StateView;

    closed spec fn view(&self) -> server_model::StateView {
        server_model::StateView {
            channels: self.channels@,
            clients: self.clients@,
            pubkey_index: self.pubkey_index@,
            channel_keys: self.channel_keys@,
            channel_created_at: self.channel_created_at@,
            persistent: self.persistent@,
            udp_tokens: self.udp_tokens@,
            name_counter: self.name_counter,
            limits: self.limits,
            peer_cache: self.peer_cache@,
        }
    }
}

impl ServerState {
    /// The counters.
    pub closed spec fn counters(&self) -> Metrics {
        self.metrics
    }

    /// A server that nobody has connected to.
    pub fn new(limits: Limits) -> (s: Self)
        ensures
            s@ == server_model::fresh(limits),
            s@.wf(),
            s.counters() == metrics::no_events(),
    {
        Self::with_metrics(limits, Metrics::new())
    }

    /// A server that goes on with the given counters.
    pub fn with_metrics(limits: Limits, metrics: Metrics) -> (s: Self)
        ensures
            s@ == server_model::fresh(limits),
            s@.wf(),
            s.counters() == metrics,
    {
        let s = ServerState {
            channels: Table::new(),
            clients: Table::new(),
            pubkey_index: Table::new(),
            channel_keys: Table::new(),
            channel_created_at: Table::new(),
            persistent: KeySet::new(),
            udp_tokens: Table::new(),
            name_counter: 0,
            limits,
            peer_cache: Table::new(),
            metrics,
        };
        assert(s@ =~= server_model::fresh(limits));
        s
    }

    /// Registers a new TCP client under the next free name, or refuses it
    /// when the server is full.
    pub fn register_client(&mut self, tcp_addr: Addr) -> (r: Result<String, String>)
        requires
            old(self)@.wf(),
        ensures
            final(self)@.wf(),
            final(self).counters() == old(self).counters(),
            match r {
                Ok(name) => {
                    &&& !old(self)@.clients_full()
                    &&& final(self)@ == server_model::registered(old(self)@, tcp_addr)
                    &&& name@ == server_model::user_name(
                        server_model::next_number(old(self)@.name_counter),
                    )
                },
                Err(e) => {
                    &&& old(self)@.clients_full()
                    &&& final(self)@ == old(self)@
                    &&& e@ == "server full"@
                },
            },
    {
        if self.limits.max_clients > 0 && self.clients.len() >= self.limits.max_clients {
            return Err(owned("server full"));
        }
        self.name_counter = self.name_counter.wrapping_add(1);
        let mut name = owned("user-");
        push_decimal(&mut name, self.name_counter);
        self.clients.insert(
            tcp_addr,
            ClientInfo { name: name.clone(), channel: None, udp_addr: None, pubkey: None },
        );
        proof {
            assert(self@ =~= server_model::registered(old(self)@, tcp_addr));
            server_laws::law_registered_wf(old(self)@, tcp_addr);
        }
        Ok(name)
    }

    /// Unbinds a public key from a client, unless another one has bound it
    /// since.
    fn release_key(&mut self, tcp_addr: &Addr, pubkey: &Vec<u8>)
        ensures
            final(self)@ == (server_model::StateView {
                pubkey_index: server_model::key_released(
                    old(self)@.pubkey_index,
                    *tcp_addr,
                    pubkey@,
                ),
                ..old(self)@
            }),
            final(self).counters() == old(self).counters(),
    {
        let owned_still = match self.pubkey_index.get(pubkey) {
            Some(a) => *a == *tcp_addr,
            None => false,
        };
        if owned_still {
            let _ = self.pubkey_index.remove(pubkey);
        }
    }

    /// Binds a public key to a client. A key that another client had bound
    /// belongs to this one from now on.
    pub fn set_pubkey(&mut self, tcp_addr: &Addr, pubkey: Vec<u8>)
        requires
            old(self)@.wf(),
        ensures
            final(self)@.wf(),
            final(self)@ == server_model::key_bound(old(self)@, *tcp_addr, pubkey@),
            final(self).counters() == old(self).counters(),
    {
        let ghost pk = pubkey@;
        if let Some(mut client) = self.clients.remove(tcp_addr) {
            if let Some(was) = &client.pubkey {
                if !was.same(&pubkey) {
                    self.release_key(tcp_addr, was);
                }
            }
            client.pubkey = Some(pubkey.duplicate());
            self.clients.insert(*tcp_addr, client);
            self.pubkey_index.insert(pubkey, *tcp_addr);
        }
        proof {
            assert(self@ =~= server_model::key_bound(old(self)@, *tcp_addr, pk));
            server_laws::law_key_bound_wf(old(self)@, *tcp_addr, pk);
        }
    }

    /// The client that a public key is bound to.
    pub fn lookup_pubkey(&self, pubkey: &Vec<u8>) -> (r: Option<Addr>)
        ensures
            r is Some <==> self@.pubkey_index.dom().contains(pubkey@),
            r matches Some(a) ==> self@.pubkey_index[pubkey@] == a,
    {
        match self.pubkey_index.get(pubkey) {
            Some(a) => Some(*a),
            None => None,
        }
    }

    /// Sets the addresses that the relay forwards the voice of a channel to.
    fn update_channel_peers(&mut self, channel_id: &ChannelId)
        ensures
            final(self)@ == (server_model::StateView {
                peer_cache: old(self)@.peer_cache.insert(
                    channel_id@,
                    old(self)@.participants(channel_id@),
                ),
                ..old(self)@
            }),
            final(self).counters() == old(self).counters(),
    {
        let peers: KeySet<Addr> = match self.channels.get(channel_id) {
            Some(set) => copy_set(set),
            None => KeySet::new(),
        };
        self.peer_cache.insert(channel_id.clone(), peers);
    }

    /// Whether a client is in a channel.
    fn is_occupied(&self, channel_id: &str) -> (r: bool)
        ensures
            r == (self@.members(channel_id@) != Set::<Addr>::empty()),
    {
        let addrs = self.channel_members(channel_id);
        proof {
            let m = self@.members(channel_id@);
            if addrs@.len() > 0 {
                assert(addrs@.to_set().contains(addrs@[0]));
            } else {
                assert(addrs@.to_set() =~= Set::<Addr>::empty());
            }
        }
        addrs.len() > 0
    }

    /// Takes an address out of a channel that a client has left, and the
    /// channel out of the state when nobody is in it or takes part in it any
    /// more and it is not persistent.
    fn exit_channel(&mut self, channel_id: &ChannelId, udp_addr: Option<Addr>)
        requires
            old(self)@.wf(),
            old(self)@.channels.dom().contains(channel_id@),
        ensures
            final(self)@.wf(),
            final(self)@ == server_model::exited(old(self)@, channel_id@, udp_addr),
            final(self).counters() == old(self).counters(),
    {
        let stays = self.persistent.contains(channel_id) || self.is_occupied(channel_id.as_str());
        let mut channel_destroyed = false;
        if let Some(mut participants) = self.channels.remove(channel_id) {
            if let Some(udp) = udp_addr {
                let _ = participants.remove(&udp);
            }
            if participants.len() == 0 && !stays {
                let _ = self.channel_keys.remove(channel_id);
                let _ = self.channel_created_at.remove(channel_id);
                channel_destroyed = true;
            } else {
                self.channels.insert(channel_id.clone(), participants);
            }
        }
        if channel_destroyed {
            self.drop_channel_tokens(channel_id);
            let _ = self.peer_cache.remove(channel_id);
        } else {
            self.update_channel_peers(channel_id);
        }
        proof {
            assert(self@ =~= server_model::exited(old(self)@, channel_id@, udp_addr));
            server_laws::law_exited_wf(old(self)@, channel_id@, udp_addr);
        }
    }

    /// Drops the UDP tokens for a channel.
    fn drop_channel_tokens(&mut self, channel_id: &ChannelId)
        ensures
            final(self)@ == (server_model::StateView {
                udp_tokens: server_model::tokens_outside(old(self)@.udp_tokens, channel_id@),
                ..old(self)@
            }),
            final(self).counters() == old(self).counters(),
    {
        let ghost id = channel_id@;
        let keep = |t: &u64, e: &(Addr, ChannelId, u64)| -> (r: bool)
            ensures
                r == (e@.1 != channel_id@),
            { !str_eq(e.1.as_str(), channel_id.as_str()) };
        self.udp_tokens.retain(keep, Ghost(|t: u64, e: (Addr, Seq<char>, u64)| e.1 != id));
    }

    /// Drops the UDP tokens of a client.
    fn drop_tokens(&mut self, tcp_addr: &Addr)
        ensures
            final(self)@ == (server_model::StateView {
                udp_tokens: server_model::tokens_without(old(self)@.udp_tokens, *tcp_addr),
                ..old(self)@
            }),
            final(self).counters() == old(self).counters(),
    {
        let a: Addr = *tcp_addr;
        let keep = |t: &u64, e: &(Addr, ChannelId, u64)| -> (r: bool)
            ensures
                r == (e@.0 != a),
            { e.0 != a };
        self.udp_tokens.retain(keep, Ghost(|t: u64, e: (Addr, Seq<char>, u64)| e.0 != a));
    }

    /// Removes a client. Returns its name and the channel that it was in.
    pub fn remove_client(&mut self, tcp_addr: &Addr) -> (r: Option<(String, Option<ChannelId>)>)
        requires
            old(self)@.wf(),
        ensures
            final(self)@.wf(),
            final(self)@ == server_model::removed(old(self)@, *tcp_addr),
            final(self).counters() == old(self).counters(),
            r is Some <==> old(self)@.clients.dom().contains(*tcp_addr),
            r matches Some((name, channel)) ==> {
                &&& name@ == old(self)@.clients[*tcp_addr].name
                &&& messages::opt_text(channel) == old(self)@.clients[*tcp_addr].channel
            },
    {
        let ghost before = self@;
        let info = match self.clients.remove(tcp_addr) {
            Some(info) => info,
            None => {
                assert(self@ =~= before);
                return None;
            },
        };
        if let Some(pk) = &info.pubkey {
            self.release_key(tcp_addr, pk);
        }
        self.drop_tokens(tcp_addr);
        proof {
            server_laws::lemma_tokens_without(before, self@, *tcp_addr);
        }
        if let Some(ch) = &info.channel {
            self.exit_channel(ch, info.udp_addr);
        }
        proof {
            assert(self@ =~= server_model::removed(before, *tcp_addr));
        }
        Some((info.name, info.channel))
    }

    /// Leaves the current channel. Returns the client's name and the channel.
    pub fn leave_channel(&mut self, tcp_addr: &Addr) -> (r: Option<(String, ChannelId)>)
        requires
            old(self)@.wf(),
        ensures
            final(self)@.wf(),
            final(self)@ == server_model::left(old(self)@, *tcp_addr),
            final(self).counters() == old(self).counters(),
            r is Some <==> {
                &&& old(self)@.clients.dom().contains(*tcp_addr)
                &&& old(self)@.clients[*tcp_addr].channel is Some
            },
            r matches Some((name, channel)) ==> {
                &&& name@ == old(self)@.clients[*tcp_addr].name
                &&& old(self)@.clients[*tcp_addr].channel == Some(channel@)
            },
    {
        let ghost before = self@;
        let mut client = match self.clients.get(tcp_addr) {
            Some(client) => client.clone(),
            None => return None,
        };
        let channel_id = match copy_text(&client.channel) {
            Some(id) => id,
            None => return None,
        };
        let name = client.name.clone();
        let udp_addr = client.udp_addr;
        client.channel = None;
        client.udp_addr = None;
        self.clients.insert(*tcp_addr, client);
        self.drop_tokens(tcp_addr);
        proof {
            assert(self@.clients.dom() =~= before.clients.dom());
            server_laws::lemma_tokens_without(before, self@, *tcp_addr);
        }
        self.exit_channel(&channel_id, udp_addr);
        proof {
            assert(self@ =~= server_model::left(before, *tcp_addr));
        }
        Some((name, channel_id))
    }

    /// An id for a new channel: a random one, or the first unused one when
    /// [`ID_DRAWS`] draws in a row were taken.
    fn unused_id(&self, prefix: &str) -> (r: Option<ChannelId>)
        ensures
            r is None <==> server_model::ids_exhausted(self@, prefix@),
            r matches Some(id) ==> server_model::id_free(self@, prefix@, id@),
    {
        let mut draws: u32 = 0;
        while draws < ID_DRAWS
            decreases ID_DRAWS - draws,
        {
            let drawn = generate_channel_id();
            let id = join2(prefix, drawn.as_str());
            if !self.channels.contains(&id) {
                return Some(id);
            }
            draws = draws + 1;
        }
        let mut n: u64 = 0;
        while n < CHANNEL_ID_COUNT
            invariant
                n <= CHANNEL_ID_COUNT,
                forall|m: nat|
                    m < n ==> self@.channels.dom().contains(
                        prefix@ + #[trigger] random::numbered_id(m, 5),
                    ),
            decreases CHANNEL_ID_COUNT - n,
        {
            let numbered = nth_channel_id(n);
            let id = join2(prefix, numbered.as_str());
            if !self.channels.contains(&id) {
                return Some(id);
            }
            n = n + 1;
        }
        proof {
            assert forall|g: Seq<char>| #[trigger]
                protocol::is_generated_id(g) implies self@.channels.dom().contains(prefix@ + g) by {
                let m = random::lemma_every_id_numbered(g);
                reveal_with_fuel(random::id_count, 6);
                assert(random::numbered_id(m, 5) == g);
            }
        }
        None
    }

    /// A UDP token to hand out: a random one, or the first unused one when
    /// [`ID_DRAWS`] draws in a row were taken.
    fn unused_token(&self) -> (r: Option<u64>)
        ensures
            r is None <==> server_model::tokens_exhausted(self@),
            r matches Some(t) ==> server_model::token_free(self@, t),
    {
        let mut draws: u32 = 0;
        while draws < ID_DRAWS
            decreases ID_DRAWS - draws,
        {
            let t: u64 = random_u64();
            if t != 0 && !self.udp_tokens.contains(&t) {
                assert(!self@.udp_tokens.dom().contains(t));
                return Some(t);
            }
            draws = draws + 1;
        }
        let mut t: u64 = 0;
        while t < u64::MAX
            invariant
                forall|u: u64| 0 < u <= t ==> #[trigger] self@.udp_tokens.dom().contains(u),
            decreases u64::MAX - t,
        {
            t = t + 1;
            if !self.udp_tokens.contains(&t) {
                assert(!self@.udp_tokens.dom().contains(t));
                return Some(t);
            }
        }
        None
    }

    /// Adds an empty channel with the given voice key.
    pub fn open_channel(&mut self, id: ChannelId, key: Vec<u8>, now: u64)
        requires
            old(self)@.wf(),
            !old(self)@.channels.dom().contains(id@),
            key@.len() == config::VOICE_KEY_LEN,
        ensures
            final(self)@.wf(),
            final(self)@ == server_model::opened(old(self)@, id@, key@, now),
            final(self).counters() == old(self).counters(),
    {
        let ghost k = key@;
        self.channels.insert(id.clone(), KeySet::new());
        self.channel_keys.insert(id.clone(), key);
        proof {
            server_laws::law_opened_wf(old(self)@, id@, k, now);
        }
        self.channel_created_at.insert(id, now);
    }

    /// Whether the limit on channels is reached.
    fn at_channel_limit(&self) -> (r: bool)
        ensures
            r == self@.channels_full(),
    {
        self.limits.max_channels > 0 && self.channels.len() >= self.limits.max_channels
    }

    /// Creates a channel. One with a name is public: its id is `pub-` and the
    /// name. Any other gets a random id.
    pub fn create_channel(&mut self, name: Option<&str>, now: u64) -> (r: Result<ChannelId, String>)
        requires
            old(self)@.wf(),
        ensures
            final(self)@.wf(),
            final(self).counters() == old(self).counters(),
            server_model::create_outcome(
                old(self)@,
                messages::opt_str(name),
                now,
                final(self)@,
                messages::text_result(r),
            ),
    {
        if self.at_channel_limit() {
            return Err(owned("channel limit reached"));
        }
        let id = match name {
            Some(name) => {
                let id = join2(config::PUBLIC_CHANNEL_PREFIX, name);
                if self.channels.contains(&id) {
                    return Err(join3("channel '", id.as_str(), "' already exists"));
                }
                id
            },
            None => match self.unused_id("") {
                Some(id) => {
                    proof {
                        reveal_strlit("");
                        let g = choose|g: Seq<char>| #[trigger]
                            protocol::is_generated_id(g) && id@ == ""@ + g;
                        assert(id@ =~= g);
                    }
                    id
                },
                None => {
                    proof {
                        reveal_strlit("");
                        assert forall|g: Seq<char>| #[trigger]
                            protocol::is_generated_id(g) implies self@.channels.dom().contains(
                            Seq::<char>::empty() + g,
                        ) by {
                            assert(self@.channels.dom().contains(""@ + g));
                            assert(""@ + g =~= Seq::<char>::empty() + g);
                        }
                    }
                    return Err(owned("channel limit reached"));
                },
            },
        };
        let key = random_key();
        let ghost k = key@;
        self.open_channel(id.clone(), key, now);
        proof {
            assert(self@ == server_model::opened(old(self)@, id@, k, now));
        }
        Ok(id)
    }

    /// Creates a public channel that stays when nobody is in it. Its voice
    /// key is minted anew whenever somebody enters the empty channel.
    pub fn create_persistent_channel(&mut self, name: &str, now: u64) -> (r: Result<
        ChannelId,
        String,
    >)
        requires
            old(self)@.wf(),
        ensures
            final(self)@.wf(),
            final(self).counters() == old(self).counters(),
            server_model::create_persistent_outcome(
                old(self)@,
                name@,
                now,
                final(self)@,
                messages::text_result(r),
            ),
    {
        let r = self.create_channel(Some(name), now);
        match r {
            Ok(id) => {
                let ghost mid = self@;
                self.persistent.insert(id.clone());
                proof {
                    server_laws::lemma_same_channels(mid, self@);
                    assert(mid =~= (server_model::StateView {
                        persistent: old(self)@.persistent,
                        ..self@
                    }));
                }
                Ok(id)
            },
            Err(e) => {
                assert(self@ =~= (server_model::StateView {
                    persistent: old(self)@.persistent,
                    ..self@
                }));
                Err(e)
            },
        }
    }

    /// The TCP addresses of the clients in a channel.
    fn channel_members(&self, channel_id: &str) -> (addrs: Vec<Addr>)
        ensures
            server_model::enumerates(addrs@, self@.members(channel_id@)),
    {
        let n: usize = self.clients.len();
        let mut addrs: Vec<Addr> = Vec::new();
        let mut i: usize = 0;
        while i < n
            invariant
                i <= n == self.clients.keys().len(),
                self.clients.keys().no_duplicates(),
                addrs@.no_duplicates(),
                forall|a: Addr| #[trigger]
                    addrs@.contains(a) <==> {
                        &&& self.clients.keys().subrange(0, i as int).contains(a)
                        &&& self@.clients.dom().contains(a)
                        &&& self@.clients[a].channel == Some(channel_id@)
                    },
            decreases n - i,
        {
            let (a, info) = self.clients.entry(i);
            let ghost part = self.clients.keys().subrange(0, i as int);
            let ghost before = addrs@;
            if info.is_in(channel_id) {
                addrs.push(*a);
            }
            i = i + 1;
            proof {
                let next = self.clients.keys().subrange(0, i as int);
                assert(next =~= part.push(*a));
                table::lemma_push_contains(part, *a);
                table::lemma_push_contains(before, *a);
                assert(!part.contains(*a)) by {
                    if part.contains(*a) {
                        let j = choose|j: int| 0 <= j < part.len() && part[j] == *a;
                        assert(self.clients.keys()[j] == self.clients.keys()[i - 1]);
                    }
                }
                assert(!before.contains(*a));
            }
        }
        proof {
            assert(self.clients.keys().subrange(0, n as int) =~= self.clients.keys());
            assert forall|a: Addr| #[trigger]
                addrs@.to_set().contains(a) <==> self@.members(channel_id@).contains(a) by {
                assert(addrs@.contains(a) <==> addrs@.to_set().contains(a));
                assert(self.clients.keys().contains(a) <==> self.clients.keys().to_set().contains(
                    a,
                ));
            }
            assert(addrs@.to_set() =~= self@.members(channel_id@));
        }
        addrs
    }

    /// The names of the clients in a channel.
    fn channel_names(&self, channel_id: &str) -> (names: Vec<String>)
        ensures
            server_model::is_roster(messages::texts(names@), self@, channel_id@),
    {
        let addrs = self.channel_members(channel_id);
        let mut names: Vec<String> = Vec::new();
        let mut i: usize = 0;
        while i < addrs.len()
            invariant
                i <= addrs@.len(),
                server_model::enumerates(addrs@, self@.members(channel_id@)),
                messages::texts(names@) == server_model::names_of(
                    self@,
                    addrs@.subrange(0, i as int),
                ),
            decreases addrs.len() - i,
        {
            proof {
                assert(addrs@.to_set().contains(addrs@[i as int]));
                assert(self@.members(channel_id@).contains(addrs@[i as int]));
            }
            let ghost before = messages::texts(names@);
            match self.clients.get(&addrs[i]) {
                Some(info) => {
                    names.push(info.name.clone());
                    assert(messages::texts(names@) =~= before.push(
                        self@.clients[addrs@[i as int]].name,
                    ));
                },
                None => {},
            }
            i = i + 1;
            proof {
                assert(addrs@.subrange(0, i as int) =~= addrs@.subrange(0, i - 1).push(
                    addrs@[i - 1],
                ));
                assert(messages::texts(names@) =~= server_model::names_of(
                    self@,
                    addrs@.subrange(0, i as int),
                ));
            }
        }
        proof {
            assert(addrs@.subrange(0, addrs@.len() as int) =~= addrs@);
            assert(messages::texts(names@) == server_model::names_of(self@, addrs@));
        }
        names
    }

    /// Why a client cannot join a channel.
    fn refusal(&self, tcp_addr: &Addr, channel_id: &ChannelId) -> (r: Option<String>)
        ensures
            messages::opt_text(r) == server_model::join_refusal(self@, *tcp_addr, channel_id@),
    {
        if !self.channels.contains(channel_id) {
            return Some(join3("channel '", channel_id.as_str(), "' not found"));
        }
        match self.clients.get(tcp_addr) {
            None => Some(owned("client not registered")),
            Some(c) => match &c.channel {
                Some(_) => Some(owned("already in a channel, leave first")),
                None => None,
            },
        }
    }

    /// Joins a channel with the given token and, where the join mints one,
    /// the given voice key. Returns the names of the clients in the channel,
    /// the token and the voice key.
    pub fn join_with(
        &mut self,
        tcp_addr: &Addr,
        channel_id: &ChannelId,
        token: u64,
        drawn: Vec<u8>,
        now: u64,
    ) -> (r: Result<(Vec<String>, u64, Vec<u8>), String>)
        requires
            old(self)@.wf(),
            server_model::token_free(old(self)@, token),
            drawn@.len() == config::VOICE_KEY_LEN,
        ensures
            final(self)@.wf(),
            final(self).counters() == old(self).counters(),
            match r {
                Ok((names, t, key)) => {
                    &&& server_model::join_refusal(old(self)@, *tcp_addr, channel_id@) is None
                    &&& final(self)@ == server_model::joined(
                        old(self)@,
                        *tcp_addr,
                        channel_id@,
                        token,
                        drawn@,
                        now,
                    )
                    &&& server_model::is_roster(
                        messages::texts(names@),
                        final(self)@,
                        channel_id@,
                    )
                    &&& t == token
                    &&& key@ == server_model::join_key(old(self)@, channel_id@, drawn@)
                },
                Err(e) => {
                    &&& server_model::join_refusal(old(self)@, *tcp_addr, channel_id@) == Some(e@)
                    &&& final(self)@ == old(self)@
                },
            },
    {
        let ghost before = self@;
        let ghost d = drawn@;
        if let Some(e) = self.refusal(tcp_addr, channel_id) {
            return Err(e);
        }
        let occupied = self.is_occupied(channel_id.as_str());
        if !occupied && self.persistent.contains(channel_id) {
            self.channel_keys.insert(channel_id.clone(), drawn);
        }
        let voice_key: Vec<u8> = match self.channel_keys.get(channel_id) {
            Some(key) => key.duplicate(),
            None => Vec::new(),
        };
        if let Some(mut client) = self.clients.remove(tcp_addr) {
            client.channel = Some(channel_id.clone());
            self.clients.insert(*tcp_addr, client);
        }
        self.udp_tokens.insert(token, (*tcp_addr, channel_id.clone(), now));
        proof {
            assert(before.channel_keys.dom().contains(channel_id@));
            assert(self@.channel_keys =~= before.channel_keys.insert(
                channel_id@,
                server_model::join_key(before, channel_id@, d),
            ));
            assert(self@.clients =~= before.clients.insert(
                *tcp_addr,
                server_model::ClientView {
                    channel: Some(channel_id@),
                    ..before.clients[*tcp_addr]
                },
            ));
            assert(self@ =~= server_model::joined(
                before,
                *tcp_addr,
                channel_id@,
                token,
                d,
                now,
            ));
            server_laws::law_joined_wf(before, *tcp_addr, channel_id@, token, d, now);
        }
        Ok((self.channel_names(channel_id.as_str()), token, voice_key))
    }

    /// Joins a channel. Returns the names of the clients in it, a UDP token
    /// and the voice key.
    pub fn join_channel(&mut self, tcp_addr: &Addr, channel_id: &ChannelId, now: u64) -> (r: Result<
        (Vec<String>, u64, Vec<u8>),
        String,
    >)
        requires
            old(self)@.wf(),
        ensures
            final(self)@.wf(),
            final(self).counters() == old(self).counters(),
            match r {
                Ok((names, token, key)) => {
                    &&& server_model::join_refusal(old(self)@, *tcp_addr, channel_id@) is None
                    &&& server_model::token_free(old(self)@, token)
                    &&& key@.len() == config::VOICE_KEY_LEN
                    &&& !server_model::rotates_key(old(self)@, channel_id@) ==> key@ == old(
                        self,
                    )@.channel_keys[channel_id@]
                    &&& final(self)@ == server_model::joined(
                        old(self)@,
                        *tcp_addr,
                        channel_id@,
                        token,
                        key@,
                        now,
                    )
                    &&& server_model::is_roster(
                        messages::texts(names@),
                        final(self)@,
                        channel_id@,
                    )
                },
                Err(e) => {
                    &&& final(self)@ == old(self)@
                    &&& server_model::join_error(old(self)@, *tcp_addr, channel_id@) == Some(e@)
                },
            },
    {
        if let Some(e) = self.refusal(tcp_addr, channel_id) {
            return Err(e);
        }
        proof {
            assert(self@.channel_keys.dom().contains(channel_id@));
        }
        match self.unused_token() {
            Some(token) => {
                let key = random_key();
                let ghost d = key@;
                let r = self.join_with(tcp_addr, channel_id, token, key, now);
                proof {
                    if r is Ok {
                        assert(server_model::joined(
                            old(self)@,
                            *tcp_addr,
                            channel_id@,
                            token,
                            d,
                            now,
                        ) =~= server_model::joined(
                            old(self)@,
                            *tcp_addr,
                            channel_id@,
                            token,
                            server_model::join_key(old(self)@, channel_id@, d),
                            now,
                        ));
                    }
                }
                r
            },
            None => Err(owned("no UDP token left")),
        }
    }


    /// Why a client cannot start a sound check.
    fn echo_refusal(&self, tcp_addr: &Addr) -> (r: Option<String>)
        ensures
            messages::opt_text(r) == server_model::echo_refusal(self@, *tcp_addr),
    {
        if self.at_channel_limit() {
            return Some(owned("channel limit reached"));
        }
        match self.clients.get(tcp_addr) {
            None => Some(owned("client not registered")),
            Some(c) => match &c.channel {
                Some(_) => Some(owned("already in a channel, leave first")),
                None => None,
            },
        }
    }

    /// Starts a sound check on the given new channel.
    pub fn start_echo_with(
        &mut self,
        tcp_addr: &Addr,
        channel_id: ChannelId,
        token: u64,
        key: Vec<u8>,
        now: u64,
    )
        requires
            old(self)@.wf(),
            server_model::echo_refusal(old(self)@, *tcp_addr) is None,
            !old(self)@.channels.dom().contains(channel_id@),
            server_model::token_free(old(self)@, token),
            key@.len() == config::VOICE_KEY_LEN,
        ensures
            final(self)@.wf(),
            final(self)@ == server_model::echo_started(
                old(self)@,
                *tcp_addr,
                channel_id@,
                token,
                key@,
                now,
            ),
            final(self).counters() == old(self).counters(),
    {
        let ghost before = self@;
        let ghost k = key@;
        self.open_channel(channel_id.clone(), key, now);
        self.udp_tokens.insert(token, (*tcp_addr, channel_id.clone(), now));
        if let Some(mut client) = self.clients.remove(tcp_addr) {
            client.channel = Some(channel_id.clone());
            self.clients.insert(*tcp_addr, client);
        }
        proof {
            assert(self@ =~= server_model::echo_started(
                before,
                *tcp_addr,
                channel_id@,
                token,
                k,
                now,
            ));
            server_laws::law_echo_started_wf(before, *tcp_addr, channel_id@, token, k, now);
        }
    }

    /// Creates and joins a sound-check channel of the client's own. Returns
    /// its id, a UDP token and the voice key. The relay reflects the voice of
    /// such a channel to its sender.
    pub fn start_echo_test(&mut self, tcp_addr: &Addr, now: u64) -> (r: Result<
        (ChannelId, u64, Vec<u8>),
        String,
    >)
        requires
            old(self)@.wf(),
        ensures
            final(self)@.wf(),
            final(self).counters() == old(self).counters(),
            match r {
                Ok((id, token, key)) => {
                    &&& server_model::echo_refusal(old(self)@, *tcp_addr) is None
                    &&& server_model::id_free(old(self)@, server_model::echo_prefix(), id@)
                    &&& server_model::token_free(old(self)@, token)
                    &&& key@.len() == config::VOICE_KEY_LEN
                    &&& final(self)@ == server_model::echo_started(
                        old(self)@,
                        *tcp_addr,
                        id@,
                        token,
                        key@,
                        now,
                    )
                },
                Err(e) => {
                    &&& final(self)@ == old(self)@
                    &&& server_model::echo_error(old(self)@, *tcp_addr) == Some(e@)
                },
            },
    {
        if let Some(e) = self.echo_refusal(tcp_addr) {
            return Err(e);
        }
        let channel_id = match self.unused_id(config::ECHO_CHANNEL_PREFIX) {
            Some(id) => id,
            None => return Err(owned("channel limit reached")),
        };
        let token: u64 = match self.unused_token() {
            Some(token) => token,
            None => return Err(owned("no UDP token left")),
        };
        let key = random_key();
        self.start_echo_with(tcp_addr, channel_id.clone(), token, key.duplicate(), now);
        Ok((channel_id, token, key))
    }

    /// Registers the UDP address that a hello with a token came from.
    ///
    /// The token is bound to the IP address of the client's TCP connection;
    /// a hello from elsewhere is refused and leaves the token usable. IP
    /// addresses are compared in canonical form, ports are not compared. A
    /// repeated hello is accepted again, and one from a new port replaces
    /// the old address in the channel.
    pub fn register_udp_by_token(&mut self, token: u64, udp_addr: Addr, now: u64) -> (r: bool)
        requires
            old(self)@.wf(),
        ensures
            final(self)@.wf(),
            final(self).counters() == old(self).counters(),
            r == server_model::hello_accepted(old(self)@, token, udp_addr),
            final(self)@ == if r {
                server_model::hello_registered(old(self)@, token, udp_addr, now)
            } else {
                old(self)@
            },
    {
        let ghost before = self@;
        let (tcp_addr, channel_id): (Addr, ChannelId) = match self.udp_tokens.get(&token) {
            Some(e) => (e.0, e.1.clone()),
            None => return false,
        };
        if tcp_addr.ip().to_canonical() != udp_addr.ip().to_canonical() {
            return false;
        }
        self.udp_tokens.insert(token, (tcp_addr, channel_id.clone(), now));
        let mut prev_udp: Option<Addr> = None;
        if let Some(mut client) = self.clients.remove(&tcp_addr) {
            prev_udp = client.udp_addr;
            client.udp_addr = Some(udp_addr);
            self.clients.insert(tcp_addr, client);
        }
        if let Some(mut participants) = self.channels.remove(&channel_id) {
            if let Some(was) = prev_udp {
                if was != udp_addr {
                    let _ = participants.remove(&was);
                }
            }
            participants.insert(udp_addr);
            proof {
                assert(participants@ =~= server_model::moved_to(
                    before.channels[channel_id@],
                    before.clients[tcp_addr].udp_addr,
                    udp_addr,
                ));
            }
            self.channels.insert(channel_id.clone(), participants);
        }
        self.update_channel_peers(&channel_id);
        proof {
            assert(before.udp_tokens[token].0 == tcp_addr);
            assert(before.clients.dom().contains(tcp_addr));
            assert(self@ =~= server_model::hello_registered(before, token, udp_addr, now));
            server_laws::law_hello_registered_wf(before, token, udp_addr, now);
        }
        true
    }

    /// Fills a reusable buffer with the addresses that the voice of a channel
    /// is forwarded to, without `exclude`.
    pub fn fill_channel_peers(&self, channel_id: &str, exclude: &Addr, out: &mut Vec<Addr>)
        requires
            self@.wf(),
        ensures
            server_model::enumerates(
                final(out)@,
                self@.participants(channel_id@).remove(*exclude),
            ),
    {
        out.clear();
        let key = owned(channel_id);
        proof {
            assert(self@.cached(channel_id@) == self@.participants(channel_id@));
        }
        if let Some(peers) = self.peer_cache.get(&key) {
            let n: usize = peers.len();
            let mut i: usize = 0;
            while i < n
                invariant
                    i <= n == peers.members().len(),
                    peers.members().no_duplicates(),
                    out@.no_duplicates(),
                    forall|a: Addr| #[trigger]
                        out@.contains(a) <==> a != *exclude && peers.members().subrange(
                            0,
                            i as int,
                        ).contains(a),
                decreases n - i,
            {
                let a: Addr = *peers.item(i);
                let ghost part = peers.members().subrange(0, i as int);
                let ghost before = out@;
                if a != *exclude {
                    out.push(a);
                }
                i = i + 1;
                proof {
                    assert(peers.members().subrange(0, i as int) =~= part.push(a));
                    table::lemma_push_contains(part, a);
                    table::lemma_push_contains(before, a);
                    assert(!part.contains(a)) by {
                        if part.contains(a) {
                            let j = choose|j: int| 0 <= j < part.len() && part[j] == a;
                            assert(peers.members()[j] == peers.members()[i - 1]);
                        }
                    }
                    assert(!before.contains(a));
                }
            }
            proof {
                assert(peers.members().subrange(0, n as int) =~= peers.members());
                assert forall|a: Addr| #[trigger]
                    out@.to_set().contains(a) <==> peers@.remove(*exclude).contains(a) by {
                    assert(out@.contains(a) <==> out@.to_set().contains(a));
                    assert(peers.members().contains(a) <==> peers.members().to_set().contains(a));
                }
                assert(out@.to_set() =~= peers@.remove(*exclude));
            }
        } else {
            assert(out@.to_set() =~= self@.participants(channel_id@).remove(*exclude));
        }
    }

    /// The TCP addresses of all clients.
    pub fn client_addrs(&self) -> (addrs: Vec<Addr>)
        ensures
            server_model::enumerates(addrs@, self@.clients.dom()),
    {
        let n: usize = self.clients.len();
        let mut addrs: Vec<Addr> = Vec::new();
        let mut i: usize = 0;
        while i < n
            invariant
                i <= n == self.clients.keys().len(),
                addrs@ == self.clients.keys().subrange(0, i as int),
            decreases n - i,
        {
            addrs.push(*self.clients.entry(i).0);
            i = i + 1;
            assert(addrs@ =~= self.clients.keys().subrange(0, i as int));
        }
        assert(self.clients.keys().subrange(0, n as int) =~= self.clients.keys());
        addrs
    }

    /// The TCP addresses of the clients in a channel, without `exclude`.
    pub fn broadcast_channel_addrs(&self, channel_id: &str, exclude: Option<&Addr>) -> (addrs: Vec<
        Addr,
    >)
        ensures
            server_model::enumerates(
                addrs@,
                server_model::audience(
                    self@,
                    channel_id@,
                    match exclude {
                        Some(a) => Some(*a),
                        None => None,
                    },
                ),
            ),
    {
        let members = self.channel_members(channel_id);
        match exclude {
            None => members,
            Some(ex) => {
                let mut addrs: Vec<Addr> = Vec::new();
                let mut i: usize = 0;
                while i < members.len()
                    invariant
                        i <= members@.len(),
                        members@.no_duplicates(),
                        addrs@.no_duplicates(),
                        forall|a: Addr| #[trigger]
                            addrs@.contains(a) <==> a != *ex && members@.subrange(
                                0,
                                i as int,
                            ).contains(a),
                    decreases members.len() - i,
                {
                    let a: Addr = members[i];
                    let ghost part = members@.subrange(0, i as int);
                    let ghost before = addrs@;
                    if a != *ex {
                        addrs.push(a);
                    }
                    i = i + 1;
                    proof {
                        assert(members@.subrange(0, i as int) =~= part.push(a));
                        table::lemma_push_contains(part, a);
                        table::lemma_push_contains(before, a);
                        assert(!part.contains(a)) by {
                            if part.contains(a) {
                                let j = choose|j: int| 0 <= j < part.len() && part[j] == a;
                                assert(members@[j] == members@[i - 1]);
                            }
                        }
                        assert(!before.contains(a));
                    }
                }
                proof {
                    assert(members@.subrange(0, members@.len() as int) =~= members@);
                    assert forall|a: Addr| #[trigger]
                        addrs@.to_set().contains(a) <==> members@.to_set().remove(*ex).contains(
                            a,
                        ) by {
                        assert(addrs@.contains(a) <==> addrs@.to_set().contains(a));
                        assert(members@.contains(a) <==> members@.to_set().contains(a));
                    }
                    assert(addrs@.to_set() =~= members@.to_set().remove(*ex));
                }
                addrs
            },
        }
    }

    /// Renames a client. Returns its old name and its channel.
    pub fn rename_client(&mut self, tcp_addr: &Addr, new_name: String) -> (r: Option<
        (String, Option<ChannelId>),
    >)
        requires
            old(self)@.wf(),
        ensures
            final(self)@.wf(),
            final(self)@ == server_model::renamed(old(self)@, *tcp_addr, new_name@),
            final(self).counters() == old(self).counters(),
            r is Some <==> old(self)@.clients.dom().contains(*tcp_addr),
            r matches Some((name, channel)) ==> {
                &&& name@ == old(self)@.clients[*tcp_addr].name
                &&& messages::opt_text(channel) == old(self)@.clients[*tcp_addr].channel
            },
    {
        let ghost before = self@;
        let ghost n = new_name@;
        proof {
            server_laws::law_renamed_wf(before, *tcp_addr, n);
        }
        match self.clients.remove(tcp_addr) {
            Some(mut client) => {
                let channel = copy_text(&client.channel);
                let old_name = client.name.clone();
                client.name = new_name;
                self.clients.insert(*tcp_addr, client);
                assert(self@ =~= server_model::renamed(before, *tcp_addr, n));
                Some((old_name, channel))
            },
            None => {
                assert(self@ =~= before);
                None
            },
        }
    }

    /// What is known of a client.
    pub fn get_client(&self, tcp_addr: &Addr) -> (r: Option<ClientInfo>)
        ensures
            r is Some <==> self@.clients.dom().contains(*tcp_addr),
            r matches Some(c) ==> c@ == self@.clients[*tcp_addr],
    {
        match self.clients.get(tcp_addr) {
            Some(c) => Some(c.clone()),
            None => None,
        }
    }

    /// The public channels with the number of clients in each.
    pub fn list_public_channels(&self) -> (list: Vec<(ChannelId, u32)>)
        ensures
            server_model::is_public_list(listing(list@), self@),
    {
        let n: usize = self.channels.len();
        let mut list: Vec<(ChannelId, u32)> = Vec::new();
        let ghost mut order: Seq<Seq<char>> = Seq::empty();
        let mut i: usize = 0;
        while i < n
            invariant
                i <= n == self.channels.keys().len(),
                self.channels.keys().no_duplicates(),
                order.no_duplicates(),
                forall|id: Seq<char>| #[trigger]
                    order.contains(id) <==> server_model::is_public(id)
                        && self.channels.keys().subrange(0, i as int).contains(id),
                listing(list@) == server_model::occupancy(self@, order),
            decreases n - i,
        {
            let (id, _) = self.channels.entry(i);
            let ghost part = self.channels.keys().subrange(0, i as int);
            let ghost before = order;
            let ghost listed = listing(list@);
            if starts_with(id.as_str(), config::PUBLIC_CHANNEL_PREFIX) {
                let members = self.channel_members(id.as_str());
                let count: u32 =
                    #[verifier::truncate]
                    (members.len() as u32);
                proof {
                    members@.unique_seq_to_set();
                }
                list.push((id.clone(), count));
                proof {
                    order = order.push(id@);
                    assert(listing(list@) =~= listed.push((id@, count)));
                    assert(server_model::occupancy(self@, order) =~= server_model::occupancy(
                        self@,
                        before,
                    ).push((id@, count)));
                }
            }
            i = i + 1;
            proof {
                assert(self.channels.keys().subrange(0, i as int) =~= part.push(id@));
                table::lemma_push_contains(part, id@);
                table::lemma_push_contains(before, id@);
                assert(!part.contains(id@)) by {
                    if part.contains(id@) {
                        let j = choose|j: int| 0 <= j < part.len() && part[j] == id@;
                        assert(self.channels.keys()[j] == self.channels.keys()[i - 1]);
                    }
                }
                assert(!before.contains(id@));
            }
        }
        proof {
            assert(self.channels.keys().subrange(0, n as int) =~= self.channels.keys());
            let public = self@.channels.dom().filter(
                |id: Seq<char>| server_model::is_public(id),
            );
            assert forall|id: Seq<char>| #[trigger]
                order.to_set().contains(id) <==> public.contains(id) by {
                assert(order.contains(id) <==> order.to_set().contains(id));
                assert(self.channels.keys().contains(id)
                    <==> self.channels.keys().to_set().contains(id));
            }
            assert(order.to_set() =~= public);
        }
        list
    }

    /// The counters.
    pub fn metrics(&self) -> (m: &Metrics)
        ensures
            *m == self.counters(),
    {
        &self.metrics
    }

    /// Replaces the counters.
    pub(crate) fn set_metrics(&mut self, m: Metrics)
        ensures
            final(self)@ == old(self)@,
            final(self).counters() == m,
    {
        self.metrics = m;
    }

    /// Counts a message for a client, which was queued or found its queue full.
    pub fn note_delivery(&mut self, broadcast: bool, queued: bool)
        ensures
            final(self)@ == old(self)@,
            final(self).counters() == if !queued {
                Metrics {
                    tcp_drops_queue_full: old(self).counters().tcp_drops_queue_full.wrapping_add(
                        1,
                    ),
                    ..old(self).counters()
                }
            } else if broadcast {
                Metrics {
                    tcp_broadcast_sends: old(self).counters().tcp_broadcast_sends.wrapping_add(1),
                    ..old(self).counters()
                }
            } else {
                Metrics {
                    tcp_sends: old(self).counters().tcp_sends.wrapping_add(1),
                    ..old(self).counters()
                }
            },
    {
        if !queued {
            self.metrics.tcp_drops_queue_full = self.metrics.tcp_drops_queue_full.wrapping_add(1);
        } else if broadcast {
            self.metrics.tcp_broadcast_sends = self.metrics.tcp_broadcast_sends.wrapping_add(1);
        } else {
            self.metrics.tcp_sends = self.metrics.tcp_sends.wrapping_add(1);
        }
    }

    /// The factor on all rate limits, in ten-thousandths; at least one.
    pub fn rate_limit_multiplier(&self) -> (m: u64)
        ensures
            m == if self@.limits.rate_limit_multiplier >= 1 {
                self@.limits.rate_limit_multiplier
            } else {
                1
            },
    {
        if self.limits.rate_limit_multiplier >= 1 {
            self.limits.rate_limit_multiplier
        } else {
            1
        }
    }

    /// The sizes of the state. An address is counted once for each channel
    /// that it takes part in; the count stops at the largest number.
    pub fn stats(&self) -> (r: Stats)
        ensures
            r.clients == self@.clients.dom().len(),
            r.channels == self@.channels.dom().len(),
            server_model::participations(self@).finite(),
            r.udp_peers == if server_model::participations(self@).len() <= usize::MAX {
                server_model::participations(self@).len() as int
            } else {
                usize::MAX as int
            },
    {
        let n: usize = self.channels.len();
        let mut udp_peers: usize = 0;
        let ghost mut seen: Set<(Seq<char>, Addr)> = Set::empty();
        let mut i: usize = 0;
        while i < n
            invariant
                i <= n == self.channels.keys().len(),
                self.channels.keys().no_duplicates(),
                forall|k: int|
                    0 <= k < n ==> self@.channels.dom().contains(
                        #[trigger] self.channels.keys()[k],
                    ),
                seen.finite(),
                forall|p: (Seq<char>, Addr)| #[trigger]
                    seen.contains(p) <==> {
                        &&& self.channels.keys().subrange(0, i as int).contains(p.0)
                        &&& self@.channels[p.0].contains(p.1)
                    },
                udp_peers == if seen.len() <= usize::MAX {
                    seen.len() as int
                } else {
                    usize::MAX as int
                },
            decreases n - i,
        {
            let (id, participants) = self.channels.entry(i);
            let count: usize = participants.len();
            let ghost part = self.channels.keys().subrange(0, i as int);
            let ghost block = paired(id@, participants@);
            proof {
                lemma_paired_len(id@, participants@);
                assert(!part.contains(id@)) by {
                    if part.contains(id@) {
                        let j = choose|j: int| 0 <= j < part.len() && part[j] == id@;
                        assert(self.channels.keys()[j] == self.channels.keys()[i as int]);
                    }
                }
                assert(seen.disjoint(block));
                vstd::set_lib::lemma_set_disjoint_lens(seen, block);
                seen = seen + block;
            }
            udp_peers = udp_peers.saturating_add(count);
            i = i + 1;
            proof {
                assert(self.channels.keys().subrange(0, i as int) =~= part.push(id@));
                table::lemma_push_contains(part, id@);
                assert forall|p: (Seq<char>, Addr)| #[trigger] seen.contains(p) <==> {
                    &&& part.push(id@).contains(p.0)
                    &&& self@.channels[p.0].contains(p.1)
                } by {}
            }
        }
        proof {
            assert(self.channels.keys().subrange(0, n as int) =~= self.channels.keys());
            let all = server_model::participations(self@);
            assert forall|p: (Seq<char>, Addr)| #[trigger] seen.contains(p) <==> all.contains(
                p,
            ) by {
                assert(self.channels.keys().contains(p.0)
                    <==> self.channels.keys().to_set().contains(p.0));
            }
            assert(seen =~= all);
        }
        Stats { clients: self.clients.len(), channels: n, udp_peers }
    }

    /// Whether maintenance removes a channel.
    fn is_reapable(&self, id: &ChannelId, grace: u64, now: u64) -> (r: bool)
        ensures
            r == server_model::reapable(self@, id@, grace, now),
    {
        let empty = match self.channels.get(id) {
            Some(participants) => participants.len() == 0,
            None => false,
        };
        if !empty {
            return false;
        }
        let members = self.channel_members(id.as_str());
        if members.len() > 0 {
            assert(members@.to_set().contains(members@[0]));
            return false;
        }
        assert(members@.to_set() =~= Set::<Addr>::empty());
        if self.persistent.contains(id) {
            return false;
        }
        match self.channel_created_at.get(id) {
            Some(t) => elapsed(now, *t) > grace,
            None => true,
        }
    }

    /// The channels that maintenance removes.
    fn reapable_channels(&self, grace: u64, now: u64) -> (ids: KeySet<ChannelId>)
        ensures
            forall|id: Seq<char>| #[trigger]
                ids@.contains(id) <==> server_model::reapable(self@, id, grace, now),
    {
        let n: usize = self.channels.len();
        let mut ids: KeySet<ChannelId> = KeySet::new();
        let mut i: usize = 0;
        while i < n
            invariant
                i <= n == self.channels.keys().len(),
                forall|id: Seq<char>| #[trigger]
                    ids@.contains(id) <==> {
                        &&& self.channels.keys().subrange(0, i as int).contains(id)
                        &&& server_model::reapable(self@, id, grace, now)
                    },
            decreases n - i,
        {
            let (id, _) = self.channels.entry(i);
            let ghost part = self.channels.keys().subrange(0, i as int);
            if self.is_reapable(id, grace, now) {
                ids.insert(id.clone());
            }
            i = i + 1;
            proof {
                assert(self.channels.keys().subrange(0, i as int) =~= part.push(id@));
                table::lemma_push_contains(part, id@);
            }
        }
        proof {
            assert(self.channels.keys().subrange(0, n as int) =~= self.channels.keys());
            assert forall|id: Seq<char>| #[trigger]
                ids@.contains(id) <==> server_model::reapable(self@, id, grace, now) by {
                assert(self.channels.keys().contains(id)
                    <==> self.channels.keys().to_set().contains(id));
            }
        }
        ids
    }

    /// Removes empty channels that are older than `grace`, and the tokens of
    /// sessions out of their channel that were not used for `token_ttl`.
    /// Returns the ids of the removed channels.
    pub fn cleanup_with(&mut self, grace: u64, token_ttl: u64, now: u64) -> (gone: Vec<ChannelId>)
        requires
            old(self)@.wf(),
        ensures
            final(self)@.wf(),
            final(self)@ == server_model::cleaned(old(self)@, grace, token_ttl, now),
            final(self).counters() == old(self).counters(),
            messages::texts(gone@).no_duplicates(),
            forall|id: Seq<char>| #[trigger]
                messages::texts(gone@).contains(id) <==> server_model::reapable(
                    old(self)@,
                    id,
                    grace,
                    now,
                ),
    {
        let ghost before = self@;
        let ids = self.reapable_channels(grace, now);
        let gone_set = &ids;
        let keep_channel = |id: &ChannelId, p: &KeySet<Addr>| -> (r: bool)
            ensures
                r == !ids@.contains(id@),
            { !gone_set.contains(id) };
        self.channels.retain(
            keep_channel,
            Ghost(|id: Seq<char>, p: Set<Addr>| !ids@.contains(id)),
        );
        let keep_key = |id: &ChannelId, k: &Vec<u8>| -> (r: bool)
            ensures
                r == !ids@.contains(id@),
            { !gone_set.contains(id) };
        self.channel_keys.retain(keep_key, Ghost(|id: Seq<char>, k: Seq<u8>| !ids@.contains(id)));
        let keep_time = |id: &ChannelId, t: &u64| -> (r: bool)
            ensures
                r == !ids@.contains(id@),
            { !gone_set.contains(id) };
        self.channel_created_at.retain(
            keep_time,
            Ghost(|id: Seq<char>, t: u64| !ids@.contains(id)),
        );
        let mut tokens: Table<u64, (Addr, ChannelId, u64)> = Table::new();
        std::mem::swap(&mut tokens, &mut self.udp_tokens);
        let clients = &self.clients;
        let keep_token = |t: &u64, e: &(Addr, ChannelId, u64)| -> (r: bool)
            ensures
                r == (!ids@.contains(e@.1) && (server_model::token_live(clients@, e@)
                    || server_model::elapsed(now, e@.2) < token_ttl)),
            {
                let live = match clients.get(&e.0) {
                    Some(c) => c.is_in(e.1.as_str()),
                    None => false,
                };
                !gone_set.contains(&e.1) && (live || elapsed(now, e.2) < token_ttl)
            };
        tokens.retain(
            keep_token,
            Ghost(
                |t: u64, e: (Addr, Seq<char>, u64)|
                    !ids@.contains(e.1) && (server_model::token_live(before.clients, e)
                        || server_model::elapsed(now, e.2) < token_ttl),
            ),
        );
        self.udp_tokens = tokens;
        proof {
            let after = server_model::cleaned(before, grace, token_ttl, now);
            assert(self@.channels =~= after.channels);
            assert(self@.channel_keys =~= after.channel_keys);
            assert(self@.channel_created_at =~= after.channel_created_at);
            assert(self@.udp_tokens =~= after.udp_tokens);
            assert(self@ =~= after);
            server_laws::law_cleaned_wf(before, grace, token_ttl, now);
        }
        list_members(&ids)
    }

    /// Maintenance with the configured grace period and token lifetime.
    pub fn cleanup_empty_channels(&mut self, now: u64) -> (gone: Vec<ChannelId>)
        requires
            old(self)@.wf(),
        ensures
            final(self)@.wf(),
            final(self)@ == server_model::cleaned(
                old(self)@,
                CHANNEL_GRACE_NS,
                UDP_TOKEN_TTL_NS,
                now,
            ),
            final(self).counters() == old(self).counters(),
            messages::texts(gone@).no_duplicates(),
            forall|id: Seq<char>| #[trigger]
                messages::texts(gone@).contains(id) <==> server_model::reapable(
                    old(self)@,
                    id,
                    CHANNEL_GRACE_NS,
                    now,
                ),
    {
        self.cleanup_with(CHANNEL_GRACE_NS, UDP_TOKEN_TTL_NS, now)
    }

}

/// How long ago `since` was.
fn elapsed(now: u64, since: u64) -> (r: u64)
    ensures
        r == server_model::elapsed(now, since),
{
    if now >= since {
        now - since
    } else {
        0
    }
}

/// The members of a set, each once.
fn list_members(ids: &KeySet<ChannelId>) -> (list: Vec<ChannelId>)
    ensures
        messages::texts(list@).no_duplicates(),
        forall|id: Seq<char>| #[trigger]
            messages::texts(list@).contains(id) <==> ids@.contains(id),
{
    let n: usize = ids.len();
    let mut list: Vec<ChannelId> = Vec::new();
    let mut i: usize = 0;
    while i < n
        invariant
            i <= n == ids.members().len(),
            messages::texts(list@) == ids.members().subrange(0, i as int),
        decreases n - i,
    {
        let ghost before = messages::texts(list@);
        list.push(ids.item(i).clone());
        i = i + 1;
        assert(messages::texts(list@) =~= before.push(ids.members()[i - 1]));
        assert(ids.members().subrange(0, i as int) =~= before.push(ids.members()[i - 1]));
    }
    assert(ids.members().subrange(0, n as int) =~= ids.members());
    assert forall|id: Seq<char>| #[trigger] messages::texts(list@).contains(id) <==> ids@.contains(
        id,
    ) by {
        assert(ids.members().contains(id) <==> ids.members().to_set().contains(id));
    }
    list
}

/// The members of a set, each paired with one channel.
spec fn paired(id: Seq<char>, set: Set<Addr>) -> Set<(Seq<char>, Addr)> {
    Set::new(|p: (Seq<char>, Addr)| p.0 == id && set.contains(p.1))
}

/// Pairing the members of a set with one channel keeps their number.
proof fn lemma_paired_len(id: Seq<char>, set: Set<Addr>)
    requires
        set.finite(),
    ensures
        paired(id, set).finite(),
        paired(id, set).len() == set.len(),
{
    let f = |a: Addr| (id, a);
    set.lemma_map_finite(f);
    assert forall|p: (Seq<char>, Addr)| #[trigger]
        set.map(f).contains(p) <==> paired(id, set).contains(p) by {
        if p.0 == id && set.contains(p.1) {
            assert(f(p.1) == p);
        }
    }
    assert(set.map(f) =~= paired(id, set));
    vstd::set_lib::lemma_map_size(set, set.map(f), f);
}

/// A copy of a set of addresses.
fn copy_set(set: &KeySet<Addr>) -> (r: KeySet<Addr>)
    ensures
        r@ == set@,
{
    let n: usize = set.len();
    let mut r: KeySet<Addr> = KeySet::new();
    let mut i: usize = 0;
    while i < n
        invariant
            i <= n == set.members().len(),
            r@ == set.members().subrange(0, i as int).to_set(),
        decreases n - i,
    {
        r.insert(*set.item(i));
        i = i + 1;
        proof {
            let part = set.members().subrange(0, i - 1);
            let next = set.members().subrange(0, i as int);
            assert(next =~= part.push(set.members()[i - 1]));
            part.lemma_push_to_set_commute(set.members()[i - 1]);
        }
    }
    assert(set.members().subrange(0, n as int) =~= set.members());
    assert(r@ =~= set@);
    r
}

} // verus!
