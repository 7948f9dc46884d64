//! Load on a server: simulated clients that send and receive voice.

use vstd::prelude::*;

use crate::messages;
use crate::messages::ServerMessage;
use crate::protocol::VoicePacket;
use crate::text::{join2, owned};

verus! {

/// How much load is put on the server.
#[derive(Debug, Clone, Copy, PartialEq, Eq, Structural)]
pub struct LoadPlan {
    /// The number of clients.
    pub clients: u64,
    /// The number of channels that they are spread over.
    pub channels: u64,
    /// Voice packets per second and client.
    pub pps: u32,
    /// How long packets are counted, in seconds.
    pub duration: u64,
}

/// The most clients that one channel gets.
pub open spec fn crowd(plan: LoadPlan) -> int {
    (plan.clients + plan.channels - 1) / plan.channels as int
}

/// How many packets a client in the fullest channel should receive: all that
/// the others there send.
pub open spec fn expected_per_client(plan: LoadPlan) -> int {
    (crowd(plan) - 1) * plan.pps * plan.duration
}

/// How many packets all clients together should receive.
pub open spec fn expected_total(plan: LoadPlan) -> int {
    expected_per_client(plan) * plan.clients
}

impl LoadPlan {
    /// Whether the plan can be carried out.
    pub fn check(&self) -> (r: Result<(), String>)
        ensures
            r is Ok <==> self.clients > 0 && self.channels > 0,
            r matches Err(e) ==> e@ == "--channels and --clients must be > 0"@,
    {
        if self.channels == 0 || self.clients == 0 {
            Err(owned("--channels and --clients must be > 0"))
        } else {
            Ok(())
        }
    }

    /// The channel of a client.
    pub fn channel_of(&self, client: u64) -> (c: u64)
        requires
            self.channels > 0,
        ensures
            c == client % self.channels,
            c < self.channels,
    {
        client % self.channels
    }

    /// The time between two packets of a client, in nanoseconds.
    pub fn interval_ns(&self) -> (ns: u64)
        ensures
            ns == 1_000_000_000int / (if self.pps > 0 {
                self.pps as int
            } else {
                1
            }),
    {
        let pps: u64 = if self.pps > 0 {
            self.pps as u64
        } else {
            1
        };
        1_000_000_000 / pps
    }

    /// How many packets are expected: by a client in the fullest channel, and
    /// by all of them together. There is no answer where the numbers are too
    /// large to be told.
    pub fn expected(&self) -> (r: Option<(u64, u64)>)
        requires
            self.clients > 0,
            self.channels > 0,
        ensures
            match r {
                Some((each, all)) => each == expected_per_client(*self) && all == expected_total(
                    *self,
                ),
                None => expected_per_client(*self) > u64::MAX || expected_total(*self) > u64::MAX,
            },
    {
        let crowd: u64 = (self.clients - 1) / self.channels + 1;
        proof {
            lemma_crowd(*self);
        }
        let peers: u64 = crowd - 1;
        let per_second: u128 = wide_product(peers, self.pps as u64);
        let ghost p = peers as int * self.pps as int;
        assert(p == per_second);
        if per_second > u64::MAX as u128 && self.duration > 0 {
            assert(p * self.duration > u64::MAX) by (nonlinear_arith)
                requires
                    p > u64::MAX,
                    self.duration >= 1,
            ;
            return None;
        }
        if self.duration == 0 {
            assert(p * 0 == 0);
            assert(expected_per_client(*self) == 0) by (nonlinear_arith)
                requires
                    expected_per_client(*self) == p * self.duration,
                    self.duration == 0,
            ;
            assert(expected_total(*self) == 0) by (nonlinear_arith)
                requires
                    expected_total(*self) == expected_per_client(*self) * self.clients,
                    expected_per_client(*self) == 0,
            ;
            return Some((0, 0));
        }
        let each: u128 = wide_product(per_second as u64, self.duration);
        assert(each == expected_per_client(*self));
        if each > u64::MAX as u128 {
            return None;
        }
        let all: u128 = wide_product(each as u64, self.clients);
        assert(all == expected_total(*self));
        if all > u64::MAX as u128 {
            return None;
        }
        Some((each as u64, all as u64))
    }
}

proof fn lemma_crowd(plan: LoadPlan)
    requires
        plan.clients > 0,
        plan.channels > 0,
    ensures
        crowd(plan) == (plan.clients - 1) / plan.channels as int + 1,
        1 <= crowd(plan) <= plan.clients,
{
    let c = plan.channels as int;
    let n = plan.clients as int;
    assert((n + c - 1) / c == (n - 1) / c + 1) by (nonlinear_arith)
        requires
            c > 0,
            n > 0,
    ;
    assert(0 <= (n - 1) / c <= n - 1) by (nonlinear_arith)
        requires
            c > 0,
            n > 0,
    ;
}

/// A product that may need more than 64 bits.
fn wide_product(a: u64, b: u64) -> (r: u128)
    ensures
        r == a * b,
{
    assert(0 <= a * b <= u64::MAX * u64::MAX) by (nonlinear_arith)
        requires
            0 <= a <= u64::MAX,
            0 <= b <= u64::MAX,
    ;
    a as u128 * b as u128
}

/// A packet that a simulated client sends.
pub fn test_packet(seq: u32, channel: &str, payload: usize) -> (p: VoicePacket)
    ensures
        p.sequence == seq,
        p.channel_id@ == channel@,
        p.opus_data@ == Seq::new(payload as nat, |i: int| 0xABu8),
{
    let mut opus_data: Vec<u8> = Vec::new();
    let mut i: usize = 0;
    while i < payload
        invariant
            i <= payload,
            opus_data@ == Seq::new(i as nat, |j: int| 0xABu8),
        decreases payload - i,
    {
        opus_data.push(0xAB);
        i = i + 1;
        assert(opus_data@ =~= Seq::new(i as nat, |j: int| 0xABu8));
    }
    VoicePacket { sequence: seq, channel_id: owned(channel), opus_data }
}

/// What a message means to a client that waits to be in its channel: the token
/// for UDP, a refusal, or nothing.
pub fn join_reply(msg: &ServerMessage) -> (r: Option<Result<u64, String>>)
    ensures
        match msg@ {
            messages::ServerMessageView::JoinedChannel { udp_token, .. } => r == Some(
                Ok::<u64, String>(udp_token),
            ),
            messages::ServerMessageView::Error { message } => r matches Some(Err(e)) && e@
                == "server error: "@ + message,
            _ => r is None,
        },
{
    match msg {
        ServerMessage::JoinedChannel { udp_token, .. } => Some(Ok(*udp_token)),
        ServerMessage::Error { message } => Some(Err(join2("server error: ", message.as_str()))),
        _ => None,
    }
}

/// What a message means to a client that waits for its channel.
#[derive(Debug)]
pub enum CreateReply {
    /// The channel is there.
    Created(String),
    /// The server refused; ask again after a while.
    AskAgain,
    /// Something else.
    Unrelated,
}

/// How long to wait before asking again for a channel, in seconds: longer than
/// it takes the server to allow one more.
pub const RETRY_SECS: u64 = 11;

/// What a message means to a client that waits for its channel.
pub fn create_reply(msg: &ServerMessage) -> (r: CreateReply)
    ensures
        match msg@ {
            messages::ServerMessageView::ChannelCreated { channel_id } => {
                r matches CreateReply::Created(id) && id@ == channel_id
            },
            messages::ServerMessageView::Error { .. } => r is AskAgain,
            _ => r is Unrelated,
        },
{
    match msg {
        ServerMessage::ChannelCreated { channel_id } => CreateReply::Created(channel_id.clone()),
        ServerMessage::Error { .. } => CreateReply::AskAgain,
        _ => CreateReply::Unrelated,
    }
}

/// The fullest channel holds no more clients than it must: so many in each
/// channel are enough for all, and one less in each is not.
pub proof fn law_crowd_is_smallest(plan: LoadPlan)
    requires
        plan.clients > 0,
        plan.channels > 0,
    ensures
        crowd(plan) * plan.channels >= plan.clients,
        (crowd(plan) - 1) * plan.channels < plan.clients,
        plan.channels == 1 ==> crowd(plan) == plan.clients,
        plan.channels >= plan.clients ==> crowd(plan) == 1,
{
    let n = plan.clients as int;
    let c = plan.channels as int;
    let k = crowd(plan);
    assert(k * c >= n && (k - 1) * c < n) by (nonlinear_arith)
        requires
            k == (n + c - 1) / c,
            c > 0,
            n > 0,
    ;
    if c == 1 {
        assert(k * 1 == k && (k - 1) * 1 == k - 1);
    }
    if c >= n {
        assert(k == 1) by (nonlinear_arith)
            requires
                k == (n + c - 1) / c,
                c >= n,
                n > 0,
        ;
    }
}

} // verus!
