//! Runtime counters of the server.

use vstd::prelude::*;

verus! {

/// Counters of the relay and the control plane. They wrap around.
#[derive(Debug, Clone, Copy, PartialEq, Eq, Structural)]
pub struct Metrics {
    /// UDP datagrams received, of any kind.
    pub udp_packets_in: u64,
    /// Bytes received over UDP.
    pub udp_bytes_in: u64,
    /// Successful UDP hellos.
    pub udp_hellos_ok: u64,
    /// UDP hellos whose token was refused.
    pub udp_hellos_invalid: u64,
    /// Keepalives of idle clients (hellos with token 0).
    pub udp_keepalives: u64,
    /// Voice packets forwarded, counted once each.
    pub udp_voice_relayed: u64,
    /// Datagrams dropped because their framing was malformed.
    pub udp_voice_malformed: u64,
    /// Bytes forwarded, over all recipients.
    pub udp_bytes_relayed: u64,
    /// Recipients of all voice packets.
    pub udp_fanout_total: u64,
    /// Messages queued for a single client.
    pub tcp_sends: u64,
    /// Messages queued by broadcasts, counted per recipient.
    pub tcp_broadcast_sends: u64,
    /// Messages dropped because a client's queue was full.
    pub tcp_drops_queue_full: u64,
    /// Requests refused by a rate limiter.
    pub tcp_rate_limited: u64,
}

/// The counters at one moment.
#[derive(Debug, Clone, Copy, PartialEq, Eq, Structural)]
pub struct Snapshot {
    pub udp_packets_in: u64,
    pub udp_bytes_in: u64,
    pub udp_hellos_ok: u64,
    pub udp_hellos_invalid: u64,
    pub udp_keepalives: u64,
    pub udp_voice_relayed: u64,
    pub udp_voice_malformed: u64,
    pub udp_bytes_relayed: u64,
    pub udp_fanout_total: u64,
    pub tcp_sends: u64,
    pub tcp_broadcast_sends: u64,
    pub tcp_drops_queue_full: u64,
    pub tcp_rate_limited: u64,
}

/// All counters at zero.
pub open spec fn no_events() -> Metrics {
    Metrics {
        udp_packets_in: 0,
        udp_bytes_in: 0,
        udp_hellos_ok: 0,
        udp_hellos_invalid: 0,
        udp_keepalives: 0,
        udp_voice_relayed: 0,
        udp_voice_malformed: 0,
        udp_bytes_relayed: 0,
        udp_fanout_total: 0,
        tcp_sends: 0,
        tcp_broadcast_sends: 0,
        tcp_drops_queue_full: 0,
        tcp_rate_limited: 0,
    }
}

/// How far a counter moved, or zero where it went back.
pub open spec fn moved(now: u64, before: u64) -> u64 {
    if now >= before {
        (now - before) as u64
    } else {
        0
    }
}

/// The counters as a snapshot holds them.
pub open spec fn snapshot_of(m: Metrics) -> Snapshot {
    Snapshot {
        udp_packets_in: m.udp_packets_in,
        udp_bytes_in: m.udp_bytes_in,
        udp_hellos_ok: m.udp_hellos_ok,
        udp_hellos_invalid: m.udp_hellos_invalid,
        udp_keepalives: m.udp_keepalives,
        udp_voice_relayed: m.udp_voice_relayed,
        udp_voice_malformed: m.udp_voice_malformed,
        udp_bytes_relayed: m.udp_bytes_relayed,
        udp_fanout_total: m.udp_fanout_total,
        tcp_sends: m.tcp_sends,
        tcp_broadcast_sends: m.tcp_broadcast_sends,
        tcp_drops_queue_full: m.tcp_drops_queue_full,
        tcp_rate_limited: m.tcp_rate_limited,
    }
}

/// How far each counter moved between two snapshots.
pub open spec fn delta_of(now: Snapshot, prev: Snapshot) -> Snapshot {
    Snapshot {
        udp_packets_in: moved(now.udp_packets_in, prev.udp_packets_in),
        udp_bytes_in: moved(now.udp_bytes_in, prev.udp_bytes_in),
        udp_hellos_ok: moved(now.udp_hellos_ok, prev.udp_hellos_ok),
        udp_hellos_invalid: moved(now.udp_hellos_invalid, prev.udp_hellos_invalid),
        udp_keepalives: moved(now.udp_keepalives, prev.udp_keepalives),
        udp_voice_relayed: moved(now.udp_voice_relayed, prev.udp_voice_relayed),
        udp_voice_malformed: moved(now.udp_voice_malformed, prev.udp_voice_malformed),
        udp_bytes_relayed: moved(now.udp_bytes_relayed, prev.udp_bytes_relayed),
        udp_fanout_total: moved(now.udp_fanout_total, prev.udp_fanout_total),
        tcp_sends: moved(now.tcp_sends, prev.tcp_sends),
        tcp_broadcast_sends: moved(now.tcp_broadcast_sends, prev.tcp_broadcast_sends),
        tcp_drops_queue_full: moved(now.tcp_drops_queue_full, prev.tcp_drops_queue_full),
        tcp_rate_limited: moved(now.tcp_rate_limited, prev.tcp_rate_limited),
    }
}

impl Metrics {
    /// Counters at zero.
    pub fn new() -> (m: Self)
        ensures
            m == no_events(),
    {
        Metrics {
            udp_packets_in: 0,
            udp_bytes_in: 0,
            udp_hellos_ok: 0,
            udp_hellos_invalid: 0,
            udp_keepalives: 0,
            udp_voice_relayed: 0,
            udp_voice_malformed: 0,
            udp_bytes_relayed: 0,
            udp_fanout_total: 0,
            tcp_sends: 0,
            tcp_broadcast_sends: 0,
            tcp_drops_queue_full: 0,
            tcp_rate_limited: 0,
        }
    }

    /// All counters at this moment.
    pub fn snapshot(&self) -> (s: Snapshot)
        ensures
            s == snapshot_of(*self),
    {
        Snapshot {
            udp_packets_in: self.udp_packets_in,
            udp_bytes_in: self.udp_bytes_in,
            udp_hellos_ok: self.udp_hellos_ok,
            udp_hellos_invalid: self.udp_hellos_invalid,
            udp_keepalives: self.udp_keepalives,
            udp_voice_relayed: self.udp_voice_relayed,
            udp_voice_malformed: self.udp_voice_malformed,
            udp_bytes_relayed: self.udp_bytes_relayed,
            udp_fanout_total: self.udp_fanout_total,
            tcp_sends: self.tcp_sends,
            tcp_broadcast_sends: self.tcp_broadcast_sends,
            tcp_drops_queue_full: self.tcp_drops_queue_full,
            tcp_rate_limited: self.tcp_rate_limited,
        }
    }
}

impl Snapshot {
    /// How far each counter moved since a previous snapshot.
    pub fn delta(&self, prev: &Snapshot) -> (d: Snapshot)
        ensures
            d == delta_of(*self, *prev),
    {
        Snapshot {
            udp_packets_in: self.udp_packets_in.saturating_sub(prev.udp_packets_in),
            udp_bytes_in: self.udp_bytes_in.saturating_sub(prev.udp_bytes_in),
            udp_hellos_ok: self.udp_hellos_ok.saturating_sub(prev.udp_hellos_ok),
            udp_hellos_invalid: self.udp_hellos_invalid.saturating_sub(prev.udp_hellos_invalid),
            udp_keepalives: self.udp_keepalives.saturating_sub(prev.udp_keepalives),
            udp_voice_relayed: self.udp_voice_relayed.saturating_sub(prev.udp_voice_relayed),
            udp_voice_malformed: self.udp_voice_malformed.saturating_sub(prev.udp_voice_malformed),
            udp_bytes_relayed: self.udp_bytes_relayed.saturating_sub(prev.udp_bytes_relayed),
            udp_fanout_total: self.udp_fanout_total.saturating_sub(prev.udp_fanout_total),
            tcp_sends: self.tcp_sends.saturating_sub(prev.tcp_sends),
            tcp_broadcast_sends: self.tcp_broadcast_sends.saturating_sub(prev.tcp_broadcast_sends),
            tcp_drops_queue_full: self.tcp_drops_queue_full.saturating_sub(
                prev.tcp_drops_queue_full,
            ),
            tcp_rate_limited: self.tcp_rate_limited.saturating_sub(prev.tcp_rate_limited),
        }
    }
}

/// The movement from zero is the snapshot itself, and from a snapshot to
/// itself nothing moved.
pub proof fn law_delta_bounds(s: Snapshot)
    ensures
        delta_of(s, snapshot_of(no_events())) == s,
        delta_of(s, s) == snapshot_of(no_events()),
{
}

/// The movement of the counters between two snapshots is what the second one
/// counts beyond the first.
pub proof fn law_movement_adds_up(now: Snapshot, prev: Snapshot)
    ensures
        now.udp_packets_in >= prev.udp_packets_in ==> prev.udp_packets_in + delta_of(
            now,
            prev,
        ).udp_packets_in == now.udp_packets_in,
        now.udp_bytes_in >= prev.udp_bytes_in ==> prev.udp_bytes_in + delta_of(
            now,
            prev,
        ).udp_bytes_in == now.udp_bytes_in,
        now.udp_voice_relayed >= prev.udp_voice_relayed ==> prev.udp_voice_relayed + delta_of(
            now,
            prev,
        ).udp_voice_relayed == now.udp_voice_relayed,
        now.udp_bytes_relayed >= prev.udp_bytes_relayed ==> prev.udp_bytes_relayed + delta_of(
            now,
            prev,
        ).udp_bytes_relayed == now.udp_bytes_relayed,
        now.udp_fanout_total >= prev.udp_fanout_total ==> prev.udp_fanout_total + delta_of(
            now,
            prev,
        ).udp_fanout_total == now.udp_fanout_total,
        now.tcp_sends >= prev.tcp_sends ==> prev.tcp_sends + delta_of(now, prev).tcp_sends
            == now.tcp_sends,
        now.tcp_broadcast_sends >= prev.tcp_broadcast_sends ==> prev.tcp_broadcast_sends + delta_of(
            now,
            prev,
        ).tcp_broadcast_sends == now.tcp_broadcast_sends,
        now.tcp_drops_queue_full >= prev.tcp_drops_queue_full ==> prev.tcp_drops_queue_full
            + delta_of(now, prev).tcp_drops_queue_full == now.tcp_drops_queue_full,
        now.tcp_rate_limited >= prev.tcp_rate_limited ==> prev.tcp_rate_limited + delta_of(
            now,
            prev,
        ).tcp_rate_limited == now.tcp_rate_limited,
        now.udp_hellos_ok < prev.udp_hellos_ok ==> delta_of(now, prev).udp_hellos_ok == 0,
{
}

} // verus!
