//! Adaptive jitter buffer: a ring of packets that evens out their arrival.
//!
//! Times are in nanoseconds of a monotonic clock.

use vstd::prelude::*;

use crate::config;

verus! {

/// The time between two packets: 20 ms.
pub const FRAME_INTERVAL_NS: u64 = 20_000_000;

/// The number of slots of the ring.
pub const RING: u32 = 15;

/// How far `b` is ahead of `a` in the circle of sequence numbers.
pub open spec fn ahead(a: u32, b: u32) -> int {
    if b >= a {
        b - a
    } else {
        b - a + 0x1_0000_0000
    }
}

/// The sequence number `n` steps after `a`.
pub open spec fn step(a: u32, n: int) -> u32 {
    if a + n <= u32::MAX {
        (a + n) as u32
    } else {
        (a + n - 0x1_0000_0000) as u32
    }
}

/// Whether `a` comes before `b`, less than half the circle away.
pub open spec fn before(a: u32, b: u32) -> bool {
    0 < ahead(a, b) < 0x8000_0000
}

/// Wrapping-aware comparison of sequence numbers.
pub fn seq_before(a: u32, b: u32) -> (r: bool)
    ensures
        r == before(a, b),
{
    let diff: u32 = b.wrapping_sub(a);
    diff > 0 && diff < 0x8000_0000
}

/// No two sequence numbers are each before the other, and none is before
/// itself.
pub proof fn law_before_is_strict(a: u32, b: u32)
    ensures
        !before(a, a),
        before(a, b) ==> !before(b, a),
{
}

/// Of two different sequence numbers one is before the other, unless they are
/// exactly opposite.
pub proof fn law_before_is_total(a: u32, b: u32)
    requires
        a != b,
        ahead(a, b) != 0x8000_0000,
    ensures
        before(a, b) || before(b, a),
{
}

/// What came out of the buffer.
#[derive(Debug, Clone, Copy, PartialEq, Eq, Structural)]
pub enum PopResult {
    /// A packet.
    Packet,
    /// The next packet is missing, but later ones are there.
    Missing,
    /// Nothing is there.
    Empty,
}

/// What a jitter buffer holds.
#[verifier::ext_equal]
pub struct JitterView {
    /// The buffered packets, by sequence number.
    pub packets: Map<u32, Seq<u8>>,
    /// The sequence number that is due.
    pub next_seq: u32,
    /// Whether a packet has come in.
    pub started: bool,
    /// Most packets that are kept.
    pub max_size: int,
    /// Smoothed deviation of the time between packets.
    pub jitter_ns: int,
    /// When the last packet was accepted.
    pub last_arrival: Option<u64>,
    /// Packets accepted since the size was adapted.
    pub since_adapt: u32,
    /// Packets in a row that were too far ahead.
    pub strays: u32,
}

/// A buffer that nothing has come into.
pub open spec fn empty_buffer() -> JitterView {
    JitterView {
        packets: Map::empty(),
        next_seq: 0,
        started: false,
        max_size: config::JITTER_BUF_INITIAL as int,
        jitter_ns: 0,
        last_arrival: None,
        since_adapt: 0,
        strays: 0,
    }
}

/// The buffer is empty and waits for `seq`.
pub open spec fn reset(v: JitterView, seq: u32) -> JitterView {
    JitterView {
        packets: Map::empty(),
        next_seq: seq,
        jitter_ns: 0,
        last_arrival: None,
        since_adapt: 0,
        strays: 0,
        ..v
    }
}

/// The smoothed deviation after a packet at `now`: a sixteenth of the way
/// from the old value to the new deviation, rounded down.
pub open spec fn smoothed(v: JitterView, now: u64) -> int {
    match v.last_arrival {
        Some(prev) => {
            let interval = if now >= prev {
                now - prev
            } else {
                0
            };
            let deviation = if interval >= FRAME_INTERVAL_NS {
                interval - FRAME_INTERVAL_NS
            } else {
                FRAME_INTERVAL_NS - interval
            };
            (15 * v.jitter_ns + deviation) / 16
        },
        None => v.jitter_ns,
    }
}

/// The size for a deviation: the packets that twice the deviation spans,
/// within the limits.
pub open spec fn size_for(jitter_ns: int) -> int {
    let packets = (2 * jitter_ns + FRAME_INTERVAL_NS - 1) / (FRAME_INTERVAL_NS as int);
    if packets < config::JITTER_BUF_MIN {
        config::JITTER_BUF_MIN as int
    } else if packets > config::JITTER_BUF_MAX {
        config::JITTER_BUF_MAX as int
    } else {
        packets
    }
}

/// The buffer with its size adapted.
pub open spec fn adapted(v: JitterView) -> JitterView {
    JitterView { max_size: size_for(v.jitter_ns), ..v }
}

/// The oldest buffered packet: the one due first.
pub open spec fn is_oldest(v: JitterView, seq: u32) -> bool {
    &&& v.packets.dom().contains(seq)
    &&& forall|s: u32| #[trigger]
        v.packets.dom().contains(s) ==> ahead(v.next_seq, seq) <= ahead(v.next_seq, s)
}

/// The buffer after the packet `seq` was stored at `now`, before packets are
/// skipped.
pub open spec fn stored(v: JitterView, seq: u32, data: Seq<u8>, now: u64) -> JitterView {
    let s = JitterView {
        packets: v.packets.insert(seq, data),
        jitter_ns: smoothed(v, now),
        last_arrival: Some(now),
        strays: 0,
        ..v
    };
    if v.since_adapt + 1 >= config::JITTER_ADAPT_INTERVAL {
        JitterView { since_adapt: 0, ..adapted(s) }
    } else {
        JitterView { since_adapt: (v.since_adapt + 1) as u32, ..s }
    }
}

/// The buffer that a packet `seq` meets: one that starts there, or that was
/// reset because the stream restarted or ran far ahead.
pub open spec fn opened_for(v: JitterView, seq: u32) -> JitterView {
    let v1 = if v.started {
        v
    } else {
        JitterView { next_seq: seq, started: true, ..v }
    };
    if before(seq, v1.next_seq) && ahead(seq, v1.next_seq) > 2 * RING {
        reset(v1, seq)
    } else if !before(seq, v1.next_seq) && ahead(v1.next_seq, seq) >= RING && v1.strays + 1
        >= config::JITTER_RESYNC_AFTER {
        reset(v1, seq)
    } else {
        v1
    }
}

/// Whether a packet `seq` is kept: it is neither late nor too far ahead.
pub open spec fn accepts(v: JitterView, seq: u32) -> bool {
    let v1 = opened_for(v, seq);
    !before(seq, v1.next_seq) && ahead(v1.next_seq, seq) < RING
}

/// What becomes of the buffer when the packet `seq` comes in at `now`. When
/// more packets are held than its size allows, it skips to the oldest.
pub open spec fn pushed(v: JitterView, seq: u32, data: Seq<u8>, now: u64, after: JitterView) -> bool {
    let v1 = opened_for(v, seq);
    if accepts(v, seq) {
        let s = stored(v1, seq, data, now);
        if s.packets.dom().len() > s.max_size {
            is_oldest(s, after.next_seq) && after == (JitterView {
                next_seq: after.next_seq,
                ..s
            })
        } else {
            after == s
        }
    } else if before(seq, v1.next_seq) {
        after == v1
    } else {
        after == (JitterView { strays: (v1.strays + 1) as u32, ..v1 })
    }
}

/// What becomes of the buffer when the packet that is due is taken out: `data`
/// is what came out, where something did.
pub open spec fn popped(v: JitterView, after: JitterView, r: PopResult, data: Seq<u8>) -> bool {
    match r {
        PopResult::Packet => {
            &&& v.packets.dom().contains(v.next_seq)
            &&& data == v.packets[v.next_seq]
            &&& after == (JitterView {
                packets: v.packets.remove(v.next_seq),
                next_seq: step(v.next_seq, 1),
                ..v
            })
        },
        PopResult::Missing => {
            &&& !v.packets.dom().contains(v.next_seq)
            &&& v.packets.dom() != Set::<u32>::empty()
            &&& after == (JitterView { next_seq: step(v.next_seq, 1), ..v })
        },
        PopResult::Empty => v.packets.dom() == Set::<u32>::empty() && after == v,
    }
}

/// The ring buffer.
pub struct JitterBuffer {
    slots: Vec<(u32, Vec<u8>)>,
    next_seq: u32,
    started: bool,
    max_size: usize,
    jitter_ns: u64,
    last_arrival: Option<u64>,
    since_adapt: u32,
    strays: u32,
}

/// The packets that the slots of a ring hold. An unused slot is marked by the
/// sequence number 0.
spec fn ring_packets(slots: Seq<(u32, Vec<u8>)>) -> Map<u32, Seq<u8>> {
    Map::new(
        |s: u32| s != 0 && slots[(s % RING) as int].0 == s,
        |s: u32| slots[(s % RING) as int].1@,
    )
}

/// Every packet is in the slot of its sequence number and within one round
/// of the one that is due.
spec fn ring_ok(slots: Seq<(u32, Vec<u8>)>, next_seq: u32) -> bool {
    &&& slots.len() == RING
    &&& forall|i: int|
        0 <= i < RING && (#[trigger] slots[i]).0 != 0 ==> {
            &&& slots[i].0 % RING == i
            &&& ahead(next_seq, slots[i].0) < RING
        }
}

/// Two packets within one round that share a slot are the same.
proof fn lemma_slot_unique(next_seq: u32, a: u32, b: u32)
    requires
        a != 0,
        b != 0,
        ahead(next_seq, a) < RING,
        ahead(next_seq, b) < RING,
        a % RING == b % RING,
    ensures
        a == b,
{
}

impl View for JitterBuffer {
    type V = JitterView;

    closed spec fn view(&self) -> JitterView {
        JitterView {
            packets: ring_packets(self.slots@),
            next_seq: self.next_seq,
            started: self.started,
            max_size: self.max_size as int,
            jitter_ns: self.jitter_ns as int,
            last_arrival: self.last_arrival,
            since_adapt: self.since_adapt,
            strays: self.strays,
        }
    }
}

/// What holds of every buffer: its packets are due within one round, and its
/// size is within the limits.
pub open spec fn buffer_ok(v: JitterView) -> bool {
    &&& forall|s: u32| #[trigger]
        v.packets.dom().contains(s) ==> s != 0 && ahead(v.next_seq, s) < RING
    &&& v.packets.dom().finite()
    &&& config::JITTER_BUF_MIN <= v.max_size <= config::JITTER_BUF_MAX
    &&& v.since_adapt < config::JITTER_ADAPT_INTERVAL
    &&& v.strays < config::JITTER_RESYNC_AFTER
    &&& !v.started ==> v.packets =~= Map::<u32, Seq<u8>>::empty()
}

impl JitterBuffer {
    /// The buffer is consistent.
    pub closed spec fn wf(&self) -> bool {
        ring_ok(self.slots@, self.next_seq) && buffer_ok(self@)
    }

    /// An empty buffer.
    pub fn new() -> (b: Self)
        ensures
            b.wf(),
            b@ == empty_buffer(),
    {
        let mut slots: Vec<(u32, Vec<u8>)> = Vec::new();
        while slots.len() < RING as usize
            invariant
                slots@.len() <= RING,
                forall|i: int| 0 <= i < slots@.len() ==> (#[trigger] slots@[i]).0 == 0,
            decreases RING - slots@.len(),
        {
            slots.push((0, Vec::new()));
        }
        let b = JitterBuffer {
            slots,
            next_seq: 0,
            started: false,
            max_size: config::JITTER_BUF_INITIAL,
            jitter_ns: 0,
            last_arrival: None,
            since_adapt: 0,
            strays: 0,
        };
        assert(b@.packets =~= Map::<u32, Seq<u8>>::empty());
        b
    }

    /// Empties the buffer for a stream that starts at `seq`.
    pub fn reset_to(&mut self, seq: u32)
        requires
            old(self).wf(),
        ensures
            final(self).wf(),
            final(self)@ == reset(old(self)@, seq),
    {
        self.next_seq = seq;
        let mut i: usize = 0;
        while i < self.slots.len()
            invariant
                i <= self.slots@.len() == RING,
                forall|j: int| 0 <= j < i ==> (#[trigger] self.slots@[j]).0 == 0,
                self.next_seq == seq,
                self.started == old(self).started,
                self.max_size == old(self).max_size,
            decreases self.slots.len() - i,
        {
            self.slots[i] = (0, Vec::new());
            i = i + 1;
        }
        self.jitter_ns = 0;
        self.last_arrival = None;
        self.since_adapt = 0;
        self.strays = 0;
        assert(self@.packets =~= Map::<u32, Seq<u8>>::empty());
    }

    /// The number of buffered packets.
    pub fn count_buffered(&self) -> (n: usize)
        requires
            self.wf(),
        ensures
            n == self@.packets.dom().len(),
    {
        let mut n: usize = 0;
        let mut i: usize = 0;
        let ghost mut seen: Set<u32> = Set::empty();
        while i < self.slots.len()
            invariant
                i <= self.slots@.len() == RING,
                ring_ok(self.slots@, self.next_seq),
                n <= i,
                n == seen.len(),
                seen.finite(),
                forall|s: u32| #[trigger]
                    seen.contains(s) <==> s != 0 && s % RING < i && self.slots@[(s
                        % RING) as int].0 == s,
            decreases self.slots.len() - i,
        {
            let ghost before = seen;
            if self.slots[i].0 != 0 {
                n = n + 1;
                proof {
                    seen = seen.insert(self.slots@[i as int].0);
                }
            }
            i = i + 1;
            proof {
                assert forall|s: u32| #[trigger] seen.contains(s) <==> s != 0 && s % RING < i
                    && self.slots@[(s % RING) as int].0 == s by {
                    if s % RING == i - 1 {
                        assert(!before.contains(s));
                    }
                }
            }
        }
        assert(seen =~= self@.packets.dom());
        n
    }

    /// Makes the oldest buffered packet the one that is due.
    pub fn skip_to_oldest_available(&mut self)
        requires
            old(self).wf(),
        ensures
            final(self).wf(),
            final(self)@ == (JitterView { next_seq: final(self)@.next_seq, ..old(self)@ }),
            if old(self)@.packets.dom() =~= Set::<u32>::empty() {
                final(self)@.next_seq == old(self)@.next_seq
            } else {
                is_oldest(old(self)@, final(self)@.next_seq)
            },
    {
        let mut offset: u32 = 0;
        while offset < RING
            invariant
                offset <= RING,
                *self == *old(self),
                self.wf(),
                forall|s: u32| #[trigger]
                    self@.packets.dom().contains(s) ==> ahead(self.next_seq, s) >= offset,
            decreases RING - offset,
        {
            let seq: u32 = self.next_seq.wrapping_add(offset);
            let idx: usize = (seq % RING) as usize;
            if self.slots[idx].0 == seq && seq != 0 {
                proof {
                    assert(self@.packets.dom().contains(seq));
                    assert(ahead(self.next_seq, seq) == offset);
                    assert forall|i: int| 0 <= i < RING && (#[trigger] self.slots@[i]).0
                        != 0 implies ahead(seq, self.slots@[i].0) < RING by {
                        assert(self@.packets.dom().contains(self.slots@[i].0));
                    }
                }
                self.next_seq = seq;
                assert(self@.packets =~= old(self)@.packets);
                return;
            }
            proof {
                assert forall|s: u32| #[trigger] self@.packets.dom().contains(s) implies ahead(
                    self.next_seq,
                    s,
                ) >= offset + 1 by {
                    if ahead(self.next_seq, s) == offset {
                        assert(s == seq);
                    }
                }
            }
            offset = offset + 1;
        }
        proof {
            assert forall|s: u32| !self@.packets.dom().contains(s) by {
                if self@.packets.dom().contains(s) {
                    assert(ahead(self.next_seq, s) >= RING);
                }
            }
            assert(self@.packets.dom() =~= Set::<u32>::empty());
        }
    }

    /// Sets the size by the observed jitter.
    pub fn adapt_size(&mut self)
        requires
            old(self).wf(),
        ensures
            final(self).wf(),
            final(self)@ == adapted(old(self)@),
    {
        self.max_size = size_of_jitter(self.jitter_ns);
        assert(self@.packets =~= old(self)@.packets);
    }

    /// Current smoothed jitter, in nanoseconds.
    pub fn jitter_ns(&self) -> (j: u64)
        ensures
            j == self@.jitter_ns,
    {
        self.jitter_ns
    }

    /// The most packets that are kept.
    pub fn max_size(&self) -> (n: usize)
        ensures
            n == self@.max_size,
    {
        self.max_size
    }

    /// Takes in a packet that arrived at `now`.
    ///
    /// A late packet is dropped, unless it is so late that the sender must
    /// have started anew; a packet too far ahead is dropped, unless several
    /// came in a row. In both of these cases the buffer follows the stream.
    pub fn push(&mut self, seq: u32, opus_data: &[u8], now: u64)
        requires
            old(self).wf(),
            seq != 0,
        ensures
            final(self).wf(),
            pushed(old(self)@, seq, opus_data@, now, final(self)@),
    {
        if !self.started {
            self.next_seq = seq;
            self.started = true;
            proof {
                assert forall|i: int| 0 <= i < RING implies (#[trigger] self.slots@[i]).0 == 0 by {
                    if self.slots@[i].0 != 0 {
                        assert(old(self)@.packets.dom().contains(self.slots@[i].0));
                    }
                }
            }
            assert(self@.packets =~= old(self)@.packets);
        }
        let ghost v0 = self@;
        assert(self.wf());
        if seq_before(seq, self.next_seq) {
            let gap: u32 = self.next_seq.wrapping_sub(seq);
            if gap > RING * 2 {
                self.reset_to(seq);
            } else {
                return;
            }
        }
        let distance: u32 = seq.wrapping_sub(self.next_seq);
        if distance >= RING {
            if self.strays + 1 >= config::JITTER_RESYNC_AFTER {
                self.reset_to(seq);
            } else {
                self.strays = self.strays + 1;
                assert(self@.packets =~= v0.packets);
                return;
            }
        }
        let ghost v1 = self@;
        assert(v1 == opened_for(old(self)@, seq));
        assert(self.wf());
        self.store(seq, opus_data, now);
        let ghost v2 = self@;
        let n: usize = self.count_buffered();
        if n > self.max_size {
            assert(v2.packets.dom().contains(seq));
            self.skip_to_oldest_available();
        }
    }

    /// Stores a packet that is due within one round.
    fn store(&mut self, seq: u32, opus_data: &[u8], now: u64)
        requires
            old(self).wf(),
            old(self)@.started,
            seq != 0,
            ahead(old(self)@.next_seq, seq) < RING,
        ensures
            final(self).wf(),
            final(self)@ == stored(old(self)@, seq, opus_data@, now),
    {
        if let Some(prev) = self.last_arrival {
            let interval: u64 = now.saturating_sub(prev);
            let deviation: u64 = if interval >= FRAME_INTERVAL_NS {
                interval - FRAME_INTERVAL_NS
            } else {
                FRAME_INTERVAL_NS - interval
            };
            self.jitter_ns = ((15 * self.jitter_ns as u128 + deviation as u128) / 16) as u64;
        }
        self.last_arrival = Some(now);
        self.strays = 0;
        let idx: usize = (seq % RING) as usize;
        let ghost before = self.slots@;
        self.slots[idx] = (seq, vstd::slice::slice_to_vec(opus_data));
        proof {
            let after = self.slots@;
            assert forall|s: u32| ring_packets(after).dom().contains(s) <==> ring_packets(
                before,
            ).insert(seq, opus_data@).dom().contains(s) by {
                if s != seq && s != 0 && s % RING == seq % RING && before[idx as int].0 == s {
                    lemma_slot_unique(self.next_seq, s, seq);
                }
            }
            assert(ring_packets(after) =~= ring_packets(before).insert(seq, opus_data@));
            assert(ring_packets(before) == old(self)@.packets);
        }
        self.since_adapt = self.since_adapt + 1;
        let ghost mid = self@;
        if self.since_adapt >= config::JITTER_ADAPT_INTERVAL {
            self.since_adapt = 0;
            assert(self@.packets =~= mid.packets);
            self.adapt_size();
        }
        assert(self@ =~= stored(old(self)@, seq, opus_data@, now));
    }

    /// Takes out the packet that is due. Where it is missing and later ones
    /// are there, it is skipped.
    pub fn pop(&mut self, out: &mut Vec<u8>) -> (r: PopResult)
        requires
            old(self).wf(),
        ensures
            final(self).wf(),
            match r {
                PopResult::Packet => {
                    &&& old(self)@.packets.dom().contains(old(self)@.next_seq)
                    &&& final(out)@ == old(self)@.packets[old(self)@.next_seq]
                    &&& final(self)@ == (JitterView {
                        packets: old(self)@.packets.remove(old(self)@.next_seq),
                        next_seq: step(old(self)@.next_seq, 1),
                        ..old(self)@
                    })
                },
                PopResult::Missing => {
                    &&& !old(self)@.packets.dom().contains(old(self)@.next_seq)
                    &&& old(self)@.packets.dom() != Set::<u32>::empty()
                    &&& final(out)@ == old(out)@
                    &&& final(self)@ == (JitterView {
                        next_seq: step(old(self)@.next_seq, 1),
                        ..old(self)@
                    })
                },
                PopResult::Empty => {
                    &&& old(self)@.packets.dom() == Set::<u32>::empty()
                    &&& final(out)@ == old(out)@
                    &&& final(self)@ == old(self)@
                },
            },
            popped(old(self)@, final(self)@, r, final(out)@),
    {
        let ghost v = self@;
        let ghost due = self.next_seq;
        if !self.started {
            assert(self@.packets.dom() =~= Set::<u32>::empty());
            return PopResult::Empty;
        }
        let idx: usize = (self.next_seq % RING) as usize;
        if self.slots[idx].0 == self.next_seq && self.next_seq != 0 {
            let mut slot: (u32, Vec<u8>) = (0, Vec::new());
            std::mem::swap(&mut self.slots[idx], &mut slot);
            *out = slot.1;
            self.next_seq = self.next_seq.wrapping_add(1);
            proof {
                assert forall|s: u32| self@.packets.dom().contains(s) <==> v.packets.remove(
                    due,
                ).dom().contains(s) by {}
                assert(self@.packets =~= v.packets.remove(due));
                assert forall|i: int| 0 <= i < RING && (#[trigger] self.slots@[i]).0
                    != 0 implies ahead(self.next_seq, self.slots@[i].0) < RING by {
                    assert(v.packets.dom().contains(self.slots@[i].0));
                    if self.slots@[i].0 == due {
                        assert(i == idx);
                    }
                }
                assert forall|s: u32| #[trigger] self@.packets.dom().contains(s) implies ahead(
                    self.next_seq,
                    s,
                ) < RING by {
                    assert(self.slots@[(s % RING) as int].0 == s);
                }
            }
            return PopResult::Packet;
        }
        if self.count_buffered() > 0 {
            self.next_seq = self.next_seq.wrapping_add(1);
            proof {
                assert(self@.packets =~= v.packets);
                assert forall|i: int| 0 <= i < RING && (#[trigger] self.slots@[i]).0
                    != 0 implies ahead(self.next_seq, self.slots@[i].0) < RING by {
                    assert(v.packets.dom().contains(self.slots@[i].0));
                }
                assert forall|s: u32| #[trigger] self@.packets.dom().contains(s) implies ahead(
                    self.next_seq,
                    s,
                ) < RING by {
                    assert(self.slots@[(s % RING) as int].0 == s);
                }
            }
            PopResult::Missing
        } else {
            proof {
                v.packets.dom().lemma_len0_is_empty();
            }
            PopResult::Empty
        }
    }
}

/// The size for a deviation.
pub fn size_of_jitter(jitter_ns: u64) -> (n: usize)
    ensures
        n == size_for(jitter_ns as int),
{
    let packets: u128 = (2 * jitter_ns as u128 + FRAME_INTERVAL_NS as u128 - 1)
        / FRAME_INTERVAL_NS as u128;
    if packets < config::JITTER_BUF_MIN as u128 {
        config::JITTER_BUF_MIN
    } else if packets > config::JITTER_BUF_MAX as u128 {
        config::JITTER_BUF_MAX
    } else {
        packets as usize
    }
}

/// Packets come out in the order of their sequence numbers: what stays after
/// a packet was taken out is due later.
pub proof fn law_in_order(v: JitterView, s: u32)
    requires
        buffer_ok(v),
        v.packets.dom().contains(v.next_seq),
        v.packets.remove(v.next_seq).dom().contains(s),
    ensures
        before(v.next_seq, s),
{
}

/// The size stays within its limits, whatever the jitter.
pub proof fn law_size_bounded(jitter_ns: int)
    ensures
        config::JITTER_BUF_MIN <= size_for(jitter_ns) <= config::JITTER_BUF_MAX,
{
}

/// More jitter never makes the buffer smaller.
pub proof fn law_size_monotone(a: int, b: int)
    requires
        0 <= a <= b,
    ensures
        size_for(a) <= size_for(b),
{
}

/// A packet that is late by no more than two rounds leaves the buffer as it
/// is.
pub proof fn law_late_is_dropped(
    v: JitterView,
    seq: u32,
    data: Seq<u8>,
    now: u64,
    after: JitterView,
)
    requires
        v.started,
        before(seq, v.next_seq),
        ahead(seq, v.next_seq) <= 2 * RING,
        pushed(v, seq, data, now, after),
    ensures
        after == v,
{
}

/// A stream that restarts is followed at once.
pub proof fn law_restart_is_followed(v: JitterView, seq: u32)
    requires
        v.started,
        before(seq, v.next_seq),
        ahead(seq, v.next_seq) > 2 * RING,
    ensures
        accepts(v, seq),
        opened_for(v, seq).next_seq == seq,
{
}

/// A single packet far ahead is dropped and moves nothing but the count of
/// strays; the last of several in a row is followed.
pub proof fn law_strays(v: JitterView, seq: u32, data: Seq<u8>, now: u64, after: JitterView)
    requires
        v.started,
        !before(seq, v.next_seq),
        ahead(v.next_seq, seq) >= RING,
        pushed(v, seq, data, now, after),
    ensures
        v.strays + 1 < config::JITTER_RESYNC_AFTER ==> !accepts(v, seq) && after == (JitterView {
            strays: (v.strays + 1) as u32,
            ..v
        }),
        v.strays + 1 >= config::JITTER_RESYNC_AFTER ==> accepts(v, seq) && opened_for(
            v,
            seq,
        ).next_seq == seq,
{
}

/// Steps and distances in the circle of sequence numbers undo each other, and
/// nothing is before what it follows by a few steps.
pub proof fn law_steps(a: u32, b: u32, n: int)
    requires
        0 <= n < 0x1_0000_0000,
    ensures
        step(a, ahead(a, b)) == b,
        ahead(a, step(a, n)) == n,
        0 < n < 0x8000_0000 ==> before(a, step(a, n)) && !before(step(a, n), a),
        step(a, 0) == a,
        n + 1 < 0x1_0000_0000 ==> step(step(a, n), 1) == step(a, n + 1),
{
}

/// A packet that is less than one round ahead of the one that is due is put
/// into its place with its data, whatever else is held; nothing that is held
/// is lost by that.
pub proof fn law_in_time_is_kept(
    v: JitterView,
    seq: u32,
    data: Seq<u8>,
    now: u64,
    after: JitterView,
)
    requires
        v.started,
        ahead(v.next_seq, seq) < RING,
        pushed(v, seq, data, now, after),
    ensures
        after.packets == v.packets.insert(seq, data),
        after.started,
        after.packets.dom().len() <= after.max_size ==> after.next_seq == v.next_seq,
{
}

/// The first packet of a stream is the one that is due.
pub proof fn law_first_packet_starts(
    v: JitterView,
    seq: u32,
    data: Seq<u8>,
    now: u64,
    after: JitterView,
)
    requires
        buffer_ok(v),
        !v.started,
        pushed(v, seq, data, now, after),
    ensures
        after.packets == map![seq => data],
        after.next_seq == seq,
        after.started,
{
    let s = stored(opened_for(v, seq), seq, data, now);
    assert(v.packets =~= Map::<u32, Seq<u8>>::empty());
    assert(s.packets =~= map![seq => data]);
    assert(s.packets.dom() =~= Set::<u32>::empty().insert(seq));
    assert(s.packets.dom().len() == 1);
}

/// A stream that restarted is heard from its first packet on.
pub proof fn law_restart_is_heard(
    v: JitterView,
    seq: u32,
    data: Seq<u8>,
    now: u64,
    after: JitterView,
)
    requires
        buffer_ok(v),
        v.started,
        before(seq, v.next_seq),
        ahead(seq, v.next_seq) > 2 * RING,
        pushed(v, seq, data, now, after),
    ensures
        after.packets == map![seq => data],
        after.next_seq == seq,
{
    let s = stored(opened_for(v, seq), seq, data, now);
    assert(s.packets =~= map![seq => data]);
    assert(s.packets.dom() =~= Set::<u32>::empty().insert(seq));
    assert(s.packets.dom().len() == 1);
}

/// When more packets are held than the size allows, the one that is due next
/// is held, and none that is held is due before it.
pub proof fn law_overfull_skips(
    v: JitterView,
    seq: u32,
    data: Seq<u8>,
    now: u64,
    after: JitterView,
    other: u32,
)
    requires
        v.started,
        ahead(v.next_seq, seq) < RING,
        pushed(v, seq, data, now, after),
        after.packets.dom().len() > after.max_size,
        after.packets.dom().contains(other),
    ensures
        after.packets.dom().contains(after.next_seq),
        ahead(v.next_seq, after.next_seq) <= ahead(v.next_seq, other),
{
}

/// The smoothed deviation moves a sixteenth of the way to the deviation of the
/// last interval from that of the frames, so it stays between the two.
pub proof fn law_jitter_is_smoothed(
    v: JitterView,
    seq: u32,
    data: Seq<u8>,
    now: u64,
    after: JitterView,
    prev: u64,
    deviation: int,
)
    requires
        v.started,
        v.jitter_ns >= 0,
        ahead(v.next_seq, seq) < RING,
        pushed(v, seq, data, now, after),
        v.last_arrival == Some(prev),
        prev <= now,
        deviation >= 0,
        now - prev == FRAME_INTERVAL_NS + deviation || now - prev == FRAME_INTERVAL_NS - deviation,
    ensures
        16 * after.jitter_ns <= 15 * v.jitter_ns + deviation < 16 * after.jitter_ns + 16,
        after.jitter_ns <= v.jitter_ns || after.jitter_ns <= deviation,
        after.jitter_ns >= v.jitter_ns || after.jitter_ns >= deviation,
        after.last_arrival == Some(now),
{
}

/// The buffer is as long as twice the deviation and no longer than a packet
/// more, as far as its limits allow.
pub proof fn law_size_covers_jitter(jitter_ns: int)
    requires
        jitter_ns >= 0,
    ensures
        size_for(jitter_ns) < config::JITTER_BUF_MAX ==> size_for(jitter_ns) * FRAME_INTERVAL_NS
            >= 2 * jitter_ns,
        size_for(jitter_ns) > config::JITTER_BUF_MIN ==> (size_for(jitter_ns) - 1)
            * FRAME_INTERVAL_NS < 2 * jitter_ns,
{
}

/// The size follows the deviation at every adaptation, and only then.
pub proof fn law_size_is_adapted(
    v: JitterView,
    seq: u32,
    data: Seq<u8>,
    now: u64,
    after: JitterView,
)
    requires
        v.started,
        ahead(v.next_seq, seq) < RING,
        pushed(v, seq, data, now, after),
        v.since_adapt < config::JITTER_ADAPT_INTERVAL,
    ensures
        v.since_adapt + 1 == config::JITTER_ADAPT_INTERVAL ==> after.max_size == size_for(
            after.jitter_ns,
        ) && after.since_adapt == 0,
        v.since_adapt + 1 < config::JITTER_ADAPT_INTERVAL ==> after.max_size == v.max_size
            && after.since_adapt == v.since_adapt + 1,
{
}

/// A packet that is accepted waits for its turn.
pub proof fn law_accepted_is_kept(
    v: JitterView,
    seq: u32,
    data: Seq<u8>,
    now: u64,
    after: JitterView,
)
    requires
        accepts(v, seq),
        pushed(v, seq, data, now, after),
    ensures
        after.packets.dom().contains(seq),
        after.packets[seq] == data,
{
}

/// Packets that come in one after the other: `states` holds the buffer before
/// the first and after each.
pub open spec fn is_run(states: Seq<JitterView>, stream: Seq<(u32, Seq<u8>, u64)>) -> bool {
    &&& states.len() == stream.len() + 1
    &&& forall|i: int|
        0 <= i < stream.len() ==> pushed(
            states[i],
            (#[trigger] stream[i]).0,
            stream[i].1,
            stream[i].2,
            states[i + 1],
        )
}

/// Every packet is too far ahead of the one that is due.
pub open spec fn all_far_ahead(next_seq: u32, stream: Seq<(u32, Seq<u8>, u64)>) -> bool {
    forall|i: int|
        0 <= i < stream.len() ==> !before((#[trigger] stream[i]).0, next_seq) && ahead(
            next_seq,
            stream[i].0,
        ) >= RING
}

/// Packets far ahead, fewer than it takes to follow them, leave the stream as
/// it was: they are dropped and counted.
pub proof fn law_few_strays_are_dropped(
    states: Seq<JitterView>,
    stream: Seq<(u32, Seq<u8>, u64)>,
    n: int,
)
    requires
        is_run(states, stream),
        states[0].started,
        all_far_ahead(states[0].next_seq, stream),
        0 <= n <= stream.len(),
        states[0].strays + n < config::JITTER_RESYNC_AFTER,
    ensures
        states[n] == (JitterView { strays: (states[0].strays + n) as u32, ..states[0] }),
    decreases n,
{
    if n > 0 {
        law_few_strays_are_dropped(states, stream, n - 1);
        let p = stream[n - 1];
        law_strays(states[n - 1], p.0, p.1, p.2, states[n - 1 + 1]);
    }
}

/// A stream that runs far ahead for long is followed: after enough packets in
/// a row, the last of them is due, and it is the one that is there.
pub proof fn law_sustained_gap_is_followed(
    states: Seq<JitterView>,
    stream: Seq<(u32, Seq<u8>, u64)>,
)
    requires
        is_run(states, stream),
        buffer_ok(states[0]),
        states[0].started,
        all_far_ahead(states[0].next_seq, stream),
        states[0].strays + stream.len() == config::JITTER_RESYNC_AFTER,
    ensures
        states.last().next_seq == stream.last().0,
        states.last().packets == map![stream.last().0 => stream.last().1],
        states.last().started,
        states.last().strays == 0,
{
    let n = stream.len() - 1;
    law_few_strays_are_dropped(states, stream, n);
    let v = states[n];
    let p = stream[n];
    assert(pushed(v, p.0, p.1, p.2, states[n + 1]));
    law_strays(v, p.0, p.1, p.2, states[n + 1]);
    let s = stored(opened_for(v, p.0), p.0, p.1, p.2);
    assert(s.packets =~= map![p.0 => p.1]);
    assert(s.packets.dom() =~= Set::<u32>::empty().insert(p.0));
    assert(s.packets.dom().len() == 1);
}

/// Every packet is less than one round ahead of the one that is due.
pub open spec fn all_in_round(next_seq: u32, stream: Seq<(u32, Seq<u8>, u64)>) -> bool {
    forall|i: int| 0 <= i < stream.len() ==> ahead(next_seq, (#[trigger] stream[i]).0) < RING
}

/// No two packets have the same number.
pub open spec fn numbers_differ(stream: Seq<(u32, Seq<u8>, u64)>) -> bool {
    forall|i: int, j: int|
        0 <= i < j < stream.len() ==> (#[trigger] stream[i]).0 != (#[trigger] stream[j]).0
}

/// Never are more packets held than the size allows.
pub open spec fn never_overfull(states: Seq<JitterView>) -> bool {
    forall|i: int|
        0 <= i < states.len() ==> (#[trigger] states[i]).packets.dom().len() <= states[i].max_size
}

/// `a` and `b` bring the same packets, at whatever times and in whatever order.
pub open spec fn same_packets(
    a: Seq<(u32, Seq<u8>, u64)>,
    b: Seq<(u32, Seq<u8>, u64)>,
) -> bool {
    &&& forall|i: int|
        0 <= i < a.len() ==> exists|j: int|
            0 <= j < b.len() && (#[trigger] b[j]).0 == (#[trigger] a[i]).0 && b[j].1 == a[i].1
    &&& forall|j: int|
        0 <= j < b.len() ==> exists|i: int|
            0 <= i < a.len() && (#[trigger] a[i]).0 == (#[trigger] b[j]).0 && a[i].1 == b[j].1
}

/// Whether one of the first `n` packets has the number `s`.
spec fn brought(stream: Seq<(u32, Seq<u8>, u64)>, n: int, s: u32) -> bool {
    exists|i: int| 0 <= i < n && (#[trigger] stream[i]).0 == s
}

proof fn lemma_round_is_kept(
    states: Seq<JitterView>,
    stream: Seq<(u32, Seq<u8>, u64)>,
    n: int,
)
    requires
        is_run(states, stream),
        states[0].started,
        all_in_round(states[0].next_seq, stream),
        numbers_differ(stream),
        never_overfull(states),
        0 <= n <= stream.len(),
    ensures
        states[n].started,
        states[n].next_seq == states[0].next_seq,
        forall|s: u32| #[trigger]
            states[n].packets.dom().contains(s) <==> states[0].packets.dom().contains(s)
                || brought(stream, n, s),
        forall|i: int|
            0 <= i < n ==> states[n].packets[(#[trigger] stream[i]).0] == stream[i].1,
        forall|s: u32|
            states[0].packets.dom().contains(s) && !brought(stream, n, s)
                ==> #[trigger] states[n].packets[s] == states[0].packets[s],
    decreases n,
{
    if n > 0 {
        lemma_round_is_kept(states, stream, n - 1);
        let p = stream[n - 1];
        assert(pushed(states[n - 1], p.0, p.1, p.2, states[n - 1 + 1]));
        law_in_time_is_kept(states[n - 1], p.0, p.1, p.2, states[n]);
        assert(states[n].packets.dom().len() <= states[n].max_size);
        assert forall|s: u32| brought(stream, n, s) <==> brought(stream, n - 1, s) || s == p.0 by {
            if brought(stream, n, s) && s != p.0 {
                let i = choose|i: int| 0 <= i < n && (#[trigger] stream[i]).0 == s;
                assert(stream[i].0 == s && i < n - 1);
            }
            if brought(stream, n - 1, s) {
                let i = choose|i: int| 0 <= i < n - 1 && (#[trigger] stream[i]).0 == s;
                assert(stream[i].0 == s && i < n);
            }
            if s == p.0 {
                assert(stream[n - 1].0 == s);
            }
        }
        assert forall|i: int| 0 <= i < n implies states[n].packets[(#[trigger] stream[i]).0]
            == stream[i].1 by {
            if i < n - 1 {
                assert(stream[i].0 != stream[n - 1].0);
            }
        }
    }
}

/// Packets of one round can come in any order: what is held in the end, and
/// what is due, are the same.
pub proof fn law_order_of_arrival_does_not_matter(
    a_states: Seq<JitterView>,
    a: Seq<(u32, Seq<u8>, u64)>,
    b_states: Seq<JitterView>,
    b: Seq<(u32, Seq<u8>, u64)>,
)
    requires
        is_run(a_states, a),
        is_run(b_states, b),
        a_states[0] == b_states[0],
        a_states[0].started,
        all_in_round(a_states[0].next_seq, a),
        all_in_round(a_states[0].next_seq, b),
        numbers_differ(a),
        numbers_differ(b),
        same_packets(a, b),
        never_overfull(a_states),
        never_overfull(b_states),
    ensures
        a_states.last().packets == b_states.last().packets,
        a_states.last().next_seq == a_states[0].next_seq,
        b_states.last().next_seq == a_states[0].next_seq,
        forall|i: int|
            0 <= i < a.len() ==> a_states.last().packets.dom().contains((#[trigger] a[i]).0)
                && a_states.last().packets[a[i].0] == a[i].1,
{
    let n = a.len() as int;
    let m = b.len() as int;
    lemma_round_is_kept(a_states, a, n);
    lemma_round_is_kept(b_states, b, m);
    let x = a_states[n].packets;
    let y = b_states[m].packets;
    assert forall|s: u32| brought(a, n, s) <==> brought(b, m, s) by {
        if brought(a, n, s) {
            let i = choose|i: int| 0 <= i < n && (#[trigger] a[i]).0 == s;
            let j = choose|j: int|
                0 <= j < b.len() && (#[trigger] b[j]).0 == a[i].0 && b[j].1 == a[i].1;
            assert(b[j].0 == s);
        }
        if brought(b, m, s) {
            let j = choose|j: int| 0 <= j < m && (#[trigger] b[j]).0 == s;
            let i = choose|i: int|
                0 <= i < a.len() && (#[trigger] a[i]).0 == b[j].0 && a[i].1 == b[j].1;
            assert(a[i].0 == s);
        }
    }
    assert forall|s: u32| x.dom().contains(s) implies y.dom().contains(s) && #[trigger] x[s]
        == y[s] by {
        if brought(a, n, s) {
            let i = choose|i: int| 0 <= i < n && (#[trigger] a[i]).0 == s;
            let j = choose|j: int|
                0 <= j < b.len() && (#[trigger] b[j]).0 == a[i].0 && b[j].1 == a[i].1;
            assert(x[a[i].0] == a[i].1);
            assert(y[b[j].0] == b[j].1);
        } else {
            assert(x[s] == a_states[0].packets[s]);
            assert(y[s] == b_states[0].packets[s]);
        }
    }
    assert(x.dom() =~= y.dom());
    assert(x =~= y);
    assert forall|i: int| 0 <= i < a.len() implies x.dom().contains((#[trigger] a[i]).0) && x[a[i].0]
        == a[i].1 by {
        assert(brought(a, n, a[i].0));
    }
}

/// Packets that are taken out one after the other: `states` holds the buffer
/// before the first and after each.
pub open spec fn is_playout(states: Seq<JitterView>, got: Seq<(PopResult, Seq<u8>)>) -> bool {
    &&& states.len() == got.len() + 1
    &&& forall|i: int|
        0 <= i < got.len() ==> popped(
            states[i],
            states[i + 1],
            (#[trigger] got[i]).0,
            got[i].1,
        )
}

proof fn lemma_playout(states: Seq<JitterView>, got: Seq<(PopResult, Seq<u8>)>, n: int)
    requires
        is_playout(states, got),
        buffer_ok(states[0]),
        0 <= n <= got.len(),
        forall|i: int| 0 <= i < n ==> (#[trigger] got[i]).0 != PopResult::Empty,
    ensures
        n <= RING,
        states[n].next_seq == step(states[0].next_seq, n),
        forall|s: u32| #[trigger]
            states[n].packets.dom().contains(s) <==> states[0].packets.dom().contains(s) && ahead(
                states[0].next_seq,
                s,
            ) >= n,
        forall|s: u32|
            states[n].packets.dom().contains(s) ==> #[trigger] states[n].packets[s]
                == states[0].packets[s],
    decreases n,
{
    if n > 0 {
        lemma_playout(states, got, n - 1);
        let v = states[n - 1];
        let g = got[n - 1];
        assert(popped(v, states[n - 1 + 1], g.0, g.1));
        assert(v.packets.dom() != Set::<u32>::empty());
        assert(n - 1 < RING) by {
            if n - 1 >= RING {
                assert forall|s: u32| !v.packets.dom().contains(s) by {
                    if v.packets.dom().contains(s) {
                        assert(states[0].packets.dom().contains(s));
                    }
                }
                assert(v.packets.dom() =~= Set::<u32>::empty());
            }
        }
    }
}

/// Packets are played in the order of their numbers, each in its place: what
/// comes out at a step is the packet with that number, or the notice that it is
/// missing, and nothing comes out only when nothing is left.
pub proof fn law_playout_is_in_order(
    states: Seq<JitterView>,
    got: Seq<(PopResult, Seq<u8>)>,
    i: int,
)
    requires
        is_playout(states, got),
        buffer_ok(states[0]),
        0 <= i < got.len(),
        forall|j: int| 0 <= j < i ==> (#[trigger] got[j]).0 != PopResult::Empty,
    ensures
        ({
            let first = states[0];
            let due = step(first.next_seq, i);
            &&& got[i].0 == PopResult::Packet <==> first.packets.dom().contains(due)
            &&& got[i].0 == PopResult::Packet ==> got[i].1 == first.packets[due]
            &&& got[i].0 == PopResult::Empty <==> forall|s: u32| #[trigger]
                first.packets.dom().contains(s) ==> ahead(first.next_seq, s) < i
        }),
{
    lemma_playout(states, got, i);
    let first = states[0];
    let v = states[i];
    assert(popped(v, states[i + 1], got[i].0, got[i].1));
    law_steps(first.next_seq, first.next_seq, i);
    if forall|s: u32| #[trigger]
        first.packets.dom().contains(s) ==> ahead(first.next_seq, s) < i {
        assert(v.packets.dom() =~= Set::<u32>::empty());
    }
    if got[i].0 == PopResult::Empty {
        assert forall|s: u32| #[trigger] first.packets.dom().contains(s) implies ahead(
            first.next_seq,
            s,
        ) < i by {
            assert(!v.packets.dom().contains(s));
        }
    }
}

/// Packets of one round can come in any order: they are played alike, packet
/// by packet and gap by gap.
pub proof fn law_any_order_plays_alike(
    a_states: Seq<JitterView>,
    a: Seq<(u32, Seq<u8>, u64)>,
    b_states: Seq<JitterView>,
    b: Seq<(u32, Seq<u8>, u64)>,
    a_play: Seq<JitterView>,
    a_got: Seq<(PopResult, Seq<u8>)>,
    b_play: Seq<JitterView>,
    b_got: Seq<(PopResult, Seq<u8>)>,
    i: int,
)
    requires
        is_run(a_states, a),
        is_run(b_states, b),
        a_states[0] == b_states[0],
        a_states[0].started,
        all_in_round(a_states[0].next_seq, a),
        all_in_round(a_states[0].next_seq, b),
        numbers_differ(a),
        numbers_differ(b),
        same_packets(a, b),
        never_overfull(a_states),
        never_overfull(b_states),
        buffer_ok(a_states.last()),
        buffer_ok(b_states.last()),
        is_playout(a_play, a_got),
        is_playout(b_play, b_got),
        a_play[0] == a_states.last(),
        b_play[0] == b_states.last(),
        0 <= i < a_got.len(),
        a_got.len() == b_got.len(),
        forall|j: int| 0 <= j < i ==> (#[trigger] a_got[j]).0 != PopResult::Empty,
    ensures
        a_got[i].0 == b_got[i].0,
        a_got[i].0 == PopResult::Packet ==> a_got[i].1 == b_got[i].1,
    decreases i,
{
    law_order_of_arrival_does_not_matter(a_states, a, b_states, b);
    assert forall|j: int| 0 <= j < i implies (#[trigger] b_got[j]).0 != PopResult::Empty by {
        assert(a_got[j].0 != PopResult::Empty);
        law_any_order_plays_alike(
            a_states,
            a,
            b_states,
            b,
            a_play,
            a_got,
            b_play,
            b_got,
            j,
        );
    }
    law_playout_is_in_order(a_play, a_got, i);
    law_playout_is_in_order(b_play, b_got, i);
}

} // verus!
