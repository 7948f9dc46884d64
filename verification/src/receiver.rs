//! Receiving voice: one stream per sender, from datagrams to frames.
//!
//! Times are in nanoseconds of a monotonic clock.

use vstd::prelude::*;

use crate::config;
use crate::jitter;
use crate::jitter::{size_of_jitter, JitterBuffer, PopResult};
use crate::messages;
use crate::protocol;
use crate::protocol::{decode_udp_hello, VoicePacket};
use crate::quality;
use crate::quality::NetworkStats;
use crate::table;
use crate::table::Table;
use crate::text;
use crate::text::{owned, str_eq};
use crate::voice_crypto;
use crate::voice_crypto::{parse_packet_name, VoiceCipher, MAX_PLAINTEXT};
use crate::wire;

verus! {

/// How long a silent sender is remembered, in nanoseconds.
pub const STREAM_TTL_NS: u64 = 30_000_000_000;

/// How long a speaker counts as active, in nanoseconds.
pub const SPEAKER_ACTIVE_NS: u64 = 300_000_000;

/// Receive state of one sender. Sequence numbers of different senders are
/// independent, so each has a buffer of its own.
struct SenderStream {
    jitter: JitterBuffer,
    last_packet: u64,
}

/// What the stream of a sender holds.
#[verifier::ext_equal]
pub struct StreamView {
    pub buffer: jitter::JitterView,
    pub last_packet: u64,
    /// The buffer is consistent.
    pub sound: bool,
}

impl View for SenderStream {
    type V = StreamView;

    closed spec fn view(&self) -> StreamView {
        StreamView {
            buffer: self.jitter@,
            last_packet: self.last_packet,
            sound: self.jitter.wf(),
        }
    }
}

/// Voice activity of a sender.
#[derive(Debug, Clone, Copy, PartialEq, Eq, Structural)]
pub struct SpeakerStat {
    /// When the sender was last heard.
    pub last_seen: u64,
    /// Loudness, in thousandths.
    pub level: u32,
}

impl View for SpeakerStat {
    type V = SpeakerStat;

    open spec fn view(&self) -> SpeakerStat {
        *self
    }
}

/// What became of a datagram.
#[derive(Debug, Clone, Copy, PartialEq, Eq, Structural)]
pub enum Received {
    /// The server acknowledged our address.
    Registered,
    /// A frame was buffered.
    Frame,
    /// The datagram was dropped.
    Dropped,
}

/// What a receiver holds.
#[verifier::ext_equal]
pub struct ReceiverView {
    pub key: Seq<u8>,
    pub udp_token: u64,
    pub own_name: Seq<char>,
    /// Whether the server is known to have our address.
    pub registered: bool,
    pub streams: Map<Seq<char>, StreamView>,
    pub speaking: Map<Seq<char>, SpeakerStat>,
    pub since_prune: u32,
    pub bytes_rx: u64,
    /// Most samples to keep for playback.
    pub playback_cap: u32,
    pub stats: quality::StatsView,
}

/// How long ago `then_` was.
pub open spec fn age(now: u64, then_: u64) -> int {
    if now >= then_ {
        now - then_
    } else {
        0
    }
}

/// The loudness that the size of a frame stands for: 200 bytes are full.
pub open spec fn level_for(opus_len: int) -> int {
    if opus_len >= 200 {
        1000
    } else {
        opus_len * 5
    }
}

/// The speakers after one was heard; nameless ones are not shown. The level
/// moves half of the way.
pub open spec fn spoke(
    speaking: Map<Seq<char>, SpeakerStat>,
    name: Seq<char>,
    opus_len: int,
    now: u64,
) -> Map<Seq<char>, SpeakerStat> {
    if name.len() == 0 {
        speaking
    } else {
        let level = if speaking.dom().contains(name) {
            (speaking[name].level + level_for(opus_len)) / 2
        } else {
            level_for(opus_len)
        };
        speaking.insert(name, SpeakerStat { last_seen: now, level: level as u32 })
    }
}

/// The streams of senders that were heard not long ago.
pub open spec fn pruned(streams: Map<Seq<char>, StreamView>, now: u64) -> Map<
    Seq<char>,
    StreamView,
> {
    table::kept(streams, |n: Seq<char>, s: StreamView| age(now, s.last_packet) < STREAM_TTL_NS)
}

/// The streams that a packet of `name` meets: now and then silent ones are
/// forgotten, and also when a new sender finds no room.
pub open spec fn with_room(v: ReceiverView, name: Seq<char>, now: u64) -> Map<
    Seq<char>,
    StreamView,
> {
    let s = if v.since_prune + 1 >= config::STATS_WINDOW_PACKETS {
        pruned(v.streams, now)
    } else {
        v.streams
    };
    if !s.dom().contains(name) && s.dom().len() >= config::MAX_SENDER_STREAMS {
        pruned(s, now)
    } else {
        s
    }
}

/// Whether a sender can have a stream.
pub open spec fn has_room(s: Map<Seq<char>, StreamView>, name: Seq<char>) -> bool {
    s.dom().contains(name) || s.dom().len() < config::MAX_SENDER_STREAMS
}

/// The buffer of a sender; a new one is empty.
pub open spec fn buffer_of(s: Map<Seq<char>, StreamView>, name: Seq<char>) -> jitter::JitterView {
    if s.dom().contains(name) {
        s[name].buffer
    } else {
        jitter::empty_buffer()
    }
}

/// The playback limit that goes with a sender's jitter.
pub open spec fn cap_for(jitter_ns: int) -> int {
    let samples = jitter::size_for(jitter_ns) * config::FRAME_SIZE;
    if samples >= config::MAX_PLAYBACK_BUF {
        samples
    } else {
        config::MAX_PLAYBACK_BUF as int
    }
}

/// Whether a datagram is the late acknowledgement of our hello.
pub open spec fn is_late_ack(v: ReceiverView, data: Seq<u8>) -> bool {
    !v.registered && protocol::hello_token(data) == Some(v.udp_token as nat)
}

/// The receiver after it counted a datagram and took any voice as proof that
/// the server has our address.
pub open spec fn counted(v: ReceiverView, data: Seq<u8>) -> ReceiverView {
    ReceiverView {
        bytes_rx: v.bytes_rx.wrapping_add(data.len() as u64),
        registered: v.registered || is_late_ack(v, data) || protocol::is_voice_framed(data),
        ..v
    }
}

/// What a frame of another sender does to the receiver.
pub open spec fn framed(
    v: ReceiverView,
    sequence: u32,
    name: Seq<char>,
    opus: Seq<u8>,
    now: u64,
    after: ReceiverView,
    r: Received,
) -> bool {
    let streams = with_room(v, name, now);
    let v1 = ReceiverView {
        speaking: spoke(v.speaking, name, opus.len() as int, now),
        since_prune: if v.since_prune + 1 >= config::STATS_WINDOW_PACKETS {
            0
        } else {
            (v.since_prune + 1) as u32
        },
        streams,
        ..v
    };
    if has_room(streams, name) {
        &&& r == Received::Frame
        &&& after.streams.dom().contains(name)
        &&& jitter::pushed(
            buffer_of(streams, name),
            sequence,
            opus,
            now,
            after.streams[name].buffer,
        )
        &&& after == (ReceiverView {
            streams: streams.insert(
                name,
                StreamView {
                    buffer: after.streams[name].buffer,
                    last_packet: now,
                    sound: true,
                },
            ),
            playback_cap: cap_for(after.streams[name].buffer.jitter_ns) as u32,
            ..v1
        })
    } else {
        r == Received::Dropped && after == v1
    }
}

/// What a datagram does to the receiver. Voice of other senders is buffered,
/// echoes of our own voice and everything else are dropped.
pub open spec fn received(
    v: ReceiverView,
    data: Seq<u8>,
    now: u64,
    after: ReceiverView,
    r: Received,
) -> bool {
    let v1 = counted(v, data);
    if is_late_ack(v, data) {
        r == Received::Registered && after == v1
    } else {
        match voice_crypto::heard(v.key, data) {
            Some((sequence, name, opus)) => if name == v.own_name {
                r == Received::Dropped && after == v1
            } else {
                framed(v1, sequence, name, opus, now, after, r)
            },
            None => r == Received::Dropped && after == v1,
        }
    }
}

/// The receiving side of a voice session.
pub struct VoiceReceiver {
    cipher: VoiceCipher,
    udp_token: u64,
    own_name: String,
    registered: bool,
    streams: Table<String, SenderStream>,
    speaking: Table<String, SpeakerStat>,
    since_prune: u32,
    bytes_rx: u64,
    playback_cap: u32,
    stats: NetworkStats,
}

impl View for VoiceReceiver {
    type V = ReceiverView;

    closed spec fn view(&self) -> ReceiverView {
        ReceiverView {
            key: self.cipher@,
            udp_token: self.udp_token,
            own_name: self.own_name@,
            registered: self.registered,
            streams: self.streams@,
            speaking: self.speaking@,
            since_prune: self.since_prune,
            bytes_rx: self.bytes_rx,
            playback_cap: self.playback_cap,
            stats: self.stats@,
        }
    }
}

/// All buffers are consistent, levels are at most full, and prunes are not
/// overdue.
pub open spec fn receiver_ok(v: ReceiverView) -> bool {
    &&& forall|n: Seq<char>| #[trigger] v.streams.dom().contains(n) ==> v.streams[n].sound
    &&& forall|n: Seq<char>| #[trigger]
        v.speaking.dom().contains(n) ==> v.speaking[n].level <= 1000
    &&& v.since_prune < config::STATS_WINDOW_PACKETS
}

impl VoiceReceiver {
    /// A receiver that has heard nobody.
    pub fn new(cipher: VoiceCipher, udp_token: u64, own_name: &str, registered: bool) -> (r: Self)
        ensures
            receiver_ok(r@),
            r@.key == cipher@,
            r@.udp_token == udp_token,
            r@.own_name == own_name@,
            r@.registered == registered,
            r@.streams == Map::<Seq<char>, StreamView>::empty(),
            r@.speaking == Map::<Seq<char>, SpeakerStat>::empty(),
            r@.since_prune == 0,
            r@.bytes_rx == 0,
            r@.playback_cap == config::MAX_PLAYBACK_BUF,
            r@.stats == (quality::StatsView {
                received: 0,
                lost: 0,
                loss_percent: 0,
                tier: quality::QualityTier::High,
            }),
    {
        VoiceReceiver {
            cipher,
            udp_token,
            own_name: owned(own_name),
            registered,
            streams: Table::new(),
            speaking: Table::new(),
            since_prune: 0,
            bytes_rx: 0,
            playback_cap: config::MAX_PLAYBACK_BUF as u32,
            stats: NetworkStats::new(),
        }
    }

    /// Notes that a sender was heard.
    fn record_speaker(&mut self, name: &str, opus_len: usize, now: u64)
        requires
            receiver_ok(old(self)@),
        ensures
            receiver_ok(final(self)@),
            final(self)@ == (ReceiverView {
                speaking: spoke(old(self)@.speaking, name@, opus_len as int, now),
                ..old(self)@
            }),
    {
        if name.is_empty() {
            return;
        }
        let level: u32 = if opus_len >= 200 {
            1000
        } else {
            opus_len as u32 * 5
        };
        let key = owned(name);
        let smooth: u32 = match self.speaking.get(&key) {
            Some(s) => (s.level + level) / 2,
            None => level,
        };
        self.speaking.insert(key, SpeakerStat { last_seen: now, level: smooth });
    }

    /// Forgets senders that were not heard for a while.
    fn prune(&mut self, now: u64)
        requires
            receiver_ok(old(self)@),
        ensures
            receiver_ok(final(self)@),
            final(self)@ == (ReceiverView {
                streams: pruned(old(self)@.streams, now),
                ..old(self)@
            }),
    {
        let keep = |n: &String, s: &SenderStream| -> (r: bool)
            ensures
                r == (age(now, s@.last_packet) < STREAM_TTL_NS),
            { now.saturating_sub(s.last_packet) < STREAM_TTL_NS };
        self.streams.retain(
            keep,
            Ghost(|n: Seq<char>, s: StreamView| age(now, s.last_packet) < STREAM_TTL_NS),
        );
    }

    /// Buffers a frame of another sender.
    fn take_frame(&mut self, sequence: u32, name: &str, opus: &[u8], now: u64) -> (r: Received)
        requires
            receiver_ok(old(self)@),
            sequence != 0,
        ensures
            receiver_ok(final(self)@),
            framed(old(self)@, sequence, name@, opus@, now, final(self)@, r),
    {
        self.record_speaker(name, opus.len(), now);
        self.since_prune = self.since_prune + 1;
        if self.since_prune >= config::STATS_WINDOW_PACKETS {
            self.since_prune = 0;
            self.prune(now);
        }
        let key = owned(name);
        if !self.streams.contains(&key) {
            if self.streams.len() >= config::MAX_SENDER_STREAMS {
                self.prune(now);
            }
            if self.streams.len() >= config::MAX_SENDER_STREAMS {
                return Received::Dropped;
            }
        }
        let ghost streams = self.streams@;
        let mut stream: SenderStream = match self.streams.remove(&key) {
            Some(s) => s,
            None => SenderStream { jitter: JitterBuffer::new(), last_packet: now },
        };
        stream.last_packet = now;
        stream.jitter.push(sequence, opus, now);
        let frames: usize = size_of_jitter(stream.jitter.jitter_ns());
        let samples: u32 = (frames * config::FRAME_SIZE) as u32;
        self.playback_cap = if samples >= config::MAX_PLAYBACK_BUF as u32 {
            samples
        } else {
            config::MAX_PLAYBACK_BUF as u32
        };
        let ghost view = stream@;
        self.streams.insert(key, stream);
        proof {
            assert(self@.streams =~= streams.insert(name@, view));
        }
        Received::Frame
    }

    /// Handles one datagram.
    pub fn receive(&mut self, data: &[u8], now: u64) -> (r: Received)
        requires
            receiver_ok(old(self)@),
            data@.len() <= MAX_PLAINTEXT,
        ensures
            receiver_ok(final(self)@),
            received(old(self)@, data@, now, final(self)@, r),
    {
        self.bytes_rx = self.bytes_rx.wrapping_add(data.len() as u64);
        if !self.registered {
            if let Some(token) = decode_udp_hello(data) {
                if token == self.udp_token {
                    self.registered = true;
                    assert(self@ == counted(old(self)@, data@));
                    assert(receiver_ok(self@));
                    return Received::Registered;
                }
            }
        }
        let (sequence, encrypted) = match VoicePacket::parse_voice_data(data) {
            Some(parts) => parts,
            None => return Received::Dropped,
        };
        self.registered = true;
        proof {
            wire::lemma_be_value_bound(data@.subrange(0, 4));
            wire::lemma_pow256_values();
        }
        let mut plain: Vec<u8> = Vec::new();
        if !self.cipher.decrypt_packet(encrypted, &mut plain) {
            return Received::Dropped;
        }
        let (name, start) = match parse_packet_name(plain.as_slice()) {
            Some(parts) => parts,
            None => return Received::Dropped,
        };
        if str_eq(name, self.own_name.as_str()) {
            return Received::Dropped;
        }
        let opus = vstd::slice::slice_subrange(plain.as_slice(), start, plain.len());
        assert(self@ == counted(old(self)@, data@));
        assert(receiver_ok(self@));
        self.take_frame(sequence, name, opus, now)
    }

    /// Takes the due frame out of every sender's buffer, and counts what was
    /// received and what was lost. Returns one frame for each sender that has
    /// one; a frame without data is lost and to be concealed.
    pub fn drain_round(&mut self) -> (frames: Vec<DueFrame>)
        requires
            receiver_ok(old(self)@),
        ensures
            receiver_ok(final(self)@),
            drained(old(self)@.streams, final(self)@.streams, due(frames@)),
            final(self)@ == (ReceiverView {
                streams: final(self)@.streams,
                stats: tallied(old(self)@.stats, due(frames@)),
                ..old(self)@
            }),
    {
        let names = self.sender_names();
        let ghost keys = messages::texts(names@);
        let ghost before = self@;
        let mut frames: Vec<DueFrame> = Vec::new();
        let mut i: usize = 0;
        while i < names.len()
            invariant
                i <= names@.len(),
                keys == messages::texts(names@),
                keys.no_duplicates(),
                keys.to_set() == before.streams.dom(),
                receiver_ok(before),
                receiver_ok(self@),
                self@ == (ReceiverView {
                    streams: self@.streams,
                    stats: tallied(before.stats, due(frames@)),
                    ..before
                }),
                self@.streams.dom() == before.streams.dom(),
                forall|n: Seq<char>| #[trigger]
                    before.streams.dom().contains(n) ==> self@.streams[n] == if keys.subrange(
                        0,
                        i as int,
                    ).contains(n) {
                        after_pop(before.streams[n])
                    } else {
                        before.streams[n]
                    },
                frame_names(due(frames@)).no_duplicates(),
                forall|n: Seq<char>| #[trigger]
                    frame_names(due(frames@)).contains(n) <==> keys.subrange(
                        0,
                        i as int,
                    ).contains(n) && has_due(before.streams[n]),
                forall|k: int|
                    0 <= k < frames@.len() ==> (#[trigger] due(frames@)[k]).data == due_data(
                        before.streams[due(frames@)[k].name],
                    ),
            decreases names.len() - i,
        {
            let name = &names[i];
            let ghost part = keys.subrange(0, i as int);
            let ghost was = self@;
            let ghost listed = due(frames@);
            proof {
                assert(keys[i as int] == name@);
                assert(keys.to_set().contains(name@));
                assert(!part.contains(name@)) by {
                    if part.contains(name@) {
                        let j = choose|j: int| 0 <= j < part.len() && part[j] == name@;
                        assert(keys[j] == keys[i as int]);
                    }
                }
                assert(keys.subrange(0, i + 1) =~= part.push(name@));
                table::lemma_push_contains(part, name@);
            }
            if let Some(mut stream) = self.streams.remove(name) {
                let mut data: Vec<u8> = Vec::new();
                let popped = stream.jitter.pop(&mut data);
                let ghost left = stream@;
                self.streams.insert(name.clone(), stream);
                proof {
                    assert(left == after_pop(before.streams[name@]));
                    assert(self@.streams =~= was.streams.insert(name@, left));
                    assert(self@.streams.dom() =~= was.streams.dom());
                }
                match popped {
                    PopResult::Packet => {
                        self.stats.record_received();
                        self.stats.maybe_finalize_window();
                        frames.push(DueFrame { name: name.clone(), data: Some(data) });
                    },
                    PopResult::Missing => {
                        self.stats.record_lost();
                        self.stats.maybe_finalize_window();
                        frames.push(DueFrame { name: name.clone(), data: None });
                    },
                    PopResult::Empty => {},
                }
                proof {
                    if popped != PopResult::Empty {
                        let f = due(frames@).last();
                        assert(due(frames@) =~= listed.push(f));
                        assert(due(frames@).drop_last() =~= listed);
                        assert(frame_names(due(frames@)) =~= frame_names(listed).push(name@));
                        table::lemma_push_contains(frame_names(listed), name@);
                        assert(!frame_names(listed).contains(name@));
                        assert(has_due(before.streams[name@])) by {
                            let p = before.streams[name@].buffer.packets.dom();
                            if popped == PopResult::Packet {
                                assert(p.contains(before.streams[name@].buffer.next_seq));
                            }
                        }
                    }
                    assert(receiver_ok(self@));
                }
            }
            i = i + 1;
        }
        proof {
            assert(keys.subrange(0, keys.len() as int) =~= keys);
            assert forall|n: Seq<char>| #[trigger]
                before.streams.dom().contains(n) <==> keys.contains(n) by {
                assert(keys.contains(n) <==> keys.to_set().contains(n));
            }
        }
        frames
    }

    /// The names of all senders with a stream.
    fn sender_names(&self) -> (names: Vec<String>)
        ensures
            messages::texts(names@).no_duplicates(),
            messages::texts(names@).to_set() == self@.streams.dom(),
    {
        let n: usize = self.streams.len();
        let mut names: Vec<String> = Vec::new();
        let mut i: usize = 0;
        while i < n
            invariant
                i <= n == self.streams.keys().len(),
                messages::texts(names@) == self.streams.keys().subrange(0, i as int),
            decreases n - i,
        {
            let ghost before = messages::texts(names@);
            names.push(self.streams.entry(i).0.clone());
            i = i + 1;
            assert(messages::texts(names@) =~= before.push(self.streams.keys()[i - 1]));
            assert(self.streams.keys().subrange(0, i as int) =~= before.push(
                self.streams.keys()[i - 1],
            ));
        }
        assert(self.streams.keys().subrange(0, n as int) =~= self.streams.keys());
        names
    }

    /// Forgets a sender, for whom no decoder could be made.
    pub fn forget_sender(&mut self, name: &String)
        requires
            receiver_ok(old(self)@),
        ensures
            receiver_ok(final(self)@),
            final(self)@ == (ReceiverView {
                streams: old(self)@.streams.remove(name@),
                ..old(self)@
            }),
    {
        let _ = self.streams.remove(name);
        assert(receiver_ok(self@));
    }

    /// The speakers heard a moment ago, with their levels. Others are
    /// forgotten.
    pub fn speaker_levels(&mut self, now: u64) -> (levels: Vec<(String, u32)>)
        requires
            receiver_ok(old(self)@),
        ensures
            receiver_ok(final(self)@),
            final(self)@ == (ReceiverView {
                speaking: active(old(self)@.speaking, now),
                ..old(self)@
            }),
            is_level_list(level_pairs(levels@), final(self)@.speaking),
    {
        let keep = |n: &String, s: &SpeakerStat| -> (r: bool)
            ensures
                r == (age(now, s@.last_seen) < SPEAKER_ACTIVE_NS),
            { now.saturating_sub(s.last_seen) < SPEAKER_ACTIVE_NS };
        self.speaking.retain(
            keep,
            Ghost(|n: Seq<char>, s: SpeakerStat| age(now, s.last_seen) < SPEAKER_ACTIVE_NS),
        );
        let n: usize = self.speaking.len();
        let mut levels: Vec<(String, u32)> = Vec::new();
        let mut i: usize = 0;
        while i < n
            invariant
                i <= n == self.speaking.keys().len(),
                level_pairs(levels@) == levels_of(
                    self.speaking@,
                    self.speaking.keys().subrange(0, i as int),
                ),
            decreases n - i,
        {
            let (name, stat) = self.speaking.entry(i);
            let ghost before = level_pairs(levels@);
            levels.push((name.clone(), stat.level));
            i = i + 1;
            proof {
                let pair = (name@, stat.level);
                assert(level_pairs(levels@) =~= before.push(pair));
                assert(self.speaking.keys().subrange(0, i as int)
                    =~= self.speaking.keys().subrange(0, i - 1).push(name@));
                assert(levels_of(self.speaking@, self.speaking.keys().subrange(0, i as int))
                    =~= before.push(pair));
            }
        }
        proof {
            assert(self.speaking.keys().subrange(0, n as int) =~= self.speaking.keys());
            assert(level_pairs(levels@) == levels_of(self.speaking@, self.speaking.keys()));
            assert(receiver_ok(self@));
        }
        levels
    }

    /// Whether the server is known to have our address. Until then nobody is
    /// heard.
    pub fn is_registered(&self) -> (r: bool)
        ensures
            r == self@.registered,
    {
        self.registered
    }

    /// The measured loss, in percent, and the name of its tier.
    pub fn quality_info(&self) -> (r: (u8, &'static str))
        ensures
            r.0 == self@.stats.loss_percent,
            r.1@ == quality::tier_name(self@.stats.tier),
    {
        (self.stats.loss_percent(), self.stats.current_tier().as_str())
    }

    /// The measured loss and tier.
    pub fn stats(&self) -> (s: &NetworkStats)
        ensures
            s@ == self@.stats,
    {
        &self.stats
    }

    /// The bytes received.
    pub fn bytes_rx(&self) -> (n: u64)
        ensures
            n == self@.bytes_rx,
    {
        self.bytes_rx
    }

    /// The most samples to keep for playback.
    pub fn playback_cap(&self) -> (n: u32)
        ensures
            n == self@.playback_cap,
    {
        self.playback_cap
    }
}

/// A frame that is due: its data, or nothing where it was lost.
#[derive(Debug)]
pub struct DueFrame {
    pub name: String,
    pub data: Option<Vec<u8>>,
}

/// What a due frame holds.
#[verifier::ext_equal]
pub struct DueView {
    pub name: Seq<char>,
    pub data: Option<Seq<u8>>,
}

/// What a list of due frames holds.
pub open spec fn due(frames: Seq<DueFrame>) -> Seq<DueView> {
    frames.map_values(
        |f: DueFrame| DueView { name: f.name@, data: messages::opt_bytes(f.data) },
    )
}

/// The senders of due frames.
pub open spec fn frame_names(frames: Seq<DueView>) -> Seq<Seq<char>> {
    frames.map_values(|f: DueView| f.name)
}

/// Whether a sender has a frame that is due, received or lost.
pub open spec fn has_due(s: StreamView) -> bool {
    s.buffer.packets.dom() != Set::<u32>::empty()
}

/// The data of the due frame, if it was received.
pub open spec fn due_data(s: StreamView) -> Option<Seq<u8>> {
    if s.buffer.packets.dom().contains(s.buffer.next_seq) {
        Some(s.buffer.packets[s.buffer.next_seq])
    } else {
        None
    }
}

/// The stream after its due frame was taken out.
pub open spec fn after_pop(s: StreamView) -> StreamView {
    if has_due(s) {
        StreamView {
            buffer: jitter::JitterView {
                packets: s.buffer.packets.remove(s.buffer.next_seq),
                next_seq: jitter::step(s.buffer.next_seq, 1),
                ..s.buffer
            },
            ..s
        }
    } else {
        s
    }
}

/// Every sender with a due frame gave it, once, and moved on.
pub open spec fn drained(
    streams: Map<Seq<char>, StreamView>,
    after: Map<Seq<char>, StreamView>,
    frames: Seq<DueView>,
) -> bool {
    &&& after.dom() == streams.dom()
    &&& forall|n: Seq<char>| #[trigger]
        streams.dom().contains(n) ==> after[n] == after_pop(streams[n])
    &&& frame_names(frames).no_duplicates()
    &&& forall|n: Seq<char>| #[trigger]
        frame_names(frames).contains(n) <==> streams.dom().contains(n) && has_due(streams[n])
    &&& forall|k: int|
        0 <= k < frames.len() ==> (#[trigger] frames[k]).data == due_data(streams[frames[k].name])
}

/// The statistics after frames were counted, one by one.
pub open spec fn tallied(s: quality::StatsView, frames: Seq<DueView>) -> quality::StatsView
    decreases frames.len(),
{
    if frames.len() == 0 {
        s
    } else {
        let t = tallied(s, frames.drop_last());
        quality::finalized(
            match frames.last().data {
                Some(_) => quality::StatsView { received: t.received.wrapping_add(1), ..t },
                None => quality::StatsView { lost: t.lost.wrapping_add(1), ..t },
            },
        )
    }
}

/// The speakers heard a moment ago.
pub open spec fn active(speaking: Map<Seq<char>, SpeakerStat>, now: u64) -> Map<
    Seq<char>,
    SpeakerStat,
> {
    table::kept(
        speaking,
        |n: Seq<char>, s: SpeakerStat| age(now, s.last_seen) < SPEAKER_ACTIVE_NS,
    )
}

/// The names and levels of a list.
pub open spec fn level_pairs(v: Seq<(String, u32)>) -> Seq<(Seq<char>, u32)> {
    v.map_values(|p: (String, u32)| (p.0@, p.1))
}

/// The levels of speakers, in the order of `order`.
pub open spec fn levels_of(
    speaking: Map<Seq<char>, SpeakerStat>,
    order: Seq<Seq<char>>,
) -> Seq<(Seq<char>, u32)> {
    order.map_values(|n: Seq<char>| (n, speaking[n].level))
}

/// `list` holds each speaker once with its level, in some order.
pub open spec fn is_level_list(
    list: Seq<(Seq<char>, u32)>,
    speaking: Map<Seq<char>, SpeakerStat>,
) -> bool {
    exists|order: Seq<Seq<char>>|
        {
            &&& order.no_duplicates()
            &&& order.to_set() == speaking.dom()
            &&& list == #[trigger] levels_of(speaking, order)
        }
}

/// Packets of different senders do not disturb each other: a frame changes
/// the stream of its sender alone, unless silent senders are forgotten.
pub proof fn law_streams_independent(
    v: ReceiverView,
    sequence: u32,
    name: Seq<char>,
    opus: Seq<u8>,
    now: u64,
    after: ReceiverView,
    r: Received,
    other: Seq<char>,
)
    requires
        framed(v, sequence, name, opus, now, after, r),
        other != name,
        v.streams.dom().contains(other),
        age(now, v.streams[other].last_packet) < STREAM_TTL_NS,
    ensures
        after.streams.dom().contains(other),
        after.streams[other] == v.streams[other],
{
}

/// Our own voice, reflected to us, reaches neither the speakers nor playback.
pub proof fn law_echo_is_dropped(
    v: ReceiverView,
    data: Seq<u8>,
    now: u64,
    after: ReceiverView,
    r: Received,
)
    requires
        received(v, data, now, after, r),
        voice_crypto::heard(v.key, data) matches Some(h) && h.1 == v.own_name,
    ensures
        after.streams == v.streams,
        after.speaking == v.speaking,
        after.playback_cap == v.playback_cap,
{
}

/// Once registered, a receiver stays so, and any voice registers it.
pub proof fn law_voice_registers(
    v: ReceiverView,
    data: Seq<u8>,
    now: u64,
    after: ReceiverView,
    r: Received,
)
    requires
        received(v, data, now, after, r),
    ensures
        v.registered ==> after.registered,
        protocol::is_voice_framed(data) ==> after.registered,
{
}

/// How many of the due frames were lost.
pub open spec fn lost_count(frames: Seq<DueView>) -> nat
    decreases frames.len(),
{
    if frames.len() == 0 {
        0
    } else {
        lost_count(frames.drop_last()) + if frames.last().data is None {
            1nat
        } else {
            0
        }
    }
}

/// Frames are counted one by one, so it does not matter how they are spread
/// over rounds.
pub proof fn law_tally_over_rounds(
    s: quality::StatsView,
    a: Seq<DueView>,
    b: Seq<DueView>,
)
    ensures
        tallied(s, a + b) == tallied(tallied(s, a), b),
        lost_count(a + b) == lost_count(a) + lost_count(b),
    decreases b.len(),
{
    if b.len() == 0 {
        assert(a + b =~= a);
    } else {
        law_tally_over_rounds(s, a, b.drop_last());
        assert((a + b).drop_last() =~= a + b.drop_last());
        assert((a + b).last() == b.last());
    }
}

/// As long as no window is full, every due frame without data counts as lost,
/// every one with data as received, and the reported loss stays.
pub proof fn law_lost_frames_count(s: quality::StatsView, frames: Seq<DueView>)
    requires
        s.received + s.lost + frames.len() < config::STATS_WINDOW_PACKETS,
    ensures
        lost_count(frames) <= frames.len(),
        tallied(s, frames).lost == s.lost + lost_count(frames),
        tallied(s, frames).received == s.received + (frames.len() - lost_count(frames)),
        tallied(s, frames).loss_percent == s.loss_percent,
        tallied(s, frames).tier == s.tier,
    decreases frames.len(),
{
    if frames.len() > 0 {
        law_lost_frames_count(s, frames.drop_last());
    }
}

/// When the frames fill a window, the reported loss is the share of the lost
/// ones among all of its frames, the tier is the one for that loss, and a new
/// window begins.
pub proof fn law_full_window_reports_loss(s: quality::StatsView, frames: Seq<DueView>)
    requires
        frames.len() > 0,
        s.received + s.lost + frames.len() == config::STATS_WINDOW_PACKETS,
    ensures
        ({
            let t = tallied(s, frames);
            let lost = s.lost + lost_count(frames);
            &&& t.loss_percent == lost * 100 / (config::STATS_WINDOW_PACKETS as int)
            &&& t.tier == quality::tier_for(t.loss_percent)
            &&& t.received == 0
            &&& t.lost == 0
        }),
{
    let rest = frames.drop_last();
    law_lost_frames_count(s, rest);
    let lost = s.lost + lost_count(frames);
    assert(0 <= lost <= config::STATS_WINDOW_PACKETS);
    assert(0 <= lost * 100 / 150 <= 100);
}

/// Every sender with buffered packets gives exactly one frame in a round: the
/// packet that is due, or nothing where that one is missing. A sender without
/// any gives none. Nothing else leaves its buffer.
pub proof fn law_round_takes_what_is_due(
    streams: Map<Seq<char>, StreamView>,
    after: Map<Seq<char>, StreamView>,
    frames: Seq<DueView>,
    name: Seq<char>,
)
    requires
        drained(streams, after, frames),
        streams.dom().contains(name),
    ensures
        ({
            let b = streams[name].buffer;
            let c = after[name].buffer;
            &&& after.dom().contains(name)
            &&& b.packets.dom() =~= Set::<u32>::empty() ==> {
                &&& after[name] == streams[name]
                &&& forall|k: int| 0 <= k < frames.len() ==> (#[trigger] frames[k]).name != name
            }
            &&& b.packets.dom() != Set::<u32>::empty() ==> {
                &&& c.packets == b.packets.remove(b.next_seq)
                &&& c.next_seq == jitter::step(b.next_seq, 1)
                &&& exists|k: int|
                    0 <= k < frames.len() && (#[trigger] frames[k]).name == name && frames[k].data
                        == if b.packets.dom().contains(b.next_seq) {
                        Some(b.packets[b.next_seq])
                    } else {
                        None
                    }
            }
            &&& forall|i: int, k: int|
                0 <= i < k < frames.len() && (#[trigger] frames[i]).name == name ==> (
                #[trigger] frames[k]).name != name
        }),
{
    let names = frame_names(frames);
    assert forall|k: int| 0 <= k < frames.len() implies names.contains(
        (#[trigger] frames[k]).name,
    ) by {
        assert(names[k] == frames[k].name);
    }
    assert forall|i: int, k: int|
        0 <= i < k < frames.len() && (#[trigger] frames[i]).name == name implies (
    #[trigger] frames[k]).name != name by {
        assert(names[i] == frames[i].name);
        assert(names[k] == frames[k].name);
    }
    if streams[name].buffer.packets.dom() != Set::<u32>::empty() {
        assert(names.contains(name));
        let k = choose|k: int| 0 <= k < names.len() && names[k] == name;
        assert(frames[k].name == name);
    }
}

/// No frame comes from a sender without a stream.
pub proof fn law_frames_have_senders(
    streams: Map<Seq<char>, StreamView>,
    after: Map<Seq<char>, StreamView>,
    frames: Seq<DueView>,
    k: int,
)
    requires
        drained(streams, after, frames),
        0 <= k < frames.len(),
    ensures
        streams.dom().contains(frames[k].name),
        after.dom() == streams.dom(),
{
    assert(frame_names(frames)[k] == frames[k].name);
    assert(frame_names(frames).contains(frames[k].name));
}

/// Voice of a sender that is not heard yet opens a stream for it, as long as
/// there is room: the frame is due, the sender is shown as speaking, and the
/// bytes are counted.
pub proof fn law_new_sender_is_heard(
    v: ReceiverView,
    data: Seq<u8>,
    now: u64,
    after: ReceiverView,
    r: Received,
    sequence: u32,
    name: Seq<char>,
    opus: Seq<u8>,
)
    requires
        received(v, data, now, after, r),
        v.registered,
        voice_crypto::heard(v.key, data) == Some((sequence, name, opus)),
        name != v.own_name,
        v.streams.dom().finite(),
        !v.streams.dom().contains(name),
        v.streams.dom().len() < config::MAX_SENDER_STREAMS,
    ensures
        r == Received::Frame,
        after.streams.dom().contains(name),
        after.streams[name].buffer.packets == map![sequence => opus],
        after.streams[name].buffer.next_seq == sequence,
        after.streams[name].last_packet == now,
        name.len() > 0 && !v.speaking.dom().contains(name) ==> {
            &&& after.speaking.dom().contains(name)
            &&& after.speaking[name].last_seen == now
            &&& after.speaking[name].level == if opus.len() >= 200 {
                1000
            } else {
                opus.len() * 5
            }
        },
        after.bytes_rx == v.bytes_rx.wrapping_add(data.len() as u64),
        after.key == v.key,
        after.own_name == v.own_name,
        after.stats == v.stats,
{
    let v1 = counted(v, data);
    let p = pruned(v1.streams, now);
    assert(p.dom().subset_of(v1.streams.dom()));
    vstd::set_lib::lemma_len_subset(p.dom(), v1.streams.dom());
    jitter::law_first_packet_starts(
        jitter::empty_buffer(),
        sequence,
        opus,
        now,
        after.streams[name].buffer,
    );
}

/// Voice of a sender that is heard already goes to its stream: a frame within
/// one round of the one that is due is kept there with its data, and nothing
/// that waits is lost.
pub proof fn law_voice_joins_its_stream(
    v: ReceiverView,
    data: Seq<u8>,
    now: u64,
    after: ReceiverView,
    r: Received,
    sequence: u32,
    name: Seq<char>,
    opus: Seq<u8>,
)
    requires
        received(v, data, now, after, r),
        v.registered,
        voice_crypto::heard(v.key, data) == Some((sequence, name, opus)),
        name != v.own_name,
        v.streams.dom().contains(name),
        age(now, v.streams[name].last_packet) < STREAM_TTL_NS,
        v.streams[name].buffer.started,
        jitter::ahead(v.streams[name].buffer.next_seq, sequence) < jitter::RING,
    ensures
        r == Received::Frame,
        after.streams.dom().contains(name),
        after.streams[name].buffer.packets == v.streams[name].buffer.packets.insert(
            sequence,
            opus,
        ),
        after.streams[name].last_packet == now,
{
    jitter::law_in_time_is_kept(
        v.streams[name].buffer,
        sequence,
        opus,
        now,
        after.streams[name].buffer,
    );
}

/// What cannot be heard with the key of the channel changes neither streams nor
/// speakers.
pub proof fn law_noise_is_dropped(
    v: ReceiverView,
    data: Seq<u8>,
    now: u64,
    after: ReceiverView,
    r: Received,
)
    requires
        received(v, data, now, after, r),
        voice_crypto::heard(v.key, data) is None,
    ensures
        r != Received::Frame,
        after.streams == v.streams,
        after.speaking == v.speaking,
        after.stats == v.stats,
{
}

/// The acknowledgement of our hello registers us, and nothing but that or voice
/// does.
pub proof fn law_ack_registers(
    v: ReceiverView,
    data: Seq<u8>,
    now: u64,
    after: ReceiverView,
    r: Received,
)
    requires
        received(v, data, now, after, r),
        !v.registered,
    ensures
        protocol::hello_token(data) == Some(v.udp_token as nat) ==> after.registered && r
            == Received::Registered,
        after.registered ==> protocol::hello_token(data) == Some(v.udp_token as nat)
            || protocol::is_voice_framed(data),
{
}

/// A speaker who is heard again is shown as of now, half of the way to the new
/// loudness; nobody else is touched, and nameless ones are not shown.
pub proof fn law_speaker_is_shown(
    speaking: Map<Seq<char>, SpeakerStat>,
    name: Seq<char>,
    opus_len: int,
    now: u64,
    other: Seq<char>,
)
    requires
        opus_len >= 0,
        other != name,
    ensures
        ({
            let after = spoke(speaking, name, opus_len, now);
            let loud = if opus_len >= 200 {
                1000
            } else {
                opus_len * 5
            };
            &&& name.len() == 0 ==> after == speaking
            &&& name.len() > 0 ==> after.dom().contains(name) && after[name].last_seen == now
            &&& name.len() > 0 && speaking.dom().contains(name) && speaking[name].level <= 1000
                ==> 2 * after[name].level <= speaking[name].level + loud <= 2 * after[name].level
                + 1
            &&& after.dom().contains(other) <==> speaking.dom().contains(other)
            &&& speaking.dom().contains(other) ==> after[other] == speaking[other]
        }),
{
}

/// A speaker is shown for a moment after being heard, and then no more.
pub proof fn law_speakers_fall_silent(
    speaking: Map<Seq<char>, SpeakerStat>,
    name: Seq<char>,
    now: u64,
)
    requires
        speaking.dom().contains(name),
        speaking[name].last_seen <= now,
    ensures
        active(speaking, now).dom().contains(name) <==> now - speaking[name].last_seen
            < 300_000_000,
        active(speaking, now).dom().contains(name) ==> active(speaking, now)[name]
            == speaking[name],
{
}

/// Every datagram is counted with its size, whatever becomes of it.
pub proof fn law_bytes_are_counted(
    v: ReceiverView,
    data: Seq<u8>,
    now: u64,
    after: ReceiverView,
    r: Received,
)
    requires
        received(v, data, now, after, r),
        v.bytes_rx + data.len() <= u64::MAX,
    ensures
        after.bytes_rx == v.bytes_rx + data.len(),
        after.key == v.key,
        after.own_name == v.own_name,
        after.udp_token == v.udp_token,
        after.stats == v.stats,
{
}

/// A sender that was heard not long ago keeps its stream, whoever else is
/// heard.
pub proof fn law_recent_sender_keeps_its_stream(
    v: ReceiverView,
    data: Seq<u8>,
    now: u64,
    after: ReceiverView,
    r: Received,
    sender: Seq<char>,
)
    requires
        received(v, data, now, after, r),
        v.streams.dom().contains(sender),
        now >= v.streams[sender].last_packet,
        now - v.streams[sender].last_packet < STREAM_TTL_NS,
    ensures
        after.streams.dom().contains(sender),
        voice_crypto::heard(v.key, data) is None ==> after.streams[sender] == v.streams[sender],
        voice_crypto::heard(v.key, data) matches Some(h) && h.1 != sender ==> after.streams[sender]
            == v.streams[sender],
{
}

/// As much is kept for playback as the buffer of the sender may grow to, and
/// never less than the usual.
pub proof fn law_playback_covers_the_buffer(jitter_ns: int)
    ensures
        cap_for(jitter_ns) >= config::MAX_PLAYBACK_BUF,
        cap_for(jitter_ns) >= jitter::size_for(jitter_ns) * config::FRAME_SIZE,
        cap_for(jitter_ns) == config::MAX_PLAYBACK_BUF || cap_for(jitter_ns) == jitter::size_for(
            jitter_ns,
        ) * config::FRAME_SIZE,
{
}

} // verus!
