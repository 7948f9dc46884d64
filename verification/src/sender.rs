//! Sending voice: when frames go out, hellos and their repetition, traffic.

use vstd::prelude::*;

use crate::addr;
use crate::addr::{Addr, Ip};
use crate::config;
use crate::protocol;
use crate::protocol::{decode_udp_hello, next_sequence};
use crate::quality;
use crate::quality::{maybe_adapt_encoder, pass_vad, EncoderSettings, NetworkStats, QualityTier};

verus! {

/// What to do with a captured frame.
#[derive(Debug, Clone, Copy, PartialEq, Eq, Structural)]
pub enum FrameAction {
    /// The microphone is muted: the shown level is zero.
    Muted,
    /// The frame is not sent.
    Silent,
    /// The frame is encoded and sent under this sequence number.
    Send(u32),
}

/// The state of the capture loop.
#[derive(Debug, Clone, Copy, PartialEq, Eq, Structural)]
pub struct Capture {
    /// The sequence number of the next packet.
    pub sequence: u32,
    /// The tier that the encoder is set to.
    pub tier: QualityTier,
    /// Frames since the tier was last looked at.
    pub frames_since_check: u32,
    /// Frames still sent after the last loud one.
    pub hangover: u32,
}

/// Whether a frame is looked at for the tier.
pub open spec fn checks_tier(c: Capture) -> bool {
    c.frames_since_check + 1 >= config::STATS_WINDOW_PACKETS
}

/// The capture loop after a frame.
pub open spec fn captured(
    c: Capture,
    stats: quality::StatsView,
    muted: bool,
    vad_off: bool,
    loud: bool,
) -> Capture {
    if muted {
        c
    } else {
        Capture {
            tier: if checks_tier(c) {
                stats.tier
            } else {
                c.tier
            },
            frames_since_check: if checks_tier(c) {
                0
            } else {
                (c.frames_since_check + 1) as u32
            },
            hangover: if vad_off {
                c.hangover
            } else if loud {
                config::VAD_HANGOVER_FRAMES
            } else if c.hangover > 0 {
                (c.hangover - 1) as u32
            } else {
                0
            },
            ..c
        }
    }
}

/// What is done with a frame.
pub open spec fn action_on(c: Capture, muted: bool, vad_off: bool, loud: bool) -> FrameAction {
    if muted {
        FrameAction::Muted
    } else if vad_off || loud || c.hangover > 0 {
        FrameAction::Send(c.sequence)
    } else {
        FrameAction::Silent
    }
}

/// What the encoder is set to before a frame.
pub open spec fn adaptation(c: Capture, stats: quality::StatsView, muted: bool) -> Option<
    EncoderSettings,
> {
    if !muted && checks_tier(c) && stats.tier != c.tier {
        Some(quality::settings_for(stats.tier, stats.loss_percent))
    } else {
        None
    }
}

impl Capture {
    /// The loop before the first frame.
    pub fn new() -> (c: Self)
        ensures
            c == (Capture {
                sequence: 1,
                tier: QualityTier::High,
                frames_since_check: 0,
                hangover: 0,
            }),
    {
        Capture { sequence: 1, tier: QualityTier::High, frames_since_check: 0, hangover: 0 }
    }

    /// Handles a captured frame: what to do with it, and the settings to give
    /// to the encoder first, if the measured tier changed.
    pub fn on_frame(&mut self, stats: &NetworkStats, muted: bool, vad_off: bool, loud: bool) -> (r: (
        FrameAction,
        Option<EncoderSettings>,
    ))
        requires
            old(self).frames_since_check < config::STATS_WINDOW_PACKETS,
        ensures
            final(self).frames_since_check < config::STATS_WINDOW_PACKETS,
            *final(self) == captured(*old(self), stats@, muted, vad_off, loud),
            r.0 == if muted {
                FrameAction::Muted
            } else if vad_off || loud || old(self).hangover > 0 {
                FrameAction::Send(old(self).sequence)
            } else {
                FrameAction::Silent
            },
            r.1 == if !muted && checks_tier(*old(self)) && stats@.tier != old(self).tier {
                Some(quality::settings_for(stats@.tier, stats@.loss_percent))
            } else {
                None
            },
            r.0 == action_on(*old(self), muted, vad_off, loud),
            r.1 == adaptation(*old(self), stats@, muted),
            r.1 matches Some(s) ==> {
                &&& s.fec <==> stats@.loss_percent >= config::LOSS_THRESH_MEDIUM
                &&& s.fec ==> s.loss_hint == stats@.loss_percent
                &&& !s.fec ==> s.loss_hint == 0
            },
    {
        if muted {
            return (FrameAction::Muted, None);
        }
        let mut settings: Option<EncoderSettings> = None;
        self.frames_since_check = self.frames_since_check + 1;
        if self.frames_since_check >= config::STATS_WINDOW_PACKETS {
            self.frames_since_check = 0;
            settings = maybe_adapt_encoder(stats, &mut self.tier);
        }
        if pass_vad(vad_off, loud, &mut self.hangover) {
            (FrameAction::Send(self.sequence), settings)
        } else {
            (FrameAction::Silent, settings)
        }
    }

    /// Notes that a packet was sent.
    pub fn sent(&mut self)
        ensures
            *final(self) == (Capture {
                sequence: protocol::following(old(self).sequence),
                ..*old(self)
            }),
    {
        self.sequence = next_sequence(self.sequence);
    }
}

/// No frame of voice is sent under the number 0, which marks a hello: it is
/// not the first number, no frame changes the number, and none follows it.
pub proof fn law_voice_is_not_hello(
    c: Capture,
    stats: quality::StatsView,
    muted: bool,
    vad_off: bool,
    loud: bool,
)
    requires
        c.sequence != 0,
    ensures
        captured(c, stats, muted, vad_off, loud).sequence == c.sequence,
        protocol::following(c.sequence) != 0,
{
}

/// A pause in speech is bridged: after a loud frame, that many quiet frames
/// are still sent and no more.
pub proof fn law_hangover(c: Capture, stats: quality::StatsView, n: nat)
    requires
        c.hangover == config::VAD_HANGOVER_FRAMES,
    ensures
        quiet_frames(c, stats, n).hangover == if n <= config::VAD_HANGOVER_FRAMES {
            config::VAD_HANGOVER_FRAMES - n
        } else {
            0
        },
    decreases n,
{
    if n > 0 {
        law_hangover(c, stats, (n - 1) as nat);
    }
}

/// The capture loop after `n` quiet frames.
pub open spec fn quiet_frames(c: Capture, stats: quality::StatsView, n: nat) -> Capture
    decreases n,
{
    if n == 0 {
        c
    } else {
        captured(quiet_frames(c, stats, (n - 1) as nat), stats, false, false, false)
    }
}

/// Of a muted microphone nothing is sent; of an open one every loud frame is,
/// and without voice detection every frame, under the number that is next.
pub proof fn law_speech_is_sent(c: Capture, muted: bool, vad_off: bool, loud: bool)
    ensures
        muted ==> action_on(c, muted, vad_off, loud) == FrameAction::Muted,
        !muted && (loud || vad_off) ==> action_on(c, muted, vad_off, loud) == FrameAction::Send(
            c.sequence,
        ),
        !muted && !loud && !vad_off && c.hangover == 0 ==> action_on(c, muted, vad_off, loud)
            == FrameAction::Silent,
{
}

/// After a loud frame the next quiet ones are still sent, and those after them
/// are not, until it is loud again.
pub proof fn law_pause_is_bridged(c: Capture, stats: quality::StatsView, n: nat)
    ensures
        ({
            let after = quiet_frames(captured(c, stats, false, false, true), stats, n);
            &&& n < config::VAD_HANGOVER_FRAMES ==> action_on(after, false, false, false)
                == FrameAction::Send(c.sequence)
            &&& n >= config::VAD_HANGOVER_FRAMES ==> action_on(after, false, false, false)
                == FrameAction::Silent
        }),
{
    let l = captured(c, stats, false, false, true);
    law_hangover(l, stats, n);
    lemma_quiet_sequence(l, stats, n);
}

proof fn lemma_quiet_sequence(c: Capture, stats: quality::StatsView, n: nat)
    ensures
        quiet_frames(c, stats, n).sequence == c.sequence,
    decreases n,
{
    if n > 0 {
        lemma_quiet_sequence(c, stats, (n - 1) as nat);
    }
}

/// Muted frames change nothing, so speech goes on where it was.
pub proof fn law_muted_frames_do_not_count(
    c: Capture,
    stats: quality::StatsView,
    vad_off: bool,
    loud: bool,
)
    ensures
        captured(c, stats, true, vad_off, loud) == c,
        adaptation(c, stats, true) is None,
{
}

/// The encoder follows the measured loss at the end of every window of frames,
/// and not in between: it is given new settings exactly when the tier changed.
pub proof fn law_encoder_follows_loss(c: Capture, stats: quality::StatsView)
    requires
        c.frames_since_check < config::STATS_WINDOW_PACKETS,
        stats.tier == quality::tier_for(stats.loss_percent),
    ensures
        c.frames_since_check + 1 < config::STATS_WINDOW_PACKETS ==> {
            &&& adaptation(c, stats, false) is None
            &&& captured(c, stats, false, false, true).tier == c.tier
            &&& captured(c, stats, false, false, true).frames_since_check == c.frames_since_check
                + 1
        },
        c.frames_since_check + 1 == config::STATS_WINDOW_PACKETS ==> {
            &&& captured(c, stats, false, false, true).tier == stats.tier
            &&& captured(c, stats, false, false, true).frames_since_check == 0
            &&& adaptation(c, stats, false) is Some <==> stats.tier != c.tier
            &&& adaptation(c, stats, false) matches Some(s) ==> {
                &&& s.fec <==> stats.loss_percent >= config::LOSS_THRESH_MEDIUM
                &&& s.fec ==> s.loss_hint == stats.loss_percent
                &&& stats.loss_percent < config::LOSS_THRESH_MEDIUM ==> s.bitrate
                    == config::BITRATE_HIGH
                &&& stats.loss_percent >= config::LOSS_THRESH_MINIMUM ==> s.bitrate
                    == config::BITRATE_MINIMUM
            }
        },
{
}

/// The quiet frames before speech sets in, kept so that its onset is not
/// clipped.
pub struct PreRoll<T> {
    held: Vec<T>,
}

impl<T> View for PreRoll<T> {
    type V = Seq<T>;

    closed spec fn view(&self) -> Seq<T> {
        self.held@
    }
}

/// The last frames of a row, as many as are kept.
pub open spec fn onset<T>(quiet: Seq<T>) -> Seq<T> {
    if quiet.len() <= config::VAD_PREROLL_FRAMES {
        quiet
    } else {
        quiet.subrange(quiet.len() - config::VAD_PREROLL_FRAMES, quiet.len() as int)
    }
}

/// The frames that go out, and those that are held back, after a frame.
pub open spec fn rolled<T>(held: Seq<T>, frame: T, action: FrameAction) -> (Seq<T>, Seq<T>) {
    match action {
        FrameAction::Muted => (Seq::empty(), Seq::empty()),
        FrameAction::Silent => (Seq::empty(), onset(held.push(frame))),
        FrameAction::Send(_) => (held.push(frame), Seq::empty()),
    }
}

impl<T> PreRoll<T> {
    /// No frames yet.
    pub fn new() -> (p: Self)
        ensures
            p@ == Seq::<T>::empty(),
    {
        PreRoll { held: Vec::new() }
    }

    /// Takes a frame: the frames to send now, in the order of capture. A quiet
    /// frame is held back, and the oldest one goes where there are too many; a
    /// frame to send comes after those that were held back. Of a muted
    /// microphone nothing is kept.
    pub fn pass(&mut self, frame: T, action: FrameAction) -> (out: Vec<T>)
        ensures
            match action {
                FrameAction::Muted => out@ == Seq::<T>::empty() && final(self)@ == Seq::<T>::empty(),
                FrameAction::Silent => out@ == Seq::<T>::empty() && final(self)@ == onset(
                    old(self)@.push(frame),
                ),
                FrameAction::Send(_) => out@ == old(self)@.push(frame) && final(self)@
                    == Seq::<T>::empty(),
            },
            (out@, final(self)@) == rolled(old(self)@, frame, action),
    {
        match action {
            FrameAction::Muted => {
                self.held = Vec::new();
                Vec::new()
            },
            FrameAction::Silent => {
                self.held.push(frame);
                let ghost all = self.held@;
                let n: usize = self.held.len();
                if n > config::VAD_PREROLL_FRAMES {
                    let kept = self.held.split_off(n - config::VAD_PREROLL_FRAMES);
                    self.held = kept;
                    assert(self.held@ =~= onset(all));
                }
                Vec::new()
            },
            FrameAction::Send(_) => {
                let mut out: Vec<T> = Vec::new();
                std::mem::swap(&mut out, &mut self.held);
                out.push(frame);
                out
            },
        }
    }
}

/// The frames that are held back after a row of quiet ones.
pub open spec fn held_back<T>(quiet: Seq<T>) -> Seq<T>
    decreases quiet.len(),
{
    if quiet.len() == 0 {
        Seq::empty()
    } else {
        onset(held_back(quiet.drop_last()).push(quiet.last()))
    }
}

/// What is sent with the first loud frame are the quiet frames right before
/// it, up to the limit, in the order of capture.
pub proof fn law_onset_is_kept<T>(quiet: Seq<T>)
    ensures
        held_back(quiet) == onset(quiet),
    decreases quiet.len(),
{
    if quiet.len() > 0 {
        law_onset_is_kept(quiet.drop_last());
        assert(onset(onset(quiet.drop_last()).push(quiet.last())) =~= onset(quiet));
    } else {
        assert(held_back(quiet) =~= onset(quiet));
    }
}

/// Frames go out in the order in which they were captured, each at most once: a
/// frame to send is the last to go out, after all that were held back before
/// it, and nothing is held back then; a quiet frame is held back as the last,
/// and only older ones give way to it.
pub proof fn law_frames_keep_their_order<T>(held: Seq<T>, frame: T, action: FrameAction)
    requires
        held.len() <= config::VAD_PREROLL_FRAMES,
    ensures
        ({
            let (out, after) = rolled(held, frame, action);
            &&& after.len() <= config::VAD_PREROLL_FRAMES
            &&& action is Send ==> out.len() == held.len() + 1 && out.last() == frame
                && out.drop_last() =~= held && after.len() == 0
            &&& action is Silent ==> out.len() == 0 && after.len() > 0 && after.last() == frame
            &&& action is Silent && held.len() < config::VAD_PREROLL_FRAMES ==> after
                == held.push(frame)
            &&& action is Silent && held.len() == config::VAD_PREROLL_FRAMES ==> after
                == held.drop_first().push(frame)
            &&& action is Muted ==> out.len() == 0 && after.len() == 0
        }),
{
    let (out, after) = rolled(held, frame, action);
    if action is Silent && held.len() == config::VAD_PREROLL_FRAMES {
        assert(after =~= held.drop_first().push(frame));
    }
    if action is Send {
        assert(out.drop_last() =~= held);
    }
}

/// After a row of quiet frames the last of them are held back, as many as are
/// kept, and none of the others.
pub proof fn law_last_quiet_frames_are_held<T>(quiet: Seq<T>, i: int)
    requires
        0 <= i < held_back(quiet).len(),
    ensures
        held_back(quiet).len() == if quiet.len() < config::VAD_PREROLL_FRAMES {
            quiet.len() as int
        } else {
            config::VAD_PREROLL_FRAMES as int
        },
        held_back(quiet)[i] == quiet[quiet.len() - held_back(quiet).len() + i],
{
    law_onset_is_kept(quiet);
}

/// Whether a datagram acknowledges the hello with `token`.
pub fn is_hello_ack(data: &[u8], token: u64) -> (r: bool)
    ensures
        r == (protocol::hello_token(data@) == Some(token as nat)),
{
    match decode_udp_hello(data) {
        Some(t) => t == token,
        None => false,
    }
}

/// How the opening handshake goes on.
#[derive(Debug, Clone, Copy, PartialEq, Eq, Structural)]
pub enum HelloStep {
    /// The server acknowledged our address.
    Confirmed,
    /// The hello is sent once more.
    Again,
    /// Voice starts without an acknowledgement; hellos go on in the background.
    Unconfirmed,
}

/// How the handshake goes on after hello number `attempt`, acknowledged or not.
pub open spec fn hello_step(attempt: u32, acknowledged: bool) -> HelloStep {
    if acknowledged {
        HelloStep::Confirmed
    } else if attempt + 1 < config::UDP_HELLO_RETRIES {
        HelloStep::Again
    } else {
        HelloStep::Unconfirmed
    }
}

/// An acknowledged hello ends the handshake; without any, as many hellos are
/// sent as are allowed, and no more.
pub proof fn law_hello_is_retried(attempt: u32)
    ensures
        hello_step(attempt, true) == HelloStep::Confirmed,
        attempt + 1 < config::UDP_HELLO_RETRIES ==> hello_step(attempt, false) == HelloStep::Again,
        attempt + 1 >= config::UDP_HELLO_RETRIES ==> hello_step(attempt, false)
            == HelloStep::Unconfirmed,
{
}

/// What follows hello number `attempt`, counted from 0, and the datagram that
/// came before the time was up, if one did.
pub fn after_hello(attempt: u32, reply: Option<&[u8]>, token: u64) -> (step: HelloStep)
    ensures
        step == match reply {
            Some(data) if protocol::hello_token(data@) == Some(token as nat) => {
                HelloStep::Confirmed
            },
            _ => if attempt + 1 < config::UDP_HELLO_RETRIES {
                HelloStep::Again
            } else {
                HelloStep::Unconfirmed
            },
        },
        step == hello_step(
            attempt,
            reply matches Some(data) && protocol::hello_token(data@) == Some(token as nat),
        ),
{
    if let Some(data) = reply {
        if is_hello_ack(data, token) {
            return HelloStep::Confirmed;
        }
    }
    if attempt < config::UDP_HELLO_RETRIES - 1 {
        HelloStep::Again
    } else {
        HelloStep::Unconfirmed
    }
}

/// What a repetition of the hello in the background does when its time has
/// come: it ends once the server has answered or the call is over, else the
/// hello is sent and the next one is due after the returned delay.
pub fn rehello_step(registered: bool, stopped: bool, delay_ms: u64) -> (next: Option<u64>)
    ensures
        next == if registered || stopped {
            None::<u64>
        } else {
            Some(doubled_delay(delay_ms as int) as u64)
        },
{
    if registered || stopped {
        None
    } else {
        Some(next_rehello_delay(delay_ms))
    }
}

/// Twice a delay, but not more than the limit.
pub open spec fn doubled_delay(delay_ms: int) -> int {
    if 2 * delay_ms <= config::UDP_REHELLO_MAX_MS {
        2 * delay_ms
    } else {
        config::UDP_REHELLO_MAX_MS as int
    }
}

/// The delay after which an unacknowledged hello is repeated next.
pub fn next_rehello_delay(delay_ms: u64) -> (next: u64)
    ensures
        next == doubled_delay(delay_ms as int),
{
    let doubled: u64 = delay_ms.saturating_add(delay_ms);
    if doubled <= config::UDP_REHELLO_MAX_MS {
        doubled
    } else {
        config::UDP_REHELLO_MAX_MS
    }
}

/// The delay before the `n`-th repetition of a hello.
pub open spec fn rehello_delay(n: nat) -> int
    decreases n,
{
    if n == 0 {
        config::UDP_REHELLO_BASE_MS as int
    } else {
        doubled_delay(rehello_delay((n - 1) as nat))
    }
}

/// Hellos are repeated ever more slowly, but never more slowly than the limit.
pub proof fn law_rehello_backs_off(n: nat)
    ensures
        config::UDP_REHELLO_BASE_MS <= rehello_delay(n) <= config::UDP_REHELLO_MAX_MS,
        rehello_delay(n) <= rehello_delay(n + 1),
    decreases n,
{
    if n > 0 {
        law_rehello_backs_off((n - 1) as nat);
    }
}

/// Each wait before a repeated hello is twice the one before, up to the limit.
pub proof fn law_rehello_doubles(n: nat)
    ensures
        rehello_delay(0) == config::UDP_REHELLO_BASE_MS,
        2 * rehello_delay(n) <= config::UDP_REHELLO_MAX_MS ==> rehello_delay(n + 1) == 2
            * rehello_delay(n),
        2 * rehello_delay(n) > config::UDP_REHELLO_MAX_MS ==> rehello_delay(n + 1)
            == config::UDP_REHELLO_MAX_MS,
{
}

/// The server's UDP endpoint and the local address to bind, both in the
/// family of the address that the control connection uses.
pub fn udp_endpoints(server_ip: Ip) -> (r: (Addr, Addr))
    ensures
        addr::ip_of(r.0) == addr::canonical(server_ip),
        match r.0 {
            Addr::V4 { port, .. } => port == config::UDP_PORT && r.1 == (Addr::V4 {
                ip: 0,
                port: 0,
            }),
            Addr::V6 { port, flowinfo, scope_id, .. } => {
                &&& port == config::UDP_PORT
                &&& flowinfo == 0
                &&& scope_id == 0
                &&& r.1 == (Addr::V6 { ip: 0, port: 0, flowinfo: 0, scope_id: 0 })
            },
        },
{
    match server_ip.to_canonical() {
        Ip::V4(ip) => (
            Addr::V4 { ip, port: config::UDP_PORT },
            Addr::V4 { ip: 0, port: 0 },
        ),
        Ip::V6(ip) => (
            Addr::V6 { ip, port: config::UDP_PORT, flowinfo: 0, scope_id: 0 },
            Addr::V6 { ip: 0, port: 0, flowinfo: 0, scope_id: 0 },
        ),
    }
}

/// Traffic at the last measurement.
#[derive(Debug, Clone, Copy, PartialEq, Eq, Structural)]
pub struct TrafficSnapshot {
    /// When it was taken, in nanoseconds.
    pub instant: u64,
    pub bytes_tx: u64,
    pub bytes_rx: u64,
    /// Bytes per second sent.
    pub tx_rate: u64,
    /// Bytes per second received.
    pub rx_rate: u64,
}

/// The shortest time between two measurements.
pub const TRAFFIC_INTERVAL_NS: u64 = 200_000_000;

/// Bytes per second, rounded down.
pub open spec fn rate_of(now_bytes: u64, then_bytes: u64, elapsed_ns: int) -> int {
    let delta = if now_bytes >= then_bytes {
        now_bytes - then_bytes
    } else {
        0
    };
    let r = delta * 1_000_000_000 / elapsed_ns;
    if r <= u64::MAX {
        r
    } else {
        u64::MAX as int
    }
}

/// The measurement after a look at the counters.
pub open spec fn measured(s: TrafficSnapshot, tx: u64, rx: u64, now: u64) -> TrafficSnapshot {
    let elapsed = if now >= s.instant {
        now - s.instant
    } else {
        0
    };
    if elapsed >= TRAFFIC_INTERVAL_NS {
        TrafficSnapshot {
            instant: now,
            bytes_tx: tx,
            bytes_rx: rx,
            tx_rate: rate_of(tx, s.bytes_tx, elapsed) as u64,
            rx_rate: rate_of(rx, s.bytes_rx, elapsed) as u64,
        }
    } else {
        s
    }
}

/// The shown rates are the bytes since the last measurement, per second, and
/// stay until enough time has passed for a new one.
pub proof fn law_rates_are_measured(s: TrafficSnapshot, tx: u64, rx: u64, now: u64)
    requires
        s.instant <= now,
        s.bytes_tx <= tx < 0x1_0000_0000,
        s.bytes_rx <= rx < 0x1_0000_0000,
    ensures
        ({
            let m = measured(s, tx, rx, now);
            let t = now - s.instant;
            &&& t < TRAFFIC_INTERVAL_NS ==> m == s
            &&& t >= TRAFFIC_INTERVAL_NS ==> {
                &&& m.tx_rate * t <= (tx - s.bytes_tx) * 1_000_000_000 < (m.tx_rate + 1) * t
                &&& m.rx_rate * t <= (rx - s.bytes_rx) * 1_000_000_000 < (m.rx_rate + 1) * t
                &&& m.instant == now
                &&& m.bytes_tx == tx
                &&& m.bytes_rx == rx
            }
        }),
{
    let t = now - s.instant;
    if t >= TRAFFIC_INTERVAL_NS {
        lemma_rate(tx, s.bytes_tx, t);
        lemma_rate(rx, s.bytes_rx, t);
    }
}

proof fn lemma_rate(now_bytes: u64, then_bytes: u64, t: int)
    requires
        then_bytes <= now_bytes < 0x1_0000_0000,
        200_000_000 <= t <= u64::MAX,
    ensures
        ({
            let r = rate_of(now_bytes, then_bytes, t);
            let d = (now_bytes - then_bytes) * 1_000_000_000;
            &&& 0 <= r <= u64::MAX
            &&& r * t <= d < (r + 1) * t
        }),
{
    let d = (now_bytes - then_bytes) * 1_000_000_000;
    let q = d / t;
    assert(0 <= q <= d && q * t <= d < (q + 1) * t) by (nonlinear_arith)
        requires
            q == d / t,
            d >= 0,
            t > 0,
    ;
}

/// Bytes per second.
fn rate(now_bytes: u64, then_bytes: u64, elapsed_ns: u64) -> (r: u64)
    requires
        elapsed_ns > 0,
    ensures
        r == rate_of(now_bytes, then_bytes, elapsed_ns as int),
{
    let delta: u64 = now_bytes.saturating_sub(then_bytes);
    let r: u128 = delta as u128 * 1_000_000_000 / elapsed_ns as u128;
    if r <= u64::MAX as u128 {
        r as u64
    } else {
        u64::MAX
    }
}

impl TrafficSnapshot {
    /// Bytes per second sent and received, and all bytes so far. The rates
    /// are measured anew when enough time has passed.
    pub fn traffic_info(&mut self, bytes_tx: u64, bytes_rx: u64, now: u64) -> (r: (u64, u64, u64))
        requires
            bytes_tx + bytes_rx <= u64::MAX,
        ensures
            *final(self) == measured(*old(self), bytes_tx, bytes_rx, now),
            r == (final(self).tx_rate, final(self).rx_rate, (bytes_tx + bytes_rx) as u64),
    {
        let elapsed: u64 = now.saturating_sub(self.instant);
        if elapsed >= TRAFFIC_INTERVAL_NS {
            self.tx_rate = rate(bytes_tx, self.bytes_tx, elapsed);
            self.rx_rate = rate(bytes_rx, self.bytes_rx, elapsed);
            self.bytes_tx = bytes_tx;
            self.bytes_rx = bytes_rx;
            self.instant = now;
        }
        (self.tx_rate, self.rx_rate, bytes_tx + bytes_rx)
    }
}

} // verus!
