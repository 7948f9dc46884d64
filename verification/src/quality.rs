//! Adaptive voice quality: tiers of encoder settings, chosen by packet loss.

use vstd::prelude::*;

use crate::config;

verus! {

/// A set of encoder settings.
#[derive(Debug, Clone, Copy, PartialEq, Eq, Structural)]
pub enum QualityTier {
    High,
    Medium,
    Low,
    Minimum,
}

/// How far a tier is from the best one.
pub open spec fn rank(t: QualityTier) -> u8 {
    match t {
        QualityTier::High => 0,
        QualityTier::Medium => 1,
        QualityTier::Low => 2,
        QualityTier::Minimum => 3,
    }
}

/// The tier for a loss in percent.
pub open spec fn tier_for(loss: u8) -> QualityTier {
    if loss >= config::LOSS_THRESH_MINIMUM {
        QualityTier::Minimum
    } else if loss >= config::LOSS_THRESH_LOW {
        QualityTier::Low
    } else if loss >= config::LOSS_THRESH_MEDIUM {
        QualityTier::Medium
    } else {
        QualityTier::High
    }
}

/// The name of a tier.
pub open spec fn tier_name(t: QualityTier) -> Seq<char> {
    match t {
        QualityTier::High => "high"@,
        QualityTier::Medium => "medium"@,
        QualityTier::Low => "low"@,
        QualityTier::Minimum => "minimum"@,
    }
}

impl QualityTier {
    /// The name for display.
    pub fn as_str(self) -> (s: &'static str)
        ensures
            s@ == tier_name(self),
    {
        match self {
            QualityTier::High => "high",
            QualityTier::Medium => "medium",
            QualityTier::Low => "low",
            QualityTier::Minimum => "minimum",
        }
    }

    /// The tier as a number.
    pub fn to_u8(self) -> (n: u8)
        ensures
            n == rank(self),
    {
        match self {
            QualityTier::High => 0,
            QualityTier::Medium => 1,
            QualityTier::Low => 2,
            QualityTier::Minimum => 3,
        }
    }

    /// The tier of a number; an unknown number is the high tier.
    pub fn from_u8(v: u8) -> (t: Self)
        ensures
            v <= 3 ==> rank(t) == v,
            v > 3 ==> t == QualityTier::High,
    {
        match v {
            1 => QualityTier::Medium,
            2 => QualityTier::Low,
            3 => QualityTier::Minimum,
            _ => QualityTier::High,
        }
    }

    /// The tier for a loss in percent.
    pub fn from_loss(loss_percent: u8) -> (t: Self)
        ensures
            t == tier_for(loss_percent),
    {
        if loss_percent >= config::LOSS_THRESH_MINIMUM {
            QualityTier::Minimum
        } else if loss_percent >= config::LOSS_THRESH_LOW {
            QualityTier::Low
        } else if loss_percent >= config::LOSS_THRESH_MEDIUM {
            QualityTier::Medium
        } else {
            QualityTier::High
        }
    }

    /// The bitrate, in bits per second.
    pub fn bitrate(self) -> (b: i32)
        ensures
            b == tier_bitrate(self),
    {
        match self {
            QualityTier::High => config::BITRATE_HIGH,
            QualityTier::Medium => config::BITRATE_MEDIUM,
            QualityTier::Low => config::BITRATE_LOW,
            QualityTier::Minimum => config::BITRATE_MINIMUM,
        }
    }

    /// The encoder complexity.
    pub fn complexity(self) -> (c: u8)
        ensures
            c == tier_complexity(self),
    {
        match self {
            QualityTier::High => config::COMPLEXITY_HIGH,
            QualityTier::Medium => config::COMPLEXITY_MEDIUM,
            QualityTier::Low => config::COMPLEXITY_LOW,
            QualityTier::Minimum => config::COMPLEXITY_MINIMUM,
        }
    }

    /// Whether the encoder adds error correction.
    pub fn fec(self) -> (on: bool)
        ensures
            on == (self != QualityTier::High),
    {
        self != QualityTier::High
    }
}

/// The bitrate of a tier.
pub open spec fn tier_bitrate(t: QualityTier) -> i32 {
    match t {
        QualityTier::High => config::BITRATE_HIGH,
        QualityTier::Medium => config::BITRATE_MEDIUM,
        QualityTier::Low => config::BITRATE_LOW,
        QualityTier::Minimum => config::BITRATE_MINIMUM,
    }
}

/// The encoder complexity of a tier.
pub open spec fn tier_complexity(t: QualityTier) -> u8 {
    match t {
        QualityTier::High => config::COMPLEXITY_HIGH,
        QualityTier::Medium => config::COMPLEXITY_MEDIUM,
        QualityTier::Low => config::COMPLEXITY_LOW,
        QualityTier::Minimum => config::COMPLEXITY_MINIMUM,
    }
}

/// More loss never gives a better tier.
pub proof fn law_tier_monotone(a: u8, b: u8)
    requires
        a <= b,
    ensures
        rank(tier_for(a)) <= rank(tier_for(b)),
{
}

/// A worse tier always costs less: its bitrate and complexity are lower.
pub proof fn law_worse_is_cheaper(a: QualityTier, b: QualityTier)
    requires
        rank(a) < rank(b),
    ensures
        tier_bitrate(a) > tier_bitrate(b),
        tier_complexity(a) > tier_complexity(b),
{
}

/// Different tiers have different numbers, so a tier survives the way through
/// its number.
pub proof fn law_rank_injective(a: QualityTier, b: QualityTier)
    requires
        rank(a) == rank(b),
    ensures
        a == b,
{
}

/// Loss measured over windows of packets. The counts wrap around.
pub struct NetworkStats {
    received: u32,
    lost: u32,
    loss_percent: u8,
    current_tier: u8,
}

/// What the statistics hold.
#[verifier::ext_equal]
pub struct StatsView {
    /// Packets received in this window.
    pub received: u32,
    /// Packets lost in this window.
    pub lost: u32,
    /// The loss of the last full window, in percent.
    pub loss_percent: u8,
    /// The tier for that loss.
    pub tier: QualityTier,
}

/// The tier of a number.
pub open spec fn tier_of_rank(n: u8) -> QualityTier {
    if n == 1 {
        QualityTier::Medium
    } else if n == 2 {
        QualityTier::Low
    } else if n == 3 {
        QualityTier::Minimum
    } else {
        QualityTier::High
    }
}

impl NetworkStats {
    /// The tier is the one for the measured loss.
    #[verifier::type_invariant]
    spec fn inv(self) -> bool {
        self.current_tier == rank(tier_for(self.loss_percent))
    }
}

impl View for NetworkStats {
    type V = StatsView;

    closed spec fn view(&self) -> StatsView {
        StatsView {
            received: self.received,
            lost: self.lost,
            loss_percent: self.loss_percent,
            tier: tier_of_rank(self.current_tier),
        }
    }
}

/// The loss of a window, in percent, rounded down.
pub open spec fn window_loss(received: int, lost: int) -> int {
    lost * 100 / (received + lost)
}

/// The statistics after a check for a full window.
pub open spec fn finalized(s: StatsView) -> StatsView {
    if s.received + s.lost >= config::STATS_WINDOW_PACKETS {
        let loss = window_loss(s.received as int, s.lost as int) as u8;
        StatsView { received: 0, lost: 0, loss_percent: loss, tier: tier_for(loss) }
    } else {
        s
    }
}

impl NetworkStats {
    /// Nothing measured yet.
    pub fn new() -> (s: Self)
        ensures
            s@ == (StatsView {
                received: 0,
                lost: 0,
                loss_percent: 0,
                tier: QualityTier::High,
            }),
    {
        NetworkStats { received: 0, lost: 0, loss_percent: 0, current_tier: 0 }
    }

    /// Counts a received packet.
    pub fn record_received(&mut self)
        ensures
            final(self)@ == (StatsView {
                received: old(self)@.received.wrapping_add(1),
                ..old(self)@
            }),
    {
        proof {
            use_type_invariant(&*self);
        }
        self.received = self.received.wrapping_add(1);
    }

    /// Counts a lost packet.
    pub fn record_lost(&mut self)
        ensures
            final(self)@ == (StatsView { lost: old(self)@.lost.wrapping_add(1), ..old(self)@ }),
    {
        proof {
            use_type_invariant(&*self);
        }
        self.lost = self.lost.wrapping_add(1);
    }

    /// The loss of the last full window, in percent.
    pub fn loss_percent(&self) -> (p: u8)
        ensures
            p == self@.loss_percent,
    {
        self.loss_percent
    }

    /// The tier for the loss of the last full window.
    pub fn current_tier(&self) -> (t: QualityTier)
        ensures
            t == self@.tier,
            t == tier_for(self@.loss_percent),
    {
        proof {
            use_type_invariant(self);
        }
        QualityTier::from_u8(self.current_tier)
    }

    /// Packets received and lost in this window.
    pub fn window(&self) -> (w: (u32, u32))
        ensures
            w == (self@.received, self@.lost),
    {
        (self.received, self.lost)
    }

    /// When the window is full, computes its loss and starts a new one.
    pub fn maybe_finalize_window(&mut self)
        ensures
            final(self)@ == finalized(old(self)@),
    {
        let total: u64 = self.received as u64 + self.lost as u64;
        if total >= config::STATS_WINDOW_PACKETS as u64 {
            let scaled: u64 = self.lost as u64 * 100;
            proof {
                assert(scaled / total <= 100) by (nonlinear_arith)
                    requires
                        scaled <= 100 * total,
                        total > 0,
                ;
            }
            let loss: u8 = (scaled / total) as u8;
            *self = NetworkStats {
                received: 0,
                lost: 0,
                loss_percent: loss,
                current_tier: QualityTier::from_loss(loss).to_u8(),
            };
        }
    }
}

/// The tier always is the one for the measured loss: it is so at first, and
/// neither counting packets nor starting a new window changes that.
pub proof fn law_tier_matches_loss(s: StatsView)
    requires
        s.tier == tier_for(s.loss_percent),
    ensures
        tier_for(0) == QualityTier::High,
        ({
            let r = StatsView { received: s.received.wrapping_add(1), ..s };
            r.tier == tier_for(r.loss_percent)
        }),
        ({
            let l = StatsView { lost: s.lost.wrapping_add(1), ..s };
            l.tier == tier_for(l.loss_percent)
        }),
        finalized(s).tier == tier_for(finalized(s).loss_percent),
{
}

/// The loss of a window is a percentage.
pub proof fn law_loss_is_a_percentage(received: int, lost: int)
    requires
        received >= 0,
        lost >= 0,
        received + lost > 0,
    ensures
        0 <= window_loss(received, lost) <= 100,
{
    let total = received + lost;
    assert(0 <= (lost * 100) / total <= 100) by (nonlinear_arith)
        requires
            0 <= lost <= total,
            total > 0,
    ;
}

/// What the encoder is to be set to.
#[derive(Debug, Clone, Copy, PartialEq, Eq, Structural)]
pub struct EncoderSettings {
    pub bitrate: i32,
    pub complexity: u8,
    pub fec: bool,
    pub loss_hint: u8,
}

/// The settings of a tier at a loss. The loss is only hinted at where error
/// correction is on.
pub open spec fn settings_for(t: QualityTier, loss: u8) -> EncoderSettings {
    EncoderSettings {
        bitrate: tier_bitrate(t),
        complexity: tier_complexity(t),
        fec: t != QualityTier::High,
        loss_hint: if t != QualityTier::High {
            loss
        } else {
            0
        },
    }
}

/// The tiers part the losses at the thresholds.
pub proof fn law_tier_thresholds(loss: u8)
    ensures
        tier_for(loss) == QualityTier::High <==> loss < config::LOSS_THRESH_MEDIUM,
        tier_for(loss) == QualityTier::Medium <==> config::LOSS_THRESH_MEDIUM <= loss
            < config::LOSS_THRESH_LOW,
        tier_for(loss) == QualityTier::Low <==> config::LOSS_THRESH_LOW <= loss
            < config::LOSS_THRESH_MINIMUM,
        tier_for(loss) == QualityTier::Minimum <==> config::LOSS_THRESH_MINIMUM <= loss,
{
}

/// On a lossy network, and only there, the encoder corrects errors, and it is
/// told of the loss that it has to make up for.
pub proof fn law_loss_is_corrected(loss: u8)
    ensures
        ({
            let s = settings_for(tier_for(loss), loss);
            &&& s.fec <==> loss >= config::LOSS_THRESH_MEDIUM
            &&& s.fec ==> s.loss_hint == loss
            &&& !s.fec ==> s.loss_hint == 0
        }),
{
}

/// More loss never costs more: neither bitrate nor complexity rise with it, and
/// without loss both are the best there are.
pub proof fn law_settings_follow_loss(a: u8, b: u8)
    requires
        a <= b,
    ensures
        ({
            let x = settings_for(tier_for(a), a);
            let y = settings_for(tier_for(b), b);
            &&& x.bitrate >= y.bitrate
            &&& x.complexity >= y.complexity
            &&& x.fec ==> y.fec
            &&& a < config::LOSS_THRESH_MEDIUM ==> x.bitrate == config::BITRATE_HIGH
                && x.complexity == config::COMPLEXITY_HIGH
            &&& tier_for(a) != tier_for(b) ==> x.bitrate > y.bitrate && x.complexity
                > y.complexity
        }),
{
}

/// The settings to apply when the measured tier differs from the current one,
/// which then becomes the measured one.
pub fn maybe_adapt_encoder(stats: &NetworkStats, current_tier: &mut QualityTier) -> (r: Option<
    EncoderSettings,
>)
    ensures
        *final(current_tier) == stats@.tier,
        r == if stats@.tier == *old(current_tier) {
            None
        } else {
            Some(settings_for(stats@.tier, stats@.loss_percent))
        },
        r matches Some(s) ==> {
            &&& s.fec <==> stats@.loss_percent >= config::LOSS_THRESH_MEDIUM
            &&& s.loss_hint == if stats@.loss_percent >= config::LOSS_THRESH_MEDIUM {
                stats@.loss_percent
            } else {
                0
            }
        },
{
    let new_tier = stats.current_tier();
    if new_tier == *current_tier {
        return None;
    }
    let loss: u8 = stats.loss_percent();
    *current_tier = new_tier;
    let loss_hint: u8 = if new_tier.fec() {
        loss
    } else {
        0
    };
    Some(
        EncoderSettings {
            bitrate: new_tier.bitrate(),
            complexity: new_tier.complexity(),
            fec: new_tier.fec(),
            loss_hint,
        },
    )
}

/// Whether a frame is sent, and for how many quiet ones that goes on.
pub open spec fn vad_step(disabled: bool, loud: bool, left: u32) -> (bool, u32) {
    if disabled {
        (true, left)
    } else if loud {
        (true, config::VAD_HANGOVER_FRAMES)
    } else if left > 0 {
        (true, (left - 1) as u32)
    } else {
        (false, 0)
    }
}

/// How many quiet frames are still sent after `n` of them.
pub open spec fn quiet_left(left: u32, n: nat) -> u32
    decreases n,
{
    if n == 0 {
        left
    } else {
        vad_step(false, false, quiet_left(left, (n - 1) as nat)).1
    }
}

/// Loud frames are sent, and after a loud one so are the quiet ones of a short
/// pause; longer silence is not. Without voice detection all frames are sent.
pub proof fn law_silence_is_held_back(left: u32, n: nat)
    ensures
        vad_step(false, true, left).0,
        vad_step(true, false, left).0,
        vad_step(
            false,
            false,
            quiet_left(vad_step(false, true, left).1, n),
        ).0 <==> n < config::VAD_HANGOVER_FRAMES,
{
    lemma_quiet_left(config::VAD_HANGOVER_FRAMES, n);
}

proof fn lemma_quiet_left(left: u32, n: nat)
    ensures
        quiet_left(left, n) == if n < left {
            left - n
        } else {
            0
        },
    decreases n,
{
    if n > 0 {
        lemma_quiet_left(left, (n - 1) as nat);
    }
}

/// Whether a frame is sent: it is loud, or voice detection is off, or a loud
/// frame was not long ago. `hangover_remaining` counts the frames that are
/// still sent.
pub fn pass_vad(disabled: bool, loud: bool, hangover_remaining: &mut u32) -> (send: bool)
    ensures
        send == (disabled || loud || *old(hangover_remaining) > 0),
        *final(hangover_remaining) == if disabled {
            *old(hangover_remaining)
        } else if loud {
            config::VAD_HANGOVER_FRAMES
        } else if *old(hangover_remaining) > 0 {
            (*old(hangover_remaining) - 1) as u32
        } else {
            0
        },
        (send, *final(hangover_remaining)) == vad_step(disabled, loud, *old(hangover_remaining)),
{
    if disabled {
        return true;
    }
    if loud {
        *hangover_remaining = config::VAD_HANGOVER_FRAMES;
        true
    } else if *hangover_remaining > 0 {
        *hangover_remaining = *hangover_remaining - 1;
        true
    } else {
        false
    }
}

} // verus!
