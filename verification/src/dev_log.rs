//! Log lines for developers, shown to the user at a bounded rate.

use vstd::prelude::*;

use crate::text;
use crate::text::{decimal_string, join3, join4, owned, starts_with};

verus! {

/// The length of a window, in milliseconds.
pub const THROTTLE_WINDOW_MS: u64 = 1_000;

/// How many lines are shown in a window.
pub const MAX_EVENTS_PER_WINDOW: u32 = 25;

/// A log line, as it is shown.
#[derive(Debug)]
pub struct DevLogPayload {
    pub level: String,
    pub target: String,
    pub message: String,
    pub ts_ms: u64,
}

/// How grave a log line is.
#[derive(Debug, Clone, Copy, PartialEq, Eq, Structural)]
pub enum LogLevel {
    Error,
    Warn,
    Info,
    Debug,
    Trace,
}

/// Counts the lines of a window.
pub struct Throttle {
    /// When the window began, in milliseconds.
    pub window_start: u64,
    /// How many lines were shown in it.
    pub sent: u32,
    /// How many were not.
    pub dropped: u64,
}

/// What a [`Throttle`] says.
#[verifier::ext_equal]
pub struct ThrottleView {
    pub window_start: u64,
    pub sent: u32,
    pub dropped: u64,
}

impl View for Throttle {
    type V = ThrottleView;

    open spec fn view(&self) -> ThrottleView {
        ThrottleView { window_start: self.window_start, sent: self.sent, dropped: self.dropped }
    }
}

impl ThrottleView {
    /// No more lines than allowed were shown in the window.
    pub open spec fn wf(self) -> bool {
        self.sent <= MAX_EVENTS_PER_WINDOW
    }

    /// Whether the window is over.
    pub open spec fn over(self, now: u64) -> bool {
        now - self.window_start >= THROTTLE_WINDOW_MS
    }

    /// A line came up: the window after it and, if the line is shown, how many
    /// were dropped in the window before.
    pub open spec fn offered(self, now: u64) -> (ThrottleView, Option<u64>) {
        if self.over(now) {
            (ThrottleView { window_start: now, sent: 1, dropped: 0 }, Some(self.dropped))
        } else if self.sent >= MAX_EVENTS_PER_WINDOW {
            (
                ThrottleView {
                    dropped: if self.dropped < u64::MAX {
                        (self.dropped + 1) as u64
                    } else {
                        u64::MAX
                    },
                    ..self
                },
                None,
            )
        } else {
            (ThrottleView { sent: (self.sent + 1) as u32, ..self }, Some(0))
        }
    }
}

/// A window that begins at `now`.
pub open spec fn fresh_window(now: u64) -> ThrottleView {
    ThrottleView { window_start: now, sent: 0, dropped: 0 }
}

impl Throttle {
    /// A new window.
    pub fn new(now: u64) -> (t: Self)
        ensures
            t@ == fresh_window(now),
            t@.wf(),
    {
        Throttle { window_start: now, sent: 0, dropped: 0 }
    }

    /// Asks whether a line is shown. If so, the answer is how many were
    /// dropped in the window before.
    pub fn throttle_admit(&mut self, now: u64) -> (r: Option<u64>)
        requires
            old(self)@.wf(),
        ensures
            final(self)@.wf(),
            (final(self)@, r) == old(self)@.offered(now),
    {
        if now >= self.window_start && now - self.window_start >= THROTTLE_WINDOW_MS {
            let dropped: u64 = self.dropped;
            self.window_start = now;
            self.sent = 1;
            self.dropped = 0;
            return Some(dropped);
        }
        if self.sent >= MAX_EVENTS_PER_WINDOW {
            self.dropped = self.dropped.saturating_add(1);
            return None;
        }
        self.sent = self.sent + 1;
        Some(0)
    }
}

/// The window after lines at the given times.
pub open spec fn after(t: ThrottleView, times: Seq<u64>) -> ThrottleView
    decreases times.len(),
{
    if times.len() == 0 {
        t
    } else {
        after(t, times.drop_last()).offered(times.last()).0
    }
}

/// How many of the lines at the given times are shown.
pub open spec fn shown(t: ThrottleView, times: Seq<u64>) -> nat
    decreases times.len(),
{
    if times.len() == 0 {
        0
    } else {
        let before = after(t, times.drop_last());
        shown(t, times.drop_last()) + if before.offered(times.last()).1 is Some {
            1nat
        } else {
            0
        }
    }
}

/// Within a window exactly the first lines are shown, as many as are allowed,
/// however many come up.
pub proof fn law_first_lines_are_shown(start: u64, times: Seq<u64>, i: int)
    requires
        forall|j: int|
            0 <= j < times.len() ==> start <= #[trigger] times[j] < start + THROTTLE_WINDOW_MS,
        0 <= i < times.len(),
    ensures
        after(fresh_window(start), times.take(i)).offered(times[i]).1 is Some <==> i
            < MAX_EVENTS_PER_WINDOW,
        shown(fresh_window(start), times) == if times.len() < MAX_EVENTS_PER_WINDOW {
            times.len()
        } else {
            MAX_EVENTS_PER_WINDOW as nat
        },
{
    let part = times.take(i);
    assert forall|j: int| 0 <= j < part.len() implies start <= #[trigger] part[j] < start
        + THROTTLE_WINDOW_MS by {
        assert(part[j] == times[j]);
    }
    lemma_shown(start, part);
    lemma_shown(start, times);
}

proof fn lemma_shown(start: u64, times: Seq<u64>)
    requires
        forall|i: int|
            0 <= i < times.len() ==> start <= #[trigger] times[i] < start + THROTTLE_WINDOW_MS,
    ensures
        after(fresh_window(start), times).window_start == start,
        after(fresh_window(start), times).sent == shown(fresh_window(start), times),
        shown(fresh_window(start), times) == if times.len() < MAX_EVENTS_PER_WINDOW {
            times.len()
        } else {
            MAX_EVENTS_PER_WINDOW as nat
        },
    decreases times.len(),
{
    if times.len() > 0 {
        let rest = times.drop_last();
        assert forall|i: int| 0 <= i < rest.len() implies start <= #[trigger] rest[i] < start
            + THROTTLE_WINDOW_MS by {
            assert(rest[i] == times[i]);
        }
        lemma_shown(start, rest);
        assert(times[times.len() - 1] == times.last());
    }
}

/// The developers' log: whether it is shown, and how much of it. The first
/// window begins with the first line that could be shown.
pub struct DevLogLayer {
    enabled: bool,
    throttle: Option<Throttle>,
}

/// Whether a line can be shown, as far as the rate allows: only those of this
/// program, without traces.
pub open spec fn is_ours(level: LogLevel, target: Seq<char>) -> bool {
    level != LogLevel::Trace && text::has_prefix(target, "tc"@)
}

impl DevLogLayer {
    /// Whether the log is shown.
    pub closed spec fn enabled(&self) -> bool {
        self.enabled
    }

    /// The window, once a line could be shown.
    pub closed spec fn window(&self) -> Option<ThrottleView> {
        match self.throttle {
            Some(t) => Some(t@),
            None => None,
        }
    }

    #[verifier::type_invariant]
    spec fn inv(self) -> bool {
        self.throttle matches Some(t) ==> t@.wf()
    }

    /// The log is not shown.
    pub fn new() -> (d: Self)
        ensures
            !d.enabled(),
            d.window() is None,
    {
        DevLogLayer { enabled: false, throttle: None }
    }

    /// Shows the log, or not.
    pub fn set_enabled(&mut self, on: bool) -> (r: bool)
        ensures
            r == on,
            final(self).enabled() == on,
            final(self).window() == old(self).window(),
    {
        proof {
            use_type_invariant(&*self);
        }
        self.enabled = on;
        on
    }

    /// Asks whether a line is shown, at a bounded rate. If so, the answer is
    /// how many were dropped in the window before.
    pub fn on_event(&mut self, level: LogLevel, target: &str, now: u64) -> (r: Option<u64>)
        ensures
            final(self).enabled() == old(self).enabled(),
            if old(self).enabled() && is_ours(level, target@) {
                let window = match old(self).window() {
                    Some(w) => w,
                    None => fresh_window(now),
                };
                (final(self).window(), r) == (Some(window.offered(now).0), window.offered(now).1)
            } else {
                final(self).window() == old(self).window() && r is None
            },
    {
        proof {
            use_type_invariant(&*self);
        }
        if !self.enabled || level == LogLevel::Trace || !starts_with(target, "tc") {
            return None;
        }
        let mut t = match &self.throttle {
            Some(t) => Throttle {
                window_start: t.window_start,
                sent: t.sent,
                dropped: t.dropped,
            },
            None => Throttle::new(now),
        };
        let r = t.throttle_admit(now);
        self.throttle = Some(t);
        r
    }
}

/// What is said of dropped lines.
pub fn dropped_notice(dropped: u64, now: u64) -> (p: DevLogPayload)
    ensures
        p.level@ == "WARN"@,
        p.target@ == "dev_log"@,
        p.message@ == "…"@ + text::decimal(dropped as nat) + " dev log lines dropped (rate limit)"@,
        p.ts_ms == now,
{
    let digits = decimal_string(dropped);
    DevLogPayload {
        level: owned("WARN"),
        target: owned("dev_log"),
        message: join3("…", digits.as_str(), " dev log lines dropped (rate limit)"),
        ts_ms: now,
    }
}

/// The text of a log line after one more of its fields: the message comes
/// first, other fields follow with their names.
pub open spec fn with_field(msg: Seq<char>, name: Seq<char>, value: Seq<char>) -> Seq<char> {
    if name != "message"@ {
        msg + " "@ + name + "="@ + value
    } else if msg.len() > 0 {
        value + " "@ + msg
    } else {
        value
    }
}

/// Adds a field to the text of a log line.
pub fn record_field(msg: &str, name: &str, value: &str) -> (r: String)
    ensures
        r@ == with_field(msg@, name@, value@),
{
    if !text::str_eq(name, "message") {
        let mut r = join4(msg, " ", name, "=");
        r.append(value);
        r
    } else if !msg.is_empty() {
        join3(value, " ", msg)
    } else {
        owned(value)
    }
}

/// The lines of a window that are not shown are counted, and the first line of
/// a later window tells how many there were.
pub proof fn law_dropped_lines_are_reported(start: u64, times: Seq<u64>, next: u64)
    requires
        forall|j: int|
            0 <= j < times.len() ==> start <= #[trigger] times[j] < start + THROTTLE_WINDOW_MS,
        times.len() <= u64::MAX,
        next >= start + THROTTLE_WINDOW_MS,
    ensures
        after(fresh_window(start), times).offered(next).1 == Some(
            (times.len() - shown(fresh_window(start), times)) as u64,
        ),
{
    lemma_shown(start, times);
    lemma_dropped(start, times);
}

proof fn lemma_dropped(start: u64, times: Seq<u64>)
    requires
        forall|j: int|
            0 <= j < times.len() ==> start <= #[trigger] times[j] < start + THROTTLE_WINDOW_MS,
        times.len() <= u64::MAX,
    ensures
        after(fresh_window(start), times).dropped == times.len() - shown(
            fresh_window(start),
            times,
        ),
    decreases times.len(),
{
    if times.len() > 0 {
        let rest = times.drop_last();
        assert forall|i: int| 0 <= i < rest.len() implies start <= #[trigger] rest[i] < start
            + THROTTLE_WINDOW_MS by {
            assert(rest[i] == times[i]);
        }
        lemma_shown(start, rest);
        lemma_dropped(start, rest);
        assert(times[times.len() - 1] == times.last());
    }
}

/// Lines of other programs and traces are not shown, and all others can be.
pub proof fn law_own_lines_can_be_shown(level: LogLevel, rest: Seq<char>)
    ensures
        level != LogLevel::Trace ==> is_ours(level, "tc"@ + rest),
        !is_ours(LogLevel::Trace, rest),
        rest.len() > 0 && rest[0] != 't' ==> !is_ours(level, rest),
{
    reveal_strlit("tc");
    assert(("tc"@ + rest).subrange(0, 2) =~= "tc"@);
    if text::has_prefix(rest, "tc"@) {
        assert(rest.subrange(0, 2)[0] == rest[0]);
    }
}

} // verus!
