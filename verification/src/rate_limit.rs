//! Token buckets, per connection and per source address.
//!
//! Rates are in thousandths of a token per second, bursts in thousandths of a
//! token, and times in nanoseconds of a monotonic clock. A bucket counts in
//! units of 10^-12 tokens, so that refilling loses nothing.

use vstd::prelude::*;

use crate::addr::Ip;
use crate::table;
use crate::table::{Key, Table};

verus! {

/// One token, in the unit that buckets count in.
pub const ONE_TOKEN: u128 = 1_000_000_000_000;

/// A thousandth of a token, in the unit that buckets count in.
pub const MILLI_TOKEN: u128 = 1_000_000_000;

/// A token bucket.
#[derive(Debug, Clone, Copy, PartialEq, Eq, Structural)]
pub struct RateLimiter {
    tokens: u128,
    max_tokens: u128,
    refill_rate: u64,
    last_refill: u64,
}

/// What a bucket holds.
#[verifier::ext_equal]
pub struct BucketView {
    /// Tokens left, in units of 10^-12.
    pub tokens: int,
    /// Most tokens, in the same unit.
    pub max_tokens: int,
    /// Thousandths of a token per second.
    pub refill_rate: int,
    /// When the tokens were last counted.
    pub last_refill: u64,
}

impl View for RateLimiter {
    type V = BucketView;

    closed spec fn view(&self) -> BucketView {
        BucketView {
            tokens: self.tokens as int,
            max_tokens: self.max_tokens as int,
            refill_rate: self.refill_rate as int,
            last_refill: self.last_refill,
        }
    }
}

/// A full bucket.
pub open spec fn full_bucket(rate: u64, burst: u64, now: u64) -> BucketView {
    BucketView {
        tokens: burst * 1_000_000_000,
        max_tokens: burst * 1_000_000_000,
        refill_rate: rate as int,
        last_refill: now,
    }
}

/// The time since the last refill.
pub open spec fn since(now: u64, last: u64) -> int {
    if now >= last {
        now - last
    } else {
        0
    }
}

/// The tokens of a bucket at a later time.
pub open spec fn refilled_tokens(b: BucketView, now: u64) -> int {
    let t = b.tokens + since(now, b.last_refill) * b.refill_rate;
    if t <= b.max_tokens {
        t
    } else {
        b.max_tokens
    }
}

/// Whether a request at `now` finds a whole token.
pub open spec fn admits(b: BucketView, now: u64) -> bool {
    refilled_tokens(b, now) >= 1_000_000_000_000
}

/// The bucket after a request at `now`.
pub open spec fn after_request(b: BucketView, now: u64) -> BucketView {
    BucketView {
        tokens: if admits(b, now) {
            refilled_tokens(b, now) - 1_000_000_000_000
        } else {
            refilled_tokens(b, now)
        },
        last_refill: now,
        ..b
    }
}

impl RateLimiter {
    /// A bucket never holds more than its burst.
    #[verifier::type_invariant]
    spec fn inv(self) -> bool {
        self.tokens <= self.max_tokens && self.max_tokens <= u64::MAX * MILLI_TOKEN
    }

    /// A full bucket.
    pub fn new(rate_per_sec: u64, burst: u64, now: u64) -> (l: Self)
        ensures
            l@ == full_bucket(rate_per_sec, burst, now),
    {
        let max: u128 = burst as u128 * MILLI_TOKEN;
        RateLimiter { tokens: max, max_tokens: max, refill_rate: rate_per_sec, last_refill: now }
    }

    /// Adds the tokens that came in since the last refill.
    fn refill(&mut self, now: u64)
        ensures
            final(self)@ == (BucketView {
                tokens: refilled_tokens(old(self)@, now),
                last_refill: now,
                ..old(self)@
            }),
    {
        let elapsed: u64 = now.saturating_sub(self.last_refill);
        proof {
            use_type_invariant(&*self);
            let e = elapsed as int;
            let r = self.refill_rate as int;
            assert(0 <= e * r <= 0xffff_ffff_ffff_ffff * 0xffff_ffff_ffff_ffff) by (nonlinear_arith)
                requires
                    0 <= e <= 0xffff_ffff_ffff_ffff,
                    0 <= r <= 0xffff_ffff_ffff_ffff,
            ;
        }
        let gained: u128 = elapsed as u128 * self.refill_rate as u128;
        let missing: u128 = self.max_tokens - self.tokens;
        if gained >= missing {
            self.tokens = self.max_tokens;
        } else {
            self.tokens = self.tokens + gained;
        }
        self.last_refill = now;
    }

    /// Takes a token, if there is a whole one; tells whether there was.
    pub fn check(&mut self, now: u64) -> (allowed: bool)
        ensures
            allowed == admits(old(self)@, now),
            final(self)@ == after_request(old(self)@, now),
    {
        self.refill(now);
        proof {
            use_type_invariant(&*self);
        }
        if self.tokens >= ONE_TOKEN {
            self.tokens = self.tokens - ONE_TOKEN;
            true
        } else {
            false
        }
    }
}

/// A bucket never holds more than its burst, whatever the time between
/// requests.
pub proof fn law_bucket_capped(b: BucketView, now: u64)
    requires
        b.tokens <= b.max_tokens,
    ensures
        refilled_tokens(b, now) <= b.max_tokens,
        after_request(b, now).tokens <= after_request(b, now).max_tokens,
{
}

/// The bucket after `n` requests at the same moment.
pub open spec fn after_requests(b: BucketView, now: u64, n: nat) -> BucketView
    decreases n,
{
    if n == 0 {
        b
    } else {
        after_request(after_requests(b, now, (n - 1) as nat), now)
    }
}

/// Of requests at one moment, a full bucket admits exactly as many as its
/// burst holds whole tokens.
pub proof fn law_burst_is_the_limit(rate: u64, burst: u64, now: u64, n: nat)
    ensures
        admits(after_requests(full_bucket(rate, burst, now), now, n), now) <==> (n + 1) * 1000
            <= burst,
{
    lemma_burst(rate, burst, now, n);
}

proof fn lemma_burst(rate: u64, burst: u64, now: u64, n: nat)
    ensures
        ({
            let b = after_requests(full_bucket(rate, burst, now), now, n);
            &&& b.max_tokens == burst * 1_000_000_000
            &&& b.last_refill == now
            &&& b.tokens == if n * 1000 <= burst {
                burst * 1_000_000_000 - n * 1_000_000_000_000
            } else {
                (burst % 1000) * 1_000_000_000
            }
            &&& refilled_tokens(b, now) == b.tokens
        }),
    decreases n,
{
    if n > 0 {
        lemma_burst(rate, burst, now, (n - 1) as nat);
        let p = after_requests(full_bucket(rate, burst, now), now, (n - 1) as nat);
        assert(since(now, p.last_refill) == 0);
        assert(0 * p.refill_rate == 0) by (nonlinear_arith);
        let b = after_requests(full_bucket(rate, burst, now), now, n);
        assert(0 * b.refill_rate == 0) by (nonlinear_arith);
        if n * 1000 <= burst {
        } else if (n - 1) * 1000 <= burst {
            assert(burst % 1000 == burst - (n - 1) * 1000) by {
                assert(0 <= burst - (n - 1) * 1000 < 1000);
            }
        }
    } else {
        let b = full_bucket(rate, burst, now);
        assert(0 * b.refill_rate == 0) by (nonlinear_arith);
    }
}

/// What is kept for one source address: its bucket, its open connections, and
/// when it was last heard of.
struct IpEntry {
    limiter: RateLimiter,
    refcount: u32,
    last_active: u64,
}

/// What an entry of the per-address limiter holds.
#[verifier::ext_equal]
pub struct IpEntryView {
    pub bucket: BucketView,
    pub refcount: u32,
    pub last_active: u64,
}

impl View for IpEntry {
    type V = IpEntryView;

    closed spec fn view(&self) -> IpEntryView {
        IpEntryView {
            bucket: self.limiter@,
            refcount: self.refcount,
            last_active: self.last_active,
        }
    }
}

/// Buckets by source address. They keep a client from multiplying its budget
/// by opening many connections.
pub struct IpRateLimiter {
    rate_per_sec: u64,
    burst: u64,
    map: Table<Ip, IpEntry>,
}

/// What a per-address limiter holds.
#[verifier::ext_equal]
pub struct IpLimiterView {
    pub rate_per_sec: u64,
    pub burst: u64,
    pub entries: Map<Ip, IpEntryView>,
}

impl View for IpRateLimiter {
    type V = IpLimiterView;

    closed spec fn view(&self) -> IpLimiterView {
        IpLimiterView {
            rate_per_sec: self.rate_per_sec,
            burst: self.burst,
            entries: self.map@,
        }
    }
}

/// The number above `n`, as far as the type goes.
pub open spec fn one_more(n: u32) -> u32 {
    if n < u32::MAX {
        (n + 1) as u32
    } else {
        u32::MAX
    }
}

/// The number below `n`, as far as the type goes.
pub open spec fn one_less(n: u32) -> u32 {
    if n > 0 {
        (n - 1) as u32
    } else {
        0
    }
}

/// A connection from `ip` was opened.
pub open spec fn tracked_ip(l: IpLimiterView, ip: Ip, now: u64) -> IpLimiterView {
    let e = if l.entries.dom().contains(ip) {
        l.entries[ip]
    } else {
        IpEntryView {
            bucket: full_bucket(l.rate_per_sec, l.burst, now),
            refcount: 0,
            last_active: now,
        }
    };
    IpLimiterView {
        entries: l.entries.insert(
            ip,
            IpEntryView { refcount: one_more(e.refcount), last_active: now, ..e },
        ),
        ..l
    }
}

/// A connection from `ip` was closed. The bucket stays for a while.
pub open spec fn untracked_ip(l: IpLimiterView, ip: Ip, now: u64) -> IpLimiterView {
    if l.entries.dom().contains(ip) {
        let e = l.entries[ip];
        IpLimiterView {
            entries: l.entries.insert(
                ip,
                IpEntryView { refcount: one_less(e.refcount), last_active: now, ..e },
            ),
            ..l
        }
    } else {
        l
    }
}

/// Whether a request from `ip` is let through; unknown addresses are.
pub open spec fn ip_admits(l: IpLimiterView, ip: Ip, now: u64) -> bool {
    l.entries.dom().contains(ip) ==> admits(l.entries[ip].bucket, now)
}

/// The limiter after a request from `ip`.
pub open spec fn ip_after_request(l: IpLimiterView, ip: Ip, now: u64) -> IpLimiterView {
    if l.entries.dom().contains(ip) {
        let e = l.entries[ip];
        IpLimiterView {
            entries: l.entries.insert(
                ip,
                IpEntryView { bucket: after_request(e.bucket, now), last_active: now, ..e },
            ),
            ..l
        }
    } else {
        l
    }
}

/// Whether an entry outlives a sweep: it has connections, or was heard of
/// less than `ttl` ago.
pub open spec fn outlives(e: IpEntryView, ttl: u64, now: u64) -> bool {
    e.refcount > 0 || since(now, e.last_active) < ttl
}

/// The limiter after a sweep.
pub open spec fn swept(l: IpLimiterView, ttl: u64, now: u64) -> IpLimiterView {
    IpLimiterView {
        entries: table::kept(l.entries, |ip: Ip, e: IpEntryView| outlives(e, ttl, now)),
        ..l
    }
}

impl IpRateLimiter {
    /// A limiter without entries.
    pub fn new(rate_per_sec: u64, burst: u64) -> (l: Self)
        ensures
            l@ == (IpLimiterView { rate_per_sec, burst, entries: Map::empty() }),
    {
        IpRateLimiter { rate_per_sec, burst, map: Table::new() }
    }

    /// Notes a new connection from `ip`. The first one gets a full bucket.
    pub fn track(&mut self, ip: Ip, now: u64)
        ensures
            final(self)@ == tracked_ip(old(self)@, ip, now),
    {
        let mut e: IpEntry = match self.map.remove(&ip) {
            Some(e) => e,
            None => IpEntry {
                limiter: RateLimiter::new(self.rate_per_sec, self.burst, now),
                refcount: 0,
                last_active: now,
            },
        };
        e.refcount = e.refcount.saturating_add(1);
        e.last_active = now;
        self.map.insert(ip, e);
        assert(self@ =~= tracked_ip(old(self)@, ip, now));
    }

    /// Notes that a connection from `ip` is gone.
    pub fn untrack(&mut self, ip: Ip, now: u64)
        ensures
            final(self)@ == untracked_ip(old(self)@, ip, now),
    {
        if let Some(mut e) = self.map.remove(&ip) {
            e.refcount = e.refcount.saturating_sub(1);
            e.last_active = now;
            self.map.insert(ip, e);
        }
        assert(self@ =~= untracked_ip(old(self)@, ip, now));
    }

    /// Whether a request from `ip` is allowed.
    pub fn check(&mut self, ip: Ip, now: u64) -> (allowed: bool)
        ensures
            allowed == ip_admits(old(self)@, ip, now),
            final(self)@ == ip_after_request(old(self)@, ip, now),
    {
        let mut allowed = true;
        if let Some(mut e) = self.map.remove(&ip) {
            e.last_active = now;
            allowed = e.limiter.check(now);
            self.map.insert(ip, e);
        }
        assert(self@ =~= ip_after_request(old(self)@, ip, now));
        allowed
    }

    /// Drops entries without connections that were idle for `ttl`. Returns
    /// how many were dropped.
    pub fn sweep_idle(&mut self, ttl: u64, now: u64) -> (n: usize)
        ensures
            final(self)@ == swept(old(self)@, ttl, now),
            n == old(self)@.entries.dom().len() - final(self)@.entries.dom().len(),
    {
        let before: usize = self.map.len();
        let keep = |ip: &Ip, e: &IpEntry| -> (r: bool)
            ensures
                r == outlives(e@, ttl, now),
            { e.refcount > 0 || now.saturating_sub(e.last_active) < ttl };
        self.map.retain(keep, Ghost(|ip: Ip, e: IpEntryView| outlives(e, ttl, now)));
        let after: usize = self.map.len();
        proof {
            vstd::set_lib::lemma_len_subset(
                self@.entries.dom(),
                old(self)@.entries.dom(),
            );
        }
        before - after
    }

    /// The number of known addresses.
    pub fn len(&self) -> (n: usize)
        ensures
            n == self@.entries.dom().len(),
    {
        self.map.len()
    }
}

/// A sweep keeps the budget of every address that has a connection.
pub proof fn law_sweep_keeps_connected(l: IpLimiterView, ip: Ip, ttl: u64, now: u64)
    requires
        l.entries.dom().contains(ip),
        l.entries[ip].refcount > 0,
    ensures
        swept(l, ttl, now).entries.dom().contains(ip),
        swept(l, ttl, now).entries[ip] == l.entries[ip],
{
}

/// Reconnecting does not refill the bucket of an address.
pub proof fn law_reconnect_keeps_budget(l: IpLimiterView, ip: Ip, closed: u64, opened: u64)
    requires
        l.entries.dom().contains(ip),
    ensures
        tracked_ip(untracked_ip(l, ip, closed), ip, opened).entries[ip].bucket
            == l.entries[ip].bucket,
{
}

/// A bucket that was left alone long enough lets a request through, if it is
/// large enough for one at all.
pub proof fn law_waiting_helps(b: BucketView, now: u64)
    requires
        0 <= b.tokens <= b.max_tokens,
        b.last_refill <= now,
        b.max_tokens >= 1_000_000_000_000,
        (now - b.last_refill) * b.refill_rate >= 1_000_000_000_000,
    ensures
        admits(b, now),
{
}

/// A request that is let through takes one token, one that is refused takes
/// none; either way the bucket has first gained what its rate gives for the
/// time that has passed, and no more than it holds.
pub proof fn law_requests_are_paid(b: BucketView, now: u64)
    requires
        0 <= b.tokens <= b.max_tokens,
        b.last_refill <= now,
        b.refill_rate >= 0,
    ensures
        ({
            let gained = (now - b.last_refill) * b.refill_rate;
            let a = after_request(b, now);
            let paid = if admits(b, now) {
                1_000_000_000_000int
            } else {
                0
            };
            &&& b.tokens + gained <= b.max_tokens ==> a.tokens + paid == b.tokens + gained
            &&& b.tokens + gained > b.max_tokens ==> a.tokens + paid == b.max_tokens
            &&& admits(b, now) <==> a.tokens + paid >= 1_000_000_000_000
            &&& a.tokens >= 0
            &&& a.max_tokens == b.max_tokens
            &&& a.refill_rate == b.refill_rate
            &&& a.last_refill == now
        }),
{
    let e = now - b.last_refill;
    let r = b.refill_rate;
    assert(e * r >= 0) by (nonlinear_arith)
        requires
            e >= 0,
            r >= 0,
    ;
}

/// The bucket after requests at the given times.
pub open spec fn after_times(b: BucketView, times: Seq<u64>) -> BucketView
    decreases times.len(),
{
    if times.len() == 0 {
        b
    } else {
        after_request(after_times(b, times.drop_last()), times.last())
    }
}

/// How many of the requests at the given times are let through.
pub open spec fn admitted_count(b: BucketView, times: Seq<u64>) -> nat
    decreases times.len(),
{
    if times.len() == 0 {
        0
    } else {
        admitted_count(b, times.drop_last()) + if admits(
            after_times(b, times.drop_last()),
            times.last(),
        ) {
            1nat
        } else {
            0
        }
    }
}

/// Over any time, no more requests are let through than the bucket held at
/// first and its rate gave since.
pub proof fn law_rate_is_the_limit(b: BucketView, times: Seq<u64>)
    requires
        0 <= b.tokens <= b.max_tokens,
        b.refill_rate >= 0,
        forall|i: int| 0 <= i < times.len() ==> b.last_refill <= #[trigger] times[i],
        forall|i: int, j: int|
            0 <= i <= j < times.len() ==> #[trigger] times[i] <= #[trigger] times[j],
    ensures
        ({
            let end = if times.len() == 0 {
                b.last_refill
            } else {
                times.last()
            };
            let a = after_times(b, times);
            &&& 0 <= a.tokens <= a.max_tokens
            &&& a.max_tokens == b.max_tokens
            &&& a.refill_rate == b.refill_rate
            &&& a.last_refill == end
            &&& admitted_count(b, times) * 1_000_000_000_000 + a.tokens <= b.tokens + (end
                - b.last_refill) * b.refill_rate
        }),
    decreases times.len(),
{
    if times.len() > 0 {
        let rest = times.drop_last();
        assert forall|i: int| 0 <= i < rest.len() implies b.last_refill <= #[trigger] rest[i] by {
            assert(rest[i] == times[i]);
        }
        assert forall|i: int, j: int| 0 <= i <= j < rest.len() implies #[trigger] rest[i]
            <= #[trigger] rest[j] by {
            assert(rest[i] == times[i] && rest[j] == times[j]);
        }
        law_rate_is_the_limit(b, rest);
        let p = after_times(b, rest);
        let end = times.last();
        assert(times[times.len() - 1] == end);
        if rest.len() > 0 {
            assert(rest.last() == times[times.len() - 2]);
            assert(times[times.len() - 2] <= times[times.len() - 1]);
        }
        law_requests_are_paid(p, end);
        let r = b.refill_rate;
        let x = p.last_refill - b.last_refill;
        let y = end - p.last_refill;
        assert((x + y) * r == x * r + y * r) by (nonlinear_arith);
    } else {
        assert(0 * b.refill_rate == 0) by (nonlinear_arith);
    }
}

/// What one source address asks for does not touch the budget of another.
pub proof fn law_addresses_are_apart(l: IpLimiterView, ip: Ip, other: Ip, now: u64, then_: u64)
    requires
        ip != other,
    ensures
        ip_admits(ip_after_request(l, ip, now), other, then_) == ip_admits(l, other, then_),
        ip_admits(tracked_ip(l, ip, now), other, then_) == ip_admits(l, other, then_),
        ip_admits(untracked_ip(l, ip, now), other, then_) == ip_admits(l, other, then_),
{
}

/// The connections of an address share one budget, which starts full.
pub proof fn law_connections_share_a_budget(l: IpLimiterView, ip: Ip, now: u64)
    ensures
        tracked_ip(l, ip, now).entries.dom().contains(ip),
        !l.entries.dom().contains(ip) ==> tracked_ip(l, ip, now).entries[ip].bucket
            == full_bucket(l.rate_per_sec, l.burst, now) && tracked_ip(l, ip, now).entries[
            ip
        ].refcount == 1,
        l.entries.dom().contains(ip) ==> tracked_ip(l, ip, now).entries[ip].bucket
            == l.entries[ip].bucket,
        tracked_ip(l, ip, now).entries.dom().contains(ip) && l.entries.dom().contains(ip)
            && l.entries[ip].refcount < u32::MAX ==> tracked_ip(l, ip, now).entries[ip].refcount
            == l.entries[ip].refcount + 1,
        l.entries.dom().contains(ip) && l.entries[ip].refcount > 0 ==> untracked_ip(
            l,
            ip,
            now,
        ).entries[ip].refcount == l.entries[ip].refcount - 1,
        l.entries.dom().contains(ip) ==> ip_after_request(l, ip, now).entries[ip].bucket
            == after_request(l.entries[ip].bucket, now),
        l.entries.dom().contains(ip) ==> (ip_admits(l, ip, now) <==> admits(
            l.entries[ip].bucket,
            now,
        )),
        !l.entries.dom().contains(ip) && l.burst >= 1000 ==> ip_admits(
            tracked_ip(l, ip, now),
            ip,
            now,
        ),
{
}

/// The budget of an address without connections is forgotten after its time,
/// and not before.
pub proof fn law_idle_budgets_go(l: IpLimiterView, ip: Ip, ttl: u64, now: u64)
    requires
        l.entries.dom().contains(ip),
        l.entries[ip].refcount == 0,
        l.entries[ip].last_active <= now,
    ensures
        swept(l, ttl, now).entries.dom().contains(ip) <==> now - l.entries[ip].last_active < ttl,
{
}

} // verus!
