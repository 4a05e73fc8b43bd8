use vstd::prelude::*;
use crate::metadata::models::RateLimit;

verus! {

/// Upper bound on a configurable rate-limit window, in seconds (one year).
/// It keeps every computed wait, in milliseconds, far inside `u64`.
pub const MAX_PER_SECONDS: u64 = 31_536_000;

/// A product of nonnegative factors grows with its factors.
proof fn lemma_mul_le(a: int, b: int, a2: int, b2: int) by (nonlinear_arith)
    requires
        0 <= a <= a2,
        0 <= b <= b2,
    ensures
        a * b <= a2 * b2,
{
}

/// Ceiling division `(n + d - 1) / d` covers `n` and is minimal.
proof fn lemma_ceil_div(n: int, d: int) by (nonlinear_arith)
    requires
        1 <= n,
        1 <= d,
    ensures
        ((n + d - 1) / d) * d >= n,
        ((n + d - 1) / d) >= 1,
        (((n + d - 1) / d) - 1) * d < n,
{
}

/// `n` at most `d` times `k` means the ceiling of `n / d` is at most `k`.
proof fn lemma_ceil_div_bound(n: int, d: int, k: int) by (nonlinear_arith)
    requires
        1 <= n,
        1 <= d,
        0 <= k,
        n <= d * k,
    ensures
        (n + d - 1) / d <= k,
{
}

/// The price of `cost` tokens in refill units, computed without overflow.
fn price_units(cost: u32, per_seconds: u64) -> (r: u128)
    ensures
        r == cost * (per_seconds * 1000),
{
    let a: u128 = cost as u128;
    let b: u128 = per_seconds as u128 * 1000;
    proof {
        lemma_mul_le(a as int, b as int, 0xffff_ffff, 0xffff_ffff_ffff_ffff as int * 1000);
    }
    a * b
}

/// A token bucket, the admission policy in front of one external service.
///
/// The budget is `calls` tokens per `per_seconds` seconds.  To stay exact
/// without fractions, the bucket counts in *units*: one token is
/// `per_seconds * 1000` units, so the bucket gains exactly `calls` units
/// per elapsed millisecond and caps at `calls * per_seconds * 1000` units.
///
/// The bucket never reads a clock itself: every operation takes the
/// current time in milliseconds (from any monotonic origin) as an
/// argument, so its whole behaviour is a function of its arguments.
pub struct TokenBucket {
    pub units: u128,
    pub calls: u32,
    pub per_seconds: u64,
    pub last_refill_ms: u64,
}

impl TokenBucket {
    /// Units per token.
    pub open spec fn unit_scale(&self) -> int {
        self.per_seconds * 1000
    }

    /// The budget ceiling, in units.
    pub open spec fn capacity_units(&self) -> int {
        self.calls * self.unit_scale()
    }

    /// The price of `cost` tokens, in units.
    pub open spec fn cost_units(&self, cost: u32) -> int {
        cost * self.unit_scale()
    }

    /// Well-formedness: a positive budget over a bounded window, with the
    /// current balance never above the ceiling.
    pub open spec fn wf(&self) -> bool {
        &&& 1 <= self.calls
        &&& 1 <= self.per_seconds <= MAX_PER_SECONDS
        &&& self.units <= self.capacity_units()
    }

    /// The balance after refilling at time `now`: grow by `calls` units
    /// per elapsed millisecond, capped at the ceiling.
    pub open spec fn refilled_units(&self, now_ms: int) -> int {
        let grown = self.units + (now_ms - self.last_refill_ms) * self.calls;
        if grown > self.capacity_units() {
            self.capacity_units()
        } else {
            grown
        }
    }

    /// A bucket that starts full at time `now_ms`.
    pub fn new(limit: RateLimit, now_ms: u64) -> (r: TokenBucket)
        requires
            1 <= limit.calls,
            1 <= limit.per_seconds <= MAX_PER_SECONDS,
        ensures
            r.wf(),
            r.calls == limit.calls,
            r.per_seconds == limit.per_seconds,
            r.last_refill_ms == now_ms,
            r.units == r.capacity_units(),
    {
        let units: u128 = price_units(limit.calls, limit.per_seconds);
        TokenBucket {
            units,
            calls: limit.calls,
            per_seconds: limit.per_seconds,
            last_refill_ms: now_ms,
        }
    }

    /// The budget ceiling, in units.
    pub fn capacity(&self) -> (r: u128)
        ensures
            r == self.capacity_units(),
    {
        price_units(self.calls, self.per_seconds)
    }

    /// Credit the budget for the time elapsed since the last refill.
    pub fn refill(&mut self, now_ms: u64)
        requires
            old(self).wf(),
            old(self).last_refill_ms <= now_ms,
        ensures
            final(self).wf(),
            final(self).calls == old(self).calls,
            final(self).per_seconds == old(self).per_seconds,
            final(self).last_refill_ms == now_ms,
            final(self).units == old(self).refilled_units(now_ms as int),
    {
        let elapsed: u64 = now_ms - self.last_refill_ms;
        let e: u128 = elapsed as u128;
        let cl: u128 = self.calls as u128;
        proof {
            lemma_mul_le(e as int, cl as int, 0xffff_ffff_ffff_ffff, 0xffff_ffff);
        }
        let gained: u128 = e * cl;
        let cap: u128 = self.capacity();
        proof {
            lemma_mul_le(
                self.calls as int,
                self.unit_scale(),
                0xffff_ffff,
                0xffff_ffff_ffff_ffff as int * 1000,
            );
        }
        let grown: u128 = self.units + gained;
        self.units = if grown > cap {
            cap
        } else {
            grown
        };
        self.last_refill_ms = now_ms;
    }

    /// Refill for the elapsed time, then take `cost` tokens if the
    /// balance suffices.  Returns whether the tokens were taken; on
    /// refusal only the refill is kept, as the caller must wait and ask
    /// again.
    pub fn consume(&mut self, cost: u32, now_ms: u64) -> (granted: bool)
        requires
            old(self).wf(),
            old(self).last_refill_ms <= now_ms,
            1 <= cost <= old(self).calls,
        ensures
            final(self).wf(),
            final(self).calls == old(self).calls,
            final(self).per_seconds == old(self).per_seconds,
            final(self).last_refill_ms == now_ms,
            granted == (old(self).refilled_units(now_ms as int) >= old(self).cost_units(cost)),
            granted ==> final(self).units == old(self).refilled_units(now_ms as int) - old(
                self,
            ).cost_units(cost),
            !granted ==> final(self).units == old(self).refilled_units(now_ms as int),
    {
        self.refill(now_ms);
        let price: u128 = price_units(cost, self.per_seconds);
        if self.units >= price {
            self.units = self.units - price;
            true
        } else {
            false
        }
    }

    /// How long, in milliseconds, until a balance of `cost` tokens could
    /// be available, assuming no refill happens in between.  Zero when the
    /// balance already suffices; otherwise the least number of
    /// milliseconds whose refill covers the shortfall.
    pub fn wait_time_ms(&self, cost: u32) -> (w: u64)
        requires
            self.wf(),
            1 <= cost <= self.calls,
        ensures
            self.units >= self.cost_units(cost) ==> w == 0,
            self.units < self.cost_units(cost) ==> {
                &&& self.units + w * self.calls >= self.cost_units(cost)
                &&& w >= 1
                &&& self.units + (w - 1) * self.calls < self.cost_units(cost)
            },
    {
        let price: u128 = price_units(cost, self.per_seconds);
        if self.units >= price {
            0
        } else {
            let needed: u128 = price - self.units;
            let c: u128 = self.calls as u128;
            proof {
                lemma_mul_le(cost as int, self.unit_scale(), 0xffff_ffff, 31_536_000_000);
                lemma_mul_le(cost as int, self.unit_scale(), self.calls as int, self.unit_scale());
            }
            let w128: u128 = (needed + c - 1) / c;
            proof {
                lemma_ceil_div(needed as int, c as int);
                lemma_ceil_div_bound(needed as int, c as int, self.per_seconds * 1000);
            }
            w128 as u64
        }
    }

    /// The check-and-take step a rate-limited provider performs before
    /// each outgoing call: refill, then either take one token and
    /// proceed, or report how long to wait before asking again.
    pub fn acquire_or_wait(&mut self, now_ms: u64) -> (a: Admission)
        requires
            old(self).wf(),
            old(self).last_refill_ms <= now_ms,
        ensures
            final(self).wf(),
            final(self).calls == old(self).calls,
            final(self).per_seconds == old(self).per_seconds,
            final(self).last_refill_ms == now_ms,
            old(self).refilled_units(now_ms as int) >= old(self).cost_units(1) ==> {
                &&& a == Admission::Proceed
                &&& final(self).units == old(self).refilled_units(now_ms as int) - old(
                    self,
                ).cost_units(1)
            },
            old(self).refilled_units(now_ms as int) < old(self).cost_units(1) ==> {
                &&& final(self).units == old(self).refilled_units(now_ms as int)
                &&& (a matches Admission::Wait { millis } && millis >= 1 && final(self).units
                    + millis * final(self).calls >= final(self).cost_units(1) && final(self).units
                    + (millis - 1) * final(self).calls < final(self).cost_units(1))
            },
    {
        if self.consume(1, now_ms) {
            Admission::Proceed
        } else {
            let millis = self.wait_time_ms(1);
            Admission::Wait { millis }
        }
    }
}

/// What a rate-limited caller should do next.
pub enum Admission {
    /// A token was taken; the call may go out now.
    Proceed,
    /// No token yet; wait this many milliseconds, then ask again.
    Wait { millis: u64 },
}

/// The authentication steps of one provider fetch, for services that hold
/// a lazily obtained session token.  An unauthorized response triggers
/// exactly one re-authentication: the first `on_unauthorized` answers
/// "retry", a second one answers "give up".
pub struct AuthFlow {
    pub have_token: bool,
    pub reauths: u8,
}

/// What the fetch should do next: obtain a token, or send the request.
#[derive(Clone, Copy, Debug, PartialEq, Eq, Structural)]
pub enum AuthAction {
    Authenticate,
    Send,
}

impl AuthFlow {
    /// Start a fetch; `have_token` says whether a session token is
    /// already held.
    pub fn begin(have_token: bool) -> (f: AuthFlow)
        ensures
            f.have_token == have_token,
            f.reauths == 0,
    {
        AuthFlow { have_token, reauths: 0 }
    }

    /// Authenticate first when no token is held, otherwise send.
    pub fn next_action(&self) -> (a: AuthAction)
        ensures
            a == (if self.have_token {
                AuthAction::Send
            } else {
                AuthAction::Authenticate
            }),
    {
        if self.have_token {
            AuthAction::Send
        } else {
            AuthAction::Authenticate
        }
    }

    /// A token was obtained.
    pub fn token_acquired(&mut self)
        ensures
            final(self).have_token,
            final(self).reauths == old(self).reauths,
    {
        self.have_token = true;
    }

    /// The service answered "unauthorized".  Returns whether to
    /// re-authenticate and retry: true the first time, false ever after,
    /// so a fetch re-authenticates at most once.
    pub fn on_unauthorized(&mut self) -> (retry: bool)
        ensures
            retry == (old(self).reauths == 0),
            retry ==> !final(self).have_token && final(self).reauths == 1,
            !retry ==> *final(self) == *old(self),
    {
        if self.reauths == 0 {
            self.reauths = 1;
            self.have_token = false;
            true
        } else {
            false
        }
    }
}

} // verus!
