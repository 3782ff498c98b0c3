//! Token bucket that bounds how many messages go out per window of time.

use crate::clock::{elapsed_since, max_span_nanos, nanos, now, span_nanos, NANOS_PER_SEC};
use std::time::{Duration, Instant};
use vstd::arithmetic::div_mod::{lemma_div_is_ordered, lemma_fundamental_div_mod};
use vstd::arithmetic::mul::lemma_mul_is_commutative;
use vstd::prelude::*;

verus! {

/// A bucket as mathematics. Times are nanoseconds since the bucket was made.
pub struct BucketView {
    pub capacity: nat,
    pub available: nat,
    pub last_refill: nat,
    pub window: nat,
    pub refill_amount: nat,
}

impl BucketView {
    /// A full bucket of `burst` tokens that regains `burst` per window.
    pub open spec fn full(burst: nat, window: nat) -> BucketView {
        BucketView {
            capacity: burst,
            available: burst,
            last_refill: 0,
            window,
            refill_amount: burst,
        }
    }

    /// No more tokens than the capacity, and a window that a span can hold.
    pub open spec fn well_formed(self) -> bool {
        &&& self.available <= self.capacity
        &&& self.window <= max_span_nanos()
    }

    /// Time gone by at `now` since the last refill; none if `now` lies before it.
    pub open spec fn elapsed(self, now: nat) -> nat {
        if now >= self.last_refill {
            (now - self.last_refill) as nat
        } else {
            0
        }
    }

    /// The bucket after the refill that is due at `now`: every whole window
    /// gone by credits `refill_amount`, never beyond `capacity`, and moves
    /// `last_refill` on by one window. A window of no length is over as soon
    /// as any time has gone by, and over without end.
    pub open spec fn refilled(self, now: nat) -> BucketView {
        if self.window == 0 {
            if self.elapsed(now) > 0 && self.refill_amount > 0 {
                BucketView { available: self.capacity, ..self }
            } else {
                self
            }
        } else {
            let n = self.elapsed(now) / self.window;
            let credited = self.available + n * self.refill_amount;
            BucketView {
                available: if credited < self.capacity {
                    credited
                } else {
                    self.capacity
                },
                last_refill: self.last_refill + n * self.window,
                ..self
            }
        }
    }

    /// The bucket after an attempt at `now` to take a token, and whether it
    /// got one: the refill comes first, then one token leaves if any is there.
    pub open spec fn taken(self, now: nat) -> (BucketView, bool) {
        let r = self.refilled(now);
        if r.available > 0 {
            (BucketView { available: (r.available - 1) as nat, ..r }, true)
        } else {
            (r, false)
        }
    }

    /// The bucket after one attempt at each of `times`, in their order.
    pub open spec fn after(self, times: Seq<nat>) -> BucketView
        decreases times.len(),
    {
        if times.len() == 0 {
            self
        } else {
            self.after(times.drop_last()).taken(times.last()).0
        }
    }

    /// Whole seconds at `now` until the window is over: none while a token is
    /// there or once the window has gone by.
    pub open spec fn wait_secs(self, now: nat) -> nat {
        if self.available > 0 || self.elapsed(now) >= self.window {
            0
        } else {
            ((self.window - self.elapsed(now)) / NANOS_PER_SEC as int) as nat
        }
    }
}

/// Bounds a stream of actions to `capacity` per window. It starts full; time
/// is read from the monotonic clock and counted from the bucket's making.
pub struct TokenBucket {
    capacity: u32,
    available: u32,
    last_refill: u128,
    origin: Instant,
    refill_every: u128,
    refill_amount: u32,
}

impl View for TokenBucket {
    type V = BucketView;

    closed spec fn view(&self) -> BucketView {
        BucketView {
            capacity: self.capacity as nat,
            available: self.available as nat,
            last_refill: self.last_refill as nat,
            window: self.refill_every as nat,
            refill_amount: self.refill_amount as nat,
        }
    }
}

impl TokenBucket {
    #[verifier::type_invariant]
    spec fn inv(self) -> bool {
        &&& self.available <= self.capacity
        &&& self.refill_every <= max_span_nanos()
    }

    /// A full bucket of `burst` tokens that regains `burst` for every `window`
    /// gone by.
    pub fn new(burst: u32, window: Duration) -> (bucket: TokenBucket)
        ensures
            bucket@ == BucketView::full(burst as nat, span_nanos(window)),
            bucket@.well_formed(),
    {
        TokenBucket::with_window(burst, nanos(&window))
    }

    /// A full bucket whose window is given in nanoseconds.
    pub(crate) fn with_window(burst: u32, window: u128) -> (bucket: TokenBucket)
        requires
            window <= max_span_nanos(),
        ensures
            bucket@ == BucketView::full(burst as nat, window as nat),
            bucket@.well_formed(),
    {
        TokenBucket {
            capacity: burst,
            available: burst,
            last_refill: 0,
            origin: now(),
            refill_every: window,
            refill_amount: burst,
        }
    }

    /// The count and the start of the window that the refill due at `now`
    /// leaves, worked out without touching the bucket.
    fn due(&self, now: u128) -> (r: (u32, u128))
        ensures
            r.0 == self@.refilled(now as nat).available,
            r.1 == self@.refilled(now as nat).last_refill,
            r.0 <= self@.capacity,
    {
        proof {
            use_type_invariant(self);
        }
        let elapsed: u128 = if now >= self.last_refill {
            now - self.last_refill
        } else {
            0
        };
        if self.refill_every == 0 {
            if elapsed > 0 && self.refill_amount > 0 {
                (self.capacity, self.last_refill)
            } else {
                (self.available, self.last_refill)
            }
        } else {
            let n: u128 = elapsed / self.refill_every;
            let room: u32 = self.capacity - self.available;
            proof {
                lemma_fundamental_div_mod(elapsed as int, self.refill_every as int);
                lemma_mul_is_commutative(n as int, self.refill_every as int);
            }
            let count: u32 = if self.refill_amount > 0 {
                if n >= room as u128 {
                    assert(n * self.refill_amount >= room) by (nonlinear_arith)
                        requires
                            n >= room,
                            self.refill_amount > 0,
                    ;
                    self.capacity
                } else {
                    assert(n * self.refill_amount <= 0xffff_ffff * 0xffff_ffff) by (nonlinear_arith)
                        requires
                            n <= 0xffff_ffff,
                            self.refill_amount <= 0xffff_ffff,
                    ;
                    let credit: u64 = (n as u64) * (self.refill_amount as u64);
                    if credit >= room as u64 {
                        self.capacity
                    } else {
                        self.available + credit as u32
                    }
                }
            } else {
                assert(n * self.refill_amount == 0) by (nonlinear_arith)
                    requires
                        self.refill_amount == 0,
                ;
                self.available
            };
            (count, self.last_refill + n * self.refill_every)
        }
    }

    /// The refill that is due `now` nanoseconds after the bucket was made.
    pub fn refill_at(&mut self, now: u128)
        ensures
            final(self)@ == old(self)@.refilled(now as nat),
            final(self)@.well_formed(),
    {
        proof {
            use_type_invariant(&*self);
        }
        let (count, start) = self.due(now);
        self.available = count;
        self.last_refill = start;
    }

    /// Takes a token `now` nanoseconds after the bucket was made, if the
    /// refill due by then leaves one.
    pub fn take_at(&mut self, now: u128) -> (taken: bool)
        ensures
            (final(self)@, taken) == old(self)@.taken(now as nat),
            final(self)@.well_formed(),
    {
        self.refill_at(now);
        if self.available > 0 {
            self.available = self.available - 1;
            true
        } else {
            false
        }
    }

    /// Whole seconds until the window is over, `now` nanoseconds after the
    /// bucket was made.
    pub fn wait_at(&self, now: u128) -> (secs: u64)
        ensures
            secs == self@.wait_secs(now as nat),
    {
        proof {
            use_type_invariant(self);
        }
        if self.available > 0 {
            0
        } else {
            let elapsed: u128 = if now >= self.last_refill {
                now - self.last_refill
            } else {
                0
            };
            if elapsed >= self.refill_every {
                0
            } else {
                let left: u128 = self.refill_every - elapsed;
                proof {
                    lemma_div_is_ordered(
                        left as int,
                        max_span_nanos() as int,
                        NANOS_PER_SEC as int,
                    );
                }
                (left / (NANOS_PER_SEC as u128)) as u64
            }
        }
    }

    /// Nanoseconds on the clock since the bucket was made. Which span the
    /// clock gives is not known; the result is that span in nanoseconds, and
    /// so no more than the longest span holds.
    pub(crate) fn age(&self) -> (ns: u128)
        ensures
            exists|gone: Duration| ns == #[trigger] span_nanos(gone),
            ns <= max_span_nanos(),
    {
        let gone = elapsed_since(&self.origin);
        nanos(&gone)
    }

    /// Takes a token if the refill due by now leaves one. The clock decides
    /// which moment "now" is; whatever it reads, the bucket goes through
    /// [`BucketView::taken`] at that reading.
    pub fn try_take(&mut self) -> (taken: bool)
        ensures
            exists|now: nat| (final(self)@, taken) == #[trigger] old(self)@.taken(now),
            final(self)@.well_formed(),
    {
        let now = self.age();
        self.take_at(now)
    }

    /// Whole seconds until a token can be had: none if one is there or the
    /// window is over, as the clock reads.
    pub fn seconds_to_next(&self) -> (secs: u64)
        ensures
            exists|now: nat| secs == #[trigger] self@.wait_secs(now),
    {
        let now = self.age();
        self.wait_at(now)
    }

    /// Tokens there `now` nanoseconds after the bucket was made: the count
    /// that the refill due by then leaves. The refill is worked out for the
    /// answer only; the bucket stays as it is. Before the window is over that
    /// is the count last stored, and once a whole window has gone by a bucket
    /// that regains its capacity per window is exactly full, never more.
    pub fn available_at(&self, now: u128) -> (n: u32)
        ensures
            n == self@.refilled(now as nat).available,
            n <= self@.capacity,
            now < self@.last_refill + self@.window ==> n == self@.available,
            self@.refill_amount == self@.capacity && self@.elapsed(now as nat) >= self@.window
                && self@.elapsed(now as nat) > 0 ==> n == self@.capacity,
    {
        proof {
            use_type_invariant(self);
            lemma_refill_restores_capacity(self@, now as nat);
            if now < self@.last_refill + self@.window {
                lemma_no_refill_within_window(self@, now as nat);
            }
        }
        self.due(now).0
    }

    /// Tokens there as the clock reads: whatever it reads, the count that
    /// the refill due at that reading leaves. The bucket stays as it is.
    pub fn available(&self) -> (n: u32)
        ensures
            exists|now: nat| n == #[trigger] self@.refilled(now).available,
            n <= self@.capacity,
    {
        let now = self.age();
        self.available_at(now)
    }
}

/// Before the window is over no refill is due: the bucket stays as it is.
pub proof fn lemma_no_refill_within_window(v: BucketView, now: nat)
    requires
        v.well_formed(),
        now < v.last_refill + v.window,
    ensures
        v.refilled(now) == v,
{
    if v.window > 0 {
        assert(v.elapsed(now) / v.window == 0) by (nonlinear_arith)
            requires
                0 <= v.elapsed(now) < v.window,
        ;
        assert(0 * v.refill_amount == 0 && 0 * v.window == 0) by (nonlinear_arith);
    }
}

/// Attempts that all come before the window is over take tokens and nothing
/// else: the count goes down by one for each until none is left, and the
/// window does not move.
pub proof fn lemma_after_within_window(v: BucketView, times: Seq<nat>)
    requires
        v.well_formed(),
        forall|i: int| 0 <= i < times.len() ==> times[i] < v.last_refill + v.window,
    ensures
        v.after(times) == (BucketView {
            available: if times.len() <= v.available {
                (v.available - times.len()) as nat
            } else {
                0
            },
            ..v
        }),
    decreases times.len(),
{
    if times.len() > 0 {
        let before = times.drop_last();
        lemma_after_within_window(v, before);
        assert(times.last() == times[times.len() - 1]);
        lemma_no_refill_within_window(v.after(before), times.last());
    }
}

/// A bucket gives out what it holds and no more while its window lasts: of
/// attempts that all come before the window is over, those before the
/// `available`-th succeed and all others fail. For a full bucket of capacity
/// `c` these are the first `c`.
pub proof fn lemma_burst(v: BucketView, times: Seq<nat>, i: int)
    requires
        v.well_formed(),
        forall|j: int| 0 <= j < times.len() ==> times[j] < v.last_refill + v.window,
        0 <= i < times.len(),
    ensures
        v.after(times.take(i)).taken(times[i]).1 == (i < v.available),
{
    let before = times.take(i);
    lemma_after_within_window(v, before);
    lemma_no_refill_within_window(v.after(before), times[i]);
}

/// The wait is over no later than the window: it is nothing once the window
/// has gone by, it never reaches past the window's end, and with no token
/// left and a second or more of the window to go it is at least one second.
pub proof fn lemma_wait_bounds(v: BucketView, now: nat)
    requires
        v.well_formed(),
    ensures
        v.elapsed(now) >= v.window ==> v.wait_secs(now) == 0,
        v.available > 0 ==> v.wait_secs(now) == 0,
        v.elapsed(now) + v.wait_secs(now) * NANOS_PER_SEC as nat <= v.window || v.wait_secs(now)
            == 0,
        v.available == 0 && v.elapsed(now) + NANOS_PER_SEC as nat <= v.window ==> v.wait_secs(now)
            >= 1,
{
    if v.available == 0 && v.elapsed(now) < v.window {
        let left = (v.window - v.elapsed(now)) as int;
        lemma_fundamental_div_mod(left, NANOS_PER_SEC as int);
        lemma_mul_is_commutative(left / NANOS_PER_SEC as int, NANOS_PER_SEC as int);
        if left >= NANOS_PER_SEC as int {
            lemma_div_is_ordered(NANOS_PER_SEC as int, left, NANOS_PER_SEC as int);
        }
    }
}

/// A refill never fills beyond the capacity, and once a whole window has gone
/// by a bucket that regains its capacity per window is exactly full again.
pub proof fn lemma_refill_restores_capacity(v: BucketView, now: nat)
    requires
        v.well_formed(),
    ensures
        v.refilled(now).well_formed(),
        v.refill_amount == v.capacity && v.elapsed(now) >= v.window && v.elapsed(now) > 0
            ==> v.refilled(now).available == v.capacity,
{
    if v.window > 0 {
        let n = v.elapsed(now) / v.window;
        if v.elapsed(now) >= v.window {
            lemma_div_is_ordered(v.window as int, v.elapsed(now) as int, v.window as int);
            assert(n >= 1);
            assert(n * v.refill_amount >= v.refill_amount) by (nonlinear_arith)
                requires
                    n >= 1,
            ;
        }
    }
}

} // verus!
