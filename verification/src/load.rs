//! The load figure of the local pool and the threshold it is held against.
//!
//! Both are exact ratios of machine integers, so that "reading >= threshold"
//! is decided without rounding.

use vstd::prelude::*;

verus! {

/// A busy threshold in `[0, 1]`, held as `numer / denom`.
#[derive(Clone, Copy, Debug)]
pub struct LoadThreshold {
    numer: u32,
    denom: u32,
}

impl LoadThreshold {
    #[verifier::type_invariant]
    spec fn inv(self) -> bool {
        self.wf()
    }

    /// The numerator of the ratio.
    pub closed spec fn numer(self) -> nat {
        self.numer as nat
    }

    /// The denominator of the ratio.
    pub closed spec fn denom(self) -> nat {
        self.denom as nat
    }

    /// The ratio lies in `[0, 1]` and its denominator is not zero.
    pub open spec fn wf(self) -> bool {
        0 < self.denom() && self.numer() <= self.denom()
    }

    /// The threshold `numer / denom`, or `None` where that is no ratio in `[0, 1]`.
    pub fn new(numer: u32, denom: u32) -> (t: Option<LoadThreshold>)
        ensures
            t.is_some() == (0 < denom && numer <= denom),
            t matches Some(th) ==> th.wf() && th.numer() == numer && th.denom() == denom,
    {
        if denom > 0 && numer <= denom {
            Some(LoadThreshold { numer, denom })
        } else {
            None
        }
    }

    /// The threshold `0.0`: every pool is at or above it.
    pub fn zero() -> (t: LoadThreshold)
        ensures
            t.wf(),
            t.numer() == 0,
            t.denom() == 1,
    {
        LoadThreshold { numer: 0, denom: 1 }
    }

    /// The threshold `1.0`: only a full pool reaches it.
    pub fn full() -> (t: LoadThreshold)
        ensures
            t.wf(),
            t.numer() == 1,
            t.denom() == 1,
    {
        LoadThreshold { numer: 1, denom: 1 }
    }

    /// The numerator, as a machine integer.
    pub fn numerator(&self) -> (n: u32)
        ensures
            n == self.numer(),
            self.wf(),
    {
        proof {
            use_type_invariant(self);
        }
        self.numer
    }

    /// The denominator, as a machine integer.
    pub fn denominator(&self) -> (d: u32)
        ensures
            d == self.denom(),
            self.wf(),
    {
        proof {
            use_type_invariant(self);
        }
        self.denom
    }
}

/// Whether `running` workers out of `capacity` are at or above the threshold
/// `numer / denom`. The reading is `running / capacity` clamped into
/// `[0, 1]`; a pool without capacity is at or above every threshold.
pub open spec fn load_at_least(running: nat, capacity: nat, numer: nat, denom: nat) -> bool {
    capacity == 0 || clamp_running(running, capacity) * denom >= numer * capacity
}

/// `running`, but no more than `capacity`.
pub open spec fn clamp_running(running: nat, capacity: nat) -> nat {
    if running <= capacity {
        running
    } else {
        capacity
    }
}

/// The load of a pool: how many workers run, out of how many it may hold.
#[derive(Clone, Copy, Debug)]
pub struct LoadReading {
    /// Workers in the running state.
    pub running: usize,
    /// The most workers the pool may hold.
    pub capacity: usize,
}

impl LoadReading {
    /// Whether this reading is at or above `threshold`.
    pub open spec fn at_least(self, threshold: LoadThreshold) -> bool {
        load_at_least(
            self.running as nat,
            self.capacity as nat,
            threshold.numer(),
            threshold.denom(),
        )
    }

    /// Decides `at_least` without rounding.
    pub fn reaches(&self, threshold: LoadThreshold) -> (busy: bool)
        ensures
            busy == self.at_least(threshold),
    {
        if self.capacity == 0 {
            return true;
        }
        let shown: usize = if self.running <= self.capacity {
            self.running
        } else {
            self.capacity
        };
        let n: u32 = threshold.numerator();
        let d: u32 = threshold.denominator();
        let left: u128 = wide_product(shown, d);
        let right: u128 = wide_product(self.capacity, n);
        proof {
            assert(self.capacity * n == n * self.capacity) by (nonlinear_arith);
        }
        left >= right
    }
}

/// `a * b`, which always fits in 128 bits.
fn wide_product(a: usize, b: u32) -> (p: u128)
    ensures
        p == a * b,
{
    proof {
        assert(a * b <= 0xffff_ffff_ffff_ffff * 0xffff_ffff) by (nonlinear_arith)
            requires
                a <= 0xffff_ffff_ffff_ffff,
                b <= 0xffff_ffff,
        ;
    }
    (a as u128) * (b as u128)
}

/// A threshold of zero is met by every pool, whatever runs in it.
pub proof fn law_zero_threshold_always_busy(running: nat, capacity: nat, denom: nat)
    ensures
        load_at_least(running, capacity, 0, denom),
{
    assert(0 * capacity == 0) by (nonlinear_arith);
    assert(clamp_running(running, capacity) * denom >= 0) by (nonlinear_arith);
}

/// A threshold of one is met exactly by a full pool, or by one without capacity.
pub proof fn law_full_threshold_iff_pool_full(running: nat, capacity: nat, denom: nat)
    requires
        denom > 0,
    ensures
        load_at_least(running, capacity, denom, denom) == (capacity == 0 || running >= capacity),
{
    let shown = clamp_running(running, capacity);
    if capacity > 0 {
        if running >= capacity {
            assert(shown == capacity);
        } else {
            assert(shown < capacity);
            assert(shown * denom < denom * capacity) by (nonlinear_arith)
                requires
                    shown < capacity,
                    denom > 0,
            ;
        }
        assert(capacity * denom == denom * capacity) by (nonlinear_arith);
    }
}

} // verus!
