//! Stochastic photon-count sampling.
//!
//! The photon-scattering stage turns each beam's expected photon number for
//! the step into an integer "actual" count by repeated draws from an
//! explicitly seeded stream, so that identical seeds reproduce identical
//! counts and therefore identical stochastic forces. The stream and the
//! counting are exact functions of the seed and are specified draw by draw;
//! the surrounding simulation code only converts the floating-point success
//! probability into the `u64` threshold compared against each draw.

use vstd::prelude::*;

verus! {

/// One update of the shift-xor draw stream.
pub open spec fn stream_step(s: u64) -> u64 {
    let a = s ^ (s << 13u64);
    let b = a ^ (a >> 7u64);
    b ^ (b << 17u64)
}

/// The state a fresh stream starts from. Zero is a fixed point of
/// [`stream_step`], so a zero seed is replaced by a fixed nonzero constant.
pub open spec fn seed_state(seed: u64) -> u64 {
    if seed == 0 {
        0x9E3779B97F4A7C15u64
    } else {
        seed
    }
}

/// Stream state after `trials` draws from state `s`.
pub open spec fn state_after(s: u64, trials: nat) -> u64
    decreases trials,
{
    if trials == 0 {
        s
    } else {
        state_after(stream_step(s), (trials - 1) as nat)
    }
}

/// Number of the next `trials` draws from state `s` that fall below
/// `threshold`: the sampled photon count.
pub open spec fn sample_count(s: u64, trials: nat, threshold: u64) -> nat
    decreases trials,
{
    if trials == 0 {
        0
    } else {
        (if stream_step(s) < threshold {
            1nat
        } else {
            0nat
        }) + sample_count(stream_step(s), (trials - 1) as nat, threshold)
    }
}

/// Explicitly seeded draw stream for actual-photon-count sampling.
///
/// Every draw is an exact function of the seed, so two runs seeded alike
/// scatter exactly the same photons.
pub struct ScatterRng {
    state: u64,
}

impl View for ScatterRng {
    type V = u64;

    closed spec fn view(&self) -> u64 {
        self.state
    }
}

impl ScatterRng {
    /// Seeds a fresh stream.
    pub fn new(seed: u64) -> (r: Self)
        ensures
            r@ == seed_state(seed),
    {
        if seed == 0 {
            ScatterRng { state: 0x9E3779B97F4A7C15u64 }
        } else {
            ScatterRng { state: seed }
        }
    }

    /// Produces the next draw of the stream.
    pub fn next_draw(&mut self) -> (r: u64)
        ensures
            final(self)@ == stream_step(old(self)@),
            r == stream_step(old(self)@),
    {
        let s = self.state;
        let a = s ^ (s << 13u64);
        let b = a ^ (a >> 7u64);
        let n = b ^ (b << 17u64);
        self.state = n;
        n
    }

    /// Samples the actual photon count scattered from one beam this step:
    /// out of `trials` draws, the number that fall below `threshold`.
    ///
    /// The count and the state left behind are exact functions of the state
    /// the stream started from.
    pub fn sample_actual_photons(&mut self, trials: u32, threshold: u64) -> (count: u32)
        ensures
            count == sample_count(old(self)@, trials as nat, threshold),
            final(self)@ == state_after(old(self)@, trials as nat),
            count <= trials,
    {
        let mut count: u32 = 0;
        let mut t: u32 = 0;
        while t < trials
            invariant
                t <= trials,
                count <= t,
                count + sample_count(self@, (trials - t) as nat, threshold)
                    == sample_count(old(self)@, trials as nat, threshold),
                state_after(self@, (trials - t) as nat)
                    == state_after(old(self)@, trials as nat),
            decreases trials - t,
        {
            let draw = self.next_draw();
            if draw < threshold {
                count = count + 1;
            }
            t = t + 1;
        }
        count
    }
}

/// Photon-sampling reproducibility: two sampling passes started from equal
/// stream states, drawing equally often against the same threshold, yield
/// the same photon count and leave their streams in the same state. With a
/// fixed seed the whole stochastic trajectory therefore repeats exactly.
pub proof fn lemma_sampling_reproducible(
    s1: u64,
    s2: u64,
    trials: nat,
    threshold: u64,
    c1: nat,
    c2: nat,
)
    requires
        s1 == s2,
        c1 == sample_count(s1, trials, threshold),
        c2 == sample_count(s2, trials, threshold),
    ensures
        c1 == c2,
        state_after(s1, trials) == state_after(s2, trials),
{
}

/// Running total of photons an atom has scattered over the whole run.
///
/// The total accumulates across beams and across steps and saturates at the
/// largest representable count instead of wrapping.
pub struct TotalPhotonsScattered {
    /// Photons scattered so far, saturating at `u64::MAX`.
    pub total: u64,
}

impl TotalPhotonsScattered {
    /// An atom that has not scattered yet.
    pub fn new() -> (r: Self)
        ensures
            r.total == 0,
    {
        TotalPhotonsScattered { total: 0 }
    }

    /// Adds one beam's actual photon count for this step to the running
    /// total, saturating instead of wrapping.
    pub fn record(&mut self, count: u64)
        ensures
            final(self).total == if old(self).total + count <= u64::MAX {
                (old(self).total + count) as u64
            } else {
                u64::MAX
            },
    {
        if count <= u64::MAX - self.total {
            self.total = self.total + count;
        } else {
            self.total = u64::MAX;
        }
    }
}

} // verus!
