//! The agent's drive state: three integer channels (appetite, smell
//! acuity, fear), each a baseline of 1 modified by the medicines that are
//! part of the current experiment and then clamped to `[0, 2]`.

use vstd::prelude::*;

use crate::medicine::Medicine;

verus! {

/// Clamp a channel value to the `[0, 2]` range.
pub open spec fn clamp02(v: int) -> int {
    if v < 0 {
        0
    } else if v > 2 {
        2
    } else {
        v
    }
}

/// Sum of the appetite deltas of the first `n` medicines that are in the
/// experiment.
pub open spec fn total_appetite(meds: Seq<Medicine>, n: int) -> int
    decreases n,
{
    if n <= 0 {
        0
    } else {
        total_appetite(meds, n - 1) + if meds[n - 1].in_experiment {
            meds[n - 1].appetite as int
        } else {
            0
        }
    }
}

/// Sum of the smell deltas of the first `n` medicines that are in the
/// experiment.
pub open spec fn total_smell(meds: Seq<Medicine>, n: int) -> int
    decreases n,
{
    if n <= 0 {
        0
    } else {
        total_smell(meds, n - 1) + if meds[n - 1].in_experiment {
            meds[n - 1].smell as int
        } else {
            0
        }
    }
}

/// Sum of the fear deltas of the first `n` medicines that are in the
/// experiment.
pub open spec fn total_fear(meds: Seq<Medicine>, n: int) -> int
    decreases n,
{
    if n <= 0 {
        0
    } else {
        total_fear(meds, n - 1) + if meds[n - 1].in_experiment {
            meds[n - 1].fear as int
        } else {
            0
        }
    }
}

/// The rat's drive state.
#[derive(Debug, Copy, Clone, PartialEq, Eq, Structural)]
pub struct Rat {
    pub appetite: i32,
    pub smell: i32,
    pub fear: i32,
}

impl Rat {
    /// Every channel inside the clamped range.
    pub open spec fn valid(self) -> bool {
        &&& 0 <= self.appetite <= 2
        &&& 0 <= self.smell <= 2
        &&& 0 <= self.fear <= 2
    }
}

impl Default for Rat {
    /// The untreated baseline: 1 on every channel.
    fn default() -> (r: Self)
        ensures
            r.appetite == 1 && r.smell == 1 && r.fear == 1,
    {
        Rat { appetite: 1, smell: 1, fear: 1 }
    }
}

impl Rat {
    /// Apply the deltas of every medicine that is in the experiment to this
    /// drive state, then clamp each channel to `[0, 2]`. The receiver is the
    /// baseline; it is not mutated.
    pub fn with_medicines(&self, medicines: &Vec<Medicine>) -> (r: Rat)
        ensures
            r.appetite == clamp02(self.appetite + total_appetite(medicines@, medicines@.len() as int)),
            r.smell == clamp02(self.smell + total_smell(medicines@, medicines@.len() as int)),
            r.fear == clamp02(self.fear + total_fear(medicines@, medicines@.len() as int)),
            0 <= r.appetite <= 2,
            0 <= r.smell <= 2,
            0 <= r.fear <= 2,
    {
        let mut a: i128 = self.appetite as i128;
        let mut s: i128 = self.smell as i128;
        let mut f: i128 = self.fear as i128;
        let mut i: usize = 0;
        while i < medicines.len()
            invariant
                0 <= i <= medicines@.len(),
                a == self.appetite + total_appetite(medicines@, i as int),
                s == self.smell + total_smell(medicines@, i as int),
                f == self.fear + total_fear(medicines@, i as int),
                -(i + 1) * 0x8000_0000 <= a <= (i + 1) * 0x8000_0000,
                -(i + 1) * 0x8000_0000 <= s <= (i + 1) * 0x8000_0000,
                -(i + 1) * 0x8000_0000 <= f <= (i + 1) * 0x8000_0000,
            decreases medicines@.len() - i,
        {
            let m = &medicines[i];
            if m.in_experiment {
                a = a + m.appetite as i128;
                s = s + m.smell as i128;
                f = f + m.fear as i128;
            }
            i = i + 1;
        }
        Rat { appetite: clamp02_i128(a), smell: clamp02_i128(s), fear: clamp02_i128(f) }
    }

    /// Eating one piece of food: a hungry rat's appetite drops by one,
    /// clamped at zero; a sated rat does not eat. Returns whether it ate.
    pub fn eat(&mut self) -> (ate: bool)
        ensures
            ate == (old(self).appetite > 0),
            final(self).appetite == (if old(self).appetite > 0 {
                clamp02(old(self).appetite - 1)
            } else {
                old(self).appetite as int
            }),
            final(self).smell == old(self).smell,
            final(self).fear == old(self).fear,
    {
        if self.appetite > 0 {
            self.appetite = clamp02_i128((self.appetite - 1) as i128);
            true
        } else {
            false
        }
    }
}

/// Clamp an accumulated channel value into `[0, 2]`, narrowing to `i32`.
fn clamp02_i128(v: i128) -> (r: i32)
    ensures
        r == clamp02(v as int),
{
    if v < 0 {
        0
    } else if v > 2 {
        2
    } else {
        v as i32
    }
}

/// Drive clamp law: whatever combination of medicine deltas is applied to
/// the baseline of 1, every resulting channel lies in `[0, 2]` — the sum
/// clamps, it never wraps.
pub proof fn lemma_drive_clamp(meds: Seq<Medicine>)
    ensures
        0 <= clamp02(1 + total_appetite(meds, meds.len() as int)) <= 2,
        0 <= clamp02(1 + total_smell(meds, meds.len() as int)) <= 2,
        0 <= clamp02(1 + total_fear(meds, meds.len() as int)) <= 2,
{
}

} // verus!
