//! Mutation policies: perturbing a child genome in place.

use vstd::prelude::*;

use crate::chromosome::{genes_bounded, Chromosome};
use crate::fx::{fx_bounded, FX_MAX, SCALE};
use crate::rng::{gen_range_i64, gen_range_u64};

verus! {

/// A policy that perturbs a genome in place. The genome's length never
/// changes; a policy that cannot act (`is_noop`) leaves every gene exactly
/// as it was; and on genes from the scalar domain no gene moves further
/// than `max_delta`.
pub trait MutationMethod {
    /// Whether this policy provably never changes a genome.
    spec fn is_noop(&self) -> bool;

    /// How far one gene may move, at most.
    spec fn max_delta(&self) -> int;

    fn mutate(&self, rng: &mut rand::rngs::StdRng, child: &mut Chromosome)
        ensures
            final(child)@.len() == old(child)@.len(),
            self.is_noop() ==> final(child)@ == old(child)@,
            genes_bounded(old(child)@) ==> genes_bounded(final(child)@),
            genes_bounded(old(child)@) ==> forall|i: int|
                0 <= i < final(child)@.len() ==> -self.max_delta() <= #[trigger] final(child)@[i]
                    - old(child)@[i] <= self.max_delta(),
    ;
}

/// Skew mutation: each gene is, with probability `chance` (in millionths),
/// moved by a uniformly drawn magnitude below `coeff`, in a uniformly
/// drawn direction. Zero chance or a zero coefficient is a provable no-op.
#[derive(Clone, Copy, Debug)]
pub struct SkewMutation {
    pub chance: u64,
    pub coeff: i64,
}

impl SkewMutation {
    /// A skew mutation with the given per-gene chance (in millionths of
    /// certainty) and magnitude bound.
    pub fn new(chance: u64, coeff: i64) -> (r: SkewMutation)
        requires
            chance <= SCALE as u64,
            0 <= coeff <= FX_MAX,
        ensures
            r.chance == chance,
            r.coeff == coeff,
    {
        SkewMutation { chance, coeff }
    }
}

impl MutationMethod for SkewMutation {
    open spec fn is_noop(&self) -> bool {
        self.chance == 0 || self.coeff <= 0
    }

    open spec fn max_delta(&self) -> int {
        if self.coeff > 0 {
            self.coeff as int
        } else {
            0
        }
    }

    fn mutate(&self, rng: &mut rand::rngs::StdRng, child: &mut Chromosome) {
        let len = child.len();
        let mut i: usize = 0;
        while i < len
            invariant
                i <= len,
                len == old(child)@.len(),
                child@.len() == old(child)@.len(),
                forall|k: int| i <= k < len ==> #[trigger] child@[k] == old(child)@[k],
                self.is_noop() ==> forall|k: int| 0 <= k < i ==> #[trigger] child@[k] == old(
                child,
                )@[k],
                forall|k: int|
                    0 <= k < i ==> (fx_bounded(#[trigger] old(child)@[k]) ==> fx_bounded(child@[k])
                        && -self.max_delta() <= child@[k] - old(child)@[k] <= self.max_delta()),
            decreases len - i,
        {
            let sign = gen_range_u64(rng, 0, 2);
            let roll = gen_range_u64(rng, 0, SCALE as u64);
            if roll < self.chance {
                let mag: i64 = if self.coeff > 0 {
                    gen_range_i64(rng, 0, self.coeff)
                } else {
                    0
                };
                let delta: i64 = if sign == 0 {
                    -mag
                } else {
                    mag
                };
                if delta != 0 {
                    let g = child.gene(i);
                    let moved: i128 = (g as i128) + (delta as i128);
                    let ng: i64 = if moved > (FX_MAX as i128) {
                        FX_MAX
                    } else if moved < (-FX_MAX) as i128 {
                        -FX_MAX
                    } else {
                        moved as i64
                    };
                    child.set_gene(i, ng);
                }
            }
            i = i + 1;
        }
        proof {
            if genes_bounded(old(child)@) {
                assert forall|k: int| 0 <= k < child@.len() implies fx_bounded(
                    #[trigger] child@[k],
                ) by {
                    assert(fx_bounded(old(child)@[k]));
                }
            }
        }
    }
}

} // verus!
