//! A single neuron: one bias plus one weight per input, combined by a
//! rectified weighted sum.

use vstd::prelude::*;

use crate::chromosome::genes_bounded;
use crate::fx::{fx_bounded, mul_scaled, tdiv, fx_clip, relu_spec, FX_MAX, SCALE, TERM_MAX};
use crate::rng::gen_range_i64;

verus! {

/// One bias scalar and a weight for each input of the owning layer.
#[derive(Clone, Debug)]
pub struct Neuron {
    pub bias: i64,
    pub weights: Vec<i64>,
}

/// Sum of the first `n` rescaled products `xs[i] * ws[i] / SCALE`.
pub open spec fn dot_prefix(xs: Seq<i64>, ws: Seq<i64>, n: nat) -> int
    decreases n,
{
    if n == 0 {
        0
    } else {
        dot_prefix(xs, ws, (n - 1) as nat) + tdiv(
            xs[n - 1] as int * ws[n - 1] as int,
            SCALE as int,
        )
    }
}

/// A neuron's pre-activation value on the given inputs: bias plus the
/// weighted input sum, saturated into the scalar domain.
pub open spec fn neuron_pre(n: Neuron, xs: Seq<i64>) -> int {
    fx_clip(n.bias as int + dot_prefix(xs, n.weights@, n.weights@.len()))
}

/// A neuron's output: the rectified pre-activation.
pub open spec fn neuron_out(n: Neuron, xs: Seq<i64>) -> int {
    relu_spec(neuron_pre(n, xs))
}

/// The canonical flattening of one neuron: its bias, then its weights.
pub open spec fn neuron_flat(n: Neuron) -> Seq<i64> {
    seq![n.bias] + n.weights@
}

/// Every parameter of the neuron — the bias and each weight — lies within
/// one unit, the range fresh draws come from.
pub open spec fn unit_params(n: Neuron) -> bool {
    &&& -SCALE <= n.bias <= SCALE
    &&& forall|i: int| 0 <= i < n.weights@.len() ==> -SCALE <= #[trigger] n.weights@[i] <= SCALE
}

impl Neuron {
    /// Whether the neuron is well formed for `arity` inputs.
    pub open spec fn wf(&self, arity: nat) -> bool {
        &&& self.weights@.len() == arity
        &&& arity >= 1
        &&& fx_bounded(self.bias)
        &&& genes_bounded(self.weights@)
    }

    /// Build a neuron from an explicit bias and weight vector.
    pub fn new(bias: i64, weights: Vec<i64>) -> (n: Neuron)
        requires
            weights@.len() >= 1,
            fx_bounded(bias),
            genes_bounded(weights@),
        ensures
            n.bias == bias,
            n.weights@ == weights@,
            n.wf(weights@.len()),
    {
        Neuron { bias, weights }
    }

    /// Draw a fresh neuron: first the bias, then each weight in order, all
    /// uniform over `[-SCALE, SCALE]`.
    pub fn random(rng: &mut rand::rngs::StdRng, inputs: usize) -> (n: Neuron)
        requires
            inputs >= 1,
        ensures
            n.wf(inputs as nat),
            unit_params(n),
    {
        let bias = gen_range_i64(rng, -SCALE, SCALE + 1);
        let mut weights: Vec<i64> = Vec::new();
        let mut i: usize = 0;
        while i < inputs
            invariant
                i <= inputs,
                weights@.len() == i,
                forall|k: int| 0 <= k < i ==> -SCALE <= #[trigger] weights@[k] <= SCALE,
            decreases inputs - i,
        {
            let w = gen_range_i64(rng, -SCALE, SCALE + 1);
            weights.push(w);
            i = i + 1;
        }
        Neuron { bias, weights }
    }

    /// Rebuild a neuron by consuming `inputs + 1` scalars from `weights`
    /// at the cursor `pos`: first the bias, then each weight, exactly the
    /// order the flattening produces.
    pub fn from_weights(inputs: usize, weights: &Vec<i64>, pos: &mut usize) -> (n: Neuron)
        requires
            inputs >= 1,
            *old(pos) + inputs + 1 <= weights@.len(),
            genes_bounded(weights@),
        ensures
            *final(pos) == *old(pos) + inputs + 1,
            n.wf(inputs as nat),
            neuron_flat(n) == weights@.subrange(*old(pos) as int, *final(pos) as int),
    {
        proof {
            vstd::std_specs::vec::axiom_spec_len(weights);
        }
        let bias = weights[*pos];
        *pos = *pos + 1;
        let mut ws: Vec<i64> = Vec::new();
        proof {
            assert(ws@ =~= weights@.subrange(*old(pos) + 1, *pos as int));
        }
        let mut i: usize = 0;
        while i < inputs
            invariant
                i <= inputs,
                *pos == *old(pos) + 1 + i,
                *old(pos) + inputs + 1 <= weights@.len(),
                weights@.len() <= usize::MAX,
                genes_bounded(weights@),
                ws@ == weights@.subrange(*old(pos) + 1, *pos as int),
            decreases inputs - i,
        {
            let w = weights[*pos];
            ws.push(w);
            *pos = *pos + 1;
            proof {
                assert(ws@ =~= weights@.subrange(*old(pos) + 1, *pos as int));
            }
            i = i + 1;
        }
        let n = Neuron { bias, weights: ws };
        proof {
            assert(neuron_flat(n) =~= weights@.subrange(
                *old(pos) as int,
                *old(pos) + inputs + 1,
            ));
        }
        n
    }

    /// Append this neuron's flattening (bias, then weights) to `out`.
    pub fn push_flat(&self, out: &mut Vec<i64>)
        ensures
            final(out)@ == old(out)@ + neuron_flat(*self),
    {
        out.push(self.bias);
        proof {
            assert(out@ =~= old(out)@ + seq![self.bias] + self.weights@.take(0));
        }
        let len = self.weights.len();
        let mut i: usize = 0;
        while i < len
            invariant
                i <= len,
                len == self.weights@.len(),
                out@ == old(out)@ + seq![self.bias] + self.weights@.take(i as int),
            decreases len - i,
        {
            out.push(self.weights[i]);
            proof {
                assert(self.weights@.take(i + 1) =~= self.weights@.take(i as int).push(
                    self.weights@[i as int],
                ));
                assert(out@ =~= old(out)@ + seq![self.bias] + self.weights@.take(i + 1));
            }
            i = i + 1;
        }
        proof {
            assert(self.weights@.take(len as int) =~= self.weights@);
            assert(out@ =~= old(out)@ + neuron_flat(*self));
        }
    }

    /// The rectified weighted sum `max(0, bias + sum(xs[i] * w[i]))`.
    ///
    /// The output is never negative, and is exactly zero whenever the
    /// pre-activation sum is not positive.
    pub fn propagate(&self, inputs: &Vec<i64>) -> (r: i64)
        requires
            self.wf(inputs@.len() as nat),
            genes_bounded(inputs@),
        ensures
            r as int == neuron_out(*self, inputs@),
            0 <= r <= FX_MAX,
            neuron_pre(*self, inputs@) <= 0 ==> r == 0,
    {
        let len = inputs.len();
        let mut acc: i128 = 0;
        let mut i: usize = 0;
        while i < len
            invariant
                i <= len,
                len == inputs@.len(),
                self.wf(inputs@.len() as nat),
                genes_bounded(inputs@),
                acc as int == dot_prefix(inputs@, self.weights@, i as nat),
                -(i as int) * (TERM_MAX as int) <= acc as int <= (i as int) * (TERM_MAX as int),
            decreases len - i,
        {
            let t = mul_scaled(inputs[i], self.weights[i]);
            proof {
                assert((i as int) * (TERM_MAX as int) + TERM_MAX as int == (i as int + 1) * (
                TERM_MAX as int)) by (nonlinear_arith);
                assert((i as int + 1) * (TERM_MAX as int) <= (len as int) * (TERM_MAX as int))
                    by (nonlinear_arith)
                    requires
                        i as int + 1 <= len as int,
                ;
                assert((len as int) * (TERM_MAX as int) < i128::MAX) by (nonlinear_arith)
                    requires
                        len as int <= usize::MAX as int,
                ;
            }
            acc = acc + (t as i128);
            i = i + 1;
        }
        proof {
            assert((len as int) * (TERM_MAX as int) < i128::MAX) by (nonlinear_arith)
                requires
                    len as int <= usize::MAX as int,
            ;
        }
        let pre = (self.bias as i128) + acc;
        let clipped: i64 = if pre > (FX_MAX as i128) {
            FX_MAX
        } else if pre < (-FX_MAX) as i128 {
            -FX_MAX
        } else {
            pre as i64
        };
        if clipped < 0 {
            0
        } else {
            clipped
        }
    }
}

} // verus!
