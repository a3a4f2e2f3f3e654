//! A layer: a non-empty row of neurons that all read the same input vector.

use vstd::prelude::*;

use crate::chromosome::genes_bounded;
use crate::fx::FX_MAX;
use crate::neuron::{neuron_flat, neuron_out, unit_params, Neuron};

verus! {

/// A layer's output: one rectified weighted sum per neuron.
pub open spec fn layer_eval(l: Layer, xs: Seq<i64>) -> Seq<i64> {
    Seq::new(l.neurons@.len(), |i: int| neuron_out(l.neurons@[i], xs) as i64)
}

/// The canonical flattening of a row of neurons, in order.
pub open spec fn neurons_flat(ns: Seq<Neuron>) -> Seq<i64>
    decreases ns.len(),
{
    if ns.len() == 0 {
        Seq::empty()
    } else {
        neurons_flat(ns.drop_last()) + neuron_flat(ns.last())
    }
}

/// The canonical flattening of a layer.
pub open spec fn layer_flat(l: Layer) -> Seq<i64> {
    neurons_flat(l.neurons@)
}

/// An ordered row of neurons sharing one input arity.
#[derive(Clone, Debug)]
pub struct Layer {
    pub neurons: Vec<Neuron>,
}

impl Layer {
    /// Whether the layer is well formed for `arity` inputs.
    pub open spec fn wf(&self, arity: nat) -> bool {
        &&& self.neurons@.len() >= 1
        &&& forall|i: int| 0 <= i < self.neurons@.len() ==> (#[trigger] self.neurons@[i]).wf(arity)
    }

    /// Build a layer from an explicit non-empty row of neurons, all of the
    /// arity of the first.
    pub fn new(neurons: Vec<Neuron>) -> (l: Layer)
        requires
            neurons@.len() >= 1,
            forall|i: int|
                0 <= i < neurons@.len() ==> (#[trigger] neurons@[i]).wf(
                    neurons@[0].weights@.len() as nat,
                ),
        ensures
            l.neurons@ == neurons@,
            l.wf(neurons@[0].weights@.len() as nat),
    {
        Layer { neurons }
    }

    /// Draw a fresh layer of `outputs` random neurons with `inputs` inputs
    /// each, consuming the stream one neuron at a time; every drawn
    /// parameter lies within one unit.
    pub fn random(rng: &mut rand::rngs::StdRng, inputs: usize, outputs: usize) -> (l: Layer)
        requires
            inputs >= 1,
            outputs >= 1,
        ensures
            l.wf(inputs as nat),
            l.neurons@.len() == outputs,
            forall|j: int| 0 <= j < outputs ==> unit_params(#[trigger] l.neurons@[j]),
    {
        let mut neurons: Vec<Neuron> = Vec::new();
        let mut i: usize = 0;
        while i < outputs
            invariant
                i <= outputs,
                inputs >= 1,
                neurons@.len() == i,
                forall|k: int| 0 <= k < i ==> (#[trigger] neurons@[k]).wf(inputs as nat),
                forall|k: int| 0 <= k < i ==> unit_params(#[trigger] neurons@[k]),
            decreases outputs - i,
        {
            let n = Neuron::random(rng, inputs);
            neurons.push(n);
            i = i + 1;
        }
        Layer { neurons }
    }

    /// Rebuild a layer of `outputs` neurons with `inputs` inputs each by
    /// consuming `(inputs + 1) * outputs` scalars from `weights` at the
    /// cursor `pos`, neuron by neuron.
    pub fn from_weights(inputs: usize, outputs: usize, weights: &Vec<i64>, pos: &mut usize) -> (l:
        Layer)
        requires
            inputs >= 1,
            outputs >= 1,
            *old(pos) + (inputs + 1) * (outputs as int) <= weights@.len(),
            genes_bounded(weights@),
        ensures
            *final(pos) == *old(pos) + (inputs + 1) * (outputs as int),
            l.wf(inputs as nat),
            l.neurons@.len() == outputs,
            layer_flat(l) == weights@.subrange(*old(pos) as int, *final(pos) as int),
    {
        let mut neurons: Vec<Neuron> = Vec::new();
        proof {
            assert(neurons_flat(neurons@) =~= weights@.subrange(*old(pos) as int, *old(pos) as int));
        }
        let mut k: usize = 0;
        while k < outputs
            invariant
                k <= outputs,
                inputs >= 1,
                neurons@.len() == k,
                *pos == *old(pos) + (inputs + 1) * (k as int),
                *old(pos) + (inputs + 1) * (outputs as int) <= weights@.len(),
                genes_bounded(weights@),
                forall|i: int| 0 <= i < k ==> (#[trigger] neurons@[i]).wf(inputs as nat),
                neurons_flat(neurons@) == weights@.subrange(*old(pos) as int, *pos as int),
            decreases outputs - k,
        {
            proof {
                assert((inputs + 1) * (k as int) + (inputs + 1) == (inputs + 1) * (k as int + 1))
                    by (nonlinear_arith);
                assert((inputs + 1) * (k as int + 1) <= (inputs + 1) * (outputs as int))
                    by (nonlinear_arith)
                    requires
                        k as int + 1 <= outputs as int,
                        inputs as int + 1 >= 0,
                ;
            }
            let ghost prev = *pos;
            let ghost prev_ns = neurons@;
            let ghost prev_flat = neurons_flat(neurons@);
            let n = Neuron::from_weights(inputs, weights, pos);
            neurons.push(n);
            proof {
                assert(neurons@.drop_last() =~= prev_ns);
                assert(neurons_flat(neurons@) == prev_flat + neuron_flat(n));
                assert(weights@.subrange(*old(pos) as int, prev as int) + weights@.subrange(
                    prev as int,
                    *pos as int,
                ) =~= weights@.subrange(*old(pos) as int, *pos as int));
            }
            k = k + 1;
        }
        Layer { neurons }
    }

    /// Append this layer's flattening to `out`, neuron by neuron.
    pub fn push_flat(&self, out: &mut Vec<i64>)
        ensures
            final(out)@ == old(out)@ + layer_flat(*self),
    {
        let len = self.neurons.len();
        proof {
            assert(neurons_flat(self.neurons@.take(0)) =~= Seq::<i64>::empty());
            assert(out@ =~= old(out)@ + neurons_flat(self.neurons@.take(0)));
        }
        let mut i: usize = 0;
        while i < len
            invariant
                i <= len,
                len == self.neurons@.len(),
                out@ == old(out)@ + neurons_flat(self.neurons@.take(i as int)),
            decreases len - i,
        {
            self.neurons[i].push_flat(out);
            proof {
                assert(self.neurons@.take(i + 1).drop_last() =~= self.neurons@.take(i as int));
                assert(self.neurons@.take(i + 1).last() == self.neurons@[i as int]);
                assert(out@ =~= old(out)@ + neurons_flat(self.neurons@.take(i + 1)));
            }
            i = i + 1;
        }
        proof {
            assert(self.neurons@.take(len as int) =~= self.neurons@);
        }
    }

    /// Feed one input vector to every neuron; the outputs keep the neurons'
    /// order and are all non-negative.
    pub fn propagate(&self, inputs: &Vec<i64>) -> (r: Vec<i64>)
        requires
            self.wf(inputs@.len() as nat),
            genes_bounded(inputs@),
        ensures
            r@ == layer_eval(*self, inputs@),
            r@.len() == self.neurons@.len(),
            genes_bounded(r@),
            forall|i: int| 0 <= i < r@.len() ==> 0 <= #[trigger] r@[i] <= FX_MAX,
    {
        let len = self.neurons.len();
        let mut out: Vec<i64> = Vec::new();
        let mut i: usize = 0;
        while i < len
            invariant
                i <= len,
                len == self.neurons@.len(),
                self.wf(inputs@.len() as nat),
                genes_bounded(inputs@),
                out@.len() == i,
                forall|k: int| 0 <= k < i ==> out@[k] == layer_eval(*self, inputs@)[k],
                forall|k: int| 0 <= k < i ==> 0 <= #[trigger] out@[k] <= FX_MAX,
            decreases len - i,
        {
            let v = self.neurons[i].propagate(inputs);
            out.push(v);
            i = i + 1;
        }
        proof {
            assert(out@ =~= layer_eval(*self, inputs@));
        }
        out
    }
}

} // verus!
