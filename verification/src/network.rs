//! A feed-forward network: an ordered chain of layers in which each layer's
//! neuron count is the next layer's input arity. The network exposes
//! inference and a canonical flatten/rebuild pair over weight sequences.

use vstd::prelude::*;

use crate::chromosome::genes_bounded;
use crate::fx::FX_MAX;
use crate::layer::{layer_eval, layer_flat, neurons_flat, Layer};
use crate::neuron::{neuron_flat, neuron_out, unit_params, Neuron};

verus! {

/// Output of a chain of layers fed with `xs`.
pub open spec fn layers_eval(ls: Seq<Layer>, xs: Seq<i64>) -> Seq<i64>
    decreases ls.len(),
{
    if ls.len() == 0 {
        xs
    } else {
        layer_eval(ls.last(), layers_eval(ls.drop_last(), xs))
    }
}

/// The canonical flattening of a chain of layers, in order.
pub open spec fn layers_flat(ls: Seq<Layer>) -> Seq<i64>
    decreases ls.len(),
{
    if ls.len() == 0 {
        Seq::empty()
    } else {
        layers_flat(ls.drop_last()) + layer_flat(ls.last())
    }
}

/// How many scalars the layers described by `topo[i..]` consume: each
/// adjacent pair of sizes costs `(inputs + 1) * outputs`.
pub open spec fn req_weights(topo: Seq<usize>, i: int) -> int
    decreases topo.len() - i,
{
    if i < 0 || i + 1 >= topo.len() {
        0
    } else {
        (topo[i] + 1) * (topo[i + 1] as int) + req_weights(topo, i + 1)
    }
}

/// A topology is valid when it names at least an input and an output row,
/// each of at least one neuron.
pub open spec fn topology_ok(topo: Seq<usize>) -> bool {
    &&& topo.len() >= 2
    &&& forall|i: int| 0 <= i < topo.len() ==> 1 <= #[trigger] topo[i]
}

/// An ordered chain of layers.
#[derive(Clone, Debug)]
pub struct Network {
    pub layers: Vec<Layer>,
}

impl Network {
    /// The input arity that layer `i` must accept: the first layer's own
    /// weight count, and afterwards the previous layer's neuron count.
    pub open spec fn arity_at(&self, i: int) -> nat {
        if i == 0 {
            self.layers@[0].neurons@[0].weights@.len()
        } else {
            self.layers@[i - 1].neurons@.len()
        }
    }

    /// Well-formedness: at least one layer, and every layer well formed for
    /// the arity the chain hands it.
    pub open spec fn wf(&self) -> bool {
        &&& self.layers@.len() >= 1
        &&& forall|i: int|
            0 <= i < self.layers@.len() ==> (#[trigger] self.layers@[i]).wf(self.arity_at(i))
    }

    /// Length of the input vectors the network accepts.
    pub open spec fn input_arity(&self) -> nat {
        self.arity_at(0)
    }

    /// Number of scalars the network emits.
    pub open spec fn output_count(&self) -> nat {
        self.layers@.last().neurons@.len()
    }

    /// The layer sizes, input arity first: entry `i` is the arity of layer
    /// `i`, and the last entry is the final layer's neuron count.
    pub open spec fn topology_spec(&self) -> Seq<nat> {
        Seq::new(self.layers@.len() + 1, |i: int| self.arity_at(i))
    }

    /// The network's output on `xs`.
    pub open spec fn eval(&self, xs: Seq<i64>) -> Seq<i64> {
        layers_eval(self.layers@, xs)
    }

    /// The network's canonical flattening: every bias then every weight,
    /// layer-major, neuron-major.
    pub open spec fn flat(&self) -> Seq<i64> {
        layers_flat(self.layers@)
    }

    /// Assemble a network from an explicit chain of layers whose arities
    /// already agree.
    pub fn new(layers: Vec<Layer>) -> (n: Network)
        requires
            (Network { layers }).wf(),
        ensures
            n.layers@ == layers@,
            n.wf(),
    {
        Network { layers }
    }

    /// Draw a fresh network for the given layer sizes, consuming the stream
    /// layer by layer, neuron by neuron, bias before weights; every drawn
    /// bias and weight lies within one unit.
    pub fn random(rng: &mut rand::rngs::StdRng, topology: &Vec<usize>) -> (n: Network)
        requires
            topology_ok(topology@),
        ensures
            n.wf(),
            n.topology_spec().len() == topology@.len(),
            forall|i: int| 0 <= i < topology@.len() ==> n.topology_spec()[i] == topology@[i],
            forall|i: int, j: int|
                0 <= i < n.layers@.len() && 0 <= j < n.layers@[i].neurons@.len() ==> unit_params(
                    #[trigger] n.layers@[i].neurons@[j],
                ),
    {
        let pairs = topology.len() - 1;
        let mut layers: Vec<Layer> = Vec::new();
        let mut p: usize = 0;
        while p < pairs
            invariant
                p <= pairs,
                pairs + 1 == topology@.len(),
                topology_ok(topology@),
                layers@.len() == p,
                forall|i: int|
                    0 <= i < p ==> (#[trigger] layers@[i]).wf(topology@[i] as nat)
                        && layers@[i].neurons@.len() == topology@[i + 1],
                forall|i: int, j: int|
                    0 <= i < p && 0 <= j < layers@[i].neurons@.len() ==> unit_params(
                        #[trigger] layers@[i].neurons@[j],
                    ),
            decreases pairs - p,
        {
            let l = Layer::random(rng, topology[p], topology[p + 1]);
            layers.push(l);
            p = p + 1;
        }
        let n = Network { layers };
        proof {
            assert forall|i: int| 0 <= i < n.layers@.len() implies (#[trigger] n.layers@[i]).wf(
                n.arity_at(i),
            ) by {
                assert(n.layers@[i].wf(topology@[i] as nat));
                if i > 0 {
                    assert(n.arity_at(i) == n.layers@[i - 1].neurons@.len());
                } else {
                    assert(n.layers@[0].wf(topology@[0] as nat));
                    assert(n.layers@[0].neurons@[0].wf(topology@[0] as nat));
                }
            }
            assert forall|i: int| 0 <= i < topology@.len() implies n.topology_spec()[i]
                == topology@[i] by {
                if i == 0 {
                    assert(n.layers@[0].neurons@[0].wf(topology@[0] as nat));
                }
            }
        }
        n
    }

    /// Rebuild a network from a flat weight sequence of exactly the length
    /// the topology demands; the flattening of the result is that sequence.
    pub fn from_weights(topology: &Vec<usize>, weights: &Vec<i64>) -> (n: Network)
        requires
            topology_ok(topology@),
            weights@.len() == req_weights(topology@, 0),
            genes_bounded(weights@),
        ensures
            n.wf(),
            n.topology_spec().len() == topology@.len(),
            forall|i: int| 0 <= i < topology@.len() ==> n.topology_spec()[i] == topology@[i],
            n.flat() == weights@,
    {
        let pairs = topology.len() - 1;
        let mut layers: Vec<Layer> = Vec::new();
        let mut pos: usize = 0;
        proof {
            assert(layers_flat(layers@) =~= weights@.subrange(0, 0));
        }
        let mut p: usize = 0;
        while p < pairs
            invariant
                p <= pairs,
                pairs + 1 == topology@.len(),
                topology_ok(topology@),
                genes_bounded(weights@),
                layers@.len() == p,
                pos as int + req_weights(topology@, p as int) == weights@.len(),
                weights@.len() == req_weights(topology@, 0),
                layers_flat(layers@) == weights@.subrange(0, pos as int),
                forall|i: int|
                    0 <= i < p ==> (#[trigger] layers@[i]).wf(topology@[i] as nat)
                        && layers@[i].neurons@.len() == topology@[i + 1],
            decreases pairs - p,
        {
            proof {
                lemma_req_weights_nonneg(topology@, p as int + 1);
                assert(req_weights(topology@, p as int) == (topology@[p as int] + 1) * (
                topology@[p as int + 1] as int) + req_weights(topology@, p as int + 1));
            }
            let ghost prev = pos as int;
            let ghost prev_ls = layers@;
            let ghost prev_flat = layers_flat(layers@);
            let l = Layer::from_weights(topology[p], topology[p + 1], weights, &mut pos);
            layers.push(l);
            proof {
                assert(layers@.drop_last() =~= prev_ls);
                assert(layers_flat(layers@) == prev_flat + layer_flat(l));
                assert(weights@.subrange(0, prev) + weights@.subrange(prev, pos as int)
                    =~= weights@.subrange(0, pos as int));
            }
            p = p + 1;
        }
        let n = Network { layers };
        proof {
            assert(req_weights(topology@, pairs as int) == 0);
            assert(weights@.subrange(0, pos as int) =~= weights@);
            assert forall|i: int| 0 <= i < n.layers@.len() implies (#[trigger] n.layers@[i]).wf(
                n.arity_at(i),
            ) by {
                assert(n.layers@[i].wf(topology@[i] as nat));
                if i > 0 {
                    assert(n.arity_at(i) == n.layers@[i - 1].neurons@.len());
                } else {
                    assert(n.layers@[0].neurons@[0].wf(topology@[0] as nat));
                }
            }
            assert forall|i: int| 0 <= i < topology@.len() implies n.topology_spec()[i]
                == topology@[i] by {
                if i == 0 {
                    assert(n.layers@[0].neurons@[0].wf(topology@[0] as nat));
                }
            }
        }
        n
    }

    /// Feed an input vector through every layer in order. No layer output is
    /// negative, so in particular the final outputs are all non-negative.
    pub fn propagate(&self, inputs: Vec<i64>) -> (r: Vec<i64>)
        requires
            self.wf(),
            inputs@.len() == self.input_arity(),
            genes_bounded(inputs@),
        ensures
            r@ == self.eval(inputs@),
            r@.len() == self.output_count(),
            forall|i: int| 0 <= i < r@.len() ==> 0 <= #[trigger] r@[i] <= FX_MAX,
    {
        let len = self.layers.len();
        let mut current = inputs;
        proof {
            assert(self.layers@.take(0) =~= Seq::<Layer>::empty());
        }
        let mut k: usize = 0;
        while k < len
            invariant
                k <= len,
                len == self.layers@.len(),
                self.wf(),
                genes_bounded(current@),
                current@ == layers_eval(self.layers@.take(k as int), inputs@),
                current@.len() == self.arity_at(k as int) || (k == len && current@.len()
                    == self.output_count()),
            decreases len - k,
        {
            proof {
                assert(self.layers@[k as int].wf(self.arity_at(k as int)));
            }
            let next = self.layers[k].propagate(&current);
            proof {
                assert(self.layers@.take(k + 1).drop_last() =~= self.layers@.take(k as int));
                assert(self.layers@.take(k + 1).last() == self.layers@[k as int]);
            }
            current = next;
            k = k + 1;
            proof {
                if k < len {
                    assert(current@.len() == self.arity_at(k as int));
                } else {
                    assert(self.layers@.last() == self.layers@[len - 1]);
                }
            }
        }
        proof {
            assert(self.layers@.take(len as int) =~= self.layers@);
        }
        current
    }

    /// The canonical flattening as a vector: every bias then every weight,
    /// layer-major, neuron-major; the exact inverse of `from_weights`.
    pub fn weights(&self) -> (r: Vec<i64>)
        ensures
            r@ == self.flat(),
    {
        let mut out: Vec<i64> = Vec::new();
        let len = self.layers.len();
        proof {
            assert(layers_flat(self.layers@.take(0)) =~= Seq::<i64>::empty());
            assert(out@ =~= layers_flat(self.layers@.take(0)));
        }
        let mut i: usize = 0;
        while i < len
            invariant
                i <= len,
                len == self.layers@.len(),
                out@ == layers_flat(self.layers@.take(i as int)),
            decreases len - i,
        {
            self.layers[i].push_flat(&mut out);
            proof {
                assert(self.layers@.take(i + 1).drop_last() =~= self.layers@.take(i as int));
                assert(self.layers@.take(i + 1).last() == self.layers@[i as int]);
            }
            i = i + 1;
        }
        proof {
            assert(self.layers@.take(len as int) =~= self.layers@);
        }
        out
    }
}

/// Splitting a concatenation at a known length recovers the parts.
proof fn lemma_concat_split<T>(s1: Seq<T>, t1: Seq<T>, s2: Seq<T>, t2: Seq<T>)
    requires
        s1 + t1 == s2 + t2,
        s1.len() == s2.len(),
    ensures
        s1 == s2,
        t1 == t2,
{
    assert forall|i: int| 0 <= i < s1.len() implies s1[i] == s2[i] by {
        assert((s1 + t1)[i] == s1[i]);
        assert((s2 + t2)[i] == s2[i]);
    }
    assert(s1 =~= s2);
    assert((s1 + t1).len() == s1.len() + t1.len());
    assert((s2 + t2).len() == s2.len() + t2.len());
    assert(t1.len() == t2.len());
    assert forall|i: int| 0 <= i < t1.len() implies t1[i] == t2[i] by {
        assert((s1 + t1)[s1.len() + i] == t1[i]);
        assert((s2 + t2)[s2.len() + i] == t2[i]);
    }
    assert(t1 =~= t2);
}

/// A row of `n` neurons of arity `a` flattens to exactly `n * (a + 1)`
/// scalars.
pub proof fn lemma_neurons_flat_len(ns: Seq<Neuron>, a: nat)
    requires
        forall|i: int| 0 <= i < ns.len() ==> (#[trigger] ns[i]).wf(a),
    ensures
        neurons_flat(ns).len() == ns.len() * (a + 1),
    decreases ns.len(),
{
    if ns.len() == 0 {
    } else {
        lemma_neurons_flat_len(ns.drop_last(), a);
        assert(ns.last().wf(a));
        assert((ns.len() - 1) * (a + 1) + (a + 1) == ns.len() * (a + 1)) by (nonlinear_arith);
    }
}

/// Two well-formed neuron rows of the same shape with the same flattening
/// hold the same biases and weights.
proof fn lemma_neurons_flat_inj(ns1: Seq<Neuron>, ns2: Seq<Neuron>, a: nat)
    requires
        ns1.len() == ns2.len(),
        forall|i: int| 0 <= i < ns1.len() ==> (#[trigger] ns1[i]).wf(a),
        forall|i: int| 0 <= i < ns2.len() ==> (#[trigger] ns2[i]).wf(a),
        neurons_flat(ns1) == neurons_flat(ns2),
    ensures
        forall|i: int|
            0 <= i < ns1.len() ==> (#[trigger] ns1[i]).bias == ns2[i].bias && ns1[i].weights@
                == ns2[i].weights@,
    decreases ns1.len(),
{
    if ns1.len() > 0 {
        lemma_neurons_flat_len(ns1.drop_last(), a);
        lemma_neurons_flat_len(ns2.drop_last(), a);
        assert(ns1.last().wf(a) && ns2.last().wf(a));
        lemma_concat_split(
            neurons_flat(ns1.drop_last()),
            neuron_flat(ns1.last()),
            neurons_flat(ns2.drop_last()),
            neuron_flat(ns2.last()),
        );
        lemma_neurons_flat_inj(ns1.drop_last(), ns2.drop_last(), a);
        let f1 = neuron_flat(ns1.last());
        let f2 = neuron_flat(ns2.last());
        assert(ns1.last().bias == f1[0] && ns2.last().bias == f2[0]);
        assert(ns1.last().weights@ =~= f1.subrange(1, f1.len() as int));
        assert(ns2.last().weights@ =~= f2.subrange(1, f2.len() as int));
        assert forall|i: int|
            0 <= i < ns1.len() implies (#[trigger] ns1[i]).bias == ns2[i].bias && ns1[i].weights@
            == ns2[i].weights@ by {
            if i < ns1.len() - 1 {
                assert(ns1.drop_last()[i] == ns1[i]);
                assert(ns2.drop_last()[i] == ns2[i]);
            } else {
                assert(ns1[i] == ns1.last());
                assert(ns2[i] == ns2.last());
            }
        }
    }
}

/// Two well-formed layer chains of the same shape with the same flattening
/// hold the same biases and weights, layer by layer and neuron by neuron.
proof fn lemma_layers_flat_inj(ls1: Seq<Layer>, ls2: Seq<Layer>, ars: Seq<nat>)
    requires
        ls1.len() == ls2.len(),
        ars.len() == ls1.len(),
        forall|i: int| 0 <= i < ls1.len() ==> (#[trigger] ls1[i]).wf(ars[i]),
        forall|i: int| 0 <= i < ls2.len() ==> (#[trigger] ls2[i]).wf(ars[i]),
        forall|i: int|
            0 <= i < ls1.len() ==> (#[trigger] ls1[i]).neurons@.len() == ls2[i].neurons@.len(),
        layers_flat(ls1) == layers_flat(ls2),
    ensures
        forall|i: int, j: int|
            0 <= i < ls1.len() && 0 <= j < ls1[i].neurons@.len() ==> (#[trigger] ls1[i].neurons@[j]).bias
                == ls2[i].neurons@[j].bias && ls1[i].neurons@[j].weights@
                == ls2[i].neurons@[j].weights@,
    decreases ls1.len(),
{
    if ls1.len() > 0 {
        let a = ars.last();
        assert(ls1.last().wf(a) && ls2.last().wf(a));
        lemma_neurons_flat_len(ls1.last().neurons@, a);
        lemma_neurons_flat_len(ls2.last().neurons@, a);
        assert(layers_flat(ls1) == layers_flat(ls1.drop_last()) + layer_flat(ls1.last()));
        assert(layers_flat(ls2) == layers_flat(ls2.drop_last()) + layer_flat(ls2.last()));
        assert(layer_flat(ls1.last()).len() == layer_flat(ls2.last()).len());
        assert(layers_flat(ls1).len() == layers_flat(ls2).len());
        assert(layers_flat(ls1.drop_last()).len() == layers_flat(ls2.drop_last()).len());
        lemma_concat_split(
            layers_flat(ls1.drop_last()),
            layer_flat(ls1.last()),
            layers_flat(ls2.drop_last()),
            layer_flat(ls2.last()),
        );
        lemma_layers_flat_inj(ls1.drop_last(), ls2.drop_last(), ars.drop_last());
        lemma_neurons_flat_inj(ls1.last().neurons@, ls2.last().neurons@, a);
        assert forall|i: int, j: int|
            0 <= i < ls1.len() && 0 <= j
                < ls1[i].neurons@.len() implies (#[trigger] ls1[i].neurons@[j]).bias
            == ls2[i].neurons@[j].bias && ls1[i].neurons@[j].weights@
            == ls2[i].neurons@[j].weights@ by {
            if i < ls1.len() - 1 {
                assert(ls1.drop_last()[i] == ls1[i]);
                assert(ls2.drop_last()[i] == ls2[i]);
            } else {
                assert(ls1[i] == ls1.last());
                assert(ls2[i] == ls2.last());
            }
        }
    } else {
        assert(layers_flat(ls1).len() == 0);
    }
}

/// Round-trip law: a well-formed network is determined, weight for weight,
/// by its topology and its canonical flattening. In particular rebuilding a
/// network from its own `weights()` gives back the same biases and weights
/// everywhere.
pub proof fn lemma_weights_determine_network(a: Network, b: Network)
    requires
        a.wf(),
        b.wf(),
        a.topology_spec() == b.topology_spec(),
        a.flat() == b.flat(),
    ensures
        a.layers@.len() == b.layers@.len(),
        forall|i: int, j: int|
            0 <= i < a.layers@.len() && 0 <= j < a.layers@[i].neurons@.len() ==> (
            #[trigger] a.layers@[i].neurons@[j]).bias == b.layers@[i].neurons@[j].bias
                && a.layers@[i].neurons@[j].weights@ == b.layers@[i].neurons@[j].weights@,
{
    assert(a.topology_spec().len() == b.topology_spec().len());
    assert(a.topology_spec().len() == a.layers@.len() + 1);
    assert(b.topology_spec().len() == b.layers@.len() + 1);
    assert(a.layers@.len() == b.layers@.len());
    let n = a.layers@.len();
    let ars = Seq::new(n as nat, |i: int| a.arity_at(i));
    assert forall|i: int| 0 <= i < n implies (#[trigger] b.layers@[i]).wf(ars[i]) by {
        assert(a.topology_spec()[i] == a.arity_at(i));
        assert(b.topology_spec()[i] == b.arity_at(i));
        assert(a.topology_spec()[i] == b.topology_spec()[i]);
        assert(ars[i] == a.arity_at(i));
        assert(b.layers@[i].wf(b.arity_at(i)));
    }
    assert forall|i: int| 0 <= i < n implies (#[trigger] a.layers@[i]).neurons@.len()
        == b.layers@[i].neurons@.len() by {
        assert(a.topology_spec()[i + 1] == a.arity_at(i + 1));
        assert(b.topology_spec()[i + 1] == b.arity_at(i + 1));
        assert(a.topology_spec()[i + 1] == b.topology_spec()[i + 1]);
        assert(a.arity_at(i + 1) == a.layers@[i].neurons@.len());
        assert(b.arity_at(i + 1) == b.layers@[i].neurons@.len());
    }
    lemma_layers_flat_inj(a.layers@, b.layers@, ars);
}

/// Dropping the last topology entry removes exactly the last pair's cost.
proof fn lemma_req_weights_drop_last(topo: Seq<usize>, i: int)
    requires
        topo.len() >= 2,
        0 <= i <= topo.len() - 2,
    ensures
        req_weights(topo, i) == req_weights(topo.drop_last(), i) + (topo[topo.len() - 2] + 1) * (
        topo[topo.len() - 1] as int),
    decreases topo.len() - i,
{
    if i == topo.len() - 2 {
        assert(req_weights(topo.drop_last(), i) == 0);
        assert(req_weights(topo, i + 1) == 0);
    } else {
        lemma_req_weights_drop_last(topo, i + 1);
        assert(topo.drop_last()[i] == topo[i]);
        assert(topo.drop_last()[i + 1] == topo[i + 1]);
    }
}

/// A chain of layers matching a topology flattens to exactly the weight
/// count the topology demands.
proof fn lemma_layers_flat_len(ls: Seq<Layer>, topo: Seq<usize>)
    requires
        ls.len() >= 1,
        topo.len() == ls.len() + 1,
        forall|i: int| 0 <= i < ls.len() ==> (#[trigger] ls[i]).wf(topo[i] as nat),
        forall|i: int| 0 <= i < ls.len() ==> (#[trigger] ls[i]).neurons@.len() == topo[i + 1],
    ensures
        layers_flat(ls).len() == req_weights(topo, 0),
    decreases ls.len(),
{
    let n = ls.len() as int;
    let last = ls.last();
    let a = topo[n - 1] as nat;
    assert(ls[n - 1].wf(a));
    lemma_neurons_flat_len(last.neurons@, a);
    assert(layer_flat(last).len() == last.neurons@.len() * (a + 1));
    assert(last.neurons@.len() == topo[n]);
    assert(last.neurons@.len() * (a + 1) == (topo[n - 1] + 1) * (topo[n] as int))
        by (nonlinear_arith)
        requires
            a == topo[n - 1],
            last.neurons@.len() == topo[n],
    ;
    if n == 1 {
        assert(layers_flat(ls) == layers_flat(ls.drop_last()) + layer_flat(last));
        assert(layers_flat(ls.drop_last()).len() == 0);
        assert(req_weights(topo, 0) == (topo[0] + 1) * (topo[1] as int) + req_weights(topo, 1));
        assert(req_weights(topo, 1) == 0);
    } else {
        assert forall|i: int| 0 <= i < ls.drop_last().len() implies (
        #[trigger] ls.drop_last()[i]).wf(topo.drop_last()[i] as nat) by {
            assert(ls.drop_last()[i] == ls[i]);
            assert(topo.drop_last()[i] == topo[i]);
            assert(ls[i].wf(topo[i] as nat));
        }
        assert forall|i: int| 0 <= i < ls.drop_last().len() implies (
        #[trigger] ls.drop_last()[i]).neurons@.len() == topo.drop_last()[i + 1] by {
            assert(ls.drop_last()[i] == ls[i]);
            assert(topo.drop_last()[i + 1] == topo[i + 1]);
        }
        lemma_layers_flat_len(ls.drop_last(), topo.drop_last());
        lemma_req_weights_drop_last(topo, 0);
        assert(layers_flat(ls) == layers_flat(ls.drop_last()) + layer_flat(last));
    }
}

/// A well-formed network flattens to exactly the weight count its topology
/// demands.
pub proof fn lemma_flat_len(net: Network, topo: Seq<usize>)
    requires
        net.wf(),
        net.topology_spec().len() == topo.len(),
        forall|i: int| 0 <= i < topo.len() ==> net.topology_spec()[i] == #[trigger] topo[i],
    ensures
        net.flat().len() == req_weights(topo, 0),
{
    let ls = net.layers@;
    assert forall|i: int| 0 <= i < ls.len() implies (#[trigger] ls[i]).wf(topo[i] as nat) by {
        assert(net.topology_spec()[i] == net.arity_at(i));
        assert(net.layers@[i].wf(net.arity_at(i)));
    }
    assert forall|i: int| 0 <= i < ls.len() implies (#[trigger] ls[i]).neurons@.len() == topo[i
        + 1] by {
        assert(net.topology_spec()[i + 1] == net.arity_at(i + 1));
    }
    lemma_layers_flat_len(ls, topo);
}

/// The flattening of well-formed neurons stays in the scalar domain.
proof fn lemma_neurons_flat_bounded(ns: Seq<Neuron>, a: nat)
    requires
        forall|i: int| 0 <= i < ns.len() ==> (#[trigger] ns[i]).wf(a),
    ensures
        genes_bounded(neurons_flat(ns)),
    decreases ns.len(),
{
    if ns.len() > 0 {
        lemma_neurons_flat_bounded(ns.drop_last(), a);
        assert(ns.last().wf(a));
        let f = neurons_flat(ns);
        let p = neurons_flat(ns.drop_last());
        let q = neuron_flat(ns.last());
        assert forall|i: int| 0 <= i < f.len() implies crate::fx::fx_bounded(#[trigger] f[i]) by {
            if i < p.len() {
                assert(f[i] == p[i]);
            } else {
                assert(f[i] == q[i - p.len()]);
                if i - p.len() >= 1 {
                    assert(q[i - p.len()] == ns.last().weights@[i - p.len() - 1]);
                }
            }
        }
    }
}

/// The flattening of a well-formed network stays in the scalar domain.
pub proof fn lemma_flat_bounded(net: Network)
    requires
        net.wf(),
    ensures
        genes_bounded(net.flat()),
    decreases net.layers@.len(),
{
    lemma_layers_flat_bounded(net.layers@, Seq::new(net.layers@.len(), |i: int| net.arity_at(i)));
}

/// The flattening of a chain of well-formed layers stays in the scalar
/// domain.
proof fn lemma_layers_flat_bounded(ls: Seq<Layer>, ars: Seq<nat>)
    requires
        ars.len() == ls.len(),
        forall|i: int| 0 <= i < ls.len() ==> (#[trigger] ls[i]).wf(ars[i]),
    ensures
        genes_bounded(layers_flat(ls)),
    decreases ls.len(),
{
    if ls.len() > 0 {
        assert forall|i: int| 0 <= i < ls.drop_last().len() implies (
        #[trigger] ls.drop_last()[i]).wf(ars.drop_last()[i]) by {
            assert(ls.drop_last()[i] == ls[i]);
            assert(ars.drop_last()[i] == ars[i]);
        }
        lemma_layers_flat_bounded(ls.drop_last(), ars.drop_last());
        assert(ls.last().wf(ars.last()));
        lemma_neurons_flat_bounded(ls.last().neurons@, ars.last());
        let f = layers_flat(ls);
        let p = layers_flat(ls.drop_last());
        let q = layer_flat(ls.last());
        assert forall|i: int| 0 <= i < f.len() implies crate::fx::fx_bounded(#[trigger] f[i]) by {
            if i < p.len() {
                assert(f[i] == p[i]);
            } else {
                assert(f[i] == q[i - p.len()]);
            }
        }
    }
}

/// Chains whose neurons agree bias for bias and weight for weight compute
/// the same outputs on every input.
proof fn lemma_layers_eval_congruent(ls1: Seq<Layer>, ls2: Seq<Layer>, xs: Seq<i64>)
    requires
        ls1.len() == ls2.len(),
        forall|i: int|
            0 <= i < ls1.len() ==> (#[trigger] ls1[i]).neurons@.len() == ls2[i].neurons@.len(),
        forall|i: int, j: int|
            0 <= i < ls1.len() && 0 <= j < ls1[i].neurons@.len() ==> (
            #[trigger] ls1[i].neurons@[j]).bias == ls2[i].neurons@[j].bias
                && ls1[i].neurons@[j].weights@ == ls2[i].neurons@[j].weights@,
    ensures
        layers_eval(ls1, xs) == layers_eval(ls2, xs),
    decreases ls1.len(),
{
    if ls1.len() > 0 {
        let n = ls1.len() as int;
        assert forall|i: int| 0 <= i < ls1.drop_last().len() implies (
        #[trigger] ls1.drop_last()[i]).neurons@.len() == ls2.drop_last()[i].neurons@.len() by {
            assert(ls1.drop_last()[i] == ls1[i]);
            assert(ls2.drop_last()[i] == ls2[i]);
        }
        assert forall|i: int, j: int|
            0 <= i < ls1.drop_last().len() && 0 <= j < ls1.drop_last()[i].neurons@.len() implies (
        #[trigger] ls1.drop_last()[i].neurons@[j]).bias == ls2.drop_last()[i].neurons@[j].bias
            && ls1.drop_last()[i].neurons@[j].weights@
            == ls2.drop_last()[i].neurons@[j].weights@ by {
            assert(ls1.drop_last()[i] == ls1[i]);
            assert(ls2.drop_last()[i] == ls2[i]);
            assert(ls1[i].neurons@[j].bias == ls2[i].neurons@[j].bias && ls1[i].neurons@[j].weights@
                == ls2[i].neurons@[j].weights@);
        }
        lemma_layers_eval_congruent(ls1.drop_last(), ls2.drop_last(), xs);
        let v = layers_eval(ls1.drop_last(), xs);
        assert forall|j: int| 0 <= j < ls1.last().neurons@.len() implies neuron_out(
            ls1.last().neurons@[j],
            v,
        ) == neuron_out(ls2.last().neurons@[j], v) by {
            assert(ls1.last() == ls1[n - 1]);
            assert(ls2.last() == ls2[n - 1]);
            assert(ls1[n - 1].neurons@[j].bias == ls2[n - 1].neurons@[j].bias && ls1[n
                - 1].neurons@[j].weights@ == ls2[n - 1].neurons@[j].weights@);
        }
        assert(layer_eval(ls1.last(), v) =~= layer_eval(ls2.last(), v));
    }
}

/// Round-trip law, output side: two well-formed networks with the same
/// topology and the same canonical flattening — in particular a network and
/// its rebuild from `from_weights(topology, weights())` — compute the same
/// outputs on every input.
pub proof fn lemma_weights_determine_outputs(a: Network, b: Network, xs: Seq<i64>)
    requires
        a.wf(),
        b.wf(),
        a.topology_spec() == b.topology_spec(),
        a.flat() == b.flat(),
    ensures
        a.eval(xs) == b.eval(xs),
{
    lemma_weights_determine_network(a, b);
    assert forall|i: int| 0 <= i < a.layers@.len() implies (#[trigger] a.layers@[i]).neurons@.len()
        == b.layers@[i].neurons@.len() by {
        assert(a.topology_spec()[i + 1] == a.arity_at(i + 1));
        assert(b.topology_spec()[i + 1] == b.arity_at(i + 1));
    }
    lemma_layers_eval_congruent(a.layers@, b.layers@, xs);
}

/// The demanded weight count never goes negative.
pub proof fn lemma_req_weights_nonneg(topo: Seq<usize>, i: int)
    ensures
        req_weights(topo, i) >= 0,
    decreases topo.len() - i,
{
    if 0 <= i && i + 1 < topo.len() {
        lemma_req_weights_nonneg(topo, i + 1);
        assert((topo[i] + 1) * (topo[i + 1] as int) >= 0) by (nonlinear_arith)
            requires
                topo[i] as int >= 0,
                topo[i + 1] as int >= 0,
        ;
    }
}

} // verus!
