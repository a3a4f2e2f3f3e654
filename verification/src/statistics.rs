//! Population statistics: the read-only snapshot of one generation's
//! fitness distribution, taken just before evolution replaces it.

use vstd::prelude::*;

use vstd::multiset::Multiset;
use vstd::relations::{sorted_by, total_ordering};
use vstd::seq_lib::lemma_sorted_unique;

use crate::individual::Individual;

verus! {

/// The ordering statistics are taken in: plain `<=` on fitness values.
pub open spec fn fit_leq() -> spec_fn(u64, u64) -> bool {
    |a: u64, b: u64| a <= b
}

/// The fitness values of a population, in order.
pub open spec fn fitness_seq<I: Individual>(pop: Seq<I>) -> Seq<u64> {
    pop.map_values(|ind: I| ind.fitness_spec())
}

/// Sum of a fitness sequence.
pub open spec fn sum_of(s: Seq<u64>) -> int
    decreases s.len(),
{
    if s.len() == 0 {
        0
    } else {
        sum_of(s.drop_last()) + s.last()
    }
}

/// The fitness sequence in ascending order.
pub open spec fn sorted_fits(s: Seq<u64>) -> Seq<u64> {
    s.sort_by(fit_leq())
}

/// The median: the central element of the sorted sequence, or for even
/// lengths the floored mean of the two central elements.
pub open spec fn median_of(s: Seq<u64>) -> int {
    let t = sorted_fits(s);
    if s.len() % 2 == 0 {
        (t[s.len() as int / 2 - 1] + t[s.len() as int / 2]) / 2
    } else {
        t[s.len() as int / 2] as int
    }
}

/// Min, max, average (floored), median (floored) and sum of one
/// generation's fitness values; never mutated after construction.
///
/// [`Statistics::describes`] states exactly what a snapshot says of a
/// fitness sequence.
#[derive(Clone, Debug)]
pub struct Statistics {
    min_fitness: u64,
    max_fitness: u64,
    avg_fitness: u64,
    median_fitness: u64,
    sum_fitness: u128,
}

impl Statistics {
    /// The recorded minimum.
    pub closed spec fn min_spec(&self) -> u64 {
        self.min_fitness
    }

    /// The recorded maximum.
    pub closed spec fn max_spec(&self) -> u64 {
        self.max_fitness
    }

    /// The recorded average.
    pub closed spec fn avg_spec(&self) -> u64 {
        self.avg_fitness
    }

    /// The recorded median.
    pub closed spec fn median_spec(&self) -> u64 {
        self.median_fitness
    }

    /// The recorded sum.
    pub closed spec fn sum_spec(&self) -> u128 {
        self.sum_fitness
    }

    /// The snapshot records exactly the distribution of `fits`: the attained
    /// minimum and maximum, the exact sum, the floored average, and the
    /// floored median of the sorted sequence.
    pub open spec fn describes(&self, fits: Seq<u64>) -> bool {
        &&& fits.len() >= 1
        &&& (exists|i: int| 0 <= i < fits.len() && fits[i] == self.min_spec())
        &&& (forall|i: int| 0 <= i < fits.len() ==> self.min_spec() <= #[trigger] fits[i])
        &&& (exists|i: int| 0 <= i < fits.len() && fits[i] == self.max_spec())
        &&& (forall|i: int| 0 <= i < fits.len() ==> #[trigger] fits[i] <= self.max_spec())
        &&& self.sum_spec() as int == sum_of(fits)
        &&& self.avg_spec() as int == sum_of(fits) / fits.len() as int
        &&& self.median_spec() as int == median_of(fits)
    }

    /// Take the statistics of a non-empty population: exact minimum,
    /// maximum, floored average, floored median and sum of its fitnesses.
    pub fn new<I: Individual>(population: &Vec<I>) -> (st: Statistics)
        requires
            population@.len() >= 1,
        ensures
            st.describes(fitness_seq(population@)),
    {
        let len = population.len();
        let mut fits: Vec<u64> = Vec::new();
        let mut i: usize = 0;
        while i < len
            invariant
                i <= len,
                len == population@.len(),
                fits@.len() == i,
                forall|k: int|
                    0 <= k < i ==> fits@[k] == fitness_seq(population@)[k],
            decreases len - i,
        {
            let f = population[i].fitness();
            fits.push(f);
            i = i + 1;
        }
        proof {
            assert(fits@ =~= fitness_seq(population@));
        }
        stats_of_fits(&fits)
    }

    /// The lowest fitness in the population.
    pub fn min_fitness(&self) -> (r: u64)
        ensures
            r == self.min_spec(),
    {
        self.min_fitness
    }

    /// The highest fitness in the population.
    pub fn max_fitness(&self) -> (r: u64)
        ensures
            r == self.max_spec(),
    {
        self.max_fitness
    }

    /// The floored mean fitness.
    pub fn avg_fitness(&self) -> (r: u64)
        ensures
            r == self.avg_spec(),
    {
        self.avg_fitness
    }

    /// The floored median fitness.
    pub fn median_fitness(&self) -> (r: u64)
        ensures
            r == self.median_spec(),
    {
        self.median_fitness
    }

    /// The total fitness.
    pub fn sum_fitness(&self) -> (r: u128)
        ensures
            r == self.sum_spec(),
    {
        self.sum_fitness
    }
}

/// Compute the five statistics of a non-empty fitness vector.
fn stats_of_fits(fits: &Vec<u64>) -> (st: Statistics)
    requires
        fits@.len() >= 1,
    ensures
        st.describes(fits@),
{
    let len = fits.len();
    let mut min: u64 = fits[0];
    let mut max: u64 = fits[0];
    let mut sum: u128 = 0;
    proof {
        assert(sum as int == sum_of(fits@.take(0)));
    }
    let mut i: usize = 0;
    while i < len
        invariant
            i <= len,
            len == fits@.len(),
            len >= 1,
            sum as int == sum_of(fits@.take(i as int)),
            0 <= sum as int <= (i as int) * (u64::MAX as int),
            exists|k: int| 0 <= k < len && fits@[k] == min,
            exists|k: int| 0 <= k < len && fits@[k] == max,
            forall|k: int| 0 <= k < i ==> min <= #[trigger] fits@[k],
            forall|k: int| 0 <= k < i ==> #[trigger] fits@[k] <= max,
        decreases len - i,
    {
        proof {
            assert(fits@.take(i + 1).drop_last() =~= fits@.take(i as int));
            assert((i as int) * (u64::MAX as int) + u64::MAX as int == (i as int + 1) * (
            u64::MAX as int)) by (nonlinear_arith);
            assert((i as int + 1) * (u64::MAX as int) <= (len as int) * (u64::MAX as int))
                by (nonlinear_arith)
                requires
                    i as int + 1 <= len as int,
            ;
            assert((len as int) * (u64::MAX as int) < u128::MAX) by (nonlinear_arith)
                requires
                    len as int <= usize::MAX as int,
            ;
        }
        let f = fits[i];
        sum = sum + (f as u128);
        if f < min {
            min = f;
        }
        if f > max {
            max = f;
        }
        i = i + 1;
    }
    proof {
        assert(fits@.take(len as int) =~= fits@);
    }
    let avg = (sum / (len as u128)) as u64;
    proof {
        lemma_sum_le_len_times_max(fits@, max);
        vstd::arithmetic::div_mod::lemma_div_is_ordered(
            sum as int,
            (len as int) * (max as int),
            len as int,
        );
        vstd::arithmetic::div_mod::lemma_div_multiples_vanish(max as int, len as int);
        assert((len as int) * (max as int) == (max as int) * (len as int)) by (nonlinear_arith);
        assert(sum as int / len as int <= max as int);
    }
    let sorted = sort_fitnesses(fits);
    let median: u64 = if len % 2 == 0 {
        let a = sorted[len / 2 - 1];
        let b = sorted[len / 2];
        proof {
            vstd::arithmetic::div_mod::lemma_div_is_ordered(
                a as int + b as int,
                2 * (u64::MAX as int),
                2,
            );
            vstd::arithmetic::div_mod::lemma_div_multiples_vanish(u64::MAX as int, 2);
        }
        (((a as u128) + (b as u128)) / 2) as u64
    } else {
        sorted[len / 2]
    };
    Statistics { min_fitness: min, max_fitness: max, avg_fitness: avg, median_fitness: median, sum_fitness: sum }
}

/// A sum of fitnesses is at most the count times any upper bound.
proof fn lemma_sum_le_len_times_max(s: Seq<u64>, m: u64)
    requires
        forall|k: int| 0 <= k < s.len() ==> #[trigger] s[k] <= m,
    ensures
        sum_of(s) <= s.len() * (m as int),
    decreases s.len(),
{
    if s.len() > 0 {
        lemma_sum_le_len_times_max(s.drop_last(), m);
        assert(s.last() <= m);
        assert((s.len() - 1) * (m as int) + m as int == s.len() * (m as int)) by (nonlinear_arith);
    }
}

/// Sort a fitness vector ascending: the result is exactly the canonical
/// sorted permutation `sort_by` describes.
fn sort_fitnesses(v: &Vec<u64>) -> (out: Vec<u64>)
    ensures
        out@ == v@.sort_by(fit_leq()),
        out@.len() == v@.len(),
{
    broadcast use vstd::seq_lib::group_to_multiset_ensures;

    let mut work: Vec<u64> = Vec::new();
    let len = v.len();
    let mut i: usize = 0;
    while i < len
        invariant
            i <= len,
            len == v@.len(),
            work@ == v@.take(i as int),
        decreases len - i,
    {
        work.push(v[i]);
        proof {
            assert(work@ =~= v@.take(i + 1));
        }
        i = i + 1;
    }
    proof {
        assert(work@ =~= v@);
    }
    let mut out: Vec<u64> = Vec::new();
    while work.len() > 0
        invariant
            out@.to_multiset().add(work@.to_multiset()) == v@.to_multiset(),
            out@.len() + work@.len() == v@.len(),
            sorted_by(out@, fit_leq()),
            forall|a: int, b: int|
                0 <= a < out@.len() && 0 <= b < work@.len() ==> #[trigger] out@[a]
                    <= #[trigger] work@[b],
        decreases work.len(),
    {
        let mut m: usize = 0;
        let wlen = work.len();
        let mut j: usize = 1;
        while j < wlen
            invariant
                m < j <= wlen,
                wlen == work@.len(),
                forall|k: int| 0 <= k < j ==> work@[m as int] <= #[trigger] work@[k],
            decreases wlen - j,
        {
            if work[j] < work[m] {
                m = j;
            }
            j = j + 1;
        }
        let ghost prev_out = out@;
        let ghost prev_work = work@;
        let x = work.remove(m);
        out.push(x);
        proof {
            assert(out@ == prev_out.push(x));
            assert(work@ == prev_work.remove(m as int));
            prev_out.to_multiset_ensures();
            prev_work.to_multiset_ensures();
            assert(prev_out.push(x).to_multiset() =~= prev_out.to_multiset().insert(x));
            assert(prev_work.remove(m as int).to_multiset() =~= prev_work.to_multiset().remove(
                prev_work[m as int],
            ));
            assert(out@.to_multiset() =~= prev_out.to_multiset().insert(x));
            assert(work@.to_multiset() =~= prev_work.to_multiset().remove(x));
            assert(prev_work.to_multiset().count(x) > 0);
            assert(out@.to_multiset().add(work@.to_multiset()) =~= v@.to_multiset());
            assert forall|a: int, b: int|
                0 <= a < out@.len() && 0 <= b < work@.len() implies #[trigger] out@[a]
                <= #[trigger] work@[b] by {
                if a < prev_out.len() {
                    assert(prev_work[if b < m { b } else { b + 1 }] == work@[b]);
                } else {
                    assert(out@[a] == x);
                    assert(work@[b] == prev_work[if b < m { b } else { b + 1 }]);
                }
            }
            assert forall|p: int, q: int| 0 <= p < q < out@.len() implies fit_leq()(
                out@[p],
                out@[q],
            ) by {
                if q < prev_out.len() {
                    assert(out@[p] == prev_out[p] && out@[q] == prev_out[q]);
                    assert(fit_leq()(prev_out[p], prev_out[q]));
                } else {
                    assert(out@[q] == x);
                    assert(x == prev_work[m as int]);
                    assert(prev_out[p] <= prev_work[m as int]);
                }
            }
            assert(sorted_by(out@, fit_leq()));
        }
    }
    proof {
        assert(work@.to_multiset() =~= Multiset::<u64>::empty());
        assert(out@.to_multiset() =~= v@.to_multiset());
        v@.lemma_sort_by_ensures(fit_leq());
        assert(total_ordering(fit_leq()));
        lemma_sorted_unique(out@, v@.sort_by(fit_leq()), fit_leq());
        assert(out@ =~= v@.sort_by(fit_leq()));
    }
    out
}

} // verus!
