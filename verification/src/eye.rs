//! The sensory eye: a fixed row of angular photoreceptor cells, recomputed
//! from scratch every tick from the current food positions.
//!
//! Each visible food adds a cubic-falloff energy to the cell its bearing
//! falls into; afterwards every cell is normalized by the tick's maximum.
//! Distances are taken on the plane, not across the torus seam, matching
//! the world's collision rule.

use vstd::prelude::*;

use crate::config::{Config, MAX_CELLS, MAX_FOODS};
use crate::food::Food;
use crate::fx::SCALE;
use crate::trig::{atan2_spec, atan2_turns, isqrt, sqrt_floor, wrap_spec, HALF_TURN, QUARTER_TURN, TURN};

verus! {

/// Fold an angle difference into the signed half-turn window
/// `[-HALF_TURN, HALF_TURN)`.
pub open spec fn wrap_signed_spec(d: int) -> int {
    if d < -(HALF_TURN as int) {
        d + TURN as int
    } else if d >= HALF_TURN as int {
        d - TURN as int
    } else {
        d
    }
}

/// What one food adds to the eye: the cell its bearing falls into and the
/// cubic-falloff energy, or nothing if it is out of range or out of the
/// field of view.
pub open spec fn food_contrib(cfg: Config, x: int, y: int, rot_eye: int, f: Food) -> Option<
    (int, int),
> {
    let dx = f.x - x;
    let dy = f.y - y;
    let dist = sqrt_floor((dx * dx + dy * dy) as nat) as int;
    if dist >= cfg.eye_fov_range {
        None
    } else {
        let half_fov = (cfg.eye_fov_angle as int) / 2;
        let angle = wrap_signed_spec(atan2_spec(dy, dx) - rot_eye);
        if angle <= -half_fov || angle >= half_fov {
            None
        } else {
            let cell = ((angle + half_fov) * (cfg.eye_cells as int)) / (cfg.eye_fov_angle as int);
            if cell < cfg.eye_cells {
                let d = cfg.eye_fov_range - dist;
                Some((cell, (d * d * d) / ((SCALE as int) * (SCALE as int))))
            } else {
                None
            }
        }
    }
}

/// The per-cell energies accumulated over a food sequence, before
/// normalization.
pub open spec fn raw_energies(cfg: Config, x: int, y: int, rot_eye: int, foods: Seq<Food>) -> Seq<
    int,
>
    decreases foods.len(),
{
    if foods.len() == 0 {
        Seq::new(cfg.eye_cells as nat, |i: int| 0)
    } else {
        let prev = raw_energies(cfg, x, y, rot_eye, foods.drop_last());
        match food_contrib(cfg, x, y, rot_eye, foods.last()) {
            Some(ce) => prev.update(ce.0, prev[ce.0] + ce.1),
            None => prev,
        }
    }
}

/// The largest entry of an energy row (zero for an empty row).
pub open spec fn max_energy(s: Seq<int>) -> int
    decreases s.len(),
{
    if s.len() == 0 {
        0
    } else {
        let m = max_energy(s.drop_last());
        if s.last() > m {
            s.last()
        } else {
            m
        }
    }
}

/// The full eye reading: accumulate every food, then normalize by the
/// maximum cell if any cell saw anything.
pub open spec fn eye_energies(cfg: Config, x: int, y: int, rot: int, foods: Seq<Food>) -> Seq<
    int,
> {
    let rot_eye = wrap_spec(rot + QUARTER_TURN as int, TURN as int);
    let raw = raw_energies(cfg, x, y, rot_eye, foods);
    let m = max_energy(raw);
    if m > 0 {
        raw.map_values(|e: int| (e * (SCALE as int)) / m)
    } else {
        raw
    }
}

/// An energy row always has one entry per photoreceptor cell.
pub proof fn lemma_raw_energies_len(cfg: Config, x: int, y: int, rot_eye: int, foods: Seq<Food>)
    ensures
        raw_energies(cfg, x, y, rot_eye, foods).len() == cfg.eye_cells,
    decreases foods.len(),
{
    if foods.len() > 0 {
        lemma_raw_energies_len(cfg, x, y, rot_eye, foods.drop_last());
    }
}

/// Every entry of an energy row is at most the row's maximum, and the
/// maximum of a non-negative row is non-negative.
pub proof fn lemma_max_energy(s: Seq<int>)
    ensures
        forall|i: int| 0 <= i < s.len() ==> #[trigger] s[i] <= max_energy(s),
        (forall|i: int| 0 <= i < s.len() ==> #[trigger] s[i] >= 0) ==> max_energy(s) >= 0,
    decreases s.len(),
{
    if s.len() > 0 {
        lemma_max_energy(s.drop_last());
        assert forall|i: int| 0 <= i < s.len() implies #[trigger] s[i] <= max_energy(s) by {
            if i < s.len() - 1 {
                assert(s.drop_last()[i] == s[i]);
            }
        }
        if forall|i: int| 0 <= i < s.len() ==> #[trigger] s[i] >= 0 {
            assert(s.last() >= 0);
        }
    }
}

/// An instantaneous perception: one energy per angular cell, in millionths,
/// each within `[0, SCALE]` after normalization.
#[derive(Clone, Debug)]
pub struct Eye {
    pub energies: Vec<u64>,
}

impl Eye {
    /// A blank eye sized for the configured cell count.
    pub fn new(config: &Config) -> (e: Eye)
        requires
            config.valid(),
        ensures
            e.energies@.len() == config.eye_cells,
            forall|c: int| 0 <= c < e.energies@.len() ==> #[trigger] e.energies@[c] == 0,
    {
        let mut energies: Vec<u64> = Vec::new();
        let mut i: usize = 0;
        while i < config.eye_cells
            invariant
                i <= config.eye_cells,
                energies@.len() == i,
                forall|c: int| 0 <= c < i ==> #[trigger] energies@[c] == 0,
            decreases config.eye_cells - i,
        {
            energies.push(0);
            i = i + 1;
        }
        Eye { energies }
    }

    /// The current per-cell energies.
    pub fn energies(&self) -> (r: &Vec<u64>)
        ensures
            r@ == self.energies@,
    {
        &self.energies
    }

    /// Recompute the reading from scratch for the given pose and foods.
    pub fn step(&mut self, config: &Config, foods: &Vec<Food>, x: i64, y: i64, rotation: i64)
        requires
            config.valid(),
            old(self).energies@.len() == config.eye_cells,
            foods@.len() <= MAX_FOODS,
            forall|i: int| 0 <= i < foods@.len() ==> (#[trigger] foods@[i]).valid(),
            0 <= x < SCALE,
            0 <= y < SCALE,
            0 <= rotation < TURN,
        ensures
            final(self).energies@.len() == config.eye_cells,
            forall|c: int|
                0 <= c < config.eye_cells ==> #[trigger] final(self).energies@[c] as int
                    == eye_energies(*config, x as int, y as int, rotation as int, foods@)[c],
            forall|c: int|
                0 <= c < config.eye_cells ==> 0 <= #[trigger] final(self).energies@[c]
                    <= SCALE as u64,
    {
        let cells = config.eye_cells;
        let rot_eye: i64 = if rotation + QUARTER_TURN >= TURN {
            rotation + QUARTER_TURN - TURN
        } else {
            rotation + QUARTER_TURN
        };
        let ghost grot = rot_eye as int;
        let mut cur: Vec<u64> = Vec::new();
        let mut z: usize = 0;
        while z < cells
            invariant
                z <= cells,
                cur@.len() == z,
                forall|c: int| 0 <= c < z ==> #[trigger] cur@[c] == 0,
            decreases cells - z,
        {
            cur.push(0);
            z = z + 1;
        }
        proof {
            assert forall|c: int| 0 <= c < cells implies #[trigger] cur@[c] as int == raw_energies(
                *config,
                x as int,
                y as int,
                grot,
                foods@.take(0),
            )[c] by {
                assert(foods@.take(0) =~= Seq::<Food>::empty());
            }
        }
        let flen = foods.len();
        let mut i: usize = 0;
        while i < flen
            invariant
                i <= flen,
                flen == foods@.len(),
                foods@.len() <= MAX_FOODS,
                config.valid(),
                cells == config.eye_cells,
                0 <= x < SCALE,
                0 <= y < SCALE,
                0 <= grot < TURN,
                rot_eye == grot,
                forall|k: int| 0 <= k < foods@.len() ==> (#[trigger] foods@[k]).valid(),
                cur@.len() == cells,
                forall|c: int|
                    0 <= c < cells ==> #[trigger] cur@[c] as int == raw_energies(
                        *config,
                        x as int,
                        y as int,
                        grot,
                        foods@.take(i as int),
                    )[c],
                forall|c: int| 0 <= c < cells ==> #[trigger] cur@[c] <= (i as u64) * (SCALE as u64),
            decreases flen - i,
        {
            let ghost prev_raw = raw_energies(*config, x as int, y as int, grot, foods@.take(i as int));
            proof {
                lemma_raw_energies_len(*config, x as int, y as int, grot, foods@.take(i as int));
                lemma_raw_energies_len(*config, x as int, y as int, grot, foods@.take(i + 1));
                assert(foods@.take(i + 1).drop_last() =~= foods@.take(i as int));
                assert(foods@.take(i + 1).last() == foods@[i as int]);
                assert((i as int) * (SCALE as int) + SCALE as int == (i as int + 1) * (
                SCALE as int)) by (nonlinear_arith);
                assert((i as int + 1) * (SCALE as int) <= (MAX_FOODS as int) * (SCALE as int))
                    by (nonlinear_arith)
                    requires
                        i as int + 1 <= MAX_FOODS as int,
                ;
            }
            let f = &foods[i];
            let dx = f.x - x;
            let dy = f.y - y;
            proof {
                assert(0 <= dx * dx <= (SCALE as int) * (SCALE as int)) by (nonlinear_arith)
                    requires
                        -(SCALE as int) <= dx as int <= SCALE as int,
                ;
                assert(0 <= dy * dy <= (SCALE as int) * (SCALE as int)) by (nonlinear_arith)
                    requires
                        -(SCALE as int) <= dy as int <= SCALE as int,
                ;
            }
            let d2: i64 = dx * dx + dy * dy;
            let dist64 = isqrt(d2 as u64);
            proof {
                assert(dist64 as int * dist64 as int <= d2 as int);
                assert(dist64 <= 2_000_000) by (nonlinear_arith)
                    requires
                        dist64 as int * dist64 as int <= d2 as int,
                        d2 as int <= 2 * (SCALE as int) * (SCALE as int),
                ;
            }
            let dist = dist64 as i64;
            if dist < config.eye_fov_range {
                let half_fov: i64 = ((config.eye_fov_angle as u64) / 2) as i64;
                let bearing = atan2_turns(dy, dx);
                let diff = bearing - rot_eye;
                let angle: i64 = if diff < -HALF_TURN {
                    diff + TURN
                } else if diff >= HALF_TURN {
                    diff - TURN
                } else {
                    diff
                };
                if angle > -half_fov && angle < half_fov {
                    proof {
                        assert(0 <= (angle + half_fov) * (cells as int) && (angle + half_fov) * (
                        cells as int) <= (TURN as int) * (MAX_CELLS as int)) by (nonlinear_arith)
                            requires
                                0 <= angle + half_fov <= TURN as int,
                                0 <= cells as int <= MAX_CELLS as int,
                        ;
                    }
                    let num: u64 = ((angle + half_fov) as u64) * (cells as u64);
                    let cell64 = num / (config.eye_fov_angle as u64);
                    if cell64 < cells as u64 {
                        let cell = cell64 as usize;
                        let gap: u64 = (config.eye_fov_range - dist) as u64;
                        proof {
                            assert(gap as int * gap as int <= (SCALE as int) * (SCALE as int))
                                by (nonlinear_arith)
                                requires
                                    0 <= gap as int <= SCALE as int,
                            ;
                            assert(gap as int * gap as int * gap as int <= (SCALE as int) * (
                            SCALE as int) * (SCALE as int)) by (nonlinear_arith)
                                requires
                                    0 <= gap as int <= SCALE as int,
                            ;
                        }
                        let cube: u64 = gap * gap * gap;
                        let inc: u64 = cube / ((SCALE as u64) * (SCALE as u64));
                        proof {
                            vstd::arithmetic::div_mod::lemma_div_is_ordered(
                                cube as int,
                                (SCALE as int) * (SCALE as int) * (SCALE as int),
                                (SCALE as int) * (SCALE as int),
                            );
                            assert(((SCALE as int) * (SCALE as int) * (SCALE as int)) / ((
                            SCALE as int) * (SCALE as int)) == SCALE as int) by {
                                vstd::arithmetic::div_mod::lemma_div_multiples_vanish(
                                    SCALE as int,
                                    (SCALE as int) * (SCALE as int),
                                );
                                assert((SCALE as int) * (SCALE as int) * (SCALE as int) == ((
                                SCALE as int) * (SCALE as int)) * (SCALE as int))
                                    by (nonlinear_arith);
                            }
                            assert(inc as int <= SCALE as int);
                        }
                        let old_e = cur[cell];
                        cur.set(cell, old_e + inc);
                        proof {
                            let seen = food_contrib(
                                *config,
                                x as int,
                                y as int,
                                grot,
                                foods@[i as int],
                            );
                            assert(seen == Some((cell as int, inc as int)));
                            assert(raw_energies(
                                *config,
                                x as int,
                                y as int,
                                grot,
                                foods@.take(i + 1),
                            ) =~= prev_raw.update(cell as int, prev_raw[cell as int] + inc as int));
                        }
                    } else {
                        proof {
                            assert(food_contrib(
                                *config,
                                x as int,
                                y as int,
                                grot,
                                foods@[i as int],
                            ) is None);
                        }
                    }
                } else {
                    proof {
                        assert(food_contrib(*config, x as int, y as int, grot, foods@[i as int])
                            is None);
                    }
                }
            } else {
                proof {
                    assert(food_contrib(*config, x as int, y as int, grot, foods@[i as int])
                        is None);
                }
            }
            i = i + 1;
        }
        proof {
            assert(foods@.take(flen as int) =~= foods@);
            lemma_raw_energies_len(*config, x as int, y as int, grot, foods@);
        }
        let ghost raw = raw_energies(*config, x as int, y as int, grot, foods@);
        let mut m: u64 = 0;
        let mut k: usize = 0;
        while k < cells
            invariant
                k <= cells,
                cells == config.eye_cells,
                cur@.len() == cells,
                forall|c: int| 0 <= c < cells ==> #[trigger] cur@[c] as int == raw[c],
                raw.len() == cells,
                m as int == max_energy(raw.take(k as int)),
                forall|c: int|
                    0 <= c < cells ==> #[trigger] cur@[c] <= (flen as u64) * (SCALE as u64),
                flen <= MAX_FOODS,
            decreases cells - k,
        {
            proof {
                assert(raw.take(k + 1).drop_last() =~= raw.take(k as int));
                assert(raw.take(k + 1).last() == raw[k as int]);
            }
            let e = cur[k];
            if e > m {
                m = e;
            }
            k = k + 1;
        }
        proof {
            assert(raw.take(cells as int) =~= raw);
            lemma_max_energy(raw);
        }
        if m > 0 {
            let mut c: usize = 0;
            while c < cells
                invariant
                    c <= cells,
                    cells == config.eye_cells,
                    cur@.len() == cells,
                    m > 0,
                    m as int == max_energy(raw),
                    raw.len() == cells,
                    forall|j: int| 0 <= j < raw.len() ==> #[trigger] raw[j] <= m as int,
                    forall|j: int| c <= j < cells ==> #[trigger] cur@[j] as int == raw[j],
                    forall|j: int|
                        0 <= j < c ==> #[trigger] cur@[j] as int == (raw[j] * (SCALE as int)) / (
                        m as int),
                    forall|j: int| 0 <= j < c ==> #[trigger] cur@[j] <= SCALE as u64,
                    flen <= MAX_FOODS,
                    forall|j: int|
                        c <= j < cells ==> #[trigger] cur@[j] <= (flen as u64) * (SCALE as u64),
                decreases cells - c,
            {
                let e = cur[c];
                proof {
                    assert(e as int * (SCALE as int) <= (m as int) * (SCALE as int))
                        by (nonlinear_arith)
                        requires
                            0 <= e as int <= m as int,
                            SCALE as int > 0,
                    ;
                    vstd::arithmetic::div_mod::lemma_div_is_ordered(
                        e as int * (SCALE as int),
                        (m as int) * (SCALE as int),
                        m as int,
                    );
                    vstd::arithmetic::div_mod::lemma_div_multiples_vanish(SCALE as int, m as int);
                    assert((m as int) * (SCALE as int) == (m as int) * (SCALE as int));
                    assert((e as int * (SCALE as int)) / (m as int) <= SCALE as int);
                    assert((flen as int) * (SCALE as int) <= (MAX_FOODS as int) * (SCALE as int))
                        by (nonlinear_arith)
                        requires
                            flen as int <= MAX_FOODS as int,
                    ;
                }
                let scaled = (e * (SCALE as u64)) / m;
                cur.set(c, scaled);
                c = c + 1;
            }
            self.energies = cur;
        } else {
            proof {
                assert forall|j: int| 0 <= j < cells implies #[trigger] cur@[j] == 0 by {
                    assert(raw[j] <= max_energy(raw));
                }
            }
            self.energies = cur;
        }
    }
}

} // verus!
