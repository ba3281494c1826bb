//! The quantized climate space and biome parameter lists.
//!
//! Climate coordinates are quantized integers: ten-thousandths of the
//! sampled value after truncation to single precision.  A parameter list
//! maps 6-axis closed intervals to biomes; lookup returns the entry
//! closest to a target under a squared-distance metric that is zero
//! inside an interval and the squared gap outside, plus the entry's
//! squared offset; ties go to the earliest entry.
//!
//! The warm-start cache remembers the last winning index; a lookup
//! through it returns a closest entry for every cache state, so the
//! cache is a pure performance device.

use vstd::prelude::*;

verus! {

/// Coordinates are kept within this magnitude so that squared distances
/// and their sums stay exact in wide arithmetic.
pub const COORD_BOUND: i64 = 0x8000_0000;

/// A quantized 6-axis climate coordinate.
pub struct TargetPoint {
    /// Temperature.
    pub temperature: i64,
    /// Humidity (vegetation).
    pub humidity: i64,
    /// Continentalness.
    pub continentalness: i64,
    /// Erosion.
    pub erosion: i64,
    /// Depth.
    pub depth: i64,
    /// Weirdness (ridges).
    pub weirdness: i64,
}

/// A closed interval on one climate axis.
pub struct Parameter {
    /// Inclusive lower bound.
    pub min: i64,
    /// Inclusive upper bound.
    pub max: i64,
}

/// A 6-axis parameter box with its selection offset.
pub struct ParameterPoint {
    /// Temperature interval.
    pub temperature: Parameter,
    /// Humidity interval.
    pub humidity: Parameter,
    /// Continentalness interval.
    pub continentalness: Parameter,
    /// Erosion interval.
    pub erosion: Parameter,
    /// Depth interval.
    pub depth: Parameter,
    /// Weirdness interval.
    pub weirdness: Parameter,
    /// Offset term, added (squared) to every distance.
    pub offset: i64,
}

/// Whether a coordinate stays within the exactness bound.
pub open spec fn coord_ok(v: i64) -> bool {
    -COORD_BOUND <= v <= COORD_BOUND
}

/// Whether every coordinate of a target stays within the bound.
pub open spec fn target_ok(t: TargetPoint) -> bool {
    coord_ok(t.temperature) && coord_ok(t.humidity) && coord_ok(t.continentalness) && coord_ok(
        t.erosion,
    ) && coord_ok(t.depth) && coord_ok(t.weirdness)
}

/// Whether an interval stays within the bound.
pub open spec fn param_ok(p: Parameter) -> bool {
    coord_ok(p.min) && coord_ok(p.max)
}

/// Whether a parameter box stays within the bound.
pub open spec fn point_ok(pp: ParameterPoint) -> bool {
    param_ok(pp.temperature) && param_ok(pp.humidity) && param_ok(pp.continentalness) && param_ok(
        pp.erosion,
    ) && param_ok(pp.depth) && param_ok(pp.weirdness) && coord_ok(pp.offset)
}

/// Distance of a value to an interval: zero inside, the gap outside.
pub open spec fn param_dist(p: Parameter, v: int) -> int {
    if v < p.min {
        p.min - v
    } else if v > p.max {
        v - p.max
    } else {
        0
    }
}

/// The squared-distance fitness of a target against a parameter box:
/// the per-axis squared gaps plus the squared offset.
pub open spec fn fitness(pp: ParameterPoint, t: TargetPoint) -> int {
    param_dist(pp.temperature, t.temperature as int) * param_dist(
        pp.temperature,
        t.temperature as int,
    ) + param_dist(pp.humidity, t.humidity as int) * param_dist(pp.humidity, t.humidity as int)
        + param_dist(pp.continentalness, t.continentalness as int) * param_dist(
        pp.continentalness,
        t.continentalness as int,
    ) + param_dist(pp.erosion, t.erosion as int) * param_dist(pp.erosion, t.erosion as int)
        + param_dist(pp.depth, t.depth as int) * param_dist(pp.depth, t.depth as int) + param_dist(
        pp.weirdness,
        t.weirdness as int,
    ) * param_dist(pp.weirdness, t.weirdness as int) + (pp.offset as int) * (pp.offset as int)
}

impl TargetPoint {
    /// Builds a target point from its six quantized coordinates.
    pub fn new(
        temperature: i64,
        humidity: i64,
        continentalness: i64,
        erosion: i64,
        depth: i64,
        weirdness: i64,
    ) -> (t: TargetPoint)
        ensures
            t == (TargetPoint {
                temperature,
                humidity,
                continentalness,
                erosion,
                depth,
                weirdness,
            }),
    {
        TargetPoint { temperature, humidity, continentalness, erosion, depth, weirdness }
    }
}

impl Parameter {
    /// Builds an interval from its bounds.
    pub fn new(min: i64, max: i64) -> (p: Parameter)
        ensures
            p == (Parameter { min, max }),
    {
        Parameter { min, max }
    }
}

impl ParameterPoint {
    /// Builds a parameter box.
    pub fn new(
        temperature: Parameter,
        humidity: Parameter,
        continentalness: Parameter,
        erosion: Parameter,
        depth: Parameter,
        weirdness: Parameter,
        offset: i64,
    ) -> (p: ParameterPoint)
        ensures
            p == (ParameterPoint {
                temperature,
                humidity,
                continentalness,
                erosion,
                depth,
                weirdness,
                offset,
            }),
    {
        ParameterPoint { temperature, humidity, continentalness, erosion, depth, weirdness, offset }
    }
}

/// Computes the distance of a value to an interval.
fn param_dist_exec(p: &Parameter, v: i64) -> (d: i64)
    requires
        param_ok(*p),
        coord_ok(v),
    ensures
        d == param_dist(*p, v as int),
        0 <= d <= 4 * COORD_BOUND,
{
    if v < p.min {
        p.min - v
    } else if v > p.max {
        v - p.max
    } else {
        0
    }
}

/// Computes the fitness of a target against a parameter box, exactly,
/// in wide arithmetic.
fn fitness_exec(pp: &ParameterPoint, t: &TargetPoint) -> (f: i128)
    requires
        point_ok(*pp),
        target_ok(*t),
    ensures
        f == fitness(*pp, *t),
        f >= 0,
{
    let d0 = param_dist_exec(&pp.temperature, t.temperature);
    let d1 = param_dist_exec(&pp.humidity, t.humidity);
    let d2 = param_dist_exec(&pp.continentalness, t.continentalness);
    let d3 = param_dist_exec(&pp.erosion, t.erosion);
    let d4 = param_dist_exec(&pp.depth, t.depth);
    let d5 = param_dist_exec(&pp.weirdness, t.weirdness);
    let off = pp.offset;
    proof {
        assert((d0 as i128) * (d0 as i128) <= 0x4_0000_0000_0000_0000 && (d0 as i128) * (
        d0 as i128) >= 0) by (nonlinear_arith)
            requires
                0 <= d0 <= 0x2_0000_0000,
        ;
        assert((d1 as i128) * (d1 as i128) <= 0x4_0000_0000_0000_0000 && (d1 as i128) * (
        d1 as i128) >= 0) by (nonlinear_arith)
            requires
                0 <= d1 <= 0x2_0000_0000,
        ;
        assert((d2 as i128) * (d2 as i128) <= 0x4_0000_0000_0000_0000 && (d2 as i128) * (
        d2 as i128) >= 0) by (nonlinear_arith)
            requires
                0 <= d2 <= 0x2_0000_0000,
        ;
        assert((d3 as i128) * (d3 as i128) <= 0x4_0000_0000_0000_0000 && (d3 as i128) * (
        d3 as i128) >= 0) by (nonlinear_arith)
            requires
                0 <= d3 <= 0x2_0000_0000,
        ;
        assert((d4 as i128) * (d4 as i128) <= 0x4_0000_0000_0000_0000 && (d4 as i128) * (
        d4 as i128) >= 0) by (nonlinear_arith)
            requires
                0 <= d4 <= 0x2_0000_0000,
        ;
        assert((d5 as i128) * (d5 as i128) <= 0x4_0000_0000_0000_0000 && (d5 as i128) * (
        d5 as i128) >= 0) by (nonlinear_arith)
            requires
                0 <= d5 <= 0x2_0000_0000,
        ;
        assert((off as i128) * (off as i128) <= 0x4_0000_0000_0000_0000 && (off as i128) * (
        off as i128) >= 0) by (nonlinear_arith)
            requires
                -0x1_0000_0000 <= off <= 0x1_0000_0000,
        ;
    }
    (d0 as i128) * (d0 as i128) + (d1 as i128) * (d1 as i128) + (d2 as i128) * (d2 as i128) + (
    d3 as i128) * (d3 as i128) + (d4 as i128) * (d4 as i128) + (d5 as i128) * (d5 as i128) + (
    off as i128) * (off as i128)
}

/// A fixed list of parameter boxes with the biomes they map to, searched
/// by nearest neighbour.
pub struct ParameterList<B> {
    entries: Vec<(ParameterPoint, B)>,
}

impl<B> ParameterList<B> {
    /// The entries in order.
    pub closed spec fn view(&self) -> Seq<(ParameterPoint, B)> {
        self.entries@
    }

    /// Every entry within the coordinate bound.
    pub open spec fn wf(&self) -> bool {
        forall|i: int| 0 <= i < self@.len() ==> point_ok(#[trigger] self@[i].0)
    }

    /// Builds a list from its entries.
    pub fn new(entries: Vec<(ParameterPoint, B)>) -> (l: ParameterList<B>)
        ensures
            l@ == entries@,
    {
        ParameterList { entries }
    }

    /// Number of entries.
    pub fn len(&self) -> (n: usize)
        ensures
            n == self@.len(),
    {
        self.entries.len()
    }

    /// The biome of the entry closest to `target`; among equally close
    /// entries the earliest wins.
    pub fn find_value(&self, target: &TargetPoint) -> (r: &B)
        requires
            self.wf(),
            self@.len() > 0,
            target_ok(*target),
        ensures
            exists|i: int|
                {
                    &&& 0 <= i < self@.len()
                    &&& *r == #[trigger] self@[i].1
                    &&& forall|j: int|
                        0 <= j < self@.len() ==> fitness(#[trigger] self@[j].0, *target)
                            >= fitness(self@[i].0, *target)
                    &&& forall|j: int|
                        0 <= j < i ==> fitness(#[trigger] self@[j].0, *target) > fitness(
                            self@[i].0,
                            *target,
                        )
                },
    {
        let n = self.entries.len();
        let mut best: usize = 0;
        let mut best_fit = fitness_exec(&self.entries[0].0, target);
        let mut i: usize = 1;
        while i < n
            invariant
                self.wf(),
                target_ok(*target),
                n == self@.len(),
                1 <= i <= n,
                best < i,
                best_fit == fitness(self@[best as int].0, *target),
                forall|j: int|
                    0 <= j < i ==> fitness(#[trigger] self@[j].0, *target) >= fitness(
                        self@[best as int].0,
                        *target,
                    ),
                forall|j: int|
                    0 <= j < best ==> fitness(#[trigger] self@[j].0, *target) > fitness(
                        self@[best as int].0,
                        *target,
                    ),
            decreases n - i,
        {
            let f = fitness_exec(&self.entries[i].0, target);
            if f < best_fit {
                best = i;
                best_fit = f;
            }
            i = i + 1;
        }
        proof {
            assert(0 <= best < self@.len() && *(&self.entries[best as int].1) == self@[
                best as int].1);
        }
        &self.entries[best].1
    }

    /// The biome of an entry closest to `target`, remembering its index
    /// in `cache` for the next lookup.  The result is a closest entry for
    /// every prior cache state: a stale or absent slot only costs time.
    pub fn find_value_cached(&self, target: &TargetPoint, cache: &mut Option<usize>) -> (r: &B)
        requires
            self.wf(),
            self@.len() > 0,
            target_ok(*target),
        ensures
            exists|i: int|
                {
                    &&& 0 <= i < self@.len()
                    &&& *r == #[trigger] self@[i].1
                    &&& *final(cache) == Some(i as usize)
                    &&& forall|j: int|
                        0 <= j < self@.len() ==> fitness(#[trigger] self@[j].0, *target)
                            >= fitness(self@[i].0, *target)
                },
    {
        match *cache {
            Some(ci) if ci < self.entries.len() => {
                let cf = fitness_exec(&self.entries[ci].0, target);
                if cf == 0 {
                    proof {
                        assert forall|j: int|
                            0 <= j < self@.len() implies fitness(
                            #[trigger] self@[j].0,
                            *target,
                        ) >= fitness(self@[ci as int].0, *target) by {
                            lemma_fitness_nonneg(self@[j].0, *target);
                        }
                    }
                    *cache = Some(ci);
                    return &self.entries[ci].1;
                }
            },
            _ => {},
        }
        let n = self.entries.len();
        let mut best: usize = 0;
        let mut best_fit = fitness_exec(&self.entries[0].0, target);
        let mut i: usize = 1;
        while i < n
            invariant
                self.wf(),
                target_ok(*target),
                n == self@.len(),
                1 <= i <= n,
                best < i,
                best_fit == fitness(self@[best as int].0, *target),
                forall|j: int|
                    0 <= j < i ==> fitness(#[trigger] self@[j].0, *target) >= fitness(
                        self@[best as int].0,
                        *target,
                    ),
            decreases n - i,
        {
            let f = fitness_exec(&self.entries[i].0, target);
            if f < best_fit {
                best = i;
                best_fit = f;
            }
            i = i + 1;
        }
        *cache = Some(best);
        &self.entries[best].1
    }
}

/// Warm-start transparency: [`ParameterList::find_value`] and
/// [`ParameterList::find_value_cached`] each promise an entry of minimal
/// fitness, and any two minimal entries are equally close — so a lookup
/// through any prior cache state returns a biome exactly as close to the
/// target as the plain lookup's, and the cache can only cost or save
/// time, never change which climate region wins.
pub proof fn lemma_warm_start_transparent<B>(
    list: ParameterList<B>,
    target: TargetPoint,
    i: int,
    j: int,
)
    requires
        0 <= i < list@.len(),
        0 <= j < list@.len(),
        forall|k: int|
            0 <= k < list@.len() ==> fitness(#[trigger] list@[k].0, target) >= fitness(
                list@[i].0,
                target,
            ),
        forall|k: int|
            0 <= k < list@.len() ==> fitness(#[trigger] list@[k].0, target) >= fitness(
                list@[j].0,
                target,
            ),
    ensures
        fitness(list@[i].0, target) == fitness(list@[j].0, target),
{
    assert(fitness(list@[i].0, target) >= fitness(list@[j].0, target));
    assert(fitness(list@[j].0, target) >= fitness(list@[i].0, target));
}

/// A fitness is never negative: it is a sum of squares.
pub proof fn lemma_fitness_nonneg(pp: ParameterPoint, t: TargetPoint)
    ensures
        fitness(pp, t) >= 0,
{
    let d0 = param_dist(pp.temperature, t.temperature as int);
    let d1 = param_dist(pp.humidity, t.humidity as int);
    let d2 = param_dist(pp.continentalness, t.continentalness as int);
    let d3 = param_dist(pp.erosion, t.erosion as int);
    let d4 = param_dist(pp.depth, t.depth as int);
    let d5 = param_dist(pp.weirdness, t.weirdness as int);
    let off = pp.offset as int;
    assert(d0 * d0 >= 0 && d1 * d1 >= 0 && d2 * d2 >= 0 && d3 * d3 >= 0 && d4 * d4 >= 0 && d5 * d5
        >= 0 && off * off >= 0) by (nonlinear_arith);
}

} // verus!
