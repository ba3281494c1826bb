//! Density function types: the typed expression tree describing a scalar
//! field over (x, y, z).
//!
//! The tree is built from JSON at build time and consumed by the graph
//! analyzer and the code generator; it is never interpreted at runtime.
//! Every numeric constant is kept as the numeral text it had in the JSON
//! source, so that generated code reproduces each constant exactly as
//! written; the analyses themselves only ever ask whether a numeral is
//! zero.

use vstd::prelude::*;
use vstd::string::*;
use crate::strkey::StrMap;

verus! {

/// Whether a JSON numeral denotes zero: no digit of its mantissa (the part
/// before any exponent marker) is `1`..`9`.  Sign, decimal point and the
/// exponent cannot make such a numeral nonzero.  This judges the text,
/// not a parsed double: a numeral small enough to underflow to zero in
/// double precision, such as one with a few hundred exponent digits,
/// counts as nonzero here, while a float-valued test would call it zero.
/// No worldgen datapack carries such a scale.
pub open spec fn is_zero_numeral(s: Seq<char>) -> bool
    decreases s.len(),
{
    if s.len() == 0 {
        true
    } else if s[0] == 'e' || s[0] == 'E' {
        true
    } else if ('1' as int) <= (s[0] as int) && (s[0] as int) <= ('9' as int) {
        false
    } else {
        is_zero_numeral(s.drop_first())
    }
}

/// Tests whether a numeral string denotes zero; see [`is_zero_numeral`].
pub fn numeral_is_zero(s: &str) -> (r: bool)
    ensures
        r == is_zero_numeral(s@),
{
    let n: usize = s.unicode_len();
    proof {
        assert(s@.subrange(0, n as int) =~= s@);
    }
    let mut i: usize = 0;
    while i < n
        invariant
            n == s@.len(),
            i <= n,
            is_zero_numeral(s@) == is_zero_numeral(s@.subrange(i as int, n as int)),
        decreases n - i,
    {
        let c = s.get_char(i);
        proof {
            let suf = s@.subrange(i as int, n as int);
            assert(suf[0] == s@[i as int]);
            assert(suf.drop_first() =~= s@.subrange(i + 1, n as int));
        }
        if c == 'e' || c == 'E' {
            return true;
        }
        let cc = c as u32;
        if ('1' as u32) <= cc && cc <= ('9' as u32) {
            return false;
        }
        i = i + 1;
    }
    proof {
        assert(s@.subrange(n as int, n as int).len() == 0);
    }
    true
}

/// A constant density value, as numeral text.
pub struct Constant {
    /// The constant's numeral.
    pub value: String,
}

/// A reference to another density function by id.  The compiler leaves
/// references unresolved and follows them through the registry; a
/// spliced-in target would only be needed by a runtime tree interpreter,
/// which the compiled evaluators replace.
pub struct Reference {
    /// The referenced density function id.
    pub id: String,
    /// The spliced-in target, where a consumer resolved the reference.
    pub resolved: Option<Box<DensityFunction>>,
}

/// A Y-axis clamped gradient: `from_value` at `from_y`, `to_value` at
/// `to_y`, interpolated linearly between and clamped outside.
pub struct YClampedGradient {
    /// Starting Y coordinate, as numeral text.
    pub from_y: String,
    /// Ending Y coordinate, as numeral text.
    pub to_y: String,
    /// Value at `from_y`, as numeral text.
    pub from_value: String,
    /// Value at `to_y`, as numeral text.
    pub to_value: String,
}

/// A sample of a noise generator, with separate horizontal and vertical
/// coordinate scales.
pub struct Noise {
    /// Noise identifier.
    pub noise_id: String,
    /// XZ scale factor, as numeral text.
    pub xz_scale: String,
    /// Y scale factor, as numeral text.
    pub y_scale: String,
}

/// A noise sample whose coordinates are shifted by three sub-expressions:
/// each coordinate is scaled first and shifted after.
pub struct ShiftedNoise {
    /// X coordinate shift.
    pub shift_x: Box<DensityFunction>,
    /// Y coordinate shift.
    pub shift_y: Box<DensityFunction>,
    /// Z coordinate shift.
    pub shift_z: Box<DensityFunction>,
    /// XZ scale factor, as numeral text.
    pub xz_scale: String,
    /// Y scale factor, as numeral text.
    pub y_scale: String,
    /// Noise identifier.
    pub noise_id: String,
}

/// Shift noise A: samples at `(x/4, 0, z/4)` and scales by 4.
pub struct ShiftA {
    /// Noise identifier.
    pub noise_id: String,
}

/// Shift noise B: samples at `(z/4, x/4, 0)` and scales by 4.
pub struct ShiftB {
    /// Noise identifier.
    pub noise_id: String,
}

/// Generic shift noise: samples at `(x/4, y/4, z/4)` and scales by 4.
pub struct Shift {
    /// Noise identifier.
    pub noise_id: String,
}

/// The operation of a two-argument density function.
#[derive(Clone, Copy, PartialEq, Eq, Structural, Debug)]
pub enum TwoArgType {
    /// Add the arguments.
    Add,
    /// Multiply the arguments.
    Mul,
    /// Minimum of the arguments.
    Min,
    /// Maximum of the arguments.
    Max,
}

/// A two-argument density function.
pub struct TwoArgumentSimple {
    /// The operation.
    pub op: TwoArgType,
    /// First argument.
    pub argument1: Box<DensityFunction>,
    /// Second argument.
    pub argument2: Box<DensityFunction>,
}

/// The operation of a unary transformer.
#[derive(Clone, Copy, PartialEq, Eq, Structural, Debug)]
pub enum MappedType {
    /// Absolute value.
    Abs,
    /// Square the value.
    Square,
    /// Cube the value.
    Cube,
    /// Pass positive values through, halve the rest.
    HalfNegative,
    /// Pass positive values through, quarter the rest.
    QuarterNegative,
    /// Reciprocal.
    Invert,
    /// Clamp to [-1, 1], then apply `c/2 - c*c*c/24`.
    Squeeze,
}

/// A unary transformer applied to its input.
pub struct Mapped {
    /// The operation.
    pub op: MappedType,
    /// Input density function.
    pub input: Box<DensityFunction>,
}

/// Clamps the input to a closed range.
pub struct Clamp {
    /// Input density function.
    pub input: Box<DensityFunction>,
    /// Lower bound, as numeral text.
    pub min: String,
    /// Upper bound, as numeral text.
    pub max: String,
}

/// Chooses between two functions by the range of a third.
pub struct RangeChoice {
    /// Input density function.
    pub input: Box<DensityFunction>,
    /// Inclusive lower bound, as numeral text.
    pub min_inclusive: String,
    /// Exclusive upper bound, as numeral text.
    pub max_exclusive: String,
    /// Chosen when the input lies inside the range.
    pub when_in_range: Box<DensityFunction>,
    /// Chosen when the input lies outside the range.
    pub when_out_of_range: Box<DensityFunction>,
}

/// Blended (interpolated) 3D noise; the generated code substitutes a
/// single noise channel for the reference's three-generator blend.
pub struct BlendedNoise {
    /// XZ scale factor, as numeral text.
    pub xz_scale: String,
    /// Y scale factor, as numeral text.
    pub y_scale: String,
    /// XZ interpolation factor, as numeral text.
    pub xz_factor: String,
    /// Y interpolation factor, as numeral text.
    pub y_factor: String,
    /// Smear scale multiplier, as numeral text.
    pub smear_scale_multiplier: String,
}

/// The rarity-to-scale step function used by cave samplers.
#[derive(Clone, Copy, PartialEq, Eq, Structural, Debug)]
pub enum RarityValueMapper {
    /// The `type_1` mapping, for tunnels.
    Tunnels,
    /// The `type_2` mapping, for caves.
    Caves,
}

/// What [`RarityValueMapper::get_values`] returns: the tunnel mapping
/// steps through 0.75, 1, 1.5 and 2 at rarity -0.5, 0 and 0.5; the cave
/// mapping through 0.5, 0.75, 1, 2 and 3 at -0.75, -0.5, 0.5 and 0.75.
/// Values are double bit patterns; a NaN rarity falls through every
/// comparison to the last step, as the reference's comparisons do.
pub open spec fn spec_rarity_values(m: RarityValueMapper, rarity_bits: u64) -> u64 {
    match m {
        RarityValueMapper::Tunnels => {
            if crate::floatbits::f64_lt(rarity_bits, 0xBFE0_0000_0000_0000) {
                0x3FE8_0000_0000_0000
            } else if crate::floatbits::f64_lt(rarity_bits, 0) {
                0x3FF0_0000_0000_0000
            } else if crate::floatbits::f64_lt(rarity_bits, 0x3FE0_0000_0000_0000) {
                0x3FF8_0000_0000_0000
            } else {
                0x4000_0000_0000_0000
            }
        },
        RarityValueMapper::Caves => {
            if crate::floatbits::f64_lt(rarity_bits, 0xBFE8_0000_0000_0000) {
                0x3FE0_0000_0000_0000
            } else if crate::floatbits::f64_lt(rarity_bits, 0xBFE0_0000_0000_0000) {
                0x3FE8_0000_0000_0000
            } else if crate::floatbits::f64_lt(rarity_bits, 0x3FE0_0000_0000_0000) {
                0x3FF0_0000_0000_0000
            } else if crate::floatbits::f64_lt(rarity_bits, 0x3FE8_0000_0000_0000) {
                0x4000_0000_0000_0000
            } else {
                0x4008_0000_0000_0000
            }
        },
    }
}

impl RarityValueMapper {
    /// The scaling factor for a rarity value, both carried as double bit
    /// patterns; see [`spec_rarity_values`].
    pub fn get_values(&self, rarity_bits: u64) -> (r: u64)
        ensures
            r == spec_rarity_values(*self, rarity_bits),
    {
        match self {
            RarityValueMapper::Tunnels => {
                if crate::floatbits::f64_bits_lt(rarity_bits, 0xBFE0_0000_0000_0000) {
                    0x3FE8_0000_0000_0000
                } else if crate::floatbits::f64_bits_lt(rarity_bits, 0) {
                    0x3FF0_0000_0000_0000
                } else if crate::floatbits::f64_bits_lt(rarity_bits, 0x3FE0_0000_0000_0000) {
                    0x3FF8_0000_0000_0000
                } else {
                    0x4000_0000_0000_0000
                }
            },
            RarityValueMapper::Caves => {
                if crate::floatbits::f64_bits_lt(rarity_bits, 0xBFE8_0000_0000_0000) {
                    0x3FE0_0000_0000_0000
                } else if crate::floatbits::f64_bits_lt(rarity_bits, 0xBFE0_0000_0000_0000) {
                    0x3FE8_0000_0000_0000
                } else if crate::floatbits::f64_bits_lt(rarity_bits, 0x3FE0_0000_0000_0000) {
                    0x3FF0_0000_0000_0000
                } else if crate::floatbits::f64_bits_lt(rarity_bits, 0x3FE8_0000_0000_0000) {
                    0x4000_0000_0000_0000
                } else {
                    0x4008_0000_0000_0000
                }
            },
        }
    }
}

/// A sampler whose coordinates are divided by a rarity-derived scale and
/// whose absolute sample is multiplied by the same scale.
pub struct WeirdScaledSampler {
    /// Input density function, producing the rarity value.
    pub input: Box<DensityFunction>,
    /// Noise identifier.
    pub noise_id: String,
    /// The rarity-to-scale mapping.
    pub rarity_value_mapper: RarityValueMapper,
}

/// Blend density, a pass-through while chunk blending is absent.
pub struct BlendDensity {
    /// Input density function.
    pub input: Box<DensityFunction>,
}

/// The kind of a cache or marker wrapper.
#[derive(Clone, Copy, PartialEq, Eq, Structural, Debug)]
pub enum MarkerType {
    /// Cell-based interpolation.
    Interpolated,
    /// Cache for 2D (XZ) positions.
    FlatCache,
    /// Cache for 2D (XZ) positions.
    Cache2D,
    /// Cache the result of one evaluation.
    CacheOnce,
    /// Cache all values within a cell.
    CacheAllInCell,
}

/// A cache or marker wrapper: an optimisation hint around another
/// density function.
pub struct Marker {
    /// The marker kind.
    pub kind: MarkerType,
    /// The wrapped density function.
    pub wrapped: Box<DensityFunction>,
}

/// A cubic spline density function.
pub struct Spline {
    /// The spline.
    pub spline: Box<CubicSpline>,
}

/// Blend alpha: the constant 1 while chunk blending is absent.
pub struct BlendAlpha;

/// Blend offset: the constant 0 while chunk blending is absent.
pub struct BlendOffset;

/// A density function expression node.  Subtrees are owned; named sharing
/// goes through [`Reference`] nodes and the registry.
pub enum DensityFunction {
    /// A constant value.
    Constant(Constant),
    /// A reference to another density function by id.
    Reference(Reference),
    /// A Y-axis clamped gradient.
    YClampedGradient(YClampedGradient),
    /// A noise sample.
    Noise(Noise),
    /// A shifted noise sample.
    ShiftedNoise(ShiftedNoise),
    /// Shift noise A.
    ShiftA(ShiftA),
    /// Shift noise B.
    ShiftB(ShiftB),
    /// Generic shift noise.
    Shift(Shift),
    /// A two-argument operation.
    TwoArgumentSimple(TwoArgumentSimple),
    /// A unary transformer.
    Mapped(Mapped),
    /// A clamp to a range.
    Clamp(Clamp),
    /// A choice by input range.
    RangeChoice(RangeChoice),
    /// A cubic spline.
    Spline(Spline),
    /// Blended 3D noise.
    BlendedNoise(BlendedNoise),
    /// A weird scaled sampler.
    WeirdScaledSampler(WeirdScaledSampler),
    /// The End-islands leaf; generated code emits the constant 0 for it,
    /// the real algorithm is evaluated directly by the End biome source.
    EndIslands,
    /// Blend alpha.
    BlendAlpha(BlendAlpha),
    /// Blend offset.
    BlendOffset(BlendOffset),
    /// Blend density.
    BlendDensity(BlendDensity),
    /// A cache or marker wrapper.
    Marker(Marker),
}

/// An ordered cubic spline over a coordinate sub-expression.
///
/// Point locations must be non-decreasing for the generated binary search
/// to be meaningful; the evaluator assumes this and does not validate it.
pub struct CubicSpline {
    /// The coordinate extractor.
    pub coordinate: Box<DensityFunction>,
    /// The spline points.
    pub points: Vec<SplinePoint>,
}

/// One point of a cubic spline.
pub struct SplinePoint {
    /// The location (input value) of this point, as numeral text.
    pub location: String,
    /// The value or nested spline at this point.
    pub value: SplineValue,
    /// The derivative at this point, as numeral text.
    pub derivative: String,
}

/// The value at a spline point: a constant or a nested spline.
pub enum SplineValue {
    /// A constant value, as numeral text.
    Constant(String),
    /// A nested spline.
    Spline(Box<CubicSpline>),
}

/// Parameters for creating a noise generator.
pub struct NoiseParameters {
    /// The first octave level.
    pub first_octave: i32,
    /// Amplitude multipliers for each octave, as numeral text.
    pub amplitudes: Vec<String>,
}

impl NoiseParameters {
    /// New noise parameters.
    pub fn new(first_octave: i32, amplitudes: Vec<String>) -> (p: NoiseParameters)
        ensures
            p == (NoiseParameters { first_octave, amplitudes }),
    {
        NoiseParameters { first_octave, amplitudes }
    }
}

/// What resolution produces: a copy of the tree in which every
/// reference with a registry definition carries the resolved target,
/// itself resolved the same way.  `fuel` bounds the depth of reference
/// chains; resolution starts with fuel for every registry name, which
/// covers any chain in an acyclic registry, so only references into a
/// cycle — or to an id the registry lacks — stay unresolved.
pub open spec fn resolves_to(
    df: DensityFunction,
    registry: StrMap<DensityFunction>,
    fuel: nat,
    out: DensityFunction,
) -> bool
    decreases out,
{
    match df {
        DensityFunction::Constant(_) => out == df,
        DensityFunction::YClampedGradient(_) => out == df,
        DensityFunction::Noise(_) => out == df,
        DensityFunction::ShiftA(_) => out == df,
        DensityFunction::ShiftB(_) => out == df,
        DensityFunction::Shift(_) => out == df,
        DensityFunction::BlendedNoise(_) => out == df,
        DensityFunction::BlendAlpha(_) => out == df,
        DensityFunction::BlendOffset(_) => out == df,
        DensityFunction::EndIslands => out == df,
        DensityFunction::Reference(r) => out matches DensityFunction::Reference(o) && o.id@
            == r.id@ && (if registry.has_key(r.id@) && fuel > 0 {
            o.resolved matches Some(t) && resolves_to(
                registry.get(r.id@),
                registry,
                (fuel - 1) as nat,
                *t,
            )
        } else {
            o.resolved is None
        }),
        DensityFunction::ShiftedNoise(sn) => out matches DensityFunction::ShiftedNoise(o)
            && o.noise_id@ == sn.noise_id@ && o.xz_scale@ == sn.xz_scale@ && o.y_scale@
            == sn.y_scale@ && resolves_to(*sn.shift_x, registry, fuel, *o.shift_x) && resolves_to(
            *sn.shift_y,
            registry,
            fuel,
            *o.shift_y,
        ) && resolves_to(*sn.shift_z, registry, fuel, *o.shift_z),
        DensityFunction::TwoArgumentSimple(t) => out matches DensityFunction::TwoArgumentSimple(o)
            && o.op == t.op && resolves_to(*t.argument1, registry, fuel, *o.argument1)
            && resolves_to(*t.argument2, registry, fuel, *o.argument2),
        DensityFunction::Mapped(m) => out matches DensityFunction::Mapped(o) && o.op == m.op
            && resolves_to(*m.input, registry, fuel, *o.input),
        DensityFunction::Clamp(c) => out matches DensityFunction::Clamp(o) && o.min@ == c.min@
            && o.max@ == c.max@ && resolves_to(*c.input, registry, fuel, *o.input),
        DensityFunction::RangeChoice(rc) => out matches DensityFunction::RangeChoice(o)
            && o.min_inclusive@ == rc.min_inclusive@ && o.max_exclusive@ == rc.max_exclusive@
            && resolves_to(*rc.input, registry, fuel, *o.input) && resolves_to(
            *rc.when_in_range,
            registry,
            fuel,
            *o.when_in_range,
        ) && resolves_to(*rc.when_out_of_range, registry, fuel, *o.when_out_of_range),
        DensityFunction::BlendDensity(bd) => out matches DensityFunction::BlendDensity(o)
            && resolves_to(*bd.input, registry, fuel, *o.input),
        DensityFunction::WeirdScaledSampler(ws) => out matches
            DensityFunction::WeirdScaledSampler(o) && o.noise_id@ == ws.noise_id@
            && o.rarity_value_mapper == ws.rarity_value_mapper && resolves_to(
            *ws.input,
            registry,
            fuel,
            *o.input,
        ),
        DensityFunction::Marker(m) => out matches DensityFunction::Marker(o) && o.kind == m.kind
            && resolves_to(*m.wrapped, registry, fuel, *o.wrapped),
        DensityFunction::Spline(s) => out matches DensityFunction::Spline(o) && spline_resolves_to(
            *s.spline,
            registry,
            fuel,
            *o.spline,
        ),
    }
}

/// What resolving a spline produces: the coordinate and every nested
/// spline value resolved, locations and derivatives kept.
pub open spec fn spline_resolves_to(
    cs: CubicSpline,
    registry: StrMap<DensityFunction>,
    fuel: nat,
    out: CubicSpline,
) -> bool
    decreases out,
{
    resolves_to(*cs.coordinate, registry, fuel, *out.coordinate) && points_resolve_to(
        cs.points@,
        registry,
        fuel,
        out.points@,
    )
}

/// What resolving a point list produces, point by point.
pub open spec fn points_resolve_to(
    ps: Seq<SplinePoint>,
    registry: StrMap<DensityFunction>,
    fuel: nat,
    out: Seq<SplinePoint>,
) -> bool
    decreases out,
{
    if ps.len() == 0 {
        out.len() == 0
    } else {
        out.len() > 0 && point_resolves_to(ps[0], registry, fuel, out[0]) && points_resolve_to(
            ps.drop_first(),
            registry,
            fuel,
            out.drop_first(),
        )
    }
}

/// What resolving one spline point produces: a constant value kept, a
/// nested spline resolved.
pub open spec fn point_resolves_to(
    p: SplinePoint,
    registry: StrMap<DensityFunction>,
    fuel: nat,
    out: SplinePoint,
) -> bool
    decreases out,
{
    out.location@ == p.location@ && out.derivative@ == p.derivative@ && (match p.value {
        SplineValue::Constant(v) => out.value matches SplineValue::Constant(w) && w@ == v@,
        SplineValue::Spline(ns) => out.value matches SplineValue::Spline(no) && {
            proof {
                assert(decreases_to!(out => out.value));
            }
            spline_resolves_to(*ns, registry, fuel, *no)
        },
    })
}

impl CubicSpline {
    /// A new cubic spline over a coordinate extractor and its points.
    pub fn new(coordinate: Box<DensityFunction>, points: Vec<SplinePoint>) -> (s: CubicSpline)
        ensures
            s == (CubicSpline { coordinate, points }),
    {
        CubicSpline { coordinate, points }
    }
}

impl DensityFunction {
    /// Resolves every reference in this tree against the registry; see
    /// [`resolves_to`].  Called once after the full tree is built.
    pub fn resolve(&self, registry: &StrMap<DensityFunction>) -> (out: DensityFunction)
        requires
            registry.wf(),
        ensures
            resolves_to(*self, *registry, registry.key_seq().len(), out),
    {
        let fuel = registry.len();
        resolve_inner(self, registry, fuel)
    }

    /// A constant density function.
    pub fn constant(value: String) -> (r: DensityFunction)
        ensures
            r == (DensityFunction::Constant(Constant { value })),
    {
        DensityFunction::Constant(Constant { value })
    }

    /// An unresolved reference density function.
    pub fn reference(id: String) -> (r: DensityFunction)
        ensures
            r == (DensityFunction::Reference(Reference { id, resolved: None })),
    {
        DensityFunction::Reference(Reference { id, resolved: None })
    }
}

/// Resolves one tree with the given chain fuel; the mirror of
/// [`resolves_to`].
fn resolve_inner(
    df: &DensityFunction,
    registry: &StrMap<DensityFunction>,
    fuel: usize,
) -> (out: DensityFunction)
    requires
        registry.wf(),
    ensures
        resolves_to(*df, *registry, fuel as nat, out),
    decreases fuel, *df, 0int,
{
    match df {
        DensityFunction::Constant(c) => DensityFunction::Constant(
            Constant { value: c.value.clone() },
        ),
        DensityFunction::YClampedGradient(g) => DensityFunction::YClampedGradient(
            YClampedGradient {
                from_y: g.from_y.clone(),
                to_y: g.to_y.clone(),
                from_value: g.from_value.clone(),
                to_value: g.to_value.clone(),
            },
        ),
        DensityFunction::Noise(n) => DensityFunction::Noise(
            Noise {
                noise_id: n.noise_id.clone(),
                xz_scale: n.xz_scale.clone(),
                y_scale: n.y_scale.clone(),
            },
        ),
        DensityFunction::ShiftA(s) => DensityFunction::ShiftA(
            ShiftA { noise_id: s.noise_id.clone() },
        ),
        DensityFunction::ShiftB(s) => DensityFunction::ShiftB(
            ShiftB { noise_id: s.noise_id.clone() },
        ),
        DensityFunction::Shift(s) => DensityFunction::Shift(
            Shift { noise_id: s.noise_id.clone() },
        ),
        DensityFunction::BlendedNoise(bn) => DensityFunction::BlendedNoise(
            BlendedNoise {
                xz_scale: bn.xz_scale.clone(),
                y_scale: bn.y_scale.clone(),
                xz_factor: bn.xz_factor.clone(),
                y_factor: bn.y_factor.clone(),
                smear_scale_multiplier: bn.smear_scale_multiplier.clone(),
            },
        ),
        DensityFunction::BlendAlpha(_) => DensityFunction::BlendAlpha(BlendAlpha),
        DensityFunction::BlendOffset(_) => DensityFunction::BlendOffset(BlendOffset),
        DensityFunction::EndIslands => DensityFunction::EndIslands,
        DensityFunction::Reference(r) => {
            let resolved: Option<Box<DensityFunction>> = if fuel > 0 {
                match registry.get_ref(r.id.as_str()) {
                    Some(def) => Some(Box::new(resolve_inner(def, registry, fuel - 1))),
                    None => None,
                }
            } else {
                None
            };
            DensityFunction::Reference(Reference { id: r.id.clone(), resolved })
        },
        DensityFunction::ShiftedNoise(sn) => DensityFunction::ShiftedNoise(
            ShiftedNoise {
                shift_x: Box::new(resolve_inner(&sn.shift_x, registry, fuel)),
                shift_y: Box::new(resolve_inner(&sn.shift_y, registry, fuel)),
                shift_z: Box::new(resolve_inner(&sn.shift_z, registry, fuel)),
                xz_scale: sn.xz_scale.clone(),
                y_scale: sn.y_scale.clone(),
                noise_id: sn.noise_id.clone(),
            },
        ),
        DensityFunction::TwoArgumentSimple(t) => DensityFunction::TwoArgumentSimple(
            TwoArgumentSimple {
                op: t.op,
                argument1: Box::new(resolve_inner(&t.argument1, registry, fuel)),
                argument2: Box::new(resolve_inner(&t.argument2, registry, fuel)),
            },
        ),
        DensityFunction::Mapped(m) => DensityFunction::Mapped(
            Mapped { op: m.op, input: Box::new(resolve_inner(&m.input, registry, fuel)) },
        ),
        DensityFunction::Clamp(c) => DensityFunction::Clamp(
            Clamp {
                input: Box::new(resolve_inner(&c.input, registry, fuel)),
                min: c.min.clone(),
                max: c.max.clone(),
            },
        ),
        DensityFunction::RangeChoice(rc) => DensityFunction::RangeChoice(
            RangeChoice {
                input: Box::new(resolve_inner(&rc.input, registry, fuel)),
                min_inclusive: rc.min_inclusive.clone(),
                max_exclusive: rc.max_exclusive.clone(),
                when_in_range: Box::new(resolve_inner(&rc.when_in_range, registry, fuel)),
                when_out_of_range: Box::new(resolve_inner(&rc.when_out_of_range, registry, fuel)),
            },
        ),
        DensityFunction::BlendDensity(bd) => DensityFunction::BlendDensity(
            BlendDensity { input: Box::new(resolve_inner(&bd.input, registry, fuel)) },
        ),
        DensityFunction::WeirdScaledSampler(ws) => DensityFunction::WeirdScaledSampler(
            WeirdScaledSampler {
                input: Box::new(resolve_inner(&ws.input, registry, fuel)),
                noise_id: ws.noise_id.clone(),
                rarity_value_mapper: ws.rarity_value_mapper,
            },
        ),
        DensityFunction::Marker(m) => DensityFunction::Marker(
            Marker { kind: m.kind, wrapped: Box::new(resolve_inner(&m.wrapped, registry, fuel)) },
        ),
        DensityFunction::Spline(sp) => {
            proof {
                assert(decreases_to!(*df => (*df)->Spline_0));
            }
            DensityFunction::Spline(
                Spline { spline: Box::new(resolve_spline(&sp.spline, registry, fuel)) },
            )
        },
    }
}

/// Resolves references within a cubic spline; the mirror of
/// [`spline_resolves_to`].
fn resolve_spline(cs: &CubicSpline, registry: &StrMap<DensityFunction>, fuel: usize) -> (out:
    CubicSpline)
    requires
        registry.wf(),
    ensures
        spline_resolves_to(*cs, *registry, fuel as nat, out),
    decreases fuel, *cs, 0int,
{
    let coordinate = Box::new(resolve_inner(&cs.coordinate, registry, fuel));
    let n = cs.points.len();
    let mut points: Vec<SplinePoint> = Vec::new();
    proof {
        assert(cs.points@.subrange(0, 0) =~= Seq::<SplinePoint>::empty());
        assert(points_resolve_to(
            cs.points@.subrange(0, 0),
            *registry,
            fuel as nat,
            Seq::<SplinePoint>::empty(),
        ));
    }
    let mut i: usize = 0;
    while i < n
        invariant
            registry.wf(),
            n == cs.points@.len(),
            i <= n,
            points@.len() == i,
            points_resolve_to(cs.points@.subrange(0, i as int), *registry, fuel as nat, points@),
        decreases n - i,
    {
        let p = &cs.points[i];
        let value = match &p.value {
            SplineValue::Constant(v) => SplineValue::Constant(v.clone()),
            SplineValue::Spline(ns) => {
                proof {
                    assert(decreases_to!(*cs => cs.points));
                    assert(decreases_to!(cs.points => cs.points@));
                    assert(decreases_to!(cs.points@ => cs.points@[i as int]));
                    assert(decreases_to!(cs.points@[i as int] => cs.points@[i as int].value));
                }
                SplineValue::Spline(Box::new(resolve_spline(ns, registry, fuel)))
            },
        };
        let q = SplinePoint { location: p.location.clone(), value, derivative: p.derivative.clone() };
        proof {
            assert(point_resolves_to(cs.points@[i as int], *registry, fuel as nat, q));
        }
        let ghost pre_ps = cs.points@.subrange(0, i as int);
        let ghost pre_out = points@;
        points.push(q);
        proof {
            lemma_points_resolve_snoc(
                pre_ps,
                pre_out,
                cs.points@[i as int],
                q,
                *registry,
                fuel as nat,
            );
            assert(cs.points@.subrange(0, i + 1) =~= pre_ps.push(cs.points@[i as int]));
        }
        i = i + 1;
    }
    proof {
        assert(cs.points@.subrange(0, n as int) =~= cs.points@);
    }
    CubicSpline { coordinate, points }
}

/// Appending a resolved point keeps a point-list resolution intact.
proof fn lemma_points_resolve_snoc(
    ps: Seq<SplinePoint>,
    os: Seq<SplinePoint>,
    p: SplinePoint,
    q: SplinePoint,
    registry: StrMap<DensityFunction>,
    fuel: nat,
)
    requires
        points_resolve_to(ps, registry, fuel, os),
        point_resolves_to(p, registry, fuel, q),
    ensures
        points_resolve_to(ps.push(p), registry, fuel, os.push(q)),
    decreases ps.len(),
{
    if ps.len() == 0 {
        assert(ps.push(p)[0] == p);
        assert(os.push(q)[0] == q);
        assert(ps.push(p).drop_first() =~= Seq::<SplinePoint>::empty());
        assert(os.push(q).drop_first() =~= Seq::<SplinePoint>::empty());
        assert(points_resolve_to(
            Seq::<SplinePoint>::empty(),
            registry,
            fuel,
            Seq::<SplinePoint>::empty(),
        ));
    } else {
        lemma_points_resolve_snoc(ps.drop_first(), os.drop_first(), p, q, registry, fuel);
        assert(ps.push(p)[0] == ps[0]);
        assert(os.push(q)[0] == os[0]);
        assert(ps.push(p).drop_first() =~= ps.drop_first().push(p));
        assert(os.push(q).drop_first() =~= os.drop_first().push(q));
    }
}

} // verus!
