//! Code generation: turns the analyzed graph into the source text of
//! native evaluators, specialised along two axes.  3D functions take
//! `(x, y, z)`; flat functions take only `(x, z)` and read the column
//! cache.
//!
//! Every numeric constant is emitted as the numeral text it had in the
//! JSON source, with an explicit width suffix, so each constant survives
//! bit-exactly.  The fixed numeric semantics of every node kind follow
//! the reference evaluator: multiply-then-add shifted coordinates, the
//! quarter-coordinate shift samplers scaled by 4, squeeze as
//! `c/2 - c*c*c/24`, the rarity step functions, and binary-search splines
//! with Hermite interpolation between bracketing points.

use vstd::prelude::*;
use vstd::string::*;
use crate::analyze::{spec_unwrap_markers, unwrap_markers};
use crate::density::{
    CubicSpline, DensityFunction, MappedType, MarkerType, RarityValueMapper, SplinePoint,
    SplineValue,
};
use crate::climate::{Parameter, ParameterPoint};
use crate::strkey::{StrMap, StrSet};
use crate::text::{
    biome_ident, i64_to_string, int_digits, nat_digits, sanitize_seq, strip_namespace, upper_seq,
    usize_to_string,
};

verus! {

/// An `f64` literal: the numeral with an explicit suffix, parenthesised
/// so it can stand in any expression position.
pub open spec fn f64_lit(t: Seq<char>) -> Seq<char> {
    "("@ + t + "_f64)"@
}

/// An `f32` literal, parenthesised.
pub open spec fn f32_lit(t: Seq<char>) -> Seq<char> {
    "("@ + t + "_f32)"@
}

/// The noise-bundle field name of a noise id.
pub open spec fn noise_field(id: Seq<char>) -> Seq<char> {
    "n_"@ + sanitize_seq(strip_namespace(id))
}

/// The column-cache field name of a flat named function.
pub open spec fn named_field(id: Seq<char>) -> Seq<char> {
    "df_"@ + sanitize_seq(strip_namespace(id))
}

/// The evaluator name of a 3D named function.
pub open spec fn named_fn(id: Seq<char>) -> Seq<char> {
    "compute_"@ + sanitize_seq(strip_namespace(id))
}

/// Builds an `f64` literal.
fn f64_lit_str(t: &String) -> (out: String)
    ensures
        out@ == f64_lit(t@),
{
    let mut out = String::from_str("(");
    out.append(t.as_str());
    out.append("_f64)");
    out
}

/// Builds an `f32` literal.
fn f32_lit_str(t: &String) -> (out: String)
    ensures
        out@ == f32_lit(t@),
{
    let mut out = String::from_str("(");
    out.append(t.as_str());
    out.append("_f32)");
    out
}

/// Builds the noise-bundle field name of a noise id.
pub fn noise_field_ident(id: &str) -> (out: String)
    ensures
        out@ == noise_field(id@),
{
    let mut out = String::from_str("n_");
    let san = crate::text::sanitize_name(id);
    out.append(san.as_str());
    out
}

/// Builds the column-cache field name of a flat named function.
pub fn named_fn_field_ident(id: &str) -> (out: String)
    ensures
        out@ == named_field(id@),
{
    let mut out = String::from_str("df_");
    let san = crate::text::sanitize_name(id);
    out.append(san.as_str());
    out
}

/// Builds the evaluator name of a 3D named function.
pub fn named_fn_ident(id: &str) -> (out: String)
    ensures
        out@ == named_fn(id@),
{
    let mut out = String::from_str("compute_");
    let san = crate::text::sanitize_name(id);
    out.append(san.as_str());
    out
}

/// A coordinate scaled by an `f64` literal: `f64::from(c) * (s_f64)`.
pub open spec fn scaled_coord(c: Seq<char>, s: Seq<char>) -> Seq<char> {
    "f64::from("@ + c + ") * "@ + f64_lit(s)
}

/// The text of a noise sample at quarter coordinates scaled by 4, with
/// the given middle argument.
pub open spec fn shift_sample(id: Seq<char>, a: Seq<char>, b: Seq<char>, c: Seq<char>) -> Seq<
    char,
> {
    "noises."@ + noise_field(id) + ".get_value("@ + a + ", "@ + b + ", "@ + c + ") * 4.0"@
}

/// The emitted evaluator text of a density function expression.
///
/// `is_flat` says the expression stands in an XZ-only context: the `y`
/// coordinate does not exist there, and Y-scaled noise arguments are
/// forced to zero, as the reference does for flat or zero-Y-scale
/// samples.
pub open spec fn spec_gen_expr(df: DensityFunction, is_flat: bool, flat: StrSet) -> Seq<char>
    decreases df,
{
    match df {
        DensityFunction::Constant(c) => f64_lit(c.value@),
        DensityFunction::YClampedGradient(g) => "map_clamped(f64::from(y), "@ + f64_lit(g.from_y@)
            + ", "@ + f64_lit(g.to_y@) + ", "@ + f64_lit(g.from_value@) + ", "@ + f64_lit(
            g.to_value@,
        ) + ")"@,
        DensityFunction::Noise(n) => {
            if is_flat || is_zero_numeral_spec(n.y_scale@) {
                "noises."@ + noise_field(n.noise_id@) + ".get_value("@ + scaled_coord(
                    "x"@,
                    n.xz_scale@,
                ) + ", 0.0, "@ + scaled_coord("z"@, n.xz_scale@) + ")"@
            } else {
                "noises."@ + noise_field(n.noise_id@) + ".get_value("@ + scaled_coord(
                    "x"@,
                    n.xz_scale@,
                ) + ", "@ + scaled_coord("y"@, n.y_scale@) + ", "@ + scaled_coord(
                    "z"@,
                    n.xz_scale@,
                ) + ")"@
            }
        },
        DensityFunction::ShiftedNoise(sn) => {
            if is_flat || is_zero_numeral_spec(sn.y_scale@) {
                "{ let dx = "@ + spec_gen_expr(*sn.shift_x, is_flat, flat) + "; let dz = "@
                    + spec_gen_expr(*sn.shift_z, is_flat, flat) + "; noises."@ + noise_field(
                    sn.noise_id@,
                ) + ".get_value("@ + scaled_coord("x"@, sn.xz_scale@) + " + dx, 0.0, "@
                    + scaled_coord("z"@, sn.xz_scale@) + " + dz) }"@
            } else {
                "{ let dx = "@ + spec_gen_expr(*sn.shift_x, is_flat, flat) + "; let dy = "@
                    + spec_gen_expr(*sn.shift_y, is_flat, flat) + "; let dz = "@ + spec_gen_expr(
                    *sn.shift_z,
                    is_flat,
                    flat,
                ) + "; noises."@ + noise_field(sn.noise_id@) + ".get_value("@ + scaled_coord(
                    "x"@,
                    sn.xz_scale@,
                ) + " + dx, "@ + scaled_coord("y"@, sn.y_scale@) + " + dy, "@ + scaled_coord(
                    "z"@,
                    sn.xz_scale@,
                ) + " + dz) }"@
            }
        },
        DensityFunction::ShiftA(sh) => shift_sample(
            sh.noise_id@,
            "f64::from(x) * 0.25"@,
            "0.0"@,
            "f64::from(z) * 0.25"@,
        ),
        DensityFunction::ShiftB(sh) => shift_sample(
            sh.noise_id@,
            "f64::from(z) * 0.25"@,
            "f64::from(x) * 0.25"@,
            "0.0"@,
        ),
        DensityFunction::Shift(sh) => {
            if is_flat {
                shift_sample(sh.noise_id@, "f64::from(x) * 0.25"@, "0.0"@, "f64::from(z) * 0.25"@)
            } else {
                shift_sample(
                    sh.noise_id@,
                    "f64::from(x) * 0.25"@,
                    "f64::from(y) * 0.25"@,
                    "f64::from(z) * 0.25"@,
                )
            }
        },
        DensityFunction::TwoArgumentSimple(t) => {
            let a = spec_gen_expr(*t.argument1, is_flat, flat);
            let b = spec_gen_expr(*t.argument2, is_flat, flat);
            match t.op {
                crate::density::TwoArgType::Add => "(("@ + a + ") + ("@ + b + "))"@,
                crate::density::TwoArgType::Mul => "(("@ + a + ") * ("@ + b + "))"@,
                crate::density::TwoArgType::Min => "f64::min("@ + a + ", "@ + b + ")"@,
                crate::density::TwoArgType::Max => "f64::max("@ + a + ", "@ + b + ")"@,
            }
        },
        DensityFunction::Mapped(m) => {
            let v = spec_gen_expr(*m.input, is_flat, flat);
            match m.op {
                MappedType::Abs => "("@ + v + ").abs()"@,
                MappedType::Square => "{ let v = "@ + v + "; v * v }"@,
                MappedType::Cube => "{ let v = "@ + v + "; v * v * v }"@,
                MappedType::HalfNegative => "{ let v = "@ + v
                    + "; if v > 0.0 { v } else { v * 0.5 } }"@,
                MappedType::QuarterNegative => "{ let v = "@ + v
                    + "; if v > 0.0 { v } else { v * 0.25 } }"@,
                MappedType::Invert => "(1.0 / ("@ + v + "))"@,
                MappedType::Squeeze => "{ let c = clamp("@ + v
                    + ", -1.0, 1.0); c / 2.0 - c * c * c / 24.0 }"@,
            }
        },
        DensityFunction::Clamp(c) => "clamp("@ + spec_gen_expr(*c.input, is_flat, flat) + ", "@
            + f64_lit(c.min@) + ", "@ + f64_lit(c.max@) + ")"@,
        DensityFunction::RangeChoice(rc) => "{ let v = "@ + spec_gen_expr(*rc.input, is_flat, flat)
            + "; if v >= "@ + f64_lit(rc.min_inclusive@) + " && v < "@ + f64_lit(rc.max_exclusive@)
            + " { "@ + spec_gen_expr(*rc.when_in_range, is_flat, flat) + " } else { "@
            + spec_gen_expr(*rc.when_out_of_range, is_flat, flat) + " } }"@,
        DensityFunction::Spline(sp) => spec_gen_spline(*sp.spline, is_flat, flat),
        DensityFunction::BlendedNoise(bn) => "noises.n_offset.get_value(f64::from(x) * ("@
            + f64_lit(bn.xz_scale@) + " / "@ + f64_lit(bn.xz_factor@)
            + "), f64::from(y) * ("@ + f64_lit(bn.y_scale@) + " / "@ + f64_lit(bn.y_factor@)
            + "), f64::from(z) * ("@ + f64_lit(bn.xz_scale@) + " / "@ + f64_lit(bn.xz_factor@)
            + ")) * "@ + f64_lit(bn.smear_scale_multiplier@),
        DensityFunction::WeirdScaledSampler(ws) => "{ let rarity = "@ + spec_gen_expr(
            *ws.input,
            is_flat,
            flat,
        ) + "; let scale = RarityValueMapper::"@ + (match ws.rarity_value_mapper {
            RarityValueMapper::Tunnels => "Tunnels"@,
            RarityValueMapper::Caves => "Caves"@,
        }) + ".get_values(rarity); scale * noises."@ + noise_field(ws.noise_id@)
            + ".get_value(f64::from(x) / scale, f64::from(y) / scale, f64::from(z) / scale).abs() }"@,
        DensityFunction::BlendAlpha(_) => "1.0"@,
        DensityFunction::BlendOffset(_) => "0.0"@,
        DensityFunction::EndIslands => "0.0"@,
        DensityFunction::BlendDensity(bd) => spec_gen_expr(*bd.input, is_flat, flat),
        DensityFunction::Marker(m) => spec_gen_expr(*m.wrapped, is_flat, flat),
        DensityFunction::Reference(r) => {
            if flat.has(r.id@) {
                "cache."@ + named_field(r.id@)
            } else {
                named_fn(r.id@) + "(noises, cache, x, y, z)"@
            }
        },
    }
}

/// `crate::density::is_zero_numeral`, under a short local name.
pub open spec fn is_zero_numeral_spec(s: Seq<char>) -> bool {
    crate::density::is_zero_numeral(s)
}

/// The emitted evaluator text of a spline: local location and derivative
/// arrays, the coordinate collapsed to `f32`, and the shared binary
/// search and Hermite interpolation routine over the point values.
pub open spec fn spec_gen_spline(cs: CubicSpline, is_flat: bool, flat: StrSet) -> Seq<char>
    decreases cs,
{
    "{ let locations: [f32; "@ + nat_digits(cs.points@.len() as int) + "] = ["@ + spec_gen_numerals(
        cs.points@,
    ) + "]; let derivatives: [f32; "@ + nat_digits(cs.points@.len() as int) + "] = ["@
        + spec_gen_derivatives(cs.points@) + "]; let coord = ("@ + spec_gen_expr(
        *cs.coordinate,
        is_flat,
        flat,
    ) + ") as f32; f64::from(spline_eval::evaluate_spline(&locations, &derivatives, coord, |i: usize| { match i { "@
        + spec_gen_value_arms(cs.points@, 0, is_flat, flat) + "_ => 0.0_f32 } })) }"@
}

/// The comma-separated `f32` location literals of a point list.
pub open spec fn spec_gen_numerals(ps: Seq<SplinePoint>) -> Seq<char>
    decreases ps,
{
    if ps.len() == 0 {
        Seq::empty()
    } else {
        f32_lit(ps[0].location@) + ", "@ + spec_gen_numerals(ps.drop_first())
    }
}

/// The comma-separated `f32` derivative literals of a point list.
pub open spec fn spec_gen_derivatives(ps: Seq<SplinePoint>) -> Seq<char>
    decreases ps,
{
    if ps.len() == 0 {
        Seq::empty()
    } else {
        f32_lit(ps[0].derivative@) + ", "@ + spec_gen_derivatives(ps.drop_first())
    }
}

/// The match arms giving each point's value: a constant literal or the
/// nested spline's own evaluator block collapsed to `f32`.
pub open spec fn spec_gen_value_arms(
    ps: Seq<SplinePoint>,
    base: int,
    is_flat: bool,
    flat: StrSet,
) -> Seq<char>
    decreases ps,
{
    if ps.len() == 0 {
        Seq::empty()
    } else {
        nat_digits(base) + "usize => "@ + (match ps[0].value {
            SplineValue::Constant(v) => f32_lit(v@),
            SplineValue::Spline(ns) => "(("@ + spec_gen_spline(*ns, is_flat, flat) + ") as f32)"@,
        }) + ", "@ + spec_gen_value_arms(ps.drop_first(), base + 1, is_flat, flat)
    }
}

/// Emits the evaluator text of one density function expression; the
/// mirror of [`spec_gen_expr`].
pub fn gen_expr(df: &DensityFunction, is_flat: bool, flat: &StrSet) -> (out: String)
    ensures
        out@ == spec_gen_expr(*df, is_flat, *flat),
    decreases df,
{
    match df {
        DensityFunction::Constant(c) => f64_lit_str(&c.value),
        DensityFunction::YClampedGradient(g) => {
            let mut out = String::from_str("map_clamped(f64::from(y), ");
            out.append(f64_lit_str(&g.from_y).as_str());
            out.append(", ");
            out.append(f64_lit_str(&g.to_y).as_str());
            out.append(", ");
            out.append(f64_lit_str(&g.from_value).as_str());
            out.append(", ");
            out.append(f64_lit_str(&g.to_value).as_str());
            out.append(")");
            out
        },
        DensityFunction::Noise(n) => {
            let mut out = String::from_str("noises.");
            out.append(noise_field_ident(n.noise_id.as_str()).as_str());
            out.append(".get_value(");
            out.append(scaled_coord_str("x", &n.xz_scale).as_str());
            if is_flat || crate::density::numeral_is_zero(n.y_scale.as_str()) {
                out.append(", 0.0, ");
            } else {
                out.append(", ");
                out.append(scaled_coord_str("y", &n.y_scale).as_str());
                out.append(", ");
            }
            out.append(scaled_coord_str("z", &n.xz_scale).as_str());
            out.append(")");
            out
        },
        DensityFunction::ShiftedNoise(sn) => {
            let flat_y = is_flat || crate::density::numeral_is_zero(sn.y_scale.as_str());
            let mut out = String::from_str("{ let dx = ");
            out.append(gen_expr(&sn.shift_x, is_flat, flat).as_str());
            if flat_y {
                out.append("; let dz = ");
                out.append(gen_expr(&sn.shift_z, is_flat, flat).as_str());
                out.append("; noises.");
                out.append(noise_field_ident(sn.noise_id.as_str()).as_str());
                out.append(".get_value(");
                out.append(scaled_coord_str("x", &sn.xz_scale).as_str());
                out.append(" + dx, 0.0, ");
                out.append(scaled_coord_str("z", &sn.xz_scale).as_str());
                out.append(" + dz) }");
            } else {
                out.append("; let dy = ");
                out.append(gen_expr(&sn.shift_y, is_flat, flat).as_str());
                out.append("; let dz = ");
                out.append(gen_expr(&sn.shift_z, is_flat, flat).as_str());
                out.append("; noises.");
                out.append(noise_field_ident(sn.noise_id.as_str()).as_str());
                out.append(".get_value(");
                out.append(scaled_coord_str("x", &sn.xz_scale).as_str());
                out.append(" + dx, ");
                out.append(scaled_coord_str("y", &sn.y_scale).as_str());
                out.append(" + dy, ");
                out.append(scaled_coord_str("z", &sn.xz_scale).as_str());
                out.append(" + dz) }");
            }
            out
        },
        DensityFunction::ShiftA(sh) => shift_sample_str(
            &sh.noise_id,
            "f64::from(x) * 0.25",
            "0.0",
            "f64::from(z) * 0.25",
        ),
        DensityFunction::ShiftB(sh) => shift_sample_str(
            &sh.noise_id,
            "f64::from(z) * 0.25",
            "f64::from(x) * 0.25",
            "0.0",
        ),
        DensityFunction::Shift(sh) => {
            if is_flat {
                shift_sample_str(&sh.noise_id, "f64::from(x) * 0.25", "0.0", "f64::from(z) * 0.25")
            } else {
                shift_sample_str(
                    &sh.noise_id,
                    "f64::from(x) * 0.25",
                    "f64::from(y) * 0.25",
                    "f64::from(z) * 0.25",
                )
            }
        },
        DensityFunction::TwoArgumentSimple(t) => {
            let a = gen_expr(&t.argument1, is_flat, flat);
            let b = gen_expr(&t.argument2, is_flat, flat);
            match t.op {
                crate::density::TwoArgType::Add => {
                    let mut out = String::from_str("((");
                    out.append(a.as_str());
                    out.append(") + (");
                    out.append(b.as_str());
                    out.append("))");
                    out
                },
                crate::density::TwoArgType::Mul => {
                    let mut out = String::from_str("((");
                    out.append(a.as_str());
                    out.append(") * (");
                    out.append(b.as_str());
                    out.append("))");
                    out
                },
                crate::density::TwoArgType::Min => {
                    let mut out = String::from_str("f64::min(");
                    out.append(a.as_str());
                    out.append(", ");
                    out.append(b.as_str());
                    out.append(")");
                    out
                },
                crate::density::TwoArgType::Max => {
                    let mut out = String::from_str("f64::max(");
                    out.append(a.as_str());
                    out.append(", ");
                    out.append(b.as_str());
                    out.append(")");
                    out
                },
            }
        },
        DensityFunction::Mapped(m) => {
            let v = gen_expr(&m.input, is_flat, flat);
            match m.op {
                MappedType::Abs => {
                    let mut out = String::from_str("(");
                    out.append(v.as_str());
                    out.append(").abs()");
                    out
                },
                MappedType::Square => {
                    let mut out = String::from_str("{ let v = ");
                    out.append(v.as_str());
                    out.append("; v * v }");
                    out
                },
                MappedType::Cube => {
                    let mut out = String::from_str("{ let v = ");
                    out.append(v.as_str());
                    out.append("; v * v * v }");
                    out
                },
                MappedType::HalfNegative => {
                    let mut out = String::from_str("{ let v = ");
                    out.append(v.as_str());
                    out.append("; if v > 0.0 { v } else { v * 0.5 } }");
                    out
                },
                MappedType::QuarterNegative => {
                    let mut out = String::from_str("{ let v = ");
                    out.append(v.as_str());
                    out.append("; if v > 0.0 { v } else { v * 0.25 } }");
                    out
                },
                MappedType::Invert => {
                    let mut out = String::from_str("(1.0 / (");
                    out.append(v.as_str());
                    out.append("))");
                    out
                },
                MappedType::Squeeze => {
                    let mut out = String::from_str("{ let c = clamp(");
                    out.append(v.as_str());
                    out.append(", -1.0, 1.0); c / 2.0 - c * c * c / 24.0 }");
                    out
                },
            }
        },
        DensityFunction::Clamp(c) => {
            let mut out = String::from_str("clamp(");
            out.append(gen_expr(&c.input, is_flat, flat).as_str());
            out.append(", ");
            out.append(f64_lit_str(&c.min).as_str());
            out.append(", ");
            out.append(f64_lit_str(&c.max).as_str());
            out.append(")");
            out
        },
        DensityFunction::RangeChoice(rc) => {
            let mut out = String::from_str("{ let v = ");
            out.append(gen_expr(&rc.input, is_flat, flat).as_str());
            out.append("; if v >= ");
            out.append(f64_lit_str(&rc.min_inclusive).as_str());
            out.append(" && v < ");
            out.append(f64_lit_str(&rc.max_exclusive).as_str());
            out.append(" { ");
            out.append(gen_expr(&rc.when_in_range, is_flat, flat).as_str());
            out.append(" } else { ");
            out.append(gen_expr(&rc.when_out_of_range, is_flat, flat).as_str());
            out.append(" } }");
            out
        },
        DensityFunction::Spline(sp) => {
            proof {
                assert(decreases_to!(*df => (*df)->Spline_0));
            }
            gen_spline_expr(&sp.spline, is_flat, flat)
        },
        DensityFunction::BlendedNoise(bn) => {
            let mut out = String::from_str("noises.n_offset.get_value(f64::from(x) * (");
            out.append(f64_lit_str(&bn.xz_scale).as_str());
            out.append(" / ");
            out.append(f64_lit_str(&bn.xz_factor).as_str());
            out.append("), f64::from(y) * (");
            out.append(f64_lit_str(&bn.y_scale).as_str());
            out.append(" / ");
            out.append(f64_lit_str(&bn.y_factor).as_str());
            out.append("), f64::from(z) * (");
            out.append(f64_lit_str(&bn.xz_scale).as_str());
            out.append(" / ");
            out.append(f64_lit_str(&bn.xz_factor).as_str());
            out.append(")) * ");
            out.append(f64_lit_str(&bn.smear_scale_multiplier).as_str());
            out
        },
        DensityFunction::WeirdScaledSampler(ws) => {
            let mut out = String::from_str("{ let rarity = ");
            out.append(gen_expr(&ws.input, is_flat, flat).as_str());
            out.append("; let scale = RarityValueMapper::");
            match ws.rarity_value_mapper {
                RarityValueMapper::Tunnels => out.append("Tunnels"),
                RarityValueMapper::Caves => out.append("Caves"),
            }
            out.append(".get_values(rarity); scale * noises.");
            out.append(noise_field_ident(ws.noise_id.as_str()).as_str());
            out.append(
                ".get_value(f64::from(x) / scale, f64::from(y) / scale, f64::from(z) / scale).abs() }",
            );
            out
        },
        DensityFunction::BlendAlpha(_) => String::from_str("1.0"),
        DensityFunction::BlendOffset(_) => String::from_str("0.0"),
        DensityFunction::EndIslands => String::from_str("0.0"),
        DensityFunction::BlendDensity(bd) => gen_expr(&bd.input, is_flat, flat),
        DensityFunction::Marker(m) => gen_expr(&m.wrapped, is_flat, flat),
        DensityFunction::Reference(r) => {
            if flat.contains(r.id.as_str()) {
                let mut out = String::from_str("cache.");
                out.append(named_fn_field_ident(r.id.as_str()).as_str());
                out
            } else {
                let mut out = named_fn_ident(r.id.as_str());
                out.append("(noises, cache, x, y, z)");
                out
            }
        },
    }
}

/// Builds `f64::from(c) * (s_f64)`.
fn scaled_coord_str(c: &str, s: &String) -> (out: String)
    ensures
        out@ == scaled_coord(c@, s@),
{
    let mut out = String::from_str("f64::from(");
    out.append(c);
    out.append(") * ");
    out.append(f64_lit_str(s).as_str());
    out
}

/// Builds a quarter-coordinate shift sample scaled by 4.
fn shift_sample_str(id: &String, a: &str, b: &str, c: &str) -> (out: String)
    ensures
        out@ == shift_sample(id@, a@, b@, c@),
{
    let mut out = String::from_str("noises.");
    out.append(noise_field_ident(id.as_str()).as_str());
    out.append(".get_value(");
    out.append(a);
    out.append(", ");
    out.append(b);
    out.append(", ");
    out.append(c);
    out.append(") * 4.0");
    out
}

/// Emits the evaluator text of a spline; the mirror of
/// [`spec_gen_spline`].
#[verifier::rlimit(100)]
#[verifier::spinoff_prover]
pub fn gen_spline_expr(cs: &CubicSpline, is_flat: bool, flat: &StrSet) -> (out: String)
    ensures
        out@ == spec_gen_spline(*cs, is_flat, *flat),
    decreases cs,
{
    let np = cs.points.len();
    let nd = usize_to_string(np);
    let mut out = String::from_str("{ let locations: [f32; ");
    out.append(nd.as_str());
    out.append("] = [");
    proof {
        assert(cs.points@.subrange(0, np as int) =~= cs.points@);
    }
    let mut i: usize = 0;
    while i < np
        invariant
            np == cs.points@.len(),
            i <= np,
            out@ + spec_gen_numerals(cs.points@.subrange(i as int, np as int)) == out0_plus(
                cs.points@,
                nd@,
            ),
        decreases np - i,
    {
        proof {
            let suf = cs.points@.subrange(i as int, np as int);
            assert(suf[0] == cs.points@[i as int]);
            assert(suf.drop_first() =~= cs.points@.subrange(i + 1, np as int));
        }
        out.append(f32_lit_str(&cs.points[i].location).as_str());
        out.append(", ");
        i = i + 1;
    }
    proof {
        assert(cs.points@.subrange(np as int, np as int).len() == 0);
    }
    out.append("]; let derivatives: [f32; ");
    out.append(nd.as_str());
    out.append("] = [");
    let ghost out1 = out@;
    proof {
        assert(cs.points@.subrange(0, np as int) =~= cs.points@);
    }
    let mut i: usize = 0;
    while i < np
        invariant
            np == cs.points@.len(),
            i <= np,
            out@ + spec_gen_derivatives(cs.points@.subrange(i as int, np as int)) == out1
                + spec_gen_derivatives(cs.points@),
        decreases np - i,
    {
        proof {
            let suf = cs.points@.subrange(i as int, np as int);
            assert(suf[0] == cs.points@[i as int]);
            assert(suf.drop_first() =~= cs.points@.subrange(i + 1, np as int));
        }
        out.append(f32_lit_str(&cs.points[i].derivative).as_str());
        out.append(", ");
        i = i + 1;
    }
    proof {
        assert(cs.points@.subrange(np as int, np as int).len() == 0);
    }
    out.append("]; let coord = (");
    out.append(gen_expr(&cs.coordinate, is_flat, flat).as_str());
    out.append(
        ") as f32; f64::from(spline_eval::evaluate_spline(&locations, &derivatives, coord, |i: usize| { match i { ",
    );
    let ghost out2 = out@;
    proof {
        assert(cs.points@.subrange(0, np as int) =~= cs.points@);
    }
    let mut i: usize = 0;
    while i < np
        invariant
            np == cs.points@.len(),
            i <= np,
            out@ + spec_gen_value_arms(
                cs.points@.subrange(i as int, np as int),
                i as int,
                is_flat,
                *flat,
            ) == out2 + spec_gen_value_arms(cs.points@, 0, is_flat, *flat),
        decreases np - i,
    {
        proof {
            let suf = cs.points@.subrange(i as int, np as int);
            assert(suf[0] == cs.points@[i as int]);
            assert(suf.drop_first() =~= cs.points@.subrange(i + 1, np as int));
        }
        out.append(usize_to_string(i).as_str());
        out.append("usize => ");
        match &cs.points[i].value {
            SplineValue::Constant(v) => {
                out.append(f32_lit_str(v).as_str());
            },
            SplineValue::Spline(ns) => {
                proof {
                    assert(decreases_to!(*cs => cs.points));
                    assert(decreases_to!(cs.points => cs.points@));
                    assert(decreases_to!(cs.points@ => cs.points@[i as int]));
                    assert(decreases_to!(cs.points@[i as int] => cs.points@[i as int].value));
                }
                out.append("((");
                out.append(gen_spline_expr(ns, is_flat, flat).as_str());
                out.append(") as f32)");
            },
        }
        out.append(", ");
        i = i + 1;
    }
    proof {
        assert(cs.points@.subrange(np as int, np as int).len() == 0);
    }
    out.append("_ => 0.0_f32 } })) }");
    proof {
        assert(out@ =~= spec_gen_spline(*cs, is_flat, *flat));
    }
    out
}

/// The fixed prefix of a spline block, up to the end of its location
/// array: the shape the location loop's invariant follows.
pub open spec fn out0_plus(ps: Seq<SplinePoint>, nd: Seq<char>) -> Seq<char> {
    "{ let locations: [f32; "@ + nd + "] = ["@ + spec_gen_numerals(ps)
}

/// One noise-bundle field declaration per noise id.
pub open spec fn spec_noise_fields(ids: Seq<Seq<char>>) -> Seq<char>
    decreases ids,
{
    if ids.len() == 0 {
        Seq::empty()
    } else {
        "pub "@ + noise_field(ids[0]) + ": NormalNoise, "@ + spec_noise_fields(ids.drop_first())
    }
}

/// One noise-bundle field initialiser per noise id.
pub open spec fn spec_noise_inits(ids: Seq<Seq<char>>) -> Seq<char>
    decreases ids,
{
    if ids.len() == 0 {
        Seq::empty()
    } else {
        noise_field(ids[0]) + ": { let p = params.get(\""@ + ids[0]
            + "\").expect(\"missing noise params\"); NormalNoise::create(splitter, \""@ + ids[0]
            + "\", p.first_octave, &p.amplitudes) }, "@ + spec_noise_inits(ids.drop_first())
    }
}

/// Emits the noise-bundle struct: one `NormalNoise` field per noise id,
/// in sorted id order.
pub fn gen_noises_struct(prefix: &str, noise_ids: &StrSet) -> (out: String)
    ensures
        out@ == "pub struct "@ + prefix@ + "Noises { "@ + spec_noise_fields(noise_ids@) + "}"@,
{
    let mut out = String::from_str("pub struct ");
    out.append(prefix);
    out.append("Noises { ");
    let n = noise_ids.len();
    let ghost head = out@;
    proof {
        assert(noise_ids@.subrange(0, n as int) =~= noise_ids@);
    }
    let mut i: usize = 0;
    while i < n
        invariant
            n == noise_ids@.len(),
            i <= n,
            out@ + spec_noise_fields(noise_ids@.subrange(i as int, n as int)) == head
                + spec_noise_fields(noise_ids@),
        decreases n - i,
    {
        proof {
            let suf = noise_ids@.subrange(i as int, n as int);
            assert(suf[0] == noise_ids@[i as int]);
            assert(suf.drop_first() =~= noise_ids@.subrange(i + 1, n as int));
        }
        out.append("pub ");
        out.append(noise_field_ident(noise_ids.at(i).as_str()).as_str());
        out.append(": NormalNoise, ");
        i = i + 1;
    }
    proof {
        assert(noise_ids@.subrange(n as int, n as int).len() == 0);
    }
    out.append("}");
    out
}

/// Emits the noise-bundle constructor: builds every generator from the
/// seed's positional splitter and the noise parameter table.
pub fn gen_noises_impl(prefix: &str, noise_ids: &StrSet) -> (out: String)
    ensures
        out@ == "impl "@ + prefix@
            + "Noises { pub fn create(splitter: &RandomSplitter, params: &rustc_hash::FxHashMap<String, steel_utils::density::NoiseParameters>) -> Self { Self { "@
            + spec_noise_inits(noise_ids@) + "} } }"@,
{
    let mut out = String::from_str("impl ");
    out.append(prefix);
    out.append(
        "Noises { pub fn create(splitter: &RandomSplitter, params: &rustc_hash::FxHashMap<String, steel_utils::density::NoiseParameters>) -> Self { Self { ",
    );
    let n = noise_ids.len();
    let ghost head = out@;
    proof {
        assert(noise_ids@.subrange(0, n as int) =~= noise_ids@);
    }
    let mut i: usize = 0;
    while i < n
        invariant
            n == noise_ids@.len(),
            i <= n,
            out@ + spec_noise_inits(noise_ids@.subrange(i as int, n as int)) == head
                + spec_noise_inits(noise_ids@),
        decreases n - i,
    {
        proof {
            let suf = noise_ids@.subrange(i as int, n as int);
            assert(suf[0] == noise_ids@[i as int]);
            assert(suf.drop_first() =~= noise_ids@.subrange(i + 1, n as int));
        }
        let id = noise_ids.at(i);
        out.append(noise_field_ident(id.as_str()).as_str());
        out.append(": { let p = params.get(\"");
        out.append(id.as_str());
        out.append("\").expect(\"missing noise params\"); NormalNoise::create(splitter, \"");
        out.append(id.as_str());
        out.append("\", p.first_octave, &p.amplitudes) }, ");
        i = i + 1;
    }
    proof {
        assert(noise_ids@.subrange(n as int, n as int).len() == 0);
    }
    out.append("} } }");
    out
}

/// The topologically ordered names that are flat: the column cache holds
/// one field for each, in this order.
pub open spec fn spec_filter_flat(names: Seq<String>, flat: StrSet) -> Seq<String>
    decreases names,
{
    if names.len() == 0 {
        Seq::empty()
    } else if flat.has(names[0]@) {
        seq![names[0]] + spec_filter_flat(names.drop_first(), flat)
    } else {
        spec_filter_flat(names.drop_first(), flat)
    }
}

/// Filtering distributes over appending one name.
proof fn lemma_filter_flat_push(names: Seq<String>, x: String, flat: StrSet)
    ensures
        spec_filter_flat(names.push(x), flat) == if flat.has(x@) {
            spec_filter_flat(names, flat).push(x)
        } else {
            spec_filter_flat(names, flat)
        },
    decreases names.len(),
{
    let all = names.push(x);
    if names.len() == 0 {
        assert(all[0] == x);
        assert(all.drop_first() =~= Seq::<String>::empty());
        assert(spec_filter_flat(Seq::<String>::empty(), flat) == Seq::<String>::empty());
        assert(spec_filter_flat(names, flat) == Seq::<String>::empty());
        if flat.has(x@) {
            assert(spec_filter_flat(all, flat) == seq![all[0]] + spec_filter_flat(
                all.drop_first(),
                flat,
            ));
            assert(seq![x] + Seq::<String>::empty() =~= Seq::<String>::empty().push(x));
        } else {
            assert(spec_filter_flat(all, flat) == spec_filter_flat(all.drop_first(), flat));
        }
    } else {
        lemma_filter_flat_push(names.drop_first(), x, flat);
        assert(all[0] == names[0]);
        assert(all.drop_first() =~= names.drop_first().push(x));
        if flat.has(names[0]@) {
            assert(spec_filter_flat(all, flat) == seq![all[0]] + spec_filter_flat(
                all.drop_first(),
                flat,
            ));
            assert(spec_filter_flat(names, flat) == seq![names[0]] + spec_filter_flat(
                names.drop_first(),
                flat,
            ));
            if flat.has(x@) {
                assert(seq![names[0]] + spec_filter_flat(names.drop_first(), flat).push(x)
                    =~= (seq![names[0]] + spec_filter_flat(names.drop_first(), flat)).push(x));
            }
        } else {
            assert(spec_filter_flat(all, flat) == spec_filter_flat(all.drop_first(), flat));
        }
    }
}

/// Keeps, of a name list, those that are flat, in order.
pub fn filter_flat(names: &Vec<String>, flat: &StrSet) -> (out: Vec<String>)
    ensures
        out@ == spec_filter_flat(names@, *flat),
{
    let n = names.len();
    let mut out: Vec<String> = Vec::new();
    proof {
        assert(names@.subrange(0, 0) =~= Seq::<String>::empty());
        assert(out@ =~= spec_filter_flat(names@.subrange(0, 0), *flat));
    }
    let mut i: usize = 0;
    while i < n
        invariant
            n == names@.len(),
            i <= n,
            out@ == spec_filter_flat(names@.subrange(0, i as int), *flat),
        decreases n - i,
    {
        proof {
            lemma_filter_flat_push(names@.subrange(0, i as int), names@[i as int], *flat);
            assert(names@.subrange(0, i + 1) =~= names@.subrange(0, i as int).push(
                names@[i as int],
            ));
        }
        if flat.contains(names[i].as_str()) {
            out.push(names[i].clone());
        }
        i = i + 1;
    }
    proof {
        assert(names@.subrange(0, n as int) =~= names@);
    }
    out
}

/// One `f64` cache field declaration per flat name, with the given field
/// name prefix.
pub open spec fn spec_cache_fields(names: Seq<String>) -> Seq<char>
    decreases names,
{
    if names.len() == 0 {
        Seq::empty()
    } else {
        "pub "@ + named_field(names[0]@) + ": f64, "@ + spec_cache_fields(names.drop_first())
    }
}

/// One router result field declaration per flat router name.
pub open spec fn spec_router_fields(names: Seq<Seq<char>>) -> Seq<char>
    decreases names,
{
    if names.len() == 0 {
        Seq::empty()
    } else {
        "pub router_"@ + sanitize_seq(strip_namespace(names[0])) + ": f64, "@ + spec_router_fields(
            names.drop_first(),
        )
    }
}

/// One zero initialiser per flat name.
pub open spec fn spec_cache_zeros(names: Seq<String>) -> Seq<char>
    decreases names,
{
    if names.len() == 0 {
        Seq::empty()
    } else {
        named_field(names[0]@) + ": 0.0, "@ + spec_cache_zeros(names.drop_first())
    }
}

/// One zero initialiser per flat router name.
pub open spec fn spec_router_zeros(names: Seq<Seq<char>>) -> Seq<char>
    decreases names,
{
    if names.len() == 0 {
        Seq::empty()
    } else {
        "router_"@ + sanitize_seq(strip_namespace(names[0])) + ": 0.0, "@ + spec_router_zeros(
            names.drop_first(),
        )
    }
}

/// One recomputation statement per flat name, in topological order.
pub open spec fn spec_ensure_stmts(names: Seq<String>) -> Seq<char>
    decreases names,
{
    if names.len() == 0 {
        Seq::empty()
    } else {
        "let val = "@ + named_fn(names[0]@) + "(noises, &*self, x, z); self."@ + named_field(
            names[0]@,
        ) + " = val; "@ + spec_ensure_stmts(names.drop_first())
    }
}

/// One recomputation statement per flat router name, after the named
/// fields.
pub open spec fn spec_router_stmts(names: Seq<Seq<char>>) -> Seq<char>
    decreases names,
{
    if names.len() == 0 {
        Seq::empty()
    } else {
        "let val = compute_router_"@ + sanitize_seq(strip_namespace(names[0]))
            + "(noises, &*self, x, z); self.router_"@ + sanitize_seq(strip_namespace(names[0]))
            + " = val; "@ + spec_router_stmts(names.drop_first())
    }
}

/// The whole column-cache emission: the struct with its validity flag and
/// per-value fields, the zeroed constructor, and `ensure`, which skips
/// when the cache already holds this column and otherwise recomputes
/// every flat value in topological order, then every flat router result,
/// then marks the cache valid.
pub open spec fn spec_column_cache(
    prefix: Seq<char>,
    flat_names: Seq<String>,
    routers: Seq<Seq<char>>,
) -> Seq<char> {
    "pub struct "@ + prefix + "ColumnCache { pub x: i32, pub z: i32, valid: bool, "@
        + spec_cache_fields(flat_names) + spec_router_fields(routers) + "} impl "@ + prefix
        + "ColumnCache { pub fn new() -> Self { Self { x: 0, z: 0, valid: false, "@
        + spec_cache_zeros(flat_names) + spec_router_zeros(routers)
        + "} } pub fn ensure(&mut self, x: i32, z: i32, noises: &"@ + prefix
        + "Noises) { if self.valid && self.x == x && self.z == z { return; } self.x = x; self.z = z; "@
        + spec_ensure_stmts(flat_names) + spec_router_stmts(routers) + "self.valid = true; } }"@
}

/// Emits the column cache; the mirror of [`spec_column_cache`].
pub fn gen_column_cache(prefix: &str, flat_names: &Vec<String>, routers: &StrSet) -> (out: String)
    ensures
        out@ == spec_column_cache(prefix@, flat_names@, routers@),
{
    let mut out = String::from_str("pub struct ");
    out.append(prefix);
    out.append("ColumnCache { pub x: i32, pub z: i32, valid: bool, ");
    append_cache_fields(&mut out, flat_names);
    append_router_fields(&mut out, routers);
    out.append("} impl ");
    out.append(prefix);
    out.append("ColumnCache { pub fn new() -> Self { Self { x: 0, z: 0, valid: false, ");
    append_cache_zeros(&mut out, flat_names);
    append_router_zeros(&mut out, routers);
    out.append("} } pub fn ensure(&mut self, x: i32, z: i32, noises: &");
    out.append(prefix);
    out.append(
        "Noises) { if self.valid && self.x == x && self.z == z { return; } self.x = x; self.z = z; ",
    );
    append_ensure_stmts(&mut out, flat_names);
    append_router_stmts(&mut out, routers);
    out.append("self.valid = true; } }");
    out
}

/// Appends the per-name cache field declarations.
fn append_cache_fields(out: &mut String, names: &Vec<String>)
    ensures
        final(out)@ == old(out)@ + spec_cache_fields(names@),
{
    let n = names.len();
    proof {
        assert(names@.subrange(0, n as int) =~= names@);
    }
    let mut i: usize = 0;
    while i < n
        invariant
            n == names@.len(),
            i <= n,
            out@ + spec_cache_fields(names@.subrange(i as int, n as int)) == old(out)@
                + spec_cache_fields(names@),
        decreases n - i,
    {
        proof {
            let suf = names@.subrange(i as int, n as int);
            assert(suf[0] == names@[i as int]);
            assert(suf.drop_first() =~= names@.subrange(i + 1, n as int));
        }
        out.append("pub ");
        out.append(named_fn_field_ident(names[i].as_str()).as_str());
        out.append(": f64, ");
        i = i + 1;
    }
    proof {
        assert(names@.subrange(n as int, n as int).len() == 0);
    }
}

/// Appends the per-router cache field declarations.
fn append_router_fields(out: &mut String, routers: &StrSet)
    ensures
        final(out)@ == old(out)@ + spec_router_fields(routers@),
{
    let n = routers.len();
    proof {
        assert(routers@.subrange(0, n as int) =~= routers@);
    }
    let mut i: usize = 0;
    while i < n
        invariant
            n == routers@.len(),
            i <= n,
            out@ + spec_router_fields(routers@.subrange(i as int, n as int)) == old(out)@
                + spec_router_fields(routers@),
        decreases n - i,
    {
        proof {
            let suf = routers@.subrange(i as int, n as int);
            assert(suf[0] == routers@[i as int]);
            assert(suf.drop_first() =~= routers@.subrange(i + 1, n as int));
        }
        out.append("pub router_");
        out.append(crate::text::sanitize_name(routers.at(i).as_str()).as_str());
        out.append(": f64, ");
        i = i + 1;
    }
    proof {
        assert(routers@.subrange(n as int, n as int).len() == 0);
    }
}

/// Appends the per-name zero initialisers.
fn append_cache_zeros(out: &mut String, names: &Vec<String>)
    ensures
        final(out)@ == old(out)@ + spec_cache_zeros(names@),
{
    let n = names.len();
    proof {
        assert(names@.subrange(0, n as int) =~= names@);
    }
    let mut i: usize = 0;
    while i < n
        invariant
            n == names@.len(),
            i <= n,
            out@ + spec_cache_zeros(names@.subrange(i as int, n as int)) == old(out)@
                + spec_cache_zeros(names@),
        decreases n - i,
    {
        proof {
            let suf = names@.subrange(i as int, n as int);
            assert(suf[0] == names@[i as int]);
            assert(suf.drop_first() =~= names@.subrange(i + 1, n as int));
        }
        out.append(named_fn_field_ident(names[i].as_str()).as_str());
        out.append(": 0.0, ");
        i = i + 1;
    }
    proof {
        assert(names@.subrange(n as int, n as int).len() == 0);
    }
}

/// Appends the per-router zero initialisers.
fn append_router_zeros(out: &mut String, routers: &StrSet)
    ensures
        final(out)@ == old(out)@ + spec_router_zeros(routers@),
{
    let n = routers.len();
    proof {
        assert(routers@.subrange(0, n as int) =~= routers@);
    }
    let mut i: usize = 0;
    while i < n
        invariant
            n == routers@.len(),
            i <= n,
            out@ + spec_router_zeros(routers@.subrange(i as int, n as int)) == old(out)@
                + spec_router_zeros(routers@),
        decreases n - i,
    {
        proof {
            let suf = routers@.subrange(i as int, n as int);
            assert(suf[0] == routers@[i as int]);
            assert(suf.drop_first() =~= routers@.subrange(i + 1, n as int));
        }
        out.append("router_");
        out.append(crate::text::sanitize_name(routers.at(i).as_str()).as_str());
        out.append(": 0.0, ");
        i = i + 1;
    }
    proof {
        assert(routers@.subrange(n as int, n as int).len() == 0);
    }
}

/// Appends the per-name recomputation statements.
fn append_ensure_stmts(out: &mut String, names: &Vec<String>)
    ensures
        final(out)@ == old(out)@ + spec_ensure_stmts(names@),
{
    let n = names.len();
    proof {
        assert(names@.subrange(0, n as int) =~= names@);
    }
    let mut i: usize = 0;
    while i < n
        invariant
            n == names@.len(),
            i <= n,
            out@ + spec_ensure_stmts(names@.subrange(i as int, n as int)) == old(out)@
                + spec_ensure_stmts(names@),
        decreases n - i,
    {
        proof {
            let suf = names@.subrange(i as int, n as int);
            assert(suf[0] == names@[i as int]);
            assert(suf.drop_first() =~= names@.subrange(i + 1, n as int));
        }
        out.append("let val = ");
        out.append(named_fn_ident(names[i].as_str()).as_str());
        out.append("(noises, &*self, x, z); self.");
        out.append(named_fn_field_ident(names[i].as_str()).as_str());
        out.append(" = val; ");
        i = i + 1;
    }
    proof {
        assert(names@.subrange(n as int, n as int).len() == 0);
    }
}

/// The emitted evaluator of one named function: flat functions take only
/// `(x, z)`; 3D functions take `(x, y, z)`.
pub open spec fn spec_named_fn_item(
    prefix: Seq<char>,
    name: Seq<char>,
    def: DensityFunction,
    flat: StrSet,
) -> Seq<char> {
    if flat.has(name) {
        "#[inline] fn "@ + named_fn(name) + "(noises: &"@ + prefix + "Noises, cache: &"@ + prefix
            + "ColumnCache, x: i32, z: i32) -> f64 { "@ + spec_gen_expr(
            spec_unwrap_markers(def),
            true,
            flat,
        ) + " } "@
    } else {
        "#[inline] fn "@ + named_fn(name) + "(noises: &"@ + prefix + "Noises, cache: &"@ + prefix
            + "ColumnCache, x: i32, y: i32, z: i32) -> f64 { "@ + spec_gen_expr(
            spec_unwrap_markers(def),
            false,
            flat,
        ) + " } "@
    }
}

/// One evaluator per topologically ordered name that has a definition.
pub open spec fn spec_named_fns(
    prefix: Seq<char>,
    names: Seq<String>,
    registry: StrMap<DensityFunction>,
    flat: StrSet,
) -> Seq<char>
    decreases names,
{
    if names.len() == 0 {
        Seq::empty()
    } else {
        (if registry.has_key(names[0]@) {
            spec_named_fn_item(prefix, names[0]@, registry.get(names[0]@), flat)
        } else {
            Seq::empty()
        }) + spec_named_fns(prefix, names.drop_first(), registry, flat)
    }
}

/// Emits every named evaluator in topological order; the mirror of
/// [`spec_named_fns`].
#[verifier::rlimit(100)]
#[verifier::spinoff_prover]
pub fn gen_named_functions(
    prefix: &str,
    topo: &Vec<String>,
    registry: &StrMap<DensityFunction>,
    flat: &StrSet,
) -> (out: String)
    requires
        registry.wf(),
    ensures
        out@ == spec_named_fns(prefix@, topo@, *registry, *flat),
{
    let n = topo.len();
    let mut out = String::new();
    proof {
        assert(topo@.subrange(0, n as int) =~= topo@);
        assert(Seq::<char>::empty() + spec_named_fns(prefix@, topo@, *registry, *flat)
            =~= spec_named_fns(prefix@, topo@, *registry, *flat));
    }
    let mut i: usize = 0;
    while i < n
        invariant
            registry.wf(),
            n == topo@.len(),
            i <= n,
            out@ + spec_named_fns(prefix@, topo@.subrange(i as int, n as int), *registry, *flat)
                == spec_named_fns(prefix@, topo@, *registry, *flat),
        decreases n - i,
    {
        proof {
            let suf = topo@.subrange(i as int, n as int);
            assert(suf[0] == topo@[i as int]);
            assert(suf.drop_first() =~= topo@.subrange(i + 1, n as int));
        }
        let name = &topo[i];
        match registry.get_ref(name.as_str()) {
            Some(def) => {
                let is_flat = flat.contains(name.as_str());
                out.append("#[inline] fn ");
                out.append(named_fn_ident(name.as_str()).as_str());
                out.append("(noises: &");
                out.append(prefix);
                if is_flat {
                    out.append("Noises, cache: &");
                    out.append(prefix);
                    out.append("ColumnCache, x: i32, z: i32) -> f64 { ");
                } else {
                    out.append("Noises, cache: &");
                    out.append(prefix);
                    out.append("ColumnCache, x: i32, y: i32, z: i32) -> f64 { ");
                }
                out.append(gen_expr(unwrap_markers(def), is_flat, flat).as_str());
                out.append(" } ");
            },
            None => {},
        }
        i = i + 1;
    }
    proof {
        assert(topo@.subrange(n as int, n as int).len() == 0);
    }
    out
}

/// The emitted router entry for one router name: a flat router gets a
/// private recomputation function for `ensure` plus a public reader of
/// the cached field; any other router evaluates its body directly with
/// the cached column coordinates.
pub open spec fn spec_router_item(
    prefix: Seq<char>,
    name: Seq<char>,
    df: DensityFunction,
    flat: StrSet,
    flat_routers: StrSet,
) -> Seq<char> {
    let san = sanitize_seq(strip_namespace(name));
    if flat_routers.has(name) {
        "#[inline] fn compute_router_"@ + san + "(noises: &"@ + prefix + "Noises, cache: &"@
            + prefix + "ColumnCache, x: i32, z: i32) -> f64 { "@ + spec_gen_expr(
            spec_unwrap_markers(df),
            true,
            flat,
        ) + " } #[inline] pub fn router_"@ + san + "(noises: &"@ + prefix + "Noises, cache: &"@
            + prefix + "ColumnCache, x: i32, y: i32, z: i32) -> f64 { cache.router_"@ + san
            + " } "@
    } else {
        "#[inline] pub fn router_"@ + san + "(noises: &"@ + prefix + "Noises, cache: &"@ + prefix
            + "ColumnCache, x: i32, y: i32, z: i32) -> f64 { let x = cache.x; let z = cache.z; "@
            + spec_gen_expr(spec_unwrap_markers(df), false, flat) + " } "@
    }
}

/// One router entry per router name, in sorted name order.
pub open spec fn spec_router_fns(
    prefix: Seq<char>,
    names: Seq<Seq<char>>,
    routers: StrMap<DensityFunction>,
    flat: StrSet,
    flat_routers: StrSet,
) -> Seq<char>
    decreases names,
{
    if names.len() == 0 {
        Seq::empty()
    } else {
        spec_router_item(prefix, names[0], routers.get(names[0]), flat, flat_routers)
            + spec_router_fns(prefix, names.drop_first(), routers, flat, flat_routers)
    }
}

/// Emits every router entry function; the mirror of [`spec_router_fns`].
#[verifier::rlimit(100)]
#[verifier::spinoff_prover]
pub fn gen_router_functions(
    prefix: &str,
    routers: &StrMap<DensityFunction>,
    flat: &StrSet,
    flat_routers: &StrSet,
) -> (out: String)
    requires
        routers.wf(),
    ensures
        out@ == spec_router_fns(prefix@, routers.key_seq(), *routers, *flat, *flat_routers),
{
    let n = routers.len();
    let mut out = String::new();
    proof {
        assert(routers.key_seq().subrange(0, n as int) =~= routers.key_seq());
        assert(Seq::<char>::empty() + spec_router_fns(
            prefix@,
            routers.key_seq(),
            *routers,
            *flat,
            *flat_routers,
        ) =~= spec_router_fns(prefix@, routers.key_seq(), *routers, *flat, *flat_routers));
    }
    let mut i: usize = 0;
    while i < n
        invariant
            routers.wf(),
            n == routers.key_seq().len(),
            i <= n,
            out@ + spec_router_fns(
                prefix@,
                routers.key_seq().subrange(i as int, n as int),
                *routers,
                *flat,
                *flat_routers,
            ) == spec_router_fns(prefix@, routers.key_seq(), *routers, *flat, *flat_routers),
        decreases n - i,
    {
        proof {
            let suf = routers.key_seq().subrange(i as int, n as int);
            assert(suf[0] == routers.key_seq()[i as int]);
            assert(suf.drop_first() =~= routers.key_seq().subrange(i + 1, n as int));
        }
        let name = routers.key_at(i);
        let df = routers.val_at(i);
        let san = crate::text::sanitize_name(name.as_str());
        if flat_routers.contains(name.as_str()) {
            out.append("#[inline] fn compute_router_");
            out.append(san.as_str());
            out.append("(noises: &");
            out.append(prefix);
            out.append("Noises, cache: &");
            out.append(prefix);
            out.append("ColumnCache, x: i32, z: i32) -> f64 { ");
            out.append(gen_expr(unwrap_markers(df), true, flat).as_str());
            out.append(" } #[inline] pub fn router_");
            out.append(san.as_str());
            out.append("(noises: &");
            out.append(prefix);
            out.append("Noises, cache: &");
            out.append(prefix);
            out.append("ColumnCache, x: i32, y: i32, z: i32) -> f64 { cache.router_");
            out.append(san.as_str());
            out.append(" } ");
        } else {
            out.append("#[inline] pub fn router_");
            out.append(san.as_str());
            out.append("(noises: &");
            out.append(prefix);
            out.append("Noises, cache: &");
            out.append(prefix);
            out.append(
                "ColumnCache, x: i32, y: i32, z: i32) -> f64 { let x = cache.x; let z = cache.z; ",
            );
            out.append(gen_expr(unwrap_markers(df), false, flat).as_str());
            out.append(" } ");
        }
        i = i + 1;
    }
    proof {
        assert(routers.key_seq().subrange(n as int, n as int).len() == 0);
    }
    out
}

/// Appends the per-router recomputation statements.
fn append_router_stmts(out: &mut String, routers: &StrSet)
    ensures
        final(out)@ == old(out)@ + spec_router_stmts(routers@),
{
    let n = routers.len();
    proof {
        assert(routers@.subrange(0, n as int) =~= routers@);
    }
    let mut i: usize = 0;
    while i < n
        invariant
            n == routers@.len(),
            i <= n,
            out@ + spec_router_stmts(routers@.subrange(i as int, n as int)) == old(out)@
                + spec_router_stmts(routers@),
        decreases n - i,
    {
        proof {
            let suf = routers@.subrange(i as int, n as int);
            assert(suf[0] == routers@[i as int]);
            assert(suf.drop_first() =~= routers@.subrange(i + 1, n as int));
        }
        let san = crate::text::sanitize_name(routers.at(i).as_str());
        out.append("let val = compute_router_");
        out.append(san.as_str());
        out.append("(noises, &*self, x, z); self.router_");
        out.append(san.as_str());
        out.append(" = val; ");
        i = i + 1;
    }
    proof {
        assert(routers@.subrange(n as int, n as int).len() == 0);
    }
}



/// The emitted constructor of one climate interval.
pub open spec fn spec_param_new(p: Parameter) -> Seq<char> {
    "Parameter::new("@ + int_digits(p.min as int) + ", "@ + int_digits(p.max as int) + ")"@
}

/// The emitted text of one biome parameter entry: the quantized 6-axis
/// box with its offset, paired with the biome constant named by the id.
pub open spec fn spec_biome_entry(id: Seq<char>, pp: ParameterPoint) -> Seq<char> {
    "(ParameterPoint::new("@ + spec_param_new(pp.temperature) + ", "@ + spec_param_new(pp.humidity)
        + ", "@ + spec_param_new(pp.continentalness) + ", "@ + spec_param_new(pp.erosion) + ", "@
        + spec_param_new(pp.depth) + ", "@ + spec_param_new(pp.weirdness) + ", "@ + int_digits(
        pp.offset as int,
    ) + "), &*vanilla_biomes::"@ + upper_seq(strip_namespace(id)) + "), "@
}

/// One entry per list element, in input order: the order is the
/// nearest-neighbour tie-break, so it must survive emission.
pub open spec fn spec_biome_entries(entries: Seq<(String, ParameterPoint)>) -> Seq<char>
    decreases entries,
{
    if entries.len() == 0 {
        Seq::empty()
    } else {
        spec_biome_entry(entries[0].0@, entries[0].1) + spec_biome_entries(entries.drop_first())
    }
}

/// Builds the emitted constructor of one climate interval.
fn param_new_str(p: &Parameter) -> (out: String)
    ensures
        out@ == spec_param_new(*p),
{
    let mut out = String::from_str("Parameter::new(");
    out.append(i64_to_string(p.min).as_str());
    out.append(", ");
    out.append(i64_to_string(p.max).as_str());
    out.append(")");
    out
}

/// Emits the biome parameter entries of one preset, in input order, each
/// pairing the quantized parameter box with its biome constant; the
/// mirror of [`spec_biome_entries`].
#[verifier::rlimit(100)]
#[verifier::spinoff_prover]
pub fn gen_biome_entries(entries: &Vec<(String, ParameterPoint)>) -> (out: String)
    ensures
        out@ == spec_biome_entries(entries@),
{
    let n = entries.len();
    let mut out = String::new();
    proof {
        assert(entries@.subrange(0, n as int) =~= entries@);
        assert(Seq::<char>::empty() + spec_biome_entries(entries@) =~= spec_biome_entries(
            entries@,
        ));
    }
    let mut i: usize = 0;
    while i < n
        invariant
            n == entries@.len(),
            i <= n,
            out@ + spec_biome_entries(entries@.subrange(i as int, n as int))
                == spec_biome_entries(entries@),
        decreases n - i,
    {
        proof {
            let suf = entries@.subrange(i as int, n as int);
            assert(suf[0] == entries@[i as int]);
            assert(suf.drop_first() =~= entries@.subrange(i + 1, n as int));
        }
        let pp = &entries[i].1;
        out.append("(ParameterPoint::new(");
        out.append(param_new_str(&pp.temperature).as_str());
        out.append(", ");
        out.append(param_new_str(&pp.humidity).as_str());
        out.append(", ");
        out.append(param_new_str(&pp.continentalness).as_str());
        out.append(", ");
        out.append(param_new_str(&pp.erosion).as_str());
        out.append(", ");
        out.append(param_new_str(&pp.depth).as_str());
        out.append(", ");
        out.append(param_new_str(&pp.weirdness).as_str());
        out.append(", ");
        out.append(i64_to_string(pp.offset).as_str());
        out.append("), &*vanilla_biomes::");
        out.append(biome_ident(entries[i].0.as_str()).as_str());
        out.append("), ");
        i = i + 1;
    }
    proof {
        assert(entries@.subrange(n as int, n as int).len() == 0);
    }
    out
}

/// Input to the transpiler: the named density functions, the router
/// entry points of one dimension, and the prefix for the emitted struct
/// names.
pub struct TranspilerInput {
    /// Named density functions, keyed by id.
    pub registry: StrMap<DensityFunction>,
    /// Router entry points, keyed by entry name.
    pub router_entries: StrMap<DensityFunction>,
    /// Prefix for the emitted noise-bundle and cache struct names.
    pub prefix: String,
}

/// The import header every emitted dimension module starts with.
pub open spec fn spec_imports() -> Seq<char> {
    "use steel_utils::density::spline_eval; use steel_utils::density::RarityValueMapper; use steel_utils::math::{clamp, map_clamped}; use steel_utils::noise::NormalNoise; use steel_utils::random::RandomSplitter; "@
}

/// The whole emitted module for one dimension, assembled from the parts
/// in a fixed order: imports, noise bundle, its constructor, the column
/// cache, the named evaluators, the router entry functions.
pub open spec fn spec_transpile_text(
    input: TranspilerInput,
    a: crate::analyze::Analysis,
    flat_names: Seq<String>,
) -> Seq<char> {
    spec_imports() + "pub struct "@ + input.prefix@ + "Noises { "@ + spec_noise_fields(
        a.noise_ids@,
    ) + "}"@ + " "@ + "impl "@ + input.prefix@
        + "Noises { pub fn create(splitter: &RandomSplitter, params: &rustc_hash::FxHashMap<String, steel_utils::density::NoiseParameters>) -> Self { Self { "@
        + spec_noise_inits(a.noise_ids@) + "} } }"@ + " "@ + spec_column_cache(
        input.prefix@,
        flat_names,
        a.flat_routers@,
    ) + " "@ + spec_named_fns(input.prefix@, a.topo_order@, input.registry, a.flat_cached) + " "@
        + spec_router_fns(
        input.prefix@,
        input.router_entries.key_seq(),
        input.router_entries,
        a.flat_cached,
        a.flat_routers,
    )
}

/// Compiles one dimension's density function graph to the source text of
/// its native evaluators.  The graph must be acyclic; a reference cycle
/// among the used names is reported instead of code.
#[verifier::rlimit(100)]
#[verifier::spinoff_prover]
pub fn transpile(input: &TranspilerInput) -> (r: Result<String, crate::analyze::CycleError>)
    requires
        input.registry.wf(),
        input.router_entries.wf(),
    ensures
        r is Err ==> crate::analyze::has_ref_cycle(input.registry),
        r matches Ok(code) ==> exists|a: crate::analyze::Analysis|
            #[trigger] crate::analyze::analysis_valid(input.registry, input.router_entries, a)
                && code@ == spec_transpile_text(
                *input,
                a,
                spec_filter_flat(a.topo_order@, a.flat_cached),
            ),
{
    let a = match crate::analyze::analyze(&input.registry, &input.router_entries) {
        Ok(a) => a,
        Err(e) => {
            return Err(e);
        },
    };
    let flat_names = filter_flat(&a.topo_order, &a.flat_cached);
    let mut out = String::new();
    out.append(
        "use steel_utils::density::spline_eval; use steel_utils::density::RarityValueMapper; use steel_utils::math::{clamp, map_clamped}; use steel_utils::noise::NormalNoise; use steel_utils::random::RandomSplitter; ",
    );
    out.append(gen_noises_struct(input.prefix.as_str(), &a.noise_ids).as_str());
    out.append(" ");
    out.append(gen_noises_impl(input.prefix.as_str(), &a.noise_ids).as_str());
    out.append(" ");
    out.append(gen_column_cache(input.prefix.as_str(), &flat_names, &a.flat_routers).as_str());
    out.append(" ");
    out.append(
        gen_named_functions(
            input.prefix.as_str(),
            &a.topo_order,
            &input.registry,
            &a.flat_cached,
        ).as_str(),
    );
    out.append(" ");
    out.append(
        gen_router_functions(
            input.prefix.as_str(),
            &input.router_entries,
            &a.flat_cached,
            &a.flat_routers,
        ).as_str(),
    );
    proof {
        assert(crate::analyze::analysis_valid(input.registry, input.router_entries, a));
        assert(out@ =~= spec_transpile_text(
            *input,
            a,
            spec_filter_flat(a.topo_order@, a.flat_cached),
        ));
    }
    Ok(out)
}

} // verus!
