//! Lowering from parsed JSON to the density function tree.
//!
//! The JSON format is polymorphic: a bare number is a constant, a bare
//! string a named reference, and an object dispatches on its `type` field.
//! Unknown type names are a build error; the known-but-unimplemented
//! `beardifier` and `find_top_surface` kinds lower to the constant 0
//! on purpose.
//!
//! [`lower_ok`] says exactly which JSON values lower successfully and
//! [`lowers_to`] what tree they lower to; [`json_to_df`] is proved to
//! follow both.

use vstd::prelude::*;
use vstd::string::*;
use crate::density::{
    BlendAlpha, BlendDensity, BlendOffset, BlendedNoise, Clamp, Constant, CubicSpline,
    DensityFunction, Mapped, MappedType, Marker, MarkerType, Noise, RangeChoice, RarityValueMapper,
    Reference, Shift, ShiftA, ShiftB, ShiftedNoise, Spline, SplinePoint, SplineValue,
    TwoArgType, TwoArgumentSimple, WeirdScaledSampler, YClampedGradient,
};
use crate::json::{
    JsonValue, lemma_lookup_decreases, lemma_lookup_decreases_vec, lemma_obj_lookup_is_field,
    obj_get, obj_lookup,
};
use crate::strkey::{StrMap, str_eq};

verus! {

/// The build error of lowering: the JSON value does not describe a
/// density function.
#[derive(Clone, Copy, PartialEq, Eq, Structural, Debug)]
pub struct LowerError;

/// Whether field `k` holds a number.
pub open spec fn lookup_num(fields: Seq<(String, JsonValue)>, k: Seq<char>) -> bool {
    match obj_lookup(fields, k) {
        Some(v) => v is Num,
        None => false,
    }
}

/// The numeral text of number field `k`.
pub open spec fn num_of(fields: Seq<(String, JsonValue)>, k: Seq<char>) -> Seq<char> {
    obj_lookup(fields, k)->Some_0->Num_0@
}

/// Whether field `k` holds a string.
pub open spec fn lookup_str(fields: Seq<(String, JsonValue)>, k: Seq<char>) -> bool {
    match obj_lookup(fields, k) {
        Some(v) => v is Str,
        None => false,
    }
}

/// The text of string field `k`.
pub open spec fn str_of(fields: Seq<(String, JsonValue)>, k: Seq<char>) -> Seq<char> {
    obj_lookup(fields, k)->Some_0->Str_0@
}

/// A constant's argument: the `value` field, or `argument` when `value`
/// is absent.
pub open spec fn const_arg(fields: Seq<(String, JsonValue)>) -> Option<JsonValue> {
    match obj_lookup(fields, "value"@) {
        Some(v) => Some(v),
        None => obj_lookup(fields, "argument"@),
    }
}

/// The unary-transformer kind named by type tag `t`, if any.
pub open spec fn mapped_kind_of(t: Seq<char>) -> Option<MappedType> {
    if t == "minecraft:abs"@ {
        Some(MappedType::Abs)
    } else if t == "minecraft:square"@ {
        Some(MappedType::Square)
    } else if t == "minecraft:cube"@ {
        Some(MappedType::Cube)
    } else if t == "minecraft:half_negative"@ {
        Some(MappedType::HalfNegative)
    } else if t == "minecraft:quarter_negative"@ {
        Some(MappedType::QuarterNegative)
    } else if t == "minecraft:invert"@ {
        Some(MappedType::Invert)
    } else if t == "minecraft:squeeze"@ {
        Some(MappedType::Squeeze)
    } else {
        None
    }
}

/// The two-argument operation named by type tag `t`, if any.
pub open spec fn two_arg_kind_of(t: Seq<char>) -> Option<TwoArgType> {
    if t == "minecraft:add"@ {
        Some(TwoArgType::Add)
    } else if t == "minecraft:mul"@ {
        Some(TwoArgType::Mul)
    } else if t == "minecraft:min"@ {
        Some(TwoArgType::Min)
    } else if t == "minecraft:max"@ {
        Some(TwoArgType::Max)
    } else {
        None
    }
}

/// The marker kind named by type tag `t`, if any.
pub open spec fn marker_kind_of(t: Seq<char>) -> Option<MarkerType> {
    if t == "minecraft:interpolated"@ {
        Some(MarkerType::Interpolated)
    } else if t == "minecraft:flat_cache"@ {
        Some(MarkerType::FlatCache)
    } else if t == "minecraft:cache_once"@ {
        Some(MarkerType::CacheOnce)
    } else if t == "minecraft:cache_2d"@ {
        Some(MarkerType::Cache2D)
    } else if t == "minecraft:cache_all_in_cell"@ {
        Some(MarkerType::CacheAllInCell)
    } else {
        None
    }
}

/// Whether `j` describes a density function: the domain of lowering.
pub open spec fn lower_ok(j: JsonValue) -> bool
    decreases j,
{
    match j {
        JsonValue::Num(_) => true,
        JsonValue::Str(_) => true,
        JsonValue::Obj(fields) => match obj_lookup(fields@, "type"@) {
            Some(tv) => tv matches JsonValue::Str(t) && {
                let tt = t@;
                if tt == "minecraft:constant"@ {
                    match const_arg(fields@) {
                        Some(v) => v is Num,
                        None => false,
                    }
                } else if tt == "minecraft:y_clamped_gradient"@ {
                    lookup_num(fields@, "from_y"@) && lookup_num(fields@, "to_y"@) && lookup_num(
                        fields@,
                        "from_value"@,
                    ) && lookup_num(fields@, "to_value"@)
                } else if tt == "minecraft:noise"@ {
                    lookup_num(fields@, "xz_scale"@) && lookup_num(fields@, "y_scale"@)
                        && lookup_str(fields@, "noise"@)
                } else if tt == "minecraft:shifted_noise"@ {
                    lookup_num(fields@, "xz_scale"@) && lookup_num(fields@, "y_scale"@)
                        && lookup_str(fields@, "noise"@) && field_lower_ok(fields@, "shift_x"@)
                        && field_lower_ok(fields@, "shift_y"@) && field_lower_ok(
                        fields@,
                        "shift_z"@,
                    )
                } else if tt == "minecraft:shift_a"@ || tt == "minecraft:shift_b"@ || tt
                    == "minecraft:shift"@ {
                    lookup_str(fields@, "argument"@)
                } else if tt == "minecraft:clamp"@ {
                    lookup_num(fields@, "min"@) && lookup_num(fields@, "max"@) && field_lower_ok(
                        fields@,
                        "input"@,
                    )
                } else if mapped_kind_of(tt) is Some {
                    field_lower_ok(fields@, "argument"@)
                } else if two_arg_kind_of(tt) is Some {
                    field_lower_ok(fields@, "argument1"@) && field_lower_ok(fields@, "argument2"@)
                } else if tt == "minecraft:spline"@ {
                    match obj_lookup(fields@, "spline"@) {
                        Some(sj) => spline_ok(sj),
                        None => false,
                    }
                } else if tt == "minecraft:range_choice"@ {
                    lookup_num(fields@, "min_inclusive"@) && lookup_num(fields@, "max_exclusive"@)
                        && field_lower_ok(fields@, "input"@) && field_lower_ok(
                        fields@,
                        "when_in_range"@,
                    ) && field_lower_ok(fields@, "when_out_of_range"@)
                } else if marker_kind_of(tt) is Some {
                    field_lower_ok(fields@, "argument"@)
                } else if tt == "minecraft:blend_offset"@ || tt == "minecraft:blend_alpha"@ || tt
                    == "minecraft:beardifier"@ || tt == "minecraft:end_islands"@ || tt
                    == "minecraft:find_top_surface"@ {
                    true
                } else if tt == "minecraft:blend_density"@ {
                    field_lower_ok(fields@, "argument"@)
                } else if tt == "minecraft:weird_scaled_sampler"@ {
                    lookup_str(fields@, "noise"@) && lookup_str(fields@, "rarity_value_mapper"@)
                        && field_lower_ok(fields@, "input"@)
                } else if tt == "minecraft:old_blended_noise"@ {
                    lookup_num(fields@, "xz_scale"@) && lookup_num(fields@, "y_scale"@)
                        && lookup_num(fields@, "xz_factor"@) && lookup_num(fields@, "y_factor"@)
                        && lookup_num(fields@, "smear_scale_multiplier"@)
                } else {
                    false
                }
            },
            None => false,
        },
        _ => false,
    }
}

/// Whether the named field of an object describes a density function.
pub open spec fn field_lower_ok(fields: Seq<(String, JsonValue)>, k: Seq<char>) -> bool
    decreases fields,
{
    match obj_lookup(fields, k) {
        Some(sub) => {
            {
                proof {
                    let i = lemma_obj_lookup_is_field(fields, k);
                    assert(decreases_to!(fields => fields[i]));
                    assert(decreases_to!(fields[i] => fields[i].1));
                }
                lower_ok(sub)
            }
        },
        None => false,
    }
}

/// Whether `j` describes a spline: a bare number or a multipoint object.
pub open spec fn spline_ok(j: JsonValue) -> bool
    decreases j,
{
    match j {
        JsonValue::Num(_) => true,
        JsonValue::Obj(fields) => lookup_str(fields@, "coordinate"@) && match obj_lookup(
            fields@,
            "points"@,
        ) {
            None => true,
            Some(pv) => pv matches JsonValue::Arr(elems) && {
                proof {
                    if obj_lookup(fields@, "points"@) matches Some(x) && x matches JsonValue::Arr(
                        e,
                    ) {
                        lemma_lookup_decreases(j, "points"@);
                        assert(decreases_to!(pv => elems));
                        assert(decreases_to!(elems => elems@));
                    }
                }
                points_ok(elems@)
            },
        },
        _ => false,
    }
}

/// Whether every element of a point array describes a spline point.
pub open spec fn points_ok(s: Seq<JsonValue>) -> bool
    decreases s,
{
    if s.len() == 0 {
        true
    } else {
        point_ok(s[0]) && points_ok(s.drop_first())
    }
}

/// Whether `j` describes one spline point.
pub open spec fn point_ok(j: JsonValue) -> bool
    decreases j,
{
    match j {
        JsonValue::Obj(fields) => lookup_num(fields@, "location"@) && lookup_num(
            fields@,
            "derivative"@,
        ) && match obj_lookup(fields@, "value"@) {
            Some(v) => {
                {
                    proof {
                        lemma_lookup_decreases(j, "value"@);
                    }
                    spline_ok(v)
                }
            },
            None => false,
        },
        _ => false,
    }
}

/// What `j` lowers to: holds of exactly the tree [`json_to_df`] builds.
pub open spec fn lowers_to(j: JsonValue, df: DensityFunction) -> bool
    decreases j,
{
    match j {
        JsonValue::Num(s) => df matches DensityFunction::Constant(c) && c.value@ == s@,
        JsonValue::Str(s) => df matches DensityFunction::Reference(r) && r.id@ == s@ && r.resolved
            is None,
        JsonValue::Obj(fields) => match obj_lookup(fields@, "type"@) {
            Some(tv) => tv matches JsonValue::Str(t) && {
                let tt = t@;
                if tt == "minecraft:constant"@ {
                    match const_arg(fields@) {
                        Some(v) => v matches JsonValue::Num(n) && df matches
                            DensityFunction::Constant(c) && c.value@ == n@,
                        None => false,
                    }
                } else if tt == "minecraft:y_clamped_gradient"@ {
                    df matches DensityFunction::YClampedGradient(g) && g.from_y@ == num_of(
                        fields@,
                        "from_y"@,
                    ) && g.to_y@ == num_of(fields@, "to_y"@) && g.from_value@ == num_of(
                        fields@,
                        "from_value"@,
                    ) && g.to_value@ == num_of(fields@, "to_value"@)
                } else if tt == "minecraft:noise"@ {
                    df matches DensityFunction::Noise(n) && n.noise_id@ == str_of(
                        fields@,
                        "noise"@,
                    ) && n.xz_scale@ == num_of(fields@, "xz_scale"@) && n.y_scale@ == num_of(
                        fields@,
                        "y_scale"@,
                    )
                } else if tt == "minecraft:shifted_noise"@ {
                    df matches DensityFunction::ShiftedNoise(sn) && sn.noise_id@ == str_of(
                        fields@,
                        "noise"@,
                    ) && sn.xz_scale@ == num_of(fields@, "xz_scale"@) && sn.y_scale@ == num_of(
                        fields@,
                        "y_scale"@,
                    ) && field_lowers_to(fields@, "shift_x"@, *sn.shift_x) && field_lowers_to(
                        fields@,
                        "shift_y"@,
                        *sn.shift_y,
                    ) && field_lowers_to(fields@, "shift_z"@, *sn.shift_z)
                } else if tt == "minecraft:shift_a"@ {
                    df matches DensityFunction::ShiftA(s) && s.noise_id@ == str_of(
                        fields@,
                        "argument"@,
                    )
                } else if tt == "minecraft:shift_b"@ {
                    df matches DensityFunction::ShiftB(s) && s.noise_id@ == str_of(
                        fields@,
                        "argument"@,
                    )
                } else if tt == "minecraft:shift"@ {
                    df matches DensityFunction::Shift(s) && s.noise_id@ == str_of(
                        fields@,
                        "argument"@,
                    )
                } else if tt == "minecraft:clamp"@ {
                    df matches DensityFunction::Clamp(c) && c.min@ == num_of(fields@, "min"@)
                        && c.max@ == num_of(fields@, "max"@) && field_lowers_to(
                        fields@,
                        "input"@,
                        *c.input,
                    )
                } else if mapped_kind_of(tt) is Some {
                    df matches DensityFunction::Mapped(m) && Some(m.op) == mapped_kind_of(tt)
                        && field_lowers_to(fields@, "argument"@, *m.input)
                } else if two_arg_kind_of(tt) is Some {
                    df matches DensityFunction::TwoArgumentSimple(t2) && Some(t2.op)
                        == two_arg_kind_of(tt) && field_lowers_to(
                        fields@,
                        "argument1"@,
                        *t2.argument1,
                    ) && field_lowers_to(fields@, "argument2"@, *t2.argument2)
                } else if tt == "minecraft:spline"@ {
                    match obj_lookup(fields@, "spline"@) {
                        Some(sj) => {
                            {
                                proof {
                                    lemma_lookup_decreases(j, "spline"@);
                                }
                                df matches DensityFunction::Spline(sp) && spline_to(
                                    sj,
                                    *sp.spline,
                                )
                            }
                        },
                        None => false,
                    }
                } else if tt == "minecraft:range_choice"@ {
                    df matches DensityFunction::RangeChoice(rc) && rc.min_inclusive@ == num_of(
                        fields@,
                        "min_inclusive"@,
                    ) && rc.max_exclusive@ == num_of(fields@, "max_exclusive"@) && field_lowers_to(
                        fields@,
                        "input"@,
                        *rc.input,
                    ) && field_lowers_to(fields@, "when_in_range"@, *rc.when_in_range)
                        && field_lowers_to(fields@, "when_out_of_range"@, *rc.when_out_of_range)
                } else if marker_kind_of(tt) is Some {
                    df matches DensityFunction::Marker(m) && Some(m.kind) == marker_kind_of(tt)
                        && field_lowers_to(fields@, "argument"@, *m.wrapped)
                } else if tt == "minecraft:blend_offset"@ {
                    df matches DensityFunction::BlendOffset(_)
                } else if tt == "minecraft:blend_alpha"@ {
                    df matches DensityFunction::BlendAlpha(_)
                } else if tt == "minecraft:beardifier"@ || tt == "minecraft:find_top_surface"@ {
                    df matches DensityFunction::Constant(c) && c.value@ == "0.0"@
                } else if tt == "minecraft:end_islands"@ {
                    df is EndIslands
                } else if tt == "minecraft:blend_density"@ {
                    df matches DensityFunction::BlendDensity(bd) && field_lowers_to(
                        fields@,
                        "argument"@,
                        *bd.input,
                    )
                } else if tt == "minecraft:weird_scaled_sampler"@ {
                    df matches DensityFunction::WeirdScaledSampler(w) && w.noise_id@ == str_of(
                        fields@,
                        "noise"@,
                    ) && lookup_str(fields@, "rarity_value_mapper"@) && (if str_of(
                        fields@,
                        "rarity_value_mapper"@,
                    ) == "type_1"@ {
                        w.rarity_value_mapper is Tunnels
                    } else {
                        w.rarity_value_mapper is Caves
                    }) && field_lowers_to(fields@, "input"@, *w.input)
                } else if tt == "minecraft:old_blended_noise"@ {
                    df matches DensityFunction::BlendedNoise(bn) && bn.xz_scale@ == num_of(
                        fields@,
                        "xz_scale"@,
                    ) && bn.y_scale@ == num_of(fields@, "y_scale"@) && bn.xz_factor@ == num_of(
                        fields@,
                        "xz_factor"@,
                    ) && bn.y_factor@ == num_of(fields@, "y_factor"@) && bn.smear_scale_multiplier@
                        == num_of(fields@, "smear_scale_multiplier"@)
                } else {
                    false
                }
            },
            None => false,
        },
        _ => false,
    }
}

/// What the named field of an object lowers to.
pub open spec fn field_lowers_to(
    fields: Seq<(String, JsonValue)>,
    k: Seq<char>,
    df: DensityFunction,
) -> bool
    decreases fields,
{
    match obj_lookup(fields, k) {
        Some(sub) => {
            {
                proof {
                    let i = lemma_obj_lookup_is_field(fields, k);
                    assert(decreases_to!(fields => fields[i]));
                    assert(decreases_to!(fields[i] => fields[i].1));
                }
                lowers_to(sub, df)
            }
        },
        None => false,
    }
}

/// What a spline description lowers to: a bare number becomes a spline
/// with one point at location 0 holding that constant, over the constant
/// 0 coordinate; a multipoint object becomes its point list over a named
/// coordinate reference.
pub open spec fn spline_to(j: JsonValue, cs: CubicSpline) -> bool
    decreases j,
{
    match j {
        JsonValue::Num(v) => {
            &&& (*cs.coordinate) matches DensityFunction::Constant(c) && c.value@ == "0.0"@
            &&& cs.points@.len() == 1
            &&& cs.points@[0].location@ == "0.0"@
            &&& cs.points@[0].derivative@ == "0.0"@
            &&& cs.points@[0].value matches SplineValue::Constant(pc) && pc@ == v@
        },
        JsonValue::Obj(fields) => {
            &&& lookup_str(fields@, "coordinate"@)
            &&& (*cs.coordinate) matches DensityFunction::Reference(r) && r.id@ == str_of(
                fields@,
                "coordinate"@,
            ) && r.resolved is None
            &&& match obj_lookup(fields@, "points"@) {
                None => cs.points@.len() == 0,
                Some(pv) => pv matches JsonValue::Arr(elems) && {
                    proof {
                        if obj_lookup(fields@, "points"@) matches Some(x) && x matches
                            JsonValue::Arr(e) {
                            lemma_lookup_decreases(j, "points"@);
                            assert(decreases_to!(pv => elems));
                            assert(decreases_to!(elems => elems@));
                        }
                    }
                    points_to(elems@, cs.points@)
                },
            }
        },
        _ => false,
    }
}

/// What a point array lowers to, element by element and in order.
pub open spec fn points_to(s: Seq<JsonValue>, ps: Seq<SplinePoint>) -> bool
    decreases s,
{
    if s.len() == 0 {
        ps.len() == 0
    } else {
        ps.len() > 0 && point_to(s[0], ps[0]) && points_to(s.drop_first(), ps.drop_first())
    }
}

/// What one spline point description lowers to: a numeric `value` becomes
/// a constant point value, an object a nested spline.
pub open spec fn point_to(j: JsonValue, p: SplinePoint) -> bool
    decreases j,
{
    match j {
        JsonValue::Obj(fields) => p.location@ == num_of(fields@, "location"@) && lookup_num(
            fields@,
            "location"@,
        ) && p.derivative@ == num_of(fields@, "derivative"@) && lookup_num(fields@, "derivative"@)
            && match obj_lookup(fields@, "value"@) {
            Some(v) => {
                {
                    proof {
                        lemma_lookup_decreases(j, "value"@);
                    }
                    match v {
                        JsonValue::Num(c) => p.value matches SplineValue::Constant(pc) && pc@
                            == c@,
                        JsonValue::Obj(_) => p.value matches SplineValue::Spline(ns) && spline_to(
                            v,
                            *ns,
                        ),
                        _ => false,
                    }
                }
            },
            None => false,
        },
        _ => false,
    }
}

/// The numeral `0.0`, used for the synthesized constants of lowering.
fn zero_numeral() -> (r: String)
    ensures
        r@ == "0.0"@,
{
    String::from_str("0.0")
}

/// Reads number field `k`, cloning its numeral text.
fn get_num(fields: &Vec<(String, JsonValue)>, k: &str) -> (r: Result<String, LowerError>)
    ensures
        r is Ok <==> lookup_num(fields@, k@),
        r matches Ok(s) ==> s@ == num_of(fields@, k@),
{
    match obj_get(fields, k) {
        Some(v) => match v {
            JsonValue::Num(s) => Ok(s.clone()),
            _ => Err(LowerError),
        },
        None => Err(LowerError),
    }
}

/// Reads string field `k`, cloning its text.
fn get_str(fields: &Vec<(String, JsonValue)>, k: &str) -> (r: Result<String, LowerError>)
    ensures
        r is Ok <==> lookup_str(fields@, k@),
        r matches Ok(s) ==> s@ == str_of(fields@, k@),
{
    match obj_get(fields, k) {
        Some(v) => match v {
            JsonValue::Str(s) => Ok(s.clone()),
            _ => Err(LowerError),
        },
        None => Err(LowerError),
    }
}

/// Lowers the named field of an object to a density function.
fn field_df(fields: &Vec<(String, JsonValue)>, k: &str) -> (r: Result<
    Box<DensityFunction>,
    LowerError,
>)
    ensures
        r is Ok <==> field_lower_ok(fields@, k@),
        r matches Ok(df) ==> field_lowers_to(fields@, k@, *df),
    decreases fields, 0int,
{
    match obj_get(fields, k) {
        Some(sub) => {
            proof {
                lemma_lookup_decreases_vec(*fields, k@);
            }
            match json_to_df(sub) {
                Ok(df) => Ok(Box::new(df)),
                Err(e) => Err(e),
            }
        },
        None => Err(LowerError),
    }
}

/// Lowers a unary-transformer object.
fn json_mapped(op: MappedType, fields: &Vec<(String, JsonValue)>) -> (r: Result<
    DensityFunction,
    LowerError,
>)
    ensures
        r is Ok <==> field_lower_ok(fields@, "argument"@),
        r matches Ok(df) ==> df matches DensityFunction::Mapped(m) && m.op == op
            && field_lowers_to(fields@, "argument"@, *m.input),
    decreases fields, 1int,
{
    let input = match field_df(fields, "argument") {
        Ok(v) => v,
        Err(e) => {
            return Err(e);
        },
    };
    Ok(DensityFunction::Mapped(Mapped { op, input }))
}

/// Lowers a two-argument object.
fn json_two_arg(op: TwoArgType, fields: &Vec<(String, JsonValue)>) -> (r: Result<
    DensityFunction,
    LowerError,
>)
    ensures
        r is Ok <==> field_lower_ok(fields@, "argument1"@) && field_lower_ok(
            fields@,
            "argument2"@,
        ),
        r matches Ok(df) ==> df matches DensityFunction::TwoArgumentSimple(t2) && t2.op == op
            && field_lowers_to(fields@, "argument1"@, *t2.argument1) && field_lowers_to(
            fields@,
            "argument2"@,
            *t2.argument2,
        ),
    decreases fields, 1int,
{
    let argument1 = match field_df(fields, "argument1") {
        Ok(v) => v,
        Err(e) => {
            return Err(e);
        },
    };
    let argument2 = match field_df(fields, "argument2") {
        Ok(v) => v,
        Err(e) => {
            return Err(e);
        },
    };
    Ok(DensityFunction::TwoArgumentSimple(TwoArgumentSimple { op, argument1, argument2 }))
}

/// Lowers a cache or marker wrapper object.
fn json_marker(kind: MarkerType, fields: &Vec<(String, JsonValue)>) -> (r: Result<
    DensityFunction,
    LowerError,
>)
    ensures
        r is Ok <==> field_lower_ok(fields@, "argument"@),
        r matches Ok(df) ==> df matches DensityFunction::Marker(m) && m.kind == kind
            && field_lowers_to(fields@, "argument"@, *m.wrapped),
    decreases fields, 1int,
{
    let wrapped = match field_df(fields, "argument") {
        Ok(v) => v,
        Err(e) => {
            return Err(e);
        },
    };
    Ok(DensityFunction::Marker(Marker { kind, wrapped }))
}

/// Converts a parsed JSON value to a density function: a bare number is
/// a constant, a bare string an unresolved reference, an object is
/// dispatched on its `type` field.
pub fn json_to_df(j: &JsonValue) -> (r: Result<DensityFunction, LowerError>)
    ensures
        r is Ok <==> lower_ok(*j),
        r matches Ok(df) ==> lowers_to(*j, df),
    decreases j, 0int,
{
    match j {
        JsonValue::Num(s) => Ok(DensityFunction::Constant(Constant { value: s.clone() })),
        JsonValue::Str(s) => Ok(
            DensityFunction::Reference(Reference { id: s.clone(), resolved: None }),
        ),
        JsonValue::Obj(fields) => {
            proof {
                assert(decreases_to!(*j => (*j)->Obj_0));
            }
            match obj_get(fields, "type") {
                Some(tv) => match tv {
                    JsonValue::Str(t) => json_data_to_df(fields, t.as_str()),
                    _ => Err(LowerError),
                },
                None => Err(LowerError),
            }
        },
        _ => Err(LowerError),
    }
}

/// Lowers a typed density function object whose `type` field holds `t`.
#[verifier::rlimit(100)]
#[verifier::spinoff_prover]
fn json_data_to_df(fields: &Vec<(String, JsonValue)>, t: &str) -> (r: Result<
    DensityFunction,
    LowerError,
>)
    requires
        obj_lookup(fields@, "type"@) matches Some(tv) && tv matches JsonValue::Str(ts) && ts@
            == t@,
    ensures
        r is Ok <==> lower_ok(JsonValue::Obj(*fields)),
        r matches Ok(df) ==> lowers_to(JsonValue::Obj(*fields), df),
    decreases fields, 2int,
{
    if str_eq(t, "minecraft:constant") {
        match obj_get(fields, "value") {
            Some(v) => match v {
                JsonValue::Num(s) => Ok(
                    DensityFunction::Constant(Constant { value: s.clone() }),
                ),
                _ => Err(LowerError),
            },
            None => match obj_get(fields, "argument") {
                Some(v) => match v {
                    JsonValue::Num(s) => Ok(
                        DensityFunction::Constant(Constant { value: s.clone() }),
                    ),
                    _ => Err(LowerError),
                },
                None => Err(LowerError),
            },
        }
    } else if str_eq(t, "minecraft:y_clamped_gradient") {
        let from_y = match get_num(fields, "from_y") {
            Ok(v) => v,
            Err(e) => {
                return Err(e);
            },
        };
        let to_y = match get_num(fields, "to_y") {
            Ok(v) => v,
            Err(e) => {
                return Err(e);
            },
        };
        let from_value = match get_num(fields, "from_value") {
            Ok(v) => v,
            Err(e) => {
                return Err(e);
            },
        };
        let to_value = match get_num(fields, "to_value") {
            Ok(v) => v,
            Err(e) => {
                return Err(e);
            },
        };
        Ok(
            DensityFunction::YClampedGradient(
                YClampedGradient { from_y, to_y, from_value, to_value },
            ),
        )
    } else if str_eq(t, "minecraft:noise") {
        let xz_scale = match get_num(fields, "xz_scale") {
            Ok(v) => v,
            Err(e) => {
                return Err(e);
            },
        };
        let y_scale = match get_num(fields, "y_scale") {
            Ok(v) => v,
            Err(e) => {
                return Err(e);
            },
        };
        let noise_id = match get_str(fields, "noise") {
            Ok(v) => v,
            Err(e) => {
                return Err(e);
            },
        };
        Ok(DensityFunction::Noise(Noise { noise_id, xz_scale, y_scale }))
    } else if str_eq(t, "minecraft:shifted_noise") {
        let xz_scale = match get_num(fields, "xz_scale") {
            Ok(v) => v,
            Err(e) => {
                return Err(e);
            },
        };
        let y_scale = match get_num(fields, "y_scale") {
            Ok(v) => v,
            Err(e) => {
                return Err(e);
            },
        };
        let noise_id = match get_str(fields, "noise") {
            Ok(v) => v,
            Err(e) => {
                return Err(e);
            },
        };
        let shift_x = match field_df(fields, "shift_x") {
            Ok(v) => v,
            Err(e) => {
                return Err(e);
            },
        };
        let shift_y = match field_df(fields, "shift_y") {
            Ok(v) => v,
            Err(e) => {
                return Err(e);
            },
        };
        let shift_z = match field_df(fields, "shift_z") {
            Ok(v) => v,
            Err(e) => {
                return Err(e);
            },
        };
        Ok(
            DensityFunction::ShiftedNoise(
                ShiftedNoise { shift_x, shift_y, shift_z, xz_scale, y_scale, noise_id },
            ),
        )
    } else if str_eq(t, "minecraft:shift_a") {
        match get_str(fields, "argument") {
            Ok(noise_id) => Ok(DensityFunction::ShiftA(ShiftA { noise_id })),
            Err(e) => Err(e),
        }
    } else if str_eq(t, "minecraft:shift_b") {
        match get_str(fields, "argument") {
            Ok(noise_id) => Ok(DensityFunction::ShiftB(ShiftB { noise_id })),
            Err(e) => Err(e),
        }
    } else if str_eq(t, "minecraft:shift") {
        match get_str(fields, "argument") {
            Ok(noise_id) => Ok(DensityFunction::Shift(Shift { noise_id })),
            Err(e) => Err(e),
        }
    } else if str_eq(t, "minecraft:clamp") {
        let min = match get_num(fields, "min") {
            Ok(v) => v,
            Err(e) => {
                return Err(e);
            },
        };
        let max = match get_num(fields, "max") {
            Ok(v) => v,
            Err(e) => {
                return Err(e);
            },
        };
        let input = match field_df(fields, "input") {
            Ok(v) => v,
            Err(e) => {
                return Err(e);
            },
        };
        Ok(DensityFunction::Clamp(Clamp { input, min, max }))
    } else if str_eq(t, "minecraft:abs") {
        json_mapped(MappedType::Abs, fields)
    } else if str_eq(t, "minecraft:square") {
        json_mapped(MappedType::Square, fields)
    } else if str_eq(t, "minecraft:cube") {
        json_mapped(MappedType::Cube, fields)
    } else if str_eq(t, "minecraft:half_negative") {
        json_mapped(MappedType::HalfNegative, fields)
    } else if str_eq(t, "minecraft:quarter_negative") {
        json_mapped(MappedType::QuarterNegative, fields)
    } else if str_eq(t, "minecraft:invert") {
        json_mapped(MappedType::Invert, fields)
    } else if str_eq(t, "minecraft:squeeze") {
        json_mapped(MappedType::Squeeze, fields)
    } else if str_eq(t, "minecraft:add") {
        json_two_arg(TwoArgType::Add, fields)
    } else if str_eq(t, "minecraft:mul") {
        json_two_arg(TwoArgType::Mul, fields)
    } else if str_eq(t, "minecraft:min") {
        json_two_arg(TwoArgType::Min, fields)
    } else if str_eq(t, "minecraft:max") {
        json_two_arg(TwoArgType::Max, fields)
    } else if str_eq(t, "minecraft:spline") {
        match obj_get(fields, "spline") {
            Some(sj) => {
                proof {
                    lemma_lookup_decreases_vec(*fields, "spline"@);
                }
                match json_spline_to_cubic(sj) {
                    Ok(cs) => Ok(DensityFunction::Spline(Spline { spline: Box::new(cs) })),
                    Err(e) => Err(e),
                }
            },
            None => Err(LowerError),
        }
    } else if str_eq(t, "minecraft:range_choice") {
        let min_inclusive = match get_num(fields, "min_inclusive") {
            Ok(v) => v,
            Err(e) => {
                return Err(e);
            },
        };
        let max_exclusive = match get_num(fields, "max_exclusive") {
            Ok(v) => v,
            Err(e) => {
                return Err(e);
            },
        };
        let input = match field_df(fields, "input") {
            Ok(v) => v,
            Err(e) => {
                return Err(e);
            },
        };
        let when_in_range = match field_df(fields, "when_in_range") {
            Ok(v) => v,
            Err(e) => {
                return Err(e);
            },
        };
        let when_out_of_range = match field_df(fields, "when_out_of_range") {
            Ok(v) => v,
            Err(e) => {
                return Err(e);
            },
        };
        Ok(
            DensityFunction::RangeChoice(
                RangeChoice { input, min_inclusive, max_exclusive, when_in_range, when_out_of_range },
            ),
        )
    } else if str_eq(t, "minecraft:interpolated") {
        json_marker(MarkerType::Interpolated, fields)
    } else if str_eq(t, "minecraft:flat_cache") {
        json_marker(MarkerType::FlatCache, fields)
    } else if str_eq(t, "minecraft:cache_once") {
        json_marker(MarkerType::CacheOnce, fields)
    } else if str_eq(t, "minecraft:cache_2d") {
        json_marker(MarkerType::Cache2D, fields)
    } else if str_eq(t, "minecraft:cache_all_in_cell") {
        json_marker(MarkerType::CacheAllInCell, fields)
    } else if str_eq(t, "minecraft:blend_offset") {
        Ok(DensityFunction::BlendOffset(BlendOffset))
    } else if str_eq(t, "minecraft:blend_alpha") {
        Ok(DensityFunction::BlendAlpha(BlendAlpha))
    } else if str_eq(t, "minecraft:beardifier") {
        Ok(DensityFunction::Constant(Constant { value: zero_numeral() }))
    } else if str_eq(t, "minecraft:find_top_surface") {
        Ok(DensityFunction::Constant(Constant { value: zero_numeral() }))
    } else if str_eq(t, "minecraft:end_islands") {
        Ok(DensityFunction::EndIslands)
    } else if str_eq(t, "minecraft:blend_density") {
        match field_df(fields, "argument") {
            Ok(input) => Ok(DensityFunction::BlendDensity(BlendDensity { input })),
            Err(e) => Err(e),
        }
    } else if str_eq(t, "minecraft:weird_scaled_sampler") {
        let noise_id = match get_str(fields, "noise") {
            Ok(v) => v,
            Err(e) => {
                return Err(e);
            },
        };
        let rv = match get_str(fields, "rarity_value_mapper") {
            Ok(v) => v,
            Err(e) => {
                return Err(e);
            },
        };
        let rarity_value_mapper = if str_eq(rv.as_str(), "type_1") {
            RarityValueMapper::Tunnels
        } else {
            RarityValueMapper::Caves
        };
        let input = match field_df(fields, "input") {
            Ok(v) => v,
            Err(e) => {
                return Err(e);
            },
        };
        Ok(
            DensityFunction::WeirdScaledSampler(
                WeirdScaledSampler { input, noise_id, rarity_value_mapper },
            ),
        )
    } else if str_eq(t, "minecraft:old_blended_noise") {
        let xz_scale = match get_num(fields, "xz_scale") {
            Ok(v) => v,
            Err(e) => {
                return Err(e);
            },
        };
        let y_scale = match get_num(fields, "y_scale") {
            Ok(v) => v,
            Err(e) => {
                return Err(e);
            },
        };
        let xz_factor = match get_num(fields, "xz_factor") {
            Ok(v) => v,
            Err(e) => {
                return Err(e);
            },
        };
        let y_factor = match get_num(fields, "y_factor") {
            Ok(v) => v,
            Err(e) => {
                return Err(e);
            },
        };
        let smear_scale_multiplier = match get_num(fields, "smear_scale_multiplier") {
            Ok(v) => v,
            Err(e) => {
                return Err(e);
            },
        };
        Ok(
            DensityFunction::BlendedNoise(
                BlendedNoise { xz_scale, y_scale, xz_factor, y_factor, smear_scale_multiplier },
            ),
        )
    } else {
        Err(LowerError)
    }
}

/// Whether a noise-router object lowers: every fixed entry field
/// describes a density function, and the optional preliminary surface
/// level, when present, does too.
pub open spec fn router_ok(fields: Seq<(String, JsonValue)>) -> bool {
    &&& field_lower_ok(fields, "barrier"@)
    &&& field_lower_ok(fields, "fluid_level_floodedness"@)
    &&& field_lower_ok(fields, "fluid_level_spread"@)
    &&& field_lower_ok(fields, "lava"@)
    &&& field_lower_ok(fields, "temperature"@)
    &&& field_lower_ok(fields, "vegetation"@)
    &&& field_lower_ok(fields, "continents"@)
    &&& field_lower_ok(fields, "erosion"@)
    &&& field_lower_ok(fields, "depth"@)
    &&& field_lower_ok(fields, "ridges"@)
    &&& field_lower_ok(fields, "final_density"@)
    &&& field_lower_ok(fields, "vein_toggle"@)
    &&& field_lower_ok(fields, "vein_ridged"@)
    &&& field_lower_ok(fields, "vein_gap"@)
    &&& (obj_lookup(fields, "preliminary_surface_level"@) is None || field_lower_ok(
        fields,
        "preliminary_surface_level"@,
    ))
}

/// Converts a noise-router object into the router entry map.  The JSON
/// field `continents` becomes the entry `continentalness`; every other
/// entry keeps its field name.  `preliminary_surface_level` is optional
/// and present in the result exactly when the object carries it; no
/// other keys exist.
#[verifier::rlimit(100)]
#[verifier::spinoff_prover]
pub fn router_to_entries(fields: &Vec<(String, JsonValue)>) -> (r: Result<
    StrMap<DensityFunction>,
    LowerError,
>)
    ensures
        r is Ok <==> router_ok(fields@),
        r matches Ok(m) ==> {
            &&& m.wf()
            &&& m.has_key("barrier"@) && field_lowers_to(fields@, "barrier"@, m.get("barrier"@))
            &&& m.has_key("fluid_level_floodedness"@) && field_lowers_to(fields@, "fluid_level_floodedness"@, m.get("fluid_level_floodedness"@))
            &&& m.has_key("fluid_level_spread"@) && field_lowers_to(fields@, "fluid_level_spread"@, m.get("fluid_level_spread"@))
            &&& m.has_key("lava"@) && field_lowers_to(fields@, "lava"@, m.get("lava"@))
            &&& m.has_key("vein_toggle"@) && field_lowers_to(fields@, "vein_toggle"@, m.get("vein_toggle"@))
            &&& m.has_key("vein_ridged"@) && field_lowers_to(fields@, "vein_ridged"@, m.get("vein_ridged"@))
            &&& m.has_key("vein_gap"@) && field_lowers_to(fields@, "vein_gap"@, m.get("vein_gap"@))
            &&& m.has_key("final_density"@) && field_lowers_to(fields@, "final_density"@, m.get("final_density"@))
            &&& m.has_key("ridges"@) && field_lowers_to(fields@, "ridges"@, m.get("ridges"@))
            &&& m.has_key("depth"@) && field_lowers_to(fields@, "depth"@, m.get("depth"@))
            &&& m.has_key("erosion"@) && field_lowers_to(fields@, "erosion"@, m.get("erosion"@))
            &&& m.has_key("continentalness"@) && field_lowers_to(fields@, "continents"@, m.get("continentalness"@))
            &&& m.has_key("vegetation"@) && field_lowers_to(fields@, "vegetation"@, m.get("vegetation"@))
            &&& m.has_key("temperature"@) && field_lowers_to(fields@, "temperature"@, m.get("temperature"@))
            &&& obj_lookup(fields@, "preliminary_surface_level"@) is Some <==> m.has_key("preliminary_surface_level"@)
            &&& m.has_key("preliminary_surface_level"@) ==> field_lowers_to(
                fields@,
                "preliminary_surface_level"@,
                m.get("preliminary_surface_level"@),
            )
            &&& forall|k: Seq<char>|
                #[trigger] m.has_key(k) ==> (k == "barrier"@ || k == "fluid_level_floodedness"@ || k == "fluid_level_spread"@ || k == "lava"@ || k == "vein_toggle"@ || k == "vein_ridged"@ || k == "vein_gap"@ || k == "final_density"@ || k == "ridges"@ || k == "depth"@ || k == "erosion"@ || k == "continentalness"@ || k == "vegetation"@ || k == "temperature"@
                    || k == "preliminary_surface_level"@)
        },
{
    proof {
        reveal_strlit("barrier");
        reveal_strlit("fluid_level_floodedness");
        reveal_strlit("fluid_level_spread");
        reveal_strlit("lava");
        reveal_strlit("temperature");
        reveal_strlit("vegetation");
        reveal_strlit("continentalness");
        reveal_strlit("erosion");
        reveal_strlit("depth");
        reveal_strlit("ridges");
        reveal_strlit("final_density");
        reveal_strlit("vein_toggle");
        reveal_strlit("vein_ridged");
        reveal_strlit("vein_gap");
        reveal_strlit("preliminary_surface_level");
        assert("barrier"@.len() == 7);
        assert("fluid_level_floodedness"@.len() == 23);
        assert("fluid_level_spread"@.len() == 18);
        assert("lava"@.len() == 4);
        assert("temperature"@.len() == 11);
        assert("vegetation"@.len() == 10);
        assert("continentalness"@.len() == 15);
        assert("erosion"@.len() == 7);
        assert("depth"@.len() == 5);
        assert("ridges"@.len() == 6);
        assert("final_density"@.len() == 13);
        assert("vein_toggle"@.len() == 11);
        assert("vein_ridged"@.len() == 11);
        assert("vein_gap"@.len() == 8);
        assert("preliminary_surface_level"@.len() == 25);
        assert("barrier"@[0] == 'b');
        assert("erosion"@[0] == 'e');
        assert("temperature"@[0] == 't');
        assert("vein_toggle"@[0] == 'v');
        assert("vein_ridged"@[5] == 'r');
        assert("vein_toggle"@[5] == 't');
    }
    let ghost has_psl = obj_lookup(fields@, "preliminary_surface_level"@) is Some;
    let mut m: StrMap<DensityFunction> = StrMap::new();
    let barrier = match field_df(fields, "barrier") {
        Ok(v) => v,
        Err(e) => {
            return Err(e);
        },
    };
    m.insert(String::from_str("barrier"), *barrier);
    proof {
        assert(m.has_key("barrier"@) && field_lowers_to(fields@, "barrier"@, m.get("barrier"@)));
        assert forall|k: Seq<char>| #[trigger] m.has_key(k) implies k == "barrier"@ by {}
    }
    let flf = match field_df(fields, "fluid_level_floodedness") {
        Ok(v) => v,
        Err(e) => {
            return Err(e);
        },
    };
    m.insert(String::from_str("fluid_level_floodedness"), *flf);
    proof {
        assert(m.has_key("barrier"@) && field_lowers_to(fields@, "barrier"@, m.get("barrier"@)));
        assert(m.has_key("fluid_level_floodedness"@) && field_lowers_to(fields@, "fluid_level_floodedness"@, m.get("fluid_level_floodedness"@)));
        assert forall|k: Seq<char>| #[trigger] m.has_key(k) implies k == "barrier"@ || k == "fluid_level_floodedness"@ by {}
    }
    let fls = match field_df(fields, "fluid_level_spread") {
        Ok(v) => v,
        Err(e) => {
            return Err(e);
        },
    };
    m.insert(String::from_str("fluid_level_spread"), *fls);
    proof {
        assert(m.has_key("barrier"@) && field_lowers_to(fields@, "barrier"@, m.get("barrier"@)));
        assert(m.has_key("fluid_level_floodedness"@) && field_lowers_to(fields@, "fluid_level_floodedness"@, m.get("fluid_level_floodedness"@)));
        assert(m.has_key("fluid_level_spread"@) && field_lowers_to(fields@, "fluid_level_spread"@, m.get("fluid_level_spread"@)));
        assert forall|k: Seq<char>| #[trigger] m.has_key(k) implies k == "barrier"@ || k == "fluid_level_floodedness"@ || k == "fluid_level_spread"@ by {}
    }
    let lava = match field_df(fields, "lava") {
        Ok(v) => v,
        Err(e) => {
            return Err(e);
        },
    };
    m.insert(String::from_str("lava"), *lava);
    proof {
        assert(m.has_key("barrier"@) && field_lowers_to(fields@, "barrier"@, m.get("barrier"@)));
        assert(m.has_key("fluid_level_floodedness"@) && field_lowers_to(fields@, "fluid_level_floodedness"@, m.get("fluid_level_floodedness"@)));
        assert(m.has_key("fluid_level_spread"@) && field_lowers_to(fields@, "fluid_level_spread"@, m.get("fluid_level_spread"@)));
        assert(m.has_key("lava"@) && field_lowers_to(fields@, "lava"@, m.get("lava"@)));
        assert forall|k: Seq<char>| #[trigger] m.has_key(k) implies k == "barrier"@ || k == "fluid_level_floodedness"@ || k == "fluid_level_spread"@ || k == "lava"@ by {}
    }
    let vein_toggle = match field_df(fields, "vein_toggle") {
        Ok(v) => v,
        Err(e) => {
            return Err(e);
        },
    };
    m.insert(String::from_str("vein_toggle"), *vein_toggle);
    proof {
        assert(m.has_key("barrier"@) && field_lowers_to(fields@, "barrier"@, m.get("barrier"@)));
        assert(m.has_key("fluid_level_floodedness"@) && field_lowers_to(fields@, "fluid_level_floodedness"@, m.get("fluid_level_floodedness"@)));
        assert(m.has_key("fluid_level_spread"@) && field_lowers_to(fields@, "fluid_level_spread"@, m.get("fluid_level_spread"@)));
        assert(m.has_key("lava"@) && field_lowers_to(fields@, "lava"@, m.get("lava"@)));
        assert(m.has_key("vein_toggle"@) && field_lowers_to(fields@, "vein_toggle"@, m.get("vein_toggle"@)));
        assert forall|k: Seq<char>| #[trigger] m.has_key(k) implies k == "barrier"@ || k == "fluid_level_floodedness"@ || k == "fluid_level_spread"@ || k == "lava"@ || k == "vein_toggle"@ by {}
    }
    let vein_ridged = match field_df(fields, "vein_ridged") {
        Ok(v) => v,
        Err(e) => {
            return Err(e);
        },
    };
    m.insert(String::from_str("vein_ridged"), *vein_ridged);
    proof {
        assert(m.has_key("barrier"@) && field_lowers_to(fields@, "barrier"@, m.get("barrier"@)));
        assert(m.has_key("fluid_level_floodedness"@) && field_lowers_to(fields@, "fluid_level_floodedness"@, m.get("fluid_level_floodedness"@)));
        assert(m.has_key("fluid_level_spread"@) && field_lowers_to(fields@, "fluid_level_spread"@, m.get("fluid_level_spread"@)));
        assert(m.has_key("lava"@) && field_lowers_to(fields@, "lava"@, m.get("lava"@)));
        assert(m.has_key("vein_toggle"@) && field_lowers_to(fields@, "vein_toggle"@, m.get("vein_toggle"@)));
        assert(m.has_key("vein_ridged"@) && field_lowers_to(fields@, "vein_ridged"@, m.get("vein_ridged"@)));
        assert forall|k: Seq<char>| #[trigger] m.has_key(k) implies k == "barrier"@ || k == "fluid_level_floodedness"@ || k == "fluid_level_spread"@ || k == "lava"@ || k == "vein_toggle"@ || k == "vein_ridged"@ by {}
    }
    let vein_gap = match field_df(fields, "vein_gap") {
        Ok(v) => v,
        Err(e) => {
            return Err(e);
        },
    };
    m.insert(String::from_str("vein_gap"), *vein_gap);
    proof {
        assert(m.has_key("barrier"@) && field_lowers_to(fields@, "barrier"@, m.get("barrier"@)));
        assert(m.has_key("fluid_level_floodedness"@) && field_lowers_to(fields@, "fluid_level_floodedness"@, m.get("fluid_level_floodedness"@)));
        assert(m.has_key("fluid_level_spread"@) && field_lowers_to(fields@, "fluid_level_spread"@, m.get("fluid_level_spread"@)));
        assert(m.has_key("lava"@) && field_lowers_to(fields@, "lava"@, m.get("lava"@)));
        assert(m.has_key("vein_toggle"@) && field_lowers_to(fields@, "vein_toggle"@, m.get("vein_toggle"@)));
        assert(m.has_key("vein_ridged"@) && field_lowers_to(fields@, "vein_ridged"@, m.get("vein_ridged"@)));
        assert(m.has_key("vein_gap"@) && field_lowers_to(fields@, "vein_gap"@, m.get("vein_gap"@)));
        assert forall|k: Seq<char>| #[trigger] m.has_key(k) implies k == "barrier"@ || k == "fluid_level_floodedness"@ || k == "fluid_level_spread"@ || k == "lava"@ || k == "vein_toggle"@ || k == "vein_ridged"@ || k == "vein_gap"@ by {}
    }
    match obj_get(fields, "preliminary_surface_level") {
        Some(_) => {
            let psl = match field_df(fields, "preliminary_surface_level") {
                Ok(v) => v,
                Err(e) => {
                    return Err(e);
                },
            };
            m.insert(String::from_str("preliminary_surface_level"), *psl);
        },
        None => {},
    }
    proof {
        assert(m.has_key("barrier"@) && field_lowers_to(fields@, "barrier"@, m.get("barrier"@)));
        assert(m.has_key("fluid_level_floodedness"@) && field_lowers_to(fields@, "fluid_level_floodedness"@, m.get("fluid_level_floodedness"@)));
        assert(m.has_key("fluid_level_spread"@) && field_lowers_to(fields@, "fluid_level_spread"@, m.get("fluid_level_spread"@)));
        assert(m.has_key("lava"@) && field_lowers_to(fields@, "lava"@, m.get("lava"@)));
        assert(m.has_key("vein_toggle"@) && field_lowers_to(fields@, "vein_toggle"@, m.get("vein_toggle"@)));
        assert(m.has_key("vein_ridged"@) && field_lowers_to(fields@, "vein_ridged"@, m.get("vein_ridged"@)));
        assert(m.has_key("vein_gap"@) && field_lowers_to(fields@, "vein_gap"@, m.get("vein_gap"@)));
        assert(has_psl ==> m.has_key("preliminary_surface_level"@) && field_lowers_to(
            fields@,
            "preliminary_surface_level"@,
            m.get("preliminary_surface_level"@),
        ));
        assert(m.has_key("preliminary_surface_level"@) ==> has_psl);
        assert forall|k: Seq<char>| #[trigger] m.has_key(k) implies k == "barrier"@ || k == "fluid_level_floodedness"@ || k == "fluid_level_spread"@ || k == "lava"@ || k == "vein_toggle"@ || k == "vein_ridged"@ || k == "vein_gap"@ || (has_psl && k == "preliminary_surface_level"@) by {}
    }
    let final_density = match field_df(fields, "final_density") {
        Ok(v) => v,
        Err(e) => {
            return Err(e);
        },
    };
    m.insert(String::from_str("final_density"), *final_density);
    proof {
        assert(m.has_key("barrier"@) && field_lowers_to(fields@, "barrier"@, m.get("barrier"@)));
        assert(m.has_key("fluid_level_floodedness"@) && field_lowers_to(fields@, "fluid_level_floodedness"@, m.get("fluid_level_floodedness"@)));
        assert(m.has_key("fluid_level_spread"@) && field_lowers_to(fields@, "fluid_level_spread"@, m.get("fluid_level_spread"@)));
        assert(m.has_key("lava"@) && field_lowers_to(fields@, "lava"@, m.get("lava"@)));
        assert(m.has_key("vein_toggle"@) && field_lowers_to(fields@, "vein_toggle"@, m.get("vein_toggle"@)));
        assert(m.has_key("vein_ridged"@) && field_lowers_to(fields@, "vein_ridged"@, m.get("vein_ridged"@)));
        assert(m.has_key("vein_gap"@) && field_lowers_to(fields@, "vein_gap"@, m.get("vein_gap"@)));
        assert(m.has_key("final_density"@) && field_lowers_to(fields@, "final_density"@, m.get("final_density"@)));
        assert(has_psl ==> m.has_key("preliminary_surface_level"@) && field_lowers_to(
            fields@,
            "preliminary_surface_level"@,
            m.get("preliminary_surface_level"@),
        ));
        assert(m.has_key("preliminary_surface_level"@) ==> has_psl);
        assert forall|k: Seq<char>| #[trigger] m.has_key(k) implies k == "barrier"@ || k == "fluid_level_floodedness"@ || k == "fluid_level_spread"@ || k == "lava"@ || k == "vein_toggle"@ || k == "vein_ridged"@ || k == "vein_gap"@ || k == "final_density"@ || (has_psl && k == "preliminary_surface_level"@) by {}
    }
    let ridges = match field_df(fields, "ridges") {
        Ok(v) => v,
        Err(e) => {
            return Err(e);
        },
    };
    m.insert(String::from_str("ridges"), *ridges);
    proof {
        assert(m.has_key("barrier"@) && field_lowers_to(fields@, "barrier"@, m.get("barrier"@)));
        assert(m.has_key("fluid_level_floodedness"@) && field_lowers_to(fields@, "fluid_level_floodedness"@, m.get("fluid_level_floodedness"@)));
        assert(m.has_key("fluid_level_spread"@) && field_lowers_to(fields@, "fluid_level_spread"@, m.get("fluid_level_spread"@)));
        assert(m.has_key("lava"@) && field_lowers_to(fields@, "lava"@, m.get("lava"@)));
        assert(m.has_key("vein_toggle"@) && field_lowers_to(fields@, "vein_toggle"@, m.get("vein_toggle"@)));
        assert(m.has_key("vein_ridged"@) && field_lowers_to(fields@, "vein_ridged"@, m.get("vein_ridged"@)));
        assert(m.has_key("vein_gap"@) && field_lowers_to(fields@, "vein_gap"@, m.get("vein_gap"@)));
        assert(m.has_key("final_density"@) && field_lowers_to(fields@, "final_density"@, m.get("final_density"@)));
        assert(m.has_key("ridges"@) && field_lowers_to(fields@, "ridges"@, m.get("ridges"@)));
        assert(has_psl ==> m.has_key("preliminary_surface_level"@) && field_lowers_to(
            fields@,
            "preliminary_surface_level"@,
            m.get("preliminary_surface_level"@),
        ));
        assert(m.has_key("preliminary_surface_level"@) ==> has_psl);
        assert forall|k: Seq<char>| #[trigger] m.has_key(k) implies k == "barrier"@ || k == "fluid_level_floodedness"@ || k == "fluid_level_spread"@ || k == "lava"@ || k == "vein_toggle"@ || k == "vein_ridged"@ || k == "vein_gap"@ || k == "final_density"@ || k == "ridges"@ || (has_psl && k == "preliminary_surface_level"@) by {}
    }
    let depth = match field_df(fields, "depth") {
        Ok(v) => v,
        Err(e) => {
            return Err(e);
        },
    };
    m.insert(String::from_str("depth"), *depth);
    proof {
        assert(m.has_key("barrier"@) && field_lowers_to(fields@, "barrier"@, m.get("barrier"@)));
        assert(m.has_key("fluid_level_floodedness"@) && field_lowers_to(fields@, "fluid_level_floodedness"@, m.get("fluid_level_floodedness"@)));
        assert(m.has_key("fluid_level_spread"@) && field_lowers_to(fields@, "fluid_level_spread"@, m.get("fluid_level_spread"@)));
        assert(m.has_key("lava"@) && field_lowers_to(fields@, "lava"@, m.get("lava"@)));
        assert(m.has_key("vein_toggle"@) && field_lowers_to(fields@, "vein_toggle"@, m.get("vein_toggle"@)));
        assert(m.has_key("vein_ridged"@) && field_lowers_to(fields@, "vein_ridged"@, m.get("vein_ridged"@)));
        assert(m.has_key("vein_gap"@) && field_lowers_to(fields@, "vein_gap"@, m.get("vein_gap"@)));
        assert(m.has_key("final_density"@) && field_lowers_to(fields@, "final_density"@, m.get("final_density"@)));
        assert(m.has_key("ridges"@) && field_lowers_to(fields@, "ridges"@, m.get("ridges"@)));
        assert(m.has_key("depth"@) && field_lowers_to(fields@, "depth"@, m.get("depth"@)));
        assert(has_psl ==> m.has_key("preliminary_surface_level"@) && field_lowers_to(
            fields@,
            "preliminary_surface_level"@,
            m.get("preliminary_surface_level"@),
        ));
        assert(m.has_key("preliminary_surface_level"@) ==> has_psl);
        assert forall|k: Seq<char>| #[trigger] m.has_key(k) implies k == "barrier"@ || k == "fluid_level_floodedness"@ || k == "fluid_level_spread"@ || k == "lava"@ || k == "vein_toggle"@ || k == "vein_ridged"@ || k == "vein_gap"@ || k == "final_density"@ || k == "ridges"@ || k == "depth"@ || (has_psl && k == "preliminary_surface_level"@) by {}
    }
    let erosion = match field_df(fields, "erosion") {
        Ok(v) => v,
        Err(e) => {
            return Err(e);
        },
    };
    m.insert(String::from_str("erosion"), *erosion);
    proof {
        assert(m.has_key("barrier"@) && field_lowers_to(fields@, "barrier"@, m.get("barrier"@)));
        assert(m.has_key("fluid_level_floodedness"@) && field_lowers_to(fields@, "fluid_level_floodedness"@, m.get("fluid_level_floodedness"@)));
        assert(m.has_key("fluid_level_spread"@) && field_lowers_to(fields@, "fluid_level_spread"@, m.get("fluid_level_spread"@)));
        assert(m.has_key("lava"@) && field_lowers_to(fields@, "lava"@, m.get("lava"@)));
        assert(m.has_key("vein_toggle"@) && field_lowers_to(fields@, "vein_toggle"@, m.get("vein_toggle"@)));
        assert(m.has_key("vein_ridged"@) && field_lowers_to(fields@, "vein_ridged"@, m.get("vein_ridged"@)));
        assert(m.has_key("vein_gap"@) && field_lowers_to(fields@, "vein_gap"@, m.get("vein_gap"@)));
        assert(m.has_key("final_density"@) && field_lowers_to(fields@, "final_density"@, m.get("final_density"@)));
        assert(m.has_key("ridges"@) && field_lowers_to(fields@, "ridges"@, m.get("ridges"@)));
        assert(m.has_key("depth"@) && field_lowers_to(fields@, "depth"@, m.get("depth"@)));
        assert(m.has_key("erosion"@) && field_lowers_to(fields@, "erosion"@, m.get("erosion"@)));
        assert(has_psl ==> m.has_key("preliminary_surface_level"@) && field_lowers_to(
            fields@,
            "preliminary_surface_level"@,
            m.get("preliminary_surface_level"@),
        ));
        assert(m.has_key("preliminary_surface_level"@) ==> has_psl);
        assert forall|k: Seq<char>| #[trigger] m.has_key(k) implies k == "barrier"@ || k == "fluid_level_floodedness"@ || k == "fluid_level_spread"@ || k == "lava"@ || k == "vein_toggle"@ || k == "vein_ridged"@ || k == "vein_gap"@ || k == "final_density"@ || k == "ridges"@ || k == "depth"@ || k == "erosion"@ || (has_psl && k == "preliminary_surface_level"@) by {}
    }
    let continents = match field_df(fields, "continents") {
        Ok(v) => v,
        Err(e) => {
            return Err(e);
        },
    };
    m.insert(String::from_str("continentalness"), *continents);
    proof {
        assert(m.has_key("barrier"@) && field_lowers_to(fields@, "barrier"@, m.get("barrier"@)));
        assert(m.has_key("fluid_level_floodedness"@) && field_lowers_to(fields@, "fluid_level_floodedness"@, m.get("fluid_level_floodedness"@)));
        assert(m.has_key("fluid_level_spread"@) && field_lowers_to(fields@, "fluid_level_spread"@, m.get("fluid_level_spread"@)));
        assert(m.has_key("lava"@) && field_lowers_to(fields@, "lava"@, m.get("lava"@)));
        assert(m.has_key("vein_toggle"@) && field_lowers_to(fields@, "vein_toggle"@, m.get("vein_toggle"@)));
        assert(m.has_key("vein_ridged"@) && field_lowers_to(fields@, "vein_ridged"@, m.get("vein_ridged"@)));
        assert(m.has_key("vein_gap"@) && field_lowers_to(fields@, "vein_gap"@, m.get("vein_gap"@)));
        assert(m.has_key("final_density"@) && field_lowers_to(fields@, "final_density"@, m.get("final_density"@)));
        assert(m.has_key("ridges"@) && field_lowers_to(fields@, "ridges"@, m.get("ridges"@)));
        assert(m.has_key("depth"@) && field_lowers_to(fields@, "depth"@, m.get("depth"@)));
        assert(m.has_key("erosion"@) && field_lowers_to(fields@, "erosion"@, m.get("erosion"@)));
        assert(m.has_key("continentalness"@) && field_lowers_to(fields@, "continents"@, m.get("continentalness"@)));
        assert(has_psl ==> m.has_key("preliminary_surface_level"@) && field_lowers_to(
            fields@,
            "preliminary_surface_level"@,
            m.get("preliminary_surface_level"@),
        ));
        assert(m.has_key("preliminary_surface_level"@) ==> has_psl);
        assert forall|k: Seq<char>| #[trigger] m.has_key(k) implies k == "barrier"@ || k == "fluid_level_floodedness"@ || k == "fluid_level_spread"@ || k == "lava"@ || k == "vein_toggle"@ || k == "vein_ridged"@ || k == "vein_gap"@ || k == "final_density"@ || k == "ridges"@ || k == "depth"@ || k == "erosion"@ || k == "continentalness"@ || (has_psl && k == "preliminary_surface_level"@) by {}
    }
    let vegetation = match field_df(fields, "vegetation") {
        Ok(v) => v,
        Err(e) => {
            return Err(e);
        },
    };
    m.insert(String::from_str("vegetation"), *vegetation);
    proof {
        assert(m.has_key("barrier"@) && field_lowers_to(fields@, "barrier"@, m.get("barrier"@)));
        assert(m.has_key("fluid_level_floodedness"@) && field_lowers_to(fields@, "fluid_level_floodedness"@, m.get("fluid_level_floodedness"@)));
        assert(m.has_key("fluid_level_spread"@) && field_lowers_to(fields@, "fluid_level_spread"@, m.get("fluid_level_spread"@)));
        assert(m.has_key("lava"@) && field_lowers_to(fields@, "lava"@, m.get("lava"@)));
        assert(m.has_key("vein_toggle"@) && field_lowers_to(fields@, "vein_toggle"@, m.get("vein_toggle"@)));
        assert(m.has_key("vein_ridged"@) && field_lowers_to(fields@, "vein_ridged"@, m.get("vein_ridged"@)));
        assert(m.has_key("vein_gap"@) && field_lowers_to(fields@, "vein_gap"@, m.get("vein_gap"@)));
        assert(m.has_key("final_density"@) && field_lowers_to(fields@, "final_density"@, m.get("final_density"@)));
        assert(m.has_key("ridges"@) && field_lowers_to(fields@, "ridges"@, m.get("ridges"@)));
        assert(m.has_key("depth"@) && field_lowers_to(fields@, "depth"@, m.get("depth"@)));
        assert(m.has_key("erosion"@) && field_lowers_to(fields@, "erosion"@, m.get("erosion"@)));
        assert(m.has_key("continentalness"@) && field_lowers_to(fields@, "continents"@, m.get("continentalness"@)));
        assert(m.has_key("vegetation"@) && field_lowers_to(fields@, "vegetation"@, m.get("vegetation"@)));
        assert(has_psl ==> m.has_key("preliminary_surface_level"@) && field_lowers_to(
            fields@,
            "preliminary_surface_level"@,
            m.get("preliminary_surface_level"@),
        ));
        assert(m.has_key("preliminary_surface_level"@) ==> has_psl);
        assert forall|k: Seq<char>| #[trigger] m.has_key(k) implies k == "barrier"@ || k == "fluid_level_floodedness"@ || k == "fluid_level_spread"@ || k == "lava"@ || k == "vein_toggle"@ || k == "vein_ridged"@ || k == "vein_gap"@ || k == "final_density"@ || k == "ridges"@ || k == "depth"@ || k == "erosion"@ || k == "continentalness"@ || k == "vegetation"@ || (has_psl && k == "preliminary_surface_level"@) by {}
    }
    let temperature = match field_df(fields, "temperature") {
        Ok(v) => v,
        Err(e) => {
            return Err(e);
        },
    };
    m.insert(String::from_str("temperature"), *temperature);
    proof {
        assert(m.has_key("barrier"@) && field_lowers_to(fields@, "barrier"@, m.get("barrier"@)));
        assert(m.has_key("fluid_level_floodedness"@) && field_lowers_to(fields@, "fluid_level_floodedness"@, m.get("fluid_level_floodedness"@)));
        assert(m.has_key("fluid_level_spread"@) && field_lowers_to(fields@, "fluid_level_spread"@, m.get("fluid_level_spread"@)));
        assert(m.has_key("lava"@) && field_lowers_to(fields@, "lava"@, m.get("lava"@)));
        assert(m.has_key("vein_toggle"@) && field_lowers_to(fields@, "vein_toggle"@, m.get("vein_toggle"@)));
        assert(m.has_key("vein_ridged"@) && field_lowers_to(fields@, "vein_ridged"@, m.get("vein_ridged"@)));
        assert(m.has_key("vein_gap"@) && field_lowers_to(fields@, "vein_gap"@, m.get("vein_gap"@)));
        assert(m.has_key("final_density"@) && field_lowers_to(fields@, "final_density"@, m.get("final_density"@)));
        assert(m.has_key("ridges"@) && field_lowers_to(fields@, "ridges"@, m.get("ridges"@)));
        assert(m.has_key("depth"@) && field_lowers_to(fields@, "depth"@, m.get("depth"@)));
        assert(m.has_key("erosion"@) && field_lowers_to(fields@, "erosion"@, m.get("erosion"@)));
        assert(m.has_key("continentalness"@) && field_lowers_to(fields@, "continents"@, m.get("continentalness"@)));
        assert(m.has_key("vegetation"@) && field_lowers_to(fields@, "vegetation"@, m.get("vegetation"@)));
        assert(m.has_key("temperature"@) && field_lowers_to(fields@, "temperature"@, m.get("temperature"@)));
        assert(has_psl ==> m.has_key("preliminary_surface_level"@) && field_lowers_to(
            fields@,
            "preliminary_surface_level"@,
            m.get("preliminary_surface_level"@),
        ));
        assert(m.has_key("preliminary_surface_level"@) ==> has_psl);
        assert forall|k: Seq<char>| #[trigger] m.has_key(k) implies k == "barrier"@ || k == "fluid_level_floodedness"@ || k == "fluid_level_spread"@ || k == "lava"@ || k == "vein_toggle"@ || k == "vein_ridged"@ || k == "vein_gap"@ || k == "final_density"@ || k == "ridges"@ || k == "depth"@ || k == "erosion"@ || k == "continentalness"@ || k == "vegetation"@ || k == "temperature"@ || (has_psl && k == "preliminary_surface_level"@) by {}
    }
    Ok(m)
}

/// Lowers a spline description: a bare number becomes a one-point spline
/// over the constant 0 coordinate, an object a multipoint spline over a
/// named coordinate.
fn json_spline_to_cubic(j: &JsonValue) -> (r: Result<CubicSpline, LowerError>)
    ensures
        r is Ok <==> spline_ok(*j),
        r matches Ok(cs) ==> spline_to(*j, cs),
    decreases j, 0int,
{
    match j {
        JsonValue::Num(v) => {
            let mut points: Vec<SplinePoint> = Vec::new();
            points.push(
                SplinePoint {
                    location: zero_numeral(),
                    value: SplineValue::Constant(v.clone()),
                    derivative: zero_numeral(),
                },
            );
            let coordinate = Box::new(DensityFunction::Constant(Constant { value: zero_numeral() }));
            Ok(CubicSpline { coordinate, points })
        },
        JsonValue::Obj(fields) => {
            let coord_id = match get_str(fields, "coordinate") {
                Ok(v) => v,
                Err(e) => {
                    return Err(e);
                },
            };
            let coordinate = Box::new(
                DensityFunction::Reference(Reference { id: coord_id, resolved: None }),
            );
            match obj_get(fields, "points") {
                None => Ok(CubicSpline { coordinate, points: Vec::new() }),
                Some(pv) => match pv {
                    JsonValue::Arr(elems) => {
                        proof {
                            lemma_lookup_decreases_vec(*fields, "points"@);
                            assert(decreases_to!(*j => (*j)->Obj_0));
                            assert(decreases_to!(*pv => (*pv)->Arr_0));
                        }
                        match json_points(elems) {
                            Ok(points) => Ok(CubicSpline { coordinate, points }),
                            Err(e) => Err(e),
                        }
                    },
                    _ => Err(LowerError),
                },
            }
        },
        _ => Err(LowerError),
    }
}

/// Lowers every element of a point array, in order.
fn json_points(elems: &Vec<JsonValue>) -> (r: Result<Vec<SplinePoint>, LowerError>)
    ensures
        r is Ok <==> points_ok(elems@),
        r matches Ok(ps) ==> points_to(elems@, ps@),
    decreases elems, 0int,
{
    let n = elems.len();
    let mut out: Vec<SplinePoint> = Vec::new();
    let mut i: usize = 0;
    while i < n
        invariant
            n == elems@.len(),
            i <= n,
            out@.len() == i,
            points_ok(elems@.subrange(0, i as int)),
            points_to(elems@.subrange(0, i as int), out@),
        decreases n - i,
    {
        proof {
            assert(decreases_to!(*elems => elems@[i as int]));
        }
        let p = match json_spline_point(&elems[i]) {
            Ok(p) => p,
            Err(e) => {
                proof {
                    lemma_points_prefix_bad(elems@, i as int);
                }
                return Err(e);
            },
        };
        let ghost pre_elems = elems@.subrange(0, i as int);
        let ghost pre_out = out@;
        out.push(p);
        proof {
            lemma_points_snoc(pre_elems, pre_out, elems@[i as int], p);
            assert(elems@.subrange(0, i + 1) =~= pre_elems.push(elems@[i as int]));
        }
        i = i + 1;
    }
    proof {
        assert(elems@.subrange(0, n as int) =~= elems@);
    }
    Ok(out)
}

/// Appending a well-formed point keeps a point array lowering intact.
proof fn lemma_points_snoc(s: Seq<JsonValue>, ps: Seq<SplinePoint>, j: JsonValue, p: SplinePoint)
    requires
        points_ok(s),
        points_to(s, ps),
        point_ok(j),
        point_to(j, p),
    ensures
        points_ok(s.push(j)),
        points_to(s.push(j), ps.push(p)),
    decreases s.len(),
{
    if s.len() == 0 {
        assert(s.push(j).drop_first() =~= Seq::<JsonValue>::empty());
        assert(ps.push(p).drop_first() =~= Seq::<SplinePoint>::empty());
        assert(s.push(j)[0] == j);
        assert(ps.push(p)[0] == p);
        assert(points_ok(Seq::<JsonValue>::empty()));
        assert(points_to(Seq::<JsonValue>::empty(), Seq::<SplinePoint>::empty()));
        assert(points_ok(s.push(j)));
        assert(points_to(s.push(j), ps.push(p)));
    } else {
        assert(point_ok(s[0]) && points_ok(s.drop_first()));
        assert(ps.len() > 0 && point_to(s[0], ps[0]) && points_to(
            s.drop_first(),
            ps.drop_first(),
        ));
        lemma_points_snoc(s.drop_first(), ps.drop_first(), j, p);
        assert(s.push(j).drop_first() =~= s.drop_first().push(j));
        assert(ps.push(p).drop_first() =~= ps.drop_first().push(p));
        assert(s.push(j)[0] == s[0]);
        assert(ps.push(p)[0] == ps[0]);
        assert(points_ok(s.push(j)));
        assert(points_to(s.push(j), ps.push(p)));
    }
}

/// A point array with one bad element does not lower.
proof fn lemma_points_prefix_bad(s: Seq<JsonValue>, i: int)
    requires
        0 <= i < s.len(),
        !point_ok(s[i]),
    ensures
        !points_ok(s),
    decreases i,
{
    if i > 0 {
        lemma_points_prefix_bad(s.drop_first(), i - 1);
    }
}

/// Lowers one spline point: `location`, `derivative` and a `value` that
/// is a constant or a nested spline.
fn json_spline_point(j: &JsonValue) -> (r: Result<SplinePoint, LowerError>)
    ensures
        r is Ok <==> point_ok(*j),
        r matches Ok(p) ==> point_to(*j, p),
    decreases j, 0int,
{
    match j {
        JsonValue::Obj(fields) => {
            let location = match get_num(fields, "location") {
                Ok(v) => v,
                Err(e) => {
                    return Err(e);
                },
            };
            let derivative = match get_num(fields, "derivative") {
                Ok(v) => v,
                Err(e) => {
                    return Err(e);
                },
            };
            match obj_get(fields, "value") {
                Some(v) => {
                    proof {
                        lemma_lookup_decreases_vec(*fields, "value"@);
                        assert(decreases_to!(*j => (*j)->Obj_0));
                    }
                    match v {
                        JsonValue::Num(c) => Ok(
                            SplinePoint {
                                location,
                                value: SplineValue::Constant(c.clone()),
                                derivative,
                            },
                        ),
                        JsonValue::Obj(_) => match json_spline_to_cubic(v) {
                            Ok(cs) => Ok(
                                SplinePoint {
                                    location,
                                    value: SplineValue::Spline(Box::new(cs)),
                                    derivative,
                                },
                            ),
                            Err(e) => Err(e),
                        },
                        _ => Err(LowerError),
                    }
                },
                None => Err(LowerError),
            }
        },
        _ => Err(LowerError),
    }
}

} // verus!
