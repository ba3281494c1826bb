//! Graph analysis over density function trees: Y-usage, cache markers,
//! reference collection, reachability, flatness inference and topological
//! ordering.
//!
//! A function is "flat" when its value cannot depend on the Y coordinate;
//! flat functions are cached per column by the generated code.  Flatness
//! of named functions is a fixpoint: a function is flat when it is marked
//! flat-cached, or when it does not use Y itself and every named function
//! it references is already flat.

use vstd::prelude::*;
use vstd::string::*;
use crate::density::{
    CubicSpline, DensityFunction, MarkerType, SplinePoint, SplineValue, is_zero_numeral,
};
use crate::strkey::{
    StrMap, StrSet, count_missing, lemma_count_missing_mono, lemma_count_missing_nonneg,
    lemma_count_missing_strict, lemma_seq_lt_trichotomy, lemma_strs_contain_index,
    lemma_strs_contain_push, lemma_strs_index, str_vec_contains, strs_contain, strs_distinct,
};

verus! {

/// Whether this node's value depends on the Y coordinate, looking only at
/// the tree itself: references defer to the flatness fixpoint and count
/// as not using Y here.
pub open spec fn spec_uses_y(df: DensityFunction) -> bool
    decreases df,
{
    match df {
        DensityFunction::YClampedGradient(_) => true,
        DensityFunction::Shift(_) => true,
        DensityFunction::BlendedNoise(_) => true,
        DensityFunction::Noise(n) => !is_zero_numeral(n.y_scale@),
        DensityFunction::ShiftedNoise(sn) => !is_zero_numeral(sn.y_scale@) || spec_uses_y(
            *sn.shift_y,
        ),
        DensityFunction::WeirdScaledSampler(ws) => spec_uses_y(*ws.input),
        DensityFunction::TwoArgumentSimple(t) => spec_uses_y(*t.argument1) || spec_uses_y(
            *t.argument2,
        ),
        DensityFunction::Mapped(m) => spec_uses_y(*m.input),
        DensityFunction::Clamp(c) => spec_uses_y(*c.input),
        DensityFunction::RangeChoice(rc) => spec_uses_y(*rc.input) || spec_uses_y(
            *rc.when_in_range,
        ) || spec_uses_y(*rc.when_out_of_range),
        DensityFunction::BlendDensity(bd) => spec_uses_y(*bd.input),
        DensityFunction::Marker(m) => spec_uses_y(*m.wrapped),
        DensityFunction::Spline(s) => spec_uses_y_spline(*s.spline),
        DensityFunction::Reference(_) => false,
        DensityFunction::Constant(_) => false,
        DensityFunction::ShiftA(_) => false,
        DensityFunction::ShiftB(_) => false,
        DensityFunction::BlendAlpha(_) => false,
        DensityFunction::BlendOffset(_) => false,
        DensityFunction::EndIslands => false,
    }
}

/// Whether a spline's coordinate or any nested spline value uses Y.
pub open spec fn spec_uses_y_spline(cs: CubicSpline) -> bool
    decreases cs,
{
    spec_uses_y(*cs.coordinate) || spec_points_use_y(cs.points@)
}

/// Whether any point of a point list holds a nested spline that uses Y.
pub open spec fn spec_points_use_y(ps: Seq<SplinePoint>) -> bool
    decreases ps,
{
    if ps.len() == 0 {
        false
    } else {
        (match ps[0].value {
            SplineValue::Spline(ns) => spec_uses_y_spline(*ns),
            SplineValue::Constant(_) => false,
        }) || spec_points_use_y(ps.drop_first())
    }
}

/// Whether `df` is wrapped in a column-cache marker.
pub open spec fn spec_is_flat_cached(df: DensityFunction) -> bool {
    match df {
        DensityFunction::Marker(m) => m.kind is FlatCache || m.kind is Cache2D,
        _ => false,
    }
}

/// Whether the reference id `n` occurs in the tree (not following
/// resolved targets, which mirror registry entries walked separately).
pub open spec fn ref_in(df: DensityFunction, n: Seq<char>) -> bool
    decreases df,
{
    match df {
        DensityFunction::Reference(r) => r.id@ == n,
        DensityFunction::Marker(m) => ref_in(*m.wrapped, n),
        DensityFunction::TwoArgumentSimple(t) => ref_in(*t.argument1, n) || ref_in(
            *t.argument2,
            n,
        ),
        DensityFunction::Mapped(m) => ref_in(*m.input, n),
        DensityFunction::Clamp(c) => ref_in(*c.input, n),
        DensityFunction::RangeChoice(rc) => ref_in(*rc.input, n) || ref_in(*rc.when_in_range, n)
            || ref_in(*rc.when_out_of_range, n),
        DensityFunction::ShiftedNoise(sn) => ref_in(*sn.shift_x, n) || ref_in(*sn.shift_y, n)
            || ref_in(*sn.shift_z, n),
        DensityFunction::BlendDensity(bd) => ref_in(*bd.input, n),
        DensityFunction::WeirdScaledSampler(ws) => ref_in(*ws.input, n),
        DensityFunction::Spline(s) => ref_in_spline(*s.spline, n),
        _ => false,
    }
}

/// Whether the reference id `n` occurs in a spline.
pub open spec fn ref_in_spline(cs: CubicSpline, n: Seq<char>) -> bool
    decreases cs,
{
    ref_in(*cs.coordinate, n) || ref_in_points(cs.points@, n)
}

/// Whether the reference id `n` occurs in a point list.
pub open spec fn ref_in_points(ps: Seq<SplinePoint>, n: Seq<char>) -> bool
    decreases ps,
{
    if ps.len() == 0 {
        false
    } else {
        (match ps[0].value {
            SplineValue::Spline(ns) => ref_in_spline(*ns, n),
            SplineValue::Constant(_) => false,
        }) || ref_in_points(ps.drop_first(), n)
    }
}

/// Whether the noise id `n` is sampled anywhere in the tree.  The
/// single-channel blended-noise substitute always samples
/// `minecraft:offset`.
pub open spec fn noise_in(df: DensityFunction, n: Seq<char>) -> bool
    decreases df,
{
    match df {
        DensityFunction::Noise(x) => x.noise_id@ == n,
        DensityFunction::ShiftA(x) => x.noise_id@ == n,
        DensityFunction::ShiftB(x) => x.noise_id@ == n,
        DensityFunction::Shift(x) => x.noise_id@ == n,
        DensityFunction::BlendedNoise(_) => n == "minecraft:offset"@,
        DensityFunction::ShiftedNoise(sn) => sn.noise_id@ == n || noise_in(*sn.shift_x, n)
            || noise_in(*sn.shift_y, n) || noise_in(*sn.shift_z, n),
        DensityFunction::WeirdScaledSampler(ws) => ws.noise_id@ == n || noise_in(*ws.input, n),
        DensityFunction::Marker(m) => noise_in(*m.wrapped, n),
        DensityFunction::TwoArgumentSimple(t) => noise_in(*t.argument1, n) || noise_in(
            *t.argument2,
            n,
        ),
        DensityFunction::Mapped(m) => noise_in(*m.input, n),
        DensityFunction::Clamp(c) => noise_in(*c.input, n),
        DensityFunction::RangeChoice(rc) => noise_in(*rc.input, n) || noise_in(
            *rc.when_in_range,
            n,
        ) || noise_in(*rc.when_out_of_range, n),
        DensityFunction::BlendDensity(bd) => noise_in(*bd.input, n),
        DensityFunction::Spline(s) => noise_in_spline(*s.spline, n),
        _ => false,
    }
}

/// Whether the noise id `n` is sampled in a spline.
pub open spec fn noise_in_spline(cs: CubicSpline, n: Seq<char>) -> bool
    decreases cs,
{
    noise_in(*cs.coordinate, n) || noise_in_points(cs.points@, n)
}

/// Whether the noise id `n` is sampled in a point list.
pub open spec fn noise_in_points(ps: Seq<SplinePoint>, n: Seq<char>) -> bool
    decreases ps,
{
    if ps.len() == 0 {
        false
    } else {
        (match ps[0].value {
            SplineValue::Spline(ns) => noise_in_spline(*ns, n),
            SplineValue::Constant(_) => false,
        }) || noise_in_points(ps.drop_first(), n)
    }
}

/// Strips cache and marker wrappers, returning the wrapped expression.
pub fn unwrap_markers(df: &DensityFunction) -> (r: &DensityFunction)
    ensures
        *r == spec_unwrap_markers(*df),
    decreases df,
{
    match df {
        DensityFunction::Marker(m) => unwrap_markers(&m.wrapped),
        _ => df,
    }
}

/// The expression under any stack of cache and marker wrappers.
pub open spec fn spec_unwrap_markers(df: DensityFunction) -> DensityFunction
    decreases df,
{
    match df {
        DensityFunction::Marker(m) => spec_unwrap_markers(*m.wrapped),
        _ => df,
    }
}

/// Whether `df` is wrapped in a column-cache marker.
pub fn is_flat_cached(df: &DensityFunction) -> (r: bool)
    ensures
        r == spec_is_flat_cached(*df),
{
    match df {
        DensityFunction::Marker(m) => match m.kind {
            MarkerType::FlatCache => true,
            MarkerType::Cache2D => true,
            _ => false,
        },
        _ => false,
    }
}

/// Whether this node's value depends on the Y coordinate; see
/// [`spec_uses_y`].
pub fn uses_y(df: &DensityFunction) -> (r: bool)
    ensures
        r == spec_uses_y(*df),
    decreases df,
{
    match df {
        DensityFunction::YClampedGradient(_) => true,
        DensityFunction::Shift(_) => true,
        DensityFunction::BlendedNoise(_) => true,
        DensityFunction::Noise(n) => !numeral_is_zero_ref(&n.y_scale),
        DensityFunction::ShiftedNoise(sn) => !numeral_is_zero_ref(&sn.y_scale) || uses_y(
            &sn.shift_y,
        ),
        DensityFunction::WeirdScaledSampler(ws) => uses_y(&ws.input),
        DensityFunction::TwoArgumentSimple(t) => uses_y(&t.argument1) || uses_y(&t.argument2),
        DensityFunction::Mapped(m) => uses_y(&m.input),
        DensityFunction::Clamp(c) => uses_y(&c.input),
        DensityFunction::RangeChoice(rc) => uses_y(&rc.input) || uses_y(&rc.when_in_range)
            || uses_y(&rc.when_out_of_range),
        DensityFunction::BlendDensity(bd) => uses_y(&bd.input),
        DensityFunction::Marker(m) => uses_y(&m.wrapped),
        DensityFunction::Spline(s) => uses_y_spline(&s.spline),
        _ => false,
    }
}

/// [`crate::density::numeral_is_zero`] on a borrowed numeral.
fn numeral_is_zero_ref(s: &String) -> (r: bool)
    ensures
        r == is_zero_numeral(s@),
{
    crate::density::numeral_is_zero(s.as_str())
}

/// Whether a spline's coordinate or any nested spline value uses Y.
pub fn uses_y_spline(cs: &CubicSpline) -> (r: bool)
    ensures
        r == spec_uses_y_spline(*cs),
    decreases cs,
{
    if uses_y(&cs.coordinate) {
        return true;
    }
    let n = cs.points.len();
    proof {
        assert(cs.points@.subrange(0, n as int) =~= cs.points@);
        assert(cs.points@.subrange(0, 0) =~= Seq::<SplinePoint>::empty());
    }
    let mut i: usize = 0;
    while i < n
        invariant
            n == cs.points@.len(),
            i <= n,
            !spec_uses_y(*cs.coordinate),
            !spec_points_use_y(cs.points@.subrange(0, i as int)),
            spec_points_use_y(cs.points@) == spec_points_use_y(
                cs.points@.subrange(i as int, n as int),
            ),
        decreases n - i,
    {
        proof {
            let suf = cs.points@.subrange(i as int, n as int);
            assert(suf[0] == cs.points@[i as int]);
            assert(suf.drop_first() =~= cs.points@.subrange(i + 1, n as int));
            assert(decreases_to!(cs => cs.points));
            assert(decreases_to!(cs.points => cs.points@));
            assert(decreases_to!(cs.points@ => cs.points@[i as int]));
        }
        let hit = match &cs.points[i].value {
            SplineValue::Spline(ns) => uses_y_spline(ns),
            SplineValue::Constant(_) => false,
        };
        if hit {
            return true;
        }
        proof {
            lemma_points_use_y_split(cs.points@, i as int);
        }
        i = i + 1;
    }
    proof {
        assert(cs.points@.subrange(0, n as int) =~= cs.points@);
    }
    false
}

/// Collects the reference ids of a tree, without duplicates, in
/// depth-first discovery order.
pub fn collect_references(df: &DensityFunction) -> (out: Vec<String>)
    ensures
        forall|n: Seq<char>| #[trigger] strs_contain(out@, n) <==> ref_in(*df, n),
        strs_distinct(out@),
{
    let mut refs: Vec<String> = Vec::new();
    let ghost e = refs@;
    proof {
        assert(strs_distinct(e));
    }
    collect_refs_inner(df, &mut refs);
    proof {
        assert forall|n: Seq<char>| !strs_contain(e, n) by {
            if strs_contain(e, n) {
                let i = lemma_strs_contain_index(e, n);
            }
        }
    }
    refs
}

/// Records the reference ids of a tree into `refs`, skipping ids already
/// recorded.
pub fn collect_refs_inner(df: &DensityFunction, refs: &mut Vec<String>)
    ensures
        forall|n: Seq<char>| #[trigger] strs_contain(final(refs)@, n) <==> strs_contain(
            old(refs)@,
            n,
        ) || ref_in(*df, n),
        strs_distinct(old(refs)@) ==> strs_distinct(final(refs)@),
    decreases df,
{
    match df {
        DensityFunction::Reference(r) => {
            if !str_vec_contains(refs, r.id.as_str()) {
                let ghost prev = refs@;
                refs.push(r.id.clone());
                proof {
                    lemma_strs_contain_push(prev, refs@[prev.len() as int]);
                    if strs_distinct(prev) {
                        assert forall|i: int, j: int|
                            0 <= i < j < refs@.len() implies refs@[i]@ != refs@[j]@ by {
                            if j == prev.len() {
                                if refs@[i]@ == r.id@ {
                                    lemma_strs_index(prev, i);
                                }
                            }
                        }
                    }
                }
            }
            proof {
                assert(forall|n: Seq<char>| ref_in(*df, n) == (r.id@ == n));
            }
        },
        DensityFunction::Marker(m) => {
            collect_refs_inner(&m.wrapped, refs);
            proof {
                assert(forall|n: Seq<char>| ref_in(*df, n) == ref_in(*m.wrapped, n));
            }
        },
        DensityFunction::TwoArgumentSimple(t) => {
            collect_refs_inner(&t.argument1, refs);
            collect_refs_inner(&t.argument2, refs);
            proof {
                assert(forall|n: Seq<char>|
                    ref_in(*df, n) == (ref_in(*t.argument1, n) || ref_in(*t.argument2, n)));
            }
        },
        DensityFunction::Mapped(m) => {
            collect_refs_inner(&m.input, refs);
            proof {
                assert(forall|n: Seq<char>| ref_in(*df, n) == ref_in(*m.input, n));
            }
        },
        DensityFunction::Clamp(c) => {
            collect_refs_inner(&c.input, refs);
            proof {
                assert(forall|n: Seq<char>| ref_in(*df, n) == ref_in(*c.input, n));
            }
        },
        DensityFunction::RangeChoice(rc) => {
            collect_refs_inner(&rc.input, refs);
            collect_refs_inner(&rc.when_in_range, refs);
            collect_refs_inner(&rc.when_out_of_range, refs);
            proof {
                assert(forall|n: Seq<char>|
                    ref_in(*df, n) == (ref_in(*rc.input, n) || ref_in(*rc.when_in_range, n)
                        || ref_in(*rc.when_out_of_range, n)));
            }
        },
        DensityFunction::ShiftedNoise(sn) => {
            collect_refs_inner(&sn.shift_x, refs);
            collect_refs_inner(&sn.shift_y, refs);
            collect_refs_inner(&sn.shift_z, refs);
            proof {
                assert(forall|n: Seq<char>|
                    ref_in(*df, n) == (ref_in(*sn.shift_x, n) || ref_in(*sn.shift_y, n) || ref_in(
                        *sn.shift_z,
                        n,
                    )));
            }
        },
        DensityFunction::BlendDensity(bd) => {
            collect_refs_inner(&bd.input, refs);
            proof {
                assert(forall|n: Seq<char>| ref_in(*df, n) == ref_in(*bd.input, n));
            }
        },
        DensityFunction::WeirdScaledSampler(ws) => {
            collect_refs_inner(&ws.input, refs);
            proof {
                assert(forall|n: Seq<char>| ref_in(*df, n) == ref_in(*ws.input, n));
            }
        },
        DensityFunction::Spline(sp) => {
            proof {
                assert(decreases_to!(*df => (*df)->Spline_0));
            }
            collect_spline_refs(&sp.spline, refs);
            proof {
                assert(forall|n: Seq<char>| ref_in(*df, n) == ref_in_spline(*sp.spline, n));
            }
        },
        _ => {
            proof {
                assert(forall|n: Seq<char>| !ref_in(*df, n));
            }
        },
    }
}

/// Records the reference ids of a spline into `refs`.
fn collect_spline_refs(cs: &CubicSpline, refs: &mut Vec<String>)
    ensures
        forall|n: Seq<char>| #[trigger] strs_contain(final(refs)@, n) <==> strs_contain(
            old(refs)@,
            n,
        ) || ref_in_spline(*cs, n),
        strs_distinct(old(refs)@) ==> strs_distinct(final(refs)@),
    decreases cs,
{
    collect_refs_inner(&cs.coordinate, refs);
    let n = cs.points.len();
    proof {
        assert(cs.points@.subrange(0, 0) =~= Seq::<SplinePoint>::empty());
        assert(forall|s: Seq<char>| !ref_in_points(Seq::<SplinePoint>::empty(), s));
    }
    let mut i: usize = 0;
    while i < n
        invariant
            n == cs.points@.len(),
            i <= n,
            forall|s: Seq<char>| #[trigger] strs_contain(refs@, s) <==> strs_contain(
                old(refs)@,
                s,
            ) || ref_in(*cs.coordinate, s) || ref_in_points(cs.points@.subrange(0, i as int), s),
            strs_distinct(old(refs)@) ==> strs_distinct(refs@),
        decreases n - i,
    {
        let ghost pre_refs = refs@;
        match &cs.points[i].value {
            SplineValue::Spline(ns) => {
                proof {
                    assert(decreases_to!(*cs => cs.points));
                    assert(decreases_to!(cs.points => cs.points@));
                    assert(decreases_to!(cs.points@ => cs.points@[i as int]));
                    assert(decreases_to!(cs.points@[i as int] => cs.points@[i as int].value));
                }
                collect_spline_refs(ns, refs);
            },
            SplineValue::Constant(_) => {},
        }
        proof {
            let pre = cs.points@.subrange(0, i as int);
            let p = cs.points@[i as int];
            lemma_points_pred_push(pre, p);
            assert(cs.points@.subrange(0, i + 1) =~= pre.push(p));
        }
        i = i + 1;
    }
    proof {
        assert(cs.points@.subrange(0, n as int) =~= cs.points@);
    }
}

/// Whether every id collected in `refs` is a member of `flat`.
fn refs_all_in(refs: &Vec<String>, flat: &StrSet) -> (r: bool)
    ensures
        r == (forall|d: Seq<char>| #[trigger] strs_contain(refs@, d) ==> flat.has(d)),
{
    let n = refs.len();
    let mut i: usize = 0;
    while i < n
        invariant
            n == refs@.len(),
            i <= n,
            forall|j: int| 0 <= j < i ==> flat.has(refs@[j]@),
        decreases n - i,
    {
        if !flat.contains(refs[i].as_str()) {
            proof {
                lemma_strs_index(refs@, i as int);
            }
            return false;
        }
        i = i + 1;
    }
    proof {
        assert forall|d: Seq<char>| #[trigger] strs_contain(refs@, d) implies flat.has(d) by {
            let j = lemma_strs_contain_index(refs@, d);
        }
    }
    true
}

/// The flatness rule of the fixpoint: a named function is flat when its
/// definition carries a column-cache marker, or does not use Y itself and
/// references only functions already known flat.
pub open spec fn flat_rule(registry: StrMap<DensityFunction>, n: Seq<char>, flat: StrSet) -> bool {
    registry.has_key(n) && (spec_is_flat_cached(registry.get(n)) || (!spec_uses_y(
        spec_unwrap_markers(registry.get(n)),
    ) && forall|d: Seq<char>|
        #[trigger] ref_in(spec_unwrap_markers(registry.get(n)), d) ==> flat.has(d)))
}

/// Flatness of a router entry body, judged by the same rule applied to
/// the body itself rather than to a registry name.
pub open spec fn spec_router_flat(df: DensityFunction, flat: StrSet) -> bool {
    spec_is_flat_cached(df) || (!spec_uses_y(spec_unwrap_markers(df)) && forall|d: Seq<char>|
        #[trigger] ref_in(spec_unwrap_markers(df), d) ==> flat.has(d))
}

/// Decides [`spec_router_flat`] for one router entry body.
pub fn router_is_flat(df: &DensityFunction, flat: &StrSet) -> (r: bool)
    ensures
        r == spec_router_flat(*df, *flat),
{
    if is_flat_cached(df) {
        return true;
    }
    let inner = unwrap_markers(df);
    if uses_y(inner) {
        return false;
    }
    let refs = collect_references(inner);
    let all = refs_all_in(&refs, flat);
    proof {
        assert forall|d: Seq<char>|
            #[trigger] ref_in(spec_unwrap_markers(*df), d) implies strs_contain(refs@, d) by {
            assert(strs_contain(refs@, d) <==> ref_in(*inner, d));
        }
    }
    all
}

/// Infers which used named functions are flat, to a fixpoint.
///
/// The result is sound and complete for the rule: a used name is in the
/// result exactly when [`flat_rule`] accepts it over the result itself.
pub fn infer_flatness(registry: &StrMap<DensityFunction>, used: &StrSet) -> (flat: StrSet)
    requires
        registry.wf(),
        used.wf(),
    ensures
        flat.wf(),
        forall|n: Seq<char>| #[trigger] flat.has(n) ==> used.has(n) && registry.has_key(n),
        forall|n: Seq<char>|
            #[trigger] used.has(n) ==> (flat.has(n) <==> flat_rule(*registry, n, flat)),
{
    let mut flat = StrSet::new();
    let un = used.len();
    let mut i: usize = 0;
    while i < un
        invariant
            registry.wf(),
            used.wf(),
            flat.wf(),
            un == used@.len(),
            i <= un,
            forall|n: Seq<char>|
                #[trigger] flat.has(n) ==> used.has(n) && flat_rule(*registry, n, flat),
            forall|j: int|
                0 <= j < i && registry.has_key(used@[j]) && spec_is_flat_cached(
                    registry.get(used@[j]),
                ) ==> flat.has(used@[j]),
        decreases un - i,
    {
        let name = used.at(i);
        match registry.get_ref(name.as_str()) {
            Some(df) => {
                if is_flat_cached(df) {
                    let ghost flat0 = flat;
                    flat.insert(name.clone());
                    proof {
                        used.lemma_index_has(i as int);
                        assert forall|n: Seq<char>|
                            #[trigger] flat.has(n) implies used.has(n) && flat_rule(
                            *registry,
                            n,
                            flat,
                        ) by {
                            if flat0.has(n) {
                            } else {
                                assert(n == name@);
                            }
                        }
                    }
                }
            },
            None => {},
        }
        i = i + 1;
    }
    proof {
        assert forall|n: Seq<char>|
            used.has(n) && registry.has_key(n) && spec_is_flat_cached(
                registry.get(n),
            ) implies flat.has(n) by {
            let j = used.lemma_has_index(n);
        }
    }
    loop
        invariant
            registry.wf(),
            used.wf(),
            flat.wf(),
            un == used@.len(),
            forall|n: Seq<char>|
                #[trigger] flat.has(n) ==> used.has(n) && flat_rule(*registry, n, flat),
            forall|n: Seq<char>|
                used.has(n) && registry.has_key(n) && spec_is_flat_cached(registry.get(n))
                    ==> #[trigger] flat.has(n),
        decreases count_missing(used@, flat),
    {
        let ghost flat0 = flat;
        let mut changed = false;
        let mut i: usize = 0;
        while i < un
            invariant
                registry.wf(),
                used.wf(),
                flat.wf(),
                un == used@.len(),
                i <= un,
                forall|n: Seq<char>|
                    #[trigger] flat.has(n) ==> used.has(n) && flat_rule(*registry, n, flat),
                forall|n: Seq<char>|
                    used.has(n) && registry.has_key(n) && spec_is_flat_cached(registry.get(n))
                        ==> #[trigger] flat.has(n),
                forall|n: Seq<char>| flat0.has(n) ==> flat.has(n),
                !changed ==> flat == flat0,
                !changed ==> forall|j: int|
                    0 <= j < i ==> (flat_rule(*registry, used@[j], flat) ==> flat.has(used@[j])),
                changed ==> count_missing(used@, flat) < count_missing(used@, flat0),
            decreases un - i,
        {
            let name = used.at(i);
            if !flat.contains(name.as_str()) {
                match registry.get_ref(name.as_str()) {
                    Some(df) => {
                        let inner = unwrap_markers(df);
                        if !uses_y(inner) {
                            let refs = collect_references(inner);
                            if refs_all_in(&refs, &flat) {
                                let ghost flat1 = flat;
                                flat.insert(name.clone());
                                changed = true;
                                proof {
                                    used.lemma_index_has(i as int);
                                    assert forall|d: Seq<char>|
                                        #[trigger] ref_in(
                                            spec_unwrap_markers(registry.get(name@)),
                                            d,
                                        ) implies flat1.has(d) by {
                                        assert(strs_contain(refs@, d) <==> ref_in(*inner, d));
                                    }
                                    assert(flat_rule(*registry, name@, flat1));
                                    assert forall|n: Seq<char>|
                                        #[trigger] flat.has(n) implies used.has(n) && flat_rule(
                                        *registry,
                                        n,
                                        flat,
                                    ) by {
                                        if flat1.has(n) {
                                        } else {
                                            assert(n == name@);
                                        }
                                    }
                                    lemma_count_missing_mono(used@, flat0, flat1);
                                    lemma_count_missing_strict(used@, flat1, flat, name@);
                                }
                            }
                        }
                    },
                    None => {},
                }
            }
            proof {
                used.lemma_index_has(i as int);
                if !changed && flat_rule(*registry, used@[i as int], flat) && !flat.has(
                    used@[i as int],
                ) {
                    let dfv = registry.get(used@[i as int]);
                    if !spec_is_flat_cached(dfv) {
                        assert(!spec_uses_y(spec_unwrap_markers(dfv)));
                    }
                }
            }
            i = i + 1;
        }
        if !changed {
            proof {
                assert forall|n: Seq<char>|
                    used.has(n) implies (flat.has(n) <==> flat_rule(*registry, n, flat)) by {
                    let j = used.lemma_has_index(n);
                }
            }
            return flat;
        }
        proof {
            lemma_count_missing_nonneg(used@, flat);
        }
    }
}

/// The build failure of ordering: the named functions reference each
/// other in a cycle, which the code generator cannot serialise.
#[derive(Clone, Copy, PartialEq, Eq, Structural, Debug)]
pub struct CycleError;

/// A reference cycle: a non-empty run of names, each with a registry
/// definition that references the next, the last referencing the first.
pub open spec fn ref_cycle(registry: StrMap<DensityFunction>, chain: Seq<Seq<char>>) -> bool {
    &&& chain.len() > 0
    &&& forall|i: int|
        0 <= i < chain.len() ==> registry.has_key(#[trigger] chain[i]) && ref_in(
            registry.get(chain[i]),
            chain[if i + 1 == chain.len() {
                0int
            } else {
                i + 1
            }],
        )
}

/// Whether the registry holds any reference cycle.
pub open spec fn has_ref_cycle(registry: StrMap<DensityFunction>) -> bool {
    exists|chain: Seq<Seq<char>>| ref_cycle(registry, chain)
}

/// A reference cycle that runs entirely through used names.
pub open spec fn used_ref_cycle(
    registry: StrMap<DensityFunction>,
    used: StrSet,
    chain: Seq<Seq<char>>,
) -> bool {
    ref_cycle(registry, chain) && forall|i: int|
        0 <= i < chain.len() ==> used.has(#[trigger] chain[i])
}

/// Whether the used names hold any reference cycle.
pub open spec fn has_used_ref_cycle(registry: StrMap<DensityFunction>, used: StrSet) -> bool {
    exists|chain: Seq<Seq<char>>| used_ref_cycle(registry, used, chain)
}

/// The position of a name in an emitted order.
pub open spec fn order_pos(order: Seq<String>, n: Seq<char>) -> int {
    choose|p: int| 0 <= p < order.len() && order[p]@ == n
}

/// One step around a cycle moves strictly earlier in an order that puts
/// dependencies first.
proof fn lemma_cycle_step(
    registry: StrMap<DensityFunction>,
    used: StrSet,
    order: Seq<String>,
    chain: Seq<Seq<char>>,
    i: int,
)
    requires
        forall|n: Seq<char>| #[trigger] strs_contain(order, n) <==> used.has(n),
        strs_distinct(order),
        forall|k: int, d: Seq<char>|
            0 <= k < order.len() && #[trigger] dep_of(registry, order[k]@, d) && used.has(d)
                ==> exists|j: int| 0 <= j < k && order[j]@ == d,
        used_ref_cycle(registry, used, chain),
        0 <= i < chain.len(),
    ensures
        0 <= order_pos(order, chain[i]) < order.len(),
        order[order_pos(order, chain[i])]@ == chain[i],
        order_pos(
            order,
            chain[if i + 1 == chain.len() {
                0int
            } else {
                i + 1
            }],
        ) < order_pos(order, chain[i]),
{
    let nx = if i + 1 == chain.len() {
        0int
    } else {
        i + 1
    };
    assert(used.has(chain[i]));
    assert(strs_contain(order, chain[i]));
    let w = lemma_strs_contain_index(order, chain[i]);
    let p = order_pos(order, chain[i]);
    assert(0 <= p < order.len() && order[p]@ == chain[i]);
    assert(dep_of(registry, order[p]@, chain[nx]));
    assert(used.has(chain[nx]));
    let j = choose|j: int| 0 <= j < p && order[j]@ == chain[nx];
    assert(strs_contain(order, chain[nx]));
    let pn = order_pos(order, chain[nx]);
    assert(0 <= pn < order.len() && order[pn]@ == chain[nx]);
    if pn != j {
        assert(order[pn]@ == order[j]@);
        assert(false);
    }
}

/// Around a cycle, positions keep descending.
proof fn lemma_cycle_descent(
    registry: StrMap<DensityFunction>,
    used: StrSet,
    order: Seq<String>,
    chain: Seq<Seq<char>>,
    i: int,
)
    requires
        forall|n: Seq<char>| #[trigger] strs_contain(order, n) <==> used.has(n),
        strs_distinct(order),
        forall|k: int, d: Seq<char>|
            0 <= k < order.len() && #[trigger] dep_of(registry, order[k]@, d) && used.has(d)
                ==> exists|j: int| 0 <= j < k && order[j]@ == d,
        used_ref_cycle(registry, used, chain),
        0 <= i < chain.len(),
    ensures
        order_pos(order, chain[i]) <= order_pos(order, chain[0]) - i,
    decreases i,
{
    if i == 0 {
    } else {
        lemma_cycle_descent(registry, used, order, chain, i - 1);
        lemma_cycle_step(registry, used, order, chain, i - 1);
    }
}

/// An order that puts every used dependency before its dependent and
/// lists exactly the used names rules out any cycle through them: the
/// positions around a cycle would descend below themselves.
pub proof fn lemma_order_no_cycle(
    registry: StrMap<DensityFunction>,
    used: StrSet,
    order: Seq<String>,
)
    requires
        forall|n: Seq<char>| #[trigger] strs_contain(order, n) <==> used.has(n),
        strs_distinct(order),
        forall|k: int, d: Seq<char>|
            0 <= k < order.len() && #[trigger] dep_of(registry, order[k]@, d) && used.has(d)
                ==> exists|j: int| 0 <= j < k && order[j]@ == d,
    ensures
        !has_used_ref_cycle(registry, used),
{
    if has_used_ref_cycle(registry, used) {
        let chain = choose|chain: Seq<Seq<char>>| used_ref_cycle(registry, used, chain);
        let last = chain.len() - 1;
        lemma_cycle_descent(registry, used, order, chain, last);
        lemma_cycle_step(registry, used, order, chain, last);
    }
}

/// A cycle through used names is in particular a registry cycle.
pub proof fn lemma_used_cycle_is_cycle(registry: StrMap<DensityFunction>, used: StrSet)
    requires
        has_used_ref_cycle(registry, used),
    ensures
        has_ref_cycle(registry),
{
    let chain = choose|chain: Seq<Seq<char>>| used_ref_cycle(registry, used, chain);
    assert(ref_cycle(registry, chain));
}

/// Whether `d` is a direct dependency of the named function `n`: `n` has
/// a definition and that definition references `d`.
pub open spec fn dep_of(registry: StrMap<DensityFunction>, n: Seq<char>, d: Seq<char>) -> bool {
    registry.has_key(n) && ref_in(registry.get(n), d)
}

/// The standing invariant of the depth-first ordering walk: emitted names
/// are distinct, the visited names are exactly the emitted ones and those
/// on the walk's path, no name is both, and every used dependency of an
/// emitted name was emitted before it.
pub open spec fn topo_inv(
    registry: StrMap<DensityFunction>,
    used: StrSet,
    visited: StrSet,
    path: Seq<String>,
    order: Seq<String>,
) -> bool {
    &&& forall|i: int, j: int| 0 <= i < j < order.len() ==> order[i]@ != order[j]@
    &&& forall|n: Seq<char>|
        #[trigger] visited.has(n) <==> strs_contain(order, n) || strs_contain(path, n)
    &&& forall|n: Seq<char>| strs_contain(order, n) ==> !strs_contain(path, n)
    &&& forall|n: Seq<char>| #[trigger] visited.has(n) ==> used.has(n)
    &&& forall|k: int, d: Seq<char>|
        0 <= k < order.len() && #[trigger] dep_of(registry, order[k]@, d) && used.has(d)
            ==> exists|j: int| 0 <= j < k && order[j]@ == d
    &&& forall|i: int|
        0 <= i < path.len() - 1 ==> registry.has_key(#[trigger] path[i]@) && ref_in(
            registry.get(path[i]@),
            path[i + 1]@,
        )
}

/// Orders all used names so that dependencies precede dependents, by
/// depth-first walk with emission after the dependencies.  A reference
/// cycle among the used names is reported instead of an order.
pub fn topological_sort(registry: &StrMap<DensityFunction>, used: &StrSet) -> (r: Result<
    Vec<String>,
    CycleError,
>)
    requires
        registry.wf(),
        used.wf(),
    ensures
        r matches Ok(order) ==> {
            &&& forall|n: Seq<char>| #[trigger] strs_contain(order@, n) <==> used.has(n)
            &&& strs_distinct(order@)
            &&& forall|k: int, d: Seq<char>|
                0 <= k < order@.len() && #[trigger] dep_of(*registry, order@[k]@, d) && used.has(
                    d,
                ) ==> exists|j: int| 0 <= j < k && order@[j]@ == d
        },
        r is Ok ==> !has_used_ref_cycle(*registry, *used),
        r is Err ==> has_used_ref_cycle(*registry, *used),
{
    let mut visited = StrSet::new();
    let mut path: Vec<String> = Vec::new();
    let mut order: Vec<String> = Vec::new();
    proof {
        assert forall|n: Seq<char>| !strs_contain(order@, n) && !strs_contain(path@, n) by {
            if strs_contain(order@, n) {
                let i = lemma_strs_contain_index(order@, n);
            }
            if strs_contain(path@, n) {
                let i = lemma_strs_contain_index(path@, n);
            }
        }
    }
    let un = used.len();
    let mut i: usize = 0;
    while i < un
        invariant
            registry.wf(),
            used.wf(),
            visited.wf(),
            un == used@.len(),
            i <= un,
            path@.len() == 0,
            topo_inv(*registry, *used, visited, path@, order@),
            forall|j: int| 0 <= j < i ==> visited.has(used@[j]),
        decreases un - i,
    {
        let name = used.at(i);
        proof {
            used.lemma_index_has(i as int);
        }
        match topo_visit(name, registry, used, &mut visited, &mut path, &mut order) {
            Ok(_) => {},
            Err(e) => {
                return Err(e);
            },
        }
        i = i + 1;
    }
    proof {
        assert forall|n: Seq<char>| #[trigger] strs_contain(order@, n) <==> used.has(n) by {
            assert(visited.has(n) <==> strs_contain(order@, n) || strs_contain(path@, n));
            if strs_contain(path@, n) {
                let p = lemma_strs_contain_index(path@, n);
            }
            if used.has(n) && !strs_contain(order@, n) {
                let j = used.lemma_has_index(n);
                assert(visited.has(used@[j]));
            }
        }
        assert forall|n: Seq<char>| #[trigger] strs_contain(order@, n) <==> used.has(n) by {
            assert(visited.has(n) <==> strs_contain(order@, n) || strs_contain(path@, n));
            if strs_contain(path@, n) {
                let p = lemma_strs_contain_index(path@, n);
            }
            if used.has(n) && !strs_contain(order@, n) {
                let j = used.lemma_has_index(n);
                assert(visited.has(used@[j]));
            }
        }
        lemma_order_no_cycle(*registry, *used, order@);
    }
    Ok(order)
}

/// Visits one used name: marks it, visits its used dependencies, and
/// emits it after them.  A name found on the current path is a cycle.
fn topo_visit(
    name: &String,
    registry: &StrMap<DensityFunction>,
    used: &StrSet,
    visited: &mut StrSet,
    path: &mut Vec<String>,
    order: &mut Vec<String>,
) -> (r: Result<(), CycleError>)
    requires
        registry.wf(),
        used.wf(),
        old(visited).wf(),
        used.has(name@),
        topo_inv(*registry, *used, *old(visited), old(path)@, old(order)@),
        old(path)@.len() > 0 ==> registry.has_key(old(path)@[old(path)@.len() - 1]@) && ref_in(
            registry.get(old(path)@[old(path)@.len() - 1]@),
            name@,
        ),
    ensures
        r is Err ==> has_used_ref_cycle(*registry, *used),
        r is Ok ==> {
            &&& final(visited).wf()
            &&& topo_inv(*registry, *used, *final(visited), final(path)@, final(order)@)
            &&& final(path)@ == old(path)@
            &&& old(order)@.len() <= final(order)@.len()
            &&& forall|k: int| 0 <= k < old(order)@.len() ==> final(order)@[k] == old(order)@[k]
            &&& forall|n: Seq<char>| old(visited).has(n) ==> final(visited).has(n)
            &&& strs_contain(final(order)@, name@)
            &&& forall|n: Seq<char>|
                #[trigger] strs_contain(old(order)@, n) ==> strs_contain(final(order)@, n)
        },
    decreases count_missing(used@, *old(visited)),
{
    proof {
        lemma_count_missing_nonneg(used@, *visited);
    }
    if visited.contains(name.as_str()) {
        if str_vec_contains(path, name.as_str()) {
            proof {
                let k = lemma_strs_contain_index(path@, name@);
                let chain = Seq::new((path@.len() - k) as nat, |i: int| path@[k + i]@);
                assert forall|i: int|
                    0 <= i < chain.len() implies used.has(#[trigger] chain[i]) by {
                    lemma_strs_index(path@, k + i);
                    assert(visited.has(chain[i]) <==> strs_contain(order@, chain[i])
                        || strs_contain(path@, chain[i]));
                }
                assert forall|i: int|
                    0 <= i < chain.len() implies registry.has_key(#[trigger] chain[i]) && ref_in(
                    registry.get(chain[i]),
                    chain[if i + 1 == chain.len() {
                        0int
                    } else {
                        i + 1
                    }],
                ) by {
                    if i + 1 == chain.len() {
                        assert(chain[i] == path@[path@.len() - 1]@);
                        assert(chain[0] == name@);
                    } else {
                        assert(chain[i] == path@[k + i]@);
                        assert(chain[i + 1] == path@[k + i + 1]@);
                    }
                }
                assert(used_ref_cycle(*registry, *used, chain));
            }
            return Err(CycleError);
        }
        proof {
            assert(strs_contain(order@, name@));
        }
        return Ok(());
    }
    visited.insert(name.clone());
    let ghost visited1 = *visited;
    proof {
        let ki = used.lemma_has_index(name@);
        lemma_count_missing_strict(used@, *old(visited), *visited, name@);
        lemma_count_missing_nonneg(used@, *visited);
        lemma_strs_contain_push(path@, *name);
    }
    path.push(name.clone());
    proof {
        assert forall|n: Seq<char>|
            #[trigger] visited.has(n) <==> strs_contain(order@, n) || strs_contain(path@, n) by {
            assert(path@ == old(path)@.push(*name));
        }
        assert(topo_inv(*registry, *used, *visited, path@, order@));
    }
    match registry.get_ref(name.as_str()) {
        Some(def) => {
            let deps = collect_references(def);
            let dn = deps.len();
            let mut j: usize = 0;
            while j < dn
                invariant
                    registry.wf(),
                    used.wf(),
                    visited.wf(),
                    dn == deps@.len(),
                    j <= dn,
                    used.has(name@),
                    registry.has_key(name@),
                    forall|n: Seq<char>| #[trigger] strs_contain(deps@, n) <==> ref_in(
                        registry.get(name@),
                        n,
                    ),
                    topo_inv(*registry, *used, *visited, path@, order@),
                    path@ == old(path)@.push(*name),
                    old(order)@.len() <= order@.len(),
                    forall|k: int| 0 <= k < old(order)@.len() ==> order@[k] == old(order)@[k],
                    forall|n: Seq<char>| visited1.has(n) ==> visited.has(n),
                    forall|n: Seq<char>|
                        #[trigger] strs_contain(old(order)@, n) ==> strs_contain(order@, n),
                    forall|p: int|
                        0 <= p < j && used.has(deps@[p]@) ==> strs_contain(order@, deps@[p]@),
                    count_missing(used@, *visited) < count_missing(used@, *old(visited)),
                decreases dn - j,
            {
                let dep = &deps[j];
                if used.contains(dep.as_str()) {
                    let ghost order_pre = order@;
                    let ghost visited_pre = *visited;
                    proof {
                        lemma_count_missing_nonneg(used@, *visited);
                        lemma_strs_index(deps@, j as int);
                        assert(path@[path@.len() - 1]@ == name@);
                        assert(ref_in(registry.get(name@), deps@[j as int]@));
                    }
                    match topo_visit(dep, registry, used, visited, path, order) {
                        Ok(_) => {},
                        Err(e) => {
                            return Err(e);
                        },
                    }
                    proof {
                        lemma_count_missing_mono(used@, visited_pre, *visited);
                        assert(strs_contain(order@, deps@[j as int]@));
                        assert forall|p: int|
                            0 <= p < j + 1 && used.has(deps@[p]@) implies strs_contain(
                            order@,
                            deps@[p]@,
                        ) by {
                            if p < j {
                                assert(strs_contain(order_pre, deps@[p]@));
                            }
                        }
                    }
                }
                j = j + 1;
            }
            proof {
                assert forall|d: Seq<char>|
                    dep_of(*registry, name@, d) && used.has(d) implies strs_contain(
                    order@,
                    d,
                ) by {
                    let p = lemma_strs_contain_index(deps@, d);
                }
            }
        },
        None => {},
    }
    let popped = path.pop();
    proof {
        assert(old(path)@.push(*name).drop_last() =~= old(path)@);
        lemma_strs_contain_push(old(path)@, *name);
    }
    let ghost order_before = order@;
    let ghost path_now = path@;
    order.push(name.clone());
    proof {
        lemma_strs_contain_push(order_before, *name);
        assert(path@ == old(path)@);
        // name was on the path while its dependencies were visited, so it
        // was not emitted there; the new entry is distinct from all before
        assert(!strs_contain(order_before, name@));
        assert forall|a: int, b: int| 0 <= a < b < order@.len() implies order@[a]@ != order@[b]@ by {
            if b < order_before.len() {
            } else {
                assert(order@[b]@ == name@);
                lemma_strs_index(order_before, a);
            }
        }
        assert forall|n: Seq<char>|
            #[trigger] visited.has(n) <==> strs_contain(order@, n) || strs_contain(path@, n) by {
            if visited.has(n) {
                if n == name@ {
                    assert(order@[order_before.len() as int]@ == name@);
                    lemma_strs_index(order@, order_before.len() as int);
                } else {
                    assert(strs_contain(order_before, n) || strs_contain(
                        old(path)@.push(*name),
                        n,
                    ));
                }
            } else {
                if strs_contain(order@, n) {
                    assert(strs_contain(order_before, n) || n == name@);
                }
                if strs_contain(path@, n) {
                    assert(strs_contain(old(path)@.push(*name), n));
                }
            }
        }
        // the dependency property for the newly emitted entry
        let k0 = order_before.len() as int;
        assert forall|d: Seq<char>|
            #[trigger] dep_of(*registry, order@[k0]@, d) && used.has(d) implies exists|j2: int|
            0 <= j2 < k0 && order@[j2]@ == d by {
            assert(order@[k0]@ == name@);
            assert(strs_contain(order_before, d));
            let j2 = lemma_strs_contain_index(order_before, d);
            assert(order@[j2]@ == d);
        }
        assert forall|k: int, d: Seq<char>|
            0 <= k < order@.len() && #[trigger] dep_of(*registry, order@[k]@, d) && used.has(
                d,
            ) implies exists|j2: int| 0 <= j2 < k && order@[j2]@ == d by {
            if k < order_before.len() {
                assert(order@[k] == order_before[k]);
                let j2 = choose|j2: int| 0 <= j2 < k && order_before[j2]@ == d;
                assert(order@[j2]@ == d);
            }
        }
        assert(topo_inv(*registry, *used, *visited, path@, order@));
        assert(order@[order_before.len() as int]@ == name@);
        lemma_strs_index(order@, order_before.len() as int);
    }
    Ok(())
}

/// An over-approximation certificate for the reachability walk: a pair
/// of sets that contains everything already recorded and is closed under
/// registry definitions.  The walked tree's own contribution enters
/// through [`df_head`] and its spline form.  Together with the lower
/// bounds of the walk this pins the result as the least such pair: the
/// walk records the reachable ids and nothing else.
pub open spec fn walk_cover(
    registry: StrMap<DensityFunction>,
    used0: StrSet,
    noises0: StrSet,
    s: Set<Seq<char>>,
    t: Set<Seq<char>>,
) -> bool {
    &&& forall|n: Seq<char>| used0.has(n) ==> s.contains(n)
    &&& forall|x: Seq<char>| noises0.has(x) ==> t.contains(x)
    &&& forall|n: Seq<char>, d: Seq<char>|
        s.contains(n) && registry.has_key(n) && #[trigger] ref_in(registry.get(n), d)
            ==> s.contains(d)
    &&& forall|n: Seq<char>, x: Seq<char>|
        s.contains(n) && registry.has_key(n) && #[trigger] noise_in(registry.get(n), x)
            ==> t.contains(x)
}

/// A tree's own contribution to a cover: its reference ids in `s`, its
/// noise ids in `t`.
pub open spec fn df_head(df: DensityFunction, s: Set<Seq<char>>, t: Set<Seq<char>>) -> bool {
    &&& forall|d: Seq<char>| #[trigger] ref_in(df, d) ==> s.contains(d)
    &&& forall|x: Seq<char>| #[trigger] noise_in(df, x) ==> t.contains(x)
}

/// A spline's own contribution to a cover.
pub open spec fn spline_head(cs: CubicSpline, s: Set<Seq<char>>, t: Set<Seq<char>>) -> bool {
    &&& forall|d: Seq<char>| #[trigger] ref_in_spline(cs, d) ==> s.contains(d)
    &&& forall|x: Seq<char>| #[trigger] noise_in_spline(cs, x) ==> t.contains(x)
}

/// The walk over `df` adds nothing beyond a cover: every pair of sets
/// satisfying [`walk_cover`] for the starting state and [`df_head`] for
/// the walked tree contains the resulting state.
pub open spec fn walk_bounded(
    registry: StrMap<DensityFunction>,
    df: DensityFunction,
    used0: StrSet,
    noises0: StrSet,
    used1: StrSet,
    noises1: StrSet,
) -> bool {
    forall|s: Set<Seq<char>>, t: Set<Seq<char>>|
        #[trigger] walk_cover(registry, used0, noises0, s, t) && df_head(df, s, t) ==> (forall|
            n: Seq<char>,
        |
            used1.has(n) ==> s.contains(n)) && (forall|x: Seq<char>|
            noises1.has(x) ==> t.contains(x))
}

/// The walk over a spline adds nothing beyond a cover.
pub open spec fn spline_bounded(
    registry: StrMap<DensityFunction>,
    cs: CubicSpline,
    used0: StrSet,
    noises0: StrSet,
    used1: StrSet,
    noises1: StrSet,
) -> bool {
    forall|s: Set<Seq<char>>, t: Set<Seq<char>>|
        #[trigger] walk_cover(registry, used0, noises0, s, t) && spline_head(cs, s, t) ==> (forall|
            n: Seq<char>,
        |
            used1.has(n) ==> s.contains(n)) && (forall|x: Seq<char>|
            noises1.has(x) ==> t.contains(x))
}

/// A walk that changes nothing is bounded.
proof fn lemma_bounded_refl(
    registry: StrMap<DensityFunction>,
    df: DensityFunction,
    u0: StrSet,
    n0: StrSet,
)
    ensures
        walk_bounded(registry, df, u0, n0, u0, n0),
{
}

/// Two bounded steps over the same tree compose.
proof fn lemma_bounded_trans(
    registry: StrMap<DensityFunction>,
    df: DensityFunction,
    u0: StrSet,
    n0: StrSet,
    u1: StrSet,
    n1: StrSet,
    u2: StrSet,
    n2: StrSet,
)
    requires
        walk_bounded(registry, df, u0, n0, u1, n1),
        walk_bounded(registry, df, u1, n1, u2, n2),
    ensures
        walk_bounded(registry, df, u0, n0, u2, n2),
{
    assert forall|s: Set<Seq<char>>, t: Set<Seq<char>>|
        #[trigger] walk_cover(registry, u0, n0, s, t) && df_head(df, s, t) implies (forall|
        n: Seq<char>,
    |
        u2.has(n) ==> s.contains(n)) && (forall|x: Seq<char>| n2.has(x) ==> t.contains(x)) by {
        assert(walk_cover(registry, u1, n1, s, t));
    }
}

/// Two bounded steps over the same spline compose.
proof fn lemma_spline_bounded_trans(
    registry: StrMap<DensityFunction>,
    cs: CubicSpline,
    u0: StrSet,
    n0: StrSet,
    u1: StrSet,
    n1: StrSet,
    u2: StrSet,
    n2: StrSet,
)
    requires
        spline_bounded(registry, cs, u0, n0, u1, n1),
        spline_bounded(registry, cs, u1, n1, u2, n2),
    ensures
        spline_bounded(registry, cs, u0, n0, u2, n2),
{
    assert forall|s: Set<Seq<char>>, t: Set<Seq<char>>|
        #[trigger] walk_cover(registry, u0, n0, s, t) && spline_head(cs, s, t) implies (forall|
        n: Seq<char>,
    |
        u2.has(n) ==> s.contains(n)) && (forall|x: Seq<char>| n2.has(x) ==> t.contains(x)) by {
        assert(walk_cover(registry, u1, n1, s, t));
    }
}

/// A step bounded for a child is bounded for the parent whose reference
/// and noise ids include the child's.
proof fn lemma_bounded_step(
    registry: StrMap<DensityFunction>,
    child: DensityFunction,
    df: DensityFunction,
    u0: StrSet,
    n0: StrSet,
    u1: StrSet,
    n1: StrSet,
)
    requires
        walk_bounded(registry, child, u0, n0, u1, n1),
        forall|d: Seq<char>| #[trigger] ref_in(child, d) ==> ref_in(df, d),
        forall|x: Seq<char>| #[trigger] noise_in(child, x) ==> noise_in(df, x),
    ensures
        walk_bounded(registry, df, u0, n0, u1, n1),
{
    assert forall|s: Set<Seq<char>>, t: Set<Seq<char>>|
        #[trigger] walk_cover(registry, u0, n0, s, t) && df_head(df, s, t) implies (forall|
        n: Seq<char>,
    |
        u1.has(n) ==> s.contains(n)) && (forall|x: Seq<char>| n1.has(x) ==> t.contains(x)) by {
        assert forall|d: Seq<char>| #[trigger] ref_in(child, d) implies s.contains(d) by {
            assert(ref_in(df, d));
        }
        assert forall|x: Seq<char>| #[trigger] noise_in(child, x) implies t.contains(x) by {
            assert(noise_in(df, x));
        }
        assert(df_head(child, s, t));
    }
}

/// A state change that only adds the tree's own ids is bounded.
proof fn lemma_bounded_add_own(
    registry: StrMap<DensityFunction>,
    df: DensityFunction,
    u0: StrSet,
    n0: StrSet,
    u1: StrSet,
    n1: StrSet,
)
    requires
        forall|n: Seq<char>| #[trigger] u1.has(n) ==> u0.has(n) || ref_in(df, n),
        forall|x: Seq<char>| #[trigger] n1.has(x) ==> n0.has(x) || noise_in(df, x),
    ensures
        walk_bounded(registry, df, u0, n0, u1, n1),
{
}

/// A step bounded for the definition of a referenced id is bounded for
/// the referencing tree: a cover holds the id, so by closure it holds
/// the definition's own ids too.
proof fn lemma_bounded_through_def(
    registry: StrMap<DensityFunction>,
    df: DensityFunction,
    id: Seq<char>,
    u0: StrSet,
    n0: StrSet,
    u1: StrSet,
    n1: StrSet,
)
    requires
        registry.has_key(id),
        ref_in(df, id),
        walk_bounded(registry, registry.get(id), u0, n0, u1, n1),
    ensures
        walk_bounded(registry, df, u0, n0, u1, n1),
{
    assert forall|s: Set<Seq<char>>, t: Set<Seq<char>>|
        #[trigger] walk_cover(registry, u0, n0, s, t) && df_head(df, s, t) implies (forall|
        n: Seq<char>,
    |
        u1.has(n) ==> s.contains(n)) && (forall|x: Seq<char>| n1.has(x) ==> t.contains(x)) by {
        assert(s.contains(id));
        assert forall|d: Seq<char>|
            #[trigger] ref_in(registry.get(id), d) implies s.contains(d) by {}
        assert forall|x: Seq<char>|
            #[trigger] noise_in(registry.get(id), x) implies t.contains(x) by {}
        assert(df_head(registry.get(id), s, t));
    }
}

/// A step bounded for a spline is bounded for the tree wrapping it.
proof fn lemma_bounded_spline_wrap(
    registry: StrMap<DensityFunction>,
    cs: CubicSpline,
    df: DensityFunction,
    u0: StrSet,
    n0: StrSet,
    u1: StrSet,
    n1: StrSet,
)
    requires
        spline_bounded(registry, cs, u0, n0, u1, n1),
        forall|d: Seq<char>| #[trigger] ref_in_spline(cs, d) ==> ref_in(df, d),
        forall|x: Seq<char>| #[trigger] noise_in_spline(cs, x) ==> noise_in(df, x),
    ensures
        walk_bounded(registry, df, u0, n0, u1, n1),
{
    assert forall|s: Set<Seq<char>>, t: Set<Seq<char>>|
        #[trigger] walk_cover(registry, u0, n0, s, t) && df_head(df, s, t) implies (forall|
        n: Seq<char>,
    |
        u1.has(n) ==> s.contains(n)) && (forall|x: Seq<char>| n1.has(x) ==> t.contains(x)) by {
        assert forall|d: Seq<char>| #[trigger] ref_in_spline(cs, d) implies s.contains(d) by {
            assert(ref_in(df, d));
        }
        assert forall|x: Seq<char>| #[trigger] noise_in_spline(cs, x) implies t.contains(x) by {
            assert(noise_in(df, x));
        }
        assert(spline_head(cs, s, t));
    }
}

/// A step bounded for a tree whose ids lie within a spline's is bounded
/// for the spline.
proof fn lemma_spline_bounded_step(
    registry: StrMap<DensityFunction>,
    child: DensityFunction,
    cs: CubicSpline,
    u0: StrSet,
    n0: StrSet,
    u1: StrSet,
    n1: StrSet,
)
    requires
        walk_bounded(registry, child, u0, n0, u1, n1),
        forall|d: Seq<char>| #[trigger] ref_in(child, d) ==> ref_in_spline(cs, d),
        forall|x: Seq<char>| #[trigger] noise_in(child, x) ==> noise_in_spline(cs, x),
    ensures
        spline_bounded(registry, cs, u0, n0, u1, n1),
{
    assert forall|s: Set<Seq<char>>, t: Set<Seq<char>>|
        #[trigger] walk_cover(registry, u0, n0, s, t) && spline_head(cs, s, t) implies (forall|
        n: Seq<char>,
    |
        u1.has(n) ==> s.contains(n)) && (forall|x: Seq<char>| n1.has(x) ==> t.contains(x)) by {
        assert forall|d: Seq<char>| #[trigger] ref_in(child, d) implies s.contains(d) by {
            assert(ref_in_spline(cs, d));
        }
        assert forall|x: Seq<char>| #[trigger] noise_in(child, x) implies t.contains(x) by {
            assert(noise_in_spline(cs, x));
        }
        assert(df_head(child, s, t));
    }
}

/// A step bounded for a nested spline is bounded for the enclosing one.
proof fn lemma_spline_bounded_nested(
    registry: StrMap<DensityFunction>,
    inner: CubicSpline,
    outer: CubicSpline,
    u0: StrSet,
    n0: StrSet,
    u1: StrSet,
    n1: StrSet,
)
    requires
        spline_bounded(registry, inner, u0, n0, u1, n1),
        forall|d: Seq<char>| #[trigger] ref_in_spline(inner, d) ==> ref_in_spline(outer, d),
        forall|x: Seq<char>| #[trigger] noise_in_spline(inner, x) ==> noise_in_spline(outer, x),
    ensures
        spline_bounded(registry, outer, u0, n0, u1, n1),
{
    assert forall|s: Set<Seq<char>>, t: Set<Seq<char>>|
        #[trigger] walk_cover(registry, u0, n0, s, t) && spline_head(outer, s, t) implies (forall|
        n: Seq<char>,
    |
        u1.has(n) ==> s.contains(n)) && (forall|x: Seq<char>| n1.has(x) ==> t.contains(x)) by {
        assert forall|d: Seq<char>| #[trigger] ref_in_spline(inner, d) implies s.contains(d) by {
            assert(ref_in_spline(outer, d));
        }
        assert forall|x: Seq<char>|
            #[trigger] noise_in_spline(inner, x) implies t.contains(x) by {
            assert(noise_in_spline(outer, x));
        }
        assert(spline_head(inner, s, t));
    }
}

/// A point's nested spline contributes its ids to the point list's.
proof fn lemma_points_member(ps: Seq<SplinePoint>, i: int)
    requires
        0 <= i < ps.len(),
        ps[i].value is Spline,
    ensures
        forall|d: Seq<char>|
            #[trigger] ref_in_spline(*ps[i].value->Spline_0, d) ==> ref_in_points(ps, d),
        forall|x: Seq<char>|
            #[trigger] noise_in_spline(*ps[i].value->Spline_0, x) ==> noise_in_points(ps, x),
    decreases i,
{
    if i == 0 {
    } else {
        lemma_points_member(ps.drop_first(), i - 1);
        assert(ps.drop_first()[i - 1] == ps[i]);
    }
}

/// Every reference and noise id of the definition of `n` is recorded.
pub open spec fn name_closed(
    registry: StrMap<DensityFunction>,
    n: Seq<char>,
    used: StrSet,
    noises: StrSet,
) -> bool {
    &&& forall|s: Seq<char>| ref_in(registry.get(n), s) ==> used.has(s)
    &&& forall|s: Seq<char>| noise_in(registry.get(n), s) ==> noises.has(s)
}

/// Walks a density function tree from a router root: records every noise
/// id touched, and, at each first encounter of a named reference, records
/// the name and walks its registry definition.  An id already marked is
/// never re-walked, which is also why the walk terminates.
pub fn walk_df(
    df: &DensityFunction,
    registry: &StrMap<DensityFunction>,
    used: &mut StrSet,
    noises: &mut StrSet,
)
    requires
        registry.wf(),
        old(used).wf(),
        old(noises).wf(),
    ensures
        final(used).wf(),
        final(noises).wf(),
        forall|s: Seq<char>| old(used).has(s) ==> final(used).has(s),
        forall|s: Seq<char>| old(noises).has(s) ==> final(noises).has(s),
        forall|s: Seq<char>| #[trigger] ref_in(*df, s) ==> final(used).has(s),
        forall|s: Seq<char>| #[trigger] noise_in(*df, s) ==> final(noises).has(s),
        forall|n: Seq<char>|
            final(used).has(n) && !old(used).has(n) && #[trigger] registry.has_key(n)
                ==> name_closed(*registry, n, *final(used), *final(noises)),
        walk_bounded(*registry, *df, *old(used), *old(noises), *final(used), *final(noises)),
    decreases count_missing(registry.key_seq(), *old(used)), *df, 0int,
{
    proof {
        lemma_count_missing_nonneg(registry.key_seq(), *used);
    }
    match df {
        DensityFunction::Constant(_) => {
            proof {
                lemma_bounded_refl(*registry, *df, *used, *noises);
            }
        },
        DensityFunction::BlendAlpha(_) => {
            proof {
                lemma_bounded_refl(*registry, *df, *used, *noises);
            }
        },
        DensityFunction::BlendOffset(_) => {
            proof {
                lemma_bounded_refl(*registry, *df, *used, *noises);
            }
        },
        DensityFunction::EndIslands => {
            proof {
                lemma_bounded_refl(*registry, *df, *used, *noises);
            }
        },
        DensityFunction::YClampedGradient(_) => {
            proof {
                lemma_bounded_refl(*registry, *df, *used, *noises);
            }
        },
        DensityFunction::Noise(n) => {
            noises.insert(n.noise_id.clone());
            proof {
                assert(forall|s: Seq<char>| noise_in(*df, s) == (n.noise_id@ == s));
                assert forall|x: Seq<char>|
                    #[trigger] noises.has(x) implies old(noises).has(x) || noise_in(*df, x) by {
                    if !old(noises).has(x) {
                        assert(noise_in(*df, x));
                    }
                }
                lemma_bounded_add_own(*registry, *df, *old(used), *old(noises), *used, *noises);
            }
        },
        DensityFunction::ShiftA(sh) => {
            noises.insert(sh.noise_id.clone());
            proof {
                assert(forall|s: Seq<char>| noise_in(*df, s) == (sh.noise_id@ == s));
                assert forall|x: Seq<char>|
                    #[trigger] noises.has(x) implies old(noises).has(x) || noise_in(*df, x) by {
                    if !old(noises).has(x) {
                        assert(noise_in(*df, x));
                    }
                }
                lemma_bounded_add_own(*registry, *df, *old(used), *old(noises), *used, *noises);
            }
        },
        DensityFunction::ShiftB(sh) => {
            noises.insert(sh.noise_id.clone());
            proof {
                assert(forall|s: Seq<char>| noise_in(*df, s) == (sh.noise_id@ == s));
                assert forall|x: Seq<char>|
                    #[trigger] noises.has(x) implies old(noises).has(x) || noise_in(*df, x) by {
                    if !old(noises).has(x) {
                        assert(noise_in(*df, x));
                    }
                }
                lemma_bounded_add_own(*registry, *df, *old(used), *old(noises), *used, *noises);
            }
        },
        DensityFunction::Shift(sh) => {
            noises.insert(sh.noise_id.clone());
            proof {
                assert(forall|s: Seq<char>| noise_in(*df, s) == (sh.noise_id@ == s));
                assert forall|x: Seq<char>|
                    #[trigger] noises.has(x) implies old(noises).has(x) || noise_in(*df, x) by {
                    if !old(noises).has(x) {
                        assert(noise_in(*df, x));
                    }
                }
                lemma_bounded_add_own(*registry, *df, *old(used), *old(noises), *used, *noises);
            }
        },
        DensityFunction::BlendedNoise(_) => {
            noises.insert(String::from_str("minecraft:offset"));
            proof {
                assert(forall|s: Seq<char>| noise_in(*df, s) == (s == "minecraft:offset"@));
                assert forall|x: Seq<char>|
                    #[trigger] noises.has(x) implies old(noises).has(x) || noise_in(*df, x) by {
                    if !old(noises).has(x) {
                        assert(noise_in(*df, x));
                    }
                }
                lemma_bounded_add_own(*registry, *df, *old(used), *old(noises), *used, *noises);
            }
        },
        DensityFunction::ShiftedNoise(sn) => {
            walk_step(&sn.shift_x, registry, used, noises, Ghost(*old(used)));
            let ghost u1 = *used;
            let ghost m1 = *noises;
            walk_step(&sn.shift_y, registry, used, noises, Ghost(*old(used)));
            let ghost u2 = *used;
            let ghost m2 = *noises;
            walk_step(&sn.shift_z, registry, used, noises, Ghost(*old(used)));
            let ghost u3 = *used;
            let ghost m3 = *noises;
            noises.insert(sn.noise_id.clone());
            proof {
                assert(forall|s: Seq<char>|
                    ref_in(*df, s) == (ref_in(*sn.shift_x, s) || ref_in(*sn.shift_y, s)
                        || ref_in(*sn.shift_z, s)));
                assert(forall|s: Seq<char>|
                    noise_in(*df, s) == (sn.noise_id@ == s || noise_in(*sn.shift_x, s)
                        || noise_in(*sn.shift_y, s) || noise_in(*sn.shift_z, s)));
                lemma_bounded_step(
                    *registry,
                    *sn.shift_x,
                    *df,
                    *old(used),
                    *old(noises),
                    u1,
                    m1,
                );
                lemma_bounded_step(*registry, *sn.shift_y, *df, u1, m1, u2, m2);
                lemma_bounded_step(*registry, *sn.shift_z, *df, u2, m2, u3, m3);
                assert forall|x: Seq<char>|
                    #[trigger] noises.has(x) implies m3.has(x) || noise_in(*df, x) by {
                    if !m3.has(x) {
                        assert(noise_in(*df, x));
                    }
                }
                lemma_bounded_add_own(*registry, *df, u3, m3, *used, *noises);
                lemma_bounded_trans(*registry, *df, *old(used), *old(noises), u1, m1, u2, m2);
                lemma_bounded_trans(*registry, *df, *old(used), *old(noises), u2, m2, u3, m3);
                lemma_bounded_trans(
                    *registry,
                    *df,
                    *old(used),
                    *old(noises),
                    u3,
                    m3,
                    *used,
                    *noises,
                );
            }
        },
        DensityFunction::TwoArgumentSimple(t) => {
            walk_step(&t.argument1, registry, used, noises, Ghost(*old(used)));
            let ghost u1 = *used;
            let ghost m1 = *noises;
            walk_step(&t.argument2, registry, used, noises, Ghost(*old(used)));
            proof {
                assert(forall|s: Seq<char>|
                    ref_in(*df, s) == (ref_in(*t.argument1, s) || ref_in(*t.argument2, s)));
                assert(forall|s: Seq<char>|
                    noise_in(*df, s) == (noise_in(*t.argument1, s) || noise_in(*t.argument2, s)));
                lemma_bounded_step(
                    *registry,
                    *t.argument1,
                    *df,
                    *old(used),
                    *old(noises),
                    u1,
                    m1,
                );
                lemma_bounded_step(*registry, *t.argument2, *df, u1, m1, *used, *noises);
                lemma_bounded_trans(
                    *registry,
                    *df,
                    *old(used),
                    *old(noises),
                    u1,
                    m1,
                    *used,
                    *noises,
                );
            }
        },
        DensityFunction::Mapped(m) => {
            walk_step(&m.input, registry, used, noises, Ghost(*old(used)));
            proof {
                assert(forall|s: Seq<char>| ref_in(*df, s) == ref_in(*m.input, s));
                assert(forall|s: Seq<char>| noise_in(*df, s) == noise_in(*m.input, s));
                lemma_bounded_step(
                    *registry,
                    *m.input,
                    *df,
                    *old(used),
                    *old(noises),
                    *used,
                    *noises,
                );
            }
        },
        DensityFunction::Clamp(c) => {
            walk_step(&c.input, registry, used, noises, Ghost(*old(used)));
            proof {
                assert(forall|s: Seq<char>| ref_in(*df, s) == ref_in(*c.input, s));
                assert(forall|s: Seq<char>| noise_in(*df, s) == noise_in(*c.input, s));
                lemma_bounded_step(
                    *registry,
                    *c.input,
                    *df,
                    *old(used),
                    *old(noises),
                    *used,
                    *noises,
                );
            }
        },
        DensityFunction::RangeChoice(rc) => {
            walk_step(&rc.input, registry, used, noises, Ghost(*old(used)));
            let ghost u1 = *used;
            let ghost m1 = *noises;
            walk_step(&rc.when_in_range, registry, used, noises, Ghost(*old(used)));
            let ghost u2 = *used;
            let ghost m2 = *noises;
            walk_step(&rc.when_out_of_range, registry, used, noises, Ghost(*old(used)));
            proof {
                assert(forall|s: Seq<char>|
                    ref_in(*df, s) == (ref_in(*rc.input, s) || ref_in(*rc.when_in_range, s)
                        || ref_in(*rc.when_out_of_range, s)));
                assert(forall|s: Seq<char>|
                    noise_in(*df, s) == (noise_in(*rc.input, s) || noise_in(*rc.when_in_range, s)
                        || noise_in(*rc.when_out_of_range, s)));
                lemma_bounded_step(*registry, *rc.input, *df, *old(used), *old(noises), u1, m1);
                lemma_bounded_step(*registry, *rc.when_in_range, *df, u1, m1, u2, m2);
                lemma_bounded_step(*registry, *rc.when_out_of_range, *df, u2, m2, *used, *noises);
                lemma_bounded_trans(*registry, *df, *old(used), *old(noises), u1, m1, u2, m2);
                lemma_bounded_trans(
                    *registry,
                    *df,
                    *old(used),
                    *old(noises),
                    u2,
                    m2,
                    *used,
                    *noises,
                );
            }
        },
        DensityFunction::BlendDensity(bd) => {
            walk_step(&bd.input, registry, used, noises, Ghost(*old(used)));
            proof {
                assert(forall|s: Seq<char>| ref_in(*df, s) == ref_in(*bd.input, s));
                assert(forall|s: Seq<char>| noise_in(*df, s) == noise_in(*bd.input, s));
                lemma_bounded_step(
                    *registry,
                    *bd.input,
                    *df,
                    *old(used),
                    *old(noises),
                    *used,
                    *noises,
                );
            }
        },
        DensityFunction::WeirdScaledSampler(ws) => {
            walk_step(&ws.input, registry, used, noises, Ghost(*old(used)));
            let ghost u1 = *used;
            let ghost m1 = *noises;
            noises.insert(ws.noise_id.clone());
            proof {
                assert(forall|s: Seq<char>| ref_in(*df, s) == ref_in(*ws.input, s));
                assert(forall|s: Seq<char>|
                    noise_in(*df, s) == (ws.noise_id@ == s || noise_in(*ws.input, s)));
                lemma_bounded_step(*registry, *ws.input, *df, *old(used), *old(noises), u1, m1);
                assert forall|x: Seq<char>|
                    #[trigger] noises.has(x) implies m1.has(x) || noise_in(*df, x) by {
                    if !m1.has(x) {
                        assert(noise_in(*df, x));
                    }
                }
                lemma_bounded_add_own(*registry, *df, u1, m1, *used, *noises);
                lemma_bounded_trans(
                    *registry,
                    *df,
                    *old(used),
                    *old(noises),
                    u1,
                    m1,
                    *used,
                    *noises,
                );
            }
        },
        DensityFunction::Marker(m) => {
            walk_step(&m.wrapped, registry, used, noises, Ghost(*old(used)));
            proof {
                assert(forall|s: Seq<char>| ref_in(*df, s) == ref_in(*m.wrapped, s));
                assert(forall|s: Seq<char>| noise_in(*df, s) == noise_in(*m.wrapped, s));
                lemma_bounded_step(
                    *registry,
                    *m.wrapped,
                    *df,
                    *old(used),
                    *old(noises),
                    *used,
                    *noises,
                );
            }
        },
        DensityFunction::Spline(sp) => {
            proof {
                assert(decreases_to!(*df => (*df)->Spline_0));
            }
            walk_spline(&sp.spline, registry, used, noises);
            proof {
                assert(forall|s: Seq<char>| ref_in(*df, s) == ref_in_spline(*sp.spline, s));
                assert(forall|s: Seq<char>| noise_in(*df, s) == noise_in_spline(*sp.spline, s));
                lemma_bounded_spline_wrap(
                    *registry,
                    *sp.spline,
                    *df,
                    *old(used),
                    *old(noises),
                    *used,
                    *noises,
                );
            }
        },
        DensityFunction::Reference(r) => {
            proof {
                assert(forall|s: Seq<char>| ref_in(*df, s) == (r.id@ == s));
                assert(forall|s: Seq<char>| !noise_in(*df, s));
            }
            if !used.contains(r.id.as_str()) {
                used.insert(r.id.clone());
                let ghost u1 = *used;
                let ghost m1 = *noises;
                proof {
                    assert forall|n: Seq<char>|
                        #[trigger] u1.has(n) implies old(used).has(n) || ref_in(*df, n) by {
                        if !old(used).has(n) {
                            assert(ref_in(*df, n));
                        }
                    }
                    lemma_bounded_add_own(
                        *registry,
                        *df,
                        *old(used),
                        *old(noises),
                        u1,
                        m1,
                    );
                }
                match registry.get_ref(r.id.as_str()) {
                    Some(def) => {
                        proof {
                            let ki = registry.lemma_has_key_index(r.id@);
                            lemma_count_missing_strict(
                                registry.key_seq(),
                                *old(used),
                                *used,
                                r.id@,
                            );
                            lemma_count_missing_nonneg(registry.key_seq(), *used);
                        }
                        walk_df(def, registry, used, noises);
                        proof {
                            assert(name_closed(*registry, r.id@, *used, *noises));
                            lemma_bounded_through_def(
                                *registry,
                                *df,
                                r.id@,
                                u1,
                                m1,
                                *used,
                                *noises,
                            );
                            lemma_bounded_trans(
                                *registry,
                                *df,
                                *old(used),
                                *old(noises),
                                u1,
                                m1,
                                *used,
                                *noises,
                            );
                        }
                    },
                    None => {},
                }
            } else {
                proof {
                    lemma_bounded_refl(*registry, *df, *used, *noises);
                }
            }
        },
    }
}

/// Walks one child expression of a node whose walk began with visited
/// set `base`; a step of the walk with its own place in the measure.
fn walk_step(
    child: &DensityFunction,
    registry: &StrMap<DensityFunction>,
    used: &mut StrSet,
    noises: &mut StrSet,
    base: Ghost<StrSet>,
)
    requires
        registry.wf(),
        old(used).wf(),
        old(noises).wf(),
        forall|s: Seq<char>| base@.has(s) ==> old(used).has(s),
    ensures
        final(used).wf(),
        final(noises).wf(),
        forall|s: Seq<char>| old(used).has(s) ==> final(used).has(s),
        forall|s: Seq<char>| old(noises).has(s) ==> final(noises).has(s),
        forall|s: Seq<char>| #[trigger] ref_in(*child, s) ==> final(used).has(s),
        forall|s: Seq<char>| #[trigger] noise_in(*child, s) ==> final(noises).has(s),
        forall|n: Seq<char>|
            final(used).has(n) && !old(used).has(n) && #[trigger] registry.has_key(n)
                ==> name_closed(*registry, n, *final(used), *final(noises)),
        walk_bounded(*registry, *child, *old(used), *old(noises), *final(used), *final(noises)),
    decreases count_missing(registry.key_seq(), base@), *child, 1int,
{
    proof {
        lemma_count_missing_mono(registry.key_seq(), base@, *used);
        lemma_count_missing_nonneg(registry.key_seq(), *used);
    }
    walk_df(child, registry, used, noises);
}

/// Walks a spline's coordinate and every nested spline value.
fn walk_spline(
    cs: &CubicSpline,
    registry: &StrMap<DensityFunction>,
    used: &mut StrSet,
    noises: &mut StrSet,
)
    requires
        registry.wf(),
        old(used).wf(),
        old(noises).wf(),
    ensures
        final(used).wf(),
        final(noises).wf(),
        forall|s: Seq<char>| old(used).has(s) ==> final(used).has(s),
        forall|s: Seq<char>| old(noises).has(s) ==> final(noises).has(s),
        forall|s: Seq<char>| #[trigger] ref_in_spline(*cs, s) ==> final(used).has(s),
        forall|s: Seq<char>| #[trigger] noise_in_spline(*cs, s) ==> final(noises).has(s),
        forall|n: Seq<char>|
            final(used).has(n) && !old(used).has(n) && #[trigger] registry.has_key(n)
                ==> name_closed(*registry, n, *final(used), *final(noises)),
        spline_bounded(*registry, *cs, *old(used), *old(noises), *final(used), *final(noises)),
    decreases count_missing(registry.key_seq(), *old(used)), *cs, 0int,
{
    proof {
        lemma_count_missing_nonneg(registry.key_seq(), *used);
        assert(decreases_to!(*cs => *cs.coordinate));
    }
    walk_step(&cs.coordinate, registry, used, noises, Ghost(*old(used)));
    proof {
        assert forall|d: Seq<char>| #[trigger] ref_in(*cs.coordinate, d) implies ref_in_spline(
            *cs,
            d,
        ) by {}
        assert forall|x: Seq<char>|
            #[trigger] noise_in(*cs.coordinate, x) implies noise_in_spline(*cs, x) by {}
        lemma_spline_bounded_step(
            *registry,
            *cs.coordinate,
            *cs,
            *old(used),
            *old(noises),
            *used,
            *noises,
        );
    }
    let n = cs.points.len();
    proof {
        assert(cs.points@.subrange(0, 0) =~= Seq::<SplinePoint>::empty());
        assert(forall|s: Seq<char>| !ref_in_points(Seq::<SplinePoint>::empty(), s));
        assert(forall|s: Seq<char>| !noise_in_points(Seq::<SplinePoint>::empty(), s));
    }
    let mut i: usize = 0;
    while i < n
        invariant
            registry.wf(),
            used.wf(),
            noises.wf(),
            n == cs.points@.len(),
            i <= n,
            forall|s: Seq<char>| old(used).has(s) ==> used.has(s),
            forall|s: Seq<char>| old(noises).has(s) ==> noises.has(s),
            forall|s: Seq<char>| #[trigger] ref_in(*cs.coordinate, s) ==> used.has(s),
            forall|s: Seq<char>| #[trigger] noise_in(*cs.coordinate, s) ==> noises.has(s),
            forall|s: Seq<char>|
                #[trigger] ref_in_points(cs.points@.subrange(0, i as int), s) ==> used.has(s),
            forall|s: Seq<char>|
                #[trigger] noise_in_points(cs.points@.subrange(0, i as int), s) ==> noises.has(s),
            forall|m: Seq<char>|
                used.has(m) && !old(used).has(m) && #[trigger] registry.has_key(m) ==> name_closed(
                    *registry,
                    m,
                    *used,
                    *noises,
                ),
            spline_bounded(*registry, *cs, *old(used), *old(noises), *used, *noises),
        decreases n - i,
    {
        let ghost used_i = *used;
        let ghost noises_i = *noises;
        match &cs.points[i].value {
            SplineValue::Spline(ns) => {
                proof {
                    lemma_count_missing_mono(
                        registry.key_seq(),
                        *old(used),
                        *used,
                    );
                    lemma_count_missing_nonneg(registry.key_seq(), *used);
                    assert(decreases_to!(cs.points@[i as int] => cs.points@[i as int].value));
                    assert(decreases_to!(*cs => cs.points));
                    assert(decreases_to!(cs.points => cs.points@));
                    assert(decreases_to!(cs.points@ => cs.points@[i as int]));
                }
                walk_spline(ns, registry, used, noises);
                proof {
                    lemma_points_member(cs.points@, i as int);
                    assert forall|d: Seq<char>|
                        #[trigger] ref_in_spline(**ns, d) implies ref_in_spline(*cs, d) by {
                        assert(ref_in_points(cs.points@, d));
                    }
                    assert forall|x: Seq<char>|
                        #[trigger] noise_in_spline(**ns, x) implies noise_in_spline(*cs, x) by {
                        assert(noise_in_points(cs.points@, x));
                    }
                    lemma_spline_bounded_nested(
                        *registry,
                        **ns,
                        *cs,
                        used_i,
                        noises_i,
                        *used,
                        *noises,
                    );
                    lemma_spline_bounded_trans(
                        *registry,
                        *cs,
                        *old(used),
                        *old(noises),
                        used_i,
                        noises_i,
                        *used,
                        *noises,
                    );
                }
            },
            SplineValue::Constant(_) => {},
        }
        proof {
            lemma_points_closed_step(cs.points@, i as int, used_i, noises_i, *used, *noises);
        }
        i = i + 1;
    }
    proof {
        assert(cs.points@.subrange(0, n as int) =~= cs.points@);
        assert(forall|s: Seq<char>|
            ref_in_spline(*cs, s) == (ref_in(*cs.coordinate, s) || ref_in_points(
                cs.points@,
                s,
            )));
        assert(forall|s: Seq<char>|
            noise_in_spline(*cs, s) == (noise_in(*cs.coordinate, s) || noise_in_points(
                cs.points@,
                s,
            )));
    }
}

/// Extends the per-prefix closure facts of the point walk by one point.
proof fn lemma_points_closed_step(
    ps: Seq<SplinePoint>,
    i: int,
    used_i: StrSet,
    noises_i: StrSet,
    used: StrSet,
    noises: StrSet,
)
    requires
        0 <= i < ps.len(),
        forall|s: Seq<char>| used_i.has(s) ==> used.has(s),
        forall|s: Seq<char>| noises_i.has(s) ==> noises.has(s),
        forall|s: Seq<char>| #[trigger] ref_in_points(ps.subrange(0, i), s) ==> used_i.has(s),
        forall|s: Seq<char>| #[trigger] noise_in_points(ps.subrange(0, i), s) ==> noises_i.has(s),
        forall|s: Seq<char>|
            ps[i].value is Spline && #[trigger] ref_in_spline(*ps[i].value->Spline_0, s)
                ==> used.has(s),
        forall|s: Seq<char>|
            ps[i].value is Spline && #[trigger] noise_in_spline(*ps[i].value->Spline_0, s)
                ==> noises.has(s),
    ensures
        forall|s: Seq<char>| #[trigger] ref_in_points(ps.subrange(0, i + 1), s) ==> used.has(s),
        forall|s: Seq<char>|
            #[trigger] noise_in_points(ps.subrange(0, i + 1), s) ==> noises.has(s),
{
    let pre = ps.subrange(0, i);
    let p = ps[i];
    lemma_points_pred_push(pre, p);
    assert(ps.subrange(0, i + 1) =~= pre.push(p));
    assert forall|s: Seq<char>| #[trigger] ref_in_points(ps.subrange(0, i + 1), s) implies used.has(
        s,
    ) by {
        if ref_in_points(pre, s) {
        } else {
            assert(p.value is Spline && ref_in_spline(*p.value->Spline_0, s));
        }
    }
    assert forall|s: Seq<char>|
        #[trigger] noise_in_points(ps.subrange(0, i + 1), s) implies noises.has(s) by {
        if noise_in_points(pre, s) {
        } else {
            assert(p.value is Spline && noise_in_spline(*p.value->Spline_0, s));
        }
    }
}

/// Membership of a reference or noise id in an extended point list comes
/// from the old points or from the appended one.
proof fn lemma_points_pred_push(pre: Seq<SplinePoint>, p: SplinePoint)
    ensures
        forall|s: Seq<char>|
            #[trigger] ref_in_points(pre.push(p), s) <==> ref_in_points(pre, s) || (p.value
                is Spline && ref_in_spline(*p.value->Spline_0, s)),
        forall|s: Seq<char>|
            #[trigger] noise_in_points(pre.push(p), s) <==> noise_in_points(pre, s) || (p.value
                is Spline && noise_in_spline(*p.value->Spline_0, s)),
    decreases pre.len(),
{
    if pre.len() == 0 {
        assert forall|s: Seq<char>|
            #[trigger] ref_in_points(pre.push(p), s) <==> ref_in_points(pre, s) || (p.value
                is Spline && ref_in_spline(*p.value->Spline_0, s)) by {
            assert(pre.push(p)[0] == p);
            assert(pre.push(p).drop_first() =~= Seq::<SplinePoint>::empty());
            assert(!ref_in_points(Seq::<SplinePoint>::empty(), s));
            assert(!ref_in_points(pre, s));
        }
        assert forall|s: Seq<char>|
            #[trigger] noise_in_points(pre.push(p), s) <==> noise_in_points(pre, s) || (p.value
                is Spline && noise_in_spline(*p.value->Spline_0, s)) by {
            assert(pre.push(p)[0] == p);
            assert(pre.push(p).drop_first() =~= Seq::<SplinePoint>::empty());
            assert(!noise_in_points(Seq::<SplinePoint>::empty(), s));
            assert(!noise_in_points(pre, s));
        }
    } else {
        lemma_points_pred_push(pre.drop_first(), p);
        assert(pre.push(p).drop_first() =~= pre.drop_first().push(p));
        assert forall|s: Seq<char>|
            #[trigger] ref_in_points(pre.push(p), s) <==> ref_in_points(pre, s) || (p.value
                is Spline && ref_in_spline(*p.value->Spline_0, s)) by {
            assert(pre.push(p)[0] == pre[0]);
            assert(ref_in_points(pre.push(p), s) <==> (match pre[0].value {
                SplineValue::Spline(ns) => ref_in_spline(*ns, s),
                SplineValue::Constant(_) => false,
            }) || ref_in_points(pre.drop_first().push(p), s));
        }
        assert forall|s: Seq<char>|
            #[trigger] noise_in_points(pre.push(p), s) <==> noise_in_points(pre, s) || (p.value
                is Spline && noise_in_spline(*p.value->Spline_0, s)) by {
            assert(pre.push(p)[0] == pre[0]);
            assert(noise_in_points(pre.push(p), s) <==> (match pre[0].value {
                SplineValue::Spline(ns) => noise_in_spline(*ns, s),
                SplineValue::Constant(_) => false,
            }) || noise_in_points(pre.drop_first().push(p), s));
        }
    }
}

/// One non-using point extends a non-using prefix.
proof fn lemma_points_use_y_split(ps: Seq<SplinePoint>, i: int)
    requires
        0 <= i < ps.len(),
        !spec_points_use_y(ps.subrange(0, i)),
        !(match ps[i].value {
            SplineValue::Spline(ns) => spec_uses_y_spline(*ns),
            SplineValue::Constant(_) => false,
        }),
    ensures
        !spec_points_use_y(ps.subrange(0, i + 1)),
    decreases i,
{
    let pre = ps.subrange(0, i);
    let cur = ps.subrange(0, i + 1);
    if i == 0 {
        assert(cur[0] == ps[0]);
        assert(cur.drop_first() =~= Seq::<SplinePoint>::empty());
        assert(!spec_points_use_y(Seq::<SplinePoint>::empty()));
        assert(!spec_points_use_y(cur));
    } else {
        assert(cur[0] == ps[0]);
        assert(pre[0] == ps[0]);
        let tail = ps.subrange(1, ps.len() as int);
        assert(cur.drop_first() =~= tail.subrange(0, i));
        assert(pre.drop_first() =~= tail.subrange(0, i - 1));
        assert(tail[i - 1] == ps[i]);
        assert(!spec_points_use_y(pre.drop_first()));
        lemma_points_use_y_split(tail, i - 1);
        assert(!spec_points_use_y(cur.drop_first()));
        assert(!spec_points_use_y(cur));
    }
}


/// Everything the code generator needs about one dimension's graph: the
/// noise ids it samples, the named functions it reaches, which of those
/// are flat, which router entries are flat, and a topological order.
pub struct Analysis {
    /// Every noise id sampled anywhere in the reachable graph.
    pub noise_ids: StrSet,
    /// Every named function reachable from the router entry points.
    pub used_names: StrSet,
    /// The used named functions inferred flat.
    pub flat_cached: StrSet,
    /// The router entries whose results are column-cached.
    pub flat_routers: StrSet,
    /// The used names, dependencies before dependents.
    pub topo_order: Vec<String>,
}

/// Analyzes one dimension's graph: walks every router entry point,
/// infers flatness to a fixpoint, classifies router entries, and orders
/// the used names topologically.
/// Everything [`analyze`] promises of a successful result: the lower
/// and upper reachability bounds that pin the used names and noise ids
/// exactly, closure of every used definition, the flatness fixpoint,
/// the router classification, and the topological order.
pub open spec fn analysis_valid(
    registry: StrMap<DensityFunction>,
    router_entries: StrMap<DensityFunction>,
    a: Analysis,
) -> bool {

            &&& a.noise_ids.wf() && a.used_names.wf() && a.flat_cached.wf()
                && a.flat_routers.wf()
            &&& forall|k: Seq<char>, s: Seq<char>|
                router_entries.has_key(k) && #[trigger] ref_in(router_entries.get(k), s)
                    ==> a.used_names.has(s)
            &&& forall|k: Seq<char>, s: Seq<char>|
                router_entries.has_key(k) && #[trigger] noise_in(router_entries.get(k), s)
                    ==> a.noise_ids.has(s)
            &&& forall|s: Set<Seq<char>>, t: Set<Seq<char>>|
                #[trigger] analysis_cover(registry, router_entries, s, t) ==> (forall|
                    n: Seq<char>,
                |
                    a.used_names.has(n) ==> s.contains(n)) && (forall|x: Seq<char>|
                    a.noise_ids.has(x) ==> t.contains(x))
            &&& forall|n: Seq<char>|
                #[trigger] a.used_names.has(n) && registry.has_key(n) ==> name_closed(
                    registry,
                    n,
                    a.used_names,
                    a.noise_ids,
                )
            &&& forall|n: Seq<char>|
                #[trigger] a.flat_cached.has(n) ==> a.used_names.has(n) && registry.has_key(n)
            &&& forall|n: Seq<char>|
                #[trigger] a.used_names.has(n) ==> (a.flat_cached.has(n) <==> flat_rule(
                    registry,
                    n,
                    a.flat_cached,
                ))
            &&& forall|k: Seq<char>| #[trigger] a.flat_routers.has(k) ==> router_entries.has_key(k)
            &&& forall|k: Seq<char>|
                #[trigger] router_entries.has_key(k) ==> (a.flat_routers.has(k)
                    <==> spec_router_flat(router_entries.get(k), a.flat_cached))
            &&& forall|n: Seq<char>| #[trigger] strs_contain(a.topo_order@, n)
                <==> a.used_names.has(n)
            &&& forall|i: int, j: int|
                0 <= i < j < a.topo_order@.len() ==> a.topo_order@[i]@ != a.topo_order@[j]@
            &&& forall|k: int, d: Seq<char>|
                0 <= k < a.topo_order@.len() && #[trigger] dep_of(registry, a.topo_order@[k]@, d)
                    && a.used_names.has(d) ==> exists|j: int|
                    0 <= j < k && a.topo_order@[j]@ == d
            &&& !has_used_ref_cycle(registry, a.used_names)
        
}

/// An over-approximation certificate at the dimension level: a pair of
/// sets that covers every router entry's own reference and noise ids
/// and is closed under registry definitions.  The analysis records
/// nothing outside any such pair; with its lower bounds — every router
/// id recorded and every used name closed — the used names and noise
/// ids are pinned as the least such pair: exactly what the routers
/// reach, and nothing else.
pub open spec fn analysis_cover(
    registry: StrMap<DensityFunction>,
    routers: StrMap<DensityFunction>,
    s: Set<Seq<char>>,
    t: Set<Seq<char>>,
) -> bool {
    &&& forall|k: Seq<char>, d: Seq<char>|
        routers.has_key(k) && #[trigger] ref_in(routers.get(k), d) ==> s.contains(d)
    &&& forall|k: Seq<char>, x: Seq<char>|
        routers.has_key(k) && #[trigger] noise_in(routers.get(k), x) ==> t.contains(x)
    &&& forall|n: Seq<char>, d: Seq<char>|
        s.contains(n) && registry.has_key(n) && #[trigger] ref_in(registry.get(n), d)
            ==> s.contains(d)
    &&& forall|n: Seq<char>, x: Seq<char>|
        s.contains(n) && registry.has_key(n) && #[trigger] noise_in(registry.get(n), x)
            ==> t.contains(x)
}

pub fn analyze(registry: &StrMap<DensityFunction>, router_entries: &StrMap<DensityFunction>) -> (r:
    Result<Analysis, CycleError>)
    requires
        registry.wf(),
        router_entries.wf(),
    ensures
        r is Err ==> has_ref_cycle(*registry),
        r matches Ok(a) ==> analysis_valid(*registry, *router_entries, a),
    {
    let mut used = StrSet::new();
    let mut noises = StrSet::new();
    let rn = router_entries.len();
    let mut i: usize = 0;
    while i < rn
        invariant
            registry.wf(),
            router_entries.wf(),
            used.wf(),
            noises.wf(),
            rn == router_entries.key_seq().len(),
            i <= rn,
            forall|j: int, s: Seq<char>|
                0 <= j < i && #[trigger] ref_in(
                    router_entries.val_seq()[j],
                    s,
                ) ==> used.has(s),
            forall|j: int, s: Seq<char>|
                0 <= j < i && #[trigger] noise_in(
                    router_entries.val_seq()[j],
                    s,
                ) ==> noises.has(s),
            forall|n: Seq<char>|
                #[trigger] used.has(n) && registry.has_key(n) ==> name_closed(
                    *registry,
                    n,
                    used,
                    noises,
                ),
            forall|s: Set<Seq<char>>, t: Set<Seq<char>>|
                #[trigger] analysis_cover(*registry, *router_entries, s, t) ==> (forall|
                    n: Seq<char>,
                |
                    used.has(n) ==> s.contains(n)) && (forall|x: Seq<char>|
                    noises.has(x) ==> t.contains(x)),
        decreases rn - i,
    {
        let df = router_entries.val_at(i);
        let ghost used_pre = used;
        let ghost noises_pre = noises;
        walk_df(df, registry, &mut used, &mut noises);
        proof {
            router_entries.lemma_key_index_has(i as int);
            router_entries.lemma_index_at(i as int);
            assert forall|s: Set<Seq<char>>, t: Set<Seq<char>>|
                #[trigger] analysis_cover(*registry, *router_entries, s, t) implies (forall|
                n: Seq<char>,
            |
                used.has(n) ==> s.contains(n)) && (forall|x: Seq<char>|
                noises.has(x) ==> t.contains(x)) by {
                assert(walk_cover(*registry, used_pre, noises_pre, s, t));
                assert forall|d: Seq<char>| #[trigger] ref_in(*df, d) implies s.contains(d) by {
                    assert(ref_in(
                        router_entries.get(router_entries.key_seq()[i as int]),
                        d,
                    ));
                }
                assert forall|x: Seq<char>| #[trigger] noise_in(*df, x) implies t.contains(x) by {
                    assert(noise_in(
                        router_entries.get(router_entries.key_seq()[i as int]),
                        x,
                    ));
                }
                assert(df_head(*df, s, t));
            }
            assert forall|n: Seq<char>|
                #[trigger] used.has(n) && registry.has_key(n) implies name_closed(
                *registry,
                n,
                used,
                noises,
            ) by {
                if used_pre.has(n) {
                    assert(name_closed(*registry, n, used_pre, noises_pre));
                    assert forall|s: Seq<char>| ref_in(registry.get(n), s) implies used.has(s) by {
                        assert(used_pre.has(s));
                    }
                    assert forall|s: Seq<char>|
                        noise_in(registry.get(n), s) implies noises.has(s) by {
                        assert(noises_pre.has(s));
                    }
                }
            }
        }
        i = i + 1;
    }
    let flat_cached = infer_flatness(registry, &used);
    let mut flat_routers = StrSet::new();
    let mut i: usize = 0;
    while i < rn
        invariant
            registry.wf(),
            router_entries.wf(),
            flat_cached.wf(),
            flat_routers.wf(),
            rn == router_entries.key_seq().len(),
            i <= rn,
            forall|k: Seq<char>|
                #[trigger] flat_routers.has(k) ==> exists|j: int|
                    0 <= j < i && router_entries.key_seq()[j] == k,
            forall|j: int|
                0 <= j < i ==> (flat_routers.has(#[trigger] router_entries.key_seq()[j])
                    <==> spec_router_flat(router_entries.val_seq()[j], flat_cached)),
        decreases rn - i,
    {
        let name = router_entries.key_at(i);
        let df = router_entries.val_at(i);
        let ghost fr_pre = flat_routers;
        if router_is_flat(df, &flat_cached) {
            flat_routers.insert(name.clone());
        }
        proof {
            router_entries.lemma_index_at(i as int);
            assert forall|j: int|
                0 <= j < i + 1 implies (flat_routers.has(
                #[trigger] router_entries.key_seq()[j],
            ) <==> spec_router_flat(router_entries.val_seq()[j], flat_cached)) by {
                let kj = router_entries.key_seq()[j];
                let ki = router_entries.key_seq()[i as int];
                if j < i {
                    if flat_routers.has(kj) && !fr_pre.has(kj) {
                        assert(kj == ki);
                        lemma_seq_lt_trichotomy(kj, ki);
                    }
                } else {
                    if fr_pre.has(ki) {
                        let p = choose|p: int|
                            0 <= p < i && router_entries.key_seq()[p] == ki;
                        lemma_seq_lt_trichotomy(router_entries.key_seq()[p], ki);
                    }
                }
            }
        }
        i = i + 1;
    }
    let topo_order = match topological_sort(registry, &used) {
        Ok(o) => o,
        Err(e) => {
            proof {
                lemma_used_cycle_is_cycle(*registry, used);
            }
            return Err(e);
        },
    };
    proof {
        assert forall|k: Seq<char>, s: Seq<char>|
            router_entries.has_key(k) && #[trigger] ref_in(
                router_entries.get(k),
                s,
            ) implies used.has(s) by {
            let j = router_entries.lemma_has_key_index(k);
            router_entries.lemma_index_at(j);
        }
        assert forall|k: Seq<char>, s: Seq<char>|
            router_entries.has_key(k) && #[trigger] noise_in(
                router_entries.get(k),
                s,
            ) implies noises.has(s) by {
            let j = router_entries.lemma_has_key_index(k);
            router_entries.lemma_index_at(j);
        }
        assert forall|k: Seq<char>| #[trigger] flat_routers.has(k) implies router_entries.has_key(
            k,
        ) by {
            let j = choose|j: int| 0 <= j < rn && router_entries.key_seq()[j] == k;
            router_entries.lemma_key_index_has(j);
        }
        assert forall|k: Seq<char>| #[trigger] router_entries.has_key(k) implies (flat_routers.has(
            k,
        ) <==> spec_router_flat(router_entries.get(k), flat_cached)) by {
            let j = router_entries.lemma_has_key_index(k);
            router_entries.lemma_index_at(j);
        }
    }
    Ok(
        Analysis {
            noise_ids: noises,
            used_names: used,
            flat_cached,
            flat_routers,
            topo_order,
        },
    )
}

} // verus!
