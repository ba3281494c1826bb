//! The build-time pipeline on small concrete graphs: lowering, analysis,
//! topological ordering and code generation.

use steel_worldgen::analyze::{analyze, topological_sort};
use steel_worldgen::codegen::{gen_biome_entries, gen_expr, transpile, TranspilerInput};
use steel_worldgen::density::DensityFunction;
use steel_worldgen::json::JsonValue;
use steel_worldgen::lower::{json_to_df, router_to_entries};
use steel_worldgen::strkey::{StrMap, StrSet};
use steel_worldgen::text::{capitalize, path_to_id, sanitize_name, u64_to_string};

fn obj(fields: Vec<(&str, JsonValue)>) -> JsonValue {
    JsonValue::Obj(fields.into_iter().map(|(k, v)| (k.to_string(), v)).collect())
}

fn num(t: &str) -> JsonValue {
    JsonValue::Num(t.to_string())
}

fn st(t: &str) -> JsonValue {
    JsonValue::Str(t.to_string())
}

fn tagged(tag: &str, rest: Vec<(&str, JsonValue)>) -> JsonValue {
    let mut fields = vec![("type", st(tag))];
    fields.extend(rest);
    obj(fields)
}

#[test]
fn sanitize_name_strips_namespace_and_separators() {
    assert_eq!(sanitize_name("minecraft:overworld/continents"), "overworld__continents");
    assert_eq!(sanitize_name("mymod:custom/noise"), "custom__noise");
    assert_eq!(sanitize_name("offset"), "offset");
    assert_eq!(sanitize_name("minecraft:erosion-large"), "erosion_large");
}

#[test]
fn capitalize_first_ascii_letter() {
    assert_eq!(capitalize("overworld"), "Overworld");
    assert_eq!(capitalize("nether"), "Nether");
    assert_eq!(capitalize(""), "");
    assert_eq!(capitalize("X"), "X");
}

#[test]
fn path_to_id_builds_registry_ids() {
    let base = "data/minecraft/worldgen/density_function";
    let p = "data/minecraft/worldgen/density_function/overworld/continents.json";
    assert_eq!(path_to_id(p, base), "minecraft:overworld/continents");
    let q = "data/minecraft/worldgen/density_function/plain";
    assert_eq!(path_to_id(q, base), "minecraft:plain");
}

#[test]
fn decimal_numerals() {
    assert_eq!(u64_to_string(0), "0");
    assert_eq!(u64_to_string(42), "42");
    assert_eq!(u64_to_string(10009), "10009");
}

#[test]
fn lower_bare_number_and_string() {
    let c = json_to_df(&num("2.5")).unwrap();
    assert!(matches!(c, DensityFunction::Constant(ref k) if k.value == "2.5"));
    let r = json_to_df(&st("minecraft:overworld/continents")).unwrap();
    assert!(
        matches!(r, DensityFunction::Reference(ref rr) if rr.id == "minecraft:overworld/continents")
    );
}

#[test]
fn lower_constant_argument_alias() {
    let v = tagged("minecraft:constant", vec![("argument", num("0.125"))]);
    let df = json_to_df(&v).unwrap();
    assert!(matches!(df, DensityFunction::Constant(ref k) if k.value == "0.125"));
}

#[test]
fn lower_add_and_abs() {
    let v = tagged(
        "minecraft:add",
        vec![("argument1", num("1")), ("argument2", st("minecraft:a"))],
    );
    let df = json_to_df(&v).unwrap();
    match df {
        DensityFunction::TwoArgumentSimple(t) => {
            assert!(matches!(*t.argument1, DensityFunction::Constant(_)));
            assert!(matches!(*t.argument2, DensityFunction::Reference(_)));
        }
        _ => panic!("expected a two-argument node"),
    }
    let a = tagged("minecraft:abs", vec![("argument", num("-3"))]);
    assert!(matches!(json_to_df(&a).unwrap(), DensityFunction::Mapped(_)));
}

#[test]
fn lower_unknown_type_fails() {
    let v = tagged("minecraft:not_a_density_function", vec![]);
    assert!(json_to_df(&v).is_err());
    assert!(json_to_df(&JsonValue::Null).is_err());
    let missing = obj(vec![("value", num("1"))]);
    assert!(json_to_df(&missing).is_err());
}

#[test]
fn lower_beardifier_is_constant_zero() {
    let v = tagged("minecraft:beardifier", vec![]);
    let df = json_to_df(&v).unwrap();
    assert!(matches!(df, DensityFunction::Constant(ref k) if k.value == "0.0"));
}

#[test]
fn lower_spline_multipoint() {
    let point = obj(vec![
        ("location", num("0.1")),
        ("value", num("0.5")),
        ("derivative", num("0.0")),
    ]);
    let spline = obj(vec![
        ("coordinate", st("minecraft:overworld/continents")),
        ("points", JsonValue::Arr(vec![point])),
    ]);
    let v = tagged("minecraft:spline", vec![("spline", spline)]);
    let df = json_to_df(&v).unwrap();
    match df {
        DensityFunction::Spline(s) => {
            assert_eq!(s.spline.points.len(), 1);
            assert_eq!(s.spline.points[0].location, "0.1");
        }
        _ => panic!("expected a spline node"),
    }
}

#[test]
fn analyze_small_graph() {
    let mut registry: StrMap<DensityFunction> = StrMap::new();
    let flat_noise = tagged(
        "minecraft:flat_cache",
        vec![(
            "argument",
            tagged(
                "minecraft:noise",
                vec![("noise", st("minecraft:continentalness")), ("xz_scale", num("1")), ("y_scale", num("0"))],
            ),
        )],
    );
    registry.insert(
        "minecraft:overworld/continents".to_string(),
        json_to_df(&flat_noise).unwrap(),
    );
    let mut routers: StrMap<DensityFunction> = StrMap::new();
    routers.insert(
        "temperature".to_string(),
        json_to_df(&st("minecraft:overworld/continents")).unwrap(),
    );
    let a = analyze(&registry, &routers).unwrap();
    assert!(a.used_names.contains("minecraft:overworld/continents"));
    assert_eq!(a.used_names.len(), 1);
    assert!(a.noise_ids.contains("minecraft:continentalness"));
    assert!(a.flat_cached.contains("minecraft:overworld/continents"));
    assert!(a.flat_routers.contains("temperature"));
    assert_eq!(a.topo_order.len(), 1);
    assert_eq!(a.topo_order[0], "minecraft:overworld/continents");
}

#[test]
fn analyze_infers_flatness_through_references() {
    // b references a; a is y-independent but unmarked; both become flat.
    let mut registry: StrMap<DensityFunction> = StrMap::new();
    let a_def = tagged(
        "minecraft:noise",
        vec![("noise", st("minecraft:offset")), ("xz_scale", num("0.25")), ("y_scale", num("0.0"))],
    );
    registry.insert("minecraft:a".to_string(), json_to_df(&a_def).unwrap());
    let b_def = tagged(
        "minecraft:abs",
        vec![("argument", st("minecraft:a"))],
    );
    registry.insert("minecraft:b".to_string(), json_to_df(&b_def).unwrap());
    let mut routers: StrMap<DensityFunction> = StrMap::new();
    routers.insert("depth".to_string(), json_to_df(&st("minecraft:b")).unwrap());
    let a = analyze(&registry, &routers).unwrap();
    assert!(a.flat_cached.contains("minecraft:a"));
    assert!(a.flat_cached.contains("minecraft:b"));
    assert!(a.flat_routers.contains("depth"));
    // dependencies come before dependents
    assert_eq!(a.topo_order[0], "minecraft:a");
    assert_eq!(a.topo_order[1], "minecraft:b");
}

#[test]
fn analyze_y_use_blocks_flatness() {
    let mut registry: StrMap<DensityFunction> = StrMap::new();
    let grad = tagged(
        "minecraft:y_clamped_gradient",
        vec![("from_y", num("-64")), ("to_y", num("320")), ("from_value", num("1")), ("to_value", num("0"))],
    );
    registry.insert("minecraft:g".to_string(), json_to_df(&grad).unwrap());
    let mut routers: StrMap<DensityFunction> = StrMap::new();
    routers.insert("depth".to_string(), json_to_df(&st("minecraft:g")).unwrap());
    let a = analyze(&registry, &routers).unwrap();
    assert!(!a.flat_cached.contains("minecraft:g"));
    assert!(!a.flat_routers.contains("depth"));
}

#[test]
fn topological_sort_rejects_cycles() {
    let mut registry: StrMap<DensityFunction> = StrMap::new();
    registry.insert(
        "minecraft:x".to_string(),
        json_to_df(&st("minecraft:y")).unwrap(),
    );
    registry.insert(
        "minecraft:y".to_string(),
        json_to_df(&st("minecraft:x")).unwrap(),
    );
    let mut used = StrSet::new();
    used.insert("minecraft:x".to_string());
    used.insert("minecraft:y".to_string());
    assert!(topological_sort(&registry, &used).is_err());
}

#[test]
fn gen_expr_constant_and_shift() {
    let flat = StrSet::new();
    let c = json_to_df(&num("2.5")).unwrap();
    assert_eq!(gen_expr(&c, false, &flat), "(2.5_f64)");
    let sa = tagged("minecraft:shift_a", vec![("argument", st("minecraft:offset"))]);
    let df = json_to_df(&sa).unwrap();
    assert_eq!(
        gen_expr(&df, false, &flat),
        "noises.n_offset.get_value(f64::from(x) * 0.25, 0.0, f64::from(z) * 0.25) * 4.0"
    );
}

#[test]
fn gen_expr_squeeze_matches_reference_formula() {
    let flat = StrSet::new();
    let v = tagged("minecraft:squeeze", vec![("argument", num("0.5"))]);
    let df = json_to_df(&v).unwrap();
    assert_eq!(
        gen_expr(&df, false, &flat),
        "{ let c = clamp((0.5_f64), -1.0, 1.0); c / 2.0 - c * c * c / 24.0 }"
    );
}

#[test]
fn transpile_emits_cache_and_router() {
    let mut registry: StrMap<DensityFunction> = StrMap::new();
    let flat_noise = tagged(
        "minecraft:flat_cache",
        vec![(
            "argument",
            tagged(
                "minecraft:noise",
                vec![("noise", st("minecraft:continentalness")), ("xz_scale", num("1")), ("y_scale", num("0"))],
            ),
        )],
    );
    registry.insert(
        "minecraft:overworld/continents".to_string(),
        json_to_df(&flat_noise).unwrap(),
    );
    let mut routers: StrMap<DensityFunction> = StrMap::new();
    routers.insert(
        "continentalness".to_string(),
        json_to_df(&st("minecraft:overworld/continents")).unwrap(),
    );
    let input = TranspilerInput {
        registry,
        router_entries: routers,
        prefix: "Overworld".to_string(),
    };
    let code = transpile(&input).unwrap();
    assert!(code.contains("pub struct OverworldNoises"));
    assert!(code.contains("pub n_continentalness: NormalNoise"));
    assert!(code.contains("pub struct OverworldColumnCache"));
    assert!(code.contains("pub df_overworld__continents: f64"));
    assert!(code.contains("fn compute_overworld__continents(noises: &OverworldNoises, cache: &OverworldColumnCache, x: i32, z: i32) -> f64"));
    assert!(code.contains("pub fn router_continentalness"));
    assert!(code.contains("if self.valid && self.x == x && self.z == z { return; }"));
}

#[test]
fn router_entries_renames_continents() {
    fn router_fields() -> Vec<(String, JsonValue)> {
        let names = [
            "barrier",
            "fluid_level_floodedness",
            "fluid_level_spread",
            "lava",
            "temperature",
            "vegetation",
            "continents",
            "erosion",
            "depth",
            "ridges",
            "final_density",
            "vein_toggle",
            "vein_ridged",
            "vein_gap",
        ];
        names.iter().map(|n| (n.to_string(), num("0"))).collect()
    }
    let fields = router_fields();
    let entries = router_to_entries(&fields).unwrap();
    assert!(entries.contains_key("continentalness"));
    assert!(!entries.contains_key("continents"));
    assert!(entries.contains_key("temperature"));
    assert!(entries.contains_key("final_density"));
    assert!(!entries.contains_key("preliminary_surface_level"));

    // a missing required entry is a build error
    let mut short = router_fields();
    short.retain(|(k, _)| k != "temperature");
    assert!(router_to_entries(&short).is_err());
}

#[test]
fn obj_lookup_first_field_wins() {
    let v = obj(vec![("k", num("1")), ("k", num("2"))]);
    let JsonValue::Obj(fields) = &v else { panic!() };
    match steel_worldgen::json::obj_get(fields, "k") {
        Some(JsonValue::Num(t)) => assert_eq!(t, "1"),
        _ => panic!("expected the first field"),
    }
}

#[test]
fn gen_expr_spline_emits_search_block() {
    let flat = StrSet::new();
    let point = obj(vec![
        ("location", num("0.1")),
        ("value", num("0.5")),
        ("derivative", num("0.0")),
    ]);
    let spline = obj(vec![
        ("coordinate", st("minecraft:overworld/continents")),
        ("points", JsonValue::Arr(vec![point])),
    ]);
    let v = tagged("minecraft:spline", vec![("spline", spline)]);
    let df = json_to_df(&v).unwrap();
    let mut expected = String::new();
    expected.push_str("{ let locations: [f32; 1] = [(0.1_f32), ]; ");
    expected.push_str("let derivatives: [f32; 1] = [(0.0_f32), ]; ");
    expected.push_str("let coord = (compute_overworld__continents(noises, cache, x, y, z)) as f32; ");
    expected.push_str("f64::from(spline_eval::evaluate_spline(&locations, &derivatives, coord, ");
    expected.push_str("|i: usize| { match i { 0usize => (0.5_f32), _ => 0.0_f32 } })) }");
    assert_eq!(gen_expr(&df, false, &flat), expected);
}

#[test]
fn resolve_splices_registry_definitions() {
    let mut registry: StrMap<DensityFunction> = StrMap::new();
    registry.insert("minecraft:a".to_string(), json_to_df(&num("1.5")).unwrap());
    let df = json_to_df(&st("minecraft:a")).unwrap();
    let resolved = df.resolve(&registry);
    match resolved {
        DensityFunction::Reference(r) => {
            assert_eq!(r.id, "minecraft:a");
            match r.resolved.as_deref() {
                Some(DensityFunction::Constant(c)) => assert_eq!(c.value, "1.5"),
                _ => panic!("expected the spliced constant"),
            }
        }
        _ => panic!("expected a reference"),
    }
    // an id the registry lacks stays unresolved
    let missing = json_to_df(&st("minecraft:absent")).unwrap().resolve(&registry);
    assert!(matches!(missing, DensityFunction::Reference(ref r) if r.resolved.is_none()));
}

#[test]
fn resolve_leaves_cycles_unresolved() {
    let mut registry: StrMap<DensityFunction> = StrMap::new();
    registry.insert("minecraft:x".to_string(), json_to_df(&st("minecraft:y")).unwrap());
    registry.insert("minecraft:y".to_string(), json_to_df(&st("minecraft:x")).unwrap());
    let mut df = json_to_df(&st("minecraft:x")).unwrap().resolve(&registry);
    // the chain bottoms out in an unresolved reference instead of looping
    let mut depth = 0;
    loop {
        match df {
            DensityFunction::Reference(r) => match r.resolved {
                Some(inner) => {
                    df = *inner;
                    depth += 1;
                }
                None => break,
            },
            _ => panic!("expected a reference chain"),
        }
    }
    assert!(depth >= 1);
}

#[test]
fn biome_entries_text_is_exact() {
    let p = steel_worldgen::climate::Parameter::new;
    let pp = steel_worldgen::climate::ParameterPoint::new(
        p(-4500, 5500),
        p(0, 1),
        p(-10, 10),
        p(2, 3),
        p(0, 0),
        p(-1, 1),
        7,
    );
    let entries = vec![("minecraft:plains".to_string(), pp)];
    let mut expected = String::new();
    expected.push_str("(ParameterPoint::new(Parameter::new(-4500, 5500), Parameter::new(0, 1), ");
    expected.push_str("Parameter::new(-10, 10), Parameter::new(2, 3), Parameter::new(0, 0), ");
    expected.push_str("Parameter::new(-1, 1), 7), &*vanilla_biomes::PLAINS), ");
    assert_eq!(gen_biome_entries(&entries), expected);
}

#[test]
fn biome_ident_upper_cases_path() {
    assert_eq!(steel_worldgen::text::biome_ident("minecraft:plains"), "PLAINS");
    assert_eq!(steel_worldgen::text::biome_ident("minecraft:windswept_hills"), "WINDSWEPT_HILLS");
    assert_eq!(steel_worldgen::text::i64_to_string(-64), "-64");
    assert_eq!(steel_worldgen::text::i64_to_string(0), "0");
    assert_eq!(steel_worldgen::text::i64_to_string(10000), "10000");
}
