//! Biome parameter lists and End-dimension decisions on concrete values.

use steel_worldgen::climate::{Parameter, ParameterList, ParameterPoint, TargetPoint};
use steel_worldgen::end_biome::{
    classify_end_erosion, end_biome_decision, island_contributes, EndBiome, EndDecision,
};

fn point(lo: i64, hi: i64, offset: i64) -> ParameterPoint {
    ParameterPoint::new(
        Parameter::new(lo, hi),
        Parameter::new(lo, hi),
        Parameter::new(lo, hi),
        Parameter::new(lo, hi),
        Parameter::new(lo, hi),
        Parameter::new(lo, hi),
        offset,
    )
}

fn target(v: i64) -> TargetPoint {
    TargetPoint::new(v, v, v, v, v, v)
}

#[test]
fn find_value_picks_nearest_entry() {
    let list = ParameterList::new(vec![
        (point(-10000, -5000, 0), 1u32),
        (point(-4000, 4000, 0), 2u32),
        (point(5000, 10000, 0), 3u32),
    ]);
    assert_eq!(*list.find_value(&target(0)), 2);
    assert_eq!(*list.find_value(&target(-7000)), 1);
    assert_eq!(*list.find_value(&target(9000)), 3);
    assert_eq!(*list.find_value(&target(4400)), 2);
    assert_eq!(*list.find_value(&target(4600)), 3);
}

#[test]
fn find_value_tie_goes_to_first_entry() {
    let list = ParameterList::new(vec![
        (point(0, 100, 0), 7u32),
        (point(0, 100, 0), 8u32),
    ]);
    assert_eq!(*list.find_value(&target(50)), 7);
    assert_eq!(*list.find_value(&target(150)), 7);
}

#[test]
fn find_value_offset_penalises_entry() {
    let list = ParameterList::new(vec![
        (point(0, 100, 30), 1u32),
        (point(0, 100, 0), 2u32),
    ]);
    assert_eq!(*list.find_value(&target(50)), 2);
}

#[test]
fn find_value_cached_agrees_for_every_cache_state() {
    let list = ParameterList::new(vec![
        (point(-10000, -5000, 0), 1u32),
        (point(-4000, 4000, 0), 2u32),
        (point(5000, 10000, 0), 3u32),
    ]);
    let probes = [-7000i64, 0, 9000, 4400, 4600];
    for v in probes {
        let plain = *list.find_value(&target(v));
        for state in [None, Some(0usize), Some(1), Some(2), Some(99)] {
            let mut cache = state;
            let cached = *list.find_value_cached(&target(v), &mut cache);
            assert_eq!(cached, plain, "probe {v} cache {state:?}");
            assert!(cache.is_some());
        }
    }
}

#[test]
fn end_central_island_chunk() {
    // quart (0,0,0) lies in chunk (0,0): the central island.
    assert!(matches!(end_biome_decision(0, 16, 0), EndDecision::CentralIsland));
    // 64 chunks out on one axis is still central (64*64 <= 4096).
    assert!(matches!(end_biome_decision(256, 0, 0), EndDecision::CentralIsland));
}

#[test]
fn end_outer_chunk_coordinates() {
    // chunk (100, 100): outside the radius; erosion is sampled at
    // ((chunk*2+1)*8, block_y, ...).
    let d = end_biome_decision(400, 10, 400);
    assert_eq!(
        d,
        EndDecision::Outer { weird_x: 1608, block_y: 40, weird_z: 1608 }
    );
}

#[test]
fn end_negative_quart_floor_division() {
    // quart -1 is block -4, which lies in chunk -1, not chunk 0.
    let d = end_biome_decision(-1, 0, 0);
    assert!(matches!(d, EndDecision::CentralIsland));
    let d2 = end_biome_decision(-400, 0, 0);
    assert_eq!(
        d2,
        EndDecision::Outer { weird_x: -1592, block_y: 0, weird_z: 8 }
    );
}

#[test]
fn end_erosion_thresholds() {
    assert_eq!(classify_end_erosion(0.3f64.to_bits()), EndBiome::EndHighlands);
    assert_eq!(classify_end_erosion(0.25f64.to_bits()), EndBiome::EndMidlands);
    assert_eq!(classify_end_erosion(0.0f64.to_bits()), EndBiome::EndMidlands);
    assert_eq!(classify_end_erosion((-0.0625f64).to_bits()), EndBiome::EndMidlands);
    assert_eq!(classify_end_erosion((-0.1f64).to_bits()), EndBiome::EndBarrens);
    assert_eq!(classify_end_erosion((-0.21875f64).to_bits()), EndBiome::EndBarrens);
    assert_eq!(classify_end_erosion((-0.3f64).to_bits()), EndBiome::SmallEndIslands);
}

#[test]
fn end_island_threshold_is_single_precision() {
    // The threshold is the double that -0.9f32 widens to, not -0.9:
    // the exact double -0.9 lies below it and does contribute.
    assert!(island_contributes(100, 100, (-0.9f64).to_bits()));
    assert!(!island_contributes(100, 100, (-0.8999999f64).to_bits()));
    assert!(!island_contributes(100, 100, (f64::from(-0.9f32)).to_bits()));
    // Inside the central radius nothing contributes.
    assert!(!island_contributes(10, 10, (-0.95f64).to_bits()));
}

#[test]
fn end_biome_ids() {
    assert_eq!(EndBiome::TheEnd.id(), "minecraft:the_end");
    assert_eq!(EndBiome::EndHighlands.id(), "minecraft:end_highlands");
    assert_eq!(EndBiome::EndMidlands.id(), "minecraft:end_midlands");
    assert_eq!(EndBiome::SmallEndIslands.id(), "minecraft:small_end_islands");
    assert_eq!(EndBiome::EndBarrens.id(), "minecraft:end_barrens");
}
