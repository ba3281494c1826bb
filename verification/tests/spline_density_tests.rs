//! Spline interval search, rarity mapping, numerals and bit-pattern
//! comparisons on concrete values.

use steel_worldgen::density::{numeral_is_zero, RarityValueMapper};
use steel_worldgen::floatbits::{f32_bits_lt, f64_bits_le, f64_bits_lt};
use steel_worldgen::spline::find_interval;

fn f32v(x: f32) -> u32 {
    x.to_bits()
}

fn f64v(x: f64) -> u64 {
    x.to_bits()
}

#[test]
fn find_interval_before_all() {
    let locs = vec![f32v(0.0), f32v(1.0), f32v(2.0)];
    assert_eq!(find_interval(&locs, f32v(-1.0)), -1);
}

#[test]
fn find_interval_exact_match() {
    let locs = vec![f32v(0.0), f32v(1.0), f32v(2.0)];
    assert_eq!(find_interval(&locs, f32v(1.0)), 1);
}

#[test]
fn find_interval_between() {
    let locs = vec![f32v(0.0), f32v(1.0), f32v(2.0)];
    assert_eq!(find_interval(&locs, f32v(0.5)), 0);
}

#[test]
fn find_interval_after_all() {
    let locs = vec![f32v(0.0), f32v(1.0), f32v(2.0)];
    assert_eq!(find_interval(&locs, f32v(3.0)), 2);
}

#[test]
fn find_interval_negative_range() {
    let locs = vec![f32v(-2.0), f32v(-1.0), f32v(0.5)];
    assert_eq!(find_interval(&locs, f32v(-1.5)), 0);
    assert_eq!(find_interval(&locs, f32v(-3.0)), -1);
    assert_eq!(find_interval(&locs, f32v(0.5)), 2);
}

#[test]
fn test_rarity_value_mapper_tunnels() {
    let mapper = RarityValueMapper::Tunnels;
    assert_eq!(mapper.get_values(f64v(-0.6)), f64v(0.75));
    assert_eq!(mapper.get_values(f64v(-0.3)), f64v(1.0));
    assert_eq!(mapper.get_values(f64v(0.0)), f64v(1.5));
    assert_eq!(mapper.get_values(f64v(0.3)), f64v(1.5));
    assert_eq!(mapper.get_values(f64v(0.6)), f64v(2.0));
}

#[test]
fn test_rarity_value_mapper_caves() {
    let mapper = RarityValueMapper::Caves;
    assert_eq!(mapper.get_values(f64v(-0.8)), f64v(0.5));
    assert_eq!(mapper.get_values(f64v(-0.6)), f64v(0.75));
    assert_eq!(mapper.get_values(f64v(0.0)), f64v(1.0));
    assert_eq!(mapper.get_values(f64v(0.6)), f64v(2.0));
    assert_eq!(mapper.get_values(f64v(0.8)), f64v(3.0));
}

#[test]
fn numeral_zero_detection() {
    assert!(numeral_is_zero("0"));
    assert!(numeral_is_zero("0.0"));
    assert!(numeral_is_zero("-0.000"));
    assert!(numeral_is_zero("0.0e5"));
    assert!(!numeral_is_zero("0.001"));
    assert!(!numeral_is_zero("1e-7"));
    assert!(!numeral_is_zero("-2.5"));
}

#[test]
fn f64_bit_comparisons_match_hardware() {
    let pairs = [
        (1.0f64, 2.0f64),
        (-1.0, 1.0),
        (-2.0, -1.0),
        (0.0, -0.0),
        (-0.0, 0.0),
        (0.25, 0.25),
        (-0.9, -0.8999999761581421),
        (1.5e300, 1.6e300),
        (-1.0e-300, 1.0e-300),
    ];
    for (a, b) in pairs {
        assert_eq!(f64_bits_lt(a.to_bits(), b.to_bits()), a < b, "{a} < {b}");
        assert_eq!(f64_bits_le(a.to_bits(), b.to_bits()), a <= b, "{a} <= {b}");
    }
    let nan = f64::NAN;
    assert!(!f64_bits_lt(nan.to_bits(), 1.0f64.to_bits()));
    assert!(!f64_bits_lt(1.0f64.to_bits(), nan.to_bits()));
    assert!(!f64_bits_le(nan.to_bits(), nan.to_bits()));
}

#[test]
fn f32_bit_comparisons_match_hardware() {
    let pairs = [(0.5f32, 1.0f32), (-1.0, -0.5), (0.0, -0.0), (-3.0, 2.0)];
    for (a, b) in pairs {
        assert_eq!(f32_bits_lt(a.to_bits(), b.to_bits()), a < b, "{a} < {b}");
    }
    assert!(!f32_bits_lt(f32::NAN.to_bits(), 1.0f32.to_bits()));
}
