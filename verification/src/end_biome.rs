//! End-dimension biome decisions.
//!
//! The End is not climate-based.  The central island covers every chunk
//! within 64 chunks of the origin; farther out, the island-erosion value
//! sampled at a transformed coordinate picks highlands, midlands, small
//! islands or barrens by fixed thresholds.  The erosion sample itself is
//! simplex noise and arrives here as the bit pattern of the double it
//! produced, so the thresholds compare exactly — including the
//! single-precision island threshold `-0.9f32`, which is not the double
//! `-0.9`.

use vstd::prelude::*;
use crate::floatbits::{f64_bits_le, f64_bits_lt, f64_le, f64_lt};

verus! {

/// The bits of the double 0.25: erosion above it is highlands.
pub const HIGHLANDS_BITS: u64 = 0x3FD0_0000_0000_0000;

/// The bits of the double -0.0625: erosion at or above it is midlands.
pub const MIDLANDS_BITS: u64 = 0xBFB0_0000_0000_0000;

/// The bits of the double -0.21875: erosion below it is small islands.
pub const SMALL_ISLANDS_BITS: u64 = 0xBFCC_0000_0000_0000;

/// The bits of the double that `-0.9f32` widens to: the island
/// threshold.  This is not the double -0.9.
pub const ISLAND_THRESHOLD_BITS: u64 = 0xBFEC_CCCC_C000_0000;

/// An End biome.
#[derive(Clone, Copy, PartialEq, Eq, Structural, Debug)]
pub enum EndBiome {
    /// The central island.
    TheEnd,
    /// Outer highlands.
    EndHighlands,
    /// Outer midlands.
    EndMidlands,
    /// Small outer islands.
    SmallEndIslands,
    /// Outer barrens.
    EndBarrens,
}

/// What a quart position needs next: the central island needs nothing,
/// an outer position needs the island erosion sampled at the carried
/// block coordinates.
#[derive(Clone, Copy, PartialEq, Eq, Structural, Debug)]
pub enum EndDecision {
    /// Within 64 chunks of the origin: the biome is the central island.
    CentralIsland,
    /// Outside: sample erosion at these block coordinates and classify.
    Outer {
        /// Transformed X block coordinate for the erosion sample.
        weird_x: i32,
        /// Y block coordinate for the erosion sample.
        block_y: i32,
        /// Transformed Z block coordinate for the erosion sample.
        weird_z: i32,
    },
}

/// The block coordinate of a quart coordinate.
pub open spec fn quart_to_block(q: int) -> int {
    4 * q
}

/// The chunk coordinate of a block coordinate.
pub open spec fn block_to_chunk(b: int) -> int {
    b / 16
}

/// Whether a chunk position lies on the central island: within 64
/// chunks of the origin.
pub open spec fn central_island(cx: int, cz: int) -> bool {
    cx * cx + cz * cz <= 4096
}

/// The transformed coordinate at which outer-island erosion is sampled.
pub open spec fn weird_coord(c: int) -> int {
    (c * 2 + 1) * 8
}

/// Decides what a quart position needs: the central island, or an
/// erosion sample at the transformed coordinates.
pub fn end_biome_decision(quart_x: i32, quart_y: i32, quart_z: i32) -> (r: EndDecision)
    requires
        -0x0100_0000 <= quart_x <= 0x0100_0000,
        -0x0100_0000 <= quart_y <= 0x0100_0000,
        -0x0100_0000 <= quart_z <= 0x0100_0000,
    ensures
        ({
            let cx = block_to_chunk(quart_to_block(quart_x as int));
            let cz = block_to_chunk(quart_to_block(quart_z as int));
            if central_island(cx, cz) {
                r is CentralIsland
            } else {
                r == (EndDecision::Outer {
                    weird_x: weird_coord(cx) as i32,
                    block_y: quart_to_block(quart_y as int) as i32,
                    weird_z: weird_coord(cz) as i32,
                })
            }
        }),
{
    let block_x = quart_x * 4;
    let block_y = quart_y * 4;
    let block_z = quart_z * 4;
    let chunk_x = floor_div_16(block_x);
    let chunk_z = floor_div_16(block_z);
    let dx = chunk_x as i64;
    let dz = chunk_z as i64;
    proof {
        assert(dx * dx >= 0 && dx * dx <= 0x1000_0000_0000_0000 && dz * dz >= 0 && dz * dz
            <= 0x1000_0000_0000_0000) by (nonlinear_arith)
            requires
                -0x0800_0000 <= dx <= 0x0800_0000,
                -0x0800_0000 <= dz <= 0x0800_0000,
        ;
    }
    if dx * dx + dz * dz <= 4096 {
        EndDecision::CentralIsland
    } else {
        EndDecision::Outer {
            weird_x: (chunk_x * 2 + 1) * 8,
            block_y,
            weird_z: (chunk_z * 2 + 1) * 8,
        }
    }
}

/// Floor division by 16, as an arithmetic shift performs it.
fn floor_div_16(b: i32) -> (r: i32)
    requires
        -0x4000_0000 <= b <= 0x4000_0000,
    ensures
        r == block_to_chunk(b as int),
{
    if b >= 0 {
        b / 16
    } else {
        (b - 15) / 16
    }
}

/// Classifies an outer-End position from its sampled island erosion:
/// above 0.25 highlands, at or above -0.0625 midlands, below -0.21875
/// small islands, otherwise barrens.
pub fn classify_end_erosion(erosion_bits: u64) -> (r: EndBiome)
    ensures
        r == (if f64_lt(HIGHLANDS_BITS, erosion_bits) {
            EndBiome::EndHighlands
        } else if f64_le(MIDLANDS_BITS, erosion_bits) {
            EndBiome::EndMidlands
        } else if f64_lt(erosion_bits, SMALL_ISLANDS_BITS) {
            EndBiome::SmallEndIslands
        } else {
            EndBiome::EndBarrens
        }),
{
    if f64_bits_lt(HIGHLANDS_BITS, erosion_bits) {
        EndBiome::EndHighlands
    } else if f64_bits_le(MIDLANDS_BITS, erosion_bits) {
        EndBiome::EndMidlands
    } else if f64_bits_lt(erosion_bits, SMALL_ISLANDS_BITS) {
        EndBiome::SmallEndIslands
    } else {
        EndBiome::EndBarrens
    }
}

/// Whether a neighbour chunk contributes an island: it must itself lie
/// outside the central radius and its simplex value must fall below the
/// single-precision threshold.
pub fn island_contributes(total_chunk_x: i64, total_chunk_z: i64, noise_bits: u64) -> (r: bool)
    requires
        -0x4000_0000 <= total_chunk_x <= 0x4000_0000,
        -0x4000_0000 <= total_chunk_z <= 0x4000_0000,
    ensures
        r == (total_chunk_x * total_chunk_x + total_chunk_z * total_chunk_z > 4096 && f64_lt(
            noise_bits,
            ISLAND_THRESHOLD_BITS,
        )),
{
    proof {
        assert(total_chunk_x * total_chunk_x >= 0 && total_chunk_x * total_chunk_x
            <= 0x1000_0000_0000_0000 && total_chunk_z * total_chunk_z >= 0 && total_chunk_z
            * total_chunk_z <= 0x1000_0000_0000_0000) by (nonlinear_arith)
            requires
                -0x4000_0000 <= total_chunk_x <= 0x4000_0000,
                -0x4000_0000 <= total_chunk_z <= 0x4000_0000,
        ;
    }
    total_chunk_x * total_chunk_x + total_chunk_z * total_chunk_z > 4096 && f64_bits_lt(
        noise_bits,
        ISLAND_THRESHOLD_BITS,
    )
}

/// The textual id of an End biome.
pub open spec fn end_biome_id(b: EndBiome) -> Seq<char> {
    match b {
        EndBiome::TheEnd => "minecraft:the_end"@,
        EndBiome::EndHighlands => "minecraft:end_highlands"@,
        EndBiome::EndMidlands => "minecraft:end_midlands"@,
        EndBiome::SmallEndIslands => "minecraft:small_end_islands"@,
        EndBiome::EndBarrens => "minecraft:end_barrens"@,
    }
}

impl EndBiome {
    /// The biome's textual id.
    pub fn id(&self) -> (r: &'static str)
        ensures
            r@ == end_biome_id(*self),
    {
        proof {
            reveal_strlit("minecraft:the_end");
            reveal_strlit("minecraft:end_highlands");
            reveal_strlit("minecraft:end_midlands");
            reveal_strlit("minecraft:small_end_islands");
            reveal_strlit("minecraft:end_barrens");
        }
        match self {
            EndBiome::TheEnd => "minecraft:the_end",
            EndBiome::EndHighlands => "minecraft:end_highlands",
            EndBiome::EndMidlands => "minecraft:end_midlands",
            EndBiome::SmallEndIslands => "minecraft:small_end_islands",
            EndBiome::EndBarrens => "minecraft:end_barrens",
        }
    }
}

} // verus!
