//! The procedural world-generation core of a vanilla-compatible
//! Minecraft server: a build-time compiler from a declarative JSON graph
//! of density functions to native evaluator source, and the integer
//! half of the runtime biome sampling engine.
//!
//! The build-time pipeline is fully verified: [`json`] models the input
//! documents with every numeral kept as its original text, [`lower`]
//! turns them into the [`density`] expression tree, [`analyze`] walks a
//! dimension's router entry points — reachability, noise collection,
//! flatness inference to a fixpoint, topological ordering — and
//! [`codegen`] emits the noise bundle, the per-column cache with its
//! `ensure` routine, and one evaluator per reachable function, with
//! every constant emitted bit-exactly.
//!
//! At runtime the climate coordinates are quantized integers: [`climate`]
//! holds the 6-axis target points and the nearest-neighbour biome
//! parameter lists with their warm-start cache, [`end_biome`] decides
//! End-dimension biomes from chunk geometry and sampled island erosion,
//! and [`floatbits`] with [`spline`] give exact integer models of the
//! IEEE comparisons those decisions run on.  Floating-point evaluation
//! itself — the noise generators and the compiled evaluators — lives
//! outside the library and hands its results in as bit patterns.
//!
//! [`strkey`] and [`text`] are the ordered string containers and text
//! utilities the compiler is built on; [`chat_state`], [`player_state`]
//! and [`protocol`] carry the player-facing state and packet data the
//! surrounding server decides over.

pub mod analyze;
pub mod chat_state;
pub mod climate;
pub mod codegen;
pub mod density;
pub mod end_biome;
pub mod floatbits;
pub mod json;
pub mod lower;
pub mod player_state;
pub mod protocol;
pub mod spline;
pub mod strkey;
pub mod text;
