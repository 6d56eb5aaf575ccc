//! World generation configuration and the per-channel seed derivation.
//!
//! Each climate channel samples its own noise lattice, derived from the
//! root seed: a fixed additive sub-seed per channel, plus a pseudo-random
//! large coordinate offset and a rotation hash, fixed for the generator's
//! lifetime, which decorrelate channels that would otherwise share lattice
//! structure. The derivation here is exact integer arithmetic; turning the
//! offset numerators and rotation hashes into lattice coordinates and
//! radians is the sampling layer's concern.

use vstd::prelude::*;

verus! {

/// Parameters of world generation handed in by the surrounding layer.
#[derive(Clone, Copy, Debug)]
pub struct WorldGeneratationConfig {
    pub seed: u32,
    pub chunk_width: u32,
    pub chunk_height: u32,
    pub tile_size: u32,
    pub load_radius: i32,
    pub unload_radius: i32,
    pub chunk_width_i32: i32,
    pub chunk_height_i32: i32,
}

/// Relies on rand's `thread_rng` and `Rng::gen_range` over the full `u32`
/// range: draws a fresh world seed. Nothing can be promised of the value.
#[verifier::external_body]
fn random_seed() -> u32 {
    rand::Rng::gen_range(&mut rand::thread_rng(), 0..=u32::MAX)
}

impl Default for WorldGeneratationConfig {
    /// The stock configuration: 64 by 64 tile chunks of 32-pixel tiles,
    /// chunks loaded within Chebyshev radius 32 and torn down beyond 64,
    /// under a freshly drawn random seed.
    fn default() -> (c: WorldGeneratationConfig)
        ensures
            c.chunk_width == 64,
            c.chunk_height == 64,
            c.tile_size == 32,
            c.load_radius == 32,
            c.unload_radius == 64,
            c.chunk_width_i32 == 64,
            c.chunk_height_i32 == 64,
    {
        WorldGeneratationConfig {
            seed: random_seed(),
            chunk_width: 64,
            chunk_height: 64,
            tile_size: 32,
            load_radius: 32,
            unload_radius: 64,
            chunk_width_i32: 64,
            chunk_height_i32: 64,
        }
    }
}

/// The scrambling step that turns a root seed and a derivation key into an
/// independent 64-bit value.
pub open spec fn hash_u64_spec(seed: u64, k: u64) -> u64 {
    let z0 = seed.wrapping_add(k).wrapping_add(0x9E3779B97F4A7C15);
    let z1 = (z0 ^ (z0 >> 30)).wrapping_mul(0xBF58476D1CE4E5B9);
    let z2 = (z1 ^ (z1 >> 27)).wrapping_mul(0x94D049BB133111EB);
    z2 ^ (z2 >> 31)
}

/// Scramble a root seed and a derivation key into an independent 64-bit
/// value (a SplitMix-style finalizer).
pub fn hash_u64(seed: u64, k: u64) -> (r: u64)
    ensures
        r == hash_u64_spec(seed, k),
{
    let z0 = seed.wrapping_add(k).wrapping_add(0x9E3779B97F4A7C15);
    let z1 = (z0 ^ (z0 >> 30)).wrapping_mul(0xBF58476D1CE4E5B9);
    let z2 = (z1 ^ (z1 >> 27)).wrapping_mul(0x94D049BB133111EB);
    z2 ^ (z2 >> 31)
}

/// Numerator of a channel's pseudo-random lattice offset: a linear
/// congruential mix of the seed, reduced below ten million. The sampling
/// layer divides it by 7 to get a large non-integer offset that avoids the
/// lattice origin.
pub open spec fn offset_numerator_spec(seed: u64, n: u64) -> u64 {
    seed.wrapping_mul(6364136223846793005).wrapping_add(n) % 10_000_000
}

/// Numerator of a channel's pseudo-random lattice offset.
pub fn offset_numerator(seed: u64, n: u64) -> (r: u64)
    ensures
        r == offset_numerator_spec(seed, n),
        r < 10_000_000,
{
    seed.wrapping_mul(6364136223846793005).wrapping_add(n) % 10_000_000
}

/// The immutable integer state a generator derives once from its seed:
/// one lattice seed per channel, the per-channel offset numerators, and
/// the per-channel rotation hashes. The sampling layer owns the noise
/// lattices themselves.
#[derive(Clone, Copy, Debug)]
pub struct WorldGenerator {
    pub seed: u32,
    pub temperature_seed: u32,
    pub humidity_seed: u32,
    pub continentalness_seed: u32,
    pub erosion_seed: u32,
    pub weirdness_seed: u32,
    pub land_mask_seed: u32,
    pub equator_seed: u32,
    pub t_off: (u64, u64),
    pub h_off: (u64, u64),
    pub c_off: (u64, u64),
    pub e_off: (u64, u64),
    pub w_off: (u64, u64),
    pub t_rot: u64,
    pub h_rot: u64,
    pub c_rot: u64,
    pub e_rot: u64,
    pub w_rot: u64,
}

impl WorldGenerator {
    /// Derive every per-channel constant from the configured seed. The
    /// derivation is pure: the same seed always yields the same generator.
    pub fn new(config: &WorldGeneratationConfig) -> (g: WorldGenerator)
        ensures
            g.seed == config.seed,
            g.temperature_seed == config.seed,
            g.humidity_seed == config.seed.wrapping_add(1),
            g.continentalness_seed == config.seed.wrapping_add(2),
            g.erosion_seed == config.seed.wrapping_add(3),
            g.weirdness_seed == config.seed.wrapping_add(4),
            g.land_mask_seed == config.seed.wrapping_add(42),
            g.equator_seed == config.seed.wrapping_add(4),
            g.c_off == (
                offset_numerator_spec(config.seed as u64, 11),
                offset_numerator_spec(config.seed as u64, 12),
            ),
            g.t_off == (
                offset_numerator_spec(config.seed as u64, 21),
                offset_numerator_spec(config.seed as u64, 22),
            ),
            g.h_off == (
                offset_numerator_spec(config.seed as u64, 31),
                offset_numerator_spec(config.seed as u64, 32),
            ),
            g.e_off == (
                offset_numerator_spec(config.seed as u64, 41),
                offset_numerator_spec(config.seed as u64, 42),
            ),
            g.w_off == (
                offset_numerator_spec(config.seed as u64, 51),
                offset_numerator_spec(config.seed as u64, 52),
            ),
            g.c_rot == hash_u64_spec(config.seed as u64, 61),
            g.t_rot == hash_u64_spec(config.seed as u64, 62),
            g.h_rot == hash_u64_spec(config.seed as u64, 63),
            g.e_rot == hash_u64_spec(config.seed as u64, 64),
            g.w_rot == hash_u64_spec(config.seed as u64, 65),
    {
        let seed_u64 = config.seed as u64;
        WorldGenerator {
            seed: config.seed,
            temperature_seed: config.seed,
            humidity_seed: config.seed.wrapping_add(1),
            continentalness_seed: config.seed.wrapping_add(2),
            erosion_seed: config.seed.wrapping_add(3),
            weirdness_seed: config.seed.wrapping_add(4),
            land_mask_seed: config.seed.wrapping_add(42),
            equator_seed: config.seed.wrapping_add(4),
            c_off: (offset_numerator(seed_u64, 11), offset_numerator(seed_u64, 12)),
            t_off: (offset_numerator(seed_u64, 21), offset_numerator(seed_u64, 22)),
            h_off: (offset_numerator(seed_u64, 31), offset_numerator(seed_u64, 32)),
            e_off: (offset_numerator(seed_u64, 41), offset_numerator(seed_u64, 42)),
            w_off: (offset_numerator(seed_u64, 51), offset_numerator(seed_u64, 52)),
            c_rot: hash_u64(seed_u64, 61),
            t_rot: hash_u64(seed_u64, 62),
            h_rot: hash_u64(seed_u64, 63),
            e_rot: hash_u64(seed_u64, 64),
            w_rot: hash_u64(seed_u64, 65),
        }
    }
}

impl Default for WorldGenerator {
    /// A generator over the stock configuration, under its freshly drawn
    /// random seed; every derived constant is still pinned to that seed.
    fn default() -> (g: WorldGenerator)
        ensures
            g.temperature_seed == g.seed,
            g.humidity_seed == g.seed.wrapping_add(1),
            g.continentalness_seed == g.seed.wrapping_add(2),
            g.erosion_seed == g.seed.wrapping_add(3),
            g.weirdness_seed == g.seed.wrapping_add(4),
            g.land_mask_seed == g.seed.wrapping_add(42),
            g.equator_seed == g.seed.wrapping_add(4),
            g.t_off == (
                offset_numerator_spec(g.seed as u64, 21),
                offset_numerator_spec(g.seed as u64, 22),
            ),
            g.t_rot == hash_u64_spec(g.seed as u64, 62),
    {
        let config = WorldGeneratationConfig::default();
        WorldGenerator::new(&config)
    }
}

/// The chunk coordinate containing a world tile coordinate, on both axes:
/// floor division by the chunk dimensions.
pub fn world_to_chunk(wx: i64, wy: i64, chunk_width: u32, chunk_height: u32) -> (c: (i64, i64))
    requires
        chunk_width > 0,
        chunk_height > 0,
    ensures
        c.0 == (wx as int) / (chunk_width as int),
        c.1 == (wy as int) / (chunk_height as int),
{
    let cx = div_floor_i64(wx, chunk_width as i64);
    let cy = div_floor_i64(wy, chunk_height as i64);
    (cx, cy)
}

/// Floor division of a signed value by a positive divisor.
fn div_floor_i64(a: i64, b: i64) -> (q: i64)
    requires
        b > 0,
    ensures
        q == (a as int) / (b as int),
{
    proof {
        vstd::arithmetic::div_mod::lemma_fundamental_div_mod(a as int, b as int);
        let qm = (a as int) / (b as int);
        let rm = (a as int) % (b as int);
        assert(i64::MIN <= qm <= i64::MAX) by (nonlinear_arith)
            requires
                b >= 1,
                i64::MIN <= a <= i64::MAX,
                a == b * qm + rm,
                0 <= rm < b,
        ;
    }
    match a.checked_div_euclid(b) {
        Some(q) => q,
        None => {
            proof {
                assert(false);
            }
            0
        },
    }
}

} // verus!
