use ebonshire::field::{
    hash_u64, offset_numerator, world_to_chunk, WorldGeneratationConfig, WorldGenerator,
};

#[test]
fn hash_is_deterministic_and_spread() {
    // the zero input pins the scrambler's constants exactly
    assert_eq!(hash_u64(0, 0), 0xe220a8397b1dcdaf);
    assert_eq!(hash_u64(42, 61), 1866550240620900528);
    assert_eq!(hash_u64(42, 61), hash_u64(42, 61));
    assert_ne!(hash_u64(42, 61), hash_u64(42, 62));
    assert_ne!(hash_u64(42, 61), hash_u64(43, 61));
}

#[test]
fn offset_numerators_stay_below_ten_million() {
    for seed in [0u64, 1, 42, u64::MAX] {
        for n in [11u64, 12, 21, 52] {
            assert!(offset_numerator(seed, n) < 10_000_000);
        }
    }
    assert_eq!(offset_numerator(0, 11), 11);
    assert_eq!(offset_numerator(42, 11), 1_583_597);
}

fn config_with_seed(seed: u32) -> WorldGeneratationConfig {
    WorldGeneratationConfig {
        seed,
        chunk_width: 64,
        chunk_height: 64,
        tile_size: 32,
        load_radius: 32,
        unload_radius: 64,
        chunk_width_i32: 64,
        chunk_height_i32: 64,
    }
}

#[test]
fn generator_derives_channel_seeds() {
    let g = WorldGenerator::new(&config_with_seed(100));
    assert_eq!(g.temperature_seed, 100);
    assert_eq!(g.humidity_seed, 101);
    assert_eq!(g.continentalness_seed, 102);
    assert_eq!(g.erosion_seed, 103);
    assert_eq!(g.weirdness_seed, 104);
    assert_eq!(g.land_mask_seed, 142);
    assert_eq!(g.equator_seed, 104);
}

#[test]
fn generator_seed_wraps() {
    let g = WorldGenerator::new(&config_with_seed(u32::MAX));
    assert_eq!(g.humidity_seed, 0);
    assert_eq!(g.land_mask_seed, 41);
}

#[test]
fn generator_is_deterministic_per_seed() {
    let a = WorldGenerator::new(&config_with_seed(7));
    let b = WorldGenerator::new(&config_with_seed(7));
    assert_eq!(a.t_off, b.t_off);
    assert_eq!(a.w_rot, b.w_rot);
    let c = WorldGenerator::new(&config_with_seed(8));
    assert_ne!(a.t_rot, c.t_rot);
}

#[test]
fn default_config_dimensions() {
    let c = WorldGeneratationConfig::default();
    assert_eq!(c.chunk_width, 64);
    assert_eq!(c.chunk_height, 64);
    assert_eq!(c.tile_size, 32);
    assert_eq!(c.load_radius, 32);
    assert_eq!(c.unload_radius, 64);
}

#[test]
fn world_to_chunk_floors() {
    assert_eq!(world_to_chunk(0, 0, 64, 64), (0, 0));
    assert_eq!(world_to_chunk(63, 63, 64, 64), (0, 0));
    assert_eq!(world_to_chunk(64, 65, 64, 64), (1, 1));
    assert_eq!(world_to_chunk(-1, -64, 64, 64), (-1, -1));
    assert_eq!(world_to_chunk(-65, 128, 64, 64), (-2, 2));
}
