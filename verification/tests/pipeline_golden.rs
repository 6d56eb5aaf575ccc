//! End-to-end regression of the sampler, classifier, and picker pipeline:
//! the noise sampling runs here in floating point, exactly as the driver
//! around the library performs it, and hands fixed-point climate units to
//! the verified core.

use ebonshire::chunk::Chunk;
use ebonshire::climate::{RawClimate, CLIMATE_SCALE};
use ebonshire::field::{WorldGeneratationConfig, WorldGenerator};
use noise::{NoiseFn, Perlin};

struct Sampler {
    temperature: Perlin,
    humidity: Perlin,
    continentalness: Perlin,
    erosion: Perlin,
    weirdness: Perlin,
    land_mask: Perlin,
    equator: Perlin,
    gen: WorldGenerator,
    equator_offset: f64,
}

fn angle(h: u64) -> f64 {
    (h as f64 / u64::MAX as f64) * std::f64::consts::TAU
}

fn rotate(x: f64, y: f64, theta: f64) -> (f64, f64) {
    let (s, c) = theta.sin_cos();
    (x * c - y * s, x * s + y * c)
}

fn fractal(noise: &Perlin, x: f64, y: f64, octaves: usize, persistence: f64, lacunarity: f64) -> f64 {
    let mut frequency = 1.0;
    let mut amplitude = 1.0;
    let mut max_value = 0.0;
    let mut total = 0.0;
    for _ in 0..octaves {
        total += noise.get([x * frequency, y * frequency]) * amplitude;
        max_value += amplitude;
        amplitude *= persistence;
        frequency *= lacunarity;
    }
    total / max_value
}

impl Sampler {
    fn new(config: &WorldGeneratationConfig) -> Sampler {
        let gen = WorldGenerator::new(config);
        let equator = Perlin::new(gen.equator_seed);
        let equator_offset = equator.get([0.0]) * config.chunk_height as f64 * 16.0;
        Sampler {
            temperature: Perlin::new(gen.temperature_seed),
            humidity: Perlin::new(gen.humidity_seed),
            continentalness: Perlin::new(gen.continentalness_seed),
            erosion: Perlin::new(gen.erosion_seed),
            weirdness: Perlin::new(gen.weirdness_seed),
            land_mask: Perlin::new(gen.land_mask_seed),
            equator,
            gen,
            equator_offset,
        }
    }

    fn channel(&self, noise: &Perlin, off: (u64, u64), rot: u64, x: i32, y: i32) -> f64 {
        let scale = 0.001;
        let nx = (x as f64 + off.0 as f64 / 7.0) * scale;
        let ny = (y as f64 + off.1 as f64 / 7.0) * scale;
        let (nx, ny) = rotate(nx, ny, angle(rot));
        fractal(noise, nx, ny, 4, 0.5, 2.0)
    }

    fn gradient(&self, y: i32) -> f64 {
        self.equator.get([(y as f64 + self.equator_offset) * 0.001])
    }

    fn continentalness_at(&self, x: i32, y: i32) -> f64 {
        let base = self.channel(&self.continentalness, self.gen.c_off, self.gen.c_rot, x, y);
        let mask_scale = 0.0002;
        let mx = (x as f64 + self.gen.c_off.0 as f64 / 7.0) * mask_scale;
        let my = (y as f64 + self.gen.c_off.1 as f64 / 7.0) * mask_scale;
        let (mx, my) = rotate(mx, my, angle(self.gen.c_rot) * 0.5);
        let mask = fractal(&self.land_mask, mx, my, 3, 0.5, 2.0);
        let mask01 = (mask + 1.0) * 0.5;
        (base + (mask01 - 0.5) * 0.4).clamp(-1.0, 1.0)
    }

    fn sample(&self, x: i32, y: i32) -> RawClimate {
        let grad = self.gradient(y);
        let t = 0.7 * self.channel(&self.temperature, self.gen.t_off, self.gen.t_rot, x, y)
            + 0.3 * grad;
        let h = 0.7 * self.channel(&self.humidity, self.gen.h_off, self.gen.h_rot, x, y)
            + 0.3 * grad;
        let c = self.continentalness_at(x, y);
        let e = self.channel(&self.erosion, self.gen.e_off, self.gen.e_rot, x, y);
        let w = self.channel(&self.weirdness, self.gen.w_off, self.gen.w_rot, x, y);
        let units = |v: f64| (v * CLIMATE_SCALE as f64) as i32;
        RawClimate {
            temperature: units(t),
            humidity: units(h),
            continentalness: units(c),
            erosion: units(e),
            weirdness: units(w),
        }
    }
}

fn config_with_seed(seed: u32, dim: u32) -> WorldGeneratationConfig {
    WorldGeneratationConfig {
        seed,
        chunk_width: dim,
        chunk_height: dim,
        tile_size: 32,
        load_radius: 32,
        unload_radius: 64,
        chunk_width_i32: dim as i32,
        chunk_height_i32: dim as i32,
    }
}

fn sample_chunk(seed: u32, dim: u32) -> Vec<RawClimate> {
    let config = config_with_seed(seed, dim);
    let sampler = Sampler::new(&config);
    let mut samples = Vec::new();
    for ly in 0..dim as i32 {
        for lx in 0..dim as i32 {
            samples.push(sampler.sample(lx, ly));
        }
    }
    samples
}

#[test]
fn sampling_is_bit_identical_across_runs() {
    let a = sample_chunk(42, 4);
    let b = sample_chunk(42, 4);
    assert_eq!(a, b);
}

#[test]
fn golden_grid_seed_42() {
    let samples = sample_chunk(42, 4);
    let chunk = Chunk::from_samples(0, 0, 4, 4, &samples);
    // recorded from this pipeline: a mild, slightly weird river basin
    // (temperate, humidity band 1, far-inland, low erosion) classifies
    // every cell of this chunk as the River tile
    let golden: Vec<u32> = vec![9; 16];
    assert_eq!(chunk.tiles, golden);
    assert_eq!(chunk.tiles[0], ebonshire::biome::Biome::River.index());
}

#[test]
fn full_pipeline_is_deterministic() {
    let samples = sample_chunk(42, 4);
    let a = Chunk::from_samples(0, 0, 4, 4, &samples);
    let b = Chunk::from_samples(0, 0, 4, 4, &samples);
    assert_eq!(a.tiles, b.tiles);
}
