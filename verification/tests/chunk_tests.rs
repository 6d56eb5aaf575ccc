use ebonshire::chunk::{chebyshev_distance, spiral_offsets, world_coord, Chunk, ChunkManager};
use ebonshire::climate::RawClimate;

#[test]
fn spiral_offsets_radius_one_exact() {
    let v = spiral_offsets(1);
    assert_eq!(
        v,
        vec![
            (0, 0),
            (-1, -1),
            (0, -1),
            (1, -1),
            (1, 0),
            (1, 1),
            (0, 1),
            (-1, 1),
            (-1, 0),
        ]
    );
}

#[test]
fn spiral_offsets_counts_and_coverage() {
    for r in 0..5 {
        let v = spiral_offsets(r);
        let n = (2 * r + 1) * (2 * r + 1);
        assert_eq!(v.len(), n as usize);
        for dx in -r..=r {
            for dy in -r..=r {
                assert!(v.contains(&(dx, dy)));
            }
        }
        for (i, a) in v.iter().enumerate() {
            for b in v.iter().skip(i + 1) {
                assert_ne!(a, b);
            }
        }
    }
}

#[test]
fn world_coord_maps_chunks_to_tiles() {
    assert_eq!(world_coord(0, 64, 0), 0);
    assert_eq!(world_coord(0, 64, 63), 63);
    assert_eq!(world_coord(1, 64, 0), 64);
    assert_eq!(world_coord(-1, 64, 0), -64);
    assert_eq!(world_coord(-1, 64, 63), -1);
}

#[test]
fn chebyshev_distance_values() {
    assert_eq!(chebyshev_distance(0, 0, 0, 0), 0);
    assert_eq!(chebyshev_distance(3, -4, 0, 0), 4);
    assert_eq!(chebyshev_distance(-2, 1, 1, 1), 3);
    assert_eq!(chebyshev_distance(5, 5, 2, 9), 4);
}

fn flat_samples(n: usize, v: i32) -> Vec<RawClimate> {
    let mut out = Vec::new();
    for _ in 0..n {
        out.push(RawClimate {
            temperature: v,
            humidity: v,
            continentalness: v,
            erosion: v,
            weirdness: v,
        });
    }
    out
}

#[test]
fn chunk_buffer_size_matches_dimensions() {
    let samples = flat_samples(12, 0);
    let c = Chunk::from_samples(2, -3, 4, 3, &samples);
    assert_eq!(c.x, 2);
    assert_eq!(c.y, -3);
    assert_eq!(c.width, 4);
    assert_eq!(c.height, 3);
    assert_eq!(c.tiles.len(), 12);
}

#[test]
fn chunk_regeneration_is_identical() {
    let mut samples = flat_samples(16, 0);
    for (i, s) in samples.iter_mut().enumerate() {
        s.temperature = (i as i32) * 700 - 5000;
        s.continentalness = 4000 - (i as i32) * 600;
        s.weirdness = (i as i32) * 321 - 2500;
    }
    let a = Chunk::from_samples(0, 0, 4, 4, &samples);
    let b = Chunk::from_samples(0, 0, 4, 4, &samples);
    assert_eq!(a.tiles, b.tiles);
}

#[test]
fn uniform_samples_give_uniform_tiles() {
    let samples = flat_samples(16, 0);
    let c = Chunk::from_samples(0, 0, 4, 4, &samples);
    for t in &c.tiles {
        assert_eq!(*t, c.tiles[0]);
    }
}

#[test]
fn registry_insert_and_lookup() {
    let mut m = ChunkManager::new();
    assert_eq!(m.len(), 0);
    assert!(!m.is_generated(0, 0));
    let samples = flat_samples(4, 0);
    m.insert(Chunk::from_samples(0, 0, 2, 2, &samples));
    m.insert(Chunk::from_samples(1, 0, 2, 2, &samples));
    assert_eq!(m.len(), 2);
    assert!(m.is_generated(0, 0));
    assert!(m.is_generated(1, 0));
    assert!(!m.is_generated(0, 1));
    let c = m.get(1, 0).unwrap();
    assert_eq!((c.x, c.y), (1, 0));
    assert!(m.get(5, 5).is_none());
}

#[test]
fn fresh_viewer_loads_exactly_the_three_by_three_neighborhood() {
    let m = ChunkManager::new();
    let plan = m.plan_loads(0, 0, 1);
    assert_eq!(plan.len(), 9);
    for dx in -1..=1 {
        for dy in -1..=1 {
            assert!(plan.contains(&(dx, dy)));
        }
    }
}

#[test]
fn plan_skips_already_generated_chunks() {
    let mut m = ChunkManager::new();
    let samples = flat_samples(1, 0);
    m.insert(Chunk::from_samples(0, 0, 1, 1, &samples));
    m.insert(Chunk::from_samples(1, 1, 1, 1, &samples));
    let plan = m.plan_loads(0, 0, 1);
    assert_eq!(plan.len(), 7);
    assert!(!plan.contains(&(0, 0)));
    assert!(!plan.contains(&(1, 1)));
    assert!(plan.contains(&(-1, -1)));
}

#[test]
fn unload_beyond_radius_with_hysteresis() {
    let mut m = ChunkManager::new();
    let samples = flat_samples(1, 0);
    for (dx, dy) in spiral_offsets(2) {
        m.insert(Chunk::from_samples(dx, dy, 1, 1, &samples));
    }
    assert_eq!(m.len(), 25);
    // viewer still at the center, unload radius 1: the outer ring goes
    m.unload_far(0, 0, 1);
    assert_eq!(m.len(), 9);
    assert!(m.is_generated(1, 1));
    assert!(!m.is_generated(2, 0));
    assert!(!m.is_generated(-2, -2));
    // tightening to radius 0 keeps only the viewer's own chunk
    m.unload_far(0, 0, 0);
    assert_eq!(m.len(), 1);
    assert!(m.is_generated(0, 0));
}

#[test]
fn maintenance_round_trip() {
    // load around (0, 0), move the viewer, load the missing chunks there,
    // then unload what fell beyond the unload radius
    let mut m = ChunkManager::new();
    let samples = flat_samples(1, 0);
    for (x, y) in m.plan_loads(0, 0, 1) {
        m.insert(Chunk::from_samples(x, y, 1, 1, &samples));
    }
    assert_eq!(m.len(), 9);
    let plan = m.plan_loads(2, 0, 1);
    assert_eq!(plan.len(), 6);
    for (x, y) in plan {
        m.insert(Chunk::from_samples(x, y, 1, 1, &samples));
    }
    assert_eq!(m.len(), 15);
    // hysteresis: with unload radius 2 the old column at x = -1 goes, but
    // chunks at distance 2 survive even though the load radius is 1
    m.unload_far(2, 0, 2);
    assert_eq!(m.len(), 12);
    assert!(!m.is_generated(-1, 0));
    assert!(m.is_generated(0, 0));
}
