use ebonshire::tileset::{
    intersects, slate_tile_set, CompatibilityMatrix, Direction, Slate, SocketType, TileSet,
    TileVariant,
};
use ebonshire::wfc::WaveFunction;

fn variant(labels: [u32; 4]) -> TileVariant {
    TileVariant {
        north: vec![(labels[0], 1)],
        south: vec![(labels[1], 1)],
        east: vec![(labels[2], 1)],
        west: vec![(labels[3], 1)],
    }
}

fn uniform_variant(label: u32) -> TileVariant {
    variant([label, label, label, label])
}

#[test]
fn direction_geometry() {
    assert_eq!(Direction::North.opposite(), Direction::South);
    assert_eq!(Direction::East.opposite(), Direction::West);
    assert_eq!(Direction::West.opposite(), Direction::East);
    assert_eq!(Direction::East.dx(), 1);
    assert_eq!(Direction::West.dx(), -1);
    assert_eq!(Direction::North.dy(), -1);
    assert_eq!(Direction::South.dy(), 1);
    assert_eq!(Direction::North.dx(), 0);
}

#[test]
fn socket_intersection_ignores_weights() {
    let a = vec![(0u32, 95u32), (1, 2)];
    let b = vec![(1u32, 77u32)];
    let c = vec![(2u32, 1u32)];
    assert!(intersects(&a, &b));
    assert!(!intersects(&a, &c));
    assert!(!intersects(&b, &c));
    let empty: Vec<(u32, u32)> = Vec::new();
    assert!(!intersects(&a, &empty));
}

#[test]
fn matrix_from_slate_alphabet() {
    let ts = slate_tile_set();
    let cm = CompatibilityMatrix::build(&ts).unwrap();
    assert_eq!(cm.n, 4);
    let g = Slate::Grass.index() as usize;
    let r = Slate::Rose.index() as usize;
    let d = Slate::Dandelion.index() as usize;
    let t = Slate::Tree.index() as usize;
    // grass accepts everything that shares one of its labels
    assert!(cm.tables[Direction::East.index()][g][g]);
    assert!(cm.tables[Direction::East.index()][g][r]);
    assert!(cm.tables[Direction::East.index()][g][d]);
    assert!(cm.tables[Direction::East.index()][g][t]);
    // roses only accept roses or grass
    assert!(cm.tables[Direction::North.index()][r][g]);
    assert!(cm.tables[Direction::North.index()][r][r]);
    assert!(!cm.tables[Direction::North.index()][r][d]);
    assert!(!cm.tables[Direction::North.index()][r][t]);
    // dandelions never sit next to trees
    assert!(!cm.tables[Direction::South.index()][d][t]);
}

#[test]
fn malformed_variant_fails_fast() {
    let ts = TileSet {
        variants: vec![
            uniform_variant(0),
            TileVariant { north: vec![], south: vec![], east: vec![], west: vec![] },
            uniform_variant(1),
        ],
    };
    let e = CompatibilityMatrix::build(&ts).unwrap_err();
    assert_eq!(e.variant, 1);
}

#[test]
fn single_cell_single_variant_solves_immediately() {
    let ts = TileSet { variants: vec![uniform_variant(0)] };
    let cm = CompatibilityMatrix::build(&ts).unwrap();
    let mut wave = WaveFunction::new([1, 1], 99);
    let out = wave.collapse(&cm).unwrap();
    assert_eq!(out, vec![((0, 0), 0)]);
}

#[test]
fn mutually_incompatible_pair_contradicts() {
    // disjoint labels everywhere, including against themselves
    let ts = TileSet { variants: vec![variant([0, 1, 2, 3]), variant([4, 5, 6, 7])] };
    let cm = CompatibilityMatrix::build(&ts).unwrap();
    let mut wave = WaveFunction::new([2, 1], 5);
    let e = wave.collapse(&cm).unwrap_err();
    assert!(e.at.0 < 2 && e.at.1 < 1);
}

#[test]
fn fully_compatible_alphabet_solves_any_grid() {
    let ts = TileSet {
        variants: vec![uniform_variant(0), uniform_variant(0), uniform_variant(0)],
    };
    let cm = CompatibilityMatrix::build(&ts).unwrap();
    for (w, h) in [(1usize, 1usize), (3, 2), (5, 5)] {
        let mut wave = WaveFunction::new([w, h], 1234);
        let out = wave.collapse(&cm).unwrap();
        assert_eq!(out.len(), w * h);
        for (k, ((x, y), tile)) in out.iter().enumerate() {
            assert_eq!((*x, *y), (k % w, k / w));
            assert!(*tile < 3);
        }
    }
}

#[test]
fn priors_are_respected() {
    let ts = TileSet {
        variants: vec![uniform_variant(0), uniform_variant(0), uniform_variant(0)],
    };
    let cm = CompatibilityMatrix::build(&ts).unwrap();
    let mut wave = WaveFunction::new([4, 4], 77);
    wave.set((2, 1), 2);
    wave.set((0, 3), 1);
    let out = wave.collapse(&cm).unwrap();
    assert_eq!(out[1 * 4 + 2].1, 2);
    assert_eq!(out[3 * 4 + 0].1, 1);
}

#[test]
fn collapse_is_deterministic_per_seed() {
    let ts = slate_tile_set();
    let cm = CompatibilityMatrix::build(&ts).unwrap();
    let run = |seed: u64| {
        let mut wave = WaveFunction::new([6, 6], seed);
        wave.set((3, 3), Slate::Grass.index() as usize);
        wave.collapse(&cm).map(|v| v.iter().map(|(_, t)| *t).collect::<Vec<_>>())
    };
    assert_eq!(run(23_534_536), run(23_534_536));
}

#[test]
fn slate_solution_is_locally_consistent() {
    let ts = slate_tile_set();
    let cm = CompatibilityMatrix::build(&ts).unwrap();
    let mut wave = WaveFunction::new([6, 6], 23_534_536);
    wave.set((3, 3), Slate::Grass.index() as usize);
    match wave.collapse(&cm) {
        Ok(out) => {
            assert_eq!(out.len(), 36);
            assert_eq!(out[3 * 6 + 3].1, Slate::Grass.index() as usize);
            // every horizontally and vertically adjacent pair really is
            // compatible per the declared sockets
            for ((x, y), tile) in &out {
                if x + 1 < 6 {
                    let right = out[y * 6 + x + 1].1;
                    assert!(cm.tables[Direction::East.index()][*tile][right]);
                }
                if y + 1 < 6 {
                    let below = out[(y + 1) * 6 + x].1;
                    assert!(cm.tables[Direction::South.index()][*tile][below]);
                }
            }
        }
        Err(e) => {
            assert!(e.at.0 < 6 && e.at.1 < 6);
        }
    }
}

#[test]
fn slate_metadata() {
    assert_eq!(SocketType::Grass.label(), 0);
    assert_eq!(SocketType::Tree.label(), 3);
    assert_eq!(Slate::from_index(2), Slate::Dandelion);
    assert_eq!(Slate::Rose.get_color(), ebonshire::color::Rgba([220, 20, 60, 255]));
    let ts = slate_tile_set();
    assert_eq!(ts.variants.len(), 4);
    assert_eq!(ts.variants[0].north, vec![(0, 95), (1, 2), (2, 3)]);
    assert_eq!(ts.variants[3].east, vec![(3, 5), (0, 2)]);
}
