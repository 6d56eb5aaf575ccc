use ebonshire::biome::{Biome, WeirdnessSign, BIOME_COUNT};
use ebonshire::climate::{Point, RawClimate};
use ebonshire::color::Rgba;
use ebonshire::picker::{pick_biome, pick_min_req};

fn point_with_levels(t: i32, h: i32, c: i32, e: i32, w: i32) -> Point {
    Point::new(
        0,
        0,
        RawClimate { temperature: t, humidity: h, continentalness: c, erosion: e, weirdness: w },
    )
}

#[test]
fn requirements_spot_checks() {
    let r = Biome::FrozenOcean.requirements();
    assert_eq!(r.temp_level, Some(0));
    assert_eq!(r.humidity_level, None);
    assert_eq!(r.continentalness_level, Some(1));
    assert_eq!(r.erosion_level, None);
    assert_eq!(r.pv_level, None);
    assert_eq!(r.weirdness, WeirdnessSign::Any);

    let r = Biome::IceSpikes.requirements();
    assert_eq!(r.temp_level, Some(0));
    assert_eq!(r.humidity_level, Some(0));
    assert_eq!(r.weirdness, WeirdnessSign::Positive);

    let r = Biome::JaggedPeaks.requirements();
    assert_eq!(r.temp_level, Some(1));
    assert_eq!(r.erosion_level, Some(0));
    assert_eq!(r.pv_level, Some(4));
    assert_eq!(r.weirdness, WeirdnessSign::Negative);

    let r = Biome::River.requirements();
    assert_eq!(r.temp_level, None);
    assert_eq!(r.pv_level, Some(0));
}

#[test]
fn index_roundtrip_over_all() {
    let all = Biome::all();
    assert_eq!(all.len(), BIOME_COUNT as usize);
    for (i, b) in all.iter().enumerate() {
        assert_eq!(b.index() as usize, i);
        assert_eq!(Biome::from_index(i as u32), *b);
    }
    assert_eq!(all[0], Biome::FrozenOcean);
    assert_eq!(all[44], Biome::StonyPeaks);
}

#[test]
fn colors_spot_checks() {
    assert_eq!(Biome::Ocean.get_color(), Rgba([0, 0, 255, 255]));
    assert_eq!(Biome::River.get_color(), Rgba([0, 0, 255, 255]));
    assert_eq!(Biome::Desert.get_color(), Rgba([237, 201, 175, 255]));
    assert_eq!(Biome::SnowyPlains.get_color(), Rgba([255, 255, 255, 255]));
    assert_eq!(Biome::StonyPeaks.get_color(), Rgba([112, 128, 144, 255]));
}

#[test]
fn exact_match_selects_prototype() {
    // levels match DeepOcean exactly: temperature 2, continentalness 0,
    // nothing else constrained; weirdness negative avoids the Positive
    // variants and ties no earlier zero-score biome
    let p = point_with_levels(0, 0, -9000, 0, -5000);
    // temperature level 2 needs a raw value in [-0.15, 0.2)
    let p = Point { temperature_level: 2, ..p };
    assert_eq!(p.continentalness_level, 0);
    assert_eq!(pick_biome(&p), Biome::DeepOcean);
}

#[test]
fn zero_score_tie_keeps_enumeration_order() {
    // temperature 0 and continentalness 1 match FrozenOcean (index 0)
    // exactly; humidity 0 also matches SnowyPlains (index 14) exactly:
    // two prototypes tie at distance zero and the first one wins
    let p = point_with_levels(-9000, -9000, -4000, 0, -5000);
    assert_eq!(p.temperature_level, 0);
    assert_eq!(p.humidity_level, 0);
    assert_eq!(p.continentalness_level, 1);
    assert_eq!(pick_biome(&p), Biome::FrozenOcean);
}

#[test]
fn picker_is_total_over_random_levels() {
    // any well-formed point picks exactly one biome without panicking
    let mut s: u32 = 123;
    for _ in 0..200 {
        s = s.wrapping_mul(1664525).wrapping_add(1013904223);
        let t = ((s >> 3) % 24000) as i32 - 12000;
        s = s.wrapping_mul(1664525).wrapping_add(1013904223);
        let h = ((s >> 3) % 24000) as i32 - 12000;
        s = s.wrapping_mul(1664525).wrapping_add(1013904223);
        let c = ((s >> 3) % 24000) as i32 - 12000;
        s = s.wrapping_mul(1664525).wrapping_add(1013904223);
        let e = ((s >> 3) % 24000) as i32 - 12000;
        s = s.wrapping_mul(1664525).wrapping_add(1013904223);
        let w = ((s >> 3) % 24000) as i32 - 12000;
        let p = point_with_levels(t, h, c, e, w);
        let b = pick_biome(&p);
        assert!(b.index() < BIOME_COUNT);
    }
}

#[test]
fn generic_engine_ties_to_first() {
    // a contrived table of two identical prototypes: the earlier wins
    let p = point_with_levels(0, 0, 0, 0, -5000);
    let req = Biome::Forest.requirements();
    let reqs = vec![req, req];
    assert_eq!(pick_min_req(&reqs, &p), 0);
}

#[test]
fn generic_engine_prefers_smaller_distance() {
    let p = point_with_levels(0, 0, 0, 0, -5000);
    // the point's own levels are (2, 2, 3, 3, ...); Forest (2,2) is closer
    // than Desert (4, 0)
    let reqs = vec![Biome::Desert.requirements(), Biome::Forest.requirements()];
    assert_eq!(p.temperature_level, 2);
    assert_eq!(p.humidity_level, 2);
    assert_eq!(pick_min_req(&reqs, &p), 1);
}

#[test]
fn weirdness_penalty_decides_between_twins() {
    // SunflowerPlains and FlowerForest differ only in the required sign
    let p = point_with_levels(0, -9000, 0, 0, 5000);
    let p = Point { temperature_level: 2, ..p };
    assert!(p.is_weird);
    let reqs = vec![
        Biome::FlowerForest.requirements(),
        Biome::SunflowerPlains.requirements(),
    ];
    assert_eq!(pick_min_req(&reqs, &p), 1);
    let q = point_with_levels(0, -9000, 0, 0, -5000);
    let q = Point { temperature_level: 2, ..q };
    assert!(!q.is_weird);
    assert_eq!(pick_min_req(&reqs, &q), 0);
}
