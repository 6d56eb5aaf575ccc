use ebonshire::climate::{
    continentalness_level, erosion_level, humidity_level, peaks_and_valleys,
    peaks_and_valleys_level, temperature_level, Point, RawClimate,
};

#[test]
fn temperature_thresholds() {
    assert_eq!(temperature_level(-10000), 0);
    assert_eq!(temperature_level(-4501), 0);
    assert_eq!(temperature_level(-4500), 1);
    assert_eq!(temperature_level(-1501), 1);
    assert_eq!(temperature_level(-1500), 2);
    assert_eq!(temperature_level(1999), 2);
    assert_eq!(temperature_level(2000), 3);
    assert_eq!(temperature_level(5499), 3);
    assert_eq!(temperature_level(5500), 4);
    assert_eq!(temperature_level(10000), 4);
}

#[test]
fn humidity_thresholds() {
    assert_eq!(humidity_level(-3501), 0);
    assert_eq!(humidity_level(-3500), 1);
    assert_eq!(humidity_level(-1000), 2);
    assert_eq!(humidity_level(999), 2);
    assert_eq!(humidity_level(1000), 3);
    assert_eq!(humidity_level(3000), 4);
}

#[test]
fn continentalness_thresholds() {
    assert_eq!(continentalness_level(-5501), 0);
    assert_eq!(continentalness_level(-5500), 1);
    assert_eq!(continentalness_level(-2800), 2);
    assert_eq!(continentalness_level(-500), 3);
    assert_eq!(continentalness_level(499), 3);
    assert_eq!(continentalness_level(500), 4);
    assert_eq!(continentalness_level(3500), 5);
}

#[test]
fn erosion_thresholds() {
    assert_eq!(erosion_level(-7801), 0);
    assert_eq!(erosion_level(-7800), 1);
    assert_eq!(erosion_level(-3750), 2);
    assert_eq!(erosion_level(-2225), 3);
    assert_eq!(erosion_level(500), 4);
    assert_eq!(erosion_level(4500), 5);
    assert_eq!(erosion_level(5500), 6);
}

#[test]
fn peaks_and_valleys_formula() {
    // w = 0: 1 - |0 - 2| = -1 in the nominal range
    assert_eq!(peaks_and_valleys(0), -10000);
    // w = 2/3 (6667 units): |3*6667 - 20000| = 1
    assert_eq!(peaks_and_valleys(6667), 9999);
    assert_eq!(peaks_and_valleys(-6667), 9999);
    // w = 1: 1 - |3 - 2| = 0
    assert_eq!(peaks_and_valleys(10000), 0);
    assert_eq!(peaks_and_valleys_level(-10000), 0);
    assert_eq!(peaks_and_valleys_level(-8500), 1);
    assert_eq!(peaks_and_valleys_level(-2000), 2);
    assert_eq!(peaks_and_valleys_level(2000), 3);
    assert_eq!(peaks_and_valleys_level(7000), 4);
    assert_eq!(peaks_and_valleys_level(9999), 4);
}

#[test]
fn monotone_levels_on_samples() {
    let mut last = 0;
    for v in (-12000..=12000).step_by(37) {
        let l = temperature_level(v);
        assert!(l >= last);
        last = l;
    }
}

#[test]
fn point_classifies_all_channels() {
    let raw = RawClimate {
        temperature: -5000,
        humidity: 2000,
        continentalness: 4000,
        erosion: -8000,
        weirdness: 6667,
    };
    let p = Point::new(3, -4, raw);
    assert_eq!(p.x, 3);
    assert_eq!(p.y, -4);
    assert_eq!(p.temperature_level, 0);
    assert_eq!(p.humidity_level, 3);
    assert_eq!(p.continentalness_level, 5);
    assert_eq!(p.erosion_level, 0);
    assert!(p.is_weird);
    assert_eq!(p.peaks_and_valleys, 9999);
    assert_eq!(p.peaks_and_valleys_level, 4);
}

#[test]
fn point_weirdness_sign() {
    let mut raw = RawClimate {
        temperature: 0,
        humidity: 0,
        continentalness: 0,
        erosion: 0,
        weirdness: 0,
    };
    assert!(!Point::new(0, 0, raw).is_weird);
    raw.weirdness = 1;
    assert!(Point::new(0, 0, raw).is_weird);
    raw.weirdness = -1;
    assert!(!Point::new(0, 0, raw).is_weird);
}
