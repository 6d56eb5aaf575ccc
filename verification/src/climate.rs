//! Quantizes raw climate channel values into small ordinal levels.
//!
//! Raw channel values are fixed-point integers in *climate units*: one unit
//! is 1/10000 of the nominal noise range, so a channel value of `-0.45`
//! is written `-4500`. The threshold tables below are part of the
//! generator's data contract; changing them changes every generated world.

use vstd::prelude::*;

verus! {

/// Number of climate units per 1.0 of the nominal noise range.
pub const CLIMATE_SCALE: i32 = 10000;

/// Raw (unquantized) values of the five independent climate channels at one
/// world coordinate, in climate units.
#[derive(Clone, Copy, Debug, PartialEq, Eq, Structural)]
pub struct RawClimate {
    pub temperature: i32,
    pub humidity: i32,
    pub continentalness: i32,
    pub erosion: i32,
    pub weirdness: i32,
}

/// Temperature level: 5 bands with thresholds -0.45, -0.15, 0.2, 0.55.
pub open spec fn temperature_level_spec(t: int) -> u32 {
    if t < -4500 {
        0u32
    } else if t < -1500 {
        1u32
    } else if t < 2000 {
        2u32
    } else if t < 5500 {
        3u32
    } else {
        4u32
    }
}

/// Humidity level: 5 bands with thresholds -0.35, -0.1, 0.1, 0.3.
pub open spec fn humidity_level_spec(h: int) -> u32 {
    if h < -3500 {
        0u32
    } else if h < -1000 {
        1u32
    } else if h < 1000 {
        2u32
    } else if h < 3000 {
        3u32
    } else {
        4u32
    }
}

/// Continentalness level: 6 bands (deep ocean, ocean, coast, near-, mid-,
/// far-inland) with thresholds -0.55, -0.28, -0.05, 0.05, 0.35.
pub open spec fn continentalness_level_spec(c: int) -> u32 {
    if c < -5500 {
        0u32
    } else if c < -2800 {
        1u32
    } else if c < -500 {
        2u32
    } else if c < 500 {
        3u32
    } else if c < 3500 {
        4u32
    } else {
        5u32
    }
}

/// Erosion level: 7 bands with thresholds -0.78, -0.375, -0.2225, 0.05,
/// 0.45, 0.55.
pub open spec fn erosion_level_spec(e: int) -> u32 {
    if e < -7800 {
        0u32
    } else if e < -3750 {
        1u32
    } else if e < -2225 {
        2u32
    } else if e < 500 {
        3u32
    } else if e < 4500 {
        4u32
    } else if e < 5500 {
        5u32
    } else {
        6u32
    }
}

/// Peaks-and-valleys level: 5 bands (valleys, low, mid, high, peaks) with
/// thresholds -0.85, -0.2, 0.2, 0.7.
pub open spec fn peaks_and_valleys_level_spec(v: int) -> u32 {
    if v < -8500 {
        0u32
    } else if v < -2000 {
        1u32
    } else if v < 2000 {
        2u32
    } else if v < 7000 {
        3u32
    } else {
        4u32
    }
}

/// The derived peaks-and-valleys channel, `1 - |3*|w| - 2|` in the nominal
/// range, written in climate units.
pub open spec fn peaks_and_valleys_spec(w: int) -> int {
    10000 - vstd::math::abs(3 * vstd::math::abs(w) - 20000)
}

pub fn temperature_level(t: i32) -> (l: u32)
    ensures
        l == temperature_level_spec(t as int),
{
    if t < -4500 {
        0
    } else if t < -1500 {
        1
    } else if t < 2000 {
        2
    } else if t < 5500 {
        3
    } else {
        4
    }
}

pub fn humidity_level(h: i32) -> (l: u32)
    ensures
        l == humidity_level_spec(h as int),
{
    if h < -3500 {
        0
    } else if h < -1000 {
        1
    } else if h < 1000 {
        2
    } else if h < 3000 {
        3
    } else {
        4
    }
}

pub fn continentalness_level(c: i32) -> (l: u32)
    ensures
        l == continentalness_level_spec(c as int),
{
    if c < -5500 {
        0
    } else if c < -2800 {
        1
    } else if c < -500 {
        2
    } else if c < 500 {
        3
    } else if c < 3500 {
        4
    } else {
        5
    }
}

pub fn erosion_level(e: i32) -> (l: u32)
    ensures
        l == erosion_level_spec(e as int),
{
    if e < -7800 {
        0
    } else if e < -3750 {
        1
    } else if e < -2225 {
        2
    } else if e < 500 {
        3
    } else if e < 4500 {
        4
    } else if e < 5500 {
        5
    } else {
        6
    }
}

pub fn peaks_and_valleys_level(v: i64) -> (l: u32)
    ensures
        l == peaks_and_valleys_level_spec(v as int),
{
    if v < -8500 {
        0
    } else if v < -2000 {
        1
    } else if v < 2000 {
        2
    } else if v < 7000 {
        3
    } else {
        4
    }
}

pub fn peaks_and_valleys(w: i32) -> (v: i64)
    ensures
        v == peaks_and_valleys_spec(w as int),
{
    let wide: i64 = w as i64;
    let a: i64 = if wide < 0 {
        -wide
    } else {
        wide
    };
    let t: i64 = 3 * a - 20000;
    let b: i64 = if t < 0 {
        -t
    } else {
        t
    };
    10000 - b
}

/// A world point with its classified climate: the raw channel values and
/// the ordinal level of each, plus the derived peaks-and-valleys channel
/// and the weirdness sign flag.
#[derive(Clone, Copy, Debug)]
pub struct Point {
    pub x: i32,
    pub y: i32,
    pub temperature: i32,
    pub temperature_level: u32,
    pub humidity: i32,
    pub humidity_level: u32,
    pub continentalness: i32,
    pub continentalness_level: u32,
    pub erosion: i32,
    pub erosion_level: u32,
    pub weirdness: i32,
    pub is_weird: bool,
    pub peaks_and_valleys: i64,
    pub peaks_and_valleys_level: u32,
}

/// The point a given coordinate and raw climate classify to.
pub open spec fn point_spec(x: int, y: int, raw: RawClimate) -> Point {
    Point {
        x: x as i32,
        y: y as i32,
        temperature: raw.temperature,
        temperature_level: temperature_level_spec(raw.temperature as int),
        humidity: raw.humidity,
        humidity_level: humidity_level_spec(raw.humidity as int),
        continentalness: raw.continentalness,
        continentalness_level: continentalness_level_spec(raw.continentalness as int),
        erosion: raw.erosion,
        erosion_level: erosion_level_spec(raw.erosion as int),
        weirdness: raw.weirdness,
        is_weird: raw.weirdness > 0,
        peaks_and_valleys: peaks_and_valleys_spec(raw.weirdness as int) as i64,
        peaks_and_valleys_level: peaks_and_valleys_level_spec(
            peaks_and_valleys_spec(raw.weirdness as int),
        ),
    }
}

impl Point {
    /// All levels lie in their fixed ordinal ranges.
    pub open spec fn wf(self) -> bool {
        &&& self.temperature_level <= 4
        &&& self.humidity_level <= 4
        &&& self.continentalness_level <= 5
        &&& self.erosion_level <= 6
        &&& self.peaks_and_valleys_level <= 4
    }

    /// Classify the raw climate at a world coordinate. Total: every raw
    /// input quantizes to some level in range.
    pub fn new(x: i32, y: i32, raw: RawClimate) -> (p: Point)
        ensures
            p == point_spec(x as int, y as int, raw),
            p.wf(),
    {
        let pv = peaks_and_valleys(raw.weirdness);
        Point {
            x,
            y,
            temperature: raw.temperature,
            temperature_level: temperature_level(raw.temperature),
            humidity: raw.humidity,
            humidity_level: humidity_level(raw.humidity),
            continentalness: raw.continentalness,
            continentalness_level: continentalness_level(raw.continentalness),
            erosion: raw.erosion,
            erosion_level: erosion_level(raw.erosion),
            weirdness: raw.weirdness,
            is_weird: raw.weirdness > 0,
            peaks_and_valleys: pv,
            peaks_and_valleys_level: peaks_and_valleys_level(pv),
        }
    }
}

/// Quantization is monotonic: a larger raw temperature never maps to a
/// smaller level.
pub proof fn lemma_temperature_level_monotonic(a: int, b: int)
    requires
        a <= b,
    ensures
        temperature_level_spec(a) <= temperature_level_spec(b),
{
}

/// Quantization is monotonic: a larger raw humidity never maps to a
/// smaller level.
pub proof fn lemma_humidity_level_monotonic(a: int, b: int)
    requires
        a <= b,
    ensures
        humidity_level_spec(a) <= humidity_level_spec(b),
{
}

/// Quantization is monotonic: a larger raw continentalness never maps to a
/// smaller level.
pub proof fn lemma_continentalness_level_monotonic(a: int, b: int)
    requires
        a <= b,
    ensures
        continentalness_level_spec(a) <= continentalness_level_spec(b),
{
}

/// Quantization is monotonic: a larger raw erosion never maps to a
/// smaller level.
pub proof fn lemma_erosion_level_monotonic(a: int, b: int)
    requires
        a <= b,
    ensures
        erosion_level_spec(a) <= erosion_level_spec(b),
{
}

/// Quantization is monotonic: a larger derived peaks-and-valleys value
/// never maps to a smaller level.
pub proof fn lemma_peaks_and_valleys_level_monotonic(a: int, b: int)
    requires
        a <= b,
    ensures
        peaks_and_valleys_level_spec(a) <= peaks_and_valleys_level_spec(b),
{
}

} // verus!
