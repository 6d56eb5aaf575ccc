//! The biome alphabet and the nearest-prototype biome picker.
//!
//! Each biome declares a prototype: an optional target level per climate
//! channel (absent means the query's own level is substituted, contributing
//! zero distance) and a weirdness-sign requirement. A point selects the
//! prototype at minimum Euclidean distance in level space, with a fixed
//! penalty of one half added when the weirdness sign disagrees; ties resolve
//! to the first biome in the fixed enumeration order below.

use vstd::prelude::*;

use crate::climate::Point;
use crate::color::Rgba;

verus! {

/// Closed biome alphabet, in the fixed enumeration order that decides ties.
#[derive(Clone, Copy, Debug, PartialEq, Eq, Structural)]
pub enum Biome {
    FrozenOcean,
    DeepFrozenOcean,
    ColdOcean,
    DeepColdOcean,
    Ocean,
    DeepOcean,
    LukewarmOcean,
    DeepLukewarmOcean,
    WarmOcean,
    River,
    FrozenRiver,
    SnowyBeach,
    Beach,
    DesertBeach,
    SnowyPlains,
    IceSpikes,
    Plains,
    FlowerForest,
    SunflowerPlains,
    Savanna,
    Desert,
    SnowyTaiga,
    Taiga,
    BirchForest,
    OldGrowthBirchForest,
    Jungle,
    SparseJungle,
    OldGrowthSpruceTaiga,
    OldGrowthPineTaiga,
    Forest,
    DarkForest,
    BambooJungle,
    Badlands,
    ErodedBadlands,
    WoodedBadlands,
    Meadow,
    CherryGrove,
    PaleGarden,
    SavannaPlateau,
    WindsweptGravellyHills,
    WindsweptHills,
    WindsweptForest,
    JaggedPeaks,
    FrozenPeaks,
    StonyPeaks,
}

/// How many biomes the alphabet holds.
pub const BIOME_COUNT: u32 = 45;

/// Required weirdness sign of a biome prototype.
#[derive(Clone, Copy, Debug, PartialEq, Eq, Structural)]
pub enum WeirdnessSign {
    Any,
    Positive,
    Negative,
}

/// One biome prototype: a target level per channel (`None` is a wildcard
/// that matches the query's own level exactly) and a weirdness-sign
/// requirement.
#[derive(Clone, Copy, Debug)]
pub struct BiomeReq {
    pub temp_level: Option<u32>,
    pub humidity_level: Option<u32>,
    pub continentalness_level: Option<u32>,
    pub erosion_level: Option<u32>,
    pub pv_level: Option<u32>,
    pub weirdness: WeirdnessSign,
}

pub open spec fn req_s(
    t: Option<u32>,
    h: Option<u32>,
    c: Option<u32>,
    e: Option<u32>,
    pv: Option<u32>,
    w: WeirdnessSign,
) -> BiomeReq {
    BiomeReq {
        temp_level: t,
        humidity_level: h,
        continentalness_level: c,
        erosion_level: e,
        pv_level: pv,
        weirdness: w,
    }
}

fn req(
    t: Option<u32>,
    h: Option<u32>,
    c: Option<u32>,
    e: Option<u32>,
    pv: Option<u32>,
    w: WeirdnessSign,
) -> (r: BiomeReq)
    ensures
        r == req_s(t, h, c, e, pv, w),
{
    BiomeReq {
        temp_level: t,
        humidity_level: h,
        continentalness_level: c,
        erosion_level: e,
        pv_level: pv,
        weirdness: w,
    }
}

/// The prototype table. Continentalness levels read: 0 deep ocean, 1 ocean,
/// 2 coast, 3..5 inland; rivers sit in peaks-and-valleys level 0 (valleys);
/// peaks in level 4.
pub open spec fn requirements_spec(b: Biome) -> BiomeReq {
    match b {
        Biome::FrozenOcean => req_s(Some(0), None, Some(1), None, None, WeirdnessSign::Any),
        Biome::DeepFrozenOcean => req_s(Some(0), None, Some(0), None, None, WeirdnessSign::Any),
        Biome::ColdOcean => req_s(Some(1), None, Some(1), None, None, WeirdnessSign::Any),
        Biome::DeepColdOcean => req_s(Some(1), None, Some(0), None, None, WeirdnessSign::Any),
        Biome::Ocean => req_s(Some(2), None, Some(1), None, None, WeirdnessSign::Any),
        Biome::DeepOcean => req_s(Some(2), None, Some(0), None, None, WeirdnessSign::Any),
        Biome::LukewarmOcean => req_s(Some(3), None, Some(1), None, None, WeirdnessSign::Any),
        Biome::DeepLukewarmOcean => req_s(Some(3), None, Some(0), None, None, WeirdnessSign::Any),
        Biome::WarmOcean => req_s(Some(4), None, Some(1), None, None, WeirdnessSign::Any),
        Biome::FrozenRiver => req_s(Some(0), None, None, None, Some(0), WeirdnessSign::Any),
        Biome::River => req_s(None, None, None, None, Some(0), WeirdnessSign::Any),
        Biome::SnowyBeach => req_s(Some(0), None, Some(2), None, None, WeirdnessSign::Any),
        Biome::Beach => req_s(Some(2), None, Some(2), None, None, WeirdnessSign::Any),
        Biome::DesertBeach => req_s(Some(4), None, Some(2), None, None, WeirdnessSign::Any),
        Biome::SnowyPlains => req_s(Some(0), Some(0), None, None, None, WeirdnessSign::Any),
        Biome::IceSpikes => req_s(Some(0), Some(0), None, None, None, WeirdnessSign::Positive),
        Biome::Plains => req_s(Some(1), Some(1), None, None, None, WeirdnessSign::Any),
        Biome::FlowerForest => req_s(Some(2), Some(0), None, None, None, WeirdnessSign::Negative),
        Biome::SunflowerPlains => req_s(
            Some(2),
            Some(0),
            None,
            None,
            None,
            WeirdnessSign::Positive,
        ),
        Biome::Savanna => req_s(Some(3), Some(0), None, None, None, WeirdnessSign::Any),
        Biome::Desert => req_s(Some(4), Some(0), None, None, None, WeirdnessSign::Any),
        Biome::SnowyTaiga => req_s(Some(0), Some(2), None, None, None, WeirdnessSign::Positive),
        Biome::Taiga => req_s(Some(1), Some(3), None, None, None, WeirdnessSign::Any),
        Biome::BirchForest => req_s(Some(2), Some(3), None, None, None, WeirdnessSign::Negative),
        Biome::OldGrowthBirchForest => req_s(
            Some(2),
            Some(3),
            None,
            None,
            None,
            WeirdnessSign::Positive,
        ),
        Biome::Jungle => req_s(Some(3), Some(3), None, None, None, WeirdnessSign::Negative),
        Biome::SparseJungle => req_s(Some(3), Some(3), None, None, None, WeirdnessSign::Positive),
        Biome::OldGrowthSpruceTaiga => req_s(
            Some(4),
            Some(4),
            None,
            None,
            None,
            WeirdnessSign::Negative,
        ),
        Biome::OldGrowthPineTaiga => req_s(
            Some(4),
            Some(4),
            None,
            None,
            None,
            WeirdnessSign::Positive,
        ),
        Biome::Forest => req_s(Some(2), Some(2), None, None, None, WeirdnessSign::Any),
        Biome::DarkForest => req_s(Some(3), Some(4), None, None, None, WeirdnessSign::Any),
        Biome::BambooJungle => req_s(Some(3), Some(4), None, None, None, WeirdnessSign::Positive),
        Biome::Badlands => req_s(Some(4), Some(2), None, None, None, WeirdnessSign::Any),
        Biome::ErodedBadlands => req_s(Some(4), Some(0), None, None, None, WeirdnessSign::Positive),
        Biome::WoodedBadlands => req_s(Some(4), Some(3), None, None, None, WeirdnessSign::Any),
        Biome::Meadow => req_s(Some(2), Some(1), None, None, Some(2), WeirdnessSign::Any),
        Biome::CherryGrove => req_s(Some(2), Some(1), None, None, Some(2), WeirdnessSign::Positive),
        Biome::PaleGarden => req_s(Some(4), Some(4), None, None, Some(2), WeirdnessSign::Any),
        Biome::SavannaPlateau => req_s(Some(3), Some(0), None, None, Some(2), WeirdnessSign::Any),
        Biome::WindsweptGravellyHills => req_s(
            Some(0),
            Some(0),
            None,
            Some(5),
            None,
            WeirdnessSign::Any,
        ),
        Biome::WindsweptHills => req_s(Some(2), Some(2), None, Some(5), None, WeirdnessSign::Any),
        Biome::WindsweptForest => req_s(Some(2), Some(3), None, Some(5), None, WeirdnessSign::Any),
        Biome::JaggedPeaks => req_s(
            Some(1),
            None,
            None,
            Some(0),
            Some(4),
            WeirdnessSign::Negative,
        ),
        Biome::FrozenPeaks => req_s(
            Some(1),
            None,
            None,
            Some(0),
            Some(4),
            WeirdnessSign::Positive,
        ),
        Biome::StonyPeaks => req_s(Some(3), None, None, Some(0), Some(4), WeirdnessSign::Any),
    }
}

/// The biome palette: oceans and rivers all render as water blue; land
/// biomes keep distinct colors.
pub open spec fn biome_color_spec(b: Biome) -> Rgba {
    match b {
        Biome::FrozenOcean
        | Biome::DeepFrozenOcean
        | Biome::ColdOcean
        | Biome::DeepColdOcean
        | Biome::Ocean
        | Biome::DeepOcean
        | Biome::LukewarmOcean
        | Biome::DeepLukewarmOcean
        | Biome::WarmOcean
        | Biome::River
        | Biome::FrozenRiver => Rgba([0, 0, 255, 255]),
        Biome::SnowyBeach => Rgba([240, 240, 255, 255]),
        Biome::Beach => Rgba([238, 214, 175, 255]),
        Biome::DesertBeach => Rgba([237, 201, 175, 255]),
        Biome::SnowyPlains => Rgba([255, 255, 255, 255]),
        Biome::IceSpikes => Rgba([200, 240, 255, 255]),
        Biome::Plains => Rgba([124, 252, 0, 255]),
        Biome::FlowerForest => Rgba([205, 133, 63, 255]),
        Biome::SunflowerPlains => Rgba([255, 215, 0, 255]),
        Biome::Savanna => Rgba([189, 183, 107, 255]),
        Biome::Desert => Rgba([237, 201, 175, 255]),
        Biome::SnowyTaiga => Rgba([175, 238, 238, 255]),
        Biome::Taiga => Rgba([34, 139, 34, 255]),
        Biome::BirchForest => Rgba([152, 251, 152, 255]),
        Biome::OldGrowthBirchForest => Rgba([143, 188, 143, 255]),
        Biome::Jungle => Rgba([0, 100, 0, 255]),
        Biome::SparseJungle => Rgba([60, 179, 113, 255]),
        Biome::OldGrowthSpruceTaiga => Rgba([0, 128, 0, 255]),
        Biome::OldGrowthPineTaiga => Rgba([46, 139, 87, 255]),
        Biome::Forest => Rgba([34, 139, 34, 255]),
        Biome::DarkForest => Rgba([0, 80, 0, 255]),
        Biome::BambooJungle => Rgba([107, 142, 35, 255]),
        Biome::Badlands => Rgba([210, 105, 30, 255]),
        Biome::ErodedBadlands => Rgba([233, 150, 122, 255]),
        Biome::WoodedBadlands => Rgba([139, 69, 19, 255]),
        Biome::Meadow => Rgba([124, 252, 0, 255]),
        Biome::CherryGrove => Rgba([255, 182, 193, 255]),
        Biome::PaleGarden => Rgba([255, 239, 213, 255]),
        Biome::SavannaPlateau => Rgba([189, 183, 107, 255]),
        Biome::WindsweptGravellyHills => Rgba([169, 169, 169, 255]),
        Biome::WindsweptHills => Rgba([85, 107, 47, 255]),
        Biome::WindsweptForest => Rgba([34, 139, 34, 255]),
        Biome::JaggedPeaks => Rgba([220, 220, 220, 255]),
        Biome::FrozenPeaks => Rgba([245, 245, 255, 255]),
        Biome::StonyPeaks => Rgba([112, 128, 144, 255]),
    }
}

/// Position of a biome in the fixed enumeration order.
pub open spec fn biome_index_spec(b: Biome) -> int {
    match b {
        Biome::FrozenOcean => 0,
        Biome::DeepFrozenOcean => 1,
        Biome::ColdOcean => 2,
        Biome::DeepColdOcean => 3,
        Biome::Ocean => 4,
        Biome::DeepOcean => 5,
        Biome::LukewarmOcean => 6,
        Biome::DeepLukewarmOcean => 7,
        Biome::WarmOcean => 8,
        Biome::River => 9,
        Biome::FrozenRiver => 10,
        Biome::SnowyBeach => 11,
        Biome::Beach => 12,
        Biome::DesertBeach => 13,
        Biome::SnowyPlains => 14,
        Biome::IceSpikes => 15,
        Biome::Plains => 16,
        Biome::FlowerForest => 17,
        Biome::SunflowerPlains => 18,
        Biome::Savanna => 19,
        Biome::Desert => 20,
        Biome::SnowyTaiga => 21,
        Biome::Taiga => 22,
        Biome::BirchForest => 23,
        Biome::OldGrowthBirchForest => 24,
        Biome::Jungle => 25,
        Biome::SparseJungle => 26,
        Biome::OldGrowthSpruceTaiga => 27,
        Biome::OldGrowthPineTaiga => 28,
        Biome::Forest => 29,
        Biome::DarkForest => 30,
        Biome::BambooJungle => 31,
        Biome::Badlands => 32,
        Biome::ErodedBadlands => 33,
        Biome::WoodedBadlands => 34,
        Biome::Meadow => 35,
        Biome::CherryGrove => 36,
        Biome::PaleGarden => 37,
        Biome::SavannaPlateau => 38,
        Biome::WindsweptGravellyHills => 39,
        Biome::WindsweptHills => 40,
        Biome::WindsweptForest => 41,
        Biome::JaggedPeaks => 42,
        Biome::FrozenPeaks => 43,
        Biome::StonyPeaks => 44,
    }
}

/// The biome at a position of the fixed enumeration order.
pub open spec fn biome_of_index_spec(i: int) -> Biome {
    if i == 0 {
        Biome::FrozenOcean
    } else if i == 1 {
        Biome::DeepFrozenOcean
    } else if i == 2 {
        Biome::ColdOcean
    } else if i == 3 {
        Biome::DeepColdOcean
    } else if i == 4 {
        Biome::Ocean
    } else if i == 5 {
        Biome::DeepOcean
    } else if i == 6 {
        Biome::LukewarmOcean
    } else if i == 7 {
        Biome::DeepLukewarmOcean
    } else if i == 8 {
        Biome::WarmOcean
    } else if i == 9 {
        Biome::River
    } else if i == 10 {
        Biome::FrozenRiver
    } else if i == 11 {
        Biome::SnowyBeach
    } else if i == 12 {
        Biome::Beach
    } else if i == 13 {
        Biome::DesertBeach
    } else if i == 14 {
        Biome::SnowyPlains
    } else if i == 15 {
        Biome::IceSpikes
    } else if i == 16 {
        Biome::Plains
    } else if i == 17 {
        Biome::FlowerForest
    } else if i == 18 {
        Biome::SunflowerPlains
    } else if i == 19 {
        Biome::Savanna
    } else if i == 20 {
        Biome::Desert
    } else if i == 21 {
        Biome::SnowyTaiga
    } else if i == 22 {
        Biome::Taiga
    } else if i == 23 {
        Biome::BirchForest
    } else if i == 24 {
        Biome::OldGrowthBirchForest
    } else if i == 25 {
        Biome::Jungle
    } else if i == 26 {
        Biome::SparseJungle
    } else if i == 27 {
        Biome::OldGrowthSpruceTaiga
    } else if i == 28 {
        Biome::OldGrowthPineTaiga
    } else if i == 29 {
        Biome::Forest
    } else if i == 30 {
        Biome::DarkForest
    } else if i == 31 {
        Biome::BambooJungle
    } else if i == 32 {
        Biome::Badlands
    } else if i == 33 {
        Biome::ErodedBadlands
    } else if i == 34 {
        Biome::WoodedBadlands
    } else if i == 35 {
        Biome::Meadow
    } else if i == 36 {
        Biome::CherryGrove
    } else if i == 37 {
        Biome::PaleGarden
    } else if i == 38 {
        Biome::SavannaPlateau
    } else if i == 39 {
        Biome::WindsweptGravellyHills
    } else if i == 40 {
        Biome::WindsweptHills
    } else if i == 41 {
        Biome::WindsweptForest
    } else if i == 42 {
        Biome::JaggedPeaks
    } else if i == 43 {
        Biome::FrozenPeaks
    } else {
        Biome::StonyPeaks
    }
}

impl Biome {
    /// This biome's prototype.
    #[verifier::rlimit(60)]
    pub fn requirements(&self) -> (r: BiomeReq)
        ensures
            r == requirements_spec(*self),
    {
        match self {
            Biome::FrozenOcean => req(Some(0), None, Some(1), None, None, WeirdnessSign::Any),
            Biome::DeepFrozenOcean => req(Some(0), None, Some(0), None, None, WeirdnessSign::Any),
            Biome::ColdOcean => req(Some(1), None, Some(1), None, None, WeirdnessSign::Any),
            Biome::DeepColdOcean => req(Some(1), None, Some(0), None, None, WeirdnessSign::Any),
            Biome::Ocean => req(Some(2), None, Some(1), None, None, WeirdnessSign::Any),
            Biome::DeepOcean => req(Some(2), None, Some(0), None, None, WeirdnessSign::Any),
            Biome::LukewarmOcean => req(Some(3), None, Some(1), None, None, WeirdnessSign::Any),
            Biome::DeepLukewarmOcean => req(Some(3), None, Some(0), None, None, WeirdnessSign::Any),
            Biome::WarmOcean => req(Some(4), None, Some(1), None, None, WeirdnessSign::Any),
            Biome::FrozenRiver => req(Some(0), None, None, None, Some(0), WeirdnessSign::Any),
            Biome::River => req(None, None, None, None, Some(0), WeirdnessSign::Any),
            Biome::SnowyBeach => req(Some(0), None, Some(2), None, None, WeirdnessSign::Any),
            Biome::Beach => req(Some(2), None, Some(2), None, None, WeirdnessSign::Any),
            Biome::DesertBeach => req(Some(4), None, Some(2), None, None, WeirdnessSign::Any),
            Biome::SnowyPlains => req(Some(0), Some(0), None, None, None, WeirdnessSign::Any),
            Biome::IceSpikes => req(Some(0), Some(0), None, None, None, WeirdnessSign::Positive),
            Biome::Plains => req(Some(1), Some(1), None, None, None, WeirdnessSign::Any),
            Biome::FlowerForest => req(Some(2), Some(0), None, None, None, WeirdnessSign::Negative),
            Biome::SunflowerPlains => req(
                Some(2),
                Some(0),
                None,
                None,
                None,
                WeirdnessSign::Positive,
            ),
            Biome::Savanna => req(Some(3), Some(0), None, None, None, WeirdnessSign::Any),
            Biome::Desert => req(Some(4), Some(0), None, None, None, WeirdnessSign::Any),
            Biome::SnowyTaiga => req(Some(0), Some(2), None, None, None, WeirdnessSign::Positive),
            Biome::Taiga => req(Some(1), Some(3), None, None, None, WeirdnessSign::Any),
            Biome::BirchForest => req(Some(2), Some(3), None, None, None, WeirdnessSign::Negative),
            Biome::OldGrowthBirchForest => req(
                Some(2),
                Some(3),
                None,
                None,
                None,
                WeirdnessSign::Positive,
            ),
            Biome::Jungle => req(Some(3), Some(3), None, None, None, WeirdnessSign::Negative),
            Biome::SparseJungle => req(Some(3), Some(3), None, None, None, WeirdnessSign::Positive),
            Biome::OldGrowthSpruceTaiga => req(
                Some(4),
                Some(4),
                None,
                None,
                None,
                WeirdnessSign::Negative,
            ),
            Biome::OldGrowthPineTaiga => req(
                Some(4),
                Some(4),
                None,
                None,
                None,
                WeirdnessSign::Positive,
            ),
            Biome::Forest => req(Some(2), Some(2), None, None, None, WeirdnessSign::Any),
            Biome::DarkForest => req(Some(3), Some(4), None, None, None, WeirdnessSign::Any),
            Biome::BambooJungle => req(Some(3), Some(4), None, None, None, WeirdnessSign::Positive),
            Biome::Badlands => req(Some(4), Some(2), None, None, None, WeirdnessSign::Any),
            Biome::ErodedBadlands => req(
                Some(4),
                Some(0),
                None,
                None,
                None,
                WeirdnessSign::Positive,
            ),
            Biome::WoodedBadlands => req(Some(4), Some(3), None, None, None, WeirdnessSign::Any),
            Biome::Meadow => req(Some(2), Some(1), None, None, Some(2), WeirdnessSign::Any),
            Biome::CherryGrove => req(
                Some(2),
                Some(1),
                None,
                None,
                Some(2),
                WeirdnessSign::Positive,
            ),
            Biome::PaleGarden => req(Some(4), Some(4), None, None, Some(2), WeirdnessSign::Any),
            Biome::SavannaPlateau => req(Some(3), Some(0), None, None, Some(2), WeirdnessSign::Any),
            Biome::WindsweptGravellyHills => req(
                Some(0),
                Some(0),
                None,
                Some(5),
                None,
                WeirdnessSign::Any,
            ),
            Biome::WindsweptHills => req(Some(2), Some(2), None, Some(5), None, WeirdnessSign::Any),
            Biome::WindsweptForest => req(
                Some(2),
                Some(3),
                None,
                Some(5),
                None,
                WeirdnessSign::Any,
            ),
            Biome::JaggedPeaks => req(
                Some(1),
                None,
                None,
                Some(0),
                Some(4),
                WeirdnessSign::Negative,
            ),
            Biome::FrozenPeaks => req(
                Some(1),
                None,
                None,
                Some(0),
                Some(4),
                WeirdnessSign::Positive,
            ),
            Biome::StonyPeaks => req(Some(3), None, None, Some(0), Some(4), WeirdnessSign::Any),
        }
    }

    /// Render color of this biome.
    #[verifier::rlimit(60)]
    pub fn get_color(&self) -> (c: Rgba)
        ensures
            c == biome_color_spec(*self),
    {
        match self {
            Biome::FrozenOcean
            | Biome::DeepFrozenOcean
            | Biome::ColdOcean
            | Biome::DeepColdOcean
            | Biome::Ocean
            | Biome::DeepOcean
            | Biome::LukewarmOcean
            | Biome::DeepLukewarmOcean
            | Biome::WarmOcean
            | Biome::River
            | Biome::FrozenRiver => Rgba([0, 0, 255, 255]),
            Biome::SnowyBeach => Rgba([240, 240, 255, 255]),
            Biome::Beach => Rgba([238, 214, 175, 255]),
            Biome::DesertBeach => Rgba([237, 201, 175, 255]),
            Biome::SnowyPlains => Rgba([255, 255, 255, 255]),
            Biome::IceSpikes => Rgba([200, 240, 255, 255]),
            Biome::Plains => Rgba([124, 252, 0, 255]),
            Biome::FlowerForest => Rgba([205, 133, 63, 255]),
            Biome::SunflowerPlains => Rgba([255, 215, 0, 255]),
            Biome::Savanna => Rgba([189, 183, 107, 255]),
            Biome::Desert => Rgba([237, 201, 175, 255]),
            Biome::SnowyTaiga => Rgba([175, 238, 238, 255]),
            Biome::Taiga => Rgba([34, 139, 34, 255]),
            Biome::BirchForest => Rgba([152, 251, 152, 255]),
            Biome::OldGrowthBirchForest => Rgba([143, 188, 143, 255]),
            Biome::Jungle => Rgba([0, 100, 0, 255]),
            Biome::SparseJungle => Rgba([60, 179, 113, 255]),
            Biome::OldGrowthSpruceTaiga => Rgba([0, 128, 0, 255]),
            Biome::OldGrowthPineTaiga => Rgba([46, 139, 87, 255]),
            Biome::Forest => Rgba([34, 139, 34, 255]),
            Biome::DarkForest => Rgba([0, 80, 0, 255]),
            Biome::BambooJungle => Rgba([107, 142, 35, 255]),
            Biome::Badlands => Rgba([210, 105, 30, 255]),
            Biome::ErodedBadlands => Rgba([233, 150, 122, 255]),
            Biome::WoodedBadlands => Rgba([139, 69, 19, 255]),
            Biome::Meadow => Rgba([124, 252, 0, 255]),
            Biome::CherryGrove => Rgba([255, 182, 193, 255]),
            Biome::PaleGarden => Rgba([255, 239, 213, 255]),
            Biome::SavannaPlateau => Rgba([189, 183, 107, 255]),
            Biome::WindsweptGravellyHills => Rgba([169, 169, 169, 255]),
            Biome::WindsweptHills => Rgba([85, 107, 47, 255]),
            Biome::WindsweptForest => Rgba([34, 139, 34, 255]),
            Biome::JaggedPeaks => Rgba([220, 220, 220, 255]),
            Biome::FrozenPeaks => Rgba([245, 245, 255, 255]),
            Biome::StonyPeaks => Rgba([112, 128, 144, 255]),
        }
    }

    /// Position of this biome in the fixed enumeration order; doubles as
    /// its tile id.
    pub fn index(&self) -> (i: u32)
        ensures
            i == biome_index_spec(*self),
            i < BIOME_COUNT,
    {
        match self {
            Biome::FrozenOcean => 0,
            Biome::DeepFrozenOcean => 1,
            Biome::ColdOcean => 2,
            Biome::DeepColdOcean => 3,
            Biome::Ocean => 4,
            Biome::DeepOcean => 5,
            Biome::LukewarmOcean => 6,
            Biome::DeepLukewarmOcean => 7,
            Biome::WarmOcean => 8,
            Biome::River => 9,
            Biome::FrozenRiver => 10,
            Biome::SnowyBeach => 11,
            Biome::Beach => 12,
            Biome::DesertBeach => 13,
            Biome::SnowyPlains => 14,
            Biome::IceSpikes => 15,
            Biome::Plains => 16,
            Biome::FlowerForest => 17,
            Biome::SunflowerPlains => 18,
            Biome::Savanna => 19,
            Biome::Desert => 20,
            Biome::SnowyTaiga => 21,
            Biome::Taiga => 22,
            Biome::BirchForest => 23,
            Biome::OldGrowthBirchForest => 24,
            Biome::Jungle => 25,
            Biome::SparseJungle => 26,
            Biome::OldGrowthSpruceTaiga => 27,
            Biome::OldGrowthPineTaiga => 28,
            Biome::Forest => 29,
            Biome::DarkForest => 30,
            Biome::BambooJungle => 31,
            Biome::Badlands => 32,
            Biome::ErodedBadlands => 33,
            Biome::WoodedBadlands => 34,
            Biome::Meadow => 35,
            Biome::CherryGrove => 36,
            Biome::PaleGarden => 37,
            Biome::SavannaPlateau => 38,
            Biome::WindsweptGravellyHills => 39,
            Biome::WindsweptHills => 40,
            Biome::WindsweptForest => 41,
            Biome::JaggedPeaks => 42,
            Biome::FrozenPeaks => 43,
            Biome::StonyPeaks => 44,
        }
    }

    /// The biome at a position of the fixed enumeration order.
    pub fn from_index(i: u32) -> (b: Biome)
        requires
            i < BIOME_COUNT,
        ensures
            b == biome_of_index_spec(i as int),
    {
        if i == 0 {
            Biome::FrozenOcean
        } else if i == 1 {
            Biome::DeepFrozenOcean
        } else if i == 2 {
            Biome::ColdOcean
        } else if i == 3 {
            Biome::DeepColdOcean
        } else if i == 4 {
            Biome::Ocean
        } else if i == 5 {
            Biome::DeepOcean
        } else if i == 6 {
            Biome::LukewarmOcean
        } else if i == 7 {
            Biome::DeepLukewarmOcean
        } else if i == 8 {
            Biome::WarmOcean
        } else if i == 9 {
            Biome::River
        } else if i == 10 {
            Biome::FrozenRiver
        } else if i == 11 {
            Biome::SnowyBeach
        } else if i == 12 {
            Biome::Beach
        } else if i == 13 {
            Biome::DesertBeach
        } else if i == 14 {
            Biome::SnowyPlains
        } else if i == 15 {
            Biome::IceSpikes
        } else if i == 16 {
            Biome::Plains
        } else if i == 17 {
            Biome::FlowerForest
        } else if i == 18 {
            Biome::SunflowerPlains
        } else if i == 19 {
            Biome::Savanna
        } else if i == 20 {
            Biome::Desert
        } else if i == 21 {
            Biome::SnowyTaiga
        } else if i == 22 {
            Biome::Taiga
        } else if i == 23 {
            Biome::BirchForest
        } else if i == 24 {
            Biome::OldGrowthBirchForest
        } else if i == 25 {
            Biome::Jungle
        } else if i == 26 {
            Biome::SparseJungle
        } else if i == 27 {
            Biome::OldGrowthSpruceTaiga
        } else if i == 28 {
            Biome::OldGrowthPineTaiga
        } else if i == 29 {
            Biome::Forest
        } else if i == 30 {
            Biome::DarkForest
        } else if i == 31 {
            Biome::BambooJungle
        } else if i == 32 {
            Biome::Badlands
        } else if i == 33 {
            Biome::ErodedBadlands
        } else if i == 34 {
            Biome::WoodedBadlands
        } else if i == 35 {
            Biome::Meadow
        } else if i == 36 {
            Biome::CherryGrove
        } else if i == 37 {
            Biome::PaleGarden
        } else if i == 38 {
            Biome::SavannaPlateau
        } else if i == 39 {
            Biome::WindsweptGravellyHills
        } else if i == 40 {
            Biome::WindsweptHills
        } else if i == 41 {
            Biome::WindsweptForest
        } else if i == 42 {
            Biome::JaggedPeaks
        } else if i == 43 {
            Biome::FrozenPeaks
        } else {
            Biome::StonyPeaks
        }
    }

    /// Every biome of the alphabet has an index below `BIOME_COUNT`, and
    /// indexing leads back to the biome.
    pub proof fn lemma_index_roundtrip(b: Biome)
        ensures
            0 <= biome_index_spec(b) < BIOME_COUNT,
            biome_of_index_spec(biome_index_spec(b)) == b,
    {
    }

    /// Taking the biome at a valid position and asking for its index leads
    /// back to the position.
    pub proof fn lemma_of_index_roundtrip(i: int)
        requires
            0 <= i < BIOME_COUNT,
        ensures
            biome_index_spec(biome_of_index_spec(i)) == i,
    {
    }

    /// Every biome of the alphabet, in the fixed enumeration order.
    pub fn all() -> (v: Vec<Biome>)
        ensures
            v@.len() == BIOME_COUNT,
            forall|i: int| 0 <= i < v@.len() ==> v@[i] == biome_of_index_spec(i),
    {
        let mut v: Vec<Biome> = Vec::new();
        for i in 0..BIOME_COUNT
            invariant
                v@.len() == i,
                forall|j: int| 0 <= j < i ==> v@[j] == biome_of_index_spec(j),
        {
            v.push(Biome::from_index(i));
        }
        v
    }
}

} // verus!
