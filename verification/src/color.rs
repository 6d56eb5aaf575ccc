//! Color values and the static tile palette.
//!
//! `Rgba` mirrors the byte layout a renderer consumes: red, green, blue,
//! alpha. The mappings from discrete tile labels to colors are pure static
//! lookups and part of the versioned data contract.

use vstd::prelude::*;

verus! {

/// An 8-bit-per-channel RGBA color.
#[derive(Clone, Copy, Debug, PartialEq, Eq)]
pub struct Rgba(pub [u8; 4]);

/// Tile labels for the coarse ecozone palette.
#[derive(Clone, Copy, Debug, PartialEq, Eq, Structural)]
pub enum TileId {
    Rainforest,
    Savannah,
    TropicalSeasonalForest,
    Desert,
    SemiDesert,
    XericShrubland,
    Grassland,
    DeciduousForest,
    TemperateRainforest,
    Mediterranean,
    Taiga,
    BorealForest,
    Tundra,
    IceSheet,
    Mountain,
    Swamp,
    River,
    Snow,
    Beach,
    ShallowOcean,
    Ocean,
    DeepOcean,
}

/// The ecozone palette.
pub open spec fn tile_id_color_spec(t: TileId) -> Rgba {
    match t {
        TileId::Rainforest => Rgba([0, 100, 0, 255]),
        TileId::Savannah => Rgba([189, 183, 107, 255]),
        TileId::TropicalSeasonalForest => Rgba([34, 139, 34, 255]),
        TileId::Desert => Rgba([237, 201, 175, 255]),
        TileId::SemiDesert => Rgba([210, 180, 140, 255]),
        TileId::XericShrubland => Rgba([160, 82, 45, 255]),
        TileId::Grassland => Rgba([124, 252, 0, 255]),
        TileId::DeciduousForest => Rgba([34, 139, 34, 255]),
        TileId::TemperateRainforest => Rgba([0, 100, 0, 255]),
        TileId::Mediterranean => Rgba([107, 142, 35, 255]),
        TileId::Taiga => Rgba([46, 139, 87, 255]),
        TileId::BorealForest => Rgba([0, 128, 0, 255]),
        TileId::Tundra => Rgba([176, 196, 222, 255]),
        TileId::IceSheet => Rgba([240, 248, 255, 255]),
        TileId::Mountain => Rgba([139, 137, 137, 255]),
        TileId::Swamp => Rgba([47, 79, 47, 255]),
        TileId::River => Rgba([30, 144, 255, 255]),
        TileId::Snow => Rgba([255, 250, 250, 255]),
        TileId::Beach => Rgba([255, 228, 196, 255]),
        TileId::ShallowOcean => Rgba([70, 130, 180, 255]),
        TileId::Ocean => Rgba([0, 0, 139, 255]),
        TileId::DeepOcean => Rgba([0, 0, 255, 255]),
    }
}

/// Color of an ecozone tile label.
pub fn tile_id_to_color(tile_id: TileId) -> (c: Rgba)
    ensures
        c == tile_id_color_spec(tile_id),
{
    match tile_id {
        TileId::Rainforest => Rgba([0, 100, 0, 255]),
        TileId::Savannah => Rgba([189, 183, 107, 255]),
        TileId::TropicalSeasonalForest => Rgba([34, 139, 34, 255]),
        TileId::Desert => Rgba([237, 201, 175, 255]),
        TileId::SemiDesert => Rgba([210, 180, 140, 255]),
        TileId::XericShrubland => Rgba([160, 82, 45, 255]),
        TileId::Grassland => Rgba([124, 252, 0, 255]),
        TileId::DeciduousForest => Rgba([34, 139, 34, 255]),
        TileId::TemperateRainforest => Rgba([0, 100, 0, 255]),
        TileId::Mediterranean => Rgba([107, 142, 35, 255]),
        TileId::Taiga => Rgba([46, 139, 87, 255]),
        TileId::BorealForest => Rgba([0, 128, 0, 255]),
        TileId::Tundra => Rgba([176, 196, 222, 255]),
        TileId::IceSheet => Rgba([240, 248, 255, 255]),
        TileId::Mountain => Rgba([139, 137, 137, 255]),
        TileId::Swamp => Rgba([47, 79, 47, 255]),
        TileId::River => Rgba([30, 144, 255, 255]),
        TileId::Snow => Rgba([255, 250, 250, 255]),
        TileId::Beach => Rgba([255, 228, 196, 255]),
        TileId::ShallowOcean => Rgba([70, 130, 180, 255]),
        TileId::Ocean => Rgba([0, 0, 139, 255]),
        TileId::DeepOcean => Rgba([0, 0, 255, 255]),
    }
}

} // verus!
