//! Orientation settings of hexagonal maps.
use vstd::prelude::*;

verus! {

/// Which way the hexagons of a map point.
#[derive(Clone, Copy, Debug, PartialEq, Eq, Hash, Structural)]
pub enum HexOrientation {
    Pointy,
    Flat,
}

/// The offset-coordinate convention a hexagonal map is stored in.
#[derive(Clone, Copy, Debug, PartialEq, Eq, Hash, Structural)]
pub enum OffsetHexMode {
    OddRows,
    OddColumns,
}

/// The one offset convention supported for each orientation.
pub open spec fn offset_mode_of(o: HexOrientation) -> OffsetHexMode {
    match o {
        HexOrientation::Pointy => OffsetHexMode::OddRows,
        HexOrientation::Flat => OffsetHexMode::OddColumns,
    }
}

/// The presentation rotation of each orientation, in whole degrees.
pub open spec fn rotation_degrees_of(o: HexOrientation) -> u32 {
    match o {
        HexOrientation::Pointy => 0,
        HexOrientation::Flat => 30,
    }
}

/// Pointy hexagons are stored in odd-rows offset coordinates, flat ones in
/// odd-columns offset coordinates.
pub fn hex_offset_from_orientation(orientation: HexOrientation) -> (r: OffsetHexMode)
    ensures
        r == offset_mode_of(orientation),
{
    match orientation {
        HexOrientation::Pointy => OffsetHexMode::OddRows,
        HexOrientation::Flat => OffsetHexMode::OddColumns,
    }
}

/// The rotation about the view axis, in degrees, at which the hexagons of a
/// map with this orientation are drawn: 0 for pointy, 30 for flat.
pub fn hex_rotation_degrees(orientation: HexOrientation) -> (r: u32)
    ensures
        r == rotation_degrees_of(orientation),
{
    match orientation {
        HexOrientation::Pointy => 0,
        HexOrientation::Flat => 30,
    }
}

} // verus!
