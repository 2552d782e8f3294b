//! Plain records of decoded LDtk data, reduced to the fields that placement reads.

use vstd::prelude::*;

verus! {

/// A pair of signed integers: a pixel position, a grid position or a size.
#[derive(Clone, Copy, Debug, PartialEq, Eq, Structural, Hash, Default)]
pub struct IVec2 {
    pub x: i32,
    pub y: i32,
}

impl IVec2 {
    pub fn new(x: i32, y: i32) -> (v: IVec2)
        ensures
            v == (IVec2 { x, y }),
    {
        IVec2 { x, y }
    }

    /// The vector with both components equal to `v`.
    pub fn splat(v: i32) -> (r: IVec2)
        ensures
            r == (IVec2 { x: v, y: v }),
    {
        IVec2 { x: v, y: v }
    }
}

/// The position of a tile, counted in tiles from the bottom-left corner of its layer.
#[derive(Clone, Copy, Debug, PartialEq, Eq, Structural, Hash, Default)]
pub struct TilePos(pub u32, pub u32);

/// A point whose coordinates are counted in halves, so that the centre of a
/// tile of odd size is still an integer pair. The point it stands for is
/// `(x / 2, y / 2)`.
#[derive(Clone, Copy, Debug, PartialEq, Eq, Structural, Hash, Default)]
pub struct HalfVec2 {
    pub x: i128,
    pub y: i128,
}

/// Static description of an entity type.
#[derive(Clone, Copy, Debug, PartialEq, Eq, Structural, Hash, Default)]
pub struct EntityDefinition {
    pub uid: i32,
    pub width: i32,
    pub height: i32,
}

/// Static description of a layer.
#[derive(Clone, Copy, Debug, PartialEq, Eq, Structural, Hash, Default)]
pub struct LayerDefinition {
    pub uid: i32,
    pub grid_size: i32,
}

/// Static description of a tileset: its size in cells and the gap between cells.
#[derive(Clone, Copy, Debug, PartialEq, Eq, Structural, Hash, Default)]
pub struct TilesetDefinition {
    pub c_wid: i32,
    pub c_hei: i32,
    pub spacing: i32,
}

/// The region of a tileset that an entity instance is drawn from, as
/// `[x, y, width, height]` in pixels.
#[derive(Clone, Copy, Debug, PartialEq, Eq, Hash, Default)]
pub struct EntityInstanceTile {
    pub src_rect: [i32; 4],
}

/// One placed occurrence of an entity type.
#[derive(Clone, Copy, Debug, PartialEq, Eq, Hash, Default)]
pub struct EntityInstance {
    /// Pixel position, origin top-left, Y down.
    pub px: IVec2,
    /// Grid position, origin top-left, Y down.
    pub grid: IVec2,
    /// Uid of the entity's definition.
    pub def_uid: i32,
    /// Rendered width in pixels.
    pub width: i32,
    /// Rendered height in pixels.
    pub height: i32,
    /// The tileset region the instance is drawn from, if any.
    pub tile: Option<EntityInstanceTile>,
}

/// One layer of one level.
#[derive(Clone, Copy, Debug, PartialEq, Eq, Structural, Hash, Default)]
pub struct LayerInstance {
    pub level_id: i32,
    pub layer_def_uid: i32,
    /// Height of the layer in grid cells.
    pub c_hei: i32,
}

/// Where an entity instance goes and how large it is drawn, before its
/// pivot is applied.
///
/// For a pivot `(px, py)` the centre of the visual lies at
/// `pivot_point + size * (1/2 - px, py - 1/2)`, and the visual is scaled by
/// `size / natural_size` on each axis.
#[derive(Clone, Copy, Debug, PartialEq, Eq, Structural, Hash, Default)]
pub struct EntityPlacement {
    /// The instance's pixel position, carried into the Y-up space.
    pub pivot_point: IVec2,
    /// The size the instance is drawn at.
    pub size: IVec2,
    /// The size of what is drawn, unscaled: that of the tileset region where
    /// the instance has one, that of the definition otherwise.
    pub natural_size: IVec2,
}

/// Which cell of a tileset an entity instance is drawn from, and the grid
/// that cuts the tileset into cells.
#[derive(Clone, Copy, Debug, PartialEq, Eq, Structural, Hash, Default)]
pub struct SpriteSheetSelection {
    /// Size of one cell in pixels.
    pub tile_size: IVec2,
    /// Number of cells in a row of the tileset.
    pub columns: usize,
    /// Number of rows of the tileset.
    pub rows: usize,
    /// Gap between neighbouring cells in pixels.
    pub padding: i32,
    /// Row-major index of the cell.
    pub index: usize,
}

} // verus!
