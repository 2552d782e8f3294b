//! Plain components that level content is spawned with.

use vstd::prelude::*;
use vstd::std_specs::convert::FromSpecImpl;
use vstd::std_specs::ops::{AddSpecImpl, SubSpecImpl, MulSpecImpl};
use std::collections::HashSet;
use crate::ldtk::{EntityInstance, IVec2, LayerInstance, TilePos};

verus! {

/// Component added to any IntGrid tile: the value of its cell.
#[derive(Clone, Copy, Debug, PartialEq, Eq, Structural, PartialOrd, Ord, Hash, Default)]
pub struct IntGridCell {
    pub value: i32,
}

/// Component that names the levels to be loaded for a world, by their uids.
///
/// The set is open to its holder, who reads and changes it directly.
#[derive(Debug, PartialEq, Eq, Default)]
pub struct LevelSet {
    pub uids: HashSet<i32>,
}

/// Component that marks an entity as a child of the world rather than of
/// the level it was spawned in, and identifies it across respawns of that
/// level by where it came from.
#[derive(Clone, Copy, Debug, PartialEq, Eq, Structural, Hash, Default)]
pub struct Worldly {
    pub spawn_level: i32,
    pub spawn_layer: i32,
    pub entity_def_uid: i32,
    pub spawn_px: IVec2,
}

impl Worldly {
    /// Creates a [`Worldly`] from an entity instance and the layer instance it lies on.
    pub fn from_entity_info(entity_instance: &EntityInstance, layer_instance: &LayerInstance) -> (worldly:
        Worldly)
        ensures
            worldly == (Worldly {
                spawn_level: layer_instance.level_id,
                spawn_layer: layer_instance.layer_def_uid,
                entity_def_uid: entity_instance.def_uid,
                spawn_px: entity_instance.px,
            }),
    {
        Worldly {
            spawn_level: layer_instance.level_id,
            spawn_layer: layer_instance.layer_def_uid,
            entity_def_uid: entity_instance.def_uid,
            spawn_px: entity_instance.px,
        }
    }
}

/// Grid-based coordinates of a tile or an entity, counted from the bottom-left corner.
#[derive(Clone, Copy, Debug, PartialEq, Eq, Structural, Hash, Default)]
pub struct GridCoords {
    pub x: i32,
    pub y: i32,
}

impl From<IVec2> for GridCoords {
    fn from(i_vec_2: IVec2) -> (grid_coords: GridCoords) {
        GridCoords { x: i_vec_2.x, y: i_vec_2.y }
    }
}

impl FromSpecImpl<IVec2> for GridCoords {
    open spec fn obeys_from_spec() -> bool {
        true
    }

    open spec fn from_spec(i_vec_2: IVec2) -> GridCoords {
        GridCoords { x: i_vec_2.x, y: i_vec_2.y }
    }
}

impl From<GridCoords> for IVec2 {
    fn from(grid_coords: GridCoords) -> (i_vec_2: IVec2) {
        IVec2::new(grid_coords.x, grid_coords.y)
    }
}

impl FromSpecImpl<GridCoords> for IVec2 {
    open spec fn obeys_from_spec() -> bool {
        true
    }

    open spec fn from_spec(grid_coords: GridCoords) -> IVec2 {
        IVec2 { x: grid_coords.x, y: grid_coords.y }
    }
}

impl From<TilePos> for GridCoords {
    /// The coordinates are reinterpreted as signed: one above `i32::MAX` wraps to a negative one.
    fn from(tile_pos: TilePos) -> (grid_coords: GridCoords) {
        GridCoords {
            x: #[verifier::truncate]
            (tile_pos.0 as i32),
            y: #[verifier::truncate]
            (tile_pos.1 as i32),
        }
    }
}

impl FromSpecImpl<TilePos> for GridCoords {
    open spec fn obeys_from_spec() -> bool {
        true
    }

    open spec fn from_spec(tile_pos: TilePos) -> GridCoords {
        GridCoords { x: tile_pos.0 as i32, y: tile_pos.1 as i32 }
    }
}

impl core::ops::Add<GridCoords> for GridCoords {
    type Output = GridCoords;

    fn add(self, rhs: GridCoords) -> (sum: GridCoords) {
        GridCoords { x: self.x + rhs.x, y: self.y + rhs.y }
    }
}

impl AddSpecImpl<GridCoords> for GridCoords {
    open spec fn obeys_add_spec() -> bool {
        true
    }

    open spec fn add_req(self, rhs: GridCoords) -> bool {
        i32::MIN <= self.x + rhs.x <= i32::MAX && i32::MIN <= self.y + rhs.y <= i32::MAX
    }

    open spec fn add_spec(self, rhs: GridCoords) -> GridCoords {
        GridCoords { x: (self.x + rhs.x) as i32, y: (self.y + rhs.y) as i32 }
    }
}

impl core::ops::Sub<GridCoords> for GridCoords {
    type Output = GridCoords;

    fn sub(self, rhs: GridCoords) -> (difference: GridCoords) {
        GridCoords { x: self.x - rhs.x, y: self.y - rhs.y }
    }
}

impl SubSpecImpl<GridCoords> for GridCoords {
    open spec fn obeys_sub_spec() -> bool {
        true
    }

    open spec fn sub_req(self, rhs: GridCoords) -> bool {
        i32::MIN <= self.x - rhs.x <= i32::MAX && i32::MIN <= self.y - rhs.y <= i32::MAX
    }

    open spec fn sub_spec(self, rhs: GridCoords) -> GridCoords {
        GridCoords { x: (self.x - rhs.x) as i32, y: (self.y - rhs.y) as i32 }
    }
}

impl core::ops::Mul<GridCoords> for GridCoords {
    type Output = GridCoords;

    fn mul(self, rhs: GridCoords) -> (product: GridCoords) {
        GridCoords { x: self.x * rhs.x, y: self.y * rhs.y }
    }
}

impl MulSpecImpl<GridCoords> for GridCoords {
    open spec fn obeys_mul_spec() -> bool {
        true
    }

    open spec fn mul_req(self, rhs: GridCoords) -> bool {
        i32::MIN <= self.x * rhs.x <= i32::MAX && i32::MIN <= self.y * rhs.y <= i32::MAX
    }

    open spec fn mul_spec(self, rhs: GridCoords) -> GridCoords {
        GridCoords { x: (self.x * rhs.x) as i32, y: (self.y * rhs.y) as i32 }
    }
}

impl core::ops::AddAssign<GridCoords> for GridCoords {
    fn add_assign(&mut self, rhs: GridCoords)
        requires
            i32::MIN <= old(self).x + rhs.x <= i32::MAX,
            i32::MIN <= old(self).y + rhs.y <= i32::MAX,
        ensures
            final(self).x == old(self).x + rhs.x,
            final(self).y == old(self).y + rhs.y,
    {
        self.x += rhs.x;
        self.y += rhs.y;
    }
}

impl core::ops::SubAssign<GridCoords> for GridCoords {
    fn sub_assign(&mut self, rhs: GridCoords)
        requires
            i32::MIN <= old(self).x - rhs.x <= i32::MAX,
            i32::MIN <= old(self).y - rhs.y <= i32::MAX,
        ensures
            final(self).x == old(self).x - rhs.x,
            final(self).y == old(self).y - rhs.y,
    {
        self.x -= rhs.x;
        self.y -= rhs.y;
    }
}

impl core::ops::MulAssign<GridCoords> for GridCoords {
    fn mul_assign(&mut self, rhs: GridCoords)
        requires
            i32::MIN <= old(self).x * rhs.x <= i32::MAX,
            i32::MIN <= old(self).y * rhs.y <= i32::MAX,
        ensures
            final(self).x == old(self).x * rhs.x,
            final(self).y == old(self).y * rhs.y,
    {
        self.x *= rhs.x;
        self.y *= rhs.y;
    }
}

impl GridCoords {
    /// Creates a [`GridCoords`] from an entity instance and the layer instance it lies on.
    pub fn from_entity_info(entity_instance: &EntityInstance, layer_instance: &LayerInstance) -> (grid_coords:
        GridCoords)
        requires
            crate::utils::tile_flip_defined(entity_instance.grid, layer_instance.c_hei),
        ensures
            grid_coords.x == entity_instance.grid.x,
            grid_coords.y == layer_instance.c_hei - entity_instance.grid.y - 1,
    {
        crate::utils::ldtk_grid_coords_to_grid_coords(entity_instance.grid, layer_instance.c_hei)
    }
}

} // verus!
