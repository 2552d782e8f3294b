//! Conversions between LDtk's coordinates and a bottom-left, Y-up space.
//!
//! LDtk counts pixels and grid cells from the top-left corner with Y growing
//! downward, and names a tile by its top-left corner. The target space has Y
//! growing upward and names a tile by its bottom-left corner. Every function
//! here is integer arithmetic; points that may fall on half a pixel are
//! returned as [`HalfVec2`].

use vstd::prelude::*;
use crate::components::GridCoords;
use std::collections::HashMap;
use crate::ldtk::{
    EntityDefinition, EntityInstance, EntityInstanceTile, EntityPlacement, HalfVec2, IVec2,
    LayerDefinition, SpriteSheetSelection, TilePos, TilesetDefinition,
};
use crate::registry::{FactoryRegistry, RegistryKey, resolved};

verus! {

broadcast use vstd::std_specs::hash::group_hash_axioms;

/// The entity definitions by uid; of two with one uid, the later one.
pub open spec fn entity_definitions_by_uid(definitions: Seq<EntityDefinition>) -> Map<
    i32,
    EntityDefinition,
>
    decreases definitions.len(),
{
    if definitions.len() == 0 {
        Map::empty()
    } else {
        entity_definitions_by_uid(definitions.drop_last()).insert(
            definitions.last().uid,
            definitions.last(),
        )
    }
}

/// The layer definitions by uid; of two with one uid, the later one.
pub open spec fn layer_definitions_by_uid(definitions: Seq<LayerDefinition>) -> Map<
    i32,
    LayerDefinition,
>
    decreases definitions.len(),
{
    if definitions.len() == 0 {
        Map::empty()
    } else {
        layer_definitions_by_uid(definitions.drop_last()).insert(
            definitions.last().uid,
            definitions.last(),
        )
    }
}

/// Simple conversion from a list of [`EntityDefinition`]s to a map using their uids as the keys.
pub fn create_entity_definition_map(entity_definitions: &[EntityDefinition]) -> (map: HashMap<
    i32,
    &EntityDefinition,
>)
    ensures
        map@.dom() == entity_definitions_by_uid(entity_definitions@).dom(),
        forall|uid: i32| #[trigger]
            map@.contains_key(uid) ==> *map@[uid] == entity_definitions_by_uid(
                entity_definitions@,
            )[uid],
{
    let mut map: HashMap<i32, &EntityDefinition> = HashMap::new();
    let mut i: usize = 0;
    while i < entity_definitions.len()
        invariant
            i <= entity_definitions@.len(),
            map@.dom() == entity_definitions_by_uid(entity_definitions@.subrange(0, i as int)).dom(),
            forall|uid: i32| #[trigger]
                map@.contains_key(uid) ==> *map@[uid] == entity_definitions_by_uid(
                    entity_definitions@.subrange(0, i as int),
                )[uid],
        decreases entity_definitions@.len() - i,
    {
        let definition = &entity_definitions[i];
        proof {
            assert(entity_definitions@.subrange(0, i + 1).drop_last()
                =~= entity_definitions@.subrange(0, i as int));
        }
        map.insert(definition.uid, definition);
        i += 1;
    }
    proof {
        assert(entity_definitions@.subrange(0, i as int) =~= entity_definitions@);
    }
    map
}

/// Simple conversion from a list of [`LayerDefinition`]s to a map using their uids as the keys.
pub fn create_layer_definition_map(layer_definitions: &[LayerDefinition]) -> (map: HashMap<
    i32,
    &LayerDefinition,
>)
    ensures
        map@.dom() == layer_definitions_by_uid(layer_definitions@).dom(),
        forall|uid: i32| #[trigger]
            map@.contains_key(uid) ==> *map@[uid] == layer_definitions_by_uid(
                layer_definitions@,
            )[uid],
{
    let mut map: HashMap<i32, &LayerDefinition> = HashMap::new();
    let mut i: usize = 0;
    while i < layer_definitions.len()
        invariant
            i <= layer_definitions@.len(),
            map@.dom() == layer_definitions_by_uid(layer_definitions@.subrange(0, i as int)).dom(),
            forall|uid: i32| #[trigger]
                map@.contains_key(uid) ==> *map@[uid] == layer_definitions_by_uid(
                    layer_definitions@.subrange(0, i as int),
                )[uid],
        decreases layer_definitions@.len() - i,
    {
        let definition = &layer_definitions[i];
        proof {
            assert(layer_definitions@.subrange(0, i + 1).drop_last()
                =~= layer_definitions@.subrange(0, i as int));
        }
        map.insert(definition.uid, definition);
        i += 1;
    }
    proof {
        assert(layer_definitions@.subrange(0, i as int) =~= layer_definitions@);
    }
    map
}

/// A uid is in the map of definitions exactly when a definition has it.
pub proof fn lemma_entity_definitions_by_uid_domain(definitions: Seq<EntityDefinition>, uid: i32)
    ensures
        entity_definitions_by_uid(definitions).contains_key(uid) <==> exists|i: int|
            0 <= i < definitions.len() && (#[trigger] definitions[i]).uid == uid,
    decreases definitions.len(),
{
    if definitions.len() > 0 {
        let front = definitions.drop_last();
        lemma_entity_definitions_by_uid_domain(front, uid);
        if definitions.last().uid == uid {
            assert(definitions[definitions.len() - 1].uid == uid);
        } else if entity_definitions_by_uid(front).contains_key(uid) {
            let i = choose|i: int| 0 <= i < front.len() && (#[trigger] front[i]).uid == uid;
            assert(definitions[i].uid == uid);
        } else if exists|i: int|
            0 <= i < definitions.len() && (#[trigger] definitions[i]).uid == uid {
            let i = choose|i: int|
                0 <= i < definitions.len() && (#[trigger] definitions[i]).uid == uid;
            assert(front[i].uid == uid);
        }
    }
}

/// The map of definitions holds, for a uid, the last definition that has it.
pub proof fn lemma_entity_definitions_by_uid_value(
    definitions: Seq<EntityDefinition>,
    uid: i32,
    i: int,
)
    requires
        0 <= i < definitions.len(),
        definitions[i].uid == uid,
        forall|j: int| i < j < definitions.len() ==> (#[trigger] definitions[j]).uid != uid,
    ensures
        entity_definitions_by_uid(definitions).contains_key(uid),
        entity_definitions_by_uid(definitions)[uid] == definitions[i],
    decreases definitions.len(),
{
    let front = definitions.drop_last();
    if i < definitions.len() - 1 {
        assert(definitions[definitions.len() - 1].uid != uid);
        assert forall|j: int| i < j < front.len() implies (#[trigger] front[j]).uid != uid by {
            assert(definitions[j].uid != uid);
        }
        lemma_entity_definitions_by_uid_value(front, uid, i);
    }
}

/// The size of what an entity instance draws, unscaled.
pub open spec fn natural_size(
    entity_instance: EntityInstance,
    entity_definition: EntityDefinition,
) -> IVec2 {
    match entity_instance.tile {
        Some(tile) => IVec2 { x: tile.src_rect[2], y: tile.src_rect[3] },
        None => IVec2 { x: entity_definition.width, y: entity_definition.height },
    }
}

/// Computes the placement of an entity instance in a level of
/// `level_height` pixels.
///
/// `entity_definition_map` maps the uids of the entity definitions to the
/// definitions, and must hold the definition of the instance.
pub fn calculate_transform_from_entity_instance(
    entity_instance: &EntityInstance,
    entity_definition_map: &HashMap<i32, &EntityDefinition>,
    level_height: i32,
) -> (placement: EntityPlacement)
    requires
        entity_definition_map@.contains_key(entity_instance.def_uid),
        pixel_flip_defined(entity_instance.px, level_height),
    ensures
        placement.pivot_point == pixel_flip(entity_instance.px, level_height),
        placement.size == (IVec2 { x: entity_instance.width, y: entity_instance.height }),
        placement.natural_size == natural_size(
            *entity_instance,
            *entity_definition_map@[entity_instance.def_uid],
        ),
{
    let entity_definition = entity_definition_map.get(&entity_instance.def_uid).unwrap();
    let def_size = match &entity_instance.tile {
        Some(tile) => IVec2::new(tile.src_rect[2], tile.src_rect[3]),
        None => IVec2::new(entity_definition.width, entity_definition.height),
    };
    let size = IVec2::new(entity_instance.width, entity_instance.height);
    let pivot_point = ldtk_pixel_coords_to_translation(entity_instance.px, level_height);
    EntityPlacement { pivot_point, size, natural_size: def_size }
}

/// Whether the vertical flip of a pixel position stays within `i32`.
pub open spec fn pixel_flip_defined(coords: IVec2, height: i32) -> bool {
    i32::MIN <= height - coords.y <= i32::MAX
}

/// The vertical flip between LDtk's pixel space and the Y-up space of the
/// same scale: `x' = x`, `y' = height - y`.
pub open spec fn pixel_flip(coords: IVec2, height: i32) -> IVec2 {
    IVec2 { x: coords.x, y: (height - coords.y) as i32 }
}

/// Whether the vertical flip of a grid position stays within `i32`.
pub open spec fn tile_flip_defined(coords: IVec2, height: i32) -> bool {
    i32::MIN <= height - coords.y - 1 <= i32::MAX
}

/// The vertical flip between a tile named by its top-left corner, counted
/// from the top, and the same tile named by its bottom-left corner, counted
/// from the bottom: `x' = x`, `y' = height - y - 1`.
pub open spec fn tile_flip(coords: IVec2, height: i32) -> IVec2 {
    IVec2 { x: coords.x, y: (height - coords.y - 1) as i32 }
}

/// A pair of signed integers as a [`TilePos`]: a negative coordinate wraps
/// to one above `i32::MAX`.
pub open spec fn as_tile_pos(coords: IVec2) -> TilePos {
    TilePos(coords.x as u32, coords.y as u32)
}

/// A [`TilePos`] as a pair of signed integers: a coordinate above
/// `i32::MAX` wraps to a negative one.
pub open spec fn as_ivec2(tile_pos: TilePos) -> IVec2 {
    IVec2 { x: tile_pos.0 as i32, y: tile_pos.1 as i32 }
}

/// Where the cell at `index` of a row-major `width` by `height` grid lies,
/// counted from the bottom-left corner; `None` for an empty grid or an index
/// past its end.
pub open spec fn tile_pos_of_index(index: int, width: int, height: int) -> Option<(int, int)> {
    if width * height == 0 || index >= width * height {
        None
    } else {
        Some((index % width, height - 1 - index / width))
    }
}

proof fn lemma_row_in_range(index: int, width: int, height: int)
    requires
        0 <= index,
        0 < width,
        0 <= height,
    ensures
        index / width < height <==> index < width * height,
        0 <= index % width < width,
        0 <= index / width,
        width * height == 0 <==> height == 0,
{
    assert(index == width * (index / width) + index % width && 0 <= index % width < width) by {
        vstd::arithmetic::div_mod::lemma_fundamental_div_mod(index, width);
        vstd::arithmetic::div_mod::lemma_mod_bound(index, width);
    }
    vstd::arithmetic::div_mod::lemma_div_pos_is_pos(index, width);
    let q = index / width;
    assert(q < height ==> width * (q + 1) <= width * height) by (nonlinear_arith)
        requires
            0 < width,
    ;
    assert(width * (q + 1) == width * q + width) by (nonlinear_arith);
    assert(q >= height ==> width * q >= width * height) by (nonlinear_arith)
        requires
            0 < width,
    ;
    assert(width * height == 0 <==> height == 0) by (nonlinear_arith)
        requires
            0 < width,
            0 <= height,
    ;
}

/// The mapping from indices to tile positions loses nothing: a position that
/// it gives lies within the grid, and the index can be had back from it by
/// counting the rows above it. Every index below `width * height` has a
/// position, and no other index has one.
pub proof fn lemma_tile_pos_of_index_inverts(index: int, width: int, height: int)
    requires
        0 <= index,
        0 <= width,
        0 <= height,
    ensures
        tile_pos_of_index(index, width, height).is_some() <==> index < width * height,
        match tile_pos_of_index(index, width, height) {
            Some((x, y)) => 0 <= x < width && 0 <= y < height && index == (height - 1 - y) * width
                + x,
            None => true,
        },
{
    if width > 0 {
        lemma_row_in_range(index, width, height);
        if index < width * height {
            let row = index / width;
            assert(index == width * row + index % width) by {
                vstd::arithmetic::div_mod::lemma_fundamental_div_mod(index, width);
            }
            assert((height - 1 - (height - 1 - row)) * width == width * row) by (nonlinear_arith);
        }
    } else {
        assert(width * height == 0) by (nonlinear_arith)
            requires
                width == 0,
        ;
    }
}

/// Maps an index into a layer's row-major cell list to the [`TilePos`] of that cell.
///
/// Returns `None` when the layer has no cells or the index lies past its last cell.
pub fn int_grid_index_to_tile_pos(
    index: usize,
    layer_width_in_tiles: u32,
    layer_height_in_tiles: u32,
) -> (pos: Option<TilePos>)
    ensures
        match tile_pos_of_index(
            index as int,
            layer_width_in_tiles as int,
            layer_height_in_tiles as int,
        ) {
            Some((x, y)) => pos == Some(TilePos(x as u32, y as u32)) && x < layer_width_in_tiles
                && y < layer_height_in_tiles,
            None => pos.is_none(),
        },
{
    if layer_width_in_tiles == 0 || layer_height_in_tiles == 0 {
        assert(layer_width_in_tiles * layer_height_in_tiles == 0) by (nonlinear_arith)
            requires
                layer_width_in_tiles == 0 || layer_height_in_tiles == 0,
        ;
        return None;
    }
    proof {
        lemma_row_in_range(index as int, layer_width_in_tiles as int, layer_height_in_tiles as int);
    }
    let width: usize = layer_width_in_tiles as usize;
    let tile_x: usize = index % width;
    let inverted_y: usize = index / width;
    if inverted_y < layer_height_in_tiles as usize {
        let y: u32 = layer_height_in_tiles - 1 - inverted_y as u32;
        Some(TilePos(tile_x as u32, y))
    } else {
        None
    }
}

/// The position of a cell is the tile flip of its column and its row
/// counted from the top, in a grid whose sides fit `i32`.
pub proof fn lemma_tile_pos_of_index_is_tile_flip(index: int, width: i32, height: i32)
    requires
        0 <= index < width * height,
        0 < width,
        0 < height,
    ensures
        ({
            let from_top = IVec2 { x: (index % (width as int)) as i32, y: (index / (width as int)) as i32 };
            let tile_pos = as_tile_pos(tile_flip(from_top, height));
            &&& tile_flip_defined(from_top, height)
            &&& tile_pos_of_index(index, width as int, height as int) == Some(
                (tile_pos.0 as int, tile_pos.1 as int),
            )
        }),
{
    lemma_row_in_range(index, width as int, height as int);
}

fn ldtk_coord_conversion(coords: IVec2, height: i32) -> (flipped_coords: IVec2)
    requires
        pixel_flip_defined(coords, height),
    ensures
        flipped_coords == pixel_flip(coords, height),
{
    IVec2::new(coords.x, height - coords.y)
}

fn ldtk_coord_conversion_origin_adjusted(coords: IVec2, height: i32) -> (flipped_coords: IVec2)
    requires
        tile_flip_defined(coords, height),
    ensures
        flipped_coords == tile_flip(coords, height),
{
    let y: i64 = height as i64 - coords.y as i64 - 1;
    IVec2::new(coords.x, y as i32)
}

/// Performs LDtk pixel coordinate to translation conversion.
///
/// The translation is a whole number of pixels, so it is returned as integers.
pub fn ldtk_pixel_coords_to_translation(ldtk_coords: IVec2, ldtk_pixel_height: i32) -> (translation:
    IVec2)
    requires
        pixel_flip_defined(ldtk_coords, ldtk_pixel_height),
    ensures
        translation == pixel_flip(ldtk_coords, ldtk_pixel_height),
        translation.x == ldtk_coords.x,
        translation.y == ldtk_pixel_height - ldtk_coords.y,
{
    ldtk_coord_conversion(ldtk_coords, ldtk_pixel_height)
}

/// Performs translation to LDtk pixel coordinate conversion, for a
/// translation that has been cut down to whole pixels.
pub fn translation_to_ldtk_pixel_coords(translation: IVec2, ldtk_pixel_height: i32) -> (ldtk_coords:
    IVec2)
    requires
        pixel_flip_defined(translation, ldtk_pixel_height),
    ensures
        ldtk_coords == pixel_flip(translation, ldtk_pixel_height),
        ldtk_coords.x == translation.x,
        ldtk_coords.y == ldtk_pixel_height - translation.y,
{
    ldtk_coord_conversion(translation, ldtk_pixel_height)
}

/// Converting a pixel position to a translation and back, at one height,
/// gives the position again; and the way back is defined wherever the way
/// there is. The same holds started from a translation, since both ways are
/// the same flip.
pub proof fn lemma_pixel_round_trip(ldtk_coords: IVec2, ldtk_pixel_height: i32)
    requires
        pixel_flip_defined(ldtk_coords, ldtk_pixel_height),
    ensures
        pixel_flip_defined(pixel_flip(ldtk_coords, ldtk_pixel_height), ldtk_pixel_height),
        pixel_flip(pixel_flip(ldtk_coords, ldtk_pixel_height), ldtk_pixel_height) == ldtk_coords,
{
}

/// Performs LDtk grid coordinate to [`TilePos`] conversion.
///
/// Both name the same tile: LDtk by its top-left corner, counted from the
/// top, [`TilePos`] by its bottom-left corner, counted from the bottom. A
/// [`TilePos`] has no negative coordinates: a flipped coordinate below zero
/// is reinterpreted as unsigned and wraps to one above `i32::MAX`.
pub fn ldtk_grid_coords_to_tile_pos(ldtk_coords: IVec2, ldtk_grid_height: i32) -> (tile_pos: TilePos)
    requires
        tile_flip_defined(ldtk_coords, ldtk_grid_height),
    ensures
        tile_pos == as_tile_pos(tile_flip(ldtk_coords, ldtk_grid_height)),
        0 <= ldtk_coords.x ==> tile_pos.0 == ldtk_coords.x,
        0 <= ldtk_grid_height - ldtk_coords.y - 1 ==> tile_pos.1 == ldtk_grid_height
            - ldtk_coords.y - 1,
{
    let tile_coords = ldtk_coord_conversion_origin_adjusted(ldtk_coords, ldtk_grid_height);
    TilePos(
        #[verifier::truncate]
        (tile_coords.x as u32),
        #[verifier::truncate]
        (tile_coords.y as u32),
    )
}

/// Performs LDtk grid coordinate to [`GridCoords`] conversion.
///
/// Both name the same tile: LDtk by its top-left corner, counted from the
/// top, [`GridCoords`] by its bottom-left corner, counted from the bottom.
pub fn ldtk_grid_coords_to_grid_coords(ldtk_coords: IVec2, ldtk_grid_height: i32) -> (grid_coords:
    GridCoords)
    requires
        tile_flip_defined(ldtk_coords, ldtk_grid_height),
    ensures
        grid_coords.x == ldtk_coords.x,
        grid_coords.y == ldtk_grid_height - ldtk_coords.y - 1,
{
    let flipped_coords = ldtk_coord_conversion_origin_adjusted(ldtk_coords, ldtk_grid_height);
    GridCoords { x: flipped_coords.x, y: flipped_coords.y }
}

/// Performs [`TilePos`] to LDtk grid coordinate conversion.
///
/// Both name the same tile: [`TilePos`] by its bottom-left corner, counted
/// from the bottom, LDtk by its top-left corner, counted from the top. A
/// coordinate above `i32::MAX` is reinterpreted as signed and wraps to a
/// negative one.
pub fn tile_pos_to_ldtk_grid_coords(tile_pos: TilePos, ldtk_grid_height: i32) -> (ldtk_coords: IVec2)
    requires
        tile_flip_defined(as_ivec2(tile_pos), ldtk_grid_height),
    ensures
        ldtk_coords == tile_flip(as_ivec2(tile_pos), ldtk_grid_height),
        tile_pos.0 <= i32::MAX ==> ldtk_coords.x == tile_pos.0,
        tile_pos.1 <= i32::MAX ==> ldtk_coords.y == ldtk_grid_height - tile_pos.1 - 1,
{
    let tile_coords = IVec2::new(
        #[verifier::truncate]
        (tile_pos.0 as i32),
        #[verifier::truncate]
        (tile_pos.1 as i32),
    );
    ldtk_coord_conversion_origin_adjusted(tile_coords, ldtk_grid_height)
}

/// Reinterpreting a pair of signed integers as a [`TilePos`] and back gives
/// the pair again, and so does the other way round.
pub proof fn lemma_tile_pos_reinterpretation(coords: IVec2, tile_pos: TilePos)
    ensures
        as_ivec2(as_tile_pos(coords)) == coords,
        as_tile_pos(as_ivec2(tile_pos)) == tile_pos,
{
    let (x, y) = (coords.x, coords.y);
    assert((x as u32) as i32 == x) by (bit_vector);
    assert((y as u32) as i32 == y) by (bit_vector);
    let (a, b) = (tile_pos.0, tile_pos.1);
    assert((a as i32) as u32 == a) by (bit_vector);
    assert((b as i32) as u32 == b) by (bit_vector);
}

/// Converting a grid position to a [`TilePos`] and back, at one height, gives
/// the position again; and the way back is defined wherever the way there is.
pub proof fn lemma_tile_pos_round_trip(ldtk_coords: IVec2, ldtk_grid_height: i32)
    requires
        tile_flip_defined(ldtk_coords, ldtk_grid_height),
    ensures
        ({
            let tile_pos = as_tile_pos(tile_flip(ldtk_coords, ldtk_grid_height));
            &&& tile_flip_defined(as_ivec2(tile_pos), ldtk_grid_height)
            &&& tile_flip(as_ivec2(tile_pos), ldtk_grid_height) == ldtk_coords
        }),
{
    lemma_tile_pos_reinterpretation(tile_flip(ldtk_coords, ldtk_grid_height), TilePos(0, 0));
}

/// The tile flip lands one row below the pixel flip: taking the one for the
/// other shifts every tile by a row.
pub proof fn lemma_tile_flip_is_one_below_pixel_flip(coords: IVec2, height: i32)
    requires
        pixel_flip_defined(coords, height),
        tile_flip_defined(coords, height),
    ensures
        tile_flip(coords, height).x == pixel_flip(coords, height).x,
        tile_flip(coords, height).y == pixel_flip(coords, height).y - 1,
{
}

/// Twice the centre of the grid cell at `ldtk_coords`, in a layer of
/// `ldtk_grid_height` cells of `grid_size` pixels each.
pub open spec fn grid_cell_center_doubled(
    ldtk_coords: IVec2,
    ldtk_grid_height: int,
    grid_size: IVec2,
) -> (int, int) {
    (
        2 * (ldtk_coords.x * grid_size.x) + grid_size.x,
        2 * (ldtk_grid_height * grid_size.y - ldtk_coords.y * grid_size.y) - grid_size.y,
    )
}

/// Twice the centre of the tile at `tile_pos`, for tiles of `tile_size`
/// pixels, with the bottom-left corner of tile (0, 0) at the origin.
pub open spec fn tile_center_doubled(tile_pos: TilePos, tile_size: IVec2) -> (int, int) {
    (2 * (tile_size.x * tile_pos.0) + tile_size.x, 2 * (tile_size.y * tile_pos.1) + tile_size.y)
}

proof fn lemma_product_bound(a: int, b: int)
    requires
        -0x1_0000_0000 <= a <= 0x1_0000_0000,
        -0x1_0000_0000 <= b <= 0x1_0000_0000,
    ensures
        -0x1_0000_0000_0000_0000 <= a * b <= 0x1_0000_0000_0000_0000,
{
    assert(-0x1_0000_0000_0000_0000 <= a * b <= 0x1_0000_0000_0000_0000) by (nonlinear_arith)
        requires
            -0x1_0000_0000 <= a <= 0x1_0000_0000,
            -0x1_0000_0000 <= b <= 0x1_0000_0000,
    ;
}

/// Performs LDtk grid coordinate to translation conversion, so that the
/// resulting translation is in the center of the tile.
///
/// The centre may fall on half a pixel, so it is returned doubled.
pub fn ldtk_grid_coords_to_translation_centered(
    ldtk_coords: IVec2,
    ldtk_grid_height: i32,
    grid_size: IVec2,
) -> (center: HalfVec2)
    ensures
        (center.x as int, center.y as int) == grid_cell_center_doubled(
            ldtk_coords,
            ldtk_grid_height as int,
            grid_size,
        ),
{
    proof {
        lemma_product_bound(ldtk_coords.x as int, grid_size.x as int);
        lemma_product_bound(ldtk_coords.y as int, grid_size.y as int);
        lemma_product_bound(ldtk_grid_height as int, grid_size.y as int);
    }
    let x: i128 = ldtk_coords.x as i128 * grid_size.x as i128;
    let top: i128 = ldtk_grid_height as i128 * grid_size.y as i128;
    let down: i128 = ldtk_coords.y as i128 * grid_size.y as i128;
    HalfVec2 { x: 2 * x + grid_size.x as i128, y: 2 * (top - down) - grid_size.y as i128 }
}

/// Performs [`TilePos`] to translation conversion, so that the resulting
/// translation is in the center of the tile.
///
/// Assumes that the bottom-left corner of the origin tile is at the origin.
/// The centre may fall on half a pixel, so it is returned doubled.
pub fn tile_pos_to_translation_centered(tile_pos: TilePos, tile_size: IVec2) -> (center: HalfVec2)
    ensures
        (center.x as int, center.y as int) == tile_center_doubled(tile_pos, tile_size),
{
    proof {
        lemma_product_bound(tile_size.x as int, tile_pos.0 as int);
        lemma_product_bound(tile_size.y as int, tile_pos.1 as int);
    }
    let x: i128 = tile_size.x as i128 * tile_pos.0 as i128;
    let y: i128 = tile_size.y as i128 * tile_pos.1 as i128;
    HalfVec2 { x: 2 * x + tile_size.x as i128, y: 2 * y + tile_size.y as i128 }
}

/// The centre of a grid cell is the centre of the tile that
/// [`ldtk_grid_coords_to_tile_pos`] gives for it, where that tile has no
/// negative coordinate.
pub proof fn lemma_centered_translations_agree(
    ldtk_coords: IVec2,
    ldtk_grid_height: i32,
    grid_size: IVec2,
)
    requires
        0 <= ldtk_coords.x,
        0 <= ldtk_grid_height - ldtk_coords.y - 1 <= i32::MAX,
    ensures
        grid_cell_center_doubled(ldtk_coords, ldtk_grid_height as int, grid_size)
            == tile_center_doubled(
            as_tile_pos(tile_flip(ldtk_coords, ldtk_grid_height)),
            grid_size,
        ),
{
    let h = ldtk_grid_height as int;
    let y = ldtk_coords.y as int;
    let g = grid_size.y as int;
    assert(g * (h - y - 1) == h * g - y * g - g) by (nonlinear_arith);
    assert(ldtk_coords.x * grid_size.x == grid_size.x * ldtk_coords.x) by (nonlinear_arith);
}

/// What [`try_each_optional_permutation`] may return once the first three
/// pairs have given nothing: whatever `func` gives for `(None, None)`.
pub open spec fn permutation_outcome_from_neither<A, B, R, F: Fn(Option<A>, Option<B>) -> Option<R>>(
    func: F,
    res: Option<R>,
) -> bool {
    func.ensures((None::<A>, None::<B>), res)
}

/// What it may return once the first two pairs have given nothing.
pub open spec fn permutation_outcome_from_first_alone<
    A,
    B,
    R,
    F: Fn(Option<A>, Option<B>) -> Option<R>,
>(a: A, func: F, res: Option<R>) -> bool {
    exists|r: Option<R>| #[trigger]
        func.ensures((Some(a), None::<B>), r) && if r.is_some() {
            res == r
        } else {
            permutation_outcome_from_neither::<A, B, R, F>(func, res)
        }
}

/// What it may return once the first pair has given nothing.
pub open spec fn permutation_outcome_from_second_alone<
    A,
    B,
    R,
    F: Fn(Option<A>, Option<B>) -> Option<R>,
>(a: A, b: B, func: F, res: Option<R>) -> bool {
    exists|r: Option<R>| #[trigger]
        func.ensures((None::<A>, Some(b)), r) && if r.is_some() {
            res == r
        } else {
            permutation_outcome_from_first_alone::<A, B, R, F>(a, func, res)
        }
}

/// What [`try_each_optional_permutation`] may return: the first result that
/// is not `None` among those that `func` gives for `(Some, Some)`,
/// `(None, Some)`, `(Some, None)` and `(None, None)`, in this order, each
/// pair tried only if the ones before it gave `None`. The first pair is made
/// of clones of `a` and `b`.
pub open spec fn permutation_outcome<
    A: Clone,
    B: Clone,
    R,
    F: Fn(Option<A>, Option<B>) -> Option<R>,
>(a: A, b: B, func: F, res: Option<R>) -> bool {
    exists|a2: A, b2: B, r: Option<R>|
        cloned(a, a2) && cloned(b, b2) && #[trigger] func.ensures((Some(a2), Some(b2)), r) && if r.is_some() {
            res == r
        } else {
            permutation_outcome_from_second_alone::<A, B, R, F>(a, b, func, res)
        }
}

/// Wraps `a` and `b` in an [`Option`] and tries each `Some`/`None`
/// permutation as inputs to `func`, returning the first result of `func`
/// that is not `None`.
///
/// The permutations are tried in this order:
/// 1. Some, Some
/// 2. None, Some
/// 3. Some, None
/// 4. None, None
pub fn try_each_optional_permutation<A, B, R, F>(a: A, b: B, func: F) -> (res: Option<R>) where
    A: Clone,
    B: Clone,
    F: Fn(Option<A>, Option<B>) -> Option<R>,

    requires
        forall|x: Option<A>, y: Option<B>| func.requires((x, y)),
    ensures
        permutation_outcome(a, b, func, res),
{
    let a2 = a.clone();
    let b2 = b.clone();
    let both = func(Some(a2), Some(b2));
    if both.is_some() {
        return both;
    }
    let second_alone = func(None, Some(b));
    if second_alone.is_some() {
        assert(permutation_outcome_from_second_alone::<A, B, R, F>(a, b, func, second_alone));
        return second_alone;
    }
    let first_alone = func(Some(a), None);
    if first_alone.is_some() {
        assert(permutation_outcome_from_first_alone::<A, B, R, F>(a, func, first_alone));
        assert(permutation_outcome_from_second_alone::<A, B, R, F>(a, b, func, first_alone));
        return first_alone;
    }
    let neither = func(None, None);
    assert(permutation_outcome_from_neither::<A, B, R, F>(func, neither));
    assert(permutation_outcome_from_first_alone::<A, B, R, F>(a, func, neither));
    assert(permutation_outcome_from_second_alone::<A, B, R, F>(a, b, func, neither));
    neither
}

/// Where `func` gives one result for each pair and does not tell a clone
/// from the value it was made of, [`try_each_optional_permutation`] gives
/// the first of the four results that is not `None`.
pub proof fn lemma_permutation_outcome_of_function<
    A: Clone,
    B: Clone,
    R,
    F: Fn(Option<A>, Option<B>) -> Option<R>,
>(a: A, b: B, func: F, res: Option<R>, results: spec_fn(Option<A>, Option<B>) -> Option<R>)
    requires
        permutation_outcome(a, b, func, res),
        forall|x: Option<A>, y: Option<B>, r: Option<R>|
            func.ensures((x, y), r) ==> r == results(x, y),
        forall|a2: A, b2: B|
            cloned(a, a2) && cloned(b, b2) ==> results(Some(a2), Some(b2)) == results(
                Some(a),
                Some(b),
            ),
    ensures
        res == if results(Some(a), Some(b)).is_some() {
            results(Some(a), Some(b))
        } else if results(None, Some(b)).is_some() {
            results(None, Some(b))
        } else if results(Some(a), None).is_some() {
            results(Some(a), None)
        } else {
            results(None, None)
        },
{
}

/// The lookup used on the tables of registered objects.
///
/// A single entity or grid cell may match several registrations; this picks
/// the most specific of them, or `default` where none matches.
pub fn ldtk_map_get_or_default<'a, A, B, L>(
    a: A,
    b: B,
    default: &'a L,
    map: &'a FactoryRegistry<A, B, L>,
) -> (factory: &'a L) where A: RegistryKey, B: RegistryKey
    requires
        map.wf(),
    ensures
        *factory == resolved(map@, a@, b@, *default),
{
    map.resolve(&a, &b, default)
}

/// The row-major index, in a tileset of `columns` cells a row, of the cell
/// whose top-left pixel is `(x, y)`, where a cell with its gap takes
/// `pitch_x` by `pitch_y` pixels.
pub open spec fn sprite_index(x: int, y: int, pitch_x: int, pitch_y: int, columns: int) -> int {
    (y / pitch_y) * columns + x / pitch_x
}

/// A tileset region from which a cell index can be computed: it starts at a
/// pixel that is not negative, a cell with its gap has a positive size, the
/// tileset has no negative size, and the index fits the machine's word.
pub open spec fn sprite_region_valid(
    tile: EntityInstanceTile,
    tileset_definition: TilesetDefinition,
) -> bool {
    &&& 0 <= tile.src_rect[0]
    &&& 0 <= tile.src_rect[1]
    &&& 0 < tile.src_rect[2] + tileset_definition.spacing <= i32::MAX
    &&& 0 < tile.src_rect[3] + tileset_definition.spacing <= i32::MAX
    &&& 0 <= tileset_definition.c_wid
    &&& 0 <= tileset_definition.c_hei
    &&& sprite_index(
        tile.src_rect[0] as int,
        tile.src_rect[1] as int,
        tile.src_rect[2] + tileset_definition.spacing,
        tile.src_rect[3] + tileset_definition.spacing,
        tileset_definition.c_wid as int,
    ) <= usize::MAX
}

/// Selects the cell of a tileset that an entity instance is drawn from.
///
/// An instance needs a tile, an associated tileset, and an associated tileset
/// definition to be drawn from a sprite sheet; with any of them missing the
/// result is `None`.
pub fn sprite_sheet_bundle_from_entity_info(
    entity_instance: &EntityInstance,
    has_tileset: bool,
    tileset_definition: Option<&TilesetDefinition>,
) -> (selection: Option<SpriteSheetSelection>)
    requires
        has_tileset && entity_instance.tile.is_some() && tileset_definition.is_some()
            ==> sprite_region_valid(entity_instance.tile.unwrap(), *tileset_definition.unwrap()),
    ensures
        selection.is_some() <==> has_tileset && entity_instance.tile.is_some()
            && tileset_definition.is_some(),
        selection.is_some() ==> ({
            let tile = entity_instance.tile.unwrap();
            let definition = tileset_definition.unwrap();
            let chosen = selection.unwrap();
            &&& chosen.tile_size == (IVec2 { x: tile.src_rect[2], y: tile.src_rect[3] })
            &&& chosen.columns == definition.c_wid
            &&& chosen.rows == definition.c_hei
            &&& chosen.padding == definition.spacing
            &&& chosen.index == sprite_index(
                tile.src_rect[0] as int,
                tile.src_rect[1] as int,
                tile.src_rect[2] + definition.spacing,
                tile.src_rect[3] + definition.spacing,
                definition.c_wid as int,
            )
        }),
{
    match (has_tileset, &entity_instance.tile, tileset_definition) {
        (true, Some(tile), Some(tileset_definition)) => {
            let pitch_x: i32 = tile.src_rect[2] + tileset_definition.spacing;
            let pitch_y: i32 = tile.src_rect[3] + tileset_definition.spacing;
            let row: i32 = tile.src_rect[1] / pitch_y;
            let column: i32 = tile.src_rect[0] / pitch_x;
            proof {
                vstd::arithmetic::div_mod::lemma_div_pos_is_pos(
                    tile.src_rect[1] as int,
                    pitch_y as int,
                );
                vstd::arithmetic::div_mod::lemma_div_pos_is_pos(
                    tile.src_rect[0] as int,
                    pitch_x as int,
                );
                assert(0 <= (row as int) * (tileset_definition.c_wid as int)) by (nonlinear_arith)
                    requires
                        0 <= row,
                        0 <= tileset_definition.c_wid,
                ;
            }
            let columns: usize = tileset_definition.c_wid as usize;
            let index: usize = row as usize * columns + column as usize;
            Some(
                SpriteSheetSelection {
                    tile_size: IVec2::new(tile.src_rect[2], tile.src_rect[3]),
                    columns,
                    rows: tileset_definition.c_hei as usize,
                    padding: tileset_definition.spacing,
                    index,
                },
            )
        },
        _ => None,
    }
}

/// Whether `first` comes before `second` when a map is walked column by
/// column, each column from the bottom up.
pub open spec fn walked_before(first: TilePos, second: TilePos) -> bool {
    first.0 < second.0 || (first.0 == second.0 && first.1 < second.1)
}

/// Whether `tiles` holds a tile for the position.
pub open spec fn has_tile_at<T>(tiles: Seq<(TilePos, T)>, tile_pos: TilePos) -> bool {
    exists|k: int| 0 <= k < tiles.len() && (#[trigger] tiles[k]).0 == tile_pos
}

/// Whether the position is accounted for: either `tiles` holds a tile for
/// it, or `func` gave none for it.
pub open spec fn tile_settled<T, F: Fn(TilePos) -> Option<T>>(
    func: F,
    tiles: Seq<(TilePos, T)>,
    tile_pos: TilePos,
) -> bool {
    has_tile_at(tiles, tile_pos) || func.ensures((tile_pos,), None::<T>)
}

/// Whether `tiles` is what `func` gives for the part of a map of `height`
/// rows that is walked before `end`, and for `width` columns at most: every
/// entry is a tile that `func` gave for its position, the entries come in
/// the order of the walk, and every position without an entry is one for
/// which `func` gave nothing.
pub open spec fn tiles_set_before<T, F: Fn(TilePos) -> Option<T>>(
    width: u32,
    height: u32,
    func: F,
    tiles: Seq<(TilePos, T)>,
    end: TilePos,
) -> bool {
    &&& forall|k: int|
        0 <= k < tiles.len() ==> {
            let entry = #[trigger] tiles[k];
            &&& entry.0.0 < width
            &&& entry.0.1 < height
            &&& walked_before(entry.0, end)
            &&& func.ensures((entry.0,), Some(entry.1))
        }
    &&& forall|j: int, k: int|
        0 <= j < k < tiles.len() ==> walked_before((#[trigger] tiles[j]).0, (#[trigger] tiles[k]).0)
    &&& forall|x: u32, y: u32|
        x < width && y < height && walked_before(TilePos(x, y), end) ==> #[trigger] tile_settled(
            func,
            tiles,
            TilePos(x, y),
        )
}

proof fn lemma_settled_after_push<T, F: Fn(TilePos) -> Option<T>>(
    func: F,
    tiles: Seq<(TilePos, T)>,
    entry: (TilePos, T),
    tile_pos: TilePos,
)
    requires
        tile_settled(func, tiles, tile_pos),
    ensures
        tile_settled(func, tiles.push(entry), tile_pos),
{
    if has_tile_at(tiles, tile_pos) {
        let k = choose|k: int| 0 <= k < tiles.len() && (#[trigger] tiles[k]).0 == tile_pos;
        assert(tiles.push(entry)[k].0 == tile_pos);
    }
}

/// Walks a map of `width` by `height` tiles column by column, each column
/// from the bottom up, and asks `func` for the tile of each position.
/// Returns the tiles that `func` gave, each with its position, in the order
/// of the walk.
pub fn set_all_tiles_with_func<T, F>(width: u32, height: u32, func: F) -> (tiles: Vec<(TilePos, T)>) where
    F: Fn(TilePos) -> Option<T>,

    requires
        forall|tile_pos: TilePos|
            tile_pos.0 < width && tile_pos.1 < height ==> #[trigger] func.requires((tile_pos,)),
    ensures
        tiles_set_before(width, height, func, tiles@, TilePos(width, 0)),
{
    let mut tiles: Vec<(TilePos, T)> = Vec::new();
    let mut x: u32 = 0;
    while x < width
        invariant
            x <= width,
            forall|tile_pos: TilePos|
                tile_pos.0 < width && tile_pos.1 < height ==> #[trigger] func.requires((tile_pos,)),
            tiles_set_before(width, height, func, tiles@, TilePos(x, 0)),
        decreases width - x,
    {
        let mut y: u32 = 0;
        while y < height
            invariant
                x < width,
                y <= height,
                forall|tile_pos: TilePos|
                    tile_pos.0 < width && tile_pos.1 < height ==> #[trigger] func.requires((tile_pos,)),
                tiles_set_before(width, height, func, tiles@, TilePos(x, y)),
            decreases height - y,
        {
            let tile_pos = TilePos(x, y);
            let ghost before = tiles@;
            let given = func(tile_pos);
            match given {
                Some(tile) => {
                    tiles.push((tile_pos, tile));
                    proof {
                        let entry = tiles@[tiles@.len() - 1];
                        assert(tiles@ == before.push(entry));
                        assert forall|px: u32, py: u32|
                            px < width && py < height && walked_before(
                                TilePos(px, py),
                                TilePos(x, (y + 1) as u32),
                            ) implies #[trigger] tile_settled(func, tiles@, TilePos(px, py)) by {
                            if TilePos(px, py) == tile_pos {
                                assert(tiles@[tiles@.len() - 1].0 == tile_pos);
                            } else {
                                assert(walked_before(TilePos(px, py), TilePos(x, y)));
                                assert(tile_settled(func, before, TilePos(px, py)));
                                lemma_settled_after_push(func, before, entry, TilePos(px, py));
                            }
                        }
                    }
                },
                None => {
                    proof {
                        assert forall|px: u32, py: u32|
                            px < width && py < height && walked_before(
                                TilePos(px, py),
                                TilePos(x, (y + 1) as u32),
                            ) implies #[trigger] tile_settled(func, tiles@, TilePos(px, py)) by {
                            if TilePos(px, py) != tile_pos {
                                assert(walked_before(TilePos(px, py), TilePos(x, y)));
                            }
                        }
                    }
                },
            }
            y += 1;
        }
        proof {
            assert forall|px: u32, py: u32|
                px < width && py < height && walked_before(
                    TilePos(px, py),
                    TilePos((x + 1) as u32, 0),
                ) implies #[trigger] tile_settled(func, tiles@, TilePos(px, py)) by {
                assert(walked_before(TilePos(px, py), TilePos(x, y)));
            }
        }
        x += 1;
    }
    tiles
}

/// Over the whole map, [`set_all_tiles_with_func`] gives a tile for a
/// position exactly where `func` can give one, if `func` gives one answer
/// for each position.
pub proof fn lemma_all_tiles_set<T, F: Fn(TilePos) -> Option<T>>(
    width: u32,
    height: u32,
    func: F,
    tiles: Seq<(TilePos, T)>,
    answers: spec_fn(TilePos) -> Option<T>,
    tile_pos: TilePos,
)
    requires
        tiles_set_before(width, height, func, tiles, TilePos(width, 0)),
        forall|p: TilePos, r: Option<T>| func.ensures((p,), r) ==> r == answers(p),
        tile_pos.0 < width,
        tile_pos.1 < height,
    ensures
        has_tile_at(tiles, tile_pos) <==> answers(tile_pos).is_some(),
        forall|k: int|
            0 <= k < tiles.len() && (#[trigger] tiles[k]).0 == tile_pos ==> answers(tile_pos)
                == Some(tiles[k].1),
{
    assert(walked_before(tile_pos, TilePos(width, 0)));
    assert(tile_settled(func, tiles, TilePos(tile_pos.0, tile_pos.1)));
}

} // verus!
