use bevy_ecs_ldtk::components::GridCoords;
use bevy_ecs_ldtk::ldtk::{
    EntityDefinition, EntityInstance, EntityInstanceTile, EntityPlacement, HalfVec2, IVec2,
    LayerDefinition, SpriteSheetSelection, TilePos, TilesetDefinition,
};
use bevy_ecs_ldtk::utils::{
    calculate_transform_from_entity_instance, create_entity_definition_map,
    create_layer_definition_map, int_grid_index_to_tile_pos, ldtk_grid_coords_to_grid_coords,
    ldtk_grid_coords_to_tile_pos, ldtk_grid_coords_to_translation_centered,
    ldtk_pixel_coords_to_translation, sprite_sheet_bundle_from_entity_info,
    tile_pos_to_ldtk_grid_coords, tile_pos_to_translation_centered,
    translation_to_ldtk_pixel_coords,
};

fn as_floats(v: IVec2) -> (f32, f32) {
    (v.x as f32, v.y as f32)
}

fn halved(v: HalfVec2) -> (f32, f32) {
    (v.x as f32 / 2., v.y as f32 / 2.)
}

/// The centre of the visual for a pivot, from the pivot point and the size.
fn pivoted(pivot_point: IVec2, size: IVec2, pivot: (f32, f32)) -> (f32, f32) {
    (
        pivot_point.x as f32 + size.x as f32 * (0.5 - pivot.0),
        pivot_point.y as f32 + size.y as f32 * (pivot.1 - 0.5),
    )
}

/// Translation and scale of a placement, for a pivot and a depth.
fn transform_of(placement: EntityPlacement, pivot: (f32, f32), z: f32) -> ([f32; 3], [f32; 3]) {
    let (x, y) = pivoted(placement.pivot_point, placement.size, pivot);
    (
        [x, y, z],
        [
            placement.size.x as f32 / placement.natural_size.x as f32,
            placement.size.y as f32 / placement.natural_size.y as f32,
            1.,
        ],
    )
}

fn entity_definition(uid: i32, width: i32, height: i32) -> EntityDefinition {
    EntityDefinition { uid, width, height }
}

#[test]
fn test_int_grid_index_to_tile_pos() {
    assert_eq!(int_grid_index_to_tile_pos(3, 4, 5), Some(TilePos(3, 4)));

    assert_eq!(int_grid_index_to_tile_pos(10, 5, 5), Some(TilePos(0, 2)));

    assert_eq!(int_grid_index_to_tile_pos(49, 10, 5), Some(TilePos(9, 0)));

    assert_eq!(int_grid_index_to_tile_pos(64, 100, 1), Some(TilePos(64, 0)));

    assert_eq!(int_grid_index_to_tile_pos(35, 1, 100), Some(TilePos(0, 64)));
}

#[test]
fn test_int_grid_index_out_of_range() {
    assert_eq!(int_grid_index_to_tile_pos(3, 0, 5), None);

    assert_eq!(int_grid_index_to_tile_pos(3, 5, 0), None);

    assert_eq!(int_grid_index_to_tile_pos(25, 5, 5), None);
}

#[test]
fn int_grid_index_at_the_edges() {
    assert_eq!(int_grid_index_to_tile_pos(0, 5, 5), Some(TilePos(0, 4)));
    assert_eq!(int_grid_index_to_tile_pos(24, 5, 5), Some(TilePos(4, 0)));
    assert_eq!(int_grid_index_to_tile_pos(0, 0, 0), None);
    assert_eq!(int_grid_index_to_tile_pos(0, 1, 1), Some(TilePos(0, 0)));
    assert_eq!(int_grid_index_to_tile_pos(1, 1, 1), None);
    assert_eq!(int_grid_index_to_tile_pos(usize::MAX, 5, 5), None);
    assert_eq!(
        int_grid_index_to_tile_pos(u32::MAX as usize - 1, u32::MAX, 1),
        Some(TilePos(u32::MAX - 1, 0))
    );
    assert_eq!(int_grid_index_to_tile_pos(u32::MAX as usize, u32::MAX, 1), None);
}

#[test]
fn int_grid_index_wider_than_32_bits_is_out_of_range() {
    if usize::BITS > 32 {
        let index = (1u64 << 32) as usize + 3;
        assert_eq!(int_grid_index_to_tile_pos(index, 4, 5), None);
    }
}

#[test]
fn test_calculate_transform_from_entity_instance() {
    let entity_definitions = vec![
        entity_definition(0, 32, 32),
        entity_definition(1, 64, 16),
        entity_definition(2, 10, 25),
    ];
    let entity_definition_map = create_entity_definition_map(&entity_definitions);

    // simple case
    let entity_instance = EntityInstance {
        px: IVec2::new(256, 256),
        def_uid: 0,
        width: 32,
        height: 32,
        ..Default::default()
    };
    let result =
        calculate_transform_from_entity_instance(&entity_instance, &entity_definition_map, 320);
    assert_eq!(
        transform_of(result, (0., 0.), 0.),
        ([272., 48., 0.], [1., 1., 1.])
    );

    // difficult case
    let entity_instance = EntityInstance {
        px: IVec2::new(40, 50),
        def_uid: 2,
        width: 30,
        height: 50,
        ..Default::default()
    };
    let result =
        calculate_transform_from_entity_instance(&entity_instance, &entity_definition_map, 100);
    assert_eq!(
        transform_of(result, (1., 1.), 2.),
        ([25., 75., 2.], [3., 2., 1.])
    );
}

#[test]
fn test_calculate_transform_from_entity_instance_with_tile() {
    let entity_definitions = vec![entity_definition(0, 32, 32)];
    let entity_definition_map = create_entity_definition_map(&entity_definitions);

    let entity_instance = EntityInstance {
        px: IVec2::new(64, 64),
        def_uid: 0,
        width: 64,
        height: 64,
        tile: Some(EntityInstanceTile {
            src_rect: [0, 0, 16, 32],
        }),
        ..Default::default()
    };
    let result =
        calculate_transform_from_entity_instance(&entity_instance, &entity_definition_map, 100);
    assert_eq!(
        transform_of(result, (1., 1.), 2.),
        ([32., 68., 2.], [4., 2., 1.])
    );
}

#[test]
fn placement_holds_exact_integers() {
    let entity_definitions = vec![entity_definition(7, 10, 25)];
    let entity_definition_map = create_entity_definition_map(&entity_definitions);
    let entity_instance = EntityInstance {
        px: IVec2::new(40, 50),
        def_uid: 7,
        width: 30,
        height: 50,
        ..Default::default()
    };
    assert_eq!(
        calculate_transform_from_entity_instance(&entity_instance, &entity_definition_map, 100),
        EntityPlacement {
            pivot_point: IVec2::new(40, 50),
            size: IVec2::new(30, 50),
            natural_size: IVec2::new(10, 25),
        }
    );
    let with_tile = EntityInstance {
        tile: Some(EntityInstanceTile {
            src_rect: [8, 16, 3, 5],
        }),
        ..entity_instance
    };
    assert_eq!(
        calculate_transform_from_entity_instance(&with_tile, &entity_definition_map, 60),
        EntityPlacement {
            pivot_point: IVec2::new(40, 10),
            size: IVec2::new(30, 50),
            natural_size: IVec2::new(3, 5),
        }
    );
}

#[test]
fn definition_maps_are_keyed_by_uid() {
    let entity_definitions = vec![
        entity_definition(4, 1, 2),
        entity_definition(9, 3, 4),
        entity_definition(4, 5, 6),
    ];
    let map = create_entity_definition_map(&entity_definitions);
    assert_eq!(map.len(), 2);
    assert_eq!(map.get(&4), Some(&&entity_definition(4, 5, 6)));
    assert_eq!(map.get(&9), Some(&&entity_definition(9, 3, 4)));
    assert_eq!(map.get(&5), None);
    assert!(create_entity_definition_map(&[]).is_empty());

    let layer_definitions = vec![
        LayerDefinition { uid: 1, grid_size: 16 },
        LayerDefinition { uid: 2, grid_size: 8 },
        LayerDefinition { uid: 1, grid_size: 32 },
    ];
    let map = create_layer_definition_map(&layer_definitions);
    assert_eq!(map.len(), 2);
    assert_eq!(map.get(&1), Some(&&LayerDefinition { uid: 1, grid_size: 32 }));
    assert_eq!(map.get(&2), Some(&&LayerDefinition { uid: 2, grid_size: 8 }));
    assert_eq!(map.get(&3), None);
}

#[test]
fn test_translation_ldtk_pixel_coords_conversion() {
    assert_eq!(
        as_floats(ldtk_pixel_coords_to_translation(IVec2::new(32, 64), 128)),
        (32., 64.)
    );
    assert_eq!(
        as_floats(ldtk_pixel_coords_to_translation(IVec2::new(0, 0), 100)),
        (0., 100.)
    );

    assert_eq!(
        translation_to_ldtk_pixel_coords(IVec2::new(32, 64), 128),
        IVec2::new(32, 64)
    );
    assert_eq!(
        translation_to_ldtk_pixel_coords(IVec2::new(0, 0), 100),
        IVec2::new(0, 100)
    );
}

#[test]
fn pixel_round_trip_on_values() {
    let cases = [
        (IVec2::new(0, 0), 0),
        (IVec2::new(17, 5), 100),
        (IVec2::new(-3, -40), 7),
        (IVec2::new(i32::MAX, i32::MAX), 0),
        (IVec2::new(i32::MIN, 1), i32::MIN + 1),
        (IVec2::new(5, -1), i32::MAX - 1),
    ];
    for (p, h) in cases {
        let there = ldtk_pixel_coords_to_translation(p, h);
        assert_eq!(there, IVec2::new(p.x, h - p.y));
        assert_eq!(translation_to_ldtk_pixel_coords(there, h), p);
    }
}

#[test]
fn grid_and_tile_positions_name_the_same_tile() {
    assert_eq!(ldtk_grid_coords_to_tile_pos(IVec2::new(0, 0), 5), TilePos(0, 4));
    assert_eq!(ldtk_grid_coords_to_tile_pos(IVec2::new(3, 4), 5), TilePos(3, 0));
    assert_eq!(ldtk_grid_coords_to_tile_pos(IVec2::new(2, 1), 4), TilePos(2, 2));
    assert_eq!(tile_pos_to_ldtk_grid_coords(TilePos(0, 4), 5), IVec2::new(0, 0));
    assert_eq!(tile_pos_to_ldtk_grid_coords(TilePos(3, 0), 5), IVec2::new(3, 4));
    assert_eq!(tile_pos_to_ldtk_grid_coords(TilePos(2, 7), 4), IVec2::new(2, -4));
    assert_eq!(
        ldtk_grid_coords_to_grid_coords(IVec2::new(2, 1), 4),
        GridCoords { x: 2, y: 2 }
    );
    assert_eq!(
        ldtk_grid_coords_to_grid_coords(IVec2::new(-2, 9), 4),
        GridCoords { x: -2, y: -6 }
    );
    // the pixel flip and the tile flip differ by one row
    assert_eq!(ldtk_pixel_coords_to_translation(IVec2::new(2, 1), 4), IVec2::new(2, 3));
    for y in 0..6 {
        let tile_pos = ldtk_grid_coords_to_tile_pos(IVec2::new(1, y), 6);
        assert_eq!(tile_pos_to_ldtk_grid_coords(tile_pos, 6), IVec2::new(1, y));
    }
}

#[test]
fn test_ldtk_grid_coords_to_translation_centered() {
    assert_eq!(
        halved(ldtk_grid_coords_to_translation_centered(
            IVec2::new(1, 1),
            4,
            IVec2::splat(32)
        )),
        (48., 80.)
    );

    assert_eq!(
        halved(ldtk_grid_coords_to_translation_centered(
            IVec2::new(1, 1),
            2,
            IVec2::splat(100)
        )),
        (150., 50.)
    );

    assert_eq!(
        halved(ldtk_grid_coords_to_translation_centered(
            IVec2::new(0, 4),
            10,
            IVec2::splat(1)
        )),
        (0.5, 5.5)
    );
}

#[test]
fn test_tile_pos_to_translation_centered() {
    assert_eq!(
        halved(tile_pos_to_translation_centered(TilePos(1, 2), IVec2::splat(32))),
        (48., 80.)
    );

    assert_eq!(
        halved(tile_pos_to_translation_centered(TilePos(1, 0), IVec2::splat(100))),
        (150., 50.)
    );

    assert_eq!(
        halved(tile_pos_to_translation_centered(TilePos(0, 5), IVec2::splat(1))),
        (0.5, 5.5)
    );
}

#[test]
fn centered_translations_are_exact_doubles() {
    assert_eq!(
        ldtk_grid_coords_to_translation_centered(IVec2::new(1, 1), 4, IVec2::splat(32)),
        HalfVec2 { x: 96, y: 160 }
    );
    assert_eq!(
        ldtk_grid_coords_to_translation_centered(IVec2::new(0, 4), 10, IVec2::new(1, 3)),
        HalfVec2 { x: 1, y: 33 }
    );
    assert_eq!(
        tile_pos_to_translation_centered(TilePos(0, 5), IVec2::new(1, 3)),
        HalfVec2 { x: 1, y: 33 }
    );
    assert_eq!(
        tile_pos_to_translation_centered(TilePos(u32::MAX, u32::MAX), IVec2::splat(i32::MAX)),
        HalfVec2 {
            x: 2 * (i32::MAX as i128) * (u32::MAX as i128) + i32::MAX as i128,
            y: 2 * (i32::MAX as i128) * (u32::MAX as i128) + i32::MAX as i128,
        }
    );
    assert_eq!(
        ldtk_grid_coords_to_translation_centered(
            IVec2::splat(i32::MIN),
            i32::MAX,
            IVec2::splat(i32::MIN)
        ),
        HalfVec2 {
            x: 2 * (i32::MIN as i128) * (i32::MIN as i128) + i32::MIN as i128,
            y: 2 * ((i32::MAX as i128) * (i32::MIN as i128)
                - (i32::MIN as i128) * (i32::MIN as i128))
                - i32::MIN as i128,
        }
    );
    // the centre of a grid cell is the centre of its tile
    for y in 0..4 {
        let tile_pos = ldtk_grid_coords_to_tile_pos(IVec2::new(3, y), 4);
        assert_eq!(
            ldtk_grid_coords_to_translation_centered(IVec2::new(3, y), 4, IVec2::new(16, 9)),
            tile_pos_to_translation_centered(tile_pos, IVec2::new(16, 9))
        );
    }
}

#[test]
fn test_ldtk_pixel_coords_to_translation_pivoted() {
    assert_eq!(
        pivoted(
            ldtk_pixel_coords_to_translation(IVec2::new(32, 64), 128),
            IVec2::splat(32),
            (0., 0.)
        ),
        (48., 48.),
    );

    assert_eq!(
        pivoted(
            ldtk_pixel_coords_to_translation(IVec2::new(0, 0), 10),
            IVec2::splat(1),
            (1., 0.)
        ),
        (-0.5, 9.5),
    );

    assert_eq!(
        pivoted(
            ldtk_pixel_coords_to_translation(IVec2::new(20, 20), 20),
            IVec2::splat(5),
            (0.5, 0.5)
        ),
        (20., 0.),
    );
}

#[test]
fn sprite_sheet_selection() {
    let tileset_definition = TilesetDefinition {
        c_wid: 8,
        c_hei: 4,
        spacing: 2,
    };
    let entity_instance = EntityInstance {
        tile: Some(EntityInstanceTile {
            src_rect: [54, 36, 16, 16],
        }),
        ..Default::default()
    };
    assert_eq!(
        sprite_sheet_bundle_from_entity_info(&entity_instance, true, Some(&tileset_definition)),
        Some(SpriteSheetSelection {
            tile_size: IVec2::new(16, 16),
            columns: 8,
            rows: 4,
            padding: 2,
            index: 19,
        })
    );
    let origin = EntityInstance {
        tile: Some(EntityInstanceTile {
            src_rect: [0, 0, 16, 32],
        }),
        ..Default::default()
    };
    assert_eq!(
        sprite_sheet_bundle_from_entity_info(&origin, true, Some(&tileset_definition))
            .map(|s| s.index),
        Some(0)
    );
    assert_eq!(
        sprite_sheet_bundle_from_entity_info(&entity_instance, false, Some(&tileset_definition)),
        None
    );
    assert_eq!(
        sprite_sheet_bundle_from_entity_info(&entity_instance, true, None),
        None
    );
    assert_eq!(
        sprite_sheet_bundle_from_entity_info(
            &EntityInstance::default(),
            true,
            Some(&tileset_definition)
        ),
        None
    );
}

#[test]
fn tiles_are_set_column_by_column() {
    let tiles = bevy_ecs_ldtk::utils::set_all_tiles_with_func(2, 3, |p: TilePos| {
        if (p.0 + p.1) % 2 == 0 {
            Some(p.0 * 10 + p.1)
        } else {
            None
        }
    });
    assert_eq!(
        tiles,
        vec![(TilePos(0, 0), 0), (TilePos(0, 2), 2), (TilePos(1, 1), 11)]
    );
    let all = bevy_ecs_ldtk::utils::set_all_tiles_with_func(2, 2, |p: TilePos| Some(p));
    assert_eq!(
        all,
        vec![
            (TilePos(0, 0), TilePos(0, 0)),
            (TilePos(0, 1), TilePos(0, 1)),
            (TilePos(1, 0), TilePos(1, 0)),
            (TilePos(1, 1), TilePos(1, 1)),
        ]
    );
    let calls = std::cell::Cell::new(0);
    let none: Vec<(TilePos, u8)> = bevy_ecs_ldtk::utils::set_all_tiles_with_func(3, 5, |_| {
        calls.set(calls.get() + 1);
        None
    });
    assert!(none.is_empty());
    assert_eq!(calls.get(), 15);
    let empty: Vec<(TilePos, u8)> =
        bevy_ecs_ldtk::utils::set_all_tiles_with_func(0, 5, |_| Some(1));
    assert!(empty.is_empty());
    let empty: Vec<(TilePos, u8)> =
        bevy_ecs_ldtk::utils::set_all_tiles_with_func(5, 0, |_| Some(1));
    assert!(empty.is_empty());
}

#[test]
fn coordinates_below_zero_wrap_in_a_tile_pos() {
    assert_eq!(
        ldtk_grid_coords_to_tile_pos(IVec2::new(-1, 10), 4),
        TilePos(u32::MAX, (-7i32) as u32)
    );
    assert_eq!(
        tile_pos_to_ldtk_grid_coords(TilePos(u32::MAX, 0), 4),
        IVec2::new(-1, 3)
    );
    assert_eq!(
        tile_pos_to_ldtk_grid_coords(TilePos(0, (-7i32) as u32), 4),
        IVec2::new(0, 10)
    );
    let there = ldtk_grid_coords_to_tile_pos(IVec2::new(-5, 9), 3);
    assert_eq!(tile_pos_to_ldtk_grid_coords(there, 3), IVec2::new(-5, 9));
}
