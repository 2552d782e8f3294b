use bevy_ecs_ldtk::components::{GridCoords, IntGridCell, LevelSet, Worldly};
use bevy_ecs_ldtk::ldtk::{EntityInstance, IVec2, LayerInstance, TilePos};

#[test]
fn grid_coords_arithmetic() {
    let a = GridCoords { x: 1, y: -2 };
    let b = GridCoords { x: 10, y: 20 };
    assert_eq!(a + b, GridCoords { x: 11, y: 18 });
    assert_eq!(a - b, GridCoords { x: -9, y: -22 });
    assert_eq!(a * b, GridCoords { x: 10, y: -40 });
    let mut c = a;
    c += b;
    assert_eq!(c, GridCoords { x: 11, y: 18 });
    c -= a;
    assert_eq!(c, b);
    c *= a;
    assert_eq!(c, GridCoords { x: 10, y: -40 });
}

#[test]
fn grid_coords_conversions() {
    assert_eq!(GridCoords::from(IVec2::new(3, -4)), GridCoords { x: 3, y: -4 });
    assert_eq!(IVec2::from(GridCoords { x: 3, y: -4 }), IVec2::new(3, -4));
    assert_eq!(GridCoords::from(TilePos(5, 6)), GridCoords { x: 5, y: 6 });
    assert_eq!(
        GridCoords::from(TilePos(u32::MAX, 1 << 31)),
        GridCoords { x: -1, y: i32::MIN }
    );
}

#[test]
fn components_from_entity_info() {
    let entity_instance = EntityInstance {
        px: IVec2::new(48, 96),
        grid: IVec2::new(3, 6),
        def_uid: 12,
        width: 16,
        height: 16,
        tile: None,
    };
    let layer_instance = LayerInstance {
        level_id: 2,
        layer_def_uid: 5,
        c_hei: 10,
    };
    assert_eq!(
        Worldly::from_entity_info(&entity_instance, &layer_instance),
        Worldly {
            spawn_level: 2,
            spawn_layer: 5,
            entity_def_uid: 12,
            spawn_px: IVec2::new(48, 96),
        }
    );
    assert_eq!(
        GridCoords::from_entity_info(&entity_instance, &layer_instance),
        GridCoords { x: 3, y: 3 }
    );
}

#[test]
fn plain_components() {
    assert_eq!(IntGridCell::default(), IntGridCell { value: 0 });
    assert!(IntGridCell { value: 1 } < IntGridCell { value: 2 });
    let mut level_set = LevelSet::default();
    assert!(level_set.uids.is_empty());
    level_set.uids.insert(4);
    level_set.uids.insert(4);
    assert_eq!(level_set.uids.len(), 1);
}
