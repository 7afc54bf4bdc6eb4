use rulf_3d::collision::AABB;
use rulf_3d::game::GameWorld;
use rulf_3d::game::TileMap;
use rulf_3d::game::TileType;
use rulf_3d::game::create_test_gameworld;
use rulf_3d::game::pack_tile_key;
use rulf_3d::geometry::Vec2;

const FP: i64 = 65536;

#[test]
fn test_get_near_walls() {
    let tilemap = TileMap::test_tilemap();
    assert!(tilemap.circle_collision_check(Vec2::new(60 * FP, 60 * FP), 50 * FP).is_some());
}

#[test]
fn game_test_get_near_walls() {
    let gameworld = create_test_gameworld();
    assert!(gameworld.get_tilemap().circle_collision_test(Vec2::new(60 * FP, 60 * FP), 50 * FP));
}

#[test]
fn gameworld_walls_offset_test() {
    let gameworld = GameWorld::test_gameworld();
    let walls = gameworld.get_walls();
    assert!(walls.get(&pack_tile_key(0, 0)).is_some());
    assert!(walls.get(&pack_tile_key(1, 1)).is_none());
    assert!(walls.get(&pack_tile_key(7, 7)).is_some());
}

#[test]
fn game_gameworld_walls_offset_test() {
    let gameworld = create_test_gameworld();
    let walls_offset = gameworld.walls_offset();
    assert!(walls_offset.contains(&pack_tile_key(0, 0)));
    assert!(!walls_offset.contains(&pack_tile_key(1, 1)));
    assert!(walls_offset.contains(&pack_tile_key(7, 7)));
}

// A box and a circle overlap exactly when the circle reaches the box:
// concrete checks of the squared-distance test.
#[test]
fn aabb_circle_concrete() {
    let b = AABB::from_rect(Vec2::new(0, 0), 100 * FP, 100 * FP);
    assert!(b.circle_collision_check(Vec2::new(60 * FP, 60 * FP), 50 * FP));
    assert!(!b.circle_collision_check(Vec2::new(200 * FP, 200 * FP), 10 * FP));
    // Touching corner: center (110, 110), radius exactly the diagonal
    // distance sqrt(200) is irrational, so probe just inside and outside.
    assert!(b.circle_collision_check(Vec2::new(110 * FP, 100 * FP), 10 * FP));
    assert!(!b.circle_collision_check(Vec2::new(110 * FP, 100 * FP), 9 * FP));
}

// Never more than four coordinates come back, and all are wall tiles.
#[test]
fn near_walls_bounded() {
    let tilemap = TileMap::test_tilemap();
    for &(x, y) in &[(60i64, 60i64), (150, 150), (20, 700), (400, 400), (799, 799)] {
        let near = tilemap.get_near_walls_coord_from(Vec2::new(x * FP, y * FP));
        assert!(near.len() <= 4);
    }
    // Negative points have no nearby walls at all.
    assert!(tilemap.get_near_walls_coord_from(Vec2::new(-FP, 60 * FP)).is_empty());
}

// Scenario: on the bordered map the circle at (60, 60) with radius 50
// touches a border wall, while the player spot (200, 200) radius 25 is free.
#[test]
fn bordered_map_collision_spots() {
    let world = create_test_gameworld();
    let tm = world.get_tilemap();
    assert!(tm.circle_collision_check(Vec2::new(60 * FP, 60 * FP), 50 * FP).is_some());
    assert!(tm.circle_collision_check(Vec2::new(200 * FP, 200 * FP), 25 * FP).is_none());
}

// A non-colliding target position is committed exactly, with no clamping.
#[test]
fn free_move_is_exact() {
    let mut world = create_test_gameworld();
    let target = Vec2::new(233 * FP + 7, 411 * FP + 3);
    world.set_player_position(target);
    assert_eq!(world.get_player_position(), target);
}

// A diagonal move into a wall slides along the free axis.
#[test]
fn blocked_move_slides_on_one_axis() {
    let mut world = create_test_gameworld();
    // Toward the west wall and slightly north: the x part is blocked, the
    // y part is free.
    world.set_player_position(Vec2::new(90 * FP, 210 * FP));
    assert_eq!(world.get_player_position(), Vec2::new(200 * FP, 210 * FP));

    let mut world2 = create_test_gameworld();
    world2.set_player_position(Vec2::new(210 * FP, 90 * FP));
    assert_eq!(world2.get_player_position(), Vec2::new(210 * FP, 200 * FP));
}

// Scenario: a player wider than its one-tile room cannot move at all.
#[test]
fn enclosed_player_never_moves() {
    let data = vec![
        TileType::Wall(0), TileType::Wall(0), TileType::Wall(0),
        TileType::Wall(0), TileType::Empty(0, 0), TileType::Wall(0),
        TileType::Wall(0), TileType::Wall(0), TileType::Wall(0),
    ];
    let tilemap = TileMap { data, width: 3, height: 3, grid_size: 100 * FP };
    let mut world = GameWorld {
        tilemap,
        player: rulf_3d::game::Object {
            position: Vec2::new(150 * FP, 150 * FP),
            angle: 0,
            radius: 60 * FP,
        },
    };
    for &(dx, dy) in &[(10i64, 0i64), (0, 10), (-10, 0), (0, -10), (7, -3), (-2, 9)] {
        world.translate_player(Vec2::new(dx * FP, dy * FP));
        assert_eq!(world.get_player_position(), Vec2::new(150 * FP, 150 * FP));
    }
}

#[test]
fn rotation_accumulates() {
    let mut world = create_test_gameworld();
    world.rotate_player(100);
    world.rotate_player(-30);
    assert_eq!(world.get_player_angle(), 70);
    world.set_player_angle(5);
    assert_eq!(world.get_player_angle(), 5);
}

#[test]
fn world_getters() {
    let world = GameWorld::test_gameworld();
    assert_eq!(world.get_grid_size(), 100 * FP);
    assert_eq!(world.tile_grid_size(), Vec2::new(100 * FP, 100 * FP));
    assert_eq!(world.actors_position(), vec![Vec2::new(200 * FP, 200 * FP)]);
    assert_eq!(world.actors_angle(), vec![0i64]);
    assert_eq!(
        world.actors_position_angle_flatten(),
        vec![[200 * FP, 200 * FP, 0i64]]
    );
}
