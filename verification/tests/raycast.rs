use std::collections::HashMap;

use rulf_3d::game::GameWorld;
use rulf_3d::game::pack_tile_key;
use rulf_3d::geometry::Vec2;
use rulf_3d::raycasting::FovError;
use rulf_3d::raycasting::RayHit;
use rulf_3d::raycasting::multicast_raycols;
use rulf_3d::raycasting::multiple_raycast;
use rulf_3d::raycasting::single_raycast;

const FP: i64 = 65536;

fn fixed_angle(radians: f64) -> i64 {
    (radians * FP as f64) as i64
}

fn fixed_tan_half(fov_radians: f64) -> i64 {
    ((fov_radians / 2.0).tan() * FP as f64) as i64
}

fn test_walls() -> HashMap<u64, u32> {
    GameWorld::test_gameworld().get_walls()
}

// Scenario: a ray cast east from (150, 150) crosses the empty row and hits
// the border wall at tile (7, 1), which carries texture id 1.  The wall
// face lies at x = 700, so the projected distance is exactly 550 world
// units, and the ray enters the face at its vertical middle (u = 1/2).
#[test]
fn eastward_ray_hits_border() {
    let walls = test_walls();
    let hit = single_raycast(
        &walls,
        100 * FP,
        Vec2::new(150 * FP, 150 * FP),
        Vec2::new(FP, 0),
        50,
    );
    let hit = hit.expect("the border wall must be hit");
    assert_eq!(hit.texture_id, 1);
    assert_eq!(hit.distance, 550 * FP);
    assert_eq!(hit.u_offset, FP / 2);
    assert!(hit.distance > 0);
}

// A ray pointed at an interior wall block: from (150, 250) east, the first
// wall is (3, 2) with texture id 0, 150 world units away.
#[test]
fn eastward_ray_hits_interior_wall() {
    let walls = test_walls();
    let hit = single_raycast(
        &walls,
        100 * FP,
        Vec2::new(150 * FP, 250 * FP),
        Vec2::new(FP, 0),
        50,
    )
    .expect("the interior wall must be hit");
    assert_eq!(hit.texture_id, 0);
    assert_eq!(hit.distance, 150 * FP);
}

// A westward ray hits the east face of the border wall: the face sits at
// x = 100, and the texture offset is mirrored so it grows the same way as
// on the west faces.
#[test]
fn westward_ray_mirrors_offset() {
    let walls = test_walls();
    let hit = single_raycast(
        &walls,
        100 * FP,
        Vec2::new(150 * FP, 150 * FP),
        Vec2::new(-FP, 0),
        50,
    )
    .expect("the west border wall must be hit");
    assert_eq!(hit.texture_id, 1);
    assert_eq!(hit.distance, 50 * FP);
    assert_eq!(hit.u_offset, FP / 2);
}

// A northward ray crosses the empty column and hits the far border row.
#[test]
fn northward_ray_hits_far_border() {
    let walls = test_walls();
    let hit = single_raycast(
        &walls,
        100 * FP,
        Vec2::new(150 * FP, 150 * FP),
        Vec2::new(0, FP),
        50,
    )
    .expect("the far border wall must be hit");
    assert_eq!(hit.texture_id, 1);
    assert_eq!(hit.distance, 550 * FP);
    assert_eq!(hit.u_offset, FP / 2);
}

// The cell holding the origin itself is never tested: a ray started inside
// the wall tile (0, 0) does not report that tile.
#[test]
fn origin_tile_is_not_tested() {
    let walls = test_walls();
    let hit = single_raycast(
        &walls,
        100 * FP,
        Vec2::new(50 * FP, 50 * FP),
        Vec2::new(FP, 0),
        50,
    )
    .expect("the next wall along the ray is reported instead");
    // Travelling east along row 0 the next wall cell is (1, 0).
    assert_eq!(hit.texture_id, 1);
    assert_eq!(hit.distance, 50 * FP);
}

// Too few steps miss; once the wall is within the budget, raising the
// budget further never changes the reported hit.
#[test]
fn raising_step_budget_keeps_the_hit() {
    let walls = test_walls();
    let origin = Vec2::new(150 * FP, 150 * FP);
    let ray = Vec2::new(FP, 0);
    assert!(single_raycast(&walls, 100 * FP, origin, ray, 5).is_none());
    let first = single_raycast(&walls, 100 * FP, origin, ray, 6).expect("six crossings reach it");
    for steps in [7u32, 10, 50, 1000] {
        assert_eq!(single_raycast(&walls, 100 * FP, origin, ray, steps), Some(first));
    }
}

// Identical inputs give identical results.
#[test]
fn raycast_is_deterministic() {
    let walls = test_walls();
    let origin = Vec2::new(163 * FP + 11, 254 * FP + 99);
    let ray = Vec2::new(3 * FP / 7, -2 * FP / 5);
    let a = single_raycast(&walls, 100 * FP, origin, ray, 64);
    let b = single_raycast(&walls, 100 * FP, origin, ray, 64);
    assert_eq!(a, b);
}

// A ray leaving the map through the low edge reports nothing.
#[test]
fn ray_out_of_grid_misses() {
    let walls: HashMap<u64, u32> = HashMap::new();
    let miss = single_raycast(
        &walls,
        100 * FP,
        Vec2::new(150 * FP, 150 * FP),
        Vec2::new(-FP, 0),
        1000,
    );
    assert!(miss.is_none());
}

// Scenario: a field of view of pi (180 degrees) is rejected, wider too.
#[test]
fn fov_of_pi_is_rejected() {
    let walls = test_walls();
    let fov = fixed_angle(std::f64::consts::PI);
    let r = multiple_raycast(
        &walls,
        100 * FP,
        Vec2::new(200 * FP, 200 * FP),
        Vec2::new(FP, 0),
        fov,
        fixed_tan_half(std::f64::consts::PI),
        120,
        50,
    );
    assert_eq!(r, Err(FovError::FovTooWide));
    let cols = multicast_raycols(
        &walls,
        100 * FP,
        Vec2::new(200 * FP, 200 * FP),
        Vec2::new(FP, 0),
        fov,
        0,
        120,
        50,
    );
    assert_eq!(cols, Err(FovError::FovTooWide));
    // Just below pi the projection still goes through.
    let almost = fixed_angle(std::f64::consts::PI) - 10;
    let ok = multiple_raycast(
        &walls,
        100 * FP,
        Vec2::new(200 * FP, 200 * FP),
        Vec2::new(FP, 0),
        almost,
        fixed_tan_half(3.14),
        4,
        50,
    );
    assert!(ok.is_ok());
}

// One record per column, in order, for any column count.
#[test]
fn column_count_is_exact() {
    let walls = test_walls();
    let fov = fixed_angle(std::f64::consts::FRAC_PI_2);
    let tan_half = fixed_tan_half(std::f64::consts::FRAC_PI_2);
    for n in [0u32, 1, 2, 17, 320] {
        let cols = multiple_raycast(
            &walls,
            100 * FP,
            Vec2::new(200 * FP, 200 * FP),
            Vec2::new(FP, 0),
            fov,
            tan_half,
            n,
            50,
        )
        .expect("a right-angle fov projects fine");
        assert_eq!(cols.len(), n as usize);
    }
}

// Every column of a fan cast inside the closed test map hits a wall: no
// sentinel records, strictly positive distances, offsets within one face.
#[test]
fn fan_inside_closed_map_hits_everywhere() {
    let walls = test_walls();
    let fov = fixed_angle(std::f64::consts::FRAC_PI_2);
    let tan_half = fixed_tan_half(std::f64::consts::FRAC_PI_2);
    let cols = multiple_raycast(
        &walls,
        100 * FP,
        Vec2::new(200 * FP, 200 * FP),
        Vec2::new(FP, 0),
        fov,
        tan_half,
        64,
        200,
    )
    .expect("a right-angle fov projects fine");
    for hit in &cols {
        assert!(hit.distance > 0);
        assert!(hit.u_offset >= 0 && hit.u_offset <= FP);
    }
    // Repeating the cast reproduces every column exactly.
    let again = multiple_raycast(
        &walls,
        100 * FP,
        Vec2::new(200 * FP, 200 * FP),
        Vec2::new(FP, 0),
        fov,
        tan_half,
        64,
        200,
    )
    .expect("same inputs, same outcome");
    assert_eq!(cols, again);
}

// A degenerate camera direction leaves only sentinel columns.
#[test]
fn zero_camera_direction_gives_sentinels() {
    let walls = test_walls();
    let fov = fixed_angle(1.0);
    let tan_half = fixed_tan_half(1.0);
    let cols = multiple_raycast(
        &walls,
        100 * FP,
        Vec2::new(200 * FP, 200 * FP),
        Vec2::new(0, 0),
        fov,
        tan_half,
        8,
        50,
    )
    .expect("the fov itself is fine");
    for hit in &cols {
        assert_eq!(
            *hit,
            RayHit { distance: 0, texture_id: 0, u_offset: 0 }
        );
    }
    let points = multicast_raycols(
        &walls,
        100 * FP,
        Vec2::new(200 * FP, 200 * FP),
        Vec2::new(0, 0),
        fov,
        tan_half,
        8,
        50,
    )
    .expect("the fov itself is fine");
    assert_eq!(points.len(), 8);
    for p in &points {
        assert_eq!(*p, Vec2::new(0, 0));
    }
}

// Collision points lie on the hit wall faces: a single straight-east ray
// fan of one column from the row middle.
#[test]
fn raycols_single_column() {
    let walls = test_walls();
    // With a one-column fan the ray is the scaled camera direction plus a
    // quarter of the perpendicular.
    let points = multicast_raycols(
        &walls,
        100 * FP,
        Vec2::new(150 * FP, 150 * FP),
        Vec2::new(FP, 0),
        fixed_angle(std::f64::consts::FRAC_PI_2),
        fixed_tan_half(std::f64::consts::FRAC_PI_2),
        1,
        50,
    )
    .expect("a right-angle fov projects fine");
    assert_eq!(points.len(), 1);
    // The lone ray is (1/2, 1/4); it enters the wall block (3, 2) where it
    // crosses that cell's west border, so the point is the origin plus the
    // ray times the 300-unit projected distance: (300, 225), exactly on
    // the wall face at x = 300.
    let p = points[0];
    assert_eq!(p, Vec2::new(300 * FP, 225 * FP));
    assert_eq!(p.x % (100 * FP), 0);
}

#[test]
fn packed_keys_are_row_major() {
    assert_eq!(pack_tile_key(0, 0), 0);
    assert_eq!(pack_tile_key(7, 0), 7);
    assert_eq!(pack_tile_key(0, 1), 0x100000000);
    assert_eq!(pack_tile_key(7, 7), 7 + 7 * 0x100000000);
}
