//! Tile map, collision resolution and the game world aggregate.
//!
//! A `TileMap` is a dense row-major grid of cells.  Collision queries round a
//! world point to its nearest grid vertex and examine only the (up to) four
//! tiles touching that vertex, which suffices for circles of radius below
//! half a grid cell.

use vstd::prelude::*;
use std::collections::HashMap;
use std::collections::HashSet;
use crate::geometry::Vec2;
use crate::geometry::GRID_MAX;
use crate::geometry::POS_LIMIT;
use crate::collision::AABB;
use crate::collision::aabb_circle_collides;

verus! {

broadcast use vstd::std_specs::hash::group_hash_axioms;

/// Largest accepted tile count along one axis of a map.
pub const TILE_SPAN: u32 = 65536;

/// One grid cell: passable (with floor and ceiling texture ids) or a wall
/// carrying its texture id.
#[derive(Clone, Copy, Debug, PartialEq, Eq, Structural)]
pub enum TileType {
    Empty(u32, u32),
    Wall(u32),
}

pub struct TileMap {
    pub data: Vec<TileType>,
    pub width: u32,
    pub height: u32,
    pub grid_size: i64,
}

/// The cell option holds a wall.
pub open spec fn is_wall(t: Option<TileType>) -> bool {
    match t {
        Some(TileType::Wall(_)) => true,
        _ => false,
    }
}

/// Texture id of a wall cell option (0 if it is not a wall).
pub open spec fn wall_tex(t: Option<TileType>) -> u32 {
    match t {
        Some(TileType::Wall(id)) => id,
        _ => 0,
    }
}

/// World point rounded to the nearest tile-grid vertex along one axis,
/// saturated to the `u32` range (`p >= 0`, `g >= 1`).
pub open spec fn rounded_tile_coord(p: int, g: int) -> int {
    let r = (2 * p + g) / (2 * g);
    if r > u32::MAX {
        u32::MAX as int
    } else {
        r
    }
}

/// World-space box of the tile at integer coordinate `c` for grid size `g`.
pub open spec fn tile_aabb(c: (int, int), g: int) -> AABB {
    AABB {
        left: (c.0 * g) as i64,
        right: (c.0 * g + g) as i64,
        bottom: (c.1 * g) as i64,
        top: (c.1 * g + g) as i64,
    }
}

/// First box in `coords` (world boxes of tile coordinates) that overlaps the
/// circle around `(px, py)`, in sequence order.
pub open spec fn first_colliding(coords: Seq<(int, int)>, g: int, px: int, py: int, radius: int) -> Option<
    AABB,
>
    decreases coords.len(),
{
    if coords.len() == 0 {
        None
    } else {
        let b = tile_aabb(coords[0], g);
        if aabb_circle_collides(b, px, py, radius) {
            Some(b)
        } else {
            first_colliding(coords.skip(1), g, px, py, radius)
        }
    }
}

impl TileMap {
    /// Well-formed map: dense data, bounded span, positive grid size.
    pub open spec fn wf(self) -> bool {
        &&& self.data@.len() == self.width * self.height
        &&& 1 <= self.grid_size <= GRID_MAX
        &&& self.width <= TILE_SPAN
        &&& self.height <= TILE_SPAN
    }

    /// Cell at integer tile coordinate, `None` outside the grid.
    pub open spec fn tile_spec(self, x: int, y: int) -> Option<TileType> {
        if 0 <= x < self.width && 0 <= y < self.height {
            Some(self.data@[y * self.width + x])
        } else {
            None
        }
    }

    /// One-element sequence holding `(x, y)` when that tile is a wall.
    pub open spec fn wall_only(self, x: int, y: int) -> Seq<(int, int)> {
        if x >= 0 && y >= 0 && is_wall(self.tile_spec(x, y)) {
            seq![(x, y)]
        } else {
            Seq::empty()
        }
    }

    /// The wall tiles among the four tiles touching the grid vertex nearest
    /// to `(px, py)`, in probe order; empty for negative points.
    pub open spec fn near_wall_coords(self, px: int, py: int) -> Seq<(int, int)> {
        if px < 0 || py < 0 {
            Seq::empty()
        } else {
            let x = rounded_tile_coord(px, self.grid_size as int);
            let y = rounded_tile_coord(py, self.grid_size as int);
            self.wall_only(x, y) + self.wall_only(x - 1, y) + self.wall_only(x, y - 1)
                + self.wall_only(x - 1, y - 1)
        }
    }

    /// World box of the first nearby wall overlapping the circle, if any.
    pub open spec fn circle_collision_spec(self, px: int, py: int, radius: int) -> Option<AABB> {
        first_colliding(
            self.near_wall_coords(px, py),
            self.grid_size as int,
            px,
            py,
            radius,
        )
    }

    pub fn get_tile(&self, x: u32, y: u32) -> (r: Option<TileType>)
        requires
            self.wf(),
        ensures
            r == self.tile_spec(x as int, y as int),
    {
        if x >= self.width || y >= self.height {
            return None;
        }
        proof {
            assert(y as int * self.width as int + x < self.width * self.height
                && self.width * self.height <= 0x100000000) by (nonlinear_arith)
                requires
                    0 <= x < self.width,
                    0 <= y < self.height,
                    self.width <= 0x10000,
                    self.height <= 0x10000,
            ;
        }
        let idx: u64 = y as u64 * self.width as u64 + x as u64;
        Some(self.data[idx as usize])
    }

    fn tile_is_wall(&self, x: u32, y: u32) -> (r: bool)
        requires
            self.wf(),
        ensures
            r == is_wall(self.tile_spec(x as int, y as int)),
    {
        match self.get_tile(x, y) {
            Some(TileType::Wall(_)) => true,
            _ => false,
        }
    }

    /// Nearest-vertex coordinate of a non-negative world scalar.
    fn coord_round(&self, p: i64) -> (r: u32)
        requires
            self.wf(),
            0 <= p <= POS_LIMIT,
        ensures
            r as int == rounded_tile_coord(p as int, self.grid_size as int),
    {
        let num: u64 = (2 * p + self.grid_size) as u64;
        let den: u64 = (2 * self.grid_size) as u64;
        let q: u64 = num / den;
        if q > u32::MAX as u64 {
            u32::MAX
        } else {
            q as u32
        }
    }

    /// Tile coordinate whose corner vertex is nearest to `point`: each axis
    /// is divided by the grid size and rounded to the nearest integer (not
    /// floored), so the result names a grid vertex rather than the
    /// occupied cell.
    pub fn point_to_tile_coord(&self, point: Vec2) -> (r: (u32, u32))
        requires
            self.wf(),
            0 <= point.x <= POS_LIMIT,
            0 <= point.y <= POS_LIMIT,
        ensures
            r.0 as int == rounded_tile_coord(point.x as int, self.grid_size as int),
            r.1 as int == rounded_tile_coord(point.y as int, self.grid_size as int),
    {
        (self.coord_round(point.x), self.coord_round(point.y))
    }

    /// Tile coordinates of the wall cells around the grid vertex nearest to
    /// `point`; never more than four, all with in-range, wall-carrying
    /// coordinates.
    pub fn get_near_walls_coord_from(&self, point: Vec2) -> (r: Vec<(u32, u32)>)
        requires
            self.wf(),
            -POS_LIMIT <= point.x <= POS_LIMIT,
            -POS_LIMIT <= point.y <= POS_LIMIT,
        ensures
            r@.len() <= 4,
            r@.map_values(|c: (u32, u32)| (c.0 as int, c.1 as int)) == self.near_wall_coords(
                point.x as int,
                point.y as int,
            ),
    {
        let mut retval: Vec<(u32, u32)> = Vec::new();
        if point.x < 0 || point.y < 0 {
            assert(retval@.map_values(|c: (u32, u32)| (c.0 as int, c.1 as int)) =~= Seq::empty());
            return retval;
        }
        let x = self.coord_round(point.x);
        let y = self.coord_round(point.y);
        if self.tile_is_wall(x, y) {
            retval.push((x, y));
        }
        if x > 0 && self.tile_is_wall(x - 1, y) {
            retval.push((x - 1, y));
        }
        if y > 0 && self.tile_is_wall(x, y - 1) {
            retval.push((x, y - 1));
        }
        if x > 0 && y > 0 && self.tile_is_wall(x - 1, y - 1) {
            retval.push((x - 1, y - 1));
        }
        proof {
            assert(retval@.map_values(|c: (u32, u32)| (c.0 as int, c.1 as int))
                =~= self.near_wall_coords(point.x as int, point.y as int));
        }
        retval
    }

    /// World box of the first nearby wall tile that the circle around
    /// `position` overlaps, probing the four tiles at the nearest grid
    /// vertex in order; `None` when the circle is free.
    pub fn circle_collision_check(&self, position: Vec2, radius: i64) -> (r: Option<AABB>)
        requires
            self.wf(),
            -POS_LIMIT <= position.x <= POS_LIMIT,
            -POS_LIMIT <= position.y <= POS_LIMIT,
            -POS_LIMIT <= radius <= POS_LIMIT,
        ensures
            r == self.circle_collision_spec(position.x as int, position.y as int, radius as int),
    {
        proof {
            lemma_near_coords_are_walls(*self, position.x as int, position.y as int);
        }
        let near = self.get_near_walls_coord_from(position);
        let ghost coords = self.near_wall_coords(position.x as int, position.y as int);
        let ghost g = self.grid_size as int;
        proof {
            assert(coords.skip(0) =~= coords);
        }
        let mut i: usize = 0;
        while i < near.len()
            invariant
                self.wf(),
                -POS_LIMIT <= position.x <= POS_LIMIT,
                -POS_LIMIT <= position.y <= POS_LIMIT,
                -POS_LIMIT <= radius <= POS_LIMIT,
                g == self.grid_size as int,
                coords == self.near_wall_coords(position.x as int, position.y as int),
                near@.map_values(|c: (u32, u32)| (c.0 as int, c.1 as int)) == coords,
                i <= near@.len(),
                forall|j: int| 0 <= j < coords.len() ==> {
                    let c = #[trigger] coords[j];
                    0 <= c.0 < self.width && 0 <= c.1 < self.height
                },
                self.circle_collision_spec(position.x as int, position.y as int, radius as int)
                    == first_colliding(
                    coords.skip(i as int),
                    g,
                    position.x as int,
                    position.y as int,
                    radius as int,
                ),
            decreases near@.len() - i,
        {
            let (cx, cy) = near[i];
            proof {
                assert(coords[i as int] == (cx as int, cy as int));
                assert(cx as int * self.grid_size as int <= 65535 * 0x40000000
                    && cx as int * self.grid_size as int >= 0) by (nonlinear_arith)
                    requires
                        0 <= cx as int <= 65535,
                        1 <= self.grid_size as int <= 0x40000000,
                ;
                assert(cy as int * self.grid_size as int <= 65535 * 0x40000000
                    && cy as int * self.grid_size as int >= 0) by (nonlinear_arith)
                    requires
                        0 <= cy as int <= 65535,
                        1 <= self.grid_size as int <= 0x40000000,
                ;
            }
            let wall_offset = Vec2::new(cx as i64 * self.grid_size, cy as i64 * self.grid_size);
            let aabb = AABB::from_rect(wall_offset, self.grid_size, self.grid_size);
            proof {
                assert(aabb == tile_aabb(coords[i as int], g));
            }
            if aabb.circle_collision_check(position, radius) {
                return Some(aabb);
            }
            i = i + 1;
            proof {
                assert(coords.skip(i - 1 as int).skip(1) =~= coords.skip(i as int));
            }
        }
        None
    }

    /// True exactly when some nearby wall tile overlaps the circle.
    pub fn circle_collision_test(&self, position: Vec2, radius: i64) -> (r: bool)
        requires
            self.wf(),
            -POS_LIMIT <= position.x <= POS_LIMIT,
            -POS_LIMIT <= position.y <= POS_LIMIT,
            -POS_LIMIT <= radius <= POS_LIMIT,
        ensures
            r == self.circle_collision_spec(
                position.x as int,
                position.y as int,
                radius as int,
            ) is Some,
    {
        self.circle_collision_check(position, radius).is_some()
    }
}

/// Key of the wall table for tile `(x, y)`: row in the high 32 bits,
/// column in the low 32 bits.
pub open spec fn pack_key(x: int, y: int) -> int {
    y * 0x100000000 + x
}

/// Column encoded in a wall-table key.
pub open spec fn key_col(k: u64) -> int {
    k as int % 0x100000000
}

/// Row encoded in a wall-table key.
pub open spec fn key_row(k: u64) -> int {
    k as int / 0x100000000
}

/// The wall table of a map: every wall tile's packed coordinate mapped to
/// its texture id, and nothing else.
pub open spec fn walls_map(tm: TileMap) -> Map<u64, u32> {
    Map::new(
        |k: u64| is_wall(tm.tile_spec(key_col(k), key_row(k))),
        |k: u64| wall_tex(tm.tile_spec(key_col(k), key_row(k))),
    )
}

/// Wall table restricted to tiles strictly before row `y`, plus those of
/// row `y` strictly before column `x` (row-major prefix).
spec fn walls_map_upto(tm: TileMap, y: int, x: int) -> Map<u64, u32> {
    Map::new(
        |k: u64| is_wall(tm.tile_spec(key_col(k), key_row(k))) && (key_row(k) < y || (key_row(k)
            == y && key_col(k) < x)),
        |k: u64| wall_tex(tm.tile_spec(key_col(k), key_row(k))),
    )
}

pub(crate) proof fn lemma_pack_unpack(x: int, y: int)
    requires
        0 <= x < 0x100000000,
        0 <= y < 0x100000000,
    ensures
        0 <= pack_key(x, y) < 0x10000000000000000,
        key_col(pack_key(x, y) as u64) == x,
        key_row(pack_key(x, y) as u64) == y,
{
    assert(y * 0x100000000 + x < 0x10000000000000000 && 0 <= y * 0x100000000) by (nonlinear_arith)
        requires
            0 <= x < 0x100000000,
            0 <= y < 0x100000000,
    ;
    vstd::arithmetic::div_mod::lemma_fundamental_div_mod_converse_mod(
        pack_key(x, y),
        0x100000000,
        y,
        x,
    );
    vstd::arithmetic::div_mod::lemma_fundamental_div_mod_converse_div(
        pack_key(x, y),
        0x100000000,
        y,
        x,
    );
}

proof fn lemma_unpack_pack(k: u64)
    ensures
        0 <= key_col(k) < 0x100000000,
        0 <= key_row(k) < 0x100000000,
        pack_key(key_col(k), key_row(k)) == k as int,
{
    vstd::arithmetic::div_mod::lemma_fundamental_div_mod(k as int, 0x100000000);
}

/// Packed wall-table key for tile `(x, y)`, as produced by
/// `GameWorld::get_walls`.
pub fn pack_tile_key(x: u32, y: u32) -> (r: u64)
    ensures
        r as int == pack_key(x as int, y as int),
{
    y as u64 * 0x100000000u64 + x as u64
}

/// A movable actor: a collision circle at `position` facing `angle`
/// (fixed-point radians).
pub struct Object {
    pub position: Vec2,
    pub angle: i64,
    pub radius: i64,
}

pub struct GameWorld {
    pub tilemap: TileMap,
    pub player: Object,
}

/// Where an attempted move to `pos` actually puts the player: `pos` itself
/// when free, else a slide restricted to the x axis, else to the y axis,
/// else no movement.
pub open spec fn slide_position(w: GameWorld, pos: Vec2) -> Vec2 {
    let r = w.player.radius as int;
    if w.tilemap.circle_collision_spec(pos.x as int, pos.y as int, r) is None {
        pos
    } else {
        let trial_x = Vec2 { x: pos.x, y: w.player.position.y };
        let trial_y = Vec2 { x: w.player.position.x, y: pos.y };
        if w.tilemap.circle_collision_spec(trial_x.x as int, trial_x.y as int, r) is None {
            trial_x
        } else if w.tilemap.circle_collision_spec(trial_y.x as int, trial_y.y as int, r) is None {
            trial_y
        } else {
            w.player.position
        }
    }
}

impl GameWorld {
    /// Well-formed world: sound map, bounded player pose.
    pub open spec fn wf(self) -> bool {
        &&& self.tilemap.wf()
        &&& -POS_LIMIT <= self.player.position.x <= POS_LIMIT
        &&& -POS_LIMIT <= self.player.position.y <= POS_LIMIT
        &&& -POS_LIMIT <= self.player.radius <= POS_LIMIT
    }

    pub fn get_tilemap(&self) -> (r: &TileMap)
        ensures
            *r == self.tilemap,
    {
        &self.tilemap
    }

    pub fn get_grid_size(&self) -> (r: i64)
        ensures
            r == self.tilemap.grid_size,
    {
        self.tilemap.grid_size
    }

    /// Grid cell edge lengths along both axes (the grid is square).
    pub fn tile_grid_size(&self) -> (r: Vec2)
        ensures
            r == (Vec2 { x: self.tilemap.grid_size, y: self.tilemap.grid_size }),
    {
        Vec2 { x: self.tilemap.grid_size, y: self.tilemap.grid_size }
    }

    pub fn get_player_position(&self) -> (r: Vec2)
        ensures
            r == self.player.position,
    {
        self.player.position
    }

    pub fn get_player_angle(&self) -> (r: i64)
        ensures
            r == self.player.angle,
    {
        self.player.angle
    }

    pub fn set_player_angle(&mut self, ang: i64)
        ensures
            *final(self) == (GameWorld {
                player: Object { angle: ang, ..old(self).player },
                ..*old(self)
            }),
    {
        self.player.angle = ang;
    }

    /// Turning is unconditional; the angle accumulates with two's-complement
    /// wrap-around, far beyond any full turn.
    pub fn rotate_player(&mut self, wishang: i64)
        ensures
            *final(self) == (GameWorld {
                player: Object {
                    angle: vstd::wrapping::i64_specs::wrapping_add(old(self).player.angle, wishang),
                    ..old(self).player
                },
                ..*old(self)
            }),
    {
        self.player.angle = self.player.angle.wrapping_add(wishang);
    }

    pub fn actors_position(&self) -> (r: Vec<Vec2>)
        ensures
            r@ == seq![self.player.position],
    {
        let mut v: Vec<Vec2> = Vec::new();
        v.push(self.player.position);
        proof {
            assert(v@ =~= seq![self.player.position]);
        }
        v
    }

    pub fn actors_angle(&self) -> (r: Vec<i64>)
        ensures
            r@ == seq![self.player.angle],
    {
        let mut v: Vec<i64> = Vec::new();
        v.push(self.player.angle);
        proof {
            assert(v@ =~= seq![self.player.angle]);
        }
        v
    }

    /// Pose of every actor as `[x, y, angle]` triples (currently only the
    /// player).
    pub fn actors_position_angle_flatten(&self) -> (r: Vec<[i64; 3]>)
        ensures
            r@.len() == 1,
            r@[0] == [self.player.position.x, self.player.position.y, self.player.angle],
    {
        let mut v: Vec<[i64; 3]> = Vec::new();
        v.push([self.player.position.x, self.player.position.y, self.player.angle]);
        v
    }

    /// Move the player to `pos` if the circle there is free, else slide
    /// along one axis, else stay; the map, angle and radius never change.
    pub fn set_player_position(&mut self, pos: Vec2)
        requires
            old(self).wf(),
            -POS_LIMIT <= pos.x <= POS_LIMIT,
            -POS_LIMIT <= pos.y <= POS_LIMIT,
        ensures
            *final(self) == (GameWorld {
                player: Object {
                    position: slide_position(*old(self), pos),
                    ..old(self).player
                },
                ..*old(self)
            }),
            final(self).wf(),
    {
        match self.tilemap.circle_collision_check(pos, self.player.radius) {
            None => {
                self.player.position = pos;
            },
            Some(_) => {
                let trial_x = Vec2 { x: pos.x, y: self.player.position.y };
                if self.tilemap.circle_collision_check(trial_x, self.player.radius).is_none() {
                    self.player.position = trial_x;
                } else {
                    let trial_y = Vec2 { x: self.player.position.x, y: pos.y };
                    if self.tilemap.circle_collision_check(trial_y, self.player.radius).is_none() {
                        self.player.position = trial_y;
                    }
                }
            },
        }
    }

    /// Attempt a displacement by `wishvec`, with the same sliding rule as
    /// `set_player_position`.
    pub fn translate_player(&mut self, wishvec: Vec2)
        requires
            old(self).wf(),
            -POS_LIMIT <= old(self).player.position.x + wishvec.x <= POS_LIMIT,
            -POS_LIMIT <= old(self).player.position.y + wishvec.y <= POS_LIMIT,
        ensures
            *final(self) == (GameWorld {
                player: Object {
                    position: slide_position(
                        *old(self),
                        Vec2 {
                            x: (old(self).player.position.x + wishvec.x) as i64,
                            y: (old(self).player.position.y + wishvec.y) as i64,
                        },
                    ),
                    ..old(self).player
                },
                ..*old(self)
            }),
            final(self).wf(),
    {
        let pos = Vec2 {
            x: self.player.position.x + wishvec.x,
            y: self.player.position.y + wishvec.y,
        };
        self.set_player_position(pos);
    }

    /// The map's wall table: packed tile coordinate to texture id, holding
    /// exactly the wall cells.
    pub fn get_walls(&self) -> (r: HashMap<u64, u32>)
        requires
            self.tilemap.wf(),
        ensures
            r@ == walls_map(self.tilemap),
    {
        let tm = &self.tilemap;
        let mut m: HashMap<u64, u32> = HashMap::new();
        proof {
            assert(m@ =~= walls_map_upto(*tm, 0, 0));
        }
        let mut y: u32 = 0;
        while y < tm.height
            invariant
                tm.wf(),
                tm == self.tilemap,
                y <= tm.height,
                m@ == walls_map_upto(*tm, y as int, 0),
            decreases tm.height - y,
        {
            let mut x: u32 = 0;
            while x < tm.width
                invariant
                    tm.wf(),
                    tm == self.tilemap,
                    y < tm.height,
                    x <= tm.width,
                    m@ == walls_map_upto(*tm, y as int, x as int),
                decreases tm.width - x,
            {
                match tm.get_tile(x, y) {
                    Some(TileType::Wall(id)) => {
                        let k = pack_tile_key(x, y);
                        m.insert(k, id);
                        proof {
                            lemma_pack_unpack(x as int, y as int);
                            assert forall|k2: u64|
                                walls_map_upto(*tm, y as int, x as int + 1).dom().contains(k2)
                                    <==> m@.dom().contains(k2) by {
                                lemma_unpack_pack(k2);
                            }
                            assert(m@ =~= walls_map_upto(*tm, y as int, x as int + 1));
                        }
                    },
                    _ => {
                        proof {
                            lemma_pack_unpack(x as int, y as int);
                            assert forall|k2: u64|
                                walls_map_upto(*tm, y as int, x as int + 1).dom().contains(k2)
                                    <==> walls_map_upto(*tm, y as int, x as int).dom().contains(
                                    k2,
                                ) by {
                                lemma_unpack_pack(k2);
                            }
                            assert(m@ =~= walls_map_upto(*tm, y as int, x as int + 1));
                        }
                    },
                }
                x = x + 1;
            }
            proof {
                assert(m@ =~= walls_map_upto(*tm, y as int + 1, 0));
            }
            y = y + 1;
        }
        proof {
            assert(m@ =~= walls_map(self.tilemap));
        }
        m
    }

    /// The set of packed coordinates of all wall tiles.
    pub fn walls_offset(&self) -> (r: HashSet<u64>)
        requires
            self.tilemap.wf(),
        ensures
            r@ == walls_map(self.tilemap).dom(),
    {
        let tm = &self.tilemap;
        let mut s: HashSet<u64> = HashSet::new();
        proof {
            assert(s@ =~= walls_map_upto(*tm, 0, 0).dom());
        }
        let mut y: u32 = 0;
        while y < tm.height
            invariant
                tm.wf(),
                tm == self.tilemap,
                y <= tm.height,
                s@ == walls_map_upto(*tm, y as int, 0).dom(),
            decreases tm.height - y,
        {
            let mut x: u32 = 0;
            while x < tm.width
                invariant
                    tm.wf(),
                    tm == self.tilemap,
                    y < tm.height,
                    x <= tm.width,
                    s@ == walls_map_upto(*tm, y as int, x as int).dom(),
                decreases tm.width - x,
            {
                match tm.get_tile(x, y) {
                    Some(TileType::Wall(_)) => {
                        let k = pack_tile_key(x, y);
                        s.insert(k);
                        proof {
                            lemma_pack_unpack(x as int, y as int);
                            assert forall|k2: u64|
                                walls_map_upto(*tm, y as int, x as int + 1).dom().contains(k2)
                                    <==> s@.contains(k2) by {
                                lemma_unpack_pack(k2);
                            }
                            assert(s@ =~= walls_map_upto(*tm, y as int, x as int + 1).dom());
                        }
                    },
                    _ => {
                        proof {
                            lemma_pack_unpack(x as int, y as int);
                            assert forall|k2: u64|
                                walls_map_upto(*tm, y as int, x as int + 1).dom().contains(k2)
                                    <==> walls_map_upto(*tm, y as int, x as int).dom().contains(
                                    k2,
                                ) by {
                                lemma_unpack_pack(k2);
                            }
                            assert(s@ =~= walls_map_upto(*tm, y as int, x as int + 1).dom());
                        }
                    },
                }
                x = x + 1;
            }
            proof {
                assert(s@ =~= walls_map_upto(*tm, y as int + 1, 0).dom());
            }
            y = y + 1;
        }
        proof {
            assert(s@ =~= walls_map(self.tilemap).dom());
        }
        s
    }
}

/// Cell layout of the 8x8 demonstration map: a full wall border with
/// varied texture ids and two short interior wall runs.
pub open spec fn test_map_seq() -> Seq<TileType> {
    seq![
        TileType::Wall(0), TileType::Wall(1), TileType::Wall(2), TileType::Wall(3),
        TileType::Wall(3), TileType::Wall(2), TileType::Wall(1), TileType::Wall(0),
        TileType::Wall(1), TileType::Empty(0, 0), TileType::Empty(0, 0), TileType::Empty(0, 0),
        TileType::Empty(0, 0), TileType::Empty(0, 0), TileType::Empty(0, 0), TileType::Wall(1),
        TileType::Wall(2), TileType::Empty(0, 0), TileType::Empty(0, 0), TileType::Wall(0),
        TileType::Wall(1), TileType::Wall(2), TileType::Empty(0, 0), TileType::Wall(2),
        TileType::Wall(3), TileType::Empty(0, 0), TileType::Empty(0, 0), TileType::Empty(0, 0),
        TileType::Empty(0, 0), TileType::Wall(3), TileType::Empty(0, 0), TileType::Wall(3),
        TileType::Wall(3), TileType::Empty(0, 0), TileType::Empty(0, 0), TileType::Wall(0),
        TileType::Wall(1), TileType::Wall(2), TileType::Empty(0, 0), TileType::Wall(3),
        TileType::Wall(2), TileType::Empty(0, 0), TileType::Empty(0, 0), TileType::Empty(0, 0),
        TileType::Empty(0, 0), TileType::Empty(0, 0), TileType::Empty(0, 0), TileType::Wall(2),
        TileType::Wall(1), TileType::Empty(0, 0), TileType::Empty(0, 0), TileType::Empty(0, 0),
        TileType::Empty(0, 0), TileType::Empty(0, 0), TileType::Empty(0, 0), TileType::Wall(1),
        TileType::Wall(0), TileType::Wall(1), TileType::Wall(2), TileType::Wall(3),
        TileType::Wall(3), TileType::Wall(2), TileType::Wall(1), TileType::Wall(0),
    ]
}

/// Cell layout of the plain 8x8 bordered map: `Wall(0)` on the whole
/// border, empty inside.
pub open spec fn border_map_seq() -> Seq<TileType> {
    seq![
        TileType::Wall(0), TileType::Wall(0), TileType::Wall(0), TileType::Wall(0),
        TileType::Wall(0), TileType::Wall(0), TileType::Wall(0), TileType::Wall(0),
        TileType::Wall(0), TileType::Empty(0, 0), TileType::Empty(0, 0), TileType::Empty(0, 0),
        TileType::Empty(0, 0), TileType::Empty(0, 0), TileType::Empty(0, 0), TileType::Wall(0),
        TileType::Wall(0), TileType::Empty(0, 0), TileType::Empty(0, 0), TileType::Empty(0, 0),
        TileType::Empty(0, 0), TileType::Empty(0, 0), TileType::Empty(0, 0), TileType::Wall(0),
        TileType::Wall(0), TileType::Empty(0, 0), TileType::Empty(0, 0), TileType::Empty(0, 0),
        TileType::Empty(0, 0), TileType::Empty(0, 0), TileType::Empty(0, 0), TileType::Wall(0),
        TileType::Wall(0), TileType::Empty(0, 0), TileType::Empty(0, 0), TileType::Empty(0, 0),
        TileType::Empty(0, 0), TileType::Empty(0, 0), TileType::Empty(0, 0), TileType::Wall(0),
        TileType::Wall(0), TileType::Empty(0, 0), TileType::Empty(0, 0), TileType::Empty(0, 0),
        TileType::Empty(0, 0), TileType::Empty(0, 0), TileType::Empty(0, 0), TileType::Wall(0),
        TileType::Wall(0), TileType::Empty(0, 0), TileType::Empty(0, 0), TileType::Empty(0, 0),
        TileType::Empty(0, 0), TileType::Empty(0, 0), TileType::Empty(0, 0), TileType::Wall(0),
        TileType::Wall(0), TileType::Wall(0), TileType::Wall(0), TileType::Wall(0),
        TileType::Wall(0), TileType::Wall(0), TileType::Wall(0), TileType::Wall(0),
    ]
}

impl TileMap {
    /// The 8x8 demonstration map with a 100-unit grid.
    pub fn test_tilemap() -> (r: TileMap)
        ensures
            r.wf(),
            r.width == 8,
            r.height == 8,
            r.grid_size == 6553600,
            r.data@ == test_map_seq(),
    {
        let data: Vec<TileType> = vec![
            TileType::Wall(0), TileType::Wall(1), TileType::Wall(2), TileType::Wall(3),
            TileType::Wall(3), TileType::Wall(2), TileType::Wall(1), TileType::Wall(0),
            TileType::Wall(1), TileType::Empty(0, 0), TileType::Empty(0, 0), TileType::Empty(0, 0),
            TileType::Empty(0, 0), TileType::Empty(0, 0), TileType::Empty(0, 0), TileType::Wall(1),
            TileType::Wall(2), TileType::Empty(0, 0), TileType::Empty(0, 0), TileType::Wall(0),
            TileType::Wall(1), TileType::Wall(2), TileType::Empty(0, 0), TileType::Wall(2),
            TileType::Wall(3), TileType::Empty(0, 0), TileType::Empty(0, 0), TileType::Empty(0, 0),
            TileType::Empty(0, 0), TileType::Wall(3), TileType::Empty(0, 0), TileType::Wall(3),
            TileType::Wall(3), TileType::Empty(0, 0), TileType::Empty(0, 0), TileType::Wall(0),
            TileType::Wall(1), TileType::Wall(2), TileType::Empty(0, 0), TileType::Wall(3),
            TileType::Wall(2), TileType::Empty(0, 0), TileType::Empty(0, 0), TileType::Empty(0, 0),
            TileType::Empty(0, 0), TileType::Empty(0, 0), TileType::Empty(0, 0), TileType::Wall(2),
            TileType::Wall(1), TileType::Empty(0, 0), TileType::Empty(0, 0), TileType::Empty(0, 0),
            TileType::Empty(0, 0), TileType::Empty(0, 0), TileType::Empty(0, 0), TileType::Wall(1),
            TileType::Wall(0), TileType::Wall(1), TileType::Wall(2), TileType::Wall(3),
            TileType::Wall(3), TileType::Wall(2), TileType::Wall(1), TileType::Wall(0),
        ];
        proof {
            assert(data@ =~= test_map_seq());
            assert(data@.len() == 64);
            assert(8u32 * 8u32 == 64);
        }
        TileMap { data, width: 8, height: 8, grid_size: 6553600 }
    }
}

/// The plain bordered 8x8 map with a 100-unit grid.
fn create_test_tilemap() -> (r: TileMap)
    ensures
        r.wf(),
        r.width == 8,
        r.height == 8,
        r.grid_size == 6553600,
        r.data@ == border_map_seq(),
{
    let data: Vec<TileType> = vec![
        TileType::Wall(0), TileType::Wall(0), TileType::Wall(0), TileType::Wall(0),
        TileType::Wall(0), TileType::Wall(0), TileType::Wall(0), TileType::Wall(0),
        TileType::Wall(0), TileType::Empty(0, 0), TileType::Empty(0, 0), TileType::Empty(0, 0),
        TileType::Empty(0, 0), TileType::Empty(0, 0), TileType::Empty(0, 0), TileType::Wall(0),
        TileType::Wall(0), TileType::Empty(0, 0), TileType::Empty(0, 0), TileType::Empty(0, 0),
        TileType::Empty(0, 0), TileType::Empty(0, 0), TileType::Empty(0, 0), TileType::Wall(0),
        TileType::Wall(0), TileType::Empty(0, 0), TileType::Empty(0, 0), TileType::Empty(0, 0),
        TileType::Empty(0, 0), TileType::Empty(0, 0), TileType::Empty(0, 0), TileType::Wall(0),
        TileType::Wall(0), TileType::Empty(0, 0), TileType::Empty(0, 0), TileType::Empty(0, 0),
        TileType::Empty(0, 0), TileType::Empty(0, 0), TileType::Empty(0, 0), TileType::Wall(0),
        TileType::Wall(0), TileType::Empty(0, 0), TileType::Empty(0, 0), TileType::Empty(0, 0),
        TileType::Empty(0, 0), TileType::Empty(0, 0), TileType::Empty(0, 0), TileType::Wall(0),
        TileType::Wall(0), TileType::Empty(0, 0), TileType::Empty(0, 0), TileType::Empty(0, 0),
        TileType::Empty(0, 0), TileType::Empty(0, 0), TileType::Empty(0, 0), TileType::Wall(0),
        TileType::Wall(0), TileType::Wall(0), TileType::Wall(0), TileType::Wall(0),
        TileType::Wall(0), TileType::Wall(0), TileType::Wall(0), TileType::Wall(0),
    ];
    proof {
        assert(data@ =~= border_map_seq());
        assert(data@.len() == 64);
        assert(8u32 * 8u32 == 64);
    }
    TileMap { data, width: 8, height: 8, grid_size: 6553600 }
}

/// The demonstration player pose shared by the sample worlds.
pub open spec fn test_player() -> Object {
    Object { position: Vec2 { x: 13107200i64, y: 13107200i64 }, angle: 0i64, radius: 1638400i64 }
}

impl GameWorld {
    /// Sample world on the demonstration map: player at (200, 200) world
    /// units with radius 25.
    pub fn test_gameworld() -> (r: GameWorld)
        ensures
            r.wf(),
            r.tilemap.width == 8,
            r.tilemap.height == 8,
            r.tilemap.grid_size == 6553600,
            r.tilemap.data@ == test_map_seq(),
            r.player == test_player(),
    {
        GameWorld {
            tilemap: TileMap::test_tilemap(),
            player: Object {
                angle: 0,
                position: Vec2 { x: 13107200, y: 13107200 },
                radius: 1638400,
            },
        }
    }
}

/// Sample world on the plain bordered map: player at (200, 200) world units
/// with radius 25.
pub fn create_test_gameworld() -> (r: GameWorld)
    ensures
        r.wf(),
        r.tilemap.width == 8,
        r.tilemap.height == 8,
        r.tilemap.grid_size == 6553600,
        r.tilemap.data@ == border_map_seq(),
        r.player == test_player(),
{
    GameWorld {
        tilemap: create_test_tilemap(),
        player: Object { angle: 0, position: Vec2 { x: 13107200, y: 13107200 }, radius: 1638400 },
    }
}

/// Every coordinate listed by `near_wall_coords` lies inside the grid and
/// names a wall tile.
proof fn lemma_near_coords_are_walls(tm: TileMap, px: int, py: int)
    requires
        tm.wf(),
    ensures
        forall|j: int| 0 <= j < tm.near_wall_coords(px, py).len() ==> {
            let c = #[trigger] tm.near_wall_coords(px, py)[j];
            &&& 0 <= c.0 < tm.width
            &&& 0 <= c.1 < tm.height
            &&& is_wall(tm.tile_spec(c.0, c.1))
        },
{
    let s = tm.near_wall_coords(px, py);
    assert forall|j: int| 0 <= j < s.len() implies {
        let c = #[trigger] s[j];
        &&& 0 <= c.0 < tm.width
        &&& 0 <= c.1 < tm.height
        &&& is_wall(tm.tile_spec(c.0, c.1))
    } by {
        if !(px < 0 || py < 0) {
            let x = rounded_tile_coord(px, tm.grid_size as int);
            let y = rounded_tile_coord(py, tm.grid_size as int);
            let s0 = tm.wall_only(x, y);
            let s1 = tm.wall_only(x - 1, y);
            let s2 = tm.wall_only(x, y - 1);
            let s3 = tm.wall_only(x - 1, y - 1);
            assert(s == s0 + s1 + s2 + s3);
            let c = s[j];
            assert(c == s0[0] || c == s1[0] || c == s2[0] || c == s3[0]);
        }
    }
}

} // verus!
