//! Grid raycasting: a single-ray walker over the wall table and the
//! camera-plane fan of rays that feeds the column renderer.
//!
//! The walker advances through the tile grid one cell border at a time,
//! always along the axis whose next border is nearer.  With positions and
//! directions held as fixed-point integers, "nearer" is decided exactly by
//! cross-multiplying the two border distances, so the traversal needs no
//! division and no rounding at all; quotients appear only in the reported
//! distance and texture offset of a hit.

use vstd::prelude::*;
use std::collections::HashMap;
use crate::geometry::Vec2;
use crate::geometry::FP_ONE;
use crate::geometry::GRID_MAX;
use crate::geometry::POS_LIMIT;
use crate::geometry::DIR_LIMIT;
use crate::geometry::CAM_LEN_MAX;
use crate::geometry::FP_PI;
use crate::geometry::abs_i;
use crate::geometry::clamp_i;
use crate::geometry::sat_i64;
use crate::game::pack_key;
use crate::game::pack_tile_key;

verus! {

broadcast use vstd::std_specs::hash::group_hash_axioms;

/// What one cast ray reports for a screen column: the projected distance to
/// the wall, the wall's texture id, and the horizontal texture coordinate
/// (both fixed-point scalars).
#[derive(Clone, Copy, Debug, PartialEq, Eq, Structural)]
pub struct RayHit {
    pub distance: i64,
    pub texture_id: u32,
    pub u_offset: i64,
}

/// Rejection of a field of view too wide to project onto a camera plane.
#[derive(Clone, Copy, Debug, PartialEq, Eq, Structural)]
pub enum FovError {
    FovTooWide,
}

/// Internal outcome of the grid walk: the border-distance numerator of the
/// crossed border, whether that border was crossed stepping in x (east-west
/// wall face), and the wall's texture id.
pub ghost struct DdaHit {
    pub n: int,
    pub ew: bool,
    pub tex: u32,
}

/// Texture id stored in the wall table for tile `(tx, ty)`, if any.
pub open spec fn wall_lookup(walls: Map<u64, u32>, tx: int, ty: int) -> Option<u32> {
    if 0 <= tx < 0x100000000 && 0 <= ty < 0x100000000 && walls.contains_key(
        pack_key(tx, ty) as u64,
    ) {
        Some(walls[pack_key(tx, ty) as u64])
    } else {
        None
    }
}

/// The next crossed grid border lies in the x direction: that axis advances
/// and never moves on a zero direction component, whose border distance is
/// treated as infinite.
pub open spec fn x_advances(dx: int, dy: int, nx: int, ny: int) -> bool {
    dx != 0 && (dy == 0 || nx * abs_i(dy) < ny * abs_i(dx))
}

/// Numerator of the distance from `p` to the first grid border along one
/// axis: the offset inside the current cell toward the border the ray is
/// heading for (denominator `g * |d|`).
pub open spec fn side_num_init(p: int, g: int, d: int) -> int {
    if d < 0 {
        p % g
    } else {
        g - (p % g)
    }
}

/// One border crossing at a time: from tile `(tx, ty)` with pending border
/// numerators `nx`, `ny`, cross the nearer border, stop at the grid edge or
/// on a wall, and otherwise continue with at most `fuel - 1` crossings.
pub open spec fn dda_rec(
    walls: Map<u64, u32>,
    g: int,
    dx: int,
    dy: int,
    tx: int,
    ty: int,
    nx: int,
    ny: int,
    fuel: nat,
) -> Option<DdaHit>
    decreases fuel,
{
    if fuel == 0 {
        None
    } else if x_advances(dx, dy, nx, ny) {
        if dx < 0 && tx == 0 {
            None
        } else {
            let tx2 = if dx < 0 {
                tx - 1
            } else {
                tx + 1
            };
            match wall_lookup(walls, tx2, ty) {
                Some(tex) => Some(DdaHit { n: nx, ew: true, tex }),
                None => dda_rec(walls, g, dx, dy, tx2, ty, nx + g, ny, (fuel - 1) as nat),
            }
        }
    } else {
        if dy < 0 && ty == 0 {
            None
        } else {
            let ty2 = if dy < 0 {
                ty - 1
            } else {
                ty + 1
            };
            match wall_lookup(walls, tx, ty2) {
                Some(tex) => Some(DdaHit { n: ny, ew: false, tex }),
                None => dda_rec(walls, g, dx, dy, tx, ty2, nx, ny + g, (fuel - 1) as nat),
            }
        }
    }
}

/// The grid walk started from world point `(px, py)` along `(dx, dy)`.
pub open spec fn dda_core_spec(
    walls: Map<u64, u32>,
    g: int,
    px: int,
    py: int,
    dx: int,
    dy: int,
    fuel: nat,
) -> Option<DdaHit> {
    dda_rec(
        walls,
        g,
        dx,
        dy,
        px / g,
        py / g,
        side_num_init(px, g, dx),
        side_num_init(py, g, dy),
        fuel,
    )
}

/// Fixed-point projected world distance of a hit with border numerator `n`
/// crossed on the axis with direction component `d_axis`, saturated to
/// `i64`.
pub open spec fn hit_distance(n: int, d_axis: int) -> int {
    sat_i64(n * FP_ONE / abs_i(d_axis))
}

/// Fixed-point texture coordinate along the hit wall face: the fractional
/// position of the collision point on the face, oriented by the sign of the
/// direction so that it grows the same way on both sides of a wall.
pub open spec fn hit_u_offset(g: int, px: int, py: int, dx: int, dy: int, n: int, ew: bool) -> int {
    if ew {
        let den = g * abs_i(dx);
        let m = (py * abs_i(dx) + dy * n) % den;
        if dx > 0 {
            m * FP_ONE / den
        } else {
            (den - m) * FP_ONE / den
        }
    } else {
        let den = g * abs_i(dy);
        let m = (px * abs_i(dy) + dx * n) % den;
        if dy < 0 {
            m * FP_ONE / den
        } else {
            (den - m) * FP_ONE / den
        }
    }
}

/// The column record of a grid-walk hit.
pub open spec fn hit_record(g: int, px: int, py: int, dx: int, dy: int, h: DdaHit) -> RayHit {
    RayHit {
        distance: hit_distance(h.n, if h.ew { dx } else { dy }) as i64,
        texture_id: h.tex,
        u_offset: hit_u_offset(g, px, py, dx, dy, h.n, h.ew) as i64,
    }
}

/// Full specification of a single ray cast: the grid walk's outcome mapped
/// to a column record.
pub open spec fn raycast_spec(
    walls: Map<u64, u32>,
    g: int,
    px: int,
    py: int,
    dx: int,
    dy: int,
    fuel: nat,
) -> Option<RayHit> {
    match dda_core_spec(walls, g, px, py, dx, dy, fuel) {
        Some(h) => Some(hit_record(g, px, py, dx, dy, h)),
        None => None,
    }
}

/// Input bounds of a ray cast: a sound grid size, a non-negative bounded
/// origin, a bounded non-zero direction, and a step budget that keeps tile
/// coordinates inside `u32`.
pub open spec fn raycast_req(g: int, px: int, py: int, dx: int, dy: int, steps: int) -> bool {
    &&& 1 <= g <= GRID_MAX
    &&& 0 <= px <= POS_LIMIT
    &&& 0 <= py <= POS_LIMIT
    &&& -DIR_LIMIT <= dx <= DIR_LIMIT
    &&& -DIR_LIMIT <= dy <= DIR_LIMIT
    &&& !(dx == 0 && dy == 0)
    &&& px / g + steps < u32::MAX
    &&& py / g + steps < u32::MAX
}

proof fn lemma_mul_bounds(a: int, b: int, ma: int, mb: int)
    requires
        0 <= ma,
        0 <= mb,
        -ma <= a <= ma,
        -mb <= b <= mb,
    ensures
        -(ma * mb) <= a * b <= ma * mb,
{
    assert(-(ma * mb) <= a * b <= ma * mb) by (nonlinear_arith)
        requires
            0 <= ma,
            0 <= mb,
            -ma <= a <= ma,
            -mb <= b <= mb,
    ;
}

proof fn lemma_mul_le(g: int, a: int, b: int)
    requires
        0 <= g,
        a <= b,
    ensures
        g * a <= g * b,
{
    assert(g * a <= g * b) by (nonlinear_arith)
        requires
            0 <= g,
            a <= b,
    ;
}

proof fn lemma_mul_plus_one(g: int, a: int)
    ensures
        g * a + g == g * (a + 1),
{
    assert(g * a + g == g * (a + 1)) by (nonlinear_arith);
}

/// The grid walk, executed: returns the border numerator, crossed axis and
/// texture id of the first wall hit within `max_steps` crossings.
fn raycast_core(
    walls: &HashMap<u64, u32>,
    grid_size: i64,
    from: Vec2,
    rayvec: Vec2,
    max_steps: u32,
) -> (r: Option<(i64, bool, u32)>)
    requires
        raycast_req(
            grid_size as int,
            from.x as int,
            from.y as int,
            rayvec.x as int,
            rayvec.y as int,
            max_steps as int,
        ),
    ensures
        ({
            let s = dda_core_spec(
                walls@,
                grid_size as int,
                from.x as int,
                from.y as int,
                rayvec.x as int,
                rayvec.y as int,
                max_steps as nat,
            );
            match r {
                Some((n, ew, tex)) => {
                    &&& s == Some(DdaHit { n: n as int, ew, tex })
                    &&& 0 <= n <= grid_size * (max_steps as int + 1)
                },
                None => s is None,
            }
        }),
{
    let ghost g = grid_size as int;
    let ghost px = from.x as int;
    let ghost py = from.y as int;
    let ghost dx = rayvec.x as int;
    let ghost dy = rayvec.y as int;
    let dxv = rayvec.x;
    let dyv = rayvec.y;
    let adx: i64 = if dxv < 0 {
        -dxv
    } else {
        dxv
    };
    let ady: i64 = if dyv < 0 {
        -dyv
    } else {
        dyv
    };
    let gu = grid_size as u64;
    let tx0: u64 = (from.x as u64) / gu;
    let ty0: u64 = (from.y as u64) / gu;
    let rx: i64 = ((from.x as u64) % gu) as i64;
    let ry: i64 = ((from.y as u64) % gu) as i64;
    let mut tx: u32 = tx0 as u32;
    let mut ty: u32 = ty0 as u32;
    let mut nx: i64 = if dxv < 0 {
        rx
    } else {
        grid_size - rx
    };
    let mut ny: i64 = if dyv < 0 {
        ry
    } else {
        grid_size - ry
    };
    let mut steps: u32 = 0;
    proof {
        vstd::arithmetic::div_mod::lemma_mod_bound(px, g);
        vstd::arithmetic::div_mod::lemma_mod_bound(py, g);
        assert(tx as int == px / g);
        assert(ty as int == py / g);
        assert(nx as int == side_num_init(px, g, dx));
        assert(ny as int == side_num_init(py, g, dy));
    }
    while steps < max_steps
        invariant
            raycast_req(g, px, py, dx, dy, max_steps as int),
            g == grid_size as int,
            px == from.x as int,
            py == from.y as int,
            dx == rayvec.x as int,
            dy == rayvec.y as int,
            dxv == rayvec.x,
            dyv == rayvec.y,
            adx as int == abs_i(dx),
            ady as int == abs_i(dy),
            steps <= max_steps,
            0 <= nx as int <= g * (steps as int + 1),
            0 <= ny as int <= g * (steps as int + 1),
            tx as int <= px / g + steps as int,
            ty as int <= py / g + steps as int,
            dda_core_spec(walls@, g, px, py, dx, dy, max_steps as nat) == dda_rec(
                walls@,
                g,
                dx,
                dy,
                tx as int,
                ty as int,
                nx as int,
                ny as int,
                (max_steps - steps) as nat,
            ),
        decreases max_steps - steps,
    {
        proof {
            lemma_mul_bounds(nx as int, ady as int, 0x7fffffffffffffff, 0x7fffffffffffffff);
            lemma_mul_bounds(ny as int, adx as int, 0x7fffffffffffffff, 0x7fffffffffffffff);
            lemma_mul_bounds(g, steps as int + 2, GRID_MAX as int, 0x100000001);
            lemma_mul_bounds(g, steps as int + 1, GRID_MAX as int, 0x100000001);
        }
        let ghost rem = (max_steps - steps) as nat;
        steps = steps + 1;
        let xadv: bool = dxv != 0 && (dyv == 0 || (nx as i128) * (ady as i128) < (ny as i128) * (
        adx as i128));
        proof {
            assert(xadv == x_advances(dx, dy, nx as int, ny as int));
        }
        if xadv {
            if dxv < 0 && tx == 0 {
                proof {
                    assert(dda_rec(walls@, g, dx, dy, tx as int, ty as int, nx as int, ny as int, rem)
                        is None);
                }
                return None;
            }
            let tx2: u32 = if dxv < 0 {
                tx - 1
            } else {
                tx + 1
            };
            let ghost old_tx = tx as int;
            tx = tx2;
            let key = pack_tile_key(tx, ty);
            proof {
                crate::game::lemma_pack_unpack(tx as int, ty as int);
            }
            match walls.get(&key) {
                Some(tex) => {
                    proof {
                        assert(wall_lookup(walls@, tx as int, ty as int) == Some(*tex));
                        assert(dda_rec(walls@, g, dx, dy, old_tx, ty as int, nx as int, ny as int, rem)
                            == Some(DdaHit { n: nx as int, ew: true, tex: *tex }));
                    }
                    proof {
                        lemma_mul_le(g, steps as int, max_steps as int + 1);
                    }
                    return Some((nx, true, *tex));
                },
                None => {
                    proof {
                        assert(wall_lookup(walls@, tx as int, ty as int) is None);
                        assert(dda_rec(walls@, g, dx, dy, old_tx, ty as int, nx as int, ny as int, rem)
                            == dda_rec(
                            walls@,
                            g,
                            dx,
                            dy,
                            tx as int,
                            ty as int,
                            nx as int + g,
                            ny as int,
                            (rem - 1) as nat,
                        ));
                    }
                    nx = nx + grid_size;
                    proof {
                        lemma_mul_plus_one(g, steps as int);
                    }
                },
            }
        } else {
            if dyv < 0 && ty == 0 {
                proof {
                    assert(dda_rec(walls@, g, dx, dy, tx as int, ty as int, nx as int, ny as int, rem)
                        is None);
                }
                return None;
            }
            let ty2: u32 = if dyv < 0 {
                ty - 1
            } else {
                ty + 1
            };
            let ghost old_ty = ty as int;
            ty = ty2;
            let key = pack_tile_key(tx, ty);
            proof {
                crate::game::lemma_pack_unpack(tx as int, ty as int);
            }
            match walls.get(&key) {
                Some(tex) => {
                    proof {
                        assert(wall_lookup(walls@, tx as int, ty as int) == Some(*tex));
                        assert(dda_rec(walls@, g, dx, dy, tx as int, old_ty, nx as int, ny as int, rem)
                            == Some(DdaHit { n: ny as int, ew: false, tex: *tex }));
                    }
                    proof {
                        lemma_mul_le(g, steps as int, max_steps as int + 1);
                    }
                    return Some((ny, false, *tex));
                },
                None => {
                    proof {
                        assert(wall_lookup(walls@, tx as int, ty as int) is None);
                        assert(dda_rec(walls@, g, dx, dy, tx as int, old_ty, nx as int, ny as int, rem)
                            == dda_rec(
                            walls@,
                            g,
                            dx,
                            dy,
                            tx as int,
                            ty as int,
                            nx as int,
                            ny as int + g,
                            (rem - 1) as nat,
                        ));
                    }
                    ny = ny + grid_size;
                    proof {
                        lemma_mul_plus_one(g, steps as int);
                    }
                },
            }
        }
    }
    None
}

/// Build the column record of a hit from the grid walk's outcome.
fn make_hit(grid_size: i64, from: Vec2, rayvec: Vec2, n: i64, ew: bool, tex: u32) -> (r: RayHit)
    requires
        1 <= grid_size <= GRID_MAX,
        0 <= from.x <= POS_LIMIT,
        0 <= from.y <= POS_LIMIT,
        -DIR_LIMIT <= rayvec.x <= DIR_LIMIT,
        -DIR_LIMIT <= rayvec.y <= DIR_LIMIT,
        ew ==> rayvec.x != 0,
        !ew ==> rayvec.y != 0,
        0 <= n,
    ensures
        r == hit_record(
            grid_size as int,
            from.x as int,
            from.y as int,
            rayvec.x as int,
            rayvec.y as int,
            DdaHit { n: n as int, ew, tex },
        ),
{
    let dax: i64 = if ew {
        rayvec.x
    } else {
        rayvec.y
    };
    let dother: i64 = if ew {
        rayvec.y
    } else {
        rayvec.x
    };
    let pother: i64 = if ew {
        from.y
    } else {
        from.x
    };
    let ada: u128 = (if dax < 0 {
        -dax
    } else {
        dax
    }) as u128;
    let ghost gi = grid_size as int;
    let ghost ni = n as int;
    let ghost dai = abs_i(dax as int);
    let ghost doi = dother as int;
    let ghost poi = pother as int;

    // Projected distance, saturated to i64.
    proof {
        lemma_mul_bounds(ni, FP_ONE as int, 0x7fffffffffffffff, 0x10000);
    }
    let dist_num: u128 = (n as u128) * (FP_ONE as u128);
    let dist_q: u128 = dist_num / ada;
    let distance: i64 = if dist_q > i64::MAX as u128 {
        i64::MAX
    } else {
        dist_q as i64
    };
    proof {
        assert(distance as int == hit_distance(ni, dax as int));
    }

    // Texture offset: Euclidean remainder of the collision point inside the
    // hit face, then oriented by the direction's sign.
    proof {
        lemma_mul_bounds(gi, dai, GRID_MAX as int, DIR_LIMIT as int);
        lemma_mul_bounds(poi, dai, POS_LIMIT as int, DIR_LIMIT as int);
        lemma_mul_bounds(abs_i(doi), ni, DIR_LIMIT as int, 0x7fffffffffffffff);
        assert(gi * dai >= 1) by (nonlinear_arith)
            requires
                gi >= 1,
                dai >= 1,
        ;
    }
    let den: u128 = (grid_size as u128) * ada;
    let pos_part: u128 = (pother as u128) * ada;
    let t: u128 = ((if dother < 0 {
        -dother
    } else {
        dother
    }) as u128) * (n as u128);
    let ghost num = poi * dai + doi * ni;
    proof {
        if doi < 0 {
            assert((-doi) * ni == -(doi * ni)) by (nonlinear_arith);
        }
        assert(t as int == abs_i(doi) * ni);
        assert(doi >= 0 ==> num == pos_part as int + t as int);
        assert(doi < 0 ==> num == pos_part as int - t as int);
    }
    let m: u128 = if dother >= 0 {
        (pos_part + t) % den
    } else if t <= pos_part {
        (pos_part - t) % den
    } else {
        let mt: u128 = t % den;
        let num2: u128 = pos_part + (den - mt);
        proof {
            let di = den as int;
            let q = t as int / di;
            vstd::arithmetic::div_mod::lemma_fundamental_div_mod(t as int, di);
            vstd::arithmetic::div_mod::lemma_mod_bound(t as int, di);
            assert(di * (q + 1) == di * q + di) by (nonlinear_arith);
            assert(num2 as int == di * (q + 1) + num);
            vstd::arithmetic::div_mod::lemma_mod_multiples_vanish(q + 1, num, di);
            assert(num2 as int % di == num % di);
        }
        num2 % den
    };
    proof {
        assert(m as int == num % den as int);
        vstd::arithmetic::div_mod::lemma_mod_bound(num, den as int);
        lemma_mul_bounds(den as int, FP_ONE as int, 0x10000000010000000000, 0x10000);
        vstd::arithmetic::div_mod::lemma_div_is_ordered(
            (den - m) as int * FP_ONE as int,
            den as int * FP_ONE as int,
            den as int,
        );
        vstd::arithmetic::div_mod::lemma_div_is_ordered(
            m as int * FP_ONE as int,
            den as int * FP_ONE as int,
            den as int,
        );
        vstd::arithmetic::div_mod::lemma_div_multiples_vanish(FP_ONE as int, den as int);
        assert(den as int * FP_ONE as int == FP_ONE as int * den as int) by (nonlinear_arith);
    }
    let flip: bool = if ew {
        !(rayvec.x > 0)
    } else {
        !(rayvec.y < 0)
    };
    let u_q: u128 = if flip {
        ((den - m) * (FP_ONE as u128)) / den
    } else {
        (m * (FP_ONE as u128)) / den
    };
    let u_offset: i64 = u_q as i64;
    proof {
        assert(u_offset as int == hit_u_offset(
            gi,
            from.x as int,
            from.y as int,
            rayvec.x as int,
            rayvec.y as int,
            ni,
            ew,
        ));
    }
    RayHit { distance, texture_id: tex, u_offset }
}

/// Cast one ray from `from` along `ray_vector` through the wall table,
/// crossing at most `max_steps` cell borders; reports the first wall cell
/// entered, its projected distance and its texture coordinate.  The cell
/// holding `from` itself is never tested.  The result is a function of the
/// arguments alone.
pub fn single_raycast(
    walls: &HashMap<u64, u32>,
    grid_size: i64,
    from: Vec2,
    ray_vector: Vec2,
    max_steps: u32,
) -> (r: Option<RayHit>)
    requires
        raycast_req(
            grid_size as int,
            from.x as int,
            from.y as int,
            ray_vector.x as int,
            ray_vector.y as int,
            max_steps as int,
        ),
    ensures
        r == raycast_spec(
            walls@,
            grid_size as int,
            from.x as int,
            from.y as int,
            ray_vector.x as int,
            ray_vector.y as int,
            max_steps as nat,
        ),
{
    match raycast_core(walls, grid_size, from, ray_vector, max_steps) {
        Some((n, ew, tex)) => {
            proof {
                lemma_dda_hit_axis(
                    walls@,
                    grid_size as int,
                    ray_vector.x as int,
                    ray_vector.y as int,
                    from.x as int / grid_size as int,
                    from.y as int / grid_size as int,
                    side_num_init(from.x as int, grid_size as int, ray_vector.x as int),
                    side_num_init(from.y as int, grid_size as int, ray_vector.y as int),
                    max_steps as nat,
                );
            }
            Some(make_hit(grid_size, from, ray_vector, n, ew, tex))
        },
        None => None,
    }
}

/// A hit reported on the east-west axis was produced while stepping in x,
/// so the x direction component cannot be zero (and likewise for y).
proof fn lemma_dda_hit_axis(
    walls: Map<u64, u32>,
    g: int,
    dx: int,
    dy: int,
    tx: int,
    ty: int,
    nx: int,
    ny: int,
    fuel: nat,
)
    requires
        !(dx == 0 && dy == 0),
    ensures
        match dda_rec(walls, g, dx, dy, tx, ty, nx, ny, fuel) {
            Some(h) => (h.ew ==> dx != 0) && (!h.ew ==> dy != 0),
            None => true,
        },
    decreases fuel,
{
    if fuel > 0 {
        if x_advances(dx, dy, nx, ny) {
            let tx2 = if dx < 0 {
                tx - 1
            } else {
                tx + 1
            };
            if !(dx < 0 && tx == 0) && wall_lookup(walls, tx2, ty) is None {
                lemma_dda_hit_axis(walls, g, dx, dy, tx2, ty, nx + g, ny, (fuel - 1) as nat);
            }
        } else {
            let ty2 = if dy < 0 {
                ty - 1
            } else {
                ty + 1
            };
            if !(dy < 0 && ty == 0) && wall_lookup(walls, tx, ty2) is None {
                lemma_dda_hit_axis(walls, g, dx, dy, tx, ty2, nx, ny + g, (fuel - 1) as nat);
            }
        }
    }
}

proof fn lemma_dda_rec_monotonic(
    walls: Map<u64, u32>,
    g: int,
    dx: int,
    dy: int,
    tx: int,
    ty: int,
    nx: int,
    ny: int,
    f1: nat,
    f2: nat,
)
    requires
        f1 <= f2,
        dda_rec(walls, g, dx, dy, tx, ty, nx, ny, f1) is Some,
    ensures
        dda_rec(walls, g, dx, dy, tx, ty, nx, ny, f2) == dda_rec(
            walls,
            g,
            dx,
            dy,
            tx,
            ty,
            nx,
            ny,
            f1,
        ),
    decreases f1,
{
    if f1 > 0 {
        if x_advances(dx, dy, nx, ny) {
            let tx2 = if dx < 0 {
                tx - 1
            } else {
                tx + 1
            };
            if !(dx < 0 && tx == 0) && wall_lookup(walls, tx2, ty) is None {
                lemma_dda_rec_monotonic(
                    walls,
                    g,
                    dx,
                    dy,
                    tx2,
                    ty,
                    nx + g,
                    ny,
                    (f1 - 1) as nat,
                    (f2 - 1) as nat,
                );
            }
        } else {
            let ty2 = if dy < 0 {
                ty - 1
            } else {
                ty + 1
            };
            if !(dy < 0 && ty == 0) && wall_lookup(walls, tx, ty2) is None {
                lemma_dda_rec_monotonic(
                    walls,
                    g,
                    dx,
                    dy,
                    tx,
                    ty2,
                    nx,
                    ny + g,
                    (f1 - 1) as nat,
                    (f2 - 1) as nat,
                );
            }
        }
    }
}

/// Raising the step budget never changes a found hit: once a wall is found
/// within `steps1` border crossings, any larger budget reports exactly the
/// same hit.  A smaller budget can only turn a hit into a miss, never alter
/// one.
pub proof fn lemma_raycast_monotonic(
    walls: Map<u64, u32>,
    g: int,
    px: int,
    py: int,
    dx: int,
    dy: int,
    steps1: nat,
    steps2: nat,
)
    requires
        steps1 <= steps2,
        raycast_spec(walls, g, px, py, dx, dy, steps1) is Some,
    ensures
        raycast_spec(walls, g, px, py, dx, dy, steps2) == raycast_spec(
            walls,
            g,
            px,
            py,
            dx,
            dy,
            steps1,
        ),
{
    lemma_dda_rec_monotonic(
        walls,
        g,
        dx,
        dy,
        px / g,
        py / g,
        side_num_init(px, g, dx),
        side_num_init(py, g, dy),
        steps1,
        steps2,
    );
}

/// Every reported hit is real: its texture id is stored in the wall table
/// for some tile.
pub proof fn lemma_hit_texture_is_stored(
    walls: Map<u64, u32>,
    g: int,
    px: int,
    py: int,
    dx: int,
    dy: int,
    fuel: nat,
)
    ensures
        match dda_core_spec(walls, g, px, py, dx, dy, fuel) {
            Some(h) => exists|k: u64| #[trigger] walls.contains_key(k) && walls[k] == h.tex,
            None => true,
        },
{
    lemma_dda_hit_is_stored(
        walls,
        g,
        dx,
        dy,
        px / g,
        py / g,
        side_num_init(px, g, dx),
        side_num_init(py, g, dy),
        fuel,
    );
}

proof fn lemma_dda_hit_is_stored(
    walls: Map<u64, u32>,
    g: int,
    dx: int,
    dy: int,
    tx: int,
    ty: int,
    nx: int,
    ny: int,
    fuel: nat,
)
    ensures
        match dda_rec(walls, g, dx, dy, tx, ty, nx, ny, fuel) {
            Some(h) => exists|k: u64| #[trigger] walls.contains_key(k) && walls[k] == h.tex,
            None => true,
        },
    decreases fuel,
{
    if fuel > 0 {
        if x_advances(dx, dy, nx, ny) {
            let tx2 = if dx < 0 {
                tx - 1
            } else {
                tx + 1
            };
            if !(dx < 0 && tx == 0) {
                match wall_lookup(walls, tx2, ty) {
                    Some(_) => {
                        let k = pack_key(tx2, ty) as u64;
                        assert(walls.contains_key(k));
                    },
                    None => {
                        lemma_dda_hit_is_stored(
                            walls,
                            g,
                            dx,
                            dy,
                            tx2,
                            ty,
                            nx + g,
                            ny,
                            (fuel - 1) as nat,
                        );
                    },
                }
            }
        } else {
            let ty2 = if dy < 0 {
                ty - 1
            } else {
                ty + 1
            };
            if !(dy < 0 && ty == 0) {
                match wall_lookup(walls, tx, ty2) {
                    Some(_) => {
                        let k = pack_key(tx, ty2) as u64;
                        assert(walls.contains_key(k));
                    },
                    None => {
                        lemma_dda_hit_is_stored(
                            walls,
                            g,
                            dx,
                            dy,
                            tx,
                            ty2,
                            nx,
                            ny + g,
                            (fuel - 1) as nat,
                        );
                    },
                }
            }
        }
    }
}

/// Cast over a map's wall table, a hit's texture id always belongs to a
/// wall tile of that map: the raycaster can never invent a texture.
pub proof fn lemma_hit_texture_is_a_wall(
    tm: crate::game::TileMap,
    px: int,
    py: int,
    dx: int,
    dy: int,
    fuel: nat,
)
    ensures
        match raycast_spec(
            crate::game::walls_map(tm),
            tm.grid_size as int,
            px,
            py,
            dx,
            dy,
            fuel,
        ) {
            Some(hit) => exists|x: int, y: int|
                tm.tile_spec(x, y) == Some(crate::game::TileType::Wall(hit.texture_id)),
            None => true,
        },
{
    let walls = crate::game::walls_map(tm);
    let g = tm.grid_size as int;
    lemma_hit_texture_is_stored(walls, g, px, py, dx, dy, fuel);
    match raycast_spec(walls, g, px, py, dx, dy, fuel) {
        Some(hit) => {
            let k = choose|k: u64| #[trigger] walls.contains_key(k) && walls[k] == hit.texture_id;
            let x = crate::game::key_col(k);
            let y = crate::game::key_row(k);
            assert(crate::game::is_wall(tm.tile_spec(x, y)));
            assert(crate::game::wall_tex(tm.tile_spec(x, y)) == hit.texture_id);
            assert(tm.tile_spec(x, y) == Some(crate::game::TileType::Wall(hit.texture_id)));
        },
        None => {},
    }
}

/// `r` is the integer square root of `v`.
pub open spec fn is_isqrt(r: int, v: int) -> bool {
    r >= 0 && r * r <= v && v < (r + 1) * (r + 1)
}

/// The integer square root (the unique `r` with `r * r <= v < (r+1)^2`).
pub open spec fn isqrt_spec(v: int) -> int {
    choose|r: int| is_isqrt(r, v)
}

proof fn lemma_isqrt_unique(a: int, b: int, v: int)
    requires
        is_isqrt(a, v),
        is_isqrt(b, v),
    ensures
        a == b,
{
    assert(a == b) by (nonlinear_arith)
        requires
            a >= 0 && a * a <= v && v < (a + 1) * (a + 1),
            b >= 0 && b * b <= v && v < (b + 1) * (b + 1),
    ;
}

/// Binary search for the integer square root.
fn isqrt_u64(v: u64) -> (r: u64)
    ensures
        r as int == isqrt_spec(v as int),
        is_isqrt(r as int, v as int),
{
    let mut lo: u64 = 0;
    let mut hi: u64 = 0x100000000;
    proof {
        assert((0x100000000 as int) * (0x100000000 as int) > u64::MAX as int) by (nonlinear_arith);
    }
    while lo + 1 < hi
        invariant
            lo < hi <= 0x100000000,
            (lo as int) * (lo as int) <= v as int,
            (v as int) < (hi as int) * (hi as int),
        decreases hi - lo,
    {
        let mid: u64 = lo + (hi - lo) / 2;
        proof {
            lemma_mul_bounds(mid as int, mid as int, 0x100000000, 0x100000000);
        }
        if (mid as u128) * (mid as u128) <= v as u128 {
            lo = mid;
        } else {
            hi = mid;
        }
    }
    proof {
        assert(is_isqrt(lo as int, v as int));
        lemma_isqrt_unique(lo as int, isqrt_spec(v as int), v as int);
    }
    lo
}

/// Euclidean (floor) division by a positive divisor.
fn floor_div_i128(a: i128, b: i128) -> (r: i128)
    requires
        b >= 1,
        a > i128::MIN,
    ensures
        r as int == a as int / b as int,
{
    if a >= 0 {
        ((a as u128) / (b as u128)) as i128
    } else {
        let na: u128 = (-a) as u128;
        let q: u128 = na / (b as u128);
        let rem: u128 = na % (b as u128);
        proof {
            vstd::arithmetic::div_mod::lemma_fundamental_div_mod(na as int, b as int);
            vstd::arithmetic::div_mod::lemma_mod_bound(na as int, b as int);
            assert(b as int * (-(q as int)) == -(b as int * (q as int))) by (nonlinear_arith);
            assert(b as int * (-(q as int) - 1) == -(b as int * (q as int)) - b as int)
                by (nonlinear_arith);
        }
        if rem == 0 {
            proof {
                vstd::arithmetic::div_mod::lemma_fundamental_div_mod_converse_div(
                    a as int,
                    b as int,
                    -(q as int),
                    0,
                );
            }
            -(q as i128)
        } else {
            proof {
                vstd::arithmetic::div_mod::lemma_fundamental_div_mod_converse_div(
                    a as int,
                    b as int,
                    -(q as int) - 1,
                    b as int - rem as int,
                );
            }
            -(q as i128) - 1
        }
    }
}


/// The sentinel record a missed or degenerate ray leaves in its column:
/// distance 0, texture 0, offset 0.
pub open spec fn miss_hit() -> RayHit {
    RayHit { distance: 0i64, texture_id: 0u32, u_offset: 0i64 }
}

/// Fixed-point length of the camera direction vector (rounded down).
pub open spec fn cam_plane_h(cx: int, cy: int) -> int {
    isqrt_spec(cx * cx + cy * cy)
}

/// Fixed-point scale applied to the camera direction so that the half-width
/// camera plane subtends half the field of view whose tangent is `t`:
/// `|camdir| / (2 t)`, clamped into the accepted range, and the full range
/// cap when `t` is zero.
pub open spec fn cam_len_spec(cx: int, cy: int, t: int) -> int {
    if t == 0 {
        CAM_LEN_MAX as int
    } else {
        let q = cam_plane_h(cx, cy) * FP_ONE / (2 * abs_i(t));
        let qc = if q > CAM_LEN_MAX {
            CAM_LEN_MAX as int
        } else {
            q
        };
        if t > 0 {
            qc
        } else {
            -qc
        }
    }
}

/// Direction of the ray for screen column `i` of `n_rays`: the scaled
/// camera direction plus the camera-plane offset `(1/2 - i/n) / 2` of the
/// perpendicular, interpolating evenly across the projection plane from the
/// left edge (column 0) to the right edge.
pub open spec fn column_ray(cx: int, cy: int, cam_len: int, n_rays: int, i: int) -> (int, int) {
    (
        (cx * cam_len) / (FP_ONE as int) + ((-cy) * (n_rays - 2 * i)) / (4 * n_rays),
        (cy * cam_len) / (FP_ONE as int) + (cx * (n_rays - 2 * i)) / (4 * n_rays),
    )
}

/// The record column `i` receives: the hit of its ray, or the sentinel when
/// the ray misses within the step budget or degenerates to zero.
pub open spec fn column_hit(
    walls: Map<u64, u32>,
    g: int,
    px: int,
    py: int,
    cx: int,
    cy: int,
    t: int,
    n_rays: int,
    fuel: nat,
    i: int,
) -> RayHit {
    let rv = column_ray(cx, cy, cam_len_spec(cx, cy, t), n_rays, i);
    if rv.0 == 0 && rv.1 == 0 {
        miss_hit()
    } else {
        match raycast_spec(walls, g, px, py, rv.0, rv.1, fuel) {
            Some(h) => h,
            None => miss_hit(),
        }
    }
}

/// Input bounds shared by the camera-fan casts.
pub open spec fn multi_req(g: int, px: int, py: int, cx: int, cy: int, steps: int) -> bool {
    &&& 1 <= g <= GRID_MAX
    &&& 0 <= px <= POS_LIMIT
    &&& 0 <= py <= POS_LIMIT
    &&& -FP_ONE <= cx <= FP_ONE
    &&& -FP_ONE <= cy <= FP_ONE
    &&& px / g + steps < u32::MAX
    &&& py / g + steps < u32::MAX
}

/// Camera direction scale for the given half-fov tangent, executed.
fn camera_len(camdir: Vec2, tan_half_fov: i64) -> (r: i64)
    requires
        -FP_ONE <= camdir.x <= FP_ONE,
        -FP_ONE <= camdir.y <= FP_ONE,
    ensures
        r as int == cam_len_spec(camdir.x as int, camdir.y as int, tan_half_fov as int),
        -CAM_LEN_MAX <= r <= CAM_LEN_MAX,
{
    proof {
        lemma_mul_bounds(camdir.x as int, camdir.x as int, FP_ONE as int, FP_ONE as int);
        lemma_mul_bounds(camdir.y as int, camdir.y as int, FP_ONE as int, FP_ONE as int);
        assert((camdir.x as int) * (camdir.x as int) >= 0) by (nonlinear_arith);
        assert((camdir.y as int) * (camdir.y as int) >= 0) by (nonlinear_arith);
    }
    let sq: u64 = (camdir.x * camdir.x + camdir.y * camdir.y) as u64;
    let h: u64 = isqrt_u64(sq);
    proof {
        assert(h as int <= 0x20000) by (nonlinear_arith)
            requires
                is_isqrt(h as int, sq as int),
                sq as int <= 0x200000000,
        ;
    }
    if tan_half_fov == 0 {
        return CAM_LEN_MAX;
    }
    let at: u64 = if tan_half_fov < 0 {
        (-(tan_half_fov as i128)) as u64
    } else {
        tan_half_fov as u64
    };
    let q128: u128 = (h as u128) * (FP_ONE as u128) / (2 * (at as u128));
    let qc: i64 = if q128 > CAM_LEN_MAX as u128 {
        CAM_LEN_MAX
    } else {
        q128 as i64
    };
    if tan_half_fov > 0 {
        qc
    } else {
        -qc
    }
}

/// Ray direction for one screen column, executed.
fn column_ray_exec(camdir: Vec2, cam_len: i64, ray_count: u32, i: u32) -> (r: Vec2)
    requires
        -FP_ONE <= camdir.x <= FP_ONE,
        -FP_ONE <= camdir.y <= FP_ONE,
        -CAM_LEN_MAX <= cam_len <= CAM_LEN_MAX,
        1 <= ray_count,
        i < ray_count,
    ensures
        (r.x as int, r.y as int) == column_ray(
            camdir.x as int,
            camdir.y as int,
            cam_len as int,
            ray_count as int,
            i as int,
        ),
        -DIR_LIMIT <= r.x <= DIR_LIMIT,
        -DIR_LIMIT <= r.y <= DIR_LIMIT,
{
    let n: i128 = ray_count as i128;
    let coef: i128 = n - 2 * (i as i128);
    let ghost ni = ray_count as int;
    let ghost coefi = ni - 2 * (i as int);
    let ghost cxi = camdir.x as int;
    let ghost cyi = camdir.y as int;
    let ghost li = cam_len as int;
    proof {
        lemma_mul_bounds(cxi, li, 65536, 0x4000000000);
        lemma_mul_bounds(cyi, li, 65536, 0x4000000000);
        lemma_mul_bounds(-cyi, coefi, 65536, ni);
        lemma_mul_bounds(cxi, coefi, 65536, ni);
        vstd::arithmetic::div_mod::lemma_div_is_ordered(-0x40000000000000, cxi * li, 65536);
        vstd::arithmetic::div_mod::lemma_div_is_ordered(cxi * li, 0x40000000000000, 65536);
        vstd::arithmetic::div_mod::lemma_div_is_ordered(-0x40000000000000, cyi * li, 65536);
        vstd::arithmetic::div_mod::lemma_div_is_ordered(cyi * li, 0x40000000000000, 65536);
        assert((-0x40000000000000int) / 65536int == -0x4000000000 && 0x40000000000000int
            / 65536int == 0x4000000000);
        assert(65536 * ni == (4 * ni) * 16384) by (nonlinear_arith);
        assert((-65536) * ni == (4 * ni) * (-16384)) by (nonlinear_arith);
        assert(-(65536 * ni) == (-65536) * ni) by (nonlinear_arith);
        vstd::arithmetic::div_mod::lemma_div_multiples_vanish(16384, 4 * ni);
        vstd::arithmetic::div_mod::lemma_div_multiples_vanish(-16384, 4 * ni);
        vstd::arithmetic::div_mod::lemma_div_is_ordered((-65536) * ni, (-cyi) * coefi, 4 * ni);
        vstd::arithmetic::div_mod::lemma_div_is_ordered((-cyi) * coefi, 65536 * ni, 4 * ni);
        vstd::arithmetic::div_mod::lemma_div_is_ordered((-65536) * ni, cxi * coefi, 4 * ni);
        vstd::arithmetic::div_mod::lemma_div_is_ordered(cxi * coefi, 65536 * ni, 4 * ni);
    }
    let t1x: i128 = floor_div_i128((camdir.x as i128) * (cam_len as i128), FP_ONE as i128);
    let t2x: i128 = floor_div_i128((-(camdir.y as i128)) * coef, 4 * n);
    let t1y: i128 = floor_div_i128((camdir.y as i128) * (cam_len as i128), FP_ONE as i128);
    let t2y: i128 = floor_div_i128((camdir.x as i128) * coef, 4 * n);
    Vec2 { x: (t1x + t2x) as i64, y: (t1y + t2y) as i64 }
}

/// Cast one ray per screen column across the camera plane spanned by
/// `camdir` (roughly unit length, fixed-point) and the half-fov tangent
/// `tan_half_fov`; always returns exactly `ray_count` records in
/// left-to-right column order, the sentinel standing in for misses.
pub fn multiple_raycast_with_tan(
    walls: &HashMap<u64, u32>,
    grid_size: i64,
    from: Vec2,
    camdir: Vec2,
    tan_half_fov: i64,
    ray_count: u32,
    max_steps: u32,
) -> (v: Vec<RayHit>)
    requires
        multi_req(
            grid_size as int,
            from.x as int,
            from.y as int,
            camdir.x as int,
            camdir.y as int,
            max_steps as int,
        ),
    ensures
        v@.len() == ray_count as int,
        forall|i: int|
            0 <= i < ray_count as int ==> v@[i] == column_hit(
                walls@,
                grid_size as int,
                from.x as int,
                from.y as int,
                camdir.x as int,
                camdir.y as int,
                tan_half_fov as int,
                ray_count as int,
                max_steps as nat,
                i,
            ),
{
    let mut v: Vec<RayHit> = Vec::new();
    let cam_len = camera_len(camdir, tan_half_fov);
    let mut i: u32 = 0;
    while i < ray_count
        invariant
            multi_req(
                grid_size as int,
                from.x as int,
                from.y as int,
                camdir.x as int,
                camdir.y as int,
                max_steps as int,
            ),
            -CAM_LEN_MAX <= cam_len <= CAM_LEN_MAX,
            cam_len as int == cam_len_spec(
                camdir.x as int,
                camdir.y as int,
                tan_half_fov as int,
            ),
            i <= ray_count,
            v@.len() == i as int,
            forall|j: int|
                0 <= j < i as int ==> v@[j] == column_hit(
                    walls@,
                    grid_size as int,
                    from.x as int,
                    from.y as int,
                    camdir.x as int,
                    camdir.y as int,
                    tan_half_fov as int,
                    ray_count as int,
                    max_steps as nat,
                    j,
                ),
        decreases ray_count - i,
    {
        let rv = column_ray_exec(camdir, cam_len, ray_count, i);
        let hit: RayHit = if rv.x == 0 && rv.y == 0 {
            RayHit { distance: 0, texture_id: 0, u_offset: 0 }
        } else {
            match single_raycast(walls, grid_size, from, rv, max_steps) {
                Some(h) => h,
                None => RayHit { distance: 0, texture_id: 0, u_offset: 0 },
            }
        };
        v.push(hit);
        i = i + 1;
    }
    v
}

/// Camera-fan cast with the field-of-view check: a fov of pi or more (in
/// fixed-point radians) cannot be projected and is rejected; otherwise the
/// columns of `multiple_raycast_with_tan` are returned.  The caller supplies
/// `tan_half_fov`, the fixed-point tangent of half the field of view.
pub fn multiple_raycast(
    walls: &HashMap<u64, u32>,
    grid_size: i64,
    from: Vec2,
    camdir: Vec2,
    camfov: i64,
    tan_half_fov: i64,
    ray_count: u32,
    max_steps: u32,
) -> (r: Result<Vec<RayHit>, FovError>)
    requires
        multi_req(
            grid_size as int,
            from.x as int,
            from.y as int,
            camdir.x as int,
            camdir.y as int,
            max_steps as int,
        ),
    ensures
        r is Err <==> camfov >= FP_PI,
        r is Err ==> r == Err::<Vec<RayHit>, FovError>(FovError::FovTooWide),
        r is Ok ==> {
            let v = r->Ok_0;
            &&& v@.len() == ray_count as int
            &&& forall|i: int|
                0 <= i < ray_count as int ==> v@[i] == column_hit(
                    walls@,
                    grid_size as int,
                    from.x as int,
                    from.y as int,
                    camdir.x as int,
                    camdir.y as int,
                    tan_half_fov as int,
                    ray_count as int,
                    max_steps as nat,
                    i,
                )
        },
{
    if camfov >= FP_PI {
        return Err(FovError::FovTooWide);
    }
    Ok(multiple_raycast_with_tan(walls, grid_size, from, camdir, tan_half_fov, ray_count, max_steps))
}

/// The world point column `i`\'s ray reports: origin plus ray direction
/// times the projected world distance of the hit, which lands on the
/// border of the wall cell the ray entered (rounded down and saturated to
/// the fixed-point range); the zero vector for a miss or degenerate ray.
/// The displacement `rv * n / |rv_axis|` is the ray direction times the
/// distance `single_raycast` reports for the same ray.
pub open spec fn column_point(
    walls: Map<u64, u32>,
    g: int,
    px: int,
    py: int,
    cx: int,
    cy: int,
    t: int,
    n_rays: int,
    fuel: nat,
    i: int,
) -> Vec2 {
    let rv = column_ray(cx, cy, cam_len_spec(cx, cy, t), n_rays, i);
    if rv.0 == 0 && rv.1 == 0 {
        Vec2 { x: 0i64, y: 0i64 }
    } else {
        match dda_core_spec(walls, g, px, py, rv.0, rv.1, fuel) {
            Some(h) => {
                let da = abs_i(
                    if h.ew {
                        rv.0
                    } else {
                        rv.1
                    },
                );
                Vec2 {
                    x: clamp_i(px + rv.0 * h.n / da, i64::MIN as int, i64::MAX as int) as i64,
                    y: clamp_i(py + rv.1 * h.n / da, i64::MIN as int, i64::MAX as int) as i64,
                }
            },
            None => Vec2 { x: 0i64, y: 0i64 },
        }
    }
}

/// One coordinate of a collision point: `p + d * w` with `w` the projected
/// world distance `n / da_axis`, rounded down and saturated to `i64`.
fn collision_point_coord(p: i64, d: i64, n: i64, da_axis: i64) -> (r: i64)
    requires
        1 <= da_axis <= DIR_LIMIT,
        -DIR_LIMIT <= d <= DIR_LIMIT,
        0 <= p <= POS_LIMIT,
        0 <= n,
    ensures
        r as int == clamp_i(p + d * n / (da_axis as int), i64::MIN as int, i64::MAX as int),
{
    proof {
        lemma_mul_bounds(d as int, n as int, 0x10000000000, 0x7fffffffffffffff);
    }
    let num: i128 = (d as i128) * (n as i128);
    let den: i128 = da_axis as i128;
    let q: i128 = floor_div_i128(num, den);
    proof {
        let ni = num as int;
        let di = den as int;
        let qi = ni / di;
        let ma: int = 0x10000000000int * 0x7fffffffffffffff;
        vstd::arithmetic::div_mod::lemma_fundamental_div_mod(ni, di);
        vstd::arithmetic::div_mod::lemma_mod_bound(ni, di);
        assert(-(ma + di) <= qi <= ma + di) by (nonlinear_arith)
            requires
                di * qi == ni - (ni % di),
                0 <= ni % di < di,
                1 <= di,
                -ma <= ni <= ma,
                0 <= ma,
        ;
    }
    let sum: i128 = (p as i128) + q;
    if sum > i64::MAX as i128 {
        i64::MAX
    } else if sum < i64::MIN as i128 {
        i64::MIN
    } else {
        sum as i64
    }
}

/// Cast one ray per screen column and return each ray's collision point
/// (origin plus ray direction times projected distance), the zero vector
/// standing in for misses; the same field-of-view check as
/// `multiple_raycast` applies.
pub fn multicast_raycols(
    walls: &HashMap<u64, u32>,
    grid_size: i64,
    from: Vec2,
    camdir: Vec2,
    camfov: i64,
    tan_half_fov: i64,
    ray_count: u32,
    max_steps: u32,
) -> (r: Result<Vec<Vec2>, FovError>)
    requires
        multi_req(
            grid_size as int,
            from.x as int,
            from.y as int,
            camdir.x as int,
            camdir.y as int,
            max_steps as int,
        ),
    ensures
        r is Err <==> camfov >= FP_PI,
        r is Err ==> r == Err::<Vec<Vec2>, FovError>(FovError::FovTooWide),
        r is Ok ==> {
            let v = r->Ok_0;
            &&& v@.len() == ray_count as int
            &&& forall|i: int|
                0 <= i < ray_count as int ==> v@[i] == column_point(
                    walls@,
                    grid_size as int,
                    from.x as int,
                    from.y as int,
                    camdir.x as int,
                    camdir.y as int,
                    tan_half_fov as int,
                    ray_count as int,
                    max_steps as nat,
                    i,
                )
        },
{
    if camfov >= FP_PI {
        return Err(FovError::FovTooWide);
    }
    let mut v: Vec<Vec2> = Vec::new();
    let cam_len = camera_len(camdir, tan_half_fov);
    let mut i: u32 = 0;
    while i < ray_count
        invariant
            multi_req(
                grid_size as int,
                from.x as int,
                from.y as int,
                camdir.x as int,
                camdir.y as int,
                max_steps as int,
            ),
            -CAM_LEN_MAX <= cam_len <= CAM_LEN_MAX,
            cam_len as int == cam_len_spec(
                camdir.x as int,
                camdir.y as int,
                tan_half_fov as int,
            ),
            i <= ray_count,
            v@.len() == i as int,
            forall|j: int|
                0 <= j < i as int ==> v@[j] == column_point(
                    walls@,
                    grid_size as int,
                    from.x as int,
                    from.y as int,
                    camdir.x as int,
                    camdir.y as int,
                    tan_half_fov as int,
                    ray_count as int,
                    max_steps as nat,
                    j,
                ),
        decreases ray_count - i,
    {
        let rv = column_ray_exec(camdir, cam_len, ray_count, i);
        let point: Vec2 = if rv.x == 0 && rv.y == 0 {
            Vec2 { x: 0, y: 0 }
        } else {
            match raycast_core(walls, grid_size, from, rv, max_steps) {
                Some((n, ew, _tex)) => {
                    proof {
                        lemma_dda_hit_axis(
                            walls@,
                            grid_size as int,
                            rv.x as int,
                            rv.y as int,
                            from.x as int / grid_size as int,
                            from.y as int / grid_size as int,
                            side_num_init(from.x as int, grid_size as int, rv.x as int),
                            side_num_init(from.y as int, grid_size as int, rv.y as int),
                            max_steps as nat,
                        );
                    }
                    let da: i64 = if ew {
                        if rv.x < 0 {
                            -rv.x
                        } else {
                            rv.x
                        }
                    } else {
                        if rv.y < 0 {
                            -rv.y
                        } else {
                            rv.y
                        }
                    };
                    Vec2 {
                        x: collision_point_coord(from.x, rv.x, n, da),
                        y: collision_point_coord(from.y, rv.y, n, da),
                    }
                },
                None => Vec2 { x: 0, y: 0 },
            }
        };
        v.push(point);
        i = i + 1;
    }
    Ok(v)
}

} // verus!
