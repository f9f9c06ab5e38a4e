//! Ray casting for block selection.
//!
//! Steps a ray through the voxel grid with the DDA (Digital Differential
//! Analyzer) method: the ray advances cell by cell along whichever axis has
//! the nearest upcoming cell boundary, so every cell the ray passes through
//! is visited in order.
//!
//! All arithmetic is exact. Positions, directions and distances are given
//! in thousandths of a block, and the per-axis boundary distances are kept
//! as exact fractions: the distance to the next boundary on an axis is
//! a stored numerator over that axis's direction magnitude. An axis whose
//! direction component is zero never crosses a boundary.

use vstd::prelude::*;

verus! {

/// A block position in world coordinates.
#[derive(Debug, Clone, Copy, PartialEq, Eq, Hash, Structural)]
pub struct BlockPos {
    /// World X coordinate, in blocks.
    pub x: i32,
    /// World Y coordinate, in blocks.
    pub y: i32,
    /// World Z coordinate, in blocks.
    pub z: i32,
}

impl BlockPos {
    /// Creates a new block position.
    pub fn new(x: i32, y: i32, z: i32) -> (r: Self)
        ensures
            r == (BlockPos { x, y, z }),
    {
        Self { x, y, z }
    }

    /// Returns the position of the adjacent block in the given direction.
    pub fn offset(&self, face: HitFace) -> (r: Self)
        requires
            i32::MIN < self.x < i32::MAX,
            i32::MIN < self.y < i32::MAX,
            i32::MIN < self.z < i32::MAX,
        ensures
            r == self.spec_offset(face),
    {
        match face {
            HitFace::Top => Self { x: self.x, y: self.y + 1, z: self.z },
            HitFace::Bottom => Self { x: self.x, y: self.y - 1, z: self.z },
            HitFace::North => Self { x: self.x, y: self.y, z: self.z - 1 },
            HitFace::South => Self { x: self.x, y: self.y, z: self.z + 1 },
            HitFace::East => Self { x: self.x + 1, y: self.y, z: self.z },
            HitFace::West => Self { x: self.x - 1, y: self.y, z: self.z },
        }
    }

    /// The adjacent block position in the given direction.
    pub open spec fn spec_offset(self, face: HitFace) -> BlockPos {
        match face {
            HitFace::Top => BlockPos { x: self.x, y: (self.y + 1) as i32, z: self.z },
            HitFace::Bottom => BlockPos { x: self.x, y: (self.y - 1) as i32, z: self.z },
            HitFace::North => BlockPos { x: self.x, y: self.y, z: (self.z - 1) as i32 },
            HitFace::South => BlockPos { x: self.x, y: self.y, z: (self.z + 1) as i32 },
            HitFace::East => BlockPos { x: (self.x + 1) as i32, y: self.y, z: self.z },
            HitFace::West => BlockPos { x: (self.x - 1) as i32, y: self.y, z: self.z },
        }
    }

    /// Converts to the position of the chunk that contains this block,
    /// dividing by the chunk width and rounding toward negative infinity.
    pub fn to_chunk_pos(&self) -> (r: (i32, i32))
        requires
            self.x > i32::MIN + 15,
            self.z > i32::MIN + 15,
        ensures
            16 * r.0 <= self.x < 16 * r.0 + 16,
            16 * r.1 <= self.z < 16 * r.1 + 16,
    {
        let chunk_x = if self.x >= 0 {
            self.x / 16
        } else {
            (self.x - 15) / 16
        };
        let chunk_z = if self.z >= 0 {
            self.z / 16
        } else {
            (self.z - 15) / 16
        };
        (chunk_x, chunk_z)
    }

    /// Converts to local coordinates within a chunk: x and z are reduced to
    /// the chunk width, y is passed through.
    pub fn to_local(&self) -> (r: (usize, usize, usize))
        requires
            0 <= self.y,
        ensures
            r.0 < 16,
            (self.x - r.0) % 16 == 0,
            r.1 == self.y,
            r.2 < 16,
            (self.z - r.2) % 16 == 0,
    {
        let local_x = rem_euclid_16(self.x);
        let local_z = rem_euclid_16(self.z);
        (local_x, self.y as usize, local_z)
    }
}

/// Reduces a world coordinate to the containing chunk's local range.
fn rem_euclid_16(a: i32) -> (r: usize)
    ensures
        r < 16,
        (a - r) % 16 == 0,
{
    let m = a % 16;
    let m16 = if m < 0 {
        m + 16
    } else {
        m
    };
    proof {
        assert((a - m16) % 16 == 0) by (nonlinear_arith)
            requires m16 == a % 16 || m16 == a % 16 + 16;
    }
    m16 as usize
}

/// The face of a block that a ray hit.
#[derive(Debug, Clone, Copy, PartialEq, Eq, Structural)]
pub enum HitFace {
    /// +Y (top)
    Top,
    /// -Y (bottom)
    Bottom,
    /// -Z (north)
    North,
    /// +Z (south)
    South,
    /// +X (east)
    East,
    /// -X (west)
    West,
}

impl HitFace {
    /// The unit normal of each face.
    pub open spec fn spec_normal(self) -> [i32; 3] {
        match self {
            HitFace::Top => [0i32, 1i32, 0i32],
            HitFace::Bottom => [0i32, -1i32, 0i32],
            HitFace::North => [0i32, 0i32, -1i32],
            HitFace::South => [0i32, 0i32, 1i32],
            HitFace::East => [1i32, 0i32, 0i32],
            HitFace::West => [-1i32, 0i32, 0i32],
        }
    }

    /// Returns the normal vector for this face.
    pub fn normal(&self) -> (r: [i32; 3])
        ensures
            r == self.spec_normal(),
    {
        match self {
            HitFace::Top => [0, 1, 0],
            HitFace::Bottom => [0, -1, 0],
            HitFace::North => [0, 0, -1],
            HitFace::South => [0, 0, 1],
            HitFace::East => [1, 0, 0],
            HitFace::West => [-1, 0, 0],
        }
    }
}

/// Result of a ray cast hit. The distance and hit point are exact
/// fractions: the distance traveled is `distance_num / distance_den` blocks,
/// and each hit point coordinate is `hit_point_num[i] / hit_point_den`
/// blocks.
#[derive(Debug, Clone, Copy, PartialEq)]
pub struct RaycastHit {
    /// World position of the hit block.
    pub block_pos: BlockPos,
    /// The face of the block that was hit, seen from the ray's side.
    pub face: HitFace,
    /// Numerator of the distance from the ray origin to the hit point.
    pub distance_num: i64,
    /// Denominator of the distance from the ray origin to the hit point.
    pub distance_den: i64,
    /// Numerators of the exact hit point coordinates.
    pub hit_point_num: [i64; 3],
    /// Shared denominator of the exact hit point coordinates.
    pub hit_point_den: i64,
}

// ---------------------------------------------------------------------------
// The stepping model.
// ---------------------------------------------------------------------------

/// The state of a ray walk: the cell the ray is in, the per-axis distance
/// to the next boundary, the distance traveled, and the face crossed when
/// the cell was entered. The boundary distance on an axis is the fraction
/// `m / |direction component|`; an axis with a zero component never crosses.
pub struct RayState {
    /// The cell the ray is in.
    pub bx: int,
    /// The cell the ray is in.
    pub by: int,
    /// The cell the ray is in.
    pub bz: int,
    /// Numerator of the distance at which the ray next crosses an X boundary.
    pub mx: int,
    /// Numerator of the distance at which the ray next crosses a Y boundary.
    pub my: int,
    /// Numerator of the distance at which the ray next crosses a Z boundary.
    pub mz: int,
    /// Numerator of the distance traveled so far.
    pub dist_num: int,
    /// Denominator of the distance traveled so far.
    pub dist_den: int,
    /// The face crossed when the current cell was entered.
    pub face: HitFace,
}

/// The magnitude of a direction component.
pub open spec fn nd_of(d: int) -> int {
    if d >= 0 {
        d
    } else {
        -d
    }
}

/// Whether one per-axis boundary distance is strictly nearer than another:
/// an axis with a zero component is infinitely far.
pub open spec fn t_lt(mi: int, ndi: int, mj: int, ndj: int) -> bool {
    if ndi == 0 {
        false
    } else if ndj == 0 {
        true
    } else {
        mi * ndj < mj * ndi
    }
}

/// The state a ray starts in: the cell containing the origin, the exact
/// distance to the first boundary on each axis, no distance traveled.
pub open spec fn ray_init(o: (int, int, int), d: (int, int, int)) -> RayState {
    RayState {
        bx: o.0 / 1000,
        by: o.1 / 1000,
        bz: o.2 / 1000,
        mx: if d.0 >= 0 {
            (o.0 / 1000 + 1) * 1000 - o.0
        } else {
            o.0 - (o.0 / 1000) * 1000
        },
        my: if d.1 >= 0 {
            (o.1 / 1000 + 1) * 1000 - o.1
        } else {
            o.1 - (o.1 / 1000) * 1000
        },
        mz: if d.2 >= 0 {
            (o.2 / 1000 + 1) * 1000 - o.2
        } else {
            o.2 - (o.2 / 1000) * 1000
        },
        dist_num: 0,
        dist_den: 1,
        face: HitFace::Top,
    }
}

/// One DDA step: the ray advances into the neighboring cell across the
/// nearest boundary. Ties prefer X over Y and Z, and Y over Z. The face
/// recorded is the one of the entered cell that looks back along the ray.
pub open spec fn ray_step(s: RayState, d: (int, int, int)) -> RayState {
    let ndx = nd_of(d.0);
    let ndy = nd_of(d.1);
    let ndz = nd_of(d.2);
    if t_lt(s.mx, ndx, s.my, ndy) {
        if t_lt(s.mx, ndx, s.mz, ndz) {
            RayState {
                bx: s.bx + if d.0 >= 0 {
                    1int
                } else {
                    -1int
                },
                mx: s.mx + 1000,
                dist_num: s.mx,
                dist_den: ndx,
                face: if d.0 >= 0 {
                    HitFace::West
                } else {
                    HitFace::East
                },
                ..s
            }
        } else {
            RayState {
                bz: s.bz + if d.2 >= 0 {
                    1int
                } else {
                    -1int
                },
                mz: s.mz + 1000,
                dist_num: s.mz,
                dist_den: ndz,
                face: if d.2 >= 0 {
                    HitFace::North
                } else {
                    HitFace::South
                },
                ..s
            }
        }
    } else if t_lt(s.my, ndy, s.mz, ndz) {
        RayState {
            by: s.by + if d.1 >= 0 {
                1int
            } else {
                -1int
            },
            my: s.my + 1000,
            dist_num: s.my,
            dist_den: ndy,
            face: if d.1 >= 0 {
                HitFace::Bottom
            } else {
                HitFace::Top
            },
            ..s
        }
    } else {
        RayState {
            bz: s.bz + if d.2 >= 0 {
                1int
            } else {
                -1int
            },
            mz: s.mz + 1000,
            dist_num: s.mz,
            dist_den: ndz,
            face: if d.2 >= 0 {
                HitFace::North
            } else {
                HitFace::South
            },
            ..s
        }
    }
}

/// The state of a ray after a number of steps.
pub open spec fn ray_iter(o: (int, int, int), d: (int, int, int), n: nat) -> RayState
    decreases n,
{
    if n == 0 {
        ray_init(o, d)
    } else {
        ray_step(ray_iter(o, d, (n - 1) as nat), d)
    }
}

/// Whether a state's traveled distance is still below the maximum.
pub open spec fn dist_below_max(s: RayState, mt: int) -> bool {
    s.dist_num * 1000 < mt * s.dist_den
}

/// The bounds within which a ray query is exact: the origin within a
/// million blocks of zero, the direction within a thousand blocks per unit
/// and not the zero vector, and the maximum distance within a thousand
/// blocks.
pub open spec fn ray_in_bounds(o: (int, int, int), d: (int, int, int), mt: int) -> bool {
    &&& -1000000000 <= o.0 <= 1000000000
    &&& -1000000000 <= o.1 <= 1000000000
    &&& -1000000000 <= o.2 <= 1000000000
    &&& -1000000 <= d.0 <= 1000000
    &&& -1000000 <= d.1 <= 1000000
    &&& -1000000 <= d.2 <= 1000000
    &&& !(d.0 == 0 && d.1 == 0 && d.2 == 0)
    &&& 0 <= mt <= 1000000
}

/// The cell of a state, as machine coordinates.
pub open spec fn cell_of(s: RayState) -> (i32, i32, i32) {
    (s.bx as i32, s.by as i32, s.bz as i32)
}

/// The hit record a state denotes for a ray: its cell, its entry face, and
/// the exact traveled distance and hit point.
pub open spec fn hit_from_state(o: (int, int, int), d: (int, int, int), s: RayState) -> RaycastHit {
    RaycastHit {
        block_pos: BlockPos { x: s.bx as i32, y: s.by as i32, z: s.bz as i32 },
        face: s.face,
        distance_num: s.dist_num as i64,
        distance_den: s.dist_den as i64,
        hit_point_num: [
            (o.0 * s.dist_den + d.0 * s.dist_num) as i64,
            (o.1 * s.dist_den + d.1 * s.dist_num) as i64,
            (o.2 * s.dist_den + d.2 * s.dist_num) as i64,
        ],
        hit_point_den: (1000 * s.dist_den) as i64,
    }
}


// ---------------------------------------------------------------------------
// Invariants of the walk.
// ---------------------------------------------------------------------------

/// The magnitude of an integer.
pub open spec fn abs_of(a: int) -> int {
    if a >= 0 {
        a
    } else {
        -a
    }
}

/// What holds of one axis of any reachable state: the next boundary lies
/// at or past the traveled distance, and no farther than one cell past it.
pub open spec fn axis_wf0(m: int, nd: int, dn: int, dd: int) -> bool {
    nd == 0 || ((m - 1000) * dd <= dn * nd && m * dd >= dn * nd && m >= 0)
}

/// What holds of any reachable state, whatever the maximum distance.
pub open spec fn st_wf0(s: RayState, d: (int, int, int)) -> bool {
    &&& s.dist_den >= 1
    &&& s.dist_num >= 0
    &&& axis_wf0(s.mx, nd_of(d.0), s.dist_num, s.dist_den)
    &&& axis_wf0(s.my, nd_of(d.1), s.dist_num, s.dist_den)
    &&& axis_wf0(s.mz, nd_of(d.2), s.dist_num, s.dist_den)
}

/// The machine-range side of one axis: a still-crossing axis has stepped
/// at most as often as its boundary numerator grew, and an axis that never
/// crosses has not moved.
pub open spec fn axis_ext(m: int, k0: int, b: int, b0: int, nd: int) -> bool {
    if nd == 0 {
        m == k0 && b == b0
    } else {
        k0 <= m && m <= 1000002000 && abs_of(b - b0) * 1000 <= m - k0
    }
}

/// What holds of every state a bounded ray walk reaches before exceeding
/// its maximum distance.
pub open spec fn st_wf(s: RayState, o: (int, int, int), d: (int, int, int), mt: int) -> bool {
    let i = ray_init(o, d);
    &&& st_wf0(s, d)
    &&& s.dist_den <= 1000000
    &&& s.dist_num * 1000 <= (mt + 1000000) * s.dist_den
    &&& axis_ext(s.mx, i.mx, s.bx, i.bx, nd_of(d.0))
    &&& axis_ext(s.my, i.my, s.by, i.by, nd_of(d.1))
    &&& axis_ext(s.mz, i.mz, s.bz, i.bz, nd_of(d.2))
}

/// How much walking room is left on one axis before the walk must stop.
pub open spec fn axis_measure(m: int, nd: int, mt: int) -> int {
    if nd == 0 {
        0
    } else if mt * nd + 1000000 - m * 1000 >= 0 {
        mt * nd + 1000000 - m * 1000
    } else {
        0
    }
}

/// How much walking room is left before the walk must stop; every step
/// spends some of it.
pub open spec fn ray_measure(s: RayState, d: (int, int, int), mt: int) -> int {
    axis_measure(s.mx, nd_of(d.0), mt) + axis_measure(s.my, nd_of(d.1), mt) + axis_measure(
        s.mz,
        nd_of(d.2),
        mt,
    )
}

/// Transitivity of fraction comparison: a/b <= c/d and c/d <= e/f give
/// a/f <= e/b, for positive denominators.
proof fn lemma_frac_trans(a: int, b: int, c: int, d: int, e: int, f: int)
    requires
        b >= 1,
        d >= 1,
        f >= 1,
        a * d <= c * b,
        c * f <= e * d,
    ensures
        a * f <= e * b,
{
    assert(a * d * f <= c * b * f) by (nonlinear_arith)
        requires f >= 1 && a * d <= c * b;
    assert(c * f * b <= e * d * b) by (nonlinear_arith)
        requires b >= 1 && c * f <= e * d;
    assert(a * d * f == a * f * d && c * b * f == c * f * b && e * d * b == e * b * d)
        by (nonlinear_arith);
    assert(a * f * d <= e * b * d);
    assert(a * f <= e * b) by (nonlinear_arith)
        requires d >= 1 && a * f * d <= e * b * d;
}

/// The state a ray starts in satisfies the walk invariants.
#[verifier::spinoff_prover]
#[verifier::rlimit(60)]
proof fn lemma_ray_init_wf(o: (int, int, int), d: (int, int, int), mt: int)
    requires
        ray_in_bounds(o, d, mt),
    ensures
        st_wf(ray_init(o, d), o, d, mt),
        -1000001 <= ray_init(o, d).bx <= 1000001,
        -1000001 <= ray_init(o, d).by <= 1000001,
        -1000001 <= ray_init(o, d).bz <= 1000001,
        0 <= ray_init(o, d).mx <= 1000,
        0 <= ray_init(o, d).my <= 1000,
        0 <= ray_init(o, d).mz <= 1000,
    {
    lemma_init_axis(o.0, d.0);
    lemma_init_axis(o.1, d.1);
    lemma_init_axis(o.2, d.2);
}

/// The starting cell and boundary numerator of one axis: the cell contains
/// the origin coordinate, and the first boundary lies within one cell.
proof fn lemma_init_axis(o: int, d: int)
    requires
        -1000000000 <= o <= 1000000000,
    ensures
        1000 * (o / 1000) <= o < 1000 * (o / 1000) + 1000,
        -1000001 <= o / 1000 <= 1000001,
        d >= 0 ==> 1 <= (o / 1000 + 1) * 1000 - o <= 1000,
        d < 0 ==> 0 <= o - (o / 1000) * 1000 <= 999,
{
    vstd::arithmetic::div_mod::lemma_fundamental_div_mod(o, 1000);
    vstd::arithmetic::div_mod::lemma_mod_bound(o, 1000);
}

/// One step of a walk that has not yet exceeded its maximum distance keeps
/// the walk invariants, never shrinks the traveled distance, and spends
/// some of the remaining walking room.
proof fn lemma_ray_step_wf(s: RayState, o: (int, int, int), d: (int, int, int), mt: int)
    requires
        ray_in_bounds(o, d, mt),
        st_wf(s, o, d, mt),
        dist_below_max(s, mt),
    ensures
        st_wf(ray_step(s, d), o, d, mt),
        ray_step(s, d).dist_num * s.dist_den >= s.dist_num * ray_step(s, d).dist_den,
        0 <= ray_measure(ray_step(s, d), d, mt) < ray_measure(s, d, mt),
{
    let ndx = nd_of(d.0);
    let ndy = nd_of(d.1);
    let ndz = nd_of(d.2);
    let dn = s.dist_num;
    let dd = s.dist_den;
    let s2 = ray_step(s, d);
    if t_lt(s.mx, ndx, s.my, ndy) {
        if t_lt(s.mx, ndx, s.mz, ndz) {
            lemma_step_axis_facts(s.mx, ndx, dn, dd, mt);
            // the other axes still satisfy the boundary invariants against
            // the new distance
            if ndy != 0 {
                lemma_frac_trans(s.my - 1000, ndy, dn, dd, s.mx, ndx);
            }
            if ndz != 0 {
                lemma_frac_trans(s.mz - 1000, ndz, dn, dd, s.mx, ndx);
            }
            assert((s2.mx - 1000) * s2.dist_den <= s2.dist_num * ndx);
            assert(s2.mx * s2.dist_den >= s2.dist_num * ndx) by (nonlinear_arith)
                requires s2.mx == s.mx + 1000 && s2.dist_num == s.mx && s2.dist_den == ndx
                    && ndx >= 1;
            lemma_measure_step(s.mx, ndx, mt);
        } else {
            assert(ndz != 0);
            lemma_step_axis_facts(s.mz, ndz, dn, dd, mt);
            if ndy != 0 {
                lemma_frac_trans(s.my - 1000, ndy, dn, dd, s.mz, ndz);
                // the Z boundary is nearest: it is no farther than X, which
                // is nearer than Y
                lemma_frac_trans(s.mz, ndz, s.mx, ndx, s.my, ndy);
            }
            lemma_frac_trans(s.mx - 1000, ndx, dn, dd, s.mz, ndz);
            assert(s2.mz * s2.dist_den >= s2.dist_num * ndz) by (nonlinear_arith)
                requires s2.mz == s.mz + 1000 && s2.dist_num == s.mz && s2.dist_den == ndz
                    && ndz >= 1;
            lemma_measure_step(s.mz, ndz, mt);
        }
    } else if t_lt(s.my, ndy, s.mz, ndz) {
        lemma_step_axis_facts(s.my, ndy, dn, dd, mt);
        if ndx != 0 {
            lemma_frac_trans(s.mx - 1000, ndx, dn, dd, s.my, ndy);
        }
        if ndz != 0 {
            lemma_frac_trans(s.mz - 1000, ndz, dn, dd, s.my, ndy);
        }
        assert(s2.my * s2.dist_den >= s2.dist_num * ndy) by (nonlinear_arith)
            requires s2.my == s.my + 1000 && s2.dist_num == s.my && s2.dist_den == ndy && ndy >= 1;
        lemma_measure_step(s.my, ndy, mt);
    } else {
        if ndy == 0 {
            assert(ndx == 0);
            assert(ndz != 0);
        } else {
            assert(ndz != 0);
        }
        lemma_step_axis_facts(s.mz, ndz, dn, dd, mt);
        if ndx != 0 {
            lemma_frac_trans(s.mx - 1000, ndx, dn, dd, s.mz, ndz);
            // Z is no farther than Y, which is no farther than X
            lemma_frac_trans(s.mz, ndz, s.my, ndy, s.mx, ndx);
        }
        if ndy != 0 {
            lemma_frac_trans(s.my - 1000, ndy, dn, dd, s.mz, ndz);
        }
        assert(s2.mz * s2.dist_den >= s2.dist_num * ndz) by (nonlinear_arith)
            requires s2.mz == s.mz + 1000 && s2.dist_num == s.mz && s2.dist_den == ndz && ndz >= 1;
        lemma_measure_step(s.mz, ndz, mt);
    }
}

/// What stepping one axis gives: the boundary it crossed lay below the
/// maximum distance plus one cell, so the new distance and numerator stay
/// within range and the axis's walking room was positive.
proof fn lemma_step_axis_facts(m: int, nd: int, dn: int, dd: int, mt: int)
    requires
        1 <= nd <= 1000000,
        1 <= dd <= 1000000,
        0 <= dn,
        0 <= mt <= 1000000,
        (m - 1000) * dd <= dn * nd,
        m * dd >= dn * nd,
        m >= 0,
        dn * 1000 < mt * dd,
    ensures
        m * 1000 < mt * nd + 1000000,
        m * 1000 <= (mt + 1000000) * nd,
        m <= 1000001000,
        mt * nd + 1000000 - m * 1000 >= 1,
{
    assert((m - 1000) * dd * 1000 <= dn * nd * 1000) by (nonlinear_arith)
        requires (m - 1000) * dd <= dn * nd;
    assert(dn * nd * 1000 == dn * 1000 * nd) by (nonlinear_arith);
    assert(dn * 1000 * nd < mt * dd * nd) by (nonlinear_arith)
        requires nd >= 1 && dn * 1000 < mt * dd;
    assert(mt * dd * nd == mt * nd * dd) by (nonlinear_arith);
    assert((m - 1000) * dd * 1000 == (m - 1000) * 1000 * dd) by (nonlinear_arith);
    assert((m - 1000) * 1000 < mt * nd) by (nonlinear_arith)
        requires dd >= 1 && (m - 1000) * 1000 * dd < mt * nd * dd;
    assert(m * 1000 < mt * nd + 1000000);
    assert(mt * nd + 1000000 <= (mt + 1000000) * nd) by (nonlinear_arith)
        requires nd >= 1;
    assert(mt * nd <= 1000000000000) by (nonlinear_arith)
        requires 0 <= mt <= 1000000 && 1 <= nd <= 1000000;
}

/// Stepping an axis spends a thousandth-cell of its walking room and
/// leaves the other axes' room unchanged.
proof fn lemma_measure_step(m: int, nd: int, mt: int)
    requires
        nd >= 1,
        mt * nd + 1000000 - m * 1000 >= 1,
    ensures
        0 <= axis_measure(m + 1000, nd, mt) < axis_measure(m, nd, mt),
{
}


/// One step never shrinks the traveled distance and keeps the unbounded
/// walk invariants, whatever the maximum distance.
proof fn lemma_ray_step_mono(s: RayState, d: (int, int, int))
    requires
        st_wf0(s, d),
        !(d.0 == 0 && d.1 == 0 && d.2 == 0),
    ensures
        st_wf0(ray_step(s, d), d),
        ray_step(s, d).dist_num * s.dist_den >= s.dist_num * ray_step(s, d).dist_den,
        ray_step(s, d).dist_den >= 1,
{
    let ndx = nd_of(d.0);
    let ndy = nd_of(d.1);
    let ndz = nd_of(d.2);
    let dn = s.dist_num;
    let dd = s.dist_den;
    let s2 = ray_step(s, d);
    if t_lt(s.mx, ndx, s.my, ndy) {
        if t_lt(s.mx, ndx, s.mz, ndz) {
            if ndy != 0 {
                lemma_frac_trans(s.my - 1000, ndy, dn, dd, s.mx, ndx);
            }
            if ndz != 0 {
                lemma_frac_trans(s.mz - 1000, ndz, dn, dd, s.mx, ndx);
            }
            assert(s2.mx * s2.dist_den >= s2.dist_num * ndx) by (nonlinear_arith)
                requires s2.mx == s.mx + 1000 && s2.dist_num == s.mx && s2.dist_den == ndx
                    && ndx >= 1;
        } else {
            assert(ndz != 0);
            if ndy != 0 {
                lemma_frac_trans(s.my - 1000, ndy, dn, dd, s.mz, ndz);
                lemma_frac_trans(s.mz, ndz, s.mx, ndx, s.my, ndy);
            }
            lemma_frac_trans(s.mx - 1000, ndx, dn, dd, s.mz, ndz);
            assert(s2.mz * s2.dist_den >= s2.dist_num * ndz) by (nonlinear_arith)
                requires s2.mz == s.mz + 1000 && s2.dist_num == s.mz && s2.dist_den == ndz
                    && ndz >= 1;
        }
    } else if t_lt(s.my, ndy, s.mz, ndz) {
        if ndx != 0 {
            lemma_frac_trans(s.mx - 1000, ndx, dn, dd, s.my, ndy);
        }
        if ndz != 0 {
            lemma_frac_trans(s.mz - 1000, ndz, dn, dd, s.my, ndy);
        }
        assert(s2.my * s2.dist_den >= s2.dist_num * ndy) by (nonlinear_arith)
            requires s2.my == s.my + 1000 && s2.dist_num == s.my && s2.dist_den == ndy && ndy >= 1;
    } else {
        if ndy == 0 {
            assert(ndx == 0);
            assert(ndz != 0);
        } else {
            assert(ndz != 0);
        }
        if ndx != 0 {
            lemma_frac_trans(s.mx - 1000, ndx, dn, dd, s.mz, ndz);
            lemma_frac_trans(s.mz, ndz, s.my, ndy, s.mx, ndx);
        }
        if ndy != 0 {
            lemma_frac_trans(s.my - 1000, ndy, dn, dd, s.mz, ndz);
        }
        assert(s2.mz * s2.dist_den >= s2.dist_num * ndz) by (nonlinear_arith)
            requires s2.mz == s.mz + 1000 && s2.dist_num == s.mz && s2.dist_den == ndz && ndz >= 1;
    }
}

/// Every state of a walk satisfies the unbounded invariants.
proof fn lemma_ray_iter_wf0(o: (int, int, int), d: (int, int, int), mt: int, n: nat)
    requires
        ray_in_bounds(o, d, mt),
    ensures
        st_wf0(ray_iter(o, d, n), d),
    decreases n,
{
    if n == 0 {
        lemma_ray_init_wf(o, d, mt);
    } else {
        lemma_ray_iter_wf0(o, d, mt, (n - 1) as nat);
        lemma_ray_step_mono(ray_iter(o, d, (n - 1) as nat), d);
    }
}

/// The traveled distance never shrinks over the course of a walk.
proof fn lemma_ray_dist_mono(o: (int, int, int), d: (int, int, int), mt: int, n1: nat, n2: nat)
    requires
        ray_in_bounds(o, d, mt),
        n1 <= n2,
    ensures
        ray_iter(o, d, n2).dist_num * ray_iter(o, d, n1).dist_den >= ray_iter(o, d, n1).dist_num
            * ray_iter(o, d, n2).dist_den,
    decreases n2 - n1,
{
    let s1 = ray_iter(o, d, n1);
    let s2 = ray_iter(o, d, n2);
    if n1 == n2 {
    } else {
        let prev = ray_iter(o, d, (n2 - 1) as nat);
        lemma_ray_dist_mono(o, d, mt, n1, (n2 - 1) as nat);
        lemma_ray_iter_wf0(o, d, mt, n1);
        lemma_ray_iter_wf0(o, d, mt, (n2 - 1) as nat);
        lemma_ray_step_mono(prev, d);
        lemma_frac_trans(s1.dist_num, s1.dist_den, prev.dist_num, prev.dist_den, s2.dist_num, s2.dist_den);
    }
}

/// Once a walk has reached its maximum distance, every later state has
/// reached it too.
proof fn lemma_ray_past_max(o: (int, int, int), d: (int, int, int), mt: int, nf: nat, n: nat)
    requires
        ray_in_bounds(o, d, mt),
        nf <= n,
        !dist_below_max(ray_iter(o, d, nf), mt),
    ensures
        !dist_below_max(ray_iter(o, d, n), mt),
{
    let sf = ray_iter(o, d, nf);
    let sn = ray_iter(o, d, n);
    lemma_ray_iter_wf0(o, d, mt, nf);
    lemma_ray_iter_wf0(o, d, mt, n);
    lemma_ray_dist_mono(o, d, mt, nf, n);
    lemma_frac_trans(mt, 1000, sf.dist_num, sf.dist_den, sn.dist_num, sn.dist_den);
}

// ---------------------------------------------------------------------------
// The executable walk.
// ---------------------------------------------------------------------------

/// Whether a call of the solidity query on the cell a walk state denotes,
/// if the cell is inside the world's vertical range, returned false.
pub open spec fn ray_missed<F: Fn(i32, i32, i32) -> bool>(
    f: F,
    o: (int, int, int),
    d: (int, int, int),
    m: nat,
) -> bool {
    let s = ray_iter(o, d, m);
    (0 <= s.by < 256) ==> call_ensures(f, cell_of(s), false)
}

/// Whether a hit record is the outcome of a walk that found its first
/// solid cell after a number of steps: that cell is within the maximum
/// distance and the vertical range, the solidity query returned true on
/// it and false on every earlier in-range cell, and the record carries the
/// cell, its entry face, and the exact distance and hit point.
pub open spec fn ray_hit_found<F: Fn(i32, i32, i32) -> bool>(
    f: F,
    o: (int, int, int),
    d: (int, int, int),
    mt: int,
    n: nat,
    hit: RaycastHit,
) -> bool {
    let s = ray_iter(o, d, n);
    &&& dist_below_max(s, mt)
    &&& 0 <= s.by < 256
    &&& call_ensures(f, cell_of(s), true)
    &&& hit == hit_from_state(o, d, s)
    &&& forall|m: nat| m < n ==> ray_missed(f, o, d, m)
}

/// The origin or direction triple a coordinate array denotes, in
/// thousandths of a block.
pub open spec fn milli_of(a: [i64; 3]) -> (int, int, int) {
    (a[0] as int, a[1] as int, a[2] as int)
}

/// Whether one per-axis boundary distance is strictly nearer than another.
fn t_less(mi: i64, ndi: i64, mj: i64, ndj: i64) -> (r: bool)
    requires
        0 <= mi <= 2000000000,
        0 <= ndi <= 1000000,
        0 <= mj <= 2000000000,
        0 <= ndj <= 1000000,
    ensures
        r == t_lt(mi as int, ndi as int, mj as int, ndj as int),
{
    if ndi == 0 {
        false
    } else if ndj == 0 {
        true
    } else {
        proof {
            assert(mi as int * ndj as int <= 2000000000000000 && mj as int * ndi as int
                <= 2000000000000000) by (nonlinear_arith)
                requires
                    0 <= mi as int <= 2000000000 && 0 <= ndj as int <= 1000000 && 0 <= mj as int
                        <= 2000000000 && 0 <= ndi as int <= 1000000,
            ;
        }
        mi * ndj < mj * ndi
    }
}

/// Divides a milli-block coordinate by a thousand, rounding toward
/// negative infinity.
fn floor_div_1000(a: i64) -> (r: i64)
    requires
        -1000000000 <= a <= 1000000000,
    ensures
        r as int == (a as int) / 1000,
{
    if a >= 0 {
        let q = ((a as u64) / 1000) as i64;
        q
    } else {
        let n = (-a) as u64;
        let q = ((n + 999) / 1000) as i64;
        proof {
            vstd::arithmetic::div_mod::lemma_fundamental_div_mod(a as int, 1000);
            vstd::arithmetic::div_mod::lemma_mod_bound(a as int, 1000);
            vstd::arithmetic::div_mod::lemma_fundamental_div_mod(n as int + 999, 1000);
            vstd::arithmetic::div_mod::lemma_mod_bound(n as int + 999, 1000);
        }
        -q
    }
}

/// Casts a ray through the voxel world with the DDA stepping method.
///
/// The origin, direction and maximum distance are in thousandths of a
/// block; distances are measured in multiples of the direction vector, so
/// a direction of unit length measures them in blocks. `is_solid` is asked
/// about every cell the ray passes through, in order, cells outside the
/// vertical world range `0..256` excepted; the first cell it affirms is
/// returned with the face the ray entered it by and the exact fractional
/// distance and hit point. The walk ends once the traveled distance
/// reaches the maximum.
pub fn raycast<F: Fn(i32, i32, i32) -> bool>(
    origin: [i64; 3],
    direction: [i64; 3],
    max_distance: i64,
    is_solid: F,
) -> (r: Option<RaycastHit>)
    requires
        forall|x: i32, y: i32, z: i32| is_solid.requires((x, y, z)),
        ray_in_bounds(milli_of(origin), milli_of(direction), max_distance as int),
    ensures
        (match r {
            Some(hit) => exists|n: nat|
                #[trigger] ray_hit_found(
                    is_solid,
                    milli_of(origin),
                    milli_of(direction),
                    max_distance as int,
                    n,
                    hit,
                ),
            None => forall|n: nat|
                dist_below_max(
                    #[trigger] ray_iter(milli_of(origin), milli_of(direction), n),
                    max_distance as int,
                ) ==> ray_missed(is_solid, milli_of(origin), milli_of(direction), n),
        }),
{
    let ghost oo = milli_of(origin);
    let ghost dv = milli_of(direction);
    let ghost mti = max_distance as int;
    let ox = origin[0];
    let oy = origin[1];
    let oz = origin[2];
    let dx = direction[0];
    let dy = direction[1];
    let dz = direction[2];
    let ndx = if dx >= 0 {
        dx
    } else {
        -dx
    };
    let ndy = if dy >= 0 {
        dy
    } else {
        -dy
    };
    let ndz = if dz >= 0 {
        dz
    } else {
        -dz
    };
    let step_x: i64 = if dx >= 0 {
        1
    } else {
        -1
    };
    let step_y: i64 = if dy >= 0 {
        1
    } else {
        -1
    };
    let step_z: i64 = if dz >= 0 {
        1
    } else {
        -1
    };
    let mut bx = floor_div_1000(ox);
    let mut by = floor_div_1000(oy);
    let mut bz = floor_div_1000(oz);
    proof {
        lemma_ray_init_wf(oo, dv, mti);
    }
    let mut mx = if dx >= 0 {
        (bx + 1) * 1000 - ox
    } else {
        ox - bx * 1000
    };
    let mut my = if dy >= 0 {
        (by + 1) * 1000 - oy
    } else {
        oy - by * 1000
    };
    let mut mz = if dz >= 0 {
        (bz + 1) * 1000 - oz
    } else {
        oz - bz * 1000
    };
    let mut dist_num: i64 = 0;
    let mut dist_den: i64 = 1;
    let mut last_face = HitFace::Top;
    let ghost mut n: nat = 0nat;
    proof {
        assert(bx as int == ray_iter(oo, dv, n).bx);
        assert(mx as int == ray_iter(oo, dv, n).mx);
    }
    while dist_num * 1000 < max_distance * dist_den
        invariant
            forall|x: i32, y: i32, z: i32| is_solid.requires((x, y, z)),
            ray_in_bounds(oo, dv, mti),
            oo == milli_of(origin),
            dv == milli_of(direction),
            mti == max_distance as int,
            ndx as int == nd_of(dv.0),
            ndy as int == nd_of(dv.1),
            ndz as int == nd_of(dv.2),
            step_x as int == (if dv.0 >= 0 { 1int } else { -1int }),
            step_y as int == (if dv.1 >= 0 { 1int } else { -1int }),
            step_z as int == (if dv.2 >= 0 { 1int } else { -1int }),
            ox as int == oo.0 && oy as int == oo.1 && oz as int == oo.2,
            dx as int == dv.0 && dy as int == dv.1 && dz as int == dv.2,
            bx as int == ray_iter(oo, dv, n).bx,
            by as int == ray_iter(oo, dv, n).by,
            bz as int == ray_iter(oo, dv, n).bz,
            mx as int == ray_iter(oo, dv, n).mx,
            my as int == ray_iter(oo, dv, n).my,
            mz as int == ray_iter(oo, dv, n).mz,
            dist_num as int == ray_iter(oo, dv, n).dist_num,
            dist_den as int == ray_iter(oo, dv, n).dist_den,
            last_face == ray_iter(oo, dv, n).face,
            st_wf(ray_iter(oo, dv, n), oo, dv, mti),
            0 <= dist_num <= 2000001000,
            1 <= dist_den <= 1000000,
            max_distance as int * dist_den as int <= 1000000000000,
            -1000001 <= ray_init(oo, dv).bx <= 1000001,
            -1000001 <= ray_init(oo, dv).by <= 1000001,
            -1000001 <= ray_init(oo, dv).bz <= 1000001,
            0 <= ray_init(oo, dv).mx <= 1000,
            0 <= ray_init(oo, dv).my <= 1000,
            0 <= ray_init(oo, dv).mz <= 1000,
            forall|m: nat| m < n ==> ray_missed(is_solid, oo, dv, m),
        decreases ray_measure(ray_iter(oo, dv, n), dv, mti),
    {
        let ghost st = ray_iter(oo, dv, n);
        proof {
            assert(abs_of(st.bx - ray_init(oo, dv).bx) * 1000 <= 1000002000 ==> abs_of(
                st.bx - ray_init(oo, dv).bx,
            ) <= 1000002);
            assert(-2100000 <= st.bx <= 2100000);
            assert(-2100000 <= st.by <= 2100000);
            assert(-2100000 <= st.bz <= 2100000);
        }
        if by >= 0 && by < 256 {
            let solid = is_solid(bx as i32, by as i32, bz as i32);
            if solid {
                proof {
                    assert(st.dist_num * 1000 <= (mti + 1000000) * st.dist_den);
                    assert(st.dist_num <= 2000000000) by (nonlinear_arith)
                        requires
                            st.dist_num * 1000 <= (mti + 1000000) * st.dist_den && 0 <= mti
                                <= 1000000 && 1 <= st.dist_den <= 1000000 && st.dist_num >= 0,
                    ;
                }
                proof {
                    assert(abs_of(ox as int * dist_den as int) <= 1000000000000000 && abs_of(
                        oy as int * dist_den as int,
                    ) <= 1000000000000000 && abs_of(oz as int * dist_den as int)
                        <= 1000000000000000) by (nonlinear_arith)
                        requires
                            abs_of(ox as int) <= 1000000000 && abs_of(oy as int) <= 1000000000
                                && abs_of(oz as int) <= 1000000000 && 1 <= dist_den as int
                                <= 1000000,
                    ;
                    assert(abs_of(dx as int * dist_num as int) <= 3000000000000000 && abs_of(
                        dy as int * dist_num as int,
                    ) <= 3000000000000000 && abs_of(dz as int * dist_num as int)
                        <= 3000000000000000) by (nonlinear_arith)
                        requires
                            abs_of(dx as int) <= 1000000 && abs_of(dy as int) <= 1000000 && abs_of(
                                dz as int,
                            ) <= 1000000 && 0 <= dist_num as int <= 2000001000,
                    ;
                }
                let hit = RaycastHit {
                    block_pos: BlockPos { x: bx as i32, y: by as i32, z: bz as i32 },
                    face: last_face,
                    distance_num: dist_num,
                    distance_den: dist_den,
                    hit_point_num: [
                        ox * dist_den + dx * dist_num,
                        oy * dist_den + dy * dist_num,
                        oz * dist_den + dz * dist_num,
                    ],
                    hit_point_den: 1000 * dist_den,
                };
                proof {
                    assert(hit == hit_from_state(oo, dv, st));
                    assert((bx as i32, by as i32, bz as i32) == cell_of(st));
                    assert(ray_hit_found(is_solid, oo, dv, mti, n, hit));
                }
                return Some(hit);
            }
            proof {
                assert((bx as i32, by as i32, bz as i32) == cell_of(st));
                assert(ray_missed(is_solid, oo, dv, n));
            }
        } else {
            proof {
                assert(!(0 <= st.by < 256));
                assert(ray_missed(is_solid, oo, dv, n));
            }
        }
        proof {
            lemma_ray_step_wf(st, oo, dv, mti);
        }
        let tx_before_y = t_less(mx, ndx, my, ndy);
        if tx_before_y {
            let tx_before_z = t_less(mx, ndx, mz, ndz);
            if tx_before_z {
                bx = bx + step_x;
                dist_num = mx;
                dist_den = ndx;
                mx = mx + 1000;
                last_face = if dx >= 0 {
                    HitFace::West
                } else {
                    HitFace::East
                };
            } else {
                bz = bz + step_z;
                dist_num = mz;
                dist_den = ndz;
                mz = mz + 1000;
                last_face = if dz >= 0 {
                    HitFace::North
                } else {
                    HitFace::South
                };
            }
        } else {
            let ty_before_z = t_less(my, ndy, mz, ndz);
            if ty_before_z {
                by = by + step_y;
                dist_num = my;
                dist_den = ndy;
                my = my + 1000;
                last_face = if dy >= 0 {
                    HitFace::Bottom
                } else {
                    HitFace::Top
                };
            } else {
                bz = bz + step_z;
                dist_num = mz;
                dist_den = ndz;
                mz = mz + 1000;
                last_face = if dz >= 0 {
                    HitFace::North
                } else {
                    HitFace::South
                };
            }
        }
        proof {
            n = n + 1;
            assert(ray_iter(oo, dv, n) == ray_step(st, dv));
            assert(max_distance as int * dist_den as int <= 1000000000000) by (nonlinear_arith)
                requires 0 <= max_distance as int <= 1000000 && 1 <= dist_den as int <= 1000000;
        }
    }
    proof {
        assert(!dist_below_max(ray_iter(oo, dv, n), mti));
        assert forall|m: nat|
            dist_below_max(#[trigger] ray_iter(oo, dv, m), mti) implies ray_missed(
            is_solid,
            oo,
            dv,
            m,
        ) by {
            if m >= n {
                lemma_ray_past_max(oo, dv, mti, n, m);
            }
        }
    }
    None
}

} // verus!
