//! Chunk mesh generation with greedy meshing.
//!
//! Converts a chunk's block grid into triangle geometry, one face direction
//! at a time: every depth slice is scanned into a visibility mask, the mask
//! is merged into maximal same-type rectangles, and each rectangle becomes
//! one quad (four vertices, two triangles).
//!
//! All geometry is exact: positions are whole block coordinates, normals are
//! unit axis vectors, colors are hundredths, tiling coordinates are block
//! counts, and atlas coordinates are tile indices. A renderer converts these
//! to floating point when it uploads the mesh.

use vstd::prelude::*;
use vstd::pervasive::VecAdditionalExecFns;
use crate::block::Block;
use crate::chunk::Chunk;
use crate::texture_atlas::TextureAtlas;

verus! {

/// A vertex in the chunk mesh.
#[derive(Debug, Clone, Copy, PartialEq, Eq)]
pub struct ChunkVertex {
    /// Position in world space, in whole blocks.
    pub position: [i32; 3],
    /// Normal vector: one axis is 1 or -1, the others 0.
    pub normal: [i32; 3],
    /// Color (RGB) in hundredths of full intensity, used as tint.
    pub color: [u8; 3],
    /// Ambient occlusion factor: a fixed placeholder of 1 (full brightness).
    pub ao: u8,
    /// Local tiling coordinates (0 to width, 0 to height), in blocks.
    pub local_uv: [u32; 2],
    /// Atlas base position as a (column, row) tile index.
    pub atlas_uv: [u32; 2],
}

impl ChunkVertex {
    /// Creates a new vertex.
    pub fn new(
        position: [i32; 3],
        normal: [i32; 3],
        color: [u8; 3],
        ao: u8,
        local_uv: [u32; 2],
        atlas_uv: [u32; 2],
    ) -> (r: Self)
        ensures
            r == (ChunkVertex { position, normal, color, ao, local_uv, atlas_uv }),
    {
        Self { position, normal, color, ao, local_uv, atlas_uv }
    }
}

/// The six faces of a cube.
#[derive(Debug, Clone, Copy, PartialEq, Eq, Structural)]
pub enum Face {
    /// Positive X (East).
    PosX,
    /// Negative X (West).
    NegX,
    /// Positive Y (Up).
    PosY,
    /// Negative Y (Down).
    NegY,
    /// Positive Z (South).
    PosZ,
    /// Negative Z (North).
    NegZ,
}

impl Face {
    /// The unit normal of each face.
    pub open spec fn spec_normal(self) -> [i32; 3] {
        match self {
            Face::PosX => [1i32, 0i32, 0i32],
            Face::NegX => [-1i32, 0i32, 0i32],
            Face::PosY => [0i32, 1i32, 0i32],
            Face::NegY => [0i32, -1i32, 0i32],
            Face::PosZ => [0i32, 0i32, 1i32],
            Face::NegZ => [0i32, 0i32, -1i32],
        }
    }

    /// Returns the normal vector for this face.
    pub fn normal(self) -> (r: [i32; 3])
        ensures
            r == self.spec_normal(),
    {
        match self {
            Face::PosX => [1, 0, 0],
            Face::NegX => [-1, 0, 0],
            Face::PosY => [0, 1, 0],
            Face::NegY => [0, -1, 0],
            Face::PosZ => [0, 0, 1],
            Face::NegZ => [0, 0, -1],
        }
    }

    /// Returns all six faces, in the order the mesh generator sweeps them.
    pub fn all() -> (r: Vec<Face>)
        ensures
            r@ =~= seq![Face::PosX, Face::NegX, Face::PosY, Face::NegY, Face::PosZ, Face::NegZ],
    {
        let mut r: Vec<Face> = Vec::new();
        r.push(Face::PosX);
        r.push(Face::NegX);
        r.push(Face::PosY);
        r.push(Face::NegY);
        r.push(Face::PosZ);
        r.push(Face::NegZ);
        r
    }
}

/// The vertex and index sequences of a mesh, as mathematical values.
#[verifier::ext_equal]
pub struct MeshData {
    /// The vertices, in emission order.
    pub verts: Seq<ChunkVertex>,
    /// The triangle indices, three per triangle.
    pub inds: Seq<u32>,
}

/// Generated mesh data for a chunk.
pub struct ChunkMesh {
    /// Vertex data.
    pub vertices: Vec<ChunkVertex>,
    /// Index data.
    pub indices: Vec<u32>,
}

impl View for ChunkMesh {
    type V = MeshData;

    open spec fn view(&self) -> MeshData {
        MeshData { verts: self.vertices@, inds: self.indices@ }
    }
}

impl ChunkMesh {
    /// Creates a new empty mesh.
    pub fn new() -> (r: Self)
        ensures
            r@.verts.len() == 0,
            r@.inds.len() == 0,
    {
        Self { vertices: Vec::new(), indices: Vec::new() }
    }

    /// Returns true if the mesh is empty.
    pub fn is_empty(&self) -> (r: bool)
        ensures
            r == (self@.verts.len() == 0),
    {
        self.vertices.len() == 0
    }

    /// Returns the number of triangles in the mesh.
    pub fn triangle_count(&self) -> (r: usize)
        ensures
            r == self@.inds.len() / 3,
    {
        self.indices.len() / 3
    }
}

impl Default for ChunkMesh {
    /// The default mesh is empty.
    fn default() -> (r: Self)
        ensures
            r@.verts.len() == 0,
            r@.inds.len() == 0,
    {
        Self::new()
    }
}

// ---------------------------------------------------------------------------
// The meshing model: what the generator produces, slice by slice.
// ---------------------------------------------------------------------------

/// Whether a face looks along the positive direction of its axis.
pub open spec fn face_positive(f: Face) -> bool {
    match f {
        Face::PosX | Face::PosY | Face::PosZ => true,
        Face::NegX | Face::NegY | Face::NegZ => false,
    }
}

/// How many depth slices a face direction sweeps: the Y faces sweep the
/// full chunk height, the others the chunk width.
pub open spec fn d_size(f: Face) -> int {
    match f {
        Face::PosY | Face::NegY => 256,
        _ => 16,
    }
}

/// The width of a slice mask: the first in-plane axis is X or Z for every
/// face, so it always spans the chunk width.
pub open spec fn u_size(f: Face) -> int {
    16
}

/// The height of a slice mask: the second in-plane axis is Z for the Y
/// faces and Y for all others.
pub open spec fn v_size(f: Face) -> int {
    match f {
        Face::PosY | Face::NegY => 16,
        _ => 256,
    }
}

/// The chunk coordinates of a cell addressed by depth and in-plane
/// coordinates for a face direction.
pub open spec fn cell_coords(f: Face, d: int, u: int, v: int) -> (int, int, int) {
    match f {
        Face::PosY | Face::NegY => (u, d, v),
        Face::PosX | Face::NegX => (d, v, u),
        Face::PosZ | Face::NegZ => (u, v, d),
    }
}

/// Whether the neighbor a face of this cell looks at lets the face show:
/// true past the chunk boundary, and otherwise exactly when the neighbor
/// block is transparent.
pub open spec fn face_visible(c: Chunk, f: Face, d: int, u: int, v: int) -> bool {
    let nd = if face_positive(f) {
        d + 1
    } else {
        d - 1
    };
    if nd < 0 || nd >= d_size(f) {
        true
    } else {
        let (x, y, z) = cell_coords(f, nd, u, v);
        c.spec_block_at(x, y, z).spec_properties().is_transparent
    }
}

/// One cell of a slice mask: the block type when the cell holds a non-air
/// block whose face shows, and nothing otherwise.
pub open spec fn mask_cell(c: Chunk, f: Face, d: int, u: int, v: int) -> Option<Block> {
    let (x, y, z) = cell_coords(f, d, u, v);
    let b = c.spec_block_at(x, y, z);
    if b == Block::Air {
        None
    } else if face_visible(c, f, d, u, v) {
        Some(b)
    } else {
        None
    }
}

/// The whole mask of one depth slice, row-major: entry `u + v * u_size`.
pub open spec fn mask_seq(c: Chunk, f: Face, d: int) -> Seq<Option<Block>> {
    Seq::new((u_size(f) * v_size(f)) as nat, |i: int| mask_cell(c, f, d, i % u_size(f), i / u_size(f)))
}

/// One merged rectangle of a slice mask.
pub struct Quad {
    /// The in-plane position of the rectangle's low corner.
    pub u: int,
    /// The in-plane position of the rectangle's low corner.
    pub v: int,
    /// The extent along the first in-plane axis.
    pub w: int,
    /// The extent along the second in-plane axis.
    pub h: int,
    /// The block type the rectangle shows.
    pub block: Block,
}

/// How far a run of cells holding exactly this block type extends from a
/// mask position along the first in-plane axis.
pub open spec fn run_width(m: Seq<Option<Block>>, us: int, b: Block, u: int, v: int) -> int
    decreases us - u,
{
    if u < 0 || u >= us || m[v * us + u] != Some(b) {
        0
    } else {
        1 + run_width(m, us, b, u + 1, v)
    }
}

/// Whether a whole width-row of cells at mask row `v` holds this block type.
pub open spec fn row_matches(m: Seq<Option<Block>>, us: int, b: Block, u: int, w: int, v: int) -> bool {
    forall|k: int| u <= k < u + w ==> #[trigger] m[v * us + k] == Some(b)
}

/// How many consecutive rows, from a mask row on, hold this block type over
/// a whole width-row.
pub open spec fn run_height(
    m: Seq<Option<Block>>,
    us: int,
    vs: int,
    b: Block,
    u: int,
    w: int,
    v: int,
) -> int
    decreases vs - v,
{
    if v < 0 || v >= vs || !row_matches(m, us, b, u, w, v) {
        0
    } else {
        1 + run_height(m, us, vs, b, u, w, v + 1)
    }
}

/// The mask with a rectangle of cells cleared.
pub open spec fn clear_rect(
    m: Seq<Option<Block>>,
    us: int,
    u: int,
    v: int,
    w: int,
    h: int,
) -> Seq<Option<Block>> {
    Seq::new(m.len(), |i: int|
        if u <= i % us < u + w && v <= i / us < v + h {
            None
        } else {
            m[i]
        })
}

/// A run of cells of one block type is never empty where it starts on that
/// block type, and never reaches past the mask width.
pub proof fn lemma_run_width_bounds(m: Seq<Option<Block>>, us: int, b: Block, u: int, v: int)
    ensures
        0 <= run_width(m, us, b, u, v),
        0 <= u <= us ==> u + run_width(m, us, b, u, v) <= us,
        (0 <= u < us && m[v * us + u] == Some(b)) ==> run_width(m, us, b, u, v) >= 1,
        forall|k: int| u <= k < u + run_width(m, us, b, u, v) ==> #[trigger] m[v * us + k] == Some(
            b,
        ),
    decreases us - u,
{
    if !(u < 0 || u >= us || m[v * us + u] != Some(b)) {
        lemma_run_width_bounds(m, us, b, u + 1, v);
    }
}

/// A run of matching rows is never negative and never reaches past the mask
/// height.
pub proof fn lemma_run_height_bounds(
    m: Seq<Option<Block>>,
    us: int,
    vs: int,
    b: Block,
    u: int,
    w: int,
    v: int,
)
    ensures
        0 <= run_height(m, us, vs, b, u, w, v),
        0 <= v <= vs ==> v + run_height(m, us, vs, b, u, w, v) <= vs,
        (0 <= v < vs && row_matches(m, us, b, u, w, v)) ==> run_height(m, us, vs, b, u, w, v) >= 1,
    decreases vs - v,
{
    if !(v < 0 || v >= vs || !row_matches(m, us, b, u, w, v)) {
        lemma_run_height_bounds(m, us, vs, b, u, w, v + 1);
    }
}

/// The maximal rectangles greedy merging finds in a mask, scanning rows
/// from a starting position: the first unclaimed cell is extended as far as
/// its block type runs along the row, then down over whole rows, the
/// rectangle is cleared, and the scan resumes past its width.
pub open spec fn merge_quads(m: Seq<Option<Block>>, us: int, vs: int, u: int, v: int) -> Seq<Quad>
    decreases vs - v, us - u,
    when us >= 1
    via merge_quads_decreases
{
    if v >= vs {
        Seq::empty()
    } else if u < 0 || u >= us {
        merge_quads(m, us, vs, 0, v + 1)
    } else {
        match m[v * us + u] {
            None => merge_quads(m, us, vs, u + 1, v),
            Some(b) => {
                let w = run_width(m, us, b, u, v);
                let h = run_height(m, us, vs, b, u, w, v);
                seq![Quad { u, v, w, h, block: b }] + merge_quads(
                    clear_rect(m, us, u, v, w, h),
                    us,
                    vs,
                    u + w,
                    v,
                )
            },
        }
    }
}

#[via_fn]
proof fn merge_quads_decreases(m: Seq<Option<Block>>, us: int, vs: int, u: int, v: int) {
    if v < vs && 0 <= u < us {
        match m[v * us + u] {
            Some(b) => lemma_run_width_bounds(m, us, b, u, v),
            None => (),
        }
    }
}

/// The four vertices of one quad, in emission order. The corner order is
/// fixed per face so that the shared index pattern yields outward-facing
/// triangles.
pub open spec fn quad_vertex(f: Face, ox: int, oz: int, d: int, q: Quad, i: int) -> ChunkVertex {
    let ci = if face_positive(f) {
        i
    } else {
        if i == 0 {
            0int
        } else if i == 1 {
            3int
        } else if i == 2 {
            2int
        } else {
            1int
        }
    };
    let du = if ci == 1 || ci == 2 {
        q.w
    } else {
        0int
    };
    let dv = if ci == 2 || ci == 3 {
        q.h
    } else {
        0int
    };
    let dq = if face_positive(f) {
        d + 1
    } else {
        d
    };
    let (cx, cy, cz) = cell_coords(f, dq, q.u + du, q.v + dv);
    let pos = TextureAtlas::spec_block_atlas_position(q.block);
    ChunkVertex {
        position: [(cx + ox) as i32, cy as i32, (cz + oz) as i32],
        normal: f.spec_normal(),
        color: q.block.spec_color(),
        ao: 1,
        local_uv: [du as u32, dv as u32],
        atlas_uv: [pos.0, pos.1],
    }
}

/// The four vertices of one quad.
pub open spec fn quad_verts(f: Face, ox: int, oz: int, d: int, q: Quad) -> Seq<ChunkVertex> {
    Seq::new(4, |i: int| quad_vertex(f, ox, oz, d, q, i))
}

/// The six indices of one quad's two triangles, over a vertex base: the Z
/// faces wind opposite to the X and Y faces.
pub open spec fn quad_inds(f: Face, base: int) -> Seq<u32> {
    match f {
        Face::PosZ | Face::NegZ => seq![
            base as u32,
            (base + 1) as u32,
            (base + 2) as u32,
            base as u32,
            (base + 2) as u32,
            (base + 3) as u32,
        ],
        _ => seq![
            base as u32,
            (base + 2) as u32,
            (base + 1) as u32,
            base as u32,
            (base + 3) as u32,
            (base + 2) as u32,
        ],
    }
}

/// A mesh with one more quad appended.
pub open spec fn emit_quad(md: MeshData, f: Face, ox: int, oz: int, d: int, q: Quad) -> MeshData {
    MeshData {
        verts: md.verts + quad_verts(f, ox, oz, d, q),
        inds: md.inds + quad_inds(f, md.verts.len() as int),
    }
}

/// A mesh with a sequence of quads appended in order.
pub open spec fn emit_quads(
    md: MeshData,
    f: Face,
    ox: int,
    oz: int,
    d: int,
    qs: Seq<Quad>,
) -> MeshData
    decreases qs.len(),
{
    if qs.len() == 0 {
        md
    } else {
        emit_quads(emit_quad(md, f, ox, oz, d, qs.first()), f, ox, oz, d, qs.drop_first())
    }
}

/// The merged rectangles of one depth slice of the chunk.
pub open spec fn slice_quads(c: Chunk, f: Face, d: int) -> Seq<Quad> {
    merge_quads(mask_seq(c, f, d), u_size(f), v_size(f), 0, 0)
}

/// A mesh with every slice of a face direction appended, from a depth on.
pub open spec fn emit_slices(md: MeshData, c: Chunk, f: Face, ox: int, oz: int, d: int) -> MeshData
    decreases d_size(f) - d,
{
    if d < 0 || d >= d_size(f) {
        md
    } else {
        emit_slices(emit_quads(md, f, ox, oz, d, slice_quads(c, f, d)), c, f, ox, oz, d + 1)
    }
}

/// A mesh with one whole face direction appended.
pub open spec fn emit_face(md: MeshData, c: Chunk, f: Face, ox: int, oz: int) -> MeshData {
    emit_slices(md, c, f, ox, oz, 0)
}

/// The world-block origin of a chunk.
pub open spec fn chunk_origin(c: Chunk) -> (int, int) {
    (16 * c.spec_position().x, 16 * c.spec_position().z)
}

/// The mesh the generator produces for a chunk: all six face directions,
/// in a fixed order, each swept slice by slice.
pub open spec fn mesh_model(c: Chunk) -> MeshData {
    let (ox, oz) = chunk_origin(c);
    let md = MeshData { verts: Seq::empty(), inds: Seq::empty() };
    let md = emit_face(md, c, Face::PosY, ox, oz);
    let md = emit_face(md, c, Face::NegY, ox, oz);
    let md = emit_face(md, c, Face::PosX, ox, oz);
    let md = emit_face(md, c, Face::NegX, ox, oz);
    let md = emit_face(md, c, Face::PosZ, ox, oz);
    emit_face(md, c, Face::NegZ, ox, oz)
}


// ---------------------------------------------------------------------------
// Length bounds of the model: the generator needs them to keep its vertex
// indices inside u32 range.
// ---------------------------------------------------------------------------

/// Appending quads grows a mesh by exactly four vertices and six indices
/// per quad.
pub proof fn lemma_emit_quads_len(md: MeshData, f: Face, ox: int, oz: int, d: int, qs: Seq<Quad>)
    ensures
        emit_quads(md, f, ox, oz, d, qs).verts.len() == md.verts.len() + 4 * qs.len(),
        emit_quads(md, f, ox, oz, d, qs).inds.len() == md.inds.len() + 6 * qs.len(),
    decreases qs.len(),
{
    if qs.len() > 0 {
        lemma_emit_quads_len(emit_quad(md, f, ox, oz, d, qs.first()), f, ox, oz, d, qs.drop_first());
    }
}

/// Greedy merging emits at most one quad per mask cell.
pub proof fn lemma_merge_quads_len(m: Seq<Option<Block>>, us: int, vs: int, u: int, v: int)
    requires
        us >= 1,
        0 <= u <= us,
        0 <= v,
    ensures
        v < vs ==> merge_quads(m, us, vs, u, v).len() <= (vs - v) * us - u,
        v >= vs ==> merge_quads(m, us, vs, u, v).len() == 0,
    decreases vs - v, us - u,
{
    if v < vs {
        if u >= us {
            lemma_merge_quads_len(m, us, vs, 0, v + 1);
            assert((vs - v) * us == (vs - v - 1) * us + us) by (nonlinear_arith);
            assert(v + 1 < vs ==> (vs - (v + 1)) * us <= (vs - v) * us - u);
            assert(v + 1 >= vs ==> 0 <= (vs - v) * us - u) by (nonlinear_arith)
                requires us >= 1 && 0 <= u <= us && v < vs;
        } else {
            match m[v * us + u] {
                None => {
                    lemma_merge_quads_len(m, us, vs, u + 1, v);
                },
                Some(b) => {
                    lemma_run_width_bounds(m, us, b, u, v);
                    let w = run_width(m, us, b, u, v);
                    let h = run_height(m, us, vs, b, u, w, v);
                    lemma_merge_quads_len(clear_rect(m, us, u, v, w, h), us, vs, u + w, v);
                },
            }
        }
    }
}

/// Sweeping the remaining slices of a face grows a mesh by at most four
/// vertices and six indices per mask cell of every slice, and never
/// shrinks it.
pub proof fn lemma_emit_slices_len(md: MeshData, c: Chunk, f: Face, ox: int, oz: int, d: int)
    requires
        0 <= d,
    ensures
        emit_slices(md, c, f, ox, oz, d).verts.len() <= md.verts.len() + (if d < d_size(f) {
            (d_size(f) - d) * 4 * u_size(f) * v_size(f)
        } else {
            0int
        }),
        emit_slices(md, c, f, ox, oz, d).inds.len() <= md.inds.len() + (if d < d_size(f) {
            (d_size(f) - d) * 6 * u_size(f) * v_size(f)
        } else {
            0int
        }),
        emit_slices(md, c, f, ox, oz, d).verts.len() >= md.verts.len(),
        emit_slices(md, c, f, ox, oz, d).inds.len() >= md.inds.len(),
    decreases d_size(f) - d,
{
    if d < d_size(f) {
        let qs = slice_quads(c, f, d);
        lemma_merge_quads_len(mask_seq(c, f, d), u_size(f), v_size(f), 0, 0);
        lemma_emit_quads_len(md, f, ox, oz, d, qs);
        lemma_emit_slices_len(emit_quads(md, f, ox, oz, d, qs), c, f, ox, oz, d + 1);
    }
}

/// One whole face sweep grows a mesh by at most four vertices and six
/// indices per cell of the swept volume.
pub proof fn lemma_emit_face_len(md: MeshData, c: Chunk, f: Face, ox: int, oz: int)
    ensures
        emit_face(md, c, f, ox, oz).verts.len() <= md.verts.len() + 262144,
        emit_face(md, c, f, ox, oz).inds.len() <= md.inds.len() + 393216,
        emit_face(md, c, f, ox, oz).verts.len() >= md.verts.len(),
        emit_face(md, c, f, ox, oz).inds.len() >= md.inds.len(),
{
    lemma_emit_slices_len(md, c, f, ox, oz, 0);
    assert(d_size(f) * 4 * u_size(f) * v_size(f) == 262144);
    assert(d_size(f) * 6 * u_size(f) * v_size(f) == 393216);
}

/// No chunk mesh holds more vertices or indices than six full face sweeps
/// can produce.
pub proof fn lemma_mesh_model_len(c: Chunk)
    ensures
        mesh_model(c).verts.len() <= 1572864,
        mesh_model(c).inds.len() <= 2359296,
{
    let (ox, oz) = chunk_origin(c);
    let md0 = MeshData { verts: Seq::empty(), inds: Seq::empty() };
    let md1 = emit_face(md0, c, Face::PosY, ox, oz);
    let md2 = emit_face(md1, c, Face::NegY, ox, oz);
    let md3 = emit_face(md2, c, Face::PosX, ox, oz);
    let md4 = emit_face(md3, c, Face::NegX, ox, oz);
    let md5 = emit_face(md4, c, Face::PosZ, ox, oz);
    lemma_emit_face_len(md0, c, Face::PosY, ox, oz);
    lemma_emit_face_len(md1, c, Face::NegY, ox, oz);
    lemma_emit_face_len(md2, c, Face::PosX, ox, oz);
    lemma_emit_face_len(md3, c, Face::NegX, ox, oz);
    lemma_emit_face_len(md4, c, Face::PosZ, ox, oz);
    lemma_emit_face_len(md5, c, Face::NegZ, ox, oz);
    assert(mesh_model(c) == emit_face(md5, c, Face::NegZ, ox, oz));
}

// ---------------------------------------------------------------------------
// The generator.
// ---------------------------------------------------------------------------

/// Greedy mesh generator: turns one chunk into a merged triangle mesh.
pub struct MeshGenerator {
    /// The chunk being meshed.
    chunk: Chunk,
    /// The world-block origin of the chunk, as (x, z).
    world_offset: (i32, i32),
}

impl MeshGenerator {
    /// The chunk being meshed.
    pub closed spec fn spec_chunk(self) -> Chunk {
        self.chunk
    }

    /// The world-block origin the generated geometry is offset by.
    pub closed spec fn spec_world_offset(self) -> (i32, i32) {
        self.world_offset
    }

    /// A generator is well formed when its chunk is, its offset is the
    /// chunk's block origin, and that origin keeps every emitted
    /// coordinate inside machine range.
    pub open spec fn wf(self) -> bool {
        &&& self.spec_chunk().wf()
        &&& -134217726 <= self.spec_chunk().spec_position().x <= 134217726
        &&& -134217726 <= self.spec_chunk().spec_position().z <= 134217726
        &&& self.spec_world_offset().0 == 16 * self.spec_chunk().spec_position().x
        &&& self.spec_world_offset().1 == 16 * self.spec_chunk().spec_position().z
    }

    /// Creates a new mesh generator for the given chunk.
    pub fn new(chunk: Chunk) -> (r: Self)
        requires
            chunk.wf(),
            -134217726 <= chunk.spec_position().x <= 134217726,
            -134217726 <= chunk.spec_position().z <= 134217726,
        ensures
            r.wf(),
            r.spec_chunk() == chunk,
    {
        let (ox, oz) = chunk.position().block_origin();
        Self { chunk, world_offset: (ox, oz) }
    }

    /// Generates the mesh using the greedy meshing algorithm: the six face
    /// directions in a fixed order, each swept slice by slice.
    pub fn generate(self) -> (r: ChunkMesh)
        requires
            self.wf(),
        ensures
            r@ == mesh_model(self.spec_chunk()),
            mesh_wf(r@),
    {
        proof {
            lemma_mesh_model_len(self.chunk);
            lemma_mesh_model_winding(self.chunk);
        }
        let ghost c = self.chunk;
        let ghost ox = 16 * c.spec_position().x as int;
        let ghost oz = 16 * c.spec_position().z as int;
        let ghost md0 = MeshData { verts: Seq::<ChunkVertex>::empty(), inds: Seq::<u32>::empty() };
        let ghost md1 = emit_face(md0, c, Face::PosY, ox, oz);
        let ghost md2 = emit_face(md1, c, Face::NegY, ox, oz);
        let ghost md3 = emit_face(md2, c, Face::PosX, ox, oz);
        let ghost md4 = emit_face(md3, c, Face::NegX, ox, oz);
        let ghost md5 = emit_face(md4, c, Face::PosZ, ox, oz);
        proof {
            lemma_emit_slices_len(md0, c, Face::PosY, ox, oz, 0);
            lemma_emit_slices_len(md1, c, Face::NegY, ox, oz, 0);
            lemma_emit_slices_len(md2, c, Face::PosX, ox, oz, 0);
            lemma_emit_slices_len(md3, c, Face::NegX, ox, oz, 0);
            lemma_emit_slices_len(md4, c, Face::PosZ, ox, oz, 0);
            lemma_emit_slices_len(md5, c, Face::NegZ, ox, oz, 0);
        }
        let mut mesh = ChunkMesh::new();
        assert(mesh@ =~= md0);
        self.generate_faces(&mut mesh, Face::PosY);
        self.generate_faces(&mut mesh, Face::NegY);
        self.generate_faces(&mut mesh, Face::PosX);
        self.generate_faces(&mut mesh, Face::NegX);
        self.generate_faces(&mut mesh, Face::PosZ);
        self.generate_faces(&mut mesh, Face::NegZ);
        mesh
    }

    /// Sweeps one face direction: builds the visibility mask of every
    /// depth slice and merges it into quads.
    fn generate_faces(&self, mesh: &mut ChunkMesh, face: Face)
        requires
            self.wf(),
            emit_face(
                old(mesh)@,
                self.spec_chunk(),
                face,
                self.spec_world_offset().0 as int,
                self.spec_world_offset().1 as int,
            ).verts.len() <= 0x40000000,
        ensures
            final(mesh)@ == emit_face(
                old(mesh)@,
                self.spec_chunk(),
                face,
                self.spec_world_offset().0 as int,
                self.spec_world_offset().1 as int,
            ),
    {
        let ghost c = self.spec_chunk();
        let ghost ox = self.spec_world_offset().0 as int;
        let ghost oz = self.spec_world_offset().1 as int;
        let ghost target = emit_face(old(mesh)@, c, face, ox, oz);
        let (d_sz, _u_sz, _v_sz) = face_sizes(face);
        let mut d: usize = 0;
        while d < d_sz
            invariant
                self.wf(),
                c == self.spec_chunk(),
                ox == self.spec_world_offset().0 as int,
                oz == self.spec_world_offset().1 as int,
                d_sz == d_size(face),
                0 <= d <= d_sz,
                target == emit_face(old(mesh)@, c, face, ox, oz),
                target.verts.len() <= 0x40000000,
                emit_slices(mesh@, c, face, ox, oz, d as int) == target,
            decreases d_sz - d,
        {
            let mut mask = self.build_mask(face, d);
            proof {
                lemma_emit_slices_len(
                    emit_quads(mesh@, face, ox, oz, d as int, slice_quads(c, face, d as int)),
                    c,
                    face,
                    ox,
                    oz,
                    d as int + 1,
                );
            }
            self.greedy_merge(mesh, &mut mask, d, face);
            d += 1;
        }
        assert(mesh@ == target);
    }

    /// Builds the visibility mask of one depth slice: each cell holds the
    /// block type of a visible non-air face, row-major over the two
    /// in-plane axes.
    fn build_mask(&self, face: Face, d: usize) -> (mask: Vec<Option<Block>>)
        requires
            self.wf(),
            d < d_size(face),
        ensures
            mask@ == mask_seq(self.spec_chunk(), face, d as int),
    {
        let ghost c = self.spec_chunk();
        let (d_sz, u_sz, v_sz) = face_sizes(face);
        let total = u_sz * v_sz;
        let mut mask: Vec<Option<Block>> = Vec::new();
        let mut i: usize = 0;
        while i < total
            invariant
                total == u_size(face) * v_size(face),
                i <= total,
                mask@.len() == i,
                forall|j: int| 0 <= j < i ==> (#[trigger] mask@[j]) is None,
            decreases total - i,
        {
            mask.push(None);
            i += 1;
        }
        let positive = is_positive(face);
        let mut v: usize = 0;
        while v < v_sz
            invariant
                self.wf(),
                c == self.spec_chunk(),
                d < d_size(face),
                d_sz == d_size(face),
                u_sz == u_size(face),
                v_sz == v_size(face),
                positive == face_positive(face),
                v <= v_sz,
                mask@.len() == u_sz * v_sz,
                forall|j: int|
                    0 <= j < v * u_sz ==> #[trigger] mask@[j] == mask_cell(
                        c,
                        face,
                        d as int,
                        j % u_sz as int,
                        j / u_sz as int,
                    ),
                forall|j: int| v * u_sz <= j < u_sz * v_sz ==> (#[trigger] mask@[j]) is None,
            decreases v_sz - v,
        {
            let mut u: usize = 0;
            while u < u_sz
                invariant
                    self.wf(),
                    c == self.spec_chunk(),
                    d < d_size(face),
                    d_sz == d_size(face),
                    u_sz == u_size(face),
                    v_sz == v_size(face),
                    positive == face_positive(face),
                    v < v_sz,
                    u <= u_sz,
                    mask@.len() == u_sz * v_sz,
                    forall|j: int|
                        0 <= j < v * u_sz + u ==> #[trigger] mask@[j] == mask_cell(
                            c,
                            face,
                            d as int,
                            j % u_sz as int,
                            j / u_sz as int,
                        ),
                    forall|j: int| v * u_sz + u <= j < u_sz * v_sz ==> (#[trigger] mask@[j]) is None,
                decreases u_sz - u,
            {
                let idx = u + v * u_sz;
                proof {
                    assert(idx == v * u_sz + u);
                    assert(idx as int % u_sz as int == u as int) by (nonlinear_arith)
                        requires u < u_sz && idx == v * u_sz + u && u_sz >= 1;
                    assert(idx as int / u_sz as int == v as int) by (nonlinear_arith)
                        requires u < u_sz && idx == v * u_sz + u && u_sz >= 1;
                    assert(idx < u_sz * v_sz) by (nonlinear_arith)
                        requires u < u_sz && v < v_sz && idx == v * u_sz + u;
                }
                let (x, y, z) = cell_xyz(face, d, u, v);
                let b = self.chunk.get_block(x, y, z);
                if !b.is_air() {
                    let visible = if positive {
                        if d + 1 >= d_sz {
                            true
                        } else {
                            let (nx, ny, nz) = cell_xyz(face, d + 1, u, v);
                            self.chunk.get_block(nx, ny, nz).is_transparent()
                        }
                    } else {
                        if d == 0 {
                            true
                        } else {
                            let (nx, ny, nz) = cell_xyz(face, d - 1, u, v);
                            self.chunk.get_block(nx, ny, nz).is_transparent()
                        }
                    };
                    proof {
                        assert(visible == face_visible(c, face, d as int, u as int, v as int));
                    }
                    if visible {
                        mask.set(idx, Some(b));
                    }
                }
                proof {
                    assert(mask@[idx as int] == mask_cell(c, face, d as int, u as int, v as int));
                }
                u += 1;
            }
            v += 1;
            proof {
                assert(v * u_sz == (v - 1) * u_sz + u_sz) by (nonlinear_arith);
            }
        }
        proof {
            assert(mask@ =~= mask_seq(c, face, d as int));
        }
        mask
    }

    /// Greedily merges a slice mask into maximal rectangles and emits one
    /// quad per rectangle.
    fn greedy_merge(&self, mesh: &mut ChunkMesh, mask: &mut Vec<Option<Block>>, d: usize, face: Face)
        requires
            self.wf(),
            d < d_size(face),
            old(mask)@.len() == u_size(face) * v_size(face),
            emit_quads(
                old(mesh)@,
                face,
                self.spec_world_offset().0 as int,
                self.spec_world_offset().1 as int,
                d as int,
                merge_quads(old(mask)@, u_size(face), v_size(face), 0, 0),
            ).verts.len() <= 0x40000000,
        ensures
            final(mesh)@ == emit_quads(
                old(mesh)@,
                face,
                self.spec_world_offset().0 as int,
                self.spec_world_offset().1 as int,
                d as int,
                merge_quads(old(mask)@, u_size(face), v_size(face), 0, 0),
            ),
    {
        let ghost ox = self.spec_world_offset().0 as int;
        let ghost oz = self.spec_world_offset().1 as int;
        let (_d_sz, u_sz, v_sz) = face_sizes(face);
        let ghost target = emit_quads(
            old(mesh)@,
            face,
            ox,
            oz,
            d as int,
            merge_quads(old(mask)@, u_sz as int, v_sz as int, 0, 0),
        );
        let mut v: usize = 0;
        while v < v_sz
            invariant
                self.wf(),
                ox == self.spec_world_offset().0 as int,
                oz == self.spec_world_offset().1 as int,
                d < d_size(face),
                u_sz == u_size(face),
                v_sz == v_size(face),
                v <= v_sz,
                mask@.len() == u_sz * v_sz,
                target.verts.len() <= 0x40000000,
                emit_quads(
                    mesh@,
                    face,
                    ox,
                    oz,
                    d as int,
                    merge_quads(mask@, u_sz as int, v_sz as int, 0, v as int),
                ) == target,
            decreases v_sz - v,
        {
            let mut u: usize = 0;
            while u < u_sz
                invariant
                    self.wf(),
                    ox == self.spec_world_offset().0 as int,
                    oz == self.spec_world_offset().1 as int,
                    d < d_size(face),
                    u_sz == u_size(face),
                    v_sz == v_size(face),
                    v < v_sz,
                    u <= u_sz,
                    mask@.len() == u_sz * v_sz,
                    target.verts.len() <= 0x40000000,
                    emit_quads(
                        mesh@,
                        face,
                        ox,
                        oz,
                        d as int,
                        merge_quads(mask@, u_sz as int, v_sz as int, u as int, v as int),
                    ) == target,
                decreases u_sz - u,
            {
                let idx = u + v * u_sz;
                proof {
                    assert(idx < u_sz * v_sz) by (nonlinear_arith)
                        requires u < u_sz && v < v_sz && idx == u + v * u_sz;
                }
                let cell = mask[idx];
                match cell {
                    None => {
                        proof {
                            assert(merge_quads(mask@, u_sz as int, v_sz as int, u as int, v as int)
                                == merge_quads(
                                mask@,
                                u_sz as int,
                                v_sz as int,
                                u as int + 1,
                                v as int,
                            ));
                        }
                        u += 1;
                    },
                    Some(block) => {
                        let ghost m0 = mask@;
                        // Extend the rectangle as far as the same block type
                        // runs along the row.
                        let mut width: usize = 1;
                        let mut grow_w = true;
                        while grow_w && u + width < u_sz
                            invariant
                                mask@ == m0,
                                mask@.len() == u_sz * v_sz,
                                u < u_sz,
                                v < v_sz,
                                u_sz == u_size(face),
                                v_sz == v_size(face),
                                1 <= width,
                                u + width <= u_sz,
                                forall|k: int|
                                    u <= k < u + width ==> #[trigger] mask@[v * u_sz + k] == Some(
                                        block,
                                    ),
                                !grow_w ==> (u + width < u_sz && m0[v as int * u_sz as int + u
                                    + width] != Some(block)),
                            decreases u_sz - u - width, if grow_w { 1int } else { 0int },
                        {
                            let widx = u + width + v * u_sz;
                            proof {
                                assert(widx < u_sz * v_sz) by (nonlinear_arith)
                                    requires
                                        u + width < u_sz && v < v_sz && widx == u + width + v
                                            * u_sz,
                                ;
                            }
                            let wok = match mask[widx] {
                                Some(nb) => nb == block,
                                None => false,
                            };
                            if wok {
                                width += 1;
                            } else {
                                grow_w = false;
                            }
                        }
                        proof {
                            lemma_run_width_eq(
                                m0,
                                u_sz as int,
                                block,
                                u as int,
                                v as int,
                                width as int,
                            );
                        }
                        // Extend the rectangle down while every row below
                        // still matches over the whole width.
                        let mut height: usize = 1;
                        let mut grow = true;
                        while grow && v + height < v_sz
                            invariant
                                mask@ == m0,
                                mask@.len() == u_sz * v_sz,
                                u < u_sz,
                                v < v_sz,
                                u_sz == u_size(face),
                                v_sz == v_size(face),
                                1 <= width,
                                u + width <= u_sz,
                                1 <= height,
                                v + height <= v_sz,
                                forall|r: int|
                                    v <= r < v + height ==> row_matches(
                                        m0,
                                        u_sz as int,
                                        block,
                                        u as int,
                                        width as int,
                                        r,
                                    ),
                                !grow ==> (v + height == v_sz || !row_matches(
                                    m0,
                                    u_sz as int,
                                    block,
                                    u as int,
                                    width as int,
                                    v as int + height as int,
                                )),
                                !grow ==> v + height < v_sz,
                            decreases v_sz - v - height, if grow { 1int } else { 0int },
                        {
                            let row = v + height;
                            let mut k: usize = 0;
                            let mut row_ok = true;
                            while k < width
                                invariant
                                    mask@ == m0,
                                    mask@.len() == u_sz * v_sz,
                                    u < u_sz,
                                    v < v_sz,
                                    row < v_sz,
                                    u_sz == u_size(face),
                                    v_sz == v_size(face),
                                    1 <= width,
                                    u + width <= u_sz,
                                    k <= width,
                                    row_ok <==> (forall|kk: int|
                                        u <= kk < u + k ==> #[trigger] m0[row as int * u_sz as int
                                            + kk] == Some(block)),
                                decreases width - k,
                            {
                                let cidx = u + k + row * u_sz;
                                proof {
                                    assert(cidx < u_sz * v_sz) by (nonlinear_arith)
                                        requires
                                            u + k < u_sz && row < v_sz && cidx == u + k + row
                                                * u_sz,
                                    ;
                                }
                                let cok = match mask[cidx] {
                                    Some(nb) => nb == block,
                                    None => false,
                                };
                                proof {
                                    assert(cidx as int == row as int * u_sz as int + (u + k));
                                    assert(cok == (m0[row as int * u_sz as int + (u + k)] == Some(
                                        block,
                                    )));
                                }
                                row_ok = row_ok && cok;
                                k += 1;
                            }
                            proof {
                                assert(row_ok == row_matches(
                                    m0,
                                    u_sz as int,
                                    block,
                                    u as int,
                                    width as int,
                                    row as int,
                                ));
                            }
                            if row_ok {
                                height += 1;
                            } else {
                                grow = false;
                            }
                        }
                        proof {
                            lemma_run_height_eq(
                                m0,
                                u_sz as int,
                                v_sz as int,
                                block,
                                u as int,
                                width as int,
                                v as int,
                                height as int,
                            );
                        }
                        // Clear the merged rectangle.
                        let mut dv: usize = 0;
                        while dv < height
                            invariant
                                u < u_sz,
                                v < v_sz,
                                u_sz == u_size(face),
                                v_sz == v_size(face),
                                1 <= width,
                                u + width <= u_sz,
                                1 <= height,
                                v + height <= v_sz,
                                dv <= height,
                                mask@.len() == u_sz * v_sz,
                                forall|j: int|
                                    0 <= j < u_sz * v_sz ==> #[trigger] mask@[j] == (if u <= j % (
                                    u_sz as int) < u + width && v <= j / (u_sz as int) < v + dv {
                                        None::<Block>
                                    } else {
                                        m0[j]
                                    }),
                            decreases height - dv,
                        {
                            let mut du: usize = 0;
                            while du < width
                                invariant
                                    u < u_sz,
                                    v < v_sz,
                                    u_sz == u_size(face),
                                    v_sz == v_size(face),
                                    1 <= width,
                                    u + width <= u_sz,
                                    1 <= height,
                                    v + height <= v_sz,
                                    dv < height,
                                    du <= width,
                                    mask@.len() == u_sz * v_sz,
                                    forall|j: int|
                                        0 <= j < u_sz * v_sz ==> #[trigger] mask@[j] == (if (u <= j
                                            % (u_sz as int) < u + width && v <= j / (u_sz as int)
                                            < v + dv) || (u <= j % (u_sz as int) < u + du && j / (
                                        u_sz as int) == v + dv) {
                                            None::<Block>
                                        } else {
                                            m0[j]
                                        }),
                                decreases width - du,
                            {
                                let cidx = u + du + (v + dv) * u_sz;
                                proof {
                                    assert(cidx < u_sz * v_sz) by (nonlinear_arith)
                                        requires
                                            u + du < u_sz && v + dv < v_sz && cidx == u + du + (v
                                                + dv) * u_sz,
                                    ;
                                    assert(cidx as int % u_sz as int == u + du && cidx as int / (
                                    u_sz as int) == v + dv) by (nonlinear_arith)
                                        requires
                                            u + du < u_sz && v + dv < v_sz && u_sz >= 1 && cidx
                                                == u + du + (v + dv) * u_sz,
                                    ;
                                }
                                mask.set(cidx, None);
                                du += 1;
                            }
                            dv += 1;
                        }
                        proof {
                            assert(mask@ =~= clear_rect(
                                m0,
                                u_sz as int,
                                u as int,
                                v as int,
                                width as int,
                                height as int,
                            ));
                        }
                        // Emit one quad for the merged rectangle.
                        let ghost q = Quad {
                            u: u as int,
                            v: v as int,
                            w: width as int,
                            h: height as int,
                            block,
                        };
                        let ghost rest = merge_quads(
                            mask@,
                            u_sz as int,
                            v_sz as int,
                            u as int + width as int,
                            v as int,
                        );
                        proof {
                            assert(merge_quads(m0, u_sz as int, v_sz as int, u as int, v as int)
                                =~= seq![q] + rest);
                            lemma_emit_quads_len(mesh@, face, ox, oz, d as int, seq![q] + rest);
                            assert((seq![q] + rest).first() == q);
                            assert((seq![q] + rest).drop_first() =~= rest);
                        }
                        self.add_greedy_quad(mesh, d, u, v, width, height, face, block);
                        u += width;
                    },
                }
            }
            proof {
                assert(merge_quads(mask@, u_sz as int, v_sz as int, u as int, v as int)
                    == merge_quads(mask@, u_sz as int, v_sz as int, 0, v as int + 1));
            }
            v += 1;
        }
        proof {
            assert(mesh@ == target);
        }
    }

    /// Emits the four vertices and six indices of one merged rectangle.
    fn add_greedy_quad(
        &self,
        mesh: &mut ChunkMesh,
        d: usize,
        u: usize,
        v: usize,
        width: usize,
        height: usize,
        face: Face,
        block: Block,
    )
        requires
            self.wf(),
            d < d_size(face),
            u < u_size(face),
            v < v_size(face),
            1 <= width,
            u + width <= u_size(face),
            1 <= height,
            v + height <= v_size(face),
            old(mesh)@.verts.len() + 4 <= 0x7fffffff,
        ensures
            final(mesh)@ == emit_quad(
                old(mesh)@,
                face,
                self.spec_world_offset().0 as int,
                self.spec_world_offset().1 as int,
                d as int,
                Quad { u: u as int, v: v as int, w: width as int, h: height as int, block },
            ),
    {
        let ghost ox = self.spec_world_offset().0 as int;
        let ghost oz = self.spec_world_offset().1 as int;
        let ghost q = Quad { u: u as int, v: v as int, w: width as int, h: height as int, block };
        let base_idx = mesh.vertices.len() as u32;
        let normal = face.normal();
        let color = block.color();
        let (atlas_col, atlas_row) = TextureAtlas::block_atlas_position(block);
        let atlas_uv = [atlas_col, atlas_row];
        let positive = is_positive(face);
        let d_off = if positive {
            d + 1
        } else {
            d
        };
        let c0 = self.corner_vertex(face, d_off, u, v, 0, 0, normal, color, atlas_uv);
        let c1 = self.corner_vertex(face, d_off, u, v, width, 0, normal, color, atlas_uv);
        let c2 = self.corner_vertex(face, d_off, u, v, width, height, normal, color, atlas_uv);
        let c3 = self.corner_vertex(face, d_off, u, v, 0, height, normal, color, atlas_uv);
        if positive {
            mesh.vertices.push(c0);
            mesh.vertices.push(c1);
            mesh.vertices.push(c2);
            mesh.vertices.push(c3);
        } else {
            mesh.vertices.push(c0);
            mesh.vertices.push(c3);
            mesh.vertices.push(c2);
            mesh.vertices.push(c1);
        }
        proof {
            assert(c0 == quad_vertex(face, ox, oz, d as int, q, 0));
            if positive {
                assert(c1 == quad_vertex(face, ox, oz, d as int, q, 1));
                assert(c2 == quad_vertex(face, ox, oz, d as int, q, 2));
                assert(c3 == quad_vertex(face, ox, oz, d as int, q, 3));
            } else {
                assert(c3 == quad_vertex(face, ox, oz, d as int, q, 1));
                assert(c2 == quad_vertex(face, ox, oz, d as int, q, 2));
                assert(c1 == quad_vertex(face, ox, oz, d as int, q, 3));
            }
            assert(mesh.vertices@ =~= old(mesh)@.verts + quad_verts(face, ox, oz, d as int, q));
        }
        match face {
            Face::PosZ | Face::NegZ => {
                mesh.indices.push(base_idx);
                mesh.indices.push(base_idx + 1);
                mesh.indices.push(base_idx + 2);
                mesh.indices.push(base_idx);
                mesh.indices.push(base_idx + 2);
                mesh.indices.push(base_idx + 3);
            },
            _ => {
                mesh.indices.push(base_idx);
                mesh.indices.push(base_idx + 2);
                mesh.indices.push(base_idx + 1);
                mesh.indices.push(base_idx);
                mesh.indices.push(base_idx + 3);
                mesh.indices.push(base_idx + 2);
            },
        }
        proof {
            assert(mesh.indices@ =~= old(mesh)@.inds + quad_inds(
                face,
                old(mesh)@.verts.len() as int,
            ));
            assert(mesh@ =~= emit_quad(old(mesh)@, face, ox, oz, d as int, q));
        }
    }

    /// Builds the vertex at one corner of a quad.
    #[allow(clippy::too_many_arguments)]
    fn corner_vertex(
        &self,
        face: Face,
        d_off: usize,
        u: usize,
        v: usize,
        du: usize,
        dv: usize,
        normal: [i32; 3],
        color: [u8; 3],
        atlas_uv: [u32; 2],
    ) -> (r: ChunkVertex)
        requires
            self.wf(),
            d_off <= 256,
            face == Face::PosY || face == Face::NegY || d_off <= 16,
            u + du <= 16,
            v + dv <= 256,
            face == Face::PosY || face == Face::NegY ==> v + dv <= 16,
        ensures
            r == (ChunkVertex {
                position: {
                    let (cx, cy, cz) = cell_coords(
                        face,
                        d_off as int,
                        u as int + du as int,
                        v as int + dv as int,
                    );
                    [
                        (cx + self.spec_world_offset().0 as int) as i32,
                        cy as i32,
                        (cz + self.spec_world_offset().1 as int) as i32,
                    ]
                },
                normal,
                color,
                ao: 1u8,
                local_uv: [du as u32, dv as u32],
                atlas_uv,
            }),
    {
        let (cx, cy, cz) = cell_xyz(face, d_off, u + du, v + dv);
        let px = self.world_offset.0 + cx as i32;
        let py = cy as i32;
        let pz = self.world_offset.1 + cz as i32;
        ChunkVertex {
            position: [px, py, pz],
            normal,
            color,
            ao: 1,
            local_uv: [du as u32, dv as u32],
            atlas_uv,
        }
    }
}

/// Whether a face looks along the positive direction of its axis.
fn is_positive(face: Face) -> (r: bool)
    ensures
        r == face_positive(face),
{
    matches!(face, Face::PosX | Face::PosY | Face::PosZ)
}

/// The slice count and mask extents of a face direction.
fn face_sizes(face: Face) -> (r: (usize, usize, usize))
    ensures
        r.0 == d_size(face),
        r.1 == u_size(face),
        r.2 == v_size(face),
{
    match face {
        Face::PosY | Face::NegY => (256, 16, 16),
        _ => (16, 16, 256),
    }
}

/// The chunk coordinates of a cell addressed by depth and in-plane
/// coordinates.
fn cell_xyz(face: Face, d: usize, u: usize, v: usize) -> (r: (usize, usize, usize))
    ensures
        (r.0 as int, r.1 as int, r.2 as int) == cell_coords(face, d as int, u as int, v as int),
{
    match face {
        Face::PosY | Face::NegY => (u, d, v),
        Face::PosX | Face::NegX => (d, v, u),
        Face::PosZ | Face::NegZ => (u, v, d),
    }
}

/// A scan that found `n` matching cells and then a mismatch or the mask
/// edge measured exactly the run of the block type.
proof fn lemma_run_width_eq(m: Seq<Option<Block>>, us: int, b: Block, u: int, v: int, n: int)
    requires
        0 <= u,
        0 <= n,
        u + n <= us,
        forall|k: int| u <= k < u + n ==> #[trigger] m[v * us + k] == Some(b),
        u + n == us || m[v * us + (u + n)] != Some(b),
    ensures
        run_width(m, us, b, u, v) == n,
    decreases n,
{
    if n == 0 {
    } else {
        assert(m[v * us + u] == Some(b));
        lemma_run_width_eq(m, us, b, u + 1, v, n - 1);
    }
}

/// A scan that found `n` matching rows and then a mismatching row or the
/// mask edge measured exactly the run of whole matching rows.
proof fn lemma_run_height_eq(
    m: Seq<Option<Block>>,
    us: int,
    vs: int,
    b: Block,
    u: int,
    w: int,
    v: int,
    n: int,
)
    requires
        0 <= v,
        0 <= n,
        v + n <= vs,
        forall|r: int| v <= r < v + n ==> row_matches(m, us, b, u, w, r),
        v + n == vs || !row_matches(m, us, b, u, w, v + n),
    ensures
        run_height(m, us, vs, b, u, w, v) == n,
    decreases n,
{
    if n == 0 {
    } else {
        assert(row_matches(m, us, b, u, w, v));
        lemma_run_height_eq(m, us, vs, b, u, w, v + 1, n - 1);
    }
}


// ---------------------------------------------------------------------------
// Laws of the generated mesh.
// ---------------------------------------------------------------------------

/// The signed volume a triangle's first two edges span with the normal
/// stored on its first vertex: the cross product of the edges, dotted with
/// that normal.
pub open spec fn tri_cross_dot(v0: ChunkVertex, v1: ChunkVertex, v2: ChunkVertex) -> int {
    let e1x = v1.position[0] - v0.position[0];
    let e1y = v1.position[1] - v0.position[1];
    let e1z = v1.position[2] - v0.position[2];
    let e2x = v2.position[0] - v0.position[0];
    let e2y = v2.position[1] - v0.position[1];
    let e2z = v2.position[2] - v0.position[2];
    let cx = e1y * e2z - e1z * e2y;
    let cy = e1z * e2x - e1x * e2z;
    let cz = e1x * e2y - e1y * e2x;
    cx * v0.normal[0] + cy * v0.normal[1] + cz * v0.normal[2]
}

/// Whether one triangle of a mesh winds outward: the cross product of its
/// first two edges points along its stored normal.
pub open spec fn tri_winding_ok(md: MeshData, t: int) -> bool {
    tri_cross_dot(
        md.verts[md.inds[3 * t] as int],
        md.verts[md.inds[3 * t + 1] as int],
        md.verts[md.inds[3 * t + 2] as int],
    ) > 0
}

/// A well-formed mesh: whole triangles, every index in range, and every
/// triangle wound outward.
pub open spec fn mesh_wf(md: MeshData) -> bool {
    &&& md.inds.len() % 3 == 0
    &&& forall|i: int| 0 <= i < md.inds.len() ==> (#[trigger] md.inds[i]) < md.verts.len()
    &&& forall|t: int| 0 <= t < md.inds.len() / 3 ==> #[trigger] tri_winding_ok(md, t)
}

/// A quad that lies inside the mask extents of its face.
pub open spec fn quad_in_range(f: Face, d: int, q: Quad) -> bool {
    &&& 0 <= d < d_size(f)
    &&& 0 <= q.u
    &&& 1 <= q.w
    &&& q.u + q.w <= u_size(f)
    &&& 0 <= q.v
    &&& 1 <= q.h
    &&& q.v + q.h <= v_size(f)
}

/// A world origin small enough that every emitted coordinate stays inside
/// machine range.
pub open spec fn origin_in_range(ox: int, oz: int) -> bool {
    &&& -2147483616 <= ox <= 2147483616
    &&& -2147483616 <= oz <= 2147483616
}

/// Every rectangle greedy merging finds lies inside the mask extents.
pub proof fn lemma_merge_quads_range(m: Seq<Option<Block>>, us: int, vs: int, u: int, v: int)
    requires
        us >= 1,
        0 <= u <= us,
        0 <= v,
    ensures
        forall|i: int|
            0 <= i < merge_quads(m, us, vs, u, v).len() ==> {
                let q = #[trigger] merge_quads(m, us, vs, u, v)[i];
                &&& 0 <= q.u
                &&& 1 <= q.w
                &&& q.u + q.w <= us
                &&& 0 <= q.v
                &&& 1 <= q.h
                &&& q.v + q.h <= vs
            },
    decreases vs - v, us - u,
{
    if v < vs {
        if u >= us {
            lemma_merge_quads_range(m, us, vs, 0, v + 1);
        } else {
            match m[v * us + u] {
                None => {
                    lemma_merge_quads_range(m, us, vs, u + 1, v);
                },
                Some(b) => {
                    lemma_run_width_bounds(m, us, b, u, v);
                    let w = run_width(m, us, b, u, v);
                    let h = run_height(m, us, vs, b, u, w, v);
                    lemma_run_height_bounds(m, us, vs, b, u, w, v);
                    lemma_merge_quads_range(clear_rect(m, us, u, v, w, h), us, vs, u + w, v);
                    assert(run_height(m, us, vs, b, u, w, v) >= 1);
                },
            }
        }
    }
}

/// Appending one in-range quad to a well-formed mesh keeps it well formed:
/// both new triangles wind outward because their cross products equal the
/// quad's positive area along the face normal.
proof fn lemma_emit_quad_wf(md: MeshData, f: Face, ox: int, oz: int, d: int, q: Quad)
    requires
        mesh_wf(md),
        quad_in_range(f, d, q),
        origin_in_range(ox, oz),
        md.verts.len() + 4 <= 0x7fffffff,
    ensures
        mesh_wf(emit_quad(md, f, ox, oz, d, q)),
{
    let md2 = emit_quad(md, f, ox, oz, d, q);
    let base = md.verts.len() as int;
    let n = md.inds.len() as int;
    assert(md2.inds.len() == n + 6);
    assert(md2.verts.len() == base + 4);
    let qv0 = quad_vertex(f, ox, oz, d, q, 0);
    let qv1 = quad_vertex(f, ox, oz, d, q, 1);
    let qv2 = quad_vertex(f, ox, oz, d, q, 2);
    let qv3 = quad_vertex(f, ox, oz, d, q, 3);
    assert(md2.verts[base] == qv0);
    assert(md2.verts[base + 1] == qv1);
    assert(md2.verts[base + 2] == qv2);
    assert(md2.verts[base + 3] == qv3);
    assert((match f {
        Face::PosZ | Face::NegZ => tri_cross_dot(qv0, qv1, qv2) == q.w * q.h && tri_cross_dot(
            qv0,
            qv2,
            qv3,
        ) == q.w * q.h,
        _ => tri_cross_dot(qv0, qv2, qv1) == q.w * q.h && tri_cross_dot(qv0, qv3, qv2) == q.w
            * q.h,
    })) by {
        lemma_quad_cross(f, ox, oz, d, q);
    }
    assert(q.w * q.h >= 1) by (nonlinear_arith)
        requires q.w >= 1 && q.h >= 1;
    assert forall|t: int| 0 <= t < md2.inds.len() / 3 implies #[trigger] tri_winding_ok(md2, t) by {
        if t < n / 3 {
            assert(md2.inds[3 * t] == md.inds[3 * t]);
            assert(md2.inds[3 * t + 1] == md.inds[3 * t + 1]);
            assert(md2.inds[3 * t + 2] == md.inds[3 * t + 2]);
            assert(tri_winding_ok(md, t));
            assert(md2.verts[md.inds[3 * t] as int] == md.verts[md.inds[3 * t] as int]);
            assert(md2.verts[md.inds[3 * t + 1] as int] == md.verts[md.inds[3 * t + 1] as int]);
            assert(md2.verts[md.inds[3 * t + 2] as int] == md.verts[md.inds[3 * t + 2] as int]);
        } else {
            assert(t == n / 3 || t == n / 3 + 1);
            assert(3 * (n / 3) == n);
            match f {
                Face::PosZ | Face::NegZ => {
                    if t == n / 3 {
                        assert(md2.inds[3 * t] == base as u32);
                        assert(md2.inds[3 * t + 1] == (base + 1) as u32);
                        assert(md2.inds[3 * t + 2] == (base + 2) as u32);
                    } else {
                        assert(md2.inds[3 * t] == base as u32);
                        assert(md2.inds[3 * t + 1] == (base + 2) as u32);
                        assert(md2.inds[3 * t + 2] == (base + 3) as u32);
                    }
                },
                _ => {
                    if t == n / 3 {
                        assert(md2.inds[3 * t] == base as u32);
                        assert(md2.inds[3 * t + 1] == (base + 2) as u32);
                        assert(md2.inds[3 * t + 2] == (base + 1) as u32);
                    } else {
                        assert(md2.inds[3 * t] == base as u32);
                        assert(md2.inds[3 * t + 1] == (base + 3) as u32);
                        assert(md2.inds[3 * t + 2] == (base + 2) as u32);
                    }
                },
            }
        }
    }
}

/// The cross products of both triangles of a quad, dotted with the face
/// normal, equal the quad's area exactly when the triangle order matches
/// the face: the X and Y faces use one order, the Z faces the opposite.
#[verifier::rlimit(60)]
proof fn lemma_quad_cross(f: Face, ox: int, oz: int, d: int, q: Quad)
    requires
        quad_in_range(f, d, q),
        origin_in_range(ox, oz),
    ensures
        tri_cross_dot(
            quad_vertex(f, ox, oz, d, q, 0),
            quad_vertex(f, ox, oz, d, q, 2),
            quad_vertex(f, ox, oz, d, q, 1),
        ) == (match f {
            Face::PosZ | Face::NegZ => -(q.w * q.h),
            _ => q.w * q.h,
        }),
        tri_cross_dot(
            quad_vertex(f, ox, oz, d, q, 0),
            quad_vertex(f, ox, oz, d, q, 3),
            quad_vertex(f, ox, oz, d, q, 2),
        ) == (match f {
            Face::PosZ | Face::NegZ => -(q.w * q.h),
            _ => q.w * q.h,
        }),
        tri_cross_dot(
            quad_vertex(f, ox, oz, d, q, 0),
            quad_vertex(f, ox, oz, d, q, 1),
            quad_vertex(f, ox, oz, d, q, 2),
        ) == (match f {
            Face::PosZ | Face::NegZ => q.w * q.h,
            _ => -(q.w * q.h),
        }),
        tri_cross_dot(
            quad_vertex(f, ox, oz, d, q, 0),
            quad_vertex(f, ox, oz, d, q, 2),
            quad_vertex(f, ox, oz, d, q, 3),
        ) == (match f {
            Face::PosZ | Face::NegZ => q.w * q.h,
            _ => -(q.w * q.h),
        }),
{
    let qv0 = quad_vertex(f, ox, oz, d, q, 0);
    let qv1 = quad_vertex(f, ox, oz, d, q, 1);
    let qv2 = quad_vertex(f, ox, oz, d, q, 2);
    let qv3 = quad_vertex(f, ox, oz, d, q, 3);
    assert(0 <= q.u + q.w <= 16);
    assert(0 <= q.v + q.h <= 256);
    assert(0 <= d + 1 <= 256);
    assert(q.h * q.w == q.w * q.h) by (nonlinear_arith);
    match f {
        Face::PosY => {
            assert(qv0.position[0] as int == q.u + ox && qv0.position[1] as int == d + 1
                && qv0.position[2] as int == q.v + oz);
            assert(qv1.position[0] as int == q.u + q.w + ox && qv1.position[1] as int == d + 1
                && qv1.position[2] as int == q.v + oz);
            assert(qv2.position[0] as int == q.u + q.w + ox && qv2.position[1] as int == d + 1
                && qv2.position[2] as int == q.v + q.h + oz);
            assert(qv3.position[0] as int == q.u + ox && qv3.position[1] as int == d + 1
                && qv3.position[2] as int == q.v + q.h + oz);
            assert(qv0.normal[0] as int == 0 && qv0.normal[1] as int == 1 && qv0.normal[2] as int
                == 0);
            assert(tri_cross_dot(qv0, qv2, qv1) == q.h * q.w);
            assert(tri_cross_dot(qv0, qv3, qv2) == q.h * q.w);
            assert(tri_cross_dot(qv0, qv1, qv2) == -(q.w * q.h));
            assert(tri_cross_dot(qv0, qv2, qv3) == -(q.w * q.h));
        },
        Face::NegY => {
            assert(qv0.position[0] as int == q.u + ox && qv0.position[1] as int == d
                && qv0.position[2] as int == q.v + oz);
            assert(qv1.position[0] as int == q.u + ox && qv1.position[1] as int == d
                && qv1.position[2] as int == q.v + q.h + oz);
            assert(qv2.position[0] as int == q.u + q.w + ox && qv2.position[1] as int == d
                && qv2.position[2] as int == q.v + q.h + oz);
            assert(qv3.position[0] as int == q.u + q.w + ox && qv3.position[1] as int == d
                && qv3.position[2] as int == q.v + oz);
            assert(qv0.normal[0] as int == 0 && qv0.normal[1] as int == -1 && qv0.normal[2] as int
                == 0);
            assert(tri_cross_dot(qv0, qv2, qv1) == q.w * q.h);
            assert(tri_cross_dot(qv0, qv3, qv2) == q.w * q.h);
            assert(tri_cross_dot(qv0, qv1, qv2) == -(q.h * q.w));
            assert(tri_cross_dot(qv0, qv2, qv3) == -(q.h * q.w));
        },
        Face::PosX => {
            assert(qv0.position[0] as int == d + 1 + ox && qv0.position[1] as int == q.v
                && qv0.position[2] as int == q.u + oz);
            assert(qv1.position[0] as int == d + 1 + ox && qv1.position[1] as int == q.v
                && qv1.position[2] as int == q.u + q.w + oz);
            assert(qv2.position[0] as int == d + 1 + ox && qv2.position[1] as int == q.v + q.h
                && qv2.position[2] as int == q.u + q.w + oz);
            assert(qv3.position[0] as int == d + 1 + ox && qv3.position[1] as int == q.v + q.h
                && qv3.position[2] as int == q.u + oz);
            assert(qv0.normal[0] as int == 1 && qv0.normal[1] as int == 0 && qv0.normal[2] as int
                == 0);
            assert(tri_cross_dot(qv0, qv2, qv1) == q.h * q.w);
            assert(tri_cross_dot(qv0, qv3, qv2) == q.h * q.w);
            assert(tri_cross_dot(qv0, qv1, qv2) == -(q.w * q.h));
            assert(tri_cross_dot(qv0, qv2, qv3) == -(q.w * q.h));
        },
        Face::NegX => {
            assert(qv0.position[0] as int == d + ox && qv0.position[1] as int == q.v
                && qv0.position[2] as int == q.u + oz);
            assert(qv1.position[0] as int == d + ox && qv1.position[1] as int == q.v + q.h
                && qv1.position[2] as int == q.u + oz);
            assert(qv2.position[0] as int == d + ox && qv2.position[1] as int == q.v + q.h
                && qv2.position[2] as int == q.u + q.w + oz);
            assert(qv3.position[0] as int == d + ox && qv3.position[1] as int == q.v
                && qv3.position[2] as int == q.u + q.w + oz);
            assert(qv0.normal[0] as int == -1 && qv0.normal[1] as int == 0 && qv0.normal[2] as int
                == 0);
            assert(tri_cross_dot(qv0, qv2, qv1) == q.w * q.h);
            assert(tri_cross_dot(qv0, qv3, qv2) == q.w * q.h);
            assert(tri_cross_dot(qv0, qv1, qv2) == -(q.h * q.w));
            assert(tri_cross_dot(qv0, qv2, qv3) == -(q.h * q.w));
        },
        Face::PosZ => {
            assert(qv0.position[0] as int == q.u + ox && qv0.position[1] as int == q.v
                && qv0.position[2] as int == d + 1 + oz);
            assert(qv1.position[0] as int == q.u + q.w + ox && qv1.position[1] as int == q.v
                && qv1.position[2] as int == d + 1 + oz);
            assert(qv2.position[0] as int == q.u + q.w + ox && qv2.position[1] as int == q.v + q.h
                && qv2.position[2] as int == d + 1 + oz);
            assert(qv3.position[0] as int == q.u + ox && qv3.position[1] as int == q.v + q.h
                && qv3.position[2] as int == d + 1 + oz);
            assert(qv0.normal[0] as int == 0 && qv0.normal[1] as int == 0 && qv0.normal[2] as int
                == 1);
            assert(tri_cross_dot(qv0, qv2, qv1) == -(q.h * q.w));
            assert(tri_cross_dot(qv0, qv3, qv2) == -(q.h * q.w));
            assert(tri_cross_dot(qv0, qv1, qv2) == q.w * q.h);
            assert(tri_cross_dot(qv0, qv2, qv3) == q.w * q.h);
        },
        Face::NegZ => {
            assert(qv0.position[0] as int == q.u + ox && qv0.position[1] as int == q.v
                && qv0.position[2] as int == d + oz);
            assert(qv1.position[0] as int == q.u + ox && qv1.position[1] as int == q.v + q.h
                && qv1.position[2] as int == d + oz);
            assert(qv2.position[0] as int == q.u + q.w + ox && qv2.position[1] as int == q.v + q.h
                && qv2.position[2] as int == d + oz);
            assert(qv3.position[0] as int == q.u + q.w + ox && qv3.position[1] as int == q.v
                && qv3.position[2] as int == d + oz);
            assert(qv0.normal[0] as int == 0 && qv0.normal[1] as int == 0 && qv0.normal[2] as int
                == -1);
            assert(tri_cross_dot(qv0, qv2, qv1) == -(q.w * q.h));
            assert(tri_cross_dot(qv0, qv3, qv2) == -(q.w * q.h));
            assert(tri_cross_dot(qv0, qv1, qv2) == q.h * q.w);
            assert(tri_cross_dot(qv0, qv2, qv3) == q.h * q.w);
        },
    }
}


/// Appending in-range quads to a well-formed mesh keeps it well formed.
proof fn lemma_emit_quads_wf(md: MeshData, f: Face, ox: int, oz: int, d: int, qs: Seq<Quad>)
    requires
        mesh_wf(md),
        origin_in_range(ox, oz),
        0 <= d < d_size(f),
        forall|i: int| 0 <= i < qs.len() ==> quad_in_range(f, d, #[trigger] qs[i]),
        md.verts.len() + 4 * qs.len() <= 0x7fffffff,
    ensures
        mesh_wf(emit_quads(md, f, ox, oz, d, qs)),
    decreases qs.len(),
{
    if qs.len() > 0 {
        lemma_emit_quad_wf(md, f, ox, oz, d, qs.first());
        lemma_emit_quads_wf(emit_quad(md, f, ox, oz, d, qs.first()), f, ox, oz, d, qs.drop_first());
    }
}

/// Sweeping the remaining slices of a face keeps a well-formed mesh well
/// formed.
proof fn lemma_emit_slices_wf(md: MeshData, c: Chunk, f: Face, ox: int, oz: int, d: int)
    requires
        mesh_wf(md),
        origin_in_range(ox, oz),
        0 <= d,
        d < d_size(f) ==> md.verts.len() + (d_size(f) - d) * 4 * u_size(f) * v_size(f)
            <= 0x7fffffff,
    ensures
        mesh_wf(emit_slices(md, c, f, ox, oz, d)),
    decreases d_size(f) - d,
{
    if d < d_size(f) {
        let qs = slice_quads(c, f, d);
        lemma_merge_quads_len(mask_seq(c, f, d), u_size(f), v_size(f), 0, 0);
        lemma_merge_quads_range(mask_seq(c, f, d), u_size(f), v_size(f), 0, 0);
        assert(qs.len() <= v_size(f) * 16);
        assert((d_size(f) - d) * 4 * u_size(f) * v_size(f) >= 4 * (v_size(f) * 16) && (d_size(f)
            - d) * 4 * u_size(f) * v_size(f) == 4 * (v_size(f) * 16) + (d_size(f) - d - 1) * 4
            * u_size(f) * v_size(f)) by (nonlinear_arith)
            requires d < d_size(f) && u_size(f) == 16 && v_size(f) >= 1;
        lemma_emit_quads_wf(md, f, ox, oz, d, qs);
        lemma_emit_quads_len(md, f, ox, oz, d, qs);
        lemma_emit_slices_wf(emit_quads(md, f, ox, oz, d, qs), c, f, ox, oz, d + 1);
    }
}

/// One whole face sweep keeps a well-formed mesh well formed.
proof fn lemma_emit_face_wf(md: MeshData, c: Chunk, f: Face, ox: int, oz: int)
    requires
        mesh_wf(md),
        origin_in_range(ox, oz),
        md.verts.len() + 262144 <= 0x7fffffff,
    ensures
        mesh_wf(emit_face(md, c, f, ox, oz)),
{
    assert(d_size(f) * 4 * u_size(f) * v_size(f) == 262144) by {
        match f {
            Face::PosY | Face::NegY => {
                assert(d_size(f) == 256 && u_size(f) == 16 && v_size(f) == 16);
                assert(256int * 4 * 16 * 16 == 262144) by (nonlinear_arith);
            },
            _ => {
                assert(d_size(f) == 16 && u_size(f) == 16 && v_size(f) == 256);
                assert(16int * 4 * 16 * 256 == 262144) by (nonlinear_arith);
            },
        }
    }
    lemma_emit_slices_wf(md, c, f, ox, oz, 0);
}

/// Winding invariant: every triangle of the mesh generated for a chunk
/// faces outward: the cross product of its first two edges, dotted with the
/// normal stored on its vertices, is strictly positive.
#[verifier::rlimit(100)]
pub proof fn lemma_mesh_model_winding(c: Chunk)
    requires
        -134217726 <= c.spec_position().x <= 134217726,
        -134217726 <= c.spec_position().z <= 134217726,
    ensures
        mesh_wf(mesh_model(c)),
{
    let (ox, oz) = chunk_origin(c);
    let md0 = MeshData { verts: Seq::empty(), inds: Seq::empty() };
    let md1 = emit_face(md0, c, Face::PosY, ox, oz);
    let md2 = emit_face(md1, c, Face::NegY, ox, oz);
    let md3 = emit_face(md2, c, Face::PosX, ox, oz);
    let md4 = emit_face(md3, c, Face::NegX, ox, oz);
    let md5 = emit_face(md4, c, Face::PosZ, ox, oz);
    lemma_emit_face_len(md0, c, Face::PosY, ox, oz);
    lemma_emit_face_len(md1, c, Face::NegY, ox, oz);
    lemma_emit_face_len(md2, c, Face::PosX, ox, oz);
    lemma_emit_face_len(md3, c, Face::NegX, ox, oz);
    lemma_emit_face_len(md4, c, Face::PosZ, ox, oz);
    assert(md1.verts.len() <= 262144);
    assert(md2.verts.len() <= 2 * 262144);
    assert(md3.verts.len() <= 3 * 262144);
    assert(md4.verts.len() <= 4 * 262144);
    assert(md5.verts.len() <= 5 * 262144);
    lemma_emit_face_wf(md0, c, Face::PosY, ox, oz);
    lemma_emit_face_wf(md1, c, Face::NegY, ox, oz);
    lemma_emit_face_wf(md2, c, Face::PosX, ox, oz);
    lemma_emit_face_wf(md3, c, Face::NegX, ox, oz);
    lemma_emit_face_wf(md4, c, Face::PosZ, ox, oz);
    lemma_emit_face_wf(md5, c, Face::NegZ, ox, oz);
}

/// Whether every block of a chunk is air.
pub open spec fn chunk_all_air(c: Chunk) -> bool {
    forall|x: int, y: int, z: int|
        0 <= x < 16 && 0 <= y < 256 && 0 <= z < 16 ==> #[trigger] c.spec_block_at(x, y, z)
            == Block::Air
}

/// Greedy merging of a mask with no visible cell finds no rectangle.
proof fn lemma_merge_all_none(m: Seq<Option<Block>>, us: int, vs: int, u: int, v: int)
    requires
        us >= 1,
        0 <= u <= us,
        0 <= v,
        m.len() == us * vs,
        forall|i: int| 0 <= i < m.len() ==> (#[trigger] m[i]) is None,
    ensures
        merge_quads(m, us, vs, u, v).len() == 0,
    decreases vs - v, us - u,
{
    if v < vs {
        if u >= us {
            lemma_merge_all_none(m, us, vs, 0, v + 1);
        } else {
            assert(0 <= v * us + u < us * vs) by (nonlinear_arith)
                requires 0 <= u < us && 0 <= v < vs;
            assert(m[v * us + u] is None);
            lemma_merge_all_none(m, us, vs, u + 1, v);
        }
    }
}

/// Emptiness: a chunk of nothing but air produces a mesh with no vertices
/// and no indices.
pub proof fn lemma_all_air_empty_mesh(c: Chunk)
    requires
        chunk_all_air(c),
    ensures
        mesh_model(c).verts.len() == 0,
        mesh_model(c).inds.len() == 0,
{
    let (ox, oz) = chunk_origin(c);
    let md0 = MeshData { verts: Seq::empty(), inds: Seq::empty() };
    lemma_emit_face_all_air(md0, c, Face::PosY, ox, oz, 0);
    lemma_emit_face_all_air(md0, c, Face::NegY, ox, oz, 0);
    lemma_emit_face_all_air(md0, c, Face::PosX, ox, oz, 0);
    lemma_emit_face_all_air(md0, c, Face::NegX, ox, oz, 0);
    lemma_emit_face_all_air(md0, c, Face::PosZ, ox, oz, 0);
    lemma_emit_face_all_air(md0, c, Face::NegZ, ox, oz, 0);
}

/// Sweeping any face of an all-air chunk adds nothing to a mesh.
proof fn lemma_emit_face_all_air(md: MeshData, c: Chunk, f: Face, ox: int, oz: int, d: int)
    requires
        chunk_all_air(c),
        0 <= d,
    ensures
        emit_slices(md, c, f, ox, oz, d) == md,
    decreases d_size(f) - d,
{
    if d < d_size(f) {
        let m = mask_seq(c, f, d);
        assert forall|i: int| 0 <= i < m.len() implies (#[trigger] m[i]) is None by {
            let u = i % u_size(f);
            let v = i / u_size(f);
            assert(0 <= u < u_size(f) && 0 <= v < v_size(f)) by (nonlinear_arith)
                requires 0 <= i < u_size(f) * v_size(f) && u == i % u_size(f) && v == i / u_size(f)
                    && u_size(f) >= 1;
            let (x, y, z) = cell_coords(f, d, u, v);
            assert(c.spec_block_at(x, y, z) == Block::Air);
        }
        lemma_merge_all_none(m, u_size(f), v_size(f), 0, 0);
        assert(slice_quads(c, f, d).len() == 0);
        assert(emit_quads(md, f, ox, oz, d, slice_quads(c, f, d)) == md);
        lemma_emit_face_all_air(md, c, f, ox, oz, d + 1);
    }
}

/// Idempotence: meshing the same unmodified chunk twice produces identical
/// meshes, because the mesh is a function of the chunk contents alone.
pub proof fn lemma_meshing_deterministic(c: Chunk, m1: MeshData, m2: MeshData)
    requires
        m1 == mesh_model(c),
        m2 == mesh_model(c),
    ensures
        m1 == m2,
        m1.verts.len() == m2.verts.len(),
        m1.inds.len() == m2.inds.len(),
{
}


// ---------------------------------------------------------------------------
// The unit test cube.
// ---------------------------------------------------------------------------

/// The corner positions of one face of a unit cube at the origin, in the
/// emission order of the cube mesh.
pub open spec fn cube_corner(f: Face, i: int) -> [i32; 3] {
    match f {
        Face::PosX => (if i == 0 {
            [1i32, 0i32, 0i32]
        } else if i == 1 {
            [1i32, 0i32, 1i32]
        } else if i == 2 {
            [1i32, 1i32, 1i32]
        } else {
            [1i32, 1i32, 0i32]
        }),
        Face::NegX => (if i == 0 {
            [0i32, 0i32, 0i32]
        } else if i == 1 {
            [0i32, 1i32, 0i32]
        } else if i == 2 {
            [0i32, 1i32, 1i32]
        } else {
            [0i32, 0i32, 1i32]
        }),
        Face::PosY => (if i == 0 {
            [0i32, 1i32, 0i32]
        } else if i == 1 {
            [1i32, 1i32, 0i32]
        } else if i == 2 {
            [1i32, 1i32, 1i32]
        } else {
            [0i32, 1i32, 1i32]
        }),
        Face::NegY => (if i == 0 {
            [0i32, 0i32, 0i32]
        } else if i == 1 {
            [0i32, 0i32, 1i32]
        } else if i == 2 {
            [1i32, 0i32, 1i32]
        } else {
            [1i32, 0i32, 0i32]
        }),
        Face::PosZ => (if i == 0 {
            [0i32, 0i32, 1i32]
        } else if i == 1 {
            [1i32, 0i32, 1i32]
        } else if i == 2 {
            [1i32, 1i32, 1i32]
        } else {
            [0i32, 1i32, 1i32]
        }),
        Face::NegZ => (if i == 0 {
            [0i32, 0i32, 0i32]
        } else if i == 1 {
            [0i32, 1i32, 0i32]
        } else if i == 2 {
            [1i32, 1i32, 0i32]
        } else {
            [1i32, 0i32, 0i32]
        }),
    }
}

/// The tiling coordinates of one cube face corner, in emission order.
pub open spec fn cube_uv(i: int) -> [u32; 2] {
    if i == 0 {
        [0u32, 0u32]
    } else if i == 1 {
        [1u32, 0u32]
    } else if i == 2 {
        [1u32, 1u32]
    } else {
        [0u32, 1u32]
    }
}

/// One vertex of the unit test cube.
pub open spec fn cube_vertex(f: Face, b: Block, i: int) -> ChunkVertex {
    let pos = TextureAtlas::spec_block_atlas_position(b);
    ChunkVertex {
        position: cube_corner(f, i),
        normal: f.spec_normal(),
        color: b.spec_color(),
        ao: 1,
        local_uv: cube_uv(i),
        atlas_uv: [pos.0, pos.1],
    }
}

/// A mesh with one face of the unit test cube appended.
pub open spec fn cube_emit(md: MeshData, f: Face, b: Block) -> MeshData {
    MeshData {
        verts: md.verts + Seq::new(4, |i: int| cube_vertex(f, b, i)),
        inds: md.inds + quad_inds(f, md.verts.len() as int),
    }
}

/// The mesh of a unit test cube: one quad per face, with the same corner
/// layout and winding as the greedy mesh generator.
pub open spec fn test_cube_model(b: Block) -> MeshData {
    let md = MeshData { verts: Seq::empty(), inds: Seq::empty() };
    let md = cube_emit(md, Face::PosX, b);
    let md = cube_emit(md, Face::NegX, b);
    let md = cube_emit(md, Face::PosY, b);
    let md = cube_emit(md, Face::NegY, b);
    let md = cube_emit(md, Face::PosZ, b);
    cube_emit(md, Face::NegZ, b)
}

/// Generates a simple test mesh: a single block at the origin, with the
/// vertex layout and winding of the greedy mesh generator.
pub fn generate_test_cube(block: Block) -> (r: ChunkMesh)
    ensures
        r@ == test_cube_model(block),
        r@.verts.len() == 24,
        r@.inds.len() == 36,
{
    let mut mesh = ChunkMesh::new();
    proof {
        assert(mesh@ =~= (MeshData { verts: Seq::empty(), inds: Seq::empty() }));
    }
    push_cube_face(&mut mesh, Face::PosX, block);
    push_cube_face(&mut mesh, Face::NegX, block);
    push_cube_face(&mut mesh, Face::PosY, block);
    push_cube_face(&mut mesh, Face::NegY, block);
    push_cube_face(&mut mesh, Face::PosZ, block);
    push_cube_face(&mut mesh, Face::NegZ, block);
    mesh
}

/// Emits the four vertices and six indices of one unit cube face.
fn push_cube_face(mesh: &mut ChunkMesh, face: Face, block: Block)
    requires
        old(mesh)@.verts.len() <= 24,
    ensures
        final(mesh)@ == cube_emit(old(mesh)@, face, block),
{
    let base_idx = mesh.vertices.len() as u32;
    let normal = face.normal();
    let color = block.color();
    let (atlas_col, atlas_row) = TextureAtlas::block_atlas_position(block);
    let atlas_uv = [atlas_col, atlas_row];
    let corners = cube_face_corners(face);
    mesh.vertices.push(ChunkVertex::new(corners.0, normal, color, 1, [0, 0], atlas_uv));
    mesh.vertices.push(ChunkVertex::new(corners.1, normal, color, 1, [1, 0], atlas_uv));
    mesh.vertices.push(ChunkVertex::new(corners.2, normal, color, 1, [1, 1], atlas_uv));
    mesh.vertices.push(ChunkVertex::new(corners.3, normal, color, 1, [0, 1], atlas_uv));
    match face {
        Face::PosZ | Face::NegZ => {
            mesh.indices.push(base_idx);
            mesh.indices.push(base_idx + 1);
            mesh.indices.push(base_idx + 2);
            mesh.indices.push(base_idx);
            mesh.indices.push(base_idx + 2);
            mesh.indices.push(base_idx + 3);
        },
        _ => {
            mesh.indices.push(base_idx);
            mesh.indices.push(base_idx + 2);
            mesh.indices.push(base_idx + 1);
            mesh.indices.push(base_idx);
            mesh.indices.push(base_idx + 3);
            mesh.indices.push(base_idx + 2);
        },
    }
    proof {
        assert(mesh.vertices@ =~= old(mesh)@.verts + Seq::new(4, |i: int| cube_vertex(face, block, i)));
        assert(mesh.indices@ =~= old(mesh)@.inds + quad_inds(face, old(mesh)@.verts.len() as int));
        assert(mesh@ =~= cube_emit(old(mesh)@, face, block));
    }
}

/// The corner positions of one unit cube face, in emission order.
fn cube_face_corners(face: Face) -> (r: ([i32; 3], [i32; 3], [i32; 3], [i32; 3]))
    ensures
        r.0 == cube_corner(face, 0),
        r.1 == cube_corner(face, 1),
        r.2 == cube_corner(face, 2),
        r.3 == cube_corner(face, 3),
{
    match face {
        Face::PosX => ([1, 0, 0], [1, 0, 1], [1, 1, 1], [1, 1, 0]),
        Face::NegX => ([0, 0, 0], [0, 1, 0], [0, 1, 1], [0, 0, 1]),
        Face::PosY => ([0, 1, 0], [1, 1, 0], [1, 1, 1], [0, 1, 1]),
        Face::NegY => ([0, 0, 0], [0, 0, 1], [1, 0, 1], [1, 0, 0]),
        Face::PosZ => ([0, 0, 1], [1, 0, 1], [1, 1, 1], [0, 1, 1]),
        Face::NegZ => ([0, 0, 0], [0, 1, 0], [1, 1, 0], [1, 0, 0]),
    }
}


// ---------------------------------------------------------------------------
// The merging law.
// ---------------------------------------------------------------------------

/// A mask that holds one block type over a full low-corner rectangle and
/// nothing elsewhere merges into exactly one rectangle.
proof fn lemma_merge_rect(m: Seq<Option<Block>>, us: int, vs: int, n: int, k: int, b: Block)
    requires
        us >= 1,
        1 <= n <= us,
        1 <= k <= vs,
        m.len() == us * vs,
        forall|i: int|
            0 <= i < m.len() ==> #[trigger] m[i] == (if i % us < n && i / us < k {
                Some(b)
            } else {
                None::<Block>
            }),
    ensures
        merge_quads(m, us, vs, 0, 0) =~= seq![Quad { u: 0, v: 0, w: n, h: k, block: b }],
{
    assert forall|u: int, v: int| 0 <= u < us && 0 <= v < vs implies #[trigger] m[v * us + u] == (
        if u < n && v < k {
            Some(b)
        } else {
            None::<Block>
        }) by {
        assert(0 <= v * us + u < us * vs && (v * us + u) % us == u && (v * us + u) / us == v)
            by (nonlinear_arith)
            requires 0 <= u < us && 0 <= v < vs;
    }
    assert forall|kk: int| 0 <= kk < n implies #[trigger] m[0 * us + kk] == Some(b) by {}
    lemma_run_width_eq(m, us, b, 0, 0, n);
    let w = run_width(m, us, b, 0, 0);
    assert(w == n);
    assert forall|r: int| 0 <= r < k implies row_matches(m, us, b, 0, n, r) by {
        assert forall|kk: int| 0 <= kk < n implies #[trigger] m[r * us + kk] == Some(b) by {}
    }
    if k < vs {
        assert(m[k * us + 0] is None);
        assert(!row_matches(m, us, b, 0, n, k));
    }
    lemma_run_height_eq(m, us, vs, b, 0, n, 0, k);
    let h = run_height(m, us, vs, b, 0, w, 0);
    assert(h == k);
    let cleared = clear_rect(m, us, 0, 0, n, k);
    assert forall|i: int| 0 <= i < cleared.len() implies (#[trigger] cleared[i]) is None by {}
    lemma_merge_all_none(cleared, us, vs, n, 0);
    assert(merge_quads(m, us, vs, 0, 0) == seq![Quad { u: 0, v: 0, w: n, h: k, block: b }]
        + merge_quads(cleared, us, vs, n, 0));
}

/// Whether a chunk holds exactly one square flat layer of one block type:
/// the block at height `y0` over the low-corner `n` by `n` square, and air
/// everywhere else.
pub open spec fn chunk_is_flat_layer(c: Chunk, b: Block, y0: int, n: int) -> bool {
    forall|x: int, y: int, z: int|
        0 <= x < 16 && 0 <= y < 256 && 0 <= z < 16 ==> #[trigger] c.spec_block_at(x, y, z) == (if y
            == y0 && x < n && z < n {
            b
        } else {
            Block::Air
        })
}

/// Merging correctness: a flat square layer of one block type merges its
/// whole top face into a single quad and its whole bottom face into a
/// single quad, whatever the layer's extent; every other sweep plane of
/// the two vertical face directions stays empty.
pub proof fn lemma_flat_layer_merges(c: Chunk, b: Block, y0: int, n: int)
    requires
        chunk_is_flat_layer(c, b, y0, n),
        b != Block::Air,
        0 <= y0 < 256,
        1 <= n <= 16,
    ensures
        slice_quads(c, Face::PosY, y0) =~= seq![Quad { u: 0, v: 0, w: n, h: n, block: b }],
        slice_quads(c, Face::NegY, y0) =~= seq![Quad { u: 0, v: 0, w: n, h: n, block: b }],
        forall|d: int| 0 <= d < 256 && d != y0 ==> #[trigger] slice_quads(c, Face::PosY, d).len()
            == 0,
        forall|d: int| 0 <= d < 256 && d != y0 ==> #[trigger] slice_quads(c, Face::NegY, d).len()
            == 0,
{
    lemma_flat_layer_face(c, b, y0, n, Face::PosY);
    lemma_flat_layer_face(c, b, y0, n, Face::NegY);
}

/// One vertical face direction of a flat layer: a single merged quad at
/// the layer's height, nothing at any other height.
proof fn lemma_flat_layer_face(c: Chunk, b: Block, y0: int, n: int, f: Face)
    requires
        chunk_is_flat_layer(c, b, y0, n),
        b != Block::Air,
        0 <= y0 < 256,
        1 <= n <= 16,
        f == Face::PosY || f == Face::NegY,
    ensures
        slice_quads(c, f, y0) =~= seq![Quad { u: 0, v: 0, w: n, h: n, block: b }],
        forall|d: int| 0 <= d < 256 && d != y0 ==> #[trigger] slice_quads(c, f, d).len() == 0,
{
    let m = mask_seq(c, f, y0);
    assert forall|i: int| 0 <= i < m.len() implies #[trigger] m[i] == (if i % 16 < n && i / 16 < n {
        Some(b)
    } else {
        None::<Block>
    }) by {
        let u = i % 16;
        let v = i / 16;
        assert(0 <= u < 16 && 0 <= v < 16) by (nonlinear_arith)
            requires 0 <= i < 256 && u == i % 16 && v == i / 16;
        assert(c.spec_block_at(u, y0, v) == (if u < n && v < n {
            b
        } else {
            Block::Air
        }));
        if u < n && v < n {
            if f == Face::PosY {
                if y0 + 1 < 256 {
                    assert(c.spec_block_at(u, y0 + 1, v) == Block::Air);
                }
            } else {
                if y0 - 1 >= 0 {
                    assert(c.spec_block_at(u, y0 - 1, v) == Block::Air);
                }
            }
            assert(face_visible(c, f, y0, u, v));
        }
    }
    lemma_merge_rect(m, 16, 16, n, n, b);
    assert forall|d: int| 0 <= d < 256 && d != y0 implies #[trigger] slice_quads(c, f, d).len()
        == 0 by {
        let md = mask_seq(c, f, d);
        assert forall|i: int| 0 <= i < md.len() implies (#[trigger] md[i]) is None by {
            let u = i % 16;
            let v = i / 16;
            assert(0 <= u < 16 && 0 <= v < 16) by (nonlinear_arith)
                requires 0 <= i < 256 && u == i % 16 && v == i / 16;
            assert(c.spec_block_at(u, d, v) == Block::Air);
        }
        lemma_merge_all_none(md, 16, 16, 0, 0);
    }
}


// ---------------------------------------------------------------------------
// The single-block law.
// ---------------------------------------------------------------------------

/// A mask that holds one block type in a single cell and nothing elsewhere
/// merges into exactly one unit rectangle, wherever the scan starts before
/// that cell.
proof fn lemma_merge_single_from(
    m: Seq<Option<Block>>,
    us: int,
    vs: int,
    u0: int,
    v0: int,
    b: Block,
    u: int,
    v: int,
)
    requires
        us >= 1,
        m.len() == us * vs,
        0 <= u0 < us,
        0 <= v0 < vs,
        0 <= u <= us,
        0 <= v,
        v < v0 || (v == v0 && u <= u0),
        forall|i: int|
            0 <= i < m.len() ==> #[trigger] m[i] == (if i == v0 * us + u0 {
                Some(b)
            } else {
                None::<Block>
            }),
    ensures
        merge_quads(m, us, vs, u, v) =~= seq![Quad { u: u0, v: v0, w: 1, h: 1, block: b }],
    decreases vs - v, us - u,
{
    assert(0 <= v0 * us + u0 < us * vs) by (nonlinear_arith)
        requires 0 <= u0 < us && 0 <= v0 < vs;
    if u >= us {
        lemma_merge_single_from(m, us, vs, u0, v0, b, 0, v + 1);
    } else {
        assert(0 <= v * us + u < us * vs) by (nonlinear_arith)
            requires 0 <= u < us && 0 <= v < vs && v < vs;
        if v == v0 && u == u0 {
            assert(m[v0 * us + u0] == Some(b));
            if u0 + 1 < us {
                assert(0 <= v0 * us + (u0 + 1) < us * vs) by (nonlinear_arith)
                    requires 0 <= u0 + 1 < us && 0 <= v0 < vs;
                assert(v0 * us + u0 + 1 != v0 * us + u0);
                assert(m[v0 * us + (u0 + 1)] != Some(b));
            }
            lemma_run_width_eq(m, us, b, u0, v0, 1);
            if v0 + 1 < vs {
                assert((v0 + 1) * us + u0 != v0 * us + u0) by (nonlinear_arith)
                    requires us >= 1;
                assert(0 <= (v0 + 1) * us + u0 < us * vs) by (nonlinear_arith)
                    requires 0 <= u0 < us && 0 <= v0 + 1 < vs;
                assert(m[(v0 + 1) * us + u0] is None);
                assert(!row_matches(m, us, b, u0, 1, v0 + 1));
            }
            lemma_run_height_eq(m, us, vs, b, u0, 1, v0, 1);
            let cleared = clear_rect(m, us, u0, v0, 1, 1);
            assert forall|i: int| 0 <= i < cleared.len() implies (#[trigger] cleared[i])
                is None by {
                if i == v0 * us + u0 {
                    assert(i % us == u0 && i / us == v0) by (nonlinear_arith)
                        requires us >= 1 && 0 <= u0 < us && i == v0 * us + u0 && 0 <= v0;
                }
            }
            lemma_merge_all_none(cleared, us, vs, u0 + 1, v0);
            assert(merge_quads(m, us, vs, u, v) == seq![Quad { u: u0, v: v0, w: 1, h: 1, block: b }]
                + merge_quads(cleared, us, vs, u0 + 1, v0));
        } else {
            assert(v * us + u != v0 * us + u0) by (nonlinear_arith)
                requires
                    us >= 1 && 0 <= u < us && 0 <= u0 < us && 0 <= v && 0 <= v0 && !(v == v0 && u
                        == u0),
            ;
            assert(m[v * us + u] is None);
            lemma_merge_single_from(m, us, vs, u0, v0, b, u + 1, v);
        }
    }
}

/// Whether a chunk holds exactly one non-air block.
pub open spec fn chunk_is_single_block(c: Chunk, b: Block, x0: int, y0: int, z0: int) -> bool {
    forall|x: int, y: int, z: int|
        0 <= x < 16 && 0 <= y < 256 && 0 <= z < 16 ==> #[trigger] c.spec_block_at(x, y, z) == (if x
            == x0 && y == y0 && z == z0 {
            b
        } else {
            Block::Air
        })
}

/// One face direction of a single isolated block: a single unit quad in
/// the slice through the block, nothing in any other slice.
proof fn lemma_single_block_face(
    c: Chunk,
    b: Block,
    x0: int,
    y0: int,
    z0: int,
    f: Face,
    dhit: int,
    uhit: int,
    vhit: int,
)
    requires
        chunk_is_single_block(c, b, x0, y0, z0),
        b != Block::Air,
        0 <= x0 < 16,
        0 <= y0 < 256,
        0 <= z0 < 16,
        cell_coords(f, dhit, uhit, vhit) == (x0, y0, z0),
        0 <= dhit < d_size(f),
        0 <= uhit < u_size(f),
        0 <= vhit < v_size(f),
    ensures
        slice_quads(c, f, dhit) =~= seq![Quad { u: uhit, v: vhit, w: 1, h: 1, block: b }],
        forall|d: int| 0 <= d < d_size(f) && d != dhit ==> #[trigger] slice_quads(c, f, d).len()
            == 0,
{
    let us = u_size(f);
    let vs = v_size(f);
    let m = mask_seq(c, f, dhit);
    assert forall|i: int| 0 <= i < m.len() implies #[trigger] m[i] == (if i == vhit * us + uhit {
        Some(b)
    } else {
        None::<Block>
    }) by {
        let u = i % us;
        let v = i / us;
        assert(0 <= u < us && 0 <= v < vs && v * us + u == i) by (nonlinear_arith)
            requires 0 <= i < us * vs && u == i % us && v == i / us && us >= 1;
        if u == uhit && v == vhit {
            assert(i == vhit * us + uhit);
            assert(c.spec_block_at(x0, y0, z0) == b);
            let nd = if face_positive(f) {
                dhit + 1
            } else {
                dhit - 1
            };
            if 0 <= nd < d_size(f) {
                let (nx, ny, nz) = cell_coords(f, nd, uhit, vhit);
                assert(c.spec_block_at(nx, ny, nz) == Block::Air);
            }
            assert(face_visible(c, f, dhit, u, v));
        } else {
            assert(i != vhit * us + uhit) by (nonlinear_arith)
                requires
                    us >= 1 && 0 <= u < us && 0 <= uhit < us && 0 <= v && 0 <= vhit && !(u == uhit
                        && v == vhit) && i == v * us + u,
            ;
            let (cx, cy, cz) = cell_coords(f, dhit, u, v);
            assert(!(cx == x0 && cy == y0 && cz == z0));
            assert(c.spec_block_at(cx, cy, cz) == Block::Air);
        }
    }
    assert(0 <= vhit * us + uhit < us * vs) by (nonlinear_arith)
        requires 0 <= uhit < us && 0 <= vhit < vs;
    lemma_merge_single_from(m, us, vs, uhit, vhit, b, 0, 0);
    assert forall|d: int| 0 <= d < d_size(f) && d != dhit implies #[trigger] slice_quads(c, f, d).len()
        == 0 by {
        let md = mask_seq(c, f, d);
        assert forall|i: int| 0 <= i < md.len() implies (#[trigger] md[i]) is None by {
            let u = i % us;
            let v = i / us;
            assert(0 <= u < us && 0 <= v < vs) by (nonlinear_arith)
                requires 0 <= i < us * vs && u == i % us && v == i / us && us >= 1;
            let (cx, cy, cz) = cell_coords(f, d, u, v);
            assert(!(cx == x0 && cy == y0 && cz == z0));
            assert(c.spec_block_at(cx, cy, cz) == Block::Air);
        }
        lemma_merge_all_none(md, us, vs, 0, 0);
    }
}

/// Sweeping a face whose every slice is empty but one, which merges to a
/// single quad, adds exactly four vertices and six indices.
proof fn lemma_emit_slices_single(md: MeshData, c: Chunk, f: Face, ox: int, oz: int, d: int, dhit: int)
    requires
        0 <= d,
        0 <= dhit < d_size(f),
        slice_quads(c, f, dhit).len() == 1,
        forall|dp: int| 0 <= dp < d_size(f) && dp != dhit ==> #[trigger] slice_quads(c, f, dp).len()
            == 0,
    ensures
        emit_slices(md, c, f, ox, oz, d).verts.len() == md.verts.len() + (if d <= dhit {
            4int
        } else {
            0int
        }),
        emit_slices(md, c, f, ox, oz, d).inds.len() == md.inds.len() + (if d <= dhit {
            6int
        } else {
            0int
        }),
    decreases d_size(f) - d,
{
    if d < d_size(f) {
        let qs = slice_quads(c, f, d);
        lemma_emit_quads_len(md, f, ox, oz, d, qs);
        lemma_emit_slices_single(emit_quads(md, f, ox, oz, d, qs), c, f, ox, oz, d + 1, dhit);
    }
}

/// Single block: one isolated non-air block produces exactly six unit
/// quads, one per face: 24 vertices and 36 indices.
pub proof fn lemma_single_block_mesh(c: Chunk, b: Block, x0: int, y0: int, z0: int)
    requires
        chunk_is_single_block(c, b, x0, y0, z0),
        b != Block::Air,
        0 <= x0 < 16,
        0 <= y0 < 256,
        0 <= z0 < 16,
    ensures
        mesh_model(c).verts.len() == 24,
        mesh_model(c).inds.len() == 36,
{
    let (ox, oz) = chunk_origin(c);
    let md0 = MeshData { verts: Seq::empty(), inds: Seq::empty() };
    let md1 = emit_face(md0, c, Face::PosY, ox, oz);
    let md2 = emit_face(md1, c, Face::NegY, ox, oz);
    let md3 = emit_face(md2, c, Face::PosX, ox, oz);
    let md4 = emit_face(md3, c, Face::NegX, ox, oz);
    let md5 = emit_face(md4, c, Face::PosZ, ox, oz);
    lemma_single_block_face(c, b, x0, y0, z0, Face::PosY, y0, x0, z0);
    lemma_single_block_face(c, b, x0, y0, z0, Face::NegY, y0, x0, z0);
    lemma_single_block_face(c, b, x0, y0, z0, Face::PosX, x0, z0, y0);
    lemma_single_block_face(c, b, x0, y0, z0, Face::NegX, x0, z0, y0);
    lemma_single_block_face(c, b, x0, y0, z0, Face::PosZ, z0, x0, y0);
    lemma_single_block_face(c, b, x0, y0, z0, Face::NegZ, z0, x0, y0);
    lemma_emit_slices_single(md0, c, Face::PosY, ox, oz, 0, y0);
    lemma_emit_slices_single(md1, c, Face::NegY, ox, oz, 0, y0);
    lemma_emit_slices_single(md2, c, Face::PosX, ox, oz, 0, x0);
    lemma_emit_slices_single(md3, c, Face::NegX, ox, oz, 0, x0);
    lemma_emit_slices_single(md4, c, Face::PosZ, ox, oz, 0, z0);
    lemma_emit_slices_single(md5, c, Face::NegZ, ox, oz, 0, z0);
}

} // verus!
