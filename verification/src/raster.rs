use vstd::prelude::*;
use crate::grid::Grid;
use crate::grid::SetupError;

verus! {

/// The material number of the background medium. Meshes are numbered by the
/// caller; the numbers stand for the update coefficients of their media.
pub const BACKGROUND: u32 = 0;

/// A dense three-dimensional array of numbers, kept in an `ndarray::Array3`.
#[verifier::external_body]
pub struct Volume {
    cells: ndarray::Array3<u32>,
}

/// What a volume holds at each index triple within its shape.
pub uninterp spec fn volume_cells(v: Volume) -> Map<(int, int, int), u32>;

/// The axis lengths a volume was made with.
pub uninterp spec fn volume_shape(v: Volume) -> (nat, nat, nat);

/// `ndarray::Array3::from_elem`: a volume of the given axis lengths that
/// holds `fill` at every index. The call panics when
/// the number of elements exceeds `isize`; the bound asked here also keeps
/// the buffer within what a vector can hold.
#[verifier::external_body]
fn volume_new(nx: usize, ny: usize, nz: usize, fill: u32) -> (v: Volume)
    requires
        nx >= 1,
        ny >= 1,
        nz >= 1,
        4 * (nx * ny * nz) <= isize::MAX,
    ensures
        volume_shape(v) == (nx as nat, ny as nat, nz as nat),
        forall|x: int, y: int, z: int|
            0 <= x < nx && 0 <= y < ny && 0 <= z < nz ==> #[trigger] volume_cells(v)[(x, y, z)]
                == fill,
{
    Volume { cells: ndarray::Array3::from_elem((nx, ny, nz), fill) }
}

/// Indexing of an `ndarray::Array3` by `[x, y, z]`: the element at that
/// index. The call panics outside the shape.
#[verifier::external_body]
fn volume_get(v: &Volume, x: usize, y: usize, z: usize) -> (r: u32)
    requires
        x < volume_shape(*v).0,
        y < volume_shape(*v).1,
        z < volume_shape(*v).2,
    ensures
        r == volume_cells(*v)[(x as int, y as int, z as int)],
{
    v.cells[[x, y, z]]
}

/// Assignment through the mutable indexing of an `ndarray::Array3`: the
/// element at `[x, y, z]` becomes `value`, every other element and the shape
/// stay. The call panics outside the shape.
#[verifier::external_body]
fn volume_set(v: &mut Volume, x: usize, y: usize, z: usize, value: u32)
    requires
        x < volume_shape(*old(v)).0,
        y < volume_shape(*old(v)).1,
        z < volume_shape(*old(v)).2,
    ensures
        volume_shape(*final(v)) == volume_shape(*old(v)),
        volume_cells(*final(v)) == volume_cells(*old(v)).insert(
            (x as int, y as int, z as int),
            value,
        ),
{
    v.cells[[x, y, z]] = value;
}

/// Where a ray cast upward from the grid column `(x, y)` meets a triangle:
/// the column in grid coordinates and the depth rounded to a cell.
#[derive(Debug, Clone, Copy, PartialEq, Eq, Structural)]
pub struct Hit {
    pub x: u32,
    pub y: u32,
    pub z: u32,
}

/// The interior cell a hit marks, if any. Columns in the halo are not
/// traced; depths inside the near layer count as the first interior cell;
/// the last cell of a column is never marked.
pub open spec fn hit_cell(grid: Grid, h: Hit) -> Option<(int, int, int)> {
    let c = grid.cells as int;
    let depth = if h.z > c {
        h.z - c
    } else {
        0
    };
    if c <= h.x < c + grid.sx && c <= h.y < c + grid.sy && depth < grid.sz - 1 {
        Some((h.x - c, h.y - c, depth))
    } else {
        None
    }
}

/// Whether some hit of the list marks the interior cell.
pub open spec fn flagged(grid: Grid, hits: Seq<Hit>, x: int, y: int, z: int) -> bool
    decreases hits.len(),
{
    if hits.len() == 0 {
        false
    } else {
        flagged(grid, hits.drop_last(), x, y, z) || hit_cell(grid, hits.last()) == Some((x, y, z))
    }
}

/// Number of marked cells of the interior column `(x, y)` at depths up to `z`.
pub open spec fn crossings(grid: Grid, hits: Seq<Hit>, x: int, y: int, z: int) -> nat
    decreases z + 1,
{
    if z < 0 {
        0
    } else {
        crossings(grid, hits, x, y, z - 1) + if flagged(grid, hits, x, y, z) {
            1nat
        } else {
            0nat
        }
    }
}

/// An interior cell is inside the mesh when the marks at and below it in its
/// column are odd in number.
pub open spec fn inside(grid: Grid, hits: Seq<Hit>, x: int, y: int, z: int) -> bool {
    crossings(grid, hits, x, y, z) % 2 == 1
}

/// The material of a grid cell after a mesh was rasterized over `before`.
pub open spec fn painted(
    grid: Grid,
    hits: Seq<Hit>,
    material: u32,
    before: u32,
    x: int,
    y: int,
    z: int,
) -> u32 {
    if grid.interior(x, y, z) && inside(grid, hits, x - grid.cells, y - grid.cells, z - grid.cells) {
        material
    } else {
        before
    }
}

/// A mesh as the rasterizer takes it: the hits of the rays cast through it,
/// and the number of its material.
#[derive(Debug, Clone, PartialEq, Eq)]
pub struct Mesh {
    pub hits: Vec<Hit>,
    pub material: u32,
}

/// The material of a grid cell after a list of meshes was rasterized over
/// `before`, one after the other.
pub open spec fn painted_all(
    grid: Grid,
    meshes: Seq<Mesh>,
    before: u32,
    x: int,
    y: int,
    z: int,
) -> u32
    decreases meshes.len(),
{
    if meshes.len() == 0 {
        before
    } else {
        painted(
            grid,
            meshes.last().hits@,
            meshes.last().material,
            painted_all(grid, meshes.drop_last(), before, x, y, z),
            x,
            y,
            z,
        )
    }
}

/// Whether a grid cell lies inside a mesh.
pub open spec fn covers(grid: Grid, mesh: Mesh, x: int, y: int, z: int) -> bool {
    grid.interior(x, y, z) && inside(
        grid,
        mesh.hits@,
        x - grid.cells,
        y - grid.cells,
        z - grid.cells,
    )
}

/// On a cell that several meshes share the last of them in the list
/// decides; a cell that none holds keeps what it had.
pub proof fn lemma_last_mesh_wins(
    grid: Grid,
    meshes: Seq<Mesh>,
    before: u32,
    x: int,
    y: int,
    z: int,
    k: int,
)
    requires
        0 <= k <= meshes.len(),
        k > 0 ==> covers(grid, meshes[k - 1], x, y, z),
        forall|j: int| k <= j < meshes.len() ==> !covers(grid, #[trigger] meshes[j], x, y, z),
    ensures
        painted_all(grid, meshes, before, x, y, z) == (if k > 0 {
            meshes[k - 1].material
        } else {
            before
        }),
    decreases meshes.len(),
{
    if meshes.len() > 0 {
        let front = meshes.drop_last();
        if k == meshes.len() {
            assert(meshes.last() == meshes[k - 1]);
        } else {
            assert(!covers(grid, meshes[meshes.len() - 1], x, y, z));
            assert forall|j: int| k <= j < front.len() implies !covers(
                grid,
                #[trigger] front[j],
                x,
                y,
                z,
            ) by {
                assert(front[j] == meshes[j]);
            }
            if k > 0 {
                assert(front[k - 1] == meshes[k - 1]);
            }
            lemma_last_mesh_wins(grid, front, before, x, y, z, k);
        }
    }
}

/// Place of a cell in the flattened map: x runs fastest, then y, then z.
pub open spec fn cell_index(grid: Grid, x: int, y: int, z: int) -> int {
    x + grid.gx() * (y + grid.gy() * z)
}

/// The nearest interior coordinate along an axis with `s` interior cells
/// behind a layer of `c` cells.
pub open spec fn clamp_inner(v: int, s: int, c: int) -> int {
    if v < c {
        c
    } else if v >= c + s {
        c + s - 1
    } else {
        v
    }
}

/// The cell whose material a grid cell shows once the faces of the interior
/// are extruded into the halo: for a cell of a face region the interior cell
/// next to it across the face, for every other cell the cell itself.
pub open spec fn halo_source(grid: Grid, x: int, y: int, z: int) -> (int, int, int) {
    let c = grid.cells as int;
    let in_x = c <= x < c + grid.sx;
    let in_y = c <= y < c + grid.sy;
    let in_z = c <= z < c + grid.sz;
    if !in_x && in_y && in_z {
        (clamp_inner(x, grid.sx as int, c), y, z)
    } else if in_x && !in_y && in_z {
        (x, clamp_inner(y, grid.sy as int, c), z)
    } else if in_x && in_y && !in_z {
        (x, y, clamp_inner(z, grid.sz as int, c))
    } else {
        (x, y, z)
    }
}

/// Whether a hit list marks a cell is a matter of membership alone.
pub proof fn lemma_flagged_membership(grid: Grid, hits: Seq<Hit>, x: int, y: int, z: int)
    ensures
        flagged(grid, hits, x, y, z) <==> exists|i: int|
            0 <= i < hits.len() && hit_cell(grid, #[trigger] hits[i]) == Some((x, y, z)),
    decreases hits.len(),
{
    if hits.len() > 0 {
        let front = hits.drop_last();
        lemma_flagged_membership(grid, front, x, y, z);
        if flagged(grid, hits, x, y, z) {
            if flagged(grid, front, x, y, z) {
                let i = choose|i: int|
                    0 <= i < front.len() && hit_cell(grid, #[trigger] front[i]) == Some((x, y, z));
                assert(hits[i] == front[i]);
            } else {
                assert(hits[hits.len() - 1] == hits.last());
            }
        }
        if exists|i: int|
            0 <= i < hits.len() && hit_cell(grid, #[trigger] hits[i]) == Some((x, y, z)) {
            let i = choose|i: int|
                0 <= i < hits.len() && hit_cell(grid, #[trigger] hits[i]) == Some((x, y, z));
            if i < front.len() {
                assert(front[i] == hits[i]);
            }
        }
    }
}

/// Two hit lists that mark the same cells of a column up to a depth give the
/// same count of marks there.
pub proof fn lemma_crossings_by_marks(
    grid: Grid,
    a: Seq<Hit>,
    b: Seq<Hit>,
    x: int,
    y: int,
    z: int,
)
    requires
        forall|d: int| 0 <= d <= z ==> flagged(grid, a, x, y, d) == flagged(grid, b, x, y, d),
    ensures
        crossings(grid, a, x, y, z) == crossings(grid, b, x, y, z),
    decreases z + 1,
{
    if z >= 0 {
        lemma_crossings_by_marks(grid, a, b, x, y, z - 1);
    }
}

/// Rasterizing is a function of the set of marked cells: two hit lists that
/// hold the same hits, in whatever order and however often, paint every cell
/// alike. In particular the same list gives the same map each time.
pub proof fn lemma_rasterize_deterministic(
    grid: Grid,
    a: Seq<Hit>,
    b: Seq<Hit>,
    material: u32,
    before: u32,
    x: int,
    y: int,
    z: int,
)
    requires
        forall|i: int| 0 <= i < a.len() ==> b.contains(#[trigger] a[i]),
        forall|j: int| 0 <= j < b.len() ==> a.contains(#[trigger] b[j]),
    ensures
        painted(grid, a, material, before, x, y, z) == painted(grid, b, material, before, x, y, z),
{
    let c = grid.cells as int;
    let xi = x - c;
    let yi = y - c;
    assert forall|d: int| 0 <= d <= z - c implies flagged(grid, a, xi, yi, d) == flagged(
        grid,
        b,
        xi,
        yi,
        d,
    ) by {
        lemma_flagged_membership(grid, a, xi, yi, d);
        lemma_flagged_membership(grid, b, xi, yi, d);
        if flagged(grid, a, xi, yi, d) {
            let i = choose|i: int|
                0 <= i < a.len() && hit_cell(grid, #[trigger] a[i]) == Some((xi, yi, d));
            assert(b.contains(a[i]));
            let j = choose|j: int| 0 <= j < b.len() && b[j] == a[i];
            assert(hit_cell(grid, b[j]) == Some((xi, yi, d)));
        }
        if flagged(grid, b, xi, yi, d) {
            let j = choose|j: int|
                0 <= j < b.len() && hit_cell(grid, #[trigger] b[j]) == Some((xi, yi, d));
            assert(a.contains(b[j]));
            let i = choose|i: int| 0 <= i < a.len() && a[i] == b[j];
            assert(hit_cell(grid, a[i]) == Some((xi, yi, d)));
        }
    }
    lemma_crossings_by_marks(grid, a, b, xi, yi, z - c);
}

/// A cell keeps its material when no hit marks its column at or below it:
/// so every cell of a column that no ray hit, and every cell below the
/// lowest hit of its column. The cell is given by its place in the interior.
pub proof fn lemma_unmarked_keeps_material(
    grid: Grid,
    hits: Seq<Hit>,
    material: u32,
    before: u32,
    x: int,
    y: int,
    z: int,
)
    requires
        forall|d: int| 0 <= d <= z ==> !flagged(grid, hits, x, y, d),
    ensures
        painted(grid, hits, material, before, x + grid.cells, y + grid.cells, z + grid.cells)
            == before,
{
    lemma_no_marks_no_crossings(grid, hits, x, y, z);
}

proof fn lemma_no_marks_no_crossings(grid: Grid, hits: Seq<Hit>, x: int, y: int, z: int)
    requires
        forall|d: int| 0 <= d <= z ==> !flagged(grid, hits, x, y, d),
    ensures
        crossings(grid, hits, x, y, z) == 0,
    decreases z + 1,
{
    if z >= 0 {
        lemma_no_marks_no_crossings(grid, hits, x, y, z - 1);
    }
}

/// A cell outside the box that holds all hits of a mesh keeps its material:
/// if every marked cell lies in the columns from `(x0, y0)` to `(x1, y1)`
/// and at depth `z0` or above, then a cell of another column, or below
/// `z0`, is not painted. Cells and box are given by their places in the
/// interior.
pub proof fn lemma_outside_hit_box_keeps_material(
    grid: Grid,
    hits: Seq<Hit>,
    material: u32,
    before: u32,
    low: (int, int, int),
    high: (int, int),
    x: int,
    y: int,
    z: int,
)
    requires
        forall|i: int|
            0 <= i < hits.len() ==> match hit_cell(grid, #[trigger] hits[i]) {
                Some(c) => low.0 <= c.0 <= high.0 && low.1 <= c.1 <= high.1 && low.2 <= c.2,
                None => true,
            },
        x < low.0 || x > high.0 || y < low.1 || y > high.1 || z < low.2,
    ensures
        painted(grid, hits, material, before, x + grid.cells, y + grid.cells, z + grid.cells)
            == before,
{
    assert forall|d: int| 0 <= d <= z implies !flagged(grid, hits, x, y, d) by {
        lemma_flagged_membership(grid, hits, x, y, d);
    }
    lemma_unmarked_keeps_material(grid, hits, material, before, x, y, z);
}

/// A cell above every mark of its column keeps its material when the marks
/// of the column are even in number, as they are where each entry of a
/// ray into the mesh is matched by an exit in another cell. The cell is
/// given by its place in the interior.
pub proof fn lemma_above_even_column_keeps_material(
    grid: Grid,
    hits: Seq<Hit>,
    material: u32,
    before: u32,
    x: int,
    y: int,
    z: int,
    top: int,
)
    requires
        z <= top,
        forall|d: int| z < d <= top ==> !flagged(grid, hits, x, y, d),
        crossings(grid, hits, x, y, top) % 2 == 0,
    ensures
        painted(grid, hits, material, before, x + grid.cells, y + grid.cells, z + grid.cells)
            == before,
    decreases top - z,
{
    if z < top {
        assert(!flagged(grid, hits, x, y, top));
        lemma_above_even_column_keeps_material(grid, hits, material, before, x, y, z, top - 1);
    }
}

/// Extruding the faces changes nothing in the interior, on the edges or in
/// the corners of the halo, and gives each cell of a face region the
/// material of an interior cell.
pub proof fn lemma_halo_source(grid: Grid, x: int, y: int, z: int)
    requires
        grid.wf(),
        grid.contains(x, y, z),
    ensures
        grid.interior(x, y, z) ==> halo_source(grid, x, y, z) == (x, y, z),
        halo_source(grid, x, y, z) != (x, y, z) ==> grid.interior(
            halo_source(grid, x, y, z).0,
            halo_source(grid, x, y, z).1,
            halo_source(grid, x, y, z).2,
        ),
        grid.contains(
            halo_source(grid, x, y, z).0,
            halo_source(grid, x, y, z).1,
            halo_source(grid, x, y, z).2,
        ),
{
}

/// A map that holds the background alone expands to one value everywhere:
/// the background's.
pub proof fn lemma_background_is_uniform<T>(cells: Seq<u32>, media: Seq<T>, expanded: Seq<T>, i: int)
    requires
        media.len() > 0,
        expanded.len() == cells.len(),
        forall|k: int| 0 <= k < cells.len() ==> cells[k] == BACKGROUND,
        forall|k: int| 0 <= k < cells.len() ==> #[trigger] expanded[k] == media[cells[k] as int],
        0 <= i < cells.len(),
    ensures
        expanded[i] == media[0],
{
}

/// Without any hit nothing is painted.
pub proof fn lemma_no_hits_paint_nothing(
    grid: Grid,
    material: u32,
    before: u32,
    x: int,
    y: int,
    z: int,
)
    ensures
        painted(grid, Seq::<Hit>::empty(), material, before, x, y, z) == before,
{
    let c = grid.cells as int;
    lemma_unmarked_keeps_material(grid, Seq::<Hit>::empty(), material, before, x - c, y - c, z - c);
}

/// The marks of a hit list, as a volume over the interior holds them.
spec fn marks_held(flags: Volume, grid: Grid, hits: Seq<Hit>) -> bool {
    &&& volume_shape(flags) == (grid.sx as nat, grid.sy as nat, grid.sz as nat)
    &&& forall|x: int, y: int, z: int|
        0 <= x < grid.sx && 0 <= y < grid.sy && 0 <= z < grid.sz ==> (#[trigger] volume_cells(
            flags,
        )[(x, y, z)] == 1u32 <==> flagged(grid, hits, x, y, z))
}

proof fn lemma_volume_fits(grid: Grid)
    requires
        grid.wf(),
        4 * (grid.gx() * grid.gy() * grid.gz()) <= isize::MAX,
    ensures
        4 * (grid.sx * grid.sy * grid.sz) <= isize::MAX,
        grid.gx() * grid.gy() * grid.gz() <= usize::MAX,
        grid.gx() <= usize::MAX,
        grid.gy() <= usize::MAX,
        grid.gz() <= usize::MAX,
{
    let (a, b, c) = (grid.sx as int, grid.sy as int, grid.sz as int);
    let (p, q, r) = (grid.gx(), grid.gy(), grid.gz());
    assert(a * b * c <= p * q * r && p <= p * q * r && q <= p * q * r && r <= p * q * r)
        by (nonlinear_arith)
        requires
            1 <= a <= p,
            1 <= b <= q,
            1 <= c <= r,
    ;
}

/// Turns meshes, given by the hits of the rays cast through them, into a
/// map of material numbers over the grid.
pub struct Importer {
    grid: Grid,
    materials: Volume,
}

/// The finished map of material numbers, flattened for upload.
#[derive(Debug, Clone, PartialEq, Eq)]
pub struct MaterialMap {
    pub grid: Grid,
    /// One number per cell of the grid; x runs fastest, then y, then z.
    pub cells: Vec<u32>,
}

/// A face of the interior, named by the axis it crosses and its side.
#[derive(Debug, Clone, Copy, PartialEq, Eq, Structural)]
pub enum Face {
    XNear,
    XFar,
    YNear,
    YFar,
    ZNear,
    ZFar,
}

/// Extent of a face along its two tangential axes, the earlier axis first.
pub open spec fn face_extent(grid: Grid, face: Face) -> (int, int) {
    match face {
        Face::XNear => (grid.sy as int, grid.sz as int),
        Face::XFar => (grid.sy as int, grid.sz as int),
        Face::YNear => (grid.sx as int, grid.sz as int),
        Face::YFar => (grid.sx as int, grid.sz as int),
        Face::ZNear => (grid.sx as int, grid.sy as int),
        Face::ZFar => (grid.sx as int, grid.sy as int),
    }
}

/// The grid cell of the interior slab that lies against a face, at the
/// tangential place `(a, b)`.
pub open spec fn face_cell(grid: Grid, face: Face, a: int, b: int) -> (int, int, int) {
    let c = grid.cells as int;
    match face {
        Face::XNear => (c, a + c, b + c),
        Face::XFar => (c + grid.sx - 1, a + c, b + c),
        Face::YNear => (a + c, c, b + c),
        Face::YFar => (a + c, c + grid.sy - 1, b + c),
        Face::ZNear => (a + c, b + c, c),
        Face::ZFar => (a + c, b + c, c + grid.sz - 1),
    }
}

/// Place of a tangential position in a flattened face: the earlier axis
/// runs fastest.
pub open spec fn plane_index(width: int, a: int, b: int) -> int {
    a + width * b
}

proof fn lemma_plane_index(width: int, height: int, a: int, b: int, u: int, v: int)
    requires
        0 <= a < width,
        0 <= b < height,
        0 <= u < width,
        0 <= v,
    ensures
        0 <= plane_index(width, a, b) < width * height,
        plane_index(width, a, b) == plane_index(width, u, v) ==> a == u && b == v,
        width * b + width == width * (b + 1),
{
    assert(0 <= a + width * b < width * height && width * b + width == width * (b + 1))
        by (nonlinear_arith)
        requires
            0 <= a < width,
            0 <= b < height,
    ;
    if plane_index(width, a, b) == plane_index(width, u, v) {
        assert(a == u && b == v) by (nonlinear_arith)
            requires
                0 <= a < width,
                0 <= u < width,
                a + width * b == u + width * v,
        ;
    }
}

impl MaterialMap {
    /// The map holds one number for every cell of its lattice.
    pub open spec fn wf(&self) -> bool {
        &&& self.grid.wf()
        &&& self.cells@.len() == self.grid.gx() * self.grid.gy() * self.grid.gz()
    }

    /// The material number of a grid cell.
    pub open spec fn spec_get(&self, x: int, y: int, z: int) -> u32 {
        self.cells@[cell_index(self.grid, x, y, z)]
    }

    /// The material number of a grid cell.
    pub fn get(&self, x: u32, y: u32, z: u32) -> (r: u32)
        requires
            self.wf(),
            self.grid.contains(x as int, y as int, z as int),
        ensures
            r == self.spec_get(x as int, y as int, z as int),
    {
        let d = self.grid.dimension();
        let total = self.cells.len();
        proof {
            lemma_cell_index_bound(self.grid, x as int, y as int, z as int);
            let (p, q, r) = (self.grid.gx(), self.grid.gy(), self.grid.gz());
            assert(q * r <= p * q * r) by (nonlinear_arith)
                requires
                    p >= 1,
                    q >= 0,
                    r >= 0,
            ;
        }
        let gx = d[0] as usize;
        let gy = d[1] as usize;
        let row: usize = y as usize + gy * (z as usize);
        let place: usize = x as usize + gx * row;
        assert(place < total);
        self.cells[place]
    }

    /// Every material number of the map names an entry of a table of
    /// `media` entries.
    pub open spec fn within(&self, media: int) -> bool {
        forall|i: int| 0 <= i < self.cells@.len() ==> (#[trigger] self.cells@[i]) < media
    }

    /// Replaces every material number by what a table holds for it: the
    /// values of the medium, cell by cell, in the map's order. `None` when
    /// some cell names a material beyond the table.
    pub fn expand<T: Copy>(&self, media: &Vec<T>) -> (r: Option<Vec<T>>)
        ensures
            r is Some <==> self.within(media@.len() as int),
            r is Some ==> r->Some_0@.len() == self.cells@.len() && forall|i: int|
                0 <= i < self.cells@.len() ==> #[trigger] r->Some_0@[i] == media@[self.cells@[i]
                    as int],
    {
        let mut out: Vec<T> = Vec::new();
        let mut i: usize = 0;
        while i < self.cells.len()
            invariant
                i <= self.cells@.len(),
                out@.len() == i,
                forall|k: int| 0 <= k < i ==> (#[trigger] self.cells@[k]) < media@.len(),
                forall|k: int| 0 <= k < i ==> #[trigger] out@[k] == media@[self.cells@[k] as int],
            decreases self.cells@.len() - i,
        {
            let m = self.cells[i] as usize;
            if m >= media.len() {
                return None;
            }
            out.push(media[m]);
            i = i + 1;
        }
        Some(out)
    }

    /// The materials of the interior slab that lies against a face, from
    /// which the decay of that face's layer is derived: one number for every
    /// tangential place, the earlier axis running fastest.
    pub fn face_plane(&self, face: Face) -> (out: Vec<u32>)
        requires
            self.wf(),
        ensures
            out@.len() == face_extent(self.grid, face).0 * face_extent(self.grid, face).1,
            forall|a: int, b: int|
                0 <= a < face_extent(self.grid, face).0 && 0 <= b < face_extent(self.grid, face).1
                    ==> 0 <= #[trigger] plane_index(face_extent(self.grid, face).0, a, b)
                    < out@.len() && out@[plane_index(face_extent(self.grid, face).0, a, b)]
                    == self.spec_get(
                    face_cell(self.grid, face, a, b).0,
                    face_cell(self.grid, face, a, b).1,
                    face_cell(self.grid, face, a, b).2,
                ),
    {
        let g = self.grid;
        let c = g.cells;
        let (width, height): (u32, u32) = match face {
            Face::XNear => (g.sy, g.sz),
            Face::XFar => (g.sy, g.sz),
            Face::YNear => (g.sx, g.sz),
            Face::YFar => (g.sx, g.sz),
            Face::ZNear => (g.sx, g.sy),
            Face::ZFar => (g.sx, g.sy),
        };
        let mut out: Vec<u32> = Vec::new();
        let mut b: u32 = 0;
        while b < height
            invariant
                self.wf(),
                g == self.grid,
                c == g.cells,
                (width as int, height as int) == face_extent(g, face),
                b <= height,
                out@.len() == width * b,
                forall|u: int, v: int|
                    0 <= u < width && 0 <= v < height && #[trigger] plane_index(width as int, u, v)
                        < out@.len() ==> out@[plane_index(width as int, u, v)] == self.spec_get(
                        face_cell(g, face, u, v).0,
                        face_cell(g, face, u, v).1,
                        face_cell(g, face, u, v).2,
                    ),
            decreases height - b,
        {
            let mut a: u32 = 0;
            while a < width
                invariant
                    self.wf(),
                    g == self.grid,
                    c == g.cells,
                    (width as int, height as int) == face_extent(g, face),
                    b < height,
                    a <= width,
                    out@.len() == plane_index(width as int, a as int, b as int),
                    forall|u: int, v: int|
                        0 <= u < width && 0 <= v < height && #[trigger] plane_index(
                            width as int,
                            u,
                            v,
                        ) < out@.len() ==> out@[plane_index(width as int, u, v)] == self.spec_get(
                            face_cell(g, face, u, v).0,
                            face_cell(g, face, u, v).1,
                            face_cell(g, face, u, v).2,
                        ),
                decreases width - a,
            {
                let (x, y, z): (u32, u32, u32) = match face {
                    Face::XNear => (c, a + c, b + c),
                    Face::XFar => (c + g.sx - 1, a + c, b + c),
                    Face::YNear => (a + c, c, b + c),
                    Face::YFar => (a + c, c + g.sy - 1, b + c),
                    Face::ZNear => (a + c, b + c, c),
                    Face::ZFar => (a + c, b + c, c + g.sz - 1),
                };
                let value = self.get(x, y, z);
                let ghost before = out@;
                out.push(value);
                proof {
                    assert forall|u: int, v: int|
                        0 <= u < width && 0 <= v < height && #[trigger] plane_index(
                            width as int,
                            u,
                            v,
                        ) < out@.len() implies out@[plane_index(width as int, u, v)]
                        == self.spec_get(
                        face_cell(g, face, u, v).0,
                        face_cell(g, face, u, v).1,
                        face_cell(g, face, u, v).2,
                    ) by {
                        lemma_plane_index(width as int, height as int, a as int, b as int, u, v);
                    }
                }
                a = a + 1;
            }
            proof {
                lemma_plane_index(width as int, height as int, 0, b as int, 0, 0);
            }
            b = b + 1;
        }
        proof {
            assert(width * height == face_extent(g, face).0 * face_extent(g, face).1);
            assert forall|u: int, v: int| 0 <= u < width && 0 <= v < height implies 0
                <= #[trigger] plane_index(width as int, u, v) < out@.len() by {
                lemma_plane_index(width as int, height as int, u, v, 0, 0);
            }
        }
        out
    }
}

/// The flattened place of a grid cell lies within the map, and so do the
/// partial sums that lead to it.
pub proof fn lemma_cell_index_bound(grid: Grid, x: int, y: int, z: int)
    requires
        grid.contains(x, y, z),
    ensures
        0 <= cell_index(grid, x, y, z) < grid.gx() * grid.gy() * grid.gz(),
        0 <= grid.gy() * z <= y + grid.gy() * z < grid.gy() * grid.gz(),
        0 <= grid.gx() * (y + grid.gy() * z) <= cell_index(grid, x, y, z),
{
    let (p, q, r) = (grid.gx(), grid.gy(), grid.gz());
    assert(0 <= q * z && y + q * z < q * r) by (nonlinear_arith)
        requires
            0 <= y < q,
            0 <= z < r,
    ;
    let row = y + q * z;
    assert(0 <= p * row && x + p * row < p * (q * r) && p * (q * r) == p * q * r)
        by (nonlinear_arith)
        requires
            0 <= x < p,
            0 <= row < q * r,
    ;
}

/// Different grid cells have different places in the flattened map.
pub proof fn lemma_cell_index_unique(grid: Grid, x: int, y: int, z: int, u: int, v: int, w: int)
    requires
        grid.contains(x, y, z),
        grid.contains(u, v, w),
        cell_index(grid, x, y, z) == cell_index(grid, u, v, w),
    ensures
        x == u && y == v && z == w,
{
    let (p, q) = (grid.gx(), grid.gy());
    let a = y + q * z;
    let b = v + q * w;
    assert(a == b && x == u) by (nonlinear_arith)
        requires
            0 <= x < p,
            0 <= u < p,
            x + p * a == u + p * b,
    ;
    assert(z == w && y == v) by (nonlinear_arith)
        requires
            0 <= y < q,
            0 <= v < q,
            y + q * z == v + q * w,
    ;
}

fn record_hits(grid: &Grid, hits: &Vec<Hit>) -> (flags: Volume)
    requires
        grid.wf(),
        4 * (grid.sx * grid.sy * grid.sz) <= isize::MAX,
    ensures
        marks_held(flags, *grid, hits@),
{
    let c = grid.cells;
    let mut flags = volume_new(grid.sx as usize, grid.sy as usize, grid.sz as usize, 0);
    let mut i: usize = 0;
    while i < hits.len()
        invariant
            grid.wf(),
            c == grid.cells,
            i <= hits.len(),
            marks_held(flags, *grid, hits@.take(i as int)),
        decreases hits.len() - i,
    {
        let h = hits[i];
        let ghost before = flags;
        let depth: u32 = if h.z > c {
            h.z - c
        } else {
            0
        };
        let marks = h.x >= c && h.x - c < grid.sx && h.y >= c && h.y - c < grid.sy && depth
            < grid.sz - 1;
        if marks {
            volume_set(&mut flags, (h.x - c) as usize, (h.y - c) as usize, depth as usize, 1);
        }
        proof {
            let now = hits@.take(i + 1);
            assert(now.drop_last() == hits@.take(i as int));
            assert(now.last() == h);
            assert forall|x: int, y: int, z: int|
                0 <= x < grid.sx && 0 <= y < grid.sy && 0 <= z < grid.sz implies (
            #[trigger] volume_cells(flags)[(x, y, z)] == 1u32 <==> flagged(*grid, now, x, y, z)) by {
                assert(volume_cells(before)[(x, y, z)] == 1u32 <==> flagged(
                    *grid,
                    hits@.take(i as int),
                    x,
                    y,
                    z,
                ));
            }
        }
        i = i + 1;
    }
    proof {
        assert(hits@.take(hits.len() as int) == hits@);
    }
    flags
}

fn sweep_column(
    materials: &mut Volume,
    flags: &Volume,
    grid: &Grid,
    x: u32,
    y: u32,
    material: u32,
    Ghost(hits): Ghost<Seq<Hit>>,
)
    requires
        grid.wf(),
        x < grid.sx,
        y < grid.sy,
        marks_held(*flags, *grid, hits),
        volume_shape(*old(materials)) == (grid.gx() as nat, grid.gy() as nat, grid.gz() as nat),
    ensures
        volume_shape(*final(materials)) == volume_shape(*old(materials)),
        forall|u: int, v: int, w: int|
            grid.contains(u, v, w) ==> #[trigger] volume_cells(*final(materials))[(u, v, w)] == (if u
                == x + grid.cells && v == y + grid.cells {
                painted(*grid, hits, material, volume_cells(*old(materials))[(u, v, w)], u, v, w)
            } else {
                volume_cells(*old(materials))[(u, v, w)]
            }),
{
    let c = grid.cells;
    let mut z: u32 = 0;
    let mut odd: bool = false;
    assert(crossings(*grid, hits, x as int, y as int, -1) == 0);
    while z < grid.sz
        invariant
            grid.wf(),
            c == grid.cells,
            x < grid.sx,
            y < grid.sy,
            z <= grid.sz,
            marks_held(*flags, *grid, hits),
            volume_shape(*materials) == (grid.gx() as nat, grid.gy() as nat, grid.gz() as nat),
            odd == (crossings(*grid, hits, x as int, y as int, z - 1) % 2 == 1),
            forall|u: int, v: int, w: int|
                grid.contains(u, v, w) ==> #[trigger] volume_cells(*materials)[(u, v, w)] == (if u
                    == x + c && v == y + c && w < z + c {
                    painted(*grid, hits, material, volume_cells(*old(materials))[(u, v, w)], u, v, w)
                } else {
                    volume_cells(*old(materials))[(u, v, w)]
                }),
        decreases grid.sz - z,
    {
        let marked = volume_get(flags, x as usize, y as usize, z as usize) == 1;
        if marked {
            odd = !odd;
        }
        assert(odd == inside(*grid, hits, x as int, y as int, z as int));
        if odd {
            volume_set(materials, (x + c) as usize, (y + c) as usize, (z + c) as usize, material);
        }
        z = z + 1;
    }
    assert forall|u: int, v: int, w: int| grid.contains(u, v, w) implies #[trigger] volume_cells(
        *materials,
    )[(u, v, w)] == (if u == x + grid.cells && v == y + grid.cells {
        painted(*grid, hits, material, volume_cells(*old(materials))[(u, v, w)], u, v, w)
    } else {
        volume_cells(*old(materials))[(u, v, w)]
    }) by {
        if u == x + c && v == y + c && w >= grid.sz + c {
            assert(!grid.interior(u, v, w));
        }
    }
}

impl Importer {
    /// The importer's volume has the extent of its lattice.
    pub closed spec fn wf(&self) -> bool {
        &&& self.grid.wf()
        &&& 4 * (self.grid.gx() * self.grid.gy() * self.grid.gz()) <= isize::MAX
        &&& volume_shape(self.materials) == (
            self.grid.gx() as nat,
            self.grid.gy() as nat,
            self.grid.gz() as nat,
        )
    }

    /// The lattice the importer fills.
    pub closed spec fn spec_grid(&self) -> Grid {
        self.grid
    }

    /// The material number of a grid cell so far.
    pub closed spec fn material_at(&self, x: int, y: int, z: int) -> u32 {
        volume_cells(self.materials)[(x, y, z)]
    }

    /// Largest number of cells a lattice may have for its map to be built:
    /// four bytes a cell must fit a signed machine word.
    pub open spec fn fits(grid: Grid) -> bool {
        4 * (grid.gx() * grid.gy() * grid.gz()) <= isize::MAX
    }

    /// An importer over a lattice, every cell background. Refused when the
    /// lattice has more cells than a volume in memory can hold.
    pub fn new(grid: Grid) -> (r: Result<Importer, SetupError>)
        requires
            grid.wf(),
        ensures
            r is Ok <==> Importer::fits(grid),
            r is Err ==> r == Err::<Importer, SetupError>(SetupError::VolumeTooLarge),
            r is Ok ==> {
                &&& r->Ok_0.wf()
                &&& r->Ok_0.spec_grid() == grid
                &&& forall|x: int, y: int, z: int|
                    grid.contains(x, y, z) ==> #[trigger] r->Ok_0.material_at(x, y, z) == BACKGROUND
            },
    {
        let d = grid.dimension();
        let p: u128 = d[0] as u128;
        let q: u128 = d[1] as u128;
        let s: u128 = d[2] as u128;
        assert(p * q <= 0xFFFF_FFFF * 0xFFFF_FFFF && p * q * s <= 0xFFFF_FFFF * 0xFFFF_FFFF
            * 0xFFFF_FFFF) by (nonlinear_arith)
            requires
                0 <= p <= 0xFFFF_FFFF,
                0 <= q <= 0xFFFF_FFFF,
                0 <= s <= 0xFFFF_FFFF,
        ;
        let total: u128 = 4 * (p * q * s);
        if total > isize::MAX as u128 {
            return Err(SetupError::VolumeTooLarge);
        }
        proof {
            lemma_volume_fits(grid);
        }
        let materials = volume_new(d[0] as usize, d[1] as usize, d[2] as usize, BACKGROUND);
        Ok(Importer { grid, materials })
    }

    /// The lattice the importer fills.
    pub fn grid(&self) -> (g: Grid)
        ensures
            g == self.spec_grid(),
    {
        self.grid
    }

    /// Rasterizes one mesh, given by the hits of the rays cast up through the
    /// grid columns under its triangles: every interior cell with an odd
    /// number of marked cells at or below it in its column takes the
    /// material, every other cell keeps what it had.
    pub fn rasterize(&mut self, hits: &Vec<Hit>, material: u32)
        requires
            old(self).wf(),
        ensures
            final(self).wf(),
            final(self).spec_grid() == old(self).spec_grid(),
            forall|x: int, y: int, z: int|
                old(self).spec_grid().contains(x, y, z) ==> #[trigger] final(self).material_at(
                    x,
                    y,
                    z,
                ) == painted(
                    old(self).spec_grid(),
                    hits@,
                    material,
                    old(self).material_at(x, y, z),
                    x,
                    y,
                    z,
                ),
    {
        let grid = self.grid;
        let c = grid.cells;
        proof {
            lemma_volume_fits(grid);
        }
        let flags = record_hits(&grid, hits);
        let ghost start = self.materials;
        let mut x: u32 = 0;
        while x < grid.sx
            invariant
                grid.wf(),
                grid == self.grid,
                c == grid.cells,
                self.wf(),
                x <= grid.sx,
                marks_held(flags, grid, hits@),
                forall|u: int, v: int, w: int|
                    grid.contains(u, v, w) ==> #[trigger] volume_cells(self.materials)[(u, v, w)]
                        == (if u < x + c {
                        painted(grid, hits@, material, volume_cells(start)[(u, v, w)], u, v, w)
                    } else {
                        volume_cells(start)[(u, v, w)]
                    }),
            decreases grid.sx - x,
        {
            let mut y: u32 = 0;
            while y < grid.sy
                invariant
                    grid.wf(),
                    grid == self.grid,
                    c == grid.cells,
                    self.wf(),
                    x < grid.sx,
                    y <= grid.sy,
                    marks_held(flags, grid, hits@),
                    forall|u: int, v: int, w: int|
                        grid.contains(u, v, w) ==> #[trigger] volume_cells(self.materials)[(
                            u,
                            v,
                            w,
                        )] == (if u < x + c || (u == x + c && v < y + c) {
                            painted(grid, hits@, material, volume_cells(start)[(u, v, w)], u, v, w)
                        } else {
                            volume_cells(start)[(u, v, w)]
                        }),
                decreases grid.sy - y,
            {
                sweep_column(&mut self.materials, &flags, &grid, x, y, material, Ghost(hits@));
                y = y + 1;
            }
            x = x + 1;
        }
    }

    /// Rasterizes a list of meshes in its order, so that on shared cells a
    /// later mesh overwrites an earlier one.
    pub fn rasterize_all(&mut self, meshes: &Vec<Mesh>)
        requires
            old(self).wf(),
        ensures
            final(self).wf(),
            final(self).spec_grid() == old(self).spec_grid(),
            forall|x: int, y: int, z: int|
                old(self).spec_grid().contains(x, y, z) ==> #[trigger] final(self).material_at(
                    x,
                    y,
                    z,
                ) == painted_all(
                    old(self).spec_grid(),
                    meshes@,
                    old(self).material_at(x, y, z),
                    x,
                    y,
                    z,
                ),
    {
        let ghost grid = self.grid;
        let ghost start = *self;
        let mut i: usize = 0;
        assert(meshes@.take(0) =~= Seq::<Mesh>::empty());
        while i < meshes.len()
            invariant
                i <= meshes.len(),
                self.wf(),
                self.spec_grid() == grid,
                grid == start.spec_grid(),
                forall|x: int, y: int, z: int|
                    grid.contains(x, y, z) ==> #[trigger] self.material_at(x, y, z) == painted_all(
                        grid,
                        meshes@.take(i as int),
                        start.material_at(x, y, z),
                        x,
                        y,
                        z,
                    ),
            decreases meshes.len() - i,
        {
            let ghost before = *self;
            self.rasterize(&meshes[i].hits, meshes[i].material);
            proof {
                let now = meshes@.take(i + 1);
                assert(now.drop_last() == meshes@.take(i as int));
                assert(now.last() == meshes@[i as int]);
                assert forall|x: int, y: int, z: int| grid.contains(x, y, z) implies #[trigger]
                    self.material_at(x, y, z) == painted_all(
                        grid,
                        now,
                        start.material_at(x, y, z),
                        x,
                        y,
                        z,
                    ) by {
                    assert(before.material_at(x, y, z) == painted_all(
                        grid,
                        meshes@.take(i as int),
                        start.material_at(x, y, z),
                        x,
                        y,
                        z,
                    ));
                }
            }
            i = i + 1;
        }
        proof {
            assert(meshes@.take(meshes.len() as int) == meshes@);
        }
    }

    /// Finishes the map: the faces of the interior are extruded outward
    /// through the halo, each halo cell of a face region taking the material
    /// of the interior cell next to it across the face, and the result is
    /// flattened with x running fastest.
    pub fn into_constants_map(self) -> (m: MaterialMap)
        requires
            self.wf(),
        ensures
            m.wf(),
            m.grid == self.spec_grid(),
            forall|x: int, y: int, z: int|
                m.grid.contains(x, y, z) ==> #[trigger] m.spec_get(x, y, z) == self.material_at(
                    halo_source(m.grid, x, y, z).0,
                    halo_source(m.grid, x, y, z).1,
                    halo_source(m.grid, x, y, z).2,
                ),
    {
        let grid = self.grid;
        let c = grid.cells;
        let d = grid.dimension();
        proof {
            lemma_volume_fits(grid);
        }
        let mut cells: Vec<u32> = Vec::new();
        let mut z: u32 = 0;
        while z < d[2]
            invariant
                grid.wf(),
                grid == self.grid,
                c == grid.cells,
                self.wf(),
                d@[0] == grid.gx(),
                d@[1] == grid.gy(),
                d@[2] == grid.gz(),
                z <= d@[2],
                cells@.len() == grid.gx() * (grid.gy() * z),
                forall|u: int, v: int, w: int|
                    grid.contains(u, v, w) && #[trigger] cell_index(grid, u, v, w) < cells@.len()
                        ==> cells@[cell_index(grid, u, v, w)] == self.material_at(
                        halo_source(grid, u, v, w).0,
                        halo_source(grid, u, v, w).1,
                        halo_source(grid, u, v, w).2,
                    ),
            decreases d@[2] - z,
        {
            let mut y: u32 = 0;
            while y < d[1]
                invariant
                    grid.wf(),
                    grid == self.grid,
                    c == grid.cells,
                    self.wf(),
                    d@[0] == grid.gx(),
                    d@[1] == grid.gy(),
                    d@[2] == grid.gz(),
                    z < d@[2],
                    y <= d@[1],
                    cells@.len() == grid.gx() * (y + grid.gy() * z),
                    forall|u: int, v: int, w: int|
                        grid.contains(u, v, w) && #[trigger] cell_index(grid, u, v, w)
                            < cells@.len() ==> cells@[cell_index(grid, u, v, w)]
                            == self.material_at(
                            halo_source(grid, u, v, w).0,
                            halo_source(grid, u, v, w).1,
                            halo_source(grid, u, v, w).2,
                        ),
                decreases d@[1] - y,
            {
                let mut x: u32 = 0;
                while x < d[0]
                    invariant
                        grid.wf(),
                        grid == self.grid,
                        c == grid.cells,
                        self.wf(),
                        d@[0] == grid.gx(),
                        d@[1] == grid.gy(),
                        d@[2] == grid.gz(),
                        z < d@[2],
                        y < d@[1],
                        x <= d@[0],
                        cells@.len() == cell_index(grid, x as int, y as int, z as int),
                        forall|u: int, v: int, w: int|
                            grid.contains(u, v, w) && #[trigger] cell_index(grid, u, v, w)
                                < cells@.len() ==> cells@[cell_index(grid, u, v, w)]
                                == self.material_at(
                                halo_source(grid, u, v, w).0,
                                halo_source(grid, u, v, w).1,
                                halo_source(grid, u, v, w).2,
                            ),
                    decreases d@[0] - x,
                {
                    let in_x = x >= c && x - c < grid.sx;
                    let in_y = y >= c && y - c < grid.sy;
                    let in_z = z >= c && z - c < grid.sz;
                    let mut sx: u32 = x;
                    let mut sy: u32 = y;
                    let mut sz: u32 = z;
                    if !in_x && in_y && in_z {
                        sx = if x < c {
                            c
                        } else {
                            c + grid.sx - 1
                        };
                    } else if in_x && !in_y && in_z {
                        sy = if y < c {
                            c
                        } else {
                            c + grid.sy - 1
                        };
                    } else if in_x && in_y && !in_z {
                        sz = if z < c {
                            c
                        } else {
                            c + grid.sz - 1
                        };
                    }
                    assert((sx as int, sy as int, sz as int) == halo_source(
                        grid,
                        x as int,
                        y as int,
                        z as int,
                    ));
                    let value = volume_get(&self.materials, sx as usize, sy as usize, sz as usize);
                    let ghost before = cells@;
                    cells.push(value);
                    proof {
                        assert forall|u: int, v: int, w: int|
                            grid.contains(u, v, w) && #[trigger] cell_index(grid, u, v, w)
                                < cells@.len() implies cells@[cell_index(grid, u, v, w)]
                            == self.material_at(
                            halo_source(grid, u, v, w).0,
                            halo_source(grid, u, v, w).1,
                            halo_source(grid, u, v, w).2,
                        ) by {
                            lemma_cell_index_bound(grid, u, v, w);
                            if cell_index(grid, u, v, w) == before.len() {
                                lemma_cell_index_unique(grid, u, v, w, x as int, y as int, z as int);
                            }
                        }
                    }
                    x = x + 1;
                }
                proof {
                    let (p, q) = (grid.gx(), grid.gy());
                    assert(p + p * (y + q * z) == p * ((y + 1) + q * z)) by (nonlinear_arith);
                }
                y = y + 1;
            }
            proof {
                let (p, q) = (grid.gx(), grid.gy());
                assert(p * (q + q * z) == p * (q * (z + 1))) by (nonlinear_arith);
            }
            z = z + 1;
        }
        proof {
            let (p, q, r) = (grid.gx(), grid.gy(), grid.gz());
            assert(p * (q * r) == p * q * r) by (nonlinear_arith);
            assert forall|u: int, v: int, w: int| grid.contains(u, v, w) implies cell_index(
                grid,
                u,
                v,
                w,
            ) < cells@.len() by {
                lemma_cell_index_bound(grid, u, v, w);
            }
        }
        MaterialMap { grid, cells }
    }
}

} // verus!
