use vstd::prelude::*;
use crate::settings::BoundaryCondition;
use crate::settings::WorkgroupSettings;

verus! {

/// Why a grid or a solver could not be set up.
#[derive(Debug, Clone, Copy, PartialEq, Eq, Structural)]
pub enum SetupError {
    /// An axis of the simulated interior has no cell.
    EmptyDomain,
    /// An axis of the interior together with the absorbing layers exceeds `u32`.
    ExtentOverflow,
    /// A workgroup edge is zero.
    EmptyWorkgroup,
    /// The grid holds more cells than a volume in memory can.
    VolumeTooLarge,
}

impl SetupError {
    /// The key of the scene description whose value is at fault.
    pub open spec fn spec_field(self) -> Seq<char> {
        match self {
            SetupError::EmptyDomain => "domain"@,
            SetupError::ExtentOverflow => "boundary"@,
            SetupError::EmptyWorkgroup => "workgroup"@,
            SetupError::VolumeTooLarge => "spatial_step"@,
        }
    }

    /// The key of the scene description whose value is at fault: the domain
    /// for an empty axis, the boundary for a halo that does not fit, the
    /// workgroup for an empty edge, the spatial step for a lattice too fine
    /// to be held.
    pub fn field(&self) -> (r: &'static str)
        ensures
            r@ == self.spec_field(),
    {
        match self {
            SetupError::EmptyDomain => "domain",
            SetupError::ExtentOverflow => "boundary",
            SetupError::EmptyWorkgroup => "workgroup",
            SetupError::VolumeTooLarge => "spatial_step",
        }
    }
}

/// The least number of blocks of `size` cells that cover `extent` cells.
pub open spec fn ceil_div(extent: int, size: int) -> int
    recommends
        size > 0,
{
    (extent + size - 1) / size
}

/// `ceil_div` is the least count whose blocks cover the extent.
pub proof fn lemma_ceil_div_least(extent: int, size: int)
    requires
        extent >= 0,
        size > 0,
    ensures
        ceil_div(extent, size) * size >= extent,
        (ceil_div(extent, size) - 1) * size < extent,
        ceil_div(extent, size) >= 0,
        ceil_div(extent, size) <= extent,
{
    let q = ceil_div(extent, size);
    assert(q * size >= extent && (q - 1) * size < extent && q >= 0 && q <= extent)
        by (nonlinear_arith)
        requires
            q == (extent + size - 1) / size,
            extent >= 0,
            size > 0,
    ;
}

/// Number of workgroups of edge `size` that cover `extent` cells.
pub fn workgroup_count(extent: u32, size: u32) -> (r: u32)
    requires
        size > 0,
    ensures
        r == ceil_div(extent as int, size as int),
        r * size >= extent,
        (r - 1) * size < extent,
{
    proof {
        lemma_ceil_div_least(extent as int, size as int);
    }
    let q: u32 = extent / size;
    if extent % size == 0 {
        assert(q == ceil_div(extent as int, size as int)) by (nonlinear_arith)
            requires
                q == extent as int / size as int,
                (extent as int) % (size as int) == 0,
                size > 0,
                extent >= 0,
        ;
        q
    } else {
        assert(q + 1 == ceil_div(extent as int, size as int)) by (nonlinear_arith)
            requires
                q == extent as int / size as int,
                (extent as int) % (size as int) != 0,
                size > 0,
                extent >= 0,
        ;
        q + 1
    }
}

/// Workgroup counts that cover a box of the given extent, axis by axis.
pub fn dispatch_size(extent: [u32; 3], workgroup: &WorkgroupSettings) -> (r: [u32; 3])
    requires
        workgroup.wf(),
    ensures
        r@.len() == 3,
        r@[0] == ceil_div(extent@[0] as int, workgroup.x as int),
        r@[1] == ceil_div(extent@[1] as int, workgroup.y as int),
        r@[2] == ceil_div(extent@[2] as int, workgroup.z as int),
{
    [
        workgroup_count(extent[0], workgroup.x),
        workgroup_count(extent[1], workgroup.y),
        workgroup_count(extent[2], workgroup.z),
    ]
}

/// The lattice: the simulated interior and the absorbing halo around it.
#[derive(Debug, Clone, Copy, PartialEq, Eq, Structural)]
pub struct Grid {
    /// Cells of the simulated interior along x, y, z.
    pub sx: u32,
    pub sy: u32,
    pub sz: u32,
    /// Thickness of the absorbing layer on each side, zero without one.
    pub cells: u32,
}

impl Grid {
    /// Every axis of the interior has a cell, and the interior with a layer on
    /// both sides still fits the index type.
    pub open spec fn wf(&self) -> bool {
        &&& self.sx >= 1
        &&& self.sy >= 1
        &&& self.sz >= 1
        &&& self.sx + 2 * self.cells <= u32::MAX
        &&& self.sy + 2 * self.cells <= u32::MAX
        &&& self.sz + 2 * self.cells <= u32::MAX
    }

    /// Total extent along x.
    pub open spec fn gx(&self) -> int {
        self.sx + 2 * self.cells
    }

    /// Total extent along y.
    pub open spec fn gy(&self) -> int {
        self.sy + 2 * self.cells
    }

    /// Total extent along z.
    pub open spec fn gz(&self) -> int {
        self.sz + 2 * self.cells
    }

    /// The cell lies in the grid.
    pub open spec fn contains(&self, x: int, y: int, z: int) -> bool {
        0 <= x < self.gx() && 0 <= y < self.gy() && 0 <= z < self.gz()
    }

    /// The cell lies in the simulated interior.
    pub open spec fn interior(&self, x: int, y: int, z: int) -> bool {
        &&& self.cells <= x < self.cells + self.sx
        &&& self.cells <= y < self.cells + self.sy
        &&& self.cells <= z < self.cells + self.sz
    }

    /// What `new` answers for the given interior and boundary.
    pub open spec fn spec_new(simulation: Seq<u32>, boundary: BoundaryCondition) -> Result<
        Grid,
        SetupError,
    > {
        let c = boundary.spec_cells();
        if simulation[0] == 0 || simulation[1] == 0 || simulation[2] == 0 {
            Err(SetupError::EmptyDomain)
        } else if simulation[0] + 2 * c > u32::MAX || simulation[1] + 2 * c > u32::MAX
            || simulation[2] + 2 * c > u32::MAX {
            Err(SetupError::ExtentOverflow)
        } else {
            Ok(
                Grid {
                    sx: simulation[0],
                    sy: simulation[1],
                    sz: simulation[2],
                    cells: c as u32,
                },
            )
        }
    }

    /// Builds the lattice for an interior of `simulation` cells per axis.
    /// An axis without a cell is refused, and so is one that does not fit
    /// together with the halo.
    pub fn new(simulation: [u32; 3], boundary: BoundaryCondition) -> (r: Result<Grid, SetupError>)
        ensures
            r == Grid::spec_new(simulation@, boundary),
            r is Ok ==> r->Ok_0.wf(),
    {
        let c = boundary.cells();
        if simulation[0] == 0 || simulation[1] == 0 || simulation[2] == 0 {
            return Err(SetupError::EmptyDomain);
        }
        if c > u32::MAX / 2 {
            return Err(SetupError::ExtentOverflow);
        }
        let extra: u32 = 2 * c;
        let room: u32 = u32::MAX - extra;
        if simulation[0] > room || simulation[1] > room || simulation[2] > room {
            return Err(SetupError::ExtentOverflow);
        }
        Ok(Grid { sx: simulation[0], sy: simulation[1], sz: simulation[2], cells: c })
    }

    /// Total extent of the grid, halo included.
    pub fn dimension(&self) -> (r: [u32; 3])
        requires
            self.wf(),
        ensures
            r@.len() == 3,
            r@[0] == self.gx(),
            r@[1] == self.gy(),
            r@[2] == self.gz(),
    {
        let extra: u32 = 2 * self.cells;
        [self.sx + extra, self.sy + extra, self.sz + extra]
    }

    /// Extent of the simulated interior.
    pub fn simulation_dimension(&self) -> (r: [u32; 3])
        ensures
            r@.len() == 3,
            r@[0] == self.sx,
            r@[1] == self.sy,
            r@[2] == self.sz,
    {
        [self.sx, self.sy, self.sz]
    }

    /// Whether rays are cast up the grid column `(x, y)` when a mesh is
    /// rasterized: only columns over the interior are traced.
    pub fn traces_column(&self, x: u32, y: u32) -> (r: bool)
        requires
            self.wf(),
        ensures
            r == (self.cells <= x < self.cells + self.sx && self.cells <= y < self.cells
                + self.sy),
    {
        let c = self.cells;
        x >= c && x - c < self.sx && y >= c && y - c < self.sy
    }

    /// Whether the cell lies in the simulated interior rather than the halo.
    pub fn is_interior(&self, x: u32, y: u32, z: u32) -> (r: bool)
        requires
            self.wf(),
        ensures
            r == self.interior(x as int, y as int, z as int),
    {
        let c = self.cells;
        x >= c && x - c < self.sx && y >= c && y - c < self.sy && z >= c && z - c < self.sz
    }
}

} // verus!
