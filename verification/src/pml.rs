use vstd::prelude::*;
use crate::grid::ceil_div;
use crate::grid::workgroup_count;
use crate::grid::Grid;
use crate::settings::FieldType;
use crate::settings::WorkgroupSettings;

verus! {

/// Shape of a region of the absorbing halo.
#[derive(Debug, Clone, Copy, PartialEq, Eq, Structural)]
pub enum RegionKind {
    Corner,
    SurfaceX,
    SurfaceY,
    SurfaceZ,
    EdgeX,
    EdgeY,
    EdgeZ,
}

/// Where a region sits along one axis: in the layer before the interior,
/// beside the interior, or in the layer behind it.
#[derive(Debug, Clone, Copy, PartialEq, Eq, Structural)]
pub enum Band {
    Near,
    Inner,
    Far,
}

/// One of the 26 regions of the halo: its shape and its number among the
/// regions of that shape.
#[derive(Debug, Clone, Copy, PartialEq, Eq, Structural)]
pub struct Region {
    pub kind: RegionKind,
    pub index: u32,
}

/// The kernel a dispatch runs.
#[derive(Debug, Clone, Copy, PartialEq, Eq, Structural)]
pub enum Kernel {
    /// The leapfrog stencil over the whole grid.
    Update,
    /// Additive injection into a box.
    ExciteVolume,
    /// Injection of an amplitude map into one z-layer.
    ExciteMode,
    /// Update of the auxiliary variables of a halo region.
    PsiUpdate,
    /// Correction of the field in a halo region from its auxiliary variables.
    FieldCorrection,
}

/// One kernel launch: what runs, on which field, from which cell on, and
/// over how many workgroups.
#[derive(Debug, Clone, Copy, PartialEq, Eq)]
pub struct Dispatch {
    pub kernel: Kernel,
    pub field: FieldType,
    /// The halo region addressed, if the kernel is one of the halo's.
    pub region: Option<Region>,
    /// First cell the kernel touches (for the stencil: the grid's extent).
    pub offset: (u32, u32, u32),
    pub workgroups: (u32, u32, u32),
}

/// Number of regions of a shape.
pub open spec fn spec_region_count(kind: RegionKind) -> nat {
    match kind {
        RegionKind::Corner => 8,
        RegionKind::SurfaceX => 2,
        RegionKind::SurfaceY => 2,
        RegionKind::SurfaceZ => 2,
        RegionKind::EdgeX => 4,
        RegionKind::EdgeY => 4,
        RegionKind::EdgeZ => 4,
    }
}

/// Number of auxiliary variables a region of a shape carries per cell: two
/// for each axis along which the region lies inside a layer.
pub open spec fn spec_psi_channels(kind: RegionKind) -> nat {
    match kind {
        RegionKind::Corner => 6,
        RegionKind::SurfaceX => 2,
        RegionKind::SurfaceY => 2,
        RegionKind::SurfaceZ => 2,
        RegionKind::EdgeX => 4,
        RegionKind::EdgeY => 4,
        RegionKind::EdgeZ => 4,
    }
}

/// Number of auxiliary variables a region of a shape carries per cell.
pub fn psi_channels(kind: RegionKind) -> (r: u32)
    ensures
        r == spec_psi_channels(kind),
{
    match kind {
        RegionKind::Corner => 6,
        RegionKind::SurfaceX => 2,
        RegionKind::SurfaceY => 2,
        RegionKind::SurfaceZ => 2,
        RegionKind::EdgeX => 4,
        RegionKind::EdgeY => 4,
        RegionKind::EdgeZ => 4,
    }
}

impl Region {
    /// The index names one of the regions of this shape.
    pub open spec fn valid(self) -> bool {
        self.index < spec_region_count(self.kind)
    }

    /// The bands along x, y and z in which the region lies.
    pub open spec fn bands(self) -> (Band, Band, Band) {
        let low = Band::Near;
        let mid = Band::Inner;
        let high = Band::Far;
        match self.kind {
            RegionKind::Corner => {
                if self.index == 0 {
                    (low, low, low)
                } else if self.index == 1 {
                    (high, low, low)
                } else if self.index == 2 {
                    (high, high, low)
                } else if self.index == 3 {
                    (low, high, low)
                } else if self.index == 4 {
                    (low, low, high)
                } else if self.index == 5 {
                    (high, low, high)
                } else if self.index == 6 {
                    (high, high, high)
                } else {
                    (low, high, high)
                }
            },
            RegionKind::SurfaceX => if self.index == 0 {
                (low, mid, mid)
            } else {
                (high, mid, mid)
            },
            RegionKind::SurfaceY => if self.index == 0 {
                (mid, low, mid)
            } else {
                (mid, high, mid)
            },
            RegionKind::SurfaceZ => if self.index == 0 {
                (mid, mid, low)
            } else {
                (mid, mid, high)
            },
            RegionKind::EdgeX => {
                if self.index == 0 {
                    (mid, low, low)
                } else if self.index == 1 {
                    (mid, low, high)
                } else if self.index == 2 {
                    (mid, high, high)
                } else {
                    (mid, high, low)
                }
            },
            RegionKind::EdgeY => {
                if self.index == 0 {
                    (low, mid, low)
                } else if self.index == 1 {
                    (high, mid, low)
                } else if self.index == 2 {
                    (high, mid, high)
                } else {
                    (low, mid, high)
                }
            },
            RegionKind::EdgeZ => {
                if self.index == 0 {
                    (low, low, mid)
                } else if self.index == 1 {
                    (high, low, mid)
                } else if self.index == 2 {
                    (high, high, mid)
                } else {
                    (low, high, mid)
                }
            },
        }
    }

    /// The region at a place in the fixed order of a half-step: the corners,
    /// the faces across x, y and z, then the edges along x, y and z.
    pub open spec fn spec_at(ordinal: int) -> Region {
        if ordinal < 8 {
            Region { kind: RegionKind::Corner, index: ordinal as u32 }
        } else if ordinal < 10 {
            Region { kind: RegionKind::SurfaceX, index: (ordinal - 8) as u32 }
        } else if ordinal < 12 {
            Region { kind: RegionKind::SurfaceY, index: (ordinal - 10) as u32 }
        } else if ordinal < 14 {
            Region { kind: RegionKind::SurfaceZ, index: (ordinal - 12) as u32 }
        } else if ordinal < 18 {
            Region { kind: RegionKind::EdgeX, index: (ordinal - 14) as u32 }
        } else if ordinal < 22 {
            Region { kind: RegionKind::EdgeY, index: (ordinal - 18) as u32 }
        } else {
            Region { kind: RegionKind::EdgeZ, index: (ordinal - 22) as u32 }
        }
    }

    /// The region at a place in the fixed order of a half-step.
    pub fn at(ordinal: u32) -> (r: Region)
        requires
            ordinal < 26,
        ensures
            r == Region::spec_at(ordinal as int),
            r.valid(),
    {
        if ordinal < 8 {
            Region { kind: RegionKind::Corner, index: ordinal }
        } else if ordinal < 10 {
            Region { kind: RegionKind::SurfaceX, index: ordinal - 8 }
        } else if ordinal < 12 {
            Region { kind: RegionKind::SurfaceY, index: ordinal - 10 }
        } else if ordinal < 14 {
            Region { kind: RegionKind::SurfaceZ, index: ordinal - 12 }
        } else if ordinal < 18 {
            Region { kind: RegionKind::EdgeX, index: ordinal - 14 }
        } else if ordinal < 22 {
            Region { kind: RegionKind::EdgeY, index: ordinal - 18 }
        } else {
            Region { kind: RegionKind::EdgeZ, index: ordinal - 22 }
        }
    }

    /// The bands along x, y and z in which the region lies.
    pub fn locate(self) -> (r: (Band, Band, Band))
        ensures
            r == self.bands(),
    {
        let low = Band::Near;
        let mid = Band::Inner;
        let high = Band::Far;
        let i = self.index;
        match self.kind {
            RegionKind::Corner => (
                if i == 1 || i == 2 || i == 5 || i == 6 {
                    high
                } else {
                    low
                },
                if i == 0 || i == 1 || i == 4 || i == 5 {
                    low
                } else {
                    high
                },
                if i <= 3 {
                    low
                } else {
                    high
                },
            ),
            RegionKind::SurfaceX => (if i == 0 { low } else { high }, mid, mid),
            RegionKind::SurfaceY => (mid, if i == 0 { low } else { high }, mid),
            RegionKind::SurfaceZ => (mid, mid, if i == 0 { low } else { high }),
            RegionKind::EdgeX => (
                mid,
                if i <= 1 { low } else { high },
                if i == 0 || i >= 3 { low } else { high },
            ),
            RegionKind::EdgeY => (
                if i == 0 || i >= 3 { low } else { high },
                mid,
                if i <= 1 { low } else { high },
            ),
            RegionKind::EdgeZ => (
                if i == 0 || i >= 3 { low } else { high },
                if i <= 1 { low } else { high },
                mid,
            ),
        }
    }
}

/// First cell of a band along an axis with `s` interior cells and layers of
/// `c` cells.
pub open spec fn band_start(b: Band, s: int, c: int) -> int {
    match b {
        Band::Near => 0,
        Band::Inner => c,
        Band::Far => c + s,
    }
}

/// Number of cells of a band along an axis with `s` interior cells and
/// layers of `c` cells.
pub open spec fn band_len(b: Band, s: int, c: int) -> int {
    match b {
        Band::Near => c,
        Band::Inner => s,
        Band::Far => c,
    }
}

/// The band in which a coordinate lies.
pub open spec fn band_of(v: int, s: int, c: int) -> Band {
    if v < c {
        Band::Near
    } else if v < c + s {
        Band::Inner
    } else {
        Band::Far
    }
}

fn start_of(b: Band, s: u32, c: u32) -> (r: u32)
    requires
        s + 2 * c <= u32::MAX,
    ensures
        r == band_start(b, s as int, c as int),
{
    match b {
        Band::Near => 0,
        Band::Inner => c,
        Band::Far => c + s,
    }
}

/// Auxiliary state of a corner of the halo.
#[derive(Debug, Clone, Copy, PartialEq, Eq)]
pub struct PMLCorner {
    /// Extent of each of its auxiliary arrays.
    pub extent: (u32, u32, u32),
}

impl PMLCorner {
    /// A corner is a cube of the layer's thickness.
    pub fn new(cells: u32) -> (r: Self)
        ensures
            r.extent == (cells, cells, cells),
    {
        PMLCorner { extent: (cells, cells, cells) }
    }
}

/// Auxiliary state of a face of the halo across the x axis.
#[derive(Debug, Clone, Copy, PartialEq, Eq)]
pub struct PMLSurfaceX {
    /// Extent of each of its auxiliary arrays.
    pub extent: (u32, u32, u32),
}

impl PMLSurfaceX {
    /// The face is as thick as the layer and spans the interior in y and z.
    pub fn new(cells: u32, simulation_dimension: [u32; 3]) -> (r: Self)
        ensures
            r.extent == (cells, simulation_dimension@[1], simulation_dimension@[2]),
    {
        PMLSurfaceX { extent: (cells, simulation_dimension[1], simulation_dimension[2]) }
    }
}

/// Auxiliary state of a face of the halo across the y axis.
#[derive(Debug, Clone, Copy, PartialEq, Eq)]
pub struct PMLSurfaceY {
    /// Extent of each of its auxiliary arrays.
    pub extent: (u32, u32, u32),
}

impl PMLSurfaceY {
    /// The face is as thick as the layer and spans the interior in x and z.
    pub fn new(cells: u32, simulation_dimension: [u32; 3]) -> (r: Self)
        ensures
            r.extent == (simulation_dimension@[0], cells, simulation_dimension@[2]),
    {
        PMLSurfaceY { extent: (simulation_dimension[0], cells, simulation_dimension[2]) }
    }
}

/// Auxiliary state of a face of the halo across the z axis.
#[derive(Debug, Clone, Copy, PartialEq, Eq)]
pub struct PMLSurfaceZ {
    /// Extent of each of its auxiliary arrays.
    pub extent: (u32, u32, u32),
}

impl PMLSurfaceZ {
    /// The face is as thick as the layer and spans the interior in x and y.
    pub fn new(cells: u32, simulation_dimension: [u32; 3]) -> (r: Self)
        ensures
            r.extent == (simulation_dimension@[0], simulation_dimension@[1], cells),
    {
        PMLSurfaceZ { extent: (simulation_dimension[0], simulation_dimension[1], cells) }
    }
}

/// Auxiliary state of an edge of the halo along the x axis.
#[derive(Debug, Clone, Copy, PartialEq, Eq)]
pub struct PMLEdgeX {
    /// Extent of each of its auxiliary arrays.
    pub extent: (u32, u32, u32),
}

impl PMLEdgeX {
    /// The edge spans the interior in x and the layer in y and z.
    pub fn new(cells: u32, simulation_dimension: [u32; 3]) -> (r: Self)
        ensures
            r.extent == (simulation_dimension@[0], cells, cells),
    {
        PMLEdgeX { extent: (simulation_dimension[0], cells, cells) }
    }
}

/// Auxiliary state of an edge of the halo along the y axis.
#[derive(Debug, Clone, Copy, PartialEq, Eq)]
pub struct PMLEdgeY {
    /// Extent of each of its auxiliary arrays.
    pub extent: (u32, u32, u32),
}

impl PMLEdgeY {
    /// The edge spans the interior in y and the layer in x and z.
    pub fn new(cells: u32, simulation_dimension: [u32; 3]) -> (r: Self)
        ensures
            r.extent == (cells, simulation_dimension@[1], cells),
    {
        PMLEdgeY { extent: (cells, simulation_dimension[1], cells) }
    }
}

/// Auxiliary state of an edge of the halo along the z axis.
#[derive(Debug, Clone, Copy, PartialEq, Eq)]
pub struct PMLEdgeZ {
    /// Extent of each of its auxiliary arrays.
    pub extent: (u32, u32, u32),
}

impl PMLEdgeZ {
    /// The edge spans the interior in z and the layer in x and y.
    pub fn new(cells: u32, simulation_dimension: [u32; 3]) -> (r: Self)
        ensures
            r.extent == (cells, cells, simulation_dimension@[2]),
    {
        PMLEdgeZ { extent: (cells, cells, simulation_dimension[2]) }
    }
}

/// The absorbing halo: its 26 regions and the order in which their kernels run.
#[derive(Debug, Clone, Copy, PartialEq, Eq)]
pub struct PMLBoundary {
    pub grid: Grid,
    pub workgroup: WorkgroupSettings,
    pub corner: PMLCorner,
    pub surface_x: PMLSurfaceX,
    pub surface_y: PMLSurfaceY,
    pub surface_z: PMLSurfaceZ,
    pub edge_x: PMLEdgeX,
    pub edge_y: PMLEdgeY,
    pub edge_z: PMLEdgeZ,
}

impl PMLBoundary {
    /// The lattice and the workgroup are well formed, and each shape's
    /// auxiliary arrays have the extent of its regions.
    pub open spec fn wf(&self) -> bool {
        let c = self.grid.cells;
        &&& self.grid.wf()
        &&& self.workgroup.wf()
        &&& self.corner.extent == (c, c, c)
        &&& self.surface_x.extent == (c, self.grid.sy, self.grid.sz)
        &&& self.surface_y.extent == (self.grid.sx, c, self.grid.sz)
        &&& self.surface_z.extent == (self.grid.sx, self.grid.sy, c)
        &&& self.edge_x.extent == (self.grid.sx, c, c)
        &&& self.edge_y.extent == (c, self.grid.sy, c)
        &&& self.edge_z.extent == (c, c, self.grid.sz)
    }

    /// First cell of a region.
    pub open spec fn spec_offset(&self, r: Region) -> (int, int, int) {
        let b = r.bands();
        let c = self.grid.cells as int;
        (
            band_start(b.0, self.grid.sx as int, c),
            band_start(b.1, self.grid.sy as int, c),
            band_start(b.2, self.grid.sz as int, c),
        )
    }

    /// Number of cells of a region along each axis.
    pub open spec fn spec_extent(&self, r: Region) -> (int, int, int) {
        let b = r.bands();
        let c = self.grid.cells as int;
        (
            band_len(b.0, self.grid.sx as int, c),
            band_len(b.1, self.grid.sy as int, c),
            band_len(b.2, self.grid.sz as int, c),
        )
    }

    /// The cell belongs to the region.
    pub open spec fn region_contains(&self, r: Region, x: int, y: int, z: int) -> bool {
        let o = self.spec_offset(r);
        let e = self.spec_extent(r);
        &&& o.0 <= x < o.0 + e.0
        &&& o.1 <= y < o.1 + e.1
        &&& o.2 <= z < o.2 + e.2
    }

    /// Sets up the halo of a lattice.
    pub fn new(grid: Grid, workgroup: WorkgroupSettings) -> (r: Self)
        requires
            grid.wf(),
            workgroup.wf(),
        ensures
            r.wf(),
            r.grid == grid,
            r.workgroup == workgroup,
    {
        let s = grid.simulation_dimension();
        let c = grid.cells;
        PMLBoundary {
            grid,
            workgroup,
            corner: PMLCorner::new(c),
            surface_x: PMLSurfaceX::new(c, s),
            surface_y: PMLSurfaceY::new(c, s),
            surface_z: PMLSurfaceZ::new(c, s),
            edge_x: PMLEdgeX::new(c, s),
            edge_y: PMLEdgeY::new(c, s),
            edge_z: PMLEdgeZ::new(c, s),
        }
    }

    /// First cell of a region.
    pub fn region_offset(&self, r: Region) -> (o: (u32, u32, u32))
        requires
            self.wf(),
        ensures
            (o.0 as int, o.1 as int, o.2 as int) == self.spec_offset(r),
    {
        let b = r.locate();
        let c = self.grid.cells;
        (start_of(b.0, self.grid.sx, c), start_of(b.1, self.grid.sy, c), start_of(b.2, self.grid.sz, c))
    }

    /// Number of cells of a region along each axis, which is also the extent
    /// of the auxiliary arrays of its shape.
    pub fn region_extent(&self, r: Region) -> (e: (u32, u32, u32))
        requires
            self.wf(),
        ensures
            (e.0 as int, e.1 as int, e.2 as int) == self.spec_extent(r),
    {
        match r.kind {
            RegionKind::Corner => self.corner.extent,
            RegionKind::SurfaceX => self.surface_x.extent,
            RegionKind::SurfaceY => self.surface_y.extent,
            RegionKind::SurfaceZ => self.surface_z.extent,
            RegionKind::EdgeX => self.edge_x.extent,
            RegionKind::EdgeY => self.edge_y.extent,
            RegionKind::EdgeZ => self.edge_z.extent,
        }
    }

    /// The launch at a place of a half-step: regions in their fixed order,
    /// and for each region first the update of its auxiliary variables, then
    /// the correction of the field.
    pub open spec fn spec_dispatch(&self, field: FieldType, i: int) -> Dispatch {
        let r = Region::spec_at(i / 2);
        let o = self.spec_offset(r);
        let e = self.spec_extent(r);
        Dispatch {
            kernel: if i % 2 == 0 {
                Kernel::PsiUpdate
            } else {
                Kernel::FieldCorrection
            },
            field,
            region: Some(r),
            offset: (o.0 as u32, o.1 as u32, o.2 as u32),
            workgroups: (
                ceil_div(e.0, self.workgroup.x as int) as u32,
                ceil_div(e.1, self.workgroup.y as int) as u32,
                ceil_div(e.2, self.workgroup.z as int) as u32,
            ),
        }
    }

    /// All launches of the halo for one half-step, in order.
    pub open spec fn spec_plan(&self, field: FieldType) -> Seq<Dispatch> {
        Seq::new(52, |i: int| self.spec_dispatch(field, i))
    }

    fn plan(&self, field: FieldType) -> (out: Vec<Dispatch>)
        requires
            self.wf(),
        ensures
            out@ == self.spec_plan(field),
    {
        let mut out: Vec<Dispatch> = Vec::new();
        let mut n: u32 = 0;
        while n < 26
            invariant
                self.wf(),
                n <= 26,
                out@.len() == 2 * n,
                forall|i: int| 0 <= i < 2 * n ==> out@[i] == self.spec_dispatch(field, i),
            decreases 26 - n,
        {
            let r = Region::at(n);
            let o = self.region_offset(r);
            let e = self.region_extent(r);
            let w = (
                workgroup_count(e.0, self.workgroup.x),
                workgroup_count(e.1, self.workgroup.y),
                workgroup_count(e.2, self.workgroup.z),
            );
            out.push(
                Dispatch { kernel: Kernel::PsiUpdate, field, region: Some(r), offset: o, workgroups: w },
            );
            out.push(
                Dispatch {
                    kernel: Kernel::FieldCorrection,
                    field,
                    region: Some(r),
                    offset: o,
                    workgroups: w,
                },
            );
            n = n + 1;
        }
        assert(out@ =~= self.spec_plan(field));
        out
    }

    /// The halo's launches for the electric half-step: for every region in
    /// the fixed order, the update of its auxiliary variables followed by the
    /// correction of the electric field.
    pub fn update_electric_field(&self) -> (out: Vec<Dispatch>)
        requires
            self.wf(),
        ensures
            out@ == self.spec_plan(FieldType::E),
    {
        self.plan(FieldType::E)
    }

    /// The halo's launches for the magnetic half-step, ordered as the
    /// electric ones.
    pub fn update_magnetic_field(&self) -> (out: Vec<Dispatch>)
        requires
            self.wf(),
        ensures
            out@ == self.spec_plan(FieldType::H),
    {
        self.plan(FieldType::H)
    }

    /// The workgroups of every launch of the halo cover the region it
    /// addresses, with less than one workgroup to spare along each axis.
    pub proof fn lemma_launch_covers_region(&self, field: FieldType, i: int)
        requires
            self.wf(),
            0 <= i < 52,
        ensures
            ({
                let d = self.spec_plan(field)[i];
                let e = self.spec_extent(Region::spec_at(i / 2));
                let w = self.workgroup;
                &&& d.workgroups.0 * w.x >= e.0 > (d.workgroups.0 - 1) * w.x
                &&& d.workgroups.1 * w.y >= e.1 > (d.workgroups.1 - 1) * w.y
                &&& d.workgroups.2 * w.z >= e.2 > (d.workgroups.2 - 1) * w.z
            }),
    {
        let e = self.spec_extent(Region::spec_at(i / 2));
        crate::grid::lemma_ceil_div_least(e.0, self.workgroup.x as int);
        crate::grid::lemma_ceil_div_least(e.1, self.workgroup.y as int);
        crate::grid::lemma_ceil_div_least(e.2, self.workgroup.z as int);
    }

    /// In a half-step every region is served once, and the update of its
    /// auxiliary variables stands directly before the correction of the
    /// field from them.
    pub proof fn lemma_update_precedes_correction(&self, field: FieldType, n: int)
        requires
            0 <= n < 26,
        ensures
            self.spec_plan(field).len() == 52,
            self.spec_plan(field)[2 * n].kernel == Kernel::PsiUpdate,
            self.spec_plan(field)[2 * n + 1].kernel == Kernel::FieldCorrection,
            self.spec_plan(field)[2 * n].region == Some(Region::spec_at(n)),
            self.spec_plan(field)[2 * n + 1].region == Some(Region::spec_at(n)),
            forall|i: int|
                0 <= i < 52 && #[trigger] self.spec_plan(field)[i].region == Some(Region::spec_at(n))
                    ==> i == 2 * n || i == 2 * n + 1,
    {
        assert forall|i: int|
            0 <= i < 52 && #[trigger] self.spec_plan(field)[i].region == Some(
                Region::spec_at(n),
            ) implies i == 2 * n || i == 2 * n + 1 by {
            assert(Region::spec_at(i / 2) == Region::spec_at(n));
            assert(i / 2 == n);
        }
    }

    /// Every cell of the grid lies either in the interior or in exactly one
    /// region of the halo: a region holds the cell just when its bands are
    /// the cell's, and the interior is where all three bands are the inner one.
    pub proof fn lemma_regions_partition(&self, x: int, y: int, z: int)
        requires
            self.grid.wf(),
            self.grid.contains(x, y, z),
        ensures
            forall|r: Region|
                r.valid() ==> (#[trigger] self.region_contains(r, x, y, z) <==> r.bands() == (
                    band_of(x, self.grid.sx as int, self.grid.cells as int),
                    band_of(y, self.grid.sy as int, self.grid.cells as int),
                    band_of(z, self.grid.sz as int, self.grid.cells as int),
                )),
            forall|r: Region, q: Region|
                r.valid() && q.valid() && #[trigger] self.region_contains(r, x, y, z)
                    && #[trigger] self.region_contains(q, x, y, z) ==> r == q,
            self.grid.interior(x, y, z) <==> !exists|r: Region|
                r.valid() && #[trigger] self.region_contains(r, x, y, z),
            forall|r: Region| r.valid() ==> exists|n: int| 0 <= n < 26 && r == #[trigger] Region::spec_at(n),
    {
        let bx = band_of(x, self.grid.sx as int, self.grid.cells as int);
        let by = band_of(y, self.grid.sy as int, self.grid.cells as int);
        let bz = band_of(z, self.grid.sz as int, self.grid.cells as int);
        assert forall|r: Region| r.valid() implies exists|n: int|
            0 <= n < 26 && r == #[trigger] Region::spec_at(n) by {
            let n = match r.kind {
                RegionKind::Corner => r.index as int,
                RegionKind::SurfaceX => r.index + 8,
                RegionKind::SurfaceY => r.index + 10,
                RegionKind::SurfaceZ => r.index + 12,
                RegionKind::EdgeX => r.index + 14,
                RegionKind::EdgeY => r.index + 18,
                RegionKind::EdgeZ => r.index + 22,
            };
            assert(r == Region::spec_at(n));
        }
        if !self.grid.interior(x, y, z) {
            let w = Self::region_with(bx, by, bz);
            assert(w.valid() && w.bands() == (bx, by, bz));
            assert(self.region_contains(w, x, y, z));
        }
    }

    /// The region that lies in the given bands (for three inner bands, which
    /// name the interior, the first corner).
    pub open spec fn region_with(bx: Band, by: Band, bz: Band) -> Region {
        match (bx, by, bz) {
            (Band::Near, Band::Near, Band::Near) => Region { kind: RegionKind::Corner, index: 0 },
            (Band::Far, Band::Near, Band::Near) => Region { kind: RegionKind::Corner, index: 1 },
            (Band::Far, Band::Far, Band::Near) => Region { kind: RegionKind::Corner, index: 2 },
            (Band::Near, Band::Far, Band::Near) => Region { kind: RegionKind::Corner, index: 3 },
            (Band::Near, Band::Near, Band::Far) => Region { kind: RegionKind::Corner, index: 4 },
            (Band::Far, Band::Near, Band::Far) => Region { kind: RegionKind::Corner, index: 5 },
            (Band::Far, Band::Far, Band::Far) => Region { kind: RegionKind::Corner, index: 6 },
            (Band::Near, Band::Far, Band::Far) => Region { kind: RegionKind::Corner, index: 7 },
            (Band::Near, Band::Inner, Band::Inner) => Region { kind: RegionKind::SurfaceX, index: 0 },
            (Band::Far, Band::Inner, Band::Inner) => Region { kind: RegionKind::SurfaceX, index: 1 },
            (Band::Inner, Band::Near, Band::Inner) => Region { kind: RegionKind::SurfaceY, index: 0 },
            (Band::Inner, Band::Far, Band::Inner) => Region { kind: RegionKind::SurfaceY, index: 1 },
            (Band::Inner, Band::Inner, Band::Near) => Region { kind: RegionKind::SurfaceZ, index: 0 },
            (Band::Inner, Band::Inner, Band::Far) => Region { kind: RegionKind::SurfaceZ, index: 1 },
            (Band::Inner, Band::Near, Band::Near) => Region { kind: RegionKind::EdgeX, index: 0 },
            (Band::Inner, Band::Near, Band::Far) => Region { kind: RegionKind::EdgeX, index: 1 },
            (Band::Inner, Band::Far, Band::Far) => Region { kind: RegionKind::EdgeX, index: 2 },
            (Band::Inner, Band::Far, Band::Near) => Region { kind: RegionKind::EdgeX, index: 3 },
            (Band::Near, Band::Inner, Band::Near) => Region { kind: RegionKind::EdgeY, index: 0 },
            (Band::Far, Band::Inner, Band::Near) => Region { kind: RegionKind::EdgeY, index: 1 },
            (Band::Far, Band::Inner, Band::Far) => Region { kind: RegionKind::EdgeY, index: 2 },
            (Band::Near, Band::Inner, Band::Far) => Region { kind: RegionKind::EdgeY, index: 3 },
            (Band::Near, Band::Near, Band::Inner) => Region { kind: RegionKind::EdgeZ, index: 0 },
            (Band::Far, Band::Near, Band::Inner) => Region { kind: RegionKind::EdgeZ, index: 1 },
            (Band::Far, Band::Far, Band::Inner) => Region { kind: RegionKind::EdgeZ, index: 2 },
            (Band::Near, Band::Far, Band::Inner) => Region { kind: RegionKind::EdgeZ, index: 3 },
            (Band::Inner, Band::Inner, Band::Inner) => Region { kind: RegionKind::Corner, index: 0 },
        }
    }
}

} // verus!
