use vstd::prelude::*;
use crate::grid::ceil_div;
use crate::grid::workgroup_count;
use crate::grid::Grid;
use crate::grid::SetupError;
use crate::pml::Dispatch;
use crate::pml::Kernel;
use crate::pml::PMLBoundary;
use crate::settings::BoundaryCondition;
use crate::settings::FieldType;
use crate::settings::SliceMode;
use crate::settings::WorkgroupSettings;

verus! {

/// What a slot of a kernel's bundle of bindings holds.
#[derive(Debug, Clone, Copy, PartialEq, Eq, Structural)]
pub enum Binding {
    /// A component of a field, to be written or only read.
    Field { field: FieldType, component: SliceMode, writable: bool },
    /// The coefficient map of a field, only read.
    Coefficients { field: FieldType },
}

/// The other of the two fields.
pub open spec fn spec_other(field: FieldType) -> FieldType {
    match field {
        FieldType::E => FieldType::H,
        FieldType::H => FieldType::E,
    }
}

/// The bundle of the kernel that updates `own`: its three components to
/// write, the three components of the other field to read, and its
/// coefficient map.
pub open spec fn spec_bundle(own: FieldType) -> Seq<Binding> {
    seq![
        Binding::Field { field: own, component: SliceMode::X, writable: true },
        Binding::Field { field: own, component: SliceMode::Y, writable: true },
        Binding::Field { field: own, component: SliceMode::Z, writable: true },
        Binding::Field { field: spec_other(own), component: SliceMode::X, writable: false },
        Binding::Field { field: spec_other(own), component: SliceMode::Y, writable: false },
        Binding::Field { field: spec_other(own), component: SliceMode::Z, writable: false },
        Binding::Coefficients { field: own },
    ]
}

/// The seven slots of the bundle of the kernel that updates `own`.
pub fn bundle(own: FieldType) -> (r: [Binding; 7])
    ensures
        r@ == spec_bundle(own),
{
    let other = match own {
        FieldType::E => FieldType::H,
        FieldType::H => FieldType::E,
    };
    let r = [
        Binding::Field { field: own, component: SliceMode::X, writable: true },
        Binding::Field { field: own, component: SliceMode::Y, writable: true },
        Binding::Field { field: own, component: SliceMode::Z, writable: true },
        Binding::Field { field: other, component: SliceMode::X, writable: false },
        Binding::Field { field: other, component: SliceMode::Y, writable: false },
        Binding::Field { field: other, component: SliceMode::Z, writable: false },
        Binding::Coefficients { field: own },
    ];
    assert(r@ =~= spec_bundle(own));
    r
}

/// The solver's discrete state: the lattice, its boundary, the workgroup
/// shape of its kernels, and what the slice view shows.
#[derive(Debug, Clone, Copy, PartialEq, Eq)]
pub struct FDTD {
    pub workgroup_dispatch: WorkgroupSettings,
    pub grid: Grid,
    pub boundary: BoundaryCondition,
    pub pml: Option<PMLBoundary>,
    pub slice_mode: SliceMode,
    pub field_view_mode: FieldType,
}

impl FDTD {
    /// The parts agree: the halo is as thick as the boundary says, and it is
    /// present exactly for an absorbing boundary.
    pub open spec fn wf(&self) -> bool {
        &&& self.grid.wf()
        &&& self.workgroup_dispatch.wf()
        &&& self.grid.cells == self.boundary.spec_cells()
        &&& (self.pml is Some <==> self.boundary is PML)
        &&& (self.pml is Some ==> {
            &&& self.pml->Some_0.wf()
            &&& self.pml->Some_0.grid == self.grid
            &&& self.pml->Some_0.workgroup == self.workgroup_dispatch
        })
    }

    /// Whether `new` refuses the input, and with which error.
    pub open spec fn spec_new_error(
        simulation: Seq<u32>,
        boundary: BoundaryCondition,
        workgroup_dispatch: WorkgroupSettings,
    ) -> Option<SetupError> {
        if !workgroup_dispatch.wf() {
            Some(SetupError::EmptyWorkgroup)
        } else {
            match Grid::spec_new(simulation, boundary) {
                Ok(_) => None,
                Err(e) => Some(e),
            }
        }
    }

    /// Sets up the solver state for an interior of `simulation` cells per
    /// axis. A workgroup with an empty edge is refused, then an interior
    /// with an empty axis, then one that does not fit with its halo.
    pub fn new(
        simulation: [u32; 3],
        boundary: BoundaryCondition,
        workgroup_dispatch: WorkgroupSettings,
        slice_mode: SliceMode,
        field_view_mode: FieldType,
    ) -> (r: Result<FDTD, SetupError>)
        ensures
            match FDTD::spec_new_error(simulation@, boundary, workgroup_dispatch) {
                Some(e) => r == Err::<FDTD, SetupError>(e),
                None => {
                    &&& r is Ok
                    &&& r->Ok_0.wf()
                    &&& Ok::<Grid, SetupError>(r->Ok_0.grid) == Grid::spec_new(simulation@, boundary)
                    &&& r->Ok_0.boundary == boundary
                    &&& r->Ok_0.workgroup_dispatch == workgroup_dispatch
                    &&& r->Ok_0.slice_mode == slice_mode
                    &&& r->Ok_0.field_view_mode == field_view_mode
                },
            },
    {
        if workgroup_dispatch.x == 0 || workgroup_dispatch.y == 0 || workgroup_dispatch.z == 0 {
            return Err(SetupError::EmptyWorkgroup);
        }
        let grid = match Grid::new(simulation, boundary) {
            Ok(grid) => grid,
            Err(e) => {
                return Err(e);
            },
        };
        let pml = match boundary {
            BoundaryCondition::PML { .. } => Some(PMLBoundary::new(grid, workgroup_dispatch)),
            BoundaryCondition::PEC => None,
            BoundaryCondition::PMC => None,
        };
        Ok(FDTD { workgroup_dispatch, grid, boundary, pml, slice_mode, field_view_mode })
    }

    /// The launch of the leapfrog stencil over the whole grid.
    pub open spec fn spec_stencil(&self, field: FieldType) -> Dispatch {
        Dispatch {
            kernel: Kernel::Update,
            field,
            region: None,
            offset: (0, 0, 0),
            workgroups: (
                ceil_div(self.grid.gx(), self.workgroup_dispatch.x as int) as u32,
                ceil_div(self.grid.gy(), self.workgroup_dispatch.y as int) as u32,
                ceil_div(self.grid.gz(), self.workgroup_dispatch.z as int) as u32,
            ),
        }
    }

    /// All launches of one half-step: the stencil over the whole grid, then,
    /// with an absorbing boundary, the halo's launches, which overwrite what
    /// the stencil left in the halo.
    pub open spec fn spec_update(&self, field: FieldType) -> Seq<Dispatch> {
        match self.pml {
            Some(pml) => seq![self.spec_stencil(field)] + pml.spec_plan(field),
            None => seq![self.spec_stencil(field)],
        }
    }

    fn update(&self, field: FieldType) -> (out: Vec<Dispatch>)
        requires
            self.wf(),
        ensures
            out@ == self.spec_update(field),
    {
        let d = self.grid.dimension();
        let w = &self.workgroup_dispatch;
        let stencil = Dispatch {
            kernel: Kernel::Update,
            field,
            region: None,
            offset: (0, 0, 0),
            workgroups: (
                workgroup_count(d[0], w.x),
                workgroup_count(d[1], w.y),
                workgroup_count(d[2], w.z),
            ),
        };
        let mut out: Vec<Dispatch> = Vec::new();
        out.push(stencil);
        match &self.pml {
            Some(pml) => {
                let mut halo = match field {
                    FieldType::E => pml.update_electric_field(),
                    FieldType::H => pml.update_magnetic_field(),
                };
                out.append(&mut halo);
            },
            None => {},
        }
        assert(out@ =~= self.spec_update(field));
        out
    }

    /// The launches of the magnetic half-step, in order.
    pub fn update_magnetic_field(&self) -> (out: Vec<Dispatch>)
        requires
            self.wf(),
        ensures
            out@ == self.spec_update(FieldType::H),
    {
        self.update(FieldType::H)
    }

    /// The launches of the electric half-step, in order.
    pub fn update_electric_field(&self) -> (out: Vec<Dispatch>)
        requires
            self.wf(),
        ensures
            out@ == self.spec_update(FieldType::E),
    {
        self.update(FieldType::E)
    }

    /// The four numbers the stencil kernels read: the grid's extent and the
    /// flag for a magnetic conductor.
    pub fn update_push_constants(&self) -> (r: [u32; 4])
        requires
            self.wf(),
        ensures
            r@.len() == 4,
            r@[0] == self.grid.gx(),
            r@[1] == self.grid.gy(),
            r@[2] == self.grid.gz(),
            r@[3] == (if self.boundary == BoundaryCondition::PMC { 1u32 } else { 0u32 }),
    {
        let d = self.grid.dimension();
        [d[0], d[1], d[2], self.boundary.use_pmc()]
    }

    /// The launch that injects a volumetric source into a box.
    pub open spec fn spec_excite_volume(
        &self,
        field: FieldType,
        position: Seq<u32>,
        size: Seq<u32>,
    ) -> Dispatch {
        Dispatch {
            kernel: Kernel::ExciteVolume,
            field,
            region: None,
            offset: (position[0], position[1], position[2]),
            workgroups: (
                ceil_div(size[0] as int, self.workgroup_dispatch.x as int) as u32,
                ceil_div(size[1] as int, self.workgroup_dispatch.y as int) as u32,
                ceil_div(size[2] as int, self.workgroup_dispatch.z as int) as u32,
            ),
        }
    }

    fn excite_volume(&self, field: FieldType, position: [u32; 3], size: [u32; 3]) -> (d: Dispatch)
        requires
            self.wf(),
        ensures
            d == self.spec_excite_volume(field, position@, size@),
    {
        let w = &self.workgroup_dispatch;
        Dispatch {
            kernel: Kernel::ExciteVolume,
            field,
            region: None,
            offset: (position[0], position[1], position[2]),
            workgroups: (
                workgroup_count(size[0], w.x),
                workgroup_count(size[1], w.y),
                workgroup_count(size[2], w.z),
            ),
        }
    }

    /// The launch that adds a volumetric source to the magnetic field in the
    /// box of `size` cells at `position`: enough workgroups to cover the box.
    pub fn excite_magnetic_field_volume(&self, position: [u32; 3], size: [u32; 3]) -> (d: Dispatch)
        requires
            self.wf(),
        ensures
            d == self.spec_excite_volume(FieldType::H, position@, size@),
    {
        self.excite_volume(FieldType::H, position, size)
    }

    /// The launch that adds a volumetric source to the electric field in the
    /// box of `size` cells at `position`: enough workgroups to cover the box.
    pub fn excite_electric_field_volume(&self, position: [u32; 3], size: [u32; 3]) -> (d: Dispatch)
        requires
            self.wf(),
        ensures
            d == self.spec_excite_volume(FieldType::E, position@, size@),
    {
        self.excite_volume(FieldType::E, position, size)
    }

    /// The launch that injects a modal source into one z-layer.
    pub open spec fn spec_excite_mode(&self, field: FieldType, position: Seq<u32>) -> Dispatch {
        Dispatch {
            kernel: Kernel::ExciteMode,
            field,
            region: None,
            offset: (position[0], position[1], position[2]),
            workgroups: (
                ceil_div(self.grid.sx as int, self.workgroup_dispatch.x as int) as u32,
                ceil_div(self.grid.sy as int, self.workgroup_dispatch.y as int) as u32,
                1,
            ),
        }
    }

    fn excite_mode(&self, field: FieldType, position: [u32; 3]) -> (d: Dispatch)
        requires
            self.wf(),
        ensures
            d == self.spec_excite_mode(field, position@),
    {
        let w = &self.workgroup_dispatch;
        Dispatch {
            kernel: Kernel::ExciteMode,
            field,
            region: None,
            offset: (position[0], position[1], position[2]),
            workgroups: (workgroup_count(self.grid.sx, w.x), workgroup_count(self.grid.sy, w.y), 1),
        }
    }

    /// The launch that adds a modal source to the magnetic field on the
    /// z-layer of `position`: one layer of workgroups over the interior's
    /// extent in x and y.
    pub fn excite_magnetic_field_mode(&self, position: [u32; 3]) -> (d: Dispatch)
        requires
            self.wf(),
        ensures
            d == self.spec_excite_mode(FieldType::H, position@),
    {
        self.excite_mode(FieldType::H, position)
    }

    /// The launch that adds a modal source to the electric field on the
    /// z-layer of `position`: one layer of workgroups over the interior's
    /// extent in x and y.
    pub fn excite_electric_field_mode(&self, position: [u32; 3]) -> (d: Dispatch)
        requires
            self.wf(),
        ensures
            d == self.spec_excite_mode(FieldType::E, position@),
    {
        self.excite_mode(FieldType::E, position)
    }

    /// The grid cell of an interior cell: the interior begins behind the
    /// near layers, so each coordinate grows by the layer's thickness.
    /// `None` when a coordinate would leave the index type.
    pub fn interior_to_grid(&self, cell: [u32; 3]) -> (r: Option<[u32; 3]>)
        ensures
            r is Some <==> cell@[0] + self.grid.cells <= u32::MAX && cell@[1] + self.grid.cells
                <= u32::MAX && cell@[2] + self.grid.cells <= u32::MAX,
            r is Some ==> r->Some_0@.len() == 3 && r->Some_0@[0] == cell@[0] + self.grid.cells
                && r->Some_0@[1] == cell@[1] + self.grid.cells && r->Some_0@[2] == cell@[2]
                + self.grid.cells,
    {
        let c = self.grid.cells;
        let room: u32 = u32::MAX - c;
        if cell[0] > room || cell[1] > room || cell[2] > room {
            None
        } else {
            Some([cell[0] + c, cell[1] + c, cell[2] + c])
        }
    }

    /// Chooses the axis across which the slice is taken.
    pub fn set_slice_mode(&mut self, slice_mode: SliceMode)
        ensures
            *final(self) == (FDTD { slice_mode, ..*old(self) }),
    {
        self.slice_mode = slice_mode;
    }

    /// The axis across which the slice is taken.
    pub fn get_slice_mode(&self) -> (r: SliceMode)
        ensures
            r == self.slice_mode,
    {
        self.slice_mode
    }

    /// Chooses the field the slice shows.
    pub fn set_field_view_mode(&mut self, field_view_mode: FieldType)
        ensures
            *final(self) == (FDTD { field_view_mode, ..*old(self) }),
    {
        self.field_view_mode = field_view_mode;
    }

    /// The field the slice shows.
    pub fn get_field_view_mode(&self) -> (r: FieldType)
        ensures
            r == self.field_view_mode,
    {
        self.field_view_mode
    }

    /// Total extent of the grid, halo included.
    pub fn get_dimension(&self) -> (r: [u32; 3])
        requires
            self.wf(),
        ensures
            r@.len() == 3,
            r@[0] == self.grid.gx(),
            r@[1] == self.grid.gy(),
            r@[2] == self.grid.gz(),
    {
        self.grid.dimension()
    }

    /// Number of cells along the axis of the slice, which is what a
    /// normalized slice position is scaled by.
    pub fn slice_axis_extent(&self) -> (r: u32)
        requires
            self.wf(),
        ensures
            r == match self.slice_mode {
                SliceMode::X => self.grid.gx(),
                SliceMode::Y => self.grid.gy(),
                SliceMode::Z => self.grid.gz(),
            },
    {
        let d = self.grid.dimension();
        match self.slice_mode {
            SliceMode::X => d[0],
            SliceMode::Y => d[1],
            SliceMode::Z => d[2],
        }
    }
}

} // verus!
