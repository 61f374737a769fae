use vstd::prelude::*;

verus! {

/// Axis along which a slice of the field is taken.
#[derive(Debug, Clone, Copy, PartialEq, Eq, Structural)]
pub enum SliceMode {
    X,
    Y,
    Z,
}

impl SliceMode {
    /// The number by which the slice kernel knows this axis.
    pub open spec fn spec_code(self) -> u32 {
        match self {
            SliceMode::X => 2,
            SliceMode::Y => 1,
            SliceMode::Z => 0,
        }
    }

    /// The number handed to the slice kernel for this axis: 2 for X, 1 for Y, 0 for Z.
    pub fn code(self) -> (r: u32)
        ensures
            r == self.spec_code(),
    {
        match self {
            SliceMode::X => 2,
            SliceMode::Y => 1,
            SliceMode::Z => 0,
        }
    }
}

/// Which of the two fields an operation addresses.
#[derive(Debug, Clone, Copy, PartialEq, Eq, Structural)]
pub enum FieldType {
    E,
    H,
}

/// What happens at the outer faces of the grid. The absorbing layer is
/// described here by its thickness in cells alone; its damping parameters
/// do not influence any index computation.
#[derive(Debug, Clone, Copy, PartialEq, Eq, Structural)]
pub enum BoundaryCondition {
    PML { cells: u32 },
    PEC,
    PMC,
}

impl BoundaryCondition {
    /// Thickness of the absorbing layer, zero where there is none.
    pub open spec fn spec_cells(self) -> nat {
        match self {
            BoundaryCondition::PML { cells } => cells as nat,
            BoundaryCondition::PEC => 0,
            BoundaryCondition::PMC => 0,
        }
    }

    /// Thickness of the absorbing layer, zero where there is none.
    pub fn cells(&self) -> (r: u32)
        ensures
            r == self.spec_cells(),
    {
        match *self {
            BoundaryCondition::PML { cells } => cells,
            BoundaryCondition::PEC => 0,
            BoundaryCondition::PMC => 0,
        }
    }

    /// Number of cells by which each axis of the grid exceeds the simulated
    /// interior: twice the layer thickness.
    pub fn get_extra_grid_extent(&self) -> (r: u32)
        requires
            2 * self.spec_cells() <= u32::MAX,
        ensures
            r == 2 * self.spec_cells(),
    {
        match *self {
            BoundaryCondition::PML { cells } => cells * 2,
            BoundaryCondition::PEC => 0,
            BoundaryCondition::PMC => 0,
        }
    }

    /// The flag the update kernels read: 1 for a magnetic conductor, else 0.
    pub fn use_pmc(&self) -> (r: u32)
        ensures
            r == (if *self == BoundaryCondition::PMC { 1u32 } else { 0u32 }),
    {
        match *self {
            BoundaryCondition::PML { .. } => 0,
            BoundaryCondition::PEC => 0,
            BoundaryCondition::PMC => 1,
        }
    }
}

/// Edge lengths of one workgroup of a compute kernel.
#[derive(Debug, Clone, Copy, PartialEq, Eq, Structural)]
pub struct WorkgroupSettings {
    pub x: u32,
    pub y: u32,
    pub z: u32,
}

impl WorkgroupSettings {
    /// A workgroup must hold at least one invocation along each axis.
    pub open spec fn wf(&self) -> bool {
        self.x > 0 && self.y > 0 && self.z > 0
    }

    /// The cubic workgroup taken where none is configured: the largest cube
    /// whose invocations a device limit of `max_invocations` admits.
    pub fn cube_within(max_invocations: u32) -> (r: WorkgroupSettings)
        ensures
            r.x == r.y && r.y == r.z,
            r.x * r.x * r.x <= max_invocations,
            (r.x + 1) * (r.x + 1) * (r.x + 1) > max_invocations,
    {
        let n: u64 = max_invocations as u64;
        let mut c: u64 = 0;
        let mut done = false;
        while !done
            invariant
                c <= 1625,
                n == max_invocations,
                c * c * c <= n,
                done ==> (c + 1) * (c + 1) * (c + 1) > n,
            decreases
                    (if done {
                        0
                    } else {
                        1626 - c
                    }),
        {
            let d: u64 = c + 1;
            proof {
                assert(d * d <= 1626 * 1626 && d * d * d <= 1626 * 1626 * 1626) by (nonlinear_arith)
                    requires
                        0 <= d <= 1626,
                ;
            }
            let cube: u64 = d * d * d;
            if cube <= n {
                proof {
                    if d == 1626 {
                        assert(d * d * d > u32::MAX) by (nonlinear_arith)
                            requires
                                d == 1626,
                        ;
                    }
                }
                c = d;
            } else {
                done = true;
            }
        }
        WorkgroupSettings { x: c as u32, y: c as u32, z: c as u32 }
    }

    /// Number of invocations in one workgroup.
    pub fn cache_volume(&self) -> (r: u32)
        requires
            self.x * self.y * self.z <= u32::MAX,
        ensures
            r == self.x * self.y * self.z,
    {
        proof {
            if self.z > 0 {
                assert(self.x * self.y <= self.x * self.y * self.z) by (nonlinear_arith)
                    requires
                        self.z >= 1,
                        self.x >= 0,
                        self.y >= 0,
                ;
            } else {
                assert(self.x * self.y * self.z == 0) by (nonlinear_arith)
                    requires
                        self.z == 0,
                ;
            }
        }
        if self.z == 0 {
            0
        } else {
            self.x * self.y * self.z
        }
    }
}

} // verus!
