use grems::fdtd::{bundle, Binding, FDTD};
use grems::grid::{dispatch_size, workgroup_count, Grid, SetupError};
use grems::pml::{Dispatch, Kernel};
use grems::settings::{BoundaryCondition, FieldType, SliceMode, WorkgroupSettings};

#[test]
fn cache_volume_is_product_of_edges() {
    let w = WorkgroupSettings { x: 8, y: 4, z: 2 };
    assert_eq!(w.cache_volume(), 64);
    let cube = WorkgroupSettings { x: 10, y: 10, z: 10 };
    assert_eq!(cube.cache_volume(), 1000);
    let flat = WorkgroupSettings { x: 7, y: 3, z: 0 };
    assert_eq!(flat.cache_volume(), 0);
}

#[test]
fn extra_extent_is_twice_the_layer() {
    assert_eq!(BoundaryCondition::PML { cells: 8 }.get_extra_grid_extent(), 16);
    assert_eq!(BoundaryCondition::PML { cells: 0 }.get_extra_grid_extent(), 0);
    assert_eq!(BoundaryCondition::PEC.get_extra_grid_extent(), 0);
    assert_eq!(BoundaryCondition::PMC.get_extra_grid_extent(), 0);
    assert_eq!(BoundaryCondition::PML { cells: 8 }.cells(), 8);
    assert_eq!(BoundaryCondition::PEC.cells(), 0);
}

#[test]
fn only_a_magnetic_conductor_sets_the_flag() {
    assert_eq!(BoundaryCondition::PML { cells: 8 }.use_pmc(), 0);
    assert_eq!(BoundaryCondition::PEC.use_pmc(), 0);
    assert_eq!(BoundaryCondition::PMC.use_pmc(), 1);
}

#[test]
fn slice_axes_have_their_kernel_codes() {
    assert_eq!(SliceMode::X.code(), 2);
    assert_eq!(SliceMode::Y.code(), 1);
    assert_eq!(SliceMode::Z.code(), 0);
}

#[test]
fn workgroup_count_rounds_up() {
    assert_eq!(workgroup_count(0, 8), 0);
    assert_eq!(workgroup_count(1, 8), 1);
    assert_eq!(workgroup_count(8, 8), 1);
    assert_eq!(workgroup_count(9, 8), 2);
    assert_eq!(workgroup_count(100, 8), 13);
    assert_eq!(workgroup_count(116, 10), 12);
    assert_eq!(workgroup_count(u32::MAX, 1), u32::MAX);
    assert_eq!(workgroup_count(u32::MAX, u32::MAX), 1);
    assert_eq!(workgroup_count(u32::MAX, 2), 2147483648);
}

#[test]
fn dispatch_size_covers_each_axis() {
    let w = WorkgroupSettings { x: 8, y: 4, z: 16 };
    assert_eq!(dispatch_size([116, 116, 116], &w), [15, 29, 8]);
    assert_eq!(dispatch_size([1, 1, 1], &w), [1, 1, 1]);
}

#[test]
fn grid_adds_a_layer_on_both_sides() {
    let g = Grid::new([100, 50, 20], BoundaryCondition::PML { cells: 8 }).unwrap();
    assert_eq!(g.dimension(), [116, 66, 36]);
    assert_eq!(g.simulation_dimension(), [100, 50, 20]);
    assert_eq!(g.cells, 8);
    let bare = Grid::new([10, 10, 10], BoundaryCondition::PEC).unwrap();
    assert_eq!(bare.dimension(), [10, 10, 10]);
    assert_eq!(bare.cells, 0);
}

#[test]
fn grid_refuses_an_empty_axis() {
    assert_eq!(Grid::new([0, 5, 5], BoundaryCondition::PEC), Err(SetupError::EmptyDomain));
    assert_eq!(Grid::new([5, 0, 5], BoundaryCondition::PMC), Err(SetupError::EmptyDomain));
    assert_eq!(
        Grid::new([5, 5, 0], BoundaryCondition::PML { cells: 2 }),
        Err(SetupError::EmptyDomain)
    );
}

#[test]
fn grid_refuses_an_extent_beyond_the_index_type() {
    assert_eq!(
        Grid::new([u32::MAX, 5, 5], BoundaryCondition::PML { cells: 1 }),
        Err(SetupError::ExtentOverflow)
    );
    assert_eq!(
        Grid::new([5, 5, 5], BoundaryCondition::PML { cells: u32::MAX }),
        Err(SetupError::ExtentOverflow)
    );
    assert_eq!(
        Grid::new([5, 5, u32::MAX - 1], BoundaryCondition::PML { cells: 1 }),
        Err(SetupError::ExtentOverflow)
    );
    assert!(Grid::new([5, 5, u32::MAX - 2], BoundaryCondition::PML { cells: 1 }).is_ok());
    assert!(Grid::new([u32::MAX, 1, 1], BoundaryCondition::PEC).is_ok());
}

#[test]
fn interior_lies_between_the_layers() {
    let g = Grid::new([3, 4, 5], BoundaryCondition::PML { cells: 2 }).unwrap();
    assert!(g.is_interior(2, 2, 2));
    assert!(g.is_interior(4, 5, 6));
    assert!(!g.is_interior(1, 2, 2));
    assert!(!g.is_interior(5, 2, 2));
    assert!(!g.is_interior(2, 6, 2));
    assert!(!g.is_interior(2, 2, 7));
    assert!(g.traces_column(2, 5));
    assert!(!g.traces_column(1, 5));
    assert!(!g.traces_column(2, 6));
}

#[test]
fn solver_refuses_bad_input_in_order() {
    let ok = WorkgroupSettings { x: 8, y: 8, z: 8 };
    let bad = WorkgroupSettings { x: 8, y: 0, z: 8 };
    assert_eq!(
        FDTD::new([0, 1, 1], BoundaryCondition::PEC, bad, SliceMode::X, FieldType::E),
        Err(SetupError::EmptyWorkgroup)
    );
    assert_eq!(
        FDTD::new([0, 1, 1], BoundaryCondition::PEC, ok, SliceMode::X, FieldType::E),
        Err(SetupError::EmptyDomain)
    );
    assert_eq!(
        FDTD::new([u32::MAX, 1, 1], BoundaryCondition::PML { cells: 8 }, ok, SliceMode::X, FieldType::E),
        Err(SetupError::ExtentOverflow)
    );
}

#[test]
fn conductor_half_step_is_the_stencil_alone() {
    let w = WorkgroupSettings { x: 8, y: 8, z: 8 };
    let f = FDTD::new([10, 20, 30], BoundaryCondition::PEC, w, SliceMode::Z, FieldType::E).unwrap();
    assert!(f.pml.is_none());
    let stencil = |field| Dispatch {
        kernel: Kernel::Update,
        field,
        region: None,
        offset: (0, 0, 0),
        workgroups: (2, 3, 4),
    };
    assert_eq!(f.update_magnetic_field(), vec![stencil(FieldType::H)]);
    assert_eq!(f.update_electric_field(), vec![stencil(FieldType::E)]);
    assert_eq!(f.update_push_constants(), [10, 20, 30, 0]);
    let m = FDTD::new([10, 20, 30], BoundaryCondition::PMC, w, SliceMode::Z, FieldType::E).unwrap();
    assert_eq!(m.update_push_constants(), [10, 20, 30, 1]);
}

#[test]
fn absorbing_half_step_runs_the_stencil_then_the_halo() {
    let w = WorkgroupSettings { x: 8, y: 8, z: 8 };
    let f = FDTD::new([100, 100, 100], BoundaryCondition::PML { cells: 8 }, w, SliceMode::Z, FieldType::E)
        .unwrap();
    let plan = f.update_electric_field();
    assert_eq!(plan.len(), 53);
    assert_eq!(
        plan[0],
        Dispatch {
            kernel: Kernel::Update,
            field: FieldType::E,
            region: None,
            offset: (0, 0, 0),
            workgroups: (15, 15, 15),
        }
    );
    let halo = f.pml.unwrap().update_electric_field();
    assert_eq!(&plan[1..], &halo[..]);
    assert_eq!(f.get_dimension(), [116, 116, 116]);
    assert_eq!(f.update_push_constants(), [116, 116, 116, 0]);
    let magnetic = f.update_magnetic_field();
    assert_eq!(magnetic.len(), 53);
    assert!(magnetic.iter().all(|d| d.field == FieldType::H));
}

#[test]
fn volume_source_covers_its_box() {
    let w = WorkgroupSettings { x: 8, y: 4, z: 2 };
    let f = FDTD::new([100, 100, 100], BoundaryCondition::PML { cells: 8 }, w, SliceMode::Z, FieldType::E)
        .unwrap();
    let d = f.excite_electric_field_volume([58, 58, 58], [1, 9, 5]);
    assert_eq!(
        d,
        Dispatch {
            kernel: Kernel::ExciteVolume,
            field: FieldType::E,
            region: None,
            offset: (58, 58, 58),
            workgroups: (1, 3, 3),
        }
    );
    let h = f.excite_magnetic_field_volume([1, 2, 3], [16, 16, 16]);
    assert_eq!(h.field, FieldType::H);
    assert_eq!(h.kernel, Kernel::ExciteVolume);
    assert_eq!(h.offset, (1, 2, 3));
    assert_eq!(h.workgroups, (2, 4, 8));
}

#[test]
fn modal_source_covers_one_layer_of_the_interior() {
    let w = WorkgroupSettings { x: 8, y: 4, z: 2 };
    let f = FDTD::new([100, 50, 20], BoundaryCondition::PML { cells: 8 }, w, SliceMode::Z, FieldType::E)
        .unwrap();
    let position = f.interior_to_grid([0, 0, 5]).unwrap();
    assert_eq!(position, [8, 8, 13]);
    let d = f.excite_magnetic_field_mode(position);
    assert_eq!(
        d,
        Dispatch {
            kernel: Kernel::ExciteMode,
            field: FieldType::H,
            region: None,
            offset: (8, 8, 13),
            workgroups: (13, 13, 1),
        }
    );
    let e = f.excite_electric_field_mode(position);
    assert_eq!(e.field, FieldType::E);
    assert_eq!(e.workgroups, (13, 13, 1));
    assert_eq!(f.interior_to_grid([u32::MAX, 0, 0]), None);
    assert_eq!(f.interior_to_grid([u32::MAX - 8, 1, 2]), Some([u32::MAX, 9, 10]));
}

#[test]
fn slice_settings_are_kept() {
    let w = WorkgroupSettings { x: 8, y: 8, z: 8 };
    let mut f =
        FDTD::new([10, 20, 30], BoundaryCondition::PML { cells: 1 }, w, SliceMode::Z, FieldType::E).unwrap();
    assert_eq!(f.get_slice_mode(), SliceMode::Z);
    assert_eq!(f.get_field_view_mode(), FieldType::E);
    assert_eq!(f.slice_axis_extent(), 32);
    f.set_slice_mode(SliceMode::X);
    f.set_field_view_mode(FieldType::H);
    assert_eq!(f.get_slice_mode(), SliceMode::X);
    assert_eq!(f.get_field_view_mode(), FieldType::H);
    assert_eq!(f.slice_axis_extent(), 12);
    f.set_slice_mode(SliceMode::Y);
    assert_eq!(f.slice_axis_extent(), 22);
    assert_eq!(f.get_dimension(), [12, 22, 32]);
}

#[test]
fn default_workgroup_is_the_largest_cube_within_the_limit() {
    let cube = |n| WorkgroupSettings::cube_within(n);
    assert_eq!(cube(0), WorkgroupSettings { x: 0, y: 0, z: 0 });
    assert_eq!(cube(1), WorkgroupSettings { x: 1, y: 1, z: 1 });
    assert_eq!(cube(7), WorkgroupSettings { x: 1, y: 1, z: 1 });
    assert_eq!(cube(8), WorkgroupSettings { x: 2, y: 2, z: 2 });
    assert_eq!(cube(256), WorkgroupSettings { x: 6, y: 6, z: 6 });
    assert_eq!(cube(1000), WorkgroupSettings { x: 10, y: 10, z: 10 });
    assert_eq!(cube(1024), WorkgroupSettings { x: 10, y: 10, z: 10 });
    assert_eq!(cube(u32::MAX), WorkgroupSettings { x: 1625, y: 1625, z: 1625 });
    assert_eq!(cube(1024).cache_volume(), 1000);
}

#[test]
fn update_bundles_write_their_field_and_read_the_other() {
    let field = |field, component, writable| Binding::Field { field, component, writable };
    assert_eq!(
        bundle(FieldType::E),
        [
            field(FieldType::E, SliceMode::X, true),
            field(FieldType::E, SliceMode::Y, true),
            field(FieldType::E, SliceMode::Z, true),
            field(FieldType::H, SliceMode::X, false),
            field(FieldType::H, SliceMode::Y, false),
            field(FieldType::H, SliceMode::Z, false),
            Binding::Coefficients { field: FieldType::E },
        ]
    );
    assert_eq!(
        bundle(FieldType::H),
        [
            field(FieldType::H, SliceMode::X, true),
            field(FieldType::H, SliceMode::Y, true),
            field(FieldType::H, SliceMode::Z, true),
            field(FieldType::E, SliceMode::X, false),
            field(FieldType::E, SliceMode::Y, false),
            field(FieldType::E, SliceMode::Z, false),
            Binding::Coefficients { field: FieldType::H },
        ]
    );
}

#[test]
fn errors_name_the_key_at_fault() {
    assert_eq!(SetupError::EmptyDomain.field(), "domain");
    assert_eq!(SetupError::ExtentOverflow.field(), "boundary");
    assert_eq!(SetupError::EmptyWorkgroup.field(), "workgroup");
    assert_eq!(SetupError::VolumeTooLarge.field(), "spatial_step");
}
