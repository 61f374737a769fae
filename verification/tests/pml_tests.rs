use grems::grid::Grid;
use grems::pml::{
    psi_channels, Band, Kernel, PMLBoundary, PMLCorner, PMLEdgeX, PMLEdgeY, PMLEdgeZ, PMLSurfaceX,
    PMLSurfaceY, PMLSurfaceZ, Region, RegionKind,
};
use grems::settings::{BoundaryCondition, FieldType, WorkgroupSettings};

fn halo(s: [u32; 3], c: u32, w: u32) -> PMLBoundary {
    let grid = Grid::new(s, BoundaryCondition::PML { cells: c }).unwrap();
    PMLBoundary::new(grid, WorkgroupSettings { x: w, y: w, z: w })
}

#[test]
fn corners_sit_in_the_eight_octants() {
    let p = halo([100, 50, 20], 8, 8);
    let at = |i| p.region_offset(Region { kind: RegionKind::Corner, index: i });
    assert_eq!(at(0), (0, 0, 0));
    assert_eq!(at(1), (108, 0, 0));
    assert_eq!(at(2), (108, 58, 0));
    assert_eq!(at(3), (0, 58, 0));
    assert_eq!(at(4), (0, 0, 28));
    assert_eq!(at(5), (108, 0, 28));
    assert_eq!(at(6), (108, 58, 28));
    assert_eq!(at(7), (0, 58, 28));
    for i in 0..8 {
        assert_eq!(p.region_extent(Region { kind: RegionKind::Corner, index: i }), (8, 8, 8));
    }
}

#[test]
fn faces_lie_against_the_interior() {
    let p = halo([100, 50, 20], 8, 8);
    let at = |kind, i| p.region_offset(Region { kind, index: i });
    assert_eq!(at(RegionKind::SurfaceX, 0), (0, 8, 8));
    assert_eq!(at(RegionKind::SurfaceX, 1), (108, 8, 8));
    assert_eq!(at(RegionKind::SurfaceY, 0), (8, 0, 8));
    assert_eq!(at(RegionKind::SurfaceY, 1), (8, 58, 8));
    assert_eq!(at(RegionKind::SurfaceZ, 0), (8, 8, 0));
    assert_eq!(at(RegionKind::SurfaceZ, 1), (8, 8, 28));
    let ext = |kind| p.region_extent(Region { kind, index: 0 });
    assert_eq!(ext(RegionKind::SurfaceX), (8, 50, 20));
    assert_eq!(ext(RegionKind::SurfaceY), (100, 8, 20));
    assert_eq!(ext(RegionKind::SurfaceZ), (100, 50, 8));
}

#[test]
fn edges_run_along_their_axis() {
    let p = halo([100, 50, 20], 8, 8);
    let at = |kind, i| p.region_offset(Region { kind, index: i });
    assert_eq!(at(RegionKind::EdgeX, 0), (8, 0, 0));
    assert_eq!(at(RegionKind::EdgeX, 1), (8, 0, 28));
    assert_eq!(at(RegionKind::EdgeX, 2), (8, 58, 28));
    assert_eq!(at(RegionKind::EdgeX, 3), (8, 58, 0));
    assert_eq!(at(RegionKind::EdgeY, 0), (0, 8, 0));
    assert_eq!(at(RegionKind::EdgeY, 1), (108, 8, 0));
    assert_eq!(at(RegionKind::EdgeY, 2), (108, 8, 28));
    assert_eq!(at(RegionKind::EdgeY, 3), (0, 8, 28));
    assert_eq!(at(RegionKind::EdgeZ, 0), (0, 0, 8));
    assert_eq!(at(RegionKind::EdgeZ, 1), (108, 0, 8));
    assert_eq!(at(RegionKind::EdgeZ, 2), (108, 58, 8));
    assert_eq!(at(RegionKind::EdgeZ, 3), (0, 58, 8));
    let ext = |kind| p.region_extent(Region { kind, index: 0 });
    assert_eq!(ext(RegionKind::EdgeX), (100, 8, 8));
    assert_eq!(ext(RegionKind::EdgeY), (8, 50, 8));
    assert_eq!(ext(RegionKind::EdgeZ), (8, 8, 20));
}

#[test]
fn auxiliary_arrays_have_the_extent_of_their_region() {
    let s = [100, 50, 20];
    assert_eq!(PMLCorner::new(8).extent, (8, 8, 8));
    assert_eq!(PMLSurfaceX::new(8, s).extent, (8, 50, 20));
    assert_eq!(PMLSurfaceY::new(8, s).extent, (100, 8, 20));
    assert_eq!(PMLSurfaceZ::new(8, s).extent, (100, 50, 8));
    assert_eq!(PMLEdgeX::new(8, s).extent, (100, 8, 8));
    assert_eq!(PMLEdgeY::new(8, s).extent, (8, 50, 8));
    assert_eq!(PMLEdgeZ::new(8, s).extent, (8, 8, 20));
    let p = halo(s, 8, 8);
    assert_eq!(p.corner, PMLCorner::new(8));
    assert_eq!(p.surface_y, PMLSurfaceY::new(8, s));
    assert_eq!(p.edge_z, PMLEdgeZ::new(8, s));
}

#[test]
fn channel_counts_follow_the_shape() {
    assert_eq!(psi_channels(RegionKind::Corner), 6);
    assert_eq!(psi_channels(RegionKind::SurfaceX), 2);
    assert_eq!(psi_channels(RegionKind::SurfaceY), 2);
    assert_eq!(psi_channels(RegionKind::SurfaceZ), 2);
    assert_eq!(psi_channels(RegionKind::EdgeX), 4);
    assert_eq!(psi_channels(RegionKind::EdgeY), 4);
    assert_eq!(psi_channels(RegionKind::EdgeZ), 4);
}

#[test]
fn regions_come_in_the_fixed_order() {
    let kinds = [
        (RegionKind::Corner, 8),
        (RegionKind::SurfaceX, 2),
        (RegionKind::SurfaceY, 2),
        (RegionKind::SurfaceZ, 2),
        (RegionKind::EdgeX, 4),
        (RegionKind::EdgeY, 4),
        (RegionKind::EdgeZ, 4),
    ];
    let mut n = 0;
    for (kind, count) in kinds {
        for index in 0..count {
            assert_eq!(Region::at(n), Region { kind, index });
            n += 1;
        }
    }
    assert_eq!(n, 26);
    assert_eq!(
        Region { kind: RegionKind::EdgeY, index: 2 }.locate(),
        (Band::Far, Band::Inner, Band::Far)
    );
}

#[test]
fn half_step_updates_then_corrects_each_region() {
    let p = halo([100, 50, 20], 8, 8);
    let plan = p.update_electric_field();
    assert_eq!(plan.len(), 52);
    for (i, d) in plan.iter().enumerate() {
        let r = Region::at((i / 2) as u32);
        assert_eq!(d.region, Some(r));
        assert_eq!(d.field, FieldType::E);
        assert_eq!(d.kernel, if i % 2 == 0 { Kernel::PsiUpdate } else { Kernel::FieldCorrection });
        assert_eq!(d.offset, p.region_offset(r));
    }
    assert_eq!(plan[0].workgroups, (1, 1, 1));
    assert_eq!(plan[16].workgroups, (1, 7, 3));
    assert_eq!(plan[20].workgroups, (13, 1, 3));
    assert_eq!(plan[24].workgroups, (13, 7, 1));
    assert_eq!(plan[28].workgroups, (13, 1, 1));
    assert_eq!(plan[36].workgroups, (1, 7, 1));
    assert_eq!(plan[44].workgroups, (1, 1, 3));
    let magnetic = p.update_magnetic_field();
    assert_eq!(magnetic.len(), 52);
    for (e, h) in plan.iter().zip(magnetic.iter()) {
        assert_eq!(h.field, FieldType::H);
        assert_eq!((e.kernel, e.region, e.offset, e.workgroups), (h.kernel, h.region, h.offset, h.workgroups));
    }
}

#[test]
fn workgroups_follow_the_configured_shape() {
    let grid = Grid::new([100, 50, 20], BoundaryCondition::PML { cells: 8 }).unwrap();
    let p = PMLBoundary::new(grid, WorkgroupSettings { x: 4, y: 2, z: 16 });
    let plan = p.update_magnetic_field();
    assert_eq!(plan[0].workgroups, (2, 4, 1));
    assert_eq!(plan[16].workgroups, (2, 25, 2));
}

#[test]
fn every_cell_is_interior_or_in_one_region() {
    let p = halo([3, 4, 5], 2, 8);
    let g = p.grid;
    let d = g.dimension();
    for x in 0..d[0] {
        for y in 0..d[1] {
            for z in 0..d[2] {
                let mut owners = 0;
                for n in 0..26 {
                    let r = Region::at(n);
                    let o = p.region_offset(r);
                    let e = p.region_extent(r);
                    if x >= o.0 && x < o.0 + e.0 && y >= o.1 && y < o.1 + e.1 && z >= o.2 && z < o.2 + e.2 {
                        owners += 1;
                    }
                }
                if g.is_interior(x, y, z) {
                    assert_eq!(owners, 0);
                } else {
                    assert_eq!(owners, 1);
                }
            }
        }
    }
}
