use cloud_octree::builder::{
    ConstructionError, OctreeInfo, DEFAULT_DENSITY_THRESHOLD, DEFAULT_HALF_SIZE,
    DEFAULT_MAX_DEPTH, DEFAULT_VOXEL_SIZE,
};
use cloud_octree::bindgen::{FromBindgen, IntoBindgen};
use cloud_octree::field::{resolve_sample, DensityField};
use cloud_octree::gpu::GpuSync;
use cloud_octree::math::{Vec3I, FOV_ONE, FOV_MAX};
use cloud_octree::raycast::Ray;
use cloud_octree::{CloudState, DENSITY_ONE};

fn origin() -> Vec3I {
    Vec3I { x: 0, y: 0, z: 0 }
}

/// A configuration that subdivides fully: threshold 0 splits every region
/// whose half-extent still halves exactly.
fn full_info(max_depth: u32, half_size: i64) -> OctreeInfo {
    OctreeInfo {
        max_depth,
        half_size,
        density_threshold: 0,
        generator: DensityField::Constant(5),
    }
}

#[test]
fn build_constant_field_yields_single_leaf() {
    let info = OctreeInfo {
        max_depth: DEFAULT_MAX_DEPTH,
        half_size: DEFAULT_HALF_SIZE,
        density_threshold: DEFAULT_DENSITY_THRESHOLD,
        generator: DensityField::Constant(DENSITY_ONE),
    };
    let tree = info.build().unwrap();
    assert_eq!(tree.len(), 1);
    assert!(tree.node(0).children.is_none());
    assert_eq!(tree.node(0).density, DENSITY_ONE);
    assert_eq!(tree.node(0).half_size, DEFAULT_HALF_SIZE);
    assert!(!tree.node(0).active);
}

#[test]
fn build_max_depth_zero_yields_single_leaf() {
    let tree = full_info(0, 4).build().unwrap();
    assert_eq!(tree.len(), 1);
    assert!(tree.node(0).children.is_none());
}

#[test]
fn build_full_tree_counts() {
    // Depth budget 2 and half-extent 4 subdivide fully: 1 + 8 + 64 nodes.
    let tree = full_info(2, 4).build().unwrap();
    assert_eq!(tree.len(), 73);
    let mut leaves: usize = 0;
    for i in 0..tree.len() {
        if tree.node(i).children.is_none() {
            leaves += 1;
        }
    }
    assert_eq!(leaves, 64);
    assert!(leaves <= 64); // at most 8^max_depth leaves
}

#[test]
fn build_leaf_volumes_tile_root_exactly() {
    let tree = full_info(2, 4).build().unwrap();
    let mut sum: i128 = 0;
    for i in 0..tree.len() {
        let n = tree.node(i);
        if n.children.is_none() {
            let d = 2 * (n.half_size as i128);
            sum += d * d * d;
        }
    }
    let root = 2 * (tree.node(0).half_size as i128);
    assert_eq!(sum, root * root * root);
}

#[test]
fn build_rejects_bad_half_size() {
    let mut info = full_info(2, 4);
    info.half_size = 0;
    assert!(matches!(info.build(), Err(ConstructionError::HalfSizeNotPositive)));
}

#[test]
fn build_rejects_invalid_generator() {
    let mut info = full_info(2, 4);
    info.generator = DensityField::Lookup(Vec::new());
    assert!(matches!(info.build(), Err(ConstructionError::InvalidGenerator)));
}

#[test]
fn build_is_deterministic() {
    let mk = || OctreeInfo {
        max_depth: 3,
        half_size: 8,
        density_threshold: 300_000,
        generator: DensityField::Lookup(vec![0, DENSITY_ONE, 250_000, 900_000]),
    };
    let t1 = mk().build().unwrap();
    let t2 = mk().build().unwrap();
    assert_eq!(t1.len(), t2.len());
    for i in 0..t1.len() {
        let a = t1.node(i);
        let b = t2.node(i);
        assert_eq!(a.index, b.index);
        assert_eq!(a.parent, b.parent);
        assert_eq!(a.children, b.children);
        assert_eq!(a.center, b.center);
        assert_eq!(a.half_size, b.half_size);
        assert_eq!(a.depth, b.depth);
        assert_eq!(a.density, b.density);
        assert_eq!(a.active, b.active);
    }
}

#[test]
fn anomalous_samples_recover_as_fully_dense() {
    assert_eq!(resolve_sample(2_000_000), DENSITY_ONE);
    assert_eq!(resolve_sample(123), 123);
    // A generator whose every raw sample is out of range builds a tree that
    // is fully dense everywhere.
    let info = OctreeInfo {
        max_depth: 1,
        half_size: 2,
        density_threshold: DEFAULT_DENSITY_THRESHOLD,
        generator: DensityField::Lookup(vec![3_000_000]),
    };
    let tree = info.build().unwrap();
    assert_eq!(tree.node(0).density, DENSITY_ONE);
}

#[test]
fn end_to_end_cold_start_then_converged() {
    // half_size 100 world units, depth budget 20, threshold 0.2, voxel 0.05:
    // the build succeeds, the first refinement flips at least the root
    // (camera at the origin), and an identical repeat flips nothing.
    let state = CloudState::new(
        DEFAULT_HALF_SIZE,
        DensityField::Constant(DENSITY_ONE),
    );
    let mut tree = state.unwrap().tree;
    assert!(tree.len() >= 1);
    let changed = tree.update(DEFAULT_VOXEL_SIZE, FOV_ONE, origin());
    assert!(changed > 0);
    let again = tree.update(DEFAULT_VOXEL_SIZE, FOV_ONE, origin());
    assert_eq!(again, 0);
}

#[test]
fn update_is_idempotent_on_split_tree() {
    let mut tree = full_info(2, 4).build().unwrap();
    let first = tree.update(0, FOV_ONE, origin());
    assert_eq!(first, 73); // voxel granularity 0 selects every node
    let second = tree.update(0, FOV_ONE, origin());
    assert_eq!(second, 0);
}

#[test]
fn degenerate_fov_selects_coarsest_lod() {
    let mut tree = full_info(2, 4).build().unwrap();
    // A non-positive field of view is clamped to the largest accepted value;
    // with the camera far away nothing is selected.
    let changed = tree.update(
        DEFAULT_VOXEL_SIZE,
        -7,
        Vec3I { x: 1_073_741_824, y: 1_073_741_824, z: 1_073_741_824 },
    );
    assert_eq!(changed, 0);
    for i in 0..tree.len() {
        assert!(!tree.node(i).active);
    }
}

#[test]
fn active_records_follow_traversal_order() {
    let mut tree = full_info(2, 4).build().unwrap();
    tree.update(0, FOV_ONE, origin());
    let recs = tree.active_records();
    assert_eq!(recs.len(), 73);
    for (i, r) in recs.iter().enumerate() {
        assert_eq!(r.index, i);
    }
    assert!(!recs[0].is_leaf);
    assert_eq!(recs[0].half_size, 4);
}

#[test]
fn gpu_sync_grows_and_never_shrinks() {
    let mut tree = full_info(2, 4).build().unwrap();
    let mut sync = GpuSync::new(0, 1000);
    assert_eq!(sync.capacity(), 64); // minimum initial capacity
    tree.update(0, FOV_ONE, origin());
    let written = sync.sync(&tree).unwrap();
    assert_eq!(written, 73);
    assert_eq!(sync.capacity(), 73);
    // Deselect everything; the capacity must not decrease.
    tree.update(
        DEFAULT_VOXEL_SIZE,
        FOV_MAX,
        Vec3I { x: 1_073_741_824, y: 0, z: 0 },
    );
    let written2 = sync.sync(&tree).unwrap();
    assert_eq!(written2, 0);
    assert_eq!(sync.capacity(), 73);
}

#[test]
fn gpu_sync_reports_capacity_error_and_keeps_stale_buffer() {
    let mut tree = full_info(2, 4).build().unwrap();
    let mut sync = GpuSync::new(0, 64);
    tree.update(0, FOV_ONE, origin());
    assert!(sync.sync(&tree).is_err());
    assert_eq!(sync.capacity(), 64); // unchanged: stale contents render
    // Retried next frame, it fails the same way rather than crashing.
    assert!(sync.sync(&tree).is_err());
}

#[test]
fn raycast_hit_and_miss_by_threshold() {
    // A single leaf of density 1.0 spanning [-h, h]^3.
    let h = DEFAULT_HALF_SIZE;
    let tree = CloudState::new(h, DensityField::Constant(DENSITY_ONE))
        .unwrap()
        .tree;
    let ray = Ray {
        origin: Vec3I { x: -2 * h, y: 0, z: 0 },
        dir: Vec3I { x: 1, y: 0, z: 0 },
    };
    let hit = tree.raycast(&ray, 500_000).expect("dense leaf must be hit");
    assert_eq!(hit.node, 0);
    assert_eq!(hit.t_num, h as i128); // enters the box at t = h
    assert_eq!(hit.t_den, 1);
    assert_eq!(hit.point_x, -(h as i128)); // on the box's near face
    assert_eq!(hit.point_y, 0);
    assert_eq!(hit.point_z, 0);
    // The same ray with a threshold above the density misses.
    assert!(tree.raycast(&ray, 1_100_000).is_none());
}

#[test]
fn raycast_misses_box_off_axis() {
    let tree = full_info(2, 4).build().unwrap();
    let ray = Ray {
        origin: Vec3I { x: -100, y: 50, z: 0 },
        dir: Vec3I { x: 1, y: 0, z: 0 },
    };
    assert!(tree.raycast(&ray, 1).is_none());
    let through = Ray {
        origin: Vec3I { x: -100, y: 1, z: 1 },
        dir: Vec3I { x: 1, y: 0, z: 0 },
    };
    let hit = tree.raycast(&through, 1).expect("ray through the cube hits");
    assert!(tree.node(hit.node).children.is_none());
    assert!(hit.t_num >= 0 && hit.t_den >= 1);
}

#[test]
fn gizmos_filter_by_density() {
    let tree = full_info(2, 4).build().unwrap();
    let all = tree.gizmos(0);
    assert_eq!(all.len(), 73);
    assert_eq!(all[0].half_size, 4);
    let none = tree.gizmos(6);
    assert_eq!(none.len(), 0);
}

#[test]
fn bindgen_round_trips() {
    let v = Vec3I { x: 3, y: -4, z: 5 };
    assert_eq!(v.into_bindgen().from_bindgen(), v);
    let ray = Ray {
        origin: Vec3I { x: 1, y: 2, z: 3 },
        dir: Vec3I { x: -1, y: 0, z: 7 },
    };
    assert_eq!(ray.into_bindgen().from_bindgen(), ray);
    let tree = full_info(1, 2).build().unwrap();
    let recs = {
        let mut t = tree;
        t.update(0, FOV_ONE, origin());
        t.active_records()
    };
    assert_eq!(recs[0].into_bindgen().from_bindgen(), recs[0]);
}
