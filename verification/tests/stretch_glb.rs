//! The stretch planner, its box semantics, and the scene container layout.

use shapegraph::glb::encode_indices;
use shapegraph::glb::glb_container;
use shapegraph::glb::mesh_buffer;
use shapegraph::glb::pad4;
use shapegraph::stretch::select_cut_faces;
use shapegraph::stretch::shape_stretch;
use shapegraph::stretch::stretch_box;
use shapegraph::stretch::BoxExtent;
use shapegraph::stretch::FaceInfo;
use shapegraph::stretch::Vec3i;

fn v(x: i64, y: i64, z: i64) -> Vec3i {
    Vec3i { x, y, z }
}

/// A 100 x 80 x 60 unit box anchored at the origin, in thousandths.
fn unit_box() -> BoxExtent {
    BoxExtent {
        min: v(0, 0, 0),
        max: v(100_000, 80_000, 60_000),
    }
}

#[test]
fn zero_delta_plans_nothing() {
    let plan = shape_stretch(v(50_000, 40_000, 30_000), v(0, 0, 0));
    assert_eq!(plan.axes.len(), 0);
    assert!(!plan.clean);

    let b = stretch_box(unit_box(), v(50_000, 40_000, 30_000), v(0, 0, 0));
    assert_eq!(b, unit_box());
}

#[test]
fn negative_delta_clamps_to_noop() {
    let cut = v(50_000, 40_000, 30_000);
    let negative = shape_stretch(cut, v(-50_000, -30_000, -10_000));
    let zero = shape_stretch(cut, v(0, 0, 0));
    assert_eq!(negative.axes, zero.axes);
    assert_eq!(negative.clean, zero.clean);

    let b = stretch_box(unit_box(), cut, v(-5_000, -3_000, -1_000));
    assert_eq!(b, unit_box());
}

#[test]
fn stretch_grows_box_extent_by_delta() {
    // Cut an X-by-Y-by-Z box at X/2 and stretch by d: the bounding extent
    // along that axis becomes X+d.
    let cut = v(50_000, 40_000, 30_000);
    let delta = v(50_000, 0, 0);
    let plan = shape_stretch(cut, delta);
    assert_eq!(plan.axes.len(), 1);
    assert_eq!(plan.axes[0].axis, 0);
    assert_eq!(plan.axes[0].cut, 50_000);
    assert_eq!(plan.axes[0].delta, 50_000);
    assert!(plan.clean);

    let b = stretch_box(unit_box(), cut, delta);
    assert_eq!(b.max.x - b.min.x, 150_000);
    assert_eq!(b.max.y - b.min.y, 80_000);
    assert_eq!(b.max.z - b.min.z, 60_000);
}

#[test]
fn stretch_below_box_translates_it() {
    let b = stretch_box(unit_box(), v(-10_000, 0, 0), v(20_000, 0, 0));
    assert_eq!(b.min.x, 20_000);
    assert_eq!(b.max.x, 120_000);
    assert_eq!(b.max.x - b.min.x, 100_000);
}

#[test]
fn stretch_above_box_is_noop() {
    let b = stretch_box(unit_box(), v(200_000, 0, 0), v(20_000, 0, 0));
    assert_eq!(b, unit_box());
}

#[test]
fn stretch_axes_processed_in_fixed_order() {
    let plan = shape_stretch(v(1_000, 2_000, 3_000), v(10, 20, 30));
    assert_eq!(plan.axes.len(), 3);
    assert_eq!(plan.axes[0].axis, 0);
    assert_eq!(plan.axes[1].axis, 1);
    assert_eq!(plan.axes[2].axis, 2);
}

#[test]
fn cut_face_selection_honours_thresholds() {
    let cut = 50_000i64;
    let faces = vec![
        // Qualifies: normal along the axis, centroid on the plane.
        FaceInfo { normal: v(1_000, 0, 0), center: v(50_000, 10_000, 5_000) },
        // Normal component exactly at the threshold: excluded (strict).
        FaceInfo { normal: v(990, 0, 0), center: v(50_000, 0, 0) },
        // Just above the threshold: included.
        FaceInfo { normal: v(-991, 0, 0), center: v(50_001, 0, 0) },
        // Centroid exactly at the tolerance: excluded (strict).
        FaceInfo { normal: v(1_000, 0, 0), center: v(50_100, 0, 0) },
        // Centroid just inside the tolerance: included.
        FaceInfo { normal: v(1_000, 0, 0), center: v(49_901, 0, 0) },
        // Normal perpendicular to the axis: excluded.
        FaceInfo { normal: v(0, 1_000, 0), center: v(50_000, 0, 0) },
    ];
    let selected = select_cut_faces(&faces, 0, cut);
    assert_eq!(selected, vec![0usize, 2, 4]);
}

#[test]
fn scene_container_carries_magic_and_version() {
    let mut json: Vec<u8> = b"{}".to_vec();
    pad4(&mut json, b' ');
    assert_eq!(json.len(), 4);

    let bin: Vec<u8> = vec![1, 2, 3, 4];
    let glb = glb_container(&json, &bin).ok().unwrap();

    assert_eq!(&glb[0..4], b"glTF");
    assert_eq!(u32::from_le_bytes(glb[4..8].try_into().unwrap()), 2);
    assert_eq!(
        u32::from_le_bytes(glb[8..12].try_into().unwrap()) as usize,
        glb.len()
    );
    assert_eq!(u32::from_le_bytes(glb[12..16].try_into().unwrap()), 4);
    assert_eq!(&glb[16..20], b"JSON");
    assert_eq!(&glb[20..24], b"{}  ");
    assert_eq!(u32::from_le_bytes(glb[24..28].try_into().unwrap()), 4);
    assert_eq!(&glb[28..32], b"BIN\0");
    assert_eq!(&glb[32..36], &[1, 2, 3, 4]);
}

#[test]
fn narrow_indices_use_two_bytes() {
    let indices: Vec<u32> = vec![0, 1, 258];
    let (bytes, wide) = encode_indices(&indices, 300);
    assert!(!wide);
    assert_eq!(bytes, vec![0u8, 0, 1, 0, 2, 1]);
}

#[test]
fn wide_indices_use_four_bytes() {
    let indices: Vec<u32> = vec![65_536, 1];
    let (bytes, wide) = encode_indices(&indices, 70_000);
    assert!(wide);
    assert_eq!(bytes, vec![0u8, 0, 1, 0, 1, 0, 0, 0]);
}

#[test]
fn narrow_wide_boundary_is_at_sixteen_bits() {
    let indices: Vec<u32> = vec![0];
    let (_, wide_at_max) = encode_indices(&indices, 65_535);
    assert!(!wide_at_max);
    let (_, wide_above) = encode_indices(&indices, 65_536);
    assert!(wide_above);
}

#[test]
fn buffer_sections_stay_recoverable() {
    let idx: Vec<u8> = vec![1, 2];
    let pos: Vec<u8> = vec![10, 11, 12, 13, 14, 15, 16, 17, 18, 19, 20, 21];
    let edge: Vec<u8> = vec![40, 41, 42, 43];
    let layout = mesh_buffer(&idx, &pos, &edge);

    assert_eq!(layout.idx_len, 2);
    assert_eq!(layout.pos_offset, 4);
    assert_eq!(layout.pos_offset % 4, 0);
    assert_eq!(layout.edge_offset, 16);
    assert_eq!(&layout.data[0..2], &[1, 2]);
    assert_eq!(&layout.data[2..4], &[0, 0]);
    assert_eq!(&layout.data[4..16], pos.as_slice());
    assert_eq!(&layout.data[16..20], edge.as_slice());
}

#[test]
fn scene_document_frames_a_real_json_chunk() {
    let root = gltf_json::Root::default();
    let mut json_bytes = gltf_json::serialize::to_string(&root).unwrap().into_bytes();
    pad4(&mut json_bytes, b' ');
    let mut bin: Vec<u8> = Vec::new();
    pad4(&mut bin, 0);

    let glb = glb_container(&json_bytes, &bin).ok().unwrap();
    assert_eq!(&glb[0..4], b"glTF");
    assert_eq!(u32::from_le_bytes(glb[4..8].try_into().unwrap()), 2);

    let json_len = u32::from_le_bytes(glb[12..16].try_into().unwrap()) as usize;
    let chunk = &glb[20..20 + json_len];
    let parsed: serde_json::Value = serde_json::from_slice(chunk).unwrap();
    assert_eq!(parsed["asset"]["version"].as_str(), Some("2.0"));
}
