use rust_engine::math::float3_eps::{Float3Eps, SCALE_BITS};
use rust_engine::math::vec3::Vec3;
use rust_engine::scene_object::{IndexedMesh, RawFace, weld_faces, NORMAL_EPS_BITS};

fn v(x: f32, y: f32, z: f32) -> Vec3 {
    Vec3::new(x.to_bits(), y.to_bits(), z.to_bits())
}

fn face(n: Vec3, a: Vec3, b: Vec3, c: Vec3) -> RawFace {
    RawFace { normal: n, v0: a, v1: b, v2: c }
}

fn positions_of(mesh: &IndexedMesh) -> Vec<[u32; 3]> {
    let mut out = Vec::new();
    for i in 0..mesh.positions.len() / 3 {
        out.push([
            mesh.positions[3 * i],
            mesh.positions[3 * i + 1],
            mesh.positions[3 * i + 2],
        ]);
    }
    out
}

fn normals_of(mesh: &IndexedMesh) -> Vec<[u32; 3]> {
    let mut out = Vec::new();
    for i in 0..mesh.normals.len() / 3 {
        out.push([mesh.normals[3 * i], mesh.normals[3 * i + 1], mesh.normals[3 * i + 2]]);
    }
    out
}

fn cube_faces() -> Vec<RawFace> {
    let p = [
        v(-1.0, -1.0, -1.0),
        v(1.0, -1.0, -1.0),
        v(1.0, 1.0, -1.0),
        v(-1.0, 1.0, -1.0),
        v(-1.0, -1.0, 1.0),
        v(1.0, -1.0, 1.0),
        v(1.0, 1.0, 1.0),
        v(-1.0, 1.0, 1.0),
    ];
    vec![
        face(v(0.0, 0.0, -1.0), p[0], p[2], p[1]),
        face(v(0.0, 0.0, -1.0), p[0], p[3], p[2]),
        face(v(0.0, 0.0, 1.0), p[4], p[5], p[6]),
        face(v(0.0, 0.0, 1.0), p[4], p[6], p[7]),
        face(v(-1.0, 0.0, 0.0), p[0], p[4], p[7]),
        face(v(-1.0, 0.0, 0.0), p[0], p[7], p[3]),
        face(v(1.0, 0.0, 0.0), p[1], p[2], p[6]),
        face(v(1.0, 0.0, 0.0), p[1], p[6], p[5]),
        face(v(0.0, -1.0, 0.0), p[0], p[1], p[5]),
        face(v(0.0, -1.0, 0.0), p[0], p[5], p[4]),
        face(v(0.0, 1.0, 0.0), p[3], p[7], p[6]),
        face(v(0.0, 1.0, 0.0), p[3], p[6], p[2]),
    ]
}

#[test]
fn test_weld_index_shape() {
    // three indices per face, every index within the unique vertex table
    let faces = cube_faces();
    let mesh = weld_faces(&faces);
    assert_eq!(mesh.indices.len(), 3 * faces.len());
    assert_eq!(mesh.indices.len() % 3, 0);
    assert_eq!(mesh.positions.len(), mesh.normals.len());
    let unique = mesh.positions.len() / 3;
    for &ix in mesh.indices.iter() {
        assert!((ix as usize) < unique);
    }
}

#[test]
fn test_cube_welds_to_eight_vertices() {
    let faces = cube_faces();
    let mesh = weld_faces(&faces);
    assert_eq!(mesh.positions.len(), 24);  // 8 unique vertices
    assert_eq!(mesh.indices.len(), 36);
}

#[test]
fn test_cube_with_per_face_corners_welds_to_twenty_four() {
    // shift each face's corners along by a face-specific offset so that no
    // two faces share a quantization bucket: each face keeps its own four
    // corners and nothing merges across faces
    let base = cube_faces();
    let mut faces = Vec::new();
    for (i, f) in base.iter().enumerate() {
        let offset = 0.001 * (1.0 + i as f32 / 2.0).floor();
        let shift = |p: Vec3| -> Vec3 {
            v(
                f32::from_bits(p.x) + offset,
                f32::from_bits(p.y) + offset,
                f32::from_bits(p.z) + offset,
            )
        };
        faces.push(face(f.normal, shift(f.v0), shift(f.v1), shift(f.v2)));
    }
    let mesh = weld_faces(&faces);
    assert_eq!(mesh.positions.len(), 24 * 3);  // 4 unique corners per cube face
}

#[test]
fn test_cube_normals_are_unit() {
    // every welded normal of the cube is nonzero, and unit within 1e-6
    let mesh = weld_faces(&cube_faces());
    let normals = normals_of(&mesh);
    assert_eq!(normals.len(), 8);
    for n in normals {
        let (x, y, z) = (
            f32::from_bits(n[0]),
            f32::from_bits(n[1]),
            f32::from_bits(n[2]),
        );
        let mag = (x * x + y * y + z * z).sqrt();
        assert!(mag != 0.0);
        assert!((mag - 1.0).abs() < 1e-6);
    }
}

#[test]
fn test_sliver_cancelling_normals() {
    // two triangles share an edge and carry exactly opposite normals: the
    // two shared vertices sum to the zero normal and keep it; the other
    // two vertices keep their single unit face normal
    let a = v(0.0, 0.0, 0.0);
    let b = v(1.0, 0.0, 0.0);
    let c = v(0.0, 1.0, 0.0);
    let d = v(0.0, -1.0, 0.0);
    let faces = vec![
        face(v(0.0, 0.0, 1.0), a, b, c),
        face(v(0.0, 0.0, -1.0), a, b, d),
    ];
    let mesh = weld_faces(&faces);
    assert_eq!(mesh.positions.len(), 12);  // four unique vertices
    assert_eq!(mesh.indices, vec![0, 1, 2, 0, 1, 3]);
    let normals = normals_of(&mesh);
    let as_f = |n: [u32; 3]| -> [f32; 3] {
        [f32::from_bits(n[0]), f32::from_bits(n[1]), f32::from_bits(n[2])]
    };
    assert_eq!(as_f(normals[0]), [0.0, 0.0, 0.0]);
    assert_eq!(as_f(normals[1]), [0.0, 0.0, 0.0]);
    assert_eq!(as_f(normals[2]), [0.0, 0.0, 1.0]);
    assert_eq!(as_f(normals[3]), [0.0, 0.0, -1.0]);
}

#[test]
fn test_weld_order_invariant_sets() {
    // reversing the face order yields the same set of unique positions and
    // (here, where all the sums are exact) the same set of normals
    let faces = cube_faces();
    let mut reversed = faces.clone();
    reversed.reverse();
    let m1 = weld_faces(&faces);
    let m2 = weld_faces(&reversed);
    let mut p1 = positions_of(&m1);
    let mut p2 = positions_of(&m2);
    p1.sort();
    p2.sort();
    assert_eq!(p1, p2);
    let mut n1 = normals_of(&m1);
    let mut n2 = normals_of(&m2);
    n1.sort();
    n2.sort();
    assert_eq!(n1, n2);
}

#[test]
fn test_positions_within_half_bucket_weld() {
    // all coordinates differ by less than 5e-5 and stay inside one rounding
    // bucket, so the two occurrences weld; the first position is kept
    let a = v(0.00001, 0.0, 0.0);
    let b = v(0.00004, 0.00003, 0.0);
    let faces = vec![
        face(v(0.0, 0.0, 1.0), a, v(1.0, 0.0, 0.0), v(0.0, 1.0, 0.0)),
        face(v(0.0, 0.0, 1.0), b, v(2.0, 0.0, 0.0), v(0.0, 2.0, 0.0)),
    ];
    let mesh = weld_faces(&faces);
    assert_eq!(mesh.positions.len(), 15);  // five unique vertices, not six
    assert_eq!(mesh.indices[3], 0);  // the near-duplicate reuses vertex 0
    let kept = positions_of(&mesh)[0];
    assert_eq!(kept, [a.x, a.y, a.z]);  // first occurrence wins
}

#[test]
fn test_positions_over_a_bucket_apart_never_weld() {
    // a difference above 1e-4 in one axis always lands in another bucket
    let a = v(0.0, 0.0, 0.0);
    let b = v(0.00015, 0.0, 0.0);
    let faces = vec![
        face(v(0.0, 0.0, 1.0), a, v(1.0, 0.0, 0.0), v(0.0, 1.0, 0.0)),
        face(v(0.0, 0.0, 1.0), b, v(1.0, 0.0, 0.0), v(0.0, 1.0, 0.0)),
    ];
    let mesh = weld_faces(&faces);
    assert_eq!(mesh.positions.len(), 12);  // a and b stay separate
}

#[test]
fn test_quantized_key_matches_hardware() {
    let samples = [0.0f32, 1.0, -1.0, 0.123456, -98.7654, 5e-5, -5e-5, 3.14159, 1e7];
    for &x in samples.iter() {
        let k = Float3Eps::new(x.to_bits(), (2.0 * x).to_bits(), (-x).to_bits());
        assert_eq!(k.x, (x * 1e4).round() as i32);
        assert_eq!(k.y, (2.0 * x * 1e4).round() as i32);
        assert_eq!(k.z, (-x * 1e4).round() as i32);
    }
}

#[test]
fn test_quantized_key_saturates() {
    let k = Float3Eps::new(1e30f32.to_bits(), (-1e30f32).to_bits(), f32::INFINITY.to_bits());
    assert_eq!(k.x, i32::MAX);
    assert_eq!(k.y, i32::MIN);
    assert_eq!(k.z, i32::MAX);
    let nan = Float3Eps::new(f32::NAN.to_bits(), 0.0f32.to_bits(), 0.0f32.to_bits());
    assert_eq!(nan.x, 0);
}

#[test]
fn test_scale_constant() {
    assert_eq!(SCALE_BITS, 1e4f32.to_bits());
    assert_eq!(NORMAL_EPS_BITS, 1e-8f32.to_bits());
}

#[test]
fn test_weld_matches_reference_welder() {
    // the same welding algorithm written directly over host floats gives
    // bit-identical positions, normals and indices
    let faces = cube_faces();
    let mesh = weld_faces(&faces);

    let mut map: std::collections::HashMap<(i32, i32, i32), u32> = std::collections::HashMap::new();
    let mut positions: Vec<f32> = Vec::new();
    let mut normals: Vec<f32> = Vec::new();
    let mut indices: Vec<u32> = Vec::new();
    let mut sums: Vec<[f32; 3]> = Vec::new();
    for fc in &faces {
        let fnorm = [
            f32::from_bits(fc.normal.x),
            f32::from_bits(fc.normal.y),
            f32::from_bits(fc.normal.z),
        ];
        for corner in [fc.v0, fc.v1, fc.v2] {
            let p = [
                f32::from_bits(corner.x),
                f32::from_bits(corner.y),
                f32::from_bits(corner.z),
            ];
            let key = (
                (p[0] * 1e4).round() as i32,
                (p[1] * 1e4).round() as i32,
                (p[2] * 1e4).round() as i32,
            );
            let idx = if let Some(&i) = map.get(&key) {
                i
            } else {
                let i = sums.len() as u32;
                map.insert(key, i);
                positions.extend_from_slice(&p);
                sums.push([0.0, 0.0, 0.0]);
                i
            };
            for c in 0..3 {
                sums[idx as usize][c] += fnorm[c];
            }
            indices.push(idx);
        }
    }
    for s in &mut sums {
        let length = (s[0] * s[0] + s[1] * s[1] + s[2] * s[2]).sqrt();
        if length > 1e-8 {
            for c in 0..3 {
                s[c] /= length;
            }
        } else {
            *s = [0.0, 0.0, 0.0];
        }
        normals.extend_from_slice(s);
    }

    assert_eq!(mesh.indices, indices);
    let lib_positions: Vec<f32> = mesh.positions.iter().map(|&b| f32::from_bits(b)).collect();
    let lib_normals: Vec<u32> = mesh.normals.clone();
    let ref_normals: Vec<u32> = normals.iter().map(|v| v.to_bits()).collect();
    assert_eq!(lib_positions, positions);
    assert_eq!(lib_normals, ref_normals);
}

#[test]
fn test_sub_threshold_sum_becomes_zero_normal() {
    // a lone face whose normal sums below the 1e-8 threshold: its vertices
    // are assigned the exact zero normal, not the raw tiny sum
    let faces = vec![
        face(v(1e-9, 0.0, 0.0), v(0.0, 0.0, 0.0), v(1.0, 0.0, 0.0), v(0.0, 1.0, 0.0)),
    ];
    let mesh = weld_faces(&faces);
    assert_eq!(mesh.normals.len(), 9);
    for &b in mesh.normals.iter() {
        assert_eq!(f32::from_bits(b), 0.0);
        assert_eq!(b, 0.0f32.to_bits());
    }
}

#[test]
fn test_weld_empty_input() {
    let faces: Vec<RawFace> = Vec::new();
    let mesh = weld_faces(&faces);
    assert_eq!(mesh.positions.len(), 0);
    assert_eq!(mesh.normals.len(), 0);
    assert_eq!(mesh.indices.len(), 0);
}
