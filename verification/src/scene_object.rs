use vstd::prelude::*;
use vstd::pervasive::VecAdditionalExecFns;
use std::collections::HashMap;
use crate::math::float3_eps::{Float3Eps, quant_of};
use crate::math::ieee::{ONE_BITS, POS_ZERO_BITS, float_lt, f32_lt, sqrt_rel};
use crate::math::matrix_4_by_4::{Matrix4, identity_seq, mm_seq, rotate_y_seq, scale_seq};
use crate::math::softfp::{add_bits, mul_bits, f_mul};
use crate::math::vec3::{Vec3, add3, div3, dot3};

verus! {

broadcast use vstd::std_specs::hash::group_hash_axioms;

/// Bit pattern of 1e-8, the threshold under which an accumulated normal is
/// assigned the zero normal instead of being scaled to unit length.
pub const NORMAL_EPS_BITS: u32 = 0x322B_CC77;

/// One vertex entry accumulated during welding: the canonical position
/// (from the first occurrence of its quantization bucket) and the running
/// sum of the normals of all incident faces.
#[derive(Clone, Copy, Debug)]
pub struct VertexData {
    pub pos: Vec3,
    pub normal: Vec3,
}

/// One input triangle of the raw surface: a face normal and three corner
/// positions, duplicated verbatim across faces that share them.
#[derive(Clone, Copy, Debug)]
pub struct RawFace {
    pub normal: Vec3,
    pub v0: Vec3,
    pub v1: Vec3,
    pub v2: Vec3,
}

/// The welding result: deduplicated positions, the matching normalized
/// normals (same length, same indexing) and three indices per input face,
/// all components flattened in x, y, z order.
pub struct IndexedMesh {
    pub positions: Vec<u32>,
    pub normals: Vec<u32>,
    pub indices: Vec<u32>,
}

/// Corner k of a face, in the order the face stores them.
pub open spec fn face_corner(f: RawFace, k: int) -> Vec3 {
    if k == 0 {
        f.v0
    } else if k == 1 {
        f.v1
    } else {
        f.v2
    }
}

/// The position of flat corner j of the face sequence.
pub open spec fn corner_pos(faces: Seq<RawFace>, j: int) -> Vec3 {
    face_corner(faces[j / 3], j % 3)
}

/// The face normal attached to flat corner j.
pub open spec fn corner_norm(faces: Seq<RawFace>, j: int) -> Vec3 {
    faces[j / 3].normal
}

/// The packed quantization key of a position: each coordinate scaled by
/// 1e4 and rounded, the three integers packed into disjoint fields.
pub open spec fn pos_key(p: Vec3) -> int {
    (quant_of(p.x) + 0x8000_0000) + (quant_of(p.y) + 0x8000_0000) * 0x1_0000_0000 + (quant_of(p.z)
        + 0x8000_0000) * 0x1_0000_0000_0000_0000
}

/// The key of flat corner j.
pub open spec fn corner_key(faces: Seq<RawFace>, j: int) -> int {
    pos_key(corner_pos(faces, j))
}

/// The welder's abstract state after some corners have been processed:
/// the distinct keys in first-occurrence order, the canonical position and
/// running normal sum per key, and the emitted index per corner.
pub ghost struct WeldState {
    pub keys: Seq<int>,
    pub pos: Seq<Vec3>,
    pub sums: Seq<Vec3>,
    pub idx: Seq<int>,
}

/// The index of the first occurrence of k in s (s.len() - 1 serves as the
/// fallback arm; welding only applies it when k is the last element).
pub open spec fn key_index(s: Seq<int>, k: int) -> int
    decreases s.len(),
{
    if s.len() == 0 {
        0
    } else if s.drop_last().contains(k) {
        key_index(s.drop_last(), k)
    } else {
        s.len() - 1
    }
}

/// The welder's state before any corner.
pub open spec fn weld_empty() -> WeldState {
    WeldState { keys: Seq::empty(), pos: Seq::empty(), sums: Seq::empty(), idx: Seq::empty() }
}

/// One corner folded into the state: a fresh key appends a vertex whose
/// position is this occurrence and whose sum starts at zero; either way
/// the face normal joins the vertex's sum and the vertex index is emitted.
pub open spec fn weld_step(st: WeldState, k: int, p: Vec3, n: Vec3) -> WeldState {
    let seen = st.keys.contains(k);
    let i = if seen {
        key_index(st.keys, k)
    } else {
        st.keys.len() as int
    };
    let keys2 = if seen {
        st.keys
    } else {
        st.keys.push(k)
    };
    let pos2 = if seen {
        st.pos
    } else {
        st.pos.push(p)
    };
    let sums1 = if seen {
        st.sums
    } else {
        st.sums.push(Vec3 { x: POS_ZERO_BITS, y: POS_ZERO_BITS, z: POS_ZERO_BITS })
    };
    WeldState { keys: keys2, pos: pos2, sums: sums1.update(i, add3(sums1[i], n)), idx: st.idx.push(i) }
}

/// The welder's state after the first j corners of the face sequence.
pub open spec fn weld_state(faces: Seq<RawFace>, j: int) -> WeldState
    decreases j,
{
    if j <= 0 {
        weld_empty()
    } else {
        weld_step(
            weld_state(faces, j - 1),
            corner_key(faces, j - 1),
            corner_pos(faces, j - 1),
            corner_norm(faces, j - 1),
        )
    }
}

/// The finished normal of one vertex: the accumulated sum scaled to unit
/// length when its magnitude exceeds 1e-8, and assigned the zero normal
/// otherwise (the degenerate case: an isolated vertex, or face normals
/// that cancel).
pub open spec fn normal_finished(sum: Vec3, out: Vec3) -> bool {
    exists|len: u32|
        #[trigger] sqrt_rel(dot3(sum, sum), len) && out == (if float_lt(NORMAL_EPS_BITS, len) {
            div3(sum, len)
        } else {
            Vec3 { x: POS_ZERO_BITS, y: POS_ZERO_BITS, z: POS_ZERO_BITS }
        })
}

/// The vector stored at slot i of a flattened component sequence.
pub open spec fn mesh_vec(s: Seq<u32>, i: int) -> Vec3 {
    Vec3 { x: s[3 * i], y: s[3 * i + 1], z: s[3 * i + 2] }
}

/// A first occurrence is found within the sequence and holds the key.
pub proof fn lemma_key_index_in(s: Seq<int>, k: int)
    requires
        s.contains(k),
    ensures
        0 <= key_index(s, k) < s.len(),
        s[key_index(s, k)] == k,
    decreases s.len(),
{
    if s.drop_last().contains(k) {
        lemma_key_index_in(s.drop_last(), k);
    } else {
        let w = choose|i: int| 0 <= i < s.len() && s[i] == k;
        if w < s.len() - 1 {
            assert(s.drop_last()[w] == k);
            assert(s.drop_last().contains(k));
            assert(false);
        }
    }
}

/// Appending a fresh key leaves earlier first occurrences in place.
pub proof fn lemma_key_index_push(s: Seq<int>, x: int, k: int)
    requires
        s.contains(k),
    ensures
        key_index(s.push(x), k) == key_index(s, k),
{
    assert(s.push(x).drop_last() =~= s);
}

/// A key just appended gets the next index.
pub proof fn lemma_key_index_fresh(s: Seq<int>, x: int)
    requires
        !s.contains(x),
    ensures
        key_index(s.push(x), x) == s.len(),
{
    assert(s.push(x).drop_last() =~= s);
}

/// Shape of the welder's state: as many indices as corners, aligned key,
/// position and sum tables, every emitted index in range, distinct keys,
/// and the key table carrying exactly the keys of the processed corners.
pub proof fn lemma_weld_state_wf(faces: Seq<RawFace>, j: int)
    requires
        0 <= j,
    ensures
        ({
            let st = weld_state(faces, j);
            &&& st.idx.len() == j
            &&& st.pos.len() == st.keys.len()
            &&& st.sums.len() == st.keys.len()
            &&& st.keys.len() <= j
            &&& forall|c: int| 0 <= c < j ==> 0 <= #[trigger] st.idx[c] < st.keys.len()
            &&& forall|a: int, b: int|
                0 <= a < b < st.keys.len() ==> #[trigger] st.keys[a] != #[trigger] st.keys[b]
            &&& forall|c: int| 0 <= c < j ==> st.keys.contains(#[trigger] corner_key(faces, c))
            &&& forall|i: int|
                0 <= i < st.keys.len() ==> exists|c: int|
                    0 <= c < j && #[trigger] st.keys[i] == corner_key(faces, c)
        }),
    decreases j,
{
    if j > 0 {
        lemma_weld_state_wf(faces, j - 1);
        let st = weld_state(faces, j - 1);
        let k = corner_key(faces, j - 1);
        if st.keys.contains(k) {
            lemma_key_index_in(st.keys, k);
        } else {
            assert(weld_state(faces, j).keys == st.keys.push(k));
            assert(forall|c: int|
                0 <= c < j - 1 ==> st.keys.push(k).contains(#[trigger] corner_key(faces, c)))
                by {
                assert(forall|kk: int|
                    st.keys.contains(kk) ==> #[trigger] st.keys.push(k).contains(kk)) by {
                    assert forall|kk: int| st.keys.contains(kk) implies #[trigger] st.keys.push(
                        k,
                    ).contains(kk) by {
                        let w = choose|i: int| 0 <= i < st.keys.len() && st.keys[i] == kk;
                        assert(st.keys.push(k)[w] == kk);
                    };
                };
            };
            assert(st.keys.push(k)[st.keys.len() as int] == k);
            assert(st.keys.push(k).contains(k));
        }
    }
}

/// Converts the raw triangle soup into an indexed mesh with smooth,
/// averaged vertex normals: corners are merged by quantized position,
/// every corner's face normal joins its merged vertex's sum, and each sum
/// is scaled to unit length at the end — or assigned the zero normal when
/// its magnitude stays within 1e-8. The output is exactly the welding recurrence `weld_state` run
/// over all corners, with each vertex normal finished by `normal_finished`.
#[verifier::rlimit(100)]
pub fn weld_faces(faces: &Vec<RawFace>) -> (out: IndexedMesh)
    requires
        faces@.len() < 0x1000_0000,
    ensures
        ({
            let st = weld_state(faces@, 3 * faces@.len() as int);
            &&& out.indices@.len() == 3 * faces@.len()
            &&& out.positions@.len() == 3 * st.keys.len()
            &&& out.normals@.len() == 3 * st.keys.len()
            &&& forall|c: int|
                0 <= c < out.indices@.len() ==> #[trigger] out.indices@[c] as int == st.idx[c]
            &&& forall|c: int|
                0 <= c < out.indices@.len() ==> (#[trigger] out.indices@[c] as int)
                    < st.keys.len()
            &&& forall|i: int|
                0 <= i < st.keys.len() ==> #[trigger] mesh_vec(out.positions@, i) == st.pos[i]
            &&& forall|i: int|
                0 <= i < st.keys.len() ==> normal_finished(
                    st.sums[i],
                    #[trigger] mesh_vec(out.normals@, i),
                )
        }),
{
    let n: usize = faces.len();
    let total: usize = 3 * n;
    let mut map: HashMap<u128, u32> = HashMap::new();
    let mut uniq: Vec<VertexData> = Vec::new();
    let mut indices: Vec<u32> = Vec::new();
    let mut j: usize = 0;
    while j < total
        invariant
            total == 3 * faces@.len(),
            total < 0x3000_0000,
            j <= total,
            indices@.len() == j,
            uniq@.len() <= j,
            ({
                let st = weld_state(faces@, j as int);
                &&& uniq@.len() == st.keys.len()
                &&& st.pos.len() == st.keys.len()
                &&& st.sums.len() == st.keys.len()
                &&& forall|i: int|
                    0 <= i < uniq@.len() ==> #[trigger] uniq@[i].pos == st.pos[i]
                        && uniq@[i].normal == st.sums[i]
                &&& forall|c: int| 0 <= c < j ==> #[trigger] indices@[c] as int == st.idx[c]
                &&& forall|ku: u128|
                    #[trigger] map@.contains_key(ku) <==> st.keys.contains(ku as int)
                &&& forall|ku: u128|
                    #[trigger] map@.contains_key(ku) ==> map@[ku] as int == key_index(
                        st.keys,
                        ku as int,
                    )
            }),
        decreases total - j,
    {
        let ghost st = weld_state(faces@, j as int);
        proof {
            lemma_weld_state_wf(faces@, j as int);
        }
        let fi: usize = j / 3;
        let ci: usize = j % 3;
        let face: RawFace = faces[fi];
        let p: Vec3 = if ci == 0 {
            face.v0
        } else if ci == 1 {
            face.v1
        } else {
            face.v2
        };
        let fnorm: Vec3 = face.normal;
        proof {
            assert(p == corner_pos(faces@, j as int));
            assert(fnorm == corner_norm(faces@, j as int));
        }
        let key = Float3Eps::new(p.x, p.y, p.z);
        let packed: u128 = key.pack();
        proof {
            assert(packed as int == pos_key(p));
        }
        let looked_up: Option<u32> = match map.get(&packed) {
            Some(i) => Some(*i),
            None => None,
        };
        let vert_index: u32 = match looked_up {
            Some(i) => {
                proof {
                    assert(st.keys.contains(packed as int));
                    lemma_key_index_in(st.keys, packed as int);
                }
                i
            },
            None => {
                let new_idx: u32 = uniq.len() as u32;
                map.insert(packed, new_idx);
                uniq.push(
                    VertexData {
                        pos: p,
                        normal: Vec3 { x: POS_ZERO_BITS, y: POS_ZERO_BITS, z: POS_ZERO_BITS },
                    },
                );
                new_idx
            },
        };
        let vd: VertexData = uniq[vert_index as usize];
        uniq.set(
            vert_index as usize,
            VertexData { pos: vd.pos, normal: vd.normal.add(&fnorm) },
        );
        indices.push(vert_index);
        proof {
            let k = packed as int;
            let st2 = weld_state(faces@, j as int + 1);
            assert(st2 == weld_step(st, corner_key(faces@, j as int), corner_pos(faces@, j as int),
                corner_norm(faces@, j as int)));
            if st.keys.contains(k) {
                lemma_key_index_in(st.keys, k);
            } else {
                lemma_key_index_fresh(st.keys, k);
                assert(forall|kk: int|
                    st.keys.contains(kk) ==> #[trigger] st.keys.push(k).contains(kk)) by {
                    assert forall|kk: int| st.keys.contains(kk) implies #[trigger] st.keys.push(
                        k,
                    ).contains(kk) by {
                        let w = choose|i: int| 0 <= i < st.keys.len() && st.keys[i] == kk;
                        assert(st.keys.push(k)[w] == kk);
                    };
                };
                assert(st.keys.push(k)[st.keys.len() as int] == k);
                assert(forall|kk: int|
                    #[trigger] st.keys.push(k).contains(kk) ==> st.keys.contains(kk) || kk == k)
                    by {
                    assert forall|kk: int| #[trigger] st.keys.push(k).contains(kk) implies st
                        .keys.contains(kk) || kk == k by {
                        let w = choose|i: int|
                            0 <= i < st.keys.push(k).len() && st.keys.push(k)[i] == kk;
                        if w < st.keys.len() {
                            assert(st.keys[w] == kk);
                        }
                    };
                };
                assert(forall|kk: int|
                    st.keys.contains(kk) ==> #[trigger] key_index(st.keys.push(k), kk)
                        == key_index(st.keys, kk)) by {
                    assert forall|kk: int| st.keys.contains(kk) implies #[trigger] key_index(
                        st.keys.push(k),
                        kk,
                    ) == key_index(st.keys, kk) by {
                        lemma_key_index_push(st.keys, k, kk);
                    };
                };
            }
        }
        j = j + 1;
    }
    proof {
        lemma_weld_state_wf(faces@, total as int);
    }
    // scale every accumulated normal to unit length; a (near) zero sum
    // becomes the zero normal
    let ghost uniq0 = uniq@;
    let mut finished_verts: Vec<VertexData> = Vec::new();
    let mut i: usize = 0;
    while i < uniq.len()
        invariant
            uniq@ == uniq0,
            i <= uniq@.len(),
            finished_verts@.len() == i,
            forall|q: int|
                0 <= q < i ==> #[trigger] finished_verts@[q].pos == uniq0[q].pos
                    && normal_finished(uniq0[q].normal, finished_verts@[q].normal),
        decreases uniq@.len() - i,
    {
        let vd: VertexData = uniq[i];
        let len: u32 = vd.normal.magnitude();
        let finished: Vec3 = if f32_lt(NORMAL_EPS_BITS, len) {
            vd.normal.div(len)
        } else {
            Vec3 { x: POS_ZERO_BITS, y: POS_ZERO_BITS, z: POS_ZERO_BITS }
        };
        proof {
            assert(sqrt_rel(dot3(uniq0[i as int].normal, uniq0[i as int].normal), len));
            assert(normal_finished(uniq0[i as int].normal, finished));
        }
        finished_verts.push(VertexData { pos: vd.pos, normal: finished });
        i = i + 1;
    }
    let uniq = finished_verts;
    // flatten positions and normals, three components per vertex
    let mut positions: Vec<u32> = Vec::new();
    let mut normals: Vec<u32> = Vec::new();
    let mut q: usize = 0;
    while q < uniq.len()
        invariant
            q <= uniq@.len(),
            positions@.len() == 3 * q,
            normals@.len() == 3 * q,
            forall|i2: int|
                0 <= i2 < q ==> #[trigger] mesh_vec(positions@, i2) == uniq@[i2].pos,
            forall|i2: int|
                0 <= i2 < q ==> #[trigger] mesh_vec(normals@, i2) == uniq@[i2].normal,
        decreases uniq@.len() - q,
    {
        let vd: VertexData = uniq[q];
        let ghost p0 = positions@;
        let ghost n0 = normals@;
        positions.push(vd.pos.x);
        positions.push(vd.pos.y);
        positions.push(vd.pos.z);
        normals.push(vd.normal.x);
        normals.push(vd.normal.y);
        normals.push(vd.normal.z);
        proof {
            assert(positions@ =~= p0 + seq![vd.pos.x, vd.pos.y, vd.pos.z]);
            assert(normals@ =~= n0 + seq![vd.normal.x, vd.normal.y, vd.normal.z]);
            assert forall|i2: int| 0 <= i2 < q + 1 implies #[trigger] mesh_vec(positions@, i2)
                == uniq@[i2].pos by {
                if i2 < q {
                    assert(positions@[3 * i2] == p0[3 * i2]);
                    assert(positions@[3 * i2 + 1] == p0[3 * i2 + 1]);
                    assert(positions@[3 * i2 + 2] == p0[3 * i2 + 2]);
                    assert(mesh_vec(p0, i2) == uniq@[i2].pos);
                } else {
                    assert(positions@[3 * i2] == vd.pos.x);
                    assert(positions@[3 * i2 + 1] == vd.pos.y);
                    assert(positions@[3 * i2 + 2] == vd.pos.z);
                }
            };
            assert forall|i2: int| 0 <= i2 < q + 1 implies #[trigger] mesh_vec(normals@, i2)
                == uniq@[i2].normal by {
                if i2 < q {
                    assert(normals@[3 * i2] == n0[3 * i2]);
                    assert(normals@[3 * i2 + 1] == n0[3 * i2 + 1]);
                    assert(normals@[3 * i2 + 2] == n0[3 * i2 + 2]);
                    assert(mesh_vec(n0, i2) == uniq@[i2].normal);
                } else {
                    assert(normals@[3 * i2] == vd.normal.x);
                    assert(normals@[3 * i2 + 1] == vd.normal.y);
                    assert(normals@[3 * i2 + 2] == vd.normal.z);
                }
            };
        }
        q = q + 1;
    }
    proof {
        let st = weld_state(faces@, 3 * faces@.len() as int);
        assert forall|c: int| 0 <= c < indices@.len() implies (#[trigger] indices@[c] as int)
            < st.keys.len() by {
            assert(indices@[c] as int == st.idx[c]);
        };
        assert forall|i2: int| 0 <= i2 < st.keys.len() implies #[trigger] mesh_vec(positions@, i2)
            == st.pos[i2] by {
            assert(mesh_vec(positions@, i2) == uniq@[i2].pos);
            assert(uniq@[i2].pos == uniq0[i2].pos);
        };
        assert forall|i2: int| 0 <= i2 < st.keys.len() implies normal_finished(
            st.sums[i2],
            #[trigger] mesh_vec(normals@, i2),
        ) by {
            assert(mesh_vec(normals@, i2) == uniq@[i2].normal);
            assert(uniq@[i2].pos == uniq0[i2].pos);
            assert(normal_finished(uniq0[i2].normal, uniq@[i2].normal));
            assert(uniq0[i2].normal == st.sums[i2]);
        };
    }
    IndexedMesh { positions, normals, indices }
}

/// One object of the scene: a GPU mesh handle with its index count, a base
/// placement fixed at creation, and the animation state advanced each
/// frame.
pub struct SceneObject {
    pub vao: u32,
    pub index_count: i32,
    pub base_transform: Matrix4,
    pub angle: u32,
    pub angular_speed: u32,
    pub scale_factor: u32,
}

impl SceneObject {
    /// A freshly loaded object: identity placement, no rotation yet, unit
    /// scale.
    pub fn new(vao: u32, index_count: i32) -> (r: SceneObject)
        ensures
            r.vao == vao,
            r.index_count == index_count,
            r.base_transform.wf(),
            r.base_transform.m@ == identity_seq(),
            r.angle == POS_ZERO_BITS,
            r.angular_speed == POS_ZERO_BITS,
            r.scale_factor == ONE_BITS,
    {
        SceneObject {
            vao,
            index_count,
            base_transform: Matrix4::identity(),
            angle: POS_ZERO_BITS,
            angular_speed: POS_ZERO_BITS,
            scale_factor: ONE_BITS,
        }
    }

    /// One frame of animation: the angle grows by angular speed times the
    /// frame delta.
    pub fn advance(&mut self, dt: u32)
        ensures
            final(self).angle == add_bits(old(self).angle, mul_bits(old(self).angular_speed, dt)),
            final(self).vao == old(self).vao,
            final(self).index_count == old(self).index_count,
            final(self).base_transform == old(self).base_transform,
            final(self).angular_speed == old(self).angular_speed,
            final(self).scale_factor == old(self).scale_factor,
    {
        self.angle = crate::math::softfp::f_add(self.angle, f_mul(self.angular_speed, dt));
    }

    /// The render-time model matrix: the base placement, then the rotation
    /// about y by the accumulated angle (its cosine and sine evaluated by
    /// the caller), then the uniform scale — so the base translation is
    /// neither re-scaled nor re-rotated by the animation.
    pub fn model_matrix(&self, cos_angle: u32, sin_angle: u32) -> (r: Matrix4)
        requires
            self.base_transform.wf(),
        ensures
            r.wf(),
            r.m@ == mm_seq(
                mm_seq(self.base_transform.m@, rotate_y_seq(cos_angle, sin_angle)),
                scale_seq(self.scale_factor),
            ),
    {
        let rot = Matrix4::rotate_y(cos_angle, sin_angle);
        let scl = Matrix4::scale(self.scale_factor);
        self.base_transform.multiply(&rot).multiply(&scl)
    }
}

} // verus!
