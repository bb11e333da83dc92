use vstd::prelude::*;
use crate::math::vec3::Vec3;
use vstd::multiset::Multiset;
use crate::math::ieee::POS_ZERO_BITS;
use crate::math::vec3::add3;
use crate::scene_object::{RawFace, corner_key, corner_norm, corner_pos, key_index, lemma_key_index_in, pos_key,
    lemma_weld_state_wf, weld_state};

verus! {

/// Each emitted index points at the vertex whose key is that corner's key.
pub proof fn lemma_weld_index_key(faces: Seq<RawFace>, j: int)
    requires
        0 <= j,
    ensures
        ({
            let st = weld_state(faces, j);
            forall|c: int|
                0 <= c < j ==> st.keys[#[trigger] st.idx[c]] == corner_key(faces, c)
        }),
    decreases j,
{
    if j > 0 {
        lemma_weld_index_key(faces, j - 1);
        lemma_weld_state_wf(faces, j - 1);
        let st = weld_state(faces, j - 1);
        let st2 = weld_state(faces, j);
        let k = corner_key(faces, j - 1);
        if st.keys.contains(k) {
            lemma_key_index_in(st.keys, k);
            assert forall|c: int| 0 <= c < j implies st2.keys[#[trigger] st2.idx[c]]
                == corner_key(faces, c) by {
                if c < j - 1 {
                    assert(st2.idx[c] == st.idx[c]);
                    assert(st.keys[st.idx[c]] == corner_key(faces, c));
                } else {
                    assert(st2.idx[c] == key_index(st.keys, k));
                }
            };
        } else {
            assert(st2.keys == st.keys.push(k));
            assert forall|c: int| 0 <= c < j implies st2.keys[#[trigger] st2.idx[c]]
                == corner_key(faces, c) by {
                if c < j - 1 {
                    assert(st2.idx[c] == st.idx[c]);
                    assert(0 <= st.idx[c] < st.keys.len());
                    assert(st2.keys[st.idx[c]] == st.keys[st.idx[c]]);
                    assert(st.keys[st.idx[c]] == corner_key(faces, c));
                } else {
                    assert(st2.idx[c] == st.keys.len());
                    assert(st2.keys[st.keys.len() as int] == k);
                }
            };
        }
    }
}

/// Two corners weld to the same vertex index exactly when their quantized
/// keys agree: welding merges by bucket and by nothing else.
pub proof fn lemma_weld_merges_iff_same_key(faces: Seq<RawFace>, c: int, d: int)
    requires
        0 <= c < 3 * faces.len(),
        0 <= d < 3 * faces.len(),
    ensures
        ({
            let st = weld_state(faces, 3 * faces.len() as int);
            st.idx[c] == st.idx[d] <==> corner_key(faces, c) == corner_key(faces, d)
        }),
{
    let st = weld_state(faces, 3 * faces.len() as int);
    lemma_weld_state_wf(faces, 3 * faces.len() as int);
    lemma_weld_index_key(faces, 3 * faces.len() as int);
    assert(st.keys[st.idx[c]] == corner_key(faces, c));
    assert(st.keys[st.idx[d]] == corner_key(faces, d));
    if corner_key(faces, c) == corner_key(faces, d) && st.idx[c] != st.idx[d] {
        // distinct slots hold distinct keys
        assert(0 <= st.idx[c] < st.keys.len());
        assert(0 <= st.idx[d] < st.keys.len());
        assert(false);
    }
}

/// Every welded key and its canonical position come from one corner: the
/// first occurrence of the key, whose position was copied verbatim.
pub proof fn lemma_weld_pos_sources(faces: Seq<RawFace>, j: int)
    requires
        0 <= j,
    ensures
        ({
            let st = weld_state(faces, j);
            forall|i: int|
                0 <= i < st.keys.len() ==> exists|c: int|
                    0 <= c < j && (#[trigger] st.keys[i]) == corner_key(faces, c) && st.pos[i]
                        == corner_pos(faces, c)
        }),
    decreases j,
{
    if j > 0 {
        lemma_weld_pos_sources(faces, j - 1);
        lemma_weld_state_wf(faces, j - 1);
        let st = weld_state(faces, j - 1);
        let st2 = weld_state(faces, j);
        let k = corner_key(faces, j - 1);
        if st.keys.contains(k) {
            assert(st2.keys == st.keys && st2.pos == st.pos);
            assert forall|i: int| 0 <= i < st2.keys.len() implies exists|c: int|
                0 <= c < j && (#[trigger] st2.keys[i]) == corner_key(faces, c) && st2.pos[i]
                    == corner_pos(faces, c) by {
                let c = choose|c: int|
                    0 <= c < j - 1 && (#[trigger] st.keys[i]) == corner_key(faces, c) && st.pos[i]
                        == corner_pos(faces, c);
                assert(0 <= c < j && st2.keys[i] == corner_key(faces, c) && st2.pos[i]
                    == corner_pos(faces, c));
            };
        } else {
            assert(st2.keys == st.keys.push(k));
            assert(st2.pos == st.pos.push(corner_pos(faces, j - 1)));
            assert forall|i: int| 0 <= i < st2.keys.len() implies exists|c: int|
                0 <= c < j && (#[trigger] st2.keys[i]) == corner_key(faces, c) && st2.pos[i]
                    == corner_pos(faces, c) by {
                if i < st.keys.len() {
                    let c = choose|c: int|
                        0 <= c < j - 1 && (#[trigger] st.keys[i]) == corner_key(faces, c)
                            && st.pos[i] == corner_pos(faces, c);
                    assert(st2.keys[i] == st.keys[i] && st2.pos[i] == st.pos[i]);
                    assert(0 <= c < j && st2.keys[i] == corner_key(faces, c) && st2.pos[i]
                        == corner_pos(faces, c));
                } else {
                    assert(st2.keys[i] == k && st2.pos[i] == corner_pos(faces, j - 1));
                    assert(0 <= j - 1 < j && st2.keys[i] == corner_key(faces, j - 1) && st2.pos[i]
                        == corner_pos(faces, j - 1));
                }
            };
        }
    }
}

/// The face normals a single face contributes to one quantization bucket:
/// one copy per corner of the face whose key is k.
pub open spec fn face_contrib(f: RawFace, k: int) -> Multiset<Vec3> {
    let m0 = Multiset::<Vec3>::empty();
    let m1 = if pos_key(f.v0) == k {
        m0.insert(f.normal)
    } else {
        m0
    };
    let m2 = if pos_key(f.v1) == k {
        m1.insert(f.normal)
    } else {
        m1
    };
    if pos_key(f.v2) == k {
        m2.insert(f.normal)
    } else {
        m2
    }
}

/// All the face normals the face list contributes to one quantization
/// bucket, as a multiset: exactly what the welder accumulates into that
/// bucket's vertex, without the arrival order.
pub open spec fn bucket_contribs(faces: Seq<RawFace>, k: int) -> Multiset<Vec3>
    decreases faces.len(),
{
    if faces.len() == 0 {
        Multiset::empty()
    } else {
        bucket_contribs(faces.drop_last(), k).add(face_contrib(faces.last(), k))
    }
}

/// Removing one face takes exactly its own contribution out of a bucket.
proof fn lemma_contribs_remove(s: Seq<RawFace>, i: int, k: int)
    requires
        0 <= i < s.len(),
    ensures
        bucket_contribs(s, k) == bucket_contribs(s.remove(i), k).add(face_contrib(s[i], k)),
    decreases s.len(),
{
    broadcast use vstd::multiset::group_multiset_axioms;

    if i == s.len() - 1 {
        assert(s.remove(i) =~= s.drop_last());
    } else {
        lemma_contribs_remove(s.drop_last(), i, k);
        assert(s.remove(i).drop_last() =~= s.drop_last().remove(i));
        assert(s.remove(i).last() == s.last());
        assert(bucket_contribs(s.remove(i), k) == bucket_contribs(s.drop_last().remove(i), k).add(
            face_contrib(s.last(), k),
        ));
        assert(bucket_contribs(s, k) =~= bucket_contribs(s.remove(i), k).add(
            face_contrib(s[i], k),
        ));
    }
}

/// The normals gathered into each quantization bucket do not depend on the
/// order of the faces: a reordered face list feeds every bucket the same
/// multiset of face normals.
pub proof fn lemma_weld_contribs_order_invariant(f1: Seq<RawFace>, f2: Seq<RawFace>, k: int)
    requires
        f1.to_multiset() == f2.to_multiset(),
    ensures
        bucket_contribs(f1, k) == bucket_contribs(f2, k),
    decreases f2.len(),
{
    broadcast use vstd::seq_lib::group_to_multiset_ensures;
    broadcast use vstd::multiset::group_multiset_axioms;

    if f2.len() == 0 {
        vstd::seq_lib::to_multiset_len(f1);
        vstd::seq_lib::to_multiset_len(f2);
        assert(f1.len() == f2.len());
    } else {
        let x = f2.last();
        let f2p = f2.drop_last();
        assert(f2.contains(x));
        assert(f2.to_multiset().count(x) > 0);
        assert(f1.to_multiset().count(x) > 0);
        assert(f1.contains(x));
        let i = choose|i: int| 0 <= i < f1.len() && f1[i] == x;
        let f1p = f1.remove(i);
        assert(f2p =~= f2.remove(f2.len() - 1));
        assert(f1p.to_multiset() == f1.to_multiset().remove(x));
        assert(f2p.to_multiset() == f2.to_multiset().remove(x));
        lemma_weld_contribs_order_invariant(f1p, f2p, k);
        lemma_contribs_remove(f1, i, k);
        assert(bucket_contribs(f2, k) == bucket_contribs(f2p, k).add(face_contrib(x, k)));
    }
}

/// The face normals arriving in one quantization bucket over the first j
/// corners, in arrival order.
pub open spec fn contrib_seq(faces: Seq<RawFace>, j: int, k: int) -> Seq<Vec3>
    decreases j,
{
    if j <= 0 {
        Seq::empty()
    } else {
        let pre = contrib_seq(faces, j - 1, k);
        if corner_key(faces, j - 1) == k {
            pre.push(corner_norm(faces, j - 1))
        } else {
            pre
        }
    }
}

/// The welder's accumulation: IEEE addition folded left to right from the
/// zero vector.
pub open spec fn fold_add3(s: Seq<Vec3>) -> Vec3
    decreases s.len(),
{
    if s.len() == 0 {
        Vec3 { x: POS_ZERO_BITS, y: POS_ZERO_BITS, z: POS_ZERO_BITS }
    } else {
        add3(fold_add3(s.drop_last()), s.last())
    }
}

/// A bucket no corner maps to collects nothing.
proof fn lemma_contrib_seq_empty(faces: Seq<RawFace>, j: int, k: int)
    requires
        0 <= j,
        forall|c: int| 0 <= c < j ==> #[trigger] corner_key(faces, c) != k,
    ensures
        contrib_seq(faces, j, k) == Seq::<Vec3>::empty(),
    decreases j,
{
    if j > 0 {
        lemma_contrib_seq_empty(faces, j - 1, k);
    }
}

/// Every accumulated normal sum is the left-to-right IEEE fold of exactly
/// the face normals that arrived in its vertex's bucket.
pub proof fn lemma_weld_sums_are_bucket_folds(faces: Seq<RawFace>, j: int)
    requires
        0 <= j,
    ensures
        ({
            let st = weld_state(faces, j);
            forall|i: int|
                0 <= i < st.keys.len() ==> #[trigger] st.sums[i] == fold_add3(
                    contrib_seq(faces, j, st.keys[i]),
                )
        }),
    decreases j,
{
    if j > 0 {
        lemma_weld_sums_are_bucket_folds(faces, j - 1);
        lemma_weld_state_wf(faces, j - 1);
        let st = weld_state(faces, j - 1);
        let st2 = weld_state(faces, j);
        let k = corner_key(faces, j - 1);
        let n = corner_norm(faces, j - 1);
        if st.keys.contains(k) {
            lemma_key_index_in(st.keys, k);
            let iu = key_index(st.keys, k);
            assert forall|i: int| 0 <= i < st2.keys.len() implies #[trigger] st2.sums[i]
                == fold_add3(contrib_seq(faces, j, st2.keys[i])) by {
                if i == iu {
                    assert(st2.sums[i] == add3(st.sums[iu], n));
                    assert(contrib_seq(faces, j, k) == contrib_seq(faces, j - 1, k).push(n));
                    assert(contrib_seq(faces, j, k).drop_last() =~= contrib_seq(faces, j - 1, k));
                    assert(st.sums[iu] == fold_add3(contrib_seq(faces, j - 1, k)));
                } else {
                    // distinct keys: this bucket saw nothing new
                    assert(st2.sums[i] == st.sums[i]);
                    assert(st.keys[i] != k);
                    assert(contrib_seq(faces, j, st.keys[i]) == contrib_seq(
                        faces,
                        j - 1,
                        st.keys[i],
                    ));
                }
            };
        } else {
            let iu = st.keys.len() as int;
            assert(st2.keys == st.keys.push(k));
            assert(st2.keys[iu] == k);
            assert forall|i: int| 0 <= i < st2.keys.len() implies #[trigger] st2.sums[i]
                == fold_add3(contrib_seq(faces, j, st2.keys[i])) by {
                let zero = (Vec3 { x: POS_ZERO_BITS, y: POS_ZERO_BITS, z: POS_ZERO_BITS });
                let sums1 = st.sums.push(zero);
                assert(st2.sums == sums1.update(iu, add3(sums1[iu], n)));
                if i == iu {
                    // a fresh bucket: its history so far is empty
                    assert(forall|c: int|
                        0 <= c < j - 1 ==> #[trigger] corner_key(faces, c) != k) by {
                        assert forall|c: int| 0 <= c < j - 1 implies #[trigger] corner_key(
                            faces,
                            c,
                        ) != k by {
                            assert(st.keys.contains(corner_key(faces, c)));
                        };
                    };
                    lemma_contrib_seq_empty(faces, j - 1, k);
                    assert(sums1[iu] == zero);
                    assert(st2.sums[i] == add3(zero, n));
                    assert(st2.keys[i] == k);
                    assert(contrib_seq(faces, j, k) == Seq::<Vec3>::empty().push(n));
                    assert(Seq::<Vec3>::empty().push(n).drop_last() =~= Seq::<Vec3>::empty());
                    assert(Seq::<Vec3>::empty().push(n).last() == n);
                    assert(fold_add3(Seq::<Vec3>::empty().push(n)) == add3(
                        fold_add3(Seq::<Vec3>::empty()),
                        n,
                    ));
                    assert(fold_add3(Seq::<Vec3>::empty()) == zero);
                } else {
                    assert(0 <= i < st.keys.len());
                    assert(sums1[i] == st.sums[i]);
                    assert(st2.sums[i] == st.sums[i]);
                    assert(st2.keys[i] == st.keys[i]);
                    assert(st.keys.contains(st.keys[i]));
                    assert(st.keys[i] != k);
                    assert(st.sums[i] == fold_add3(contrib_seq(faces, j - 1, st.keys[i])));
                    assert(contrib_seq(faces, j, st.keys[i]) == contrib_seq(
                        faces,
                        j - 1,
                        st.keys[i],
                    ));
                }
            };
        }
    }
}

/// Dropping the last face leaves every earlier corner in place.
proof fn lemma_contrib_seq_drop_last(faces: Seq<RawFace>, j: int, k: int)
    requires
        0 <= j <= 3 * (faces.len() - 1),
        faces.len() >= 1,
    ensures
        contrib_seq(faces, j, k) == contrib_seq(faces.drop_last(), j, k),
    decreases j,
{
    if j > 0 {
        lemma_contrib_seq_drop_last(faces, j - 1, k);
        assert((j - 1) / 3 < faces.len() - 1) by (nonlinear_arith)
            requires
                0 <= j - 1,
                j <= 3 * (faces.len() - 1),
        ;
        assert(faces.drop_last()[(j - 1) / 3] == faces[(j - 1) / 3]);
    }
}

/// The arrival sequence of one bucket carries, as a multiset, exactly the
/// bucket's contributions.
pub proof fn lemma_contrib_seq_multiset(faces: Seq<RawFace>, k: int)
    ensures
        contrib_seq(faces, 3 * faces.len() as int, k).to_multiset() == bucket_contribs(faces, k),
    decreases faces.len(),
{
    broadcast use vstd::seq_lib::group_to_multiset_ensures;
    broadcast use vstd::multiset::group_multiset_axioms;

    if faces.len() == 0 {
        assert(contrib_seq(faces, 0, k).to_multiset() =~= Multiset::<Vec3>::empty());
    } else {
        let fs = faces.drop_last();
        let f = faces.last();
        let base = 3 * fs.len() as int;
        lemma_contrib_seq_multiset(fs, k);
        lemma_contrib_seq_drop_last(faces, base, k);
        // the last three corners belong to the last face
        assert((base + 0) / 3 == fs.len() && (base + 0) % 3 == 0) by (nonlinear_arith)
            requires
                base == 3 * fs.len(),
        ;
        assert((base + 1) / 3 == fs.len() && (base + 1) % 3 == 1) by (nonlinear_arith)
            requires
                base == 3 * fs.len(),
        ;
        assert((base + 2) / 3 == fs.len() && (base + 2) % 3 == 2) by (nonlinear_arith)
            requires
                base == 3 * fs.len(),
        ;
        assert(corner_key(faces, base) == pos_key(f.v0) && corner_norm(faces, base) == f.normal);
        assert(corner_key(faces, base + 1) == pos_key(f.v1) && corner_norm(faces, base + 1)
            == f.normal);
        assert(corner_key(faces, base + 2) == pos_key(f.v2) && corner_norm(faces, base + 2)
            == f.normal);
        assert(3 * faces.len() as int == base + 3);
        // each matching corner pushes one copy of the face normal, which is
        // one insert on the multiset side
        let s0 = contrib_seq(faces, base, k);
        let s1 = contrib_seq(faces, base + 1, k);
        let s2 = contrib_seq(faces, base + 2, k);
        let s3 = contrib_seq(faces, base + 3, k);
        assert(s0.to_multiset() == bucket_contribs(fs, k));
        vstd::seq_lib::to_multiset_build(s0, f.normal);
        assert(s1.to_multiset() == (if pos_key(f.v0) == k {
            s0.to_multiset().insert(f.normal)
        } else {
            s0.to_multiset()
        }));
        vstd::seq_lib::to_multiset_build(s1, f.normal);
        assert(s2.to_multiset() == (if pos_key(f.v1) == k {
            s1.to_multiset().insert(f.normal)
        } else {
            s1.to_multiset()
        }));
        vstd::seq_lib::to_multiset_build(s2, f.normal);
        assert(s3.to_multiset() == (if pos_key(f.v2) == k {
            s2.to_multiset().insert(f.normal)
        } else {
            s2.to_multiset()
        }));
        let m0 = Multiset::<Vec3>::empty();
        let m1 = if pos_key(f.v0) == k { m0.insert(f.normal) } else { m0 };
        let m2 = if pos_key(f.v1) == k { m1.insert(f.normal) } else { m1 };
        let m3 = if pos_key(f.v2) == k { m2.insert(f.normal) } else { m2 };
        assert(face_contrib(f, k) == m3);
        assert(s3.to_multiset() =~= bucket_contribs(fs, k).add(m3));
        assert(bucket_contribs(faces, k) == bucket_contribs(fs, k).add(face_contrib(f, k)));
    }
}

/// Face order cannot change what a welded vertex accumulates, only the
/// order of accumulation: when two orderings of the same faces weld a
/// bucket, each resulting normal sum is the left-to-right IEEE fold of a
/// sequence of face normals, and the two sequences hold the same multiset.
/// Only the IEEE rounding of the fold may differ between the two orders.
pub proof fn lemma_weld_normal_sums_order_invariant(
    f1: Seq<RawFace>,
    f2: Seq<RawFace>,
    i1: int,
    i2: int,
)
    requires
        f1.to_multiset() == f2.to_multiset(),
        ({
            let st1 = weld_state(f1, 3 * f1.len() as int);
            let st2 = weld_state(f2, 3 * f2.len() as int);
            &&& 0 <= i1 < st1.keys.len()
            &&& 0 <= i2 < st2.keys.len()
            &&& st1.keys[i1] == st2.keys[i2]
        }),
    ensures
        ({
            let st1 = weld_state(f1, 3 * f1.len() as int);
            let st2 = weld_state(f2, 3 * f2.len() as int);
            let k = st1.keys[i1];
            &&& st1.sums[i1] == fold_add3(contrib_seq(f1, 3 * f1.len() as int, k))
            &&& st2.sums[i2] == fold_add3(contrib_seq(f2, 3 * f2.len() as int, k))
            &&& contrib_seq(f1, 3 * f1.len() as int, k).to_multiset() == contrib_seq(
                f2,
                3 * f2.len() as int,
                k,
            ).to_multiset()
        }),
{
    let st1 = weld_state(f1, 3 * f1.len() as int);
    let k = st1.keys[i1];
    lemma_weld_sums_are_bucket_folds(f1, 3 * f1.len() as int);
    lemma_weld_sums_are_bucket_folds(f2, 3 * f2.len() as int);
    lemma_contrib_seq_multiset(f1, k);
    lemma_contrib_seq_multiset(f2, k);
    lemma_weld_contribs_order_invariant(f1, f2, k);
}

/// Every two corners that land in the same quantization bucket carry the
/// same (bit-identical) position.
pub open spec fn uniform_positions(faces: Seq<RawFace>) -> bool {
    forall|c: int, d: int|
        0 <= c < 3 * faces.len() && 0 <= d < 3 * faces.len() && #[trigger] corner_key(faces, c)
            == #[trigger] corner_key(faces, d) ==> corner_pos(faces, c) == corner_pos(faces, d)
}

/// A corner of one face list reappears, with its key and position, in any
/// reordering of the list.
proof fn lemma_corner_transfer(f1: Seq<RawFace>, f2: Seq<RawFace>, c: int)
    requires
        f1.to_multiset() == f2.to_multiset(),
        0 <= c < 3 * f1.len(),
    ensures
        exists|c2: int|
            0 <= c2 < 3 * f2.len() && #[trigger] corner_key(f2, c2) == corner_key(f1, c)
                && corner_pos(f2, c2) == corner_pos(f1, c),
{
    broadcast use vstd::seq_lib::group_to_multiset_ensures;

    let fi = c / 3;
    let r = c % 3;
    assert(0 <= fi < f1.len() && 0 <= r < 3) by (nonlinear_arith)
        requires
            0 <= c < 3 * f1.len(),
            fi == c / 3,
            r == c % 3,
    ;
    let fc = f1[fi];
    assert(f1.contains(fc));
    assert(f1.to_multiset().count(fc) > 0);
    assert(f2.to_multiset().count(fc) > 0);
    assert(f2.contains(fc));
    let i2 = choose|i: int| 0 <= i < f2.len() && f2[i] == fc;
    let c2 = 3 * i2 + r;
    assert(c2 / 3 == i2 && c2 % 3 == r) by (nonlinear_arith)
        requires
            c2 == 3 * i2 + r,
            0 <= r < 3,
            0 <= i2,
    ;
    assert(corner_key(f2, c2) == corner_key(f1, c));
    assert(corner_pos(f2, c2) == corner_pos(f1, c));
}

/// Bucket-uniform positions carry over to any reordering of the faces.
proof fn lemma_uniform_transfer(f1: Seq<RawFace>, f2: Seq<RawFace>)
    requires
        f1.to_multiset() == f2.to_multiset(),
        uniform_positions(f1),
    ensures
        uniform_positions(f2),
{
    assert forall|c: int, d: int|
        0 <= c < 3 * f2.len() && 0 <= d < 3 * f2.len() && #[trigger] corner_key(f2, c)
            == #[trigger] corner_key(f2, d) implies corner_pos(f2, c) == corner_pos(f2, d) by {
        lemma_corner_transfer(f2, f1, c);
        lemma_corner_transfer(f2, f1, d);
        let c1 = choose|c1: int|
            0 <= c1 < 3 * f1.len() && #[trigger] corner_key(f1, c1) == corner_key(f2, c)
                && corner_pos(f1, c1) == corner_pos(f2, c);
        let d1 = choose|d1: int|
            0 <= d1 < 3 * f1.len() && #[trigger] corner_key(f1, d1) == corner_key(f2, d)
                && corner_pos(f1, d1) == corner_pos(f2, d);
        assert(corner_pos(f1, c1) == corner_pos(f1, d1));
    };
}

/// Welding does not depend on the order of the faces: a reordered face
/// list welds to the same set of quantization keys and, when corners in
/// the same bucket carry bit-identical positions, to the same set of
/// canonical vertex positions — though each position may receive a
/// different index.
pub proof fn lemma_weld_face_order_invariant(f1: Seq<RawFace>, f2: Seq<RawFace>)
    requires
        f1.to_multiset() == f2.to_multiset(),
        uniform_positions(f1),
    ensures
        ({
            let st1 = weld_state(f1, 3 * f1.len() as int);
            let st2 = weld_state(f2, 3 * f2.len() as int);
            &&& st1.keys.to_set() == st2.keys.to_set()
            &&& st1.pos.to_set() == st2.pos.to_set()
        }),
{
    broadcast use vstd::set::group_set_axioms;

    let st1 = weld_state(f1, 3 * f1.len() as int);
    let st2 = weld_state(f2, 3 * f2.len() as int);
    lemma_weld_state_wf(f1, 3 * f1.len() as int);
    lemma_weld_state_wf(f2, 3 * f2.len() as int);
    lemma_weld_pos_sources(f1, 3 * f1.len() as int);
    lemma_weld_pos_sources(f2, 3 * f2.len() as int);
    assert forall|k: int| #[trigger] st1.keys.contains(k) implies st2.keys.contains(k) by {
        let i = choose|i: int| 0 <= i < st1.keys.len() && st1.keys[i] == k;
        assert(exists|c: int|
            0 <= c < 3 * f1.len() && #[trigger] st1.keys[i] == corner_key(f1, c) && st1.pos[i]
                == corner_pos(f1, c));
        let c = choose|c: int|
            0 <= c < 3 * f1.len() && #[trigger] st1.keys[i] == corner_key(f1, c) && st1.pos[i]
                == corner_pos(f1, c);
        lemma_corner_transfer(f1, f2, c);
        let c2 = choose|c2: int|
            0 <= c2 < 3 * f2.len() && #[trigger] corner_key(f2, c2) == corner_key(f1, c)
                && corner_pos(f2, c2) == corner_pos(f1, c);
        assert(st2.keys.contains(corner_key(f2, c2)));
    };
    assert forall|k: int| #[trigger] st2.keys.contains(k) implies st1.keys.contains(k) by {
        let i = choose|i: int| 0 <= i < st2.keys.len() && st2.keys[i] == k;
        assert(exists|c: int|
            0 <= c < 3 * f2.len() && #[trigger] st2.keys[i] == corner_key(f2, c) && st2.pos[i]
                == corner_pos(f2, c));
        let c = choose|c: int|
            0 <= c < 3 * f2.len() && #[trigger] st2.keys[i] == corner_key(f2, c) && st2.pos[i]
                == corner_pos(f2, c);
        lemma_corner_transfer(f2, f1, c);
        let c2 = choose|c2: int|
            0 <= c2 < 3 * f1.len() && #[trigger] corner_key(f1, c2) == corner_key(f2, c)
                && corner_pos(f1, c2) == corner_pos(f2, c);
        assert(st1.keys.contains(corner_key(f1, c2)));
    };
    assert(st1.keys.to_set() =~= st2.keys.to_set());
    assert forall|p: Vec3| #[trigger] st1.pos.contains(p) implies st2.pos.contains(p) by {
        lemma_pos_transfer(f1, f2, p);
    };
    assert forall|p: Vec3| #[trigger] st2.pos.contains(p) implies st1.pos.contains(p) by {
        lemma_uniform_transfer(f1, f2);
        lemma_pos_transfer(f2, f1, p);
    };
    assert(st1.pos.to_set() =~= st2.pos.to_set());
}

/// A canonical position of one weld reappears among the canonical
/// positions of the reordered weld: positions are uniform per bucket, so
/// whichever occurrence the reordering meets first carries the same bits.
proof fn lemma_pos_transfer(f1: Seq<RawFace>, f2: Seq<RawFace>, p: Vec3)
    requires
        f1.to_multiset() == f2.to_multiset(),
        uniform_positions(f1),
        weld_state(f1, 3 * f1.len() as int).pos.contains(p),
    ensures
        weld_state(f2, 3 * f2.len() as int).pos.contains(p),
{
    let st1 = weld_state(f1, 3 * f1.len() as int);
    let st2 = weld_state(f2, 3 * f2.len() as int);
    lemma_weld_state_wf(f1, 3 * f1.len() as int);
    lemma_weld_state_wf(f2, 3 * f2.len() as int);
    lemma_weld_pos_sources(f1, 3 * f1.len() as int);
    lemma_weld_pos_sources(f2, 3 * f2.len() as int);
    let i = choose|i: int| 0 <= i < st1.pos.len() && st1.pos[i] == p;
    let c = choose|c: int|
        0 <= c < 3 * f1.len() && #[trigger] st1.keys[i] == corner_key(f1, c) && st1.pos[i]
            == corner_pos(f1, c);
    lemma_corner_transfer(f1, f2, c);
    let c2 = choose|c2: int|
        0 <= c2 < 3 * f2.len() && #[trigger] corner_key(f2, c2) == corner_key(f1, c)
            && corner_pos(f2, c2) == corner_pos(f1, c);
    // the key of that corner is welded in the reordering; its canonical
    // position comes from some corner of the same bucket, which by the
    // uniformity hypothesis carries exactly p
    assert(st2.keys.contains(corner_key(f2, c2)));
    let i2 = choose|i2: int| 0 <= i2 < st2.keys.len() && st2.keys[i2] == corner_key(f2, c2);
    let d2 = choose|d2: int|
        0 <= d2 < 3 * f2.len() && #[trigger] st2.keys[i2] == corner_key(f2, d2) && st2.pos[i2]
            == corner_pos(f2, d2);
    lemma_corner_transfer(f2, f1, d2);
    let d1 = choose|d1: int|
        0 <= d1 < 3 * f1.len() && #[trigger] corner_key(f1, d1) == corner_key(f2, d2)
            && corner_pos(f1, d1) == corner_pos(f2, d2);
    assert(corner_key(f1, d1) == corner_key(f1, c));
    assert(corner_pos(f1, d1) == corner_pos(f1, c));
    assert(st2.pos[i2] == p);
    assert(st2.pos.contains(p));
}


} // verus!
