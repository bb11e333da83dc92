use vstd::prelude::*;
use crate::math::ieee::{ONE_BITS, POS_ZERO_BITS, is_zero_bits, neg_bits, sqrt_rel};
use crate::math::softfp::{add_bits, div_bits, f_div, f_mul, mul_bits, sub_bits};
use crate::math::vec3::{TWO_BITS, Vec3, VecError, cross3, div3, dot3, sub3};

verus! {

/// Bit pattern of -1.0.
pub const NEG_ONE_BITS: u32 = 0xBF80_0000;

/// A 4 by 4 matrix of IEEE-754 single-precision entries in column-major
/// order, each carried as its bit pattern.
pub struct Matrix4 {
    pub m: Vec<u32>,
}

/// The identity matrix, column-major.
pub open spec fn identity_seq() -> Seq<u32> {
    seq![
        ONE_BITS, POS_ZERO_BITS, POS_ZERO_BITS, POS_ZERO_BITS,
        POS_ZERO_BITS, ONE_BITS, POS_ZERO_BITS, POS_ZERO_BITS,
        POS_ZERO_BITS, POS_ZERO_BITS, ONE_BITS, POS_ZERO_BITS,
        POS_ZERO_BITS, POS_ZERO_BITS, POS_ZERO_BITS, ONE_BITS,
    ]
}

/// A translation matrix: the identity with the offsets in the last column.
pub open spec fn translate_seq(tx: u32, ty: u32, tz: u32) -> Seq<u32> {
    identity_seq().update(12, tx).update(13, ty).update(14, tz)
}

/// A rotation about the y axis from a cosine and sine pair.
pub open spec fn rotate_y_seq(c: u32, s: u32) -> Seq<u32> {
    identity_seq().update(0, c).update(2, s).update(8, neg_bits(s)).update(10, c)
}

/// A rotation about the x axis from a cosine and sine pair.
pub open spec fn rotate_x_seq(c: u32, s: u32) -> Seq<u32> {
    identity_seq().update(5, c).update(6, neg_bits(s)).update(9, s).update(10, c)
}

/// A uniform scale matrix.
pub open spec fn scale_seq(s: u32) -> Seq<u32> {
    identity_seq().update(0, s).update(5, s).update(10, s)
}

/// The right-handed perspective matrix built from f = 1 / tan(fov / 2),
/// the aspect ratio and the near and far planes, entry for entry as the
/// IEEE operations produce them.
pub open spec fn perspective_seq(f: u32, aspect: u32, near: u32, far: u32) -> Seq<u32> {
    seq![
        div_bits(f, aspect), POS_ZERO_BITS, POS_ZERO_BITS, POS_ZERO_BITS,
        POS_ZERO_BITS, f, POS_ZERO_BITS, POS_ZERO_BITS,
        POS_ZERO_BITS, POS_ZERO_BITS, div_bits(add_bits(far, near), sub_bits(near, far)),
        NEG_ONE_BITS,
        POS_ZERO_BITS, POS_ZERO_BITS,
        div_bits(mul_bits(mul_bits(TWO_BITS, far), near), sub_bits(near, far)), POS_ZERO_BITS,
    ]
}

/// The rotation basis of a look-at view: right, true up and negated
/// forward in the first three rows, column-major.
pub open spec fn look_basis_seq(s: Vec3, u: Vec3, f: Vec3) -> Seq<u32> {
    seq![
        s.x, u.x, neg_bits(f.x), POS_ZERO_BITS,
        s.y, u.y, neg_bits(f.y), POS_ZERO_BITS,
        s.z, u.z, neg_bits(f.z), POS_ZERO_BITS,
        POS_ZERO_BITS, POS_ZERO_BITS, POS_ZERO_BITS, ONE_BITS,
    ]
}

/// One partial sum of a result entry: the first i products of row entries
/// of a with column entries of b, accumulated left to right from 0.0.
pub open spec fn mm_sum(a: Seq<u32>, b: Seq<u32>, row: int, col: int, i: int) -> u32
    decreases i,
{
    if i <= 0 {
        POS_ZERO_BITS
    } else {
        add_bits(mm_sum(a, b, row, col, i - 1), mul_bits(a[row + (i - 1) * 4], b[(i - 1) + col
            * 4]))
    }
}

/// One entry of the matrix product, all four products accumulated.
pub open spec fn mm_entry(a: Seq<u32>, b: Seq<u32>, row: int, col: int) -> u32 {
    mm_sum(a, b, row, col, 4)
}

/// The full matrix product of two column-major 16-entry sequences.
pub open spec fn mm_seq(a: Seq<u32>, b: Seq<u32>) -> Seq<u32> {
    Seq::new(16, |i: int| mm_entry(a, b, i % 4, i / 4))
}

/// `normalize` succeeded on v with this exact result.
pub open spec fn normalized_ok(v: Vec3, out: Vec3) -> bool {
    &&& !is_zero_bits(dot3(v, v))
    &&& exists|mg: u32|
        #[trigger] sqrt_rel(dot3(v, v), mg) && !is_zero_bits(mg) && out == div3(v, mg)
}

/// The look-at construction fails on these arguments: some step of the
/// chain meets a vector of magnitude exactly zero.
pub open spec fn look_at_fails(eye: Vec3, center: Vec3, up: Vec3) -> bool {
    let d = sub3(center, eye);
    ||| is_zero_bits(dot3(d, d))
    ||| exists|f: Vec3|
        #[trigger] normalized_ok(d, f) && (is_zero_bits(dot3(f, f)) || is_zero_bits(
            dot3(up, up),
        ) || is_zero_bits(dot3(cross3(f, up), cross3(f, up))) || exists|s: Vec3|
            #[trigger] normalized_ok(cross3(f, up), s) && is_zero_bits(dot3(s, s)))
}

/// The successful look-at result: the rotation basis built from the
/// normalized forward, right and true-up vectors, multiplied by the
/// translation to the eye's opposite.
pub open spec fn look_at_ok(eye: Vec3, center: Vec3, up: Vec3, m: Seq<u32>) -> bool {
    exists|f: Vec3, s: Vec3|
        {
            &&& #[trigger] normalized_ok(sub3(center, eye), f)
            &&& !is_zero_bits(dot3(f, f))
            &&& !is_zero_bits(dot3(up, up))
            &&& #[trigger] normalized_ok(cross3(f, up), s)
            &&& !is_zero_bits(dot3(s, s))
            &&& m == mm_seq(
                look_basis_seq(s, cross3(s, f), f),
                translate_seq(neg_bits(eye.x), neg_bits(eye.y), neg_bits(eye.z)),
            )
        }
}

impl Matrix4 {
    /// The matrix is a full 4 by 4 block.
    pub open spec fn wf(&self) -> bool {
        self.m@.len() == 16
    }

    /// The identity transform.
    pub fn identity() -> (r: Matrix4)
        ensures
            r.wf(),
            r.m@ == identity_seq(),
    {
        let m: Vec<u32> = vec![
            ONE_BITS, POS_ZERO_BITS, POS_ZERO_BITS, POS_ZERO_BITS,
            POS_ZERO_BITS, ONE_BITS, POS_ZERO_BITS, POS_ZERO_BITS,
            POS_ZERO_BITS, POS_ZERO_BITS, ONE_BITS, POS_ZERO_BITS,
            POS_ZERO_BITS, POS_ZERO_BITS, POS_ZERO_BITS, ONE_BITS,
        ];
        proof {
            assert(m@ =~= identity_seq());
        }
        Matrix4 { m }
    }

    /// Standard matrix multiplication over the column-major layout; the
    /// other operand is applied first.
    pub fn multiply(&self, other: &Matrix4) -> (r: Matrix4)
        requires
            self.wf(),
            other.wf(),
        ensures
            r.wf(),
            r.m@ == mm_seq(self.m@, other.m@),
    {
        let mut m: Vec<u32> = Vec::new();
        let mut col: usize = 0;
        while col < 4
            invariant
                self.wf(),
                other.wf(),
                col <= 4,
                m@.len() == 4 * col,
                forall|k: int|
                    0 <= k < m@.len() ==> m@[k] == mm_entry(self.m@, other.m@, k % 4, k / 4),
            decreases 4 - col,
        {
            let mut row: usize = 0;
            while row < 4
                invariant
                    self.wf(),
                    other.wf(),
                    col < 4,
                    row <= 4,
                    m@.len() == 4 * col + row,
                    forall|k: int|
                        0 <= k < m@.len() ==> m@[k] == mm_entry(self.m@, other.m@, k % 4, k / 4),
                decreases 4 - row,
            {
                let mut sum: u32 = POS_ZERO_BITS;
                let mut i: usize = 0;
                while i < 4
                    invariant
                        self.wf(),
                        other.wf(),
                        col < 4,
                        row < 4,
                        i <= 4,
                        sum == mm_sum(self.m@, other.m@, row as int, col as int, i as int),
                    decreases 4 - i,
                {
                    sum = crate::math::softfp::f_add(
                        sum,
                        f_mul(self.m[row + i * 4], other.m[i + col * 4]),
                    );
                    i = i + 1;
                }
                proof {
                    assert((4 * col + row) as int % 4 == row as int && (4 * col + row) as int / 4
                        == col as int) by (nonlinear_arith)
                        requires
                            0 <= row < 4,
                            0 <= col < 4,
                    ;
                }
                m.push(sum);
                row = row + 1;
            }
            col = col + 1;
        }
        proof {
            assert(m@ =~= mm_seq(self.m@, other.m@));
        }
        Matrix4 { m }
    }

    /// A translation by the given offsets.
    pub fn translate(tx: u32, ty: u32, tz: u32) -> (r: Matrix4)
        ensures
            r.wf(),
            r.m@ == translate_seq(tx, ty, tz),
    {
        let mut mat = Matrix4::identity();
        mat.m.set(12, tx);
        mat.m.set(13, ty);
        mat.m.set(14, tz);
        proof {
            assert(mat.m@ =~= translate_seq(tx, ty, tz));
        }
        mat
    }

    /// A rotation about the y axis, from the cosine and sine of the angle;
    /// the caller evaluates the trigonometry.
    pub fn rotate_y(c: u32, s: u32) -> (r: Matrix4)
        ensures
            r.wf(),
            r.m@ == rotate_y_seq(c, s),
    {
        let mut mat = Matrix4::identity();
        mat.m.set(0, c);
        mat.m.set(2, s);
        mat.m.set(8, crate::math::ieee::f32_neg(s));
        mat.m.set(10, c);
        proof {
            assert(mat.m@ =~= rotate_y_seq(c, s));
        }
        mat
    }

    /// A rotation about the x axis, from the cosine and sine of the angle;
    /// the caller evaluates the trigonometry.
    pub fn rotate_x(c: u32, s: u32) -> (r: Matrix4)
        ensures
            r.wf(),
            r.m@ == rotate_x_seq(c, s),
    {
        let mut mat = Matrix4::identity();
        mat.m.set(5, c);
        mat.m.set(6, crate::math::ieee::f32_neg(s));
        mat.m.set(9, s);
        mat.m.set(10, c);
        proof {
            assert(mat.m@ =~= rotate_x_seq(c, s));
        }
        mat
    }

    /// A uniform scale.
    pub fn scale(s: u32) -> (r: Matrix4)
        ensures
            r.wf(),
            r.m@ == scale_seq(s),
    {
        let mut mat = Matrix4::identity();
        mat.m.set(0, s);
        mat.m.set(5, s);
        mat.m.set(10, s);
        proof {
            assert(mat.m@ =~= scale_seq(s));
        }
        mat
    }

    /// The right-handed symmetric perspective projection. The first
    /// argument is f = 1 / tan(fov / 2), evaluated by the caller; the
    /// near-to-far mapping entries follow the standard formula.
    pub fn perspective(f: u32, aspect: u32, near: u32, far: u32) -> (r: Matrix4)
        ensures
            r.wf(),
            r.m@ == perspective_seq(f, aspect, near, far),
    {
        let mut m: Vec<u32> = vec![
            POS_ZERO_BITS, POS_ZERO_BITS, POS_ZERO_BITS, POS_ZERO_BITS,
            POS_ZERO_BITS, POS_ZERO_BITS, POS_ZERO_BITS, POS_ZERO_BITS,
            POS_ZERO_BITS, POS_ZERO_BITS, POS_ZERO_BITS, POS_ZERO_BITS,
            POS_ZERO_BITS, POS_ZERO_BITS, POS_ZERO_BITS, POS_ZERO_BITS,
        ];
        m.set(0, f_div(f, aspect));
        m.set(5, f);
        m.set(10, f_div(crate::math::softfp::f_add(far, near), crate::math::softfp::f_sub(near, far)));
        m.set(11, NEG_ONE_BITS);
        m.set(14, f_div(f_mul(f_mul(TWO_BITS, far), near), crate::math::softfp::f_sub(near, far)));
        proof {
            assert(m@ =~= perspective_seq(f, aspect, near, far));
        }
        Matrix4 { m }
    }

    /// The look-at view: rotate world axes onto the camera basis derived
    /// from eye, center and up, then translate by the eye's opposite. Any
    /// zero-magnitude vector met while deriving the basis is an error.
    pub fn look_at(eye: Vec3, center: Vec3, up: Vec3) -> (r: Result<Matrix4, VecError>)
        ensures
            r is Err ==> look_at_fails(eye, center, up),
            is_zero_bits(dot3(sub3(center, eye), sub3(center, eye))) ==> r is Err,
            (match r {
                Ok(m) => m.wf() && look_at_ok(eye, center, up, m.m@),
                Err(e) => e == VecError::NormalizeZeroVector || e == VecError::CrossZeroVector,
            }),
    {
        let f = match center.sub(&eye).normalize() {
            Ok(f) => f,
            Err(e) => {
                return Err(e);
            },
        };
        let s_raw = match f.cross(&up) {
            Ok(c) => c,
            Err(e) => {
                proof {
                    assert(normalized_ok(sub3(center, eye), f));
                }
                return Err(e);
            },
        };
        let s = match s_raw.normalize() {
            Ok(s) => s,
            Err(e) => {
                proof {
                    assert(normalized_ok(sub3(center, eye), f));
                }
                return Err(e);
            },
        };
        let u = match s.cross(&f) {
            Ok(c) => c,
            Err(e) => {
                proof {
                    assert(normalized_ok(sub3(center, eye), f));
                    assert(normalized_ok(cross3(f, up), s));
                }
                return Err(e);
            },
        };
        let mut basis = Matrix4::identity();
        basis.m.set(0, s.x);
        basis.m.set(4, s.y);
        basis.m.set(8, s.z);
        basis.m.set(1, u.x);
        basis.m.set(5, u.y);
        basis.m.set(9, u.z);
        basis.m.set(2, crate::math::ieee::f32_neg(f.x));
        basis.m.set(6, crate::math::ieee::f32_neg(f.y));
        basis.m.set(10, crate::math::ieee::f32_neg(f.z));
        proof {
            assert(basis.m@ =~= look_basis_seq(s, u, f));
        }
        let trans = Matrix4::translate(
            crate::math::ieee::f32_neg(eye.x),
            crate::math::ieee::f32_neg(eye.y),
            crate::math::ieee::f32_neg(eye.z),
        );
        let out = basis.multiply(&trans);
        proof {
            assert(normalized_ok(sub3(center, eye), f));
            assert(normalized_ok(cross3(f, up), s));
            assert(look_at_ok(eye, center, up, out.m@));
        }
        Ok(out)
    }
}

} // verus!
