use rust_engine::math::matrix_4_by_4::Matrix4;
use rust_engine::math::vec3::{Vec3, VecError};

fn v(x: f32, y: f32, z: f32) -> Vec3 {
    Vec3::new(x.to_bits(), y.to_bits(), z.to_bits())
}

fn to_floats(m: &Matrix4) -> [f32; 16] {
    let mut out = [0.0f32; 16];
    for i in 0..16 {
        out[i] = f32::from_bits(m.m[i]);
    }
    out
}

fn reference_multiply(a: &[f32; 16], b: &[f32; 16]) -> [f32; 16] {
    let mut result = [0.0f32; 16];
    for col in 0..4 {
        for row in 0..4 {
            let mut sum = 0.0f32;
            for i in 0..4 {
                sum += a[row + i * 4] * b[i + col * 4];
            }
            result[row + col * 4] = sum;
        }
    }
    result
}

#[test]
fn test_identity_entries() {
    let m = to_floats(&Matrix4::identity());
    let expected = [
        1.0, 0.0, 0.0, 0.0, 0.0, 1.0, 0.0, 0.0, 0.0, 0.0, 1.0, 0.0, 0.0, 0.0, 0.0, 1.0f32,
    ];
    assert_eq!(m, expected);
}

#[test]
fn test_translate_entries() {
    let m = to_floats(&Matrix4::translate(
        5.0f32.to_bits(),
        (-2.0f32).to_bits(),
        0.25f32.to_bits(),
    ));
    assert_eq!(m[12], 5.0);
    assert_eq!(m[13], -2.0);
    assert_eq!(m[14], 0.25);
    assert_eq!(m[0], 1.0);
    assert_eq!(m[15], 1.0);
}

#[test]
fn test_rotate_y_entries() {
    let angle = 0.7f32;
    let (c, s) = (angle.cos(), angle.sin());
    let m = to_floats(&Matrix4::rotate_y(c.to_bits(), s.to_bits()));
    assert_eq!(m[0], c);
    assert_eq!(m[2], s);
    assert_eq!(m[8], -s);
    assert_eq!(m[10], c);
    assert_eq!(m[5], 1.0);
}

#[test]
fn test_rotate_x_entries() {
    let angle = 1.1f32;
    let (c, s) = (angle.cos(), angle.sin());
    let m = to_floats(&Matrix4::rotate_x(c.to_bits(), s.to_bits()));
    assert_eq!(m[5], c);
    assert_eq!(m[6], -s);
    assert_eq!(m[9], s);
    assert_eq!(m[10], c);
    assert_eq!(m[0], 1.0);
}

#[test]
fn test_scale_entries() {
    let m = to_floats(&Matrix4::scale(3.0f32.to_bits()));
    assert_eq!(m[0], 3.0);
    assert_eq!(m[5], 3.0);
    assert_eq!(m[10], 3.0);
    assert_eq!(m[15], 1.0);
}

#[test]
fn test_multiply_matches_hardware() {
    let a = Matrix4::translate(1.0f32.to_bits(), 2.0f32.to_bits(), 3.0f32.to_bits());
    let angle = 0.9f32;
    let b = Matrix4::rotate_y(angle.cos().to_bits(), angle.sin().to_bits());
    let product = a.multiply(&b);
    let expected = reference_multiply(&to_floats(&a), &to_floats(&b));
    assert_eq!(to_floats(&product), expected);
}

#[test]
fn test_perspective_entries() {
    let fov = 45.0f32.to_radians();
    let f = 1.0 / (fov / 2.0).tan();
    let (aspect, near, far) = (1.5f32, 0.01f32, 1000.0f32);
    let m = to_floats(&Matrix4::perspective(
        f.to_bits(),
        aspect.to_bits(),
        near.to_bits(),
        far.to_bits(),
    ));
    assert_eq!(m[0], f / aspect);
    assert_eq!(m[5], f);
    assert_eq!(m[10], (far + near) / (near - far));
    assert_eq!(m[11], -1.0);
    assert_eq!(m[14], (2.0 * far * near) / (near - far));
    assert_eq!(m[1], 0.0);
    assert_eq!(m[15], 0.0);
}

#[test]
fn test_look_at_sends_eye_to_origin() {
    // transforming the eye by the view matrix lands on the camera-space origin
    let eyes = [(3.0f32, -1.5f32, 7.25f32), (0.0, 0.0, 100.5), (-12.0, 4.5, -3.75)];
    for &(ex, ey, ez) in eyes.iter() {
        let eye = v(ex, ey, ez);
        let fwd = v(0.3, -0.2, -0.9);
        let center = eye.add(&fwd);
        let m = to_floats(&Matrix4::look_at(eye, center, v(0.0, 1.0, 0.0)).unwrap());
        let x = m[0] * ex + m[4] * ey + m[8] * ez + m[12];
        let y = m[1] * ex + m[5] * ey + m[9] * ez + m[13];
        let z = m[2] * ex + m[6] * ey + m[10] * ez + m[14];
        let w = m[3] * ex + m[7] * ey + m[11] * ez + m[15];
        assert_eq!(x, 0.0);
        assert_eq!(y, 0.0);
        assert_eq!(z, 0.0);
        assert_eq!(w, 1.0);
    }
}

#[test]
fn test_look_at_matches_hardware() {
    let eye = v(1.0, 2.0, 3.0);
    let center = v(0.0, 0.5, -4.0);
    let up = v(0.0, 1.0, 0.0);
    let m = to_floats(&Matrix4::look_at(eye, center, up).unwrap());

    // the same construction in host floats
    let (ex, ey, ez) = (1.0f32, 2.0f32, 3.0f32);
    let d = [0.0 - ex, 0.5 - ey, -4.0 - ez];
    let dmag = (d[0] * d[0] + d[1] * d[1] + d[2] * d[2]).sqrt();
    let fv = [d[0] / dmag, d[1] / dmag, d[2] / dmag];
    let cu = [fv[1] * 0.0 - fv[2] * 1.0, fv[2] * 0.0 - fv[0] * 0.0, fv[0] * 1.0 - fv[1] * 0.0];
    let cmag = (cu[0] * cu[0] + cu[1] * cu[1] + cu[2] * cu[2]).sqrt();
    let s = [cu[0] / cmag, cu[1] / cmag, cu[2] / cmag];
    let u = [
        s[1] * fv[2] - s[2] * fv[1],
        s[2] * fv[0] - s[0] * fv[2],
        s[0] * fv[1] - s[1] * fv[0],
    ];
    let mut basis = [
        1.0, 0.0, 0.0, 0.0, 0.0, 1.0, 0.0, 0.0, 0.0, 0.0, 1.0, 0.0, 0.0, 0.0, 0.0, 1.0f32,
    ];
    basis[0] = s[0];
    basis[4] = s[1];
    basis[8] = s[2];
    basis[1] = u[0];
    basis[5] = u[1];
    basis[9] = u[2];
    basis[2] = -fv[0];
    basis[6] = -fv[1];
    basis[10] = -fv[2];
    let mut trans = [
        1.0, 0.0, 0.0, 0.0, 0.0, 1.0, 0.0, 0.0, 0.0, 0.0, 1.0, 0.0, 0.0, 0.0, 0.0, 1.0f32,
    ];
    trans[12] = -ex;
    trans[13] = -ey;
    trans[14] = -ez;
    let expected = reference_multiply(&basis, &trans);
    assert_eq!(m, expected);
}

#[test]
fn test_look_at_degenerate_direction() {
    let eye = v(1.0, 2.0, 3.0);
    let up = v(0.0, 1.0, 0.0);
    match Matrix4::look_at(eye, eye, up) {
        Err(e) => assert_eq!(e, VecError::NormalizeZeroVector),
        Ok(_) => panic!("expected an error for a zero view direction"),
    }
}

#[test]
fn test_look_at_parallel_up() {
    // forward parallel to up: the cross product has zero magnitude
    let eye = v(0.0, 0.0, 0.0);
    let center = v(0.0, 5.0, 0.0);
    let up = v(0.0, 1.0, 0.0);
    match Matrix4::look_at(eye, center, up) {
        Err(e) => assert_eq!(e, VecError::NormalizeZeroVector),
        Ok(_) => panic!("expected an error for an up parallel to the view"),
    }
}
