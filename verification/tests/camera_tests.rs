use rust_engine::camara::{
    Camera, MoveKey, PressedKeys, TrigBasis, PITCH_MAX_BITS, PITCH_MIN_BITS, SENSITIVITY_BITS,
    SPEED_BITS,
};
use rust_engine::math::matrix_4_by_4::Matrix4;
use rust_engine::math::vec3::Vec3;
use rust_engine::scene_object::SceneObject;

fn v(x: f32, y: f32, z: f32) -> Vec3 {
    Vec3::new(x.to_bits(), y.to_bits(), z.to_bits())
}

fn trig_of(yaw: f32, pitch: f32) -> TrigBasis {
    TrigBasis {
        sin_yaw: yaw.sin().to_bits(),
        cos_yaw: yaw.cos().to_bits(),
        sin_pitch: pitch.sin().to_bits(),
        cos_pitch: pitch.cos().to_bits(),
    }
}

#[test]
fn test_constants_match_host_floats() {
    assert_eq!(SENSITIVITY_BITS, 0.001f32.to_bits());
    assert_eq!(SPEED_BITS, 10.0f32.to_bits());
    assert_eq!(PITCH_MAX_BITS, 1.5f32.to_bits());
    assert_eq!(PITCH_MIN_BITS, (-1.5f32).to_bits());
}

#[test]
fn test_new_camera_defaults() {
    let cam = Camera::new(v(0.0, 0.0, 100.5));
    assert_eq!(cam.position, v(0.0, 0.0, 100.5));
    assert_eq!(f32::from_bits(cam.yaw), 0.0);
    assert_eq!(f32::from_bits(cam.pitch), 0.0);
    assert_eq!(f32::from_bits(cam.speed), 10.0);
    assert_eq!(f32::from_bits(cam.vertical_speed), 10.0);
}

#[test]
fn test_process_mouse_matches_host_floats() {
    let mut cam = Camera::new(v(0.0, 0.0, 0.0));
    cam.process_mouse(12.5f32.to_bits(), (-7.25f32).to_bits());
    let yaw = 0.0f32 + 12.5 * 0.001;
    let mut pitch = 0.0f32 - (-7.25) * 0.001;
    if pitch > 1.5 {
        pitch = 1.5;
    }
    if pitch < -1.5 {
        pitch = -1.5;
    }
    assert_eq!(f32::from_bits(cam.yaw), yaw);
    assert_eq!(f32::from_bits(cam.pitch), pitch);
}

#[test]
fn test_pitch_never_leaves_limits() {
    // repeated large look deltas in both directions: the pitch is clamped
    // into [-1.5, 1.5] after every update
    let mut cam = Camera::new(v(0.0, 0.0, 0.0));
    for i in 0..100 {
        let dy = if i % 3 == 0 { 5000.0f32 } else { -3500.0f32 };
        cam.process_mouse(100.0f32.to_bits(), dy.to_bits());
        let pitch = f32::from_bits(cam.pitch);
        assert!(pitch >= -1.5);
        assert!(pitch <= 1.5);
    }
    assert_eq!(f32::from_bits(cam.pitch), -1.5);
}

#[test]
fn test_forward_vector_matches_host_floats() {
    let cam = Camera::new(v(0.0, 0.0, 0.0));
    let (yaw, pitch) = (0.8f32, -0.3f32);
    let t = trig_of(yaw, pitch);
    let fwd = cam.get_forward_vector(&t);
    assert_eq!(f32::from_bits(fwd.x), -(yaw.sin() * pitch.cos()));
    assert_eq!(f32::from_bits(fwd.y), -pitch.sin());
    assert_eq!(f32::from_bits(fwd.z), -(yaw.cos() * pitch.cos()));
}

#[test]
fn test_view_matrix_is_look_at() {
    let cam = Camera::new(v(1.0, 2.0, 3.0));
    let t = trig_of(0.4, 0.1);
    let view = cam.get_view_matrix(&t).unwrap();
    let fwd = cam.get_forward_vector(&t);
    let reference = Matrix4::look_at(cam.position, cam.position.add(&fwd), Vec3::unit_y())
        .unwrap();
    assert_eq!(view.m, reference.m);
}

#[test]
fn test_process_keyboard_moves_along_key_axes() {
    let (yaw, pitch) = (0.5f32, 0.2f32);
    let t = trig_of(yaw, pitch);
    let dt = 0.016f32;
    let vel = 10.0f32 * dt;
    let fwd = [
        -(yaw.sin() * pitch.cos()),
        -pitch.sin(),
        -(yaw.cos() * pitch.cos()),
    ];

    let mut cam = Camera::new(v(0.0, 0.0, 0.0));
    cam.process_keyboard(MoveKey::W, dt.to_bits(), &t);
    assert_eq!(f32::from_bits(cam.position.x), 0.0 + fwd[0] * vel);
    assert_eq!(f32::from_bits(cam.position.y), 0.0 + fwd[1] * vel);
    assert_eq!(f32::from_bits(cam.position.z), 0.0 + fwd[2] * vel);

    let mut cam1 = Camera::new(v(0.0, 0.0, 0.0));
    cam1.process_keyboard(MoveKey::S, dt.to_bits(), &t);
    assert_eq!(f32::from_bits(cam1.position.x), 0.0 - fwd[0] * vel);
    assert_eq!(f32::from_bits(cam1.position.y), 0.0 - fwd[1] * vel);
    assert_eq!(f32::from_bits(cam1.position.z), 0.0 - fwd[2] * vel);

    let mut cam2 = Camera::new(v(0.0, 0.0, 0.0));
    cam2.process_keyboard(MoveKey::D, dt.to_bits(), &t);
    let right = [yaw.cos(), 0.0, -yaw.sin()];
    assert_eq!(f32::from_bits(cam2.position.x), 0.0 + right[0] * vel);
    assert_eq!(f32::from_bits(cam2.position.y), 0.0 + right[1] * vel);
    assert_eq!(f32::from_bits(cam2.position.z), 0.0 + right[2] * vel);

    let mut cam3 = Camera::new(v(5.0, 6.0, 7.0));
    cam3.process_keyboard(MoveKey::Other, dt.to_bits(), &t);
    assert_eq!(cam3.position, v(5.0, 6.0, 7.0));
}

#[test]
fn test_process_keys_combines_directions() {
    let (yaw, pitch) = (0.3f32, -0.1f32);
    let t = trig_of(yaw, pitch);
    let dt = 0.02f32;
    let mut cam = Camera::new(v(1.0, 1.0, 1.0));
    let keys = PressedKeys {
        w: true,
        s: false,
        a: false,
        d: true,
        space: true,
        lshift: false,
        rshift: false,
    };
    cam.process_keys(&keys, dt.to_bits(), &t).unwrap();

    // the same arithmetic in host floats, in the same order
    let vel = 10.0f32 * dt;
    let fwd = [
        -(yaw.sin() * pitch.cos()),
        -pitch.sin(),
        -(yaw.cos() * pitch.cos()),
    ];
    let cross = [
        fwd[1] * 0.0 - fwd[2] * 1.0,
        fwd[2] * 0.0 - fwd[0] * 0.0,
        fwd[0] * 1.0 - fwd[1] * 0.0,
    ];
    let cmag = (cross[0] * cross[0] + cross[1] * cross[1] + cross[2] * cross[2]).sqrt();
    let right = [cross[0] / cmag, cross[1] / cmag, cross[2] / cmag];
    let mut pos = [1.0f32, 1.0, 1.0];
    for k in 0..3 {
        pos[k] = pos[k] + fwd[k] * vel;
    }
    for k in 0..3 {
        pos[k] = pos[k] + right[k] * vel;
    }
    pos[1] = pos[1] + 1.0 * vel;
    pos[0] = pos[0] + 0.0 * vel;
    pos[2] = pos[2] + 0.0 * vel;
    assert_eq!(f32::from_bits(cam.position.x), pos[0]);
    assert_eq!(f32::from_bits(cam.position.y), pos[1]);
    assert_eq!(f32::from_bits(cam.position.z), pos[2]);
}

#[test]
fn test_scene_object_defaults() {
    let obj = SceneObject::new(7, 36);
    assert_eq!(obj.vao, 7);
    assert_eq!(obj.index_count, 36);
    assert_eq!(f32::from_bits(obj.angle), 0.0);
    assert_eq!(f32::from_bits(obj.angular_speed), 0.0);
    assert_eq!(f32::from_bits(obj.scale_factor), 1.0);
    for i in 0..16 {
        let expected = if i % 5 == 0 { 1.0 } else { 0.0 };
        assert_eq!(f32::from_bits(obj.base_transform.m[i]), expected);
    }
}

#[test]
fn test_scene_object_advance() {
    let mut obj = SceneObject::new(1, 3);
    obj.angular_speed = 2.0f32.to_bits();
    obj.advance(0.016f32.to_bits());
    obj.advance(0.016f32.to_bits());
    let expected = 0.0f32 + 2.0 * 0.016 + 2.0 * 0.016;
    assert_eq!(f32::from_bits(obj.angle), expected);
}

#[test]
fn test_scene_object_model_matrix() {
    let mut obj = SceneObject::new(1, 3);
    obj.base_transform = Matrix4::translate(4.0f32.to_bits(), 0.0f32.to_bits(), 0.0f32.to_bits());
    obj.angle = 0.6f32.to_bits();
    obj.scale_factor = 2.0f32.to_bits();
    let (c, s) = (0.6f32.cos(), 0.6f32.sin());
    let model = obj.model_matrix(c.to_bits(), s.to_bits());
    let reference = obj
        .base_transform
        .multiply(&Matrix4::rotate_y(c.to_bits(), s.to_bits()))
        .multiply(&Matrix4::scale(2.0f32.to_bits()));
    assert_eq!(model.m, reference.m);
    // the base translation is untouched by the animation
    assert_eq!(f32::from_bits(model.m[12]), 4.0);
}
