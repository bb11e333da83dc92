use vstd::prelude::*;
use crate::math::ieee::{ONE_BITS, POS_ZERO_BITS, float_lt, f32_lt, is_nan_bits, is_zero_bits,
    neg_bits};
use crate::math::matrix_4_by_4::{Matrix4, look_at_fails, look_at_ok, normalized_ok};
use crate::math::softfp::{add_bits, f_mul, f_sub, mul_bits, sub_bits};
use crate::math::vec3::{Vec3, VecError, add3, cross3, dot3, scale3, sub3};

verus! {

/// Bit pattern of the mouse sensitivity, 0.001.
pub const SENSITIVITY_BITS: u32 = 0x3A83_126F;

/// Bit pattern of the movement speed, 10.0 units per second.
pub const SPEED_BITS: u32 = 0x4120_0000;

/// Bit pattern of the upper pitch limit, 1.5 radians.
pub const PITCH_MAX_BITS: u32 = 0x3FC0_0000;

/// Bit pattern of the lower pitch limit, -1.5 radians.
pub const PITCH_MIN_BITS: u32 = 0xBFC0_0000;

/// The sine and cosine of the camera's yaw and pitch, evaluated by the
/// caller: trigonometry has no exact bit-level contract, so the camera
/// takes its values as inputs.
#[derive(Clone, Copy, Debug, PartialEq, Eq, Structural)]
pub struct TrigBasis {
    pub sin_yaw: u32,
    pub cos_yaw: u32,
    pub sin_pitch: u32,
    pub cos_pitch: u32,
}

/// Which movement keys are currently held down.
#[derive(Clone, Copy, Debug, PartialEq, Eq, Structural)]
pub struct PressedKeys {
    pub w: bool,
    pub s: bool,
    pub a: bool,
    pub d: bool,
    pub space: bool,
    pub lshift: bool,
    pub rshift: bool,
}

/// One movement key for the single-key update.
#[derive(Clone, Copy, Debug, PartialEq, Eq, Structural)]
pub enum MoveKey {
    W,
    S,
    A,
    D,
    Other,
}

/// The fly-through camera: a position with yaw and pitch, moved by key
/// state and turned by mouse deltas each frame.
pub struct Camera {
    pub position: Vec3,
    pub yaw: u32,
    pub pitch: u32,
    pub speed: u32,
    pub vertical_speed: u32,
}

/// The world up direction.
pub open spec fn world_up() -> Vec3 {
    Vec3 { x: POS_ZERO_BITS, y: ONE_BITS, z: POS_ZERO_BITS }
}

/// The view direction derived from the trigonometric values:
/// (-(sin yaw * cos pitch), -sin pitch, -(cos yaw * cos pitch)).
pub open spec fn forward_of(t: TrigBasis) -> Vec3 {
    Vec3 {
        x: neg_bits(mul_bits(t.sin_yaw, t.cos_pitch)),
        y: neg_bits(t.sin_pitch),
        z: neg_bits(mul_bits(t.cos_yaw, t.cos_pitch)),
    }
}

/// The movement right direction of the single-key update:
/// (cos yaw, 0, -sin yaw).
pub open spec fn keyboard_right(t: TrigBasis) -> Vec3 {
    Vec3 { x: t.cos_yaw, y: POS_ZERO_BITS, z: neg_bits(t.sin_yaw) }
}

/// The strafing direction of the held-keys update cannot be derived: some
/// stage of its chain — the forward vector, the world up, or their cross
/// product — has magnitude exactly zero.
pub open spec fn keys_cross_fails(t: TrigBasis) -> bool {
    is_zero_bits(dot3(forward_of(t), forward_of(t))) || is_zero_bits(
        dot3(world_up(), world_up()),
    )
}

/// The held-keys update cannot move: either the cross product itself is
/// refused, or its result has magnitude exactly zero and cannot be
/// normalized.
pub open spec fn keys_move_fails(t: TrigBasis) -> bool {
    keys_cross_fails(t) || is_zero_bits(
        dot3(cross3(forward_of(t), world_up()), cross3(forward_of(t), world_up())),
    )
}

/// The pitch after the two clamping tests the look update applies: first
/// against the upper limit, then against the lower one; a NaN passes both
/// tests unchanged.
pub open spec fn clamped_pitch(p: u32) -> u32 {
    let a = if float_lt(PITCH_MAX_BITS, p) {
        PITCH_MAX_BITS
    } else {
        p
    };
    if float_lt(a, PITCH_MIN_BITS) {
        PITCH_MIN_BITS
    } else {
        a
    }
}

/// The pitch lies within the clamping limits in float order.
pub open spec fn pitch_in_range(p: u32) -> bool {
    !float_lt(PITCH_MAX_BITS, p) && !float_lt(p, PITCH_MIN_BITS)
}

/// The position after the held keys are applied in their fixed order:
/// forward and back, left and right, then the vertical pair, each step one
/// scaled addition exactly as the update performs it.
pub open spec fn moved_position(
    p0: Vec3,
    keys: PressedKeys,
    vel: u32,
    vvel: u32,
    fwd: Vec3,
    right: Vec3,
) -> Vec3 {
    let p1 = if keys.w {
        add3(p0, scale3(fwd, vel))
    } else {
        p0
    };
    let p2 = if keys.s {
        sub3(p1, scale3(fwd, vel))
    } else {
        p1
    };
    let p3 = if keys.a {
        sub3(p2, scale3(right, vel))
    } else {
        p2
    };
    let p4 = if keys.d {
        add3(p3, scale3(right, vel))
    } else {
        p3
    };
    let p5 = if keys.space {
        add3(p4, scale3(world_up(), vvel))
    } else {
        p4
    };
    if keys.lshift || keys.rshift {
        sub3(p5, scale3(world_up(), vvel))
    } else {
        p5
    }
}

/// Clamping keeps every non-NaN pitch within the limits, so repeated look
/// updates never drive the stored pitch out of [-1.5, 1.5].
pub proof fn lemma_pitch_clamp_bounds(p: u32)
    ensures
        !is_nan_bits(p) ==> pitch_in_range(clamped_pitch(p)),
        is_nan_bits(p) ==> clamped_pitch(p) == p,
{
}

impl Camera {
    /// A camera at the given position, level and facing along the negative
    /// z axis, with the default speeds.
    pub fn new(position: Vec3) -> (r: Camera)
        ensures
            r.position == position,
            r.yaw == POS_ZERO_BITS,
            r.pitch == POS_ZERO_BITS,
            r.speed == SPEED_BITS,
            r.vertical_speed == SPEED_BITS,
            pitch_in_range(r.pitch),
    {
        Camera {
            position,
            yaw: POS_ZERO_BITS,
            pitch: POS_ZERO_BITS,
            speed: SPEED_BITS,
            vertical_speed: SPEED_BITS,
        }
    }

    /// The view direction for the given trigonometric values of this
    /// camera's yaw and pitch.
    pub fn get_forward_vector(&self, t: &TrigBasis) -> (r: Vec3)
        ensures
            r == forward_of(*t),
    {
        Vec3 {
            x: crate::math::ieee::f32_neg(f_mul(t.sin_yaw, t.cos_pitch)),
            y: crate::math::ieee::f32_neg(t.sin_pitch),
            z: crate::math::ieee::f32_neg(f_mul(t.cos_yaw, t.cos_pitch)),
        }
    }

    /// The view matrix: look from the position toward position plus
    /// forward, with the world up direction.
    pub fn get_view_matrix(&self, t: &TrigBasis) -> (r: Result<Matrix4, VecError>)
        ensures
            r is Err ==> look_at_fails(
                self.position,
                add3(self.position, forward_of(*t)),
                world_up(),
            ),
            (match r {
                Ok(m) => m.wf() && look_at_ok(
                    self.position,
                    add3(self.position, forward_of(*t)),
                    world_up(),
                    m.m@,
                ),
                Err(e) => e == VecError::NormalizeZeroVector || e == VecError::CrossZeroVector,
            }),
    {
        let forward = self.get_forward_vector(t);
        let target = self.position.add(&forward);
        let up = Vec3::unit_y();
        Matrix4::look_at(self.position, target, up)
    }

    /// Applies the held movement keys for one frame: forward and back along
    /// the view direction, strafing along the normalized cross of forward
    /// and up, and vertical movement along the world up. The update fails,
    /// leaving the position untouched, exactly when a zero-magnitude vector
    /// is met while deriving the strafing direction.
    pub fn process_keys(&mut self, pressed: &PressedKeys, dt: u32, t: &TrigBasis) -> (r: Result<
        (),
        VecError,
    >)
        ensures
            final(self).yaw == old(self).yaw,
            final(self).pitch == old(self).pitch,
            final(self).speed == old(self).speed,
            final(self).vertical_speed == old(self).vertical_speed,
            r is Err <==> keys_move_fails(*t),
            (match r {
                Ok(u) => exists|rt: Vec3|
                    #[trigger] normalized_ok(cross3(forward_of(*t), world_up()), rt)
                        && final(self).position == moved_position(
                        old(self).position,
                        *pressed,
                        mul_bits(old(self).speed, dt),
                        mul_bits(old(self).vertical_speed, dt),
                        forward_of(*t),
                        rt,
                    ),
                Err(e) => final(self).position == old(self).position && e == (if keys_cross_fails(
                    *t,
                ) {
                    VecError::CrossZeroVector
                } else {
                    VecError::NormalizeZeroVector
                }),
            }),
    {
        let velocity = f_mul(self.speed, dt);
        let vertical_velocity = f_mul(self.vertical_speed, dt);
        let forward = self.get_forward_vector(t);
        let up = Vec3::unit_y();
        let right_raw = match forward.cross(&up) {
            Ok(c) => c,
            Err(e) => {
                return Err(e);
            },
        };
        let right = match right_raw.normalize() {
            Ok(n) => n,
            Err(e) => {
                return Err(e);
            },
        };
        if pressed.w {
            self.position = self.position.add(&forward.scale(velocity));
        }
        if pressed.s {
            self.position = self.position.sub(&forward.scale(velocity));
        }
        if pressed.a {
            self.position = self.position.sub(&right.scale(velocity));
        }
        if pressed.d {
            self.position = self.position.add(&right.scale(velocity));
        }
        if pressed.space {
            self.position = self.position.add(&up.scale(vertical_velocity));
        }
        if pressed.lshift || pressed.rshift {
            self.position = self.position.sub(&up.scale(vertical_velocity));
        }
        proof {
            assert(normalized_ok(cross3(forward_of(*t), world_up()), right));
        }
        Ok(())
    }

    /// Applies one movement key for one frame: W moves along the forward
    /// direction (-sin yaw cos pitch, -sin pitch, -cos yaw cos pitch), S
    /// moves opposite it, A and D strafe along (cos yaw, 0, -sin yaw); any
    /// other key leaves the position alone.
    pub fn process_keyboard(&mut self, key: MoveKey, dt: u32, t: &TrigBasis)
        ensures
            final(self).yaw == old(self).yaw,
            final(self).pitch == old(self).pitch,
            final(self).speed == old(self).speed,
            final(self).vertical_speed == old(self).vertical_speed,
            final(self).position == (match key {
                MoveKey::W => add3(
                    old(self).position,
                    scale3(forward_of(*t), mul_bits(old(self).speed, dt)),
                ),
                MoveKey::S => sub3(
                    old(self).position,
                    scale3(forward_of(*t), mul_bits(old(self).speed, dt)),
                ),
                MoveKey::A => sub3(
                    old(self).position,
                    scale3(keyboard_right(*t), mul_bits(old(self).speed, dt)),
                ),
                MoveKey::D => add3(
                    old(self).position,
                    scale3(keyboard_right(*t), mul_bits(old(self).speed, dt)),
                ),
                MoveKey::Other => old(self).position,
            }),
    {
        let velocity = f_mul(self.speed, dt);
        let forward = self.get_forward_vector(t);
        let right = Vec3 {
            x: t.cos_yaw,
            y: POS_ZERO_BITS,
            z: crate::math::ieee::f32_neg(t.sin_yaw),
        };
        match key {
            MoveKey::W => {
                self.position = self.position.add(&forward.scale(velocity));
            },
            MoveKey::S => {
                self.position = self.position.sub(&forward.scale(velocity));
            },
            MoveKey::A => {
                self.position = self.position.sub(&right.scale(velocity));
            },
            MoveKey::D => {
                self.position = self.position.add(&right.scale(velocity));
            },
            MoveKey::Other => {},
        }
    }

    /// Turns the camera by a mouse delta: the yaw grows by the scaled
    /// horizontal delta, the pitch shrinks by the scaled vertical delta and
    /// is then clamped into [-1.5, 1.5].
    pub fn process_mouse(&mut self, delta_x: u32, delta_y: u32)
        ensures
            final(self).position == old(self).position,
            final(self).speed == old(self).speed,
            final(self).vertical_speed == old(self).vertical_speed,
            final(self).yaw == add_bits(old(self).yaw, mul_bits(delta_x, SENSITIVITY_BITS)),
            final(self).pitch == clamped_pitch(
                sub_bits(old(self).pitch, mul_bits(delta_y, SENSITIVITY_BITS)),
            ),
            !is_nan_bits(final(self).pitch) ==> pitch_in_range(final(self).pitch),
    {
        self.yaw = crate::math::softfp::f_add(self.yaw, f_mul(delta_x, SENSITIVITY_BITS));
        self.pitch = f_sub(self.pitch, f_mul(delta_y, SENSITIVITY_BITS));
        if f32_lt(PITCH_MAX_BITS, self.pitch) {
            self.pitch = PITCH_MAX_BITS;
        }
        if f32_lt(self.pitch, PITCH_MIN_BITS) {
            self.pitch = PITCH_MIN_BITS;
        }
    }
}

} // verus!
