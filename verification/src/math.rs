pub mod ieee;
pub mod float3_eps;
pub mod matrix_4_by_4;
pub mod round;
pub mod softfp;
pub mod sqrt;
pub mod vec3;
