use vstd::prelude::*;
use vstd::arithmetic::div_mod::{
    lemma_fundamental_div_mod_converse_div, lemma_fundamental_div_mod_converse_mod,
};
use crate::math::ieee::round_to_i32_val;
use crate::math::round::f32_round_to_i32;
use crate::math::softfp::{f_mul, mul_bits};

verus! {

/// Bit pattern of the quantization scale 1e4.
pub const SCALE_BITS: u32 = 0x461C_4000;

/// The quantized image of one coordinate: the coordinate is multiplied by
/// 1e4 in IEEE arithmetic, then rounded to the nearest integer, half away
/// from zero, saturating into the i32 range.
pub open spec fn quant_of(b: u32) -> int {
    round_to_i32_val(mul_bits(b, SCALE_BITS))
}

/// A lossy, exactly comparable projection of a position, used only as a
/// map key during welding: two positions weld together exactly when all
/// three quantized coordinates agree.
#[derive(Clone, Copy, Debug, PartialEq, Eq, Hash, Structural)]
pub struct Float3Eps {
    pub x: i32,
    pub y: i32,
    pub z: i32,
}

/// The three quantized coordinates packed into one integer, each offset
/// into [0, 2^32) and given its own 32-bit field.
pub open spec fn pack_key(k: Float3Eps) -> int {
    (k.x + 0x8000_0000) + (k.y + 0x8000_0000) * 0x1_0000_0000 + (k.z + 0x8000_0000)
        * 0x1_0000_0000_0000_0000
}

impl Float3Eps {
    /// Quantizes a position, one coordinate bit pattern at a time.
    pub fn new(x: u32, y: u32, z: u32) -> (r: Self)
        ensures
            r.x as int == quant_of(x),
            r.y as int == quant_of(y),
            r.z as int == quant_of(z),
    {
        let ix = f32_round_to_i32(f_mul(x, SCALE_BITS));
        let iy = f32_round_to_i32(f_mul(y, SCALE_BITS));
        let iz = f32_round_to_i32(f_mul(z, SCALE_BITS));
        Float3Eps { x: ix, y: iy, z: iz }
    }

    /// Packs the key into a single hashable integer.
    pub fn pack(&self) -> (r: u128)
        ensures
            r as int == pack_key(*self),
    {
        let px: u128 = ((self.x as i64) + 0x8000_0000) as u128;
        let py: u128 = ((self.y as i64) + 0x8000_0000) as u128;
        let pz: u128 = ((self.z as i64) + 0x8000_0000) as u128;
        px + py * 0x1_0000_0000 + pz * 0x1_0000_0000_0000_0000
    }
}

/// Packing is injective: equal packed keys mean equal quantized keys.
pub proof fn lemma_pack_key_injective(a: Float3Eps, b: Float3Eps)
    requires
        pack_key(a) == pack_key(b),
    ensures
        a == b,
{
    lemma_pack_fields(a);
    lemma_pack_fields(b);
}

/// Each field of a key is recovered from its packed form by division and
/// remainder, so the packed form determines the key.
proof fn lemma_pack_fields(k: Float3Eps)
    ensures
        pack_key(k) % 0x1_0000_0000 == k.x + 0x8000_0000,
        (pack_key(k) / 0x1_0000_0000) % 0x1_0000_0000 == k.y + 0x8000_0000,
        pack_key(k) / 0x1_0000_0000_0000_0000 == k.z + 0x8000_0000,
{
    let px = k.x + 0x8000_0000;
    let py = k.y + 0x8000_0000;
    let pz = k.z + 0x8000_0000;
    assert(px + py * 0x1_0000_0000 + pz * 0x1_0000_0000_0000_0000 == px + (py + pz
        * 0x1_0000_0000) * 0x1_0000_0000) by (nonlinear_arith)
        requires
            true,
    ;
    lemma_fundamental_div_mod_converse_mod(
        pack_key(k),
        0x1_0000_0000,
        py + pz * 0x1_0000_0000,
        px,
    );
    lemma_fundamental_div_mod_converse_div(
        pack_key(k),
        0x1_0000_0000,
        py + pz * 0x1_0000_0000,
        px,
    );
    lemma_fundamental_div_mod_converse_mod(py + pz * 0x1_0000_0000, 0x1_0000_0000, pz, py);
    lemma_fundamental_div_mod_converse_div(py + pz * 0x1_0000_0000, 0x1_0000_0000, pz, py);
    assert(px + (py + pz * 0x1_0000_0000) * 0x1_0000_0000 == px + py * 0x1_0000_0000 + pz
        * 0x1_0000_0000_0000_0000) by (nonlinear_arith);
    assert(pack_key(k) / 0x1_0000_0000_0000_0000 == pz) by {
        assert(pack_key(k) == pz * 0x1_0000_0000_0000_0000 + (px + py * 0x1_0000_0000));
        lemma_fundamental_div_mod_converse_div(
            pack_key(k),
            0x1_0000_0000_0000_0000,
            pz,
            px + py * 0x1_0000_0000,
        );
    };
}

} // verus!
