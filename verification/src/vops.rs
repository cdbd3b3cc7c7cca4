//! Element-wise vector operations at a given element width (SEW in bytes).

use vstd::prelude::*;
use vstd::arithmetic::power2::pow2;
use crate::alu::sext32;
use crate::bus::pow256;

verus! {

/// How a vector element loop treats `v0`.
#[derive(Clone, Copy, Debug, PartialEq, Eq, Structural)]
pub enum VectorElementLoopMode {
    /// Every element is active.
    Unmasked,
    /// Element `i` is active when bit `i` of `v0` is set.
    Masked,
}

/// The mode for an instruction's `vm` bit (`true` = unmasked).
pub fn mode_from_vm(vm: bool) -> (r: VectorElementLoopMode)
    ensures
        r == if vm {
            VectorElementLoopMode::Unmasked
        } else {
            VectorElementLoopMode::Masked
        },
{
    if vm {
        VectorElementLoopMode::Unmasked
    } else {
        VectorElementLoopMode::Masked
    }
}

pub open spec fn valid_sew(sew: usize) -> bool {
    sew == 1 || sew == 2 || sew == 4 || sew == 8
}

/// 2^(8·SEW): the modulus of an element.
pub open spec fn elem_mod(sew: usize) -> int {
    pow256(sew as nat) as int
}

/// An unsigned element value read as signed.
pub open spec fn signed_elem(x: int, sew: usize) -> int {
    if x >= elem_mod(sew) / 2 {
        x - elem_mod(sew)
    } else {
        x
    }
}

/// Reduction modulo 2^64 (what `as u64` does to an integer).
pub open spec fn to_u64(i: int) -> u64 {
    (i % 0x1_0000_0000_0000_0000int) as u64
}

proof fn lemma_elem_mod_values()
    ensures
        elem_mod(1) == 0x100,
        elem_mod(2) == 0x1_0000,
        elem_mod(4) == 0x1_0000_0000,
        elem_mod(8) == 0x1_0000_0000_0000_0000,
{
    reveal_with_fuel(pow256, 9);
}

/// Reducing modulo 2^64 first changes nothing modulo an element width.
proof fn lemma_wrap_then_elem(a: int, sew: usize)
    requires
        valid_sew(sew),
    ensures
        (a % 0x1_0000_0000_0000_0000int) % elem_mod(sew) == a % elem_mod(sew),
{
    lemma_elem_mod_values();
    let m = elem_mod(sew);
    let k = 0x1_0000_0000_0000_0000int / m;
    assert(m * k == 0x1_0000_0000_0000_0000int);
    vstd::arithmetic::div_mod::lemma_mod_mod(a, m, k);
}

/// The low SEW bytes of `x`.
fn trunc(x: u64, sew: usize) -> (r: u64)
    requires
        valid_sew(sew),
    ensures
        r == x as int % elem_mod(sew),
{
    proof {
        lemma_elem_mod_values();
    }
    if sew == 1 {
        let r = x & 0xff;
        assert(r == x % 0x100) by {
        crate::bits::lemma_u64_fields(x);
    }
        r
    } else if sew == 2 {
        let r = x & 0xffff;
        assert(r == x % 0x1_0000) by {
        crate::bits::lemma_u64_fields(x);
    }
        r
    } else if sew == 4 {
        let r = x & 0xffff_ffff;
        assert(r == x % 0x1_0000_0000) by {
        crate::bits::lemma_u64_fields(x);
    }
        r
    } else {
        x
    }
}

/// `simm5 + src` at SEW (vadd.vi).
pub open spec fn spec_add_vi(simm5: i32, src: u64, sew: usize) -> u64 {
    if valid_sew(sew) {
        ((simm5 as int + src as int) % elem_mod(sew)) as u64
    } else {
        0
    }
}

fn from_i64(x: i64) -> (r: u64)
    ensures
        r == to_u64(x as int),
{
    let r = #[verifier::truncate] (x as u64);
    assert(r as int == (x as int) % 0x1_0000_0000_0000_0000) by (bit_vector)
        requires
            r == x as u64,
    ;
    r
}

pub fn binop_add_vi(simm5: i32, src: u64, sew: usize) -> (r: u64)
    ensures
        r == spec_add_vi(simm5, src, sew),
{
    if !(sew == 1 || sew == 2 || sew == 4 || sew == 8) {
        return 0;
    }
    let s = from_i64(simm5 as i64);
    let r = trunc(s.wrapping_add(src), sew);
    proof {
        lemma_wrap_then_elem(s + src, sew);
        lemma_wrap_then_elem(simm5 + src as int, sew);
        vstd::arithmetic::div_mod::lemma_add_mod_noop(simm5 as int, src as int, 0x1_0000_0000_0000_0000);
        vstd::arithmetic::div_mod::lemma_mod_mod(simm5 as int + src as int, 0x1_0000_0000_0000_0000, 1);
    }
    r
}

/// `simm5 - src` at SEW (vrsub.vi).
pub open spec fn spec_sub_vi(simm5: i32, src: u64, sew: usize) -> u64 {
    if valid_sew(sew) {
        ((simm5 as int - src as int) % elem_mod(sew)) as u64
    } else {
        0
    }
}

pub fn binop_sub_vi(simm5: i32, src: u64, sew: usize) -> (r: u64)
    ensures
        r == spec_sub_vi(simm5, src, sew),
{
    if !(sew == 1 || sew == 2 || sew == 4 || sew == 8) {
        return 0;
    }
    let s = from_i64(simm5 as i64);
    let r = trunc(s.wrapping_sub(src), sew);
    proof {
        lemma_wrap_then_elem(s - src, sew);
        lemma_wrap_then_elem(simm5 - src as int, sew);
        vstd::arithmetic::div_mod::lemma_sub_mod_noop(simm5 as int, src as int, 0x1_0000_0000_0000_0000);
        vstd::arithmetic::div_mod::lemma_mod_mod(simm5 as int - src as int, 0x1_0000_0000_0000_0000, 1);
    }
    r
}

/// `src & sext(simm5)` at SEW (vand.vi).
pub open spec fn spec_and_vi(simm5: i32, src: u64, sew: usize) -> u64 {
    if valid_sew(sew) {
        ((src & to_u64(simm5 as int)) as int % elem_mod(sew)) as u64
    } else {
        0
    }
}

pub fn binop_and_vi(simm5: i32, src: u64, sew: usize) -> (r: u64)
    ensures
        r == spec_and_vi(simm5, src, sew),
{
    if !(sew == 1 || sew == 2 || sew == 4 || sew == 8) {
        return 0;
    }
    let s = from_i64(simm5 as i64);
    trunc(src & s, sew)
}

/// The shift amount of a SEW-wide shift: the low log2(8·SEW) bits.
pub open spec fn sew_shamt(amount: u32, sew: usize) -> nat {
    (amount % (8 * sew) as u32) as nat
}

/// Left shift at SEW; bits shifted out of the element are lost.
pub open spec fn spec_shl(amount: u32, src: u64, sew: usize) -> u64 {
    if valid_sew(sew) {
        (((src as int % elem_mod(sew)) * pow2(sew_shamt(amount, sew))) % elem_mod(sew)) as u64
    } else {
        0
    }
}

/// Logical right shift at SEW.
pub open spec fn spec_shr(amount: u32, src: u64, sew: usize) -> u64 {
    if valid_sew(sew) {
        ((src as int % elem_mod(sew)) / pow2(sew_shamt(amount, sew)) as int) as u64
    } else {
        0
    }
}

fn shamt_for(amount: u32, sew: usize) -> (r: u64)
    requires
        valid_sew(sew),
    ensures
        r == sew_shamt(amount, sew),
        r < 8 * sew,
{
    let bw = (sew * 8) as u32;
    let mask = bw - 1;
    let s = amount & mask;
    assert(s == amount % bw && s < bw) by (bit_vector)
        requires
            bw == 8 || bw == 16 || bw == 32 || bw == 64,
            mask + 1 == bw,
            s == amount & mask,
    ;
    s as u64
}

proof fn lemma_shl_u64(x: u64, s: u64)
    requires
        s < 64,
    ensures
        (x << s) as int == (x as int * pow2(s as nat)) % 0x1_0000_0000_0000_0000,
{
    vstd::bits::lemma_u64_pow2_no_overflow(s as nat);
    assert((x << s) as int == (x as int * (1u64 << s) as int) % 0x1_0000_0000_0000_0000)
        by (bit_vector)
        requires
            s < 64,
    ;
    vstd::bits::lemma_u64_shl_is_mul(1, s);
}

pub fn binop_shl(amount: u32, src: u64, sew: usize) -> (r: u64)
    ensures
        r == spec_shl(amount, src, sew),
{
    if !(sew == 1 || sew == 2 || sew == 4 || sew == 8) {
        return 0;
    }
    let s = shamt_for(amount, sew);
    let x = trunc(src, sew);
    let r = trunc(x << s, sew);
    proof {
        lemma_shl_u64(x, s);
        lemma_wrap_then_elem(x as int * pow2(s as nat), sew);
    }
    r
}

pub fn binop_shr(amount: u32, src: u64, sew: usize) -> (r: u64)
    ensures
        r == spec_shr(amount, src, sew),
{
    if !(sew == 1 || sew == 2 || sew == 4 || sew == 8) {
        return 0;
    }
    let s = shamt_for(amount, sew);
    let x = trunc(src, sew);
    proof {
        vstd::bits::lemma_u64_shr_is_div(x, s);
    }
    x >> s
}

/// vsll.vi: shift by the immediate.
pub fn binop_shl_vi(uimm5: u32, src: u64, sew: usize) -> (r: u64)
    ensures
        r == spec_shl(uimm5, src, sew),
{
    binop_shl(uimm5, src, sew)
}

/// vsrl.vi: logical shift by the immediate.
pub fn binop_shr_vi(uimm5: u32, src: u64, sew: usize) -> (r: u64)
    ensures
        r == spec_shr(uimm5, src, sew),
{
    binop_shr(uimm5, src, sew)
}

/// vsll.vx: shift by `rs1 & (SEW·8 − 1)`.
pub fn binop_shl_vx(rs1: u32, src: u64, sew: usize) -> (r: u64)
    ensures
        r == spec_shl(rs1, src, sew),
{
    binop_shl(rs1, src, sew)
}

/// vsrl.vx: logical shift by `rs1 & (SEW·8 − 1)`.
pub fn binop_shr_vx(rs1: u32, src: u64, sew: usize) -> (r: u64)
    ensures
        r == spec_shr(rs1, src, sew),
{
    binop_shr(rs1, src, sew)
}

/// vsub.vv: `vs2 - vs1` at SEW (`src1` = vs1, `src2` = vs2).
pub open spec fn spec_sub_vv(src1: u64, src2: u64, sew: usize) -> u64 {
    if valid_sew(sew) {
        ((src2 as int - src1 as int) % elem_mod(sew)) as u64
    } else {
        0
    }
}

pub fn binop_sub_vv(src1: u64, src2: u64, sew: usize) -> (r: u64)
    ensures
        r == spec_sub_vv(src1, src2, sew),
{
    if !(sew == 1 || sew == 2 || sew == 4 || sew == 8) {
        return 0;
    }
    let r = trunc(src2.wrapping_sub(src1), sew);
    proof {
        lemma_wrap_then_elem(src2 - src1, sew);
    }
    r
}

/// vmax.vv: the signed-larger of the two elements (`vs1` on ties).
pub open spec fn spec_max_vv(src1: u64, src2: u64, sew: usize) -> u64 {
    if valid_sew(sew) {
        let a = src1 as int % elem_mod(sew);
        let b = src2 as int % elem_mod(sew);
        (if signed_elem(a, sew) >= signed_elem(b, sew) {
            a
        } else {
            b
        }) as u64
    } else {
        0
    }
}

fn signed_of_elem(x: u64, sew: usize) -> (r: i64)
    requires
        valid_sew(sew),
        x < elem_mod(sew),
    ensures
        r == signed_elem(x as int, sew),
{
    proof {
        lemma_elem_mod_values();
    }
    if sew == 8 {
        let r = #[verifier::truncate] (x as i64);
        assert(r == (if x >= 0x8000_0000_0000_0000 {
            x as int - 0x1_0000_0000_0000_0000
        } else {
            x as int
        }) as i64) by (bit_vector)
            requires
                r == x as i64,
        ;
        r
    } else {
        let m: u64 = if sew == 1 {
            0x100
        } else if sew == 2 {
            0x1_0000
        } else {
            0x1_0000_0000
        };
        if x >= m / 2 {
            x as i64 - m as i64
        } else {
            x as i64
        }
    }
}

pub fn binop_max_vv(src1: u64, src2: u64, sew: usize) -> (r: u64)
    ensures
        r == spec_max_vv(src1, src2, sew),
{
    if !(sew == 1 || sew == 2 || sew == 4 || sew == 8) {
        return 0;
    }
    proof {
        lemma_elem_mod_values();
    }
    let a = trunc(src1, sew);
    let b = trunc(src2, sew);
    if signed_of_elem(a, sew) >= signed_of_elem(b, sew) {
        a
    } else {
        b
    }
}

/// vadd.vx: `src + scalar` at SEW.
pub open spec fn spec_add_vx(scalar: u64, src: u64, sew: usize) -> u64 {
    if valid_sew(sew) {
        ((src as int + scalar as int) % elem_mod(sew)) as u64
    } else {
        0
    }
}

pub fn binop_add_vx(scalar: u64, src: u64, sew: usize) -> (r: u64)
    ensures
        r == spec_add_vx(scalar, src, sew),
{
    if !(sew == 1 || sew == 2 || sew == 4 || sew == 8) {
        return 0;
    }
    let r = trunc(src.wrapping_add(scalar), sew);
    proof {
        lemma_wrap_then_elem(src + scalar, sew);
    }
    r
}

/// vand.vx: `src & scalar` at SEW.
pub open spec fn spec_and_vx(scalar: u64, src: u64, sew: usize) -> u64 {
    if valid_sew(sew) {
        ((src & scalar) as int % elem_mod(sew)) as u64
    } else {
        0
    }
}

pub fn binop_and_vx(scalar: u64, src: u64, sew: usize) -> (r: u64)
    ensures
        r == spec_and_vx(scalar, src, sew),
{
    if !(sew == 1 || sew == 2 || sew == 4 || sew == 8) {
        return 0;
    }
    trunc(src & scalar, sew)
}

/// vmerge.vim: the immediate at SEW.
pub open spec fn spec_merge_vi(simm5: i32, sew: usize) -> u64 {
    if valid_sew(sew) {
        (simm5 as int % elem_mod(sew)) as u64
    } else {
        0
    }
}

pub fn merge_scalar_vi(simm5: i32, sew: usize) -> (r: u64)
    ensures
        r == spec_merge_vi(simm5, sew),
{
    if !(sew == 1 || sew == 2 || sew == 4 || sew == 8) {
        return 0;
    }
    let r = trunc(from_i64(simm5 as i64), sew);
    proof {
        lemma_wrap_then_elem(simm5 as int, sew);
    }
    r
}

/// vmerge.vxm: the scalar at SEW; at SEW = 64 the 32-bit scalar is sign-extended.
pub open spec fn spec_merge_vx(scalar: u32, sew: usize) -> u64 {
    if sew == 8 {
        to_u64(sext32(scalar))
    } else if valid_sew(sew) {
        (scalar as int % elem_mod(sew)) as u64
    } else {
        0
    }
}

pub fn merge_scalar_vx(scalar: u32, sew: usize) -> (r: u64)
    ensures
        r == spec_merge_vx(scalar, sew),
{
    proof {
        lemma_elem_mod_values();
    }
    if sew == 8 {
        let s = crate::hart::as_signed(scalar);
        from_i64(s as i64)
    } else if sew == 1 || sew == 2 || sew == 4 {
        trunc(scalar as u64, sew)
    } else {
        0
    }
}

/// The GPR scalar of an OP-IVX compare, sign-extended to 64 bits from SEW; at SEW = 64
/// the 32-bit register is itself the value, sign-extended from bit 31.
pub open spec fn spec_scalar_sext(scalar: u32, sew: usize) -> i64 {
    if sew == 8 {
        sext32(scalar) as i64
    } else if valid_sew(sew) {
        signed_elem(scalar as int % elem_mod(sew), sew) as i64
    } else {
        0
    }
}

pub fn scalar_sext(scalar: u32, sew_bytes: usize) -> (r: i64)
    ensures
        r == spec_scalar_sext(scalar, sew_bytes),
{
    proof {
        lemma_elem_mod_values();
    }
    if sew_bytes == 8 {
        crate::hart::as_signed(scalar) as i64
    } else if sew_bytes == 1 || sew_bytes == 2 || sew_bytes == 4 {
        let t = trunc(scalar as u64, sew_bytes);
        signed_of_elem(t, sew_bytes)
    } else {
        0
    }
}

/// vmacc.vv: `vs1 · vs2 + vd` on the signed elements, wrapped to SEW.
pub open spec fn spec_macc(src1: u64, src2: u64, dst: u64, sew: usize) -> u64 {
    if valid_sew(sew) {
        ((signed_elem(src1 as int % elem_mod(sew), sew) * signed_elem(src2 as int % elem_mod(sew), sew)
            + signed_elem(dst as int % elem_mod(sew), sew)) % elem_mod(sew)) as u64
    } else {
        dst
    }
}

pub fn binop_macc(src1: u64, src2: u64, dst: u64, sew: usize) -> (r: u64)
    ensures
        r == spec_macc(src1, src2, dst, sew),
{
    if !(sew == 1 || sew == 2 || sew == 4 || sew == 8) {
        return dst;
    }
    proof {
        lemma_elem_mod_values();
    }
    let a = trunc(src1, sew);
    let b = trunc(src2, sew);
    let c = trunc(dst, sew);
    // Unsigned wrapping arithmetic agrees with the signed result modulo the element width.
    let p = a.wrapping_mul(b).wrapping_add(c);
    let r = trunc(p, sew);
    proof {
        let m = elem_mod(sew);
        let sa = signed_elem(a as int, sew);
        let sb = signed_elem(b as int, sew);
        let sc = signed_elem(c as int, sew);
        let w: int = 0x1_0000_0000_0000_0000int;
        assert(sa % m == a as int % m && sb % m == b as int % m && sc % m == c as int % m) by {
            if sa != a as int {
                vstd::arithmetic::div_mod::lemma_mod_sub_multiples_vanish(a as int, m);
            }
            if sb != b as int {
                vstd::arithmetic::div_mod::lemma_mod_sub_multiples_vanish(b as int, m);
            }
            if sc != c as int {
                vstd::arithmetic::div_mod::lemma_mod_sub_multiples_vanish(c as int, m);
            }
        }
        let ab = (a as int * b as int) % w;
        lemma_wrap_then_elem(a as int * b as int, sew);
        lemma_wrap_then_elem(ab + c as int, sew);
        vstd::arithmetic::div_mod::lemma_add_mod_noop(ab, c as int, m);
        vstd::arithmetic::div_mod::lemma_add_mod_noop(a as int * b as int, c as int, m);
        vstd::arithmetic::div_mod::lemma_mul_mod_noop(sa, sb, m);
        vstd::arithmetic::div_mod::lemma_mul_mod_noop(a as int, b as int, m);
        vstd::arithmetic::div_mod::lemma_add_mod_noop(sa * sb, sc, m);
    }
    r
}

} // verus!
