//! Instruction word fields and immediates of the RISC-V base encodings.

use vstd::prelude::*;

verus! {

/// Bits `[6:0]`: the major opcode.
pub open spec fn spec_opcode(inst: u32) -> u32 {
    inst % 128
}

/// Bits `[11:7]`: destination register.
pub open spec fn spec_rd(inst: u32) -> u8 {
    ((inst / 128) % 32) as u8
}

/// Bits `[14:12]`.
pub open spec fn spec_funct3(inst: u32) -> u32 {
    (inst / 4096) % 8
}

/// Bits `[19:15]`: first source register.
pub open spec fn spec_rs1(inst: u32) -> u8 {
    ((inst / 0x8000) % 32) as u8
}

/// Bits `[24:20]`: second source register.
pub open spec fn spec_rs2(inst: u32) -> u8 {
    ((inst / 0x10_0000) % 32) as u8
}

/// Bits `[31:25]`.
pub open spec fn spec_funct7(inst: u32) -> u32 {
    inst / 0x200_0000
}

/// Bits `[31:20]`: the CSR address of a SYSTEM instruction.
pub open spec fn spec_csr(inst: u32) -> u32 {
    inst / 0x10_0000
}

/// I-type immediate: bits `[31:20]`, sign-extended to 32 bits.
pub open spec fn spec_imm_i(inst: u32) -> u32 {
    let v = inst / 0x10_0000;
    if v >= 0x800 { (v + 0xFFFF_F000) as u32 } else { v }
}

/// S-type immediate: bits `[31:25] ++ [11:7]`, sign-extended.
pub open spec fn spec_imm_s(inst: u32) -> u32 {
    let v = (inst / 0x200_0000) * 32 + (inst / 128) % 32;
    if v >= 0x800 { (v + 0xFFFF_F000) as u32 } else { v as u32 }
}

/// B-type immediate: `inst[31] ++ inst[7] ++ inst[30:25] ++ inst[11:8] ++ 0`, sign-extended.
pub open spec fn spec_imm_b(inst: u32) -> u32 {
    let v = (inst / 0x8000_0000) * 0x1000 + ((inst / 128) % 2) * 0x800 + ((inst / 0x200_0000)
        % 64) * 32 + ((inst / 256) % 16) * 2;
    if v >= 0x1000 { (v + 0xFFFF_E000) as u32 } else { v as u32 }
}

/// U-type immediate: bits `[31:12]` in place, low twelve bits zero.
pub open spec fn spec_imm_u(inst: u32) -> u32 {
    ((inst / 4096) * 4096) as u32
}

/// J-type immediate: `inst[31] ++ inst[19:12] ++ inst[20] ++ inst[30:21] ++ 0`, sign-extended.
pub open spec fn spec_imm_j(inst: u32) -> u32 {
    let v = (inst / 0x8000_0000) * 0x10_0000 + ((inst / 4096) % 256) * 4096 + ((inst
        / 0x10_0000) % 2) * 0x800 + ((inst / 0x20_0000) % 1024) * 2;
    if v >= 0x10_0000 { (v + 0xFFE0_0000) as u32 } else { v as u32 }
}

/// Bits `[31:26]`: the vector funct6.
pub open spec fn spec_funct6(inst: u32) -> u32 {
    inst / 0x400_0000
}

/// Bit 25: the vector mask bit (`1` = unmasked).
pub open spec fn spec_vm(inst: u32) -> u32 {
    (inst / 0x200_0000) % 2
}

/// Bits `[31:30]`.
pub open spec fn spec_top2(inst: u32) -> u32 {
    inst / 0x4000_0000
}

/// Bits `[27:26]`: the vector memory addressing mode.
pub open spec fn spec_mop(inst: u32) -> u32 {
    (inst / 0x400_0000) % 4
}

/// Bits `[31:29]`: the vector memory field count.
pub open spec fn spec_nf(inst: u32) -> u32 {
    inst / 0x2000_0000
}

/// Bits `[24:20]`: the unit-stride lumop/sumop field.
pub open spec fn spec_lumop(inst: u32) -> u32 {
    (inst / 0x10_0000) % 32
}

/// A 5-bit register-field value read as a signed immediate, sign-extended to 32 bits.
pub open spec fn spec_simm5(v: u8) -> u32 {
    if v >= 16 { (v + 0xFFFF_FFE0) as u32 } else { v as u32 }
}

/// Each shift-and-mask used to cut fields out of a 32-bit word equals the matching
/// division and remainder.
pub proof fn lemma_u32_fields(x: u32)
    by (bit_vector)
    ensures
        (x >> 26) & 0x3f == x / 0x400_0000,
        (x >> 25) & 1 == (x / 0x200_0000) % 2,
        (x >> 30) & 0x3 == x / 0x4000_0000,
        (x >> 26) & 0x3 == (x / 0x400_0000) % 4,
        (x >> 29) & 0x7 == x / 0x2000_0000,
        (x >> 20) & 0x1f == (x / 0x10_0000) % 32,
        x & 0x7f == x % 128,
        (x >> 7) & 0x1f == (x / 128) % 32,
        (x >> 12) & 0x7 == (x / 4096) % 8,
        (x >> 15) & 0x1f == (x / 0x8000) % 32,
        (x >> 15) & 0x7fff == (x / 0x8000) % 0x8000,
        x >> 25 == x / 0x200_0000,
        x >> 20 == x / 0x10_0000,
        x >> 1 == x / 2,
        x & 0xffff_f000 == ((x / 4096) * 4096) as u32,
        x & 1 == x % 2,
        x & 7 == x % 8,
        (x >> 3) & 7 == (x / 8) % 8,
        x & 0x1f == x % 32,
        x & 0xff == x % 256,
        (x >> 5) & 0x3ff == (x / 32) % 1024,
        (x >> 8 != 0) == (x / 256 != 0),
        (x >> 8u32) & 0xff == (x / 256) % 256,
        (x >> 16u32) & 0xff == ((x / 256) / 256) % 256,
        (x >> 24u32) & 0xff == (((x / 256) / 256) / 256) % 256,
        x & !1u32 == x / 2 * 2,
        !x == 0xFFFF_FFFF - x,
{
}

/// The same for a 64-bit word: masks, shifts and truncation as remainders and quotients.
pub proof fn lemma_u64_fields(x: u64)
    by (bit_vector)
    ensures
        x & 0xff == x % 0x100,
        x & 0xffff == x % 0x1_0000,
        x & 0xffff_ffff == x % 0x1_0000_0000,
        x >> 32u64 == x / 0x1_0000_0000,
        x >> 32u64 <= 0xffff_ffff,
        x >> 16u64 == x / 0x1_0000,
        (x as u32) as int == (x as int) % 0x1_0000_0000,
        x >> 8u64 == x / 256,
{
}

/// Bit `k` of a byte, for each `k < 8`, as a quotient and remainder.
pub proof fn lemma_byte_bits(b: u8)
    by (bit_vector)
    ensures
        ((b >> 0u8) & 1 != 0) == ((b / 1) % 2 == 1),
        ((b >> 1u8) & 1 != 0) == ((b / 2) % 2 == 1),
        ((b >> 2u8) & 1 != 0) == ((b / 4) % 2 == 1),
        ((b >> 3u8) & 1 != 0) == ((b / 8) % 2 == 1),
        ((b >> 4u8) & 1 != 0) == ((b / 16) % 2 == 1),
        ((b >> 5u8) & 1 != 0) == ((b / 32) % 2 == 1),
        ((b >> 6u8) & 1 != 0) == ((b / 64) % 2 == 1),
        ((b >> 7u8) & 1 != 0) == ((b / 128) % 2 == 1),
{
}

pub fn funct6(inst: u32) -> (r: u32)
    ensures
        r == spec_funct6(inst),
{
    let v = (inst >> 26) & 0x3f;
    proof {
        lemma_u32_fields(inst);
    }
    v
}

pub fn vm(inst: u32) -> (r: u32)
    ensures
        r == spec_vm(inst),
        r <= 1,
{
    let v = (inst >> 25) & 1;
    proof {
        lemma_u32_fields(inst);
    }
    v
}

pub fn top2(inst: u32) -> (r: u32)
    ensures
        r == spec_top2(inst),
{
    let v = (inst >> 30) & 0x3;
    proof {
        lemma_u32_fields(inst);
    }
    v
}

pub fn mop(inst: u32) -> (r: u32)
    ensures
        r == spec_mop(inst),
{
    let v = (inst >> 26) & 0x3;
    proof {
        lemma_u32_fields(inst);
    }
    v
}

pub fn nf(inst: u32) -> (r: u32)
    ensures
        r == spec_nf(inst),
{
    let v = (inst >> 29) & 0x7;
    proof {
        lemma_u32_fields(inst);
    }
    v
}

pub fn lumop(inst: u32) -> (r: u32)
    ensures
        r == spec_lumop(inst),
{
    let v = (inst >> 20) & 0x1f;
    proof {
        lemma_u32_fields(inst);
    }
    v
}

pub fn simm5(v: u8) -> (r: u32)
    requires
        v < 32,
    ensures
        r == spec_simm5(v),
{
    if v >= 16 {
        v as u32 + 0xFFFF_FFE0
    } else {
        v as u32
    }
}

pub fn opcode(inst: u32) -> (r: u32)
    ensures
        r == spec_opcode(inst),
{
    let r = inst & 0x7f;
    proof {
        lemma_u32_fields(inst);
    }
    r
}

pub fn rd(inst: u32) -> (r: u8)
    ensures
        r == spec_rd(inst),
{
    let v = (inst >> 7) & 0x1f;
    proof {
        lemma_u32_fields(inst);
    }
    v as u8
}

pub fn funct3(inst: u32) -> (r: u32)
    ensures
        r == spec_funct3(inst),
{
    let v = (inst >> 12) & 0x7;
    proof {
        lemma_u32_fields(inst);
    }
    v
}

pub fn rs1(inst: u32) -> (r: u8)
    ensures
        r == spec_rs1(inst),
{
    let v = (inst >> 15) & 0x1f;
    proof {
        lemma_u32_fields(inst);
    }
    v as u8
}

pub fn rs2(inst: u32) -> (r: u8)
    ensures
        r == spec_rs2(inst),
{
    let v = (inst >> 20) & 0x1f;
    proof {
        lemma_u32_fields(inst);
    }
    v as u8
}

pub fn funct7(inst: u32) -> (r: u32)
    ensures
        r == spec_funct7(inst),
{
    let v = inst >> 25;
    proof {
        lemma_u32_fields(inst);
    }
    v
}

pub fn csr(inst: u32) -> (r: u32)
    ensures
        r == spec_csr(inst),
{
    let v = inst >> 20;
    proof {
        lemma_u32_fields(inst);
    }
    v
}

pub fn imm_i(inst: u32) -> (r: u32)
    ensures
        r == spec_imm_i(inst),
{
    let s = #[verifier::truncate] (inst as i32);
    let r = #[verifier::truncate] ((s >> 20u32) as u32);
    assert(r == (if inst / 0x10_0000 >= 0x800 {
        (inst / 0x10_0000 + 0xFFFF_F000) as u32
    } else {
        inst / 0x10_0000
    })) by (bit_vector)
        requires
            s == inst as i32,
            r == (s >> 20u32) as u32,
    ;
    r
}

pub fn imm_s(inst: u32) -> (r: u32)
    ensures
        r == spec_imm_s(inst),
{
    let hi = #[verifier::truncate] ((#[verifier::truncate] (inst as i32) >> 25u32) as u32);
    let r = (hi << 5u32) | ((inst >> 7) & 0x1f);
    assert(r == (if (inst / 0x200_0000) * 32 + (inst / 128) % 32 >= 0x800 {
        ((inst / 0x200_0000) * 32 + (inst / 128) % 32 + 0xFFFF_F000) as u32
    } else {
        ((inst / 0x200_0000) * 32 + (inst / 128) % 32) as u32
    })) by (bit_vector)
        requires
            hi == ((inst as i32) >> 25u32) as u32,
            r == (hi << 5u32) | ((inst >> 7) & 0x1f),
    ;
    r
}

pub fn imm_b(inst: u32) -> (r: u32)
    ensures
        r == spec_imm_b(inst),
{
    let sign = #[verifier::truncate] ((#[verifier::truncate] (inst as i32) >> 31u32) as u32);
    let r = (sign << 12u32) | (((inst >> 7) & 1) << 11u32) | (((inst >> 25) & 0x3f) << 5u32) | (((
    inst >> 8) & 0xf) << 1u32);
    assert(r == (if (inst / 0x8000_0000) * 0x1000 + ((inst / 128) % 2) * 0x800 + ((inst
        / 0x200_0000) % 64) * 32 + ((inst / 256) % 16) * 2 >= 0x1000 {
        ((inst / 0x8000_0000) * 0x1000 + ((inst / 128) % 2) * 0x800 + ((inst / 0x200_0000) % 64)
            * 32 + ((inst / 256) % 16) * 2 + 0xFFFF_E000) as u32
    } else {
        ((inst / 0x8000_0000) * 0x1000 + ((inst / 128) % 2) * 0x800 + ((inst / 0x200_0000) % 64)
            * 32 + ((inst / 256) % 16) * 2) as u32
    })) by (bit_vector)
        requires
            sign == ((inst as i32) >> 31u32) as u32,
            r == (sign << 12u32) | (((inst >> 7) & 1) << 11u32) | (((inst >> 25) & 0x3f) << 5u32)
                | (((inst >> 8) & 0xf) << 1u32),
    ;
    r
}

pub fn imm_u(inst: u32) -> (r: u32)
    ensures
        r == spec_imm_u(inst),
{
    let r = inst & 0xffff_f000;
    proof {
        lemma_u32_fields(inst);
    }
    r
}

pub fn imm_j(inst: u32) -> (r: u32)
    ensures
        r == spec_imm_j(inst),
{
    let sign = #[verifier::truncate] ((#[verifier::truncate] (inst as i32) >> 31u32) as u32);
    let r = (sign << 20u32) | (inst & 0x000f_f000) | (((inst >> 20) & 1) << 11u32) | (((inst >> 21)
        & 0x3ff) << 1u32);
    assert(r == (if (inst / 0x8000_0000) * 0x10_0000 + ((inst / 4096) % 256) * 4096 + ((inst
        / 0x10_0000) % 2) * 0x800 + ((inst / 0x20_0000) % 1024) * 2 >= 0x10_0000 {
        ((inst / 0x8000_0000) * 0x10_0000 + ((inst / 4096) % 256) * 4096 + ((inst / 0x10_0000) % 2)
            * 0x800 + ((inst / 0x20_0000) % 1024) * 2 + 0xFFE0_0000) as u32
    } else {
        ((inst / 0x8000_0000) * 0x10_0000 + ((inst / 4096) % 256) * 4096 + ((inst / 0x10_0000) % 2)
            * 0x800 + ((inst / 0x20_0000) % 1024) * 2) as u32
    })) by (bit_vector)
        requires
            sign == ((inst as i32) >> 31u32) as u32,
            r == (sign << 20u32) | (inst & 0x000f_f000) | (((inst >> 20) & 1) << 11u32) | (((inst
                >> 21) & 0x3ff) << 1u32),
    ;
    r
}

} // verus!
