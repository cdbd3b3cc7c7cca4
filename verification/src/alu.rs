//! Integer ALU semantics of RV32IM and of the RV64 word (`*W`) operations.

use vstd::prelude::*;
use vstd::arithmetic::power2::{lemma_pow2_pos, pow2};
use vstd::bits::{lemma_u32_shr_is_div, lemma_u64_pow2_no_overflow, lemma_u64_shl_is_mul};
use vstd::arithmetic::div_mod::{
    lemma_add_mod_noop_right, lemma_fundamental_div_mod, lemma_mod_multiples_vanish, lemma_small_mod,
};

verus! {

/// An integer reduced modulo 2^32.
pub open spec fn to_u32(i: int) -> u32 {
    (i % 0x1_0000_0000) as u32
}

/// A 32-bit word read as a two's-complement signed integer.
pub open spec fn sext32(x: u32) -> int {
    if x < 0x8000_0000 {
        x as int
    } else {
        x as int - 0x1_0000_0000
    }
}

/// Reading a word as `i32`, and widening that to 64 bits, as integer arithmetic.
pub proof fn lemma_word_sign(x: u32, s: i32, w: u64)
    by (bit_vector)
    requires
        s == x as i32,
        w == (s as i64) as u64,
    ensures
        s as int == sext32(x),
        w == if x < 0x8000_0000 {
            x as u64
        } else {
            (x + 0xFFFF_FFFF_0000_0000) as u64
        },
{
}

/// Bitwise complement of a word as subtraction.
proof fn lemma_u32_not(x: u32)
    by (bit_vector)
    ensures
        !x == 0xFFFF_FFFF - x,
{
}

/// The high word of a 64-bit signed product: an arithmetic shift is a floor division.
proof fn lemma_high_half(p: i64, q: i64)
    by (bit_vector)
    requires
        q == p >> 32u64,
    ensures
        q as int == (p as int) / 4294967296,
{
}

pub open spec fn abs(i: int) -> int {
    if i < 0 {
        -i
    } else {
        i
    }
}

/// Division rounding toward zero (divisor nonzero).
pub open spec fn trunc_div(a: int, b: int) -> int {
    if (a < 0) == (b < 0) {
        abs(a) / abs(b)
    } else {
        -(abs(a) / abs(b))
    }
}

/// The remainder that goes with [`trunc_div`]: it has the sign of the dividend.
pub open spec fn trunc_rem(a: int, b: int) -> int {
    a - b * trunc_div(a, b)
}

/// The shift amount of a 32-bit shift: the low five bits of the operand.
pub open spec fn shamt32(b: u32) -> nat {
    (b % 32) as nat
}

pub open spec fn spec_sll(a: u32, b: u32) -> u32 {
    to_u32(a * pow2(shamt32(b)))
}

pub open spec fn spec_srl(a: u32, b: u32) -> u32 {
    (a as nat / pow2(shamt32(b))) as u32
}

/// Arithmetic right shift: floor division of the signed value by 2^shamt.
pub open spec fn spec_sra(a: u32, b: u32) -> u32 {
    to_u32(sext32(a) / pow2(shamt32(b)) as int)
}

pub open spec fn spec_slt(a: u32, b: u32) -> u32 {
    if sext32(a) < sext32(b) {
        1
    } else {
        0
    }
}

pub open spec fn spec_sltu(a: u32, b: u32) -> u32 {
    if a < b {
        1
    } else {
        0
    }
}

pub open spec fn spec_mulh(a: u32, b: u32) -> u32 {
    to_u32((sext32(a) * sext32(b)) / 0x1_0000_0000)
}

pub open spec fn spec_mulhsu(a: u32, b: u32) -> u32 {
    to_u32((sext32(a) * b) / 0x1_0000_0000)
}

pub open spec fn spec_mulhu(a: u32, b: u32) -> u32 {
    ((a * b) / 0x1_0000_0000) as u32
}

/// Signed division; division by zero gives all ones, and the one overflowing quotient
/// (`i32::MIN / -1`) wraps to `i32::MIN`.
pub open spec fn spec_div(a: u32, b: u32) -> u32 {
    if b == 0 {
        0xFFFF_FFFF
    } else {
        to_u32(trunc_div(sext32(a), sext32(b)))
    }
}

pub open spec fn spec_divu(a: u32, b: u32) -> u32 {
    if b == 0 {
        0xFFFF_FFFF
    } else {
        a / b
    }
}

/// Signed remainder; the remainder of a division by zero is the dividend.
pub open spec fn spec_rem(a: u32, b: u32) -> u32 {
    if b == 0 {
        a
    } else {
        to_u32(trunc_rem(sext32(a), sext32(b)))
    }
}

pub open spec fn spec_remu(a: u32, b: u32) -> u32 {
    if b == 0 {
        a
    } else {
        a % b
    }
}

proof fn lemma_shl_pow2(s: u32)
    requires
        s < 32,
    ensures
        (1u64 << s) == pow2(s as nat),
{
    lemma_u64_pow2_no_overflow(s as nat);
    lemma_u64_shl_is_mul(1, s as u64);
}

pub fn alu_add(a: u32, b: u32) -> (r: u32)
    ensures
        r == to_u32(a + b),
{
    a.wrapping_add(b)
}

pub fn alu_sub(a: u32, b: u32) -> (r: u32)
    ensures
        r == to_u32(a - b),
{
    a.wrapping_sub(b)
}

pub fn alu_sll(a: u32, b: u32) -> (r: u32)
    ensures
        r == spec_sll(a, b),
{
    let s = b & 31;
    proof {
        crate::bits::lemma_u32_fields(b);
    }
    let r = a << s;
    proof {
        assert((a << s) as int == ((a as int) * ((1u64 << s) as int)) % 0x1_0000_0000)
            by (bit_vector)
            requires
                s < 32,
        ;
        lemma_shl_pow2(s);
    }
    r
}

pub fn alu_srl(a: u32, b: u32) -> (r: u32)
    ensures
        r == spec_srl(a, b),
{
    let s = b & 31;
    proof {
        crate::bits::lemma_u32_fields(b);
    }
    proof {
        lemma_u32_shr_is_div(a, s);
    }
    a >> s
}

proof fn lemma_floor_neg(y: int, d: int)
    requires
        y >= 0,
        d > 0,
    ensures
        (-y - 1) / d == -(y / d) - 1,
{
    let q = y / d;
    let r = y % d;
    vstd::arithmetic::div_mod::lemma_fundamental_div_mod(y, d);
    assert(0 <= r < d);
    assert(-y - 1 == d * (-q - 1) + (d - 1 - r)) by (nonlinear_arith)
        requires
            y == d * q + r,
    ;
    vstd::arithmetic::div_mod::lemma_fundamental_div_mod_converse(-y - 1, d, -q - 1, d - 1 - r);
}

pub fn alu_sra(a: u32, b: u32) -> (r: u32)
    ensures
        r == spec_sra(a, b),
{
    let s = b & 31;
    proof {
        crate::bits::lemma_u32_fields(b);
    }
    let r = #[verifier::truncate] ((#[verifier::truncate] (a as i32) >> s) as u32);
    assert(r == if a < 0x8000_0000 {
        a >> s
    } else {
        !((!a) >> s)
    }) by (bit_vector)
        requires
            s < 32,
            r == ((a as i32) >> s) as u32,
    ;
    proof {
        let p = pow2(s as nat);
        lemma_pow2_pos(s as nat);
        if a < 0x8000_0000 {
            lemma_u32_shr_is_div(a, s);
        } else {
            let y = !a;
            lemma_u32_not(a);
            lemma_u32_shr_is_div(y, s);
            let t = y >> s;
            lemma_u32_not(t);
            assert(r == !t);
            lemma_floor_neg(y as int, p as int);
            assert(sext32(a) == -(y as int) - 1);
        }
    }
    r
}

pub fn alu_slt(a: u32, b: u32) -> (r: u32)
    ensures
        r == spec_slt(a, b),
{
    let x = #[verifier::truncate] (a as i32);
    let y = #[verifier::truncate] (b as i32);
    proof {
        lemma_word_sign(a, x, (x as i64) as u64);
        lemma_word_sign(b, y, (y as i64) as u64);
    }
    if x < y {
        1
    } else {
        0
    }
}

pub fn alu_sltu(a: u32, b: u32) -> (r: u32)
    ensures
        r == spec_sltu(a, b),
{
    if a < b {
        1
    } else {
        0
    }
}

pub fn alu_mul(a: u32, b: u32) -> (r: u32)
    ensures
        r == to_u32(a * b),
{
    a.wrapping_mul(b)
}

fn signed_of(a: u32) -> (r: i64)
    ensures
        r == sext32(a),
{
    let x = #[verifier::truncate] (a as i32);
    proof {
        lemma_word_sign(a, x, (x as i64) as u64);
    }
    x as i64
}

fn high_word(p: i64) -> (r: u32)
    ensures
        r == to_u32(p / 0x1_0000_0000),
{
    let q = p >> 32u64;
    let r = #[verifier::truncate] (q as u32);
    proof {
        lemma_high_half(p, q);
    }
    assert(r as int == (q as int) % 4294967296) by (bit_vector)
        requires
            r == q as u32,
    ;
    r
}

pub fn alu_mulh(a: u32, b: u32) -> (r: u32)
    ensures
        r == spec_mulh(a, b),
{
    let x = signed_of(a);
    let y = signed_of(b);
    assert(-0x4000_0000_0000_0000 <= x * y <= 0x4000_0000_0000_0000) by (nonlinear_arith)
        requires
            -0x8000_0000 <= x <= 0x7fff_ffff,
            -0x8000_0000 <= y <= 0x7fff_ffff,
    ;
    high_word(x * y)
}

pub fn alu_mulhsu(a: u32, b: u32) -> (r: u32)
    ensures
        r == spec_mulhsu(a, b),
{
    let x = signed_of(a);
    let y = b as i64;
    assert(-0x8000_0000_0000_0000 < x * y < 0x8000_0000_0000_0000) by (nonlinear_arith)
        requires
            -0x8000_0000 <= x <= 0x7fff_ffff,
            0 <= y <= 0xffff_ffff,
    ;
    high_word(x * y)
}

pub fn alu_mulhu(a: u32, b: u32) -> (r: u32)
    ensures
        r == spec_mulhu(a, b),
{
    let x = a as u64;
    let y = b as u64;
    assert(x * y <= 0xffff_fffe_0000_0001) by (nonlinear_arith)
        requires
            x <= 0xffff_ffff,
            y <= 0xffff_ffff,
    ;
    let p = x * y;
    let q = p >> 32u64;
    proof {
        crate::bits::lemma_u64_fields(p);
    }
    
    q as u32
}

/// The magnitude of a word read as signed, as an unsigned word (`i32::MIN` gives 2^31).
fn magnitude(a: u32) -> (r: u32)
    ensures
        r == abs(sext32(a)),
{
    if a >= 0x8000_0000 {
        0u32.wrapping_sub(a)
    } else {
        a
    }
}

pub fn alu_div(a: u32, b: u32) -> (r: u32)
    ensures
        r == spec_div(a, b),
{
    if b == 0 {
        return 0xFFFF_FFFF;
    }
    let ua = magnitude(a);
    let ub = magnitude(b);
    let q = ua / ub;
    if (a >= 0x8000_0000) != (b >= 0x8000_0000) {
        let r = 0u32.wrapping_sub(q);
        proof {
            if q == 0 {
                assert(r == 0);
            } else {
                assert(r == 0x1_0000_0000 - q);
            }
        }
        r
    } else {
        q
    }
}

pub fn alu_divu(a: u32, b: u32) -> (r: u32)
    ensures
        r == spec_divu(a, b),
{
    if b == 0 {
        0xFFFF_FFFF
    } else {
        a / b
    }
}

pub fn alu_rem(a: u32, b: u32) -> (r: u32)
    ensures
        r == spec_rem(a, b),
{
    if b == 0 {
        return a;
    }
    let ua = magnitude(a);
    let ub = magnitude(b);
    let m = ua % ub;
    proof {
        let sa = sext32(a);
        let sb = sext32(b);
        let q = (ua as int) / (ub as int);
        vstd::arithmetic::div_mod::lemma_fundamental_div_mod(ua as int, ub as int);
        if (sa < 0) == (sb < 0) {
            assert(trunc_div(sa, sb) == q);
            if sa < 0 {
                assert(sb * q == -(ub * q)) by (nonlinear_arith)
                    requires
                        sb == -(ub as int),
                ;
            } else {
                assert(sb * q == ub * q);
            }
        } else {
            assert(trunc_div(sa, sb) == -q);
            if sa < 0 {
                assert(sb * (-q) == -(ub * q)) by (nonlinear_arith)
                    requires
                        sb == ub as int,
                ;
            } else {
                assert(sb * (-q) == ub * q) by (nonlinear_arith)
                    requires
                        sb == -(ub as int),
                ;
            }
        }
    }
    if a >= 0x8000_0000 {
        let r = 0u32.wrapping_sub(m);
        proof {
            if m == 0 {
                assert(r == 0);
            } else {
                assert(r == 0x1_0000_0000 - m);
            }
        }
        r
    } else {
        m
    }
}

pub fn alu_remu(a: u32, b: u32) -> (r: u32)
    ensures
        r == spec_remu(a, b),
{
    if b == 0 {
        a
    } else {
        a % b
    }
}

// ---------------------------------------------------------------------------
// RV64 word operations: compute on the low 32 bits, sign-extend the result.
// ---------------------------------------------------------------------------
/// The low 32 bits of a doubleword.
pub open spec fn lo32(a: u64) -> u32 {
    (a % 0x1_0000_0000) as u32
}

/// A word sign-extended to 64 bits.
pub open spec fn sext_w(x: u32) -> u64 {
    if x < 0x8000_0000 {
        x as u64
    } else {
        (x + 0xFFFF_FFFF_0000_0000) as u64
    }
}

fn low_word(a: u64) -> (r: u32)
    ensures
        r == lo32(a),
{
    let r = #[verifier::truncate] (a as u32);
    proof {
        crate::bits::lemma_u64_fields(a);
    }
    r
}

fn sign_extend_word(x: u32) -> (r: u64)
    ensures
        r == sext_w(x),
{
    let s = #[verifier::truncate] (x as i32);
    let r = s as i64 as u64;
    proof {
        lemma_word_sign(x, s, r);
    }
    r
}

pub fn alu_addw(a: u64, b: u64) -> (r: u64)
    ensures
        r == sext_w(to_u32(lo32(a) + lo32(b))),
{
    sign_extend_word(alu_add(low_word(a), low_word(b)))
}

pub fn alu_subw(a: u64, b: u64) -> (r: u64)
    ensures
        r == sext_w(to_u32(lo32(a) - lo32(b))),
{
    sign_extend_word(alu_sub(low_word(a), low_word(b)))
}

pub fn alu_sllw(a: u64, b: u64) -> (r: u64)
    ensures
        r == sext_w(spec_sll(lo32(a), lo32(b))),
{
    sign_extend_word(alu_sll(low_word(a), low_word(b)))
}

pub fn alu_srlw(a: u64, b: u64) -> (r: u64)
    ensures
        r == sext_w(spec_srl(lo32(a), lo32(b))),
{
    sign_extend_word(alu_srl(low_word(a), low_word(b)))
}

pub fn alu_sraw(a: u64, b: u64) -> (r: u64)
    ensures
        r == sext_w(spec_sra(lo32(a), lo32(b))),
{
    sign_extend_word(alu_sra(low_word(a), low_word(b)))
}

pub fn alu_mulw(a: u64, b: u64) -> (r: u64)
    ensures
        r == sext_w(to_u32(lo32(a) * lo32(b))),
{
    sign_extend_word(alu_mul(low_word(a), low_word(b)))
}

pub fn alu_divw(a: u64, b: u64) -> (r: u64)
    ensures
        r == sext_w(spec_div(lo32(a), lo32(b))),
{
    sign_extend_word(alu_div(low_word(a), low_word(b)))
}

pub fn alu_divuw(a: u64, b: u64) -> (r: u64)
    ensures
        r == sext_w(spec_divu(lo32(a), lo32(b))),
{
    sign_extend_word(alu_divu(low_word(a), low_word(b)))
}

pub fn alu_remw(a: u64, b: u64) -> (r: u64)
    ensures
        r == sext_w(spec_rem(lo32(a), lo32(b))),
{
    sign_extend_word(alu_rem(low_word(a), low_word(b)))
}

pub fn alu_remuw(a: u64, b: u64) -> (r: u64)
    ensures
        r == sext_w(spec_remu(lo32(a), lo32(b))),
{
    sign_extend_word(alu_remu(low_word(a), low_word(b)))
}

/// ADDIW: `imm` is the sign-extended 12-bit immediate.
pub fn alu_addiw(a: u64, imm: u32) -> (r: u64)
    ensures
        r == sext_w(to_u32(lo32(a) + imm)),
{
    sign_extend_word(alu_add(low_word(a), imm))
}

pub fn alu_slliw(a: u64, imm: u32) -> (r: u64)
    ensures
        r == sext_w(spec_sll(lo32(a), imm)),
{
    sign_extend_word(alu_sll(low_word(a), imm))
}

pub fn alu_srliw(a: u64, imm: u32) -> (r: u64)
    ensures
        r == sext_w(spec_srl(lo32(a), imm)),
{
    sign_extend_word(alu_srl(low_word(a), imm))
}

pub fn alu_sraiw(a: u64, imm: u32) -> (r: u64)
    ensures
        r == sext_w(spec_sra(lo32(a), imm)),
{
    sign_extend_word(alu_sra(low_word(a), imm))
}


/// Quotient times divisor plus remainder gives back the dividend, modulo 2^32, for every
/// pair of words: signed and unsigned, division by zero and the overflowing
/// `i32::MIN / -1` included.
pub proof fn lemma_div_rem_identity(a: u32, b: u32)
    ensures
        to_u32(spec_div(a, b) * b + spec_rem(a, b)) == a,
        to_u32(spec_divu(a, b) * b + spec_remu(a, b)) == a,
{
    let m: int = 0x1_0000_0000;
    lemma_small_mod(a as nat, m as nat);
    if b != 0 {
        lemma_fundamental_div_mod(a as int, b as int);
        assert(spec_divu(a, b) * b + spec_remu(a, b) == a) by (nonlinear_arith)
            requires
                a == b * (a / b) + a % b,
                spec_divu(a, b) == a / b,
                spec_remu(a, b) == a % b,
        ;
        let sa = sext32(a);
        let sb = sext32(b);
        let q = trunc_div(sa, sb);
        let r = sa - sb * q;
        let qm = q % m;
        let rm = r % m;
        assert(spec_div(a, b) as int == qm);
        assert(spec_rem(a, b) as int == rm);
        // Reduce the remainder.
        lemma_add_mod_noop_right(qm * b, r, m);
        // Reduce the quotient: `qm * b` and `q * b` differ by a multiple of 2^32.
        lemma_fundamental_div_mod(q, m);
        assert(q * b + r == m * ((q / m) * b) + (qm * b + r)) by (nonlinear_arith)
            requires
                q == m * (q / m) + qm,
        ;
        lemma_mod_multiples_vanish((q / m) * b, qm * b + r, m);
        // Read the divisor as signed: `b` and `sb` differ by a multiple of 2^32.
        let c: int = if b < 0x8000_0000 { 0 } else { 1 };
        assert(q * b + r == m * (q * c) + sa) by (nonlinear_arith)
            requires
                b == sb + m * c,
                r == sa - sb * q,
        ;
        lemma_mod_multiples_vanish(q * c, sa, m);
        // Read the dividend as signed.
        let d: int = if a < 0x8000_0000 { 0 } else { 1 };
        assert(sa == m * (-d) + a);
        lemma_mod_multiples_vanish(-d, a as int, m);
    }
}

} // verus!
