//! What individual instructions do, stated on the hart state before and after a step.

use vstd::prelude::*;
use crate::hart::{mstatus_vs_off, view_wf, HartView};
use crate::inst::{DecodedInst, Inst, LoadFpInst, OpCfgInst, VInst};
use crate::machine::spec_execute;
use crate::vcontext::spec_calculate_vlmax;
use crate::vfp::{load_bytes, store_bytes};
use crate::vcontext::{pow2i, spec_mask_bit};
use crate::vexec::{
    fill_bits, n_for, min_nat, put_bit, spec_mask_compare, spec_nf, spec_sew, spec_v0, splice,
    vget_i, vreg, Relation,
};
use crate::inst::{OpIviInst, OpIvxInst, OpIvvInst};
use vstd::arithmetic::power2::pow2;
use crate::vops::spec_scalar_sext;
use crate::bus::{load_le, store_le, pow256};
use crate::vexec::{elem_result, elems_upto, opt_vget, vget, ElemLoop, ElemOp};
use crate::vinst::{simm_of, uimm_vm};

verus! {

/// `vsetvli rd, rs1, vtypei` (vector unit on): `vtype` becomes the low eight bits of the
/// `vtypei` field, VLMAX is taken for that `vtype`, and
/// - with `rs1 = x0` and `rd != x0`, `vl` becomes VLMAX and `rd` receives it;
/// - with `rs1 != x0`, `vl` becomes `min(x[rs1], VLMAX)` and `rd` (unless `x0`) receives it;
/// - with `rs1 = rd = x0`, `vl` keeps its value;
/// the step completes and falls through.
pub proof fn lemma_vsetvli(s: HartView, d: DecodedInst)
    requires
        view_wf(s),
        d.inst == Inst::V(VInst::OpCfg(OpCfgInst::Vsetvli)),
        d.rd < 32,
        d.rs1 < 32,
        !mstatus_vs_off(s.csr.mstatus),
    ensures
        ({
            let (t, r) = spec_execute(s, d);
            let vtype = ((d.imm / 32) % 1024) % 256;
            let vlmax = spec_calculate_vlmax(s.cfg.vlenb, vtype);
            &&& r is Ok
            &&& t.csr.vtype == vtype
            &&& t.pc == (s.pc + 4) % 0x1_0000_0000
            &&& (d.rs1 == 0 && d.rd != 0 ==> t.csr.vl == vlmax && t.gpr[d.rd as int] == vlmax)
            &&& (d.rs1 != 0 ==> t.csr.vl == (if s.gpr[d.rs1 as int] < vlmax {
                s.gpr[d.rs1 as int]
            } else {
                vlmax
            }))
            &&& (d.rs1 != 0 && d.rd != 0 ==> t.gpr[d.rd as int] == t.csr.vl)
            &&& (d.rs1 == 0 && d.rd == 0 ==> t.csr.vl == s.csr.vl && t.gpr == s.gpr)
            &&& t.vr == s.vr
        }),
{
}


/// A run of mapped bytes loads as the memory bytes in order.
proof fn lemma_load_bytes_mapped(s: HartView, a: int, k: nat)
    requires
        s.base <= a,
        a + k <= s.base + s.mem.len(),
    ensures
        load_bytes(s, a, k) == Ok::<Seq<u8>, int>(s.mem.subrange(a - s.base, a - s.base + k)),
    decreases k,
{
    if k > 0 {
        lemma_load_bytes_mapped(s, a, (k - 1) as nat);
        assert(s.mem.subrange(a - s.base, a - s.base + k) =~= s.mem.subrange(a - s.base, a - s.base + k - 1).push(
            s.mem[a + k - 1 - s.base],
        ));
    } else {
        assert(s.mem.subrange(a - s.base, a - s.base) =~= Seq::<u8>::empty());
    }
}

/// `vl2re16.v` / `vl2re32.v vd, (rs1)` over mapped memory: register `vd` receives the
/// `VLENB` bytes at `x[rs1]` and register `vd + 1` the next `VLENB` bytes; every other
/// vector byte, the scalar registers and memory are unchanged, and the step falls
/// through.
pub proof fn lemma_vl2re_loads_two_registers(s: HartView, d: DecodedInst)
    requires
        view_wf(s),
        d.inst == Inst::LoadFp(LoadFpInst::Vl2re16) || d.inst == Inst::LoadFp(LoadFpInst::Vl2re32),
        d.rd + 2 <= 32,
        d.rs1 < 32,
        s.base <= s.gpr[d.rs1 as int],
        s.gpr[d.rs1 as int] + 2 * s.cfg.vlenb <= s.base + s.mem.len(),
    ensures
        ({
            let (t, r) = spec_execute(s, d);
            let vlenb = s.cfg.vlenb as int;
            let off = s.gpr[d.rs1 as int] - s.base;
            &&& r is Ok
            &&& t.vr.len() == s.vr.len()
            &&& forall|k: int| 0 <= k < vlenb ==> #[trigger] t.vr[d.rd * vlenb + k] == s.mem[off + k]
            &&& forall|k: int| 0 <= k < vlenb ==> #[trigger] t.vr[(d.rd + 1) * vlenb + k] == s.mem[off + vlenb + k]
            &&& forall|k: int| 0 <= k < s.vr.len() && !(d.rd * vlenb <= k < (d.rd + 2) * vlenb) ==> #[trigger] t.vr[k] == s.vr[k]
            &&& t.gpr == s.gpr
            &&& t.mem == s.mem
            &&& t.pc == (s.pc + 4) % 0x1_0000_0000
        }),
{
    let vlenb = s.cfg.vlenb as int;
    let a = s.gpr[d.rs1 as int] as int;
    lemma_load_bytes_mapped(s, a, vlenb as nat);
    lemma_load_bytes_mapped(s, a + vlenb, vlenb as nat);
    assert((d.rd + 2) * vlenb <= 32 * vlenb) by (nonlinear_arith)
        requires
            d.rd + 2 <= 32,
            vlenb >= 0,
    ;
    assert((d.rd + 1) * vlenb == d.rd * vlenb + vlenb) by (nonlinear_arith);
    assert((d.rd + 2) * vlenb == d.rd * vlenb + 2 * vlenb) by (nonlinear_arith);
}


/// Setting or clearing bit `s` of a byte changes bit `t` only when `t == s`.
proof fn lemma_byte_update_bits(x: u8, s: u8, t: u8)
    by (bit_vector)
    requires
        s < 8,
        t < 8,
    ensures
        (((x | (1u8 << s)) >> t) & 1 != 0) == (s == t || ((x >> t) & 1 != 0)),
        (((x & !(1u8 << s)) >> t) & 1 != 0) == (s != t && ((x >> t) & 1 != 0)),
{
}

/// Bit `t` of a byte, read by shifting, is its quotient by `2^t` taken modulo 2.
proof fn lemma_byte_bit_div(y: u8, t: u8)
    requires
        t < 8,
    ensures
        ((y >> t) & 1 != 0) == ((y / (pow2i(t as nat) as u8)) % 2 == 1),
{
    reveal_with_fuel(pow2i, 9);
    crate::bits::lemma_byte_bits(y);
    if t == 0 {
        assert((y >> 0u8) == (y >> t));
    } else if t == 1 {
        assert((y >> 1u8) == (y >> t));
    } else if t == 2 {
        assert((y >> 2u8) == (y >> t));
    } else if t == 3 {
        assert((y >> 3u8) == (y >> t));
    } else if t == 4 {
        assert((y >> 4u8) == (y >> t));
    } else if t == 5 {
        assert((y >> 5u8) == (y >> t));
    } else if t == 6 {
        assert((y >> 6u8) == (y >> t));
    } else {
        assert((y >> 7u8) == (y >> t));
    }
}

/// Writing mask bit `k` sets it to the value written and leaves every other bit alone.
proof fn lemma_mask_bit_put(b: Seq<u8>, k: int, v: bool, i: int)
    requires
        0 <= k,
        0 <= i,
        k / 8 < b.len(),
    ensures
        put_bit(b, k, v).len() == b.len(),
        spec_mask_bit(put_bit(b, k, v), i) == if i == k {
            v
        } else {
            spec_mask_bit(b, i)
        },
{
    let c = put_bit(b, k, v);
    if i / 8 == k / 8 && i / 8 < b.len() {
        let x = b[k / 8];
        let sh = (k % 8) as u8;
        let t = (i % 8) as u8;
        lemma_byte_update_bits(x, sh, t);
        lemma_byte_bit_div(x, t);
        lemma_byte_bit_div(c[k / 8], t);
        assert(i == k <==> sh == t);
    }
}

/// After `fill_bits` over `lo .. hi`, a bit in that range whose value `f` gives holds it.
proof fn lemma_fill_bits_at(b: Seq<u8>, lo: int, hi: int, f: spec_fn(int) -> Option<bool>, i: int)
    requires
        0 <= lo <= i < hi,
        hi <= 8 * b.len(),
        f(i) is Some,
    ensures
        fill_bits(b, lo, hi, f).len() == b.len(),
        spec_mask_bit(fill_bits(b, lo, hi, f), i) == f(i)->Some_0,
    decreases hi - lo,
{
    lemma_fill_bits_len(b, lo, hi - 1, f);
    let c = fill_bits(b, lo, hi - 1, f);
    if i == hi - 1 {
        lemma_mask_bit_put(c, hi - 1, f(i)->Some_0, i);
    } else {
        lemma_fill_bits_at(b, lo, hi - 1, f, i);
        match f(hi - 1) {
            Some(v) => lemma_mask_bit_put(c, hi - 1, v, i),
            None => {},
        }
    }
}

proof fn lemma_fill_bits_len(b: Seq<u8>, lo: int, hi: int, f: spec_fn(int) -> Option<bool>)
    requires
        0 <= lo,
        hi <= 8 * b.len(),
    ensures
        fill_bits(b, lo, hi, f).len() == b.len(),
    decreases hi - lo,
{
    if hi > lo {
        lemma_fill_bits_len(b, lo, hi - 1, f);
        match f(hi - 1) {
            Some(v) => lemma_mask_bit_put(fill_bits(b, lo, hi - 1, f), hi - 1, v, 0),
            None => {},
        }
    }
}

/// Whether `a` stands in relation `op` to `b`.
pub open spec fn relates(op: Relation, a: int, b: int) -> bool {
    match op {
        Relation::Eq => a == b,
        Relation::Ne => a != b,
        Relation::Le => a <= b,
        Relation::Lt => a < b,
    }
}

/// A compare of `vs2` with a scalar writes, for each element `i` below the effective
/// length, mask bit `i` of `vd`: set exactly when the element is active (unmasked, or its
/// `v0` bit set) and the signed element stands in the relation to the scalar (`==`, `!=`,
/// `<=`, or strictly `<`).
pub proof fn lemma_mask_compare_bit(s: HartView, vd: u8, vs2: u8, scalar: i64, vm: bool, op: Relation, i: int)
    requires
        view_wf(s),
        s.cfg.vlenb > 0,
        vd < 32,
        vs2 < 32,
        1 <= spec_sew(s) <= 8,
        1 <= spec_nf(s) <= 8,
        0 <= i < n_for(s.csr.vl, min_nat(spec_nf(s), (32 - vs2) as nat), s.cfg.vlenb as nat, spec_sew(s)),
    ensures
        spec_mask_bit(vreg(spec_mask_compare(s, vd, vs2, scalar, vm, op).vr, s.cfg.vlenb as nat, vd as int), i)
            == ((vm || spec_mask_bit(spec_v0(s), i)) && relates(
            op,
            vget_i(s.vr, s.cfg.vlenb as nat, vs2 as int, i, spec_sew(s)) as int,
            scalar as int,
        )),
{
    let vlenb = s.cfg.vlenb as nat;
    let sew = spec_sew(s);
    let nfc = min_nat(spec_nf(s), (32 - vs2) as nat);
    let n = n_for(s.csr.vl, nfc, vlenb, sew);
    let old_bits = vreg(s.vr, vlenb, vd as int);
    let f = crate::vexec::compare_vx_bit(s.vr, spec_v0(s), vlenb, sew, vs2, scalar, vm, op);
    assert(vd * vlenb + vlenb <= 32 * vlenb) by (nonlinear_arith)
        requires
            vd < 32,
    ;
    assert(n <= 8 * vlenb) by (nonlinear_arith)
        requires
            n <= (nfc * vlenb) / sew,
            nfc <= 8,
            sew >= 1,
    ;
    lemma_fill_bits_at(old_bits, 0, n as int, f, i);
    let bits = fill_bits(old_bits, 0, n as int, f);
    let t = spec_mask_compare(s, vd, vs2, scalar, vm, op);
    assert(vreg(t.vr, vlenb, vd as int) =~= bits);
}

/// `vmslt.vx vd, vs2, rs1` (vector unit on): mask bit `i` of `vd`, for each element below
/// the effective length, is set exactly when the element is active and the signed
/// element of `vs2` is strictly less than `x[rs1]` sign-extended from SEW; an element
/// equal to the scalar gives a clear bit.
pub proof fn lemma_vmslt_vx(s: HartView, d: DecodedInst, i: int)
    requires
        view_wf(s),
        s.cfg.vlenb > 0,
        d.inst == Inst::V(VInst::OpIvx(OpIvxInst::VmsltVx)),
        d.rd < 32,
        d.rs1 < 32,
        d.rs2 < 32,
        !mstatus_vs_off(s.csr.mstatus),
        1 <= spec_sew(s) <= 8,
        1 <= spec_nf(s) <= 8,
        0 <= i < n_for(s.csr.vl, min_nat(spec_nf(s), (32 - d.rs2) as nat), s.cfg.vlenb as nat, spec_sew(s)),
    ensures
        ({
            let (t, r) = spec_execute(s, d);
            &&& r is Ok
            &&& spec_mask_bit(vreg(t.vr, s.cfg.vlenb as nat, d.rd as int), i) == ((d.imm != 0
                || spec_mask_bit(spec_v0(s), i)) && (vget_i(s.vr, s.cfg.vlenb as nat, d.rs2 as int, i, spec_sew(s)) as int)
                < (spec_scalar_sext(s.gpr[d.rs1 as int], spec_sew(s) as usize) as int))
        }),
{
    lemma_mask_compare_bit(
        s,
        d.rd,
        d.rs2,
        spec_scalar_sext(s.gpr[d.rs1 as int], spec_sew(s) as usize),
        d.imm != 0,
        Relation::Lt,
        i,
    );
}

/// `vmseq.vx vd, vs2, rs1`: mask bit `i` is set exactly when the element is active and
/// equals `x[rs1]` sign-extended from SEW.
pub proof fn lemma_vmseq_vx(s: HartView, d: DecodedInst, i: int)
    requires
        view_wf(s),
        s.cfg.vlenb > 0,
        d.inst == Inst::V(VInst::OpIvx(OpIvxInst::VmseqVx)),
        d.rd < 32,
        d.rs1 < 32,
        d.rs2 < 32,
        !mstatus_vs_off(s.csr.mstatus),
        1 <= spec_sew(s) <= 8,
        1 <= spec_nf(s) <= 8,
        0 <= i < n_for(s.csr.vl, min_nat(spec_nf(s), (32 - d.rs2) as nat), s.cfg.vlenb as nat, spec_sew(s)),
    ensures
        ({
            let (t, r) = spec_execute(s, d);
            &&& r is Ok
            &&& spec_mask_bit(vreg(t.vr, s.cfg.vlenb as nat, d.rd as int), i) == ((d.imm != 0
                || spec_mask_bit(spec_v0(s), i)) && (vget_i(s.vr, s.cfg.vlenb as nat, d.rs2 as int, i, spec_sew(s)) as int)
                == (spec_scalar_sext(s.gpr[d.rs1 as int], spec_sew(s) as usize) as int))
        }),
{
    lemma_mask_compare_bit(
        s,
        d.rd,
        d.rs2,
        spec_scalar_sext(s.gpr[d.rs1 as int], spec_sew(s) as usize),
        d.imm != 0,
        Relation::Eq,
        i,
    );
}

/// `vmseq.vi`, `vmsne.vi`, `vmsle.vi vd, vs2, simm5`: mask bit `i` is set exactly when the
/// element is active and is, respectively, equal to, different from, or at most the
/// sign-extended five-bit immediate.
pub proof fn lemma_mask_compare_vi(s: HartView, d: DecodedInst, i: int)
    requires
        view_wf(s),
        s.cfg.vlenb > 0,
        d.inst == Inst::V(VInst::OpIvi(OpIviInst::VmseqVi)) || d.inst == Inst::V(VInst::OpIvi(OpIviInst::VmsneVi))
            || d.inst == Inst::V(VInst::OpIvi(OpIviInst::VmsleVi)),
        d.rd < 32,
        d.rs1 < 32,
        d.rs2 < 32,
        !mstatus_vs_off(s.csr.mstatus),
        1 <= spec_sew(s) <= 8,
        1 <= spec_nf(s) <= 8,
        0 <= i < n_for(s.csr.vl, min_nat(spec_nf(s), (32 - d.rs2) as nat), s.cfg.vlenb as nat, spec_sew(s)),
    ensures
        ({
            let (t, r) = spec_execute(s, d);
            let e = vget_i(s.vr, s.cfg.vlenb as nat, d.rs2 as int, i, spec_sew(s)) as int;
            let imm: int = if d.imm % 32 >= 16 { d.imm % 32 - 32 } else { (d.imm % 32) as int };
            let active = d.imm / 256 != 0 || spec_mask_bit(spec_v0(s), i);
            let bit = spec_mask_bit(vreg(t.vr, s.cfg.vlenb as nat, d.rd as int), i);
            &&& r is Ok
            &&& d.inst == Inst::V(VInst::OpIvi(OpIviInst::VmseqVi)) ==> bit == (active && e == imm)
            &&& d.inst == Inst::V(VInst::OpIvi(OpIviInst::VmsneVi)) ==> bit == (active && e != imm)
            &&& d.inst == Inst::V(VInst::OpIvi(OpIviInst::VmsleVi)) ==> bit == (active && e <= imm)
        }),
{
    let op = if d.inst == Inst::V(VInst::OpIvi(OpIviInst::VmseqVi)) {
        Relation::Eq
    } else if d.inst == Inst::V(VInst::OpIvi(OpIviInst::VmsneVi)) {
        Relation::Ne
    } else {
        Relation::Le
    };
    lemma_mask_compare_bit(s, d.rd, d.rs2, simm_of(d.imm) as i64, uimm_vm(d.imm), op, i);
}


/// A word as a signed number.
pub open spec fn signed_word(x: u32) -> int {
    if x >= 0x8000_0000 {
        x - 0x1_0000_0000
    } else {
        x as int
    }
}

/// Register-register integer instructions: `rd` (unless `x0`) receives, from
/// `a = x[rs1]` and `b = x[rs2]` and modulo 2^32 where it says so, `a + b`, `a - b`,
/// `a & b`, `a | b`, `a ^ b`, `a · 2^(b mod 32)`, `a / 2^(b mod 32)`, the signed `a` divided
/// by `2^(b mod 32)` rounded down, the signed and unsigned `a < b` as 1 or 0, `a · b`, the
/// high words of the signed, signed-unsigned and unsigned products, and the unsigned
/// quotient and remainder (all ones and `a` for a zero divisor), and the signed ones for a
/// zero divisor; the step completes and falls through.
pub proof fn lemma_alu_register_register(s: HartView, d: DecodedInst)
    requires
        view_wf(s),
        d.rd < 32,
        d.rs1 < 32,
        d.rs2 < 32,
        crate::hart::is_alu_rr(d.inst),
    ensures
        ({
            let (t, r) = spec_execute(s, d);
            let a = s.gpr[d.rs1 as int];
            let b = s.gpr[d.rs2 as int];
            let v = t.gpr[d.rd as int] as int;
            let m: int = 0x1_0000_0000;
            let sh = pow2((b % 32) as nat) as int;
            &&& r is Ok
            &&& t.pc == (s.pc + 4) % m
            &&& t.gpr[0] == 0
            &&& forall|k: int| 0 <= k < 32 && k != d.rd ==> #[trigger] t.gpr[k] == s.gpr[k]
            &&& d.rd != 0 ==> {
                &&& d.inst == Inst::Add ==> v == (a + b) % m
                &&& d.inst == Inst::Sub ==> v == (a - b) % m
                &&& d.inst == Inst::And ==> v == (a & b)
                &&& d.inst == Inst::Or ==> v == (a | b)
                &&& d.inst == Inst::Xor ==> v == (a ^ b)
                &&& d.inst == Inst::Sll ==> v == (a * sh) % m
                &&& d.inst == Inst::Srl ==> v == (a as int) / sh
                &&& d.inst == Inst::Sra ==> v == (signed_word(a) / sh) % m
                &&& d.inst == Inst::Slt ==> v == if signed_word(a) < signed_word(b) { 1int } else { 0 }
                &&& d.inst == Inst::Sltu ==> v == if a < b { 1int } else { 0 }
                &&& d.inst == Inst::Mul ==> v == (a * b) % m
                &&& d.inst == Inst::Mulh ==> v == ((signed_word(a) * signed_word(b)) / m) % m
                &&& d.inst == Inst::Mulhsu ==> v == ((signed_word(a) * b) / m) % m
                &&& d.inst == Inst::Mulhu ==> v == (a * b) / m
                &&& d.inst == Inst::Divu ==> v == if b == 0 { m - 1 } else { (a / b) as int }
                &&& d.inst == Inst::Remu ==> v == if b == 0 { a as int } else { (a % b) as int }
                &&& d.inst == Inst::Div && b == 0 ==> v == m - 1
                &&& d.inst == Inst::Rem && b == 0 ==> v == a
            }
        }),
{
    let a = s.gpr[d.rs1 as int];
    let b = s.gpr[d.rs2 as int];
    vstd::arithmetic::power2::lemma_pow2_pos((b % 32) as nat);
    assert(a * b <= 0xffff_fffe_0000_0001) by (nonlinear_arith)
        requires
            a <= 0xffff_ffff,
            b <= 0xffff_ffff,
    ;
}


/// Register-immediate integer instructions: `rd` (unless `x0`) receives, from `a = x[rs1]`
/// and the sign-extended immediate `i`, modulo 2^32 where it says so, `a + i`, `a & i`,
/// `a | i`, `a ^ i`, the signed and unsigned `a < i` as 1 or 0, and the shifts by
/// `i mod 32`; the step completes and falls through.
pub proof fn lemma_alu_register_immediate(s: HartView, d: DecodedInst)
    requires
        view_wf(s),
        d.rd < 32,
        d.rs1 < 32,
        crate::hart::is_alu_ri(d.inst),
    ensures
        ({
            let (t, r) = spec_execute(s, d);
            let a = s.gpr[d.rs1 as int];
            let i = d.imm;
            let v = t.gpr[d.rd as int] as int;
            let m: int = 0x1_0000_0000;
            let sh = pow2((i % 32) as nat) as int;
            &&& r is Ok
            &&& t.pc == (s.pc + 4) % m
            &&& forall|k: int| 0 <= k < 32 && k != d.rd ==> #[trigger] t.gpr[k] == s.gpr[k]
            &&& d.rd != 0 ==> {
                &&& d.inst == Inst::Addi ==> v == (a + i) % m
                &&& d.inst == Inst::Andi ==> v == (a & i)
                &&& d.inst == Inst::Ori ==> v == (a | i)
                &&& d.inst == Inst::Xori ==> v == (a ^ i)
                &&& d.inst == Inst::Slti ==> v == if signed_word(a) < signed_word(i) { 1int } else { 0 }
                &&& d.inst == Inst::Sltiu ==> v == if a < i { 1int } else { 0 }
                &&& d.inst == Inst::Slli ==> v == (a * sh) % m
                &&& d.inst == Inst::Srli ==> v == (a as int) / sh
                &&& d.inst == Inst::Srai ==> v == (signed_word(a) / sh) % m
            }
        }),
{
    vstd::arithmetic::power2::lemma_pow2_pos((d.imm % 32) as nat);
}

/// Conditional branches: with `a = x[rs1]`, `b = x[rs2]`, the branch is taken exactly when
/// `a == b` (beq), `a != b` (bne), signed `a < b` (blt), signed `a >= b` (bge), unsigned
/// `a < b` (bltu), unsigned `a >= b` (bgeu); taken, the pc moves by the immediate modulo
/// 2^32, else to the next instruction; nothing else changes.
pub proof fn lemma_branches(s: HartView, d: DecodedInst)
    requires
        view_wf(s),
        d.rs1 < 32,
        d.rs2 < 32,
        crate::hart::is_branch(d.inst),
    ensures
        ({
            let (t, r) = spec_execute(s, d);
            let a = s.gpr[d.rs1 as int];
            let b = s.gpr[d.rs2 as int];
            let taken = match d.inst {
                Inst::Beq => a == b,
                Inst::Bne => a != b,
                Inst::Blt => signed_word(a) < signed_word(b),
                Inst::Bge => signed_word(a) >= signed_word(b),
                Inst::Bltu => a < b,
                _ => a >= b,
            };
            &&& r is Ok
            &&& t.pc == if taken { (s.pc + d.imm) % 0x1_0000_0000 } else { (s.pc + 4) % 0x1_0000_0000 }
            &&& t.gpr == s.gpr
            &&& t.vr == s.vr
            &&& t.mem == s.mem
        }),
{
}


/// `vl1re.v vd, (rs1)` over mapped memory: register `vd` receives the `VLENB` bytes at
/// `x[rs1]`; every other vector byte, the scalar registers and memory are unchanged.
pub proof fn lemma_vl1re_loads_one_register(s: HartView, d: DecodedInst)
    requires
        view_wf(s),
        d.inst == Inst::LoadFp(LoadFpInst::Vl1re16),
        d.rd < 32,
        d.rs1 < 32,
        s.base <= s.gpr[d.rs1 as int],
        s.gpr[d.rs1 as int] + s.cfg.vlenb <= s.base + s.mem.len(),
    ensures
        ({
            let (t, r) = spec_execute(s, d);
            let vlenb = s.cfg.vlenb as int;
            let off = s.gpr[d.rs1 as int] - s.base;
            &&& r is Ok
            &&& t.vr.len() == s.vr.len()
            &&& forall|k: int| 0 <= k < vlenb ==> #[trigger] t.vr[d.rd * vlenb + k] == s.mem[off + k]
            &&& forall|k: int| 0 <= k < s.vr.len() && !(d.rd * vlenb <= k < (d.rd + 1) * vlenb) ==> #[trigger] t.vr[k] == s.vr[k]
            &&& t.gpr == s.gpr
            &&& t.mem == s.mem
        }),
{
    let vlenb = s.cfg.vlenb as int;
    lemma_load_bytes_mapped(s, s.gpr[d.rs1 as int] as int, vlenb as nat);
    assert((d.rd + 1) * vlenb <= 32 * vlenb) by (nonlinear_arith)
        requires
            d.rd + 1 <= 32,
            vlenb >= 0,
    ;
    assert((d.rd + 1) * vlenb == d.rd * vlenb + vlenb) by (nonlinear_arith);
}

/// Storing a run of bytes into mapped memory writes them in order and nothing else.
proof fn lemma_store_bytes_mapped(s: HartView, vr: Seq<u8>, off: int, a: u32, k: nat)
    requires
        s.base <= a,
        a + k <= s.base + s.mem.len(),
        s.base + s.mem.len() <= 0x1_0000_0000,
    ensures
        store_bytes(s, vr, off, a, k) matches Ok(m) && m.len() == s.mem.len() && (forall|j: int|
            0 <= j < s.mem.len() ==> #[trigger] m[j] == if a - s.base <= j < a - s.base + k {
                vr[off + j - (a - s.base)]
            } else {
                s.mem[j]
            }),
    decreases k,
{
    if k > 0 {
        lemma_store_bytes_mapped(s, vr, off, a, (k - 1) as nat);
        assert(crate::vfp::wrap32(a + k - 1) == a + k - 1);
    }
}

/// `vs1r.v vs3, (rs1)` (with `vstart = 0`) over mapped memory: the `VLENB` bytes at
/// `x[rs1]` become the bytes of register `vs3`; every other memory byte and all registers
/// but the pc are unchanged.
pub proof fn lemma_vs1r_stores_one_register(s: HartView, d: DecodedInst)
    requires
        view_wf(s),
        d.inst == Inst::StoreFp(crate::inst::StoreFpInst::Vs1r),
        d.rd < 32,
        d.rs1 < 32,
        s.csr.vstart == 0,
        s.base <= s.gpr[d.rs1 as int],
        s.gpr[d.rs1 as int] + s.cfg.vlenb <= s.base + s.mem.len(),
    ensures
        ({
            let (t, r) = spec_execute(s, d);
            let vlenb = s.cfg.vlenb as int;
            let off = s.gpr[d.rs1 as int] - s.base;
            &&& r is Ok
            &&& t.mem.len() == s.mem.len()
            &&& forall|k: int| 0 <= k < vlenb ==> #[trigger] t.mem[off + k] == s.vr[d.rd * vlenb + k]
            &&& forall|j: int| 0 <= j < s.mem.len() && !(off <= j < off + vlenb) ==> #[trigger] t.mem[j] == s.mem[j]
            &&& t.vr == s.vr
            &&& t.gpr == s.gpr
        }),
{
    lemma_store_bytes_mapped(s, s.vr, d.rd * s.cfg.vlenb, s.gpr[d.rs1 as int], s.cfg.vlenb as nat);
}


/// `vsetivli rd, uimm, vtypei` (vector unit on): `vtype` becomes the low eight bits of the
/// `vtypei` field, `vl` becomes `min(uimm, VLMAX)` for that `vtype`, and `rd` (unless
/// `x0`) receives `vl`.
pub proof fn lemma_vsetivli(s: HartView, d: DecodedInst)
    requires
        view_wf(s),
        d.inst == Inst::V(VInst::OpCfg(OpCfgInst::Vsetivli)),
        d.rd < 32,
        d.rs1 < 32,
        !mstatus_vs_off(s.csr.mstatus),
    ensures
        ({
            let (t, r) = spec_execute(s, d);
            let vtype = ((d.imm / 32) % 1024) % 256;
            let vlmax = spec_calculate_vlmax(s.cfg.vlenb, vtype);
            let avl = d.imm % 32;
            &&& r is Ok
            &&& t.csr.vtype == vtype
            &&& t.csr.vl == (if avl < vlmax { avl } else { vlmax })
            &&& (d.rd != 0 ==> t.gpr[d.rd as int] == t.csr.vl)
            &&& (d.rd == 0 ==> t.gpr == s.gpr)
            &&& t.vr == s.vr
        }),
{
}


/// Scalar loads from mapped memory at `x[rs1] + imm` (modulo 2^32): `lbu`/`lhu`/`lw` give
/// the little-endian value of one, two or four bytes, `lb`/`lh` the same sign-extended
/// from bit 7 or 15; `rd` (unless `x0`) receives it and the step falls through.
pub proof fn lemma_scalar_loads(s: HartView, d: DecodedInst)
    requires
        view_wf(s),
        d.rd < 32,
        d.rs1 < 32,
        d.rs2 < 32,
        crate::hart::is_load(d.inst),
        s.base <= (s.gpr[d.rs1 as int] + d.imm) % 0x1_0000_0000,
        (s.gpr[d.rs1 as int] + d.imm) % 0x1_0000_0000 + 4 <= s.base + s.mem.len(),
    ensures
        ({
            let (t, r) = spec_execute(s, d);
            let o = (s.gpr[d.rs1 as int] + d.imm) % 0x1_0000_0000 - s.base;
            let b0 = s.mem[o] as int;
            let b1 = s.mem[o + 1] as int;
            let b2 = s.mem[o + 2] as int;
            let b3 = s.mem[o + 3] as int;
            let v = t.gpr[d.rd as int] as int;
            &&& r is Ok
            &&& t.mem == s.mem
            &&& t.pc == (s.pc + 4) % 0x1_0000_0000
            &&& d.rd != 0 ==> {
                &&& d.inst == Inst::Lbu ==> v == b0
                &&& d.inst == Inst::Lb ==> v == if b0 >= 0x80 { b0 + 0xFFFF_FF00 } else { b0 }
                &&& d.inst == Inst::Lhu ==> v == b0 + 0x100 * b1
                &&& d.inst == Inst::Lh ==> v == if b1 >= 0x80 { b0 + 0x100 * b1 + 0xFFFF_0000 } else { b0 + 0x100 * b1 }
                &&& d.inst == Inst::Lw ==> v == b0 + 0x100 * b1 + 0x1_0000 * b2 + 0x100_0000 * b3
            }
        }),
{
    let o = (s.gpr[d.rs1 as int] + d.imm) % 0x1_0000_0000 - s.base;
    reveal_with_fuel(load_le, 5);
    crate::bus::lemma_load_le_bound(s.mem, o, 2);
    crate::bus::lemma_load_le_bound(s.mem, o, 4);
    reveal_with_fuel(crate::bus::pow256, 5);
}

/// Scalar stores to mapped memory at `x[rs1] + imm` (modulo 2^32): `sb`/`sh`/`sw` write the
/// low one, two or four bytes of `x[rs2]`, least significant first, and leave every other
/// byte and every register but the pc alone.
pub proof fn lemma_scalar_stores(s: HartView, d: DecodedInst)
    requires
        view_wf(s),
        d.rd < 32,
        d.rs1 < 32,
        d.rs2 < 32,
        crate::hart::is_store(d.inst),
        s.base <= (s.gpr[d.rs1 as int] + d.imm) % 0x1_0000_0000,
        (s.gpr[d.rs1 as int] + d.imm) % 0x1_0000_0000 + 4 <= s.base + s.mem.len(),
    ensures
        ({
            let (t, r) = spec_execute(s, d);
            let o = (s.gpr[d.rs1 as int] + d.imm) % 0x1_0000_0000 - s.base;
            let x = s.gpr[d.rs2 as int] as int;
            let n: int = if d.inst == Inst::Sb { 1 } else if d.inst == Inst::Sh { 2 } else { 4 };
            &&& r is Ok
            &&& t.gpr == s.gpr
            &&& t.vr == s.vr
            &&& t.pc == (s.pc + 4) % 0x1_0000_0000
            &&& t.mem.len() == s.mem.len()
            &&& t.mem[o] == x % 0x100
            &&& n >= 2 ==> t.mem[o + 1] == (x / 0x100) % 0x100
            &&& n >= 4 ==> t.mem[o + 2] == (x / 0x1_0000) % 0x100 && t.mem[o + 3] == (x / 0x100_0000) % 0x100
            &&& forall|j: int| 0 <= j < s.mem.len() && !(o <= j < o + n) ==> #[trigger] t.mem[j] == s.mem[j]
        }),
{
    let o = (s.gpr[d.rs1 as int] + d.imm) % 0x1_0000_0000 - s.base;
    let x = s.gpr[d.rs2 as int] as nat;
    let n: nat = if d.inst == Inst::Sb { 1 } else if d.inst == Inst::Sh { 2 } else { 4 };
    reveal_with_fuel(store_le, 5);
    crate::bus::lemma_store_le_len(s.mem, o, n, x);
    assert forall|j: int| 0 <= j < s.mem.len() && !(o <= j < o + n) implies #[trigger] store_le(s.mem, o, n, x)[j] == s.mem[j] by {
        crate::bus::lemma_store_le_frame(s.mem, o, n, x, j);
    }
    let m1 = s.mem.update(o, (x % 256) as u8);
    crate::bus::lemma_store_le_len(m1, o + 1, (n - 1) as nat, x / 256);
    if n >= 2 {
        crate::bus::lemma_store_le_frame(m1, o + 1, (n - 1) as nat, x / 256, o);
        let m2 = m1.update(o + 1, ((x / 256) % 256) as u8);
        crate::bus::lemma_store_le_len(m2, o + 2, (n - 2) as nat, x / 256 / 256);
        crate::bus::lemma_store_le_frame(m2, o + 2, (n - 2) as nat, x / 256 / 256, o + 1);
        if n >= 4 {
            let m3 = m2.update(o + 2, ((x / 256 / 256) % 256) as u8);
            crate::bus::lemma_store_le_len(m3, o + 3, 1, x / 256 / 256 / 256);
            crate::bus::lemma_store_le_frame(m3, o + 3, 1, x / 256 / 256 / 256, o + 2);
            assert(x / 256 / 256 == x / 0x1_0000) by (nonlinear_arith);
            assert(x / 256 / 256 / 256 == x / 0x100_0000) by (nonlinear_arith);
        }
    }
}

/// `lui` puts the immediate in `rd`; `auipc` puts `pc + imm`; `jal` and `jalr` put the
/// address of the next instruction in `rd` and jump to `pc + imm` and to
/// `(x[rs1] + imm)` with bit 0 cleared (all modulo 2^32).
pub proof fn lemma_upper_and_jumps(s: HartView, d: DecodedInst)
    requires
        view_wf(s),
        d.rd < 32,
        d.rs1 < 32,
        d.rs2 < 32,
        crate::hart::is_upper_or_jump(d.inst),
    ensures
        ({
            let (t, r) = spec_execute(s, d);
            let m: int = 0x1_0000_0000;
            let v = t.gpr[d.rd as int] as int;
            &&& r is Ok
            &&& t.mem == s.mem
            &&& d.inst == Inst::Lui ==> (d.rd != 0 ==> v == d.imm) && t.pc == (s.pc + 4) % m
            &&& d.inst == Inst::Auipc ==> (d.rd != 0 ==> v == (s.pc + d.imm) % m) && t.pc == (s.pc + 4) % m
            &&& d.inst == Inst::Jal ==> (d.rd != 0 ==> v == (s.pc + 4) % m) && t.pc == (s.pc + d.imm) % m
            &&& d.inst == Inst::Jalr ==> (d.rd != 0 ==> v == (s.pc + 4) % m) && t.pc == ((s.gpr[d.rs1 as int]
                + d.imm) % m) / 2 * 2
        }),
{
}


/// A source group that the destination group does not overwrite before reading it: it
/// starts at or after the destination, or lies wholly below it.
pub open spec fn source_ok(rd: u8, rs: Option<u8>, nf: nat) -> bool {
    match rs {
        Some(r) => r + nf <= 32 && (rd <= r || r + nf <= rd),
        None => true,
    }
}

/// Element `j` of a group (`reg`, `j`) spans bytes `reg·VLENB + j·SEW ..`; two different
/// elements of groups that start at `a <= b`, with the first element index below the
/// second, do not overlap; nor does any element of a group wholly below another.
proof fn lemma_elem_ranges_apart(vlenb: nat, sew: nat, nf: nat, a: nat, b: nat, ja: nat, jb: nat)
    requires
        sew >= 1,
        (jb + 1) * sew <= nf * vlenb,
        (ja + 1) * sew <= nf * vlenb,
        (a <= b && ja < jb) || b + nf <= a,
    ensures
        a * vlenb + ja * sew + sew <= b * vlenb + jb * sew || b * vlenb + jb * sew + sew <= a * vlenb + ja * sew,
{
    if a <= b && ja < jb {
        assert(a * vlenb <= b * vlenb) by (nonlinear_arith)
            requires
                a <= b,
        ;
        assert(ja * sew + sew <= jb * sew) by (nonlinear_arith)
            requires
                ja < jb,
        ;
    } else {
        assert((b + nf) * vlenb <= a * vlenb) by (nonlinear_arith)
            requires
                b + nf <= a,
        ;
        assert(b * vlenb + jb * sew + sew <= (b + nf) * vlenb) by (nonlinear_arith)
            requires
                (jb + 1) * sew <= nf * vlenb,
        ;
        assert((b + nf) * vlenb == b * vlenb + nf * vlenb) by (nonlinear_arith);
    }
}

/// An element-wise loop over elements `0 .. k` leaves, for each element `j < k`, the
/// destination element equal to the operation applied to the original source and
/// destination elements (reduced to the element width), and leaves every later element
/// of the destination and of the sources as it was.
#[verifier::spinoff_prover]
#[verifier::rlimit(40)]
proof fn lemma_elems_upto(vr: Seq<u8>, v0: Seq<u8>, vlenb: nat, sew: usize, nf: nat, lp: ElemLoop, k: nat)
    requires
        vlenb > 0,
        sew == 1 || sew == 2 || sew == 4 || sew == 8,
        vr.len() == 32 * vlenb,
        k * (sew as nat) <= nf * vlenb,
        lp.rd + nf <= 32,
        source_ok(lp.rd, lp.rs1, nf),
        source_ok(lp.rd, lp.rs2, nf),
    ensures
        elems_upto(vr, v0, vlenb, sew, lp, k).len() == vr.len(),
        forall|j: nat| j < k ==> #[trigger] vget(elems_upto(vr, v0, vlenb, sew, lp, k), vlenb, lp.rd as int, j as int, sew as nat)
            == (elem_result(
            lp.op,
            j as u32,
            sew,
            opt_vget(vr, vlenb, lp.rs1, j as int, sew as nat),
            opt_vget(vr, vlenb, lp.rs2, j as int, sew as nat),
            !lp.masked || spec_mask_bit(v0, j as int),
            vget(vr, vlenb, lp.rd as int, j as int, sew as nat),
        ) as nat % pow256(sew as nat)) as u64,
        forall|j: nat|
            k <= j && (j + 1) * (sew as nat) <= nf * vlenb ==> {
                &&& #[trigger] vget(elems_upto(vr, v0, vlenb, sew, lp, k), vlenb, lp.rd as int, j as int, sew as nat)
                    == vget(vr, vlenb, lp.rd as int, j as int, sew as nat)
                &&& opt_vget(elems_upto(vr, v0, vlenb, sew, lp, k), vlenb, lp.rs1, j as int, sew as nat)
                    == opt_vget(vr, vlenb, lp.rs1, j as int, sew as nat)
                &&& opt_vget(elems_upto(vr, v0, vlenb, sew, lp, k), vlenb, lp.rs2, j as int, sew as nat)
                    == opt_vget(vr, vlenb, lp.rs2, j as int, sew as nat)
            },
    decreases k,
{
    let w = sew as nat;
    if k > 0 {
        let k1 = (k - 1) as nat;
        lemma_elems_upto(vr, v0, vlenb, sew, nf, lp, k1);
        let r0 = elems_upto(vr, v0, vlenb, sew, lp, k1);
        let off = lp.rd * vlenb + k1 * w;
        assert(nf * vlenb <= 32 * vlenb - lp.rd * vlenb) by (nonlinear_arith)
            requires
                lp.rd + nf <= 32,
        ;
        let mask = !lp.masked || spec_mask_bit(v0, k1 as int);
        let res = elem_result(
            lp.op,
            k1 as u32,
            sew,
            opt_vget(r0, vlenb, lp.rs1, k1 as int, w),
            opt_vget(r0, vlenb, lp.rs2, k1 as int, w),
            mask,
            vget(r0, vlenb, lp.rd as int, k1 as int, w),
        );
        let r1 = store_le(r0, off, w, res as nat);
        assert(elems_upto(vr, v0, vlenb, sew, lp, k) == r1);
        crate::bus::lemma_store_le_len(r0, off, w, res as nat);
        crate::bus::lemma_load_store_le(r0, off, w, res as nat);
        // Bytes outside the written element are kept.
        assert forall|q: int| 0 <= q < r0.len() && (q < off || off + w <= q) implies r1[q] == r0[q] by {
            crate::bus::lemma_store_le_frame(r0, off, w, res as nat, q);
        }
        assert(k * w <= nf * vlenb);
        assert(off + w <= r0.len()) by (nonlinear_arith)
            requires
                off == lp.rd * vlenb + k1 * w,
                k == k1 + 1,
                k * w <= nf * vlenb,
                nf * vlenb <= 32 * vlenb - lp.rd * vlenb,
                r0.len() == 32 * vlenb,
        ;
        // The sources and the destination element `k1` still hold their original values.
        assert(vget(r0, vlenb, lp.rd as int, k1 as int, w) == vget(vr, vlenb, lp.rd as int, k1 as int, w));
        assert(vget(r1, vlenb, lp.rd as int, k1 as int, w) == (res as nat % pow256(w)) as u64);
        assert forall|j: nat| j < k implies #[trigger] vget(r1, vlenb, lp.rd as int, j as int, w) == (elem_result(
            lp.op,
            j as u32,
            sew,
            opt_vget(vr, vlenb, lp.rs1, j as int, w),
            opt_vget(vr, vlenb, lp.rs2, j as int, w),
            !lp.masked || spec_mask_bit(v0, j as int),
            vget(vr, vlenb, lp.rd as int, j as int, w),
        ) as nat % pow256(w)) as u64 by {
            if j < k1 {
                assert((j + 1) * w <= k1 * w) by (nonlinear_arith)
                    requires
                        j < k1,
                ;
                assert((k1 + 1) * w == k * w) by (nonlinear_arith)
                    requires
                        k == k1 + 1,
                ;
                lemma_elem_ranges_apart(vlenb, w, nf, lp.rd as nat, lp.rd as nat, j, k1);
                let st = lp.rd * vlenb + j * w;
                assert(st + w <= off) by (nonlinear_arith)
                    requires
                        st == lp.rd * vlenb + j * w,
                        off == lp.rd * vlenb + k1 * w,
                        (j + 1) * w <= k1 * w,
                ;
                crate::bus::lemma_load_le_depends(r1, r0, st, w);
                assert(vget(r0, vlenb, lp.rd as int, j as int, w) == vget(r1, vlenb, lp.rd as int, j as int, w));
            }
        }
        assert forall|j: nat| k <= j && (j + 1) * w <= nf * vlenb implies {
            &&& #[trigger] vget(r1, vlenb, lp.rd as int, j as int, w) == vget(vr, vlenb, lp.rd as int, j as int, w)
            &&& opt_vget(r1, vlenb, lp.rs1, j as int, w) == opt_vget(vr, vlenb, lp.rs1, j as int, w)
            &&& opt_vget(r1, vlenb, lp.rs2, j as int, w) == opt_vget(vr, vlenb, lp.rs2, j as int, w)
        } by {
            assert(vget(r0, vlenb, lp.rd as int, j as int, w) == vget(vr, vlenb, lp.rd as int, j as int, w));
            lemma_elem_after(r0, r1, vlenb, w, nf, lp.rd, k1, lp.rd, j);
            if let Some(r) = lp.rs1 {
                lemma_elem_after(r0, r1, vlenb, w, nf, lp.rd, k1, r, j);
            }
            if let Some(r) = lp.rs2 {
                lemma_elem_after(r0, r1, vlenb, w, nf, lp.rd, k1, r, j);
            }
        }
        assert forall|j: nat| k <= j && (j + 1) * w <= nf * vlenb implies {
            &&& #[trigger] vget(elems_upto(vr, v0, vlenb, sew, lp, k), vlenb, lp.rd as int, j as int, w) == vget(vr, vlenb, lp.rd as int, j as int, w)
            &&& opt_vget(elems_upto(vr, v0, vlenb, sew, lp, k), vlenb, lp.rs1, j as int, w) == opt_vget(vr, vlenb, lp.rs1, j as int, w)
            &&& opt_vget(elems_upto(vr, v0, vlenb, sew, lp, k), vlenb, lp.rs2, j as int, w) == opt_vget(vr, vlenb, lp.rs2, j as int, w)
        } by {
            assert(vget(r1, vlenb, lp.rd as int, j as int, w) == vget(vr, vlenb, lp.rd as int, j as int, w));
        }
    } else {
        assert(elems_upto(vr, v0, vlenb, sew, lp, k) == vr);
    }
}


/// A later element of a group that the written element does not overlap reads the same
/// after the write.
proof fn lemma_elem_after(r0: Seq<u8>, r1: Seq<u8>, vlenb: nat, w: nat, nf: nat, rd: u8, k1: nat, rs: u8, j: nat)
    requires
        w >= 1,
        r0.len() == 32 * vlenb,
        r1.len() == r0.len(),
        rd + nf <= 32,
        rs + nf <= 32,
        rd <= rs || rs + nf <= rd,
        k1 < j,
        (j + 1) * w <= nf * vlenb,
        forall|q: int| 0 <= q < r0.len() && (q < rd * vlenb + k1 * w || rd * vlenb + k1 * w + w <= q) ==> r1[q] == r0[q],
    ensures
        vget(r1, vlenb, rs as int, j as int, w) == vget(r0, vlenb, rs as int, j as int, w),
{
    assert((k1 + 1) * w <= nf * vlenb) by (nonlinear_arith)
        requires
            k1 < j,
            (j + 1) * w <= nf * vlenb,
    ;
    lemma_elem_ranges_apart(vlenb, w, nf, rd as nat, rs as nat, k1, j);
    assert(j * w + w == (j + 1) * w) by (nonlinear_arith);
    assert(rs * vlenb + j * w + w <= 32 * vlenb) by (nonlinear_arith)
        requires
            rs + nf <= 32,
            j * w + w <= nf * vlenb,
    ;
    crate::bus::lemma_load_le_depends(r1, r0, rs * vlenb + j * w, w);
}


/// Element-wise vector arithmetic (vector unit on, register groups inside the file, each
/// source group starting at or after the destination or wholly below it): for each
/// element `i` below the effective length, with `M = 2^(8·SEW)`, `a = vs2[i]`,
/// `b = vs1[i]`, `x = x[rs1]` and `m` the sign-extended five-bit immediate, an active
/// element of `vd` becomes
/// `(a + m) mod M` (vadd.vi), `(m - a) mod M` (vrsub.vi), `(a + x) mod M` (vadd.vx),
/// `(a - b) mod M` (vsub.vv), `b | a` (vor.vv); an inactive one (masked, `v0` bit clear)
/// keeps its value.
#[verifier::spinoff_prover]
#[verifier::rlimit(40)]
pub proof fn lemma_vector_elementwise(s: HartView, d: DecodedInst, i: nat)
    requires
        view_wf(s),
        s.cfg.vlenb > 0,
        d.rd < 32,
        d.rs1 < 32,
        d.rs2 < 32,
        !mstatus_vs_off(s.csr.mstatus),
        d.inst == Inst::V(VInst::OpIvi(OpIviInst::VaddVi)) || d.inst == Inst::V(VInst::OpIvi(OpIviInst::VrsubVi))
            || d.inst == Inst::V(VInst::OpIvx(OpIvxInst::VaddVx)) || d.inst == Inst::V(VInst::OpIvv(OpIvvInst::VsubVv))
            || d.inst == Inst::V(VInst::OpIvv(OpIvvInst::VorVv)),
        d.rd + spec_nf(s) <= 32,
        source_ok(d.rd, Some(d.rs2), spec_nf(s)),
        (d.inst is V && d.inst->V_0 is OpIvv) ==> source_ok(d.rd, Some(d.rs1), spec_nf(s)),
        i < crate::vexec::spec_n(s),
    ensures
        ({
            let (t, r) = spec_execute(s, d);
            let vlenb = s.cfg.vlenb as nat;
            let w = spec_sew(s);
            let mm = pow256(w) as int;
            let a = vget(s.vr, vlenb, d.rs2 as int, i as int, w) as int;
            let b = vget(s.vr, vlenb, d.rs1 as int, i as int, w) as int;
            let x = s.gpr[d.rs1 as int] as int;
            let m: int = if d.imm % 32 >= 16 { d.imm % 32 - 32 } else { (d.imm % 32) as int };
            let vi = d.inst == Inst::V(VInst::OpIvi(OpIviInst::VaddVi)) || d.inst == Inst::V(VInst::OpIvi(OpIviInst::VrsubVi));
            let active = if vi { d.rs1 != 0 } else { d.imm != 0 } || spec_mask_bit(spec_v0(s), i as int);
            let e = vget(t.vr, vlenb, d.rd as int, i as int, w) as int;
            &&& r is Ok
            &&& !active ==> e == vget(s.vr, vlenb, d.rd as int, i as int, w) as int
            &&& active && d.inst == Inst::V(VInst::OpIvi(OpIviInst::VaddVi)) ==> e == (a + m) % mm
            &&& active && d.inst == Inst::V(VInst::OpIvi(OpIviInst::VrsubVi)) ==> e == (m - a) % mm
            &&& active && d.inst == Inst::V(VInst::OpIvx(OpIvxInst::VaddVx)) ==> e == (a + x) % mm
            &&& active && d.inst == Inst::V(VInst::OpIvv(OpIvvInst::VsubVv)) ==> e == (a - b) % mm
            &&& active && d.inst == Inst::V(VInst::OpIvv(OpIvvInst::VorVv)) ==> e == (vget(s.vr, vlenb, d.rs1 as int, i as int, w) | vget(
                s.vr,
                vlenb,
                d.rs2 as int,
                i as int,
                w,
            )) as int
        }),
{
    let vlenb = s.cfg.vlenb as nat;
    let w = spec_sew(s);
    let nf = spec_nf(s);
    let n = crate::vexec::spec_n(s);
    let lp = crate::vinst::elem_loop_of(s, d)->Some_0;
    let vm = d.imm != 0;
    let simm = simm_of(d.imm);
    if d.inst == Inst::V(VInst::OpIvi(OpIviInst::VaddVi)) {
        assert(lp == ElemLoop { op: ElemOp::AddVi(simm), rd: d.rd, rs1: None, rs2: Some(d.rs2), masked: d.rs1 == 0 });
    } else if d.inst == Inst::V(VInst::OpIvi(OpIviInst::VrsubVi)) {
        assert(lp == ElemLoop { op: ElemOp::RsubVi(simm), rd: d.rd, rs1: None, rs2: Some(d.rs2), masked: d.rs1 == 0 });
    } else if d.inst == Inst::V(VInst::OpIvx(OpIvxInst::VaddVx)) {
        assert(lp == ElemLoop {
            op: ElemOp::AddVx(s.gpr[d.rs1 as int] as u64),
            rd: d.rd,
            rs1: None,
            rs2: Some(d.rs2),
            masked: !vm,
        });
    } else if d.inst == Inst::V(VInst::OpIvv(OpIvvInst::VsubVv)) {
        assert(lp == ElemLoop { op: ElemOp::SubVv, rd: d.rd, rs1: Some(d.rs1), rs2: Some(d.rs2), masked: !vm });
    } else {
        assert(lp == ElemLoop { op: ElemOp::OrVv, rd: d.rd, rs1: Some(d.rs1), rs2: Some(d.rs2), masked: !vm });
    }
    assert(n * w <= nf * vlenb) by (nonlinear_arith)
        requires
            n <= (nf * vlenb) / w,
            w >= 1,
    ;
    lemma_elems_upto(s.vr, spec_v0(s), vlenb, w as usize, nf, lp, n);
    reveal_with_fuel(pow256, 9);
    assert(crate::vexec::loop_regs_ok(lp, nf));
    assert(crate::vinst::spec_vop(s, d).0.vr == elems_upto(s.vr, spec_v0(s), vlenb, w as usize, lp, n));
    assert(spec_execute(s, d).0.vr == elems_upto(s.vr, spec_v0(s), vlenb, w as usize, lp, n));
    assert((w as usize) as nat == w);
    let res = elem_result(
        lp.op,
        i as u32,
        w as usize,
        opt_vget(s.vr, vlenb, lp.rs1, i as int, w),
        opt_vget(s.vr, vlenb, lp.rs2, i as int, w),
        !lp.masked || spec_mask_bit(spec_v0(s), i as int),
        vget(s.vr, vlenb, lp.rd as int, i as int, w),
    );
    assert(vget(elems_upto(s.vr, spec_v0(s), vlenb, w as usize, lp, n), vlenb, lp.rd as int, i as int, w) == (res as nat
        % pow256(w)) as u64);
    let e = vget(spec_execute(s, d).0.vr, vlenb, d.rd as int, i as int, w);
    assert(e == (res as nat % pow256(w)) as u64);
    assert(i * w + w <= nf * vlenb) by (nonlinear_arith)
        requires
            i < n,
            n * w <= nf * vlenb,
    ;
    assert forall|r: nat| r + nf <= 32 implies #[trigger] (r * vlenb) + i * w + w <= s.vr.len() by {
        assert(r * vlenb + nf * vlenb <= 32 * vlenb) by (nonlinear_arith)
            requires
                r + nf <= 32,
        ;
    }
    lemma_pow256_sew(w);
    let mm = pow256(w) as int;
    assert(d.rd as nat * vlenb + i * w + w <= s.vr.len());
    crate::bus::lemma_load_le_bound(s.vr, d.rd * vlenb + i * w, w);
    assert(d.rs2 as nat * vlenb + i * w + w <= s.vr.len());
    crate::bus::lemma_load_le_bound(s.vr, d.rs2 * vlenb + i * w, w);
    let a = vget(s.vr, vlenb, d.rs2 as int, i as int, w);
    let dst = vget(s.vr, vlenb, d.rd as int, i as int, w);
    let mask = !lp.masked || spec_mask_bit(spec_v0(s), i as int);
    assert(dst as int == load_le(s.vr, d.rd * vlenb + i * w, w));
    assert(a as int == load_le(s.vr, d.rs2 * vlenb + i * w, w));
    if (res as int) < mm {
        vstd::arithmetic::div_mod::lemma_small_mod(res as nat, mm as nat);
        assert(e == res);
    }
    if !mask {
        assert(res == dst);
        assert(e == dst);
    } else if d.inst == Inst::V(VInst::OpIvi(OpIviInst::VaddVi)) {
        assert(res as int == (simm as int + a) % mm);
        assert(e as int == (simm as int + a) % mm);
    } else if d.inst == Inst::V(VInst::OpIvi(OpIviInst::VrsubVi)) {
        assert(res as int == (simm as int - a) % mm);
        assert(e as int == (simm as int - a) % mm);
    } else if d.inst == Inst::V(VInst::OpIvx(OpIvxInst::VaddVx)) {
        assert(res as int == (a + s.gpr[d.rs1 as int]) % mm);
        assert(e as int == (a + s.gpr[d.rs1 as int]) % mm);
    } else if d.inst == Inst::V(VInst::OpIvv(OpIvvInst::VsubVv)) {
        assert(d.rs1 as nat * vlenb + i * w + w <= s.vr.len());
        let b = vget(s.vr, vlenb, d.rs1 as int, i as int, w);
        assert(res as int == (a - b) % mm);
        assert(e as int == (a - b) % mm);
    } else {
        assert(d.rs1 as nat * vlenb + i * w + w <= s.vr.len());
        crate::bus::lemma_load_le_bound(s.vr, d.rs1 * vlenb + i * w, w);
        let b = vget(s.vr, vlenb, d.rs1 as int, i as int, w);
        lemma_or_below(b, a, w);
        assert(res == b | a);
        assert(e == b | a);
    }
}

/// The element modulus for a supported SEW is positive and at most 2^64.
proof fn lemma_pow256_sew(w: nat)
    requires
        w == 1 || w == 2 || w == 4 || w == 8,
    ensures
        0 < pow256(w) <= 0x1_0000_0000_0000_0000,
{
    reveal_with_fuel(pow256, 9);
}

/// The bitwise or of two values below `2^(8·SEW)` stays below it.
proof fn lemma_or_below(a: u64, b: u64, w: nat)
    requires
        w == 1 || w == 2 || w == 4 || w == 8,
        (a as int) < pow256(w),
        (b as int) < pow256(w),
    ensures
        ((a | b) as int) < pow256(w),
{
    reveal_with_fuel(pow256, 9);
    if w == 1 {
        assert((a | b) < 0x100) by (bit_vector)
            requires
                a < 0x100,
                b < 0x100,
        ;
    } else if w == 2 {
        assert((a | b) < 0x1_0000) by (bit_vector)
            requires
                a < 0x1_0000,
                b < 0x1_0000,
        ;
    } else if w == 4 {
        assert((a | b) < 0x1_0000_0000) by (bit_vector)
            requires
                a < 0x1_0000_0000,
                b < 0x1_0000_0000,
        ;
    }
}

} // verus!
