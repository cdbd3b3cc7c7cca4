//! Execution of vector (OP-V) instructions on a hart's flat vector register file.
//!
//! Register `r` occupies bytes `r * VLENB .. (r + 1) * VLENB` of `Hart::vr`, so element `i`
//! of the register group that starts at `r` lies at byte `r * VLENB + i * SEW`.

use vstd::prelude::*;
use crate::bus::{load_le, lemma_store_le_len, pow256, store_le, StateError};
use crate::hart::{pc_plus4, view_wf, Csrs, Hart, HartView};
use crate::vcontext::{
    calculate_vlmax, lmul_log2, mask_bit, pow2i, sew_bytes_of, spec_calculate_vlmax, spec_mask_bit,
    check_regs, spec_check_regs, spec_read_i, spec_vsew, zimm_to_vtype, spec_nf_from_vlmul, spec_sew_bytes, spec_vlmul,
    Sew, VContext,
};
use crate::vops::{
    binop_add_vi, binop_add_vx, binop_and_vi, binop_and_vx, binop_macc, binop_max_vv,
    binop_shl, binop_shr, binop_sub_vi, binop_sub_vv, merge_scalar_vi, merge_scalar_vx,
    spec_add_vi, spec_add_vx, spec_and_vi, spec_and_vx, spec_macc, spec_max_vv,
    spec_merge_vi, spec_merge_vx, spec_shl, spec_shr, spec_sub_vi, spec_sub_vv,
};

verus! {

// ---------------------------------------------------------------------------
// The register file as bytes
// ---------------------------------------------------------------------------
/// Element `i` (of `sew` bytes) of the register group starting at register `reg`.
pub open spec fn vget(vr: Seq<u8>, vlenb: nat, reg: int, i: int, sew: nat) -> u64 {
    load_le(vr, reg * vlenb + i * sew, sew) as u64
}

/// A source operand: the element of the named group, or zero when there is none.
pub open spec fn opt_vget(vr: Seq<u8>, vlenb: nat, reg: Option<u8>, i: int, sew: nat) -> u64 {
    match reg {
        Some(r) => vget(vr, vlenb, r as int, i, sew),
        None => 0,
    }
}

/// The number of elements an instruction touches under `vl` and `vtype`.
pub open spec fn spec_n_elems(vl: u32, vtype: u32, vlenb: u32) -> nat {
    let nf = spec_nf_from_vlmul(spec_vlmul(vtype));
    let total = (nf * vlenb) / spec_sew_bytes(vtype) as int;
    if (vl as int) < total {
        vl as nat
    } else {
        total as nat
    }
}

/// Register-group size of the current `vtype`.
pub open spec fn spec_nf(s: HartView) -> nat {
    spec_nf_from_vlmul(spec_vlmul(s.csr.vtype)) as nat
}

pub open spec fn spec_sew(s: HartView) -> nat {
    spec_sew_bytes(s.csr.vtype) as nat
}

pub open spec fn spec_n(s: HartView) -> nat {
    spec_n_elems(s.csr.vl, s.csr.vtype, s.cfg.vlenb)
}

/// The mask register `v0`, as it was when the instruction started.
pub open spec fn spec_v0(s: HartView) -> Seq<u8> {
    s.vr.subrange(0, s.cfg.vlenb as int)
}

proof fn lemma_vctx(c: VContext, s: HartView)
    requires
        c.matches(s.csr.vl, s.csr.vtype, s.cfg.vlenb),
        view_wf(s),
    ensures
        c.sew_bytes == spec_sew(s),
        c.nf == spec_nf(s),
        1 <= c.sew_bytes <= 8,
        1 <= c.nf <= 8,
        c.vlenb == s.cfg.vlenb,
        c.spec_n_elems() == spec_n(s),
        c.spec_n_elems() * c.sew_bytes <= c.nf * c.vlenb,
{
    assert(c.spec_n_elems() * c.sew_bytes <= c.nf * c.vlenb) by (nonlinear_arith)
        requires
            c.spec_n_elems() <= (c.nf * c.vlenb) / c.sew_bytes as int,
            c.sew_bytes >= 1,
    ;
}

/// Element byte offsets of a group stay inside the register file.
proof fn lemma_group_fits(reg: nat, nf: nat, vlenb: nat, n: nat, sew: nat, i: nat)
    requires
        reg + nf <= 32,
        n * sew <= nf * vlenb,
        i < n,
    ensures
        reg * vlenb + i * sew + sew <= 32 * vlenb,
        reg * vlenb + i * sew + sew <= reg * vlenb + n * sew,
{
    assert(i * sew + sew <= n * sew) by (nonlinear_arith)
        requires
            i < n,
    ;
    assert(reg * vlenb + nf * vlenb <= 32 * vlenb) by (nonlinear_arith)
        requires
            reg + nf <= 32,
    ;
}

// ---------------------------------------------------------------------------
// Element-wise instructions
// ---------------------------------------------------------------------------
/// What an element-wise instruction computes for one element.
#[derive(Clone, Copy, Debug)]
pub enum ElemOp {
    /// `vid.v`: the element index.
    Index,
    /// `vmerge.vim`: the immediate where the mask is set, `vs2` elsewhere.
    MergeVi(i32),
    /// `vmerge.vxm`: the scalar where the mask is set, `vs2` elsewhere.
    MergeVx(u32),
    AddVi(i32),
    RsubVi(i32),
    AndVi(i32),
    SllVi(u32),
    SrlVi(u32),
    AddVx(u64),
    AndVx(u64),
    SllVx(u32),
    SrlVx(u32),
    OrVv,
    SubVv,
    MaxVv,
    MaccVv,
}

/// The registers and masking of an element-wise instruction.
#[derive(Clone, Copy, Debug)]
pub struct ElemLoop {
    pub op: ElemOp,
    pub rd: u8,
    pub rs1: Option<u8>,
    pub rs2: Option<u8>,
    pub masked: bool,
}

/// The new value of element `i`: `s1`/`s2` are the `vs1`/`vs2` elements, `dst` the old `vd`
/// element; masked-off elements keep `dst` (the merges take `vs2` instead).
pub open spec fn elem_result(
    op: ElemOp,
    i: u32,
    sew: usize,
    s1: u64,
    s2: u64,
    mask: bool,
    dst: u64,
) -> u64 {
    match op {
        ElemOp::Index => i as u64,
        ElemOp::MergeVi(x) => if mask {
            spec_merge_vi(x, sew)
        } else {
            s2
        },
        ElemOp::MergeVx(x) => if mask {
            spec_merge_vx(x, sew)
        } else {
            s2
        },
        _ => if !mask {
            dst
        } else {
            match op {
                ElemOp::AddVi(x) => spec_add_vi(x, s2, sew),
                ElemOp::RsubVi(x) => spec_sub_vi(x, s2, sew),
                ElemOp::AndVi(x) => spec_and_vi(x, s2, sew),
                ElemOp::SllVi(x) => spec_shl(x, s2, sew),
                ElemOp::SrlVi(x) => spec_shr(x, s2, sew),
                ElemOp::AddVx(x) => spec_add_vx(x, s2, sew),
                ElemOp::AndVx(x) => spec_and_vx(x, s2, sew),
                ElemOp::SllVx(x) => spec_shl(x, s2, sew),
                ElemOp::SrlVx(x) => spec_shr(x, s2, sew),
                ElemOp::OrVv => s1 | s2,
                ElemOp::SubVv => spec_sub_vv(s1, s2, sew),
                ElemOp::MaxVv => spec_max_vv(s1, s2, sew),
                _ => spec_macc(s1, s2, dst, sew),
            }
        },
    }
}

pub fn apply_elem(op: ElemOp, i: u32, sew: usize, s1: u64, s2: u64, mask: bool, dst: u64) -> (r:
    u64)
    ensures
        r == elem_result(op, i, sew, s1, s2, mask, dst),
{
    match op {
        ElemOp::Index => i as u64,
        ElemOp::MergeVi(x) => if mask {
            merge_scalar_vi(x, sew)
        } else {
            s2
        },
        ElemOp::MergeVx(x) => if mask {
            merge_scalar_vx(x, sew)
        } else {
            s2
        },
        _ => if !mask {
            dst
        } else {
            match op {
                ElemOp::AddVi(x) => binop_add_vi(x, s2, sew),
                ElemOp::RsubVi(x) => binop_sub_vi(x, s2, sew),
                ElemOp::AndVi(x) => binop_and_vi(x, s2, sew),
                ElemOp::SllVi(x) => binop_shl(x, s2, sew),
                ElemOp::SrlVi(x) => binop_shr(x, s2, sew),
                ElemOp::AddVx(x) => binop_add_vx(x, s2, sew),
                ElemOp::AndVx(x) => binop_and_vx(x, s2, sew),
                ElemOp::SllVx(x) => binop_shl(x, s2, sew),
                ElemOp::SrlVx(x) => binop_shr(x, s2, sew),
                ElemOp::OrVv => s1 | s2,
                ElemOp::SubVv => binop_sub_vv(s1, s2, sew),
                ElemOp::MaxVv => binop_max_vv(s1, s2, sew),
                _ => binop_macc(s1, s2, dst, sew),
            }
        },
    }
}

/// Element `i` of an element-wise instruction written into `vr`; the operands are read
/// from `vr` as it stands, the mask from `v0`.
pub open spec fn elem_step(vr: Seq<u8>, v0: Seq<u8>, vlenb: nat, sew: usize, lp: ElemLoop, i: nat) -> Seq<u8> {
    let mask = !lp.masked || spec_mask_bit(v0, i as int);
    let res = elem_result(
        lp.op,
        i as u32,
        sew,
        opt_vget(vr, vlenb, lp.rs1, i as int, sew as nat),
        opt_vget(vr, vlenb, lp.rs2, i as int, sew as nat),
        mask,
        vget(vr, vlenb, lp.rd as int, i as int, sew as nat),
    );
    store_le(vr, lp.rd * vlenb + i * sew, sew as nat, res as nat)
}

/// The register file after elements `0 .. k` were processed in order.
pub open spec fn elems_upto(vr: Seq<u8>, v0: Seq<u8>, vlenb: nat, sew: usize, lp: ElemLoop, k: nat) -> Seq<u8>
    decreases k,
{
    if k == 0 {
        vr
    } else {
        elem_step(elems_upto(vr, v0, vlenb, sew, lp, (k - 1) as nat), v0, vlenb, sew, lp, (k - 1) as nat)
    }
}

/// Every register group the instruction names fits in the register file.
pub open spec fn loop_regs_ok(lp: ElemLoop, nf: nat) -> bool {
    &&& lp.rd + nf <= 32
    &&& (lp.rs1 matches Some(r) ==> r + nf <= 32)
    &&& (lp.rs2 matches Some(r) ==> r + nf <= 32)
}

pub open spec fn spec_elem_loop(s: HartView, lp: ElemLoop) -> (HartView, Result<(), StateError>) {
    if !loop_regs_ok(lp, spec_nf(s)) {
        (s, Err(StateError::Unmapped(0)))
    } else {
        (
            HartView {
                vr: elems_upto(s.vr, spec_v0(s), s.cfg.vlenb as nat, spec_sew(s) as usize, lp, spec_n(s)),
                pc: pc_plus4(s),
                ..s
            },
            Ok(()),
        )
    }
}

fn read_opt(vr: &Vec<u8>, sew: Sew, reg: Option<u8>, vlenb: usize, i: usize) -> (r: u64)
    requires
        vr@.len() <= 0x1_0000,
        reg matches Some(x) ==> x as int * vlenb + i * sew_bytes_of(sew) + sew_bytes_of(sew)
            <= vr@.len(),
    ensures
        r == opt_vget(vr@, vlenb as nat, reg, i as int, sew_bytes_of(sew) as nat),
{
    match reg {
        Some(x) => {
            let sb = sew.bytes();
            proof {
                assert(x * vlenb >= 0 && i * sb >= 0) by (nonlinear_arith);
            }
            sew.read_u(vr.as_slice(), x as usize * vlenb + i * sb)
        },
        None => 0,
    }
}

fn run_elems(vr: &mut Vec<u8>, v0: &Vec<u8>, vlenb: usize, sew: Sew, n: u32, nf: usize, lp: ElemLoop)
    requires
        old(vr)@.len() == 32 * vlenb,
        0 < vlenb <= 1024,
        n * sew_bytes_of(sew) <= nf * vlenb,
        loop_regs_ok(lp, nf as nat),
    ensures
        final(vr)@ == elems_upto(old(vr)@, v0@, vlenb as nat, sew_bytes_of(sew), lp, n as nat),
        final(vr)@.len() == old(vr)@.len(),
{
    let ghost vr0 = vr@;
    let sb = sew.bytes();
    let mut i: u32 = 0;
    while i < n
        invariant
            i <= n,
            sb == sew_bytes_of(sew),
            vr@.len() == 32 * vlenb,
            0 < vlenb <= 1024,
            n * sb <= nf * vlenb,
            loop_regs_ok(lp, nf as nat),
            vr@ == elems_upto(vr0, v0@, vlenb as nat, sb, lp, i as nat),
        decreases n - i,
    {
        let idx = i as usize;
        proof {
            lemma_group_fits(lp.rd as nat, nf as nat, vlenb as nat, n as nat, sb as nat, idx as nat);
            if let Some(r) = lp.rs1 {
                lemma_group_fits(r as nat, nf as nat, vlenb as nat, n as nat, sb as nat, idx as nat);
            }
            if let Some(r) = lp.rs2 {
                lemma_group_fits(r as nat, nf as nat, vlenb as nat, n as nat, sb as nat, idx as nat);
            }
        }
        let s1 = read_opt(vr, sew, lp.rs1, vlenb, idx);
        let s2 = read_opt(vr, sew, lp.rs2, vlenb, idx);
        let doff = lp.rd as usize * vlenb + idx * sb;
        let dst = sew.read_u(vr.as_slice(), doff);
        let mask = if lp.masked {
            mask_bit(v0.as_slice(), idx)
        } else {
            true
        };
        let res = apply_elem(lp.op, i, sb, s1, s2, mask, dst);
        proof {
            lemma_store_le_len(vr@, doff as int, sb as nat, res as nat);
        }
        sew.write(vr, doff, res);
        i = i + 1;
    }
}

// ---------------------------------------------------------------------------
// Whole-register updates
// ---------------------------------------------------------------------------
/// `vr` with the bytes from `start` on replaced by `bytes`.
pub open spec fn splice(vr: Seq<u8>, start: int, bytes: Seq<u8>) -> Seq<u8> {
    vr.subrange(0, start) + bytes + vr.subrange(start + bytes.len(), vr.len() as int)
}

/// The bytes of register `reg`.
pub open spec fn vreg(vr: Seq<u8>, vlenb: nat, reg: int) -> Seq<u8> {
    vr.subrange(reg * vlenb, reg * vlenb + vlenb)
}

/// `chunk` after elements `lo .. hi` were given the values of `f` in order (`None` leaves
/// the element alone); element `i` is `w` bytes at offset `i * w - base`.
pub open spec fn fill(
    chunk: Seq<u8>,
    w: nat,
    base: int,
    lo: int,
    hi: int,
    f: spec_fn(int) -> Option<u64>,
) -> Seq<u8>
    decreases hi - lo,
{
    if hi <= lo {
        chunk
    } else {
        let c = fill(chunk, w, base, lo, hi - 1, f);
        match f(hi - 1) {
            Some(v) => store_le(c, (hi - 1) * w - base, w, v as nat),
            None => c,
        }
    }
}

/// Byte `i / 8` of `b` with bit `i % 8` set to `v`.
pub open spec fn put_bit(b: Seq<u8>, i: int, v: bool) -> Seq<u8> {
    let k = i / 8;
    let bit = 1u8 << ((i % 8) as u8);
    b.update(k, if v { b[k] | bit } else { b[k] & !bit })
}

/// `b` after mask bits `lo .. hi` were given the values of `f` in order (`None` leaves the
/// bit alone).
pub open spec fn fill_bits(b: Seq<u8>, lo: int, hi: int, f: spec_fn(int) -> Option<bool>) -> Seq<u8>
    decreases hi - lo,
{
    if hi <= lo {
        b
    } else {
        let c = fill_bits(b, lo, hi - 1, f);
        match f(hi - 1) {
            Some(v) => put_bit(c, hi - 1, v),
            None => c,
        }
    }
}

/// The register file after registers `vd .. vd + k` were rewritten one after the other,
/// each computed by `newreg` from the file as it stood then.
pub open spec fn regs_upto(
    vr: Seq<u8>,
    vlenb: nat,
    vd: int,
    k: nat,
    newreg: spec_fn(Seq<u8>, int) -> Seq<u8>,
) -> Seq<u8>
    decreases k,
{
    if k == 0 {
        vr
    } else {
        let cur = regs_upto(vr, vlenb, vd, (k - 1) as nat, newreg);
        splice(cur, (vd + k - 1) * vlenb, newreg(cur, k - 1))
    }
}

proof fn lemma_fill_len(chunk: Seq<u8>, w: nat, base: int, lo: int, hi: int, f: spec_fn(int) -> Option<u64>)
    requires
        forall|i: int| lo <= i < hi ==> 0 <= #[trigger] (i * w) - base && i * w - base + w <= chunk.len(),
    ensures
        fill(chunk, w, base, lo, hi, f).len() == chunk.len(),
    decreases hi - lo,
{
    if hi > lo {
        lemma_fill_len(chunk, w, base, lo, hi - 1, f);
        let c = fill(chunk, w, base, lo, hi - 1, f);
        if let Some(v) = f(hi - 1) {
            lemma_store_le_len(c, (hi - 1) * w - base, w, v as nat);
        }
    }
}

/// A copy of the mask register `v0`.
pub(crate) fn v0_of(h: &Hart) -> (r: Vec<u8>)
    requires
        h.wf(),
    ensures
        r@ == spec_v0(h@),
{
    h.v0_copy()
}

/// A copy of `len` bytes of `v` from `start`.
pub(crate) fn copy_range(v: &Vec<u8>, start: usize, len: usize) -> (r: Vec<u8>)
    requires
        start + len <= v@.len(),
    ensures
        r@ == v@.subrange(start as int, start + len),
{
    let _l = v.len();
    vstd::slice::slice_to_vec(vstd::slice::slice_subrange(v.as_slice(), start, start + len))
}

/// Overwrites the bytes of `v` from `start` with `bytes`.
pub(crate) fn write_back(v: &mut Vec<u8>, start: usize, bytes: &Vec<u8>)
    requires
        start + bytes@.len() <= old(v)@.len(),
    ensures
        final(v)@ == splice(old(v)@, start as int, bytes@),
        final(v)@.len() == old(v)@.len(),
{
    let ghost v0 = v@;
    let n = bytes.len();
    let l = v.len();
    let mut j: usize = 0;
    while j < n
        invariant
            j <= n,
            l == v0.len(),
            n == bytes@.len(),
            start + n <= v0.len(),
            v@.len() == v0.len(),
            forall|k: int| 0 <= k < v0.len() ==> v@[k] == if start <= k < start + j {
                bytes@[k - start]
            } else {
                v0[k]
            },
        decreases n - j,
    {
        v.set(start + j, bytes[j]);
        j = j + 1;
    }
    assert(v@ =~= splice(v0, start as int, bytes@));
}

/// Sets or clears bit `i` of the mask bytes `b`.
pub(crate) fn set_bit(b: &mut Vec<u8>, i: usize, v: bool)
    requires
        i / 8 < old(b)@.len(),
    ensures
        final(b)@ == put_bit(old(b)@, i as int, v),
{
    let k = i / 8;
    let bit: u8 = 1u8 << ((i % 8) as u8);
    let cur = b[k];
    if v {
        b.set(k, cur | bit);
    } else {
        b.set(k, cur & !bit);
    }
}

impl Hart {
    /// The vector context of the current `vl` / `vtype`.
    pub(crate) fn vctx(&self) -> (c: VContext)
        requires
            self.wf(),
        ensures
            c.matches(self.csr.vl, self.csr.vtype, self.cfg.vlenb),
            c.sew_bytes == spec_sew(self@),
            c.nf == spec_nf(self@),
            c.vlenb == self.cfg.vlenb,
            1 <= c.sew_bytes <= 8,
            1 <= c.nf <= 8,
            c.spec_n_elems() == spec_n(self@),
            c.spec_n_elems() * c.sew_bytes <= c.nf * c.vlenb,
    {
        let c = VContext::new(self.csr.vl, self.csr.vtype, self.cfg.vlenb);
        proof {
            lemma_vctx(c, self@);
        }
        c
    }

    /// A copy of `v0`.
    pub(crate) fn v0_copy(&self) -> (r: Vec<u8>)
        requires
            self.wf(),
        ensures
            r@ == spec_v0(self@),
    {
        vstd::slice::slice_to_vec(
            vstd::slice::slice_subrange(self.vr.as_slice(), 0, self.cfg.vlenb as usize),
        )
    }

    /// An element-wise instruction: every element below the effective length is
    /// recomputed in order; a register group past `v31` is an error.
    pub fn exec_elem_loop(&mut self, lp: ElemLoop) -> (r: Result<(), StateError>)
        requires
            old(self).wf(),
            old(self).cfg.vlenb > 0,
            lp.rd < 32,
        ensures
            final(self).wf(),
            (final(self)@, r) == spec_elem_loop(old(self)@, lp),
    {
        let c = self.vctx();
        let rd_ok = lp.rd as usize + c.nf <= 32;
        let rs1_ok = match lp.rs1 {
            Some(x) => x as usize + c.nf <= 32,
            None => true,
        };
        let rs2_ok = match lp.rs2 {
            Some(x) => x as usize + c.nf <= 32,
            None => true,
        };
        if !(rd_ok && rs1_ok && rs2_ok) {
            return Err(StateError::Unmapped(0));
        }
        let n = c.n_elems();
        let v0 = self.v0_copy();
        run_elems(&mut self.vr, &v0, c.vlenb, c.sew, n, c.nf, lp);
        self.pc = self.pc.wrapping_add(4);
        Ok(())
    }
}


// ---------------------------------------------------------------------------
// Mask-producing instructions
// ---------------------------------------------------------------------------
/// The comparison of a mask-compare instruction.
#[derive(Clone, Copy, Debug)]
pub enum Relation {
    Eq,
    Ne,
    Le,
    Lt,
}

pub open spec fn relation_holds(op: Relation, a: i64, b: i64) -> bool {
    match op {
        Relation::Eq => a == b,
        Relation::Ne => a != b,
        Relation::Le => a <= b,
        Relation::Lt => a < b,
    }
}

pub fn compare(op: Relation, a: i64, b: i64) -> (r: bool)
    ensures
        r == relation_holds(op, a, b),
{
    match op {
        Relation::Eq => a == b,
        Relation::Ne => a != b,
        Relation::Le => a <= b,
        Relation::Lt => a < b,
    }
}

/// Element `i` of a group, sign-extended.
pub open spec fn vget_i(vr: Seq<u8>, vlenb: nat, reg: int, i: int, sew: nat) -> i64 {
    spec_read_i(vr, reg * vlenb + i * sew, sew)
}

pub open spec fn min_nat(a: nat, b: nat) -> nat {
    if a < b {
        a
    } else {
        b
    }
}

/// `vl` capped by the elements `nf` registers hold.
pub open spec fn n_for(vl: u32, nf: nat, vlenb: nat, sew: nat) -> nat {
    min_nat(vl as nat, (nf * vlenb) / sew)
}

/// Mask bit `i` of a compare against a scalar: inactive elements give 0.
pub open spec fn compare_vx_bit(
    vr: Seq<u8>,
    v0: Seq<u8>,
    vlenb: nat,
    sew: nat,
    vs2: u8,
    scalar: i64,
    vm: bool,
    op: Relation,
) -> spec_fn(int) -> Option<bool> {
    |i: int|
        Some(
            (vm || spec_mask_bit(v0, i)) && relation_holds(
                op,
                vget_i(vr, vlenb, vs2 as int, i, sew),
                scalar,
            ),
        )
}

/// Compare each element of `vs2` with a scalar into the mask register `vd`; the group
/// is cut at `v31`.
pub open spec fn spec_mask_compare(s: HartView, vd: u8, vs2: u8, scalar: i64, vm: bool, op: Relation) -> HartView {
    let vlenb = s.cfg.vlenb as nat;
    let sew = spec_sew(s);
    let n = n_for(s.csr.vl, min_nat(spec_nf(s), (32 - vs2) as nat), vlenb, sew);
    let bits = fill_bits(
        vreg(s.vr, vlenb, vd as int),
        0,
        n as int,
        compare_vx_bit(s.vr, spec_v0(s), vlenb, sew, vs2, scalar, vm, op),
    );
    HartView { vr: splice(s.vr, vd * vlenb, bits), pc: pc_plus4(s), ..s }
}

/// Mask bit `i` of a vector-vector compare: inactive elements keep their bit.
pub open spec fn compare_vv_bit(
    vr: Seq<u8>,
    v0: Seq<u8>,
    vlenb: nat,
    sew: nat,
    vs1: u8,
    vs2: u8,
    vm: bool,
    op: Relation,
) -> spec_fn(int) -> Option<bool> {
    |i: int|
        if !vm && !spec_mask_bit(v0, i) {
            None
        } else {
            Some(
                relation_holds(
                    op,
                    vget_i(vr, vlenb, vs1 as int, i, sew),
                    vget_i(vr, vlenb, vs2 as int, i, sew),
                ),
            )
        }
}

/// Compare `vs1` with `vs2` element by element from `vstart`.
pub open spec fn spec_mask_compare_vv(s: HartView, vd: u8, vs1: u8, vs2: u8, vm: bool, op: Relation) -> HartView {
    let vlenb = s.cfg.vlenb as nat;
    let sew = spec_sew(s);
    let nfc = min_nat(min_nat(spec_nf(s), (32 - vs1) as nat), (32 - vs2) as nat);
    let n = n_for(s.csr.vl, nfc, vlenb, sew);
    let bits = fill_bits(
        vreg(s.vr, vlenb, vd as int),
        s.csr.vstart as int,
        n as int,
        compare_vv_bit(s.vr, spec_v0(s), vlenb, sew, vs1, vs2, vm, op),
    );
    HartView { vr: splice(s.vr, vd * vlenb, bits), pc: pc_plus4(s), ..s }
}

/// `vmor.mm`: bit `i` of `vd` is the OR of bit `i` of `vs1` and `vs2`, for `i < vl`.
pub open spec fn or_bit(vr: Seq<u8>, vlenb: nat, vs1: u8, vs2: u8) -> spec_fn(int) -> Option<bool> {
    |i: int|
        Some(
            spec_mask_bit(vreg(vr, vlenb, vs1 as int), i) || spec_mask_bit(
                vreg(vr, vlenb, vs2 as int),
                i,
            ),
        )
}

pub open spec fn spec_mask_or(s: HartView, vd: u8, vs1: u8, vs2: u8) -> HartView {
    let vlenb = s.cfg.vlenb as nat;
    let bits = fill_bits(vreg(s.vr, vlenb, vd as int), 0, s.csr.vl as int, or_bit(s.vr, vlenb, vs1, vs2));
    HartView { vr: splice(s.vr, vd * vlenb, bits), pc: pc_plus4(s), ..s }
}

proof fn lemma_bits_fit(n: nat, nf: nat, vlenb: nat, sew: nat, i: nat)
    requires
        n <= (nf * vlenb) / sew,
        1 <= sew,
        nf <= 8,
        i < n,
    ensures
        i / 8 < vlenb,
{
    assert(n <= nf * vlenb) by (nonlinear_arith)
        requires
            n <= (nf * vlenb) / sew,
            1 <= sew,
    ;
    assert(nf * vlenb <= 8 * vlenb) by (nonlinear_arith)
        requires
            nf <= 8,
    ;
}

impl Hart {
    fn min_usize(a: usize, b: usize) -> (r: usize)
        ensures
            r == min_nat(a as nat, b as nat),
    {
        if a < b {
            a
        } else {
            b
        }
    }

    /// `vmseq`/`vmsne`/`vmsle`/`vmslt` against a scalar (`.vi` / `.vx`).
    pub fn exec_mask_compare(&mut self, vd: u8, vs2: u8, scalar: i64, vm: bool, op: Relation)
        requires
            old(self).wf(),
            old(self).cfg.vlenb > 0,
            vd < 32,
            vs2 < 32,
        ensures
            final(self).wf(),
            final(self)@ == spec_mask_compare(old(self)@, vd, vs2, scalar, vm, op),
    {
        let ghost s0 = self@;
        let c = self.vctx();
        let vlenb = c.vlenb;
        let nfc = Self::min_usize(c.nf, 32 - vs2 as usize);
        proof {
            assert(nfc * vlenb <= 8 * 1024) by (nonlinear_arith)
                requires
                    nfc <= 8,
                    vlenb <= 1024,
            ;
        }
        let total = (nfc * vlenb) / c.sew_bytes;
        let n: usize = if (c.vl as usize) < total {
            c.vl as usize
        } else {
            total
        };
        let v0 = self.v0_copy();
        proof {
            assert(vd * vlenb + vlenb <= 32 * vlenb) by (nonlinear_arith)
                requires
                    vd < 32,
            ;
        }
        let mut buf = copy_range(&self.vr, vd as usize * vlenb, vlenb);
        let ghost f = compare_vx_bit(s0.vr, spec_v0(s0), vlenb as nat, c.sew_bytes as nat, vs2, scalar, vm, op);
        let mut i: usize = 0;
        while i < n
            invariant
                i <= n,
                n == n_for(s0.csr.vl, nfc as nat, vlenb as nat, c.sew_bytes as nat),
                self@ == s0,
                self.wf(),
                c.vlenb == vlenb,
                vlenb == s0.cfg.vlenb,
                c.sew_bytes == spec_sew(s0),
                1 <= c.sew_bytes <= 8,
                c.sew_bytes == sew_bytes_of(c.sew),
                nfc <= 8,
                vs2 + nfc <= 32,
                v0@ == spec_v0(s0),
                buf@.len() == vlenb,
                f == compare_vx_bit(s0.vr, spec_v0(s0), vlenb as nat, c.sew_bytes as nat, vs2, scalar, vm, op),
                buf@ == fill_bits(vreg(s0.vr, vlenb as nat, vd as int), 0, i as int, f),
            decreases n - i,
        {
            proof {
                lemma_bits_fit(n as nat, nfc as nat, vlenb as nat, c.sew_bytes as nat, i as nat);
                assert(n * c.sew_bytes <= nfc * vlenb) by (nonlinear_arith)
                    requires
                        n <= (nfc * vlenb) / c.sew_bytes as int,
                        c.sew_bytes >= 1,
                ;
                lemma_group_fits(vs2 as nat, nfc as nat, vlenb as nat, n as nat, c.sew_bytes as nat, i as nat);
            }
            let active = vm || mask_bit(v0.as_slice(), i);
            let bit = if active {
                let v = c.sew.read_i(self.vr.as_slice(), vs2 as usize * vlenb + i * c.sew_bytes);
                compare(op, v, scalar)
            } else {
                false
            };
            set_bit(&mut buf, i, bit);
            i = i + 1;
        }
        write_back(&mut self.vr, vd as usize * vlenb, &buf);
        self.pc = self.pc.wrapping_add(4);
    }
}


impl Hart {
    /// `vmsne.vv` and the other vector-vector compares, from `vstart`.
    pub fn exec_mask_compare_vv(&mut self, vd: u8, vs1: u8, vs2: u8, vm: bool, op: Relation)
        requires
            old(self).wf(),
            old(self).cfg.vlenb > 0,
            vd < 32,
            vs1 < 32,
            vs2 < 32,
        ensures
            final(self).wf(),
            final(self)@ == spec_mask_compare_vv(old(self)@, vd, vs1, vs2, vm, op),
    {
        let ghost s0 = self@;
        let c = self.vctx();
        let vlenb = c.vlenb;
        let nfc = Self::min_usize(Self::min_usize(c.nf, 32 - vs1 as usize), 32 - vs2 as usize);
        proof {
            assert(nfc * vlenb <= 8 * 1024) by (nonlinear_arith)
                requires
                    nfc <= 8,
                    vlenb <= 1024,
            ;
        }
        let total = (nfc * vlenb) / c.sew_bytes;
        let n: usize = if (c.vl as usize) < total {
            c.vl as usize
        } else {
            total
        };
        let v0 = self.v0_copy();
        proof {
            assert(vd * vlenb + vlenb <= 32 * vlenb) by (nonlinear_arith)
                requires
                    vd < 32,
            ;
        }
        let mut buf = copy_range(&self.vr, vd as usize * vlenb, vlenb);
        let ghost f = compare_vv_bit(s0.vr, spec_v0(s0), vlenb as nat, c.sew_bytes as nat, vs1, vs2, vm, op);
        let start = self.csr.vstart as usize;
        if start >= n {
            proof {
                assert(buf@ == fill_bits(vreg(s0.vr, vlenb as nat, vd as int), start as int, n as int, f));
            }
            write_back(&mut self.vr, vd as usize * vlenb, &buf);
            self.pc = self.pc.wrapping_add(4);
            return;
        }
        let mut i: usize = start;
        while i < n
            invariant
                start <= i <= n,
                start == s0.csr.vstart,
                n == n_for(s0.csr.vl, nfc as nat, vlenb as nat, c.sew_bytes as nat),
                self@ == s0,
                self.wf(),
                c.vlenb == vlenb,
                vlenb == s0.cfg.vlenb,
                c.sew_bytes == spec_sew(s0),
                1 <= c.sew_bytes <= 8,
                c.sew_bytes == sew_bytes_of(c.sew),
                nfc <= 8,
                vs1 + nfc <= 32,
                vs2 + nfc <= 32,
                v0@ == spec_v0(s0),
                buf@.len() == vlenb,
                f == compare_vv_bit(s0.vr, spec_v0(s0), vlenb as nat, c.sew_bytes as nat, vs1, vs2, vm, op),
                buf@ == fill_bits(vreg(s0.vr, vlenb as nat, vd as int), start as int, i as int, f),
            decreases n - i,
        {
            proof {
                lemma_bits_fit(n as nat, nfc as nat, vlenb as nat, c.sew_bytes as nat, i as nat);
                assert(n * c.sew_bytes <= nfc * vlenb) by (nonlinear_arith)
                    requires
                        n <= (nfc * vlenb) / c.sew_bytes as int,
                        c.sew_bytes >= 1,
                ;
                lemma_group_fits(vs1 as nat, nfc as nat, vlenb as nat, n as nat, c.sew_bytes as nat, i as nat);
                lemma_group_fits(vs2 as nat, nfc as nat, vlenb as nat, n as nat, c.sew_bytes as nat, i as nat);
            }
            if vm || mask_bit(v0.as_slice(), i) {
                let a = c.sew.read_i(self.vr.as_slice(), vs1 as usize * vlenb + i * c.sew_bytes);
                let b = c.sew.read_i(self.vr.as_slice(), vs2 as usize * vlenb + i * c.sew_bytes);
                let bit = compare(op, a, b);
                set_bit(&mut buf, i, bit);
            }
            i = i + 1;
        }
        write_back(&mut self.vr, vd as usize * vlenb, &buf);
        self.pc = self.pc.wrapping_add(4);
    }

    /// `vmor.mm`: OR of two mask registers over the first `vl` bits.
    pub fn exec_mask_or(&mut self, vd: u8, vs1: u8, vs2: u8)
        requires
            old(self).wf(),
            old(self).cfg.vlenb > 0,
            vd < 32,
            vs1 < 32,
            vs2 < 32,
        ensures
            final(self).wf(),
            final(self)@ == spec_mask_or(old(self)@, vd, vs1, vs2),
    {
        let ghost s0 = self@;
        let vlenb = self.cfg.vlenb as usize;
        proof {
            assert(vd * vlenb + vlenb <= 32 * vlenb && vs1 * vlenb + vlenb <= 32 * vlenb
                && vs2 * vlenb + vlenb <= 32 * vlenb) by (nonlinear_arith)
                requires
                    vd < 32,
                    vs1 < 32,
                    vs2 < 32,
            ;
        }
        let a = copy_range(&self.vr, vs1 as usize * vlenb, vlenb);
        let b = copy_range(&self.vr, vs2 as usize * vlenb, vlenb);
        let mut buf = copy_range(&self.vr, vd as usize * vlenb, vlenb);
        let n = self.csr.vl as usize;
        let ghost f = or_bit(s0.vr, vlenb as nat, vs1, vs2);
        let mut i: usize = 0;
        while i < n
            invariant
                i <= n,
                n == s0.csr.vl,
                n <= 8 * vlenb,
                self@ == s0,
                vlenb == s0.cfg.vlenb,
                a@ == vreg(s0.vr, vlenb as nat, vs1 as int),
                b@ == vreg(s0.vr, vlenb as nat, vs2 as int),
                buf@.len() == vlenb,
                f == or_bit(s0.vr, vlenb as nat, vs1, vs2),
                buf@ == fill_bits(vreg(s0.vr, vlenb as nat, vd as int), 0, i as int, f),
            decreases n - i,
        {
            let bit = mask_bit(a.as_slice(), i) || mask_bit(b.as_slice(), i);
            set_bit(&mut buf, i, bit);
            i = i + 1;
        }
        write_back(&mut self.vr, vd as usize * vlenb, &buf);
        self.pc = self.pc.wrapping_add(4);
    }
}


// ---------------------------------------------------------------------------
// Reductions and scalar moves
// ---------------------------------------------------------------------------
/// One reduction step: the wrapping sum, or the signed maximum.
pub open spec fn red_step(max: bool, acc: i64, v: i64) -> i64 {
    if max {
        if acc >= v {
            acc
        } else {
            v
        }
    } else {
        vstd::wrapping::i64_specs::wrapping_add(acc, v)
    }
}

/// The accumulator after the active elements among the first `k` of `vs2` were folded in.
pub open spec fn red_upto(
    vr: Seq<u8>,
    v0: Seq<u8>,
    vlenb: nat,
    sew: nat,
    vs2: u8,
    vm: bool,
    max: bool,
    acc0: i64,
    k: nat,
) -> i64
    decreases k,
{
    if k == 0 {
        acc0
    } else {
        let a = red_upto(vr, v0, vlenb, sew, vs2, vm, max, acc0, (k - 1) as nat);
        if !vm && !spec_mask_bit(v0, k - 1) {
            a
        } else {
            red_step(max, a, vget_i(vr, vlenb, vs2 as int, k - 1, sew))
        }
    }
}

/// `vredsum.vs` / `vredmax.vs`: fold the active elements of `vs2` into `vs1[0]` and write the
/// result to `vd[0]`; with `vl = 0` nothing but the pc changes.
pub open spec fn spec_reduction(s: HartView, vd: u8, vs1: u8, vs2: u8, vm: bool, max: bool) -> HartView {
    let vlenb = s.cfg.vlenb as nat;
    let sew = spec_sew(s);
    if s.csr.vl == 0 {
        HartView { pc: pc_plus4(s), ..s }
    } else {
        let n = n_for(s.csr.vl, min_nat(spec_nf(s), (32 - vs2) as nat), vlenb, sew);
        let acc = red_upto(s.vr, spec_v0(s), vlenb, sew, vs2, vm, max, vget_i(s.vr, vlenb, vs1 as int, 0, sew), n);
        HartView { vr: store_le(s.vr, vd * vlenb, sew, (acc as u64) as nat), pc: pc_plus4(s), ..s }
    }
}

/// `vmv.s.x`: the scalar into element 0 of `vd`.
pub open spec fn spec_insert_scalar(s: HartView, vd: u8, scalar: u32) -> HartView {
    HartView {
        vr: store_le(s.vr, vd * s.cfg.vlenb, spec_sew(s), scalar as nat),
        pc: pc_plus4(s),
        ..s
    }
}

/// `vmv.x.s`: element 0 of `vs2`, sign-extended and cut to 32 bits, into `rd`.
pub open spec fn spec_extract_scalar(s: HartView, rd: u8, vs2: u8) -> HartView {
    let v = vget_i(s.vr, s.cfg.vlenb as nat, vs2 as int, 0, spec_sew(s));
    HartView { gpr: crate::hart::write_gpr(s.gpr, rd, v as u32), pc: pc_plus4(s), ..s }
}

/// The index of the first set bit of `m` among `i .. vl`, or all ones.
pub open spec fn first_from(m: Seq<u8>, i: int, vl: int) -> u32
    decreases vl - i,
{
    if i >= vl {
        u32::MAX
    } else if spec_mask_bit(m, i) {
        i as u32
    } else {
        first_from(m, i + 1, vl)
    }
}

/// `vfirst.m`: the first set bit of `vs2` below `vl` into `rd`, or -1.
pub open spec fn spec_first_mask(s: HartView, rd: u8, vs2: u8) -> HartView {
    let m = vreg(s.vr, s.cfg.vlenb as nat, vs2 as int);
    HartView {
        gpr: crate::hart::write_gpr(s.gpr, rd, first_from(m, 0, s.csr.vl as int)),
        pc: pc_plus4(s),
        ..s
    }
}

/// The number of elements `0 .. n` that are active (all of them with `vm`, else those
/// whose `v0` bit is set) and whose bit in `m` is set.
pub open spec fn count_active_bits(m: Seq<u8>, v0: Seq<u8>, vm: bool, n: int) -> nat
    decreases n,
{
    if n <= 0 {
        0
    } else {
        count_active_bits(m, v0, vm, n - 1) + if spec_mask_bit(m, n - 1) && (vm || spec_mask_bit(
            v0,
            n - 1,
        )) {
            1nat
        } else {
            0nat
        }
    }
}

/// `vcpop.m`: the number of active set bits of `vs2` below `vl` into `rd`; a nonzero
/// `vstart` is an error.
pub open spec fn spec_cpop_mask(s: HartView, rd: u8, vs2: u8, vm: bool) -> (HartView, Result<(), StateError>) {
    if s.csr.vstart != 0 {
        (s, Err(StateError::Unmapped(0)))
    } else {
        let m = vreg(s.vr, s.cfg.vlenb as nat, vs2 as int);
        let c = count_active_bits(m, spec_v0(s), vm, s.csr.vl as int);
        (HartView { gpr: crate::hart::write_gpr(s.gpr, rd, c as u32), pc: pc_plus4(s), ..s }, Ok(()))
    }
}

/// `vmv<nr>r.v`: the register-count and alignment rules.
pub open spec fn mvnr_ok(nr: nat, vd: u8, vs2: u8) -> bool {
    &&& (nr == 1 || nr == 2 || nr == 4 || nr == 8)
    &&& (vd as nat) % nr == 0
    &&& (vs2 as nat) % nr == 0
    &&& vd + nr <= 32
    &&& vs2 + nr <= 32
    &&& (vd == vs2 || !(vd < vs2 + nr && vs2 < vd + nr))
}

/// `vmv<nr>r.v`: copy `nr` whole registers from `vs2` to `vd`; a bad count, misaligned or
/// partly overlapping groups are an error.
pub open spec fn spec_move_regs(s: HartView, vd: u8, vs2: u8, imm: u32) -> (HartView, Result<(), StateError>) {
    let nr: nat = (imm + 1) as nat;
    let vlenb = s.cfg.vlenb as nat;
    if !mvnr_ok(nr as nat, vd, vs2) {
        (s, Err(StateError::Unmapped(0)))
    } else {
        (
            HartView {
                vr: splice(s.vr, vd * vlenb, s.vr.subrange(vs2 * vlenb, (vs2 + nr) * vlenb)),
                pc: pc_plus4(s),
                ..s
            },
            Ok(()),
        )
    }
}

impl Hart {
    pub fn exec_reduction(&mut self, vd: u8, vs1: u8, vs2: u8, vm: bool, max: bool)
        requires
            old(self).wf(),
            old(self).cfg.vlenb > 0,
            vd < 32,
            vs1 < 32,
            vs2 < 32,
        ensures
            final(self).wf(),
            final(self)@ == spec_reduction(old(self)@, vd, vs1, vs2, vm, max),
    {
        let ghost s0 = self@;
        let c = self.vctx();
        if c.vl == 0 {
            self.pc = self.pc.wrapping_add(4);
            return;
        }
        let vlenb = c.vlenb;
        let nfc = Self::min_usize(c.nf, 32 - vs2 as usize);
        proof {
            assert(nfc * vlenb <= 8 * 1024) by (nonlinear_arith)
                requires
                    nfc <= 8,
                    vlenb <= 1024,
            ;
            assert(vs1 * vlenb + vlenb <= 32 * vlenb && vd * vlenb + vlenb <= 32 * vlenb)
                by (nonlinear_arith)
                requires
                    vs1 < 32,
                    vd < 32,
            ;
        }
        let total = (nfc * vlenb) / c.sew_bytes;
        let n: usize = if (c.vl as usize) < total {
            c.vl as usize
        } else {
            total
        };
        let v0 = self.v0_copy();
        let acc0 = c.sew.read_i(self.vr.as_slice(), vs1 as usize * vlenb);
        let mut acc = acc0;
        let mut i: usize = 0;
        while i < n
            invariant
                i <= n,
                n == n_for(s0.csr.vl, nfc as nat, vlenb as nat, c.sew_bytes as nat),
                self@ == s0,
                self.wf(),
                vlenb == s0.cfg.vlenb,
                c.sew_bytes == spec_sew(s0),
                1 <= c.sew_bytes <= 8,
                c.sew_bytes == sew_bytes_of(c.sew),
                nfc <= 8,
                vs2 + nfc <= 32,
                v0@ == spec_v0(s0),
                acc == red_upto(s0.vr, v0@, vlenb as nat, c.sew_bytes as nat, vs2, vm, max, acc0, i as nat),
            decreases n - i,
        {
            proof {
                assert(n * c.sew_bytes <= nfc * vlenb) by (nonlinear_arith)
                    requires
                        n <= (nfc * vlenb) / c.sew_bytes as int,
                        c.sew_bytes >= 1,
                ;
                lemma_group_fits(vs2 as nat, nfc as nat, vlenb as nat, n as nat, c.sew_bytes as nat, i as nat);
            }
            if vm || mask_bit(v0.as_slice(), i) {
                let v = c.sew.read_i(self.vr.as_slice(), vs2 as usize * vlenb + i * c.sew_bytes);
                acc = if max {
                    if acc >= v {
                        acc
                    } else {
                        v
                    }
                } else {
                    acc.wrapping_add(v)
                };
            }
            i = i + 1;
        }
        let bits = #[verifier::truncate] (acc as u64);
        proof {
            lemma_store_le_len(self.vr@, vd * vlenb, c.sew_bytes as nat, bits as nat);
        }
        c.sew.write(&mut self.vr, vd as usize * vlenb, bits);
        self.pc = self.pc.wrapping_add(4);
    }

    pub fn exec_insert_scalar(&mut self, vd: u8, scalar: u32)
        requires
            old(self).wf(),
            old(self).cfg.vlenb > 0,
            vd < 32,
        ensures
            final(self).wf(),
            final(self)@ == spec_insert_scalar(old(self)@, vd, scalar),
    {
        let c = self.vctx();
        let vlenb = c.vlenb;
        proof {
            assert(vd * vlenb + vlenb <= 32 * vlenb) by (nonlinear_arith)
                requires
                    vd < 32,
            ;
            lemma_store_le_len(self.vr@, vd * vlenb, c.sew_bytes as nat, scalar as nat);
        }
        c.sew.write(&mut self.vr, vd as usize * vlenb, scalar as u64);
        self.pc = self.pc.wrapping_add(4);
    }

    pub fn exec_extract_scalar(&mut self, rd: u8, vs2: u8)
        requires
            old(self).wf(),
            old(self).cfg.vlenb > 0,
            rd < 32,
            vs2 < 32,
        ensures
            final(self).wf(),
            final(self)@ == spec_extract_scalar(old(self)@, rd, vs2),
    {
        let c = self.vctx();
        let vlenb = c.vlenb;
        proof {
            assert(vs2 * vlenb + vlenb <= 32 * vlenb) by (nonlinear_arith)
                requires
                    vs2 < 32,
            ;
        }
        let v = c.sew.read_i(self.vr.as_slice(), vs2 as usize * vlenb);
        self.set(rd, #[verifier::truncate] (v as u32));
        self.pc = self.pc.wrapping_add(4);
    }

    pub fn exec_first_mask(&mut self, rd: u8, vs2: u8)
        requires
            old(self).wf(),
            old(self).cfg.vlenb > 0,
            rd < 32,
            vs2 < 32,
        ensures
            final(self).wf(),
            final(self)@ == spec_first_mask(old(self)@, rd, vs2),
    {
        let vlenb = self.cfg.vlenb as usize;
        proof {
            assert(vs2 * vlenb + vlenb <= 32 * vlenb) by (nonlinear_arith)
                requires
                    vs2 < 32,
            ;
        }
        let m = copy_range(&self.vr, vs2 as usize * vlenb, vlenb);
        let vl = self.csr.vl;
        let mut pos: u32 = u32::MAX;
        let mut i: u32 = 0;
        while i < vl
            invariant_except_break
                i <= vl,
                pos == u32::MAX,
                first_from(m@, 0, vl as int) == first_from(m@, i as int, vl as int),
            ensures
                pos == first_from(m@, 0, vl as int),
            decreases vl - i,
        {
            if mask_bit(m.as_slice(), i as usize) {
                pos = i;
                break;
            }
            i = i + 1;
        }
        self.set(rd, pos);
        self.pc = self.pc.wrapping_add(4);
    }

    pub fn exec_cpop_mask(&mut self, rd: u8, vs2: u8, vm: bool) -> (r: Result<(), StateError>)
        requires
            old(self).wf(),
            old(self).cfg.vlenb > 0,
            rd < 32,
            vs2 < 32,
        ensures
            final(self).wf(),
            (final(self)@, r) == spec_cpop_mask(old(self)@, rd, vs2, vm),
    {
        if self.csr.vstart != 0 {
            return Err(StateError::Unmapped(0));
        }
        let vlenb = self.cfg.vlenb as usize;
        proof {
            assert(vs2 * vlenb + vlenb <= 32 * vlenb) by (nonlinear_arith)
                requires
                    vs2 < 32,
            ;
        }
        let m = copy_range(&self.vr, vs2 as usize * vlenb, vlenb);
        let v0 = self.v0_copy();
        let vl = self.csr.vl;
        let mut count: u32 = 0;
        let mut i: u32 = 0;
        while i < vl
            invariant
                i <= vl,
                count == count_active_bits(m@, v0@, vm, i as int),
                count <= i,
            decreases vl - i,
        {
            if mask_bit(m.as_slice(), i as usize) && (vm || mask_bit(v0.as_slice(), i as usize)) {
                count = count + 1;
            }
            i = i + 1;
        }
        self.set(rd, count);
        self.pc = self.pc.wrapping_add(4);
        Ok(())
    }

    pub fn exec_move_regs(&mut self, vd: u8, vs2: u8, imm: u32) -> (r: Result<(), StateError>)
        requires
            old(self).wf(),
            old(self).cfg.vlenb > 0,
            vd < 32,
            vs2 < 32,
        ensures
            final(self).wf(),
            (final(self)@, r) == spec_move_regs(old(self)@, vd, vs2, imm),
    {
        let count = imm as u64 + 1;
        if count != 1 && count != 2 && count != 4 && count != 8 {
            return Err(StateError::Unmapped(0));
        }
        let nr = count as usize;
        let d = vd as usize;
        let s2 = vs2 as usize;
        if d % nr != 0 || s2 % nr != 0 {
            return Err(StateError::Unmapped(0));
        }
        if d + nr > 32 || s2 + nr > 32 {
            return Err(StateError::Unmapped(0));
        }
        if d != s2 && d < s2 + nr && s2 < d + nr {
            return Err(StateError::Unmapped(0));
        }
        let vlenb = self.cfg.vlenb as usize;
        proof {
            assert(s2 * vlenb + nr * vlenb <= 32 * vlenb && d * vlenb + nr * vlenb <= 32 * vlenb
                && (s2 + nr) * vlenb == s2 * vlenb + nr * vlenb) by (nonlinear_arith)
                requires
                    s2 + nr <= 32,
                    d + nr <= 32,
            ;
        }
        let data = copy_range(&self.vr, s2 * vlenb, nr * vlenb);
        write_back(&mut self.vr, d * vlenb, &data);
        self.pc = self.pc.wrapping_add(4);
        Ok(())
    }
}


// ---------------------------------------------------------------------------
// Configuration
// ---------------------------------------------------------------------------
/// `vsetivli`: `imm[4:0]` is the requested length, `imm[14:5]` the `vtypei` field.
pub open spec fn spec_vsetivli(s: HartView, rd: u8, imm: u32) -> HartView {
    let vtype = ((imm / 32) % 1024) % 256;
    let vlmax = spec_calculate_vlmax(s.cfg.vlenb, vtype);
    let avl = imm % 32;
    let vl = if avl < vlmax {
        avl
    } else {
        vlmax
    };
    HartView {
        csr: Csrs { vtype, vl, ..s.csr },
        gpr: crate::hart::write_gpr(s.gpr, rd, vl),
        pc: pc_plus4(s),
        ..s
    }
}

/// `vsetvli`: with `rs1 = rd = x0` only `vtype` changes; otherwise the requested length is
/// `rs1` (all ones for `x0`), capped at VLMAX.
pub open spec fn spec_vsetvli(s: HartView, rd: u8, rs1: u8, imm: u32) -> HartView {
    let vtype = ((imm / 32) % 1024) % 256;
    let vlmax = spec_calculate_vlmax(s.cfg.vlenb, vtype);
    if rs1 == 0 && rd == 0 {
        HartView { csr: Csrs { vtype, ..s.csr }, pc: pc_plus4(s), ..s }
    } else {
        let avl = if rs1 == 0 {
            u32::MAX
        } else {
            crate::hart::reg(s, rs1)
        };
        let vl = if avl < vlmax {
            avl
        } else {
            vlmax
        };
        HartView {
            csr: Csrs { vtype, vl, ..s.csr },
            gpr: crate::hart::write_gpr(s.gpr, rd, vl),
            pc: pc_plus4(s),
            ..s
        }
    }
}

/// VLMAX never exceeds the bits of one register.
proof fn lemma_vlmax_le(vlenb: u32, vtype: u32)
    requires
        vlenb <= 1024,
    ensures
        spec_calculate_vlmax(vlenb, vtype) <= 8 * vlenb,
{
    reveal_with_fuel(pow2i, 8);
    let vsew = spec_vsew(vtype);
    match lmul_log2(spec_vlmul(vtype)) {
        None => {},
        Some(l) => {
            if vsew <= 3 {
                let t = l - vsew;
                if t >= 0 {
                    assert(pow2i(t as nat) <= 8);
                    assert(vlenb * pow2i(t as nat) <= 8 * vlenb) by (nonlinear_arith)
                        requires
                            pow2i(t as nat) <= 8,
                    ;
                } else {
                    assert(pow2i((-t) as nat) >= 1);
                    assert(vlenb as nat / pow2i((-t) as nat) <= vlenb) by (nonlinear_arith)
                        requires
                            pow2i((-t) as nat) >= 1,
                    ;
                }
            }
        },
    }
}

impl Hart {
    fn vtype_of(imm: u32) -> (r: u32)
        ensures
            r == ((imm / 32) % 1024) % 256,
    {
        let zimm = (imm >> 5) & 0x3FF;
        assert(zimm == (imm / 32) % 1024) by {
        crate::bits::lemma_u32_fields(imm);
    }
        zimm_to_vtype(zimm)
    }

    pub fn exec_vsetivli(&mut self, rd: u8, imm: u32)
        requires
            old(self).wf(),
            rd < 32,
        ensures
            final(self).wf(),
            final(self)@ == spec_vsetivli(old(self)@, rd, imm),
    {
        let vtype = Self::vtype_of(imm);
        let vlmax = calculate_vlmax(self.cfg.vlenb, vtype);
        let avl = imm & 0x1F;
        assert(avl == imm % 32) by {
        crate::bits::lemma_u32_fields(imm);
    }
        let vl = if avl < vlmax {
            avl
        } else {
            vlmax
        };
        proof {
            lemma_vlmax_le(self.cfg.vlenb, vtype);
        }
        self.csr.vtype = vtype;
        self.csr.vl = vl;
        self.set(rd, vl);
        self.pc = self.pc.wrapping_add(4);
    }

    pub fn exec_vsetvli(&mut self, rd: u8, rs1: u8, imm: u32)
        requires
            old(self).wf(),
            rd < 32,
            rs1 < 32,
        ensures
            final(self).wf(),
            final(self)@ == spec_vsetvli(old(self)@, rd, rs1, imm),
    {
        let vtype = Self::vtype_of(imm);
        let vlmax = calculate_vlmax(self.cfg.vlenb, vtype);
        proof {
            lemma_vlmax_le(self.cfg.vlenb, vtype);
        }
        self.csr.vtype = vtype;
        self.pc = self.pc.wrapping_add(4);
        if rs1 == 0 && rd == 0 {
            return;
        }
        let avl = if rs1 == 0 {
            u32::MAX
        } else {
            self.get(rs1)
        };
        let vl = if avl < vlmax {
            avl
        } else {
            vlmax
        };
        self.csr.vl = vl;
        self.set(rd, vl);
    }
}

// ---------------------------------------------------------------------------
// Widening: sign/zero extension and widening multiplies
// ---------------------------------------------------------------------------
/// Element `i` of a register group sits inside register `r` of the group when
/// `r · VLENB / w <= i < (r + 1) · VLENB / w`.
proof fn lemma_elem_in_reg(r: nat, vlenb: nat, w: nat, i: nat)
    requires
        w == 1 || w == 2 || w == 4 || w == 8 || w == 16,
        vlenb % 16 == 0 || (vlenb % 8 == 0 && w <= 8),
        (r * vlenb) / w <= i,
        i < ((r + 1) * vlenb) / w,
    ensures
        r * vlenb <= i * w,
        i * w + w <= r * vlenb + vlenb,
{
    let q = vlenb / w;
    assert(vlenb == q * w) by {
        vstd::arithmetic::div_mod::lemma_fundamental_div_mod(vlenb as int, w as int);
        if w == 16 && vlenb % 16 != 0 {
            assert(false);
        }
        assert(vlenb % w == 0) by {
            if w == 1 {
            } else if w == 2 {
                assert(vlenb % 2 == 0);
            } else if w == 4 {
                assert(vlenb % 4 == 0);
            } else if w == 8 {
                assert(vlenb % 8 == 0);
            } else {
            }
        }
    }
    assert((r * vlenb) / w == r * q) by {
        assert(r * vlenb == (r * q) * w) by (nonlinear_arith)
            requires
                vlenb == q * w,
        ;
        vstd::arithmetic::div_mod::lemma_div_by_multiple((r * q) as int, w as int);
    }
    assert(((r + 1) * vlenb) / w == (r + 1) * q) by {
        assert((r + 1) * vlenb == ((r + 1) * q) * w) by (nonlinear_arith)
            requires
                vlenb == q * w,
        ;
        vstd::arithmetic::div_mod::lemma_div_by_multiple(((r + 1) * q) as int, w as int);
    }
    assert(r * vlenb <= i * w && i * w + w <= r * vlenb + vlenb) by (nonlinear_arith)
        requires
            vlenb == q * w,
            r * q <= i,
            i < (r + 1) * q,
            w >= 1,
    ;
}

/// Element `i` of `vs2` at the narrow width, extended to SEW; masked-off elements are
/// skipped.
pub open spec fn ext_elem(
    cur: Seq<u8>,
    v0: Seq<u8>,
    vlenb: nat,
    src_sew: nat,
    vs2: u8,
    vm: bool,
    signed: bool,
) -> spec_fn(int) -> Option<u64> {
    |i: int|
        if !vm && !spec_mask_bit(v0, i) {
            None
        } else if signed {
            Some(vget_i(cur, vlenb, vs2 as int, i, src_sew) as u64)
        } else {
            Some(vget(cur, vlenb, vs2 as int, i, src_sew))
        }
}

/// The new register `vd + r` of an extension, computed from the register file `cur`.
pub open spec fn ext_newreg(
    v0: Seq<u8>,
    vlenb: nat,
    sew: nat,
    src_sew: nat,
    vd: u8,
    vs2: u8,
    vm: bool,
    signed: bool,
    n: nat,
) -> spec_fn(Seq<u8>, int) -> Seq<u8> {
    |cur: Seq<u8>, r: int|
        fill(
            vreg(cur, vlenb, vd + r),
            sew,
            r * vlenb,
            (r * vlenb) / sew as int,
            min_nat((((r + 1) * vlenb) / sew as int) as nat, n) as int,
            ext_elem(cur, v0, vlenb, src_sew, vs2, vm, signed),
        )
}

/// `vsext.vf2` / `vzext.vf2` / `vsext.vf4` / `vzext.vf4` (`factor` 2 or 4): each active
/// element of `vs2` at SEW/`factor` is extended to SEW. The destination registers are
/// written one after the other, each reading the file as it then stands. A source width
/// below one byte is an error.
pub open spec fn spec_extend(s: HartView, vd: u8, vs2: u8, vm: bool, signed: bool, factor: nat) -> (HartView, Result<(), StateError>) {
    let vlenb = s.cfg.vlenb as nat;
    let sew = spec_sew(s);
    let src_sew = sew / factor;
    if src_sew == 0 {
        (s, Err(StateError::Unmapped(0)))
    } else {
        let nfc = min_nat(min_nat(spec_nf(s), (32 - vd) as nat), (32 - vs2) as nat);
        let n = n_for(s.csr.vl, nfc, vlenb, sew);
        (
            HartView {
                vr: regs_upto(
                    s.vr,
                    vlenb,
                    vd as int,
                    nfc,
                    ext_newreg(spec_v0(s), vlenb, sew, src_sew, vd, vs2, vm, signed, n),
                ),
                pc: pc_plus4(s),
                ..s
            },
            Ok(()),
        )
    }
}

pub fn sew_of_bytes(b: usize) -> (r: Sew)
    requires
        b == 1 || b == 2 || b == 4 || b == 8,
    ensures
        sew_bytes_of(r) == b,
{
    if b == 1 {
        Sew::E8
    } else if b == 2 {
        Sew::E16
    } else if b == 4 {
        Sew::E32
    } else {
        Sew::E64
    }
}

impl Hart {
    pub fn exec_extend(&mut self, vd: u8, vs2: u8, vm: bool, signed: bool, factor: usize) -> (r: Result<(), StateError>)
        requires
            old(self).wf(),
            old(self).cfg.vlenb > 0,
            vd < 32,
            vs2 < 32,
            factor == 2 || factor == 4,
        ensures
            final(self).wf(),
            (final(self)@, r) == spec_extend(old(self)@, vd, vs2, vm, signed, factor as nat),
    {
        let ghost s0 = self@;
        let c = self.vctx();
        let sew = c.sew_bytes;
        let src_sew = sew / factor;
        if src_sew == 0 {
            return Err(StateError::Unmapped(0));
        }
        let src = sew_of_bytes(src_sew);
        let vlenb = c.vlenb;
        let nfc = Self::min_usize(Self::min_usize(c.nf, 32 - vd as usize), 32 - vs2 as usize);
        proof {
            assert(nfc * vlenb <= 8 * 1024) by (nonlinear_arith)
                requires
                    nfc <= 8,
                    vlenb <= 1024,
            ;
        }
        let total = (nfc * vlenb) / sew;
        let n: usize = if (c.vl as usize) < total {
            c.vl as usize
        } else {
            total
        };
        proof {
            assert(n * sew <= nfc * vlenb) by (nonlinear_arith)
                requires
                    n <= (nfc * vlenb) / sew as int,
                    sew >= 1,
            ;
        }
        let v0 = self.v0_copy();
        let ghost newreg = ext_newreg(spec_v0(s0), vlenb as nat, sew as nat, src_sew as nat, vd, vs2, vm, signed, n as nat);
        let mut r: usize = 0;
        while r < nfc
            invariant
                r <= nfc,
                nfc <= 8,
                vd + nfc <= 32,
                vs2 + nfc <= 32,
                self.wf(),
                self@ == (HartView { vr: self@.vr, ..s0 }),
                vlenb == s0.cfg.vlenb,
                sew == spec_sew(s0),
                sew == sew_bytes_of(c.sew),
                src_sew == sew_bytes_of(src),
                src_sew == sew / factor,
                factor == 2 || factor == 4,
                1 <= src_sew,
                n * sew <= nfc * vlenb,
                n == n_for(s0.csr.vl, nfc as nat, vlenb as nat, sew as nat),
                v0@ == spec_v0(s0),
                newreg == ext_newreg(spec_v0(s0), vlenb as nat, sew as nat, src_sew as nat, vd, vs2, vm, signed, n as nat),
                self.vr@ == regs_upto(s0.vr, vlenb as nat, vd as int, r as nat, newreg),
                vlenb % 8 == 0,
                vlenb <= 1024,
            decreases nfc - r,
        {
            let ghost cur = self.vr@;
            proof {
                assert((vd + r) * vlenb + vlenb <= 32 * vlenb && (r + 1) * vlenb <= 8 * 1024
                    && r * vlenb <= 8 * 1024 && vs2 * vlenb <= 32 * 1024)
                    by (nonlinear_arith)
                    requires
                        vd + r < 32,
                        vs2 < 32,
                        r < 8,
                        vlenb <= 1024,
                ;
            }
            let mut dst = copy_range(&self.vr, (vd as usize + r) * vlenb, vlenb);
            let start = (r * vlenb) / sew;
            let end0 = ((r + 1) * vlenb) / sew;
            let end = if end0 < n {
                end0
            } else {
                n
            };
            let ghost f = ext_elem(cur, spec_v0(s0), vlenb as nat, src_sew as nat, vs2, vm, signed);
            let mut i: usize = start;
            while i < end
                invariant
                    start <= i,
                    i <= end || i == start,
                    self.vr@.len() == 32 * vlenb,
                    vlenb % 8 == 0,
                    vlenb <= 1024,
                    vs2 * vlenb <= 32 * 1024,
                    start == (r * vlenb) / sew as int,
                    end <= end0,
                    end <= n,
                    end0 == ((r + 1) * vlenb) / sew as int,
                    r < nfc,
                    nfc <= 8,
                    vd + nfc <= 32,
                    vs2 + nfc <= 32,
                    self.wf(),
                    self.vr@ == cur,
                    vlenb == s0.cfg.vlenb,
                    sew == sew_bytes_of(c.sew),
                    src_sew == sew_bytes_of(src),
                    src_sew == sew / factor,
                    factor == 2 || factor == 4,
                    1 <= src_sew,
                    n * sew <= nfc * vlenb,
                    v0@ == spec_v0(s0),
                    dst@.len() == vlenb,
                    f == ext_elem(cur, spec_v0(s0), vlenb as nat, src_sew as nat, vs2, vm, signed),
                    dst@ == fill(vreg(cur, vlenb as nat, vd + r), sew as nat, r * vlenb, start as int, i as int, f),
                decreases end - i,
            {
                proof {
                    lemma_elem_in_reg(r as nat, vlenb as nat, sew as nat, i as nat);
                    assert(src_sew <= sew);
                    assert(i * src_sew + src_sew <= i * sew + sew) by (nonlinear_arith)
                        requires
                            src_sew <= sew,
                    ;
                    lemma_group_fits(vs2 as nat, nfc as nat, vlenb as nat, n as nat, sew as nat, i as nat);
                }
                if vm || mask_bit(v0.as_slice(), i) {
                    let off = vs2 as usize * vlenb + i * src_sew;
                    let v: u64 = if signed {
                        let x = src.read_i(self.vr.as_slice(), off);
                        #[verifier::truncate] (x as u64)
                    } else {
                        src.read_u(self.vr.as_slice(), off)
                    };
                    let doff = i * sew - r * vlenb;
                    proof {
                        lemma_store_le_len(dst@, doff as int, sew as nat, v as nat);
                    }
                    c.sew.write(&mut dst, doff, v);
                }
                i = i + 1;
            }
            proof {
                if end < start {
                    assert(dst@ == fill(vreg(cur, vlenb as nat, vd + r), sew as nat, r * vlenb, start as int, end as int, f));
                }
                assert(dst@ == newreg(cur, r as int));
            }
            write_back(&mut self.vr, (vd as usize + r) * vlenb, &dst);
            r = r + 1;
        }
        self.pc = self.pc.wrapping_add(4);
        Ok(())
    }
}


/// The widening-multiply operands: two vectors, or a vector and a scalar.
#[derive(Clone, Copy, Debug)]
pub enum WideSrc {
    /// `vs1 · vs2` (`signed` selects `vwmacc`-style signed products, `accumulate` adds the
    /// old destination element).
    Vv { vs1: u8, signed: bool, accumulate: bool },
    /// `vs2 · scalar`, signed.
    Vx { scalar: i64 },
}

/// Element `i` of a widening multiply, at twice SEW.
pub open spec fn wmul_elem(
    cur: Seq<u8>,
    v0: Seq<u8>,
    vlenb: nat,
    sew: nat,
    vd: u8,
    vs2: u8,
    vm: bool,
    src: WideSrc,
) -> spec_fn(int) -> Option<u64> {
    |i: int|
        if !vm && !spec_mask_bit(v0, i) {
            None
        } else {
            match src {
                WideSrc::Vv { vs1, signed, accumulate } => {
                    let d = if accumulate {
                        vget_i(cur, vlenb, vd as int, i, 2 * sew)
                    } else {
                        0
                    };
                    if signed {
                        Some(
                            vstd::wrapping::i64_specs::wrapping_add(
                                vstd::wrapping::i64_specs::wrapping_mul(
                                    vget_i(cur, vlenb, vs1 as int, i, sew),
                                    vget_i(cur, vlenb, vs2 as int, i, sew),
                                ),
                                d,
                            ) as u64,
                        )
                    } else {
                        Some(
                            vstd::wrapping::u64_specs::wrapping_add(
                                vstd::wrapping::u64_specs::wrapping_mul(
                                    vget(cur, vlenb, vs1 as int, i, sew),
                                    vget(cur, vlenb, vs2 as int, i, sew),
                                ),
                                d as u64,
                            ),
                        )
                    }
                },
                WideSrc::Vx { scalar } => Some(
                    vstd::wrapping::i64_specs::wrapping_mul(
                        vget_i(cur, vlenb, vs2 as int, i, sew),
                        scalar,
                    ) as u64,
                ),
            }
        }
}

pub open spec fn wmul_newreg(
    v0: Seq<u8>,
    vlenb: nat,
    sew: nat,
    vd: u8,
    vs2: u8,
    vm: bool,
    src: WideSrc,
    n: nat,
) -> spec_fn(Seq<u8>, int) -> Seq<u8> {
    |cur: Seq<u8>, r: int|
        fill(
            vreg(cur, vlenb, vd + r),
            2 * sew,
            r * vlenb,
            (r * vlenb) / (2 * sew) as int,
            min_nat((((r + 1) * vlenb) / (2 * sew) as int) as nat, n) as int,
            wmul_elem(cur, v0, vlenb, sew, vd, vs2, vm, src),
        )
}

/// The operand rules of a widening multiply: SEW below 32 bits and LMUL below 8, the
/// destination group (twice as many registers) aligned, in range and clear of `v0` and of
/// the sources.
pub open spec fn wide_ok(s: HartView, vd: u8, vs2: u8, src: WideSrc) -> bool {
    let nf = spec_nf(s);
    let nfd = 2 * nf;
    &&& spec_sew(s) < 4
    &&& spec_vlmul(s.csr.vtype) != 3
    &&& (vd as nat) % nfd == 0
    &&& match src {
        WideSrc::Vv { vs1, .. } => spec_check_regs(
            vd as usize,
            nfd as usize,
            Some((vs1 as usize, nf as usize)),
            Some((vs2 as usize, nf as usize)),
            true,
        ),
        WideSrc::Vx { .. } => {
            &&& vd + nfd <= 32
            &&& vs2 + nf <= 32
            &&& (vd + nfd <= vs2 || vs2 + nf <= vd)
            &&& vd != 0
        },
    }
}

/// `vwmulu.vv`, `vwmacc.vv`, `vwmul.vx`: products of SEW elements written at 2·SEW, one
/// destination register after the other; operand-rule violations are an error.
pub open spec fn spec_wide_mul(s: HartView, vd: u8, vs2: u8, vm: bool, src: WideSrc) -> (HartView, Result<(), StateError>) {
    let vlenb = s.cfg.vlenb as nat;
    let sew = spec_sew(s);
    let nf = spec_nf(s);
    if !wide_ok(s, vd, vs2, src) {
        (s, Err(StateError::Unmapped(0)))
    } else {
        let n = n_for(s.csr.vl, nf, vlenb, sew);
        (
            HartView {
                vr: regs_upto(s.vr, vlenb, vd as int, 2 * nf, wmul_newreg(spec_v0(s), vlenb, sew, vd, vs2, vm, src, n)),
                pc: pc_plus4(s),
                ..s
            },
            Ok(()),
        )
    }
}

impl Hart {
    pub fn exec_wide_mul(&mut self, vd: u8, vs2: u8, vm: bool, src: WideSrc) -> (r: Result<(), StateError>)
        requires
            old(self).wf(),
            old(self).cfg.vlenb > 0,
            vd < 32,
            vs2 < 32,
            src matches WideSrc::Vv { vs1, .. } ==> vs1 < 32,
        ensures
            final(self).wf(),
            (final(self)@, r) == spec_wide_mul(old(self)@, vd, vs2, vm, src),
    {
        let ghost s0 = self@;
        let c = self.vctx();
        let sew = c.sew_bytes;
        let nf = c.nf;
        if sew >= 4 || c.vlmul == 3 {
            return Err(StateError::Unmapped(0));
        }
        let nfd = nf * 2;
        if vd as usize % nfd != 0 {
            return Err(StateError::Unmapped(0));
        }
        match src {
            WideSrc::Vv { vs1, .. } => {
                let chk = check_regs(vd as usize, nfd, Some((vs1 as usize, nf)), Some((vs2 as usize, nf)), true);
                if chk.is_err() {
                    return Err(StateError::Unmapped(0));
                }
            },
            WideSrc::Vx { .. } => {
                if vd as usize + nfd > 32 || vs2 as usize + nf > 32 {
                    return Err(StateError::Unmapped(0));
                }
                if !(vd as usize + nfd <= vs2 as usize || vs2 as usize + nf <= vd as usize) || vd == 0 {
                    return Err(StateError::Unmapped(0));
                }
            },
        }
        let vlenb = c.vlenb;
        let db = sew * 2;
        proof {
            assert(nf * vlenb <= 8 * 1024) by (nonlinear_arith)
                requires
                    nf <= 8,
                    vlenb <= 1024,
            ;
        }
        let total = (nf * vlenb) / sew;
        let n: usize = if (c.vl as usize) < total {
            c.vl as usize
        } else {
            total
        };
        proof {
            assert(n * sew <= nf * vlenb) by (nonlinear_arith)
                requires
                    n <= (nf * vlenb) / sew as int,
                    sew >= 1,
            ;
        }
        let v0 = self.v0_copy();
        let ghost newreg = wmul_newreg(spec_v0(s0), vlenb as nat, sew as nat, vd, vs2, vm, src, n as nat);
        let dsew = sew_of_bytes(db);
        let mut r: usize = 0;
        while r < nfd
            invariant
                r <= nfd,
                nfd == 2 * nf,
                nf <= 8,
                vd + nfd <= 32,
                vs2 + nf <= 32,
                src matches WideSrc::Vv { vs1, .. } ==> vs1 + nf <= 32,
                self.wf(),
                self@ == (HartView { vr: self@.vr, ..s0 }),
                vlenb == s0.cfg.vlenb,
                vlenb % 8 == 0,
                vlenb <= 1024,
                sew == spec_sew(s0),
                sew == sew_bytes_of(c.sew),
                sew < 4,
                db == 2 * sew,
                db == sew_bytes_of(dsew),
                n * sew <= nf * vlenb,
                n == n_for(s0.csr.vl, nf as nat, vlenb as nat, sew as nat),
                v0@ == spec_v0(s0),
                newreg == wmul_newreg(spec_v0(s0), vlenb as nat, sew as nat, vd, vs2, vm, src, n as nat),
                self.vr@ == regs_upto(s0.vr, vlenb as nat, vd as int, r as nat, newreg),
            decreases nfd - r,
        {
            let ghost cur = self.vr@;
            proof {
                assert((vd + r) * vlenb + vlenb <= 32 * vlenb && (r + 1) * vlenb <= 16 * 1024
                    && r * vlenb <= 16 * 1024) by (nonlinear_arith)
                    requires
                        vd + r < 32,
                        r < 16,
                        vlenb <= 1024,
                ;
            }
            let mut dst = copy_range(&self.vr, (vd as usize + r) * vlenb, vlenb);
            let start = (r * vlenb) / db;
            let end0 = ((r + 1) * vlenb) / db;
            let end = if end0 < n {
                end0
            } else {
                n
            };
            let ghost f = wmul_elem(cur, spec_v0(s0), vlenb as nat, sew as nat, vd, vs2, vm, src);
            let mut i: usize = start;
            while i < end
                invariant
                    start <= i,
                    i <= end || i == start,
                    self.vr@.len() == 32 * vlenb,
                    vlenb % 8 == 0,
                    vlenb <= 1024,
                    start == (r * vlenb) / db as int,
                    end <= end0,
                    end <= n,
                    end0 == ((r + 1) * vlenb) / db as int,
                    r < nfd,
                    nfd == 2 * nf,
                    nf <= 8,
                    vd + nfd <= 32,
                    vs2 + nf <= 32,
                    src matches WideSrc::Vv { vs1, .. } ==> vs1 + nf <= 32,
                    self.vr@ == cur,
                    sew == sew_bytes_of(c.sew),
                    sew < 4,
                    db == 2 * sew,
                    db == sew_bytes_of(dsew),
                    n * sew <= nf * vlenb,
                    v0@ == spec_v0(s0),
                    dst@.len() == vlenb,
                    f == wmul_elem(cur, spec_v0(s0), vlenb as nat, sew as nat, vd, vs2, vm, src),
                    dst@ == fill(vreg(cur, vlenb as nat, vd + r), db as nat, r * vlenb, start as int, i as int, f),
                decreases end - i,
            {
                proof {
                    lemma_elem_in_reg(r as nat, vlenb as nat, db as nat, i as nat);
                    lemma_group_fits(vs2 as nat, nf as nat, vlenb as nat, n as nat, sew as nat, i as nat);
                    assert(i * db == 2 * (i * sew)) by (nonlinear_arith)
                        requires
                            db == 2 * sew,
                    ;
                    assert(vd * vlenb + i * db + db <= 32 * vlenb) by (nonlinear_arith)
                        requires
                            r * vlenb <= i * db,
                            i * db + db <= r * vlenb + vlenb,
                            vd + r < 32,
                    ;
                    assert(vd * vlenb <= 32 * 1024 && vs2 * vlenb <= 32 * 1024) by (nonlinear_arith)
                        requires
                            vd < 32,
                            vs2 < 32,
                            vlenb <= 1024,
                    ;
                    if let WideSrc::Vv { vs1, .. } = src {
                        lemma_group_fits(vs1 as nat, nf as nat, vlenb as nat, n as nat, sew as nat, i as nat);
                        assert(vs1 * vlenb <= 32 * 1024) by (nonlinear_arith)
                            requires
                                vs1 < 32,
                                vlenb <= 1024,
                        ;
                    }
                }
                if vm || mask_bit(v0.as_slice(), i) {
                    let b = c.sew.read_i(self.vr.as_slice(), vs2 as usize * vlenb + i * sew);
                    let v: u64 = match src {
                        WideSrc::Vv { vs1, signed, accumulate } => {
                            let d: i64 = if accumulate {
                                dsew.read_i(self.vr.as_slice(), vd as usize * vlenb + i * db)
                            } else {
                                0
                            };
                            if signed {
                                let a = c.sew.read_i(self.vr.as_slice(), vs1 as usize * vlenb + i * sew);
                                let p = a.wrapping_mul(b).wrapping_add(d);
                                #[verifier::truncate] (p as u64)
                            } else {
                                let ua = c.sew.read_u(self.vr.as_slice(), vs1 as usize * vlenb + i * sew);
                                let ub = c.sew.read_u(self.vr.as_slice(), vs2 as usize * vlenb + i * sew);
                                ua.wrapping_mul(ub).wrapping_add(#[verifier::truncate] (d as u64))
                            }
                        },
                        WideSrc::Vx { scalar } => {
                            let p = b.wrapping_mul(scalar);
                            #[verifier::truncate] (p as u64)
                        },
                    };
                    let doff = i * db - r * vlenb;
                    proof {
                        lemma_store_le_len(dst@, doff as int, db as nat, v as nat);
                    }
                    dsew.write(&mut dst, doff, v);
                }
                i = i + 1;
            }
            proof {
                if end < start {
                    assert(dst@ == fill(vreg(cur, vlenb as nat, vd + r), db as nat, r * vlenb, start as int, end as int, f));
                }
                assert(dst@ == newreg(cur, r as int));
            }
            write_back(&mut self.vr, (vd as usize + r) * vlenb, &dst);
            r = r + 1;
        }
        self.pc = self.pc.wrapping_add(4);
        Ok(())
    }
}


// ---------------------------------------------------------------------------
// Slides
// ---------------------------------------------------------------------------
#[derive(Clone, Copy, Debug)]
pub enum SlideKind {
    /// `vslidedown`: element `i` takes `vs2[i + offset]`.
    Down { offset: usize },
    /// `vslideup`: element `i` takes `vs2[i - offset]`, from `vstart`; below `offset` the
    /// destination is kept when `vstart < offset`.
    Up { offset: usize },
    /// `vslide1down.vx`: element `i` takes `vs2[i + 1]`, the last one the scalar.
    Down1 { scalar: u32 },
}

/// The first element a slide touches.
pub open spec fn slide_lo(kind: SlideKind, vstart: u32) -> int {
    match kind {
        SlideKind::Up { .. } => vstart as int,
        _ => 0,
    }
}

/// Whether element `i` is left alone (masked off, or below the offset of a slide-up).
pub open spec fn slide_skips(kind: SlideKind, v0: Seq<u8>, masked: bool, vstart: u32, i: int) -> bool {
    (masked && !spec_mask_bit(v0, i)) || (kind matches SlideKind::Up { offset } && vstart < offset
        && i < offset)
}

/// The source element index of element `i`, when it reads one.
pub open spec fn slide_src(kind: SlideKind, vl: u32, i: int) -> Option<int> {
    match kind {
        SlideKind::Down { offset } => Some(i + offset),
        SlideKind::Up { offset } => Some(i - offset),
        SlideKind::Down1 { .. } => if i == vl - 1 {
            None
        } else {
            Some(i + 1)
        },
    }
}

pub open spec fn slide_elem(
    vr: Seq<u8>,
    v0: Seq<u8>,
    vlenb: nat,
    sew: nat,
    rs2: u8,
    vlmax: u32,
    vl: u32,
    vstart: u32,
    masked: bool,
    kind: SlideKind,
) -> spec_fn(int) -> Option<u64> {
    |i: int|
        if slide_skips(kind, v0, masked, vstart, i) {
            None
        } else {
            match slide_src(kind, vl, i) {
                Some(j) => Some(
                    if j < vlmax {
                        vget(vr, vlenb, rs2 as int, j, sew)
                    } else {
                        0
                    },
                ),
                None => Some(
                    match kind {
                        SlideKind::Down1 { scalar } => (scalar as int % pow256(sew) as int) as u64,
                        _ => 0,
                    },
                ),
            }
        }
}

/// Registers a slide works on: the group, cut at `v31`, at least one register.
pub open spec fn slide_nf(s: HartView, rd: u8, rs2: u8) -> nat {
    let m = min_nat(min_nat(spec_nf(s), (32 - rd) as nat), (32 - rs2) as nat);
    if m < 1 {
        1
    } else {
        m
    }
}

/// Element `i`'s destination and (in-range) source lie inside the `nfc` registers the slide
/// works on.
pub open spec fn slide_access_ok(s: HartView, rd: u8, rs2: u8, masked: bool, kind: SlideKind, i: int) -> bool {
    let sew = spec_sew(s);
    let limit = slide_nf(s, rd, rs2) * s.cfg.vlenb;
    let src_ok = match slide_src(kind, s.csr.vl, i) {
        Some(j) => j < spec_calculate_vlmax(s.cfg.vlenb, s.csr.vtype) ==> j * sew + sew <= limit,
        None => true,
    };
    slide_skips(kind, spec_v0(s), masked, s.csr.vstart, i) || (i * sew + sew <= limit && src_ok)
}

/// No element the slide touches falls outside the registers it works on.
pub open spec fn slide_fits(s: HartView, rd: u8, rs2: u8, masked: bool, kind: SlideKind) -> bool {
    forall|i: int|
        slide_lo(kind, s.csr.vstart) <= i < spec_n(s) ==> #[trigger] slide_access_ok(
            s,
            rd,
            rs2,
            masked,
            kind,
            i,
        )
}

/// A slide: the destination group is rebuilt from the old register file; a slide-up onto
/// its own source is an error.
pub open spec fn spec_slide(s: HartView, rd: u8, rs2: u8, masked: bool, kind: SlideKind) -> (HartView, Result<(), StateError>) {
    let vlenb = s.cfg.vlenb as nat;
    if kind is Up && rd == rs2 {
        (s, Err(StateError::Unmapped(0)))
    } else {
        let group = s.vr.subrange(rd * vlenb, rd * vlenb + slide_nf(s, rd, rs2) * vlenb);
        let f = slide_elem(
            s.vr,
            spec_v0(s),
            vlenb,
            spec_sew(s),
            rs2,
            spec_calculate_vlmax(s.cfg.vlenb, s.csr.vtype),
            s.csr.vl,
            s.csr.vstart,
            masked,
            kind,
        );
        (
            HartView {
                vr: splice(s.vr, rd * vlenb, fill(group, spec_sew(s), 0, slide_lo(kind, s.csr.vstart), spec_n(s) as int, f)),
                pc: pc_plus4(s),
                ..s
            },
            Ok(()),
        )
    }
}

/// The low SEW bytes of a scalar.
fn scalar_at_sew(x: u32, sew: usize) -> (r: u64)
    requires
        sew == 1 || sew == 2 || sew == 4 || sew == 8,
    ensures
        r == (x as int % pow256(sew as nat) as int) as u64,
{
    proof {
        reveal_with_fuel(pow256, 9);
    }
    let w = x as u64;
    if sew == 1 {
        let r = w & 0xff;
        assert(r == w % 0x100) by {
        crate::bits::lemma_u64_fields(w);
    }
        r
    } else if sew == 2 {
        let r = w & 0xffff;
        assert(r == w % 0x1_0000) by {
        crate::bits::lemma_u64_fields(w);
    }
        r
    } else if sew == 4 {
        let r = w & 0xffff_ffff;
        assert(r == w % 0x1_0000_0000) by {
        crate::bits::lemma_u64_fields(w);
    }
        r
    } else {
        assert(pow256(8) == 0x1_0000_0000_0000_0000);
        assert(w as int % 0x1_0000_0000_0000_0000 == w as int);
        w
    }
}

impl Hart {
    pub fn exec_slide(&mut self, rd: u8, rs2: u8, masked: bool, kind: SlideKind) -> (r: Result<(), StateError>)
        requires
            old(self).wf(),
            old(self).cfg.vlenb > 0,
            rd < 32,
            rs2 < 32,
            slide_fits(old(self)@, rd, rs2, masked, kind),
        ensures
            final(self).wf(),
            (final(self)@, r) == spec_slide(old(self)@, rd, rs2, masked, kind),
    {
        let ghost s0 = self@;
        if let SlideKind::Up { .. } = kind {
            if rd == rs2 {
                return Err(StateError::Unmapped(0));
            }
        }
        let c = self.vctx();
        let sew = c.sew_bytes;
        let vlenb = c.vlenb;
        let m = Self::min_usize(Self::min_usize(c.nf, 32 - rd as usize), 32 - rs2 as usize);
        let nfc = if m < 1 {
            1
        } else {
            m
        };
        let n = c.n_elems() as usize;
        let vlmax = c.vlmax;
        let vl = c.vl;
        let vstart = self.csr.vstart;
        proof {
            assert(rd * vlenb + nfc * vlenb <= 32 * vlenb && nfc * vlenb <= 8 * 1024
                && rs2 * vlenb + nfc * vlenb <= 32 * vlenb) by (nonlinear_arith)
                requires
                    rd + nfc <= 32,
                    rs2 + nfc <= 32,
                    nfc <= 8,
                    vlenb <= 1024,
            ;
        }
        let v0 = self.v0_copy();
        let mut buf = copy_range(&self.vr, rd as usize * vlenb, nfc * vlenb);
        let lo: usize = match kind {
            SlideKind::Up { .. } => vstart as usize,
            _ => 0,
        };
        let ghost f = slide_elem(s0.vr, spec_v0(s0), vlenb as nat, sew as nat, rs2, vlmax, vl, vstart, masked, kind);
        if lo >= n {
            proof {
                assert(buf@ == fill(s0.vr.subrange(rd * vlenb, rd * vlenb + nfc * vlenb), sew as nat, 0, lo as int, n as int, f));
            }
        } else {
            let mut i: usize = lo;
            while i < n
                invariant
                    lo <= i <= n,
                    lo == slide_lo(kind, vstart),
                    n == spec_n(s0),
                    self@ == s0,
                    self.wf(),
                    vlenb == s0.cfg.vlenb,
                    vlenb <= 1024,
                    vlenb % 8 == 0,
                    sew == spec_sew(s0),
                    sew == sew_bytes_of(c.sew),
                    nfc == slide_nf(s0, rd, rs2),
                    nfc <= 8,
                    rs2 * vlenb + nfc * vlenb <= 32 * vlenb,
                    vlmax == spec_calculate_vlmax(s0.cfg.vlenb, s0.csr.vtype),
                    vl == s0.csr.vl,
                    vstart == s0.csr.vstart,
                    v0@ == spec_v0(s0),
                    buf@.len() == nfc * vlenb,
                    slide_fits(s0, rd, rs2, masked, kind),
                    f == slide_elem(s0.vr, spec_v0(s0), vlenb as nat, sew as nat, rs2, vlmax, vl, vstart, masked, kind),
                    buf@ == fill(s0.vr.subrange(rd * vlenb, rd * vlenb + nfc * vlenb), sew as nat, 0, lo as int, i as int, f),
                decreases n - i,
            {
                proof {
                    assert(slide_access_ok(s0, rd, rs2, masked, kind, i as int));
                }
                let inactive = masked && !mask_bit(v0.as_slice(), i);
                let below = match kind {
                    SlideKind::Up { offset } => (vstart as usize) < offset && i < offset,
                    _ => false,
                };
                if !(inactive || below) {
                    let src: Option<usize> = match kind {
                        SlideKind::Down { offset } => if i <= usize::MAX - offset {
                            Some(i + offset)
                        } else {
                            None
                        },
                        SlideKind::Up { offset } => Some(i - offset),
                        SlideKind::Down1 { .. } => if i as u32 == vl.wrapping_sub(1) {
                            None
                        } else {
                            Some(i + 1)
                        },
                    };
                    let val: u64 = match src {
                        Some(j) => if j < vlmax as usize {
                            proof {
                                assert(j * sew + sew <= nfc * vlenb);
                                assert(j * sew >= 0) by (nonlinear_arith);
                            }
                            c.sew.read_u(self.vr.as_slice(), rs2 as usize * vlenb + j * sew)
                        } else {
                            0
                        },
                        None => match kind {
                            SlideKind::Down1 { scalar } => scalar_at_sew(scalar, sew),
                            _ => 0,
                        },
                    };
                    proof {
                        assert(i * sew >= 0) by (nonlinear_arith);
                        lemma_store_le_len(buf@, (i * sew) as int, sew as nat, val as nat);
                        if let SlideKind::Down1 { .. } = kind {
                            assert(vl >= 1);
                            assert((i as u32 == vl.wrapping_sub(1)) == (i == vl - 1));
                        }
                        assert(f(i as int) == Some(val));
                    }
                    c.sew.write(&mut buf, i * sew, val);
                }
                i = i + 1;
            }
        }
        write_back(&mut self.vr, rd as usize * vlenb, &buf);
        self.pc = self.pc.wrapping_add(4);
        Ok(())
    }
}

} // verus!
