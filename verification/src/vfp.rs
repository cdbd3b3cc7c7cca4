//! Vector loads and stores (the LOAD-FP and STORE-FP opcodes).
//!
//! Memory is accessed byte by byte (word by word for the 32-bit element forms) in program
//! order; an access to an unmapped address stops the instruction with that address,
//! leaving whatever was already written in place.

use vstd::prelude::*;
use crate::bus::{byte_mapped, load_le, mapped, store_le, StateError};
use crate::hart::{pc_plus4, reg, spec_trap, Hart, HartView};
use crate::inst::{DecodedInst, Inst, LoadFpInst, StoreFpInst};
use crate::vcontext::{nf_from_vlmul, spec_mask_bit, spec_nf_from_vlmul, spec_vlmul, mask_bit};
use crate::vexec::{copy_range, min_nat, spec_v0, splice, vreg, write_back};

verus! {

/// An address computed in 32-bit wrapping arithmetic.
pub open spec fn wrap32(x: int) -> u32 {
    (x % 0x1_0000_0000) as u32
}

pub open spec fn byte_ok(s: HartView, a: int) -> bool {
    byte_mapped(s.base, s.mem.len(), a)
}

pub open spec fn mem_at(s: HartView, a: int) -> u8 {
    s.mem[a - s.base]
}

/// The `k` bytes at `a, a + 1, ...` (no wrap-around), or the first address among them that
/// is not mapped.
pub open spec fn load_bytes(s: HartView, a: int, k: nat) -> Result<Seq<u8>, int>
    decreases k,
{
    if k == 0 {
        Ok(Seq::empty())
    } else {
        match load_bytes(s, a, (k - 1) as nat) {
            Err(e) => Err(e),
            Ok(b) => if byte_ok(s, a + k - 1) {
                Ok(b.push(mem_at(s, a + k - 1)))
            } else {
                Err(a + k - 1)
            },
        }
    }
}

/// The group size of an integer LMUL (one register otherwise).
pub open spec fn ld_nf(s: HartView) -> nat {
    spec_nf_from_vlmul(spec_vlmul(s.csr.vtype)) as nat
}

// ---------------------------------------------------------------------------
// Whole-register loads
// ---------------------------------------------------------------------------
/// `vl1re16.v`: one register from `rs1`, ignoring `vl` and `vtype`.
pub open spec fn spec_vl1r(s: HartView, vd: u8, rs1: u8) -> (HartView, Result<(), StateError>) {
    let vlenb = s.cfg.vlenb as nat;
    match load_bytes(s, reg(s, rs1) as int, vlenb) {
        Ok(b) => (HartView { vr: splice(s.vr, vd * vlenb, b), pc: pc_plus4(s), ..s }, Ok(())),
        Err(e) => (s, Err(StateError::Unmapped(e as u32))),
    }
}

/// `vl2re16.v` / `vl2re32.v`: two registers from `rs1`, the first written before the
/// second is read.
pub open spec fn spec_vl2r(s: HartView, vd: u8, rs1: u8) -> (HartView, Result<(), StateError>) {
    let vlenb = s.cfg.vlenb as nat;
    let a = reg(s, rs1) as int;
    match load_bytes(s, a, vlenb) {
        Err(e) => (s, Err(StateError::Unmapped(e as u32))),
        Ok(b0) => {
            let s1 = HartView { vr: splice(s.vr, vd * vlenb, b0), ..s };
            match load_bytes(s, a + vlenb, vlenb) {
                Err(e) => (s1, Err(StateError::Unmapped(e as u32))),
                Ok(b1) => (
                    HartView { vr: splice(s1.vr, (vd + 1) * vlenb, b1), pc: pc_plus4(s), ..s },
                    Ok(()),
                ),
            }
        },
    }
}

// ---------------------------------------------------------------------------
// Segment load
// ---------------------------------------------------------------------------
/// Field `f` of segment `i` of `vlseg4e8.v` at `base`.
pub open spec fn seg_addr(base: u32, i: int, f: int) -> u32 {
    wrap32(base + 4 * i + f)
}

/// The four-register group after segment `i` was loaded into byte `i` of each register.
pub open spec fn seg_elem(s: HartView, g: Seq<u8>, base: u32, i: int) -> Result<Seq<u8>, u32> {
    let vlenb = s.cfg.vlenb as int;
    let a0 = seg_addr(base, i, 0);
    let a1 = seg_addr(base, i, 1);
    let a2 = seg_addr(base, i, 2);
    let a3 = seg_addr(base, i, 3);
    if !byte_ok(s, a0 as int) {
        Err(a0)
    } else if !byte_ok(s, a1 as int) {
        Err(a1)
    } else if !byte_ok(s, a2 as int) {
        Err(a2)
    } else if !byte_ok(s, a3 as int) {
        Err(a3)
    } else {
        Ok(
            g.update(i, mem_at(s, a0 as int)).update(vlenb + i, mem_at(s, a1 as int)).update(
                2 * vlenb + i,
                mem_at(s, a2 as int),
            ).update(3 * vlenb + i, mem_at(s, a3 as int)),
        )
    }
}

/// The group after segments `0 .. k` (the active ones), or the first unmapped address.
pub open spec fn seg_upto(s: HartView, g0: Seq<u8>, base: u32, vm: bool, k: nat) -> Result<Seq<u8>, u32>
    decreases k,
{
    if k == 0 {
        Ok(g0)
    } else {
        match seg_upto(s, g0, base, vm, (k - 1) as nat) {
            Err(e) => Err(e),
            Ok(g) => if !vm && !spec_mask_bit(spec_v0(s), k - 1) {
                Ok(g)
            } else {
                seg_elem(s, g, base, k - 1)
            },
        }
    }
}

/// `vlseg4e8.v`: segment `i` (four bytes at `rs1 + 4i`) goes to byte `i` of `vd .. vd + 3`,
/// for the active `i < min(vl, VLENB)`; nothing is written when an access fails.
pub open spec fn spec_vlseg4(s: HartView, vd: u8, rs1: u8, vm: bool) -> (HartView, Result<(), StateError>) {
    let vlenb = s.cfg.vlenb as nat;
    let g0 = s.vr.subrange(vd * vlenb, vd * vlenb + 4 * vlenb);
    let n = min_nat(s.csr.vl as nat, vlenb);
    match seg_upto(s, g0, reg(s, rs1), vm, n) {
        Ok(g) => (HartView { vr: splice(s.vr, vd * vlenb, g), pc: pc_plus4(s), ..s }, Ok(())),
        Err(e) => (s, Err(StateError::Unmapped(e))),
    }
}

// ---------------------------------------------------------------------------
// Strided load
// ---------------------------------------------------------------------------
/// Address of element `i` of `vlse32.v`.
pub open spec fn lse_addr(base: u32, stride: u32, i: int) -> u32 {
    wrap32(base + wrap32(i * stride))
}

/// Register `r` of the destination after its elements (from `lo` up to `hi`) were loaded,
/// or the first address whose word is not mapped.
pub open spec fn lse_fill(s: HartView, chunk: Seq<u8>, r: int, base: u32, stride: u32, vm: bool, lo: int, hi: int) -> Result<Seq<u8>, u32>
    decreases hi - lo,
{
    if hi <= lo {
        Ok(chunk)
    } else {
        match lse_fill(s, chunk, r, base, stride, vm, lo, hi - 1) {
            Err(e) => Err(e),
            Ok(c) => {
                let i = hi - 1;
                if !vm && !spec_mask_bit(spec_v0(s), i) {
                    Ok(c)
                } else {
                    let a = lse_addr(base, stride, i);
                    if mapped(s.base, s.mem.len(), a, 4) {
                        Ok(store_le(c, i * 4 - r * s.cfg.vlenb, 4, load_le(s.mem, a - s.base, 4)))
                    } else {
                        Err(a)
                    }
                }
            },
        }
    }
}

/// The register file after destination registers `0 .. k` of `vlse32.v` were loaded; on a
/// failed access, the file as it then stood and the address.
pub open spec fn lse_upto(s: HartView, vd: u8, base: u32, stride: u32, vm: bool, n: nat, k: nat) -> Result<Seq<u8>, (Seq<u8>, u32)>
    decreases k,
{
    if k == 0 {
        Ok(s.vr)
    } else {
        match lse_upto(s, vd, base, stride, vm, n, (k - 1) as nat) {
            Err(e) => Err(e),
            Ok(cur) => {
                let r = k - 1;
                let vlenb = s.cfg.vlenb as int;
                let lo = (r * vlenb) / 4;
                let hi = min_nat((((r + 1) * vlenb) / 4) as nat, n) as int;
                match lse_fill(s, vreg(cur, vlenb as nat, vd + r), r, base, stride, vm, lo, hi) {
                    Ok(c) => Ok(splice(cur, (vd + r) * vlenb, c)),
                    Err(a) => Err((cur, a)),
                }
            },
        }
    }
}

/// `vlse32.v`: element `i` is the word at `rs1 + i · rs2` (32-bit wrapping), for the active
/// `i` below `vl`; a group past `v31` is an error.
pub open spec fn spec_vlse32(s: HartView, vd: u8, rs1: u8, rs2: u8, vm: bool) -> (HartView, Result<(), StateError>) {
    let vlenb = s.cfg.vlenb as nat;
    let nf = ld_nf(s);
    if vd + nf > 32 {
        (s, Err(StateError::Unmapped(0)))
    } else {
        let n = min_nat(s.csr.vl as nat, (nf * vlenb) / 4);
        match lse_upto(s, vd, reg(s, rs1), reg(s, rs2), vm, n, nf) {
            Ok(v) => (HartView { vr: v, pc: pc_plus4(s), ..s }, Ok(())),
            Err((v, a)) => (HartView { vr: v, ..s }, Err(StateError::Unmapped(a))),
        }
    }
}

// ---------------------------------------------------------------------------
// Unit-stride byte load
// ---------------------------------------------------------------------------
/// Registers `vle8.v` writes: enough to hold its elements.
pub open spec fn vle8_regs(s: HartView) -> nat {
    let vlenb = s.cfg.vlenb as nat;
    let n = min_nat(s.csr.vl as nat, ld_nf(s) * vlenb);
    ((n + vlenb - 1) / vlenb as int) as nat
}

/// Bytes `0 .. k` of register `r`: the byte `j` comes from `rs1 + r · VLENB + j` (32-bit
/// wrapping).
pub open spec fn vle8_fill(s: HartView, chunk: Seq<u8>, base: u32, start: int, k: nat) -> Result<Seq<u8>, u32>
    decreases k,
{
    if k == 0 {
        Ok(chunk)
    } else {
        match vle8_fill(s, chunk, base, start, (k - 1) as nat) {
            Err(e) => Err(e),
            Ok(c) => {
                let a = wrap32(wrap32(base + start) + k - 1);
                if byte_ok(s, a as int) {
                    Ok(c.update(k - 1, mem_at(s, a as int)))
                } else {
                    Err(a)
                }
            },
        }
    }
}

pub open spec fn vle8_upto(s: HartView, vd: u8, base: u32, n: nat, k: nat) -> Result<Seq<u8>, (Seq<u8>, u32)>
    decreases k,
{
    if k == 0 {
        Ok(s.vr)
    } else {
        match vle8_upto(s, vd, base, n, (k - 1) as nat) {
            Err(e) => Err(e),
            Ok(cur) => {
                let r = k - 1;
                let vlenb = s.cfg.vlenb as int;
                let start = r * vlenb;
                let count = min_nat((n - start) as nat, vlenb as nat);
                match vle8_fill(s, vreg(cur, vlenb as nat, vd + r), base, start, count) {
                    Ok(c) => Ok(splice(cur, (vd + r) * vlenb, c)),
                    Err(a) => Err((cur, a)),
                }
            },
        }
    }
}

/// `vle8.v`: byte `i` of the group from `rs1 + i`, for `i` below `vl`, register by
/// register.
pub open spec fn spec_vle8(s: HartView, vd: u8, rs1: u8) -> (HartView, Result<(), StateError>) {
    let vlenb = s.cfg.vlenb as nat;
    let n = min_nat(s.csr.vl as nat, ld_nf(s) * vlenb);
    match vle8_upto(s, vd, reg(s, rs1), n, vle8_regs(s)) {
        Ok(v) => (HartView { vr: v, pc: pc_plus4(s), ..s }, Ok(())),
        Err((v, a)) => (HartView { vr: v, ..s }, Err(StateError::Unmapped(a))),
    }
}

// ---------------------------------------------------------------------------
// Stores
// ---------------------------------------------------------------------------
/// Memory after bytes `0 .. k` were stored, byte `j` taking `vr[off + j]` at `base + j`
/// (32-bit wrapping); on an unmapped address, memory as it then stood and the address.
pub open spec fn store_bytes(s: HartView, vr: Seq<u8>, off: int, base: u32, k: nat) -> Result<Seq<u8>, (Seq<u8>, u32)>
    decreases k,
{
    if k == 0 {
        Ok(s.mem)
    } else {
        match store_bytes(s, vr, off, base, (k - 1) as nat) {
            Err(e) => Err(e),
            Ok(m) => {
                let a = wrap32(base + k - 1);
                if byte_ok(s, a as int) {
                    Ok(m.update(a - s.base, vr[off + k - 1]))
                } else {
                    Err((m, a))
                }
            },
        }
    }
}

/// Memory after words `0 .. k` of `vse32.v` were stored: word `i` is the little-endian word
/// at `vr[off + 4i]`, stored at `base + 4i` (32-bit wrapping).
pub open spec fn store_words(s: HartView, vr: Seq<u8>, off: int, base: u32, k: nat) -> Result<Seq<u8>, (Seq<u8>, u32)>
    decreases k,
{
    if k == 0 {
        Ok(s.mem)
    } else {
        match store_words(s, vr, off, base, (k - 1) as nat) {
            Err(e) => Err(e),
            Ok(m) => {
                let i = k - 1;
                let a = wrap32(base + wrap32(i * 4));
                if mapped(s.base, s.mem.len(), a, 4) {
                    Ok(store_le(m, a - s.base, 4, load_le(vr, off + i * 4, 4)))
                } else {
                    Err((m, a))
                }
            },
        }
    }
}

pub open spec fn finish_store(s: HartView, r: Result<Seq<u8>, (Seq<u8>, u32)>) -> (HartView, Result<(), StateError>) {
    match r {
        Ok(m) => (HartView { mem: m, pc: pc_plus4(s), ..s }, Ok(())),
        Err((m, a)) => (HartView { mem: m, ..s }, Err(StateError::Unmapped(a))),
    }
}

/// `vs1r.v`: register `vs3` to `rs1 ..`; with `vstart != 0` an illegal instruction.
pub open spec fn spec_vs1r(s: HartView, vs3: u8, rs1: u8) -> (HartView, Result<(), StateError>) {
    if s.csr.vstart != 0 {
        (spec_trap(s), Ok(()))
    } else {
        finish_store(s, store_bytes(s, s.vr, vs3 * s.cfg.vlenb, reg(s, rs1), s.cfg.vlenb as nat))
    }
}

/// Elements `vse8.v` stores.
pub open spec fn vse8_n(s: HartView) -> nat {
    min_nat(s.csr.vl as nat, ld_nf(s) * (s.cfg.vlenb as nat))
}

/// Elements `vse32.v` stores.
pub open spec fn vse32_n(s: HartView) -> nat {
    min_nat(s.csr.vl as nat, (ld_nf(s) * (s.cfg.vlenb as nat)) / 4)
}

/// `vse8.v`: bytes `0 .. min(vl, group)` of the group at `vs3` to `rs1 ..`.
pub open spec fn spec_vse8(s: HartView, vs3: u8, rs1: u8) -> (HartView, Result<(), StateError>) {
    finish_store(s, store_bytes(s, s.vr, vs3 * s.cfg.vlenb, reg(s, rs1), vse8_n(s)))
}

/// `vse32.v`: words `0 .. min(vl, group / 4)` of the group at `vs3` to `rs1 + 4i`.
pub open spec fn spec_vse32(s: HartView, vs3: u8, rs1: u8) -> (HartView, Result<(), StateError>) {
    finish_store(s, store_words(s, s.vr, vs3 * s.cfg.vlenb, reg(s, rs1), vse32_n(s)))
}

impl Hart {
    /// Reads `k` bytes from `a` on (no wrap-around).
    fn load_run(&self, a: u64, k: usize) -> (r: Result<Vec<u8>, StateError>)
        requires
            self.wf(),
            a < 0x2_0000_0000,
            k <= 0x1_0000,
        ensures
            load_bytes(self@, a as int, k as nat) is Ok <==> r is Ok,
            r matches Ok(v) ==> load_bytes(self@, a as int, k as nat) == Ok::<Seq<u8>, int>(v@),
            r matches Err(e) ==> load_bytes(self@, a as int, k as nat) matches Err(x) && e
                == StateError::Unmapped(x as u32),
    {
        let mut buf: Vec<u8> = Vec::new();
        let mut j: usize = 0;
        while j < k
            invariant
                j <= k,
                k <= 0x1_0000,
                a < 0x2_0000_0000,
                self.wf(),
                load_bytes(self@, a as int, j as nat) == Ok::<Seq<u8>, int>(buf@),
            decreases k - j,
        {
            let addr = a + j as u64;
            match self.bus.read_u8(addr) {
                Ok(b) => {
                    buf.push(b);
                },
                Err(e) => {
                    proof {
                        assert(load_bytes(self@, a as int, (j + 1) as nat) == Err::<Seq<u8>, int>(
                            a + j,
                        ));
                        lemma_load_bytes_err(self@, a as int, (j + 1) as nat, k as nat);
                    }
                    return Err(e);
                },
            }
            j = j + 1;
        }
        Ok(buf)
    }
}

/// A failed prefix makes the longer load fail at the same address.
proof fn lemma_load_bytes_err(s: HartView, a: int, j: nat, k: nat)
    requires
        j <= k,
        load_bytes(s, a, j) is Err,
    ensures
        load_bytes(s, a, k) == load_bytes(s, a, j),
    decreases k - j,
{
    if k > j {
        lemma_load_bytes_err(s, a, j, (k - 1) as nat);
    }
}

impl Hart {
    pub fn exec_vl1r(&mut self, vd: u8, rs1: u8) -> (r: Result<(), StateError>)
        requires
            old(self).wf(),
            old(self).cfg.vlenb > 0,
            vd < 32,
            rs1 < 32,
        ensures
            final(self).wf(),
            (final(self)@, r) == spec_vl1r(old(self)@, vd, rs1),
    {
        let vlenb = self.cfg.vlenb as usize;
        let a = self.get(rs1) as u64;
        match self.load_run(a, vlenb) {
            Err(e) => Err(e),
            Ok(b) => {
                proof {
                    assert(vd * vlenb + vlenb <= 32 * vlenb) by (nonlinear_arith)
                        requires
                            vd < 32,
                    ;
                    lemma_load_bytes_len(self@, a as int, vlenb as nat);
                }
                write_back(&mut self.vr, vd as usize * vlenb, &b);
                self.pc = self.pc.wrapping_add(4);
                Ok(())
            },
        }
    }

    pub fn exec_vl2r(&mut self, vd: u8, rs1: u8) -> (r: Result<(), StateError>)
        requires
            old(self).wf(),
            old(self).cfg.vlenb > 0,
            vd < 31,
            rs1 < 32,
        ensures
            final(self).wf(),
            (final(self)@, r) == spec_vl2r(old(self)@, vd, rs1),
    {
        let ghost s0 = self@;
        let vlenb = self.cfg.vlenb as usize;
        let a = self.get(rs1) as u64;
        proof {
            assert(vd * vlenb + vlenb <= 32 * vlenb && (vd + 1) * vlenb + vlenb <= 32 * vlenb
                && (vd + 1) * vlenb == vd * vlenb + vlenb) by (nonlinear_arith)
                requires
                    vd < 31,
            ;
        }
        match self.load_run(a, vlenb) {
            Err(e) => Err(e),
            Ok(b0) => {
                proof {
                    lemma_load_bytes_len(s0, a as int, vlenb as nat);
                }
                write_back(&mut self.vr, vd as usize * vlenb, &b0);
                match self.load_run(a + vlenb as u64, vlenb) {
                    Err(e) => {
                        proof {
                            lemma_load_bytes_frame(s0, self@, (a + vlenb) as int, vlenb as nat);
                        }
                        Err(e)
                    },
                    Ok(b1) => {
                        proof {
                            lemma_load_bytes_frame(s0, self@, (a + vlenb) as int, vlenb as nat);
                            lemma_load_bytes_len(s0, (a + vlenb) as int, vlenb as nat);
                        }
                        write_back(&mut self.vr, (vd as usize + 1) * vlenb, &b1);
                        self.pc = self.pc.wrapping_add(4);
                        Ok(())
                    },
                }
            },
        }
    }
}

/// A successful load has the requested length.
proof fn lemma_load_bytes_len(s: HartView, a: int, k: nat)
    requires
        load_bytes(s, a, k) is Ok,
    ensures
        load_bytes(s, a, k)->Ok_0.len() == k,
    decreases k,
{
    if k > 0 {
        lemma_load_bytes_len(s, a, (k - 1) as nat);
    }
}

/// Loads depend on memory only.
proof fn lemma_load_bytes_frame(s: HartView, t: HartView, a: int, k: nat)
    requires
        s.base == t.base,
        s.mem == t.mem,
    ensures
        load_bytes(s, a, k) == load_bytes(t, a, k),
    decreases k,
{
    if k > 0 {
        lemma_load_bytes_frame(s, t, a, (k - 1) as nat);
    }
}


proof fn lemma_seg_err(s: HartView, g0: Seq<u8>, base: u32, vm: bool, j: nat, k: nat)
    requires
        j <= k,
        seg_upto(s, g0, base, vm, j) is Err,
    ensures
        seg_upto(s, g0, base, vm, k) == seg_upto(s, g0, base, vm, j),
    decreases k - j,
{
    if k > j {
        lemma_seg_err(s, g0, base, vm, j, (k - 1) as nat);
    }
}

proof fn lemma_store_bytes_err(s: HartView, vr: Seq<u8>, off: int, base: u32, j: nat, k: nat)
    requires
        j <= k,
        store_bytes(s, vr, off, base, j) is Err,
    ensures
        store_bytes(s, vr, off, base, k) == store_bytes(s, vr, off, base, j),
    decreases k - j,
{
    if k > j {
        lemma_store_bytes_err(s, vr, off, base, j, (k - 1) as nat);
    }
}

proof fn lemma_store_words_err(s: HartView, vr: Seq<u8>, off: int, base: u32, j: nat, k: nat)
    requires
        j <= k,
        store_words(s, vr, off, base, j) is Err,
    ensures
        store_words(s, vr, off, base, k) == store_words(s, vr, off, base, j),
    decreases k - j,
{
    if k > j {
        lemma_store_words_err(s, vr, off, base, j, (k - 1) as nat);
    }
}

impl Hart {
    /// Loads segment `i` into byte `i` of the four registers held in `g`.
    fn seg_read(&self, base: u32, i: usize, g: &mut Vec<u8>) -> (r: Result<(), u32>)
        requires
            self.wf(),
            old(g)@.len() == 4 * self.cfg.vlenb,
            i < self.cfg.vlenb,
        ensures
            match seg_elem(self@, old(g)@, base, i as int) {
                Ok(x) => r is Ok && final(g)@ == x,
                Err(e) => r == Err::<(), u32>(e),
            },
    {
        let vlenb = self.cfg.vlenb as usize;
        let k = (i * 4) as u32;
        let a0 = base.wrapping_add(k);
        let a1 = base.wrapping_add(k + 1);
        let a2 = base.wrapping_add(k + 2);
        let a3 = base.wrapping_add(k + 3);
        proof {
            assert(a0 == seg_addr(base, i as int, 0));
            assert(a1 == seg_addr(base, i as int, 1));
            assert(a2 == seg_addr(base, i as int, 2));
            assert(a3 == seg_addr(base, i as int, 3));
        }
        let b0 = match self.bus.read_u8(a0 as u64) {
            Ok(b) => b,
            Err(_) => {
                return Err(a0);
            },
        };
        let b1 = match self.bus.read_u8(a1 as u64) {
            Ok(b) => b,
            Err(_) => {
                return Err(a1);
            },
        };
        let b2 = match self.bus.read_u8(a2 as u64) {
            Ok(b) => b,
            Err(_) => {
                return Err(a2);
            },
        };
        let b3 = match self.bus.read_u8(a3 as u64) {
            Ok(b) => b,
            Err(_) => {
                return Err(a3);
            },
        };
        g.set(i, b0);
        g.set(vlenb + i, b1);
        g.set(2 * vlenb + i, b2);
        g.set(3 * vlenb + i, b3);
        Ok(())
    }

    #[verifier::rlimit(40)]
    pub fn exec_vlseg4(&mut self, vd: u8, rs1: u8, vm: bool) -> (r: Result<(), StateError>)
        requires
            old(self).wf(),
            old(self).cfg.vlenb > 0,
            vd + 4 <= 32,
            rs1 < 32,
        ensures
            final(self).wf(),
            (final(self)@, r) == spec_vlseg4(old(self)@, vd, rs1, vm),
    {
        let ghost s0 = self@;
        let vlenb = self.cfg.vlenb as usize;
        let base = self.get(rs1);
        let n: usize = if (self.csr.vl as usize) < vlenb {
            self.csr.vl as usize
        } else {
            vlenb
        };
        let v0 = crate::vexec::v0_of(self);
        proof {
            assert(vd * vlenb + 4 * vlenb <= 32 * vlenb) by (nonlinear_arith)
                requires
                    vd + 4 <= 32,
            ;
        }
        let mut g = copy_range(&self.vr, vd as usize * vlenb, 4 * vlenb);
        let ghost g0 = g@;
        let mut i: usize = 0;
        while i < n
            invariant
                i <= n,
                n <= vlenb,
                vlenb == s0.cfg.vlenb,
                vlenb <= 1024,
                self@ == s0,
                s0 == old(self)@,
                self.wf(),
                base == reg(s0, rs1),
                n == min_nat(s0.csr.vl as nat, s0.cfg.vlenb as nat),
                v0@ == spec_v0(s0),
                g@.len() == 4 * vlenb,
                g0 == s0.vr.subrange(vd * vlenb, vd * vlenb + 4 * vlenb),
                seg_upto(s0, g0, base, vm, i as nat) == Ok::<Seq<u8>, u32>(g@),
            decreases n - i,
        {
            if vm || mask_bit(v0.as_slice(), i) {
                let ghost gi = g@;
                match self.seg_read(base, i, &mut g) {
                    Ok(()) => {},
                    Err(e) => {
                        proof {
                            assert(seg_upto(s0, g0, base, vm, (i + 1) as nat) == Err::<Seq<u8>, u32>(e));
                            lemma_seg_err(s0, g0, base, vm, (i + 1) as nat, n as nat);
                            assert(n == min_nat(s0.csr.vl as nat, s0.cfg.vlenb as nat));
                            assert(base == reg(s0, rs1));
                            assert(seg_upto(s0, g0, reg(s0, rs1), vm, min_nat(s0.csr.vl as nat, s0.cfg.vlenb as nat)) == Err::<Seq<u8>, u32>(e));
                        }
                        return Err(StateError::Unmapped(e));
                    },
                }
            }
            i = i + 1;
        }
        write_back(&mut self.vr, vd as usize * vlenb, &g);
        self.pc = self.pc.wrapping_add(4);
        Ok(())
    }

    /// Stores `k` bytes of `vr` from `off` to `base ..` byte by byte.
    fn store_run(&mut self, off: usize, base: u32, k: usize) -> (r: Result<(), StateError>)
        requires
            old(self).wf(),
            off + k <= old(self).vr@.len(),
        ensures
            final(self).wf(),
            final(self)@ == (HartView { mem: final(self)@.mem, ..old(self)@ }),
            match store_bytes(old(self)@, old(self)@.vr, off as int, base, k as nat) {
                Ok(m) => final(self)@.mem == m && r == Ok::<(), StateError>(()),
                Err((m, a)) => final(self)@.mem == m && r == Err::<(), StateError>(StateError::Unmapped(a)),
            },
    {
        let ghost s0 = self@;
        let mut i: usize = 0;
        while i < k
            invariant
                i <= k,
                off + k <= s0.vr.len(),
                self.wf(),
                self@ == (HartView { mem: self@.mem, ..s0 }),
                self@.mem.len() == s0.mem.len(),
                s0 == old(self)@,
                store_bytes(s0, s0.vr, off as int, base, i as nat) == Ok::<Seq<u8>, (Seq<u8>, u32)>(self@.mem),
            decreases k - i,
        {
            let a = base.wrapping_add(i as u32);
            proof {
                assert(a == wrap32(base + i));
            }
            let b = self.vr[off + i];
            let ghost m0 = self@.mem;
            match self.bus.write_u8(a, b) {
                Ok(()) => {},
                Err(e) => {
                    proof {
                        assert(self@ == (HartView { mem: self@.mem, ..s0 }));
                        assert(!byte_mapped(self.bus.base, self.bus.mem@.len(), a as int));
                        assert(self@.mem == m0);
                        assert(e == StateError::Unmapped(a));
                        assert(!byte_ok(s0, a as int));
                        assert(store_bytes(s0, s0.vr, off as int, base, (i + 1) as nat) == Err::<Seq<u8>, (Seq<u8>, u32)>((m0, a)));
                        lemma_store_bytes_err(s0, s0.vr, off as int, base, (i + 1) as nat, k as nat);
                    }
                    return Err(e);
                },
            }
            i = i + 1;
        }
        Ok(())
    }

    pub fn exec_vs1r(&mut self, vs3: u8, rs1: u8) -> (r: Result<(), StateError>)
        requires
            old(self).wf(),
            old(self).cfg.vlenb > 0,
            vs3 < 32,
            rs1 < 32,
        ensures
            final(self).wf(),
            (final(self)@, r) == spec_vs1r(old(self)@, vs3, rs1),
    {
        if self.csr.vstart != 0 {
            self.trap_illegal_instruction();
            return Ok(());
        }
        let vlenb = self.cfg.vlenb as usize;
        let base = self.get(rs1);
        proof {
            assert(vs3 * vlenb + vlenb <= 32 * vlenb) by (nonlinear_arith)
                requires
                    vs3 < 32,
            ;
        }
        let r = self.store_run(vs3 as usize * vlenb, base, vlenb);
        if r.is_ok() {
            self.pc = self.pc.wrapping_add(4);
        }
        r
    }

    pub fn exec_vse8(&mut self, vs3: u8, rs1: u8) -> (r: Result<(), StateError>)
        requires
            old(self).wf(),
            old(self).cfg.vlenb > 0,
            vs3 < 32,
            rs1 < 32,
            vs3 * old(self).cfg.vlenb + vse8_n(old(self)@) <= 32 * old(self).cfg.vlenb,
        ensures
            final(self).wf(),
            (final(self)@, r) == spec_vse8(old(self)@, vs3, rs1),
    {
        let vlenb = self.cfg.vlenb as usize;
        let vt = self.csr.vtype;
        let nf = nf_from_vlmul(vt & 7);
        proof {
            assert((vt & 7) == vt % 8) by {
        crate::bits::lemma_u32_fields(vt);
    }
            assert(nf * vlenb <= 8 * 1024) by (nonlinear_arith)
                requires
                    nf <= 8,
                    vlenb <= 1024,
            ;
            assert(vs3 * vlenb <= 32 * 1024) by (nonlinear_arith)
                requires
                    vs3 < 32,
                    vlenb <= 1024,
            ;
        }
        let total = nf * vlenb;
        let n: usize = if (self.csr.vl as usize) < total {
            self.csr.vl as usize
        } else {
            total
        };
        let base = self.get(rs1);
        let r = self.store_run(vs3 as usize * vlenb, base, n);
        if r.is_ok() {
            self.pc = self.pc.wrapping_add(4);
        }
        r
    }

    pub fn exec_vse32(&mut self, vs3: u8, rs1: u8) -> (r: Result<(), StateError>)
        requires
            old(self).wf(),
            old(self).cfg.vlenb > 0,
            vs3 < 32,
            rs1 < 32,
            vs3 * old(self).cfg.vlenb + 4 * vse32_n(old(self)@) <= 32 * old(self).cfg.vlenb,
        ensures
            final(self).wf(),
            (final(self)@, r) == spec_vse32(old(self)@, vs3, rs1),
    {
        let ghost s0 = self@;
        let vlenb = self.cfg.vlenb as usize;
        let vt = self.csr.vtype;
        let nf = nf_from_vlmul(vt & 7);
        proof {
            assert((vt & 7) == vt % 8) by {
        crate::bits::lemma_u32_fields(vt);
    }
            assert(nf * vlenb <= 8 * 1024) by (nonlinear_arith)
                requires
                    nf <= 8,
                    vlenb <= 1024,
            ;
            assert(vs3 * vlenb <= 32 * 1024) by (nonlinear_arith)
                requires
                    vs3 < 32,
                    vlenb <= 1024,
            ;
        }
        let total = (nf * vlenb) / 4;
        let n: usize = if (self.csr.vl as usize) < total {
            self.csr.vl as usize
        } else {
            total
        };
        assert(n == vse32_n(s0));
        let base = self.get(rs1);
        let off = vs3 as usize * vlenb;
        let mut i: usize = 0;
        while i < n
            invariant
                i <= n,
                n <= total,
                n == vse32_n(s0),
                total == (nf * vlenb) / 4,
                off == vs3 * vlenb,
                off + 4 * n <= 32 * vlenb,
                vlenb == s0.cfg.vlenb,
                vlenb <= 1024,
                base == reg(s0, rs1),
                self.wf(),
                self@ == (HartView { mem: self@.mem, ..s0 }),
                self@.mem.len() == s0.mem.len(),
                s0 == old(self)@,
                store_words(s0, s0.vr, off as int, base, i as nat) == Ok::<Seq<u8>, (Seq<u8>, u32)>(self@.mem),
            decreases n - i,
        {
            let w = crate::vcontext::Sew::E32.read_u(self.vr.as_slice(), off + 4 * i);
            proof {
                crate::bus::lemma_load_le_bound(s0.vr, off + 4 * i, 4);
                reveal_with_fuel(crate::bus::pow256, 5);
            }
            let a = base.wrapping_add((i as u32).wrapping_mul(4));
            proof {
                assert(a == wrap32(base + wrap32(i * 4)));
            }
            let ghost m0 = self@.mem;
            proof {
                if mapped(self.bus.base, self.bus.mem@.len(), a, 4) {
                    crate::bus::lemma_store_le_len(m0, a - self.bus.base, 4, w as nat);
                }
            }
            match self.bus.write(a, 4, w as u32) {
                Ok(()) => {},
                Err(e) => {
                    proof {
                        assert(self@.mem == m0);
                        assert(store_words(s0, s0.vr, off as int, base, (i + 1) as nat) == Err::<Seq<u8>, (Seq<u8>, u32)>((m0, a)));
                        lemma_store_words_err(s0, s0.vr, off as int, base, (i + 1) as nat, n as nat);
                    }
                    return Err(e);
                },
            }
            i = i + 1;
        }
        self.pc = self.pc.wrapping_add(4);
        Ok(())
    }
}


proof fn lemma_lse_fill_err(s: HartView, chunk: Seq<u8>, r: int, base: u32, stride: u32, vm: bool, lo: int, j: int, k: int)
    requires
        j <= k,
        lse_fill(s, chunk, r, base, stride, vm, lo, j) is Err,
    ensures
        lse_fill(s, chunk, r, base, stride, vm, lo, k) == lse_fill(s, chunk, r, base, stride, vm, lo, j),
    decreases k - j,
{
    if k > j {
        lemma_lse_fill_err(s, chunk, r, base, stride, vm, lo, j, k - 1);
    }
}

proof fn lemma_lse_upto_err(s: HartView, vd: u8, base: u32, stride: u32, vm: bool, n: nat, j: nat, k: nat)
    requires
        j <= k,
        lse_upto(s, vd, base, stride, vm, n, j) is Err,
    ensures
        lse_upto(s, vd, base, stride, vm, n, k) == lse_upto(s, vd, base, stride, vm, n, j),
    decreases k - j,
{
    if k > j {
        lemma_lse_upto_err(s, vd, base, stride, vm, n, j, (k - 1) as nat);
    }
}

proof fn lemma_vle8_fill_err(s: HartView, chunk: Seq<u8>, base: u32, start: int, j: nat, k: nat)
    requires
        j <= k,
        vle8_fill(s, chunk, base, start, j) is Err,
    ensures
        vle8_fill(s, chunk, base, start, k) == vle8_fill(s, chunk, base, start, j),
    decreases k - j,
{
    if k > j {
        lemma_vle8_fill_err(s, chunk, base, start, j, (k - 1) as nat);
    }
}

proof fn lemma_vle8_upto_err(s: HartView, vd: u8, base: u32, n: nat, j: nat, k: nat)
    requires
        j <= k,
        vle8_upto(s, vd, base, n, j) is Err,
    ensures
        vle8_upto(s, vd, base, n, k) == vle8_upto(s, vd, base, n, j),
    decreases k - j,
{
    if k > j {
        lemma_vle8_upto_err(s, vd, base, n, j, (k - 1) as nat);
    }
}

/// `base + start + j` in 32-bit wrapping arithmetic.
fn byte_addr(base: u32, start: usize, j: usize) -> (a: u32)
    requires
        start <= 0x1_0000,
        j <= 0x1_0000,
    ensures
        a == wrap32(wrap32(base + start) + j),
{
    base.wrapping_add(start as u32).wrapping_add(j as u32)
}

/// The byte loads of `vle8.v` depend on memory only.
proof fn lemma_vle8_fill_frame(s: HartView, t: HartView, chunk: Seq<u8>, base: u32, start: int, k: nat)
    requires
        s.base == t.base,
        s.mem == t.mem,
    ensures
        vle8_fill(s, chunk, base, start, k) == vle8_fill(t, chunk, base, start, k),
    decreases k,
{
    if k > 0 {
        lemma_vle8_fill_frame(s, t, chunk, base, start, (k - 1) as nat);
    }
}

proof fn lemma_elem4_in_reg(r: nat, vlenb: nat, i: nat)
    requires
        vlenb % 8 == 0,
        (r * vlenb) / 4 <= i,
        i < ((r + 1) * vlenb) / 4,
    ensures
        r * vlenb <= i * 4,
        i * 4 + 4 <= r * vlenb + vlenb,
{
    let q = vlenb / 4;
    assert(vlenb == q * 4);
    assert((r * vlenb) / 4 == r * q) by {
        assert(r * vlenb == (r * q) * 4) by (nonlinear_arith)
            requires
                vlenb == q * 4,
        ;
    }
    assert(((r + 1) * vlenb) / 4 == (r + 1) * q) by {
        assert((r + 1) * vlenb == ((r + 1) * q) * 4) by (nonlinear_arith)
            requires
                vlenb == q * 4,
        ;
    }
    assert(r * vlenb <= i * 4 && i * 4 + 4 <= r * vlenb + vlenb) by (nonlinear_arith)
        requires
            vlenb == q * 4,
            r * q <= i,
            i < (r + 1) * q,
    ;
}

impl Hart {
    #[verifier::rlimit(80)]
    #[verifier::spinoff_prover]
    pub fn exec_vlse32(&mut self, vd: u8, rs1: u8, rs2: u8, vm: bool) -> (r: Result<(), StateError>)
        requires
            old(self).wf(),
            old(self).cfg.vlenb > 0,
            vd < 32,
            rs1 < 32,
            rs2 < 32,
        ensures
            final(self).wf(),
            (final(self)@, r) == spec_vlse32(old(self)@, vd, rs1, rs2, vm),
    {
        let ghost s0 = self@;
        let vlenb = self.cfg.vlenb as usize;
        let vt = self.csr.vtype;
        let nf = nf_from_vlmul(vt & 7);
        proof {
            assert((vt & 7) == vt % 8) by {
        crate::bits::lemma_u32_fields(vt);
    }
        }
        if vd as usize + nf > 32 {
            return Err(StateError::Unmapped(0));
        }
        proof {
            assert(nf * vlenb <= 8 * 1024) by (nonlinear_arith)
                requires
                    nf <= 8,
                    vlenb <= 1024,
            ;
        }
        let total = (nf * vlenb) / 4;
        let n: usize = if (self.csr.vl as usize) < total {
            self.csr.vl as usize
        } else {
            total
        };
        let base = self.get(rs1);
        let stride = self.get(rs2);
        let v0 = crate::vexec::v0_of(self);
        let mut r: usize = 0;
        while r < nf
            invariant
                r <= nf,
                nf == ld_nf(s0),
                nf <= 8,
                vd + nf <= 32,
                n == min_nat(s0.csr.vl as nat, ((nf * vlenb) / 4) as nat),
                vlenb == s0.cfg.vlenb,
                vlenb % 8 == 0,
                vlenb <= 1024,
                base == reg(s0, rs1),
                stride == reg(s0, rs2),
                v0@ == spec_v0(s0),
                self.wf(),
                s0 == old(self)@,
                self@ == (HartView { vr: self@.vr, ..s0 }),
                lse_upto(s0, vd, base, stride, vm, n as nat, r as nat) == Ok::<Seq<u8>, (Seq<u8>, u32)>(self@.vr),
            decreases nf - r,
        {
            let ghost cur = self.vr@;
            proof {
                assert((vd + r) * vlenb + vlenb <= 32 * vlenb && (r + 1) * vlenb <= 8 * 1024
                    && r * vlenb <= 8 * 1024) by (nonlinear_arith)
                    requires
                        vd + r < 32,
                        r < 8,
                        vlenb <= 1024,
                ;
            }
            let mut dst = copy_range(&self.vr, (vd as usize + r) * vlenb, vlenb);
            let lo = (r * vlenb) / 4;
            let end0 = ((r + 1) * vlenb) / 4;
            let hi = if end0 < n {
                end0
            } else {
                n
            };
            let mut i: usize = lo;
            while i < hi
                invariant
                    lo <= i,
                    i <= hi || i == lo,
                    lo == (r * vlenb) / 4,
                    hi <= end0,
                    hi <= n,
                    hi == min_nat(end0 as nat, n as nat),
                    end0 == ((r + 1) * vlenb) / 4,
                    n <= 8 * 1024,
                    r < nf,
                    nf == ld_nf(s0),
                    vd + nf <= 32,
                    n == min_nat(s0.csr.vl as nat, ((nf * vlenb) / 4) as nat),
                    base == reg(s0, rs1),
                    stride == reg(s0, rs2),
                    vlenb == s0.cfg.vlenb,
                    vlenb % 8 == 0,
                    vlenb <= 1024,
                    v0@ == spec_v0(s0),
                    self.wf(),
                    s0 == old(self)@,
                    self@ == (HartView { vr: cur, ..s0 }),
                    dst@.len() == vlenb,
                    lse_upto(s0, vd, base, stride, vm, n as nat, r as nat) == Ok::<Seq<u8>, (Seq<u8>, u32)>(cur),
                    lse_fill(s0, vreg(cur, vlenb as nat, vd + r), r as int, base, stride, vm, lo as int, i as int) == Ok::<Seq<u8>, u32>(dst@),
                decreases hi - i,
            {
                if vm || mask_bit(v0.as_slice(), i) {
                    let a = base.wrapping_add((i as u32).wrapping_mul(stride));
                    proof {
                        assert(a == lse_addr(base, stride, i as int));
                    }
                    match self.bus.read(a, 4) {
                        Ok(w) => {
                            proof {
                                lemma_elem4_in_reg(r as nat, vlenb as nat, i as nat);
                                crate::bus::lemma_load_le_bound(s0.mem, a - s0.base, 4);
                                reveal_with_fuel(crate::bus::pow256, 5);
                                crate::bus::lemma_store_le_len(dst@, i * 4 - r * vlenb, 4, w as nat);
                            }
                            crate::vcontext::Sew::E32.write(&mut dst, i * 4 - r * vlenb, w as u64);
                        },
                        Err(e) => {
                            proof {
                                assert(lse_fill(s0, vreg(cur, vlenb as nat, vd + r), r as int, base, stride, vm, lo as int, (i + 1) as int) == Err::<Seq<u8>, u32>(a));
                                lemma_lse_fill_err(s0, vreg(cur, vlenb as nat, vd + r), r as int, base, stride, vm, lo as int, (i + 1) as int, hi as int);
                                assert(hi == min_nat((((r + 1) * vlenb) / 4) as nat, n as nat));
                                assert(((r + 1) as nat - 1) == r);
                                assert(lse_fill(s0, vreg(cur, vlenb as nat, vd + r), r as int, base, stride, vm, ((r * vlenb) / 4) as int, min_nat((((r + 1) * vlenb) / 4) as nat, n as nat) as int) == Err::<Seq<u8>, u32>(a));
                                assert(lse_upto(s0, vd, base, stride, vm, n as nat, (r + 1) as nat) == Err::<Seq<u8>, (Seq<u8>, u32)>((cur, a)));
                                lemma_lse_upto_err(s0, vd, base, stride, vm, n as nat, (r + 1) as nat, nf as nat);
                            }
                            return Err(e);
                        },
                    }
                }
                i = i + 1;
            }
            proof {
                if hi < lo {
                    assert(lse_fill(s0, vreg(cur, vlenb as nat, vd + r), r as int, base, stride, vm, lo as int, hi as int) == Ok::<Seq<u8>, u32>(dst@));
                }
            }
            write_back(&mut self.vr, (vd as usize + r) * vlenb, &dst);
            r = r + 1;
        }
        self.pc = self.pc.wrapping_add(4);
        Ok(())
    }

    /// Loads `count` bytes from `base + start + j` into the front of `chunk`.
    #[verifier::rlimit(30)]
    fn vle8_chunk(&self, base: u32, start: usize, count: usize, chunk: &mut Vec<u8>) -> (r: Result<(), u32>)
        requires
            self.wf(),
            count <= old(chunk)@.len(),
            count <= 0x1_0000,
            start <= 0x1_0000,
        ensures
            final(chunk)@.len() == old(chunk)@.len(),
            match vle8_fill(self@, old(chunk)@, base, start as int, count as nat) {
                Ok(c) => r is Ok && final(chunk)@ == c,
                Err(a) => r == Err::<(), u32>(a),
            },
    {
        let ghost c0 = chunk@;
        let mut j: usize = 0;
        while j < count
            invariant
                j <= count,
                count <= c0.len(),
                c0 == old(chunk)@,
                count <= 0x1_0000,
                start <= 0x1_0000,
                self.wf(),
                chunk@.len() == c0.len(),
                vle8_fill(self@, c0, base, start as int, j as nat) == Ok::<Seq<u8>, u32>(chunk@),
            decreases count - j,
        {
            let a = byte_addr(base, start, j);
            match self.bus.read_u8(a as u64) {
                Ok(b) => {
                    chunk.set(j, b);
                },
                Err(_) => {
                    proof {
                        assert(vle8_fill(self@, c0, base, start as int, (j + 1) as nat) == Err::<Seq<u8>, u32>(a));
                        lemma_vle8_fill_err(self@, c0, base, start as int, (j + 1) as nat, count as nat);
                    }
                    return Err(a);
                },
            }
            j = j + 1;
        }
        Ok(())
    }

    #[verifier::rlimit(40)]
    pub fn exec_vle8(&mut self, vd: u8, rs1: u8) -> (r: Result<(), StateError>)
        requires
            old(self).wf(),
            old(self).cfg.vlenb > 0,
            vd + vle8_regs(old(self)@) <= 32,
            rs1 < 32,
        ensures
            final(self).wf(),
            (final(self)@, r) == spec_vle8(old(self)@, vd, rs1),
    {
        let ghost s0 = self@;
        let vlenb = self.cfg.vlenb as usize;
        let vt = self.csr.vtype;
        let nf = nf_from_vlmul(vt & 7);
        proof {
            assert((vt & 7) == vt % 8) by {
        crate::bits::lemma_u32_fields(vt);
    }
            assert(nf * vlenb <= 8 * 1024) by (nonlinear_arith)
                requires
                    nf <= 8,
                    vlenb <= 1024,
            ;
        }
        let total = nf * vlenb;
        let n: usize = if (self.csr.vl as usize) < total {
            self.csr.vl as usize
        } else {
            total
        };
        if n == 0 {
            proof {
                vstd::arithmetic::div_mod::lemma_basic_div((vlenb - 1) as int, vlenb as int);
                assert(vle8_regs(s0) == 0);
            }
            self.pc = self.pc.wrapping_add(4);
            return Ok(());
        }
        let nregs = (n + vlenb - 1) / vlenb;
        let base = self.get(rs1);
        let mut r: usize = 0;
        while r < nregs
            invariant
                r <= nregs,
                nregs == vle8_regs(s0),
                vd + nregs <= 32,
                n == min_nat(s0.csr.vl as nat, ld_nf(s0) * (vlenb as nat)),
                0 < n <= 8 * 1024,
                vlenb == s0.cfg.vlenb,
                0 < vlenb <= 1024,
                base == reg(s0, rs1),
                self.wf(),
                s0 == old(self)@,
                self@ == (HartView { vr: self@.vr, ..s0 }),
                vle8_upto(s0, vd, base, n as nat, r as nat) == Ok::<Seq<u8>, (Seq<u8>, u32)>(self@.vr),
            decreases nregs - r,
        {
            let ghost cur = self.vr@;
            proof {
                assert((vd + r) * vlenb + vlenb <= 32 * vlenb && r * vlenb < n) by (nonlinear_arith)
                    requires
                        vd + r < 32,
                        r < nregs,
                        nregs == (n + vlenb - 1) / vlenb as int,
                        vlenb > 0,
                ;
            }
            let mut chunk = copy_range(&self.vr, (vd as usize + r) * vlenb, vlenb);
            let start = r * vlenb;
            let count = if n - start < vlenb {
                n - start
            } else {
                vlenb
            };
            let ghost c0 = chunk@;
            let res = self.vle8_chunk(base, start, count, &mut chunk);
            proof {
                lemma_vle8_fill_frame(self@, s0, c0, base, start as int, count as nat);
            }
            match res {
                Ok(()) => {},
                Err(a) => {
                    proof {
                        assert(count == min_nat((n - start) as nat, vlenb as nat));
                        assert(vle8_upto(s0, vd, base, n as nat, (r + 1) as nat) == Err::<Seq<u8>, (Seq<u8>, u32)>((cur, a)));
                        lemma_vle8_upto_err(s0, vd, base, n as nat, (r + 1) as nat, nregs as nat);
                    }
                    return Err(StateError::Unmapped(a));
                },
            }
            write_back(&mut self.vr, (vd as usize + r) * vlenb, &chunk);
            r = r + 1;
        }
        self.pc = self.pc.wrapping_add(4);
        Ok(())
    }
}

} // verus!
