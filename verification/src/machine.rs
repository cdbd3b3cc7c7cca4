//! One hart with its memory: construction, and the execution of any decoded instruction.

use vstd::prelude::*;
use crate::bus::{Bus, StateError};
use crate::hart::{csr_ok, fields_ok, is_vector, spec_exec_scalar, Csrs, Hart, HartView, MAX_VLENB};
use crate::inst::{DecodedInst, Inst, IsaConfig, LoadFpInst, StoreFpInst, SystemInst};
use crate::mnist::{Cus0AccelState, MnistWeights};
use crate::vcontext::{mask_bit, nf_from_vlmul, spec_calculate_vlmax, calculate_vlmax};
use crate::vexec::{
    min_nat, slide_access_ok, slide_fits, slide_lo, slide_nf, slide_skips, slide_src, spec_n,
    spec_sew, spec_v0, SlideKind,
};
use crate::vfp::{
    ld_nf, spec_vl1r, spec_vl2r, spec_vle8, spec_vlse32, spec_vlseg4, spec_vs1r, spec_vse32,
    spec_vse8, vle8_regs, vse32_n, vse8_n,
};
use crate::vinst::{slide_of, spec_exec_vector, vop_fits};

verus! {

/// The `vm` bit of a vector load: bit 0 of `imm`.
pub open spec fn load_vm(d: DecodedInst) -> bool {
    d.imm % 2 != 0
}

/// A vector load or store stays inside the register file (and, for `vle8.v`, within the
/// 16-byte register width it supports).
pub open spec fn vfp_fits(s: HartView, d: DecodedInst) -> bool {
    let vlenb = s.cfg.vlenb as nat;
    match d.inst {
        Inst::LoadFp(LoadFpInst::Vlseg4e8) => d.rd + 4 <= 32,
        Inst::LoadFp(LoadFpInst::Vl2re16) | Inst::LoadFp(LoadFpInst::Vl2re32) => d.rd + 2 <= 32,
        Inst::LoadFp(LoadFpInst::Vle8) => d.rd + vle8_regs(s) <= 32 && (vle8_regs(s) > 0 ==> vlenb
            <= 16),
        Inst::StoreFp(StoreFpInst::Vse8) => d.rd * vlenb + vse8_n(s) <= 32 * vlenb,
        Inst::StoreFp(StoreFpInst::Vse32) => d.rd * vlenb + 4 * vse32_n(s) <= 32 * vlenb,
        _ => true,
    }
}

/// The instruction can be executed: its register fields are register numbers, a CSR it
/// names exists, a vector instruction runs on a hart with vector registers and stays
/// inside them.
pub open spec fn exec_ok(s: HartView, d: DecodedInst) -> bool {
    &&& fields_ok(d)
    &&& csr_ok(s, d)
    &&& (is_vector(d.inst) ==> s.cfg.vlenb > 0)
    &&& vop_fits(s, d)
    &&& vfp_fits(s, d)
}

/// The meaning of any decoded instruction: the next state, and whether the step completed.
pub open spec fn spec_execute(s: HartView, d: DecodedInst) -> (HartView, Result<(), StateError>) {
    match d.inst {
        Inst::V(_) => spec_exec_vector(s, d),
        Inst::LoadFp(LoadFpInst::Vle8) => spec_vle8(s, d.rd, d.rs1),
        Inst::LoadFp(LoadFpInst::Vlseg4e8) => spec_vlseg4(s, d.rd, d.rs1, load_vm(d)),
        Inst::LoadFp(LoadFpInst::Vl1re16) => spec_vl1r(s, d.rd, d.rs1),
        Inst::LoadFp(LoadFpInst::Vl2re16) | Inst::LoadFp(LoadFpInst::Vl2re32) => spec_vl2r(s, d.rd, d.rs1),
        Inst::LoadFp(LoadFpInst::Vlse32) => spec_vlse32(s, d.rd, d.rs1, d.rs2, load_vm(d)),
        Inst::StoreFp(StoreFpInst::Vs1r) => spec_vs1r(s, d.rd, d.rs1),
        Inst::StoreFp(StoreFpInst::Vse8) => spec_vse8(s, d.rd, d.rs1),
        Inst::StoreFp(StoreFpInst::Vse32) => spec_vse32(s, d.rd, d.rs1),
        _ => spec_exec_scalar(s, d),
    }
}

/// The state a fresh hart starts in.
pub open spec fn spec_reset_csrs() -> Csrs {
    Csrs {
        mstatus: 0,
        misa: 0,
        mie: 0,
        mtvec: 0,
        mscratch: 0,
        mepc: 0,
        mcause: 0,
        mtval: 0,
        mip: 0,
        vstart: 0,
        vl: 0,
        vtype: 0,
    }
}

impl Hart {
    /// A hart at `pc` with zeroed registers over the memory `mem` mapped at `base`; with the
    /// accelerator configured, `weights` are its network.
    pub fn new(cfg: IsaConfig, pc: u32, base: u32, mem: Vec<u8>, weights: Option<MnistWeights>) -> (h: Hart)
        requires
            cfg.vlenb <= MAX_VLENB,
            cfg.vlenb % 8 == 0,
            base + mem@.len() <= 0x1_0000_0000,
            cfg.has_cus0 ==> (weights matches Some(w) && w.wf()),
        ensures
            h.wf(),
            h@.cfg == cfg,
            h@.pc == pc,
            h@.gpr == Seq::new(32, |i: int| 0u32),
            h@.csr == spec_reset_csrs(),
            h@.vr == Seq::new(32 * cfg.vlenb as nat, |i: int| 0u8),
            h@.base == base,
            h@.mem == mem@,
    {
        let mut gpr: Vec<u32> = Vec::new();
        let mut i: usize = 0;
        while i < 32
            invariant
                i <= 32,
                gpr@ == Seq::new(i as nat, |k: int| 0u32),
            decreases 32 - i,
        {
            gpr.push(0);
            i = i + 1;
            assert(gpr@ =~= Seq::new(i as nat, |k: int| 0u32));
        }
        let nvr = 32 * cfg.vlenb as usize;
        let mut vr: Vec<u8> = Vec::new();
        let mut j: usize = 0;
        while j < nvr
            invariant
                j <= nvr,
                vr@ == Seq::new(j as nat, |k: int| 0u8),
            decreases nvr - j,
        {
            vr.push(0);
            j = j + 1;
            assert(vr@ =~= Seq::new(j as nat, |k: int| 0u8));
        }
        let accel = if cfg.has_cus0 {
            match weights {
                Some(w) => Some(Cus0AccelState::new(w)),
                None => None,
            }
        } else {
            None
        };
        let csr = Csrs {
            mstatus: 0,
            misa: 0,
            mie: 0,
            mtvec: 0,
            mscratch: 0,
            mepc: 0,
            mcause: 0,
            mtval: 0,
            mip: 0,
            vstart: 0,
            vl: 0,
            vtype: 0,
        };
        Hart { cfg, pc, gpr, csr, vr, bus: Bus { base, mem }, accel }
    }

    /// Executes one decoded instruction.
    pub fn execute(&mut self, d: &DecodedInst) -> (r: Result<(), StateError>)
        requires
            old(self).wf(),
            exec_ok(old(self)@, *d),
        ensures
            final(self).wf(),
            (final(self)@, r) == spec_execute(old(self)@, *d),
    {
        let imm = d.imm;
        let vm = imm & 1 != 0;
        assert(vm == (imm % 2 != 0)) by {
        crate::bits::lemma_u32_fields(imm);
    }
        match d.inst {
            Inst::V(_) => self.execute_vector(d),
            Inst::LoadFp(LoadFpInst::Vle8) => self.exec_vle8(d.rd, d.rs1),
            Inst::LoadFp(LoadFpInst::Vlseg4e8) => self.exec_vlseg4(d.rd, d.rs1, vm),
            Inst::LoadFp(LoadFpInst::Vl1re16) => self.exec_vl1r(d.rd, d.rs1),
            Inst::LoadFp(LoadFpInst::Vl2re16) | Inst::LoadFp(LoadFpInst::Vl2re32) => self.exec_vl2r(d.rd, d.rs1),
            Inst::LoadFp(LoadFpInst::Vlse32) => self.exec_vlse32(d.rd, d.rs1, d.rs2, vm),
            Inst::StoreFp(StoreFpInst::Vs1r) => self.exec_vs1r(d.rd, d.rs1),
            Inst::StoreFp(StoreFpInst::Vse8) => self.exec_vse8(d.rd, d.rs1),
            Inst::StoreFp(StoreFpInst::Vse32) => self.exec_vse32(d.rd, d.rs1),
            _ => self.execute_scalar(d),
        }
    }
}


/// Slide offsets come from a five-bit immediate.
pub open spec fn small_offset(kind: SlideKind) -> bool {
    match kind {
        SlideKind::Down { offset } => offset < 32,
        SlideKind::Up { offset } => offset < 32,
        SlideKind::Down1 { .. } => true,
    }
}

impl Hart {
    /// Whether element `i` of a slide stays inside the registers it works on.
    fn slide_ok_at(&self, rd: u8, rs2: u8, masked: bool, kind: SlideKind, v0: &Vec<u8>, limit: usize, sew: usize, vlmax: u32, i: usize) -> (r: bool)
        requires
            self.wf(),
            rd < 32,
            rs2 < 32,
            v0@ == spec_v0(self@),
            limit == slide_nf(self@, rd, rs2) * self@.cfg.vlenb,
            sew == spec_sew(self@),
            vlmax == spec_calculate_vlmax(self@.cfg.vlenb, self@.csr.vtype),
            i <= 0x1_0000_0000,
            i >= slide_lo(kind, self@.csr.vstart),
            small_offset(kind),
            limit <= 8 * 1024,
            1 <= sew <= 8,
        ensures
            r == slide_access_ok(self@, rd, rs2, masked, kind, i as int),
    {
        let below = match kind {
            SlideKind::Up { offset } => (self.csr.vstart as usize) < offset && i < offset,
            _ => false,
        };
        if (masked && !mask_bit(v0.as_slice(), i)) || below {
            return true;
        }
        let ii = i as u64;
        let s = sew as u64;
        if ii * s + s > limit as u64 {
            return false;
        }
        let src: Option<u64> = match kind {
            SlideKind::Down { offset } => Some(ii + offset as u64),
            SlideKind::Up { offset } => Some(ii - offset as u64),
            SlideKind::Down1 { .. } => if self.csr.vl >= 1 && ii == self.csr.vl as u64 - 1 {
                None
            } else {
                Some(ii + 1)
            },
        };
        proof {
            if let SlideKind::Up { offset } = kind {
                assert(i >= offset);
            }
        }
        match src {
            None => true,
            Some(j) => {
                if j < vlmax as u64 {
                    proof {
                        assert(j * s <= 0x1_0000_0000 * 8) by (nonlinear_arith)
                            requires
                                j < 0x1_0000_0000,
                                s <= 8,
                        ;
                    }
                    j * s + s <= limit as u64
                } else {
                    true
                }
            },
        }
    }

    /// Checks `slide_fits` element by element.
    fn slide_fits_check(&self, rd: u8, rs2: u8, masked: bool, kind: SlideKind) -> (r: bool)
        requires
            self.wf(),
            self.cfg.vlenb > 0,
            rd < 32,
            rs2 < 32,
            small_offset(kind),
        ensures
            r == slide_fits(self@, rd, rs2, masked, kind),
    {
        let c = self.vctx();
        let m0 = if c.nf < 32 - rd as usize {
            c.nf
        } else {
            32 - rd as usize
        };
        let m = if m0 < 32 - rs2 as usize {
            m0
        } else {
            32 - rs2 as usize
        };
        let nfc = if m < 1 {
            1
        } else {
            m
        };
        proof {
            assert(nfc * c.vlenb <= 8 * 1024) by (nonlinear_arith)
                requires
                    nfc <= 8,
                    c.vlenb <= 1024,
            ;
        }
        let limit = nfc * c.vlenb;
        let n = c.n_elems() as usize;
        let lo: usize = match kind {
            SlideKind::Up { .. } => self.csr.vstart as usize,
            _ => 0,
        };
        let v0 = crate::vexec::v0_of(self);
        let vlmax = calculate_vlmax(self.cfg.vlenb, self.csr.vtype);
        proof {
            assert(limit <= 8 * 1024) by (nonlinear_arith)
                requires
                    nfc <= 8,
                    c.vlenb <= 1024,
                    limit == nfc * c.vlenb,
            ;
        }
        let mut i = lo;
        while i < n
            invariant
                lo <= i,
                lo == slide_lo(kind, self@.csr.vstart),
                n == spec_n(self@),
                n <= 0x1_0000_0000,
                self.wf(),
                rd < 32,
                rs2 < 32,
                v0@ == spec_v0(self@),
                limit == slide_nf(self@, rd, rs2) * self@.cfg.vlenb,
                c.sew_bytes == spec_sew(self@),
                1 <= c.sew_bytes <= 8,
                vlmax == spec_calculate_vlmax(self@.cfg.vlenb, self@.csr.vtype),
                limit <= 8 * 1024,
                small_offset(kind),
                forall|j: int| lo <= j < i ==> #[trigger] slide_access_ok(self@, rd, rs2, masked, kind, j),
            decreases n - i,
        {
            if !self.slide_ok_at(rd, rs2, masked, kind, &v0, limit, c.sew_bytes, vlmax, i) {
                return false;
            }
            i = i + 1;
        }
        true
    }

    /// Whether `execute` may run this instruction (see `exec_ok`).
    pub fn can_execute(&self, d: &DecodedInst) -> (r: bool)
        requires
            self.wf(),
        ensures
            r == exec_ok(self@, *d),
    {
        if !(d.rd < 32 && d.rs1 < 32 && d.rs2 < 32) {
            return false;
        }
        let csr_fine = match d.inst {
            Inst::System(SystemInst::Ebreak) => true,
            Inst::System(_) => self.csr.read(self.cfg.vlenb, d.imm).is_some(),
            _ => true,
        };
        if !csr_fine {
            return false;
        }
        let vector = match d.inst {
            Inst::V(_) | Inst::LoadFp(_) | Inst::StoreFp(_) => true,
            _ => false,
        };
        if !vector {
            return true;
        }
        if self.cfg.vlenb == 0 {
            return false;
        }
        let vlenb = self.cfg.vlenb as usize;
        let x = self.get(d.rs1);
        let imm = d.imm;
        let uvm = imm >> 8 != 0;
        assert(uvm == (imm / 256 != 0)) by {
        crate::bits::lemma_u32_fields(imm);
    }
        let low5 = imm & 0x1F;
        assert(low5 == imm % 32) by {
        crate::bits::lemma_u32_fields(imm);
    }
        let slide: Option<(bool, SlideKind)> = match d.inst {
            Inst::V(crate::inst::VInst::OpIvi(crate::inst::OpIviInst::VslidedownVi)) => Some(
                (!uvm, SlideKind::Down { offset: low5 as usize }),
            ),
            Inst::V(crate::inst::VInst::OpIvi(crate::inst::OpIviInst::VslideupVi)) => Some(
                (!uvm, SlideKind::Up { offset: low5 as usize }),
            ),
            Inst::V(crate::inst::VInst::OpMvx(crate::inst::OpMvxInst::Vslide1downVx)) => Some(
                (imm == 0, SlideKind::Down1 { scalar: x }),
            ),
            _ => None,
        };
        assert(slide == slide_of(self@, *d));
        let slide_ok = match slide {
            Some((masked, kind)) => self.slide_fits_check(d.rd, d.rs2, masked, kind),
            None => true,
        };
        if !slide_ok {
            return false;
        }
        let vt = self.csr.vtype;
        let nf = nf_from_vlmul(vt & 7);
        proof {
            assert((vt & 7) == vt % 8) by {
        crate::bits::lemma_u32_fields(vt);
    }
            assert(nf * vlenb <= 8 * 1024) by (nonlinear_arith)
                requires
                    nf <= 8,
                    vlenb <= 1024,
            ;
            assert(d.rd * vlenb <= 32 * 1024) by (nonlinear_arith)
                requires
                    d.rd < 32,
                    vlenb <= 1024,
            ;
        }
        let vl = self.csr.vl as usize;
        match d.inst {
            Inst::LoadFp(LoadFpInst::Vlseg4e8) => d.rd + 4 <= 32,
            Inst::LoadFp(LoadFpInst::Vl2re16) | Inst::LoadFp(LoadFpInst::Vl2re32) => d.rd + 2 <= 32,
            Inst::LoadFp(LoadFpInst::Vle8) => {
                let n = if vl < nf * vlenb {
                    vl
                } else {
                    nf * vlenb
                };
                let nregs = (n + vlenb - 1) / vlenb;
                d.rd as usize + nregs <= 32 && (nregs == 0 || vlenb <= 16)
            },
            Inst::StoreFp(StoreFpInst::Vse8) => {
                let n = if vl < nf * vlenb {
                    vl
                } else {
                    nf * vlenb
                };
                d.rd as usize * vlenb + n <= 32 * vlenb
            },
            Inst::StoreFp(StoreFpInst::Vse32) => {
                let total = (nf * vlenb) / 4;
                let n = if vl < total {
                    vl
                } else {
                    total
                };
                d.rd as usize * vlenb + 4 * n <= 32 * vlenb
            },
            _ => true,
        }
    }
}

} // verus!
