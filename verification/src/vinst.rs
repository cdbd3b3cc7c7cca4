//! Dispatch of decoded OP-V instructions to the vector operations, with the `mstatus.VS`
//! rules around them.

use vstd::prelude::*;
use crate::bus::StateError;
use crate::hart::{mstatus_vs_dirty, mstatus_vs_off, reg, spec_trap, Csrs, Hart, HartView};
use crate::inst::{
    DecodedInst, Inst, OpCfgInst, OpIviInst, OpIvvInst, OpIvxInst, OpMvvInst, OpMvxInst, VInst,
};
use crate::vexec::{
    spec_elem_loop, spec_extend, spec_extract_scalar, spec_first_mask, spec_insert_scalar,
    spec_mask_compare, spec_mask_compare_vv, spec_mask_or, spec_move_regs, spec_reduction,
    spec_sew, spec_slide, spec_vsetivli, spec_vsetvli, spec_wide_mul, slide_fits, ElemLoop,
    ElemOp, Relation, SlideKind, WideSrc,
};
use crate::vops::{scalar_sext, spec_scalar_sext};

verus! {

/// The immediate of an OP-IVI instruction: the low five bits of `imm`, sign-extended.
pub open spec fn simm_of(imm: u32) -> i32 {
    let low = imm % 32;
    if low >= 16 {
        (low - 32) as i32
    } else {
        low as i32
    }
}

pub fn simm_from(imm: u32) -> (r: i32)
    ensures
        r == simm_of(imm),
{
    let low = imm & 0x1F;
    assert(low == imm % 32) by {
        crate::bits::lemma_u32_fields(imm);
    }
    if low >= 16 {
        low as i32 - 32
    } else {
        low as i32
    }
}

/// `vm` of the unsigned-immediate OP-IVI forms: bit 8 of `imm`.
pub open spec fn uimm_vm(imm: u32) -> bool {
    imm / 256 != 0
}

/// A slide, as the decoded instruction names it.
pub open spec fn slide_of(s: HartView, d: DecodedInst) -> Option<(bool, SlideKind)> {
    match d.inst {
        Inst::V(VInst::OpIvi(OpIviInst::VslidedownVi)) => Some(
            (!uimm_vm(d.imm), SlideKind::Down { offset: (d.imm % 32) as usize }),
        ),
        Inst::V(VInst::OpIvi(OpIviInst::VslideupVi)) => Some(
            (!uimm_vm(d.imm), SlideKind::Up { offset: (d.imm % 32) as usize }),
        ),
        Inst::V(VInst::OpMvx(OpMvxInst::Vslide1downVx)) => Some(
            (d.imm == 0, SlideKind::Down1 { scalar: reg(s, d.rs1) }),
        ),
        _ => None,
    }
}

/// A vector instruction stays inside the register file (only the slides can leave it).
pub open spec fn vop_fits(s: HartView, d: DecodedInst) -> bool {
    match slide_of(s, d) {
        Some((masked, kind)) => slide_fits(s, d.rd, d.rs2, masked, kind),
        None => true,
    }
}

/// The element-wise loop a decoded instruction runs, if it is one.
pub open spec fn elem_loop_of(s: HartView, d: DecodedInst) -> Option<ElemLoop> {
    let vm = d.imm != 0;
    let simm = simm_of(d.imm);
    let ivi_masked = d.rs1 == 0;
    let vv = |op: ElemOp| ElemLoop { op, rd: d.rd, rs1: Some(d.rs1), rs2: Some(d.rs2), masked: !vm };
    let vx = |op: ElemOp| ElemLoop { op, rd: d.rd, rs1: None, rs2: Some(d.rs2), masked: !vm };
    let vi = |op: ElemOp, masked: bool| ElemLoop { op, rd: d.rd, rs1: None, rs2: Some(d.rs2), masked };
    let x = reg(s, d.rs1);
    match d.inst {
        Inst::V(VInst::OpIvv(OpIvvInst::VorVv)) => Some(vv(ElemOp::OrVv)),
        Inst::V(VInst::OpIvv(OpIvvInst::VsubVv)) => Some(vv(ElemOp::SubVv)),
        Inst::V(VInst::OpIvv(OpIvvInst::VmaxVv)) => Some(vv(ElemOp::MaxVv)),
        Inst::V(VInst::OpMvv(OpMvvInst::VmaccVv)) => Some(vv(ElemOp::MaccVv)),
        Inst::V(VInst::OpMvv(OpMvvInst::VidV)) => Some(
            ElemLoop { op: ElemOp::Index, rd: d.rd, rs1: None, rs2: None, masked: false },
        ),
        Inst::V(VInst::OpIvi(OpIviInst::VmergeVim)) => Some(
            ElemLoop {
                op: ElemOp::MergeVi(simm),
                rd: d.rd,
                rs1: None,
                rs2: if ivi_masked {
                    Some(d.rs2)
                } else {
                    None
                },
                masked: ivi_masked,
            },
        ),
        Inst::V(VInst::OpIvi(OpIviInst::VrsubVi)) => Some(vi(ElemOp::RsubVi(simm), ivi_masked)),
        Inst::V(VInst::OpIvi(OpIviInst::VaddVi)) => Some(vi(ElemOp::AddVi(simm), ivi_masked)),
        Inst::V(VInst::OpIvi(OpIviInst::VandVi)) => Some(vi(ElemOp::AndVi(d.imm as i32), ivi_masked)),
        Inst::V(VInst::OpIvi(OpIviInst::VsllVi)) => Some(
            vi(ElemOp::SllVi(d.imm % 32), !uimm_vm(d.imm)),
        ),
        Inst::V(VInst::OpIvi(OpIviInst::VsrlVi)) => Some(
            vi(ElemOp::SrlVi(d.imm % 32), !uimm_vm(d.imm)),
        ),
        Inst::V(VInst::OpIvx(OpIvxInst::VmergeVxm)) => Some(vx(ElemOp::MergeVx(x))),
        Inst::V(VInst::OpIvx(OpIvxInst::VaddVx)) => Some(vx(ElemOp::AddVx(x as u64))),
        Inst::V(VInst::OpIvx(OpIvxInst::VandVx)) => Some(vx(ElemOp::AndVx(x as u64))),
        Inst::V(VInst::OpIvx(OpIvxInst::VsllVx)) => Some(vx(ElemOp::SllVx(x))),
        Inst::V(VInst::OpIvx(OpIvxInst::VsrlVx)) => Some(vx(ElemOp::SrlVx(x))),
        _ => None,
    }
}

/// The meaning of one OP-V instruction with the vector unit on.
pub open spec fn spec_vop(s: HartView, d: DecodedInst) -> (HartView, Result<(), StateError>) {
    let vm = d.imm != 0;
    let simm = simm_of(d.imm) as i64;
    let x = reg(s, d.rs1);
    let xs = spec_scalar_sext(x, spec_sew(s) as usize);
    match elem_loop_of(s, d) {
        Some(lp) => spec_elem_loop(s, lp),
        None => match slide_of(s, d) {
            Some((masked, kind)) => spec_slide(s, d.rd, d.rs2, masked, kind),
            None => match d.inst {
                Inst::V(VInst::OpCfg(OpCfgInst::Vsetivli)) => (spec_vsetivli(s, d.rd, d.imm), Ok(())),
                Inst::V(VInst::OpCfg(OpCfgInst::Vsetvli)) => (spec_vsetvli(s, d.rd, d.rs1, d.imm), Ok(())),
                Inst::V(VInst::OpIvv(OpIvvInst::VmsneVv)) => (
                    spec_mask_compare_vv(s, d.rd, d.rs1, d.rs2, vm, Relation::Ne),
                    Ok(()),
                ),
                Inst::V(VInst::OpMvv(OpMvvInst::VredsumVs)) => (spec_reduction(s, d.rd, d.rs1, d.rs2, vm, false), Ok(())),
                Inst::V(VInst::OpMvv(OpMvvInst::VredmaxVs)) => (spec_reduction(s, d.rd, d.rs1, d.rs2, vm, true), Ok(())),
                Inst::V(VInst::OpMvv(OpMvvInst::VmvXS)) => (spec_extract_scalar(s, d.rd, d.rs2), Ok(())),
                Inst::V(VInst::OpMvv(OpMvvInst::VfirstM)) => (spec_first_mask(s, d.rd, d.rs2), Ok(())),
                Inst::V(VInst::OpMvv(OpMvvInst::VsextVf4)) => spec_extend(s, d.rd, d.rs2, vm, true, 4),
                Inst::V(VInst::OpMvv(OpMvvInst::VzextVf4)) => spec_extend(s, d.rd, d.rs2, vm, false, 4),
                Inst::V(VInst::OpMvv(OpMvvInst::VsextVf2)) => spec_extend(s, d.rd, d.rs2, vm, true, 2),
                Inst::V(VInst::OpMvv(OpMvvInst::VzextVf2)) => spec_extend(s, d.rd, d.rs2, vm, false, 2),
                Inst::V(VInst::OpMvv(OpMvvInst::VmorMm)) => (spec_mask_or(s, d.rd, d.rs1, d.rs2), Ok(())),
                Inst::V(VInst::OpMvv(OpMvvInst::VwmaccVv)) => spec_wide_mul(
                    s,
                    d.rd,
                    d.rs2,
                    vm,
                    WideSrc::Vv { vs1: d.rs1, signed: true, accumulate: true },
                ),
                Inst::V(VInst::OpMvv(OpMvvInst::VwmuluVv)) => spec_wide_mul(
                    s,
                    d.rd,
                    d.rs2,
                    vm,
                    WideSrc::Vv { vs1: d.rs1, signed: false, accumulate: false },
                ),
                Inst::V(VInst::OpIvi(OpIviInst::VmseqVi)) => (
                    spec_mask_compare(s, d.rd, d.rs2, simm, uimm_vm(d.imm), Relation::Eq),
                    Ok(()),
                ),
                Inst::V(VInst::OpIvi(OpIviInst::VmsneVi)) => (
                    spec_mask_compare(s, d.rd, d.rs2, simm, uimm_vm(d.imm), Relation::Ne),
                    Ok(()),
                ),
                Inst::V(VInst::OpIvi(OpIviInst::VmsleVi)) => (
                    spec_mask_compare(s, d.rd, d.rs2, simm, uimm_vm(d.imm), Relation::Le),
                    Ok(()),
                ),
                Inst::V(VInst::OpIvi(OpIviInst::VmvNrV)) => spec_move_regs(s, d.rd, d.rs2, d.imm),
                Inst::V(VInst::OpIvx(OpIvxInst::VmsltVx)) => (
                    spec_mask_compare(s, d.rd, d.rs2, xs, vm, Relation::Lt),
                    Ok(()),
                ),
                Inst::V(VInst::OpIvx(OpIvxInst::VmseqVx)) => (
                    spec_mask_compare(s, d.rd, d.rs2, xs, vm, Relation::Eq),
                    Ok(()),
                ),
                Inst::V(VInst::OpMvx(OpMvxInst::VmvSX)) => (spec_insert_scalar(s, d.rd, x), Ok(())),
                Inst::V(VInst::OpMvx(OpMvxInst::VwmulVx)) => spec_wide_mul(
                    s,
                    d.rd,
                    d.rs2,
                    vm,
                    WideSrc::Vx { scalar: xs },
                ),
                _ => (s, Ok(())),
            },
        },
    }
}

/// Whether a completed instruction marks the vector state dirty (`vmv.x.s` and `vfirst.m`
/// only read it).
pub open spec fn dirties_vs(d: DecodedInst) -> bool {
    !(d.inst == Inst::V(VInst::OpMvv(OpMvvInst::VmvXS)) || d.inst == Inst::V(
        VInst::OpMvv(OpMvvInst::VfirstM),
    ))
}

/// The meaning of an OP-V instruction: an illegal-instruction trap while `mstatus.VS` is
/// Off; otherwise the operation, after which `VS` becomes Dirty when it completed and
/// wrote vector state.
pub open spec fn spec_exec_vector(s: HartView, d: DecodedInst) -> (HartView, Result<(), StateError>) {
    if mstatus_vs_off(s.csr.mstatus) {
        (spec_trap(s), Ok(()))
    } else {
        let (t, r) = spec_vop(s, d);
        if r is Ok && dirties_vs(d) {
            (HartView { csr: Csrs { mstatus: mstatus_vs_dirty(t.csr.mstatus), ..t.csr }, ..t }, r)
        } else {
            (t, r)
        }
    }
}

impl Hart {
    fn run_vop(&mut self, d: &DecodedInst) -> (r: Result<(), StateError>)
        requires
            old(self).wf(),
            old(self).cfg.vlenb > 0,
            crate::hart::fields_ok(*d),
            vop_fits(old(self)@, *d),
        ensures
            final(self).wf(),
            (final(self)@, r) == spec_vop(old(self)@, *d),
    {
        let vm = d.imm != 0;
        let simm = simm_from(d.imm);
        let ivi_masked = d.rs1 == 0;
        let imm = d.imm;
        let uvm = imm >> 8 != 0;
        assert(uvm == (imm / 256 != 0)) by {
        crate::bits::lemma_u32_fields(imm);
    }
        let low5 = imm & 0x1F;
        assert(low5 == imm % 32) by {
        crate::bits::lemma_u32_fields(imm);
    }
        let x = self.get(d.rs1);
        let vv = ElemLoop { op: ElemOp::OrVv, rd: d.rd, rs1: Some(d.rs1), rs2: Some(d.rs2), masked: !vm };
        let vx = ElemLoop { op: ElemOp::OrVv, rd: d.rd, rs1: None, rs2: Some(d.rs2), masked: !vm };
        let vi = ElemLoop { op: ElemOp::OrVv, rd: d.rd, rs1: None, rs2: Some(d.rs2), masked: ivi_masked };
        let vu = ElemLoop { op: ElemOp::OrVv, rd: d.rd, rs1: None, rs2: Some(d.rs2), masked: !uvm };
        match d.inst {
            Inst::V(VInst::OpIvv(OpIvvInst::VorVv)) => self.exec_elem_loop(vv),
            Inst::V(VInst::OpIvv(OpIvvInst::VsubVv)) => self.exec_elem_loop(ElemLoop { op: ElemOp::SubVv, ..vv }),
            Inst::V(VInst::OpIvv(OpIvvInst::VmaxVv)) => self.exec_elem_loop(ElemLoop { op: ElemOp::MaxVv, ..vv }),
            Inst::V(VInst::OpMvv(OpMvvInst::VmaccVv)) => self.exec_elem_loop(ElemLoop { op: ElemOp::MaccVv, ..vv }),
            Inst::V(VInst::OpMvv(OpMvvInst::VidV)) => self.exec_elem_loop(
                ElemLoop { op: ElemOp::Index, rd: d.rd, rs1: None, rs2: None, masked: false },
            ),
            Inst::V(VInst::OpIvi(OpIviInst::VmergeVim)) => self.exec_elem_loop(
                ElemLoop {
                    op: ElemOp::MergeVi(simm),
                    rd: d.rd,
                    rs1: None,
                    rs2: if ivi_masked {
                        Some(d.rs2)
                    } else {
                        None
                    },
                    masked: ivi_masked,
                },
            ),
            Inst::V(VInst::OpIvi(OpIviInst::VrsubVi)) => self.exec_elem_loop(ElemLoop { op: ElemOp::RsubVi(simm), ..vi }),
            Inst::V(VInst::OpIvi(OpIviInst::VaddVi)) => self.exec_elem_loop(ElemLoop { op: ElemOp::AddVi(simm), ..vi }),
            Inst::V(VInst::OpIvi(OpIviInst::VandVi)) => self.exec_elem_loop(
                ElemLoop { op: ElemOp::AndVi(#[verifier::truncate] (d.imm as i32)), ..vi },
            ),
            Inst::V(VInst::OpIvi(OpIviInst::VsllVi)) => self.exec_elem_loop(ElemLoop { op: ElemOp::SllVi(low5), ..vu }),
            Inst::V(VInst::OpIvi(OpIviInst::VsrlVi)) => self.exec_elem_loop(ElemLoop { op: ElemOp::SrlVi(low5), ..vu }),
            Inst::V(VInst::OpIvx(OpIvxInst::VmergeVxm)) => self.exec_elem_loop(ElemLoop { op: ElemOp::MergeVx(x), ..vx }),
            Inst::V(VInst::OpIvx(OpIvxInst::VaddVx)) => self.exec_elem_loop(ElemLoop { op: ElemOp::AddVx(x as u64), ..vx }),
            Inst::V(VInst::OpIvx(OpIvxInst::VandVx)) => self.exec_elem_loop(ElemLoop { op: ElemOp::AndVx(x as u64), ..vx }),
            Inst::V(VInst::OpIvx(OpIvxInst::VsllVx)) => self.exec_elem_loop(ElemLoop { op: ElemOp::SllVx(x), ..vx }),
            Inst::V(VInst::OpIvx(OpIvxInst::VsrlVx)) => self.exec_elem_loop(ElemLoop { op: ElemOp::SrlVx(x), ..vx }),
            Inst::V(VInst::OpIvi(OpIviInst::VslidedownVi)) => self.exec_slide(
                d.rd,
                d.rs2,
                !uvm,
                SlideKind::Down { offset: low5 as usize },
            ),
            Inst::V(VInst::OpIvi(OpIviInst::VslideupVi)) => self.exec_slide(
                d.rd,
                d.rs2,
                !uvm,
                SlideKind::Up { offset: low5 as usize },
            ),
            Inst::V(VInst::OpMvx(OpMvxInst::Vslide1downVx)) => self.exec_slide(
                d.rd,
                d.rs2,
                !vm,
                SlideKind::Down1 { scalar: x },
            ),
            Inst::V(VInst::OpCfg(OpCfgInst::Vsetivli)) => {
                self.exec_vsetivli(d.rd, d.imm);
                Ok(())
            },
            Inst::V(VInst::OpCfg(OpCfgInst::Vsetvli)) => {
                self.exec_vsetvli(d.rd, d.rs1, d.imm);
                Ok(())
            },
            Inst::V(VInst::OpIvv(OpIvvInst::VmsneVv)) => {
                self.exec_mask_compare_vv(d.rd, d.rs1, d.rs2, vm, Relation::Ne);
                Ok(())
            },
            Inst::V(VInst::OpMvv(OpMvvInst::VredsumVs)) => {
                self.exec_reduction(d.rd, d.rs1, d.rs2, vm, false);
                Ok(())
            },
            Inst::V(VInst::OpMvv(OpMvvInst::VredmaxVs)) => {
                self.exec_reduction(d.rd, d.rs1, d.rs2, vm, true);
                Ok(())
            },
            Inst::V(VInst::OpMvv(OpMvvInst::VmvXS)) => {
                self.exec_extract_scalar(d.rd, d.rs2);
                Ok(())
            },
            Inst::V(VInst::OpMvv(OpMvvInst::VfirstM)) => {
                self.exec_first_mask(d.rd, d.rs2);
                Ok(())
            },
            Inst::V(VInst::OpMvv(OpMvvInst::VsextVf4)) => self.exec_extend(d.rd, d.rs2, vm, true, 4),
            Inst::V(VInst::OpMvv(OpMvvInst::VzextVf4)) => self.exec_extend(d.rd, d.rs2, vm, false, 4),
            Inst::V(VInst::OpMvv(OpMvvInst::VsextVf2)) => self.exec_extend(d.rd, d.rs2, vm, true, 2),
            Inst::V(VInst::OpMvv(OpMvvInst::VzextVf2)) => self.exec_extend(d.rd, d.rs2, vm, false, 2),
            Inst::V(VInst::OpMvv(OpMvvInst::VmorMm)) => {
                self.exec_mask_or(d.rd, d.rs1, d.rs2);
                Ok(())
            },
            Inst::V(VInst::OpMvv(OpMvvInst::VwmaccVv)) => self.exec_wide_mul(
                d.rd,
                d.rs2,
                vm,
                WideSrc::Vv { vs1: d.rs1, signed: true, accumulate: true },
            ),
            Inst::V(VInst::OpMvv(OpMvvInst::VwmuluVv)) => self.exec_wide_mul(
                d.rd,
                d.rs2,
                vm,
                WideSrc::Vv { vs1: d.rs1, signed: false, accumulate: false },
            ),
            Inst::V(VInst::OpIvi(OpIviInst::VmseqVi)) => {
                self.exec_mask_compare(d.rd, d.rs2, simm as i64, uvm, Relation::Eq);
                Ok(())
            },
            Inst::V(VInst::OpIvi(OpIviInst::VmsneVi)) => {
                self.exec_mask_compare(d.rd, d.rs2, simm as i64, uvm, Relation::Ne);
                Ok(())
            },
            Inst::V(VInst::OpIvi(OpIviInst::VmsleVi)) => {
                self.exec_mask_compare(d.rd, d.rs2, simm as i64, uvm, Relation::Le);
                Ok(())
            },
            Inst::V(VInst::OpIvi(OpIviInst::VmvNrV)) => self.exec_move_regs(d.rd, d.rs2, d.imm),
            Inst::V(VInst::OpIvx(OpIvxInst::VmsltVx)) => {
                let c = self.vctx();
                let xs = scalar_sext(x, c.sew_bytes);
                self.exec_mask_compare(d.rd, d.rs2, xs, vm, Relation::Lt);
                Ok(())
            },
            Inst::V(VInst::OpIvx(OpIvxInst::VmseqVx)) => {
                let c = self.vctx();
                let xs = scalar_sext(x, c.sew_bytes);
                self.exec_mask_compare(d.rd, d.rs2, xs, vm, Relation::Eq);
                Ok(())
            },
            Inst::V(VInst::OpMvx(OpMvxInst::VmvSX)) => {
                self.exec_insert_scalar(d.rd, x);
                Ok(())
            },
            Inst::V(VInst::OpMvx(OpMvxInst::VwmulVx)) => {
                let c = self.vctx();
                let xs = scalar_sext(x, c.sew_bytes);
                self.exec_wide_mul(d.rd, d.rs2, vm, WideSrc::Vx { scalar: xs })
            },
            _ => Ok(()),
        }
    }

    /// Executes one OP-V instruction.
    pub fn execute_vector(&mut self, d: &DecodedInst) -> (r: Result<(), StateError>)
        requires
            old(self).wf(),
            old(self).cfg.vlenb > 0,
            crate::hart::fields_ok(*d),
            vop_fits(old(self)@, *d),
        ensures
            final(self).wf(),
            (final(self)@, r) == spec_exec_vector(old(self)@, *d),
    {
        let m = self.csr.mstatus;
        let off = (m >> 9u32) & 3 == 0;
        assert(off == mstatus_vs_off(m));
        if off {
            self.trap_illegal_instruction();
            return Ok(());
        }
        let dirty = match d.inst {
            Inst::V(VInst::OpMvv(OpMvvInst::VmvXS)) | Inst::V(VInst::OpMvv(OpMvvInst::VfirstM)) => false,
            _ => true,
        };
        let r = self.run_vop(d);
        if r.is_ok() && dirty {
            self.csr.mstatus = self.csr.mstatus | 0x600;
        }
        r
    }
}

} // verus!
