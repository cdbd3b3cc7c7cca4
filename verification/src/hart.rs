//! Architectural state of one RV32 hart and the execution of decoded instructions.

use vstd::prelude::*;
use crate::alu::{
    alu_add, alu_div, alu_divu, alu_mul, alu_mulh, alu_mulhsu, alu_mulhu, alu_rem, alu_remu,
    alu_sll, alu_slt, alu_sltu, alu_sra, alu_srl, alu_sub, sext32, spec_div, spec_divu,
    spec_mulh, spec_mulhsu, spec_mulhu, spec_rem, spec_remu, spec_sll, spec_slt, spec_sltu,
    spec_sra, spec_srl, to_u32,
};
use crate::bus::{load_le, lemma_load_le_bound, mapped, store_le, Bus, StateError};
use crate::inst::{Cus0Inst, DecodedInst, Inst, IsaConfig, MiscMemInst, SystemInst};
use crate::mnist::{Cus0AccelState, MnistWeights, INPUT_LEN, OUTPUT_LEN};

verus! {

pub const CSR_VSTART: u32 = 0x008;
pub const CSR_MSTATUS: u32 = 0x300;
pub const CSR_MISA: u32 = 0x301;
pub const CSR_MIE: u32 = 0x304;
pub const CSR_MTVEC: u32 = 0x305;
pub const CSR_MSCRATCH: u32 = 0x340;
pub const CSR_MEPC: u32 = 0x341;
pub const CSR_MCAUSE: u32 = 0x342;
pub const CSR_MTVAL: u32 = 0x343;
pub const CSR_MIP: u32 = 0x344;
pub const CSR_VL: u32 = 0xC20;
pub const CSR_VTYPE: u32 = 0xC21;
pub const CSR_VLENB: u32 = 0xC22;

/// `mcause` of an illegal-instruction exception.
pub const MCAUSE_ILLEGAL_INSTRUCTION: u32 = 2;

/// The machine-mode and vector CSRs.
#[derive(Clone, Copy, Debug, PartialEq, Eq, Structural)]
pub struct Csrs {
    pub mstatus: u32,
    pub misa: u32,
    pub mie: u32,
    pub mtvec: u32,
    pub mscratch: u32,
    pub mepc: u32,
    pub mcause: u32,
    pub mtval: u32,
    pub mip: u32,
    pub vstart: u32,
    pub vl: u32,
    pub vtype: u32,
}

/// The value of the CSR at `addr`, if this hart implements it (`vlenb` is the constant
/// vector register width).
pub open spec fn spec_read_csr(c: Csrs, vlenb: u32, addr: u32) -> Option<u32> {
    if addr == CSR_MSTATUS {
        Some(c.mstatus)
    } else if addr == CSR_MISA {
        Some(c.misa)
    } else if addr == CSR_MIE {
        Some(c.mie)
    } else if addr == CSR_MTVEC {
        Some(c.mtvec)
    } else if addr == CSR_MSCRATCH {
        Some(c.mscratch)
    } else if addr == CSR_MEPC {
        Some(c.mepc)
    } else if addr == CSR_MCAUSE {
        Some(c.mcause)
    } else if addr == CSR_MTVAL {
        Some(c.mtval)
    } else if addr == CSR_MIP {
        Some(c.mip)
    } else if addr == CSR_VSTART {
        Some(c.vstart)
    } else if addr == CSR_VL {
        Some(c.vl)
    } else if addr == CSR_VTYPE {
        Some(c.vtype)
    } else if addr == CSR_VLENB {
        Some(vlenb)
    } else {
        None
    }
}

/// Writing a CSR: `vl`, `vtype` and `vlenb` are read-only and keep their values.
pub open spec fn spec_write_csr(c: Csrs, addr: u32, v: u32) -> Csrs {
    if addr == CSR_MSTATUS {
        Csrs { mstatus: v, ..c }
    } else if addr == CSR_MISA {
        Csrs { misa: v, ..c }
    } else if addr == CSR_MIE {
        Csrs { mie: v, ..c }
    } else if addr == CSR_MTVEC {
        Csrs { mtvec: v, ..c }
    } else if addr == CSR_MSCRATCH {
        Csrs { mscratch: v, ..c }
    } else if addr == CSR_MEPC {
        Csrs { mepc: v, ..c }
    } else if addr == CSR_MCAUSE {
        Csrs { mcause: v, ..c }
    } else if addr == CSR_MTVAL {
        Csrs { mtval: v, ..c }
    } else if addr == CSR_MIP {
        Csrs { mip: v, ..c }
    } else if addr == CSR_VSTART {
        Csrs { vstart: v, ..c }
    } else {
        c
    }
}

/// `mstatus` on trap entry: MPIE takes MIE, MIE is cleared, MPP becomes machine mode.
pub open spec fn mstatus_trap_entry(m: u32) -> u32 {
    (m & !0x1888u32) | (((m >> 3u32) & 1) << 7u32) | 0x1800
}

/// The trap vector base (direct mode): `mtvec` with its mode bits cleared.
pub open spec fn mtvec_base(mtvec: u32) -> u32 {
    mtvec & !3u32
}

/// `mstatus.VS` is Off.
pub open spec fn mstatus_vs_off(m: u32) -> bool {
    (m >> 9u32) & 3 == 0
}

/// `mstatus` with `VS` set to Dirty.
pub open spec fn mstatus_vs_dirty(m: u32) -> u32 {
    m | 0x600
}

impl Csrs {
    pub fn read(&self, vlenb: u32, addr: u32) -> (r: Option<u32>)
        ensures
            r == spec_read_csr(*self, vlenb, addr),
    {
        if addr == CSR_MSTATUS {
            Some(self.mstatus)
        } else if addr == CSR_MISA {
            Some(self.misa)
        } else if addr == CSR_MIE {
            Some(self.mie)
        } else if addr == CSR_MTVEC {
            Some(self.mtvec)
        } else if addr == CSR_MSCRATCH {
            Some(self.mscratch)
        } else if addr == CSR_MEPC {
            Some(self.mepc)
        } else if addr == CSR_MCAUSE {
            Some(self.mcause)
        } else if addr == CSR_MTVAL {
            Some(self.mtval)
        } else if addr == CSR_MIP {
            Some(self.mip)
        } else if addr == CSR_VSTART {
            Some(self.vstart)
        } else if addr == CSR_VL {
            Some(self.vl)
        } else if addr == CSR_VTYPE {
            Some(self.vtype)
        } else if addr == CSR_VLENB {
            Some(vlenb)
        } else {
            None
        }
    }

    pub fn write(&mut self, addr: u32, v: u32)
        ensures
            *final(self) == spec_write_csr(*old(self), addr, v),
    {
        if addr == CSR_MSTATUS {
            self.mstatus = v;
        } else if addr == CSR_MISA {
            self.misa = v;
        } else if addr == CSR_MIE {
            self.mie = v;
        } else if addr == CSR_MTVEC {
            self.mtvec = v;
        } else if addr == CSR_MSCRATCH {
            self.mscratch = v;
        } else if addr == CSR_MEPC {
            self.mepc = v;
        } else if addr == CSR_MCAUSE {
            self.mcause = v;
        } else if addr == CSR_MTVAL {
            self.mtval = v;
        } else if addr == CSR_MIP {
            self.mip = v;
        } else if addr == CSR_VSTART {
            self.vstart = v;
        }
    }

    pub fn apply_trap_entry(&mut self)
        ensures
            *final(self) == (Csrs { mstatus: mstatus_trap_entry(old(self).mstatus), ..*old(self) }),
    {
        let m = self.mstatus;
        self.mstatus = (m & !0x1888u32) | (((m >> 3u32) & 1) << 7u32) | 0x1800;
    }
}

/// What the accelerator holds, as values.
pub struct AccelView {
    pub input: Seq<i8>,
    pub logits: Seq<i32>,
    pub weights: MnistWeights,
}

/// The hart as values: everything an instruction can read or change.
pub struct HartView {
    pub cfg: IsaConfig,
    pub pc: u32,
    pub gpr: Seq<u32>,
    pub csr: Csrs,
    pub vr: Seq<u8>,
    pub base: u32,
    pub mem: Seq<u8>,
    pub accel: Option<AccelView>,
}

/// One RV32 hart with its memory and, when configured, the MNIST accelerator.
pub struct Hart {
    pub cfg: IsaConfig,
    pub pc: u32,
    /// `x0..x31`; `x0` always reads zero.
    pub gpr: Vec<u32>,
    pub csr: Csrs,
    /// The 32 vector registers, `vlenb` bytes each, back to back.
    pub vr: Vec<u8>,
    pub bus: Bus,
    pub accel: Option<Cus0AccelState>,
}

pub open spec fn accel_view(a: Option<Cus0AccelState>) -> Option<AccelView> {
    match a {
        Some(x) => Some(AccelView { input: x.input@, logits: x.logits@, weights: x.weights }),
        None => None,
    }
}

impl View for Hart {
    type V = HartView;

    open spec fn view(&self) -> HartView {
        HartView {
            cfg: self.cfg,
            pc: self.pc,
            gpr: self.gpr@,
            csr: self.csr,
            vr: self.vr@,
            base: self.bus.base,
            mem: self.bus.mem@,
            accel: accel_view(self.accel),
        }
    }
}

/// The largest vector register width this model supports, in bytes.
pub const MAX_VLENB: u32 = 1024;

/// Well-formedness of the values of a hart.
pub open spec fn view_wf(s: HartView) -> bool {
    &&& s.gpr.len() == 32
    &&& s.gpr[0] == 0
    &&& s.cfg.vlenb <= MAX_VLENB
    &&& s.cfg.vlenb % 8 == 0
    &&& s.vr.len() == 32 * s.cfg.vlenb
    &&& s.csr.vl <= 8 * s.cfg.vlenb
    &&& s.base + s.mem.len() <= 0x1_0000_0000
    &&& s.cfg.has_cus0 == s.accel.is_some()
    &&& (s.accel matches Some(a) ==> {
        &&& a.input.len() == INPUT_LEN
        &&& a.logits.len() == OUTPUT_LEN
        &&& a.weights.wf()
    })
}

impl Hart {
    pub open spec fn wf(&self) -> bool {
        &&& view_wf(self@)
        &&& (self.accel matches Some(a) ==> a.wf())
    }
}

// ---------------------------------------------------------------------------
// The meaning of one instruction
// ---------------------------------------------------------------------------
/// Register write; writes to `x0` are discarded.
pub open spec fn write_gpr(g: Seq<u32>, rd: u8, v: u32) -> Seq<u32> {
    if rd == 0 {
        g
    } else {
        g.update(rd as int, v)
    }
}

pub open spec fn reg(s: HartView, r: u8) -> u32 {
    s.gpr[r as int]
}

pub open spec fn pc_plus4(s: HartView) -> u32 {
    to_u32(s.pc + 4)
}

/// Write `v` to `rd` and fall through to the next instruction.
pub open spec fn retire_rd(s: HartView, rd: u8, v: u32) -> HartView {
    HartView { gpr: write_gpr(s.gpr, rd, v), pc: pc_plus4(s), ..s }
}

/// Fall through to the next instruction.
pub open spec fn retire(s: HartView) -> HartView {
    HartView { pc: pc_plus4(s), ..s }
}

/// Illegal-instruction trap: `mepc` takes the faulting pc, `mcause` 2, `mtval` 0, `mstatus`
/// is updated for trap entry and execution continues at the trap vector.
pub open spec fn spec_trap(s: HartView) -> HartView {
    HartView {
        csr: Csrs {
            mepc: s.pc,
            mcause: MCAUSE_ILLEGAL_INSTRUCTION,
            mtval: 0,
            mstatus: mstatus_trap_entry(s.csr.mstatus),
            ..s.csr
        },
        pc: mtvec_base(s.csr.mtvec),
        ..s
    }
}

/// The result of a register-register ALU instruction.
pub open spec fn spec_alu_rr(kind: Inst, a: u32, b: u32) -> u32 {
    match kind {
        Inst::Add => to_u32(a + b),
        Inst::Sub => to_u32(a - b),
        Inst::Sll => spec_sll(a, b),
        Inst::Slt => spec_slt(a, b),
        Inst::Sltu => spec_sltu(a, b),
        Inst::Xor => a ^ b,
        Inst::Srl => spec_srl(a, b),
        Inst::Sra => spec_sra(a, b),
        Inst::Or => a | b,
        Inst::And => a & b,
        Inst::Mul => to_u32(a * b),
        Inst::Mulh => spec_mulh(a, b),
        Inst::Mulhsu => spec_mulhsu(a, b),
        Inst::Mulhu => spec_mulhu(a, b),
        Inst::Div => spec_div(a, b),
        Inst::Divu => spec_divu(a, b),
        Inst::Rem => spec_rem(a, b),
        _ => spec_remu(a, b),
    }
}

pub open spec fn is_alu_rr(kind: Inst) -> bool {
    kind == Inst::Add || kind == Inst::Sub || kind == Inst::Sll || kind == Inst::Slt || kind
        == Inst::Sltu || kind == Inst::Xor || kind == Inst::Srl || kind == Inst::Sra || kind
        == Inst::Or || kind == Inst::And || kind == Inst::Mul || kind == Inst::Mulh || kind
        == Inst::Mulhsu || kind == Inst::Mulhu || kind == Inst::Div || kind == Inst::Divu || kind
        == Inst::Rem || kind == Inst::Remu
}

/// The result of a register-immediate ALU instruction (`imm` already sign-extended).
pub open spec fn spec_alu_ri(kind: Inst, a: u32, imm: u32) -> u32 {
    match kind {
        Inst::Addi => to_u32(a + imm),
        Inst::Slli => spec_sll(a, imm),
        Inst::Slti => spec_slt(a, imm),
        Inst::Sltiu => spec_sltu(a, imm),
        Inst::Xori => a ^ imm,
        Inst::Srli => spec_srl(a, imm),
        Inst::Srai => spec_sra(a, imm),
        Inst::Ori => a | imm,
        _ => a & imm,
    }
}

pub open spec fn is_alu_ri(kind: Inst) -> bool {
    kind == Inst::Addi || kind == Inst::Slli || kind == Inst::Slti || kind == Inst::Sltiu || kind
        == Inst::Xori || kind == Inst::Srli || kind == Inst::Srai || kind == Inst::Ori || kind
        == Inst::Andi
}

pub open spec fn branch_taken(kind: Inst, a: u32, b: u32) -> bool {
    match kind {
        Inst::Beq => a == b,
        Inst::Bne => a != b,
        Inst::Blt => sext32(a) < sext32(b),
        Inst::Bge => sext32(a) >= sext32(b),
        Inst::Bltu => a < b,
        _ => a >= b,
    }
}

pub open spec fn is_branch(kind: Inst) -> bool {
    kind == Inst::Beq || kind == Inst::Bne || kind == Inst::Blt || kind == Inst::Bge || kind
        == Inst::Bltu || kind == Inst::Bgeu
}

/// Width in bytes of a scalar load or store.
pub open spec fn access_width(kind: Inst) -> nat {
    match kind {
        Inst::Lb | Inst::Lbu | Inst::Sb => 1,
        Inst::Lh | Inst::Lhu | Inst::Sh => 2,
        _ => 4,
    }
}

pub open spec fn is_load(kind: Inst) -> bool {
    kind == Inst::Lb || kind == Inst::Lh || kind == Inst::Lw || kind == Inst::Lbu || kind
        == Inst::Lhu
}

pub open spec fn is_store(kind: Inst) -> bool {
    kind == Inst::Sb || kind == Inst::Sh || kind == Inst::Sw
}

/// The register value of a loaded byte/halfword/word: signed loads sign-extend.
pub open spec fn load_ext(kind: Inst, v: nat) -> u32 {
    match kind {
        Inst::Lb => if v >= 0x80 {
            (v + 0xFFFF_FF00) as u32
        } else {
            v as u32
        },
        Inst::Lh => if v >= 0x8000 {
            (v + 0xFFFF_0000) as u32
        } else {
            v as u32
        },
        _ => v as u32,
    }
}

/// The new value of the CSR for a CSR instruction reading `old`, with `src` the value of
/// `rs1` (register forms) or the `rs1` field itself (immediate forms).
pub open spec fn csr_new_value(op: SystemInst, old: u32, src: u32) -> u32 {
    match op {
        SystemInst::Csrrw | SystemInst::Csrrwi => src,
        SystemInst::Csrrs | SystemInst::Csrrsi => old | src,
        _ => old & !src,
    }
}

pub open spec fn csr_source(s: HartView, d: DecodedInst) -> u32 {
    match d.inst {
        Inst::System(SystemInst::Csrrwi) | Inst::System(SystemInst::Csrrsi) | Inst::System(
            SystemInst::Csrrci,
        ) => d.rs1 as u32,
        _ => reg(s, d.rs1),
    }
}

/// The CSR instructions (not `ebreak`) name a CSR this hart implements.
pub open spec fn csr_ok(s: HartView, d: DecodedInst) -> bool {
    match d.inst {
        Inst::System(op) => op == SystemInst::Ebreak || spec_read_csr(
            s.csr,
            s.cfg.vlenb,
            d.imm,
        ).is_some(),
        _ => true,
    }
}

/// The custom-0 accelerator instructions.
pub open spec fn spec_exec_cus0(s: HartView, op: Cus0Inst, d: DecodedInst) -> HartView {
    match s.accel {
        None => spec_trap(s),
        Some(a) => match op {
            Cus0Inst::NnLoadAct => {
                let idx = sext32(reg(s, d.rs1));
                let val = (reg(s, d.rs2) % 256) as u8 as i8;
                let input = if 0 <= idx < INPUT_LEN {
                    a.input.update(idx, val)
                } else {
                    a.input
                };
                HartView { accel: Some(AccelView { input, ..a }), ..retire(s) }
            },
            Cus0Inst::NnStart => HartView {
                accel: Some(AccelView { logits: a.weights.spec_forward(a.input), ..a }),
                ..retire(s)
            },
            Cus0Inst::NnLoad => {
                let k = sext32(reg(s, d.rs1));
                let idx = if k < 0 {
                    0
                } else if k > 9 {
                    9
                } else {
                    k
                };
                retire_rd(s, d.rd, a.logits[idx] as u32)
            },
        },
    }
}

pub open spec fn is_upper_or_jump(kind: Inst) -> bool {
    kind == Inst::Lui || kind == Inst::Auipc || kind == Inst::Jal || kind == Inst::Jalr
}

/// LUI, AUIPC, JAL, JALR.
pub open spec fn spec_exec_upper_jump(s: HartView, d: DecodedInst) -> HartView {
    let k = d.inst;
    if k == Inst::Lui {
        retire_rd(s, d.rd, d.imm)
    } else if k == Inst::Auipc {
        retire_rd(s, d.rd, to_u32(s.pc + d.imm))
    } else if k == Inst::Jal {
        HartView { gpr: write_gpr(s.gpr, d.rd, pc_plus4(s)), pc: to_u32(s.pc + d.imm), ..s }
    } else {
        HartView {
            gpr: write_gpr(s.gpr, d.rd, pc_plus4(s)),
            pc: (to_u32(reg(s, d.rs1) + d.imm) / 2 * 2) as u32,
            ..s
        }
    }
}

pub open spec fn spec_exec_branch(s: HartView, d: DecodedInst) -> HartView {
    HartView {
        pc: if branch_taken(d.inst, reg(s, d.rs1), reg(s, d.rs2)) {
            to_u32(s.pc + d.imm)
        } else {
            pc_plus4(s)
        },
        ..s
    }
}

/// The effective address of a scalar load or store.
pub open spec fn eff_addr(s: HartView, d: DecodedInst) -> u32 {
    to_u32(reg(s, d.rs1) + d.imm)
}

pub open spec fn spec_exec_load(s: HartView, d: DecodedInst) -> (HartView, Result<(), StateError>) {
    let addr = eff_addr(s, d);
    let n = access_width(d.inst);
    if mapped(s.base, s.mem.len(), addr, n) {
        (retire_rd(s, d.rd, load_ext(d.inst, load_le(s.mem, addr - s.base, n))), Ok(()))
    } else {
        (s, Err(StateError::Unmapped(addr)))
    }
}

pub open spec fn spec_exec_store(s: HartView, d: DecodedInst) -> (HartView, Result<(), StateError>) {
    let addr = eff_addr(s, d);
    let n = access_width(d.inst);
    if mapped(s.base, s.mem.len(), addr, n) {
        (
            HartView { mem: store_le(s.mem, addr - s.base, n, reg(s, d.rs2) as nat), ..retire(s) },
            Ok(()),
        )
    } else {
        (s, Err(StateError::Unmapped(addr)))
    }
}

/// A CSR instruction: read the old value into `rd`, write the new one.
pub open spec fn spec_exec_csr(s: HartView, op: SystemInst, d: DecodedInst) -> HartView {
    let old = spec_read_csr(s.csr, s.cfg.vlenb, d.imm).unwrap();
    let new = csr_new_value(op, old, csr_source(s, d));
    HartView {
        csr: spec_write_csr(s.csr, d.imm, new),
        gpr: write_gpr(s.gpr, d.rd, old),
        pc: pc_plus4(s),
        ..s
    }
}

/// The meaning of a scalar instruction: the next state and whether the step completed.
/// Instructions this hart does not execute (the RV64 word forms, `Unknown`) trap as illegal.
pub open spec fn spec_exec_scalar(s: HartView, d: DecodedInst) -> (HartView, Result<(), StateError>) {
    let k = d.inst;
    if is_upper_or_jump(k) {
        (spec_exec_upper_jump(s, d), Ok(()))
    } else if is_branch(k) {
        (spec_exec_branch(s, d), Ok(()))
    } else if is_alu_ri(k) {
        (retire_rd(s, d.rd, spec_alu_ri(k, reg(s, d.rs1), d.imm)), Ok(()))
    } else if is_alu_rr(k) {
        (retire_rd(s, d.rd, spec_alu_rr(k, reg(s, d.rs1), reg(s, d.rs2))), Ok(()))
    } else if is_load(k) {
        spec_exec_load(s, d)
    } else if is_store(k) {
        spec_exec_store(s, d)
    } else {
        match k {
            Inst::MiscMem(_) => (retire(s), Ok(())),
            Inst::System(SystemInst::Ebreak) => (s, Err(StateError::BreakpointHit(s.pc))),
            Inst::System(op) => (spec_exec_csr(s, op, d), Ok(())),
            Inst::Cus0(op) => (spec_exec_cus0(s, op, d), Ok(())),
            _ => (spec_trap(s), Ok(())),
        }
    }
}

pub open spec fn is_vector(kind: Inst) -> bool {
    kind is V || kind is LoadFp || kind is StoreFp
}

/// Register fields hold register numbers.
pub open spec fn fields_ok(d: DecodedInst) -> bool {
    d.rd < 32 && d.rs1 < 32 && d.rs2 < 32
}

/// A word read as a two's-complement signed integer.
pub fn as_signed(x: u32) -> (r: i32)
    ensures
        r as int == sext32(x),
{
    let r = #[verifier::truncate] (x as i32);
    assert(r as int == sext32(x)) by {
        crate::alu::lemma_word_sign(x, r, (r as i64) as u64);
    }
    r
}

impl Hart {
    pub(crate) fn get(&self, r: u8) -> (v: u32)
        requires
            self.wf(),
            r < 32,
        ensures
            v == reg(self@, r),
    {
        self.gpr[r as usize]
    }

    pub(crate) fn set(&mut self, r: u8, v: u32)
        requires
            old(self).wf(),
            r < 32,
        ensures
            final(self).wf(),
            final(self)@ == (HartView { gpr: write_gpr(old(self)@.gpr, r, v), ..old(self)@ }),
            final(self).accel == old(self).accel,
    {
        if r != 0 {
            self.gpr[r as usize] = v;
        }
    }

    pub(crate) fn advance(&mut self)
        requires
            old(self).wf(),
        ensures
            final(self).wf(),
            final(self)@ == retire(old(self)@),
            final(self).accel == old(self).accel,
    {
        self.pc = self.pc.wrapping_add(4);
    }

    /// Illegal-instruction trap (M-mode).
    pub fn trap_illegal_instruction(&mut self)
        requires
            old(self).wf(),
        ensures
            final(self).wf(),
            final(self)@ == spec_trap(old(self)@),
            final(self).accel == old(self).accel,
    {
        self.csr.mepc = self.pc;
        self.csr.mcause = MCAUSE_ILLEGAL_INSTRUCTION;
        self.csr.mtval = 0;
        self.csr.apply_trap_entry();
        self.pc = self.csr.mtvec & !3u32;
    }

    fn exec_cus0(&mut self, op: Cus0Inst, d: &DecodedInst)
        requires
            old(self).wf(),
            fields_ok(*d),
        ensures
            final(self).wf(),
            final(self)@ == spec_exec_cus0(old(self)@, op, *d),
    {
        if self.accel.is_none() {
            self.trap_illegal_instruction();
            return;
        }
        match op {
            Cus0Inst::NnLoadAct => {
                let idx = as_signed(self.get(d.rs1));
                let v = self.get(d.rs2);
                let val = #[verifier::truncate] (v as u8 as i8);
                assert(val == (v % 256) as u8 as i8) by (bit_vector)
                    requires
                        val == v as u8 as i8,
                ;
                let mut a = self.accel.take().unwrap();
                if idx >= 0 {
                    a.buffer_load_act(idx as usize, val);
                }
                self.accel = Some(a);
            },
            Cus0Inst::NnStart => {
                let mut a = self.accel.take().unwrap();
                a.run_inference();
                self.accel = Some(a);
            },
            Cus0Inst::NnLoad => {
                let k = as_signed(self.get(d.rs1));
                let idx: usize = if k < 0 {
                    0
                } else if k > 9 {
                    9
                } else {
                    k as usize
                };
                let logit = match &self.accel {
                    Some(a) => a.read_logit(idx),
                    None => 0,
                };
                self.set(d.rd, logit as u32);
                self.pc = self.pc.wrapping_add(4);
                return;
            },
        }
        self.pc = self.pc.wrapping_add(4);
    }

    fn exec_upper_jump(&mut self, d: &DecodedInst)
        requires
            old(self).wf(),
            fields_ok(*d),
            is_upper_or_jump(d.inst),
        ensures
            final(self).wf(),
            final(self)@ == spec_exec_upper_jump(old(self)@, *d),
    {
        match d.inst {
            Inst::Lui => {
                self.set(d.rd, d.imm);
                self.advance();
            },
            Inst::Auipc => {
                let v = self.pc.wrapping_add(d.imm);
                self.set(d.rd, v);
                self.advance();
            },
            Inst::Jal => {
                let link = self.pc.wrapping_add(4);
                let target = self.pc.wrapping_add(d.imm);
                self.set(d.rd, link);
                self.pc = target;
            },
            _ => {
                let base = self.get(d.rs1);
                let link = self.pc.wrapping_add(4);
                let t = base.wrapping_add(d.imm);
                let target = t & !1u32;
                assert(target == t / 2 * 2) by {
        crate::bits::lemma_u32_fields(t);
    }
                self.set(d.rd, link);
                self.pc = target;
            },
        }
    }

    fn exec_branch(&mut self, d: &DecodedInst)
        requires
            old(self).wf(),
            fields_ok(*d),
            is_branch(d.inst),
        ensures
            final(self).wf(),
            final(self)@ == spec_exec_branch(old(self)@, *d),
    {
        let a = self.get(d.rs1);
        let b = self.get(d.rs2);
        let taken = match d.inst {
            Inst::Beq => a == b,
            Inst::Bne => a != b,
            Inst::Blt => alu_slt(a, b) == 1,
            Inst::Bge => alu_slt(a, b) == 0,
            Inst::Bltu => a < b,
            _ => a >= b,
        };
        if taken {
            self.pc = self.pc.wrapping_add(d.imm);
        } else {
            self.pc = self.pc.wrapping_add(4);
        }
    }

    fn exec_alu_ri(&mut self, d: &DecodedInst)
        requires
            old(self).wf(),
            fields_ok(*d),
            is_alu_ri(d.inst),
        ensures
            final(self).wf(),
            final(self)@ == retire_rd(
                old(self)@,
                d.rd,
                spec_alu_ri(d.inst, reg(old(self)@, d.rs1), d.imm),
            ),
    {
        let a = self.get(d.rs1);
        let imm = d.imm;
        let v = match d.inst {
            Inst::Addi => alu_add(a, imm),
            Inst::Slli => alu_sll(a, imm),
            Inst::Slti => alu_slt(a, imm),
            Inst::Sltiu => alu_sltu(a, imm),
            Inst::Xori => a ^ imm,
            Inst::Srli => alu_srl(a, imm),
            Inst::Srai => alu_sra(a, imm),
            Inst::Ori => a | imm,
            _ => a & imm,
        };
        self.set(d.rd, v);
        self.advance();
    }

    fn alu_rr(k: Inst, a: u32, b: u32) -> (v: u32)
        requires
            is_alu_rr(k),
        ensures
            v == spec_alu_rr(k, a, b),
    {
        match k {
            Inst::Add => alu_add(a, b),
            Inst::Sub => alu_sub(a, b),
            Inst::Sll => alu_sll(a, b),
            Inst::Slt => alu_slt(a, b),
            Inst::Sltu => alu_sltu(a, b),
            Inst::Xor => a ^ b,
            Inst::Srl => alu_srl(a, b),
            Inst::Sra => alu_sra(a, b),
            Inst::Or => a | b,
            Inst::And => a & b,
            Inst::Mul => alu_mul(a, b),
            Inst::Mulh => alu_mulh(a, b),
            Inst::Mulhsu => alu_mulhsu(a, b),
            Inst::Mulhu => alu_mulhu(a, b),
            Inst::Div => alu_div(a, b),
            Inst::Divu => alu_divu(a, b),
            Inst::Rem => alu_rem(a, b),
            _ => alu_remu(a, b),
        }
    }

    fn exec_alu_rr(&mut self, d: &DecodedInst)
        requires
            old(self).wf(),
            fields_ok(*d),
            is_alu_rr(d.inst),
        ensures
            final(self).wf(),
            final(self)@ == retire_rd(
                old(self)@,
                d.rd,
                spec_alu_rr(d.inst, reg(old(self)@, d.rs1), reg(old(self)@, d.rs2)),
            ),
    {
        let a = self.get(d.rs1);
        let b = self.get(d.rs2);
        let v = Self::alu_rr(d.inst, a, b);
        self.set(d.rd, v);
        self.advance();
    }

    fn exec_load(&mut self, d: &DecodedInst) -> (r: Result<(), StateError>)
        requires
            old(self).wf(),
            fields_ok(*d),
            is_load(d.inst),
        ensures
            final(self).wf(),
            (final(self)@, r) == spec_exec_load(old(self)@, *d),
    {
        let k = d.inst;
        let addr = self.get(d.rs1).wrapping_add(d.imm);
        let n: u32 = match k {
            Inst::Lb | Inst::Lbu => 1,
            Inst::Lh | Inst::Lhu => 2,
            _ => 4,
        };
        let raw = match self.bus.read(addr, n) {
            Ok(v) => v,
            Err(e) => {
                return Err(e);
            },
        };
        proof {
            lemma_load_le_bound(self.bus.mem@, addr - self.bus.base, n as nat);
            reveal_with_fuel(crate::bus::pow256, 5);
        }
        let v = match k {
            Inst::Lb => {
                if raw >= 0x80 {
                    raw + 0xFFFF_FF00
                } else {
                    raw
                }
            },
            Inst::Lh => {
                if raw >= 0x8000 {
                    raw + 0xFFFF_0000
                } else {
                    raw
                }
            },
            _ => raw,
        };
        self.set(d.rd, v);
        self.advance();
        Ok(())
    }

    fn exec_store(&mut self, d: &DecodedInst) -> (r: Result<(), StateError>)
        requires
            old(self).wf(),
            fields_ok(*d),
            is_store(d.inst),
        ensures
            final(self).wf(),
            (final(self)@, r) == spec_exec_store(old(self)@, *d),
    {
        let addr = self.get(d.rs1).wrapping_add(d.imm);
        let v = self.get(d.rs2);
        let n: u32 = match d.inst {
            Inst::Sb => 1,
            Inst::Sh => 2,
            _ => 4,
        };
        match self.bus.write(addr, n, v) {
            Ok(()) => {},
            Err(e) => {
                return Err(e);
            },
        }
        proof {
            crate::bus::lemma_store_le_len(
                old(self).bus.mem@,
                addr - old(self).bus.base,
                n as nat,
                v as nat,
            );
        }
        self.advance();
        Ok(())
    }

    fn exec_csr(&mut self, op: SystemInst, d: &DecodedInst)
        requires
            old(self).wf(),
            fields_ok(*d),
            d.inst == Inst::System(op),
            op != SystemInst::Ebreak,
            spec_read_csr(old(self).csr, old(self).cfg.vlenb, d.imm).is_some(),
        ensures
            final(self).wf(),
            final(self)@ == spec_exec_csr(old(self)@, op, *d),
    {
        let old_v = match self.csr.read(self.cfg.vlenb, d.imm) {
            Some(v) => v,
            None => 0,
        };
        let src = match op {
            SystemInst::Csrrwi | SystemInst::Csrrsi | SystemInst::Csrrci => d.rs1 as u32,
            _ => self.get(d.rs1),
        };
        let new_v = match op {
            SystemInst::Csrrw | SystemInst::Csrrwi => src,
            SystemInst::Csrrs | SystemInst::Csrrsi => old_v | src,
            _ => old_v & !src,
        };
        self.csr.write(d.imm, new_v);
        self.set(d.rd, old_v);
        self.advance();
    }

    /// Executes one scalar instruction.
    pub fn execute_scalar(&mut self, d: &DecodedInst) -> (r: Result<(), StateError>)
        requires
            old(self).wf(),
            fields_ok(*d),
            !is_vector(d.inst),
            csr_ok(old(self)@, *d),
        ensures
            final(self).wf(),
            (final(self)@, r) == spec_exec_scalar(old(self)@, *d),
    {
        let k = d.inst;
        match k {
            Inst::Lui | Inst::Auipc | Inst::Jal | Inst::Jalr => {
                self.exec_upper_jump(d);
                Ok(())
            },
            Inst::Beq | Inst::Bne | Inst::Blt | Inst::Bge | Inst::Bltu | Inst::Bgeu => {
                self.exec_branch(d);
                Ok(())
            },
            Inst::Addi | Inst::Slli | Inst::Slti | Inst::Sltiu | Inst::Xori | Inst::Srli
            | Inst::Srai | Inst::Ori | Inst::Andi => {
                self.exec_alu_ri(d);
                Ok(())
            },
            Inst::Add | Inst::Sub | Inst::Sll | Inst::Slt | Inst::Sltu | Inst::Xor | Inst::Srl
            | Inst::Sra | Inst::Or | Inst::And | Inst::Mul | Inst::Mulh | Inst::Mulhsu
            | Inst::Mulhu | Inst::Div | Inst::Divu | Inst::Rem | Inst::Remu => {
                self.exec_alu_rr(d);
                Ok(())
            },
            Inst::Lb | Inst::Lh | Inst::Lw | Inst::Lbu | Inst::Lhu => self.exec_load(d),
            Inst::Sb | Inst::Sh | Inst::Sw => self.exec_store(d),
            Inst::MiscMem(_) => {
                self.advance();
                Ok(())
            },
            Inst::System(SystemInst::Ebreak) => Err(StateError::BreakpointHit(self.pc)),
            Inst::System(op) => {
                self.exec_csr(op, d);
                Ok(())
            },
            Inst::Cus0(op) => {
                self.exec_cus0(op, d);
                Ok(())
            },
            _ => {
                self.trap_illegal_instruction();
                Ok(())
            },
        }
    }
}

} // verus!
