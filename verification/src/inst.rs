//! Decoded instruction forms.

use vstd::prelude::*;

verus! {

/// What the decoder needs to know of the target ISA.
#[derive(Clone, Copy, Debug, PartialEq, Eq, Structural)]
pub struct IsaConfig {
    /// The M extension (multiply/divide) is present.
    pub has_m: bool,
    /// Vector register width in bytes; `0` means no V extension.
    pub vlenb: u32,
    /// The custom-0 MNIST accelerator extension is present.
    pub has_cus0: bool,
}

#[derive(Clone, Copy, Debug, PartialEq, Eq, Structural)]
pub enum LoadFpInst {
    /// vle8.v: unit-stride load of 8-bit elements.
    Vle8,
    /// vlseg4e8.v: four-field segment load of 8-bit elements.
    Vlseg4e8,
    /// vl1re16.v: whole-register load of one register.
    Vl1re16,
    /// vl2re16.v: whole-register load of two registers.
    Vl2re16,
    /// vl2re32.v: whole-register load of two registers.
    Vl2re32,
    /// vlse32.v: strided load of 32-bit elements.
    Vlse32,
}

#[derive(Clone, Copy, Debug, PartialEq, Eq, Structural)]
pub enum StoreFpInst {
    /// vs1r.v: whole-register store.
    Vs1r,
    /// vse8.v: unit-stride store of 8-bit elements.
    Vse8,
    /// vse32.v: unit-stride store of 32-bit elements.
    Vse32,
}

#[derive(Clone, Copy, Debug, PartialEq, Eq, Structural)]
pub enum MiscMemInst {
    Fence,
    FenceI,
}

#[derive(Clone, Copy, Debug, PartialEq, Eq, Structural)]
pub enum SystemInst {
    Csrrw,
    Csrrs,
    Csrrc,
    Csrrwi,
    Csrrsi,
    Csrrci,
    Ebreak,
}

#[derive(Clone, Copy, Debug, PartialEq, Eq, Structural)]
pub enum Cus0Inst {
    /// Buffer one input activation: index in `rs1`, value in `rs2`.
    NnLoadAct,
    /// Run the network on the buffered input.
    NnStart,
    /// Read one output logit: index in `rs1`, destination `rd`.
    NnLoad,
}

#[derive(Clone, Copy, Debug, PartialEq, Eq, Structural)]
pub enum OpCfgInst {
    Vsetivli,
    Vsetvli,
}

#[derive(Clone, Copy, Debug, PartialEq, Eq, Structural)]
pub enum OpIvvInst {
    VsubVv,
    VorVv,
    VmaxVv,
    VmsneVv,
}

#[derive(Clone, Copy, Debug, PartialEq, Eq, Structural)]
pub enum OpMvvInst {
    VredsumVs,
    VredmaxVs,
    VidV,
    VmvXS,
    VfirstM,
    VsextVf4,
    VzextVf4,
    VsextVf2,
    VzextVf2,
    VmorMm,
    VmaccVv,
    VwmuluVv,
    VwmaccVv,
}

#[derive(Clone, Copy, Debug, PartialEq, Eq, Structural)]
pub enum OpIviInst {
    VmergeVim,
    VmseqVi,
    VmsneVi,
    VmsleVi,
    VmvNrV,
    VrsubVi,
    VaddVi,
    VandVi,
    VslidedownVi,
    VslideupVi,
    VsllVi,
    VsrlVi,
}

#[derive(Clone, Copy, Debug, PartialEq, Eq, Structural)]
pub enum OpIvxInst {
    VmergeVxm,
    VaddVx,
    VandVx,
    VmsltVx,
    VmseqVx,
    VsllVx,
    VsrlVx,
}

#[derive(Clone, Copy, Debug, PartialEq, Eq, Structural)]
pub enum OpMvxInst {
    VmvSX,
    Vslide1downVx,
    VwmulVx,
}

/// A vector instruction, grouped by its funct3 category.
#[derive(Clone, Copy, Debug, PartialEq, Eq, Structural)]
pub enum VInst {
    OpCfg(OpCfgInst),
    OpIvv(OpIvvInst),
    OpMvv(OpMvvInst),
    OpIvi(OpIviInst),
    OpIvx(OpIvxInst),
    OpMvx(OpMvxInst),
}

/// One variant per concrete instruction.
#[derive(Clone, Copy, Debug, PartialEq, Eq, Structural)]
pub enum Inst {
    Lui,
    Auipc,
    Jal,
    Jalr,
    Beq,
    Bne,
    Blt,
    Bge,
    Bltu,
    Bgeu,
    Addi,
    Slli,
    Slti,
    Sltiu,
    Xori,
    Srli,
    Srai,
    Ori,
    Andi,
    Add,
    Sub,
    Sll,
    Slt,
    Sltu,
    Xor,
    Srl,
    Sra,
    Or,
    And,
    Mul,
    Mulh,
    Mulhsu,
    Mulhu,
    Div,
    Divu,
    Rem,
    Remu,
    Addw,
    Subw,
    Sllw,
    Srlw,
    Sraw,
    Mulw,
    Divw,
    Divuw,
    Remw,
    Remuw,
    Addiw,
    Slliw,
    Srliw,
    Sraiw,
    Lb,
    Lh,
    Lw,
    Lbu,
    Lhu,
    Sb,
    Sh,
    Sw,
    LoadFp(LoadFpInst),
    StoreFp(StoreFpInst),
    MiscMem(MiscMemInst),
    System(SystemInst),
    V(VInst),
    Cus0(Cus0Inst),
    Unknown,
}

/// A decoded instruction: operand fields and the instruction kind.
#[derive(Clone, Copy, Debug, PartialEq, Eq, Structural)]
pub struct DecodedInst {
    pub rs1: u8,
    pub rs2: u8,
    pub rd: u8,
    pub imm: u32,
    pub inst: Inst,
}

/// The decoding of a word that names no instruction.
pub open spec fn spec_unknown() -> DecodedInst {
    DecodedInst { rs1: 0, rs2: 0, rd: 0, imm: 0, inst: Inst::Unknown }
}

impl DecodedInst {
    pub fn unknown() -> (r: DecodedInst)
        ensures
            r == spec_unknown(),
    {
        DecodedInst { rs1: 0, rs2: 0, rd: 0, imm: 0, inst: Inst::Unknown }
    }
}

impl Default for DecodedInst {
    fn default() -> (r: DecodedInst)
        ensures
            r == spec_unknown(),
    {
        DecodedInst::unknown()
    }
}

} // verus!
