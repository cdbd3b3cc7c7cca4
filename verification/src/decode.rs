//! The instruction decoder: from a 32-bit instruction word to a `DecodedInst`.

use vstd::prelude::*;
use crate::bits::{
    opcode, spec_opcode, csr, funct3, funct7, imm_b, imm_i, imm_j, imm_s, imm_u, rd, rs1, rs2, spec_csr, spec_funct3,
    spec_funct7, spec_imm_b, spec_imm_i, spec_imm_j, spec_imm_s, spec_imm_u, spec_rd, spec_rs1,
    spec_rs2,
};
use crate::bits::{
    funct6, lumop, mop, nf, simm5, spec_funct6, spec_lumop, spec_mop, spec_nf, spec_simm5,
    spec_top2, spec_vm, top2, vm,
};
use crate::inst::{
    spec_unknown, Cus0Inst, DecodedInst, Inst, IsaConfig, LoadFpInst, MiscMemInst, OpCfgInst,
    OpIviInst, OpIvvInst, OpIvxInst, OpMvvInst, OpMvxInst, StoreFpInst, SystemInst, VInst,
};

verus! {

pub const OPCODE_LUI: u32 = 0x37;
pub const OPCODE_AUIPC: u32 = 0x17;
pub const OPCODE_JAL: u32 = 0x6f;
pub const OPCODE_JALR: u32 = 0x67;
pub const OPCODE_BRANCH: u32 = 0x63;
pub const OPCODE_LOAD: u32 = 0x03;
pub const OPCODE_LOAD_FP: u32 = 0x07;
pub const OPCODE_STORE: u32 = 0x23;
pub const OPCODE_STORE_FP: u32 = 0x27;
pub const OPCODE_OP_IMM: u32 = 0x13;
pub const OPCODE_OP_IMM_W: u32 = 0x1b;
pub const OPCODE_OP: u32 = 0x33;
pub const OPCODE_OP_W: u32 = 0x3b;
pub const OPCODE_MISC_MEM: u32 = 0x0f;
pub const OPCODE_SYSTEM: u32 = 0x73;
pub const OPCODE_OP_V: u32 = 0x57;
pub const OPCODE_CUS0: u32 = 0x0b;

/// The encoding of `ebreak`.
pub const EBREAK_INST: u32 = 0x0010_0073;

/// The encoding of the accelerator's start instruction: custom-0 opcode, funct3 = 1, all other bits zero.
pub const ENCODE_NN_START: u32 = 0x100b;

/// An instruction built from the fields of `inst` in the usual places, or the unknown
/// instruction when `kind` is `Unknown`.
pub open spec fn with_fields(kind: Inst, rd: u8, rs1: u8, rs2: u8, imm: u32) -> DecodedInst {
    if kind == Inst::Unknown {
        spec_unknown()
    } else {
        DecodedInst { rd, rs1, rs2, imm, inst: kind }
    }
}

// ---------------------------------------------------------------------------
// Base integer opcodes
// ---------------------------------------------------------------------------
pub open spec fn spec_decode_lui(inst: u32) -> DecodedInst {
    DecodedInst { rs1: 0, rs2: 0, rd: spec_rd(inst), imm: spec_imm_u(inst), inst: Inst::Lui }
}

pub open spec fn spec_decode_auipc(inst: u32) -> DecodedInst {
    DecodedInst { rs1: 0, rs2: 0, rd: spec_rd(inst), imm: spec_imm_u(inst), inst: Inst::Auipc }
}

pub open spec fn spec_decode_jal(inst: u32) -> DecodedInst {
    DecodedInst { rs1: 0, rs2: 0, rd: spec_rd(inst), imm: spec_imm_j(inst), inst: Inst::Jal }
}

pub open spec fn spec_decode_jalr(inst: u32) -> DecodedInst {
    DecodedInst {
        rs1: spec_rs1(inst),
        rs2: 0,
        rd: spec_rd(inst),
        imm: spec_imm_i(inst),
        inst: Inst::Jalr,
    }
}

pub open spec fn branch_kind(f3: u32) -> Inst {
    match f3 {
        0 => Inst::Beq,
        1 => Inst::Bne,
        4 => Inst::Blt,
        5 => Inst::Bge,
        6 => Inst::Bltu,
        7 => Inst::Bgeu,
        _ => Inst::Unknown,
    }
}

pub open spec fn spec_decode_branch(inst: u32) -> DecodedInst {
    with_fields(branch_kind(spec_funct3(inst)), 0, spec_rs1(inst), spec_rs2(inst), spec_imm_b(inst))
}

pub open spec fn load_kind(f3: u32) -> Inst {
    match f3 {
        0 => Inst::Lb,
        1 => Inst::Lh,
        2 => Inst::Lw,
        4 => Inst::Lbu,
        5 => Inst::Lhu,
        _ => Inst::Unknown,
    }
}

pub open spec fn spec_decode_load(inst: u32) -> DecodedInst {
    with_fields(load_kind(spec_funct3(inst)), spec_rd(inst), spec_rs1(inst), 0, spec_imm_i(inst))
}

pub open spec fn store_kind(f3: u32) -> Inst {
    match f3 {
        0 => Inst::Sb,
        1 => Inst::Sh,
        2 => Inst::Sw,
        _ => Inst::Unknown,
    }
}

pub open spec fn spec_decode_store(inst: u32) -> DecodedInst {
    with_fields(store_kind(spec_funct3(inst)), 0, spec_rs1(inst), spec_rs2(inst), spec_imm_s(inst))
}

/// OP-IMM: for the right shifts funct7's low bit is the RV64 shamt\[5\] and is ignored.
pub open spec fn op_imm_kind(f3: u32, f7: u32) -> Inst {
    match f3 {
        0 => Inst::Addi,
        1 => Inst::Slli,
        2 => Inst::Slti,
        3 => Inst::Sltiu,
        4 => Inst::Xori,
        5 => if f7 / 2 == 0 {
            Inst::Srli
        } else if f7 / 2 == 0x10 {
            Inst::Srai
        } else {
            Inst::Unknown
        },
        6 => Inst::Ori,
        _ => Inst::Andi,
    }
}

pub open spec fn spec_decode_op_imm(inst: u32) -> DecodedInst {
    with_fields(
        op_imm_kind(spec_funct3(inst), spec_funct7(inst)),
        spec_rd(inst),
        spec_rs1(inst),
        0,
        spec_imm_i(inst),
    )
}

pub open spec fn op_kind(f3: u32, f7: u32, has_m: bool) -> Inst {
    if f7 == 0 {
        match f3 {
            0 => Inst::Add,
            1 => Inst::Sll,
            2 => Inst::Slt,
            3 => Inst::Sltu,
            4 => Inst::Xor,
            5 => Inst::Srl,
            6 => Inst::Or,
            _ => Inst::And,
        }
    } else if f7 == 0x20 {
        match f3 {
            0 => Inst::Sub,
            5 => Inst::Sra,
            _ => Inst::Unknown,
        }
    } else if f7 == 1 && has_m {
        match f3 {
            0 => Inst::Mul,
            1 => Inst::Mulh,
            2 => Inst::Mulhsu,
            3 => Inst::Mulhu,
            4 => Inst::Div,
            5 => Inst::Divu,
            6 => Inst::Rem,
            _ => Inst::Remu,
        }
    } else {
        Inst::Unknown
    }
}

pub open spec fn spec_decode_op(cfg: IsaConfig, inst: u32) -> DecodedInst {
    with_fields(
        op_kind(spec_funct3(inst), spec_funct7(inst), cfg.has_m),
        spec_rd(inst),
        spec_rs1(inst),
        spec_rs2(inst),
        0,
    )
}

/// RV64 OP-32: the word forms; the M word forms use their own funct3 table.
pub open spec fn op_w_kind(f3: u32, f7: u32, has_m: bool) -> Inst {
    if f7 == 0 {
        match f3 {
            0 => Inst::Addw,
            1 => Inst::Sllw,
            5 => Inst::Srlw,
            _ => Inst::Unknown,
        }
    } else if f7 == 0x20 {
        match f3 {
            0 => Inst::Subw,
            5 => Inst::Sraw,
            _ => Inst::Unknown,
        }
    } else if f7 == 1 && has_m {
        match f3 {
            0 => Inst::Mulw,
            1 => Inst::Divw,
            5 => Inst::Divuw,
            6 => Inst::Remw,
            7 => Inst::Remuw,
            _ => Inst::Unknown,
        }
    } else {
        Inst::Unknown
    }
}

pub open spec fn spec_decode_op_w(cfg: IsaConfig, inst: u32) -> DecodedInst {
    with_fields(
        op_w_kind(spec_funct3(inst), spec_funct7(inst), cfg.has_m),
        spec_rd(inst),
        spec_rs1(inst),
        spec_rs2(inst),
        0,
    )
}

pub open spec fn op_imm_w_kind(f3: u32, f7: u32) -> Inst {
    match f3 {
        0 => Inst::Addiw,
        1 => Inst::Slliw,
        5 => if f7 == 0 {
            Inst::Srliw
        } else if f7 == 0x20 {
            Inst::Sraiw
        } else {
            Inst::Unknown
        },
        _ => Inst::Unknown,
    }
}

pub open spec fn spec_decode_op_imm_w(inst: u32) -> DecodedInst {
    with_fields(
        op_imm_w_kind(spec_funct3(inst), spec_funct7(inst)),
        spec_rd(inst),
        spec_rs1(inst),
        0,
        spec_imm_i(inst),
    )
}

pub open spec fn spec_decode_misc_mem(inst: u32) -> DecodedInst {
    DecodedInst {
        rs1: 0,
        rs2: 0,
        rd: 0,
        imm: 0,
        inst: Inst::MiscMem(
            if spec_funct3(inst) == 1 {
                MiscMemInst::FenceI
            } else {
                MiscMemInst::Fence
            },
        ),
    }
}

pub open spec fn system_kind(f3: u32) -> Inst {
    match f3 {
        1 => Inst::System(SystemInst::Csrrw),
        2 => Inst::System(SystemInst::Csrrs),
        3 => Inst::System(SystemInst::Csrrc),
        5 => Inst::System(SystemInst::Csrrwi),
        6 => Inst::System(SystemInst::Csrrsi),
        7 => Inst::System(SystemInst::Csrrci),
        _ => Inst::Unknown,
    }
}

/// SYSTEM: the CSR instructions carry the CSR address in `imm`; `ebreak` is recognised by its
/// full encoding.
pub open spec fn spec_decode_system(inst: u32) -> DecodedInst {
    if inst == EBREAK_INST {
        DecodedInst { rs1: 0, rs2: 0, rd: 0, imm: 0, inst: Inst::System(SystemInst::Ebreak) }
    } else {
        with_fields(
            system_kind(spec_funct3(inst)),
            spec_rd(inst),
            spec_rs1(inst),
            0,
            spec_csr(inst),
        )
    }
}

pub open spec fn spec_decode_cus0(inst: u32) -> DecodedInst {
    let f3 = spec_funct3(inst);
    if f3 == 0 && spec_funct7(inst) == 0 {
        DecodedInst {
            rd: spec_rd(inst),
            rs1: spec_rs1(inst),
            rs2: spec_rs2(inst),
            imm: 0,
            inst: Inst::Cus0(Cus0Inst::NnLoadAct),
        }
    } else if f3 == 1 && inst == ENCODE_NN_START {
        DecodedInst { rd: 0, rs1: 0, rs2: 0, imm: 0, inst: Inst::Cus0(Cus0Inst::NnStart) }
    } else if f3 == 2 && spec_imm_i(inst) == 0 {
        DecodedInst {
            rd: spec_rd(inst),
            rs1: spec_rs1(inst),
            rs2: 0,
            imm: 0,
            inst: Inst::Cus0(Cus0Inst::NnLoad),
        }
    } else {
        spec_unknown()
    }
}

// ---------------------------------------------------------------------------
// Exec decoders
// ---------------------------------------------------------------------------
pub fn decode_lui(inst: u32) -> (r: DecodedInst)
    ensures
        r == spec_decode_lui(inst),
{
    DecodedInst { rs1: 0, rs2: 0, rd: rd(inst), imm: imm_u(inst), inst: Inst::Lui }
}

pub fn decode_auipc(inst: u32) -> (r: DecodedInst)
    ensures
        r == spec_decode_auipc(inst),
{
    DecodedInst { rs1: 0, rs2: 0, rd: rd(inst), imm: imm_u(inst), inst: Inst::Auipc }
}

pub fn decode_jal(inst: u32) -> (r: DecodedInst)
    ensures
        r == spec_decode_jal(inst),
{
    DecodedInst { rs1: 0, rs2: 0, rd: rd(inst), imm: imm_j(inst), inst: Inst::Jal }
}

pub fn decode_jalr(inst: u32) -> (r: DecodedInst)
    ensures
        r == spec_decode_jalr(inst),
{
    DecodedInst { rs1: rs1(inst), rs2: 0, rd: rd(inst), imm: imm_i(inst), inst: Inst::Jalr }
}

pub fn decode_branch(inst: u32) -> (r: DecodedInst)
    ensures
        r == spec_decode_branch(inst),
{
    let kind = match funct3(inst) {
        0 => Inst::Beq,
        1 => Inst::Bne,
        4 => Inst::Blt,
        5 => Inst::Bge,
        6 => Inst::Bltu,
        7 => Inst::Bgeu,
        _ => {
            return DecodedInst::unknown();
        },
    };
    DecodedInst { rd: 0, rs1: rs1(inst), rs2: rs2(inst), imm: imm_b(inst), inst: kind }
}

pub fn decode_load(inst: u32) -> (r: DecodedInst)
    ensures
        r == spec_decode_load(inst),
{
    let kind = match funct3(inst) {
        0 => Inst::Lb,
        1 => Inst::Lh,
        2 => Inst::Lw,
        4 => Inst::Lbu,
        5 => Inst::Lhu,
        _ => {
            return DecodedInst::unknown();
        },
    };
    DecodedInst { rd: rd(inst), rs1: rs1(inst), rs2: 0, imm: imm_i(inst), inst: kind }
}

pub fn decode_store(inst: u32) -> (r: DecodedInst)
    ensures
        r == spec_decode_store(inst),
{
    let kind = match funct3(inst) {
        0 => Inst::Sb,
        1 => Inst::Sh,
        2 => Inst::Sw,
        _ => {
            return DecodedInst::unknown();
        },
    };
    DecodedInst { rd: 0, rs1: rs1(inst), rs2: rs2(inst), imm: imm_s(inst), inst: kind }
}

pub fn decode_op_imm(inst: u32) -> (r: DecodedInst)
    ensures
        r == spec_decode_op_imm(inst),
{
    let f3 = funct3(inst);
    let f7 = funct7(inst);
    proof {
        assert(f7 >> 1 == f7 / 2) by {
        crate::bits::lemma_u32_fields(f7);
    }
    }
    let kind = match f3 {
        0 => Inst::Addi,
        1 => Inst::Slli,
        2 => Inst::Slti,
        3 => Inst::Sltiu,
        4 => Inst::Xori,
        5 => {
            if f7 >> 1 == 0 {
                Inst::Srli
            } else if f7 >> 1 == 0x10 {
                Inst::Srai
            } else {
                return DecodedInst::unknown();
            }
        },
        6 => Inst::Ori,
        _ => Inst::Andi,
    };
    DecodedInst { rd: rd(inst), rs1: rs1(inst), rs2: 0, imm: imm_i(inst), inst: kind }
}

pub fn decode_op(cfg: &IsaConfig, inst: u32) -> (r: DecodedInst)
    ensures
        r == spec_decode_op(*cfg, inst),
{
    let f3 = funct3(inst);
    let f7 = funct7(inst);
    let kind = if f7 == 0 {
        match f3 {
            0 => Inst::Add,
            1 => Inst::Sll,
            2 => Inst::Slt,
            3 => Inst::Sltu,
            4 => Inst::Xor,
            5 => Inst::Srl,
            6 => Inst::Or,
            _ => Inst::And,
        }
    } else if f7 == 0x20 {
        match f3 {
            0 => Inst::Sub,
            5 => Inst::Sra,
            _ => {
                return DecodedInst::unknown();
            },
        }
    } else if f7 == 1 && cfg.has_m {
        match f3 {
            0 => Inst::Mul,
            1 => Inst::Mulh,
            2 => Inst::Mulhsu,
            3 => Inst::Mulhu,
            4 => Inst::Div,
            5 => Inst::Divu,
            6 => Inst::Rem,
            _ => Inst::Remu,
        }
    } else {
        return DecodedInst::unknown();
    };
    DecodedInst { rd: rd(inst), rs1: rs1(inst), rs2: rs2(inst), imm: 0, inst: kind }
}

/// RV64 OP-32 decode (opcode 0x3b): ADDW/SUBW/SLLW/SRLW/SRAW and, with the M extension,
/// MULW/DIVW/DIVUW/REMW/REMUW.
pub fn decode_w(cfg: &IsaConfig, inst: u32) -> (r: DecodedInst)
    ensures
        r == spec_decode_op_w(*cfg, inst),
{
    let f3 = funct3(inst);
    let f7 = funct7(inst);
    let kind = if f7 == 0 {
        match f3 {
            0 => Inst::Addw,
            1 => Inst::Sllw,
            5 => Inst::Srlw,
            _ => {
                return DecodedInst::unknown();
            },
        }
    } else if f7 == 0x20 {
        match f3 {
            0 => Inst::Subw,
            5 => Inst::Sraw,
            _ => {
                return DecodedInst::unknown();
            },
        }
    } else if f7 == 1 && cfg.has_m {
        match f3 {
            0 => Inst::Mulw,
            1 => Inst::Divw,
            5 => Inst::Divuw,
            6 => Inst::Remw,
            7 => Inst::Remuw,
            _ => {
                return DecodedInst::unknown();
            },
        }
    } else {
        return DecodedInst::unknown();
    };
    DecodedInst { rd: rd(inst), rs1: rs1(inst), rs2: rs2(inst), imm: 0, inst: kind }
}

/// RV64 OP-IMM-32 decode (opcode 0x1b): ADDIW / SLLIW / SRLIW / SRAIW.
pub fn decode_imm_w(inst: u32) -> (r: DecodedInst)
    ensures
        r == spec_decode_op_imm_w(inst),
{
    let f3 = funct3(inst);
    let f7 = funct7(inst);
    let kind = match f3 {
        0 => Inst::Addiw,
        1 => Inst::Slliw,
        5 => {
            if f7 == 0 {
                Inst::Srliw
            } else if f7 == 0x20 {
                Inst::Sraiw
            } else {
                return DecodedInst::unknown();
            }
        },
        _ => {
            return DecodedInst::unknown();
        },
    };
    DecodedInst { rd: rd(inst), rs1: rs1(inst), rs2: 0, imm: imm_i(inst), inst: kind }
}

pub fn decode_misc_mem(inst: u32) -> (r: DecodedInst)
    ensures
        r == spec_decode_misc_mem(inst),
{
    let misc = if funct3(inst) == 1 {
        MiscMemInst::FenceI
    } else {
        MiscMemInst::Fence
    };
    DecodedInst { rs1: 0, rs2: 0, rd: 0, imm: 0, inst: Inst::MiscMem(misc) }
}

pub fn decode_system(inst: u32) -> (r: DecodedInst)
    ensures
        r == spec_decode_system(inst),
{
    if inst == EBREAK_INST {
        return DecodedInst {
            rs1: 0,
            rs2: 0,
            rd: 0,
            imm: 0,
            inst: Inst::System(SystemInst::Ebreak),
        };
    }
    let sys = match funct3(inst) {
        1 => SystemInst::Csrrw,
        2 => SystemInst::Csrrs,
        3 => SystemInst::Csrrc,
        5 => SystemInst::Csrrwi,
        6 => SystemInst::Csrrsi,
        7 => SystemInst::Csrrci,
        _ => {
            return DecodedInst::unknown();
        },
    };
    DecodedInst { rd: rd(inst), rs1: rs1(inst), rs2: 0, imm: csr(inst), inst: Inst::System(sys) }
}

pub fn decode_cus0(inst: u32) -> (r: DecodedInst)
    ensures
        r == spec_decode_cus0(inst),
{
    let f3 = funct3(inst);
    if f3 == 0 {
        if funct7(inst) != 0 {
            return DecodedInst::unknown();
        }
        DecodedInst {
            rd: rd(inst),
            rs1: rs1(inst),
            rs2: rs2(inst),
            imm: 0,
            inst: Inst::Cus0(Cus0Inst::NnLoadAct),
        }
    } else if f3 == 1 {
        if inst == ENCODE_NN_START {
            DecodedInst { rd: 0, rs1: 0, rs2: 0, imm: 0, inst: Inst::Cus0(Cus0Inst::NnStart) }
        } else {
            DecodedInst::unknown()
        }
    } else if f3 == 2 {
        if imm_i(inst) == 0 {
            DecodedInst {
                rd: rd(inst),
                rs1: rs1(inst),
                rs2: 0,
                imm: 0,
                inst: Inst::Cus0(Cus0Inst::NnLoad),
            }
        } else {
            DecodedInst::unknown()
        }
    } else {
        DecodedInst::unknown()
    }
}

// ---------------------------------------------------------------------------
// Vector opcodes
// ---------------------------------------------------------------------------
/// Masked-out encodings of the two-register whole-register loads.
pub const MASK_VL2RE_V: u32 = 0xfff0_707f;

pub const MATCH_VL2RE16_V: u32 = 0x2280_5007;

/// `vl2r.v` written without an element width.
pub const MATCH_VL2R_V: u32 = 0x2280_0007;

pub const MATCH_VL2RE32_V: u32 = 0x2280_6007;

pub open spec fn load_fp_kind(inst: u32) -> Inst {
    let f3 = spec_funct3(inst);
    let m = spec_mop(inst);
    let n = spec_nf(inst);
    let w = inst & MASK_VL2RE_V;
    if m == 0 && n == 0 && spec_vm(inst) == 1 && spec_lumop(inst) == 8 && f3 == 5 {
        Inst::LoadFp(LoadFpInst::Vl1re16)
    } else if w == MATCH_VL2RE16_V || w == MATCH_VL2R_V {
        Inst::LoadFp(LoadFpInst::Vl2re16)
    } else if w == MATCH_VL2RE32_V {
        Inst::LoadFp(LoadFpInst::Vl2re32)
    } else if f3 == 0 && m == 0 && n == 0 {
        Inst::LoadFp(LoadFpInst::Vle8)
    } else if f3 == 0 && m == 0 && n == 3 {
        Inst::LoadFp(LoadFpInst::Vlseg4e8)
    } else if f3 == 6 && m == 2 && n == 0 {
        Inst::LoadFp(LoadFpInst::Vlse32)
    } else {
        Inst::Unknown
    }
}

/// LOAD-FP (vector loads): whole-register loads carry no mask bit; the others carry `vm` in
/// `imm`, and the strided load its stride register in `rs2`.
pub open spec fn spec_decode_load_fp(cfg: IsaConfig, inst: u32) -> DecodedInst {
    let kind = load_fp_kind(inst);
    if cfg.vlenb == 0 || kind == Inst::Unknown {
        spec_unknown()
    } else if kind == Inst::LoadFp(LoadFpInst::Vl1re16) || kind == Inst::LoadFp(
        LoadFpInst::Vl2re16,
    ) || kind == Inst::LoadFp(LoadFpInst::Vl2re32) {
        DecodedInst { rd: spec_rd(inst), rs1: spec_rs1(inst), rs2: 0, imm: 0, inst: kind }
    } else {
        DecodedInst {
            rd: spec_rd(inst),
            rs1: spec_rs1(inst),
            rs2: if kind == Inst::LoadFp(LoadFpInst::Vlse32) {
                spec_rs2(inst)
            } else {
                0
            },
            imm: spec_vm(inst),
            inst: kind,
        }
    }
}

pub open spec fn store_fp_kind(inst: u32) -> Inst {
    let f3 = spec_funct3(inst);
    if f3 == 0 && spec_mop(inst) == 0 && spec_nf(inst) == 0 {
        if spec_lumop(inst) == 8 && spec_vm(inst) == 1 {
            Inst::StoreFp(StoreFpInst::Vs1r)
        } else {
            Inst::StoreFp(StoreFpInst::Vse8)
        }
    } else if f3 == 6 && spec_mop(inst) == 0 && spec_nf(inst) == 0 {
        Inst::StoreFp(StoreFpInst::Vse32)
    } else {
        Inst::Unknown
    }
}

/// STORE-FP (vector stores): the register stored goes in `rd`; it is bits `[11:7]` for the
/// whole-register store and bits `[24:20]` otherwise.
pub open spec fn spec_decode_store_fp(cfg: IsaConfig, inst: u32) -> DecodedInst {
    let kind = store_fp_kind(inst);
    if cfg.vlenb == 0 || kind == Inst::Unknown {
        spec_unknown()
    } else {
        DecodedInst {
            rd: if kind == Inst::StoreFp(StoreFpInst::Vs1r) {
                spec_rd(inst)
            } else {
                spec_rs2(inst)
            },
            rs1: spec_rs1(inst),
            rs2: 0,
            imm: 0,
            inst: kind,
        }
    }
}

/// An OP-V instruction with `rd`, `rs1`, `rs2` in place and `vm` in `imm`.
pub open spec fn spec_v_rrr(inst: u32, kind: VInst) -> DecodedInst {
    DecodedInst {
        rd: spec_rd(inst),
        rs1: spec_rs1(inst),
        rs2: spec_rs2(inst),
        imm: spec_vm(inst),
        inst: Inst::V(kind),
    }
}

/// An OP-IVI instruction taking a signed immediate: `vm` in `rs1`, the sign-extended
/// immediate in `imm`.
pub open spec fn spec_v_simm(inst: u32, kind: OpIviInst) -> DecodedInst {
    DecodedInst {
        rd: spec_rd(inst),
        rs1: spec_vm(inst) as u8,
        rs2: spec_rs2(inst),
        imm: spec_simm5(spec_rs1(inst)),
        inst: Inst::V(VInst::OpIvi(kind)),
    }
}

/// An OP-IVI instruction taking an unsigned immediate: the immediate in `imm[4:0]` and `vm`
/// in `imm[8]`.
pub open spec fn spec_v_uimm(inst: u32, kind: OpIviInst) -> DecodedInst {
    DecodedInst {
        rd: spec_rd(inst),
        rs1: 0,
        rs2: spec_rs2(inst),
        imm: (spec_rs1(inst) + spec_vm(inst) * 256) as u32,
        inst: Inst::V(VInst::OpIvi(kind)),
    }
}

pub open spec fn spec_decode_opcfg(inst: u32) -> DecodedInst {
    let t2 = spec_top2(inst);
    let imm = (inst / 0x8000) % 0x8000;
    if t2 == 3 {
        DecodedInst {
            rd: spec_rd(inst),
            rs1: 0,
            rs2: 0,
            imm,
            inst: Inst::V(VInst::OpCfg(OpCfgInst::Vsetivli)),
        }
    } else if t2 <= 1 {
        DecodedInst {
            rd: spec_rd(inst),
            rs1: spec_rs1(inst),
            rs2: 0,
            imm,
            inst: Inst::V(VInst::OpCfg(OpCfgInst::Vsetvli)),
        }
    } else {
        spec_unknown()
    }
}

pub open spec fn spec_decode_opivv(inst: u32) -> DecodedInst {
    let f6 = spec_funct6(inst);
    if f6 == 2 {
        spec_v_rrr(inst, VInst::OpIvv(OpIvvInst::VsubVv))
    } else if f6 == 0xa {
        spec_v_rrr(inst, VInst::OpIvv(OpIvvInst::VorVv))
    } else {
        spec_unknown()
    }
}

pub open spec fn spec_decode_opmvv(inst: u32) -> DecodedInst {
    let f6 = spec_funct6(inst);
    let vm = spec_vm(inst);
    let r1 = spec_rs1(inst);
    if f6 == 0 {
        spec_v_rrr(inst, VInst::OpMvv(OpMvvInst::VredsumVs))
    } else if f6 == 0x14 {
        if spec_rs2(inst) == 0 && vm == 1 {
            DecodedInst {
                rd: spec_rd(inst),
                rs1: 0,
                rs2: 0,
                imm: 0,
                inst: Inst::V(VInst::OpMvv(OpMvvInst::VidV)),
            }
        } else {
            spec_unknown()
        }
    } else if f6 == 0x10 {
        if r1 == 0 {
            DecodedInst {
                rd: spec_rd(inst),
                rs1: 0,
                rs2: spec_rs2(inst),
                imm: 0,
                inst: Inst::V(VInst::OpMvv(OpMvvInst::VmvXS)),
            }
        } else if r1 == 0x11 {
            DecodedInst {
                rd: spec_rd(inst),
                rs1: 0,
                rs2: spec_rs2(inst),
                imm: vm,
                inst: Inst::V(VInst::OpMvv(OpMvvInst::VfirstM)),
            }
        } else {
            spec_unknown()
        }
    } else if f6 == 0x12 {
        if r1 == 4 || r1 == 5 {
            DecodedInst {
                rd: spec_rd(inst),
                rs1: 0,
                rs2: spec_rs2(inst),
                imm: vm,
                inst: Inst::V(
                    VInst::OpMvv(
                        if r1 == 4 {
                            OpMvvInst::VzextVf4
                        } else {
                            OpMvvInst::VsextVf4
                        },
                    ),
                ),
            }
        } else {
            spec_unknown()
        }
    } else if f6 == 0x1a && vm == 1 {
        spec_v_rrr(inst, VInst::OpMvv(OpMvvInst::VmorMm))
    } else if f6 == 0x2d {
        spec_v_rrr(inst, VInst::OpMvv(OpMvvInst::VmaccVv))
    } else if f6 == 0x38 {
        spec_v_rrr(inst, VInst::OpMvv(OpMvvInst::VwmuluVv))
    } else if f6 == 0x3d {
        spec_v_rrr(inst, VInst::OpMvv(OpMvvInst::VwmaccVv))
    } else {
        spec_unknown()
    }
}

pub open spec fn spec_decode_opivi(inst: u32) -> DecodedInst {
    let f6 = spec_funct6(inst);
    if f6 == 0x17 {
        spec_v_simm(inst, OpIviInst::VmergeVim)
    } else if f6 == 0x18 {
        spec_v_uimm(inst, OpIviInst::VmseqVi)
    } else if f6 == 0x19 {
        spec_v_uimm(inst, OpIviInst::VmsneVi)
    } else if f6 == 0x27 {
        DecodedInst {
            rd: spec_rd(inst),
            rs1: 0,
            rs2: spec_rs2(inst),
            imm: spec_rs1(inst) as u32,
            inst: Inst::V(VInst::OpIvi(OpIviInst::VmvNrV)),
        }
    } else if f6 == 0x03 {
        spec_v_simm(inst, OpIviInst::VrsubVi)
    } else if f6 == 0x00 || f6 == 0x0a {
        spec_v_simm(inst, OpIviInst::VaddVi)
    } else if f6 == 0x09 {
        spec_v_simm(inst, OpIviInst::VandVi)
    } else if f6 == 0x0f {
        spec_v_uimm(inst, OpIviInst::VslidedownVi)
    } else if f6 == 0x25 {
        spec_v_uimm(inst, OpIviInst::VsllVi)
    } else if f6 == 0x28 {
        spec_v_uimm(inst, OpIviInst::VsrlVi)
    } else {
        spec_unknown()
    }
}

pub open spec fn spec_decode_opivx(inst: u32) -> DecodedInst {
    let f6 = spec_funct6(inst);
    if f6 == 0 {
        spec_v_rrr(inst, VInst::OpIvx(OpIvxInst::VaddVx))
    } else if f6 == 0x09 {
        spec_v_rrr(inst, VInst::OpIvx(OpIvxInst::VandVx))
    } else if f6 == 0x17 {
        spec_v_rrr(inst, VInst::OpIvx(OpIvxInst::VmergeVxm))
    } else if f6 == 0x18 {
        spec_v_rrr(inst, VInst::OpIvx(OpIvxInst::VmseqVx))
    } else if f6 == 0x1b {
        spec_v_rrr(inst, VInst::OpIvx(OpIvxInst::VmsltVx))
    } else {
        spec_unknown()
    }
}

pub open spec fn spec_decode_opmvx(inst: u32) -> DecodedInst {
    let f6 = spec_funct6(inst);
    if f6 == 0x10 && spec_rs2(inst) == 0 {
        DecodedInst {
            rd: spec_rd(inst),
            rs1: spec_rs1(inst),
            rs2: 0,
            imm: 0,
            inst: Inst::V(VInst::OpMvx(OpMvxInst::VmvSX)),
        }
    } else if f6 == 0x0f {
        spec_v_rrr(inst, VInst::OpMvx(OpMvxInst::Vslide1downVx))
    } else if f6 == 0x3b {
        spec_v_rrr(inst, VInst::OpMvx(OpMvxInst::VwmulVx))
    } else {
        spec_unknown()
    }
}

/// OP-V: dispatch on funct3.
pub open spec fn spec_decode_op_v(inst: u32) -> DecodedInst {
    let f3 = spec_funct3(inst);
    if f3 == 7 {
        spec_decode_opcfg(inst)
    } else if f3 == 0 {
        spec_decode_opivv(inst)
    } else if f3 == 2 {
        spec_decode_opmvv(inst)
    } else if f3 == 3 {
        spec_decode_opivi(inst)
    } else if f3 == 4 {
        spec_decode_opivx(inst)
    } else if f3 == 6 {
        spec_decode_opmvx(inst)
    } else {
        spec_unknown()
    }
}

pub fn decode_load_fp(cfg: &IsaConfig, inst: u32) -> (r: DecodedInst)
    ensures
        r == spec_decode_load_fp(*cfg, inst),
{
    if cfg.vlenb == 0 {
        return DecodedInst::unknown();
    }
    let f3 = funct3(inst);
    let m = mop(inst);
    let n = nf(inst);
    let w = inst & MASK_VL2RE_V;
    let kind = if m == 0 && n == 0 && vm(inst) == 1 && lumop(inst) == 8 && f3 == 5 {
        LoadFpInst::Vl1re16
    } else if w == MATCH_VL2RE16_V || w == MATCH_VL2R_V {
        LoadFpInst::Vl2re16
    } else if w == MATCH_VL2RE32_V {
        LoadFpInst::Vl2re32
    } else if f3 == 0 && m == 0 && n == 0 {
        LoadFpInst::Vle8
    } else if f3 == 0 && m == 0 && n == 3 {
        LoadFpInst::Vlseg4e8
    } else if f3 == 6 && m == 2 && n == 0 {
        LoadFpInst::Vlse32
    } else {
        return DecodedInst::unknown();
    };
    match kind {
        LoadFpInst::Vl1re16 | LoadFpInst::Vl2re16 | LoadFpInst::Vl2re32 => DecodedInst {
            rd: rd(inst),
            rs1: rs1(inst),
            rs2: 0,
            imm: 0,
            inst: Inst::LoadFp(kind),
        },
        _ => DecodedInst {
            rd: rd(inst),
            rs1: rs1(inst),
            rs2: if kind == LoadFpInst::Vlse32 {
                rs2(inst)
            } else {
                0
            },
            imm: vm(inst),
            inst: Inst::LoadFp(kind),
        },
    }
}

pub fn decode_store_fp(cfg: &IsaConfig, inst: u32) -> (r: DecodedInst)
    ensures
        r == spec_decode_store_fp(*cfg, inst),
{
    if cfg.vlenb == 0 {
        return DecodedInst::unknown();
    }
    let f3 = funct3(inst);
    let kind = if f3 == 0 && mop(inst) == 0 && nf(inst) == 0 {
        if lumop(inst) == 8 && vm(inst) == 1 {
            StoreFpInst::Vs1r
        } else {
            StoreFpInst::Vse8
        }
    } else if f3 == 6 && mop(inst) == 0 && nf(inst) == 0 {
        StoreFpInst::Vse32
    } else {
        return DecodedInst::unknown();
    };
    let vs3 = if kind == StoreFpInst::Vs1r {
        rd(inst)
    } else {
        rs2(inst)
    };
    DecodedInst { rd: vs3, rs1: rs1(inst), rs2: 0, imm: 0, inst: Inst::StoreFp(kind) }
}

fn v_rrr(inst: u32, kind: VInst) -> (r: DecodedInst)
    ensures
        r == spec_v_rrr(inst, kind),
{
    DecodedInst { rd: rd(inst), rs1: rs1(inst), rs2: rs2(inst), imm: vm(inst), inst: Inst::V(kind) }
}

fn v_simm(inst: u32, kind: OpIviInst) -> (r: DecodedInst)
    ensures
        r == spec_v_simm(inst, kind),
{
    DecodedInst {
        rd: rd(inst),
        rs1: vm(inst) as u8,
        rs2: rs2(inst),
        imm: simm5(rs1(inst)),
        inst: Inst::V(VInst::OpIvi(kind)),
    }
}

fn v_uimm(inst: u32, kind: OpIviInst) -> (r: DecodedInst)
    ensures
        r == spec_v_uimm(inst, kind),
{
    let r1 = rs1(inst) as u32;
    let m = vm(inst);
    let imm = (r1 & 0x1f) | (m << 8);
    assert(imm == r1 + m * 256) by (bit_vector)
        requires
            r1 < 32,
            m <= 1,
            imm == (r1 & 0x1f) | (m << 8),
    ;
    DecodedInst { rd: rd(inst), rs1: 0, rs2: rs2(inst), imm, inst: Inst::V(VInst::OpIvi(kind)) }
}

/// OP-V decode (opcode 0x57), dispatching on funct3.
pub fn decode_op_v(inst: u32) -> (r: DecodedInst)
    ensures
        r == spec_decode_op_v(inst),
{
    let f3 = funct3(inst);
    let f6 = funct6(inst);
    if f3 == 7 {
        let t2 = top2(inst);
        let imm = (inst >> 15) & 0x7fff;
        assert(imm == (inst / 0x8000) % 0x8000) by {
        crate::bits::lemma_u32_fields(inst);
    }
        if t2 == 3 {
            DecodedInst {
                rd: rd(inst),
                rs1: 0,
                rs2: 0,
                imm,
                inst: Inst::V(VInst::OpCfg(OpCfgInst::Vsetivli)),
            }
        } else if t2 <= 1 {
            DecodedInst {
                rd: rd(inst),
                rs1: rs1(inst),
                rs2: 0,
                imm,
                inst: Inst::V(VInst::OpCfg(OpCfgInst::Vsetvli)),
            }
        } else {
            DecodedInst::unknown()
        }
    } else if f3 == 0 {
        if f6 == 2 {
            v_rrr(inst, VInst::OpIvv(OpIvvInst::VsubVv))
        } else if f6 == 0xa {
            v_rrr(inst, VInst::OpIvv(OpIvvInst::VorVv))
        } else {
            DecodedInst::unknown()
        }
    } else if f3 == 2 {
        let m = vm(inst);
        let r1 = rs1(inst);
        if f6 == 0 {
            v_rrr(inst, VInst::OpMvv(OpMvvInst::VredsumVs))
        } else if f6 == 0x14 {
            if rs2(inst) == 0 && m == 1 {
                DecodedInst {
                    rd: rd(inst),
                    rs1: 0,
                    rs2: 0,
                    imm: 0,
                    inst: Inst::V(VInst::OpMvv(OpMvvInst::VidV)),
                }
            } else {
                DecodedInst::unknown()
            }
        } else if f6 == 0x10 {
            if r1 == 0 {
                DecodedInst {
                    rd: rd(inst),
                    rs1: 0,
                    rs2: rs2(inst),
                    imm: 0,
                    inst: Inst::V(VInst::OpMvv(OpMvvInst::VmvXS)),
                }
            } else if r1 == 0x11 {
                DecodedInst {
                    rd: rd(inst),
                    rs1: 0,
                    rs2: rs2(inst),
                    imm: m,
                    inst: Inst::V(VInst::OpMvv(OpMvvInst::VfirstM)),
                }
            } else {
                DecodedInst::unknown()
            }
        } else if f6 == 0x12 {
            if r1 == 4 || r1 == 5 {
                let k = if r1 == 4 {
                    OpMvvInst::VzextVf4
                } else {
                    OpMvvInst::VsextVf4
                };
                DecodedInst {
                    rd: rd(inst),
                    rs1: 0,
                    rs2: rs2(inst),
                    imm: m,
                    inst: Inst::V(VInst::OpMvv(k)),
                }
            } else {
                DecodedInst::unknown()
            }
        } else if f6 == 0x1a && m == 1 {
            v_rrr(inst, VInst::OpMvv(OpMvvInst::VmorMm))
        } else if f6 == 0x2d {
            v_rrr(inst, VInst::OpMvv(OpMvvInst::VmaccVv))
        } else if f6 == 0x38 {
            v_rrr(inst, VInst::OpMvv(OpMvvInst::VwmuluVv))
        } else if f6 == 0x3d {
            v_rrr(inst, VInst::OpMvv(OpMvvInst::VwmaccVv))
        } else {
            DecodedInst::unknown()
        }
    } else if f3 == 3 {
        if f6 == 0x17 {
            v_simm(inst, OpIviInst::VmergeVim)
        } else if f6 == 0x18 {
            v_uimm(inst, OpIviInst::VmseqVi)
        } else if f6 == 0x19 {
            v_uimm(inst, OpIviInst::VmsneVi)
        } else if f6 == 0x27 {
            DecodedInst {
                rd: rd(inst),
                rs1: 0,
                rs2: rs2(inst),
                imm: rs1(inst) as u32,
                inst: Inst::V(VInst::OpIvi(OpIviInst::VmvNrV)),
            }
        } else if f6 == 0x03 {
            v_simm(inst, OpIviInst::VrsubVi)
        } else if f6 == 0x00 || f6 == 0x0a {
            v_simm(inst, OpIviInst::VaddVi)
        } else if f6 == 0x09 {
            v_simm(inst, OpIviInst::VandVi)
        } else if f6 == 0x0f {
            v_uimm(inst, OpIviInst::VslidedownVi)
        } else if f6 == 0x25 {
            v_uimm(inst, OpIviInst::VsllVi)
        } else if f6 == 0x28 {
            v_uimm(inst, OpIviInst::VsrlVi)
        } else {
            DecodedInst::unknown()
        }
    } else if f3 == 4 {
        if f6 == 0 {
            v_rrr(inst, VInst::OpIvx(OpIvxInst::VaddVx))
        } else if f6 == 0x09 {
            v_rrr(inst, VInst::OpIvx(OpIvxInst::VandVx))
        } else if f6 == 0x17 {
            v_rrr(inst, VInst::OpIvx(OpIvxInst::VmergeVxm))
        } else if f6 == 0x18 {
            v_rrr(inst, VInst::OpIvx(OpIvxInst::VmseqVx))
        } else if f6 == 0x1b {
            v_rrr(inst, VInst::OpIvx(OpIvxInst::VmsltVx))
        } else {
            DecodedInst::unknown()
        }
    } else if f3 == 6 {
        if f6 == 0x10 && rs2(inst) == 0 {
            DecodedInst {
                rd: rd(inst),
                rs1: rs1(inst),
                rs2: 0,
                imm: 0,
                inst: Inst::V(VInst::OpMvx(OpMvxInst::VmvSX)),
            }
        } else if f6 == 0x0f {
            v_rrr(inst, VInst::OpMvx(OpMvxInst::Vslide1downVx))
        } else if f6 == 0x3b {
            v_rrr(inst, VInst::OpMvx(OpMvxInst::VwmulVx))
        } else {
            DecodedInst::unknown()
        }
    } else {
        DecodedInst::unknown()
    }
}

// ---------------------------------------------------------------------------
// Top level
// ---------------------------------------------------------------------------
/// The decoding of `inst` on an ISA configured as `cfg`.  The RV64 word opcodes are not
/// dispatched here (see [`decode_w`] and [`decode_imm_w`]); OP-V decodes only with a vector
/// unit and custom-0 only with the accelerator.
pub open spec fn spec_decode(cfg: IsaConfig, inst: u32) -> DecodedInst {
    let op = spec_opcode(inst);
    if op == OPCODE_LUI {
        spec_decode_lui(inst)
    } else if op == OPCODE_AUIPC {
        spec_decode_auipc(inst)
    } else if op == OPCODE_JAL {
        spec_decode_jal(inst)
    } else if op == OPCODE_JALR {
        spec_decode_jalr(inst)
    } else if op == OPCODE_BRANCH {
        spec_decode_branch(inst)
    } else if op == OPCODE_LOAD {
        spec_decode_load(inst)
    } else if op == OPCODE_LOAD_FP {
        spec_decode_load_fp(cfg, inst)
    } else if op == OPCODE_STORE {
        spec_decode_store(inst)
    } else if op == OPCODE_STORE_FP {
        spec_decode_store_fp(cfg, inst)
    } else if op == OPCODE_OP_IMM {
        spec_decode_op_imm(inst)
    } else if op == OPCODE_OP {
        spec_decode_op(cfg, inst)
    } else if op == OPCODE_MISC_MEM {
        spec_decode_misc_mem(inst)
    } else if op == OPCODE_SYSTEM {
        spec_decode_system(inst)
    } else if op == OPCODE_OP_V && cfg.vlenb > 0 {
        spec_decode_op_v(inst)
    } else if op == OPCODE_CUS0 && cfg.has_cus0 {
        spec_decode_cus0(inst)
    } else {
        spec_unknown()
    }
}

/// Decodes one instruction word.
pub fn decode(cfg: &IsaConfig, inst: u32) -> (r: DecodedInst)
    ensures
        r == spec_decode(*cfg, inst),
{
    let op = opcode(inst);
    if op == OPCODE_LUI {
        decode_lui(inst)
    } else if op == OPCODE_AUIPC {
        decode_auipc(inst)
    } else if op == OPCODE_JAL {
        decode_jal(inst)
    } else if op == OPCODE_JALR {
        decode_jalr(inst)
    } else if op == OPCODE_BRANCH {
        decode_branch(inst)
    } else if op == OPCODE_LOAD {
        decode_load(inst)
    } else if op == OPCODE_LOAD_FP {
        decode_load_fp(cfg, inst)
    } else if op == OPCODE_STORE {
        decode_store(inst)
    } else if op == OPCODE_STORE_FP {
        decode_store_fp(cfg, inst)
    } else if op == OPCODE_OP_IMM {
        decode_op_imm(inst)
    } else if op == OPCODE_OP {
        decode_op(cfg, inst)
    } else if op == OPCODE_MISC_MEM {
        decode_misc_mem(inst)
    } else if op == OPCODE_SYSTEM {
        decode_system(inst)
    } else if op == OPCODE_OP_V && cfg.vlenb > 0 {
        decode_op_v(inst)
    } else if op == OPCODE_CUS0 && cfg.has_cus0 {
        decode_cus0(inst)
    } else {
        DecodedInst::unknown()
    }
}


// ---------------------------------------------------------------------------
// The encoding tables, stated on the raw word
// ---------------------------------------------------------------------------
/// Bits `[6:0]` of a word.
pub open spec fn word_major(w: u32) -> int {
    w as int % 0x80
}

/// Bits `[14:12]` of a word.
pub open spec fn word_minor(w: u32) -> int {
    (w as int / 0x1000) % 0x8
}

/// Bits `[31:25]` of a word.
pub open spec fn word_top7(w: u32) -> int {
    w as int / 0x200_0000
}

/// Bits `[31:26]` of a word.
pub open spec fn word_top6(w: u32) -> int {
    w as int / 0x400_0000
}

/// The register fields `rd`, `rs1`, `rs2` of a word, at bits 7, 15 and 20.
pub open spec fn word_regs(w: u32) -> (int, int, int) {
    ((w as int / 0x80) % 0x20, (w as int / 0x8000) % 0x20, (w as int / 0x10_0000) % 0x20)
}

/// The register-register integer table (opcode `0110011`): funct7 `0000000` selects
/// add/sll/slt/sltu/xor/srl/or/and by funct3, funct7 `0100000` sub (funct3 0) and sra
/// (funct3 5), and with M funct7 `0000001` mul/mulh/mulhsu/mulhu/div/divu/rem/remu; the
/// register fields are carried over.
pub proof fn lemma_decode_op_table(cfg: IsaConfig, w: u32)
    requires
        word_major(w) == 0x33,
    ensures
        ({
            let d = spec_decode(cfg, w);
            let f3 = word_minor(w);
            let f7 = word_top7(w);
            &&& f7 == 0 && f3 == 0 ==> d.inst == Inst::Add
            &&& f7 == 0 && f3 == 1 ==> d.inst == Inst::Sll
            &&& f7 == 0 && f3 == 2 ==> d.inst == Inst::Slt
            &&& f7 == 0 && f3 == 3 ==> d.inst == Inst::Sltu
            &&& f7 == 0 && f3 == 4 ==> d.inst == Inst::Xor
            &&& f7 == 0 && f3 == 5 ==> d.inst == Inst::Srl
            &&& f7 == 0 && f3 == 6 ==> d.inst == Inst::Or
            &&& f7 == 0 && f3 == 7 ==> d.inst == Inst::And
            &&& f7 == 0x20 && f3 == 0 ==> d.inst == Inst::Sub
            &&& f7 == 0x20 && f3 == 5 ==> d.inst == Inst::Sra
            &&& f7 == 1 && cfg.has_m && f3 == 0 ==> d.inst == Inst::Mul
            &&& f7 == 1 && cfg.has_m && f3 == 1 ==> d.inst == Inst::Mulh
            &&& f7 == 1 && cfg.has_m && f3 == 2 ==> d.inst == Inst::Mulhsu
            &&& f7 == 1 && cfg.has_m && f3 == 3 ==> d.inst == Inst::Mulhu
            &&& f7 == 1 && cfg.has_m && f3 == 4 ==> d.inst == Inst::Div
            &&& f7 == 1 && cfg.has_m && f3 == 5 ==> d.inst == Inst::Divu
            &&& f7 == 1 && cfg.has_m && f3 == 6 ==> d.inst == Inst::Rem
            &&& f7 == 1 && cfg.has_m && f3 == 7 ==> d.inst == Inst::Remu
            &&& f7 == 1 && !cfg.has_m ==> d.inst == Inst::Unknown
            &&& d.inst != Inst::Unknown ==> (d.rd as int, d.rs1 as int, d.rs2 as int) == word_regs(w)
        }),
{
}

/// The immediate integer table (opcode `0010011`) by funct3: addi, slli, slti, sltiu, xori,
/// srli/srai (funct7 `000000x` / `010000x`), ori, andi.
pub proof fn lemma_decode_op_imm_table(cfg: IsaConfig, w: u32)
    requires
        word_major(w) == 0x13,
    ensures
        ({
            let d = spec_decode(cfg, w);
            let f3 = word_minor(w);
            let f7 = word_top7(w);
            &&& f3 == 0 ==> d.inst == Inst::Addi
            &&& f3 == 1 ==> d.inst == Inst::Slli
            &&& f3 == 2 ==> d.inst == Inst::Slti
            &&& f3 == 3 ==> d.inst == Inst::Sltiu
            &&& f3 == 4 ==> d.inst == Inst::Xori
            &&& f3 == 5 && (f7 == 0 || f7 == 1) ==> d.inst == Inst::Srli
            &&& f3 == 5 && (f7 == 0x20 || f7 == 0x21) ==> d.inst == Inst::Srai
            &&& f3 == 6 ==> d.inst == Inst::Ori
            &&& f3 == 7 ==> d.inst == Inst::Andi
            &&& d.inst != Inst::Unknown ==> d.rd as int == word_regs(w).0 && d.rs1 as int == word_regs(w).1
        }),
{
}

/// Branches (opcode `1100011`) by funct3: beq, bne, blt, bge, bltu, bgeu; loads (opcode
/// `0000011`): lb, lh, lw, lbu, lhu; stores (opcode `0100011`): sb, sh, sw.
pub proof fn lemma_decode_branch_load_store_table(cfg: IsaConfig, w: u32)
    ensures
        ({
            let d = spec_decode(cfg, w);
            let op = word_major(w);
            let f3 = word_minor(w);
            &&& op == 0x63 && f3 == 0 ==> d.inst == Inst::Beq
            &&& op == 0x63 && f3 == 1 ==> d.inst == Inst::Bne
            &&& op == 0x63 && f3 == 4 ==> d.inst == Inst::Blt
            &&& op == 0x63 && f3 == 5 ==> d.inst == Inst::Bge
            &&& op == 0x63 && f3 == 6 ==> d.inst == Inst::Bltu
            &&& op == 0x63 && f3 == 7 ==> d.inst == Inst::Bgeu
            &&& op == 0x03 && f3 == 0 ==> d.inst == Inst::Lb
            &&& op == 0x03 && f3 == 1 ==> d.inst == Inst::Lh
            &&& op == 0x03 && f3 == 2 ==> d.inst == Inst::Lw
            &&& op == 0x03 && f3 == 4 ==> d.inst == Inst::Lbu
            &&& op == 0x03 && f3 == 5 ==> d.inst == Inst::Lhu
            &&& op == 0x23 && f3 == 0 ==> d.inst == Inst::Sb
            &&& op == 0x23 && f3 == 1 ==> d.inst == Inst::Sh
            &&& op == 0x23 && f3 == 2 ==> d.inst == Inst::Sw
        }),
{
}

/// The vector arithmetic table (opcode `1010111`, on a hart with vector registers), by
/// funct3 (OPIVV 0, OPMVV 2, OPIVI 3, OPIVX 4, OPMVX 6) and funct6; the
/// register-register forms carry `rd`, `rs1` (the `vs1`/`rs1` field), `rs2` (`vs2`) and
/// `vm` over.
pub proof fn lemma_decode_op_v_table(cfg: IsaConfig, w: u32)
    requires
        word_major(w) == 0x57,
        cfg.vlenb > 0,
    ensures
        ({
            let d = spec_decode(cfg, w);
            let f3 = word_minor(w);
            let f6 = word_top6(w);
            let vm = (w as int / 0x200_0000) % 2;
            let rrr = (d.rd as int, d.rs1 as int, d.rs2 as int) == word_regs(w) && d.imm == vm;
            &&& f3 == 0 && f6 == 0x02 ==> d.inst == Inst::V(VInst::OpIvv(OpIvvInst::VsubVv)) && rrr
            &&& f3 == 0 && f6 == 0x0a ==> d.inst == Inst::V(VInst::OpIvv(OpIvvInst::VorVv)) && rrr
            &&& f3 == 2 && f6 == 0x00 ==> d.inst == Inst::V(VInst::OpMvv(OpMvvInst::VredsumVs)) && rrr
            &&& f3 == 2 && f6 == 0x2d ==> d.inst == Inst::V(VInst::OpMvv(OpMvvInst::VmaccVv)) && rrr
            &&& f3 == 2 && f6 == 0x38 ==> d.inst == Inst::V(VInst::OpMvv(OpMvvInst::VwmuluVv)) && rrr
            &&& f3 == 2 && f6 == 0x3d ==> d.inst == Inst::V(VInst::OpMvv(OpMvvInst::VwmaccVv)) && rrr
            &&& f3 == 2 && f6 == 0x1a && vm == 1 ==> d.inst == Inst::V(VInst::OpMvv(OpMvvInst::VmorMm)) && rrr
            &&& f3 == 2 && f6 == 0x10 && word_regs(w).1 == 0 ==> d.inst == Inst::V(VInst::OpMvv(OpMvvInst::VmvXS))
            &&& f3 == 2 && f6 == 0x10 && word_regs(w).1 == 0x11 ==> d.inst == Inst::V(VInst::OpMvv(OpMvvInst::VfirstM))
            &&& f3 == 2 && f6 == 0x12 && word_regs(w).1 == 4 ==> d.inst == Inst::V(VInst::OpMvv(OpMvvInst::VzextVf4))
            &&& f3 == 2 && f6 == 0x12 && word_regs(w).1 == 5 ==> d.inst == Inst::V(VInst::OpMvv(OpMvvInst::VsextVf4))
            &&& f3 == 3 && f6 == 0x00 ==> d.inst == Inst::V(VInst::OpIvi(OpIviInst::VaddVi))
            &&& f3 == 3 && f6 == 0x03 ==> d.inst == Inst::V(VInst::OpIvi(OpIviInst::VrsubVi))
            &&& f3 == 3 && f6 == 0x09 ==> d.inst == Inst::V(VInst::OpIvi(OpIviInst::VandVi))
            &&& f3 == 3 && f6 == 0x0f ==> d.inst == Inst::V(VInst::OpIvi(OpIviInst::VslidedownVi))
            &&& f3 == 3 && f6 == 0x17 ==> d.inst == Inst::V(VInst::OpIvi(OpIviInst::VmergeVim))
            &&& f3 == 3 && f6 == 0x18 ==> d.inst == Inst::V(VInst::OpIvi(OpIviInst::VmseqVi))
            &&& f3 == 3 && f6 == 0x19 ==> d.inst == Inst::V(VInst::OpIvi(OpIviInst::VmsneVi))
            &&& f3 == 3 && f6 == 0x25 ==> d.inst == Inst::V(VInst::OpIvi(OpIviInst::VsllVi))
            &&& f3 == 3 && f6 == 0x27 ==> d.inst == Inst::V(VInst::OpIvi(OpIviInst::VmvNrV))
            &&& f3 == 3 && f6 == 0x28 ==> d.inst == Inst::V(VInst::OpIvi(OpIviInst::VsrlVi))
            &&& f3 == 4 && f6 == 0x00 ==> d.inst == Inst::V(VInst::OpIvx(OpIvxInst::VaddVx)) && rrr
            &&& f3 == 4 && f6 == 0x09 ==> d.inst == Inst::V(VInst::OpIvx(OpIvxInst::VandVx)) && rrr
            &&& f3 == 4 && f6 == 0x17 ==> d.inst == Inst::V(VInst::OpIvx(OpIvxInst::VmergeVxm)) && rrr
            &&& f3 == 4 && f6 == 0x18 ==> d.inst == Inst::V(VInst::OpIvx(OpIvxInst::VmseqVx)) && rrr
            &&& f3 == 4 && f6 == 0x1b ==> d.inst == Inst::V(VInst::OpIvx(OpIvxInst::VmsltVx)) && rrr
            &&& f3 == 6 && f6 == 0x0f ==> d.inst == Inst::V(VInst::OpMvx(OpMvxInst::Vslide1downVx)) && rrr
            &&& f3 == 6 && f6 == 0x3b ==> d.inst == Inst::V(VInst::OpMvx(OpMvxInst::VwmulVx)) && rrr
            &&& f3 == 6 && f6 == 0x10 && word_regs(w).2 == 0 ==> d.inst == Inst::V(VInst::OpMvx(OpMvxInst::VmvSX))
            &&& f3 == 7 && w as int / 0x4000_0000 == 3 ==> d.inst == Inst::V(VInst::OpCfg(OpCfgInst::Vsetivli))
            &&& f3 == 7 && w as int / 0x8000_0000 == 0 ==> d.inst == Inst::V(VInst::OpCfg(OpCfgInst::Vsetvli))
        }),
{
}

} // verus!
