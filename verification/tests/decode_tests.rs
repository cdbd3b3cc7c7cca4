use remu_sim::decode::{decode, decode_imm_w, decode_op_imm, decode_w};
use remu_sim::inst::{DecodedInst, Inst, IsaConfig, OpCfgInst, OpIviInst, SystemInst, VInst};

fn rv64im() -> IsaConfig {
    IsaConfig { has_m: true, vlenb: 0, has_cus0: false }
}

fn rv32i() -> IsaConfig {
    IsaConfig { has_m: false, vlenb: 0, has_cus0: false }
}

fn check(inst: u32, want: Inst) {
    let got = decode_w(&rv64im(), inst).inst;
    assert!(got == want, "inst 0x{inst:08x}: got {got:?}, want {want:?}");
}

#[test]
fn decode_w_basic() {
    check(0x0005053b, Inst::Addw); // addw a0, a0, zero
    check(0x407505bb, Inst::Subw); // subw a1, a0, t2
    check(0x005515bb, Inst::Sllw); // sllw a1, a0, t0
    check(0x006555bb, Inst::Srlw); // srlw a1, a0, t1
    check(0x407555bb, Inst::Sraw); // sraw a1, a0, t2
}

#[test]
fn decode_w_m_ext() {
    check(0x02a7053b, Inst::Mulw); // mulw a0, a4, a0 (funct3=000)
    check(0x02a7153b, Inst::Divw); // divw a0, a4, a0 (funct3=001)
    check(0x02a7553b, Inst::Divuw); // divuw a0, a4, a0 (funct3=101)
    check(0x02a7653b, Inst::Remw); // remw a0, a4, a0 (funct3=110)
    check(0x02a7753b, Inst::Remuw); // remuw a0, a4, a0 (funct3=111)
}

#[test]
fn decode_w_reg_fields() {
    let d = decode_w(&rv64im(), 0x02a7053b);
    assert_eq!(d.rd, 10); // a0
    assert_eq!(d.rs1, 14); // a4
    assert_eq!(d.rs2, 10); // a0
}

#[test]
fn decode_w_illegal() {
    // funct3=010 (SLT) has no W variant
    assert_eq!(decode_w(&rv64im(), 0x00a7253b).inst, Inst::Unknown);
    // funct7=0b1100000 is a reserved (non-NORMAL/ALT/MAD) value
    assert_eq!(decode_w(&rv64im(), 0xc0a7053b).inst, Inst::Unknown);
}

#[test]
fn decode_shift_rv32() {
    assert_eq!(decode_op_imm(0x00751593).inst, Inst::Slli); // slli a1, a0, 7
    assert_eq!(decode_op_imm(0x00755593).inst, Inst::Srli); // srli a1, a0, 7
    assert_eq!(decode_op_imm(0x40755593).inst, Inst::Srai); // srai a1, a0, 7
}

#[test]
fn decode_shift_rv64() {
    // shamt bit 5 (bit 25 of the inst) must not break SRLI/SRAI detection.
    assert_eq!(decode_op_imm(0x00751593).inst, Inst::Slli);
    assert_eq!(decode_op_imm(0x00755593).inst, Inst::Srli);
    assert_eq!(decode_op_imm(0x40755593).inst, Inst::Srai);
    assert_eq!(decode_op_imm(0x42755593).inst, Inst::Srai); // srai a1, a0, 39 (shamt bit5=1)
    assert_eq!(decode_op_imm(0x03f55593).inst, Inst::Srli); // srli a1, a0, 63 (shamt bit5=1)
}

#[test]
fn decode_w_variants() {
    assert_eq!(decode_imm_w(0x0005051b).inst, Inst::Addiw); // addiw a0, a0, 0
    assert_eq!(decode_imm_w(0x0075159b).inst, Inst::Slliw); // slliw a1, a0, 7
    assert_eq!(decode_imm_w(0x0075559b).inst, Inst::Srliw); // srliw a1, a0, 7
    assert_eq!(decode_imm_w(0x4075559b).inst, Inst::Sraiw); // sraiw a1, a0, 7
}

#[test]
fn decode_w_without_m_is_unknown() {
    assert_eq!(decode_w(&rv32i(), 0x02a7053b).inst, Inst::Unknown);
}

#[test]
fn decode_addi_fields() {
    // addi a0, a1, -1
    let d = decode(&rv32i(), 0xfff58513);
    assert_eq!(d.inst, Inst::Addi);
    assert_eq!(d.rd, 10);
    assert_eq!(d.rs1, 11);
    assert_eq!(d.imm, 0xffff_ffff);
}

#[test]
fn decode_lui_auipc_jal() {
    let d = decode(&rv32i(), 0x123452b7); // lui t0, 0x12345
    assert_eq!(d.inst, Inst::Lui);
    assert_eq!(d.rd, 5);
    assert_eq!(d.imm, 0x1234_5000);
    let d = decode(&rv32i(), 0x00001517); // auipc a0, 1
    assert_eq!(d.inst, Inst::Auipc);
    assert_eq!(d.imm, 0x1000);
    let d = decode(&rv32i(), 0x008000ef); // jal ra, 8
    assert_eq!(d.inst, Inst::Jal);
    assert_eq!(d.rd, 1);
    assert_eq!(d.imm, 8);
}

#[test]
fn decode_branch_negative_offset() {
    // beq a0, a1, -4
    let d = decode(&rv32i(), 0xfeb50ee3);
    assert_eq!(d.inst, Inst::Beq);
    assert_eq!(d.rs1, 10);
    assert_eq!(d.rs2, 11);
    assert_eq!(d.imm, (-4i32) as u32);
}

#[test]
fn decode_store_offset() {
    // sw a1, 8(a0)
    let d = decode(&rv32i(), 0x00b52423);
    assert_eq!(d.inst, Inst::Sw);
    assert_eq!(d.rs1, 10);
    assert_eq!(d.rs2, 11);
    assert_eq!(d.imm, 8);
}

#[test]
fn decode_m_needs_m_extension() {
    // mul a0, a1, a2
    assert_eq!(decode(&rv64im(), 0x02c58533).inst, Inst::Mul);
    assert_eq!(decode(&rv32i(), 0x02c58533).inst, Inst::Unknown);
}

#[test]
fn decode_ebreak_and_csr() {
    assert_eq!(decode(&rv32i(), 0x0010_0073).inst, Inst::System(SystemInst::Ebreak));
    // csrrw a0, mscratch, a1
    let d = decode(&rv32i(), 0x34059573);
    assert_eq!(d.inst, Inst::System(SystemInst::Csrrw));
    assert_eq!(d.imm, 0x340);
    assert_eq!(d.rd, 10);
    assert_eq!(d.rs1, 11);
}

#[test]
fn decode_vector_needs_vlenb() {
    let v = IsaConfig { has_m: true, vlenb: 16, has_cus0: false };
    // vsetvli a0, a1, e8, m1
    let d = decode(&v, 0x0005f557);
    assert_eq!(d.inst, Inst::V(VInst::OpCfg(OpCfgInst::Vsetvli)));
    assert_eq!(d.rd, 10);
    assert_eq!(d.rs1, 11);
    assert_eq!(decode(&rv32i(), 0x0005f557).inst, Inst::Unknown);
    // vadd.vi v1, v2, 3 (unmasked)
    let d = decode(&v, 0x0221b0d7);
    assert_eq!(d.inst, Inst::V(VInst::OpIvi(OpIviInst::VaddVi)));
    assert_eq!(d.rd, 1);
    assert_eq!(d.rs2, 2);
    assert_eq!(d.imm, 3);
    assert_eq!(d.rs1, 1);
}

#[test]
fn decode_unknown_opcode() {
    let d: DecodedInst = decode(&rv32i(), 0xffff_ffff);
    assert_eq!(d.inst, Inst::Unknown);
    assert_eq!(d, DecodedInst::unknown());
}
