use remu_sim::alu::{
    alu_add, alu_addiw, alu_addw, alu_div, alu_divu, alu_divuw, alu_divw, alu_mulh, alu_mulhsu,
    alu_mulhu, alu_mulw, alu_rem, alu_remu, alu_remuw, alu_remw, alu_sll, alu_slliw, alu_sllw,
    alu_slt, alu_sltu, alu_sra, alu_sraiw, alu_sraw, alu_srl, alu_srliw, alu_srlw, alu_sub,
    alu_subw,
};
use remu_sim::vops::{
    binop_add_vi, binop_add_vx, binop_and_vi, binop_macc, binop_max_vv, binop_shl_vi, binop_shl_vx,
    binop_shr_vi, binop_shr_vx, binop_sub_vi, binop_sub_vv, merge_scalar_vi, merge_scalar_vx,
    scalar_sext,
};
use remu_sim::bus::{Bus, StateError};
use remu_sim::diff::{csr_differs, diff_scalar, Mismatch, RegGroup};
use remu_sim::mnist::{
    int32_to_int8_arr, matmul_sym, parse_weight_matrix, relu8, WEIGHT_HEADER_LEN,
};
use remu_sim::refsim::{
    build_next, build_start, difftest_layout, gpr_write_regs, hex_lower, page_round_up,
    pc_write_regs, print_count, read_value, set_plan, source_hash, spike_is_fresh,
    spike_step_result, BuildStage, RefError,
};
use remu_sim::sim::BreakpointState;
use remu_sim::vcontext::{calculate_vlmax, nf_from_vlmul, vlmax_vlenb_vtype, zimm_to_vtype, Sew};

// ---- ALU ----

#[test]
fn alu_wraps_and_compares() {
    assert_eq!(alu_add(0xffff_ffff, 2), 1);
    assert_eq!(alu_sub(0, 1), 0xffff_ffff);
    assert_eq!(alu_slt(0xffff_ffff, 0), 1); // -1 < 0
    assert_eq!(alu_sltu(0xffff_ffff, 0), 0);
}

#[test]
fn alu_shifts_use_low_five_bits() {
    assert_eq!(alu_sll(1, 33), 2);
    assert_eq!(alu_srl(0x8000_0000, 31), 1);
    assert_eq!(alu_sra(0x8000_0000, 31), 0xffff_ffff);
    assert_eq!(alu_sra(0xffff_fff0, 2), 0xffff_fffc); // -16 >> 2 == -4
    assert_eq!(alu_sra(0x7fff_ffff, 36), 0x07ff_ffff);
}

#[test]
fn alu_high_products() {
    assert_eq!(alu_mulhu(0xffff_ffff, 0xffff_ffff), 0xffff_fffe);
    assert_eq!(alu_mulh(0xffff_ffff, 0xffff_ffff), 0); // -1 * -1 == 1
    assert_eq!(alu_mulh(0x8000_0000, 2), 0xffff_ffff); // -2^31 * 2 == -2^32
    assert_eq!(alu_mulhsu(0xffff_ffff, 0xffff_ffff), 0xffff_ffff);
}

#[test]
fn alu_division_edge_cases() {
    assert_eq!(alu_div(7, 0), 0xffff_ffff);
    assert_eq!(alu_divu(7, 0), 0xffff_ffff);
    assert_eq!(alu_rem(7, 0), 7);
    assert_eq!(alu_remu(7, 0), 7);
    assert_eq!(alu_div(0x8000_0000, 0xffff_ffff), 0x8000_0000); // overflow
    assert_eq!(alu_rem(0x8000_0000, 0xffff_ffff), 0);
    assert_eq!(alu_div((-7i32) as u32, 2), (-3i32) as u32); // rounds toward zero
    assert_eq!(alu_rem((-7i32) as u32, 2), (-1i32) as u32); // sign of the dividend
    assert_eq!(alu_divu(7, 2), 3);
    assert_eq!(alu_remu(7, 2), 1);
}

#[test]
fn alu_word_operations_sign_extend() {
    assert_eq!(alu_addiw(0x7fff_ffff, 1), 0xffff_ffff_8000_0000);
    assert_eq!(alu_divw(5, 0), u64::MAX);
    assert_eq!(alu_remw(0xdead_beef_0000_0009, 4), 1);
    assert_eq!(alu_sraiw(0x8000_0000, 4), 0xffff_ffff_f800_0000);
}

#[test]
fn alu_register_word_operations() {
    assert_eq!(alu_addw(0xffff_ffff, 1), 0);
    assert_eq!(alu_subw(0, 1), u64::MAX);
    assert_eq!(alu_sllw(1, 31), 0xffff_ffff_8000_0000);
    assert_eq!(alu_srlw(0x8000_0000, 31), 1);
    assert_eq!(alu_sraw(0x8000_0000, 31), u64::MAX);
    assert_eq!(alu_mulw(0x1_0000, 0x1_0000), 0);
    assert_eq!(alu_divuw(0xffff_fffe, 2), 0x7fff_ffff);
    assert_eq!(alu_remuw(7, 0), 7);
    assert_eq!(alu_slliw(3, 30), 0xffff_ffff_c000_0000);
    assert_eq!(alu_srliw(0xffff_ffff_8000_0000, 4), 0x0800_0000);
}

#[test]
fn vector_element_operations_wrap_at_sew() {
    assert_eq!(binop_add_vi(5, 0xff, 1), 4);
    assert_eq!(binop_add_vi(-1, 0, 2), 0xffff);
    assert_eq!(binop_sub_vi(1, 3, 1), 0xfe); // 1 - 3
    assert_eq!(binop_and_vi(-2, 0xff, 1), 0xfe);
    assert_eq!(binop_add_vx(0x1_0000_0001, 0xffff_ffff, 4), 0);
    assert_eq!(binop_sub_vv(1, 3, 4), 2);
    assert_eq!(binop_max_vv(0x80, 0x7f, 1), 0x7f); // signed: -128 < 127
    assert_eq!(binop_shl_vi(1, 0x81, 1), 0x02);
    assert_eq!(binop_shr_vi(9, 0x80, 1), 0x40); // shift by 9 mod 8
    assert_eq!(binop_shl_vx(33, 1, 4), 2);
    assert_eq!(binop_shr_vx(64, 8, 8), 8);
    assert_eq!(merge_scalar_vi(-1, 4), 0xffff_ffff);
    assert_eq!(merge_scalar_vx(0x1234_5678, 2), 0x5678);
    assert_eq!(scalar_sext(0x80, 1), -128);
    assert_eq!(scalar_sext(0x80, 2), 0x80);
    assert_eq!(scalar_sext(0xffff_ffff, 8), -1);
    assert_eq!(scalar_sext(0x7fff_ffff, 8), 0x7fff_ffff);
    assert_eq!(scalar_sext(0x8000_0000, 4), -0x8000_0000);
    assert_eq!(binop_macc(3, 4, 5, 1), 17);
}

#[test]
fn division_identity_holds() {
    let vals = [0u32, 1, 2, 7, 0x7fff_ffff, 0x8000_0000, 0xffff_fff9, 0xffff_ffff];
    for &a in &vals {
        for &b in &vals {
            let q = alu_div(a, b);
            let r = alu_rem(a, b);
            assert_eq!(q.wrapping_mul(b).wrapping_add(r), a, "signed {a:#x} / {b:#x}");
            let qu = alu_divu(a, b);
            let ru = alu_remu(a, b);
            assert_eq!(qu.wrapping_mul(b).wrapping_add(ru), a, "unsigned {a:#x} / {b:#x}");
        }
    }
}

// ---- Bus ----

#[test]
fn bus_little_endian_round_trip() {
    let mut bus = Bus { base: 0x1000, mem: vec![0; 16] };
    bus.write(0x1004, 4, 0x1234_5678).unwrap();
    assert_eq!(&bus.mem[4..8], &[0x78, 0x56, 0x34, 0x12]);
    assert_eq!(bus.read(0x1004, 4), Ok(0x1234_5678));
    assert_eq!(bus.read(0x1005, 2), Ok(0x3456));
    assert_eq!(bus.read(0x1007, 1), Ok(0x12));
    bus.write(0x1004, 2, 0xffff_abcd).unwrap();
    assert_eq!(bus.read(0x1004, 4), Ok(0x1234_abcd));
}

#[test]
fn bus_rejects_unmapped() {
    let mut bus = Bus { base: 0x1000, mem: vec![0; 16] };
    assert_eq!(bus.read(0x0fff, 1), Err(StateError::Unmapped(0x0fff)));
    assert_eq!(bus.read(0x100e, 4), Err(StateError::Unmapped(0x100e)));
    assert_eq!(bus.write(0x1010, 1, 5), Err(StateError::Unmapped(0x1010)));
    assert_eq!(bus.mem, vec![0; 16]);
    assert_eq!(bus.read_u8(0x1_0000_1000), Err(StateError::Unmapped(0x1000)));
}

// ---- Vector configuration ----

#[test]
fn vlmax_formulas() {
    // VLEN = 128 bits.
    assert_eq!(calculate_vlmax(16, 0x10), 4); // e32, m1
    assert_eq!(calculate_vlmax(16, 0x00), 16); // e8, m1
    assert_eq!(calculate_vlmax(16, 0x03), 128); // e8, m8
    assert_eq!(calculate_vlmax(16, 0x17), 2); // e32, mf2
    assert_eq!(calculate_vlmax(16, 0x04), 0); // reserved LMUL
    assert_eq!(vlmax_vlenb_vtype(16, 0x10), 4);
    assert_eq!(vlmax_vlenb_vtype(16, 0x03), 128);
    assert_eq!(vlmax_vlenb_vtype(16, 0x17), 2);
}

#[test]
fn signed_reads_sign_extend_unsigned_reads() {
    assert_eq!(Sew::E16.read_i(&[0xfe, 0xff], 0), -2);
    assert_eq!(Sew::E16.read_u(&[0xfe, 0xff], 0), 0xfffe);
    assert_eq!(Sew::E8.read_i(&[0x7f], 0), 127);
    assert_eq!(Sew::E32.read_i(&[0, 0, 0, 0x80], 0), -0x8000_0000);
    assert_eq!(Sew::E32.read_u(&[0, 0, 0, 0x80], 0), 0x8000_0000);
}

#[test]
fn vector_group_sizes() {
    assert_eq!(nf_from_vlmul(0), 1);
    assert_eq!(nf_from_vlmul(1), 2);
    assert_eq!(nf_from_vlmul(2), 4);
    assert_eq!(nf_from_vlmul(3), 8);
    assert_eq!(nf_from_vlmul(7), 1);
    assert_eq!(zimm_to_vtype(0x3d0), 0xd0);
}

// ---- MNIST accelerator ----

#[test]
fn requantize_scales_by_max() {
    assert_eq!(int32_to_int8_arr(&vec![0, 0, 0]), vec![0, 0, 0]);
    assert_eq!(int32_to_int8_arr(&vec![100, -50, 127]), vec![100, -50, 127]);
    // max 1000 needs a shift of 3 (1000 >> 3 == 125).
    assert_eq!(int32_to_int8_arr(&vec![1000, -1000, 9]), vec![125, -125, 1]);
    // Arithmetic shift floors negative values.
    assert_eq!(int32_to_int8_arr(&vec![256, -3]), vec![64, -1]);
}

#[test]
fn relu_clears_negatives() {
    let mut v = vec![-3i8, 0, 5, -128, 127];
    relu8(&mut v);
    assert_eq!(v, vec![0, 0, 5, 0, 127]);
}

#[test]
fn matmul_scales_and_floors() {
    let w = vec![vec![1i8, 2, 3], vec![-1, -1, -1]];
    let x = vec![1i8, 1, 1];
    // scale 1.5 in Q16.
    assert_eq!(matmul_sym(&w, &x, 0x1_8000), vec![9, -5]);
    assert_eq!(matmul_sym(&w, &x, 0x1_0000), vec![6, -3]);
}

#[test]
fn matmul_accepts_wide_rows() {
    let cols = 100_000;
    let w = vec![vec![-128i8; cols]];
    let x = vec![-128i8; cols];
    assert_eq!(matmul_sym(&w, &x, 0x1_0000), vec![1_638_400_000]);
}

#[test]
fn weight_matrix_parses_after_header() {
    let mut data = vec![0u8; WEIGHT_HEADER_LEN];
    data.extend_from_slice(&[1, 0xff, 2, 0x80, 3, 4]);
    let m = parse_weight_matrix(&data, 2, 3).unwrap();
    assert_eq!(m, vec![vec![1, -1, 2], vec![-128, 3, 4]]);
    assert!(parse_weight_matrix(&data, 3, 3).is_none());
}

// ---- Register comparison ----

#[test]
fn scalar_diff_lists_in_order() {
    let r = vec![0u32; 32];
    let mut d = vec![0u32; 32];
    d[3] = 1;
    d[31] = 2;
    let out = diff_scalar(0x100, &r, 0x100, &d);
    assert_eq!(out.len(), 2);
    assert!(matches!(out[0], Mismatch::Scalar { group: RegGroup::Gpr, index: 3, ref_val: 0, dut_val: 1 }));
    assert!(matches!(out[1], Mismatch::Scalar { group: RegGroup::Gpr, index: 31, ref_val: 0, dut_val: 2 }));
    assert!(diff_scalar(0x100, &r, 0x100, &r).is_empty());
}

#[test]
fn csr_masks() {
    assert!(!csr_differs(0x10, 0x20, 0));
    assert!(!csr_differs(0x11, 0x21, 0x1));
    assert!(csr_differs(0x11, 0x21, 0x10));
}

// ---- Reference simulators ----

#[test]
fn source_hash_is_hex_sha256() {
    assert_eq!(
        source_hash(b"abc"),
        b"ba7816bf8f01cfea414140de5dae2223b00361a396177a9cb410ff61f20015ad".to_vec()
    );
    assert_eq!(
        source_hash(b""),
        b"e3b0c44298fc1c149afbf4c8996fb92427ae41e4649b934ca495991b7852b855".to_vec()
    );
    assert_eq!(hex_lower(&[0x00, 0x9f, 0xa0]), b"009fa0".to_vec());
}

#[test]
fn spike_freshness() {
    assert!(spike_is_fresh(true, true, b"abc", b"abc"));
    assert!(!spike_is_fresh(true, true, b"abc", b"abd"));
    assert!(!spike_is_fresh(false, true, b"abc", b"abc"));
    assert!(!spike_is_fresh(true, false, b"abc", b"abc"));
}

#[test]
fn spike_build_plan() {
    assert_eq!(build_start(true), (BuildStage::Configure, 4));
    assert_eq!(build_start(false), (BuildStage::Make, 3));
    let mut stage = BuildStage::Configure;
    let mut advanced = 0;
    while stage != BuildStage::Done {
        let (next, inc) = build_next(stage, true);
        stage = next;
        if inc {
            advanced += 1;
        }
    }
    assert_eq!(advanced, 3);
    assert_eq!(build_next(BuildStage::Make, false), (BuildStage::Failed, false));
}

#[test]
fn spike_step_status() {
    assert_eq!(spike_step_result(false, 0), Err(RefError::NotInitialized));
    assert_eq!(spike_step_result(true, 0), Ok(()));
    assert_eq!(spike_step_result(true, 1), Err(RefError::ProgramExited));
    assert_eq!(spike_step_result(true, -2), Err(RefError::StepFailed(-2)));
}

#[test]
fn debugger_register_writes() {
    let gpr: Vec<u32> = (0..32).collect();
    let r = gpr_write_regs(0x80, &gpr, 5, 99);
    assert_eq!(r.pc, 0x80);
    assert_eq!(r.gpr[5], 99);
    assert_eq!(r.gpr[6], 6);
    let z = gpr_write_regs(0x80, &gpr, 0, 99);
    assert_eq!(z.gpr, gpr);
    let p = pc_write_regs(0x44, &gpr);
    assert_eq!(p.pc, 0x44);
    assert_eq!(p.gpr, gpr);
}

#[test]
fn memory_values_and_plans() {
    let buf = [0x01u8, 0x02, 0x03, 0x04, 0x05, 0x06, 0x07, 0x08];
    assert_eq!(read_value(&buf, 1), 0x01);
    assert_eq!(read_value(&buf, 2), 0x0201);
    assert_eq!(read_value(&buf, 4), 0x0403_0201);
    assert_eq!(read_value(&buf, 8), 0x0807_0605_0403_0201);
    assert_eq!(print_count(10), 10);
    assert_eq!(print_count(1000), 256);
    assert_eq!(set_plan(0x100, &vec![4, 0, 2]), vec![(0x100, 0), (0x104, 2)]);
    assert_eq!(set_plan(usize::MAX - 1, &vec![4, 1]), vec![(usize::MAX - 1, 0), (usize::MAX, 1)]);
    assert_eq!(difftest_layout(&vec![(0x8000_0000, 0x8800_0000)]), vec![(0x8000_0000, 0x0800_0000)]);
    assert_eq!(page_round_up(0), 0);
    assert_eq!(page_round_up(1), 4096);
    assert_eq!(page_round_up(4096), 4096);
    assert_eq!(page_round_up(4097), 8192);
}

#[test]
fn breakpoint_state_defaults_to_idle() {
    assert_eq!(BreakpointState::default(), BreakpointState::Idle);
}
