use remu_sim::bus::StateError;
use remu_sim::diff::{Mismatch, RegGroup};
use remu_sim::hart::Hart;
use remu_sim::inst::IsaConfig;
use remu_sim::mnist::MnistWeights;
use remu_sim::sim::{BreakpointState, SimError, SimulatorRemu, EBREAK_INST};

const BASE: u32 = 0x8000_0000;

fn rv32im() -> IsaConfig {
    IsaConfig { has_m: true, vlenb: 0, has_cus0: false }
}

fn rv32imv() -> IsaConfig {
    IsaConfig { has_m: true, vlenb: 16, has_cus0: false }
}

fn image(words: &[u32], extra: usize) -> Vec<u8> {
    let mut m = Vec::new();
    for w in words {
        m.extend_from_slice(&w.to_le_bytes());
    }
    m.resize(m.len() + extra, 0);
    m
}

// addi x1, x0, 5; addi x2, x1, 7; add x3, x1, x2; ebreak
const PROGRAM: [u32; 4] = [0x0050_0093, 0x0070_8113, 0x0020_81b3, EBREAK_INST];

fn hart(cfg: IsaConfig, words: &[u32]) -> Hart {
    Hart::new(cfg, BASE, BASE, image(words, 64), None)
}

fn step<const D: bool>(s: &mut SimulatorRemu<D>) -> Result<(), SimError> {
    assert!(s.can_step());
    s.step_once()
}

fn word_at(s: &SimulatorRemu<true>, addr: u32) -> u32 {
    s.hart.bus.read(addr, 4).unwrap()
}

#[test]
fn fresh_hart_is_zeroed() {
    let h = hart(rv32imv(), &PROGRAM);
    assert_eq!(h.pc, BASE);
    assert!(h.gpr.iter().all(|&r| r == 0));
    assert_eq!(h.gpr.len(), 32);
    assert_eq!(h.vr.len(), 32 * 16);
    assert!(h.vr.iter().all(|&b| b == 0));
    assert_eq!(h.bus.base, BASE);
}

#[test]
fn steps_run_a_program() {
    let mut s = SimulatorRemu::<false>::new(hart(rv32im(), &PROGRAM));
    step(&mut s).unwrap();
    assert_eq!(s.hart.gpr[1], 5);
    assert_eq!(s.hart.pc, BASE + 4);
    step(&mut s).unwrap();
    assert_eq!(s.hart.gpr[2], 12);
    step(&mut s).unwrap();
    assert_eq!(s.hart.gpr[3], 17);
    assert_eq!(s.hart.pc, BASE + 12);
    // The reference stops at every ebreak and does not move.
    assert_eq!(step(&mut s), Err(SimError::State(StateError::BreakpointHit(BASE + 12))));
    assert_eq!(s.hart.pc, BASE + 12);
    assert_eq!(s.breakpoint_state(), BreakpointState::Idle);
}

#[test]
fn fetch_outside_memory_is_a_bus_error() {
    let mut s = SimulatorRemu::<false>::new(Hart::new(rv32im(), 0x100, BASE, image(&PROGRAM, 0), None));
    assert_eq!(step(&mut s), Err(SimError::State(StateError::Unmapped(0x100))));
    assert_eq!(s.hart.pc, 0x100);
}

#[test]
fn x0_stays_zero() {
    // addi x0, x0, 9
    let mut s = SimulatorRemu::<false>::new(hart(rv32im(), &[0x0090_0013]));
    step(&mut s).unwrap();
    assert_eq!(s.hart.gpr[0], 0);
    assert_eq!(s.hart.pc, BASE + 4);
}

#[test]
fn store_then_load_word() {
    // lui x1, 0x80000; addi x2, x0, -2; sw x2, 32(x1); lw x3, 32(x1); lbu x4, 33(x1)
    let prog = [0x8000_00b7, 0xffe0_0113, 0x0220_a023, 0x0200_a183, 0x0210_c203];
    let mut s = SimulatorRemu::<false>::new(hart(rv32im(), &prog));
    for _ in 0..5 {
        step(&mut s).unwrap();
    }
    assert_eq!(s.hart.gpr[2], 0xffff_fffe);
    assert_eq!(s.hart.gpr[3], 0xffff_fffe);
    assert_eq!(s.hart.gpr[4], 0xff);
    assert_eq!(s.hart.bus.read(BASE + 32, 4), Ok(0xffff_fffe));
}

#[test]
fn branch_and_jump() {
    // addi x1, x0, 1; beq x1, x0, 8; jal x5, 8; (skipped); addi x6, x0, 3
    let prog = [0x0010_0093, 0x0000_8463, 0x0080_02ef, 0x0010_0313, 0x0030_0313];
    let mut s = SimulatorRemu::<false>::new(hart(rv32im(), &prog));
    step(&mut s).unwrap();
    step(&mut s).unwrap();
    assert_eq!(s.hart.pc, BASE + 8); // not taken
    step(&mut s).unwrap();
    assert_eq!(s.hart.pc, BASE + 16);
    assert_eq!(s.hart.gpr[5], BASE + 12);
    step(&mut s).unwrap();
    assert_eq!(s.hart.gpr[6], 3);
}

#[test]
fn breakpoint_stops_then_runs_original() {
    let mut s = SimulatorRemu::<true>::new(hart(rv32im(), &PROGRAM));
    s.set_breakpoint(BASE + 4).unwrap();
    assert_eq!(word_at(&s, BASE + 4), EBREAK_INST);
    assert_eq!(s.breakpoint_original(BASE + 4), Some(PROGRAM[1]));
    step(&mut s).unwrap();
    // First the breakpoint is hit and armed; nothing else changes.
    assert_eq!(step(&mut s), Err(SimError::State(StateError::BreakpointHit(BASE + 4))));
    assert_eq!(s.breakpoint_state(), BreakpointState::Active);
    assert_eq!(s.hart.pc, BASE + 4);
    assert_eq!(s.hart.gpr[2], 0);
    // Then the original instruction runs in its place.
    step(&mut s).unwrap();
    assert_eq!(s.breakpoint_state(), BreakpointState::Idle);
    assert_eq!(s.hart.gpr[2], 12);
    assert_eq!(s.hart.pc, BASE + 8);
    // The breakpoint stays set.
    assert_eq!(word_at(&s, BASE + 4), EBREAK_INST);
}

#[test]
fn set_then_del_breakpoint_restores_memory() {
    let mut s = SimulatorRemu::<true>::new(hart(rv32im(), &PROGRAM));
    let before = s.hart.bus.mem.clone();
    s.set_breakpoint(BASE + 8).unwrap();
    s.set_breakpoint(BASE + 8).unwrap();
    assert_eq!(s.breakpoint_original(BASE + 8), Some(PROGRAM[2]));
    s.del_breakpoint(BASE + 8).unwrap();
    assert_eq!(s.hart.bus.mem, before);
    assert_eq!(s.breakpoint_original(BASE + 8), None);
}

#[test]
fn breakpoint_errors() {
    let mut s = SimulatorRemu::<true>::new(hart(rv32im(), &PROGRAM));
    assert_eq!(s.set_breakpoint(BASE + 2), Err(SimError::BreakpointMisaligned(BASE + 2)));
    assert_eq!(s.del_breakpoint(BASE), Err(SimError::BreakpointNotFound(BASE)));
    assert_eq!(s.set_breakpoint(0x40), Err(SimError::State(StateError::Unmapped(0x40))));
    assert_eq!(s.breakpoint_original(0x40), None);
}

#[test]
fn reference_ebreak_never_arms() {
    let mut s = SimulatorRemu::<false>::new(hart(rv32im(), &[EBREAK_INST]));
    assert_eq!(step(&mut s), Err(SimError::State(StateError::BreakpointHit(BASE))));
    assert_eq!(step(&mut s), Err(SimError::State(StateError::BreakpointHit(BASE))));
    assert_eq!(s.breakpoint_state(), BreakpointState::Idle);
}

#[test]
fn armed_breakpoint_without_original_cannot_step() {
    // An ebreak that is part of the program, hit on the device while armed, has no original.
    let mut s = SimulatorRemu::<true>::new(hart(rv32im(), &[EBREAK_INST]));
    assert_eq!(s.step_once(), Err(SimError::State(StateError::BreakpointHit(BASE))));
    assert_eq!(s.breakpoint_state(), BreakpointState::Active);
    assert!(!s.can_step());
}

#[test]
fn regs_diff_lists_pc_and_gprs() {
    let r = SimulatorRemu::<false>::new(hart(rv32imv(), &PROGRAM));
    let mut dut = hart(rv32imv(), &PROGRAM);
    assert!(r.regs_diff(&dut).is_empty());
    assert!(r.regs_match(&dut));
    dut.pc = BASE + 4;
    dut.gpr[7] = 9;
    dut.vr[16 * 3 + 1] = 0xaa;
    let d = r.regs_diff(&dut);
    assert_eq!(d.len(), 3);
    assert!(matches!(d[0], Mismatch::Scalar { group: RegGroup::Pc, index: 0, ref_val, dut_val }
        if ref_val == BASE && dut_val == BASE + 4));
    assert!(matches!(d[1], Mismatch::Scalar { group: RegGroup::Gpr, index: 7, ref_val: 0, dut_val: 9 }));
    match &d[2] {
        Mismatch::Vector { index, ref_val, dut_val } => {
            assert_eq!(*index, 3);
            assert_eq!(ref_val, &vec![0u8; 16]);
            let mut want = vec![0u8; 16];
            want[1] = 0xaa;
            assert_eq!(dut_val, &want);
        }
        other => panic!("unexpected {other:?}"),
    }
    assert!(!r.regs_match(&dut));
}

#[test]
fn sync_from_copies_registers() {
    let mut r = SimulatorRemu::<false>::new(hart(rv32imv(), &PROGRAM));
    let mut dut = hart(rv32imv(), &PROGRAM);
    dut.pc = BASE + 8;
    dut.gpr[1] = 44;
    dut.vr[5] = 1;
    dut.csr.mepc = 0x1234;
    r.sync_from(&dut);
    assert!(r.regs_match(&dut));
    assert_eq!(r.hart.csr.mepc, 0x1234);
}

#[test]
fn mem_compare_reports_reference_bytes() {
    let r = SimulatorRemu::<false>::new(hart(rv32im(), &PROGRAM));
    let same = PROGRAM[0].to_le_bytes().to_vec();
    assert_eq!(r.mem_compare(BASE as u64, &same), None);
    let other = vec![1u8, 2, 3, 4];
    assert_eq!(r.mem_compare(BASE as u64, &other), Some(same));
    // Unmapped ranges report nothing.
    assert_eq!(r.mem_compare(0x10, &other), None);
    // The device never compares.
    let d = SimulatorRemu::<true>::new(hart(rv32im(), &PROGRAM));
    assert_eq!(d.mem_compare(BASE as u64, &other), None);
}

fn vector_hart(words: &[u32]) -> Hart {
    let mut h = hart(rv32imv(), words);
    h.csr.mstatus = 0x600; // VS = Dirty
    h
}

fn vreg(h: &Hart, i: usize) -> &[u8] {
    &h.vr[16 * i..16 * (i + 1)]
}

#[test]
fn vector_add_and_reduce() {
    let prog = [
        0xc102_72d7, // vsetivli x5, 4, e32, m1
        0x5e01_b0d7, // vmv.v.i v1, 3
        0x0212_b157, // vadd.vi v2, v1, 5
        0x0220_a1d7, // vredsum.vs v3, v2, v1
        0x4230_2357, // vmv.x.s x6, v3
    ];
    let mut s = SimulatorRemu::<false>::new(vector_hart(&prog));
    for _ in 0..5 {
        step(&mut s).unwrap();
    }
    assert_eq!(s.hart.gpr[5], 4);
    assert_eq!(s.hart.csr.vl, 4);
    assert_eq!(s.hart.csr.vtype, 0x10);
    let three: Vec<u8> = [3u32; 4].iter().flat_map(|w| w.to_le_bytes()).collect();
    let eight: Vec<u8> = [8u32; 4].iter().flat_map(|w| w.to_le_bytes()).collect();
    assert_eq!(vreg(&s.hart, 1), &three[..]);
    assert_eq!(vreg(&s.hart, 2), &eight[..]);
    assert_eq!(s.hart.gpr[6], 35);
}

#[test]
fn vector_with_vs_off_traps() {
    let mut h = hart(rv32imv(), &[0xc102_72d7]);
    h.csr.mtvec = BASE + 0x20;
    let mut s = SimulatorRemu::<false>::new(h);
    step(&mut s).unwrap();
    assert_eq!(s.hart.pc, BASE + 0x20);
    assert_eq!(s.hart.csr.mepc, BASE);
    assert_eq!(s.hart.csr.mcause, 2);
    assert_eq!(s.hart.gpr[5], 0);
}

#[test]
fn illegal_instruction_traps() {
    let mut h = hart(rv32im(), &[0xffff_ffff]);
    h.csr.mtvec = BASE + 0x40;
    let mut s = SimulatorRemu::<false>::new(h);
    step(&mut s).unwrap();
    assert_eq!(s.hart.pc, BASE + 0x40);
    assert_eq!(s.hart.csr.mepc, BASE);
    assert_eq!(s.hart.csr.mcause, 2);
}

fn zero_matrix(rows: usize, cols: usize) -> Vec<Vec<i8>> {
    vec![vec![0i8; cols]; rows]
}

#[test]
fn mnist_accelerator_round_trip() {
    let mut fc1 = zero_matrix(256, 784);
    let mut fc2 = zero_matrix(128, 256);
    let mut fc3 = zero_matrix(10, 128);
    fc1[0][0] = 1;
    fc2[0][0] = 2;
    fc3[3][0] = 3;
    let w = MnistWeights {
        fc1_weights: fc1,
        fc2_weights: fc2,
        fc3_weights: fc3,
        fc1_scale_q16: 0x1_0000,
        fc2_scale_q16: 0x1_0000,
        fc3_scale_q16: 0x1_0000,
    };
    let prog = [
        0x0050_0113, // addi x2, x0, 5
        0x0020_800b, // nn.load_act x1, x2 (input[0] = 5)
        0x0000_100b, // nn.start
        0x0030_0193, // addi x3, x0, 3
        0x0001_a20b, // nn.load x4, x3
    ];
    let cfg = IsaConfig { has_m: true, vlenb: 0, has_cus0: true };
    let h = Hart::new(cfg, BASE, BASE, image(&prog, 16), Some(w));
    let mut s = SimulatorRemu::<false>::new(h);
    for _ in 0..5 {
        step(&mut s).unwrap();
    }
    assert_eq!(s.hart.gpr[4], 30);
    assert_eq!(s.hart.pc, BASE + 20);
}

#[test]
fn breakpoints_listed_in_order() {
    let mut s = SimulatorRemu::<true>::new(hart(rv32im(), &PROGRAM));
    assert!(s.breakpoint_addrs().is_empty());
    s.set_breakpoint(BASE + 8).unwrap();
    s.set_breakpoint(BASE).unwrap();
    s.set_breakpoint(BASE + 4).unwrap();
    assert_eq!(s.breakpoint_addrs(), vec![BASE, BASE + 4, BASE + 8]);
    s.del_breakpoint(BASE + 4).unwrap();
    assert_eq!(s.breakpoint_addrs(), vec![BASE, BASE + 8]);
}

#[test]
fn vector_mask_population_count() {
    let mut h = vector_hart(&[]);
    h.csr.vl = 8;
    h.vr[16 * 2] = 0b1011_0101;
    h.vr[0] = 0b0000_1111;
    h.exec_cpop_mask(5, 2, true).unwrap();
    assert_eq!(h.gpr[5], 5);
    h.exec_cpop_mask(6, 2, false).unwrap();
    assert_eq!(h.gpr[6], 2);
    assert_eq!(h.pc, BASE + 8);
    h.csr.vl = 3;
    h.exec_cpop_mask(7, 2, true).unwrap();
    assert_eq!(h.gpr[7], 2);
    h.csr.vstart = 1;
    assert_eq!(h.exec_cpop_mask(7, 2, true), Err(StateError::Unmapped(0)));
}
