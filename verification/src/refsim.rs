//! The decisions around the reference simulators: the freshness check and build plan of
//! the Spike library, the meaning of Spike's step status, the register block handed to
//! Spike, the values read back from its memory, and the memory layout given to Spike and
//! Unicorn.

use vstd::prelude::*;
use sha2::Digest;
use crate::bus::load_le;
use crate::hart::Hart;

verus! {

// ---------------------------------------------------------------------------
// Source hash
// ---------------------------------------------------------------------------
/// The SHA-256 digest of a byte string.
pub uninterp spec fn sha256(data: Seq<u8>) -> Seq<u8>;

/// Calls `sha2::Sha256::digest`. Trusted: the result is the SHA-256 digest of `data`
/// (named by `sha256`), 32 bytes long as the type's output size fixes it.
#[verifier::external_body]
fn sha256_digest(data: &[u8]) -> (r: Vec<u8>)
    ensures
        r@ == sha256(data@),
        r@.len() == 32,
{
    sha2::Sha256::digest(data).to_vec()
}

/// The lowercase ASCII hex digit of `n < 16`.
pub open spec fn hex_digit(n: u8) -> u8 {
    if n < 10 {
        (48 + n) as u8
    } else {
        (87 + n) as u8
    }
}

/// Two lowercase hex digits per byte, most significant first.
pub open spec fn hex_of(b: Seq<u8>) -> Seq<u8>
    decreases b.len(),
{
    if b.len() == 0 {
        Seq::empty()
    } else {
        let x = b.last();
        hex_of(b.drop_last()) + seq![hex_digit(x / 16), hex_digit(x % 16)]
    }
}

fn hex_digit_of(n: u8) -> (r: u8)
    requires
        n < 16,
    ensures
        r == hex_digit(n),
{
    if n < 10 {
        48 + n
    } else {
        87 + n
    }
}

/// Lowercase hex of `bytes`, as ASCII.
pub fn hex_lower(bytes: &[u8]) -> (r: Vec<u8>)
    ensures
        r@ == hex_of(bytes@),
{
    let mut out: Vec<u8> = Vec::new();
    let mut i: usize = 0;
    while i < bytes.len()
        invariant
            i <= bytes@.len(),
            out@ == hex_of(bytes@.subrange(0, i as int)),
        decreases bytes@.len() - i,
    {
        let x = bytes[i];
        out.push(hex_digit_of(x / 16));
        out.push(hex_digit_of(x % 16));
        proof {
            let s = bytes@.subrange(0, i + 1);
            assert(s.drop_last() =~= bytes@.subrange(0, i as int));
            assert(s.last() == x);
        }
        i = i + 1;
    }
    assert(bytes@.subrange(0, bytes@.len() as int) =~= bytes@);
    out
}

/// The stamp of the Spike sources: the lowercase hex SHA-256 of their concatenated
/// contents (files in the order they are read).
pub fn source_hash(contents: &[u8]) -> (r: Vec<u8>)
    ensures
        r@ == hex_of(sha256(contents@)),
        r@.len() == 64,
{
    let d = sha256_digest(contents);
    let h = hex_lower(d.as_slice());
    proof {
        lemma_hex_len(d@);
    }
    h
}

proof fn lemma_hex_len(b: Seq<u8>)
    ensures
        hex_of(b).len() == 2 * b.len(),
    decreases b.len(),
{
    if b.len() > 0 {
        lemma_hex_len(b.drop_last());
    }
}

/// The built library can be reused: it and its stamp exist and the stamp is the current
/// source hash.
pub fn spike_is_fresh(so_exists: bool, stamp_exists: bool, stored: &[u8], current: &[u8]) -> (r: bool)
    ensures
        r == (so_exists && stamp_exists && stored@ == current@),
{
    if !(so_exists && stamp_exists) {
        return false;
    }
    if stored.len() != current.len() {
        return false;
    }
    let mut i: usize = 0;
    while i < stored.len()
        invariant
            i <= stored@.len(),
            stored@.len() == current@.len(),
            forall|k: int| 0 <= k < i ==> stored@[k] == current@[k],
        decreases stored@.len() - i,
    {
        if stored[i] != current[i] {
            return false;
        }
        i = i + 1;
    }
    assert(stored@ =~= current@);
    true
}

// ---------------------------------------------------------------------------
// Building the Spike library
// ---------------------------------------------------------------------------
/// A stage of building the Spike shared library.
#[derive(Clone, Copy, Debug, PartialEq, Eq, Structural)]
pub enum BuildStage {
    Configure,
    Make,
    CheckLibs,
    CompileWrapper,
    Link,
    Install,
    Done,
    Failed,
}

/// The first stage: `configure` only when the build directory has no Makefile.
pub fn build_start(need_configure: bool) -> (r: (BuildStage, u64))
    ensures
        r.0 == (if need_configure {
            BuildStage::Configure
        } else {
            BuildStage::Make
        }),
        r.1 == (if need_configure {
            4u64
        } else {
            3u64
        }),
{
    if need_configure {
        (BuildStage::Configure, 4)
    } else {
        (BuildStage::Make, 3)
    }
}

/// The stage after `stage` finished (`ok`) or failed, and whether the progress counter
/// advances.
pub open spec fn spec_build_next(stage: BuildStage, ok: bool) -> (BuildStage, bool) {
    if !ok {
        (BuildStage::Failed, false)
    } else {
        match stage {
            BuildStage::Configure => (BuildStage::Make, true),
            BuildStage::Make => (BuildStage::CheckLibs, true),
            BuildStage::CheckLibs => (BuildStage::CompileWrapper, false),
            BuildStage::CompileWrapper => (BuildStage::Link, true),
            BuildStage::Link => (BuildStage::Install, false),
            BuildStage::Install => (BuildStage::Done, false),
            BuildStage::Done => (BuildStage::Done, false),
            BuildStage::Failed => (BuildStage::Failed, false),
        }
    }
}

pub fn build_next(stage: BuildStage, ok: bool) -> (r: (BuildStage, bool))
    ensures
        r == spec_build_next(stage, ok),
{
    if !ok {
        return (BuildStage::Failed, false);
    }
    match stage {
        BuildStage::Configure => (BuildStage::Make, true),
        BuildStage::Make => (BuildStage::CheckLibs, true),
        BuildStage::CheckLibs => (BuildStage::CompileWrapper, false),
        BuildStage::CompileWrapper => (BuildStage::Link, true),
        BuildStage::Link => (BuildStage::Install, false),
        BuildStage::Install => (BuildStage::Done, false),
        BuildStage::Done => (BuildStage::Done, false),
        BuildStage::Failed => (BuildStage::Failed, false),
    }
}

/// A build in which every stage succeeds reaches `Done`, and the counter advances once
/// for each of the `steps` that `build_start` announced but the last.
pub proof fn lemma_build_completes(need_configure: bool)
    ensures
        ({
            let s0 = if need_configure {
                BuildStage::Configure
            } else {
                BuildStage::Make
            };
            let (s1, i1) = spec_build_next(s0, true);
            let (s2, i2) = spec_build_next(s1, true);
            let (s3, i3) = spec_build_next(s2, true);
            let (s4, i4) = spec_build_next(s3, true);
            let (s5, i5) = spec_build_next(s4, true);
            if need_configure {
                let (s6, i6) = spec_build_next(s5, true);
                &&& s6 == BuildStage::Done
                &&& (i1 as int + i2 as int + i3 as int + i4 as int + i5 as int + i6 as int) == 3
            } else {
                &&& s5 == BuildStage::Done
                &&& (i1 as int + i2 as int + i3 as int + i4 as int + i5 as int) == 2
            }
        }),
{
}

// ---------------------------------------------------------------------------
// Stepping Spike
// ---------------------------------------------------------------------------
/// Why the reference simulator could not step.
#[derive(Clone, Copy, Debug, PartialEq, Eq, Structural)]
pub enum RefError {
    /// The Spike context was never created (no memory, or initialisation failed).
    NotInitialized,
    /// The program exited (`ecall` exit).
    ProgramExited,
    /// Spike reported another status.
    StepFailed(i32),
}

/// The meaning of Spike's step status: 0 a step, 1 the program exited, anything else an
/// error.
pub fn spike_step_result(initialized: bool, ret: i32) -> (r: Result<(), RefError>)
    ensures
        !initialized ==> r == Err::<(), RefError>(RefError::NotInitialized),
        initialized && ret == 0 ==> r == Ok::<(), RefError>(()),
        initialized && ret == 1 ==> r == Err::<(), RefError>(RefError::ProgramExited),
        initialized && ret != 0 && ret != 1 ==> r == Err::<(), RefError>(RefError::StepFailed(ret)),
{
    if !initialized {
        Err(RefError::NotInitialized)
    } else if ret == 0 {
        Ok(())
    } else if ret == 1 {
        Err(RefError::ProgramExited)
    } else {
        Err(RefError::StepFailed(ret))
    }
}

// ---------------------------------------------------------------------------
// Registers handed to Spike
// ---------------------------------------------------------------------------
/// The register block Spike takes: pc and the 32 general registers.
pub struct DifftestRegs {
    pub pc: u32,
    pub gpr: Vec<u32>,
}

/// The pc and general registers of a hart, for Spike.
pub fn difftest_regs_of(h: &Hart) -> (r: DifftestRegs)
    requires
        h.wf(),
    ensures
        r.pc == h@.pc,
        r.gpr@ == h@.gpr,
{
    let gpr = h.gpr.clone();
    proof {
        assert(gpr@ =~= h.gpr@);
    }
    DifftestRegs { pc: h.pc, gpr }
}

/// The block after a debugger write of `value` to general register `index` (`x0` stays
/// zero).
pub fn gpr_write_regs(pc: u32, gpr: &Vec<u32>, index: usize, value: u32) -> (r: DifftestRegs)
    requires
        gpr@.len() == 32,
        index < 32,
    ensures
        r.pc == pc,
        r.gpr@ == if index != 0 {
            gpr@.update(index as int, value)
        } else {
            gpr@
        },
{
    let mut g = gpr.clone();
    proof {
        assert(g@ =~= gpr@);
    }
    if index != 0 {
        g.set(index, value);
    }
    DifftestRegs { pc, gpr: g }
}

/// The block after a debugger write of the pc.
pub fn pc_write_regs(value: u32, gpr: &Vec<u32>) -> (r: DifftestRegs)
    ensures
        r.pc == value,
        r.gpr@ == gpr@,
{
    let g = gpr.clone();
    proof {
        assert(g@ =~= gpr@);
    }
    DifftestRegs { pc: value, gpr: g }
}

// ---------------------------------------------------------------------------
// Memory commands on the reference
// ---------------------------------------------------------------------------
/// The little-endian value of the first `width` bytes of `buf`.
pub fn read_value(buf: &[u8], width: usize) -> (r: u128)
    requires
        width == 1 || width == 2 || width == 4 || width == 8 || width == 16,
        width <= buf@.len(),
    ensures
        r == load_le(buf@, 0, width as nat),
{
    let mut v: u128 = 0;
    let mut k: usize = width;
    proof {
        reveal_with_fuel(crate::bus::pow256, 17);
        crate::bus::lemma_load_le_bound(buf@, 0, width as nat);
    }
    while k > 0
        invariant
            k <= width,
            width <= 16,
            width <= buf@.len(),
            v == load_le(buf@, k as int, (width - k) as nat),
        decreases k,
    {
        proof {
            crate::bus::lemma_load_le_bound(buf@, k as int, (width - k) as nat);
            lemma_pow256_le((width - k) as nat, 15);
            reveal_with_fuel(crate::bus::pow256, 17);
        }
        k = k - 1;
        let prev = v;
        let b = buf[k];
        v = prev * 256 + b as u128;
    }
    v
}

proof fn lemma_pow256_le(a: nat, b: nat)
    requires
        a <= b,
    ensures
        crate::bus::pow256(a) <= crate::bus::pow256(b),
    decreases b,
{
    if a < b {
        lemma_pow256_le(a, (b - 1) as nat);
    }
}

/// Bytes a memory print shows: at most 256.
pub fn print_count(count: usize) -> (r: usize)
    ensures
        r == if count < 256 {
            count
        } else {
            256
        },
{
    if count < 256 {
        count
    } else {
        256
    }
}

/// Where each chunk of a memory `set` goes, from chunk `i` on at address `addr`: chunks
/// follow one another (the address saturates at the top); empty chunks are skipped. Each
/// write is `(address, chunk index)`.
pub open spec fn set_plan_from(addr: usize, lens: Seq<usize>, i: int) -> Seq<(usize, usize)>
    decreases lens.len() - i,
{
    if i < 0 || i >= lens.len() {
        Seq::empty()
    } else {
        let l = lens[i];
        let next = if addr + l > usize::MAX {
            usize::MAX
        } else {
            (addr + l) as usize
        };
        let rest = set_plan_from(next, lens, i + 1);
        if l == 0 {
            rest
        } else {
            seq![(addr, i as usize)] + rest
        }
    }
}

/// The writes of a memory `set` at `addr` with chunks of lengths `lens`.
pub fn set_plan(addr: usize, lens: &Vec<usize>) -> (r: Vec<(usize, usize)>)
    ensures
        r@ == set_plan_from(addr, lens@, 0),
{
    let mut out: Vec<(usize, usize)> = Vec::new();
    let mut a = addr;
    let mut i: usize = 0;
    while i < lens.len()
        invariant
            i <= lens@.len(),
            out@ + set_plan_from(a, lens@, i as int) == set_plan_from(addr, lens@, 0),
        decreases lens@.len() - i,
    {
        let l = lens[i];
        let ghost rest = set_plan_from(a.saturating_add(l), lens@, i + 1);
        if l != 0 {
            out.push((a, i));
            proof {
                assert(out@ + rest =~= out@.drop_last() + (seq![(a, i)] + rest));
            }
        }
        a = a.saturating_add(l);
        i = i + 1;
    }
    assert(out@ + set_plan_from(a, lens@, i as int) =~= out@);
    out
}

// ---------------------------------------------------------------------------
// Memory layout of the reference simulators
// ---------------------------------------------------------------------------
/// Spike's memory layout: for each region `start .. end`, its base and size.
pub fn difftest_layout(regions: &Vec<(usize, usize)>) -> (r: Vec<(usize, usize)>)
    requires
        forall|i: int| 0 <= i < regions@.len() ==> #[trigger] regions@[i].0 <= regions@[i].1,
    ensures
        r@.len() == regions@.len(),
        forall|i: int|
            0 <= i < regions@.len() ==> #[trigger] r@[i] == (
                regions@[i].0,
                (regions@[i].1 - regions@[i].0) as usize,
            ),
{
    let mut out: Vec<(usize, usize)> = Vec::new();
    let mut i: usize = 0;
    while i < regions.len()
        invariant
            i <= regions@.len(),
            out@.len() == i,
            forall|k: int| 0 <= k < regions@.len() ==> #[trigger] regions@[k].0 <= regions@[k].1,
            forall|k: int|
                0 <= k < i ==> #[trigger] out@[k] == (
                    regions@[k].0,
                    (regions@[k].1 - regions@[k].0) as usize,
                ),
        decreases regions@.len() - i,
    {
        let (start, end) = regions[i];
        out.push((start, end - start));
        i = i + 1;
    }
    out
}

/// Unicorn maps whole 4 KiB pages: the length rounded up to a page.
pub fn page_round_up(len: usize) -> (r: usize)
    requires
        len + 4095 <= usize::MAX,
    ensures
        r % 4096 == 0,
        len <= r < len + 4096,
{
    ((len + 4095) / 4096) * 4096
}

} // verus!
