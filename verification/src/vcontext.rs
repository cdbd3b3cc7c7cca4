//! Vector configuration arithmetic: VLMAX, register grouping, element width, element access
//! inside a register, mask bits and register-range checks.

use vstd::prelude::*;
use crate::bus::{load_le, lemma_load_le_bound, lemma_store_le_len, pow256, store_le, StateError};

verus! {

/// `vtype.vsew` (bits 5:3).
pub open spec fn spec_vsew(vtype: u32) -> u32 {
    (vtype / 8) % 8
}

/// `vtype.vlmul` (bits 2:0).
pub open spec fn spec_vlmul(vtype: u32) -> u32 {
    vtype % 8
}

/// log2(LMUL) for the encodings this model accepts; `None` for the reserved encoding 4.
pub open spec fn lmul_log2(vlmul: u32) -> Option<int> {
    if vlmul <= 3 {
        Some(vlmul as int)
    } else if vlmul == 4 {
        None
    } else {
        Some(vlmul as int - 8)
    }
}

/// `2^e` for the small exponents that occur here.
pub open spec fn pow2i(e: nat) -> nat
    decreases e,
{
    if e == 0 {
        1
    } else {
        2 * pow2i((e - 1) as nat)
    }
}

/// VLMAX = LMUL · VLEN / SEW = vlenb · 2^(log2 LMUL − vsew), truncated to 32 bits; zero for a
/// reserved LMUL or SEW.
pub open spec fn spec_calculate_vlmax(vlenb: u32, vtype: u32) -> u32 {
    let vsew = spec_vsew(vtype);
    match lmul_log2(spec_vlmul(vtype)) {
        None => 0,
        Some(l) => if vsew > 3 {
            0
        } else {
            let t = l - vsew;
            if t >= 0 {
                ((vlenb * pow2i(t as nat)) % 0x1_0000_0000) as u32
            } else {
                (vlenb as nat / pow2i((-t) as nat)) as u32
            }
        },
    }
}

/// VLMAX in elements (the standard formula, valid for fractional LMUL).
pub fn calculate_vlmax(vlenb: u32, vtype: u32) -> (r: u32)
    ensures
        r == spec_calculate_vlmax(vlenb, vtype),
{
    let vsew = (vtype >> 3) & 0x7;
    let vlmul = vtype & 0x7;
    proof {
        crate::bits::lemma_u32_fields(vtype);
    }
    let lmul_shift: i8 = match vlmul {
        0 => 0,
        1 => 1,
        2 => 2,
        3 => 3,
        5 => -3,
        6 => -2,
        7 => -1,
        _ => {
            return 0;
        },
    };
    let sew_shift: i8 = match vsew {
        0 => 0,
        1 => -1,
        2 => -2,
        3 => -3,
        _ => {
            return 0;
        },
    };
    let total_shift = lmul_shift + sew_shift;
    proof {
        reveal_with_fuel(pow2i, 7);
    }
    if total_shift >= 0 {
        let s = total_shift as u32;
        let r = vlenb << s;
        assert(r as int == (vlenb as int * (if s == 0 {
            1int
        } else if s == 1 {
            2int
        } else if s == 2 {
            4int
        } else {
            8int
        })) % 0x1_0000_0000) by (bit_vector)
            requires
                s < 4,
                r == vlenb << s,
        ;
        r
    } else {
        let s = (-total_shift) as u32;
        let r = vlenb >> s;
        proof {
            vstd::bits::lemma_u32_shr_is_div(vlenb, s);
            vstd::arithmetic::power2::lemma2_to64();
            assert(pow2i(s as nat) == vstd::arithmetic::power2::pow2(s as nat));
        }
        r
    }
}

/// The number of registers in a group (1/2/4/8) for an integer LMUL; fractional and
/// reserved encodings use one register.
pub open spec fn spec_nf_from_vlmul(vlmul: u32) -> usize {
    let m = vlmul % 8;
    if m == 0 {
        1
    } else if m == 1 {
        2
    } else if m == 2 {
        4
    } else if m == 3 {
        8
    } else {
        1
    }
}

pub fn nf_from_vlmul(vlmul: u32) -> (r: usize)
    ensures
        r == spec_nf_from_vlmul(vlmul),
{
    let m = vlmul & 0x7;
    proof {
        crate::bits::lemma_u32_fields(vlmul);
    }
    match m {
        0 => 1,
        1 => 2,
        2 => 4,
        3 => 8,
        _ => 1,
    }
}

/// SEW/8 for an element of the encoded width; the reserved widths are treated as 32 bits.
pub open spec fn spec_sew_bytes(vtype: u32) -> usize {
    let v = spec_vsew(vtype);
    if v == 0 {
        1
    } else if v == 1 {
        2
    } else if v == 3 {
        8
    } else {
        4
    }
}

/// Element width.
#[derive(Clone, Copy, Debug, PartialEq, Eq, Structural)]
pub enum Sew {
    E8,
    E16,
    E32,
    E64,
}

pub open spec fn sew_bytes_of(s: Sew) -> usize {
    match s {
        Sew::E8 => 1,
        Sew::E16 => 2,
        Sew::E32 => 4,
        Sew::E64 => 8,
    }
}

/// A read of `sew` bytes at `off` of `chunk` as an unsigned value.
pub open spec fn spec_read_u(chunk: Seq<u8>, off: int, sew: nat) -> u64 {
    load_le(chunk, off, sew) as u64
}

/// The same read, sign-extended.
pub open spec fn spec_read_i(chunk: Seq<u8>, off: int, sew: nat) -> i64 {
    let v = load_le(chunk, off, sew);
    let half = pow256(sew) / 2;
    (if v >= half {
        v - pow256(sew)
    } else {
        v as int
    }) as i64
}

/// A signed element read is the unsigned read of the same bytes sign-extended from the
/// element width: it agrees with it modulo 2^(8·SEW) and lies in the signed range.
pub proof fn lemma_read_i_sign_extends_read_u(chunk: Seq<u8>, off: int, sew: nat)
    requires
        sew == 1 || sew == 2 || sew == 4 || sew == 8,
        0 <= off,
        off + sew <= chunk.len(),
    ensures
        (spec_read_i(chunk, off, sew) as int) % (pow256(sew) as int) == spec_read_u(chunk, off, sew) as int,
        -(pow256(sew) / 2) <= spec_read_i(chunk, off, sew) < pow256(sew) / 2,
{
    reveal_with_fuel(pow256, 9);
    crate::bus::lemma_load_le_bound(chunk, off, sew);
    let v = load_le(chunk, off, sew);
    let p = pow256(sew) as int;
    if v >= p / 2 {
        vstd::arithmetic::div_mod::lemma_mod_multiples_vanish(-1, v as int, p);
    }
    vstd::arithmetic::div_mod::lemma_small_mod(v, p as nat);
}

/// Reads an element may perform: the single-byte read returns zero out of range; the wider
/// ones need the element in range.
pub open spec fn read_ok(chunk: Seq<u8>, off: int, sew: nat) -> bool {
    sew == 1 || 0 <= off && off + sew <= chunk.len()
}

impl Sew {
    pub fn from_vtype(vtype: u32) -> (r: Sew)
        ensures
            sew_bytes_of(r) == spec_sew_bytes(vtype),
    {
        let vsew = (vtype >> 3) & 0x7;
        proof {
            crate::bits::lemma_u32_fields(vtype);
        }
        match vsew {
            0 => Sew::E8,
            1 => Sew::E16,
            2 => Sew::E32,
            3 => Sew::E64,
            _ => Sew::E32,
        }
    }

    pub fn bytes(self) -> (r: usize)
        ensures
            r == sew_bytes_of(self),
    {
        match self {
            Sew::E8 => 1,
            Sew::E16 => 2,
            Sew::E32 => 4,
            Sew::E64 => 8,
        }
    }

    /// Reads the element at byte offset `off` as an unsigned value; an out-of-range byte
    /// read gives zero.
    pub fn read_u(self, chunk: &[u8], off: usize) -> (r: u64)
        requires
            read_ok(chunk@, off as int, sew_bytes_of(self) as nat),
        ensures
            off + sew_bytes_of(self) <= chunk@.len() ==> r == spec_read_u(
                chunk@,
                off as int,
                sew_bytes_of(self) as nat,
            ),
            off + sew_bytes_of(self) > chunk@.len() ==> r == 0,
    {
        let n = self.bytes();
        if off >= chunk.len() {
            return 0;
        }
        let len = chunk.len();
        let mut v: u64 = 0;
        let mut k: usize = n;
        proof {
            lemma_load_le_bound(chunk@, off as int, n as nat);
            reveal_with_fuel(pow256, 9);
        }
        while k > 0
            invariant
                k <= n,
                n <= 8,
                len == chunk@.len(),
                off + n <= len,
                v == load_le(chunk@, off + k, (n - k) as nat),
            decreases k,
        {
            proof {
                lemma_load_le_bound(chunk@, off + k, (n - k) as nat);
                reveal_with_fuel(pow256, 9);
                assert(pow256((n - k) as nat) <= pow256(7)) by {
                    lemma_pow256_mono((n - k) as nat, 7);
                }
            }
            k = k - 1;
            let prev = v;
            let b = chunk[off + k];
            v = (prev << 8u64) | b as u64;
            assert(v == b + 256 * prev) by (bit_vector)
                requires
                    prev < 0x100_0000_0000_0000,
                    v == (prev << 8u64) | b as u64,
            ;
            assert(load_le(chunk@, off + k, (n - k) as nat) == b + 256 * prev);
        }
        v
    }

    /// Reads the element at `off` sign-extended.
    pub fn read_i(self, chunk: &[u8], off: usize) -> (r: i64)
        requires
            read_ok(chunk@, off as int, sew_bytes_of(self) as nat),
        ensures
            off + sew_bytes_of(self) <= chunk@.len() ==> r == spec_read_i(
                chunk@,
                off as int,
                sew_bytes_of(self) as nat,
            ),
            off + sew_bytes_of(self) > chunk@.len() ==> r == 0,
    {
        let u = self.read_u(chunk, off);
        if off >= chunk.len() {
            return 0;
        }
        proof {
            lemma_load_le_bound(chunk@, off as int, sew_bytes_of(self) as nat);
            reveal_with_fuel(pow256, 9);
        }
        match self {
            Sew::E8 => {
                if u >= 0x80 {
                    u as i64 - 0x100
                } else {
                    u as i64
                }
            },
            Sew::E16 => {
                if u >= 0x8000 {
                    u as i64 - 0x1_0000
                } else {
                    u as i64
                }
            },
            Sew::E32 => {
                if u >= 0x8000_0000 {
                    u as i64 - 0x1_0000_0000
                } else {
                    u as i64
                }
            },
            Sew::E64 => {
                let r = #[verifier::truncate] (u as i64);
                assert(r == (if u >= 0x8000_0000_0000_0000 {
                    u as int - 0x1_0000_0000_0000_0000
                } else {
                    u as int
                }) as i64) by (bit_vector)
                    requires
                        r == u as i64,
                ;
                r
            },
        }
    }

    /// Writes the low SEW bits of `val` at `off`; an out-of-range byte write does nothing.
    pub fn write(self, chunk: &mut Vec<u8>, off: usize, val: u64)
        requires
            read_ok(old(chunk)@, off as int, sew_bytes_of(self) as nat),
        ensures
            off + sew_bytes_of(self) <= old(chunk)@.len() ==> final(chunk)@ == store_le(
                old(chunk)@,
                off as int,
                sew_bytes_of(self) as nat,
                val as nat,
            ),
            off + sew_bytes_of(self) > old(chunk)@.len() ==> final(chunk)@ == old(chunk)@,
    {
        let n = self.bytes();
        if off >= chunk.len() {
            return;
        }
        let len = chunk.len();
        let mut k: usize = 0;
        let mut rest: u64 = val;
        let ghost c0 = chunk@;
        proof {
            lemma_store_le_len(c0, off as int, n as nat, val as nat);
        }
        while k < n
            invariant
                k <= n,
                n <= 8,
                len == c0.len(),
                off + n <= len,
                chunk@.len() == c0.len(),
                store_le(chunk@, off + k, (n - k) as nat, rest as nat) == store_le(
                    c0,
                    off as int,
                    n as nat,
                    val as nat,
                ),
            decreases n - k,
        {
            let b = #[verifier::truncate] ((rest & 0xff) as u8);
            proof {
                crate::bits::lemma_u64_fields(rest);
            }
            chunk[off + k] = b;
            let old_rest = rest;
            rest = rest >> 8u64;
            proof {
                crate::bits::lemma_u64_fields(old_rest);
            }
            k = k + 1;
        }
    }
}

proof fn lemma_pow256_mono(a: nat, b: nat)
    requires
        a <= b,
    ensures
        pow256(a) <= pow256(b),
    decreases b,
{
    if a < b {
        lemma_pow256_mono(a, (b - 1) as nat);
    }
}

/// Bit `i % 8` of byte `i / 8`; bytes past the end read as zero.
pub open spec fn spec_mask_bit(v0: Seq<u8>, i: int) -> bool {
    i / 8 < v0.len() && (v0[i / 8] / pow2i((i % 8) as nat) as u8) % 2 == 1
}

pub fn mask_bit(v0: &[u8], i: usize) -> (r: bool)
    ensures
        r == spec_mask_bit(v0@, i as int),
{
    let byte: u8 = if i / 8 < v0.len() {
        v0[i / 8]
    } else {
        0
    };
    let sh = (i % 8) as u8;
    let r = (byte >> sh) & 1 != 0;
    proof {
        reveal_with_fuel(pow2i, 9);
        crate::bits::lemma_byte_bits(byte);
        assert(r == ((byte / pow2i(sh as nat) as u8) % 2 == 1));
    }
    r
}

/// A register group `reg .. reg + nf` lies within the 32 registers.
pub fn in_range(reg: usize, nf: usize) -> (r: bool)
    requires
        reg + nf <= usize::MAX,
    ensures
        r == (reg + nf <= 32),
{
    reg + nf <= 32
}

/// Two register groups share no register.
pub fn no_overlap(a: usize, na: usize, b: usize, nb: usize) -> (r: bool)
    requires
        a + na <= usize::MAX,
        b + nb <= usize::MAX,
    ensures
        r == (a + na <= b || b + nb <= a),
{
    a + na <= b || b + nb <= a
}

/// Operand legality: the destination group and each source group are in range, no source
/// overlaps the destination, and with `v0_check` the destination does not include `v0`.
pub open spec fn spec_check_regs(
    rd: usize,
    nf_rd: usize,
    rs1: Option<(usize, usize)>,
    rs2: Option<(usize, usize)>,
    v0_check: bool,
) -> bool {
    &&& rd + nf_rd <= 32
    &&& (rs1 matches Some((r, n)) ==> r + n <= 32 && (rd + nf_rd <= r || r + n <= rd))
    &&& (rs2 matches Some((r, n)) ==> r + n <= 32 && (rd + nf_rd <= r || r + n <= rd))
    &&& (v0_check ==> (rd + nf_rd <= 0 || 1 <= rd))
}

pub fn check_regs(
    rd: usize,
    nf_rd: usize,
    rs1: Option<(usize, usize)>,
    rs2: Option<(usize, usize)>,
    v0_check: bool,
) -> (r: Result<(), StateError>)
    requires
        rd < 32,
        nf_rd <= 16,
        rs1 matches Some((r, n)) ==> r < 32 && n <= 16,
        rs2 matches Some((r, n)) ==> r < 32 && n <= 16,
    ensures
        r == if spec_check_regs(rd, nf_rd, rs1, rs2, v0_check) {
            Ok::<(), StateError>(())
        } else {
            Err::<(), StateError>(StateError::Unmapped(0))
        },
{
    if !in_range(rd, nf_rd) {
        return Err(StateError::Unmapped(0));
    }
    if let Some((r, n)) = rs1 {
        if !in_range(r, n) {
            return Err(StateError::Unmapped(0));
        }
        if !no_overlap(rd, nf_rd, r, n) {
            return Err(StateError::Unmapped(0));
        }
    }
    if let Some((r, n)) = rs2 {
        if !in_range(r, n) {
            return Err(StateError::Unmapped(0));
        }
        if !no_overlap(rd, nf_rd, r, n) {
            return Err(StateError::Unmapped(0));
        }
    }
    if v0_check && !no_overlap(rd, nf_rd, 0, 1) {
        return Err(StateError::Unmapped(0));
    }
    Ok(())
}

/// The vtype an immediate `vtypei` selects: its low eight bits.
pub fn zimm_to_vtype(zimm: u32) -> (r: u32)
    ensures
        r == zimm % 256,
{
    let r = zimm & 0xFF;
    proof {
        crate::bits::lemma_u32_fields(zimm);
    }
    r
}

/// VLMAX as `((VLEN / SEW) · num) / den` with LMUL = num/den, reading vlmul as a signed
/// exponent (4 → 1/16, 5 → 1/8, 6 → 1/4, 7 → 1/2) and the reserved SEW encodings as 8.
pub open spec fn spec_vlmax_vlenb_vtype(vlenb: u32, vtype: u32) -> u32 {
    let vsew = spec_vsew(vtype);
    let sew: nat = if vsew == 1 {
        16
    } else if vsew == 2 {
        32
    } else if vsew == 3 {
        64
    } else {
        8
    };
    let vlmul = spec_vlmul(vtype);
    let num: nat = if vlmul <= 3 {
        pow2i(vlmul as nat)
    } else {
        1
    };
    let den: nat = if vlmul <= 3 {
        1
    } else {
        pow2i((8 - vlmul) as nat)
    };
    ((((vlenb * 8) as nat / sew) * num) / den) as u32
}

pub fn vlmax_vlenb_vtype(vlenb: u32, vtype: u32) -> (r: u32)
    requires
        vlenb * 8 <= u32::MAX,
    ensures
        r == spec_vlmax_vlenb_vtype(vlenb, vtype),
{
    let vlen = vlenb * 8;
    let vsew = (vtype >> 3) & 0x7;
    let vlmul = vtype & 0x7;
    assert(vsew == (vtype / 8) % 8 && vlmul == vtype % 8) by {
        crate::bits::lemma_u32_fields(vtype);
    }
    let sew: u32 = match vsew {
        1 => 16,
        2 => 32,
        3 => 64,
        _ => 8,
    };
    let (num, den): (u32, u32) = match vlmul {
        0 => (1, 1),
        1 => (2, 1),
        2 => (4, 1),
        3 => (8, 1),
        4 => (1, 16),
        5 => (1, 8),
        6 => (1, 4),
        _ => (1, 2),
    };
    proof {
        reveal_with_fuel(pow2i, 5);
    }
    ((vlen / sew) * num) / den
}

/// Per-instruction vector parameters, computed once from `vl`, `vtype` and VLENB.
#[derive(Clone, Copy, Debug)]
pub struct VContext {
    pub vl: u32,
    pub vtype: u32,
    pub vlmul: u32,
    pub vsew: u32,
    pub sew: Sew,
    pub sew_bytes: usize,
    pub vlenb: usize,
    pub nf: usize,
    pub vlmax: u32,
}

impl VContext {
    /// The context of an instruction executed with these CSR values.
    pub open spec fn matches(self, vl: u32, vtype: u32, vlenb: u32) -> bool {
        &&& self.vl == vl
        &&& self.vtype == vtype
        &&& self.vlmul == spec_vlmul(vtype)
        &&& self.vsew == spec_vsew(vtype)
        &&& sew_bytes_of(self.sew) == spec_sew_bytes(vtype)
        &&& self.sew_bytes == spec_sew_bytes(vtype)
        &&& self.vlenb == vlenb
        &&& self.nf == spec_nf_from_vlmul(spec_vlmul(vtype))
        &&& self.vlmax == spec_calculate_vlmax(vlenb, vtype)
    }

    pub fn new(vl: u32, vtype: u32, vlenb: u32) -> (r: VContext)
        ensures
            r.matches(vl, vtype, vlenb),
    {
        let vlmul = vtype & 0x7;
        let vsew = (vtype >> 3) & 0x7;
        proof {
            crate::bits::lemma_u32_fields(vtype);
        }
        let sew = Sew::from_vtype(vtype);
        VContext {
            vl,
            vtype,
            vlmul,
            vsew,
            sew,
            sew_bytes: sew.bytes(),
            vlenb: vlenb as usize,
            nf: nf_from_vlmul(vlmul),
            vlmax: calculate_vlmax(vlenb, vtype),
        }
    }

    pub open spec fn spec_n_elems(self) -> u32 {
        let total = (self.nf as int * self.vlenb as int) / self.sew_bytes as int;
        if (self.vl as nat) < total {
            self.vl
        } else {
            total as u32
        }
    }

    /// The number of elements an instruction touches: `vl`, capped by what the register
    /// group holds.
    pub fn n_elems(self) -> (r: u32)
        requires
            self.sew_bytes > 0,
            self.nf <= 8,
            self.vlenb <= 0x1_0000,
        ensures
            r == self.spec_n_elems(),
    {
        assert(self.nf * self.vlenb <= 8 * 0x1_0000) by (nonlinear_arith)
            requires
                self.nf <= 8,
                self.vlenb <= 0x1_0000,
        ;
        let total = (self.nf * self.vlenb) / self.sew_bytes;
        if (self.vl as usize) < total {
            self.vl
        } else {
            total as u32
        }
    }

    /// Byte offset of element `i` in the group, the register it falls in, and its offset
    /// inside that register.
    pub fn elem_layout(self, elem_idx: usize) -> (r: (usize, usize, usize))
        requires
            self.vlenb > 0,
            elem_idx * self.sew_bytes <= usize::MAX,
        ensures
            r.0 == elem_idx * self.sew_bytes,
            r.1 == r.0 / self.vlenb,
            r.2 == r.0 % self.vlenb,
    {
        let byte_off = elem_idx * self.sew_bytes;
        (byte_off, byte_off / self.vlenb, byte_off % self.vlenb)
    }
}

/// On every configuration whose SEW and LMUL are not reserved, and whose VLEN is a multiple
/// of 64 bits, the two VLMAX formulas agree.
pub proof fn lemma_vlmax_formulas_agree(vlenb: u32, vtype: u32)
    requires
        vlenb * 8 <= u32::MAX,
        vlenb % 8 == 0,
        spec_vsew(vtype) <= 3,
        spec_vlmul(vtype) != 4,
    ensures
        spec_calculate_vlmax(vlenb, vtype) == spec_vlmax_vlenb_vtype(vlenb, vtype),
{
    reveal_with_fuel(pow2i, 7);
    let vsew = spec_vsew(vtype);
    let vlmul = spec_vlmul(vtype);
    let v = vlenb as int;
    let w = v / 8;
    assert(v == 8 * w);
    assert((vlenb * 8) as nat == 64 * w);
    if vsew == 0 && vlmul == 0 {
        assert((64 * w) / 8 == 8 * w);
        assert(((64 * w) / 8) * 1 == 8 * w * 1);
        assert(8 * w * 1 == (8 * w * 1) / 1);
    } else if vsew == 0 && vlmul == 1 {
        assert((64 * w) / 8 == 8 * w);
        assert(((64 * w) / 8) * 2 == 8 * w * 2);
        assert(8 * w * 2 == (8 * w * 2) / 1);
    } else if vsew == 0 && vlmul == 2 {
        assert((64 * w) / 8 == 8 * w);
        assert(((64 * w) / 8) * 4 == 8 * w * 4);
        assert(8 * w * 4 == (8 * w * 4) / 1);
    } else if vsew == 0 && vlmul == 3 {
        assert((64 * w) / 8 == 8 * w);
        assert(((64 * w) / 8) * 8 == 8 * w * 8);
        assert(8 * w * 8 == (8 * w * 8) / 1);
    } else if vsew == 0 && vlmul == 5 {
        assert((64 * w) / 8 == 8 * w);
        assert(((64 * w) / 8) * 1 == 8 * w * 1);
        assert((8 * w) / 8 == (8 * w * 1) / 8) by { vstd::arithmetic::div_mod::lemma_div_denominator(8 * w * 1, 1, 8); }
    } else if vsew == 0 && vlmul == 6 {
        assert((64 * w) / 8 == 8 * w);
        assert(((64 * w) / 8) * 1 == 8 * w * 1);
        assert((8 * w) / 4 == (8 * w * 1) / 4) by { vstd::arithmetic::div_mod::lemma_div_denominator(8 * w * 1, 1, 4); }
    } else if vsew == 0 && vlmul == 7 {
        assert((64 * w) / 8 == 8 * w);
        assert(((64 * w) / 8) * 1 == 8 * w * 1);
        assert((8 * w) / 2 == (8 * w * 1) / 2) by { vstd::arithmetic::div_mod::lemma_div_denominator(8 * w * 1, 1, 2); }
    } else if vsew == 1 && vlmul == 0 {
        assert((64 * w) / 16 == 4 * w);
        assert(((64 * w) / 16) * 1 == 4 * w * 1);
        assert((8 * w) / 2 == (4 * w * 1) / 1) by { vstd::arithmetic::div_mod::lemma_div_denominator(4 * w * 1, 1, 1); }
    } else if vsew == 1 && vlmul == 1 {
        assert((64 * w) / 16 == 4 * w);
        assert(((64 * w) / 16) * 2 == 4 * w * 2);
        assert(8 * w * 1 == (4 * w * 2) / 1);
    } else if vsew == 1 && vlmul == 2 {
        assert((64 * w) / 16 == 4 * w);
        assert(((64 * w) / 16) * 4 == 4 * w * 4);
        assert(8 * w * 2 == (4 * w * 4) / 1);
    } else if vsew == 1 && vlmul == 3 {
        assert((64 * w) / 16 == 4 * w);
        assert(((64 * w) / 16) * 8 == 4 * w * 8);
        assert(8 * w * 4 == (4 * w * 8) / 1);
    } else if vsew == 1 && vlmul == 5 {
        assert((64 * w) / 16 == 4 * w);
        assert(((64 * w) / 16) * 1 == 4 * w * 1);
        assert((8 * w) / 16 == (4 * w * 1) / 8) by { vstd::arithmetic::div_mod::lemma_div_denominator(4 * w * 1, 1, 8); }
    } else if vsew == 1 && vlmul == 6 {
        assert((64 * w) / 16 == 4 * w);
        assert(((64 * w) / 16) * 1 == 4 * w * 1);
        assert((8 * w) / 8 == (4 * w * 1) / 4) by { vstd::arithmetic::div_mod::lemma_div_denominator(4 * w * 1, 1, 4); }
    } else if vsew == 1 && vlmul == 7 {
        assert((64 * w) / 16 == 4 * w);
        assert(((64 * w) / 16) * 1 == 4 * w * 1);
        assert((8 * w) / 4 == (4 * w * 1) / 2) by { vstd::arithmetic::div_mod::lemma_div_denominator(4 * w * 1, 1, 2); }
    } else if vsew == 2 && vlmul == 0 {
        assert((64 * w) / 32 == 2 * w);
        assert(((64 * w) / 32) * 1 == 2 * w * 1);
        assert((8 * w) / 4 == (2 * w * 1) / 1) by { vstd::arithmetic::div_mod::lemma_div_denominator(2 * w * 1, 1, 1); }
    } else if vsew == 2 && vlmul == 1 {
        assert((64 * w) / 32 == 2 * w);
        assert(((64 * w) / 32) * 2 == 2 * w * 2);
        assert((8 * w) / 2 == (2 * w * 2) / 1) by { vstd::arithmetic::div_mod::lemma_div_denominator(2 * w * 2, 1, 1); }
    } else if vsew == 2 && vlmul == 2 {
        assert((64 * w) / 32 == 2 * w);
        assert(((64 * w) / 32) * 4 == 2 * w * 4);
        assert(8 * w * 1 == (2 * w * 4) / 1);
    } else if vsew == 2 && vlmul == 3 {
        assert((64 * w) / 32 == 2 * w);
        assert(((64 * w) / 32) * 8 == 2 * w * 8);
        assert(8 * w * 2 == (2 * w * 8) / 1);
    } else if vsew == 2 && vlmul == 5 {
        assert((64 * w) / 32 == 2 * w);
        assert(((64 * w) / 32) * 1 == 2 * w * 1);
        assert((8 * w) / 32 == (2 * w * 1) / 8) by { vstd::arithmetic::div_mod::lemma_div_denominator(2 * w * 1, 1, 8); }
    } else if vsew == 2 && vlmul == 6 {
        assert((64 * w) / 32 == 2 * w);
        assert(((64 * w) / 32) * 1 == 2 * w * 1);
        assert((8 * w) / 16 == (2 * w * 1) / 4) by { vstd::arithmetic::div_mod::lemma_div_denominator(2 * w * 1, 1, 4); }
    } else if vsew == 2 && vlmul == 7 {
        assert((64 * w) / 32 == 2 * w);
        assert(((64 * w) / 32) * 1 == 2 * w * 1);
        assert((8 * w) / 8 == (2 * w * 1) / 2) by { vstd::arithmetic::div_mod::lemma_div_denominator(2 * w * 1, 1, 2); }
    } else if vsew == 3 && vlmul == 0 {
        assert((64 * w) / 64 == 1 * w);
        assert(((64 * w) / 64) * 1 == 1 * w * 1);
        assert((8 * w) / 8 == (1 * w * 1) / 1) by { vstd::arithmetic::div_mod::lemma_div_denominator(1 * w * 1, 1, 1); }
    } else if vsew == 3 && vlmul == 1 {
        assert((64 * w) / 64 == 1 * w);
        assert(((64 * w) / 64) * 2 == 1 * w * 2);
        assert((8 * w) / 4 == (1 * w * 2) / 1) by { vstd::arithmetic::div_mod::lemma_div_denominator(1 * w * 2, 1, 1); }
    } else if vsew == 3 && vlmul == 2 {
        assert((64 * w) / 64 == 1 * w);
        assert(((64 * w) / 64) * 4 == 1 * w * 4);
        assert((8 * w) / 2 == (1 * w * 4) / 1) by { vstd::arithmetic::div_mod::lemma_div_denominator(1 * w * 4, 1, 1); }
    } else if vsew == 3 && vlmul == 3 {
        assert((64 * w) / 64 == 1 * w);
        assert(((64 * w) / 64) * 8 == 1 * w * 8);
        assert(8 * w * 1 == (1 * w * 8) / 1);
    } else if vsew == 3 && vlmul == 5 {
        assert((64 * w) / 64 == 1 * w);
        assert(((64 * w) / 64) * 1 == 1 * w * 1);
        assert((8 * w) / 64 == (1 * w * 1) / 8) by { vstd::arithmetic::div_mod::lemma_div_denominator(1 * w * 1, 1, 8); }
    } else if vsew == 3 && vlmul == 6 {
        assert((64 * w) / 64 == 1 * w);
        assert(((64 * w) / 64) * 1 == 1 * w * 1);
        assert((8 * w) / 32 == (1 * w * 1) / 4) by { vstd::arithmetic::div_mod::lemma_div_denominator(1 * w * 1, 1, 4); }
    } else if vsew == 3 && vlmul == 7 {
        assert((64 * w) / 64 == 1 * w);
        assert(((64 * w) / 64) * 1 == 1 * w * 1);
        assert((8 * w) / 16 == (1 * w * 1) / 2) by { vstd::arithmetic::div_mod::lemma_div_denominator(1 * w * 1, 1, 2); }
    }
}

} // verus!
