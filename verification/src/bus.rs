//! A little-endian physical memory region and the byte-sequence arithmetic it rests on.

use vstd::prelude::*;

verus! {

/// Why a hart step did not complete.
#[derive(Clone, Copy, Debug, PartialEq, Eq, Structural)]
pub enum StateError {
    /// An access fell outside mapped memory, or a vector operand was out of range.
    Unmapped(u32),
    /// An `ebreak` stopped execution at this pc.
    BreakpointHit(u32),
}

/// The little-endian value of the `n` bytes of `m` starting at `off`.
pub open spec fn load_le(m: Seq<u8>, off: int, n: nat) -> nat
    decreases n,
{
    if n == 0 {
        0
    } else {
        m[off] as nat + 256 * load_le(m, off + 1, (n - 1) as nat)
    }
}

/// `m` with the `n` bytes starting at `off` replaced by the little-endian bytes of `v`
/// (the low `8 * n` bits of `v`).
pub open spec fn store_le(m: Seq<u8>, off: int, n: nat, v: nat) -> Seq<u8>
    decreases n,
{
    if n == 0 {
        m
    } else {
        store_le(m.update(off, (v % 256) as u8), off + 1, (n - 1) as nat, v / 256)
    }
}

pub open spec fn pow256(n: nat) -> nat
    decreases n,
{
    if n == 0 {
        1
    } else {
        256 * pow256((n - 1) as nat)
    }
}

/// Storing keeps the length.
pub proof fn lemma_store_le_len(m: Seq<u8>, off: int, n: nat, v: nat)
    requires
        0 <= off,
        off + n <= m.len(),
    ensures
        store_le(m, off, n, v).len() == m.len(),
    decreases n,
{
    if n > 0 {
        lemma_store_le_len(m.update(off, (v % 256) as u8), off + 1, (n - 1) as nat, v / 256);
    }
}

/// Storing leaves every byte outside the written range unchanged.
pub proof fn lemma_store_le_frame(m: Seq<u8>, off: int, n: nat, v: nat, k: int)
    requires
        0 <= off,
        off + n <= m.len(),
        0 <= k < m.len(),
        k < off || off + n <= k,
    ensures
        store_le(m, off, n, v)[k] == m[k],
    decreases n,
{
    if n > 0 {
        lemma_store_le_len(m.update(off, (v % 256) as u8), off + 1, (n - 1) as nat, v / 256);
        lemma_store_le_frame(m.update(off, (v % 256) as u8), off + 1, (n - 1) as nat, v / 256, k);
    }
}

/// A load reads only the bytes in its range.
pub proof fn lemma_load_le_depends(m1: Seq<u8>, m2: Seq<u8>, off: int, n: nat)
    requires
        0 <= off,
        off + n <= m1.len(),
        off + n <= m2.len(),
        forall|k: int| off <= k < off + n ==> m1[k] == m2[k],
    ensures
        load_le(m1, off, n) == load_le(m2, off, n),
    decreases n,
{
    if n > 0 {
        lemma_load_le_depends(m1, m2, off + 1, (n - 1) as nat);
    }
}

/// Reading back what was stored gives the stored value, reduced to the width of the
/// access.
pub proof fn lemma_load_store_le(m: Seq<u8>, off: int, n: nat, v: nat)
    requires
        0 <= off,
        off + n <= m.len(),
    ensures
        load_le(store_le(m, off, n, v), off, n) == v % pow256(n),
    decreases n,
{
    if n > 0 {
        let m1 = m.update(off, (v % 256) as u8);
        lemma_load_store_le(m1, off + 1, (n - 1) as nat, v / 256);
        lemma_store_le_len(m1, off + 1, (n - 1) as nat, v / 256);
        lemma_store_le_frame(m1, off + 1, (n - 1) as nat, v / 256, off);
        let p = pow256((n - 1) as nat);
        assert(p > 0) by {
            lemma_pow256_pos((n - 1) as nat);
        }
        assert(v % 256 + 256 * ((v / 256) % p) == v % (256 * p)) by {
            vstd::arithmetic::div_mod::lemma_breakdown(v as int, 256, p as int);
        }
    }
}

pub proof fn lemma_pow256_pos(n: nat)
    ensures
        pow256(n) > 0,
    decreases n,
{
    if n > 0 {
        lemma_pow256_pos((n - 1) as nat);
    }
}

/// Reading a stored value back on fewer bits, or a value that fits, returns it unchanged.
pub proof fn lemma_load_le_bound(m: Seq<u8>, off: int, n: nat)
    requires
        0 <= off,
        off + n <= m.len(),
    ensures
        load_le(m, off, n) < pow256(n),
    decreases n,
{
    if n > 0 {
        lemma_load_le_bound(m, off + 1, (n - 1) as nat);
    }
}

/// One mapped region of memory starting at `base`.
pub struct Bus {
    pub base: u32,
    pub mem: Vec<u8>,
}

/// `n` bytes at `addr` lie inside the region.
pub open spec fn mapped(base: u32, mem_len: nat, addr: u32, n: nat) -> bool {
    base <= addr && addr + n <= base + mem_len
}

impl Bus {
    pub open spec fn wf(&self) -> bool {
        self.base + self.mem@.len() <= 0x1_0000_0000
    }

    fn read_byte(&self, addr: u32) -> (r: u8)
        requires
            self.wf(),
            mapped(self.base, self.mem@.len(), addr, 1),
        ensures
            r == self.mem@[addr - self.base],
    {
        self.mem[(addr - self.base) as usize]
    }

    /// Reads `n ∈ {1, 2, 4}` bytes little-endian.
    pub fn read(&self, addr: u32, n: u32) -> (r: Result<u32, StateError>)
        requires
            self.wf(),
            n == 1 || n == 2 || n == 4,
        ensures
            mapped(self.base, self.mem@.len(), addr, n as nat) ==> r == Ok::<u32, StateError>(
                load_le(self.mem@, addr - self.base, n as nat) as u32,
            ),
            !mapped(self.base, self.mem@.len(), addr, n as nat) ==> r == Err::<u32, StateError>(
                StateError::Unmapped(addr),
            ),
    {
        if addr < self.base || (addr - self.base) as usize > self.mem.len() || self.mem.len() - ((addr
            - self.base) as usize) < n as usize {
            return Err(StateError::Unmapped(addr));
        }
        let ghost off = (addr - self.base) as int;
        let b0 = self.read_byte(addr) as u32;
        if n == 1 {
            assert(load_le(self.mem@, off, 1) == b0) by {
                reveal_with_fuel(load_le, 2);
            }
            return Ok(b0);
        }
        let b1 = self.read_byte(addr + 1) as u32;
        if n == 2 {
            assert(load_le(self.mem@, off, 2) == b0 + 256 * b1) by {
                reveal_with_fuel(load_le, 3);
            }
            let r = b0 | (b1 << 8u32);
            assert(r == b0 + 256 * b1) by (bit_vector)
                requires
                    b0 < 256,
                    b1 < 256,
                    r == b0 | (b1 << 8u32),
            ;
            return Ok(r);
        }
        let b2 = self.read_byte(addr + 2) as u32;
        let b3 = self.read_byte(addr + 3) as u32;
        assert(load_le(self.mem@, off, 4) == b0 + 256 * (b1 + 256 * (b2 + 256 * b3))) by {
            reveal_with_fuel(load_le, 5);
        }
        let r = b0 | (b1 << 8u32) | (b2 << 16u32) | (b3 << 24u32);
        assert(r == b0 + 256 * (b1 + 256 * (b2 + 256 * b3))) by (bit_vector)
            requires
                b0 < 256,
                b1 < 256,
                b2 < 256,
                b3 < 256,
                r == b0 | (b1 << 8u32) | (b2 << 16u32) | (b3 << 24u32),
        ;
        Ok(r)
    }

    /// Writes the low `n ∈ {1, 2, 4}` bytes of `v` little-endian.
    pub fn write(&mut self, addr: u32, n: u32, v: u32) -> (r: Result<(), StateError>)
        requires
            old(self).wf(),
            n == 1 || n == 2 || n == 4,
        ensures
            final(self).wf(),
            final(self).base == old(self).base,
            mapped(old(self).base, old(self).mem@.len(), addr, n as nat) ==> r == Ok::<
                (),
                StateError,
            >(()) && final(self).mem@ == store_le(
                old(self).mem@,
                addr - old(self).base,
                n as nat,
                v as nat,
            ),
            !mapped(old(self).base, old(self).mem@.len(), addr, n as nat) ==> r == Err::<
                (),
                StateError,
            >(StateError::Unmapped(addr)) && final(self).mem@ == old(self).mem@,
    {
        if addr < self.base || (addr - self.base) as usize > self.mem.len() || self.mem.len() - ((addr
            - self.base) as usize) < n as usize {
            return Err(StateError::Unmapped(addr));
        }
        let off = (addr - self.base) as usize;
        let ghost m0 = self.mem@;
        self.mem[off] = (v & 0xff) as u8;
        assert((v & 0xff) == v % 256) by {
        crate::bits::lemma_u32_fields(v);
    }
        if n == 1 {
            assert(self.mem@ =~= store_le(m0, off as int, 1, v as nat)) by {
                reveal_with_fuel(store_le, 2);
            }
            return Ok(());
        }
        self.mem[off + 1] = ((v >> 8u32) & 0xff) as u8;
        assert(((v >> 8u32) & 0xff) == (v / 256) % 256) by {
        crate::bits::lemma_u32_fields(v);
    }
        if n == 2 {
            assert(self.mem@ =~= store_le(m0, off as int, 2, v as nat)) by {
                reveal_with_fuel(store_le, 3);
            }
            return Ok(());
        }
        self.mem[off + 2] = ((v >> 16u32) & 0xff) as u8;
        self.mem[off + 3] = ((v >> 24u32) & 0xff) as u8;
        assert(((v >> 16u32) & 0xff) == ((v / 256) / 256) % 256) by {
        crate::bits::lemma_u32_fields(v);
    }
        assert(((v >> 24u32) & 0xff) == (((v / 256) / 256) / 256) % 256) by {
        crate::bits::lemma_u32_fields(v);
    }
        assert(self.mem@ =~= store_le(m0, off as int, 4, v as nat)) by {
            reveal_with_fuel(store_le, 5);
        }
        Ok(())
    }
}


/// Byte `a` of the address space is backed by memory.
pub open spec fn byte_mapped(base: u32, mem_len: nat, a: int) -> bool {
    base <= a < base + mem_len
}

impl Bus {
    /// Reads the byte at `addr`; addresses from 2^32 on are never mapped.
    pub fn read_u8(&self, addr: u64) -> (r: Result<u8, StateError>)
        requires
            self.wf(),
        ensures
            byte_mapped(self.base, self.mem@.len(), addr as int) ==> r == Ok::<u8, StateError>(
                self.mem@[addr - self.base],
            ),
            !byte_mapped(self.base, self.mem@.len(), addr as int) ==> r == Err::<u8, StateError>(
                StateError::Unmapped(addr as u32),
            ),
    {
        if addr < self.base as u64 || addr - self.base as u64 >= self.mem.len() as u64 {
            return Err(StateError::Unmapped(#[verifier::truncate] (addr as u32)));
        }
        Ok(self.mem[(addr - self.base as u64) as usize])
    }

    /// Writes the byte at `addr`.
    pub fn write_u8(&mut self, addr: u32, v: u8) -> (r: Result<(), StateError>)
        requires
            old(self).wf(),
        ensures
            final(self).wf(),
            final(self).base == old(self).base,
            byte_mapped(old(self).base, old(self).mem@.len(), addr as int) ==> r == Ok::<
                (),
                StateError,
            >(()) && final(self).mem@ == old(self).mem@.update(addr - old(self).base, v),
            !byte_mapped(old(self).base, old(self).mem@.len(), addr as int) ==> r == Err::<
                (),
                StateError,
            >(StateError::Unmapped(addr)) && final(self).mem@ == old(self).mem@,
    {
        if addr < self.base || (addr - self.base) as usize >= self.mem.len() {
            return Err(StateError::Unmapped(addr));
        }
        let off = (addr - self.base) as usize;
        self.mem.set(off, v);
        Ok(())
    }
}

} // verus!
