//! The remu simulator: fetch, decode and execute on one hart, with software breakpoints
//! (an `ebreak` patched over the original instruction) when it runs as the device under
//! test, and register comparison against a reference.

use vstd::prelude::*;
use std::collections::HashMap;
use crate::bus::{load_le, mapped, store_le, StateError};
use crate::decode::{decode, spec_decode};
use crate::hart::{Hart, HartView};
use crate::inst::{DecodedInst, Inst, SystemInst};
use crate::machine::{exec_ok, spec_execute};
use vstd::std_specs::hash::spec_keys_iter;
use vstd::std_specs::iter::IteratorSpec;

verus! {

broadcast use vstd::std_specs::hash::group_hash_axioms;

/// The `ebreak` instruction word.
pub const EBREAK_INST: u32 = 0x0010_0073;

/// What an `ebreak` does: while `Idle` it stops execution (a breakpoint hit) and arms the
/// breakpoint; while `Active` it runs the instruction the breakpoint replaced.
#[derive(Clone, Copy, Debug, PartialEq, Eq, Structural)]
pub enum BreakpointState {
    Idle,
    Active,
}

impl Default for BreakpointState {
    fn default() -> (r: BreakpointState)
        ensures
            r == BreakpointState::Idle,
    {
        BreakpointState::Idle
    }
}

/// Why a simulator operation failed.
#[derive(Clone, Copy, Debug, PartialEq, Eq, Structural)]
pub enum SimError {
    /// The hart stopped: a bus error or a breakpoint hit.
    State(StateError),
    /// A breakpoint address must be 4-byte aligned.
    BreakpointMisaligned(u32),
    /// No breakpoint is set at this address.
    BreakpointNotFound(u32),
}

/// The simulator as values: the hart, the breakpoints (address to original instruction)
/// and the breakpoint state.
pub struct SimView {
    pub hart: HartView,
    pub breakpoints: Map<u32, u32>,
    pub state: BreakpointState,
}

pub struct SimulatorRemu<const IS_DUT: bool> {
    pub hart: Hart,
    breakpoints: HashMap<u32, u32>,
    breakpoint_state: BreakpointState,
}

impl<const IS_DUT: bool> View for SimulatorRemu<IS_DUT> {
    type V = SimView;

    closed spec fn view(&self) -> SimView {
        SimView { hart: self.hart@, breakpoints: self.breakpoints@, state: self.breakpoint_state }
    }
}

/// The instruction word at the pc, or the bus error.
pub open spec fn spec_fetch(s: HartView) -> Result<u32, StateError> {
    if mapped(s.base, s.mem.len(), s.pc, 4) {
        Ok(load_le(s.mem, s.pc - s.base, 4) as u32)
    } else {
        Err(StateError::Unmapped(s.pc))
    }
}

pub open spec fn is_ebreak(d: DecodedInst) -> bool {
    d.inst == Inst::System(SystemInst::Ebreak)
}

/// An `ebreak` at `pc`.
pub open spec fn spec_on_ebreak(v: SimView, is_dut: bool, pc: u32) -> (SimView, Result<(), SimError>) {
    if !is_dut {
        (v, Err(SimError::State(StateError::BreakpointHit(pc))))
    } else {
        match v.state {
            BreakpointState::Idle => (
                SimView { state: BreakpointState::Active, ..v },
                Err(SimError::State(StateError::BreakpointHit(pc))),
            ),
            BreakpointState::Active => {
                let d = spec_decode(v.hart.cfg, v.breakpoints[pc]);
                let (h, r) = spec_execute(v.hart, d);
                match r {
                    Ok(()) => (SimView { hart: h, state: BreakpointState::Idle, ..v }, Ok(())),
                    Err(e) => (SimView { hart: h, ..v }, Err(SimError::State(e))),
                }
            },
        }
    }
}

/// A decoded instruction run by the simulator: `ebreak` goes to the breakpoint logic.
pub open spec fn spec_execute_inst(v: SimView, is_dut: bool, d: DecodedInst) -> (SimView, Result<(), SimError>) {
    if is_ebreak(d) {
        spec_on_ebreak(v, is_dut, v.hart.pc)
    } else {
        let (h, r) = spec_execute(v.hart, d);
        (
            SimView { hart: h, ..v },
            match r {
                Ok(()) => Ok(()),
                Err(e) => Err(SimError::State(e)),
            },
        )
    }
}

/// One step: fetch at the pc, decode, execute.
pub open spec fn spec_step(v: SimView, is_dut: bool) -> (SimView, Result<(), SimError>) {
    match spec_fetch(v.hart) {
        Err(e) => (v, Err(SimError::State(e))),
        Ok(inst) => spec_execute_inst(v, is_dut, spec_decode(v.hart.cfg, inst)),
    }
}

/// The step can be taken: the fetched instruction (or, for an armed breakpoint, the one it
/// replaced, which is itself no `ebreak`) can be executed.
pub open spec fn step_ok(v: SimView, is_dut: bool) -> bool {
    match spec_fetch(v.hart) {
        Err(_) => true,
        Ok(inst) => {
            let d = spec_decode(v.hart.cfg, inst);
            if is_ebreak(d) {
                is_dut && v.state == BreakpointState::Active ==> {
                    &&& v.breakpoints.contains_key(v.hart.pc)
                    &&& !is_ebreak(spec_decode(v.hart.cfg, v.breakpoints[v.hart.pc]))
                    &&& exec_ok(v.hart, spec_decode(v.hart.cfg, v.breakpoints[v.hart.pc]))
                }
            } else {
                exec_ok(v.hart, d)
            }
        },
    }
}

/// The elements of `v` (which holds none twice) in ascending order.
fn sorted_set(v: &Vec<u32>) -> (r: Vec<u32>)
    requires
        v@.no_duplicates(),
    ensures
        r@.to_set() == v@.to_set(),
        forall|i: int, j: int| 0 <= i < j < r@.len() ==> r@[i] < r@[j],
{
    let mut out: Vec<u32> = Vec::new();
    let mut i: usize = 0;
    while i < v.len()
        invariant
            i <= v@.len(),
            v@.no_duplicates(),
            forall|y: u32| out@.contains(y) <==> v@.subrange(0, i as int).contains(y),
            forall|a: int, b: int| 0 <= a < b < out@.len() ==> out@[a] < out@[b],
        decreases v@.len() - i,
    {
        let x = v[i];
        assert(!out@.contains(x)) by {
            if out@.contains(x) {
                let k = choose|k: int| 0 <= k < i && v@.subrange(0, i as int)[k] == x;
                assert(v@[k] == v@[i as int]);
            }
        }
        let mut j: usize = 0;
        while j < out.len() && out[j] < x
            invariant
                j <= out@.len(),
                forall|a: int| 0 <= a < j ==> out@[a] < x,
            decreases out@.len() - j,
        {
            j = j + 1;
        }
        let ghost o = out@;
        let ghost pre = v@.subrange(0, i as int);
        let ghost pre1 = v@.subrange(0, i + 1);
        out.insert(j, x);
        proof {
            o.insert_ensures(j as int, x);
            assert(j < o.len() ==> o[j as int] > x) by {
                if j < o.len() {
                    assert(o[j as int] != x);
                }
            }
            assert forall|a: int, b: int| 0 <= a < b < out@.len() implies out@[a] < out@[b] by {
                if b < j {
                } else if a < j && b == j {
                } else if a < j {
                    assert(out@[b] == o[b - 1]);
                    assert(o[j as int] <= o[b - 1]);
                } else if a == j {
                    assert(out@[b] == o[b - 1]);
                    assert(o[j as int] <= o[b - 1]);
                } else {
                    assert(out@[a] == o[a - 1]);
                    assert(out@[b] == o[b - 1]);
                }
            }
            assert forall|y: u32| out@.contains(y) <==> pre1.contains(y) by {
                if out@.contains(y) {
                    let k = choose|k: int| 0 <= k < out@.len() && out@[k] == y;
                    if k < j {
                        assert(o[k] == y);
                    } else if k > j {
                        assert(o[k - 1] == y);
                    }
                    if y != x {
                        assert(o.contains(y));
                        let m = choose|m: int| 0 <= m < pre.len() && pre[m] == y;
                        assert(pre1[m] == y);
                    } else {
                        assert(pre1[i as int] == y);
                    }
                }
                if pre1.contains(y) {
                    let m = choose|m: int| 0 <= m < pre1.len() && pre1[m] == y;
                    if m == i {
                        assert(out@[j as int] == y);
                    } else {
                        assert(pre[m] == y);
                        assert(o.contains(y));
                        let k = choose|k: int| 0 <= k < o.len() && o[k] == y;
                        if k < j {
                            assert(out@[k] == y);
                        } else {
                            assert(out@[k + 1] == y);
                        }
                    }
                }
            }
        }
        i = i + 1;
    }
    assert(v@.subrange(0, v@.len() as int) =~= v@);
    assert(out@.to_set() =~= v@.to_set());
    out
}

impl<const IS_DUT: bool> SimulatorRemu<IS_DUT> {
    /// The hart is well formed.
    pub closed spec fn wf(&self) -> bool {
        self.hart.wf()
    }

    /// A well-formed simulator holds a well-formed hart.
    pub proof fn lemma_wf_hart(&self)
        requires
            self.wf(),
        ensures
            crate::hart::view_wf(self@.hart),
    {
    }

    /// A simulator around `hart`, with no breakpoints.
    pub fn new(hart: Hart) -> (r: Self)
        requires
            hart.wf(),
        ensures
            r.wf(),
            r@.hart == hart@,
            r@.breakpoints == Map::<u32, u32>::empty(),
            r@.state == BreakpointState::Idle,
    {
        SimulatorRemu { hart, breakpoints: HashMap::new(), breakpoint_state: BreakpointState::Idle }
    }

    pub fn breakpoint_state(&self) -> (r: BreakpointState)
        ensures
            r == self@.state,
    {
        self.breakpoint_state
    }

    /// The instruction a breakpoint at `addr` replaced.
    pub fn breakpoint_original(&self, addr: u32) -> (r: Option<u32>)
        ensures
            r == (if self@.breakpoints.contains_key(addr) {
                Some(self@.breakpoints[addr])
            } else {
                None
            }),
    {
        match self.breakpoints.get(&addr) {
            Some(v) => Some(*v),
            None => None,
        }
    }

    /// The addresses that hold a breakpoint, in ascending order.
    pub fn breakpoint_addrs(&self) -> (r: Vec<u32>)
        ensures
            r@.to_set() == self@.breakpoints.dom(),
            forall|i: int, j: int| 0 <= i < j < r@.len() ==> r@[i] < r@[j],
    {
        let ghost rem = spec_keys_iter(&self.breakpoints).remaining();
        let mut keys: Vec<u32> = Vec::new();
        for k in it: self.breakpoints.keys()
            invariant
                it.seq() == rem,
                keys@.len() == it.index(),
                forall|i: int| 0 <= i < it.index() ==> keys@[i] == *rem[i],
        {
            keys.push(*k);
        }
        assert(keys@ =~= rem.unref());
        assert(keys@.no_duplicates()) by {
            assert forall|i: int, j: int| 0 <= i < keys@.len() && 0 <= j < keys@.len() && i != j implies keys@[i] != keys@[j] by {
                assert(rem[i] != rem[j]);
            }
        }
        sorted_set(&keys)
    }

    fn on_ebreak(&mut self, pc: u32) -> (r: Result<(), SimError>)
        requires
            old(self).wf(),
            pc == old(self)@.hart.pc,
            IS_DUT && old(self)@.state == BreakpointState::Active ==> {
                &&& old(self)@.breakpoints.contains_key(pc)
                &&& exec_ok(old(self)@.hart, spec_decode(old(self)@.hart.cfg, old(self)@.breakpoints[pc]))
            },
        ensures
            final(self).wf(),
            (final(self)@, r) == spec_on_ebreak(old(self)@, IS_DUT, pc),
    {
        if !IS_DUT {
            return Err(SimError::State(StateError::BreakpointHit(pc)));
        }
        match self.breakpoint_state {
            BreakpointState::Idle => {
                self.breakpoint_state = BreakpointState::Active;
                Err(SimError::State(StateError::BreakpointHit(pc)))
            },
            BreakpointState::Active => {
                let orig = match self.breakpoints.get(&pc) {
                    Some(v) => *v,
                    None => 0,
                };
                let d = decode(&self.hart.cfg, orig);
                match self.hart.execute(&d) {
                    Ok(()) => {
                        self.breakpoint_state = BreakpointState::Idle;
                        Ok(())
                    },
                    Err(e) => Err(SimError::State(e)),
                }
            },
        }
    }

    /// Runs one decoded instruction.
    pub fn execute_inst(&mut self, d: &DecodedInst) -> (r: Result<(), SimError>)
        requires
            old(self).wf(),
            is_ebreak(*d) ==> (IS_DUT && old(self)@.state == BreakpointState::Active ==> {
                &&& old(self)@.breakpoints.contains_key(old(self)@.hart.pc)
                &&& exec_ok(old(self)@.hart, spec_decode(old(self)@.hart.cfg, old(self)@.breakpoints[old(self)@.hart.pc]))
            }),
            !is_ebreak(*d) ==> exec_ok(old(self)@.hart, *d),
        ensures
            final(self).wf(),
            (final(self)@, r) == spec_execute_inst(old(self)@, IS_DUT, *d),
    {
        if d.inst == Inst::System(SystemInst::Ebreak) {
            let pc = self.hart.pc;
            self.on_ebreak(pc)
        } else {
            match self.hart.execute(d) {
                Ok(()) => Ok(()),
                Err(e) => Err(SimError::State(e)),
            }
        }
    }

    /// Whether `step_once` can run now (see `step_ok`).
    pub fn can_step(&self) -> (r: bool)
        requires
            self.wf(),
        ensures
            r == step_ok(self@, IS_DUT),
    {
        let inst = match self.hart.bus.read(self.hart.pc, 4) {
            Ok(v) => v,
            Err(_) => {
                return true;
            },
        };
        let d = decode(&self.hart.cfg, inst);
        if d.inst == Inst::System(SystemInst::Ebreak) {
            if !(IS_DUT && self.breakpoint_state == BreakpointState::Active) {
                return true;
            }
            match self.breakpoints.get(&self.hart.pc) {
                None => false,
                Some(orig) => {
                    let od = decode(&self.hart.cfg, *orig);
                    od.inst != Inst::System(SystemInst::Ebreak) && self.hart.can_execute(&od)
                },
            }
        } else {
            self.hart.can_execute(&d)
        }
    }

    /// Fetches, decodes and executes one instruction.
    pub fn step_once(&mut self) -> (r: Result<(), SimError>)
        requires
            old(self).wf(),
            step_ok(old(self)@, IS_DUT),
        ensures
            final(self).wf(),
            (final(self)@, r) == spec_step(old(self)@, IS_DUT),
    {
        let inst = match self.hart.bus.read(self.hart.pc, 4) {
            Ok(v) => v,
            Err(e) => {
                return Err(SimError::State(e));
            },
        };
        let d = decode(&self.hart.cfg, inst);
        self.execute_inst(&d)
    }
}


/// `set_breakpoint`: patch an `ebreak` over the word at `addr` and remember the original.
/// A misaligned address is refused; an address already holding a breakpoint is left alone;
/// an unmapped word is a bus error.
pub open spec fn spec_set_breakpoint(v: SimView, addr: u32) -> (SimView, Result<(), SimError>) {
    let h = v.hart;
    if addr % 4 != 0 {
        (v, Err(SimError::BreakpointMisaligned(addr)))
    } else if v.breakpoints.contains_key(addr) {
        (v, Ok(()))
    } else if !mapped(h.base, h.mem.len(), addr, 4) {
        (v, Err(SimError::State(StateError::Unmapped(addr))))
    } else {
        let orig = load_le(h.mem, addr - h.base, 4) as u32;
        (
            SimView {
                hart: HartView { mem: store_le(h.mem, addr - h.base, 4, EBREAK_INST as nat), ..h },
                breakpoints: v.breakpoints.insert(addr, orig),
                ..v
            },
            Ok(()),
        )
    }
}

/// `del_breakpoint`: forget the breakpoint and put the original word back.
pub open spec fn spec_del_breakpoint(v: SimView, addr: u32) -> (SimView, Result<(), SimError>) {
    let h = v.hart;
    if !v.breakpoints.contains_key(addr) {
        (v, Err(SimError::BreakpointNotFound(addr)))
    } else {
        let orig = v.breakpoints[addr];
        let bps = v.breakpoints.remove(addr);
        if mapped(h.base, h.mem.len(), addr, 4) {
            (
                SimView {
                    hart: HartView { mem: store_le(h.mem, addr - h.base, 4, orig as nat), ..h },
                    breakpoints: bps,
                    ..v
                },
                Ok(()),
            )
        } else {
            (SimView { breakpoints: bps, ..v }, Err(SimError::State(StateError::Unmapped(addr))))
        }
    }
}

impl SimulatorRemu<true> {
    pub fn set_breakpoint(&mut self, addr: u32) -> (r: Result<(), SimError>)
        requires
            old(self).wf(),
        ensures
            final(self).wf(),
            (final(self)@, r) == spec_set_breakpoint(old(self)@, addr),
    {
        if addr % 4 != 0 {
            return Err(SimError::BreakpointMisaligned(addr));
        }
        if self.breakpoints.contains_key(&addr) {
            return Ok(());
        }
        let orig = match self.hart.bus.read(addr, 4) {
            Ok(v) => v,
            Err(e) => {
                return Err(SimError::State(e));
            },
        };
        match self.hart.bus.write(addr, 4, EBREAK_INST) {
            Ok(()) => {},
            Err(e) => {
                return Err(SimError::State(e));
            },
        }
        proof {
            crate::bus::lemma_store_le_len(old(self)@.hart.mem, addr - old(self)@.hart.base, 4, EBREAK_INST as nat);
        }
        self.breakpoints.insert(addr, orig);
        Ok(())
    }

    pub fn del_breakpoint(&mut self, addr: u32) -> (r: Result<(), SimError>)
        requires
            old(self).wf(),
        ensures
            final(self).wf(),
            (final(self)@, r) == spec_del_breakpoint(old(self)@, addr),
    {
        match self.breakpoints.remove(&addr) {
            None => {
                proof {
                    assert(self.breakpoints@ =~= old(self).breakpoints@);
                }
                Err(SimError::BreakpointNotFound(addr))
            },
            Some(orig) => {
                proof {
                    if mapped(old(self)@.hart.base, old(self)@.hart.mem.len(), addr, 4) {
                        crate::bus::lemma_store_le_len(old(self)@.hart.mem, addr - old(self)@.hart.base, 4, orig as nat);
                    }
                }
                match self.hart.bus.write(addr, 4, orig) {
                    Ok(()) => Ok(()),
                    Err(e) => Err(SimError::State(e)),
                }
            },
        }
    }
}

/// Storing over a range twice keeps only the second value.
pub proof fn lemma_store_le_twice(m: Seq<u8>, off: int, n: nat, a: nat, b: nat)
    requires
        0 <= off,
        off + n <= m.len(),
    ensures
        store_le(store_le(m, off, n, a), off, n, b) == store_le(m, off, n, b),
    decreases n,
{
    if n > 0 {
        let m1 = m.update(off, (a % 256) as u8);
        crate::bus::lemma_store_le_len(m1, off + 1, (n - 1) as nat, a / 256);
        let ma = store_le(m1, off + 1, (n - 1) as nat, a / 256);
        crate::bus::lemma_store_le_frame(m1, off + 1, (n - 1) as nat, a / 256, off);
        let mb = ma.update(off, (b % 256) as u8);
        // Writing byte `off` commutes with the rest of the first store.
        assert(mb =~= store_le(m.update(off, (b % 256) as u8), off + 1, (n - 1) as nat, a / 256)) by {
            lemma_store_le_update_commute(m1, off + 1, (n - 1) as nat, a / 256, off, (b % 256) as u8);
            assert(m1.update(off, (b % 256) as u8) =~= m.update(off, (b % 256) as u8));
        }
        lemma_store_le_twice(m.update(off, (b % 256) as u8), off + 1, (n - 1) as nat, a / 256, b / 256);
    }
}

/// A store and a byte update outside its range commute.
pub proof fn lemma_store_le_update_commute(m: Seq<u8>, off: int, n: nat, v: nat, k: int, x: u8)
    requires
        0 <= off,
        off + n <= m.len(),
        0 <= k < m.len(),
        k < off || off + n <= k,
    ensures
        store_le(m, off, n, v).update(k, x) == store_le(m.update(k, x), off, n, v),
    decreases n,
{
    if n > 0 {
        let m1 = m.update(off, (v % 256) as u8);
        lemma_store_le_update_commute(m1, off + 1, (n - 1) as nat, v / 256, k, x);
        assert(m1.update(k, x) =~= m.update(k, x).update(off, (v % 256) as u8));
    }
}

/// Storing the bytes already there changes nothing.
pub proof fn lemma_store_le_same(m: Seq<u8>, off: int, n: nat)
    requires
        0 <= off,
        off + n <= m.len(),
    ensures
        store_le(m, off, n, load_le(m, off, n)) == m,
    decreases n,
{
    if n > 0 {
        let v = load_le(m, off, n);
        let rest = load_le(m, off + 1, (n - 1) as nat);
        assert(v % 256 == m[off] as nat && v / 256 == rest) by {
            vstd::arithmetic::div_mod::lemma_fundamental_div_mod_converse(
                v as int,
                256,
                rest as int,
                m[off] as int,
            );
        }
        assert(m.update(off, (v % 256) as u8) =~= m);
        lemma_store_le_same(m, off + 1, (n - 1) as nat);
    }
}

/// Setting a breakpoint at an aligned, mapped address that holds none and then deleting
/// it restores memory and the breakpoint table.
pub proof fn lemma_set_del_breakpoint_restores(v: SimView, addr: u32)
    requires
        addr % 4 == 0,
        !v.breakpoints.contains_key(addr),
        mapped(v.hart.base, v.hart.mem.len(), addr, 4),
    ensures
        ({
            let (v1, r1) = spec_set_breakpoint(v, addr);
            let (v2, r2) = spec_del_breakpoint(v1, addr);
            &&& r1 is Ok
            &&& r2 is Ok
            &&& v2.hart == v.hart
            &&& v2.breakpoints == v.breakpoints
            &&& v2.state == v.state
        }),
{
    let h = v.hart;
    let off = addr - h.base;
    let orig = load_le(h.mem, off, 4);
    crate::bus::lemma_load_le_bound(h.mem, off, 4);
    reveal_with_fuel(crate::bus::pow256, 5);
    crate::bus::lemma_store_le_len(h.mem, off, 4, EBREAK_INST as nat);
    lemma_store_le_twice(h.mem, off, 4, EBREAK_INST as nat, orig);
    lemma_store_le_same(h.mem, off, 4);
    let (v1, r1) = spec_set_breakpoint(v, addr);
    assert(v1.breakpoints.remove(addr) =~= v.breakpoints);
    assert(v1.hart.mem.len() == h.mem.len());
}

/// After setting a breakpoint the word at its address reads as `ebreak`, and the
/// breakpoint remembers the word that was there.
pub proof fn lemma_set_breakpoint_patches(v: SimView, addr: u32)
    requires
        addr % 4 == 0,
        !v.breakpoints.contains_key(addr),
        mapped(v.hart.base, v.hart.mem.len(), addr, 4),
    ensures
        ({
            let (v1, r1) = spec_set_breakpoint(v, addr);
            &&& r1 is Ok
            &&& spec_fetch(HartView { pc: addr, ..v1.hart }) == Ok::<u32, StateError>(EBREAK_INST)
            &&& v1.breakpoints[addr] == load_le(v.hart.mem, addr - v.hart.base, 4) as u32
        }),
{
    let h = v.hart;
    let off = addr - h.base;
    crate::bus::lemma_load_store_le(h.mem, off, 4, EBREAK_INST as nat);
    crate::bus::lemma_store_le_len(h.mem, off, 4, EBREAK_INST as nat);
    reveal_with_fuel(crate::bus::pow256, 5);
    assert(crate::bus::pow256(4) == 0x1_0000_0000);
    let (v1, r1) = spec_set_breakpoint(v, addr);
    assert(v1.hart.mem == store_le(h.mem, off, 4, EBREAK_INST as nat));
    assert(load_le(v1.hart.mem, off, 4) == EBREAK_INST);
}

/// Setting a breakpoint twice is the same as setting it once.
pub proof fn lemma_set_breakpoint_idempotent(v: SimView, addr: u32)
    ensures
        ({
            let (v1, r1) = spec_set_breakpoint(v, addr);
            r1 is Ok ==> spec_set_breakpoint(v1, addr) == (v1, Ok::<(), SimError>(()))
        }),
{
}

/// An `ebreak` on the reference always stops with a breakpoint hit and changes nothing.
/// On the device under test the first one stops with a breakpoint hit and arms the
/// breakpoint; the next one runs the replaced instruction and disarms it, or, when that
/// instruction fails, returns its error and stays armed.
pub proof fn lemma_ebreak_two_phase(v: SimView, pc: u32)
    requires
        v.state == BreakpointState::Idle,
    ensures
        spec_on_ebreak(v, false, pc) == (v, Err::<(), SimError>(SimError::State(StateError::BreakpointHit(pc)))),
        ({
            let (v1, r1) = spec_on_ebreak(v, true, pc);
            let (h, e) = spec_execute(v1.hart, spec_decode(v1.hart.cfg, v1.breakpoints[pc]));
            e is Err ==> {
                let (v2, r2) = spec_on_ebreak(v1, true, pc);
                &&& r2 == Err::<(), SimError>(SimError::State(e->Err_0))
                &&& v2.state == BreakpointState::Active
                &&& v2.hart == h
            }
        }),
        ({
            let (v1, r1) = spec_on_ebreak(v, true, pc);
            &&& r1 == Err::<(), SimError>(SimError::State(StateError::BreakpointHit(pc)))
            &&& v1.state == BreakpointState::Active
            &&& v1.hart == v.hart
            &&& (spec_execute(v1.hart, spec_decode(v1.hart.cfg, v1.breakpoints[pc])).1 is Ok ==> {
                let (v2, r2) = spec_on_ebreak(v1, true, pc);
                &&& r2 is Ok
                &&& v2.state == BreakpointState::Idle
                &&& v2.hart == spec_execute(v.hart, spec_decode(v.hart.cfg, v.breakpoints[pc])).0
            })
        }),
{
}


/// What `mem_compare` finds: nothing on the device under test, nothing when the range is
/// not mapped or matches, the reference's bytes otherwise.
pub open spec fn spec_mem_compare(h: HartView, is_dut: bool, addr: u64, dut: Seq<u8>) -> Option<Seq<u8>> {
    let off = addr - h.base;
    if is_dut || addr < h.base || off + dut.len() > h.mem.len() {
        None
    } else {
        let m = h.mem.subrange(off, off + dut.len());
        if m == dut {
            None
        } else {
            Some(m)
        }
    }
}

impl<const IS_DUT: bool> SimulatorRemu<IS_DUT> {
    /// The registers (pc, general, vector) in which this simulator differs from `dut`.
    pub fn regs_diff(&self, dut: &Hart) -> (out: Vec<crate::diff::Mismatch>)
        requires
            self.wf(),
            dut.wf(),
            dut@.cfg.vlenb == self@.hart.cfg.vlenb,
        ensures
            crate::diff::lists(out@, crate::diff::spec_regs_diff(self@.hart, dut@)),
    {
        let mut a = crate::diff::diff_scalar(self.hart.pc, &self.hart.gpr, dut.pc, &dut.gpr);
        let mut b = crate::diff::diff_vector(&self.hart.vr, &dut.vr, self.hart.cfg.vlenb as usize);
        let ghost a0 = a@;
        let ghost b0 = b@;
        a.append(&mut b);
        proof {
            assert forall|i: int| 0 <= i < a@.len() implies #[trigger] a@[i]@ == crate::diff::spec_regs_diff(self@.hart, dut@)[i] by {
                if i < a0.len() {
                    assert(a@[i] == a0[i]);
                } else {
                    assert(a@[i] == b0[i - a0.len()]);
                }
            }
        }
        a
    }

    /// This simulator agrees with `dut` on every register.
    pub fn regs_match(&self, dut: &Hart) -> (r: bool)
        requires
            self.wf(),
            dut.wf(),
            dut@.cfg.vlenb == self@.hart.cfg.vlenb,
        ensures
            r == (crate::diff::spec_regs_diff(self@.hart, dut@).len() == 0),
    {
        self.regs_diff(dut).len() == 0
    }

    /// Takes the pc, the general and vector registers and the CSRs of `dut`.
    pub fn sync_from(&mut self, dut: &Hart)
        requires
            old(self).wf(),
            dut.wf(),
            dut@.cfg.vlenb == old(self)@.hart.cfg.vlenb,
        ensures
            final(self).wf(),
            final(self)@.hart == (HartView {
                pc: dut@.pc,
                gpr: dut@.gpr,
                vr: dut@.vr,
                csr: dut@.csr,
                ..old(self)@.hart
            }),
            final(self)@.breakpoints == old(self)@.breakpoints,
            final(self)@.state == old(self)@.state,
            crate::diff::spec_regs_diff(final(self)@.hart, dut@).len() == 0,
    {
        self.hart.pc = dut.pc;
        self.hart.gpr = dut.gpr.clone();
        self.hart.vr = dut.vr.clone();
        self.hart.csr = dut.csr;
        proof {
            assert(self.hart.gpr@ =~= dut.gpr@);
            assert(self.hart.vr@ =~= dut.vr@);
            lemma_sync_then_match(old(self)@.hart, dut@);
        }
    }

    /// The reference's bytes at `addr` when they differ from `dut_data` (see
    /// `spec_mem_compare`).
    pub fn mem_compare(&self, addr: u64, dut_data: &Vec<u8>) -> (r: Option<Vec<u8>>)
        requires
            self.wf(),
        ensures
            match spec_mem_compare(self@.hart, IS_DUT, addr, dut_data@) {
                None => r is None,
                Some(m) => r matches Some(v) && v@ == m,
            },
    {
        if IS_DUT {
            return None;
        }
        let base = self.hart.bus.base as u64;
        let len = self.hart.bus.mem.len();
        if addr < base {
            return None;
        }
        let off = addr - base;
        if off > len as u64 || (len as u64) - off < dut_data.len() as u64 {
            return None;
        }
        let m = crate::vexec::copy_range(&self.hart.bus.mem, off as usize, dut_data.len());
        let mut i: usize = 0;
        while i < m.len()
            invariant
                i <= m@.len(),
                m@.len() == dut_data@.len(),
                !IS_DUT,
                base == self@.hart.base,
                addr >= base,
                off == addr - base,
                off + dut_data@.len() <= self@.hart.mem.len(),
                m@ == self@.hart.mem.subrange(off as int, off + dut_data@.len()),
                forall|k: int| 0 <= k < i ==> m@[k] == dut_data@[k],
            decreases m@.len() - i,
        {
            if m[i] != dut_data[i] {
                assert(m@ != dut_data@);
                return Some(m);
            }
            i = i + 1;
        }
        assert(m@ =~= dut_data@);
        None
    }
}



/// After `sync_from(dut)` the simulator agrees with `dut` on every register `regs_diff`
/// compares: the comparison is empty.
pub proof fn lemma_sync_then_match(h: HartView, dut: HartView)
    requires
        crate::hart::view_wf(h),
        crate::hart::view_wf(dut),
        dut.cfg.vlenb == h.cfg.vlenb,
    ensures
        crate::diff::spec_regs_diff(
            HartView { pc: dut.pc, gpr: dut.gpr, vr: dut.vr, csr: dut.csr, ..h },
            dut,
        ).len() == 0,
{
    let s = HartView { pc: dut.pc, gpr: dut.gpr, vr: dut.vr, csr: dut.csr, ..h };
    crate::diff::lemma_regs_diff_empty_iff_equal(s, dut);
}

} // verus!
