//! Register comparison between a reference model and the device under test.

use vstd::prelude::*;
use crate::hart::HartView;
use crate::vexec::vreg;

verus! {

/// Which register file a mismatch is in.
#[derive(Clone, Copy, Debug, PartialEq, Eq, Structural)]
pub enum RegGroup {
    Pc,
    Gpr,
    Vr,
}

/// One register whose reference and device values differ.
#[derive(Clone, Debug)]
pub enum Mismatch {
    /// The pc (index 0) or general register `index`.
    Scalar { group: RegGroup, index: u8, ref_val: u32, dut_val: u32 },
    /// Vector register `index`, as its bytes.
    Vector { index: u8, ref_val: Vec<u8>, dut_val: Vec<u8> },
}

pub enum MismatchView {
    Scalar { group: RegGroup, index: u8, ref_val: u32, dut_val: u32 },
    Vector { index: u8, ref_val: Seq<u8>, dut_val: Seq<u8> },
}

impl View for Mismatch {
    type V = MismatchView;

    open spec fn view(&self) -> MismatchView {
        match self {
            Mismatch::Scalar { group, index, ref_val, dut_val } => MismatchView::Scalar {
                group: *group,
                index: *index,
                ref_val: *ref_val,
                dut_val: *dut_val,
            },
            Mismatch::Vector { index, ref_val, dut_val } => MismatchView::Vector {
                index: *index,
                ref_val: ref_val@,
                dut_val: dut_val@,
            },
        }
    }
}

/// The general registers among `x0 .. x(k-1)` that differ, in order.
pub open spec fn gpr_diff(r: Seq<u32>, d: Seq<u32>, k: nat) -> Seq<MismatchView>
    decreases k,
{
    if k == 0 {
        Seq::empty()
    } else {
        let i = k - 1;
        gpr_diff(r, d, (k - 1) as nat) + if r[i] != d[i] {
            seq![MismatchView::Scalar { group: RegGroup::Gpr, index: i as u8, ref_val: r[i], dut_val: d[i] }]
        } else {
            Seq::empty()
        }
    }
}

/// The pc and then the 32 general registers, each where they differ.
pub open spec fn scalar_diff(rpc: u32, rgpr: Seq<u32>, dpc: u32, dgpr: Seq<u32>) -> Seq<MismatchView> {
    (if rpc != dpc {
        seq![MismatchView::Scalar { group: RegGroup::Pc, index: 0, ref_val: rpc, dut_val: dpc }]
    } else {
        Seq::empty()
    }) + gpr_diff(rgpr, dgpr, 32)
}

/// The vector registers among `v0 .. v(k-1)` that differ, in order.
pub open spec fn vr_diff(r: Seq<u8>, d: Seq<u8>, vlenb: nat, k: nat) -> Seq<MismatchView>
    decreases k,
{
    if k == 0 {
        Seq::empty()
    } else {
        let i = k - 1;
        let a = vreg(r, vlenb, i);
        let b = vreg(d, vlenb, i);
        vr_diff(r, d, vlenb, (k - 1) as nat) + if a != b {
            seq![MismatchView::Vector { index: i as u8, ref_val: a, dut_val: b }]
        } else {
            Seq::empty()
        }
    }
}

/// Every mismatch between two harts: pc, general registers, vector registers.
pub open spec fn spec_regs_diff(a: HartView, b: HartView) -> Seq<MismatchView> {
    scalar_diff(a.pc, a.gpr, b.pc, b.gpr) + vr_diff(a.vr, b.vr, a.cfg.vlenb as nat, 32)
}

/// `v` lists the mismatches `s`.
pub open spec fn lists(v: Seq<Mismatch>, s: Seq<MismatchView>) -> bool {
    &&& v.len() == s.len()
    &&& forall|i: int| 0 <= i < v.len() ==> #[trigger] v[i]@ == s[i]
}

/// Compares the pc and the 32 general registers of a reference with those of the device.
pub fn diff_scalar(rpc: u32, rgpr: &Vec<u32>, dpc: u32, dgpr: &Vec<u32>) -> (out: Vec<Mismatch>)
    requires
        rgpr@.len() == 32,
        dgpr@.len() == 32,
    ensures
        lists(out@, scalar_diff(rpc, rgpr@, dpc, dgpr@)),
{
    let mut out: Vec<Mismatch> = Vec::new();
    if rpc != dpc {
        out.push(Mismatch::Scalar { group: RegGroup::Pc, index: 0, ref_val: rpc, dut_val: dpc });
    }
    let ghost head = if rpc != dpc {
        seq![MismatchView::Scalar { group: RegGroup::Pc, index: 0, ref_val: rpc, dut_val: dpc }]
    } else {
        Seq::<MismatchView>::empty()
    };
    let mut i: usize = 0;
    while i < 32
        invariant
            i <= 32,
            rgpr@.len() == 32,
            dgpr@.len() == 32,
            lists(out@, head + gpr_diff(rgpr@, dgpr@, i as nat)),
        decreases 32 - i,
    {
        let r = rgpr[i];
        let d = dgpr[i];
        if r != d {
            out.push(Mismatch::Scalar { group: RegGroup::Gpr, index: i as u8, ref_val: r, dut_val: d });
        }
        proof {
            assert(head + gpr_diff(rgpr@, dgpr@, (i + 1) as nat) =~= head + gpr_diff(rgpr@, dgpr@, i as nat) + if r != d {
                seq![MismatchView::Scalar { group: RegGroup::Gpr, index: i as u8, ref_val: r, dut_val: d }]
            } else {
                Seq::<MismatchView>::empty()
            });
        }
        i = i + 1;
    }
    out
}

fn bytes_equal(a: &Vec<u8>, b: &Vec<u8>) -> (r: bool)
    ensures
        r == (a@ == b@),
{
    if a.len() != b.len() {
        return false;
    }
    let mut i: usize = 0;
    while i < a.len()
        invariant
            i <= a@.len(),
            a@.len() == b@.len(),
            forall|k: int| 0 <= k < i ==> a@[k] == b@[k],
        decreases a@.len() - i,
    {
        if a[i] != b[i] {
            return false;
        }
        i = i + 1;
    }
    assert(a@ =~= b@);
    true
}

/// Compares the 32 vector registers of two register files of the same width.
pub fn diff_vector(r: &Vec<u8>, d: &Vec<u8>, vlenb: usize) -> (out: Vec<Mismatch>)
    requires
        r@.len() == 32 * vlenb,
        d@.len() == 32 * vlenb,
        vlenb <= 1024,
    ensures
        lists(out@, vr_diff(r@, d@, vlenb as nat, 32)),
{
    let mut out: Vec<Mismatch> = Vec::new();
    let mut i: usize = 0;
    while i < 32
        invariant
            i <= 32,
            r@.len() == 32 * vlenb,
            d@.len() == 32 * vlenb,
            vlenb <= 1024,
            lists(out@, vr_diff(r@, d@, vlenb as nat, i as nat)),
        decreases 32 - i,
    {
        proof {
            assert(i * vlenb + vlenb <= 32 * vlenb) by (nonlinear_arith)
                requires
                    i < 32,
            ;
        }
        let a = crate::vexec::copy_range(r, i * vlenb, vlenb);
        let b = crate::vexec::copy_range(d, i * vlenb, vlenb);
        let same = bytes_equal(&a, &b);
        let ghost item = MismatchView::Vector { index: i as u8, ref_val: a@, dut_val: b@ };
        if !same {
            out.push(Mismatch::Vector { index: i as u8, ref_val: a, dut_val: b });
        }
        proof {
            assert(vr_diff(r@, d@, vlenb as nat, (i + 1) as nat) =~= vr_diff(r@, d@, vlenb as nat, i as nat) + if !same {
                seq![item]
            } else {
                Seq::<MismatchView>::empty()
            });
        }
        i = i + 1;
    }
    out
}

/// A CSR differs under its comparison mask (a zero mask compares nothing).
pub fn csr_differs(ref_val: u32, dut_val: u32, mask: u32) -> (r: bool)
    ensures
        r == (mask != 0 && ref_val & mask != dut_val & mask),
{
    mask != 0 && (ref_val & mask) != (dut_val & mask)
}

proof fn lemma_gpr_diff_empty(r: Seq<u32>, d: Seq<u32>, k: nat)
    requires
        k <= r.len(),
        k <= d.len(),
    ensures
        gpr_diff(r, d, k).len() == 0 <==> forall|i: int| 0 <= i < k ==> r[i] == d[i],
    decreases k,
{
    if k > 0 {
        lemma_gpr_diff_empty(r, d, (k - 1) as nat);
        if gpr_diff(r, d, k).len() == 0 {
            assert forall|i: int| 0 <= i < k implies r[i] == d[i] by {
                if i < k - 1 {
                } else {
                }
            }
        }
    }
}

proof fn lemma_vr_diff_empty(r: Seq<u8>, d: Seq<u8>, vlenb: nat, k: nat)
    ensures
        vr_diff(r, d, vlenb, k).len() == 0 <==> forall|i: int| 0 <= i < k ==> #[trigger] vreg(r, vlenb, i) == vreg(d, vlenb, i),
    decreases k,
{
    if k > 0 {
        lemma_vr_diff_empty(r, d, vlenb, (k - 1) as nat);
    }
}

/// Two register files with the same layout agree everywhere exactly when they agree on
/// every register.
proof fn lemma_vr_regs_equal(r: Seq<u8>, d: Seq<u8>, vlenb: nat)
    requires
        vlenb > 0,
        r.len() == 32 * vlenb,
        d.len() == 32 * vlenb,
        forall|i: int| 0 <= i < 32 ==> #[trigger] vreg(r, vlenb, i) == vreg(d, vlenb, i),
    ensures
        r == d,
{
    assert forall|k: int| 0 <= k < r.len() implies r[k] == d[k] by {
        let i = k / vlenb as int;
        vstd::arithmetic::div_mod::lemma_fundamental_div_mod(k, vlenb as int);
        assert(0 <= i < 32) by {
            vstd::arithmetic::div_mod::lemma_div_pos_is_pos(k, vlenb as int);
            if i >= 32 {
                assert(i * vlenb >= 32 * vlenb) by (nonlinear_arith)
                    requires
                        i >= 32,
                        vlenb > 0,
                ;
            }
        }
        vstd::arithmetic::div_mod::lemma_mod_pos_bound(k, vlenb as int);
        assert(vlenb * i == i * vlenb) by (nonlinear_arith);
        assert(i * vlenb + vlenb <= 32 * vlenb) by (nonlinear_arith)
            requires
                i < 32,
        ;
        assert(vreg(r, vlenb, i)[k - i * vlenb] == vreg(d, vlenb, i)[k - i * vlenb]);
    }
    assert(r =~= d);
}

/// Comparing a hart with itself finds no mismatch; in general the comparison is empty
/// exactly when the pc, the general registers and the vector registers all agree.
pub proof fn lemma_regs_diff_empty_iff_equal(a: HartView, b: HartView)
    requires
        a.gpr.len() == 32,
        b.gpr.len() == 32,
        a.vr.len() == 32 * a.cfg.vlenb,
        b.vr.len() == 32 * a.cfg.vlenb,
    ensures
        spec_regs_diff(a, b).len() == 0 <==> (a.pc == b.pc && a.gpr == b.gpr && a.vr == b.vr),
        spec_regs_diff(a, a).len() == 0,
{
    let vlenb = a.cfg.vlenb as nat;
    lemma_gpr_diff_empty(a.gpr, b.gpr, 32);
    lemma_vr_diff_empty(a.vr, b.vr, vlenb, 32);
    lemma_gpr_diff_empty(a.gpr, a.gpr, 32);
    lemma_vr_diff_empty(a.vr, a.vr, vlenb, 32);
    if spec_regs_diff(a, b).len() == 0 {
        assert(a.gpr =~= b.gpr);
        if vlenb > 0 {
            lemma_vr_regs_equal(a.vr, b.vr, vlenb);
        } else {
            assert(a.vr =~= b.vr);
        }
    }
}


/// Where a mismatch stands in the comparison order: the pc, then `x0 .. x31`, then
/// `v0 .. v31`.
pub open spec fn mismatch_rank(m: MismatchView) -> int {
    match m {
        MismatchView::Scalar { group, index, .. } => if group == RegGroup::Pc {
            0
        } else if group == RegGroup::Gpr {
            1 + index
        } else {
            64 + index
        },
        MismatchView::Vector { index, .. } => 64 + index,
    }
}

proof fn lemma_gpr_diff_ranks(r: Seq<u32>, d: Seq<u32>, k: nat)
    requires
        k <= 32,
    ensures
        forall|i: int| 0 <= i < gpr_diff(r, d, k).len() ==> {
            &&& #[trigger] gpr_diff(r, d, k)[i] matches MismatchView::Scalar { group, .. } && group == RegGroup::Gpr
            &&& 1 <= mismatch_rank(gpr_diff(r, d, k)[i]) < 1 + k
        },
        forall|i: int, j: int|
            0 <= i < j < gpr_diff(r, d, k).len() ==> mismatch_rank(#[trigger] gpr_diff(r, d, k)[i])
                < mismatch_rank(#[trigger] gpr_diff(r, d, k)[j]),
    decreases k,
{
    if k > 0 {
        lemma_gpr_diff_ranks(r, d, (k - 1) as nat);
    }
}

proof fn lemma_vr_diff_ranks(r: Seq<u8>, d: Seq<u8>, vlenb: nat, k: nat)
    requires
        k <= 32,
    ensures
        forall|i: int| 0 <= i < vr_diff(r, d, vlenb, k).len() ==> {
            &&& #[trigger] vr_diff(r, d, vlenb, k)[i] is Vector
            &&& 64 <= mismatch_rank(vr_diff(r, d, vlenb, k)[i]) < 64 + k
        },
        forall|i: int, j: int|
            0 <= i < j < vr_diff(r, d, vlenb, k).len() ==> mismatch_rank(
                #[trigger] vr_diff(r, d, vlenb, k)[i],
            ) < mismatch_rank(#[trigger] vr_diff(r, d, vlenb, k)[j]),
    decreases k,
{
    if k > 0 {
        lemma_vr_diff_ranks(r, d, vlenb, (k - 1) as nat);
    }
}

/// The comparison lists the pc first, then the general registers by number, then the
/// vector registers by number, each register at most once; only those three groups occur.
pub proof fn lemma_regs_diff_order(a: HartView, b: HartView)
    ensures
        forall|i: int, j: int|
            0 <= i < j < spec_regs_diff(a, b).len() ==> mismatch_rank(#[trigger] spec_regs_diff(a, b)[i])
                < mismatch_rank(#[trigger] spec_regs_diff(a, b)[j]),
        forall|i: int|
            0 <= i < spec_regs_diff(a, b).len() ==> match #[trigger] spec_regs_diff(a, b)[i] {
                MismatchView::Scalar { group, .. } => group == RegGroup::Pc || group == RegGroup::Gpr,
                MismatchView::Vector { .. } => true,
            },
{
    let head = if a.pc != b.pc {
        seq![MismatchView::Scalar { group: RegGroup::Pc, index: 0, ref_val: a.pc, dut_val: b.pc }]
    } else {
        Seq::<MismatchView>::empty()
    };
    let g = gpr_diff(a.gpr, b.gpr, 32);
    let v = vr_diff(a.vr, b.vr, a.cfg.vlenb as nat, 32);
    lemma_gpr_diff_ranks(a.gpr, b.gpr, 32);
    lemma_vr_diff_ranks(a.vr, b.vr, a.cfg.vlenb as nat, 32);
    let s = spec_regs_diff(a, b);
    assert(s =~= head + g + v);
    assert forall|i: int| 0 <= i < s.len() implies {
        &&& (i < head.len() ==> mismatch_rank(s[i]) == 0 && s[i] == head[i])
        &&& (head.len() <= i < head.len() + g.len() ==> s[i] == g[i - head.len()])
        &&& (head.len() + g.len() <= i ==> s[i] == v[i - head.len() - g.len()])
    } by {}
    assert forall|i: int, j: int| 0 <= i < j < s.len() implies mismatch_rank(#[trigger] s[i])
        < mismatch_rank(#[trigger] s[j]) by {
        if i >= head.len() && j < head.len() + g.len() {
            assert(g[i - head.len()] == s[i]);
            assert(g[j - head.len()] == s[j]);
        } else if i >= head.len() + g.len() {
            assert(v[i - head.len() - g.len()] == s[i]);
            assert(v[j - head.len() - g.len()] == s[j]);
        } else if i < head.len() {
            if j < head.len() + g.len() {
                assert(g[j - head.len()] == s[j]);
            } else {
                assert(v[j - head.len() - g.len()] == s[j]);
            }
        } else {
            assert(g[i - head.len()] == s[i]);
            assert(v[j - head.len() - g.len()] == s[j]);
        }
    }
    assert forall|i: int| 0 <= i < s.len() implies match #[trigger] s[i] {
        MismatchView::Scalar { group, .. } => group == RegGroup::Pc || group == RegGroup::Gpr,
        MismatchView::Vector { .. } => true,
    } by {
        if head.len() <= i < head.len() + g.len() {
            assert(g[i - head.len()] == s[i]);
        } else if head.len() + g.len() <= i {
            assert(v[i - head.len() - g.len()] == s[i]);
        }
    }
}

} // verus!
