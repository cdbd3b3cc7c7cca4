//! The simulated MNIST accelerator behind the custom-0 instructions: an INT8 three-layer
//! perceptron with symmetric per-layer Q16 scales.

use vstd::prelude::*;
use vstd::arithmetic::power2::{lemma_pow2_pos, pow2};

verus! {

pub const INPUT_LEN: usize = 784;

pub const HIDDEN1_LEN: usize = 256;

pub const HIDDEN2_LEN: usize = 128;

pub const OUTPUT_LEN: usize = 10;

/// Fixed-point shift of the layer scales.
pub const Q16_SHIFT: u32 = 16;

/// An integer reduced to a signed 32-bit value (two's-complement wrap).
pub open spec fn wrap_i32(x: int) -> int {
    let m = x % 0x1_0000_0000;
    if m >= 0x8000_0000 {
        m - 0x1_0000_0000
    } else {
        m
    }
}

/// `Σ_j w[j] * x[j]` over the first `n` positions.
pub open spec fn dot(w: Seq<i8>, x: Seq<i8>, n: nat) -> int
    decreases n,
{
    if n == 0 {
        0
    } else {
        dot(w, x, (n - 1) as nat) + (w[n - 1] as int) * (x[n - 1] as int)
    }
}

/// One output of a scaled layer: the dot product times the Q16 scale, floored to an integer
/// and wrapped to 32 bits.
pub open spec fn scaled_dot(w: Seq<i8>, x: Seq<i8>, scale_q16: i32) -> int {
    wrap_i32((dot(w, x, x.len()) * scale_q16) / 0x1_0000)
}

/// The layer `out[i] = scaled_dot(weights[i], input)`.
pub open spec fn spec_matmul(weights: Seq<Seq<i8>>, input: Seq<i8>, scale_q16: i32) -> Seq<i32> {
    Seq::new(weights.len(), |i: int| scaled_dot(weights[i], input, scale_q16) as i32)
}

/// The matrix has `rows` rows of `cols` entries, and its dot products cannot overflow `i32`.
pub open spec fn matrix_shape(weights: Seq<Vec<i8>>, rows: nat, cols: nat) -> bool {
    &&& weights.len() == rows
    &&& forall|i: int| 0 <= i < rows ==> (#[trigger] weights[i])@.len() == cols
    &&& cols * 16384 <= 0x7fff_ffff
}

pub open spec fn rows_view(weights: Seq<Vec<i8>>) -> Seq<Seq<i8>> {
    weights.map_values(|r: Vec<i8>| r@)
}

proof fn lemma_dot_bound(w: Seq<i8>, x: Seq<i8>, n: nat)
    requires
        n <= w.len(),
        n <= x.len(),
    ensures
        -(n * 16384) <= dot(w, x, n) <= n * 16384,
    decreases n,
{
    if n > 0 {
        lemma_dot_bound(w, x, (n - 1) as nat);
        let a = w[n - 1] as int;
        let b = x[n - 1] as int;
        assert(-16384 <= a * b <= 16384) by (nonlinear_arith)
            requires
                -128 <= a <= 127,
                -128 <= b <= 127,
        ;
    }
}

fn to_i32_wrapping(x: i64) -> (r: i32)
    ensures
        r == wrap_i32(x as int),
{
    let r = #[verifier::truncate] (x as i32);
    assert(r as int == (if (x as int) % 0x1_0000_0000 >= 0x8000_0000 {
        (x as int) % 0x1_0000_0000 - 0x1_0000_0000
    } else {
        (x as int) % 0x1_0000_0000
    })) by (bit_vector)
        requires
            r == x as i32,
    ;
    r
}

/// `out[i] = (Σ_j weights[i][j] * input[j] * scale_q16) >> 16`, per row.
pub fn matmul_sym(weights: &Vec<Vec<i8>>, input: &Vec<i8>, scale_q16: i32) -> (out: Vec<i32>)
    requires
        matrix_shape(weights@, weights@.len(), input@.len()),
    ensures
        out@ == spec_matmul(rows_view(weights@), input@, scale_q16),
{
    let rows = weights.len();
    let cols = input.len();
    let mut out: Vec<i32> = Vec::new();
    let mut i: usize = 0;
    while i < rows
        invariant
            rows == weights@.len(),
            cols == input@.len(),
            matrix_shape(weights@, rows as nat, cols as nat),
            i <= rows,
            out@.len() == i,
            forall|k: int|
                0 <= k < i ==> out@[k] == scaled_dot(weights@[k]@, input@, scale_q16) as i32,
        decreases rows - i,
    {
        let row = &weights[i];
        assert(row@.len() == cols);
        let mut sum: i32 = 0;
        let mut j: usize = 0;
        while j < cols
            invariant
                cols == input@.len(),
                row@.len() == cols,
                cols * 16384 <= 0x7fff_ffff,
                j <= cols,
                sum == dot(row@, input@, j as nat),
            decreases cols - j,
        {
            proof {
                lemma_dot_bound(row@, input@, j as nat);
                lemma_dot_bound(row@, input@, (j + 1) as nat);
                assert((j + 1) * 16384 <= cols * 16384);
                assert(dot(row@, input@, (j + 1) as nat) == dot(row@, input@, j as nat) + (row@[j as int] as int) * (input@[j as int] as int));
            }
            let w = row[j] as i32;
            let x = input[j] as i32;
            assert(-16384 <= w * x <= 16384) by (nonlinear_arith)
                requires
                    -128 <= w <= 127,
                    -128 <= x <= 127,
            ;
            assert(-0x7fff_ffff <= sum + w * x <= 0x7fff_ffff);
            sum = sum + w * x;
            j = j + 1;
        }
        proof {
            lemma_dot_bound(row@, input@, cols as nat);
        }
        assert(-0x4000_0000_0000_0000 <= sum as int * scale_q16 as int <= 0x4000_0000_0000_0000)
            by (nonlinear_arith)
            requires
                -0x8000_0000 <= sum <= 0x7fff_ffff,
                -0x8000_0000 <= scale_q16 <= 0x7fff_ffff,
        ;
        let p = sum as i64 * scale_q16 as i64;
        let q = p >> 16u64;
        assert(q as int == (p as int) / 0x1_0000) by (bit_vector)
            requires
                q == p >> 16u64,
        ;
        out.push(to_i32_wrapping(q));
        i = i + 1;
    }
    assert(out@ =~= spec_matmul(rows_view(weights@), input@, scale_q16));
    out
}

/// ReLU on INT8: negative entries become zero.
pub fn relu8(data: &mut Vec<i8>)
    ensures
        final(data)@.len() == old(data)@.len(),
        forall|i: int|
            0 <= i < old(data)@.len() ==> #[trigger] final(data)@[i] == if old(data)@[i] < 0 {
                0i8
            } else {
                old(data)@[i]
            },
{
    let n = data.len();
    let mut i: usize = 0;
    while i < n
        invariant
            n == data@.len(),
            data@.len() == old(data)@.len(),
            i <= n,
            forall|k: int|
                0 <= k < i ==> #[trigger] data@[k] == if old(data)@[k] < 0 {
                    0i8
                } else {
                    old(data)@[k]
                },
            forall|k: int| i <= k < n ==> #[trigger] data@[k] == old(data)@[k],
        decreases n - i,
    {
        if data[i] < 0 {
            data[i] = 0;
        }
        i = i + 1;
    }
}

/// Two's-complement magnitude: `i32::MIN` has none that fits and stays `i32::MIN`.
pub open spec fn iabs(x: i32) -> int {
    if x == i32::MIN {
        i32::MIN as int
    } else if x < 0 {
        -(x as int)
    } else {
        x as int
    }
}

/// The largest magnitude among the first `n` entries, starting from zero.
pub open spec fn max_abs(v: Seq<i32>, n: nat) -> int
    decreases n,
{
    if n == 0 {
        0
    } else {
        let m = max_abs(v, (n - 1) as nat);
        if iabs(v[n - 1]) > m {
            iabs(v[n - 1])
        } else {
            m
        }
    }
}

/// The number of halvings, starting from `shift`, that bring `m` down to at most 127, never
/// going past 31.
pub open spec fn requant_shift(m: int, shift: nat) -> nat
    decreases 31 - shift,
{
    if m > 127 && shift < 31 {
        requant_shift(m / 2, shift + 1)
    } else {
        shift
    }
}

pub open spec fn clamp_i8(x: int) -> i8 {
    if x < -128 {
        -128i8
    } else if x > 127 {
        127i8
    } else {
        x as i8
    }
}

/// Requantisation of an `i32` vector to `i8`: all entries are shifted right arithmetically
/// by the smallest amount that brings the largest magnitude within 127 (at most 31), then
/// clamped to `[-128, 127]`.  An all-zero input gives all zeros.
pub open spec fn spec_requantize(v: Seq<i32>) -> Seq<i8> {
    let m = max_abs(v, v.len());
    let s = requant_shift(m, 0);
    Seq::new(
        v.len(),
        |i: int|
            if m == 0 {
                0i8
            } else {
                clamp_i8(v[i] as int / pow2(s) as int)
            },
    )
}

proof fn lemma_max_abs_bound(v: Seq<i32>, n: nat)
    requires
        n <= v.len(),
    ensures
        0 <= max_abs(v, n) <= 0x7fff_ffff,
    decreases n,
{
    if n > 0 {
        lemma_max_abs_bound(v, (n - 1) as nat);
    }
}

proof fn lemma_requant_shift_step(m: int, shift: nat)
    requires
        m > 127,
        shift < 31,
    ensures
        requant_shift(m, shift) == requant_shift(m / 2, shift + 1),
{
}

/// Arithmetic right shift of an `i32` by `s < 32` is floor division by 2^s.
proof fn lemma_i32_shr(x: i32, s: u32)
    requires
        s < 32,
    ensures
        (x >> s) as int == (x as int) / pow2(s as nat) as int,
{
    vstd::bits::lemma_u64_pow2_no_overflow(s as nat);
    vstd::bits::lemma_u64_shl_is_mul(1, s as u64);
    let y = x as i64;
    let d = 1u64 << (s as u64);
    assert(d as int == pow2(s as nat));
    // Work on the sign-split form to avoid a symbolic signed division.
    if x >= 0 {
        let ux = x as u32;
        assert((x >> s) as int == (ux >> s) as int) by (bit_vector)
            requires
                x >= 0,
                ux == x as u32,
                s < 32,
        ;
        vstd::bits::lemma_u32_shr_is_div(ux, s);
    } else {
        let nx = (!x) as u32;
        assert((x >> s) as int == -((nx >> s) as int) - 1) by (bit_vector)
            requires
                x < 0,
                nx == (!x) as u32,
                s < 32,
        ;
        assert(nx as int == -(x as int) - 1) by (bit_vector)
            requires
                x < 0,
                nx == (!x) as u32,
        ;
        vstd::bits::lemma_u32_shr_is_div(nx, s);
        lemma_pow2_pos(s as nat);
        let p = pow2(s as nat) as int;
        let q = (nx as int) / p;
        let r = (nx as int) % p;
        vstd::arithmetic::div_mod::lemma_fundamental_div_mod(nx as int, p);
        assert((x as int) == p * (-q - 1) + (p - 1 - r)) by (nonlinear_arith)
            requires
                nx as int == p * q + r,
                nx as int == -(x as int) - 1,
        ;
        vstd::arithmetic::div_mod::lemma_fundamental_div_mod_converse(
            x as int,
            p,
            -q - 1,
            p - 1 - r,
        );
    }
}

/// Rescales an `i32` activation vector to `i8` (see [`spec_requantize`]).
pub fn int32_to_int8_arr(input: &Vec<i32>) -> (out: Vec<i8>)
    ensures
        out@ == spec_requantize(input@),
{
    let n = input.len();
    let mut m: i32 = 0;
    let mut i: usize = 0;
    while i < n
        invariant
            n == input@.len(),
            i <= n,
            0 <= m,
            m == max_abs(input@, i as nat),
        decreases n - i,
    {
        proof {
            lemma_max_abs_bound(input@, i as nat);
        }
        let x = input[i];
        let a = if x == i32::MIN {
            x
        } else if x < 0 {
            -x
        } else {
            x
        };
        if a > m {
            m = a;
        }
        i = i + 1;
    }
    if m == 0 {
        let mut out: Vec<i8> = Vec::new();
        let mut k: usize = 0;
        while k < n
            invariant
                k <= n,
                out@.len() == k,
                forall|j: int| 0 <= j < k ==> out@[j] == 0i8,
            decreases n - k,
        {
            out.push(0);
            k = k + 1;
        }
        assert(out@ =~= spec_requantize(input@));
        return out;
    }
    let mut shift: u32 = 0;
    let mut max_val: i32 = m;
    while max_val > 127 && shift < 31
        invariant
            0 <= max_val,
            shift <= 31,
            requant_shift(m as int, 0) == requant_shift(max_val as int, shift as nat),
        decreases 31 - shift,
    {
        proof {
            lemma_requant_shift_step(max_val as int, shift as nat);
        }
        let old_val = max_val;
        max_val = max_val >> 1u32;
        assert(max_val as int == old_val as int / 2 && max_val >= 0) by (bit_vector)
            requires
                old_val >= 0,
                max_val == old_val >> 1u32,
        ;
        shift = shift + 1;
    }
    assert(requant_shift(m as int, 0) == shift);
    let mut out: Vec<i8> = Vec::new();
    let mut k: usize = 0;
    while k < n
        invariant
            n == input@.len(),
            shift < 32,
            shift == requant_shift(max_abs(input@, n as nat), 0),
            max_abs(input@, n as nat) != 0,
            k <= n,
            out@.len() == k,
            forall|j: int|
                0 <= j < k ==> out@[j] == clamp_i8(input@[j] as int / pow2(shift as nat) as int),
        decreases n - k,
    {
        let v = input[k] >> shift;
        proof {
            lemma_i32_shr(input[k as int], shift);
        }
        let c: i8 = if v < -128 {
            -128
        } else if v > 127 {
            127
        } else {
            v as i8
        };
        out.push(c);
        k = k + 1;
    }
    assert(out@ =~= spec_requantize(input@));
    out
}

/// Bytes before the matrix in a weight file (the scale is bytes 8..12).
pub const WEIGHT_HEADER_LEN: usize = 12;

/// The `rows × cols` INT8 matrix of a weight file: row-major after the header.
pub open spec fn spec_weight_matrix(data: Seq<u8>, rows: nat, cols: nat) -> Seq<Seq<i8>> {
    Seq::new(rows, |i: int| Seq::new(cols, |j: int| data[12 + i * cols + j] as i8))
}

/// Parses the matrix of a weight file; `None` when the file is too short to hold it.
pub fn parse_weight_matrix(data: &[u8], rows: usize, cols: usize) -> (r: Option<Vec<Vec<i8>>>)
    requires
        rows <= 0x1_0000,
        cols <= 0x1_0000,
    ensures
        (data@.len() >= 12 + rows * cols) <==> r is Some,
        r matches Some(m) ==> matrix_shape(m@, rows as nat, cols as nat) && rows_view(m@)
            == spec_weight_matrix(data@, rows as nat, cols as nat),
{
    proof {
        assert(rows * cols <= 0x1_0000 * 0x1_0000) by (nonlinear_arith)
            requires
                rows <= 0x1_0000,
                cols <= 0x1_0000,
        ;
    }
    if (data.len() as u64) < 12 + (rows as u64) * (cols as u64) {
        return None;
    }
    let len = data.len();
    let mut m: Vec<Vec<i8>> = Vec::new();
    let mut i: usize = 0;
    while i < rows
        invariant
            i <= rows,
            len == data@.len(),
            rows <= 0x1_0000,
            cols <= 0x1_0000,
            data@.len() >= 12 + rows * cols,
            m@.len() == i,
            forall|k: int| 0 <= k < i ==> (#[trigger] m@[k])@ == Seq::new(cols as nat, |j: int| data@[12 + k * cols + j] as i8),
        decreases rows - i,
    {
        proof {
            assert(i * cols + cols <= rows * cols) by (nonlinear_arith)
                requires
                    i < rows,
            ;
        }
        let start = 12 + i * cols;
        let mut row: Vec<i8> = Vec::new();
        let mut j: usize = 0;
        while j < cols
            invariant
                j <= cols,
                len == data@.len(),
                start == 12 + i * cols,
                start + cols <= data@.len(),
                row@ == Seq::new(j as nat, |t: int| data@[12 + i * cols + t] as i8),
            decreases cols - j,
        {
            row.push(#[verifier::truncate] (data[start + j] as i8));
            j = j + 1;
            assert(row@ =~= Seq::new(j as nat, |t: int| data@[12 + i * cols + t] as i8));
        }
        m.push(row);
        i = i + 1;
    }
    assert(rows_view(m@) =~= spec_weight_matrix(data@, rows as nat, cols as nat));
    Some(m)
}

/// The three weight matrices and their Q16 scales.
pub struct MnistWeights {
    pub fc1_weights: Vec<Vec<i8>>,
    pub fc2_weights: Vec<Vec<i8>>,
    pub fc3_weights: Vec<Vec<i8>>,
    pub fc1_scale_q16: i32,
    pub fc2_scale_q16: i32,
    pub fc3_scale_q16: i32,
}

/// ReLU applied to every entry.
pub open spec fn spec_relu(v: Seq<i8>) -> Seq<i8> {
    Seq::new(v.len(), |i: int| if v[i] < 0 { 0i8 } else { v[i] })
}

impl MnistWeights {
    /// 256×784, 128×256 and 10×128 matrices.
    pub open spec fn wf(&self) -> bool {
        &&& matrix_shape(self.fc1_weights@, HIDDEN1_LEN as nat, INPUT_LEN as nat)
        &&& matrix_shape(self.fc2_weights@, HIDDEN2_LEN as nat, HIDDEN1_LEN as nat)
        &&& matrix_shape(self.fc3_weights@, OUTPUT_LEN as nat, HIDDEN2_LEN as nat)
    }

    /// Layer 1 and 2 activations: scaled product, requantised to INT8, then ReLU.
    pub open spec fn spec_hidden1(&self, input: Seq<i8>) -> Seq<i8> {
        spec_relu(
            spec_requantize(
                spec_matmul(rows_view(self.fc1_weights@), input, self.fc1_scale_q16),
            ),
        )
    }

    pub open spec fn spec_hidden2(&self, input: Seq<i8>) -> Seq<i8> {
        spec_relu(
            spec_requantize(
                spec_matmul(
                    rows_view(self.fc2_weights@),
                    self.spec_hidden1(input),
                    self.fc2_scale_q16,
                ),
            ),
        )
    }

    /// The ten output logits.
    pub open spec fn spec_forward(&self, input: Seq<i8>) -> Seq<i32> {
        spec_matmul(rows_view(self.fc3_weights@), self.spec_hidden2(input), self.fc3_scale_q16)
    }

    pub fn forward(&self, input: &Vec<i8>) -> (out: Vec<i32>)
        requires
            self.wf(),
            input@.len() == INPUT_LEN,
        ensures
            out@ == self.spec_forward(input@),
            out@.len() == OUTPUT_LEN,
    {
        let fc1_output = matmul_sym(&self.fc1_weights, input, self.fc1_scale_q16);
        let mut fc1_activations = int32_to_int8_arr(&fc1_output);
        relu8(&mut fc1_activations);
        assert(fc1_activations@ =~= self.spec_hidden1(input@));
        let fc2_output = matmul_sym(&self.fc2_weights, &fc1_activations, self.fc2_scale_q16);
        let mut fc2_activations = int32_to_int8_arr(&fc2_output);
        relu8(&mut fc2_activations);
        assert(fc2_activations@ =~= self.spec_hidden2(input@));
        matmul_sym(&self.fc3_weights, &fc2_activations, self.fc3_scale_q16)
    }
}

/// The accelerator's buffered input and last computed logits.
pub struct Cus0AccelState {
    pub input: Vec<i8>,
    pub logits: Vec<i32>,
    pub weights: MnistWeights,
}

impl Cus0AccelState {
    pub open spec fn wf(&self) -> bool {
        &&& self.input@.len() == INPUT_LEN
        &&& self.logits@.len() == OUTPUT_LEN
        &&& self.weights.wf()
    }

    /// A zeroed input buffer and zero logits.
    pub fn new(weights: MnistWeights) -> (r: Self)
        requires
            weights.wf(),
        ensures
            r.wf(),
            r.input@ == Seq::new(INPUT_LEN as nat, |i: int| 0i8),
            r.logits@ == Seq::new(OUTPUT_LEN as nat, |i: int| 0i32),
            r.weights == weights,
    {
        let mut input: Vec<i8> = Vec::new();
        let mut i: usize = 0;
        while i < INPUT_LEN
            invariant
                i <= INPUT_LEN,
                input@.len() == i,
                forall|k: int| 0 <= k < i ==> input@[k] == 0i8,
            decreases INPUT_LEN - i,
        {
            input.push(0);
            i = i + 1;
        }
        let mut logits: Vec<i32> = Vec::new();
        let mut j: usize = 0;
        while j < OUTPUT_LEN
            invariant
                j <= OUTPUT_LEN,
                logits@.len() == j,
                forall|k: int| 0 <= k < j ==> logits@[k] == 0i32,
            decreases OUTPUT_LEN - j,
        {
            logits.push(0);
            j = j + 1;
        }
        assert(input@ =~= Seq::new(INPUT_LEN as nat, |i: int| 0i8));
        assert(logits@ =~= Seq::new(OUTPUT_LEN as nat, |i: int| 0i32));
        Cus0AccelState { input, logits, weights }
    }

    /// Stores one input activation; indices past the input are ignored.
    pub fn buffer_load_act(&mut self, idx: usize, val: i8)
        requires
            old(self).wf(),
        ensures
            final(self).wf(),
            final(self).input@ == if idx < INPUT_LEN {
                old(self).input@.update(idx as int, val)
            } else {
                old(self).input@
            },
            final(self).logits@ == old(self).logits@,
            final(self).weights == old(self).weights,
    {
        if idx < INPUT_LEN {
            self.input[idx] = val;
        }
    }

    /// Runs the network on the buffered input.
    pub fn run_inference(&mut self)
        requires
            old(self).wf(),
        ensures
            final(self).wf(),
            final(self).logits@ == old(self).weights.spec_forward(old(self).input@),
            final(self).input@ == old(self).input@,
            final(self).weights == old(self).weights,
    {
        self.logits = self.weights.forward(&self.input);
    }

    /// The logit at `idx`, with indices past the last one reading the last one.
    pub fn read_logit(&self, idx: usize) -> (r: i32)
        requires
            self.wf(),
        ensures
            r == self.logits@[if idx < OUTPUT_LEN { idx as int } else { OUTPUT_LEN - 1 }],
    {
        let i = if idx < OUTPUT_LEN - 1 {
            idx
        } else {
            OUTPUT_LEN - 1
        };
        self.logits[i]
    }
}


/// `v` with every negative entry replaced by zero: `max(x, 0)` entry by entry.
pub open spec fn nonneg_part(v: Seq<i8>) -> Seq<i8> {
    Seq::new(v.len(), |i: int| if v[i] > 0 { v[i] } else { 0i8 })
}

impl MnistWeights {
    /// The network in layers: each hidden layer is the requantised product with its
    /// weights, cut below at zero (`max(x, 0)`), and the logits are the output layer's
    /// product with the second hidden layer. No activation fed to a following layer is
    /// negative.
    pub proof fn lemma_forward_layers(&self, input: Seq<i8>)
        ensures
            ({
                let h1 = nonneg_part(
                    spec_requantize(spec_matmul(rows_view(self.fc1_weights@), input, self.fc1_scale_q16)),
                );
                let h2 = nonneg_part(
                    spec_requantize(spec_matmul(rows_view(self.fc2_weights@), h1, self.fc2_scale_q16)),
                );
                &&& self.spec_hidden1(input) == h1
                &&& self.spec_hidden2(input) == h2
                &&& self.spec_forward(input) == spec_matmul(rows_view(self.fc3_weights@), h2, self.fc3_scale_q16)
            }),
            forall|i: int| 0 <= i < self.spec_hidden1(input).len() ==> #[trigger] self.spec_hidden1(input)[i] >= 0,
            forall|i: int| 0 <= i < self.spec_hidden2(input).len() ==> #[trigger] self.spec_hidden2(input)[i] >= 0,
    {
        let h1 = nonneg_part(
            spec_requantize(spec_matmul(rows_view(self.fc1_weights@), input, self.fc1_scale_q16)),
        );
        assert(self.spec_hidden1(input) =~= h1);
        let h2 = nonneg_part(
            spec_requantize(spec_matmul(rows_view(self.fc2_weights@), h1, self.fc2_scale_q16)),
        );
        assert(self.spec_hidden2(input) =~= h2);
    }
}


proof fn lemma_max_abs_le(v: Seq<i32>, n: nat, bound: int)
    requires
        n <= v.len(),
        forall|k: int| 0 <= k < n ==> -bound <= #[trigger] v[k] <= bound,
        0 <= bound <= 127,
    ensures
        0 <= max_abs(v, n) <= bound,
        max_abs(v, n) == 0 ==> forall|k: int| 0 <= k < n ==> #[trigger] v[k] == 0,
    decreases n,
{
    if n > 0 {
        lemma_max_abs_le(v, (n - 1) as nat, bound);
    }
}

proof fn lemma_max_abs_ge(v: Seq<i32>, n: nat, k: int)
    requires
        n <= v.len(),
        0 <= k < n,
    ensures
        iabs(v[k]) <= max_abs(v, n),
    decreases n,
{
    if k < n - 1 {
        lemma_max_abs_ge(v, (n - 1) as nat, k);
    }
}

/// Requantisation keeps the length and the sign of every entry other than `i32::MIN`
/// (negative stays negative, zero or positive stays so), and leaves a vector whose entries already fit in
/// `-127 ..= 127` unchanged.
pub proof fn lemma_requantize_laws(v: Seq<i32>)
    ensures
        spec_requantize(v).len() == v.len(),
        forall|i: int|
            0 <= i < v.len() && v[i] != i32::MIN ==> (#[trigger] spec_requantize(v)[i] < 0 <==> v[i] < 0),
        (forall|k: int| 0 <= k < v.len() ==> -127 <= #[trigger] v[k] <= 127) ==> spec_requantize(v) == v.map_values(
            |x: i32| x as i8,
        ),
{
    let m = max_abs(v, v.len());
    let sh = requant_shift(m, 0);
    vstd::arithmetic::power2::lemma_pow2_pos(sh);
    assert forall|i: int| 0 <= i < v.len() && v[i] != i32::MIN implies (#[trigger] spec_requantize(v)[i] < 0 <==> v[i] < 0) by {
        lemma_max_abs_ge(v, v.len(), i);
        if m != 0 {
            let p = pow2(sh) as int;
            if v[i] < 0 {
                assert(v[i] as int / p < 0) by (nonlinear_arith)
                    requires
                        v[i] < 0,
                        p > 0,
                ;
            } else {
                assert(v[i] as int / p >= 0) by (nonlinear_arith)
                    requires
                        v[i] >= 0,
                        p > 0,
                ;
            }
        } else {
            assert(iabs(v[i]) == 0);
        }
    }
    if forall|k: int| 0 <= k < v.len() ==> -127 <= #[trigger] v[k] <= 127 {
        lemma_max_abs_le(v, v.len(), 127);
        assert(sh == 0);
        assert(pow2(0) == 1) by {
            vstd::arithmetic::power2::lemma2_to64();
        }
        assert(spec_requantize(v) =~= v.map_values(|x: i32| x as i8));
    }
}

} // verus!
