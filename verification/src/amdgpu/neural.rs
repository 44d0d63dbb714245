//! Neural-network compute: the GPU kernels offered, integer matrix
//! multiplication on the CPU, and the usage counters as reported.
use vstd::prelude::*;
use crate::util::{decimal, push_decimal, push_text, chars_to_string, views, push_line};

verus! {

/// GPU kernels.
#[derive(Clone, Copy, Debug, PartialEq, Eq, Structural)]
pub enum NeuralKernel {
    GemmInt8,
    GemmFp32,
    ReLU,
    Scale,
    Add,
}

pub open spec fn kernel_name(k: NeuralKernel) -> &'static str {
    match k {
        NeuralKernel::GemmInt8 => "gemm_int8",
        NeuralKernel::GemmFp32 => "gemm_fp32",
        NeuralKernel::ReLU => "relu",
        NeuralKernel::Scale => "scale",
        NeuralKernel::Add => "add",
    }
}

pub open spec fn kernel_description(k: NeuralKernel) -> &'static str {
    match k {
        NeuralKernel::GemmInt8 => "INT8 MatMul (V_DOT4_I32_I8, ~17 TOPS)",
        NeuralKernel::GemmFp32 => "FP32 MatMul (V_FMA_F32, ~9.75 TFLOPS)",
        NeuralKernel::ReLU => "ReLU activation max(x, 0)",
        NeuralKernel::Scale => "Scalar multiply (x * alpha)",
        NeuralKernel::Add => "Element-wise add (C = A + B)",
    }
}

/// Machine code of each kernel.
pub open spec fn kernel_code(k: NeuralKernel) -> Seq<u32> {
    match k {
        NeuralKernel::GemmInt8 => seq![0x22020084u32, 0x3A04008F, 0x7E060280, 0x7E0E0280, 0xD3690006, 0x00001D01, 0x4A0C0F06, 0xE0502000, 0x80040600, 0xD3690006, 0x00001D02, 0x4A0C0F06, 0xE0502000, 0x80050600, 0xBF8C0070, 0xCC650003, 0x040D0504, 0x4A0E0884, 0xD4C20000, 0x00001D07, 0xBF85FFF2, 0xD3690006, 0x00001B01, 0x4A0C0506, 0x260C0082, 0xE0702000, 0x80030600, 0xBF8C0070, 0xBF810000],
        NeuralKernel::GemmFp32 => seq![0x22020084u32, 0x3A04008F, 0x7E060280, 0x7E0E0280, 0xD3690006, 0x00001D01, 0x4A0C0F06, 0x260C0082, 0xE0502000, 0x80040600, 0xD3690006, 0x00001B07, 0x4A0C0506, 0x260C0082, 0xE0502000, 0x80050600, 0xBF8C0070, 0xD4260003, 0x040D0504, 0x4A0E0881, 0xD4C20000, 0x00001D07, 0xBF85FFF0, 0xD3690006, 0x00001B01, 0x4A0C0506, 0x260C0082, 0xE0702000, 0x80030600, 0xBF8C0070, 0xBF810000],
        NeuralKernel::ReLU => seq![0x26020082u32, 0xE0502000, 0x80020100, 0xBF8C0070, 0x22040080, 0xE0702000, 0x80020100, 0xBF8C0070, 0xBF810000],
        NeuralKernel::Scale => seq![0x26020082u32, 0xE0502000, 0x80020100, 0xBF8C0070, 0x12040802, 0xE0702000, 0x80020100, 0xBF8C0070, 0xBF810000],
        NeuralKernel::Add => seq![0x26020082u32, 0xE0502000, 0x80020100, 0xE0502000, 0x80030100, 0xBF8C0070, 0x06040702, 0xE0702000, 0x80020100, 0xBF8C0070, 0xBF810000],
    }
}

/// Every kernel, in the order the driver offers them.
pub open spec fn kernel_list() -> Seq<NeuralKernel> {
    seq![NeuralKernel::GemmInt8, NeuralKernel::GemmFp32, NeuralKernel::ReLU, NeuralKernel::Scale, NeuralKernel::Add]
}

/// The kernels the driver offers.
pub fn all_kernels() -> (v: Vec<NeuralKernel>)
    ensures
        v@ == kernel_list(),
{
    let v = vec![NeuralKernel::GemmInt8, NeuralKernel::GemmFp32, NeuralKernel::ReLU, NeuralKernel::Scale, NeuralKernel::Add];
    assert(v@ =~= kernel_list());
    v
}

/// Kernel law: the list names every kernel exactly once, no two kernels
/// share a name, and every shader is more than five words long and ends
/// with `s_endpgm`.
pub proof fn law_kernels(k: NeuralKernel, j: NeuralKernel)
    ensures
        kernel_list().len() == 5,
        kernel_list().contains(k),
        forall|a: int, b: int| 0 <= a < b < 5 ==> kernel_list()[a] != kernel_list()[b],
        k != j ==> kernel_name(k)@ != kernel_name(j)@,
        kernel_code(k).len() > 5,
        kernel_code(k).last() == 0xBF81_0000u32,
{
    reveal_strlit("gemm_int8");
    reveal_strlit("gemm_fp32");
    reveal_strlit("relu");
    reveal_strlit("scale");
    reveal_strlit("add");
    assert("gemm_int8"@[5] != "gemm_fp32"@[5]);
    assert("gemm_int8"@.len() == 9 && "gemm_fp32"@.len() == 9 && "relu"@.len() == 4);
    assert("scale"@.len() == 5 && "add"@.len() == 3);
    let l = kernel_list();
    match k {
        NeuralKernel::GemmInt8 => assert(l[0] == k),
        NeuralKernel::GemmFp32 => assert(l[1] == k),
        NeuralKernel::ReLU => assert(l[2] == k),
        NeuralKernel::Scale => assert(l[3] == k),
        NeuralKernel::Add => assert(l[4] == k),
    }
}

impl NeuralKernel {
    pub fn name(&self) -> (s: &'static str)
        ensures
            s == kernel_name(*self),
    {
        match self {
            NeuralKernel::GemmInt8 => "gemm_int8",
            NeuralKernel::GemmFp32 => "gemm_fp32",
            NeuralKernel::ReLU => "relu",
            NeuralKernel::Scale => "scale",
            NeuralKernel::Add => "add",
        }
    }

    pub fn description(&self) -> (s: &'static str)
        ensures
            s == kernel_description(*self),
    {
        match self {
            NeuralKernel::GemmInt8 => "INT8 MatMul (V_DOT4_I32_I8, ~17 TOPS)",
            NeuralKernel::GemmFp32 => "FP32 MatMul (V_FMA_F32, ~9.75 TFLOPS)",
            NeuralKernel::ReLU => "ReLU activation max(x, 0)",
            NeuralKernel::Scale => "Scalar multiply (x * alpha)",
            NeuralKernel::Add => "Element-wise add (C = A + B)",
        }
    }

    /// The kernel's shader.
    pub fn shader_code(&self) -> (v: Vec<u32>)
        ensures
            v@ == kernel_code(*self),
    {
        let v: Vec<u32> = match self {
            NeuralKernel::GemmInt8 => vec![0x22020084u32, 0x3A04008F, 0x7E060280, 0x7E0E0280, 0xD3690006, 0x00001D01, 0x4A0C0F06, 0xE0502000, 0x80040600, 0xD3690006, 0x00001D02, 0x4A0C0F06, 0xE0502000, 0x80050600, 0xBF8C0070, 0xCC650003, 0x040D0504, 0x4A0E0884, 0xD4C20000, 0x00001D07, 0xBF85FFF2, 0xD3690006, 0x00001B01, 0x4A0C0506, 0x260C0082, 0xE0702000, 0x80030600, 0xBF8C0070, 0xBF810000],
            NeuralKernel::GemmFp32 => vec![0x22020084u32, 0x3A04008F, 0x7E060280, 0x7E0E0280, 0xD3690006, 0x00001D01, 0x4A0C0F06, 0x260C0082, 0xE0502000, 0x80040600, 0xD3690006, 0x00001B07, 0x4A0C0506, 0x260C0082, 0xE0502000, 0x80050600, 0xBF8C0070, 0xD4260003, 0x040D0504, 0x4A0E0881, 0xD4C20000, 0x00001D07, 0xBF85FFF0, 0xD3690006, 0x00001B01, 0x4A0C0506, 0x260C0082, 0xE0702000, 0x80030600, 0xBF8C0070, 0xBF810000],
            NeuralKernel::ReLU => vec![0x26020082u32, 0xE0502000, 0x80020100, 0xBF8C0070, 0x22040080, 0xE0702000, 0x80020100, 0xBF8C0070, 0xBF810000],
            NeuralKernel::Scale => vec![0x26020082u32, 0xE0502000, 0x80020100, 0xBF8C0070, 0x12040802, 0xE0702000, 0x80020100, 0xBF8C0070, 0xBF810000],
            NeuralKernel::Add => vec![0x26020082u32, 0xE0502000, 0x80020100, 0xE0502000, 0x80030100, 0xBF8C0070, 0x06040702, 0xE0702000, 0x80020100, 0xBF8C0070, 0xBF810000],
        };
        assert(v@ =~= kernel_code(*self));
        v
    }

    /// Scalar registers the kernel uses.
    pub fn sgpr_count(&self) -> (n: u32)
        ensures
            n == match *self {
                NeuralKernel::GemmInt8 | NeuralKernel::GemmFp32 => 15u32,
                NeuralKernel::ReLU => 4u32,
                NeuralKernel::Scale => 5u32,
                NeuralKernel::Add => 12u32,
            },
    {
        match self {
            NeuralKernel::GemmInt8 | NeuralKernel::GemmFp32 => 15,
            NeuralKernel::ReLU => 4,
            NeuralKernel::Scale => 5,
            NeuralKernel::Add => 12,
        }
    }

    /// Vector registers the kernel uses.
    pub fn vgpr_count(&self) -> (n: u32)
        ensures
            n == match *self {
                NeuralKernel::GemmInt8 | NeuralKernel::GemmFp32 => 8u32,
                NeuralKernel::ReLU | NeuralKernel::Scale => 3u32,
                NeuralKernel::Add => 4u32,
            },
    {
        match self {
            NeuralKernel::GemmInt8 | NeuralKernel::GemmFp32 => 8,
            NeuralKernel::ReLU | NeuralKernel::Scale => 3,
            NeuralKernel::Add => 4,
        }
    }
}

/// Sum of the first `t` products of row `i` of `a` and row `j` of `b`
/// (both `k` wide: `b` holds the right-hand matrix transposed).
pub open spec fn dot8(a: Seq<i8>, b: Seq<i8>, i: int, j: int, k: int, t: int) -> int
    decreases t,
{
    if t <= 0 {
        0
    } else {
        dot8(a, b, i, j, k, t - 1) + a[i * k + t - 1] as int * b[j * k + t - 1] as int
    }
}

proof fn lemma_row_index(i: int, t: int, rows: int, k: int)
    requires
        0 <= i < rows,
        0 <= t < k,
    ensures
        0 <= i * k + t < rows * k,
{
    assert(0 <= i * k + t < rows * k) by (nonlinear_arith)
        requires
            0 <= i < rows,
            0 <= t < k,
    ;
}

/// Every partial sum of every entry of the product fits in 32 bits.
pub open spec fn sums_fit(a: Seq<i8>, b: Seq<i8>, m: int, n: int, k: int) -> bool {
    forall|i: int, j: int, t: int| 0 <= i < m && 0 <= j < n && 0 <= t <= k ==> i32::MIN <= #[trigger] dot8(a, b, i, j, k, t)
        <= i32::MAX
}

/// One entry of the product.
fn dot_entry(a: &[i8], b: &[i8], i: usize, j: usize, m: usize, n: usize, k: usize) -> (s: i32)
    requires
        i < m,
        j < n,
        a@.len() >= m * k,
        b@.len() >= n * k,
        sums_fit(a@, b@, m as int, n as int, k as int),
    ensures
        s == dot8(a@, b@, i as int, j as int, k as int, k as int),
{
    let alen = a.len();
    let blen = b.len();
    let mut s: i32 = 0;
    let mut t: usize = 0;
    while t < k
        invariant
            alen == a@.len(),
            blen == b@.len(),
            t <= k,
            i < m,
            j < n,
            a@.len() >= m * k,
            b@.len() >= n * k,
            sums_fit(a@, b@, m as int, n as int, k as int),
            s == dot8(a@, b@, i as int, j as int, k as int, t as int),
        decreases k - t,
    {
        proof {
            lemma_row_index(i as int, t as int, m as int, k as int);
            lemma_row_index(j as int, t as int, n as int, k as int);
        }
        let x = a[i * k + t] as i32;
        let y = b[j * k + t] as i32;
        assert(-16384 <= x * y <= 16384) by (nonlinear_arith)
            requires
                -128 <= x <= 127,
                -128 <= y <= 127,
        ;
        assert(dot8(a@, b@, i as int, j as int, k as int, t as int + 1) == s + x * y);
        assert(i32::MIN <= dot8(a@, b@, i as int, j as int, k as int, t as int + 1) <= i32::MAX);
        s = s + x * y;
        t = t + 1;
    }
    s
}

proof fn lemma_cell_order(i2: int, j2: int, i: int, j: int, n: int)
    requires
        0 <= j2 < n,
        0 <= j < n,
        0 <= i2,
        0 <= i,
        i2 < i || (i2 == i && j2 < j),
    ensures
        i2 * n + j2 < i * n + j,
{
    assert(i2 * n + j2 < i * n + j) by (nonlinear_arith)
        requires
            0 <= j2 < n,
            0 <= j < n,
            0 <= i2,
            0 <= i,
            i2 < i || (i2 == i && j2 < j),
    ;
}

/// Integer matrix product on the CPU: `c[i][j]` (an `m` by `n` matrix,
/// row-major) becomes the dot product of row `i` of `a` (`m` by `k`) and
/// row `j` of `b` (`n` by `k`, the right-hand matrix transposed).  Entries
/// of `c` past `m * n` are left as they were.
pub fn kyn(a: &[i8], b: &[i8], c: &mut [i32], m: usize, n: usize, k: usize)
    requires
        a@.len() >= m * k,
        b@.len() >= n * k,
        old(c)@.len() >= m * n,
        sums_fit(a@, b@, m as int, n as int, k as int),
    ensures
        final(c)@.len() == old(c)@.len(),
        forall|i: int, j: int|
            0 <= i < m && 0 <= j < n ==> #[trigger] final(c)@[i * n + j] == dot8(a@, b@, i, j, k as int, k as int),
        forall|p: int| m * n <= p < old(c)@.len() ==> #[trigger] final(c)@[p] == old(c)@[p],
{
    let ghost c0 = c@;
    let clen = c.len();
    let mut i: usize = 0;
    while i < m
        invariant
            i <= m,
            a@.len() >= m * k,
            b@.len() >= n * k,
            c@.len() == c0.len(),
            c0.len() >= m * n,
            clen == c0.len(),
            sums_fit(a@, b@, m as int, n as int, k as int),
            forall|i2: int, j2: int|
                0 <= i2 < i && 0 <= j2 < n ==> #[trigger] c@[i2 * n + j2] == dot8(a@, b@, i2, j2, k as int, k as int),
            forall|p: int| m * n <= p < c0.len() ==> #[trigger] c@[p] == c0[p],
        decreases m - i,
    {
        let mut j: usize = 0;
        while j < n
            invariant
                i < m,
                j <= n,
                a@.len() >= m * k,
                b@.len() >= n * k,
                c@.len() == c0.len(),
                c0.len() >= m * n,
                clen == c0.len(),
                sums_fit(a@, b@, m as int, n as int, k as int),
                forall|i2: int, j2: int|
                    (0 <= i2 < i && 0 <= j2 < n) || (i2 == i && 0 <= j2 < j) ==> #[trigger] c@[i2 * n + j2]
                        == dot8(a@, b@, i2, j2, k as int, k as int),
                forall|p: int| m * n <= p < c0.len() ==> #[trigger] c@[p] == c0[p],
            decreases n - j,
        {
            let v = dot_entry(a, b, i, j, m, n, k);
            proof {
                lemma_row_index(i as int, j as int, m as int, n as int);
            }
            let idx = i * n + j;
            let ghost before = c@;
            c[idx] = v;
            proof {
                assert forall|i2: int, j2: int|
                    (0 <= i2 < i && 0 <= j2 < n) || (i2 == i && 0 <= j2 < j + 1) implies #[trigger] c@[i2 * n + j2]
                        == dot8(a@, b@, i2, j2, k as int, k as int) by {
                    if i2 == i && j2 == j {
                    } else {
                        lemma_cell_order(i2, j2, i as int, j as int, n as int);
                        assert(before[i2 * n + j2] == dot8(a@, b@, i2, j2, k as int, k as int));
                    }
                }
            }
            j = j + 1;
        }
        i = i + 1;
    }
}

/// Usage counters of the neural operations.
pub struct Abs {
    pub gemm_count: u64,
    pub activation_count: u64,
    pub total_macs: u64,
}

/// Integer matrix product into a fresh `m` by `n` matrix; counts one
/// product and its `m * n * k` multiply-accumulates.
pub fn fyh(st: &mut Abs, a: &[i8], b: &[i8], m: usize, n: usize, k: usize) -> (c: Vec<i32>)
    requires
        a@.len() >= m * k,
        b@.len() >= n * k,
        sums_fit(a@, b@, m as int, n as int, k as int),
        m * n <= usize::MAX,
        m * n * k <= usize::MAX,
        old(st).gemm_count < u64::MAX,
        old(st).total_macs + m * n * k <= u64::MAX,
    ensures
        c@.len() == m * n,
        forall|i: int, j: int|
            0 <= i < m && 0 <= j < n ==> #[trigger] c@[i * n + j] == dot8(a@, b@, i, j, k as int, k as int),
        final(st).gemm_count == old(st).gemm_count + 1,
        final(st).total_macs == old(st).total_macs + m * n * k,
        final(st).activation_count == old(st).activation_count,
{
    let mn: usize = m * n;
    let mut c: Vec<i32> = Vec::new();
    let mut p: usize = 0;
    while p < mn
        invariant
            p <= mn,
            mn == m * n,
            c@.len() == p,
        decreases mn - p,
    {
        c.push(0);
        p = p + 1;
    }
    kyn(a, b, c.as_mut_slice(), m, n, k);
    st.gemm_count = st.gemm_count + 1;
    st.total_macs = st.total_macs + (m * n * k) as u64;
    c
}

pub open spec fn summary_spec(st: Abs) -> Seq<char> {
    "Neural: "@ + decimal((st.gemm_count) as nat) + " GEMM, "@ + decimal((st.activation_count) as nat) + " activations, "@ + decimal((st.total_macs) as nat) + " MACs total"@
}

/// One-line usage counters.
pub fn summary(st: &Abs) -> (s: String)
    ensures
        s@ == summary_spec(*st),
{
    let mut out: Vec<char> = Vec::new();
    push_text(&mut out, "Neural: ");
    push_decimal(&mut out, (st.gemm_count) as u64);
    push_text(&mut out, " GEMM, ");
    push_decimal(&mut out, (st.activation_count) as u64);
    push_text(&mut out, " activations, ");
    push_decimal(&mut out, (st.total_macs) as u64);
    push_text(&mut out, " MACs total");
    chars_to_string(out)
}

pub open spec fn bool_text(b: bool) -> &'static str {
    if b { "true" } else { "false" }
}

fn bool_str(b: bool) -> (s: &'static str)
    ensures
        s == bool_text(b),
{
    if b { "true" } else { "false" }
}

pub open spec fn kernel_line(k: NeuralKernel) -> Seq<char> {
    "║  "@ + crate::util::pad_right((kernel_name(k))@, 12nat) + " "@ + (kernel_description(k))@ + " ("@ + decimal((kernel_code(k).len()) as nat) + " insns)            ║"@
}

fn kernel_text(k: NeuralKernel) -> (out: Vec<char>)
    ensures
        out@ == kernel_line(k),
{
    let mut out: Vec<char> = Vec::new();
    push_text(&mut out, "║  ");
    crate::util::push_text_padded(&mut out, k.name(), 12);
    push_text(&mut out, " ");
    push_text(&mut out, k.description());
    push_text(&mut out, " (");
    push_decimal(&mut out, (k.shader_code().len()) as u64);
    push_text(&mut out, " insns)            ║");
    out
}

pub open spec fn info_spec(st: Abs, gpu_ready: bool) -> Seq<Seq<char>> {
    seq!["╔══════════════════════════════════════════════════╗"@, "║  Neural Compute — GEMM + Ops for LLM Inference  ║"@, "╠══════════════════════════════════════════════════╣"@, "║ GEMM ops:       "@ + decimal((st.gemm_count) as nat) + "                              ║"@, "║ Activation ops: "@ + decimal((st.activation_count) as nat) + "                              ║"@, "║ Total MACs:     "@ + decimal((st.total_macs) as nat) + "                          ║"@, "║ GPU ready:      "@ + (bool_text(gpu_ready))@ + "                          ║"@, "╠══════════════════════════════════════════════════╣"@, "║ GPU Kernels:                                     ║"@] + seq![
        kernel_line(NeuralKernel::GemmInt8),
        kernel_line(NeuralKernel::GemmFp32),
        kernel_line(NeuralKernel::ReLU),
        kernel_line(NeuralKernel::Scale),
        kernel_line(NeuralKernel::Add),
    ] + seq!["╠══════════════════════════════════════════════════╣"@, "║ CPU Ops: gemm_int8, gemm_fp32, relu, silu, gelu ║"@, "║          softmax, rmsnorm, quantize, dequantize  ║"@, "║ Transformer: full LLaMA-style layer (CPU)        ║"@, "╚══════════════════════════════════════════════════╝"@]
}

/// Usage counters, whether the GPU compute engine is ready, and the
/// kernels offered, as a framed table.
pub fn info_lines(st: &Abs, gpu_ready: bool) -> (lines: Vec<String>)
    ensures
        views(lines@) == info_spec(*st, gpu_ready),
{
    let mut lines: Vec<String> = Vec::new();
    let mut out: Vec<char> = Vec::new();
    push_text(&mut out, "╔══════════════════════════════════════════════════╗");
    push_line(&mut lines, out);
    let mut out: Vec<char> = Vec::new();
    push_text(&mut out, "║  Neural Compute — GEMM + Ops for LLM Inference  ║");
    push_line(&mut lines, out);
    let mut out: Vec<char> = Vec::new();
    push_text(&mut out, "╠══════════════════════════════════════════════════╣");
    push_line(&mut lines, out);
    let mut out: Vec<char> = Vec::new();
    push_text(&mut out, "║ GEMM ops:       ");
    push_decimal(&mut out, (st.gemm_count) as u64);
    push_text(&mut out, "                              ║");
    push_line(&mut lines, out);
    let mut out: Vec<char> = Vec::new();
    push_text(&mut out, "║ Activation ops: ");
    push_decimal(&mut out, (st.activation_count) as u64);
    push_text(&mut out, "                              ║");
    push_line(&mut lines, out);
    let mut out: Vec<char> = Vec::new();
    push_text(&mut out, "║ Total MACs:     ");
    push_decimal(&mut out, (st.total_macs) as u64);
    push_text(&mut out, "                          ║");
    push_line(&mut lines, out);
    let mut out: Vec<char> = Vec::new();
    push_text(&mut out, "║ GPU ready:      ");
    push_text(&mut out, bool_str(gpu_ready));
    push_text(&mut out, "                          ║");
    push_line(&mut lines, out);
    let mut out: Vec<char> = Vec::new();
    push_text(&mut out, "╠══════════════════════════════════════════════════╣");
    push_line(&mut lines, out);
    let mut out: Vec<char> = Vec::new();
    push_text(&mut out, "║ GPU Kernels:                                     ║");
    push_line(&mut lines, out);
    push_line(&mut lines, kernel_text(NeuralKernel::GemmInt8));
    push_line(&mut lines, kernel_text(NeuralKernel::GemmFp32));
    push_line(&mut lines, kernel_text(NeuralKernel::ReLU));
    push_line(&mut lines, kernel_text(NeuralKernel::Scale));
    push_line(&mut lines, kernel_text(NeuralKernel::Add));
    let mut out: Vec<char> = Vec::new();
    push_text(&mut out, "╠══════════════════════════════════════════════════╣");
    push_line(&mut lines, out);
    let mut out: Vec<char> = Vec::new();
    push_text(&mut out, "║ CPU Ops: gemm_int8, gemm_fp32, relu, silu, gelu ║");
    push_line(&mut lines, out);
    let mut out: Vec<char> = Vec::new();
    push_text(&mut out, "║          softmax, rmsnorm, quantize, dequantize  ║");
    push_line(&mut lines, out);
    let mut out: Vec<char> = Vec::new();
    push_text(&mut out, "║ Transformer: full LLaMA-style layer (CPU)        ║");
    push_line(&mut lines, out);
    let mut out: Vec<char> = Vec::new();
    push_text(&mut out, "╚══════════════════════════════════════════════════╝");
    push_line(&mut lines, out);
    assert(views(lines@) =~= info_spec(*st, gpu_ready));
    lines
}

} // verus!
