//! Kernel launchers, by weight format and output type.

use crate::dtype::{supported, FloatKind, GgmlDType};
use vstd::prelude::*;

verus! {

/// Block formats that the matrix-vector kernels come in.
#[derive(Clone, Copy, Debug, PartialEq, Eq, Structural)]
pub enum QuantKind {
    Q4_0,
    Q4_1,
    Q5_0,
    Q5_1,
    Q8_0,
    Q2K,
    Q3K,
    Q4K,
    Q5K,
    Q6K,
}

impl QuantKind {
    /// The weight format that kernels of this kind read.
    pub open spec fn dtype(self) -> GgmlDType {
        match self {
            QuantKind::Q4_0 => GgmlDType::Q4_0,
            QuantKind::Q4_1 => GgmlDType::Q4_1,
            QuantKind::Q5_0 => GgmlDType::Q5_0,
            QuantKind::Q5_1 => GgmlDType::Q5_1,
            QuantKind::Q8_0 => GgmlDType::Q8_0,
            QuantKind::Q2K => GgmlDType::Q2K,
            QuantKind::Q3K => GgmlDType::Q3K,
            QuantKind::Q4K => GgmlDType::Q4K,
            QuantKind::Q5K => GgmlDType::Q5K,
            QuantKind::Q6K => GgmlDType::Q6K,
        }
    }
}

/// The plain matrix-vector kernel for one weight format and one output type.
#[derive(Clone, Copy, Debug, PartialEq, Eq, Structural)]
pub struct PlainLauncher {
    pub quant: QuantKind,
    pub output: FloatKind,
}

/// The kernels for two Q4_K weights. Each multiplies a row by both and gives the product with the
/// one, times an activation of the product with the other.
#[derive(Clone, Copy, Debug, PartialEq, Eq, Structural)]
pub enum FusedLauncher {
    /// SiLU, F32 output.
    SiluF32,
    /// SiLU, BF16 output.
    SiluBf16,
    /// GELU, F32 output.
    GeluF32,
}

/// Activations that the fused kernels apply.
#[derive(Clone, Copy, Debug, PartialEq, Eq, Structural)]
pub enum GateActivation {
    /// `z / (1 + exp(-z))`.
    Silu,
    /// `0.5 * z * (1 + tanh(sqrt(2 / pi) * (z + 0.044715 * z^3)))`.
    GeluTanh,
}

impl FusedLauncher {
    /// The weight format that the kernel reads.
    pub open spec fn weights(self) -> GgmlDType {
        match self {
            FusedLauncher::SiluF32 | FusedLauncher::SiluBf16 | FusedLauncher::GeluF32 => {
                GgmlDType::Q4K
            },
        }
    }

    /// The activation that the kernel applies.
    pub open spec fn activation(self) -> GateActivation {
        match self {
            FusedLauncher::SiluF32 | FusedLauncher::SiluBf16 => GateActivation::Silu,
            FusedLauncher::GeluF32 => GateActivation::GeluTanh,
        }
    }

    /// The element type that the kernel writes.
    pub open spec fn output(self) -> FloatKind {
        match self {
            FusedLauncher::SiluF32 | FusedLauncher::GeluF32 => FloatKind::F32,
            FusedLauncher::SiluBf16 => FloatKind::Bf16,
        }
    }
}

/// `launcher` is the kernel for weights of format `dtype` that writes `output`; there is none
/// exactly for the formats that are not supported.
pub open spec fn is_plain_launcher(
    launcher: Option<PlainLauncher>,
    dtype: GgmlDType,
    output: FloatKind,
) -> bool {
    match launcher {
        Some(l) => supported(dtype) && l.quant.dtype() == dtype && l.output == output,
        None => !supported(dtype),
    }
}

/// The kernel kind for a weight format.
fn quant_kind(dtype: GgmlDType) -> (r: Option<QuantKind>)
    ensures
        r is Some <==> supported(dtype),
        r is Some ==> r->0.dtype() == dtype,
{
    match dtype {
        GgmlDType::Q4_0 => Some(QuantKind::Q4_0),
        GgmlDType::Q4_1 => Some(QuantKind::Q4_1),
        GgmlDType::Q5_0 => Some(QuantKind::Q5_0),
        GgmlDType::Q5_1 => Some(QuantKind::Q5_1),
        GgmlDType::Q8_0 => Some(QuantKind::Q8_0),
        GgmlDType::Q2K => Some(QuantKind::Q2K),
        GgmlDType::Q3K => Some(QuantKind::Q3K),
        GgmlDType::Q4K => Some(QuantKind::Q4K),
        GgmlDType::Q5K => Some(QuantKind::Q5K),
        GgmlDType::Q6K => Some(QuantKind::Q6K),
        _ => None,
    }
}

/// The kernel that writes BF16 for weights of this format.
pub fn plain_launcher_bf16(dtype: GgmlDType) -> (r: Option<PlainLauncher>)
    ensures
        is_plain_launcher(r, dtype, FloatKind::Bf16),
        dtype == GgmlDType::Q4_0 <==> r == Some(
            PlainLauncher { quant: QuantKind::Q4_0, output: FloatKind::Bf16 },
        ),
        dtype == GgmlDType::Q4_1 <==> r == Some(
            PlainLauncher { quant: QuantKind::Q4_1, output: FloatKind::Bf16 },
        ),
        dtype == GgmlDType::Q5_0 <==> r == Some(
            PlainLauncher { quant: QuantKind::Q5_0, output: FloatKind::Bf16 },
        ),
        dtype == GgmlDType::Q5_1 <==> r == Some(
            PlainLauncher { quant: QuantKind::Q5_1, output: FloatKind::Bf16 },
        ),
        dtype == GgmlDType::Q8_0 <==> r == Some(
            PlainLauncher { quant: QuantKind::Q8_0, output: FloatKind::Bf16 },
        ),
        dtype == GgmlDType::Q2K <==> r == Some(
            PlainLauncher { quant: QuantKind::Q2K, output: FloatKind::Bf16 },
        ),
        dtype == GgmlDType::Q3K <==> r == Some(
            PlainLauncher { quant: QuantKind::Q3K, output: FloatKind::Bf16 },
        ),
        dtype == GgmlDType::Q4K <==> r == Some(
            PlainLauncher { quant: QuantKind::Q4K, output: FloatKind::Bf16 },
        ),
        dtype == GgmlDType::Q5K <==> r == Some(
            PlainLauncher { quant: QuantKind::Q5K, output: FloatKind::Bf16 },
        ),
        dtype == GgmlDType::Q6K <==> r == Some(
            PlainLauncher { quant: QuantKind::Q6K, output: FloatKind::Bf16 },
        ),
{
    match quant_kind(dtype) {
        Some(quant) => Some(PlainLauncher { quant, output: FloatKind::Bf16 }),
        None => None,
    }
}

/// The kernel that writes F16 for weights of this format.
pub fn plain_launcher_f16(dtype: GgmlDType) -> (r: Option<PlainLauncher>)
    ensures
        is_plain_launcher(r, dtype, FloatKind::F16),
        dtype == GgmlDType::Q4_0 <==> r == Some(
            PlainLauncher { quant: QuantKind::Q4_0, output: FloatKind::F16 },
        ),
        dtype == GgmlDType::Q4_1 <==> r == Some(
            PlainLauncher { quant: QuantKind::Q4_1, output: FloatKind::F16 },
        ),
        dtype == GgmlDType::Q5_0 <==> r == Some(
            PlainLauncher { quant: QuantKind::Q5_0, output: FloatKind::F16 },
        ),
        dtype == GgmlDType::Q5_1 <==> r == Some(
            PlainLauncher { quant: QuantKind::Q5_1, output: FloatKind::F16 },
        ),
        dtype == GgmlDType::Q8_0 <==> r == Some(
            PlainLauncher { quant: QuantKind::Q8_0, output: FloatKind::F16 },
        ),
        dtype == GgmlDType::Q2K <==> r == Some(
            PlainLauncher { quant: QuantKind::Q2K, output: FloatKind::F16 },
        ),
        dtype == GgmlDType::Q3K <==> r == Some(
            PlainLauncher { quant: QuantKind::Q3K, output: FloatKind::F16 },
        ),
        dtype == GgmlDType::Q4K <==> r == Some(
            PlainLauncher { quant: QuantKind::Q4K, output: FloatKind::F16 },
        ),
        dtype == GgmlDType::Q5K <==> r == Some(
            PlainLauncher { quant: QuantKind::Q5K, output: FloatKind::F16 },
        ),
        dtype == GgmlDType::Q6K <==> r == Some(
            PlainLauncher { quant: QuantKind::Q6K, output: FloatKind::F16 },
        ),
{
    match quant_kind(dtype) {
        Some(quant) => Some(PlainLauncher { quant, output: FloatKind::F16 }),
        None => None,
    }
}

/// The kernel that writes F32 for weights of this format.
pub fn plain_launcher_f32(dtype: GgmlDType) -> (r: Option<PlainLauncher>)
    ensures
        is_plain_launcher(r, dtype, FloatKind::F32),
        dtype == GgmlDType::Q4_0 <==> r == Some(
            PlainLauncher { quant: QuantKind::Q4_0, output: FloatKind::F32 },
        ),
        dtype == GgmlDType::Q4_1 <==> r == Some(
            PlainLauncher { quant: QuantKind::Q4_1, output: FloatKind::F32 },
        ),
        dtype == GgmlDType::Q5_0 <==> r == Some(
            PlainLauncher { quant: QuantKind::Q5_0, output: FloatKind::F32 },
        ),
        dtype == GgmlDType::Q5_1 <==> r == Some(
            PlainLauncher { quant: QuantKind::Q5_1, output: FloatKind::F32 },
        ),
        dtype == GgmlDType::Q8_0 <==> r == Some(
            PlainLauncher { quant: QuantKind::Q8_0, output: FloatKind::F32 },
        ),
        dtype == GgmlDType::Q2K <==> r == Some(
            PlainLauncher { quant: QuantKind::Q2K, output: FloatKind::F32 },
        ),
        dtype == GgmlDType::Q3K <==> r == Some(
            PlainLauncher { quant: QuantKind::Q3K, output: FloatKind::F32 },
        ),
        dtype == GgmlDType::Q4K <==> r == Some(
            PlainLauncher { quant: QuantKind::Q4K, output: FloatKind::F32 },
        ),
        dtype == GgmlDType::Q5K <==> r == Some(
            PlainLauncher { quant: QuantKind::Q5K, output: FloatKind::F32 },
        ),
        dtype == GgmlDType::Q6K <==> r == Some(
            PlainLauncher { quant: QuantKind::Q6K, output: FloatKind::F32 },
        ),
{
    match quant_kind(dtype) {
        Some(quant) => Some(PlainLauncher { quant, output: FloatKind::F32 }),
        None => None,
    }
}

/// Weight format and output type determine the kernel: two launchers for the same pair are equal,
/// and launchers for different pairs differ.
pub proof fn law_launcher_is_determined(
    l1: PlainLauncher,
    dtype1: GgmlDType,
    output1: FloatKind,
    l2: PlainLauncher,
    dtype2: GgmlDType,
    output2: FloatKind,
)
    requires
        is_plain_launcher(Some(l1), dtype1, output1),
        is_plain_launcher(Some(l2), dtype2, output2),
    ensures
        l1 == l2 <==> dtype1 == dtype2 && output1 == output2,
{
}


/// The kernel for a weight format is the one that reads that very format, and it writes the output
/// type that was asked for.
pub proof fn law_launcher_reads_its_format(l: PlainLauncher, dtype: GgmlDType, output: FloatKind)
    requires
        is_plain_launcher(Some(l), dtype, output),
    ensures
        l.quant is Q4_0 <==> dtype is Q4_0,
        l.quant is Q4_1 <==> dtype is Q4_1,
        l.quant is Q5_0 <==> dtype is Q5_0,
        l.quant is Q5_1 <==> dtype is Q5_1,
        l.quant is Q8_0 <==> dtype is Q8_0,
        l.quant is Q2K <==> dtype is Q2K,
        l.quant is Q3K <==> dtype is Q3K,
        l.quant is Q4K <==> dtype is Q4K,
        l.quant is Q5K <==> dtype is Q5K,
        l.quant is Q6K <==> dtype is Q6K,
        l.output == output,
{
}

/// There is a kernel for every format but for the plain floats and the two formats that only ever
/// hold activations, whatever the output type.
pub proof fn law_which_formats_have_launchers(dtype: GgmlDType, output: FloatKind)
    ensures
        is_plain_launcher(None, dtype, output) <==> dtype is F32 || dtype is F16 || dtype is BF16
            || dtype is Q8_1 || dtype is Q8K,
{
}

/// The fused kernels read Q4_K weights. Two of them apply SiLU and one GELU, and only one writes
/// BF16.
pub proof fn law_fused_launchers(l: FusedLauncher)
    ensures
        l.weights() == GgmlDType::Q4K,
        l.activation() == GateActivation::GeluTanh <==> l == FusedLauncher::GeluF32,
        l.output() == FloatKind::Bf16 <==> l == FusedLauncher::SiluBf16,
        l.output() == FloatKind::F32 <==> l != FusedLauncher::SiluBf16,
{
}

} // verus!
