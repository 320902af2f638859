//! Storage types of weights and activations.

use vstd::prelude::*;

verus! {

/// Block format of a GGUF weight tensor.
#[derive(Clone, Copy, Debug, PartialEq, Eq, Structural)]
pub enum GgmlDType {
    F32,
    F16,
    BF16,
    Q4_0,
    Q4_1,
    Q5_0,
    Q5_1,
    Q8_0,
    Q8_1,
    Q2K,
    Q3K,
    Q4K,
    Q5K,
    Q6K,
    Q8K,
}

/// Element type of an activation tensor.
#[derive(Clone, Copy, Debug, PartialEq, Eq, Structural)]
pub enum DType {
    U8,
    U32,
    I16,
    I32,
    I64,
    BF16,
    F16,
    F32,
    F64,
    F8E4M3,
}

/// Element types for which the kernels come in a variant of their own.
#[derive(Clone, Copy, Debug, PartialEq, Eq, Structural)]
pub enum FloatKind {
    Bf16,
    F16,
    F32,
}

impl FloatKind {
    /// The tensor element type that this kind stands for.
    pub open spec fn dtype(self) -> DType {
        match self {
            FloatKind::Bf16 => DType::BF16,
            FloatKind::F16 => DType::F16,
            FloatKind::F32 => DType::F32,
        }
    }
}

/// An element type has a kernel variant when some kind stands for it.
pub open spec fn has_float_kind(dtype: DType) -> bool {
    dtype is BF16 || dtype is F16 || dtype is F32
}

/// The kernel variant for an element type, if there is one.
pub fn float_kind(dtype: DType) -> (r: Option<FloatKind>)
    ensures
        r is Some <==> has_float_kind(dtype),
        r is Some ==> r->0.dtype() == dtype,
        r == Some(FloatKind::Bf16) <==> dtype == DType::BF16,
        r == Some(FloatKind::F16) <==> dtype == DType::F16,
        r == Some(FloatKind::F32) <==> dtype == DType::F32,
{
    match dtype {
        DType::BF16 => Some(FloatKind::Bf16),
        DType::F16 => Some(FloatKind::F16),
        DType::F32 => Some(FloatKind::F32),
        _ => None,
    }
}

/// The block formats that the fast kernels read.
pub open spec fn supported(dtype: GgmlDType) -> bool {
    match dtype {
        GgmlDType::Q4_0 | GgmlDType::Q4_1 | GgmlDType::Q5_0 | GgmlDType::Q5_1 | GgmlDType::Q8_0 => {
            true
        },
        GgmlDType::Q2K | GgmlDType::Q3K | GgmlDType::Q4K | GgmlDType::Q5K | GgmlDType::Q6K => true,
        _ => false,
    }
}

/// Whether the fast kernels read weights of this block format.
pub fn supports(dtype: GgmlDType) -> (r: bool)
    ensures
        r == supported(dtype),
        !r <==> dtype is F32 || dtype is F16 || dtype is BF16 || dtype is Q8_1 || dtype is Q8K,
{
    matches!(
        dtype,
        GgmlDType::Q4_0
            | GgmlDType::Q4_1
            | GgmlDType::Q5_0
            | GgmlDType::Q5_1
            | GgmlDType::Q8_0
            | GgmlDType::Q2K
            | GgmlDType::Q3K
            | GgmlDType::Q4K
            | GgmlDType::Q5K
            | GgmlDType::Q6K
    )
}


/// The kinds are the element types of the same name, and no other type has one.
pub proof fn law_kinds_are_named_after_types(kind: FloatKind, dtype: DType)
    ensures
        kind.dtype() == DType::BF16 <==> kind == FloatKind::Bf16,
        kind.dtype() == DType::F16 <==> kind == FloatKind::F16,
        kind.dtype() == DType::F32 <==> kind == FloatKind::F32,
        has_float_kind(dtype) <==> exists|k: FloatKind| #[trigger] k.dtype() == dtype,
{
    if dtype is BF16 {
        assert(FloatKind::Bf16.dtype() == dtype);
    } else if dtype is F16 {
        assert(FloatKind::F16.dtype() == dtype);
    } else if dtype is F32 {
        assert(FloatKind::F32.dtype() == dtype);
    }
}

/// Every block format is supported but for the plain floats and the two formats that only ever hold
/// activations.
pub proof fn law_supported_formats(dtype: GgmlDType)
    ensures
        !supported(dtype) <==> dtype is F32 || dtype is F16 || dtype is BF16 || dtype is Q8_1
            || dtype is Q8K,
{
}

} // verus!
