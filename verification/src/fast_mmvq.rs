//! Fast path for products of a quantized matrix with a few activation rows.
//!
//! A call quantizes the activation rows to Q8_1 in the device's scratch workspace and then runs
//! one matrix-vector kernel over them. The functions here decide whether the fast path applies and
//! work out every argument of the two launches.

use crate::dtype::{float_kind, has_float_kind, supported, supports, DType, FloatKind, GgmlDType};
use crate::launch::{
    is_plain_launcher, plain_launcher_bf16, plain_launcher_f16, plain_launcher_f32, FusedLauncher,
    GateActivation, PlainLauncher,
};
use crate::scratch::{
    law_max_scratch_covers_single_rows, law_padded_is_least_multiple,
    law_padded_row_is_whole_blocks, law_scratch_is_counted_in_steps,
    max_scratch_bytes, pad, padded, row_bytes, scratch_bytes,
    MATRIX_ROW_PADDING, Q8_1_BLOCK_SIZE, Q8_1_TYPE_SIZE,
};
use crate::workspace::{ensured, has_room, workspace_ensure, WorkspaceSlot, Workspaces};
use vstd::prelude::*;

verus! {

/// Most activation rows that the plain kernels take in one call.
pub const MMVQ_MAX_BATCH: usize = 8;

/// Quants in one Q4_K block.
pub const Q4K_BLOCK_QUANTS: usize = 256;

/// Bytes of one Q4_K block.
pub const Q4K_BLOCK_BYTES: usize = 144;

/// What the fast path reads of a quantized weight.
pub struct Weight {
    pub dtype: GgmlDType,
    /// The device that holds it.
    pub device: u64,
    /// Where its storage starts on the device.
    pub address: u64,
}

impl Weight {
    /// The weight from its first row on.
    pub open spec fn spec_start(self) -> WeightPtr {
        WeightPtr { base: self.address, offset: 0 }
    }

    /// The weight from its first row on.
    fn start(&self) -> (r: WeightPtr)
        ensures
            r == self.spec_start(),
    {
        WeightPtr { base: self.address, offset: 0 }
    }
}

/// A place in a weight's storage: where the storage starts, and the bytes from there.
#[derive(Clone, Copy, Debug, PartialEq, Eq, Structural)]
pub struct WeightPtr {
    pub base: u64,
    pub offset: usize,
}

/// What the fast path reads of an activation tensor.
pub struct Activation {
    pub dtype: DType,
    pub dims: Vec<usize>,
    /// First and one-past-last element in the storage, if the elements lie there contiguously.
    pub offsets: Option<(usize, usize)>,
}

impl Activation {
    /// The storage range, where there is one, holds one element for each index into the tensor.
    pub open spec fn wf(self) -> bool {
        self.offsets matches Some((start, end)) ==> end - start == elem_count(self.dims@)
    }
}

/// Number of elements of a tensor with these dimensions.
pub open spec fn elem_count(dims: Seq<usize>) -> int
    decreases dims.len(),
{
    if dims.len() == 0 {
        1
    } else {
        elem_count(dims.drop_last()) * dims.last()
    }
}

/// A tensor does not have the number of dimensions that an operation needs.
#[derive(Clone, Copy, Debug, PartialEq, Eq, Structural)]
pub struct ShapeError {
    pub expected: usize,
    pub got: usize,
}

/// Launch of the kernel that quantizes activation rows to Q8_1.
#[derive(Clone, Copy, Debug, PartialEq, Eq, Structural)]
pub struct QuantizeLaunch {
    pub input: FloatKind,
    pub kx: i32,
    pub kx_padded: i32,
    pub num_rows: i32,
}

/// Launch of a plain matrix-vector kernel.
#[derive(Clone, Copy, Debug, PartialEq, Eq, Structural)]
pub struct PlainLaunch {
    pub launcher: PlainLauncher,
    /// The weight that the rows are multiplied by.
    pub vx: WeightPtr,
    pub ncols_x: i32,
    pub nrows_x: i32,
    pub stride_col_y: i32,
    pub stride_col_dst: i32,
    pub b_size: i32,
}

/// Launch of a kernel that multiplies by two weights at once, for a single activation row. The
/// result is the product with `vx`, times the kernel's activation of the product with `vgate`.
#[derive(Clone, Copy, Debug, PartialEq, Eq, Structural)]
pub struct FusedLaunch {
    pub launcher: FusedLauncher,
    /// The weight whose product is taken as it is.
    pub vx: WeightPtr,
    /// The weight whose product goes through the activation.
    pub vgate: WeightPtr,
    pub ncols_x: i32,
    pub nrows_x: i32,
    pub stride_col_y: i32,
    pub stride_col_dst: i32,
}

/// Where a call reads and writes: the activation range in its storage, the scratch bytes that
/// the quantized rows take, and the output buffer.
pub struct Buffers {
    pub device: u64,
    pub input_start: usize,
    pub input_end: usize,
    pub scratch_bytes: usize,
    pub out_elems: usize,
    pub out_shape: Vec<usize>,
}

/// One call of the plain fast path.
pub struct FwdPlan {
    pub buffers: Buffers,
    pub quantize: QuantizeLaunch,
    pub launch: PlainLaunch,
}

/// One call of a fused fast path.
pub struct FusedPlan {
    pub buffers: Buffers,
    pub quantize: QuantizeLaunch,
    pub launch: FusedLaunch,
}

/// Number of activation rows: all dimensions but the last, together.
pub open spec fn batch_rows(dims: Seq<usize>) -> int {
    if dims.len() == 3 {
        dims[0] * dims[1]
    } else {
        dims[0] as int
    }
}

/// The activation is a contiguous batch of rows of `ncols` elements.
pub open spec fn input_matches(a: Activation, ncols: usize) -> bool {
    &&& a.dims@.len() == 2 || a.dims@.len() == 3
    &&& a.dims@.last() == ncols
    &&& a.offsets is Some
}

/// The sizes of a call with `b_size` rows of `k` elements and `nrows` results for each row are
/// within what a `usize` holds.
pub open spec fn sizes_fit(nrows: usize, b_size: int, k: usize) -> bool {
    &&& scratch_bytes(b_size as nat, k as nat) <= usize::MAX
    &&& nrows * b_size <= usize::MAX
}

/// The buffers of a call on `device` with the rows of `a` and `nrows` results for each row.
pub open spec fn are_buffers(b: Buffers, device: u64, a: Activation, nrows: usize) -> bool {
    &&& b.device == device
    &&& a.offsets == Some((b.input_start, b.input_end))
    &&& b.scratch_bytes == scratch_bytes(batch_rows(a.dims@) as nat, a.dims@.last() as nat)
    &&& b.out_elems == nrows * batch_rows(a.dims@)
    &&& b.out_shape@ == a.dims@.drop_last().push(nrows)
}

/// Stride between quantized rows, in Q8_1 blocks.
pub open spec fn blocks_per_row(k: nat) -> nat {
    padded(k, MATRIX_ROW_PADDING as nat) / (Q8_1_BLOCK_SIZE as nat)
}

/// The launch that quantizes `b_size` rows of `k` elements.
pub open spec fn quantize_launch(input: FloatKind, b_size: nat, k: nat) -> QuantizeLaunch {
    QuantizeLaunch {
        input,
        kx: k as i32,
        kx_padded: padded(k, MATRIX_ROW_PADDING as nat) as i32,
        num_rows: b_size as i32,
    }
}

/// The input part of a call: how many rows there are and where they lie.
struct Input {
    b_size: usize,
    start: usize,
    end: usize,
}

/// Reads the batch of an activation, if it is one of rows of `ncols` elements.
fn read_input(a: &Activation, ncols: usize) -> (r: Option<Input>)
    ensures
        r is Some <==> input_matches(*a, ncols) && batch_rows(a.dims@) <= usize::MAX,
        r matches Some(input) ==> {
            &&& input.b_size == batch_rows(a.dims@)
            &&& a.offsets == Some((input.start, input.end))
        },
{
    let rank: usize = a.dims.len();
    let b_size: usize = if rank == 3 {
        match a.dims[0].checked_mul(a.dims[1]) {
            Some(rows) => rows,
            None => {
                return None;
            },
        }
    } else if rank == 2 {
        a.dims[0]
    } else {
        return None;
    };
    if a.dims[rank - 1] != ncols {
        return None;
    }
    match a.offsets {
        Some((start, end)) => Some(Input { b_size, start, end }),
        None => None,
    }
}

/// The padded row length, the blocks in it, and the scratch bytes of `b_size` such rows.
fn scratch_layout(b_size: usize, k: usize) -> (r: (usize, usize, usize))
    requires
        b_size > 0,
        scratch_bytes(b_size as nat, k as nat) <= usize::MAX,
    ensures
        r.0 == padded(k as nat, MATRIX_ROW_PADDING as nat),
        r.1 == blocks_per_row(k as nat),
        r.2 == scratch_bytes(b_size as nat, k as nat),
{
    proof {
        law_padded_row_is_whole_blocks(k as nat);
        assert(row_bytes(k as nat) <= b_size * row_bytes(k as nat)) by (nonlinear_arith)
            requires
                b_size > 0,
        ;
    }
    let k_padded: usize = pad(k, MATRIX_ROW_PADDING);
    let num_blocks_per_row: usize = k_padded / Q8_1_BLOCK_SIZE;
    let dst_row_bytes: usize = num_blocks_per_row * Q8_1_TYPE_SIZE;
    (k_padded, num_blocks_per_row, b_size * dst_row_bytes)
}

/// The dimensions of the result: those of the activation, with `nrows` for the last.
fn out_dims(dims: &Vec<usize>, nrows: usize) -> (r: Vec<usize>)
    requires
        dims@.len() > 0,
    ensures
        r@ == dims@.drop_last().push(nrows),
{
    let mut out: Vec<usize> = dims.clone();
    out.pop();
    out.push(nrows);
    out
}

/// The weight is a matrix, and the activation a contiguous batch of one to `max_rows` rows as long
/// as the matrix's.
pub open spec fn is_row_batch(shape: Seq<usize>, a: Activation, max_rows: int) -> bool {
    &&& shape.len() == 2
    &&& input_matches(a, shape[1])
    &&& 0 < batch_rows(a.dims@) <= max_rows
}

/// The error for a weight that should be a matrix and is not.
pub open spec fn rank_error(shape: Seq<usize>) -> ShapeError {
    ShapeError { expected: 2, got: shape.len() as usize }
}

/// The types for which there are plain kernels: a supported weight and a float activation.
pub open spec fn plain_types(w: Weight, a: Activation) -> bool {
    supported(w.dtype) && has_float_kind(a.dtype)
}

/// The types that the plain fast path is taken for: those of `plain_types` without F16.
pub open spec fn fwd_types(w: Weight, a: Activation) -> bool {
    supported(w.dtype) && (a.dtype is BF16 || a.dtype is F32)
}

/// The types of the fused kernels with two weights: Q4_K weights on one device, and an F32 or BF16
/// activation.
pub open spec fn fused_types(up: Weight, gate: Weight, a: Activation) -> bool {
    &&& up.dtype is Q4K && gate.dtype is Q4K
    &&& a.dtype is F32 || a.dtype is BF16
    &&& up.device == gate.device
}

/// The types of the fused kernel with both weights in one matrix: a Q4_K weight and an F32
/// activation.
pub open spec fn concat_types(w: Weight, a: Activation) -> bool {
    w.dtype is Q4K && a.dtype is F32
}

/// A call with both weights in one matrix applies: the matrix has an even number of rows, and there
/// is one activation row.
pub open spec fn is_concat_call(shape: Seq<usize>, a: Activation) -> bool {
    is_row_batch(shape, a, 1) && shape[0] % 2 == 0
}

/// `p` is the plan of a plain call.
pub open spec fn is_fwd_plan(p: FwdPlan, w: Weight, shape: Seq<usize>, a: Activation) -> bool {
    let b_size = batch_rows(a.dims@);
    let k = shape[1];
    &&& are_buffers(p.buffers, w.device, a, shape[0])
    &&& p.quantize.input.dtype() == a.dtype
    &&& p.quantize == quantize_launch(p.quantize.input, b_size as nat, k as nat)
    &&& is_plain_launcher(Some(p.launch.launcher), w.dtype, p.quantize.input)
    &&& p.launch == PlainLaunch {
        launcher: p.launch.launcher,
        vx: w.spec_start(),
        ncols_x: k as i32,
        nrows_x: shape[0] as i32,
        stride_col_y: blocks_per_row(k as nat) as i32,
        stride_col_dst: shape[0] as i32,
        b_size: b_size as i32,
    }
}

/// `p` is the plan of a fused call on `device` that gives `nrows` results: the product with the
/// weight at `up`, times the activation of the product with the weight at `gate`.
pub open spec fn is_fused_plan(
    p: FusedPlan,
    device: u64,
    nrows: usize,
    a: Activation,
    launcher: FusedLauncher,
    up: WeightPtr,
    gate: WeightPtr,
) -> bool {
    let k = a.dims@.last();
    &&& are_buffers(p.buffers, device, a, nrows)
    &&& p.quantize.input.dtype() == a.dtype
    &&& p.quantize == quantize_launch(p.quantize.input, 1, k as nat)
    &&& p.launch == FusedLaunch {
        launcher,
        vx: up,
        vgate: gate,
        ncols_x: k as i32,
        nrows_x: nrows as i32,
        stride_col_y: blocks_per_row(k as nat) as i32,
        stride_col_dst: nrows as i32,
    }
}

/// The SiLU kernel that writes what it reads: BF16 for a BF16 activation, F32 otherwise.
pub open spec fn silu_launcher(a: Activation) -> FusedLauncher {
    if a.dtype is BF16 {
        FusedLauncher::SiluBf16
    } else {
        FusedLauncher::SiluF32
    }
}

/// Bytes of `nrows` rows of `ncols` Q4_K quants.
pub open spec fn q4k_bytes(nrows: int, ncols: usize) -> int {
    nrows * (ncols / Q4K_BLOCK_QUANTS * Q4K_BLOCK_BYTES)
}

/// The second half of a concatenated weight: the `up` rows, after as many `gate` rows.
pub open spec fn up_half(w: Weight, shape: Seq<usize>) -> WeightPtr {
    WeightPtr { base: w.address, offset: q4k_bytes(shape[0] as int / 2, shape[1]) as usize }
}

/// `r` is the answer to a request for a call: a plan that meets `planned` where the types are right
/// and the call applies, a shape error where only the types are right and the weight is no matrix,
/// `None` for every other request.
pub open spec fn is_answer<P>(
    r: Result<Option<P>, ShapeError>,
    types: bool,
    shape: Seq<usize>,
    applies: bool,
    planned: spec_fn(P) -> bool,
) -> bool {
    match r {
        Ok(Some(p)) => types && applies && planned(p),
        Ok(None) => !(types && shape.len() != 2) && !(types && applies),
        Err(e) => types && shape.len() != 2 && e == rank_error(shape),
    }
}

/// Plans a plain call for activations of any float type. `Ok(None)` where the kernels do not take
/// the call. The shape is looked at only for types that there are kernels for; it is an error then
/// if the weight is not a matrix.
pub fn plan_fwd(w: &Weight, self_shape: &Vec<usize>, rhs: &Activation) -> (r: Result<
    Option<FwdPlan>,
    ShapeError,
>)
    requires
        plain_types(*w, *rhs) && is_row_batch(self_shape@, *rhs, MMVQ_MAX_BATCH as int)
            ==> sizes_fit(self_shape@[0], batch_rows(rhs.dims@), self_shape@[1]),
    ensures
        is_answer(
            r,
            plain_types(*w, *rhs),
            self_shape@,
            is_row_batch(self_shape@, *rhs, MMVQ_MAX_BATCH as int),
            |p: FwdPlan| is_fwd_plan(p, *w, self_shape@, *rhs),
        ),
        r matches Ok(Some(p)) ==> is_fwd_plan(p, *w, self_shape@, *rhs),
        (r matches Ok(Some(_))) <==> {
            &&& !(w.dtype is F32 || w.dtype is F16 || w.dtype is BF16 || w.dtype is Q8_1
                || w.dtype is Q8K)
            &&& rhs.dtype is BF16 || rhs.dtype is F16 || rhs.dtype is F32
            &&& self_shape@.len() == 2 && rhs.offsets is Some
            &&& rhs.dims@.last() == self_shape@[1]
            &&& rhs.dims@.len() == 2 && 1 <= rhs.dims@[0] <= 8 || rhs.dims@.len() == 3 && 1
                <= rhs.dims@[0] * rhs.dims@[1] <= 8
        },
        r is Err <==> {
            &&& !(w.dtype is F32 || w.dtype is F16 || w.dtype is BF16 || w.dtype is Q8_1
                || w.dtype is Q8K)
            &&& rhs.dtype is BF16 || rhs.dtype is F16 || rhs.dtype is F32
            &&& self_shape@.len() != 2
        },
        r matches Err(e) ==> e.expected == 2 && e.got == self_shape@.len(),
{
    if !supports(w.dtype) {
        return Ok(None);
    }
    let kind = match float_kind(rhs.dtype) {
        Some(kind) => kind,
        None => {
            return Ok(None);
        },
    };
    if self_shape.len() != 2 {
        return Err(ShapeError { expected: 2, got: self_shape.len() });
    }
    let nrows: usize = self_shape[0];
    let k: usize = self_shape[1];
    let input = match read_input(rhs, k) {
        Some(input) => input,
        None => {
            return Ok(None);
        },
    };
    if input.b_size == 0 || input.b_size > MMVQ_MAX_BATCH {
        return Ok(None);
    }
    let (k_padded, num_blocks_per_row, scratch) = scratch_layout(input.b_size, k);
    let launcher = match kind {
        FloatKind::Bf16 => plain_launcher_bf16(w.dtype),
        FloatKind::F16 => plain_launcher_f16(w.dtype),
        FloatKind::F32 => plain_launcher_f32(w.dtype),
    };
    let plan = FwdPlan {
        buffers: Buffers {
            device: w.device,
            input_start: input.start,
            input_end: input.end,
            scratch_bytes: scratch,
            out_elems: nrows * input.b_size,
            out_shape: out_dims(&rhs.dims, nrows),
        },
        quantize: QuantizeLaunch {
            input: kind,
            kx: k as i32,
            kx_padded: k_padded as i32,
            num_rows: input.b_size as i32,
        },
        launch: PlainLaunch {
            launcher: launcher.unwrap(),
            vx: w.start(),
            ncols_x: k as i32,
            nrows_x: nrows as i32,
            stride_col_y: num_blocks_per_row as i32,
            stride_col_dst: nrows as i32,
            b_size: input.b_size as i32,
        },
    };
    Ok(Some(plan))
}

/// The plan of a fused call of one activation row, if the activation is one row of `k` elements.
fn fused_call(
    device: u64,
    nrows: usize,
    k: usize,
    rhs: &Activation,
    kind: FloatKind,
    launcher: FusedLauncher,
    up: WeightPtr,
    gate: WeightPtr,
) -> (r: Option<FusedPlan>)
    requires
        kind.dtype() == rhs.dtype,
        input_matches(*rhs, k) && batch_rows(rhs.dims@) == 1 ==> sizes_fit(nrows, 1, k),
    ensures
        r is Some <==> input_matches(*rhs, k) && batch_rows(rhs.dims@) == 1,
        r matches Some(p) ==> is_fused_plan(p, device, nrows, *rhs, launcher, up, gate),
{
    let input = match read_input(rhs, k) {
        Some(input) => input,
        None => {
            return None;
        },
    };
    if input.b_size != 1 {
        return None;
    }
    let (k_padded, num_blocks_per_row, scratch) = scratch_layout(input.b_size, k);
    Some(
        FusedPlan {
            buffers: Buffers {
                device,
                input_start: input.start,
                input_end: input.end,
                scratch_bytes: scratch,
                out_elems: nrows * input.b_size,
                out_shape: out_dims(&rhs.dims, nrows),
            },
            quantize: QuantizeLaunch {
                input: kind,
                kx: k as i32,
                kx_padded: k_padded as i32,
                num_rows: input.b_size as i32,
            },
            launch: FusedLaunch {
                launcher,
                vx: up,
                vgate: gate,
                ncols_x: k as i32,
                nrows_x: nrows as i32,
                stride_col_y: num_blocks_per_row as i32,
                stride_col_dst: nrows as i32,
            },
        },
    )
}

/// Plans a call that computes `(up x) * silu(gate x)` for one activation row.
pub fn plan_fused_silu(
    up: &Weight,
    gate: &Weight,
    self_shape: &Vec<usize>,
    rhs: &Activation,
) -> (r: Result<Option<FusedPlan>, ShapeError>)
    requires
        fused_types(*up, *gate, *rhs) && is_row_batch(self_shape@, *rhs, 1) ==> sizes_fit(
            self_shape@[0],
            1,
            self_shape@[1],
        ),
    ensures
        is_answer(
            r,
            fused_types(*up, *gate, *rhs),
            self_shape@,
            is_row_batch(self_shape@, *rhs, 1),
            |p: FusedPlan|
                is_fused_plan(
                    p,
                    up.device,
                    self_shape@[0],
                    *rhs,
                    silu_launcher(*rhs),
                    up.spec_start(),
                    gate.spec_start(),
                ),
        ),
        r matches Ok(Some(p)) ==> {
            &&& is_fused_plan(
                p,
                up.device,
                self_shape@[0],
                *rhs,
                p.launch.launcher,
                p.launch.vx,
                p.launch.vgate,
            )
            &&& p.launch.vx == WeightPtr { base: up.address, offset: 0 }
            &&& p.launch.vgate == WeightPtr { base: gate.address, offset: 0 }
            &&& up.dtype == GgmlDType::Q4K && gate.dtype == GgmlDType::Q4K
            &&& up.dtype == p.launch.launcher.weights() && gate.dtype
                == p.launch.launcher.weights()
            &&& p.launch.launcher == FusedLauncher::SiluBf16 <==> rhs.dtype == DType::BF16
            &&& p.launch.launcher == FusedLauncher::SiluF32 <==> rhs.dtype == DType::F32
        },
        (r matches Ok(Some(_))) <==> {
            &&& up.dtype is Q4K && gate.dtype is Q4K && up.device == gate.device
            &&& rhs.dtype is F32 || rhs.dtype is BF16
            &&& self_shape@.len() == 2 && rhs.offsets is Some
            &&& rhs.dims@.last() == self_shape@[1]
            &&& rhs.dims@.len() == 2 && rhs.dims@[0] == 1 || rhs.dims@.len() == 3 && rhs.dims@[0]
                * rhs.dims@[1] == 1
        },
        r is Err <==> {
            &&& up.dtype is Q4K && gate.dtype is Q4K && up.device == gate.device
            &&& rhs.dtype is F32 || rhs.dtype is BF16
            &&& self_shape@.len() != 2
        },
        r matches Err(e) ==> e.expected == 2 && e.got == self_shape@.len(),
{
    if up.dtype != GgmlDType::Q4K || gate.dtype != GgmlDType::Q4K {
        return Ok(None);
    }
    let (kind, launcher) = match rhs.dtype {
        DType::F32 => (FloatKind::F32, FusedLauncher::SiluF32),
        DType::BF16 => (FloatKind::Bf16, FusedLauncher::SiluBf16),
        _ => {
            return Ok(None);
        },
    };
    if up.device != gate.device {
        return Ok(None);
    }
    if self_shape.len() != 2 {
        return Err(ShapeError { expected: 2, got: self_shape.len() });
    }
    Ok(
        fused_call(
            up.device,
            self_shape[0],
            self_shape[1],
            rhs,
            kind,
            launcher,
            up.start(),
            gate.start(),
        ),
    )
}

/// Plans a call that computes `(up x) * gelu(gate x)` for one activation row. The result is F32
/// for either activation type.
pub fn plan_fused_gelu(
    up: &Weight,
    gate: &Weight,
    self_shape: &Vec<usize>,
    rhs: &Activation,
) -> (r: Result<Option<FusedPlan>, ShapeError>)
    requires
        fused_types(*up, *gate, *rhs) && is_row_batch(self_shape@, *rhs, 1) ==> sizes_fit(
            self_shape@[0],
            1,
            self_shape@[1],
        ),
    ensures
        is_answer(
            r,
            fused_types(*up, *gate, *rhs),
            self_shape@,
            is_row_batch(self_shape@, *rhs, 1),
            |p: FusedPlan|
                is_fused_plan(
                    p,
                    up.device,
                    self_shape@[0],
                    *rhs,
                    FusedLauncher::GeluF32,
                    up.spec_start(),
                    gate.spec_start(),
                ),
        ),
        r matches Ok(Some(p)) ==> {
            &&& is_fused_plan(
                p,
                up.device,
                self_shape@[0],
                *rhs,
                p.launch.launcher,
                p.launch.vx,
                p.launch.vgate,
            )
            &&& p.launch.vx == WeightPtr { base: up.address, offset: 0 }
            &&& p.launch.vgate == WeightPtr { base: gate.address, offset: 0 }
            &&& up.dtype == GgmlDType::Q4K && gate.dtype == GgmlDType::Q4K
            &&& up.dtype == p.launch.launcher.weights() && gate.dtype
                == p.launch.launcher.weights()
            &&& p.launch.launcher == FusedLauncher::GeluF32
        },
        (r matches Ok(Some(_))) <==> {
            &&& up.dtype is Q4K && gate.dtype is Q4K && up.device == gate.device
            &&& rhs.dtype is F32 || rhs.dtype is BF16
            &&& self_shape@.len() == 2 && rhs.offsets is Some
            &&& rhs.dims@.last() == self_shape@[1]
            &&& rhs.dims@.len() == 2 && rhs.dims@[0] == 1 || rhs.dims@.len() == 3 && rhs.dims@[0]
                * rhs.dims@[1] == 1
        },
        r is Err <==> {
            &&& up.dtype is Q4K && gate.dtype is Q4K && up.device == gate.device
            &&& rhs.dtype is F32 || rhs.dtype is BF16
            &&& self_shape@.len() != 2
        },
        r matches Err(e) ==> e.expected == 2 && e.got == self_shape@.len(),
{
    if up.dtype != GgmlDType::Q4K || gate.dtype != GgmlDType::Q4K {
        return Ok(None);
    }
    let kind = match rhs.dtype {
        DType::F32 => FloatKind::F32,
        DType::BF16 => FloatKind::Bf16,
        _ => {
            return Ok(None);
        },
    };
    if up.device != gate.device {
        return Ok(None);
    }
    if self_shape.len() != 2 {
        return Err(ShapeError { expected: 2, got: self_shape.len() });
    }
    Ok(
        fused_call(
            up.device,
            self_shape[0],
            self_shape[1],
            rhs,
            kind,
            FusedLauncher::GeluF32,
            up.start(),
            gate.start(),
        ),
    )
}

/// Plans a call that computes `(up x) * silu(gate x)` for one activation row, with both weights in
/// one matrix: the first half of its rows is `gate`, the second half `up`.
pub fn plan_fused_silu_concat(
    w: &Weight,
    self_shape: &Vec<usize>,
    rhs: &Activation,
) -> (r: Result<Option<FusedPlan>, ShapeError>)
    requires
        concat_types(*w, *rhs) && is_concat_call(self_shape@, *rhs) ==> {
            &&& sizes_fit(self_shape@[0] / 2, 1, self_shape@[1])
            &&& q4k_bytes(self_shape@[0] as int / 2, self_shape@[1]) <= usize::MAX
        },
    ensures
        is_answer(
            r,
            concat_types(*w, *rhs),
            self_shape@,
            is_concat_call(self_shape@, *rhs),
            |p: FusedPlan|
                is_fused_plan(
                    p,
                    w.device,
                    self_shape@[0] / 2,
                    *rhs,
                    FusedLauncher::SiluF32,
                    up_half(*w, self_shape@),
                    w.spec_start(),
                ),
        ),
        r matches Ok(Some(p)) ==> {
            &&& is_fused_plan(
                p,
                w.device,
                self_shape@[0] / 2,
                *rhs,
                p.launch.launcher,
                p.launch.vx,
                p.launch.vgate,
            )
            &&& p.launch.launcher == FusedLauncher::SiluF32
            &&& p.launch.vgate == WeightPtr { base: w.address, offset: 0 }
            &&& p.launch.vx.base == w.address
            &&& p.launch.vx.offset == (self_shape@[0] as int / 2) * (self_shape@[1] / 256 * 144)
            &&& w.dtype == p.launch.launcher.weights()
        },
        (r matches Ok(Some(_))) <==> {
            &&& w.dtype is Q4K && rhs.dtype is F32
            &&& self_shape@.len() == 2 && rhs.offsets is Some
            &&& rhs.dims@.last() == self_shape@[1]
            &&& rhs.dims@.len() == 2 && rhs.dims@[0] == 1 || rhs.dims@.len() == 3 && rhs.dims@[0]
                * rhs.dims@[1] == 1
            &&& self_shape@[0] % 2 == 0
        },
        r is Err <==> {
            &&& w.dtype is Q4K && rhs.dtype is F32
            &&& self_shape@.len() != 2
        },
        r matches Err(e) ==> e.expected == 2 && e.got == self_shape@.len(),
{
    if w.dtype != GgmlDType::Q4K {
        return Ok(None);
    }
    if rhs.dtype != DType::F32 {
        return Ok(None);
    }
    if self_shape.len() != 2 {
        return Err(ShapeError { expected: 2, got: self_shape.len() });
    }
    let two_n_rows: usize = self_shape[0];
    let ncols: usize = self_shape[1];
    if two_n_rows % 2 != 0 {
        return Ok(None);
    }
    let n_rows: usize = two_n_rows / 2;
    let plan = fused_call(
        w.device,
        n_rows,
        ncols,
        rhs,
        FloatKind::F32,
        FusedLauncher::SiluF32,
        w.start(),
        w.start(),
    );
    match plan {
        Some(plan) => {
            let row_bytes: usize = ncols / Q4K_BLOCK_QUANTS * Q4K_BLOCK_BYTES;
            let up = WeightPtr { base: w.address, offset: n_rows * row_bytes };
            Ok(Some(FusedPlan { launch: FusedLaunch { vx: up, ..plan.launch }, ..plan }))
        },
        None => Ok(None),
    }
}

/// Whether the sizes of a call are within what a `usize` holds.
fn fits(nrows: usize, b_size: usize, k: usize) -> (r: bool)
    requires
        b_size > 0,
    ensures
        r == sizes_fit(nrows, b_size as int, k),
{
    let steps: usize = k / MATRIX_ROW_PADDING + if k % MATRIX_ROW_PADDING == 0 {
        0
    } else {
        1
    };
    let step_bytes: usize = MATRIX_ROW_PADDING / Q8_1_BLOCK_SIZE * Q8_1_TYPE_SIZE;
    assert(steps * step_bytes == row_bytes(k as nat)) by {
        let rounded = (k + MATRIX_ROW_PADDING - 1) as nat / MATRIX_ROW_PADDING as nat;
        assert(steps == rounded);
        assert(padded(k as nat, MATRIX_ROW_PADDING as nat) == rounded * 512);
        assert(step_bytes == 576);
    }
    let dst_row_bytes: usize = match steps.checked_mul(step_bytes) {
        Some(bytes) => bytes,
        None => {
            assert(row_bytes(k as nat) <= b_size * row_bytes(k as nat)) by (nonlinear_arith)
                requires
                    b_size > 0,
            ;
            return false;
        },
    };
    b_size.checked_mul(dst_row_bytes).is_some() && nrows.checked_mul(b_size).is_some()
}

/// Whether `plan_fwd` and `try_fwd` can be called: either there are no kernels for the call, or its
/// sizes fit.
pub fn fwd_fits(w: &Weight, self_shape: &Vec<usize>, rhs: &Activation) -> (r: bool)
    ensures
        r == (plain_types(*w, *rhs) && is_row_batch(self_shape@, *rhs, MMVQ_MAX_BATCH as int)
            ==> sizes_fit(self_shape@[0], batch_rows(rhs.dims@), self_shape@[1])),
        r <==> ({
            &&& !(w.dtype is F32 || w.dtype is F16 || w.dtype is BF16 || w.dtype is Q8_1
                || w.dtype is Q8K)
            &&& rhs.dtype is BF16 || rhs.dtype is F16 || rhs.dtype is F32
            &&& self_shape@.len() == 2 && rhs.offsets is Some
            &&& rhs.dims@.last() == self_shape@[1]
            &&& rhs.dims@.len() == 2 && 1 <= rhs.dims@[0] <= 8 || rhs.dims@.len() == 3 && 1
                <= rhs.dims@[0] * rhs.dims@[1] <= 8
        } ==> {
            let rows = if rhs.dims@.len() == 3 {
                rhs.dims@[0] * rhs.dims@[1]
            } else {
                rhs.dims@[0] as int
            };
            &&& rows * ((self_shape@[1] + 511) / 512 * 576) <= usize::MAX
            &&& self_shape@[0] * rows <= usize::MAX
        }),
{
    proof {
        law_scratch_is_counted_in_steps(batch_rows(rhs.dims@) as nat, rhs.dims@.last() as nat);
    }
    let types = supports(w.dtype) && float_kind(rhs.dtype).is_some();
    if !types || self_shape.len() != 2 {
        return true;
    }
    match read_input(rhs, self_shape[1]) {
        Some(input) => {
            input.b_size == 0 || input.b_size > MMVQ_MAX_BATCH || fits(
                self_shape[0],
                input.b_size,
                self_shape[1],
            )
        },
        None => true,
    }
}

/// Whether `try_fused_silu` and `try_fused_gelu` can be called: either they do not apply, or the
/// sizes of the call fit.
pub fn fused_fits(up: &Weight, gate: &Weight, self_shape: &Vec<usize>, rhs: &Activation) -> (r: bool)
    ensures
        r == (fused_types(*up, *gate, *rhs) && is_row_batch(self_shape@, *rhs, 1) ==> sizes_fit(
            self_shape@[0],
            1,
            self_shape@[1],
        )),
        r <==> ({
            &&& up.dtype is Q4K && gate.dtype is Q4K && up.device == gate.device
            &&& rhs.dtype is F32 || rhs.dtype is BF16
            &&& self_shape@.len() == 2 && rhs.offsets is Some
            &&& rhs.dims@.last() == self_shape@[1]
            &&& rhs.dims@.len() == 2 && rhs.dims@[0] == 1 || rhs.dims@.len() == 3 && rhs.dims@[0]
                * rhs.dims@[1] == 1
        } ==> {
            let rows = if rhs.dims@.len() == 3 {
                rhs.dims@[0] * rhs.dims@[1]
            } else {
                rhs.dims@[0] as int
            };
            &&& rows * ((self_shape@[1] + 511) / 512 * 576) <= usize::MAX
            &&& self_shape@[0] * rows <= usize::MAX
        }),
{
    proof {
        law_scratch_is_counted_in_steps(batch_rows(rhs.dims@) as nat, rhs.dims@.last() as nat);
    }
    let types = up.dtype == GgmlDType::Q4K && gate.dtype == GgmlDType::Q4K && (rhs.dtype
        == DType::F32 || rhs.dtype == DType::BF16) && up.device == gate.device;
    if !types || self_shape.len() != 2 {
        return true;
    }
    match read_input(rhs, self_shape[1]) {
        Some(input) => input.b_size != 1 || fits(self_shape[0], 1, self_shape[1]),
        None => true,
    }
}

/// Whether `try_fused_silu_concat` can be called: either it does not apply, or the sizes of the
/// call and of half the weight fit.
pub fn concat_fits(w: &Weight, self_shape: &Vec<usize>, rhs: &Activation) -> (r: bool)
    ensures
        r == (concat_types(*w, *rhs) && is_concat_call(self_shape@, *rhs) ==> {
            &&& sizes_fit(self_shape@[0] / 2, 1, self_shape@[1])
            &&& q4k_bytes(self_shape@[0] as int / 2, self_shape@[1]) <= usize::MAX
        }),
        r <==> ({
            &&& w.dtype is Q4K && rhs.dtype is F32
            &&& self_shape@.len() == 2 && rhs.offsets is Some
            &&& rhs.dims@.last() == self_shape@[1]
            &&& rhs.dims@.len() == 2 && rhs.dims@[0] == 1 || rhs.dims@.len() == 3 && rhs.dims@[0]
                * rhs.dims@[1] == 1
            &&& self_shape@[0] % 2 == 0
        } ==> {
            let rows = if rhs.dims@.len() == 3 {
                rhs.dims@[0] * rhs.dims@[1]
            } else {
                rhs.dims@[0] as int
            };
            &&& rows * ((self_shape@[1] + 511) / 512 * 576) <= usize::MAX
            &&& (self_shape@[0] as int / 2) * rows <= usize::MAX
            &&& (self_shape@[0] as int / 2) * (self_shape@[1] / 256 * 144) <= usize::MAX
        }),
{
    proof {
        law_scratch_is_counted_in_steps(batch_rows(rhs.dims@) as nat, rhs.dims@.last() as nat);
    }
    if w.dtype != GgmlDType::Q4K || rhs.dtype != DType::F32 || self_shape.len() != 2
        || self_shape[0] % 2 != 0 {
        return true;
    }
    let n_rows: usize = self_shape[0] / 2;
    let row_bytes: usize = self_shape[1] / Q4K_BLOCK_QUANTS * Q4K_BLOCK_BYTES;
    match read_input(rhs, self_shape[1]) {
        Some(input) => {
            input.b_size != 1 || (fits(n_rows, 1, self_shape[1]) && n_rows.checked_mul(
                row_bytes,
            ).is_some())
        },
        None => true,
    }
}

/// Why a call could not be set up.
pub enum FwdError<E> {
    Shape(ShapeError),
    /// The workspace could not be grown.
    Alloc(E),
}

/// The scratch bytes of a call with the rows of `a`.
pub open spec fn call_bytes(a: Activation) -> usize {
    scratch_bytes(batch_rows(a.dims@) as nat, a.dims@.last() as nat) as usize
}

/// `alloc` may be called with `bytes`, if that is called for.
pub open spec fn can_grow<S, E, A: FnOnce(usize) -> Result<S, E>>(
    m: Map<u64, WorkspaceSlot<S>>,
    device: u64,
    bytes: usize,
    alloc: A,
) -> bool {
    !has_room(m, device, bytes as nat) ==> call_requires(alloc, (bytes,))
}

/// `r` is how setting up a call ended, and `after` the workspaces then. Where the types are right
/// and the call applies, the workspace of `device` was asked for `bytes` bytes; the call is set up,
/// with a plan that meets `planned`, unless growing the workspace failed. Any other request leaves
/// the workspaces alone and ends as `is_answer` says.
pub open spec fn is_outcome<P, S, E, A: FnOnce(usize) -> Result<S, E>>(
    r: Result<Option<P>, FwdError<E>>,
    types: bool,
    shape: Seq<usize>,
    applies: bool,
    planned: spec_fn(P) -> bool,
    before: Map<u64, WorkspaceSlot<S>>,
    after: Map<u64, WorkspaceSlot<S>>,
    device: u64,
    bytes: usize,
    alloc: A,
) -> bool {
    match r {
        Ok(Some(p)) => {
            &&& types && applies && planned(p)
            &&& ensured(before, after, device, bytes, alloc, None)
        },
        Ok(None) => {
            &&& !(types && shape.len() != 2) && !(types && applies)
            &&& after == before
        },
        Err(FwdError::Shape(e)) => {
            &&& types && shape.len() != 2 && e == rank_error(shape)
            &&& after == before
        },
        Err(FwdError::Alloc(e)) => {
            &&& types && applies
            &&& ensured(before, after, device, bytes, alloc, Some(e))
        },
    }
}

/// Grows the workspace of the call's device to the call's scratch bytes.
fn ensure_scratch<S, E, A: FnOnce(usize) -> Result<S, E>>(
    ws: &mut Workspaces<S>,
    buffers: &Buffers,
    alloc: A,
) -> (r: Result<(), E>)
    requires
        can_grow(old(ws)@, buffers.device, buffers.scratch_bytes, alloc),
    ensures
        ensured(old(ws)@, final(ws)@, buffers.device, buffers.scratch_bytes, alloc, r.err()),
{
    match workspace_ensure(ws, buffers.device, buffers.scratch_bytes, alloc) {
        Ok(_) => Ok(()),
        Err(e) => Err(e),
    }
}

/// Sets up a plain call: plans it and grows the device's workspace to its scratch bytes.
/// `Ok(None)` where the fast path does not apply, among others for
/// - weights in a format that the kernels do not read,
/// - more rows than the kernels take,
/// - activations other than BF16 and F32.
pub fn try_fwd<S, E, A: FnOnce(usize) -> Result<S, E>>(
    ws: &mut Workspaces<S>,
    w: &Weight,
    self_shape: &Vec<usize>,
    rhs: &Activation,
    alloc: A,
) -> (r: Result<Option<FwdPlan>, FwdError<E>>)
    requires
        fwd_types(*w, *rhs) && is_row_batch(self_shape@, *rhs, MMVQ_MAX_BATCH as int) ==> {
            &&& sizes_fit(self_shape@[0], batch_rows(rhs.dims@), self_shape@[1])
            &&& can_grow(old(ws)@, w.device, call_bytes(*rhs), alloc)
        },
    ensures
        is_outcome(
            r,
            fwd_types(*w, *rhs),
            self_shape@,
            is_row_batch(self_shape@, *rhs, MMVQ_MAX_BATCH as int),
            |p: FwdPlan| is_fwd_plan(p, *w, self_shape@, *rhs),
            old(ws)@,
            final(ws)@,
            w.device,
            call_bytes(*rhs),
            alloc,
        ),
        r matches Ok(Some(p)) ==> is_fwd_plan(p, *w, self_shape@, *rhs),
        (r matches Ok(Some(_))) || (r matches Err(FwdError::Alloc(_))) <==> {
            &&& !(w.dtype is F32 || w.dtype is F16 || w.dtype is BF16 || w.dtype is Q8_1
                || w.dtype is Q8K)
            &&& rhs.dtype is BF16 || rhs.dtype is F32
            &&& self_shape@.len() == 2 && rhs.offsets is Some
            &&& rhs.dims@.last() == self_shape@[1]
            &&& rhs.dims@.len() == 2 && 1 <= rhs.dims@[0] <= 8 || rhs.dims@.len() == 3 && 1
                <= rhs.dims@[0] * rhs.dims@[1] <= 8
        },
        (r matches Err(FwdError::Shape(_))) <==> {
            &&& !(w.dtype is F32 || w.dtype is F16 || w.dtype is BF16 || w.dtype is Q8_1
                || w.dtype is Q8K)
            &&& rhs.dtype is BF16 || rhs.dtype is F32
            &&& self_shape@.len() != 2
        },
        r matches Err(FwdError::Shape(e)) ==> e.expected == 2 && e.got == self_shape@.len(),
        r matches Ok(Some(p)) ==> {
            let bytes = p.buffers.scratch_bytes;
            let kept = old(ws)@.contains_key(w.device) && old(ws)@[w.device].cap >= bytes;
            &&& final(ws)@.contains_key(w.device)
            &&& final(ws)@[w.device].cap >= bytes
            &&& kept ==> final(ws)@ == old(ws)@
            &&& !kept ==> {
                &&& final(ws)@[w.device].cap == bytes
                &&& call_ensures(alloc, (bytes,), Ok(final(ws)@[w.device].slice))
                &&& final(ws)@ == old(ws)@.insert(w.device, final(ws)@[w.device])
            }
        },
        (r matches Ok(Some(_))) || final(ws)@ == old(ws)@,
        r matches Err(FwdError::Alloc(e)) ==> {
            let rows = if rhs.dims@.len() == 3 {
                rhs.dims@[0] * rhs.dims@[1]
            } else {
                rhs.dims@[0] as int
            };
            let bytes = (rows * ((self_shape@[1] + 511) / 512 * 576)) as usize;
            &&& call_ensures(alloc, (bytes,), Err(e))
            &&& !(old(ws)@.contains_key(w.device) && old(ws)@[w.device].cap >= bytes)
        },
{
    proof {
        law_scratch_is_counted_in_steps(batch_rows(rhs.dims@) as nat, rhs.dims@.last() as nat);
    }
    if rhs.dtype == DType::F16 {
        return Ok(None);
    }
    match plan_fwd(w, self_shape, rhs) {
        Ok(Some(plan)) => match ensure_scratch(ws, &plan.buffers, alloc) {
            Ok(()) => Ok(Some(plan)),
            Err(e) => Err(FwdError::Alloc(e)),
        },
        Ok(None) => Ok(None),
        Err(e) => Err(FwdError::Shape(e)),
    }
}

/// Sets up a call that computes `(up x) * silu(gate x)` in one launch, for one activation row and
/// separate Q4_K weights. The result has the type of the activation. `Ok(None)` where the fused
/// kernel does not take the call.
pub fn try_fused_silu<S, E, A: FnOnce(usize) -> Result<S, E>>(
    ws: &mut Workspaces<S>,
    up: &Weight,
    gate: &Weight,
    self_shape: &Vec<usize>,
    rhs: &Activation,
    alloc: A,
) -> (r: Result<Option<FusedPlan>, FwdError<E>>)
    requires
        fused_types(*up, *gate, *rhs) && is_row_batch(self_shape@, *rhs, 1) ==> {
            &&& sizes_fit(self_shape@[0], 1, self_shape@[1])
            &&& can_grow(old(ws)@, up.device, call_bytes(*rhs), alloc)
        },
    ensures
        is_outcome(
            r,
            fused_types(*up, *gate, *rhs),
            self_shape@,
            is_row_batch(self_shape@, *rhs, 1),
            |p: FusedPlan|
                is_fused_plan(
                    p,
                    up.device,
                    self_shape@[0],
                    *rhs,
                    silu_launcher(*rhs),
                    up.spec_start(),
                    gate.spec_start(),
                ),
            old(ws)@,
            final(ws)@,
            up.device,
            call_bytes(*rhs),
            alloc,
        ),
        r matches Ok(Some(p)) ==> {
            &&& is_fused_plan(
                p,
                up.device,
                self_shape@[0],
                *rhs,
                p.launch.launcher,
                p.launch.vx,
                p.launch.vgate,
            )
            &&& p.launch.vx == WeightPtr { base: up.address, offset: 0 }
            &&& p.launch.vgate == WeightPtr { base: gate.address, offset: 0 }
            &&& up.dtype == GgmlDType::Q4K && gate.dtype == GgmlDType::Q4K
            &&& up.dtype == p.launch.launcher.weights() && gate.dtype
                == p.launch.launcher.weights()
            &&& p.launch.launcher == FusedLauncher::SiluBf16 <==> rhs.dtype == DType::BF16
            &&& p.launch.launcher == FusedLauncher::SiluF32 <==> rhs.dtype == DType::F32
        },
        (r matches Ok(Some(_))) || (r matches Err(FwdError::Alloc(_))) <==> {
            &&& up.dtype is Q4K && gate.dtype is Q4K && up.device == gate.device
            &&& rhs.dtype is F32 || rhs.dtype is BF16
            &&& self_shape@.len() == 2 && rhs.offsets is Some
            &&& rhs.dims@.last() == self_shape@[1]
            &&& rhs.dims@.len() == 2 && rhs.dims@[0] == 1 || rhs.dims@.len() == 3 && rhs.dims@[0]
                * rhs.dims@[1] == 1
        },
        (r matches Err(FwdError::Shape(_))) <==> {
            &&& up.dtype is Q4K && gate.dtype is Q4K && up.device == gate.device
            &&& rhs.dtype is F32 || rhs.dtype is BF16
            &&& self_shape@.len() != 2
        },
        r matches Err(FwdError::Shape(e)) ==> e.expected == 2 && e.got == self_shape@.len(),
        r matches Ok(Some(p)) ==> {
            let bytes = p.buffers.scratch_bytes;
            let kept = old(ws)@.contains_key(up.device) && old(ws)@[up.device].cap >= bytes;
            &&& final(ws)@.contains_key(up.device)
            &&& final(ws)@[up.device].cap >= bytes
            &&& kept ==> final(ws)@ == old(ws)@
            &&& !kept ==> {
                &&& final(ws)@[up.device].cap == bytes
                &&& call_ensures(alloc, (bytes,), Ok(final(ws)@[up.device].slice))
                &&& final(ws)@ == old(ws)@.insert(up.device, final(ws)@[up.device])
            }
        },
        (r matches Ok(Some(_))) || final(ws)@ == old(ws)@,
        r matches Err(FwdError::Alloc(e)) ==> {
            let rows = if rhs.dims@.len() == 3 {
                rhs.dims@[0] * rhs.dims@[1]
            } else {
                rhs.dims@[0] as int
            };
            let bytes = (rows * ((self_shape@[1] + 511) / 512 * 576)) as usize;
            &&& call_ensures(alloc, (bytes,), Err(e))
            &&& !(old(ws)@.contains_key(up.device) && old(ws)@[up.device].cap >= bytes)
        },
{
    proof {
        law_scratch_is_counted_in_steps(batch_rows(rhs.dims@) as nat, rhs.dims@.last() as nat);
    }
    match plan_fused_silu(up, gate, self_shape, rhs) {
        Ok(Some(plan)) => match ensure_scratch(ws, &plan.buffers, alloc) {
            Ok(()) => Ok(Some(plan)),
            Err(e) => Err(FwdError::Alloc(e)),
        },
        Ok(None) => Ok(None),
        Err(e) => Err(FwdError::Shape(e)),
    }
}

/// Like `try_fused_silu`, with GELU in place of SiLU. The result is F32 for either activation type.
pub fn try_fused_gelu<S, E, A: FnOnce(usize) -> Result<S, E>>(
    ws: &mut Workspaces<S>,
    up: &Weight,
    gate: &Weight,
    self_shape: &Vec<usize>,
    rhs: &Activation,
    alloc: A,
) -> (r: Result<Option<FusedPlan>, FwdError<E>>)
    requires
        fused_types(*up, *gate, *rhs) && is_row_batch(self_shape@, *rhs, 1) ==> {
            &&& sizes_fit(self_shape@[0], 1, self_shape@[1])
            &&& can_grow(old(ws)@, up.device, call_bytes(*rhs), alloc)
        },
    ensures
        is_outcome(
            r,
            fused_types(*up, *gate, *rhs),
            self_shape@,
            is_row_batch(self_shape@, *rhs, 1),
            |p: FusedPlan|
                is_fused_plan(
                    p,
                    up.device,
                    self_shape@[0],
                    *rhs,
                    FusedLauncher::GeluF32,
                    up.spec_start(),
                    gate.spec_start(),
                ),
            old(ws)@,
            final(ws)@,
            up.device,
            call_bytes(*rhs),
            alloc,
        ),
        r matches Ok(Some(p)) ==> {
            &&& is_fused_plan(
                p,
                up.device,
                self_shape@[0],
                *rhs,
                p.launch.launcher,
                p.launch.vx,
                p.launch.vgate,
            )
            &&& p.launch.vx == WeightPtr { base: up.address, offset: 0 }
            &&& p.launch.vgate == WeightPtr { base: gate.address, offset: 0 }
            &&& up.dtype == GgmlDType::Q4K && gate.dtype == GgmlDType::Q4K
            &&& up.dtype == p.launch.launcher.weights() && gate.dtype
                == p.launch.launcher.weights()
            &&& p.launch.launcher == FusedLauncher::GeluF32
        },
        (r matches Ok(Some(_))) || (r matches Err(FwdError::Alloc(_))) <==> {
            &&& up.dtype is Q4K && gate.dtype is Q4K && up.device == gate.device
            &&& rhs.dtype is F32 || rhs.dtype is BF16
            &&& self_shape@.len() == 2 && rhs.offsets is Some
            &&& rhs.dims@.last() == self_shape@[1]
            &&& rhs.dims@.len() == 2 && rhs.dims@[0] == 1 || rhs.dims@.len() == 3 && rhs.dims@[0]
                * rhs.dims@[1] == 1
        },
        (r matches Err(FwdError::Shape(_))) <==> {
            &&& up.dtype is Q4K && gate.dtype is Q4K && up.device == gate.device
            &&& rhs.dtype is F32 || rhs.dtype is BF16
            &&& self_shape@.len() != 2
        },
        r matches Err(FwdError::Shape(e)) ==> e.expected == 2 && e.got == self_shape@.len(),
        r matches Ok(Some(p)) ==> {
            let bytes = p.buffers.scratch_bytes;
            let kept = old(ws)@.contains_key(up.device) && old(ws)@[up.device].cap >= bytes;
            &&& final(ws)@.contains_key(up.device)
            &&& final(ws)@[up.device].cap >= bytes
            &&& kept ==> final(ws)@ == old(ws)@
            &&& !kept ==> {
                &&& final(ws)@[up.device].cap == bytes
                &&& call_ensures(alloc, (bytes,), Ok(final(ws)@[up.device].slice))
                &&& final(ws)@ == old(ws)@.insert(up.device, final(ws)@[up.device])
            }
        },
        (r matches Ok(Some(_))) || final(ws)@ == old(ws)@,
        r matches Err(FwdError::Alloc(e)) ==> {
            let rows = if rhs.dims@.len() == 3 {
                rhs.dims@[0] * rhs.dims@[1]
            } else {
                rhs.dims@[0] as int
            };
            let bytes = (rows * ((self_shape@[1] + 511) / 512 * 576)) as usize;
            &&& call_ensures(alloc, (bytes,), Err(e))
            &&& !(old(ws)@.contains_key(up.device) && old(ws)@[up.device].cap >= bytes)
        },
{
    proof {
        law_scratch_is_counted_in_steps(batch_rows(rhs.dims@) as nat, rhs.dims@.last() as nat);
    }
    match plan_fused_gelu(up, gate, self_shape, rhs) {
        Ok(Some(plan)) => match ensure_scratch(ws, &plan.buffers, alloc) {
            Ok(()) => Ok(Some(plan)),
            Err(e) => Err(FwdError::Alloc(e)),
        },
        Ok(None) => Ok(None),
        Err(e) => Err(FwdError::Shape(e)),
    }
}

/// Like `try_fused_silu`, with both weights in one matrix of `2 * n` rows: the first `n` rows are
/// `gate`, the others `up`. The result has `n` elements.
pub fn try_fused_silu_concat<S, E, A: FnOnce(usize) -> Result<S, E>>(
    ws: &mut Workspaces<S>,
    w: &Weight,
    self_shape: &Vec<usize>,
    rhs: &Activation,
    alloc: A,
) -> (r: Result<Option<FusedPlan>, FwdError<E>>)
    requires
        concat_types(*w, *rhs) && is_concat_call(self_shape@, *rhs) ==> {
            &&& sizes_fit(self_shape@[0] / 2, 1, self_shape@[1])
            &&& q4k_bytes(self_shape@[0] as int / 2, self_shape@[1]) <= usize::MAX
            &&& can_grow(old(ws)@, w.device, call_bytes(*rhs), alloc)
        },
    ensures
        is_outcome(
            r,
            concat_types(*w, *rhs),
            self_shape@,
            is_concat_call(self_shape@, *rhs),
            |p: FusedPlan| is_fused_plan(
                p,
                w.device,
                self_shape@[0] / 2,
                *rhs,
                FusedLauncher::SiluF32,
                up_half(*w, self_shape@),
                w.spec_start(),
            ),
            old(ws)@,
            final(ws)@,
            w.device,
            call_bytes(*rhs),
            alloc,
        ),
        r matches Ok(Some(p)) ==> {
            &&& is_fused_plan(
                p,
                w.device,
                self_shape@[0] / 2,
                *rhs,
                p.launch.launcher,
                p.launch.vx,
                p.launch.vgate,
            )
            &&& p.launch.launcher == FusedLauncher::SiluF32
            &&& p.launch.vgate == WeightPtr { base: w.address, offset: 0 }
            &&& p.launch.vx.base == w.address
            &&& p.launch.vx.offset == (self_shape@[0] as int / 2) * (self_shape@[1] / 256 * 144)
            &&& w.dtype == p.launch.launcher.weights()
        },
        (r matches Ok(Some(_))) || (r matches Err(FwdError::Alloc(_))) <==> {
            &&& w.dtype is Q4K && rhs.dtype is F32
            &&& self_shape@.len() == 2 && rhs.offsets is Some
            &&& rhs.dims@.last() == self_shape@[1]
            &&& rhs.dims@.len() == 2 && rhs.dims@[0] == 1 || rhs.dims@.len() == 3 && rhs.dims@[0]
                * rhs.dims@[1] == 1
            &&& self_shape@[0] % 2 == 0
        },
        (r matches Err(FwdError::Shape(_))) <==> {
            &&& w.dtype is Q4K && rhs.dtype is F32
            &&& self_shape@.len() != 2
        },
        r matches Err(FwdError::Shape(e)) ==> e.expected == 2 && e.got == self_shape@.len(),
        r matches Ok(Some(p)) ==> {
            let bytes = p.buffers.scratch_bytes;
            let kept = old(ws)@.contains_key(w.device) && old(ws)@[w.device].cap >= bytes;
            &&& final(ws)@.contains_key(w.device)
            &&& final(ws)@[w.device].cap >= bytes
            &&& kept ==> final(ws)@ == old(ws)@
            &&& !kept ==> {
                &&& final(ws)@[w.device].cap == bytes
                &&& call_ensures(alloc, (bytes,), Ok(final(ws)@[w.device].slice))
                &&& final(ws)@ == old(ws)@.insert(w.device, final(ws)@[w.device])
            }
        },
        (r matches Ok(Some(_))) || final(ws)@ == old(ws)@,
        r matches Err(FwdError::Alloc(e)) ==> {
            let rows = if rhs.dims@.len() == 3 {
                rhs.dims@[0] * rhs.dims@[1]
            } else {
                rhs.dims@[0] as int
            };
            let bytes = (rows * ((self_shape@[1] + 511) / 512 * 576)) as usize;
            &&& call_ensures(alloc, (bytes,), Err(e))
            &&& !(old(ws)@.contains_key(w.device) && old(ws)@[w.device].cap >= bytes)
        },
{
    proof {
        law_scratch_is_counted_in_steps(batch_rows(rhs.dims@) as nat, rhs.dims@.last() as nat);
    }
    match plan_fused_silu_concat(w, self_shape, rhs) {
        Ok(Some(plan)) => match ensure_scratch(ws, &plan.buffers, alloc) {
            Ok(()) => Ok(Some(plan)),
            Err(e) => Err(FwdError::Alloc(e)),
        },
        Ok(None) => Ok(None),
        Err(e) => Err(FwdError::Shape(e)),
    }
}

/// The rows of a batch, in elements: all dimensions but the last, together.
proof fn lemma_batch_elems(dims: Seq<usize>)
    requires
        dims.len() == 2 || dims.len() == 3,
    ensures
        elem_count(dims.drop_last()) == batch_rows(dims),
        elem_count(dims) == batch_rows(dims) * dims.last(),
{
    reveal_with_fuel(elem_count, 4);
    let front = dims.drop_last();
    assert(front.last() == dims[dims.len() - 2]);
    if dims.len() == 3 {
        assert(front.drop_last().last() == dims[0]);
        assert(front.drop_last().drop_last().len() == 0);
    } else {
        assert(front.drop_last().len() == 0);
    }
}

/// The output buffer of a call has exactly one element for each index into the result.
pub proof fn law_output_buffer_matches_shape(b: Buffers, device: u64, a: Activation, nrows: usize)
    requires
        input_matches(a, a.dims@.last()),
        are_buffers(b, device, a, nrows),
    ensures
        elem_count(b.out_shape@) == b.out_elems,
        b.out_shape@.len() == a.dims@.len(),
{
    lemma_batch_elems(a.dims@);
    assert(b.out_shape@.drop_last() =~= a.dims@.drop_last());
    assert(b.out_shape@.last() == nrows);
    assert(batch_rows(a.dims@) * nrows == nrows * batch_rows(a.dims@)) by (nonlinear_arith);
}

/// The storage range that a call reads is exactly its rows, each of `ncols` elements.
pub proof fn law_input_range_is_the_rows(
    b: Buffers,
    device: u64,
    a: Activation,
    nrows: usize,
    ncols: usize,
)
    requires
        a.wf(),
        input_matches(a, ncols),
        are_buffers(b, device, a, nrows),
    ensures
        b.input_end - b.input_start == batch_rows(a.dims@) * ncols,
{
    lemma_batch_elems(a.dims@);
}

/// The scratch bytes of a call hold all its quantized rows, one after the other at the stride that
/// the matrix-vector kernel steps by.
pub proof fn law_scratch_holds_the_rows(b: Buffers, device: u64, a: Activation, nrows: usize)
    requires
        input_matches(a, a.dims@.last()),
        are_buffers(b, device, a, nrows),
    ensures
        b.scratch_bytes == batch_rows(a.dims@) * (blocks_per_row(a.dims@.last() as nat)
            * Q8_1_TYPE_SIZE),
        blocks_per_row(a.dims@.last() as nat) * Q8_1_BLOCK_SIZE >= a.dims@.last(),
{
    let k = a.dims@.last() as nat;
    law_padded_row_is_whole_blocks(k);
    law_padded_is_least_multiple(k, MATRIX_ROW_PADDING as nat, k);
    assert(batch_rows(a.dims@) >= 0) by (nonlinear_arith)
        requires
            batch_rows(a.dims@) == a.dims@[0] * a.dims@[1] || batch_rows(a.dims@) == a.dims@[0],
    ;
}

/// The launch arguments are the sizes themselves as long as these are within what the kernels'
/// 32-bit arguments hold.
pub proof fn law_launch_arguments_are_exact(
    p: FwdPlan,
    w: Weight,
    shape: Seq<usize>,
    a: Activation,
)
    requires
        is_row_batch(shape, a, MMVQ_MAX_BATCH as int),
        is_fwd_plan(p, w, shape, a),
        padded(shape[1] as nat, MATRIX_ROW_PADDING as nat) <= i32::MAX,
        shape[0] <= i32::MAX,
    ensures
        p.quantize.kx == shape[1] && p.launch.ncols_x == shape[1],
        p.quantize.kx_padded == padded(shape[1] as nat, MATRIX_ROW_PADDING as nat),
        p.quantize.num_rows == batch_rows(a.dims@) && p.launch.b_size == batch_rows(a.dims@),
        p.launch.nrows_x == shape[0] && p.launch.stride_col_dst == shape[0],
        p.launch.stride_col_y == blocks_per_row(shape[1] as nat),
{
    law_padded_is_least_multiple(shape[1] as nat, MATRIX_ROW_PADDING as nat, shape[1] as nat);
}

/// The launch arguments of a fused call, likewise, are the sizes themselves as long as these are
/// within what the kernels' 32-bit arguments hold.
pub proof fn law_fused_launch_arguments_are_exact(
    p: FusedPlan,
    device: u64,
    nrows: usize,
    a: Activation,
    launcher: FusedLauncher,
    up: WeightPtr,
    gate: WeightPtr,
)
    requires
        is_fused_plan(p, device, nrows, a, launcher, up, gate),
        padded(a.dims@.last() as nat, MATRIX_ROW_PADDING as nat) <= i32::MAX,
        nrows <= i32::MAX,
    ensures
        p.quantize.kx == a.dims@.last() && p.launch.ncols_x == a.dims@.last(),
        p.quantize.kx_padded == padded(a.dims@.last() as nat, MATRIX_ROW_PADDING as nat),
        p.quantize.num_rows == 1,
        p.launch.nrows_x == nrows && p.launch.stride_col_dst == nrows,
        p.launch.stride_col_y == blocks_per_row(a.dims@.last() as nat),
{
    let k = a.dims@.last() as nat;
    law_padded_is_least_multiple(k, MATRIX_ROW_PADDING as nat, k);
}

/// Once a call is set up, its device has a workspace that holds the call's scratch bytes.
pub proof fn law_set_up_call_has_scratch<S, E, A: FnOnce(usize) -> Result<S, E>>(
    before: Map<u64, WorkspaceSlot<S>>,
    after: Map<u64, WorkspaceSlot<S>>,
    device: u64,
    bytes: usize,
    alloc: A,
)
    requires
        ensured(before, after, device, bytes, alloc, None::<E>),
    ensures
        has_room(after, device, bytes as nat),
{
}

/// After a device's workspace was grown to what is set aside for rows of `max_k` elements, calls on
/// it with a single row of at most `max_k` elements never allocate, fail to or move the buffer.
pub proof fn law_pregrown_workspace_serves_single_rows<S, E, A: FnOnce(usize) -> Result<S, E>>(
    before: Map<u64, WorkspaceSlot<S>>,
    after: Map<u64, WorkspaceSlot<S>>,
    device: u64,
    max_k: nat,
    a: Activation,
    alloc: A,
    failed: Option<E>,
)
    requires
        has_room(before, device, max_scratch_bytes(max_k)),
        input_matches(a, a.dims@.last()),
        batch_rows(a.dims@) == 1,
        a.dims@.last() <= max_k,
        ensured(before, after, device, call_bytes(a), alloc, failed),
    ensures
        after == before,
        failed is None,
{
    law_max_scratch_covers_single_rows(a.dims@.last() as nat, max_k);
}

/// The two halves of a concatenated weight are of one size, and together they are the whole.
pub proof fn law_concat_halves_are_equal(shape: Seq<usize>, a: Activation)
    requires
        is_concat_call(shape, a),
    ensures
        2 * q4k_bytes(shape[0] as int / 2, shape[1]) == q4k_bytes(shape[0] as int, shape[1]),
{
    let row = (shape[1] / Q4K_BLOCK_QUANTS * Q4K_BLOCK_BYTES) as int;
    let n = shape[0] as int / 2;
    assert(2 * (n * row) == (2 * n) * row) by (nonlinear_arith);
}

/// The activation is on `gate` and not on `up`: SiLU in the one call, GELU by its tanh form in the
/// other. The SiLU call writes the type that it reads, the GELU call writes F32.
pub proof fn law_activation_is_on_gate(
    silu: FusedPlan,
    gelu: FusedPlan,
    up: Weight,
    gate: Weight,
    nrows: usize,
    a: Activation,
)
    requires
        fused_types(up, gate, a),
        is_fused_plan(
            silu,
            up.device,
            nrows,
            a,
            silu_launcher(a),
            up.spec_start(),
            gate.spec_start(),
        ),
        is_fused_plan(
            gelu,
            up.device,
            nrows,
            a,
            FusedLauncher::GeluF32,
            up.spec_start(),
            gate.spec_start(),
        ),
    ensures
        silu.launch.launcher.activation() == GateActivation::Silu,
        gelu.launch.launcher.activation() == GateActivation::GeluTanh,
        silu.launch.vgate == gate.spec_start() && silu.launch.vx == up.spec_start(),
        gelu.launch.vgate == gate.spec_start() && gelu.launch.vx == up.spec_start(),
        silu.launch.launcher.output().dtype() == a.dtype,
        gelu.launch.launcher.output() == FloatKind::F32,
{
}

/// The two weights of a fused call have roles of their own: with the weights the other way round
/// the launch is another one, unless both stand at the same place.
pub proof fn law_fused_weights_are_told_apart(
    p: FusedPlan,
    swapped: FusedPlan,
    up: Weight,
    gate: Weight,
    nrows: usize,
    a: Activation,
    launcher: FusedLauncher,
)
    requires
        is_fused_plan(p, up.device, nrows, a, launcher, up.spec_start(), gate.spec_start()),
        is_fused_plan(swapped, gate.device, nrows, a, launcher, gate.spec_start(), up.spec_start()),
    ensures
        p.launch.vx.base == up.address && p.launch.vgate.base == gate.address,
        p.launch == swapped.launch <==> up.address == gate.address,
{
}

/// The halves of a concatenated weight are taken as two weights would be: `gate` from the first row
/// on, and `up` where the rows of `gate` end.
pub proof fn law_concat_call_is_a_call_on_the_halves(
    p: FusedPlan,
    w: Weight,
    shape: Seq<usize>,
    a: Activation,
)
    requires
        is_concat_call(shape, a),
        q4k_bytes(shape[0] as int / 2, shape[1]) <= usize::MAX,
        is_fused_plan(
            p,
            w.device,
            shape[0] / 2,
            a,
            FusedLauncher::SiluF32,
            up_half(w, shape),
            w.spec_start(),
        ),
    ensures
        p.launch.vgate == w.spec_start(),
        p.launch.vx.base == w.address,
        p.launch.vx.offset == q4k_bytes(shape[0] as int / 2, shape[1]),
        elem_count(p.buffers.out_shape@) == shape[0] / 2,
{
    let rows = batch_rows(a.dims@);
    law_output_buffer_matches_shape(p.buffers, w.device, a, shape[0] / 2);
    assert((shape[0] / 2) * rows == shape[0] / 2) by (nonlinear_arith)
        requires
            rows == 1,
    ;
    assert(q4k_bytes(shape[0] as int / 2, shape[1]) >= 0) by (nonlinear_arith)
        requires
            q4k_bytes(shape[0] as int / 2, shape[1]) == (shape[0] as int / 2) * (shape[1]
                / Q4K_BLOCK_QUANTS * Q4K_BLOCK_BYTES),
    ;
}

/// Where a fused call with two weights applies, so does the plain call with each of them: the
/// fused kernel replaces plain calls and nothing else.
pub proof fn law_fused_calls_are_plain_calls(
    up: Weight,
    gate: Weight,
    shape: Seq<usize>,
    a: Activation,
)
    requires
        fused_types(up, gate, a),
        is_row_batch(shape, a, 1),
    ensures
        fwd_types(up, a) && fwd_types(gate, a),
        is_row_batch(shape, a, MMVQ_MAX_BATCH as int),
{
}


/// A plain call in numbers, for `rows` activation rows of `k` elements: what it reads and writes, and
/// every argument of its launches. The kernel reads the very format that the weight has.
pub proof fn law_fwd_plan_in_numbers(
    p: FwdPlan,
    w: Weight,
    shape: Seq<usize>,
    a: Activation,
    rows: int,
    k: int,
)
    requires
        is_fwd_plan(p, w, shape, a),
        shape.len() == 2 && shape[1] == k,
        a.dims@.last() == k,
        a.dims@.len() == 2 && rows == a.dims@[0] || a.dims@.len() == 3 && rows == a.dims@[0]
            * a.dims@[1],
    ensures
        p.buffers.device == w.device,
        a.offsets == Some((p.buffers.input_start, p.buffers.input_end)),
        p.buffers.out_elems == shape[0] * rows,
        p.buffers.out_shape@.len() == a.dims@.len(),
        p.buffers.out_shape@.last() == shape[0],
        forall|i: int|
            0 <= i < a.dims@.len() - 1 ==> #[trigger] p.buffers.out_shape@[i] == a.dims@[i],
        p.buffers.scratch_bytes == rows * ((k + 511) / 512 * 576),
        p.quantize.input is Bf16 <==> a.dtype is BF16,
        p.quantize.input is F16 <==> a.dtype is F16,
        p.quantize.input is F32 <==> a.dtype is F32,
        p.quantize.kx == k as i32,
        p.quantize.kx_padded == ((k + 511) / 512 * 512) as i32,
        p.quantize.num_rows == rows as i32,
        p.launch.ncols_x == k as i32,
        p.launch.nrows_x == shape[0] as i32,
        p.launch.stride_col_y == ((k + 511) / 512 * 16) as i32,
        p.launch.stride_col_dst == shape[0] as i32,
        p.launch.b_size == rows as i32,
        p.launch.vx == (WeightPtr { base: w.address, offset: 0 }),
        p.launch.launcher.output == p.quantize.input,
        p.launch.launcher.quant is Q4_0 <==> w.dtype is Q4_0,
        p.launch.launcher.quant is Q4_1 <==> w.dtype is Q4_1,
        p.launch.launcher.quant is Q5_0 <==> w.dtype is Q5_0,
        p.launch.launcher.quant is Q5_1 <==> w.dtype is Q5_1,
        p.launch.launcher.quant is Q8_0 <==> w.dtype is Q8_0,
        p.launch.launcher.quant is Q2K <==> w.dtype is Q2K,
        p.launch.launcher.quant is Q3K <==> w.dtype is Q3K,
        p.launch.launcher.quant is Q4K <==> w.dtype is Q4K,
        p.launch.launcher.quant is Q5K <==> w.dtype is Q5K,
        p.launch.launcher.quant is Q6K <==> w.dtype is Q6K,
{
    lemma_rows_in_numbers(a, rows, k);
}

/// A fused call in numbers, for one activation row of `k` elements.
pub proof fn law_fused_plan_in_numbers(
    p: FusedPlan,
    device: u64,
    nrows: usize,
    a: Activation,
    launcher: FusedLauncher,
    up: WeightPtr,
    gate: WeightPtr,
    rows: int,
    k: int,
)
    requires
        is_fused_plan(p, device, nrows, a, launcher, up, gate),
        a.dims@.last() == k,
        a.dims@.len() == 2 && rows == a.dims@[0] || a.dims@.len() == 3 && rows == a.dims@[0]
            * a.dims@[1],
        rows == 1,
    ensures
        p.buffers.device == device,
        a.offsets == Some((p.buffers.input_start, p.buffers.input_end)),
        p.buffers.out_elems == nrows * rows,
        p.buffers.out_shape@.len() == a.dims@.len(),
        p.buffers.out_shape@.last() == nrows,
        forall|i: int|
            0 <= i < a.dims@.len() - 1 ==> #[trigger] p.buffers.out_shape@[i] == a.dims@[i],
        p.buffers.scratch_bytes == rows * ((k + 511) / 512 * 576),
        p.quantize.input is Bf16 <==> a.dtype is BF16,
        p.quantize.input is F16 <==> a.dtype is F16,
        p.quantize.input is F32 <==> a.dtype is F32,
        p.quantize.kx == k as i32,
        p.quantize.kx_padded == ((k + 511) / 512 * 512) as i32,
        p.quantize.num_rows == rows as i32,
        p.launch.ncols_x == k as i32,
        p.launch.nrows_x == nrows as i32,
        p.launch.stride_col_y == ((k + 511) / 512 * 16) as i32,
        p.launch.stride_col_dst == nrows as i32,
        p.launch.launcher == launcher,
        p.launch.vx == up && p.launch.vgate == gate,
{
    lemma_rows_in_numbers(a, rows, k);
}

/// The rows of an activation and the sizes of one of them.
proof fn lemma_rows_in_numbers(a: Activation, rows: int, k: int)
    requires
        a.dims@.last() == k,
        a.dims@.len() == 2 && rows == a.dims@[0] || a.dims@.len() == 3 && rows == a.dims@[0]
            * a.dims@[1],
    ensures
        batch_rows(a.dims@) == rows && rows >= 0,
        scratch_bytes(rows as nat, k as nat) == rows * ((k + 511) / 512 * 576),
        padded(k as nat, MATRIX_ROW_PADDING as nat) == (k + 511) / 512 * 512,
        blocks_per_row(k as nat) == (k + 511) / 512 * 16,
{
    assert(rows >= 0) by (nonlinear_arith)
        requires
            rows == a.dims@[0] * a.dims@[1] || rows == a.dims@[0],
    ;
    law_scratch_is_counted_in_steps(rows as nat, k as nat);
}

/// Which calls the plain fast path takes: supported weights and BF16 or F32 activations, in one to
/// eight rows of the weight's row length that lie contiguously.
pub proof fn law_which_calls_apply(w: Weight, shape: Seq<usize>, a: Activation, max_rows: int)
    ensures
        fwd_types(w, a) <==> {
            &&& !(w.dtype is F32 || w.dtype is F16 || w.dtype is BF16 || w.dtype is Q8_1
                || w.dtype is Q8K)
            &&& a.dtype is BF16 || a.dtype is F32
        },
        plain_types(w, a) <==> fwd_types(w, a)
            || fwd_types(w, (Activation { dtype: DType::F32, ..a }))
            && a.dtype is F16,
        is_row_batch(shape, a, max_rows) <==> {
            &&& shape.len() == 2 && a.offsets is Some && a.dims@.last() == shape[1]
            &&& a.dims@.len() == 2 && 0 < a.dims@[0] <= max_rows || a.dims@.len() == 3 && 0
                < a.dims@[0] * a.dims@[1] <= max_rows
        },
{
}

/// Which fused calls apply: Q4_K weights only, a single row, and for two weights one device.
pub proof fn law_which_fused_calls_apply(
    up: Weight,
    gate: Weight,
    shape: Seq<usize>,
    a: Activation,
)
    ensures
        fused_types(up, gate, a) <==> {
            &&& up.dtype == GgmlDType::Q4K && gate.dtype == GgmlDType::Q4K
            &&& up.device == gate.device
            &&& a.dtype == DType::F32 || a.dtype == DType::BF16
        },
        concat_types(up, a) <==> up.dtype == GgmlDType::Q4K && a.dtype == DType::F32,
        is_concat_call(shape, a) <==> {
            &&& shape.len() == 2 && shape[0] % 2 == 0 && a.offsets is Some
            &&& a.dims@.last() == shape[1]
            &&& a.dims@.len() == 2 && a.dims@[0] == 1 || a.dims@.len() == 3 && a.dims@[0] * a.dims@[
                1] == 1
        },
{
}

/// Only the number of rows counts, not how they are laid out in a batch: two activations with the
/// same rows at the same place get the same launches and buffers.
pub proof fn law_batch_layout_does_not_matter(
    p: FwdPlan,
    q: FwdPlan,
    w: Weight,
    shape: Seq<usize>,
    a: Activation,
    b: Activation,
)
    requires
        is_fwd_plan(p, w, shape, a) && is_fwd_plan(q, w, shape, b),
        shape.len() == 2,
        a.dims@.len() == 3 && b.dims@.len() == 2,
        a.dims@[0] * a.dims@[1] == b.dims@[0],
        a.dims@.last() == shape[1] && b.dims@.last() == shape[1],
        a.dtype == b.dtype && a.offsets == b.offsets,
    ensures
        p.quantize == q.quantize,
        p.launch == q.launch,
        p.buffers.scratch_bytes == q.buffers.scratch_bytes,
        p.buffers.out_elems == q.buffers.out_elems,
{
    let rows = b.dims@[0] as int;
    law_fwd_plan_in_numbers(p, w, shape, a, rows, shape[1] as int);
    law_fwd_plan_in_numbers(q, w, shape, b, rows, shape[1] as int);
}

} // verus!
