use gguf_quant::dtype::{float_kind, supports, DType, FloatKind, GgmlDType};
use gguf_quant::fast_mmvq::{
    concat_fits, fused_fits, fwd_fits, plan_fused_gelu, plan_fused_silu, plan_fused_silu_concat,
    plan_fwd, try_fused_gelu, try_fused_silu, try_fused_silu_concat, try_fwd, Activation, FwdError,
    ShapeError, Weight, WeightPtr,
};
use gguf_quant::launch::{
    plain_launcher_bf16, plain_launcher_f16, plain_launcher_f32, FusedLauncher, QuantKind,
};
use gguf_quant::workspace::Workspaces;

const ALL: [GgmlDType; 15] = [
    GgmlDType::F32,
    GgmlDType::F16,
    GgmlDType::BF16,
    GgmlDType::Q4_0,
    GgmlDType::Q4_1,
    GgmlDType::Q5_0,
    GgmlDType::Q5_1,
    GgmlDType::Q8_0,
    GgmlDType::Q8_1,
    GgmlDType::Q2K,
    GgmlDType::Q3K,
    GgmlDType::Q4K,
    GgmlDType::Q5K,
    GgmlDType::Q6K,
    GgmlDType::Q8K,
];

fn weight(dtype: GgmlDType) -> Weight {
    Weight { dtype, device: 2, address: 0x1000 }
}

fn activation(dtype: DType, dims: &[usize]) -> Activation {
    let count: usize = dims.iter().product();
    Activation { dtype, dims: dims.to_vec(), offsets: Some((10, 10 + count)) }
}

fn reserve(bytes: usize) -> Result<usize, &'static str> {
    Ok(bytes)
}

#[test]
fn ten_formats_are_supported() {
    let supported: Vec<GgmlDType> = ALL.iter().copied().filter(|d| supports(*d)).collect();
    assert_eq!(
        supported,
        vec![
            GgmlDType::Q4_0,
            GgmlDType::Q4_1,
            GgmlDType::Q5_0,
            GgmlDType::Q5_1,
            GgmlDType::Q8_0,
            GgmlDType::Q2K,
            GgmlDType::Q3K,
            GgmlDType::Q4K,
            GgmlDType::Q5K,
            GgmlDType::Q6K,
        ]
    );
}

#[test]
fn float_kinds() {
    assert_eq!(float_kind(DType::BF16), Some(FloatKind::Bf16));
    assert_eq!(float_kind(DType::F16), Some(FloatKind::F16));
    assert_eq!(float_kind(DType::F32), Some(FloatKind::F32));
    assert_eq!(float_kind(DType::F64), None);
    assert_eq!(float_kind(DType::U8), None);
}

#[test]
fn launchers_exist_for_supported_formats_only() {
    for dtype in ALL {
        assert_eq!(plain_launcher_bf16(dtype).is_some(), supports(dtype));
        assert_eq!(plain_launcher_f16(dtype).is_some(), supports(dtype));
        assert_eq!(plain_launcher_f32(dtype).is_some(), supports(dtype));
    }
    let l = plain_launcher_f16(GgmlDType::Q5_1).unwrap();
    assert_eq!((l.quant, l.output), (QuantKind::Q5_1, FloatKind::F16));
    let l = plain_launcher_bf16(GgmlDType::Q2K).unwrap();
    assert_eq!((l.quant, l.output), (QuantKind::Q2K, FloatKind::Bf16));
    let l = plain_launcher_f32(GgmlDType::Q8_0).unwrap();
    assert_eq!((l.quant, l.output), (QuantKind::Q8_0, FloatKind::F32));
}

#[test]
fn plain_call_with_three_dimensions() {
    let mut ws = Workspaces::new();
    let w = weight(GgmlDType::Q6K);
    let rhs = activation(DType::F32, &[2, 3, 1000]);
    let plan = match try_fwd(&mut ws, &w, &vec![64, 1000], &rhs, reserve) {
        Ok(Some(plan)) => plan,
        _ => panic!("the fast path applies"),
    };
    assert_eq!(plan.buffers.device, 2);
    assert_eq!((plan.buffers.input_start, plan.buffers.input_end), (10, 6010));
    assert_eq!(plan.buffers.scratch_bytes, 6 * 1152);
    assert_eq!(plan.buffers.out_elems, 384);
    assert_eq!(plan.buffers.out_shape, vec![2, 3, 64]);
    assert_eq!(plan.quantize.input, FloatKind::F32);
    assert_eq!((plan.quantize.kx, plan.quantize.kx_padded, plan.quantize.num_rows), (1000, 1024, 6));
    assert_eq!(plan.launch.launcher.quant, QuantKind::Q6K);
    assert_eq!(plan.launch.vx, WeightPtr { base: 0x1000, offset: 0 });
    assert_eq!(plan.launch.launcher.output, FloatKind::F32);
    assert_eq!((plan.launch.ncols_x, plan.launch.nrows_x, plan.launch.b_size), (1000, 64, 6));
    assert_eq!((plan.launch.stride_col_y, plan.launch.stride_col_dst), (32, 64));
    assert_eq!(ws.get(2).unwrap().cap, 6912);
}

#[test]
fn plain_call_with_two_dimensions() {
    let mut ws = Workspaces::new();
    let w = weight(GgmlDType::Q4_0);
    let rhs = activation(DType::BF16, &[8, 512]);
    let plan = match try_fwd(&mut ws, &w, &vec![10, 512], &rhs, reserve) {
        Ok(Some(plan)) => plan,
        _ => panic!("the fast path applies"),
    };
    assert_eq!(plan.buffers.out_shape, vec![8, 10]);
    assert_eq!(plan.buffers.scratch_bytes, 8 * 576);
    assert_eq!(plan.launch.launcher.output, FloatKind::Bf16);
}

#[test]
fn plain_call_does_not_apply() {
    let shape = vec![10, 512];
    let fits = activation(DType::F32, &[1, 512]);
    let cases = vec![
        (weight(GgmlDType::Q8K), shape.clone(), activation(DType::F32, &[1, 512])),
        (weight(GgmlDType::F16), vec![10], activation(DType::F32, &[1, 512])),
        (weight(GgmlDType::Q4K), shape.clone(), activation(DType::F64, &[1, 512])),
        (weight(GgmlDType::Q4K), shape.clone(), activation(DType::F16, &[1, 512])),
        (weight(GgmlDType::Q4K), vec![10], activation(DType::F16, &[1, 512])),
        (weight(GgmlDType::Q4K), shape.clone(), activation(DType::F32, &[512])),
        (weight(GgmlDType::Q4K), shape.clone(), activation(DType::F32, &[1, 1, 1, 512])),
        (weight(GgmlDType::Q4K), shape.clone(), activation(DType::F32, &[1, 511])),
        (weight(GgmlDType::Q4K), shape.clone(), activation(DType::F32, &[9, 512])),
        (weight(GgmlDType::Q4K), shape.clone(), activation(DType::F32, &[3, 3, 512])),
        (weight(GgmlDType::Q4K), shape.clone(), activation(DType::F32, &[0, 512])),
        (weight(GgmlDType::Q4K), shape.clone(), Activation { offsets: None, ..fits }),
    ];
    for (w, shape, rhs) in cases {
        let mut ws = Workspaces::new();
        assert!(matches!(try_fwd(&mut ws, &w, &shape, &rhs, reserve), Ok(None)));
        assert!(ws.get(2).is_none());
    }
}

#[test]
fn plain_call_needs_a_matrix() {
    let mut ws = Workspaces::new();
    let w = weight(GgmlDType::Q4K);
    let rhs = activation(DType::F32, &[1, 512]);
    match try_fwd(&mut ws, &w, &vec![1, 10, 512], &rhs, reserve) {
        Err(FwdError::Shape(e)) => assert_eq!(e, ShapeError { expected: 2, got: 3 }),
        _ => panic!("the weight is not a matrix"),
    }
    assert!(ws.get(2).is_none());
}

#[test]
fn plain_call_without_memory() {
    let mut ws: Workspaces<usize> = Workspaces::new();
    let w = weight(GgmlDType::Q4K);
    let rhs = activation(DType::F32, &[1, 512]);
    match try_fwd(&mut ws, &w, &vec![10, 512], &rhs, |_| Err("out of memory")) {
        Err(FwdError::Alloc(e)) => assert_eq!(e, "out of memory"),
        _ => panic!("there is no memory"),
    }
    assert!(ws.get(2).is_none());
}

#[test]
fn plain_plan_for_f16() {
    let w = weight(GgmlDType::Q3K);
    let plan = plan_fwd(&w, &vec![4, 300], &activation(DType::F16, &[1, 300])).unwrap().unwrap();
    assert_eq!(plan.launch.launcher.output, FloatKind::F16);
    assert_eq!(plan.quantize.input, FloatKind::F16);
    assert_eq!(plan.buffers.scratch_bytes, 576);
}

#[test]
fn fused_silu_writes_what_it_reads() {
    let up = weight(GgmlDType::Q4K);
    let gate = Weight { address: 0x9000, ..weight(GgmlDType::Q4K) };
    let shape = vec![64, 256];
    for (dtype, launcher) in [
        (DType::F32, FusedLauncher::SiluF32),
        (DType::BF16, FusedLauncher::SiluBf16),
    ] {
        let mut ws = Workspaces::new();
        let rhs = activation(dtype, &[1, 1, 256]);
        let plan = match try_fused_silu(&mut ws, &up, &gate, &shape, &rhs, reserve) {
            Ok(Some(plan)) => plan,
            _ => panic!("the fused call applies"),
        };
        assert_eq!(plan.launch.launcher, launcher);
        assert_eq!(plan.buffers.out_shape, vec![1, 1, 64]);
        assert_eq!(plan.buffers.out_elems, 64);
        assert_eq!(plan.launch.vx, WeightPtr { base: 0x1000, offset: 0 });
        assert_eq!(plan.launch.vgate, WeightPtr { base: 0x9000, offset: 0 });
        assert_eq!((plan.launch.ncols_x, plan.launch.nrows_x), (256, 64));
        assert_eq!((plan.launch.stride_col_y, plan.launch.stride_col_dst), (16, 64));
        assert_eq!(ws.get(2).unwrap().cap, 576);
    }
}

#[test]
fn fused_gelu_writes_f32() {
    let up = weight(GgmlDType::Q4K);
    let gate = Weight { address: 0x9000, ..weight(GgmlDType::Q4K) };
    for (dtype, kind) in [(DType::F32, FloatKind::F32), (DType::BF16, FloatKind::Bf16)] {
        let mut ws = Workspaces::new();
        let rhs = activation(dtype, &[1, 256]);
        let plan = match try_fused_gelu(&mut ws, &up, &gate, &vec![64, 256], &rhs, reserve) {
            Ok(Some(plan)) => plan,
            _ => panic!("the fused call applies"),
        };
        assert_eq!(plan.launch.launcher, FusedLauncher::GeluF32);
        assert_eq!(plan.quantize.input, kind);
        assert_eq!((plan.launch.vx.base, plan.launch.vgate.base), (0x1000, 0x9000));
    }
}

#[test]
fn fused_calls_do_not_apply() {
    let q4k = weight(GgmlDType::Q4K);
    let shape = vec![64, 256];
    let one = activation(DType::F32, &[1, 256]);
    let far = Weight { dtype: GgmlDType::Q4K, device: 3, address: 0x1000 };
    assert!(matches!(plan_fused_silu(&q4k, &weight(GgmlDType::Q5K), &shape, &one), Ok(None)));
    assert!(matches!(plan_fused_gelu(&weight(GgmlDType::Q6K), &q4k, &shape, &one), Ok(None)));
    assert!(matches!(plan_fused_silu(&q4k, &far, &shape, &one), Ok(None)));
    assert!(matches!(plan_fused_gelu(&q4k, &far, &vec![64], &one), Ok(None)));
    let two = activation(DType::F32, &[2, 256]);
    assert!(matches!(plan_fused_silu(&q4k, &q4k, &shape, &two), Ok(None)));
    let half = activation(DType::F16, &[1, 256]);
    assert!(matches!(plan_fused_gelu(&q4k, &q4k, &shape, &half), Ok(None)));
    let short = activation(DType::F32, &[1, 255]);
    assert!(matches!(plan_fused_silu(&q4k, &q4k, &shape, &short), Ok(None)));
    match plan_fused_silu(&q4k, &q4k, &vec![64], &one) {
        Err(e) => assert_eq!(e, ShapeError { expected: 2, got: 1 }),
        _ => panic!("the weight is not a matrix"),
    }
}

#[test]
fn fused_silu_concat_takes_the_halves_apart() {
    let mut ws = Workspaces::new();
    let w = weight(GgmlDType::Q4K);
    let rhs = activation(DType::F32, &[1, 512]);
    let plan = match try_fused_silu_concat(&mut ws, &w, &vec![64, 512], &rhs, reserve) {
        Ok(Some(plan)) => plan,
        _ => panic!("the fused call applies"),
    };
    assert_eq!(plan.launch.vgate, WeightPtr { base: 0x1000, offset: 0 });
    assert_eq!(plan.launch.vx, WeightPtr { base: 0x1000, offset: 32 * 288 });
    assert_eq!(plan.buffers.out_shape, vec![1, 32]);
    assert_eq!(plan.buffers.out_elems, 32);
    assert_eq!(plan.launch.launcher, FusedLauncher::SiluF32);
    assert_eq!((plan.launch.nrows_x, plan.launch.stride_col_dst), (32, 32));
}

#[test]
fn fused_silu_concat_does_not_apply() {
    let w = weight(GgmlDType::Q4K);
    let rhs = activation(DType::F32, &[1, 512]);
    assert!(matches!(plan_fused_silu_concat(&w, &vec![63, 512], &rhs), Ok(None)));
    let bf16 = activation(DType::BF16, &[1, 512]);
    assert!(matches!(plan_fused_silu_concat(&w, &vec![64, 512], &bf16), Ok(None)));
    let other = weight(GgmlDType::Q5K);
    assert!(matches!(plan_fused_silu_concat(&other, &vec![64, 512], &rhs), Ok(None)));
    assert!(plan_fused_silu_concat(&w, &vec![64, 512, 1], &rhs).is_err());
}

#[test]
fn plain_sizes_that_fit() {
    let rows = |dtype, b, k| Activation { dtype, dims: vec![b, k], offsets: Some((0, 0)) };
    let w = weight(GgmlDType::Q8_0);
    assert!(fwd_fits(&w, &vec![64, 4096], &activation(DType::F32, &[2, 4096])));
    // The longest rows whose blocks of 36 bytes for 32 elements can be counted in bytes.
    let k = usize::MAX / 36 * 32;
    assert!(fwd_fits(&w, &vec![1, k - 512], &rows(DType::F32, 1, k - 512)));
    assert!(!fwd_fits(&w, &vec![1, k + 512], &rows(DType::F32, 1, k + 512)));
    assert!(!fwd_fits(&w, &vec![1, k - 512], &rows(DType::F32, 2, k - 512)));
    assert!(!fwd_fits(&w, &vec![usize::MAX, 32], &rows(DType::BF16, 2, 32)));
    assert!(!fwd_fits(&w, &vec![1, k + 512], &rows(DType::F16, 1, k + 512)));
    // Where there are no kernels for the call, nothing has to fit.
    assert!(fwd_fits(&w, &vec![1, k + 512], &rows(DType::U8, 1, k + 512)));
    assert!(fwd_fits(&w, &vec![1, k + 512], &rows(DType::F32, 9, k + 512)));
    assert!(fwd_fits(&w, &vec![usize::MAX], &rows(DType::F32, 2, 32)));
    assert!(fwd_fits(&weight(GgmlDType::Q8_1), &vec![1, k + 512], &rows(DType::F32, 1, k + 512)));
}

#[test]
fn fused_sizes_that_fit() {
    let row = |k| Activation { dtype: DType::F32, dims: vec![1, k], offsets: Some((0, 0)) };
    let w = weight(GgmlDType::Q4K);
    let k = usize::MAX / 36 * 32;
    assert!(fused_fits(&w, &w, &vec![usize::MAX, 512], &row(512)));
    assert!(!fused_fits(&w, &w, &vec![1, k + 512], &row(k + 512)));
    assert!(fused_fits(&w, &weight(GgmlDType::Q5K), &vec![1, k + 512], &row(k + 512)));
    assert!(concat_fits(&w, &vec![16, 512], &row(512)));
    assert!(!concat_fits(&w, &vec![2, k + 512], &row(k + 512)));
    assert!(!concat_fits(&w, &vec![usize::MAX - 1, 512], &row(512)));
    assert!(concat_fits(&w, &vec![usize::MAX, 512], &row(512)));
}
