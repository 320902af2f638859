use gguf_quant::attention::{causal_mask, LayerWeights};
use gguf_quant::config::Config;
use gguf_quant::dtype::{DType, GgmlDType};
use gguf_quant::fast_mmvq::{
    plan_fused_gelu, plan_fused_silu, plan_fused_silu_concat, plan_fwd, try_fused_gelu,
    try_fused_silu, try_fwd, Activation, Weight,
};
use gguf_quant::loader::{tensor_list, Loader};
use gguf_quant::names::TensorId;
use gguf_quant::routing::{route, top_experts};
use gguf_quant::scratch::{max_scratch_bytes_for_k, pad};
use gguf_quant::workspace::{ensure_workspace_capacity, Workspaces};

fn rows(dtype: DType, dims: &[usize]) -> Activation {
    let count: usize = dims.iter().product();
    Activation { dtype, dims: dims.to_vec(), offsets: Some((0, count)) }
}

fn q4k() -> Weight {
    Weight { dtype: GgmlDType::Q4K, device: 0, address: 64 }
}

fn config(block_count: usize, n_expert: usize) -> Config {
    Config {
        n_expert,
        n_expert_used: 2,
        head_count: 4,
        head_count_kv: 2,
        block_count,
        embedding_length: 64,
        rope_dim: 16,
        rms_norm_eps_bits: 0,
        rope_freq_base_bits: 0,
    }
}

/// Loads from a file with the tensors that `present` says. True if loading goes through.
fn load(config: &Config, present: fn(TensorId) -> bool) -> bool {
    let mut loader: Loader<String> = Loader::new(config);
    let mut attempts = 0;
    while let Some(id) = loader.next() {
        attempts += 1;
        assert!(attempts <= 2 * tensor_list(config).len());
        let read = if present(id) { Ok(id.name()) } else { Err("missing") };
        if loader.feed(read).is_err() {
            return false;
        }
    }
    true
}

#[test]
fn padding_is_monotone_and_keeps_multiples() {
    for q in [1, 3, 512] {
        for p in 0..1100 {
            assert!(pad(p, q) <= pad(p + 1, q));
            assert_eq!(pad(pad(p, q), q), pad(p, q));
        }
    }
}

#[test]
fn more_or_longer_rows_need_no_fewer_scratch_bytes() {
    let bytes = |b: usize, k: usize| {
        let plan = plan_fwd(&q4k(), &vec![16, k], &rows(DType::F32, &[b, k])).unwrap().unwrap();
        plan.buffers.scratch_bytes
    };
    for b in 1..8 {
        for k in [1, 511, 512, 513, 4096] {
            assert!(bytes(b, k) <= bytes(b + 1, k));
            assert!(bytes(b, k) <= bytes(b, k + 1));
        }
    }
}

#[test]
fn calls_on_a_pregrown_workspace_never_allocate() {
    let mut ws = Workspaces::new();
    let max_k = 4100;
    let (buffer, cap) =
        ensure_workspace_capacity(&mut ws, 0, max_scratch_bytes_for_k(max_k), |n| {
            Ok::<(u64, usize), &str>((77, n))
        })
        .unwrap();
    assert_eq!((*buffer, cap), ((77, 5184), 5184));
    let never = |_: usize| Err("allocated");
    for k in [1, 512, 4096, 4100] {
        let (shape, x) = (vec![32, k], rows(DType::F32, &[1, k]));
        assert!(matches!(try_fwd(&mut ws, &q4k(), &shape, &x, never), Ok(Some(_))));
        assert!(matches!(try_fused_silu(&mut ws, &q4k(), &q4k(), &shape, &x, never), Ok(Some(_))));
        assert!(matches!(try_fused_gelu(&mut ws, &q4k(), &q4k(), &shape, &x, never), Ok(Some(_))));
        assert_eq!(ws.get(0).unwrap().slice, (77, 5184));
    }
}

#[test]
fn fused_calls_are_plain_calls_too() {
    for dtype in [DType::F32, DType::BF16, DType::F16, DType::U8] {
        for dims in [vec![1, 256], vec![1, 1, 256], vec![2, 256], vec![256]] {
            let shape = vec![64, 256];
            let x = rows(dtype, &dims);
            let fused = plan_fused_silu(&q4k(), &q4k(), &shape, &x).unwrap();
            let gelu = plan_fused_gelu(&q4k(), &q4k(), &shape, &x).unwrap();
            let plain = plan_fwd(&q4k(), &shape, &x).unwrap();
            assert_eq!(fused.is_some(), gelu.is_some());
            if let Some(fused) = fused {
                let plain = plain.unwrap();
                assert_eq!(fused.buffers.out_shape, plain.buffers.out_shape);
                assert_eq!(fused.quantize, plain.quantize);
            }
        }
    }
}

#[test]
fn fused_weights_are_told_apart() {
    let (up, gate) = (q4k(), Weight { address: 4096, ..q4k() });
    let shape = vec![64, 256];
    let x = rows(DType::F32, &[1, 256]);
    for plan in [plan_fused_silu, plan_fused_gelu] {
        let p = plan(&up, &gate, &shape, &x).unwrap().unwrap();
        let q = plan(&gate, &up, &shape, &x).unwrap().unwrap();
        assert_eq!((p.launch.vx.base, p.launch.vgate.base), (64, 4096));
        assert_eq!((q.launch.vx.base, q.launch.vgate.base), (4096, 64));
        assert_ne!(p.launch, q.launch);
        assert_eq!(plan(&up, &up, &shape, &x).unwrap().unwrap().launch.vgate.base, 64);
    }
}

#[test]
fn concatenated_halves_are_of_one_size() {
    let shape = vec![64, 1024];
    let x = rows(DType::F32, &[1, 1024]);
    let plan = plan_fused_silu_concat(&q4k(), &shape, &x).unwrap().unwrap();
    assert_eq!(2 * plan.launch.vx.offset, 64 * (1024 / 256) * 144);
    assert_eq!((plan.launch.vx.base, plan.launch.vgate.base), (64, 64));
    assert_eq!(plan.launch.vgate.offset, 0);
}

#[test]
fn rows_and_experts_agree() {
    let weights: Vec<Vec<u32>> = (0..7u32)
        .map(|t| (0..5u32).map(|e| (((t * 3 + e * 2) % 5) as f32).to_bits()).collect())
        .collect();
    let first = |a: u32, _: u32| a;
    let routing = route(&weights, 5, 2, first, first);
    for (t, row) in weights.iter().enumerate() {
        assert_eq!(routing.chosen[t], top_experts(row, 2));
        assert_ne!(routing.chosen[t][0], routing.chosen[t][1]);
        for e in 0..5 {
            let works = routing.top_x[e].contains(&(t as u32));
            assert_eq!(works, routing.chosen[t].contains(&(e as u32)));
        }
    }
    for e in 0..5 {
        let rows = &routing.top_x[e];
        assert!(rows.iter().zip(rows.iter().skip(1)).all(|(a, b)| a < b));
        // The share is the weight itself here, so it shows which row it is of.
        let shares: Vec<u32> = rows.iter().map(|&t| weights[t as usize][e]).collect();
        assert_eq!(routing.selected_rws[e], shares);
    }
}

#[test]
fn a_single_position_masks_nothing() {
    assert!(causal_mask(1).iter().all(|&m| m == 0));
    let mask = causal_mask(6);
    for i in 0..6 {
        for j in 0..6 {
            assert_eq!(mask[i * 6 + j] == 1, j > i);
        }
    }
}

#[test]
fn passes_in_a_row_fill_the_cache() {
    let mut layer: LayerWeights<usize> =
        LayerWeights { n_head: 6, n_kv_head: 2, head_dim: 8, kv_cache: None };
    let join = |a: &usize, b: &usize| Ok::<usize, &str>(a + b);
    let mut index_pos = 0;
    for seq_len in [5, 1, 1, 3] {
        let plan = layer.forward_attn(&vec![1, seq_len, 48], index_pos).unwrap();
        assert_eq!(2 * plan.n_rep, 6);
        index_pos += seq_len;
        let kv = layer.store_kv(seq_len, seq_len, plan.rotary.0, join).unwrap();
        assert_eq!(*kv, (index_pos, index_pos));
    }
    assert_eq!(*layer.store_kv(4, 4, 0, join).unwrap(), (4, 4));
}

#[test]
fn names_tell_tensors_apart() {
    for config in [config(12, 0), config(2, 11)] {
        let list = tensor_list(&config);
        for (i, a) in list.iter().enumerate() {
            for b in &list[i + 1..] {
                assert_ne!(a, b);
                assert_ne!(a.name(), b.name());
            }
        }
    }
}

#[test]
fn files_with_all_required_tensors_load() {
    for config in [config(0, 0), config(2, 0), config(2, 3)] {
        assert!(load(&config, |_| true));
        assert!(load(&config, |id| id != TensorId::OutputNorm && id != TensorId::Output));
        assert!(!load(&config, |id| id != TensorId::TokenEmbd));
        assert!(!load(&config, |_| false));
    }
    assert!(!load(&config(2, 0), |id| id.name() != "blk.1.ffn_norm.weight"));
    assert!(!load(&config(2, 3), |id| id.name() != "blk.0.ffn_up.2.weight"));
    assert!(load(&config(2, 3), |id| id.name() != "blk.0.ffn_up.weight"));
    assert!(load(&config(2, 3), |id| id.name() != "blk.0.ffn_up.3.weight"));
}
