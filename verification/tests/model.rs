use gguf_quant::config::{Config, ConfigError, MetaValue, Metadata};
use gguf_quant::fast_mmvq::ShapeError;
use gguf_quant::loader::{tensor_list, Fallback, LoadStep, Loader};
use gguf_quant::model::{MlpOrMoe, ModelWeights, PassError};
use gguf_quant::names::{ExpertPart, LayerPart, TensorId};
use gguf_quant::routing::rows_select_within;
use gguf_quant::weights::{FeedForwardParts, NormWeight, OutputWeight};

type Model = ModelWeights<Vec<u8>, Vec<u32>>;

fn set_u32(m: &mut Metadata, key: &str, n: u32) {
    m.insert(key.to_string(), MetaValue { as_u32: Some(n), as_f32_bits: None });
}

fn set_f32(m: &mut Metadata, key: &str, x: f32) {
    m.insert(key.to_string(), MetaValue { as_u32: None, as_f32_bits: Some(x.to_bits()) });
}

fn metadata() -> Metadata {
    let mut m = Metadata::new();
    set_u32(&mut m, "mistral3.attention.head_count", 32);
    set_u32(&mut m, "mistral3.attention.head_count_kv", 8);
    set_u32(&mut m, "mistral3.block_count", 40);
    set_u32(&mut m, "mistral3.embedding_length", 5120);
    m
}

fn small(block_count: usize, n_expert: usize) -> Config {
    Config {
        n_expert,
        n_expert_used: 1,
        head_count: 2,
        head_count_kv: 1,
        block_count,
        embedding_length: 16,
        rope_dim: 8,
        rms_norm_eps_bits: 0,
        rope_freq_base_bits: 0,
    }
}

#[test]
fn later_metadata_replace_earlier() {
    let mut m = Metadata::new();
    let key = "mistral3.block_count".to_string();
    assert_eq!(m.get(&key), None);
    set_u32(&mut m, &key, 1);
    set_u32(&mut m, "other", 3);
    set_u32(&mut m, &key, 2);
    assert_eq!(m.get(&key).unwrap().as_u32, Some(2));
}

#[test]
fn config_with_defaults() {
    let c = Config::read(&metadata()).unwrap();
    assert_eq!((c.n_expert, c.n_expert_used), (0, 0));
    assert_eq!((c.head_count, c.head_count_kv, c.block_count), (32, 8, 40));
    assert_eq!(c.embedding_length, 5120);
    assert_eq!(c.rope_dim, 2560);
    assert_eq!(f32::from_bits(c.rms_norm_eps_bits), 1e-5);
    assert_eq!(f32::from_bits(c.rope_freq_base_bits), 10000.0);
    assert_eq!(c.head_dim(), 160);
    assert!(!c.is_moe());
}

#[test]
fn config_with_everything_given() {
    let mut m = metadata();
    set_u32(&mut m, "mistral3.expert_count", 8);
    set_u32(&mut m, "mistral3.expert_used_count", 2);
    set_u32(&mut m, "mistral3.rope.dimension_count", 128);
    set_f32(&mut m, "mistral3.attention.layer_norm_rms_epsilon", 1e-6);
    set_f32(&mut m, "mistral3.rope.freq_base", 100000000.0);
    let c = Config::read(&m).unwrap();
    assert_eq!((c.n_expert, c.n_expert_used, c.rope_dim), (8, 2, 128));
    assert_eq!(f32::from_bits(c.rms_norm_eps_bits), 1e-6);
    assert_eq!(f32::from_bits(c.rope_freq_base_bits), 100000000.0);
    assert!(c.is_moe());
}

#[test]
fn optional_values_of_the_wrong_type_are_passed_over() {
    let mut m = metadata();
    set_f32(&mut m, "mistral3.rope.dimension_count", 128.0);
    set_u32(&mut m, "mistral3.rope.freq_base", 5);
    let c = Config::read(&m).unwrap();
    assert_eq!(c.rope_dim, 2560);
    assert_eq!(f32::from_bits(c.rope_freq_base_bits), 10000.0);
}

#[test]
fn config_errors_name_the_first_key() {
    let mut m = Metadata::new();
    match Config::read(&m) {
        Err(ConfigError::Missing(key)) => assert_eq!(key, "mistral3.attention.head_count"),
        _ => panic!("nothing is there"),
    }
    set_u32(&mut m, "mistral3.attention.head_count", 32);
    set_u32(&mut m, "mistral3.attention.head_count_kv", 8);
    set_f32(&mut m, "mistral3.block_count", 40.0);
    match Config::read(&m) {
        Err(ConfigError::NotU32(key)) => assert_eq!(key, "mistral3.block_count"),
        _ => panic!("the block count is no integer"),
    }
}

#[test]
fn tensor_names() {
    let names: Vec<String> = [
        TensorId::TokenEmbd,
        TensorId::OutputNorm,
        TensorId::Output,
        TensorId::Layer { layer: 0, part: LayerPart::AttnQ },
        TensorId::Layer { layer: 10, part: LayerPart::FfnGateInp },
        TensorId::Layer { layer: 39, part: LayerPart::FfnNorm },
        TensorId::Expert { layer: 7, weight: ExpertPart::Gate, expert: 0 },
        TensorId::Expert { layer: 120, weight: ExpertPart::Up, expert: 15 },
    ]
    .iter()
    .map(|id| id.name())
    .collect();
    assert_eq!(
        names,
        vec![
            "token_embd.weight",
            "output_norm.weight",
            "output.weight",
            "blk.0.attn_q.weight",
            "blk.10.ffn_gate_inp.weight",
            "blk.39.ffn_norm.weight",
            "blk.7.ffn_gate.0.weight",
            "blk.120.ffn_up.15.weight",
        ]
    );
    let id = TensorId::Layer { layer: usize::MAX, part: LayerPart::AttnV };
    assert_eq!(id.name(), format!("blk.{}.attn_v.weight", usize::MAX));
}

#[test]
fn tensors_of_a_plain_model() {
    let names: Vec<String> = tensor_list(&small(1, 1)).iter().map(|id| id.name()).collect();
    assert_eq!(
        names,
        vec![
            "token_embd.weight",
            "output_norm.weight",
            "output.weight",
            "blk.0.attn_q.weight",
            "blk.0.attn_k.weight",
            "blk.0.attn_v.weight",
            "blk.0.attn_output.weight",
            "blk.0.ffn_gate.weight",
            "blk.0.ffn_down.weight",
            "blk.0.ffn_up.weight",
            "blk.0.attn_norm.weight",
            "blk.0.ffn_norm.weight",
        ]
    );
    assert_eq!(tensor_list(&small(40, 0)).len(), 3 + 40 * 9);
}

#[test]
fn tensors_of_a_mixture_of_experts() {
    let list = tensor_list(&small(2, 2));
    let names: Vec<String> = list[3..16].iter().map(|id| id.name()).collect();
    assert_eq!(
        names,
        vec![
            "blk.0.attn_q.weight",
            "blk.0.attn_k.weight",
            "blk.0.attn_v.weight",
            "blk.0.attn_output.weight",
            "blk.0.ffn_gate_inp.weight",
            "blk.0.ffn_gate.0.weight",
            "blk.0.ffn_down.0.weight",
            "blk.0.ffn_up.0.weight",
            "blk.0.ffn_gate.1.weight",
            "blk.0.ffn_down.1.weight",
            "blk.0.ffn_up.1.weight",
            "blk.0.attn_norm.weight",
            "blk.0.ffn_norm.weight",
        ]
    );
    assert_eq!(list.len(), 3 + 2 * 13);
    let mut all: Vec<String> = list.iter().map(|id| id.name()).collect();
    all.sort();
    all.dedup();
    assert_eq!(all.len(), list.len());
}

fn found(loader: &mut Loader<String>) -> Result<LoadStep, &'static str> {
    let name = loader.next().unwrap().name();
    loader.feed(Ok(name))
}

fn missing(loader: &mut Loader<String>) -> Result<LoadStep, &'static str> {
    loader.feed(Err("missing"))
}

#[test]
fn loading_goes_through_all_tensors() {
    let config = small(3, 0);
    let mut loader = Loader::new(&config);
    let mut seen = Vec::new();
    while let Some(id) = loader.next() {
        seen.push(id);
        assert_eq!(found(&mut loader), Ok(LoadStep::Use));
    }
    assert_eq!(seen, tensor_list(&config));
}

#[test]
fn missing_norm_and_output_are_stood_in_for() {
    let mut config = small(0, 0);
    config.embedding_length = 5120;
    config.rms_norm_eps_bits = 1e-6f32.to_bits();
    let mut loader = Loader::new(&config);
    assert_eq!(found(&mut loader), Ok(LoadStep::Use));
    assert_eq!(loader.next(), Some(TensorId::OutputNorm));
    assert_eq!(missing(&mut loader), Ok(LoadStep::Retry));
    assert_eq!(loader.next(), Some(TensorId::OutputNorm));
    assert_eq!(missing(&mut loader), Ok(LoadStep::FallBack(Fallback::Ones)));
    assert_eq!(loader.next(), Some(TensorId::Output));
    assert_eq!(missing(&mut loader), Ok(LoadStep::FallBack(Fallback::TokenEmbeddings)));
    assert_eq!(loader.next(), None);
    let parts = loader.finish();
    assert_eq!(parts.tok_embeddings, "token_embd.weight");
    assert!(matches!(parts.norm, NormWeight::Ones { len: 5120 }));
    assert!(matches!(parts.output, OutputWeight::TokenEmbeddings));
    assert_eq!(parts.rms_norm_eps_bits, 1e-6f32.to_bits());
    assert!(parts.layers.is_empty());
}

#[test]
fn other_missing_tensors_end_the_loading() {
    let mut loader = Loader::new(&small(1, 0));
    assert_eq!(missing(&mut loader), Err("missing"));
    assert_eq!(loader.next(), Some(TensorId::TokenEmbd));
    let mut loader = Loader::new(&small(1, 0));
    for _ in 0..7 {
        assert_eq!(found(&mut loader), Ok(LoadStep::Use));
    }
    assert_eq!(loader.next().unwrap().name(), "blk.0.ffn_gate.weight");
    assert_eq!(missing(&mut loader), Ok(LoadStep::Retry));
    assert_eq!(missing(&mut loader), Err("missing"));
    let mut loader = Loader::new(&small(1, 0));
    for _ in 0..7 {
        assert_eq!(found(&mut loader), Ok(LoadStep::Use));
    }
    assert_eq!(missing(&mut loader), Ok(LoadStep::Retry));
    assert_eq!(found(&mut loader), Ok(LoadStep::Use));
    assert_eq!(loader.next().unwrap().name(), "blk.0.ffn_down.weight");
}

#[test]
fn tensors_of_a_plain_model_are_put_to_their_uses() {
    let mut loader = Loader::new(&small(2, 0));
    while loader.next().is_some() {
        assert_eq!(found(&mut loader), Ok(LoadStep::Use));
    }
    let parts = loader.finish();
    match (parts.norm, parts.output) {
        (NormWeight::Tensor(norm), OutputWeight::Tensor(output)) => {
            assert_eq!((norm.as_str(), output.as_str()), ("output_norm.weight", "output.weight"));
        }
        _ => panic!("the norm and the output matrix are there"),
    }
    assert_eq!(parts.layers.len(), 2);
    let layer = &parts.layers[1];
    assert_eq!(layer.attention_wq, "blk.1.attn_q.weight");
    assert_eq!(layer.attention_wk, "blk.1.attn_k.weight");
    assert_eq!(layer.attention_wv, "blk.1.attn_v.weight");
    assert_eq!(layer.attention_wo, "blk.1.attn_output.weight");
    assert_eq!(layer.attention_norm, "blk.1.attn_norm.weight");
    assert_eq!(layer.ffn_norm, "blk.1.ffn_norm.weight");
    match &layer.feed_forward {
        FeedForwardParts::Mlp(mlp) => {
            assert_eq!(mlp.feed_forward_w1, "blk.1.ffn_gate.weight");
            assert_eq!(mlp.feed_forward_w2, "blk.1.ffn_down.weight");
            assert_eq!(mlp.feed_forward_w3, "blk.1.ffn_up.weight");
        }
        _ => panic!("there are no experts"),
    }
}

#[test]
fn tensors_of_experts_are_put_to_their_uses() {
    let mut loader = Loader::new(&small(2, 3));
    while loader.next().is_some() {
        assert_eq!(found(&mut loader), Ok(LoadStep::Use));
    }
    let parts = loader.finish();
    match &parts.layers[1].feed_forward {
        FeedForwardParts::MoE { feed_forward_gate_inp, experts } => {
            assert_eq!(feed_forward_gate_inp, "blk.1.ffn_gate_inp.weight");
            assert_eq!(experts.len(), 3);
            for (e, expert) in experts.iter().enumerate() {
                assert_eq!(expert.feed_forward_w1, format!("blk.1.ffn_gate.{}.weight", e));
                assert_eq!(expert.feed_forward_w2, format!("blk.1.ffn_down.{}.weight", e));
                assert_eq!(expert.feed_forward_w3, format!("blk.1.ffn_up.{}.weight", e));
            }
        }
        _ => panic!("there are experts"),
    }
    assert_eq!(parts.layers[1].ffn_norm, "blk.1.ffn_norm.weight");
}

#[test]
fn feed_forward_parts_route_to_their_own_experts() {
    let plus = |a: u32, b: u32| (f32::from_bits(a) + f32::from_bits(b)).to_bits();
    let divide = |a: u32, b: u32| (f32::from_bits(a) / f32::from_bits(b)).to_bits();
    let row: Vec<u32> = [0.25f32, 0.0, 0.75].iter().map(|w| w.to_bits()).collect();
    assert!(MlpOrMoe::Mlp.route(&vec![row.clone()], plus, divide).is_none());
    let moe = MlpOrMoe::MoE { n_experts: 4, n_expert_used: 1 };
    let routing = moe.route(&vec![row.clone()], plus, divide).unwrap();
    assert_eq!(routing.chosen, vec![vec![2]]);
    assert_eq!(routing.top_x, vec![vec![], vec![], vec![0], vec![]]);
    assert_eq!(routing.selected_rws[2], vec![1f32.to_bits()]);
    assert!(rows_select_within(&vec![row.clone()], 3, 1));
    assert!(!rows_select_within(&vec![row.clone()], 2, 1));
    assert!(rows_select_within(&vec![row], 2, 0));
}

#[test]
fn model_from_metadata() {
    let mut m = metadata();
    let model = Model::from_gguf(&m).unwrap();
    assert_eq!(model.layers.len(), 40);
    assert_eq!(model.mlp_or_moe, MlpOrMoe::Mlp);
    let l = &model.layers[39];
    assert_eq!((l.n_head, l.n_kv_head, l.head_dim), (32, 8, 160));
    assert!(l.kv_cache.is_none());
    set_u32(&mut m, "mistral3.expert_count", 8);
    set_u32(&mut m, "mistral3.expert_used_count", 2);
    let model = Model::from_gguf(&m).unwrap();
    assert_eq!(model.mlp_or_moe, MlpOrMoe::MoE { n_experts: 8, n_expert_used: 2 });
    assert!(Model::from_gguf(&Metadata::new()).is_err());
}

#[test]
fn passes_are_masked_from_two_positions_on() {
    let mut model = Model::from_gguf(&metadata()).unwrap();
    let one = match model.forward(&vec![1, 1], |_| Err("built")) {
        Ok(plan) => plan,
        Err(_) => panic!("no mask is needed"),
    };
    assert_eq!((one.seq_len, one.masked, one.last), (1, false, 0));
    let three = match model.forward(&vec![1, 3], Ok::<Vec<u8>, &str>) {
        Ok(plan) => plan,
        Err(_) => panic!("the mask can be built"),
    };
    assert_eq!((three.seq_len, three.masked, three.last), (3, true, 2));
    assert_eq!(model.masks.get(3), Some(&vec![0, 1, 1, 0, 0, 1, 0, 0, 0]));
    assert!(model.forward(&vec![4, 3], |_| Err("built again")).is_ok());
}

#[test]
fn pass_errors() {
    let mut model = Model::from_gguf(&metadata()).unwrap();
    match model.forward(&vec![1, 2, 3], Ok::<Vec<u8>, &str>) {
        Err(PassError::Shape(e)) => assert_eq!(e, ShapeError { expected: 2, got: 3 }),
        _ => panic!("the tokens have three dimensions"),
    }
    match model.forward(&vec![1, 2], |_| Err("no device")) {
        Err(PassError::Mask(e)) => assert_eq!(e, "no device"),
        _ => panic!("the mask cannot be built"),
    }
    assert!(model.masks.get(2).is_none());
}

#[test]
fn feed_forward_shapes() {
    assert_eq!(MlpOrMoe::Mlp.forward(&vec![5]), Ok(None));
    let moe = MlpOrMoe::MoE { n_experts: 8, n_expert_used: 2 };
    let shapes = moe.forward(&vec![2, 3, 16]).unwrap().unwrap();
    assert_eq!((shapes.hidden_dim, shapes.out_shape), (16, (2, 3, 16)));
    assert_eq!(moe.forward(&vec![6, 16]), Err(ShapeError { expected: 3, got: 2 }));
}
