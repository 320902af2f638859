use gguf_quant::attention::{
    causal_mask, rotary_dims, rotary_rows, AttnError, LayerWeights, MaskCache, PositionError,
    MAX_SEQ_LEN,
};
use gguf_quant::fast_mmvq::ShapeError;

fn layer() -> LayerWeights<Vec<u32>> {
    LayerWeights { n_head: 32, n_kv_head: 8, head_dim: 160, kv_cache: None }
}

fn cat(a: &Vec<u32>, b: &Vec<u32>) -> Result<Vec<u32>, &'static str> {
    let mut all = a.clone();
    all.extend(b);
    Ok(all)
}

#[test]
fn later_positions_are_masked_out() {
    assert_eq!(causal_mask(0), Vec::<u8>::new());
    assert_eq!(causal_mask(1), vec![0]);
    assert_eq!(causal_mask(3), vec![0, 1, 1, 0, 0, 1, 0, 0, 0]);
}

#[test]
fn masks_are_built_once() {
    let mut masks: MaskCache<Vec<u8>> = MaskCache::new();
    assert!(masks.get(2).is_none());
    assert_eq!(masks.mask(2, Ok::<Vec<u8>, ()>).unwrap(), &vec![0, 1, 0, 0]);
    assert_eq!(masks.mask(2, |_| Err("built again")).unwrap(), &vec![0, 1, 0, 0]);
    assert_eq!(masks.mask(3, |_| Err("no device")).err(), Some("no device"));
    assert!(masks.get(3).is_none());
    assert_eq!(masks.get(2), Some(&vec![0, 1, 0, 0]));
}

#[test]
fn rotary_rows_end_with_the_tables() {
    assert_eq!(rotary_rows(0, 10), Ok((0, 10)));
    assert_eq!(rotary_rows(MAX_SEQ_LEN - 1, 1), Ok((4095, 4096)));
    let e = PositionError { index_pos: 4096, seq_len: 1 };
    assert_eq!(rotary_rows(4096, 1), Err(e));
    assert!(rotary_rows(usize::MAX, usize::MAX).is_err());
}

#[test]
fn rotary_frequencies_are_for_every_second_dimension() {
    assert_eq!(rotary_dims(6), vec![0, 2, 4]);
    assert_eq!(rotary_dims(5), vec![0, 2, 4]);
    assert_eq!(rotary_dims(0), Vec::<usize>::new());
    assert_eq!(rotary_dims(128).len(), 64);
}

#[test]
fn attention_shapes() {
    let plan = layer().forward_attn(&vec![2, 7, 5120], 3).unwrap();
    assert_eq!(plan.q_shape, (2, 7, 32, 160));
    assert_eq!(plan.kv_shape, (2, 7, 8, 160));
    assert_eq!(plan.rotary, (3, 10));
    assert_eq!(plan.n_rep, 4);
    assert_eq!(plan.out_shape, (2, 7, 5120));
}

#[test]
fn attention_errors() {
    assert_eq!(
        layer().forward_attn(&vec![7, 5120], 0),
        Err(AttnError::Shape(ShapeError { expected: 3, got: 2 }))
    );
    assert_eq!(
        LayerWeights { n_kv_head: 0, ..layer() }.forward_attn(&vec![1, 2, 5120], 4095),
        Err(AttnError::NoKvHeads)
    );
    assert_eq!(
        layer().forward_attn(&vec![1, 2, 5120], 4095),
        Err(AttnError::Position(PositionError { index_pos: 4095, seq_len: 2 }))
    );
}

#[test]
fn keys_and_values_are_collected() {
    let mut l = layer();
    assert_eq!(l.store_kv(vec![1, 2], vec![11, 12], 0, cat).unwrap(), &(vec![1, 2], vec![11, 12]));
    assert_eq!(
        l.store_kv(vec![3], vec![13], 2, cat).unwrap(),
        &(vec![1, 2, 3], vec![11, 12, 13])
    );
    assert_eq!(l.n_head, 32);
}

#[test]
fn position_zero_starts_afresh() {
    let mut l = layer();
    l.store_kv(vec![1, 2], vec![11, 12], 0, cat).unwrap();
    assert_eq!(l.store_kv(vec![5], vec![15], 0, cat).unwrap(), &(vec![5], vec![15]));
}

#[test]
fn an_empty_cache_is_filled_at_any_position() {
    let mut l = layer();
    assert_eq!(l.store_kv(vec![5], vec![15], 9, cat).unwrap(), &(vec![5], vec![15]));
}

#[test]
fn failing_to_collect_keeps_the_cache() {
    let mut l = layer();
    l.store_kv(vec![1], vec![11], 0, cat).unwrap();
    let fail = |_: &Vec<u32>, _: &Vec<u32>| Err("shapes differ");
    assert_eq!(l.store_kv(vec![2], vec![12], 1, fail).err(), Some("shapes differ"));
    assert_eq!(l.kv_cache, Some((vec![1], vec![11])));
}
