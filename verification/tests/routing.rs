use gguf_quant::routing::{active_experts, route, top_experts, total_order_key};

fn bits(row: &[f32]) -> Vec<u32> {
    row.iter().map(|w| w.to_bits()).collect()
}

fn plus(a: u32, b: u32) -> u32 {
    (f32::from_bits(a) + f32::from_bits(b)).to_bits()
}

fn divide(a: u32, b: u32) -> u32 {
    (f32::from_bits(a) / f32::from_bits(b)).to_bits()
}

#[test]
fn order_agrees_with_total_order_of_floats() {
    let values = [
        -f32::NAN,
        f32::NEG_INFINITY,
        -1.5,
        -0.0,
        0.0,
        f32::MIN_POSITIVE,
        0.25,
        1.0,
        f32::INFINITY,
        f32::NAN,
    ];
    for a in values {
        for b in values {
            assert_eq!(
                total_order_key(a.to_bits()).cmp(&total_order_key(b.to_bits())),
                a.total_cmp(&b)
            );
        }
    }
}

#[test]
fn best_experts_come_first() {
    assert_eq!(top_experts(&bits(&[0.1, 0.4, 0.2, 0.3]), 2), vec![1, 3]);
    assert_eq!(top_experts(&bits(&[0.1, 0.4, 0.2, 0.3]), 4), vec![1, 3, 2, 0]);
}

#[test]
fn ties_go_to_the_smaller_number() {
    assert_eq!(top_experts(&bits(&[0.25, 0.5, 0.25, 0.5]), 3), vec![1, 3, 0]);
}

#[test]
fn selections_end_where_the_experts_do() {
    assert_eq!(top_experts(&bits(&[0.3, 0.7]), 5), vec![1, 0]);
    assert_eq!(top_experts(&bits(&[0.3, 0.7]), 0), Vec::<u32>::new());
    assert_eq!(top_experts(&vec![], 2), Vec::<u32>::new());
}

#[test]
fn selection_agrees_with_a_stable_sort() {
    let row = [0.5f32, 0.125, 0.5, 0.0, -0.0, 0.75, 0.125, 1.0];
    let mut sorted: Vec<u32> = (0..row.len() as u32).collect();
    sorted.sort_by(|&i, &j| row[j as usize].total_cmp(&row[i as usize]));
    assert_eq!(top_experts(&bits(&row), row.len()), sorted);
}

#[test]
fn rows_are_routed_to_their_experts() {
    let weights = vec![
        bits(&[0.6, 0.3, 0.1, 0.0]),
        bits(&[0.0, 0.1, 0.3, 0.6]),
        bits(&[0.3, 0.6, 0.1, 0.0]),
    ];
    let routing = route(&weights, 4, 2, plus, divide);
    assert_eq!(routing.chosen, vec![vec![0, 1], vec![3, 2], vec![1, 0]]);
    assert_eq!(routing.top_x, vec![vec![0, 2], vec![0, 2], vec![1], vec![1]]);
    assert_eq!(active_experts(&routing.top_x), vec![0, 1, 2, 3]);
}

#[test]
fn idle_experts_are_left_out() {
    let weights = vec![bits(&[0.1, 0.8, 0.1]), bits(&[0.2, 0.7, 0.1])];
    let routing = route(&weights, 3, 1, plus, divide);
    assert_eq!(routing.top_x, vec![vec![], vec![0, 1], vec![]]);
    assert_eq!(active_experts(&routing.top_x), vec![1]);
    assert_eq!(active_experts(&route(&vec![], 2, 1, plus, divide).top_x), Vec::<usize>::new());
}

#[test]
fn shares_are_of_the_selected_weights() {
    let weights = vec![
        bits(&[0.5, 0.25, 0.25]),
        bits(&[0.125, 0.125, 0.75]),
        bits(&[0.25, 0.75, 0.0]),
    ];
    let routing = route(&weights, 3, 2, plus, divide);
    assert_eq!(routing.chosen, vec![vec![0, 1], vec![2, 0], vec![1, 0]]);
    assert_eq!(routing.sums, bits(&[0.75, 0.875, 1.0]));
    assert_eq!(routing.top_x, vec![vec![0, 1, 2], vec![0, 2], vec![1]]);
    assert_eq!(
        routing.selected_rws,
        vec![
            bits(&[0.5 / 0.75, 0.125 / 0.875, 0.25]),
            bits(&[0.25 / 0.75, 0.75]),
            bits(&[0.75 / 0.875]),
        ]
    );
}

#[test]
fn weights_are_added_up_best_first() {
    // The sum depends on the order: the best weight swallows the others one by one.
    let row = [1.0f32, 1e-8, 1e8, 1e-8];
    let routing = route(&vec![bits(&row)], 4, 4, plus, divide);
    assert_eq!(routing.chosen, vec![vec![2, 0, 1, 3]]);
    assert_eq!(routing.sums, vec![(((1e8f32 + 1.0) + 1e-8) + 1e-8).to_bits()]);
    let routing = route(&vec![bits(&row)], 4, 0, plus, divide);
    assert_eq!(routing.sums, vec![0]);
    assert_eq!(routing.selected_rws, vec![Vec::<u32>::new(); 4]);
}
