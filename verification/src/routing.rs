//! Routing of token rows to the experts of a mixture-of-experts layer.
//!
//! Routing weights are handled as the bit patterns of 32-bit floats.

use vstd::prelude::*;

verus! {

/// Place of a float among all floats in their total order, from its bit pattern: from the negative
/// NaNs over minus infinity, the negative numbers, minus zero, zero, the positive numbers and
/// infinity to the positive NaNs.
pub open spec fn order_key(bits: u32) -> int {
    if bits < 0x8000_0000 {
        bits as int
    } else {
        -1 - (bits - 0x8000_0000)
    }
}

/// Place of a float in the total order of floats.
pub fn total_order_key(bits: u32) -> (r: i64)
    ensures
        r == order_key(bits),
        bits < 0x8000_0000 ==> r == bits,
        bits >= 0x8000_0000 ==> r == 0x7fff_ffff - bits,
{
    if bits < 0x8000_0000 {
        bits as i64
    } else {
        -1 - ((bits - 0x8000_0000) as i64)
    }
}

/// Different bit patterns have different places.
pub proof fn law_order_is_total(a: u32, b: u32)
    ensures
        order_key(a) == order_key(b) <==> a == b,
{
}

/// The order of places is the numeric order of floats: without the sign bit a larger pattern is a
/// larger float, with it a smaller one, and everything with the sign bit comes first.
pub proof fn law_order_follows_the_floats(a: u32, b: u32)
    ensures
        a < 0x8000_0000 && b < 0x8000_0000 ==> (order_key(a) < order_key(b) <==> a < b),
        a >= 0x8000_0000 && b >= 0x8000_0000 ==> (order_key(a) < order_key(b) <==> a > b),
        a >= 0x8000_0000 && b < 0x8000_0000 ==> order_key(a) < order_key(b),
{
}

/// How many experts a row of weights ranks: its length, as far as expert numbers go.
pub open spec fn candidates(row: Seq<u32>) -> int {
    (row.len() as usize) as u32 as int
}

/// Candidates have weights in the row.
proof fn lemma_candidates_are_there(row: Seq<u32>)
    requires
        row.len() <= usize::MAX,
    ensures
        0 <= candidates(row) <= row.len(),
{
    let len = row.len() as usize;
    assert(len as u32 <= len) by (bit_vector);
}

/// Expert `a` comes before expert `b`: its weight is larger, or as large and its number smaller.
pub open spec fn ranks_before(row: Seq<u32>, a: u32, b: u32) -> bool {
    ||| order_key(row[a as int]) > order_key(row[b as int])
    ||| order_key(row[a as int]) == order_key(row[b as int]) && a < b
}

/// `order` is in ranking order and holds only candidates.
pub open spec fn is_ranked(row: Seq<u32>, order: Seq<u32>) -> bool {
    &&& forall|i: int| 0 <= i < order.len() ==> (#[trigger] order[i]) < candidates(row)
    &&& forall|i: int, j: int|
        0 <= i < j < order.len() ==> ranks_before(row, #[trigger] order[i], #[trigger] order[j])
}

/// `order` is the `count` best candidates of the row, best first: whoever is left out comes after
/// all of them. If there are fewer candidates than `count`, it is all of them.
pub open spec fn is_top(row: Seq<u32>, count: int, order: Seq<u32>) -> bool {
    &&& is_ranked(row, order)
    &&& order.len() == (if count < candidates(row) {
        count
    } else {
        candidates(row)
    })
    &&& forall|e: u32, i: int|
        e < candidates(row) && !order.contains(e) && 0 <= i < order.len()
            ==> #[trigger] ranks_before(
            row,
            order[i],
            e,
        )
}

/// All candidates of a row in ranking order.
fn rank(row: &Vec<u32>) -> (r: Vec<u32>)
    ensures
        is_ranked(row@, r@),
        r@.len() == candidates(row@),
        forall|e: u32| e < candidates(row@) ==> r@.contains(e),
{
    let len: usize = row.len();
    let n: u32 = len as u32;
    proof {
        lemma_candidates_are_there(row@);
    }
    let mut order: Vec<u32> = Vec::new();
    let mut e: u32 = 0;
    while e < n
        invariant
            n == candidates(row@),
            n <= row@.len(),
            e <= n,
            order@.len() == e,
            is_ranked(row@, order@),
            forall|i: int| 0 <= i < order@.len() ==> (#[trigger] order@[i]) < e,
            forall|x: u32| x < e ==> order@.contains(x),
        decreases n - e,
    {
        let key: i64 = total_order_key(row[e as usize]);
        let mut at: usize = order.len();
        while at > 0 && total_order_key(row[order[at - 1] as usize]) < key
            invariant
                n == candidates(row@),
                n <= row@.len(),
                e < n,
                order@.len() == e,
                at <= order@.len(),
                key == order_key(row@[e as int]),
                forall|i: int| 0 <= i < order@.len() ==> (#[trigger] order@[i]) < e,
                forall|i: int|
                    at <= i < order@.len() ==> order_key(row@[(#[trigger] order@[i]) as int]) < key,
            decreases at,
        {
            at -= 1;
        }
        let ghost before = order@;
        order.insert(at, e);
        proof {
            assert forall|i: int, j: int| 0 <= i < j < order@.len() implies ranks_before(
                row@,
                #[trigger] order@[i],
                #[trigger] order@[j],
            ) by {
                if i < at && j == at {
                    if i < at - 1 {
                        assert(ranks_before(row@, before[i], before[at - 1]));
                    }
                    assert(order@[i] == before[i]);
                } else if i == at {
                    assert(order@[j] == before[j - 1]);
                } else {
                    let i0 = if i < at { i } else { i - 1 };
                    let j0 = if j < at { j } else { j - 1 };
                    assert(order@[i] == before[i0] && order@[j] == before[j0]);
                }
            }
            assert forall|x: u32| x < e + 1 implies order@.contains(x) by {
                if x == e {
                    assert(order@[at as int] == e);
                } else {
                    let i = before.index_of(x);
                    assert(before.contains(x));
                    assert(before[i] == x);
                    if i < at {
                        assert(order@[i] == x);
                    } else {
                        assert(order@[i + 1] == x);
                    }
                }
            }
        }
        e += 1;
    }
    order
}

/// The `count` best experts of a row of weights, best first.
pub fn top_experts(row: &Vec<u32>, count: usize) -> (r: Vec<u32>)
    ensures
        is_top(row@, count as int, r@),
        r@.no_duplicates(),
        row@.len() <= u32::MAX ==> {
            &&& r@.len() == (if count < row@.len() {
                count as int
            } else {
                row@.len() as int
            })
            &&& forall|i: int| 0 <= i < r@.len() ==> (#[trigger] r@[i]) < row@.len()
        },
        forall|i: int, j: int|
            0 <= i < j < r@.len() ==> {
                let a = row@[#[trigger] r@[i] as int];
                let b = row@[#[trigger] r@[j] as int];
                ||| a == b && r@[i] < r@[j]
                ||| a < 0x8000_0000 && (b >= 0x8000_0000 || a > b)
                ||| a >= 0x8000_0000 && b >= 0x8000_0000 && a < b
            },
        row@.len() <= u32::MAX ==> forall|e: u32, i: int|
            #![trigger r@.contains(e), r@[i]]
            e < row@.len() && !r@.contains(e) && 0 <= i < r@.len() ==> {
                let a = row@[r@[i] as int];
                let b = row@[e as int];
                ||| a == b && r@[i] < e
                ||| a < 0x8000_0000 && (b >= 0x8000_0000 || a > b)
                ||| a >= 0x8000_0000 && b >= 0x8000_0000 && a < b
            },
{
    let mut order = rank(row);
    let ghost full = order@;
    if count < order.len() {
        order.truncate(count);
    }
    proof {
        assert forall|e: u32, i: int|
            e < candidates(row@) && !order@.contains(e) && 0 <= i
                < order@.len() implies #[trigger] ranks_before(row@, order@[i], e) by {
            assert(full.contains(e));
            let j = full.index_of(e);
            assert(full[j] == e);
            if j < order@.len() {
                assert(order@[j] == e);
            }
            assert(order@[i] == full[i]);
        }
        assert(row@.len() == row.len());
        law_candidates_are_the_row(row@);
        law_selected_experts_are_distinct(row@, count as int, order@);
        law_best_come_first(row@, count as int, order@);
    }
    order
}

/// Every expert that the row selects is one of the layer's `n_experts`.
pub open spec fn selects_within(row: Seq<u32>, count: int, n_experts: int) -> bool {
    forall|order: Seq<u32>, i: int|
        #![trigger is_top(row, count, order), order[i]]
        is_top(row, count, order) && 0 <= i < order.len() ==> order[i] < n_experts
}

/// The list of selected experts holds expert `e`.
pub open spec fn selects(picked: Seq<u32>, e: int) -> bool {
    exists|i: int| 0 <= i < picked.len() && #[trigger] picked[i] == e
}

/// The rows that selected expert `e`, in increasing order.
pub open spec fn rows_of(chosen: Seq<Seq<u32>>, e: int) -> Seq<u32>
    decreases chosen.len(),
{
    if chosen.len() == 0 {
        Seq::empty()
    } else if selects(chosen.last(), e) {
        rows_of(chosen.drop_last(), e).push((chosen.len() - 1) as u32)
    } else {
        rows_of(chosen.drop_last(), e)
    }
}

/// `sum` is what the weights of the picked experts come to when they are added up by `plus`, one
/// after the other from zero on.
pub open spec fn is_sum<A: Fn(u32, u32) -> u32>(
    plus: A,
    row: Seq<u32>,
    picked: Seq<u32>,
    sum: u32,
) -> bool
    decreases picked.len(),
{
    if picked.len() == 0 {
        sum == 0
    } else {
        exists|front: u32|
            {
                &&& is_sum(plus, row, picked.drop_last(), front)
                &&& #[trigger] call_ensures(plus, (front, row[picked.last() as int]), sum)
            }
    }
}

/// `shares` are the shares of expert `e`, one for each row that selected it, in the order of the
/// rows: the row's weight for the expert, divided by `divide` by the row's sum.
pub open spec fn are_shares<D: Fn(u32, u32) -> u32>(
    divide: D,
    weights: Seq<Seq<u32>>,
    chosen: Seq<Seq<u32>>,
    sums: Seq<u32>,
    e: int,
    shares: Seq<u32>,
) -> bool
    decreases chosen.len(),
{
    if chosen.len() == 0 {
        shares.len() == 0
    } else if selects(chosen.last(), e) {
        let t = chosen.len() - 1;
        &&& shares.len() > 0
        &&& call_ensures(divide, (weights[t][e], sums[t]), shares.last())
        &&& are_shares(divide, weights, chosen.drop_last(), sums, e, shares.drop_last())
    } else {
        are_shares(divide, weights, chosen.drop_last(), sums, e, shares)
    }
}

/// Vectors of vectors as sequences of sequences.
pub open spec fn nested(v: Seq<Vec<u32>>) -> Seq<Seq<u32>> {
    v.map_values(|c: Vec<u32>| c@)
}

/// Which experts work on which rows, and what share of each row is theirs.
pub struct Routing {
    /// For each row the experts that it selects, best first.
    pub chosen: Vec<Vec<u32>>,
    /// For each row the sum of its weights for the experts that it selects.
    pub sums: Vec<u32>,
    /// For each expert the rows that select it, in increasing order.
    pub top_x: Vec<Vec<u32>>,
    /// For each expert its shares of these rows.
    pub selected_rws: Vec<Vec<u32>>,
}

/// `r` routes each row of weights to its `n_expert_used` best experts out of `n_experts`, with their
/// shares of it. `plus` and `divide` are the sum and the quotient of floats.
pub open spec fn is_routing<A: Fn(u32, u32) -> u32, D: Fn(u32, u32) -> u32>(
    r: Routing,
    weights: Seq<Seq<u32>>,
    n_experts: usize,
    n_expert_used: usize,
    plus: A,
    divide: D,
) -> bool {
    let chosen = nested(r.chosen@);
    &&& chosen.len() == weights.len()
    &&& r.sums@.len() == weights.len()
    &&& forall|t: int|
        0 <= t < weights.len() ==> is_top(#[trigger] weights[t], n_expert_used as int, chosen[t])
    &&& forall|t: int|
        0 <= t < weights.len() ==> is_sum(plus, #[trigger] weights[t], chosen[t], r.sums@[t])
    &&& r.top_x@.len() == n_experts
    &&& forall|e: int| 0 <= e < n_experts ==> (#[trigger] r.top_x@[e])@ == rows_of(chosen, e)
    &&& r.selected_rws@.len() == n_experts
    &&& forall|e: int|
        0 <= e < n_experts ==> are_shares(
            divide,
            weights,
            chosen,
            r.sums@,
            e,
            (#[trigger] r.selected_rws@[e])@,
        )
}

/// Every row of weights selects only experts that are there.
pub open spec fn all_select_within(
    weights: Seq<Seq<u32>>,
    n_experts: usize,
    n_expert_used: usize,
) -> bool {
    forall|t: int|
        0 <= t < weights.len() ==> selects_within(
            #[trigger] weights[t],
            n_expert_used as int,
            n_experts as int,
        )
}

/// Whether every row of weights selects only experts that are there.
pub fn rows_select_within(weights: &Vec<Vec<u32>>, n_experts: usize, n_expert_used: usize) -> (r:
    bool)
    ensures
        r == all_select_within(nested(weights@), n_experts, n_expert_used),
        r <==> forall|t: int, order: Seq<u32>, i: int|
            #![trigger is_top(weights@[t]@, n_expert_used as int, order), order[i]]
            0 <= t < weights@.len() && is_top(weights@[t]@, n_expert_used as int, order) && 0 <= i
                < order.len() ==> order[i] < n_experts,
{
    let mut t: usize = 0;
    while t < weights.len()
        invariant
            t <= weights@.len(),
            forall|u: int|
                0 <= u < t ==> selects_within(
                    #[trigger] nested(weights@)[u],
                    n_expert_used as int,
                    n_experts as int,
                ),
        decreases weights@.len() - t,
    {
        let ghost row = nested(weights@)[t as int];
        let picked = top_experts(&weights[t], n_expert_used);
        let mut i: usize = 0;
        while i < picked.len()
            invariant
                t < weights@.len(),
                row == nested(weights@)[t as int],
                is_top(row, n_expert_used as int, picked@),
                i <= picked@.len(),
                forall|j: int| 0 <= j < i ==> (#[trigger] picked@[j]) < n_experts,
            decreases picked@.len() - i,
        {
            if picked[i] as usize >= n_experts {
                assert(!selects_within(row, n_expert_used as int, n_experts as int));
                return false;
            }
            i += 1;
        }
        assert forall|order: Seq<u32>, j: int|
            #![trigger is_top(row, n_expert_used as int, order), order[j]]
            is_top(row, n_expert_used as int, order) && 0 <= j < order.len() implies order[j]
            < n_experts by {
            law_selection_is_determined(row, n_expert_used as int, order, picked@);
        }
        t += 1;
    }
    assert forall|u: int, order: Seq<u32>, i: int|
        #![trigger is_top(weights@[u]@, n_expert_used as int, order), order[i]]
        0 <= u < weights@.len() && is_top(weights@[u]@, n_expert_used as int, order) && 0 <= i
            < order.len() implies order[i] < n_experts by {
        assert(nested(weights@)[u] == weights@[u]@);
    }
    true
}

/// Adds up a row's weights for the picked experts, in their order.
fn sum_weights<A: Fn(u32, u32) -> u32>(row: &Vec<u32>, picked: &Vec<u32>, plus: &A) -> (r: u32)
    requires
        forall|a: u32, b: u32| #[trigger] call_requires(*plus, (a, b)),
        forall|j: int| 0 <= j < picked@.len() ==> (#[trigger] picked@[j]) < row@.len(),
    ensures
        is_sum(*plus, row@, picked@, r),
{
    let mut sum: u32 = 0;
    let mut i: usize = 0;
    while i < picked.len()
        invariant
            forall|a: u32, b: u32| #[trigger] call_requires(*plus, (a, b)),
            forall|j: int| 0 <= j < picked@.len() ==> (#[trigger] picked@[j]) < row@.len(),
            i <= picked@.len(),
            is_sum(*plus, row@, picked@.take(i as int), sum),
        decreases picked@.len() - i,
    {
        let next: u32 = plus(sum, row[picked[i] as usize]);
        proof {
            let taken = picked@.take(i + 1);
            assert(taken.drop_last() =~= picked@.take(i as int));
            assert(taken.last() == picked@[i as int]);
        }
        sum = next;
        i += 1;
    }
    assert(picked@.take(i as int) =~= picked@);
    sum
}

/// What each expert has when the first rows are routed: the rows and the shares of them.
spec fn routed<D: Fn(u32, u32) -> u32>(
    divide: D,
    weights: Seq<Seq<u32>>,
    chosen: Seq<Seq<u32>>,
    sums: Seq<u32>,
    top_x: Seq<Vec<u32>>,
    selected_rws: Seq<Vec<u32>>,
) -> bool {
    &&& top_x.len() == selected_rws.len()
    &&& forall|e: int| 0 <= e < top_x.len() ==> (#[trigger] top_x[e])@ == rows_of(chosen, e)
    &&& forall|e: int|
        0 <= e < selected_rws.len() ==> are_shares(
            divide,
            weights,
            chosen,
            sums,
            e,
            (#[trigger] selected_rws[e])@,
        )
}

/// Shares do not depend on the sums of rows that are not routed yet.
proof fn lemma_shares_of_more_sums<D: Fn(u32, u32) -> u32>(
    divide: D,
    weights: Seq<Seq<u32>>,
    chosen: Seq<Seq<u32>>,
    sums: Seq<u32>,
    more: Seq<u32>,
    e: int,
    shares: Seq<u32>,
)
    requires
        are_shares(divide, weights, chosen, sums, e, shares),
        chosen.len() <= sums.len() <= more.len(),
        forall|t: int| 0 <= t < sums.len() ==> sums[t] == more[t],
    ensures
        are_shares(divide, weights, chosen, more, e, shares),
    decreases chosen.len(),
{
    if chosen.len() > 0 {
        let front = chosen.drop_last();
        if selects(chosen.last(), e) {
            lemma_shares_of_more_sums(divide, weights, front, sums, more, e, shares.drop_last());
        } else {
            lemma_shares_of_more_sums(divide, weights, front, sums, more, e, shares);
        }
    }
}

/// Adds a row to the rows of the experts that it selects, and the shares of it to theirs.
fn assign_row<D: Fn(u32, u32) -> u32>(
    row: &Vec<u32>,
    row_idx: usize,
    picked: &Vec<u32>,
    sum: u32,
    divide: &D,
    top_x: &mut Vec<Vec<u32>>,
    selected_rws: &mut Vec<Vec<u32>>,
)
    requires
        forall|a: u32, b: u32| #[trigger] call_requires(*divide, (a, b)),
        old(top_x)@.len() == old(selected_rws)@.len(),
        picked@.no_duplicates(),
        forall|j: int|
            0 <= j < picked@.len() ==> (#[trigger] picked@[j]) < row@.len() && picked@[j]
                < old(top_x)@.len(),
    ensures
        final(top_x)@.len() == old(top_x)@.len(),
        final(selected_rws)@.len() == old(selected_rws)@.len(),
        forall|e: int|
            #![trigger final(top_x)@[e]]
            #![trigger final(selected_rws)@[e]]
            0 <= e < old(top_x)@.len() ==> if selects(picked@, e) {
                &&& final(top_x)@[e]@ == old(top_x)@[e]@.push(row_idx as u32)
                &&& final(selected_rws)@[e]@.len() > 0
                &&& final(selected_rws)@[e]@.drop_last() == old(selected_rws)@[e]@
                &&& call_ensures(*divide, (row@[e], sum), final(selected_rws)@[e]@.last())
            } else {
                &&& final(top_x)@[e] == old(top_x)@[e]
                &&& final(selected_rws)@[e] == old(selected_rws)@[e]
            },
{
    let ghost rows0 = top_x@;
    let ghost shares0 = selected_rws@;
    let mut i: usize = 0;
    assert(picked@.take(0) =~= Seq::<u32>::empty());
    while i < picked.len()
        invariant
            forall|a: u32, b: u32| #[trigger] call_requires(*divide, (a, b)),
            rows0.len() == shares0.len(),
            top_x@.len() == rows0.len(),
            selected_rws@.len() == shares0.len(),
            picked@.no_duplicates(),
            forall|j: int|
                0 <= j < picked@.len() ==> (#[trigger] picked@[j]) < row@.len() && picked@[j]
                    < rows0.len(),
            i <= picked@.len(),
            forall|e: int|
                #![trigger top_x@[e]]
                #![trigger selected_rws@[e]]
                0 <= e < rows0.len() ==> if selects(picked@.take(i as int), e) {
                    &&& top_x@[e]@ == rows0[e]@.push(row_idx as u32)
                    &&& selected_rws@[e]@.len() > 0
                    &&& selected_rws@[e]@.drop_last() == shares0[e]@
                    &&& call_ensures(*divide, (row@[e], sum), selected_rws@[e]@.last())
                } else {
                    &&& top_x@[e] == rows0[e]
                    &&& selected_rws@[e] == shares0[e]
                },
        decreases picked@.len() - i,
    {
        let expert_idx: usize = picked[i] as usize;
        let ghost rows = top_x@;
        let ghost shares = selected_rws@;
        let share: u32 = divide(row[expert_idx], sum);
        top_x[expert_idx].push(row_idx as u32);
        selected_rws[expert_idx].push(share);
        proof {
            let before = picked@.take(i as int);
            let taken = picked@.take(i + 1);
            assert(taken[i as int] == expert_idx);
            assert(selects(taken, expert_idx as int));
            assert forall|j: int| 0 <= j < before.len() implies before[j] != expert_idx by {
                assert(before[j] == picked@[j]);
            }
            assert(!selects(before, expert_idx as int));
            assert(rows[expert_idx as int] == rows0[expert_idx as int]);
            assert(selected_rws@[expert_idx as int]@.drop_last()
                =~= shares[expert_idx as int]@);
            assert forall|e: int| e != expert_idx implies selects(taken, e) == selects(
                before,
                e,
            ) by {
                if selects(taken, e) {
                    let j = choose|j: int| 0 <= j < taken.len() && #[trigger] taken[j] == e;
                    assert(before[j] == e);
                }
                if selects(before, e) {
                    let j = choose|j: int| 0 <= j < before.len() && #[trigger] before[j] == e;
                    assert(taken[j] == e);
                }
            }
        }
        i += 1;
    }
    assert(picked@.take(i as int) =~= picked@);
}

/// As many empty vectors as there are experts.
fn empty_lists(n_experts: usize) -> (r: Vec<Vec<u32>>)
    ensures
        r@.len() == n_experts,
        forall|e: int| 0 <= e < n_experts ==> (#[trigger] r@[e])@ == Seq::<u32>::empty(),
{
    let mut lists: Vec<Vec<u32>> = Vec::new();
    while lists.len() < n_experts
        invariant
            lists@.len() <= n_experts,
            forall|e: int|
                0 <= e < lists@.len() ==> (#[trigger] lists@[e])@ == Seq::<u32>::empty(),
        decreases n_experts - lists@.len(),
    {
        lists.push(Vec::new());
    }
    lists
}

/// Routes each row of weights to its `n_expert_used` best experts, each with a share of the row:
/// its weight, divided by the sum of the weights of those that are selected. `plus` and `divide` are
/// the sum and the quotient of floats.
pub fn route<A: Fn(u32, u32) -> u32, D: Fn(u32, u32) -> u32>(
    weights: &Vec<Vec<u32>>,
    n_experts: usize,
    n_expert_used: usize,
    plus: A,
    divide: D,
) -> (r: Routing)
    requires
        all_select_within(nested(weights@), n_experts, n_expert_used),
        forall|a: u32, b: u32| #[trigger] call_requires(plus, (a, b)),
        forall|a: u32, b: u32| #[trigger] call_requires(divide, (a, b)),
    ensures
        is_routing(r, nested(weights@), n_experts, n_expert_used, plus, divide),
{
    let mut top_x = empty_lists(n_experts);
    let mut selected_rws = empty_lists(n_experts);
    let mut chosen: Vec<Vec<u32>> = Vec::new();
    let mut sums: Vec<u32> = Vec::new();
    while chosen.len() < weights.len()
        invariant
            all_select_within(nested(weights@), n_experts, n_expert_used),
            forall|a: u32, b: u32| #[trigger] call_requires(plus, (a, b)),
            forall|a: u32, b: u32| #[trigger] call_requires(divide, (a, b)),
            chosen@.len() <= weights@.len(),
            sums@.len() == chosen@.len(),
            forall|t: int|
                0 <= t < chosen@.len() ==> is_top(
                    #[trigger] nested(weights@)[t],
                    n_expert_used as int,
                    nested(chosen@)[t],
                ) && is_sum(plus, nested(weights@)[t], nested(chosen@)[t], sums@[t]),
            top_x@.len() == n_experts,
            routed(divide, nested(weights@), nested(chosen@), sums@, top_x@, selected_rws@),
        decreases weights@.len() - chosen@.len(),
    {
        let row_idx: usize = chosen.len();
        let row = &weights[row_idx];
        let picked = top_experts(row, n_expert_used);
        proof {
            law_selected_experts_are_distinct(row@, n_expert_used as int, picked@);
            assert(row@.len() == row.len());
            lemma_candidates_are_there(row@);
            assert(nested(weights@)[row_idx as int] == row@);
            assert(selects_within(row@, n_expert_used as int, n_experts as int));
        }
        let sum: u32 = sum_weights(row, &picked, &plus);
        let ghost rows = top_x@;
        let ghost shares = selected_rws@;
        let ghost before = nested(chosen@);
        let ghost sums_before = sums@;
        assign_row(row, row_idx, &picked, sum, &divide, &mut top_x, &mut selected_rws);
        chosen.push(picked);
        sums.push(sum);
        proof {
            let next = nested(chosen@);
            assert(next.drop_last() =~= before);
            assert(next.last() == picked@);
            assert(nested(weights@)[row_idx as int] == row@);
            assert forall|e: int| 0 <= e < n_experts implies (#[trigger] top_x@[e])@ == rows_of(
                next,
                e,
            ) by {
                assert(rows[e]@ == rows_of(before, e));
            }
            assert forall|e: int| 0 <= e < n_experts implies are_shares(
                divide,
                nested(weights@),
                next,
                sums@,
                e,
                (#[trigger] selected_rws@[e])@,
            ) by {
                assert(are_shares(divide, nested(weights@), before, sums_before, e, shares[e]@));
                lemma_shares_of_more_sums(
                    divide,
                    nested(weights@),
                    before,
                    sums_before,
                    sums@,
                    e,
                    shares[e]@,
                );
            }
        }
    }
    Routing { chosen, sums, top_x, selected_rws }
}

/// `active` are the experts that have any row to work on, in increasing order.
pub open spec fn are_active(active: Seq<usize>, top_x: Seq<Vec<u32>>) -> bool {
    &&& forall|i: int, j: int|
        0 <= i < j < active.len() ==> #[trigger] active[i] < #[trigger] active[j]
    &&& forall|e: usize|
        #![trigger active.contains(e)]
        active.contains(e) <==> e < top_x.len() && top_x[e as int]@.len() > 0
}

/// Every row of every expert is worked on: an expert with a row is active, once, and one without is
/// not.
pub proof fn law_no_row_is_left_out(
    active: Seq<usize>,
    top_x: Seq<Vec<u32>>,
    e: usize,
    t: u32,
)
    requires
        are_active(active, top_x),
        e < top_x.len(),
    ensures
        top_x[e as int]@.contains(t) ==> active.contains(e),
        top_x[e as int]@.len() == 0 ==> !active.contains(e),
        active.no_duplicates(),
{
    assert forall|i: int, j: int| 0 <= i < active.len() && 0 <= j < active.len() && i
        != j implies active[i] != active[j] by {
        if i < j {
            assert(active[i] < active[j]);
        } else {
            assert(active[j] < active[i]);
        }
    }
}

/// The experts that have any row to work on, in increasing order.
pub fn active_experts(top_x: &Vec<Vec<u32>>) -> (r: Vec<usize>)
    ensures
        forall|i: int, j: int| 0 <= i < j < r@.len() ==> #[trigger] r@[i] < #[trigger] r@[j],
        forall|e: usize|
            #![trigger r@.contains(e)]
            r@.contains(e) <==> e < top_x@.len() && top_x@[e as int]@.len() > 0,
        are_active(r@, top_x@),
{
    let mut active: Vec<usize> = Vec::new();
    let mut e: usize = 0;
    while e < top_x.len()
        invariant
            e <= top_x@.len(),
            forall|i: int| 0 <= i < active@.len() ==> (#[trigger] active@[i]) < e,
            forall|i: int, j: int|
                0 <= i < j < active@.len() ==> #[trigger] active@[i] < #[trigger] active@[j],
            forall|x: usize|
                #![trigger active@.contains(x)]
                active@.contains(x) <==> x < e && top_x@[x as int]@.len() > 0,
        decreases top_x@.len() - e,
    {
        if top_x[e].len() > 0 {
            let ghost before = active@;
            active.push(e);
            proof {
                assert(active@[before.len() as int] == e);
                assert forall|x: usize| #![trigger active@.contains(x)] active@.contains(x)
                    <==> x < e + 1 && top_x@[x as int]@.len() > 0 by {
                    if active@.contains(x) && x != e {
                        let i = active@.index_of(x);
                        assert(before[i] == x);
                        assert(before.contains(x));
                    }
                    if before.contains(x) {
                        let i = before.index_of(x);
                        assert(active@[i] == x);
                    }
                }
            }
        }
        e += 1;
    }
    active
}

/// A row's selection is determined by its weights: there is only one list of the best.
pub proof fn law_selection_is_determined(row: Seq<u32>, count: int, s1: Seq<u32>, s2: Seq<u32>)
    requires
        is_top(row, count, s1),
        is_top(row, count, s2),
    ensures
        s1 == s2,
{
    assert(s1.len() == s2.len());
    assert forall|i: int| 0 <= i < s1.len() implies s1[i] == s2[i] by {
        lemma_same_choice(row, count, s1, s2, i);
    }
    assert(s1 =~= s2);
}

/// Two lists of the best agree up to and at position `i`.
proof fn lemma_same_choice(row: Seq<u32>, count: int, s1: Seq<u32>, s2: Seq<u32>, i: int)
    requires
        is_top(row, count, s1),
        is_top(row, count, s2),
        0 <= i < s1.len(),
    ensures
        s1[i] == s2[i],
    decreases i,
{
    assert forall|j: int| 0 <= j < i implies s1[j] == s2[j] by {
        lemma_same_choice(row, count, s1, s2, j);
    }
    if s1[i] != s2[i] {
        lemma_later_choice(row, count, s1, s2, i);
        lemma_later_choice(row, count, s2, s1, i);
    }
}

/// Where two lists of the best first differ, the choice of the second ranks before that of the
/// first.
proof fn lemma_later_choice(row: Seq<u32>, count: int, s1: Seq<u32>, s2: Seq<u32>, i: int)
    requires
        is_top(row, count, s1),
        is_top(row, count, s2),
        0 <= i < s1.len(),
        s1[i] != s2[i],
        forall|j: int| 0 <= j < i ==> s1[j] == s2[j],
    ensures
        ranks_before(row, s2[i], s1[i]),
{
    let a = s1[i];
    if s2.contains(a) {
        let j = s2.index_of(a);
        assert(s2[j] == a);
        if j < i {
            assert(ranks_before(row, s1[j], s1[i]));
        }
    }
}

/// A row of no more weights than there are experts selects none that is not there.
pub proof fn law_short_rows_select_within(row: Seq<u32>, count: int, n_experts: usize)
    requires
        row.len() <= n_experts,
    ensures
        selects_within(row, count, n_experts as int),
{
    lemma_candidates_are_there(row);
}

/// A row never selects an expert twice.
pub proof fn law_selected_experts_are_distinct(row: Seq<u32>, count: int, order: Seq<u32>)
    requires
        is_top(row, count, order),
    ensures
        order.no_duplicates(),
{
    assert forall|i: int, j: int| 0 <= i < order.len() && 0 <= j < order.len() && i
        != j implies order[i] != order[j] by {
        if i < j {
            assert(ranks_before(row, order[i], order[j]));
        } else {
            assert(ranks_before(row, order[j], order[i]));
        }
    }
}

/// `rows` is in increasing order, and every entry is below `count`.
pub open spec fn is_increasing_below(rows: Seq<u32>, count: int) -> bool {
    &&& forall|i: int, j: int| 0 <= i < j < rows.len() ==> #[trigger] rows[i] < #[trigger] rows[j]
    &&& forall|i: int| 0 <= i < rows.len() ==> #[trigger] rows[i] < count
}

/// The rows that an expert works on are rows that there are, in increasing order, each once.
pub proof fn law_rows_are_increasing(chosen: Seq<Seq<u32>>, e: int)
    requires
        chosen.len() <= u32::MAX,
    ensures
        is_increasing_below(rows_of(chosen, e), chosen.len() as int),
    decreases chosen.len(),
{
    if chosen.len() > 0 {
        law_rows_are_increasing(chosen.drop_last(), e);
        let front = rows_of(chosen.drop_last(), e);
        let rows = rows_of(chosen, e);
        assert(rows == front || rows == front.push((chosen.len() - 1) as u32));
        assert(is_increasing_below(front.push((chosen.len() - 1) as u32), chosen.len() as int));
        assert(is_increasing_below(front, chosen.len() as int));
    }
}

/// An expert works on a row exactly if the row selects it.
pub proof fn law_experts_work_on_their_rows(chosen: Seq<Seq<u32>>, e: u32, t: u32)
    requires
        chosen.len() <= u32::MAX,
        t < chosen.len(),
    ensures
        rows_of(chosen, e as int).contains(t) <==> chosen[t as int].contains(e),
    decreases chosen.len(),
{
    let front = chosen.drop_last();
    let rows = rows_of(front, e as int);
    let all = rows_of(chosen, e as int);
    let last = (chosen.len() - 1) as u32;
    assert(all == rows || all == rows.push(last));
    law_rows_are_increasing(front, e as int);
    if t < front.len() {
        law_experts_work_on_their_rows(front, e, t);
        assert(front[t as int] == chosen[t as int]);
        if rows.contains(t) {
            let i = rows.index_of(t);
            assert(all[i] == t);
        }
        if all.contains(t) {
            let i = all.index_of(t);
            assert(all[i] == t);
            assert(rows[i] == t);
        }
    } else {
        let lst = chosen.last();
        assert(chosen[t as int] == lst);
        if lst.contains(e) {
            let i = lst.index_of(e);
            assert(lst[i] == e);
            assert(all == rows.push(last));
            assert(all[rows.len() as int] == t);
        }
        if all.contains(t) {
            let i = all.index_of(t);
            assert(all[i] == t);
            if i < rows.len() {
                assert(rows[i] == t);
            }
        }
    }
}

/// An expert has one share for each row that it works on, in the same order: the row's weight for
/// it, divided by the row's sum.
pub proof fn law_shares_go_with_rows<D: Fn(u32, u32) -> u32>(
    divide: D,
    weights: Seq<Seq<u32>>,
    chosen: Seq<Seq<u32>>,
    sums: Seq<u32>,
    e: int,
    shares: Seq<u32>,
)
    requires
        chosen.len() <= u32::MAX,
        are_shares(divide, weights, chosen, sums, e, shares),
    ensures
        shares.len() == rows_of(chosen, e).len(),
        forall|i: int|
            0 <= i < shares.len() ==> {
                let t = rows_of(chosen, e)[i] as int;
                call_ensures(divide, (weights[t][e], sums[t]), #[trigger] shares[i])
            },
    decreases chosen.len(),
{
    if chosen.len() > 0 {
        let front = chosen.drop_last();
        if selects(chosen.last(), e) {
            let rest = shares.drop_last();
            law_shares_go_with_rows(divide, weights, front, sums, e, rest);
            assert forall|i: int| 0 <= i < shares.len() implies {
                let t = rows_of(chosen, e)[i] as int;
                call_ensures(divide, (weights[t][e], sums[t]), #[trigger] shares[i])
            } by {
                if i < rest.len() {
                    assert(rest[i] == shares[i]);
                    assert(rows_of(front, e)[i] == rows_of(chosen, e)[i]);
                }
            }
        } else {
            law_shares_go_with_rows(divide, weights, front, sums, e, shares);
        }
    }
}


/// A row ranks all the experts that it has weights for, up to as many as can be numbered; numbers
/// beyond that wrap around.
pub proof fn law_candidates_are_the_row(row: Seq<u32>)
    requires
        row.len() <= usize::MAX,
    ensures
        row.len() <= u32::MAX ==> candidates(row) == row.len(),
        candidates(row) == row.len() % 0x1_0000_0000,
{
    let len = row.len() as usize;
    let wide = len as u64;
    assert(len as u32 == (len as u64) as u32) by (bit_vector);
    assert(wide as u32 == wide % 0x1_0000_0000) by (bit_vector);
}

/// A selection is in the numeric order of the weights, largest first, equal weights in the order of
/// the experts; and whoever is left out has no larger weight than anyone selected, and a larger
/// number than those with the same weight.
pub proof fn law_best_come_first(row: Seq<u32>, count: int, order: Seq<u32>)
    requires
        is_top(row, count, order),
        row.len() <= usize::MAX,
        count >= 0,
    ensures
        row.len() <= u32::MAX ==> order.len() == (if count < row.len() {
            count
        } else {
            row.len() as int
        }),
        row.len() <= u32::MAX ==> forall|i: int|
            0 <= i < order.len() ==> (#[trigger] order[i]) < row.len(),
        forall|i: int, j: int|
            0 <= i < j < order.len() ==> {
                let a = row[#[trigger] order[i] as int];
                let b = row[#[trigger] order[j] as int];
                ||| a == b && order[i] < order[j]
                ||| a < 0x8000_0000 && (b >= 0x8000_0000 || a > b)
                ||| a >= 0x8000_0000 && b >= 0x8000_0000 && a < b
            },
        row.len() <= u32::MAX ==> forall|e: u32, i: int|
            #![trigger order.contains(e), order[i]]
            e < row.len() && !order.contains(e) && 0 <= i < order.len() ==> {
                let a = row[order[i] as int];
                let b = row[e as int];
                ||| a == b && order[i] < e
                ||| a < 0x8000_0000 && (b >= 0x8000_0000 || a > b)
                ||| a >= 0x8000_0000 && b >= 0x8000_0000 && a < b
            },
{
    law_candidates_are_the_row(row);
    assert forall|i: int, j: int| 0 <= i < j < order.len() implies {
        let a = row[#[trigger] order[i] as int];
        let b = row[#[trigger] order[j] as int];
        ||| a == b && order[i] < order[j]
        ||| a < 0x8000_0000 && (b >= 0x8000_0000 || a > b)
        ||| a >= 0x8000_0000 && b >= 0x8000_0000 && a < b
    } by {
        assert(ranks_before(row, order[i], order[j]));
    }
    if row.len() <= u32::MAX {
        assert forall|e: u32, i: int|
            #![trigger order.contains(e), order[i]]
            e < row.len() && !order.contains(e) && 0 <= i < order.len() implies {
            let a = row[order[i] as int];
            let b = row[e as int];
            ||| a == b && order[i] < e
            ||| a < 0x8000_0000 && (b >= 0x8000_0000 || a > b)
            ||| a >= 0x8000_0000 && b >= 0x8000_0000 && a < b
        } by {
            assert(ranks_before(row, order[i], e));
        }
    }
}

/// A row's sum comes about step by step: from zero on, each selected expert's weight is added to
/// what there is, best first.
pub proof fn law_sums_are_added_up_in_order<A: Fn(u32, u32) -> u32>(
    plus: A,
    row: Seq<u32>,
    picked: Seq<u32>,
    sum: u32,
) -> (partial: Seq<u32>)
    requires
        is_sum(plus, row, picked, sum),
    ensures
        partial.len() == picked.len() + 1,
        partial[0] == 0,
        partial.last() == sum,
        forall|i: int|
            0 <= i < picked.len() ==> call_ensures(
                plus,
                (#[trigger] partial[i], row[picked[i] as int]),
                partial[i + 1],
            ),
    decreases picked.len(),
{
    if picked.len() == 0 {
        seq![0u32]
    } else {
        let front = choose|front: u32|
            {
                &&& is_sum(plus, row, picked.drop_last(), front)
                &&& #[trigger] call_ensures(plus, (front, row[picked.last() as int]), sum)
            };
        let before = law_sums_are_added_up_in_order(plus, row, picked.drop_last(), front);
        let partial = before.push(sum);
        assert forall|i: int| 0 <= i < picked.len() implies call_ensures(
            plus,
            (#[trigger] partial[i], row[picked[i] as int]),
            partial[i + 1],
        ) by {
            if i < picked.len() - 1 {
                assert(partial[i] == before[i] && partial[i + 1] == before[i + 1]);
                assert(picked.drop_last()[i] == picked[i]);
            } else {
                assert(partial[i] == before.last());
                assert(partial[i + 1] == sum);
            }
        }
        partial
    }
}

/// A routing in full. Every row is routed to its best experts and its sum is theirs; an expert has
/// exactly the rows that select it, in increasing order, and with each the row's weight for it
/// divided by the row's sum.
pub proof fn law_routing_is_as_selected<A: Fn(u32, u32) -> u32, D: Fn(u32, u32) -> u32>(
    r: Routing,
    weights: Seq<Seq<u32>>,
    n_experts: usize,
    n_expert_used: usize,
    plus: A,
    divide: D,
    t: u32,
    e: u32,
)
    requires
        is_routing(r, weights, n_experts, n_expert_used, plus, divide),
        weights.len() <= u32::MAX,
        t < weights.len(),
        e < n_experts,
    ensures
        r.chosen@.len() == weights.len() && r.sums@.len() == weights.len(),
        r.top_x@.len() == n_experts && r.selected_rws@.len() == n_experts,
        is_top(weights[t as int], n_expert_used as int, r.chosen@[t as int]@),
        is_sum(plus, weights[t as int], r.chosen@[t as int]@, r.sums@[t as int]),
        r.top_x@[e as int]@.contains(t) <==> r.chosen@[t as int]@.contains(e),
        forall|i: int, j: int|
            0 <= i < j < r.top_x@[e as int]@.len() ==> #[trigger] r.top_x@[e as int]@[i]
                < #[trigger] r.top_x@[e as int]@[j],
        forall|i: int|
            0 <= i < r.top_x@[e as int]@.len() ==> #[trigger] r.top_x@[e as int]@[i]
                < weights.len(),
        r.selected_rws@[e as int]@.len() == r.top_x@[e as int]@.len(),
        forall|i: int|
            0 <= i < r.top_x@[e as int]@.len() ==> {
                let row = r.top_x@[e as int]@[i] as int;
                call_ensures(
                    divide,
                    (weights[row][e as int], r.sums@[row]),
                    #[trigger] r.selected_rws@[e as int]@[i],
                )
            },
{
    let chosen = nested(r.chosen@);
    assert(chosen[t as int] == r.chosen@[t as int]@);
    assert(weights[t as int] == weights[t as int]);
    law_experts_work_on_their_rows(chosen, e, t);
    law_rows_are_increasing(chosen, e as int);
    assert(r.top_x@[e as int]@ == rows_of(chosen, e as int));
    law_shares_go_with_rows(
        divide,
        weights,
        chosen,
        r.sums@,
        e as int,
        r.selected_rws@[e as int]@,
    );
}


/// Vectors of vectors keep their order and what is in them.
pub proof fn law_nested_keeps_rows(v: Seq<Vec<u32>>, i: int)
    requires
        0 <= i < v.len(),
    ensures
        nested(v).len() == v.len(),
        nested(v)[i] == v[i]@,
{
}

} // verus!
