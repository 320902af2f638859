//! Shapes, masks and cache decisions of the attention layers.

use crate::fast_mmvq::ShapeError;
use std::collections::HashMap;
use vstd::arithmetic::div_mod::{lemma_fundamental_div_mod, lemma_fundamental_div_mod_converse};
use vstd::prelude::*;

verus! {

/// Positions that the rotary tables are computed for.
pub const MAX_SEQ_LEN: usize = 4096;

/// Entry of the causal mask for position `i` looking at position `j`. A position may attend to
/// itself and to those before it; `1` marks what it may not attend to.
pub open spec fn causal_entry(i: int, j: int) -> u8 {
    if j > i {
        1
    } else {
        0
    }
}

/// `mask` is the causal mask of `t` positions, row by row.
pub open spec fn is_causal_mask(mask: Seq<u8>, t: int) -> bool {
    &&& mask.len() == t * t
    &&& forall|p: int| 0 <= p < mask.len() ==> #[trigger] mask[p] == causal_entry(p / t, p % t)
}

/// Row `i` and column `j` of the mask stand at `i * t + j`.
pub proof fn law_causal_mask_entries(mask: Seq<u8>, t: int, i: int, j: int)
    requires
        is_causal_mask(mask, t),
        0 <= i < t,
        0 <= j < t,
    ensures
        mask.len() == t * t,
        0 <= i * t + j < mask.len(),
        mask[i * t + j] == 1 <==> j > i,
        mask[i * t + j] == 0 <==> j <= i,
{
    assert(0 <= i * t + j < t * t) by (nonlinear_arith)
        requires
            0 <= i < t,
            0 <= j < t,
    ;
    lemma_fundamental_div_mod_converse(i * t + j, t, i, j);
}

/// The causal mask of `t` positions, row by row.
pub fn causal_mask(t: usize) -> (r: Vec<u8>)
    requires
        t * t <= usize::MAX,
    ensures
        is_causal_mask(r@, t as int),
        r@.len() == t * t,
{
    let mut mask: Vec<u8> = Vec::new();
    let mut i: usize = 0;
    while i < t
        invariant
            i <= t,
            mask@.len() == i * t,
            forall|p: int|
                0 <= p < mask@.len() ==> #[trigger] mask@[p] == causal_entry(
                    p / (t as int),
                    p % (t as int),
                ),
        decreases t - i,
    {
        let mut j: usize = 0;
        while j < t
            invariant
                i < t,
                j <= t,
                mask@.len() == i * t + j,
                forall|p: int|
                    0 <= p < mask@.len() ==> #[trigger] mask@[p] == causal_entry(
                        p / (t as int),
                        p % (t as int),
                    ),
            decreases t - j,
        {
            proof {
                lemma_fundamental_div_mod_converse(i * t + j, t as int, i as int, j as int);
            }
            let entry: u8 = if j > i {
                1
            } else {
                0
            };
            mask.push(entry);
            j += 1;
        }
        assert(i * t + t == (i + 1) * t) by (nonlinear_arith);
        i += 1;
    }
    mask
}

/// Masks that were built before, by number of positions. `T` is the mask handle.
#[derive(Clone, Debug)]
pub struct MaskCache<T> {
    masks: HashMap<usize, T>,
}

impl<T> View for MaskCache<T> {
    type V = Map<usize, T>;

    closed spec fn view(&self) -> Map<usize, T> {
        self.masks@
    }
}

/// The cached masks after the one of `t` positions was asked for, where `got` is what building it
/// gave or would have given.
pub open spec fn after_mask<T, E>(m: Map<usize, T>, t: usize, got: Result<T, E>) -> Map<usize, T> {
    if m.contains_key(t) {
        m
    } else {
        match got {
            Ok(mask) => m.insert(t, mask),
            Err(_) => m,
        }
    }
}

/// What asking for the mask of `t` positions does, with `build` to make a handle out of mask
/// entries: `build` is called only where the mask is not cached, with the causal mask's entries.
pub open spec fn masked<T, E, B: FnOnce(Vec<u8>) -> Result<T, E>>(
    before: Map<usize, T>,
    after: Map<usize, T>,
    t: usize,
    build: B,
    failed: Option<E>,
) -> bool {
    if before.contains_key(t) {
        after == before && failed is None
    } else {
        exists|entries: Vec<u8>, got: Result<T, E>|
            {
                &&& #[trigger] call_ensures(build, (entries,), got)
                &&& is_causal_mask(entries@, t as int)
                &&& after == after_mask(before, t, got)
                &&& failed == got.err()
            }
    }
}

impl<T> MaskCache<T> {
    /// No mask was built yet.
    pub fn new() -> (r: Self)
        ensures
            r@ == Map::<usize, T>::empty(),
    {
        MaskCache { masks: HashMap::new() }
    }

    /// The mask of `t` positions, if it was built before.
    pub fn get(&self, t: usize) -> (r: Option<&T>)
        ensures
            r is Some <==> self@.contains_key(t),
            r is Some ==> *r->0 == self@[t],
    {
        self.masks.get(&t)
    }

    /// The mask of `t` positions, built by `build` and kept if it is not there yet.
    pub fn mask<E, B: FnOnce(Vec<u8>) -> Result<T, E>>(&mut self, t: usize, build: B) -> (r: Result<
        &T,
        E,
    >)
        requires
            !old(self)@.contains_key(t) ==> {
                &&& t * t <= usize::MAX
                &&& forall|entries: Vec<u8>|
                    is_causal_mask(entries@, t as int) ==> #[trigger] call_requires(
                        build,
                        (entries,),
                    )
            },
        ensures
            masked(old(self)@, final(self)@, t, build, r.err()),
            r matches Ok(mask) ==> final(self)@.contains_key(t) && *mask == final(self)@[t],
            old(self)@.contains_key(t) ==> r is Ok && final(self)@ == old(self)@,
            r matches Ok(mask) ==> !old(self)@.contains_key(t) ==> {
                &&& final(self)@ == old(self)@.insert(t, *mask)
                &&& exists|entries: Vec<u8>|
                {
                    &&& #[trigger] call_ensures(build, (entries,), Ok(*mask))
                    &&& entries@.len() == t * t
                    &&& is_causal_mask(entries@, t as int)
                }
            },
            r matches Err(e) ==> {
                &&& final(self)@ == old(self)@
                &&& exists|entries: Vec<u8>|
                {
                    &&& #[trigger] call_ensures(build, (entries,), Err(e))
                    &&& entries@.len() == t * t
                    &&& is_causal_mask(entries@, t as int)
                }
            },
    {
        if !self.masks.contains_key(&t) {
            let entries = causal_mask(t);
            match build(entries) {
                Ok(mask) => {
                    self.masks.insert(t, mask);
                },
                Err(e) => {
                    return Err(e);
                },
            }
        }
        match self.masks.get(&t) {
            Some(mask) => Ok(mask),
            None => vstd::pervasive::unreached(),
        }
    }
}

/// A mask that was built stays the same through any further request.
pub proof fn law_cached_masks_are_kept<T, E>(
    m: Map<usize, T>,
    t: usize,
    next: usize,
    got: Result<T, E>,
)
    requires
        m.contains_key(t),
    ensures
        after_mask(m, next, got).contains_key(t),
        after_mask(m, next, got)[t] == m[t],
{
}

/// A pass reaches past the positions that the rotary tables are computed for.
#[derive(Clone, Copy, Debug, PartialEq, Eq, Structural)]
pub struct PositionError {
    pub index_pos: usize,
    pub seq_len: usize,
}

/// Rows `start` to `end` of the rotary tables are those of `seq_len` positions from `index_pos` on.
pub open spec fn are_rotary_rows(start: int, end: int, index_pos: int, seq_len: int) -> bool {
    start == index_pos && end - start == seq_len
}

/// The tables have a row for every position that is asked for, and no further ones are used:
/// positions are their rows, and a pass that goes on where another ended uses the rows after it.
pub proof fn law_rotary_rows_are_positions(
    start: int,
    end: int,
    index_pos: int,
    seq_len: int,
    next_start: int,
    next_end: int,
    next_len: int,
)
    requires
        are_rotary_rows(start, end, index_pos, seq_len),
        are_rotary_rows(next_start, next_end, index_pos + seq_len, next_len),
    ensures
        start == index_pos,
        end == next_start,
        next_end - start == seq_len + next_len,
        end == index_pos + seq_len,
{
}

/// The rows of the rotary tables for `seq_len` positions from `index_pos` on: the first row and one
/// past the last.
pub fn rotary_rows(index_pos: usize, seq_len: usize) -> (r: Result<(usize, usize), PositionError>)
    ensures
        match r {
            Ok((start, end)) => {
                &&& index_pos + seq_len <= MAX_SEQ_LEN
                &&& start == index_pos && end == index_pos + seq_len
                &&& are_rotary_rows(start as int, end as int, index_pos as int, seq_len as int)
            },
            Err(e) => {
                &&& index_pos + seq_len > MAX_SEQ_LEN
                &&& e == PositionError { index_pos, seq_len }
            },
        },
        r is Ok <==> index_pos + seq_len <= 4096,
        r matches Ok((start, end)) ==> start <= end <= 4096,
{
    if index_pos > MAX_SEQ_LEN || seq_len > MAX_SEQ_LEN - index_pos {
        Err(PositionError { index_pos, seq_len })
    } else {
        Ok((index_pos, index_pos + seq_len))
    }
}

/// `dims` are the even dimensions of a head, in increasing order.
pub open spec fn are_rotary_dims(dims: Seq<usize>, head_dim: int) -> bool {
    &&& forall|d: usize|
        #![trigger dims.contains(d)]
        dims.contains(d) <==> d < head_dim && d % 2 == 0
    &&& forall|i: int, j: int| 0 <= i < j < dims.len() ==> #[trigger] dims[i] < #[trigger] dims[j]
}

/// A dimension of a head gets a frequency exactly if it is even, the next one comes with it, and no
/// dimension gets two.
pub proof fn law_even_dimensions_rotate(dims: Seq<usize>, head_dim: int, d: usize, i: int, j: int)
    requires
        are_rotary_dims(dims, head_dim),
        0 <= i < dims.len(),
        0 <= j < dims.len(),
    ensures
        d < head_dim && d % 2 == 0 <==> dims.contains(d),
        dims[i] % 2 == 0 && dims[i] < head_dim,
        dims[i] == dims[j] <==> i == j,
        i < j ==> dims[i] < dims[j],
{
    assert(dims.contains(dims[i]));
}

/// Dimensions of a head that a rotary frequency is computed for: every second one from zero on.
pub fn rotary_dims(head_dim: usize) -> (r: Vec<usize>)
    ensures
        r@.len() == (head_dim + 1) / 2,
        forall|i: int| 0 <= i < r@.len() ==> #[trigger] r@[i] == 2 * i,
        are_rotary_dims(r@, head_dim as int),
{
    let mut dims: Vec<usize> = Vec::new();
    let count: usize = head_dim / 2 + head_dim % 2;
    while dims.len() < count
        invariant
            count == (head_dim + 1) / 2,
            dims@.len() <= count,
            forall|i: int| 0 <= i < dims@.len() ==> #[trigger] dims@[i] == 2 * i,
        decreases count - dims@.len(),
    {
        dims.push(2 * dims.len());
    }
    assert forall|d: usize|
        #![trigger dims@.contains(d)]
        dims@.contains(d) <==> d < head_dim && d % 2 == 0 by {
        if d < head_dim && d % 2 == 0 {
            assert(dims@[d as int / 2] == d);
        }
    }
    dims
}

/// An attention layer: its heads and the keys and values of the positions that it has seen. `T` is
/// the tensor handle.
#[derive(Clone, Debug)]
pub struct LayerWeights<T> {
    pub n_head: usize,
    pub n_kv_head: usize,
    pub head_dim: usize,
    pub kv_cache: Option<(T, T)>,
}

/// The shapes and decisions of one pass through an attention layer.
#[derive(Clone, Copy, Debug, PartialEq, Eq)]
pub struct AttnPlan {
    /// Queries, before heads and positions change places.
    pub q_shape: (usize, usize, usize, usize),
    /// Keys and values, before heads and positions change places.
    pub kv_shape: (usize, usize, usize, usize),
    /// First row of the rotary tables that is used, and one past the last.
    pub rotary: (usize, usize),
    /// How many query heads share a key and value head.
    pub n_rep: usize,
    /// The result, with the heads put together again.
    pub out_shape: (usize, usize, usize),
}

/// `p` has the shapes of a pass over an input with dimensions `dims`: queries, keys and values keep
/// its batch and positions and are divided into heads, each key and value head is repeated as often as
/// goes into the query heads, and the result is shaped like the input.
pub open spec fn is_attn_plan(
    p: AttnPlan,
    dims: Seq<usize>,
    n_head: usize,
    n_kv_head: usize,
    head_dim: usize,
) -> bool {
    &&& (p.q_shape.0, p.q_shape.1) == (dims[0], dims[1])
    &&& (p.q_shape.2, p.q_shape.3) == (n_head, head_dim)
    &&& (p.kv_shape.0, p.kv_shape.1) == (dims[0], dims[1])
    &&& (p.kv_shape.2, p.kv_shape.3) == (n_kv_head, head_dim)
    &&& 0 <= n_head - p.n_rep * n_kv_head < n_kv_head
    &&& p.out_shape == (dims[0], dims[1], dims[2])
}

/// Queries, keys and values of a pass agree in batch, positions and size of a head; where the heads
/// divide evenly there is, once repeated, a key and value head for every query head; and the result
/// can be added to the input.
pub proof fn law_attention_shapes_agree(
    p: AttnPlan,
    dims: Seq<usize>,
    n_head: usize,
    n_kv_head: usize,
    head_dim: usize,
)
    requires
        is_attn_plan(p, dims, n_head, n_kv_head, head_dim),
    ensures
        p.q_shape.0 == dims[0] && p.q_shape.1 == dims[1],
        p.q_shape.2 == n_head && p.q_shape.3 == head_dim,
        p.kv_shape.2 == n_kv_head,
        p.kv_shape.0 == p.q_shape.0 && p.kv_shape.1 == p.q_shape.1,
        p.kv_shape.3 == p.q_shape.3,
        p.n_rep * p.kv_shape.2 <= p.q_shape.2 < (p.n_rep + 1) * p.kv_shape.2,
        n_head as int % n_kv_head as int == 0 ==> p.n_rep * p.kv_shape.2 == p.q_shape.2,
        p.out_shape.0 == dims[0] && p.out_shape.1 == dims[1] && p.out_shape.2 == dims[2],
{
    let n_rep = p.n_rep as int;
    let kv = n_kv_head as int;
    assert((n_rep + 1) * kv == n_rep * kv + kv) by (nonlinear_arith);
    if n_head as int % kv == 0 {
        lemma_fundamental_div_mod(n_head as int, kv);
        let q = n_head as int / kv;
        assert(q == n_rep) by (nonlinear_arith)
            requires
                n_head == kv * q,
                0 <= n_head - n_rep * kv < kv,
        ;
        assert(n_rep * kv == kv * q) by (nonlinear_arith)
            requires
                q == n_rep,
        ;
    }
}

/// Why a pass through an attention layer cannot be made.
#[derive(Clone, Copy, Debug, PartialEq, Eq)]
pub enum AttnError {
    Shape(ShapeError),
    /// The layer has no key and value heads.
    NoKvHeads,
    Position(PositionError),
}

/// What storing new keys and values in a cache does, with `cat` to put tensors one after the other.
/// At position zero, or with nothing cached, the new ones take the cache over; otherwise they
/// follow what is there, keys first, and the cache stays as it is if `cat` fails.
pub open spec fn stored<T, E, C: Fn(&T, &T) -> Result<T, E>>(
    before: Option<(T, T)>,
    after: Option<(T, T)>,
    k: T,
    v: T,
    index_pos: usize,
    cat: C,
    failed: Option<E>,
) -> bool {
    if before is None || index_pos == 0 {
        after == Some((k, v)) && failed is None
    } else {
        exists|got_k: Result<T, E>|
            {
                &&& #[trigger] call_ensures(cat, (&(before->0).0, &k), got_k)
                &&& match got_k {
                    Ok(all_k) => exists|got_v: Result<T, E>|
                        {
                            &&& #[trigger] call_ensures(cat, (&(before->0).1, &v), got_v)
                            &&& match got_v {
                                Ok(all_v) => after == Some((all_k, all_v)) && failed is None,
                                Err(e) => after == before && failed == Some(e),
                            }
                        },
                    Err(e) => after == before && failed == Some(e),
                }
            }
    }
}

impl<T> LayerWeights<T> {
    /// The two layers have the same heads.
    pub open spec fn same_heads(self, other: Self) -> bool {
        &&& self.n_head == other.n_head
        &&& self.n_kv_head == other.n_kv_head
        &&& self.head_dim == other.head_dim
    }

    /// Plans a pass over an input with dimensions `dims`, that is batch, positions and embedding,
    /// whose first position is `index_pos`.
    pub fn forward_attn(&self, dims: &Vec<usize>, index_pos: usize) -> (r: Result<
        AttnPlan,
        AttnError,
    >)
        ensures
            match r {
                Ok(p) => {
                    &&& dims@.len() == 3 && self.n_kv_head > 0
                    &&& index_pos + dims@[1] <= MAX_SEQ_LEN
                    &&& p.q_shape == (dims@[0], dims@[1], self.n_head, self.head_dim)
                    &&& p.kv_shape == (dims@[0], dims@[1], self.n_kv_head, self.head_dim)
                    &&& p.rotary.0 == index_pos && p.rotary.1 == index_pos + dims@[1]
                    &&& p.n_rep == self.n_head / self.n_kv_head
                    &&& p.out_shape == (dims@[0], dims@[1], dims@[2])
                    &&& is_attn_plan(p, dims@, self.n_head, self.n_kv_head, self.head_dim)
                    &&& are_rotary_rows(
                        p.rotary.0 as int,
                        p.rotary.1 as int,
                        index_pos as int,
                        dims@[1] as int,
                    )
                },
                Err(AttnError::Shape(e)) => {
                    &&& dims@.len() != 3
                    &&& e == ShapeError { expected: 3, got: dims@.len() as usize }
                },
                Err(AttnError::NoKvHeads) => dims@.len() == 3 && self.n_kv_head == 0,
                Err(AttnError::Position(e)) => {
                    &&& dims@.len() == 3 && self.n_kv_head > 0
                    &&& index_pos + dims@[1] > MAX_SEQ_LEN
                    &&& e == PositionError { index_pos, seq_len: dims@[1] }
                },
            },
    {
        if dims.len() != 3 {
            return Err(AttnError::Shape(ShapeError { expected: 3, got: dims.len() }));
        }
        if self.n_kv_head == 0 {
            return Err(AttnError::NoKvHeads);
        }
        proof {
            lemma_fundamental_div_mod(self.n_head as int, self.n_kv_head as int);
            assert(self.n_head / self.n_kv_head * self.n_kv_head == self.n_kv_head * (self.n_head
                / self.n_kv_head)) by (nonlinear_arith)
                requires
                    self.n_kv_head > 0,
            ;
        }
        let (b_sz, seq_len, n_embd) = (dims[0], dims[1], dims[2]);
        let rotary = match rotary_rows(index_pos, seq_len) {
            Ok(rows) => rows,
            Err(e) => {
                return Err(AttnError::Position(e));
            },
        };
        Ok(
            AttnPlan {
                q_shape: (b_sz, seq_len, self.n_head, self.head_dim),
                kv_shape: (b_sz, seq_len, self.n_kv_head, self.head_dim),
                rotary,
                n_rep: self.n_head / self.n_kv_head,
                out_shape: (b_sz, seq_len, n_embd),
            },
        )
    }

    /// Stores the keys and values of a pass that starts at `index_pos`, after those of the positions
    /// before it, and returns all that are now there.
    pub fn store_kv<E, C: Fn(&T, &T) -> Result<T, E>>(
        &mut self,
        k: T,
        v: T,
        index_pos: usize,
        cat: C,
    ) -> (r: Result<&(T, T), E>)
        requires
            old(self).kv_cache is Some && index_pos != 0 ==> {
                &&& call_requires(cat, (&(old(self).kv_cache->0).0, &k))
                &&& call_requires(cat, (&(old(self).kv_cache->0).1, &v))
            },
        ensures
            stored(old(self).kv_cache, final(self).kv_cache, k, v, index_pos, cat, r.err()),
            r matches Ok(kv) ==> final(self).kv_cache == Some(*kv),
            final(self).same_heads(*old(self)),
            final(self).n_head == old(self).n_head,
            final(self).n_kv_head == old(self).n_kv_head,
            final(self).head_dim == old(self).head_dim,
            old(self).kv_cache is None || index_pos == 0 ==> r is Ok && final(self).kv_cache
                == Some((k, v)),
            old(self).kv_cache matches Some(cached) ==> index_pos != 0 ==> match r {
                Ok(kv) => {
                    &&& call_ensures(cat, (&cached.0, &k), Ok(kv.0))
                    &&& call_ensures(cat, (&cached.1, &v), Ok(kv.1))
                },
                Err(e) => {
                    &&& final(self).kv_cache == old(self).kv_cache
                    &&& call_ensures(cat, (&cached.0, &k), Err(e)) || call_ensures(
                        cat,
                        (&cached.1, &v),
                        Err(e),
                    )
                },
            },
    {
        let mut next: Option<(T, T)> = None;
        if let Some((k_cache, v_cache)) = &self.kv_cache {
            if index_pos != 0 {
                let all_k = match cat(k_cache, &k) {
                    Ok(all_k) => all_k,
                    Err(e) => {
                        return Err(e);
                    },
                };
                let all_v = match cat(v_cache, &v) {
                    Ok(all_v) => all_v,
                    Err(e) => {
                        return Err(e);
                    },
                };
                next = Some((all_k, all_v));
            }
        }
        self.kv_cache = match next {
            Some(kv) => Some(kv),
            None => Some((k, v)),
        };
        match &self.kv_cache {
            Some(kv) => Ok(kv),
            None => vstd::pervasive::unreached(),
        }
    }
}

/// Storing keys and values of `len(k)` positions leaves as many positions in the cache as
/// `cached_len` says, if `cat` adds up positions: the new ones alone at position zero, those before
/// them too otherwise. Keys and values are always of the same positions.
pub proof fn law_store_adds_positions<T, E, C: Fn(&T, &T) -> Result<T, E>>(
    before: Option<(T, T)>,
    after: Option<(T, T)>,
    k: T,
    v: T,
    index_pos: usize,
    cat: C,
    len: spec_fn(T) -> nat,
)
    requires
        stored(before, after, k, v, index_pos, cat, None::<E>),
        forall|a: T, b: T, c: T|
            #[trigger] call_ensures(cat, (&a, &b), Ok::<T, E>(c)) ==> len(c) == len(a) + len(b),
        len(k) == len(v),
        before matches Some(kv) ==> len(kv.0) == len(kv.1),
    ensures
        after is Some,
        len((after->0).0) == len((after->0).1),
        len((after->0).0) == cached_len(
            match before {
                Some(kv) => Some(len(kv.0)),
                None => None,
            },
            index_pos as nat,
            len(k),
        ),
{
}

/// Where the heads divide evenly, repeating each key and value head `n_rep` times gives one for
/// every query head.
pub proof fn law_repeated_heads_match(n_head: nat, n_kv_head: nat)
    requires
        n_kv_head > 0,
        n_head % n_kv_head == 0,
    ensures
        n_kv_head * (n_head / n_kv_head) == n_head,
{
    lemma_fundamental_div_mod(n_head as int, n_kv_head as int);
}

/// Positions in a layer's cache after a pass of `seq_len` positions at `index_pos`.
pub open spec fn cached_len(cached: Option<nat>, index_pos: nat, seq_len: nat) -> nat {
    match cached {
        Some(len) if index_pos != 0 => len + seq_len,
        _ => seq_len,
    }
}

/// Positions in a layer's cache after a run of passes, each with its start and its length.
pub open spec fn cached_after(passes: Seq<(nat, nat)>) -> Option<nat>
    decreases passes.len(),
{
    if passes.len() == 0 {
        None
    } else {
        let (index_pos, seq_len) = passes.last();
        Some(cached_len(cached_after(passes.drop_last()), index_pos, seq_len))
    }
}

/// After passes that start at zero and each go on where the one before ended, the cache holds
/// exactly the positions up to the end of the last.
pub proof fn law_cache_holds_all_positions(passes: Seq<(nat, nat)>)
    requires
        passes.len() > 0,
        passes[0].0 == 0,
        forall|i: int|
            0 < i < passes.len() ==> (#[trigger] passes[i]).0 == passes[i - 1].0 + passes[i
                - 1].1,
    ensures
        cached_after(passes) == Some(passes.last().0 + passes.last().1),
    decreases passes.len(),
{
    let front = passes.drop_last();
    if front.len() > 0 {
        assert forall|i: int| 0 < i < front.len() implies (#[trigger] front[i]).0 == front[i - 1].0
            + front[i - 1].1 by {
            assert(front[i] == passes[i] && front[i - 1] == passes[i - 1]);
        }
        law_cache_holds_all_positions(front);
        assert(passes.last() == passes[passes.len() - 1]);
        assert(front.last() == passes[passes.len() - 2]);
    }
}

/// Where a pass goes without a mask, the causal mask would mask nothing out.
pub proof fn law_single_position_needs_no_mask(mask: Seq<u8>)
    requires
        is_causal_mask(mask, 1),
    ensures
        mask =~= seq![0u8],
{
    law_causal_mask_entries(mask, 1, 0, 0);
}


/// With `cat` read as putting contents one after the other, storing puts keys after keys and values
/// after values, in that order; at position zero, or with nothing cached, the new keys are the keys
/// and the new values the values.
pub proof fn law_store_joins_contents<T, E, X, C: Fn(&T, &T) -> Result<T, E>>(
    before: Option<(T, T)>,
    after: Option<(T, T)>,
    k: T,
    v: T,
    index_pos: usize,
    cat: C,
    content: spec_fn(T) -> Seq<X>,
)
    requires
        stored(before, after, k, v, index_pos, cat, None::<E>),
        forall|a: T, b: T, c: T|
            #[trigger] call_ensures(cat, (&a, &b), Ok::<T, E>(c)) ==> content(c) == content(a)
                + content(b),
    ensures
        after is Some,
        before is None || index_pos == 0 ==> {
            &&& content((after->0).0) == content(k)
            &&& content((after->0).1) == content(v)
        },
        before matches Some(cached) ==> index_pos != 0 ==> {
            &&& content((after->0).0) == content(cached.0) + content(k)
            &&& content((after->0).1) == content(cached.1) + content(v)
        },
{
}

/// After a run of passes, the first of them at position zero and the others not, the cache holds the
/// keys of all passes, one after the other in the order of the passes, and likewise the values,
/// whatever was cached before.
pub proof fn law_cache_is_all_keys_and_all_values<T, E, X, C: Fn(&T, &T) -> Result<T, E>>(
    caches: Seq<Option<(T, T)>>,
    ks: Seq<T>,
    vs: Seq<T>,
    positions: Seq<usize>,
    cat: C,
    content: spec_fn(T) -> Seq<X>,
)
    requires
        ks.len() > 0,
        vs.len() == ks.len() && positions.len() == ks.len() && caches.len() == ks.len() + 1,
        positions[0] == 0,
        forall|i: int| 0 < i < positions.len() ==> #[trigger] positions[i] != 0,
        forall|i: int|
            0 <= i < ks.len() ==> stored(
                caches[i],
                caches[i + 1],
                #[trigger] ks[i],
                vs[i],
                positions[i],
                cat,
                None::<E>,
            ),
        forall|a: T, b: T, c: T|
            #[trigger] call_ensures(cat, (&a, &b), Ok::<T, E>(c)) ==> content(c) == content(a)
                + content(b),
    ensures
        caches.last() is Some,
        content((caches.last()->0).0) == ks.map_values(content).flatten_alt(),
        content((caches.last()->0).1) == vs.map_values(content).flatten_alt(),
    decreases ks.len(),
{
    let n = ks.len() - 1;
    let all_k = ks.map_values(content);
    let all_v = vs.map_values(content);
    let front_k = ks.drop_last();
    let front_v = vs.drop_last();
    assert(stored(caches[n], caches[n + 1], ks[n], vs[n], positions[n], cat, None::<E>));
    law_store_joins_contents(caches[n], caches[n + 1], ks[n], vs[n], positions[n], cat, content);
    assert(caches.last() == caches[n + 1]);
    assert(all_k.drop_last() =~= front_k.map_values(content));
    assert(all_v.drop_last() =~= front_v.map_values(content));
    assert(all_k.last() == content(ks[n]) && all_v.last() == content(vs[n]));
    if n == 0 {
        assert(all_k.drop_last().flatten_alt() =~= Seq::<X>::empty());
        assert(all_v.drop_last().flatten_alt() =~= Seq::<X>::empty());
        assert(all_k.flatten_alt() =~= content(ks[0]));
        assert(all_v.flatten_alt() =~= content(vs[0]));
    } else {
        let front_caches = caches.drop_last();
        let front_positions = positions.drop_last();
        assert forall|i: int| 0 <= i < front_k.len() implies stored(
            front_caches[i],
            front_caches[i + 1],
            #[trigger] front_k[i],
            front_v[i],
            front_positions[i],
            cat,
            None::<E>,
        ) by {
            assert(front_k[i] == ks[i]);
        }
        assert forall|i: int| 0 < i < front_positions.len() implies #[trigger] front_positions[i]
            != 0 by {
            assert(front_positions[i] == positions[i]);
        }
        law_cache_is_all_keys_and_all_values(
            front_caches,
            front_k,
            front_v,
            front_positions,
            cat,
            content,
        );
        assert(front_caches.last() == caches[n]);
    }
}

/// Where storing fails, the cache stays, and the error is that of putting the keys or the values
/// together.
pub proof fn law_failed_store_keeps_the_cache<T, E, C: Fn(&T, &T) -> Result<T, E>>(
    before: Option<(T, T)>,
    after: Option<(T, T)>,
    k: T,
    v: T,
    index_pos: usize,
    cat: C,
    e: E,
)
    requires
        stored(before, after, k, v, index_pos, cat, Some(e)),
    ensures
        before is Some && index_pos != 0,
        after == before,
        call_ensures(cat, (&(before->0).0, &k), Err(e)) || call_ensures(
            cat,
            (&(before->0).1, &v),
            Err(e),
        ),
{
}

/// What asking for a mask does, in full: a mask that is there stays as it is, one that is not is
/// built from the entries of a square of `t` rows and kept, or nothing is kept if that fails.
pub proof fn law_masks_are_built_when_missing<T, E, B: FnOnce(Vec<u8>) -> Result<T, E>>(
    before: Map<usize, T>,
    after: Map<usize, T>,
    t: usize,
    build: B,
    failed: Option<E>,
)
    requires
        masked(before, after, t, build, failed),
    ensures
        before.contains_key(t) ==> after == before && failed is None,
        failed is None ==> after.contains_key(t) && after == before.insert(t, after[t]),
        failed is Some ==> after == before,
        !before.contains_key(t) ==> exists|entries: Vec<u8>, got: Result<T, E>|
            {
                &&& #[trigger] call_ensures(build, (entries,), got)
                &&& entries@.len() == t * t
                &&& is_causal_mask(entries@, t as int)
                &&& got == (match failed {
                    Some(e) => Err(e),
                    None => Ok(after[t]),
                })
            },
{
    if before.contains_key(t) {
        assert(after =~= before.insert(t, after[t]));
    }
}

} // verus!
