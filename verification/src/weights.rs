//! What a model's tensors are used for, once they are read. `H` is the handle of a tensor.

use crate::config::Config;
use crate::loader::{
    attention_tensors, belongs, expert_part, expert_tensors, fallback_of, feed_forward_tensors,
    law_model_tensors_are_those_that_belong, layer_part, layer_tensors, layers_tensors,
    lemma_layers_tensors, model_tensors, norm_tensors, Fallback,
};
use crate::names::{ExpertPart, LayerPart, TensorId};
use std::collections::VecDeque;
use vstd::prelude::*;

verus! {

/// Where a tensor of the model comes from: it was read, or something stands in for it.
pub enum Source<H> {
    Tensor(H),
    StandIn(Fallback),
}

/// A tensor that is done with.
pub struct Read<H> {
    pub id: TensorId,
    pub source: Source<H>,
}

impl<H> Read<H> {
    /// Only what can stand in for the tensor does so.
    pub open spec fn wf(self) -> bool {
        self.source matches Source::StandIn(f) ==> f == fallback_of(self.id) && f != Fallback::Fail
    }
}

/// The tensors of the model, all of them and in the order in which they are read.
pub open spec fn is_complete<H>(reads: Seq<Read<H>>, config: Config) -> bool {
    &&& reads.len() == model_tensors(config).len()
    &&& forall|i: int|
        0 <= i < reads.len() ==> (#[trigger] reads[i]).id == model_tensors(config)[i]
            && reads[i].wf()
}

/// The tensor was read, as `h`.
pub open spec fn is_read<H>(reads: Seq<Read<H>>, id: TensorId, h: H) -> bool {
    reads.contains(Read { id, source: Source::Tensor(h) })
}

/// `f` stands in for the tensor.
pub open spec fn is_stood_in<H>(reads: Seq<Read<H>>, id: TensorId, f: Fallback) -> bool {
    reads.contains(Read { id, source: Source::StandIn(f) })
}

/// The matrices of a feed-forward part, which computes `w2 (silu(w1 x) * w3 x)`.
#[derive(Debug)]
pub struct MlpParts<H> {
    /// `ffn_gate`.
    pub feed_forward_w1: H,
    /// `ffn_down`.
    pub feed_forward_w2: H,
    /// `ffn_up`.
    pub feed_forward_w3: H,
}

/// The weights of a layer's feed-forward part.
#[derive(Debug)]
pub enum FeedForwardParts<H> {
    Mlp(MlpParts<H>),
    MoE {
        /// The router.
        feed_forward_gate_inp: H,
        experts: Vec<MlpParts<H>>,
    },
}

/// The weights of a layer.
#[derive(Debug)]
pub struct LayerParts<H> {
    pub attention_wq: H,
    pub attention_wk: H,
    pub attention_wv: H,
    pub attention_wo: H,
    pub feed_forward: FeedForwardParts<H>,
    pub attention_norm: H,
    pub ffn_norm: H,
}

/// The weight of the final norm.
#[derive(Debug)]
pub enum NormWeight<H> {
    Tensor(H),
    /// `len` ones.
    Ones { len: usize },
}

/// The output matrix.
#[derive(Debug)]
pub enum OutputWeight<H> {
    Tensor(H),
    /// The same matrix as the token embeddings.
    TokenEmbeddings,
}

/// The weights of a model.
#[derive(Debug)]
pub struct ModelParts<H> {
    pub tok_embeddings: H,
    pub norm: NormWeight<H>,
    pub output: OutputWeight<H>,
    pub layers: Vec<LayerParts<H>>,
    /// Epsilon of all norms, as a bit pattern.
    pub rms_norm_eps_bits: u32,
}

/// The feed-forward matrices are those of an expert.
pub open spec fn is_expert<H>(
    p: MlpParts<H>,
    reads: Seq<Read<H>>,
    layer: int,
    expert: int,
) -> bool {
    &&& is_read(reads, expert_part(layer, expert, ExpertPart::Gate), p.feed_forward_w1)
    &&& is_read(reads, expert_part(layer, expert, ExpertPart::Down), p.feed_forward_w2)
    &&& is_read(reads, expert_part(layer, expert, ExpertPart::Up), p.feed_forward_w3)
}

/// The feed-forward weights are those of a layer: a router and one entry for each expert in the
/// order of their numbers, or three matrices.
pub open spec fn is_feed_forward<H>(
    p: FeedForwardParts<H>,
    reads: Seq<Read<H>>,
    config: Config,
    layer: int,
) -> bool {
    match p {
        FeedForwardParts::Mlp(mlp) => {
            &&& !config.spec_is_moe()
            &&& is_read(reads, layer_part(layer, LayerPart::FfnGate), mlp.feed_forward_w1)
            &&& is_read(reads, layer_part(layer, LayerPart::FfnDown), mlp.feed_forward_w2)
            &&& is_read(reads, layer_part(layer, LayerPart::FfnUp), mlp.feed_forward_w3)
        },
        FeedForwardParts::MoE { feed_forward_gate_inp, experts } => {
            &&& config.spec_is_moe()
            &&& is_read(reads, layer_part(layer, LayerPart::FfnGateInp), feed_forward_gate_inp)
            &&& experts@.len() == config.n_expert
            &&& forall|e: int|
                0 <= e < experts@.len() ==> is_expert(#[trigger] experts@[e], reads, layer, e)
        },
    }
}

/// The weights are those of a layer.
pub open spec fn is_layer<H>(
    p: LayerParts<H>,
    reads: Seq<Read<H>>,
    config: Config,
    layer: int,
) -> bool {
    &&& is_read(reads, layer_part(layer, LayerPart::AttnQ), p.attention_wq)
    &&& is_read(reads, layer_part(layer, LayerPart::AttnK), p.attention_wk)
    &&& is_read(reads, layer_part(layer, LayerPart::AttnV), p.attention_wv)
    &&& is_read(reads, layer_part(layer, LayerPart::AttnOutput), p.attention_wo)
    &&& is_feed_forward(p.feed_forward, reads, config, layer)
    &&& is_read(reads, layer_part(layer, LayerPart::AttnNorm), p.attention_norm)
    &&& is_read(reads, layer_part(layer, LayerPart::FfnNorm), p.ffn_norm)
}

/// The final norm is the one that was read, or else ones over an embedding.
pub open spec fn is_norm<H>(p: NormWeight<H>, reads: Seq<Read<H>>, config: Config) -> bool {
    match p {
        NormWeight::Tensor(h) => is_read(reads, TensorId::OutputNorm, h),
        NormWeight::Ones { len } => {
            &&& is_stood_in(reads, TensorId::OutputNorm, Fallback::Ones)
            &&& len == config.embedding_length
        },
    }
}

/// The output matrix is the one that was read, or else the token embeddings.
pub open spec fn is_output<H>(p: OutputWeight<H>, reads: Seq<Read<H>>) -> bool {
    match p {
        OutputWeight::Tensor(h) => is_read(reads, TensorId::Output, h),
        OutputWeight::TokenEmbeddings => {
            is_stood_in(reads, TensorId::Output, Fallback::TokenEmbeddings)
        },
    }
}

/// The weights are those of the model.
pub open spec fn is_model<H>(p: ModelParts<H>, reads: Seq<Read<H>>, config: Config) -> bool {
    &&& is_read(reads, TensorId::TokenEmbd, p.tok_embeddings)
    &&& is_norm(p.norm, reads, config)
    &&& is_output(p.output, reads)
    &&& p.layers@.len() == config.block_count
    &&& forall|l: int|
        0 <= l < p.layers@.len() ==> is_layer(#[trigger] p.layers@[l], reads, config, l)
    &&& p.rms_norm_eps_bits == config.rms_norm_eps_bits
}

/// The next tensors are `ids`, and all of them were read.
spec fn starts_with<H>(reads: Seq<Read<H>>, ids: Seq<TensorId>) -> bool {
    &&& ids.len() <= reads.len()
    &&& forall|i: int|
        0 <= i < ids.len() ==> (#[trigger] reads[i]).id == ids[i] && reads[i].source is Tensor
}

/// What starts with two lists starts with the first, and with the second after it.
proof fn lemma_starts_with_both<H>(reads: Seq<Read<H>>, a: Seq<TensorId>, b: Seq<TensorId>)
    requires
        starts_with(reads, a + b),
    ensures
        starts_with(reads, a),
        starts_with(reads.skip(a.len() as int), b),
{
    assert forall|i: int| 0 <= i < a.len() implies (#[trigger] reads[i]).id == a[i]
        && reads[i].source is Tensor by {
        assert((a + b)[i] == a[i]);
    }
    let rest = reads.skip(a.len() as int);
    assert forall|i: int| 0 <= i < b.len() implies (#[trigger] rest[i]).id == b[i]
        && rest[i].source is Tensor by {
        assert(rest[i] == reads[a.len() + i]);
        assert((a + b)[a.len() + i] == b[i]);
    }
}

/// What was read of the tensors from `n` on was read of all.
proof fn lemma_later_reads_are_reads<H>(reads: Seq<Read<H>>, n: int)
    requires
        0 <= n <= reads.len(),
    ensures
        forall|id: TensorId, h: H| #[trigger]
            is_read(reads.skip(n), id, h) ==> is_read(reads, id, h),
{
    assert forall|id: TensorId, h: H| #[trigger] is_read(reads.skip(n), id, h) implies is_read(
        reads,
        id,
        h,
    ) by {
        let read = Read { id, source: Source::Tensor(h) };
        let i = reads.skip(n).index_of(read);
        assert(reads.skip(n)[i] == read);
        assert(reads[n + i] == read);
    }
}

/// Takes the next tensor, which was read.
fn take_tensor<H>(reads: &mut VecDeque<Read<H>>) -> (r: H)
    requires
        old(reads)@.len() > 0,
        old(reads)@[0].source is Tensor,
    ensures
        old(reads)@[0].source == Source::Tensor(r),
        final(reads)@ == old(reads)@.skip(1),
{
    match reads.pop_front() {
        Some(Read { source: Source::Tensor(h), .. }) => h,
        _ => vstd::pervasive::unreached(),
    }
}

/// Takes the next three tensors as the matrices of a feed-forward part.
fn take_mlp<H>(reads: &mut VecDeque<Read<H>>) -> (r: MlpParts<H>)
    requires
        old(reads)@.len() >= 3,
        forall|i: int| 0 <= i < 3 ==> (#[trigger] old(reads)@[i]).source is Tensor,
    ensures
        old(reads)@[0].source == Source::Tensor(r.feed_forward_w1),
        old(reads)@[1].source == Source::Tensor(r.feed_forward_w2),
        old(reads)@[2].source == Source::Tensor(r.feed_forward_w3),
        final(reads)@ == old(reads)@.skip(3),
{
    let ghost start = reads@;
    let feed_forward_w1 = take_tensor(reads);
    assert(reads@[0] == start[1]);
    let feed_forward_w2 = take_tensor(reads);
    assert(reads@[0] == start[2]);
    let feed_forward_w3 = take_tensor(reads);
    assert(reads@ =~= start.skip(3));
    MlpParts { feed_forward_w1, feed_forward_w2, feed_forward_w3 }
}

/// The weights of a layer's experts stand together, expert by expert.
pub(crate) proof fn lemma_expert_positions(layer: int, n: int, e: int)
    requires
        0 <= e < n,
    ensures
        expert_tensors(layer, n).len() == 3 * n,
        expert_tensors(layer, n)[3 * e] == expert_part(layer, e, ExpertPart::Gate),
        expert_tensors(layer, n)[3 * e + 1] == expert_part(layer, e, ExpertPart::Down),
        expert_tensors(layer, n)[3 * e + 2] == expert_part(layer, e, ExpertPart::Up),
    decreases n,
{
    if n == 1 {
        assert(expert_tensors(layer, 0).len() == 0);
    } else if e < n - 1 {
        lemma_expert_positions(layer, n - 1, e);
    } else {
        lemma_expert_positions(layer, n - 1, 0);
    }
}

/// Takes the weights of a layer's `n` experts.
fn take_experts<H>(reads: &mut VecDeque<Read<H>>, layer: usize, n: usize) -> (r: Vec<MlpParts<H>>)
    requires
        starts_with(old(reads)@, expert_tensors(layer as int, n as int)),
    ensures
        r@.len() == n,
        forall|e: int|
            0 <= e < n ==> is_expert(#[trigger] r@[e], old(reads)@, layer as int, e),
        final(reads)@ == old(reads)@.skip(expert_tensors(layer as int, n as int).len() as int),
{
    let ghost start = reads@;
    let ghost ids = expert_tensors(layer as int, n as int);
    let mut experts: Vec<MlpParts<H>> = Vec::new();
    proof {
        if n > 0 {
            lemma_expert_positions(layer as int, n as int, 0);
        }
        assert(start =~= start.skip(0));
    }
    while experts.len() < n
        invariant
            ids == expert_tensors(layer as int, n as int),
            ids.len() == 3 * n,
            starts_with(start, ids),
            experts@.len() <= n,
            reads@ == start.skip(3 * experts@.len() as int),
            forall|e: int|
                0 <= e < experts@.len() ==> is_expert(
                    #[trigger] experts@[e],
                    start,
                    layer as int,
                    e,
                ),
        decreases n - experts@.len(),
    {
        let ghost e = experts@.len() as int;
        proof {
            lemma_expert_positions(layer as int, n as int, e);
            assert(reads@[0] == start[3 * e]);
            assert(reads@[1] == start[3 * e + 1]);
            assert(reads@[2] == start[3 * e + 2]);
        }
        let mlp = take_mlp(reads);
        proof {
            assert(reads@ =~= start.skip(3 * (e + 1)));
            assert(start.contains(start[3 * e]));
            assert(start.contains(start[3 * e + 1]));
            assert(start.contains(start[3 * e + 2]));
            assert(is_expert(mlp, start, layer as int, e));
        }
        experts.push(mlp);
    }
    experts
}

/// Takes the weights of a layer's feed-forward part.
fn take_feed_forward<H>(reads: &mut VecDeque<Read<H>>, config: &Config, layer: usize) -> (r:
    FeedForwardParts<H>)
    requires
        starts_with(old(reads)@, feed_forward_tensors(*config, layer as int)),
    ensures
        is_feed_forward(r, old(reads)@, *config, layer as int),
        final(reads)@ == old(reads)@.skip(
            feed_forward_tensors(*config, layer as int).len() as int,
        ),
{
    let ghost start = reads@;
    let ghost ids = feed_forward_tensors(*config, layer as int);
    if config.is_moe() {
        let ghost router = seq![layer_part(layer as int, LayerPart::FfnGateInp)];
        let ghost rest = expert_tensors(layer as int, config.n_expert as int);
        proof {
            lemma_starts_with_both(start, router, rest);
            assert(start[0].id == router[0]);
        }
        let feed_forward_gate_inp = take_tensor(reads);
        let experts = take_experts(reads, layer, config.n_expert);
        proof {
            assert(start.contains(start[0]));
            lemma_later_reads_are_reads(start, 1);
            assert(reads@ =~= start.skip(ids.len() as int));
        }
        FeedForwardParts::MoE { feed_forward_gate_inp, experts }
    } else {
        proof {
            assert(start[0].id == ids[0] && start[1].id == ids[1] && start[2].id == ids[2]);
        }
        let mlp = take_mlp(reads);
        proof {
            assert(start.contains(start[0]));
            assert(start.contains(start[1]));
            assert(start.contains(start[2]));
        }
        FeedForwardParts::Mlp(mlp)
    }
}

/// Takes the weights of a layer.
fn take_layer<H>(reads: &mut VecDeque<Read<H>>, config: &Config, layer: usize) -> (r: LayerParts<H>)
    requires
        starts_with(old(reads)@, layer_tensors(*config, layer as int)),
    ensures
        is_layer(r, old(reads)@, *config, layer as int),
        final(reads)@ == old(reads)@.skip(layer_tensors(*config, layer as int).len() as int),
{
    let ghost start = reads@;
    let ghost att = attention_tensors(layer as int);
    let ghost ffn = feed_forward_tensors(*config, layer as int);
    let ghost norms = norm_tensors(layer as int);
    proof {
        lemma_starts_with_both(start, att + ffn, norms);
        lemma_starts_with_both(start, att, ffn);
        assert(start[0].id == att[0] && start[1].id == att[1]);
        assert(start[2].id == att[2] && start[3].id == att[3]);
    }
    let attention_wq = take_tensor(reads);
    assert(reads@[0] == start[1]);
    let attention_wk = take_tensor(reads);
    assert(reads@[0] == start[2]);
    let attention_wv = take_tensor(reads);
    assert(reads@[0] == start[3]);
    let attention_wo = take_tensor(reads);
    assert(reads@ =~= start.skip(4));
    let feed_forward = take_feed_forward(reads, config, layer);
    let ghost at = 4 + ffn.len() as int;
    proof {
        assert(reads@ =~= start.skip(at));
        assert(reads@[0] == start[at] && start[at].id == norms[0]);
        assert(reads@[1] == start[at + 1] && start[at + 1].id == norms[1]);
    }
    let attention_norm = take_tensor(reads);
    assert(reads@[0] == start[at + 1]);
    let ffn_norm = take_tensor(reads);
    proof {
        lemma_later_reads_are_reads(start, 4);
        assert(reads@ =~= start.skip(layer_tensors(*config, layer as int).len() as int));
        assert(start.contains(start[0]) && start.contains(start[1]));
        assert(start.contains(start[2]) && start.contains(start[3]));
        assert(start.contains(start[at]) && start.contains(start[at + 1]));
    }
    LayerParts {
        attention_wq,
        attention_wk,
        attention_wv,
        attention_wo,
        feed_forward,
        attention_norm,
        ffn_norm,
    }
}

/// The weights of the first layers come first.
pub(crate) proof fn lemma_layers_come_in_order(config: Config, l: int, n: int)
    requires
        0 <= l <= n,
    ensures
        layers_tensors(config, l).len() <= layers_tensors(config, n).len(),
        layers_tensors(config, l) == layers_tensors(config, n).take(
            layers_tensors(config, l).len() as int,
        ),
    decreases n,
{
    if l < n {
        lemma_layers_come_in_order(config, l, n - 1);
    }
    assert(layers_tensors(config, l) =~= layers_tensors(config, n).take(
        layers_tensors(config, l).len() as int,
    ));
}

/// After the three tensors that a model has once, all its tensors were read, and layer `l` comes
/// after those before it.
proof fn lemma_layer_position<H>(reads: Seq<Read<H>>, config: Config, l: int)
    requires
        is_complete(reads, config),
        0 <= l < config.block_count,
    ensures
        starts_with(
            reads.skip(3 + layers_tensors(config, l).len() as int),
            layer_tensors(config, l),
        ),
{
    let n = config.block_count as int;
    let all = layers_tensors(config, n);
    let before = layers_tensors(config, l).len() as int;
    let rest = reads.skip(3 + before);
    let ids = layer_tensors(config, l);
    lemma_layers_come_in_order(config, l + 1, n);
    assert(layers_tensors(config, l + 1) == layers_tensors(config, l) + ids);
    assert forall|i: int| 0 <= i < ids.len() implies (#[trigger] rest[i]).id == ids[i]
        && rest[i].source is Tensor by {
        assert(rest[i] == reads[3 + before + i]);
        assert(model_tensors(config)[3 + before + i] == all[before + i]);
        assert(layers_tensors(config, l + 1)[before + i] == ids[i]);
        assert(all.take(layers_tensors(config, l + 1).len() as int)[before + i] == all[before + i]);
        assert(all.contains(all[before + i]));
        lemma_layers_tensors(config, n, all[before + i]);
    }
}

/// Puts a model's tensors, all of them done with, to their uses.
pub(crate) fn assemble<H>(config: &Config, reads: VecDeque<Read<H>>) -> (r: ModelParts<H>)
    requires
        is_complete(reads@, *config),
    ensures
        is_model(r, reads@, *config),
{
    let ghost all = reads@;
    let mut reads = reads;
    let ghost list = model_tensors(*config);
    proof {
        assert(list[0] == TensorId::TokenEmbd);
        assert(list[1] == TensorId::OutputNorm);
        assert(list[2] == TensorId::Output);
        assert(all[0].id == list[0] && all[1].id == list[1] && all[2].id == list[2]);
        assert(all.contains(all[0]) && all.contains(all[1]) && all.contains(all[2]));
    }
    let tok_embeddings = take_tensor(&mut reads);
    assert(reads@[0] == all[1]);
    let norm = match reads.pop_front() {
        Some(Read { source: Source::Tensor(h), .. }) => NormWeight::Tensor(h),
        _ => NormWeight::Ones { len: config.embedding_length },
    };
    assert(reads@[0] == all[2]);
    let output = match reads.pop_front() {
        Some(Read { source: Source::Tensor(h), .. }) => OutputWeight::Tensor(h),
        _ => OutputWeight::TokenEmbeddings,
    };
    assert(reads@ =~= all.skip(3 + layers_tensors(*config, 0).len() as int));
    let mut layers: Vec<LayerParts<H>> = Vec::new();
    while layers.len() < config.block_count
        invariant
            is_complete(all, *config),
            layers@.len() <= config.block_count,
            reads@ == all.skip(3 + layers_tensors(*config, layers@.len() as int).len() as int),
            3 + layers_tensors(*config, layers@.len() as int).len() <= all.len(),
            forall|l: int|
                0 <= l < layers@.len() ==> is_layer(#[trigger] layers@[l], all, *config, l),
        decreases config.block_count - layers@.len(),
    {
        let layer: usize = layers.len();
        let ghost at = 3 + layers_tensors(*config, layer as int).len() as int;
        proof {
            lemma_layer_position(all, *config, layer as int);
        }
        let parts = take_layer(&mut reads, config, layer);
        proof {
            lemma_later_reads_are_reads(all, at);
            assert(is_layer(parts, all, *config, layer as int));
            assert(reads@ =~= all.skip(
                3 + layers_tensors(*config, layer as int + 1).len() as int,
            ));
        }
        layers.push(parts);
    }
    ModelParts {
        tok_embeddings,
        norm,
        output,
        layers,
        rms_norm_eps_bits: config.rms_norm_eps_bits,
    }
}

/// Which tensor is put to a use is determined: a tensor is read only once, and where it was read
/// nothing stands in for it.
pub proof fn law_reads_are_determined<H>(
    reads: Seq<Read<H>>,
    config: Config,
    id: TensorId,
    h1: H,
    h2: H,
    f: Fallback,
)
    requires
        is_complete(reads, config),
        is_read(reads, id, h1),
    ensures
        belongs(config, id),
        is_read(reads, id, h2) ==> h1 == h2,
        !is_stood_in(reads, id, f),
{
    let list = model_tensors(config);
    law_model_tensors_are_those_that_belong(config, id);
    let r1 = Read { id, source: Source::Tensor(h1) };
    let i = reads.index_of(r1);
    assert(reads[i] == r1);
    assert(list[i] == id);
    if is_read(reads, id, h2) {
        let r2 = Read { id, source: Source::Tensor(h2) };
        let j = reads.index_of(r2);
        assert(reads[j] == r2);
        assert(list[j] == id);
    }
    if is_stood_in(reads, id, f) {
        let r2 = Read { id, source: Source::StandIn(f) };
        let j = reads.index_of(r2);
        assert(reads[j] == r2);
        assert(list[j] == id);
    }
}

/// A model without a final norm has ones in its place, one for each element of an embedding; the
/// missing tensor is no reason not to load it.
pub proof fn law_missing_norm_is_ones<H>(p: ModelParts<H>, reads: Seq<Read<H>>, config: Config)
    requires
        is_complete(reads, config),
        is_model(p, reads, config),
        forall|h: H| !is_read(reads, TensorId::OutputNorm, h),
    ensures
        p.norm == (NormWeight::<H>::Ones { len: config.embedding_length }),
        p.rms_norm_eps_bits == config.rms_norm_eps_bits,
{
}


/// What each weight of a model is, tensor by tensor: the handle that was read for the tensor of that
/// layer, that part and that expert. The final norm and the output matrix have their stand-ins where
/// they were not read.
pub proof fn law_weights_are_the_tensors_of_their_name<H>(
    p: ModelParts<H>,
    reads: Seq<Read<H>>,
    config: Config,
    l: int,
    e: int,
)
    requires
        is_complete(reads, config),
        is_model(p, reads, config),
    ensures
        reads.contains(
            Read { id: TensorId::TokenEmbd, source: Source::Tensor(p.tok_embeddings) },
        ),
        match p.norm {
            NormWeight::Tensor(h) => reads.contains(
                Read { id: TensorId::OutputNorm, source: Source::Tensor(h) },
            ),
            NormWeight::Ones { len } => len == config.embedding_length && (forall|h: H|
                !reads.contains(Read { id: TensorId::OutputNorm, source: Source::Tensor(h) })),
        },
        match p.output {
            OutputWeight::Tensor(h) => reads.contains(
                Read { id: TensorId::Output, source: Source::Tensor(h) },
            ),
            OutputWeight::TokenEmbeddings => forall|h: H|
                !reads.contains(Read { id: TensorId::Output, source: Source::Tensor(h) }),
        },
        p.layers@.len() == config.block_count,
        p.rms_norm_eps_bits == config.rms_norm_eps_bits,
        0 <= l < config.block_count ==> {
            &&& reads.contains(
                Read { id: TensorId::Layer { layer: l as usize, part: LayerPart::AttnQ }, source: Source::Tensor(p.layers@[l].attention_wq) },
            )
            &&& reads.contains(
                Read { id: TensorId::Layer { layer: l as usize, part: LayerPart::AttnK }, source: Source::Tensor(p.layers@[l].attention_wk) },
            )
            &&& reads.contains(
                Read { id: TensorId::Layer { layer: l as usize, part: LayerPart::AttnV }, source: Source::Tensor(p.layers@[l].attention_wv) },
            )
            &&& reads.contains(
                Read { id: TensorId::Layer { layer: l as usize, part: LayerPart::AttnOutput }, source: Source::Tensor(p.layers@[l].attention_wo) },
            )
            &&& reads.contains(
                Read { id: TensorId::Layer { layer: l as usize, part: LayerPart::AttnNorm }, source: Source::Tensor(p.layers@[l].attention_norm) },
            )
            &&& reads.contains(
                Read { id: TensorId::Layer { layer: l as usize, part: LayerPart::FfnNorm }, source: Source::Tensor(p.layers@[l].ffn_norm) },
            )
            &&& match p.layers@[l].feed_forward {
                FeedForwardParts::Mlp(mlp) => {
                    &&& config.n_expert <= 1
                    &&& reads.contains(
                        Read { id: TensorId::Layer { layer: l as usize, part: LayerPart::FfnGate }, source: Source::Tensor(mlp.feed_forward_w1) },
                    )
                    &&& reads.contains(
                        Read { id: TensorId::Layer { layer: l as usize, part: LayerPart::FfnDown }, source: Source::Tensor(mlp.feed_forward_w2) },
                    )
                    &&& reads.contains(
                        Read { id: TensorId::Layer { layer: l as usize, part: LayerPart::FfnUp }, source: Source::Tensor(mlp.feed_forward_w3) },
                    )
                },
                FeedForwardParts::MoE { feed_forward_gate_inp, experts } => {
                    &&& config.n_expert > 1
                    &&& experts@.len() == config.n_expert
                    &&& reads.contains(
                        Read { id: TensorId::Layer { layer: l as usize, part: LayerPart::FfnGateInp }, source: Source::Tensor(feed_forward_gate_inp) },
                    )
                    &&& 0 <= e < experts@.len() ==> reads.contains(
                        Read { id: TensorId::Expert { layer: l as usize, weight: ExpertPart::Gate, expert: e as usize }, source: Source::Tensor(experts@[e].feed_forward_w1) },
                    )
                    &&& 0 <= e < experts@.len() ==> reads.contains(
                        Read { id: TensorId::Expert { layer: l as usize, weight: ExpertPart::Down, expert: e as usize }, source: Source::Tensor(experts@[e].feed_forward_w2) },
                    )
                    &&& 0 <= e < experts@.len() ==> reads.contains(
                        Read { id: TensorId::Expert { layer: l as usize, weight: ExpertPart::Up, expert: e as usize }, source: Source::Tensor(experts@[e].feed_forward_w3) },
                    )
                },
            }
        },
{
    if p.norm is Ones {
        assert forall|h: H|
            !reads.contains(Read { id: TensorId::OutputNorm, source: Source::Tensor(h) }) by {
            if is_read(reads, TensorId::OutputNorm, h) {
                law_reads_are_determined(reads, config, TensorId::OutputNorm, h, h, Fallback::Ones);
            }
        }
    }
    if p.output is TokenEmbeddings {
        assert forall|h: H|
            !reads.contains(Read { id: TensorId::Output, source: Source::Tensor(h) }) by {
            if is_read(reads, TensorId::Output, h) {
                let f = Fallback::TokenEmbeddings;
                law_reads_are_determined(reads, config, TensorId::Output, h, h, f);
            }
        }
    }
    if 0 <= l < config.block_count {
        let layer = p.layers@[l];
        assert(is_layer(layer, reads, config, l));
        if let FeedForwardParts::MoE { experts, .. } = layer.feed_forward {
            if 0 <= e < experts@.len() {
                assert(is_expert(experts@[e], reads, l, e));
            }
        }
    }
}

} // verus!
