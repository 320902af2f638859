//! Loading of a model's tensors: which are read, in which order, and what is done where one cannot
//! be read.

use crate::config::Config;
use crate::names::{ExpertPart, LayerPart, TensorId};
use crate::weights::{
    assemble, is_model, lemma_expert_positions, lemma_layers_come_in_order, ModelParts, Read, Source,
};
use std::collections::VecDeque;
use vstd::prelude::*;

verus! {

/// A part of a layer.
pub open spec fn layer_part(layer: int, part: LayerPart) -> TensorId {
    TensorId::Layer { layer: layer as usize, part }
}

/// A part of an expert.
pub open spec fn expert_part(layer: int, expert: int, weight: ExpertPart) -> TensorId {
    TensorId::Expert { layer: layer as usize, weight, expert: expert as usize }
}

/// The attention weights of a layer.
pub open spec fn attention_tensors(layer: int) -> Seq<TensorId> {
    seq![
        layer_part(layer, LayerPart::AttnQ),
        layer_part(layer, LayerPart::AttnK),
        layer_part(layer, LayerPart::AttnV),
        layer_part(layer, LayerPart::AttnOutput),
    ]
}

/// The weights of a layer's first `n` experts.
pub open spec fn expert_tensors(layer: int, n: int) -> Seq<TensorId>
    decreases n,
{
    if n <= 0 {
        Seq::empty()
    } else {
        expert_tensors(layer, n - 1) + seq![
            expert_part(layer, n - 1, ExpertPart::Gate),
            expert_part(layer, n - 1, ExpertPart::Down),
            expert_part(layer, n - 1, ExpertPart::Up),
        ]
    }
}

/// The feed-forward weights of a layer: a router and experts, or three matrices.
pub open spec fn feed_forward_tensors(config: Config, layer: int) -> Seq<TensorId> {
    if config.spec_is_moe() {
        seq![layer_part(layer, LayerPart::FfnGateInp)] + expert_tensors(
            layer,
            config.n_expert as int,
        )
    } else {
        seq![
            layer_part(layer, LayerPart::FfnGate),
            layer_part(layer, LayerPart::FfnDown),
            layer_part(layer, LayerPart::FfnUp),
        ]
    }
}

/// The norms of a layer.
pub open spec fn norm_tensors(layer: int) -> Seq<TensorId> {
    seq![layer_part(layer, LayerPart::AttnNorm), layer_part(layer, LayerPart::FfnNorm)]
}

/// The weights of a layer, in the order in which they are read.
pub open spec fn layer_tensors(config: Config, layer: int) -> Seq<TensorId> {
    attention_tensors(layer) + feed_forward_tensors(config, layer) + norm_tensors(layer)
}

/// The weights of the first `n` layers.
pub open spec fn layers_tensors(config: Config, n: int) -> Seq<TensorId>
    decreases n,
{
    if n <= 0 {
        Seq::empty()
    } else {
        layers_tensors(config, n - 1) + layer_tensors(config, n - 1)
    }
}

/// The tensors of a model, in the order in which they are read.
pub open spec fn model_tensors(config: Config) -> Seq<TensorId> {
    seq![TensorId::TokenEmbd, TensorId::OutputNorm, TensorId::Output] + layers_tensors(
        config,
        config.block_count as int,
    )
}

/// Adds the weights of a layer's experts.
fn push_experts(list: &mut Vec<TensorId>, layer: usize, n: usize)
    ensures
        final(list)@ == old(list)@ + expert_tensors(layer as int, n as int),
{
    let ghost start = list@;
    let mut expert: usize = 0;
    assert(start =~= start + expert_tensors(layer as int, 0));
    while expert < n
        invariant
            expert <= n,
            list@ == start + expert_tensors(layer as int, expert as int),
        decreases n - expert,
    {
        list.push(TensorId::Expert { layer, weight: ExpertPart::Gate, expert });
        list.push(TensorId::Expert { layer, weight: ExpertPart::Down, expert });
        list.push(TensorId::Expert { layer, weight: ExpertPart::Up, expert });
        expert += 1;
        assert(list@ =~= start + expert_tensors(layer as int, expert as int));
    }
}

/// Adds the weights of a layer.
fn push_layer(list: &mut Vec<TensorId>, config: &Config, layer: usize)
    ensures
        final(list)@ == old(list)@ + layer_tensors(*config, layer as int),
{
    list.push(TensorId::Layer { layer, part: LayerPart::AttnQ });
    list.push(TensorId::Layer { layer, part: LayerPart::AttnK });
    list.push(TensorId::Layer { layer, part: LayerPart::AttnV });
    list.push(TensorId::Layer { layer, part: LayerPart::AttnOutput });
    if config.is_moe() {
        list.push(TensorId::Layer { layer, part: LayerPart::FfnGateInp });
        push_experts(list, layer, config.n_expert);
    } else {
        list.push(TensorId::Layer { layer, part: LayerPart::FfnGate });
        list.push(TensorId::Layer { layer, part: LayerPart::FfnDown });
        list.push(TensorId::Layer { layer, part: LayerPart::FfnUp });
    }
    list.push(TensorId::Layer { layer, part: LayerPart::AttnNorm });
    list.push(TensorId::Layer { layer, part: LayerPart::FfnNorm });
    assert(list@ =~= old(list)@ + layer_tensors(*config, layer as int));
}

/// The tensors of a model, in the order in which they are read.
pub fn tensor_list(config: &Config) -> (r: Vec<TensorId>)
    ensures
        r@ == model_tensors(*config),
{
    let mut list: Vec<TensorId> = Vec::new();
    list.push(TensorId::TokenEmbd);
    list.push(TensorId::OutputNorm);
    list.push(TensorId::Output);
    let ghost start = list@;
    let mut layer: usize = 0;
    assert(start =~= start + layers_tensors(*config, 0));
    while layer < config.block_count
        invariant
            layer <= config.block_count,
            list@ == start + layers_tensors(*config, layer as int),
        decreases config.block_count - layer,
    {
        push_layer(&mut list, config, layer);
        layer += 1;
        assert(list@ =~= start + layers_tensors(*config, layer as int));
    }
    assert(start =~= seq![TensorId::TokenEmbd, TensorId::OutputNorm, TensorId::Output]);
    list
}

/// What is done where a tensor cannot be read.
#[derive(Clone, Copy, Debug, PartialEq, Eq, Structural)]
pub enum Fallback {
    /// The model cannot be loaded.
    Fail,
    /// Ones are used, one for each element of an embedding.
    Ones,
    /// The token embeddings are used.
    TokenEmbeddings,
}

/// How often a tensor is tried: twice for the final norm and for `ffn_gate` outside of a mixture of
/// experts, once for any other.
pub open spec fn attempts(id: TensorId) -> nat {
    match id {
        TensorId::OutputNorm => 2,
        TensorId::Layer { part: LayerPart::FfnGate, .. } => 2,
        _ => 1,
    }
}

/// What stands in for a tensor that cannot be read.
pub open spec fn fallback_of(id: TensorId) -> Fallback {
    match id {
        TensorId::OutputNorm => Fallback::Ones,
        TensorId::Output => Fallback::TokenEmbeddings,
        _ => Fallback::Fail,
    }
}

/// How often a tensor is tried.
fn tries(id: TensorId) -> (r: usize)
    ensures
        r == attempts(id),
{
    match id {
        TensorId::OutputNorm => 2,
        TensorId::Layer { part: LayerPart::FfnGate, .. } => 2,
        _ => 1,
    }
}

/// What stands in for a tensor that cannot be read.
fn stand_in(id: TensorId) -> (r: Fallback)
    ensures
        r == fallback_of(id),
{
    match id {
        TensorId::OutputNorm => Fallback::Ones,
        TensorId::Output => Fallback::TokenEmbeddings,
        _ => Fallback::Fail,
    }
}

/// What comes next after an attempt to read a tensor.
#[derive(Clone, Copy, Debug, PartialEq, Eq, Structural)]
pub enum LoadStep {
    /// Use the tensor that was read.
    Use,
    /// Try once more.
    Retry,
    /// Do without it.
    FallBack(Fallback),
}

/// What comes next after an attempt to read `id` that came after `failures` failed ones.
pub open spec fn load_step(id: TensorId, failures: nat, found: bool) -> LoadStep {
    if found {
        LoadStep::Use
    } else if failures + 1 < attempts(id) {
        LoadStep::Retry
    } else {
        LoadStep::FallBack(fallback_of(id))
    }
}

/// Loading of a model's tensors: those that are done with, and how often the next one failed. `H` is
/// the handle of a tensor.
pub struct Loader<H> {
    config: Config,
    list: Vec<TensorId>,
    reads: VecDeque<Read<H>>,
    failures: usize,
}

/// Progress of loading: all tensors, how many are done with, and how often the next one failed.
pub struct Progress {
    pub list: Seq<TensorId>,
    pub at: nat,
    pub failures: nat,
}

impl<H> View for Loader<H> {
    type V = Progress;

    closed spec fn view(&self) -> Progress {
        Progress { list: self.list@, at: self.reads@.len(), failures: self.failures as nat }
    }
}

impl Progress {
    /// The next tensor has an attempt left.
    pub open spec fn wf(self) -> bool {
        &&& self.at <= self.list.len()
        &&& self.at == self.list.len() ==> self.failures == 0
        &&& self.at < self.list.len() ==> self.failures < attempts(self.list[self.at as int])
    }

    /// What comes next after an attempt to read the next tensor.
    pub open spec fn step(self, found: bool) -> LoadStep {
        load_step(self.list[self.at as int], self.failures, found)
    }

    /// Progress after an attempt to read the next tensor. A model that cannot be loaded gets no
    /// further.
    pub open spec fn after(self, found: bool) -> Progress {
        match self.step(found) {
            LoadStep::Retry => Progress { failures: self.failures + 1, ..self },
            LoadStep::FallBack(Fallback::Fail) => self,
            _ => Progress { at: self.at + 1, failures: 0, ..self },
        }
    }

    /// Most attempts that are still to come.
    pub open spec fn attempts_left(self) -> int {
        2 * (self.list.len() - self.at) - self.failures
    }
}

impl<H> Loader<H> {
    /// The hyperparameters of the model that is loaded.
    pub closed spec fn spec_config(self) -> Config {
        self.config
    }

    /// The tensors that are done with.
    pub closed spec fn spec_reads(self) -> Seq<Read<H>> {
        self.reads@
    }

    /// The model's tensors are gone through in order, and only what can stand in for one does so.
    pub open spec fn wf(self) -> bool {
        &&& self@.wf()
        &&& self@.list == model_tensors(self.spec_config())
        &&& self@.at == self.spec_reads().len()
        &&& forall|i: int|
            0 <= i < self.spec_reads().len() ==> (#[trigger] self.spec_reads()[i]).id
                == self@.list[i] && self.spec_reads()[i].wf()
    }

    /// Nothing is read yet.
    pub fn new(config: &Config) -> (r: Self)
        ensures
            r@ == (Progress { list: model_tensors(*config), at: 0, failures: 0 }),
            r.spec_config() == *config,
            r.spec_reads() == Seq::<Read<H>>::empty(),
            r.wf(),
    {
        Loader { config: *config, list: tensor_list(config), reads: VecDeque::new(), failures: 0 }
    }

    /// The tensor to read next.
    pub fn next(&self) -> (r: Option<TensorId>)
        requires
            self.wf(),
        ensures
            r is Some <==> self@.at < self@.list.len(),
            r matches Some(id) ==> id == self@.list[self@.at as int],
    {
        if self.reads.len() < self.list.len() {
            Some(self.list[self.reads.len()])
        } else {
            None
        }
    }

    /// Takes in the outcome of an attempt to read the next tensor, and says what is done with it.
    /// The error is for a tensor that nothing can stand in for.
    pub fn feed<E>(&mut self, read: Result<H, E>) -> (r: Result<LoadStep, E>)
        requires
            old(self).wf(),
            old(self)@.at < old(self)@.list.len(),
        ensures
            final(self).wf(),
            final(self)@ == old(self)@.after(read is Ok),
            final(self).spec_config() == old(self).spec_config(),
            ({
                let id = old(self)@.list[old(self)@.at as int];
                let reads = old(self).spec_reads();
                let step = old(self)@.step(read is Ok);
                match (step, read) {
                    (LoadStep::Use, Ok(h)) => {
                        &&& r == Ok::<LoadStep, E>(step)
                        &&& final(self).spec_reads() == reads.push(
                            Read { id, source: Source::Tensor(h) },
                        )
                    },
                    (LoadStep::FallBack(Fallback::Fail), Err(e)) => {
                        &&& r == Err::<LoadStep, E>(e)
                        &&& final(self).spec_reads() == reads
                    },
                    (LoadStep::FallBack(f), _) => {
                        &&& r == Ok::<LoadStep, E>(step)
                        &&& final(self).spec_reads() == reads.push(
                            Read { id, source: Source::StandIn(f) },
                        )
                    },
                    _ => {
                        &&& r == Ok::<LoadStep, E>(step)
                        &&& final(self).spec_reads() == reads
                    },
                }
            }),
    {
        let id = self.list[self.reads.len()];
        let e = match read {
            Ok(h) => {
                self.reads.push_back(Read { id, source: Source::Tensor(h) });
                self.failures = 0;
                return Ok(LoadStep::Use);
            },
            Err(e) => e,
        };
        if self.failures + 1 < tries(id) {
            self.failures += 1;
            return Ok(LoadStep::Retry);
        }
        let fallback = stand_in(id);
        if fallback == Fallback::Fail {
            return Err(e);
        }
        self.reads.push_back(Read { id, source: Source::StandIn(fallback) });
        self.failures = 0;
        Ok(LoadStep::FallBack(fallback))
    }

    /// The weights of the model, once all its tensors are done with.
    pub fn finish(self) -> (r: ModelParts<H>)
        requires
            self.wf(),
            self@.at == self@.list.len(),
        ensures
            is_model(r, self.spec_reads(), self.spec_config()),
    {
        assemble(&self.config, self.reads)
    }
}

/// Every attempt brings loading nearer to its end, unless the model cannot be loaded.
pub proof fn law_loading_ends(p: Progress, found: bool)
    requires
        p.wf(),
        p.at < p.list.len(),
        p.step(found) != LoadStep::FallBack(Fallback::Fail),
    ensures
        p.after(found).wf(),
        0 <= p.after(found).attempts_left() < p.attempts_left(),
{
}

/// A model fails to load only for want of a tensor that nothing can stand in for: neither the final
/// norm nor the output matrix is ever the reason.
pub proof fn law_only_required_tensors_fail(p: Progress, found: bool)
    requires
        p.step(found) == LoadStep::FallBack(Fallback::Fail),
    ensures
        !found,
        p.list[p.at as int] != TensorId::OutputNorm,
        p.list[p.at as int] != TensorId::Output,
{
}

/// The tensor belongs to a model with these hyperparameters.
pub open spec fn belongs(config: Config, id: TensorId) -> bool {
    match id {
        TensorId::TokenEmbd | TensorId::OutputNorm | TensorId::Output => true,
        TensorId::Layer { layer, part } => layer < config.block_count && belongs_to_layer(
            config,
            part,
        ),
        TensorId::Expert { layer, expert, .. } => {
            layer < config.block_count && config.spec_is_moe() && expert < config.n_expert
        },
    }
}

/// Layers have the part once: the router only in a mixture of experts, the feed-forward matrices
/// only outside of one.
pub open spec fn belongs_to_layer(config: Config, part: LayerPart) -> bool {
    match part {
        LayerPart::FfnGateInp => config.spec_is_moe(),
        LayerPart::FfnGate | LayerPart::FfnDown | LayerPart::FfnUp => !config.spec_is_moe(),
        _ => true,
    }
}

/// Which of a layer's experts the list of their weights holds, and that it holds none twice.
proof fn lemma_expert_tensors(layer: usize, n: int, id: TensorId)
    requires
        0 <= n <= usize::MAX,
    ensures
        expert_tensors(layer as int, n).contains(id) <==> (id matches TensorId::Expert {
            layer: l,
            expert: e,
            ..
        } && l == layer && e < n),
        expert_tensors(layer as int, n).no_duplicates(),
    decreases n,
{
    if n > 0 {
        let front = expert_tensors(layer as int, n - 1);
        let gate = expert_part(layer as int, n - 1, ExpertPart::Gate);
        let down = expert_part(layer as int, n - 1, ExpertPart::Down);
        let up = expert_part(layer as int, n - 1, ExpertPart::Up);
        let last = seq![gate, down, up];
        lemma_expert_tensors(layer, n - 1, id);
        assert(last[0] == gate && last[1] == down && last[2] == up);
        assert forall|x: TensorId| front.contains(x) implies !last.contains(x) by {
            lemma_expert_tensors(layer, n - 1, x);
        }
        lemma_appended(front, last, id);
    }
}

/// A list put together of two holds what either holds, and nothing twice if neither does and they
/// share nothing.
proof fn lemma_appended(a: Seq<TensorId>, b: Seq<TensorId>, id: TensorId)
    ensures
        (a + b).contains(id) <==> a.contains(id) || b.contains(id),
        a.no_duplicates() && b.no_duplicates() && (forall|x: TensorId|
            a.contains(x) ==> !b.contains(x)) ==> (a + b).no_duplicates(),
{
    let s = a + b;
    if a.contains(id) {
        let i = a.index_of(id);
        assert(s[i] == id);
    }
    if b.contains(id) {
        let i = b.index_of(id);
        assert(s[a.len() + i] == id);
    }
    if s.contains(id) {
        let i = s.index_of(id);
        assert(s[i] == id);
        if i < a.len() {
            assert(a[i] == id);
        } else {
            assert(b[i - a.len()] == id);
        }
    }
    if a.no_duplicates() && b.no_duplicates() && (forall|x: TensorId|
        a.contains(x) ==> !b.contains(x)) {
        assert forall|i: int, j: int| 0 <= i < s.len() && 0 <= j < s.len() && i != j implies s[i]
            != s[j] by {
            if i < a.len() && j >= a.len() {
                assert(a.contains(s[i]));
                assert(b[j - a.len()] == s[j]);
            }
            if j < a.len() && i >= a.len() {
                assert(a.contains(s[j]));
                assert(b[i - a.len()] == s[i]);
            }
        }
    }
}

/// Which tensors the list of a layer's weights holds, and that it holds none twice.
proof fn lemma_layer_tensors(config: Config, layer: usize, id: TensorId)
    ensures
        layer_tensors(config, layer as int).contains(id) <==> match id {
            TensorId::Layer { layer: l, part } => l == layer && belongs_to_layer(config, part),
            TensorId::Expert { layer: l, expert, .. } => {
                l == layer && config.spec_is_moe() && expert < config.n_expert
            },
            _ => false,
        },
        layer_tensors(config, layer as int).no_duplicates(),
{
    let att = attention_tensors(layer as int);
    let ffn = feed_forward_tensors(config, layer as int);
    let norms = norm_tensors(layer as int);
    lemma_feed_forward_tensors(config, layer, id);
    assert(att[0] == layer_part(layer as int, LayerPart::AttnQ));
    assert(att[1] == layer_part(layer as int, LayerPart::AttnK));
    assert(att[2] == layer_part(layer as int, LayerPart::AttnV));
    assert(att[3] == layer_part(layer as int, LayerPart::AttnOutput));
    assert(norms[0] == layer_part(layer as int, LayerPart::AttnNorm));
    assert(norms[1] == layer_part(layer as int, LayerPart::FfnNorm));
    assert forall|x: TensorId| att.contains(x) implies !ffn.contains(x) by {
        lemma_feed_forward_tensors(config, layer, x);
    }
    lemma_appended(att, ffn, id);
    assert forall|x: TensorId| (att + ffn).contains(x) implies !norms.contains(x) by {
        lemma_feed_forward_tensors(config, layer, x);
        lemma_appended(att, ffn, x);
    }
    lemma_appended(att + ffn, norms, id);
}

/// Which tensors the list of a layer's feed-forward weights holds, and that it holds none twice.
proof fn lemma_feed_forward_tensors(config: Config, layer: usize, id: TensorId)
    ensures
        feed_forward_tensors(config, layer as int).contains(id) <==> match id {
            TensorId::Layer { layer: l, part } => {
                &&& l == layer && belongs_to_layer(config, part)
                &&& part is FfnGateInp || part is FfnGate || part is FfnDown || part is FfnUp
            },
            TensorId::Expert { layer: l, expert, .. } => {
                l == layer && config.spec_is_moe() && expert < config.n_expert
            },
            _ => false,
        },
        feed_forward_tensors(config, layer as int).no_duplicates(),
{
    let ffn = feed_forward_tensors(config, layer as int);
    if config.spec_is_moe() {
        let router = seq![layer_part(layer as int, LayerPart::FfnGateInp)];
        let experts = expert_tensors(layer as int, config.n_expert as int);
        assert(router[0] == layer_part(layer as int, LayerPart::FfnGateInp));
        lemma_expert_tensors(layer, config.n_expert as int, id);
        assert forall|x: TensorId| router.contains(x) implies !experts.contains(x) by {
            lemma_expert_tensors(layer, config.n_expert as int, x);
        }
        lemma_appended(router, experts, id);
    } else {
        assert(ffn[0] == layer_part(layer as int, LayerPart::FfnGate));
        assert(ffn[1] == layer_part(layer as int, LayerPart::FfnDown));
        assert(ffn[2] == layer_part(layer as int, LayerPart::FfnUp));
    }
}

/// Which tensors the list of the first layers' weights holds, and that it holds none twice.
pub(crate) proof fn lemma_layers_tensors(config: Config, n: int, id: TensorId)
    requires
        0 <= n <= config.block_count,
    ensures
        layers_tensors(config, n).contains(id) <==> belongs(config, id) && match id {
            TensorId::Layer { layer, .. } => layer < n,
            TensorId::Expert { layer, .. } => layer < n,
            _ => false,
        },
        layers_tensors(config, n).no_duplicates(),
    decreases n,
{
    if n > 0 {
        let front = layers_tensors(config, n - 1);
        let last = layer_tensors(config, n - 1);
        lemma_layers_tensors(config, n - 1, id);
        lemma_layer_tensors(config, (n - 1) as usize, id);
        assert forall|x: TensorId| front.contains(x) implies !last.contains(x) by {
            lemma_layers_tensors(config, n - 1, x);
            lemma_layer_tensors(config, (n - 1) as usize, x);
        }
        lemma_appended(front, last, id);
    }
}

/// Exactly the tensors that belong to the model are read, and none of them is listed twice.
pub proof fn law_model_tensors_are_those_that_belong(config: Config, id: TensorId)
    ensures
        model_tensors(config).contains(id) <==> belongs(config, id),
        model_tensors(config).no_duplicates(),
{
    let heads = seq![TensorId::TokenEmbd, TensorId::OutputNorm, TensorId::Output];
    let layers = layers_tensors(config, config.block_count as int);
    assert(heads[0] == TensorId::TokenEmbd);
    assert(heads[1] == TensorId::OutputNorm);
    assert(heads[2] == TensorId::Output);
    lemma_layers_tensors(config, config.block_count as int, id);
    assert forall|x: TensorId| heads.contains(x) implies !layers.contains(x) by {
        lemma_layers_tensors(config, config.block_count as int, x);
    }
    lemma_appended(heads, layers, id);
}

/// Progress at the end of loading from a file that has the tensors `present`: either all tensors
/// are done with, or one is missing that nothing can stand in for.
pub open spec fn loaded(p: Progress, present: spec_fn(TensorId) -> bool) -> Progress
    decreases p.attempts_left(),
    when p.wf()
{
    if p.at == p.list.len() {
        p
    } else {
        let found = present(p.list[p.at as int]);
        if p.step(found) == LoadStep::FallBack(Fallback::Fail) {
            p
        } else {
            loaded(p.after(found), present)
        }
    }
}

/// The file has every tensor of the list from position `at` on that nothing can stand in for.
pub open spec fn has_rest(
    list: Seq<TensorId>,
    at: int,
    present: spec_fn(TensorId) -> bool,
) -> bool {
    forall|i: int|
        at <= i < list.len() && fallback_of(#[trigger] list[i]) == Fallback::Fail ==> present(
            list[i],
        )
}

/// Loading goes through from here exactly if the file has the rest.
proof fn lemma_loaded(p: Progress, present: spec_fn(TensorId) -> bool)
    requires
        p.wf(),
    ensures
        loaded(p, present).at == p.list.len() <==> has_rest(p.list, p.at as int, present),
        loaded(p, present).list == p.list,
    decreases p.attempts_left(),
{
    if p.at < p.list.len() {
        let id = p.list[p.at as int];
        let found = present(id);
        if p.step(found) != LoadStep::FallBack(Fallback::Fail) {
            law_loading_ends(p, found);
            lemma_loaded(p.after(found), present);
        }
        if p.step(found) != LoadStep::Retry && has_rest(p.list, (p.at + 1) as int, present)
            && (fallback_of(
            id,
        ) == Fallback::Fail ==> found) {
            assert(has_rest(p.list, p.at as int, present));
        }
    }
}

/// A model can be loaded from a file exactly if the file has all tensors that belong to it, where
/// the final norm and the output matrix may be missing.
pub proof fn law_which_files_load(config: Config, present: spec_fn(TensorId) -> bool)
    ensures
        ({
            let start = Progress { list: model_tensors(config), at: 0, failures: 0 };
            loaded(start, present).at == start.list.len() <==> forall|id: TensorId|
                #[trigger] belongs(config, id) && id != TensorId::OutputNorm && id
                    != TensorId::Output ==> present(id)
        }),
{
    let start = Progress { list: model_tensors(config), at: 0, failures: 0 };
    lemma_loaded(start, present);
    let list = start.list;
    if has_rest(list, 0, present) {
        assert forall|id: TensorId|
            #[trigger] belongs(config, id) && id != TensorId::OutputNorm && id
                != TensorId::Output implies present(id) by {
            law_model_tensors_are_those_that_belong(config, id);
            let i = list.index_of(id);
            assert(list[i] == id);
        }
    }
    if forall|id: TensorId|
        #[trigger] belongs(config, id) && id != TensorId::OutputNorm && id != TensorId::Output
            ==> present(id) {
        assert forall|i: int|
            0 <= i < list.len() && fallback_of(#[trigger] list[i])
                == Fallback::Fail implies present(list[i]) by {
            law_model_tensors_are_those_that_belong(config, list[i]);
            assert(list.contains(list[i]));
            assert(belongs(config, list[i]));
        }
    }
}


/// What is done after an attempt, in full. A tensor that was found is used. The final norm and
/// `ffn_gate` outside of a mixture are tried once more after the first failure. After that, ones stand
/// in for the final norm and the token embeddings for the output matrix; for want of anything else
/// loading stops where it is.
pub proof fn law_attempts_in_full(p: Progress, found: bool, id: TensorId)
    requires
        p.wf(),
        p.at < p.list.len(),
        id == p.list[p.at as int],
    ensures
        ({
            let again = id == TensorId::OutputNorm || (id matches TensorId::Layer { part, .. }
                && part
                == LayerPart::FfnGate);
            let q = p.after(found);
            &&& q.list == p.list
            &&& if found {
                p.step(found) == LoadStep::Use && q.at == p.at + 1 && q.failures == 0
            } else if again && p.failures == 0 {
                p.step(found) == LoadStep::Retry && q.at == p.at && q.failures == 1
            } else if id == TensorId::OutputNorm {
                p.step(found) == LoadStep::FallBack(Fallback::Ones) && q.at == p.at + 1
                    && q.failures
                    == 0
            } else if id == TensorId::Output {
                p.step(found) == LoadStep::FallBack(Fallback::TokenEmbeddings) && q.at == p.at + 1
                    && q.failures == 0
            } else {
                p.step(found) == LoadStep::FallBack(Fallback::Fail) && q == p
            }
        }),
{
}

/// A layer takes up the same number of places as any other.
proof fn lemma_layer_lengths(config: Config, n: int)
    requires
        0 <= n,
    ensures
        !(config.n_expert > 1) ==> layers_tensors(config, n).len() == 9 * n,
        config.n_expert > 1 ==> layers_tensors(config, n).len() == (7 + 3 * config.n_expert) * n,
        config.n_expert > 1 ==> expert_tensors(n - 1, config.n_expert as int).len() == 3
            * config.n_expert,
    decreases n,
{
    let size = 7 + 3 * config.n_expert;
    if config.n_expert > 1 {
        lemma_expert_positions(n - 1, config.n_expert as int, 0);
    }
    if n > 0 {
        lemma_layer_lengths(config, n - 1);
        assert(size * n == size * (n - 1) + size) by (nonlinear_arith);
    } else {
        assert(size * n == 0) by (nonlinear_arith)
            requires
                n == 0,
        ;
    }
}

/// Where layer `l` stands in the list.
proof fn lemma_layer_place(config: Config, l: int, j: int)
    requires
        0 <= l < config.block_count,
        0 <= j < layer_tensors(config, l).len(),
    ensures
        model_tensors(config)[3 + layers_tensors(config, l).len() + j]
            == layer_tensors(config, l)[j],
        3 + layers_tensors(config, l).len() + j < model_tensors(config).len(),
{
    let all = layers_tensors(config, config.block_count as int);
    let before = layers_tensors(config, l);
    let upto = layers_tensors(config, l + 1);
    lemma_layers_come_in_order(config, l + 1, config.block_count as int);
    assert(upto == before + layer_tensors(config, l));
    assert(upto[before.len() + j] == layer_tensors(config, l)[j]);
    assert(all.take(upto.len() as int)[before.len() + j] == all[before.len() + j]);
}

/// The order in which the tensors of a model without experts are read: three that the model has
/// once, then nine for each layer.
pub proof fn law_reading_order(config: Config, l: int)
    requires
        config.n_expert <= 1,
        0 <= l < config.block_count,
    ensures
        ({
            let list = model_tensors(config);
            &&& list.len() == 3 + 9 * config.block_count
            &&& list[0] == TensorId::TokenEmbd
            &&& list[1] == TensorId::OutputNorm
            &&& list[2] == TensorId::Output
            &&& list[3 + 9 * l] == (TensorId::Layer { layer: l as usize, part: LayerPart::AttnQ })
            &&& list[3 + 9 * l + 1]
                == (TensorId::Layer { layer: l as usize, part: LayerPart::AttnK })
            &&& list[3 + 9 * l + 2]
                == (TensorId::Layer { layer: l as usize, part: LayerPart::AttnV })
            &&& list[3 + 9 * l + 3]
                == (TensorId::Layer { layer: l as usize, part: LayerPart::AttnOutput })
            &&& list[3 + 9 * l + 4]
                == (TensorId::Layer { layer: l as usize, part: LayerPart::FfnGate })
            &&& list[3 + 9 * l + 5]
                == (TensorId::Layer { layer: l as usize, part: LayerPart::FfnDown })
            &&& list[3 + 9 * l + 6]
                == (TensorId::Layer { layer: l as usize, part: LayerPart::FfnUp })
            &&& list[3 + 9 * l + 7]
                == (TensorId::Layer { layer: l as usize, part: LayerPart::AttnNorm })
            &&& list[3 + 9 * l + 8]
                == (TensorId::Layer { layer: l as usize, part: LayerPart::FfnNorm })
        }),
{
    let list = model_tensors(config);
    lemma_layer_lengths(config, l);
    lemma_layer_lengths(config, config.block_count as int);
    assert(layer_tensors(config, l).len() == 9);
    assert forall|j: int| 0 <= j < 9 implies list[3 + 9 * l + j] == #[trigger] layer_tensors(
        config,
        l,
    )[j] by {
        lemma_layer_place(config, l, j);
    }
    let ids = layer_tensors(config, l);
    assert(ids[0] == list[3 + 9 * l] && ids[1] == list[3 + 9 * l + 1]);
    assert(ids[2] == list[3 + 9 * l + 2] && ids[3] == list[3 + 9 * l + 3]);
    assert(ids[4] == list[3 + 9 * l + 4] && ids[5] == list[3 + 9 * l + 5]);
    assert(ids[6] == list[3 + 9 * l + 6] && ids[7] == list[3 + 9 * l + 7]);
    assert(ids[8] == list[3 + 9 * l + 8]);
}

/// The order in which the tensors of a mixture of experts are read: three that the model has once,
/// then for each layer the attention weights, the router, the experts one by one, and the norms.
pub proof fn law_reading_order_of_mixtures(config: Config, l: int, e: int)
    requires
        config.n_expert > 1,
        0 <= l < config.block_count,
    ensures
        ({
            let list = model_tensors(config);
            let n = config.n_expert as int;
            let at = 3 + (7 + 3 * n) * l;
            &&& list.len() == 3 + (7 + 3 * n) * config.block_count
            &&& list[0] == TensorId::TokenEmbd
            &&& list[1] == TensorId::OutputNorm
            &&& list[2] == TensorId::Output
            &&& list[at + 0] == (TensorId::Layer { layer: l as usize, part: LayerPart::AttnQ })
            &&& list[at + 1] == (TensorId::Layer { layer: l as usize, part: LayerPart::AttnK })
            &&& list[at + 2] == (TensorId::Layer { layer: l as usize, part: LayerPart::AttnV })
            &&& list[at + 3] == (TensorId::Layer { layer: l as usize, part: LayerPart::AttnOutput })
            &&& list[at + 4] == (TensorId::Layer { layer: l as usize, part: LayerPart::FfnGateInp })
            &&& 0 <= e < n ==> list[at + 5 + 3 * e + 0]
                == (TensorId::Expert { layer: l as usize, weight: ExpertPart::Gate, expert: e as usize })
            &&& 0 <= e < n ==> list[at + 5 + 3 * e + 1]
                == (TensorId::Expert { layer: l as usize, weight: ExpertPart::Down, expert: e as usize })
            &&& 0 <= e < n ==> list[at + 5 + 3 * e + 2]
                == (TensorId::Expert { layer: l as usize, weight: ExpertPart::Up, expert: e as usize })
            &&& list[at + 5 + 3 * n + 0]
                == (TensorId::Layer { layer: l as usize, part: LayerPart::AttnNorm })
            &&& list[at + 5 + 3 * n + 1]
                == (TensorId::Layer { layer: l as usize, part: LayerPart::FfnNorm })
        }),
{
    let list = model_tensors(config);
    let n = config.n_expert as int;
    let at = 3 + (7 + 3 * n) * l;
    let ids = layer_tensors(config, l);
    let experts = expert_tensors(l, n);
    lemma_layer_lengths(config, l);
    lemma_layer_lengths(config, l + 1);
    lemma_layer_lengths(config, config.block_count as int);
    assert(ids.len() == 7 + 3 * n);
    assert forall|j: int| 0 <= j < ids.len() implies list[at + j] == #[trigger] ids[j] by {
        lemma_layer_place(config, l, j);
    }
    assert(ids[0] == list[at] && ids[1] == list[at + 1] && ids[2] == list[at + 2]);
    assert(ids[3] == list[at + 3] && ids[4] == list[at + 4]);
    assert(ids[5 + 3 * n] == list[at + (5 + 3 * n)] && ids[6 + 3 * n] == list[at + (6 + 3 * n)]);
    if 0 <= e < n {
        lemma_expert_positions(l, n, e);
        assert(ids[5 + 3 * e] == experts[3 * e]);
        assert(ids[5 + 3 * e + 1] == experts[3 * e + 1]);
        assert(ids[5 + 3 * e + 2] == experts[3 * e + 2]);
        assert(ids[5 + 3 * e] == list[at + (5 + 3 * e)]);
        assert(ids[5 + 3 * e + 1] == list[at + (5 + 3 * e + 1)]);
        assert(ids[5 + 3 * e + 2] == list[at + (5 + 3 * e + 2)]);
    }
}

/// Which tensors belong to a model: those that it has once; for each of its layers the attention
/// weights and the norms; and with more than one expert the router and the experts, otherwise the
/// three feed-forward matrices.
pub proof fn law_which_tensors_belong(
    config: Config,
    layer: usize,
    part: LayerPart,
    weight: ExpertPart,
    expert: usize,
)
    ensures
        belongs(config, TensorId::TokenEmbd),
        belongs(config, TensorId::OutputNorm),
        belongs(config, TensorId::Output),
        belongs(config, (TensorId::Layer { layer, part })) <==> layer < config.block_count
            && (if part
            == LayerPart::FfnGateInp {
            config.n_expert > 1
        } else if part == LayerPart::FfnGate || part == LayerPart::FfnDown || part
            == LayerPart::FfnUp {
            config.n_expert <= 1
        } else {
            true
        }),
        belongs(config, (TensorId::Expert { layer, weight, expert })) <==> {
            &&& layer < config.block_count
            &&& config.n_expert > 1
            &&& expert < config.n_expert
        },
{
}

} // verus!
