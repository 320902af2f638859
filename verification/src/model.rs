//! A model between passes: its layers, what they have cached, and the masks built so far.

use crate::attention::{is_causal_mask, masked, LayerWeights, MaskCache};
use crate::config::{
    config_of, has_required, is_key_error, required_keys, u32_at, Config, ConfigError, Metadata,
};
use crate::fast_mmvq::ShapeError;
use crate::routing::{all_select_within, is_routing, nested, route, Routing};
use vstd::prelude::*;

verus! {

/// The feed-forward part of a layer: three matrices, or a mixture of experts.
#[derive(Clone, Copy, Debug, PartialEq, Eq, Structural)]
pub enum MlpOrMoe {
    Mlp,
    MoE { n_experts: usize, n_expert_used: usize },
}

/// Shapes of a pass through a mixture of experts.
#[derive(Clone, Copy, Debug, PartialEq, Eq)]
pub struct MoeShapes {
    /// Length of the rows that are routed to experts. There is one for each position of each
    /// sequence in the batch.
    pub hidden_dim: usize,
    /// The result: batch, positions and embedding, as in the input.
    pub out_shape: (usize, usize, usize),
}

/// The shapes of a pass over an input with dimensions `dims`: rows as long as an embedding, and a
/// result like the input.
pub open spec fn are_moe_shapes(shapes: MoeShapes, dims: Seq<usize>) -> bool {
    &&& seq![shapes.out_shape.0, shapes.out_shape.1, shapes.out_shape.2] == dims
    &&& shapes.hidden_dim == shapes.out_shape.2
}

/// The result of a mixture of experts can be added to its input, and it is made of rows as long as
/// the input's last dimension.
pub proof fn law_mixture_keeps_the_shape(shapes: MoeShapes, dims: Seq<usize>)
    requires
        are_moe_shapes(shapes, dims),
    ensures
        dims.len() == 3,
        shapes.out_shape.0 == dims[0] && shapes.out_shape.1 == dims[1] && shapes.out_shape.2
            == dims[2],
        shapes.hidden_dim == dims.last(),
{
    let s = seq![shapes.out_shape.0, shapes.out_shape.1, shapes.out_shape.2];
    assert(s[0] == dims[0] && s[1] == dims[1] && s[2] == dims[2]);
}

impl MlpOrMoe {
    /// Shapes of a pass over an input with dimensions `dims`. Only a mixture of experts takes the
    /// input apart, so only there it has to have three dimensions.
    pub fn forward(&self, dims: &Vec<usize>) -> (r: Result<Option<MoeShapes>, ShapeError>)
        ensures
            match r {
                Ok(None) => *self is Mlp,
                Ok(Some(shapes)) => {
                    &&& *self is MoE && dims@.len() == 3
                    &&& shapes.hidden_dim == dims@[2]
                    &&& shapes.out_shape == (dims@[0], dims@[1], dims@[2])
                    &&& are_moe_shapes(shapes, dims@)
                },
                Err(e) => {
                    &&& *self is MoE && dims@.len() != 3
                    &&& e == ShapeError { expected: 3, got: dims@.len() as usize }
                },
            },
    {
        match self {
            MlpOrMoe::Mlp => Ok(None),
            MlpOrMoe::MoE { .. } => {
                if dims.len() != 3 {
                    return Err(ShapeError { expected: 3, got: dims.len() });
                }
                assert(seq![dims@[0], dims@[1], dims@[2]] =~= dims@);
                Ok(
                    Some(
                        MoeShapes {
                            hidden_dim: dims[2],
                            out_shape: (dims[0], dims[1], dims[2]),
                        },
                    ),
                )
            },
        }
    }

    /// Routes rows of weights, given by bit patterns, to the experts of a mixture. `plus` and
    /// `divide` are the sum and the quotient of floats.
    pub fn route<A: Fn(u32, u32) -> u32, D: Fn(u32, u32) -> u32>(
        &self,
        weights: &Vec<Vec<u32>>,
        plus: A,
        divide: D,
    ) -> (r: Option<Routing>)
        requires
            *self matches MlpOrMoe::MoE { n_experts, n_expert_used } ==> all_select_within(
                nested(weights@),
                n_experts,
                n_expert_used,
            ),
            forall|a: u32, b: u32| #[trigger] call_requires(plus, (a, b)),
            forall|a: u32, b: u32| #[trigger] call_requires(divide, (a, b)),
        ensures
            match *self {
                MlpOrMoe::Mlp => r is None,
                MlpOrMoe::MoE { n_experts, n_expert_used } => r is Some && is_routing(
                    r->0,
                    nested(weights@),
                    n_experts,
                    n_expert_used,
                    plus,
                    divide,
                ),
            },
    {
        match *self {
            MlpOrMoe::Mlp => None,
            MlpOrMoe::MoE { n_experts, n_expert_used } => {
                Some(route(weights, n_experts, n_expert_used, plus, divide))
            },
        }
    }
}

/// The feed-forward part that the hyperparameters call for.
pub open spec fn feed_forward_of(config: Config) -> MlpOrMoe {
    if config.spec_is_moe() {
        MlpOrMoe::MoE { n_experts: config.n_expert, n_expert_used: config.n_expert_used }
    } else {
        MlpOrMoe::Mlp
    }
}

/// A model between passes. `M` is the mask handle, `T` the tensor handle.
#[derive(Clone, Debug)]
pub struct ModelWeights<M, T> {
    pub config: Config,
    pub mlp_or_moe: MlpOrMoe,
    pub layers: Vec<LayerWeights<T>>,
    pub masks: MaskCache<M>,
}

/// The decisions of one pass through a model.
#[derive(Clone, Copy, Debug, PartialEq, Eq, Structural)]
pub struct PassPlan {
    pub seq_len: usize,
    /// Whether the causal mask of `seq_len` positions is laid over the attention.
    pub masked: bool,
    /// The position that the model's answer is taken from.
    pub last: usize,
}

/// `p` is the plan of a pass over tokens with dimensions `dims`: the answer comes from the last
/// position, and attention is masked if there is any position after the first.
pub open spec fn is_pass_plan(p: PassPlan, dims: Seq<usize>) -> bool {
    &&& p.seq_len == dims[1]
    &&& p.last + 1 == dims[1]
    &&& p.masked <==> p.last > 0
}

/// The answer comes from a position of the pass that none comes after, and a pass goes without a mask
/// exactly if it has a single position.
pub proof fn law_answer_comes_from_the_last_position(p: PassPlan, dims: Seq<usize>, pos: int)
    requires
        is_pass_plan(p, dims),
        0 <= pos < dims[1],
    ensures
        p.seq_len == dims[1],
        pos <= p.last < dims[1],
        !p.masked <==> dims[1] == 1,
{
}

/// Why a pass through a model cannot be made.
pub enum PassError<E> {
    Shape(ShapeError),
    /// The mask could not be built.
    Mask(E),
}

impl<M, T> ModelWeights<M, T> {
    /// A layer as the hyperparameters describe it, with nothing cached.
    pub open spec fn is_fresh_layer(layer: LayerWeights<T>, config: Config) -> bool {
        &&& layer.n_head == config.head_count
        &&& layer.n_kv_head == config.head_count_kv
        &&& layer.head_dim == config.embedding_length / config.head_count
        &&& layer.kv_cache is None
    }

    /// The model that a file's metadata describe, before its first pass. The error is for the first
    /// required key that has no integer value.
    pub fn from_gguf(ct: &Metadata) -> (r: Result<Self, ConfigError>)
        requires
            has_required(ct@) && config_of(ct@).block_count > 0 ==> config_of(ct@).head_count > 0,
        ensures
            r is Ok <==> has_required(ct@),
            match r {
                Ok(m) => {
                    &&& m.config == config_of(ct@)
                    &&& m.mlp_or_moe == feed_forward_of(m.config)
                    &&& m.layers@.len() == m.config.block_count
                    &&& forall|i: int|
                        0 <= i < m.layers@.len() ==> Self::is_fresh_layer(
                            #[trigger] m.layers@[i],
                            m.config,
                        )
                    &&& m.masks@ == Map::<usize, M>::empty()
                    &&& m.mlp_or_moe == (if m.config.n_expert > 1 {
                        MlpOrMoe::MoE {
                            n_experts: m.config.n_expert,
                            n_expert_used: m.config.n_expert_used,
                        }
                    } else {
                        MlpOrMoe::Mlp
                    })
                    &&& forall|i: int|
                        0 <= i < m.layers@.len() ==> {
                            &&& (#[trigger] m.layers@[i]).n_head == m.config.head_count
                            &&& m.layers@[i].n_kv_head == m.config.head_count_kv
                            &&& m.layers@[i].head_dim == m.config.embedding_length
                                / m.config.head_count
                            &&& m.layers@[i].kv_cache is None
                        }
                },
                Err(e) => exists|i: int|
                    {
                        &&& 0 <= i < 4
                        &&& is_key_error(e, ct@, #[trigger] required_keys()[i])
                        &&& forall|j: int|
                            0 <= j < i ==> u32_at(ct@, #[trigger] required_keys()[j]) is Some
                    },
            },
    {
        let config = match Config::read(ct) {
            Ok(config) => config,
            Err(e) => {
                return Err(e);
            },
        };
        let mut layers: Vec<LayerWeights<T>> = Vec::new();
        while layers.len() < config.block_count
            invariant
                config.block_count > 0 ==> config.head_count > 0,
                layers@.len() <= config.block_count,
                forall|i: int|
                    0 <= i < layers@.len() ==> Self::is_fresh_layer(
                        #[trigger] layers@[i],
                        config,
                    ),
            decreases config.block_count - layers@.len(),
        {
            layers.push(
                LayerWeights {
                    n_head: config.head_count,
                    n_kv_head: config.head_count_kv,
                    head_dim: config.head_dim(),
                    kv_cache: None,
                },
            );
        }
        let mlp_or_moe = if config.is_moe() {
            MlpOrMoe::MoE { n_experts: config.n_expert, n_expert_used: config.n_expert_used }
        } else {
            MlpOrMoe::Mlp
        };
        Ok(ModelWeights { config, mlp_or_moe, layers, masks: MaskCache::new() })
    }

    /// Everything but the masks is the same in the two models.
    pub open spec fn same_but_masks(self, other: Self) -> bool {
        &&& self.config == other.config
        &&& self.mlp_or_moe == other.mlp_or_moe
        &&& self.layers == other.layers
    }

    /// Plans a pass over tokens with dimensions `dims`, that is batch and positions, and sees to it
    /// that the mask it needs is there: a single position needs none, more need the causal mask.
    pub fn forward<E, B: FnOnce(Vec<u8>) -> Result<M, E>>(&mut self, dims: &Vec<usize>, build: B) -> (r:
        Result<PassPlan, PassError<E>>)
        requires
            dims@.len() == 2 ==> dims@[1] > 0,
            dims@.len() == 2 && dims@[1] != 1 && !old(self).masks@.contains_key(dims@[1]) ==> {
                &&& dims@[1] * dims@[1] <= usize::MAX
                &&& forall|entries: Vec<u8>|
                    is_causal_mask(entries@, dims@[1] as int) ==> #[trigger] call_requires(
                        build,
                        (entries,),
                    )
            },
        ensures
            final(self).same_but_masks(*old(self)),
            match r {
                Ok(p) => {
                    &&& dims@.len() == 2
                    &&& p == PassPlan {
                        seq_len: dims@[1],
                        masked: dims@[1] != 1,
                        last: (dims@[1] - 1) as usize,
                    }
                    &&& p.masked ==> final(self).masks@.contains_key(dims@[1])
                    &&& is_pass_plan(p, dims@)
                },
                Err(PassError::Shape(e)) => {
                    &&& dims@.len() != 2
                    &&& e == ShapeError { expected: 2, got: dims@.len() as usize }
                },
                Err(PassError::Mask(_)) => dims@.len() == 2 && dims@[1] != 1,
            },
            if dims@.len() == 2 && dims@[1] != 1 {
                masked(
                    old(self).masks@,
                    final(self).masks@,
                    dims@[1],
                    build,
                    match r {
                        Err(PassError::Mask(e)) => Some(e),
                        _ => None,
                    },
                )
            } else {
                final(self).masks@ == old(self).masks@
            },
            final(self).config == old(self).config,
            final(self).mlp_or_moe == old(self).mlp_or_moe,
            final(self).layers == old(self).layers,
            dims@.len() == 2 && dims@[1] == 1 ==> r is Ok && final(self).masks@ == old(self).masks@,
            dims@.len() == 2 && old(self).masks@.contains_key(dims@[1]) ==> r is Ok
                && final(self).masks@ == old(self).masks@,
            dims@.len() == 2 && dims@[1] != 1 && r is Ok ==> {
                &&& final(self).masks@.contains_key(dims@[1])
                &&& final(self).masks@ == old(self).masks@.insert(
                    dims@[1],
                    final(self).masks@[dims@[1]],
                )
                &&& !old(self).masks@.contains_key(dims@[1]) ==> exists|entries: Vec<u8>|
                    {
                        &&& #[trigger] call_ensures(
                            build,
                            (entries,),
                            Ok(final(self).masks@[dims@[1]]),
                        )
                        &&& entries@.len() == dims@[1] * dims@[1]
                        &&& is_causal_mask(entries@, dims@[1] as int)
                    }
            },
            r matches Err(PassError::Mask(e)) ==> {
                &&& final(self).masks@ == old(self).masks@
                &&& exists|entries: Vec<u8>|
                    {
                        &&& #[trigger] call_ensures(build, (entries,), Err(e))
                        &&& entries@.len() == dims@[1] * dims@[1]
                        &&& is_causal_mask(entries@, dims@[1] as int)
                    }
            },
    {
        if dims.len() != 2 {
            return Err(PassError::Shape(ShapeError { expected: 2, got: dims.len() }));
        }
        let seq_len: usize = dims[1];
        let ghost before = self.masks@;
        if seq_len != 1 {
            match self.masks.mask(seq_len, build) {
                Ok(_) => {
                    assert(self.masks@ =~= before.insert(seq_len, self.masks@[seq_len]));
                },
                Err(e) => {
                    return Err(PassError::Mask(e));
                },
            }
        }
        Ok(PassPlan { seq_len, masked: seq_len != 1, last: seq_len - 1 })
    }
}

} // verus!
