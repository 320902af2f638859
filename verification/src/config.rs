//! Hyperparameters of a model, as its file's metadata give them.

use vstd::prelude::*;

verus! {

/// What a metadata value is as a number, where it is one: as a 32-bit integer, and as the bit
/// pattern of a 32-bit float.
#[derive(Clone, Copy, Debug, PartialEq, Eq)]
pub struct MetaValue {
    pub as_u32: Option<u32>,
    pub as_f32_bits: Option<u32>,
}

/// The metadata of a model file, by key.
pub struct Metadata {
    entries: Vec<(String, MetaValue)>,
}

/// The entries as a map. A later entry replaces an earlier one with the same key.
spec fn entries_map(entries: Seq<(String, MetaValue)>) -> Map<Seq<char>, MetaValue>
    decreases entries.len(),
{
    if entries.len() == 0 {
        Map::empty()
    } else {
        entries_map(entries.drop_last()).insert(entries.last().0@, entries.last().1)
    }
}

impl View for Metadata {
    type V = Map<Seq<char>, MetaValue>;

    closed spec fn view(&self) -> Map<Seq<char>, MetaValue> {
        entries_map(self.entries@)
    }
}

impl Metadata {
    /// No metadata.
    pub fn new() -> (r: Self)
        ensures
            r@ == Map::<Seq<char>, MetaValue>::empty(),
    {
        Metadata { entries: Vec::new() }
    }

    /// Sets the value of a key.
    pub fn insert(&mut self, key: String, value: MetaValue)
        ensures
            final(self)@ == old(self)@.insert(key@, value),
    {
        self.entries.push((key, value));
        assert(self.entries@.drop_last() =~= old(self).entries@);
    }

    /// The value of a key.
    pub fn get(&self, key: &String) -> (r: Option<MetaValue>)
        ensures
            r == (if self@.contains_key(key@) {
                Some(self@[key@])
            } else {
                None
            }),
    {
        let mut at: usize = self.entries.len();
        assert(self.entries@.take(at as int) =~= self.entries@);
        while at > 0
            invariant
                at <= self.entries@.len(),
                self@.contains_key(key@) == entries_map(self.entries@.take(at as int)).contains_key(
                    key@,
                ),
                self@.contains_key(key@) ==> self@[key@] == entries_map(
                    self.entries@.take(at as int),
                )[key@],
            decreases at,
        {
            let ghost prefix = self.entries@.take(at as int);
            at -= 1;
            assert(prefix.drop_last() =~= self.entries@.take(at as int));
            if self.entries[at].0 == *key {
                return Some(self.entries[at].1);
            }
        }
        None
    }
}

/// Number of heads.
pub open spec fn key_head_count() -> Seq<char> {
    "mistral3.attention.head_count"@
}

/// Number of key and value heads.
pub open spec fn key_head_count_kv() -> Seq<char> {
    "mistral3.attention.head_count_kv"@
}

/// Number of layers.
pub open spec fn key_block_count() -> Seq<char> {
    "mistral3.block_count"@
}

/// Length of an embedding.
pub open spec fn key_embedding_length() -> Seq<char> {
    "mistral3.embedding_length"@
}

/// The keys that there have to be, in the order in which they are looked up.
pub open spec fn required_keys() -> Seq<Seq<char>> {
    seq![key_head_count(), key_head_count_kv(), key_block_count(), key_embedding_length()]
}

/// Epsilon of the norms where the metadata give none: 1e-5.
pub const DEFAULT_RMS_NORM_EPS_BITS: u32 = 0x3727_c5ac;

/// Base of the rotary frequencies where the metadata give none: 10000.
pub const DEFAULT_ROPE_FREQ_BASE_BITS: u32 = 0x461c_4000;

/// Hyperparameters of a model. Floats are given by their bit patterns.
#[derive(Clone, Copy, Debug, PartialEq, Eq, Structural)]
pub struct Config {
    pub n_expert: usize,
    pub n_expert_used: usize,
    pub head_count: usize,
    pub head_count_kv: usize,
    pub block_count: usize,
    pub embedding_length: usize,
    pub rope_dim: usize,
    pub rms_norm_eps_bits: u32,
    pub rope_freq_base_bits: u32,
}

/// A required key is missing, or its value is no 32-bit integer.
#[derive(Debug)]
pub enum ConfigError {
    Missing(String),
    NotU32(String),
}

/// The key's value as an integer, if it has one.
pub open spec fn u32_at(m: Map<Seq<char>, MetaValue>, key: Seq<char>) -> Option<u32> {
    if m.contains_key(key) {
        m[key].as_u32
    } else {
        None
    }
}

/// The key's value as a float's bit pattern, if it has one.
pub open spec fn f32_bits_at(m: Map<Seq<char>, MetaValue>, key: Seq<char>) -> Option<u32> {
    if m.contains_key(key) {
        m[key].as_f32_bits
    } else {
        None
    }
}

/// `n`, or `default` if there is no `n`.
pub open spec fn value_or(n: Option<u32>, default: u32) -> u32 {
    match n {
        Some(n) => n,
        None => default,
    }
}

/// All required keys have integer values.
pub open spec fn has_required(m: Map<Seq<char>, MetaValue>) -> bool {
    forall|i: int| 0 <= i < 4 ==> u32_at(m, #[trigger] required_keys()[i]) is Some
}

/// `e` says what is wrong with the key.
pub open spec fn is_key_error(e: ConfigError, m: Map<Seq<char>, MetaValue>, key: Seq<char>) -> bool {
    match e {
        ConfigError::Missing(k) => k@ == key && !m.contains_key(key),
        ConfigError::NotU32(k) => k@ == key && m.contains_key(key) && m[key].as_u32 is None,
    }
}

/// The hyperparameters that the metadata give.
pub open spec fn config_of(m: Map<Seq<char>, MetaValue>) -> Config {
    let embedding_length = u32_at(m, key_embedding_length())->0;
    Config {
        n_expert: value_or(u32_at(m, "mistral3.expert_count"@), 0) as usize,
        n_expert_used: value_or(u32_at(m, "mistral3.expert_used_count"@), 0) as usize,
        head_count: u32_at(m, key_head_count())->0 as usize,
        head_count_kv: u32_at(m, key_head_count_kv())->0 as usize,
        block_count: u32_at(m, key_block_count())->0 as usize,
        embedding_length: embedding_length as usize,
        rope_dim: value_or(
            u32_at(m, "mistral3.rope.dimension_count"@),
            (embedding_length / 2) as u32,
        ) as usize,
        rms_norm_eps_bits: value_or(
            f32_bits_at(m, "mistral3.attention.layer_norm_rms_epsilon"@),
            DEFAULT_RMS_NORM_EPS_BITS,
        ),
        rope_freq_base_bits: value_or(
            f32_bits_at(m, "mistral3.rope.freq_base"@),
            DEFAULT_ROPE_FREQ_BASE_BITS,
        ),
    }
}

/// Looks up an integer that there has to be.
fn require_u32(m: &Metadata, key: &'static str) -> (r: Result<u32, ConfigError>)
    ensures
        match r {
            Ok(n) => u32_at(m@, key@) == Some(n),
            Err(e) => is_key_error(e, m@, key@),
        },
{
    let key = key.to_owned();
    match m.get(&key) {
        Some(value) => match value.as_u32 {
            Some(n) => Ok(n),
            None => Err(ConfigError::NotU32(key)),
        },
        None => Err(ConfigError::Missing(key)),
    }
}

/// Looks up an integer that there may be.
fn optional_u32(m: &Metadata, key: &str, default: u32) -> (r: u32)
    ensures
        r == value_or(u32_at(m@, key@), default),
{
    let key = key.to_owned();
    match m.get(&key) {
        Some(value) => match value.as_u32 {
            Some(n) => n,
            None => default,
        },
        None => default,
    }
}

/// Looks up a float that there may be.
fn optional_f32_bits(m: &Metadata, key: &str, default: u32) -> (r: u32)
    ensures
        r == value_or(f32_bits_at(m@, key@), default),
{
    let key = key.to_owned();
    match m.get(&key) {
        Some(value) => match value.as_f32_bits {
            Some(bits) => bits,
            None => default,
        },
        None => default,
    }
}

impl Config {
    /// Reads the hyperparameters. The error is for the first required key that has no integer value.
    pub fn read(m: &Metadata) -> (r: Result<Config, ConfigError>)
        ensures
            r is Ok <==> has_required(m@),
            match r {
                Ok(c) => c == config_of(m@),
                Err(e) => exists|i: int|
                    {
                        &&& 0 <= i < 4
                        &&& is_key_error(e, m@, #[trigger] required_keys()[i])
                        &&& forall|j: int|
                            0 <= j < i ==> u32_at(m@, #[trigger] required_keys()[j]) is Some
                    },
            },
            r is Ok <==> {
                &&& (m@.get("mistral3.attention.head_count"@) matches Some(v) && v.as_u32 is Some)
                &&& (m@.get("mistral3.attention.head_count_kv"@) matches Some(v)
                    && v.as_u32 is Some)
                &&& (m@.get("mistral3.block_count"@) matches Some(v) && v.as_u32 is Some)
                &&& (m@.get("mistral3.embedding_length"@) matches Some(v) && v.as_u32 is Some)
            },
            r matches Ok(c) ==> {
                &&& match m@.get("mistral3.attention.head_count"@) {
                    Some(MetaValue { as_u32: Some(n), .. }) => c.head_count == n,
                    _ => false,
                }
                &&& match m@.get("mistral3.attention.head_count_kv"@) {
                    Some(MetaValue { as_u32: Some(n), .. }) => c.head_count_kv == n,
                    _ => false,
                }
                &&& match m@.get("mistral3.block_count"@) {
                    Some(MetaValue { as_u32: Some(n), .. }) => c.block_count == n,
                    _ => false,
                }
                &&& match m@.get("mistral3.embedding_length"@) {
                    Some(MetaValue { as_u32: Some(n), .. }) => c.embedding_length == n,
                    _ => false,
                }
                &&& match m@.get("mistral3.expert_count"@) {
                    Some(MetaValue { as_u32: Some(n), .. }) => c.n_expert == n,
                    _ => c.n_expert == 0,
                }
                &&& match m@.get("mistral3.expert_used_count"@) {
                    Some(MetaValue { as_u32: Some(n), .. }) => c.n_expert_used == n,
                    _ => c.n_expert_used == 0,
                }
                &&& match m@.get("mistral3.rope.dimension_count"@) {
                    Some(MetaValue { as_u32: Some(n), .. }) => c.rope_dim == n,
                    _ => c.rope_dim == c.embedding_length / 2,
                }
                &&& match m@.get("mistral3.attention.layer_norm_rms_epsilon"@) {
                    Some(MetaValue { as_f32_bits: Some(b), .. }) => c.rms_norm_eps_bits == b,
                    _ => c.rms_norm_eps_bits == 0x3727_c5ac,
                }
                &&& match m@.get("mistral3.rope.freq_base"@) {
                    Some(MetaValue { as_f32_bits: Some(b), .. }) => c.rope_freq_base_bits == b,
                    _ => c.rope_freq_base_bits == 0x461c_4000,
                }
            },
            r matches Err(e) ==> {
                let key = match e {
                    ConfigError::Missing(k) => k@,
                    ConfigError::NotU32(k) => k@,
                };
                let has_heads = (m@.get("mistral3.attention.head_count"@) matches Some(v)
                    && v.as_u32 is Some);
                let has_kv_heads = (m@.get("mistral3.attention.head_count_kv"@) matches Some(v)
                    && v.as_u32 is Some);
                let has_blocks = (m@.get("mistral3.block_count"@) matches Some(v)
                    && v.as_u32 is Some);
                &&& e is Missing <==> !m@.contains_key(key)
                &&& !(m@.get(key) matches Some(v) && v.as_u32 is Some)
                &&& {
                    ||| key == "mistral3.attention.head_count"@
                    ||| key == "mistral3.attention.head_count_kv"@ && has_heads
                    ||| key == "mistral3.block_count"@ && has_heads && has_kv_heads
                    ||| key == "mistral3.embedding_length"@ && has_heads && has_kv_heads
                        && has_blocks
                }
            },
    {
        let n_expert: u32 = optional_u32(m, "mistral3.expert_count", 0);
        let n_expert_used: u32 = optional_u32(m, "mistral3.expert_used_count", 0);
        let head_count: u32 = match require_u32(m, "mistral3.attention.head_count") {
            Ok(n) => n,
            Err(e) => {
                assert(is_key_error(e, m@, required_keys()[0]));
                return Err(e);
            },
        };
        let head_count_kv: u32 = match require_u32(m, "mistral3.attention.head_count_kv") {
            Ok(n) => n,
            Err(e) => {
                assert(is_key_error(e, m@, required_keys()[1]));
                return Err(e);
            },
        };
        let block_count: u32 = match require_u32(m, "mistral3.block_count") {
            Ok(n) => n,
            Err(e) => {
                assert(is_key_error(e, m@, required_keys()[2]));
                return Err(e);
            },
        };
        let embedding_length: u32 = match require_u32(m, "mistral3.embedding_length") {
            Ok(n) => n,
            Err(e) => {
                assert(is_key_error(e, m@, required_keys()[3]));
                return Err(e);
            },
        };
        let rope_dim: u32 = optional_u32(m, "mistral3.rope.dimension_count", embedding_length / 2);
        let rms_norm_eps_bits: u32 = optional_f32_bits(
            m,
            "mistral3.attention.layer_norm_rms_epsilon",
            DEFAULT_RMS_NORM_EPS_BITS,
        );
        let rope_freq_base_bits: u32 = optional_f32_bits(
            m,
            "mistral3.rope.freq_base",
            DEFAULT_ROPE_FREQ_BASE_BITS,
        );
        Ok(
            Config {
                n_expert: n_expert as usize,
                n_expert_used: n_expert_used as usize,
                head_count: head_count as usize,
                head_count_kv: head_count_kv as usize,
                block_count: block_count as usize,
                embedding_length: embedding_length as usize,
                rope_dim: rope_dim as usize,
                rms_norm_eps_bits,
                rope_freq_base_bits,
            },
        )
    }

    /// Size of a head: the embedding divided among the heads.
    pub fn head_dim(&self) -> (r: usize)
        requires
            self.head_count > 0,
        ensures
            r == self.embedding_length / self.head_count,
    {
        self.embedding_length / self.head_count
    }

    /// A feed-forward part is a mixture of experts if there is more than one.
    pub open spec fn spec_is_moe(self) -> bool {
        self.n_expert > 1
    }

    /// Whether the feed-forward parts are mixtures of experts.
    pub fn is_moe(&self) -> (r: bool)
        ensures
            r == self.spec_is_moe(),
            r <==> self.n_expert > 1,
    {
        self.n_expert > 1
    }
}


/// The metadata suffice exactly if they have an integer at each of four keys.
pub proof fn law_four_keys_are_required(m: Map<Seq<char>, MetaValue>)
    ensures
        has_required(m) <==> {
            &&& (m.get("mistral3.attention.head_count"@) matches Some(v) && v.as_u32 is Some)
            &&& (m.get("mistral3.attention.head_count_kv"@) matches Some(v) && v.as_u32 is Some)
            &&& (m.get("mistral3.block_count"@) matches Some(v) && v.as_u32 is Some)
            &&& (m.get("mistral3.embedding_length"@) matches Some(v) && v.as_u32 is Some)
        },
{
    let keys = required_keys();
    assert(keys[0] == key_head_count() && keys[1] == key_head_count_kv());
    assert(keys[2] == key_block_count() && keys[3] == key_embedding_length());
}

/// Every hyperparameter is the value at its key; an optional one that has no value of the right type
/// there has its default.
pub proof fn law_hyperparameters_are_at_their_keys(m: Map<Seq<char>, MetaValue>)
    requires
        has_required(m),
    ensures
        ({
            let c = config_of(m);
            &&& match m.get("mistral3.attention.head_count"@) {
                Some(MetaValue { as_u32: Some(n), .. }) => c.head_count == n,
                _ => false,
            }
            &&& match m.get("mistral3.attention.head_count_kv"@) {
                Some(MetaValue { as_u32: Some(n), .. }) => c.head_count_kv == n,
                _ => false,
            }
            &&& match m.get("mistral3.block_count"@) {
                Some(MetaValue { as_u32: Some(n), .. }) => c.block_count == n,
                _ => false,
            }
            &&& match m.get("mistral3.embedding_length"@) {
                Some(MetaValue { as_u32: Some(n), .. }) => c.embedding_length == n,
                _ => false,
            }
            &&& match m.get("mistral3.expert_count"@) {
                Some(MetaValue { as_u32: Some(n), .. }) => c.n_expert == n,
                _ => c.n_expert == 0,
            }
            &&& match m.get("mistral3.expert_used_count"@) {
                Some(MetaValue { as_u32: Some(n), .. }) => c.n_expert_used == n,
                _ => c.n_expert_used == 0,
            }
            &&& match m.get("mistral3.rope.dimension_count"@) {
                Some(MetaValue { as_u32: Some(n), .. }) => c.rope_dim == n,
                _ => c.rope_dim == c.embedding_length / 2,
            }
            &&& match m.get("mistral3.attention.layer_norm_rms_epsilon"@) {
                Some(MetaValue { as_f32_bits: Some(b), .. }) => c.rms_norm_eps_bits == b,
                _ => c.rms_norm_eps_bits == 0x3727_c5ac,
            }
            &&& match m.get("mistral3.rope.freq_base"@) {
                Some(MetaValue { as_f32_bits: Some(b), .. }) => c.rope_freq_base_bits == b,
                _ => c.rope_freq_base_bits == 0x461c_4000,
            }
        }),
{
    law_four_keys_are_required(m);
}

/// Every hyperparameter depends on its own key alone: metadata that agree there agree on it, whatever
/// else they hold. Only the rotary dimension depends on the embedding length as well, which its
/// default is half of.
pub proof fn law_hyperparameters_depend_on_their_own_keys(
    m1: Map<Seq<char>, MetaValue>,
    m2: Map<Seq<char>, MetaValue>,
)
    requires
        has_required(m1) && has_required(m2),
    ensures
        m1.get("mistral3.attention.head_count"@) == m2.get("mistral3.attention.head_count"@)
            ==> config_of(m1).head_count == config_of(m2).head_count,
        m1.get("mistral3.attention.head_count_kv"@) == m2.get("mistral3.attention.head_count_kv"@)
            ==> config_of(m1).head_count_kv == config_of(m2).head_count_kv,
        m1.get("mistral3.block_count"@) == m2.get("mistral3.block_count"@)
            ==> config_of(m1).block_count == config_of(m2).block_count,
        m1.get("mistral3.embedding_length"@) == m2.get("mistral3.embedding_length"@)
            ==> config_of(m1).embedding_length == config_of(m2).embedding_length,
        m1.get("mistral3.expert_count"@) == m2.get("mistral3.expert_count"@)
            ==> config_of(m1).n_expert == config_of(m2).n_expert,
        m1.get("mistral3.expert_used_count"@) == m2.get("mistral3.expert_used_count"@)
            ==> config_of(m1).n_expert_used == config_of(m2).n_expert_used,
        m1.get("mistral3.rope.dimension_count"@) == m2.get("mistral3.rope.dimension_count"@)
            && m1.get("mistral3.embedding_length"@) == m2.get("mistral3.embedding_length"@)
            ==> config_of(m1).rope_dim == config_of(m2).rope_dim,
        m1.get("mistral3.attention.layer_norm_rms_epsilon"@)
            == m2.get("mistral3.attention.layer_norm_rms_epsilon"@)
            ==> config_of(m1).rms_norm_eps_bits == config_of(m2).rms_norm_eps_bits,
        m1.get("mistral3.rope.freq_base"@) == m2.get("mistral3.rope.freq_base"@)
            ==> config_of(m1).rope_freq_base_bits == config_of(m2).rope_freq_base_bits,
{
}

/// The error is for the first required key that has no integer value, and says whether the key is
/// missing.
pub proof fn law_errors_name_the_first_key(e: ConfigError, m: Map<Seq<char>, MetaValue>, i: int)
    requires
        0 <= i < 4,
        is_key_error(e, m, required_keys()[i]),
        forall|j: int| 0 <= j < i ==> u32_at(m, #[trigger] required_keys()[j]) is Some,
    ensures
        ({
            let key = match e {
                ConfigError::Missing(k) => k@,
                ConfigError::NotU32(k) => k@,
            };
            let has_heads = (m.get("mistral3.attention.head_count"@) matches Some(v)
                && v.as_u32 is Some);
            let has_kv_heads = (m.get("mistral3.attention.head_count_kv"@) matches Some(v)
                && v.as_u32 is Some);
            let has_blocks = (m.get("mistral3.block_count"@) matches Some(v) && v.as_u32 is Some);
            &&& e is Missing <==> !m.contains_key(key)
            &&& !(m.get(key) matches Some(v) && v.as_u32 is Some)
            &&& {
                ||| key == "mistral3.attention.head_count"@
                ||| key == "mistral3.attention.head_count_kv"@ && has_heads
                ||| key == "mistral3.block_count"@ && has_heads && has_kv_heads
                ||| key == "mistral3.embedding_length"@ && has_heads && has_kv_heads && has_blocks
            }
        }),
{
    let keys = required_keys();
    assert(keys[0] == key_head_count() && keys[1] == key_head_count_kv());
    assert(keys[2] == key_block_count() && keys[3] == key_embedding_length());
    if i > 0 {
        assert(u32_at(m, keys[0]) is Some);
    }
    if i > 1 {
        assert(u32_at(m, keys[1]) is Some);
    }
    if i > 2 {
        assert(u32_at(m, keys[2]) is Some);
    }
}

/// A model is a mixture of experts exactly if it has more than one expert.
pub proof fn law_mixtures_have_experts(config: Config)
    ensures
        config.spec_is_moe() <==> config.n_expert > 1,
{
}

} // verus!
