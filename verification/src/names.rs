//! Names of the tensors in a model file.

use vstd::arithmetic::div_mod::lemma_div_denominator;
use vstd::arithmetic::power::{lemma_pow0, lemma_pow_positive, pow};
use vstd::prelude::*;

verus! {

/// Decimal digits of a number, most significant first.
pub open spec fn decimal(n: nat) -> Seq<char>
    decreases n,
{
    if n < 10 {
        seq![digit(n)]
    } else {
        decimal(n / 10).push(digit(n % 10))
    }
}

/// The character of a digit.
pub open spec fn digit(d: nat) -> char {
    ('0' as u32 + d) as char
}

/// A digit as text.
fn digit_text(d: usize) -> (r: &'static str)
    requires
        d < 10,
    ensures
        r@ == seq![digit(d as nat)],
{
    proof {
        reveal_strlit("0");
        reveal_strlit("1");
        reveal_strlit("2");
        reveal_strlit("3");
        reveal_strlit("4");
        reveal_strlit("5");
        reveal_strlit("6");
        reveal_strlit("7");
        reveal_strlit("8");
        reveal_strlit("9");
    }
    let text = match d {
        0 => "0",
        1 => "1",
        2 => "2",
        3 => "3",
        4 => "4",
        5 => "5",
        6 => "6",
        7 => "7",
        8 => "8",
        _ => "9",
    };
    assert(text@ =~= seq![digit(d as nat)]);
    text
}

/// Adds the decimal digits of a number to a text.
fn append_decimal(text: &mut String, n: usize)
    ensures
        final(text)@ == old(text)@ + decimal(n as nat),
    decreases n,
{
    if n >= 10 {
        append_decimal(text, n / 10);
    }
    text.append(digit_text(n % 10));
    assert(text@ =~= old(text)@ + decimal(n as nat));
}

/// A weight of a layer that the layer has once.
#[derive(Clone, Copy, Debug, PartialEq, Eq, Structural)]
pub enum LayerPart {
    AttnQ,
    AttnK,
    AttnV,
    AttnOutput,
    FfnGate,
    FfnDown,
    FfnUp,
    FfnGateInp,
    AttnNorm,
    FfnNorm,
}

/// A weight that each expert of a layer has.
#[derive(Clone, Copy, Debug, PartialEq, Eq, Structural)]
pub enum ExpertPart {
    Gate,
    Down,
    Up,
}

/// A tensor of a model file.
#[derive(Clone, Copy, Debug, PartialEq, Eq, Structural)]
pub enum TensorId {
    TokenEmbd,
    OutputNorm,
    Output,
    Layer { layer: usize, part: LayerPart },
    Expert { layer: usize, weight: ExpertPart, expert: usize },
}

impl LayerPart {
    /// What follows the layer's number in the name of the part.
    pub open spec fn suffix(self) -> Seq<char> {
        match self {
            LayerPart::AttnQ => ".attn_q.weight"@,
            LayerPart::AttnK => ".attn_k.weight"@,
            LayerPart::AttnV => ".attn_v.weight"@,
            LayerPart::AttnOutput => ".attn_output.weight"@,
            LayerPart::FfnGate => ".ffn_gate.weight"@,
            LayerPart::FfnDown => ".ffn_down.weight"@,
            LayerPart::FfnUp => ".ffn_up.weight"@,
            LayerPart::FfnGateInp => ".ffn_gate_inp.weight"@,
            LayerPart::AttnNorm => ".attn_norm.weight"@,
            LayerPart::FfnNorm => ".ffn_norm.weight"@,
        }
    }

    /// What follows the layer's number in the name of the part, as text.
    fn suffix_text(self) -> (r: &'static str)
        ensures
            r@ == self.suffix(),
    {
        match self {
            LayerPart::AttnQ => ".attn_q.weight",
            LayerPart::AttnK => ".attn_k.weight",
            LayerPart::AttnV => ".attn_v.weight",
            LayerPart::AttnOutput => ".attn_output.weight",
            LayerPart::FfnGate => ".ffn_gate.weight",
            LayerPart::FfnDown => ".ffn_down.weight",
            LayerPart::FfnUp => ".ffn_up.weight",
            LayerPart::FfnGateInp => ".ffn_gate_inp.weight",
            LayerPart::AttnNorm => ".attn_norm.weight",
            LayerPart::FfnNorm => ".ffn_norm.weight",
        }
    }
}

impl ExpertPart {
    /// What stands between the layer's and the expert's number in the name of the part.
    pub open spec fn infix(self) -> Seq<char> {
        match self {
            ExpertPart::Gate => ".ffn_gate."@,
            ExpertPart::Down => ".ffn_down."@,
            ExpertPart::Up => ".ffn_up."@,
        }
    }

    /// What stands between the layer's and the expert's number in the name of the part, as text.
    fn infix_text(self) -> (r: &'static str)
        ensures
            r@ == self.infix(),
    {
        match self {
            ExpertPart::Gate => ".ffn_gate.",
            ExpertPart::Down => ".ffn_down.",
            ExpertPart::Up => ".ffn_up.",
        }
    }
}

impl TensorId {
    /// The tensor's name in the file.
    pub open spec fn spec_name(self) -> Seq<char> {
        match self {
            TensorId::TokenEmbd => "token_embd.weight"@,
            TensorId::OutputNorm => "output_norm.weight"@,
            TensorId::Output => "output.weight"@,
            TensorId::Layer { layer, part } => "blk."@ + (decimal(layer as nat) + part.suffix()),
            TensorId::Expert { layer, weight, expert } => {
                "blk."@ + (decimal(layer as nat) + (weight.infix() + (decimal(expert as nat)
                    + ".weight"@)))
            },
        }
    }

    /// The tensor's name in the file.
    pub fn name(self) -> (r: String)
        ensures
            r@ == self.spec_name(),
            match self {
                TensorId::TokenEmbd => r@ == "token_embd.weight"@,
                TensorId::OutputNorm => r@ == "output_norm.weight"@,
                TensorId::Output => r@ == "output.weight"@,
                TensorId::Layer { layer, part: LayerPart::AttnQ } => r@ == "blk."@ + (decimal(
                    layer as nat,
                ) + ".attn_q.weight"@),
                TensorId::Layer { layer, part: LayerPart::AttnK } => r@ == "blk."@ + (decimal(
                    layer as nat,
                ) + ".attn_k.weight"@),
                TensorId::Layer { layer, part: LayerPart::AttnV } => r@ == "blk."@ + (decimal(
                    layer as nat,
                ) + ".attn_v.weight"@),
                TensorId::Layer { layer, part: LayerPart::AttnOutput } => r@ == "blk."@ + (decimal(
                    layer as nat,
                ) + ".attn_output.weight"@),
                TensorId::Layer { layer, part: LayerPart::FfnGate } => r@ == "blk."@ + (decimal(
                    layer as nat,
                ) + ".ffn_gate.weight"@),
                TensorId::Layer { layer, part: LayerPart::FfnDown } => r@ == "blk."@ + (decimal(
                    layer as nat,
                ) + ".ffn_down.weight"@),
                TensorId::Layer { layer, part: LayerPart::FfnUp } => r@ == "blk."@ + (decimal(
                    layer as nat,
                ) + ".ffn_up.weight"@),
                TensorId::Layer { layer, part: LayerPart::FfnGateInp } => r@ == "blk."@ + (decimal(
                    layer as nat,
                ) + ".ffn_gate_inp.weight"@),
                TensorId::Layer { layer, part: LayerPart::AttnNorm } => r@ == "blk."@ + (decimal(
                    layer as nat,
                ) + ".attn_norm.weight"@),
                TensorId::Layer { layer, part: LayerPart::FfnNorm } => r@ == "blk."@ + (decimal(
                    layer as nat,
                ) + ".ffn_norm.weight"@),
                TensorId::Expert { layer, weight: ExpertPart::Gate, expert } => r@
                    == "blk."@ + (decimal(
                    layer as nat,
                ) + (".ffn_gate."@ + (decimal(expert as nat) + ".weight"@))),
                TensorId::Expert { layer, weight: ExpertPart::Down, expert } => r@
                    == "blk."@ + (decimal(
                    layer as nat,
                ) + (".ffn_down."@ + (decimal(expert as nat) + ".weight"@))),
                TensorId::Expert { layer, weight: ExpertPart::Up, expert } => r@
                    == "blk."@ + (decimal(
                    layer as nat,
                ) + (".ffn_up."@ + (decimal(expert as nat) + ".weight"@))),
            },
    {
        match self {
            TensorId::TokenEmbd => "token_embd.weight".to_owned(),
            TensorId::OutputNorm => "output_norm.weight".to_owned(),
            TensorId::Output => "output.weight".to_owned(),
            TensorId::Layer { layer, part } => {
                let mut name = "blk.".to_owned();
                append_decimal(&mut name, layer);
                name.append(part.suffix_text());
                assert(name@ =~= self.spec_name());
                name
            },
            TensorId::Expert { layer, weight, expert } => {
                let mut name = "blk.".to_owned();
                append_decimal(&mut name, layer);
                name.append(weight.infix_text());
                append_decimal(&mut name, expert);
                name.append(".weight");
                assert(name@ =~= self.spec_name());
                name
            },
        }
    }
}

/// The text of a number has no dot in it and starts with a digit.
proof fn lemma_decimal_chars(n: nat)
    ensures
        decimal(n).len() > 0,
        forall|i: int| 0 <= i < decimal(n).len() ==> '0' <= #[trigger] decimal(n)[i] <= '9',
    decreases n,
{
    if n >= 10 {
        lemma_decimal_chars(n / 10);
    }
}

/// Different numbers have different texts.
pub proof fn law_decimal_is_injective(m: nat, n: nat)
    requires
        decimal(m) == decimal(n),
    ensures
        m == n,
    decreases m,
{
    lemma_decimal_chars(m / 10);
    lemma_decimal_chars(n / 10);
    let s = decimal(m);
    assert(s.last() == digit(m % 10));
    assert(s.last() == digit(n % 10));
    if m >= 10 && n >= 10 {
        assert(s.drop_last() =~= decimal(m / 10));
        assert(s.drop_last() =~= decimal(n / 10));
        law_decimal_is_injective(m / 10, n / 10);
    }
}

/// A number's text can be told from the dot and what follows it.
proof fn lemma_split_at_dot(m: nat, r: Seq<char>, n: nat, t: Seq<char>)
    requires
        decimal(m) + r == decimal(n) + t,
        r.len() > 0 && r[0] == '.',
        t.len() > 0 && t[0] == '.',
    ensures
        m == n,
        r == t,
{
    let a = decimal(m);
    let b = decimal(n);
    lemma_decimal_chars(m);
    lemma_decimal_chars(n);
    let s = a + r;
    assert(s[a.len() as int] == '.');
    assert(s[b.len() as int] == (b + t)[b.len() as int] == '.');
    if a.len() < b.len() {
        assert(s[a.len() as int] == (b + t)[a.len() as int] == b[a.len() as int]);
    }
    if b.len() < a.len() {
        assert(s[b.len() as int] == a[b.len() as int]);
    }
    assert(a =~= s.take(a.len() as int));
    assert(b =~= (b + t).take(b.len() as int));
    assert(r =~= s.skip(a.len() as int));
    assert(t =~= (b + t).skip(b.len() as int));
    law_decimal_is_injective(m, n);
}

/// Suffixes of different parts differ, and they start with a dot.
proof fn lemma_suffixes(p: LayerPart, q: LayerPart)
    ensures
        p.suffix().len() > 0 && p.suffix()[0] == '.',
        p.suffix() == q.suffix() ==> p == q,
{
    reveal_strlit(".attn_q.weight");
    reveal_strlit(".attn_k.weight");
    reveal_strlit(".attn_v.weight");
    reveal_strlit(".attn_output.weight");
    reveal_strlit(".ffn_gate.weight");
    reveal_strlit(".ffn_down.weight");
    reveal_strlit(".ffn_up.weight");
    reveal_strlit(".ffn_gate_inp.weight");
    reveal_strlit(".attn_norm.weight");
    reveal_strlit(".ffn_norm.weight");
    let a = p.suffix();
    let b = q.suffix();
    if a == b && p != q {
        assert(a[1] == b[1] && a[4] == b[4] && a[5] == b[5] && a[6] == b[6] && a.len() == b.len());
    }
}

/// What follows the layer's number in the name of an expert's part.
spec fn expert_rest(part: ExpertPart, expert: nat) -> Seq<char> {
    part.infix() + (decimal(expert) + ".weight"@)
}

/// What follows the layer's number starts with a dot, and differs for different parts or experts.
proof fn lemma_expert_rests(p: ExpertPart, m: nat, q: ExpertPart, n: nat)
    ensures
        expert_rest(p, m).len() > 0 && expert_rest(p, m)[0] == '.',
        expert_rest(p, m) == expert_rest(q, n) ==> p == q && m == n,
{
    reveal_strlit(".ffn_gate.");
    reveal_strlit(".ffn_down.");
    reveal_strlit(".ffn_up.");
    reveal_strlit(".weight");
    let a = expert_rest(p, m);
    let b = expert_rest(q, n);
    if a == b {
        assert(a[5] == p.infix()[5] && b[5] == q.infix()[5]);
        assert(p == q);
        let len = p.infix().len() as int;
        assert(a.skip(len) =~= decimal(m) + ".weight"@);
        assert(b.skip(len) =~= decimal(n) + ".weight"@);
        lemma_split_at_dot(m, ".weight"@, n, ".weight"@);
    }
}

/// No part of a layer is named like a part of an expert.
proof fn lemma_suffix_is_no_expert(p: LayerPart, q: ExpertPart, n: nat)
    ensures
        p.suffix() != expert_rest(q, n),
{
    reveal_strlit(".attn_q.weight");
    reveal_strlit(".attn_k.weight");
    reveal_strlit(".attn_v.weight");
    reveal_strlit(".attn_output.weight");
    reveal_strlit(".ffn_gate.weight");
    reveal_strlit(".ffn_down.weight");
    reveal_strlit(".ffn_up.weight");
    reveal_strlit(".ffn_gate_inp.weight");
    reveal_strlit(".attn_norm.weight");
    reveal_strlit(".ffn_norm.weight");
    reveal_strlit(".ffn_gate.");
    reveal_strlit(".ffn_down.");
    reveal_strlit(".ffn_up.");
    reveal_strlit(".weight");
    lemma_decimal_chars(n);
    let a = p.suffix();
    let b = expert_rest(q, n);
    let len = q.infix().len() as int;
    assert(b[1] == q.infix()[1] && b[5] == q.infix()[5] && b[len - 1] == '.');
    assert(b[len] == decimal(n)[0]);
    if a == b {
        assert(a[1] == b[1] && a[5] == b[5] && a[len - 1] == b[len - 1] && a[len] == b[len]);
    }
}

/// The name of a tensor of a layer.
proof fn lemma_layer_name(t: TensorId) -> (r: (nat, Seq<char>))
    requires
        t is Layer || t is Expert,
    ensures
        t.spec_name() == "blk."@ + (decimal(r.0) + r.1),
        r.1.len() > 0 && r.1[0] == '.',
        t matches TensorId::Layer { layer, part } ==> r == (layer as nat, part.suffix()),
        t matches TensorId::Expert { layer, weight, expert } ==> r == (
            layer as nat,
            expert_rest(weight, expert as nat),
        ),
{
    match t {
        TensorId::Layer { layer, part } => {
            lemma_suffixes(part, part);
            (layer as nat, part.suffix())
        },
        TensorId::Expert { layer, weight, expert } => {
            lemma_expert_rests(weight, expert as nat, weight, expert as nat);
            (layer as nat, expert_rest(weight, expert as nat))
        },
        _ => (0, Seq::empty()),
    }
}

/// Different tensors have different names.
pub proof fn law_names_are_injective(a: TensorId, b: TensorId)
    requires
        a.spec_name() == b.spec_name(),
    ensures
        a == b,
{
    reveal_strlit("token_embd.weight");
    reveal_strlit("output_norm.weight");
    reveal_strlit("output.weight");
    reveal_strlit("blk.");
    let s = a.spec_name();
    let t = b.spec_name();
    if (a is Layer || a is Expert) && (b is Layer || b is Expert) {
        let (m, r) = lemma_layer_name(a);
        let (n, q) = lemma_layer_name(b);
        assert(s.skip(4) =~= decimal(m) + r);
        assert(t.skip(4) =~= decimal(n) + q);
        lemma_split_at_dot(m, r, n, q);
        match (a, b) {
            (TensorId::Layer { part: p, .. }, TensorId::Layer { part: o, .. }) => {
                lemma_suffixes(p, o);
            },
            (
                TensorId::Expert { weight: p, expert: e, .. },
                TensorId::Expert { weight: o, expert: f, .. },
            ) => {
                lemma_expert_rests(p, e as nat, o, f as nat);
            },
            (TensorId::Layer { part: p, .. }, TensorId::Expert { weight: o, expert: f, .. }) => {
                lemma_suffix_is_no_expert(p, o, f as nat);
            },
            (TensorId::Expert { weight: o, expert: f, .. }, TensorId::Layer { part: p, .. }) => {
                lemma_suffix_is_no_expert(p, o, f as nat);
            },
            _ => {},
        }
    } else {
        if a is Layer || a is Expert {
            let (m, r) = lemma_layer_name(a);
            assert(s[0] == "blk."@[0]);
        }
        if b is Layer || b is Expert {
            let (n, q) = lemma_layer_name(b);
            assert(t[0] == "blk."@[0]);
        }
        assert(s[0] == t[0] && s.len() == t.len());
    }
}


/// Each character of a number's text is its digit at that place, and there are just as many as the
/// number has places.
pub proof fn law_decimal_digits(n: nat)
    ensures
        decimal(n).len() > 0,
        n < pow(10, decimal(n).len()),
        decimal(n).len() > 1 ==> n >= pow(10, (decimal(n).len() - 1) as nat),
        forall|i: int|
            0 <= i < decimal(n).len() ==> (#[trigger] decimal(n)[i]) as int == 48 + n as int / pow(
                10,
                (decimal(n).len() - 1 - i) as nat,
            ) % 10,
    decreases n,
{
    let s = decimal(n);
    lemma_pow0(10);
    reveal(pow);
    if n < 10 {
        assert(pow(10, 1) == 10 * pow(10, 0));
        assert(n as int / 1 == n);
    } else {
        let front = decimal(n / 10);
        let len = front.len();
        law_decimal_digits(n / 10);
        assert(pow(10, len + 1) == 10 * pow(10, len));
        assert(pow(10, len) == 10 * pow(10, (len - 1) as nat));
        assert forall|i: int| 0 <= i < s.len() implies (#[trigger] s[i]) as int == 48 + n as int
            / pow(10, (s.len() - 1 - i) as nat) % 10 by {
            if i < len {
                let p = pow(10, (len - 1 - i) as nat);
                lemma_pow_positive(10, (len - 1 - i) as nat);
                assert(s[i] == front[i]);
                assert(pow(10, (len - i) as nat) == 10 * p);
                lemma_div_denominator(n as int, 10, p);
                assert((n / 10) as int == n as int / 10);
            } else {
                assert(n as int / 1 == n);
            }
        }
    }
}

} // verus!
