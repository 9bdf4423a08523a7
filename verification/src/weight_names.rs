//! Weight names: the dotted paths under which checkpoint tensors are stored,
//! the layer index they carry, and which part of a model each one loads into.
use vstd::prelude::*;
use vstd::string::StrSliceExecFns;
use crate::error::Error;
use crate::text::chars_of;

verus! {

/// The parts of `s` between dots; `n` dots give `n + 1` parts.
pub open spec fn dot_parts(s: Seq<char>) -> Seq<Seq<char>>
    decreases s.len(),
{
    if s.len() == 0 {
        seq![Seq::<char>::empty()]
    } else {
        let p = dot_parts(s.drop_last());
        if s.last() == '.' {
            p.push(Seq::<char>::empty())
        } else {
            p.update(p.len() - 1, p.last().push(s.last()))
        }
    }
}

pub proof fn lemma_dot_parts_nonempty(s: Seq<char>)
    ensures
        dot_parts(s).len() >= 1,
    decreases s.len(),
{
    if s.len() > 0 {
        lemma_dot_parts_nonempty(s.drop_last());
    }
}

/// The rest of `s` after its `k`-th dot, scanning from position `i` with `k`
/// dots still to pass.
pub open spec fn after_dots_from(s: Seq<char>, i: int, k: nat) -> Option<Seq<char>>
    decreases s.len() - i, k,
{
    if k == 0 {
        Some(s.subrange(i, s.len() as int))
    } else if i < 0 || i >= s.len() {
        None
    } else if s[i] == '.' {
        after_dots_from(s, i + 1, (k - 1) as nat)
    } else {
        after_dots_from(s, i + 1, k)
    }
}

/// The rest of `s` after its `k`-th dot, if it has that many.
pub open spec fn after_dots(s: Seq<char>, k: nat) -> Option<Seq<char>> {
    after_dots_from(s, 0, k)
}

/// The text after the `k`-th dot of `name`, if it has that many dots.
pub fn text_after_dots(name: &str, k: usize) -> (r: Option<String>)
    ensures
        match after_dots(name@, k as nat) {
            Some(t) => r matches Some(x) && x@ == t,
            None => r is None,
        },
{
    let cs = chars_of(name);
    let n = cs.len();
    let mut i: usize = 0;
    let mut left: usize = k;
    while left > 0 && i < n
        invariant
            cs@ == name@,
            n == name@.len(),
            0 <= i <= n,
            after_dots_from(name@, i as int, left as nat) == after_dots(name@, k as nat),
        decreases n - i,
    {
        if cs[i] == '.' {
            left = left - 1;
        }
        i = i + 1;
    }
    if left == 0 {
        Some(name.substring_char(i, n).to_owned())
    } else {
        None
    }
}

/// The value of a string of decimal digits.
pub open spec fn digits_value(d: Seq<char>) -> int
    decreases d.len(),
{
    if d.len() == 0 {
        0
    } else {
        digits_value(d.drop_last()) * 10 + (d.last() as int - '0' as int)
    }
}

pub open spec fn all_digits(d: Seq<char>) -> bool {
    forall|i: int| 0 <= i < d.len() ==> '0' <= #[trigger] d[i] <= '9'
}

/// The digits of an unsigned number written with an optional `+` sign.
pub open spec fn unsigned_digits(s: Seq<char>) -> Seq<char> {
    if s.len() > 0 && s[0] == '+' { s.skip(1) } else { s }
}

/// What reading `s` as an unsigned machine word gives: a non-empty run of
/// decimal digits, after an optional `+`, whose value fits.
pub open spec fn parse_usize_spec(s: Seq<char>) -> Option<usize> {
    let d = unsigned_digits(s);
    if d.len() > 0 && all_digits(d) && digits_value(d) <= usize::MAX {
        Some(digits_value(d) as usize)
    } else {
        None
    }
}

proof fn lemma_digits_value_nonneg(d: Seq<char>)
    requires
        all_digits(d),
    ensures
        digits_value(d) >= 0,
    decreases d.len(),
{
    if d.len() > 0 {
        assert(all_digits(d.drop_last()));
        lemma_digits_value_nonneg(d.drop_last());
        assert('0' <= d[d.len() - 1] <= '9');
    }
}

proof fn lemma_digits_value_grows(d: Seq<char>, i: int)
    requires
        0 <= i <= d.len(),
        all_digits(d),
    ensures
        0 <= digits_value(d.take(i)) <= digits_value(d),
    decreases d.len() - i,
{
    if i < d.len() {
        lemma_digits_value_grows(d, i + 1);
        assert(d.take(i + 1).drop_last() =~= d.take(i));
        assert('0' <= d[i] <= '9');
        assert(all_digits(d.take(i)));
        lemma_digits_value_nonneg(d.take(i));
    } else {
        assert(d.take(i) =~= d);
        lemma_digits_value_nonneg(d);
    }
}

/// Reads an unsigned number the way the standard library does for `usize`.
pub fn parse_usize(s: &str) -> (r: Option<usize>)
    ensures
        r == parse_usize_spec(s@),
{
    let cs = chars_of(s);
    let n = cs.len();
    let start: usize = if n > 0 && cs[0] == '+' { 1 } else { 0 };
    let ghost d = unsigned_digits(s@);
    assert(d =~= s@.subrange(start as int, n as int));
    if start == n {
        return None;
    }
    let mut value: usize = 0;
    let mut i = start;
    while i < n
        invariant
            cs@ == s@,
            n == s@.len(),
            start <= i <= n,
            d == s@.subrange(start as int, n as int),
            d == unsigned_digits(s@),
            all_digits(d.take(i - start)),
            value == digits_value(d.take(i - start)),
        decreases n - i,
    {
        let c = cs[i];
        let ghost prefix = d.take(i - start);
        assert(d.take(i + 1 - start).drop_last() =~= prefix);
        if c < '0' || c > '9' {
            assert(d[i - start] == c);
            assert(!all_digits(d));
            return None;
        }
        let digit = (c as u32 - '0' as u32) as usize;
        if value > (usize::MAX - digit) / 10 {
            proof {
                assert(all_digits(d.take(i + 1 - start)));
                assert(digits_value(d.take(i + 1 - start)) == value * 10 + digit);
                assert(value * 10 + digit > usize::MAX) by (nonlinear_arith)
                    requires
                        value > (usize::MAX - digit) / 10,
                        digit <= 9,
                ;
                if all_digits(d) {
                    lemma_digits_value_grows(d, i + 1 - start);
                }
            }
            return None;
        }
        value = value * 10 + digit;
        i = i + 1;
    }
    assert(d.take(n - start) =~= d);
    Some(value)
}


/// Splits `name` at every dot.
pub fn split_dots(name: &str) -> (r: Vec<String>)
    ensures
        r@.len() == dot_parts(name@).len(),
        forall|i: int| 0 <= i < r@.len() ==> #[trigger] r@[i]@ == dot_parts(name@)[i],
{
    let cs = chars_of(name);
    let n = cs.len();
    let mut parts: Vec<String> = Vec::new();
    let mut start: usize = 0;
    let mut i: usize = 0;
    assert(name@.take(0) =~= Seq::<char>::empty());
    while i < n
        invariant
            cs@ == name@,
            n == name@.len(),
            0 <= start <= i <= n,
            parts@.len() + 1 == dot_parts(name@.take(i as int)).len(),
            forall|j: int| 0 <= j < parts@.len() ==> #[trigger] parts@[j]@ == dot_parts(name@.take(i as int))[j],
            name@.subrange(start as int, i as int) == dot_parts(name@.take(i as int)).last(),
        decreases n - i,
    {
        let ghost before = dot_parts(name@.take(i as int));
        assert(name@.take(i + 1).drop_last() =~= name@.take(i as int));
        assert(name@.take(i + 1).last() == cs@[i as int]);
        proof {
            lemma_dot_parts_nonempty(name@.take(i as int));
        }
        if cs[i] == '.' {
            let piece = name.substring_char(start, i).to_owned();
            parts.push(piece);
            start = i + 1;
            assert(name@.subrange(start as int, i + 1) =~= Seq::<char>::empty());
        } else {
            assert(name@.subrange(start as int, i + 1) =~= name@.subrange(start as int, i as int).push(cs@[i as int]));
        }
        i = i + 1;
    }
    let last = name.substring_char(start, n).to_owned();
    parts.push(last);
    assert(name@.take(n as int) =~= name@);
    parts
}

fn is(s: &String, lit: &str) -> (r: bool)
    ensures
        r == (s@ == lit@),
{
    let l = lit.to_owned();
    *s == l
}

/// The index of the first part equal to `target`, looking from `i` on.
pub open spec fn first_part_from(ps: Seq<Seq<char>>, target: Seq<char>, i: int) -> Option<int>
    decreases ps.len() - i,
{
    if i < 0 || i >= ps.len() {
        None
    } else if ps[i] == target {
        Some(i)
    } else {
        first_part_from(ps, target, i + 1)
    }
}

/// The layer index a weight name carries: the number in the part after the
/// first `layers` part.
pub open spec fn layer_index_of(name: Seq<char>) -> Option<usize> {
    let ps = dot_parts(name);
    match first_part_from(ps, "layers"@, 0) {
        Some(i) => if i + 1 < ps.len() { parse_usize_spec(ps[i + 1]) } else { None },
        None => None,
    }
}

/// The layer index in a weight name such as `model.layers.3.mlp.up_proj.weight`.
pub fn extract_layer_index(name: &str) -> (r: Option<usize>)
    ensures
        r == layer_index_of(name@),
{
    let parts = split_dots(name);
    let ghost ps = dot_parts(name@);
    let mut i: usize = 0;
    while i < parts.len()
        invariant
            parts@.len() == ps.len(),
            ps == dot_parts(name@),
            forall|j: int| 0 <= j < parts@.len() ==> #[trigger] parts@[j]@ == ps[j],
            0 <= i <= parts@.len(),
            first_part_from(ps, "layers"@, 0) == first_part_from(ps, "layers"@, i as int),
        decreases parts@.len() - i,
    {
        if is(&parts[i], "layers") {
            if i + 1 < parts.len() {
                return parse_usize(parts[i + 1].as_str());
            } else {
                return None;
            }
        }
        i = i + 1;
    }
    None
}

/// Which tensor of a (possibly quantized) linear layer or embedding a
/// weight fills.
#[derive(Debug, Clone, Copy, PartialEq, Eq)]
pub enum WeightParam {
    Weight,
    Scales,
    Biases,
}

pub open spec fn param_of(s: Seq<char>) -> Option<WeightParam> {
    if s == "weight"@ {
        Some(WeightParam::Weight)
    } else if s == "scales"@ {
        Some(WeightParam::Scales)
    } else if s == "biases"@ {
        Some(WeightParam::Biases)
    } else {
        None
    }
}

/// Where a weight of a LLaMA model goes.
#[derive(Debug, Clone, Copy, PartialEq, Eq)]
pub enum LlamaWeightTarget {
    LmHead(WeightParam),
    EmbedTokens(WeightParam),
    Norm,
    /// A weight of the transformer block with this index.
    Layer(usize),
    /// A weight the model does not use.
    Ignored,
}

pub open spec fn starts_with(s: Seq<char>, p: Seq<char>) -> bool {
    s.len() >= p.len() && s.take(p.len() as int) == p
}

/// How a weight name is resolved.
pub enum NameRoute<T> {
    /// The weight goes to this place.
    To(T),
    /// The part that should hold a layer index is not a number.
    BadIndex(Seq<char>),
    /// The name is not one the model knows.
    Unsupported,
}

/// Where the weight `name` of a LLaMA model with `n_layers` blocks goes.
pub open spec fn llama_weight_target(name: Seq<char>, n_layers: usize) -> NameRoute<LlamaWeightTarget> {
    if name == "lm_head.weight"@ {
        NameRoute::To(LlamaWeightTarget::LmHead(WeightParam::Weight))
    } else if name == "lm_head.scales"@ {
        NameRoute::To(LlamaWeightTarget::LmHead(WeightParam::Scales))
    } else if name == "lm_head.biases"@ {
        NameRoute::To(LlamaWeightTarget::LmHead(WeightParam::Biases))
    } else if name == "model.embed_tokens.weight"@ {
        NameRoute::To(LlamaWeightTarget::EmbedTokens(WeightParam::Weight))
    } else if name == "model.embed_tokens.scales"@ {
        NameRoute::To(LlamaWeightTarget::EmbedTokens(WeightParam::Scales))
    } else if name == "model.embed_tokens.biases"@ {
        NameRoute::To(LlamaWeightTarget::EmbedTokens(WeightParam::Biases))
    } else if name == "model.norm.weight"@ {
        NameRoute::To(LlamaWeightTarget::Norm)
    } else if starts_with(name, "model.layers."@) {
        let ps = dot_parts(name);
        if ps.len() >= 5 {
            match parse_usize_spec(ps[2]) {
                None => NameRoute::BadIndex(ps[2]),
                Some(idx) => if idx < n_layers {
                    NameRoute::To(LlamaWeightTarget::Layer(idx))
                } else {
                    NameRoute::Unsupported
                },
            }
        } else {
            NameRoute::Unsupported
        }
    } else {
        NameRoute::To(LlamaWeightTarget::Ignored)
    }
}

/// `r` reports the route `route` of the weight `name`.
pub open spec fn reports_route<T>(r: Result<T, Error>, route: NameRoute<T>, name: Seq<char>) -> bool {
    match route {
        NameRoute::To(t) => r == Ok::<T, Error>(t),
        NameRoute::BadIndex(p) => r matches Err(Error::ParseIntError(s)) && s@ == p,
        NameRoute::Unsupported => r matches Err(Error::UnsupportedWeight(s)) && s@ == name,
    }
}

fn starts_with_str(s: &Vec<char>, p: &str) -> (r: bool)
    ensures
        r == starts_with(s@, p@),
{
    let pc = chars_of(p);
    if pc.len() > s.len() {
        return false;
    }
    let mut i: usize = 0;
    while i < pc.len()
        invariant
            pc@ == p@,
            pc@.len() <= s@.len(),
            0 <= i <= pc@.len(),
            forall|j: int| 0 <= j < i ==> s@[j] == pc@[j],
        decreases pc@.len() - i,
    {
        if s[i] != pc[i] {
            assert(s@.take(pc@.len() as int)[i as int] != pc@[i as int]);
            return false;
        }
        i = i + 1;
    }
    assert(s@.take(pc@.len() as int) =~= pc@);
    true
}

/// Where the weight `name` of a LLaMA model with `n_layers` transformer
/// blocks is loaded: the output head, the token embedding, the final norm,
/// one of the blocks, or nowhere. A `model.layers.` name with too few parts,
/// or an index past the last block, is refused; so is an index that is not
/// a number.
pub fn route_llama_weight(name: &str, n_layers: usize) -> (r: Result<LlamaWeightTarget, Error>)
    ensures
        reports_route(r, llama_weight_target(name@, n_layers), name@),
{
    let owned = name.to_owned();
    if is(&owned, "lm_head.weight") {
        Ok(LlamaWeightTarget::LmHead(WeightParam::Weight))
    } else if is(&owned, "lm_head.scales") {
        Ok(LlamaWeightTarget::LmHead(WeightParam::Scales))
    } else if is(&owned, "lm_head.biases") {
        Ok(LlamaWeightTarget::LmHead(WeightParam::Biases))
    } else if is(&owned, "model.embed_tokens.weight") {
        Ok(LlamaWeightTarget::EmbedTokens(WeightParam::Weight))
    } else if is(&owned, "model.embed_tokens.scales") {
        Ok(LlamaWeightTarget::EmbedTokens(WeightParam::Scales))
    } else if is(&owned, "model.embed_tokens.biases") {
        Ok(LlamaWeightTarget::EmbedTokens(WeightParam::Biases))
    } else if is(&owned, "model.norm.weight") {
        Ok(LlamaWeightTarget::Norm)
    } else if starts_with_str(&chars_of(name), "model.layers.") {
        let parts = split_dots(name);
        if parts.len() >= 5 {
            match parse_usize(parts[2].as_str()) {
                None => Err(Error::ParseIntError(parts[2].clone())),
                Some(idx) => if idx < n_layers {
                    Ok(LlamaWeightTarget::Layer(idx))
                } else {
                    Err(Error::UnsupportedWeight(owned))
                },
            }
        } else {
            Err(Error::UnsupportedWeight(owned))
        }
    } else {
        Ok(LlamaWeightTarget::Ignored)
    }
}


/// The projections of an attention layer.
#[derive(Debug, Clone, Copy, PartialEq, Eq)]
pub enum AttentionProj {
    Q,
    K,
    V,
    O,
}

/// The projections of a feed-forward layer.
#[derive(Debug, Clone, Copy, PartialEq, Eq)]
pub enum MlpProj {
    Gate,
    Down,
    Up,
}

pub open spec fn attention_proj_of(s: Seq<char>) -> Option<AttentionProj> {
    if s == "q_proj"@ {
        Some(AttentionProj::Q)
    } else if s == "k_proj"@ {
        Some(AttentionProj::K)
    } else if s == "v_proj"@ {
        Some(AttentionProj::V)
    } else if s == "o_proj"@ {
        Some(AttentionProj::O)
    } else {
        None
    }
}

pub open spec fn mlp_proj_of(s: Seq<char>) -> Option<MlpProj> {
    if s == "gate_proj"@ {
        Some(MlpProj::Gate)
    } else if s == "down_proj"@ {
        Some(MlpProj::Down)
    } else if s == "up_proj"@ {
        Some(MlpProj::Up)
    } else {
        None
    }
}

fn param_of_exec(s: &String) -> (r: Option<WeightParam>)
    ensures
        r == param_of(s@),
{
    if is(s, "weight") {
        Some(WeightParam::Weight)
    } else if is(s, "scales") {
        Some(WeightParam::Scales)
    } else if is(s, "biases") {
        Some(WeightParam::Biases)
    } else {
        None
    }
}

fn attention_proj_of_exec(s: &String) -> (r: Option<AttentionProj>)
    ensures
        r == attention_proj_of(s@),
{
    if is(s, "q_proj") {
        Some(AttentionProj::Q)
    } else if is(s, "k_proj") {
        Some(AttentionProj::K)
    } else if is(s, "v_proj") {
        Some(AttentionProj::V)
    } else if is(s, "o_proj") {
        Some(AttentionProj::O)
    } else {
        None
    }
}

fn mlp_proj_of_exec(s: &String) -> (r: Option<MlpProj>)
    ensures
        r == mlp_proj_of(s@),
{
    if is(s, "gate_proj") {
        Some(MlpProj::Gate)
    } else if is(s, "down_proj") {
        Some(MlpProj::Down)
    } else if is(s, "up_proj") {
        Some(MlpProj::Up)
    } else {
        None
    }
}

/// A projection tensor named `<proj>.<param>`.
pub open spec fn proj_tensor_of<P>(t: Seq<char>, proj_of: spec_fn(Seq<char>) -> Option<P>) -> Option<(P, WeightParam)> {
    let ps = dot_parts(t);
    if ps.len() == 2 && proj_of(ps[0]) is Some && param_of(ps[1]) is Some {
        Some((proj_of(ps[0])->0, param_of(ps[1])->0))
    } else {
        None
    }
}

/// Where a weight of a LLaMA attention layer goes: the part after the fourth
/// dot names a projection and its tensor; a name with fewer dots is skipped.
pub open spec fn llama_attention_target(name: Seq<char>) -> NameRoute<Option<(AttentionProj, WeightParam)>> {
    match after_dots(name, 4) {
        None => NameRoute::To(None),
        Some(t) => match proj_tensor_of(t, |s: Seq<char>| attention_proj_of(s)) {
            Some(x) => NameRoute::To(Some(x)),
            None => NameRoute::Unsupported,
        },
    }
}

/// Routes a weight of a LLaMA attention layer to its projection.
pub fn route_llama_attention_weight(name: &str) -> (r: Result<Option<(AttentionProj, WeightParam)>, Error>)
    ensures
        reports_route(r, llama_attention_target(name@), name@),
{
    match text_after_dots(name, 4) {
        None => Ok(None),
        Some(t) => {
            let parts = split_dots(t.as_str());
            if parts.len() == 2 {
                let proj = attention_proj_of_exec(&parts[0]);
                let param = param_of_exec(&parts[1]);
                if let (Some(p), Some(q)) = (proj, param) {
                    return Ok(Some((p, q)));
                }
            }
            Err(Error::UnsupportedWeight(name.to_owned()))
        },
    }
}

/// Where a weight of a Qwen3 transformer block goes.
#[derive(Debug, Clone, Copy, PartialEq, Eq)]
pub enum Qwen3BlockTarget {
    InputLayerNorm,
    PostAttentionLayerNorm,
    Mlp(MlpProj, WeightParam),
    Attention(AttentionProj, WeightParam),
    QNorm,
    KNorm,
}

/// Where a weight of a Qwen3 block goes: the part after the third dot names
/// a layer norm, or a sub-module whose own part follows the fourth dot.
pub open spec fn qwen3_block_target(name: Seq<char>) -> NameRoute<Qwen3BlockTarget> {
    match after_dots(name, 3) {
        None => NameRoute::Unsupported,
        Some(t) => if t == "post_attention_layernorm.weight"@ {
            NameRoute::To(Qwen3BlockTarget::PostAttentionLayerNorm)
        } else if t == "input_layernorm.weight"@ {
            NameRoute::To(Qwen3BlockTarget::InputLayerNorm)
        } else if dot_parts(t)[0] == "mlp"@ {
            match after_dots(name, 4) {
                Some(u) => match proj_tensor_of(u, |s: Seq<char>| mlp_proj_of(s)) {
                    Some((p, q)) => NameRoute::To(Qwen3BlockTarget::Mlp(p, q)),
                    None => NameRoute::Unsupported,
                },
                None => NameRoute::Unsupported,
            }
        } else if dot_parts(t)[0] == "self_attn"@ {
            match after_dots(name, 4) {
                Some(u) => if u == "k_norm.weight"@ {
                    NameRoute::To(Qwen3BlockTarget::KNorm)
                } else if u == "q_norm.weight"@ {
                    NameRoute::To(Qwen3BlockTarget::QNorm)
                } else {
                    match proj_tensor_of(u, |s: Seq<char>| attention_proj_of(s)) {
                        Some((p, q)) => NameRoute::To(Qwen3BlockTarget::Attention(p, q)),
                        None => NameRoute::Unsupported,
                    }
                },
                None => NameRoute::Unsupported,
            }
        } else {
            NameRoute::Unsupported
        },
    }
}

/// Routes a weight of a Qwen3 transformer block (`model.layers.<i>.…`) to
/// the tensor it fills.
pub fn route_qwen3_block_weight(name: &str) -> (r: Result<Qwen3BlockTarget, Error>)
    ensures
        reports_route(r, qwen3_block_target(name@), name@),
{
    let t = match text_after_dots(name, 3) {
        None => return Err(Error::UnsupportedWeight(name.to_owned())),
        Some(t) => t,
    };
    if is(&t, "post_attention_layernorm.weight") {
        return Ok(Qwen3BlockTarget::PostAttentionLayerNorm);
    }
    if is(&t, "input_layernorm.weight") {
        return Ok(Qwen3BlockTarget::InputLayerNorm);
    }
    let head = split_dots(t.as_str());
    proof {
        lemma_dot_parts_nonempty(t@);
    }
    let sub = text_after_dots(name, 4);
    if is(&head[0], "mlp") {
        if let Some(u) = sub {
            let parts = split_dots(u.as_str());
            if parts.len() == 2 {
                let proj = mlp_proj_of_exec(&parts[0]);
                let param = param_of_exec(&parts[1]);
                if let (Some(p), Some(q)) = (proj, param) {
                    return Ok(Qwen3BlockTarget::Mlp(p, q));
                }
            }
        }
        Err(Error::UnsupportedWeight(name.to_owned()))
    } else if is(&head[0], "self_attn") {
        if let Some(u) = sub {
            if is(&u, "k_norm.weight") {
                return Ok(Qwen3BlockTarget::KNorm);
            }
            if is(&u, "q_norm.weight") {
                return Ok(Qwen3BlockTarget::QNorm);
            }
            let parts = split_dots(u.as_str());
            if parts.len() == 2 {
                let proj = attention_proj_of_exec(&parts[0]);
                let param = param_of_exec(&parts[1]);
                if let (Some(p), Some(q)) = (proj, param) {
                    return Ok(Qwen3BlockTarget::Attention(p, q));
                }
            }
        }
        Err(Error::UnsupportedWeight(name.to_owned()))
    } else {
        Err(Error::UnsupportedWeight(name.to_owned()))
    }
}

/// `s` holds no dot.
pub open spec fn dot_free(s: Seq<char>) -> bool {
    forall|i: int| 0 <= i < s.len() ==> s[i] != '.'
}

proof fn lemma_after_dots_shift(s: Seq<char>, i: int, j: int, k: nat)
    requires
        0 <= i,
        0 <= j,
        i + j <= s.len(),
    ensures
        after_dots_from(s, i + j, k) == after_dots_from(s.subrange(i, s.len() as int), j, k),
    decreases s.len() - (i + j), k,
{
    let sub = s.subrange(i, s.len() as int);
    if k == 0 {
        assert(s.subrange(i + j, s.len() as int) =~= sub.subrange(j, sub.len() as int));
    } else if i + j >= s.len() {
    } else {
        assert(s[i + j] == sub[j]);
        if s[i + j] == '.' {
            lemma_after_dots_shift(s, i, j + 1, (k - 1) as nat);
        } else {
            lemma_after_dots_shift(s, i, j + 1, k);
        }
    }
}

proof fn lemma_after_dots_skip(s: Seq<char>, i: int, d: int, k: nat)
    requires
        0 <= i <= d < s.len(),
        forall|m: int| i <= m < d ==> s[m] != '.',
        s[d] == '.',
    ensures
        after_dots_from(s, i, k + 1) == after_dots_from(s, d + 1, k),
    decreases d - i,
{
    if i < d {
        lemma_after_dots_skip(s, i + 1, d, k);
    }
}

/// Past a dot-free first part and its dot, the text after the `k + 1`-th dot
/// of a name is the text after the `k`-th dot of the rest.
pub proof fn lemma_after_dots_peel(a: Seq<char>, r: Seq<char>, k: nat)
    requires
        dot_free(a),
    ensures
        after_dots(a + "."@ + r, k + 1) == after_dots(r, k),
{
    reveal_strlit(".");
    let s = a + "."@ + r;
    assert forall|m: int| 0 <= m < a.len() implies s[m] != '.' by {
        assert(s[m] == a[m]);
    }
    assert(s[a.len() as int] == '.');
    lemma_after_dots_skip(s, 0, a.len() as int, k);
    lemma_after_dots_shift(s, a.len() as int + 1, 0, k);
    assert(s.subrange(a.len() as int + 1, s.len() as int) =~= r);
}

proof fn lemma_dot_parts_of_dot_free(p: Seq<char>)
    requires
        dot_free(p),
    ensures
        dot_parts(p) == seq![p],
    decreases p.len(),
{
    if p.len() > 0 {
        lemma_dot_parts_of_dot_free(p.drop_last());
        assert(p.drop_last().push(p.last()) =~= p);
        assert(seq![p.drop_last()].update(0, p.drop_last().push(p.last())) =~= seq![p]);
    } else {
        assert(p =~= Seq::<char>::empty());
    }
}

/// The first dotted part of `p.r`, where `p` holds no dot, is `p`.
proof fn lemma_dot_parts_first(p: Seq<char>, r: Seq<char>)
    requires
        dot_free(p),
    ensures
        dot_parts(p + "."@ + r).len() >= 2,
        dot_parts(p + "."@ + r)[0] == p,
    decreases r.len(),
{
    reveal_strlit(".");
    let s = p + "."@ + r;
    if r.len() == 0 {
        assert(s.drop_last() =~= p);
        assert(s.last() == '.');
        lemma_dot_parts_of_dot_free(p);
    } else {
        lemma_dot_parts_first(p, r.drop_last());
        assert(s.drop_last() =~= p + "."@ + r.drop_last());
    }
}

/// A weight of a Qwen3 block named `a.b.c.self_attn.q_norm.weight` (three
/// dot-free parts, such as `model.layers.0`, before the sub-module) goes to
/// the query norm, and one named `….self_attn.k_norm.weight` to the key norm:
/// each norm is filled from the weight that names it.
pub proof fn lemma_qwen3_norm_follows_its_name(a: Seq<char>, b: Seq<char>, c: Seq<char>)
    requires
        dot_free(a),
        dot_free(b),
        dot_free(c),
    ensures
        qwen3_block_target(a + "."@ + b + "."@ + c + ".self_attn.q_norm.weight"@) == NameRoute::To(Qwen3BlockTarget::QNorm),
        qwen3_block_target(a + "."@ + b + "."@ + c + ".self_attn.k_norm.weight"@) == NameRoute::To(Qwen3BlockTarget::KNorm),
{
    reveal_strlit(".");
    reveal_strlit("self_attn");
    reveal_strlit("q_norm.weight");
    reveal_strlit("k_norm.weight");
    reveal_strlit(".self_attn.q_norm.weight");
    reveal_strlit(".self_attn.k_norm.weight");
    reveal_strlit("post_attention_layernorm.weight");
    reveal_strlit("input_layernorm.weight");
    reveal_strlit("mlp");
    let sa = "self_attn"@;
    assert(dot_free(sa));
    lemma_qwen3_norm_route(a, b, c, "q_norm.weight"@);
    lemma_qwen3_norm_route(a, b, c, "k_norm.weight"@);
    assert(".self_attn.q_norm.weight"@ =~= "."@ + sa + "."@ + "q_norm.weight"@);
    assert(".self_attn.k_norm.weight"@ =~= "."@ + sa + "."@ + "k_norm.weight"@);
    assert(a + "."@ + b + "."@ + c + ".self_attn.q_norm.weight"@
        =~= a + "."@ + (b + "."@ + (c + "."@ + (sa + "."@ + "q_norm.weight"@))));
    assert(a + "."@ + b + "."@ + c + ".self_attn.k_norm.weight"@
        =~= a + "."@ + (b + "."@ + (c + "."@ + (sa + "."@ + "k_norm.weight"@))));
    assert("q_norm.weight"@ != "k_norm.weight"@) by {
        assert("q_norm.weight"@[0] != "k_norm.weight"@[0]);
    }
}

proof fn lemma_qwen3_norm_route(a: Seq<char>, b: Seq<char>, c: Seq<char>, u: Seq<char>)
    requires
        dot_free(a),
        dot_free(b),
        dot_free(c),
    ensures
        ({
            let sa = "self_attn"@;
            let name = a + "."@ + (b + "."@ + (c + "."@ + (sa + "."@ + u)));
            &&& after_dots(name, 3) == Some(sa + "."@ + u)
            &&& after_dots(name, 4) == Some(u)
            &&& dot_parts(sa + "."@ + u)[0] == sa
        }),
{
    reveal_strlit("self_attn");
    assert(dot_free("self_attn"@));
    lemma_block_sub_module(a, b, c, "self_attn"@, u);
}

/// The parts of `a.b.c.m.u` after its third and fourth dots, and the first
/// dotted part of the former.
proof fn lemma_block_sub_module(a: Seq<char>, b: Seq<char>, c: Seq<char>, m: Seq<char>, u: Seq<char>)
    requires
        dot_free(a),
        dot_free(b),
        dot_free(c),
        dot_free(m),
    ensures
        ({
            let name = a + "."@ + (b + "."@ + (c + "."@ + (m + "."@ + u)));
            &&& after_dots(name, 3) == Some(m + "."@ + u)
            &&& after_dots(name, 4) == Some(u)
            &&& dot_parts(m + "."@ + u)[0] == m
        }),
{
    let r3 = m + "."@ + u;
    let r2 = c + "."@ + r3;
    let r1 = b + "."@ + r2;
    lemma_after_dots_peel(a, r1, 2);
    lemma_after_dots_peel(b, r2, 1);
    lemma_after_dots_peel(c, r3, 0);
    lemma_after_dots_peel(a, r1, 3);
    lemma_after_dots_peel(b, r2, 2);
    lemma_after_dots_peel(c, r3, 1);
    lemma_after_dots_peel(m, u, 0);
    assert(r3.subrange(0, r3.len() as int) =~= r3);
    assert(u.subrange(0, u.len() as int) =~= u);
    lemma_dot_parts_first(m, u);
}

/// The dotted parts of `p.q`, where neither holds a dot, are `p` and `q`.
proof fn lemma_dot_parts_pair(p: Seq<char>, q: Seq<char>)
    requires
        dot_free(p),
        dot_free(q),
    ensures
        dot_parts(p + "."@ + q) == seq![p, q],
    decreases q.len(),
{
    reveal_strlit(".");
    let s = p + "."@ + q;
    if q.len() == 0 {
        assert(s.drop_last() =~= p);
        lemma_dot_parts_of_dot_free(p);
        assert(q =~= Seq::<char>::empty());
        assert(seq![p].push(Seq::<char>::empty()) =~= seq![p, q]);
    } else {
        lemma_dot_parts_pair(p, q.drop_last());
        assert(s.drop_last() =~= p + "."@ + q.drop_last());
        assert(q.drop_last().push(q.last()) =~= q);
        assert(seq![p, q.drop_last()].update(1, q.drop_last().push(q.last())) =~= seq![p, q]);
    }
}

/// The route of the tensor `<proj>.<param>` of a projection.
pub open spec fn projection_route<P>(proj: Option<P>, param: Option<WeightParam>) -> Option<(P, WeightParam)> {
    match (proj, param) {
        (Some(x), Some(y)) => Some((x, y)),
        _ => None,
    }
}

proof fn lemma_after_dots_dot_free(s: Seq<char>, i: int, k: nat)
    requires
        dot_free(s),
        k > 0,
        0 <= i,
    ensures
        after_dots_from(s, i, k) is None,
    decreases s.len() - i,
{
    if i < s.len() {
        lemma_after_dots_dot_free(s, i + 1, k);
    }
}

/// A name with fewer than three dots, `a.b.c` with dot-free parts, is no
/// weight of a Qwen3 block and is refused.
pub proof fn lemma_qwen3_short_names(a: Seq<char>, b: Seq<char>, c: Seq<char>)
    requires
        dot_free(a),
        dot_free(b),
        dot_free(c),
    ensures
        qwen3_block_target(a + "."@ + b + "."@ + c) == NameRoute::<Qwen3BlockTarget>::Unsupported,
{
    lemma_after_dots_peel(a, b + "."@ + c, 2);
    lemma_after_dots_peel(b, c, 1);
    lemma_after_dots_dot_free(c, 0, 1);
    assert(a + "."@ + b + "."@ + c =~= a + "."@ + (b + "."@ + c));
}

/// The weights of a Qwen3 block named `a.b.c.<rest>` (three dot-free parts,
/// such as `model.layers.0`, before the rest): `input_layernorm.weight` and
/// `post_attention_layernorm.weight` fill those norms, `mlp.<proj>.<param>`
/// the named tensor of the named feed-forward projection, and
/// `self_attn.<proj>.<param>` (other than the query and key norms) that of
/// the named attention projection; any other projection or tensor name is
/// refused.
pub proof fn lemma_qwen3_block_names(a: Seq<char>, b: Seq<char>, c: Seq<char>, p: Seq<char>, q: Seq<char>)
    requires
        dot_free(a),
        dot_free(b),
        dot_free(c),
        dot_free(p),
        dot_free(q),
    ensures
        qwen3_block_target(a + "."@ + b + "."@ + c + ".input_layernorm.weight"@)
            == NameRoute::To(Qwen3BlockTarget::InputLayerNorm),
        qwen3_block_target(a + "."@ + b + "."@ + c + ".post_attention_layernorm.weight"@)
            == NameRoute::To(Qwen3BlockTarget::PostAttentionLayerNorm),
        qwen3_block_target(a + "."@ + b + "."@ + c + ".mlp."@ + p + "."@ + q)
            == match projection_route(mlp_proj_of(p), param_of(q)) {
                Some((x, y)) => NameRoute::To(Qwen3BlockTarget::Mlp(x, y)),
                None => NameRoute::Unsupported,
            },
        p != "q_norm"@ && p != "k_norm"@ ==>
            qwen3_block_target(a + "."@ + b + "."@ + c + ".self_attn."@ + p + "."@ + q)
            == match projection_route(attention_proj_of(p), param_of(q)) {
                Some((x, y)) => NameRoute::To(Qwen3BlockTarget::Attention(x, y)),
                None => NameRoute::Unsupported,
            },
{
    reveal_strlit(".");
    reveal_strlit("weight");
    reveal_strlit("input_layernorm");
    reveal_strlit("post_attention_layernorm");
    reveal_strlit("input_layernorm.weight");
    reveal_strlit("post_attention_layernorm.weight");
    reveal_strlit(".input_layernorm.weight");
    reveal_strlit(".post_attention_layernorm.weight");
    reveal_strlit("mlp");
    reveal_strlit("self_attn");
    reveal_strlit(".mlp.");
    reveal_strlit(".self_attn.");
    reveal_strlit("q_norm");
    reveal_strlit("k_norm");
    reveal_strlit("q_norm.weight");
    reveal_strlit("k_norm.weight");
    let w = "weight"@;
    let il = "input_layernorm"@;
    let pl = "post_attention_layernorm"@;
    let mlp = "mlp"@;
    let sa = "self_attn"@;
    assert(dot_free(w) && dot_free(il) && dot_free(pl) && dot_free(mlp) && dot_free(sa));
    let pq = p + "."@ + q;

    lemma_block_sub_module(a, b, c, il, w);
    assert(".input_layernorm.weight"@ =~= "."@ + il + "."@ + w);
    assert(a + "."@ + b + "."@ + c + ".input_layernorm.weight"@
        =~= a + "."@ + (b + "."@ + (c + "."@ + (il + "."@ + w))));
    assert(il + "."@ + w =~= "input_layernorm.weight"@);

    lemma_block_sub_module(a, b, c, pl, w);
    assert(".post_attention_layernorm.weight"@ =~= "."@ + pl + "."@ + w);
    assert(a + "."@ + b + "."@ + c + ".post_attention_layernorm.weight"@
        =~= a + "."@ + (b + "."@ + (c + "."@ + (pl + "."@ + w))));
    assert(pl + "."@ + w =~= "post_attention_layernorm.weight"@);

    lemma_dot_parts_pair(p, q);
    lemma_block_sub_module(a, b, c, mlp, pq);
    assert(".mlp."@ =~= "."@ + mlp + "."@);
    assert(a + "."@ + b + "."@ + c + ".mlp."@ + p + "."@ + q
        =~= a + "."@ + (b + "."@ + (c + "."@ + (mlp + "."@ + pq))));
    assert((mlp + "."@ + pq)[0] == 'm');

    lemma_block_sub_module(a, b, c, sa, pq);
    assert(".self_attn."@ =~= "."@ + sa + "."@);
    assert(a + "."@ + b + "."@ + c + ".self_attn."@ + p + "."@ + q
        =~= a + "."@ + (b + "."@ + (c + "."@ + (sa + "."@ + pq))));
    assert((sa + "."@ + pq)[0] == 's');
    assert(sa != mlp);
    if p != "q_norm"@ && p != "k_norm"@ {
        assert(dot_free("q_norm"@) && dot_free("k_norm"@));
        lemma_dot_parts_pair("q_norm"@, w);
        lemma_dot_parts_pair("k_norm"@, w);
        assert("q_norm"@ + "."@ + w =~= "q_norm.weight"@);
        assert("k_norm"@ + "."@ + w =~= "k_norm.weight"@);
        assert(dot_parts(pq)[0] != dot_parts("q_norm.weight"@)[0]);
        assert(dot_parts(pq)[0] != dot_parts("k_norm.weight"@)[0]);
    }
}

/// Appending a dot and a dot-free part adds one dotted part.
proof fn lemma_dot_parts_append(s: Seq<char>, q: Seq<char>)
    requires
        dot_free(q),
    ensures
        dot_parts(s + "."@ + q) == dot_parts(s).push(q),
    decreases q.len(),
{
    reveal_strlit(".");
    let t = s + "."@ + q;
    if q.len() == 0 {
        assert(t.drop_last() =~= s);
        assert(q =~= Seq::<char>::empty());
    } else {
        lemma_dot_parts_append(s, q.drop_last());
        assert(t.drop_last() =~= s + "."@ + q.drop_last());
        assert(q.drop_last().push(q.last()) =~= q);
        assert(dot_parts(s).push(q.drop_last()).update(dot_parts(s).len() as int, q.drop_last().push(q.last()))
            =~= dot_parts(s).push(q));
    }
}

/// Text after a further dot keeps the dotted parts before it.
proof fn lemma_dot_parts_extend(s: Seq<char>, r: Seq<char>)
    ensures
        dot_parts(s + "."@ + r).len() > dot_parts(s).len(),
        forall|i: int| 0 <= i < dot_parts(s).len() ==> #[trigger] dot_parts(s + "."@ + r)[i] == dot_parts(s)[i],
    decreases r.len(),
{
    reveal_strlit(".");
    let t = s + "."@ + r;
    if r.len() == 0 {
        assert(t.drop_last() =~= s);
    } else {
        lemma_dot_parts_extend(s, r.drop_last());
        assert(t.drop_last() =~= s + "."@ + r.drop_last());
        lemma_dot_parts_nonempty(t.drop_last());
    }
}

/// The layer index of a name `<a>.layers.<d>.<rest>`, where `a` is one
/// dot-free part other than `layers` and `d` a number in decimal digits that
/// fits a machine word, is the value of `d`.
pub proof fn lemma_layer_index_names(a: Seq<char>, d: Seq<char>, rest: Seq<char>)
    requires
        dot_free(a),
        a != "layers"@,
        d.len() > 0,
        all_digits(d),
        digits_value(d) <= usize::MAX,
    ensures
        layer_index_of(a + ".layers."@ + d + "."@ + rest) == Some(digits_value(d) as usize),
{
    reveal_strlit(".");
    reveal_strlit("layers");
    reveal_strlit(".layers.");
    let l = "layers"@;
    assert(dot_free(l));
    assert(dot_free(d)) by {
        assert forall|i: int| 0 <= i < d.len() implies d[i] != '.' by {
            assert('0' <= d[i] <= '9');
        }
    }
    let name = a + ".layers."@ + d + "."@ + rest;
    assert(name =~= a + "."@ + l + "."@ + d + "."@ + rest);
    lemma_dot_parts_of_dot_free(a);
    lemma_dot_parts_append(a, l);
    lemma_dot_parts_append(a + "."@ + l, d);
    lemma_dot_parts_extend(a + "."@ + l + "."@ + d, rest);
    let ps = dot_parts(name);
    assert(ps.len() >= 4 && ps[0] == a && ps[1] == l && ps[2] == d);
    assert(first_part_from(ps, l, 1) == Some(1int));
    assert(first_part_from(ps, l, 0) == Some(1int));
    assert(unsigned_digits(d) == d) by {
        assert('0' <= d[0] <= '9');
    }
    lemma_digits_value_nonneg(d);
}

/// A LLaMA weight name that is none of the fixed names and does not start
/// with `model.layers.` is one the model does not use: it is skipped, never
/// refused.
pub proof fn lemma_llama_other_names(name: Seq<char>, n_layers: usize)
    requires
        !starts_with(name, "model.layers."@),
        name != "lm_head.weight"@,
        name != "lm_head.scales"@,
        name != "lm_head.biases"@,
        name != "model.embed_tokens.weight"@,
        name != "model.embed_tokens.scales"@,
        name != "model.embed_tokens.biases"@,
        name != "model.norm.weight"@,
    ensures
        llama_weight_target(name, n_layers) == NameRoute::To(LlamaWeightTarget::Ignored),
{
}

/// A LLaMA name `model.layers.<d>.<x>` with only four dotted parts is
/// refused, whatever `d` and `x` are.
pub proof fn lemma_llama_short_block_names(d: Seq<char>, x: Seq<char>, n_layers: usize)
    requires
        dot_free(d),
        dot_free(x),
    ensures
        llama_weight_target("model.layers."@ + d + "."@ + x, n_layers) == NameRoute::<LlamaWeightTarget>::Unsupported,
{
    reveal_strlit(".");
    reveal_strlit("model");
    reveal_strlit("layers");
    reveal_strlit("model.layers.");
    reveal_strlit("lm_head.weight");
    reveal_strlit("lm_head.scales");
    reveal_strlit("lm_head.biases");
    reveal_strlit("model.embed_tokens.weight");
    reveal_strlit("model.embed_tokens.scales");
    reveal_strlit("model.embed_tokens.biases");
    reveal_strlit("model.norm.weight");
    let name = "model.layers."@ + d + "."@ + x;
    let m = "model"@;
    let l = "layers"@;
    assert(dot_free(m) && dot_free(l));
    assert(name.take(13) =~= "model.layers."@);
    assert(name[0] == 'm' && name[6] == 'l');
    assert(name =~= m + "."@ + l + "."@ + d + "."@ + x);
    lemma_dot_parts_of_dot_free(m);
    lemma_dot_parts_append(m, l);
    lemma_dot_parts_append(m + "."@ + l, d);
    lemma_dot_parts_append(m + "."@ + l + "."@ + d, x);
    assert(starts_with(name, "model.layers."@));
    assert(name != "lm_head.weight"@ && name != "lm_head.scales"@ && name != "lm_head.biases"@) by {
        assert("lm_head.weight"@[0] == 'l');
        assert("lm_head.scales"@[0] == 'l');
        assert("lm_head.biases"@[0] == 'l');
    }
    assert(name != "model.embed_tokens.weight"@ && name != "model.embed_tokens.scales"@
        && name != "model.embed_tokens.biases"@ && name != "model.norm.weight"@) by {
        assert("model.embed_tokens.weight"@[6] == 'e');
        assert("model.embed_tokens.scales"@[6] == 'e');
        assert("model.embed_tokens.biases"@[6] == 'e');
        assert("model.norm.weight"@[6] == 'n');
    }
}

/// A weight of LLaMA block `d` (a number written in decimal digits), named
/// `model.layers.<d>.<x>.<rest>` (`x` without a dot), goes to that block when the model has more
/// than `d` blocks, and is refused otherwise.
pub proof fn lemma_llama_block_names(d: Seq<char>, x: Seq<char>, y: Seq<char>, n_layers: usize)
    requires
        d.len() > 0,
        all_digits(d),
        digits_value(d) <= usize::MAX,
        dot_free(x),
    ensures
        llama_weight_target("model.layers."@ + d + "."@ + x + "."@ + y, n_layers)
            == if digits_value(d) < n_layers {
                NameRoute::To(LlamaWeightTarget::Layer(digits_value(d) as usize))
            } else {
                NameRoute::Unsupported
            },
{
    reveal_strlit(".");
    reveal_strlit("model");
    reveal_strlit("layers");
    reveal_strlit("model.layers.");
    reveal_strlit("lm_head.weight");
    reveal_strlit("lm_head.scales");
    reveal_strlit("lm_head.biases");
    reveal_strlit("model.embed_tokens.weight");
    reveal_strlit("model.embed_tokens.scales");
    reveal_strlit("model.embed_tokens.biases");
    reveal_strlit("model.norm.weight");
    let name = "model.layers."@ + d + "."@ + x + "."@ + y;
    let m = "model"@;
    let l = "layers"@;
    assert(dot_free(m) && dot_free(l));
    assert(dot_free(d)) by {
        assert forall|i: int| 0 <= i < d.len() implies d[i] != '.' by {
            assert('0' <= d[i] <= '9');
        }
    }
    assert(name.take(13) =~= "model.layers."@);
    assert(name[0] == 'm' && name[6] == 'l');
    assert("model.layers."@ + d + "."@ + x + "."@ + y =~= m + "."@ + l + "."@ + d + "."@ + x + "."@ + y);
    lemma_dot_parts_of_dot_free(m);
    lemma_dot_parts_append(m, l);
    lemma_dot_parts_append(m + "."@ + l, d);
    lemma_dot_parts_append(m + "."@ + l + "."@ + d, x);
    lemma_dot_parts_extend(m + "."@ + l + "."@ + d + "."@ + x, y);
    let ps = dot_parts(name);
    assert(ps.len() >= 5 && ps[2] == d);
    assert(unsigned_digits(d) == d) by {
        assert('0' <= d[0] <= '9');
    }
    lemma_digits_value_nonneg(d);
    assert(parse_usize_spec(d) == Some(digits_value(d) as usize));
    assert(starts_with(name, "model.layers."@));
    assert(name != "lm_head.weight"@ && name != "lm_head.scales"@ && name != "lm_head.biases"@) by {
        assert("lm_head.weight"@[0] == 'l');
        assert("lm_head.scales"@[0] == 'l');
        assert("lm_head.biases"@[0] == 'l');
    }
    assert(name != "model.embed_tokens.weight"@ && name != "model.embed_tokens.scales"@
        && name != "model.embed_tokens.biases"@ && name != "model.norm.weight"@) by {
        assert("model.embed_tokens.weight"@[6] == 'e');
        assert("model.embed_tokens.scales"@[6] == 'e');
        assert("model.embed_tokens.biases"@[6] == 'e');
        assert("model.norm.weight"@[6] == 'n');
    }
}

/// Each tensor and projection name stands for the tensor or projection it
/// names, and no other name does: `weight`, `scales`, `biases`; `q_proj`,
/// `k_proj`, `v_proj`, `o_proj`; `gate_proj`, `down_proj`, `up_proj`.
pub proof fn lemma_projection_names(s: Seq<char>)
    ensures
        (param_of(s) == Some(WeightParam::Weight)) <==> s == "weight"@,
        (param_of(s) == Some(WeightParam::Scales)) <==> s == "scales"@,
        (param_of(s) == Some(WeightParam::Biases)) <==> s == "biases"@,
        (attention_proj_of(s) == Some(AttentionProj::Q)) <==> s == "q_proj"@,
        (attention_proj_of(s) == Some(AttentionProj::K)) <==> s == "k_proj"@,
        (attention_proj_of(s) == Some(AttentionProj::V)) <==> s == "v_proj"@,
        (attention_proj_of(s) == Some(AttentionProj::O)) <==> s == "o_proj"@,
        (mlp_proj_of(s) == Some(MlpProj::Gate)) <==> s == "gate_proj"@,
        (mlp_proj_of(s) == Some(MlpProj::Down)) <==> s == "down_proj"@,
        (mlp_proj_of(s) == Some(MlpProj::Up)) <==> s == "up_proj"@,
{
    reveal_strlit("weight");
    reveal_strlit("scales");
    reveal_strlit("biases");
    reveal_strlit("q_proj");
    reveal_strlit("k_proj");
    reveal_strlit("v_proj");
    reveal_strlit("o_proj");
    reveal_strlit("gate_proj");
    reveal_strlit("down_proj");
    reveal_strlit("up_proj");
    assert("weight"@[0] != "scales"@[0] && "weight"@[0] != "biases"@[0] && "scales"@[0] != "biases"@[0]);
    assert("q_proj"@[0] != "k_proj"@[0] && "q_proj"@[0] != "v_proj"@[0] && "q_proj"@[0] != "o_proj"@[0]);
    assert("k_proj"@[0] != "v_proj"@[0] && "k_proj"@[0] != "o_proj"@[0] && "v_proj"@[0] != "o_proj"@[0]);
    assert("gate_proj"@[0] != "down_proj"@[0]);
}

/// A weight of a LLaMA attention layer named `a.b.c.e.<proj>.<param>` (four
/// dot-free parts, such as `model.layers.0.self_attn`, before the
/// projection) goes to the named tensor of the named projection, and any
/// other projection or tensor name is refused.
pub proof fn lemma_llama_attention_names(a: Seq<char>, b: Seq<char>, c: Seq<char>, e: Seq<char>, p: Seq<char>, q: Seq<char>)
    requires
        dot_free(a),
        dot_free(b),
        dot_free(c),
        dot_free(e),
        dot_free(p),
        dot_free(q),
    ensures
        llama_attention_target(a + "."@ + b + "."@ + c + "."@ + e + "."@ + p + "."@ + q)
            == match projection_route(attention_proj_of(p), param_of(q)) {
                Some(x) => NameRoute::To(Some(x)),
                None => NameRoute::Unsupported,
            },
{
    let pq = p + "."@ + q;
    lemma_dot_parts_pair(p, q);
    lemma_block_sub_module(a, b, c, e, pq);
    assert(a + "."@ + b + "."@ + c + "."@ + e + "."@ + p + "."@ + q
        =~= a + "."@ + (b + "."@ + (c + "."@ + (e + "."@ + pq))));
}

/// Each fixed LLaMA weight name is loaded into the part it names, whatever
/// the number of blocks, and no other name is: `model.norm.weight` and only
/// it fills the final norm, `lm_head.*` and only they fill the output head,
/// `model.embed_tokens.*` and only they fill the token embedding.
pub proof fn lemma_llama_fixed_names(name: Seq<char>, n_layers: usize)
    ensures
        (llama_weight_target(name, n_layers) == NameRoute::To(LlamaWeightTarget::Norm))
            <==> name == "model.norm.weight"@,
        (llama_weight_target(name, n_layers) == NameRoute::To(LlamaWeightTarget::LmHead(WeightParam::Weight)))
            <==> name == "lm_head.weight"@,
        (llama_weight_target(name, n_layers) == NameRoute::To(LlamaWeightTarget::LmHead(WeightParam::Scales)))
            <==> name == "lm_head.scales"@,
        (llama_weight_target(name, n_layers) == NameRoute::To(LlamaWeightTarget::LmHead(WeightParam::Biases)))
            <==> name == "lm_head.biases"@,
        (llama_weight_target(name, n_layers) == NameRoute::To(LlamaWeightTarget::EmbedTokens(WeightParam::Weight)))
            <==> name == "model.embed_tokens.weight"@,
        (llama_weight_target(name, n_layers) == NameRoute::To(LlamaWeightTarget::EmbedTokens(WeightParam::Scales)))
            <==> name == "model.embed_tokens.scales"@,
        (llama_weight_target(name, n_layers) == NameRoute::To(LlamaWeightTarget::EmbedTokens(WeightParam::Biases)))
            <==> name == "model.embed_tokens.biases"@,
{
    reveal_strlit("lm_head.weight");
    reveal_strlit("lm_head.scales");
    reveal_strlit("lm_head.biases");
    reveal_strlit("model.embed_tokens.weight");
    reveal_strlit("model.embed_tokens.scales");
    reveal_strlit("model.embed_tokens.biases");
    reveal_strlit("model.norm.weight");
    assert("lm_head.weight"@[8] != "lm_head.scales"@[8]);
    assert("lm_head.weight"@[8] != "lm_head.biases"@[8]);
    assert("lm_head.scales"@[8] != "lm_head.biases"@[8]);
    assert("model.embed_tokens.weight"@[19] != "model.embed_tokens.scales"@[19]);
    assert("model.embed_tokens.weight"@[19] != "model.embed_tokens.biases"@[19]);
    assert("model.embed_tokens.scales"@[19] != "model.embed_tokens.biases"@[19]);
}

} // verus!
