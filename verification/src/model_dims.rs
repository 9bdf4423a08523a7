//! The layer sizes a model configuration implies, with the checks a
//! configuration must pass before any layer is built.
use vstd::prelude::*;
use crate::config::{LLaMAConfig, Qwen3Config};
use crate::error::Error;

verus! {

/// The sizes of the projections of an attention layer.
#[derive(Debug, Clone, Copy, PartialEq, Eq)]
pub struct AttentionDims {
    pub hidden_size: i32,
    pub n_heads: i32,
    pub n_kv_heads: i32,
    pub head_dim: i32,
    /// Output size of the query projection and input size of the output one.
    pub q_dims: i32,
    /// Output size of the key and value projections.
    pub kv_dims: i32,
    pub bias: bool,
}

/// Neither check divides by zero or overflows.
pub open spec fn head_counts_ok(hidden_size: i32, n_heads: i32, n_kv_heads: i32) -> bool {
    &&& n_heads != 0
    &&& n_kv_heads != 0
    &&& !(hidden_size == i32::MIN && n_heads == -1)
    &&& !(n_heads == i32::MIN && n_kv_heads == -1)
}

pub open spec fn abs(x: int) -> int {
    if x >= 0 { x } else { -x }
}

/// `b` divides `a`.
pub open spec fn divides(b: int, a: int) -> bool {
    abs(a) % abs(b) == 0
}

/// The configuration error an attention layer reports, if any: the hidden
/// size must split evenly over the heads, and the heads over the key/value
/// heads.
pub open spec fn attention_config_error(hidden_size: i32, n_heads: i32, n_kv_heads: i32) -> Option<Seq<char>> {
    if !divides(n_heads as int, hidden_size as int) {
        Some("hidden_size must be divisible by n_heads"@)
    } else if !divides(n_kv_heads as int, n_heads as int) {
        Some("n_heads must be divisible by n_kv_heads"@)
    } else {
        None
    }
}

fn abs_u32(x: i32) -> (r: u32)
    ensures
        r as int == abs(x as int),
{
    if x < 0 {
        (-(x as i64)) as u32
    } else {
        x as u32
    }
}

fn check_heads(hidden_size: i32, n_heads: i32, n_kv_heads: i32) -> (r: Result<(), Error>)
    requires
        head_counts_ok(hidden_size, n_heads, n_kv_heads),
    ensures
        match attention_config_error(hidden_size, n_heads, n_kv_heads) {
            Some(m) => r matches Err(Error::InvalidConfig(s)) && s@ == m,
            None => r is Ok,
        },
{
    if abs_u32(hidden_size) % abs_u32(n_heads) != 0 {
        return Err(Error::InvalidConfig("hidden_size must be divisible by n_heads".to_owned()));
    }
    if abs_u32(n_heads) % abs_u32(n_kv_heads) != 0 {
        return Err(Error::InvalidConfig("n_heads must be divisible by n_kv_heads".to_owned()));
    }
    Ok(())
}

proof fn lemma_exact_quotient(a: int, b: int, q: int)
    requires
        b != 0,
        abs(a) % abs(b) == 0,
        q == abs(a) / abs(b),
    ensures
        abs(b) * q == abs(a),
        q >= 0,
{
    assert(abs(b) * q == abs(a) && q >= 0) by (nonlinear_arith)
        requires
            abs(b) > 0,
            abs(a) >= 0,
            abs(a) % abs(b) == 0,
            q == abs(a) / abs(b),
    ;
}

/// The exact quotient of `a` by `b`, which divides it.
fn exact_div(a: i32, b: i32) -> (q: i32)
    requires
        b != 0,
        divides(b as int, a as int),
        !(a == i32::MIN && b == -1),
    ensures
        q * b == a,
{
    let ua = abs_u32(a);
    let ub = abs_u32(b);
    let uq = ua / ub;
    proof {
        lemma_exact_quotient(a as int, b as int, uq as int);
        assert(uq <= ua) by (nonlinear_arith)
            requires
                ub >= 1,
                uq == ua / ub,
        ;
    }
    if (a < 0) != (b < 0) {
        proof {
            assert(uq as int <= 2147483648);
        }
        let r = (-(uq as i64)) as i32;
        proof {
            assert(r * b == a) by (nonlinear_arith)
                requires
                    abs(b as int) * (uq as int) == abs(a as int),
                    r == -(uq as int),
                    (a < 0) != (b < 0),
            ;
        }
        r
    } else {
        proof {
            if a < 0 {
                assert(b < 0);
                assert(ub >= 1);
                assert(b != -1 ==> ub >= 2);
                assert(uq as int <= 2147483647) by (nonlinear_arith)
                    requires
                        ub as int * uq as int == ua as int,
                        ua as int <= 2147483648,
                        ub >= 1,
                        b == -1 ==> ua as int <= 2147483647,
                        ub as int == abs(b as int),
                        b < 0,
                ;
            }
        }
        let r = uq as i32;
        proof {
            assert(r * b == a) by (nonlinear_arith)
                requires
                    abs(b as int) * (uq as int) == abs(a as int),
                    r == uq as int,
                    (a < 0) == (b < 0),
            ;
        }
        r
    }
}

proof fn lemma_kv_dims_fit(hidden: int, n_heads: int, n_kv: int, head_dim: int, m: int)
    requires
        n_heads * head_dim == hidden,
        m * n_kv == n_heads,
        m != 0,
        i32::MIN <= hidden <= i32::MAX,
        !(hidden == i32::MIN && n_kv == -n_heads),
    ensures
        i32::MIN <= n_kv * head_dim <= i32::MAX,
{
    let p = n_kv * head_dim;
    assert(m * p == hidden) by (nonlinear_arith)
        requires
            n_heads * head_dim == hidden,
            m * n_kv == n_heads,
            p == n_kv * head_dim,
    ;
    assert(abs(p) <= abs(hidden)) by (nonlinear_arith)
        requires
            m * p == hidden,
            m != 0,
    ;
    if p == 2147483648 {
        if m >= 1 {
            assert(m * p >= p) by (nonlinear_arith)
                requires
                    m >= 1,
                    p > 0,
            ;
        } else if m <= -2 {
            assert(m * p <= -2 * p) by (nonlinear_arith)
                requires
                    m <= -2,
                    p > 0,
            ;
        }
        assert(m == -1);
        assert(n_heads == -n_kv);
        assert(hidden == i32::MIN);
    }
}

/// The attention sizes of a LLaMA layer: each head gets `hidden_size / n_heads`.
pub fn attention_llama_dims(config: &LLaMAConfig) -> (r: Result<AttentionDims, Error>)
    requires
        head_counts_ok(config.hidden_size, config.num_attention_heads, config.num_key_value_heads),
        !(config.hidden_size == i32::MIN && config.num_key_value_heads == -config.num_attention_heads),
    ensures
        match attention_config_error(config.hidden_size, config.num_attention_heads, config.num_key_value_heads) {
            Some(m) => r matches Err(Error::InvalidConfig(s)) && s@ == m,
            None => r matches Ok(d) && {
                &&& d.hidden_size == config.hidden_size
                &&& d.n_heads == config.num_attention_heads
                &&& d.n_kv_heads == config.num_key_value_heads
                &&& d.head_dim * d.n_heads == d.hidden_size
                &&& d.q_dims == d.hidden_size
                &&& d.kv_dims == d.n_kv_heads * d.head_dim
                &&& d.bias == config.attention_bias
            },
        },
{
    let hidden_size = config.hidden_size;
    let n_heads = config.num_attention_heads;
    let n_kv_heads = config.num_key_value_heads;
    check_heads(hidden_size, n_heads, n_kv_heads)?;
    let head_dim = exact_div(hidden_size, n_heads);
    let m = exact_div(n_heads, n_kv_heads);
    proof {
        assert(n_heads * head_dim == hidden_size);
        lemma_kv_dims_fit(hidden_size as int, n_heads as int, n_kv_heads as int, head_dim as int, m as int);
    }
    Ok(AttentionDims {
        hidden_size,
        n_heads,
        n_kv_heads,
        head_dim,
        q_dims: n_heads * head_dim,
        kv_dims: n_kv_heads * head_dim,
        bias: config.attention_bias,
    })
}

/// The head size of a Qwen3 layer: the configured one, or the hidden size
/// split over the heads.
pub open spec fn qwen3_head_dim_fits(config: Qwen3Config) -> bool {
    match config.head_dim {
        Some(h) => {
            &&& i32::MIN <= config.num_attention_heads * h <= i32::MAX
            &&& i32::MIN <= config.num_key_value_heads * h <= i32::MAX
        },
        None => !(config.hidden_size == i32::MIN && config.num_key_value_heads == -config.num_attention_heads),
    }
}

/// The attention sizes of a Qwen3 layer, which may give its head size
/// explicitly.
pub fn attention_qwen3_dims(config: &Qwen3Config) -> (r: Result<AttentionDims, Error>)
    requires
        head_counts_ok(config.hidden_size, config.num_attention_heads, config.num_key_value_heads),
        qwen3_head_dim_fits(*config),
    ensures
        match attention_config_error(config.hidden_size, config.num_attention_heads, config.num_key_value_heads) {
            Some(m) => r matches Err(Error::InvalidConfig(s)) && s@ == m,
            None => r matches Ok(d) && {
                &&& d.hidden_size == config.hidden_size
                &&& d.n_heads == config.num_attention_heads
                &&& d.n_kv_heads == config.num_key_value_heads
                &&& (match config.head_dim {
                    Some(h) => d.head_dim == h,
                    None => d.head_dim * d.n_heads == d.hidden_size,
                })
                &&& d.q_dims == d.n_heads * d.head_dim
                &&& d.kv_dims == d.n_kv_heads * d.head_dim
                &&& d.bias == config.attention_bias
            },
        },
{
    let hidden_size = config.hidden_size;
    let n_heads = config.num_attention_heads;
    let n_kv_heads = config.num_key_value_heads;
    check_heads(hidden_size, n_heads, n_kv_heads)?;
    let head_dim = match config.head_dim {
        Some(h) => h,
        None => exact_div(hidden_size, n_heads),
    };
    if config.head_dim.is_none() {
        let m = exact_div(n_heads, n_kv_heads);
        proof {
            lemma_kv_dims_fit(hidden_size as int, n_heads as int, n_kv_heads as int, head_dim as int, m as int);
        }
    }
    Ok(AttentionDims {
        hidden_size,
        n_heads,
        n_kv_heads,
        head_dim,
        q_dims: n_heads * head_dim,
        kv_dims: n_kv_heads * head_dim,
        bias: config.attention_bias,
    })
}

} // verus!
