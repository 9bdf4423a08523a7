//! Attention masks: the causal mask of a block of queries following cached
//! positions, the choice between the fused causal mode and an explicit mask,
//! and the shapes a user mask is brought to.
use vstd::prelude::*;
use crate::error::Error;
use crate::kv_cache::KVCache;

verus! {

/// Whether query `i` of a block that follows `offset` cached positions may
/// attend to key position `j`: keys up to the query's own position, and with
/// a window no key more than one position behind it. The window's size is
/// not read: any window keeps exactly the last two positions, as the mask
/// builder computes it.
pub open spec fn causal_allowed(i: int, j: int, offset: int, windowed: bool) -> bool {
    &&& offset + i >= j
    &&& (windowed ==> offset + i <= j + 1)
}

/// The causal mask of `n` queries following `offset` cached positions: `n`
/// rows of `offset + n` entries. The mask builder compares positions held as
/// `f32`, which are exact integers only up to 2^24, so `n + offset` stays
/// within that range.
pub fn create_causal_mask(n: i32, offset: i32, window_size: Option<i32>) -> (r: Result<Vec<Vec<bool>>, Error>)
    requires
        n + offset <= 16777216,
    ensures
        (n < 0 || offset < 0) <==> r is Err,
        r matches Err(e) ==> e == (Error::InvalidMaskSize { n, offset }),
        r matches Ok(m) ==> {
            &&& m@.len() == n
            &&& forall|i: int| 0 <= i < n ==> #[trigger] m@[i]@.len() == offset + n
            &&& forall|i: int, j: int|
                0 <= i < n && 0 <= j < offset + n ==> #[trigger] m@[i]@[j] == causal_allowed(
                    i,
                    j,
                    offset as int,
                    window_size is Some,
                )
        },
{
    if n < 0 || offset < 0 {
        return Err(Error::InvalidMaskSize { n, offset });
    }
    let windowed = window_size.is_some();
    let width = offset + n;
    let mut rows: Vec<Vec<bool>> = Vec::new();
    let mut i: i32 = 0;
    while i < n
        invariant
            0 <= i <= n,
            0 <= offset,
            width == offset + n,
            n + offset <= 16777216,
            windowed == window_size is Some,
            rows@.len() == i,
            forall|a: int| 0 <= a < i ==> #[trigger] rows@[a]@.len() == width,
            forall|a: int, b: int|
                0 <= a < i && 0 <= b < width ==> #[trigger] rows@[a]@[b] == causal_allowed(
                    a,
                    b,
                    offset as int,
                    windowed,
                ),
        decreases n - i,
    {
        let mut row: Vec<bool> = Vec::new();
        let mut j: i32 = 0;
        while j < width
            invariant
                0 <= i < n,
                0 <= j <= width,
                0 <= offset,
                width == offset + n,
                n + offset <= 16777216,
                row@.len() == j,
                forall|b: int| 0 <= b < j ==> #[trigger] row@[b] == causal_allowed(
                    i as int,
                    b,
                    offset as int,
                    windowed,
                ),
            decreases width - j,
        {
            let allowed = offset + i >= j && (!windowed || offset + i <= j + 1);
            row.push(allowed);
            j = j + 1;
        }
        rows.push(row);
        i = i + 1;
    }
    Ok(rows)
}

/// The mask handed to attention.
#[derive(Debug, Clone)]
pub enum AttentionMask {
    /// The fused causal mode of the attention kernel.
    Causal,
    /// An explicit mask: one row per query, `true` where attention is allowed.
    Array(Vec<Vec<bool>>),
}

impl Default for AttentionMask {
    fn default() -> (r: AttentionMask)
        ensures
            r is Causal,
    {
        AttentionMask::Causal
    }
}

/// The offset and window an explicit mask for `t` queries uses with a cache,
/// and whether one is needed.
pub open spec fn mask_settings(t: int, offset: int, max_size: Option<i32>, return_array: bool) -> (int, Option<i32>, bool) {
    match max_size {
        Some(m) => {
            let off = if m < offset { m as int } else { offset };
            (off, Some(m), return_array || off + t > m)
        },
        None => (offset, None, return_array),
    }
}

/// The mask for a block of `t` queries: the fused causal mode unless an
/// explicit mask is asked for or a bounded cache forces one. As for
/// `create_causal_mask`, positions must stay within 2^24, where `f32` holds
/// them exactly.
pub fn create_attention_mask<K: Copy, V: Copy>(t: i32, cache: Option<&KVCache<K, V>>, return_array: bool) -> (r: Result<AttentionMask, Error>)
    requires
        cache matches Some(c) ==> t + c.offset <= 16777216,
        cache is None ==> t <= 16777216,
    ensures
        t <= 1 ==> r == Ok::<AttentionMask, Error>(AttentionMask::Causal),
        t > 1 ==> {
            let (off, window, explicit) = match cache {
                Some(c) => mask_settings(t as int, c.offset as int, c.max_size, return_array),
                None => (0int, None::<i32>, return_array),
            };
            &&& !explicit ==> r == Ok::<AttentionMask, Error>(AttentionMask::Causal)
            &&& explicit ==> (off < 0 <==> r is Err)
            &&& explicit && off >= 0 ==> (r matches Ok(AttentionMask::Array(m)) && {
                &&& m@.len() == t
                &&& forall|i: int| 0 <= i < t ==> #[trigger] m@[i]@.len() == off + t
                &&& forall|i: int, j: int|
                    0 <= i < t && 0 <= j < off + t ==> #[trigger] m@[i]@[j] == causal_allowed(
                        i,
                        j,
                        off,
                        window is Some,
                    )
            })
        },
{
    if t > 1 {
        let mut offset: i32 = 0;
        let mut window_size: Option<i32> = None;
        let mut explicit = return_array;
        if let Some(c) = cache {
            offset = c.offset;
            if let Some(max_size) = c.max_size {
                window_size = Some(max_size);
                offset = if max_size < offset { max_size } else { offset };
                explicit = explicit || (offset as i64 + t as i64 > max_size as i64);
            }
        }
        if explicit {
            let m = create_causal_mask(t, offset, window_size)?;
            Ok(AttentionMask::Array(m))
        } else {
            Ok(AttentionMask::Causal)
        }
    } else {
        Ok(AttentionMask::Causal)
    }
}

/// The shapes a user mask goes through: the shape it is reshaped to (none
/// when it already has four dimensions) and the shape it is broadcast to.
#[derive(Debug, Clone)]
pub struct MaskShapes {
    pub reshape: Option<Vec<i32>>,
    pub broadcast: Vec<i32>,
}

/// Brings the shape of a user mask (`[B, T]`, `[B, T, T]` or four
/// dimensions) to `[B, 1, T, T]`, through `[B, 1, 1, T]` or `[B, 1, T, T]`.
pub fn normalize_and_broadcast_mask(shape: &Vec<i32>) -> (r: Result<MaskShapes, Error>)
    requires
        shape@.len() >= 2,
    ensures
        (shape@.len() > 4) <==> r is Err,
        r matches Err(e) ==> (e matches Error::UnexpectedMaskShape(v) && v@ == shape@),
        r matches Ok(s) ==> {
            let b = shape@[0];
            let t = shape@[1];
            &&& s.broadcast@ == seq![b, 1i32, t, t]
            &&& shape@.len() == 2 ==> (s.reshape matches Some(v) && v@ == seq![b, 1i32, 1i32, t])
            &&& shape@.len() == 3 ==> (s.reshape matches Some(v) && v@ == seq![b, 1i32, t, t])
            &&& shape@.len() == 4 ==> s.reshape is None
        },
{
    let batch_size = shape[0];
    let seq_len = shape[1];
    let reshape = if shape.len() == 2 {
        Some(vec![batch_size, 1, 1, seq_len])
    } else if shape.len() == 3 {
        Some(vec![batch_size, 1, seq_len, seq_len])
    } else if shape.len() == 4 {
        None
    } else {
        return Err(Error::UnexpectedMaskShape(shape.clone()));
    };
    Ok(MaskShapes { reshape, broadcast: vec![batch_size, 1, seq_len, seq_len] })
}

} // verus!
