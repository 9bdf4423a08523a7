//! Padding a batch of token encodings to a common length.
use vstd::prelude::*;
use crate::error::Error;

verus! {

/// The token ids of a text and its attention mask.
#[derive(Debug, Clone)]
pub struct SimpleEncoding {
    ids: Vec<u32>,
    attention_mask: Vec<u32>,
}

/// `s` cut or extended with `v` to length `n`.
pub open spec fn resized(s: Seq<u32>, n: int, v: u32) -> Seq<u32> {
    if n <= s.len() {
        s.take(n)
    } else {
        s + Seq::new((n - s.len()) as nat, |i: int| v)
    }
}

/// The longest id list of a batch.
pub open spec fn max_len(encodings: Seq<SimpleEncoding>) -> int
    decreases encodings.len(),
{
    if encodings.len() == 0 {
        0
    } else {
        let rest = max_len(encodings.drop_last());
        let last = encodings.last().spec_ids().len() as int;
        if last > rest { last } else { rest }
    }
}

impl SimpleEncoding {
    pub closed spec fn spec_ids(&self) -> Seq<u32> {
        self.ids@
    }

    pub closed spec fn spec_attention_mask(&self) -> Seq<u32> {
        self.attention_mask@
    }

    /// An encoding from its ids and attention mask.
    pub fn new(ids: Vec<u32>, attention_mask: Vec<u32>) -> (r: Self)
        ensures
            r.spec_ids() == ids@,
            r.spec_attention_mask() == attention_mask@,
    {
        SimpleEncoding { ids, attention_mask }
    }

    pub fn get_ids(&self) -> (r: &[u32])
        ensures
            r@ == self.spec_ids(),
    {
        self.ids.as_slice()
    }

    pub fn get_attention_mask(&self) -> (r: &[u32])
        ensures
            r@ == self.spec_attention_mask(),
    {
        self.attention_mask.as_slice()
    }

    /// The number of ids.
    pub fn len(&self) -> (r: usize)
        ensures
            r == self.spec_ids().len(),
    {
        self.ids.len()
    }
}

/// The longest id list of a batch is at least as long as each of them, is
/// the length of one of them, and is no negative length.
pub proof fn lemma_max_len_bounds(encodings: Seq<SimpleEncoding>)
    ensures
        forall|i: int| 0 <= i < encodings.len() ==> #[trigger] encodings[i].spec_ids().len() <= max_len(encodings),
        encodings.len() > 0 ==> exists|i: int| 0 <= i < encodings.len() && #[trigger] encodings[i].spec_ids().len() == max_len(encodings),
        max_len(encodings) >= 0,
    decreases encodings.len(),
{
    if encodings.len() > 0 {
        let init = encodings.drop_last();
        lemma_max_len_bounds(init);
        assert forall|i: int| 0 <= i < encodings.len() implies #[trigger] encodings[i].spec_ids().len() <= max_len(encodings) by {
            if i < init.len() {
                assert(encodings[i] == init[i]);
            }
        }
        if max_len(encodings) == encodings.last().spec_ids().len() {
            assert(encodings[encodings.len() - 1].spec_ids().len() == max_len(encodings));
        } else {
            let k = choose|i: int| 0 <= i < init.len() && #[trigger] init[i].spec_ids().len() == max_len(init);
            assert(encodings[k] == init[k]);
        }
    }
}

fn copy_resized(s: &Vec<u32>, n: usize, v: u32) -> (r: Vec<u32>)
    ensures
        r@ == resized(s@, n as int, v),
{
    let mut out = s.clone();
    assert(out@ =~= s@);
    out.resize(n, v);
    if n > s.len() {
        assert(out@ =~= resized(s@, n as int, v));
    }
    out
}

/// Pads every encoding of a batch, ids with `padding_id` and the attention
/// mask with zeros, to the length of the longest id list. An empty batch has
/// no such length and is refused.
pub fn pad_encode_batch(encodings: &[SimpleEncoding], padding_id: u32) -> (r: Result<Vec<SimpleEncoding>, Error>)
    ensures
        encodings@.len() == 0 ==> r == Err::<Vec<SimpleEncoding>, Error>(Error::PaddingFailedFindMax),
        encodings@.len() > 0 ==> (r matches Ok(v) && {
            &&& v@.len() == encodings@.len()
            &&& forall|i: int| 0 <= i < v@.len() ==> {
                &&& #[trigger] v@[i].spec_ids() == resized(encodings@[i].spec_ids(), max_len(encodings@), padding_id)
                &&& v@[i].spec_attention_mask() == resized(encodings@[i].spec_attention_mask(), max_len(encodings@), 0)
            }
        }),
{
    if encodings.len() == 0 {
        return Err(Error::PaddingFailedFindMax);
    }
    proof {
        lemma_max_len_bounds(encodings@);
    }
    let mut max: usize = 0;
    let mut i: usize = 0;
    while i < encodings.len()
        invariant
            0 <= i <= encodings@.len(),
            max == max_len(encodings@.take(i as int)),
        decreases encodings@.len() - i,
    {
        assert(encodings@.take(i + 1).drop_last() =~= encodings@.take(i as int));
        let l = encodings[i].len();
        if l > max {
            max = l;
        }
        i = i + 1;
    }
    assert(encodings@.take(encodings@.len() as int) =~= encodings@);
    let mut out: Vec<SimpleEncoding> = Vec::new();
    let mut j: usize = 0;
    while j < encodings.len()
        invariant
            0 <= j <= encodings@.len(),
            max == max_len(encodings@),
            out@.len() == j,
            forall|k: int| 0 <= k < j ==> {
                &&& #[trigger] out@[k].spec_ids() == resized(encodings@[k].spec_ids(), max as int, padding_id)
                &&& out@[k].spec_attention_mask() == resized(encodings@[k].spec_attention_mask(), max as int, 0)
            },
        decreases encodings@.len() - j,
    {
        let ids = copy_resized(&encodings[j].ids, max, padding_id);
        let attention_mask = copy_resized(&encodings[j].attention_mask, max, 0);
        out.push(SimpleEncoding { ids, attention_mask });
        j = j + 1;
    }
    Ok(out)
}

} // verus!
