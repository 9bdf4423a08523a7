//! Layout of the debug rendering of a tensor: nested brackets following the
//! tensor's shape, optionally keeping only the first and last entries of each
//! dimension. The entries arrive already formatted.
use vstd::prelude::*;
use vstd::string::StringExecFns;

verus! {

/// How each entry of a tensor is rendered.
#[derive(Debug, Clone, Copy)]
pub enum PrintValueMode {
    Plain,
    Decimal(usize),
    Rounded(usize),
}

impl Default for PrintValueMode {
    fn default() -> (r: PrintValueMode)
        ensures
            r is Plain,
    {
        PrintValueMode::Plain
    }
}

/// Options of the debug rendering.
#[derive(Debug, Clone, Copy)]
pub struct PrintDebugOptions {
    print_value_mode: Option<PrintValueMode>,
    head_tail: Option<usize>,
}

impl Default for PrintDebugOptions {
    fn default() -> (r: PrintDebugOptions)
        ensures
            r.spec_print_value_mode() is None,
            r.spec_head_tail() is None,
    {
        PrintDebugOptions { print_value_mode: None, head_tail: None }
    }
}

impl PrintDebugOptions {
    pub closed spec fn spec_print_value_mode(&self) -> Option<PrintValueMode> {
        self.print_value_mode
    }

    pub closed spec fn spec_head_tail(&self) -> Option<usize> {
        self.head_tail
    }

    /// Keeps only the first and last `head_tail` entries of each dimension.
    pub fn with_head_tail(self, head_tail: usize) -> (r: Self)
        ensures
            r.spec_head_tail() == Some(head_tail),
            r.spec_print_value_mode() == self.spec_print_value_mode(),
    {
        let mut s = self;
        s.head_tail = Some(head_tail);
        s
    }

    /// Sets how each entry is rendered.
    pub fn with_print_value_mode(self, print_value_mode: PrintValueMode) -> (r: Self)
        ensures
            r.spec_print_value_mode() == Some(print_value_mode),
            r.spec_head_tail() == self.spec_head_tail(),
    {
        let mut s = self;
        s.print_value_mode = Some(print_value_mode);
        s
    }

    pub fn print_value_mode(&self) -> (r: Option<PrintValueMode>)
        ensures
            r == self.spec_print_value_mode(),
    {
        self.print_value_mode
    }

    pub fn head_tail(&self) -> (r: Option<usize>)
        ensures
            r == self.spec_head_tail(),
    {
        self.head_tail
    }
}

/// The items joined with `", "` between them.
pub open spec fn join_items(items: Seq<Seq<char>>) -> Seq<char>
    decreases items.len(),
{
    if items.len() == 0 {
        Seq::empty()
    } else if items.len() == 1 {
        items[0]
    } else {
        join_items(items.drop_last()) + ", "@ + items.last()
    }
}

/// Each item preceded by `", "`.
pub open spec fn prefixed_items(items: Seq<Seq<char>>) -> Seq<char>
    decreases items.len(),
{
    if items.len() == 0 {
        Seq::empty()
    } else {
        prefixed_items(items.drop_last()) + ", "@ + items.last()
    }
}

pub open spec fn min_nat(a: int, b: int) -> int {
    if a < b { a } else { b }
}

/// The entries of the last dimension: all of them, or with `Some(k)` the
/// first and last `min(k, n / 2)` of them with `...` between when entries
/// are left out. This is the printer's layout as it stands: after `...` each
/// tail entry is still preceded by `", "` (so `", ..., , "` appears), and
/// when nothing is left out head and tail are written without a separator
/// between them.
pub open spec fn row_text(items: Seq<Seq<char>>, head_tail: Option<usize>) -> Seq<char> {
    match head_tail {
        None => join_items(items),
        Some(k) => {
            let n = items.len() as int;
            let kk = min_nat(k as int, n / 2);
            let head = join_items(items.take(kk));
            let tail = items.skip(n - kk);
            if n > 2 * kk {
                head + ", ..., "@ + prefixed_items(tail)
            } else {
                head + join_items(tail)
            }
        },
    }
}

/// The number of entries of a tensor of the given shape.
pub open spec fn shape_size(shape: Seq<usize>) -> int
    decreases shape.len(),
{
    if shape.len() == 0 {
        1
    } else {
        shape[0] * shape_size(shape.skip(1))
    }
}

/// Every dimension but the last is non-empty.
pub open spec fn outer_dims_positive(shape: Seq<usize>) -> bool {
    forall|i: int| 0 <= i < shape.len() - 1 ==> shape[i] > 0
}

/// Whether block `i` of a dimension of `n` blocks is shown.
pub open spec fn block_shown(i: int, n: int, head_tail: Option<usize>) -> bool {
    match head_tail {
        None => true,
        Some(k) => k == usize::MAX || i < k || i >= n - k,
    }
}

/// The rendering of `data`, laid out by `shape`.
pub open spec fn tensor_text(data: Seq<Seq<char>>, shape: Seq<usize>, head_tail: Option<usize>) -> Seq<char>
    decreases 2 * shape.len() + 1, 0int,
{
    if shape.len() <= 1 {
        "["@ + row_text(data, head_tail) + "]"@
    } else {
        "["@ + blocks_text(data, shape, head_tail, shape[0] as int) + "]"@
    }
}

/// The rendering of the first `m` blocks of the outermost dimension. Blocks
/// follow one another with no separator in the text: the printer writes its
/// separators between blocks to standard output, not into the rendering.
pub open spec fn blocks_text(data: Seq<Seq<char>>, shape: Seq<usize>, head_tail: Option<usize>, m: int) -> Seq<char>
    decreases 2 * shape.len(), m,
{
    if m <= 0 || shape.len() == 0 {
        Seq::empty()
    } else {
        let n = shape[0] as int;
        let stride: int = if n > 0 { data.len() as int / n } else { 0 };
        let i = m - 1;
        let piece = if block_shown(i, n, head_tail) {
            tensor_text(data.subrange(i * stride, (i + 1) * stride), shape.skip(1), head_tail)
        } else if head_tail == Some(i as usize) {
            "..."@
        } else {
            Seq::empty()
        };
        blocks_text(data, shape, head_tail, m - 1) + piece
    }
}

/// The whole debug rendering of a tensor.
pub open spec fn debug_weight_text(data: Seq<Seq<char>>, shape: Seq<usize>, head_tail: Option<usize>, dtype: Seq<char>) -> Seq<char> {
    "tensor([ "@ + tensor_text(data, shape, head_tail) + "], dtype="@ + dtype + ")\n"@
}


/// The texts of a list of strings.
pub open spec fn texts(v: Seq<String>) -> Seq<Seq<char>> {
    Seq::new(v.len(), |i: int| v[i]@)
}

proof fn lemma_join_step(items: Seq<Seq<char>>, lo: int, j: int)
    requires
        0 <= lo <= j < items.len(),
    ensures
        join_items(items.subrange(lo, j + 1)) == if j == lo {
            items[j]
        } else {
            join_items(items.subrange(lo, j)) + ", "@ + items[j]
        },
{
    let s = items.subrange(lo, j + 1);
    assert(s.drop_last() =~= items.subrange(lo, j));
}

proof fn lemma_prefixed_step(items: Seq<Seq<char>>, lo: int, j: int)
    requires
        0 <= lo <= j < items.len(),
    ensures
        prefixed_items(items.subrange(lo, j + 1)) == prefixed_items(items.subrange(lo, j)) + ", "@
            + items[j],
{
    let s = items.subrange(lo, j + 1);
    assert(s.drop_last() =~= items.subrange(lo, j));
}

/// Appends the entries `lo..hi` of `values`, joined with `", "`.
fn append_joined(out: &mut String, values: &Vec<String>, lo: usize, hi: usize)
    requires
        lo <= hi <= values@.len(),
    ensures
        final(out)@ == old(out)@ + join_items(texts(values@).subrange(lo as int, hi as int)),
{
    let ghost start = out@;
    let ghost items = texts(values@);
    let mut j = lo;
    assert(items.subrange(lo as int, lo as int) =~= Seq::<Seq<char>>::empty());
    while j < hi
        invariant
            lo <= j <= hi <= values@.len(),
            items == texts(values@),
            out@ == start + join_items(items.subrange(lo as int, j as int)),
        decreases hi - j,
    {
        proof {
            lemma_join_step(items, lo as int, j as int);
        }
        if j > lo {
            out.append(", ");
        }
        out.append(values[j].as_str());
        j = j + 1;
    }
}

/// Appends the entries `lo..hi` of `values`, each preceded by `", "`.
fn append_prefixed(out: &mut String, values: &Vec<String>, lo: usize, hi: usize)
    requires
        lo <= hi <= values@.len(),
    ensures
        final(out)@ == old(out)@ + prefixed_items(texts(values@).subrange(lo as int, hi as int)),
{
    let ghost start = out@;
    let ghost items = texts(values@);
    let mut j = lo;
    assert(items.subrange(lo as int, lo as int) =~= Seq::<Seq<char>>::empty());
    while j < hi
        invariant
            lo <= j <= hi <= values@.len(),
            items == texts(values@),
            out@ == start + prefixed_items(items.subrange(lo as int, j as int)),
        decreases hi - j,
    {
        proof {
            lemma_prefixed_step(items, lo as int, j as int);
        }
        out.append(", ");
        out.append(values[j].as_str());
        j = j + 1;
    }
}

/// Appends the entries `lo..hi` of the last dimension.
fn append_row(out: &mut String, values: &Vec<String>, lo: usize, hi: usize, head_tail: Option<usize>)
    requires
        lo <= hi <= values@.len(),
    ensures
        final(out)@ == old(out)@ + row_text(texts(values@).subrange(lo as int, hi as int), head_tail),
{
    let ghost items = texts(values@).subrange(lo as int, hi as int);
    match head_tail {
        None => append_joined(out, values, lo, hi),
        Some(k) => {
            let n = hi - lo;
            let kk = if k < n / 2 { k } else { n / 2 };
            assert(items.take(kk as int) =~= texts(values@).subrange(lo as int, lo + kk));
            assert(items.skip(n - kk) =~= texts(values@).subrange(hi - kk, hi as int));
            append_joined(out, values, lo, lo + kk);
            if n > 2 * kk {
                out.append(", ..., ");
                append_prefixed(out, values, hi - kk, hi);
            } else {
                append_joined(out, values, hi - kk, hi);
            }
        },
    }
}

proof fn lemma_block_bounds(n: int, p: int, i: int)
    requires
        0 <= i < n,
        p >= 0,
    ensures
        0 <= i * p,
        i * p + p <= n * p,
        (i + 1) * p == i * p + p,
        n > 0 ==> (n * p) / n == p,
{
    assert(i * p + p <= n * p && 0 <= i * p && (i + 1) * p == i * p + p) by (nonlinear_arith)
        requires
            0 <= i < n,
            p >= 0,
    ;
    assert(n > 0 ==> (n * p) / n == p) by (nonlinear_arith);
}

proof fn lemma_shape_size_nonneg(shape: Seq<usize>)
    ensures
        shape_size(shape) >= 0,
    decreases shape.len(),
{
    if shape.len() > 0 {
        lemma_shape_size_nonneg(shape.skip(1));
        assert(shape[0] * shape_size(shape.skip(1)) >= 0) by (nonlinear_arith)
            requires
                shape_size(shape.skip(1)) >= 0,
        ;
    }
}

/// Appends the rendering of the entries `lo..hi` laid out by the dimensions
/// of `shape` from `d` on.
fn append_tensor(out: &mut String, values: &Vec<String>, lo: usize, hi: usize, shape: &Vec<usize>, d: usize, head_tail: Option<usize>)
    requires
        d < shape@.len(),
        lo <= hi <= values@.len(),
        hi - lo == shape_size(shape@.skip(d as int)),
        outer_dims_positive(shape@.skip(d as int)),
    ensures
        final(out)@ == old(out)@ + tensor_text(
            texts(values@).subrange(lo as int, hi as int),
            shape@.skip(d as int),
            head_tail,
        ),
    decreases shape@.len() - d,
{
    let ghost s = shape@.skip(d as int);
    let ghost data = texts(values@).subrange(lo as int, hi as int);
    let slen = shape.len();
    if d == slen - 1 {
        out.append("[");
        append_row(out, values, lo, hi, head_tail);
        out.append("]");
    } else {
        let n = shape[d];
        assert(s[0] == n);
        assert(n > 0);
        let ghost p = shape_size(s.skip(1));
        proof {
            lemma_shape_size_nonneg(s.skip(1));
            lemma_block_bounds(n as int, p, 0);
        }
        let stride = (hi - lo) / n;
        assert(stride == p);
        assert(s.skip(1) =~= shape@.skip(d + 1));
        let ghost start = out@;
        out.append("[");
        let ghost open = out@;
        let mut i: usize = 0;
        while i < n
            invariant
                slen == shape@.len(),
                d + 1 < slen,
                n == shape@[d as int],
                n > 0,
                s == shape@.skip(d as int),
                s.skip(1) == shape@.skip(d + 1),
                s[0] == n,
                data == texts(values@).subrange(lo as int, hi as int),
                hi - lo == n * stride,
                stride == p,
                p == shape_size(s.skip(1)),
                p >= 0,
                lo <= hi <= values@.len(),
                outer_dims_positive(s),
                i <= n,
                out@ == open + blocks_text(data, s, head_tail, i as int),
            decreases n - i,
        {
            proof {
                lemma_block_bounds(n as int, p, i as int);
            }
            let shown = match head_tail {
                None => true,
                Some(k) => k == usize::MAX || i < k || i >= n - k,
            };
            let ghost before = out@;
            if shown {
                let a = lo + i * stride;
                let b = a + stride;
                assert(data.subrange(i * stride, (i + 1) * stride) =~= texts(values@).subrange(a as int, b as int));
                assert(outer_dims_positive(shape@.skip(d + 1))) by {
                    assert forall|j: int| 0 <= j < shape@.skip(d + 1).len() - 1 implies #[trigger] shape@.skip(d + 1)[j] > 0 by {
                        assert(shape@.skip(d + 1)[j] == s[j + 1]);
                    }
                }
                append_tensor(out, values, a, b, shape, d + 1, head_tail);
            } else if head_tail == Some(i) {
                out.append("...");
            }
            assert(out@ == before + (if block_shown(i as int, n as int, head_tail) {
                tensor_text(data.subrange(i * stride, (i + 1) * stride), s.skip(1), head_tail)
            } else if head_tail == Some(i) {
                "..."@
            } else {
                Seq::empty()
            }));
            i = i + 1;
        }
        out.append("]");
        assert(out@ == start + tensor_text(data, s, head_tail));
    }
}

/// Renders a tensor for debugging from its entries, already formatted one by
/// one, its shape and the name of its element type.
pub fn format_debug_weight(values: &Vec<String>, shape: &Vec<usize>, print_value_mode: Option<PrintDebugOptions>, dtype: &str) -> (r: String)
    requires
        shape@.len() >= 1,
        values@.len() == shape_size(shape@),
        outer_dims_positive(shape@),
    ensures
        r@ == debug_weight_text(
            texts(values@),
            shape@,
            match print_value_mode {
                Some(o) => o.spec_head_tail(),
                None => None,
            },
            dtype@,
        ),
{
    let options = match print_value_mode {
        Some(o) => o,
        None => PrintDebugOptions::default(),
    };
    let head_tail = options.head_tail();
    let mut out = String::new();
    out.append("tensor([ ");
    assert(shape@.skip(0) =~= shape@);
    assert(texts(values@).subrange(0, values@.len() as int) =~= texts(values@));
    append_tensor(&mut out, values, 0, values.len(), shape, 0, head_tail);
    out.append("], dtype=");
    out.append(dtype);
    out.append(")\n");
    out
}

} // verus!
