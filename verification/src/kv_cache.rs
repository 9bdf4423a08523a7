//! The key/value cache of an attention layer. Positions along the sequence
//! axis are stored in a buffer that grows in whole steps; each update writes
//! the new positions after the ones already cached and hands back everything
//! cached so far.
use vstd::prelude::*;

verus! {

/// The smallest multiple of `step` that is at least `total`.
pub open spec fn round_up_to_step(total: int, step: int) -> int {
    ((total + step - 1) / step) * step
}

/// Rounding up to a step gives a multiple of the step that is at least the
/// total and less than one step above it.
pub proof fn lemma_round_up_to_step(total: int, step: int)
    requires
        step > 0,
        total >= 0,
    ensures
        total <= round_up_to_step(total, step) < total + step,
        round_up_to_step(total, step) % step == 0,
{
    let q = (total + step - 1) / step;
    assert(q * step <= total + step - 1 < q * step + step) by (nonlinear_arith)
        requires
            step > 0,
            q == (total + step - 1) / step,
    ;
    assert((q * step) % step == 0) by (nonlinear_arith)
        requires
            step > 0,
    ;
}

/// What one update of a cache does to its buffers.
#[derive(Debug, Clone, Copy)]
pub struct CachePlan {
    /// The capacity of the fresh buffers, when the current ones are too small.
    pub new_capacity: Option<i32>,
    /// How many positions of the current buffers are copied into fresh ones.
    pub copy_len: i32,
    /// The range of positions the new entries are written to.
    pub write_start: i32,
    pub write_end: i32,
}

/// The plan of an update that appends `new_seq_len` positions to a cache
/// holding `offset` positions in buffers of `capacity` positions.
pub open spec fn spec_plan_update(offset: int, step: int, capacity: Option<i32>, new_seq_len: int) -> CachePlan {
    let total = offset + new_seq_len;
    let resize = match capacity {
        Some(c) => total > c,
        None => true,
    };
    CachePlan {
        new_capacity: if resize { Some(round_up_to_step(total, step) as i32) } else { None },
        copy_len: if resize {
            match capacity {
                Some(c) => if c < offset { c } else { offset as i32 },
                None => 0,
            }
        } else {
            0
        },
        write_start: offset as i32,
        write_end: total as i32,
    }
}

/// Whether appending `new_seq_len` positions to `offset` cached ones needs
/// fresh buffers: there are none yet, or they are too small.
pub open spec fn needs_growth(offset: int, capacity: Option<i32>, new_seq_len: int) -> bool {
    match capacity {
        Some(c) => offset + new_seq_len > c,
        None => true,
    }
}

/// Decides how an update of `new_seq_len` positions is carried out: whether
/// the buffers grow (to the next multiple of `step`), how much of them is kept,
/// and where the new positions go.
pub fn plan_update(offset: i32, step: i32, capacity: Option<i32>, new_seq_len: i32) -> (p: CachePlan)
    requires
        offset >= 0,
        new_seq_len >= 0,
        offset + new_seq_len <= i32::MAX,
        needs_growth(offset as int, capacity, new_seq_len as int) ==> step > 0 && offset + new_seq_len + step <= i32::MAX,
    ensures
        p == spec_plan_update(offset as int, step as int, capacity, new_seq_len as int),
        p.new_capacity matches Some(c) ==> offset + new_seq_len <= c && c % step == 0
            && c < offset + new_seq_len + step,
{
    let total = offset + new_seq_len;
    let resize = match capacity {
        Some(c) => total > c,
        None => true,
    };
    if resize {
        proof {
            lemma_round_up_to_step(total as int, step as int);
        }
        let q = (total + step - 1) / step;
        assert(q * step == round_up_to_step(total as int, step as int));
        let new_capacity = q * step;
        let copy_len = match capacity {
            Some(c) => if c < offset { c } else { offset },
            None => 0,
        };
        CachePlan { new_capacity: Some(new_capacity), copy_len, write_start: offset, write_end: total }
    } else {
        CachePlan { new_capacity: None, copy_len: 0, write_start: offset, write_end: total }
    }
}


/// A buffer of `capacity` positions that keeps the first `copy_len` positions
/// of `old` and fills the rest with `zero`.
fn grown_buffer<T: Copy>(old: Option<Vec<T>>, capacity: usize, copy_len: usize, zero: T) -> (r: Vec<T>)
    requires
        copy_len <= capacity,
        old matches Some(o) ==> copy_len <= o@.len(),
        old is None ==> copy_len == 0,
    ensures
        r@.len() == capacity,
        forall|j: int| 0 <= j < copy_len ==> r@[j] == old.unwrap()@[j],
        forall|j: int| copy_len <= j < capacity ==> r@[j] == zero,
{
    let mut r: Vec<T> = Vec::new();
    let mut j: usize = 0;
    while j < capacity
        invariant
            j <= capacity,
            copy_len <= capacity,
            old matches Some(o) ==> copy_len <= o@.len(),
            old is None ==> copy_len == 0,
            r@.len() == j,
            forall|i: int| 0 <= i < j && i < copy_len ==> r@[i] == old.unwrap()@[i],
            forall|i: int| copy_len <= i < j ==> r@[i] == zero,
        decreases capacity - j,
    {
        if j < copy_len {
            match &old {
                Some(o) => r.push(o[j]),
                None => r.push(zero),
            }
        } else {
            r.push(zero);
        }
        j = j + 1;
    }
    r
}

/// Writes `data` into `buf` starting at position `start`.
fn write_positions<T: Copy>(buf: &mut Vec<T>, start: usize, data: &[T])
    requires
        start + data@.len() <= old(buf)@.len(),
    ensures
        final(buf)@ == old(buf)@.take(start as int) + data@ + old(buf)@.skip(start + data@.len()),
{
    let ghost original = buf@;
    let blen = buf.len();
    let mut j: usize = 0;
    while j < data.len()
        invariant
            blen == original.len(),
            start + data@.len() <= blen,
            buf@.len() == original.len(),
            j <= data@.len(),
            forall|i: int| 0 <= i < start ==> buf@[i] == original[i],
            forall|i: int| 0 <= i < j ==> buf@[start + i] == data@[i],
            forall|i: int| start + j <= i < original.len() ==> buf@[i] == original[i],
        decreases data@.len() - j,
    {
        buf.set(start + j, data[j]);
        j = j + 1;
    }
    assert(buf@ =~= original.take(start as int) + data@ + original.skip(start + data@.len()));
}

/// The first `len` positions of `buf`.
fn buffer_prefix<T: Copy>(buf: &Vec<T>, len: usize) -> (r: Vec<T>)
    requires
        len <= buf@.len(),
    ensures
        r@ == buf@.take(len as int),
{
    let mut r: Vec<T> = Vec::new();
    let mut j: usize = 0;
    while j < len
        invariant
            len <= buf@.len(),
            j <= len,
            r@ == buf@.take(j as int),
        decreases len - j,
    {
        r.push(buf[j]);
        j = j + 1;
        assert(r@ =~= buf@.take(j as int));
    }
    r
}

/// The cache of one attention layer. `keys` and `values` hold one entry per
/// position of the sequence axis; the first `offset` positions are filled.
#[derive(Debug)]
pub struct KVCache<K, V> {
    pub keys: Option<Vec<K>>,
    pub values: Option<Vec<V>>,
    pub offset: i32,
    pub step: i32,
    pub max_size: Option<i32>,
}

impl<K: Copy, V: Copy> KVCache<K, V> {
    /// The buffers are present together, equally long, hold at least `offset`
    /// positions, and the cache is empty when they are absent.
    pub open spec fn well_formed(&self) -> bool {
        &&& self.offset >= 0
        &&& self.step > 0
        &&& (self.keys is Some <==> self.values is Some)
        &&& (self.keys is None ==> self.offset == 0)
        &&& (self.keys matches Some(k) ==> self.offset <= k@.len() <= i32::MAX)
        &&& (self.keys matches Some(k) ==> (self.values matches Some(v) && v@.len() == k@.len()))
    }

    /// How many positions the buffers hold.
    pub open spec fn capacity(&self) -> Option<i32> {
        match self.keys {
            Some(k) => Some(k@.len() as i32),
            None => None,
        }
    }

    /// The keys cached so far.
    pub open spec fn cached_keys(&self) -> Seq<K> {
        match self.keys {
            Some(k) => k@.take(self.offset as int),
            None => Seq::empty(),
        }
    }

    /// The values cached so far.
    pub open spec fn cached_values(&self) -> Seq<V> {
        match self.values {
            Some(v) => v@.take(self.offset as int),
            None => Seq::empty(),
        }
    }

    /// An empty cache that grows in steps of 256 positions.
    pub fn default() -> (r: Self)
        ensures
            r.keys is None,
            r.values is None,
            r.offset == 0,
            r.step == 256,
            r.max_size is None,
            r.well_formed(),
    {
        KVCache { keys: None, values: None, offset: 0, step: 256, max_size: None }
    }

    /// Appends the entries of `keys` and `values` (one per position) after the
    /// cached ones, growing the buffers to the next multiple of `step` when
    /// they are too small (new positions start as `zero_key` / `zero_value`),
    /// and returns every key and value cached so far.
    pub fn update_and_fetch(&mut self, keys: &[K], values: &[V], zero_key: K, zero_value: V) -> (r: (Vec<K>, Vec<V>))
        requires
            old(self).well_formed(),
            keys@.len() == values@.len(),
            old(self).offset + keys@.len() <= i32::MAX,
            needs_growth(old(self).offset as int, old(self).capacity(), keys@.len() as int)
                ==> old(self).offset + keys@.len() + old(self).step <= i32::MAX,
        ensures
            final(self).well_formed(),
            final(self).offset == old(self).offset + keys@.len(),
            final(self).step == old(self).step,
            final(self).max_size == old(self).max_size,
            r.0@ == old(self).cached_keys() + keys@,
            r.1@ == old(self).cached_values() + values@,
            final(self).cached_keys() == r.0@,
            final(self).cached_values() == r.1@,
            final(self).capacity() == (match spec_plan_update(
                old(self).offset as int,
                old(self).step as int,
                old(self).capacity(),
                keys@.len() as int,
            ).new_capacity {
                Some(c) => Some(c),
                None => old(self).capacity(),
            }),
            !needs_growth(old(self).offset as int, old(self).capacity(), keys@.len() as int)
                ==> final(self).capacity() == old(self).capacity(),
            needs_growth(old(self).offset as int, old(self).capacity(), keys@.len() as int) ==> {
                &&& final(self).capacity() == Some(round_up_to_step(old(self).offset + keys@.len(), old(self).step as int) as i32)
                &&& round_up_to_step(old(self).offset + keys@.len(), old(self).step as int) % (old(self).step as int) == 0
            },
    {
        proof {
            lemma_round_up_to_step(old(self).offset + keys@.len(), old(self).step as int);
        }
        let n = keys.len() as i32;
        let capacity = match &self.keys {
            Some(k) => Some(k.len() as i32),
            None => None,
        };
        let plan = plan_update(self.offset, self.step, capacity, n);
        let ghost old_keys = self.cached_keys();
        let ghost old_values = self.cached_values();
        let old_k = self.keys.take();
        let old_v = self.values.take();
        let mut kbuf = match plan.new_capacity {
            Some(c) => grown_buffer(old_k, c as usize, plan.copy_len as usize, zero_key),
            None => old_k.unwrap(),
        };
        let mut vbuf = match plan.new_capacity {
            Some(c) => grown_buffer(old_v, c as usize, plan.copy_len as usize, zero_value),
            None => old_v.unwrap(),
        };
        assert(kbuf@.take(self.offset as int) =~= old_keys);
        assert(vbuf@.take(self.offset as int) =~= old_values);
        let start = self.offset as usize;
        write_positions(&mut kbuf, start, keys);
        write_positions(&mut vbuf, start, values);
        self.offset = plan.write_end;
        let end = plan.write_end as usize;
        let fetched_keys = buffer_prefix(&kbuf, end);
        let fetched_values = buffer_prefix(&vbuf, end);
        assert(fetched_keys@ =~= old_keys + keys@);
        assert(fetched_values@ =~= old_values + values@);
        self.keys = Some(kbuf);
        self.values = Some(vbuf);
        (fetched_keys, fetched_values)
    }
}


impl<K: Copy, V: Copy> KVCache<K, V> {
    /// A cache as `default` makes it: no buffers, nothing cached, steps of 256.
    pub open spec fn is_fresh(&self) -> bool {
        &&& self.keys is None
        &&& self.values is None
        &&& self.offset == 0
        &&& self.step == 256
        &&& self.max_size is None
    }

    /// The state the attention layer evaluates: the whole key and value
    /// buffers, every position of their capacity; both empty while there are
    /// none. Along the sequence axis nothing is cut: where the capacity
    /// exceeds the offset, the tensor runtime's cut to the offset falls on
    /// the heads axis, inside each entry, which this model of one entry per
    /// position does not see.
    pub fn get_state(&self) -> (r: (Vec<K>, Vec<V>))
        requires
            self.well_formed(),
        ensures
            match (self.keys, self.values) {
                (Some(k), Some(v)) => r.0@ == k@ && r.1@ == v@,
                _ => r.0@.len() == 0 && r.1@.len() == 0,
            },
    {
        match (&self.keys, &self.values) {
            (Some(k), Some(v)) => {
                let kn = k.len();
                let vn = v.len();
                let kk = buffer_prefix(k, kn);
                let vv = buffer_prefix(v, vn);
                assert(kk@ =~= k@);
                assert(vv@ =~= v@);
                (kk, vv)
            },
            _ => (Vec::new(), Vec::new()),
        }
    }
}

/// `n`, or the largest `usize` when `n` exceeds it.
pub open spec fn saturate(n: int) -> int {
    if n > usize::MAX {
        usize::MAX as int
    } else {
        n
    }
}

/// The product `a * b`, or the largest `usize` when it does not fit.
fn saturating_mul(a: usize, b: usize) -> (r: usize)
    ensures
        r == saturate(a * b),
{
    match a.checked_mul(b) {
        Some(p) => p,
        None => usize::MAX,
    }
}

/// How many bytes a cache occupies.
pub trait CacheSize {
    /// The exact number of bytes, as a mathematical integer.
    spec fn spec_bytes(&self) -> nat;

    /// The number of bytes, or the largest `usize` when it does not fit.
    fn cache_size(&self) -> (r: usize)
        ensures
            r == saturate(self.spec_bytes() as int),
    ;
}

impl<K: Copy, V: Copy> CacheSize for KVCache<K, V> {
    /// The bytes of both buffers, whole (not only the filled positions); a
    /// cache without buffers occupies none.
    open spec fn spec_bytes(&self) -> nat {
        match (self.keys, self.values) {
            (Some(k), Some(v)) => (k@.len() * vstd::layout::size_of::<K>() + v@.len() * vstd::layout::size_of::<V>()) as nat,
            _ => 0,
        }
    }

    fn cache_size(&self) -> (r: usize) {
        match (&self.keys, &self.values) {
            (Some(k), Some(v)) => {
                let kb = saturating_mul(k.len(), core::mem::size_of::<K>());
                let vb = saturating_mul(v.len(), core::mem::size_of::<V>());
                assert(k@.len() * vstd::layout::size_of::<K>() >= 0 && v@.len() * vstd::layout::size_of::<V>() >= 0) by (nonlinear_arith);
                kb.saturating_add(vb)
            },
            _ => 0,
        }
    }
}

/// The total of the bytes of the first `n` caches of `caches`.
pub open spec fn total_bytes<K: Copy, V: Copy>(caches: Seq<KVCache<K, V>>, n: int) -> nat
    decreases n,
{
    if n <= 0 {
        0
    } else {
        total_bytes(caches, n - 1) + caches[n - 1].spec_bytes()
    }
}

impl<K: Copy, V: Copy> CacheSize for Vec<KVCache<K, V>> {
    /// The bytes of all the caches of the list together.
    open spec fn spec_bytes(&self) -> nat {
        total_bytes(self@, self@.len() as int)
    }

    fn cache_size(&self) -> (r: usize) {
        let mut total: usize = 0;
        let mut i: usize = 0;
        while i < self.len()
            invariant
                i <= self@.len(),
                total == saturate(total_bytes(self@, i as int) as int),
            decreases self@.len() - i,
        {
            let item = self[i].cache_size();
            total = total.saturating_add(item);
            i = i + 1;
        }
        total
    }
}

/// One empty cache per layer of a model with `n_layer` layers.
pub fn create_cache_list<K: Copy, V: Copy>(n_layer: usize) -> (r: Vec<KVCache<K, V>>)
    ensures
        r@.len() == n_layer,
        forall|i: int| 0 <= i < n_layer ==> (#[trigger] r@[i]).is_fresh(),
{
    let mut r: Vec<KVCache<K, V>> = Vec::new();
    let mut i: usize = 0;
    while i < n_layer
        invariant
            i <= n_layer,
            r@.len() == i,
            forall|j: int| 0 <= j < i ==> (#[trigger] r@[j]).is_fresh(),
        decreases n_layer - i,
    {
        r.push(KVCache::default());
        i = i + 1;
    }
    r
}

/// A list of caches that `create_cache_list` has just made occupies no
/// bytes.
pub proof fn lemma_fresh_caches_occupy_nothing<K: Copy, V: Copy>(caches: Seq<KVCache<K, V>>, n: int)
    requires
        0 <= n <= caches.len(),
        forall|i: int| 0 <= i < caches.len() ==> (#[trigger] caches[i]).is_fresh(),
    ensures
        total_bytes(caches, n) == 0,
    decreases n,
{
    if n > 0 {
        lemma_fresh_caches_occupy_nothing(caches, n - 1);
        assert(caches[n - 1].is_fresh());
    }
}

} // verus!
