//! The bookkeeping of a small nearest-neighbour store: which identifier sits
//! at which position, the neighbour lists of the proximity graph, and the
//! entry point of searches. The vectors and their similarity scores are kept
//! beside it by the application, which ranks candidates with them.
use vstd::prelude::*;
use std::collections::HashMap;
use crate::error::{Error, Result};

verus! {

broadcast use vstd::std_specs::hash::group_hash_axioms;

/// Positions, identifiers and graph of a nearest-neighbour store.
#[derive(Debug)]
pub struct AnnIndex {
    /// The length every stored vector has.
    dim: usize,
    /// The most neighbours a node keeps.
    m: usize,
    /// How many candidates a search keeps while a node is linked in.
    ef_construction: usize,
    /// How many candidates a query keeps.
    ef_search: usize,
    ids: Vec<i32>,
    id_to_idx: HashMap<i32, usize>,
    neighbors: Vec<Vec<usize>>,
    entry: Option<usize>,
}

impl AnnIndex {
    /// The length every stored vector has.
    pub closed spec fn spec_dim(&self) -> usize {
        self.dim
    }

    /// The most neighbours a node keeps.
    pub closed spec fn spec_m(&self) -> usize {
        self.m
    }

    /// How many candidates a search keeps while a node is linked in.
    pub closed spec fn spec_ef_construction(&self) -> usize {
        self.ef_construction
    }

    /// How many candidates a query keeps.
    pub closed spec fn spec_ef_search(&self) -> usize {
        self.ef_search
    }

    /// The identifier stored at each position, in insertion order.
    pub closed spec fn spec_ids(&self) -> Seq<i32> {
        self.ids@
    }

    /// The neighbour list of each position.
    pub closed spec fn spec_neighbors(&self) -> Seq<Seq<usize>> {
        self.neighbors@.map_values(|l: Vec<usize>| l@)
    }

    /// The position searches start from.
    pub closed spec fn spec_entry(&self) -> Option<usize> {
        self.entry
    }

    /// The position of each stored identifier.
    pub closed spec fn spec_positions(&self) -> Map<i32, usize> {
        self.id_to_idx@
    }

    /// Identifiers are stored once each, the position map agrees with them,
    /// every neighbour is a stored position, and searches start at the first
    /// node when there is one.
    pub closed spec fn well_formed(&self) -> bool {
        &&& self.neighbors@.len() == self.ids@.len()
        &&& self.ids@.len() < usize::MAX
        &&& forall|i: int| 0 <= i < self.ids@.len() ==> self.id_to_idx@.contains_key(#[trigger] self.ids@[i]) && self.id_to_idx@[self.ids@[i]] == i
        &&& forall|k: i32| #[trigger] self.id_to_idx@.contains_key(k) ==> self.id_to_idx@[k] < self.ids@.len() && self.ids@[self.id_to_idx@[k] as int] == k
        &&& forall|i: int, j: int| 0 <= i < self.neighbors@.len() && 0 <= j < self.neighbors@[i]@.len() ==> #[trigger] self.neighbors@[i]@[j] < self.ids@.len()
        &&& self.entry == (if self.ids@.len() == 0 { None } else { Some(0usize) })
    }

    /// An empty store for vectors of length `dim`, keeping at most `m`
    /// neighbours per node and beams of `ef_construction` and `ef_search`
    /// candidates.
    pub fn new(dim: usize, m: usize, ef_construction: usize, ef_search: usize) -> (r: AnnIndex)
        ensures
            r.well_formed(),
            r.spec_dim() == dim,
            r.spec_m() == m,
            r.spec_ef_construction() == ef_construction,
            r.spec_ef_search() == ef_search,
            r.spec_ids().len() == 0,
            r.spec_entry() is None,
    {
        AnnIndex {
            dim,
            m,
            ef_construction,
            ef_search,
            ids: Vec::new(),
            id_to_idx: HashMap::new(),
            neighbors: Vec::new(),
            entry: None,
        }
    }

    /// The length every stored vector has.
    pub fn dim(&self) -> (r: usize)
        ensures
            r == self.spec_dim(),
    {
        self.dim
    }

    /// The most neighbours a node keeps.
    pub fn m(&self) -> (r: usize)
        ensures
            r == self.spec_m(),
    {
        self.m
    }

    /// How many candidates a search keeps while a node is linked in.
    pub fn ef_construction(&self) -> (r: usize)
        ensures
            r == self.spec_ef_construction(),
    {
        self.ef_construction
    }

    /// How many candidates a query keeps.
    pub fn ef_search(&self) -> (r: usize)
        ensures
            r == self.spec_ef_search(),
    {
        self.ef_search
    }

    /// How many nodes are stored.
    pub fn len(&self) -> (r: usize)
        ensures
            r == self.spec_ids().len(),
    {
        self.ids.len()
    }

    /// The position searches start from, none while the store is empty.
    pub fn entry(&self) -> (r: Option<usize>)
        requires
            self.well_formed(),
        ensures
            r == self.spec_entry(),
            r is None <==> self.spec_ids().len() == 0,
            r matches Some(e) ==> e == 0,
    {
        self.entry
    }

    /// The identifier at position `idx`.
    pub fn id_at(&self, idx: usize) -> (r: i32)
        requires
            idx < self.spec_ids().len(),
        ensures
            r == self.spec_ids()[idx as int],
    {
        self.ids[idx]
    }

    /// The neighbours of position `idx`.
    pub fn neighbors_of(&self, idx: usize) -> (r: &Vec<usize>)
        requires
            idx < self.spec_neighbors().len(),
        ensures
            r@ == self.spec_neighbors()[idx as int],
    {
        &self.neighbors[idx]
    }

    /// The position of identifier `id`, if it is stored.
    pub fn position_of(&self, id: i32) -> (r: Option<usize>)
        requires
            self.well_formed(),
        ensures
            r is Some <==> self.spec_positions().contains_key(id),
            r matches Some(i) ==> i == self.spec_positions()[id] && i < self.spec_ids().len() && self.spec_ids()[i as int] == id,
    {
        match self.id_to_idx.get(&id) {
            Some(i) => Some(*i),
            None => None,
        }
    }

    /// Why a node with identifier `id` and an embedding of `embedding_len`
    /// values would be refused: an embedding of another length than the
    /// store's, or an identifier that is stored already.
    pub open spec fn insert_refusal(&self, id: i32, embedding_len: usize) -> Option<Error> {
        if embedding_len != self.spec_dim() {
            Some(Error::AnnInvalidEmbedding { id, expected_dim: self.spec_dim(), actual_dim: embedding_len })
        } else if self.spec_positions().contains_key(id) {
            Some(Error::AnnDuplicateInsertId(id))
        } else {
            None
        }
    }

    /// Whether a node with identifier `id` and an embedding of
    /// `embedding_len` values can be inserted.
    pub fn check_insert(&self, id: i32, embedding_len: usize) -> (r: Result<()>)
        requires
            self.well_formed(),
        ensures
            r == (match self.insert_refusal(id, embedding_len) {
                Some(e) => Err(e),
                None => Ok(()),
            }),
    {
        if embedding_len != self.dim {
            return Err(Error::AnnInvalidEmbedding { id, expected_dim: self.dim, actual_dim: embedding_len });
        }
        if self.id_to_idx.contains_key(&id) {
            return Err(Error::AnnDuplicateInsertId(id));
        }
        Ok(())
    }

    /// Stores identifier `id` at the next position, with no neighbours yet,
    /// and returns that position; the first node becomes the entry point.
    /// Fails as `check_insert` says, and then changes nothing.
    pub fn insert_node(&mut self, id: i32, embedding_len: usize) -> (r: Result<usize>)
        requires
            old(self).well_formed(),
            old(self).spec_ids().len() + 1 < usize::MAX,
        ensures
            final(self).well_formed(),
            final(self).spec_dim() == old(self).spec_dim(),
            final(self).spec_m() == old(self).spec_m(),
            final(self).spec_ef_construction() == old(self).spec_ef_construction(),
            final(self).spec_ef_search() == old(self).spec_ef_search(),
            r is Ok <==> old(self).insert_refusal(id, embedding_len) is None,
            old(self).insert_refusal(id, embedding_len) matches Some(e) ==> r == Err::<usize, Error>(e),
            r is Err ==> final(self).spec_ids() == old(self).spec_ids() && final(self).spec_neighbors() == old(self).spec_neighbors() && final(self).spec_positions() == old(self).spec_positions(),
            r matches Ok(idx) ==> {
                &&& idx == old(self).spec_ids().len()
                &&& final(self).spec_ids() == old(self).spec_ids().push(id)
                &&& final(self).spec_neighbors() == old(self).spec_neighbors().push(Seq::empty())
                &&& final(self).spec_positions() == old(self).spec_positions().insert(id, idx)
            },
    {
        match self.check_insert(id, embedding_len) {
            Err(e) => Err(e),
            Ok(()) => {
                let idx = self.ids.len();
                let ghost old_neighbors = self.neighbors@;
                self.ids.push(id);
                self.id_to_idx.insert(id, idx);
                self.neighbors.push(Vec::new());
                if self.entry.is_none() {
                    self.entry = Some(idx);
                }
                proof {
                    assert(self.neighbors@.map_values(|l: Vec<usize>| l@) =~= old_neighbors.map_values(|l: Vec<usize>| l@).push(Seq::<usize>::empty()));
                    assert forall|i: int, j: int| 0 <= i < self.neighbors@.len() && 0 <= j < self.neighbors@[i]@.len() implies #[trigger] self.neighbors@[i]@[j] < self.ids@.len() by {
                        if i < old_neighbors.len() {
                            assert(self.neighbors@[i] == old_neighbors[i]);
                        }
                    }
                }
                Ok(idx)
            },
        }
    }

    /// Links the node at `idx` to the first `m` of the search candidates
    /// `picked` in both directions: they are appended, in order, to its
    /// neighbour list, and it is appended to each of theirs. Returns, in
    /// order, the candidates whose neighbour list now holds more than `m`
    /// entries: the application ranks each such list by similarity and hands
    /// it to `keep_best_neighbors`. Candidates come from a search that cannot
    /// reach the new node: they are distinct and differ from `idx`.
    pub fn link(&mut self, idx: usize, picked: &Vec<usize>) -> (r: Vec<usize>)
        requires
            old(self).well_formed(),
            idx < old(self).spec_ids().len(),
            old(self).spec_neighbors()[idx as int].len() + old(self).spec_m() < usize::MAX,
            forall|i: int| 0 <= i < picked@.len() ==> #[trigger] picked@[i] < old(self).spec_ids().len() && picked@[i] != idx,
            forall|i: int, j: int| 0 <= i < j < picked@.len() ==> picked@[i] != picked@[j],
            forall|i: int| 0 <= i < picked@.len() ==> old(self).spec_neighbors()[#[trigger] picked@[i] as int].len() + 1 < usize::MAX,
        ensures
            final(self).well_formed(),
            final(self).spec_ids() == old(self).spec_ids(),
            final(self).spec_positions() == old(self).spec_positions(),
            final(self).spec_dim() == old(self).spec_dim(),
            final(self).spec_m() == old(self).spec_m(),
            final(self).spec_ef_construction() == old(self).spec_ef_construction(),
            final(self).spec_ef_search() == old(self).spec_ef_search(),
            final(self).spec_neighbors().len() == old(self).spec_neighbors().len(),
            final(self).spec_neighbors()[idx as int] == old(self).spec_neighbors()[idx as int] + chosen_candidates(picked@, old(self).spec_m()),
            forall|k: int| 0 <= k < chosen_candidates(picked@, old(self).spec_m()).len() ==>
                #[trigger] final(self).spec_neighbors()[chosen_candidates(picked@, old(self).spec_m())[k] as int]
                    == old(self).spec_neighbors()[chosen_candidates(picked@, old(self).spec_m())[k] as int].push(idx),
            forall|p: int| 0 <= p < old(self).spec_neighbors().len() && p != idx && !chosen_candidates(picked@, old(self).spec_m()).contains(p as usize)
                ==> #[trigger] final(self).spec_neighbors()[p] == old(self).spec_neighbors()[p],
            r@ == chosen_candidates(picked@, old(self).spec_m()).filter(|c: usize| old(self).spec_neighbors()[c as int].len() >= old(self).spec_m()),
    {
        let n = if picked.len() < self.m { picked.len() } else { self.m };
        let ghost chosen = chosen_candidates(picked@, self.m);
        let ghost old_nb = self.spec_neighbors();
        let ghost m = self.m;
        assert(chosen == picked@.take(n as int));
        let mut k: usize = 0;
        while k < n
            invariant
                self.well_formed(),
                self.spec_ids() == old(self).spec_ids(),
                self.spec_positions() == old(self).spec_positions(),
                self.dim == old(self).spec_dim(),
                self.m == m,
                self.ef_construction == old(self).spec_ef_construction(),
                self.ef_search == old(self).spec_ef_search(),
                old_nb == old(self).spec_neighbors(),
                n <= picked@.len(),
                idx < self.spec_ids().len(),
                forall|i: int| 0 <= i < picked@.len() ==> #[trigger] picked@[i] < self.spec_ids().len(),
                k <= n,
                self.spec_neighbors().len() == old_nb.len(),
                forall|p: int| 0 <= p < old_nb.len() && p != idx ==> #[trigger] self.spec_neighbors()[p] == old_nb[p],
                self.spec_neighbors()[idx as int] == old_nb[idx as int] + picked@.take(k as int),
            decreases n - k,
        {
            let nb = picked[k];
            let ghost before = self.neighbors@;
            let ghost before_nb = self.spec_neighbors();
            let mut list = self.neighbors[idx].clone();
            assert(list@ =~= before[idx as int]@);
            list.push(nb);
            self.neighbors.set(idx, list);
            proof {
                assert(picked@.take(k + 1) =~= picked@.take(k as int).push(nb));
                assert(self.spec_neighbors()[idx as int] =~= old_nb[idx as int] + picked@.take(k + 1));
                assert forall|p: int| 0 <= p < old_nb.len() && p != idx implies #[trigger] self.spec_neighbors()[p] == old_nb[p] by {
                    assert(self.neighbors@[p] == before[p]);
                    assert(before_nb[p] == old_nb[p]);
                    assert(before_nb[p] == before[p]@);
                }
                assert forall|i: int, j: int| 0 <= i < self.neighbors@.len() && 0 <= j < self.neighbors@[i]@.len() implies #[trigger] self.neighbors@[i]@[j] < self.ids@.len() by {
                    if i == idx {
                        if j < before[i]@.len() {
                            assert(self.neighbors@[i]@[j] == before[i]@[j]);
                        }
                    } else {
                        assert(self.neighbors@[i] == before[i]);
                    }
                }
            }
            k = k + 1;
        }
        let ghost mid_idx = self.spec_neighbors()[idx as int];
        assert(mid_idx == old_nb[idx as int] + chosen);
        let ghost pred = |c: usize| old_nb[c as int].len() >= m;
        let mut over: Vec<usize> = Vec::new();
        let mut k: usize = 0;
        while k < n
            invariant
                self.well_formed(),
                self.spec_ids() == old(self).spec_ids(),
                self.spec_positions() == old(self).spec_positions(),
                self.dim == old(self).spec_dim(),
                self.m == m,
                self.ef_construction == old(self).spec_ef_construction(),
                self.ef_search == old(self).spec_ef_search(),
                old_nb == old(self).spec_neighbors(),
                chosen == picked@.take(n as int),
                n <= picked@.len(),
                idx < self.spec_ids().len(),
                forall|i: int| 0 <= i < picked@.len() ==> #[trigger] picked@[i] < self.spec_ids().len() && picked@[i] != idx,
                forall|i: int, j: int| 0 <= i < j < picked@.len() ==> picked@[i] != picked@[j],
                forall|i: int| 0 <= i < picked@.len() ==> old_nb[#[trigger] picked@[i] as int].len() + 1 < usize::MAX,
                pred == (|c: usize| old_nb[c as int].len() >= m),
                k <= n,
                self.spec_neighbors().len() == old_nb.len(),
                self.spec_neighbors()[idx as int] == mid_idx,
                forall|q: int| 0 <= q < k ==> #[trigger] self.spec_neighbors()[picked@[q] as int] == old_nb[picked@[q] as int].push(idx),
                forall|p: int| 0 <= p < old_nb.len() && p != idx && !picked@.take(k as int).contains(p as usize)
                    ==> #[trigger] self.spec_neighbors()[p] == old_nb[p],
                over@ == picked@.take(k as int).filter(pred),
            decreases n - k,
        {
            let nb = picked[k];
            let ghost before = self.neighbors@;
            let ghost before_nb = self.spec_neighbors();
            proof {
                assert(!picked@.take(k as int).contains(nb)) by {
                    if picked@.take(k as int).contains(nb) {
                        let q = choose|q: int| 0 <= q < k && picked@.take(k as int)[q] == nb;
                        assert(picked@[q] == picked@[k as int]);
                    }
                }
                assert(self.spec_neighbors()[nb as int] == old_nb[nb as int]);
            }
            let mut list = self.neighbors[nb].clone();
            assert(list@ =~= before[nb as int]@);
            list.push(idx);
            let over_capacity = list.len() > self.m;
            self.neighbors.set(nb, list);
            if over_capacity {
                over.push(nb);
            }
            proof {
                reveal(Seq::filter);
                assert(picked@.take(k + 1).drop_last() =~= picked@.take(k as int));
                assert(picked@.take(k + 1).last() == nb);
                assert(self.spec_neighbors()[nb as int] =~= old_nb[nb as int].push(idx));
                assert forall|q: int| 0 <= q < k + 1 implies #[trigger] self.spec_neighbors()[picked@[q] as int] == old_nb[picked@[q] as int].push(idx) by {
                    if q < k {
                        assert(picked@[q] != nb);
                        assert(self.neighbors@[picked@[q] as int] == before[picked@[q] as int]);
                        assert(before_nb[picked@[q] as int] == before[picked@[q] as int]@);
                        assert(before_nb[picked@[q] as int] == old_nb[picked@[q] as int].push(idx));
                    }
                }
                assert forall|p: int| 0 <= p < old_nb.len() && p != idx && !picked@.take(k + 1).contains(p as usize)
                    implies #[trigger] self.spec_neighbors()[p] == old_nb[p] by {
                    assert(picked@.take(k + 1)[k as int] == nb);
                    if p == nb as int {
                        assert(picked@.take(k + 1).contains(nb));
                    }
                    assert(self.neighbors@[p] == before[p]);
                    assert(before_nb[p] == before[p]@);
                    if picked@.take(k as int).contains(p as usize) {
                        let q = choose|q: int| 0 <= q < k && picked@.take(k as int)[q] == p as usize;
                        assert(picked@.take(k + 1)[q] == p as usize);
                    }
                    assert(before_nb[p] == old_nb[p]);
                }
                assert(self.neighbors@[idx as int] == before[idx as int]);
                assert forall|i: int, j: int| 0 <= i < self.neighbors@.len() && 0 <= j < self.neighbors@[i]@.len() implies #[trigger] self.neighbors@[i]@[j] < self.ids@.len() by {
                    if i == nb {
                        if j < before[i]@.len() {
                            assert(self.neighbors@[i]@[j] == before[i]@[j]);
                        }
                    } else {
                        assert(self.neighbors@[i] == before[i]);
                    }
                }
            }
            k = k + 1;
        }
        proof {
            assert(picked@.take(n as int) == chosen);
            assert forall|k2: int| 0 <= k2 < chosen.len() implies
                #[trigger] self.spec_neighbors()[chosen[k2] as int] == old_nb[chosen[k2] as int].push(idx) by {
                assert(chosen[k2] == picked@[k2]);
            }
        }
        over
    }

    /// Keeps, of the neighbours of `nbr`, the first `m` of `ranked`: their
    /// list ordered from the most to the least similar.
    pub fn keep_best_neighbors(&mut self, nbr: usize, ranked: Vec<usize>)
        requires
            old(self).well_formed(),
            nbr < old(self).spec_ids().len(),
            ranked@.to_multiset() == old(self).spec_neighbors()[nbr as int].to_multiset(),
        ensures
            final(self).well_formed(),
            final(self).spec_ids() == old(self).spec_ids(),
            final(self).spec_positions() == old(self).spec_positions(),
            final(self).spec_dim() == old(self).spec_dim(),
            final(self).spec_m() == old(self).spec_m(),
            final(self).spec_ef_construction() == old(self).spec_ef_construction(),
            final(self).spec_ef_search() == old(self).spec_ef_search(),
            final(self).spec_neighbors() == old(self).spec_neighbors().update(nbr as int,
                if ranked@.len() <= old(self).spec_m() { ranked@ } else { ranked@.take(old(self).spec_m() as int) }),
    {
        let mut kept = ranked;
        let ghost full = kept@;
        if kept.len() > self.m {
            kept.truncate(self.m);
        }
        let ghost before = self.neighbors@;
        proof {
            assert forall|j: int| 0 <= j < kept@.len() implies #[trigger] kept@[j] < self.ids@.len() by {
                assert(full.to_multiset().count(kept@[j]) > 0) by {
                    assert(full[j] == kept@[j]);
                    full.to_multiset_ensures();
                }
                self.neighbors@[nbr as int]@.to_multiset_ensures();
                let q = choose|q: int| 0 <= q < before[nbr as int]@.len() && before[nbr as int]@[q] == kept@[j];
                assert(before[nbr as int]@[q] < self.ids@.len());
            }
        }
        self.neighbors.set(nbr, kept);
        proof {
            assert(self.spec_neighbors() =~= old(self).spec_neighbors().update(nbr as int,
                if full.len() <= old(self).spec_m() { full } else { full.take(old(self).spec_m() as int) }));
            assert forall|i: int, j: int| 0 <= i < self.neighbors@.len() && 0 <= j < self.neighbors@[i]@.len() implies #[trigger] self.neighbors@[i]@[j] < self.ids@.len() by {
                if i != nbr {
                    assert(self.neighbors@[i] == before[i]);
                }
            }
        }
    }

    /// The positions of the stored identifiers among `ids`, in the order of
    /// `ids`; identifiers that are not stored are skipped.
    pub fn positions_of(&self, ids: &[i32]) -> (r: Vec<usize>)
        requires
            self.well_formed(),
        ensures
            r@ == ids@.filter(|id: i32| self.spec_positions().contains_key(id)).map_values(|id: i32| self.spec_positions()[id]),
    {
        let ghost pred = |id: i32| self.spec_positions().contains_key(id);
        let ghost pos = |id: i32| self.spec_positions()[id];
        let mut r: Vec<usize> = Vec::new();
        let mut i: usize = 0;
        while i < ids.len()
            invariant
                self.well_formed(),
                i <= ids@.len(),
                pred == (|id: i32| self.spec_positions().contains_key(id)),
                pos == (|id: i32| self.spec_positions()[id]),
                r@ == ids@.take(i as int).filter(pred).map_values(pos),
            decreases ids@.len() - i,
        {
            let ghost before = r@;
            match self.position_of(ids[i]) {
                Some(p) => r.push(p),
                None => {},
            }
            proof {
                reveal(Seq::filter);
                assert(ids@.take(i + 1).drop_last() =~= ids@.take(i as int));
                assert(ids@.take(i + 1).last() == ids@[i as int]);
                if pred(ids@[i as int]) {
                    assert(ids@.take(i + 1).filter(pred) == ids@.take(i as int).filter(pred).push(ids@[i as int]));
                    assert(r@ =~= ids@.take(i + 1).filter(pred).map_values(pos));
                } else {
                    assert(ids@.take(i + 1).filter(pred) == ids@.take(i as int).filter(pred));
                }
            }
            i = i + 1;
        }
        assert(ids@.take(i as int) =~= ids@);
        r
    }

    /// The identifiers at the positions `idxs`, in order.
    pub fn ids_at(&self, idxs: &Vec<usize>) -> (r: Vec<i32>)
        requires
            forall|i: int| 0 <= i < idxs@.len() ==> #[trigger] idxs@[i] < self.spec_ids().len(),
        ensures
            r@.len() == idxs@.len(),
            forall|i: int| 0 <= i < idxs@.len() ==> #[trigger] r@[i] == self.spec_ids()[idxs@[i] as int],
    {
        let mut r: Vec<i32> = Vec::new();
        let mut i: usize = 0;
        while i < idxs.len()
            invariant
                forall|q: int| 0 <= q < idxs@.len() ==> #[trigger] idxs@[q] < self.spec_ids().len(),
                i <= idxs@.len(),
                r@.len() == i,
                forall|q: int| 0 <= q < i ==> #[trigger] r@[q] == self.spec_ids()[idxs@[q] as int],
            decreases idxs@.len() - i,
        {
            r.push(self.ids[idxs[i]]);
            i = i + 1;
        }
        r
    }
}

/// The candidates a new node is linked to: the first `m` of them.
pub open spec fn chosen_candidates(picked: Seq<usize>, m: usize) -> Seq<usize> {
    picked.take(if picked.len() < m { picked.len() as int } else { m as int })
}

/// Once an identifier is stored, inserting it again is refused as a
/// duplicate, whatever else is stored after it.
pub proof fn lemma_stored_id_is_refused(index: AnnIndex, id: i32)
    requires
        index.spec_positions().contains_key(id),
    ensures
        index.insert_refusal(id, index.spec_dim()) == Some(Error::AnnDuplicateInsertId(id)),
{
}

/// An insertion that succeeds stores the identifier at the position it
/// returns: the lookup of the identifier finds that position afterwards.
pub proof fn lemma_inserted_id_is_found(before: AnnIndex, after: AnnIndex, id: i32, idx: usize)
    requires
        after.spec_positions() == before.spec_positions().insert(id, idx),
    ensures
        after.spec_positions().contains_key(id),
        after.spec_positions()[id] == idx,
        after.insert_refusal(id, after.spec_dim()) == Some(Error::AnnDuplicateInsertId(id)),
{
}

} // verus!
