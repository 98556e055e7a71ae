use vstd::prelude::*;

use crate::cursor::PairView;
use crate::similarity::{PairScore, Similarity};

verus! {

/// The key under which a scored pair is stored.
pub open spec fn edge_key(e: PairScore) -> PairView {
    (e.a, e.b)
}

/// The stored edges after upserting `edges` into `m`, one after the other.
pub open spec fn upserted_all(m: Map<PairView, PairScore>, edges: Seq<PairScore>) -> Map<
    PairView,
    PairScore,
>
    decreases edges.len(),
{
    if edges.len() == 0 {
        m
    } else {
        upserted_all(m, edges.drop_last()).insert(edge_key(edges.last()), edges.last())
    }
}

/// Upserting into `m` is upserting into an empty store and laying the
/// result over `m`.
pub proof fn lemma_upserted_all_over(m: Map<PairView, PairScore>, edges: Seq<PairScore>)
    ensures
        upserted_all(m, edges) == m.union_prefer_right(upserted_all(Map::empty(), edges)),
    decreases edges.len(),
{
    if edges.len() == 0 {
        assert(m.union_prefer_right(Map::empty()) =~= m);
    } else {
        lemma_upserted_all_over(m, edges.drop_last());
        assert(upserted_all(m, edges) =~= m.union_prefer_right(upserted_all(Map::empty(), edges)));
    }
}

/// Upserting the same edges a second time changes nothing.
pub proof fn lemma_upserted_all_idempotent(m: Map<PairView, PairScore>, edges: Seq<PairScore>)
    ensures
        upserted_all(upserted_all(m, edges), edges) == upserted_all(m, edges),
{
    let u = upserted_all(Map::empty(), edges);
    lemma_upserted_all_over(m, edges);
    lemma_upserted_all_over(upserted_all(m, edges), edges);
    assert(m.union_prefer_right(u).union_prefer_right(u) =~= m.union_prefer_right(u));
}

/// Scored pairs kept in memory, at most one per pair of names.
pub struct SimilarityStore {
    edges: Vec<Similarity>,
    contents: Ghost<Map<PairView, PairScore>>,
}

impl View for SimilarityStore {
    type V = Map<PairView, PairScore>;

    closed spec fn view(&self) -> Map<PairView, PairScore> {
        self.contents@
    }
}

impl SimilarityStore {
    pub closed spec fn well_formed(&self) -> bool {
        &&& self.contents@.dom().finite()
        &&& self.contents@.dom().len() == self.edges.len()
        &&& forall|i: int|
            0 <= i < self.edges.len() ==> #[trigger] self.contents@.contains_key(
                edge_key(self.edges[i]@),
            ) && self.contents@[edge_key(self.edges[i]@)] == self.edges[i]@
        &&& forall|k: PairView|
            #[trigger] self.contents@.contains_key(k) ==> exists|i: int|
                0 <= i < self.edges.len() && edge_key(#[trigger] self.edges[i]@) == k
        &&& forall|i: int, j: int|
            0 <= i < j < self.edges.len() ==> edge_key(#[trigger] self.edges[i]@) != edge_key(
                #[trigger] self.edges[j]@,
            )
    }

    /// An empty store.
    pub fn new() -> (r: SimilarityStore)
        ensures
            r.well_formed(),
            r@ == Map::<PairView, PairScore>::empty(),
    {
        SimilarityStore { edges: Vec::new(), contents: Ghost(Map::empty()) }
    }

    /// The number of stored edges.
    pub fn len(&self) -> (r: usize)
        requires
            self.well_formed(),
        ensures
            r == self@.dom().len(),
    {
        self.edges.len()
    }

    fn position_of(&self, a: &String, b: &String) -> (r: Option<usize>)
        requires
            self.well_formed(),
        ensures
            r matches Some(i) ==> i < self.edges.len() && edge_key(self.edges[i as int]@) == (
                a@,
                b@,
            ),
            r is None ==> !self@.contains_key((a@, b@)),
    {
        for i in 0..self.edges.len()
            invariant
                self.well_formed(),
                forall|j: int| 0 <= j < i ==> edge_key(#[trigger] self.edges[j]@) != (a@, b@),
        {
            if self.edges[i].a == *a && self.edges[i].b == *b {
                return Some(i);
            }
        }
        None
    }

    /// The edge stored under `(a, b)`, if any.
    pub fn get(&self, a: &String, b: &String) -> (r: Option<&Similarity>)
        requires
            self.well_formed(),
        ensures
            r is Some <==> self@.contains_key((a@, b@)),
            r matches Some(e) ==> e@ == self@[(a@, b@)],
    {
        match self.position_of(a, b) {
            Some(i) => {
                assert(self.contents@.contains_key(edge_key(self.edges[i as int]@)));
                Some(&self.edges[i])
            },
            None => None,
        }
    }

    /// Stores `edge` under its pair of names, in place of what was there.
    pub fn upsert_edge(&mut self, edge: Similarity)
        requires
            old(self).well_formed(),
        ensures
            final(self).well_formed(),
            final(self)@ == old(self)@.insert(edge_key(edge@), edge@),
    {
        let ghost k = edge_key(edge@);
        let ghost old_contents = self.contents@;
        match self.position_of(&edge.a, &edge.b) {
            Some(i) => {
                self.edges.set(i, edge);
                self.contents = Ghost(old_contents.insert(k, edge@));
                assert(old_contents.dom().insert(k) =~= old_contents.dom());
                assert forall|j: int| 0 <= j < self.edges.len() implies #[trigger] self.contents@.contains_key(
                    edge_key(self.edges[j]@),
                ) && self.contents@[edge_key(self.edges[j]@)] == self.edges[j]@ by {
                    if j != i {
                        assert(old_contents.contains_key(edge_key(old(self).edges[j]@)));
                        assert(edge_key(old(self).edges[j]@) != edge_key(old(self).edges[i as int]@));
                    }
                }
                assert forall|p: int, q: int| 0 <= p < q < self.edges.len() implies edge_key(
                    #[trigger] self.edges[p]@,
                ) != edge_key(#[trigger] self.edges[q]@) by {
                    assert(edge_key(old(self).edges[p]@) != edge_key(old(self).edges[q]@));
                }
                assert forall|k2: PairView| #[trigger] self.contents@.contains_key(k2) implies exists|
                    j: int,
                | 0 <= j < self.edges.len() && edge_key(#[trigger] self.edges[j]@) == k2 by {
                    if k2 != k {
                        let j = choose|j: int|
                            0 <= j < self.edges.len() && edge_key(#[trigger] old(self).edges[j]@)
                                == k2;
                        assert(edge_key(self.edges[j]@) == k2);
                    } else {
                        assert(edge_key(self.edges[i as int]@) == k2);
                    }
                }
            },
            None => {
                self.edges.push(edge);
                self.contents = Ghost(old_contents.insert(k, edge@));
                let n = self.edges.len() - 1;
                assert forall|j: int| 0 <= j < self.edges.len() implies #[trigger] self.contents@.contains_key(
                    edge_key(self.edges[j]@),
                ) && self.contents@[edge_key(self.edges[j]@)] == self.edges[j]@ by {
                    if j != n {
                        assert(old_contents.contains_key(edge_key(old(self).edges[j]@)));
                    }
                }
                assert forall|p: int, q: int| 0 <= p < q < self.edges.len() implies edge_key(
                    #[trigger] self.edges[p]@,
                ) != edge_key(#[trigger] self.edges[q]@) by {
                    if q == n {
                        assert(old_contents.contains_key(edge_key(old(self).edges[p]@)));
                    }
                }
                assert forall|k2: PairView| #[trigger] self.contents@.contains_key(k2) implies exists|
                    j: int,
                | 0 <= j < self.edges.len() && edge_key(#[trigger] self.edges[j]@) == k2 by {
                    if k2 != k {
                        let j = choose|j: int|
                            0 <= j < old(self).edges.len() && edge_key(
                                #[trigger] old(self).edges[j]@,
                            ) == k2;
                        assert(edge_key(self.edges[j]@) == k2);
                    } else {
                        assert(edge_key(self.edges[self.edges.len() - 1]@) == k2);
                    }
                }
            },
        }
    }
}

} // verus!
