use vstd::prelude::*;

use vstd::arithmetic::div_mod::lemma_fundamental_div_mod_converse;

use crate::order::{is_strictly_ascending, name_lt, names_view, strictly_ascending};

verus! {

/// Pairs handed out by one fetch, unless the cursor is built with another size.
pub const BATCH_SIZE: usize = 1000;

/// An ordered pair of names.
pub type PairView = (Seq<char>, Seq<char>);

/// Lexicographic order on pairs of names.
pub open spec fn pair_lt(x: PairView, y: PairView) -> bool {
    name_lt(x.0, y.0) || (x.0 == y.0 && name_lt(x.1, y.1))
}

/// The pair at position `p` of the traversal: row `p / K`, column `p % K`.
pub open spec fn pair_at(names: Seq<Seq<char>>, p: int) -> PairView {
    (names[p / names.len() as int], names[p % names.len() as int])
}

/// Every ordered pair of `names`, self-pairs included, row by row.
pub open spec fn all_pairs(names: Seq<Seq<char>>) -> Seq<PairView> {
    Seq::new(names.len() * names.len(), |p: int| pair_at(names, p))
}

/// The view of a vector of pairs of strings.
pub open spec fn pairs_view(s: Seq<(String, String)>) -> Seq<PairView> {
    s.map_values(|p: (String, String)| (p.0@, p.1@))
}

/// Why a traversal cannot start.
#[derive(PartialEq, Eq, Structural, Debug, Clone, Copy)]
pub enum CursorError {
    /// The names do not come in strictly ascending order.
    NamesOutOfOrder,
}

/// The state of a traversal, in mathematical terms.
pub ghost struct CursorView {
    pub names: Seq<Seq<char>>,
    /// How many pairs of `all_pairs(names)` were handed out.
    pub position: nat,
    pub batch_size: nat,
    /// A fetch came back short: the traversal is over.
    pub finished: bool,
}

/// Streams the ordered pairs of a set of names in ascending order, a batch
/// at a time; the cursor is the position of the last pair handed out.
pub struct NameCursor {
    names: Vec<String>,
    next_a: usize,
    next_b: usize,
    batch_size: usize,
    finished: bool,
}

impl View for NameCursor {
    type V = CursorView;

    closed spec fn view(&self) -> CursorView {
        CursorView {
            names: names_view(self.names@),
            position: (self.next_a * self.names.len() + self.next_b) as nat,
            batch_size: self.batch_size as nat,
            finished: self.finished,
        }
    }
}

proof fn lemma_pair_at(names: Seq<Seq<char>>, a: int, b: int)
    requires
        0 <= a,
        0 <= b < names.len(),
    ensures
        pair_at(names, a * names.len() + b) == (names[a], names[b]),
{
    lemma_fundamental_div_mod_converse(a * names.len() + b, names.len() as int, a, b);
}

impl NameCursor {
    pub closed spec fn well_formed(&self) -> bool {
        &&& strictly_ascending(self@.names)
        &&& self.batch_size > 0
        &&& self.next_a <= self.names.len()
        &&& (self.next_b < self.names.len() || self.next_b == 0)
        &&& (self.next_a == self.names.len() ==> self.next_b == 0)
        &&& (self.finished ==> self.next_a == self.names.len())
    }

    /// What holds of every well-formed cursor.
    pub proof fn lemma_well_formed(&self)
        requires
            self.well_formed(),
        ensures
            strictly_ascending(self@.names),
            self@.batch_size > 0,
            self@.position <= self@.names.len() * self@.names.len(),
            self@.finished ==> self@.position == self@.names.len() * self@.names.len(),
    {
        let k = self.names.len() as int;
        let a = self.next_a as int;
        let b = self.next_b as int;
        if a < k {
            assert(a * k + b <= k * k) by (nonlinear_arith)
                requires
                    0 <= a < k,
                    0 <= b < k,
            ;
        }
    }

    /// A cursor at the start of the traversal of `names`, fetching
    /// `batch_size` pairs at a time; an error if the names are not strictly
    /// ascending.
    pub fn with_batch_size(names: Vec<String>, batch_size: usize) -> (r: Result<NameCursor, CursorError>)
        requires
            batch_size > 0,
        ensures
            r is Err <==> !strictly_ascending(names_view(names@)),
            r is Err ==> r == Err::<NameCursor, CursorError>(CursorError::NamesOutOfOrder),
            r matches Ok(c) ==> c.well_formed() && c@.names == names_view(names@) && c@.position == 0
                && c@.batch_size == batch_size && !c@.finished,
    {
        if !is_strictly_ascending(&names) {
            return Err(CursorError::NamesOutOfOrder);
        }
        Ok(NameCursor { names, next_a: 0, next_b: 0, batch_size, finished: false })
    }

    /// A cursor at the start of the traversal of `names`, fetching
    /// `BATCH_SIZE` pairs at a time.
    pub fn new(names: Vec<String>) -> (r: Result<NameCursor, CursorError>)
        ensures
            r is Err <==> !strictly_ascending(names_view(names@)),
            r is Err ==> r == Err::<NameCursor, CursorError>(CursorError::NamesOutOfOrder),
            r matches Ok(c) ==> c.well_formed() && c@.names == names_view(names@) && c@.position == 0
                && c@.batch_size == BATCH_SIZE && !c@.finished,
    {
        NameCursor::with_batch_size(names, BATCH_SIZE)
    }

    /// Whether a fetch has come back short, which ends the traversal.
    pub fn is_finished(&self) -> (r: bool)
        ensures
            r == self@.finished,
    {
        self.finished
    }

    /// The next pairs after the cursor, at most `batch_size` of them, in
    /// ascending order; the cursor moves past them. A batch shorter than
    /// `batch_size` ends the traversal, and after that every batch is empty.
    pub fn fetch_next_batch(&mut self) -> (r: Vec<(String, String)>)
        requires
            old(self).well_formed(),
        ensures
            final(self).well_formed(),
            final(self)@.names == old(self)@.names,
            final(self)@.batch_size == old(self)@.batch_size,
            old(self)@.finished ==> final(self)@.position == old(self)@.position,
            !old(self)@.finished ==> final(self)@.position == if old(self)@.position
                + old(self)@.batch_size <= old(self)@.names.len() * old(self)@.names.len() {
                old(self)@.position + old(self)@.batch_size
            } else {
                old(self)@.names.len() * old(self)@.names.len()
            },
            r.len() == final(self)@.position - old(self)@.position,
            pairs_view(r@) == all_pairs(old(self)@.names).subrange(
                old(self)@.position as int,
                final(self)@.position as int,
            ),
            final(self)@.finished == (old(self)@.finished || r.len() < old(self)@.batch_size),
    {
        proof {
            self.lemma_well_formed();
        }
        let mut r: Vec<(String, String)> = Vec::new();
        if self.finished {
            assert(pairs_view(r@) =~= all_pairs(self@.names).subrange(
                self@.position as int,
                self@.position as int,
            ));
            return r;
        }
        let k = self.names.len();
        let ghost names = self@.names;
        let ghost start = self@.position;
        let ghost total = names.len() * names.len();
        while r.len() < self.batch_size && self.next_a < k
            invariant
                self.well_formed(),
                !self.finished,
                self@.names == names,
                self@.batch_size == old(self)@.batch_size,
                k == self.names.len(),
                names.len() == k,
                total == k * k,
                start == old(self)@.position,
                start <= self@.position <= total,
                r.len() == self@.position - start,
                r.len() <= self.batch_size,
                pairs_view(r@) == all_pairs(names).subrange(start as int, self@.position as int),
            decreases total - self@.position,
        {
            let a = self.next_a;
            let b = self.next_b;
            proof {
                lemma_pair_at(names, a as int, b as int);
                assert((a as int) * k + b < k * k) by (nonlinear_arith)
                    requires
                        0 <= a < k,
                        0 <= b < k,
                ;
            }
            let pair = (self.names[a].clone(), self.names[b].clone());
            r.push(pair);
            if b + 1 == k {
                self.next_b = 0;
                self.next_a = a + 1;
                assert((a + 1) * k + 0 == a * k + b + 1) by (nonlinear_arith)
                    requires
                        b + 1 == k,
                ;
            } else {
                self.next_b = b + 1;
            }
            assert(pairs_view(r@) =~= all_pairs(names).subrange(start as int, self@.position as int));
        }
        proof {
            self.lemma_well_formed();
        }
        if r.len() < self.batch_size {
            self.finished = true;
        }
        r
    }
}

/// The traversal of a strictly ascending set of `K` names hands out `K * K`
/// pairs, each pair of names exactly once, in strictly ascending order.
pub proof fn lemma_traversal_exhaustive(names: Seq<Seq<char>>)
    requires
        strictly_ascending(names),
    ensures
        all_pairs(names).len() == names.len() * names.len(),
        forall|p: int, q: int|
            0 <= p < q < all_pairs(names).len() ==> pair_lt(
                #[trigger] all_pairs(names)[p],
                #[trigger] all_pairs(names)[q],
            ),
        forall|x: int, y: int|
            0 <= x < names.len() && 0 <= y < names.len() ==> #[trigger] all_pairs(names)[x
                * names.len() + y] == (names[x], names[y]),
{
    let k = names.len() as int;
    assert forall|x: int, y: int| 0 <= x < k && 0 <= y < k implies #[trigger] all_pairs(names)[x * k
        + y] == (names[x], names[y]) by {
        lemma_pair_at(names, x, y);
        assert(x * k + y < k * k) by (nonlinear_arith)
            requires
                0 <= x < k,
                0 <= y < k,
        ;
    }
    assert forall|p: int, q: int| 0 <= p < q < all_pairs(names).len() implies pair_lt(
        #[trigger] all_pairs(names)[p],
        #[trigger] all_pairs(names)[q],
    ) by {
        let a1 = p / k;
        let b1 = p % k;
        let a2 = q / k;
        let b2 = q % k;
        assert(k > 0) by (nonlinear_arith)
            requires
                q < k * k,
                0 <= q,
                k >= 0,
        ;
        vstd::arithmetic::div_mod::lemma_fundamental_div_mod(p, k);
        vstd::arithmetic::div_mod::lemma_fundamental_div_mod(q, k);
        vstd::arithmetic::div_mod::lemma_mod_pos_bound(p, k);
        vstd::arithmetic::div_mod::lemma_mod_pos_bound(q, k);
        vstd::arithmetic::div_mod::lemma_div_pos_is_pos(p, k);
        vstd::arithmetic::div_mod::lemma_div_pos_is_pos(q, k);
        assert(a1 <= a2) by (nonlinear_arith)
            requires
                p == k * a1 + b1,
                q == k * a2 + b2,
                0 <= b1 < k,
                0 <= b2 < k,
                p < q,
        ;
        assert(a2 < k) by (nonlinear_arith)
            requires
                q == k * a2 + b2,
                0 <= b2 < k,
                q < k * k,
        ;
        if a1 == a2 {
            assert(b1 < b2);
        }
    }
}

} // verus!
