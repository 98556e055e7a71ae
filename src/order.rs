use vstd::prelude::*;

use vstd::utf8::encode_utf8;

verus! {

/// Lexicographic order on byte strings: a proper prefix comes first.
pub open spec fn bytes_lt(x: Seq<u8>, y: Seq<u8>) -> bool
    decreases x.len(),
{
    if y.len() == 0 {
        false
    } else if x.len() == 0 {
        true
    } else if x[0] != y[0] {
        x[0] < y[0]
    } else {
        bytes_lt(x.drop_first(), y.drop_first())
    }
}

/// Names are ordered by their UTF-8 bytes.
pub open spec fn name_lt(a: Seq<char>, b: Seq<char>) -> bool {
    bytes_lt(encode_utf8(a), encode_utf8(b))
}

/// Every name comes strictly before every later one.
pub open spec fn strictly_ascending(names: Seq<Seq<char>>) -> bool {
    forall|i: int, j: int| 0 <= i < j < names.len() ==> name_lt(#[trigger] names[i], #[trigger] names[j])
}

/// The view of a vector of strings.
pub open spec fn names_view(names: Seq<String>) -> Seq<Seq<char>> {
    names.map_values(|s: String| s@)
}

pub proof fn lemma_bytes_lt_transitive(x: Seq<u8>, y: Seq<u8>, z: Seq<u8>)
    requires
        bytes_lt(x, y),
        bytes_lt(y, z),
    ensures
        bytes_lt(x, z),
    decreases x.len(),
{
    if x.len() > 0 && x[0] == y[0] && y[0] == z[0] {
        lemma_bytes_lt_transitive(x.drop_first(), y.drop_first(), z.drop_first());
    }
}

proof fn lemma_bytes_lt_irreflexive(x: Seq<u8>)
    ensures
        !bytes_lt(x, x),
    decreases x.len(),
{
    if x.len() > 0 {
        lemma_bytes_lt_irreflexive(x.drop_first());
    }
}

/// A name never comes strictly before itself.
pub proof fn lemma_name_lt_irreflexive(a: Seq<char>)
    ensures
        !name_lt(a, a),
{
    lemma_bytes_lt_irreflexive(encode_utf8(a));
}

/// Whether `x` comes strictly before `y` in byte order.
pub fn bytes_less(x: &[u8], y: &[u8]) -> (r: bool)
    ensures
        r == bytes_lt(x@, y@),
{
    let mut k: usize = 0;
    assert(x@.skip(0) =~= x@);
    assert(y@.skip(0) =~= y@);
    while k < x.len() && k < y.len() && x[k] == y[k]
        invariant
            k <= x@.len(),
            k <= y@.len(),
            bytes_lt(x@, y@) == bytes_lt(x@.skip(k as int), y@.skip(k as int)),
        decreases x@.len() - k,
    {
        assert(x@.skip(k as int).drop_first() =~= x@.skip(k + 1));
        assert(y@.skip(k as int).drop_first() =~= y@.skip(k + 1));
        k = k + 1;
    }
    if k == y.len() {
        false
    } else if k == x.len() {
        true
    } else {
        x[k] < y[k]
    }
}

/// Whether name `a` comes strictly before name `b`.
pub fn name_less(a: &String, b: &String) -> (r: bool)
    ensures
        r == name_lt(a@, b@),
{
    bytes_less(a.as_str().as_bytes(), b.as_str().as_bytes())
}

/// Whether each name comes strictly before the next.
pub fn is_strictly_ascending(names: &Vec<String>) -> (r: bool)
    ensures
        r == strictly_ascending(names_view(names@)),
{
    let ghost v = names_view(names@);
    let mut i: usize = 1;
    while i < names.len()
        invariant
            v == names_view(names@),
            v.len() == names.len(),
            1 <= i,
            forall|p: int, q: int| 0 <= p < q < i && q < v.len() ==> name_lt(#[trigger] v[p], #[trigger] v[q]),
        decreases names.len() - i,
    {
        if !name_less(&names[i - 1], &names[i]) {
            assert(!name_lt(v[i - 1], v[i as int]));
            return false;
        }
        assert forall|p: int, q: int| 0 <= p < q < i + 1 && q < v.len() implies name_lt(
            #[trigger] v[p],
            #[trigger] v[q],
        ) by {
            if q == i && p < i - 1 {
                assert(name_lt(v[p], v[i - 1]));
                lemma_bytes_lt_transitive(encode_utf8(v[p]), encode_utf8(v[i - 1]), encode_utf8(v[q]));
            }
        }
        i = i + 1;
    }
    true
}

} // verus!
