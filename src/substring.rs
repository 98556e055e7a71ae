use vstd::prelude::*;

use crate::text::chars_of;

verus! {

/// Length of the longest common suffix of `x` and `y`.
pub open spec fn common_suffix_len(x: Seq<char>, y: Seq<char>) -> nat
    decreases x.len(),
{
    if x.len() == 0 || y.len() == 0 || x.last() != y.last() {
        0
    } else {
        1 + common_suffix_len(x.drop_last(), y.drop_last())
    }
}

/// `a` and `b` both contain the same run of `k` consecutive characters.
pub open spec fn shares_run(a: Seq<char>, b: Seq<char>, k: nat) -> bool {
    exists|i: int, j: int|
        0 <= i && i + k <= a.len() && 0 <= j && j + k <= b.len() && #[trigger] a.subrange(i, i + k)
            == #[trigger] b.subrange(j, j + k)
}

/// Greatest common suffix of `a.take(i)` with a prefix `b.take(y)`, `y <= j`.
pub open spec fn row_best(a: Seq<char>, b: Seq<char>, i: int, j: int) -> nat
    decreases j,
{
    if j <= 0 {
        0
    } else {
        let here = common_suffix_len(a.take(i), b.take(j));
        let before = row_best(a, b, i, j - 1);
        if here > before {
            here
        } else {
            before
        }
    }
}

/// Greatest common suffix of a prefix `a.take(x)`, `x <= i`, with any prefix of `b`.
pub open spec fn table_best(a: Seq<char>, b: Seq<char>, i: int) -> nat
    decreases i,
{
    if i <= 0 {
        0
    } else {
        let here = row_best(a, b, i, b.len() as int);
        let before = table_best(a, b, i - 1);
        if here > before {
            here
        } else {
            before
        }
    }
}

/// Length of the longest run of consecutive characters found in both `a` and `b`.
pub open spec fn longest_common_run(a: Seq<char>, b: Seq<char>) -> nat {
    table_best(a, b, a.len() as int)
}

proof fn lemma_suffix_bounded(x: Seq<char>, y: Seq<char>)
    ensures
        common_suffix_len(x, y) <= x.len(),
        common_suffix_len(x, y) <= y.len(),
    decreases x.len(),
{
    if x.len() > 0 && y.len() > 0 && x.last() == y.last() {
        lemma_suffix_bounded(x.drop_last(), y.drop_last());
    }
}

proof fn lemma_suffix_step(a: Seq<char>, b: Seq<char>, i: int, j: int)
    requires
        0 <= i < a.len(),
        0 <= j < b.len(),
    ensures
        common_suffix_len(a.take(i + 1), b.take(j + 1)) == if a[i] == b[j] {
            1 + common_suffix_len(a.take(i), b.take(j))
        } else {
            0
        },
{
    assert(a.take(i + 1).drop_last() =~= a.take(i));
    assert(b.take(j + 1).drop_last() =~= b.take(j));
}

/// The common suffix is a shared run ending at the ends of `x` and `y`.
proof fn lemma_suffix_matches(x: Seq<char>, y: Seq<char>)
    ensures
        common_suffix_len(x, y) <= x.len(),
        common_suffix_len(x, y) <= y.len(),
        x.subrange(x.len() - common_suffix_len(x, y), x.len() as int) == y.subrange(
            y.len() - common_suffix_len(x, y),
            y.len() as int,
        ),
    decreases x.len(),
{
    lemma_suffix_bounded(x, y);
    let c = common_suffix_len(x, y);
    if c == 0 {
        assert(x.subrange(x.len() as int, x.len() as int) =~= y.subrange(
            y.len() as int,
            y.len() as int,
        ));
    } else {
        let xs = x.drop_last();
        let ys = y.drop_last();
        lemma_suffix_matches(xs, ys);
        assert(x.subrange(x.len() - c, x.len() as int) =~= xs.subrange(
            xs.len() - (c - 1),
            xs.len() as int,
        ).push(x.last()));
        assert(y.subrange(y.len() - c, y.len() as int) =~= ys.subrange(
            ys.len() - (c - 1),
            ys.len() as int,
        ).push(y.last()));
    }
}

/// A run of `k` characters shared at the ends of `x` and `y` is part of their common suffix.
proof fn lemma_suffix_covers(x: Seq<char>, y: Seq<char>, k: nat)
    requires
        k <= x.len(),
        k <= y.len(),
        x.subrange(x.len() - k, x.len() as int) == y.subrange(y.len() - k, y.len() as int),
    ensures
        common_suffix_len(x, y) >= k,
    decreases k,
{
    if k > 0 {
        let xs = x.subrange(x.len() - k, x.len() as int);
        let ys = y.subrange(y.len() - k, y.len() as int);
        assert(x.last() == xs[k - 1]);
        assert(y.last() == ys[k - 1]);
        let xd = x.drop_last();
        let yd = y.drop_last();
        assert(xd.subrange(xd.len() - (k - 1), xd.len() as int) =~= xs.drop_last());
        assert(yd.subrange(yd.len() - (k - 1), yd.len() as int) =~= ys.drop_last());
        lemma_suffix_covers(xd, yd, (k - 1) as nat);
    }
}

proof fn lemma_shares_empty(a: Seq<char>, b: Seq<char>)
    ensures
        shares_run(a, b, 0),
{
    let k: nat = 0;
    let i: int = 0;
    assert(a.subrange(i, i + k) =~= b.subrange(i, i + k));
}

proof fn lemma_suffix_shared(a: Seq<char>, b: Seq<char>, i: int, j: int)
    requires
        0 <= i <= a.len(),
        0 <= j <= b.len(),
    ensures
        shares_run(a, b, common_suffix_len(a.take(i), b.take(j))),
{
    let x = a.take(i);
    let y = b.take(j);
    let c = common_suffix_len(x, y);
    lemma_suffix_matches(x, y);
    assert(a.subrange(i - c, i - c + c) =~= x.subrange(x.len() - c, x.len() as int));
    assert(b.subrange(j - c, j - c + c) =~= y.subrange(y.len() - c, y.len() as int));
}

proof fn lemma_row_best_shared(a: Seq<char>, b: Seq<char>, i: int, j: int)
    requires
        0 <= i <= a.len(),
        j <= b.len(),
    ensures
        shares_run(a, b, row_best(a, b, i, j)),
    decreases j,
{
    if j <= 0 {
        lemma_shares_empty(a, b);
    } else {
        lemma_suffix_shared(a, b, i, j);
        lemma_row_best_shared(a, b, i, j - 1);
    }
}

proof fn lemma_table_best_shared(a: Seq<char>, b: Seq<char>, i: int)
    requires
        i <= a.len(),
    ensures
        shares_run(a, b, table_best(a, b, i)),
    decreases i,
{
    if i <= 0 {
        lemma_shares_empty(a, b);
    } else {
        lemma_row_best_shared(a, b, i, b.len() as int);
        lemma_table_best_shared(a, b, i - 1);
    }
}

proof fn lemma_row_best_above(a: Seq<char>, b: Seq<char>, i: int, y: int, j: int)
    requires
        0 < y <= j,
    ensures
        row_best(a, b, i, j) >= common_suffix_len(a.take(i), b.take(y)),
    decreases j,
{
    if y < j {
        lemma_row_best_above(a, b, i, y, j - 1);
    }
}

proof fn lemma_table_best_above(a: Seq<char>, b: Seq<char>, x: int, i: int)
    requires
        0 < x <= i,
    ensures
        table_best(a, b, i) >= row_best(a, b, x, b.len() as int),
    decreases i,
{
    if x < i {
        lemma_table_best_above(a, b, x, i - 1);
    }
}

/// `longest_common_run(a, b)` is the length of a run that `a` and `b` share,
/// and no shared run is longer.
pub proof fn lemma_longest_common_run(a: Seq<char>, b: Seq<char>)
    ensures
        shares_run(a, b, longest_common_run(a, b)),
        forall|k: nat| shares_run(a, b, k) ==> k <= longest_common_run(a, b),
{
    lemma_table_best_shared(a, b, a.len() as int);
    assert forall|k: nat| shares_run(a, b, k) implies k <= longest_common_run(a, b) by {
        if k > 0 {
            let (i, j) = choose|i: int, j: int|
                0 <= i && i + k <= a.len() && 0 <= j && j + k <= b.len() && #[trigger] a.subrange(
                    i,
                    i + k,
                ) == #[trigger] b.subrange(j, j + k);
            let x = a.take(i + k);
            let y = b.take(j + k);
            assert(x.subrange(x.len() - k, x.len() as int) =~= a.subrange(i, i + k));
            assert(y.subrange(y.len() - k, y.len() as int) =~= b.subrange(j, j + k));
            lemma_suffix_covers(x, y, k);
            lemma_row_best_above(a, b, i + k, j + k, b.len() as int);
            lemma_table_best_above(a, b, i + k, a.len() as int);
        }
    }
}

/// The length of the longest run of consecutive characters that `a` and `b`
/// have in common.
pub fn longest_common_substring(a: &str, b: &str) -> (r: usize)
    ensures
        r == longest_common_run(a@, b@),
{
    let av = chars_of(a);
    let bv = chars_of(b);
    let la = av.len();
    let lb = bv.len();
    let mut prev: Vec<usize> = Vec::new();
    while prev.len() < lb
        invariant
            prev.len() <= lb,
            forall|y: int| 0 <= y < prev.len() ==> prev[y] == 0,
        decreases lb - prev.len(),
    {
        prev.push(0);
    }
    proof {
        assert forall|y: int| 0 <= y < lb implies prev[y] == common_suffix_len(
            av@.take(0),
            bv@.take(y + 1),
        ) by {}
    }
    let mut best: usize = 0;
    for i in 0..la
        invariant
            la == av@.len(),
            lb == bv@.len(),
            prev.len() == lb,
            forall|y: int|
                0 <= y < lb ==> prev[y] == common_suffix_len(av@.take(i as int), bv@.take(y + 1)),
            best == table_best(av@, bv@, i as int),
            best <= lb,
    {
        let mut cur: Vec<usize> = Vec::new();
        let mut row: usize = 0;
        for j in 0..lb
            invariant
                la == av@.len(),
                lb == bv@.len(),
                0 <= i < la,
                prev.len() == lb,
                forall|y: int|
                    0 <= y < lb ==> prev[y] == common_suffix_len(
                        av@.take(i as int),
                        bv@.take(y + 1),
                    ),
                cur.len() == j,
                forall|y: int|
                    0 <= y < j ==> cur[y] == common_suffix_len(
                        av@.take(i + 1),
                        bv@.take(y + 1),
                    ),
                row == row_best(av@, bv@, i + 1, j as int),
                row <= j,
        {
            proof {
                lemma_suffix_step(av@, bv@, i as int, j as int);
                lemma_suffix_bounded(av@.take(i + 1), bv@.take(j + 1));
                if j > 0 {
                    lemma_suffix_bounded(av@.take(i as int), bv@.take(j as int));
                }
            }
            let here: usize = if av[i] == bv[j] {
                if j == 0 {
                    1
                } else {
                    prev[j - 1] + 1
                }
            } else {
                0
            };
            cur.push(here);
            if here > row {
                row = here;
            }
        }
        if row > best {
            best = row;
        }
        prev = cur;
    }
    proof {
        assert(av@ == a@);
        assert(bv@ == b@);
    }
    best
}

} // verus!
