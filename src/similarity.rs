use vstd::prelude::*;

use crate::substring::{
    lemma_longest_common_run, longest_common_run, longest_common_substring, shares_run,
};
use crate::text::chars_of;

verus! {

/// The fewest single-character insertions, deletions and substitutions that
/// turn `a` into `b`.
pub open spec fn edit_distance(a: Seq<char>, b: Seq<char>) -> nat
    decreases a.len() + b.len(),
{
    if a.len() == 0 {
        b.len()
    } else if b.len() == 0 {
        a.len()
    } else {
        let replace = edit_distance(a.drop_last(), b.drop_last()) + if a.last() == b.last() {
            0nat
        } else {
            1nat
        };
        let delete = edit_distance(a.drop_last(), b) + 1;
        let insert = edit_distance(a, b.drop_last()) + 1;
        min3(replace, delete, insert)
    }
}

/// The least of three numbers.
pub open spec fn min3(x: nat, y: nat, z: nat) -> nat {
    if x <= y && x <= z {
        x
    } else if y <= z {
        y
    } else {
        z
    }
}

/// The edit distance does not depend on the order of its arguments.
pub proof fn lemma_edit_distance_symmetric(a: Seq<char>, b: Seq<char>)
    ensures
        edit_distance(a, b) == edit_distance(b, a),
    decreases a.len() + b.len(),
{
    if a.len() > 0 && b.len() > 0 {
        lemma_edit_distance_symmetric(a.drop_last(), b.drop_last());
        lemma_edit_distance_symmetric(a.drop_last(), b);
        lemma_edit_distance_symmetric(a, b.drop_last());
    }
}

/// Between an empty and any other string, the distance is the other's length.
pub proof fn lemma_edit_distance_to_empty(a: Seq<char>)
    ensures
        edit_distance(a, Seq::empty()) == a.len(),
        edit_distance(Seq::empty(), a) == a.len(),
{
}

/// A string is at distance zero from itself.
pub proof fn lemma_edit_distance_self(a: Seq<char>)
    ensures
        edit_distance(a, a) == 0,
    decreases a.len(),
{
    if a.len() > 0 {
        lemma_edit_distance_self(a.drop_last());
    }
}

/// Two strings are at distance zero exactly when they are equal.
pub proof fn lemma_edit_distance_zero(a: Seq<char>, b: Seq<char>)
    ensures
        edit_distance(a, b) == 0 <==> a == b,
    decreases a.len() + b.len(),
{
    lemma_edit_distance_self(a);
    if a.len() == 0 || b.len() == 0 {
        if a.len() != b.len() {
            assert(a != b);
        }
        if a.len() == 0 && b.len() == 0 {
            assert(a =~= b);
        }
    } else if edit_distance(a, b) == 0 {
        let replace = edit_distance(a.drop_last(), b.drop_last()) + if a.last() == b.last() {
            0nat
        } else {
            1nat
        };
        assert(replace == 0);
        lemma_edit_distance_zero(a.drop_last(), b.drop_last());
        assert(a =~= a.drop_last().push(a.last()));
        assert(b =~= b.drop_last().push(b.last()));
    }
}

/// Relies on stringmetrics::levenshtein_limit_iter: with unit costs and a
/// limit that the distance cannot reach, it returns the exact edit distance
/// of the two character sequences.
#[verifier::external_body]
fn levenshtein_of_chars(a: &str, b: &str) -> (r: u32)
    requires
        a@.len() < u32::MAX,
        b@.len() < u32::MAX,
    ensures
        r == edit_distance(a@, b@),
{
    stringmetrics::levenshtein_limit_iter(a.chars(), b.chars(), u32::MAX)
}

/// The Levenshtein distance between `a` and `b`, counted in characters.
pub fn levenshtein(a: &str, b: &str) -> (r: u32)
    requires
        a@.len() < u32::MAX,
        b@.len() < u32::MAX,
    ensures
        r == edit_distance(a@, b@),
{
    levenshtein_of_chars(a, b)
}

/// `levenshtein` above this many edits keeps a pair.
pub const LEVENSHTEIN_LIMIT: u32 = 5;

/// The scores of one pair of names, in mathematical terms.
pub ghost struct PairScore {
    pub a: Seq<char>,
    pub b: Seq<char>,
    pub levenshtein: nat,
    pub longest_common_substring: nat,
    /// The coverage ratio is `similarity_numerator / similarity_denominator`.
    pub similarity_numerator: nat,
    pub similarity_denominator: nat,
}

/// Coverage of the longest common run: `2 * run / (len(a) + len(b))`,
/// and `1 / 1` when both strings are empty.
pub open spec fn coverage(a: Seq<char>, b: Seq<char>) -> (nat, nat) {
    if a.len() + b.len() == 0 {
        (1, 1)
    } else {
        (2 * longest_common_run(a, b), (a.len() + b.len()) as nat)
    }
}

/// The scores that `Similarity::calculate` gives to the pair `(a, b)`.
pub open spec fn score(a: Seq<char>, b: Seq<char>) -> PairScore {
    PairScore {
        a,
        b,
        levenshtein: edit_distance(a, b),
        longest_common_substring: longest_common_run(a, b),
        similarity_numerator: coverage(a, b).0,
        similarity_denominator: coverage(a, b).1,
    }
}

/// A pair is kept when its names are far apart by edit distance, or when
/// their longest common run covers at least half of them.
pub open spec fn retained(s: PairScore) -> bool {
    s.levenshtein > LEVENSHTEIN_LIMIT || 2 * s.similarity_numerator >= s.similarity_denominator
}

/// A scored pair of names.
pub struct Similarity {
    pub a: String,
    pub b: String,
    pub levenshtein: u32,
    pub longest_common_substring: u32,
    pub similarity_numerator: u64,
    pub similarity_denominator: u64,
}

impl View for Similarity {
    type V = PairScore;

    open spec fn view(&self) -> PairScore {
        PairScore {
            a: self.a@,
            b: self.b@,
            levenshtein: self.levenshtein as nat,
            longest_common_substring: self.longest_common_substring as nat,
            similarity_numerator: self.similarity_numerator as nat,
            similarity_denominator: self.similarity_denominator as nat,
        }
    }
}

/// The bounds on the longest common run and on its coverage.
pub proof fn lemma_coverage_bounds(a: Seq<char>, b: Seq<char>)
    ensures
        longest_common_run(a, b) <= a.len(),
        longest_common_run(a, b) <= b.len(),
        coverage(a, b).1 > 0,
        coverage(a, b).0 <= coverage(a, b).1,
        longest_common_run(a, a) == a.len(),
        coverage(a, a).0 == coverage(a, a).1,
{
    lemma_longest_common_run(a, b);
    lemma_longest_common_run(a, a);
    lemma_shared_run_fits(a, b, longest_common_run(a, b));
    lemma_shared_run_fits(a, a, longest_common_run(a, a));
    let z: int = 0;
    assert(a.subrange(z, z + a.len()) =~= a.subrange(z, z + a.len()));
    assert(shares_run(a, a, a.len()));
}

proof fn lemma_shared_run_fits(a: Seq<char>, b: Seq<char>, k: nat)
    requires
        shares_run(a, b, k),
    ensures
        k <= a.len(),
        k <= b.len(),
{
    let (i, j) = choose|i: int, j: int|
        0 <= i && i + k <= a.len() && 0 <= j && j + k <= b.len() && #[trigger] a.subrange(i, i + k)
            == #[trigger] b.subrange(j, j + k);
}

/// Scoring a pair is a function of the pair: two scorings of it agree.
pub proof fn lemma_scoring_deterministic(a: Seq<char>, b: Seq<char>, s: PairScore, t: PairScore)
    requires
        s == score(a, b),
        t == score(a, b),
    ensures
        s == t,
{
}

impl Similarity {
    /// Scores the pair `(a, b)`.
    pub fn calculate(a: String, b: String) -> (r: Similarity)
        requires
            a@.len() < u32::MAX,
            b@.len() < u32::MAX,
        ensures
            r@ == score(a@, b@),
    {
        let levenshtein = levenshtein(a.as_str(), b.as_str());
        let run = longest_common_substring(a.as_str(), b.as_str());
        proof {
            lemma_coverage_bounds(a@, b@);
        }
        let la = chars_of(a.as_str()).len() as u64;
        let lb = chars_of(b.as_str()).len() as u64;
        let (similarity_numerator, similarity_denominator) = if la + lb == 0 {
            (1u64, 1u64)
        } else {
            (2 * run as u64, la + lb)
        };
        Similarity {
            a,
            b,
            levenshtein,
            longest_common_substring: run as u32,
            similarity_numerator,
            similarity_denominator,
        }
    }

    /// Whether the pair is kept by the retention rule.
    pub fn similar_enough_to_warrant_storing(&self) -> (r: bool)
        ensures
            r == retained(self@),
    {
        self.levenshtein > LEVENSHTEIN_LIMIT || (self.similarity_numerator as u128) * 2
            >= self.similarity_denominator as u128
    }
}

} // verus!
