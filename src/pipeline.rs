use vstd::prelude::*;

use vstd::arithmetic::div_mod::{
    lemma_fundamental_div_mod, lemma_fundamental_div_mod_converse, lemma_mod_pos_bound,
};

use crate::cursor::{all_pairs, pair_at, pairs_view, CursorError, NameCursor, PairView};
use crate::order::{lemma_name_lt_irreflexive, name_lt, names_view, strictly_ascending};
use crate::progress::{
    counted, counted_all, fresh_statistics, SimilarityStatistics, StatusLine,
};
use crate::similarity::{retained, score, PairScore, Similarity};
use crate::store::{lemma_upserted_all_idempotent, upserted_all, SimilarityStore};

verus! {

/// The scores of `pairs` that the retention rule keeps, in order.
pub open spec fn kept_scores(pairs: Seq<PairView>) -> Seq<PairScore>
    decreases pairs.len(),
{
    if pairs.len() == 0 {
        Seq::empty()
    } else {
        let p = pairs.last();
        let rest = kept_scores(pairs.drop_last());
        if retained(score(p.0, p.1)) {
            rest.push(score(p.0, p.1))
        } else {
            rest
        }
    }
}

/// The views of a vector of scored pairs.
pub open spec fn scores_view(v: Seq<Similarity>) -> Seq<PairScore> {
    v.map_values(|s: Similarity| s@)
}

/// Every name is short enough to be scored.
pub open spec fn scorable(names: Seq<Seq<char>>) -> bool {
    forall|i: int| 0 <= i < names.len() ==> #[trigger] names[i].len() < u32::MAX
}

/// Both names of every pair are short enough to be scored.
pub open spec fn scorable_pairs(pairs: Seq<PairView>) -> bool {
    forall|i: int|
        0 <= i < pairs.len() ==> (#[trigger] pairs[i]).0.len() < u32::MAX && pairs[i].1.len()
            < u32::MAX
}

/// What became of one pair.
pub struct PairOutcome {
    pub similarity: Similarity,
    pub keep: bool,
    pub status_line: Option<StatusLine>,
}

/// Scores the pair `(a, b)`, decides whether to keep it and counts it.
pub fn score_pair(a: String, b: String, stats: &mut SimilarityStatistics) -> (r: PairOutcome)
    requires
        a@.len() < u32::MAX,
        b@.len() < u32::MAX,
        old(stats).well_formed(),
        old(stats)@.total_pair_count < u64::MAX,
    ensures
        r.similarity@ == score(a@, b@),
        r.keep == retained(score(a@, b@)),
        final(stats).well_formed(),
        final(stats)@ == counted(old(stats)@, a@, r.keep),
        r.status_line is Some <==> final(stats)@.name_count == old(stats)@.name_count + 1,
        r.status_line is None <==> final(stats)@.name_count == old(stats)@.name_count,
{
    let similarity = Similarity::calculate(a, b);
    let keep = similarity.similar_enough_to_warrant_storing();
    let status_line = stats.update_and_maybe_print(similarity.a.as_str(), keep);
    PairOutcome { similarity, keep, status_line }
}

/// The pairs of one batch that are to be stored, and the status lines that
/// came due while counting them.
pub struct BatchOutcome {
    pub kept: Vec<Similarity>,
    pub status_lines: Vec<StatusLine>,
}

/// Scores, filters and counts a batch of pairs, in order.
pub fn process_batch(pairs: Vec<(String, String)>, stats: &mut SimilarityStatistics) -> (r:
    BatchOutcome)
    requires
        scorable_pairs(pairs_view(pairs@)),
        old(stats).well_formed(),
        old(stats)@.total_pair_count + pairs.len() <= u64::MAX,
    ensures
        final(stats).well_formed(),
        final(stats)@ == counted_all(old(stats)@, pairs_view(pairs@)),
        scores_view(r.kept@) == kept_scores(pairs_view(pairs@)),
        r.status_lines.len() == final(stats)@.name_count - old(stats)@.name_count,
{
    let ghost pv = pairs_view(pairs@);
    let mut kept: Vec<Similarity> = Vec::new();
    let mut status_lines: Vec<StatusLine> = Vec::new();
    for i in 0..pairs.len()
        invariant
            pv == pairs_view(pairs@),
            scorable_pairs(pv),
            stats.well_formed(),
            old(stats)@.total_pair_count + pairs.len() <= u64::MAX,
            stats@ == counted_all(old(stats)@, pv.take(i as int)),
            stats@.total_pair_count == old(stats)@.total_pair_count + i,
            stats@.name_count >= old(stats)@.name_count,
            scores_view(kept@) == kept_scores(pv.take(i as int)),
            status_lines.len() == stats@.name_count - old(stats)@.name_count,
    {
        assert(pv.take(i + 1).drop_last() =~= pv.take(i as int));
        assert(pv[i as int] == (pairs[i as int].0@, pairs[i as int].1@));
        let outcome = score_pair(pairs[i].0.clone(), pairs[i].1.clone(), stats);
        if outcome.keep {
            kept.push(outcome.similarity);
        }
        if let Some(line) = outcome.status_line {
            status_lines.push(line);
        }
        assert(scores_view(kept@) =~= kept_scores(pv.take(i + 1)));
    }
    assert(pv.take(pairs.len() as int) =~= pv);
    BatchOutcome { kept, status_lines }
}

/// What a complete run reports.
pub struct PipelineReport {
    pub statistics: SimilarityStatistics,
    pub status_lines: Vec<StatusLine>,
}

/// Runs the whole traversal of `names` into `store`: every ordered pair is
/// scored, counted, and upserted when the retention rule keeps it. Fails,
/// leaving the store as it was, when the names are not strictly ascending.
pub fn run_pipeline(names: Vec<String>, store: &mut SimilarityStore) -> (r: Result<
    PipelineReport,
    CursorError,
>)
    requires
        old(store).well_formed(),
        names.len() <= u32::MAX,
        scorable(names_view(names@)),
    ensures
        final(store).well_formed(),
        r is Err <==> !strictly_ascending(names_view(names@)),
        r is Err ==> final(store)@ == old(store)@,
        r matches Ok(report) ==> {
            &&& final(store)@ == upserted_all(
                old(store)@,
                kept_scores(all_pairs(names_view(names@))),
            )
            &&& report.statistics.well_formed()
            &&& report.statistics@ == counted_all(
                fresh_statistics(),
                all_pairs(names_view(names@)),
            )
            &&& report.status_lines.len() == report.statistics@.name_count
        },
{
    let ghost nv = names_view(names@);
    let ghost all = all_pairs(nv);
    let ghost total = nv.len() * nv.len();
    let ghost start = old(store)@;
    let mut cursor = match NameCursor::new(names) {
        Ok(c) => c,
        Err(e) => {
            return Err(e);
        },
    };
    let mut stats = SimilarityStatistics::new();
    let mut status_lines: Vec<StatusLine> = Vec::new();
    proof {
        assert(all.take(0) =~= Seq::<PairView>::empty());
        assert(nv.len() * nv.len() <= u32::MAX * u32::MAX) by (nonlinear_arith)
            requires
                nv.len() <= u32::MAX,
        ;
    }
    while !cursor.is_finished()
        invariant
            cursor.well_formed(),
            cursor@.names == nv,
            all == all_pairs(nv),
            total == nv.len() * nv.len(),
            total <= u32::MAX * u32::MAX,
            scorable(nv),
            store.well_formed(),
            store@ == upserted_all(start, kept_scores(all.take(cursor@.position as int))),
            stats.well_formed(),
            stats@ == counted_all(fresh_statistics(), all.take(cursor@.position as int)),
            stats@.total_pair_count == cursor@.position,
            status_lines.len() == stats@.name_count,
        decreases total - cursor@.position + if cursor@.finished {
            0int
        } else {
            1int
        },
    {
        proof {
            cursor.lemma_well_formed();
        }
        let ghost p0 = cursor@.position as int;
        let batch = cursor.fetch_next_batch();
        proof {
            cursor.lemma_well_formed();
        }
        let ghost bv = pairs_view(batch@);
        assert(bv.len() == batch.len());
        assert(all.len() == total);
        for j in 0..batch.len()
            invariant
                bv == pairs_view(batch@),
                bv == all.subrange(p0, cursor@.position as int),
                batch.len() == cursor@.position - p0,
                all.len() == total,
                0 <= p0 <= cursor@.position <= total,
                all == all_pairs(nv),
                total == nv.len() * nv.len(),
                total <= u32::MAX * u32::MAX,
                scorable(nv),
                store.well_formed(),
                store@ == upserted_all(start, kept_scores(all.take(p0 + j))),
                stats.well_formed(),
                stats@ == counted_all(fresh_statistics(), all.take(p0 + j)),
                stats@.total_pair_count == p0 + j,
                status_lines.len() == stats@.name_count,
        {
            let ghost p = p0 + j;
            proof {
                assert(all.take(p + 1).drop_last() =~= all.take(p));
                assert(all[p] == bv[j as int]);
                assert(bv[j as int] == (batch[j as int].0@, batch[j as int].1@));
                lemma_fundamental_div_mod(p, nv.len() as int);
                lemma_mod_pos_bound(p, nv.len() as int);
                assert(p / (nv.len() as int) < nv.len()) by (nonlinear_arith)
                    requires
                        p == nv.len() * (p / (nv.len() as int)) + p % (nv.len() as int),
                        0 <= p % (nv.len() as int),
                        p < nv.len() * nv.len(),
                ;
                assert(all[p] == pair_at(nv, p));
            }
            let outcome = score_pair(batch[j].0.clone(), batch[j].1.clone(), &mut stats);
            let ghost before = kept_scores(all.take(p));
            if outcome.keep {
                store.upsert_edge(outcome.similarity);
                assert(before.push(score(all[p].0, all[p].1)).drop_last() =~= before);
            }
            if let Some(line) = outcome.status_line {
                status_lines.push(line);
            }
        }
    }
    proof {
        cursor.lemma_well_formed();
        assert(all.take(total as int) =~= all);
    }
    Ok(PipelineReport { statistics: stats, status_lines })
}

/// Running the whole traversal a second time over the same names leaves
/// the stored edges as the first run left them.
pub proof fn lemma_pipeline_idempotent(m: Map<PairView, PairScore>, names: Seq<Seq<char>>)
    ensures
        upserted_all(upserted_all(m, kept_scores(all_pairs(names))), kept_scores(all_pairs(names)))
            == upserted_all(m, kept_scores(all_pairs(names))),
{
    lemma_upserted_all_idempotent(m, kept_scores(all_pairs(names)));
}

proof fn lemma_row_of(k: int, p: int)
    requires
        0 <= k,
        0 <= p < k * k,
    ensures
        0 <= p / k < k,
        p > 0 ==> (p - 1) / k <= p / k <= (p - 1) / k + 1,
{
    assert(k > 0) by (nonlinear_arith)
        requires
            0 <= p < k * k,
            0 <= k,
    ;
    lemma_fundamental_div_mod(p, k);
    lemma_mod_pos_bound(p, k);
    assert(0 <= p / k < k) by (nonlinear_arith)
        requires
            p == k * (p / k) + p % k,
            0 <= p % k < k,
            0 <= p < k * k,
    ;
    if p > 0 {
        lemma_fundamental_div_mod(p - 1, k);
        lemma_mod_pos_bound(p - 1, k);
        assert((p - 1) / k <= p / k <= (p - 1) / k + 1) by (nonlinear_arith)
            requires
                p == k * (p / k) + p % k,
                p - 1 == k * ((p - 1) / k) + (p - 1) % k,
                0 <= p % k < k,
                0 <= (p - 1) % k < k,
        ;
    }
}

proof fn lemma_counted_prefix(names: Seq<Seq<char>>, p: int)
    requires
        strictly_ascending(names),
        0 <= p <= names.len() * names.len(),
    ensures
        p == 0 ==> counted_all(fresh_statistics(), all_pairs(names).take(p)).name_count == 0
            && counted_all(fresh_statistics(), all_pairs(names).take(p)).last_name_seen is None,
        p > 0 ==> counted_all(fresh_statistics(), all_pairs(names).take(p)).name_count == (p - 1)
            / (names.len() as int) + 1 && counted_all(
            fresh_statistics(),
            all_pairs(names).take(p),
        ).last_name_seen == Some(names[(p - 1) / (names.len() as int)]),
    decreases p,
{
    let all = all_pairs(names);
    let k = names.len() as int;
    if p == 0 {
        assert(all.take(0) =~= Seq::<PairView>::empty());
    } else {
        lemma_counted_prefix(names, p - 1);
        assert(all.take(p).drop_last() =~= all.take(p - 1));
        lemma_row_of(k, p - 1);
        assert(all.take(p).last() == pair_at(names, p - 1));
        if p - 1 > 0 {
            let q1 = (p - 2) / k;
            let q2 = (p - 1) / k;
            if q1 != q2 {
                lemma_name_lt_irreflexive(names[q1]);
                assert(name_lt(names[q1], names[q2]));
            }
        }
    }
}

/// Over a strictly ascending set of names, the counters of a whole
/// traversal meet each name once as a first name: one status line per name.
pub proof fn lemma_one_status_line_per_name(names: Seq<Seq<char>>)
    requires
        strictly_ascending(names),
    ensures
        counted_all(fresh_statistics(), all_pairs(names)).name_count == names.len(),
        counted_all(fresh_statistics(), all_pairs(names)).total_pair_count == names.len()
            * names.len(),
{
    let all = all_pairs(names);
    let k = names.len() as int;
    lemma_counted_total(all);
    lemma_counted_prefix(names, k * k);
    assert(all.take(k * k) =~= all);
    if k > 0 {
        assert(k * k - 1 == (k - 1) * k + (k - 1)) by (nonlinear_arith);
        assert(k * k > 0) by (nonlinear_arith)
            requires
                k > 0,
        ;
        lemma_fundamental_div_mod_converse(k * k - 1, k, k - 1, k - 1);
    } else {
        assert(k * k == 0);
    }
}

proof fn lemma_counted_total(pairs: Seq<PairView>)
    ensures
        counted_all(fresh_statistics(), pairs).total_pair_count == pairs.len(),
    decreases pairs.len(),
{
    if pairs.len() > 0 {
        lemma_counted_total(pairs.drop_last());
    }
}

} // verus!
