use vstd::prelude::*;

use crate::cursor::PairView;
use crate::similarity::{retained, score};

verus! {

/// The counters of a traversal, in mathematical terms.
pub ghost struct StatisticsView {
    pub last_name_seen: Option<Seq<char>>,
    pub total_pair_count: nat,
    pub stored_count: nat,
    pub name_count: nat,
}

/// The counters at the start of a traversal.
pub open spec fn fresh_statistics() -> StatisticsView {
    StatisticsView { last_name_seen: None, total_pair_count: 0, stored_count: 0, name_count: 0 }
}

/// The counters after one more pair whose first name is `a`.
pub open spec fn counted(s: StatisticsView, a: Seq<char>, stored: bool) -> StatisticsView {
    StatisticsView {
        last_name_seen: Some(a),
        total_pair_count: s.total_pair_count + 1,
        stored_count: s.stored_count + if stored {
            1nat
        } else {
            0nat
        },
        name_count: s.name_count + if s.last_name_seen == Some(a) {
            0nat
        } else {
            1nat
        },
    }
}

/// The counters after the pairs `pairs`, each scored and kept or not by the
/// retention rule.
pub open spec fn counted_all(s: StatisticsView, pairs: Seq<PairView>) -> StatisticsView
    decreases pairs.len(),
{
    if pairs.len() == 0 {
        s
    } else {
        let p = pairs.last();
        counted(counted_all(s, pairs.drop_last()), p.0, retained(score(p.0, p.1)))
    }
}

/// Counting two runs of pairs one after the other is counting their concatenation.
pub proof fn lemma_counted_all_concat(s: StatisticsView, x: Seq<PairView>, y: Seq<PairView>)
    ensures
        counted_all(s, x + y) == counted_all(counted_all(s, x), y),
    decreases y.len(),
{
    if y.len() == 0 {
        assert(x + y =~= x);
    } else {
        lemma_counted_all_concat(s, x, y.drop_last());
        assert((x + y).drop_last() =~= x + y.drop_last());
    }
}

/// What is reported when the first name of the pairs changes.
pub struct StatusLine {
    pub total_pair_count: u64,
    pub name_count: u64,
    pub stored_count: u64,
    pub name: String,
}

/// Counts the pairs seen, the pairs kept and the distinct first names met,
/// and tells when a status line is due.
pub struct SimilarityStatistics {
    last_name_seen: Option<String>,
    total_pair_count: u64,
    stored_count: u64,
    name_count: u64,
}

impl View for SimilarityStatistics {
    type V = StatisticsView;

    closed spec fn view(&self) -> StatisticsView {
        StatisticsView {
            last_name_seen: match self.last_name_seen {
                Some(n) => Some(n@),
                None => None,
            },
            total_pair_count: self.total_pair_count as nat,
            stored_count: self.stored_count as nat,
            name_count: self.name_count as nat,
        }
    }
}

impl SimilarityStatistics {
    pub closed spec fn well_formed(&self) -> bool {
        &&& self.stored_count <= self.total_pair_count
        &&& self.name_count <= self.total_pair_count
    }

    /// What holds of every well-formed set of counters.
    pub proof fn lemma_well_formed(&self)
        requires
            self.well_formed(),
        ensures
            self@.stored_count <= self@.total_pair_count,
            self@.name_count <= self@.total_pair_count,
    {
    }

    /// Counters at zero, with no name seen.
    pub fn new() -> (r: SimilarityStatistics)
        ensures
            r.well_formed(),
            r@ == fresh_statistics(),
    {
        SimilarityStatistics { last_name_seen: None, total_pair_count: 0, stored_count: 0, name_count: 0 }
    }

    pub fn total_pair_count(&self) -> (r: u64)
        ensures
            r == self@.total_pair_count,
    {
        self.total_pair_count
    }

    pub fn stored_count(&self) -> (r: u64)
        ensures
            r == self@.stored_count,
    {
        self.stored_count
    }

    pub fn name_count(&self) -> (r: u64)
        ensures
            r == self@.name_count,
    {
        self.name_count
    }

    /// Counts one pair whose first name is `name`. When `name` differs from
    /// the first name of the previous pair, returns the status line to print,
    /// which carries the updated counters.
    pub fn update_and_maybe_print(&mut self, name: &str, will_be_stored: bool) -> (r: Option<
        StatusLine,
    >)
        requires
            old(self).well_formed(),
            old(self)@.total_pair_count < u64::MAX,
        ensures
            final(self).well_formed(),
            final(self)@ == counted(old(self)@, name@, will_be_stored),
            r is Some <==> old(self)@.last_name_seen != Some(name@),
            r matches Some(line) ==> line.name@ == name@ && line.total_pair_count
                == final(self)@.total_pair_count && line.name_count == final(self)@.name_count
                && line.stored_count == final(self)@.stored_count,
    {
        self.total_pair_count = self.total_pair_count + 1;
        if will_be_stored {
            self.stored_count = self.stored_count + 1;
        }
        let owned = name.to_owned();
        let same = match &self.last_name_seen {
            Some(last) => *last == owned,
            None => false,
        };
        if same {
            None
        } else {
            self.name_count = self.name_count + 1;
            self.last_name_seen = Some(owned.clone());
            Some(
                StatusLine {
                    total_pair_count: self.total_pair_count,
                    name_count: self.name_count,
                    stored_count: self.stored_count,
                    name: owned,
                },
            )
        }
    }
}

impl Default for SimilarityStatistics {
    fn default() -> (r: SimilarityStatistics)
        ensures
            r.well_formed(),
            r@ == fresh_statistics(),
    {
        SimilarityStatistics::new()
    }
}

/// A span of whole seconds, shown as hours, minutes and seconds.
#[derive(PartialEq, Eq, Structural, Debug, Clone, Copy)]
pub struct PrettyPrintedDuration {
    pub total_seconds: u64,
}

impl PrettyPrintedDuration {
    pub fn from_secs(total_seconds: u64) -> (r: PrettyPrintedDuration)
        ensures
            r.total_seconds == total_seconds,
    {
        PrettyPrintedDuration { total_seconds }
    }

    /// Whole hours.
    pub fn hours(&self) -> (r: u64)
        ensures
            r == self.total_seconds / 3600,
    {
        self.total_seconds / 3600
    }

    /// Whole minutes past the hours.
    pub fn minutes(&self) -> (r: u64)
        ensures
            r == (self.total_seconds % 3600) / 60,
            r < 60,
    {
        (self.total_seconds % 3600) / 60
    }

    /// Seconds past the minutes.
    pub fn seconds(&self) -> (r: u64)
        ensures
            r == self.total_seconds % 60,
            r < 60,
    {
        self.total_seconds % 60
    }
}

} // verus!
