use vstd::prelude::*;
use vstd::string::StringExecFns;
use crate::aggregator::{name_index, ChatPerformance};
use crate::types::{MetadataTypes, MetadataView, PerformanceType};

verus! {

/// What a leaderboard keeps of one participant across runs.
#[derive(Debug)]
pub struct LeaderboardInnerState {
    pub id: String,
    pub username: String,
    pub avatar: String,
    /// Total score over all runs, in hundredths of a point.
    pub score: u128,
}

impl LeaderboardInnerState {
    pub open spec fn view(&self) -> (Seq<char>, Seq<char>, Seq<char>, int) {
        (self.id@, self.username@, self.avatar@, self.score as int)
    }

    pub fn duplicate(&self) -> (r: LeaderboardInnerState)
        ensures
            r@ == self@,
    {
        LeaderboardInnerState {
            id: self.id.clone(),
            username: self.username.clone(),
            avatar: self.avatar.clone(),
            score: self.score,
        }
    }
}

/// Why a leaderboard could not take a state or a record.
#[derive(PartialEq, Eq, Structural, Debug, Clone, Copy)]
pub enum LeaderboardError {
    /// The loaded state holds two entries for one participant.
    DuplicateParticipant,
    /// A total score would not fit in 128 bits.
    ScoreOverflow,
}

pub open spec fn states_view(s: Seq<LeaderboardInnerState>) -> Seq<(Seq<char>, Seq<char>, Seq<char>, int)> {
    s.map_values(|e: LeaderboardInnerState| e@)
}

pub open spec fn ids_unique(s: Seq<LeaderboardInnerState>) -> bool {
    forall|a: int, b: int|
        0 <= a < s.len() && 0 <= b < s.len() && a != b ==> (#[trigger] s[a]).id@ != (#[trigger] s[b]).id@
}

pub open spec fn has_participant(s: Seq<LeaderboardInnerState>, id: Seq<char>) -> bool {
    exists|k: int| 0 <= k < s.len() && (#[trigger] s[k]).id@ == id
}

/// What merging `perf` with `score` into the entries `before` leaves: nothing
/// changes without a score; a known participant's total grows by the score
/// (unless it would overflow, which fails and changes nothing) and its name and
/// avatar are refreshed; a new participant is appended with the score.
pub open spec fn merged(
    before: Seq<LeaderboardInnerState>,
    after: Seq<LeaderboardInnerState>,
    perf: ChatPerformance,
    score: Option<u128>,
    r: Result<(), LeaderboardError>,
) -> bool {
    &&& score is None ==> r is Ok && after == before
    &&& score is Some && has_participant(before, perf.id@) ==> exists|k: int|
        0 <= k < before.len() && (#[trigger] before[k]).id@ == perf.id@ && (if before[k].score
            + score->0 > u128::MAX {
            r == Err::<(), LeaderboardError>(LeaderboardError::ScoreOverflow) && after == before
        } else {
            r is Ok && states_view(after) == states_view(before).update(
                k,
                (perf.id@, perf.username@, perf.avatar@, before[k].score + score->0),
            )
        })
    &&& score is Some && !has_participant(before, perf.id@) ==> r is Ok && states_view(after)
        == states_view(before).push((perf.id@, perf.username@, perf.avatar@, score->0 as int))
}

/// How many entries of `s` have a total above `v`.
pub open spec fn count_above(s: Seq<LeaderboardInnerState>, v: u128) -> nat
    decreases s.len(),
{
    if s.len() == 0 {
        0
    } else {
        count_above(s.drop_last(), v) + (if s.last().score > v {
            1nat
        } else {
            0nat
        })
    }
}

/// An entry never counts itself, so fewer entries than there are rank above it.
pub proof fn lemma_count_above_excludes(s: Seq<LeaderboardInnerState>, k: int)
    requires
        0 <= k < s.len(),
    ensures
        count_above(s, s[k].score) < s.len(),
    decreases s.len(),
{
    lemma_count_above_le(s.drop_last(), s[k].score);
    if k < s.len() - 1 {
        lemma_count_above_excludes(s.drop_last(), k);
        assert(s.drop_last()[k] == s[k]);
    }
}

pub proof fn lemma_count_above_le(s: Seq<LeaderboardInnerState>, v: u128)
    ensures
        count_above(s, v) <= s.len(),
    decreases s.len(),
{
    if s.len() > 0 {
        lemma_count_above_le(s.drop_last(), v);
    }
}

/// The persistent ranking state of one leaderboard: one entry per participant.
pub struct LeaderboardState {
    pub entries: Vec<LeaderboardInnerState>,
}

impl LeaderboardState {
    pub open spec fn wf(&self) -> bool {
        ids_unique(self.entries@)
    }

    /// A state in which every participant starts from nothing.
    pub fn new() -> (r: LeaderboardState)
        ensures
            r.wf(),
            r.entries@.len() == 0,
    {
        LeaderboardState { entries: Vec::new() }
    }

    /// The state that was saved earlier; refused where it names a participant twice.
    pub fn from_entries(entries: Vec<LeaderboardInnerState>) -> (r: Result<
        LeaderboardState,
        LeaderboardError,
    >)
        ensures
            r is Ok <==> ids_unique(entries@),
            r is Ok ==> r->Ok_0.entries@ == entries@,
            r is Err ==> r->Err_0 == LeaderboardError::DuplicateParticipant,
    {
        let mut a: usize = 0;
        while a < entries.len()
            invariant
                a <= entries@.len(),
                forall|x: int, y: int|
                    0 <= x < a && 0 <= y < entries@.len() && x != y ==> (#[trigger] entries@[x]).id@
                        != (#[trigger] entries@[y]).id@,
            decreases entries@.len() - a,
        {
            let mut b: usize = 0;
            while b < entries.len()
                invariant
                    a < entries@.len(),
                    b <= entries@.len(),
                    forall|y: int| 0 <= y < b && y != a ==> entries@[a as int].id@ != (#[trigger] entries@[y]).id@,
                decreases entries@.len() - b,
            {
                if b != a && entries[a].id == entries[b].id {
                    return Err(LeaderboardError::DuplicateParticipant);
                }
                b += 1;
            }
            a += 1;
        }
        Ok(LeaderboardState { entries })
    }

    /// Position of the entry of participant `id`.
    pub fn find(&self, id: &String) -> (r: Option<usize>)
        ensures
            match r {
                Some(k) => k < self.entries@.len() && self.entries@[k as int].id@ == id@,
                None => !has_participant(self.entries@, id@),
            },
    {
        let mut k: usize = 0;
        while k < self.entries.len()
            invariant
                k <= self.entries@.len(),
                forall|j: int| 0 <= j < k ==> (#[trigger] self.entries@[j]).id@ != id@,
            decreases self.entries@.len() - k,
        {
            if self.entries[k].id == *id {
                return Some(k);
            }
            k += 1;
        }
        None
    }

    /// Adds `score` to the total of the record's participant and refreshes its
    /// name and avatar; a participant seen for the first time starts at `score`.
    /// With no score (the record is excluded) the state is left as it was.
    pub fn merge(&mut self, perf: &ChatPerformance, score: Option<u128>) -> (r: Result<
        (),
        LeaderboardError,
    >)
        requires
            old(self).wf(),
        ensures
            final(self).wf(),
            merged(old(self).entries@, final(self).entries@, *perf, score, r),
    {
        match score {
            None => Ok(()),
            Some(s) => {
                match self.find(&perf.id) {
                    Some(k) => {
                        match self.entries[k].score.checked_add(s) {
                            None => Err(LeaderboardError::ScoreOverflow),
                            Some(total) => {
                                let ghost e0 = self.entries@;
                                self.entries[k].score = total;
                                self.entries[k].username = perf.username.clone();
                                self.entries[k].avatar = perf.avatar.clone();
                                assert(states_view(self.entries@) =~= states_view(e0).update(
                                    k as int,
                                    (perf.id@, perf.username@, perf.avatar@, e0[k as int].score + s),
                                ));
                                assert forall|a: int, b: int|
                                    0 <= a < self.entries@.len() && 0 <= b < self.entries@.len() && a
                                        != b implies (#[trigger] self.entries@[a]).id@
                                        != (#[trigger] self.entries@[b]).id@ by {
                                    assert(self.entries@[a].id == e0[a].id);
                                    assert(self.entries@[b].id == e0[b].id);
                                }
                                Ok(())
                            },
                        }
                    },
                    None => {
                        let ghost e0 = self.entries@;
                        self.entries.push(
                            LeaderboardInnerState {
                                id: perf.id.clone(),
                                username: perf.username.clone(),
                                avatar: perf.avatar.clone(),
                                score: s,
                            },
                        );
                        assert(states_view(self.entries@) =~= states_view(e0).push(
                            (perf.id@, perf.username@, perf.avatar@, s as int),
                        ));
                        assert forall|a: int, b: int|
                            0 <= a < self.entries@.len() && 0 <= b < self.entries@.len() && a != b implies (
                            #[trigger] self.entries@[a]).id@ != (#[trigger] self.entries@[b]).id@ by {
                            if a < e0.len() {
                                assert(self.entries@[a] == e0[a]);
                            }
                            if b < e0.len() {
                                assert(self.entries@[b] == e0[b]);
                            }
                        }
                        Ok(())
                    },
                }
            },
        }
    }

    /// The rank of each entry: one more than the number of entries with a
    /// strictly higher total, so that equal totals share a rank.
    pub fn ranks(&self) -> (r: Vec<usize>)
        ensures
            r@.len() == self.entries@.len(),
            forall|k: int|
                0 <= k < r@.len() ==> (#[trigger] r@[k]) == 1 + count_above(
                    self.entries@,
                    self.entries@[k].score,
                ),
    {
        let n = self.entries.len();
        let mut r: Vec<usize> = Vec::new();
        let mut k: usize = 0;
        while k < n
            invariant
                n == self.entries@.len(),
                k <= n,
                r@.len() == k,
                forall|j: int|
                    0 <= j < k ==> (#[trigger] r@[j]) == 1 + count_above(
                        self.entries@,
                        self.entries@[j].score,
                    ),
            decreases n - k,
        {
            let v = self.entries[k].score;
            let mut above: usize = 0;
            let mut j: usize = 0;
            while j < n
                invariant
                    n == self.entries@.len(),
                    k < n,
                    j <= n,
                    v == self.entries@[k as int].score,
                    above == count_above(self.entries@.take(j as int), v),
                    above <= j,
                decreases n - j,
            {
                assert(self.entries@.take(j + 1).drop_last() =~= self.entries@.take(j as int));
                if self.entries[j].score > v {
                    above += 1;
                }
                j += 1;
            }
            assert(self.entries@.take(n as int) =~= self.entries@);
            proof {
                lemma_count_above_excludes(self.entries@, k as int);
            }
            r.push(above + 1);
            k += 1;
        }
        r
    }

    /// A copy of every entry, as it is to be persisted.
    pub fn snapshot(&self) -> (r: Vec<LeaderboardInnerState>)
        ensures
            states_view(r@) == states_view(self.entries@),
    {
        let mut r: Vec<LeaderboardInnerState> = Vec::new();
        let mut i: usize = 0;
        while i < self.entries.len()
            invariant
                i <= self.entries@.len(),
                r@.len() == i,
                forall|j: int| 0 <= j < i ==> (#[trigger] r@[j])@ == self.entries@[j]@,
            decreases self.entries@.len() - i,
        {
            r.push(self.entries[i].duplicate());
            i += 1;
        }
        assert(states_view(r@) =~= states_view(self.entries@));
        r
    }
}

/// Sum of the metric values of `s`.
pub open spec fn metrics_total(s: Seq<(String, u64)>) -> int
    decreases s.len(),
{
    if s.len() == 0 {
        0
    } else {
        metrics_total(s.drop_last()) + s.last().1
    }
}

/// Sum of all metric values of a record.
pub fn sum_metrics(metrics: &Vec<(String, u64)>) -> (r: u128)
    ensures
        r == metrics_total(metrics@),
{
    let mut total: u128 = 0;
    let mut i: usize = 0;
    while i < metrics.len()
        invariant
            i <= metrics@.len(),
            total == metrics_total(metrics@.take(i as int)),
            total <= i * (u64::MAX as int),
        decreases metrics@.len() - i,
    {
        assert(metrics@.take(i + 1).drop_last() =~= metrics@.take(i as int));
        let v = metrics[i].1;
        proof {
            let ii = i as int;
            assert(ii < 0x1_0000_0000_0000_0000);
            assert(total + v <= (ii + 1) * (u64::MAX as int)) by (nonlinear_arith)
                requires
                    total <= ii * (u64::MAX as int),
                    v <= u64::MAX,
            ;
            assert((ii + 1) * (u64::MAX as int) <= u128::MAX) by (nonlinear_arith)
                requires
                    ii < 0x1_0000_0000_0000_0000,
            ;
        }
        total = total + v as u128;
        i += 1;
    }
    assert(metrics@.take(i as int) =~= metrics@);
    total
}

/// The value of the first metric named `name`, or zero where there is none.
pub open spec fn metric_or_zero(s: Seq<(String, u64)>, name: Seq<char>) -> int {
    if exists|k: int| 0 <= k < s.len() && (#[trigger] s[k]).0@ == name {
        s[first_named(s, name)].1 as int
    } else {
        0
    }
}

/// Position of the first entry of `s` named `name`.
pub open spec fn first_named<V>(s: Seq<(String, V)>, name: Seq<char>) -> int {
    choose|k: int|
        0 <= k < s.len() && (#[trigger] s[k]).0@ == name && forall|j: int|
            0 <= j < k ==> (#[trigger] s[j]).0@ != name
}

/// Whether the first attribute named "special_role" of a record is set.
pub open spec fn has_special_role(s: Seq<(String, MetadataTypes)>) -> bool {
    exists|k: int|
        0 <= k < s.len() && (#[trigger] s[k]).0@ == special_role_key() && (forall|j: int|
            0 <= j < k ==> (#[trigger] s[j]).0@ != special_role_key()) && s[k].1@ == MetadataView::Bool(true)
}

pub open spec fn special_role_key() -> Seq<char> {
    seq!['s', 'p', 'e', 'c', 'i', 'a', 'l', '_', 'r', 'o', 'l', 'e']
}

pub open spec fn copypasta_key() -> Seq<char> {
    seq!['c', 'o', 'p', 'y', 'p', 'a', 's', 't', 'a']
}

/// The value of the first metric named `name`, or zero where there is none.
pub fn metric_value_or_zero(metrics: &Vec<(String, u64)>, name: &String) -> (r: u64)
    ensures
        r == metric_or_zero(metrics@, name@),
{
    match name_index(metrics, name) {
        Some(j) => {
            proof {
                let s = metrics@;
                assert(0 <= j < s.len() && s[j as int].0@ == name@ && forall|i: int|
                    0 <= i < j ==> (#[trigger] s[i]).0@ != name@);
                let k = first_named(s, name@);
                if k < j {
                    assert(s[k].0@ != name@);
                } else if k > j {
                    assert(s[j as int].0@ != name@);
                }
            }
            metrics[j].1
        },
        None => 0,
    }
}

/// Whether the first attribute named "special_role" of a record is set.
pub fn holds_special_role(metadata: &Vec<(String, MetadataTypes)>) -> (r: bool)
    ensures
        r == has_special_role(metadata@),
{
    let key = String::from_str("special_role");
    proof {
        reveal_strlit("special_role");
        assert(key@ =~= special_role_key());
    }
    match name_index(metadata, &key) {
        Some(j) => {
            let r = match metadata[j].1.get_bool() {
                Some(b) => *b,
                None => false,
            };
            proof {
                let s = metadata@;
                if has_special_role(s) {
                    let k = choose|k: int|
                        0 <= k < s.len() && (#[trigger] s[k]).0@ == special_role_key() && (forall|i: int|
                            0 <= i < k ==> (#[trigger] s[i]).0@ != special_role_key()) && s[k].1@
                            == MetadataView::Bool(true);
                    if k < j {
                        assert(s[k].0@ != special_role_key());
                    } else if k > j {
                        assert(s[j as int].0@ != special_role_key());
                    }
                }
                if r {
                    assert(s[j as int].1@ == MetadataView::Bool(true));
                }
            }
            r
        },
        None => false,
    }
}

/// The overall leaderboard: users ranked by the sum of all their metrics.
pub struct Overall {
    pub state: LeaderboardState,
}

/// The non-VIP leaderboard: users without a special role, ranked by the sum of all their metrics.
pub struct NonVIPS {
    pub state: LeaderboardState,
}

/// The copypasta leaderboard: users ranked by their copypasta metric.
pub struct CopypastaLeaders {
    pub state: LeaderboardState,
}

impl Overall {
    pub open spec fn score_spec(perf: ChatPerformance) -> Option<u128> {
        if perf.perf_type == PerformanceType::User {
            Some(metrics_total(perf.metrics@) as u128)
        } else {
            None
        }
    }

    pub fn new(state: LeaderboardState) -> (r: Overall)
        ensures
            r.state == state,
    {
        Overall { state }
    }

    pub fn get_name(&self) -> (r: String)
        ensures
            r@ == seq!['o', 'v', 'e', 'r', 'a', 'l', 'l'],
    {
        let r = String::from_str("overall");
        proof {
            reveal_strlit("overall");
        }
        assert(r@ =~= seq!['o', 'v', 'e', 'r', 'a', 'l', 'l']);
        r
    }

    /// The kind of participant this leaderboard ranks.
    pub fn performance_type(&self) -> (r: PerformanceType)
        ensures
            r == PerformanceType::User,
    {
        PerformanceType::User
    }

    /// The sum of all metrics of the record.
    pub fn calculate_score(&self, performance: &ChatPerformance) -> (r: Option<u128>)
        ensures
            r == Some(metrics_total(performance.metrics@) as u128),
    {
        Some(sum_metrics(&performance.metrics))
    }

    /// The record's score here; none (excluded) for a record that is not a user's.
    pub fn score(&self, performance: &ChatPerformance) -> (r: Option<u128>)
        ensures
            r == Self::score_spec(*performance),
    {
        if performance.perf_type == PerformanceType::User {
            self.calculate_score(performance)
        } else {
            None
        }
    }

    /// Merges the record's score into the state.
    pub fn update(&mut self, performance: &ChatPerformance) -> (r: Result<(), LeaderboardError>)
        requires
            old(self).state.wf(),
        ensures
            final(self).state.wf(),
            merged(
                old(self).state.entries@,
                final(self).state.entries@,
                *performance,
                Self::score_spec(*performance),
                r,
            ),
    {
        let score = self.score(performance);
        self.state.merge(performance, score)
    }

    /// What is to be persisted.
    pub fn save(&self) -> (r: Vec<LeaderboardInnerState>)
        ensures
            states_view(r@) == states_view(self.state.entries@),
    {
        self.state.snapshot()
    }
}

impl NonVIPS {
    pub open spec fn score_spec(perf: ChatPerformance) -> Option<u128> {
        if perf.perf_type == PerformanceType::User && !has_special_role(perf.metadata@) {
            Some(metrics_total(perf.metrics@) as u128)
        } else {
            None
        }
    }

    pub fn new(state: LeaderboardState) -> (r: NonVIPS)
        ensures
            r.state == state,
    {
        NonVIPS { state }
    }

    pub fn get_name(&self) -> (r: String)
        ensures
            r@ == seq!['n', 'o', 'n', 'v', 'i', 'p', 's'],
    {
        let r = String::from_str("nonvips");
        proof {
            reveal_strlit("nonvips");
        }
        assert(r@ =~= seq!['n', 'o', 'n', 'v', 'i', 'p', 's']);
        r
    }

    pub fn performance_type(&self) -> (r: PerformanceType)
        ensures
            r == PerformanceType::User,
    {
        PerformanceType::User
    }

    /// Excluded where the record's special-role flag is set; else the sum of all metrics.
    pub fn calculate_score(&self, performance: &ChatPerformance) -> (r: Option<u128>)
        ensures
            r == (if has_special_role(performance.metadata@) {
                None
            } else {
                Some(metrics_total(performance.metrics@) as u128)
            }),
    {
        if holds_special_role(&performance.metadata) {
            return None;
        }
        Some(sum_metrics(&performance.metrics))
    }

    pub fn score(&self, performance: &ChatPerformance) -> (r: Option<u128>)
        ensures
            r == Self::score_spec(*performance),
    {
        if performance.perf_type == PerformanceType::User {
            self.calculate_score(performance)
        } else {
            None
        }
    }

    pub fn update(&mut self, performance: &ChatPerformance) -> (r: Result<(), LeaderboardError>)
        requires
            old(self).state.wf(),
        ensures
            final(self).state.wf(),
            merged(
                old(self).state.entries@,
                final(self).state.entries@,
                *performance,
                Self::score_spec(*performance),
                r,
            ),
    {
        let score = self.score(performance);
        self.state.merge(performance, score)
    }

    pub fn save(&self) -> (r: Vec<LeaderboardInnerState>)
        ensures
            states_view(r@) == states_view(self.state.entries@),
    {
        self.state.snapshot()
    }
}

impl CopypastaLeaders {
    pub open spec fn score_spec(perf: ChatPerformance) -> Option<u128> {
        if perf.perf_type == PerformanceType::User {
            Some(metric_or_zero(perf.metrics@, copypasta_key()) as u128)
        } else {
            None
        }
    }

    pub fn new(state: LeaderboardState) -> (r: CopypastaLeaders)
        ensures
            r.state == state,
    {
        CopypastaLeaders { state }
    }

    pub fn get_name(&self) -> (r: String)
        ensures
            r@ == seq!['c', 'o', 'p', 'y', 'p', 'a', 's', 't', 'a'],
    {
        let r = String::from_str("copypasta");
        proof {
            reveal_strlit("copypasta");
        }
        assert(r@ =~= copypasta_key());
        r
    }

    pub fn performance_type(&self) -> (r: PerformanceType)
        ensures
            r == PerformanceType::User,
    {
        PerformanceType::User
    }

    /// The record's copypasta metric, zero where it has none.
    pub fn calculate_score(&self, performance: &ChatPerformance) -> (r: Option<u128>)
        ensures
            r == Some(metric_or_zero(performance.metrics@, copypasta_key()) as u128),
    {
        let key = self.get_name();
        Some(metric_value_or_zero(&performance.metrics, &key) as u128)
    }

    pub fn score(&self, performance: &ChatPerformance) -> (r: Option<u128>)
        ensures
            r == Self::score_spec(*performance),
    {
        if performance.perf_type == PerformanceType::User {
            self.calculate_score(performance)
        } else {
            None
        }
    }

    pub fn update(&mut self, performance: &ChatPerformance) -> (r: Result<(), LeaderboardError>)
        requires
            old(self).state.wf(),
        ensures
            final(self).state.wf(),
            merged(
                old(self).state.entries@,
                final(self).state.entries@,
                *performance,
                Self::score_spec(*performance),
                r,
            ),
    {
        let score = self.score(performance);
        self.state.merge(performance, score)
    }

    pub fn save(&self) -> (r: Vec<LeaderboardInnerState>)
        ensures
            states_view(r@) == states_view(self.state.entries@),
    {
        self.state.snapshot()
    }
}

} // verus!
