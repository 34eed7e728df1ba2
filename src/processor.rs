use vstd::prelude::*;
use crate::aggregator::{
    aggregate, all_metadata_entries, all_metric_entries, records_mentioned, records_ok,
    total_overflows, ChatPerformance, MetadataUpdate, MetricUpdate, Registry,
    RegistryError, Update,
};
use crate::aggregator::basic_info_name;
use crate::event::Comment;
use crate::leaderboards::{
    merged, states_view, CopypastaLeaders, LeaderboardError, LeaderboardInnerState,
    LeaderboardState, NonVIPS, Overall,
};
use crate::metadata::{
    badges_name, emote_metadata_name, special_role_name, Badges, BasicInfo, Emotes, SpecialRole,
};
use crate::metrics::{emote_metric_name, Bits, Emote};
use crate::types::{MetadataTypes, MetadataView, PerformanceType};

verus! {

/// A registered metric component.
pub enum MetricComponent {
    Bits(Bits),
    Emote(Emote),
}

impl MetricComponent {
    pub open spec fn name_spec(&self) -> Seq<char> {
        match self {
            MetricComponent::Bits(_) => seq!['b', 'i', 't', 's'],
            MetricComponent::Emote(_) => emote_metric_name(),
        }
    }

    pub fn get_name(&self) -> (r: String)
        ensures
            r@ == self.name_spec(),
    {
        match self {
            MetricComponent::Bits(m) => m.get_name(),
            MetricComponent::Emote(m) => m.get_name(),
        }
    }

    /// Every metric starts from zero.
    pub fn get_default_value(&self) -> (r: u64)
        ensures
            r == 0,
    {
        0
    }

    pub fn can_parallelize(&self) -> (r: bool)
        ensures
            r == (self is Bits),
    {
        match self {
            MetricComponent::Bits(m) => m.can_parallelize(),
            MetricComponent::Emote(m) => m.can_parallelize(),
        }
    }

    /// What the component gives for `comment`.
    pub open spec fn produces(&self, comment: Comment, r: MetricUpdate) -> bool {
        match self {
            MetricComponent::Bits(m) => m.metric_spec(comment, r),
            MetricComponent::Emote(m) => m.metric_spec(comment, r),
        }
    }

    /// The component's contributions for one event, under its own name.
    pub fn get_metric(&self, comment: &Comment, sequence_no: u64) -> (r: MetricUpdate)
        ensures
            r.metric_name@ == self.name_spec(),
            self.produces(*comment, r),
    {
        match self {
            MetricComponent::Bits(m) => m.get_metric(comment, sequence_no),
            MetricComponent::Emote(m) => m.get_metric(comment, sequence_no),
        }
    }
}

/// A registered metadata component.
pub enum MetadataComponent {
    BasicInfo(BasicInfo),
    Badges(Badges),
    SpecialRole(SpecialRole),
    Emotes(Emotes),
}

impl MetadataComponent {
    pub open spec fn name_spec(&self) -> Seq<char> {
        match self {
            MetadataComponent::BasicInfo(_) => basic_info_name(),
            MetadataComponent::Badges(_) => badges_name(),
            MetadataComponent::SpecialRole(_) => special_role_name(),
            MetadataComponent::Emotes(_) => emote_metadata_name(),
        }
    }

    pub open spec fn default_spec(&self) -> MetadataView {
        match self {
            MetadataComponent::BasicInfo(_) => MetadataView::BasicInfo(
                Seq::empty(),
                Seq::empty(),
                PerformanceType::Unknown,
            ),
            MetadataComponent::Badges(_) => MetadataView::BadgeList(Seq::empty()),
            MetadataComponent::SpecialRole(_) => MetadataView::Bool(false),
            MetadataComponent::Emotes(_) => MetadataView::Bool(false),
        }
    }

    pub fn get_name(&self) -> (r: String)
        ensures
            r@ == self.name_spec(),
    {
        match self {
            MetadataComponent::BasicInfo(m) => m.get_name(),
            MetadataComponent::Badges(m) => m.get_name(),
            MetadataComponent::SpecialRole(m) => m.get_name(),
            MetadataComponent::Emotes(m) => m.get_name(),
        }
    }

    pub fn get_default_value(&self) -> (r: MetadataTypes)
        ensures
            r@ == self.default_spec(),
    {
        match self {
            MetadataComponent::BasicInfo(m) => m.get_default_value(),
            MetadataComponent::Badges(m) => m.get_default_value(),
            MetadataComponent::SpecialRole(m) => m.get_default_value(),
            MetadataComponent::Emotes(m) => m.get_default_value(),
        }
    }

    /// What the component gives for `comment`.
    pub open spec fn produces(&self, comment: Comment, r: MetadataUpdate) -> bool {
        match self {
            MetadataComponent::BasicInfo(m) => m.metadata_spec(comment, r),
            MetadataComponent::Badges(m) => m.metadata_spec(comment, r),
            MetadataComponent::SpecialRole(m) => m.metadata_spec(comment, r),
            MetadataComponent::Emotes(m) => m.metadata_spec(comment, r),
        }
    }

    /// The component's attribute updates for one event, under its own name.
    pub fn get_metadata(&self, comment: &Comment, sequence_no: u64) -> (r: MetadataUpdate)
        ensures
            r.metadata_name@ == self.name_spec(),
            self.produces(*comment, r),
    {
        match self {
            MetadataComponent::BasicInfo(m) => m.get_metadata(comment, sequence_no),
            MetadataComponent::Badges(m) => m.get_metadata(comment, sequence_no),
            MetadataComponent::SpecialRole(m) => m.get_metadata(comment, sequence_no),
            MetadataComponent::Emotes(m) => m.get_metadata(comment, sequence_no),
        }
    }
}

pub open spec fn metric_names_distinct(ms: Seq<MetricComponent>) -> bool {
    forall|a: int, b: int|
        0 <= a < ms.len() && 0 <= b < ms.len() && a != b ==> (#[trigger] ms[a]).name_spec() != (
        #[trigger] ms[b]).name_spec()
}

pub open spec fn metadata_names_distinct(ms: Seq<MetadataComponent>) -> bool {
    forall|a: int, b: int|
        0 <= a < ms.len() && 0 <= b < ms.len() && a != b ==> (#[trigger] ms[a]).name_spec() != (
        #[trigger] ms[b]).name_spec()
}

/// `reg` holds each component's name and default, in the components' order.
pub open spec fn registers(reg: Registry, ms: Seq<MetricComponent>, ds: Seq<MetadataComponent>) -> bool {
    &&& reg.wf()
    &&& reg.metrics@.len() == ms.len()
    &&& reg.metadata@.len() == ds.len()
    &&& forall|k: int|
        0 <= k < ms.len() ==> (#[trigger] reg.metrics@[k]).0@ == ms[k].name_spec() && reg.metrics@[k].1
            == 0
    &&& forall|k: int|
        0 <= k < ds.len() ==> (#[trigger] reg.metadata@[k]).0@ == ds[k].name_spec()
            && reg.metadata@[k].1@ == ds[k].default_spec()
}

/// The update at position `i` of lane `c`, where each lane holds `n` updates.
pub open spec fn lane_at(us: Seq<Update>, n: int, c: int, i: int) -> Update {
    us[c * n + i]
}

/// `u` is what metric component `c` gives for `comment`.
pub open spec fn metric_lane_ok(u: Update, c: MetricComponent, comment: Comment) -> bool {
    u matches Update::Metric(m) && m.metric_name@ == c.name_spec() && c.produces(comment, m)
}

/// `u` is what metadata component `c` gives for `comment`.
pub open spec fn metadata_lane_ok(u: Update, c: MetadataComponent, comment: Comment) -> bool {
    u matches Update::Metadata(d) && d.metadata_name@ == c.name_spec() && c.produces(comment, d)
}

/// `us` holds one lane of `n` updates per component, metric components first:
/// lane `c` holds, at position `i`, the update of component `c` for event `i`.
pub open spec fn lanes_in_order(
    us: Seq<Update>,
    ms: Seq<MetricComponent>,
    ds: Seq<MetadataComponent>,
    log: Seq<Comment>,
) -> bool {
    let n = log.len() as int;
    &&& us.len() == (ms.len() + ds.len()) * n
    &&& forall|c: int, i: int|
        0 <= c < ms.len() && 0 <= i < n ==> metric_lane_ok(#[trigger] lane_at(us, n, c, i), ms[c], log[i])
    &&& forall|c: int, i: int|
        0 <= c < ds.len() && 0 <= i < n ==> metadata_lane_ok(#[trigger] lane_at(us, n, ms.len() + c, i), ds[c], log[i])
}

proof fn lemma_lane_index(a: int, j: int, c: int, n: int)
    requires
        0 <= a < c,
        0 <= j < n,
    ensures
        a * n + j < c * n,
        0 <= a * n + j,
{
    assert(a * n + j < c * n) by (nonlinear_arith)
        requires
            0 <= a < c,
            0 <= j < n,
    ;
    assert(0 <= a * n) by (nonlinear_arith)
        requires
            0 <= a,
            0 <= n,
    ;
}

/// Why a chat log could not be processed.
#[derive(PartialEq, Eq, Structural, Debug, Clone, Copy)]
pub enum ProcessError {
    /// Two components claim the same name.
    DuplicateName,
    /// A metric total does not fit in 64 bits.
    Overflow,
}

/// `recs` is what aggregating the updates `us` over the names of `reg` gives.
pub open spec fn aggregation_of(reg: Registry, us: Seq<Update>, recs: Seq<ChatPerformance>) -> bool {
    &&& reg.wf()
    &&& records_ok(reg, all_metric_entries(us), all_metadata_entries(us), recs)
    &&& records_mentioned(all_metric_entries(us), all_metadata_entries(us), recs)
}

/// Turns a chat log into performance records through a fixed set of components.
pub struct ChatLogProcessor {
    pub metrics: Vec<MetricComponent>,
    pub metadata: Vec<MetadataComponent>,
}

impl ChatLogProcessor {
    pub fn new(metrics: Vec<MetricComponent>, metadata: Vec<MetadataComponent>) -> (r: ChatLogProcessor)
        ensures
            r.metrics == metrics,
            r.metadata == metadata,
    {
        ChatLogProcessor { metrics, metadata }
    }

    /// The names of all components with their defaults; refused where two
    /// metric components, or two metadata components, share a name.
    pub fn registry(&self) -> (r: Result<Registry, RegistryError>)
        ensures
            r is Ok <==> metric_names_distinct(self.metrics@) && metadata_names_distinct(
                self.metadata@,
            ),
            r is Ok ==> registers(r->Ok_0, self.metrics@, self.metadata@),
    {
        let mut reg = Registry::new();
        let mut i: usize = 0;
        while i < self.metrics.len()
            invariant
                reg.wf(),
                i <= self.metrics@.len(),
                reg.metrics@.len() == i,
                reg.metadata@.len() == 0,
                forall|k: int|
                    0 <= k < i ==> (#[trigger] reg.metrics@[k]).0@ == self.metrics@[k].name_spec()
                        && reg.metrics@[k].1 == 0,
            decreases self.metrics@.len() - i,
        {
            let c = &self.metrics[i];
            let res = reg.register_metric(c.get_name(), c.get_default_value());
            if res.is_err() {
                proof {
                    let k = choose|k: int|
                        0 <= k < reg.metrics@.len() && (#[trigger] reg.metrics@[k]).0@
                            == self.metrics@[i as int].name_spec();
                    assert(self.metrics@[k].name_spec() == self.metrics@[i as int].name_spec());
                }
                return Err(RegistryError::DuplicateName);
            }
            i += 1;
        }
        assert forall|a: int, b: int|
            0 <= a < self.metrics@.len() && 0 <= b < self.metrics@.len() && a != b implies (
            #[trigger] self.metrics@[a]).name_spec() != (#[trigger] self.metrics@[b]).name_spec() by {
            assert(reg.metrics@[a].0@ != reg.metrics@[b].0@);
        }
        let mut i: usize = 0;
        while i < self.metadata.len()
            invariant
                reg.wf(),
                i <= self.metadata@.len(),
                reg.metrics@.len() == self.metrics@.len(),
                reg.metadata@.len() == i,
                metric_names_distinct(self.metrics@),
                forall|k: int|
                    0 <= k < self.metrics@.len() ==> (#[trigger] reg.metrics@[k]).0@
                        == self.metrics@[k].name_spec() && reg.metrics@[k].1 == 0,
                forall|k: int|
                    0 <= k < i ==> (#[trigger] reg.metadata@[k]).0@ == self.metadata@[k].name_spec()
                        && reg.metadata@[k].1@ == self.metadata@[k].default_spec(),
            decreases self.metadata@.len() - i,
        {
            let c = &self.metadata[i];
            let res = reg.register_metadata(c.get_name(), c.get_default_value());
            if res.is_err() {
                proof {
                    let k = choose|k: int|
                        0 <= k < reg.metadata@.len() && (#[trigger] reg.metadata@[k]).0@
                            == self.metadata@[i as int].name_spec();
                    assert(self.metadata@[k].name_spec() == self.metadata@[i as int].name_spec());
                }
                return Err(RegistryError::DuplicateName);
            }
            i += 1;
        }
        assert forall|a: int, b: int|
            0 <= a < self.metadata@.len() && 0 <= b < self.metadata@.len() && a != b implies (
            #[trigger] self.metadata@[a]).name_spec() != (#[trigger] self.metadata@[b]).name_spec() by {
            assert(reg.metadata@[a].0@ != reg.metadata@[b].0@);
        }
        Ok(reg)
    }

    /// Replays the log to every component, in log order, once per component:
    /// the updates of each metric component come first, then those of each
    /// metadata component. Each event carries its position in the log.
    pub fn replay(&self, log: &Vec<Comment>) -> (r: Vec<Update>)
        ensures
            lanes_in_order(r@, self.metrics@, self.metadata@, log@),
    {
        let n = log.len();
        let ghost ms = self.metrics@;
        let ghost ds = self.metadata@;
        let ghost m = ms.len() as int;
        let mut out: Vec<Update> = Vec::new();
        let mut c: usize = 0;
        while c < self.metrics.len()
            invariant
                c <= ms.len(),
                ms == self.metrics@,
                n == log@.len(),
                out@.len() == c * n,
                forall|a: int, i: int|
                    0 <= a < c && 0 <= i < n ==> metric_lane_ok(#[trigger] lane_at(out@, n as int, a, i), ms[a], log@[i]),
            decreases ms.len() - c,
        {
            let mut i: usize = 0;
            while i < n
                invariant
                    c < ms.len(),
                    ms == self.metrics@,
                    i <= n,
                    n == log@.len(),
                    out@.len() == c * n + i,
                    forall|a: int, j: int|
                        0 <= a < c && 0 <= j < n ==> metric_lane_ok(#[trigger] lane_at(out@, n as int, a, j), ms[a], log@[j]),
                    forall|j: int| 0 <= j < i ==> metric_lane_ok(#[trigger] lane_at(out@, n as int, c as int, j), ms[c as int], log@[j]),
                decreases n - i,
            {
                let ghost o0 = out@;
                out.push(Update::Metric(self.metrics[c].get_metric(&log[i], i as u64)));
                proof {
                    assert forall|a: int, j: int|
                        0 <= a < c && 0 <= j < n implies metric_lane_ok(#[trigger] lane_at(out@, n as int, a, j), ms[a], log@[j]) by {
                        lemma_lane_index(a, j, c as int, n as int);
                        assert(lane_at(out@, n as int, a, j) == lane_at(o0, n as int, a, j));
                    }
                    assert forall|j: int| 0 <= j < i + 1 implies metric_lane_ok(#[trigger] lane_at(out@, n as int, c as int, j), ms[c as int], log@[j]) by {
                        if j < i {
                            assert(lane_at(out@, n as int, c as int, j) == lane_at(o0, n as int, c as int, j));
                        }
                    }
                }
                i += 1;
            }
            proof {
                assert((c + 1) * n == c * n + n) by (nonlinear_arith);
            }
            c += 1;
        }
        let mut d: usize = 0;
        while d < self.metadata.len()
            invariant
                d <= ds.len(),
                ms == self.metrics@,
                ds == self.metadata@,
                m == ms.len(),
                n == log@.len(),
                out@.len() == (m + d) * n,
                forall|a: int, i: int|
                    0 <= a < m && 0 <= i < n ==> metric_lane_ok(#[trigger] lane_at(out@, n as int, a, i), ms[a], log@[i]),
                forall|a: int, i: int|
                    0 <= a < d && 0 <= i < n ==> metadata_lane_ok(#[trigger] lane_at(out@, n as int, m + a, i), ds[a], log@[i]),
            decreases ds.len() - d,
        {
            let mut i: usize = 0;
            while i < n
                invariant
                    d < ds.len(),
                    ms == self.metrics@,
                    ds == self.metadata@,
                    m == ms.len(),
                    i <= n,
                    n == log@.len(),
                    out@.len() == (m + d) * n + i,
                    forall|a: int, j: int|
                        0 <= a < m && 0 <= j < n ==> metric_lane_ok(#[trigger] lane_at(out@, n as int, a, j), ms[a], log@[j]),
                    forall|a: int, j: int|
                        0 <= a < d && 0 <= j < n ==> metadata_lane_ok(#[trigger] lane_at(out@, n as int, m + a, j), ds[a], log@[j]),
                    forall|j: int| 0 <= j < i ==> metadata_lane_ok(#[trigger] lane_at(out@, n as int, m + d, j), ds[d as int], log@[j]),
                decreases n - i,
            {
                let ghost o0 = out@;
                out.push(Update::Metadata(self.metadata[d].get_metadata(&log[i], i as u64)));
                proof {
                    assert forall|a: int, j: int|
                        0 <= a < m && 0 <= j < n implies metric_lane_ok(#[trigger] lane_at(out@, n as int, a, j), ms[a], log@[j]) by {
                        lemma_lane_index(a, j, m + d, n as int);
                        assert(lane_at(out@, n as int, a, j) == lane_at(o0, n as int, a, j));
                    }
                    assert forall|a: int, j: int|
                        0 <= a < d && 0 <= j < n implies metadata_lane_ok(#[trigger] lane_at(out@, n as int, m + a, j), ds[a], log@[j]) by {
                        lemma_lane_index(m + a, j, m + d, n as int);
                        assert(lane_at(out@, n as int, m + a, j) == lane_at(o0, n as int, m + a, j));
                    }
                    assert forall|j: int| 0 <= j < i + 1 implies metadata_lane_ok(#[trigger] lane_at(out@, n as int, m + d, j), ds[d as int], log@[j]) by {
                        if j < i {
                            assert(lane_at(out@, n as int, m + d, j) == lane_at(o0, n as int, m + d, j));
                        }
                    }
                }
                i += 1;
            }
            proof {
                assert((m + d + 1) * n == (m + d) * n + n) by (nonlinear_arith);
            }
            d += 1;
        }
        proof {
            assert forall|a: int, i: int|
                0 <= a < ds.len() && 0 <= i < n implies metadata_lane_ok(#[trigger] lane_at(out@, n as int, m + a, i), ds[a], log@[i]) by {}
        }
        out
    }

    /// The performance records of the log: the registry, the replay, and the
    /// aggregation of every update.
    pub fn parse_from_log_object(&self, log: &Vec<Comment>) -> (r: Result<
        Vec<ChatPerformance>,
        ProcessError,
    >)
        ensures
            !(metric_names_distinct(self.metrics@) && metadata_names_distinct(self.metadata@))
                ==> r == Err::<Vec<ChatPerformance>, ProcessError>(ProcessError::DuplicateName),
            metric_names_distinct(self.metrics@) && metadata_names_distinct(self.metadata@)
                ==> exists|reg: Registry, us: Seq<Update>|
                #[trigger] processed(reg, us, self.metrics@, self.metadata@, log@, r),
    {
        let reg = match self.registry() {
            Ok(reg) => reg,
            Err(_) => {
                return Err(ProcessError::DuplicateName);
            },
        };
        let updates = self.replay(log);
        let ghost g = reg;
        let r: Result<Vec<ChatPerformance>, ProcessError> = match aggregate(reg, &updates) {
            Ok(recs) => Ok(recs),
            Err(_) => Err(ProcessError::Overflow),
        };
        assert(processed(g, updates@, self.metrics@, self.metadata@, log@, r));
        r
    }
}

/// `r` is the outcome of aggregating the replay `us` of `log`
/// over the registry `reg` of the components: the records on success, an
/// overflow error exactly when some metric total exceeds 64 bits.
pub open spec fn processed(
    reg: Registry,
    us: Seq<Update>,
    ms: Seq<MetricComponent>,
    ds: Seq<MetadataComponent>,
    log: Seq<Comment>,
    r: Result<Vec<ChatPerformance>, ProcessError>,
) -> bool {
    &&& registers(reg, ms, ds)
    &&& lanes_in_order(us, ms, ds, log)
    &&& r is Ok ==> aggregation_of(reg, us, r->Ok_0@)
    &&& r is Err <==> total_overflows(reg, all_metric_entries(us))
    &&& r is Err ==> r->Err_0 == ProcessError::Overflow
}

/// A registered leaderboard policy.
pub enum Leaderboard {
    Overall(Overall),
    NonVips(NonVIPS),
    Copypasta(CopypastaLeaders),
}

impl Leaderboard {
    pub open spec fn state(&self) -> LeaderboardState {
        match self {
            Leaderboard::Overall(l) => l.state,
            Leaderboard::NonVips(l) => l.state,
            Leaderboard::Copypasta(l) => l.state,
        }
    }

    pub open spec fn score_spec(&self, perf: ChatPerformance) -> Option<u128> {
        match self {
            Leaderboard::Overall(_) => Overall::score_spec(perf),
            Leaderboard::NonVips(_) => NonVIPS::score_spec(perf),
            Leaderboard::Copypasta(_) => CopypastaLeaders::score_spec(perf),
        }
    }

    pub open spec fn name_spec(&self) -> Seq<char> {
        match self {
            Leaderboard::Overall(_) => seq!['o', 'v', 'e', 'r', 'a', 'l', 'l'],
            Leaderboard::NonVips(_) => seq!['n', 'o', 'n', 'v', 'i', 'p', 's'],
            Leaderboard::Copypasta(_) => seq!['c', 'o', 'p', 'y', 'p', 'a', 's', 't', 'a'],
        }
    }

    pub fn get_name(&self) -> (r: String)
        ensures
            r@ == self.name_spec(),
    {
        match self {
            Leaderboard::Overall(l) => l.get_name(),
            Leaderboard::NonVips(l) => l.get_name(),
            Leaderboard::Copypasta(l) => l.get_name(),
        }
    }

    pub fn score(&self, performance: &ChatPerformance) -> (r: Option<u128>)
        ensures
            r == self.score_spec(*performance),
    {
        match self {
            Leaderboard::Overall(l) => l.score(performance),
            Leaderboard::NonVips(l) => l.score(performance),
            Leaderboard::Copypasta(l) => l.score(performance),
        }
    }

    pub fn update(&mut self, performance: &ChatPerformance) -> (r: Result<(), LeaderboardError>)
        requires
            old(self).state().wf(),
        ensures
            final(self).state().wf(),
            old(self).score_spec(*performance) == final(self).score_spec(*performance),
            merged(
                old(self).state().entries@,
                final(self).state().entries@,
                *performance,
                old(self).score_spec(*performance),
                r,
            ),
    {
        match self {
            Leaderboard::Overall(l) => l.update(performance),
            Leaderboard::NonVips(l) => l.update(performance),
            Leaderboard::Copypasta(l) => l.update(performance),
        }
    }

    pub fn save(&self) -> (r: Vec<LeaderboardInnerState>)
        ensures
            states_view(r@) == states_view(self.state().entries@),
    {
        match self {
            Leaderboard::Overall(l) => l.save(),
            Leaderboard::NonVips(l) => l.save(),
            Leaderboard::Copypasta(l) => l.save(),
        }
    }
}

/// Every leaderboard policy, each with a fresh state.
pub fn get_leaderboards() -> (r: Vec<Leaderboard>)
    ensures
        r@.len() == 3,
        r@[0] is Overall && r@[1] is NonVips && r@[2] is Copypasta,
        forall|k: int| 0 <= k < r@.len() ==> (#[trigger] r@[k]).state().wf() && r@[k].state().entries@.len() == 0,
{
    let mut r: Vec<Leaderboard> = Vec::new();
    r.push(Leaderboard::Overall(Overall::new(LeaderboardState::new())));
    r.push(Leaderboard::NonVips(NonVIPS::new(LeaderboardState::new())));
    r.push(Leaderboard::Copypasta(CopypastaLeaders::new(LeaderboardState::new())));
    r
}

} // verus!
