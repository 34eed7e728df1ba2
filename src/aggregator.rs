use vstd::prelude::*;
use vstd::string::StringExecFns;
use crate::types::{MetadataTypes, MetadataView, PerformanceType};

verus! {

/// The additive contributions of one metric component for one event: each
/// entry adds its amount (in hundredths) to the named metric of a participant.
#[derive(Debug)]
pub struct MetricUpdate {
    pub metric_name: String,
    pub updates: Vec<(String, u64)>,
}

/// The attribute updates of one metadata component for one event: each entry
/// overwrites the named attribute of a participant.
#[derive(Debug)]
pub struct MetadataUpdate {
    pub metadata_name: String,
    pub updates: Vec<(String, MetadataTypes)>,
}

/// The aggregate of every metric and metadata value of one participant.
#[derive(Debug)]
pub struct ChatPerformance {
    pub id: String,
    pub perf_type: PerformanceType,
    pub username: String,
    pub avatar: String,
    /// Accumulated value of each registered metric, in registration order.
    pub metrics: Vec<(String, u64)>,
    /// Current value of each registered metadata attribute, in registration order.
    pub metadata: Vec<(String, MetadataTypes)>,
}

/// Why the aggregator could not produce a result.
#[derive(PartialEq, Eq, Structural, Debug, Clone, Copy)]
pub enum AggregateError {
    /// An accumulated metric value does not fit in 64 bits.
    Overflow,
}

/// A metric contribution as recorded in the aggregator's history:
/// metric name, participant id, amount.
pub type MetricEntry = (Seq<char>, Seq<char>, nat);

/// A metadata update as recorded in the aggregator's history:
/// attribute name, participant id, value.
pub type MetadataEntry = (Seq<char>, Seq<char>, MetadataView);

/// The reserved attribute name whose updates set a record's identity fields.
pub open spec fn basic_info_name() -> Seq<char> {
    seq!['b', 'a', 's', 'i', 'c', '_', 'i', 'n', 'f', 'o']
}

/// Sum of the amounts that `log` holds for metric `name` and participant `pid`.
pub open spec fn metric_sum(log: Seq<MetricEntry>, name: Seq<char>, pid: Seq<char>) -> nat
    decreases log.len(),
{
    if log.len() == 0 {
        0
    } else {
        let e = log.last();
        let rest = metric_sum(log.drop_last(), name, pid);
        if e.0 == name && e.1 == pid {
            rest + e.2
        } else {
            rest
        }
    }
}

/// The value of the last update in `log` for attribute `name` and participant `pid`.
pub open spec fn last_metadata(log: Seq<MetadataEntry>, name: Seq<char>, pid: Seq<char>) -> Option<
    MetadataView,
>
    decreases log.len(),
{
    if log.len() == 0 {
        None
    } else {
        let e = log.last();
        if e.0 == name && e.1 == pid {
            Some(e.2)
        } else {
            last_metadata(log.drop_last(), name, pid)
        }
    }
}

/// The value an ordinary attribute holds after `log`: the last update, or the default.
/// The reserved identity attribute keeps its default.
pub open spec fn metadata_value(
    log: Seq<MetadataEntry>,
    name: Seq<char>,
    pid: Seq<char>,
    default: MetadataView,
) -> MetadataView {
    if name == basic_info_name() {
        default
    } else {
        match last_metadata(log, name, pid) {
            Some(v) => v,
            None => default,
        }
    }
}

/// Display name, avatar and kind of a participant after `log`.
pub open spec fn identity(log: Seq<MetadataEntry>, pid: Seq<char>) -> (
    Seq<char>,
    Seq<char>,
    PerformanceType,
) {
    match last_metadata(log, basic_info_name(), pid) {
        Some(MetadataView::BasicInfo(n, a, t)) => (n, a, t),
        _ => (Seq::empty(), Seq::empty(), PerformanceType::Unknown),
    }
}

/// Whether `log` mentions participant `pid` at all.
pub open spec fn metric_log_mentions(log: Seq<MetricEntry>, pid: Seq<char>) -> bool {
    exists|k: int| 0 <= k < log.len() && (#[trigger] log[k]).1 == pid
}

pub open spec fn metadata_log_mentions(log: Seq<MetadataEntry>, pid: Seq<char>) -> bool {
    exists|k: int| 0 <= k < log.len() && (#[trigger] log[k]).1 == pid
}

pub open spec fn names_unique<V>(s: Seq<(String, V)>) -> bool {
    forall|a: int, b: int|
        0 <= a < s.len() && 0 <= b < s.len() && a != b ==> (#[trigger] s[a]).0@ != (#[trigger] s[b]).0@
}

/// Position of the entry named `name`, if there is one.
pub fn name_index<V>(s: &Vec<(String, V)>, name: &String) -> (r: Option<usize>)
    ensures
        match r {
            Some(j) => j < s@.len() && s@[j as int].0@ == name@ && forall|k: int|
                0 <= k < j ==> (#[trigger] s@[k]).0@ != name@,
            None => forall|k: int| 0 <= k < s@.len() ==> (#[trigger] s@[k]).0@ != name@,
        },
{
    let mut j: usize = 0;
    while j < s.len()
        invariant
            j <= s@.len(),
            forall|k: int| 0 <= k < j ==> (#[trigger] s@[k]).0@ != name@,
        decreases s@.len() - j,
    {
        if s[j].0 == *name {
            return Some(j);
        }
        j += 1;
    }
    None
}

/// Whether some entry of `s` is named `n`.
pub open spec fn has_entry_named<V>(s: Seq<(String, V)>, n: Seq<char>) -> bool {
    exists|k: int| 0 <= k < s.len() && (#[trigger] s[k]).0@ == n
}

/// The registered metric and metadata names with their default values.
#[derive(Debug)]
pub struct Registry {
    pub metrics: Vec<(String, u64)>,
    pub metadata: Vec<(String, MetadataTypes)>,
}

/// Why a component could not be registered.
#[derive(PartialEq, Eq, Structural, Debug, Clone, Copy)]
pub enum RegistryError {
    /// Another component already owns that name.
    DuplicateName,
}

impl Registry {
    /// Each name has exactly one owner.
    pub open spec fn wf(&self) -> bool {
        names_unique(self.metrics@) && names_unique(self.metadata@)
    }

    pub open spec fn has_metric(&self, name: Seq<char>) -> bool {
        exists|j: int| 0 <= j < self.metrics@.len() && (#[trigger] self.metrics@[j]).0@ == name
    }

    pub open spec fn has_metadata(&self, name: Seq<char>) -> bool {
        exists|j: int| 0 <= j < self.metadata@.len() && (#[trigger] self.metadata@[j]).0@ == name
    }

    pub fn new() -> (r: Registry)
        ensures
            r.wf(),
            r.metrics@.len() == 0,
            r.metadata@.len() == 0,
    {
        Registry { metrics: Vec::new(), metadata: Vec::new() }
    }

    /// Registers a metric with its default, unless the name is taken.
    pub fn register_metric(&mut self, name: String, default: u64) -> (r: Result<(), RegistryError>)
        requires
            old(self).wf(),
        ensures
            final(self).wf(),
            final(self).metadata == old(self).metadata,
            old(self).has_metric(name@) ==> r == Err::<(), RegistryError>(RegistryError::DuplicateName)
                && final(self).metrics@ == old(self).metrics@,
            !old(self).has_metric(name@) ==> r is Ok && final(self).metrics@ == old(
                self,
            ).metrics@.push((name, default)),
    {
        let mut j: usize = 0;
        while j < self.metrics.len()
            invariant
                j <= self.metrics@.len(),
                self.wf(),
                self.metrics == old(self).metrics,
                self.metadata == old(self).metadata,
                forall|k: int| 0 <= k < j ==> (#[trigger] self.metrics@[k]).0@ != name@,
            decreases self.metrics@.len() - j,
        {
            if self.metrics[j].0 == name {
                return Err(RegistryError::DuplicateName);
            }
            j += 1;
        }
        self.metrics.push((name, default));
        Ok(())
    }

    /// Registers a metadata attribute with its default, unless the name is taken.
    pub fn register_metadata(&mut self, name: String, default: MetadataTypes) -> (r: Result<
        (),
        RegistryError,
    >)
        requires
            old(self).wf(),
        ensures
            final(self).wf(),
            final(self).metrics == old(self).metrics,
            old(self).has_metadata(name@) ==> r == Err::<(), RegistryError>(
                RegistryError::DuplicateName,
            ) && final(self).metadata@ == old(self).metadata@,
            !old(self).has_metadata(name@) ==> r is Ok && final(self).metadata@ == old(
                self,
            ).metadata@.push((name, default)),
    {
        let mut j: usize = 0;
        while j < self.metadata.len()
            invariant
                j <= self.metadata@.len(),
                self.wf(),
                self.metrics == old(self).metrics,
                self.metadata == old(self).metadata,
                forall|k: int| 0 <= k < j ==> (#[trigger] self.metadata@[k]).0@ != name@,
            decreases self.metadata@.len() - j,
        {
            if self.metadata[j].0 == name {
                return Err(RegistryError::DuplicateName);
            }
            j += 1;
        }
        self.metadata.push((name, default));
        Ok(())
    }
}


/// A record holds, for every registered name, the value that the histories give it.
pub open spec fn record_ok(
    reg: Registry,
    mlog: Seq<MetricEntry>,
    dlog: Seq<MetadataEntry>,
    r: ChatPerformance,
) -> bool {
    &&& r.metrics@.len() == reg.metrics@.len()
    &&& forall|j: int|
        0 <= j < r.metrics@.len() ==> (#[trigger] r.metrics@[j]).0@ == reg.metrics@[j].0@
            && r.metrics@[j].1 == reg.metrics@[j].1 + metric_sum(mlog, reg.metrics@[j].0@, r.id@)
    &&& r.metadata@.len() == reg.metadata@.len()
    &&& forall|k: int|
        0 <= k < r.metadata@.len() ==> (#[trigger] r.metadata@[k]).0@ == reg.metadata@[k].0@
            && r.metadata@[k].1@ == metadata_value(
            dlog,
            reg.metadata@[k].0@,
            r.id@,
            reg.metadata@[k].1@,
        )
    &&& (r.username@, r.avatar@, r.perf_type) == identity(dlog, r.id@)
}

/// The contributions of one metric update, as history entries.
pub open spec fn metric_entries(u: MetricUpdate) -> Seq<MetricEntry> {
    u.updates@.map_values(|e: (String, u64)| (u.metric_name@, e.0@, e.1 as nat))
}

/// The attribute updates of one metadata update, as history entries.
pub open spec fn metadata_entries(u: MetadataUpdate) -> Seq<MetadataEntry> {
    u.updates@.map_values(|e: (String, MetadataTypes)| (u.metadata_name@, e.0@, e.1@))
}

/// Whether adding entry `e` after history `log` takes a registered metric past 64 bits.
pub open spec fn overflows_at(reg: Registry, log: Seq<MetricEntry>, e: MetricEntry) -> bool {
    exists|j: int|
        0 <= j < reg.metrics@.len() && (#[trigger] reg.metrics@[j]).0@ == e.0 && reg.metrics@[j].1
            + metric_sum(log, e.0, e.1) + e.2 > u64::MAX
}

/// One message reaching the aggregator: the output of a metric component or
/// of a metadata component for one event.
#[derive(Debug)]
pub enum Update {
    Metric(MetricUpdate),
    Metadata(MetadataUpdate),
}

/// The metric contributions of `us`, in order; metadata updates are passed over.
pub open spec fn all_metric_entries(us: Seq<Update>) -> Seq<MetricEntry>
    decreases us.len(),
{
    if us.len() == 0 {
        Seq::empty()
    } else {
        let prev = all_metric_entries(us.drop_last());
        match us.last() {
            Update::Metric(m) => prev + metric_entries(m),
            Update::Metadata(_) => prev,
        }
    }
}

/// The metadata updates of `us`, in order; metric contributions are passed over.
pub open spec fn all_metadata_entries(us: Seq<Update>) -> Seq<MetadataEntry>
    decreases us.len(),
{
    if us.len() == 0 {
        Seq::empty()
    } else {
        let prev = all_metadata_entries(us.drop_last());
        match us.last() {
            Update::Metadata(d) => prev + metadata_entries(d),
            Update::Metric(_) => prev,
        }
    }
}

/// Whether some registered metric of some participant totals more than 64 bits hold.
pub open spec fn total_overflows(reg: Registry, log: Seq<MetricEntry>) -> bool {
    exists|k: int, j: int|
        0 <= k < log.len() && 0 <= j < reg.metrics@.len() && (#[trigger] reg.metrics@[j]).0@ == (
        #[trigger] log[k]).0 && reg.metrics@[j].1 + metric_sum(log, log[k].0, log[k].1) > u64::MAX
}

pub proof fn lemma_sum_prefix(log: Seq<MetricEntry>, n: int, name: Seq<char>, pid: Seq<char>)
    requires
        0 <= n <= log.len(),
    ensures
        metric_sum(log.take(n), name, pid) <= metric_sum(log, name, pid),
    decreases log.len(),
{
    if n == log.len() {
        assert(log.take(n) =~= log);
    } else {
        assert(log.drop_last().take(n) =~= log.take(n));
        lemma_sum_prefix(log.drop_last(), n, name, pid);
    }
}

pub proof fn lemma_metric_entries_prefix(us: Seq<Update>, m: int)
    requires
        0 <= m <= us.len(),
    ensures
        all_metric_entries(us.take(m)).len() <= all_metric_entries(us).len(),
        all_metric_entries(us).take(all_metric_entries(us.take(m)).len() as int)
            == all_metric_entries(us.take(m)),
    decreases us.len(),
{
    let p = all_metric_entries(us.take(m));
    if m == us.len() {
        assert(us.take(m) =~= us);
        assert(all_metric_entries(us).take(p.len() as int) =~= p);
    } else {
        assert(us.drop_last().take(m) =~= us.take(m));
        lemma_metric_entries_prefix(us.drop_last(), m);
        let q = all_metric_entries(us.drop_last());
        assert(all_metric_entries(us).take(q.len() as int) =~= q);
        assert(all_metric_entries(us).take(p.len() as int) =~= q.take(p.len() as int));
    }
}

/// Index of the record of participant `pid`.
pub open spec fn has_record(recs: Seq<ChatPerformance>, pid: Seq<char>) -> bool {
    exists|i: int| 0 <= i < recs.len() && (#[trigger] recs[i]).id@ == pid
}

/// The record set that the histories determine: one record per participant,
/// each complete, and one for every participant that either history mentions.
pub open spec fn records_ok(
    reg: Registry,
    mlog: Seq<MetricEntry>,
    dlog: Seq<MetadataEntry>,
    recs: Seq<ChatPerformance>,
) -> bool {
    &&& forall|a: int, b: int|
        0 <= a < recs.len() && 0 <= b < recs.len() && a != b ==> (#[trigger] recs[a]).id@
            != (#[trigger] recs[b]).id@
    &&& forall|i: int| 0 <= i < recs.len() ==> record_ok(reg, mlog, dlog, #[trigger] recs[i])
    &&& forall|k: int| 0 <= k < mlog.len() ==> has_record(recs, (#[trigger] mlog[k]).1)
    &&& forall|k: int| 0 <= k < dlog.len() ==> has_record(recs, (#[trigger] dlog[k]).1)
}

pub proof fn lemma_unmentioned_metric(log: Seq<MetricEntry>, name: Seq<char>, pid: Seq<char>)
    requires
        forall|k: int| 0 <= k < log.len() ==> (#[trigger] log[k]).1 != pid,
    ensures
        metric_sum(log, name, pid) == 0,
    decreases log.len(),
{
    if log.len() > 0 {
        lemma_unmentioned_metric(log.drop_last(), name, pid);
    }
}

pub proof fn lemma_unmentioned_metadata(log: Seq<MetadataEntry>, name: Seq<char>, pid: Seq<char>)
    requires
        forall|k: int| 0 <= k < log.len() ==> (#[trigger] log[k]).1 != pid,
    ensures
        last_metadata(log, name, pid) is None,
    decreases log.len(),
{
    if log.len() > 0 {
        lemma_unmentioned_metadata(log.drop_last(), name, pid);
    }
}

/// Every record belongs to a participant that one of the histories mentions.
pub open spec fn records_mentioned(
    mlog: Seq<MetricEntry>,
    dlog: Seq<MetadataEntry>,
    recs: Seq<ChatPerformance>,
) -> bool {
    forall|i: int|
        0 <= i < recs.len() ==> metric_log_mentions(mlog, (#[trigger] recs[i]).id@)
            || metadata_log_mentions(dlog, recs[i].id@)
}

proof fn lemma_still_mentioned(
    old_recs: Seq<ChatPerformance>,
    recs: Seq<ChatPerformance>,
    mlog0: Seq<MetricEntry>,
    mlog1: Seq<MetricEntry>,
    dlog0: Seq<MetadataEntry>,
    dlog1: Seq<MetadataEntry>,
)
    requires
        records_mentioned(mlog0, dlog0, old_recs),
        mlog0.len() <= mlog1.len(),
        mlog1.take(mlog0.len() as int) == mlog0,
        dlog0.len() <= dlog1.len(),
        dlog1.take(dlog0.len() as int) == dlog0,
        old_recs.len() <= recs.len(),
        forall|a: int| 0 <= a < old_recs.len() ==> (#[trigger] recs[a]).id == old_recs[a].id,
        forall|a: int|
            old_recs.len() <= a < recs.len() ==> metric_log_mentions(mlog1, (#[trigger] recs[a]).id@)
                || metadata_log_mentions(dlog1, recs[a].id@),
    ensures
        records_mentioned(mlog1, dlog1, recs),
{
    assert forall|a: int| 0 <= a < recs.len() implies metric_log_mentions(
        mlog1,
        (#[trigger] recs[a]).id@,
    ) || metadata_log_mentions(dlog1, recs[a].id@) by {
        if a < old_recs.len() {
            assert(recs[a].id == old_recs[a].id);
            if metric_log_mentions(mlog0, old_recs[a].id@) {
                let k = choose|k: int| 0 <= k < mlog0.len() && (#[trigger] mlog0[k]).1 == old_recs[a].id@;
                assert(mlog1[k] == mlog0[k]);
            } else {
                assert(metadata_log_mentions(dlog0, old_recs[a].id@));
                let k = choose|k: int| 0 <= k < dlog0.len() && (#[trigger] dlog0[k]).1 == old_recs[a].id@;
                assert(dlog1[k] == dlog0[k]);
            }
        }
    }
}

/// The single writer of the performance records: it applies metric and
/// metadata updates in whatever order they arrive.
pub struct Aggregator {
    pub registry: Registry,
    pub records: Vec<ChatPerformance>,
    /// Every metric contribution applied so far, in order of application.
    pub metric_log: Ghost<Seq<MetricEntry>>,
    /// Every metadata update applied so far, in order of application.
    pub metadata_log: Ghost<Seq<MetadataEntry>>,
}

impl Aggregator {
    /// No record exists but for a participant that the histories mention.
    pub open spec fn mentioned(&self) -> bool {
        records_mentioned(self.metric_log@, self.metadata_log@, self.records@)
    }

    pub open spec fn wf(&self) -> bool {
        &&& self.registry.wf()
        &&& records_ok(self.registry, self.metric_log@, self.metadata_log@, self.records@)
    }

    /// An aggregator with no records, over the given registered names.
    pub fn new(registry: Registry) -> (r: Aggregator)
        requires
            registry.wf(),
        ensures
            r.wf(),
            r.mentioned(),
            r.registry == registry,
            r.records@.len() == 0,
            r.metric_log@.len() == 0,
            r.metadata_log@.len() == 0,
    {
        Aggregator {
            registry,
            records: Vec::new(),
            metric_log: Ghost(Seq::empty()),
            metadata_log: Ghost(Seq::empty()),
        }
    }

    /// Position of the record of participant `pid`, if there is one.
    pub fn find_record(&self, pid: &String) -> (r: Option<usize>)
        ensures
            match r {
                Some(i) => i < self.records@.len() && self.records@[i as int].id@ == pid@,
                None => !has_record(self.records@, pid@),
            },
    {
        let mut i: usize = 0;
        while i < self.records.len()
            invariant
                i <= self.records@.len(),
                forall|k: int| 0 <= k < i ==> (#[trigger] self.records@[k]).id@ != pid@,
            decreases self.records@.len() - i,
        {
            if self.records[i].id == *pid {
                return Some(i);
            }
            i += 1;
        }
        None
    }

    /// A record for `pid` holding every registered default and an unknown identity.
    fn default_record(&self, pid: &String) -> (r: ChatPerformance)
        requires
            self.wf(),
            !metric_log_mentions(self.metric_log@, pid@),
            !metadata_log_mentions(self.metadata_log@, pid@),
        ensures
            r.id@ == pid@,
            record_ok(self.registry, self.metric_log@, self.metadata_log@, r),
    {
        let mut metrics: Vec<(String, u64)> = Vec::new();
        let mut j: usize = 0;
        while j < self.registry.metrics.len()
            invariant
                j <= self.registry.metrics@.len(),
                metrics@.len() == j,
                forall|k: int|
                    0 <= k < j ==> (#[trigger] metrics@[k]).0@ == self.registry.metrics@[k].0@
                        && metrics@[k].1 == self.registry.metrics@[k].1,
            decreases self.registry.metrics@.len() - j,
        {
            let e = &self.registry.metrics[j];
            metrics.push((e.0.clone(), e.1));
            j += 1;
        }
        let mut metadata: Vec<(String, MetadataTypes)> = Vec::new();
        let mut j: usize = 0;
        while j < self.registry.metadata.len()
            invariant
                j <= self.registry.metadata@.len(),
                metadata@.len() == j,
                forall|k: int|
                    0 <= k < j ==> (#[trigger] metadata@[k]).0@ == self.registry.metadata@[k].0@
                        && metadata@[k].1@ == self.registry.metadata@[k].1@,
            decreases self.registry.metadata@.len() - j,
        {
            let e = &self.registry.metadata[j];
            metadata.push((e.0.clone(), e.1.duplicate()));
            j += 1;
        }
        let r = ChatPerformance {
            id: pid.clone(),
            perf_type: PerformanceType::Unknown,
            username: String::new(),
            avatar: String::new(),
            metrics,
            metadata,
        };
        proof {
            assert forall|k: int| 0 <= k < self.metric_log@.len() implies (
            #[trigger] self.metric_log@[k]).1 != pid@ by {}
            assert forall|k: int| 0 <= k < self.metadata_log@.len() implies (
            #[trigger] self.metadata_log@[k]).1 != pid@ by {}
            assert forall|j: int| 0 <= j < r.metrics@.len() implies metric_sum(
                self.metric_log@,
                self.registry.metrics@[j].0@,
                pid@,
            ) == 0 by {
                lemma_unmentioned_metric(self.metric_log@, self.registry.metrics@[j].0@, pid@);
            }
            assert forall|k: int| 0 <= k < r.metadata@.len() implies last_metadata(
                self.metadata_log@,
                self.registry.metadata@[k].0@,
                pid@,
            ) is None by {
                lemma_unmentioned_metadata(
                    self.metadata_log@,
                    self.registry.metadata@[k].0@,
                    pid@,
                );
            }
            lemma_unmentioned_metadata(self.metadata_log@, basic_info_name(), pid@);
        }
        r
    }

    /// Position of the record of `pid`, created with defaults where it was missing.
    pub fn get_performance_or_default(&mut self, pid: &String) -> (r: usize)
        requires
            old(self).wf(),
        ensures
            final(self).wf(),
            r < final(self).records@.len(),
            final(self).records@[r as int].id@ == pid@,
            final(self).registry == old(self).registry,
            final(self).metric_log == old(self).metric_log,
            final(self).metadata_log == old(self).metadata_log,
            has_record(old(self).records@, pid@) ==> final(self).records == old(self).records,
            !has_record(old(self).records@, pid@) ==> final(self).records@.len() == old(
                self,
            ).records@.len() + 1 && final(self).records@.take(old(self).records@.len() as int)
                == old(self).records@,
    {
        match self.find_record(pid) {
            Some(i) => i,
            None => {
                proof {
                    if metric_log_mentions(self.metric_log@, pid@) {
                        let k = choose|k: int|
                            0 <= k < self.metric_log@.len() && (#[trigger] self.metric_log@[k]).1
                                == pid@;
                        assert(has_record(self.records@, self.metric_log@[k].1));
                    }
                    if metadata_log_mentions(self.metadata_log@, pid@) {
                        let k = choose|k: int|
                            0 <= k < self.metadata_log@.len() && (
                            #[trigger] self.metadata_log@[k]).1 == pid@;
                        assert(has_record(self.records@, self.metadata_log@[k].1));
                    }
                }
                let r = self.default_record(pid);
                let ghost old_recs = self.records@;
                self.records.push(r);
                let n = self.records.len() - 1;
                proof {
                    let recs = self.records@;
                    assert(recs.take(old_recs.len() as int) =~= old_recs);
                    assert forall|k: int| 0 <= k < self.metric_log@.len() implies has_record(
                        recs,
                        (#[trigger] self.metric_log@[k]).1,
                    ) by {
                        let i = choose|i: int|
                            0 <= i < old_recs.len() && (#[trigger] old_recs[i]).id@
                                == self.metric_log@[k].1;
                        assert(recs[i] == old_recs[i]);
                    }
                    assert forall|k: int| 0 <= k < self.metadata_log@.len() implies has_record(
                        recs,
                        (#[trigger] self.metadata_log@[k]).1,
                    ) by {
                        let i = choose|i: int|
                            0 <= i < old_recs.len() && (#[trigger] old_recs[i]).id@
                                == self.metadata_log@[k].1;
                        assert(recs[i] == old_recs[i]);
                    }
                    assert(recs[n as int].id@ == pid@);
                }
                n
            },
        }
    }

    /// Adds `amount` to metric `name` of participant `pid`, creating the record
    /// where it is missing. An unregistered name only creates the record.
    pub fn apply_metric_entry(&mut self, name: &String, pid: &String, amount: u64) -> (r: Result<
        (),
        AggregateError,
    >)
        requires
            old(self).wf(),
        ensures
            final(self).wf(),
            final(self).registry == old(self).registry,
            final(self).metadata_log == old(self).metadata_log,
            r is Ok ==> final(self).metric_log@ == old(self).metric_log@.push(
                (name@, pid@, amount as nat),
            ),
            r is Err ==> final(self).metric_log == old(self).metric_log,
            r is Ok && old(self).mentioned() ==> final(self).mentioned(),
            r is Err <==> exists|j: int|
                0 <= j < old(self).registry.metrics@.len() && (#[trigger] old(
                    self,
                ).registry.metrics@[j]).0@ == name@ && old(self).registry.metrics@[j].1
                    + metric_sum(old(self).metric_log@, name@, pid@) + amount > u64::MAX,
    {
        let ghost start = self.records@;
        let i = self.get_performance_or_default(pid);
        let ghost recs0 = self.records@;
        let ghost mlog0 = self.metric_log@;
        let ghost reg = self.registry;
        let ghost dlog = self.metadata_log@;
        let found = name_index(&self.records[i].metrics, name);
        let ghost e = (name@, pid@, amount as nat);
        let ghost mlog1 = mlog0.push(e);
        assert(mlog1.drop_last() =~= mlog0);
        assert(record_ok(reg, mlog0, dlog, recs0[i as int]));
        if let Some(j) = found {
            let cur = self.records[i].metrics[j].1;
            match cur.checked_add(amount) {
                None => {
                    return Err(AggregateError::Overflow);
                },
                Some(v) => {
                    self.records[i].metrics[j].1 = v;
                },
            }
        }
        self.metric_log = Ghost(mlog1);
        proof {
            let recs = self.records@;
            assert forall|a: int| 0 <= a < recs.len() implies record_ok(
                reg,
                mlog1,
                dlog,
                #[trigger] recs[a],
            ) by {
                assert(record_ok(reg, mlog0, dlog, recs0[a]));
                assert forall|b: int| 0 <= b < recs[a].metrics@.len() implies (
                #[trigger] recs[a].metrics@[b]).0@ == reg.metrics@[b].0@ && recs[a].metrics@[b].1
                    == reg.metrics@[b].1 + metric_sum(mlog1, reg.metrics@[b].0@, recs[a].id@) by {
                    assert(recs0[a].metrics@[b].0@ == reg.metrics@[b].0@);
                    if a != i {
                        assert(recs0[a].id@ != recs0[i as int].id@);
                    } else if found is Some && b == found->0 {
                    } else if found is Some {
                        assert(reg.metrics@[b].0@ != reg.metrics@[found->0 as int].0@);
                    } else {
                        assert(recs0[i as int].metrics@[b].0@ != name@);
                    }
                }
            }
            assert forall|k: int| 0 <= k < mlog1.len() implies has_record(
                recs,
                (#[trigger] mlog1[k]).1,
            ) by {
                if k < mlog0.len() {
                    assert(mlog1[k] == mlog0[k]);
                    let w = choose|w: int| 0 <= w < recs0.len() && (#[trigger] recs0[w]).id@ == mlog0[k].1;
                    assert(recs[w].id == recs0[w].id);
                } else {
                    assert(recs[i as int].id@ == pid@);
                }
            }
            assert forall|k: int| 0 <= k < dlog.len() implies has_record(
                recs,
                (#[trigger] dlog[k]).1,
            ) by {
                let w = choose|w: int| 0 <= w < recs0.len() && (#[trigger] recs0[w]).id@ == dlog[k].1;
                assert(recs[w].id == recs0[w].id);
            }
            assert forall|a: int, b: int|
                0 <= a < recs.len() && 0 <= b < recs.len() && a != b implies (#[trigger] recs[a]).id@
                    != (#[trigger] recs[b]).id@ by {
                assert(recs[a].id == recs0[a].id);
                assert(recs[b].id == recs0[b].id);
            }
            if exists|j: int|
                0 <= j < reg.metrics@.len() && (#[trigger] reg.metrics@[j]).0@ == name@
                    && reg.metrics@[j].1 + metric_sum(mlog0, name@, pid@) + amount > u64::MAX {
                let j = choose|j: int|
                    0 <= j < reg.metrics@.len() && (#[trigger] reg.metrics@[j]).0@ == name@
                        && reg.metrics@[j].1 + metric_sum(mlog0, name@, pid@) + amount > u64::MAX;
                assert(recs0[i as int].metrics@[j].0@ == name@);
                assert(j == found->0);
            }
            if old(self).mentioned() {
                assert(mlog1.take(mlog0.len() as int) =~= mlog0);
                assert(dlog.take(dlog.len() as int) =~= dlog);
                assert forall|a: int| start.len() <= a < recs.len() implies metric_log_mentions(
                    mlog1,
                    (#[trigger] recs[a]).id@,
                ) || metadata_log_mentions(dlog, recs[a].id@) by {
                    if has_record(start, pid@) {
                    } else {
                        if i < start.len() {
                            assert(recs0.take(start.len() as int)[i as int] == start[i as int]);
                        }
                        assert(recs[a].id == recs0[a].id);
                        assert(mlog1[mlog0.len() as int].1 == pid@);
                    }
                }
                assert forall|a: int| 0 <= a < start.len() implies (#[trigger] recs[a]).id == start[a].id by {
                    assert(recs[a].id == recs0[a].id);
                    assert(recs0.take(start.len() as int)[a] == start[a]);
                }
                lemma_still_mentioned(start, recs, mlog0, mlog1, dlog, dlog);
            }
        }
        Ok(())
    }

    /// Applies one attribute update to participant `pid`, creating the record
    /// where it is missing. The reserved identity name sets display name,
    /// avatar and kind instead; any other name overwrites that attribute.
    pub fn apply_metadata_entry(&mut self, name: &String, pid: &String, value: MetadataTypes)
        requires
            old(self).wf(),
        ensures
            final(self).wf(),
            final(self).registry == old(self).registry,
            final(self).metric_log == old(self).metric_log,
            final(self).metadata_log@ == old(self).metadata_log@.push((name@, pid@, value@)),
            old(self).mentioned() ==> final(self).mentioned(),
    {
        let ghost start = self.records@;
        let i = self.get_performance_or_default(pid);
        let ghost recs0 = self.records@;
        let ghost dlog0 = self.metadata_log@;
        let ghost reg = self.registry;
        let ghost mlog = self.metric_log@;
        let ghost e = (name@, pid@, value@);
        let ghost dlog1 = dlog0.push(e);
        assert(dlog1.drop_last() =~= dlog0);
        assert(record_ok(reg, mlog, dlog0, recs0[i as int]));
        let reserved = is_basic_info(name);
        let mut found: Option<usize> = None;
        if reserved {
            match value.get_basic_info() {
                Some((username, avatar, perf_type)) => {
                    self.records[i].username = username;
                    self.records[i].avatar = avatar;
                    self.records[i].perf_type = perf_type;
                },
                None => {
                    self.records[i].username = String::new();
                    self.records[i].avatar = String::new();
                    self.records[i].perf_type = PerformanceType::Unknown;
                },
            }
        } else {
            found = name_index(&self.records[i].metadata, name);
            if let Some(k) = found {
                self.records[i].metadata[k].1 = value;
            }
        }
        self.metadata_log = Ghost(dlog1);
        proof {
            let recs = self.records@;
            assert forall|a: int| 0 <= a < recs.len() implies record_ok(
                reg,
                mlog,
                dlog1,
                #[trigger] recs[a],
            ) by {
                assert(record_ok(reg, mlog, dlog0, recs0[a]));
                if a != i {
                    assert(recs0[a].id@ != recs0[i as int].id@);
                    assert(recs[a] == recs0[a]);
                }
                assert forall|b: int| 0 <= b < recs[a].metadata@.len() implies (
                #[trigger] recs[a].metadata@[b]).0@ == reg.metadata@[b].0@ && recs[a].metadata@[b].1@
                    == metadata_value(dlog1, reg.metadata@[b].0@, recs[a].id@, reg.metadata@[b].1@) by {
                    assert(recs0[a].metadata@[b].0@ == reg.metadata@[b].0@);
                    if a == i && !reserved {
                        if found is Some && b == found->0 {
                        } else if found is Some {
                            assert(reg.metadata@[b].0@ != reg.metadata@[found->0 as int].0@);
                        } else {
                            assert(recs0[i as int].metadata@[b].0@ != name@);
                        }
                    }
                }
                assert forall|b: int| 0 <= b < recs[a].metrics@.len() implies (
                #[trigger] recs[a].metrics@[b]).0@ == reg.metrics@[b].0@ && recs[a].metrics@[b].1
                    == reg.metrics@[b].1 + metric_sum(mlog, reg.metrics@[b].0@, recs[a].id@) by {
                    assert(recs0[a].metrics@[b] == recs[a].metrics@[b]);
                }
            }
            assert forall|k: int| 0 <= k < dlog1.len() implies has_record(
                recs,
                (#[trigger] dlog1[k]).1,
            ) by {
                if k < dlog0.len() {
                    assert(dlog1[k] == dlog0[k]);
                    let w = choose|w: int| 0 <= w < recs0.len() && (#[trigger] recs0[w]).id@ == dlog0[k].1;
                    assert(recs[w].id == recs0[w].id);
                } else {
                    assert(recs[i as int].id@ == pid@);
                }
            }
            assert forall|k: int| 0 <= k < mlog.len() implies has_record(
                recs,
                (#[trigger] mlog[k]).1,
            ) by {
                let w = choose|w: int| 0 <= w < recs0.len() && (#[trigger] recs0[w]).id@ == mlog[k].1;
                assert(recs[w].id == recs0[w].id);
            }
            assert forall|a: int, b: int|
                0 <= a < recs.len() && 0 <= b < recs.len() && a != b implies (#[trigger] recs[a]).id@
                    != (#[trigger] recs[b]).id@ by {
                assert(recs[a].id == recs0[a].id);
                assert(recs[b].id == recs0[b].id);
            }
            if old(self).mentioned() {
                assert(dlog1.take(dlog0.len() as int) =~= dlog0);
                assert(mlog.take(mlog.len() as int) =~= mlog);
                assert forall|a: int| start.len() <= a < recs.len() implies metric_log_mentions(
                    mlog,
                    (#[trigger] recs[a]).id@,
                ) || metadata_log_mentions(dlog1, recs[a].id@) by {
                    if has_record(start, pid@) {
                    } else {
                        if i < start.len() {
                            assert(recs0.take(start.len() as int)[i as int] == start[i as int]);
                        }
                        assert(recs[a].id == recs0[a].id);
                        assert(dlog1[dlog0.len() as int].1 == pid@);
                    }
                }
                assert forall|a: int| 0 <= a < start.len() implies (#[trigger] recs[a]).id == start[a].id by {
                    assert(recs[a].id == recs0[a].id);
                    assert(recs0.take(start.len() as int)[a] == start[a]);
                }
                lemma_still_mentioned(start, recs, mlog, mlog, dlog0, dlog1);
            }
        }
    }

    /// Applies each contribution of `update` in order; stops at the first one
    /// that would take a metric past 64 bits.
    pub fn apply_metric_update(&mut self, update: &MetricUpdate) -> (r: Result<(), AggregateError>)
        requires
            old(self).wf(),
        ensures
            final(self).wf(),
            final(self).registry == old(self).registry,
            final(self).metadata_log == old(self).metadata_log,
            r is Ok ==> final(self).metric_log@ == old(self).metric_log@ + metric_entries(*update),
            r is Ok && old(self).mentioned() ==> final(self).mentioned(),
            r is Err ==> exists|n: int|
                0 <= n < update.updates@.len() && final(self).metric_log@ == old(self).metric_log@
                    + metric_entries(*update).take(n) && overflows_at(
                    final(self).registry,
                    final(self).metric_log@,
                    #[trigger] metric_entries(*update)[n],
                ),
    {
        let ghost ents = metric_entries(*update);
        assert(ents.len() == update.updates@.len());
        let mut i: usize = 0;
        while i < update.updates.len()
            invariant
                self.wf(),
                i <= update.updates@.len(),
                self.registry == old(self).registry,
                self.metadata_log == old(self).metadata_log,
                self.metric_log@ == old(self).metric_log@ + ents.take(i as int),
                old(self).mentioned() ==> self.mentioned(),
                ents == metric_entries(*update),
                ents.len() == update.updates@.len(),
            decreases update.updates@.len() - i,
        {
            let ghost before = self.metric_log@;
            let e = &update.updates[i];
            match self.apply_metric_entry(&update.metric_name, &e.0, e.1) {
                Err(err) => {
                    assert(ents[i as int] == (update.metric_name@, e.0@, e.1 as nat));
                    return Err(err);
                },
                Ok(()) => {},
            }
            assert(ents[i as int] == (update.metric_name@, e.0@, e.1 as nat));
            assert(ents.take(i + 1) =~= ents.take(i as int).push(ents[i as int]));
            assert(self.metric_log@ =~= old(self).metric_log@ + ents.take(i + 1));
            i += 1;
        }
        assert(ents.take(i as int) =~= ents);
        Ok(())
    }

    /// Applies each attribute update of `update` in order.
    pub fn apply_metadata_update(&mut self, update: &MetadataUpdate)
        requires
            old(self).wf(),
        ensures
            final(self).wf(),
            final(self).registry == old(self).registry,
            final(self).metric_log == old(self).metric_log,
            final(self).metadata_log@ == old(self).metadata_log@ + metadata_entries(*update),
            old(self).mentioned() ==> final(self).mentioned(),
    {
        let ghost ents = metadata_entries(*update);
        assert(ents.len() == update.updates@.len());
        let mut i: usize = 0;
        while i < update.updates.len()
            invariant
                self.wf(),
                i <= update.updates@.len(),
                self.registry == old(self).registry,
                self.metric_log == old(self).metric_log,
                self.metadata_log@ == old(self).metadata_log@ + ents.take(i as int),
                old(self).mentioned() ==> self.mentioned(),
                ents == metadata_entries(*update),
                ents.len() == update.updates@.len(),
            decreases update.updates@.len() - i,
        {
            let e = &update.updates[i];
            self.apply_metadata_entry(&update.metadata_name, &e.0, e.1.duplicate());
            assert(ents[i as int] == (update.metadata_name@, e.0@, e.1@));
            assert(ents.take(i + 1) =~= ents.take(i as int).push(ents[i as int]));
            assert(self.metadata_log@ =~= old(self).metadata_log@ + ents.take(i + 1));
            i += 1;
        }
        assert(ents.take(i as int) =~= ents);
    }
}

/// Merges every update, in the order given, into one record per participant.
/// Fails exactly when a metric total of some participant exceeds 64 bits.
pub fn aggregate(registry: Registry, updates: &Vec<Update>) -> (r: Result<
    Vec<ChatPerformance>,
    AggregateError,
>)
    requires
        registry.wf(),
    ensures
        r is Ok ==> records_ok(
            registry,
            all_metric_entries(updates@),
            all_metadata_entries(updates@),
            r->Ok_0@,
        ),
        r is Ok ==> records_mentioned(all_metric_entries(updates@), all_metadata_entries(updates@), r->Ok_0@),
        r is Err <==> total_overflows(registry, all_metric_entries(updates@)),
{
    let ghost us = updates@;
    let mut agg = Aggregator::new(registry);
    let mut i: usize = 0;
    assert(us.take(0).len() == 0);
    assert(agg.metric_log@ =~= all_metric_entries(us.take(0)));
    assert(agg.metadata_log@ =~= all_metadata_entries(us.take(0)));
    while i < updates.len()
        invariant
            agg.wf(),
            agg.mentioned(),
            agg.registry == registry,
            i <= us.len(),
            us == updates@,
            agg.metric_log@ == all_metric_entries(us.take(i as int)),
            agg.metadata_log@ == all_metadata_entries(us.take(i as int)),
        decreases us.len() - i,
    {
        assert(us.take(i + 1).drop_last() =~= us.take(i as int));
        match &updates[i] {
            Update::Metric(m) => {
                let ghost before = agg.metric_log@;
                match agg.apply_metric_update(m) {
                    Err(e) => {
                        proof {
                            let ents = metric_entries(*m);
                            let n = choose|n: int|
                                0 <= n < m.updates@.len() && agg.metric_log@ == before
                                    + ents.take(n) && overflows_at(
                                    registry,
                                    agg.metric_log@,
                                    #[trigger] metric_entries(*m)[n],
                                );
                            let l = agg.metric_log@;
                            let e = ents[n];
                            let full = all_metric_entries(us);
                            let upto = all_metric_entries(us.take(i + 1));
                            assert(upto == before + ents);
                            assert(l.push(e) =~= upto.take(l.len() as int + 1));
                            lemma_metric_entries_prefix(us, i + 1);
                            assert(full.take(l.len() as int + 1) =~= l.push(e));
                            assert(full.take(l.len() as int + 1).drop_last() =~= l);
                            lemma_sum_prefix(full, l.len() as int + 1, e.0, e.1);
                            assert(full[l.len() as int] == e);
                            let j = choose|j: int|
                                0 <= j < registry.metrics@.len() && (
                                #[trigger] registry.metrics@[j]).0@ == e.0 && registry.metrics@[j].1
                                    + metric_sum(l, e.0, e.1) + e.2 > u64::MAX;
                            assert(registry.metrics@[j].0@ == full[l.len() as int].0);
                        }
                        return Err(e);
                    },
                    Ok(()) => {},
                }
            },
            Update::Metadata(d) => {
                agg.apply_metadata_update(d);
            },
        }
        i += 1;
    }
    assert(us.take(i as int) =~= us);
    proof {
        let full = all_metric_entries(us);
        if total_overflows(registry, full) {
            let (k, j) = choose|k: int, j: int|
                0 <= k < full.len() && 0 <= j < registry.metrics@.len() && (
                #[trigger] registry.metrics@[j]).0@ == (#[trigger] full[k]).0 && registry.metrics@[j].1
                    + metric_sum(full, full[k].0, full[k].1) > u64::MAX;
            let recs = agg.records@;
            assert(has_record(recs, full[k].1));
            let w = choose|w: int| 0 <= w < recs.len() && (#[trigger] recs[w]).id@ == full[k].1;
            assert(record_ok(registry, full, all_metadata_entries(us), recs[w]));
            assert(recs[w].metrics@[j].1 <= u64::MAX);
        }
    }
    Ok(agg.records)
}

/// Whether `name` is the reserved identity attribute.
fn is_basic_info(name: &String) -> (r: bool)
    ensures
        r == (name@ == basic_info_name()),
{
    let reserved = String::from_str("basic_info");
    proof {
        reveal_strlit("basic_info");
        assert(reserved@ =~= basic_info_name());
    }
    *name == reserved
}

} // verus!
