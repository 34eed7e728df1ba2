use vstd::prelude::*;
use crate::aggregator::{
    all_metadata_entries, all_metric_entries, basic_info_name, has_record, last_metadata,
    metadata_log_mentions, metric_log_mentions, metric_sum, record_ok, records_ok,
    ChatPerformance, MetadataEntry, MetricEntry, Registry, Update,
};
use crate::leaderboards::{
    first_named, has_special_role, merged, metric_or_zero, metrics_total, special_role_key,
    CopypastaLeaders, LeaderboardError, LeaderboardInnerState, NonVIPS, Overall,
};
use crate::processor::aggregation_of;
use crate::types::MetadataView;

verus! {

/// Selects the history entries of metric `n`.
pub open spec fn metric_named(n: Seq<char>) -> spec_fn(MetricEntry) -> bool {
    |e: MetricEntry| e.0 == n
}

/// Selects the history entries of attribute `n`.
pub open spec fn metadata_named(n: Seq<char>) -> spec_fn(MetadataEntry) -> bool {
    |e: MetadataEntry| e.0 == n
}

/// The total of a metric only depends on that metric's own contributions.
pub proof fn lemma_sum_of_own_entries(log: Seq<MetricEntry>, n: Seq<char>, p: Seq<char>)
    ensures
        metric_sum(log, n, p) == metric_sum(log.filter(metric_named(n)), n, p),
    decreases log.len(),
{
    reveal(Seq::filter);
    if log.len() > 0 {
        lemma_sum_of_own_entries(log.drop_last(), n, p);
        let f = log.drop_last().filter(metric_named(n));
        assert(f.push(log.last()).drop_last() =~= f);
    }
}

/// The last value of an attribute only depends on that attribute's own updates.
pub proof fn lemma_last_of_own_entries(log: Seq<MetadataEntry>, n: Seq<char>, p: Seq<char>)
    ensures
        last_metadata(log, n, p) == last_metadata(log.filter(metadata_named(n)), n, p),
    decreases log.len(),
{
    reveal(Seq::filter);
    if log.len() > 0 {
        lemma_last_of_own_entries(log.drop_last(), n, p);
        let f = log.drop_last().filter(metadata_named(n));
        assert(f.push(log.last()).drop_last() =~= f);
    }
}

/// A participant's accumulated value of a registered metric is the metric's
/// default plus the sum of the contributions that the metric's own component
/// made for that participant. Two interleavings of the updates in which that
/// component's contributions come in the same order give the same value.
pub proof fn law_metric_is_sum_of_own_contributions(
    reg: Registry,
    us1: Seq<Update>,
    us2: Seq<Update>,
    recs1: Seq<ChatPerformance>,
    recs2: Seq<ChatPerformance>,
    i1: int,
    i2: int,
    j: int,
)
    requires
        records_ok(reg, all_metric_entries(us1), all_metadata_entries(us1), recs1),
        records_ok(reg, all_metric_entries(us2), all_metadata_entries(us2), recs2),
        0 <= j < reg.metrics@.len(),
        all_metric_entries(us1).filter(metric_named(reg.metrics@[j].0@)) == all_metric_entries(
            us2,
        ).filter(metric_named(reg.metrics@[j].0@)),
        0 <= i1 < recs1.len(),
        0 <= i2 < recs2.len(),
        recs1[i1].id@ == recs2[i2].id@,
    ensures
        recs1[i1].metrics@[j].1 == reg.metrics@[j].1 + metric_sum(
            all_metric_entries(us1).filter(metric_named(reg.metrics@[j].0@)),
            reg.metrics@[j].0@,
            recs1[i1].id@,
        ),
        recs1[i1].metrics@[j].1 == recs2[i2].metrics@[j].1,
{
    let n = reg.metrics@[j].0@;
    let p = recs1[i1].id@;
    assert(record_ok(reg, all_metric_entries(us1), all_metadata_entries(us1), recs1[i1]));
    assert(record_ok(reg, all_metric_entries(us2), all_metadata_entries(us2), recs2[i2]));
    assert(recs1[i1].metrics@[j].0@ == n);
    assert(recs2[i2].metrics@[j].0@ == n);
    lemma_sum_of_own_entries(all_metric_entries(us1), n, p);
    lemma_sum_of_own_entries(all_metric_entries(us2), n, p);
}

/// A participant's value of a registered attribute other than the reserved
/// identity one is the value of the last update that the attribute's own
/// component made for that participant, or the default where it made none.
/// Two interleavings in which that component's updates come in the same order
/// give the same value.
pub proof fn law_metadata_last_write_wins(
    reg: Registry,
    us1: Seq<Update>,
    us2: Seq<Update>,
    recs1: Seq<ChatPerformance>,
    recs2: Seq<ChatPerformance>,
    i1: int,
    i2: int,
    k: int,
)
    requires
        records_ok(reg, all_metric_entries(us1), all_metadata_entries(us1), recs1),
        records_ok(reg, all_metric_entries(us2), all_metadata_entries(us2), recs2),
        0 <= k < reg.metadata@.len(),
        reg.metadata@[k].0@ != basic_info_name(),
        all_metadata_entries(us1).filter(metadata_named(reg.metadata@[k].0@))
            == all_metadata_entries(us2).filter(metadata_named(reg.metadata@[k].0@)),
        0 <= i1 < recs1.len(),
        0 <= i2 < recs2.len(),
        recs1[i1].id@ == recs2[i2].id@,
    ensures
        recs1[i1].metadata@[k].1@ == match last_metadata(
            all_metadata_entries(us1).filter(metadata_named(reg.metadata@[k].0@)),
            reg.metadata@[k].0@,
            recs1[i1].id@,
        ) {
            Some(v) => v,
            None => reg.metadata@[k].1@,
        },
        recs1[i1].metadata@[k].1@ == recs2[i2].metadata@[k].1@,
{
    let n = reg.metadata@[k].0@;
    let p = recs1[i1].id@;
    assert(record_ok(reg, all_metric_entries(us1), all_metadata_entries(us1), recs1[i1]));
    assert(record_ok(reg, all_metric_entries(us2), all_metadata_entries(us2), recs2[i2]));
    assert(recs1[i1].metadata@[k].0@ == n);
    assert(recs2[i2].metadata@[k].0@ == n);
    lemma_last_of_own_entries(all_metadata_entries(us1), n, p);
    lemma_last_of_own_entries(all_metadata_entries(us2), n, p);
}

/// Every participant that some update mentions has a record, and that record
/// holds a value for every registered metric and attribute.
pub proof fn law_referenced_participants_have_complete_records(
    reg: Registry,
    us: Seq<Update>,
    recs: Seq<ChatPerformance>,
    pid: Seq<char>,
)
    requires
        records_ok(reg, all_metric_entries(us), all_metadata_entries(us), recs),
        metric_log_mentions(all_metric_entries(us), pid) || metadata_log_mentions(
            all_metadata_entries(us),
            pid,
        ),
    ensures
        exists|i: int|
            0 <= i < recs.len() && (#[trigger] recs[i]).id@ == pid && recs[i].metrics@.len()
                == reg.metrics@.len() && recs[i].metadata@.len() == reg.metadata@.len() && (forall|j: int|
                0 <= j < reg.metrics@.len() ==> (#[trigger] recs[i].metrics@[j]).0@ == reg.metrics@[j].0@)
                && (forall|k: int|
                0 <= k < reg.metadata@.len() ==> (#[trigger] recs[i].metadata@[k]).0@
                    == reg.metadata@[k].0@),
{
    let ml = all_metric_entries(us);
    let dl = all_metadata_entries(us);
    if metric_log_mentions(ml, pid) {
        let k = choose|k: int| 0 <= k < ml.len() && (#[trigger] ml[k]).1 == pid;
        assert(has_record(recs, ml[k].1));
    } else {
        let k = choose|k: int| 0 <= k < dl.len() && (#[trigger] dl[k]).1 == pid;
        assert(has_record(recs, dl[k].1));
    }
    let i = choose|i: int| 0 <= i < recs.len() && (#[trigger] recs[i]).id@ == pid;
    assert(record_ok(reg, ml, dl, recs[i]));
}

/// Two records hold the same values.
pub open spec fn same_record(a: ChatPerformance, b: ChatPerformance) -> bool {
    &&& a.id@ == b.id@
    &&& a.perf_type == b.perf_type
    &&& a.username@ == b.username@
    &&& a.avatar@ == b.avatar@
    &&& a.metrics@.len() == b.metrics@.len()
    &&& forall|j: int|
        0 <= j < a.metrics@.len() ==> (#[trigger] a.metrics@[j]).0@ == b.metrics@[j].0@
            && a.metrics@[j].1 == b.metrics@[j].1
    &&& a.metadata@.len() == b.metadata@.len()
    &&& forall|k: int|
        0 <= k < a.metadata@.len() ==> (#[trigger] a.metadata@[k]).0@ == b.metadata@[k].0@
            && a.metadata@[k].1@ == b.metadata@[k].1@
}

proof fn lemma_total_same(a: Seq<(String, u64)>, b: Seq<(String, u64)>)
    requires
        a.len() == b.len(),
        forall|j: int| 0 <= j < a.len() ==> (#[trigger] a[j]).1 == b[j].1,
    ensures
        metrics_total(a) == metrics_total(b),
    decreases a.len(),
{
    if a.len() > 0 {
        lemma_total_same(a.drop_last(), b.drop_last());
    }
}

proof fn lemma_metric_or_zero_same(a: Seq<(String, u64)>, b: Seq<(String, u64)>, n: Seq<char>)
    requires
        a.len() == b.len(),
        forall|j: int| 0 <= j < a.len() ==> (#[trigger] a[j]).0@ == b[j].0@ && a[j].1 == b[j].1,
    ensures
        metric_or_zero(a, n) == metric_or_zero(b, n),
{
    if exists|k: int| 0 <= k < a.len() && (#[trigger] a[k]).0@ == n {
        let k0 = choose|k: int| 0 <= k < a.len() && (#[trigger] a[k]).0@ == n;
        assert(b[k0].0@ == n);
        lemma_first_exists(a, n);
        lemma_first_exists(b, n);
        let ka = first_named(a, n);
        let kb = first_named(b, n);
        if ka < kb {
            assert(b[ka].0@ != n);
        } else if kb < ka {
            assert(a[kb].0@ != n);
        }
    } else {
        assert forall|k: int| 0 <= k < b.len() implies (#[trigger] b[k]).0@ != n by {
            assert(a[k].0@ != n);
        }
    }
}

proof fn lemma_first_exists<V>(s: Seq<(String, V)>, n: Seq<char>)
    requires
        exists|k: int| 0 <= k < s.len() && (#[trigger] s[k]).0@ == n,
    ensures
        exists|k: int|
            0 <= k < s.len() && (#[trigger] s[k]).0@ == n && forall|j: int|
                0 <= j < k ==> (#[trigger] s[j]).0@ != n,
    decreases s.len(),
{
    let k0 = choose|k: int| 0 <= k < s.len() && (#[trigger] s[k]).0@ == n;
    if k0 > 0 && exists|k: int| 0 <= k < k0 && (#[trigger] s[k]).0@ == n {
        let t = s.take(k0);
        assert(exists|k: int| 0 <= k < t.len() && (#[trigger] t[k]).0@ == n) by {
            let k1 = choose|k: int| 0 <= k < k0 && (#[trigger] s[k]).0@ == n;
            assert(t[k1] == s[k1]);
        }
        lemma_first_exists(t, n);
        let k2 = choose|k: int|
            0 <= k < t.len() && (#[trigger] t[k]).0@ == n && forall|j: int|
                0 <= j < k ==> (#[trigger] t[j]).0@ != n;
        assert(s[k2] == t[k2]);
        assert forall|j: int| 0 <= j < k2 implies (#[trigger] s[j]).0@ != n by {
            assert(s[j] == t[j]);
        }
    } else {
        assert forall|j: int| 0 <= j < k0 implies (#[trigger] s[j]).0@ != n by {}
    }
}

proof fn lemma_special_role_same(a: ChatPerformance, b: ChatPerformance)
    requires
        same_record(a, b),
    ensures
        has_special_role(a.metadata@) == has_special_role(b.metadata@),
{
    let sa = a.metadata@;
    let sb = b.metadata@;
    if has_special_role(sa) {
        let k = choose|k: int|
            0 <= k < sa.len() && (#[trigger] sa[k]).0@ == special_role_key() && (forall|j: int|
                0 <= j < k ==> (#[trigger] sa[j]).0@ != special_role_key()) && sa[k].1@
                == MetadataView::Bool(true);
        assert(sb[k].0@ == special_role_key());
        assert forall|j: int| 0 <= j < k implies (#[trigger] sb[j]).0@ != special_role_key() by {
            assert(sa[j].0@ == sb[j].0@);
        }
    }
    if has_special_role(sb) {
        let k = choose|k: int|
            0 <= k < sb.len() && (#[trigger] sb[k]).0@ == special_role_key() && (forall|j: int|
                0 <= j < k ==> (#[trigger] sb[j]).0@ != special_role_key()) && sb[k].1@
                == MetadataView::Bool(true);
        assert(sa[k].0@ == special_role_key());
        assert forall|j: int| 0 <= j < k implies (#[trigger] sa[j]).0@ != special_role_key() by {
            assert(sa[j].0@ == sb[j].0@);
        }
    }
}

/// Two records that hold the same values get the same score on every leaderboard.
pub proof fn lemma_same_scores(a: ChatPerformance, b: ChatPerformance)
    requires
        same_record(a, b),
    ensures
        Overall::score_spec(a) == Overall::score_spec(b),
        NonVIPS::score_spec(a) == NonVIPS::score_spec(b),
        CopypastaLeaders::score_spec(a) == CopypastaLeaders::score_spec(b),
{
    lemma_total_same(a.metrics@, b.metrics@);
    lemma_metric_or_zero_same(a.metrics@, b.metrics@, crate::leaderboards::copypasta_key());
    lemma_special_role_same(a, b);
}

/// Replaying the same updates twice gives the same participants with the same
/// records, and so the same score on every leaderboard.
pub proof fn law_replay_is_deterministic(
    reg: Registry,
    us: Seq<Update>,
    recs1: Seq<ChatPerformance>,
    recs2: Seq<ChatPerformance>,
    i1: int,
)
    requires
        aggregation_of(reg, us, recs1),
        aggregation_of(reg, us, recs2),
        0 <= i1 < recs1.len(),
    ensures
        exists|i2: int|
            0 <= i2 < recs2.len() && #[trigger] same_record(recs1[i1], recs2[i2])
                && Overall::score_spec(recs1[i1]) == Overall::score_spec(recs2[i2])
                && NonVIPS::score_spec(recs1[i1]) == NonVIPS::score_spec(recs2[i2])
                && CopypastaLeaders::score_spec(recs1[i1]) == CopypastaLeaders::score_spec(recs2[i2]),
{
    let ml = all_metric_entries(us);
    let dl = all_metadata_entries(us);
    let p = recs1[i1].id@;
    assert(metric_log_mentions(ml, p) || metadata_log_mentions(dl, p));
    if metric_log_mentions(ml, p) {
        let k = choose|k: int| 0 <= k < ml.len() && (#[trigger] ml[k]).1 == p;
        assert(has_record(recs2, ml[k].1));
    } else {
        let k = choose|k: int| 0 <= k < dl.len() && (#[trigger] dl[k]).1 == p;
        assert(has_record(recs2, dl[k].1));
    }
    let i2 = choose|i: int| 0 <= i < recs2.len() && (#[trigger] recs2[i]).id@ == p;
    let a = recs1[i1];
    let b = recs2[i2];
    assert(record_ok(reg, ml, dl, a));
    assert(record_ok(reg, ml, dl, b));
    assert forall|j: int| 0 <= j < a.metrics@.len() implies (#[trigger] a.metrics@[j]).0@
        == b.metrics@[j].0@ && a.metrics@[j].1 == b.metrics@[j].1 by {}
    assert forall|k: int| 0 <= k < a.metadata@.len() implies (#[trigger] a.metadata@[k]).0@
        == b.metadata@[k].0@ && a.metadata@[k].1@ == b.metadata@[k].1@ by {}
    assert(same_record(a, b));
    lemma_same_scores(a, b);
}

/// A record that a leaderboard excludes (no score) neither creates nor changes
/// any entry of that leaderboard's state.
pub proof fn law_excluded_record_leaves_state(
    before: Seq<LeaderboardInnerState>,
    after: Seq<LeaderboardInnerState>,
    perf: ChatPerformance,
    r: Result<(), LeaderboardError>,
)
    requires
        merged(before, after, perf, None, r),
    ensures
        after == before,
        r is Ok,
{
}

} // verus!
