use vstd::prelude::*;

verus! {

/// The gauges this exporter publishes.
#[derive(Debug, Clone, Copy, PartialEq, Eq, Structural, Hash)]
pub enum Metric {
    /// Billable milliseconds of a workflow, by owner, repository, workflow and host class.
    BillableMs,
    /// Actions minutes used by an organisation.
    OrgActionsTotalMinutesUsed,
    /// Actions minutes paid for by an organisation.
    OrgActionsTotalPaidMinutesUsed,
    /// Actions minutes included in an organisation's plan.
    OrgActionsIncludedMinutes,
    /// Actions minutes used by an organisation, by host class.
    OrgActionsMinutesUsedBreakdown,
    /// Packages bandwidth used by an organisation, in gigabytes.
    OrgPackagesTotalGigabytesBandwidthUsed,
    /// Packages bandwidth paid for by an organisation, in gigabytes.
    OrgPackagesTotalPaidGigabytesBandwidthUsed,
    /// Packages bandwidth included in an organisation's plan, in gigabytes.
    OrgPackagesIncludedGigabytesBandwidth,
    /// Days left in an organisation's billing cycle.
    OrgSharedStorageDaysLeftInBillingCycle,
    /// Paid shared storage estimated for the month.
    OrgSharedStorageEstimatedPaidStorageForMonth,
    /// Shared storage estimated for the month.
    OrgSharedStorageEstimatedStorageForMonth,
}

/// Whether a metric is labelled by organisation.
pub open spec fn is_org_metric(m: Metric) -> bool {
    m != Metric::BillableMs
}

/// A series and the value to set it to: the metric, its label values in the
/// metric's label order, and the value.
pub struct GaugeUpdate<V> {
    pub metric: Metric,
    pub labels: Vec<String>,
    pub value: V,
}

/// The label values as character sequences.
pub open spec fn labels_view(labels: Seq<String>) -> Seq<Seq<char>> {
    labels.map_values(|s: String| s@)
}

/// An update seen as metric, label values and value.
pub open spec fn update_view<V>(u: GaugeUpdate<V>) -> (Metric, Seq<Seq<char>>, V) {
    (u.metric, labels_view(u.labels@), u.value)
}

/// A sequence of updates seen through `update_view`.
pub open spec fn updates_view<V>(us: Seq<GaugeUpdate<V>>) -> Seq<(Metric, Seq<Seq<char>>, V)> {
    us.map_values(|u: GaugeUpdate<V>| update_view(u))
}

/// The single update of metric `m` on `labels`, when a value is present.
pub open spec fn optional_update<V>(m: Metric, labels: Seq<Seq<char>>, value: Option<V>) -> Seq<
    (Metric, Seq<Seq<char>>, V),
> {
    match value {
        Some(v) => seq![(m, labels, v)],
        None => Seq::empty(),
    }
}

/// Label values `[a]`.
pub fn labels1(a: &str) -> (r: Vec<String>)
    ensures
        labels_view(r@) == seq![a@],
{
    let mut r: Vec<String> = Vec::new();
    r.push(String::from_str(a));
    assert(labels_view(r@) =~= seq![a@]);
    r
}

/// Label values `[a, b]`.
pub fn labels2(a: &str, b: &str) -> (r: Vec<String>)
    ensures
        labels_view(r@) == seq![a@, b@],
{
    let mut r: Vec<String> = Vec::new();
    r.push(String::from_str(a));
    r.push(String::from_str(b));
    assert(labels_view(r@) =~= seq![a@, b@]);
    r
}

/// Label values `[a, b, c, d]`.
pub fn labels4(a: &str, b: &str, c: &str, d: &str) -> (r: Vec<String>)
    ensures
        labels_view(r@) == seq![a@, b@, c@, d@],
{
    let mut r: Vec<String> = Vec::new();
    r.push(String::from_str(a));
    r.push(String::from_str(b));
    r.push(String::from_str(c));
    r.push(String::from_str(d));
    assert(labels_view(r@) =~= seq![a@, b@, c@, d@]);
    r
}

/// Appends the update of metric `m` on `labels` to `out`.
pub fn push_update<V>(out: &mut Vec<GaugeUpdate<V>>, metric: Metric, labels: Vec<String>, value: V)
    ensures
        updates_view(final(out)@) == updates_view(old(out)@).push((metric, labels_view(labels@), value)),
{
    out.push(GaugeUpdate { metric, labels, value });
    assert(updates_view(final(out)@) =~= updates_view(old(out)@).push((metric, labels_view(labels@), value)));
}

/// A series: a metric and its label values.
pub type SeriesKey = (Metric, Seq<Seq<char>>);

/// The gauges after setting each update's series to its value, in order:
/// the last value set for a series wins, and series that no update names
/// keep their value.
pub open spec fn apply_updates<V>(gauges: Map<SeriesKey, V>, us: Seq<(Metric, Seq<Seq<char>>, V)>) -> Map<
    SeriesKey,
    V,
>
    decreases us.len(),
{
    if us.len() == 0 {
        gauges
    } else {
        let u = us.last();
        apply_updates(gauges, us.drop_last()).insert((u.0, u.1), u.2)
    }
}

/// A series that no update names keeps its value, or stays absent.
pub proof fn lemma_apply_untouched<V>(
    gauges: Map<SeriesKey, V>,
    us: Seq<(Metric, Seq<Seq<char>>, V)>,
    key: SeriesKey,
)
    requires
        forall|k: int| 0 <= k < us.len() ==> ((#[trigger] us[k]).0, us[k].1) != key,
    ensures
        apply_updates(gauges, us).contains_key(key) == gauges.contains_key(key),
        gauges.contains_key(key) ==> apply_updates(gauges, us)[key] == gauges[key],
    decreases us.len(),
{
    if us.len() > 0 {
        let init = us.drop_last();
        assert forall|k: int| 0 <= k < init.len() implies ((#[trigger] init[k]).0, init[k].1) != key by {
            assert(init[k] == us[k]);
        }
        assert(us.last() == us[us.len() - 1]);
        lemma_apply_untouched(gauges, init, key);
    }
}

} // verus!
