use vstd::prelude::*;

use crate::metrics::{labels1, labels2, optional_update, push_update, updates_view, GaugeUpdate, Metric};
use crate::types::{host_label, HostClass};

verus! {

/// Actions minutes used on each host class, where reported.
#[derive(Debug, Clone, Copy)]
pub struct MinutesUsedBreakdown<V> {
    pub ubuntu: Option<V>,
    pub macos: Option<V>,
    pub windows: Option<V>,
}

/// An organisation's Actions billing.
#[derive(Debug, Clone, Copy)]
pub struct ActionsBilling<V> {
    pub total_minutes_used: V,
    pub total_paid_minutes_used: V,
    pub included_minutes: V,
    pub minutes_used_breakdown: MinutesUsedBreakdown<V>,
}

/// An organisation's Packages billing.
#[derive(Debug, Clone, Copy)]
pub struct PackagesBilling<V> {
    pub total_gigabytes_bandwidth_used: V,
    pub total_paid_gigabytes_bandwidth_used: V,
    pub included_gigabytes_bandwidth: V,
}

/// An organisation's shared storage billing.
#[derive(Debug, Clone, Copy)]
pub struct SharedStorageBilling<V> {
    pub days_left_in_billing_cycle: V,
    pub estimated_paid_storage_for_month: V,
    pub estimated_storage_for_month: V,
}

/// The update of an organisation-labelled metric.
pub open spec fn org_update<V>(m: Metric, org: Seq<char>, v: V) -> (Metric, Seq<Seq<char>>, V) {
    (m, seq![org], v)
}

/// The breakdown update for one host class, if reported.
pub open spec fn breakdown_update<V>(org: Seq<char>, h: HostClass, v: Option<V>) -> Seq<
    (Metric, Seq<Seq<char>>, V),
> {
    optional_update(Metric::OrgActionsMinutesUsedBreakdown, seq![org, host_label(h)], v)
}

/// The updates of an Actions billing: the three totals, then the breakdown
/// of each reported host class in the order Ubuntu, macOS, Windows.
pub open spec fn actions_updates<V>(org: Seq<char>, a: ActionsBilling<V>) -> Seq<
    (Metric, Seq<Seq<char>>, V),
> {
    seq![
        org_update(Metric::OrgActionsTotalMinutesUsed, org, a.total_minutes_used),
        org_update(Metric::OrgActionsTotalPaidMinutesUsed, org, a.total_paid_minutes_used),
        org_update(Metric::OrgActionsIncludedMinutes, org, a.included_minutes),
    ] + breakdown_update(org, HostClass::Ubuntu, a.minutes_used_breakdown.ubuntu)
        + breakdown_update(org, HostClass::Macos, a.minutes_used_breakdown.macos)
        + breakdown_update(org, HostClass::Windows, a.minutes_used_breakdown.windows)
}

/// The updates of a Packages billing.
pub open spec fn packages_updates<V>(org: Seq<char>, p: PackagesBilling<V>) -> Seq<
    (Metric, Seq<Seq<char>>, V),
> {
    seq![
        org_update(Metric::OrgPackagesIncludedGigabytesBandwidth, org, p.included_gigabytes_bandwidth),
        org_update(Metric::OrgPackagesTotalGigabytesBandwidthUsed, org, p.total_gigabytes_bandwidth_used),
        org_update(
            Metric::OrgPackagesTotalPaidGigabytesBandwidthUsed,
            org,
            p.total_paid_gigabytes_bandwidth_used,
        ),
    ]
}

/// The updates of a shared storage billing.
pub open spec fn shared_storage_updates<V>(org: Seq<char>, s: SharedStorageBilling<V>) -> Seq<
    (Metric, Seq<Seq<char>>, V),
> {
    seq![
        org_update(Metric::OrgSharedStorageDaysLeftInBillingCycle, org, s.days_left_in_billing_cycle),
        org_update(
            Metric::OrgSharedStorageEstimatedPaidStorageForMonth,
            org,
            s.estimated_paid_storage_for_month,
        ),
        org_update(Metric::OrgSharedStorageEstimatedStorageForMonth, org, s.estimated_storage_for_month),
    ]
}

/// What an organisation's billing poll publishes: every category's updates
/// when all three fetches succeeded, nothing otherwise.
pub open spec fn org_billing_updates<V, E>(
    org: Seq<char>,
    a: Result<ActionsBilling<V>, E>,
    p: Result<PackagesBilling<V>, E>,
    s: Result<SharedStorageBilling<V>, E>,
) -> Option<Seq<(Metric, Seq<Seq<char>>, V)>> {
    match (a, p, s) {
        (Ok(a), Ok(p), Ok(s)) => Some(
            actions_updates(org, a) + packages_updates(org, p) + shared_storage_updates(org, s),
        ),
        _ => None,
    }
}

fn push_breakdown<V: Copy>(out: &mut Vec<GaugeUpdate<V>>, org: &str, h: HostClass, v: Option<V>)
    ensures
        updates_view(final(out)@) == updates_view(old(out)@) + breakdown_update(org@, h, v),
{
    match v {
        Some(m) => {
            let label = h.label();
            push_update(out, Metric::OrgActionsMinutesUsedBreakdown, labels2(org, label.as_str()), m);
        },
        None => {
            assert(updates_view(old(out)@) + breakdown_update(org@, h, v) =~= updates_view(old(out)@));
        },
    }
}

/// Appends the updates of an Actions billing to `out`.
pub fn set_metrics_actions_billing<V: Copy>(
    out: &mut Vec<GaugeUpdate<V>>,
    org: &str,
    actions_billing: &ActionsBilling<V>,
)
    ensures
        updates_view(final(out)@) == updates_view(old(out)@) + actions_updates(org@, *actions_billing),
{
    let ghost start = updates_view(out@);
    push_update(out, Metric::OrgActionsTotalMinutesUsed, labels1(org), actions_billing.total_minutes_used);
    push_update(
        out,
        Metric::OrgActionsTotalPaidMinutesUsed,
        labels1(org),
        actions_billing.total_paid_minutes_used,
    );
    push_update(out, Metric::OrgActionsIncludedMinutes, labels1(org), actions_billing.included_minutes);
    let b = actions_billing.minutes_used_breakdown;
    push_breakdown(out, org, HostClass::Ubuntu, b.ubuntu);
    push_breakdown(out, org, HostClass::Macos, b.macos);
    push_breakdown(out, org, HostClass::Windows, b.windows);
    assert(updates_view(out@) =~= start + actions_updates(org@, *actions_billing));
}

/// Appends the updates of a Packages billing to `out`.
pub fn set_metrics_packages_billing<V: Copy>(
    out: &mut Vec<GaugeUpdate<V>>,
    org: &str,
    packages_billing: &PackagesBilling<V>,
)
    ensures
        updates_view(final(out)@) == updates_view(old(out)@) + packages_updates(org@, *packages_billing),
{
    let ghost start = updates_view(out@);
    push_update(
        out,
        Metric::OrgPackagesIncludedGigabytesBandwidth,
        labels1(org),
        packages_billing.included_gigabytes_bandwidth,
    );
    push_update(
        out,
        Metric::OrgPackagesTotalGigabytesBandwidthUsed,
        labels1(org),
        packages_billing.total_gigabytes_bandwidth_used,
    );
    push_update(
        out,
        Metric::OrgPackagesTotalPaidGigabytesBandwidthUsed,
        labels1(org),
        packages_billing.total_paid_gigabytes_bandwidth_used,
    );
    assert(updates_view(out@) =~= start + packages_updates(org@, *packages_billing));
}

/// Appends the updates of a shared storage billing to `out`.
pub fn set_metrics_shared_storage_billing<V: Copy>(
    out: &mut Vec<GaugeUpdate<V>>,
    org: &str,
    shared_storage_billing: &SharedStorageBilling<V>,
)
    ensures
        updates_view(final(out)@) == updates_view(old(out)@) + shared_storage_updates(
            org@,
            *shared_storage_billing,
        ),
{
    let ghost start = updates_view(out@);
    push_update(
        out,
        Metric::OrgSharedStorageDaysLeftInBillingCycle,
        labels1(org),
        shared_storage_billing.days_left_in_billing_cycle,
    );
    push_update(
        out,
        Metric::OrgSharedStorageEstimatedPaidStorageForMonth,
        labels1(org),
        shared_storage_billing.estimated_paid_storage_for_month,
    );
    push_update(
        out,
        Metric::OrgSharedStorageEstimatedStorageForMonth,
        labels1(org),
        shared_storage_billing.estimated_storage_for_month,
    );
    assert(updates_view(out@) =~= start + shared_storage_updates(org@, *shared_storage_billing));
}

/// The updates of an organisation's billing poll from the outcomes of its
/// three fetches. The first failure, in the order Actions, Packages, shared
/// storage, is returned and nothing is published for the organisation.
pub fn poll_org_billing<V: Copy, E>(
    org: &str,
    actions: Result<ActionsBilling<V>, E>,
    packages: Result<PackagesBilling<V>, E>,
    shared_storage: Result<SharedStorageBilling<V>, E>,
) -> (r: Result<Vec<GaugeUpdate<V>>, E>)
    ensures
        r is Ok <==> (actions is Ok && packages is Ok && shared_storage is Ok),
        r matches Ok(us) ==> org_billing_updates(org@, actions, packages, shared_storage) == Some(
            updates_view(us@),
        ),
        r matches Err(e) ==> (match actions {
            Err(x) => e == x,
            Ok(_) => match packages {
                Err(x) => e == x,
                Ok(_) => shared_storage == Err::<SharedStorageBilling<V>, E>(e),
            },
        }),
{
    let a = match actions {
        Ok(a) => a,
        Err(e) => return Err(e),
    };
    let p = match packages {
        Ok(p) => p,
        Err(e) => return Err(e),
    };
    let s = match shared_storage {
        Ok(s) => s,
        Err(e) => return Err(e),
    };
    let mut out: Vec<GaugeUpdate<V>> = Vec::new();
    assert(updates_view(out@) =~= Seq::empty());
    set_metrics_actions_billing(&mut out, org, &a);
    set_metrics_packages_billing(&mut out, org, &p);
    set_metrics_shared_storage_billing(&mut out, org, &s);
    assert(updates_view(out@) =~= actions_updates(org@, a) + packages_updates(org@, p)
        + shared_storage_updates(org@, s));
    Ok(out)
}

/// All or nothing: when the three fetches succeed, each of the nine
/// organisation totals is published once, labelled by the organisation, and
/// the breakdown is published for exactly the reported host classes; when
/// any fetch fails, nothing is published for the organisation.
pub proof fn lemma_org_billing_all_or_nothing<V, E>(
    org: Seq<char>,
    a: Result<ActionsBilling<V>, E>,
    p: Result<PackagesBilling<V>, E>,
    s: Result<SharedStorageBilling<V>, E>,
)
    ensures
        org_billing_updates(org, a, p, s) is None <==> (a is Err || p is Err || s is Err),
        org_billing_updates(org, a, p, s) matches Some(us) ==> {
            &&& forall|m: Metric| is_single_org_metric(m) ==> #[trigger] has_series(us, m, seq![org])
            &&& all_labelled_by(us, org)
            &&& us.len() == 9 + breakdown_count(a->Ok_0.minutes_used_breakdown)
        },
{
    if let (Ok(x), Ok(y), Ok(z)) = (a, p, s) {
        let us = actions_updates(org, x) + packages_updates(org, y) + shared_storage_updates(org, z);
        let n = us.len() as int;
        let nb = breakdown_count(x.minutes_used_breakdown);
        assert(n == 9 + nb);
        assert(us[0].0 == Metric::OrgActionsTotalMinutesUsed);
        assert(us[1].0 == Metric::OrgActionsTotalPaidMinutesUsed);
        assert(us[2].0 == Metric::OrgActionsIncludedMinutes);
        assert(us[3 + nb].0 == Metric::OrgPackagesIncludedGigabytesBandwidth);
        assert(us[4 + nb].0 == Metric::OrgPackagesTotalGigabytesBandwidthUsed);
        assert(us[5 + nb].0 == Metric::OrgPackagesTotalPaidGigabytesBandwidthUsed);
        assert(us[6 + nb].0 == Metric::OrgSharedStorageDaysLeftInBillingCycle);
        assert(us[7 + nb].0 == Metric::OrgSharedStorageEstimatedPaidStorageForMonth);
        assert(us[8 + nb].0 == Metric::OrgSharedStorageEstimatedStorageForMonth);
        let bu = breakdown_update(org, HostClass::Ubuntu, x.minutes_used_breakdown.ubuntu);
        let bm = breakdown_update(org, HostClass::Macos, x.minutes_used_breakdown.macos);
        let bw = breakdown_update(org, HostClass::Windows, x.minutes_used_breakdown.windows);
        let head = seq![
            org_update(Metric::OrgActionsTotalMinutesUsed, org, x.total_minutes_used),
            org_update(Metric::OrgActionsTotalPaidMinutesUsed, org, x.total_paid_minutes_used),
            org_update(Metric::OrgActionsIncludedMinutes, org, x.included_minutes),
        ];
        assert(all_labelled_by(head, org));
        assert(all_labelled_by(bu, org));
        assert(all_labelled_by(bm, org));
        assert(all_labelled_by(bw, org));
        lemma_labelled_concat(head, bu, org);
        lemma_labelled_concat(head + bu, bm, org);
        lemma_labelled_concat(head + bu + bm, bw, org);
        assert(all_labelled_by(packages_updates(org, y), org));
        assert(all_labelled_by(shared_storage_updates(org, z), org));
        lemma_labelled_concat(actions_updates(org, x), packages_updates(org, y), org);
        lemma_labelled_concat(
            actions_updates(org, x) + packages_updates(org, y),
            shared_storage_updates(org, z),
            org,
        );
        assert(org_billing_updates(org, a, p, s) == Some(us));
        assert(all_labelled_by(us, org));
        assert forall|m: Metric| is_single_org_metric(m) implies #[trigger] has_series(us, m, seq![org]) by {
            match m {
                Metric::OrgActionsTotalMinutesUsed => assert(us[0].1 == seq![org]),
                Metric::OrgActionsTotalPaidMinutesUsed => assert(us[1].1 == seq![org]),
                Metric::OrgActionsIncludedMinutes => assert(us[2].1 == seq![org]),
                Metric::OrgPackagesIncludedGigabytesBandwidth => assert(us[3 + nb].1 == seq![org]),
                Metric::OrgPackagesTotalGigabytesBandwidthUsed => assert(us[4 + nb].1 == seq![org]),
                Metric::OrgPackagesTotalPaidGigabytesBandwidthUsed => assert(us[5 + nb].1 == seq![org]),
                Metric::OrgSharedStorageDaysLeftInBillingCycle => assert(us[6 + nb].1 == seq![org]),
                Metric::OrgSharedStorageEstimatedPaidStorageForMonth => assert(us[7 + nb].1 == seq![org]),
                Metric::OrgSharedStorageEstimatedStorageForMonth => assert(us[8 + nb].1 == seq![org]),
                _ => {},
            }
        }
    }
}

/// Whether some update sets the series of `m` labelled `labels`.
pub open spec fn has_series<V>(us: Seq<(Metric, Seq<Seq<char>>, V)>, m: Metric, labels: Seq<Seq<char>>) -> bool {
    exists|k: int| 0 <= k < us.len() && (#[trigger] us[k]).0 == m && us[k].1 == labels
}

/// Whether every update is of an organisation metric whose first label is `org`.
pub open spec fn all_labelled_by<V>(us: Seq<(Metric, Seq<Seq<char>>, V)>, org: Seq<char>) -> bool {
    forall|k: int|
        0 <= k < us.len() ==> crate::metrics::is_org_metric((#[trigger] us[k]).0) && us[k].1[0] == org
}

/// Labelling by `org` is kept by concatenation.
pub proof fn lemma_labelled_concat<V>(
    a: Seq<(Metric, Seq<Seq<char>>, V)>,
    b: Seq<(Metric, Seq<Seq<char>>, V)>,
    org: Seq<char>,
)
    requires
        all_labelled_by(a, org),
        all_labelled_by(b, org),
    ensures
        all_labelled_by(a + b, org),
{
    assert forall|k: int| 0 <= k < (a + b).len() implies crate::metrics::is_org_metric(
        (#[trigger] (a + b)[k]).0,
    ) && (a + b)[k].1[0] == org by {
        if k < a.len() {
            assert((a + b)[k] == a[k]);
        } else {
            assert((a + b)[k] == b[k - a.len()]);
        }
    }
}

/// The organisation metrics carried by one series per organisation.
pub open spec fn is_single_org_metric(m: Metric) -> bool {
    crate::metrics::is_org_metric(m) && m != Metric::OrgActionsMinutesUsedBreakdown
}

/// The number of host classes a breakdown reports.
pub open spec fn breakdown_count<V>(b: MinutesUsedBreakdown<V>) -> int {
    (if b.ubuntu is Some { 1int } else { 0 }) + (if b.macos is Some { 1int } else { 0 }) + (if b.windows
        is Some {
        1int
    } else {
        0
    })
}

} // verus!
