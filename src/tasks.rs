use vstd::prelude::*;

use crate::cache::{after_discovery, WorkflowCache};
use crate::metrics::{apply_updates, is_org_metric, lemma_apply_untouched, updates_view, GaugeUpdate, Metric, SeriesKey};
use crate::types::{Repository, Workflow};
use crate::usage::{billable_updates_spec, poll_billable_ms_for_workflow, Usage};
use crate::billing::{
    all_labelled_by, lemma_org_billing_all_or_nothing, org_billing_updates, poll_org_billing, ActionsBilling, PackagesBilling, SharedStorageBilling,
};

verus! {

/// The list an entry holds after a discovery cycle: the fetched one, or the
/// old one when the fetch failed.
pub open spec fn discovered<E>(fetched: Result<Vec<Workflow>, E>, before: Seq<Workflow>) -> Seq<Workflow> {
    match fetched {
        Ok(w) => w@,
        Err(_) => before,
    }
}

/// Applies the outcomes of one discovery cycle, one per entry in the cache's
/// order: each fetched list replaces its entry's list wholesale, and an
/// entry whose fetch failed keeps its list.
pub fn poll_workflows<E>(cache: &mut WorkflowCache, fetched: Vec<Result<Vec<Workflow>, E>>)
    requires
        old(cache).wf(),
        fetched@.len() == old(cache).repositories().len(),
    ensures
        final(cache).wf(),
        final(cache).repositories() == old(cache).repositories(),
        forall|i: int|
            0 <= i < fetched@.len() ==> #[trigger] final(cache).lists()[i] == discovered(
                fetched@[i],
                old(cache).lists()[i],
            ),
{
    let ghost all = fetched@;
    let ghost before = cache.lists();
    let mut fetched = fetched;
    while fetched.len() > 0
        invariant
            cache.wf(),
            cache.repositories() == old(cache).repositories(),
            before == old(cache).lists(),
            before.len() == cache.repositories().len(),
            fetched@.len() <= all.len() == before.len(),
            fetched@ == all.subrange(0, fetched@.len() as int),
            forall|i: int|
                0 <= i < before.len() ==> #[trigger] cache.lists()[i] == if i < fetched@.len() {
                    before[i]
                } else {
                    discovered(all[i], before[i])
                },
        decreases fetched@.len(),
    {
        let ghost pre = cache.lists();
        let last = fetched.pop();
        let i = fetched.len();
        match last {
            Some(outcome) => {
                proof {
                    assert(outcome == all[i as int]);
                }
                let ghost o = outcome;
                cache.poll_workflow(i, outcome);
                proof {
                    assert forall|j: int| 0 <= j < before.len() implies #[trigger] cache.lists()[j] == if j < fetched@.len() {
                        before[j]
                    } else {
                        discovered(all[j], before[j])
                    } by {
                        if j != i {
                            assert(cache.lists()[j] == pre[j]);
                        }
                    }
                    assert(fetched@ =~= all.subrange(0, fetched@.len() as int));
                }
            },
            None => {},
        }
    }
}

/// The updates of the workflows `ws[..n]` whose timing fetch succeeded, in
/// order; a failed fetch contributes nothing.
pub open spec fn usage_cycle_updates<V, E>(
    repo: Repository,
    ws: Seq<Workflow>,
    timings: Seq<Result<Usage<V>, E>>,
    n: int,
) -> Seq<(Metric, Seq<Seq<char>>, V)>
    decreases n,
{
    if n <= 0 {
        Seq::empty()
    } else {
        usage_cycle_updates(repo, ws, timings, n - 1) + match timings[n - 1] {
            Ok(u) => billable_updates_spec(repo, ws[n - 1], u),
            Err(_) => Seq::empty(),
        }
    }
}

/// The updates of one repository in a usage cycle, from the snapshot of its
/// workflows and the outcome of each workflow's timing fetch. A failed fetch
/// skips that workflow only.
pub fn poll_billable_ms<V: Copy, E>(
    repo: &Repository,
    workflows: &Vec<Workflow>,
    timings: &Vec<Result<Usage<V>, E>>,
) -> (r: Vec<GaugeUpdate<V>>)
    requires
        timings@.len() == workflows@.len(),
    ensures
        updates_view(r@) == usage_cycle_updates(*repo, workflows@, timings@, workflows@.len() as int),
        workflows@.len() == 0 ==> r@.len() == 0,
{
    let mut r: Vec<GaugeUpdate<V>> = Vec::new();
    let mut k: usize = 0;
    assert(updates_view(r@) =~= Seq::empty());
    while k < workflows.len()
        invariant
            0 <= k <= workflows@.len() == timings@.len(),
            updates_view(r@) == usage_cycle_updates(*repo, workflows@, timings@, k as int),
        decreases workflows@.len() - k,
    {
        match &timings[k] {
            Ok(u) => {
                let mut us = poll_billable_ms_for_workflow(repo, &workflows[k], u);
                let ghost pre = r@;
                r.append(&mut us);
                assert(updates_view(r@) =~= updates_view(pre) + billable_updates_spec(
                    *repo,
                    workflows@[k as int],
                    *u,
                ));
            },
            Err(_) => {
                assert(updates_view(r@) =~= updates_view(r@) + Seq::empty());
            },
        }
        k = k + 1;
    }
    r
}

/// The outcomes of an organisation's three billing fetches.
pub type OrgBillingFetch<V, E> = (
    Result<ActionsBilling<V>, E>,
    Result<PackagesBilling<V>, E>,
    Result<SharedStorageBilling<V>, E>,
);

/// The first failure among the three fetches, in the order Actions,
/// Packages, shared storage.
pub open spec fn first_failure<V, E>(f: OrgBillingFetch<V, E>) -> Option<E> {
    match f.0 {
        Err(e) => Some(e),
        Ok(_) => match f.1 {
            Err(e) => Some(e),
            Ok(_) => match f.2 {
                Err(e) => Some(e),
                Ok(_) => None,
            },
        },
    }
}

/// The updates of the organisations `orgs[..n]` whose three fetches all
/// succeeded, in order; an organisation with a failed fetch contributes
/// nothing.
pub open spec fn orgs_cycle_updates<V, E>(
    orgs: Seq<String>,
    fetched: Seq<OrgBillingFetch<V, E>>,
    n: int,
) -> Seq<(Metric, Seq<Seq<char>>, V)>
    decreases n,
{
    if n <= 0 {
        Seq::empty()
    } else {
        let f = fetched[n - 1];
        orgs_cycle_updates(orgs, fetched, n - 1) + match org_billing_updates(orgs[n - 1]@, f.0, f.1, f.2) {
            Some(us) => us,
            None => Seq::empty(),
        }
    }
}

/// One organisation billing cycle, from the outcomes of each organisation's
/// fetches: the updates of every organisation whose three fetches
/// succeeded, and for each organisation its first failure, if any.
pub fn poll_orgs_billing<V: Copy, E>(orgs: &Vec<String>, fetched: Vec<OrgBillingFetch<V, E>>) -> (r: (
    Vec<GaugeUpdate<V>>,
    Vec<Option<E>>,
))
    requires
        fetched@.len() == orgs@.len(),
    ensures
        updates_view(r.0@) == orgs_cycle_updates(orgs@, fetched@, orgs@.len() as int),
        r.1@.len() == orgs@.len(),
        forall|k: int| 0 <= k < orgs@.len() ==> #[trigger] r.1@[k] == first_failure(fetched@[k]),
{
    let ghost all = fetched@;
    let mut rest = fetched;
    let mut updates: Vec<GaugeUpdate<V>> = Vec::new();
    let mut failures: Vec<Option<E>> = Vec::new();
    let mut k: usize = 0;
    assert(updates_view(updates@) =~= Seq::empty());
    while k < orgs.len()
        invariant
            0 <= k <= orgs@.len() == all.len(),
            rest@ == all.subrange(k as int, all.len() as int),
            updates_view(updates@) == orgs_cycle_updates(orgs@, all, k as int),
            failures@.len() == k,
            forall|j: int| 0 <= j < k ==> #[trigger] failures@[j] == first_failure(all[j]),
        decreases orgs@.len() - k,
    {
        let (actions, packages, shared_storage) = rest.remove(0);
        proof {
            assert(all[k as int] == (actions, packages, shared_storage));
        }
        match poll_org_billing(orgs[k].as_str(), actions, packages, shared_storage) {
            Ok(mut us) => {
                let ghost pre = updates@;
                let ghost added = us@;
                updates.append(&mut us);
                assert(updates_view(updates@) =~= updates_view(pre) + updates_view(added));
                failures.push(None);
            },
            Err(e) => {
                assert(updates_view(updates@) =~= updates_view(updates@) + Seq::empty());
                failures.push(Some(e));
            },
        }
        k = k + 1;
        assert(rest@ =~= all.subrange(k as int, all.len() as int));
    }
    (updates, failures)
}

/// Every update of the first `n` workflows names the repository and one of
/// those workflows.
pub proof fn lemma_usage_labels<V, E>(
    repo: Repository,
    ws: Seq<Workflow>,
    timings: Seq<Result<Usage<V>, E>>,
    n: int,
)
    requires
        0 <= n <= ws.len() == timings.len(),
    ensures
        forall|k: int|
            0 <= k < usage_cycle_updates(repo, ws, timings, n).len() ==> {
                let u = #[trigger] usage_cycle_updates(repo, ws, timings, n)[k];
                &&& u.0 == Metric::BillableMs
                &&& u.1[0] == repo.owner@
                &&& u.1[1] == repo.name@
                &&& exists|j: int| 0 <= j < n && u.1[2] == (#[trigger] ws[j]).name@
            },
    decreases n,
{
    if n > 0 {
        lemma_usage_labels(repo, ws, timings, n - 1);
        crate::usage::lemma_billable_series(repo, ws[n - 1], if let Ok(u) = timings[n - 1] {
            u
        } else {
            Usage { billable: crate::usage::Billable { ubuntu: None, macos: None, windows: None } }
        });
        let prev = usage_cycle_updates(repo, ws, timings, n - 1);
        let all = usage_cycle_updates(repo, ws, timings, n);
        assert forall|k: int| 0 <= k < all.len() implies {
            let u = #[trigger] all[k];
            &&& u.0 == Metric::BillableMs
            &&& u.1[0] == repo.owner@
            &&& u.1[1] == repo.name@
            &&& exists|j: int| 0 <= j < n && u.1[2] == (#[trigger] ws[j]).name@
        } by {
            if k < prev.len() {
                assert(all[k] == prev[k]);
                let j = choose|j: int| 0 <= j < n - 1 && prev[k].1[2] == (#[trigger] ws[j]).name@;
                assert(0 <= j < n && all[k].1[2] == ws[j].name@);
            } else {
                if let Ok(u) = timings[n - 1] {
                    let piece = billable_updates_spec(repo, ws[n - 1], u);
                    assert(all[k] == piece[k - prev.len()]);
                    assert(all[k].1[2] == ws[n - 1].name@);
                } else {
                    assert(all.len() == prev.len());
                }
            }
        }
    }
}

/// Usage is polled only for the workflows of the snapshot: every series a
/// repository's usage cycle sets names that repository and a workflow of
/// the snapshot, so workflows that discovery removed are no longer updated,
/// and with an empty snapshot every gauge keeps its last value.
pub proof fn lemma_usage_follows_snapshot<V, E>(
    repo: Repository,
    ws: Seq<Workflow>,
    timings: Seq<Result<Usage<V>, E>>,
    gauges: Map<SeriesKey, V>,
)
    requires
        ws.len() == timings.len(),
    ensures
        forall|k: int|
            0 <= k < usage_cycle_updates(repo, ws, timings, ws.len() as int).len() ==> {
                let u = #[trigger] usage_cycle_updates(repo, ws, timings, ws.len() as int)[k];
                &&& u.0 == Metric::BillableMs
                &&& u.1[0] == repo.owner@
                &&& u.1[1] == repo.name@
                &&& exists|j: int| 0 <= j < ws.len() && u.1[2] == (#[trigger] ws[j]).name@
            },
        ws.len() == 0 ==> apply_updates(gauges, usage_cycle_updates(repo, ws, timings, 0)) == gauges,
{
    lemma_usage_labels(repo, ws, timings, ws.len() as int);
}

/// Every update of the first `n` organisations belongs to one of them whose
/// three fetches succeeded, and is labelled by it.
pub proof fn lemma_orgs_cycle_labels<V, E>(orgs: Seq<String>, fetched: Seq<OrgBillingFetch<V, E>>, n: int)
    requires
        0 <= n <= orgs.len() == fetched.len(),
    ensures
        forall|k: int|
            0 <= k < orgs_cycle_updates(orgs, fetched, n).len() ==> {
                let u = #[trigger] orgs_cycle_updates(orgs, fetched, n)[k];
                &&& is_org_metric(u.0)
                &&& exists|j: int|
                    0 <= j < n && first_failure(#[trigger] fetched[j]) is None && u.1[0] == orgs[j]@
            },
    decreases n,
{
    if n > 0 {
        lemma_orgs_cycle_labels(orgs, fetched, n - 1);
        let f = fetched[n - 1];
        lemma_org_billing_all_or_nothing(orgs[n - 1]@, f.0, f.1, f.2);
        let prev = orgs_cycle_updates(orgs, fetched, n - 1);
        let all = orgs_cycle_updates(orgs, fetched, n);
        assert forall|k: int| 0 <= k < all.len() implies {
            let u = #[trigger] all[k];
            &&& is_org_metric(u.0)
            &&& exists|j: int|
                0 <= j < n && first_failure(#[trigger] fetched[j]) is None && u.1[0] == orgs[j]@
        } by {
            if k < prev.len() {
                assert(all[k] == prev[k]);
                let j = choose|j: int|
                    0 <= j < n - 1 && first_failure(#[trigger] fetched[j]) is None && prev[k].1[0] == orgs[j]@;
                assert(0 <= j < n);
            } else {
                if let Some(us) = org_billing_updates(orgs[n - 1]@, f.0, f.1, f.2) {
                    assert(all[k] == us[k - prev.len()]);
                    assert(all_labelled_by(us, orgs[n - 1]@));
                    assert(first_failure(fetched[n - 1]) is None);
                } else {
                    assert(all.len() == prev.len());
                }
            }
        }
    }
}

/// When one of an organisation's billing fetches fails, none of its series
/// changes in that cycle: each keeps its last value, or stays unpublished.
pub proof fn lemma_failed_org_keeps_gauges<V, E>(
    orgs: Seq<String>,
    fetched: Seq<OrgBillingFetch<V, E>>,
    gauges: Map<SeriesKey, V>,
    i: int,
    key: SeriesKey,
)
    requires
        orgs.len() == fetched.len(),
        0 <= i < orgs.len(),
        forall|j: int| 0 <= j < orgs.len() && j != i ==> (#[trigger] orgs[j])@ != orgs[i]@,
        first_failure(fetched[i]) is Some,
        key.1.len() > 0,
        key.1[0] == orgs[i]@,
    ensures
        ({
            let after = apply_updates(gauges, orgs_cycle_updates(orgs, fetched, orgs.len() as int));
            &&& after.contains_key(key) == gauges.contains_key(key)
            &&& gauges.contains_key(key) ==> after[key] == gauges[key]
        }),
{
    let us = orgs_cycle_updates(orgs, fetched, orgs.len() as int);
    lemma_orgs_cycle_labels(orgs, fetched, orgs.len() as int);
    assert forall|k: int| 0 <= k < us.len() implies ((#[trigger] us[k]).0, us[k].1) != key by {
        let j = choose|j: int|
            0 <= j < orgs.len() && first_failure(#[trigger] fetched[j]) is None && us[k].1[0] == orgs[j]@;
        assert(j != i);
    }
    lemma_apply_untouched(gauges, us, key);
}

} // verus!
