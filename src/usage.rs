use vstd::prelude::*;

use crate::metrics::{labels4, optional_update, push_update, updates_view, GaugeUpdate, Metric};
use crate::types::{host_label, HostClass, Repository, Workflow};

verus! {

/// Billable time on one host class.
#[derive(Debug, Clone, Copy)]
pub struct BillableTime<V> {
    pub total_ms: V,
}

/// Billable time of a workflow on each host class that it ran on.
#[derive(Debug, Clone, Copy)]
pub struct Billable<V> {
    pub ubuntu: Option<BillableTime<V>>,
    pub macos: Option<BillableTime<V>>,
    pub windows: Option<BillableTime<V>>,
}

/// The timing figures of a workflow.
#[derive(Debug, Clone, Copy)]
pub struct Usage<V> {
    pub billable: Billable<V>,
}

/// The milliseconds of an optional billable time.
pub open spec fn total_of<V>(t: Option<BillableTime<V>>) -> Option<V> {
    match t {
        Some(b) => Some(b.total_ms),
        None => None,
    }
}

/// The `BillableMs` update for one host class, if the class is present.
pub open spec fn class_update<V>(
    repo: Repository,
    workflow: Workflow,
    h: HostClass,
    t: Option<BillableTime<V>>,
) -> Seq<(Metric, Seq<Seq<char>>, V)> {
    optional_update(
        Metric::BillableMs,
        seq![repo.owner@, repo.name@, workflow.name@, host_label(h)],
        total_of(t),
    )
}

/// The updates a timing response leads to: one per host class present, in
/// the order Ubuntu, macOS, Windows. An absent class gets none.
pub open spec fn billable_updates_spec<V>(repo: Repository, workflow: Workflow, usage: Usage<V>) -> Seq<
    (Metric, Seq<Seq<char>>, V),
> {
    class_update(repo, workflow, HostClass::Ubuntu, usage.billable.ubuntu) + class_update(
        repo,
        workflow,
        HostClass::Macos,
        usage.billable.macos,
    ) + class_update(repo, workflow, HostClass::Windows, usage.billable.windows)
}

fn push_class<V: Copy>(
    out: &mut Vec<GaugeUpdate<V>>,
    repo: &Repository,
    workflow: &Workflow,
    h: HostClass,
    t: Option<BillableTime<V>>,
)
    ensures
        updates_view(final(out)@) == updates_view(old(out)@) + class_update(*repo, *workflow, h, t),
{
    match t {
        Some(b) => {
            let label = h.label();
            let labels = labels4(repo.owner.as_str(), repo.name.as_str(), workflow.name.as_str(), label.as_str());
            push_update(out, Metric::BillableMs, labels, b.total_ms);
        },
        None => {
            assert(updates_view(old(out)@) + class_update(*repo, *workflow, h, t) =~= updates_view(old(out)@));
        },
    }
}

/// The gauge updates for a workflow's timing response.
pub fn poll_billable_ms_for_workflow<V: Copy>(
    repo: &Repository,
    workflow: &Workflow,
    usage: &Usage<V>,
) -> (r: Vec<GaugeUpdate<V>>)
    ensures
        updates_view(r@) == billable_updates_spec(*repo, *workflow, *usage),
{
    let mut r: Vec<GaugeUpdate<V>> = Vec::new();
    assert(updates_view(r@) =~= Seq::empty());
    push_class(&mut r, repo, workflow, HostClass::Ubuntu, usage.billable.ubuntu);
    push_class(&mut r, repo, workflow, HostClass::Macos, usage.billable.macos);
    push_class(&mut r, repo, workflow, HostClass::Windows, usage.billable.windows);
    assert(updates_view(r@) =~= billable_updates_spec(*repo, *workflow, *usage));
    r
}

/// Each update of a timing response is a `BillableMs` series labelled by
/// the repository's owner and name and the workflow's name, and a host
/// class is published exactly when the response holds a time for it.
pub proof fn lemma_billable_series<V>(repo: Repository, workflow: Workflow, usage: Usage<V>)
    ensures
        forall|k: int|
            0 <= k < billable_updates_spec(repo, workflow, usage).len() ==> {
                let u = #[trigger] billable_updates_spec(repo, workflow, usage)[k];
                &&& u.0 == Metric::BillableMs
                &&& u.1.len() == 4
                &&& u.1[0] == repo.owner@
                &&& u.1[1] == repo.name@
                &&& u.1[2] == workflow.name@
            },
        billable_updates_spec(repo, workflow, usage).len() == (if usage.billable.ubuntu is Some {
            1int
        } else {
            0
        }) + (if usage.billable.macos is Some {
            1int
        } else {
            0
        }) + (if usage.billable.windows is Some {
            1int
        } else {
            0
        }),
{
}

} // verus!
