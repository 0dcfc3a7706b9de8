use gh_actions_exporter::billing::{
    poll_org_billing, set_metrics_actions_billing, set_metrics_packages_billing,
    set_metrics_shared_storage_billing, ActionsBilling, MinutesUsedBreakdown, PackagesBilling,
    SharedStorageBilling,
};
use gh_actions_exporter::cache::WorkflowCache;
use gh_actions_exporter::metrics::{GaugeUpdate, Metric};
use gh_actions_exporter::tasks::{poll_billable_ms, poll_workflows};
use gh_actions_exporter::types::{HostClass, ParseRepositoryError, Repository, Workflow};
use gh_actions_exporter::usage::{poll_billable_ms_for_workflow, Billable, BillableTime, Usage};
use std::str::FromStr;

fn repo(owner: &str, name: &str) -> Repository {
    Repository { owner: owner.to_string(), name: name.to_string() }
}

fn wf(id: u64, name: &str) -> Workflow {
    Workflow { id, name: name.to_string() }
}

fn labels(u: &GaugeUpdate<f64>) -> Vec<&str> {
    u.labels.iter().map(|s| s.as_str()).collect()
}

fn actions(total: f64, paid: f64, included: f64, ubuntu: Option<f64>) -> ActionsBilling<f64> {
    ActionsBilling {
        total_minutes_used: total,
        total_paid_minutes_used: paid,
        included_minutes: included,
        minutes_used_breakdown: MinutesUsedBreakdown { ubuntu, macos: None, windows: None },
    }
}

fn packages() -> PackagesBilling<f64> {
    PackagesBilling {
        total_gigabytes_bandwidth_used: 1.0,
        total_paid_gigabytes_bandwidth_used: 2.0,
        included_gigabytes_bandwidth: 3.0,
    }
}

fn storage() -> SharedStorageBilling<f64> {
    SharedStorageBilling {
        days_left_in_billing_cycle: 4.0,
        estimated_paid_storage_for_month: 5.0,
        estimated_storage_for_month: 6.0,
    }
}

#[test]
fn parse_splits_owner_and_name() {
    let r = Repository::parse("acme/widgets").unwrap();
    assert_eq!(r.owner, "acme");
    assert_eq!(r.name, "widgets");
    assert_eq!(r.to_text(), "acme/widgets");
}

#[test]
fn parse_splits_at_first_separator() {
    let r = Repository::from_str("acme/widgets/extra").unwrap();
    assert_eq!(r.owner, "acme");
    assert_eq!(r.name, "widgets/extra");
    assert_eq!(r.to_text(), "acme/widgets/extra");
}

#[test]
fn parse_rejects_text_without_separator() {
    assert_eq!(Repository::parse("acmewidgets"), Err(ParseRepositoryError::MissingSeparator));
    assert_eq!(Repository::parse(""), Err(ParseRepositoryError::MissingSeparator));
}

#[test]
fn parse_accepts_empty_parts() {
    let r = Repository::parse("/").unwrap();
    assert_eq!(r.owner, "");
    assert_eq!(r.name, "");
    assert_eq!(r.to_text(), "/");
}

#[test]
fn round_trip_over_several_identifiers() {
    for s in ["a/b", "org-1/repo.name", "x/", "/y", "ünï/cødé"] {
        assert_eq!(Repository::parse(s).unwrap().to_text(), s);
    }
}

#[test]
fn host_class_labels() {
    assert_eq!(HostClass::Ubuntu.label(), "ubuntu");
    assert_eq!(HostClass::Macos.label(), "macos");
    assert_eq!(HostClass::Windows.label(), "windows");
}

#[test]
fn new_cache_has_one_empty_entry_per_repository() {
    let c = WorkflowCache::new(&vec![repo("a", "b"), repo("c", "d"), repo("a", "b")]);
    assert_eq!(c.len(), 2);
    assert!(c.position(&repo("a", "b")).is_some());
    assert!(c.position(&repo("c", "d")).is_some());
    assert!(c.position(&repo("a", "d")).is_none());
    for i in 0..c.len() {
        assert!(c.snapshot(i).is_empty());
    }
}

#[test]
fn discovery_replaces_list_wholesale() {
    let mut c = WorkflowCache::new(&vec![repo("acme", "widgets")]);
    assert!(c.poll_workflow::<()>(0, Ok(vec![wf(1, "old"), wf(2, "gone")])));
    assert!(c.poll_workflow::<()>(0, Ok(vec![wf(3, "new")])));
    assert_eq!(c.snapshot(0), vec![wf(3, "new")]);
}

#[test]
fn failed_discovery_keeps_entry() {
    let mut c = WorkflowCache::new(&vec![repo("acme", "widgets")]);
    c.poll_workflow::<&str>(0, Ok(vec![wf(42, "ci")]));
    assert!(!c.poll_workflow::<&str>(0, Err("timeout")));
    assert_eq!(c.snapshot(0), vec![wf(42, "ci")]);
}

#[test]
fn discovery_cycle_updates_each_entry_independently() {
    let mut c = WorkflowCache::new(&vec![repo("a", "one"), repo("a", "two")]);
    poll_workflows::<&str>(&mut c, vec![Ok(vec![wf(1, "x")]), Ok(vec![wf(2, "y")])]);
    poll_workflows::<&str>(&mut c, vec![Err("down"), Ok(vec![])]);
    assert_eq!(c.snapshot(0), vec![wf(1, "x")]);
    assert!(c.snapshot(1).is_empty());
    assert_eq!(c.repository(0).to_text(), "a/one");
}

#[test]
fn snapshot_sees_old_or_new_list_whole() {
    let mut c = WorkflowCache::new(&vec![repo("acme", "widgets")]);
    c.poll_workflow::<()>(0, Ok(vec![wf(1, "a"), wf(2, "b")]));
    let before = c.snapshot(0);
    c.poll_workflow::<()>(0, Ok(vec![wf(3, "c"), wf(4, "d"), wf(5, "e")]));
    let after = c.snapshot(0);
    assert_eq!(before, vec![wf(1, "a"), wf(2, "b")]);
    assert_eq!(after, vec![wf(3, "c"), wf(4, "d"), wf(5, "e")]);
}

#[test]
fn billable_updates_only_for_present_classes() {
    let usage = Usage {
        billable: Billable {
            ubuntu: Some(BillableTime { total_ms: 1000.0 }),
            macos: None,
            windows: Some(BillableTime { total_ms: 7.5 }),
        },
    };
    let us = poll_billable_ms_for_workflow(&repo("acme", "widgets"), &wf(42, "ci"), &usage);
    assert_eq!(us.len(), 2);
    assert_eq!(us[0].metric, Metric::BillableMs);
    assert_eq!(labels(&us[0]), vec!["acme", "widgets", "ci", "ubuntu"]);
    assert_eq!(us[0].value, 1000.0);
    assert_eq!(labels(&us[1]), vec!["acme", "widgets", "ci", "windows"]);
    assert_eq!(us[1].value, 7.5);
}

#[test]
fn end_to_end_single_workflow_single_class() {
    let mut c = WorkflowCache::new(&vec![Repository::parse("acme/widgets").unwrap()]);
    poll_workflows::<&str>(&mut c, vec![Ok(vec![wf(42, "ci")])]);
    let ws = c.snapshot(0);
    assert_eq!(ws[0].id, 42);
    let timing = Usage {
        billable: Billable { ubuntu: Some(BillableTime { total_ms: 1000.0 }), macos: None, windows: None },
    };
    let us = poll_billable_ms(c.repository(0), &ws, &vec![Ok::<_, &str>(timing)]);
    assert_eq!(us.len(), 1);
    assert_eq!(us[0].metric, Metric::BillableMs);
    assert_eq!(labels(&us[0]), vec!["acme", "widgets", "ci", "ubuntu"]);
    assert_eq!(us[0].value, 1000.0);
    assert!(!us.iter().any(|u| u.labels[3] == "macos" || u.labels[3] == "windows"));
}

#[test]
fn usage_cycle_skips_failed_workflow() {
    let ws = vec![wf(1, "a"), wf(2, "b")];
    let t = Usage {
        billable: Billable { ubuntu: None, macos: Some(BillableTime { total_ms: 3.0 }), windows: None },
    };
    let us = poll_billable_ms(&repo("o", "r"), &ws, &vec![Err("boom"), Ok(t)]);
    assert_eq!(us.len(), 1);
    assert_eq!(labels(&us[0]), vec!["o", "r", "b", "macos"]);
    assert_eq!(us[0].value, 3.0);
}

#[test]
fn emptied_workflow_list_publishes_nothing() {
    let mut c = WorkflowCache::new(&vec![repo("acme", "widgets")]);
    poll_workflows::<&str>(&mut c, vec![Ok(vec![wf(1, "ci")])]);
    poll_workflows::<&str>(&mut c, vec![Ok(vec![])]);
    let ws = c.snapshot(0);
    assert!(ws.is_empty());
    let none: Vec<Result<Usage<f64>, &str>> = vec![];
    assert!(poll_billable_ms(c.repository(0), &ws, &none).is_empty());
}

#[test]
fn org_billing_publishes_every_metric_on_success() {
    let us = poll_org_billing::<f64, &str>("acme", Ok(actions(120.5, 20.0, 50.0, Some(9.0))), Ok(packages()), Ok(storage()))
        .unwrap();
    assert_eq!(us.len(), 10);
    let expected = [
        (Metric::OrgActionsTotalMinutesUsed, 120.5),
        (Metric::OrgActionsTotalPaidMinutesUsed, 20.0),
        (Metric::OrgActionsIncludedMinutes, 50.0),
        (Metric::OrgActionsMinutesUsedBreakdown, 9.0),
        (Metric::OrgPackagesIncludedGigabytesBandwidth, 3.0),
        (Metric::OrgPackagesTotalGigabytesBandwidthUsed, 1.0),
        (Metric::OrgPackagesTotalPaidGigabytesBandwidthUsed, 2.0),
        (Metric::OrgSharedStorageDaysLeftInBillingCycle, 4.0),
        (Metric::OrgSharedStorageEstimatedPaidStorageForMonth, 5.0),
        (Metric::OrgSharedStorageEstimatedStorageForMonth, 6.0),
    ];
    for (u, (m, v)) in us.iter().zip(expected.iter()) {
        assert_eq!(u.metric, *m);
        assert_eq!(u.value, *v);
        assert_eq!(u.labels[0], "acme");
    }
    assert_eq!(labels(&us[3]), vec!["acme", "ubuntu"]);
}

#[test]
fn org_billing_publishes_nothing_when_any_fetch_fails() {
    let r = poll_org_billing::<f64, &str>("acme", Ok(actions(1.0, 2.0, 3.0, None)), Err("packages"), Ok(storage()));
    assert_eq!(r.err(), Some("packages"));
    let r = poll_org_billing::<f64, &str>("acme", Err("actions"), Err("packages"), Err("storage"));
    assert_eq!(r.err(), Some("actions"));
    let r = poll_org_billing::<f64, &str>("acme", Ok(actions(1.0, 2.0, 3.0, None)), Ok(packages()), Err("storage"));
    assert_eq!(r.err(), Some("storage"));
}

#[test]
fn textual_paid_minutes_are_published_as_number() {
    let paid: f64 = "20.0".parse().unwrap();
    let us = poll_org_billing::<f64, &str>("acme", Ok(actions(120.5, paid, 0.0, None)), Ok(packages()), Ok(storage()))
        .unwrap();
    let u = us.iter().find(|u| u.metric == Metric::OrgActionsTotalPaidMinutesUsed).unwrap();
    assert_eq!(labels(u), vec!["acme"]);
    assert_eq!(u.value, 20.0);
}

#[test]
fn category_setters_append() {
    let mut out: Vec<GaugeUpdate<f64>> = Vec::new();
    set_metrics_actions_billing(&mut out, "o", &actions(1.0, 2.0, 3.0, None));
    assert_eq!(out.len(), 3);
    set_metrics_packages_billing(&mut out, "o", &packages());
    set_metrics_shared_storage_billing(&mut out, "o", &storage());
    assert_eq!(out.len(), 9);
    assert_eq!(out[8].metric, Metric::OrgSharedStorageEstimatedStorageForMonth);
    assert_eq!(out[8].value, 6.0);
}

#[test]
fn orgs_cycle_skips_failed_organisation_only() {
    let orgs = vec!["good".to_string(), "bad".to_string()];
    let fetched: Vec<gh_actions_exporter::tasks::OrgBillingFetch<f64, &str>> = vec![
        (Ok(actions(1.0, 2.0, 3.0, None)), Ok(packages()), Ok(storage())),
        (Ok(actions(1.0, 2.0, 3.0, None)), Err("packages down"), Ok(storage())),
    ];
    let (updates, failures) = gh_actions_exporter::tasks::poll_orgs_billing(&orgs, fetched);
    assert_eq!(updates.len(), 9);
    assert!(updates.iter().all(|u| u.labels[0] == "good"));
    assert_eq!(failures, vec![None, Some("packages down")]);
}

#[test]
fn orgs_cycle_with_no_organisation() {
    let orgs: Vec<String> = vec![];
    let (updates, failures) =
        gh_actions_exporter::tasks::poll_orgs_billing::<f64, &str>(&orgs, vec![]);
    assert!(updates.is_empty());
    assert!(failures.is_empty());
}

#[test]
fn breakdown_reports_every_present_class() {
    let a = ActionsBilling {
        total_minutes_used: 10.0,
        total_paid_minutes_used: 0.0,
        included_minutes: 2000.0,
        minutes_used_breakdown: MinutesUsedBreakdown { ubuntu: Some(4.0), macos: Some(5.0), windows: Some(1.0) },
    };
    let us = poll_org_billing::<f64, &str>("acme", Ok(a), Ok(packages()), Ok(storage())).unwrap();
    assert_eq!(us.len(), 12);
    assert_eq!(labels(&us[3]), vec!["acme", "ubuntu"]);
    assert_eq!(labels(&us[4]), vec!["acme", "macos"]);
    assert_eq!(labels(&us[5]), vec!["acme", "windows"]);
    assert_eq!(us[4].value, 5.0);
}
