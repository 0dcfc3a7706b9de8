use vstd::prelude::*;

use crate::types::{Repository, Workflow};

verus! {

/// The identity of a repository: its owner and its name.
pub open spec fn repo_key(r: Repository) -> (Seq<char>, Seq<char>) {
    (r.owner@, r.name@)
}

/// Whether the keys of `rs` are pairwise distinct.
pub open spec fn distinct_keys(rs: Seq<Repository>) -> bool {
    forall|i: int, j: int|
        0 <= i < rs.len() && 0 <= j < rs.len() && i != j ==> repo_key(#[trigger] rs[i])
            != repo_key(#[trigger] rs[j])
}

/// Whether some repository of `rs` has the key of `r`.
pub open spec fn has_key(rs: Seq<Repository>, r: Repository) -> bool {
    exists|i: int| 0 <= i < rs.len() && repo_key(#[trigger] rs[i]) == repo_key(r)
}

/// The workflow lists after a discovery outcome for entry `i`: a fetched
/// list replaces the entry wholesale, a failed fetch leaves every entry as
/// it was.
pub open spec fn after_discovery(
    lists: Seq<Seq<Workflow>>,
    i: int,
    fetched: Option<Seq<Workflow>>,
) -> Seq<Seq<Workflow>> {
    match fetched {
        Some(w) => lists.update(i, w),
        None => lists,
    }
}

/// One repository of the cache with the workflows last discovered for it.
pub struct CacheEntry {
    repository: Repository,
    workflows: Vec<Workflow>,
}

/// The workflows discovered for each tracked repository.
///
/// The set of repositories is fixed when the cache is built; discovery only
/// ever replaces the list of an existing entry.
pub struct WorkflowCache {
    entries: Vec<CacheEntry>,
}

impl WorkflowCache {
    /// The tracked repositories, in the cache's order.
    pub closed spec fn repositories(&self) -> Seq<Repository> {
        self.entries@.map_values(|e: CacheEntry| e.repository)
    }

    /// The workflow list of each repository, in the same order.
    pub closed spec fn lists(&self) -> Seq<Seq<Workflow>> {
        self.entries@.map_values(|e: CacheEntry| e.workflows@)
    }

    /// Every repository stands once, and each has a list.
    pub open spec fn wf(&self) -> bool {
        &&& distinct_keys(self.repositories())
        &&& self.lists().len() == self.repositories().len()
    }

    /// A cache with one entry, holding no workflow, for each distinct
    /// repository of `repos`; a repeated repository gets one entry.
    pub fn new(repos: &Vec<Repository>) -> (c: WorkflowCache)
        ensures
            c.wf(),
            forall|r: Repository| has_key(repos@, r) <==> has_key(c.repositories(), r),
            forall|i: int| 0 <= i < c.lists().len() ==> (#[trigger] c.lists()[i]).len() == 0,
    {
        let mut entries: Vec<CacheEntry> = Vec::new();
        let mut k: usize = 0;
        while k < repos.len()
            invariant
                0 <= k <= repos@.len(),
                distinct_keys(entries@.map_values(|e: CacheEntry| e.repository)),
                forall|r: Repository|
                    has_key(repos@.subrange(0, k as int), r) <==> has_key(
                        entries@.map_values(|e: CacheEntry| e.repository),
                        r,
                    ),
                forall|i: int| 0 <= i < entries@.len() ==> (#[trigger] entries@[i]).workflows@.len() == 0,
            decreases repos@.len() - k,
        {
            let ghost rs = entries@.map_values(|e: CacheEntry| e.repository);
            let r = &repos[k];
            let mut seen = false;
            let mut j: usize = 0;
            while j < entries.len()
                invariant
                    0 <= j <= entries@.len(),
                    rs == entries@.map_values(|e: CacheEntry| e.repository),
                    seen <==> exists|m: int| 0 <= m < j && repo_key(#[trigger] rs[m]) == repo_key(*r),
                decreases entries@.len() - j,
            {
                proof {
                    assert(rs[j as int] == entries@[j as int].repository);
                }
                if entries[j].repository.same_as(r) {
                    seen = true;
                }
                j = j + 1;
            }
            let ghost prev = repos@.subrange(0, k as int);
            let ghost next = repos@.subrange(0, k as int + 1);
            if !seen {
                entries.push(CacheEntry { repository: r.duplicate(), workflows: Vec::new() });
            }
            proof {
                let rs2 = entries@.map_values(|e: CacheEntry| e.repository);
                if !seen {
                    assert(rs2 =~= rs.push(*r));
                    assert forall|a: int, b: int|
                        0 <= a < rs2.len() && 0 <= b < rs2.len() && a != b implies repo_key(#[trigger] rs2[a])
                            != repo_key(#[trigger] rs2[b]) by {
                        if a < rs.len() && b < rs.len() {
                            assert(rs2[a] == rs[a] && rs2[b] == rs[b]);
                        } else if a < rs.len() {
                            assert(rs2[a] == rs[a]);
                        } else if b < rs.len() {
                            assert(rs2[b] == rs[b]);
                        }
                    }
                } else {
                    assert(rs2 =~= rs);
                }
                assert forall|q: Repository| has_key(next, q) <==> has_key(rs2, q) by {
                    if has_key(next, q) {
                        let m = choose|m: int| 0 <= m < next.len() && repo_key(#[trigger] next[m]) == repo_key(q);
                        if m < k {
                            assert(prev[m] == next[m]);
                            assert(has_key(prev, q));
                            let t = choose|t: int| 0 <= t < rs.len() && repo_key(#[trigger] rs[t]) == repo_key(q);
                            assert(rs2[t] == rs[t]);
                        } else if seen {
                            let t = choose|t: int| 0 <= t < j && repo_key(#[trigger] rs[t]) == repo_key(*r);
                            assert(rs2[t] == rs[t]);
                        } else {
                            assert(rs2[rs.len() as int] == *r);
                        }
                    }
                    if has_key(rs2, q) {
                        let t = choose|t: int| 0 <= t < rs2.len() && repo_key(#[trigger] rs2[t]) == repo_key(q);
                        if t < rs.len() {
                            assert(rs2[t] == rs[t]);
                            assert(has_key(prev, q));
                            let m = choose|m: int| 0 <= m < prev.len() && repo_key(#[trigger] prev[m]) == repo_key(q);
                            assert(next[m] == prev[m]);
                        } else {
                            assert(next[k as int] == *r);
                        }
                    }
                }
            }
            k = k + 1;
        }
        assert(repos@.subrange(0, repos@.len() as int) =~= repos@);
        WorkflowCache { entries }
    }

    /// The number of tracked repositories.
    pub fn len(&self) -> (n: usize)
        ensures
            n == self.repositories().len(),
    {
        self.entries.len()
    }

    /// The repository of entry `i`.
    pub fn repository(&self, i: usize) -> (r: &Repository)
        requires
            i < self.repositories().len(),
        ensures
            *r == self.repositories()[i as int],
    {
        &self.entries[i].repository
    }

    /// The entry of `r`, if `r` is tracked.
    pub fn position(&self, r: &Repository) -> (p: Option<usize>)
        ensures
            p is None <==> !has_key(self.repositories(), *r),
            p matches Some(i) ==> i < self.repositories().len() && repo_key(self.repositories()[i as int]) == repo_key(*r),
    {
        let mut j: usize = 0;
        while j < self.entries.len()
            invariant
                0 <= j <= self.entries@.len(),
                forall|m: int| 0 <= m < j ==> repo_key(#[trigger] self.repositories()[m]) != repo_key(*r),
            decreases self.entries@.len() - j,
        {
            proof {
                assert(self.repositories()[j as int] == self.entries@[j as int].repository);
            }
            if self.entries[j].repository.same_as(r) {
                return Some(j);
            }
            j = j + 1;
        }
        None
    }

    /// A copy, taken whole, of the workflow list of entry `i`.
    pub fn snapshot(&self, i: usize) -> (w: Vec<Workflow>)
        requires
            i < self.repositories().len(),
        ensures
            w@ == self.lists()[i as int],
    {
        let src = &self.entries[i].workflows;
        let mut w: Vec<Workflow> = Vec::new();
        let mut j: usize = 0;
        while j < src.len()
            invariant
                0 <= j <= src@.len(),
                w@ == src@.subrange(0, j as int),
            decreases src@.len() - j,
        {
            w.push(src[j].duplicate());
            j = j + 1;
            assert(w@ =~= src@.subrange(0, j as int));
        }
        assert(src@.subrange(0, src@.len() as int) =~= src@);
        w
    }

    /// Takes the outcome of a discovery fetch for entry `i`: a fetched list
    /// replaces the entry's list wholesale, an error leaves the cache as it
    /// was. Tells whether the entry was replaced.
    pub fn poll_workflow<E>(&mut self, i: usize, fetched: Result<Vec<Workflow>, E>) -> (replaced: bool)
        requires
            old(self).wf(),
            i < old(self).repositories().len(),
        ensures
            final(self).wf(),
            final(self).repositories() == old(self).repositories(),
            final(self).lists() == after_discovery(
                old(self).lists(),
                i as int,
                match fetched {
                    Ok(w) => Some(w@),
                    Err(_) => None,
                },
            ),
            replaced == fetched is Ok,
    {
        match fetched {
            Ok(w) => {
                let ghost pre = self.entries@;
                self.entries[i].workflows = w;
                proof {
                    assert(self.repositories() =~= pre.map_values(|e: CacheEntry| e.repository));
                    assert(self.lists() =~= pre.map_values(|e: CacheEntry| e.workflows@).update(i as int, w@));
                }
                true
            },
            Err(_) => false,
        }
    }
}

/// After a successful discovery for `R` its entry holds exactly the fetched
/// list, whatever it held before; after a failed one it is unchanged. No
/// other entry moves, and every entry holds either its old list or the new
/// one, whole.
pub proof fn lemma_discovery_replaces_whole(
    lists: Seq<Seq<Workflow>>,
    i: int,
    fetched: Option<Seq<Workflow>>,
)
    requires
        0 <= i < lists.len(),
    ensures
        after_discovery(lists, i, fetched).len() == lists.len(),
        fetched matches Some(w) ==> after_discovery(lists, i, fetched)[i] == w,
        fetched is None ==> after_discovery(lists, i, fetched) == lists,
        forall|j: int|
            0 <= j < lists.len() && j != i ==> #[trigger] after_discovery(lists, i, fetched)[j]
                == lists[j],
        forall|j: int|
            0 <= j < lists.len() ==> #[trigger] after_discovery(lists, i, fetched)[j] == lists[j]
                || fetched == Some(after_discovery(lists, i, fetched)[j]),
{
}

} // verus!
