//! The decisions of one synchronization pass. A pass is planned from the
//! repository's state, the selection and what the host reported, and then
//! completed with the outcome of the checkout; in between, the caller writes
//! the planned profile and checks it out.
use crate::cache::{fingerprint, key_for, lookup_entry, copy_names, CommitId, MemoCache};
use crate::guard::BackedUpFile;
use crate::order::views;
use crate::resolver::{complete_targets, compute_complete_target_set};
use crate::selection::{all_layers, ProjectCatalog, Selection};
use vstd::prelude::*;

verus! {

/// Which kind of sync should be performed.
#[derive(Clone, Copy, Debug, PartialEq, Eq, Structural)]
pub enum SyncMode {
    /// A normal, foreground sync of the working tree's head commit.
    Normal,
    /// A background sync of the prefetched upstream commit; `force` skips the
    /// enablement and idleness checks.
    Preemptive { force: bool },
}

/// That the sync was performed, or why it was skipped.
#[derive(Clone, Copy, Debug, PartialEq, Eq, Structural)]
pub enum SyncStatus {
    Success,
    SkippedSyncPointUnchanged,
    SkippedSyncPointDifferenceIrrelevant,
    SkippedPreemptiveSyncDisabled,
    SkippedPreemptiveSyncCancelledByActivity,
}

#[derive(Clone, Copy, Debug, PartialEq, Eq, Structural)]
pub enum SyncError {
    /// The repository has no sparse-checkout file.
    NotAFocusedRepo,
    /// A selected layer is not in the catalog.
    UnresolvableCoordinate,
    /// A preemptive sync found no prefetched upstream commit.
    NoPrefetchCommit,
    /// Checking out the new profile failed; the old profile was restored.
    CheckoutFailed,
}

/// The outcome of a sync.
pub struct SyncResult {
    /// Whether the working tree was checked out during the sync.
    pub checked_out: bool,
    /// The commit that was synchronized.
    pub commit_id: Option<CommitId>,
    pub status: SyncStatus,
}

/// The parts of a repository that a pass reads and changes.
pub struct RepoState {
    pub has_sparse_profile: bool,
    /// The patterns of the sparse-checkout file.
    pub sparse_profile: Vec<String>,
    pub sync_point: Option<CommitId>,
    pub preemptive_sync_point: Option<CommitId>,
}

/// What the host reported for a pass.
pub struct SyncInputs {
    pub preemptive_sync_enabled: bool,
    /// Whether the idle wait confirmed idleness.
    pub machine_idle: bool,
    pub head_commit: CommitId,
    pub prefetch_commit: Option<CommitId>,
    /// The profile computed from scratch for the pass's commit and targets,
    /// once it has been asked for.
    pub computed_patterns: Option<Vec<String>>,
}

/// What to do next.
pub enum SyncPlan {
    /// The pass is over.
    Finished(SyncResult),
    /// The profile of this commit is not cached: compute it and plan again.
    ComputePatterns { commit: CommitId },
    /// Write these patterns (unless preemptive), check out, then complete.
    Apply { commit: CommitId, patterns: Vec<String>, preemptive: bool },
}

pub struct RepoView {
    pub has_sparse_profile: bool,
    pub sparse_profile: Seq<Seq<char>>,
    pub sync_point: Option<Seq<char>>,
    pub preemptive_sync_point: Option<Seq<char>>,
}

pub struct InputsView {
    pub enabled: bool,
    pub idle: bool,
    pub head: Seq<char>,
    pub prefetch: Option<Seq<char>>,
    pub computed: Option<Seq<Seq<char>>>,
}

pub struct ResultView {
    pub checked_out: bool,
    pub commit_id: Option<Seq<char>>,
    pub status: SyncStatus,
}

pub enum PlanView {
    Finished(ResultView),
    ComputePatterns(Seq<char>),
    Apply(Seq<char>, Seq<Seq<char>>, bool),
}

pub open spec fn commit_view(o: Option<CommitId>) -> Option<Seq<char>> {
    match o {
        Some(c) => Some(c.hex@),
        None => None,
    }
}

pub open spec fn patterns_view(o: Option<Vec<String>>) -> Option<Seq<Seq<char>>> {
    match o {
        Some(p) => Some(views(p@)),
        None => None,
    }
}

impl RepoState {
    pub open spec fn view_repo(&self) -> RepoView {
        RepoView {
            has_sparse_profile: self.has_sparse_profile,
            sparse_profile: views(self.sparse_profile@),
            sync_point: commit_view(self.sync_point),
            preemptive_sync_point: commit_view(self.preemptive_sync_point),
        }
    }
}

impl SyncInputs {
    pub open spec fn view_inputs(&self) -> InputsView {
        InputsView {
            enabled: self.preemptive_sync_enabled,
            idle: self.machine_idle,
            head: self.head_commit.hex@,
            prefetch: commit_view(self.prefetch_commit),
            computed: patterns_view(self.computed_patterns),
        }
    }
}

impl SyncResult {
    pub open spec fn view_result(&self) -> ResultView {
        ResultView {
            checked_out: self.checked_out,
            commit_id: commit_view(self.commit_id),
            status: self.status,
        }
    }
}

impl SyncPlan {
    pub open spec fn view_plan(&self) -> PlanView {
        match self {
            SyncPlan::Finished(r) => PlanView::Finished(r.view_result()),
            SyncPlan::ComputePatterns { commit } => PlanView::ComputePatterns(commit.hex@),
            SyncPlan::Apply { commit, patterns, preemptive } => PlanView::Apply(
                commit.hex@,
                views(patterns@),
                *preemptive,
            ),
        }
    }
}

pub open spec fn plan_result_view(r: Result<SyncPlan, SyncError>) -> Result<PlanView, SyncError> {
    match r {
        Ok(p) => Ok(p.view_plan()),
        Err(e) => Err(e),
    }
}

pub open spec fn sync_result_view(r: Result<SyncResult, SyncError>) -> Result<ResultView, SyncError> {
    match r {
        Ok(s) => Ok(s.view_result()),
        Err(e) => Err(e),
    }
}

pub open spec fn skipped(status: SyncStatus, commit: Option<Seq<char>>) -> ResultView {
    ResultView { checked_out: false, commit_id: commit, status }
}

/// The planning half of a pass: the cache after it, and the plan.
pub open spec fn plan_spec(
    repo: RepoView,
    cache: Seq<((Seq<char>, Seq<Seq<char>>, u64), Seq<Seq<char>>)>,
    cat: Seq<(Seq<char>, Seq<Seq<char>>)>,
    projects: Seq<Seq<char>>,
    targets: Seq<Seq<char>>,
    mode: SyncMode,
    inp: InputsView,
) -> (Seq<((Seq<char>, Seq<Seq<char>>, u64), Seq<Seq<char>>)>, Result<PlanView, SyncError>) {
    let preemptive = mode is Preemptive;
    let gated = match mode {
        SyncMode::Preemptive { force } => !force,
        SyncMode::Normal => false,
    };
    if gated && !inp.enabled {
        (cache, Ok(PlanView::Finished(skipped(SyncStatus::SkippedPreemptiveSyncDisabled, None))))
    } else if gated && !inp.idle {
        (
            cache,
            Ok(
                PlanView::Finished(
                    skipped(SyncStatus::SkippedPreemptiveSyncCancelledByActivity, None),
                ),
            ),
        )
    } else if !repo.has_sparse_profile {
        (cache, Err(SyncError::NotAFocusedRepo))
    } else if !all_layers(cat, projects) {
        (cache, Err(SyncError::UnresolvableCoordinate))
    } else if preemptive && inp.prefetch is None {
        (cache, Err(SyncError::NoPrefetchCommit))
    } else {
        let c = if preemptive {
            inp.prefetch->Some_0
        } else {
            inp.head
        };
        if preemptive && (repo.sync_point == Some(c) || repo.preemptive_sync_point == Some(c)) {
            (
                cache,
                Ok(PlanView::Finished(skipped(SyncStatus::SkippedSyncPointUnchanged, Some(c)))),
            )
        } else {
            let key = key_for(c, complete_targets(cat, projects, targets));
            match lookup_entry(cache, key) {
                Some(p) => (cache, Ok(PlanView::Apply(c, p, preemptive))),
                None => match inp.computed {
                    Some(p) => (cache.push((key, p)), Ok(PlanView::Apply(c, p, preemptive))),
                    None => (cache, Ok(PlanView::ComputePatterns(c))),
                },
            }
        }
    }
}

/// The completing half of a pass: the repository after it, and the result.
/// `checkout` is the outcome of checking out the new profile: whether files
/// changed, or `None` when it failed.
pub open spec fn complete_spec(
    repo: RepoView,
    commit: Seq<char>,
    patterns: Seq<Seq<char>>,
    preemptive: bool,
    checkout: Option<bool>,
) -> (RepoView, Result<ResultView, SyncError>) {
    if preemptive {
        (
            RepoView {
                has_sparse_profile: repo.has_sparse_profile,
                sparse_profile: repo.sparse_profile,
                sync_point: repo.sync_point,
                preemptive_sync_point: Some(commit),
            },
            Ok(ResultView { checked_out: false, commit_id: Some(commit), status: SyncStatus::Success }),
        )
    } else {
        match checkout {
            None => (repo, Err(SyncError::CheckoutFailed)),
            Some(changed) => (
                RepoView {
                    has_sparse_profile: repo.has_sparse_profile,
                    sparse_profile: patterns,
                    sync_point: Some(commit),
                    preemptive_sync_point: repo.preemptive_sync_point,
                },
                Ok(
                    ResultView {
                        checked_out: changed,
                        commit_id: Some(commit),
                        status: SyncStatus::Success,
                    },
                ),
            ),
        }
    }
}

impl CommitId {
    /// A copy of this id.
    pub fn duplicate(&self) -> (r: CommitId)
        ensures
            r.hex@ == self.hex@,
    {
        CommitId { hex: self.hex.clone() }
    }
}

fn same_commit(a: &CommitId, b: &Option<CommitId>) -> (r: bool)
    ensures
        r == (commit_view(*b) == Some(a.hex@)),
{
    match b {
        Some(b) => a.hex == b.hex,
        None => false,
    }
}

/// Plans a pass: the preemptive gate, the repository check, target
/// resolution, the commit to sync, the preemptive skip and the cache.
pub fn plan_sync(
    repo: &RepoState,
    cache: &mut MemoCache,
    selection: &Selection,
    catalog: &ProjectCatalog,
    mode: SyncMode,
    inputs: &SyncInputs,
) -> (r: Result<SyncPlan, SyncError>)
    ensures
        (final(cache).view_entries(), plan_result_view(r)) == plan_spec(
            repo.view_repo(),
            old(cache).view_entries(),
            catalog.view_layers(),
            views(selection.projects@),
            views(selection.targets@),
            mode,
            inputs.view_inputs(),
        ),
{
    let (preemptive, gated) = match mode {
        SyncMode::Normal => (false, false),
        SyncMode::Preemptive { force } => (true, !force),
    };
    if gated && !inputs.preemptive_sync_enabled {
        return Ok(
            SyncPlan::Finished(
                SyncResult {
                    checked_out: false,
                    commit_id: None,
                    status: SyncStatus::SkippedPreemptiveSyncDisabled,
                },
            ),
        );
    }
    if gated && !inputs.machine_idle {
        return Ok(
            SyncPlan::Finished(
                SyncResult {
                    checked_out: false,
                    commit_id: None,
                    status: SyncStatus::SkippedPreemptiveSyncCancelledByActivity,
                },
            ),
        );
    }
    if !repo.has_sparse_profile {
        return Err(SyncError::NotAFocusedRepo);
    }
    let targets = match compute_complete_target_set(selection, catalog) {
        Ok(t) => t,
        Err(_) => {
            return Err(SyncError::UnresolvableCoordinate);
        },
    };
    let commit = if preemptive {
        match &inputs.prefetch_commit {
            Some(c) => c.duplicate(),
            None => {
                return Err(SyncError::NoPrefetchCommit);
            },
        }
    } else {
        inputs.head_commit.duplicate()
    };
    if preemptive && (same_commit(&commit, &repo.sync_point) || same_commit(
        &commit,
        &repo.preemptive_sync_point,
    )) {
        return Ok(
            SyncPlan::Finished(
                SyncResult {
                    checked_out: false,
                    commit_id: Some(commit),
                    status: SyncStatus::SkippedSyncPointUnchanged,
                },
            ),
        );
    }
    let key = fingerprint(&commit, &targets);
    match cache.get(&key) {
        Some(patterns) => Ok(SyncPlan::Apply { commit, patterns, preemptive }),
        None => match &inputs.computed_patterns {
            Some(p) => {
                cache.put(key, copy_names(p));
                Ok(SyncPlan::Apply { commit, patterns: copy_names(p), preemptive })
            },
            None => Ok(SyncPlan::ComputePatterns { commit }),
        },
    }
}

/// Completes a pass. An immediate pass rewrites the profile under a
/// backed-up-file guard: when the checkout failed the guard restores the old
/// profile and the sync point stays; otherwise the guard is disarmed and the
/// sync point advances. A preemptive pass only advances the preemptive sync
/// point.
pub fn complete_sync(
    repo: &mut RepoState,
    commit: CommitId,
    patterns: Vec<String>,
    preemptive: bool,
    checkout: Option<bool>,
) -> (r: Result<SyncResult, SyncError>)
    ensures
        (final(repo).view_repo(), sync_result_view(r)) == complete_spec(
            old(repo).view_repo(),
            commit.hex@,
            views(patterns@),
            preemptive,
            checkout,
        ),
{
    if preemptive {
        repo.preemptive_sync_point = Some(commit.duplicate());
        return Ok(SyncResult { checked_out: false, commit_id: Some(commit), status: SyncStatus::Success });
    }
    let mut guard = BackedUpFile::new(&repo.sparse_profile);
    match checkout {
        None => {
            repo.sparse_profile = guard.finish(patterns);
            Err(SyncError::CheckoutFailed)
        },
        Some(changed) => {
            repo.sync_point = Some(commit.duplicate());
            guard.set_restore(false);
            repo.sparse_profile = guard.finish(patterns);
            Ok(SyncResult { checked_out: changed, commit_id: Some(commit), status: SyncStatus::Success })
        },
    }
}

/// A failed checkout in an immediate pass leaves the repository exactly as
/// it was before the pass: the profile is restored and no sync point moves.
pub proof fn lemma_failed_checkout_restores(
    repo: RepoView,
    commit: Seq<char>,
    patterns: Seq<Seq<char>>,
)
    ensures
        complete_spec(repo, commit, patterns, false, None) == (repo, Err::<ResultView, SyncError>(
            SyncError::CheckoutFailed,
        )),
{
}

/// A preemptive pass whose prefetched commit is already a sync point
/// (immediate or preemptive) is skipped as unchanged, and changes neither
/// the cache nor, since planning only reads it, the repository. It holds
/// where the pass gets that far: preemptive sync enabled, the machine idle,
/// a sparse-checkout file, and every selected layer in the catalog.
pub proof fn lemma_preemptive_skip(
    repo: RepoView,
    cache: Seq<((Seq<char>, Seq<Seq<char>>, u64), Seq<Seq<char>>)>,
    cat: Seq<(Seq<char>, Seq<Seq<char>>)>,
    projects: Seq<Seq<char>>,
    targets: Seq<Seq<char>>,
    inp: InputsView,
    c: Seq<char>,
)
    requires
        inp.enabled,
        inp.idle,
        repo.has_sparse_profile,
        all_layers(cat, projects),
        inp.prefetch == Some(c),
        repo.preemptive_sync_point == Some(c) || repo.sync_point == Some(c),
    ensures
        plan_spec(repo, cache, cat, projects, targets, SyncMode::Preemptive { force: false }, inp)
            == (
            cache,
            Ok::<PlanView, SyncError>(
                PlanView::Finished(skipped(SyncStatus::SkippedSyncPointUnchanged, Some(c))),
            ),
        ),
{
}

/// Syncing twice: after a normal pass that applied a profile, a second
/// normal pass with the same selection, catalog and inputs finds the profile
/// in the cache, plans the same commit and patterns, and whatever its
/// checkout reports leaves the repository and the cache as the first pass
/// left them.
pub proof fn lemma_sync_idempotent(
    repo: RepoView,
    cache: Seq<((Seq<char>, Seq<Seq<char>>, u64), Seq<Seq<char>>)>,
    cat: Seq<(Seq<char>, Seq<Seq<char>>)>,
    projects: Seq<Seq<char>>,
    targets: Seq<Seq<char>>,
    inp: InputsView,
    first_checkout: bool,
    second_checkout: Option<bool>,
)
    requires
        plan_spec(repo, cache, cat, projects, targets, SyncMode::Normal, inp).1 matches Ok(
            PlanView::Apply(_, _, _),
        ),
    ensures
        ({
            let (cache1, plan1) = plan_spec(repo, cache, cat, projects, targets, SyncMode::Normal, inp);
            let (c, p) = match plan1 {
                Ok(PlanView::Apply(c, p, _)) => (c, p),
                _ => (inp.head, repo.sparse_profile),
            };
            let repo1 = complete_spec(repo, c, p, false, Some(first_checkout)).0;
            let (cache2, plan2) = plan_spec(repo1, cache1, cat, projects, targets, SyncMode::Normal, inp);
            &&& cache2 == cache1
            &&& plan2 == Ok::<PlanView, SyncError>(PlanView::Apply(c, p, false))
            &&& complete_spec(repo1, c, p, false, second_checkout).0 == repo1
        }),
{
    let (cache1, plan1) = plan_spec(repo, cache, cat, projects, targets, SyncMode::Normal, inp);
    let key = key_for(inp.head, complete_targets(cat, projects, targets));
    if lookup_entry(cache, key) is None {
        assert(cache1 == cache.push((key, inp.computed->Some_0)));
        assert(cache1.drop_last() == cache);
    }
}

} // verus!
