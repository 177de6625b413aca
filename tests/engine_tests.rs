use focus::cache::{fingerprint, CommitId, MemoCache, ENGINE_VERSION};
use focus::guard::BackedUpFile;
use focus::idle::{
    test_only_get_preemptive_sync_machine_is_active,
    test_only_set_preemptive_sync_machine_is_active, ActivityFlag, IdleError, IdleStep, IdleWait,
    SessionStatus,
};
use focus::order::{insert_sorted, lex_less};
use focus::resolver::{compute_complete_target_set, ResolveError};
use focus::selection::{Project, ProjectCatalog, Selection};
use focus::sync::{
    complete_sync, plan_sync, RepoState, SyncError, SyncInputs, SyncMode, SyncPlan, SyncStatus,
};

fn s(x: &str) -> String {
    x.to_string()
}

fn id(x: &str) -> CommitId {
    CommitId { hex: s(x) }
}

fn catalog() -> ProjectCatalog {
    ProjectCatalog {
        optional_projects: vec![
            Project { name: s("web"), targets: vec![s("//web:app"), s("//lib:core")] },
            Project { name: s("api"), targets: vec![s("//api:server"), s("//lib:core")] },
        ],
    }
}

fn repo() -> RepoState {
    RepoState {
        has_sparse_profile: true,
        sparse_profile: vec![s("/old/")],
        sync_point: None,
        preemptive_sync_point: None,
    }
}

fn inputs(computed: Option<Vec<String>>) -> SyncInputs {
    SyncInputs {
        preemptive_sync_enabled: true,
        machine_idle: true,
        head_commit: id("aaaa"),
        prefetch_commit: Some(id("bbbb")),
        computed_patterns: computed,
    }
}

#[test]
fn lexicographic_order() {
    assert!(lex_less(&s("ab"), &s("b")));
    assert!(lex_less(&s("a"), &s("ab")));
    assert!(!lex_less(&s("ab"), &s("ab")));
    assert!(!lex_less(&s("b"), &s("ab")));
}

#[test]
fn sorted_insert_dedups() {
    let mut v = vec![];
    for x in ["c", "a", "b", "a"] {
        insert_sorted(&mut v, s(x));
    }
    assert_eq!(v, vec![s("a"), s("b"), s("c")]);
}

#[test]
fn target_set_ignores_order() {
    let cat = catalog();
    let one = Selection { projects: vec![s("web"), s("api")], targets: vec![s("//z:z"), s("//a:a")] };
    let two = Selection { projects: vec![s("api"), s("web")], targets: vec![s("//a:a"), s("//z:z")] };
    let r1 = compute_complete_target_set(&one, &cat).unwrap();
    let r2 = compute_complete_target_set(&two, &cat).unwrap();
    assert_eq!(r1, r2);
    assert_eq!(
        r1,
        vec![s("//a:a"), s("//api:server"), s("//lib:core"), s("//web:app"), s("//z:z")]
    );
}

#[test]
fn unknown_layer_is_unresolvable() {
    let cat = catalog();
    let sel = Selection { projects: vec![s("web"), s("ghost")], targets: vec![] };
    assert_eq!(
        compute_complete_target_set(&sel, &cat),
        Err(ResolveError::UnresolvableCoordinate(s("ghost")))
    );
}

#[test]
fn cache_put_then_get() {
    let mut cache = MemoCache::new();
    let k = fingerprint(&id("c1"), &vec![s("//b:b"), s("//a:a")]);
    assert_eq!(cache.get(&k), None);
    cache.put(k.clone(), vec![s("/a/"), s("/b/")]);
    assert_eq!(cache.get(&k), Some(vec![s("/a/"), s("/b/")]));
    let other = fingerprint(&id("c2"), &vec![s("//a:a"), s("//b:b")]);
    assert_eq!(cache.get(&other), None);
    cache.put(k.clone(), vec![s("/c/")]);
    assert_eq!(cache.get(&k), Some(vec![s("/c/")]));
}

#[test]
fn fingerprint_ignores_order() {
    let a = fingerprint(&id("c1"), &vec![s("//b:b"), s("//a:a"), s("//b:b")]);
    let b = fingerprint(&id("c1"), &vec![s("//a:a"), s("//b:b")]);
    assert_eq!(a, b);
    assert_eq!(a.targets, vec![s("//a:a"), s("//b:b")]);
    assert_eq!(a.commit, s("c1"));
    assert_eq!(a.version, ENGINE_VERSION);
}

#[test]
fn guard_restores_unless_disarmed() {
    let before = vec![s("x")];
    let g = BackedUpFile::new(&before);
    assert_eq!(g.finish(vec![s("y")]), vec![s("x")]);
    let mut g = BackedUpFile::new(&before);
    g.set_restore(false);
    assert_eq!(g.finish(vec![s("y")]), vec![s("y")]);
}

#[test]
fn idle_config_rejected() {
    assert!(matches!(IdleWait::new(2000, 1000, 100), Err(IdleError::MaxWaitShorterThanIdle)));
    assert!(matches!(IdleWait::new(100, 1000, 2000), Err(IdleError::PollLongerThanMaxWait)));
    assert!(IdleWait::new(1000, 1000, 100).is_ok());
}

#[test]
fn idle_steps() {
    let w = IdleWait::new(500, 1000, 100).unwrap();
    assert_eq!(w.step(0, SessionStatus::Active), IdleStep::Sleep(100));
    assert_eq!(w.step(200, SessionStatus::Idle), IdleStep::Idle);
    assert_eq!(w.step(200, SessionStatus::Unknown), IdleStep::Idle);
    assert_eq!(w.step(1001, SessionStatus::Idle), IdleStep::Busy);
}

#[test]
fn activity_flag() {
    let mut f = ActivityFlag { machine_is_active: false };
    assert!(!test_only_get_preemptive_sync_machine_is_active(&f));
    test_only_set_preemptive_sync_machine_is_active(&mut f, true);
    assert!(test_only_get_preemptive_sync_machine_is_active(&f));
    assert_eq!(f.status(), SessionStatus::Active);
}

fn apply(plan: SyncPlan) -> (CommitId, Vec<String>, bool) {
    match plan {
        SyncPlan::Apply { commit, patterns, preemptive } => (commit, patterns, preemptive),
        _ => panic!("expected a profile to apply"),
    }
}

#[test]
fn normal_sync_twice_changes_nothing_the_second_time() {
    let cat = catalog();
    let sel = Selection { projects: vec![s("web")], targets: vec![] };
    let mut r = repo();
    let mut cache = MemoCache::new();
    let first = plan_sync(&r, &mut cache, &sel, &cat, SyncMode::Normal, &inputs(None)).unwrap();
    assert!(matches!(first, SyncPlan::ComputePatterns { .. }));
    let inp = inputs(Some(vec![s("/web/"), s("/lib/")]));
    let (c, p, pre) = apply(plan_sync(&r, &mut cache, &sel, &cat, SyncMode::Normal, &inp).unwrap());
    assert_eq!(c, id("aaaa"));
    assert!(!pre);
    let res = complete_sync(&mut r, c, p, pre, Some(true)).unwrap();
    assert_eq!(res.status, SyncStatus::Success);
    assert!(res.checked_out);
    assert_eq!(r.sparse_profile, vec![s("/web/"), s("/lib/")]);
    assert_eq!(r.sync_point, Some(id("aaaa")));
    let entries = cache.entries.len();
    let other = inputs(Some(vec![s("/never/")]));
    let (c, p, pre) = apply(plan_sync(&r, &mut cache, &sel, &cat, SyncMode::Normal, &other).unwrap());
    assert_eq!(p, vec![s("/web/"), s("/lib/")]);
    assert_eq!(cache.entries.len(), entries);
    let res = complete_sync(&mut r, c, p, pre, Some(false)).unwrap();
    assert!(!res.checked_out);
    assert_eq!(r.sparse_profile, vec![s("/web/"), s("/lib/")]);
    assert_eq!(r.sync_point, Some(id("aaaa")));
}

#[test]
fn failed_checkout_restores_profile() {
    let mut r = repo();
    let res = complete_sync(&mut r, id("aaaa"), vec![s("/new/")], false, None);
    assert!(matches!(res, Err(SyncError::CheckoutFailed)));
    assert_eq!(r.sparse_profile, vec![s("/old/")]);
    assert_eq!(r.sync_point, None);
}

#[test]
fn preemptive_skip_when_sync_point_matches() {
    let cat = catalog();
    let sel = Selection { projects: vec![s("web")], targets: vec![] };
    let mut r = repo();
    r.preemptive_sync_point = Some(id("bbbb"));
    let mut cache = MemoCache::new();
    let plan = plan_sync(
        &r,
        &mut cache,
        &sel,
        &cat,
        SyncMode::Preemptive { force: false },
        &inputs(Some(vec![s("/p/")])),
    )
    .unwrap();
    match plan {
        SyncPlan::Finished(res) => {
            assert_eq!(res.status, SyncStatus::SkippedSyncPointUnchanged);
            assert_eq!(res.commit_id, Some(id("bbbb")));
            assert!(!res.checked_out);
        }
        _ => panic!("expected a skip"),
    }
    assert!(cache.entries.is_empty());
    assert_eq!(r.sparse_profile, vec![s("/old/")]);
}

#[test]
fn preemptive_gates_and_errors() {
    let cat = catalog();
    let sel = Selection { projects: vec![s("web")], targets: vec![] };
    let r = repo();
    let mut cache = MemoCache::new();
    let mut inp = inputs(None);
    inp.preemptive_sync_enabled = false;
    let mode = SyncMode::Preemptive { force: false };
    match plan_sync(&r, &mut cache, &sel, &cat, mode, &inp).unwrap() {
        SyncPlan::Finished(res) => assert_eq!(res.status, SyncStatus::SkippedPreemptiveSyncDisabled),
        _ => panic!("expected a skip"),
    }
    inp.preemptive_sync_enabled = true;
    inp.machine_idle = false;
    match plan_sync(&r, &mut cache, &sel, &cat, mode, &inp).unwrap() {
        SyncPlan::Finished(res) => {
            assert_eq!(res.status, SyncStatus::SkippedPreemptiveSyncCancelledByActivity)
        }
        _ => panic!("expected a skip"),
    }
    inp.prefetch_commit = None;
    let forced = SyncMode::Preemptive { force: true };
    assert!(matches!(
        plan_sync(&r, &mut cache, &sel, &cat, forced, &inp),
        Err(SyncError::NoPrefetchCommit)
    ));
    let mut bare = repo();
    bare.has_sparse_profile = false;
    assert!(matches!(
        plan_sync(&bare, &mut cache, &sel, &cat, SyncMode::Normal, &inp),
        Err(SyncError::NotAFocusedRepo)
    ));
    let bad = Selection { projects: vec![s("ghost")], targets: vec![] };
    assert!(matches!(
        plan_sync(&r, &mut cache, &bad, &cat, SyncMode::Normal, &inp),
        Err(SyncError::UnresolvableCoordinate)
    ));
}

#[test]
fn preemptive_sync_advances_preemptive_point_only() {
    let mut r = repo();
    let res = complete_sync(&mut r, id("bbbb"), vec![s("/p/")], true, None).unwrap();
    assert_eq!(res.status, SyncStatus::Success);
    assert!(!res.checked_out);
    assert_eq!(r.preemptive_sync_point, Some(id("bbbb")));
    assert_eq!(r.sync_point, None);
    assert_eq!(r.sparse_profile, vec![s("/old/")]);
}
