//! The properties the pipeline is built around, stated and proved once over
//! the spec-level transitions, so that every caller of the service inherits
//! them.

use crate::bytes::sp_push_unique;
use crate::errors::ErrV;
use crate::preprocess::sp_dirname;
use crate::preprocess::sp_expand_include;
use crate::preprocess::sp_expand_lines;
use crate::preprocess::sp_include_target;
use crate::preprocess::sp_is_include;
use crate::preprocess::sp_resolve;
use crate::preprocess::sp_split_lines;
use crate::service::OutcomeV;
use crate::service::PendingV;
use crate::service::PlanV;
use crate::service::SvcV;
use crate::service::sp_apply;
use crate::service::sp_create_shaders;
use crate::service::sp_first_err;
use crate::service::sp_keep_successes;
use crate::service::sp_ok_plans;
use crate::service::sp_plan_matches;
use crate::service::sp_reload;
use crate::service::sp_resolve_all;
use crate::service::sp_resolve_batch;
use crate::service::sp_union_into;
use crate::store::FileDataV;
use crate::store::FileEntryV;
use crate::store::sp_lookup;
use crate::store::sp_lookup_from;
use vstd::prelude::*;

verus! {

/// Reloading while the sources on disk still produce the already-compiled
/// build is a no-op: the compiled set is unchanged and no error is left
/// behind.
pub proof fn lemma_noop_reload(svc: SvcV, store: Seq<FileEntryV>)
    requires
        ({
            let b = sp_resolve_all(store, svc.initial, svc.use_camera_integration);
            sp_first_err(b.results, 0) is None && sp_plan_matches(
                svc.shaders,
                sp_ok_plans(b.results, 0, Seq::empty()),
            )
        }),
    ensures
        sp_reload(svc, store).shaders == svc.shaders,
        sp_reload(svc, store).last_error is None,
        sp_reload(svc, store).pending is None,
{
}

/// A root whose first line includes the root itself fails with the cycle
/// error, whatever the feature flag; longer cycles fail the same way through
/// the same visiting-chain check.
pub proof fn lemma_direct_cycle(
    store: Seq<FileEntryV>,
    root: Seq<u8>,
    content: Seq<u8>,
    use_camera_integration: bool,
)
    requires
        sp_lookup(store, root) == Some(FileDataV::Text(content)),
        sp_split_lines(content).len() > 0,
        sp_is_include(sp_split_lines(content)[0]),
        sp_dirname(root) + sp_include_target(sp_split_lines(content)[0]) == root,
    ensures
        sp_resolve(store, root, use_camera_integration).out == Result::<Seq<u8>, ErrV>::Err(
            ErrV::IncludeCycle { path: root },
        ),
{
    let lines = sp_split_lines(content);
    let visiting = seq![root];
    let deps0 = seq![root];
    assert(visiting[0] == root);
    assert(visiting.contains(root));
    let fuel = store.len() as nat;
    let r1 = sp_expand_include(store, root, visiting, deps0, fuel);
    assert(r1.out == Result::<Seq<u8>, ErrV>::Err(ErrV::IncludeCycle { path: root }));
    let rl = sp_expand_lines(store, lines, 0, sp_dirname(root), visiting, deps0, fuel);
    assert(rl.out == Result::<Seq<u8>, ErrV>::Err(ErrV::IncludeCycle { path: root }));
}

/// Two distinct files whose first lines include each other fail with the
/// cycle error as well: the chain-scoped visiting check catches the
/// revisit at depth two, whatever else the store holds.
pub proof fn lemma_mutual_cycle(
    store: Seq<FileEntryV>,
    root: Seq<u8>,
    other: Seq<u8>,
    content_root: Seq<u8>,
    content_other: Seq<u8>,
    use_camera_integration: bool,
)
    requires
        root != other,
        sp_lookup(store, root) == Some(FileDataV::Text(content_root)),
        sp_lookup(store, other) == Some(FileDataV::Text(content_other)),
        sp_split_lines(content_root).len() > 0,
        sp_is_include(sp_split_lines(content_root)[0]),
        sp_dirname(root) + sp_include_target(sp_split_lines(content_root)[0]) == other,
        sp_split_lines(content_other).len() > 0,
        sp_is_include(sp_split_lines(content_other)[0]),
        sp_dirname(other) + sp_include_target(sp_split_lines(content_other)[0]) == root,
    ensures
        sp_resolve(store, root, use_camera_integration).out == Result::<Seq<u8>, ErrV>::Err(
            ErrV::IncludeCycle { path: root },
        ),
{
    let visiting0 = seq![root];
    let deps0 = seq![root];
    let fuel = store.len() as nat;
    assert(store.len() >= 1);
    assert forall|i: int| 0 <= i < visiting0.len() implies visiting0[i] != other by {
        assert(visiting0[i] == root);
    }
    assert(!visiting0.contains(other));

    let visiting1 = visiting0.push(other);
    let deps1 = crate::bytes::sp_push_unique(deps0, other);
    assert(visiting1[0] == root);
    assert(visiting1.contains(root));

    // depth two: expanding `other`'s first line revisits `root`
    let r_inc2 = sp_expand_include(store, root, visiting1, deps1, (fuel - 1) as nat);
    assert(r_inc2.out == Result::<Seq<u8>, ErrV>::Err(ErrV::IncludeCycle { path: root }));
    let r_lines_o = sp_expand_lines(
        store,
        sp_split_lines(content_other),
        0,
        sp_dirname(other),
        visiting1,
        deps1,
        (fuel - 1) as nat,
    );
    assert(r_lines_o.out == Result::<Seq<u8>, ErrV>::Err(ErrV::IncludeCycle { path: root }));

    // depth one: expanding `root`'s first line steps into `other`
    let r_inc = sp_expand_include(store, other, visiting0, deps0, fuel);
    assert(r_inc == r_lines_o);
    let rl = sp_expand_lines(
        store,
        sp_split_lines(content_root),
        0,
        sp_dirname(root),
        visiting0,
        deps0,
        fuel,
    );
    assert(rl.out == Result::<Seq<u8>, ErrV>::Err(ErrV::IncludeCycle { path: root }));
}

/// A reload over a working compiled set whose resolve fails anywhere
/// retains the previous set untouched, plans no build, and records exactly
/// the first error it met.
pub proof fn lemma_failed_reload_retains(svc: SvcV, store: Seq<FileEntryV>)
    requires
        svc.shaders is Some,
        sp_first_err(
            sp_resolve_all(store, svc.initial, svc.use_camera_integration).results,
            0,
        ) is Some,
    ensures
        sp_reload(svc, store).shaders == svc.shaders,
        sp_reload(svc, store).pending is None,
        sp_reload(svc, store).last_error == sp_first_err(
            sp_resolve_all(store, svc.initial, svc.use_camera_integration).results,
            0,
        ),
{
}

/// Before a compiled set exists, a failing root is not a hard failure of
/// the batch: the reload still plans a build holding every root that did
/// resolve, so only the failing entries' slots stay absent.
pub proof fn lemma_construction_failure_is_per_entry(svc: SvcV, store: Seq<FileEntryV>)
    requires
        svc.shaders is None,
    ensures
        ({
            let b = sp_resolve_all(store, svc.initial, svc.use_camera_integration);
            sp_reload(svc, store).pending == Some(
                PendingV {
                    plans: sp_ok_plans(b.results, 0, Seq::empty()),
                    complete: sp_first_err(b.results, 0) is None,
                },
            )
        }),
        sp_reload(svc, store).shaders == svc.shaders,
{
}

/// Applying a first build always yields a compiled set: the full set when
/// every compile succeeded, and otherwise exactly the shaders of the
/// outcomes that succeeded — fewer compiled shaders than requested, never
/// none of them for one bad entry.
pub proof fn lemma_construction_apply_is_per_entry(svc: SvcV, outcomes: Seq<OutcomeV>)
    requires
        svc.shaders is None,
        svc.pending is Some,
    ensures
        sp_apply(svc, outcomes).shaders is Some,
        match svc.pending {
            Some(p) => match sp_create_shaders(p.plans, outcomes) {
                Ok(shaders) => sp_apply(svc, outcomes).shaders == Some(shaders),
                Err(_) => sp_apply(svc, outcomes).shaders == Some(
                    sp_keep_successes(p.plans, outcomes, 0, Seq::empty()),
                ),
            },
            None => true,
        },
{
}

/// A pending build of every root whose compilation fully succeeds replaces
/// the compiled set and clears the error slot.
pub proof fn lemma_successful_apply(svc: SvcV, outcomes: Seq<OutcomeV>)
    requires
        svc.pending matches Some(p) && p.complete && sp_create_shaders(p.plans, outcomes) is Ok,
    ensures
        sp_apply(svc, outcomes).last_error is None,
        sp_apply(svc, outcomes).shaders is Some,
        match svc.pending {
            Some(p) => match sp_create_shaders(p.plans, outcomes) {
                Ok(shaders) => sp_apply(svc, outcomes).shaders == Some(shaders),
                Err(_) => true,
            },
            None => true,
        },
{
}

/// Over a working compiled set, a pending build with any failing compile is
/// rejected whole: the previous set is retained and the first compile error
/// recorded.
pub proof fn lemma_failed_apply_retains(svc: SvcV, outcomes: Seq<OutcomeV>)
    requires
        svc.shaders is Some,
        svc.pending matches Some(p) && sp_create_shaders(p.plans, outcomes) is Err,
    ensures
        sp_apply(svc, outcomes).shaders == svc.shaders,
        match svc.pending {
            Some(p) => match sp_create_shaders(p.plans, outcomes) {
                Err(e) => sp_apply(svc, outcomes).last_error == Some(e),
                Ok(_) => true,
            },
            None => true,
        },
{
}

/// Once the service holds a compiled set, no transition takes it away: a
/// reload never touches it, and applying a build either replaces it or
/// keeps it.
pub proof fn lemma_compiled_set_never_lost(
    svc: SvcV,
    store: Seq<FileEntryV>,
    outcomes: Seq<OutcomeV>,
)
    requires
        svc.shaders is Some,
    ensures
        sp_reload(svc, store).shaders is Some,
        sp_apply(svc, outcomes).shaders is Some,
{
}

/// Every reload recomputes the watched set as the dependency union of the
/// whole attempted batch — every root, also the failing ones — so that
/// fixing any broken file is itself observable.
pub proof fn lemma_watch_set_recomputed(svc: SvcV, store: Seq<FileEntryV>)
    ensures
        sp_reload(svc, store).all_files == sp_resolve_all(
            store,
            svc.initial,
            svc.use_camera_integration,
        ).deps,
{
}

/// The error slot is cleared by a reload only when every root resolved; a
/// reload that met any error never clears it.
pub proof fn lemma_error_cleared_only_by_success(svc: SvcV, store: Seq<FileEntryV>)
    requires
        svc.last_error is Some,
        sp_reload(svc, store).last_error is None,
    ensures
        sp_first_err(
            sp_resolve_all(store, svc.initial, svc.use_camera_integration).results,
            0,
        ) is None,
{
}

/// The error slot is cleared by applying a build only when the build
/// covered every root and every compile of it succeeded.
pub proof fn lemma_apply_clears_only_on_success(svc: SvcV, outcomes: Seq<OutcomeV>)
    requires
        svc.last_error is Some,
        sp_apply(svc, outcomes).last_error is None,
    ensures
        svc.pending is Some,
        match svc.pending {
            Some(p) => p.complete && sp_create_shaders(p.plans, outcomes) is Ok,
            None => true,
        },
{
}

proof fn lemma_plain_lines_expand_clean(
    store: Seq<FileEntryV>,
    lines: Seq<Seq<u8>>,
    i: int,
    dir: Seq<u8>,
    visiting: Seq<Seq<u8>>,
    deps: Seq<Seq<u8>>,
    fuel: nat,
)
    requires
        forall|k: int| i <= k < lines.len() ==> !sp_is_include(#[trigger] lines[k]),
    ensures
        sp_expand_lines(store, lines, i, dir, visiting, deps, fuel).deps == deps,
        sp_expand_lines(store, lines, i, dir, visiting, deps, fuel).out is Ok,
    decreases lines.len() - i,
{
    if i < lines.len() {
        lemma_plain_lines_expand_clean(store, lines, i + 1, dir, visiting, deps, fuel);
    }
}

/// Dependency completeness: for a root whose directives include A and B,
/// where A includes C and no other line of the four files is a directive,
/// resolution succeeds and the dependency list is exactly root, A, C, B —
/// every file of the closure once, root first, in first-visited order.
pub proof fn lemma_dependency_completeness(
    store: Seq<FileEntryV>,
    root: Seq<u8>,
    fa: Seq<u8>,
    fb: Seq<u8>,
    fc: Seq<u8>,
    content_root: Seq<u8>,
    content_a: Seq<u8>,
    content_b: Seq<u8>,
    content_c: Seq<u8>,
    use_camera_integration: bool,
)
    requires
        root != fa && root != fb && root != fc && fa != fb && fa != fc && fb != fc,
        sp_lookup(store, root) == Some(FileDataV::Text(content_root)),
        sp_lookup(store, fa) == Some(FileDataV::Text(content_a)),
        sp_lookup(store, fb) == Some(FileDataV::Text(content_b)),
        sp_lookup(store, fc) == Some(FileDataV::Text(content_c)),
        sp_split_lines(content_root).len() == 2,
        sp_is_include(sp_split_lines(content_root)[0]),
        sp_dirname(root) + sp_include_target(sp_split_lines(content_root)[0]) == fa,
        sp_is_include(sp_split_lines(content_root)[1]),
        sp_dirname(root) + sp_include_target(sp_split_lines(content_root)[1]) == fb,
        sp_split_lines(content_a).len() == 1,
        sp_is_include(sp_split_lines(content_a)[0]),
        sp_dirname(fa) + sp_include_target(sp_split_lines(content_a)[0]) == fc,
        forall|k: int|
            0 <= k < sp_split_lines(content_b).len() ==> !sp_is_include(
                #[trigger] sp_split_lines(content_b)[k],
            ),
        forall|k: int|
            0 <= k < sp_split_lines(content_c).len() ==> !sp_is_include(
                #[trigger] sp_split_lines(content_c)[k],
            ),
    ensures
        sp_resolve(store, root, use_camera_integration).out is Ok,
        sp_resolve(store, root, use_camera_integration).deps =~= seq![root, fa, fc, fb],
{
    let fuel = store.len() as nat;
    assert(store.len() >= 1);
    if store.len() == 1 {
        assert(sp_lookup_from(store, root, 1) is None);
        assert(sp_lookup_from(store, fa, 1) is None);
        assert(store[0].path == root);
        assert(store[0].path == fa);
    }
    assert(store.len() >= 2);

    let visiting0 = seq![root];
    let deps0 = seq![root];

    // root's first directive steps into A
    assert forall|i: int| 0 <= i < visiting0.len() implies visiting0[i] != fa by {
        assert(visiting0[i] == root);
    }
    assert(!visiting0.contains(fa));
    assert forall|i: int| 0 <= i < deps0.len() implies deps0[i] != fa by {
        assert(deps0[i] == root);
    }
    assert(!deps0.contains(fa));
    let deps1 = crate::bytes::sp_push_unique(deps0, fa);
    assert(deps1 =~= seq![root, fa]);
    let visiting1 = visiting0.push(fa);

    // A's only directive steps into C
    assert forall|i: int| 0 <= i < visiting1.len() implies visiting1[i] != fc by {
        assert(visiting1[i] == root || visiting1[i] == fa);
    }
    assert(!visiting1.contains(fc));
    assert forall|i: int| 0 <= i < deps1.len() implies deps1[i] != fc by {
        assert(deps1[i] == root || deps1[i] == fa);
    }
    assert(!deps1.contains(fc));
    let deps2 = crate::bytes::sp_push_unique(deps1, fc);
    assert(deps2 =~= seq![root, fa, fc]);
    let visiting2 = visiting1.push(fc);

    // C holds no directive: its expansion adds nothing
    lemma_plain_lines_expand_clean(
        store,
        sp_split_lines(content_c),
        0,
        sp_dirname(fc),
        visiting2,
        deps2,
        (fuel - 2) as nat,
    );
    let r_c = sp_expand_include(store, fc, visiting1, deps1, (fuel - 1) as nat);
    assert(r_c.deps == deps2 && r_c.out is Ok);

    // A's line list ends after the directive
    let r_a_rest = sp_expand_lines(
        store,
        sp_split_lines(content_a),
        1,
        sp_dirname(fa),
        visiting1,
        deps2,
        (fuel - 1) as nat,
    );
    assert(r_a_rest.deps == deps2 && r_a_rest.out is Ok);
    let r_a = sp_expand_include(store, fa, visiting0, deps0, fuel);
    assert(r_a.deps == deps2 && r_a.out is Ok);

    // root's second directive steps into B
    assert forall|i: int| 0 <= i < visiting0.len() implies visiting0[i] != fb by {
        assert(visiting0[i] == root);
    }
    assert(!visiting0.contains(fb));
    assert forall|i: int| 0 <= i < deps2.len() implies deps2[i] != fb by {
        assert(deps2[i] == root || deps2[i] == fa || deps2[i] == fc);
    }
    assert(!deps2.contains(fb));
    let deps3 = crate::bytes::sp_push_unique(deps2, fb);
    assert(deps3 =~= seq![root, fa, fc, fb]);
    let visiting_b = visiting0.push(fb);

    // B holds no directive either
    lemma_plain_lines_expand_clean(
        store,
        sp_split_lines(content_b),
        0,
        sp_dirname(fb),
        visiting_b,
        deps3,
        (fuel - 1) as nat,
    );
    let r_b = sp_expand_include(store, fb, visiting0, deps2, fuel);
    assert(r_b.deps == deps3 && r_b.out is Ok);

    // root's line list ends after its two directives
    let r_root_end = sp_expand_lines(
        store,
        sp_split_lines(content_root),
        2,
        sp_dirname(root),
        visiting0,
        deps3,
        fuel,
    );
    assert(r_root_end.deps == deps3 && r_root_end.out is Ok);
    let r_root_1 = sp_expand_lines(
        store,
        sp_split_lines(content_root),
        1,
        sp_dirname(root),
        visiting0,
        deps2,
        fuel,
    );
    assert(r_root_1.deps == deps3 && r_root_1.out is Ok);
    let r_root = sp_expand_lines(
        store,
        sp_split_lines(content_root),
        0,
        sp_dirname(root),
        visiting0,
        deps0,
        fuel,
    );
    assert(r_root.deps == deps3 && r_root.out is Ok);
}

pub proof fn lemma_push_unique_nodup(l: Seq<Seq<u8>>, x: Seq<u8>)
    requires
        l.no_duplicates(),
    ensures
        sp_push_unique(l, x).no_duplicates(),
{
    if !l.contains(x) {
        let p = l.push(x);
        assert forall|i: int, j: int| 0 <= i < p.len() && 0 <= j < p.len() && i != j implies p[i]
            != p[j] by {
            if i < l.len() && j < l.len() {
                assert(p[i] == l[i] && p[j] == l[j]);
            } else if i < l.len() {
                assert(p[i] == l[i] && p[j] == x);
                assert(l.contains(l[i]));
            } else {
                assert(p[i] == x && p[j] == l[j]);
                assert(l.contains(l[j]));
            }
        }
    }
}

pub proof fn lemma_union_into_nodup(acc: Seq<Seq<u8>>, xs: Seq<Seq<u8>>, i: int)
    requires
        acc.no_duplicates(),
    ensures
        sp_union_into(acc, xs, i).no_duplicates(),
    decreases xs.len() - i,
{
    if i < xs.len() {
        lemma_push_unique_nodup(acc, xs[i]);
        lemma_union_into_nodup(sp_push_unique(acc, xs[i]), xs, i + 1);
    }
}

pub proof fn lemma_expand_lines_deps_nodup(
    store: Seq<FileEntryV>,
    lines: Seq<Seq<u8>>,
    i: int,
    dir: Seq<u8>,
    visiting: Seq<Seq<u8>>,
    deps: Seq<Seq<u8>>,
    fuel: nat,
)
    requires
        deps.no_duplicates(),
    ensures
        sp_expand_lines(store, lines, i, dir, visiting, deps, fuel).deps.no_duplicates(),
    decreases fuel, 1int, lines.len() - i,
{
    if i < lines.len() {
        let line = lines[i];
        if sp_is_include(line) {
            let target = dir + sp_include_target(line);
            lemma_expand_include_deps_nodup(store, target, visiting, deps, fuel);
            let r1 = sp_expand_include(store, target, visiting, deps, fuel);
            match r1.out {
                Err(_) => {},
                Ok(_) => {
                    lemma_expand_lines_deps_nodup(store, lines, i + 1, dir, visiting, r1.deps, fuel);
                },
            }
        } else {
            lemma_expand_lines_deps_nodup(store, lines, i + 1, dir, visiting, deps, fuel);
        }
    }
}

pub proof fn lemma_expand_include_deps_nodup(
    store: Seq<FileEntryV>,
    target: Seq<u8>,
    visiting: Seq<Seq<u8>>,
    deps: Seq<Seq<u8>>,
    fuel: nat,
)
    requires
        deps.no_duplicates(),
    ensures
        sp_expand_include(store, target, visiting, deps, fuel).deps.no_duplicates(),
    decreases fuel, 0int, 0int,
{
    lemma_push_unique_nodup(deps, target);
    let deps1 = sp_push_unique(deps, target);
    if !visiting.contains(target) {
        match sp_lookup(store, target) {
            Some(FileDataV::Text(content)) => {
                if fuel > 0 {
                    lemma_expand_lines_deps_nodup(
                        store,
                        sp_split_lines(content),
                        0,
                        sp_dirname(target),
                        visiting.push(target),
                        deps1,
                        (fuel - 1) as nat,
                    );
                }
            },
            _ => {},
        }
    }
}

pub proof fn lemma_resolve_deps_nodup(
    store: Seq<FileEntryV>,
    root: Seq<u8>,
    use_camera_integration: bool,
)
    ensures
        sp_resolve(store, root, use_camera_integration).deps.no_duplicates(),
{
    let deps0 = seq![root];
    assert(deps0.no_duplicates());
    match sp_lookup(store, root) {
        Some(FileDataV::Text(content)) => {
            lemma_expand_lines_deps_nodup(
                store,
                sp_split_lines(content),
                0,
                sp_dirname(root),
                seq![root],
                deps0,
                store.len() as nat,
            );
        },
        _ => {},
    }
}

pub proof fn lemma_resolve_batch_deps_nodup(
    store: Seq<FileEntryV>,
    roots: Seq<Seq<u8>>,
    i: int,
    deps: Seq<Seq<u8>>,
    results: Seq<Result<PlanV, ErrV>>,
    use_camera_integration: bool,
)
    requires
        deps.no_duplicates(),
    ensures
        sp_resolve_batch(
            store,
            roots,
            i,
            deps,
            results,
            use_camera_integration,
        ).deps.no_duplicates(),
    decreases roots.len() - i,
{
    if i < roots.len() {
        let r = sp_resolve(store, roots[i], use_camera_integration);
        lemma_union_into_nodup(deps, r.deps, 0);
        let deps1 = sp_union_into(deps, r.deps, 0);
        let entry: Result<PlanV, ErrV> = match r.out {
            Ok(txt) => Ok(PlanV { text: txt, files: r.deps }),
            Err(e) => Err(e),
        };
        lemma_resolve_batch_deps_nodup(
            store,
            roots,
            i + 1,
            deps1,
            results.push(entry),
            use_camera_integration,
        );
    }
}

proof fn lemma_push_unique_prefix(l: Seq<Seq<u8>>, x: Seq<u8>)
    ensures
        l.is_prefix_of(sp_push_unique(l, x)),
{
    if !l.contains(x) {
        assert(l =~= l.push(x).subrange(0, l.len() as int));
    }
}

proof fn lemma_prefix_trans(a: Seq<Seq<u8>>, b: Seq<Seq<u8>>, c: Seq<Seq<u8>>)
    requires
        a.is_prefix_of(b),
        b.is_prefix_of(c),
    ensures
        a.is_prefix_of(c),
{
    assert forall|i: int| 0 <= i < a.len() implies a[i] == c.subrange(0, a.len() as int)[i] by {
        assert(a[i] == b.subrange(0, b.len() as int)[i]);
        assert(b[i] == c.subrange(0, b.len() as int)[i]);
    }
    assert(a =~= c.subrange(0, a.len() as int));
}

proof fn lemma_expand_lines_deps_prefix(
    store: Seq<FileEntryV>,
    lines: Seq<Seq<u8>>,
    i: int,
    dir: Seq<u8>,
    visiting: Seq<Seq<u8>>,
    deps: Seq<Seq<u8>>,
    fuel: nat,
)
    ensures
        deps.is_prefix_of(sp_expand_lines(store, lines, i, dir, visiting, deps, fuel).deps),
    decreases fuel, 1int, lines.len() - i,
{
    assert(deps =~= deps.subrange(0, deps.len() as int));
    if i < lines.len() {
        let line = lines[i];
        if sp_is_include(line) {
            let target = dir + sp_include_target(line);
            lemma_expand_include_deps_prefix(store, target, visiting, deps, fuel);
            let r1 = sp_expand_include(store, target, visiting, deps, fuel);
            match r1.out {
                Err(_) => {},
                Ok(_) => {
                    lemma_expand_lines_deps_prefix(
                        store,
                        lines,
                        i + 1,
                        dir,
                        visiting,
                        r1.deps,
                        fuel,
                    );
                    let r2 = sp_expand_lines(store, lines, i + 1, dir, visiting, r1.deps, fuel);
                    lemma_prefix_trans(deps, r1.deps, r2.deps);
                },
            }
        } else {
            lemma_expand_lines_deps_prefix(store, lines, i + 1, dir, visiting, deps, fuel);
        }
    }
}

proof fn lemma_expand_include_deps_prefix(
    store: Seq<FileEntryV>,
    target: Seq<u8>,
    visiting: Seq<Seq<u8>>,
    deps: Seq<Seq<u8>>,
    fuel: nat,
)
    ensures
        deps.is_prefix_of(sp_expand_include(store, target, visiting, deps, fuel).deps),
    decreases fuel, 0int, 0int,
{
    lemma_push_unique_prefix(deps, target);
    let deps1 = sp_push_unique(deps, target);
    if !visiting.contains(target) {
        match sp_lookup(store, target) {
            Some(FileDataV::Text(content)) => {
                if fuel > 0 {
                    lemma_expand_lines_deps_prefix(
                        store,
                        sp_split_lines(content),
                        0,
                        sp_dirname(target),
                        visiting.push(target),
                        deps1,
                        (fuel - 1) as nat,
                    );
                    let r = sp_expand_lines(
                        store,
                        sp_split_lines(content),
                        0,
                        sp_dirname(target),
                        visiting.push(target),
                        deps1,
                        (fuel - 1) as nat,
                    );
                    lemma_prefix_trans(deps, deps1, r.deps);
                }
            },
            _ => {},
        }
    }
}

/// The dependency list of a resolution always opens with the root itself:
/// the root is recorded first, and expansion only appends the includes it
/// discovers after it.
pub proof fn lemma_resolve_deps_root_first(
    store: Seq<FileEntryV>,
    root: Seq<u8>,
    use_camera_integration: bool,
)
    ensures
        sp_resolve(store, root, use_camera_integration).deps.len() >= 1,
        sp_resolve(store, root, use_camera_integration).deps[0] == root,
{
    let deps0 = seq![root];
    match sp_lookup(store, root) {
        Some(FileDataV::Text(content)) => {
            lemma_expand_lines_deps_prefix(
                store,
                sp_split_lines(content),
                0,
                sp_dirname(root),
                seq![root],
                deps0,
                store.len() as nat,
            );
            let r = sp_expand_lines(
                store,
                sp_split_lines(content),
                0,
                sp_dirname(root),
                seq![root],
                deps0,
                store.len() as nat,
            );
            assert(deps0[0] == r.deps.subrange(0, 1)[0]);
        },
        _ => {},
    }
}

/// The dependency list of a resolution, and the watched union over every
/// root, hold each visited file once: duplicates are dropped, first
/// occurrences kept.
pub proof fn lemma_deps_no_duplicates(
    store: Seq<FileEntryV>,
    roots: Seq<Seq<u8>>,
    root: Seq<u8>,
    use_camera_integration: bool,
)
    ensures
        sp_resolve(store, root, use_camera_integration).deps.no_duplicates(),
        sp_resolve_all(store, roots, use_camera_integration).deps.no_duplicates(),
{
    lemma_resolve_deps_nodup(store, root, use_camera_integration);
    assert(Seq::<Seq<u8>>::empty().no_duplicates());
    lemma_resolve_batch_deps_nodup(
        store,
        roots,
        0,
        Seq::empty(),
        Seq::empty(),
        use_camera_integration,
    );
}

} // verus!
