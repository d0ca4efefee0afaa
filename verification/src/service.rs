//! The shader service: the state machine that owns the compiled set.
//!
//! The render thread drives it once per frame.  A reload re-resolves every
//! root with the current feature flag — every root, also after one of them
//! failed — and recomputes the watched dependency union over the whole
//! attempt, so that fixing any broken file is itself observed.  Compiling
//! needs the GPU, which the host owns, so a reload that found changed
//! sources leaves a pending build: the host compiles the planned sources
//! and hands the outcomes to [`ShaderService::apply_build`].
//!
//! Failure policy: at construction, failures are per entry — a root that
//! does not resolve or compile leaves its slot absent and the other shaders
//! live, so callers may see fewer compiled shaders than requested paths.
//! Once a compiled set exists, a reload is all or nothing: any resolve or
//! compile failure rejects the whole attempt and retains the previous
//! working set.  The last error is cleared only by an attempt that fully
//! succeeds.

use crate::bytes::bytes_eq;
use crate::bytes::clone_bytes;
use crate::bytes::clone_list;
use crate::bytes::dv;
use crate::bytes::lemma_vmap_push;
use crate::bytes::lists_eq;
use crate::bytes::push_unique;
use crate::bytes::sp_push_unique;
use crate::bytes::vmap;
use crate::errors::ErrV;
use crate::errors::ShaderError;
use crate::locations::RawUniformLocations;
use crate::locations::ShaderLocations;
use crate::locations::get_uniform_locations;
use crate::locations::sp_locations;
use crate::preprocess::resolve;
use crate::preprocess::sp_resolve;
use crate::store::FileEntryV;
use crate::store::FileStore;
use vstd::prelude::*;

verus! {

/// A compiled GPU program handle.
#[derive(Debug, Clone, Copy, PartialEq, Eq, Structural)]
pub struct ShaderProgram {
    pub id: u32,
}

/// Spec-level mirror of [`SkuggboxShader`].
pub struct ShaderVw {
    pub program: ShaderProgram,
    pub locations: ShaderLocations,
    pub files: Seq<Seq<u8>>,
    pub source: Seq<u8>,
}

/// Everything the service keeps per compiled shader: the program handle,
/// its uniform table, the files it was resolved from, and the preprocessed
/// source it was compiled from.
#[derive(Debug, Clone)]
pub struct SkuggboxShader {
    pub shader_program: ShaderProgram,
    pub locations: ShaderLocations,
    pub files: Vec<Vec<u8>>,
    pub source: Vec<u8>,
}

impl View for SkuggboxShader {
    type V = ShaderVw;

    open spec fn view(&self) -> ShaderVw {
        ShaderVw {
            program: self.shader_program,
            locations: self.locations,
            files: dv(self.files@),
            source: self.source@,
        }
    }
}

/// Spec-level mirror of [`ShaderPlan`].
pub struct PlanV {
    pub text: Seq<u8>,
    pub files: Seq<Seq<u8>>,
}

/// One shader of a planned build: the preprocessed source the host must
/// compile, and the files it was resolved from.
#[derive(Debug, Clone)]
pub struct ShaderPlan {
    pub text: Vec<u8>,
    pub files: Vec<Vec<u8>>,
}

impl View for ShaderPlan {
    type V = PlanV;

    open spec fn view(&self) -> PlanV {
        PlanV { text: self.text@, files: dv(self.files@) }
    }
}

/// Spec-level mirror of [`CompileOutcome`].
pub enum OutcomeV {
    Success { program: ShaderProgram, raw: RawUniformLocations },
    Failure { log: Seq<u8> },
}

/// What the host reports back for one planned source: the program handle
/// with the raw uniform locations it queried, or the GPU API's diagnostic
/// text, verbatim.
#[derive(Debug, Clone)]
pub enum CompileOutcome {
    Success { program: ShaderProgram, raw: RawUniformLocations },
    Failure { log: Vec<u8> },
}

impl View for CompileOutcome {
    type V = OutcomeV;

    open spec fn view(&self) -> OutcomeV {
        match self {
            CompileOutcome::Success { program, raw } => OutcomeV::Success {
                program: *program,
                raw: *raw,
            },
            CompileOutcome::Failure { log } => OutcomeV::Failure { log: log@ },
        }
    }
}

/// The spec value behind one per-root resolution result.
pub open spec fn sp_result_view(r: Result<ShaderPlan, ShaderError>) -> Result<PlanV, ErrV> {
    match r {
        Ok(p) => Ok(p@),
        Err(e) => Err(e@),
    }
}

/// The spec values behind a list of per-root resolution results.
pub open spec fn rv(rs: Seq<Result<ShaderPlan, ShaderError>>) -> Seq<Result<PlanV, ErrV>> {
    rs.map_values(|r: Result<ShaderPlan, ShaderError>| sp_result_view(r))
}

proof fn lemma_rv_push(v: Seq<Result<ShaderPlan, ShaderError>>, x: Result<ShaderPlan, ShaderError>)
    ensures
        rv(v.push(x)) =~= rv(v).push(sp_result_view(x)),
{
    assert forall|i: int| 0 <= i < v.len() + 1 implies rv(v.push(x))[i] == rv(v).push(
        sp_result_view(x),
    )[i] by {
        if i < v.len() {
            assert(v.push(x)[i] == v[i]);
        } else {
            assert(v.push(x)[i] == x);
        }
    }
}

/// Spec-level mirror of [`BatchOutcome`].
pub struct BatchV {
    pub deps: Seq<Seq<u8>>,
    pub results: Seq<Result<PlanV, ErrV>>,
}

/// What resolving the whole root set leaves: the dependency union of every
/// file visited by any root, and one result per root, in root order.
pub struct BatchOutcome {
    pub deps: Vec<Vec<u8>>,
    pub results: Vec<Result<ShaderPlan, ShaderError>>,
}

impl View for BatchOutcome {
    type V = BatchV;

    open spec fn view(&self) -> BatchV {
        BatchV { deps: dv(self.deps@), results: rv(self.results@) }
    }
}

/// Folds every element of `xs` from `i` on into `acc`, keeping first
/// occurrences only.
pub open spec fn sp_union_into(acc: Seq<Seq<u8>>, xs: Seq<Seq<u8>>, i: int) -> Seq<Seq<u8>>
    decreases xs.len() - i,
{
    if i >= xs.len() {
        acc
    } else {
        sp_union_into(sp_push_unique(acc, xs[i]), xs, i + 1)
    }
}

/// Resolves the roots from `i` on.  Every root is attempted — a failing one
/// contributes its error and its visited files, and the batch goes on.
pub open spec fn sp_resolve_batch(
    store: Seq<FileEntryV>,
    roots: Seq<Seq<u8>>,
    i: int,
    deps: Seq<Seq<u8>>,
    results: Seq<Result<PlanV, ErrV>>,
    use_camera_integration: bool,
) -> BatchV
    decreases roots.len() - i,
{
    if i >= roots.len() {
        BatchV { deps, results }
    } else {
        let r = sp_resolve(store, roots[i], use_camera_integration);
        let deps1 = sp_union_into(deps, r.deps, 0);
        let entry = match r.out {
            Ok(txt) => Ok(PlanV { text: txt, files: r.deps }),
            Err(e) => Err(e),
        };
        sp_resolve_batch(store, roots, i + 1, deps1, results.push(entry), use_camera_integration)
    }
}

/// The whole batch resolve over a root set.
pub open spec fn sp_resolve_all(
    store: Seq<FileEntryV>,
    roots: Seq<Seq<u8>>,
    use_camera_integration: bool,
) -> BatchV {
    sp_resolve_batch(store, roots, 0, Seq::empty(), Seq::empty(), use_camera_integration)
}

/// The first error of a batch, in root order, if any root failed.
pub open spec fn sp_first_err(results: Seq<Result<PlanV, ErrV>>, i: int) -> Option<ErrV>
    decreases results.len() - i,
{
    if i >= results.len() {
        None
    } else {
        match results[i] {
            Err(e) => Some(e),
            Ok(_) => sp_first_err(results, i + 1),
        }
    }
}

/// The plans of the roots that resolved, in root order.
pub open spec fn sp_ok_plans(
    results: Seq<Result<PlanV, ErrV>>,
    i: int,
    acc: Seq<PlanV>,
) -> Seq<PlanV>
    decreases results.len() - i,
{
    if i >= results.len() {
        acc
    } else {
        match results[i] {
            Ok(p) => sp_ok_plans(results, i + 1, acc.push(p)),
            Err(_) => sp_ok_plans(results, i + 1, acc),
        }
    }
}

fn union_into(acc: &mut Vec<Vec<u8>>, xs: &Vec<Vec<u8>>)
    ensures
        dv(final(acc)@) == sp_union_into(dv(old(acc)@), dv(xs@), 0),
{
    let mut i: usize = 0;
    while i < xs.len()
        invariant
            i <= xs@.len(),
            sp_union_into(dv(old(acc)@), dv(xs@), 0) == sp_union_into(dv(acc@), dv(xs@), i as int),
        decreases xs@.len() - i,
    {
        proof {
            assert(dv(xs@)[i as int] == xs@[i as int]@);
        }
        push_unique(acc, &xs[i]);
        i = i + 1;
    }
}

/// Resolves every root in order with the given feature flag.  No root is
/// skipped: the dependency union covers every file visited, also by the
/// roots that failed, and each root gets its own result.
pub fn resolve_shaders(
    store: &FileStore,
    shader_files: &Vec<Vec<u8>>,
    use_camera_integration: bool,
) -> (r: BatchOutcome)
    ensures
        r@ == sp_resolve_all(store@, dv(shader_files@), use_camera_integration),
{
    let mut deps: Vec<Vec<u8>> = Vec::new();
    let mut results: Vec<Result<ShaderPlan, ShaderError>> = Vec::new();
    let mut i: usize = 0;
    proof {
        assert(dv(deps@) =~= Seq::<Seq<u8>>::empty());
        assert(rv(results@) =~= Seq::<Result<PlanV, ErrV>>::empty());
    }
    while i < shader_files.len()
        invariant
            i <= shader_files@.len(),
            sp_resolve_all(store@, dv(shader_files@), use_camera_integration) == sp_resolve_batch(
                store@,
                dv(shader_files@),
                i as int,
                dv(deps@),
                rv(results@),
                use_camera_integration,
            ),
        decreases shader_files@.len() - i,
    {
        proof {
            assert(dv(shader_files@)[i as int] == shader_files@[i as int]@);
        }
        let rr = resolve(store, &shader_files[i], use_camera_integration);
        union_into(&mut deps, &rr.deps);
        match rr.out {
            Ok(txt) => {
                let entry = Ok(ShaderPlan { text: txt, files: rr.deps });
                proof {
                    lemma_rv_push(results@, entry);
                }
                results.push(entry);
            },
            Err(e) => {
                let entry = Err(e);
                proof {
                    lemma_rv_push(results@, entry);
                }
                results.push(entry);
            },
        }
        i = i + 1;
    }
    BatchOutcome { deps, results }
}

/// The first error of a batch, duplicated for the caller.
fn first_error(results: &Vec<Result<ShaderPlan, ShaderError>>) -> (r: Option<ShaderError>)
    ensures
        sp_err_view(r) == sp_first_err(rv(results@), 0),
{
    let mut i: usize = 0;
    while i < results.len()
        invariant
            i <= results@.len(),
            sp_first_err(rv(results@), 0) == sp_first_err(rv(results@), i as int),
        decreases results@.len() - i,
    {
        proof {
            assert(rv(results@)[i as int] == sp_result_view(results@[i as int]));
        }
        match &results[i] {
            Ok(_) => {},
            Err(e) => {
                return Some(e.duplicate());
            },
        }
        i = i + 1;
    }
    None
}

fn clone_plan(p: &ShaderPlan) -> (r: ShaderPlan)
    ensures
        r@ == p@,
{
    ShaderPlan { text: clone_bytes(&p.text), files: clone_list(&p.files) }
}

/// The plans of the roots that resolved, in root order.
fn ok_plans(results: &Vec<Result<ShaderPlan, ShaderError>>) -> (r: Vec<ShaderPlan>)
    ensures
        vmap(r@) == sp_ok_plans(rv(results@), 0, Seq::empty()),
{
    let mut acc: Vec<ShaderPlan> = Vec::new();
    let mut i: usize = 0;
    proof {
        assert(vmap(acc@) =~= Seq::<PlanV>::empty());
    }
    while i < results.len()
        invariant
            i <= results@.len(),
            sp_ok_plans(rv(results@), 0, Seq::empty()) == sp_ok_plans(
                rv(results@),
                i as int,
                vmap(acc@),
            ),
        decreases results@.len() - i,
    {
        proof {
            assert(rv(results@)[i as int] == sp_result_view(results@[i as int]));
        }
        match &results[i] {
            Ok(p) => {
                let c = clone_plan(p);
                proof {
                    lemma_vmap_push(acc@, c);
                }
                acc.push(c);
            },
            Err(_) => {},
        }
        i = i + 1;
    }
    acc
}

/// Builds the shaders of a planned build from the host's compile outcomes,
/// pairing each plan with its outcome in order; the first failure wins.
pub open spec fn sp_create_from(
    plans: Seq<PlanV>,
    outcomes: Seq<OutcomeV>,
    i: int,
    acc: Seq<ShaderVw>,
) -> Result<Seq<ShaderVw>, ErrV>
    decreases plans.len() - i,
{
    if i >= plans.len() {
        Ok(acc)
    } else {
        match outcomes[i] {
            OutcomeV::Failure { log } => Err(ErrV::Compile { log }),
            OutcomeV::Success { program, raw } => sp_create_from(
                plans,
                outcomes,
                i + 1,
                acc.push(
                    ShaderVw {
                        program,
                        locations: sp_locations(raw),
                        files: plans[i].files,
                        source: plans[i].text,
                    },
                ),
            ),
        }
    }
}

pub open spec fn sp_create_shaders(plans: Seq<PlanV>, outcomes: Seq<OutcomeV>) -> Result<
    Seq<ShaderVw>,
    ErrV,
> {
    sp_create_from(plans, outcomes, 0, Seq::empty())
}

/// The shaders of the outcomes that succeeded, in plan order, each failing
/// entry simply skipped.  This is the per-entry policy of construction.
pub open spec fn sp_keep_successes(
    plans: Seq<PlanV>,
    outcomes: Seq<OutcomeV>,
    i: int,
    acc: Seq<ShaderVw>,
) -> Seq<ShaderVw>
    decreases plans.len() - i,
{
    if i >= plans.len() {
        acc
    } else {
        match outcomes[i] {
            OutcomeV::Failure { log } => sp_keep_successes(plans, outcomes, i + 1, acc),
            OutcomeV::Success { program, raw } => sp_keep_successes(
                plans,
                outcomes,
                i + 1,
                acc.push(
                    ShaderVw {
                        program,
                        locations: sp_locations(raw),
                        files: plans[i].files,
                        source: plans[i].text,
                    },
                ),
            ),
        }
    }
}

/// Given the plans of a build and the host's compile outcomes, in the same
/// order, either every shader of the new set or the first compile error.
pub fn create_shaders(plans: &Vec<ShaderPlan>, outcomes: &Vec<CompileOutcome>) -> (r: Result<
    Vec<SkuggboxShader>,
    ShaderError,
>)
    requires
        plans@.len() == outcomes@.len(),
    ensures
        match sp_create_shaders(vmap(plans@), vmap(outcomes@)) {
            Ok(shaders) => r matches Ok(v) && vmap(v@) == shaders,
            Err(e) => r matches Err(er) && er@ == e,
        },
{
    let mut acc: Vec<SkuggboxShader> = Vec::new();
    let mut i: usize = 0;
    proof {
        assert(vmap(acc@) =~= Seq::<ShaderVw>::empty());
    }
    while i < plans.len()
        invariant
            plans@.len() == outcomes@.len(),
            i <= plans@.len(),
            sp_create_shaders(vmap(plans@), vmap(outcomes@)) == sp_create_from(
                vmap(plans@),
                vmap(outcomes@),
                i as int,
                vmap(acc@),
            ),
        decreases plans@.len() - i,
    {
        proof {
            assert(vmap(outcomes@)[i as int] == outcomes@[i as int]@);
            assert(vmap(plans@)[i as int] == plans@[i as int]@);
        }
        match &outcomes[i] {
            CompileOutcome::Failure { log } => {
                return Err(ShaderError::Compile { log: clone_bytes(log) });
            },
            CompileOutcome::Success { program, raw } => {
                let locations = get_uniform_locations(raw);
                let shader = SkuggboxShader {
                    shader_program: *program,
                    locations,
                    files: clone_list(&plans[i].files),
                    source: clone_bytes(&plans[i].text),
                };
                proof {
                    lemma_vmap_push(acc@, shader);
                }
                acc.push(shader);
            },
        }
        i = i + 1;
    }
    Ok(acc)
}

/// The shaders of the outcomes that succeeded, failing entries skipped.
fn keep_successes(plans: &Vec<ShaderPlan>, outcomes: &Vec<CompileOutcome>) -> (r: Vec<
    SkuggboxShader,
>)
    requires
        plans@.len() == outcomes@.len(),
    ensures
        vmap(r@) == sp_keep_successes(vmap(plans@), vmap(outcomes@), 0, Seq::empty()),
{
    let mut acc: Vec<SkuggboxShader> = Vec::new();
    let mut i: usize = 0;
    proof {
        assert(vmap(acc@) =~= Seq::<ShaderVw>::empty());
    }
    while i < plans.len()
        invariant
            plans@.len() == outcomes@.len(),
            i <= plans@.len(),
            sp_keep_successes(vmap(plans@), vmap(outcomes@), 0, Seq::empty()) == sp_keep_successes(
                vmap(plans@),
                vmap(outcomes@),
                i as int,
                vmap(acc@),
            ),
        decreases plans@.len() - i,
    {
        proof {
            assert(vmap(outcomes@)[i as int] == outcomes@[i as int]@);
            assert(vmap(plans@)[i as int] == plans@[i as int]@);
        }
        match &outcomes[i] {
            CompileOutcome::Failure { log: _ } => {},
            CompileOutcome::Success { program, raw } => {
                let locations = get_uniform_locations(raw);
                let shader = SkuggboxShader {
                    shader_program: *program,
                    locations,
                    files: clone_list(&plans[i].files),
                    source: clone_bytes(&plans[i].text),
                };
                proof {
                    lemma_vmap_push(acc@, shader);
                }
                acc.push(shader);
            },
        }
        i = i + 1;
    }
    acc
}

/// Spec-level mirror of [`PendingBuild`].
pub struct PendingV {
    pub plans: Seq<PlanV>,
    pub complete: bool,
}

/// A build the host still owes a compile for: the plans that resolved, and
/// whether they cover every requested root (`complete`) or some roots
/// failed to resolve and were dropped.
#[derive(Debug)]
pub struct PendingBuild {
    pub plans: Vec<ShaderPlan>,
    pub complete: bool,
}

impl View for PendingBuild {
    type V = PendingV;

    open spec fn view(&self) -> PendingV {
        PendingV { plans: vmap(self.plans@), complete: self.complete }
    }
}

/// Spec-level mirror of [`ShaderService`].
pub struct SvcV {
    pub shaders: Option<Seq<ShaderVw>>,
    pub initial: Seq<Seq<u8>>,
    pub all_files: Seq<Seq<u8>>,
    pub use_camera_integration: bool,
    pub last_error: Option<ErrV>,
    pub pending: Option<PendingV>,
}

pub open spec fn sp_shaders_view(s: Option<Vec<SkuggboxShader>>) -> Option<Seq<ShaderVw>> {
    match s {
        None => None,
        Some(v) => Some(vmap(v@)),
    }
}

pub open spec fn sp_err_view(e: Option<ShaderError>) -> Option<ErrV> {
    match e {
        None => None,
        Some(x) => Some(x@),
    }
}

pub open spec fn sp_pending_view(p: Option<PendingBuild>) -> Option<PendingV> {
    match p {
        None => None,
        Some(x) => Some(x@),
    }
}

/// The shader hot-reload service.  It owns the current compiled set, the
/// root paths it was built from, the union of every file to watch, the
/// feature flag for the next reload, the last error to display, and the
/// build whose compilation the host still owes.
#[derive(Debug)]
pub struct ShaderService {
    pub skuggbox_shaders: Option<Vec<SkuggboxShader>>,
    pub initial_shader_files: Vec<Vec<u8>>,
    pub all_shader_files: Vec<Vec<u8>>,
    pub use_camera_integration: bool,
    pub last_error: Option<ShaderError>,
    pub pending: Option<PendingBuild>,
}

impl View for ShaderService {
    type V = SvcV;

    open spec fn view(&self) -> SvcV {
        SvcV {
            shaders: sp_shaders_view(self.skuggbox_shaders),
            initial: dv(self.initial_shader_files@),
            all_files: dv(self.all_shader_files@),
            use_camera_integration: self.use_camera_integration,
            last_error: sp_err_view(self.last_error),
            pending: sp_pending_view(self.pending),
        }
    }
}

/// Whether a planned build would reproduce the current compiled set byte for
/// byte: same number of shaders, same preprocessed source and same file list
/// per slot.  Reloading such a no-op plan keeps the set instead of
/// recompiling it.
pub open spec fn sp_plan_matches(shaders: Option<Seq<ShaderVw>>, plans: Seq<PlanV>) -> bool {
    match shaders {
        None => false,
        Some(cur) => cur.len() == plans.len() && (forall|k: int|
            0 <= k < cur.len() ==> (#[trigger] cur[k]).source == plans[k].text && cur[k].files
                == plans[k].files),
    }
}

/// The state a fresh service starts in: no compiled set yet, flag off, the
/// dependency union of the first resolve, the first resolve error (if any
/// root failed), and the build of every root that did resolve left pending
/// for the host — a failing root drops only its own entry.
pub open spec fn sp_new(roots: Seq<Seq<u8>>, store: Seq<FileEntryV>) -> SvcV {
    let b = sp_resolve_all(store, roots, false);
    let first = sp_first_err(b.results, 0);
    SvcV {
        shaders: None,
        initial: roots,
        all_files: b.deps,
        use_camera_integration: false,
        last_error: first,
        pending: Some(
            PendingV { plans: sp_ok_plans(b.results, 0, Seq::empty()), complete: first is None },
        ),
    }
}

/// The reload transition.  Every root is re-resolved with the current flag
/// and the watched union is recomputed over the whole attempt.  With a
/// working compiled set, any resolve failure rejects the attempt and
/// retains the set; a fully resolved plan identical to the set is a no-op
/// that clears the error; anything else is left pending.  Without a
/// compiled set yet, the roots that resolved are left pending even when
/// others failed: construction failures are per entry.
pub open spec fn sp_reload(svc: SvcV, store: Seq<FileEntryV>) -> SvcV {
    let b = sp_resolve_all(store, svc.initial, svc.use_camera_integration);
    let first = sp_first_err(b.results, 0);
    let plans = sp_ok_plans(b.results, 0, Seq::empty());
    if svc.shaders is Some && first is Some {
        SvcV {
            shaders: svc.shaders,
            initial: svc.initial,
            all_files: b.deps,
            use_camera_integration: svc.use_camera_integration,
            last_error: first,
            pending: None,
        }
    } else if first is None && sp_plan_matches(svc.shaders, plans) {
        SvcV {
            shaders: svc.shaders,
            initial: svc.initial,
            all_files: b.deps,
            use_camera_integration: svc.use_camera_integration,
            last_error: None,
            pending: None,
        }
    } else {
        SvcV {
            shaders: svc.shaders,
            initial: svc.initial,
            all_files: b.deps,
            use_camera_integration: svc.use_camera_integration,
            last_error: if first is Some {
                first
            } else {
                svc.last_error
            },
            pending: Some(PendingV { plans, complete: first is None }),
        }
    }
}

/// The build-application transition.  Every compile succeeding swaps in the
/// full new set, and clears the error if the build covered every root.  On
/// a compile failure: with a previous working set, the whole build is
/// rejected and the set retained; without one, the succeeding shaders
/// become the compiled set — fewer than requested — and the first error of
/// the attempt stays recorded.  Either way the pending build is consumed.
pub open spec fn sp_apply(svc: SvcV, outcomes: Seq<OutcomeV>) -> SvcV {
    match svc.pending {
        None => svc,
        Some(p) => match sp_create_shaders(p.plans, outcomes) {
            Ok(shaders) => SvcV {
                shaders: Some(shaders),
                initial: svc.initial,
                all_files: svc.all_files,
                use_camera_integration: svc.use_camera_integration,
                last_error: if p.complete {
                    None
                } else {
                    svc.last_error
                },
                pending: None,
            },
            Err(e) => if svc.shaders is Some {
                SvcV {
                    shaders: svc.shaders,
                    initial: svc.initial,
                    all_files: svc.all_files,
                    use_camera_integration: svc.use_camera_integration,
                    last_error: Some(e),
                    pending: None,
                }
            } else {
                SvcV {
                    shaders: Some(sp_keep_successes(p.plans, outcomes, 0, Seq::empty())),
                    initial: svc.initial,
                    all_files: svc.all_files,
                    use_camera_integration: svc.use_camera_integration,
                    last_error: if p.complete {
                        Some(e)
                    } else {
                        svc.last_error
                    },
                    pending: None,
                }
            },
        },
    }
}

fn plans_match(shaders: &Option<Vec<SkuggboxShader>>, plans: &Vec<ShaderPlan>) -> (r: bool)
    ensures
        r == sp_plan_matches(sp_shaders_view(*shaders), vmap(plans@)),
{
    match shaders {
        None => false,
        Some(cur) => {
            if cur.len() != plans.len() {
                return false;
            }
            let mut k: usize = 0;
            proof {
                assert(sp_shaders_view(*shaders) == Some(vmap(cur@)));
            }
            while k < cur.len()
                invariant
                    sp_shaders_view(*shaders) == Some(vmap(cur@)),
                    cur@.len() == plans@.len(),
                    k <= cur@.len(),
                    forall|j: int|
                        0 <= j < k ==> (#[trigger] vmap(cur@)[j]).source == vmap(plans@)[j].text
                            && vmap(cur@)[j].files == vmap(plans@)[j].files,
                decreases cur@.len() - k,
            {
                proof {
                    assert(vmap(cur@)[k as int] == cur@[k as int]@);
                    assert(vmap(plans@)[k as int] == plans@[k as int]@);
                }
                if !bytes_eq(&cur[k].source, &plans[k].text) {
                    proof {
                        assert(vmap(cur@)[k as int].source != vmap(plans@)[k as int].text);
                        if sp_plan_matches(sp_shaders_view(*shaders), vmap(plans@)) {
                            assert(vmap(cur@)[k as int].source == vmap(plans@)[k as int].text);
                        }
                    }
                    return false;
                }
                if !lists_eq(&cur[k].files, &plans[k].files) {
                    proof {
                        assert(vmap(cur@)[k as int].files != vmap(plans@)[k as int].files);
                        if sp_plan_matches(sp_shaders_view(*shaders), vmap(plans@)) {
                            assert(vmap(cur@)[k as int].files == vmap(plans@)[k as int].files);
                        }
                    }
                    return false;
                }
                k = k + 1;
            }
            true
        },
    }
}

impl ShaderService {
    /// A fresh service over the given root files.  The first resolve runs
    /// with camera integration off.  A failing root is not a hard failure
    /// of the batch: its error is recorded and its entry dropped, and the
    /// build of every root that resolved is left pending for the host.
    pub fn new(shader_files: Vec<Vec<u8>>, store: &FileStore) -> (s: ShaderService)
        ensures
            s@ == sp_new(dv(shader_files@), store@),
    {
        let BatchOutcome { deps, results } = resolve_shaders(store, &shader_files, false);
        let first = first_error(&results);
        let plans = ok_plans(&results);
        let complete = first.is_none();
        ShaderService {
            skuggbox_shaders: None,
            initial_shader_files: shader_files,
            all_shader_files: deps,
            use_camera_integration: false,
            last_error: first,
            pending: Some(PendingBuild { plans, complete }),
        }
    }

    /// Re-resolves every root with the current feature flag and recomputes
    /// the watched dependency union over the whole attempt.  With a working
    /// compiled set, any resolve failure retains the set and records and
    /// returns the first error; a build identical to the current set is a
    /// no-op that clears the error; otherwise the build is left pending.
    /// Without a compiled set yet, the roots that resolved are left pending
    /// even when others failed.
    pub fn reload(&mut self, store: &FileStore) -> (r: Result<(), ShaderError>)
        ensures
            final(self)@ == sp_reload(old(self)@, store@),
            match sp_first_err(
                sp_resolve_all(store@, old(self)@.initial, old(self)@.use_camera_integration)
                    .results,
                0,
            ) {
                None => r is Ok,
                Some(e) => r matches Err(er) && er@ == e,
            },
    {
        let BatchOutcome { deps, results } = resolve_shaders(
            store,
            &self.initial_shader_files,
            self.use_camera_integration,
        );
        self.all_shader_files = deps;
        match first_error(&results) {
            Some(e) => {
                let dup = e.duplicate();
                if self.skuggbox_shaders.is_some() {
                    self.last_error = Some(e);
                    self.pending = None;
                } else {
                    let plans = ok_plans(&results);
                    self.last_error = Some(e);
                    self.pending = Some(PendingBuild { plans, complete: false });
                }
                Err(dup)
            },
            None => {
                let plans = ok_plans(&results);
                if plans_match(&self.skuggbox_shaders, &plans) {
                    self.last_error = None;
                    self.pending = None;
                    Ok(())
                } else {
                    self.pending = Some(PendingBuild { plans, complete: true });
                    Ok(())
                }
            },
        }
    }

    /// Consumes the pending build with the host's compile outcomes, given
    /// in plan order.  Full success swaps in the new set and, for a build
    /// that covered every root, clears the error.  On a compile failure:
    /// with a previous working set the whole build is rejected and the set
    /// retained; without one the succeeding shaders become the compiled
    /// set, each failing entry simply absent.
    pub fn apply_build(&mut self, outcomes: &Vec<CompileOutcome>)
        requires
            old(self)@.pending matches Some(p) && outcomes@.len() == p.plans.len(),
        ensures
            final(self)@ == sp_apply(old(self)@, vmap(outcomes@)),
    {
        let (r, partial, complete) = match &self.pending {
            Some(pb) => (
                create_shaders(&pb.plans, outcomes),
                keep_successes(&pb.plans, outcomes),
                pb.complete,
            ),
            None => (Err(ShaderError::Compile { log: Vec::new() }), Vec::new(), true),
        };
        self.pending = None;
        match r {
            Ok(shaders) => {
                self.skuggbox_shaders = Some(shaders);
                if complete {
                    self.last_error = None;
                }
            },
            Err(e) => {
                if self.skuggbox_shaders.is_some() {
                    self.last_error = Some(e);
                } else {
                    self.skuggbox_shaders = Some(partial);
                    if complete {
                        self.last_error = Some(e);
                    }
                }
            },
        }
    }

    /// The once-per-frame poll: `changed` says whether the watcher reported
    /// a file change since the last frame.  Without a change nothing
    /// happens; with one, a full reload runs.  Never blocks.
    pub fn run(&mut self, store: &FileStore, changed: bool) -> (r: Result<(), ShaderError>)
        ensures
            !changed ==> final(self)@ == old(self)@ && r is Ok,
            changed ==> final(self)@ == sp_reload(old(self)@, store@) && (match sp_first_err(
                sp_resolve_all(store@, old(self)@.initial, old(self)@.use_camera_integration)
                    .results,
                0,
            ) {
                None => r is Ok,
                Some(e) => r matches Err(er) && er@ == e,
            }),
    {
        if changed {
            self.reload(store)
        } else {
            Ok(())
        }
    }

    /// Flips the feature flag picked up by the next reload.
    pub fn set_camera_integration(&mut self, value: bool)
        ensures
            final(self)@ == (SvcV { use_camera_integration: value, ..old(self)@ }),
    {
        self.use_camera_integration = value;
    }

    /// Records that the watcher could not be started.  Watch setup failures
    /// are reported like any other error but block nothing: the compiled
    /// set and the planned build stay as they are, the service merely runs
    /// without live reload until the host retries.
    pub fn report_watch_setup(&mut self, detail: Vec<u8>)
        ensures
            final(self)@ == (SvcV {
                last_error: Some(ErrV::WatchSetup { detail: detail@ }),
                ..old(self)@
            }),
    {
        self.last_error = Some(ShaderError::WatchSetup { detail });
    }
}

} // verus!
