use skuggbox::errors::ShaderError;
use skuggbox::locations::RawUniformLocations;
use skuggbox::locations::get_uniform_locations;
use skuggbox::service::CompileOutcome;
use skuggbox::service::ShaderProgram;
use skuggbox::service::ShaderService;
use skuggbox::store::FileStore;

fn p(s: &str) -> Vec<u8> {
    s.as_bytes().to_vec()
}

fn store_of(files: &[(&str, &str)]) -> FileStore {
    let mut store = FileStore::new();
    for (path, content) in files {
        store.add_text(p(path), p(content));
    }
    store
}

fn absent() -> RawUniformLocations {
    RawUniformLocations {
        resolution: -1,
        time: -1,
        time_delta: -1,
        mouse: -1,
        sb_camera_transform: -1,
    }
}

fn ok(id: u32, raw: RawUniformLocations) -> CompileOutcome {
    CompileOutcome::Success { program: ShaderProgram { id }, raw }
}

/// Compiles whatever build is pending, reporting every program as compiled
/// with the given raw locations, and returns whether a build was pending.
fn compile_pending(service: &mut ShaderService, first_id: u32, raw: RawUniformLocations) -> bool {
    let n = match &service.pending {
        Some(pb) => pb.plans.len(),
        None => return false,
    };
    let outcomes: Vec<CompileOutcome> = (0..n).map(|k| ok(first_id + k as u32, raw)).collect();
    service.apply_build(&outcomes);
    true
}

fn program_ids(service: &ShaderService) -> Vec<u32> {
    service
        .skuggbox_shaders
        .as_ref()
        .unwrap()
        .iter()
        .map(|s| s.shader_program.id)
        .collect()
}

#[test]
fn new_collects_dependency_union() {
    let store = store_of(&[
        ("a.frag", "#include \"lib.frag\"\n"),
        ("b.frag", "#include \"lib.frag\"\n"),
        ("lib.frag", "l\n"),
    ]);
    let service = ShaderService::new(vec![p("a.frag"), p("b.frag")], &store);
    assert_eq!(
        service.all_shader_files,
        vec![p("a.frag"), p("lib.frag"), p("b.frag")]
    );
    assert!(service.last_error.is_none());
    assert!(service.skuggbox_shaders.is_none());
    // the first build is already planned, covering every root
    let pb = service.pending.as_ref().unwrap();
    assert_eq!(pb.plans.len(), 2);
    assert!(pb.complete);
}

#[test]
fn new_records_error_but_still_constructs() {
    let store = store_of(&[]);
    let service = ShaderService::new(vec![p("a.frag")], &store);
    assert!(matches!(
        service.last_error,
        Some(ShaderError::SourceRead { .. })
    ));
    assert!(service.skuggbox_shaders.is_none());
}

#[test]
fn first_build_compiles_and_binds() {
    let store = store_of(&[
        ("main.frag", "#include \"lib.frag\"\nuniform float iTime;\n"),
        ("lib.frag", ""),
    ]);
    let mut service = ShaderService::new(vec![p("main.frag")], &store);
    assert!(service.reload(&store).is_ok());
    let raw = RawUniformLocations { time: 3, ..absent() };
    assert!(compile_pending(&mut service, 7, raw));
    assert!(service.last_error.is_none());
    let shaders = service.skuggbox_shaders.as_ref().unwrap();
    assert_eq!(shaders.len(), 1);
    assert_eq!(shaders[0].shader_program.id, 7);
    assert_eq!(shaders[0].locations.time, Some(3));
    assert_eq!(shaders[0].locations.mouse, None);
    assert_eq!(shaders[0].files, vec![p("main.frag"), p("lib.frag")]);
    assert_eq!(service.all_shader_files, vec![p("main.frag"), p("lib.frag")]);
}

#[test]
fn noop_reload_keeps_compiled_set_and_no_error() {
    let store = store_of(&[("main.frag", "void main() {}\n")]);
    let mut service = ShaderService::new(vec![p("main.frag")], &store);
    assert!(service.reload(&store).is_ok());
    assert!(compile_pending(&mut service, 7, absent()));
    let before = program_ids(&service);

    // byte-identical source: the reload is a no-op, nothing is recompiled
    assert!(service.reload(&store).is_ok());
    assert!(service.pending.is_none());
    assert!(service.last_error.is_none());
    assert_eq!(program_ids(&service), before);
}

#[test]
fn failed_reload_preserves_last_good_state() {
    let good = store_of(&[("main.frag", "void main() {}\n")]);
    let mut service = ShaderService::new(vec![p("main.frag")], &good);
    assert!(service.reload(&good).is_ok());
    assert!(compile_pending(&mut service, 7, absent()));
    let before = program_ids(&service);

    // the edit introduces a missing include
    let broken = store_of(&[("main.frag", "#include \"gone.frag\"\n")]);
    let r = service.run(&broken, true);
    assert!(matches!(r, Err(ShaderError::IncludeNotFound { .. })));
    assert!(matches!(
        service.last_error,
        Some(ShaderError::IncludeNotFound { .. })
    ));
    assert_eq!(program_ids(&service), before);
    assert!(service.pending.is_none());
    // the missing target is watched, so fixing it is observable
    assert_eq!(
        service.all_shader_files,
        vec![p("main.frag"), p("gone.frag")]
    );
}

#[test]
fn recovery_clears_error() {
    let good = store_of(&[("main.frag", "void main() {}\n")]);
    let mut service = ShaderService::new(vec![p("main.frag")], &good);
    assert!(service.reload(&good).is_ok());
    assert!(compile_pending(&mut service, 7, absent()));

    let broken = store_of(&[("main.frag", "#include \"gone.frag\"\n")]);
    assert!(service.run(&broken, true).is_err());
    assert!(service.last_error.is_some());

    // edited back to valid (and different) source: a new set is compiled
    // and the error is gone
    let fixed = store_of(&[("main.frag", "void main() { /* v2 */ }\n")]);
    assert!(service.run(&fixed, true).is_ok());
    assert!(compile_pending(&mut service, 9, absent()));
    assert!(service.last_error.is_none());
    assert_eq!(program_ids(&service), vec![9]);
}

#[test]
fn recovery_to_identical_source_also_clears_error() {
    let good = store_of(&[("main.frag", "void main() {}\n")]);
    let mut service = ShaderService::new(vec![p("main.frag")], &good);
    assert!(service.reload(&good).is_ok());
    assert!(compile_pending(&mut service, 7, absent()));

    let broken = store_of(&[("main.frag", "#include \"gone.frag\"\n")]);
    assert!(service.run(&broken, true).is_err());

    // edited back byte-identically: the old set still matches, no recompile
    assert!(service.run(&good, true).is_ok());
    assert!(service.pending.is_none());
    assert!(service.last_error.is_none());
    assert_eq!(program_ids(&service), vec![7]);
}

#[test]
fn compile_failure_preserves_set_and_reports_log() {
    let store = store_of(&[("main.frag", "void main() {}\n")]);
    let mut service = ShaderService::new(vec![p("main.frag")], &store);
    assert!(service.reload(&store).is_ok());
    assert!(compile_pending(&mut service, 7, absent()));

    let edited = store_of(&[("main.frag", "void main() { broken\n")]);
    assert!(service.run(&edited, true).is_ok());
    assert!(service.pending.is_some());
    let outcomes = vec![CompileOutcome::Failure { log: p("0:1: syntax error") }];
    service.apply_build(&outcomes);
    match &service.last_error {
        Some(ShaderError::Compile { log }) => assert_eq!(log, &p("0:1: syntax error")),
        other => panic!("expected a compile error, got {:?}", other),
    }
    assert_eq!(program_ids(&service), vec![7]);
}

#[test]
fn batch_reload_is_all_or_nothing() {
    let store = store_of(&[("a.frag", "a1\n"), ("b.frag", "b1\n")]);
    let mut service = ShaderService::new(vec![p("a.frag"), p("b.frag")], &store);
    assert!(service.reload(&store).is_ok());
    assert!(compile_pending(&mut service, 1, absent()));
    assert_eq!(program_ids(&service), vec![1, 2]);

    let edited = store_of(&[("a.frag", "a2\n"), ("b.frag", "b2\n")]);
    assert!(service.run(&edited, true).is_ok());
    // the second shader fails to compile: the whole attempt is rejected
    let outcomes = vec![
        ok(10, absent()),
        CompileOutcome::Failure { log: p("bad b") },
    ];
    service.apply_build(&outcomes);
    assert_eq!(program_ids(&service), vec![1, 2]);
    assert!(matches!(
        service.last_error,
        Some(ShaderError::Compile { .. })
    ));
}

#[test]
fn poll_without_change_does_nothing() {
    let store = store_of(&[("main.frag", "void main() {}\n")]);
    let mut service = ShaderService::new(vec![p("main.frag")], &store);
    assert!(service.reload(&store).is_ok());
    assert!(compile_pending(&mut service, 7, absent()));

    let edited = store_of(&[("main.frag", "changed\n")]);
    assert!(service.run(&edited, false).is_ok());
    assert!(service.pending.is_none());
    assert_eq!(program_ids(&service), vec![7]);
}

#[test]
fn camera_flag_is_picked_up_by_next_reload() {
    let store = store_of(&[("main.frag", "void main() {}\n")]);
    let mut service = ShaderService::new(vec![p("main.frag")], &store);
    assert!(service.reload(&store).is_ok());
    assert!(compile_pending(&mut service, 7, absent()));

    service.set_camera_integration(true);
    assert!(service.reload(&store).is_ok());
    let pb = service.pending.as_ref().expect("flag change must replan");
    let text = String::from_utf8(pb.plans[0].text.clone()).unwrap();
    assert!(text.starts_with("uniform mat4 sbCameraTransform;\n"));
}

#[test]
fn uniform_absence_is_non_fatal() {
    let locations = get_uniform_locations(&absent());
    assert_eq!(locations.resolution, None);
    assert_eq!(locations.time, None);
    assert_eq!(locations.time_delta, None);
    assert_eq!(locations.mouse, None);
    assert_eq!(locations.sb_camera_transform, None);
}

#[test]
fn uniform_locations_map_raw_answers() {
    let raw = RawUniformLocations {
        resolution: 0,
        time: 1,
        time_delta: 2,
        mouse: 3,
        sb_camera_transform: -1,
    };
    let locations = get_uniform_locations(&raw);
    assert_eq!(locations.resolution, Some(0));
    assert_eq!(locations.time, Some(1));
    assert_eq!(locations.time_delta, Some(2));
    assert_eq!(locations.mouse, Some(3));
    assert_eq!(locations.sb_camera_transform, None);
}

#[test]
fn watch_setup_failure_is_reported_not_fatal() {
    let store = store_of(&[("main.frag", "void main() {}\n")]);
    let mut service = ShaderService::new(vec![p("main.frag")], &store);
    assert!(compile_pending(&mut service, 7, absent()));
    service.report_watch_setup(p("no notify backend"));
    match &service.last_error {
        Some(ShaderError::WatchSetup { detail }) => {
            assert_eq!(detail, &p("no notify backend"))
        }
        other => panic!("expected a watch setup error, got {:?}", other),
    }
    // the failure blocks nothing: the compiled set stays live
    assert_eq!(program_ids(&service), vec![7]);
}

#[test]
fn watch_setup_error_carries_detail() {
    let e = ShaderError::WatchSetup { detail: p("no notify backend") };
    let d = e.duplicate();
    match d {
        ShaderError::WatchSetup { detail } => assert_eq!(detail, p("no notify backend")),
        other => panic!("expected a watch setup error, got {:?}", other),
    }
}

#[test]
fn construction_keeps_siblings_when_one_root_fails_to_resolve() {
    // b.frag is missing: only its slot is absent, a.frag still compiles
    let store = store_of(&[("a.frag", "a1\n")]);
    let mut service = ShaderService::new(vec![p("a.frag"), p("b.frag")], &store);
    assert!(matches!(
        service.last_error,
        Some(ShaderError::SourceRead { .. })
    ));
    let pb = service.pending.as_ref().unwrap();
    assert_eq!(pb.plans.len(), 1);
    assert!(!pb.complete);
    assert!(compile_pending(&mut service, 5, absent()));
    // fewer compiled shaders than requested paths, not none
    assert_eq!(program_ids(&service), vec![5]);
    // the first error of the attempt stays reported
    assert!(matches!(
        service.last_error,
        Some(ShaderError::SourceRead { .. })
    ));
}

#[test]
fn construction_keeps_siblings_when_one_compile_fails() {
    let store = store_of(&[("a.frag", "a1\n"), ("b.frag", "b1\n")]);
    let mut service = ShaderService::new(vec![p("a.frag"), p("b.frag")], &store);
    assert!(service.last_error.is_none());
    let outcomes = vec![
        CompileOutcome::Failure { log: p("bad a") },
        ok(8, absent()),
    ];
    service.apply_build(&outcomes);
    // the succeeding shader lives; only the failing entry is absent
    assert_eq!(program_ids(&service), vec![8]);
    assert_eq!(
        service.skuggbox_shaders.as_ref().unwrap()[0].source,
        p("b1\n")
    );
    match &service.last_error {
        Some(ShaderError::Compile { log }) => assert_eq!(log, &p("bad a")),
        other => panic!("expected a compile error, got {:?}", other),
    }
}

#[test]
fn construction_with_no_resolvable_root_yields_empty_set() {
    let store = store_of(&[]);
    let mut service = ShaderService::new(vec![p("a.frag")], &store);
    let pb = service.pending.as_ref().unwrap();
    assert_eq!(pb.plans.len(), 0);
    assert!(!pb.complete);
    service.apply_build(&vec![]);
    assert_eq!(service.skuggbox_shaders.as_ref().unwrap().len(), 0);
    assert!(service.last_error.is_some());
}

#[test]
fn resolve_shaders_attempts_every_root() {
    let store = store_of(&[
        ("a.frag", "#include \"lib.frag\"\n"),
        ("lib.frag", "l\n"),
        ("b.frag", "#include \"gone.frag\"\n"),
        ("c.frag", "still reached\n"),
    ]);
    let roots = vec![p("a.frag"), p("b.frag"), p("c.frag")];
    let batch = skuggbox::service::resolve_shaders(&store, &roots, false);
    // one result per root, in root order; the failure stops nothing
    assert_eq!(batch.results.len(), 3);
    assert!(batch.results[0].is_ok());
    assert!(matches!(
        batch.results[1],
        Err(ShaderError::IncludeNotFound { .. })
    ));
    assert!(batch.results[2].is_ok());
    // the union covers every root's visited files, the failing one included
    assert_eq!(
        batch.deps,
        vec![
            p("a.frag"),
            p("lib.frag"),
            p("b.frag"),
            p("gone.frag"),
            p("c.frag")
        ]
    );
}

#[test]
fn create_shaders_pairs_plans_with_outcomes() {
    let store = store_of(&[("a.frag", "a\n"), ("b.frag", "b\n")]);
    let roots = vec![p("a.frag"), p("b.frag")];
    let batch = skuggbox::service::resolve_shaders(&store, &roots, false);
    let plans: Vec<skuggbox::service::ShaderPlan> =
        batch.results.into_iter().map(|r| r.unwrap()).collect();
    let raw = RawUniformLocations { mouse: 4, ..absent() };
    let outcomes = vec![ok(11, raw), ok(12, absent())];
    let shaders = skuggbox::service::create_shaders(&plans, &outcomes).unwrap();
    assert_eq!(shaders.len(), 2);
    assert_eq!(shaders[0].shader_program.id, 11);
    assert_eq!(shaders[0].locations.mouse, Some(4));
    assert_eq!(shaders[0].source, p("a\n"));
    assert_eq!(shaders[0].files, vec![p("a.frag")]);
    assert_eq!(shaders[1].shader_program.id, 12);
    assert_eq!(shaders[1].locations.mouse, None);

    let failing = vec![
        CompileOutcome::Failure { log: p("first bad") },
        CompileOutcome::Failure { log: p("second bad") },
    ];
    match skuggbox::service::create_shaders(&plans, &failing) {
        Err(ShaderError::Compile { log }) => assert_eq!(log, p("first bad")),
        other => panic!("expected the first compile error, got {:?}", other),
    }
}

#[test]
fn end_to_end_reload_rebinds_uniforms() {
    // root uses iTime through an include; after an edit drops the use, the
    // time slot becomes absent and no error is reported
    let store = store_of(&[
        ("main.frag", "#include \"lib.frag\"\nvoid main() { t(); }\n"),
        ("lib.frag", "uniform float iTime;\nvoid t() {}\n"),
    ]);
    let mut service = ShaderService::new(vec![p("main.frag")], &store);
    assert_eq!(service.all_shader_files, vec![p("main.frag"), p("lib.frag")]);
    assert!(service.reload(&store).is_ok());
    let raw_with_time = RawUniformLocations { time: 2, ..absent() };
    assert!(compile_pending(&mut service, 5, raw_with_time));
    let shaders = service.skuggbox_shaders.as_ref().unwrap();
    assert_eq!(shaders[0].locations.time, Some(2));
    assert_eq!(shaders[0].locations.mouse, None);

    let edited = store_of(&[
        ("main.frag", "#include \"lib.frag\"\nvoid main() {}\n"),
        ("lib.frag", "void t() {}\n"),
    ]);
    assert!(service.run(&edited, true).is_ok());
    assert!(compile_pending(&mut service, 6, absent()));
    assert!(service.last_error.is_none());
    let shaders = service.skuggbox_shaders.as_ref().unwrap();
    assert_eq!(shaders[0].locations.time, None);
}
