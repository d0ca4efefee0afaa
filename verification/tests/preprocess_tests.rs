use skuggbox::errors::ShaderError;
use skuggbox::preprocess::resolve;
use skuggbox::store::FileStore;

fn p(s: &str) -> Vec<u8> {
    s.as_bytes().to_vec()
}

fn store_of(files: &[(&str, &str)]) -> FileStore {
    let mut store = FileStore::new();
    for (path, content) in files {
        store.add_text(p(path), p(content));
    }
    store
}

fn text(r: &Result<Vec<u8>, ShaderError>) -> String {
    String::from_utf8(r.as_ref().unwrap().clone()).unwrap()
}

#[test]
fn plain_file_resolves_to_itself() {
    let store = store_of(&[("main.frag", "void main() {}\n")]);
    let r = resolve(&store, &p("main.frag"), false);
    assert_eq!(text(&r.out), "void main() {}\n");
    assert_eq!(r.deps, vec![p("main.frag")]);
}

#[test]
fn missing_trailing_newline_is_normalized() {
    let store = store_of(&[("main.frag", "a\nb")]);
    let r = resolve(&store, &p("main.frag"), false);
    assert_eq!(text(&r.out), "a\nb\n");
}

#[test]
fn include_is_inlined() {
    let store = store_of(&[
        ("main.frag", "#include \"lib.frag\"\nvoid main() {}\n"),
        ("lib.frag", "float helper;\n"),
    ]);
    let r = resolve(&store, &p("main.frag"), false);
    assert_eq!(text(&r.out), "float helper;\nvoid main() {}\n");
    assert_eq!(r.deps, vec![p("main.frag"), p("lib.frag")]);
}

#[test]
fn include_path_is_relative_to_including_file() {
    let store = store_of(&[
        ("shaders/main.frag", "#include \"sub/util.frag\"\n"),
        ("shaders/sub/util.frag", "int u;\n"),
    ]);
    let r = resolve(&store, &p("shaders/main.frag"), false);
    assert_eq!(text(&r.out), "int u;\n");
    assert_eq!(r.deps, vec![p("shaders/main.frag"), p("shaders/sub/util.frag")]);
}

#[test]
fn nested_includes_expand_recursively() {
    let store = store_of(&[
        ("main.frag", "#include \"a.frag\"\nend\n"),
        ("a.frag", "top\n#include \"b.frag\"\n"),
        ("b.frag", "deep\n"),
    ]);
    let r = resolve(&store, &p("main.frag"), false);
    assert_eq!(text(&r.out), "top\ndeep\nend\n");
    assert_eq!(r.deps, vec![p("main.frag"), p("a.frag"), p("b.frag")]);
}

#[test]
fn self_include_fails_with_cycle() {
    let store = store_of(&[("main.frag", "#include \"main.frag\"\n")]);
    let r = resolve(&store, &p("main.frag"), false);
    match r.out {
        Err(ShaderError::IncludeCycle { path }) => assert_eq!(path, p("main.frag")),
        other => panic!("expected a cycle error, got {:?}", other),
    }
}

#[test]
fn two_file_cycle_fails_with_cycle() {
    let store = store_of(&[
        ("a.frag", "#include \"b.frag\"\n"),
        ("b.frag", "#include \"a.frag\"\n"),
    ]);
    let r = resolve(&store, &p("a.frag"), false);
    assert!(matches!(r.out, Err(ShaderError::IncludeCycle { .. })));
}

#[test]
fn three_file_cycle_fails_with_cycle() {
    let store = store_of(&[
        ("a.frag", "#include \"b.frag\"\n"),
        ("b.frag", "#include \"c.frag\"\n"),
        ("c.frag", "#include \"a.frag\"\n"),
    ]);
    let r = resolve(&store, &p("a.frag"), false);
    assert!(matches!(r.out, Err(ShaderError::IncludeCycle { .. })));
}

#[test]
fn diamond_include_is_no_cycle() {
    // a and b both include c: c is expanded twice, but no file includes
    // itself, so resolution succeeds.
    let store = store_of(&[
        ("main.frag", "#include \"a.frag\"\n#include \"b.frag\"\n"),
        ("a.frag", "#include \"c.frag\"\n"),
        ("b.frag", "#include \"c.frag\"\n"),
        ("c.frag", "shared\n"),
    ]);
    let r = resolve(&store, &p("main.frag"), false);
    assert_eq!(text(&r.out), "shared\nshared\n");
}

#[test]
fn dependency_set_is_complete_and_deduplicated() {
    let store = store_of(&[
        ("root.frag", "#include \"a.frag\"\n#include \"b.frag\"\n"),
        ("a.frag", "#include \"c.frag\"\n"),
        ("b.frag", "#include \"c.frag\"\n"),
        ("c.frag", "x\n"),
    ]);
    let r = resolve(&store, &p("root.frag"), false);
    assert!(r.out.is_ok());
    assert_eq!(
        r.deps,
        vec![p("root.frag"), p("a.frag"), p("c.frag"), p("b.frag")]
    );
}

#[test]
fn missing_include_reports_include_not_found() {
    let store = store_of(&[("main.frag", "#include \"gone.frag\"\n")]);
    let r = resolve(&store, &p("main.frag"), false);
    match r.out {
        Err(ShaderError::IncludeNotFound { path }) => assert_eq!(path, p("gone.frag")),
        other => panic!("expected include-not-found, got {:?}", other),
    }
    // the missing target is still recorded, so the watcher can observe its
    // creation
    assert_eq!(r.deps, vec![p("main.frag"), p("gone.frag")]);
}

#[test]
fn missing_root_reports_source_read_error() {
    let store = store_of(&[]);
    let r = resolve(&store, &p("main.frag"), false);
    match r.out {
        Err(ShaderError::SourceRead { path, cause }) => {
            assert_eq!(path, p("main.frag"));
            assert_eq!(cause, p("not found"));
        }
        other => panic!("expected a source read error, got {:?}", other),
    }
}

#[test]
fn unreadable_include_reports_source_read_error() {
    let mut store = store_of(&[("main.frag", "#include \"locked.frag\"\n")]);
    store.add_unreadable(p("locked.frag"), p("permission denied"));
    let r = resolve(&store, &p("main.frag"), false);
    match r.out {
        Err(ShaderError::SourceRead { path, cause }) => {
            assert_eq!(path, p("locked.frag"));
            assert_eq!(cause, p("permission denied"));
        }
        other => panic!("expected a source read error, got {:?}", other),
    }
}

#[test]
fn camera_integration_flag_changes_text_not_deps() {
    let store = store_of(&[("main.frag", "void main() {}\n")]);
    let off = resolve(&store, &p("main.frag"), false);
    let on = resolve(&store, &p("main.frag"), true);
    assert_eq!(text(&off.out), "void main() {}\n");
    assert_eq!(
        text(&on.out),
        "uniform mat4 sbCameraTransform;\nvoid main() {}\n"
    );
    assert_eq!(off.deps, on.deps);
}

#[test]
fn empty_root_resolves_to_empty_text() {
    let store = store_of(&[("main.frag", "")]);
    let r = resolve(&store, &p("main.frag"), false);
    assert_eq!(text(&r.out), "");
    assert_eq!(r.deps, vec![p("main.frag")]);
}

#[test]
fn indented_directive_is_kept_literally() {
    let store = store_of(&[("main.frag", "  #include \"lib.frag\"\n")]);
    let r = resolve(&store, &p("main.frag"), false);
    assert_eq!(text(&r.out), "  #include \"lib.frag\"\n");
    assert_eq!(r.deps, vec![p("main.frag")]);
}

#[test]
fn text_after_closing_quote_is_ignored() {
    let store = store_of(&[
        ("main.frag", "#include \"lib.frag\" // helpers\n"),
        ("lib.frag", "h\n"),
    ]);
    let r = resolve(&store, &p("main.frag"), false);
    assert_eq!(text(&r.out), "h\n");
}
