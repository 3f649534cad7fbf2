use dylibtree::{
    print_dylib_paths, reference_action, FsImage, FsModel, NativeImage, Platform, RefAction,
    VisitedSet, WalkError,
};

fn image(libs: &[&str], rpaths: &[&str]) -> NativeImage {
    NativeImage {
        libs: libs.iter().map(|s| s.to_string()).collect(),
        rpaths: rpaths.iter().map(|s| s.to_string()).collect(),
        platform: Platform::MacOs,
    }
}

fn entry(path: &str, libs: &[&str], rpaths: &[&str]) -> FsImage {
    FsImage { path: path.to_string(), image: image(libs, rpaths) }
}

fn walk(
    fs: &FsModel,
    root: &str,
    path: &str,
    max_depth: usize,
    ignores: &[&str],
    suppress: bool,
) -> Result<(Vec<String>, VisitedSet), WalkError> {
    let visited = VisitedSet::new();
    let ignore_prefixes: Vec<String> = ignores.iter().map(|s| s.to_string()).collect();
    print_dylib_paths(fs, root, path, path, 0, max_depth, &visited, &ignore_prefixes, suppress)
}

#[test]
fn no_dependencies_prints_one_line() {
    let fs = FsModel { images: vec![entry("/bin/app", &[], &[])], plain: vec![] };
    let (lines, visited) = walk(&fs, "/rt", "/bin/app", 9999, &[], false).unwrap();
    assert_eq!(lines, vec!["/bin/app:".to_string()]);
    assert!(!visited.contains("/bin/app"));
}

#[test]
fn self_marker_only_prints_one_line() {
    let fs = FsModel { images: vec![entry("/bin/app", &["self"], &[])], plain: vec![] };
    let (lines, visited) = walk(&fs, "/rt", "/bin/app", 9999, &[], false).unwrap();
    assert_eq!(lines, vec!["/bin/app:".to_string()]);
    assert!(!visited.contains("self"));
}

#[test]
fn own_display_name_is_never_expanded() {
    let fs = FsModel {
        images: vec![entry("/bin/app", &["self", "/bin/app"], &[])],
        plain: vec![],
    };
    let (lines, visited) = walk(&fs, "/rt", "/bin/app", 9999, &[], false).unwrap();
    assert_eq!(lines, vec!["/bin/app:".to_string()]);
    assert!(!visited.contains("/bin/app"));
}

#[test]
fn max_depth_zero_prints_root_only() {
    let fs = FsModel {
        images: vec![
            entry("/bin/app", &["libB.dylib"], &[]),
            entry("/rt/libB.dylib", &[], &[]),
        ],
        plain: vec![],
    };
    let (lines, visited) = walk(&fs, "/rt", "/bin/app", 0, &[], false).unwrap();
    assert_eq!(lines, vec!["/bin/app:".to_string()]);
    assert!(!visited.contains("libB.dylib"));
}

#[test]
fn duplicate_prints_one_leaf_per_repeat() {
    let fs = FsModel {
        images: vec![
            entry("/bin/app", &["libB.dylib", "libB.dylib"], &[]),
            entry("/rt/libB.dylib", &["self"], &[]),
        ],
        plain: vec![],
    };
    let (lines, _) = walk(&fs, "/rt", "/bin/app", 9999, &[], false).unwrap();
    assert_eq!(
        lines,
        vec![
            "/bin/app:".to_string(),
            "  libB.dylib:".to_string(),
            "  libB.dylib".to_string(),
        ],
    );
}

#[test]
fn duplicate_suppressed_prints_nothing_further() {
    let fs = FsModel {
        images: vec![
            entry("/bin/app", &["libB.dylib", "libB.dylib"], &[]),
            entry("/rt/libB.dylib", &["self"], &[]),
        ],
        plain: vec![],
    };
    let (lines, _) = walk(&fs, "/rt", "/bin/app", 9999, &[], true).unwrap();
    assert_eq!(lines, vec!["/bin/app:".to_string(), "  libB.dylib:".to_string()]);
}

#[test]
fn ignored_reference_is_never_marked_not_found() {
    // The reference exists nowhere, yet being ignored it produces no line at
    // all — in particular no not-found warning — and is never visited.
    let fs = FsModel {
        images: vec![entry("/bin/app", &["@ignored/lib.dylib"], &[])],
        plain: vec![],
    };
    let (lines, visited) = walk(&fs, "/rt", "/bin/app", 9999, &["@ignored/"], false).unwrap();
    assert_eq!(lines, vec!["/bin/app:".to_string()]);
    assert!(!visited.contains("@ignored/lib.dylib"));
}

#[test]
fn unresolved_reference_gets_warning_leaf() {
    let fs = FsModel { images: vec![entry("/bin/app", &["libGone.dylib"], &[])], plain: vec![] };
    let (lines, visited) = walk(&fs, "/rt", "/bin/app", 9999, &[], false).unwrap();
    assert_eq!(
        lines,
        vec![
            "/bin/app:".to_string(),
            "  libGone.dylib: warning: not found".to_string(),
        ],
    );
    assert!(visited.contains("libGone.dylib"));
}

#[test]
fn rpath_scenario_tree() {
    // The root declares an rpath reference, its own self marker and an
    // unresolvable absolute reference; the rpath reference resolves through
    // the executable-relative run-path entry.
    let fs = FsModel {
        images: vec![
            entry(
                "/app/bin/main",
                &["@rpath/libA.dylib", "self", "libSystem.dylib"],
                &["@executable_path/../Frameworks"],
            ),
            entry("/app/bin/../Frameworks/libA.dylib", &["self"], &[]),
        ],
        plain: vec![],
    };
    let (lines, visited) = walk(&fs, "/rt", "/app/bin/main", 9999, &[], false).unwrap();
    assert_eq!(
        lines,
        vec![
            "/app/bin/main:".to_string(),
            "  @rpath/libA.dylib:".to_string(),
            "  libSystem.dylib: warning: not found".to_string(),
        ],
    );
    assert!(visited.contains("@rpath/libA.dylib"));
    assert!(visited.contains("libSystem.dylib"));
    assert!(!visited.contains("self"));
}

#[test]
fn cycle_terminates_with_leaf() {
    let fs = FsModel {
        images: vec![
            entry("/rt/A", &["B"], &[]),
            entry("/rt/B", &["A"], &[]),
        ],
        plain: vec![],
    };
    let (lines, _) = walk(&fs, "/rt", "/rt/A", 9999, &[], false).unwrap();
    assert_eq!(
        lines,
        vec![
            "/rt/A:".to_string(),
            "  B:".to_string(),
            "    A:".to_string(),
            "      B".to_string(),
        ],
    );
}

#[test]
fn sibling_sees_earlier_expansion() {
    // The second sibling's subtree sees the first sibling's expansions: the
    // shared reference prints as a leaf there, not as a second subtree.
    let fs = FsModel {
        images: vec![
            entry("/rt/A", &["B", "C"], &[]),
            entry("/rt/B", &["D"], &[]),
            entry("/rt/C", &["D"], &[]),
            entry("/rt/D", &[], &[]),
        ],
        plain: vec![],
    };
    let (lines, _) = walk(&fs, "/rt", "/rt/A", 9999, &[], false).unwrap();
    assert_eq!(
        lines,
        vec![
            "/rt/A:".to_string(),
            "  B:".to_string(),
            "    D:".to_string(),
            "  C:".to_string(),
            "    D".to_string(),
        ],
    );
}

#[test]
fn missing_root_is_fatal() {
    let fs = FsModel { images: vec![], plain: vec![] };
    match walk(&fs, "/rt", "/nope", 9999, &[], false) {
        Err(WalkError::Missing(p)) => assert_eq!(p, "/nope"),
        _ => panic!("expected a missing-file failure"),
    }
}

#[test]
fn undecodable_root_is_fatal() {
    let fs = FsModel { images: vec![], plain: vec!["/bin/data".to_string()] };
    match walk(&fs, "/rt", "/bin/data", 9999, &[], false) {
        Err(WalkError::Undecodable(p)) => assert_eq!(p, "/bin/data"),
        _ => panic!("expected an undecodable-file failure"),
    }
}

#[test]
fn reference_action_orders_its_checks() {
    let mut visited = VisitedSet::new();
    let no_prefixes: Vec<String> = vec![];
    let ignored = vec!["@ignored/".to_string()];

    // The image's own identity is skipped before anything else.
    assert!(matches!(
        reference_action("self", "/bin/app", 0, 9999, &visited, &no_prefixes, false),
        RefAction::Skip,
    ));
    assert!(matches!(
        reference_action("/bin/app", "/bin/app", 0, 9999, &visited, &no_prefixes, false),
        RefAction::Skip,
    ));
    // The depth ceiling applies next.
    assert!(matches!(
        reference_action("libB.dylib", "/bin/app", 3, 3, &visited, &no_prefixes, false),
        RefAction::Skip,
    ));
    // Then prefix filtering on the raw reference.
    assert!(matches!(
        reference_action("@ignored/libB", "/bin/app", 0, 9999, &visited, &ignored, false),
        RefAction::Skip,
    ));
    // An unvisited reference is expanded.
    assert!(matches!(
        reference_action("libB.dylib", "/bin/app", 0, 9999, &visited, &no_prefixes, false),
        RefAction::Expand,
    ));
    // A visited one prints a leaf, unless duplicates are suppressed.
    visited.insert("libB.dylib".to_string());
    match reference_action("libB.dylib", "/bin/app", 1, 9999, &visited, &no_prefixes, false) {
        RefAction::PrintLeaf(line) => assert_eq!(line, "    libB.dylib"),
        _ => panic!("a visited reference must print one leaf"),
    }
    assert!(matches!(
        reference_action("libB.dylib", "/bin/app", 1, 9999, &visited, &no_prefixes, true),
        RefAction::Skip,
    ));
}

#[test]
fn depth_ceiling_cuts_grandchildren() {
    let fs = FsModel {
        images: vec![
            entry("/rt/A", &["B"], &[]),
            entry("/rt/B", &["C"], &[]),
            entry("/rt/C", &[], &[]),
        ],
        plain: vec![],
    };
    let (lines, _) = walk(&fs, "/rt", "/rt/A", 1, &[], false).unwrap();
    assert_eq!(lines, vec!["/rt/A:".to_string(), "  B:".to_string()]);
}
