use dylibtree::{dir_of, get_potential_paths, join_path, should_ignore, spaces, str_eq, str_lt};

fn strings(items: &[&str]) -> Vec<String> {
    items.iter().map(|s| s.to_string()).collect()
}

#[test]
fn absolute_reference_yields_two_candidates() {
    let rpaths: Vec<String> = vec![];
    let cands = get_potential_paths("/rt", "/app/main", "/usr/lib/libc.dylib", &rpaths);
    assert_eq!(cands, strings(&["/usr/lib/libc.dylib", "/rt/usr/lib/libc.dylib"]));
}

#[test]
fn bare_reference_yields_two_candidates() {
    let rpaths: Vec<String> = vec![];
    let cands = get_potential_paths("/rt", "/app/main", "libSystem.dylib", &rpaths);
    assert_eq!(cands, strings(&["libSystem.dylib", "/rt/libSystem.dylib"]));
}

#[test]
fn rpath_reference_yields_two_per_plain_entry() {
    let rpaths = strings(&["/opt/lib", "/usr/local/lib"]);
    let cands = get_potential_paths("/rt", "/app/main", "@rpath/libA.dylib", &rpaths);
    assert_eq!(
        cands,
        strings(
            &[
                "/opt/lib/libA.dylib",
                "/rt/opt/lib/libA.dylib",
                "/usr/local/lib/libA.dylib",
                "/rt/usr/local/lib/libA.dylib",
            ],
        ),
    );
}

#[test]
fn executable_relative_entry_yields_one_candidate() {
    let rpaths = strings(&["@executable_path/../Frameworks"]);
    let cands = get_potential_paths("/rt", "/app/bin/main", "@rpath/libA.dylib", &rpaths);
    assert_eq!(cands, strings(&["/app/bin/../Frameworks/libA.dylib"]));
}

#[test]
fn loader_relative_entry_resolves_against_root_binary_directory() {
    // The loader-relative marker is treated like the executable-relative one,
    // a documented simplification.
    let rpaths = strings(&["@loader_path/Frameworks"]);
    let cands = get_potential_paths("/rt", "/app/bin/main", "@rpath/libA.dylib", &rpaths);
    assert_eq!(cands, strings(&["/app/bin/Frameworks/libA.dylib"]));
}

#[test]
fn mixed_entries_keep_declared_order() {
    let rpaths = strings(&["@executable_path/fw", "/opt/lib"]);
    let cands = get_potential_paths("/rt", "/bin/main", "@rpath/x.dylib", &rpaths);
    assert_eq!(
        cands,
        strings(&["/bin/fw/x.dylib", "/opt/lib/x.dylib", "/rt/opt/lib/x.dylib"]),
    );
}

#[test]
fn rpath_tail_keeps_inner_directories() {
    let rpaths = strings(&["/opt"]);
    let cands = get_potential_paths("/rt", "/bin/main", "@rpath/Nested/libA.dylib", &rpaths);
    assert_eq!(cands, strings(&["/opt/Nested/libA.dylib", "/rt/opt/Nested/libA.dylib"]));
}

#[test]
fn should_ignore_matches_prefixes_only() {
    let prefixes = strings(&["/usr/lib/", "@rpath/private"]);
    assert!(should_ignore("/usr/lib/libSystem.dylib", &prefixes));
    assert!(should_ignore("@rpath/private/libX.dylib", &prefixes));
    assert!(!should_ignore("/usr/libexec/foo", &prefixes));
    assert!(!should_ignore("libSystem.dylib", &prefixes));
    let none: Vec<String> = vec![];
    assert!(!should_ignore("/usr/lib/libSystem.dylib", &none));
}

#[test]
fn join_path_inserts_single_separator() {
    assert_eq!(join_path("/a", "b"), "/a/b");
    assert_eq!(join_path("/a/", "b"), "/a/b");
    assert_eq!(join_path("", "b"), "b");
    assert_eq!(join_path("/a", ""), "/a/");
}

#[test]
fn dir_of_drops_last_component() {
    assert_eq!(dir_of("/app/bin/main"), "/app/bin");
    assert_eq!(dir_of("main"), "");
    assert_eq!(dir_of("/main"), "");
    assert_eq!(dir_of("a/b/"), "a/b");
}

#[test]
fn string_helpers_compare_by_characters() {
    assert!(str_eq("abc", "abc"));
    assert!(!str_eq("abc", "abd"));
    assert!(str_lt("iOS_15", "iOS_16"));
    assert!(str_lt("iOS", "iOS_16"));
    assert!(!str_lt("iOS_16", "iOS_16"));
    assert_eq!(spaces(4), "    ");
    assert_eq!(spaces(0), "");
}
