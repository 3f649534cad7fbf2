use dylibtree::{parse_args, parse_usize_digits, Args, CliError};

fn tokens(items: &[&str]) -> Vec<String> {
    items.iter().map(|s| s.to_string()).collect()
}

fn parsed(items: &[&str]) -> Args {
    parse_args(tokens(items)).unwrap_or_else(|_| panic!("expected the line to parse"))
}

#[test]
fn positional_alone_uses_defaults() {
    let args = parsed(&["/bin/app"]);
    assert_eq!(args.binary, "/bin/app");
    assert!(!args.exclude_all_duplicates);
    assert!(!args.include_system_dependencies);
    assert!(args.ignore_prefixes.is_empty());
    assert_eq!(args.shared_cache_path, None);
    assert_eq!(args.runtime_root, None);
    assert_eq!(args.depth, 9999);
    assert!(!args.verbose);
}

#[test]
fn switches_set_their_flags() {
    let args = parsed(&["-e", "/bin/app", "-i", "--verbose"]);
    assert!(args.exclude_all_duplicates);
    assert!(args.include_system_dependencies);
    assert!(args.verbose);
    assert_eq!(args.binary, "/bin/app");
    let args = parsed(&["--exclude-all-duplicates", "--include-system-dependencies", "x"]);
    assert!(args.exclude_all_duplicates);
    assert!(args.include_system_dependencies);
}

#[test]
fn valued_options_take_the_next_token() {
    let args = parsed(&["-s", "/cache", "-r", "/root", "-d", "3", "/bin/app"]);
    assert_eq!(args.shared_cache_path, Some("/cache".to_string()));
    assert_eq!(args.runtime_root, Some("/root".to_string()));
    assert_eq!(args.depth, 3);
    let args = parsed(
        &["--shared-cache-path", "/c2", "--runtime-root", "/r2", "--depth", "0", "app"],
    );
    assert_eq!(args.shared_cache_path, Some("/c2".to_string()));
    assert_eq!(args.runtime_root, Some("/r2".to_string()));
    assert_eq!(args.depth, 0);
}

#[test]
fn ignore_prefixes_accumulate_in_order() {
    let args = parsed(&["-p", "/usr/lib/", "app", "--ignore-prefixes", "@rpath/priv"]);
    assert_eq!(args.ignore_prefixes, vec!["/usr/lib/".to_string(), "@rpath/priv".to_string()]);
}

#[test]
fn missing_binary_is_rejected() {
    match parse_args(tokens(&["-e"])) {
        Err(CliError::MissingBinary) => {},
        _ => panic!("a line without the positional must be rejected"),
    }
    match parse_args(tokens(&[])) {
        Err(CliError::MissingBinary) => {},
        _ => panic!("an empty line must be rejected"),
    }
}

#[test]
fn unknown_flag_is_rejected() {
    match parse_args(tokens(&["--nope", "app"])) {
        Err(CliError::UnknownFlag(t)) => assert_eq!(t, "--nope"),
        _ => panic!("an unknown flag must be rejected"),
    }
    match parse_args(tokens(&["-z", "app"])) {
        Err(CliError::UnknownFlag(t)) => assert_eq!(t, "-z"),
        _ => panic!("an unknown short flag must be rejected"),
    }
}

#[test]
fn second_positional_is_rejected() {
    match parse_args(tokens(&["app", "extra"])) {
        Err(CliError::UnexpectedArgument(t)) => assert_eq!(t, "extra"),
        _ => panic!("a second positional must be rejected"),
    }
}

#[test]
fn valued_option_at_line_end_is_rejected() {
    match parse_args(tokens(&["app", "-p"])) {
        Err(CliError::MissingValue(t)) => assert_eq!(t, "-p"),
        _ => panic!("a trailing valued option must be rejected"),
    }
    match parse_args(tokens(&["app", "--depth"])) {
        Err(CliError::MissingValue(t)) => assert_eq!(t, "--depth"),
        _ => panic!("a trailing depth option must be rejected"),
    }
}

#[test]
fn bad_depth_is_rejected() {
    match parse_args(tokens(&["-d", "12x", "app"])) {
        Err(CliError::InvalidDepth(t)) => assert_eq!(t, "12x"),
        _ => panic!("a non-numeric depth must be rejected"),
    }
    match parse_args(tokens(&["-d", "99999999999999999999999999", "app"])) {
        Err(CliError::InvalidDepth(_)) => {},
        _ => panic!("an oversized depth must be rejected"),
    }
}

#[test]
fn later_value_wins() {
    let args = parsed(&["-d", "3", "-d", "7", "app"]);
    assert_eq!(args.depth, 7);
}

#[test]
fn digits_parse_exactly() {
    assert_eq!(parse_usize_digits("0"), Some(0));
    assert_eq!(parse_usize_digits("123"), Some(123));
    assert_eq!(parse_usize_digits("0042"), Some(42));
    assert_eq!(parse_usize_digits(""), None);
    assert_eq!(parse_usize_digits("-1"), None);
    assert_eq!(parse_usize_digits("1.5"), None);
    assert_eq!(parse_usize_digits("99999999999999999999999999"), None);
}

#[test]
fn single_dash_counts_as_positional() {
    let args = parsed(&["-"]);
    assert_eq!(args.binary, "-");
}
