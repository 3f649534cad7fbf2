use dylibtree::{
    choose_root_plan, device_support_dir, device_symbols_dir, first_true, newest_matching,
    platform_from_tag, runtime_root_strategy, simruntime_suffix, simulator_os_prefix,
    simulator_runtime_root, simulator_runtimes_dir, simulator_volumes_dir, NameRule, Platform,
    RootPlan, RootStrategy, SimulatorOs,
};

fn strings(items: &[&str]) -> Vec<String> {
    items.iter().map(|s| s.to_string()).collect()
}

#[test]
fn platform_tags_map_to_platforms() {
    assert_eq!(platform_from_tag(Some(1)), Platform::MacOs);
    assert_eq!(platform_from_tag(Some(2)), Platform::Ios);
    assert_eq!(platform_from_tag(Some(7)), Platform::IosSimulator);
    assert_eq!(platform_from_tag(Some(8)), Platform::TvOsSimulator);
    assert_eq!(platform_from_tag(Some(9)), Platform::WatchOsSimulator);
    assert_eq!(platform_from_tag(Some(5)), Platform::Other(5));
    assert_eq!(platform_from_tag(None), Platform::Unknown);
}

#[test]
fn platforms_dispatch_to_strategies() {
    assert_eq!(runtime_root_strategy(&Platform::MacOs), RootStrategy::ExtractSystemCache);
    assert_eq!(runtime_root_strategy(&Platform::Ios), RootStrategy::IosDeviceSymbols);
    assert_eq!(
        runtime_root_strategy(&Platform::IosSimulator),
        RootStrategy::Simulator(SimulatorOs::Ios),
    );
    assert_eq!(
        runtime_root_strategy(&Platform::TvOsSimulator),
        RootStrategy::Simulator(SimulatorOs::TvOs),
    );
    assert_eq!(
        runtime_root_strategy(&Platform::WatchOsSimulator),
        RootStrategy::Simulator(SimulatorOs::WatchOs),
    );
    assert_eq!(runtime_root_strategy(&Platform::Other(6)), RootStrategy::Unsupported(6));
    assert_eq!(runtime_root_strategy(&Platform::Unknown), RootStrategy::NoPlatformTag);
}

#[test]
fn explicit_root_wins_over_everything() {
    let root = Some("/given/root".to_string());
    let cache = Some("/given/cache".to_string());
    assert_eq!(choose_root_plan(&root, &cache), RootPlan::UseGivenRoot);
    assert_eq!(choose_root_plan(&root, &None), RootPlan::UseGivenRoot);
    assert_eq!(choose_root_plan(&None, &cache), RootPlan::ExtractGivenCache);
    assert_eq!(choose_root_plan(&None, &None), RootPlan::FromBinary);
}

#[test]
fn newest_matching_takes_lexicographically_greatest() {
    let entries = strings(&["iOS_15.2", "iOS_16.0", "iOS_14.1", "tvOS_16.9"]);
    let rule = NameRule::Prefix("iOS".to_string());
    assert_eq!(newest_matching(&entries, &rule), Some("iOS_16.0".to_string()));
}

#[test]
fn newest_matching_by_suffix() {
    let entries = strings(&["iOS 15.simruntime", "iOS 9.simruntime", "notes.txt"]);
    let rule = NameRule::Suffix(".simruntime".to_string());
    // Lexicographic string order, not semantic version order: a deliberate
    // heuristic, so "9" outranks "15".
    assert_eq!(newest_matching(&entries, &rule), Some("iOS 9.simruntime".to_string()));
}

#[test]
fn newest_matching_any_and_empty() {
    let entries = strings(&["b", "c", "a"]);
    assert_eq!(newest_matching(&entries, &NameRule::Any), Some("c".to_string()));
    let none: Vec<String> = vec![];
    assert_eq!(newest_matching(&none, &NameRule::Any), None);
    let rule = NameRule::Prefix("zzz".to_string());
    assert_eq!(newest_matching(&entries, &rule), None);
}

#[test]
fn simulator_paths_follow_the_conventions() {
    assert_eq!(simulator_volumes_dir(), "/Library/Developer/CoreSimulator/Volumes");
    assert_eq!(
        simulator_runtimes_dir("iOS_16"),
        "/Library/Developer/CoreSimulator/Volumes/iOS_16/Library/Developer/CoreSimulator/Profiles/Runtimes",
    );
    assert_eq!(
        simulator_runtime_root("/vol/Runtimes", "iOS 16.simruntime"),
        "/vol/Runtimes/iOS 16.simruntime/Contents/Resources/RuntimeRoot",
    );
    assert_eq!(simruntime_suffix(), ".simruntime");
    assert_eq!(simulator_os_prefix(&SimulatorOs::Ios), "iOS");
    assert_eq!(simulator_os_prefix(&SimulatorOs::TvOs), "tvOS");
    assert_eq!(simulator_os_prefix(&SimulatorOs::WatchOs), "watchOS");
}

#[test]
fn device_paths_follow_the_conventions() {
    assert_eq!(
        device_support_dir("/Users/me", "iOS"),
        "/Users/me/Library/Developer/Xcode/iOS DeviceSupport",
    );
    assert_eq!(
        device_symbols_dir("/Users/me/Library/Developer/Xcode/iOS DeviceSupport/16.0"),
        "/Users/me/Library/Developer/Xcode/iOS DeviceSupport/16.0/Symbols",
    );
}

#[test]
fn first_true_picks_least_index() {
    assert_eq!(first_true(&vec![false, true, true]), Some(1));
    assert_eq!(first_true(&vec![true]), Some(0));
    assert_eq!(first_true(&vec![false, false]), None);
    assert_eq!(first_true(&vec![]), None);
}
