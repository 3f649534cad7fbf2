//! Decides which filesystem root dependencies are resolved against: an
//! explicitly given root or cache image wins; otherwise the target binary's
//! platform tag dispatches to a platform-specific discovery strategy. The
//! discovery heuristics pick the lexicographically greatest matching
//! directory entry — a deliberate heuristic, not semantic version order.

use vstd::prelude::*;

use crate::image::Platform;
use crate::strutil::{has_prefix, has_suffix, join_path, lex_le, lex_lt, lemma_lex_connex,
    lemma_lex_trans, spec_join_path, str_lt};

verus! {

/// How the runtime root is obtained, before any filesystem access.
#[derive(Clone, Copy, Debug, PartialEq, Eq, Structural)]
pub enum RootPlan {
    /// An explicit runtime root was given: use it outright.
    UseGivenRoot,
    /// An explicit cache image path was given: extract exactly that image,
    /// fatally if it does not exist.
    ExtractGivenCache,
    /// Neither was given: decode the target binary and go by its platform.
    FromBinary,
}

/// The priority among an explicit root, an explicit cache image and the
/// binary's own platform tag: an explicit root wins outright, then an
/// explicit cache path, and only then is the binary consulted.
pub open spec fn spec_root_plan(
    runtime_root: Option<Seq<char>>,
    shared_cache_path: Option<Seq<char>>,
) -> RootPlan {
    if runtime_root is Some {
        RootPlan::UseGivenRoot
    } else if shared_cache_path is Some {
        RootPlan::ExtractGivenCache
    } else {
        RootPlan::FromBinary
    }
}

/// Decides how the runtime root will be obtained from the two optional
/// explicit arguments.
pub fn choose_root_plan(runtime_root: &Option<String>, shared_cache_path: &Option<String>) -> (r:
    RootPlan)
    ensures
        r == spec_root_plan(runtime_root.deep_view(), shared_cache_path.deep_view()),
{
    match runtime_root {
        Option::Some(_) => RootPlan::UseGivenRoot,
        Option::None => match shared_cache_path {
            Option::Some(_) => RootPlan::ExtractGivenCache,
            Option::None => RootPlan::FromBinary,
        },
    }
}

/// The simulator families with discoverable runtime roots.
#[derive(Clone, Copy, Debug, PartialEq, Eq, Structural)]
pub enum SimulatorOs {
    Ios,
    TvOs,
    WatchOs,
}

/// The platform-specific way to discover a runtime root.
#[derive(Clone, Copy, Debug, PartialEq, Eq, Structural)]
pub enum RootStrategy {
    /// macOS: extract the system library cache from its well-known on-disk
    /// locations.
    ExtractSystemCache,
    /// A physical iOS device: use the per-user device-support symbols.
    IosDeviceSymbols,
    /// A simulator platform: search the simulator volumes.
    Simulator(SimulatorOs),
    /// A platform identifier the library has no strategy for; fatal, the
    /// user must pass an explicit root.
    Unsupported(u32),
    /// The binary carries no build-version metadata at all; fatal likewise.
    NoPlatformTag,
}

/// The strategy owed to each platform tag.
pub open spec fn spec_root_strategy(platform: Platform) -> RootStrategy {
    match platform {
        Platform::MacOs => RootStrategy::ExtractSystemCache,
        Platform::Ios => RootStrategy::IosDeviceSymbols,
        Platform::IosSimulator => RootStrategy::Simulator(SimulatorOs::Ios),
        Platform::TvOsSimulator => RootStrategy::Simulator(SimulatorOs::TvOs),
        Platform::WatchOsSimulator => RootStrategy::Simulator(SimulatorOs::WatchOs),
        Platform::Other(id) => RootStrategy::Unsupported(id),
        Platform::Unknown => RootStrategy::NoPlatformTag,
    }
}

/// Dispatches a binary's platform tag to the root-discovery strategy.
pub fn runtime_root_strategy(platform: &Platform) -> (r: RootStrategy)
    ensures
        r == spec_root_strategy(*platform),
{
    match platform {
        Platform::MacOs => RootStrategy::ExtractSystemCache,
        Platform::Ios => RootStrategy::IosDeviceSymbols,
        Platform::IosSimulator => RootStrategy::Simulator(SimulatorOs::Ios),
        Platform::TvOsSimulator => RootStrategy::Simulator(SimulatorOs::TvOs),
        Platform::WatchOsSimulator => RootStrategy::Simulator(SimulatorOs::WatchOs),
        Platform::Other(id) => RootStrategy::Unsupported(*id),
        Platform::Unknown => RootStrategy::NoPlatformTag,
    }
}

/// The directory-name prefix that a simulator family's volumes carry.
pub fn simulator_os_prefix(os: &SimulatorOs) -> (r: String)
    ensures
        os is Ios ==> r@ == "iOS"@,
        os is TvOs ==> r@ == "tvOS"@,
        os is WatchOs ==> r@ == "watchOS"@,
{
    match os {
        SimulatorOs::Ios => String::from_str("iOS"),
        SimulatorOs::TvOs => String::from_str("tvOS"),
        SimulatorOs::WatchOs => String::from_str("watchOS"),
    }
}

/// How a directory entry's name must look to be considered by a discovery
/// stage.
pub enum NameRule {
    /// The name starts with the given prefix.
    Prefix(String),
    /// The name ends with the given suffix.
    Suffix(String),
    /// Every name matches.
    Any,
}

/// Whether one name satisfies a rule.
pub open spec fn spec_rule_matches(rule: NameRule, name: Seq<char>) -> bool {
    match rule {
        NameRule::Prefix(p) => p@.is_prefix_of(name),
        NameRule::Suffix(s) => s@.is_suffix_of(name),
        NameRule::Any => true,
    }
}

/// The lexicographically greatest entry that matches the rule, if any.
pub open spec fn spec_newest_matching(entries: Seq<Seq<char>>, rule: NameRule) -> Option<
    Seq<char>,
>
    decreases entries.len(),
{
    if entries.len() == 0 {
        Option::None
    } else {
        let last = entries.last();
        let rest = spec_newest_matching(entries.drop_last(), rule);
        if !spec_rule_matches(rule, last) {
            rest
        } else {
            match rest {
                Option::None => Option::Some(last),
                Option::Some(b) => if lex_lt(b, last) {
                    Option::Some(last)
                } else {
                    Option::Some(b)
                },
            }
        }
    }
}

/// What `spec_newest_matching` returns is a matching entry that every
/// matching entry orders at or below; and it returns nothing only when no
/// entry matches.
pub proof fn lemma_newest_matching_greatest(entries: Seq<Seq<char>>, rule: NameRule)
    ensures
        match spec_newest_matching(entries, rule) {
            Option::Some(m) => entries.contains(m) && spec_rule_matches(rule, m) && forall|i: int|
                0 <= i < entries.len() && spec_rule_matches(rule, #[trigger] entries[i])
                    ==> lex_le(entries[i], m),
            Option::None => forall|i: int|
                0 <= i < entries.len() ==> !spec_rule_matches(rule, #[trigger] entries[i]),
        },
    decreases entries.len(),
{
    if entries.len() > 0 {
        let front = entries.drop_last();
        let last = entries.last();
        lemma_newest_matching_greatest(front, rule);
        assert(forall|i: int| 0 <= i < front.len() ==> front[i] == entries[i]);
        match spec_newest_matching(entries, rule) {
            Option::Some(m) => {
                if m != last {
                    let j = choose|j: int| 0 <= j < front.len() && front[j] == m;
                    assert(entries[j] == m);
                }
                assert(entries.contains(m)) by {
                    if m == last {
                        assert(entries[entries.len() - 1] == m);
                    }
                }
                assert forall|i: int|
                    0 <= i < entries.len() && spec_rule_matches(rule, #[trigger] entries[i])
                        implies lex_le(entries[i], m) by {
                    if i < front.len() {
                        match spec_newest_matching(front, rule) {
                            Option::Some(b) => {
                                if spec_rule_matches(rule, last) && lex_lt(b, last) {
                                    if lex_lt(entries[i], b) {
                                        lemma_lex_trans(entries[i], b, last);
                                    }
                                } else {
                                    assert(m == b);
                                }
                            },
                            Option::None => {
                            },
                        }
                    } else {
                        if m != last {
                            let b = spec_newest_matching(front, rule)->Some_0;
                            assert(m == b);
                            lemma_lex_connex(last, b);
                        }
                    }
                }
            },
            Option::None => {
            },
        }
    }
}

/// Picks the lexicographically greatest directory-entry name that matches
/// the rule, as the platform discovery heuristics require.
pub fn newest_matching(entries: &Vec<String>, rule: &NameRule) -> (r: Option<String>)
    ensures
        match r {
            Option::Some(m) => spec_newest_matching(entries.deep_view(), *rule) == Option::Some(
                m@,
            ),
            Option::None => spec_newest_matching(entries.deep_view(), *rule) is None,
        },
{
    let ghost dv = entries.deep_view();
    let mut best: Option<String> = None;
    let mut i: usize = 0;
    proof {
        assert(dv.take(0) =~= Seq::<Seq<char>>::empty());
    }
    while i < entries.len()
        invariant
            i <= entries.len(),
            dv == entries.deep_view(),
            dv.len() == entries.len(),
            match best {
                Option::Some(m) => spec_newest_matching(dv.take(i as int), *rule) == Option::Some(
                    m@,
                ),
                Option::None => spec_newest_matching(dv.take(i as int), *rule) is None,
            },
        decreases entries.len() - i,
    {
        let name: &String = &entries[i];
        proof {
            assert(dv[i as int] == entries@[i as int]@);
            assert(dv.take(i + 1 as int).drop_last() =~= dv.take(i as int));
            assert(dv.take(i + 1 as int).last() == dv[i as int]);
        }
        let matches_rule: bool = match rule {
            NameRule::Prefix(p) => has_prefix(name.as_str(), p.as_str()),
            NameRule::Suffix(s) => has_suffix(name.as_str(), s.as_str()),
            NameRule::Any => true,
        };
        if matches_rule {
            best = match best {
                Option::None => Some(name.clone()),
                Option::Some(b) => {
                    if str_lt(b.as_str(), name.as_str()) {
                        Some(name.clone())
                    } else {
                        Some(b)
                    }
                },
            };
        }
        i += 1;
    }
    proof {
        assert(dv.take(dv.len() as int) =~= dv);
    }
    best
}

/// The well-known directory that holds simulator OS volumes.
pub fn simulator_volumes_dir() -> (r: String)
    ensures
        r@ == "/Library/Developer/CoreSimulator/Volumes"@,
{
    String::from_str("/Library/Developer/CoreSimulator/Volumes")
}

/// The runtimes directory inside one simulator OS volume.
pub fn simulator_runtimes_dir(volume: &str) -> (r: String)
    ensures
        r@ == spec_join_path(
            spec_join_path("/Library/Developer/CoreSimulator/Volumes"@, volume@),
            "Library/Developer/CoreSimulator/Profiles/Runtimes"@,
        ),
{
    let base = simulator_volumes_dir();
    let with_volume = join_path(base.as_str(), volume);
    join_path(with_volume.as_str(), "Library/Developer/CoreSimulator/Profiles/Runtimes")
}

/// The fixed runtime-root subdirectory inside one runtime bundle.
pub fn simulator_runtime_root(runtimes_dir: &str, bundle: &str) -> (r: String)
    ensures
        r@ == spec_join_path(
            spec_join_path(runtimes_dir@, bundle@),
            "Contents/Resources/RuntimeRoot"@,
        ),
{
    let with_bundle = join_path(runtimes_dir, bundle);
    join_path(with_bundle.as_str(), "Contents/Resources/RuntimeRoot")
}

/// The suffix that simulator runtime bundles carry.
pub fn simruntime_suffix() -> (r: String)
    ensures
        r@ == ".simruntime"@,
{
    String::from_str(".simruntime")
}

/// The per-user device-support directory for one device family, under the
/// user's home directory.
pub fn device_support_dir(home: &str, os: &str) -> (r: String)
    ensures
        r@ == spec_join_path(
            spec_join_path(home@, "Library/Developer/Xcode"@),
            os@ + " DeviceSupport"@,
        ),
{
    let base = join_path(home, "Library/Developer/Xcode");
    let mut family = String::from_str(os);
    family.append(" DeviceSupport");
    join_path(base.as_str(), family.as_str())
}

/// The fixed symbols subdirectory inside one device-support entry.
pub fn device_symbols_dir(entry: &str) -> (r: String)
    ensures
        r@ == spec_join_path(entry@, "Symbols"@),
{
    join_path(entry, "Symbols")
}

/// The well-known on-disk locations of the macOS system library cache, in
/// probe order: one per CPU family, first existing wins.
pub fn macos_cache_candidates() -> (r: Vec<String>)
    ensures
        r.deep_view() == seq![
            "/System/Volumes/Preboot/Cryptexes/OS/System/Library/dyld/dyld_shared_cache_arm64e"@,
            "/System/Volumes/Preboot/Cryptexes/OS/System/Library/dyld/dyld_shared_cache_x86_64h"@,
        ],
{
    let mut v: Vec<String> = Vec::new();
    v.push(
        String::from_str(
            "/System/Volumes/Preboot/Cryptexes/OS/System/Library/dyld/dyld_shared_cache_arm64e",
        ),
    );
    v.push(
        String::from_str(
            "/System/Volumes/Preboot/Cryptexes/OS/System/Library/dyld/dyld_shared_cache_x86_64h",
        ),
    );
    proof {
        assert(v.deep_view() =~= seq![
            "/System/Volumes/Preboot/Cryptexes/OS/System/Library/dyld/dyld_shared_cache_arm64e"@,
            "/System/Volumes/Preboot/Cryptexes/OS/System/Library/dyld/dyld_shared_cache_x86_64h"@,
        ]);
    }
    v
}

/// The least index whose flag is true: the first existing candidate wins.
pub fn first_true(exists: &Vec<bool>) -> (r: Option<usize>)
    ensures
        match r {
            Option::Some(j) => j < exists@.len() && exists@[j as int] && forall|k: int|
                0 <= k < j ==> !exists@[k],
            Option::None => forall|k: int| 0 <= k < exists@.len() ==> !exists@[k],
        },
{
    let mut j: usize = 0;
    while j < exists.len()
        invariant
            j <= exists.len(),
            forall|k: int| 0 <= k < j ==> !exists@[k],
        decreases exists.len() - j,
    {
        if exists[j] {
            return Some(j);
        }
        j += 1;
    }
    None
}

} // verus!
