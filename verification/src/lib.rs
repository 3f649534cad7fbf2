//! Reports the load-time shared-library dependency closure of a Mach-O
//! executable or library as an indented tree, resolving each declared
//! dependency reference to a concrete filesystem path.

mod cli;
mod extract;
mod image;
mod walk;
mod paths;
mod runtime_root;
mod strutil;
mod visited;

pub use cli::{parse_args, parse_usize_digits, Args, CliError};
pub use extract::{
    cache_image_candidates, extraction_output_dir, hex_string, key_hash, CacheExtractor,
    ExtractStep,
};
pub use image::{
    decode_outcome, load_binary, platform_from_tag, DecodeError, DecodeOutcome, FormatKind,
    NativeImage, ObjectClass, Platform,
};
pub use paths::{get_potential_paths, should_ignore};
pub use runtime_root::{
    choose_root_plan, device_support_dir, device_symbols_dir, first_true,
    macos_cache_candidates, newest_matching, runtime_root_strategy, simruntime_suffix,
    simulator_os_prefix, simulator_runtime_root, simulator_runtimes_dir, simulator_volumes_dir,
    NameRule, RootPlan, RootStrategy, SimulatorOs,
};
pub use strutil::{dir_of, join_path, spaces, str_eq, str_lt};
pub use visited::VisitedSet;
pub use walk::{
    reference_action, RefAction,
    leaf_line, node_line, not_found_line, print_dylib_paths, FsImage, FsModel, WalkError,
};
