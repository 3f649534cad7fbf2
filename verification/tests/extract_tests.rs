use dylibtree::{
    cache_image_candidates, extraction_output_dir, hex_string, key_hash, macos_cache_candidates,
    CacheExtractor, ExtractStep,
};

#[test]
fn hex_renders_minimal_lowercase() {
    assert_eq!(hex_string(0), "0");
    assert_eq!(hex_string(9), "9");
    assert_eq!(hex_string(10), "a");
    assert_eq!(hex_string(255), "ff");
    assert_eq!(hex_string(0xdeadbeef), "deadbeef");
    assert_eq!(hex_string(u64::MAX), "ffffffffffffffff");
}

#[test]
fn key_hash_matches_reference_vectors() {
    // 64-bit FNV-1a reference values.
    assert_eq!(key_hash(""), 0xcbf29ce484222325);
    assert_eq!(key_hash("a"), 0xaf63dc4c8601ec8c);
}

#[test]
fn key_hash_is_stable_and_discriminating() {
    let p = "/System/Library/dyld/dyld_shared_cache_arm64e";
    assert_eq!(key_hash(p), key_hash(p));
    assert_ne!(key_hash(p), key_hash("/somewhere/else"));
}

#[test]
fn output_dir_sits_under_scratch_root() {
    let p = "/cache/image";
    let dir = extraction_output_dir(p);
    let expected = format!("/tmp/dylibtree/{}", hex_string(key_hash(p)));
    assert_eq!(dir, expected);
    assert_eq!(extraction_output_dir(p), dir);
}

#[test]
fn extraction_is_memoized() {
    // A second plan for the same cache image returns the same directory and
    // asks for no second unpack.
    let mut memo = CacheExtractor::new();
    let first_dir = match memo.plan_extraction("/cache/image") {
        ExtractStep::Unpack(d) => d,
        ExtractStep::Reuse(_) => panic!("nothing was recorded yet"),
    };
    memo.record_extracted(first_dir.clone());
    match memo.plan_extraction("/cache/image") {
        ExtractStep::Reuse(d) => assert_eq!(d, first_dir),
        ExtractStep::Unpack(_) => panic!("the first extraction was not reused"),
    }
}

#[test]
fn different_images_extract_separately() {
    let mut memo = CacheExtractor::new();
    let dir = match memo.plan_extraction("/cache/one") {
        ExtractStep::Unpack(d) => d,
        ExtractStep::Reuse(_) => panic!("nothing was recorded yet"),
    };
    memo.record_extracted(dir);
    match memo.plan_extraction("/cache/two") {
        ExtractStep::Unpack(d) => assert_ne!(d, extraction_output_dir("/cache/one")),
        ExtractStep::Reuse(_) => panic!("a different image must not reuse the first"),
    }
}

#[test]
fn explicit_cache_candidate_comes_first() {
    let explicit = Some("/given/cache".to_string());
    let cands = cache_image_candidates(&explicit, macos_cache_candidates());
    assert_eq!(cands.len(), 3);
    assert_eq!(cands[0], "/given/cache");
    assert_eq!(
        cands[1],
        "/System/Volumes/Preboot/Cryptexes/OS/System/Library/dyld/dyld_shared_cache_arm64e",
    );
    assert_eq!(
        cands[2],
        "/System/Volumes/Preboot/Cryptexes/OS/System/Library/dyld/dyld_shared_cache_x86_64h",
    );
}

#[test]
fn without_explicit_cache_the_well_known_paths_remain() {
    let cands = cache_image_candidates(&None, macos_cache_candidates());
    assert_eq!(cands, macos_cache_candidates());
}
