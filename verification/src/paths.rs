//! Turns one dependency reference plus its context — the consuming image's
//! location, the image's run-path entries and the runtime root — into the
//! ordered list of filesystem paths to probe. No filesystem access happens
//! here; the first candidate that exists on disk wins at the caller.

use vstd::prelude::*;

use crate::strutil::{
    dir_of, drop_front, has_prefix, join_path, spec_dir_of, spec_join_path, spec_strip_leading_sep,
    strip_leading_sep,
};

verus! {

/// True when `e` is a run-path entry relative to the root binary's own
/// directory. The executable-relative and loader-relative markers are treated
/// alike, a documented simplification.
pub open spec fn spec_is_relative_entry(e: Seq<char>) -> bool {
    "@executable_path/"@.is_prefix_of(e) || "@loader_path/"@.is_prefix_of(e)
}

/// What follows the marker of a relative run-path entry.
pub open spec fn spec_entry_remainder(e: Seq<char>) -> Seq<char> {
    if "@executable_path/"@.is_prefix_of(e) {
        e.subrange(17, e.len() as int)
    } else {
        e.subrange(13, e.len() as int)
    }
}

/// The candidates one run-path entry contributes for the tail of an
/// rpath-relative reference: one executable-relative path for a marked entry,
/// otherwise the entry verbatim and then the entry re-rooted under the
/// runtime root.
pub open spec fn spec_entry_candidates(
    entry: Seq<char>,
    tail: Seq<char>,
    exe_dir: Seq<char>,
    root: Seq<char>,
) -> Seq<Seq<char>> {
    if spec_is_relative_entry(entry) {
        seq![spec_join_path(spec_join_path(exe_dir, spec_entry_remainder(entry)), tail)]
    } else {
        seq![
            spec_join_path(entry, tail),
            spec_join_path(root, spec_join_path(spec_strip_leading_sep(entry), tail)),
        ]
    }
}

/// The candidates of all run-path entries, in declared order.
pub open spec fn spec_rpath_candidates(
    rpaths: Seq<Seq<char>>,
    tail: Seq<char>,
    exe_dir: Seq<char>,
    root: Seq<char>,
) -> Seq<Seq<char>>
    decreases rpaths.len(),
{
    if rpaths.len() == 0 {
        seq![]
    } else {
        spec_entry_candidates(rpaths[0], tail, exe_dir, root) + spec_rpath_candidates(
            rpaths.drop_first(),
            tail,
            exe_dir,
            root,
        )
    }
}

/// The ordered candidate list for one dependency reference. An rpath-marked
/// reference resolves its tail against every run-path entry in order; any
/// other reference yields itself verbatim and then itself re-rooted under the
/// runtime root.
pub open spec fn spec_candidates(
    reference: Seq<char>,
    image_path: Seq<char>,
    rpaths: Seq<Seq<char>>,
    root: Seq<char>,
) -> Seq<Seq<char>> {
    if "@rpath/"@.is_prefix_of(reference) {
        spec_rpath_candidates(
            rpaths,
            reference.subrange(7, reference.len() as int),
            spec_dir_of(image_path),
            root,
        )
    } else {
        seq![
            reference,
            spec_join_path(root, spec_strip_leading_sep(reference)),
        ]
    }
}

proof fn lemma_rpath_candidates_snoc(
    rpaths: Seq<Seq<char>>,
    e: Seq<char>,
    tail: Seq<char>,
    exe_dir: Seq<char>,
    root: Seq<char>,
)
    ensures
        spec_rpath_candidates(rpaths.push(e), tail, exe_dir, root) == spec_rpath_candidates(
            rpaths,
            tail,
            exe_dir,
            root,
        ) + spec_entry_candidates(e, tail, exe_dir, root),
    decreases rpaths.len(),
{
    if rpaths.len() == 0 {
        assert(rpaths.push(e).drop_first() =~= rpaths);
        assert(rpaths.push(e)[0] == e);
        assert(spec_rpath_candidates(rpaths.push(e), tail, exe_dir, root) =~= spec_rpath_candidates(
            rpaths,
            tail,
            exe_dir,
            root,
        ) + spec_entry_candidates(e, tail, exe_dir, root));
    } else {
        assert(rpaths.push(e).drop_first() =~= rpaths.drop_first().push(e));
        lemma_rpath_candidates_snoc(rpaths.drop_first(), e, tail, exe_dir, root);
        assert(spec_rpath_candidates(rpaths.push(e), tail, exe_dir, root) =~= spec_rpath_candidates(
            rpaths,
            tail,
            exe_dir,
            root,
        ) + spec_entry_candidates(e, tail, exe_dir, root));
    }
}

/// Generates, in priority order, every filesystem path at which the
/// dependency reference `lib`, declared by the image at `executable_path`
/// with run-path entries `rpaths`, may be found under the runtime root
/// `shared_cache_root`.
pub fn get_potential_paths(
    shared_cache_root: &str,
    executable_path: &str,
    lib: &str,
    rpaths: &Vec<String>,
) -> (r: Vec<String>)
    ensures
        r.deep_view() == spec_candidates(
            lib@,
            executable_path@,
            rpaths.deep_view(),
            shared_cache_root@,
        ),
{
    let mut paths: Vec<String> = Vec::new();
    if has_prefix(lib, "@rpath/") {
        proof {
            reveal_strlit("@rpath/");
        }
        let tail = drop_front(lib, 7);
        let exe_dir = dir_of(executable_path);
        let ghost gtail = lib@.subrange(7, lib@.len() as int);
        let ghost gdir = spec_dir_of(executable_path@);
        let ghost groot = shared_cache_root@;
        let mut i: usize = 0;
        while i < rpaths.len()
            invariant
                i <= rpaths.len(),
                tail@ == gtail,
                exe_dir@ == gdir,
                groot == shared_cache_root@,
                paths.deep_view() == spec_rpath_candidates(
                    rpaths.deep_view().subrange(0, i as int),
                    gtail,
                    gdir,
                    groot,
                ),
            decreases rpaths.len() - i,
        {
            let ghost prefix_entries = rpaths.deep_view().subrange(0, i as int);
            let ghost old_dv = paths.deep_view();
            let ghost old_pv = paths@;
            let entry: &String = &rpaths[i];
            if has_prefix(entry.as_str(), "@executable_path/") {
                proof {
                    reveal_strlit("@executable_path/");
                }
                let rem = drop_front(entry.as_str(), 17);
                let cand = join_path(join_path(exe_dir.as_str(), rem.as_str()).as_str(), tail.as_str());
                proof {
                    assert(rem@ == spec_entry_remainder(entry@));
                    assert(cand@ == spec_join_path(
                        spec_join_path(gdir, spec_entry_remainder(entry@)),
                        gtail,
                    ));
                    assert(cand@ == spec_entry_candidates(entry@, gtail, gdir, groot)[0]);
                }
                paths.push(cand);
            } else if has_prefix(entry.as_str(), "@loader_path/") {
                proof {
                    reveal_strlit("@loader_path/");
                }
                let rem = drop_front(entry.as_str(), 13);
                let cand = join_path(join_path(exe_dir.as_str(), rem.as_str()).as_str(), tail.as_str());
                proof {
                    assert(rem@ == spec_entry_remainder(entry@));
                    assert(cand@ == spec_entry_candidates(entry@, gtail, gdir, groot)[0]);
                }
                paths.push(cand);
            } else {
                let cand0 = join_path(entry.as_str(), tail.as_str());
                let stripped = strip_leading_sep(entry.as_str());
                let stripped_tail = join_path(stripped.as_str(), tail.as_str());
                let cand1 = join_path(shared_cache_root, stripped_tail.as_str());
                proof {
                    assert(stripped@ == spec_strip_leading_sep(entry@));
                    assert(stripped_tail@ == spec_join_path(spec_strip_leading_sep(entry@), gtail));
                    assert(cand1@ == spec_join_path(
                        groot,
                        spec_join_path(spec_strip_leading_sep(entry@), gtail),
                    ));
                    assert(cand0@ == spec_entry_candidates(entry@, gtail, gdir, groot)[0]);
                    assert(cand1@ == spec_entry_candidates(entry@, gtail, gdir, groot)[1]);
                }
                paths.push(cand0);
                paths.push(cand1);
            }
            proof {
                lemma_rpath_candidates_snoc(prefix_entries, entry@, gtail, gdir, groot);
                assert(prefix_entries.push(entry@) =~= rpaths.deep_view().subrange(
                    0,
                    i + 1 as int,
                ));
                let ec = spec_entry_candidates(entry@, gtail, gdir, groot);
                assert(paths@.len() == old_pv.len() + ec.len());
                assert forall|j: int| 0 <= j < paths@.len() implies paths.deep_view()[j] == (old_dv
                    + ec)[j] by {
                    if j < old_pv.len() {
                        assert(paths@[j] == old_pv[j]);
                    }
                }
                assert(paths.deep_view() =~= old_dv + ec);
                assert(paths.deep_view() =~= spec_rpath_candidates(
                    rpaths.deep_view().subrange(0, i + 1 as int),
                    gtail,
                    gdir,
                    groot,
                ));
            }
            i += 1;
        }
        proof {
            assert(rpaths.deep_view().subrange(0, rpaths.deep_view().len() as int) =~= rpaths.deep_view());
        }
    } else {
        paths.push(String::from_str(lib));
        let stripped = strip_leading_sep(lib);
        paths.push(join_path(shared_cache_root, stripped.as_str()));
        proof {
            assert(paths.deep_view() =~= spec_candidates(
                lib@,
                executable_path@,
                rpaths.deep_view(),
                shared_cache_root@,
            ));
        }
    }
    paths
}

/// True when some ignored prefix is a prefix of the raw reference `lib`.
pub open spec fn spec_should_ignore(lib: Seq<char>, prefixes: Seq<Seq<char>>) -> bool {
    exists|i: int| 0 <= i < prefixes.len() && prefixes[i].is_prefix_of(lib)
}

/// Decides whether the raw, unresolved reference `lib` matches one of the
/// ignored prefixes.
pub fn should_ignore(lib: &str, ignore_prefixes: &Vec<String>) -> (r: bool)
    ensures
        r == spec_should_ignore(lib@, ignore_prefixes.deep_view()),
{
    let mut i: usize = 0;
    while i < ignore_prefixes.len()
        invariant
            i <= ignore_prefixes.len(),
            forall|j: int|
                0 <= j < i ==> !ignore_prefixes.deep_view()[j].is_prefix_of(lib@),
        decreases ignore_prefixes.len() - i,
    {
        if has_prefix(lib, ignore_prefixes[i].as_str()) {
            proof {
                assert(ignore_prefixes.deep_view()[i as int].is_prefix_of(lib@));
            }
            return true;
        }
        i += 1;
    }
    false
}

/// For an rpath-relative reference whose run-path entries carry no
/// executable- or loader-relative marker, candidate generation yields exactly
/// two paths per entry, in entry order: the entry joined with the reference's
/// tail, then that same path re-rooted under the runtime root.
pub proof fn lemma_rpath_candidate_count(
    reference: Seq<char>,
    image_path: Seq<char>,
    rpaths: Seq<Seq<char>>,
    root: Seq<char>,
)
    requires
        "@rpath/"@.is_prefix_of(reference),
        forall|i: int| 0 <= i < rpaths.len() ==> !spec_is_relative_entry(#[trigger] rpaths[i]),
    ensures
        spec_candidates(reference, image_path, rpaths, root).len() == 2 * rpaths.len(),
        forall|i: int|
            0 <= i < rpaths.len() ==> #[trigger] spec_candidates(
                reference,
                image_path,
                rpaths,
                root,
            )[2 * i] == spec_join_path(
                rpaths[i],
                reference.subrange(7, reference.len() as int),
            ),
        forall|i: int|
            0 <= i < rpaths.len() ==> #[trigger] spec_candidates(
                reference,
                image_path,
                rpaths,
                root,
            )[2 * i + 1] == spec_join_path(
                root,
                spec_join_path(
                    spec_strip_leading_sep(rpaths[i]),
                    reference.subrange(7, reference.len() as int),
                ),
            ),
{
    lemma_rpath_flat_shape(
        rpaths,
        reference.subrange(7, reference.len() as int),
        spec_dir_of(image_path),
        root,
    );
}

proof fn lemma_rpath_flat_shape(
    rpaths: Seq<Seq<char>>,
    tail: Seq<char>,
    exe_dir: Seq<char>,
    root: Seq<char>,
)
    requires
        forall|i: int| 0 <= i < rpaths.len() ==> !spec_is_relative_entry(#[trigger] rpaths[i]),
    ensures
        spec_rpath_candidates(rpaths, tail, exe_dir, root).len() == 2 * rpaths.len(),
        forall|i: int|
            0 <= i < rpaths.len() ==> #[trigger] spec_rpath_candidates(
                rpaths,
                tail,
                exe_dir,
                root,
            )[2 * i] == spec_join_path(rpaths[i], tail),
        forall|i: int|
            0 <= i < rpaths.len() ==> #[trigger] spec_rpath_candidates(
                rpaths,
                tail,
                exe_dir,
                root,
            )[2 * i + 1] == spec_join_path(
                root,
                spec_join_path(spec_strip_leading_sep(rpaths[i]), tail),
            ),
    decreases rpaths.len(),
{
    if rpaths.len() > 0 {
        lemma_rpath_flat_shape(rpaths.drop_first(), tail, exe_dir, root);
        let head = spec_entry_candidates(rpaths[0], tail, exe_dir, root);
        let rest = spec_rpath_candidates(rpaths.drop_first(), tail, exe_dir, root);
        assert forall|i: int| 0 <= i < rpaths.len() implies #[trigger] spec_rpath_candidates(
            rpaths,
            tail,
            exe_dir,
            root,
        )[2 * i] == spec_join_path(rpaths[i], tail) by {
            if i > 0 {
                assert(rpaths.drop_first()[i - 1] == rpaths[i]);
                assert((head + rest)[2 * i] == rest[2 * (i - 1)]);
            }
        }
        assert forall|i: int| 0 <= i < rpaths.len() implies #[trigger] spec_rpath_candidates(
            rpaths,
            tail,
            exe_dir,
            root,
        )[2 * i + 1] == spec_join_path(
            root,
            spec_join_path(spec_strip_leading_sep(rpaths[i]), tail),
        ) by {
            if i > 0 {
                assert(rpaths.drop_first()[i - 1] == rpaths[i]);
                assert((head + rest)[2 * i + 1] == rest[2 * (i - 1) + 1]);
            }
        }
    }
}

/// For a reference without the rpath marker, candidate generation yields
/// exactly two paths: the reference verbatim, then the reference re-rooted
/// under the runtime root.
pub proof fn lemma_absolute_candidate_count(
    reference: Seq<char>,
    image_path: Seq<char>,
    rpaths: Seq<Seq<char>>,
    root: Seq<char>,
)
    requires
        !"@rpath/"@.is_prefix_of(reference),
    ensures
        spec_candidates(reference, image_path, rpaths, root).len() == 2,
        spec_candidates(reference, image_path, rpaths, root)[0] == reference,
        spec_candidates(reference, image_path, rpaths, root)[1] == spec_join_path(
            root,
            spec_strip_leading_sep(reference),
        ),
{
}

} // verus!
