//! The dependency tree walker: loads an image from a modelled filesystem
//! snapshot, renders its line, and expands each declared dependency reference
//! in order — skipping the image's own identity, enforcing the depth ceiling,
//! filtering ignored prefixes, controlling duplicates through the visited set,
//! probing candidate paths in priority order and recursing on the first hit.
//! The walker is driven by a filesystem snapshot handed in as a value, so the
//! traversal itself is environment-agnostic.

use vstd::prelude::*;

use crate::image::NativeImage;
use crate::paths::{get_potential_paths, should_ignore, spec_candidates, spec_should_ignore};
use crate::strutil::{spaces, spec_spaces, str_eq};
use crate::visited::VisitedSet;

verus! {

/// One readable, decodable image in a filesystem snapshot.
pub struct FsImage {
    /// The filesystem path the image sits at.
    pub path: String,
    /// Its decoded dependency view.
    pub image: NativeImage,
}

/// The slice of the filesystem a traversal reads: paths that hold a decodable
/// image, and paths that exist without holding one.
pub struct FsModel {
    /// Paths holding decodable images; the first entry for a path wins.
    pub images: Vec<FsImage>,
    /// Paths that exist on disk but cannot be decoded as native images.
    pub plain: Vec<String>,
}

/// The image stored at path `p`: the first matching entry.
pub open spec fn spec_lookup(entries: Seq<FsImage>, p: Seq<char>) -> Option<NativeImage>
    decreases entries.len(),
{
    if entries.len() == 0 {
        Option::None
    } else if entries[0].path@ == p {
        Option::Some(entries[0].image)
    } else {
        spec_lookup(entries.drop_first(), p)
    }
}

/// Whether any node — image or plain file — exists at path `p`.
pub open spec fn spec_exists_at(fs: FsModel, p: Seq<char>) -> bool {
    spec_lookup(fs.images@, p) is Some || fs.plain.deep_view().contains(p)
}

/// The first candidate path that exists in the snapshot.
pub open spec fn spec_first_existing(fs: FsModel, cands: Seq<Seq<char>>) -> Option<Seq<char>>
    decreases cands.len(),
{
    if cands.len() == 0 {
        Option::None
    } else if spec_exists_at(fs, cands[0]) {
        Option::Some(cands[0])
    } else {
        spec_first_existing(fs, cands.drop_first())
    }
}

impl FsModel {
    /// Finds the image stored at `p`, if any.
    pub fn lookup(&self, p: &str) -> (r: Option<&NativeImage>)
        ensures
            match r {
                Option::Some(img) => spec_lookup(self.images@, p@) == Option::Some(*img),
                Option::None => spec_lookup(self.images@, p@) is None,
            },
    {
        let mut i: usize = 0;
        proof {
            assert(self.images@.skip(0) =~= self.images@);
        }
        while i < self.images.len()
            invariant
                i <= self.images.len(),
                spec_lookup(self.images@, p@) == spec_lookup(
                    self.images@.skip(i as int),
                    p@,
                ),
            decreases self.images.len() - i,
        {
            proof {
                assert(self.images@.skip(i as int)[0] == self.images@[i as int]);
                assert(self.images@.skip(i as int).drop_first() =~= self.images@.skip(
                    i + 1 as int,
                ));
            }
            if str_eq(self.images[i].path.as_str(), p) {
                return Some(&self.images[i].image);
            }
            i += 1;
        }
        proof {
            assert(self.images@.skip(self.images@.len() as int) =~= Seq::<FsImage>::empty());
        }
        None
    }

    /// Whether `p` exists in the snapshot without holding a decodable image.
    pub fn plain_contains(&self, p: &str) -> (r: bool)
        ensures
            r == self.plain.deep_view().contains(p@),
    {
        let mut i: usize = 0;
        while i < self.plain.len()
            invariant
                i <= self.plain.len(),
                forall|j: int| 0 <= j < i ==> self.plain.deep_view()[j] != p@,
            decreases self.plain.len() - i,
        {
            if str_eq(self.plain[i].as_str(), p) {
                proof {
                    assert(self.plain.deep_view()[i as int] == p@);
                }
                return true;
            }
            i += 1;
        }
        false
    }

    /// Whether anything exists at `p`.
    pub fn exists_at(&self, p: &str) -> (r: bool)
        ensures
            r == spec_exists_at(*self, p@),
    {
        match self.lookup(p) {
            Option::Some(_) => true,
            Option::None => self.plain_contains(p),
        }
    }
}

/// Why a traversal step failed, fatally for the run.
#[derive(Debug)]
pub enum WalkError {
    /// No readable file at the path.
    Missing(String),
    /// The file exists but holds no decodable native image.
    Undecodable(String),
}

/// The ghost mirror of [`WalkError`].
pub enum WalkErrV {
    Missing(Seq<char>),
    Undecodable(Seq<char>),
}

impl View for WalkError {
    type V = WalkErrV;

    open spec fn view(&self) -> WalkErrV {
        match self {
            WalkError::Missing(p) => WalkErrV::Missing(p@),
            WalkError::Undecodable(p) => WalkErrV::Undecodable(p@),
        }
    }
}

/// What one successful traversal returns: its output lines in print order and
/// the grown visited set.
pub struct WalkOutV {
    pub lines: Seq<Seq<char>>,
    pub visited: Set<Seq<char>>,
}

/// The line announcing an expandable node at a depth.
pub open spec fn spec_node_line(depth: nat, name: Seq<char>) -> Seq<char> {
    spec_spaces(2 * depth) + name + ":"@
}

/// The line for a duplicate leaf at the child indent of a depth.
pub open spec fn spec_leaf_line(depth: nat, name: Seq<char>) -> Seq<char> {
    spec_spaces(2 * depth + 2) + name
}

/// The warning line for a reference none of whose candidates exists.
pub open spec fn spec_not_found_line(depth: nat, name: Seq<char>) -> Seq<char> {
    spec_spaces(2 * depth + 2) + name + ": warning: not found"@
}

/// One traversal step: load the image at `path`, print `canon` at the
/// depth's indent, and expand its dependency references in declared order.
pub open spec fn spec_walk(
    fs: FsModel,
    root: Seq<char>,
    path: Seq<char>,
    canon: Seq<char>,
    depth: nat,
    max_depth: nat,
    visited: Set<Seq<char>>,
    ignores: Seq<Seq<char>>,
    suppress: bool,
) -> Result<WalkOutV, WalkErrV>
    decreases max_depth - depth, 1int, 0int,
{
    match spec_lookup(fs.images@, path) {
        Option::None => if fs.plain.deep_view().contains(path) {
            Result::Err(WalkErrV::Undecodable(path))
        } else {
            Result::Err(WalkErrV::Missing(path))
        },
        Option::Some(img) => match spec_walk_deps(
            fs,
            root,
            path,
            canon,
            depth,
            max_depth,
            visited,
            ignores,
            suppress,
            img,
            0,
        ) {
            Result::Err(e) => Result::Err(e),
            Result::Ok(out) => Result::Ok(
                WalkOutV { lines: seq![spec_node_line(depth, canon)] + out.lines, visited: out.visited },
            ),
        },
    }
}

/// Expands the dependency references of `img` from position `i` on, in
/// declared order. A reference equal to the image's own identity, one past
/// the depth ceiling, or one matching an ignored prefix contributes nothing;
/// a visited reference contributes one leaf line unless duplicates are
/// suppressed; any other reference is marked visited before its first
/// existing candidate is expanded, so cycles terminate, and is reported as
/// not found when no candidate exists.
pub open spec fn spec_walk_deps(
    fs: FsModel,
    root: Seq<char>,
    path: Seq<char>,
    canon: Seq<char>,
    depth: nat,
    max_depth: nat,
    visited: Set<Seq<char>>,
    ignores: Seq<Seq<char>>,
    suppress: bool,
    img: NativeImage,
    i: nat,
) -> Result<WalkOutV, WalkErrV>
    decreases max_depth - depth, 0int, img.libs@.len() - i,
{
    if i >= img.libs@.len() {
        Result::Ok(WalkOutV { lines: seq![], visited })
    } else {
        let dep = img.libs.deep_view()[i as int];
        if dep == "self"@ || dep == canon {
            spec_walk_deps(
                fs, root, path, canon, depth, max_depth, visited, ignores, suppress, img, i + 1,
            )
        } else if depth + 1 > max_depth {
            spec_walk_deps(
                fs, root, path, canon, depth, max_depth, visited, ignores, suppress, img, i + 1,
            )
        } else if spec_should_ignore(dep, ignores) {
            spec_walk_deps(
                fs, root, path, canon, depth, max_depth, visited, ignores, suppress, img, i + 1,
            )
        } else if visited.contains(dep) {
            if suppress {
                spec_walk_deps(
                    fs, root, path, canon, depth, max_depth, visited, ignores, suppress, img, i + 1,
                )
            } else {
                match spec_walk_deps(
                    fs, root, path, canon, depth, max_depth, visited, ignores, suppress, img, i + 1,
                ) {
                    Result::Err(e) => Result::Err(e),
                    Result::Ok(out) => Result::Ok(
                        WalkOutV {
                            lines: seq![spec_leaf_line(depth, dep)] + out.lines,
                            visited: out.visited,
                        },
                    ),
                }
            }
        } else {
            let visited1 = visited.insert(dep);
            let cands = spec_candidates(dep, path, img.rpaths.deep_view(), root);
            match spec_first_existing(fs, cands) {
                Option::None => match spec_walk_deps(
                    fs, root, path, canon, depth, max_depth, visited1, ignores, suppress, img, i + 1,
                ) {
                    Result::Err(e) => Result::Err(e),
                    Result::Ok(out) => Result::Ok(
                        WalkOutV {
                            lines: seq![spec_not_found_line(depth, dep)] + out.lines,
                            visited: out.visited,
                        },
                    ),
                },
                Option::Some(hit) => match spec_walk(
                    fs, root, hit, dep, (depth + 1) as nat, max_depth, visited1, ignores, suppress,
                ) {
                    Result::Err(e) => Result::Err(e),
                    Result::Ok(sub) => match spec_walk_deps(
                        fs, root, path, canon, depth, max_depth, sub.visited, ignores, suppress, img, i + 1,
                    ) {
                        Result::Err(e) => Result::Err(e),
                        Result::Ok(out) => Result::Ok(
                            WalkOutV { lines: sub.lines + out.lines, visited: out.visited },
                        ),
                    },
                },
            }
        }
    }
}

/// An image with no dependency references prints exactly one line — its own
/// name at its depth's indent — and returns the visited set unchanged.
pub proof fn lemma_no_deps_single_line(
    fs: FsModel,
    root: Seq<char>,
    path: Seq<char>,
    canon: Seq<char>,
    depth: nat,
    max_depth: nat,
    visited: Set<Seq<char>>,
    ignores: Seq<Seq<char>>,
    suppress: bool,
)
    requires
        spec_lookup(fs.images@, path) is Some,
        spec_lookup(fs.images@, path)->Some_0.libs@.len() == 0,
    ensures
        spec_walk(fs, root, path, canon, depth, max_depth, visited, ignores, suppress)
            == Result::<WalkOutV, WalkErrV>::Ok(
            WalkOutV { lines: seq![spec_node_line(depth, canon)], visited },
        ),
{
    assert(seq![spec_node_line(depth, canon)] + Seq::<Seq<char>>::empty() =~= seq![
        spec_node_line(depth, canon),
    ]);
}

/// A reference equal to the consuming image's own identity — the reserved
/// self marker or the image's display name — is never printed and never
/// expanded: the walk continues at the next reference with everything
/// unchanged.
pub proof fn lemma_self_reference_skipped(
    fs: FsModel,
    root: Seq<char>,
    path: Seq<char>,
    canon: Seq<char>,
    depth: nat,
    max_depth: nat,
    visited: Set<Seq<char>>,
    ignores: Seq<Seq<char>>,
    suppress: bool,
    img: NativeImage,
    i: nat,
)
    requires
        i < img.libs@.len(),
        img.libs.deep_view()[i as int] == "self"@ || img.libs.deep_view()[i as int] == canon,
    ensures
        spec_walk_deps(fs, root, path, canon, depth, max_depth, visited, ignores, suppress, img, i)
            == spec_walk_deps(
            fs,
            root,
            path,
            canon,
            depth,
            max_depth,
            visited,
            ignores,
            suppress,
            img,
            i + 1,
        ),
{
}

proof fn lemma_depth_ceiling_deps(
    fs: FsModel,
    root: Seq<char>,
    path: Seq<char>,
    canon: Seq<char>,
    depth: nat,
    max_depth: nat,
    visited: Set<Seq<char>>,
    ignores: Seq<Seq<char>>,
    suppress: bool,
    img: NativeImage,
    i: nat,
)
    requires
        depth + 1 > max_depth,
        i <= img.libs@.len(),
    ensures
        spec_walk_deps(fs, root, path, canon, depth, max_depth, visited, ignores, suppress, img, i)
            == Result::<WalkOutV, WalkErrV>::Ok(WalkOutV { lines: seq![], visited }),
    decreases img.libs@.len() - i,
{
    if i < img.libs@.len() {
        lemma_depth_ceiling_deps(
            fs,
            root,
            path,
            canon,
            depth,
            max_depth,
            visited,
            ignores,
            suppress,
            img,
            i + 1,
        );
    }
}

/// With a depth ceiling of zero, the root's own line prints but none of its
/// dependencies are expanded, and the visited set is returned unchanged.
pub proof fn lemma_max_depth_zero(
    fs: FsModel,
    root: Seq<char>,
    path: Seq<char>,
    canon: Seq<char>,
    visited: Set<Seq<char>>,
    ignores: Seq<Seq<char>>,
    suppress: bool,
)
    requires
        spec_lookup(fs.images@, path) is Some,
    ensures
        spec_walk(fs, root, path, canon, 0, 0, visited, ignores, suppress)
            == Result::<WalkOutV, WalkErrV>::Ok(
            WalkOutV { lines: seq![spec_node_line(0, canon)], visited },
        ),
{
    let img = spec_lookup(fs.images@, path)->Some_0;
    lemma_depth_ceiling_deps(fs, root, path, canon, 0, 0, visited, ignores, suppress, img, 0);
    assert(seq![spec_node_line(0, canon)] + Seq::<Seq<char>>::empty() =~= seq![
        spec_node_line(0, canon),
    ]);
}

/// A reference already in the visited set is never expanded again. With
/// duplicate suppression it contributes no further line anywhere it recurs;
/// without suppression it contributes exactly one leaf line per occurrence.
/// Either way the visited set carried forward is unchanged by it. The
/// preconditions leave out exactly the occurrences that duplicate control
/// never reaches — the image's own identity, a reference past the depth
/// ceiling, and an ignored prefix — each of which contributes no line at all
/// ([`lemma_self_reference_skipped`], [`lemma_max_depth_zero`],
/// [`lemma_ignored_reference`]).
pub proof fn lemma_duplicate_reference(
    fs: FsModel,
    root: Seq<char>,
    path: Seq<char>,
    canon: Seq<char>,
    depth: nat,
    max_depth: nat,
    visited: Set<Seq<char>>,
    ignores: Seq<Seq<char>>,
    suppress: bool,
    img: NativeImage,
    i: nat,
)
    requires
        i < img.libs@.len(),
        visited.contains(img.libs.deep_view()[i as int]),
        img.libs.deep_view()[i as int] != "self"@,
        img.libs.deep_view()[i as int] != canon,
        depth + 1 <= max_depth,
        !spec_should_ignore(img.libs.deep_view()[i as int], ignores),
    ensures
        suppress ==> spec_walk_deps(
            fs,
            root,
            path,
            canon,
            depth,
            max_depth,
            visited,
            ignores,
            suppress,
            img,
            i,
        ) == spec_walk_deps(
            fs,
            root,
            path,
            canon,
            depth,
            max_depth,
            visited,
            ignores,
            suppress,
            img,
            i + 1,
        ),
        !suppress ==> ({
            let cur = spec_walk_deps(
                fs,
                root,
                path,
                canon,
                depth,
                max_depth,
                visited,
                ignores,
                suppress,
                img,
                i,
            );
            let rest = spec_walk_deps(
                fs,
                root,
                path,
                canon,
                depth,
                max_depth,
                visited,
                ignores,
                suppress,
                img,
                i + 1,
            );
            &&& (cur is Ok <==> rest is Ok)
            &&& (cur is Ok ==> cur->Ok_0.lines == seq![
                spec_leaf_line(depth, img.libs.deep_view()[i as int]),
            ] + rest->Ok_0.lines && cur->Ok_0.visited == rest->Ok_0.visited)
            &&& (cur is Err ==> cur->Err_0 == rest->Err_0)
        }),
{
}

/// Ignore-prefix filtering applies to the raw reference before any path
/// probing: an ignored reference contributes no line — in particular it is
/// never reported as not found — is never probed, and never enters the
/// visited set.
pub proof fn lemma_ignored_reference(
    fs: FsModel,
    root: Seq<char>,
    path: Seq<char>,
    canon: Seq<char>,
    depth: nat,
    max_depth: nat,
    visited: Set<Seq<char>>,
    ignores: Seq<Seq<char>>,
    suppress: bool,
    img: NativeImage,
    i: nat,
)
    requires
        i < img.libs@.len(),
        spec_should_ignore(img.libs.deep_view()[i as int], ignores),
    ensures
        spec_walk_deps(fs, root, path, canon, depth, max_depth, visited, ignores, suppress, img, i)
            == spec_walk_deps(
            fs,
            root,
            path,
            canon,
            depth,
            max_depth,
            visited,
            ignores,
            suppress,
            img,
            i + 1,
        ),
{
}

/// A visited set only grows: every successful traversal returns a superset
/// of the set it was given, so the caller's fold-forward loses nothing.
pub proof fn lemma_walk_visited_grows(
    fs: FsModel,
    root: Seq<char>,
    path: Seq<char>,
    canon: Seq<char>,
    depth: nat,
    max_depth: nat,
    visited: Set<Seq<char>>,
    ignores: Seq<Seq<char>>,
    suppress: bool,
)
    ensures
        spec_walk(fs, root, path, canon, depth, max_depth, visited, ignores, suppress) is Ok
            ==> visited.subset_of(
            spec_walk(fs, root, path, canon, depth, max_depth, visited, ignores, suppress)
                ->Ok_0.visited,
        ),
    decreases max_depth - depth, 1int, 0int,
{
    match spec_lookup(fs.images@, path) {
        Option::None => {
        },
        Option::Some(img) => {
            lemma_walk_deps_visited_grows(
                fs, root, path, canon, depth, max_depth, visited, ignores, suppress, img, 0,
            );
        },
    }
}

proof fn lemma_walk_deps_visited_grows(
    fs: FsModel,
    root: Seq<char>,
    path: Seq<char>,
    canon: Seq<char>,
    depth: nat,
    max_depth: nat,
    visited: Set<Seq<char>>,
    ignores: Seq<Seq<char>>,
    suppress: bool,
    img: NativeImage,
    i: nat,
)
    ensures
        spec_walk_deps(fs, root, path, canon, depth, max_depth, visited, ignores, suppress, img, i)
            is Ok ==> visited.subset_of(
            spec_walk_deps(
                fs, root, path, canon, depth, max_depth, visited, ignores, suppress, img, i,
            )->Ok_0.visited,
        ),
    decreases max_depth - depth, 0int, img.libs@.len() - i,
{
    if i >= img.libs@.len() {
    } else {
        let dep = img.libs.deep_view()[i as int];
        if dep == "self"@ || dep == canon || depth + 1 > max_depth || spec_should_ignore(
            dep,
            ignores,
        ) || (visited.contains(dep) && suppress) {
            lemma_walk_deps_visited_grows(
                fs, root, path, canon, depth, max_depth, visited, ignores, suppress, img, i + 1,
            );
        } else if visited.contains(dep) {
            lemma_walk_deps_visited_grows(
                fs, root, path, canon, depth, max_depth, visited, ignores, suppress, img, i + 1,
            );
        } else {
            let visited1 = visited.insert(dep);
            let cands = spec_candidates(dep, path, img.rpaths.deep_view(), root);
            match spec_first_existing(fs, cands) {
                Option::None => {
                    lemma_walk_deps_visited_grows(
                        fs, root, path, canon, depth, max_depth, visited1, ignores, suppress, img,
                        i + 1,
                    );
                },
                Option::Some(hit) => {
                    lemma_walk_visited_grows(
                        fs, root, hit, dep, depth + 1, max_depth, visited1, ignores, suppress,
                    );
                    match spec_walk(
                        fs, root, hit, dep, depth + 1, max_depth, visited1, ignores, suppress,
                    ) {
                        Result::Err(_) => {
                        },
                        Result::Ok(sub) => {
                            lemma_walk_deps_visited_grows(
                                fs, root, path, canon, depth, max_depth, sub.visited, ignores,
                                suppress, img, i + 1,
                            );
                        },
                    }
                },
            }
        }
    }
}

/// What the walker does with one dependency reference, decided before any
/// filesystem access.
pub enum RefAction {
    /// The reference contributes nothing: it is the image's own identity,
    /// past the depth ceiling, ignored by prefix, or a suppressed duplicate.
    Skip,
    /// An already-visited reference under duplicate printing: emit this one
    /// leaf line and do not recurse.
    PrintLeaf(String),
    /// An unvisited reference: mark it visited, then probe its candidates
    /// and expand the first that exists.
    Expand,
}

/// Decides, exactly as the traversal does, what one dependency reference of
/// the image shown as `canonical_path` at `depth` contributes: nothing, one
/// duplicate-leaf line, or an expansion. The identity check comes first, then
/// the depth ceiling, then prefix filtering on the raw reference, then
/// duplicate control; only an unexpanded reference is probed at all.
pub fn reference_action(
    dep: &str,
    canonical_path: &str,
    depth: usize,
    max_depth: usize,
    visited: &VisitedSet,
    ignore_prefixes: &Vec<String>,
    exclude_all_duplicates: bool,
) -> (r: RefAction)
    requires
        2 * depth + 2 <= usize::MAX,
    ensures
        ({
            let own = dep@ == "self"@ || dep@ == canonical_path@;
            let deep = depth + 1 > max_depth;
            let ignored = spec_should_ignore(dep@, ignore_prefixes.deep_view());
            let seen = visited@.contains(dep@);
            &&& (r is Skip <==> (own || deep || ignored || (seen && exclude_all_duplicates)))
            &&& (r is PrintLeaf <==> (!own && !deep && !ignored && seen
                && !exclude_all_duplicates))
            &&& (r is Expand <==> (!own && !deep && !ignored && !seen))
            &&& (r is PrintLeaf ==> r->PrintLeaf_0@ == spec_leaf_line(depth as nat, dep@))
        }),
{
    if str_eq(dep, "self") || str_eq(dep, canonical_path) {
        return RefAction::Skip;
    }
    if depth + 1 > max_depth {
        return RefAction::Skip;
    }
    if should_ignore(dep, ignore_prefixes) {
        return RefAction::Skip;
    }
    if visited.contains(dep) {
        if exclude_all_duplicates {
            return RefAction::Skip;
        }
        return RefAction::PrintLeaf(leaf_line(depth, dep));
    }
    RefAction::Expand
}

/// Probes the candidates in order and returns the first that exists.
fn first_existing(fs: &FsModel, cands: &Vec<String>) -> (r: Option<String>)
    ensures
        match r {
            Option::Some(p) => spec_first_existing(*fs, cands.deep_view()) == Option::Some(p@),
            Option::None => spec_first_existing(*fs, cands.deep_view()) is None,
        },
{
    let ghost dv = cands.deep_view();
    let mut j: usize = 0;
    proof {
        assert(dv.skip(0) =~= dv);
    }
    while j < cands.len()
        invariant
            j <= cands.len(),
            dv == cands.deep_view(),
            dv.len() == cands.len(),
            spec_first_existing(*fs, dv) == spec_first_existing(*fs, dv.skip(j as int)),
        decreases cands.len() - j,
    {
        proof {
            assert(dv.skip(j as int)[0] == dv[j as int]);
            assert(dv.skip(j as int).drop_first() =~= dv.skip(j + 1 as int));
            assert(cands.deep_view()[j as int] == cands@[j as int]@);
        }
        if fs.exists_at(cands[j].as_str()) {
            return Some(cands[j].clone());
        }
        j += 1;
    }
    proof {
        assert(dv.skip(dv.len() as int) =~= Seq::<Seq<char>>::empty());
    }
    None
}

/// Builds the node line for `name` at `depth`.
pub fn node_line(depth: usize, name: &str) -> (r: String)
    requires
        2 * depth <= usize::MAX,
    ensures
        r@ == spec_node_line(depth as nat, name@),
{
    let mut line = spaces(2 * depth);
    line.append(name);
    line.append(":");
    line
}

/// Builds the duplicate-leaf line for `name` under `depth`.
pub fn leaf_line(depth: usize, name: &str) -> (r: String)
    requires
        2 * depth + 2 <= usize::MAX,
    ensures
        r@ == spec_leaf_line(depth as nat, name@),
{
    let mut line = spaces(2 * depth + 2);
    line.append(name);
    line
}

/// Builds the not-found warning line for `name` under `depth`.
pub fn not_found_line(depth: usize, name: &str) -> (r: String)
    requires
        2 * depth + 2 <= usize::MAX,
    ensures
        r@ == spec_not_found_line(depth as nat, name@),
{
    let mut line = spaces(2 * depth + 2);
    line.append(name);
    line.append(": warning: not found");
    line
}

/// Walks the image at `actual_path` in the snapshot `fs`, printing
/// `canonical_path` for it, and returns the tree's lines in print order
/// together with the grown visited set. The result is exactly
/// [`spec_walk`] of the arguments.
pub fn print_dylib_paths(
    fs: &FsModel,
    shared_cache_root: &str,
    actual_path: &str,
    canonical_path: &str,
    depth: usize,
    max_depth: usize,
    visited: &VisitedSet,
    ignore_prefixes: &Vec<String>,
    exclude_all_duplicates: bool,
) -> (r: Result<(Vec<String>, VisitedSet), WalkError>)
    requires
        2 * depth + 2 <= usize::MAX,
        2 * max_depth + 2 <= usize::MAX,
    ensures
        ({
            let s = spec_walk(
                *fs,
                shared_cache_root@,
                actual_path@,
                canonical_path@,
                depth as nat,
                max_depth as nat,
                visited@,
                ignore_prefixes.deep_view(),
                exclude_all_duplicates,
            );
            &&& (r is Ok <==> s is Ok)
            &&& (r is Ok ==> (r->Ok_0.0.deep_view() == s->Ok_0.lines && r->Ok_0.1@
                == s->Ok_0.visited))
            &&& (r is Err ==> r->Err_0@ == s->Err_0)
        }),
    decreases max_depth - depth, 1int, 0int,
{
    match fs.lookup(actual_path) {
        Option::None => {
            if fs.plain_contains(actual_path) {
                Err(WalkError::Undecodable(String::from_str(actual_path)))
            } else {
                Err(WalkError::Missing(String::from_str(actual_path)))
            }
        },
        Option::Some(img) => {
            let head = node_line(depth, canonical_path);
            let local = visited.duplicate();
            match walk_deps(
                fs,
                shared_cache_root,
                actual_path,
                canonical_path,
                depth,
                max_depth,
                local,
                ignore_prefixes,
                exclude_all_duplicates,
                img,
                0,
            ) {
                Err(e) => Err(e),
                Ok((rest, vis)) => {
                    let mut lines: Vec<String> = Vec::new();
                    lines.push(head);
                    let mut rest = rest;
                    let ghost rest_dv = rest.deep_view();
                    lines.append(&mut rest);
                    proof {
                        assert(lines.deep_view() =~= seq![
                            spec_node_line(depth as nat, canonical_path@),
                        ] + rest_dv);
                    }
                    Ok((lines, vis))
                },
            }
        },
    }
}

/// Expands the dependency references of `img` from position `i` on; the
/// result is exactly [`spec_walk_deps`] of the arguments.
fn walk_deps(
    fs: &FsModel,
    shared_cache_root: &str,
    actual_path: &str,
    canonical_path: &str,
    depth: usize,
    max_depth: usize,
    visited: VisitedSet,
    ignore_prefixes: &Vec<String>,
    exclude_all_duplicates: bool,
    img: &NativeImage,
    i: usize,
) -> (r: Result<(Vec<String>, VisitedSet), WalkError>)
    requires
        2 * depth + 2 <= usize::MAX,
        2 * max_depth + 2 <= usize::MAX,
        i <= img.libs@.len(),
    ensures
        ({
            let s = spec_walk_deps(
                *fs,
                shared_cache_root@,
                actual_path@,
                canonical_path@,
                depth as nat,
                max_depth as nat,
                visited@,
                ignore_prefixes.deep_view(),
                exclude_all_duplicates,
                *img,
                i as nat,
            );
            &&& (r is Ok <==> s is Ok)
            &&& (r is Ok ==> (r->Ok_0.0.deep_view() == s->Ok_0.lines && r->Ok_0.1@
                == s->Ok_0.visited))
            &&& (r is Err ==> r->Err_0@ == s->Err_0)
        }),
    decreases max_depth - depth, 0int, img.libs@.len() - i,
{
    if i >= img.libs.len() {
        let out: Vec<String> = Vec::new();
        proof {
            assert(out.deep_view() =~= Seq::<Seq<char>>::empty());
        }
        return Ok((out, visited));
    }
    let dep: &String = &img.libs[i];
    proof {
        assert(img.libs.deep_view()[i as int] == img.libs@[i as int]@);
    }
    if str_eq(dep.as_str(), "self") || str_eq(dep.as_str(), canonical_path) {
        return walk_deps(
            fs,
            shared_cache_root,
            actual_path,
            canonical_path,
            depth,
            max_depth,
            visited,
            ignore_prefixes,
            exclude_all_duplicates,
            img,
            i + 1,
        );
    }
    if depth + 1 > max_depth {
        return walk_deps(
            fs,
            shared_cache_root,
            actual_path,
            canonical_path,
            depth,
            max_depth,
            visited,
            ignore_prefixes,
            exclude_all_duplicates,
            img,
            i + 1,
        );
    }
    if should_ignore(dep.as_str(), ignore_prefixes) {
        return walk_deps(
            fs,
            shared_cache_root,
            actual_path,
            canonical_path,
            depth,
            max_depth,
            visited,
            ignore_prefixes,
            exclude_all_duplicates,
            img,
            i + 1,
        );
    }
    if visited.contains(dep.as_str()) {
        if exclude_all_duplicates {
            return walk_deps(
                fs,
                shared_cache_root,
                actual_path,
                canonical_path,
                depth,
                max_depth,
                visited,
                ignore_prefixes,
                exclude_all_duplicates,
                img,
                i + 1,
            );
        }
        let line = leaf_line(depth, dep.as_str());
        match walk_deps(
            fs,
            shared_cache_root,
            actual_path,
            canonical_path,
            depth,
            max_depth,
            visited,
            ignore_prefixes,
            exclude_all_duplicates,
            img,
            i + 1,
        ) {
            Err(e) => Err(e),
            Ok((rest, vis)) => {
                let mut lines: Vec<String> = Vec::new();
                lines.push(line);
                let mut rest = rest;
                let ghost rest_dv = rest.deep_view();
                lines.append(&mut rest);
                proof {
                    assert(lines.deep_view() =~= seq![
                        spec_leaf_line(depth as nat, img.libs.deep_view()[i as int]),
                    ] + rest_dv);
                }
                Ok((lines, vis))
            },
        }
    } else {
        let mut visited1 = visited;
        visited1.insert(dep.clone());
        let cands = get_potential_paths(shared_cache_root, actual_path, dep.as_str(), &img.rpaths);
        match first_existing(fs, &cands) {
            Option::None => {
                let line = not_found_line(depth, dep.as_str());
                match walk_deps(
                    fs,
                    shared_cache_root,
                    actual_path,
                    canonical_path,
                    depth,
                    max_depth,
                    visited1,
                    ignore_prefixes,
                    exclude_all_duplicates,
                    img,
                    i + 1,
                ) {
                    Err(e) => Err(e),
                    Ok((rest, vis)) => {
                        let mut lines: Vec<String> = Vec::new();
                        lines.push(line);
                        let mut rest = rest;
                        let ghost rest_dv = rest.deep_view();
                        lines.append(&mut rest);
                        proof {
                            assert(lines.deep_view() =~= seq![
                                spec_not_found_line(depth as nat, img.libs.deep_view()[i as int]),
                            ] + rest_dv);
                        }
                        Ok((lines, vis))
                    },
                }
            },
            Option::Some(hit) => {
                match print_dylib_paths(
                    fs,
                    shared_cache_root,
                    hit.as_str(),
                    dep.as_str(),
                    depth + 1,
                    max_depth,
                    &visited1,
                    ignore_prefixes,
                    exclude_all_duplicates,
                ) {
                    Err(e) => Err(e),
                    Ok((sub_lines, sub_vis)) => {
                        match walk_deps(
                            fs,
                            shared_cache_root,
                            actual_path,
                            canonical_path,
                            depth,
                            max_depth,
                            sub_vis,
                            ignore_prefixes,
                            exclude_all_duplicates,
                            img,
                            i + 1,
                        ) {
                            Err(e) => Err(e),
                            Ok((rest, vis)) => {
                                let mut lines = sub_lines;
                                let ghost sub_dv = lines.deep_view();
                                let mut rest = rest;
                                let ghost rest_dv = rest.deep_view();
                                lines.append(&mut rest);
                                proof {
                                    assert(lines.deep_view() =~= sub_dv + rest_dv);
                                }
                                Ok((lines, vis))
                            },
                        }
                    },
                }
            },
        }
    }
}

} // verus!
