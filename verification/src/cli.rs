//! The options the tool runs with, and the verified parser that reads them
//! from the command line's tokens. The grammar: one required positional
//! binary path; boolean switches `-e`/`--exclude-all-duplicates`,
//! `-i`/`--include-system-dependencies` and `--verbose`; the repeatable
//! valued option `-p`/`--ignore-prefixes`; valued options
//! `-s`/`--shared-cache-path`, `-r`/`--runtime-root` and `-d`/`--depth`
//! (last occurrence wins, depth defaults to 9999); any other token starting
//! with `-` is an unknown flag, and a second positional is rejected.

use vstd::prelude::*;

use crate::strutil::str_eq;

verus! {

/// The options value the traversal core consumes.
pub struct Args {
    /// Path of the binary to print the dependency tree for.
    pub binary: String,
    /// Suppress every line for an already-visited reference, not only its
    /// subtree.
    pub exclude_all_duplicates: bool,
    /// Resolve into a platform runtime root at all.
    pub include_system_dependencies: bool,
    /// Raw-reference prefixes to skip entirely.
    pub ignore_prefixes: Vec<String>,
    /// An explicit cache image to extract, instead of discovery.
    pub shared_cache_path: Option<String>,
    /// An explicit runtime root, winning over everything else.
    pub runtime_root: Option<String>,
    /// The maximum depth of libraries to print.
    pub depth: usize,
    /// Verbose diagnostics for the tool itself.
    pub verbose: bool,
}

/// The ghost mirror of [`Args`].
pub struct ArgsV {
    pub binary: Seq<char>,
    pub exclude_all_duplicates: bool,
    pub include_system_dependencies: bool,
    pub ignore_prefixes: Seq<Seq<char>>,
    pub shared_cache_path: Option<Seq<char>>,
    pub runtime_root: Option<Seq<char>>,
    pub depth: nat,
    pub verbose: bool,
}

impl View for Args {
    type V = ArgsV;

    open spec fn view(&self) -> ArgsV {
        ArgsV {
            binary: self.binary@,
            exclude_all_duplicates: self.exclude_all_duplicates,
            include_system_dependencies: self.include_system_dependencies,
            ignore_prefixes: self.ignore_prefixes.deep_view(),
            shared_cache_path: self.shared_cache_path.deep_view(),
            runtime_root: self.runtime_root.deep_view(),
            depth: self.depth as nat,
            verbose: self.verbose,
        }
    }
}

/// Why a command line was rejected.
pub enum CliError {
    /// A token starting with `-` that names no known option.
    UnknownFlag(String),
    /// A valued option at the end of the line, with nothing following it.
    MissingValue(String),
    /// A depth value that is not a plain decimal number fitting the machine.
    InvalidDepth(String),
    /// No positional binary path was given.
    MissingBinary,
    /// A second positional argument.
    UnexpectedArgument(String),
}

/// The ghost mirror of [`CliError`].
pub enum CliErrV {
    UnknownFlag(Seq<char>),
    MissingValue(Seq<char>),
    InvalidDepth(Seq<char>),
    MissingBinary,
    UnexpectedArgument(Seq<char>),
}

impl View for CliError {
    type V = CliErrV;

    open spec fn view(&self) -> CliErrV {
        match self {
            CliError::UnknownFlag(t) => CliErrV::UnknownFlag(t@),
            CliError::MissingValue(t) => CliErrV::MissingValue(t@),
            CliError::InvalidDepth(t) => CliErrV::InvalidDepth(t@),
            CliError::MissingBinary => CliErrV::MissingBinary,
            CliError::UnexpectedArgument(t) => CliErrV::UnexpectedArgument(t@),
        }
    }
}

/// The value of one decimal digit.
pub open spec fn spec_digit(c: char) -> Option<int> {
    if 48 <= (c as u32) && (c as u32) <= 57 {
        Option::Some((c as u32) as int - 48)
    } else {
        Option::None
    }
}

/// The value of a non-empty all-digit sequence; anything else has none.
pub open spec fn spec_digits_value(s: Seq<char>) -> Option<int>
    decreases s.len(),
{
    if s.len() == 0 {
        Option::None
    } else if s.len() == 1 {
        spec_digit(s.last())
    } else {
        match (spec_digits_value(s.drop_last()), spec_digit(s.last())) {
            (Option::Some(v), Option::Some(d)) => Option::Some(10 * v + d),
            _ => Option::None,
        }
    }
}

proof fn lemma_digits_nonneg(s: Seq<char>)
    requires
        spec_digits_value(s) is Some,
    ensures
        spec_digits_value(s)->Some_0 >= 0,
    decreases s.len(),
{
    if s.len() > 1 {
        lemma_digits_nonneg(s.drop_last());
    }
}

proof fn lemma_digits_prefix_bound(s: Seq<char>, j: int)
    requires
        1 <= j <= s.len(),
        spec_digits_value(s) is Some,
    ensures
        spec_digits_value(s.take(j)) is Some,
        spec_digits_value(s.take(j))->Some_0 <= spec_digits_value(s)->Some_0,
    decreases s.len() - j,
{
    if j == s.len() {
        assert(s.take(j) =~= s);
    } else {
        lemma_digits_prefix_bound(s, j + 1);
        let t = s.take(j + 1);
        assert(t.drop_last() =~= s.take(j));
        assert(t.len() == j + 1);
        if j + 1 == 1 {
            assert(spec_digits_value(s.take(j)) is None ==> spec_digits_value(t) is None);
            assert(s.take(j).len() == 0);
            assert(spec_digits_value(t) is Some);
            assert(false);
        } else {
            assert(spec_digits_value(t) == (match (spec_digits_value(s.take(j)), spec_digit(
                t.last(),
            )) {
                (Option::Some(v), Option::Some(d)) => Option::<int>::Some(10 * v + d),
                _ => Option::<int>::None,
            }));
            lemma_digits_nonneg(s.take(j));
        }
    }
}

proof fn lemma_digits_nondigit(s: Seq<char>, j: int)
    requires
        0 <= j < s.len(),
        spec_digit(s[j]) is None,
    ensures
        spec_digits_value(s) is None,
    decreases s.len(),
{
    if s.len() > 0 {
        if j == s.len() - 1 {
        } else {
            assert(s.drop_last()[j] == s[j]);
            lemma_digits_nondigit(s.drop_last(), j);
        }
    }
}

/// Reads a plain decimal number, refusing anything else and anything that
/// does not fit the machine's word.
pub fn parse_usize_digits(s: &str) -> (r: Option<usize>)
    ensures
        match spec_digits_value(s@) {
            Option::Some(v) => if v <= usize::MAX {
                r == Option::Some(v as usize)
            } else {
                r is None
            },
            Option::None => r is None,
        },
{
    let n = s.unicode_len();
    if n == 0 {
        return None;
    }
    let mut acc: usize = 0;
    let mut j: usize = 0;
    while j < n
        invariant
            j <= n,
            n == s@.len(),
            n > 0,
            j > 0 ==> spec_digits_value(s@.take(j as int)) == Option::Some(acc as int),
            j == 0 ==> acc == 0,
        decreases n - j,
    {
        let c = s.get_char(j);
        let u = c as u32;
        proof {
            assert(s@.take(j + 1 as int).drop_last() =~= s@.take(j as int));
            assert(s@.take(j + 1 as int).last() == s@[j as int]);
        }
        if u < 48 || u > 57 {
            proof {
                lemma_digits_nondigit(s@, j as int);
            }
            return None;
        }
        let d = (u - 48) as usize;
        let acc10 = match acc.checked_mul(10) {
            Option::Some(x) => x,
            Option::None => {
                proof {
                    if spec_digits_value(s@) is Some && spec_digits_value(s@)->Some_0
                        <= usize::MAX {
                        lemma_digits_prefix_bound(s@, j + 1 as int);
                        lemma_digits_nonneg(s@.take(j as int));
                    }
                }
                return None;
            },
        };
        let next = match acc10.checked_add(d) {
            Option::Some(x) => x,
            Option::None => {
                proof {
                    if spec_digits_value(s@) is Some && spec_digits_value(s@)->Some_0
                        <= usize::MAX {
                        lemma_digits_prefix_bound(s@, j + 1 as int);
                        lemma_digits_nonneg(s@.take(j as int));
                    }
                }
                return None;
            },
        };
        acc = next;
        j += 1;
    }
    proof {
        assert(s@.take(n as int) =~= s@);
    }
    Some(acc)
}

/// The parser's state while reading tokens: [`ArgsV`] with the positional
/// still optional.
pub struct AccV {
    pub binary: Option<Seq<char>>,
    pub exclude_all_duplicates: bool,
    pub include_system_dependencies: bool,
    pub ignore_prefixes: Seq<Seq<char>>,
    pub shared_cache_path: Option<Seq<char>>,
    pub runtime_root: Option<Seq<char>>,
    pub depth: nat,
    pub verbose: bool,
}

/// Every option at its default, before any token is read.
pub open spec fn spec_initial_acc() -> AccV {
    AccV {
        binary: Option::None,
        exclude_all_duplicates: false,
        include_system_dependencies: false,
        ignore_prefixes: Seq::empty(),
        shared_cache_path: Option::None,
        runtime_root: Option::None,
        depth: 9999nat,
        verbose: false,
    }
}

/// Reads the tokens left to right into the accumulated options.
pub open spec fn spec_parse_tokens(toks: Seq<Seq<char>>, acc: AccV) -> Result<AccV, CliErrV>
    decreases toks.len(),
{
    if toks.len() == 0 {
        Result::Ok(acc)
    } else {
        let t = toks[0];
        let rest = toks.drop_first();
        if t == "-e"@ || t == "--exclude-all-duplicates"@ {
            spec_parse_tokens(rest, AccV { exclude_all_duplicates: true, ..acc })
        } else if t == "-i"@ || t == "--include-system-dependencies"@ {
            spec_parse_tokens(rest, AccV { include_system_dependencies: true, ..acc })
        } else if t == "--verbose"@ {
            spec_parse_tokens(rest, AccV { verbose: true, ..acc })
        } else if t == "-p"@ || t == "--ignore-prefixes"@ {
            if rest.len() == 0 {
                Result::Err(CliErrV::MissingValue(t))
            } else {
                spec_parse_tokens(
                    rest.drop_first(),
                    AccV { ignore_prefixes: acc.ignore_prefixes.push(rest[0]), ..acc },
                )
            }
        } else if t == "-s"@ || t == "--shared-cache-path"@ {
            if rest.len() == 0 {
                Result::Err(CliErrV::MissingValue(t))
            } else {
                spec_parse_tokens(
                    rest.drop_first(),
                    AccV { shared_cache_path: Option::Some(rest[0]), ..acc },
                )
            }
        } else if t == "-r"@ || t == "--runtime-root"@ {
            if rest.len() == 0 {
                Result::Err(CliErrV::MissingValue(t))
            } else {
                spec_parse_tokens(
                    rest.drop_first(),
                    AccV { runtime_root: Option::Some(rest[0]), ..acc },
                )
            }
        } else if t == "-d"@ || t == "--depth"@ {
            if rest.len() == 0 {
                Result::Err(CliErrV::MissingValue(t))
            } else {
                match spec_digits_value(rest[0]) {
                    Option::Some(v) => if v <= usize::MAX {
                        spec_parse_tokens(rest.drop_first(), AccV { depth: v as nat, ..acc })
                    } else {
                        Result::Err(CliErrV::InvalidDepth(rest[0]))
                    },
                    Option::None => Result::Err(CliErrV::InvalidDepth(rest[0])),
                }
            }
        } else if t.len() >= 2 && t[0] == '-' {
            Result::Err(CliErrV::UnknownFlag(t))
        } else if acc.binary is None {
            spec_parse_tokens(rest, AccV { binary: Option::Some(t), ..acc })
        } else {
            Result::Err(CliErrV::UnexpectedArgument(t))
        }
    }
}

/// The options a whole command line denotes: its tokens read in order, with
/// the positional binary path required at the end.
pub open spec fn spec_parse_args(toks: Seq<Seq<char>>) -> Result<ArgsV, CliErrV> {
    match spec_parse_tokens(toks, spec_initial_acc()) {
        Result::Err(e) => Result::Err(e),
        Result::Ok(acc) => match acc.binary {
            Option::None => Result::Err(CliErrV::MissingBinary),
            Option::Some(b) => Result::Ok(
                ArgsV {
                    binary: b,
                    exclude_all_duplicates: acc.exclude_all_duplicates,
                    include_system_dependencies: acc.include_system_dependencies,
                    ignore_prefixes: acc.ignore_prefixes,
                    shared_cache_path: acc.shared_cache_path,
                    runtime_root: acc.runtime_root,
                    depth: acc.depth,
                    verbose: acc.verbose,
                },
            ),
        },
    }
}

/// Parses the command line's tokens, the program name removed. The result is
/// exactly [`spec_parse_args`] of the tokens.
pub fn parse_args(args: Vec<String>) -> (r: Result<Args, CliError>)
    ensures
        ({
            let s = spec_parse_args(args.deep_view());
            &&& (r is Ok <==> s is Ok)
            &&& (r is Ok ==> r->Ok_0@ == s->Ok_0)
            &&& (r is Err ==> r->Err_0@ == s->Err_0)
        }),
{
    let ghost dv = args.deep_view();
    let mut binary: Option<String> = None;
    let mut exclude_all_duplicates: bool = false;
    let mut include_system_dependencies: bool = false;
    let mut ignore_prefixes: Vec<String> = Vec::new();
    let mut shared_cache_path: Option<String> = None;
    let mut runtime_root: Option<String> = None;
    let mut depth: usize = 9999;
    let mut verbose: bool = false;
    let mut i: usize = 0;
    proof {
        assert(dv.skip(0) =~= dv);
        assert(ignore_prefixes.deep_view() =~= Seq::<Seq<char>>::empty());
    }
    while i < args.len()
        invariant
            i <= args.len(),
            dv == args.deep_view(),
            dv.len() == args.len(),
            spec_parse_tokens(dv, spec_initial_acc()) == spec_parse_tokens(
                dv.skip(i as int),
                AccV {
                    binary: binary.deep_view(),
                    exclude_all_duplicates,
                    include_system_dependencies,
                    ignore_prefixes: ignore_prefixes.deep_view(),
                    shared_cache_path: shared_cache_path.deep_view(),
                    runtime_root: runtime_root.deep_view(),
                    depth: depth as nat,
                    verbose,
                },
            ),
        decreases args.len() - i,
    {
        let ghost acc = AccV {
            binary: binary.deep_view(),
            exclude_all_duplicates,
            include_system_dependencies,
            ignore_prefixes: ignore_prefixes.deep_view(),
            shared_cache_path: shared_cache_path.deep_view(),
            runtime_root: runtime_root.deep_view(),
            depth: depth as nat,
            verbose,
        };
        let t: &String = &args[i];
        proof {
            assert(dv[i as int] == args@[i as int]@);
            assert(dv.skip(i as int)[0] == dv[i as int]);
            assert(dv.skip(i as int).drop_first() =~= dv.skip(i + 1 as int));
        }
        if str_eq(t.as_str(), "-e") || str_eq(t.as_str(), "--exclude-all-duplicates") {
            exclude_all_duplicates = true;
            i += 1;
        } else if str_eq(t.as_str(), "-i") || str_eq(t.as_str(), "--include-system-dependencies") {
            include_system_dependencies = true;
            i += 1;
        } else if str_eq(t.as_str(), "--verbose") {
            verbose = true;
            i += 1;
        } else if str_eq(t.as_str(), "-p") || str_eq(t.as_str(), "--ignore-prefixes") {
            if i + 1 >= args.len() {
                return Err(CliError::MissingValue(t.clone()));
            }
            let v: &String = &args[i + 1];
            let ghost old_prefixes = ignore_prefixes.deep_view();
            proof {
                assert(dv[i + 1 as int] == args@[i + 1 as int]@);
                assert(dv.skip(i + 1 as int)[0] == dv[i + 1 as int]);
                assert(dv.skip(i + 1 as int).drop_first() =~= dv.skip(i + 2 as int));
            }
            ignore_prefixes.push(v.clone());
            proof {
                assert(ignore_prefixes.deep_view() =~= old_prefixes.push(v@));
            }
            i += 2;
        } else if str_eq(t.as_str(), "-s") || str_eq(t.as_str(), "--shared-cache-path") {
            if i + 1 >= args.len() {
                return Err(CliError::MissingValue(t.clone()));
            }
            let v: &String = &args[i + 1];
            proof {
                assert(dv[i + 1 as int] == args@[i + 1 as int]@);
                assert(dv.skip(i + 1 as int)[0] == dv[i + 1 as int]);
                assert(dv.skip(i + 1 as int).drop_first() =~= dv.skip(i + 2 as int));
            }
            shared_cache_path = Some(v.clone());
            i += 2;
        } else if str_eq(t.as_str(), "-r") || str_eq(t.as_str(), "--runtime-root") {
            if i + 1 >= args.len() {
                return Err(CliError::MissingValue(t.clone()));
            }
            let v: &String = &args[i + 1];
            proof {
                assert(dv[i + 1 as int] == args@[i + 1 as int]@);
                assert(dv.skip(i + 1 as int)[0] == dv[i + 1 as int]);
                assert(dv.skip(i + 1 as int).drop_first() =~= dv.skip(i + 2 as int));
            }
            runtime_root = Some(v.clone());
            i += 2;
        } else if str_eq(t.as_str(), "-d") || str_eq(t.as_str(), "--depth") {
            if i + 1 >= args.len() {
                return Err(CliError::MissingValue(t.clone()));
            }
            let v: &String = &args[i + 1];
            proof {
                assert(dv[i + 1 as int] == args@[i + 1 as int]@);
                assert(dv.skip(i + 1 as int)[0] == dv[i + 1 as int]);
                assert(dv.skip(i + 1 as int).drop_first() =~= dv.skip(i + 2 as int));
            }
            match parse_usize_digits(v.as_str()) {
                Option::Some(d) => {
                    proof {
                        lemma_digits_nonneg(v@);
                    }
                    depth = d;
                    i += 2;
                },
                Option::None => {
                    return Err(CliError::InvalidDepth(v.clone()));
                },
            }
        } else if t.as_str().unicode_len() >= 2 && t.as_str().get_char(0) == '-' {
            return Err(CliError::UnknownFlag(t.clone()));
        } else {
            match binary {
                Option::None => {
                    binary = Some(t.clone());
                    i += 1;
                },
                Option::Some(_) => {
                    return Err(CliError::UnexpectedArgument(t.clone()));
                },
            }
        }
    }
    proof {
        assert(dv.skip(dv.len() as int) =~= Seq::<Seq<char>>::empty());
    }
    match binary {
        Option::None => Err(CliError::MissingBinary),
        Option::Some(b) => Ok(
            Args {
                binary: b,
                exclude_all_duplicates,
                include_system_dependencies,
                ignore_prefixes,
                shared_cache_path,
                runtime_root,
                depth,
                verbose,
            },
        ),
    }
}

} // verus!
