//! The bridge to the external capability that unpacks a packed system
//! library-cache image into a directory of individual files. The unpack
//! itself is platform-owned and runs outside this library; what is verified
//! here is everything decided around it: the candidate order, the stable
//! output-directory key derived from the cache image's identity, and the
//! memoization that makes a second extraction of the same image a no-op.

use vstd::prelude::*;

use crate::strutil::{join_path, spec_join_path, str_eq};

verus! {

/// One step of a 64-bit Fowler–Noll–Vo hash: fold one character's code point
/// into the accumulator.
pub open spec fn spec_key_hash_step(acc: u64, c: char) -> u64 {
    (((acc ^ (c as u64)) as nat * 0x100000001b3nat) % 0x10000000000000000nat) as u64
}

/// The 64-bit Fowler–Noll–Vo hash of a path's characters: the stable key
/// under which an extracted cache image is memoized on disk.
pub open spec fn spec_key_hash(s: Seq<char>) -> u64
    decreases s.len(),
{
    if s.len() == 0 {
        0xcbf29ce484222325u64
    } else {
        spec_key_hash_step(spec_key_hash(s.drop_last()), s.last())
    }
}

/// Computes the stable key hash of `s`.
pub fn key_hash(s: &str) -> (r: u64)
    ensures
        r == spec_key_hash(s@),
{
    let n = s.unicode_len();
    let mut acc: u64 = 0xcbf29ce484222325u64;
    let mut i: usize = 0;
    proof {
        assert(s@.take(0) =~= Seq::<char>::empty());
    }
    while i < n
        invariant
            i <= n,
            n == s@.len(),
            acc == spec_key_hash(s@.take(i as int)),
        decreases n - i,
    {
        let c = s.get_char(i);
        proof {
            assert(s@.take(i + 1 as int).drop_last() =~= s@.take(i as int));
            assert(s@.take(i + 1 as int).last() == s@[i as int]);
        }
        acc = (acc ^ (c as u64)).wrapping_mul(0x100000001b3u64);
        i += 1;
    }
    proof {
        assert(s@.take(n as int) =~= s@);
    }
    acc
}

/// The lowercase hexadecimal digit for a value below sixteen.
pub open spec fn spec_hex_digit(n: u64) -> char {
    if n == 0 {
        '0'
    } else if n == 1 {
        '1'
    } else if n == 2 {
        '2'
    } else if n == 3 {
        '3'
    } else if n == 4 {
        '4'
    } else if n == 5 {
        '5'
    } else if n == 6 {
        '6'
    } else if n == 7 {
        '7'
    } else if n == 8 {
        '8'
    } else if n == 9 {
        '9'
    } else if n == 10 {
        'a'
    } else if n == 11 {
        'b'
    } else if n == 12 {
        'c'
    } else if n == 13 {
        'd'
    } else if n == 14 {
        'e'
    } else {
        'f'
    }
}

/// A value rendered as minimal-width lowercase hexadecimal.
pub open spec fn spec_hex(v: u64) -> Seq<char>
    decreases v,
{
    if v < 16 {
        seq![spec_hex_digit(v)]
    } else {
        spec_hex(v / 16).push(spec_hex_digit(v % 16))
    }
}

fn hex_digit_str(n: u64) -> (r: &'static str)
    requires
        n < 16,
    ensures
        r@ == seq![spec_hex_digit(n)],
{
    proof {
        reveal_strlit("0");
        reveal_strlit("1");
        reveal_strlit("2");
        reveal_strlit("3");
        reveal_strlit("4");
        reveal_strlit("5");
        reveal_strlit("6");
        reveal_strlit("7");
        reveal_strlit("8");
        reveal_strlit("9");
        reveal_strlit("a");
        reveal_strlit("b");
        reveal_strlit("c");
        reveal_strlit("d");
        reveal_strlit("e");
        reveal_strlit("f");
    }
    let r: &'static str = if n == 0 {
        "0"
    } else if n == 1 {
        "1"
    } else if n == 2 {
        "2"
    } else if n == 3 {
        "3"
    } else if n == 4 {
        "4"
    } else if n == 5 {
        "5"
    } else if n == 6 {
        "6"
    } else if n == 7 {
        "7"
    } else if n == 8 {
        "8"
    } else if n == 9 {
        "9"
    } else if n == 10 {
        "a"
    } else if n == 11 {
        "b"
    } else if n == 12 {
        "c"
    } else if n == 13 {
        "d"
    } else if n == 14 {
        "e"
    } else {
        "f"
    };
    proof {
        assert(r@ =~= seq![spec_hex_digit(n)]);
    }
    r
}

/// Renders `v` as minimal-width lowercase hexadecimal.
pub fn hex_string(v: u64) -> (r: String)
    ensures
        r@ == spec_hex(v),
    decreases v,
{
    if v < 16 {
        String::from_str(hex_digit_str(v))
    } else {
        let mut front = hex_string(v / 16);
        front.append(hex_digit_str(v % 16));
        proof {
            assert(front@ =~= spec_hex(v));
        }
        front
    }
}

/// The directory one cache image extracts into: a fixed scratch root plus the
/// stable key of the image's path, so repeated runs on the same image reuse
/// the same extraction.
pub open spec fn spec_extraction_dir(cache_path: Seq<char>) -> Seq<char> {
    spec_join_path("/tmp/dylibtree"@, spec_hex(spec_key_hash(cache_path)))
}

/// Computes the output directory owed to one cache image path.
pub fn extraction_output_dir(cache_path: &str) -> (r: String)
    ensures
        r@ == spec_extraction_dir(cache_path@),
{
    let key = hex_string(key_hash(cache_path));
    join_path("/tmp/dylibtree", key.as_str())
}

/// What the bridge does for one cache image: reuse an extraction already on
/// record, or unpack once into the named directory.
pub enum ExtractStep {
    /// The directory already holds an extraction: reuse it, no unpack.
    Reuse(String),
    /// No extraction yet: unpack once into this directory.
    Unpack(String),
}

/// The memo of extractions already performed, mirroring the directories that
/// exist under the scratch root.
pub struct CacheExtractor {
    done: Vec<String>,
}

impl View for CacheExtractor {
    type V = Set<Seq<char>>;

    closed spec fn view(&self) -> Set<Seq<char>> {
        self.done.deep_view().to_set()
    }
}

impl CacheExtractor {
    /// A memo holding no extractions.
    pub fn new() -> (r: Self)
        ensures
            r@ == Set::<Seq<char>>::empty(),
    {
        let r = CacheExtractor { done: Vec::new() };
        proof {
            assert(r@ =~= Set::<Seq<char>>::empty());
        }
        r
    }

    /// Plans the extraction of one cache image: the output directory is the
    /// stable function of the image's path, and an unpack is owed exactly
    /// when that directory is not yet on record.
    pub fn plan_extraction(&self, cache_path: &str) -> (r: ExtractStep)
        ensures
            match r {
                ExtractStep::Reuse(d) => d@ == spec_extraction_dir(cache_path@) && self@.contains(
                    spec_extraction_dir(cache_path@),
                ),
                ExtractStep::Unpack(d) => d@ == spec_extraction_dir(cache_path@) && !self@.contains(
                    spec_extraction_dir(cache_path@),
                ),
            },
    {
        let dir = extraction_output_dir(cache_path);
        let mut i: usize = 0;
        while i < self.done.len()
            invariant
                i <= self.done.len(),
                dir@ == spec_extraction_dir(cache_path@),
                forall|j: int| 0 <= j < i ==> self.done.deep_view()[j] != dir@,
            decreases self.done.len() - i,
        {
            if str_eq(self.done[i].as_str(), dir.as_str()) {
                proof {
                    assert(self.done.deep_view()[i as int] == dir@);
                }
                return ExtractStep::Reuse(dir);
            }
            i += 1;
        }
        proof {
            assert(!self.done.deep_view().contains(dir@));
        }
        ExtractStep::Unpack(dir)
    }

    /// Records one completed extraction.
    pub fn record_extracted(&mut self, dir: String)
        ensures
            final(self)@ == old(self)@.insert(dir@),
    {
        let ghost old_dv = self.done.deep_view();
        self.done.push(dir);
        proof {
            assert(self.done.deep_view() =~= old_dv.push(self.done.deep_view().last()));
            assert forall|x: Seq<char>| self@.contains(x) implies old_dv.to_set().insert(
                self.done.deep_view().last(),
            ).contains(x) by {
                let i = choose|i: int|
                    0 <= i < self.done.deep_view().len() && self.done.deep_view()[i] == x;
                if i < old_dv.len() {
                    assert(old_dv[i] == x);
                }
            }
            assert forall|x: Seq<char>| old_dv.to_set().insert(
                self.done.deep_view().last(),
            ).contains(x) implies self@.contains(x) by {
                if x == self.done.deep_view().last() {
                    assert(self.done.deep_view()[old_dv.len() as int] == x);
                } else {
                    let i = choose|i: int| 0 <= i < old_dv.len() && old_dv[i] == x;
                    assert(self.done.deep_view()[i] == x);
                }
            }
            assert(self@ =~= old(self)@.insert(dir@));
        }
    }
}

/// Extracting the same cache image twice is idempotent: the planned output
/// directory is a function of the image's path alone, and once the first
/// extraction is recorded, the record contains that directory, so the second
/// plan reuses it without another unpack.
pub proof fn lemma_extraction_memoized(memo: Set<Seq<char>>, cache_path: Seq<char>)
    ensures
        memo.insert(spec_extraction_dir(cache_path)).contains(spec_extraction_dir(cache_path)),
{
}

/// The ordered cache-image candidates the bridge probes: an explicitly given
/// path first, then the well-known system locations.
pub fn cache_image_candidates(explicit: &Option<String>, well_known: Vec<String>) -> (r: Vec<
    String,
>)
    ensures
        match explicit {
            Option::Some(p) => r.deep_view() == seq![p@] + well_known.deep_view(),
            Option::None => r.deep_view() == well_known.deep_view(),
        },
{
    match explicit {
        Option::None => well_known,
        Option::Some(p) => {
            let mut v: Vec<String> = Vec::new();
            v.push(p.clone());
            let mut rest = well_known;
            let ghost rest_dv = rest.deep_view();
            v.append(&mut rest);
            proof {
                assert(v.deep_view() =~= seq![p@] + rest_dv);
            }
            v
        },
    }
}

} // verus!
