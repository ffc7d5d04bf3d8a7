//! Conflict-safe file placement.
//!
//! Given a desired destination, the policy never overwrites differing
//! content: as long as the current candidate path is occupied by a file
//! whose digest differs from the source's, the candidate gains an
//! incrementing ` (n)` disambiguator before its extension. A candidate
//! occupied by byte-identical content ends the search instead: the source
//! is to be removed and the existing path returned, so no duplicate copy is
//! created.
//!
//! The filesystem itself stays outside this module: callers probe the disk,
//! feed the answers to [`Placement::step`], and perform the returned action.
//! Content comparison goes by SHA-256, computed here from file contents.

use sha2::Digest;
use vstd::prelude::*;

use crate::text::{dec_of, find_last, find_last_char, lemma_find_last, push_char, u64_to_string};

verus! {

// --------------------------------------------------------------------------
// Content hashing
// --------------------------------------------------------------------------

/// What SHA-256 returns for the given bytes.
pub uninterp spec fn sha256_of(bytes: Seq<u8>) -> Seq<u8>;

/// Relies on `sha2::Sha256` through `Digest::digest`: the SHA-256 digest of
/// the input, a pure function of the bytes alone, 32 bytes long.
#[verifier::external_body]
fn sha256(bytes: &[u8]) -> (r: Vec<u8>)
    ensures
        r@ == sha256_of(bytes@),
        r@.len() == 32,
{
    sha2::Sha256::digest(bytes).to_vec()
}

/// The character for the hex digit `d`.
pub open spec fn hex_digit(d: int) -> char {
    if d == 0 {
        '0'
    } else if d == 1 {
        '1'
    } else if d == 2 {
        '2'
    } else if d == 3 {
        '3'
    } else if d == 4 {
        '4'
    } else if d == 5 {
        '5'
    } else if d == 6 {
        '6'
    } else if d == 7 {
        '7'
    } else if d == 8 {
        '8'
    } else if d == 9 {
        '9'
    } else if d == 10 {
        'a'
    } else if d == 11 {
        'b'
    } else if d == 12 {
        'c'
    } else if d == 13 {
        'd'
    } else if d == 14 {
        'e'
    } else {
        'f'
    }
}

/// The lowercase hex encoding of `bytes`: two digits per byte, high nibble
/// first.
pub open spec fn hex_of(bytes: Seq<u8>) -> Seq<char>
    decreases bytes.len(),
{
    if bytes.len() == 0 {
        Seq::empty()
    } else {
        hex_of(bytes.drop_last()) + seq![
            hex_digit(bytes.last() as int / 16),
            hex_digit(bytes.last() as int % 16),
        ]
    }
}

/// Relies on `base16ct::lower::encode_string`: the lowercase hex encoding
/// of the bytes, two digits per byte, high nibble first. It panics on
/// inputs longer than half the address space, which the precondition rules
/// out.
#[verifier::external_body]
fn hex_lower(bytes: &[u8]) -> (r: String)
    requires
        bytes@.len() <= usize::MAX / 2,
    ensures
        r@ == hex_of(bytes@),
{
    base16ct::lower::encode_string(bytes)
}

/// The lowercase hex SHA-256 digest of the given file contents.
pub fn file_hash(data: &[u8]) -> (r: String)
    ensures
        r@ == hex_of(sha256_of(data@)),
{
    let digest = sha256(data);
    hex_lower(digest.as_slice())
}

/// Whether two files' contents carry the same SHA-256 digest, which is how
/// placement decides that they are the same file. Byte-identical contents
/// always compare equal.
pub fn are_files_equal(a: &[u8], b: &[u8]) -> (r: bool)
    ensures
        r == (sha256_of(a@) == sha256_of(b@)),
        a@ == b@ ==> r,
{
    let da = sha256(a);
    let db = sha256(b);
    let mut i: usize = 0;
    while i < 32
        invariant
            0 <= i <= 32,
            da@.len() == 32,
            db@.len() == 32,
            da@ == sha256_of(a@),
            db@ == sha256_of(b@),
            forall|j: int| 0 <= j < i ==> da@[j] == db@[j],
        decreases 32 - i,
    {
        if da[i] != db[i] {
            return false;
        }
        i = i + 1;
    }
    proof {
        assert(da@ =~= db@);
    }
    true
}

// --------------------------------------------------------------------------
// Candidate paths
// --------------------------------------------------------------------------

/// The `k`th candidate path: the desired destination itself for `k == 0`,
/// and `prefix (k).ext` for `k >= 1`.
pub open spec fn spec_candidate(prefix: Seq<char>, ext: Seq<char>, k: nat) -> Seq<char> {
    if k == 0 {
        prefix + seq!['.'] + ext
    } else {
        prefix + seq![' ', '('] + dec_of(k) + seq![')', '.'] + ext
    }
}

/// What a caller is to do with the source file once the search ends.
#[derive(Debug, Clone, Copy, PartialEq, Eq, Structural)]
pub enum PlacementAction {
    /// The candidate path is free: move the source there.
    MoveSource,
    /// The candidate holds identical content already: remove the source and
    /// keep the existing file.
    RemoveSource,
}

/// The state of one placement search: the destination split around its
/// extension, and how many differing-content collisions have been met.
pub struct Placement {
    prefix: String,
    ext: String,
    counter: u64,
}

impl Placement {
    /// The destination path up to (not including) the dot before its
    /// extension.
    pub closed spec fn spec_prefix(&self) -> Seq<char> {
        self.prefix@
    }

    /// The destination's extension, without its dot.
    pub closed spec fn spec_ext(&self) -> Seq<char> {
        self.ext@
    }

    /// How many differing-content collisions the search has met so far.
    pub closed spec fn spec_counter(&self) -> nat {
        self.counter as nat
    }

    /// A destination is usable when its file name has an extension: a `.`
    /// after the last `/`, and not as the name's first character.
    pub open spec fn valid_destination(dest: Seq<char>) -> bool {
        find_last(dest, '.') >= find_last(dest, '/') + 2
    }

    /// A search for a free spot at `dest`, starting at `dest` itself.
    pub fn new(dest: &str) -> (r: Self)
        requires
            Self::valid_destination(dest@),
        ensures
            r.spec_counter() == 0,
            spec_candidate(r.spec_prefix(), r.spec_ext(), 0) == dest@,
            r.spec_prefix() == dest@.subrange(0, find_last(dest@, '.') - 1),
            r.spec_ext() == dest@.subrange(find_last(dest@, '.'), dest@.len() as int),
    {
        proof {
            lemma_find_last(dest@, '.');
            lemma_find_last(dest@, '/');
        }
        let len = dest.unicode_len();
        let d = find_last_char(dest, '.');
        let prefix = dest.substring_char(0, d - 1).to_owned();
        let ext = dest.substring_char(d, len).to_owned();
        let r = Placement { prefix, ext, counter: 0 };
        proof {
            assert(spec_candidate(r.spec_prefix(), r.spec_ext(), 0) =~= dest@);
        }
        r
    }

    /// The path the search currently proposes.
    pub fn candidate(&self) -> (r: String)
        ensures
            r@ == spec_candidate(self.spec_prefix(), self.spec_ext(), self.spec_counter()),
    {
        let mut s = self.prefix.clone();
        if self.counter == 0 {
            push_char(&mut s, '.');
            s.append(self.ext.as_str());
            proof {
                assert(s@ =~= spec_candidate(self.spec_prefix(), self.spec_ext(), 0));
            }
            s
        } else {
            push_char(&mut s, ' ');
            push_char(&mut s, '(');
            let num = u64_to_string(self.counter);
            s.append(num.as_str());
            push_char(&mut s, ')');
            push_char(&mut s, '.');
            s.append(self.ext.as_str());
            proof {
                assert(s@ =~= spec_candidate(
                    self.spec_prefix(),
                    self.spec_ext(),
                    self.spec_counter(),
                ));
            }
            s
        }
    }

    /// One step of the search, told whether the current candidate exists on
    /// disk and, if so, whether its content equals the source's. A free
    /// candidate receives the file; identical content deduplicates instead
    /// of writing a copy; differing content advances to the next candidate,
    /// and the caller asks again. A file whose content could not be read is
    /// to be reported as differing, so the search fails safe toward a new
    /// name.
    pub fn step(&mut self, exists: bool, same_content: bool) -> (r: Option<PlacementAction>)
        requires
            old(self).spec_counter() < u64::MAX as nat,
        ensures
            final(self).spec_prefix() == old(self).spec_prefix(),
            final(self).spec_ext() == old(self).spec_ext(),
            !exists ==> r == Some(PlacementAction::MoveSource) && final(self).spec_counter()
                == old(self).spec_counter(),
            exists && same_content ==> r == Some(PlacementAction::RemoveSource)
                && final(self).spec_counter() == old(self).spec_counter(),
            exists && !same_content ==> r is None && final(self).spec_counter()
                == old(self).spec_counter() + 1,
    {
        if !exists {
            Some(PlacementAction::MoveSource)
        } else if same_content {
            Some(PlacementAction::RemoveSource)
        } else {
            self.counter = self.counter + 1;
            None
        }
    }
}

} // verus!
