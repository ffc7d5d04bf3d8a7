//! Concrete text transforms, and a wrapper that turns a plain function
//! into one.

use vstd::prelude::*;

use crate::template::Transform;
use crate::text::{lemma_filter_push, push_char, trim, trim_spec};

verus! {

/// What `str::to_uppercase` returns for a given sequence of characters.
pub uninterp spec fn upper_of(s: Seq<char>) -> Seq<char>;

/// What `str::to_lowercase` returns for a given sequence of characters.
pub uninterp spec fn lower_of(s: Seq<char>) -> Seq<char>;

/// Relies on `str::to_uppercase`: Unicode uppercasing, a pure function of
/// the characters alone.
#[verifier::external_body]
fn to_upper(s: &str) -> (r: String)
    ensures
        r@ == upper_of(s@),
{
    s.to_uppercase()
}

/// Relies on `str::to_lowercase`: Unicode lowercasing, a pure function of
/// the characters alone.
#[verifier::external_body]
fn to_lower(s: &str) -> (r: String)
    ensures
        r@ == lower_of(s@),
{
    s.to_lowercase()
}

/// The characters the path-safety transform strips: path separators and
/// other characters unsafe in file names.
pub open spec fn is_path_unsafe(c: char) -> bool {
    c == '/' || c == '\\' || c == ':' || c == ';' || c == '#'
}

/// The predicate kept by the path-safety transform.
pub open spec fn keep_path_safe() -> spec_fn(char) -> bool {
    |c: char| !is_path_unsafe(c)
}

/// `s` with every path-unsafe character removed.
pub open spec fn path_safe_spec(s: Seq<char>) -> Seq<char> {
    s.filter(keep_path_safe())
}

fn strip_path_unsafe(s: &str) -> (r: String)
    ensures
        r@ == path_safe_spec(s@),
{
    let len = s.unicode_len();
    let mut out = String::new();
    proof {
        reveal(Seq::filter);
        assert(s@.subrange(0, 0) =~= Seq::<char>::empty());
        assert(out@ =~= s@.subrange(0, 0).filter(keep_path_safe()));
    }
    let mut i: usize = 0;
    while i < len
        invariant
            0 <= i <= len,
            len == s@.len(),
            out@ == s@.subrange(0, i as int).filter(keep_path_safe()),
        decreases len - i,
    {
        let c = s.get_char(i);
        if !(c == '/' || c == '\\' || c == ':' || c == ';' || c == '#') {
            push_char(&mut out, c);
        }
        proof {
            assert(s@.subrange(0, i + 1) =~= s@.subrange(0, i as int).push(s@[i as int]));
            lemma_filter_push(s@.subrange(0, i as int), keep_path_safe(), s@[i as int]);
        }
        i = i + 1;
    }
    proof {
        assert(s@.subrange(0, len as int) =~= s@);
    }
    out
}

/// The transforms a caller typically registers: uppercasing, lowercasing,
/// stripping path-unsafe characters, and trimming surrounding whitespace.
#[derive(Debug, Clone, Copy, PartialEq, Eq, Structural)]
pub enum BasicTransform {
    Uppercase,
    Lowercase,
    PathSafe,
    Trim,
}

impl Transform for BasicTransform {
    open spec fn inv(&self) -> bool {
        true
    }

    open spec fn spec_transform(&self, s: Seq<char>) -> Seq<char> {
        match self {
            BasicTransform::Uppercase => upper_of(s),
            BasicTransform::Lowercase => lower_of(s),
            BasicTransform::PathSafe => path_safe_spec(s),
            BasicTransform::Trim => trim_spec(s),
        }
    }

    fn transform(&self, value: &str) -> (r: String) {
        match self {
            BasicTransform::Uppercase => to_upper(value),
            BasicTransform::Lowercase => to_lower(value),
            BasicTransform::PathSafe => strip_path_unsafe(value),
            BasicTransform::Trim => trim(value).to_owned(),
        }
    }
}

/// A transform built from a plain function together with the mathematical
/// function it computes.
pub struct FnTransform<F: Fn(&str) -> String> {
    transform: F,
    model: Ghost<spec_fn(Seq<char>) -> Seq<char>>,
}

impl<F: Fn(&str) -> String> Transform for FnTransform<F> {
    /// The wrapped function is callable on every input and agrees with the
    /// stated model.
    closed spec fn inv(&self) -> bool {
        &&& forall|s: &str| call_requires(self.transform, (s,))
        &&& forall|s: &str, r: String|
            call_ensures(self.transform, (s,), r) ==> r@ == (self.model@)(s@)
    }

    closed spec fn spec_transform(&self, s: Seq<char>) -> Seq<char> {
        (self.model@)(s)
    }

    fn transform(&self, value: &str) -> (r: String) {
        (self.transform)(value)
    }
}

/// Wrap a function as a transform. The ghost argument names the function's
/// mathematical behaviour, which the function must be known to meet.
pub fn transform<F: Fn(&str) -> String>(
    f: F,
    Ghost(model): Ghost<spec_fn(Seq<char>) -> Seq<char>>,
) -> (r: FnTransform<F>)
    requires
        forall|s: &str| call_requires(f, (s,)),
        forall|s: &str, r: String| call_ensures(f, (s,), r) ==> r@ == model(s@),
    ensures
        r.inv(),
        forall|s: Seq<char>| r.spec_transform(s) == model(s),
{
    FnTransform { transform: f, model: Ghost(model) }
}

} // verus!
