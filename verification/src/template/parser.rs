//! The template scanner: a lazy, restartable sequence of segments.
//!
//! A template is literal text interleaved with interpolations. An
//! interpolation is `{field}` or `{field|transform|...}`; a `{` that is
//! never closed, or an interpolation with an empty field name, is a fatal
//! parse error carrying the character offset of the `{` at fault.

use vstd::prelude::*;

use crate::errors::{ErrorKind, ParseError};
use crate::text::{find_char, find_from, lemma_find_from};

verus! {

/// One parsed unit of a template.
#[derive(Debug, PartialEq)]
pub enum Segment {
    /// A literal run of text, holding no `{`.
    Text(String),
    /// `{field}`: a plain field reference.
    Interpolation(String),
    /// `{field|t1|t2}`: a field reference with transform names, in the
    /// order they are to be applied.
    Transform(String, Vec<String>),
}

/// The mathematical shape of a segment.
pub enum SegView {
    Text(Seq<char>),
    Field(Seq<char>),
    Chain(Seq<char>, Seq<Seq<char>>),
}

impl View for Segment {
    type V = SegView;

    open spec fn view(&self) -> SegView {
        match self {
            Segment::Text(s) => SegView::Text(s@),
            Segment::Interpolation(f) => SegView::Field(f@),
            Segment::Transform(f, ts) => SegView::Chain(f@, ts.deep_view()),
        }
    }
}

// --------------------------------------------------------------------------
// The specification of parsing
// --------------------------------------------------------------------------

/// `s` split on `sep`: the runs between separators, in order. Always holds
/// at least one part; a separator at either end contributes an empty part.
pub open spec fn split_parts(s: Seq<char>, sep: char) -> Seq<Seq<char>>
    decreases s.len(),
    via split_parts_decreases
{
    let i = find_from(s, 0, sep);
    if i == s.len() {
        seq![s]
    } else {
        seq![s.subrange(0, i)] + split_parts(s.subrange(i + 1, s.len() as int), sep)
    }
}

#[via_fn]
proof fn split_parts_decreases(s: Seq<char>, sep: char) {
    lemma_find_from(s, 0, sep);
}

pub proof fn lemma_split_parts_len(s: Seq<char>, sep: char)
    ensures
        split_parts(s, sep).len() >= 1,
    decreases s.len(),
{
    lemma_find_from(s, 0, sep);
    let i = find_from(s, 0, sep);
    if i != s.len() {
        lemma_split_parts_len(s.subrange(i + 1, s.len() as int), sep);
    }
}

/// What one scanning step from position `p` yields: `None` at the end of the
/// template, or the next segment together with the position after it, or a
/// parse error.
pub open spec fn parse_step(t: Seq<char>, p: int) -> Option<Result<(SegView, int), ParseError>> {
    if p < 0 || p >= t.len() {
        None
    } else if t[p] == '{' {
        let close = find_from(t, p, '}');
        if close == t.len() {
            Some(Err(ParseError { offset: p as usize, kind: ErrorKind::UnterminatedInterpolation }))
        } else {
            let parts = split_parts(t.subrange(p + 1, close), '|');
            if parts[0].len() == 0 {
                Some(Err(ParseError { offset: p as usize, kind: ErrorKind::EmptyFieldName }))
            } else if parts.len() == 1 {
                Some(Ok((SegView::Field(parts[0]), close + 1)))
            } else {
                Some(
                    Ok(
                        (
                            SegView::Chain(parts[0], parts.subrange(1, parts.len() as int)),
                            close + 1,
                        ),
                    ),
                )
            }
        }
    } else {
        let end = find_from(t, p, '{');
        Some(Ok((SegView::Text(t.subrange(p, end)), end)))
    }
}

/// A successful step moves forward and stays within the template.
pub proof fn lemma_parse_step_progress(t: Seq<char>, p: int)
    requires
        0 <= p <= t.len(),
    ensures
        parse_step(t, p) matches Some(Ok(sp)) ==> p < sp.1 <= t.len(),
{
    if p < t.len() {
        lemma_find_from(t, p, '}');
        lemma_find_from(t, p, '{');
    }
}

/// The whole template parsed from position `p` on: the segments in order,
/// or the first parse error met.
pub open spec fn parse_from(t: Seq<char>, p: int) -> Result<Seq<SegView>, ParseError>
    decreases t.len() - p when 0 <= p <= t.len()
    via parse_from_decreases
{
    match parse_step(t, p) {
        None => Ok(seq![]),
        Some(Err(e)) => Err(e),
        Some(Ok((seg, p2))) => match parse_from(t, p2) {
            Ok(rest) => Ok(seq![seg] + rest),
            Err(e) => Err(e),
        },
    }
}

#[via_fn]
proof fn parse_from_decreases(t: Seq<char>, p: int) {
    lemma_parse_step_progress(t, p);
}

/// The parse of a whole template.
pub open spec fn parse_spec(t: Seq<char>) -> Result<Seq<SegView>, ParseError> {
    parse_from(t, 0)
}

// --------------------------------------------------------------------------
// The round trip: parsing loses nothing
// --------------------------------------------------------------------------

/// `ts` joined back together, each part preceded by `sep`.
pub open spec fn joined_tail(ts: Seq<Seq<char>>, sep: char) -> Seq<char>
    decreases ts.len(),
{
    if ts.len() == 0 {
        Seq::empty()
    } else {
        seq![sep] + ts[0] + joined_tail(ts.subrange(1, ts.len() as int), sep)
    }
}

/// The exact span of template text a segment was parsed from.
pub open spec fn seg_source(seg: SegView) -> Seq<char> {
    match seg {
        SegView::Text(s) => s,
        SegView::Field(f) => seq!['{'] + f + seq!['}'],
        SegView::Chain(f, ts) => seq!['{'] + f + joined_tail(ts, '|') + seq!['}'],
    }
}

/// The concatenated source spans of a sequence of segments.
pub open spec fn segs_source(segs: Seq<SegView>) -> Seq<char>
    decreases segs.len(),
{
    if segs.len() == 0 {
        Seq::empty()
    } else {
        seg_source(segs[0]) + segs_source(segs.subrange(1, segs.len() as int))
    }
}

/// Splitting, then joining with the same separator, recovers the input.
pub proof fn lemma_split_join(s: Seq<char>, sep: char)
    ensures
        ({
            let parts = split_parts(s, sep);
            parts[0] + joined_tail(parts.subrange(1, parts.len() as int), sep) == s
        }),
    decreases s.len(),
{
    lemma_find_from(s, 0, sep);
    let i = find_from(s, 0, sep);
    let parts = split_parts(s, sep);
    if i == s.len() {
        assert(parts.subrange(1, 1) =~= Seq::<Seq<char>>::empty());
        assert(parts[0] + joined_tail(parts.subrange(1, 1), sep) =~= s);
    } else {
        let s2 = s.subrange(i + 1, s.len() as int);
        let rest = split_parts(s2, sep);
        lemma_split_join(s2, sep);
        lemma_split_parts_len(s2, sep);
        assert(parts.subrange(1, parts.len() as int) =~= rest);
        assert(joined_tail(rest, sep) == seq![sep] + rest[0] + joined_tail(
            rest.subrange(1, rest.len() as int),
            sep,
        ));
        assert(seq![sep] + rest[0] + joined_tail(rest.subrange(1, rest.len() as int), sep) =~= seq![
            sep,
        ] + s2);
        assert(parts[0] + (seq![sep] + s2) =~= s);
    }
}

/// One successful step yields a segment whose source is exactly the span of
/// template it consumed.
pub proof fn lemma_step_source(t: Seq<char>, p: int)
    requires
        0 <= p <= t.len(),
    ensures
        parse_step(t, p) matches Some(Ok(sp)) ==> seg_source(sp.0) == t.subrange(p, sp.1),
{
    if p < t.len() {
        lemma_find_from(t, p, '}');
        lemma_find_from(t, p, '{');
        if t[p] == '{' {
            let close = find_from(t, p, '}');
            if close < t.len() {
                let inner = t.subrange(p + 1, close);
                let parts = split_parts(inner, '|');
                lemma_split_parts_len(inner, '|');
                lemma_split_join(inner, '|');
                if parts[0].len() > 0 {
                    if parts.len() == 1 {
                        assert(parts.subrange(1, 1) =~= Seq::<Seq<char>>::empty());
                        assert(parts[0] == inner);
                        assert(seq!['{'] + inner + seq!['}'] =~= t.subrange(p, close + 1));
                    } else {
                        let jt = joined_tail(parts.subrange(1, parts.len() as int), '|');
                        assert(parts[0] + jt == inner);
                        let lhs = seq!['{'] + parts[0] + jt + seq!['}'];
                        let rhs = t.subrange(p, close + 1);
                        assert(lhs.len() == rhs.len());
                        assert forall|k: int| 0 <= k < lhs.len() implies lhs[k] == rhs[k] by {
                            assert(rhs[k] == t[p + k]);
                            if 1 <= k && k <= inner.len() {
                                assert((parts[0] + jt)[k - 1] == inner[k - 1]);
                                assert(inner[k - 1] == t[p + k]);
                            }
                        }
                        assert(lhs =~= rhs);
                    }
                }
            }
        }
    }
}

/// **Parser round trip.** Concatenating the source spans of the segments a
/// successful parse yields — literal text as it stands, interpolations with
/// their braces and separators restored — recovers the template exactly.
pub proof fn lemma_parse_round_trip(t: Seq<char>)
    ensures
        parse_spec(t) matches Ok(segs) ==> segs_source(segs) == t,
{
    lemma_parse_source(t, 0);
    assert(t.subrange(0, t.len() as int) =~= t);
}

/// The parse from `p` on covers exactly the template text from `p` on.
pub proof fn lemma_parse_source(t: Seq<char>, p: int)
    requires
        0 <= p <= t.len(),
    ensures
        parse_from(t, p) matches Ok(segs) ==> segs_source(segs) == t.subrange(p, t.len() as int),
    decreases t.len() - p,
{
    lemma_parse_step_progress(t, p);
    lemma_step_source(t, p);
    match parse_step(t, p) {
        None => {
            if parse_from(t, p) is Ok {
                let segs = parse_from(t, p)->Ok_0;
                assert(segs_source(segs) =~= t.subrange(p, t.len() as int));
            }
        },
        Some(Err(e)) => {},
        Some(Ok(sp)) => {
            let (seg, p2) = sp;
            lemma_parse_source(t, p2);
            if parse_from(t, p2) is Ok {
                let rest = parse_from(t, p2)->Ok_0;
                let segs = seq![seg] + rest;
                assert(segs[0] == seg);
                assert(segs.subrange(1, segs.len() as int) =~= rest);
                assert(seg_source(seg) + segs_source(rest) =~= t.subrange(p, t.len() as int));
            }
        },
    }
}

// --------------------------------------------------------------------------
// The scanner
// --------------------------------------------------------------------------

/// A restartable scanner over a template string. Each call of [`Parser::next`]
/// yields the next segment; a fresh parser restarts the sequence from the
/// beginning.
pub struct Parser<'a> {
    template: &'a str,
    pos: usize,
}

impl<'a> Parser<'a> {
    /// The template being scanned.
    pub closed spec fn spec_template(&self) -> Seq<char> {
        self.template@
    }

    /// The current scan position, in characters.
    pub closed spec fn spec_pos(&self) -> int {
        self.pos as int
    }

    pub open spec fn wf(&self) -> bool {
        0 <= self.spec_pos() <= self.spec_template().len()
    }

    /// A scanner at the start of `template`.
    pub fn new(template: &'a str) -> (r: Self)
        ensures
            r.spec_template() == template@,
            r.spec_pos() == 0,
            r.wf(),
    {
        Parser { template, pos: 0 }
    }

    /// The next segment of the template, `None` at its end, or the parse
    /// error that ends the sequence. After an error the scanner yields
    /// nothing further.
    pub fn next(&mut self) -> (r: Option<Result<Segment, ParseError>>)
        requires
            old(self).wf(),
        ensures
            final(self).wf(),
            final(self).spec_template() == old(self).spec_template(),
            ({
                let t = old(self).spec_template();
                let p = old(self).spec_pos();
                match parse_step(t, p) {
                    None => r is None && final(self).spec_pos() == p,
                    Some(Err(e)) => r == Some(Result::<Segment, ParseError>::Err(e))
                        && final(self).spec_pos() == t.len(),
                    Some(Ok(sp)) => (r matches Some(Ok(seg)) && seg@ == sp.0)
                        && final(self).spec_pos() == sp.1,
                }
            }),
    {
        let t = self.template;
        let len = t.unicode_len();
        let start = self.pos;
        if start >= len {
            return None;
        }
        proof {
            lemma_find_from(t@, start as int, '}');
            lemma_find_from(t@, start as int, '{');
        }
        if t.get_char(start) == '{' {
            let close = find_char(t, start, '}');
            if close == len {
                self.pos = len;
                return Some(
                    Err(ParseError { offset: start, kind: ErrorKind::UnterminatedInterpolation }),
                );
            }
            let inner = t.substring_char(start + 1, close);
            let mut parts = split_string(inner, '|');
            proof {
                lemma_split_parts_len(inner@, '|');
            }
            let ghost whole_parts = parts.deep_view();
            let field = parts.remove(0);
            proof {
                assert forall|k: int| 0 <= k < parts@.len() implies parts.deep_view()[k]
                    == whole_parts.subrange(1, whole_parts.len() as int)[k] by {}
                assert(parts.deep_view() =~= whole_parts.subrange(1, whole_parts.len() as int));
            }
            if field.as_str().is_empty() {
                self.pos = len;
                return Some(Err(ParseError { offset: start, kind: ErrorKind::EmptyFieldName }));
            }
            self.pos = close + 1;
            if parts.len() == 0 {
                Some(Ok(Segment::Interpolation(field)))
            } else {
                Some(Ok(Segment::Transform(field, parts)))
            }
        } else {
            let end = find_char(t, start, '{');
            self.pos = end;
            let text = t.substring_char(start, end);
            Some(Ok(Segment::Text(text.to_owned())))
        }
    }
}

/// `s` split on `sep`, as a vector of owned parts.
pub fn split_string(s: &str, sep: char) -> (r: Vec<String>)
    ensures
        r.deep_view() == split_parts(s@, sep),
    decreases s@.len(),
{
    let len = s.unicode_len();
    proof {
        lemma_find_from(s@, 0, sep);
    }
    let i = find_char(s, 0, sep);
    if i == len {
        let mut v: Vec<String> = Vec::new();
        v.push(s.to_owned());
        proof {
            assert(v.deep_view() =~= split_parts(s@, sep));
        }
        v
    } else {
        let head = s.substring_char(0, i);
        let tail = s.substring_char(i + 1, len);
        let mut rest = split_string(tail, sep);
        let ghost old_rest = rest.deep_view();
        let ghost old_vec = rest@;
        rest.insert(0, head.to_owned());
        proof {
            assert forall|k: int| 0 <= k < rest@.len() implies rest.deep_view()[k] == (seq![
                s@.subrange(0, i as int),
            ] + old_rest)[k] by {
                if k > 0 {
                    assert(rest@[k] == old_vec[k - 1]);
                }
            }
            assert(rest.deep_view() =~= seq![s@.subrange(0, i as int)] + old_rest);
            assert(rest.deep_view() =~= split_parts(s@, sep));
        }
        rest
    }
}

} // verus!
