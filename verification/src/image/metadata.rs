//! The metadata record of one image, and its field lookup.
//!
//! A `Metadata` value is filled in by whatever decoded the image file; the
//! renderer then reads it through the [`DataSource`] capability. Key names
//! and the derived date fields follow the record's EXIF-style date/time,
//! `YYYY:MM:DD HH:MM:SS`.

use vstd::prelude::*;

use crate::errors::Error;
use crate::template::value::Value;
use crate::template::DataSource;
use crate::text::{
    digits_val, find_last, find_last_char, is_digit, is_digit_char, lemma_digits_val_prefix_le,
    lemma_filter_push, push_char, str_eq, trim, trim_spec, u64_to_string, dec_of,
    lemma_digits_val_nonneg,
};

verus! {

// --------------------------------------------------------------------------
// Path helpers
// --------------------------------------------------------------------------

/// The file name of a path: everything after the last `/`.
pub open spec fn file_name_of(p: Seq<char>) -> Seq<char> {
    p.subrange(find_last(p, '/'), p.len() as int)
}

/// The stem of a file name: the part before its last `.`, except that a
/// name with no dot, or only a leading one, is its own stem.
pub open spec fn stem_of(name: Seq<char>) -> Seq<char> {
    let d = find_last(name, '.');
    if d <= 1 {
        name
    } else {
        name.subrange(0, d - 1)
    }
}

/// A name's stem is empty exactly when the name itself is.
pub proof fn lemma_stem_empty(name: Seq<char>)
    ensures
        (stem_of(name).len() == 0) <==> (name.len() == 0),
{
    crate::text::lemma_find_last(name, '.');
}

/// The stem of the file named by `path`, as a slice of it.
fn file_stem(path: &str) -> (r: &str)
    ensures
        r@ == stem_of(file_name_of(path@)),
{
    proof {
        crate::text::lemma_find_last(path@, '/');
    }
    let len = path.unicode_len();
    let s = find_last_char(path, '/');
    let name = path.substring_char(s, len);
    proof {
        crate::text::lemma_find_last(name@, '.');
    }
    let d = find_last_char(name, '.');
    if d <= 1 {
        name
    } else {
        name.substring_char(0, d - 1)
    }
}

// --------------------------------------------------------------------------
// The trailing image number of a file name
// --------------------------------------------------------------------------

/// The first index of the run of digits that ends `s`; `s.len()` when `s`
/// does not end in a digit.
pub open spec fn digits_start(s: Seq<char>) -> int
    decreases s.len(),
{
    if s.len() == 0 {
        0
    } else if !is_digit_char(s.last()) {
        s.len() as int
    } else {
        digits_start(s.drop_last())
    }
}

pub proof fn lemma_digits_start(s: Seq<char>)
    ensures
        0 <= digits_start(s) <= s.len(),
        forall|j: int| digits_start(s) <= j < s.len() ==> is_digit_char(#[trigger] s[j]),
        digits_start(s) > 0 ==> !is_digit_char(s[digits_start(s) - 1]),
    decreases s.len(),
{
    if s.len() > 0 && is_digit_char(s.last()) {
        lemma_digits_start(s.drop_last());
        assert forall|j: int| digits_start(s) <= j < s.len() implies is_digit_char(
            #[trigger] s[j],
        ) by {
            if j < s.len() - 1 {
                assert(s.drop_last()[j] == s[j]);
            }
        }
        if digits_start(s) > 0 {
            assert(s.drop_last()[digits_start(s) - 1] == s[digits_start(s) - 1]);
        }
    }
}

/// The number carried by the digits that end the stem of `path`'s file
/// name: `None` when there are none, or when their value exceeds `u32`.
pub open spec fn spec_image_number(path: Seq<char>) -> Option<u32> {
    let name = file_name_of(path);
    if name.len() == 0 {
        None
    } else {
        let st = stem_of(name);
        let digs = st.subrange(digits_start(st), st.len() as int);
        if digs.len() == 0 {
            None
        } else if digits_val(digs) > u32::MAX as int {
            None
        } else {
            Some(digits_val(digs) as u32)
        }
    }
}

// --------------------------------------------------------------------------
// Text cleanup for free-form metadata fields
// --------------------------------------------------------------------------

/// What `deunicode` returns for a given sequence of characters when
/// unmapped characters are replaced by nothing.
pub uninterp spec fn ascii_of(s: Seq<char>) -> Seq<char>;

/// Relies on `deunicode::deunicode_with_tofu` with an empty placeholder:
/// an ASCII transliteration that depends on the characters alone, dropping
/// characters that have no mapping.
#[verifier::external_body]
fn ascii_fold(s: &str) -> (r: String)
    ensures
        r@ == ascii_of(s@),
{
    deunicode::deunicode_with_tofu(s, "")
}

/// The predicate keeping everything but the NUL character.
pub open spec fn keep_non_nul() -> spec_fn(char) -> bool {
    |c: char| c != '\0'
}

/// A free-form metadata field made safe for file names: trimmed,
/// transliterated to ASCII, and stripped of NUL characters.
pub open spec fn cleanup_spec(s: Seq<char>) -> Seq<char> {
    ascii_of(trim_spec(s)).filter(keep_non_nul())
}

/// Clean one free-form metadata field.
pub fn cleanup_string(s: &str) -> (r: String)
    ensures
        r@ == cleanup_spec(s@),
{
    let t = trim(s);
    let a = ascii_fold(t);
    let av = a.as_str();
    let len = av.unicode_len();
    let mut out = String::new();
    proof {
        reveal(Seq::filter);
        assert(av@.subrange(0, 0) =~= Seq::<char>::empty());
        assert(out@ =~= av@.subrange(0, 0).filter(keep_non_nul()));
    }
    let mut i: usize = 0;
    while i < len
        invariant
            0 <= i <= len,
            len == av@.len(),
            out@ == av@.subrange(0, i as int).filter(keep_non_nul()),
        decreases len - i,
    {
        let c = av.get_char(i);
        if c != '\0' {
            push_char(&mut out, c);
        }
        proof {
            assert(av@.subrange(0, i + 1) =~= av@.subrange(0, i as int).push(av@[i as int]));
            lemma_filter_push(av@.subrange(0, i as int), keep_non_nul(), av@[i as int]);
        }
        i = i + 1;
    }
    proof {
        assert(av@.subrange(0, len as int) =~= av@);
    }
    out
}

// --------------------------------------------------------------------------
// Date/time reshaping
// --------------------------------------------------------------------------

/// The map sending a space to `T` and keeping everything else.
pub open spec fn space_to_t() -> spec_fn(char) -> char {
    |c: char| if c == ' ' { 'T' } else { c }
}

/// The map sending a colon to a dash and keeping everything else.
pub open spec fn colon_to_dash() -> spec_fn(char) -> char {
    |c: char| if c == ':' { '-' } else { c }
}

/// The predicate keeping everything but a colon.
pub open spec fn keep_non_colon() -> spec_fn(char) -> bool {
    |c: char| c != ':'
}

/// An EXIF date/time compacted for file names: colons removed and the
/// space between date and time replaced by `T`.
pub open spec fn compact_spec(s: Seq<char>) -> Seq<char> {
    s.map_values(space_to_t()).filter(keep_non_colon())
}

fn compact_datetime(s: &str) -> (r: String)
    ensures
        r@ == compact_spec(s@),
{
    let len = s.unicode_len();
    let mut out = String::new();
    proof {
        reveal(Seq::filter);
        assert(s@.subrange(0, 0).map_values(space_to_t()) =~= Seq::<char>::empty());
        assert(out@ =~= s@.subrange(0, 0).map_values(space_to_t()).filter(keep_non_colon()));
    }
    let mut i: usize = 0;
    while i < len
        invariant
            0 <= i <= len,
            len == s@.len(),
            out@ == s@.subrange(0, i as int).map_values(space_to_t()).filter(keep_non_colon()),
        decreases len - i,
    {
        let c = s.get_char(i);
        if c != ':' {
            push_char(&mut out, if c == ' ' { 'T' } else { c });
        }
        proof {
            let prefix = s@.subrange(0, i as int).map_values(space_to_t());
            assert(s@.subrange(0, i + 1).map_values(space_to_t()) =~= prefix.push(
                space_to_t()(s@[i as int]),
            ));
            lemma_filter_push(prefix, keep_non_colon(), space_to_t()(s@[i as int]));
        }
        i = i + 1;
    }
    proof {
        assert(s@.subrange(0, len as int) =~= s@);
    }
    out
}

fn dash_date(s: &str) -> (r: String)
    ensures
        r@ == s@.map_values(colon_to_dash()),
{
    let len = s.unicode_len();
    let mut out = String::new();
    let mut i: usize = 0;
    while i < len
        invariant
            0 <= i <= len,
            len == s@.len(),
            out@ == s@.subrange(0, i as int).map_values(colon_to_dash()),
        decreases len - i,
    {
        let c = s.get_char(i);
        push_char(&mut out, if c == ':' { '-' } else { c });
        proof {
            assert(s@.subrange(0, i + 1).map_values(colon_to_dash()) =~= s@.subrange(
                0,
                i as int,
            ).map_values(colon_to_dash()).push(colon_to_dash()(s@[i as int])));
        }
        i = i + 1;
    }
    proof {
        assert(s@.subrange(0, len as int) =~= s@);
    }
    out
}

fn strip_colons(s: &str) -> (r: String)
    ensures
        r@ == s@.filter(keep_non_colon()),
{
    let len = s.unicode_len();
    let mut out = String::new();
    proof {
        reveal(Seq::filter);
        assert(s@.subrange(0, 0) =~= Seq::<char>::empty());
        assert(out@ =~= s@.subrange(0, 0).filter(keep_non_colon()));
    }
    let mut i: usize = 0;
    while i < len
        invariant
            0 <= i <= len,
            len == s@.len(),
            out@ == s@.subrange(0, i as int).filter(keep_non_colon()),
        decreases len - i,
    {
        let c = s.get_char(i);
        if c != ':' {
            push_char(&mut out, c);
        }
        proof {
            assert(s@.subrange(0, i + 1) =~= s@.subrange(0, i as int).push(s@[i as int]));
            lemma_filter_push(s@.subrange(0, i as int), keep_non_colon(), s@[i as int]);
        }
        i = i + 1;
    }
    proof {
        assert(s@.subrange(0, len as int) =~= s@);
    }
    out
}

// --------------------------------------------------------------------------
// The record
// --------------------------------------------------------------------------

/// The metadata of one image, as far as its decoder filled it in.
#[derive(Debug)]
pub struct Metadata {
    pub path: String,
    pub artist: Option<String>,
    pub copyright: Option<String>,
    pub date_time: Option<String>,
    pub image_number: Option<u32>,
    pub owner_name: Option<String>,
    pub camera_make: Option<String>,
    pub camera_model: Option<String>,
    pub lens_make: Option<String>,
    pub lens_model: Option<String>,
}

impl Metadata {
    /// A fresh record for the file at `path`: every field empty but for the
    /// image number parsed from the path itself.
    pub fn new(path: &str) -> (r: Self)
        ensures
            r.path@ == path@,
            r.artist is None,
            r.copyright is None,
            r.date_time is None,
            r.image_number == spec_image_number(path@),
            r.owner_name is None,
            r.camera_make is None,
            r.camera_model is None,
            r.lens_make is None,
            r.lens_model is None,
            r.inv(),
    {
        Metadata {
            path: path.to_owned(),
            artist: None,
            copyright: None,
            date_time: None,
            image_number: Self::parse_image_number_from_path(path),
            owner_name: None,
            camera_make: None,
            camera_model: None,
            lens_make: None,
            lens_model: None,
        }
    }

    /// Whether the record can stand before the date fields: callers that
    /// require a date reject the record unless the year reads as four
    /// non-blank characters.
    pub fn validate(&self) -> (r: Result<(), Error>)
        requires
            self.inv(),
        ensures
            r is Ok <==> (self.date_time matches Some(d) && trim_spec(d@.subrange(0, 4)).len()
                == 4),
            r is Err ==> r == Err::<(), Error>(Error::MissingRequiredField),
    {
        match &self.date_time {
            None => Err(Error::MissingRequiredField),
            Some(d) => {
                let year = d.as_str().substring_char(0, 4);
                let t = trim(year);
                if t.unicode_len() == 4 {
                    Ok(())
                } else {
                    Err(Error::MissingRequiredField)
                }
            },
        }
    }

    /// The run of digits ending the path's file stem, read as a number.
    pub fn parse_image_number_from_path(path: &str) -> (r: Option<u32>)
        ensures
            r == spec_image_number(path@),
    {
        let st = file_stem(path);
        proof {
            lemma_stem_empty(file_name_of(path@));
        }
        if st.is_empty() {
            return None;
        }
        let stlen = st.unicode_len();
        proof {
            lemma_digits_start(st@);
        }
        proof {
            assert(st@.subrange(0, stlen as int) =~= st@);
        }
        let mut k = stlen;
        while k > 0 && is_digit(st.get_char(k - 1))
            invariant
                0 <= k <= stlen,
                stlen == st@.len(),
                digits_start(st@) == digits_start(st@.subrange(0, k as int)),
                forall|j: int| k <= j < stlen ==> is_digit_char(#[trigger] st@[j]),
            decreases k,
        {
            proof {
                assert(st@.subrange(0, k as int).drop_last() =~= st@.subrange(0, k - 1));
                assert(st@.subrange(0, k as int).last() == st@[k - 1]);
            }
            k = k - 1;
        }
        proof {
            if k > 0 {
                assert(st@.subrange(0, k as int).last() == st@[k - 1]);
            } else {
                assert(st@.subrange(0, 0) =~= Seq::<char>::empty());
            }
            assert(digits_start(st@) == k);
        }
        if k == stlen {
            return None;
        }
        let ghost digs = st@.subrange(digits_start(st@), st@.len() as int);
        proof {
            lemma_digits_val_nonneg(digs);
        }
        let mut val: u32 = 0;
        let mut i = k;
        while i < stlen
            invariant
                k <= i <= stlen,
                k < stlen,
                stlen == st@.len(),
                st@ == stem_of(file_name_of(path@)),
                file_name_of(path@).len() != 0,
                k == digits_start(st@),
                digs == st@.subrange(k as int, stlen as int),
                forall|j: int| k <= j < stlen ==> is_digit_char(#[trigger] st@[j]),
                val == digits_val(st@.subrange(k as int, i as int)),
            decreases stlen - i,
        {
            let c = st.get_char(i);
            let d = (c as u32) - 48;
            let ghost prefix = st@.subrange(k as int, i as int);
            let ghost grown = st@.subrange(k as int, i + 1);
            proof {
                assert(grown.drop_last() =~= prefix);
                assert(grown.last() == st@[i as int]);
                assert(digits_val(grown) == digits_val(prefix) * 10 + (c as int - 48));
            }
            let next = match val.checked_mul(10) {
                Some(v10) => v10.checked_add(d),
                None => None,
            };
            match next {
                Some(v) => {
                    val = v;
                },
                None => {
                    proof {
                        assert(is_digit_char(st@[i as int]));
                        assert(digits_val(grown) > u32::MAX as int);
                        assert(grown =~= digs.subrange(0, i + 1 - k));
                        assert forall|j: int| 0 <= j < digs.len() implies is_digit_char(
                            #[trigger] digs[j],
                        ) by {
                            assert(digs[j] == st@[k + j]);
                        }
                        lemma_digits_val_prefix_le(digs, i + 1 - k);
                        assert(digits_val(digs) > u32::MAX as int);
                        assert(spec_image_number(path@) is None);
                    }
                    return None;
                },
            }
            i = i + 1;
        }
        proof {
            assert(st@.subrange(k as int, stlen as int) == digs);
        }
        Some(val)
    }
}

impl DataSource for Metadata {
    /// The date/time, when present, is long enough for every derived date
    /// field: at least the nineteen characters of `YYYY:MM:DD HH:MM:SS`.
    open spec fn inv(&self) -> bool {
        self.date_time matches Some(d) ==> d@.len() >= 19
    }

    open spec fn spec_get(&self, key: Seq<char>) -> Option<Seq<char>> {
        if key == "name"@ {
            if file_name_of(self.path@).len() == 0 {
                None
            } else {
                Some(stem_of(file_name_of(self.path@)))
            }
        } else if key == "artist"@ {
            match self.artist {
                Some(s) => Some(cleanup_spec(s@)),
                None => None,
            }
        } else if key == "copyright"@ {
            match self.copyright {
                Some(s) => Some(cleanup_spec(s@)),
                None => None,
            }
        } else if key == "number"@ {
            match self.image_number {
                Some(n) => Some(dec_of(n as nat)),
                None => None,
            }
        } else if key == "owner.name"@ {
            match self.owner_name {
                Some(s) => Some(cleanup_spec(s@)),
                None => None,
            }
        } else if key == "camera.make"@ {
            match self.camera_make {
                Some(s) => Some(cleanup_spec(s@)),
                None => None,
            }
        } else if key == "camera.model"@ {
            match self.camera_model {
                Some(s) => Some(cleanup_spec(s@)),
                None => None,
            }
        } else if key == "lens.make"@ {
            match self.lens_make {
                Some(s) => Some(cleanup_spec(s@)),
                None => None,
            }
        } else if key == "lens.model"@ {
            match self.lens_model {
                Some(s) => Some(cleanup_spec(s@)),
                None => None,
            }
        } else if key == "year"@ {
            match self.date_time {
                Some(d) => Some(d@.subrange(0, 4)),
                None => None,
            }
        } else if key == "month"@ {
            match self.date_time {
                Some(d) => Some(d@.subrange(5, 7)),
                None => None,
            }
        } else if key == "day"@ {
            match self.date_time {
                Some(d) => Some(d@.subrange(8, 10)),
                None => None,
            }
        } else if key == "date_time"@ {
            match self.date_time {
                Some(d) => Some(compact_spec(d@)),
                None => None,
            }
        } else if key == "date"@ {
            match self.date_time {
                Some(d) => Some(d@.subrange(0, 10).map_values(colon_to_dash())),
                None => None,
            }
        } else if key == "time"@ {
            match self.date_time {
                Some(d) => Some(d@.subrange(11, 19).filter(keep_non_colon())),
                None => None,
            }
        } else {
            None
        }
    }

    fn get<'s>(&'s self, key: &str) -> (r: Option<Value<'s>>) {
        if str_eq(key, "name") {
            let st = file_stem(self.path.as_str());
            proof {
                lemma_stem_empty(file_name_of(self.path@));
            }
            if st.is_empty() {
                None
            } else {
                Some(Value::Borrowed(st))
            }
        } else if str_eq(key, "artist") {
            match &self.artist {
                Some(s) => Some(Value::Owned(cleanup_string(s.as_str()))),
                None => None,
            }
        } else if str_eq(key, "copyright") {
            match &self.copyright {
                Some(s) => Some(Value::Owned(cleanup_string(s.as_str()))),
                None => None,
            }
        } else if str_eq(key, "number") {
            match self.image_number {
                Some(n) => Some(Value::Owned(u64_to_string(n as u64))),
                None => None,
            }
        } else if str_eq(key, "owner.name") {
            match &self.owner_name {
                Some(s) => Some(Value::Owned(cleanup_string(s.as_str()))),
                None => None,
            }
        } else if str_eq(key, "camera.make") {
            match &self.camera_make {
                Some(s) => Some(Value::Owned(cleanup_string(s.as_str()))),
                None => None,
            }
        } else if str_eq(key, "camera.model") {
            match &self.camera_model {
                Some(s) => Some(Value::Owned(cleanup_string(s.as_str()))),
                None => None,
            }
        } else if str_eq(key, "lens.make") {
            match &self.lens_make {
                Some(s) => Some(Value::Owned(cleanup_string(s.as_str()))),
                None => None,
            }
        } else if str_eq(key, "lens.model") {
            match &self.lens_model {
                Some(s) => Some(Value::Owned(cleanup_string(s.as_str()))),
                None => None,
            }
        } else if str_eq(key, "year") {
            match &self.date_time {
                Some(d) => Some(Value::Borrowed(d.as_str().substring_char(0, 4))),
                None => None,
            }
        } else if str_eq(key, "month") {
            match &self.date_time {
                Some(d) => Some(Value::Borrowed(d.as_str().substring_char(5, 7))),
                None => None,
            }
        } else if str_eq(key, "day") {
            match &self.date_time {
                Some(d) => Some(Value::Borrowed(d.as_str().substring_char(8, 10))),
                None => None,
            }
        } else if str_eq(key, "date_time") {
            match &self.date_time {
                Some(d) => Some(Value::Owned(compact_datetime(d.as_str()))),
                None => None,
            }
        } else if str_eq(key, "date") {
            match &self.date_time {
                Some(d) => Some(Value::Owned(dash_date(d.as_str().substring_char(0, 10)))),
                None => None,
            }
        } else if str_eq(key, "time") {
            match &self.date_time {
                Some(d) => Some(Value::Owned(strip_colons(d.as_str().substring_char(11, 19)))),
                None => None,
            }
        } else {
            None
        }
    }
}

} // verus!
