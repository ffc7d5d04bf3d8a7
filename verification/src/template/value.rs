use vstd::prelude::*;

verus! {

/// A field value handed from a data source to the renderer: either a
/// reference into existing text or an owned string produced by a
/// computation. Both read as the same sequence of characters; the split
/// only avoids copies on hand-off.
pub enum Value<'a> {
    Borrowed(&'a str),
    Owned(String),
}

impl<'a> View for Value<'a> {
    type V = Seq<char>;

    open spec fn view(&self) -> Seq<char> {
        match self {
            Value::Borrowed(s) => s@,
            Value::Owned(s) => s@,
        }
    }
}

impl<'a> Value<'a> {
    /// The underlying text, without copying.
    pub fn as_str(&self) -> (r: &str)
        ensures
            r@ == self@,
    {
        match self {
            Value::Borrowed(s) => s,
            Value::Owned(s) => s.as_str(),
        }
    }
}

impl<'a> Default for Value<'a> {
    /// The value used when a key is absent: the empty string.
    fn default() -> (r: Self)
        ensures
            r@ == Seq::<char>::empty(),
    {
        let v = Value::Borrowed("");
        proof {
            reveal_strlit("");
            assert(v@ =~= Seq::<char>::empty());
        }
        v
    }
}

impl<'a> From<&'a str> for Value<'a> {
    fn from(s: &'a str) -> (r: Self) {
        Value::Borrowed(s)
    }
}

impl<'a> vstd::std_specs::convert::FromSpecImpl<&'a str> for Value<'a> {
    open spec fn obeys_from_spec() -> bool {
        true
    }

    open spec fn from_spec(s: &'a str) -> Self {
        Value::Borrowed(s)
    }
}

impl<'a> From<String> for Value<'a> {
    fn from(s: String) -> (r: Self) {
        Value::Owned(s)
    }
}

impl<'a> vstd::std_specs::convert::FromSpecImpl<String> for Value<'a> {
    open spec fn obeys_from_spec() -> bool {
        true
    }

    open spec fn from_spec(s: String) -> Self {
        Value::Owned(s)
    }
}

impl<'a> From<&'a String> for Value<'a> {
    fn from(s: &'a String) -> (r: Self) {
        Value::Owned(s.clone())
    }
}

impl<'a> vstd::std_specs::convert::FromSpecImpl<&'a String> for Value<'a> {
    open spec fn obeys_from_spec() -> bool {
        true
    }

    open spec fn from_spec(s: &'a String) -> Self {
        Value::Owned(*s)
    }
}

} // verus!
