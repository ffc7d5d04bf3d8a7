//! The templating language: parsing, value lookup, transforms, rendering.

use vstd::prelude::*;

pub mod parser;
pub mod transforms;
pub mod value;

pub use transforms::transform;
pub use value::Value;

verus! {

/// The capability that answers "what is the value of field X" during a
/// render. Absent keys render as the empty string.
pub trait DataSource {
    /// The well-formedness a concrete source asks of itself before lookups.
    spec fn inv(&self) -> bool;

    /// The value the source holds for `key`, if any.
    spec fn spec_get(&self, key: Seq<char>) -> Option<Seq<char>>;

    /// Look up `key`.
    fn get<'s>(&'s self, key: &str) -> (r: Option<Value<'s>>)
        requires
            self.inv(),
        ensures
            match self.spec_get(key@) {
                Some(v) => r matches Some(value) && value@ == v,
                None => r is None,
            },
    ;
}

/// What a data source yields for `key` once absence is defaulted: the held
/// value, or the empty string.
pub open spec fn resolved<D: DataSource>(data: D, key: Seq<char>) -> Seq<char> {
    match data.spec_get(key) {
        Some(v) => v,
        None => Seq::empty(),
    }
}

/// A named, pure, total text transform, applied to a field's resolved value.
pub trait Transform {
    /// The well-formedness a concrete transform asks of itself.
    spec fn inv(&self) -> bool;

    /// The function this transform computes.
    spec fn spec_transform(&self, s: Seq<char>) -> Seq<char>;

    /// Apply the transform.
    fn transform(&self, value: &str) -> (r: String)
        requires
            self.inv(),
        ensures
            r@ == self.spec_transform(value@),
    ;
}

// --------------------------------------------------------------------------
// The registry and the meaning of a render
// --------------------------------------------------------------------------

/// The transform registered under `name`, if any. A later registration of
/// the same name shadows an earlier one.
pub open spec fn reg_lookup<T>(regs: Seq<(String, T)>, name: Seq<char>) -> Option<T>
    decreases regs.len(),
{
    if regs.len() == 0 {
        None
    } else if regs.last().0@ == name {
        Some(regs.last().1)
    } else {
        reg_lookup(regs.drop_last(), name)
    }
}

/// One transform applied by name: an unregistered name is the identity.
pub open spec fn apply_one<T: Transform>(
    regs: Seq<(String, T)>,
    name: Seq<char>,
    v: Seq<char>,
) -> Seq<char> {
    match reg_lookup(regs, name) {
        Some(t) => t.spec_transform(v),
        None => v,
    }
}

/// A chain of transforms applied by name, strictly left to right.
pub open spec fn apply_chain<T: Transform>(
    regs: Seq<(String, T)>,
    names: Seq<Seq<char>>,
    v: Seq<char>,
) -> Seq<char>
    decreases names.len(),
{
    if names.len() == 0 {
        v
    } else {
        apply_chain(regs, names.subrange(1, names.len() as int), apply_one(regs, names[0], v))
    }
}

/// The text one segment contributes to a render.
pub open spec fn seg_output<T: Transform, D: DataSource>(
    regs: Seq<(String, T)>,
    data: D,
    seg: parser::SegView,
) -> Seq<char> {
    match seg {
        parser::SegView::Text(s) => s,
        parser::SegView::Field(f) => resolved(data, f),
        parser::SegView::Chain(f, names) => apply_chain(regs, names, resolved(data, f)),
    }
}

/// The concatenated output of a sequence of segments.
pub open spec fn segs_output<T: Transform, D: DataSource>(
    regs: Seq<(String, T)>,
    data: D,
    segs: Seq<parser::SegView>,
) -> Seq<char>
    decreases segs.len(),
{
    if segs.len() == 0 {
        Seq::empty()
    } else {
        seg_output(regs, data, segs[0]) + segs_output(
            regs,
            data,
            segs.subrange(1, segs.len() as int),
        )
    }
}

/// The meaning of a render: the parse of the template, and on success the
/// concatenated segment outputs. A parse error fails the whole render.
pub open spec fn spec_render<T: Transform, D: DataSource>(
    regs: Seq<(String, T)>,
    data: D,
    t: Seq<char>,
) -> Result<Seq<char>, crate::errors::ParseError> {
    match parser::parse_spec(t) {
        Ok(segs) => Ok(segs_output(regs, data, segs)),
        Err(e) => Err(e),
    }
}

// --------------------------------------------------------------------------
// Laws
// --------------------------------------------------------------------------

/// Applying a name under which nothing is registered leaves the value
/// unchanged: templates stay renderable when a deployment omits an
/// optional transform.
pub proof fn lemma_unknown_transform_identity<T: Transform>(
    regs: Seq<(String, T)>,
    name: Seq<char>,
    v: Seq<char>,
)
    requires
        forall|i: int| 0 <= i < regs.len() ==> (#[trigger] regs[i]).0@ != name,
    ensures
        apply_one(regs, name, v) == v,
    decreases regs.len(),
{
    if regs.len() > 0 {
        assert(regs.last() == regs[regs.len() - 1]);
        lemma_unknown_transform_identity(regs.drop_last(), name, v);
    }
}

/// A chain of two transforms applies the first, then the second to its
/// result: transforms apply strictly in the listed order.
pub proof fn lemma_transform_chain_order<T: Transform>(
    regs: Seq<(String, T)>,
    first: Seq<char>,
    second: Seq<char>,
    v: Seq<char>,
)
    ensures
        apply_chain(regs, seq![first, second], v) == apply_one(
            regs,
            second,
            apply_one(regs, first, v),
        ),
{
    let names = seq![first, second];
    let mid = apply_one(regs, first, v);
    assert(names[0] == first);
    assert(names.subrange(1, 2) =~= seq![second]);
    assert(seq![second][0] == second);
    assert(seq![second].subrange(1, 1) =~= Seq::<Seq<char>>::empty());
    assert(apply_chain(regs, seq![second], mid) == apply_chain(
        regs,
        seq![second].subrange(1, 1),
        apply_one(regs, second, mid),
    ));
    assert(apply_chain(regs, names, v) == apply_chain(regs, names.subrange(1, 2), mid));
}

// --------------------------------------------------------------------------
// The template context
// --------------------------------------------------------------------------

/// A template together with its registered transforms. Built once at
/// configuration time; rendering never alters it.
pub struct TemplateContext<T: Transform> {
    template: String,
    transforms: Vec<(String, T)>,
}

impl<T: Transform> TemplateContext<T> {
    /// The template's characters.
    pub closed spec fn spec_template(&self) -> Seq<char> {
        self.template@
    }

    /// The registered transforms, in registration order.
    pub closed spec fn regs(&self) -> Seq<(String, T)> {
        self.transforms@
    }

    /// Every registered transform is well formed.
    pub open spec fn wf(&self) -> bool {
        forall|i: int| 0 <= i < self.regs().len() ==> (#[trigger] self.regs()[i]).1.inv()
    }

    /// A context over `template` with no transforms registered yet.
    pub fn new(template: &str) -> (r: Self)
        ensures
            r.spec_template() == template@,
            r.regs() == Seq::<(String, T)>::empty(),
            r.wf(),
    {
        TemplateContext { template: template.to_owned(), transforms: Vec::new() }
    }

    /// Register `transform` under `name`. Registration is builder-style and
    /// only valid during construction; a repeated name shadows the earlier
    /// entry.
    pub fn with_transform(self, name: &str, transform: T) -> (r: Self)
        requires
            transform.inv(),
        ensures
            r.spec_template() == self.spec_template(),
            r.regs().len() == self.regs().len() + 1,
            r.regs().drop_last() == self.regs(),
            r.regs().last().0@ == name@,
            r.regs().last().1 == transform,
            self.wf() ==> r.wf(),
    {
        let mut this = self;
        this.transforms.push((name.to_owned(), transform));
        proof {
            assert(this.transforms@.drop_last() =~= self.transforms@);
        }
        this
    }

    /// The transform registered under `name`, if any.
    fn lookup(&self, name: &str) -> (r: Option<&T>)
        ensures
            match reg_lookup(self.regs(), name@) {
                Some(t) => r matches Some(found) && *found == t,
                None => r is None,
            },
    {
        let n = self.transforms.len();
        proof {
            assert(self.regs().subrange(0, n as int) =~= self.regs());
        }
        let mut i = n;
        while i > 0
            invariant
                0 <= i <= n,
                n == self.regs().len(),
                reg_lookup(self.regs(), name@) == reg_lookup(
                    self.regs().subrange(0, i as int),
                    name@,
                ),
            decreases i,
        {
            proof {
                assert(self.regs().subrange(0, i as int).drop_last() =~= self.regs().subrange(
                    0,
                    i - 1,
                ));
                assert(self.regs().subrange(0, i as int).last() == self.regs()[i - 1]);
            }
            if crate::text::str_eq(self.transforms[i - 1].0.as_str(), name) {
                return Some(&self.transforms[i - 1].1);
            }
            i = i - 1;
        }
        proof {
            assert(self.regs().subrange(0, 0) =~= Seq::<(String, T)>::empty());
        }
        None
    }

    /// Render the template against `data`: literal text is copied, fields
    /// are resolved (absent fields render as the empty string), transform
    /// chains are applied in order, and a parse error fails the render as a
    /// whole.
    pub fn render<D: DataSource>(&self, data: &D) -> (r: Result<
        String,
        crate::errors::ParseError,
    >)
        requires
            self.wf(),
            data.inv(),
        ensures
            match spec_render(self.regs(), *data, self.spec_template()) {
                Ok(s) => r matches Ok(out) && out@ == s,
                Err(e) => r matches Err(err) && err == e,
            },
    {
        let ghost t = self.spec_template();
        let ghost regs = self.regs();
        let mut p = parser::Parser::new(self.template.as_str());
        let mut out = String::new();
        loop
            invariant
                p.wf(),
                p.spec_template() == t,
                t == self.spec_template(),
                regs == self.regs(),
                self.wf(),
                data.inv(),
                match parser::parse_from(t, p.spec_pos()) {
                    Ok(rest) => parser::parse_spec(t) matches Ok(all) && segs_output(
                        regs,
                        *data,
                        all,
                    ) == out@ + segs_output(regs, *data, rest),
                    Err(e) => parser::parse_spec(t) == Result::<
                        Seq<parser::SegView>,
                        crate::errors::ParseError,
                    >::Err(e),
                },
            decreases t.len() - p.spec_pos(),
        {
            let ghost pos = p.spec_pos();
            let item = p.next();
            match item {
                None => {
                    return Ok(out);
                },
                Some(Err(e)) => {
                    return Err(e);
                },
                Some(Ok(seg)) => {
                    proof {
                        parser::lemma_parse_step_progress(t, pos);
                    }
                    let ghost segv = seg@;
                    let ghost rest2 = match parser::parse_from(t, p.spec_pos()) {
                        Ok(r2) => r2,
                        Err(e) => seq![],
                    };
                    match seg {
                        parser::Segment::Text(s) => {
                            out.append(s.as_str());
                        },
                        parser::Segment::Interpolation(f) => {
                            match data.get(f.as_str()) {
                                Some(v) => {
                                    out.append(v.as_str());
                                },
                                None => {},
                            }
                        },
                        parser::Segment::Transform(f, names) => {
                            let value = match data.get(f.as_str()) {
                                Some(v) => v,
                                None => Value::default(),
                            };
                            let piece = self.apply_transforms(&names, value.as_str());
                            out.append(piece.as_str());
                        },
                    }
                    proof {
                        if parser::parse_from(t, pos) is Ok {
                            assert(parser::parse_from(t, pos) == Ok::<
                                _,
                                crate::errors::ParseError,
                            >(seq![segv] + rest2));
                            assert((seq![segv] + rest2)[0] == segv);
                            assert((seq![segv] + rest2).subrange(
                                1,
                                (seq![segv] + rest2).len() as int,
                            ) =~= rest2);
                        }
                    }
                },
            }
        }
    }

    /// Apply the named transforms to `value`, strictly left to right.
    fn apply_transforms(&self, names: &Vec<String>, value: &str) -> (r: String)
        requires
            self.wf(),
        ensures
            r@ == apply_chain(self.regs(), names.deep_view(), value@),
    {
        let ghost nv = names.deep_view();
        let mut cur = value.to_owned();
        let n = names.len();
        proof {
            assert(nv.subrange(0, n as int) =~= nv);
        }
        let mut j: usize = 0;
        while j < n
            invariant
                0 <= j <= n,
                n == nv.len(),
                n == names@.len(),
                nv == names.deep_view(),
                self.wf(),
                apply_chain(self.regs(), nv.subrange(j as int, n as int), cur@) == apply_chain(
                    self.regs(),
                    nv,
                    value@,
                ),
            decreases n - j,
        {
            proof {
                assert(nv.subrange(j as int, n as int).subrange(
                    1,
                    nv.subrange(j as int, n as int).len() as int,
                ) =~= nv.subrange(j + 1, n as int));
                assert(nv.subrange(j as int, n as int)[0] == nv[j as int]);
                assert(nv[j as int] == names@[j as int]@);
            }
            match self.lookup(names[j].as_str()) {
                Some(t) => {
                    proof {
                        lemma_reg_lookup_found(self.regs(), nv[j as int]);
                    }
                    cur = t.transform(cur.as_str());
                },
                None => {},
            }
            j = j + 1;
        }
        proof {
            assert(nv.subrange(n as int, n as int) =~= Seq::<Seq<char>>::empty());
        }
        cur
    }
}

// --------------------------------------------------------------------------
// A simple concrete data source
// --------------------------------------------------------------------------

/// The value under `key` among `pairs`, the latest entry winning.
pub open spec fn kv_lookup(pairs: Seq<(String, String)>, key: Seq<char>) -> Option<Seq<char>>
    decreases pairs.len(),
{
    if pairs.len() == 0 {
        None
    } else if pairs.last().0@ == key {
        Some(pairs.last().1@)
    } else {
        kv_lookup(pairs.drop_last(), key)
    }
}

/// A data source over explicit key/value pairs: the simplest concrete
/// adapter, fit for fixtures and for callers that assemble field values
/// themselves.
pub struct KeyValueSource {
    pairs: Vec<(String, String)>,
}

impl KeyValueSource {
    /// The held pairs, in insertion order.
    pub closed spec fn pairs_view(&self) -> Seq<(String, String)> {
        self.pairs@
    }

    /// A source holding nothing.
    pub fn new() -> (r: Self)
        ensures
            r.pairs_view() == Seq::<(String, String)>::empty(),
    {
        KeyValueSource { pairs: Vec::new() }
    }

    /// The source extended with `key = value`; a repeated key shadows the
    /// earlier entry.
    pub fn with(self, key: &str, value: &str) -> (r: Self)
        ensures
            r.pairs_view().len() == self.pairs_view().len() + 1,
            r.pairs_view().drop_last() == self.pairs_view(),
            r.pairs_view().last().0@ == key@,
            r.pairs_view().last().1@ == value@,
    {
        let mut this = self;
        this.pairs.push((key.to_owned(), value.to_owned()));
        proof {
            assert(this.pairs@.drop_last() =~= self.pairs@);
        }
        this
    }
}

impl DataSource for KeyValueSource {
    open spec fn inv(&self) -> bool {
        true
    }

    open spec fn spec_get(&self, key: Seq<char>) -> Option<Seq<char>> {
        kv_lookup(self.pairs_view(), key)
    }

    fn get<'s>(&'s self, key: &str) -> (r: Option<Value<'s>>) {
        let n = self.pairs.len();
        proof {
            assert(self.pairs_view().subrange(0, n as int) =~= self.pairs_view());
        }
        let mut i = n;
        while i > 0
            invariant
                0 <= i <= n,
                n == self.pairs_view().len(),
                kv_lookup(self.pairs_view(), key@) == kv_lookup(
                    self.pairs_view().subrange(0, i as int),
                    key@,
                ),
            decreases i,
        {
            proof {
                assert(self.pairs_view().subrange(0, i as int).drop_last()
                    =~= self.pairs_view().subrange(0, i - 1));
                assert(self.pairs_view().subrange(0, i as int).last() == self.pairs_view()[i - 1]);
            }
            if crate::text::str_eq(self.pairs[i - 1].0.as_str(), key) {
                return Some(Value::Borrowed(self.pairs[i - 1].1.as_str()));
            }
            i = i - 1;
        }
        proof {
            assert(self.pairs_view().subrange(0, 0) =~= Seq::<(String, String)>::empty());
        }
        None
    }
}

/// A found registry entry is one of the registered pairs, so it is well
/// formed whenever the whole registry is.
proof fn lemma_reg_lookup_found<T>(regs: Seq<(String, T)>, name: Seq<char>)
    ensures
        reg_lookup(regs, name) matches Some(t) ==> exists|i: int|
            0 <= i < regs.len() && (#[trigger] regs[i]).1 == t,
    decreases regs.len(),
{
    if regs.len() > 0 {
        if regs.last().0@ == name {
            assert(regs[regs.len() - 1].1 == regs.last().1);
        } else {
            lemma_reg_lookup_found(regs.drop_last(), name);
            if reg_lookup(regs, name) is Some {
                let t = reg_lookup(regs, name)->Some_0;
                let i = choose|i: int|
                    0 <= i < regs.drop_last().len() && (#[trigger] regs.drop_last()[i]).1 == t;
                assert(regs[i].1 == t);
            }
        }
    }
}

} // verus!
