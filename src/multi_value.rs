//! The set of values that one header name carries in a response.
use vstd::prelude::*;

verus! {

/// Why a value set could not be built.
#[derive(Clone, Copy, Debug, PartialEq, Eq, Structural)]
pub enum Error {
    /// The source held no value at all.
    Empty,
}

/// The views of a sequence of strings.
pub open spec fn views_of(values: Seq<String>) -> Seq<Seq<char>> {
    values.map_values(|s: String| s@)
}

/// A set of values for a response header.
///
/// Typically each header name maps to a single value, but the same name may
/// appear more than once. The first value is mandatory; the others, when there
/// are any, are kept in order in an overflow list.
#[derive(Clone, Debug, PartialEq, Eq)]
pub struct MultiValue {
    pub first: String,
    rest: Vec<String>,
}

impl View for MultiValue {
    type V = Seq<Seq<char>>;

    /// All values, the mandatory one first.
    closed spec fn view(&self) -> Seq<Seq<char>> {
        seq![self.first@] + views_of(self.rest@)
    }
}

/// The two shapes in which a value set is written out: a bare string for a
/// single value, a list for several.
#[derive(Clone, Debug, PartialEq, Eq)]
pub enum Encoded {
    Text(String),
    List(Vec<String>),
}

impl Encoded {
    /// The values that this shape holds, in order.
    pub open spec fn values(self) -> Seq<Seq<char>> {
        match self {
            Encoded::Text(s) => seq![s@],
            Encoded::List(v) => views_of(v@),
        }
    }

    /// What decoding this shape gives: its values, unless there are none.
    pub open spec fn decoded(self) -> Result<Seq<Seq<char>>, Error> {
        if self.values().len() == 0 {
            Err(Error::Empty)
        } else {
            Ok(self.values())
        }
    }
}

/// `e` is how a value set with the values `values` is written: a bare string
/// exactly when there is one value.
pub open spec fn encodes(e: Encoded, values: Seq<Seq<char>>) -> bool {
    &&& e.values() == values
    &&& (e is Text <==> values.len() == 1)
}

impl MultiValue {
    /// A value set always holds at least one value.
    pub proof fn lemma_not_empty(&self)
        ensures
            self@.len() >= 1,
    {
    }

    /// The mandatory value, the first of all.
    pub fn first(&self) -> (r: &String)
        ensures
            r@ == self@[0],
    {
        &self.first
    }

    /// The value set that holds `value` alone.
    pub fn new(value: String) -> (r: Self)
        ensures
            r@ == seq![value@],
    {
        let r = MultiValue { first: value, rest: Vec::new() };
        assert(r@ =~= seq![value@]);
        r
    }

    /// Appends `value` after the values already held.
    pub fn push(&mut self, value: String)
        ensures
            final(self)@ == old(self)@.push(value@),
    {
        let ghost before = self@;
        let ghost prior = self.rest@;
        self.rest.push(value);
        assert(views_of(self.rest@) =~= views_of(prior).push(value@));
        assert(self@ =~= before.push(value@));
    }

    /// The value set holding `values` in order; `Empty` when there are none.
    pub fn try_from(values: Vec<String>) -> (r: Result<Self, Error>)
        ensures
            values@.len() == 0 <==> r is Err,
            r matches Err(e) ==> e == Error::Empty,
            r matches Ok(m) ==> m@ == views_of(values@),
    {
        let mut values = values;
        if values.len() == 0 {
            Err(Error::Empty)
        } else {
            let ghost all = values@;
            let first = values.remove(0);
            let r = MultiValue { first, rest: values };
            assert(r@ =~= views_of(all));
            Ok(r)
        }
    }

    /// An iterator over the values, the mandatory one first.
    pub fn iter(&self) -> (r: Iter<'_>)
        ensures
            r.remaining() == self@,
    {
        Iter { source: self, started: false, index: 0 }
    }

    /// Reads a value set from either of its written shapes.
    pub fn decode(e: Encoded) -> (r: Result<Self, Error>)
        ensures
            r matches Ok(m) ==> e.decoded() == Ok::<Seq<Seq<char>>, Error>(m@),
            r matches Err(err) ==> e.decoded() == Err::<Seq<Seq<char>>, Error>(err),
    {
        match e {
            Encoded::Text(s) => {
                let m = MultiValue::new(s);
                Ok(m)
            },
            Encoded::List(v) => MultiValue::try_from(v),
        }
    }

    /// The shape in which this value set is written: a bare string when it
    /// holds one value, else a list of all values in order.
    pub fn encode(&self) -> (r: Encoded)
        ensures
            encodes(r, self@),
    {
        if self.rest.len() == 0 {
            let r = Encoded::Text(self.first.clone());
            assert(r.values() =~= self@);
            r
        } else {
            let mut all: Vec<String> = Vec::new();
            all.push(self.first.clone());
            let mut i: usize = 0;
            while i < self.rest.len()
                invariant
                    i <= self.rest@.len(),
                    views_of(all@) =~= seq![self.first@] + views_of(self.rest@.subrange(0, i as int)),
                decreases self.rest@.len() - i,
            {
                let ghost prior = all@;
                all.push(self.rest[i].clone());
                assert(views_of(all@) =~= views_of(prior).push(self.rest@[i as int]@));
                assert(self.rest@.subrange(0, i + 1) =~= self.rest@.subrange(0, i as int).push(self.rest@[i as int]));
                i = i + 1;
            }
            assert(self.rest@.subrange(0, self.rest@.len() as int) =~= self.rest@);
            let r = Encoded::List(all);
            assert(r.values() =~= self@);
            r
        }
    }
}

/// Writing a value set and reading the result back gives the same values.
pub proof fn lemma_encode_decode(m: MultiValue, e: Encoded)
    requires
        encodes(e, m@),
    ensures
        e.decoded() == Ok::<Seq<Seq<char>>, Error>(m@),
{
    m.lemma_not_empty();
}

/// Walks the values of a value set in order.
pub struct Iter<'a> {
    source: &'a MultiValue,
    started: bool,
    index: usize,
}

impl<'a> Iter<'a> {
    #[verifier::type_invariant]
    spec fn within(self) -> bool {
        &&& self.index <= self.source.rest@.len()
        &&& !self.started ==> self.index == 0
    }

    /// The values not yet handed out.
    pub closed spec fn remaining(&self) -> Seq<Seq<char>> {
        if self.started {
            views_of(self.source.rest@).subrange(self.index as int, self.source.rest@.len() as int)
        } else {
            self.source@
        }
    }

    /// The next value, or `None` once all have been handed out.
    pub fn next(&mut self) -> (r: Option<String>)
        ensures
            old(self).remaining().len() == 0 ==> r is None && final(self).remaining() == old(self).remaining(),
            old(self).remaining().len() > 0 ==> (r matches Some(v) && v@ == old(self).remaining()[0]
                && final(self).remaining() == old(self).remaining().drop_first()),
    {
        proof {
            use_type_invariant(&*self);
        }
        let ghost rest = views_of(self.source.rest@);
        if !self.started {
            self.started = true;
            assert(rest.subrange(0, rest.len() as int) =~= self.source@.drop_first());
            Some(self.source.first.clone())
        } else if self.index < self.source.rest.len() {
            let v = self.source.rest[self.index].clone();
            self.index = self.index + 1;
            assert(rest.subrange(self.index as int, rest.len() as int)
                =~= rest.subrange(self.index - 1, rest.len() as int).drop_first());
            Some(v)
        } else {
            None
        }
    }
}

} // verus!
