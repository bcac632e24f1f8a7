//! Two-phase decoding of one archive entry: the request first, then the
//! response in the shape that the request's parameters call for.
use crate::archive::Archiveable;
use crate::exchange::{Exchange, Response};
use crate::request::params::{ParseError, Params};
use crate::request::Request;
use vstd::prelude::*;

verus! {

/// The two fields of an archive entry.
#[derive(Clone, Copy, Debug, PartialEq, Eq, PartialOrd, Ord, Structural)]
pub enum Field {
    Request,
    Response,
}

/// The key under which a field is written.
pub open spec fn field_key(field: Field) -> Seq<char> {
    match field {
        Field::Request => seq!['r', 'e', 'q', 'u', 'e', 's', 't'],
        Field::Response => seq!['r', 'e', 's', 'p', 'o', 'n', 's', 'e'],
    }
}

impl Field {
    /// The key under which this field is written.
    pub fn key(self) -> (r: &'static str)
        ensures
            r@ == field_key(self),
    {
        match self {
            Field::Request => {
                proof {
                    reveal_strlit("request");
                }
                "request"
            },
            Field::Response => {
                proof {
                    reveal_strlit("response");
                }
                "response"
            },
        }
    }
}

/// Why an archive entry could not be decoded.
#[derive(Clone, Debug, PartialEq, Eq)]
pub enum EntryError {
    /// A required field was not where it had to be.
    MissingField(Field),
    /// A field beyond `request` and `response`, by its key.
    UnknownField(String),
    /// The request did not match the target's grammar: the offending text
    /// and the expected shape.
    InvalidValue { unexpected: String, expected: String },
    /// Any other failure, by its message.
    Custom(String),
}

/// Reads the values of an archive entry's fields from their JSON text.
pub trait FieldReader {
    /// The recorded request written as `text`, or why it could not be read.
    fn read_request(&self, text: &str) -> Result<Request, String>;

    /// The recorded response written as `text`, its payload kept as JSON
    /// text, or why it could not be read.
    fn read_response(&self, text: &str) -> Result<Response<String>, String>;
}

/// One decoded archive entry: the request's parameters and the exchange.
pub struct Entry<T: Archiveable> {
    pub request_params: T::RequestParams,
    pub exchange: Exchange<T>,
}

/// Whether the field at position `i` of an entry's fields has the key of
/// `field`.
pub open spec fn key_at(fields: Seq<(String, String)>, i: int, field: Field) -> bool {
    0 <= i < fields.len() && fields[i].0@ == field_key(field)
}

/// What decoding an entry with the fields `fields` may give: a missing
/// `request` exactly when the first key is not `request`; a missing
/// `response` only after a first key `request`, when the second key is not
/// `response`; an unknown field only after both, naming the third key; and
/// success only on exactly the keys `request` and `response`, in that order.
/// A value that could not be read, or a request outside the target's
/// grammar, fails only once the first key is `request`.
pub open spec fn decoded<T: Archiveable>(fields: Seq<(String, String)>, r: Result<Entry<T>, EntryError>) -> bool {
    &&& !key_at(fields, 0, Field::Request) ==> (r matches Err(EntryError::MissingField(Field::Request)))
    &&& r is Ok ==> fields.len() == 2 && key_at(fields, 0, Field::Request) && key_at(fields, 1, Field::Response)
    &&& (r matches Err(EntryError::MissingField(f)) ==> (f == Field::Request && !key_at(fields, 0, Field::Request))
        || (f == Field::Response && key_at(fields, 0, Field::Request) && !key_at(fields, 1, Field::Response)))
    &&& (r matches Err(EntryError::UnknownField(name)) ==> fields.len() > 2 && key_at(fields, 0, Field::Request)
        && key_at(fields, 1, Field::Response) && name@ == fields[2].0@)
    &&& (r matches Err(EntryError::Custom(_)) ==> key_at(fields, 0, Field::Request))
    &&& (r matches Err(EntryError::InvalidValue { .. }) ==> key_at(fields, 0, Field::Request))
}

/// An entry whose first field is `response` fails for want of `request`,
/// whatever follows: `request` must be read first.
pub proof fn lemma_response_first<T: Archiveable>(fields: Seq<(String, String)>, r: Result<Entry<T>, EntryError>)
    requires
        fields.len() > 0,
        fields[0].0@ == field_key(Field::Response),
        decoded(fields, r),
    ensures
        r matches Err(EntryError::MissingField(Field::Request)),
{
    assert(field_key(Field::Response) != field_key(Field::Request)) by {
        assert(field_key(Field::Response)[2] != field_key(Field::Request)[2]);
    }
}

/// An entry with a field after `request` and `response` never decodes, and
/// where it fails for a field's key it names that third field.
pub proof fn lemma_extra_field<T: Archiveable>(fields: Seq<(String, String)>, r: Result<Entry<T>, EntryError>)
    requires
        fields.len() > 2,
        key_at(fields, 0, Field::Request),
        key_at(fields, 1, Field::Response),
        decoded(fields, r),
    ensures
        r is Err,
        !(r matches Err(EntryError::MissingField(_))),
        r matches Err(EntryError::UnknownField(name)) ==> name@ == fields[2].0@,
{
}

/// Whether `key` is the key of `field`.
pub open spec fn is_key_of(key: Option<String>, field: Field) -> bool {
    key matches Some(k) && k@ == field_key(field)
}

/// Checks that the key just read is the one of `field`: a missing-field
/// failure otherwise, also when no key was left.
pub fn expect_field(key: Option<String>, field: Field) -> (r: Result<(), EntryError>)
    ensures
        r is Ok <==> is_key_of(key, field),
        r is Err ==> r == Err::<(), EntryError>(EntryError::MissingField(field)),
{
    match key {
        Some(k) => {
            let expected = field.key();
            if str_equal(k.as_str(), expected) {
                Ok(())
            } else {
                Err(EntryError::MissingField(field))
            }
        },
        None => Err(EntryError::MissingField(field)),
    }
}

/// Whether two texts are equal.
fn str_equal(a: &str, b: &str) -> (r: bool)
    ensures
        r == (a@ == b@),
{
    let n = a.unicode_len();
    if n != b.unicode_len() {
        return false;
    }
    let mut i: usize = 0;
    while i < n
        invariant
            n == a@.len(),
            n == b@.len(),
            i <= n,
            a@.subrange(0, i as int) == b@.subrange(0, i as int),
        decreases n - i,
    {
        if a.get_char(i) != b.get_char(i) {
            assert(a@[i as int] != b@[i as int]);
            return false;
        }
        assert(a@.subrange(0, i + 1) =~= a@.subrange(0, i as int).push(a@[i as int]));
        assert(b@.subrange(0, i + 1) =~= b@.subrange(0, i as int).push(b@[i as int]));
        i = i + 1;
    }
    assert(a@ =~= a@.subrange(0, n as int));
    assert(b@ =~= b@.subrange(0, n as int));
    true
}

/// A value read from a field's text, or the reader's failure as a custom
/// error carrying its message.
pub fn read_or_custom<V>(read: Result<V, String>) -> (r: Result<V, EntryError>)
    ensures
        match read {
            Ok(v) => r == Ok::<V, EntryError>(v),
            Err(message) => r == Err::<V, EntryError>(EntryError::Custom(message)),
        },
{
    match read {
        Ok(v) => Ok(v),
        Err(message) => Err(EntryError::Custom(message)),
    }
}

/// The outcome of recovering parameters from `request`: the parameters, or
/// the decoding error that reports the mismatch.
pub fn params_or_error<P>(parsed: Result<P, ParseError>, request: &Request) -> (r: Result<P, EntryError>)
    ensures
        match parsed {
            Ok(p) => r == Ok::<P, EntryError>(p),
            Err(pe) => r matches Err(e) && pe.reported_as(e, *request),
        },
{
    match parsed {
        Ok(p) => Ok(p),
        Err(pe) => Err(pe.serde(request)),
    }
}

impl<T: Archiveable> Entry<T> {
    /// The parameters that `request` carries for this target, or an error
    /// that reports the offending URL or body with the expected shape.
    pub fn request_params(request: &Request) -> (r: Result<T::RequestParams, EntryError>)
        ensures
            r matches Err(e) ==> exists|pe: ParseError| pe.reported_as(e, *request),
    {
        let parsed = T::RequestParams::parse_request(request);
        params_or_error(parsed, request)
    }

    /// Reads the recorded response in the shape that `request_params` call
    /// for; a failure of the target's reader comes back with its message.
    pub fn response(request_params: &T::RequestParams, raw: Response<String>) -> (r: Result<
        Response<T>,
        EntryError,
    >)
        ensures
            r matches Err(e) ==> e is Custom,
    {
        read_or_custom(T::deserialize_response(request_params, raw))
    }

    /// Completes an entry once both fields are read: any further key is an
    /// unknown field, named in the error.
    pub fn finish(
        trailing_key: Option<String>,
        request_params: T::RequestParams,
        request: Request,
        response: Response<T>,
    ) -> (r: Result<Self, EntryError>)
        ensures
            r is Ok <==> trailing_key is None,
            r matches Ok(e) ==> e.request_params == request_params && e.exchange.request == request
                && e.exchange.response == response,
            trailing_key matches Some(k) ==> r matches Err(EntryError::UnknownField(name)) && name@ == k@,
    {
        match trailing_key {
            Some(k) => Err(EntryError::UnknownField(k)),
            None => Ok(Entry { request_params, exchange: Exchange { request, response } }),
        }
    }

    /// Decodes one archive entry from its fields, given in the order in
    /// which they stand as keys with the JSON text of their values. The
    /// first field must be `request`; the request's parameters are recovered
    /// from it; the second must be `response`, read in the shape that those
    /// parameters call for; no third field may follow. A value that `reader`
    /// cannot read fails with its message.
    pub fn decode<R: FieldReader>(fields: &Vec<(String, String)>, reader: &R) -> (r: Result<Self, EntryError>)
        ensures
            decoded(fields@, r),
    {
        let n = fields.len();
        let first = if n > 0 {
            Some(fields[0].0.clone())
        } else {
            None
        };
        expect_field(first, Field::Request)?;
        let request = read_or_custom(reader.read_request(fields[0].1.as_str()))?;
        let request_params = Self::request_params(&request)?;
        let second = if n > 1 {
            Some(fields[1].0.clone())
        } else {
            None
        };
        expect_field(second, Field::Response)?;
        let raw = read_or_custom(reader.read_response(fields[1].1.as_str()))?;
        let response = Self::response(&request_params, raw)?;
        let trailing = if n > 2 {
            Some(fields[2].0.clone())
        } else {
            None
        };
        Self::finish(trailing, request_params, request, response)
    }
}

} // verus!
