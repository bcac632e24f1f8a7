//! A recorded outbound HTTP request.
use http::header::{HeaderName, HeaderValue, InvalidHeaderName, InvalidHeaderValue};
use indexmap::IndexMap;
use url::ParseError as UrlParseError;
use vstd::prelude::*;

pub mod params;

verus! {

/// `url::ParseError`, carried through as the reason a URL was refused.
#[verifier::external_type_specification]
#[verifier::external_body]
pub struct ExUrlParseError(UrlParseError);

/// `http::header::HeaderName`, a header name ready for sending.
#[verifier::external_type_specification]
#[verifier::external_body]
pub struct ExHeaderName(HeaderName);

/// `http::header::HeaderValue`, a header value ready for sending.
#[verifier::external_type_specification]
#[verifier::external_body]
pub struct ExHeaderValue(HeaderValue);

/// `http::header::InvalidHeaderName`, carried through as an error.
#[verifier::external_type_specification]
#[verifier::external_body]
pub struct ExInvalidHeaderName(InvalidHeaderName);

/// `http::header::InvalidHeaderValue`, carried through as an error.
#[verifier::external_type_specification]
#[verifier::external_body]
pub struct ExInvalidHeaderValue(InvalidHeaderValue);

/// `indexmap::IndexMap`, the ordered mapping that holds a request's headers.
#[verifier::external_type_specification]
#[verifier::external_body]
#[verifier::reject_recursive_types(K)]
#[verifier::reject_recursive_types(V)]
#[verifier::reject_recursive_types(S)]
pub struct ExIndexMap<K, V, S>(IndexMap<K, V, S>);

/// What `url::Url::parse` makes of a text: the serialization of the parsed
/// URL, or `None` where the text is not a valid absolute URL.
pub uninterp spec fn parsed_url(s: Seq<char>) -> Option<Seq<char>>;

/// Whether `http::header::HeaderName` accepts a text as a header name.
pub uninterp spec fn header_name_accepted(s: Seq<char>) -> bool;

/// The entries of an ordered header mapping, in order.
pub uninterp spec fn header_entries(m: IndexMap<String, String>) -> Seq<(Seq<char>, Seq<char>)>;

/// A character that may stand in a header value: visible, a space, a tab, or
/// anything beyond ASCII (whose UTF-8 bytes are all above 127).
pub open spec fn header_value_char(c: char) -> bool {
    (c as u32 >= 32 && c as u32 != 127) || c == '\t'
}

/// Whether a text is a valid header value.
pub open spec fn header_value_valid(s: Seq<char>) -> bool {
    forall|i: int| 0 <= i < s.len() ==> header_value_char(#[trigger] s[i])
}

/// Relies on `url::Url::parse`, and on `Url::as_str` for the serialization of
/// the parsed URL.
#[verifier::external_body]
fn parse_url(s: &str) -> (r: Result<String, UrlParseError>)
    ensures
        match r {
            Ok(u) => parsed_url(s@) == Some(u@),
            Err(_) => parsed_url(s@) is None,
        },
{
    url::Url::parse(s).map(|u| u.as_str().to_string())
}

/// Relies on chrono's conversion from `std::time::SystemTime` to
/// `DateTime<Utc>`, which also takes times before the epoch, and on
/// `timestamp_millis`: the current time in epoch milliseconds.
#[verifier::external_body]
fn now_millis() -> (r: i64) {
    chrono::DateTime::<chrono::Utc>::from(std::time::SystemTime::now()).timestamp_millis()
}

/// Relies on `HeaderName::try_from(&str)`: a name is made exactly when the
/// text is accepted.
#[verifier::external_body]
fn header_name(s: &str) -> (r: Result<HeaderName, InvalidHeaderName>)
    ensures
        r is Ok <==> header_name_accepted(s@),
{
    HeaderName::try_from(s)
}

/// Relies on `HeaderValue::try_from(&str)`, which accepts a text exactly
/// when each of its bytes is a tab, or at least 32 and not 127.
#[verifier::external_body]
fn header_value(s: &str) -> (r: Result<HeaderValue, InvalidHeaderValue>)
    ensures
        r is Ok <==> header_value_valid(s@),
{
    HeaderValue::try_from(s)
}

/// Relies on `IndexMap::new`: a new map is empty.
#[verifier::external_body]
fn header_entries_new() -> (r: IndexMap<String, String>)
    ensures
        header_entries(r) == Seq::<(Seq<char>, Seq<char>)>::empty(),
{
    IndexMap::new()
}

/// Relies on `IndexMap::insert`: an equal key keeps its place and takes the
/// new value; a new key goes last.
#[verifier::external_body]
fn header_entries_insert(m: &mut IndexMap<String, String>, key: String, value: String)
    ensures
        header_entries(*final(m)) == inserted(header_entries(*old(m)), key@, value@),
{
    m.insert(key, value);
}

/// Relies on `IndexMap::len`: the number of entries.
#[verifier::external_body]
fn header_entries_len(m: &IndexMap<String, String>) -> (r: usize)
    ensures
        r == header_entries(*m).len(),
{
    m.len()
}

/// Relies on `IndexMap::get_index`: the entry at a position.
#[verifier::external_body]
fn header_entry_at(m: &IndexMap<String, String>, i: usize) -> (r: (&String, &String))
    requires
        i < header_entries(*m).len(),
    ensures
        (r.0@, r.1@) == header_entries(*m)[i as int],
{
    m.get_index(i).unwrap()
}

/// The position of the entry with key `key`, if there is one.
pub open spec fn key_position(entries: Seq<(Seq<char>, Seq<char>)>, key: Seq<char>) -> Option<int>
    decreases entries.len(),
{
    if entries.len() == 0 {
        None
    } else if entries.last().0 == key {
        match key_position(entries.drop_last(), key) {
            Some(i) => Some(i),
            None => Some(entries.len() - 1),
        }
    } else {
        key_position(entries.drop_last(), key)
    }
}

/// The entries after `key` is set to `value`: in place where the key is
/// present, last where it is new.
pub open spec fn inserted(entries: Seq<(Seq<char>, Seq<char>)>, key: Seq<char>, value: Seq<char>)
    -> Seq<(Seq<char>, Seq<char>)>
{
    match key_position(entries, key) {
        Some(i) => entries.update(i, (key, value)),
        None => entries.push((key, value)),
    }
}

/// The entries made by setting each pair of `pairs` in turn.
pub open spec fn inserted_all(pairs: Seq<(Seq<char>, Seq<char>)>) -> Seq<(Seq<char>, Seq<char>)>
    decreases pairs.len(),
{
    if pairs.len() == 0 {
        Seq::empty()
    } else {
        let last = pairs.last();
        inserted(inserted_all(pairs.drop_last()), last.0, last.1)
    }
}

/// The views of a list of name and value pairs.
pub open spec fn pair_views(pairs: Seq<(String, String)>) -> Seq<(Seq<char>, Seq<char>)> {
    pairs.map_values(|p: (String, String)| (p.0@, p.1@))
}

/// Why a recorded request's headers could not be made ready for sending.
#[derive(Debug)]
pub enum HeaderError {
    Name(InvalidHeaderName),
    Value(InvalidHeaderValue),
}

/// The method a request has when none is given.
pub open spec fn default_method() -> Seq<char> {
    seq!['G', 'E', 'T']
}

/// A recorded outbound HTTP request.
///
/// The URL is held as the serialization of a parsed absolute URL, the
/// timestamp as epoch milliseconds, the method by its name, and the headers
/// in insertion order with one value per name.
pub struct Request {
    pub url: String,
    pub timestamp_ms: i64,
    pub method: String,
    pub headers: IndexMap<String, String>,
    pub body: Option<String>,
}

/// Whether every entry before position `n` has an accepted name and a valid
/// value.
pub open spec fn headers_valid_before(entries: Seq<(Seq<char>, Seq<char>)>, n: int) -> bool {
    forall|i: int|
        0 <= i < n ==> header_name_accepted(#[trigger] entries[i].0) && header_value_valid(entries[i].1)
}

impl Request {
    /// The headers as name and value pairs ready for sending, in order.
    /// Fails at the first entry whose name or value is not valid in HTTP,
    /// telling which of the two it was.
    pub fn header_map(&self) -> (r: Result<Vec<(HeaderName, HeaderValue)>, HeaderError>)
        ensures
            r is Ok <==> headers_valid_before(header_entries(self.headers), header_entries(self.headers).len() as int),
            r matches Ok(v) ==> v@.len() == header_entries(self.headers).len(),
            r matches Err(HeaderError::Name(_)) ==> exists|i: int|
                0 <= i < header_entries(self.headers).len() && headers_valid_before(header_entries(self.headers), i)
                    && !header_name_accepted(#[trigger] header_entries(self.headers)[i].0),
            r matches Err(HeaderError::Value(_)) ==> exists|i: int|
                0 <= i < header_entries(self.headers).len() && headers_valid_before(header_entries(self.headers), i)
                    && header_name_accepted(#[trigger] header_entries(self.headers)[i].0)
                    && !header_value_valid(header_entries(self.headers)[i].1),
    {
        let ghost entries = header_entries(self.headers);
        let n = header_entries_len(&self.headers);
        let mut out: Vec<(HeaderName, HeaderValue)> = Vec::new();
        let mut i: usize = 0;
        while i < n
            invariant
                n == entries.len(),
                entries == header_entries(self.headers),
                i <= n,
                out@.len() == i,
                headers_valid_before(entries, i as int),
            decreases n - i,
        {
            let (key, value) = header_entry_at(&self.headers, i);
            let name = match header_name(key.as_str()) {
                Ok(name) => name,
                Err(e) => {
                    assert(key@ == entries[i as int].0);
                    assert(!header_name_accepted(entries[i as int].0));
                    assert(!headers_valid_before(entries, entries.len() as int));
                    return Err(HeaderError::Name(e));
                },
            };
            let value = match header_value(value.as_str()) {
                Ok(value) => value,
                Err(e) => {
                    assert(value@ == entries[i as int].1);
                    assert(!header_value_valid(entries[i as int].1));
                    assert(header_name_accepted(entries[i as int].0));
                    assert(!headers_valid_before(entries, entries.len() as int));
                    return Err(HeaderError::Value(e));
                },
            };
            out.push((name, value));
            assert(header_name_accepted(entries[i as int].0) && header_value_valid(entries[i as int].1));
            i = i + 1;
        }
        Ok(out)
    }

    /// A request to `url`, with the given parts. The time defaults to now and
    /// the method to GET; no headers means none. Fails only where `url` is not
    /// a valid absolute URL.
    pub fn new(
        url: &str,
        timestamp_ms: Option<i64>,
        method: Option<String>,
        headers: Option<Vec<(String, String)>>,
        body: Option<String>,
    ) -> (r: Result<Self, UrlParseError>)
        ensures
            r is Ok <==> parsed_url(url@) is Some,
            r matches Ok(req) ==> {
                &&& parsed_url(url@) == Some(req.url@)
                &&& (timestamp_ms matches Some(t) ==> req.timestamp_ms == t)
                &&& req.method@ == match method {
                    Some(m) => m@,
                    None => default_method(),
                }
                &&& header_entries(req.headers) == match headers {
                    Some(h) => inserted_all(pair_views(h@)),
                    None => Seq::empty(),
                }
                &&& req.body == body
            },
    {
        let parsed = match parse_url(url) {
            Ok(u) => u,
            Err(e) => {
                return Err(e);
            },
        };
        let timestamp_ms = match timestamp_ms {
            Some(t) => t,
            None => now_millis(),
        };
        let method = match method {
            Some(m) => m,
            None => {
                let m = String::from_str("GET");
                proof {
                    reveal_strlit("GET");
                }
                assert(m@ =~= default_method());
                m
            },
        };
        let mut map = header_entries_new();
        match headers {
            Some(h) => {
                let mut i: usize = 0;
                while i < h.len()
                    invariant
                        i <= h@.len(),
                        header_entries(map) == inserted_all(pair_views(h@.subrange(0, i as int))),
                    decreases h@.len() - i,
                {
                    let k = h[i].0.clone();
                    let v = h[i].1.clone();
                    let ghost done = pair_views(h@.subrange(0, i + 1));
                    assert(done.drop_last() =~= pair_views(h@.subrange(0, i as int)));
                    assert(done.last() == (k@, v@));
                    header_entries_insert(&mut map, k, v);
                    i = i + 1;
                }
                assert(h@.subrange(0, h@.len() as int) =~= h@);
            },
            None => {},
        }
        Ok(Request { url: parsed, timestamp_ms, method, headers: map, body })
    }
}

} // verus!

verus! {

/// Whether `method` is GET, the method a request has when none is given.
pub fn is_method_get(method: &str) -> (r: bool)
    ensures
        r == (method@ == default_method()),
{
    if method.unicode_len() != 3 {
        return false;
    }
    let r = method.get_char(0) == 'G' && method.get_char(1) == 'E' && method.get_char(2) == 'T';
    assert(r ==> method@ =~= default_method());
    r
}

} // verus!
