//! Recorded responses and request/response pairs.
use crate::multi_value::MultiValue;
use crate::client::{ascii_chars, ascii_text};
use crate::request::Request;
use http::header::{InvalidHeaderValue, ToStrError};
use url::ParseError as UrlParseError;
use vstd::prelude::*;

verus! {

/// `http::header::ToStrError`, carried through as an error.
#[verifier::external_type_specification]
#[verifier::external_body]
pub struct ExToStrError(ToStrError);

/// Why an exchange could not be built.
#[derive(Debug)]
pub enum Error {
    UrlParse(UrlParseError),
    RequestHeaderValue(InvalidHeaderValue),
    ResponseHeaderValue(ToStrError),
}

/// A recorded request together with its response.
pub struct Exchange<T> {
    pub request: Request,
    pub response: Response<T>,
}

/// A recorded response: its header value sets by name, and its payload.
pub struct Response<T> {
    pub headers: Vec<(String, MultiValue)>,
    pub data: T,
}

/// The decimal text of an integer, with a leading minus sign when negative.
pub open spec fn decimal(n: int) -> Seq<char> {
    if n < 0 {
        seq!['-'] + digits((-n) as nat)
    } else {
        digits(n as nat)
    }
}

/// The decimal digits of a natural number, without leading zeros.
pub open spec fn digits(n: nat) -> Seq<char>
    decreases n,
{
    if n < 10 {
        seq![digit(n)]
    } else {
        digits(n / 10).push(digit(n % 10))
    }
}

/// The character of a decimal digit.
pub open spec fn digit(d: nat) -> char {
    if d < 10 {
        ((d + '0' as nat) as u8) as char
    } else {
        '?'
    }
}

/// The suffix of every archive file name.
pub open spec fn archive_suffix() -> Seq<char> {
    seq!['.', 'j', 's', 'o', 'n']
}

/// The name of the file that holds an exchange recorded at `timestamp_ms`.
pub open spec fn archive_file_name(timestamp_ms: i64) -> Seq<char> {
    decimal(timestamp_ms as int) + archive_suffix()
}

/// The decimal text of `n`, with a leading minus sign when negative.
fn millis_text(n: i64) -> (r: String)
    ensures
        r@ == decimal(n as int),
{
    let negative = n < 0;
    let wide: i128 = n as i128;
    let mut m: u64 = if negative {
        (0 - wide) as u64
    } else {
        n as u64
    };
    let ghost total: nat = m as nat;
    // The digits, least significant first.
    let mut low_first: Vec<u8> = Vec::new();
    while m >= 10
        invariant
            digits(total) == digits(m as nat) + ascii_chars(low_first@).reverse(),
            forall|j: int| 0 <= j < low_first@.len() ==> #[trigger] low_first@[j] < 128,
        decreases m,
    {
        let d: u8 = (m % 10) as u8;
        let ghost before = ascii_chars(low_first@).reverse();
        low_first.push(d + 48);
        assert(ascii_chars(low_first@).reverse() =~= seq![digit((m % 10) as nat)] + before);
        assert(digits(m as nat) == digits((m / 10) as nat).push(digit((m % 10) as nat)));
        m = m / 10;
    }
    let ghost before = ascii_chars(low_first@).reverse();
    low_first.push((m as u8) + 48);
    assert(ascii_chars(low_first@).reverse() =~= seq![digit(m as nat)] + before);
    assert(digits(total) =~= ascii_chars(low_first@).reverse());
    let mut out: Vec<u8> = Vec::new();
    if negative {
        out.push(45);
    }
    let ghost sign: Seq<char> = if negative {
        seq!['-']
    } else {
        Seq::empty()
    };
    assert(ascii_chars(out@) =~= sign);
    let mut i: usize = low_first.len();
    while i > 0
        invariant
            i <= low_first@.len(),
            ascii_chars(out@) =~= sign + ascii_chars(low_first@).reverse().subrange(0, low_first@.len() - i),
            forall|j: int| 0 <= j < out@.len() ==> #[trigger] out@[j] < 128,
            forall|j: int| 0 <= j < low_first@.len() ==> #[trigger] low_first@[j] < 128,
        decreases i,
    {
        let ghost prior = ascii_chars(out@);
        out.push(low_first[i - 1]);
        assert(ascii_chars(out@) =~= prior.push(low_first@[i - 1] as char));
        assert(ascii_chars(low_first@).reverse().subrange(0, low_first@.len() - i + 1)
            =~= ascii_chars(low_first@).reverse().subrange(0, low_first@.len() - i).push(
            low_first@[i - 1] as char,
        ));
        i = i - 1;
    }
    assert(ascii_chars(low_first@).reverse().subrange(0, low_first@.len() as int) =~= ascii_chars(
        low_first@,
    ).reverse());
    ascii_text(&out)
}

impl<T> Exchange<T> {
    /// The same exchange with its payload transformed by `f`.
    pub fn map<U, F: FnOnce(T) -> U>(self, f: F) -> (r: Exchange<U>)
        requires
            f.requires((self.response.data,)),
        ensures
            r.request == self.request,
            r.response.headers == self.response.headers,
            f.ensures((self.response.data,), r.response.data),
    {
        Exchange { request: self.request, response: self.response.map(f) }
    }

    /// The name of the file in which this exchange is archived: the request's
    /// timestamp in epoch milliseconds, then `.json`. Two exchanges recorded
    /// in the same millisecond share it.
    pub fn file_name(&self) -> (r: String)
        ensures
            r@ == archive_file_name(self.request.timestamp_ms),
    {
        let mut name = millis_text(self.request.timestamp_ms);
        name.append(".json");
        proof {
            reveal_strlit(".json");
        }
        assert(name@ =~= archive_file_name(self.request.timestamp_ms));
        name
    }
}

impl<T> Response<T> {
    /// The same response with its payload transformed by `f`.
    pub fn map<U, F: FnOnce(T) -> U>(self, f: F) -> (r: Response<U>)
        requires
            f.requires((self.data,)),
        ensures
            r.headers == self.headers,
            f.ensures((self.data,), r.data),
    {
        Response { headers: self.headers, data: f(self.data) }
    }

    /// The same response with its payload transformed by `f`, or the
    /// failure of `f`.
    pub fn and_then<U, E, F: FnOnce(T) -> Result<U, E>>(self, f: F) -> (r: Result<Response<U>, E>)
        requires
            f.requires((self.data,)),
        ensures
            match r {
                Ok(resp) => resp.headers == self.headers && f.ensures((self.data,), Ok::<U, E>(resp.data)),
                Err(e) => f.ensures((self.data,), Err::<U, E>(e)),
            },
    {
        match f(self.data) {
            Ok(data) => Ok(Response { headers: self.headers, data }),
            Err(e) => Err(e),
        }
    }
}

} // verus!
