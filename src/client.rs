//! Turning the headers of a live response into recorded header value sets.
use crate::multi_value::MultiValue;
use crate::request::pair_views;
use vstd::prelude::*;

verus! {

/// The views of recorded header value sets, by name.
pub open spec fn group_views(groups: Seq<(String, MultiValue)>) -> Seq<(Seq<char>, Seq<Seq<char>>)> {
    groups.map_values(|g: (String, MultiValue)| (g.0@, g.1@))
}

/// Whether `i` is the first position of `groups` that holds `name`.
pub open spec fn first_with(groups: Seq<(Seq<char>, Seq<Seq<char>>)>, name: Seq<char>, i: int) -> bool {
    &&& 0 <= i < groups.len()
    &&& groups[i].0 == name
    &&& forall|j: int| 0 <= j < i ==> groups[j].0 != name
}

/// Header name and value pairs grouped by name: each name once, where it
/// first appeared, with all of its values in the order they came.
pub open spec fn grouped(pairs: Seq<(Seq<char>, Seq<char>)>) -> Seq<(Seq<char>, Seq<Seq<char>>)>
    decreases pairs.len(),
{
    if pairs.len() == 0 {
        Seq::empty()
    } else {
        let g = grouped(pairs.drop_last());
        let name = pairs.last().0;
        let value = pairs.last().1;
        if exists|i: int| first_with(g, name, i) {
            let i = choose|i: int| first_with(g, name, i);
            g.update(i, (name, g[i].1.push(value)))
        } else {
            g.push((name, seq![value]))
        }
    }
}

/// A byte that may stand in a header value's text: visible ASCII, a space
/// or a tab.
pub open spec fn visible_ascii(b: u8) -> bool {
    (32 <= b && b < 127) || b == 9
}

/// Whether every byte of a header value may stand in its text.
pub open spec fn all_visible_ascii(bytes: Seq<u8>) -> bool {
    forall|i: int| 0 <= i < bytes.len() ==> visible_ascii(#[trigger] bytes[i])
}

/// The characters of ASCII bytes, one for each.
pub open spec fn ascii_chars(bytes: Seq<u8>) -> Seq<char> {
    bytes.map_values(|b: u8| b as char)
}

/// The names of header pairs paired with the texts of their values.
pub open spec fn texts_of(headers: Seq<(String, Vec<u8>)>) -> Seq<(Seq<char>, Seq<char>)> {
    headers.map_values(|h: (String, Vec<u8>)| (h.0@, ascii_chars(h.1@)))
}

/// Whether every value of the header pairs may stand as text.
pub open spec fn all_values_visible(headers: Seq<(String, Vec<u8>)>) -> bool {
    forall|i: int| 0 <= i < headers.len() ==> all_visible_ascii(#[trigger] headers[i].1@)
}

/// Relies on `String::from_utf8`, which keeps valid UTF-8 as it is; bytes
/// below 128 are valid UTF-8, each the character of its own code.
#[verifier::external_body]
pub(crate) fn ascii_text(bytes: &Vec<u8>) -> (r: String)
    requires
        forall|i: int| 0 <= i < bytes@.len() ==> #[trigger] bytes@[i] < 128,
    ensures
        r@ == ascii_chars(bytes@),
{
    String::from_utf8(bytes.clone()).unwrap_or_default()
}

/// The text of a header value given by its bytes, as `HeaderValue::to_str`
/// gives it: the bytes as characters where every byte is visible ASCII, a
/// space or a tab; `None` otherwise.
pub fn header_value_text(bytes: &Vec<u8>) -> (r: Option<String>)
    ensures
        r is Some <==> all_visible_ascii(bytes@),
        r matches Some(t) ==> t@ == ascii_chars(bytes@),
{
    let mut i: usize = 0;
    while i < bytes.len()
        invariant
            i <= bytes@.len(),
            forall|j: int| 0 <= j < i ==> visible_ascii(#[trigger] bytes@[j]),
        decreases bytes@.len() - i,
    {
        let b = bytes[i];
        if !((32 <= b && b < 127) || b == 9) {
            assert(!visible_ascii(bytes@[i as int]));
            return None;
        }
        i = i + 1;
    }
    Some(ascii_text(bytes))
}

/// Why the headers of a live response could not be recorded.
#[derive(Clone, Debug, PartialEq, Eq)]
pub struct HeaderTextError {
    /// The name of the first header whose value is not visible ASCII text.
    pub name: String,
}

/// Whether no name stands twice among the groups.
pub open spec fn names_unique(groups: Seq<(Seq<char>, Seq<Seq<char>>)>) -> bool {
    forall|i: int, j: int| 0 <= i < j < groups.len() ==> #[trigger] groups[i].0 != #[trigger] groups[j].0
}

/// Groups header name and text pairs by name, keeping the order in which the
/// names first appear and, for each name, the order of its values.
pub fn group_headers(pairs: Vec<(String, String)>) -> (r: Vec<(String, MultiValue)>)
    ensures
        group_views(r@) == grouped(pair_views(pairs@)),
        names_unique(group_views(r@)),
{
    let mut out: Vec<(String, MultiValue)> = Vec::new();
    let mut i: usize = 0;
    while i < pairs.len()
        invariant
            i <= pairs@.len(),
            group_views(out@) == grouped(pair_views(pairs@.subrange(0, i as int))),
            names_unique(group_views(out@)),
        decreases pairs@.len() - i,
    {
        let name = pairs[i].0.clone();
        let value = pairs[i].1.clone();
        let ghost g = group_views(out@);
        let ghost done = pair_views(pairs@.subrange(0, i + 1));
        assert(done.drop_last() =~= pair_views(pairs@.subrange(0, i as int)));
        assert(done.last() == (name@, value@));
        let mut j: usize = 0;
        while j < out.len() && !(out[j].0 == name)
            invariant
                j <= out@.len(),
                g == group_views(out@),
                forall|k: int| 0 <= k < j ==> g[k].0 != name@,
            decreases out@.len() - j,
        {
            j = j + 1;
        }
        if j < out.len() {
            assert(first_with(g, name@, j as int));
            assert forall|k: int| first_with(g, name@, k) implies k == j by {
                if k < j {
                    assert(g[k].0 != name@);
                } else if k > j {
                    assert(g[j as int].0 == name@);
                }
            }
            let (key, mut values) = out.remove(j);
            let ghost before = values@;
            values.push(value);
            out.insert(j, (key, values));
            assert(group_views(out@) =~= g.update(j as int, (name@, before.push(value@))));
        } else {
            assert(!exists|k: int| first_with(g, name@, k));
            let ghost vv = value@;
            out.push((name, MultiValue::new(value)));
            assert(group_views(out@) =~= g.push((name@, seq![vv])));
        }
        i = i + 1;
    }
    assert(pairs@.subrange(0, pairs@.len() as int) =~= pairs@);
    out
}

/// The recorded header value sets of a live response's headers, given as
/// names with the bytes of their values, in the order the response holds
/// them. Fails, naming the first offending header, exactly where a value is
/// not visible ASCII text.
pub fn response_headers_to_index_map(headers: Vec<(String, Vec<u8>)>) -> (r: Result<
    Vec<(String, MultiValue)>,
    HeaderTextError,
>)
    ensures
        r is Ok <==> all_values_visible(headers@),
        r matches Ok(groups) ==> group_views(groups@) == grouped(texts_of(headers@)) && names_unique(
            group_views(groups@),
        ),
        r matches Err(e) ==> exists|i: int|
            0 <= i < headers@.len() && !all_visible_ascii(#[trigger] headers@[i].1@) && e.name@ == headers@[i].0@,
{
    let mut texts: Vec<(String, String)> = Vec::new();
    let mut i: usize = 0;
    while i < headers.len()
        invariant
            i <= headers@.len(),
            texts@.len() == i,
            forall|j: int| 0 <= j < i ==> all_visible_ascii(#[trigger] headers@[j].1@),
            pair_views(texts@) =~= texts_of(headers@.subrange(0, i as int)),
        decreases headers@.len() - i,
    {
        let text = match header_value_text(&headers[i].1) {
            Some(t) => t,
            None => {
                return Err(HeaderTextError { name: headers[i].0.clone() });
            },
        };
        let ghost prior = pair_views(texts@);
        texts.push((headers[i].0.clone(), text));
        assert(pair_views(texts@) =~= prior.push((headers@[i as int].0@, ascii_chars(headers@[i as int].1@))));
        assert(headers@.subrange(0, i + 1) =~= headers@.subrange(0, i as int).push(headers@[i as int]));
        i = i + 1;
    }
    assert(headers@.subrange(0, headers@.len() as int) =~= headers@);
    let groups = group_headers(texts);
    Ok(groups)
}

} // verus!
