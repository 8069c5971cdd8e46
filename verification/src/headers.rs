//! Request headers, as the HTTP crate holds them.
use vstd::prelude::*;

verus! {

/// The header map of the HTTP crate.
#[verifier::external_type_specification]
#[verifier::external_body]
#[verifier::reject_recursive_types(T)]
pub struct ExHeaderMap<T>(http::HeaderMap<T>);

/// The header value of the HTTP crate.
#[verifier::external_type_specification]
#[verifier::external_body]
pub struct ExHeaderValue(http::HeaderValue);

/// What a header map holds: under each lowercase name, the bytes of its values
/// in their order.
pub uninterp spec fn header_values(headers: http::HeaderMap<http::HeaderValue>) -> Map<
    Seq<char>,
    Seq<Seq<u8>>,
>;

pub open spec fn lower(c: char) -> char {
    if 'A' <= c && c <= 'Z' {
        (c as int + 32) as char
    } else {
        c
    }
}

/// A text with its ASCII letters in lower case.
pub open spec fn lowered(s: Seq<char>) -> Seq<char> {
    s.map_values(|c: char| lower(c))
}

/// A byte that a header value may show as text.
pub open spec fn visible(b: u8) -> bool {
    32 <= b < 127 || b == 9
}

pub open spec fn visible_bytes(value: Seq<u8>) -> bool {
    forall|i: int| 0 <= i < value.len() ==> visible(#[trigger] value[i])
}

/// The text that visible bytes show.
pub open spec fn shown(value: Seq<u8>) -> Seq<char> {
    value.map_values(|b: u8| b as char)
}

/// The text of the first value of a name, where there is one and it is visible
/// ASCII.
pub open spec fn first_visible(values: Map<Seq<char>, Seq<Seq<u8>>>, name: Seq<char>) -> Option<
    Seq<char>,
> {
    let key = lowered(name);
    if values.dom().contains(key) && values[key].len() > 0 && visible_bytes(values[key][0]) {
        Some(shown(values[key][0]))
    } else {
        None
    }
}

/// A byte that a header value may hold.
pub open spec fn header_byte(b: u8) -> bool {
    (b >= 32 && b != 127) || b == 9
}

/// A text that can stand as the value of a header.
pub open spec fn header_text(s: Seq<char>) -> bool {
    forall|i: int|
        0 <= i < crate::text::bytes_of(s).len() ==> header_byte(
            #[trigger] crate::text::bytes_of(s)[i],
        )
}

/// `http::HeaderValue::from_str`: whether it accepts the text. It does where no
/// byte is a control character other than a tab.
#[verifier::external_body]
pub(crate) fn is_header_text(s: &str) -> (r: bool)
    ensures
        r == header_text(s@),
{
    http::HeaderValue::from_str(s).is_ok()
}

/// `http::HeaderMap::get_all`: the bytes of the values of the name, whose case
/// does not matter, in their order.
#[verifier::external_body]
pub(crate) fn all_values(headers: &http::HeaderMap<http::HeaderValue>, name: &str) -> (r: Vec<
    Vec<u8>,
>)
    ensures
        byte_views(r@) == values_of(header_values(*headers), name@),
{
    headers.get_all(name).iter().map(|value| value.as_bytes().to_vec()).collect()
}

pub open spec fn byte_views(values: Seq<Vec<u8>>) -> Seq<Seq<u8>> {
    values.map_values(|value: Vec<u8>| value@)
}

/// The values under a name, in whatever case it is written.
pub open spec fn values_of(values: Map<Seq<char>, Seq<Seq<u8>>>, name: Seq<char>) -> Seq<Seq<u8>> {
    let key = lowered(name);
    if values.dom().contains(key) {
        values[key]
    } else {
        Seq::empty()
    }
}

/// `http::HeaderMap::get`, then `http::HeaderValue::to_str`: the first value of
/// the name, whose case does not matter, where all its bytes are visible ASCII
/// or tabs. A name that no header can have finds nothing.
#[verifier::external_body]
pub(crate) fn header<'a>(headers: &'a http::HeaderMap<http::HeaderValue>, name: &str) -> (r: Option<
    &'a str,
>)
    ensures
        match r {
            Some(text) => first_visible(header_values(*headers), name@) == Some(text@),
            None => first_visible(header_values(*headers), name@) is None,
        },
{
    headers.get(name).and_then(|value| value.to_str().ok())
}

/// Names of headers are the same whatever their case: lowering them once is enough, and only
/// letters change.
pub proof fn law_header_names_have_no_case(s: Seq<char>, i: int)
    requires
        0 <= i < s.len(),
    ensures
        lowered(lowered(s)) == lowered(s),
        lowered(s).len() == s.len(),
        !('A' <= lowered(s)[i] && lowered(s)[i] <= 'Z'),
        'A' <= s[i] && s[i] <= 'Z' ==> lowered(s)[i] as int == s[i] as int + 32,
        !('A' <= s[i] && s[i] <= 'Z') ==> lowered(s)[i] == s[i],
{
    assert(lowered(lowered(s)) =~= lowered(s));
}

/// Of a header only the first value is read, and only if all of it can be shown; one that is
/// not there says nothing.
pub proof fn law_headers_are_read_by_their_first_value(
    values: Map<Seq<char>, Seq<Seq<u8>>>,
    name: Seq<char>,
)
    ensures
        first_visible(values, name) is Some ==> values_of(values, name).len() > 0 && first_visible(
            values,
            name,
        )->0.len() == values_of(values, name)[0].len(),
        values_of(values, name).len() == 0 ==> first_visible(values, name) is None,
        values_of(values, name).len() > 0 && (exists|i: int|
            0 <= i < values_of(values, name)[0].len() && (#[trigger] values_of(values, name)[0][i]
                >= 127)) ==> first_visible(values, name) is None,
{
    if values_of(values, name).len() > 0 && (exists|i: int|
        0 <= i < values_of(values, name)[0].len() && (#[trigger] values_of(values, name)[0][i]
            >= 127)) {
        let i = choose|i: int|
            0 <= i < values_of(values, name)[0].len() && (#[trigger] values_of(values, name)[0][i]
                >= 127);
        assert(!visible(values_of(values, name)[0][i]));
    }
}

} // verus!
