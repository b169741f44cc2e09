//! The backlog query as it travels in a tracker request URL.
use vstd::prelude::*;

use vstd::string::StringSliceAdditionalSpecFns;

verus! {

/// Bytes that form encoding keeps as they are.
pub open spec fn form_unchanged(b: u8) -> bool {
    b == 42 || b == 45 || b == 46 || (48 <= b <= 57) || (65 <= b <= 90) || b == 95 || (97 <= b
        <= 122)
}

/// An upper-case hexadecimal digit.
pub open spec fn hex_upper(d: int) -> char {
    if d < 10 {
        (48 + d) as u8 as char
    } else {
        (55 + d) as u8 as char
    }
}

/// The form encoding of one byte.
pub open spec fn form_byte(b: u8) -> Seq<char> {
    if form_unchanged(b) {
        seq![b as char]
    } else if b == 32 {
        seq!['+']
    } else {
        seq!['%', hex_upper(b as int / 16), hex_upper(b as int % 16)]
    }
}

/// The `application/x-www-form-urlencoded` form of a byte string.
pub open spec fn form_encoded(bs: Seq<u8>) -> Seq<char>
    decreases bs.len(),
{
    if bs.len() == 0 {
        seq![]
    } else {
        form_encoded(bs.drop_last()) + form_byte(bs.last())
    }
}

/// Relies on `url::form_urlencoded::byte_serialize`: the form encoding of the UTF-8
/// bytes of `q`, as its documentation and source give it.
#[verifier::external_body]
fn form_urlencode(q: &str) -> (r: String)
    ensures
        r@ == form_encoded(q.spec_bytes()),
{
    url::form_urlencoded::byte_serialize(q.as_bytes()).collect()
}

/// The backlog query, encoded to stand in a tracker request URL.
pub fn backlog_query_param(query: &str) -> (r: String)
    ensures
        r@ == form_encoded(query.spec_bytes()),
{
    form_urlencode(query)
}

} // verus!
