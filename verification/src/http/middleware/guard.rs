//! A guard on the value of a header, whatever the case of its letters.

use crate::http::utils::{all_visible, header_chars, header_text};
use vstd::prelude::*;
use vstd::utf8::encode_utf8;

verus! {

/// `str::to_lowercase`: the text in lower case. Which characters that changes, and into what, is
/// the standard library's knowledge of Unicode and is not stated.
pub uninterp spec fn lowercase(s: Seq<char>) -> Seq<char>;

/// `str::to_lowercase`.
#[verifier::external_body]
fn to_lowercase(s: &str) -> (r: String)
    ensures
        r@ == lowercase(s@),
{
    s.to_lowercase()
}

/// Whether a byte may stand in the value of a header.
pub open spec fn header_byte(b: u8) -> bool {
    (b >= 32 && b != 127) || b == 9
}

/// Whether `s` may be the value of a header.
pub open spec fn header_value(s: Seq<char>) -> bool {
    forall|i: int| 0 <= i < encode_utf8(s).len() ==> header_byte(#[trigger] encode_utf8(s)[i])
}

fn is_header_value(s: &str) -> (r: bool)
    ensures
        r == header_value(s@),
{
    let bytes = s.as_bytes();
    let mut i: usize = 0;
    while i < bytes.len()
        invariant
            i <= bytes@.len(),
            bytes@ == encode_utf8(s@),
            forall|j: int| 0 <= j < i ==> header_byte(#[trigger] encode_utf8(s@)[j]),
        decreases bytes@.len() - i,
    {
        let b: u8 = bytes[i];
        if !((b >= 32 && b != 127) || b == 9) {
            assert(!header_byte(encode_utf8(s@)[i as int]));
            return false;
        }
        i = i + 1;
    }
    true
}

/// The header that is looked at, and the value that it is to have, in lower case.
pub struct HeaderGuardInsensitive {
    pub name: String,
    pub value: String,
}

/// A guard that lets a request through where its header `name` is `value`, whatever the case of
/// its letters. There is none for what cannot be the value of a header.
pub fn header_insensitive(name: String, value: &str) -> (r: Option<HeaderGuardInsensitive>)
    ensures
        if header_value(lowercase(value@)) {
            r matches Some(g) && g.name == name && g.value@ == lowercase(value@)
        } else {
            r is None
        },
{
    let value_low = to_lowercase(value);
    // Check if valid
    if !is_header_value(value_low.as_str()) {
        return None;
    }
    Some(HeaderGuardInsensitive { name, value: value_low })
}

/// Whether a header of `header` is let through, where `low` is its text in lower case.
pub open spec fn let_through(header: Option<Seq<u8>>, low: Seq<char>, wanted: Seq<char>) -> bool {
    header matches Some(bytes) && all_visible(bytes) && low == wanted
}

impl HeaderGuardInsensitive {
    /// Whether a text in lower case is the value that is wanted.
    pub fn matches(&self, low: &String) -> (r: bool)
        ensures
            r == (low@ == self.value@),
    {
        *low == self.value
    }

    /// Whether a request is let through, where `header` are the bytes of the header that is
    /// looked at, if it has one.
    pub fn check(&self, header: Option<&[u8]>) -> (r: bool)
        ensures
            r == match header {
                Some(bytes) => let_through(
                    Some(bytes@),
                    lowercase(header_chars(bytes@)),
                    self.value@,
                ),
                None => false,
            },
    {
        if let Some(bytes) = header {
            if let Some(text) = header_text(bytes) {
                return self.matches(&to_lowercase(text.as_str()));
            }
        }
        false
    }
}

} // verus!
