//! The bodies of responses, and the text of headers.

use crate::utils::xprm::{payload, result_text, serialize_xprm_or_json, PayloadError};
use crate::xprm::value::Value;
use vstd::prelude::*;

verus! {

/// A page around `body`.
pub open spec fn page(body: Seq<char>) -> Seq<char> {
    "<html><head><meta charset=\"UTF-8\"></head><body>"@ + body + "</body></html>"@
}

/// A page around `body`.
pub fn http_ok_utf8(body: &str) -> (s: String)
    ensures
        s@ == page(body@),
{
    let mut s = "<html><head><meta charset=\"UTF-8\"></head><body>".to_owned();
    s.append(body);
    s.append("</body></html>");
    s
}

/// A response that carries a value.
pub struct Serialized {
    pub content_type: String,
    pub body: String,
}

/// The response that carries `value`, in XPrm notation or as `json`, what a JSON writer made of
/// the same value.
pub fn http_ok_serialize(is_xprm: bool, value: &Value, json: Result<String, String>) -> (r: Result<
    Serialized,
    PayloadError,
>)
    ensures
        match payload(is_xprm, value.tree(), result_text(json)) {
            Ok(text) => {
                &&& r matches Ok(s)
                &&& s.body@ == text
                &&& s.content_type@ == if is_xprm {
                    "application/xprm"@
                } else {
                    "application/json"@
                }
            },
            Err(fault) => r matches Err(e) && e@ == fault,
        },
{
    let body = serialize_xprm_or_json(is_xprm, value, json)?;
    Ok(
        Serialized {
            content_type: if is_xprm {
                "application/xprm".to_owned()
            } else {
                "application/json".to_owned()
            },
            body,
        },
    )
}

/// Whether a byte of a header stands for a visible character.
pub open spec fn visible(b: u8) -> bool {
    (32 <= b && b < 127) || b == 9
}

/// Whether every byte of a header stands for a visible character.
pub open spec fn all_visible(bytes: Seq<u8>) -> bool {
    forall|i: int| 0 <= i < bytes.len() ==> visible(#[trigger] bytes[i])
}

/// The characters that the bytes of a header stand for.
pub open spec fn header_chars(bytes: Seq<u8>) -> Seq<char> {
    bytes.map_values(|b: u8| b as char)
}

/// The text of a header, where every byte of it stands for a visible character.
pub fn header_text(bytes: &[u8]) -> (r: Option<String>)
    ensures
        match r {
            Some(s) => all_visible(bytes@) && s@ == header_chars(bytes@),
            None => !all_visible(bytes@),
        },
{
    let mut s = String::new();
    let mut i: usize = 0;
    assert(s@ =~= header_chars(bytes@.take(0)));
    while i < bytes.len()
        invariant
            i <= bytes@.len(),
            s@ == header_chars(bytes@.take(i as int)),
            forall|j: int| 0 <= j < i ==> visible(#[trigger] bytes@[j]),
        decreases bytes@.len() - i,
    {
        let b: u8 = bytes[i];
        if !((32 <= b && b < 127) || b == 9) {
            assert(!visible(bytes@[i as int]));
            return None;
        }
        s.push(b as char);
        assert(s@ =~= header_chars(bytes@.take(i + 1)));
        i = i + 1;
    }
    assert(bytes@.take(i as int) =~= bytes@);
    Some(s)
}

/// Whether the client asks for XPrm notation, where `accept` are the bytes of the header that
/// says what it accepts, if it has one.
pub fn is_xprm_accept(accept: Option<&[u8]>) -> (r: bool)
    ensures
        r == (accept matches Some(bytes) && all_visible(bytes@) && header_chars(bytes@)
            == "application/xprm"@),
{
    match accept {
        Some(bytes) => match header_text(bytes) {
            Some(text) => text == "application/xprm".to_owned(),
            None => false,
        },
        None => false,
    }
}

} // verus!
