//! Payloads: text in XPrm or in JSON notation.

use crate::xprm::ser::{emit, to_string, Error, Fault, State};
use crate::xprm::value::{Tree, Value};
use vstd::prelude::*;

verus! {

/// Why a payload cannot be written.
#[derive(Debug)]
#[non_exhaustive]
pub enum PayloadError {
    SerializeXPRM(Error),
    SerializeJSON(String),
}

/// Why a payload cannot be written.
pub enum PayloadFault {
    SerializeXPRM(Fault),
    SerializeJSON(Seq<char>),
}

impl View for PayloadError {
    type V = PayloadFault;

    open spec fn view(&self) -> PayloadFault {
        match self {
            PayloadError::SerializeXPRM(e) => PayloadFault::SerializeXPRM(e@),
            PayloadError::SerializeJSON(e) => PayloadFault::SerializeJSON(e@),
        }
    }
}

impl PayloadFault {
    /// What this fault says.
    pub open spec fn says(self) -> Seq<char> {
        match self {
            PayloadFault::SerializeXPRM(e) => e.says(),
            PayloadFault::SerializeJSON(e) => e,
        }
    }
}

impl PayloadError {
    /// What this error says.
    pub fn to_text(&self) -> (s: String)
        ensures
            s@ == self@.says(),
    {
        match self {
            PayloadError::SerializeXPRM(e) => e.message(),
            PayloadError::SerializeJSON(e) => e.clone(),
        }
    }

    /// The status of a response that reports this error.
    pub fn status_code(&self) -> (code: u16)
        ensures
            code == 500,
    {
        500
    }
}

/// The text of a payload: of `tree` in XPrm notation, or `json`, what a JSON writer made of it.
pub open spec fn payload(
    xprm: bool,
    tree: Tree,
    json: Result<Seq<char>, Seq<char>>,
) -> Result<Seq<char>, PayloadFault> {
    if xprm {
        let step = emit(State { key_mode: false, output: Seq::empty() }, tree);
        match step.fault {
            Some(fault) => Err(PayloadFault::SerializeXPRM(fault)),
            None => Ok(step.state.output),
        }
    } else {
        match json {
            Ok(text) => Ok(text),
            Err(e) => Err(PayloadFault::SerializeJSON(e)),
        }
    }
}

/// The texts in a result.
pub open spec fn result_text(r: Result<String, String>) -> Result<Seq<char>, Seq<char>> {
    match r {
        Ok(s) => Ok(s@),
        Err(s) => Err(s@),
    }
}

/// Whether `r` is the payload `p`.
pub open spec fn is_payload(
    r: Result<String, PayloadError>,
    p: Result<Seq<char>, PayloadFault>,
) -> bool {
    match p {
        Ok(text) => r matches Ok(s) && s@ == text,
        Err(fault) => r matches Err(e) && e@ == fault,
    }
}

/// The text of `value` in XPrm notation, or else `json`, what a JSON writer made of the same
/// value.
pub fn serialize_xprm_or_json(xprm: bool, value: &Value, json: Result<String, String>) -> (r:
    Result<String, PayloadError>)
    ensures
        is_payload(r, payload(xprm, value.tree(), result_text(json))),
{
    if xprm {
        match to_string(value) {
            Ok(text) => Ok(text),
            Err(e) => Err(PayloadError::SerializeXPRM(e)),
        }
    } else {
        match json {
            Ok(text) => Ok(text),
            Err(e) => Err(PayloadError::SerializeJSON(e)),
        }
    }
}

} // verus!
