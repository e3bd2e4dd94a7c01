//! The Core Web Vital report body: one metric observation, as emitted by the
//! web-vitals library.

use vstd::prelude::*;
use vstd::string::*;
use crate::errors::PipelineError;
use crate::json::{clone_json, Json, Jv};
use crate::report::{
    find_unique, get_bool, get_num, get_text, spec_count_key, spec_get_key, spec_has_bool,
    spec_has_num, spec_has_text, spec_num_of, spec_text_of,
};

verus! {

/// The body of a Core Web Vital metric report. `value` and `delta` keep
/// their numeric text as sent; `entries` is an arbitrary structured value.
pub struct ReportBody {
    pub name: Vec<u8>,
    pub value: Vec<u8>,
    pub delta: Vec<u8>,
    pub id: Vec<u8>,
    pub is_final: bool,
    pub entries: Json,
}

/// Whether `v` conforms to the Core Web Vital body schema: an object with
/// exactly one member for each field — `entries` of any shape, the wire name
/// of `is_final` being `isFinal`.
pub open spec fn spec_conforms(v: Jv) -> bool {
    match v {
        Jv::Obj(ms) => {
            &&& spec_has_text(ms, "name".spec_bytes())
            &&& spec_has_num(ms, "value".spec_bytes())
            &&& spec_has_num(ms, "delta".spec_bytes())
            &&& spec_has_text(ms, "id".spec_bytes())
            &&& spec_has_bool(ms, "isFinal".spec_bytes())
            &&& spec_count_key(ms, "entries".spec_bytes()) == 1
        },
        _ => false,
    }
}

/// What a conforming body's fields are.
pub open spec fn spec_body_ok(b: ReportBody, v: Jv) -> bool {
    let ms = v->Obj_0;
    &&& b.name@ == spec_text_of(ms, "name".spec_bytes())
    &&& b.value@ == spec_num_of(ms, "value".spec_bytes())
    &&& b.delta@ == spec_num_of(ms, "delta".spec_bytes())
    &&& b.id@ == spec_text_of(ms, "id".spec_bytes())
    &&& Jv::Boolean(b.is_final) == spec_get_key(ms, "isFinal".spec_bytes())->Some_0
    &&& b.entries.jv() == spec_get_key(ms, "entries".spec_bytes())->Some_0
}

impl ReportBody {
    /// Checks a report body against the Core Web Vital schema and extracts
    /// its fields. A non-conforming body fails with `ReportBodyMismatch`,
    /// isolated to that one report.
    pub fn from_json(v: &Json) -> (r: Result<ReportBody, PipelineError>)
        ensures
            match r {
                Ok(b) => spec_conforms(v.jv()) && spec_body_ok(b, v.jv()),
                Err(e) => !spec_conforms(v.jv()) && e == PipelineError::ReportBodyMismatch,
            },
    {
        let ms = match v {
            Json::Obj(members) => members,
            _ => {
                return Err(PipelineError::ReportBodyMismatch);
            },
        };
        let name = match get_text(ms, &"name".as_bytes_vec()) {
            Some(x) => x,
            None => {
                return Err(PipelineError::ReportBodyMismatch);
            },
        };
        let value = match get_num(ms, &"value".as_bytes_vec()) {
            Some(x) => x,
            None => {
                return Err(PipelineError::ReportBodyMismatch);
            },
        };
        let delta = match get_num(ms, &"delta".as_bytes_vec()) {
            Some(x) => x,
            None => {
                return Err(PipelineError::ReportBodyMismatch);
            },
        };
        let id = match get_text(ms, &"id".as_bytes_vec()) {
            Some(x) => x,
            None => {
                return Err(PipelineError::ReportBodyMismatch);
            },
        };
        let is_final = match get_bool(ms, &"isFinal".as_bytes_vec()) {
            Some(x) => x,
            None => {
                return Err(PipelineError::ReportBodyMismatch);
            },
        };
        let entries = match find_unique(ms, &"entries".as_bytes_vec()) {
            Some(e) => clone_json(e),
            None => {
                return Err(PipelineError::ReportBodyMismatch);
            },
        };
        Ok(ReportBody { name, value, delta, id, is_final, entries })
    }
}

} // verus!
