//! The Network Error Logging report body, as defined by the W3C NEL
//! specification: the details of a network error in a given phase.

use vstd::prelude::*;
use vstd::string::*;
use crate::errors::PipelineError;
use crate::json::{Json, Jv};
use crate::report::{
    get_i32, get_num, get_text, spec_has_i32, spec_has_num, spec_has_text, spec_i32_of,
    spec_num_of, spec_text_of,
};

verus! {

/// The body of a Network Error Logging report. String fields hold raw JSON
/// string lexemes; `sampling_fraction` keeps its numeric text as sent.
pub struct ReportBody {
    pub error_type: Vec<u8>,
    pub elapsed_time: i32,
    pub method: Vec<u8>,
    pub phase: Vec<u8>,
    pub protocol: Vec<u8>,
    pub referrer: Vec<u8>,
    pub sampling_fraction: Vec<u8>,
    pub server_ip: Vec<u8>,
    pub status_code: i32,
}

/// Whether `v` conforms to the NEL body schema: an object with exactly one
/// member for each field, of the right shape; unknown members are ignored.
pub open spec fn spec_conforms(v: Jv) -> bool {
    match v {
        Jv::Obj(ms) => {
            &&& spec_has_text(ms, "type".spec_bytes())
            &&& spec_has_i32(ms, "elapsed_time".spec_bytes())
            &&& spec_has_text(ms, "method".spec_bytes())
            &&& spec_has_text(ms, "phase".spec_bytes())
            &&& spec_has_text(ms, "protocol".spec_bytes())
            &&& spec_has_text(ms, "referrer".spec_bytes())
            &&& spec_has_num(ms, "sampling_fraction".spec_bytes())
            &&& spec_has_text(ms, "server_ip".spec_bytes())
            &&& spec_has_i32(ms, "status_code".spec_bytes())
        },
        _ => false,
    }
}

/// What a conforming body's fields are.
pub open spec fn spec_body_ok(b: ReportBody, v: Jv) -> bool {
    let ms = v->Obj_0;
    &&& b.error_type@ == spec_text_of(ms, "type".spec_bytes())
    &&& b.elapsed_time as int == spec_i32_of(ms, "elapsed_time".spec_bytes())
    &&& b.method@ == spec_text_of(ms, "method".spec_bytes())
    &&& b.phase@ == spec_text_of(ms, "phase".spec_bytes())
    &&& b.protocol@ == spec_text_of(ms, "protocol".spec_bytes())
    &&& b.referrer@ == spec_text_of(ms, "referrer".spec_bytes())
    &&& b.sampling_fraction@ == spec_num_of(ms, "sampling_fraction".spec_bytes())
    &&& b.server_ip@ == spec_text_of(ms, "server_ip".spec_bytes())
    &&& b.status_code as int == spec_i32_of(ms, "status_code".spec_bytes())
}

impl ReportBody {
    /// Checks a report body against the NEL schema and extracts its fields.
    /// A non-conforming body fails with `ReportBodyMismatch`, isolated to
    /// that one report.
    pub fn from_json(v: &Json) -> (r: Result<ReportBody, PipelineError>)
        ensures
            match r {
                Ok(b) => spec_conforms(v.jv()) && spec_body_ok(b, v.jv()),
                Err(e) => !spec_conforms(v.jv()) && e == PipelineError::ReportBodyMismatch,
            },
    {
        let ms = match v {
            Json::Obj(members) => members,
            _ => {
                return Err(PipelineError::ReportBodyMismatch);
            },
        };
        let error_type = match get_text(ms, &"type".as_bytes_vec()) {
            Some(x) => x,
            None => {
                return Err(PipelineError::ReportBodyMismatch);
            },
        };
        let elapsed_time = match get_i32(ms, &"elapsed_time".as_bytes_vec()) {
            Some(x) => x,
            None => {
                return Err(PipelineError::ReportBodyMismatch);
            },
        };
        let method = match get_text(ms, &"method".as_bytes_vec()) {
            Some(x) => x,
            None => {
                return Err(PipelineError::ReportBodyMismatch);
            },
        };
        let phase = match get_text(ms, &"phase".as_bytes_vec()) {
            Some(x) => x,
            None => {
                return Err(PipelineError::ReportBodyMismatch);
            },
        };
        let protocol = match get_text(ms, &"protocol".as_bytes_vec()) {
            Some(x) => x,
            None => {
                return Err(PipelineError::ReportBodyMismatch);
            },
        };
        let referrer = match get_text(ms, &"referrer".as_bytes_vec()) {
            Some(x) => x,
            None => {
                return Err(PipelineError::ReportBodyMismatch);
            },
        };
        let sampling_fraction = match get_num(ms, &"sampling_fraction".as_bytes_vec()) {
            Some(x) => x,
            None => {
                return Err(PipelineError::ReportBodyMismatch);
            },
        };
        let server_ip = match get_text(ms, &"server_ip".as_bytes_vec()) {
            Some(x) => x,
            None => {
                return Err(PipelineError::ReportBodyMismatch);
            },
        };
        let status_code = match get_i32(ms, &"status_code".as_bytes_vec()) {
            Some(x) => x,
            None => {
                return Err(PipelineError::ReportBodyMismatch);
            },
        };
        Ok(
            ReportBody {
                error_type,
                elapsed_time,
                method,
                phase,
                protocol,
                referrer,
                sampling_fraction,
                server_ip,
                status_code,
            },
        )
    }
}

} // verus!
