//! The Content-Security-Policy violation report body: a wrapper object with
//! a single nested `csp-report` record, as defined by the CSP specification.

use vstd::prelude::*;
use vstd::string::*;
use crate::errors::PipelineError;
use crate::json::{Json, Jv};
use crate::report::{
    find_unique, get_i32, get_text, spec_count_key, spec_get_key, spec_has_i32, spec_has_text,
    spec_i32_of, spec_text_of,
};

verus! {

/// The body of a CSP violation report: one nested `csp-report` object.
pub struct ReportBody {
    pub csp_report: CSPViolation,
}

/// The violation record nested under `csp-report`.
pub struct CSPViolation {
    pub blocked_uri: Vec<u8>,
    pub document_uri: Vec<u8>,
    pub effective_directive: Vec<u8>,
    pub original_policy: Vec<u8>,
    pub referrer: Vec<u8>,
    pub status_code: i32,
    pub violated_directive: Vec<u8>,
}

/// Whether `ms` conforms to the nested violation record's schema.
pub open spec fn spec_violation_conforms(ms: Seq<(Seq<u8>, Jv)>) -> bool {
    &&& spec_has_text(ms, "blocked-uri".spec_bytes())
    &&& spec_has_text(ms, "document-uri".spec_bytes())
    &&& spec_has_text(ms, "effective-directive".spec_bytes())
    &&& spec_has_text(ms, "original-policy".spec_bytes())
    &&& spec_has_text(ms, "referrer".spec_bytes())
    &&& spec_has_i32(ms, "status-code".spec_bytes())
    &&& spec_has_text(ms, "violated-directive".spec_bytes())
}

/// Whether `v` conforms to the CSP violation body schema: an object whose
/// unique `csp-report` member is a conforming violation record.
pub open spec fn spec_conforms(v: Jv) -> bool {
    match v {
        Jv::Obj(ms) => {
            &&& spec_count_key(ms, "csp-report".spec_bytes()) == 1
            &&& (spec_get_key(ms, "csp-report".spec_bytes()) matches Some(Jv::Obj(inner))
                && spec_violation_conforms(inner))
        },
        _ => false,
    }
}

/// What a conforming violation record's fields are.
pub open spec fn spec_violation_ok(c: CSPViolation, ms: Seq<(Seq<u8>, Jv)>) -> bool {
    &&& c.blocked_uri@ == spec_text_of(ms, "blocked-uri".spec_bytes())
    &&& c.document_uri@ == spec_text_of(ms, "document-uri".spec_bytes())
    &&& c.effective_directive@ == spec_text_of(ms, "effective-directive".spec_bytes())
    &&& c.original_policy@ == spec_text_of(ms, "original-policy".spec_bytes())
    &&& c.referrer@ == spec_text_of(ms, "referrer".spec_bytes())
    &&& c.status_code as int == spec_i32_of(ms, "status-code".spec_bytes())
    &&& c.violated_directive@ == spec_text_of(ms, "violated-directive".spec_bytes())
}

/// What a conforming body's nested record is.
pub open spec fn spec_body_ok(b: ReportBody, v: Jv) -> bool {
    spec_violation_ok(
        b.csp_report,
        spec_get_key(v->Obj_0, "csp-report".spec_bytes())->Some_0->Obj_0,
    )
}

impl CSPViolation {
    /// Extracts the violation record from the members of the nested object.
    fn from_members(ms: &Vec<(Vec<u8>, Json)>) -> (r: Result<CSPViolation, PipelineError>)
        ensures
            match r {
                Ok(c) => spec_violation_conforms(crate::json::jv_members(ms@, 0))
                    && spec_violation_ok(c, crate::json::jv_members(ms@, 0)),
                Err(e) => !spec_violation_conforms(crate::json::jv_members(ms@, 0)) && e
                    == PipelineError::ReportBodyMismatch,
            },
    {
        let blocked_uri = match get_text(ms, &"blocked-uri".as_bytes_vec()) {
            Some(x) => x,
            None => {
                return Err(PipelineError::ReportBodyMismatch);
            },
        };
        let document_uri = match get_text(ms, &"document-uri".as_bytes_vec()) {
            Some(x) => x,
            None => {
                return Err(PipelineError::ReportBodyMismatch);
            },
        };
        let effective_directive = match get_text(ms, &"effective-directive".as_bytes_vec()) {
            Some(x) => x,
            None => {
                return Err(PipelineError::ReportBodyMismatch);
            },
        };
        let original_policy = match get_text(ms, &"original-policy".as_bytes_vec()) {
            Some(x) => x,
            None => {
                return Err(PipelineError::ReportBodyMismatch);
            },
        };
        let referrer = match get_text(ms, &"referrer".as_bytes_vec()) {
            Some(x) => x,
            None => {
                return Err(PipelineError::ReportBodyMismatch);
            },
        };
        let status_code = match get_i32(ms, &"status-code".as_bytes_vec()) {
            Some(x) => x,
            None => {
                return Err(PipelineError::ReportBodyMismatch);
            },
        };
        let violated_directive = match get_text(ms, &"violated-directive".as_bytes_vec()) {
            Some(x) => x,
            None => {
                return Err(PipelineError::ReportBodyMismatch);
            },
        };
        Ok(
            CSPViolation {
                blocked_uri,
                document_uri,
                effective_directive,
                original_policy,
                referrer,
                status_code,
                violated_directive,
            },
        )
    }
}

impl ReportBody {
    /// Checks a report body against the CSP violation schema and extracts
    /// the nested record. A non-conforming body fails with
    /// `ReportBodyMismatch`, isolated to that one report.
    pub fn from_json(v: &Json) -> (r: Result<ReportBody, PipelineError>)
        ensures
            match r {
                Ok(b) => spec_conforms(v.jv()) && spec_body_ok(b, v.jv()),
                Err(e) => !spec_conforms(v.jv()) && e == PipelineError::ReportBodyMismatch,
            },
    {
        let ms = match v {
            Json::Obj(members) => members,
            _ => {
                return Err(PipelineError::ReportBodyMismatch);
            },
        };
        match find_unique(ms, &"csp-report".as_bytes_vec()) {
            Some(Json::Obj(inner)) => {
                match CSPViolation::from_members(inner) {
                    Ok(c) => Ok(ReportBody { csp_report: c }),
                    Err(e) => Err(e),
                }
            },
            _ => Err(PipelineError::ReportBodyMismatch),
        }
    }
}

} // verus!
