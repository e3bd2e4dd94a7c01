//! The log line: one report merged with the request's client data and an
//! ingestion timestamp, and its newline-ready serialization.

use vstd::prelude::*;
use vstd::string::*;
use crate::client_data::ClientData;
use crate::errors::PipelineError;
use crate::json::{lemma_jv_members_elts, spec_ser, Json, Jv};
use crate::json_ser::{push_bytes, push_json};
use crate::report::Report;
use crate::text::{push_dec_i64, push_dec_u64, push_escaped, spec_dec, spec_dec_int, spec_escaped};

verus! {

/// The structure serialized and emitted to the logging endpoint: an
/// ingestion timestamp, the shared client data, and one report.
pub struct LogLine<T> {
    /// Unix seconds, captured when the report was assembled.
    pub timestamp: i64,
    /// The enrichment record, shared by all lines of one request.
    pub client: ClientData,
    /// The sanitized report.
    pub report: Report<T>,
}

/// Relies on chrono::Utc::now for the current wall-clock time; nothing is
/// assumed about its value.
#[verifier::external_body]
fn now_unix_seconds() -> i64 {
    chrono::Utc::now().timestamp()
}

impl<T> LogLine<T> {
    /// Merges one report with the request's client data and stamps it with
    /// the current Unix time. Cannot fail: the report is already decoded.
    pub fn new(report: Report<T>, client: ClientData) -> (r: Result<LogLine<T>, PipelineError>)
        ensures
            r matches Ok(l) && l.report == report && l.client == client,
    {
        Ok(LogLine { timestamp: now_unix_seconds(), client, report })
    }
}

/// The JSON shape of the client data inside a log line: raw text fields are
/// escape-encoded, numeric fields rendered as numbers, coordinates emitted
/// as the decimal text they were handed in as.
pub open spec fn spec_client_jv(c: ClientData) -> Jv {
    Jv::Obj(
        seq![
            ("client_ip".spec_bytes(), Jv::Text(spec_escaped(c.client_ip@))),
            ("client_user_agent".spec_bytes(), Jv::Text(spec_escaped(c.client_user_agent@))),
            ("client_asn".spec_bytes(), Jv::Num(spec_dec(c.client_asn as nat))),
            ("client_asname".spec_bytes(), Jv::Text(spec_escaped(c.client_asname@))),
            ("client_city".spec_bytes(), Jv::Text(spec_escaped(c.client_city@))),
            ("client_country_code".spec_bytes(), Jv::Text(spec_escaped(c.client_country_code@))),
            (
                "client_continent_code".spec_bytes(),
                Jv::Text(spec_escaped(c.client_continent_code@)),
            ),
            ("client_latitude".spec_bytes(), Jv::Num(c.client_latitude@)),
            ("client_longitude".spec_bytes(), Jv::Num(c.client_longitude@)),
        ],
    )
}

/// The JSON shape of a report inside a log line: the envelope fields under
/// their wire names, the body as it arrived.
pub open spec fn spec_report_jv(rep: Report<Json>) -> Jv {
    Jv::Obj(
        seq![
            ("user_agent".spec_bytes(), Jv::Text(rep.user_agent@)),
            ("url".spec_bytes(), Jv::Text(rep.url@)),
            ("type".spec_bytes(), Jv::Text(rep.report_type@)),
            ("body".spec_bytes(), rep.body.jv()),
            ("age".spec_bytes(), Jv::Num(spec_dec_int(rep.age as int))),
        ],
    )
}

/// The JSON shape of a whole log line.
pub open spec fn spec_line_jv(ts: int, c: ClientData, rep: Report<Json>) -> Jv {
    Jv::Obj(
        seq![
            ("timestamp".spec_bytes(), Jv::Num(spec_dec_int(ts))),
            ("client".spec_bytes(), spec_client_jv(c)),
            ("report".spec_bytes(), spec_report_jv(rep)),
        ],
    )
}

/// The exact bytes a log line serializes to.
pub open spec fn spec_line_bytes(ts: int, c: ClientData, rep: Report<Json>) -> Seq<u8> {
    spec_ser(spec_line_jv(ts, c, rep))
}

/// The escape encoding of `s` as a fresh buffer.
fn escaped_vec(s: &Vec<u8>) -> (r: Vec<u8>)
    ensures
        r@ == spec_escaped(s@),
{
    let mut out: Vec<u8> = Vec::new();
    push_escaped(&mut out, s);
    out
}

/// The decimal text of `n` as a fresh buffer.
fn dec_u32_vec(n: u32) -> (r: Vec<u8>)
    ensures
        r@ == spec_dec(n as nat),
{
    let mut out: Vec<u8> = Vec::new();
    push_dec_u64(&mut out, n as u64);
    out
}

/// The decimal text of `n` as a fresh buffer, with a sign for negatives.
fn dec_i64_vec(n: i64) -> (r: Vec<u8>)
    ensures
        r@ == spec_dec_int(n as int),
{
    let mut out: Vec<u8> = Vec::new();
    push_dec_i64(&mut out, n);
    out
}

/// A copy of `s` as a fresh buffer.
pub fn copy_vec(s: &Vec<u8>) -> (r: Vec<u8>)
    ensures
        r@ == s@,
{
    let mut out: Vec<u8> = Vec::new();
    push_bytes(&mut out, s);
    out
}

/// The client data as a JSON value.
fn client_to_json(c: &ClientData) -> (r: Json)
    ensures
        r.jv() == spec_client_jv(*c),
{
    let mut ms: Vec<(Vec<u8>, Json)> = Vec::new();
    let p0 = ("client_ip".as_bytes_vec(), Json::Text(escaped_vec(&c.client_ip)));
    let p1 = ("client_user_agent".as_bytes_vec(), Json::Text(escaped_vec(&c.client_user_agent)));
    let p2 = ("client_asn".as_bytes_vec(), Json::Num(dec_u32_vec(c.client_asn)));
    let p3 = ("client_asname".as_bytes_vec(), Json::Text(escaped_vec(&c.client_asname)));
    let p4 = ("client_city".as_bytes_vec(), Json::Text(escaped_vec(&c.client_city)));
    let p5 = ("client_country_code".as_bytes_vec(), Json::Text(escaped_vec(&c.client_country_code)));
    let p6 = (
        "client_continent_code".as_bytes_vec(),
        Json::Text(escaped_vec(&c.client_continent_code)),
    );
    let p7 = ("client_latitude".as_bytes_vec(), Json::Num(copy_vec(&c.client_latitude)));
    let p8 = ("client_longitude".as_bytes_vec(), Json::Num(copy_vec(&c.client_longitude)));
    let ghost gs = seq![p0, p1, p2, p3, p4, p5, p6, p7, p8];
    ms.push(p0);
    ms.push(p1);
    ms.push(p2);
    ms.push(p3);
    ms.push(p4);
    ms.push(p5);
    ms.push(p6);
    ms.push(p7);
    ms.push(p8);
    proof {
        assert(ms@ =~= gs);
        lemma_jv_members_elts(ms@);
        assert(crate::json::jv_members(ms@, 0) =~= spec_client_jv(*c)->Obj_0);
    }
    Json::Obj(ms)
}

/// The report as a JSON value, consuming it (the body is moved in).
fn report_to_json(rep: Report<Json>) -> (r: Json)
    ensures
        r.jv() == spec_report_jv(rep),
{
    let Report { user_agent, url, report_type, body, age } = rep;
    let mut ms: Vec<(Vec<u8>, Json)> = Vec::new();
    let p0 = ("user_agent".as_bytes_vec(), Json::Text(user_agent));
    let p1 = ("url".as_bytes_vec(), Json::Text(url));
    let p2 = ("type".as_bytes_vec(), Json::Text(report_type));
    let p3 = ("body".as_bytes_vec(), body);
    let p4 = ("age".as_bytes_vec(), Json::Num(dec_i64_vec(age)));
    let ghost gs = seq![p0, p1, p2, p3, p4];
    ms.push(p0);
    ms.push(p1);
    ms.push(p2);
    ms.push(p3);
    ms.push(p4);
    proof {
        assert(ms@ =~= gs);
        lemma_jv_members_elts(ms@);
        assert(crate::json::jv_members(ms@, 0) =~= spec_report_jv(rep)->Obj_0);
    }
    Json::Obj(ms)
}

/// Serializes one log line to the exact bytes the logging endpoint receives:
/// one compact JSON object.
pub fn serialize_log_line(line: LogLine<Json>) -> (r: Vec<u8>)
    ensures
        r@ == spec_line_bytes(line.timestamp as int, line.client, line.report),
{
    let LogLine { timestamp, client, report } = line;
    let mut ms: Vec<(Vec<u8>, Json)> = Vec::new();
    let p0 = ("timestamp".as_bytes_vec(), Json::Num(dec_i64_vec(timestamp)));
    let p1 = ("client".as_bytes_vec(), client_to_json(&client));
    let p2 = ("report".as_bytes_vec(), report_to_json(report));
    let ghost gs = seq![p0, p1, p2];
    ms.push(p0);
    ms.push(p1);
    ms.push(p2);
    let v = Json::Obj(ms);
    proof {
        assert(ms@ =~= gs);
        lemma_jv_members_elts(ms@);
        assert(crate::json::jv_members(ms@, 0) =~= spec_line_jv(
            line.timestamp as int,
            line.client,
            line.report,
        )->Obj_0);
        assert(v.jv() == spec_line_jv(line.timestamp as int, line.client, line.report));
    }
    let mut out: Vec<u8> = Vec::new();
    push_json(&v, &mut out);
    assert(out@ =~= spec_line_bytes(line.timestamp as int, line.client, line.report));
    out
}

} // verus!
