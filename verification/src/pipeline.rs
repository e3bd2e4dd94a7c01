//! The report pipeline: decode a batch, build the client context once,
//! assemble one log line per conforming report — in input order, dropping
//! only the non-conforming ones — and serialize each line.

use vstd::prelude::*;
use vstd::string::*;
use crate::client_data::{spec_summary_of, ClientData, DeviceLookup, GeoData};
use crate::errors::PipelineError;
use crate::ip_prefix::{spec_truncated_cidr, IpAddress};
use crate::json::{spec_ser, Json, Jv};
use crate::log_line::{serialize_log_line, spec_client_jv, spec_report_jv, LogLine};
use crate::report::{decode_batch, spec_decode_batch, spec_report_v, ReportV};
use crate::text::{spec_dec, spec_dec_int, spec_escaped};

verus! {

/// Which body schema the decoder enforces: chosen at construction time,
/// never mixed within one batch. In the generic mode the body is carried as
/// an opaque structured value without interpretation.
#[derive(Clone, Copy, PartialEq, Eq, Structural, Debug)]
pub enum BodyMode {
    Generic,
    NetworkErrorLog,
    CspViolation,
    CoreWebVital,
}

/// Whether `body` conforms to the schema that `mode` enforces.
pub open spec fn spec_body_conforms(mode: BodyMode, body: Jv) -> bool {
    match mode {
        BodyMode::Generic => true,
        BodyMode::NetworkErrorLog => crate::network_error_log::spec_conforms(body),
        BodyMode::CspViolation => crate::csp_violation::spec_conforms(body),
        BodyMode::CoreWebVital => crate::core_web_vital::spec_conforms(body),
    }
}

/// Checks one report body against the active schema.
pub fn body_conforms(mode: BodyMode, body: &Json) -> (r: bool)
    ensures
        r == spec_body_conforms(mode, body.jv()),
{
    match mode {
        BodyMode::Generic => true,
        BodyMode::NetworkErrorLog => crate::network_error_log::ReportBody::from_json(
            body,
        ).is_ok(),
        BodyMode::CspViolation => crate::csp_violation::ReportBody::from_json(body).is_ok(),
        BodyMode::CoreWebVital => crate::core_web_vital::ReportBody::from_json(body).is_ok(),
    }
}

/// The reports of a batch that survive assembly under `mode`: the ones whose
/// bodies conform, in their original order.
pub open spec fn spec_kept(reports: Seq<ReportV>, mode: BodyMode) -> Seq<ReportV>
    decreases reports.len(),
{
    if reports.len() == 0 {
        Seq::empty()
    } else if spec_body_conforms(mode, reports.last().body) {
        spec_kept(reports.drop_last(), mode).push(reports.last())
    } else {
        spec_kept(reports.drop_last(), mode)
    }
}

/// The JSON shape of the client data built from the request's inputs.
pub open spec fn spec_client_jv_of(ip: IpAddress, g: GeoData, d: DeviceLookup) -> Jv {
    Jv::Obj(
        seq![
            ("client_ip".spec_bytes(), Jv::Text(spec_escaped(spec_truncated_cidr(ip)))),
            ("client_user_agent".spec_bytes(), Jv::Text(spec_escaped(spec_summary_of(d)))),
            ("client_asn".spec_bytes(), Jv::Num(spec_dec(g.as_number as nat))),
            ("client_asname".spec_bytes(), Jv::Text(spec_escaped(g.as_name@))),
            ("client_city".spec_bytes(), Jv::Text(spec_escaped(g.city@))),
            ("client_country_code".spec_bytes(), Jv::Text(spec_escaped(g.country_code@))),
            ("client_continent_code".spec_bytes(), Jv::Text(spec_escaped(g.continent_code@))),
            ("client_latitude".spec_bytes(), Jv::Num(g.latitude@)),
            ("client_longitude".spec_bytes(), Jv::Num(g.longitude@)),
        ],
    )
}

/// The JSON shape of one report of the batch.
pub open spec fn spec_report_jv_of(rv: ReportV) -> Jv {
    Jv::Obj(
        seq![
            ("user_agent".spec_bytes(), Jv::Text(rv.user_agent)),
            ("url".spec_bytes(), Jv::Text(rv.url)),
            ("type".spec_bytes(), Jv::Text(rv.report_type)),
            ("body".spec_bytes(), rv.body),
            ("age".spec_bytes(), Jv::Num(spec_dec_int(rv.age))),
        ],
    )
}

/// The exact bytes of the log line for one report, in terms of the request's
/// inputs and the assembly timestamp.
pub open spec fn spec_line_bytes_of(
    ts: int,
    ip: IpAddress,
    g: GeoData,
    d: DeviceLookup,
    rv: ReportV,
) -> Seq<u8> {
    spec_ser(
        Jv::Obj(
            seq![
                ("timestamp".spec_bytes(), Jv::Num(spec_dec_int(ts))),
                ("client".spec_bytes(), spec_client_jv_of(ip, g, d)),
                ("report".spec_bytes(), spec_report_jv_of(rv)),
            ],
        ),
    )
}

/// Whether `bytes` is the log line of report `rv` for some assembly time.
pub open spec fn spec_line_matches(
    bytes: Seq<u8>,
    ip: IpAddress,
    g: GeoData,
    d: DeviceLookup,
    rv: ReportV,
) -> bool {
    exists|ts: int| bytes == spec_line_bytes_of(ts, ip, g, d, rv)
}

/// Handles one request's batch of reports.
///
/// Decodes the payload strictly at the envelope level, builds the client
/// context once from the lookups' answers, then assembles and serializes one
/// log line per report whose body conforms to the active schema, in input
/// order; a non-conforming report is dropped without affecting the rest.
/// Envelope- and context-level failures abort the whole batch: no line is
/// produced. In particular, when the geolocation lookup found no match the
/// result is `GeoUnavailable` and zero lines are emitted, however many
/// reports the batch held.
#[verifier::rlimit(100)]
#[verifier::loop_isolation(false)]
pub fn handle_reports(
    payload: &Vec<u8>,
    mode: BodyMode,
    client_ip: IpAddress,
    geo: Option<GeoData>,
    device: Option<DeviceLookup>,
) -> (r: Result<Vec<Vec<u8>>, PipelineError>)
    ensures
        match r {
            Ok(lines) => {
                &&& spec_decode_batch(payload@) matches Some(reports) && {
                    let kept = spec_kept(reports, mode);
                    &&& lines@.len() == kept.len()
                    &&& forall|j: int|
                        0 <= j < lines@.len() ==> spec_line_matches(
                            (#[trigger] lines@[j])@,
                            client_ip,
                            geo->Some_0,
                            device->Some_0,
                            kept[j],
                        )
                }
                &&& geo is Some
                &&& device is Some
            },
            Err(e) => {
                ||| spec_decode_batch(payload@) is None && e == PipelineError::MalformedBatch
                ||| spec_decode_batch(payload@) is Some && geo is None && e
                    == PipelineError::GeoUnavailable
                ||| spec_decode_batch(payload@) is Some && geo is Some && device is None && e
                    == PipelineError::UserAgentUnclassified
            },
        },
{
    let ghost g_in = geo;
    let ghost d_in = device;
    let mut reports = match decode_batch(payload) {
        Ok(reps) => reps,
        Err(e) => {
            return Err(e);
        },
    };
    let ghost rvs = spec_decode_batch(payload@)->Some_0;
    let client = match ClientData::new(client_ip, geo, device) {
        Ok(c) => c,
        Err(e) => {
            return Err(e);
        },
    };
    let ghost g = g_in->Some_0;
    let ghost d = d_in->Some_0;
    proof {
        assert(spec_client_jv(client)->Obj_0 =~= spec_client_jv_of(client_ip, g, d)->Obj_0);
        assert(spec_client_jv(client) == spec_client_jv_of(client_ip, g, d));
    }
    let mut lines: Vec<Vec<u8>> = Vec::new();
    let ghost full_reps = reports@;
    let n = reports.len();
    let mut idx: usize = 0;
    while idx < n
        invariant
            n == full_reps.len(),
            rvs.len() == n,
            forall|j: int| 0 <= j < n ==> spec_report_v(full_reps[j]) == rvs[j],
            idx <= n,
            reports@ == full_reps.subrange(idx as int, n as int),
            lines@.len() == spec_kept(rvs.subrange(0, idx as int), mode).len(),
            forall|j: int|
                0 <= j < lines@.len() ==> spec_line_matches(
                    (#[trigger] lines@[j])@,
                    client_ip,
                    g,
                    d,
                    spec_kept(rvs.subrange(0, idx as int), mode)[j],
                ),
        decreases n - idx,
    {
        let ghost kept_pre = spec_kept(rvs.subrange(0, idx as int), mode);
        let rep = reports.remove(0);
        proof {
            assert(rep == full_reps[idx as int]);
            assert(reports@ =~= full_reps.subrange(idx + 1, n as int));
            assert(rvs.subrange(0, idx + 1).drop_last() =~= rvs.subrange(0, idx as int));
            assert(rvs.subrange(0, idx + 1).last() == rvs[idx as int]);
        }
        if body_conforms(mode, &rep.body) {
            let ghost rv = rvs[idx as int];
            let line = match LogLine::new(rep, client.duplicate()) {
                Ok(l) => l,
                Err(_) => {
                    // assembly of an already-decoded report cannot fail
                    proof {
                        assert(false);
                    }
                    return Err(PipelineError::MalformedBatch);
                },
            };
            let ghost ts = line.timestamp as int;
            let bytes = serialize_log_line(line);
            proof {
                assert(spec_client_jv(line.client)->Obj_0 =~= spec_client_jv_of(
                    client_ip,
                    g,
                    d,
                )->Obj_0);
                assert(spec_report_jv(line.report)->Obj_0 =~= spec_report_jv_of(rv)->Obj_0);
                assert(crate::log_line::spec_line_jv(ts, line.client, line.report)->Obj_0
                    =~= Jv::Obj(
                    seq![
                        ("timestamp".spec_bytes(), Jv::Num(spec_dec_int(ts))),
                        ("client".spec_bytes(), spec_client_jv_of(client_ip, g, d)),
                        ("report".spec_bytes(), spec_report_jv_of(rv)),
                    ],
                )->Obj_0);
                assert(bytes@ == spec_line_bytes_of(ts, client_ip, g, d, rv));
            }
            lines.push(bytes);
            proof {
                assert(spec_kept(rvs.subrange(0, idx + 1), mode) =~= kept_pre.push(rv));
                assert(spec_line_matches(bytes@, client_ip, g, d, rv));
                assert forall|j: int| 0 <= j < lines@.len() implies spec_line_matches(
                    (#[trigger] lines@[j])@,
                    client_ip,
                    g,
                    d,
                    spec_kept(rvs.subrange(0, idx + 1), mode)[j],
                ) by {
                    if j + 1 == lines@.len() {
                        assert(spec_kept(rvs.subrange(0, idx + 1), mode)[j] == rv);
                    } else {
                        assert(spec_kept(rvs.subrange(0, idx + 1), mode)[j] == kept_pre[j]);
                    }
                }
            }
        } else {
            proof {
                assert(spec_kept(rvs.subrange(0, idx + 1), mode) =~= kept_pre);
            }
        }
        idx = idx + 1;
    }
    proof {
        assert(rvs.subrange(0, n as int) =~= rvs);
    }
    Ok(lines)
}

/// When every report of a batch conforms to the active schema, every report
/// is kept: a batch of N conforming reports yields exactly N log lines, in
/// input order.
pub proof fn lemma_kept_all(reports: Seq<ReportV>, mode: BodyMode)
    requires
        forall|j: int| 0 <= j < reports.len() ==> spec_body_conforms(mode, reports[j].body),
    ensures
        spec_kept(reports, mode) == reports,
    decreases reports.len(),
{
    if reports.len() > 0 {
        lemma_kept_all(reports.drop_last(), mode);
        assert(spec_kept(reports, mode) =~= reports);
    } else {
        assert(spec_kept(reports, mode) =~= reports);
    }
}

/// When exactly one report of a batch does not conform, exactly the others
/// are kept: N reports yield N - 1 log lines, covering every report but the
/// offending one, in their original relative order.
pub proof fn lemma_kept_all_but_one(reports: Seq<ReportV>, mode: BodyMode, k: int)
    requires
        0 <= k < reports.len(),
        !spec_body_conforms(mode, reports[k].body),
        forall|j: int|
            0 <= j < reports.len() && j != k ==> spec_body_conforms(mode, reports[j].body),
    ensures
        spec_kept(reports, mode) == reports.subrange(0, k) + reports.subrange(
            k + 1,
            reports.len() as int,
        ),
    decreases reports.len(),
{
    if k == reports.len() - 1 {
        lemma_kept_all(reports.drop_last(), mode);
        assert(spec_kept(reports, mode) =~= reports.subrange(0, k) + reports.subrange(
            k + 1,
            reports.len() as int,
        ));
    } else {
        lemma_kept_all_but_one(reports.drop_last(), mode, k);
        assert(spec_kept(reports, mode) =~= reports.subrange(0, k) + reports.subrange(
            k + 1,
            reports.len() as int,
        ));
    }
}

} // verus!
