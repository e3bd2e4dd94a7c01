use beacon_termination::core_web_vital;
use beacon_termination::csp_violation;
use beacon_termination::errors::PipelineError;
use beacon_termination::json::Json;
use beacon_termination::json_parse::parse_json;
use beacon_termination::network_error_log;

fn parse(doc: &[u8]) -> Json {
    parse_json(&doc.to_vec()).expect("document parses")
}

#[test]
fn nel_body_extracts_fields() {
    let v = parse(
        br#"{"type":"dns.unreachable","elapsed_time":320,"method":"GET","phase":"dns","protocol":"http/1.1","referrer":"","sampling_fraction":1.0,"server_ip":"203.0.113.5","status_code":0,"extra":"kept"}"#,
    );
    let b = match network_error_log::ReportBody::from_json(&v) {
        Ok(b) => b,
        Err(_) => panic!("conforming body rejected"),
    };
    assert_eq!(b.error_type, b"dns.unreachable".to_vec());
    assert_eq!(b.elapsed_time, 320);
    assert_eq!(b.method, b"GET".to_vec());
    assert_eq!(b.phase, b"dns".to_vec());
    assert_eq!(b.protocol, b"http/1.1".to_vec());
    assert_eq!(b.referrer, b"".to_vec());
    assert_eq!(b.sampling_fraction, b"1.0".to_vec());
    assert_eq!(b.server_ip, b"203.0.113.5".to_vec());
    assert_eq!(b.status_code, 0);
}

#[test]
fn nel_body_rejects_wrong_shapes() {
    for doc in [
        &br#"{"elapsed_time":320}"#[..],
        br#"[1]"#,
        br#"{"type":"x","elapsed_time":"320","method":"GET","phase":"dns","protocol":"h2","referrer":"","sampling_fraction":1.0,"server_ip":"s","status_code":0}"#,
        br#"{"type":"x","elapsed_time":320,"method":"GET","phase":"dns","protocol":"h2","referrer":"","sampling_fraction":1.0,"server_ip":"s","status_code":2147483648}"#,
    ] {
        match network_error_log::ReportBody::from_json(&parse(doc)) {
            Err(e) => assert_eq!(e, PipelineError::ReportBodyMismatch),
            Ok(_) => panic!("accepted {:?}", doc),
        }
    }
}

#[test]
fn csp_body_extracts_nested_violation() {
    let v = parse(
        br#"{"csp-report":{"blocked-uri":"https://evil.example/","document-uri":"https://example.com/","effective-directive":"script-src","original-policy":"default-src 'self'","referrer":"","status-code":200,"violated-directive":"script-src"}}"#,
    );
    let b = match csp_violation::ReportBody::from_json(&v) {
        Ok(b) => b,
        Err(_) => panic!("conforming body rejected"),
    };
    assert_eq!(b.csp_report.blocked_uri, b"https://evil.example/".to_vec());
    assert_eq!(b.csp_report.document_uri, b"https://example.com/".to_vec());
    assert_eq!(b.csp_report.effective_directive, b"script-src".to_vec());
    assert_eq!(b.csp_report.original_policy, b"default-src 'self'".to_vec());
    assert_eq!(b.csp_report.referrer, b"".to_vec());
    assert_eq!(b.csp_report.status_code, 200);
    assert_eq!(b.csp_report.violated_directive, b"script-src".to_vec());
}

#[test]
fn csp_body_requires_the_wrapper_object() {
    let v = parse(
        br#"{"blocked-uri":"x","document-uri":"y","effective-directive":"z","original-policy":"p","referrer":"","status-code":200,"violated-directive":"v"}"#,
    );
    match csp_violation::ReportBody::from_json(&v) {
        Err(e) => assert_eq!(e, PipelineError::ReportBodyMismatch),
        Ok(_) => panic!("wrapper-less body accepted"),
    }
}

#[test]
fn core_web_vital_extracts_fields() {
    let v = parse(
        br#"{"name":"LCP","value":2500.25,"delta":2500.25,"id":"v1-1632144703420-2168960387119","isFinal":true,"entries":[{"startTime":1}]}"#,
    );
    let b = match core_web_vital::ReportBody::from_json(&v) {
        Ok(b) => b,
        Err(_) => panic!("conforming body rejected"),
    };
    assert_eq!(b.name, b"LCP".to_vec());
    assert_eq!(b.value, b"2500.25".to_vec());
    assert_eq!(b.delta, b"2500.25".to_vec());
    assert_eq!(b.id, b"v1-1632144703420-2168960387119".to_vec());
    assert!(b.is_final);
    match b.entries {
        Json::Arr(items) => assert_eq!(items.len(), 1),
        _ => panic!("entries not an array"),
    }
}

#[test]
fn core_web_vital_requires_boolean_flag() {
    let v = parse(br#"{"name":"CLS","value":0.1,"delta":0.1,"id":"x","isFinal":"yes","entries":[]}"#);
    match core_web_vital::ReportBody::from_json(&v) {
        Err(e) => assert_eq!(e, PipelineError::ReportBodyMismatch),
        Ok(_) => panic!("non-boolean flag accepted"),
    }
}
