use beacon_termination::client_data::{DeviceLookup, GeoData};
use beacon_termination::errors::PipelineError;
use beacon_termination::ip_prefix::IpAddress;
use beacon_termination::json::Json;
use beacon_termination::json_parse::parse_json;
use beacon_termination::pipeline::{handle_reports, BodyMode};

fn geo() -> GeoData {
    GeoData {
        as_number: 64496,
        as_name: b"EXAMPLE-AS".to_vec(),
        city: b"San Francisco".to_vec(),
        country_code: b"US".to_vec(),
        continent_code: b"NA".to_vec(),
        latitude: b"37.7749".to_vec(),
        longitude: b"-122.4194".to_vec(),
    }
}

fn device() -> DeviceLookup {
    DeviceLookup {
        device_name: Some(b"Desktop".to_vec()),
        brand: Some(b"Generic".to_vec()),
        model: Some(b"PC".to_vec()),
    }
}

fn client_ip() -> IpAddress {
    // 203.0.113.99
    IpAddress::V4((203u32 << 24) | (113 << 8) | 99)
}

fn field<'a>(v: &'a Json, key: &str) -> &'a Json {
    match v {
        Json::Obj(ms) => {
            for (k, val) in ms.iter() {
                if k.as_slice() == key.as_bytes() {
                    return val;
                }
            }
            panic!("missing field {key}");
        }
        _ => panic!("not an object"),
    }
}

fn text(v: &Json) -> Vec<u8> {
    match v {
        Json::Text(s) => s.clone(),
        _ => panic!("not a string"),
    }
}

const NEL_PAYLOAD: &[u8] = br#"[{"user_agent":"Mozilla/5.0 (Windows NT 10.0; Win64; x64)","url":"https://example.com/","type":"network-error","body":{"type":"dns.unreachable","elapsed_time":320,"method":"GET","phase":"dns","protocol":"http/1.1","referrer":"","sampling_fraction":1.0,"server_ip":"203.0.113.5","status_code":0},"age":1500}]"#;

#[test]
fn nel_report_yields_one_enriched_line() {
    let lines = handle_reports(
        &NEL_PAYLOAD.to_vec(),
        BodyMode::NetworkErrorLog,
        client_ip(),
        Some(geo()),
        Some(device()),
    )
    .unwrap();
    assert_eq!(lines.len(), 1);
    let parsed = parse_json(&lines[0]).expect("emitted line is JSON");
    let client = field(&parsed, "client");
    assert_eq!(text(field(client, "client_ip")), b"203.0.113.96/28".to_vec());
    assert_eq!(
        text(field(client, "client_user_agent")),
        b"Desktop Generic PC".to_vec()
    );
    let body = field(field(&parsed, "report"), "body");
    assert_eq!(text(field(body, "server_ip")), b"203.0.113.5".to_vec());
    // the float lexeme is carried through unchanged
    match field(body, "sampling_fraction") {
        Json::Num(s) => assert_eq!(s, &b"1.0".to_vec()),
        _ => panic!("sampling_fraction is not a number"),
    }
}

#[test]
fn empty_batch_yields_zero_lines() {
    let lines = handle_reports(
        &b"[]".to_vec(),
        BodyMode::Generic,
        client_ip(),
        Some(geo()),
        Some(device()),
    )
    .unwrap();
    assert_eq!(lines.len(), 0);
}

fn three_reports() -> Vec<u8> {
    let mut payload = Vec::new();
    payload.extend_from_slice(b"[");
    for i in 1..=3 {
        if i > 1 {
            payload.extend_from_slice(b",");
        }
        let body = if i == 2 {
            // missing every NEL field: conforms only in generic mode
            r#"{"note":"oops"}"#.to_string()
        } else {
            r#"{"type":"tcp.timed_out","elapsed_time":10,"method":"GET","phase":"connection","protocol":"h2","referrer":"","sampling_fraction":0.5,"server_ip":"198.51.100.7","status_code":0}"#.to_string()
        };
        payload.extend_from_slice(
            format!(
                r#"{{"user_agent":"UA","url":"https://example.com/{i}","type":"network-error","body":{body},"age":0}}"#
            )
            .as_bytes(),
        );
    }
    payload.extend_from_slice(b"]");
    payload
}

#[test]
fn conforming_batch_emits_every_report_in_order() {
    let lines = handle_reports(
        &three_reports(),
        BodyMode::Generic,
        client_ip(),
        Some(geo()),
        Some(device()),
    )
    .unwrap();
    assert_eq!(lines.len(), 3);
    for (i, line) in lines.iter().enumerate() {
        let parsed = parse_json(line).unwrap();
        let url = text(field(field(&parsed, "report"), "url"));
        assert_eq!(url, format!("https://example.com/{}", i + 1).into_bytes());
    }
}

#[test]
fn non_conforming_report_is_dropped_alone() {
    let lines = handle_reports(
        &three_reports(),
        BodyMode::NetworkErrorLog,
        client_ip(),
        Some(geo()),
        Some(device()),
    )
    .unwrap();
    assert_eq!(lines.len(), 2);
    let urls: Vec<Vec<u8>> = lines
        .iter()
        .map(|l| text(field(field(&parse_json(l).unwrap(), "report"), "url")))
        .collect();
    assert_eq!(urls[0], b"https://example.com/1".to_vec());
    assert_eq!(urls[1], b"https://example.com/3".to_vec());
}

#[test]
fn geo_miss_fails_whole_request_with_zero_lines() {
    let r = handle_reports(
        &three_reports(),
        BodyMode::Generic,
        client_ip(),
        None,
        Some(device()),
    );
    assert_eq!(r, Err(PipelineError::GeoUnavailable));
}

#[test]
fn unclassified_user_agent_fails_whole_request() {
    let r = handle_reports(
        &three_reports(),
        BodyMode::Generic,
        client_ip(),
        Some(geo()),
        None,
    );
    assert_eq!(r, Err(PipelineError::UserAgentUnclassified));
}

#[test]
fn non_array_payload_is_malformed() {
    let r = handle_reports(
        &br#"{"user_agent":"UA"}"#.to_vec(),
        BodyMode::Generic,
        client_ip(),
        Some(geo()),
        Some(device()),
    );
    assert_eq!(r, Err(PipelineError::MalformedBatch));
}

#[test]
fn envelope_missing_field_is_malformed() {
    let r = handle_reports(
        &br#"[{"url":"https://example.com/","type":"x","body":null,"age":0}]"#.to_vec(),
        BodyMode::Generic,
        client_ip(),
        Some(geo()),
        Some(device()),
    );
    assert_eq!(r, Err(PipelineError::MalformedBatch));
}

#[test]
fn envelope_duplicate_field_is_malformed() {
    let r = handle_reports(
        &br#"[{"user_agent":"a","user_agent":"b","url":"u","type":"x","body":null,"age":0}]"#
            .to_vec(),
        BodyMode::Generic,
        client_ip(),
        Some(geo()),
        Some(device()),
    );
    assert_eq!(r, Err(PipelineError::MalformedBatch));
}

#[test]
fn envelope_fractional_age_is_malformed() {
    let r = handle_reports(
        &br#"[{"user_agent":"a","url":"u","type":"x","body":null,"age":1.5}]"#.to_vec(),
        BodyMode::Generic,
        client_ip(),
        Some(geo()),
        Some(device()),
    );
    assert_eq!(r, Err(PipelineError::MalformedBatch));
}

#[test]
fn client_strings_are_escaped_in_the_line() {
    let mut g = geo();
    g.city = b"San \"Fra\\ncisco".to_vec();
    let lines = handle_reports(
        &b"[{\"user_agent\":\"UA\",\"url\":\"u\",\"type\":\"x\",\"body\":null,\"age\":0}]"
            .to_vec(),
        BodyMode::Generic,
        client_ip(),
        Some(g),
        Some(device()),
    )
    .unwrap();
    assert_eq!(lines.len(), 1);
    let parsed = parse_json(&lines[0]).expect("line stays valid JSON");
    let city = text(field(field(&parsed, "client"), "client_city"));
    assert_eq!(city, b"San \\\"Fra\\\\ncisco".to_vec());
}

#[test]
fn error_messages_are_stable() {
    assert_eq!(
        PipelineError::GeoUnavailable.message(),
        "no geographic data available"
    );
    assert_eq!(
        PipelineError::UserAgentUnclassified.message(),
        "device_detection lookup failed"
    );
    assert_eq!(PipelineError::MalformedBatch.message(), "malformed report batch");
}
