use beacon_termination::json::Json;
use beacon_termination::json_parse::parse_json;
use beacon_termination::json_ser::json_to_bytes;

fn round_trip(doc: &[u8]) -> Vec<u8> {
    let v = parse_json(&doc.to_vec()).expect("document parses");
    json_to_bytes(&v)
}

#[test]
fn generic_body_round_trips_byte_for_byte() {
    // already compact: decode then re-encode reproduces the exact bytes
    let doc = br#"{"a":[1,2.50,-3e+7],"b":{"nested":null,"t":true},"c":"x\ny \u00e9","d":false}"#;
    assert_eq!(round_trip(doc), doc.to_vec());
}

#[test]
fn round_trip_preserves_number_lexemes() {
    let doc = br#"[1.0,0.500,6.02e23,-0,12e-2]"#;
    assert_eq!(round_trip(doc), doc.to_vec());
}

#[test]
fn round_trip_preserves_string_escapes() {
    let doc = br#"["\u0041","A","\\","\/"]"#;
    assert_eq!(round_trip(doc), doc.to_vec());
}

#[test]
fn round_trip_is_stable_after_one_pass() {
    let doc = b" [ 1 ,\t{\"k\" : [ ] } ,\r\n null ] ";
    let once = round_trip(doc);
    assert_eq!(once, b"[1,{\"k\":[]},null]".to_vec());
    let twice = round_trip(&once);
    assert_eq!(twice, once);
}

#[test]
fn parse_accepts_whitespace_and_nesting() {
    let v = parse_json(&b" { \"k\" : [ null , true , false ] } ".to_vec()).unwrap();
    match v {
        Json::Obj(ms) => {
            assert_eq!(ms.len(), 1);
            match &ms[0].1 {
                Json::Arr(items) => assert_eq!(items.len(), 3),
                _ => panic!("not an array"),
            }
        }
        _ => panic!("not an object"),
    }
}

#[test]
fn parse_rejects_malformed_documents() {
    for doc in [
        &b"[1,]"[..],
        b"{\"a\":}",
        b"[01]",
        b"[1.]",
        b"[+1]",
        b"\"unterminated",
        b"[\"bad\\x\"]",
        b"nul",
        b"[] trailing",
        b"",
        b"[1] [2]",
        b"{\"a\" 1}",
    ] {
        assert!(parse_json(&doc.to_vec()).is_none(), "accepted {:?}", doc);
    }
}

#[test]
fn parse_rejects_raw_control_bytes_in_strings() {
    assert!(parse_json(&b"[\"a\nb\"]".to_vec()).is_none());
    assert!(parse_json(&b"[\"a\tb\"]".to_vec()).is_none());
}

#[test]
fn serializer_emits_compact_text() {
    let v = parse_json(&b" [ true , \"a\" , { } ] ".to_vec()).unwrap();
    assert_eq!(json_to_bytes(&v), b"[true,\"a\",{}]".to_vec());
}
