use std::io::Write;

use dd_localstack::capture::{
    capture_dir_for, id_response_for, plan_capture, plan_capture_with_id, plan_profile_with_id,
    plan_trace, plan_trace_with_id, stored_body, StoredBody, TraceError,
};
use dd_localstack::codecs::{decode_text, decompress, decompress_text};
use dd_localstack::headers::{
    find_last_value, format_headers, is_gzip_encoded, is_msgpack_type, request_id_from_headers,
};
use dd_localstack::uploads::{field_is_plannable, plan_field, DispositionParam, FieldPlan};

fn pair(a: &str, b: &str) -> (String, String) {
    (a.to_string(), b.to_string())
}

fn gzip(data: &[u8]) -> Vec<u8> {
    let mut enc = flate2::write::GzEncoder::new(Vec::new(), flate2::Compression::default());
    enc.write_all(data).unwrap();
    enc.finish().unwrap()
}

fn is_v4_uuid(s: &str) -> bool {
    let cs: Vec<char> = s.chars().collect();
    cs.len() == 36
        && cs.iter().enumerate().all(|(i, c)| {
            if [8, 13, 18, 23].contains(&i) {
                *c == '-'
            } else {
                c.is_ascii_digit() || ('a'..='f').contains(c)
            }
        })
        && cs[14] == '4'
        && "89ab".contains(cs[19])
}

#[test]
fn headers_are_written_one_per_line() {
    let headers = vec![pair("host", "localhost:8126"), pair("content-type", "application/json")];
    assert_eq!(format_headers(&headers), "host: localhost:8126\ncontent-type: application/json\n");
    assert_eq!(format_headers(&vec![]), "");
}

#[test]
fn request_id_is_last_matching_header() {
    let headers = vec![pair("DD-Request-Id", "first"), pair("x", "y"), pair("dd-request-id", "second")];
    assert_eq!(request_id_from_headers(&headers), Some("second".to_string()));
    assert_eq!(request_id_from_headers(&vec![pair("x-request-id", "no")]), None);
}

#[test]
fn find_last_value_reads_names_without_case() {
    let headers = vec![pair("Content-Encoding", "gzip")];
    assert_eq!(find_last_value(&headers, "content-encoding"), Some("gzip".to_string()));
    assert_eq!(find_last_value(&headers, "content-type"), None);
}

#[test]
fn gzip_encoding_is_detected() {
    assert!(is_gzip_encoded(&vec![pair("a", "b"), pair("Content-Encoding", "gzip")]));
    assert!(!is_gzip_encoded(&vec![pair("content-encoding", "GZIP")]));
    assert!(!is_gzip_encoded(&vec![pair("content-encoding", "deflate")]));
    assert!(!is_gzip_encoded(&vec![]));
}

#[test]
fn msgpack_type_is_exact() {
    assert!(is_msgpack_type("application/msgpack"));
    assert!(!is_msgpack_type("application/msgpack; charset=utf-8"));
    assert!(!is_msgpack_type("application/json"));
}

#[test]
fn capture_dir_and_response() {
    assert_eq!(capture_dir_for("/api/v2/spans", "abc"), "requests/api/v2/spans/abc");
    assert_eq!(id_response_for("abc"), "{\"request_id\": \"abc\"}");
}

#[test]
fn capture_uses_header_id() {
    let headers = vec![pair("dd-request-id", "req-7"), pair("content-encoding", "gzip")];
    let c = plan_capture_with_id("/api/v2/spans", &headers, "fresh".to_string());
    assert_eq!(c.request_id, "req-7");
    assert_eq!(c.dir, "requests/api/v2/spans/req-7");
    assert_eq!(c.headers_text, "dd-request-id: req-7\ncontent-encoding: gzip\n");
    assert!(c.gzipped);
    assert_eq!(c.response, "{\"request_id\": \"req-7\"}");
}

#[test]
fn capture_falls_back_to_fresh_id() {
    let c = plan_capture_with_id("/x", &vec![pair("host", "h")], "fresh".to_string());
    assert_eq!(c.request_id, "fresh");
    assert_eq!(c.dir, "requests/x/fresh");
    assert!(!c.gzipped);
}

#[test]
fn capture_without_header_gets_random_uuid() {
    let a = plan_capture("/x", &vec![]);
    let b = plan_capture("/x", &vec![]);
    assert!(is_v4_uuid(&a.request_id));
    assert!(is_v4_uuid(&b.request_id));
    assert_ne!(a.request_id, b.request_id);
    assert_eq!(a.dir, format!("requests/x/{}", a.request_id));
}

#[test]
fn trace_requires_msgpack() {
    assert!(matches!(plan_trace_with_id("application/json", &vec![], "f".to_string()), Err(TraceError::NotMsgpack)));
    assert!(matches!(plan_trace("text/plain", &vec![]), Err(TraceError::NotMsgpack)));
    let c = plan_trace_with_id("application/msgpack", &vec![], "f".to_string()).ok().unwrap();
    assert_eq!(c.dir, "requests/v0.4/traces/f");
    assert_eq!(c.response, "{\"request_id\": \"f\"}");
}

#[test]
fn profile_capture_dir() {
    let c = plan_profile_with_id(&vec![pair("DD-REQUEST-ID", "p1")], "f".to_string());
    assert_eq!(c.dir, "requests/profiling/v1/input/p1");
}

#[test]
fn msgpack_body_is_kept_raw_even_if_gzipped() {
    let body = gzip(b"hello");
    match stored_body("application/msgpack", true, body.clone()) {
        Some(StoredBody::Bytes(b)) => assert_eq!(b, body),
        _ => panic!("expected raw bytes"),
    }
}

#[test]
fn plain_body_is_kept_raw() {
    match stored_body("application/json", false, vec![1, 2, 3]) {
        Some(StoredBody::Bytes(b)) => assert_eq!(b, vec![1, 2, 3]),
        _ => panic!("expected raw bytes"),
    }
}

#[test]
fn gzipped_body_is_decompressed_to_text() {
    match stored_body("application/json", true, gzip("{\"spans\": \"é\"}".as_bytes())) {
        Some(StoredBody::Text(t)) => assert_eq!(t, "{\"spans\": \"é\"}"),
        _ => panic!("expected text"),
    }
}

#[test]
fn bad_gzip_body_is_refused() {
    assert!(stored_body("application/json", true, b"not gzip".to_vec()).is_none());
    assert!(stored_body("application/json", true, gzip(&[0xff, 0xfe, 0x00])).is_none());
}

#[test]
fn decoding_helpers() {
    assert_eq!(decode_text(b"abc".to_vec()), Some("abc".to_string()));
    assert_eq!(decode_text(vec![0xc3, 0x28]), None);
    assert_eq!(decompress(&gzip(&[0, 1, 2, 255])), Some(vec![0, 1, 2, 255]));
    assert_eq!(decompress(b"xyz"), None);
    assert_eq!(decompress_text(&gzip(b"plain")), Some("plain".to_string()));
}

#[test]
fn non_form_data_parts_are_skipped() {
    assert!(field_is_plannable(false, &vec![]));
    assert!(matches!(plan_field(false, &vec![]), FieldPlan::Skip));
}

#[test]
fn form_data_part_is_stored_under_its_file_name() {
    let params = vec![DispositionParam::Name("auto".to_string()), DispositionParam::Filename("auto.pprof".to_string())];
    assert!(field_is_plannable(true, &params));
    match plan_field(true, &params) {
        FieldPlan::Store { file_name, cpu_profile } => {
            assert_eq!(file_name, "auto.pprof");
            assert!(!cpu_profile);
        }
        FieldPlan::Skip => panic!("expected store"),
    }
}

#[test]
fn cpu_profile_part_is_recognised() {
    let params = vec![DispositionParam::Name("cpu".to_string()), DispositionParam::Filename("cpu.pprof".to_string())];
    assert!(matches!(plan_field(true, &params), FieldPlan::Store { cpu_profile: true, .. }));
}

#[test]
fn form_data_part_without_file_name_is_not_plannable() {
    assert!(!field_is_plannable(true, &vec![DispositionParam::Name("event".to_string())]));
    assert!(!field_is_plannable(
        true,
        &vec![DispositionParam::Name("a".to_string()), DispositionParam::Other]
    ));
}

#[test]
fn trace_spans_are_exported_to_the_traces_directory() {
    let exporter = dd_localstack::capture::trace_exporter();
    assert_eq!(exporter.dir(), "traces");
    assert_eq!(exporter.file_path(42), "traces/42.json");
}
