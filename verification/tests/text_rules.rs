use dd_localstack::exporters::{FileExporter, FileWriter};
use dd_localstack::text::{decimal_string, lowercase_equals, same_text};

#[test]
fn decimal_of_zero() {
    assert_eq!(decimal_string(0), "0");
}

#[test]
fn decimal_of_large_numbers() {
    assert_eq!(decimal_string(1_700_000_000_123_456_789), "1700000000123456789");
    assert_eq!(decimal_string(u128::MAX), u128::MAX.to_string());
    assert_eq!(decimal_string(10), "10");
}

#[test]
fn decimal_reads_back() {
    for n in [0u128, 7, 10, 99, 100, 12345, 4_000_000_000] {
        assert_eq!(decimal_string(n).parse::<u128>().unwrap(), n);
    }
}

#[test]
fn lowercase_comparison_folds_ascii_only() {
    assert!(lowercase_equals("DD-Request-ID", "dd-request-id"));
    assert!(lowercase_equals("dd-request-id", "dd-request-id"));
    assert!(!lowercase_equals("dd-request-i", "dd-request-id"));
    assert!(!lowercase_equals("dd_request_id", "dd-request-id"));
    assert!(!lowercase_equals("É", "é"));
}

#[test]
fn same_text_compares_characters() {
    assert!(same_text("gzip", "gzip"));
    assert!(!same_text("gzip", "GZIP"));
}

#[test]
fn file_exporter_names_files_by_timestamp() {
    let exporter = FileExporter::new("requests/traces".to_string());
    assert_eq!(exporter.dir(), "requests/traces");
    assert_eq!(exporter.file_path(1_712_345_678_901_234_567), "requests/traces/1712345678901234567.json");
    assert_eq!(exporter.file_path(0), "requests/traces/0.json");
}

#[test]
fn file_writer_joins_base_and_name() {
    let writer = FileWriter::new("requests/api/v2/spans/abc".to_string());
    assert_eq!(writer.base_path(), "requests/api/v2/spans/abc");
    assert_eq!(writer.file_path("headers"), "requests/api/v2/spans/abc/headers");
    assert_eq!(writer.file_path("cpu.pprof"), "requests/api/v2/spans/abc/cpu.pprof");
}
