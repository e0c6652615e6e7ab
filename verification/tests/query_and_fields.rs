use dd_localstack::fields::latest_fields;
use dd_localstack::query::{parse_query, query_args, query_is_well_formed};

fn pair(a: &str, b: &str) -> (String, String) {
    (a.to_string(), b.to_string())
}

#[test]
fn parses_fields_in_order() {
    assert_eq!(parse_query("a=1&b=2"), vec![pair("a", "1"), pair("b", "2")]);
}

#[test]
fn empty_query_has_no_fields() {
    assert!(query_is_well_formed(""));
    assert_eq!(parse_query(""), Vec::<(String, String)>::new());
}

#[test]
fn empty_segments_are_skipped() {
    assert!(query_is_well_formed("&a=1&&b=2&"));
    assert_eq!(parse_query("&a=1&&b=2&"), vec![pair("a", "1"), pair("b", "2")]);
}

#[test]
fn value_stops_at_second_equals() {
    assert_eq!(parse_query("a=1=2&b="), vec![pair("a", "1"), pair("b", "")]);
}

#[test]
fn empty_name_is_kept() {
    assert_eq!(parse_query("=x"), vec![pair("", "x")]);
}

#[test]
fn segment_without_equals_is_not_well_formed() {
    assert!(!query_is_well_formed("a=1&b"));
    assert!(!query_is_well_formed("flag"));
    assert!(query_is_well_formed("a=1&b=2"));
}

#[test]
fn non_ascii_text_is_kept() {
    assert_eq!(parse_query("ключ=значение&é=ü"), vec![pair("ключ", "значение"), pair("é", "ü")]);
}

#[test]
fn later_argument_overrides_earlier() {
    assert_eq!(query_args("a=1&b=2&a=3"), vec![pair("a", "3"), pair("b", "2")]);
}

#[test]
fn distinct_fields_come_back_unchanged() {
    let fields = vec![pair("x", "1"), pair("y", "2"), pair("z", "")];
    assert_eq!(latest_fields(&fields), fields);
}

#[test]
fn latest_fields_keeps_last_value_per_name() {
    let fields = vec![pair("x", "1"), pair("y", "2"), pair("x", "3"), pair("y", "4"), pair("x", "5")];
    assert_eq!(latest_fields(&fields), vec![pair("x", "5"), pair("y", "4")]);
}

#[test]
fn round_trip_of_rendered_query() {
    let fields = vec![pair("service", "web"), pair("", ""), pair("env", "prod")];
    let rendered: Vec<String> = fields.iter().map(|(k, v)| format!("{}={}", k, v)).collect();
    let q = rendered.join("&");
    assert!(query_is_well_formed(&q));
    assert_eq!(parse_query(&q), fields);
}

#[test]
fn empty_pieces_give_the_same_arguments() {
    assert_eq!(query_args("a=1&b=2"), query_args("&a=1&&b=2&"));
    assert_eq!(parse_query("a=1&b=2"), parse_query("&&a=1&b=2"));
    assert_eq!(query_is_well_formed("a=1&b"), query_is_well_formed("&a=1&&b&"));
}
