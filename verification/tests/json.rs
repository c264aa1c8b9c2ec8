use loxone_rest_proxy::json::record_from_json;
use loxone_rest_proxy::json::record_to_json;
use loxone_rest_proxy::record::DeviceStatusRecord;

fn record(value: &str, control: &str, code: &str) -> DeviceStatusRecord {
    DeviceStatusRecord::new(value.to_string(), control.to_string(), code.to_string())
}

#[test]
fn renders_the_three_fields_in_order() {
    let out = record_to_json(&record("42", "io/0", "200"));
    assert_eq!(out, "{\"value\":\"42\",\"control\":\"io/0\",\"code\":\"200\"}");
}

#[test]
fn escapes_quotes_and_backslashes() {
    let out = record_to_json(&record("a\"b\\c", "x", "y"));
    assert_eq!(out, "{\"value\":\"a\\\"b\\\\c\",\"control\":\"x\",\"code\":\"y\"}");
}

#[test]
fn reads_back_a_rendered_record() {
    let r = record_from_json("{\"value\":\"42\",\"control\":\"io/0\",\"code\":\"200\"}").unwrap();
    assert_eq!(r.value, "42");
    assert_eq!(r.control, "io/0");
    assert_eq!(r.code, "200");
}

#[test]
fn round_trips_tricky_field_values() {
    let cases = [
        ("a\"b\\c", "io/0", "200"),
        ("", "", ""),
        ("\\", "\"", "\\\""),
        ("sp ace", "tab\there", "nl\nthere"),
        ("unicode \u{00e9}\u{4e2d}", "c", "k"),
    ];
    for (v, c, k) in cases {
        let rendered = record_to_json(&record(v, c, k));
        let back = record_from_json(&rendered).unwrap();
        assert_eq!(back.value, v);
        assert_eq!(back.control, c);
        assert_eq!(back.code, k);
    }
}

#[test]
fn rejects_documents_that_are_not_the_rendered_shape() {
    assert!(record_from_json("").is_none());
    assert!(record_from_json("{}").is_none());
    assert!(record_from_json("{\"value\":\"42\"}").is_none());
    assert!(record_from_json("{\"value\": \"42\",\"control\":\"c\",\"code\":\"k\"}").is_none());
    assert!(record_from_json("{\"control\":\"c\",\"value\":\"42\",\"code\":\"k\"}").is_none());
    assert!(
        record_from_json("{\"value\":\"42\",\"control\":\"c\",\"code\":\"k\"} ").is_none()
    );
    assert!(record_from_json("{\"value\":\"42\",\"control\":\"c\",\"code\":\"k\"").is_none());
    assert!(record_from_json("{\"value\":\"4\\2\",\"control\":\"c\",\"code\":\"k\"}").is_none());
}
