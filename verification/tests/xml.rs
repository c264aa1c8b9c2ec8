use loxone_rest_proxy::xml::parse_device_status;

#[test]
fn parses_a_self_closing_status_document() {
    let r = parse_device_status("<LL value=\"0.25\" control=\"io/light\" Code=\"200\"/>").unwrap();
    assert_eq!(r.value, "0.25");
    assert_eq!(r.control, "io/light");
    assert_eq!(r.code, "200");
}

#[test]
fn parses_single_quoted_attributes() {
    let r = parse_device_status("<LL value='1' control='c' Code='2'/>").unwrap();
    assert_eq!(r.value, "1");
    assert_eq!(r.control, "c");
    assert_eq!(r.code, "2");
}

#[test]
fn parses_with_loose_whitespace() {
    let r =
        parse_device_status("  \r\n<LL\tvalue = \"1\"  control\t=\n\"c\" Code=\"2\" />\n ").unwrap();
    assert_eq!(r.value, "1");
    assert_eq!(r.control, "c");
    assert_eq!(r.code, "2");
}

#[test]
fn parses_an_element_with_an_end_tag() {
    let r = parse_device_status("<LL value=\"1\" control=\"c\" Code=\"2\"></LL>").unwrap();
    assert_eq!(r.value, "1");
    let r = parse_device_status("<LL value=\"1\" control=\"c\" Code=\"2\"> \n </LL >").unwrap();
    assert_eq!(r.code, "2");
}

#[test]
fn rejects_a_mismatched_end_tag() {
    assert!(parse_device_status("<LL value=\"1\" control=\"c\" Code=\"2\"></XX>").is_none());
}

#[test]
fn rejects_non_whitespace_content() {
    assert!(parse_device_status("<LL value=\"1\" control=\"c\" Code=\"2\">text</LL>").is_none());
}

#[test]
fn first_occurrence_of_an_attribute_wins() {
    let r =
        parse_device_status("<LL value=\"1\" value=\"9\" control=\"c\" Code=\"2\"/>").unwrap();
    assert_eq!(r.value, "1");
}

#[test]
fn unknown_attributes_are_ignored() {
    let r = parse_device_status("<LL a=\"x\" value=\"1\" control=\"c\" b=\"y\" Code=\"2\"/>")
        .unwrap();
    assert_eq!(r.value, "1");
    assert_eq!(r.code, "2");
}

#[test]
fn attribute_names_are_case_sensitive() {
    assert!(parse_device_status("<LL value=\"1\" control=\"c\" code=\"2\"/>").is_none());
    assert!(parse_device_status("<LL Value=\"1\" control=\"c\" Code=\"2\"/>").is_none());
}

#[test]
fn rejects_a_document_missing_an_attribute() {
    assert!(parse_device_status("<LL control=\"c\" Code=\"2\"/>").is_none());
    assert!(parse_device_status("<LL value=\"1\" Code=\"2\"/>").is_none());
    assert!(parse_device_status("<LL/>").is_none());
}

#[test]
fn rejects_malformed_documents() {
    assert!(parse_device_status("").is_none());
    assert!(parse_device_status("   ").is_none());
    assert!(parse_device_status("not xml").is_none());
    assert!(parse_device_status("<").is_none());
    assert!(parse_device_status("<LL value=\"1\" control=\"c\" Code=\"2\"").is_none());
    assert!(parse_device_status("<LL value=1 control=\"c\" Code=\"2\"/>").is_none());
    assert!(parse_device_status("<1L value=\"1\" control=\"c\" Code=\"2\"/>").is_none());
    assert!(parse_device_status("<LL value=\"1\" control=\"c\" Code=\"2\"/>junk").is_none());
    assert!(parse_device_status("<LL value=\"1\"one control=\"c\" Code=\"2\"/>").is_none());
}

#[test]
fn attribute_values_are_kept_verbatim() {
    let r = parse_device_status("<LL value=\"a&amp;b\" control=\"x'y\" Code=\"2\"/>").unwrap();
    assert_eq!(r.value, "a&amp;b");
    assert_eq!(r.control, "x'y");
}

#[test]
fn empty_attribute_values_are_allowed() {
    let r = parse_device_status("<LL value=\"\" control=\"\" Code=\"\"/>").unwrap();
    assert_eq!(r.value, "");
    assert_eq!(r.control, "");
    assert_eq!(r.code, "");
}
