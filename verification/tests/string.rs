use sn_inference::json_scan::find_json_object_end_bytes;

#[test]
fn test_simple_object() {
    let input = br#"{"key":"value"} extra"#;
    let end = find_json_object_end_bytes(input).unwrap();
    assert_eq!(&input[..end], br#"{"key":"value"}"#);
}

#[test]
fn test_nested_object() {
    let input = br#"{"a":{"b":"c"}} trailing"#;
    let end = find_json_object_end_bytes(input).unwrap();
    assert_eq!(&input[..end], br#"{"a":{"b":"c"}}"#);
}

#[test]
fn test_incomplete_object() {
    let input = br#"{"key":"value""#;
    assert_eq!(find_json_object_end_bytes(input), None);
}

#[test]
fn test_escaped_quotes() {
    let input = br#"{"quote": "some \"nested\" quote"} and more"#;
    let end = find_json_object_end_bytes(input).unwrap();
    assert_eq!(&input[..end], br#"{"quote": "some \"nested\" quote"}"#);
}

#[test]
fn test_empty_object() {
    let input = br#"{} junk"#;
    let end = find_json_object_end_bytes(input).unwrap();
    assert_eq!(&input[..end], br#"{}"#);
}

#[test]
fn braces_inside_strings_are_not_counted() {
    let input = br#"{"a":"}{"} rest"#;
    assert_eq!(find_json_object_end_bytes(input), Some(10));
}

#[test]
fn stray_closing_brace_goes_below_zero() {
    let input = br#"}{}"#;
    assert_eq!(find_json_object_end_bytes(input), None);
}

#[test]
fn empty_buffer_has_no_object() {
    assert_eq!(find_json_object_end_bytes(b""), None);
}

#[test]
fn escaped_backslash_before_quote_ends_string() {
    let input = br#"{"a":"x\\"} z"#;
    assert_eq!(find_json_object_end_bytes(input), Some(11));
}

#[test]
fn appended_bytes_do_not_move_the_end() {
    let a = br#"{"k":1}"#.to_vec();
    let mut b = a.clone();
    b.extend_from_slice(br#"}}{"#);
    assert_eq!(find_json_object_end_bytes(&a), Some(7));
    assert_eq!(find_json_object_end_bytes(&b), Some(7));
}
