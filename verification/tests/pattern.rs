use serde_file_value::parse_file_ref;

#[test]
fn exact_reference_is_parsed() {
    assert_eq!(parse_file_ref("${file:/x}"), Some("/x".to_string()));
    assert_eq!(
        parse_file_ref("${file:/mnt/secrets/my_secret}"),
        Some("/mnt/secrets/my_secret".to_string())
    );
}

#[test]
fn empty_path_is_parsed() {
    assert_eq!(parse_file_ref("${file:}"), Some(String::new()));
}

#[test]
fn closing_brace_boundary_is_the_final_character() {
    assert_eq!(parse_file_ref("${file:a}b}"), Some("a}b".to_string()));
}

#[test]
fn non_anchored_strings_do_not_match() {
    assert_eq!(parse_file_ref("prefix ${file:/x} suffix"), None);
    assert_eq!(parse_file_ref("${file:/x} suffix"), None);
    assert_eq!(parse_file_ref("prefix ${file:/x}"), None);
}

#[test]
fn unterminated_reference_does_not_match() {
    assert_eq!(parse_file_ref("${file:/x"), None);
    assert_eq!(parse_file_ref("${file:"), None);
}

#[test]
fn unrelated_strings_do_not_match() {
    assert_eq!(parse_file_ref(""), None);
    assert_eq!(parse_file_ref("${foobar}"), None);
    assert_eq!(parse_file_ref("plain"), None);
    assert_eq!(parse_file_ref("${file}"), None);
}
