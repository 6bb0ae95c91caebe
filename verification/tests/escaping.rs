use speedtest_logger::utils::escape_csv_field;

#[test]
fn field_with_comma_is_quoted() {
    assert_eq!(escape_csv_field("San Francisco, CA"), "\"San Francisco, CA\"");
}

#[test]
fn plain_field_is_unchanged() {
    assert_eq!(escape_csv_field("plain"), "plain");
}

#[test]
fn embedded_quotes_are_doubled() {
    assert_eq!(escape_csv_field("He said \"hi\""), "\"He said \"\"hi\"\"\"");
}

#[test]
fn field_with_line_feed_is_quoted() {
    assert_eq!(escape_csv_field("two\nlines"), "\"two\nlines\"");
}

#[test]
fn empty_field_stays_empty() {
    assert_eq!(escape_csv_field(""), "");
}

#[test]
fn lone_quote_becomes_four() {
    assert_eq!(escape_csv_field("\""), "\"\"\"\"");
}

#[test]
fn carriage_return_alone_needs_no_quotes() {
    assert_eq!(escape_csv_field("a\rb"), "a\rb");
}

#[test]
fn non_ascii_text_is_kept() {
    assert_eq!(escape_csv_field("Zürich"), "Zürich");
    assert_eq!(escape_csv_field("Zürich, CH"), "\"Zürich, CH\"");
}

#[test]
fn quoted_field_grows_by_two_and_by_each_quote() {
    let field = "a,\"b\",c";
    let escaped = escape_csv_field(field);
    assert_eq!(escaped.chars().count(), field.chars().count() + 2 + 2);
    assert!(escaped.starts_with('"') && escaped.ends_with('"'));
}
