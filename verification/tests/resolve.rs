use osu_collect::error::ParseError;
use osu_collect::resolver::parse_collection_id;

#[test]
fn numeric_id_is_parsed() {
    assert_eq!(parse_collection_id("123"), Ok(123));
    assert_eq!(parse_collection_id("0"), Ok(0));
    assert_eq!(parse_collection_id("4294967295"), Ok(u32::MAX));
}

#[test]
fn numeric_id_is_trimmed() {
    assert_eq!(parse_collection_id("  456  "), Ok(456));
    assert_eq!(parse_collection_id("\t789\n"), Ok(789));
}

#[test]
fn numeric_overflow_is_not_numeric() {
    assert_eq!(parse_collection_id("4294967296"), Err(ParseError::NotNumeric));
    assert_eq!(parse_collection_id("99999999999999999999"), Err(ParseError::NotNumeric));
}

#[test]
fn empty_input_is_rejected() {
    assert_eq!(parse_collection_id(""), Err(ParseError::EmptyInput));
    assert_eq!(parse_collection_id("   "), Err(ParseError::EmptyInput));
}

#[test]
fn non_numeric_non_url_is_malformed() {
    assert_eq!(parse_collection_id("abc def"), Err(ParseError::MalformedUrl));
    assert_eq!(parse_collection_id("12a"), Err(ParseError::MalformedUrl));
    assert_eq!(parse_collection_id("not a url at all"), Err(ParseError::MalformedUrl));
}

#[test]
fn foreign_host_is_rejected() {
    assert_eq!(
        parse_collection_id("https://example.com/collections/123"),
        Err(ParseError::InvalidHost)
    );
    assert_eq!(
        parse_collection_id("https://osucollector.org/collections/123"),
        Err(ParseError::InvalidHost)
    );
}

#[test]
fn insecure_scheme_is_rejected() {
    assert_eq!(
        parse_collection_id("http://osucollector.com/collections/123"),
        Err(ParseError::InsecureScheme)
    );
}

#[test]
fn bad_host_wins_over_bad_path() {
    // The path is never examined when the host is wrong.
    assert_eq!(
        parse_collection_id("https://example.com/definitely/not/collections"),
        Err(ParseError::InvalidHost)
    );
}

#[test]
fn wrong_path_shape_is_rejected() {
    assert_eq!(
        parse_collection_id("https://osucollector.com/users/123"),
        Err(ParseError::InvalidPath)
    );
    assert_eq!(parse_collection_id("https://osucollector.com/"), Err(ParseError::InvalidPath));
}

#[test]
fn non_numeric_second_segment_is_rejected() {
    assert_eq!(
        parse_collection_id("https://osucollector.com/collections/abc"),
        Err(ParseError::NotNumeric)
    );
    assert_eq!(
        parse_collection_id("https://osucollector.com/collections/4294967296"),
        Err(ParseError::NotNumeric)
    );
}

#[test]
fn plus_signed_second_segment_parses_as_u32() {
    // An unsigned decimal parse accepts one leading plus sign.
    assert_eq!(parse_collection_id("https://osucollector.com/collections/+123"), Ok(123));
    assert_eq!(
        parse_collection_id("https://osucollector.com/collections/+"),
        Err(ParseError::NotNumeric)
    );
    assert_eq!(
        parse_collection_id("https://osucollector.com/collections/++1"),
        Err(ParseError::NotNumeric)
    );
    // The raw-id form is digits only.
    assert_eq!(parse_collection_id("+123"), Err(ParseError::MalformedUrl));
}

#[test]
fn collection_url_resolves() {
    assert_eq!(parse_collection_id("https://osucollector.com/collections/123"), Ok(123));
    assert_eq!(
        parse_collection_id("  https://osucollector.com/collections/9/extra/segments  "),
        Ok(9)
    );
}
