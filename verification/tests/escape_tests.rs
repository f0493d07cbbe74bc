use math_render::mathmlparser::escape::{parse_numeric_entity, unescape_str, EscapeError};

#[test]
fn test_unescape() {
    assert_eq!("Hello World!", unescape_str("Hello World!").unwrap());
    assert_eq!("Hello World#", unescape_str("Hello World&num;").unwrap());
    assert_eq!("Hello#World", unescape_str("Hello&num;World").unwrap());
    assert_eq!("#Hello World", unescape_str("&num;Hello World").unwrap());
    assert_eq!("#HelloÄWorld", unescape_str("&num;Hello&Auml;World").unwrap());

    assert_eq!("Hello World!", unescape_str("Hello World&#x21;").unwrap());
    assert_eq!("Hello World!", unescape_str("Hello World&#33;").unwrap());
}

#[test]
fn test_invalid_numeric_entity() {
    assert!(unescape_str("&#19FE;").is_err());
    assert!(unescape_str("&#x33FG;").is_err());
}

#[test]
fn unescape_error_kinds() {
    assert_eq!(unescape_str("a & b"), Err(EscapeError::BadEntity));
    assert_eq!(unescape_str("&amp"), Err(EscapeError::BadEntity));
    assert_eq!(unescape_str("&nosuchentity;"), Err(EscapeError::UnrecognizedEntity));
    assert_eq!(unescape_str("&#;"), Err(EscapeError::EmptyEntity));
    assert_eq!(unescape_str("&#0;"), Err(EscapeError::MalformedEntity));
    assert_eq!(unescape_str("&#x0;"), Err(EscapeError::MalformedEntity));
    assert_eq!(unescape_str("&#xD800;"), Err(EscapeError::InvalidHexadecimal));
    assert_eq!(unescape_str("&#55296;"), Err(EscapeError::InvalidDecimal));
    assert_eq!(unescape_str("&#4294967296;"), Err(EscapeError::InvalidDecimal));
}

#[test]
fn unescape_predefined_and_plus() {
    assert_eq!(unescape_str("&lt;&gt;&amp;&quot;&apos;").unwrap(), "<>&\"'");
    assert_eq!(unescape_str("&#+65;").unwrap(), "A");
    assert_eq!(unescape_str("&#x+41;").unwrap(), "A");
    assert_eq!(unescape_str("").unwrap(), "");
}

#[test]
fn numeric_entities() {
    let hex: Vec<char> = "x2211".chars().collect();
    assert_eq!(parse_numeric_entity(&hex), Ok('\u{2211}'));
    let dec: Vec<char> = "8721".chars().collect();
    assert_eq!(parse_numeric_entity(&dec), Ok('\u{2211}'));
    let bad: Vec<char> = "x110000".chars().collect();
    assert_eq!(parse_numeric_entity(&bad), Err(EscapeError::InvalidHexadecimal));
}

#[test]
fn text_without_references_is_unchanged() {
    for s in ["", "plain text", "a < b; c > d", "x;y#z"] {
        assert_eq!(unescape_str(s).unwrap(), s);
    }
}

#[test]
fn escape_error_messages() {
    assert_eq!(EscapeError::BadEntity.message(), "bad entity");
    assert_eq!(EscapeError::UnrecognizedEntity.message(), "unrecognized entity");
    assert_eq!(EscapeError::InvalidDecimal.message(), "Invalid decimal character number in an entity");
}
