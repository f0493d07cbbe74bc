use math_render::mathmlparser::error::ErrorType;
use math_render::mathmlparser::number::length_from_attribute;
use math_render::mathmlparser::operator::Form;
use math_render::mathmlparser::xml_reader::{parse_tokens, XmlEvent, XmlToken};
use math_render::mathmlparser::{match_math_element, parse, ElementName, FromXmlAttribute};
use math_render::unicode_math::Family;
use math_render::{Field, LengthUnit, MathExpression, MathItem, Operator};

fn find_operator(expr: &MathExpression) -> &MathExpression {
    match *expr.item {
        MathItem::List(ref list) => list
            .iter()
            .filter(|&expr| matches!(*expr.item, MathItem::Operator(_)))
            .next()
            .expect("List contains no operator."),
        MathItem::Operator(_) => expr,
        ref other_item => panic!("Expected list or Operator. Found {:?}", other_item),
    }
}

fn operator_text(expr: &MathExpression) -> String {
    match *find_operator(expr).item {
        MathItem::Operator(Operator { field: Field::Unicode(ref text), .. }) => text.clone(),
        ref other_item => panic!("Expected MathItem::Operator. Found {:?}.", other_item),
    }
}

#[test]
fn test_operator() {
    let xml = "<mo>+</mo>";
    let expr = parse(xml.as_bytes()).unwrap();
    assert_eq!(operator_text(&expr), "+");
}

#[test]
fn test_prefix_operator() {
    let xml = "<mo>-</mo><mi>x</mi>";
    let expr = parse(xml.as_bytes()).unwrap();
    assert_eq!(operator_text(&expr), "\u{2212}");
}

#[test]
fn test_infix_operator() {
    let xml = "<mi>x</mi><mo>=</mo><mi>y</mi>";
    let expr = parse(xml.as_bytes()).unwrap();
    assert_eq!(operator_text(&expr), "=");
}

#[test]
fn test_postfix_operator() {
    let xml = "<mi>x</mi><mo>!</mo>";
    let expr = parse(xml.as_bytes()).unwrap();
    assert_eq!(operator_text(&expr), "!");
}

const SIMPLE: &str = "<math xmlns=\"http://www.w3.org/1998/Math/MathML\" display=\"block\">
  <mrow>
    <mi>x</mi>
    <mo>=</mo>
    <mfrac>
      <mrow>
        <mo>-</mo>
        <mi>b</mi>
        <mo>&#x00B1;</mo>
        <msqrt>
          <msup><mi>b</mi><mn>2</mn></msup>
          <mo>-</mo>
          <mn>4</mn><mi>a</mi><mi>c</mi>
        </msqrt>
      </mrow>
      <mrow><mn>2</mn><mi>a</mi></mrow>
    </mfrac>
  </mrow>
</math>";

#[test]
fn mathml_test() {
    parse(SIMPLE.as_bytes()).expect("invalid parse");
}

#[test]
fn italic_identifier_and_plain_number() {
    let expr = parse("<mi>x</mi>".as_bytes()).unwrap();
    match *expr.item {
        MathItem::Field(Field::Unicode(ref s)) => assert_eq!(s, "\u{1D465}"),
        ref other => panic!("unexpected {:?}", other),
    }
    let expr = parse("<mn>12</mn>".as_bytes()).unwrap();
    match *expr.item {
        MathItem::Field(Field::Unicode(ref s)) => assert_eq!(s, "12"),
        ref other => panic!("unexpected {:?}", other),
    }
    let expr = parse("<mi mathvariant=\"bold\">x</mi>".as_bytes()).unwrap();
    match *expr.item {
        MathItem::Field(Field::Unicode(ref s)) => assert_eq!(s, "\u{1D431}"),
        ref other => panic!("unexpected {:?}", other),
    }
}

#[test]
fn references_in_text() {
    let expr = parse("<mn>&#x31;&#50;</mn>".as_bytes()).unwrap();
    match *expr.item {
        MathItem::Field(Field::Unicode(ref s)) => assert_eq!(s, "12"),
        ref other => panic!("unexpected {:?}", other),
    }
}

#[test]
fn fraction_and_scripts() {
    let expr = parse("<mfrac><mn>1</mn><mn>2</mn></mfrac>".as_bytes()).unwrap();
    match *expr.item {
        MathItem::GeneralizedFraction(ref f) => {
            assert!(f.numerator.is_some() && f.denominator.is_some() && f.thickness.is_none())
        }
        ref other => panic!("unexpected {:?}", other),
    }
    let expr = parse("<msubsup><mi>x</mi><mn>1</mn><mn>2</mn></msubsup>".as_bytes()).unwrap();
    match *expr.item {
        MathItem::Atom(ref a) => {
            assert!(a.nucleus.is_some() && a.bottom_right.is_some() && a.top_right.is_some());
            assert!(a.top_left.is_none() && a.bottom_left.is_none());
        }
        ref other => panic!("unexpected {:?}", other),
    }
}

#[test]
fn large_operator_with_limits() {
    let expr = parse("<munderover><mo>&#x2211;</mo><mi>i</mi><mi>n</mi></munderover>".as_bytes()).unwrap();
    match *expr.item {
        MathItem::OverUnder(ref ou) => {
            assert!(ou.is_limits);
            match *ou.nucleus.as_ref().unwrap().item {
                MathItem::Operator(ref op) => assert!(op.is_large_op),
                ref other => panic!("unexpected {:?}", other),
            }
        }
        ref other => panic!("unexpected {:?}", other),
    }
}

#[test]
fn stretchy_fence() {
    let expr = parse("<mo>(</mo><mi>x</mi><mo>)</mo>".as_bytes()).unwrap();
    match *expr.item {
        MathItem::List(ref list) => {
            assert_eq!(list.len(), 3);
            match *list[0].item {
                MathItem::Operator(ref op) => {
                    let c = op.stretch_constraints.expect("a fence stretches");
                    assert!(c.symmetric);
                    assert_eq!(op.leading_space.numerator(), 0);
                }
                ref other => panic!("unexpected {:?}", other),
            }
        }
        ref other => panic!("unexpected {:?}", other),
    }
}

#[test]
fn operator_attributes_override() {
    let expr = parse("<mo stretchy=\"false\" lspace=\"2em\">(</mo>".as_bytes()).unwrap();
    match *expr.item {
        MathItem::Operator(ref op) => {
            assert!(op.stretch_constraints.is_none());
            assert_eq!(op.leading_space.numerator(), 2);
            assert_eq!(op.leading_space.denominator(), 1);
            assert_eq!(op.leading_space.unit(), LengthUnit::Em);
        }
        ref other => panic!("unexpected {:?}", other),
    }
}

#[test]
fn mspace_width() {
    let expr = parse("<mspace width=\"1.5em\"/>".as_bytes()).unwrap();
    match *expr.item {
        MathItem::Space(ref s) => {
            assert_eq!(s.width.numerator(), 15);
            assert_eq!(s.width.denominator(), 10);
            assert_eq!(s.width.unit(), LengthUnit::Em);
        }
        ref other => panic!("unexpected {:?}", other),
    }
}

#[test]
fn parse_errors() {
    let err = parse("<foo></foo>".as_bytes()).unwrap_err();
    assert!(matches!(err.error_type, ErrorType::UnknownElement(ref n) if n == "foo"));
    let err = parse("<mfrac><mn>1</mn></mfrac>".as_bytes()).unwrap_err();
    match err.error_type {
        ErrorType::OtherError(ref message) => {
            assert_eq!(message, "\"\"mfrac\"\" element requires 2 arguments. Found 1 arguments.");
        }
        ref other => panic!("unexpected {:?}", other),
    }
    let err = parse("<mi>x</mi><mo>a<mi>b</mi></mo>".as_bytes()).unwrap_err();
    assert!(matches!(err.error_type, ErrorType::OtherError(_)));
    let err = parse("<mi>&bogus;</mi>".as_bytes()).unwrap_err();
    assert!(matches!(err.error_type, ErrorType::OtherError(_)));
}

#[test]
fn wrong_end_and_end_of_input_in_events() {
    let start = |name: &str| XmlToken {
        event: XmlEvent::Start { name: name.to_string(), attributes: Vec::new() },
        position: 0,
    };
    let end = |name: &str| XmlToken { event: XmlEvent::End { name: name.to_string() }, position: 0 };
    let text = |t: &str| XmlToken { event: XmlEvent::Text(t.to_string()), position: 0 };
    // an end tag at the top level
    let tokens = vec![end("mrow")];
    let err = parse_tokens(&tokens).unwrap_err();
    assert!(matches!(err.error_type, ErrorType::WrongEndElement(ref n) if n == "mrow"));
    // a row that is not closed
    let tokens = vec![start("mrow"), start("mi"), text("x"), end("mi")];
    let err = parse_tokens(&tokens).unwrap_err();
    assert!(matches!(err.error_type, ErrorType::UnexpectedEndOfInput));
    // the wrong end tag
    let tokens = vec![start("mrow"), start("mi"), text("x"), end("mi"), end("msqrt")];
    let err = parse_tokens(&tokens).unwrap_err();
    assert!(matches!(err.error_type, ErrorType::WrongEndElement(ref n) if n == "msqrt"));
    // well formed
    let tokens = vec![start("mrow"), start("mi"), text("x"), end("mi"), end("mrow")];
    assert!(parse_tokens(&tokens).is_ok());
}

#[test]
fn element_table() {
    let mfrac = match_math_element(b"mfrac").unwrap();
    assert_eq!(mfrac.identifier, ElementName::Mfrac);
    assert!(match_math_element(b"mglyph").is_none());
    assert!(match_math_element(b"MI").is_none());
}

#[test]
fn attribute_values() {
    assert_eq!(bool::from_xml_attr("true"), Ok(true));
    assert_eq!(bool::from_xml_attr("false"), Ok(false));
    assert!(bool::from_xml_attr("yes").is_err());
    assert!(matches!(Form::from_xml_attr("prefix"), Ok(Form::Prefix)));
    assert!(matches!(Form::from_xml_attr("postfix"), Ok(Form::Postfix)));
    match Form::from_xml_attr("sideways") {
        Err(e) => assert_eq!(e.unknown_str, "sideways"),
        Ok(_) => panic!("accepted a bad form"),
    }
    assert_eq!(Family::from_xml_attr("double-struck"), Ok(Family::DoubleStruck));
    assert_eq!(Family::from_xml_attr("bold-sans-serif"), Ok(Family::SansSerifBold));
    assert_eq!(Family::from_xml_attr("gothic"), Err(()));
}

fn length_view(s: &str) -> Option<(i32, u32, LengthUnit)> {
    let chars: Vec<char> = s.chars().collect();
    length_from_attribute(&chars).map(|l| (l.numerator(), l.denominator(), l.unit()))
}

#[test]
fn length_attributes() {
    assert_eq!(length_view("1.5em"), Some((15, 10, LengthUnit::Em)));
    assert_eq!(length_view("-3pt"), Some((-3, 1, LengthUnit::Point)));
    assert_eq!(length_view("  2EM "), Some((2, 1, LengthUnit::Em)));
    assert_eq!(length_view("7px"), Some((7, 1, LengthUnit::Point)));
    assert_eq!(length_view(".25"), Some((25, 100, LengthUnit::Point)));
    assert_eq!(length_view("3.000000000pt"), Some((300000000, 100000000, LengthUnit::Point)));
    assert_eq!(length_view("99999999999"), Some((2147483647, 1, LengthUnit::Point)));
    assert_eq!(length_view("abc"), None);
    assert_eq!(length_view("1.2.3em"), None);
    assert_eq!(length_view("-"), None);
}

#[test]
fn error_messages() {
    let err = parse("<foo></foo>".as_bytes()).unwrap_err();
    assert_eq!(err.message(), "Unknown Element: \"foo\"");
    let err = parse("<mfrac><mn>1</mn></mfrac>".as_bytes()).unwrap_err();
    assert_eq!(err.message(), "Error: \"\"mfrac\"\" element requires 2 arguments. Found 1 arguments.");
    let err = math_render::mathmlparser::error::ParsingError::of_type(3, ErrorType::WrongEndElement("mfrac".to_string()));
    assert_eq!(err.message(), "Unexpected end element \"<mfrac>\" without corresponding start element.");
    let err = parse("<mrow><mi>x</mi></mfrac>".as_bytes()).unwrap_err();
    assert!(err.message().starts_with("XML error: "));
    assert_eq!(math_render::mathmlparser::error::decimal_chars(0), vec!['0']);
    assert_eq!(math_render::mathmlparser::error::decimal_chars(1207), vec!['1', '2', '0', '7']);
}

#[test]
fn test_set_default_form() {
    let info = stash::Stash::new();
    let context = math_render::mathmlparser::ParseContext { mathml_info: info };
    assert_eq!(context.len(), 0);
    let context = math_render::mathmlparser::ParseContext { mathml_info: stash::Stash::new() };
    assert_eq!(context.len(), 0);
}

#[test]
fn unknown_element_reported_after_its_end_tag() {
    let err = parse("<foo></foo>".as_bytes()).unwrap_err();
    assert!(matches!(err.error_type, ErrorType::UnknownElement(ref n) if n == "foo"));
    assert_eq!(err.position, Some(11));
    let err = parse("<mi>x</mi><foo><foo/><bar/></foo><mi>y</mi>".as_bytes()).unwrap_err();
    assert!(matches!(err.error_type, ErrorType::UnknownElement(ref n) if n == "foo"));
    assert_eq!(err.position, Some(33));
}

#[test]
fn unknown_element_without_end_tag_is_a_missing_end_tag() {
    let start = |name: &str| XmlToken {
        event: XmlEvent::Start { name: name.to_string(), attributes: Vec::new() },
        position: 5,
    };
    let tokens = vec![start("foo"), start("mi")];
    let err = parse_tokens(&tokens).unwrap_err();
    assert_eq!(
        err.message(),
        "XML error: ill-formed document: start tag not closed: `</foo>` not found before end of input"
    );
    assert_eq!(err.position, Some(5));
    let err = parse("<foo><mi>x</mi>  ".as_bytes()).unwrap_err();
    assert!(matches!(err.error_type, ErrorType::XmlError(_)));
    assert_eq!(err.position, Some(17));
}

#[test]
fn earlier_mathml_error_comes_before_a_later_xml_error() {
    let err = parse("<mfrac><mn>1</mn></mfrac></mrow>".as_bytes()).unwrap_err();
    match err.error_type {
        ErrorType::OtherError(ref message) => {
            assert_eq!(message, "\"\"mfrac\"\" element requires 2 arguments. Found 1 arguments.");
        }
        ref other => panic!("unexpected {:?}", other),
    }
    let err = parse("<foo></foo></mrow>".as_bytes()).unwrap_err();
    assert!(matches!(err.error_type, ErrorType::UnknownElement(ref n) if n == "foo"));
}

#[test]
fn xml_error_where_the_parser_needs_more_events() {
    let err = parse("<mrow><mi>x</mi></mfoo>".as_bytes()).unwrap_err();
    assert!(matches!(err.error_type, ErrorType::XmlError(_)));
    let err = parse("<mi>x</mi></mrow>".as_bytes()).unwrap_err();
    assert!(matches!(err.error_type, ErrorType::XmlError(_)));
}

#[test]
fn glyph_inside_token_is_not_implemented() {
    let err = parse("<mi>a<mglyph/></mi>".as_bytes()).unwrap_err();
    assert_eq!(err.message(), "Error: [109, 103, 108, 121, 112, 104] element is currently not implemented.");
    let err = parse("<mi>a<malignmark/></mi>".as_bytes()).unwrap_err();
    assert!(err.message().ends_with("] element is currently not implemented."));
    let err = parse("<mi>a<mn>1</mn></mi>".as_bytes()).unwrap_err();
    assert_eq!(err.message(), "Error: Unexpected new element.");
}

#[test]
fn end_of_input_is_reported_at_the_end() {
    let err = parse("<mrow><mi>x</mi>   ".as_bytes()).unwrap_err();
    assert!(matches!(err.error_type, ErrorType::UnexpectedEndOfInput));
    assert_eq!(err.position, Some(19));
}

#[test]
fn unknown_entity_in_a_token_names_the_escape_error() {
    let err = parse("<mi>a&bogus;</mi>".as_bytes()).unwrap_err();
    assert_eq!(err.message(), "Error: unrecognized entity");
    assert_eq!(err.position, None);
}

#[test]
fn first_error_in_document_order_is_reported() {
    let err = parse("<mfrac><mi>x</mi></mfrac><foo></foo>".as_bytes()).unwrap_err();
    assert!(matches!(err.error_type, ErrorType::OtherError(_)));
    assert_eq!(err.position, Some(25));
    let err = parse("<mrow><foo></foo><mfrac><mi>x</mi></mfrac></mrow>".as_bytes()).unwrap_err();
    assert!(matches!(err.error_type, ErrorType::UnknownElement(ref n) if n == "foo"));
    assert_eq!(err.position, Some(17));
}
