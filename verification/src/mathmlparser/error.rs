//! The errors of the MathML parser.
use vstd::prelude::*;

use crate::text::string_from_chars;

verus! {

/// An error of the parser, with the byte offset in the input where it was noticed, if known.
#[derive(Debug)]
pub struct ParsingError {
    pub position: Option<usize>,
    pub error_type: ErrorType,
}

/// What went wrong.
#[derive(Debug)]
pub enum ErrorType {
    /// An element that is not part of the supported MathML subset.
    UnknownElement(String),
    /// The input ended inside an element.
    UnexpectedEndOfInput,
    /// An end tag without a matching start tag.
    WrongEndElement(String),
    /// Any other problem, described by a message.
    OtherError(String),
    /// Text or a name that is not valid UTF-8.
    Utf8Error,
    /// The XML itself is malformed; the message of the XML reader.
    XmlError(String),
}

/// What went wrong, as plain values (see `ErrorType`).
pub enum ErrorKind {
    UnknownElement(Seq<char>),
    UnexpectedEndOfInput,
    WrongEndElement(Seq<char>),
    OtherError(Seq<char>),
    Utf8Error,
    XmlError(Seq<char>),
}

impl ErrorType {
    /// The kind of error with its text.
    pub open spec fn kind(self) -> ErrorKind {
        match self {
            ErrorType::UnknownElement(s) => ErrorKind::UnknownElement(s@),
            ErrorType::UnexpectedEndOfInput => ErrorKind::UnexpectedEndOfInput,
            ErrorType::WrongEndElement(s) => ErrorKind::WrongEndElement(s@),
            ErrorType::OtherError(s) => ErrorKind::OtherError(s@),
            ErrorType::Utf8Error => ErrorKind::Utf8Error,
            ErrorType::XmlError(s) => ErrorKind::XmlError(s@),
        }
    }
}

/// An error as plain values: its position and its kind.
impl View for ParsingError {
    type V = (Option<usize>, ErrorKind);

    open spec fn view(&self) -> (Option<usize>, ErrorKind) {
        (self.position, self.error_type.kind())
    }
}

impl ParsingError {
    /// An `OtherError` with the given message, at the given position.
    pub fn from_string(position: usize, message: String) -> (r: ParsingError)
        ensures
            r.position == Some(position),
            r.error_type == ErrorType::OtherError(message),
    {
        ParsingError { position: Some(position), error_type: ErrorType::OtherError(message) }
    }

    /// An error of the given type, at the given position.
    pub fn of_type(position: usize, err_type: ErrorType) -> (r: ParsingError)
        ensures
            r.position == Some(position),
            r.error_type == err_type,
    {
        ParsingError { position: Some(position), error_type: err_type }
    }

    /// The text of an error, as the parser reports it to people: the problem and the names
    /// involved.
    pub open spec fn message_of(t: ErrorType) -> Seq<char> {
        match t {
            ErrorType::UnknownElement(name) => "Unknown Element: \""@ + name@ + "\""@,
            ErrorType::UnexpectedEndOfInput => "Unexpected end of input."@,
            ErrorType::WrongEndElement(name) => "Unexpected end element \"<"@ + name@
                + ">\" without corresponding start element."@,
            ErrorType::OtherError(message) => "Error: "@ + message@,
            ErrorType::Utf8Error => "invalid utf-8"@,
            ErrorType::XmlError(message) => "XML error: "@ + message@,
        }
    }

    /// The text of the error (see `message_of`).
    pub fn message(&self) -> (r: String)
        ensures
            r@ == Self::message_of(self.error_type),
    {
        let mut r = String::new();
        match &self.error_type {
            ErrorType::UnknownElement(name) => {
                r.append("Unknown Element: \"");
                r.append(name.as_str());
                r.append("\"");
            },
            ErrorType::UnexpectedEndOfInput => r.append("Unexpected end of input."),
            ErrorType::WrongEndElement(name) => {
                r.append("Unexpected end element \"<");
                r.append(name.as_str());
                r.append(">\" without corresponding start element.");
            },
            ErrorType::OtherError(message) => {
                r.append("Error: ");
                r.append(message.as_str());
            },
            ErrorType::Utf8Error => r.append("invalid utf-8"),
            ErrorType::XmlError(message) => {
                r.append("XML error: ");
                r.append(message.as_str());
            },
        }
        r
    }

    /// An `OtherError` with the given message and no position.
    pub fn from_message(message: String) -> (r: ParsingError)
        ensures
            r.position is None,
            r.error_type == ErrorType::OtherError(message),
    {
        ParsingError { position: None, error_type: ErrorType::OtherError(message) }
    }
}

/// The message for a schema `element` (by its tag name) that needs `required` children and
/// has `found`: the name is quoted twice, the counts are in decimal.
pub open spec fn wrong_count_message(element: Seq<char>, required: nat, found: nat) -> Seq<char> {
    "\"\""@ + element + "\"\" element requires "@ + decimal(required) + " arguments. Found "@ + decimal(found)
        + " arguments."@
}

/// The decimal numbers of bytes, separated by `, `.
pub open spec fn byte_items(bytes: Seq<u8>) -> Seq<char>
    decreases bytes.len(),
{
    if bytes.len() == 0 {
        Seq::empty()
    } else if bytes.len() == 1 {
        decimal(bytes[0] as nat)
    } else {
        byte_items(bytes.drop_last()) + seq![',', ' '] + decimal(bytes.last() as nat)
    }
}

/// The message for an element inside a token that the parser does not implement (`mglyph`,
/// `malignmark`): its name's bytes as a list of decimal numbers (`[109, 105]` for `mi`).
pub open spec fn not_implemented_message(name: Seq<u8>) -> Seq<char> {
    seq!['['] + byte_items(name) + "] element is currently not implemented."@
}

/// The message for an element inside a token that the parser does not implement (see
/// `not_implemented_message`).
pub fn not_implemented_text(name: &[u8]) -> (r: String)
    ensures
        r@ == not_implemented_message(name@),
{
    let mut items: Vec<char> = Vec::new();
    let mut k: usize = 0;
    while k < name.len()
        invariant
            k <= name@.len(),
            items@ == byte_items(name@.take(k as int)),
        decreases name@.len() - k,
    {
        let digits = decimal_chars(name[k] as u64);
        let ghost before = items@;
        if k > 0 {
            items.push(',');
            items.push(' ');
        }
        let mut d: usize = 0;
        while d < digits.len()
            invariant
                d <= digits@.len(),
                items@ == before + (if k > 0 { seq![',', ' '] } else { Seq::<char>::empty() }) + digits@.take(d as int),
            decreases digits@.len() - d,
        {
            items.push(digits[d]);
            proof {
                assert(digits@.take(d + 1) =~= digits@.take(d as int).push(digits@[d as int]));
            }
            d = d + 1;
        }
        proof {
            assert(digits@.take(d as int) =~= digits@);
            assert(name@.take(k + 1).drop_last() =~= name@.take(k as int));
            if k == 0 {
                assert(items@ =~= decimal(name@[0] as nat));
            } else {
                assert(items@ =~= byte_items(name@.take(k as int)) + seq![',', ' '] + decimal(name@[k as int] as nat));
            }
        }
        k = k + 1;
    }
    proof {
        assert(name@.take(k as int) =~= name@);
    }
    let mut r = String::new();
    r.append("[");
    let list = string_from_chars(items.as_slice());
    r.append(list.as_str());
    r.append("] element is currently not implemented.");
    proof {
        reveal_strlit("[");
        assert("["@ =~= seq!['[']);
    }
    r
}

/// The message for a schema `element` that needs `required` children and has `found` (see
/// `wrong_count_message`).
pub fn wrong_count_text(element: &str, required: u64, found: u64) -> (r: String)
    ensures
        r@ == wrong_count_message(element@, required as nat, found as nat),
{
    let mut r = String::new();
    r.append("\"\"");
    r.append(element);
    r.append("\"\" element requires ");
    let required_digits = string_from_chars(decimal_chars(required).as_slice());
    r.append(required_digits.as_str());
    r.append(" arguments. Found ");
    let found_digits = string_from_chars(decimal_chars(found).as_slice());
    r.append(found_digits.as_str());
    r.append(" arguments.");
    r
}

/// The digit of a number below ten.
pub open spec fn digit_char(d: nat) -> char {
    if d == 0 {
        '0'
    } else if d == 1 {
        '1'
    } else if d == 2 {
        '2'
    } else if d == 3 {
        '3'
    } else if d == 4 {
        '4'
    } else if d == 5 {
        '5'
    } else if d == 6 {
        '6'
    } else if d == 7 {
        '7'
    } else if d == 8 {
        '8'
    } else {
        '9'
    }
}

/// The decimal notation of a number, without leading zeros.
pub open spec fn decimal(n: nat) -> Seq<char>
    decreases n,
{
    if n < 10 {
        seq![digit_char(n)]
    } else {
        decimal(n / 10).push(digit_char(n % 10))
    }
}

/// The decimal notation of a number.
pub fn decimal_chars(n: u64) -> (r: Vec<char>)
    ensures
        r@ == decimal(n as nat),
    decreases n,
{
    let d = n % 10;
    let digit = if d == 0 {
        '0'
    } else if d == 1 {
        '1'
    } else if d == 2 {
        '2'
    } else if d == 3 {
        '3'
    } else if d == 4 {
        '4'
    } else if d == 5 {
        '5'
    } else if d == 6 {
        '6'
    } else if d == 7 {
        '7'
    } else if d == 8 {
        '8'
    } else {
        '9'
    };
    if n < 10 {
        let mut v: Vec<char> = Vec::new();
        v.push(digit);
        assert(v@ =~= seq![digit_char(n as nat)]);
        v
    } else {
        let mut v = decimal_chars(n / 10);
        v.push(digit);
        v
    }
}

} // verus!
