//! Turning literals into values: strings, booleans, null, decimal numbers
//! and hex strings.
use crate::error::DbError;
use crate::types::{Literal, Value, ValueView};
use vstd::prelude::*;

verus! {

/// The value of a hex digit, if `c` is one (either case).
pub open spec fn hex_digit_value(c: char) -> Option<nat> {
    if '0' <= c && c <= '9' {
        Some((c as nat - '0' as nat) as nat)
    } else if 'a' <= c && c <= 'f' {
        Some((c as nat - 'a' as nat + 10) as nat)
    } else if 'A' <= c && c <= 'F' {
        Some((c as nat - 'A' as nat + 10) as nat)
    } else {
        None
    }
}

/// Whether `s` is an even number of hex digits.
pub open spec fn is_hex_text(s: Seq<char>) -> bool {
    s.len() % 2 == 0 && forall|i: int| 0 <= i < s.len() ==> (#[trigger] hex_digit_value(s[i])) is Some
}

/// The bytes that an even run of hex digits spells, two digits to a byte,
/// high digit first.
pub open spec fn hex_bytes(s: Seq<char>) -> Seq<u8> {
    Seq::new(
        s.len() / 2,
        |i: int| (hex_digit_value(s[2 * i]).unwrap() * 16 + hex_digit_value(s[2 * i + 1]).unwrap()) as u8,
    )
}

/// Relies on `hex::decode`: it accepts exactly an even number of hex digits
/// of either case and returns one byte per pair, high digit first.
#[verifier::external_body]
fn decode_hex(s: &str) -> (r: Option<Vec<u8>>)
    ensures
        r is Some <==> is_hex_text(s@),
        r matches Some(b) ==> b@ == hex_bytes(s@),
{
    hex::decode(s).ok()
}

/// The canonical text of the decimal number written `s`, or `None` where `s`
/// is no decimal number, as `bigdecimal` parses and prints it.
pub uninterp spec fn decimal_text(s: Seq<char>) -> Option<Seq<char>>;

/// Relies on `BigDecimal::from_str` and its `Display`: the outcome depends on
/// the text alone.
#[verifier::external_body]
fn canonical_decimal(s: &str) -> (r: Option<String>)
    ensures
        match r {
            Some(t) => decimal_text(s@) == Some(t@),
            None => decimal_text(s@) is None,
        },
{
    match <bigdecimal::BigDecimal as std::str::FromStr>::from_str(s) {
        Ok(d) => Some(d.to_string()),
        Err(_) => None,
    }
}

/// The value that a literal stands for, or why it stands for none.
pub open spec fn literal_result(lit: Literal) -> Result<ValueView, DbError> {
    match lit {
        Literal::Text(s) => Ok(ValueView::Text(s@)),
        Literal::Boolean(b) => Ok(ValueView::Boolean(b)),
        Literal::Null => Ok(ValueView::Null),
        Literal::Number(s) => match decimal_text(s@) {
            Some(t) => Ok(ValueView::Number(t)),
            None => Err(DbError::InvalidNumber(s)),
        },
        Literal::HexString(s) => if is_hex_text(s@) {
            Ok(ValueView::Bytes(hex_bytes(s@)))
        } else {
            Err(DbError::InvalidHex(s))
        },
        Literal::Unsupported(s) => Err(DbError::UnsupportedLiteral(s)),
    }
}

/// Whether a result and its specification agree: the same value, or the
/// same error.
pub open spec fn value_agrees(r: Result<Value, DbError>, s: Result<ValueView, DbError>) -> bool {
    match (r, s) {
        (Ok(v), Ok(w)) => v@ == w,
        (Err(e), Err(f)) => e == f,
        _ => false,
    }
}

impl Value {
    /// The value of a literal: strings of every quoting style give text,
    /// numbers their canonical decimal text, hex strings their bytes; every
    /// other literal form is refused.
    pub fn from_literal(lit: &Literal) -> (r: Result<Value, DbError>)
        ensures
            value_agrees(r, literal_result(*lit)),
    {
        match lit {
            Literal::Text(s) => Ok(Value::Text(s.clone())),
            Literal::Boolean(b) => Ok(Value::Boolean(*b)),
            Literal::Null => Ok(Value::Null),
            Literal::Number(s) => match canonical_decimal(s.as_str()) {
                Some(t) => Ok(Value::Number(t)),
                None => Err(DbError::InvalidNumber(s.clone())),
            },
            Literal::HexString(s) => match decode_hex(s.as_str()) {
                Some(b) => Ok(Value::Bytes(b)),
                None => Err(DbError::InvalidHex(s.clone())),
            },
            Literal::Unsupported(s) => Err(DbError::UnsupportedLiteral(s.clone())),
        }
    }
}

} // verus!
