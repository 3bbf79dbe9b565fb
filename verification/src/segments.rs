//! Template segments and the per-segment matching algorithm.

use vstd::prelude::*;
use crate::errors::MatchError;
use crate::number;

verus! {

/// The kind of typed value a variable segment coerces its input into.
#[derive(Debug, Eq, PartialEq, Copy, Clone, Structural)]
pub enum SegType {
    Number,
    String,
    Date,
}

/// A calendar date, as the day it names: year, month (1 through 12) and day
/// of month (1 through 31).
#[derive(Debug, Eq, PartialEq, Copy, Clone, Structural)]
pub struct Date {
    pub year: i16,
    pub month: i8,
    pub day: i8,
}

/// The calendar date that a string names under the extended ISO grammar of
/// the date parser, if any; trailing text the grammar does not cover makes
/// it `None`.
pub uninterp spec fn date_of(s: Seq<char>) -> Option<Date>;

/// Relies on jiff's `fmt::temporal::DateTimeParser::parse_date`: whether a
/// string parses as a calendar date, and which date it names, depend on the
/// characters alone. The parser is a plain configuration value with no
/// per-call state; building one allocates nothing.
#[verifier::external_body]
fn parse_date(input: &str) -> (r: Option<Date>)
    ensures
        r == date_of(input@),
{
    match jiff::fmt::temporal::DateTimeParser::new().parse_date(input) {
        Ok(d) => Some(Date { year: d.year(), month: d.month(), day: d.day() }),
        Err(_) => None,
    }
}

/// A parsed segment value.
#[derive(Debug, Clone)]
pub enum MatchValue {
    /// Raw text, taken verbatim.
    String(String),
    /// A decimal floating-point literal, kept as the text that was validated
    /// against the number grammar.
    Number(String),
    /// A calendar date.
    Date(Date),
    /// The end-of-path sentinel; carries no payload.
    Terminus,
}

impl MatchValue {
    fn from_str(input: &str) -> (r: MatchValue)
        ensures
            r matches MatchValue::String(t) && t@ == input@,
    {
        MatchValue::String(String::from_str(input))
    }

    fn from_number(input: &str) -> (r: MatchValue)
        ensures
            r matches MatchValue::Number(t) && t@ == input@,
    {
        MatchValue::Number(String::from_str(input))
    }

    fn from_date(input: Date) -> (r: MatchValue)
        ensures
            r == MatchValue::Date(input),
    {
        MatchValue::Date(input)
    }
}

impl PartialEq for MatchValue {
    fn eq(&self, other: &MatchValue) -> (r: bool) {
        match (self, other) {
            (MatchValue::String(a), MatchValue::String(b)) => *a == *b,
            (MatchValue::Number(a), MatchValue::Number(b)) => *a == *b,
            (MatchValue::Date(a), MatchValue::Date(b)) => *a == *b,
            (MatchValue::Terminus, MatchValue::Terminus) => true,
            _ => false,
        }
    }
}

impl vstd::std_specs::cmp::PartialEqSpecImpl for MatchValue {
    open spec fn obeys_eq_spec() -> bool {
        true
    }

    open spec fn eq_spec(&self, other: &MatchValue) -> bool {
        match (self, other) {
            (MatchValue::String(a), MatchValue::String(b)) => a@ == b@,
            (MatchValue::Number(a), MatchValue::Number(b)) => a@ == b@,
            (MatchValue::Date(a), MatchValue::Date(b)) => a == b,
            (MatchValue::Terminus, MatchValue::Terminus) => true,
            _ => false,
        }
    }
}

/// `String` equality with a `&str`, as equality of the character sequences.
pub(crate) fn str_eq(a: &str, b: &str) -> (r: bool)
    ensures
        r == (a@ == b@),
{
    String::from_str(a) == String::from_str(b)
}

/// Whether coercion of `s` under `t` succeeds.
pub open spec fn coerce_ok(t: SegType, s: Seq<char>) -> bool {
    match t {
        SegType::String => true,
        SegType::Number => number::is_float_literal(s),
        SegType::Date => date_of(s) is Some,
    }
}

/// The value that successful coercion of `s` under `t` carries.
pub open spec fn coerce_value(t: SegType, s: Seq<char>, v: MatchValue) -> bool {
    match t {
        SegType::String => v matches MatchValue::String(x) && x@ == s,
        SegType::Number => v matches MatchValue::Number(x) && x@ == s,
        SegType::Date => v matches MatchValue::Date(d) && date_of(s) == Some(d),
    }
}

/// The "expected" description that a failed coercion under `t` reports.
pub open spec fn coerce_expected(t: SegType) -> Seq<char> {
    match t {
        SegType::String => "string"@,
        SegType::Number => "number"@,
        SegType::Date => "date"@,
    }
}

impl SegType {
    /// String coercion: always succeeds and wraps the input verbatim.
    pub fn match_string(input: &str) -> (r: Result<MatchValue, MatchError>)
        ensures
            r matches Ok(MatchValue::String(t)) && t@ == input@,
    {
        Ok(MatchValue::from_str(input))
    }

    /// Number coercion: succeeds exactly when the whole input is a decimal
    /// floating-point literal.
    pub fn match_number(input: &str) -> (r: Result<MatchValue, MatchError>)
        ensures
            number::is_float_literal(input@) ==> (r matches Ok(MatchValue::Number(t)) && t@
                == input@),
            !number::is_float_literal(input@) ==> (r matches Err(MatchError::MatchError(
                expected,
                got,
            )) && expected@ == "number"@ && got@ == input@),
    {
        if number::is_valid(input) {
            Ok(MatchValue::from_number(input))
        } else {
            Err(MatchError::MatchError(String::from_str("number"), String::from_str(input)))
        }
    }

    /// Date coercion: succeeds exactly when the whole input parses as a
    /// calendar date.
    pub fn match_date(input: &str) -> (r: Result<MatchValue, MatchError>)
        ensures
            date_of(input@) matches Some(d) ==> r matches Ok(v) && v == MatchValue::Date(d),
            date_of(input@) is None ==> (r matches Err(MatchError::MatchError(expected, got))
                && expected@ == "date"@ && got@ == input@),
    {
        match parse_date(input) {
            Some(d) => Ok(MatchValue::from_date(d)),
            None => Err(
                MatchError::MatchError(String::from_str("date"), String::from_str(input)),
            ),
        }
    }

    /// Coerces `input` under this segment type.
    pub fn match_segment(&self, input: &str) -> (r: Result<MatchValue, MatchError>)
        ensures
            coerce_ok(*self, input@) ==> (r matches Ok(v) && coerce_value(*self, input@, v)),
            !coerce_ok(*self, input@) ==> (r matches Err(MatchError::MatchError(expected, got))
                && expected@ == coerce_expected(*self) && got@ == input@),
    {
        match self {
            SegType::String => Self::match_string(input),
            SegType::Number => Self::match_number(input),
            SegType::Date => Self::match_date(input),
        }
    }
}

/// A named typed placeholder in a template.
#[derive(Debug, Clone)]
pub struct Var {
    pub name: String,
    pub seg_type: SegType,
}

impl Var {
    /// Builds a variable; its name must not be empty.
    pub fn new(name: String, seg_type: SegType) -> (r: Var)
        requires
            name@.len() > 0,
        ensures
            r.name == name,
            r.seg_type == seg_type,
    {
        Var { name, seg_type }
    }
}

/// One template unit of a path-like string.
#[derive(Debug, Clone)]
pub enum Segment {
    /// Matches exactly its literal text.
    Static(String),
    /// Matches whatever its variable's type coerces.
    Var(Var),
    /// Matches only the empty string; marks the end of a path.
    Terminus,
}

/// A successful match: the parsed value, and the originating variable's name
/// when the matched segment was a variable.
#[derive(Debug, Clone)]
pub struct MatchResult {
    pub value: MatchValue,
    pub name: Option<String>,
}

impl MatchResult {
    fn new_named(value: MatchValue, name: String) -> (r: MatchResult)
        ensures
            r.value == value,
            r.name == Some(name),
    {
        MatchResult { value, name: Some(name) }
    }

    fn new_unnamed(value: MatchValue) -> (r: MatchResult)
        ensures
            r.value == value,
            r.name is None,
    {
        MatchResult { value, name: None }
    }

    fn terminus() -> (r: MatchResult)
        ensures
            r.value is Terminus,
            r.name is None,
    {
        MatchResult { value: MatchValue::Terminus, name: None }
    }
}

impl Segment {
    /// Matches `input` against this segment: a static literal matches its
    /// exact text, the terminus matches only the empty string, and a
    /// variable coerces the input under its type, naming both the value and
    /// any failure after the variable.
    pub fn match_segment(&self, input: &str) -> (r: Result<MatchResult, MatchError>)
        ensures
            (*self matches Segment::Static(lit) ==> (if input@ == lit@ {
                r matches Ok(m) && m.name is None && (m.value matches MatchValue::String(t) && t@
                    == input@)
            } else {
                r matches Err(MatchError::MatchError(expected, got)) && expected@ == lit@ && got@
                    == input@
            })),
            (*self is Terminus ==> (if input@.len() == 0 {
                r matches Ok(m) && m.name is None && m.value is Terminus
            } else {
                r matches Err(MatchError::MatchError(expected, got)) && expected@ == "<Terminus>"@
                    && got@ == input@
            })),
            (*self matches Segment::Var(v) ==> (if coerce_ok(v.seg_type, input@) {
                r matches Ok(m) && (m.name matches Some(n) && n@ == v.name@) && coerce_value(
                    v.seg_type,
                    input@,
                    m.value,
                )
            } else {
                r matches Err(MatchError::NamedMatchError(n, expected, got)) && n@ == v.name@
                    && expected@ == coerce_expected(v.seg_type) && got@ == input@
            })),
    {
        match self {
            Segment::Static(s) => {
                if str_eq(input, s.as_str()) {
                    Ok(MatchResult::new_unnamed(MatchValue::from_str(input)))
                } else {
                    Err(MatchError::MatchError(s.clone(), String::from_str(input)))
                }
            },
            Segment::Terminus => {
                if input.is_empty() {
                    Ok(MatchResult::terminus())
                } else {
                    Err(
                        MatchError::MatchError(
                            String::from_str("<Terminus>"),
                            String::from_str(input),
                        ),
                    )
                }
            },
            Segment::Var(v) => {
                match v.seg_type.match_segment(input) {
                    Ok(parsed) => Ok(MatchResult::new_named(parsed, v.name.clone())),
                    Err(e) => Err(e.with_name(v.name.clone())),
                }
            },
        }
    }
}

} // verus!
