use segmatch::errors::MatchError;
use segmatch::errors::ParserConfigError;
use segmatch::segments::Date;
use segmatch::segments::MatchValue;
use segmatch::segments::SegType;
use segmatch::segments::Segment;
use segmatch::segments::Var;

fn assert_string_identity(input: &str) {
    match SegType::match_string(input) {
        Ok(MatchValue::String(s)) => assert_eq!(s, input),
        _ => panic!("string coercion must succeed verbatim"),
    }
}

#[test]
fn string_coercion_is_identity() {
    assert_string_identity("");
    assert_string_identity("hello");
    assert_string_identity("123.45");
    assert_string_identity("naïve / path?");
}

#[test]
fn number_accepts_float_literals() {
    for input in [
        "0", "123", "123.45", "-0.5", "+7", ".5", "5.", "1e10", "2.5E-3", "-1.e2", "inf", "-inf",
        "Infinity", "NaN", "nan",
    ] {
        match SegType::match_number(input) {
            Ok(MatchValue::Number(s)) => assert_eq!(s, input),
            _ => panic!("number coercion must accept {input}"),
        }
    }
}

#[test]
fn number_rejects_trailing_garbage() {
    for input in [
        "", ".", "+", "-", "e5", "1e", "1e+", "123.45.67", "1.2.3", "--1", "12a", " 1", "1 ",
        "infx", "0x10",
    ] {
        match SegType::match_number(input) {
            Err(MatchError::MatchError(exp, got)) => {
                assert_eq!(exp, "number");
                assert_eq!(got, input);
            },
            _ => panic!("number coercion must reject {input}"),
        }
    }
}

#[test]
fn date_accepts_canonical_dates() {
    match SegType::match_date("2024-02-29") {
        Ok(MatchValue::Date(d)) => assert_eq!(d, Date { year: 2024, month: 2, day: 29 }),
        _ => panic!("leap day must parse"),
    }
    match SegType::match_date("1999-12-31") {
        Ok(MatchValue::Date(d)) => assert_eq!(d, Date { year: 1999, month: 12, day: 31 }),
        _ => panic!("canonical date must parse"),
    }
}

#[test]
fn date_rejects_malformed_dates() {
    for input in ["2023-02-29", "2021-13-01", "2021-01", "01-01-2021", "hello", ""] {
        match SegType::match_date(input) {
            Err(MatchError::MatchError(exp, got)) => {
                assert_eq!(exp, "date");
                assert_eq!(got, input);
            },
            _ => panic!("date coercion must reject {input}"),
        }
    }
}

#[test]
fn seg_type_token_mapping() {
    assert_eq!(SegType::try_from(""), Ok(SegType::String));
    assert_eq!(SegType::try_from("string"), Ok(SegType::String));
    assert_eq!(SegType::try_from("number"), Ok(SegType::Number));
    assert_eq!(SegType::try_from("date"), Ok(SegType::Date));
    assert_eq!(
        SegType::try_from("decimal"),
        Err(ParserConfigError::InvalidSegmentType)
    );
    assert_eq!(
        SegType::try_from("String"),
        Err(ParserConfigError::InvalidSegmentType)
    );
}

#[test]
fn with_name_annotates_unnamed_failure() {
    let e = MatchError::MatchError("number".to_string(), "world".to_string());
    match e.with_name("num".to_string()) {
        MatchError::NamedMatchError(name, exp, got) => {
            assert_eq!(name, "num");
            assert_eq!(exp, "number");
            assert_eq!(got, "world");
        },
        _ => panic!("annotation must name the failure"),
    }
}

#[test]
fn with_name_is_idempotent() {
    let e = MatchError::MatchError("number".to_string(), "world".to_string());
    let named = e.with_name("first".to_string());
    match named.with_name("second".to_string()) {
        MatchError::NamedMatchError(name, exp, got) => {
            assert_eq!(name, "first");
            assert_eq!(exp, "number");
            assert_eq!(got, "world");
        },
        _ => panic!("annotation must keep the failure named"),
    }
}

#[test]
fn var_match_keeps_name_and_type() {
    let var = Var::new("day".to_string(), SegType::Date);
    assert_eq!(var.name, "day");
    assert_eq!(var.seg_type, SegType::Date);
    let segment = Segment::Var(var);
    match segment.match_segment("2021-01-01") {
        Ok(result) => {
            assert_eq!(result.name, Some("day".to_string()));
            assert_eq!(result.value, MatchValue::Date(Date { year: 2021, month: 1, day: 1 }));
        },
        Err(_) => panic!("date variable must match a canonical date"),
    }
}

#[test]
fn static_and_terminus_matches_are_unnamed() {
    let segment = Segment::Static("users".to_string());
    let result = segment.match_segment("users").unwrap();
    assert_eq!(result.name, None);
    let end = Segment::Terminus;
    let result = end.match_segment("").unwrap();
    assert_eq!(result.name, None);
    assert_eq!(result.value, MatchValue::Terminus);
}
