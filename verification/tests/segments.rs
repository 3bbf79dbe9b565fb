use segmatch::errors::MatchError;
use segmatch::segments::Date;
use segmatch::segments::MatchValue;
use segmatch::segments::SegType;
use segmatch::segments::Segment;
use segmatch::segments::Var;

#[test]
fn seg_type_match_string() -> Result<(), MatchError> {
    let result = SegType::match_string("hello")?;
    assert_eq!(result, MatchValue::String(String::from("hello")));
    Ok(())
}

#[test]
fn seg_type_match_number_ok() -> Result<(), MatchError> {
    let result = SegType::match_number("123.45")?;
    assert_eq!(result, MatchValue::Number(String::from("123.45")));
    Ok(())
}

#[test]
fn seg_type_match_number_err() {
    let result = SegType::match_number("123.45.67");
    assert!(result.is_err());
}

#[test]
fn seg_type_match_date_ok() -> Result<(), MatchError> {
    let result = SegType::match_date("2021-01-01")?;
    assert_eq!(result, MatchValue::Date(Date { year: 2021, month: 1, day: 1 }));
    Ok(())
}

#[test]
fn seg_type_match_date_err() {
    let result = SegType::match_date("2021-01-01-01");
    assert!(result.is_err());
}

#[test]
fn segment_static_match_ok() -> Result<(), MatchError> {
    let segment = Segment::Static("hello".to_string());
    let result = segment.match_segment("hello")?;
    assert_eq!(result.value, MatchValue::String("hello".to_string()));
    Ok(())
}

#[test]
fn segment_static_match_err() -> Result<(), MatchError> {
    let segment = Segment::Static("hello".to_string());
    if let Err(MatchError::MatchError(exp, got)) = segment.match_segment("world") {
        assert_eq!(exp, "hello".to_string());
        assert_eq!(got, "world".to_string());
    } else {
        panic!("Expected error");
    }
    Ok(())
}

#[test]
fn segment_terminus_match_ok() -> Result<(), MatchError> {
    let segment = Segment::Terminus;
    let result = segment.match_segment("")?;
    assert_eq!(result.value, MatchValue::Terminus);
    Ok(())
}

#[test]
fn segment_terminus_match_err() -> Result<(), MatchError> {
    let segment = Segment::Terminus;
    if let Err(MatchError::MatchError(exp, got)) = segment.match_segment("world") {
        assert_eq!(exp, "<Terminus>".to_string());
        assert_eq!(got, "world".to_string());
    } else {
        panic!("Expected error");
    }
    Ok(())
}

#[test]
fn segment_var_match_ok() -> Result<(), MatchError> {
    let segment = Segment::Var(Var::new("num".to_string(), SegType::Number));
    let result = segment.match_segment("123.45")?;
    assert_eq!(result.value, MatchValue::Number(String::from("123.45")));
    Ok(())
}

#[test]
fn segment_var_match_err() -> Result<(), MatchError> {
    let segment = Segment::Var(Var::new("num".to_string(), SegType::Number));
    if let Err(MatchError::NamedMatchError(name, exp, got)) = segment.match_segment("world") {
        assert_eq!(name, "num".to_string());
        assert_eq!(exp, "number".to_string());
        assert_eq!(got, "world".to_string());
    } else {
        panic!("Expected error");
    }
    Ok(())
}
