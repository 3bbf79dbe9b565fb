//! Mapping from textual configuration tokens to segment types.

use vstd::prelude::*;
use crate::errors::ParserConfigError;
use crate::segments::SegType;
use crate::segments::str_eq;

verus! {

broadcast use vstd::string::group_string_axioms;

impl SegType {
    /// Maps a configuration token to a segment type: the empty token and
    /// `"string"` name `String`, `"number"` names `Number`, `"date"` names
    /// `Date`, and every other token is rejected.
    pub fn try_from(value: &str) -> (r: Result<SegType, ParserConfigError>)
        ensures
            value@ == ""@ || value@ == "string"@ ==> r == Ok::<SegType, ParserConfigError>(
                SegType::String,
            ),
            value@ == "number"@ ==> r == Ok::<SegType, ParserConfigError>(SegType::Number),
            value@ == "date"@ ==> r == Ok::<SegType, ParserConfigError>(SegType::Date),
            value@ != ""@ && value@ != "string"@ && value@ != "number"@ && value@ != "date"@
                ==> r == Err::<SegType, ParserConfigError>(ParserConfigError::InvalidSegmentType),
    {
        proof {
            reveal_strlit("");
            reveal_strlit("string");
            reveal_strlit("number");
            reveal_strlit("date");
            assert("string"@[0] != "number"@[0]);
        }
        if value.is_empty() {
            proof {
                assert(value@ =~= ""@);
            }
            Ok(SegType::String)
        } else if str_eq(value, "string") {
            Ok(SegType::String)
        } else if str_eq(value, "number") {
            Ok(SegType::Number)
        } else if str_eq(value, "date") {
            Ok(SegType::Date)
        } else {
            Err(ParserConfigError::InvalidSegmentType)
        }
    }
}

} // verus!
