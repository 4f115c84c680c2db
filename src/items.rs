use vstd::prelude::*;
use crate::error::{ActionError, ActionErrorType};
use crate::outside::{display_width, pad_start, regex_found, regex_is_match, sentence_case, sentence_case_of};
use crate::value::{int_of, Value};

verus! {

/// `s` with `c` in front until it is `width` columns wide.
pub open spec fn padded(s: Seq<char>, width: int, c: char) -> Seq<char> {
    if width <= display_width(s) {
        s
    } else {
        Seq::new((width - display_width(s)) as nat, |_i: int| c) + s
    }
}

/// Pads a string value to a width with a character.
#[derive(Debug)]
pub struct PadEndItem {
    pub pad_char: char,
    pub width: Value,
}

impl PadEndItem {
    pub fn new(pad_char: char, width: Value) -> (r: Self)
        ensures
            r.pad_char == pad_char,
            r.width == width,
    {
        Self { pad_char, width }
    }

    /// The padded string; an error where the value is no string or the
    /// width is no count.
    pub fn call(&self, value: &Value) -> (r: Result<Value, ActionError>)
        ensures
            r is Ok <==> (value is String && int_of(self.width) is Some && 0 <= int_of(self.width)->Some_0
                <= usize::MAX),
            r is Ok ==> r->Ok_0 is String && r->Ok_0->String_0@ == padded(
                value->String_0@,
                int_of(self.width)->Some_0,
                self.pad_char,
            ),
    {
        let s = match value {
            Value::String(s) => s,
            _ => {
                return Err(ActionError::internal_server_error("padEnd: value is not string".to_string()));
            },
        };
        let width = match self.width.as_int() {
            Some(w) if w >= 0 && w as u64 <= usize::MAX as u64 => w as usize,
            _ => {
                return Err(ActionError::internal_server_error("padEnd: width is not a count".to_string()));
            },
        };
        Ok(Value::String(pad_start(s.as_str(), width, self.pad_char)))
    }
}

/// Turns a string value into sentence case.
#[derive(Debug, Copy, Clone)]
pub struct ToSentenceCaseItem {}

impl ToSentenceCaseItem {
    pub fn new() -> (r: Self) {
        Self {}
    }

    pub fn call(&self, value: &Value) -> (r: Result<Value, ActionError>)
        ensures
            r is Ok <==> value is String,
            r is Ok ==> r->Ok_0 is String && r->Ok_0->String_0@ == sentence_case_of(value->String_0@),
    {
        match value {
            Value::String(s) => Ok(Value::String(sentence_case(s.as_str()))),
            _ => Err(ActionError::internal_server_error("value is not string".to_string())),
        }
    }
}

/// Accepts a string value that a regular expression matches.
#[derive(Debug)]
pub struct RegexMatchModifier {
    pub argument: Value,
}

impl RegexMatchModifier {
    pub fn new(format: Value) -> (r: Self)
        ensures
            r.argument == format,
    {
        Self { argument: format }
    }

    pub fn name(&self) -> (r: &'static str)
        ensures
            r@ == "regexMatch"@,
    {
        "regexMatch"
    }

    /// The value, where it is a string that the pattern matches; else a
    /// validation error.
    pub fn call(&self, value: &Value) -> (r: Result<(), ActionError>)
        ensures
            r is Ok <==> (value is String && self.argument is String && regex_found(
                self.argument->String_0@,
                value->String_0@,
            ) == Some(true)),
            r is Err ==> r->Err_0.error_type == ActionErrorType::ValidationError
                || r->Err_0.error_type == ActionErrorType::InternalServerError,
    {
        let pattern = match &self.argument {
            Value::String(p) => p,
            _ => {
                return Err(ActionError::internal_server_error("regexMatch: argument is not a pattern".to_string()));
            },
        };
        match value {
            Value::String(s) => match regex_is_match(pattern.as_str(), s.as_str()) {
                Some(true) => Ok(()),
                Some(false) => {
                    let mut reason = "Value does not match '".to_string();
                    vstd::string::StringExecFns::append(&mut reason, pattern.as_str());
                    vstd::string::StringExecFns::append(&mut reason, "'");
                    Err(ActionError { error_type: ActionErrorType::ValidationError, message: reason, errors: None })
                },
                None => Err(ActionError::internal_server_error("regexMatch: pattern does not compile".to_string())),
            },
            _ => Err(
                ActionError {
                    error_type: ActionErrorType::ValidationError,
                    message: "Value is not string.".to_string(),
                    errors: None,
                },
            ),
        }
    }
}

} // verus!
