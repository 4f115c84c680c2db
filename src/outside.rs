use vstd::prelude::*;

verus! {

/// The text of the first capture group in the first match of `pattern` in
/// `text`; none where the pattern does not compile, nothing matches, or the
/// group took no part in the match.
pub uninterp spec fn regex_first_group(pattern: Seq<char>, text: Seq<char>) -> Option<Seq<char>>;

/// Whether `pattern` matches somewhere in `text`; none where the pattern
/// does not compile.
pub uninterp spec fn regex_found(pattern: Seq<char>, text: Seq<char>) -> Option<bool>;

/// The number of terminal columns that `s` takes.
pub uninterp spec fn display_width(s: Seq<char>) -> nat;

/// The sentence-case form of `s`.
pub uninterp spec fn sentence_case_of(s: Seq<char>) -> Seq<char>;

/// The day, counted from 1970-01-01, of the calendar date that `s` writes
/// in the format `fmt`; none where `s` is no such date.
pub uninterp spec fn parsed_date_days(s: Seq<char>, fmt: Seq<char>) -> Option<i64>;

/// Relies on chrono's NaiveDate::parse_from_str and
/// NaiveDate::signed_duration_since.
#[verifier::external_body]
pub(crate) fn parse_date(s: &str, fmt: &str) -> (r: Option<i64>)
    ensures
        match parsed_date_days(s@, fmt@) {
            Some(d) => r == Some(d),
            None => r is None,
        },
{
    let epoch = match chrono::NaiveDate::from_ymd_opt(1970, 1, 1) {
        Some(d) => d,
        None => return None,
    };
    match chrono::NaiveDate::parse_from_str(s, fmt) {
        Ok(d) => Some(d.signed_duration_since(epoch).num_days()),
        Err(_) => None,
    }
}

/// The upper-case form of `s`.
pub uninterp spec fn uppercase_of(s: Seq<char>) -> Seq<char>;

/// Relies on str::to_uppercase: the result depends on the characters alone.
#[verifier::external_body]
pub(crate) fn uppercase(s: &str) -> (r: String)
    ensures
        r@ == uppercase_of(s@),
{
    s.to_uppercase()
}

/// Relies on regex::Regex::new, Regex::captures and Captures::get: the
/// first capture group of the first match.
#[verifier::external_body]
pub(crate) fn first_capture(pattern: &str, text: &str) -> (r: Option<String>)
    ensures
        match regex_first_group(pattern@, text@) {
            Some(g) => r is Some && r->Some_0@ == g,
            None => r is None,
        },
{
    let re = match regex::Regex::new(pattern) {
        Ok(re) => re,
        Err(_) => return None,
    };
    let caps = match re.captures(text) {
        Some(caps) => caps,
        None => return None,
    };
    match caps.get(1) {
        Some(m) => Some(m.as_str().to_string()),
        None => None,
    }
}

/// Relies on regex::Regex::new and Regex::is_match.
#[verifier::external_body]
pub(crate) fn regex_is_match(pattern: &str, text: &str) -> (r: Option<bool>)
    ensures
        r == regex_found(pattern@, text@),
{
    match regex::Regex::new(pattern) {
        Ok(re) => Some(re.is_match(text)),
        Err(_) => None,
    }
}

/// Relies on pad::PadStr::pad with right alignment and no truncation: a
/// string narrower than `width` columns gets `c` in front until it is
/// `width` columns wide; a wider one is left as it is.
#[verifier::external_body]
pub(crate) fn pad_start(s: &str, width: usize, c: char) -> (r: String)
    ensures
        r@ == if width <= display_width(s@) {
            s@
        } else {
            Seq::new((width - display_width(s@)) as nat, |_i: int| c) + s@
        },
{
    pad::PadStr::pad(s, width, c, pad::Alignment::Right, false)
}

/// Relies on inflector's to_sentence_case.
#[verifier::external_body]
pub(crate) fn sentence_case(s: &str) -> (r: String)
    ensures
        r@ == sentence_case_of(s@),
{
    inflector::cases::sentencecase::to_sentence_case(s)
}

} // verus!
