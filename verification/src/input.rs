//! Reading the feedback choice typed by the user: the line is trimmed of
//! white space and read as an unsigned decimal number, 0 when it is not one.
use vstd::prelude::*;

verus! {

/// Characters with the Unicode `White_Space` property.
pub open spec fn is_white_space(c: char) -> bool {
    let u = c as int;
    ||| 0x9 <= u <= 0xd
    ||| u == 0x20
    ||| u == 0x85
    ||| u == 0xa0
    ||| u == 0x1680
    ||| 0x2000 <= u <= 0x200a
    ||| u == 0x2028
    ||| u == 0x2029
    ||| u == 0x202f
    ||| u == 0x205f
    ||| u == 0x3000
}

/// The text without its leading white space.
pub open spec fn trim_start(s: Seq<char>) -> Seq<char>
    decreases s.len(),
{
    if s.len() > 0 && is_white_space(s[0]) { trim_start(s.drop_first()) } else { s }
}

/// The text without its trailing white space.
pub open spec fn trim_end(s: Seq<char>) -> Seq<char>
    decreases s.len(),
{
    if s.len() > 0 && is_white_space(s.last()) { trim_end(s.drop_last()) } else { s }
}

/// The text without leading and trailing white space.
pub open spec fn trimmed(s: Seq<char>) -> Seq<char> {
    trim_end(trim_start(s))
}

pub open spec fn is_decimal_digit(c: char) -> bool {
    0x30 <= c as int <= 0x39
}

/// The value of a string of decimal digits.
pub open spec fn decimal_value(s: Seq<char>) -> int
    decreases s.len(),
{
    if s.len() == 0 {
        0
    } else {
        decimal_value(s.drop_last()) * 10 + (s.last() as int - 0x30)
    }
}

/// An unsigned number in the form that `usize` accepts from a string: an
/// optional `+` followed by at least one decimal digit, with a value that
/// fits in a `usize`.
pub open spec fn parsed_usize(s: Seq<char>) -> Option<usize> {
    let digits = if s.len() > 0 && s[0] == '+' { s.drop_first() } else { s };
    if digits.len() > 0 && (forall|i: int| 0 <= i < digits.len() ==> is_decimal_digit(#[trigger] digits[i]))
        && decimal_value(digits) <= usize::MAX {
        Some(decimal_value(digits) as usize)
    } else {
        None
    }
}

/// Wraps `str::trim`: the text without leading and trailing white space
/// (as the Unicode `White_Space` property defines it).
#[verifier::external_body]
fn trim_text(s: &str) -> (t: &str)
    ensures
        t@ == trimmed(s@),
{
    s.trim()
}

/// Wraps `str::parse::<usize>`, keeping the number and dropping the error:
/// `Some` exactly for an optional `+` and decimal digits whose value fits.
#[verifier::external_body]
fn parse_unsigned(s: &str) -> (n: Option<usize>)
    ensures
        n == parsed_usize(s@),
{
    s.parse::<usize>().ok()
}

/// The feedback choice typed on a line: the number it holds once trimmed,
/// or 0 when it holds none.
pub fn feedback_choice(line: &str) -> (choice: usize)
    ensures
        choice == match parsed_usize(trimmed(line@)) {
            Some(n) => n,
            None => 0,
        },
{
    let t = trim_text(line);
    match parse_unsigned(t) {
        Some(n) => n,
        None => 0,
    }
}

} // verus!
