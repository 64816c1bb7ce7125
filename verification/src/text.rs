//! Small operations on text: URLs with and without trailing slashes,
//! joined texts, numbers in decimal.

use vstd::prelude::*;
use vstd::string::{StrSliceExecFns, StringExecFns};

verus! {

/// Appends one character to the text (`String::push`).
pub assume_specification[ String::push ](text: &mut String, c: char)
    ensures
        final(text)@ == old(text)@.push(c),
;

/// The text ends in a slash.
pub open spec fn ends_in_slash(s: Seq<char>) -> bool {
    s.len() > 0 && s.last() == '/'
}

/// The text without the slashes at its end.
pub open spec fn without_trailing_slashes(s: Seq<char>) -> Seq<char>
    decreases s.len(),
{
    if ends_in_slash(s) {
        without_trailing_slashes(s.drop_last())
    } else {
        s
    }
}

/// Whether the text ends in a slash.
pub fn has_trailing_slash(s: &str) -> (yes: bool)
    ensures
        yes == ends_in_slash(s@),
{
    let len = s.unicode_len();
    len > 0 && s.get_char(len - 1) == '/'
}

/// The text up to, and without, the slashes at its end.
pub fn trim_trailing_slashes(s: &str) -> (trimmed: &str)
    ensures
        trimmed@ == without_trailing_slashes(s@),
{
    let mut end = s.unicode_len();
    let mut scanning = true;
    assert(s@.take(end as int) =~= s@);
    while scanning
        invariant
            end <= s@.len(),
            without_trailing_slashes(s@) == without_trailing_slashes(s@.take(end as int)),
            !scanning ==> !ends_in_slash(s@.take(end as int)),
        decreases end + if scanning { 1int } else { 0int },
    {
        if end > 0 && s.get_char(end - 1) == '/' {
            assert(s@.take(end as int).drop_last() =~= s@.take(end - 1));
            end = end - 1;
        } else {
            scanning = false;
        }
    }
    s.substring_char(0, end)
}

/// The decimal digit for a value below ten.
pub open spec fn decimal_digit(d: nat) -> char {
    (48 + d) as u8 as char
}

/// A number written in decimal, without leading zeros.
pub open spec fn decimal_digits(n: nat) -> Seq<char>
    decreases n,
{
    if n < 10 {
        seq![decimal_digit(n)]
    } else {
        decimal_digits(n / 10).push(decimal_digit(n % 10))
    }
}

/// Writes a number in decimal.
pub fn decimal(n: u128) -> (text: String)
    ensures
        text@ == decimal_digits(n as nat),
    decreases n,
{
    let last = (48 + (n % 10) as u8) as char;
    if n < 10 {
        let mut text = String::new();
        text.push(last);
        assert(text@ =~= seq![decimal_digit(n as nat)]);
        text
    } else {
        let mut text = decimal(n / 10);
        text.push(last);
        text
    }
}

/// The two texts, one after the other.
pub fn join(first: &str, second: &str) -> (joined: String)
    ensures
        joined@ == first@ + second@,
{
    String::from_str(first).concat(second)
}

} // verus!
